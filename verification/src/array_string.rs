use vstd::prelude::*;
use vstd::utf8::*;
use vstd::slice::slice_subrange;
use vstd::string::StringSliceAdditionalSpecFns;
use core::borrow::Borrow;
use core::fmt::Write;
use core::ops::Deref;
use crate::errors::CapacityError;
use crate::format::{debug_str, fmt_error};
use crate::model::{appended, fits, utf8_len};
use crate::text::{encode_char, lemma_decode_utf8_concat, lemma_encode_utf8_single, str_from_utf8};

verus! {

broadcast use vstd::array::group_array_axioms;

/// A string with a fixed capacity.
///
/// The `ArrayString` is a string backed by a fixed size array of `CAP` bytes.
/// It keeps track of its length; the bytes in front of the length are always
/// valid UTF-8, and the bytes behind it are never read.
///
/// The string is a contiguous value that you can store directly on the stack
/// if needed.
#[derive(Clone, Copy)]
pub struct ArrayString<const CAP: usize> {
    xs: [u8; CAP],
    len: usize,
}

impl<const CAP: usize> View for ArrayString<CAP> {
    type V = Seq<char>;

    /// The text held: the bytes in use, decoded.
    open spec fn view(&self) -> Seq<char> {
        decode_utf8(self.bytes())
    }
}

impl<const CAP: usize> ArrayString<CAP> {
    /// The backing storage, all `CAP` bytes of it.
    pub closed spec fn storage(self) -> Seq<u8> {
        self.xs@
    }

    /// The number of bytes in use.
    pub closed spec fn spec_len(self) -> nat {
        self.len as nat
    }

    /// The bytes in use: the leading `spec_len()` bytes of the storage.
    pub open spec fn bytes(self) -> Seq<u8> {
        self.storage().subrange(0, self.spec_len() as int)
    }

    /// What holds of every `ArrayString` at all times: the length is within
    /// the capacity, and the bytes in use are valid UTF-8.
    #[verifier::type_invariant]
    pub open spec fn inv(self) -> bool {
        &&& self.storage().len() == CAP
        &&& self.spec_len() <= CAP
        &&& valid_utf8(self.bytes())
    }

    /// The bytes in use are the encoding of the text held, so the length is
    /// the number of bytes that the text takes in UTF-8.
    pub proof fn lemma_bytes_encode_text(self)
        requires
            self.inv(),
        ensures
            self.bytes() == encode_utf8(self@),
            self.spec_len() == utf8_len(self@),
            utf8_len(self@) <= CAP,
    {
        decode_utf8_encode_utf8(self.bytes());
    }

    /// Create a new empty `ArrayString`.
    ///
    /// Capacity is given by the type parameter.
    pub fn new() -> (s: Self)
        ensures
            s@ == Seq::<char>::empty(),
            s.spec_len() == 0,
    {
        let s = ArrayString { xs: [0u8; CAP], len: 0 };
        proof {
            assert(s.bytes() =~= Seq::<u8>::empty());
            assert(decode_utf8(Seq::<u8>::empty()) =~= Seq::<char>::empty());
        }
        s
    }

    /// Return the capacity of the `ArrayString`.
    ///
    /// It is the type's parameter, whatever the string holds.
    #[inline]
    pub fn capacity(&self) -> (c: usize)
        ensures
            c == CAP,
    {
        CAP
    }

    /// Return the length of the string in bytes.
    #[inline]
    pub fn len(&self) -> (n: usize)
        ensures
            n == self.spec_len(),
            n == utf8_len(self@),
            n <= CAP,
    {
        proof {
            use_type_invariant(self);
            self.lemma_bytes_encode_text();
        }
        self.len
    }

    /// The bytes in use, which are the UTF-8 encoding of the text held.
    #[inline]
    pub fn as_bytes(&self) -> (b: &[u8])
        ensures
            b@ == self.bytes(),
            b@ == encode_utf8(self@),
    {
        proof {
            use_type_invariant(self);
            self.lemma_bytes_encode_text();
        }
        slice_subrange(self.xs.as_slice(), 0, self.len)
    }

    /// Adds the given char to the end of the string.
    ///
    /// Returns `Ok` if the push succeeds, and returns `Err`, with the char in
    /// it, if the backing array is not large enough to fit the additional
    /// char. On `Err` the string is as it was.
    pub fn push(&mut self, c: char) -> (r: Result<(), CapacityError<char>>)
        ensures
            r is Ok <==> fits(CAP as nat, old(self)@, seq![c]),
            final(self)@ == appended(CAP as nat, old(self)@, seq![c]),
            r is Ok ==> final(self)@ == old(self)@.push(c) && final(self).bytes() == old(
                self,
            ).bytes() + encode_scalar(c as u32),
            r is Err ==> r->Err_0.element == c && *final(self) == *old(self),
    {
        match self.write_char(c) {
            Ok(()) => Ok(()),
            Err(_) => Err(CapacityError::new(c)),
        }
    }

    /// Adds the given string slice to the end of the string.
    ///
    /// Returns `Ok` if the push succeeds, and returns `Err`, with the slice
    /// in it, if the backing array is not large enough to fit the string.
    /// On `Err` nothing has been written, not even a part of the slice that
    /// would have fit: the string is as it was.
    pub fn push_str<'a>(&mut self, s: &'a str) -> (r: Result<(), CapacityError<&'a str>>)
        ensures
            r is Ok <==> fits(CAP as nat, old(self)@, s@),
            final(self)@ == appended(CAP as nat, old(self)@, s@),
            r is Ok ==> final(self).bytes() == old(self).bytes() + s.spec_bytes(),
            r is Err ==> r->Err_0.element == s && *final(self) == *old(self),
    {
        proof {
            encode_utf8_valid_utf8(s@);
            encode_utf8_decode_utf8(s@);
        }
        if self.extend_from_bytes(s.as_bytes()) {
            Ok(())
        } else {
            Err(CapacityError::new(s))
        }
    }

    /// Appends the bytes of `src`, which are valid UTF-8, if they fit, and
    /// says whether they did. Where they do not fit nothing is written.
    ///
    /// The room left is compared with the length of `src` without forming
    /// the sum of the two lengths, so the test cannot wrap around.
    fn extend_from_bytes(&mut self, src: &[u8]) -> (fitted: bool)
        requires
            valid_utf8(src@),
        ensures
            fitted <==> old(self).spec_len() + src@.len() <= CAP,
            fitted <==> fits(CAP as nat, old(self)@, decode_utf8(src@)),
            final(self)@ == appended(CAP as nat, old(self)@, decode_utf8(src@)),
            fitted ==> final(self).bytes() == old(self).bytes() + src@,
            !fitted ==> *final(self) == *old(self),
    {
        proof {
            use_type_invariant(&*self);
            self.lemma_bytes_encode_text();
            decode_utf8_encode_utf8(src@);
        }
        let n = src.len();
        if n > CAP - self.len {
            return false;
        }
        let start = self.len;
        let ghost before = self.xs@;
        let mut i: usize = 0;
        while i < n
            invariant
                i <= n,
                n == src@.len(),
                start + n <= CAP,
                self.len == start,
                before.len() == CAP,
                valid_utf8(before.subrange(0, start as int)),
                self.xs@.subrange(0, start as int) == before.subrange(0, start as int),
                self.xs@.subrange(start as int, start + i) == src@.subrange(0, i as int),
            decreases n - i,
        {
            let ghost prev = self.xs@;
            let b = src[i];
            proof {
                let next = prev.update(start + i, b);
                assert(next.subrange(0, start as int) =~= prev.subrange(0, start as int));
                assert(next.subrange(start as int, start + i + 1) =~= prev.subrange(
                    start as int,
                    start + i,
                ).push(b));
                assert(src@.subrange(0, i + 1) =~= src@.subrange(0, i as int).push(b));
            }
            self.xs[start + i] = b;
            i += 1;
        }
        proof {
            assert(src@.subrange(0, n as int) =~= src@);
            assert(self.xs@.subrange(0, start + n) =~= self.xs@.subrange(0, start as int)
                + self.xs@.subrange(start as int, start + n));
            lemma_decode_utf8_concat(before.subrange(0, start as int), src@);
        }
        self.len = start + n;
        true
    }

    /// Make the string empty.
    ///
    /// The storage is not erased: only the length is reset.
    pub fn clear(&mut self)
        ensures
            final(self)@ == Seq::<char>::empty(),
            final(self).spec_len() == 0,
            final(self).storage() == old(self).storage(),
    {
        proof {
            use_type_invariant(&*self);
            assert(self.storage().subrange(0, 0) =~= Seq::<u8>::empty());
            assert(decode_utf8(Seq::<u8>::empty()) =~= Seq::<char>::empty());
        }
        self.set_len(0);
    }

    /// Set the string's length.
    ///
    /// This changes the notion of the number of valid bytes in the string
    /// and writes nothing. The caller has to show that `length` is within the
    /// capacity, and that the first `length` bytes of the storage are valid
    /// UTF-8.
    #[inline]
    pub fn set_len(&mut self, length: usize)
        requires
            length <= CAP,
            valid_utf8(old(self).storage().subrange(0, length as int)),
        ensures
            final(self).spec_len() == length,
            final(self).storage() == old(self).storage(),
    {
        self.len = length;
    }
}

impl<const CAP: usize> Deref for ArrayString<CAP> {
    type Target = str;

    /// The text held, as a string slice over the bytes in use.
    #[inline]
    fn deref(&self) -> (s: &str)
        ensures
            s@ == self@,
            s.spec_bytes() == self.bytes(),
    {
        proof {
            use_type_invariant(self);
        }
        match str_from_utf8(self.as_bytes()) {
            Some(s) => {
                proof {
                    encode_utf8_decode_utf8(s@);
                }
                s
            },
            None => vstd::pervasive::unreached(),
        }
    }
}

impl<const CAP: usize> Borrow<str> for ArrayString<CAP> {
    fn borrow(&self) -> (s: &str)
        ensures
            self.is_text_of(s),
    {
        self.deref()
    }
}

impl<const CAP: usize> AsRef<str> for ArrayString<CAP> {
    fn as_ref(&self) -> (s: &str)
        ensures
            self.is_text_of(s),
    {
        self.deref()
    }
}

impl<const CAP: usize> ArrayString<CAP> {
    /// Whether `s` is what this string holds: the same text, in the same
    /// bytes.
    pub open spec fn is_text_of(self, s: &str) -> bool {
        s@ == self@ && s.spec_bytes() == self.bytes()
    }
}

/// The string is rendered as its text is.
impl<const CAP: usize> core::fmt::Debug for ArrayString<CAP> {
    fn fmt(&self, f: &mut core::fmt::Formatter<'_>) -> core::fmt::Result {
        debug_str(self.deref(), f)
    }
}

/// `Write` appends written data to the end of the string.
///
/// A fragment that does not fit fails the write and leaves the string as it
/// was; the error does not say which fragment it was.
impl<const CAP: usize> Write for ArrayString<CAP> {
    fn write_str(&mut self, s: &str) -> (r: core::fmt::Result)
        ensures
            r is Ok <==> fits(CAP as nat, old(self)@, s@),
            final(self)@ == appended(CAP as nat, old(self)@, s@),
            r is Ok ==> final(self).bytes() == old(self).bytes() + s.spec_bytes(),
            r is Err ==> *final(self) == *old(self),
    {
        match self.push_str(s) {
            Ok(()) => Ok(()),
            Err(_) => Err(fmt_error()),
        }
    }

    fn write_char(&mut self, c: char) -> (r: core::fmt::Result)
        ensures
            r is Ok <==> fits(CAP as nat, old(self)@, seq![c]),
            final(self)@ == appended(CAP as nat, old(self)@, seq![c]),
            r is Ok ==> final(self)@ == old(self)@.push(c) && final(self).bytes() == old(
                self,
            ).bytes() + encode_scalar(c as u32),
            r is Err ==> *final(self) == *old(self),
    {
        let mut buf = [0u8; 4];
        let n = encode_char(c, &mut buf);
        let encoded = slice_subrange(buf.as_slice(), 0, n);
        proof {
            lemma_encode_utf8_single(c);
            encode_utf8_valid_utf8(seq![c]);
            encode_utf8_decode_utf8(seq![c]);
            assert(old(self)@ + seq![c] =~= old(self)@.push(c));
        }
        if self.extend_from_bytes(encoded) {
            Ok(())
        } else {
            Err(fmt_error())
        }
    }
}

} // verus!
