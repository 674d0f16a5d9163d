//! Facts about UTF-8 encoded text that the string type's contracts rest on.

use vstd::prelude::*;
use vstd::utf8::*;
use vstd::string::StringSliceAdditionalSpecFns;

verus! {

/// Encoding distributes over concatenation.
pub proof fn lemma_encode_utf8_concat(a: Seq<char>, b: Seq<char>)
    ensures
        encode_utf8(a + b) == encode_utf8(a) + encode_utf8(b),
    decreases a.len(),
{
    if a.len() == 0 {
        assert(a + b =~= b);
        assert(encode_utf8(a) + encode_utf8(b) =~= encode_utf8(b));
    } else {
        lemma_encode_utf8_concat(a.drop_first(), b);
        assert((a + b).drop_first() =~= a.drop_first() + b);
        assert(encode_utf8(a + b) =~= encode_utf8(a) + encode_utf8(b));
    }
}

/// Decoding distributes over the concatenation of two valid encodings.
pub proof fn lemma_decode_utf8_concat(b1: Seq<u8>, b2: Seq<u8>)
    requires
        valid_utf8(b1),
        valid_utf8(b2),
    ensures
        valid_utf8(b1 + b2),
        decode_utf8(b1 + b2) == decode_utf8(b1) + decode_utf8(b2),
{
    valid_utf8_concat(b1, b2);
    decode_utf8_encode_utf8(b1);
    decode_utf8_encode_utf8(b2);
    lemma_encode_utf8_concat(decode_utf8(b1), decode_utf8(b2));
    encode_utf8_decode_utf8(decode_utf8(b1) + decode_utf8(b2));
}

/// A text of one character is encoded as that character is.
pub proof fn lemma_encode_utf8_single(c: char)
    ensures
        encode_utf8(seq![c]) == encode_scalar(c as u32),
        1 <= encode_scalar(c as u32).len() <= 4,
{
    let s = seq![c];
    assert(s.drop_first() =~= Seq::<char>::empty());
    assert(encode_utf8(s.drop_first()) =~= Seq::<u8>::empty()) by {
        reveal_with_fuel(encode_utf8, 1);
    }
    assert(encode_utf8(s) =~= encode_scalar(c as u32)) by {
        reveal_with_fuel(encode_utf8, 2);
    }
}

/// Reads `bytes` as text, where they are valid UTF-8.
///
/// This is `core::str::from_utf8`, with its error dropped. What is taken on
/// trust of it: that it accepts exactly the valid UTF-8 sequences, and that
/// the text it gives is made of the very bytes it was given.
#[verifier::external_body]
pub(crate) fn str_from_utf8(bytes: &[u8]) -> (r: Option<&str>)
    ensures
        r is Some <==> valid_utf8(bytes@),
        r is Some ==> r->Some_0.spec_bytes() == bytes@,
{
    match core::str::from_utf8(bytes) {
        Ok(s) => Some(s),
        Err(_) => None,
    }
}

/// Returns the number of bytes that `c` takes when encoded in UTF-8: 1 to 4.
pub fn len_utf8(c: char) -> (n: usize)
    ensures
        n == encode_scalar(c as u32).len(),
        n == encode_utf8(seq![c]).len(),
        1 <= n <= 4,
{
    proof {
        lemma_encode_utf8_single(c);
    }
    let code: u32 = c as u32;
    if code < 0x80 {
        1
    } else if code < 0x800 {
        2
    } else if code < 0x10000 {
        3
    } else {
        4
    }
}

/// Encodes `c` as UTF-8 into the front of `buf` and returns the number of
/// bytes that the encoding takes. The bytes of `buf` behind them are left
/// as they were.
pub fn encode_char(c: char, buf: &mut [u8; 4]) -> (n: usize)
    ensures
        1 <= n <= 4,
        final(buf)@.subrange(0, n as int) == encode_scalar(c as u32),
        final(buf)@.subrange(0, n as int) == encode_utf8(seq![c]),
        final(buf)@.subrange(n as int, 4) == old(buf)@.subrange(n as int, 4),
{
    let code: u32 = c as u32;
    let n = len_utf8(c);
    if n == 1 {
        buf[0] = low_bits(code, 0x7F);
    } else if n == 2 {
        buf[0] = 0xC0 | low_bits(code >> 6, 0x1F);
        buf[1] = 0x80 | low_bits(code, 0x3F);
    } else if n == 3 {
        buf[0] = 0xE0 | low_bits(code >> 12, 0x0F);
        buf[1] = 0x80 | low_bits(code >> 6, 0x3F);
        buf[2] = 0x80 | low_bits(code, 0x3F);
    } else {
        buf[0] = 0xF0 | low_bits(code >> 18, 0x07);
        buf[1] = 0x80 | low_bits(code >> 12, 0x3F);
        buf[2] = 0x80 | low_bits(code >> 6, 0x3F);
        buf[3] = 0x80 | low_bits(code, 0x3F);
    }
    proof {
        lemma_encode_utf8_single(c);
        assert(buf@.subrange(0, n as int) =~= encode_scalar(c as u32));
        assert(buf@.subrange(n as int, 4) =~= old(buf)@.subrange(n as int, 4));
    }
    n
}

/// The bits of `v` that `mask` selects, as a byte. The mask fits in a byte.
fn low_bits(v: u32, mask: u32) -> (b: u8)
    requires
        mask <= 0xFF,
    ensures
        b == (v & mask) as u8,
{
    let m: u32 = v & mask;
    assert(m <= 0xFF) by (bit_vector)
        requires
            m == v & mask,
            mask <= 0xFF,
    ;
    m as u8
}

} // verus!
