//! The mathematical model of a bounded string: a text, `Seq<char>`, whose
//! UTF-8 encoding takes no more bytes than a capacity, and what appending
//! does to it. The contracts of `ArrayString` are stated over this model; the
//! laws proved here hold of every capacity and every text.

use vstd::prelude::*;
use vstd::utf8::*;
use crate::text::lemma_encode_utf8_concat;

verus! {

/// The number of bytes that `text` takes when encoded in UTF-8.
pub open spec fn utf8_len(text: Seq<char>) -> nat {
    encode_utf8(text).len()
}

/// Whether `add` can be appended to `text` within `cap` bytes.
pub open spec fn fits(cap: nat, text: Seq<char>, add: Seq<char>) -> bool {
    utf8_len(text) + utf8_len(add) <= cap
}

/// The text held after trying to append `add` to `text`: all of `add` is
/// appended where it fits, and nothing of it where it does not.
pub open spec fn appended(cap: nat, text: Seq<char>, add: Seq<char>) -> Seq<char> {
    if fits(cap, text, add) {
        text + add
    } else {
        text
    }
}

/// The text held after trying to append the characters of `chars` to `text`
/// one at a time, in order.
pub open spec fn pushed_each(cap: nat, text: Seq<char>, chars: Seq<char>) -> Seq<char>
    decreases chars.len(),
{
    if chars.len() == 0 {
        text
    } else {
        pushed_each(cap, appended(cap, text, seq![chars[0]]), chars.drop_first())
    }
}

/// Whether each of `parts`, appended in order to `text`, fits in its turn.
pub open spec fn all_fit(cap: nat, text: Seq<char>, parts: Seq<Seq<char>>) -> bool
    decreases parts.len(),
{
    parts.len() > 0 ==> fits(cap, text, parts[0]) && all_fit(
        cap,
        text + parts[0],
        parts.drop_first(),
    )
}

/// The text held after trying to append each of `parts` to `text`, in order.
pub open spec fn appended_all(cap: nat, text: Seq<char>, parts: Seq<Seq<char>>) -> Seq<char>
    decreases parts.len(),
{
    if parts.len() == 0 {
        text
    } else {
        appended_all(cap, appended(cap, text, parts[0]), parts.drop_first())
    }
}

/// The sum of the encoded lengths of `parts`.
pub open spec fn total_utf8_len(parts: Seq<Seq<char>>) -> nat
    decreases parts.len(),
{
    if parts.len() == 0 {
        0
    } else {
        utf8_len(parts[0]) + total_utf8_len(parts.drop_first())
    }
}

/// The encoded length of a concatenation is the sum of the encoded lengths.
pub proof fn lemma_utf8_len_concat(a: Seq<char>, b: Seq<char>)
    ensures
        utf8_len(a + b) == utf8_len(a) + utf8_len(b),
{
    lemma_encode_utf8_concat(a, b);
}

/// A failed append changes nothing, and a successful one adds exactly the
/// encoded length of what was appended.
pub proof fn lemma_appended_len(cap: nat, text: Seq<char>, add: Seq<char>)
    ensures
        !fits(cap, text, add) ==> appended(cap, text, add) == text,
        fits(cap, text, add) ==> utf8_len(appended(cap, text, add)) == utf8_len(text) + utf8_len(
            add,
        ),
        utf8_len(text) <= cap ==> utf8_len(appended(cap, text, add)) <= cap,
{
    lemma_utf8_len_concat(text, add);
}

/// Where each of a sequence of appends succeeds, the length in bytes grows
/// by the sum of the encoded lengths of what was appended.
pub proof fn lemma_appended_all_len(cap: nat, text: Seq<char>, parts: Seq<Seq<char>>)
    requires
        all_fit(cap, text, parts),
    ensures
        utf8_len(appended_all(cap, text, parts)) == utf8_len(text) + total_utf8_len(parts),
    decreases parts.len(),
{
    if parts.len() > 0 {
        lemma_utf8_len_concat(text, parts[0]);
        lemma_appended_all_len(cap, text + parts[0], parts.drop_first());
    }
}

/// Appending characters one at a time gives the text that a single append
/// of all of them gives, whenever the single append fits.
pub proof fn lemma_pushed_each_is_appended(cap: nat, text: Seq<char>, chars: Seq<char>)
    requires
        fits(cap, text, chars),
    ensures
        pushed_each(cap, text, chars) == appended(cap, text, chars),
        pushed_each(cap, text, chars) == text + chars,
    decreases chars.len(),
{
    if chars.len() == 0 {
        assert(text + chars =~= text);
    } else {
        let head = seq![chars[0]];
        let tail = chars.drop_first();
        assert(chars =~= head + tail);
        lemma_utf8_len_concat(head, tail);
        lemma_utf8_len_concat(text, head);
        lemma_pushed_each_is_appended(cap, text + head, tail);
        assert((text + head) + tail =~= text + chars);
    }
}

/// Appending a text that fits in the capacity to the empty text gives
/// exactly that text, so a cleared string forgets what it held before.
pub proof fn lemma_appended_to_empty(cap: nat, add: Seq<char>)
    requires
        utf8_len(add) <= cap,
    ensures
        appended(cap, Seq::<char>::empty(), add) == add,
{
    assert(encode_utf8(Seq::<char>::empty()) =~= Seq::<u8>::empty());
    assert(Seq::<char>::empty() + add =~= add);
}

} // verus!
