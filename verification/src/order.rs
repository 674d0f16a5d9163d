//! The order of byte sequences by which strings are compared: the first
//! place at which two sequences differ decides, and a sequence comes before
//! every longer one that starts with it.

use vstd::prelude::*;

verus! {

/// Where one byte sequence stands relative to another.
#[derive(Clone, Copy, Debug, PartialEq, Eq)]
pub enum ByteOrder {
    Before,
    Same,
    After,
}

/// Where `a` stands relative to `b` in the lexicographic order of bytes.
pub open spec fn lex_order(a: Seq<u8>, b: Seq<u8>) -> ByteOrder
    decreases a.len(),
{
    if a.len() == 0 {
        if b.len() == 0 {
            ByteOrder::Same
        } else {
            ByteOrder::Before
        }
    } else if b.len() == 0 {
        ByteOrder::After
    } else if a[0] < b[0] {
        ByteOrder::Before
    } else if a[0] > b[0] {
        ByteOrder::After
    } else {
        lex_order(a.drop_first(), b.drop_first())
    }
}

/// Two sequences stand at the same place exactly when they are equal.
pub proof fn lemma_lex_order_same(a: Seq<u8>, b: Seq<u8>)
    ensures
        lex_order(a, b) == ByteOrder::Same <==> a == b,
    decreases a.len(),
{
    if a.len() == 0 || b.len() == 0 {
        if a.len() == 0 && b.len() == 0 {
            assert(a =~= b);
        }
    } else if a[0] == b[0] {
        lemma_lex_order_same(a.drop_first(), b.drop_first());
        if a.drop_first() == b.drop_first() {
            assert(a =~= seq![a[0]] + a.drop_first());
            assert(b =~= seq![b[0]] + b.drop_first());
        }
    }
}

/// Where `a` comes before `b`, `b` comes after `a`, and the other way round.
pub proof fn lemma_lex_order_flip(a: Seq<u8>, b: Seq<u8>)
    ensures
        lex_order(a, b) == ByteOrder::Before <==> lex_order(b, a) == ByteOrder::After,
        lex_order(a, b) == ByteOrder::Same <==> lex_order(b, a) == ByteOrder::Same,
    decreases a.len(),
{
    if a.len() > 0 && b.len() > 0 && a[0] == b[0] {
        lemma_lex_order_flip(a.drop_first(), b.drop_first());
    }
}

/// What comes before something that comes before a third thing comes before
/// that third thing.
pub proof fn lemma_lex_order_transitive(a: Seq<u8>, b: Seq<u8>, c: Seq<u8>)
    requires
        lex_order(a, b) == ByteOrder::Before,
        lex_order(b, c) == ByteOrder::Before,
    ensures
        lex_order(a, c) == ByteOrder::Before,
    decreases a.len(),
{
    if a.len() > 0 && b.len() > 0 && c.len() > 0 && a[0] == b[0] && b[0] == c[0] {
        lemma_lex_order_transitive(a.drop_first(), b.drop_first(), c.drop_first());
    }
}

/// The order of two sequences that agree in their first `i` places is that
/// of what follows those places.
proof fn lemma_lex_order_skip(a: Seq<u8>, b: Seq<u8>, i: int)
    requires
        0 <= i <= a.len(),
        i <= b.len(),
        a.subrange(0, i) == b.subrange(0, i),
    ensures
        lex_order(a, b) == lex_order(a.skip(i), b.skip(i)),
    decreases i,
{
    if i == 0 {
        assert(a.skip(0) =~= a);
        assert(b.skip(0) =~= b);
    } else {
        assert(a[0] == a.subrange(0, i)[0]);
        assert(b[0] == b.subrange(0, i)[0]);
        assert(a.drop_first().subrange(0, i - 1) =~= a.subrange(0, i).drop_first());
        assert(b.drop_first().subrange(0, i - 1) =~= b.subrange(0, i).drop_first());
        lemma_lex_order_skip(a.drop_first(), b.drop_first(), i - 1);
        assert(a.drop_first().skip(i - 1) =~= a.skip(i));
        assert(b.drop_first().skip(i - 1) =~= b.skip(i));
    }
}

/// Finds where `a` stands relative to `b` in the lexicographic order.
pub fn order_of_bytes(a: &[u8], b: &[u8]) -> (r: ByteOrder)
    ensures
        r == lex_order(a@, b@),
{
    let n = if a.len() < b.len() {
        a.len()
    } else {
        b.len()
    };
    let mut i: usize = 0;
    while i < n
        invariant
            i <= n,
            n <= a@.len(),
            n <= b@.len(),
            n == a@.len() || n == b@.len(),
            a@.subrange(0, i as int) == b@.subrange(0, i as int),
        decreases n - i,
    {
        proof {
            lemma_lex_order_skip(a@, b@, i as int);
            assert(a@.skip(i as int)[0] == a@[i as int]);
            assert(b@.skip(i as int)[0] == b@[i as int]);
        }
        if a[i] < b[i] {
            return ByteOrder::Before;
        }
        if a[i] > b[i] {
            return ByteOrder::After;
        }
        proof {
            assert(a@.subrange(0, i + 1) =~= a@.subrange(0, i as int).push(a@[i as int]));
            assert(b@.subrange(0, i + 1) =~= b@.subrange(0, i as int).push(b@[i as int]));
        }
        i += 1;
    }
    proof {
        lemma_lex_order_skip(a@, b@, n as int);
    }
    if a.len() < b.len() {
        ByteOrder::Before
    } else if a.len() > b.len() {
        ByteOrder::After
    } else {
        ByteOrder::Same
    }
}

} // verus!
