//! Equality and order of strings. Both go by the text held and by nothing
//! else: not by the capacity's unused bytes.

use vstd::prelude::*;
use vstd::std_specs::cmp::{PartialEqSpecImpl, PartialOrdSpecImpl};
use core::cmp::Ordering;
use crate::array_string::ArrayString;
use crate::order::{lemma_lex_order_same, lex_order, order_of_bytes, ByteOrder};

verus! {

/// Two strings are equal when they hold the same text.
impl<const CAP: usize> PartialEq for ArrayString<CAP> {
    fn eq(&self, other: &Self) -> (r: bool) {
        proof {
            use_type_invariant(self);
            use_type_invariant(other);
            self.lemma_bytes_encode_text();
            other.lemma_bytes_encode_text();
            lemma_lex_order_same(self.bytes(), other.bytes());
        }
        match order_of_bytes(self.as_bytes(), other.as_bytes()) {
            ByteOrder::Same => true,
            _ => false,
        }
    }
}

impl<const CAP: usize> PartialEqSpecImpl for ArrayString<CAP> {
    open spec fn obeys_eq_spec() -> bool {
        true
    }

    open spec fn eq_spec(&self, other: &Self) -> bool {
        self@ == other@
    }
}

impl<const CAP: usize> Eq for ArrayString<CAP> {

}

/// Strings are ordered as `str` is: lexicographically, by the bytes of
/// their text.
impl<const CAP: usize> PartialOrd for ArrayString<CAP> {
    fn partial_cmp(&self, other: &Self) -> (r: Option<Ordering>) {
        match order_of_bytes(self.as_bytes(), other.as_bytes()) {
            ByteOrder::Before => Some(Ordering::Less),
            ByteOrder::Same => Some(Ordering::Equal),
            ByteOrder::After => Some(Ordering::Greater),
        }
    }
}

impl<const CAP: usize> PartialOrdSpecImpl for ArrayString<CAP> {
    open spec fn obeys_partial_cmp_spec() -> bool {
        true
    }

    open spec fn partial_cmp_spec(&self, other: &Self) -> Option<Ordering> {
        match lex_order(self.bytes(), other.bytes()) {
            ByteOrder::Before => Some(Ordering::Less),
            ByteOrder::Same => Some(Ordering::Equal),
            ByteOrder::After => Some(Ordering::Greater),
        }
    }
}

} // verus!
