use vstd::prelude::*;

verus! {

/// Error value indicating insufficient capacity.
///
/// It carries the element that could not be stored, so that the caller can
/// retry or report it.
#[derive(Clone, Copy, Debug, PartialEq, Eq)]
pub struct CapacityError<T> {
    pub element: T,
}

impl<T> CapacityError<T> {
    /// Create a new `CapacityError` from `element`.
    pub fn new(element: T) -> (e: Self)
        ensures
            e.element == element,
    {
        CapacityError { element }
    }

    /// Extract the overflowing element.
    pub fn element(self) -> (t: T)
        ensures
            t == self.element,
    {
        self.element
    }

    /// Convert into a `CapacityError` that does not carry an element.
    pub fn simplify(self) -> (e: CapacityError<()>)
        ensures
            e.element == (),
    {
        CapacityError { element: () }
    }
}

} // verus!
