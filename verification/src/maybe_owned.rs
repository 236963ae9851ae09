//! A two-variant wrapper over a value that is either borrowed from a caller
//! or owned outright, with uniform read access to whichever is active.

use vstd::prelude::*;

verus! {

/// Either a reference to a value owned elsewhere, or a value owned here.
pub enum MeMaybeOwned<'a, T> {
    Borrowed(&'a T),
    Owned(T),
}

impl<'a, T> MeMaybeOwned<'a, T> {
    /// The underlying value, whichever variant is active.
    pub open spec fn spec_value(&self) -> T {
        match self {
            MeMaybeOwned::Borrowed(b) => **b,
            MeMaybeOwned::Owned(o) => *o,
        }
    }

    /// Read access to the underlying value, whichever variant is active.
    pub fn get(&self) -> (r: &T)
        ensures
            *r == self.spec_value(),
    {
        match self {
            MeMaybeOwned::Borrowed(b) => b,
            MeMaybeOwned::Owned(o) => o,
        }
    }
}

} // verus!
