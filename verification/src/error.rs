//! An error that hands back what failed.

use vstd::prelude::*;

verus! {

/// A PoisonError carries an error together with the value whose operation
/// failed, so that the value is not lost.
#[derive(Debug)]
pub struct PoisonError<T, E> {
    pub error: E,
    pub inner: T,
}

impl<T, E> PoisonError<T, E> {
    pub fn new(guard: T, cause: E) -> (poison: Self)
        ensures
            poison.inner == guard,
            poison.error == cause,
    {
        PoisonError { inner: guard, error: cause }
    }

    /// Returns the value whose operation failed.
    pub fn into_inner(self) -> (inner: T)
        ensures
            inner == self.inner,
    {
        self.inner
    }
}

} // verus!
