//! The outcome of a computation that may stop the program instead of
//! returning: used by specifications to say on which inputs an operation
//! would panic, so that the verified functions can exclude them.

use vstd::prelude::*;

verus! {

/// Either the value a computation returns, or the fact that it panics.
pub enum Outcome<T> {
    Returns(T),
    Panics,
}

impl<T> Outcome<T> {
    /// The computation returns normally.
    pub open spec fn is_normal(self) -> bool {
        self is Returns
    }

    /// The returned value (meaningful when `is_normal()` holds).
    pub open spec fn value(self) -> T
        recommends
            self is Returns,
    {
        self->Returns_0
    }
}

} // verus!
