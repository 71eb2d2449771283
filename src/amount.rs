use vstd::prelude::*;

verus! {

/// A non-negative monetary value, stored as a count of ten-thousandths of a unit.
#[derive(Clone, Copy, Debug, PartialEq, Eq, Structural)]
pub struct Amount {
    pub inner: u64,
}

impl Amount {
    /// Builds an amount from its count of ten-thousandths.
    pub fn new(inner: u64) -> (r: Amount)
        ensures
            r.inner == inner,
    {
        Amount { inner }
    }

    /// The count of ten-thousandths that this amount stands for.
    pub fn value(&self) -> (r: u64)
        ensures
            r == self.inner,
    {
        self.inner
    }
}

} // verus!
