//! Object numbers of indirect objects.
use vstd::prelude::*;

verus! {

/// The number by which an indirect object is identified.
#[derive(Debug, Clone, Copy, PartialEq, Eq, Structural)]
pub struct ObjectNumber(pub u64);

impl ObjectNumber {
    pub fn new(value: u64) -> (n: Self)
        ensures
            n.0 == value,
    {
        ObjectNumber(value)
    }

    pub fn value(&self) -> (v: u64)
        ensures
            v == self.0,
    {
        self.0
    }

    /// The number that follows this one.
    pub fn next(&self) -> (n: Self)
        requires
            self.0 < u64::MAX,
        ensures
            n.0 == self.0 + 1,
    {
        ObjectNumber(self.0 + 1)
    }
}

} // verus!
