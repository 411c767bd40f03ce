use vstd::prelude::*;

verus! {

/// The two-dimensional weight of an operation: execution time and proof size.
#[derive(Clone, Copy, Debug, PartialEq, Eq, Structural)]
pub struct Weight {
    pub ref_time: u64,
    pub proof_size: u64,
}

impl Weight {
    /// A weight with the given computational time and no proof size.
    pub fn from_ref_time(ref_time: u64) -> (w: Weight)
        ensures
            w.ref_time == ref_time,
            w.proof_size == 0,
    {
        Weight { ref_time, proof_size: 0 }
    }

    /// A weight made of both components.
    pub fn from_parts(ref_time: u64, proof_size: u64) -> (w: Weight)
        ensures
            w.ref_time == ref_time,
            w.proof_size == proof_size,
    {
        Weight { ref_time, proof_size }
    }

    /// The zero weight.
    pub fn zero() -> (w: Weight)
        ensures
            w.ref_time == 0,
            w.proof_size == 0,
    {
        Weight { ref_time: 0, proof_size: 0 }
    }

    /// Whether both components are zero.
    pub fn is_zero(&self) -> (b: bool)
        ensures
            b == (self.ref_time == 0 && self.proof_size == 0),
    {
        self.ref_time == 0 && self.proof_size == 0
    }
}

} // verus!
