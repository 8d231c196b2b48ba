//! Descriptions of an inference context: where it computes, which KV-cache edits it
//! supports, and how its cache is quantised.
use vstd::prelude::*;

verus! {

/// Hardware zone where inference computation is performed.
#[derive(Copy, Clone, Debug, PartialEq, Eq, Structural)]
pub enum ComputationZone {
    /// Computation on CPU.
    CPU,
    /// Computation on GPU.
    GPU,
}

/// Which KV-cache editing operations a context supports, ordered by capability:
/// each level includes the capabilities of the levels before it.
#[derive(Debug, Clone, Copy, PartialEq, Eq, Structural, PartialOrd)]
pub enum EditLevel {
    /// Only dump/restore is supported: every rollback is a full serialise and
    /// deserialise round-trip.
    DumpRestore,
    /// The tail of the KV cache can be removed without a full dump/restore cycle.
    Cut,
    /// Arbitrary token ranges can be excised from the KV cache in place.
    Truncate,
}

/// The rank of a level in the capability order.
pub open spec fn edit_rank(l: EditLevel) -> int {
    match l {
        EditLevel::DumpRestore => 0,
        EditLevel::Cut => 1,
        EditLevel::Truncate => 2,
    }
}

impl EditLevel {
    /// The rank of this level in the capability order (0, 1 or 2).
    pub fn rank(&self) -> (r: u8)
        ensures
            r as int == edit_rank(*self),
    {
        match self {
            EditLevel::DumpRestore => 0,
            EditLevel::Cut => 1,
            EditLevel::Truncate => 2,
        }
    }

    /// Whether this level offers at least the capabilities of `other`.
    pub fn includes(&self, other: &EditLevel) -> (r: bool)
        ensures
            r == (edit_rank(*self) >= edit_rank(*other)),
    {
        self.rank() >= other.rank()
    }
}

impl Default for EditLevel {
    /// The least capable level, [`EditLevel::DumpRestore`].
    fn default() -> (r: Self)
        ensures
            r == EditLevel::DumpRestore,
    {
        EditLevel::DumpRestore
    }
}

/// Quantisation format used for KV-cache tensors.
#[derive(Copy, Clone, Debug, PartialEq, Eq, Structural)]
pub enum KvType {
    /// 4-bit quantised KV cache.
    Q4,
    /// 5-bit quantised KV cache.
    Q5,
    /// 6-bit quantised KV cache.
    Q6,
    /// 8-bit quantised KV cache.
    Q8,
    /// Raw (non-llama.cpp-quantised) 8-bit KV cache.
    RawQ8,
    /// Half-precision (16-bit float) KV cache.
    F16,
    /// Single-precision (32-bit float) KV cache.
    F32,
}

} // verus!
