//! The validated request model.

use vstd::prelude::*;

verus! {

/// One half-open millisecond interval `[start_ms, end_ms)` of the input
/// stream. Well-formed once `end_ms > start_ms`; never mutated after
/// validation.
#[derive(Clone, Copy, Debug, PartialEq, Eq, Structural)]
pub struct TimeRange {
    pub start_ms: i32,
    pub end_ms: i32,
}

impl TimeRange {
    /// The invariant every validated range satisfies.
    pub open spec fn wf(self) -> bool {
        self.end_ms > self.start_ms
    }

    /// The derived duration in milliseconds; positive for a well-formed
    /// range, and free of overflow because both bounds are 32-bit.
    pub open spec fn duration_spec(self) -> int {
        self.end_ms - self.start_ms
    }

    /// The duration `end_ms - start_ms` of this range.
    pub fn duration_ms(&self) -> (d: i64)
        requires
            self.wf(),
        ensures
            d == self.duration_spec(),
            d > 0,
    {
        self.end_ms as i64 - self.start_ms as i64
    }
}

/// A validated extraction request: the ordered time windows (order defines
/// the output concatenation order), the silence gap inserted between
/// consecutive windows on the multi-segment path, and the opaque identifiers
/// carried through for response tagging only.
#[derive(Debug)]
pub struct SegmentRequest {
    pub ranges: Vec<TimeRange>,
    pub gap_ms: u32,
    pub correlation_id: String,
    pub label: String,
}

impl SegmentRequest {
    /// The invariant the validator establishes: at least one range, every
    /// range well-formed, and the gap within the signed 32-bit limit its
    /// encoding guarantees.
    pub open spec fn wf(self) -> bool {
        &&& self.ranges@.len() >= 1
        &&& forall|i: int| 0 <= i < self.ranges@.len() ==> (#[trigger] self.ranges@[i]).wf()
        &&& self.gap_ms <= 0x7fff_ffff
    }
}

} // verus!
