//! Pacing of a frame: the field that each pass draws, and when to stop.

use vstd::prelude::*;

verus! {

pub const NANOS_PER_SECOND: u64 = 1_000_000_000;

/// The field after `f`: one up, back to 1 once it reaches `fields`.
pub open spec fn next_field(f: int, fields: int) -> int {
    if f + 1 >= fields {
        1
    } else {
        f + 1
    }
}

/// Subsampling divisor of successive passes: cycles `1, 2, ..., fields - 1`
/// (just `1` when `fields` is at most 2).
pub struct FieldCounter {
    pub current: u32,
    pub fields: u32,
}

impl FieldCounter {
    pub open spec fn wf(&self) -> bool {
        1 <= self.current && (self.current < self.fields || self.current == 1)
    }

    /// A counter at field 1.
    pub fn new(fields: u32) -> (r: FieldCounter)
        ensures
            r.wf(),
            r.current == 1,
            r.fields == fields,
    {
        FieldCounter { current: 1, fields }
    }

    /// Moves on to the next field.
    pub fn advance(&mut self)
        requires
            old(self).wf(),
        ensures
            final(self).wf(),
            final(self).fields == old(self).fields,
            final(self).current == next_field(old(self).current as int, old(self).fields as int),
    {
        if self.current >= self.fields || self.current + 1 >= self.fields {
            self.current = 1;
        } else {
            self.current = self.current + 1;
        }
    }
}

/// Target length of a frame at `rate` frames per second, in nanoseconds.
pub fn frame_period_nanos(rate: u32) -> (r: u64)
    requires
        rate > 0,
    ensures
        r == (NANOS_PER_SECOND as int) / (rate as int),
{
    NANOS_PER_SECOND / (rate as u64)
}

/// Whether a frame that has run for `elapsed` nanoseconds gets another pass:
/// passes repeat until the frame's period is used up.
pub fn wants_another_pass(elapsed: u64, period: u64) -> (r: bool)
    ensures
        r == (elapsed < period),
{
    elapsed < period
}

/// Whether a frame took longer than one second, which is worth a warning.
pub fn is_slow_frame(elapsed: u64) -> (r: bool)
    ensures
        r == (elapsed > NANOS_PER_SECOND),
{
    elapsed > NANOS_PER_SECOND
}

} // verus!
