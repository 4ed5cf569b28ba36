//! Conversion of monotonic clock ticks to epoch microseconds without a
//! wall-clock read per conversion.
//!
//! An anchor pairs one monotonic tick with the wall-clock time read right
//! beside it; a later tick converts by adding the elapsed ticks to that
//! wall-clock time. Its accuracy is bounded by how close together the two
//! anchor readings were and by the resolution of the monotonic clock.

use vstd::prelude::*;

verus! {

/// A monotonic tick (in microseconds from an arbitrary origin) and the
/// epoch time in microseconds read beside it. Never changed once made.
#[derive(Clone, Copy, Debug)]
pub struct ClockAnchor {
    monotonic_reference: u64,
    epoch_reference_us: u64,
}

impl ClockAnchor {
    pub closed spec fn spec_monotonic_reference(&self) -> u64 {
        self.monotonic_reference
    }

    pub closed spec fn spec_epoch_reference_us(&self) -> u64 {
        self.epoch_reference_us
    }

    /// The epoch time that `tick` stands for.
    pub open spec fn epoch_at(&self, tick: u64) -> int {
        self.spec_epoch_reference_us() + (tick - self.spec_monotonic_reference())
    }

    /// `tick` is not before the anchor and its epoch time fits in 64 bits.
    pub open spec fn converts(&self, tick: u64) -> bool {
        tick >= self.spec_monotonic_reference() && self.epoch_at(tick) <= u64::MAX
    }

    pub fn new(monotonic_reference: u64, epoch_reference_us: u64) -> (r: Self)
        ensures
            r.spec_monotonic_reference() == monotonic_reference,
            r.spec_epoch_reference_us() == epoch_reference_us,
    {
        ClockAnchor { monotonic_reference, epoch_reference_us }
    }

    /// Converts a monotonic tick to epoch microseconds:
    /// `epoch_reference_us + (tick - monotonic_reference)`; nothing for a
    /// tick before the anchor or a time past the 64-bit range.
    pub fn to_epoch_us(&self, tick: u64) -> (r: Option<u64>)
        ensures
            r is Some <==> self.converts(tick),
            r is Some ==> r->0 == self.epoch_at(tick),
    {
        if tick < self.monotonic_reference {
            return None;
        }
        let elapsed = tick - self.monotonic_reference;
        match self.epoch_reference_us.checked_add(elapsed) {
            Some(t) => Some(t),
            None => None,
        }
    }

    pub fn monotonic_reference(&self) -> (r: u64)
        ensures
            r == self.spec_monotonic_reference(),
    {
        self.monotonic_reference
    }

    pub fn epoch_reference_us(&self) -> (r: u64)
        ensures
            r == self.spec_epoch_reference_us(),
    {
        self.epoch_reference_us
    }
}

/// Conversion is monotonic: a later tick never converts to an earlier
/// epoch time.
pub proof fn lemma_conversion_monotonic(anchor: ClockAnchor, tick1: u64, tick2: u64)
    requires
        tick1 < tick2,
    ensures
        anchor.epoch_at(tick1) <= anchor.epoch_at(tick2),
        anchor.converts(tick2) && tick1 >= anchor.spec_monotonic_reference() ==> anchor.converts(
            tick1,
        ),
{
}

} // verus!
