//! Thread placement for the measurement and persistence paths.
//!
//! Pinning a thread to a processing unit and changing its scheduling
//! priority are platform services, reached through `ThreadPlacement`. They
//! are best effort: where the platform lacks them they report failure, and
//! a failure never stops the run.

use vstd::prelude::*;

verus! {

/// Processing units that an affinity set can name.
pub const MAX_CPU_UNITS: usize = 1024;

/// Unit that the persistence thread is pinned to when it has its own.
pub const IO_UNIT: usize = 1;

/// Priority (niceness) asked for the persistence thread: below the default
/// of zero, that is elevated, so that it drains the queue promptly. Raising
/// a priority may need privileges; without them the request just fails.
pub const IO_PRIORITY: i32 = -5;

/// A platform's thread-placement services, applied to the calling thread.
///
/// The model of a platform is its last request of each kind and whether
/// that request succeeded.
pub trait ThreadPlacement {
    /// Unit named by the last pin request.
    spec fn last_pin_request(&self) -> Option<usize>;

    /// The last pin request succeeded.
    spec fn last_pin_ok(&self) -> bool;

    /// Level named by the last priority request.
    spec fn last_priority_request(&self) -> Option<i32>;

    /// The last priority request succeeded.
    spec fn last_priority_ok(&self) -> bool;

    /// Pins the calling thread to processing unit `unit`; reports success.
    fn try_pin_to_unit(&mut self, unit: usize) -> (r: bool)
        ensures
            final(self).last_pin_request() == Some(unit),
            r == final(self).last_pin_ok(),
            final(self).last_priority_request() == old(self).last_priority_request(),
            final(self).last_priority_ok() == old(self).last_priority_ok(),
    ;

    /// Sets the calling thread's scheduling priority (niceness); reports
    /// success.
    fn try_set_priority(&mut self, level: i32) -> (r: bool)
        ensures
            final(self).last_priority_request() == Some(level),
            r == final(self).last_priority_ok(),
            final(self).last_pin_request() == old(self).last_pin_request(),
            final(self).last_pin_ok() == old(self).last_pin_ok(),
    ;
}

/// Placement on a platform without these services: every request is
/// noted and fails.
pub struct NoPlacement {
    pub last_pin: Option<usize>,
    pub last_priority: Option<i32>,
}

impl NoPlacement {
    pub fn new() -> (r: Self)
        ensures
            r.last_pin is None,
            r.last_priority is None,
    {
        NoPlacement { last_pin: None, last_priority: None }
    }
}

impl ThreadPlacement for NoPlacement {
    open spec fn last_pin_request(&self) -> Option<usize> {
        self.last_pin
    }

    open spec fn last_pin_ok(&self) -> bool {
        false
    }

    open spec fn last_priority_request(&self) -> Option<i32> {
        self.last_priority
    }

    open spec fn last_priority_ok(&self) -> bool {
        false
    }

    fn try_pin_to_unit(&mut self, unit: usize) -> (r: bool) {
        self.last_pin = Some(unit);
        false
    }

    fn try_set_priority(&mut self, level: i32) -> (r: bool) {
        self.last_priority = Some(level);
        false
    }
}

/// Pins the calling thread to `core_id`: the platform is asked for that
/// unit and its answer returned. A unit past `MAX_CPU_UNITS`, which no
/// affinity set can name, is refused without asking the platform.
pub fn set_cpu_affinity<P: ThreadPlacement>(platform: &mut P, core_id: usize) -> (r: bool)
    ensures
        core_id < MAX_CPU_UNITS ==> {
            &&& final(platform).last_pin_request() == Some(core_id)
            &&& r == final(platform).last_pin_ok()
            &&& final(platform).last_priority_request() == old(platform).last_priority_request()
            &&& final(platform).last_priority_ok() == old(platform).last_priority_ok()
        },
        core_id >= MAX_CPU_UNITS ==> !r && *final(platform) == *old(platform),
{
    if core_id >= MAX_CPU_UNITS {
        false
    } else {
        platform.try_pin_to_unit(core_id)
    }
}

/// Sets the calling thread's priority: every level is handed to the
/// platform (which may clamp it into its range) and its answer returned.
pub fn set_thread_priority<P: ThreadPlacement>(platform: &mut P, priority: i32) -> (r: bool)
    ensures
        final(platform).last_priority_request() == Some(priority),
        r == final(platform).last_priority_ok(),
        final(platform).last_pin_request() == old(platform).last_pin_request(),
        final(platform).last_pin_ok() == old(platform).last_pin_ok(),
{
    platform.try_set_priority(priority)
}

/// How records reach storage.
#[derive(Clone, Copy, Debug, PartialEq, Eq, Structural)]
pub enum SinkKind {
    /// Appended to an in-memory buffer on the measurement thread and
    /// flushed when a threshold is reached.
    Buffered,
    /// Handed over a queue to a persistence thread of its own.
    Relayed,
}

/// The sink for the available parallelism: a persistence thread of its own
/// when at least two units are available, else the in-memory buffer.
pub fn choose_sink(parallelism: usize) -> (r: SinkKind)
    ensures
        r == (if parallelism >= 2 {
            SinkKind::Relayed
        } else {
            SinkKind::Buffered
        }),
{
    if parallelism >= 2 {
        SinkKind::Relayed
    } else {
        SinkKind::Buffered
    }
}

} // verus!
