//! Estimation of the offset between the local wall clock and a remote time
//! authority from sampled round trips.
//!
//! Each round records the local send time `t1` and receive time `t3` (epoch
//! microseconds) and the authority's reported time (milliseconds). The
//! authority is taken to have read its clock at the middle of the round
//! trip, so the sample offset is `t1 + (t3 - t1) / 2 - reported * 1000`:
//! positive when the local clock leads. The sample with the shortest round
//! trip is the one whose symmetric-delay assumption errs least, and its
//! offset is the estimate.

use crate::extract::{field_from, find_field, MIN_EVENT_TIME};
use vstd::prelude::*;

verus! {

/// Upper bound on calibration rounds, whatever the caller asks for.
pub const MAX_CALIBRATION_ROUNDS: u64 = 10;

/// The key pattern `"serverTime":` of the authority's response body.
pub open spec fn server_time_key() -> Seq<u8> {
    seq![34u8, 115u8, 101u8, 114u8, 118u8, 101u8, 114u8, 84u8, 105u8, 109u8, 101u8, 34u8, 58u8]
}

/// One calibration round's outcome.
#[derive(Clone, Copy, Debug, PartialEq, Eq, Structural)]
pub struct CalibrationSample {
    pub offset_us: i64,
    pub round_trip_us: u64,
}

/// The sample of a round sent at `t1`, answered at `t3`, whose authority
/// reported `authority_ms`; nothing when `t3` precedes `t1` or a figure
/// leaves its 64-bit range.
pub open spec fn round_sample(t1: u64, t3: u64, authority_ms: u64) -> Option<CalibrationSample> {
    let midpoint = t1 + (t3 - t1) / 2;
    let offset = midpoint - authority_ms * 1000;
    if t3 < t1 || authority_ms * 1000 > u64::MAX || offset < i64::MIN || offset > i64::MAX {
        None
    } else {
        Some(CalibrationSample { offset_us: offset as i64, round_trip_us: (t3 - t1) as u64 })
    }
}

/// Index of the first sample with the shortest round trip.
pub open spec fn best_index(s: Seq<CalibrationSample>) -> int
    decreases s.len(),
{
    if s.len() <= 1 {
        0
    } else {
        let b = best_index(s.drop_last());
        if s.last().round_trip_us < s[b].round_trip_us {
            s.len() - 1
        } else {
            b
        }
    }
}

/// The calibrated offset: that of the shortest round trip, or zero when no
/// round succeeded.
pub open spec fn calibrated_offset(s: Seq<CalibrationSample>) -> i64 {
    if s.len() == 0 {
        0
    } else {
        s[best_index(s)].offset_us
    }
}

/// Builds the sample of one round from its times.
pub fn sample_from_round(t1: u64, t3: u64, authority_ms: u64) -> (r: Option<CalibrationSample>)
    ensures
        r == round_sample(t1, t3, authority_ms),
{
    if t3 < t1 {
        return None;
    }
    let authority_us = match authority_ms.checked_mul(1000) {
        Some(a) => a,
        None => {
            return None;
        },
    };
    let round_trip = t3 - t1;
    let midpoint = t1 + round_trip / 2;
    let offset: i128 = midpoint as i128 - authority_us as i128;
    if offset < i64::MIN as i128 || offset > i64::MAX as i128 {
        None
    } else {
        Some(CalibrationSample { offset_us: offset as i64, round_trip_us: round_trip })
    }
}

/// Builds the sample of one round from the authority's response body, whose
/// `"serverTime":` field holds the authority's time in milliseconds.
pub fn sample_from_response(t1: u64, t3: u64, body: &[u8]) -> (r: Option<CalibrationSample>)
    ensures
        r == match field_from(body@, server_time_key(), MIN_EVENT_TIME, 0) {
            Some(ms) => round_sample(t1, t3, ms),
            None => None,
        },
{
    // `"serverTime":` in ASCII
    let key: [u8; 13] = [34, 115, 101, 114, 118, 101, 114, 84, 105, 109, 101, 34, 58];
    proof {
        assert(key@ =~= server_time_key());
    }
    match find_field(body, key.as_slice(), MIN_EVENT_TIME) {
        Some(ms) => sample_from_round(t1, t3, ms),
        None => None,
    }
}

/// Picks the offset of the first sample with the shortest round trip;
/// nothing when there is no sample.
pub fn best_offset(samples: &[CalibrationSample]) -> (r: Option<i64>)
    ensures
        samples@.len() == 0 ==> r is None,
        samples@.len() > 0 ==> r == Some(calibrated_offset(samples@)),
{
    if samples.len() == 0 {
        return None;
    }
    let mut best: usize = 0;
    let mut k: usize = 1;
    while k < samples.len()
        invariant
            1 <= k <= samples@.len(),
            best == best_index(samples@.subrange(0, k as int)),
            best < k,
        decreases samples@.len() - k,
    {
        proof {
            let s = samples@.subrange(0, k + 1);
            assert(s.drop_last() =~= samples@.subrange(0, k as int));
        }
        if samples[k].round_trip_us < samples[best].round_trip_us {
            best = k;
        }
        k += 1;
    }
    proof {
        assert(samples@.subrange(0, k as int) =~= samples@);
    }
    Some(samples[best].offset_us)
}

/// The outcome of calibration: the offset to subtract from every latency,
/// and whether no round succeeded (the offset is then zero).
#[derive(Clone, Copy, Debug, PartialEq, Eq, Structural)]
pub struct Calibration {
    pub offset_us: i64,
    pub degraded: bool,
}

/// The calibration rounds' bookkeeping. The caller performs each round
/// (request, then response or failure, then a short pause) while
/// `needs_round` holds, reports it, and calls `finish`.
pub struct Calibrator {
    rounds: u64,
    attempted: u64,
    samples: Vec<CalibrationSample>,
}

impl Calibrator {
    /// Number of rounds this calibration runs.
    pub closed spec fn spec_rounds(&self) -> nat {
        self.rounds as nat
    }

    /// Rounds reported so far.
    pub closed spec fn spec_attempted(&self) -> nat {
        self.attempted as nat
    }

    /// The samples of the successful rounds, in order.
    pub closed spec fn spec_samples(&self) -> Seq<CalibrationSample> {
        self.samples@
    }

    pub closed spec fn wf(&self) -> bool {
        &&& self.attempted <= self.rounds
        &&& self.samples@.len() <= self.attempted
        &&& self.rounds <= MAX_CALIBRATION_ROUNDS
    }

    /// A calibration of `requested` rounds, capped at
    /// `MAX_CALIBRATION_ROUNDS`.
    pub fn new(requested: u64) -> (r: Self)
        ensures
            r.wf(),
            r.spec_rounds() == if requested < MAX_CALIBRATION_ROUNDS {
                requested
            } else {
                MAX_CALIBRATION_ROUNDS
            },
            r.spec_attempted() == 0,
            r.spec_samples() == Seq::<CalibrationSample>::empty(),
    {
        let rounds = if requested < MAX_CALIBRATION_ROUNDS {
            requested
        } else {
            MAX_CALIBRATION_ROUNDS
        };
        Calibrator { rounds, attempted: 0, samples: Vec::new() }
    }

    /// Another round is due.
    pub fn needs_round(&self) -> (r: bool)
        ensures
            r == (self.spec_attempted() < self.spec_rounds()),
    {
        self.attempted < self.rounds
    }

    /// Reports a round answered with `body`, sent at `t1` and answered at
    /// `t3`; its sample is kept when the body yields one.
    pub fn record_response(&mut self, t1: u64, t3: u64, body: &[u8])
        requires
            old(self).wf(),
            old(self).spec_attempted() < old(self).spec_rounds(),
        ensures
            final(self).wf(),
            final(self).spec_rounds() == old(self).spec_rounds(),
            final(self).spec_attempted() == old(self).spec_attempted() + 1,
            final(self).spec_samples() == match field_from(
                body@,
                server_time_key(),
                MIN_EVENT_TIME,
                0,
            ) {
                Some(ms) => match round_sample(t1, t3, ms) {
                    Some(s) => old(self).spec_samples().push(s),
                    None => old(self).spec_samples(),
                },
                None => old(self).spec_samples(),
            },
    {
        self.attempted = self.attempted + 1;
        match sample_from_response(t1, t3, body) {
            Some(s) => self.samples.push(s),
            None => {},
        }
    }

    /// Reports a round that failed (no response).
    pub fn record_failure(&mut self)
        requires
            old(self).wf(),
            old(self).spec_attempted() < old(self).spec_rounds(),
        ensures
            final(self).wf(),
            final(self).spec_rounds() == old(self).spec_rounds(),
            final(self).spec_attempted() == old(self).spec_attempted() + 1,
            final(self).spec_samples() == old(self).spec_samples(),
    {
        self.attempted = self.attempted + 1;
    }

    /// The calibration's result: the offset of the shortest round trip, or
    /// a zero offset marked degraded when no round succeeded.
    pub fn finish(&self) -> (r: Calibration)
        ensures
            r.offset_us == calibrated_offset(self.spec_samples()),
            r.degraded == (self.spec_samples().len() == 0),
    {
        match best_offset(self.samples.as_slice()) {
            Some(o) => Calibration { offset_us: o, degraded: false },
            None => Calibration { offset_us: 0, degraded: true },
        }
    }
}

proof fn lemma_best_index_in_range(s: Seq<CalibrationSample>)
    requires
        s.len() > 0,
    ensures
        0 <= best_index(s) < s.len(),
    decreases s.len(),
{
    if s.len() > 1 {
        lemma_best_index_in_range(s.drop_last());
    }
}

/// Round-trip invariance of one round: against an authority whose clock
/// trails the local clock by `skew` microseconds and which reads its clock
/// (to the millisecond) at the middle of the round trip, a round of any
/// length yields an offset in `[skew, skew + 1000)`.
pub proof fn lemma_round_trip_invariance(t1: u64, round_trip: u64, skew: i64, authority_ms: u64)
    requires
        t1 + round_trip <= u64::MAX,
        0 <= t1 + round_trip / 2 - skew <= u64::MAX,
        authority_ms == (t1 + round_trip / 2 - skew) / 1000,
        skew + 1000 <= i64::MAX,
    ensures
        round_sample(t1, (t1 + round_trip) as u64, authority_ms) is Some,
        skew <= round_sample(t1, (t1 + round_trip) as u64, authority_ms)->0.offset_us < skew
            + 1000,
{
    let remote = t1 + round_trip / 2 - skew;
    assert(authority_ms * 1000 <= remote < authority_ms * 1000 + 1000);
}

/// When every sample's offset lies in `[lo, hi)`, so does the calibrated
/// offset, whatever the round trips; with the round-trip invariance of each
/// round, calibration against a fixed skew lands within a millisecond of it.
pub proof fn lemma_calibrated_within(s: Seq<CalibrationSample>, lo: int, hi: int)
    requires
        s.len() > 0,
        forall|k: int| 0 <= k < s.len() ==> lo <= #[trigger] s[k].offset_us < hi,
    ensures
        lo <= calibrated_offset(s) < hi,
{
    lemma_best_index_in_range(s);
}

/// With an offset calibrated to `[skew, skew + 1000)`, an event whose true
/// one-way delay is `delay`, stamped by a local clock that leads the source
/// by `skew`, measures a latency in `(delay - 1000, delay]`, whatever the
/// calibration round trips were.
pub proof fn lemma_corrected_latency(event_us: int, delay: int, skew: int, offset: int)
    requires
        skew <= offset < skew + 1000,
    ensures
        delay - 1000 < (event_us + delay + skew) - event_us - offset <= delay,
{
}

} // verus!
