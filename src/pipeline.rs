//! The per-payload measurement step of the hot loop.
//!
//! The caller receives a payload, stamps its arrival time before anything
//! else, and hands both to `MeasurementPipeline::on_payload`, which extracts
//! the event fields, computes the latency
//! `arrival_time_us - event_time_us - offset_us` (signed, never clamped),
//! feeds the statistics and returns the record to persist. The loop ends
//! once the pipeline reports that the configured record count is reached,
//! or when the transport's stream ends.

use crate::extract::{extract_keyed_fields, id_key, keyed_fields, time_key};
use crate::stats::LatencyStats;
use vstd::prelude::*;

verus! {

/// One measured event. Times are epoch microseconds; the latency is
/// corrected by the calibration offset and may be negative.
#[derive(Debug)]
pub struct EventRecord {
    pub event_id: u64,
    pub event_time_us: u64,
    pub arrival_time_us: u64,
    pub latency_us: i64,
    pub origin_label: String,
}

/// Identifier, event time in microseconds and latency of a payload that
/// arrived at `arrival_us`, under a clock offset of `offset_us`, its fields
/// found under the key patterns `id_pat` and `time_pat`; nothing when the
/// payload yields no fields or a figure leaves its 64-bit range. The
/// payload's event time is in milliseconds.
pub open spec fn measured(
    payload: Seq<u8>,
    id_pat: Seq<u8>,
    time_pat: Seq<u8>,
    arrival_us: u64,
    offset_us: i64,
) -> Option<(u64, u64, i64)> {
    match keyed_fields(payload, id_pat, time_pat) {
        None => None,
        Some((id, t)) => {
            let t_us = t * 1000;
            let latency = arrival_us - t_us - offset_us;
            if t_us > u64::MAX || latency < i64::MIN || latency > i64::MAX {
                None
            } else {
                Some((id, t_us as u64, latency as i64))
            }
        },
    }
}

/// Measures one payload: `(event_id, event_time_us, latency_us)`.
pub fn measure(
    payload: &[u8],
    id_pat: &[u8],
    time_pat: &[u8],
    arrival_us: u64,
    offset_us: i64,
) -> (r: Option<(u64, u64, i64)>)
    ensures
        r == measured(payload@, id_pat@, time_pat@, arrival_us, offset_us),
{
    let (id, t) = match extract_keyed_fields(payload, id_pat, time_pat) {
        Some(f) => f,
        None => {
            return None;
        },
    };
    let t_us = match t.checked_mul(1000) {
        Some(v) => v,
        None => {
            return None;
        },
    };
    let latency: i128 = arrival_us as i128 - t_us as i128 - offset_us as i128;
    if latency < i64::MIN as i128 || latency > i64::MAX as i128 {
        None
    } else {
        Some((id, t_us, latency as i64))
    }
}

/// The loop stops after `n` records when a minimum count is configured
/// (`min_records > 0`) and reached, or when the count can grow no more.
pub open spec fn stop_due(min_records: u64, n: nat) -> bool {
    (min_records > 0 && n >= min_records) || n >= u64::MAX
}

/// State of the measurement loop: the key patterns of the event fields,
/// the calibration offset, the label that tags each record, the stop
/// condition, and whether it has been met.
pub struct MeasurementPipeline {
    id_pat: Vec<u8>,
    time_pat: Vec<u8>,
    offset_us: i64,
    label: String,
    min_records: u64,
    done: bool,
}

impl MeasurementPipeline {
    pub closed spec fn spec_id_pat(&self) -> Seq<u8> {
        self.id_pat@
    }

    pub closed spec fn spec_time_pat(&self) -> Seq<u8> {
        self.time_pat@
    }

    pub closed spec fn spec_offset_us(&self) -> i64 {
        self.offset_us
    }

    pub closed spec fn spec_label(&self) -> String {
        self.label
    }

    pub closed spec fn spec_min_records(&self) -> u64 {
        self.min_records
    }

    pub closed spec fn spec_done(&self) -> bool {
        self.done
    }

    /// A loop over payloads with `"id":` and `"time":` fields that corrects
    /// latencies by `offset_us`, tags records with `label` and stops after
    /// `min_records` records (0: at stream end).
    pub fn new(offset_us: i64, label: String, min_records: u64) -> (r: Self)
        ensures
            r.spec_id_pat() == id_key(),
            r.spec_time_pat() == time_key(),
            r.spec_offset_us() == offset_us,
            r.spec_label() == label,
            r.spec_min_records() == min_records,
            !r.spec_done(),
    {
        // `"id":` and `"time":` in ASCII
        let id_pat: Vec<u8> = vec![34, 105, 100, 34, 58];
        let time_pat: Vec<u8> = vec![34, 116, 105, 109, 101, 34, 58];
        assert(id_pat@ =~= id_key());
        assert(time_pat@ =~= time_key());
        MeasurementPipeline { id_pat, time_pat, offset_us, label, min_records, done: false }
    }

    /// As `new`, for payloads whose identifier and time stand under the key
    /// patterns `id_pat` and `time_pat`.
    pub fn with_keys(
        id_pat: Vec<u8>,
        time_pat: Vec<u8>,
        offset_us: i64,
        label: String,
        min_records: u64,
    ) -> (r: Self)
        ensures
            r.spec_id_pat() == id_pat@,
            r.spec_time_pat() == time_pat@,
            r.spec_offset_us() == offset_us,
            r.spec_label() == label,
            r.spec_min_records() == min_records,
            !r.spec_done(),
    {
        MeasurementPipeline { id_pat, time_pat, offset_us, label, min_records, done: false }
    }

    /// Handles one payload that arrived at `arrival_us`. A payload that
    /// yields no measurement is discarded and changes nothing; otherwise the
    /// statistics absorb `(event_id, latency_us)` and the record is returned.
    /// Once done, payloads are ignored.
    pub fn on_payload(&mut self, stats: &mut LatencyStats, payload: &[u8], arrival_us: u64) -> (r:
        Option<EventRecord>)
        requires
            old(stats).wf(),
        ensures
            final(stats).wf(),
            final(stats).window_capacity() == old(stats).window_capacity(),
            final(self).spec_id_pat() == old(self).spec_id_pat(),
            final(self).spec_time_pat() == old(self).spec_time_pat(),
            final(self).spec_offset_us() == old(self).spec_offset_us(),
            final(self).spec_label() == old(self).spec_label(),
            final(self).spec_min_records() == old(self).spec_min_records(),
            old(self).spec_done() ==> {
                &&& r is None
                &&& final(stats).history() == old(stats).history()
                &&& final(self).spec_done()
            },
            !old(self).spec_done() && old(stats).history().len() >= u64::MAX ==> {
                &&& r is None
                &&& final(stats).history() == old(stats).history()
                &&& final(self).spec_done()
            },
            !old(self).spec_done() && old(stats).history().len() < u64::MAX ==> match measured(
                payload@,
                old(self).spec_id_pat(),
                old(self).spec_time_pat(),
                arrival_us,
                old(self).spec_offset_us(),
            ) {
                None => {
                    &&& r is None
                    &&& final(stats).history() == old(stats).history()
                    &&& !final(self).spec_done()
                },
                Some((id, t, latency)) => {
                    &&& r == Some(
                        EventRecord {
                            event_id: id,
                            event_time_us: t,
                            arrival_time_us: arrival_us,
                            latency_us: latency,
                            origin_label: old(self).spec_label(),
                        },
                    )
                    &&& final(stats).history() == old(stats).history().push((id, latency))
                    &&& final(self).spec_done() == stop_due(
                        old(self).spec_min_records(),
                        final(stats).history().len(),
                    )
                },
            },
    {
        if self.done {
            return None;
        }
        if stats.count() == u64::MAX {
            self.done = true;
            return None;
        }
        match self.measure_payload(payload, arrival_us) {
            None => None,
            Some(m) => self.absorb(stats, m, arrival_us),
        }
    }

    /// Measures a payload that arrived at `arrival_us` with this loop's key
    /// patterns and offset, touching no state; `absorb` then takes the
    /// result. The two halves let a caller measure outside any lock that
    /// guards the statistics.
    pub fn measure_payload(&self, payload: &[u8], arrival_us: u64) -> (r: Option<(u64, u64, i64)>)
        ensures
            r == measured(
                payload@,
                self.spec_id_pat(),
                self.spec_time_pat(),
                arrival_us,
                self.spec_offset_us(),
            ),
    {
        measure(
            payload,
            self.id_pat.as_slice(),
            self.time_pat.as_slice(),
            arrival_us,
            self.offset_us,
        )
    }

    /// Feeds a measurement `(event_id, event_time_us, latency_us)` of an
    /// event that arrived at `arrival_us` to the statistics and returns its
    /// record. Once done, or when the count can grow no more, nothing is
    /// absorbed and the loop is done.
    pub fn absorb(&mut self, stats: &mut LatencyStats, m: (u64, u64, i64), arrival_us: u64) -> (r:
        Option<EventRecord>)
        requires
            old(stats).wf(),
        ensures
            final(stats).wf(),
            final(stats).window_capacity() == old(stats).window_capacity(),
            final(self).spec_id_pat() == old(self).spec_id_pat(),
            final(self).spec_time_pat() == old(self).spec_time_pat(),
            final(self).spec_offset_us() == old(self).spec_offset_us(),
            final(self).spec_label() == old(self).spec_label(),
            final(self).spec_min_records() == old(self).spec_min_records(),
            old(self).spec_done() || old(stats).history().len() >= u64::MAX ==> {
                &&& r is None
                &&& final(stats).history() == old(stats).history()
                &&& final(self).spec_done()
            },
            !old(self).spec_done() && old(stats).history().len() < u64::MAX ==> {
                &&& r == Some(
                    EventRecord {
                        event_id: m.0,
                        event_time_us: m.1,
                        arrival_time_us: arrival_us,
                        latency_us: m.2,
                        origin_label: old(self).spec_label(),
                    },
                )
                &&& final(stats).history() == old(stats).history().push((m.0, m.2))
                &&& final(self).spec_done() == stop_due(
                    old(self).spec_min_records(),
                    final(stats).history().len(),
                )
            },
    {
        if self.done {
            return None;
        }
        if stats.count() == u64::MAX {
            self.done = true;
            return None;
        }
        let (id, t, latency) = m;
        stats.update(id, latency);
        let n = stats.count();
        if (self.min_records > 0 && n >= self.min_records) || n == u64::MAX {
            self.done = true;
        }
        Some(
            EventRecord {
                event_id: id,
                event_time_us: t,
                arrival_time_us: arrival_us,
                latency_us: latency,
                origin_label: self.label.clone(),
            },
        )
    }

    /// The stop condition has been met.
    pub fn is_done(&self) -> (r: bool)
        ensures
            r == self.spec_done(),
    {
        self.done
    }

    pub fn offset_us(&self) -> (r: i64)
        ensures
            r == self.spec_offset_us(),
    {
        self.offset_us
    }
}

} // verus!
