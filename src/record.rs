//! The line-oriented record log: one line per event record, fields in the
//! order `event_id, event_time_us, arrival_time_us, latency_ms,
//! origin_label`, after a header line naming the columns; and the in-memory
//! buffer that collects lines until a flush is due.

use crate::pipeline::EventRecord;
use vstd::prelude::*;
use vstd::string::StringSliceAdditionalSpecFns;
use vstd::utf8::encode_utf8;

verus! {

/// Decimal digits of `n`, most significant first, without leading zeros.
pub open spec fn decimal(n: nat) -> Seq<u8>
    decreases n,
{
    if n < 10 {
        seq![(48 + n) as u8]
    } else {
        decimal(n / 10).push((48 + n % 10) as u8)
    }
}

/// A latency in microseconds written in milliseconds with two decimals,
/// rounded to the nearest hundredth (halves away from zero).
pub open spec fn latency_ms_text(latency_us: i64) -> Seq<u8> {
    let magnitude: nat = if latency_us < 0 {
        (-latency_us) as nat
    } else {
        latency_us as nat
    };
    let hundredths = (magnitude + 5) / 10;
    let sign: Seq<u8> = if latency_us < 0 {
        seq![45u8]
    } else {
        Seq::empty()
    };
    sign + decimal(hundredths / 100) + seq![
        46u8,
        (48 + (hundredths % 100) / 10) as u8,
        (48 + hundredths % 10) as u8,
    ]
}

/// The log line of a record, newline included.
pub open spec fn record_line(r: EventRecord) -> Seq<u8> {
    decimal(r.event_id as nat) + seq![44u8] + decimal(r.event_time_us as nat) + seq![44u8]
        + decimal(r.arrival_time_us as nat) + seq![44u8] + latency_ms_text(r.latency_us) + seq![
        44u8,
    ] + encode_utf8(r.origin_label@) + seq![10u8]
}

/// The header line: `event_id,event_time_us,arrival_time_us,latency_ms,origin_label`.
pub open spec fn header_text() -> Seq<u8> {
    seq![
        101u8, 118, 101, 110, 116, 95, 105, 100, 44,
        101, 118, 101, 110, 116, 95, 116, 105, 109, 101, 95, 117, 115, 44,
        97, 114, 114, 105, 118, 97, 108, 95, 116, 105, 109, 101, 95, 117, 115, 44,
        108, 97, 116, 101, 110, 99, 121, 95, 109, 115, 44,
        111, 114, 105, 103, 105, 110, 95, 108, 97, 98, 101, 108, 10,
    ]
}

/// Appends the decimal digits of `n`.
pub fn push_decimal(out: &mut Vec<u8>, n: u64)
    ensures
        final(out)@ == old(out)@ + decimal(n as nat),
    decreases n,
{
    if n >= 10 {
        push_decimal(out, n / 10);
    }
    out.push((48 + n % 10) as u8);
    assert(out@ =~= old(out)@ + decimal(n as nat));
}

fn push_bytes(out: &mut Vec<u8>, b: &[u8])
    ensures
        final(out)@ == old(out)@ + b@,
{
    let mut k: usize = 0;
    while k < b.len()
        invariant
            k <= b@.len(),
            out@ == old(out)@ + b@.subrange(0, k as int),
        decreases b@.len() - k,
    {
        out.push(b[k]);
        k += 1;
        assert(out@ =~= old(out)@ + b@.subrange(0, k as int));
    }
    assert(b@.subrange(0, k as int) =~= b@);
}

/// Appends a latency given in microseconds as milliseconds with two
/// decimals.
pub fn push_latency_ms(out: &mut Vec<u8>, latency_us: i64)
    ensures
        final(out)@ == old(out)@ + latency_ms_text(latency_us),
{
    let magnitude: u64 = if latency_us < 0 {
        (-(latency_us as i128)) as u64
    } else {
        latency_us as u64
    };
    let hundredths = (magnitude + 5) / 10;
    if latency_us < 0 {
        out.push(45);
    }
    push_decimal(out, hundredths / 100);
    out.push(46);
    out.push((48 + (hundredths % 100) / 10) as u8);
    out.push((48 + hundredths % 10) as u8);
    assert(out@ =~= old(out)@ + latency_ms_text(latency_us));
}

/// Appends the log line of `r`.
pub fn write_record(out: &mut Vec<u8>, r: &EventRecord)
    ensures
        final(out)@ == old(out)@ + record_line(*r),
{
    let ghost start = out@;
    push_decimal(out, r.event_id);
    out.push(44);
    push_decimal(out, r.event_time_us);
    out.push(44);
    push_decimal(out, r.arrival_time_us);
    out.push(44);
    push_latency_ms(out, r.latency_us);
    out.push(44);
    push_bytes(out, r.origin_label.as_str().as_bytes());
    out.push(10);
    assert(out@ =~= start + record_line(*r));
}

/// The header line.
pub fn header_line() -> (r: Vec<u8>)
    ensures
        r@ == header_text(),
{
    let r: Vec<u8> = vec![
        101, 118, 101, 110, 116, 95, 105, 100, 44,
        101, 118, 101, 110, 116, 95, 116, 105, 109, 101, 95, 117, 115, 44,
        97, 114, 114, 105, 118, 97, 108, 95, 116, 105, 109, 101, 95, 117, 115, 44,
        108, 97, 116, 101, 110, 99, 121, 95, 109, 115, 44,
        111, 114, 105, 103, 105, 110, 95, 108, 97, 98, 101, 108, 10,
    ];
    assert(r@ =~= header_text());
    r
}

/// Record lines collected in memory until a flush is due: after
/// `flush_every` records, or once `flush_bytes` bytes are held.
pub struct RecordBuffer {
    bytes: Vec<u8>,
    pending: u64,
    flush_every: u64,
    flush_bytes: usize,
}

impl RecordBuffer {
    /// The bytes held, oldest first.
    pub closed spec fn spec_bytes(&self) -> Seq<u8> {
        self.bytes@
    }

    /// Records appended since the last flush (saturating).
    pub closed spec fn spec_pending(&self) -> u64 {
        self.pending
    }

    pub closed spec fn spec_flush_every(&self) -> u64 {
        self.flush_every
    }

    pub closed spec fn spec_flush_bytes(&self) -> usize {
        self.flush_bytes
    }

    /// An empty buffer with the given flush thresholds.
    pub fn new(flush_every: u64, flush_bytes: usize) -> (r: Self)
        ensures
            r.spec_bytes() == Seq::<u8>::empty(),
            r.spec_pending() == 0,
            r.spec_flush_every() == flush_every,
            r.spec_flush_bytes() == flush_bytes,
    {
        RecordBuffer { bytes: Vec::with_capacity(flush_bytes), pending: 0, flush_every, flush_bytes }
    }

    /// Appends the line of `r`; returns whether a flush is now due.
    pub fn append(&mut self, r: &EventRecord) -> (due: bool)
        ensures
            final(self).spec_bytes() == old(self).spec_bytes() + record_line(*r),
            final(self).spec_pending() == if old(self).spec_pending() == u64::MAX {
                u64::MAX
            } else {
                (old(self).spec_pending() + 1) as u64
            },
            final(self).spec_flush_every() == old(self).spec_flush_every(),
            final(self).spec_flush_bytes() == old(self).spec_flush_bytes(),
            due == (final(self).spec_pending() >= final(self).spec_flush_every()
                || final(self).spec_bytes().len() >= final(self).spec_flush_bytes()),
    {
        write_record(&mut self.bytes, r);
        self.pending = self.pending.saturating_add(1);
        self.pending >= self.flush_every || self.bytes.len() >= self.flush_bytes
    }

    /// Hands out the bytes held and empties the buffer.
    pub fn take(&mut self) -> (r: Vec<u8>)
        ensures
            r@ == old(self).spec_bytes(),
            final(self).spec_bytes() == Seq::<u8>::empty(),
            final(self).spec_pending() == 0,
            final(self).spec_flush_every() == old(self).spec_flush_every(),
            final(self).spec_flush_bytes() == old(self).spec_flush_bytes(),
    {
        let mut out: Vec<u8> = Vec::with_capacity(self.flush_bytes);
        std::mem::swap(&mut self.bytes, &mut out);
        self.pending = 0;
        out
    }

    /// The bytes held, for writing out before `clear`.
    pub fn as_bytes(&self) -> (r: &[u8])
        ensures
            r@ == self.spec_bytes(),
    {
        self.bytes.as_slice()
    }

    /// Drops the bytes held, once they are written out.
    pub fn clear(&mut self)
        ensures
            final(self).spec_bytes() == Seq::<u8>::empty(),
            final(self).spec_pending() == 0,
            final(self).spec_flush_every() == old(self).spec_flush_every(),
            final(self).spec_flush_bytes() == old(self).spec_flush_bytes(),
    {
        self.bytes.clear();
        self.pending = 0;
    }

    /// No bytes are held.
    pub fn is_empty(&self) -> (r: bool)
        ensures
            r == (self.spec_bytes().len() == 0),
    {
        self.bytes.len() == 0
    }
}

} // verus!
