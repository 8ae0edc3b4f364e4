//! Traces: complete waveforms, and their encoding as physics-event records.
use vstd::prelude::*;
use crate::envelope::{
    header_at, header_truncated, lemma_header_round_trip, payload_of, Envelope, Header,
    BODY_HEADER_BYTES, PHYSICS_EVENT,
};
use crate::wire::{samples_at, samples_bytes, u16_bytes, lemma_u16_round_trip, push_u16, read_u16};

verus! {

/// One complete waveform capture.
#[derive(Debug, Clone)]
pub struct Trace {
    /// Fine timestamp: the logical start time of the waveform.
    pub timestamp: u64,
    /// The samples, in order.
    pub waveform: Vec<u16>,
}

/// What a trace holds, as plain values.
pub struct TraceModel {
    pub timestamp: u64,
    pub waveform: Seq<u16>,
}

/// The header that the record of a trace starting at `timestamp` carries.
pub open spec fn trace_header(timestamp: u64) -> Header {
    Header { timestamp, source_id: 0, barrier_type: 0 }
}

proof fn lemma_samples_bytes_len(w: Seq<u16>)
    ensures
        samples_bytes(w).len() == 2 * w.len(),
    decreases w.len(),
{
    if w.len() > 0 {
        lemma_samples_bytes_len(w.drop_last());
    }
}

/// Reading back the samples of `samples_bytes(w)` gives `w`.
pub proof fn lemma_samples_round_trip(w: Seq<u16>)
    ensures
        samples_bytes(w).len() == 2 * w.len(),
        samples_at(samples_bytes(w), 0, w.len()) == w,
    decreases w.len(),
{
    lemma_samples_bytes_len(w);
    if w.len() > 0 {
        let front = w.drop_last();
        lemma_samples_round_trip(front);
        lemma_u16_round_trip(w.last());
        let b = samples_bytes(w);
        let bf = samples_bytes(front);
        assert forall|k: int| 0 <= k < w.len() implies samples_at(b, 0, w.len())[k] == w[k] by {
            if k < front.len() {
                assert(b[2 * k] == bf[2 * k]);
                assert(b[2 * k + 1] == bf[2 * k + 1]);
                assert(samples_at(bf, 0, front.len())[k] == front[k]);
            } else {
                assert(b[2 * k] == u16_bytes(w.last())[0]);
                assert(b[2 * k + 1] == u16_bytes(w.last())[1]);
            }
        }
        assert(samples_at(b, 0, w.len()) =~= w);
    }
}

impl Trace {
    pub open spec fn model(&self) -> TraceModel {
        TraceModel { timestamp: self.timestamp, waveform: self.waveform@ }
    }

    /// An empty trace that starts at `ts`.
    pub fn new(ts: u64) -> (r: Trace)
        ensures
            r.timestamp == ts,
            r.waveform@.len() == 0,
    {
        Trace { timestamp: ts, waveform: Vec::new() }
    }

    /// The physics-event record of this trace: a header with the trace's
    /// timestamp, source and barrier zero, then every sample in order.
    pub fn to_envelope(&self) -> (r: Envelope)
        ensures
            r.type_id == PHYSICS_EVENT,
            r.header == Some(trace_header(self.timestamp)),
            r.body@ == samples_bytes(self.waveform@),
    {
        let mut body: Vec<u8> = Vec::new();
        let mut i: usize = 0;
        while i < self.waveform.len()
            invariant
                i <= self.waveform@.len(),
                body@ == samples_bytes(self.waveform@.subrange(0, i as int)),
            decreases self.waveform@.len() - i,
        {
            push_u16(&mut body, self.waveform[i]);
            proof {
                let next = self.waveform@.subrange(0, i + 1);
                assert(next.drop_last() =~= self.waveform@.subrange(0, i as int));
            }
            i += 1;
        }
        assert(self.waveform@.subrange(0, self.waveform@.len() as int) =~= self.waveform@);
        Envelope { type_id: PHYSICS_EVENT, header: Some(Header { timestamp: self.timestamp, source_id: 0, barrier_type: 0 }), body }
    }

    /// Reads a trace back out of a record laid out as `to_envelope` lays it
    /// out: the header's timestamp, then the samples that fill the body.
    /// Gives `None` when the record has no header or its body holds an odd
    /// number of bytes. The type tag is not looked at.
    pub fn from_envelope(e: &Envelope) -> (r: Option<Trace>)
        ensures
            r is Some <==> (e.header is Some && e.body@.len() % 2 == 0),
            r is Some ==> r->Some_0.timestamp == e.header->Some_0.timestamp,
            r is Some ==> r->Some_0.waveform@ == samples_at(
                e.body@,
                0,
                (e.body@.len() / 2) as nat,
            ),
    {
        let h = match e.header {
            Some(h) => h,
            None => {
                return None;
            },
        };
        let n = e.body.len();
        if n % 2 != 0 {
            return None;
        }
        let mut waveform: Vec<u16> = Vec::new();
        let mut k: usize = 0;
        while k < n / 2
            invariant
                k <= n / 2,
                n == e.body@.len(),
                waveform@ == samples_at(e.body@, 0, k as nat),
            decreases n / 2 - k,
        {
            waveform.push(read_u16(&e.body, 2 * k));
            k += 1;
            assert(waveform@ =~= samples_at(e.body@, 0, k as nat));
        }
        Some(Trace { timestamp: h.timestamp, waveform })
    }
}

/// Encoding a trace and reading the record back gives the trace again: the
/// payload is long enough for its header, the header read from it carries
/// the trace's timestamp, the bytes after the header are the encoded
/// samples, and those read back, two bytes each, are the waveform.
pub proof fn lemma_trace_round_trip(t: TraceModel)
    ensures
        ({
            let body = samples_bytes(t.waveform);
            let p = payload_of(Some(trace_header(t.timestamp)), body);
            &&& !header_truncated(true, p)
            &&& header_at(p) == trace_header(t.timestamp)
            &&& p.subrange(BODY_HEADER_BYTES as int, p.len() as int) == body
            &&& body.len() % 2 == 0
            &&& samples_at(body, 0, (body.len() / 2) as nat) == t.waveform
        }),
{
    let body = samples_bytes(t.waveform);
    lemma_header_round_trip(trace_header(t.timestamp), body);
    lemma_samples_round_trip(t.waveform);
}

} // verus!
