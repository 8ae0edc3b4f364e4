//! The state machine that stitches consecutive frames into traces.
use vstd::prelude::*;
use crate::frame::{Frame, FrameModel, FRAME_LENGTH};
use crate::trace::{Trace, TraceModel};

verus! {

/// Where the assembler stands between two frames.
#[derive(Debug)]
pub enum AssemblerState {
    /// No trace is open.
    Idle,
    /// Frames are being appended to this trace.
    Assembling(Trace),
}

impl AssemblerState {
    /// The open trace, if any.
    pub open spec fn model(&self) -> Option<TraceModel> {
        match self {
            AssemblerState::Idle => None,
            AssemblerState::Assembling(t) => Some(t.model()),
        }
    }
}

/// The model of an optional trace.
pub open spec fn opt_model(t: Option<Trace>) -> Option<TraceModel> {
    match t {
        Some(t) => Some(t.model()),
        None => None,
    }
}

/// `a + b`, wrapped to 64 bits.
pub open spec fn add_wrapping(a: u64, b: u64) -> u64 {
    ((a as int + b as int) % 0x1_0000_0000_0000_0000) as u64
}

/// The trace that a frame opens: it starts at the frame's start plus its
/// offset and holds the frame's samples.
pub open spec fn open_trace(f: FrameModel) -> TraceModel {
    TraceModel {
        timestamp: add_wrapping(f.frame_start, f.data_offset as u64),
        waveform: f.data,
    }
}

/// One transition: from the open trace (if any) and the next frame, the
/// trace left open and the trace completed (if any).
pub open spec fn step_spec(s: Option<TraceModel>, f: FrameModel) -> (
    Option<TraceModel>,
    Option<TraceModel>,
) {
    match s {
        None => if f.data.len() == 0 {
            (None, None)
        } else {
            (Some(open_trace(f)), None)
        },
        Some(t) => if f.data.len() == 0 {
            (None, Some(t))
        } else if f.data_offset == 0 {
            let grown = TraceModel { timestamp: t.timestamp, waveform: t.waveform + f.data };
            if f.data.len() == FRAME_LENGTH {
                (Some(grown), None)
            } else {
                (None, Some(grown))
            }
        } else {
            (Some(open_trace(f)), Some(t))
        },
    }
}

/// The trace of `o`, as a sequence of zero or one.
pub open spec fn emitted(o: Option<TraceModel>) -> Seq<TraceModel> {
    match o {
        Some(t) => seq![t],
        None => Seq::empty(),
    }
}

/// Feeding `fs` in order from `s`: the trace left open, and the traces
/// completed on the way.
pub open spec fn run(s: Option<TraceModel>, fs: Seq<FrameModel>) -> (
    Option<TraceModel>,
    Seq<TraceModel>,
)
    decreases fs.len(),
{
    if fs.len() == 0 {
        (s, Seq::empty())
    } else {
        let before = run(s, fs.drop_last());
        let last = step_spec(before.0, fs.last());
        (last.0, before.1 + emitted(last.1))
    }
}

/// Every trace made from the stream `fs`, the one still open at its end
/// included.
pub open spec fn traces_of(fs: Seq<FrameModel>) -> Seq<TraceModel> {
    run(None, fs).1 + emitted(run(None, fs).0)
}

/// Opens a trace from a non-empty frame.
pub fn start_trace(f: &Frame) -> (r: Trace)
    ensures
        r.model() == open_trace(f.model()),
{
    let mut t = Trace::new(f.frame_start.wrapping_add(f.data_offset as u64));
    append(&mut t.waveform, &f.data);
    assert(t.waveform@ =~= f.data@);
    t
}

/// Appends the samples of `data` to `w`.
fn append(w: &mut Vec<u16>, data: &Vec<u16>)
    ensures
        final(w)@ == old(w)@ + data@,
{
    let ghost start = w@;
    let mut i: usize = 0;
    while i < data.len()
        invariant
            i <= data@.len(),
            w@ == start + data@.subrange(0, i as int),
        decreases data@.len() - i,
    {
        w.push(data[i]);
        i += 1;
        assert(w@ =~= start + data@.subrange(0, i as int));
    }
    assert(data@.subrange(0, data@.len() as int) =~= data@);
}

/// Feeds one frame to the assembler: the new state, and the trace that the
/// frame completed, if any.
pub fn step(state: AssemblerState, f: &Frame) -> (r: (AssemblerState, Option<Trace>))
    requires
        f.wf(),
    ensures
        (r.0.model(), opt_model(r.1)) == step_spec(state.model(), f.model()),
{
    match state {
        AssemblerState::Idle => {
            if f.data_size == 0 {
                (AssemblerState::Idle, None)
            } else {
                (AssemblerState::Assembling(start_trace(f)), None)
            }
        },
        AssemblerState::Assembling(t) => {
            if f.data_size == 0 {
                (AssemblerState::Idle, Some(t))
            } else if f.data_offset == 0 {
                let mut t = t;
                append(&mut t.waveform, &f.data);
                if f.data.len() == FRAME_LENGTH {
                    (AssemblerState::Assembling(t), None)
                } else {
                    (AssemblerState::Idle, Some(t))
                }
            } else {
                (AssemblerState::Assembling(start_trace(f)), Some(t))
            }
        },
    }
}

/// Ends the stream: the trace still open, if any, is handed out.
pub fn finish(state: AssemblerState) -> (r: Option<Trace>)
    ensures
        opt_model(r) == state.model(),
{
    match state {
        AssemblerState::Idle => None,
        AssemblerState::Assembling(t) => Some(t),
    }
}

/// The models of a sequence of traces.
pub open spec fn models(v: Seq<Trace>) -> Seq<TraceModel> {
    v.map_values(|t: Trace| t.model())
}

/// The models of a sequence of frames.
pub open spec fn frame_models(v: Seq<Frame>) -> Seq<FrameModel> {
    v.map_values(|f: Frame| f.model())
}

/// Runs a whole stream of frames through the assembler, from idle, and
/// returns every trace made from it, the one still open at the end included.
pub fn frames_to_traces(frames: &Vec<Frame>) -> (r: Vec<Trace>)
    requires
        forall|i: int| 0 <= i < frames@.len() ==> (#[trigger] frames@[i]).wf(),
    ensures
        models(r@) == traces_of(frame_models(frames@)),
{
    let mut out: Vec<Trace> = Vec::new();
    let mut state = AssemblerState::Idle;
    let mut i: usize = 0;
    while i < frames.len()
        invariant
            i <= frames@.len(),
            forall|j: int| 0 <= j < frames@.len() ==> (#[trigger] frames@[j]).wf(),
            (state.model(), models(out@)) == run(None, frame_models(frames@.subrange(0, i as int))),
        decreases frames@.len() - i,
    {
        let ghost before = out@;
        let (next, done) = step(state, &frames[i]);
        state = next;
        match done {
            Some(t) => out.push(t),
            None => {},
        }
        proof {
            let fs = frame_models(frames@.subrange(0, i + 1));
            assert(fs.drop_last() =~= frame_models(frames@.subrange(0, i as int)));
            assert(fs.last() == frames@[i as int].model());
            assert(models(out@) =~= models(before) + emitted(opt_model(done)));
        }
        i += 1;
    }
    let ghost before = out@;
    match finish(state) {
        Some(t) => out.push(t),
        None => {},
    }
    assert(frames@.subrange(0, frames@.len() as int) =~= frames@);
    assert(models(out@) =~= traces_of(frame_models(frames@)));
    out
}

/// A stream that ends while a trace is open still yields that trace, once,
/// as its last one.
pub proof fn lemma_open_trace_flushed(fs: Seq<FrameModel>)
    requires
        run(None, fs).0 is Some,
    ensures
        traces_of(fs) == run(None, fs).1.push(run(None, fs).0->Some_0),
{
    assert(traces_of(fs) =~= run(None, fs).1.push(run(None, fs).0->Some_0));
}

/// A non-empty frame at offset zero, then a non-empty frame at a non-zero
/// offset, give two traces: the first frame's samples from its start, then
/// the second frame's samples from its start plus its offset (a sum taken
/// here where it fits in 64 bits).
pub proof fn lemma_discontinuity(a: FrameModel, b: FrameModel)
    requires
        a.data_offset == 0,
        a.data.len() > 0,
        b.data.len() > 0,
        b.data_offset != 0,
        b.frame_start + b.data_offset <= u64::MAX,
    ensures
        ({
            let ts = traces_of(seq![a, b]);
            &&& ts.len() == 2
            &&& ts[0].timestamp == a.frame_start
            &&& ts[0].waveform == a.data
            &&& ts[1].timestamp == b.frame_start + b.data_offset
            &&& ts[1].waveform == b.data
        }),
{
    let ta = open_trace(a);
    let tb = open_trace(b);
    assert(seq![a, b].drop_last() =~= seq![a]);
    assert(seq![a].drop_last() =~= Seq::<FrameModel>::empty());
    let r0 = run(None, Seq::<FrameModel>::empty());
    assert(r0.0 is None && r0.1.len() == 0);
    let r1 = run(None, seq![a]);
    assert(r1.0 == Some(ta));
    assert(r1.1 =~= Seq::<TraceModel>::empty());
    let r2 = run(None, seq![a, b]);
    assert(r2.0 == Some(tb));
    assert(r2.1 =~= seq![ta]);
    assert(traces_of(seq![a, b]) =~= seq![ta, tb]);
    assert(ta.timestamp == a.frame_start);
    assert(tb.timestamp == b.frame_start + b.data_offset);
}

} // verus!
