//! The whole conversion: records in, traces out.
use vstd::prelude::*;
use crate::assembler::{
    emitted, finish, models, opt_model, run, step, traces_of, AssemblerState,
};
use crate::trace::TraceModel;
use crate::envelope::{DecodeError, Envelope};
use crate::frame::{frame_error, frame_of, Frame, FrameModel, TRACE_FRAME_ITEM_TYPE};
use crate::trace::Trace;

verus! {

/// Whether a record holds a well-formed frame.
pub open spec fn holds_frame(e: Envelope) -> bool {
    frame_error(e.type_id, e.header, e.body@) is None
}

/// The frames held by a sequence of records that all hold one.
pub open spec fn frames_in(es: Seq<Envelope>) -> Seq<FrameModel> {
    es.map_values(|e: Envelope| frame_of(e.header->Some_0, e.body@))
}

/// How many records at the front of `es` hold a frame.
pub open spec fn good_prefix_len(es: Seq<Envelope>) -> nat
    decreases es.len(),
{
    if es.len() == 0 {
        0
    } else if holds_frame(es[0]) {
        1 + good_prefix_len(es.drop_first())
    } else {
        0
    }
}

/// The outcome of converting the records `es`: every trace made when they
/// all hold a frame; otherwise the traces completed before the first record
/// that does not, and that record's error.
pub open spec fn conversion(es: Seq<Envelope>) -> (Seq<TraceModel>, Result<(), DecodeError>) {
    let k = good_prefix_len(es);
    if k == es.len() {
        (traces_of(frames_in(es)), Ok(()))
    } else {
        (
            run(None, frames_in(es.subrange(0, k as int))).1,
            Err(frame_error(es[k as int].type_id, es[k as int].header, es[k as int].body@)->Some_0),
        )
    }
}

/// `good_prefix_len` is the index of the first record without a frame.
pub proof fn lemma_good_prefix_len(es: Seq<Envelope>, k: int)
    requires
        0 <= k <= es.len(),
        forall|i: int| 0 <= i < k ==> holds_frame(#[trigger] es[i]),
        k < es.len() ==> !holds_frame(es[k]),
    ensures
        good_prefix_len(es) == k,
    decreases k,
{
    if k > 0 {
        let rest = es.drop_first();
        assert forall|i: int| 0 <= i < k - 1 implies holds_frame(#[trigger] rest[i]) by {
            assert(rest[i] == es[i + 1]);
        }
        assert(k - 1 < rest.len() ==> rest[k - 1] == es[k]);
        lemma_good_prefix_len(rest, k - 1);
    } else if es.len() > 0 {
        assert(!holds_frame(es[0]));
    }
}

/// A record that is not of the frame type halts the conversion: whatever
/// follows it, the outcome is the traces completed by the frames before it
/// and the record's type error; nothing comes of that record or after it.
pub proof fn lemma_wrong_type_halts(good: Seq<Envelope>, bad: Envelope, rest: Seq<Envelope>)
    requires
        forall|i: int| 0 <= i < good.len() ==> holds_frame(#[trigger] good[i]),
        bad.type_id != TRACE_FRAME_ITEM_TYPE,
    ensures
        conversion(good + seq![bad] + rest) == (
            run(None, frames_in(good)).1,
            Err::<(), DecodeError>(DecodeError::WrongType(bad.type_id)),
        ),
{
    let es = good + seq![bad] + rest;
    let k = good.len() as int;
    assert forall|i: int| 0 <= i < k implies holds_frame(#[trigger] es[i]) by {
        assert(es[i] == good[i]);
    }
    assert(es[k] == bad);
    lemma_good_prefix_len(es, k);
    assert(es.subrange(0, k) =~= good);
}

/// Converts a stream of frame records into traces.
///
/// When every record holds a frame, all traces made from them come out,
/// the one still open at the end included. Otherwise processing stops at
/// the first record that does not: its error is returned beside the traces
/// completed before it, and the trace still open there is dropped.
pub fn envelopes_to_traces(items: &Vec<Envelope>) -> (r: (Vec<Trace>, Result<(), DecodeError>))
    ensures
        (models(r.0@), r.1) == conversion(items@),
{
    let mut out: Vec<Trace> = Vec::new();
    let mut state = AssemblerState::Idle;
    let mut i: usize = 0;
    while i < items.len()
        invariant
            i <= items@.len(),
            forall|j: int| 0 <= j < i ==> holds_frame(#[trigger] items@[j]),
            (state.model(), models(out@)) == run(None, frames_in(items@.subrange(0, i as int))),
        decreases items@.len() - i,
    {
        let f: Frame = match Frame::from_envelope(&items[i]) {
            Ok(f) => f,
            Err(err) => {
                proof {
                    lemma_good_prefix_len(items@, i as int);
                }
                return (out, Err(err));
            },
        };
        let ghost before = out@;
        let (next, done) = step(state, &f);
        state = next;
        match done {
            Some(t) => out.push(t),
            None => {},
        }
        proof {
            let fs = frames_in(items@.subrange(0, i + 1));
            assert(fs.drop_last() =~= frames_in(items@.subrange(0, i as int)));
            assert(fs.last() == f.model());
            assert(models(out@) =~= models(before) + emitted(opt_model(done)));
        }
        i += 1;
    }
    let ghost before = out@;
    match finish(state) {
        Some(t) => out.push(t),
        None => {},
    }
    assert(items@.subrange(0, items@.len() as int) =~= items@);
    assert(models(out@) =~= traces_of(frames_in(items@)));
    proof {
        lemma_good_prefix_len(items@, items@.len() as int);
    }
    (out, Ok(()))
}

} // verus!
