use rust_ringitem_format::RingItem;
use trace_defenestrator::assembler::{finish, frames_to_traces, start_trace, step, AssemblerState};
use trace_defenestrator::envelope::{DecodeError, Envelope, Header, PHYSICS_EVENT};
use trace_defenestrator::frame::{Frame, FRAME_LENGTH, TRACE_FRAME_ITEM_TYPE};
use trace_defenestrator::pipeline::envelopes_to_traces;
use trace_defenestrator::trace::Trace;

fn frame(start: u64, offset: u16, data: Vec<u16>) -> Frame {
    Frame { frame_start: start, data_size: data.len() as u32, data_offset: offset, data }
}

fn ramp(n: usize, first: u16) -> Vec<u16> {
    (0..n).map(|i| first.wrapping_add(i as u16)).collect()
}

fn frame_body(size: u32, offset: u16, data: &[u16]) -> Vec<u8> {
    let mut b = Vec::new();
    b.extend_from_slice(&size.to_le_bytes());
    b.extend_from_slice(&offset.to_le_bytes());
    for s in data {
        b.extend_from_slice(&s.to_le_bytes());
    }
    b
}

fn frame_record(start: u64, offset: u16, data: &[u16]) -> Envelope {
    Envelope {
        type_id: TRACE_FRAME_ITEM_TYPE,
        header: Some(Header { timestamp: start, source_id: 3, barrier_type: 0 }),
        body: frame_body(data.len() as u32, offset, data),
    }
}

#[test]
fn single_frame_without_trailer() {
    let data = ramp(200, 7);
    let traces = frames_to_traces(&vec![frame(1000, 0, data.clone())]);
    assert_eq!(traces.len(), 1);
    assert_eq!(traces[0].timestamp, 1000);
    assert_eq!(traces[0].waveform, data);
}

#[test]
fn full_frame_then_empty_terminator() {
    let data = ramp(FRAME_LENGTH, 0);
    let frames = vec![frame(50, 0, data.clone()), frame(60, 0, vec![])];
    let traces = frames_to_traces(&frames);
    assert_eq!(traces.len(), 1);
    assert_eq!(traces[0].waveform.len(), 512);
    assert_eq!(traces[0].waveform, data);

    let (s, done) = step(AssemblerState::Idle, &frames[0]);
    assert!(done.is_none());
    let (s, done) = step(s, &frames[1]);
    assert_eq!(done.unwrap().waveform.len(), 512);
    assert!(matches!(s, AssemblerState::Idle));
    assert!(finish(s).is_none());
}

#[test]
fn full_frame_then_continuation() {
    let a = ramp(512, 0);
    let b = ramp(100, 1000);
    let traces = frames_to_traces(&vec![frame(10, 0, a.clone()), frame(99, 0, b.clone())]);
    assert_eq!(traces.len(), 1);
    assert_eq!(traces[0].timestamp, 10);
    assert_eq!(traces[0].waveform.len(), 612);
    let mut both = a;
    both.extend_from_slice(&b);
    assert_eq!(traces[0].waveform, both);
}

#[test]
fn discontinuity_mid_assembly() {
    let a = ramp(512, 0);
    let b = ramp(50, 9);
    let traces = frames_to_traces(&vec![frame(10, 0, a.clone()), frame(2000, 5, b.clone())]);
    assert_eq!(traces.len(), 2);
    assert_eq!(traces[0].timestamp, 10);
    assert_eq!(traces[0].waveform, a);
    assert_eq!(traces[1].timestamp, 2005);
    assert_eq!(traces[1].waveform, b);
}

#[test]
fn leading_empty_frame() {
    let (s, done) = step(AssemblerState::Idle, &frame(5, 0, vec![]));
    assert!(done.is_none());
    assert!(matches!(s, AssemblerState::Idle));
    assert!(frames_to_traces(&vec![frame(5, 0, vec![])]).is_empty());
    assert!(frames_to_traces(&vec![]).is_empty());
}

#[test]
fn open_trace_is_flushed_at_end() {
    let data = ramp(300, 4);
    let (s, done) = step(AssemblerState::Idle, &frame(70, 0, data.clone()));
    assert!(done.is_none());
    let t = finish(s).unwrap();
    assert_eq!(t.timestamp, 70);
    assert_eq!(t.waveform, data);

    let traces = frames_to_traces(&vec![frame(1, 0, ramp(20, 0)), frame(70, 3, data.clone())]);
    assert_eq!(traces.len(), 2);
    assert_eq!(traces[0].waveform, ramp(20, 0));
    assert_eq!(traces[1].timestamp, 73);
    assert_eq!(traces[1].waveform, data);
}

#[test]
fn short_continuation_completes_trace() {
    let frames = vec![frame(1, 0, ramp(512, 0)), frame(2, 0, ramp(3, 0)), frame(3, 0, ramp(4, 0))];
    let traces = frames_to_traces(&frames);
    assert_eq!(traces.len(), 2);
    assert_eq!(traces[0].waveform.len(), 515);
    assert_eq!(traces[1].timestamp, 3);
    assert_eq!(traces[1].waveform.len(), 4);
}

#[test]
fn opening_timestamp_wraps() {
    let t = start_trace(&frame(u64::MAX, 2, vec![1]));
    assert_eq!(t.timestamp, 1);
    assert_eq!(t.waveform, vec![1]);
}

#[test]
fn trace_encoding_layout() {
    let t = Trace { timestamp: 0x0102030405060708, waveform: vec![0x1234, 0xabcd] };
    let e = t.to_envelope();
    assert_eq!(e.type_id, PHYSICS_EVENT);
    assert_eq!(e.header, Some(Header { timestamp: 0x0102030405060708, source_id: 0, barrier_type: 0 }));
    assert_eq!(e.body, vec![0x34, 0x12, 0xcd, 0xab]);
    assert_eq!(
        e.payload(),
        vec![8, 7, 6, 5, 4, 3, 2, 1, 0, 0, 0, 0, 0, 0, 0, 0, 0x34, 0x12, 0xcd, 0xab]
    );
}

#[test]
fn trace_round_trip() {
    let t = Trace { timestamp: 123456789, waveform: ramp(700, 65000) };
    let e = t.to_envelope();
    let back = Envelope::decode(e.type_id, true, &e.payload()).unwrap();
    let u = Trace::from_envelope(&back).unwrap();
    assert_eq!(u.timestamp, t.timestamp);
    assert_eq!(u.waveform, t.waveform);

    let item = e.to_ring_item();
    let again = Envelope::from_ring_item(&item).unwrap();
    let v = Trace::from_envelope(&again).unwrap();
    assert_eq!(again.type_id, PHYSICS_EVENT);
    assert_eq!(v.timestamp, t.timestamp);
    assert_eq!(v.waveform, t.waveform);
}

#[test]
fn trace_from_odd_body_is_none() {
    let e = Envelope { type_id: PHYSICS_EVENT, header: Some(Header { timestamp: 1, source_id: 0, barrier_type: 0 }), body: vec![1, 2, 3] };
    assert!(Trace::from_envelope(&e).is_none());
    let e = Envelope { type_id: PHYSICS_EVENT, header: None, body: vec![1, 2] };
    assert!(Trace::from_envelope(&e).is_none());
}

#[test]
fn wrong_type_is_fatal() {
    let mut bad = frame_record(9, 0, &[1, 2, 3]);
    bad.type_id = PHYSICS_EVENT;
    assert_eq!(Frame::from_envelope(&bad).unwrap_err(), DecodeError::WrongType(30));

    let items = vec![frame_record(1, 0, &ramp(512, 0)), bad, frame_record(2, 0, &[4])];
    let (traces, res) = envelopes_to_traces(&items);
    assert_eq!(res, Err(DecodeError::WrongType(30)));
    assert!(traces.is_empty());

    let items = vec![frame_record(1, 0, &[5, 6]), frame_record(9, 0, &[1]).clone()];
    let mut items = items;
    items[1].type_id = 7;
    let (traces, res) = envelopes_to_traces(&items);
    assert_eq!(res, Err(DecodeError::WrongType(7)));
    assert!(traces.is_empty());
}

#[test]
fn records_to_traces() {
    let items = vec![
        frame_record(100, 0, &ramp(512, 0)),
        frame_record(101, 0, &ramp(10, 0)),
        frame_record(200, 3, &ramp(512, 0)),
        frame_record(300, 0, &[]),
        frame_record(400, 0, &[]),
        frame_record(500, 1, &[8, 9]),
    ];
    let (traces, res) = envelopes_to_traces(&items);
    assert_eq!(res, Ok(()));
    assert_eq!(traces.len(), 3);
    assert_eq!((traces[0].timestamp, traces[0].waveform.len()), (100, 522));
    assert_eq!((traces[1].timestamp, traces[1].waveform.len()), (203, 512));
    assert_eq!((traces[2].timestamp, traces[2].waveform.clone()), (501, vec![8, 9]));
}

#[test]
fn frame_decoding() {
    let f = Frame::from_envelope(&frame_record(77, 12, &[0x0102, 0xfffe])).unwrap();
    assert_eq!(f.frame_start, 77);
    assert_eq!(f.data_size, 2);
    assert_eq!(f.data_offset, 12);
    assert_eq!(f.data, vec![0x0102, 0xfffe]);

    let mut body = frame_body(1, 0, &[5]);
    body.extend_from_slice(&[0xaa, 0xbb]);
    let e = Envelope { type_id: TRACE_FRAME_ITEM_TYPE, header: Some(Header { timestamp: 1, source_id: 0, barrier_type: 0 }), body };
    assert_eq!(Frame::from_envelope(&e).unwrap().data, vec![5]);
}

#[test]
fn frame_without_header() {
    let mut e = frame_record(1, 0, &[1]);
    e.header = None;
    assert_eq!(Frame::from_envelope(&e).unwrap_err(), DecodeError::MissingHeader);
}

#[test]
fn frame_truncated() {
    let mut e = frame_record(1, 0, &[1, 2, 3]);
    e.body.pop();
    assert_eq!(Frame::from_envelope(&e).unwrap_err(), DecodeError::Truncated);
    e.body.truncate(5);
    assert_eq!(Frame::from_envelope(&e).unwrap_err(), DecodeError::Truncated);
    let e = Envelope {
        type_id: TRACE_FRAME_ITEM_TYPE,
        header: Some(Header { timestamp: 1, source_id: 0, barrier_type: 0 }),
        body: frame_body(u32::MAX, 0, &[1, 2]),
    };
    assert_eq!(Frame::from_envelope(&e).unwrap_err(), DecodeError::Truncated);
}

#[test]
fn envelope_decoding() {
    let mut payload = vec![1, 0, 0, 0, 0, 0, 0, 0, 2, 0, 0, 0, 3, 0, 0, 0];
    payload.extend_from_slice(&[9, 8]);
    let e = Envelope::decode(50, true, &payload).unwrap();
    assert_eq!(e.type_id, 50);
    assert_eq!(e.header, Some(Header { timestamp: 1, source_id: 2, barrier_type: 3 }));
    assert_eq!(e.body, vec![9, 8]);
    assert_eq!(e.payload(), payload);

    let e = Envelope::decode(50, false, &payload).unwrap();
    assert_eq!(e.header, None);
    assert_eq!(e.body, payload);

    assert_eq!(Envelope::decode(50, true, &vec![0; 15]).unwrap_err(), DecodeError::Truncated);
}

#[test]
fn ring_item_conversion() {
    let mut item = RingItem::new_with_body_header(TRACE_FRAME_ITEM_TYPE, 0x55, 4, 0);
    item.add_byte_vec(&frame_body(2, 1, &[10, 20]));
    let e = Envelope::from_ring_item(&item).unwrap();
    assert_eq!(e.type_id, TRACE_FRAME_ITEM_TYPE);
    assert_eq!(e.header, Some(Header { timestamp: 0x55, source_id: 4, barrier_type: 0 }));
    let f = Frame::from_envelope(&e).unwrap();
    assert_eq!((f.frame_start, f.data_offset, f.data), (0x55, 1, vec![10, 20]));

    let plain = Envelope { type_id: 12, header: None, body: vec![1, 2, 3] };
    let item = plain.to_ring_item();
    assert_eq!(item.type_id(), 12);
    assert!(!item.has_body_header());
    assert_eq!(item.payload(), &vec![1, 2, 3]);
    let back = Envelope::from_ring_item(&item).unwrap();
    assert_eq!((back.type_id, back.header, back.body), (12, None, vec![1, 2, 3]));
}

#[test]
fn new_trace_and_frame_are_empty() {
    let t = Trace::new(42);
    assert_eq!(t.timestamp, 42);
    assert!(t.waveform.is_empty());
    let f = Frame::new(17);
    assert_eq!((f.frame_start, f.data_size, f.data_offset), (17, 0, 0));
    assert!(f.data.is_empty());
}

#[test]
fn ring_item_with_header_layout() {
    let e = Envelope {
        type_id: PHYSICS_EVENT,
        header: Some(Header { timestamp: 9, source_id: 0, barrier_type: 0 }),
        body: vec![0xaa, 0xbb, 0xcc],
    };
    let item = e.to_ring_item();
    assert_eq!(item.type_id(), PHYSICS_EVENT);
    assert!(item.has_body_header());
    assert_eq!(item.payload().len(), 19);
    assert_eq!(&item.payload()[16..], &[0xaa, 0xbb, 0xcc]);
    assert_eq!(item.size(), 12 + 19);
    assert!(trace_defenestrator::ring::MAX_RING_BODY + 28 == u32::MAX as usize);
}
