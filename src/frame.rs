//! Frames: the fixed-layout segments of a waveform that arrive one record each.
use vstd::prelude::*;
use crate::envelope::{DecodeError, Envelope, Header};
use crate::wire::{samples_at, u16_at, u32_at, read_u16, read_u32};

verus! {

/// Type tag of the records that carry frames.
pub const TRACE_FRAME_ITEM_TYPE: u32 = 50;

/// Number of sample slots in a full frame.
pub const FRAME_LENGTH: usize = 512;

/// Bytes in a frame body ahead of the samples: the sample count, then the offset.
pub const FRAME_PREFIX_BYTES: usize = 6;

/// One segment of a waveform.
#[derive(Debug)]
pub struct Frame {
    /// Coarse timestamp of the start of the frame.
    pub frame_start: u64,
    /// Number of samples in the frame.
    pub data_size: u32,
    /// Where, in samples, the data starts within the frame.
    pub data_offset: u16,
    /// The samples, `data_size` of them.
    pub data: Vec<u16>,
}

/// What a frame holds, as plain values.
pub struct FrameModel {
    pub frame_start: u64,
    pub data_offset: u16,
    pub data: Seq<u16>,
}

impl Frame {
    /// The sample count agrees with the samples held.
    pub open spec fn wf(&self) -> bool {
        self.data@.len() == self.data_size as nat
    }

    pub open spec fn model(&self) -> FrameModel {
        FrameModel { frame_start: self.frame_start, data_offset: self.data_offset, data: self.data@ }
    }

    /// An empty frame that starts at `start`.
    pub fn new(start: u64) -> (r: Frame)
        ensures
            r.wf(),
            r.frame_start == start,
            r.data_size == 0,
            r.data_offset == 0,
    {
        Frame { frame_start: start, data_size: 0, data_offset: 0, data: Vec::new() }
    }

    /// Reads a frame out of a record, or says why the record is not one.
    pub fn from_envelope(e: &Envelope) -> (r: Result<Frame, DecodeError>)
        ensures
            match frame_error(e.type_id, e.header, e.body@) {
                Some(err) => r == Err::<Frame, DecodeError>(err),
                None => r is Ok && r->Ok_0.wf() && r->Ok_0.model() == frame_of(
                    e.header->Some_0,
                    e.body@,
                ),
            },
    {
        if e.type_id != TRACE_FRAME_ITEM_TYPE {
            return Err(DecodeError::WrongType(e.type_id));
        }
        let h = match e.header {
            Some(h) => h,
            None => {
                return Err(DecodeError::MissingHeader);
            },
        };
        let n = e.body.len();
        if n < FRAME_PREFIX_BYTES {
            return Err(DecodeError::Truncated);
        }
        let data_size = read_u32(&e.body, 0);
        let data_offset = read_u16(&e.body, 4);
        if (n - FRAME_PREFIX_BYTES) / 2 < data_size as usize {
            return Err(DecodeError::Truncated);
        }
        let mut data: Vec<u16> = Vec::new();
        let mut k: usize = 0;
        while k < data_size as usize
            invariant
                k <= data_size,
                n == e.body@.len(),
                FRAME_PREFIX_BYTES + 2 * data_size <= n,
                data@ == samples_at(e.body@, FRAME_PREFIX_BYTES as int, k as nat),
            decreases data_size - k,
        {
            data.push(read_u16(&e.body, FRAME_PREFIX_BYTES + 2 * k));
            k += 1;
            assert(data@ =~= samples_at(e.body@, FRAME_PREFIX_BYTES as int, k as nat));
        }
        let r = Frame { frame_start: h.timestamp, data_size, data_offset, data };
        assert(r.model().data =~= frame_of(h, e.body@).data);
        Ok(r)
    }
}

/// Whether a frame body is too short for the samples it declares.
pub open spec fn frame_truncated(body: Seq<u8>) -> bool {
    body.len() < FRAME_PREFIX_BYTES || body.len() < FRAME_PREFIX_BYTES + 2 * u32_at(body, 0)
}

/// The frame held by a body whose record has header `h`.
pub open spec fn frame_of(h: Header, body: Seq<u8>) -> FrameModel {
    FrameModel {
        frame_start: h.timestamp,
        data_offset: u16_at(body, 4) as u16,
        data: samples_at(body, FRAME_PREFIX_BYTES as int, u32_at(body, 0) as nat),
    }
}

/// Which error, if any, reading a frame out of a record gives.
pub open spec fn frame_error(type_id: u32, header: Option<Header>, body: Seq<u8>) -> Option<
    DecodeError,
> {
    if type_id != TRACE_FRAME_ITEM_TYPE {
        Some(DecodeError::WrongType(type_id))
    } else if header is None {
        Some(DecodeError::MissingHeader)
    } else if frame_truncated(body) {
        Some(DecodeError::Truncated)
    } else {
        None
    }
}

} // verus!
