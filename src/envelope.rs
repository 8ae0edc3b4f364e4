//! The generic record envelope: a type tag, an optional body header and the
//! payload bytes that follow it.
use vstd::prelude::*;
use crate::wire::{
    u32_at, u32_bytes, u64_at, u64_bytes, lemma_u32_round_trip, lemma_u64_round_trip, lemma_u32_reencode,
    lemma_u64_reencode, push_u32,
    push_u64, read_u32, read_u64,
};

verus! {

/// Type tag of the physics-event records that carry assembled traces.
pub const PHYSICS_EVENT: u32 = 30;

/// Size in bytes of a body header inside a payload.
pub const BODY_HEADER_BYTES: usize = 16;

/// The optional block at the front of a payload: when the record was made,
/// by which source, and its barrier type.
#[derive(Clone, Copy, Debug, PartialEq, Eq, Structural)]
pub struct Header {
    pub timestamp: u64,
    pub source_id: u32,
    pub barrier_type: u32,
}

/// What can go wrong while taking a record apart.
#[derive(Clone, Copy, Debug, PartialEq, Eq, Structural)]
pub enum DecodeError {
    /// The record's type tag is not the one expected; it carries the tag found.
    WrongType(u32),
    /// The record has no body header, which the frame needs for its start time.
    MissingHeader,
    /// The payload is shorter than the structure it declares.
    Truncated,
}

/// A record taken apart: its type tag, its body header if it has one, and
/// the payload bytes that follow the header.
#[derive(Clone, Debug)]
pub struct Envelope {
    pub type_id: u32,
    pub header: Option<Header>,
    pub body: Vec<u8>,
}

/// The header held by the first sixteen bytes of `p`.
pub open spec fn header_at(p: Seq<u8>) -> Header {
    Header {
        timestamp: u64_at(p, 0) as u64,
        source_id: u32_at(p, 8) as u32,
        barrier_type: u32_at(p, 12) as u32,
    }
}

/// The sixteen bytes that encode `h`.
pub open spec fn header_bytes(h: Header) -> Seq<u8> {
    u64_bytes(h.timestamp) + u32_bytes(h.source_id) + u32_bytes(h.barrier_type)
}

/// The payload of a record with header `h` (if any) and body `body`.
pub open spec fn payload_of(h: Option<Header>, body: Seq<u8>) -> Seq<u8> {
    match h {
        Some(h) => header_bytes(h) + body,
        None => body,
    }
}

/// Whether a payload of `p` is too short for the header it is said to hold.
pub open spec fn header_truncated(has_header: bool, p: Seq<u8>) -> bool {
    has_header && p.len() < BODY_HEADER_BYTES
}

pub proof fn lemma_header_round_trip(h: Header, body: Seq<u8>)
    ensures
        header_bytes(h).len() == BODY_HEADER_BYTES,
        header_at(header_bytes(h) + body) == h,
        (header_bytes(h) + body).subrange(BODY_HEADER_BYTES as int, (header_bytes(h) + body).len() as int)
            == body,
{
    lemma_u64_round_trip(h.timestamp);
    lemma_u32_round_trip(h.source_id);
    lemma_u32_round_trip(h.barrier_type);
    let p = header_bytes(h) + body;
    let a = u64_bytes(h.timestamp);
    let b = u32_bytes(h.source_id);
    let c = u32_bytes(h.barrier_type);
    assert(u64_at(p, 0) == u64_at(a, 0));
    assert(u32_at(p, 8) == u32_at(b, 0));
    assert(u32_at(p, 12) == u32_at(c, 0));
    assert(p.subrange(16, p.len() as int) =~= body);
}

impl Envelope {
    /// Takes apart the payload of a record of type `type_id`; when
    /// `has_header` is set its first sixteen bytes hold the body header.
    pub fn decode(type_id: u32, has_header: bool, payload: &Vec<u8>) -> (r: Result<
        Envelope,
        DecodeError,
    >)
        ensures
            header_truncated(has_header, payload@) <==> r is Err,
            r is Err ==> r == Err::<Envelope, DecodeError>(DecodeError::Truncated),
            r is Ok ==> {
                let e = r->Ok_0;
                &&& e.type_id == type_id
                &&& e.header == (if has_header {
                    Some(header_at(payload@))
                } else {
                    None
                })
                &&& payload@ == payload_of(e.header, e.body@)
            },
    {
        let n = payload.len();
        if has_header && n < BODY_HEADER_BYTES {
            return Err(DecodeError::Truncated);
        }
        let start: usize = if has_header { BODY_HEADER_BYTES } else { 0 };
        let header = if has_header {
            Some(
                Header {
                    timestamp: read_u64(payload, 0),
                    source_id: read_u32(payload, 8),
                    barrier_type: read_u32(payload, 12),
                },
            )
        } else {
            None
        };
        let mut body: Vec<u8> = Vec::new();
        let mut i: usize = start;
        while i < n
            invariant
                start <= i <= n,
                n == payload@.len(),
                body@ == payload@.subrange(start as int, i as int),
            decreases n - i,
        {
            body.push(payload[i]);
            i += 1;
            assert(body@ =~= payload@.subrange(start as int, i as int));
        }
        let e = Envelope { type_id, header, body };
        proof {
            if has_header {
                let h = header->Some_0;
                lemma_u64_reencode(payload@, 0);
                lemma_u32_reencode(payload@, 8);
                lemma_u32_reencode(payload@, 12);
                assert(payload@ =~= header_bytes(h) + body@);
            } else {
                assert(payload@ =~= body@);
            }
        }
        Ok(e)
    }

    /// The payload bytes of this record: the body header, if any, then the body.
    pub fn payload(&self) -> (r: Vec<u8>)
        ensures
            r@ == payload_of(self.header, self.body@),
    {
        let mut out: Vec<u8> = Vec::new();
        match self.header {
            Some(h) => {
                push_u64(&mut out, h.timestamp);
                push_u32(&mut out, h.source_id);
                push_u32(&mut out, h.barrier_type);
            },
            None => {},
        }
        let ghost front = out@;
        let mut i: usize = 0;
        while i < self.body.len()
            invariant
                i <= self.body@.len(),
                out@ == front + self.body@.subrange(0, i as int),
            decreases self.body@.len() - i,
        {
            out.push(self.body[i]);
            i += 1;
            assert(out@ =~= front + self.body@.subrange(0, i as int));
        }
        assert(self.body@.subrange(0, self.body@.len() as int) =~= self.body@);
        proof {
            match self.header {
                Some(h) => assert(front =~= header_bytes(h)),
                None => assert(front =~= Seq::<u8>::empty()),
            }
        }
        out
    }
}

} // verus!
