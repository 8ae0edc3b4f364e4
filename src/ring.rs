//! Conversion between this library's records and the ring items of
//! `rust_ringitem_format`, which the sources and sinks carry.
//!
//! `Envelope` reads and writes its body header little-endian, while
//! `RingItem::new_with_body_header` writes the header in the host's byte
//! order: the two agree only on little-endian hosts, the ones the records
//! are produced on.
use vstd::prelude::*;
use rust_ringitem_format::RingItem;
use crate::envelope::{header_truncated, payload_of, DecodeError, Envelope, BODY_HEADER_BYTES};

verus! {

/// Ring items are carried through as opaque values.
#[verifier::external_type_specification]
#[verifier::external_body]
pub struct ExRingItem(RingItem);

/// The type tag a ring item holds.
pub uninterp spec fn ring_type(item: RingItem) -> u32;

/// Whether a ring item's payload starts with a body header.
pub uninterp spec fn ring_has_header(item: RingItem) -> bool;

/// The payload bytes a ring item holds, body header included.
pub uninterp spec fn ring_payload(item: RingItem) -> Seq<u8>;

/// The size a ring item records for itself, in bytes.
pub uninterp spec fn ring_size(item: RingItem) -> u32;

/// Largest body that `Envelope::to_ring_item` can hold: the item's `u32`
/// size counts 12 bytes of item header and 16 of body header besides it.
pub const MAX_RING_BODY: usize = 0xFFFF_FFE3;

/// Relies on `RingItem::type_id`: it returns the item's type field.
pub assume_specification[ RingItem::type_id ](item: &RingItem) -> (r: u32)
    ensures
        r == ring_type(*item),
;

/// Relies on `RingItem::has_body_header`: it reports the item's header flag.
pub assume_specification[ RingItem::has_body_header ](item: &RingItem) -> (r: bool)
    ensures
        r == ring_has_header(*item),
;

/// Relies on `RingItem::payload`: it returns the item's payload field.
pub assume_specification[ RingItem::payload ](item: &RingItem) -> (r: &Vec<u8>)
    ensures
        r@ == ring_payload(*item),
;

/// Relies on `RingItem::new`: an item of type `t`, no body header, an empty
/// payload and a size of 12.
pub assume_specification[ RingItem::new ](t: u32) -> (r: RingItem)
    ensures
        ring_type(r) == t,
        !ring_has_header(r),
        ring_payload(r).len() == 0,
        ring_size(r) == 12,
;

/// Relies on `RingItem::new_with_body_header`: an item of type `t` with a
/// body header, whose payload is the header's 16 bytes and whose size is 28.
pub assume_specification[ RingItem::new_with_body_header ](
    t: u32,
    stamp: u64,
    source: u32,
    barrier: u32,
) -> (r: RingItem)
    ensures
        ring_type(r) == t,
        ring_has_header(r),
        ring_payload(r).len() == BODY_HEADER_BYTES,
        ring_size(r) == 28,
;

/// Relies on `RingItem::add_byte_vec`: appends the bytes of `v` to the
/// payload and adds their number to the size, which must stay within `u32`.
pub assume_specification[ RingItem::add_byte_vec ](item: &mut RingItem, v: &Vec<u8>)
    requires
        ring_size(*old(item)) + v@.len() <= u32::MAX,
    ensures
        ring_payload(*final(item)) == ring_payload(*old(item)) + v@,
        ring_size(*final(item)) == ring_size(*old(item)) + v@.len(),
        ring_type(*final(item)) == ring_type(*old(item)),
        ring_has_header(*final(item)) == ring_has_header(*old(item)),
;

impl Envelope {
    /// Takes a ring item apart. The body header is read from the payload by
    /// `Envelope::decode`, so an item that claims a header its payload is too
    /// short for gives `Truncated`.
    pub fn from_ring_item(item: &RingItem) -> (r: Result<Envelope, DecodeError>)
        ensures
            r is Err <==> header_truncated(ring_has_header(*item), ring_payload(*item)),
            r is Err ==> r == Err::<Envelope, DecodeError>(DecodeError::Truncated),
            r is Ok ==> {
                let e = r->Ok_0;
                &&& e.type_id == ring_type(*item)
                &&& (e.header is Some) == ring_has_header(*item)
                &&& payload_of(e.header, e.body@) == ring_payload(*item)
            },
    {
        Envelope::decode(item.type_id(), item.has_body_header(), item.payload())
    }

    /// The ring item of this record: its type, its body header if any, then
    /// its body. The header's bytes are written in the host's byte order.
    pub fn to_ring_item(&self) -> (r: RingItem)
        requires
            self.body@.len() <= MAX_RING_BODY,
        ensures
            ring_type(r) == self.type_id,
            ring_has_header(r) == (self.header is Some),
            ring_payload(r).len() == payload_of(self.header, self.body@).len(),
            ring_payload(r).subrange(
                ring_payload(r).len() - self.body@.len(),
                ring_payload(r).len() as int,
            ) == self.body@,
    {
        let mut item = match self.header {
            Some(h) => RingItem::new_with_body_header(
                self.type_id,
                h.timestamp,
                h.source_id,
                h.barrier_type,
            ),
            None => RingItem::new(self.type_id),
        };
        let ghost front = ring_payload(item);
        item.add_byte_vec(&self.body);
        assert(ring_payload(item).subrange(front.len() as int, ring_payload(item).len() as int)
            =~= self.body@);
        item
    }
}

} // verus!
