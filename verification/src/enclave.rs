//! Descriptions of pooled enclaves and their wire format.
//!
//! A description travels as a header followed by its address ranges, each the
//! memory image of its structure: the fields in declaration order, without
//! padding, in the machine's byte order.

use vstd::prelude::*;

use crate::bytes::{
    int_bytes,
    int_value,
    law_bytes_of_value,
    law_value_of_bytes,
    lemma_byte_capacity_values,
    lemma_int_bytes_len,
    lemma_int_value_bound,
    push_int,
    read_int,
    ByteOrder,
};

verus! {

/// Size of a header on the wire.
pub const HDR_SIZE: usize = 8;

/// Size of one address range on the wire.
pub const RANGE_SIZE: usize = 24;

/// What precedes the address ranges of an enclave.
#[derive(Debug, Clone, Copy, PartialEq, Eq, Structural)]
pub struct EnclaveInfoHdr {
    pub id: u32,
    pub nr_range: u32,
}

/// One mapped address range of an enclave.
#[derive(Debug, Clone, Copy, PartialEq, Eq, Structural)]
pub struct EnclaveRange {
    pub addr: u64,
    pub size: u64,
    pub prot: u32,
    pub flags: u32,
}

/// An enclave: its number, the descriptor it is reached by, its ranges.
#[derive(Debug, Clone, PartialEq, Eq)]
pub struct EnclaveInfo {
    pub id: u32,
    pub efd: i32,
    pub ranges: Vec<EnclaveRange>,
}

/// The mathematical value of an `EnclaveInfo`.
#[verifier::ext_equal]
pub struct EnclaveInfoView {
    pub id: u32,
    pub efd: i32,
    pub ranges: Seq<EnclaveRange>,
}

impl View for EnclaveInfo {
    type V = EnclaveInfoView;

    open spec fn view(&self) -> EnclaveInfoView {
        EnclaveInfoView { id: self.id, efd: self.efd, ranges: self.ranges@ }
    }
}

/// The bytes of a header.
pub open spec fn hdr_wire(order: ByteOrder, hdr: EnclaveInfoHdr) -> Seq<u8> {
    int_bytes(order, hdr.id as nat, 4) + int_bytes(order, hdr.nr_range as nat, 4)
}

/// The header that eight bytes spell.
pub open spec fn hdr_value(order: ByteOrder, bytes: Seq<u8>) -> EnclaveInfoHdr {
    EnclaveInfoHdr {
        id: int_value(order, bytes.subrange(0, 4)) as u32,
        nr_range: int_value(order, bytes.subrange(4, 8)) as u32,
    }
}

/// The bytes of an address range.
pub open spec fn range_wire(order: ByteOrder, range: EnclaveRange) -> Seq<u8> {
    int_bytes(order, range.addr as nat, 8) + int_bytes(order, range.size as nat, 8) + int_bytes(
        order,
        range.prot as nat,
        4,
    ) + int_bytes(order, range.flags as nat, 4)
}

/// The address range that twenty-four bytes spell.
pub open spec fn range_value(order: ByteOrder, bytes: Seq<u8>) -> EnclaveRange {
    EnclaveRange {
        addr: int_value(order, bytes.subrange(0, 8)) as u64,
        size: int_value(order, bytes.subrange(8, 16)) as u64,
        prot: int_value(order, bytes.subrange(16, 20)) as u32,
        flags: int_value(order, bytes.subrange(20, 24)) as u32,
    }
}

/// The bytes of a list of address ranges, one after the other.
pub open spec fn ranges_wire(order: ByteOrder, ranges: Seq<EnclaveRange>) -> Seq<u8>
    decreases ranges.len(),
{
    if ranges.len() == 0 {
        Seq::empty()
    } else {
        ranges_wire(order, ranges.drop_last()) + range_wire(order, ranges.last())
    }
}

/// The address ranges that `bytes` spells, a leftover shorter than a range aside.
pub open spec fn ranges_value(order: ByteOrder, bytes: Seq<u8>) -> Seq<EnclaveRange> {
    Seq::new(
        bytes.len() / 24,
        |i: int| range_value(order, bytes.subrange(24 * i, 24 * i + 24)),
    )
}

/// The header that goes with an enclave. The count of ranges is kept to its low 32 bits.
pub open spec fn info_hdr(info: EnclaveInfoView) -> EnclaveInfoHdr {
    EnclaveInfoHdr { id: info.id, nr_range: (info.ranges.len() % 0x1_0000_0000) as u32 }
}

/// The bytes of an enclave description: header, then ranges. The descriptor is no part of it.
pub open spec fn info_wire(order: ByteOrder, info: EnclaveInfoView) -> Seq<u8> {
    hdr_wire(order, info_hdr(info)) + ranges_wire(order, info.ranges)
}

/// A header takes eight bytes.
pub proof fn lemma_hdr_wire_len(order: ByteOrder, hdr: EnclaveInfoHdr)
    ensures
        hdr_wire(order, hdr).len() == 8,
{
    broadcast use lemma_int_bytes_len;

}

/// A range takes twenty-four bytes.
pub proof fn lemma_range_wire_len(order: ByteOrder, range: EnclaveRange)
    ensures
        range_wire(order, range).len() == 24,
{
    broadcast use lemma_int_bytes_len;

}

/// Each range takes twenty-four bytes.
pub proof fn lemma_ranges_wire_len(order: ByteOrder, ranges: Seq<EnclaveRange>)
    ensures
        ranges_wire(order, ranges).len() == 24 * ranges.len(),
    decreases ranges.len(),
{
    if ranges.len() > 0 {
        lemma_ranges_wire_len(order, ranges.drop_last());
        lemma_range_wire_len(order, ranges.last());
    }
}

/// A header read back from its bytes is the header.
pub proof fn law_hdr_of_wire(order: ByteOrder, hdr: EnclaveInfoHdr)
    ensures
        hdr_value(order, hdr_wire(order, hdr)) == hdr,
{
    broadcast use lemma_int_bytes_len;

    let bytes = hdr_wire(order, hdr);
    lemma_byte_capacity_values();
    assert(bytes.subrange(0, 4) =~= int_bytes(order, hdr.id as nat, 4));
    assert(bytes.subrange(4, 8) =~= int_bytes(order, hdr.nr_range as nat, 4));
    law_value_of_bytes(order, hdr.id as nat, 4);
    law_value_of_bytes(order, hdr.nr_range as nat, 4);
}

/// The bytes of the header that eight bytes spell are those bytes.
pub proof fn law_wire_of_hdr(order: ByteOrder, bytes: Seq<u8>)
    requires
        bytes.len() == 8,
    ensures
        hdr_wire(order, hdr_value(order, bytes)) == bytes,
{
    let id = bytes.subrange(0, 4);
    let count = bytes.subrange(4, 8);
    lemma_byte_capacity_values();
    lemma_int_value_bound(order, id);
    lemma_int_value_bound(order, count);
    law_bytes_of_value(order, id);
    law_bytes_of_value(order, count);
    assert(id + count =~= bytes);
}

/// A range read back from its bytes is the range.
pub proof fn law_range_of_wire(order: ByteOrder, range: EnclaveRange)
    ensures
        range_value(order, range_wire(order, range)) == range,
{
    broadcast use lemma_int_bytes_len;

    let bytes = range_wire(order, range);
    lemma_byte_capacity_values();
    assert(bytes.subrange(0, 8) =~= int_bytes(order, range.addr as nat, 8));
    assert(bytes.subrange(8, 16) =~= int_bytes(order, range.size as nat, 8));
    assert(bytes.subrange(16, 20) =~= int_bytes(order, range.prot as nat, 4));
    assert(bytes.subrange(20, 24) =~= int_bytes(order, range.flags as nat, 4));
    law_value_of_bytes(order, range.addr as nat, 8);
    law_value_of_bytes(order, range.size as nat, 8);
    law_value_of_bytes(order, range.prot as nat, 4);
    law_value_of_bytes(order, range.flags as nat, 4);
}

/// The bytes of the range that twenty-four bytes spell are those bytes.
pub proof fn law_wire_of_range(order: ByteOrder, bytes: Seq<u8>)
    requires
        bytes.len() == 24,
    ensures
        range_wire(order, range_value(order, bytes)) == bytes,
{
    let addr = bytes.subrange(0, 8);
    let size = bytes.subrange(8, 16);
    let prot = bytes.subrange(16, 20);
    let flags = bytes.subrange(20, 24);
    lemma_byte_capacity_values();
    lemma_int_value_bound(order, addr);
    lemma_int_value_bound(order, size);
    lemma_int_value_bound(order, prot);
    lemma_int_value_bound(order, flags);
    law_bytes_of_value(order, addr);
    law_bytes_of_value(order, size);
    law_bytes_of_value(order, prot);
    law_bytes_of_value(order, flags);
    assert(addr + size + prot + flags =~= bytes);
}

/// Ranges read back from their bytes are the ranges.
pub proof fn law_ranges_of_wire(order: ByteOrder, ranges: Seq<EnclaveRange>)
    ensures
        ranges_value(order, ranges_wire(order, ranges)) == ranges,
    decreases ranges.len(),
{
    lemma_ranges_wire_len(order, ranges);
    if ranges.len() > 0 {
        let front = ranges.drop_last();
        let bytes = ranges_wire(order, ranges);
        law_ranges_of_wire(order, front);
        lemma_ranges_wire_len(order, front);
        lemma_range_wire_len(order, ranges.last());
        law_range_of_wire(order, ranges.last());
        assert forall|i: int| 0 <= i < ranges.len() implies #[trigger] ranges_value(order, bytes)[i]
            == ranges[i] by {
            let slot = bytes.subrange(24 * i, 24 * i + 24);
            if i < front.len() {
                assert(slot =~= ranges_wire(order, front).subrange(24 * i, 24 * i + 24));
                assert(ranges_value(order, ranges_wire(order, front))[i] == front[i]);
            } else {
                assert(slot =~= range_wire(order, ranges.last()));
            }
        }
    }
    assert(ranges_value(order, ranges_wire(order, ranges)) =~= ranges);
}

/// The bytes of the ranges that a whole number of slots spells are those bytes.
pub proof fn law_wire_of_ranges(order: ByteOrder, bytes: Seq<u8>)
    requires
        bytes.len() % 24 == 0,
    ensures
        ranges_wire(order, ranges_value(order, bytes)) == bytes,
    decreases bytes.len(),
{
    let ranges = ranges_value(order, bytes);
    if bytes.len() > 0 {
        let n = bytes.len() - 24;
        let front = bytes.subrange(0, n);
        let slot = bytes.subrange(n, n + 24);
        law_wire_of_ranges(order, front);
        law_wire_of_range(order, slot);
        assert forall|i: int| 0 <= i < ranges.len() - 1 implies #[trigger] ranges[i]
            == ranges_value(order, front)[i] by {
            assert(bytes.subrange(24 * i, 24 * i + 24) =~= front.subrange(24 * i, 24 * i + 24));
        }
        assert(ranges.drop_last() =~= ranges_value(order, front));
        assert(ranges.last() == range_value(order, slot));
        assert(front + slot =~= bytes);
    } else {
        assert(bytes =~= Seq::<u8>::empty());
    }
}

/// An enclave description read back from its bytes has the same number and
/// ranges, for every enclave whose ranges a header can count.
pub proof fn law_info_of_wire(order: ByteOrder, info: EnclaveInfoView)
    requires
        info.ranges.len() <= u32::MAX,
    ensures
        hdr_value(order, info_wire(order, info).subrange(0, 8)) == info_hdr(info),
        info_hdr(info).nr_range == info.ranges.len(),
        ranges_value(
            order,
            info_wire(order, info).subrange(8, info_wire(order, info).len() as int),
        ) == info.ranges,
{
    let bytes = info_wire(order, info);
    lemma_hdr_wire_len(order, info_hdr(info));
    lemma_ranges_wire_len(order, info.ranges);
    assert(bytes.subrange(0, 8) =~= hdr_wire(order, info_hdr(info)));
    assert(bytes.subrange(8, bytes.len() as int) =~= ranges_wire(order, info.ranges));
    law_hdr_of_wire(order, info_hdr(info));
    law_ranges_of_wire(order, info.ranges);
}

/// A description made from a header's bytes and the bytes of as many ranges as
/// it counts is sent out again as the very same bytes, whatever the descriptor.
pub proof fn law_wire_of_info(order: ByteOrder, hdr: Seq<u8>, ranges: Seq<u8>, efd: i32)
    requires
        hdr.len() == 8,
        ranges.len() == 24 * hdr_value(order, hdr).nr_range,
    ensures
        info_wire(
            order,
            EnclaveInfoView {
                id: hdr_value(order, hdr).id,
                efd,
                ranges: ranges_value(order, ranges),
            },
        ) == hdr + ranges,
{
    law_wire_of_hdr(order, hdr);
    law_wire_of_ranges(order, ranges);
}

/// On the wire a header is its number in four bytes, then its count of ranges
/// in four bytes.
pub proof fn law_hdr_layout(order: ByteOrder, hdr: EnclaveInfoHdr)
    ensures
        hdr_wire(order, hdr).len() == 8,
        hdr_wire(order, hdr).subrange(0, 4) == int_bytes(order, hdr.id as nat, 4),
        hdr_wire(order, hdr).subrange(4, 8) == int_bytes(order, hdr.nr_range as nat, 4),
{
    broadcast use lemma_int_bytes_len;

    let bytes = hdr_wire(order, hdr);
    assert(bytes.subrange(0, 4) =~= int_bytes(order, hdr.id as nat, 4));
    assert(bytes.subrange(4, 8) =~= int_bytes(order, hdr.nr_range as nat, 4));
}

/// The first four bytes of a header spell its number, the last four its count
/// of ranges.
pub proof fn law_hdr_fields(order: ByteOrder, bytes: Seq<u8>)
    requires
        bytes.len() == 8,
    ensures
        hdr_value(order, bytes).id == int_value(order, bytes.subrange(0, 4)),
        hdr_value(order, bytes).nr_range == int_value(order, bytes.subrange(4, 8)),
{
    lemma_byte_capacity_values();
    lemma_int_value_bound(order, bytes.subrange(0, 4));
    lemma_int_value_bound(order, bytes.subrange(4, 8));
}

/// On the wire a range is its address and its size in eight bytes each, then
/// its protection and its flags in four bytes each.
pub proof fn law_range_layout(order: ByteOrder, range: EnclaveRange)
    ensures
        range_wire(order, range).len() == 24,
        range_wire(order, range).subrange(0, 8) == int_bytes(order, range.addr as nat, 8),
        range_wire(order, range).subrange(8, 16) == int_bytes(order, range.size as nat, 8),
        range_wire(order, range).subrange(16, 20) == int_bytes(order, range.prot as nat, 4),
        range_wire(order, range).subrange(20, 24) == int_bytes(order, range.flags as nat, 4),
{
    broadcast use lemma_int_bytes_len;

    let bytes = range_wire(order, range);
    assert(bytes.subrange(0, 8) =~= int_bytes(order, range.addr as nat, 8));
    assert(bytes.subrange(8, 16) =~= int_bytes(order, range.size as nat, 8));
    assert(bytes.subrange(16, 20) =~= int_bytes(order, range.prot as nat, 4));
    assert(bytes.subrange(20, 24) =~= int_bytes(order, range.flags as nat, 4));
}

/// The bytes of a range spell its address, its size, its protection and its
/// flags, in this order.
pub proof fn law_range_fields(order: ByteOrder, bytes: Seq<u8>)
    requires
        bytes.len() == 24,
    ensures
        range_value(order, bytes).addr == int_value(order, bytes.subrange(0, 8)),
        range_value(order, bytes).size == int_value(order, bytes.subrange(8, 16)),
        range_value(order, bytes).prot == int_value(order, bytes.subrange(16, 20)),
        range_value(order, bytes).flags == int_value(order, bytes.subrange(20, 24)),
{
    lemma_byte_capacity_values();
    lemma_int_value_bound(order, bytes.subrange(0, 8));
    lemma_int_value_bound(order, bytes.subrange(8, 16));
    lemma_int_value_bound(order, bytes.subrange(16, 20));
    lemma_int_value_bound(order, bytes.subrange(20, 24));
}

/// On the wire ranges lie one after the other, the `i`th from byte `24 * i` on.
pub proof fn law_ranges_layout(order: ByteOrder, ranges: Seq<EnclaveRange>, i: int)
    requires
        0 <= i < ranges.len(),
    ensures
        ranges_wire(order, ranges).len() == 24 * ranges.len(),
        ranges_wire(order, ranges).subrange(24 * i, 24 * i + 24) == range_wire(order, ranges[i]),
    decreases ranges.len(),
{
    let front = ranges.drop_last();
    let bytes = ranges_wire(order, ranges);
    lemma_ranges_wire_len(order, ranges);
    lemma_ranges_wire_len(order, front);
    lemma_range_wire_len(order, ranges.last());
    let slot = bytes.subrange(24 * i, 24 * i + 24);
    if i < front.len() {
        law_ranges_layout(order, front, i);
        assert(slot =~= ranges_wire(order, front).subrange(24 * i, 24 * i + 24));
    } else {
        assert(slot =~= range_wire(order, ranges.last()));
    }
}

/// Bytes spell as many ranges as they hold whole slots of twenty-four, each
/// slot the range at its place.
pub proof fn law_ranges_fields(order: ByteOrder, bytes: Seq<u8>, i: int)
    requires
        0 <= i,
        24 * i + 24 <= bytes.len(),
    ensures
        ranges_value(order, bytes).len() == bytes.len() / 24,
        ranges_value(order, bytes)[i] == range_value(order, bytes.subrange(24 * i, 24 * i + 24)),
{
}

/// A description is the enclave's number in four bytes, the count of its ranges
/// in four bytes, and then the ranges. A count keeps its low 32 bits.
pub proof fn law_info_layout(order: ByteOrder, info: EnclaveInfoView)
    ensures
        info_wire(order, info).len() == 8 + 24 * info.ranges.len(),
        info_wire(order, info).subrange(0, 4) == int_bytes(order, info.id as nat, 4),
        info_wire(order, info).subrange(4, 8) == int_bytes(
            order,
            (info.ranges.len() % 0x1_0000_0000) as nat,
            4,
        ),
        info_wire(order, info).skip(8) == ranges_wire(order, info.ranges),
        info_hdr(info).id == info.id,
        info_hdr(info).nr_range == info.ranges.len() % 0x1_0000_0000,
{
    let hdr = hdr_wire(order, info_hdr(info));
    let bytes = info_wire(order, info);
    law_hdr_layout(order, info_hdr(info));
    lemma_ranges_wire_len(order, info.ranges);
    assert(bytes.subrange(0, 4) =~= hdr.subrange(0, 4));
    assert(bytes.subrange(4, 8) =~= hdr.subrange(4, 8));
    assert(bytes.skip(8) =~= ranges_wire(order, info.ranges));
}

/// The value of an enclave has what its fields hold.
pub proof fn law_info_view(info: EnclaveInfo)
    ensures
        info@.id == info.id,
        info@.efd == info.efd,
        info@.ranges == info.ranges@,
{
}

impl Default for EnclaveInfoHdr {
    fn default() -> (hdr: EnclaveInfoHdr)
        ensures
            hdr == (EnclaveInfoHdr { id: 0, nr_range: 0 }),
    {
        EnclaveInfoHdr { id: 0, nr_range: 0 }
    }
}

impl Default for EnclaveRange {
    fn default() -> (range: EnclaveRange)
        ensures
            range == (EnclaveRange { addr: 0, size: 0, prot: 0, flags: 0 }),
    {
        EnclaveRange { addr: 0, size: 0, prot: 0, flags: 0 }
    }
}

impl Default for EnclaveInfo {
    fn default() -> (info: EnclaveInfo)
        ensures
            info@ == (EnclaveInfoView { id: 0, efd: 0, ranges: Seq::empty() }),
    {
        let info = EnclaveInfo { id: 0, efd: 0, ranges: Vec::new() };
        assert(info@.ranges =~= Seq::<EnclaveRange>::empty());
        info
    }
}

impl EnclaveInfoHdr {
    /// The header's bytes.
    pub fn to_bytes(&self, order: ByteOrder) -> (bytes: Vec<u8>)
        ensures
            bytes@ == hdr_wire(order, *self),
    {
        let mut bytes: Vec<u8> = Vec::new();
        push_int(&mut bytes, order, self.id as u64, 4);
        push_int(&mut bytes, order, self.nr_range as u64, 4);
        assert(bytes@ =~= hdr_wire(order, *self));
        bytes
    }

    /// The header that eight received bytes spell.
    pub fn from_bytes(order: ByteOrder, bytes: &[u8]) -> (hdr: EnclaveInfoHdr)
        requires
            bytes@.len() == 8,
        ensures
            hdr == hdr_value(order, bytes@),
            hdr_wire(order, hdr) == bytes@,
    {
        proof {
            lemma_byte_capacity_values();
            lemma_int_value_bound(order, bytes@.subrange(0, 4));
            lemma_int_value_bound(order, bytes@.subrange(4, 8));
            law_wire_of_hdr(order, bytes@);
        }
        EnclaveInfoHdr {
            id: read_int(bytes, order, 0, 4) as u32,
            nr_range: read_int(bytes, order, 4, 4) as u32,
        }
    }

    /// How many bytes of ranges follow this header.
    pub fn ranges_size(&self) -> (size: u64)
        ensures
            size == 24 * self.nr_range,
    {
        24 * (self.nr_range as u64)
    }
}

impl EnclaveRange {
    /// Appends the range's bytes to `buf`.
    fn push_to(&self, order: ByteOrder, buf: &mut Vec<u8>)
        ensures
            final(buf)@ == old(buf)@ + range_wire(order, *self),
    {
        push_int(buf, order, self.addr, 8);
        push_int(buf, order, self.size, 8);
        push_int(buf, order, self.prot as u64, 4);
        push_int(buf, order, self.flags as u64, 4);
        assert(buf@ =~= old(buf)@ + range_wire(order, *self));
    }

    /// The range that the slot of `bytes` from position `at` on spells.
    fn read_from(order: ByteOrder, bytes: &[u8], at: usize) -> (range: EnclaveRange)
        requires
            at + 24 <= bytes@.len(),
        ensures
            range == range_value(order, bytes@.subrange(at as int, at + 24)),
    {
        let ghost slot = bytes@.subrange(at as int, at + 24);
        proof {
            assert(bytes.len() == bytes@.len());
            assert(bytes@.subrange(at as int, at + 8) =~= slot.subrange(0, 8));
            assert(bytes@.subrange(at + 8, at + 16) =~= slot.subrange(8, 16));
            assert(bytes@.subrange(at + 16, at + 20) =~= slot.subrange(16, 20));
            assert(bytes@.subrange(at + 20, at + 24) =~= slot.subrange(20, 24));
            lemma_byte_capacity_values();
            lemma_int_value_bound(order, slot.subrange(0, 8));
            lemma_int_value_bound(order, slot.subrange(8, 16));
            lemma_int_value_bound(order, slot.subrange(16, 20));
            lemma_int_value_bound(order, slot.subrange(20, 24));
        }
        EnclaveRange {
            addr: read_int(bytes, order, at, 8),
            size: read_int(bytes, order, at + 8, 8),
            prot: read_int(bytes, order, at + 16, 4) as u32,
            flags: read_int(bytes, order, at + 20, 4) as u32,
        }
    }
}

impl EnclaveInfo {
    /// The description as it is sent to whoever takes the enclave over.
    pub fn to_bytes(&self, order: ByteOrder) -> (bytes: Vec<u8>)
        ensures
            bytes@ == info_wire(order, self@),
    {
        let count: usize = self.ranges.len();
        assert(count as u32 == (count as int) % 0x1_0000_0000) by (bit_vector);
        let hdr = EnclaveInfoHdr { id: self.id, nr_range: count as u32 };
        let mut bytes: Vec<u8> = hdr.to_bytes(order);
        let mut i: usize = 0;
        assert(bytes@ =~= hdr_wire(order, hdr) + ranges_wire(order, self.ranges@.take(0)));
        while i < count
            invariant
                i <= count,
                count == self.ranges@.len(),
                bytes@ == hdr_wire(order, hdr) + ranges_wire(order, self.ranges@.take(i as int)),
            decreases count - i,
        {
            let ghost done = self.ranges@.take(i as int);
            let ghost next = self.ranges@.take(i + 1);
            self.ranges[i].push_to(order, &mut bytes);
            proof {
                assert(next.drop_last() =~= done);
                assert(next.last() == self.ranges@[i as int]);
                assert(bytes@ =~= hdr_wire(order, hdr) + ranges_wire(order, next));
            }
            i = i + 1;
        }
        assert(self.ranges@.take(count as int) =~= self.ranges@);
        bytes
    }

    /// The ranges that the bytes received after a header spell.
    pub fn parse_ranges(
        order: ByteOrder,
        hdr: EnclaveInfoHdr,
        bytes: &[u8],
    ) -> (ranges: Vec<EnclaveRange>)
        requires
            bytes@.len() == 24 * hdr.nr_range,
        ensures
            ranges@ == ranges_value(order, bytes@),
            ranges@.len() == hdr.nr_range,
            ranges_wire(order, ranges@) == bytes@,
    {
        let mut ranges: Vec<EnclaveRange> = Vec::new();
        let mut at: usize = 0;
        let total: usize = bytes.len();
        while at < total
            invariant
                total == bytes@.len(),
                total % 24 == 0,
                at <= total,
                at == 24 * ranges@.len(),
                forall|i: int|
                    0 <= i < ranges@.len() ==> #[trigger] ranges@[i] == range_value(
                        order, bytes@.subrange(24 * i, 24 * i + 24),
                    ),
            decreases total - at,
        {
            let range = EnclaveRange::read_from(order, bytes, at);
            ranges.push(range);
            at = at + 24;
        }
        proof {
            assert(ranges@ =~= ranges_value(order, bytes@));
            law_wire_of_ranges(order, bytes@);
        }
        ranges
    }
}

} // verus!
