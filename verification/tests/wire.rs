use eccfs_epm::bytes::ByteOrder;
use eccfs_epm::enclave::{EnclaveInfo, EnclaveInfoHdr, EnclaveRange, HDR_SIZE, RANGE_SIZE};

const ORDERS: [ByteOrder; 2] = [ByteOrder::Little, ByteOrder::Big];

fn range(n: u64) -> EnclaveRange {
    EnclaveRange { addr: 0x1122_3344_5566_7700 + n, size: 0x1000 * n, prot: 5, flags: 0x8000_0012 }
}

fn info(count: u64) -> EnclaveInfo {
    EnclaveInfo { id: 0xdead_beef, efd: 3, ranges: (0..count).map(range).collect() }
}

#[test]
fn header_bytes_follow_the_byte_order() {
    let hdr = EnclaveInfoHdr { id: 0x0102_0304, nr_range: 0xa0b0_c0d0 };
    assert_eq!(hdr.to_bytes(ByteOrder::Little), vec![4, 3, 2, 1, 0xd0, 0xc0, 0xb0, 0xa0]);
    assert_eq!(hdr.to_bytes(ByteOrder::Big), vec![1, 2, 3, 4, 0xa0, 0xb0, 0xc0, 0xd0]);
}

#[test]
fn bytes_of_the_machine_are_its_memory_image() {
    let native =
        if 1u16.to_ne_bytes()[0] == 1 { ByteOrder::Little } else { ByteOrder::Big };
    let einfo = info(2);
    let mut image = einfo.id.to_ne_bytes().to_vec();
    image.extend_from_slice(&2u32.to_ne_bytes());
    for range in &einfo.ranges {
        image.extend_from_slice(&range.addr.to_ne_bytes());
        image.extend_from_slice(&range.size.to_ne_bytes());
        image.extend_from_slice(&range.prot.to_ne_bytes());
        image.extend_from_slice(&range.flags.to_ne_bytes());
    }
    assert_eq!(einfo.to_bytes(native), image);
}

#[test]
fn header_is_read_back() {
    let hdr = EnclaveInfoHdr { id: u32::MAX, nr_range: 7 };
    for order in ORDERS {
        assert_eq!(EnclaveInfoHdr::from_bytes(order, &hdr.to_bytes(order)), hdr);
    }
    let bytes = [1, 0, 0, 0, 0, 1, 0, 0];
    assert_eq!(EnclaveInfoHdr::from_bytes(ByteOrder::Little, &bytes).nr_range, 256);
    assert_eq!(EnclaveInfoHdr::from_bytes(ByteOrder::Big, &bytes).nr_range, 0x1_0000);
}

#[test]
fn sizes_match_the_memory_image() {
    assert_eq!(HDR_SIZE, std::mem::size_of::<EnclaveInfoHdr>());
    assert_eq!(RANGE_SIZE, std::mem::size_of::<EnclaveRange>());
}

#[test]
fn ranges_size_of_the_largest_count() {
    assert_eq!(EnclaveInfoHdr { id: 0, nr_range: 0 }.ranges_size(), 0);
    assert_eq!(EnclaveInfoHdr { id: 0, nr_range: 2 }.ranges_size(), 48);
    assert_eq!(
        EnclaveInfoHdr { id: 0, nr_range: u32::MAX }.ranges_size(),
        24 * u64::from(u32::MAX)
    );
}

#[test]
fn description_bytes() {
    assert_eq!(
        info(1).to_bytes(ByteOrder::Little),
        vec![
            0xef, 0xbe, 0xad, 0xde, 1, 0, 0, 0, // header
            0x00, 0x77, 0x66, 0x55, 0x44, 0x33, 0x22, 0x11, // addr
            0, 0, 0, 0, 0, 0, 0, 0, // size
            5, 0, 0, 0, // prot
            0x12, 0, 0, 0x80, // flags
        ]
    );
    assert_eq!(
        info(1).to_bytes(ByteOrder::Big),
        vec![
            0xde, 0xad, 0xbe, 0xef, 0, 0, 0, 1, // header
            0x11, 0x22, 0x33, 0x44, 0x55, 0x66, 0x77, 0x00, // addr
            0, 0, 0, 0, 0, 0, 0, 0, // size
            0, 0, 0, 5, // prot
            0x80, 0, 0, 0x12, // flags
        ]
    );
}

#[test]
fn description_without_ranges_is_a_header() {
    assert_eq!(info(0).to_bytes(ByteOrder::Little), vec![0xef, 0xbe, 0xad, 0xde, 0, 0, 0, 0]);
}

#[test]
fn description_is_read_back() {
    for count in 0..5u64 {
        for order in ORDERS {
            let einfo = info(count);
            let bytes = einfo.to_bytes(order);
            let hdr = EnclaveInfoHdr::from_bytes(order, &bytes[..HDR_SIZE]);
            assert_eq!(hdr, EnclaveInfoHdr { id: einfo.id, nr_range: count as u32 });
            assert_eq!(EnclaveInfo::parse_ranges(order, hdr, &bytes[HDR_SIZE..]), einfo.ranges);
        }
    }
}

#[test]
fn bytes_are_written_back() {
    let ranges: Vec<u8> = (0..72u8).map(|b| b.wrapping_mul(37)).collect();
    for (order, hdr_bytes) in [
        (ByteOrder::Little, [9u8, 8, 7, 6, 3, 0, 0, 0]),
        (ByteOrder::Big, [9u8, 8, 7, 6, 0, 0, 0, 3]),
    ] {
        let hdr = EnclaveInfoHdr::from_bytes(order, &hdr_bytes);
        let einfo = EnclaveInfo {
            id: hdr.id,
            efd: -1,
            ranges: EnclaveInfo::parse_ranges(order, hdr, &ranges),
        };
        let mut expected = hdr_bytes.to_vec();
        expected.extend_from_slice(&ranges);
        assert_eq!(einfo.to_bytes(order), expected);
    }
}

#[test]
fn defaults_are_zero() {
    assert_eq!(EnclaveInfoHdr::default(), EnclaveInfoHdr { id: 0, nr_range: 0 });
    assert_eq!(
        EnclaveRange::default(),
        EnclaveRange { addr: 0, size: 0, prot: 0, flags: 0 }
    );
    assert_eq!(EnclaveInfo::default(), EnclaveInfo { id: 0, efd: 0, ranges: Vec::new() });
}
