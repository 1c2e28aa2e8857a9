use std::path::PathBuf;

use eccfs_epm::bytes::ByteOrder;
use eccfs_epm::enclave::{EnclaveInfoHdr, EnclaveRange};
use eccfs_epm::pool::{
    empty_hdr, get_eid_path, received_fd, EnclavePool, GetReply, EPM_DIR, EPM_SOCK_PATH,
};
use eccfs_epm::server::{Action, Event, Server, COMMAND_GET, COMMAND_SAVE};

const ORDERS: [ByteOrder; 2] = [ByteOrder::Little, ByteOrder::Big];

fn saving(order: ByteOrder, id: u32, count: u32, seed: u8) -> (Vec<u8>, Vec<u8>) {
    let hdr = EnclaveInfoHdr { id, nr_range: count }.to_bytes(order);
    let ranges = (0..24 * count).map(|i| (i as u8).wrapping_mul(7) ^ seed).collect();
    (hdr, ranges)
}

fn save_in(
    order: ByteOrder,
    server: &mut Server,
    id: u32,
    count: u32,
    seed: u8,
    fd: i32,
) -> Vec<u8> {
    let (hdr, ranges) = saving(order, id, count, seed);
    assert_eq!(server.step(Event::Command { byte: COMMAND_SAVE }), Action::Read { len: 8 });
    assert_eq!(
        server.step(Event::Bytes { bytes: hdr.clone() }),
        Action::Read { len: u64::from(24 * count) }
    );
    assert_eq!(
        server.step(Event::Bytes { bytes: ranges.clone() }),
        Action::Receive { path: get_eid_path(id) }
    );
    assert_eq!(server.step(Event::Rights { fds: Some(vec![fd]) }), Action::Stored);
    [hdr, ranges].concat()
}

fn save(server: &mut Server, id: u32, count: u32, seed: u8, fd: i32) -> Vec<u8> {
    save_in(ByteOrder::Little, server, id, count, seed, fd)
}

#[test]
fn eid_path_has_eight_digits() {
    assert_eq!(get_eid_path(0), "/run/epm/00000000");
    assert_eq!(get_eid_path(0x1a), "/run/epm/0000001a");
    assert_eq!(get_eid_path(u32::MAX), "/run/epm/ffffffff");
    assert_eq!(u32::from_str_radix(&get_eid_path(0xdead_beef)[9..], 16), Ok(0xdead_beef));
}

#[test]
fn eid_path_is_the_formatted_path() {
    for shift in 0..32u32 {
        for id in [1u32 << shift, (1u32 << shift) - 1, 0x9e37_79b9u32.rotate_left(shift)] {
            let mut pb = PathBuf::from(EPM_DIR);
            pb.push(format!("{:08x}", id));
            assert_eq!(PathBuf::from(get_eid_path(id)), pb);
        }
    }
}

#[test]
fn eid_paths_differ() {
    assert_ne!(get_eid_path(1), get_eid_path(0x10));
    assert_ne!(get_eid_path(0xe), EPM_SOCK_PATH);
}

#[test]
fn null_header_is_zero() {
    for order in ORDERS {
        assert_eq!(empty_hdr(order), vec![0u8; 8]);
    }
}

#[test]
fn empty_pool_hands_out_nothing() {
    let mut pool = EnclavePool::new();
    assert_eq!(pool.handle_get(ByteOrder::Big), GetReply::Empty { bytes: vec![0u8; 8] });
    assert_eq!(pool.handle_get(ByteOrder::Big), GetReply::Empty { bytes: vec![0u8; 8] });
}

#[test]
fn pool_hands_out_the_last_saved() {
    let mut pool = EnclavePool::new();
    for id in 1..4u32 {
        let hdr = EnclaveInfoHdr { id, nr_range: 1 };
        pool.handle_save(hdr, vec![EnclaveRange::default()], 10 * id as i32);
    }
    for want in [3u32, 2, 1] {
        match pool.handle_get(ByteOrder::Big) {
            GetReply::Enclave { bytes, efd, id } => {
                assert_eq!(id, want);
                assert_eq!(efd, 10 * want as i32);
                assert_eq!(bytes.len(), 32);
                assert_eq!(EnclaveInfoHdr::from_bytes(ByteOrder::Big, &bytes[..8]).id, want);
            }
            GetReply::Empty { .. } => panic!("the pool is not empty"),
        }
    }
    assert!(matches!(pool.handle_get(ByteOrder::Big), GetReply::Empty { .. }));
}

#[test]
fn descriptor_of_a_hand_over() {
    assert_eq!(received_fd(&Some(vec![5])), 5);
    assert_eq!(received_fd(&None), -1);
}

#[test]
fn get_on_an_empty_pool_sends_the_null_header() {
    let mut server = Server::new(ByteOrder::Little);
    assert_eq!(
        server.step(Event::Command { byte: b'g' }),
        Action::Send { bytes: vec![0u8; 8] }
    );
    assert_eq!(
        server.step(Event::Command { byte: COMMAND_GET }),
        Action::Send { bytes: vec![0u8; 8] }
    );
}

#[test]
fn saved_enclave_is_handed_out_byte_for_byte() {
    for order in ORDERS {
        let mut server = Server::new(order);
        let bytes = save_in(order, &mut server, 0xab, 3, 0x5a, 11);
        assert_eq!(
            server.step(Event::Command { byte: b'g' }),
            Action::SendEnclave { bytes, efd: 11, path: "/run/epm/000000ab".to_string() }
        );
        assert_eq!(
            server.step(Event::Command { byte: b'g' }),
            Action::Send { bytes: vec![0u8; 8] }
        );
    }
}

#[test]
fn last_saved_first_out() {
    let mut server = Server::new(ByteOrder::Little);
    let saved: Vec<Vec<u8>> =
        (0..4u32).map(|n| save(&mut server, n, n + 1, n as u8, 100 + n as i32)).collect();
    for n in (0..4u32).rev() {
        assert_eq!(
            server.step(Event::Command { byte: COMMAND_GET }),
            Action::SendEnclave {
                bytes: saved[n as usize].clone(),
                efd: 100 + n as i32,
                path: get_eid_path(n),
            }
        );
    }
}

#[test]
fn hand_over_without_descriptors_stores_minus_one() {
    let mut server = Server::new(ByteOrder::Little);
    let (hdr, ranges) = saving(ByteOrder::Little, 6, 1, 0);
    let bytes = [hdr.clone(), ranges.clone()].concat();
    server.step(Event::Command { byte: COMMAND_SAVE });
    server.step(Event::Bytes { bytes: hdr });
    server.step(Event::Bytes { bytes: ranges });
    assert_eq!(server.step(Event::Rights { fds: None }), Action::Stored);
    assert_eq!(
        server.step(Event::Command { byte: COMMAND_GET }),
        Action::SendEnclave { bytes, efd: -1, path: get_eid_path(6) }
    );
}

#[test]
fn other_connections_leave_the_pool_alone() {
    let mut server = Server::new(ByteOrder::Little);
    let bytes = save(&mut server, 1, 1, 1, 4);
    for byte in [0u8, b'G', b'S', b'x', 0xff] {
        assert_eq!(server.step(Event::Command { byte }), Action::Invalid);
    }
    assert_eq!(server.step(Event::CommandUnread), Action::Skip);
    assert_eq!(server.step(Event::AcceptFailed), Action::Stop);
    assert_eq!(
        server.step(Event::Command { byte: COMMAND_GET }),
        Action::SendEnclave { bytes, efd: 4, path: get_eid_path(1) }
    );
}

#[test]
fn command_bytes_are_the_letters() {
    assert_eq!(COMMAND_GET, b'g');
    assert_eq!(COMMAND_SAVE, b's');
}
