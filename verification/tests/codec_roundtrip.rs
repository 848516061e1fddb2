use zcash_wire::block::{Headers, HeadersRecord};
use zcash_wire::header::MessageHeader;
use zcash_wire::message::{read_message_from_bytes, Message};
use zcash_wire::payload::{Addr, AddrRecord, NetAddr, Nonce};
use zcash_wire::version::Version;
use sha2::Digest;

fn net_addr(seed: u8) -> NetAddr {
    let ip: Vec<u8> = (0..16u8).map(|i| i.wrapping_add(seed)).collect();
    NetAddr::new(seed as u64, ip, 8233u16.wrapping_add(seed as u16))
}

fn addr_record(seed: u8) -> AddrRecord {
    AddrRecord { timestamp: 1_600_000_000 + seed as u32, addr: net_addr(seed) }
}

fn round_trip(m: Message) -> Message {
    let bytes = m.to_bytes();
    let back = read_message_from_bytes(&bytes).expect("frame must read back");
    assert_eq!(back, m);
    back
}

#[test]
fn ping_pong_round_trip() {
    round_trip(Message::Ping(Nonce::new(0x0102030405060708)));
    round_trip(Message::Pong(Nonce::new(u64::MAX)));
    round_trip(Message::Ping(Nonce::default()));
}

#[test]
fn empty_payload_round_trips() {
    round_trip(Message::Verack);
    round_trip(Message::GetAddr);
    round_trip(Message::MemPool);
}

#[test]
fn version_round_trip() {
    let v = Version::new(net_addr(1), net_addr(2), 0xDEADBEEF, 1_700_000_000);
    round_trip(Message::Version(v));

    let full = Version {
        version: 170_100,
        services: 5,
        timestamp: u64::MAX,
        addr_recv: net_addr(3),
        addr_from: net_addr(4),
        nonce: 7,
        user_agent: b"/zcash-wire:0.1.0/".to_vec(),
        start_height: 2_000_000,
        relay: true,
    };
    round_trip(Message::Version(full));
}

#[test]
fn addr_round_trip_boundary_counts() {
    for count in [0usize, 1, 0xFC, 0xFD] {
        let records: Vec<AddrRecord> = (0..count).map(|i| addr_record(i as u8)).collect();
        round_trip(Message::Addr(Addr::new(records)));
    }
}

#[test]
fn addr_round_trip_large_counts() {
    for count in [0xFFFFusize, 0x10000] {
        let records: Vec<AddrRecord> = (0..count).map(|i| addr_record((i % 251) as u8)).collect();
        let m = Message::Addr(Addr::new(records));
        let bytes = m.to_bytes();
        let back = read_message_from_bytes(&bytes).expect("large addr frame must read back");
        assert_eq!(back, m);
    }
}

#[test]
fn compact_size_boundary_prefixes() {
    // Counts below 0xFD take one byte; 0xFD..=0xFFFF take a 0xFD tag plus
    // two little-endian bytes.
    let a_fc = Addr::new((0..0xFC).map(|i| addr_record((i % 251) as u8)).collect());
    let enc = a_fc.encode();
    assert_eq!(enc[0], 0xFC);

    let a_fd = Addr::new((0..0xFD).map(|i| addr_record((i % 251) as u8)).collect());
    let enc = a_fd.encode();
    assert_eq!(&enc[0..3], &[0xFD, 0xFD, 0x00]);
}

fn headers_record(seed: u8, solution_len: usize) -> HeadersRecord {
    HeadersRecord {
        version: 4,
        prev_block: vec![seed; 32],
        merkle_root: vec![seed.wrapping_add(1); 32],
        reserved: vec![0; 32],
        timestamp: 1_600_000_000,
        bits: 0x1F07FFFF,
        nonce: vec![seed.wrapping_add(2); 32],
        solution: (0..solution_len).map(|i| (i % 256) as u8).collect(),
    }
}

#[test]
fn headers_round_trip() {
    round_trip(Message::Headers(Headers::empty()));
    round_trip(Message::Headers(Headers::new(vec![headers_record(1, 0)])));
    round_trip(Message::Headers(Headers::new(vec![
        headers_record(1, 1344),
        headers_record(9, 0xFD),
        headers_record(17, 3),
    ])));
}

#[test]
fn opaque_payload_round_trips() {
    round_trip(Message::Inv(vec![1, 2, 3]));
    round_trip(Message::Tx(vec![]));
    round_trip(Message::Block(vec![0xAB; 100]));
    round_trip(Message::GetHeaders(vec![5; 37]));
    round_trip(Message::GetBlocks(vec![6; 37]));
    round_trip(Message::GetData(vec![7; 36]));
    round_trip(Message::NotFound(vec![8; 36]));
    round_trip(Message::Reject(vec![9; 81]));
}

#[test]
fn unknown_command_round_trips() {
    let command = *b"somefuture\0\0";
    let body = vec![1u8, 2, 3, 4];
    let header = MessageHeader::new(&command.to_vec(), &body);
    let mut frame = header.encode();
    frame.extend_from_slice(&body);

    let m = read_message_from_bytes(&frame).expect("unknown command is representable");
    match &m {
        Message::Unknown { command: c, body: b } => {
            assert_eq!(c.as_slice(), &command);
            assert_eq!(b, &body);
        }
        other => panic!("expected an opaque message, got {:?}", other),
    }
    assert_eq!(m.to_bytes(), frame);
}

#[test]
fn ping_frame_exact_bytes() {
    let m = Message::Ping(Nonce::new(0x0102030405060708));
    let bytes = m.to_bytes();
    assert_eq!(bytes.len(), 32);
    // Magic.
    assert_eq!(&bytes[0..4], &[36, 233, 39, 100]);
    // Command, NUL-padded ASCII.
    assert_eq!(&bytes[4..16], b"ping\0\0\0\0\0\0\0\0");
    // Length, little-endian.
    assert_eq!(&bytes[16..20], &[8, 0, 0, 0]);
    // Payload: the nonce, little-endian.
    let payload = [8u8, 7, 6, 5, 4, 3, 2, 1];
    assert_eq!(&bytes[24..32], &payload);
    // Checksum: first four bytes of the double digest of the payload.
    let digest = sha2::Sha256::digest(sha2::Sha256::digest(payload));
    assert_eq!(&bytes[20..24], &digest[0..4]);
}
