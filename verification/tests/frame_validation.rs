use zcash_wire::codec::ParseError;
use zcash_wire::header::{check_header, decode_header, encode_header, MessageHeader};
use zcash_wire::message::{read_message_from_bytes, Message};
use zcash_wire::payload::{Addr, NetAddr, Nonce};
use zcash_wire::version::Version;
use zcash_wire::MAX_MESSAGE_LEN;

fn net_addr(seed: u8) -> NetAddr {
    NetAddr::new(seed as u64, vec![seed; 16], 8233)
}

#[test]
fn decode_header_short_input_is_truncated() {
    for len in 0..24usize {
        let buf = vec![0u8; len];
        assert_eq!(decode_header(&buf), Err(ParseError::TruncatedInput));
    }
}

#[test]
fn decode_header_total_on_any_24_bytes() {
    // Any 24-byte buffer decodes to some header, fields read verbatim.
    let zeros = vec![0u8; 24];
    let h = decode_header(&zeros).expect("all zeros decode");
    assert_eq!(h.magic, vec![0u8; 4]);
    assert_eq!(h.command, vec![0u8; 12]);
    assert_eq!(h.length, 0);
    assert_eq!(h.checksum, vec![0u8; 4]);

    let ones = vec![0xFFu8; 30];
    let h = decode_header(&ones).expect("all ones decode");
    assert_eq!(h.magic, vec![0xFF; 4]);
    assert_eq!(h.length, u32::MAX);

    let mixed: Vec<u8> = (0..24u8).collect();
    let h = decode_header(&mixed).expect("arbitrary bytes decode");
    assert_eq!(h.magic, vec![0, 1, 2, 3]);
    assert_eq!(h.command, (4..16u8).collect::<Vec<u8>>());
    assert_eq!(h.length, u32::from_le_bytes([16, 17, 18, 19]));
    assert_eq!(h.checksum, vec![20, 21, 22, 23]);
}

#[test]
fn encode_header_decodes_back() {
    let command = b"addr\0\0\0\0\0\0\0\0".to_vec();
    let payload = [1u8, 2, 3];
    let bytes = encode_header(&command, &payload);
    assert_eq!(bytes.len(), 24);
    let h = decode_header(&bytes).expect("24 bytes decode");
    assert_eq!(h.magic, vec![36, 233, 39, 100]);
    assert_eq!(h.command, command);
    assert_eq!(h.length, 3);
    assert_eq!(check_header(&h), Ok(()));
}

#[test]
fn checksum_mismatch_on_any_flipped_payload_byte() {
    let m = Message::Ping(Nonce::new(0xA1B2C3D4E5F60718));
    let frame = m.to_bytes();
    for i in 24..frame.len() {
        let mut corrupted = frame.clone();
        corrupted[i] ^= 0x01;
        assert_eq!(
            read_message_from_bytes(&corrupted),
            Err(ParseError::ChecksumMismatch),
            "flipping payload byte {} must be caught",
            i
        );
    }
}

#[test]
fn checksum_mismatch_on_flipped_version_payload() {
    let v = Version::new(net_addr(1), net_addr(2), 42, 1_700_000_000);
    let frame = Message::Version(v).to_bytes();
    for i in 24..frame.len() {
        let mut corrupted = frame.clone();
        corrupted[i] ^= 0x80;
        assert_eq!(read_message_from_bytes(&corrupted), Err(ParseError::ChecksumMismatch));
    }
}

#[test]
fn oversized_length_rejected_before_payload() {
    // A bare header claiming a payload over the bound: rejected from the
    // header alone, with not one payload byte present.
    let mut frame = Vec::new();
    frame.extend_from_slice(&[36, 233, 39, 100]);
    frame.extend_from_slice(b"ping\0\0\0\0\0\0\0\0");
    frame.extend_from_slice(&(MAX_MESSAGE_LEN + 1).to_le_bytes());
    frame.extend_from_slice(&[0, 0, 0, 0]);
    assert_eq!(read_message_from_bytes(&frame), Err(ParseError::PayloadTooLarge));

    let h = decode_header(&frame).unwrap();
    assert_eq!(check_header(&h), Err(ParseError::PayloadTooLarge));

    // The bound itself is still acceptable at the header level.
    let h = MessageHeader {
        magic: vec![36, 233, 39, 100],
        command: b"ping\0\0\0\0\0\0\0\0".to_vec(),
        length: MAX_MESSAGE_LEN,
        checksum: vec![0; 4],
    };
    assert_eq!(check_header(&h), Ok(()));
}

#[test]
fn wrong_magic_rejected() {
    let m = Message::Verack;
    let mut frame = m.to_bytes();
    frame[0] ^= 0xFF;
    assert_eq!(read_message_from_bytes(&frame), Err(ParseError::HeaderInvalid));
}

#[test]
fn truncated_and_trailing_frames_rejected() {
    let frame = Message::Ping(Nonce::new(1)).to_bytes();

    // Fewer bytes than the header claims.
    assert_eq!(
        read_message_from_bytes(&frame[..frame.len() - 1]),
        Err(ParseError::TruncatedInput)
    );

    // More bytes than the header claims.
    let mut long = frame.clone();
    long.push(0);
    assert_eq!(read_message_from_bytes(&long), Err(ParseError::TrailingBytes));
}

#[test]
fn verack_with_body_is_trailing_bytes() {
    let body = [0u8];
    let header = MessageHeader::new(&b"verack\0\0\0\0\0\0".to_vec(), &body);
    let mut frame = header.encode();
    frame.extend_from_slice(&body);
    assert_eq!(read_message_from_bytes(&frame), Err(ParseError::TrailingBytes));
}

#[test]
fn short_nonce_is_truncated_input() {
    let body = [1u8, 2, 3];
    let header = MessageHeader::new(&b"ping\0\0\0\0\0\0\0\0".to_vec(), &body);
    let mut frame = header.encode();
    frame.extend_from_slice(&body);
    assert_eq!(read_message_from_bytes(&frame), Err(ParseError::TruncatedInput));
}

#[test]
fn addr_count_past_buffer_is_malformed() {
    // A count prefix of five with no record bytes behind it.
    let body = [5u8];
    let header = MessageHeader::new(&b"addr\0\0\0\0\0\0\0\0".to_vec(), &body);
    let mut frame = header.encode();
    frame.extend_from_slice(&body);
    assert_eq!(read_message_from_bytes(&frame), Err(ParseError::MalformedField));
}

#[test]
fn version_bad_relay_byte_is_malformed() {
    let v = Version::new(net_addr(1), net_addr(2), 9, 1_700_000_000);
    let mut body = v.encode();
    let last = body.len() - 1;
    body[last] = 2;
    assert_eq!(Version::decode(&body), Err(ParseError::MalformedField));
}

#[test]
fn version_oversized_user_agent_is_malformed() {
    // Hand-build a Version body whose user agent claims 300 bytes.
    let base = Version::new(net_addr(1), net_addr(2), 9, 1_700_000_000).encode();
    let mut body = base[..80].to_vec();
    body.extend_from_slice(&[0xFD, 0x2C, 0x01]);
    body.extend_from_slice(&vec![b'x'; 300]);
    body.extend_from_slice(&[0, 0, 0, 0]);
    body.push(0);
    assert_eq!(Version::decode(&body), Err(ParseError::MalformedField));
}

#[test]
fn addr_trailing_bytes_rejected() {
    let a = Addr::empty();
    let mut body = Message::Addr(a).payload();
    body.push(0);
    assert_eq!(Addr::decode(&body), Err(ParseError::TrailingBytes));
}
