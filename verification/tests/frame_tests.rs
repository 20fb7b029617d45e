use server_probe::frame::{
    append_bytes, build_handshake, frame, handshake_frame, ping_frame, status_request_frame,
    PingTarget, PROTOCOL_VERSION,
};
use server_probe::varint::decode_varint;

fn example_target() -> PingTarget {
    PingTarget::new(String::from("example.com"), 25565).unwrap()
}

#[test]
fn handshake_bytes_are_exact() {
    let bytes = handshake_frame(&example_target());
    let mut expected: Vec<u8> = vec![0x12, 0x00, 0xfd, 0x05, 0x0b];
    expected.extend_from_slice(b"example.com");
    expected.extend_from_slice(&[0x63, 0xdd, 0x01]);
    assert_eq!(bytes, expected);
}

#[test]
fn handshake_fields_decode_back() {
    let bytes = handshake_frame(&example_target());
    let (declared, mut at) = decode_varint(&bytes).unwrap();
    assert_eq!(declared as usize, bytes.len() - at);
    let (packet_id, n) = decode_varint(&bytes[at..]).unwrap();
    assert_eq!(packet_id, 0);
    at += n;
    let (version, n) = decode_varint(&bytes[at..]).unwrap();
    assert_eq!(version, 765);
    assert_eq!(version, PROTOCOL_VERSION);
    at += n;
    let (address_len, n) = decode_varint(&bytes[at..]).unwrap();
    at += n;
    let address = &bytes[at..at + address_len as usize];
    assert_eq!(address, b"example.com");
    at += address_len as usize;
    let port = u16::from_be_bytes([bytes[at], bytes[at + 1]]);
    assert_eq!(port, 25565);
    at += 2;
    assert_eq!(decode_varint(&bytes[at..]), Ok((1, 1)));
    assert_eq!(at + 1, bytes.len());
}

#[test]
fn handshake_payload_takes_the_version_given() {
    let payload = build_handshake(&example_target(), 47);
    assert_eq!(payload[0], 0x00);
    assert_eq!(payload[1], 47);
    assert_eq!(payload.len(), 17);
}

#[test]
fn status_request_is_two_fixed_bytes() {
    assert_eq!(status_request_frame(), vec![0x01, 0x00]);
}

#[test]
fn ping_frame_is_big_endian() {
    assert_eq!(
        ping_frame(0x0102_0304_0506_0708),
        vec![0x09, 0x01, 0x01, 0x02, 0x03, 0x04, 0x05, 0x06, 0x07, 0x08]
    );
    assert_eq!(ping_frame(0), vec![0x09, 0x01, 0, 0, 0, 0, 0, 0, 0, 0]);
}

#[test]
fn frame_declares_the_payload_length() {
    assert_eq!(frame(&[]), Some(vec![0x00]));
    assert_eq!(frame(&[0xaa, 0xbb]), Some(vec![0x02, 0xaa, 0xbb]));
    let long = vec![7u8; 300];
    let framed = frame(&long).unwrap();
    assert_eq!(&framed[..2], &[0xac, 0x02]);
    assert_eq!(&framed[2..], &long[..]);
}

#[test]
fn append_bytes_keeps_what_was_there() {
    let mut out = vec![1u8, 2];
    append_bytes(&mut out, &[3, 4, 5]);
    assert_eq!(out, vec![1, 2, 3, 4, 5]);
    append_bytes(&mut out, &[]);
    assert_eq!(out, vec![1, 2, 3, 4, 5]);
}

#[test]
fn empty_address_is_no_target() {
    assert!(PingTarget::new(String::new(), 25565).is_none());
    let t = PingTarget::new(String::from("127.0.0.1"), 1).unwrap();
    assert_eq!(t.address, "127.0.0.1");
    assert_eq!(t.port, 1);
}

#[test]
fn every_outbound_frame_declares_its_payload_length() {
    let frames = vec![
        handshake_frame(&example_target()),
        status_request_frame(),
        ping_frame(u64::MAX),
        frame(&[1, 2, 3]).unwrap(),
    ];
    for bytes in frames {
        let (declared, prefix_len) = decode_varint(&bytes).unwrap();
        assert!(declared >= 0);
        assert_eq!(bytes.len(), prefix_len + declared as usize);
    }
}
