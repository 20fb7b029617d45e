use server_probe::error::ProtocolError;
use server_probe::varint::{decode_varint, encode_varint, VarIntDecoder, VarIntStep};

#[test]
fn encode_small_values_take_one_byte() {
    assert_eq!(encode_varint(0), vec![0x00]);
    assert_eq!(encode_varint(1), vec![0x01]);
    assert_eq!(encode_varint(127), vec![0x7f]);
}

#[test]
fn encode_known_values() {
    assert_eq!(encode_varint(128), vec![0x80, 0x01]);
    assert_eq!(encode_varint(255), vec![0xff, 0x01]);
    assert_eq!(encode_varint(765), vec![0xfd, 0x05]);
    assert_eq!(encode_varint(25565), vec![0xdd, 0xc7, 0x01]);
    assert_eq!(encode_varint(2097151), vec![0xff, 0xff, 0x7f]);
    assert_eq!(encode_varint(i32::MAX), vec![0xff, 0xff, 0xff, 0xff, 0x07]);
}

#[test]
fn encode_negative_values_take_five_bytes() {
    assert_eq!(encode_varint(-1), vec![0xff, 0xff, 0xff, 0xff, 0x0f]);
    assert_eq!(encode_varint(i32::MIN), vec![0x80, 0x80, 0x80, 0x80, 0x08]);
}

#[test]
fn encode_never_exceeds_five_bytes() {
    let samples = [0, 1, -1, 127, 128, 16383, 16384, 2097151, 2097152, 268435455, 268435456,
        i32::MAX, i32::MIN, -128, 765];
    for v in samples {
        let n = encode_varint(v).len();
        assert!(n >= 1 && n <= 5);
    }
}

#[test]
fn decode_gives_back_what_was_encoded() {
    let samples = [0, 1, -1, 127, 128, 300, 16383, 16384, 2097151, 2097152, 268435455,
        268435456, i32::MAX, i32::MIN, -128, 765, 25565];
    for v in samples {
        let bytes = encode_varint(v);
        assert_eq!(decode_varint(&bytes), Ok((v, bytes.len())));
    }
}

#[test]
fn decode_stops_at_the_terminator() {
    assert_eq!(decode_varint(&[0xfd, 0x05, 0x0b, 0x65]), Ok((765, 2)));
    assert_eq!(decode_varint(&[0x00, 0xff]), Ok((0, 1)));
}

#[test]
fn decode_five_continuation_bytes_is_malformed() {
    assert_eq!(
        decode_varint(&[0x80, 0x80, 0x80, 0x80, 0x80]),
        Err(ProtocolError::MalformedVarInt)
    );
    assert_eq!(
        decode_varint(&[0xff, 0xff, 0xff, 0xff, 0xff, 0x01]),
        Err(ProtocolError::MalformedVarInt)
    );
}

#[test]
fn decode_of_too_few_bytes_reports_the_closed_stream() {
    assert_eq!(decode_varint(&[]), Err(ProtocolError::ConnectionClosed));
    assert_eq!(decode_varint(&[0x80]), Err(ProtocolError::ConnectionClosed));
    assert_eq!(decode_varint(&[0xff, 0xff, 0xff, 0xff]), Err(ProtocolError::ConnectionClosed));
}

#[test]
fn decode_drops_the_bits_beyond_the_thirty_second() {
    assert_eq!(decode_varint(&[0xff, 0xff, 0xff, 0xff, 0x7f]), Ok((-1, 5)));
}

#[test]
fn decoder_takes_one_byte_at_a_time() {
    let d = VarIntDecoder::new();
    assert_eq!(d, VarIntDecoder { acc: 0, count: 0 });
    let d = match d.push(0xdd) {
        VarIntStep::More(d) => d,
        other => panic!("{:?}", other),
    };
    assert_eq!(d, VarIntDecoder { acc: 0x5d, count: 1 });
    let d = match d.push(0xc7) {
        VarIntStep::More(d) => d,
        other => panic!("{:?}", other),
    };
    assert_eq!(d.push(0x01), VarIntStep::Done(25565));
}

#[test]
fn decoder_refuses_a_fifth_continuation() {
    let d = VarIntDecoder { acc: 0, count: 4 };
    assert_eq!(d.push(0x80), VarIntStep::Malformed);
    assert_eq!(d.push(0x08), VarIntStep::Done(i32::MIN));
    let spent = VarIntDecoder { acc: 0, count: 5 };
    assert_eq!(spent.push(0x00), VarIntStep::Malformed);
}
