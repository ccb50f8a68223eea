use bytes::{Bytes, BytesMut};
use h3_stream::stream::StreamType;
use h3_stream::varint::{UnexpectedEnd, MAX_VALUE};

fn stream_type(code: u64) -> StreamType {
    let mut wire = BytesMut::new();
    h3_stream::varint::write_varint(&mut wire, code).unwrap();
    let mut wire = wire.freeze();
    StreamType::decode(&mut wire).unwrap()
}

fn round_trip(ty: &StreamType) -> StreamType {
    let mut buf = BytesMut::new();
    ty.encode(&mut buf);
    let mut wire = buf.freeze();
    let back = StreamType::decode(&mut wire).unwrap();
    assert!(wire.is_empty());
    back
}

#[test]
fn named_types_have_their_codes() {
    assert_eq!(StreamType::control().value(), 0);
    assert_eq!(StreamType::push().value(), 1);
    assert_eq!(StreamType::encoder().value(), 2);
    assert_eq!(StreamType::decoder().value(), 3);
}

#[test]
fn named_types_take_one_byte() {
    for (ty, byte) in [
        (StreamType::control(), 0x00u8),
        (StreamType::push(), 0x01),
        (StreamType::encoder(), 0x02),
        (StreamType::decoder(), 0x03),
    ] {
        let mut buf = BytesMut::new();
        ty.encode(&mut buf);
        assert_eq!(buf.to_vec(), vec![byte]);
    }
}

#[test]
fn named_types_round_trip() {
    assert_eq!(round_trip(&StreamType::control()), StreamType::control());
    assert_eq!(round_trip(&StreamType::push()), StreamType::push());
    assert_eq!(round_trip(&StreamType::encoder()), StreamType::encoder());
    assert_eq!(round_trip(&StreamType::decoder()), StreamType::decoder());
}

#[test]
fn named_types_differ() {
    assert_ne!(StreamType::control(), StreamType::push());
    assert_ne!(StreamType::encoder(), StreamType::decoder());
    assert_ne!(StreamType::control(), StreamType::decoder());
}

#[test]
fn maximum_encoded_size() {
    assert_eq!(StreamType::MAX_ENCODED_SIZE, 8);
    let mut buf = BytesMut::new();
    stream_type(MAX_VALUE).encode(&mut buf);
    assert_eq!(buf.len(), StreamType::MAX_ENCODED_SIZE);
}

#[test]
fn decode_reads_the_code() {
    let mut wire = Bytes::copy_from_slice(&[0x02, 0xff]);
    let ty = StreamType::decode(&mut wire).unwrap();
    assert_eq!(ty, StreamType::encoder());
    assert_eq!(wire.to_vec(), vec![0xff]);
}

#[test]
fn decode_of_empty_input_fails() {
    let mut wire = Bytes::new();
    assert_eq!(StreamType::decode(&mut wire), Err(UnexpectedEnd));
    assert!(wire.is_empty());
}

#[test]
fn decode_of_truncated_input_fails_and_takes_nothing() {
    let mut wire = Bytes::copy_from_slice(&[0x40]);
    assert_eq!(StreamType::decode(&mut wire), Err(UnexpectedEnd));
    assert_eq!(wire.to_vec(), vec![0x40]);

    let mut wire = Bytes::copy_from_slice(&[0x80, 0x01, 0x02]);
    assert_eq!(StreamType::decode(&mut wire), Err(UnexpectedEnd));
    assert_eq!(wire.to_vec(), vec![0x80, 0x01, 0x02]);

    let mut wire = Bytes::copy_from_slice(&[0xc0, 0, 0, 0, 0, 0, 0]);
    assert_eq!(StreamType::decode(&mut wire), Err(UnexpectedEnd));
    assert_eq!(wire.len(), 7);
}

#[test]
fn unknown_type_round_trips() {
    let ty = stream_type(42);
    assert_eq!(ty.value(), 42);
    let back = round_trip(&ty);
    assert_eq!(back, ty);
    assert_eq!(back.value(), 42);
}

#[test]
fn unknown_type_is_shown_as_a_number() {
    assert_eq!(stream_type(42).to_string(), "StreamType(42)");
    assert_eq!(stream_type(4).to_string(), "StreamType(4)");
    assert_eq!(
        stream_type(MAX_VALUE).to_string(),
        "StreamType(4611686018427387903)"
    );
}

#[test]
fn named_types_are_shown_by_name() {
    assert_eq!(StreamType::control().to_string(), "Control");
    assert_eq!(StreamType::encoder().to_string(), "Encoder");
    assert_eq!(StreamType::decoder().to_string(), "Decoder");
}

#[test]
fn push_is_shown_as_a_number() {
    assert_eq!(StreamType::push().to_string(), "StreamType(1)");
}

#[test]
fn large_types_round_trip() {
    for code in [63u64, 64, 16383, 16384, (1 << 30) - 1, 1 << 30, MAX_VALUE] {
        let ty = stream_type(code);
        assert_eq!(ty.value(), code);
        assert_eq!(round_trip(&ty).value(), code);
    }
}

#[test]
fn clone_is_equal() {
    let ty = stream_type(77);
    assert_eq!(ty.clone(), ty);
    assert_eq!(StreamType::push().clone(), StreamType::push());
}
