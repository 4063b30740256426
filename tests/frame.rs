use binary_codec::frame::{Frame, LengthHeader, Payload};
use binary_codec::{BinaryDecode, BinaryEncode, SliceReader};

#[test]
fn equivalent_when_decode_and_encode() {
    let bytes = vec![0x00, 0x00, 0x00, 0x04, 0x11, 0x22, 0x33, 0x44];

    let mut read = SliceReader::new(bytes.clone());

    let frame: Frame = read.try_decode().unwrap();

    let mut buf = Vec::new();

    buf.try_encode(&frame).unwrap();

    assert_eq!(buf, bytes);
}

#[test]
fn frame_decodes_header_and_payload() {
    let mut read = SliceReader::new(vec![0x00, 0x00, 0x00, 0x04, 0x11, 0x22, 0x33, 0x44]);
    let frame: Frame = read.try_decode().unwrap();
    assert_eq!(frame.length_header, LengthHeader(4));
    assert_eq!(frame.payload, Payload(vec![0x11, 0x22, 0x33, 0x44]));
    assert!(read.remaining().is_empty());
}

#[test]
fn frame_with_short_payload_is_an_io_error() {
    let mut read = SliceReader::new(vec![0x00, 0x00, 0x00, 0x05, 0x01, 0x02, 0x03]);
    let result: Result<Frame, std::io::Error> = read.try_decode();
    let error = result.unwrap_err();
    assert_eq!(error.kind(), std::io::ErrorKind::UnexpectedEof);
}

#[test]
fn frame_round_trips_and_leaves_what_follows() {
    let frame = Frame {
        length_header: LengthHeader(3),
        payload: Payload(vec![0xde, 0xad, 0x01]),
    };
    let mut buf = Vec::new();
    buf.try_encode(&frame).unwrap();
    assert_eq!(buf, vec![0x00, 0x00, 0x00, 0x03, 0xde, 0xad, 0x01]);
    buf.push(0x99);
    let mut read = SliceReader::new(buf);
    let back: Frame = read.try_decode().unwrap();
    assert_eq!(back, frame);
    assert_eq!(read.remaining(), vec![0x99]);
}

#[test]
fn length_header_is_big_endian() {
    let mut read = SliceReader::new(vec![0x01, 0x02, 0x03, 0x04]);
    let header: LengthHeader = read.decode_fixed_length_field().unwrap();
    assert_eq!(header, LengthHeader(0x0102_0304));
    let mut buf = Vec::new();
    buf.encode_fixed_length_field(&header).unwrap();
    assert_eq!(buf, vec![0x01, 0x02, 0x03, 0x04]);
}

#[test]
fn length_prefixed_field_takes_prefix_and_announced_bytes() {
    let mut read = SliceReader::new(vec![0x00, 0x00, 0x00, 0x02, 0xaa, 0xbb, 0xcc]);
    let payload = read
        .decode_length_prefixed_field::<LengthHeader, Payload, 4>()
        .unwrap();
    assert_eq!(payload, Payload(vec![0xaa, 0xbb]));
    assert_eq!(read.remaining(), vec![0xcc]);
}

#[test]
fn length_prefixed_field_of_zero_bytes() {
    let mut read = SliceReader::new(vec![0x00, 0x00, 0x00, 0x00, 0x09]);
    let payload = read
        .decode_length_prefixed_field::<LengthHeader, Payload, 4>()
        .unwrap();
    assert_eq!(payload, Payload(vec![]));
    assert_eq!(read.remaining(), vec![0x09]);
}

#[test]
fn length_prefixed_field_past_the_end_is_an_io_error() {
    let mut read = SliceReader::new(vec![0x00, 0x00, 0x01, 0x00, 0x01]);
    let result = read.decode_length_prefixed_field::<LengthHeader, Payload, 4>();
    assert_eq!(result.unwrap_err().kind(), std::io::ErrorKind::UnexpectedEof);
}

#[test]
fn length_prefix_shorter_than_its_size_is_an_io_error() {
    let mut read = SliceReader::new(vec![0x00, 0x00]);
    let result = read.decode_length_prefixed_field::<LengthHeader, Payload, 4>();
    assert!(result.is_err());
}

#[test]
fn payload_with_explicit_length() {
    let mut read = SliceReader::new(vec![0x05, 0x06, 0x07]);
    let payload: Payload = read.decode_variable_length_field_with_length(2).unwrap();
    assert_eq!(payload, Payload(vec![0x05, 0x06]));
    let mut buf = Vec::new();
    buf.encode_variable_length_field(&payload).unwrap();
    assert_eq!(buf, vec![0x05, 0x06]);
}
