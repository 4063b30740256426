use binary_codec::bytes::{
    u16_from_le_bytes, u16_to_le_bytes, u32_from_be_bytes, u32_from_le_bytes, u32_to_be_bytes,
    u32_to_le_bytes,
};
use binary_codec::{BinaryRead, BinaryWrite, CodecError, SliceReader};

#[test]
fn equivalent_when_read_fixed_length() {
    for value in [0u16, 1, 0x1234, 0xff00, u16::MAX] {
        let mut bytes = SliceReader::new(value.to_be_bytes().to_vec());
        let actual = bytes.read_fixed_length().map(u16::from_be_bytes).unwrap();
        assert_eq!(actual, value)
    }
}

#[test]
fn equivalent_when_read_variable_length() {
    for value in [0u16, 1, 0x1234, 0xff00, u16::MAX] {
        let mut bytes = SliceReader::new(value.to_be_bytes().to_vec());
        let actual = bytes
            .read_variable_length(2)
            .map(|bytes| u16::from_be_bytes([bytes[0], bytes[1]]))
            .unwrap();
        assert_eq!(actual, value)
    }
}

#[test]
fn read_of_zero_bytes_succeeds_on_an_empty_stream() {
    let mut read = SliceReader::new(vec![]);
    assert_eq!(read.read_variable_length(0).unwrap(), Vec::<u8>::new());
    let block: [u8; 0] = read.read_fixed_length().unwrap();
    assert_eq!(block, []);
    assert!(read.remaining().is_empty());
}

#[test]
fn read_past_the_end_is_unexpected_eof() {
    let mut read = SliceReader::new(vec![1, 2, 3]);
    let error = read.read_fixed_length::<4>().unwrap_err();
    assert_eq!(error.kind(), std::io::ErrorKind::UnexpectedEof);
    let mut read = SliceReader::new(vec![1, 2, 3]);
    let error = read.read_variable_length(4).unwrap_err();
    assert_eq!(error.kind(), std::io::ErrorKind::UnexpectedEof);
}

#[test]
fn reads_consume_exactly_what_they_return() {
    let mut read = SliceReader::new(vec![1, 2, 3, 4, 5, 6]);
    assert_eq!(read.read_fixed_length::<2>().unwrap(), [1, 2]);
    assert_eq!(read.remaining(), vec![3, 4, 5, 6]);
    assert_eq!(read.read_variable_length(3).unwrap(), vec![3, 4, 5]);
    assert_eq!(read.remaining(), vec![6]);
}

#[test]
fn vec_sink_appends_every_write() {
    let mut buf: Vec<u8> = vec![9];
    buf.write_all(&[1, 2]).unwrap();
    buf.write_all(&[]).unwrap();
    buf.write_all(&[3]).unwrap();
    assert_eq!(buf, vec![9, 1, 2, 3]);
}

#[test]
fn integers_from_and_to_bytes() {
    assert_eq!(u32_from_be_bytes([0x01, 0x02, 0x03, 0x04]), 0x0102_0304);
    assert_eq!(u32_from_le_bytes([0x01, 0x02, 0x03, 0x04]), 0x0403_0201);
    assert_eq!(u16_from_le_bytes([0x01, 0x02]), 0x0201);
    assert_eq!(u32_to_be_bytes(0x0102_0304), [0x01, 0x02, 0x03, 0x04]);
    assert_eq!(u32_to_le_bytes(0x0102_0304), [0x04, 0x03, 0x02, 0x01]);
    assert_eq!(u16_to_le_bytes(0x0201), [0x01, 0x02]);
    for v in [0u32, 1, 0xff, 0x100, 0xdead_beef, u32::MAX] {
        assert_eq!(u32_to_be_bytes(v), v.to_be_bytes());
        assert_eq!(u32_to_le_bytes(v), v.to_le_bytes());
        assert_eq!(u32_from_be_bytes(v.to_be_bytes()), v);
        assert_eq!(u32_from_le_bytes(v.to_le_bytes()), v);
    }
    for v in [0u16, 1, 0xff, 0x100, u16::MAX] {
        assert_eq!(u16_to_le_bytes(v), v.to_le_bytes());
        assert_eq!(u16_from_le_bytes(v.to_le_bytes()), v);
    }
}

#[test]
fn codec_error_keeps_its_two_cases_apart() {
    let domain: CodecError<u8> = CodecError::UserDefined(7);
    assert!(domain.is_user_defined());
    assert!(!domain.is_io());
    assert_eq!(domain.into_user_defined(), Some(7));

    let io: CodecError<u8> = CodecError::Io(std::io::Error::from(std::io::ErrorKind::WriteZero));
    assert!(io.is_io());
    assert!(!io.is_user_defined());
    assert_eq!(io.into_io().unwrap().kind(), std::io::ErrorKind::WriteZero);

    let domain: CodecError<u8> = CodecError::UserDefined(7);
    assert!(domain.into_io().is_none());
}
