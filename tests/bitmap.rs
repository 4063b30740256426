use binary_codec::bitmap::{
    BitmapFileHeader, BitmapFileHeaderError, ColorTable, ColorTableContext, ColorTableError,
    InvalidSignature,
    RgbQuad, RgbTriple, Signature,
};
use binary_codec::{BinaryDecode, BinaryEncode, CodecError, SliceReader};

fn empty_header_bytes() -> Vec<u8> {
    vec![0x42, 0x4d, 0, 0, 0, 0, 0, 0, 0, 0, 0, 0, 0, 0]
}

#[test]
fn file_header_round_trips_to_the_same_bytes() {
    let bytes = empty_header_bytes();
    let mut read = SliceReader::new(bytes.clone());
    let header: BitmapFileHeader = match read.try_decode() {
        Ok(h) => h,
        Err(_) => panic!("a valid header was refused"),
    };
    assert_eq!(header.signature, [0x42, 0x4d]);
    assert_eq!(header.file_size, 0);
    assert_eq!(header.reserved_1, 0);
    assert_eq!(header.reserved_2, 0);
    assert_eq!(header.offset, 0);
    assert_eq!(read.remaining().len(), 0);
    let mut buf = Vec::new();
    buf.try_encode(&header).unwrap();
    assert_eq!(buf, bytes);
}

#[test]
fn file_header_fields_are_little_endian() {
    let bytes = vec![
        0x42, 0x4d, 0x36, 0x00, 0x0c, 0x00, 0x01, 0x00, 0x02, 0x01, 0x36, 0x00, 0x00, 0x00,
    ];
    let mut read = SliceReader::new(bytes.clone());
    let header: BitmapFileHeader = match read.try_decode() {
        Ok(h) => h,
        Err(_) => panic!("a valid header was refused"),
    };
    assert_eq!(header.file_size, 0x000c_0036);
    assert_eq!(header.reserved_1, 1);
    assert_eq!(header.reserved_2, 0x0102);
    assert_eq!(header.offset, 0x36);
    let mut buf = Vec::new();
    buf.try_encode(&header).unwrap();
    assert_eq!(buf, bytes);
}

#[test]
fn file_header_with_wrong_signature_stops_after_it() {
    let mut bytes = empty_header_bytes();
    bytes[0] = 0xff;
    bytes[1] = 0xff;
    let mut read = SliceReader::new(bytes);
    let result: Result<BitmapFileHeader, BitmapFileHeaderError> = read.try_decode();
    assert!(matches!(
        result,
        Err(BitmapFileHeaderError::InvalidSignature([0xff, 0xff]))
    ));
    assert_eq!(read.remaining().len(), 12);
}

#[test]
fn file_header_cut_short_is_an_io_error_not_a_signature_error() {
    let mut read = SliceReader::new(vec![0xff]);
    let result: Result<BitmapFileHeader, BitmapFileHeaderError> = read.try_decode();
    match result {
        Err(BitmapFileHeaderError::Io(e)) => {
            assert_eq!(e.kind(), std::io::ErrorKind::UnexpectedEof)
        }
        _ => panic!("a short stream must give the I/O case"),
    }
}

#[test]
fn file_header_cut_after_signature_is_an_io_error() {
    let mut read = SliceReader::new(vec![0x42, 0x4d, 0x01, 0x02]);
    let result: Result<BitmapFileHeader, BitmapFileHeaderError> = read.try_decode();
    assert!(matches!(result, Err(BitmapFileHeaderError::Io(_))));
}

#[test]
fn signature_failure_still_consumes_its_block() {
    let mut read = SliceReader::new(vec![0x00, 0x01, 0x42, 0x4d]);
    let first = read.try_decode_fixed_length_field::<Signature, 2>();
    match first {
        Err(CodecError::UserDefined(e)) => assert_eq!(e, InvalidSignature([0x00, 0x01])),
        _ => panic!("the signature must be refused"),
    }
    assert_eq!(read.remaining(), vec![0x42, 0x4d]);
    let second = read.try_decode_fixed_length_field::<Signature, 2>();
    assert_eq!(second.unwrap(), Signature([0x42, 0x4d]));
    assert!(read.remaining().is_empty());
}

#[test]
fn signature_field_on_a_short_stream_is_an_io_error() {
    let mut read = SliceReader::new(vec![0x00]);
    let result = read.try_decode_fixed_length_field::<Signature, 2>();
    assert!(matches!(result, Err(CodecError::Io(_))));
}

#[test]
fn signature_field_encodes_its_bytes() {
    let mut buf = Vec::new();
    buf.encode_fixed_length_field(&Signature([0x42, 0x4d])).unwrap();
    assert_eq!(buf, vec![0x42, 0x4d]);
}

#[test]
fn color_table_context_selects_entry_size() {
    let bytes: Vec<u8> = (1..=12).collect();

    let mut read = SliceReader::new(bytes.clone());
    let as_triples: ColorTable = read
        .try_decode_variable_length_field_with(12, 24u16)
        .unwrap();
    assert_eq!(
        as_triples,
        ColorTable::RgbTriple(vec![
            RgbTriple { b: 1, g: 2, r: 3 },
            RgbTriple { b: 4, g: 5, r: 6 },
            RgbTriple { b: 7, g: 8, r: 9 },
            RgbTriple { b: 10, g: 11, r: 12 },
        ])
    );

    let mut read = SliceReader::new(bytes);
    let as_quads: ColorTable = read
        .try_decode_variable_length_field_with(12, 32u16)
        .unwrap();
    assert_eq!(
        as_quads,
        ColorTable::RgbQuad(vec![
            RgbQuad { b: 1, g: 2, r: 3, reserved: 4 },
            RgbQuad { b: 5, g: 6, r: 7, reserved: 8 },
            RgbQuad { b: 9, g: 10, r: 11, reserved: 12 },
        ])
    );
    assert_ne!(as_triples, as_quads);
}

#[test]
fn color_table_of_partial_entries_is_refused_after_reading() {
    let mut read = SliceReader::new(vec![1, 2, 3, 4, 5, 6]);
    let result = read.try_decode_variable_length_field_with::<ColorTable, u16>(5, 24);
    match result {
        Err(CodecError::UserDefined(e)) => assert_eq!(e, ColorTableError::InvalidDataLength(5)),
        _ => panic!("a partial entry must be refused"),
    }
    assert_eq!(read.remaining(), vec![6]);
}

#[test]
fn color_table_of_unsupported_depth_is_refused() {
    let mut read = SliceReader::new(vec![1, 2, 3, 4]);
    let result = read.try_decode_variable_length_field_with::<ColorTable, u16>(4, 16);
    match result {
        Err(CodecError::UserDefined(e)) => {
            assert_eq!(e, ColorTableError::UnsupportedColorPalette(16))
        }
        _ => panic!("depth 16 has no colour table here"),
    }
}

#[test]
fn color_table_longer_than_the_stream_is_an_io_error() {
    let mut read = SliceReader::new(vec![1, 2, 3]);
    let result = read.try_decode_variable_length_field_with::<ColorTable, u16>(6, 24);
    assert!(matches!(result, Err(CodecError::Io(_))));
}

#[test]
fn color_table_encodes_entries_blue_first() {
    let table = ColorTable::RgbTriple(vec![RgbTriple { r: 1, g: 2, b: 3 }]);
    let mut buf = Vec::new();
    buf.encode_variable_length_field(&table).unwrap();
    assert_eq!(buf, vec![3, 2, 1]);

    let table = ColorTable::RgbQuad(vec![RgbQuad { r: 1, g: 2, b: 3, reserved: 0 }]);
    let mut buf = Vec::new();
    buf.encode_variable_length_field(&table).unwrap();
    assert_eq!(buf, vec![3, 2, 1, 0]);

    let mut read = SliceReader::new(buf);
    let back: ColorTable = read.try_decode_variable_length_field_with(4, 32u16).unwrap();
    assert_eq!(back, table);
}

#[test]
fn color_table_read_with_context_from_the_stream() {
    let bytes = vec![1, 2, 3, 4, 5, 6, 7, 8, 0xee];
    let mut read = SliceReader::new(bytes.clone());
    let table: ColorTable = read
        .try_decode_with(ColorTableContext { length: 8, bit_count: 32 })
        .unwrap();
    assert_eq!(
        table,
        ColorTable::RgbQuad(vec![
            RgbQuad { b: 1, g: 2, r: 3, reserved: 4 },
            RgbQuad { b: 5, g: 6, r: 7, reserved: 8 },
        ])
    );
    assert_eq!(read.remaining(), vec![0xee]);

    let mut read = SliceReader::new(bytes);
    let result: Result<ColorTable, CodecError<ColorTableError>> =
        read.try_decode_with(ColorTableContext { length: 8, bit_count: 24 });
    match result {
        Err(CodecError::UserDefined(e)) => assert_eq!(e, ColorTableError::InvalidDataLength(8)),
        _ => panic!("eight bytes are no whole number of three-byte entries"),
    }
    assert_eq!(read.remaining(), vec![1, 2, 3, 4, 5, 6, 7, 8, 0xee]);
}

#[test]
fn color_table_of_unsupported_depth_is_refused_before_reading() {
    let bytes: Vec<u8> = (1..=12).collect();
    let mut read = SliceReader::new(bytes.clone());
    let result: Result<ColorTable, CodecError<ColorTableError>> =
        read.try_decode_with(ColorTableContext { length: 12, bit_count: 16 });
    match result {
        Err(CodecError::UserDefined(e)) => {
            assert_eq!(e, ColorTableError::UnsupportedColorPalette(16))
        }
        _ => panic!("depth 16 has no colour table here"),
    }
    assert_eq!(read.remaining(), bytes);
}

#[test]
fn color_table_of_partial_entries_is_refused_before_reading() {
    let bytes: Vec<u8> = (1..=12).collect();
    let mut read = SliceReader::new(bytes.clone());
    let result: Result<ColorTable, CodecError<ColorTableError>> =
        read.try_decode_with(ColorTableContext { length: 10, bit_count: 32 });
    match result {
        Err(CodecError::UserDefined(e)) => assert_eq!(e, ColorTableError::InvalidDataLength(10)),
        _ => panic!("ten bytes are no whole number of four-byte entries"),
    }
    assert_eq!(read.remaining(), bytes);
}
