use seeyou_cub::{BoundingBox, ByteOrder, ByteReader, ByteString, Error, Header, HEADER_SIZE};

fn bbox(left: f32, top: f32, right: f32, bottom: f32) -> BoundingBox {
    BoundingBox {
        left: left.to_bits(),
        top: top.to_bits(),
        right: right.to_bits(),
        bottom: bottom.to_bits(),
    }
}

#[test]
fn write_header_round_trip() {
    let original = Header {
        title: ByteString::from(b"Test Airspace".to_vec()),
        allowed_serials: [1, 2, 3, 4, 5, 6, 7, 8],
        pc_byte_order: 0,
        key: [0; 16],
        size_of_item: 42,
        size_of_point: 5,
        hdr_items: 10,
        max_pts: 100,
        bounding_box: bbox(-1.0, 1.0, 1.0, -1.0),
        max_width: 2.0f32.to_bits(),
        max_height: 2.0f32.to_bits(),
        lo_la_scale: 1000.0f32.to_bits(),
        data_offset: 630,
    };

    let mut buf = Vec::new();
    let written = original.write(&mut buf).expect("Failed to write header");
    assert_eq!(written, 210, "Header should be exactly 210 bytes");

    let mut cursor = ByteReader::new(buf);
    let read_back = Header::read(&mut cursor).expect("Failed to read header");

    assert_eq!(read_back, original);
}

#[test]
fn write_header_with_be_byte_order() {
    let original = Header {
        title: ByteString::from(b"BE Test".to_vec()),
        allowed_serials: [1, 2, 3, 4, 5, 6, 7, 8],
        pc_byte_order: 1,
        key: [0xFF; 16],
        size_of_item: 43,
        size_of_point: 5,
        hdr_items: 100,
        max_pts: 1000,
        bounding_box: bbox(-2.5, 2.5, 2.5, -2.5),
        max_width: 5.0f32.to_bits(),
        max_height: 5.0f32.to_bits(),
        lo_la_scale: 2000.0f32.to_bits(),
        data_offset: 4510,
    };

    let mut buf = Vec::new();
    original.write(&mut buf).expect("Failed to write");
    let mut cursor = ByteReader::new(buf);
    let read_back = Header::read(&mut cursor).expect("Failed to read");

    assert_eq!(read_back, original);
}

#[test]
fn write_header_with_empty_title() {
    let original = Header {
        title: ByteString::from(vec![]),
        allowed_serials: [0; 8],
        pc_byte_order: 0,
        key: [0; 16],
        size_of_item: 26,
        size_of_point: 5,
        hdr_items: 0,
        max_pts: 0,
        bounding_box: bbox(0.0, 0.0, 0.0, 0.0),
        max_width: 0.0f32.to_bits(),
        max_height: 0.0f32.to_bits(),
        lo_la_scale: 1.0f32.to_bits(),
        data_offset: 210,
    };

    let mut buf = Vec::new();
    original.write(&mut buf).expect("Failed to write");
    let mut cursor = ByteReader::new(buf);
    let read_back = Header::read(&mut cursor).expect("Failed to read");

    assert_eq!(read_back, original);
}

#[test]
fn write_header_with_max_title_length() {
    let long_title = vec![b'X'; 112];
    let original = Header {
        title: ByteString::from(long_title.clone()),
        allowed_serials: [0; 8],
        pc_byte_order: 0,
        key: [0; 16],
        size_of_item: 43,
        size_of_point: 5,
        hdr_items: 1,
        max_pts: 10,
        bounding_box: bbox(0.0, 0.0, 0.0, 0.0),
        max_width: 0.0f32.to_bits(),
        max_height: 0.0f32.to_bits(),
        lo_la_scale: 1.0f32.to_bits(),
        data_offset: 253,
    };

    let mut buf = Vec::new();
    original.write(&mut buf).expect("Failed to write");
    let mut cursor = ByteReader::new(buf);
    let read_back = Header::read(&mut cursor).expect("Failed to read");

    assert_eq!(read_back.title.as_bytes(), &long_title[..]);
}

fn minimal_header_bytes(byte_order: ByteOrder, encrypted: bool) -> Vec<u8> {
    let mut bytes = vec![0u8; 210];
    bytes[0..4].copy_from_slice(&0x425543C2u32.to_le_bytes());
    bytes[4..8].copy_from_slice(b"Test");
    bytes[132] = match byte_order {
        ByteOrder::BE => 0,
        ByteOrder::LE => 1,
    };
    bytes[133] = if encrypted { 1 } else { 0 };
    let write_i32 = |bytes: &mut [u8], offset: usize, value: i32| {
        let val_bytes = match byte_order {
            ByteOrder::LE => value.to_le_bytes(),
            ByteOrder::BE => value.to_be_bytes(),
        };
        bytes[offset..offset + 4].copy_from_slice(&val_bytes);
    };
    write_i32(&mut bytes, 154, 42);
    write_i32(&mut bytes, 158, 5);
    write_i32(&mut bytes, 162, 0);
    write_i32(&mut bytes, 166, 100);
    bytes[170..174].copy_from_slice(&0.0f32.to_le_bytes());
    bytes[174..178].copy_from_slice(&1.0f32.to_le_bytes());
    bytes[178..182].copy_from_slice(&1.0f32.to_le_bytes());
    bytes[182..186].copy_from_slice(&0.0f32.to_le_bytes());
    bytes[186..190].copy_from_slice(&1.0f32.to_le_bytes());
    bytes[190..194].copy_from_slice(&1.0f32.to_le_bytes());
    bytes[194..198].copy_from_slice(&1.0f32.to_le_bytes());
    write_i32(&mut bytes, 198, 210);
    write_i32(&mut bytes, 202, 210);
    write_i32(&mut bytes, 206, 0);
    bytes
}

#[test]
fn read_minimal_le_header() {
    let mut cursor = ByteReader::new(minimal_header_bytes(ByteOrder::LE, false));
    let header = Header::read(&mut cursor).unwrap();
    assert_eq!(header.byte_order(), ByteOrder::LE);
    assert_eq!(header.size_of_item, 42);
    assert_eq!(header.title.as_bytes(), b"Test");
    assert_eq!(header.bounding_box().top, 1.0f32.to_bits());
    assert_eq!(cursor.position(), HEADER_SIZE);
}

#[test]
fn read_minimal_be_header() {
    let mut cursor = ByteReader::new(minimal_header_bytes(ByteOrder::BE, false));
    let header = Header::read(&mut cursor).unwrap();
    assert_eq!(header.byte_order(), ByteOrder::BE);
    assert_eq!(header.size_of_item, 42);
    assert_eq!(header.max_pts, 100);
}

#[test]
fn invalid_magic_bytes() {
    let mut bytes = minimal_header_bytes(ByteOrder::LE, false);
    bytes[0] = 0xFF;
    let mut cursor = ByteReader::new(bytes);

    match Header::read(&mut cursor) {
        Err(Error::InvalidMagicBytes) => {}
        _ => panic!("Expected InvalidMagicBytes error"),
    }
}

#[test]
fn encrypted_file_error() {
    let bytes = minimal_header_bytes(ByteOrder::LE, true);
    let mut cursor = ByteReader::new(bytes);

    match Header::read(&mut cursor) {
        Err(Error::EncryptedFile) => {}
        _ => panic!("Expected EncryptedFile error"),
    }
}

#[test]
fn header_offset_and_record_size_errors() {
    let mut bytes = minimal_header_bytes(ByteOrder::LE, false);
    bytes[198..202].copy_from_slice(&211i32.to_le_bytes());
    assert_eq!(
        Header::read(&mut ByteReader::new(bytes)),
        Err(Error::InvalidHeaderOffset { found: 211 })
    );

    let mut bytes = minimal_header_bytes(ByteOrder::BE, false);
    bytes[154..158].copy_from_slice(&25i32.to_be_bytes());
    assert_eq!(
        Header::read(&mut ByteReader::new(bytes)),
        Err(Error::UndersizedItems { size_of_item: 25 })
    );

    let mut bytes = minimal_header_bytes(ByteOrder::LE, false);
    bytes[158..162].copy_from_slice(&4i32.to_le_bytes());
    assert_eq!(
        Header::read(&mut ByteReader::new(bytes)),
        Err(Error::UndersizedPoints { size_of_point: 4 })
    );
}

#[test]
fn short_header_is_eof_unless_a_check_fails_first() {
    let bytes = minimal_header_bytes(ByteOrder::LE, false);
    assert_eq!(
        Header::read(&mut ByteReader::new(bytes[..209].to_vec())),
        Err(Error::UnexpectedEof)
    );
    assert_eq!(Header::read(&mut ByteReader::new(vec![0xC2, 0x43])), Err(Error::UnexpectedEof));
    let mut bad = bytes[..10].to_vec();
    bad[1] = 0;
    assert_eq!(Header::read(&mut ByteReader::new(bad)), Err(Error::InvalidMagicBytes));
}

#[test]
fn write_fixed_fields() {
    let h = Header {
        title: ByteString::from(vec![b'T'; 120]),
        allowed_serials: [0x0102; 8],
        pc_byte_order: 0,
        key: [7; 16],
        size_of_item: 43,
        size_of_point: 5,
        hdr_items: 1,
        max_pts: 2,
        bounding_box: bbox(0.0, 0.0, 0.0, 0.0),
        max_width: 0,
        max_height: 0,
        lo_la_scale: 0,
        data_offset: 253,
    };
    let mut buf = Vec::new();
    assert_eq!(h.write(&mut buf), Ok(210));
    assert_eq!(&buf[0..4], &[0xC2, 0x43, 0x55, 0x42]);
    assert_eq!(&buf[4..116], &vec![b'T'; 112][..]);
    assert_eq!(&buf[116..118], &[0x02, 0x01]);
    assert_eq!(buf[133], 0);
    assert_eq!(&buf[154..158], &[0, 0, 0, 43]);
    assert_eq!(&buf[198..202], &[0, 0, 0, 210]);
}
