use seeyou_cub::{
    BoundingBox, ByteReader, ByteString, Error, Header, ItemData, PointOp, Warning,
};

fn header(pc_byte_order: u8, size_of_point: i32) -> Header {
    Header {
        title: ByteString::from(vec![]),
        allowed_serials: [0; 8],
        pc_byte_order,
        key: [0; 16],
        size_of_item: 43,
        size_of_point,
        hdr_items: 1,
        max_pts: 10,
        bounding_box: BoundingBox { left: 0, top: 0, right: 0, bottom: 0 },
        max_width: 0,
        max_height: 0,
        lo_la_scale: 1000.0f32.to_bits(),
        data_offset: 253,
    }
}

fn read(bytes: Vec<u8>, header: &Header) -> (Result<ItemData, Error>, Vec<Warning>) {
    let mut cursor = ByteReader::new(bytes);
    let mut warnings = Vec::new();
    let r = ItemData::read(&mut cursor, header, &mut warnings);
    (r, warnings)
}

fn round_trip(original: &ItemData, header: &Header) -> ItemData {
    let mut buf = Vec::new();
    original.write(&mut buf, header).expect("Failed to write");
    let (r, warnings) = read(buf, header);
    assert!(warnings.is_empty());
    r.expect("Failed to read")
}

#[test]
fn read_item_data_with_all_optional_fields() {
    let header = header(1, 5);
    let mut data = Vec::new();
    data.push(0x81);
    data.extend_from_slice(&100i16.to_le_bytes());
    data.extend_from_slice(&200i16.to_le_bytes());
    data.push(0x01);
    data.extend_from_slice(&10i16.to_le_bytes());
    data.extend_from_slice(&20i16.to_le_bytes());
    data.push(0x01);
    data.extend_from_slice(&30i16.to_le_bytes());
    data.extend_from_slice(&40i16.to_le_bytes());
    let name = b"Test Airspace";
    data.push(0x40 | (name.len() as u8));
    data.extend_from_slice(&[0u8; 4]);
    data.extend_from_slice(name);
    let freq_name = b"Tower";
    data.push(0xC0 | (freq_name.len() as u8));
    data.extend_from_slice(&123450u32.to_le_bytes());
    data.extend_from_slice(freq_name);
    data.push(0xA0);
    data.push(0);
    data.push(0);
    data.push(0);
    let icao = b"LFPG";
    data.push(icao.len() as u8);
    data.extend_from_slice(icao);
    data.push(0xA0);
    data.push(1);
    let sec_freq = 128500u32;
    data.push(((sec_freq >> 16) & 0xFF) as u8);
    data.push(((sec_freq >> 8) & 0xFF) as u8);
    data.push((sec_freq & 0xFF) as u8);
    data.push(0xA0);
    data.push(2);
    let exc_rules = b"Class D when tower active";
    let exc_len = exc_rules.len() as u16;
    data.push(0);
    data.push(((exc_len >> 8) & 0xFF) as u8);
    data.push((exc_len & 0xFF) as u8);
    data.extend_from_slice(exc_rules);
    data.push(0xA0);
    data.push(3);
    let notam_remarks = b"Active during airshow";
    let notam_len = notam_remarks.len() as u16;
    data.push(0);
    data.push(((notam_len >> 8) & 0xFF) as u8);
    data.push((notam_len & 0xFF) as u8);
    data.extend_from_slice(notam_remarks);
    data.push(0xA0);
    data.push(4);
    data.push(0);
    data.push(0);
    let notam_id = b"A1234/25";
    data.push(notam_id.len() as u8);
    data.extend_from_slice(notam_id);
    data.push(0xA0);
    data.push(5);
    let insert_time = 0x12345678u32;
    data.push(((insert_time >> 24) & 0xFF) as u8);
    data.push(((insert_time >> 16) & 0xFF) as u8);
    data.push(((insert_time >> 8) & 0xFF) as u8);
    data.push((insert_time & 0xFF) as u8);

    let (r, warnings) = read(data, &header);
    let item_data = r.expect("Failed to read item data");
    assert!(warnings.is_empty());
    assert_eq!(
        item_data,
        ItemData {
            point_ops: vec![
                PointOp::MoveOrigin { x: 100, y: 200 },
                PointOp::NewPoint { x: 10, y: 20 },
                PointOp::NewPoint { x: 30, y: 40 },
            ],
            name: Some(ByteString::from(b"Test Airspace".to_vec())),
            frequency: Some(123450),
            frequency_name: Some(ByteString::from(b"Tower".to_vec())),
            icao_code: Some(ByteString::from(b"LFPG".to_vec())),
            secondary_frequency: Some(128500),
            exception_rules: Some(ByteString::from(b"Class D when tower active".to_vec())),
            notam_remarks: Some(ByteString::from(b"Active during airshow".to_vec())),
            notam_id: Some(ByteString::from(b"A1234/25".to_vec())),
            notam_insert_time: Some(0x12345678),
        }
    );
}

#[test]
fn write_item_data_round_trip() {
    let header = header(0, 5);
    let original = ItemData {
        point_ops: vec![
            PointOp::MoveOrigin { x: 100, y: 200 },
            PointOp::NewPoint { x: 10, y: 20 },
            PointOp::NewPoint { x: 30, y: 40 },
        ],
        name: Some(ByteString::from(b"Test Airspace".to_vec())),
        frequency: Some(123450),
        frequency_name: Some(ByteString::from(b"Tower".to_vec())),
        icao_code: Some(ByteString::from(b"LFPG".to_vec())),
        secondary_frequency: Some(128500),
        exception_rules: Some(ByteString::from(b"Class D when tower active".to_vec())),
        notam_remarks: Some(ByteString::from(b"Active during airshow".to_vec())),
        notam_id: Some(ByteString::from(b"A1234/25".to_vec())),
        notam_insert_time: Some(0x12345678),
    };

    let mut buf = Vec::new();
    let written = original.write(&mut buf, &header).expect("Failed to write item data");
    assert!(written > 0);

    let (r, _) = read(buf, &header);
    let read_back = r.expect("Failed to read item data");
    assert_eq!(read_back, original);
}

#[test]
fn write_item_data_with_be_byte_order() {
    let header = header(1, 5);
    let original = ItemData {
        point_ops: vec![
            PointOp::MoveOrigin { x: -500, y: 500 },
            PointOp::NewPoint { x: 100, y: -100 },
        ],
        name: Some(ByteString::from(b"BE Test".to_vec())),
        frequency: Some(118500),
        frequency_name: Some(ByteString::from(b"ATIS".to_vec())),
        icao_code: None,
        secondary_frequency: None,
        exception_rules: None,
        notam_remarks: None,
        notam_id: None,
        notam_insert_time: None,
    };
    assert_eq!(round_trip(&original, &header), original);
}

#[test]
fn write_item_data_with_no_optional_fields() {
    let header = header(0, 5);
    let original = ItemData {
        point_ops: vec![PointOp::NewPoint { x: 10, y: 20 }],
        name: None,
        frequency: None,
        frequency_name: None,
        icao_code: None,
        secondary_frequency: None,
        exception_rules: None,
        notam_remarks: None,
        notam_id: None,
        notam_insert_time: None,
    };
    assert_eq!(round_trip(&original, &header), original);
}

#[test]
fn write_item_data_with_max_string_lengths() {
    let header = header(0, 5);
    let max_63_bytes = vec![b'A'; 63];
    let max_255_bytes = vec![b'B'; 255];
    let max_65535_bytes = vec![b'C'; 65535];

    let original = ItemData {
        point_ops: vec![PointOp::NewPoint { x: 0, y: 0 }],
        name: Some(ByteString::from(max_63_bytes.clone())),
        frequency: Some(123450),
        frequency_name: Some(ByteString::from(max_63_bytes.clone())),
        icao_code: Some(ByteString::from(max_255_bytes.clone())),
        secondary_frequency: Some(0xFFFFFF),
        exception_rules: Some(ByteString::from(max_65535_bytes.clone())),
        notam_remarks: Some(ByteString::from(b"Max remarks".to_vec())),
        notam_id: Some(ByteString::from(max_255_bytes.clone())),
        notam_insert_time: Some(0xFFFFFFFF),
    };
    assert_eq!(round_trip(&original, &header), original);
}

#[test]
fn write_item_data_with_many_point_operations() {
    let header = header(0, 5);
    let mut point_ops = vec![
        PointOp::MoveOrigin { x: 1000, y: 2000 },
        PointOp::NewPoint { x: 10, y: 20 },
        PointOp::NewPoint { x: 30, y: 40 },
        PointOp::MoveOrigin { x: -500, y: -500 },
        PointOp::NewPoint { x: 5, y: 5 },
    ];
    for i in 0..50 {
        point_ops.push(PointOp::NewPoint { x: i * 10, y: i * 20 });
    }
    let original = ItemData {
        point_ops,
        name: Some(ByteString::from(b"Complex polygon".to_vec())),
        frequency: None,
        frequency_name: None,
        icao_code: None,
        secondary_frequency: None,
        exception_rules: None,
        notam_remarks: None,
        notam_id: None,
        notam_insert_time: None,
    };
    let read_back = round_trip(&original, &header);
    assert_eq!(read_back.point_ops.len(), original.point_ops.len());
    assert_eq!(read_back, original);
}

#[test]
fn long_name_is_cut_to_63_bytes() {
    let header = header(0, 5);
    let mut d = ItemData::empty();
    d.name = Some(ByteString::from(vec![b'N'; 70]));
    let mut buf = Vec::new();
    assert_eq!(d.write(&mut buf, &header), Ok(1 + 4 + 63));
    assert_eq!(buf[0], 0x40 | 63);
    let (r, _) = read(buf, &header);
    assert_eq!(r.unwrap().name, Some(ByteString::from(vec![b'N'; 63])));
}

#[test]
fn stream_ending_at_end_of_input_is_complete() {
    let header = header(1, 5);
    let (r, w) = read(vec![], &header);
    assert_eq!(r, Ok(ItemData::empty()));
    assert!(w.is_empty());
    let (r, w) = read(vec![0x01, 1, 0, 2, 0, 0x43, 0, 0, 0, 0, b'a', b'b', b'c'], &header);
    let d = r.unwrap();
    assert!(w.is_empty());
    assert_eq!(d.point_ops, vec![PointOp::NewPoint { x: 1, y: 2 }]);
    assert_eq!(d.name, Some(ByteString::from(b"abc".to_vec())));
    assert_eq!(d.frequency, None);
    assert_eq!(d.notam_id, None);
}

#[test]
fn unexpected_point_flag_is_an_error() {
    let header = header(1, 5);
    let (r, _) = read(vec![0x01, 0, 0, 0, 0, 0x02, 0, 0, 0, 0], &header);
    assert_eq!(r, Err(Error::UnexpectedPointFlag(0x02)));
}

#[test]
fn truncated_record_keeps_what_came_before() {
    let header = header(1, 5);
    let (r, w) = read(vec![0x01, 5, 0, 6, 0, 0x81, 1, 0], &header);
    assert_eq!(r.unwrap().point_ops, vec![PointOp::NewPoint { x: 5, y: 6 }]);
    assert_eq!(w, vec![Warning::Truncated { offset: 5 }]);
}

#[test]
fn unknown_data_id_is_skipped_with_warning() {
    let header = header(1, 5);
    let bytes = vec![0x40, 0, 0, 0, 0, 0xA0, 9, 1, 2, 3, 0xA0, 1, 0, 1, 2];
    let (r, w) = read(bytes, &header);
    let d = r.unwrap();
    assert_eq!(d.name, None);
    assert_eq!(d.secondary_frequency, Some(0x0102));
    assert_eq!(w, vec![Warning::UnknownDataId(9)]);
}

#[test]
fn unknown_attribute_flag_ends_stream() {
    let header = header(1, 5);
    let bytes = vec![0x41, 0, 0, 0, 0, b'x', 0x01, 0, 0, 0, 0];
    let mut cursor = ByteReader::new(bytes);
    let mut w = Vec::new();
    let d = ItemData::read(&mut cursor, &header, &mut w).unwrap();
    assert_eq!(cursor.position(), 6);
    assert_eq!(d.name, Some(ByteString::from(b"x".to_vec())));
    assert!(d.point_ops.is_empty());
    assert!(w.is_empty());
}

#[test]
fn larger_point_size_pads_the_name_slot() {
    let header = header(0, 9);
    let mut d = ItemData::empty();
    d.name = Some(ByteString::from(b"N".to_vec()));
    let mut buf = Vec::new();
    d.write(&mut buf, &header).unwrap();
    assert_eq!(buf, vec![0x41, 0, 0, 0, 0, 0, 0, 0, 0, b'N']);
    assert_eq!(round_trip(&d, &header), d);
}
