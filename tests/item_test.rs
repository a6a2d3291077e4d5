use seeyou_cub::{
    encode_active_time, encode_alt_style_byte, encode_type_byte, AltStyle, BoundingBox, ByteReader,
    ByteString, CubClass, CubStyle, DateTime, DaysActive, Error, ExtendedType, Header, Item,
    NotamScope, NotamTraffic, NotamType,
};

fn bbox(left: f32, top: f32, right: f32, bottom: f32) -> BoundingBox {
    BoundingBox {
        left: left.to_bits(),
        top: top.to_bits(),
        right: right.to_bits(),
        bottom: bottom.to_bits(),
    }
}

fn header(pc_byte_order: u8, size_of_item: i32, data_offset: i32) -> Header {
    Header {
        title: ByteString::from(vec![]),
        allowed_serials: [0; 8],
        pc_byte_order,
        key: [0; 16],
        size_of_item,
        size_of_point: 5,
        hdr_items: 1,
        max_pts: 10,
        bounding_box: bbox(0.0, 0.0, 0.0, 0.0),
        max_width: 0.0f32.to_bits(),
        max_height: 0.0f32.to_bits(),
        lo_la_scale: 1000.0f32.to_bits(),
        data_offset,
    }
}

fn blank_item() -> Item {
    Item {
        bounding_box: bbox(0.0, 0.0, 0.0, 0.0),
        type_byte: 0,
        alt_style_byte: 0,
        min_alt: 0,
        max_alt: 0,
        points_offset: 0,
        time_out: 0,
        extra_data: 0,
        active_time: 0,
        extended_type_byte: 0,
    }
}

#[test]
fn item_item_style_and_class() {
    let item = Item { type_byte: 0b01000100, ..blank_item() };
    assert_eq!(item.style(), CubStyle::DangerArea);
    assert_eq!(item.class(), CubClass::ClassD);
}

#[test]
fn item_item_alt_styles() {
    let item = Item { alt_style_byte: 0x32, ..blank_item() };
    assert_eq!(item.min_alt_style(), AltStyle::MeanSeaLevel);
    assert_eq!(item.max_alt_style(), AltStyle::FlightLevel);
}

#[test]
fn write_item_round_trip() {
    let header = header(0, 43, 253);
    let original = Item {
        bounding_box: bbox(-1.5, 1.5, 1.5, -1.5),
        type_byte: 0b01000100,
        alt_style_byte: 0x32,
        min_alt: 500,
        max_alt: 10000,
        points_offset: 100,
        time_out: 3600,
        extra_data: 0x12345678,
        active_time: 0xFEDCBA9876543210,
        extended_type_byte: 42,
    };

    let mut buf = Vec::new();
    let written = original.write(&mut buf, &header).expect("Failed to write item");
    assert_eq!(written, 43, "Item should match header.size_of_item");

    let mut cursor = ByteReader::new(buf);
    let read_back = Item::read(&mut cursor, &header).expect("Failed to read item");

    assert_eq!(read_back, original);
}

#[test]
fn write_item_with_be_byte_order() {
    let header = header(1, 43, 253);
    let original = Item {
        bounding_box: bbox(-1.0, 1.0, 1.0, -1.0),
        type_byte: 0x12,
        alt_style_byte: 0x34,
        min_alt: -100,
        max_alt: 20000,
        points_offset: 500,
        time_out: 7200,
        extra_data: 0xABCDEF01,
        active_time: 0x123456789ABCDEF0,
        extended_type_byte: 99,
    };

    let mut buf = Vec::new();
    original.write(&mut buf, &header).expect("Failed to write");
    let mut cursor = ByteReader::new(buf);
    let read_back = Item::read(&mut cursor, &header).expect("Failed to read");

    assert_eq!(read_back, original);
}

#[test]
fn write_item_with_variable_size() {
    let header = header(0, 50, 260);
    let original = Item {
        bounding_box: bbox(0.5, 0.5, 0.5, 0.5),
        type_byte: 0xFF,
        alt_style_byte: 0xFF,
        min_alt: i16::MIN,
        max_alt: i16::MAX,
        points_offset: 12345,
        time_out: 999999,
        extra_data: u32::MAX,
        active_time: u64::MAX,
        extended_type_byte: 255,
    };

    let mut buf = Vec::new();
    let written = original.write(&mut buf, &header).expect("Failed to write");
    assert_eq!(written, 50);

    let mut cursor = ByteReader::new(buf);
    let read_back = Item::read(&mut cursor, &header).expect("Failed to read");

    assert_eq!(read_back, original);
}

#[test]
fn big_endian_item_bytes() {
    let h = header(0, 43, 253);
    let item = Item { min_alt: 0x0102, points_offset: 0x0A0B0C0D, ..blank_item() };
    let mut buf = Vec::new();
    item.write(&mut buf, &h).unwrap();
    assert_eq!(&buf[18..20], &[0x01, 0x02]);
    assert_eq!(&buf[22..26], &[0x0A, 0x0B, 0x0C, 0x0D]);
    assert_eq!(buf.len(), 43);
}

#[test]
fn short_item_record_reads_zero_tail() {
    let h = header(1, 26, 236);
    let item = Item {
        points_offset: 7,
        time_out: 9,
        extra_data: 5,
        active_time: 0x1234,
        extended_type_byte: 3,
        ..blank_item()
    };
    let mut buf = Vec::new();
    assert_eq!(item.write(&mut buf, &h), Ok(26));
    assert_eq!(buf.len(), 26);
    let back = Item::read(&mut ByteReader::new(buf), &h).unwrap();
    assert_eq!(back.points_offset, 7);
    assert_eq!(back.time_out, 0);
    assert_eq!(back.extra_data, 0);
    assert_eq!(back.active_time, 0x3FFFFFF);
    assert_eq!(back.extended_type_byte, 0);
}

#[test]
fn oversized_record_skips_extra_bytes() {
    let h = header(1, 50, 260);
    let mut bytes = vec![0u8; 50];
    bytes[16] = 0x04;
    bytes.extend_from_slice(&[0xAB; 3]);
    let mut r = ByteReader::new(bytes);
    let item = Item::read(&mut r, &h).unwrap();
    assert_eq!(item.style(), CubStyle::DangerArea);
    assert_eq!(r.position(), 50);
    assert_eq!(Item::read(&mut r, &h), Err(Error::UnexpectedEof));
}

#[test]
fn item_dates_and_notam_fields() {
    let start = 30 + 60 * (14 + 24 * (14 + 31 * (6 + 12 * 24)));
    let item = Item {
        active_time: (0x041u64 << 52) | ((start as u64) << 26) | 0x3FFFFFF,
        extra_data: (2 << 28) | (3 << 13) | (4 << 8) | (1 << 23) | (2 << 18) | (1 << 4) | 2,
        extended_type_byte: 2,
        ..blank_item()
    };
    let days = item.days_active();
    assert!(days.sunday() && days.saturday() && !days.monday());
    let s = item.start_date().unwrap();
    assert_eq!((s.year, s.month, s.day, s.hour, s.minute), (2024, 7, 15, 14, 30));
    assert_eq!(item.end_date(), None);
    assert!(item.has_notam_data());
    assert_eq!(item.notam_type(), Some(NotamType::New));
    assert_eq!(item.notam_traffic(), Some(NotamTraffic::Ifr));
    assert_eq!(item.notam_scope(), Some(NotamScope::EnRoute));
    let codes = item.notam_codes().unwrap();
    assert_eq!(codes.subject, ('A', 'B'));
    assert_eq!(codes.action, ('C', 'D'));
    assert_eq!(item.extended_type(), Some(ExtendedType::MilitaryTrainingRoute));

    let plain = Item { extra_data: 0xC000_0001, ..blank_item() };
    assert!(!plain.has_notam_data());
    assert_eq!(plain.notam_type(), None);
    assert_eq!(plain.extended_type(), None);
    assert_eq!(plain.start_date(), None);
}

#[test]
fn encoders_invert_accessors() {
    let t = encode_type_byte(CubStyle::TransponderRecommendedZone, CubClass::ClassE);
    assert_eq!(t, 0x8b | (5 << 4));
    let item = Item { type_byte: t, alt_style_byte: encode_alt_style_byte(AltStyle::AboveGroundLevel, AltStyle::Unlimited), ..blank_item() };
    assert_eq!(item.style(), CubStyle::TransponderRecommendedZone);
    assert_eq!(item.class(), CubClass::ClassE);
    assert_eq!(item.min_alt_style(), AltStyle::AboveGroundLevel);
    assert_eq!(item.max_alt_style(), AltStyle::Unlimited);

    let start = DateTime { day: 2, month: 3, year: 2024, hour: 4, minute: 5 };
    let at = encode_active_time(Some(start), None, &DaysActive::from_bits(0x7f));
    let item = Item { active_time: at, ..blank_item() };
    assert_eq!(item.start_date(), Some(start));
    assert_eq!(item.end_date(), None);
    assert_eq!(item.days_active().as_bits(), 0x7f);
    let at = encode_active_time(None, Some(start), &DaysActive::from_bits(0));
    assert_eq!(at >> 26, 0);
    assert_eq!(Item { active_time: at, ..blank_item() }.end_date(), Some(start));
}
