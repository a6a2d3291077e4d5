use seeyou_cub::{
    decode_notam_time, encode_notam_time, AltStyle, ByteOrder, CubClass, CubDataId, CubStyle,
    DateTime, DaysActive, ExtendedType, NotamCodes, NotamScope, NotamTraffic, NotamType,
};

#[test]
fn byte_order_selector_round_trip() {
    assert_eq!(ByteOrder::BE.as_pc_byte_order(), 0);
    assert_eq!(ByteOrder::from_pc_byte_order(ByteOrder::LE.as_pc_byte_order()), ByteOrder::LE);
}

#[test]
fn byte_order_from_pc_byte_order() {
    assert_eq!(ByteOrder::from_pc_byte_order(0), ByteOrder::BE);
    assert_eq!(ByteOrder::from_pc_byte_order(1), ByteOrder::LE);
    assert_eq!(ByteOrder::from_pc_byte_order(255), ByteOrder::LE);
}

#[test]
fn cub_style_from_type_byte() {
    assert_eq!(CubStyle::from_type_byte(0x00), CubStyle::Unknown);
    assert_eq!(CubStyle::from_type_byte(0x01), CubStyle::ControlZone);
    assert_eq!(CubStyle::from_type_byte(0x04), CubStyle::DangerArea);
    assert_eq!(CubStyle::from_type_byte(0x80), CubStyle::Advisory);
    assert_eq!(CubStyle::from_type_byte(0x8f), CubStyle::Warning);
}

#[test]
fn cub_class_from_type_byte() {
    assert_eq!(CubClass::from_type_byte(0b00000000), CubClass::Unknown);
    assert_eq!(CubClass::from_type_byte(0b00010000), CubClass::ClassA);
    assert_eq!(CubClass::from_type_byte(0b01000000), CubClass::ClassD);
    assert_eq!(CubClass::from_type_byte(0b01110000), CubClass::ClassG);
}

#[test]
fn alt_style_from_nibble() {
    assert_eq!(AltStyle::from_nibble(0), AltStyle::Unknown);
    assert_eq!(AltStyle::from_nibble(1), AltStyle::AboveGroundLevel);
    assert_eq!(AltStyle::from_nibble(3), AltStyle::FlightLevel);
    assert_eq!(AltStyle::from_nibble(15), AltStyle::Unknown);
}

#[test]
fn notam_type_from_bits() {
    assert_eq!(NotamType::from_bits(0b00 << 28), NotamType::NoType);
    assert_eq!(NotamType::from_bits(0b01 << 28), NotamType::Cancel);
    assert_eq!(NotamType::from_bits(0b10 << 28), NotamType::New);
    assert_eq!(NotamType::from_bits(0b11 << 28), NotamType::Replace);
}

#[test]
fn days_active() {
    let days = DaysActive::from_bits(0x001 | 0x004 | 0x040);
    assert!(days.sunday());
    assert!(!days.monday());
    assert!(days.tuesday());
    assert!(days.saturday());
    assert!(!days.holidays());
}

#[test]
fn notam_codes_decode() {
    let extra_data = (1 << 23) | (1 << 18) | (2 << 13) | (2 << 8);
    let codes = NotamCodes::from_extra_data(extra_data).unwrap();
    assert_eq!(codes.subject, ('A', 'A'));
    assert_eq!(codes.action, ('B', 'B'));
}

#[test]
fn notam_codes_reject_non_letters_and_flagged_data() {
    assert_eq!(NotamCodes::from_extra_data((27 << 23) | (1 << 18) | (1 << 13) | (1 << 8)), None);
    assert_eq!(NotamCodes::from_extra_data((1 << 18) | (1 << 13) | (1 << 8)), None);
    assert_eq!(
        NotamCodes::from_extra_data((1 << 30) | (1 << 23) | (1 << 18) | (1 << 13) | (1 << 8)),
        None
    );
    let z = NotamCodes::from_extra_data((26 << 23) | (25 << 18) | (3 << 13) | (4 << 8)).unwrap();
    assert_eq!(z.subject, ('Z', 'Y'));
    assert_eq!(z.action, ('C', 'D'));
}

#[test]
fn item_decode_notam_time_example() {
    let encoded = 30 + 60 * (14 + 24 * (14 + 31 * (6 + 12 * 24)));
    let dt = decode_notam_time(encoded);
    assert_eq!(dt.year, 2024);
    assert_eq!(dt.month, 7);
    assert_eq!(dt.day, 15);
    assert_eq!(dt.hour, 14);
    assert_eq!(dt.minute, 30);
}

#[test]
fn notam_time_zero_and_encode() {
    let dt = decode_notam_time(0);
    assert_eq!(dt, DateTime { day: 1, month: 1, year: 2000, hour: 0, minute: 0 });
    let t = DateTime { day: 31, month: 2, year: 2025, hour: 23, minute: 59 };
    let e = encode_notam_time(&t);
    assert_eq!(e, 59 + 60 * (23 + 24 * (30 + 31 * (1 + 12 * 25))));
    assert_eq!(decode_notam_time(e), t);
}

#[test]
fn style_codes_of_all_ranges() {
    assert_eq!(CubStyle::from_type_byte(0x0e), CubStyle::Unknown);
    assert_eq!(CubStyle::from_type_byte(0x4f), CubStyle::Notam);
    assert_eq!(CubStyle::from_type_byte(0xf3), CubStyle::DelegatedFir);
    assert_eq!(CubStyle::TemporarySegregatedArea.as_byte(), 0x8e);
}

#[test]
fn extended_type_and_data_id() {
    assert_eq!(ExtendedType::from_byte(0), None);
    assert_eq!(ExtendedType::from_byte(1), Some(ExtendedType::UpperInfoRegion));
    assert_eq!(ExtendedType::from_byte(0x0a), Some(ExtendedType::VfrSector));
    assert_eq!(ExtendedType::from_byte(0x0b), None);
    assert_eq!(CubDataId::from_byte(5), Some(CubDataId::NotamInsertTime));
    assert_eq!(CubDataId::from_byte(6), None);
    assert_eq!(CubDataId::ExceptionRules.as_byte(), 2);
}

#[test]
fn notam_traffic_and_scope() {
    assert_eq!(NotamTraffic::from_bits(4 << 4), NotamTraffic::Checklist);
    assert_eq!(NotamTraffic::from_bits(6 << 4), NotamTraffic::Miscellaneous);
    assert_eq!(NotamScope::from_bits(8), NotamScope::Checklist);
    assert_eq!(NotamScope::from_bits(7), NotamScope::Unknown);
    assert_eq!(NotamScope::from_bits(0x15), NotamScope::AerodromeAndNavWarning);
}

#[test]
fn days_active_flags() {
    let d = DaysActive::from_bits(0x7fe);
    assert!(!d.sunday());
    assert!(d.monday() && d.wednesday() && d.thursday() && d.friday());
    assert!(d.holidays() && d.aup() && d.irregular() && d.by_notam());
    assert!(!d.is_unknown());
    assert!(DaysActive::from_bits(0).is_unknown());
    assert_eq!(DaysActive::from_bits(0x1ff).as_bits(), 0x1ff);
}

#[test]
fn decode_notam_time_example() {
    let encoded = 30 + 60 * (14 + 24 * (14 + 31 * (6 + 12 * 24)));
    let dt = decode_notam_time(encoded);
    assert_eq!(dt.year, 2024);
    assert_eq!(dt.month, 7);
    assert_eq!(dt.day, 15);
    assert_eq!(dt.hour, 14);
    assert_eq!(dt.minute, 30);
}
