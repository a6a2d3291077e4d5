use seeyou_cub::{BoundingBox, ByteReader, Error};

#[test]
fn test_read() {
    let data = [
        0x00, 0x00, 0x80, 0xBF, // -1.0 (left)
        0x00, 0x00, 0x80, 0x3F, // 1.0 (top)
        0x00, 0x00, 0x00, 0x40, // 2.0 (right)
        0x00, 0x00, 0x40, 0xC0, // -3.0 (bottom)
    ];

    let mut cursor = ByteReader::new(data.to_vec());
    let bbox = BoundingBox::read(&mut cursor).expect("Failed to read");

    assert_eq!(f32::from_bits(bbox.left), -1.0);
    assert_eq!(f32::from_bits(bbox.top), 1.0);
    assert_eq!(f32::from_bits(bbox.right), 2.0);
    assert_eq!(f32::from_bits(bbox.bottom), -3.0);
}

#[test]
fn test_write() {
    let bbox = BoundingBox {
        left: (-1.0f32).to_bits(),
        top: 1.0f32.to_bits(),
        right: 2.0f32.to_bits(),
        bottom: (-3.0f32).to_bits(),
    };

    let mut buf = Vec::new();
    bbox.write(&mut buf).expect("Failed to write");

    assert_eq!(buf.len(), 16);
    assert_eq!(
        buf,
        vec![
            0x00, 0x00, 0x80, 0xBF, // -1.0 (left)
            0x00, 0x00, 0x80, 0x3F, // 1.0 (top)
            0x00, 0x00, 0x00, 0x40, // 2.0 (right)
            0x00, 0x00, 0x40, 0xC0, // -3.0 (bottom)
        ]
    );
}

#[test]
fn test_write_read_round_trip() {
    let original = BoundingBox {
        left: (-0.5f32).to_bits(),
        top: 0.9f32.to_bits(),
        right: 0.3f32.to_bits(),
        bottom: 0.1f32.to_bits(),
    };

    let mut buf = Vec::new();
    original.write(&mut buf).expect("Failed to write");

    let mut cursor = ByteReader::new(buf);
    let read_back = BoundingBox::read(&mut cursor).expect("Failed to read");

    assert_eq!(read_back, original);
}

#[test]
fn short_box_is_eof() {
    let mut cursor = ByteReader::new(vec![0; 15]);
    assert_eq!(BoundingBox::read(&mut cursor), Err(Error::UnexpectedEof));
}
