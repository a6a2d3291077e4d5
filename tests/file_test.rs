use seeyou_cub::{
    read_item_at, read_item_data_for, read_items, write_file, BoundingBox, ByteReader, ByteString, Error,
    Header, Item, ItemData, PointOp, Warning,
};

fn template() -> Header {
    Header {
        title: ByteString::from(b"Layout".to_vec()),
        allowed_serials: [0; 8],
        pc_byte_order: 0,
        key: [0; 16],
        size_of_item: 43,
        size_of_point: 5,
        hdr_items: 0,
        max_pts: 2,
        bounding_box: BoundingBox { left: 1, top: 2, right: 3, bottom: 4 },
        max_width: 0,
        max_height: 0,
        lo_la_scale: 1.0e-4f32.to_bits(),
        data_offset: 0,
    }
}

fn item(type_byte: u8) -> Item {
    Item {
        bounding_box: BoundingBox { left: 0, top: 0, right: 0, bottom: 0 },
        type_byte,
        alt_style_byte: 0,
        min_alt: 0,
        max_alt: 0,
        points_offset: 0,
        time_out: 0,
        extra_data: 0,
        active_time: 5,
        extended_type_byte: 0,
    }
}

fn data(name: &[u8], n: i16) -> ItemData {
    let mut d = ItemData::empty();
    for i in 0..n {
        d.point_ops.push(PointOp::NewPoint { x: i, y: -i });
    }
    d.name = Some(ByteString::from(name.to_vec()));
    d
}

#[test]
fn write_then_read_whole_file() {
    let items = vec![item(0x04), item(0x12)];
    let streams = vec![data(b"First", 2), data(b"Second", 3)];
    let mut out = Vec::new();
    let h = write_file(&template(), &items, &streams, &mut out).unwrap();
    assert_eq!(h.hdr_items, 2);
    assert_eq!(h.data_offset, 210 + 2 * 43);
    assert_eq!(out.len(), 210 + 86 + (10 + 1 + 4 + 5) + (15 + 1 + 4 + 6));

    let mut r = ByteReader::new(out);
    let back = Header::read(&mut r).unwrap();
    assert_eq!(back, h);
    let mut warnings: Vec<Warning> = Vec::new();
    for i in 0..2 {
        let it = read_item_at(&mut r, &back, i).unwrap();
        assert_eq!(it.type_byte, items[i].type_byte);
        let d = read_item_data_for(&mut r, &back, &it, &mut warnings).unwrap();
        assert_eq!(d, streams[i]);
    }
    assert!(warnings.is_empty());
}

#[test]
fn second_item_points_past_first_stream() {
    let items = vec![item(0), item(0)];
    let streams = vec![data(b"A", 1), data(b"B", 1)];
    let mut out = Vec::new();
    write_file(&template(), &items, &streams, &mut out).unwrap();
    let mut r = ByteReader::new(out);
    let h = Header::read(&mut r).unwrap();
    let second = read_item_at(&mut r, &h, 1).unwrap();
    assert_eq!(second.points_offset, 5 + 1 + 4 + 1);
}

#[test]
fn empty_file_layout() {
    let mut out = Vec::new();
    let h = write_file(&template(), &vec![], &vec![], &mut out).unwrap();
    assert_eq!(h.hdr_items, 0);
    assert_eq!(h.data_offset, 210);
    assert_eq!(out.len(), 210);
}

#[test]
fn item_index_beyond_file_is_eof() {
    let mut out = Vec::new();
    write_file(&template(), &vec![item(1)], &vec![data(b"A", 1)], &mut out).unwrap();
    let mut r = ByteReader::new(out);
    let h = Header::read(&mut r).unwrap();
    assert_eq!(read_item_at(&mut r, &h, 1000), Err(Error::UnexpectedEof));
    let bad = Item { points_offset: -1000, ..item(1) };
    let mut w = Vec::new();
    assert_eq!(read_item_data_for(&mut r, &h, &bad, &mut w), Err(Error::UnexpectedEof));
}

#[test]
fn read_items_reads_the_whole_table() {
    let items = vec![item(0x01), item(0x02), item(0x03)];
    let streams = vec![data(b"A", 1), data(b"B", 0), data(b"C", 2)];
    let mut out = Vec::new();
    write_file(&template(), &items, &streams, &mut out).unwrap();
    let mut r = ByteReader::new(out);
    let h = Header::read(&mut r).unwrap();
    let back = read_items(&mut r, &h).unwrap();
    assert_eq!(back.len(), 3);
    assert_eq!(back.iter().map(|i| i.type_byte).collect::<Vec<_>>(), vec![1, 2, 3]);
    assert!(h.warnings().is_empty());

    let mut short = r.into_inner();
    short.truncate(210 + 43 + 20);
    let mut r = ByteReader::new(short);
    assert_eq!(read_items(&mut r, &h), Err(Error::UnexpectedEof));
}

#[test]
fn oversized_items_warn() {
    let h = Header { size_of_item: 50, ..template() };
    assert_eq!(h.warnings(), vec![Warning::OversizedItem { size_of_item: 50 }]);
}
