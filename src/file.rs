//! Whole files: locating items and their streams, and laying a file out.
use vstd::prelude::*;

use crate::enums::{
    encode_notam_time, notam_minutes, notam_time_in_range, AltStyle, ByteOrder, CubClass, CubStyle,
    DateTime, DaysActive,
};
use crate::error::{Error, Warning};
use crate::header::{encode_header, Header, HeaderView, HEADER_SIZE, MIN_SIZE_OF_ITEM, MIN_SIZE_OF_POINT};
use crate::io::{push_all, ByteReader};
use crate::item::{decode_item, encode_item, Item};
use crate::item_data::{encode_item_data, parse_item_data, ItemData, ItemDataView, ParseState};

verus! {

/// Offset of item `index` in a file whose items take `size_of_item` bytes.
pub open spec fn item_offset(size_of_item: i32, index: int) -> int {
    HEADER_SIZE + index * size_of_item
}

/// Offset of an item's stream: the data section plus the item's offset.
pub open spec fn stream_offset(header: Header, item: Item) -> int {
    header.data_offset + item.points_offset
}

/// What reading item `index` of the item table of `bytes` gives.
pub open spec fn item_at(bytes: Seq<u8>, header: Header, index: int) -> Result<Item, Error> {
    let off = item_offset(header.size_of_item, index);
    if off > bytes.len() {
        Err(Error::UnexpectedEof)
    } else {
        decode_item(
            bytes.subrange(off, bytes.len() as int),
            header.size_of_item,
            ByteOrder::from_selector(header.pc_byte_order),
        )
    }
}

/// Reads item `index` of the item table.
pub fn read_item_at(reader: &mut ByteReader, header: &Header, index: usize) -> (r: Result<
    Item,
    Error,
>)
    requires
        header.size_of_item >= MIN_SIZE_OF_ITEM,
    ensures
        final(reader).bytes() == old(reader).bytes(),
        r == item_at(old(reader).bytes(), *header, index as int),
{
    let len = reader.len();
    let soi = header.size_of_item as usize;
    if len < HEADER_SIZE {
        proof {
            assert(index * soi >= 0) by (nonlinear_arith)
                requires
                    index >= 0,
                    soi > 0,
            ;
        }
        return Err(Error::UnexpectedEof);
    }
    let room = len - HEADER_SIZE;
    let q = room / soi;
    if index > q {
        proof {
            let (i, sz, rm, qq) = (index as int, soi as int, room as int, q as int);
            assert(i * sz > rm) by (nonlinear_arith)
                requires
                    i > qq,
                    qq == rm / sz,
                    sz > 0,
                    rm >= 0,
            ;
        }
        return Err(Error::UnexpectedEof);
    }
    proof {
        let (i, sz, rm, qq) = (index as int, soi as int, room as int, q as int);
        assert(i * sz <= rm) by (nonlinear_arith)
            requires
                i <= qq,
                qq == rm / sz,
                sz > 0,
                rm >= 0,
        ;
    }
    reader.seek(HEADER_SIZE + index * soi);
    Item::read(reader, header)
}

/// Reads the whole item table: `header.hdr_items` items (none when the
/// count is negative), stopping at the first that cannot be read.
pub fn read_items(reader: &mut ByteReader, header: &Header) -> (r: Result<Vec<Item>, Error>)
    requires
        header.size_of_item >= MIN_SIZE_OF_ITEM,
    ensures
        final(reader).bytes() == old(reader).bytes(),
        match r {
            Ok(v) => v@.len() == (if header.hdr_items < 0 {
                0
            } else {
                header.hdr_items as int
            }) && forall|k: int|
                0 <= k < v@.len() ==> #[trigger] item_at(old(reader).bytes(), *header, k) == Ok::<
                    Item,
                    Error,
                >(v@[k]),
            Err(e) => exists|k: int|
                0 <= k < header.hdr_items && #[trigger] item_at(old(reader).bytes(), *header, k)
                    == Err::<Item, Error>(e),
        },
{
    let n: usize = if header.hdr_items < 0 {
        0
    } else {
        header.hdr_items as usize
    };
    let mut items: Vec<Item> = Vec::new();
    let mut i: usize = 0;
    while i < n
        invariant
            i <= n,
            n == (if header.hdr_items < 0 {
                0
            } else {
                header.hdr_items as int
            }),
            header.size_of_item >= MIN_SIZE_OF_ITEM,
            reader.bytes() == old(reader).bytes(),
            items@.len() == i,
            forall|k: int|
                0 <= k < i ==> #[trigger] item_at(old(reader).bytes(), *header, k) == Ok::<
                    Item,
                    Error,
                >(items@[k]),
        decreases n - i,
    {
        match read_item_at(reader, header, i) {
            Ok(it) => items.push(it),
            Err(e) => {
                assert(item_at(old(reader).bytes(), *header, i as int) == Err::<Item, Error>(e));
                return Err(e);
            },
        }
        i += 1;
    }
    Ok(items)
}

/// Reads the stream of `item`, at the data offset plus the item's offset.
/// An offset before the start of the file is an end-of-file error.
pub fn read_item_data_for(
    reader: &mut ByteReader,
    header: &Header,
    item: &Item,
    warnings: &mut Vec<Warning>,
) -> (r: Result<ItemData, Error>)
    ensures
        final(reader).bytes() == old(reader).bytes(),
        ({
            let off = stream_offset(*header, *item);
            let res = parse_item_data(
                old(reader).bytes(),
                off,
                ByteOrder::from_selector(header.pc_byte_order),
                header.size_of_point,
            );
            if off < 0 {
                r == Err::<ItemData, Error>(Error::UnexpectedEof)
            } else {
                match r {
                    Ok(d) => res is Ok && res->Ok_0.data == d@ && final(warnings)@ == old(
                        warnings,
                    )@ + res->Ok_0.warnings,
                    Err(e) => res == Err::<ParseState, Error>(e),
                }
            }
        }),
{
    let off = header.data_offset as i64 + item.points_offset as i64;
    if off < 0 {
        return Err(Error::UnexpectedEof);
    }
    let len = reader.len();
    let pos: usize = if off as u64 > len as u64 {
        len
    } else {
        off as usize
    };
    proof {
        if off > len {
            let o = ByteOrder::from_selector(header.pc_byte_order);
            let a = parse_item_data(reader.bytes(), off as int, o, header.size_of_point);
            let b = parse_item_data(reader.bytes(), len as int, o, header.size_of_point);
            assert(a is Ok && b is Ok && a->Ok_0.data == b->Ok_0.data && a->Ok_0.warnings
                == b->Ok_0.warnings);
        }
    }
    reader.seek(pos);
    ItemData::read(reader, header, warnings)
}

} // verus!

verus! {

/// The views of a list of streams.
pub open spec fn data_views(ds: Seq<ItemData>) -> Seq<ItemDataView> {
    ds.map_values(|d: ItemData| d@)
}

/// The data section made of the first `k` streams.
pub open spec fn data_prefix(ds: Seq<ItemDataView>, o: ByteOrder, sop: i32, k: int) -> Seq<u8>
    decreases k,
{
    if k <= 0 {
        Seq::empty()
    } else {
        data_prefix(ds, o, sop, k - 1) + encode_item_data(ds[k - 1], o, sop)
    }
}

/// Item `i` with its stream offset set to where its stream starts.
pub open spec fn placed_item(
    items: Seq<Item>,
    ds: Seq<ItemDataView>,
    o: ByteOrder,
    sop: i32,
    i: int,
) -> Item {
    Item { points_offset: data_prefix(ds, o, sop, i).len() as i32, ..items[i] }
}

/// The item table made of the first `k` items, each pointing at its stream.
pub open spec fn items_prefix(
    items: Seq<Item>,
    ds: Seq<ItemDataView>,
    soi: i32,
    o: ByteOrder,
    sop: i32,
    k: int,
) -> Seq<u8>
    decreases k,
{
    if k <= 0 {
        Seq::empty()
    } else {
        items_prefix(items, ds, soi, o, sop, k - 1) + encode_item(
            placed_item(items, ds, o, sop, k - 1),
            soi,
            o,
        )
    }
}

/// Whether the offsets and the count of a file fit their 32-bit fields.
pub open spec fn layout_fits(
    items: Seq<Item>,
    ds: Seq<ItemDataView>,
    soi: i32,
    o: ByteOrder,
    sop: i32,
) -> bool {
    &&& items.len() <= i32::MAX
    &&& forall|k: int| 0 <= k < items.len() ==> #[trigger] data_prefix(ds, o, sop, k).len() <= i32::MAX
    &&& HEADER_SIZE + items_prefix(items, ds, soi, o, sop, items.len() as int).len() <= i32::MAX
}

/// The header of the laid-out file: the template with the item count and the
/// data offset filled in.
pub open spec fn placed_header(h: HeaderView, n: int, items_len: int) -> HeaderView {
    HeaderView { hdr_items: n as i32, data_offset: (HEADER_SIZE + items_len) as i32, ..h }
}

/// Lays out a whole file after `out`: the header, the item table, then the
/// concatenated streams. Each item's stream offset is where its stream
/// starts in the data section; the header's item count and data offset are
/// filled in, the rest of it is taken from `header`. Returns the header that
/// was written.
pub fn write_file(
    header: &Header,
    items: &Vec<Item>,
    data: &Vec<ItemData>,
    out: &mut Vec<u8>,
) -> (r: Result<Header, Error>)
    requires
        header.size_of_item >= MIN_SIZE_OF_ITEM,
        header.size_of_point >= MIN_SIZE_OF_POINT,
        items@.len() == data@.len(),
    ensures
        ({
            let o = ByteOrder::from_selector(header.pc_byte_order);
            let ds = data_views(data@);
            let soi = header.size_of_item;
            let sop = header.size_of_point;
            let n = items@.len() as int;
            match r {
                Ok(h) => layout_fits(items@, ds, soi, o, sop) && h@ == placed_header(
                    header@,
                    n,
                    items_prefix(items@, ds, soi, o, sop, n).len() as int,
                ) && final(out)@ == old(out)@ + encode_header(h@) + items_prefix(
                    items@,
                    ds,
                    soi,
                    o,
                    sop,
                    n,
                ) + data_prefix(ds, o, sop, n),
                Err(e) => !layout_fits(items@, ds, soi, o, sop) && e == Error::OffsetOverflow,
            }
        }),
{
    let order = header.byte_order();
    let ghost o = ByteOrder::from_selector(header.pc_byte_order);
    let ghost ds = data_views(data@);
    let ghost soi = header.size_of_item;
    let ghost sop = header.size_of_point;
    let n = items.len();
    if n > i32::MAX as usize {
        return Err(Error::OffsetOverflow);
    }
    let mut item_buf: Vec<u8> = Vec::new();
    let mut data_buf: Vec<u8> = Vec::new();
    let mut i: usize = 0;
    while i < n
        invariant
            n == items@.len(),
            n == data@.len(),
            n <= i32::MAX,
            i <= n,
            order == o,
            ds == data_views(data@),
            soi == header.size_of_item,
            sop == header.size_of_point,
            header.size_of_item >= MIN_SIZE_OF_ITEM,
            header.size_of_point >= MIN_SIZE_OF_POINT,
            o == ByteOrder::from_selector(header.pc_byte_order),
            data_buf@ == data_prefix(ds, o, sop, i as int),
            item_buf@ == items_prefix(items@, ds, soi, o, sop, i as int),
            forall|k: int| 0 <= k < i ==> #[trigger] data_prefix(ds, o, sop, k).len() <= i32::MAX,
        decreases n - i,
    {
        let off = data_buf.len();
        if off > i32::MAX as usize {
            return Err(Error::OffsetOverflow);
        }
        let it = Item { points_offset: off as i32, ..items[i] };
        let _ = it.write(&mut item_buf, header);
        let _ = data[i].write(&mut data_buf, header);
        assert(ds[i as int] == data@[i as int]@);
        i += 1;
    }
    let items_len = item_buf.len();
    if items_len > i32::MAX as usize - HEADER_SIZE {
        return Err(Error::OffsetOverflow);
    }
    let placed = Header {
        title: header.title.duplicate(),
        hdr_items: n as i32,
        data_offset: (HEADER_SIZE + items_len) as i32,
        ..*header
    };
    let _ = placed.write(out);
    push_all(out, &item_buf);
    push_all(out, &data_buf);
    Ok(placed)
}

} // verus!

verus! {

/// The type byte of a style and a class: style bits, class in bits 4 to 6.
pub fn encode_type_byte(style: CubStyle, class: CubClass) -> (r: u8)
    ensures
        r == style.code() | (class.code() << 4u8),
        CubStyle::from_type_byte_spec(r) == style,
        (r >> 4u8) & 0x07 == class.code(),
{
    let s = style.as_byte();
    let c = class.as_byte();
    let r = s | (c << 4u8);
    proof {
        assert(s < 0x10 || (0x80 <= s && s < 0x90));
        assert(c <= 7);
        assert(r & 0x8f == s && (r >> 4u8) & 0x07 == c) by (bit_vector)
            requires
                r == s | (c << 4u8),
                s < 0x10 || (0x80 <= s && s < 0x90),
                c <= 7,
        ;
        CubStyle::lemma_code_distinct(style);
    }
    r
}

/// The altitude-style byte of two references: lower limit in the low
/// nibble, upper limit in the high nibble.
pub fn encode_alt_style_byte(min: AltStyle, max: AltStyle) -> (r: u8)
    ensures
        r == min.code() | (max.code() << 4u8),
        r & 0x0f == min.code(),
        r >> 4u8 == max.code(),
{
    let a = min.as_nibble();
    let b = max.as_nibble();
    let r = a | (b << 4u8);
    proof {
        assert(a <= 5 && b <= 5);
        assert(r & 0x0f == a && r >> 4u8 == b) by (bit_vector)
            requires
                r == a | (b << 4u8),
                a <= 15,
                b <= 15,
        ;
    }
    r
}

/// The encoded minutes of an optional time, or `none` without one.
pub open spec fn minutes_or(dt: Option<DateTime>, none: int) -> int {
    match dt {
        Some(d) => notam_minutes(d),
        None => none,
    }
}

/// Whether an optional time can stand in a 26-bit field of the active time.
pub open spec fn fits_active_time(dt: Option<DateTime>) -> bool {
    match dt {
        Some(d) => notam_time_in_range(d) && notam_minutes(d) < 0x3ffffff,
        None => true,
    }
}

/// The active time of an item: activity flags in the top twelve bits, the
/// start time (zero for none) in the next 26, the end time (all ones for
/// none) in the low 26.
pub fn encode_active_time(
    start_date: Option<DateTime>,
    end_date: Option<DateTime>,
    days: &DaysActive,
) -> (r: u64)
    requires
        fits_active_time(start_date),
        fits_active_time(end_date),
    ensures
        (r >> 52u64) as u16 == days.bits() & 0xfff,
        (r >> 26u64) & 0x3ffffff == minutes_or(start_date, 0),
        r & 0x3ffffff == minutes_or(end_date, 0x3ffffff),
{
    let d = (days.as_bits() & 0xfff) as u64;
    let s: u64 = match start_date {
        Some(dt) => encode_notam_time(&dt) as u64,
        None => 0,
    };
    let e: u64 = match end_date {
        Some(dt) => encode_notam_time(&dt) as u64,
        None => 0x3ffffff,
    };
    let r = (d << 52u64) | (s << 26u64) | e;
    proof {
        let bits = days.bits();
        assert(d == (bits & 0xfff) as u64);
        assert((r >> 52u64) as u16 == bits & 0xfff && (r >> 26u64) & 0x3ffffff == s && r
            & 0x3ffffff == e) by (bit_vector)
            requires
                r == (d << 52u64) | (s << 26u64) | e,
                d == (bits & 0xfff) as u64,
                s <= 0x3ffffff,
                e <= 0x3ffffff,
        ;
    }
    r
}

} // verus!
