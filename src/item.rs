//! Item records: one fixed-layout metadata record per airspace.
use vstd::prelude::*;

use crate::bounding_box::{box_bytes, BoundingBox};
use crate::enums::{
    AltStyle, ByteOrder, CubClass, CubStyle, DateTime, DaysActive, ExtendedType, NotamCodes,
    NotamScope, NotamTraffic, NotamType, decode_notam_time, decode_notam_time_spec, notam_codes_of,
};
use crate::error::Error;
use crate::header::{i32_at, u32_at, Header, MIN_SIZE_OF_ITEM};
use crate::io::{
    get_bytes, get_i16, get_i32, get_u32, get_u64, i16_bytes, i16_value, i32_bytes, push_all,
    push_zeros, read_bytes, u32_bytes, u64_bytes, u64_value, write_i16, write_i32, write_u32,
    write_u64, write_u8, ByteReader,
};

verus! {

/// The size of the item structure understood here. Files may use larger
/// records (the rest is skipped) or smaller ones (the rest reads as zero).
pub const ITEM_STRUCT_SIZE: usize = 43;

/// The `active_time` value that stands for "no end date"; a stored zero
/// reads as this.
pub const NO_END_DATE: u64 = 0x3FFFFFF;

/// One airspace's metadata record. The bit-packed fields are kept raw;
/// accessor methods decode them.
#[derive(Debug, Clone, Copy, PartialEq, Eq, Structural)]
pub struct Item {
    /// Rectangle around the airspace; its left/bottom corner is the first
    /// origin of the geometry.
    pub bounding_box: BoundingBox,
    /// Low nibble and top bit: style; bits 4 to 6: ICAO class.
    pub type_byte: u8,
    /// Low nibble: reference of the lower limit; high nibble: of the upper.
    pub alt_style_byte: u8,
    /// Lower altitude limit.
    pub min_alt: i16,
    /// Upper altitude limit.
    pub max_alt: i16,
    /// Offset of the geometry stream within the data section.
    pub points_offset: i32,
    /// Carried through unchanged.
    pub time_out: i32,
    /// NOTAM fields, when its top two bits are clear and it is not zero.
    pub extra_data: u32,
    /// Top 12 bits: active days; next 26: start time; low 26: end time.
    pub active_time: u64,
    /// Extended type; zero for none.
    pub extended_type_byte: u8,
}

/// How many bytes of a record of `size_of_item` bytes hold the structure.
pub open spec fn head_len(size_of_item: i32) -> int {
    if 0 <= size_of_item < ITEM_STRUCT_SIZE {
        size_of_item as int
    } else {
        ITEM_STRUCT_SIZE as int
    }
}

/// How many bytes of a record of `size_of_item` bytes are skipped.
pub open spec fn tail_len(size_of_item: i32) -> int {
    if size_of_item > ITEM_STRUCT_SIZE {
        size_of_item - ITEM_STRUCT_SIZE
    } else {
        0
    }
}

/// The fields of a 43-byte item structure.
pub open spec fn item_fields(s: Seq<u8>, o: ByteOrder) -> Item {
    let active = u64_value(s.subrange(34, 42), o);
    Item {
        bounding_box: BoundingBox {
            left: u32_at(s, 0, ByteOrder::LE),
            top: u32_at(s, 4, ByteOrder::LE),
            right: u32_at(s, 8, ByteOrder::LE),
            bottom: u32_at(s, 12, ByteOrder::LE),
        },
        type_byte: s[16],
        alt_style_byte: s[17],
        min_alt: i16_value(s.subrange(18, 20), o),
        max_alt: i16_value(s.subrange(20, 22), o),
        points_offset: i32_at(s, 22, o),
        time_out: i32_at(s, 26, o),
        extra_data: u32_at(s, 30, o),
        active_time: if active == 0 {
            NO_END_DATE
        } else {
            active
        },
        extended_type_byte: s[42],
    }
}

/// What reading an item record of `size_of_item` bytes from `s` gives: the
/// structure bytes are zero-padded to 43, extra bytes are skipped.
pub open spec fn decode_item(s: Seq<u8>, size_of_item: i32, o: ByteOrder) -> Result<Item, Error> {
    let n = head_len(size_of_item);
    if s.len() < n + tail_len(size_of_item) {
        Err(Error::UnexpectedEof)
    } else {
        Ok(
            item_fields(
                s.subrange(0, n) + Seq::new((ITEM_STRUCT_SIZE - n) as nat, |i: int| 0u8),
                o,
            ),
        )
    }
}

/// The 43 bytes of the item structure.
pub open spec fn item_struct_bytes(it: Item, o: ByteOrder) -> Seq<u8> {
    box_bytes(it.bounding_box) + seq![it.type_byte, it.alt_style_byte] + i16_bytes(it.min_alt, o)
        + i16_bytes(it.max_alt, o) + i32_bytes(it.points_offset, o) + i32_bytes(it.time_out, o)
        + u32_bytes(it.extra_data, o) + u64_bytes(it.active_time, o) + seq![it.extended_type_byte]
}

/// The record of `size_of_item` bytes that encodes an item: the structure,
/// cut short or zero-padded to the record size.
pub open spec fn encode_item(it: Item, size_of_item: i32, o: ByteOrder) -> Seq<u8> {
    let full = item_struct_bytes(it, o);
    if size_of_item < ITEM_STRUCT_SIZE {
        full.subrange(0, size_of_item as int)
    } else {
        full + Seq::new((size_of_item - ITEM_STRUCT_SIZE) as nat, |i: int| 0u8)
    }
}

/// An item record written with a record size of at least 43 bytes reads back
/// as the same item (an `active_time` of zero reads as [`NO_END_DATE`], so it
/// is left out).
pub proof fn lemma_item_round_trip(it: Item, size_of_item: i32, o: ByteOrder, rest: Seq<u8>)
    requires
        size_of_item >= ITEM_STRUCT_SIZE,
        it.active_time != 0,
    ensures
        encode_item(it, size_of_item, o).len() == size_of_item,
        decode_item(encode_item(it, size_of_item, o) + rest, size_of_item, o) == Ok::<Item, Error>(
            it,
        ),
{
    let full = item_struct_bytes(it, o);
    let s = encode_item(it, size_of_item, o) + rest;
    let b = it.bounding_box;
    crate::io::lemma_u32_round_trip(b.left, ByteOrder::LE);
    crate::io::lemma_u32_round_trip(b.top, ByteOrder::LE);
    crate::io::lemma_u32_round_trip(b.right, ByteOrder::LE);
    crate::io::lemma_u32_round_trip(b.bottom, ByteOrder::LE);
    crate::io::lemma_i16_round_trip(it.min_alt, o);
    crate::io::lemma_i16_round_trip(it.max_alt, o);
    crate::io::lemma_i32_round_trip(it.points_offset, o);
    crate::io::lemma_i32_round_trip(it.time_out, o);
    crate::io::lemma_u32_round_trip(it.extra_data, o);
    crate::io::lemma_u64_round_trip(it.active_time, o);
    assert(full.len() == 43);
    let p = s.subrange(0, 43) + Seq::new(0, |i: int| 0u8);
    assert(p =~= full);
    assert(full.subrange(0, 4) =~= crate::io::le4(b.left));
    assert(full.subrange(4, 8) =~= crate::io::le4(b.top));
    assert(full.subrange(8, 12) =~= crate::io::le4(b.right));
    assert(full.subrange(12, 16) =~= crate::io::le4(b.bottom));
    assert(full.subrange(18, 20) =~= i16_bytes(it.min_alt, o));
    assert(full.subrange(20, 22) =~= i16_bytes(it.max_alt, o));
    assert(full.subrange(22, 26) =~= i32_bytes(it.points_offset, o));
    assert(full.subrange(26, 30) =~= i32_bytes(it.time_out, o));
    assert(full.subrange(30, 34) =~= u32_bytes(it.extra_data, o));
    assert(full.subrange(34, 42) =~= u64_bytes(it.active_time, o));
    assert(item_fields(full, o) == it);
}

/// An item record shorter than the structure (but at least the minimum of
/// 26 bytes) still gives back every field that lies within it: the box, the
/// type and altitude-style bytes, both altitude limits and the stream offset.
pub proof fn lemma_short_item_round_trip(it: Item, size_of_item: i32, o: ByteOrder, rest: Seq<u8>)
    requires
        MIN_SIZE_OF_ITEM <= size_of_item < ITEM_STRUCT_SIZE,
    ensures
        ({
            let r = decode_item(encode_item(it, size_of_item, o) + rest, size_of_item, o);
            &&& r is Ok
            &&& r->Ok_0.bounding_box == it.bounding_box
            &&& r->Ok_0.type_byte == it.type_byte
            &&& r->Ok_0.alt_style_byte == it.alt_style_byte
            &&& r->Ok_0.min_alt == it.min_alt
            &&& r->Ok_0.max_alt == it.max_alt
            &&& r->Ok_0.points_offset == it.points_offset
        }),
{
    let full = item_struct_bytes(it, o);
    let n = size_of_item as int;
    let s = encode_item(it, size_of_item, o) + rest;
    let p = s.subrange(0, n) + Seq::new((ITEM_STRUCT_SIZE - n) as nat, |i: int| 0u8);
    let b = it.bounding_box;
    crate::io::lemma_u32_round_trip(b.left, ByteOrder::LE);
    crate::io::lemma_u32_round_trip(b.top, ByteOrder::LE);
    crate::io::lemma_u32_round_trip(b.right, ByteOrder::LE);
    crate::io::lemma_u32_round_trip(b.bottom, ByteOrder::LE);
    crate::io::lemma_i16_round_trip(it.min_alt, o);
    crate::io::lemma_i16_round_trip(it.max_alt, o);
    crate::io::lemma_i32_round_trip(it.points_offset, o);
    assert(full.len() == 43);
    assert(p.subrange(0, 26) =~= full.subrange(0, 26));
    assert(full.subrange(0, 4) =~= crate::io::le4(b.left));
    assert(full.subrange(4, 8) =~= crate::io::le4(b.top));
    assert(full.subrange(8, 12) =~= crate::io::le4(b.right));
    assert(full.subrange(12, 16) =~= crate::io::le4(b.bottom));
    assert(full.subrange(18, 20) =~= i16_bytes(it.min_alt, o));
    assert(full.subrange(20, 22) =~= i16_bytes(it.max_alt, o));
    assert(full.subrange(22, 26) =~= i32_bytes(it.points_offset, o));
    assert(p.subrange(0, 4) =~= full.subrange(0, 4));
    assert(p.subrange(4, 8) =~= full.subrange(4, 8));
    assert(p.subrange(8, 12) =~= full.subrange(8, 12));
    assert(p.subrange(12, 16) =~= full.subrange(12, 16));
    assert(p.subrange(18, 20) =~= full.subrange(18, 20));
    assert(p.subrange(20, 22) =~= full.subrange(20, 22));
    assert(p.subrange(22, 26) =~= full.subrange(22, 26));
    assert(p[16] == it.type_byte && p[17] == it.alt_style_byte);
}

impl Item {
    /// Reads an item record of `header.size_of_item` bytes.
    pub fn read(reader: &mut ByteReader, header: &Header) -> (r: Result<Item, Error>)
        ensures
            final(reader).bytes() == old(reader).bytes(),
            old(reader).has(0) ==> r == decode_item(
                old(reader).rest(),
                header.size_of_item,
                ByteOrder::from_selector(header.pc_byte_order),
            ),
            !old(reader).has(0) ==> r == Err::<Item, Error>(Error::UnexpectedEof),
            r is Ok ==> final(reader).pos() == old(reader).pos() + head_len(header.size_of_item)
                + tail_len(header.size_of_item),
    {
        let ghost s = old(reader).rest();
        let soi = header.size_of_item;
        let n: usize = if 0 <= soi && soi < ITEM_STRUCT_SIZE as i32 {
            soi as usize
        } else {
            ITEM_STRUCT_SIZE
        };
        let head = match read_bytes(reader, n) {
            Ok(v) => v,
            Err(e) => return Err(e),
        };
        if soi > ITEM_STRUCT_SIZE as i32 {
            let extra = (soi - ITEM_STRUCT_SIZE as i32) as usize;
            if let Err(e) = read_bytes(reader, extra) {
                return Err(e);
            }
        }
        let mut buf = head;
        push_zeros(&mut buf, ITEM_STRUCT_SIZE - n);
        assert(buf@.len() == ITEM_STRUCT_SIZE);
        let order = header.byte_order();
        let raw_active = get_u64(&buf, 34, order);
        let item = Item {
            bounding_box: BoundingBox {
                left: get_u32(&buf, 0, ByteOrder::LE),
                top: get_u32(&buf, 4, ByteOrder::LE),
                right: get_u32(&buf, 8, ByteOrder::LE),
                bottom: get_u32(&buf, 12, ByteOrder::LE),
            },
            type_byte: buf[16],
            alt_style_byte: buf[17],
            min_alt: get_i16(&buf, 18, order),
            max_alt: get_i16(&buf, 20, order),
            points_offset: get_i32(&buf, 22, order),
            time_out: get_i32(&buf, 26, order),
            extra_data: get_u32(&buf, 30, order),
            active_time: if raw_active == 0 {
                NO_END_DATE
            } else {
                raw_active
            },
            extended_type_byte: buf[42],
        };
        proof {
            assert(s.subrange(0, n as int) =~= old(reader).ahead(n as int));
            assert(buf@ =~= s.subrange(0, n as int) + Seq::new(
                (ITEM_STRUCT_SIZE - n) as nat,
                |i: int| 0u8,
            ));
        }
        Ok(item)
    }

    /// Appends the item as a record of `header.size_of_item` bytes and
    /// returns that size.
    pub fn write(&self, out: &mut Vec<u8>, header: &Header) -> (r: Result<usize, Error>)
        requires
            header.size_of_item >= MIN_SIZE_OF_ITEM,
        ensures
            final(out)@ == old(out)@ + encode_item(
                *self,
                header.size_of_item,
                ByteOrder::from_selector(header.pc_byte_order),
            ),
            r == Ok::<usize, Error>(header.size_of_item as usize),
    {
        let order = header.byte_order();
        let mut buf: Vec<u8> = Vec::new();
        let _ = self.bounding_box.write(&mut buf);
        assert(buf@ =~= box_bytes(self.bounding_box));
        let _ = write_u8(&mut buf, self.type_byte);
        let _ = write_u8(&mut buf, self.alt_style_byte);
        assert(buf@ =~= box_bytes(self.bounding_box) + seq![self.type_byte, self.alt_style_byte]);
        let _ = write_i16(&mut buf, self.min_alt, order);
        let _ = write_i16(&mut buf, self.max_alt, order);
        let _ = write_i32(&mut buf, self.points_offset, order);
        let _ = write_i32(&mut buf, self.time_out, order);
        let _ = write_u32(&mut buf, self.extra_data, order);
        let _ = write_u64(&mut buf, self.active_time, order);
        let _ = write_u8(&mut buf, self.extended_type_byte);
        assert(buf@ =~= item_struct_bytes(*self, order));
        let size = header.size_of_item as usize;
        if size < ITEM_STRUCT_SIZE {
            let cut = get_bytes(&buf, 0, size);
            push_all(out, &cut);
        } else {
            push_all(out, &buf);
            push_zeros(out, size - ITEM_STRUCT_SIZE);
            assert(final(out)@ =~= old(out)@ + encode_item(*self, header.size_of_item, order));
        }
        Ok(size)
    }
}

/// Whether extra data holds NOTAM fields: top two bits clear, not zero.
pub open spec fn is_notam(extra_data: u32) -> bool {
    (extra_data >> 30u32) == 0 && extra_data != 0
}

impl Item {
    /// The style, from the type byte.
    pub fn style(&self) -> (r: CubStyle)
        ensures
            r.code() == (self.type_byte & 0x8f) || (r == CubStyle::Unknown && forall|s: CubStyle|
                #[trigger] s.code() != (self.type_byte & 0x8f)),
    {
        CubStyle::from_type_byte(self.type_byte)
    }

    /// The ICAO class, from the type byte.
    pub fn class(&self) -> (r: CubClass)
        ensures
            r.code() == (self.type_byte >> 4u8) & 0x07,
    {
        CubClass::from_type_byte(self.type_byte)
    }

    /// The reference of the lower limit (low nibble of the altitude-style byte).
    pub fn min_alt_style(&self) -> (r: AltStyle)
        ensures
            r.code() == (self.alt_style_byte & 0x0f) || (r == AltStyle::Unknown && (
            self.alt_style_byte & 0x0f) > 5),
    {
        let b = self.alt_style_byte;
        assert((b & 0x0f) & 0x0f == b & 0x0f) by (bit_vector);
        AltStyle::from_nibble(b & 0x0f)
    }

    /// The reference of the upper limit (high nibble of the altitude-style byte).
    pub fn max_alt_style(&self) -> (r: AltStyle)
        ensures
            r.code() == (self.alt_style_byte >> 4u8) || (r == AltStyle::Unknown && (
            self.alt_style_byte >> 4u8) > 5),
    {
        let b = self.alt_style_byte;
        let v = (b >> 4u8) & 0x0f;
        assert(v & 0x0f == b >> 4u8 && v == b >> 4u8) by (bit_vector)
            requires
                v == (b >> 4u8) & 0x0f,
        ;
        AltStyle::from_nibble(v)
    }

    /// The extended type; none for zero or an unknown byte.
    pub fn extended_type(&self) -> (r: Option<ExtendedType>)
        ensures
            match r {
                Some(t) => t.code() == self.extended_type_byte,
                None => forall|t: ExtendedType| #[trigger] t.code() != self.extended_type_byte,
            },
    {
        ExtendedType::from_byte(self.extended_type_byte)
    }

    /// The activity flags: the top twelve bits of the active time.
    pub fn days_active(&self) -> (r: DaysActive)
        ensures
            r.bits() == (self.active_time >> 52u64) as u16,
    {
        let t = self.active_time;
        let bits = ((t >> 52u64) & 0xfff) as u16;
        assert((t >> 52u64) & 0xfff == t >> 52u64) by (bit_vector);
        DaysActive::from_bits(bits)
    }

    /// The start time (bits 26 to 51 of the active time); none when zero.
    pub fn start_date(&self) -> (r: Option<DateTime>)
        ensures
            ({
                let v = ((self.active_time >> 26u64) & 0x3ffffff) as u32;
                if v == 0 {
                    r is None
                } else {
                    r == Some(decode_notam_time_spec(v))
                }
            }),
    {
        let value = ((self.active_time >> 26u64) & 0x3ffffff) as u32;
        if value == 0 {
            None
        } else {
            Some(decode_notam_time(value))
        }
    }

    /// The end time (low 26 bits of the active time); none when all ones.
    pub fn end_date(&self) -> (r: Option<DateTime>)
        ensures
            ({
                let v = (self.active_time & 0x3ffffff) as u32;
                if v == 0x3ffffff {
                    r is None
                } else {
                    r == Some(decode_notam_time_spec(v))
                }
            }),
    {
        let value = (self.active_time & 0x3ffffff) as u32;
        if value == 0x3ffffff {
            None
        } else {
            Some(decode_notam_time(value))
        }
    }

    /// Whether the extra data holds NOTAM fields.
    pub fn has_notam_data(&self) -> (r: bool)
        ensures
            r == is_notam(self.extra_data),
    {
        (self.extra_data >> 30u32) == 0 && self.extra_data != 0
    }

    /// The NOTAM type, when the extra data holds NOTAM fields.
    pub fn notam_type(&self) -> (r: Option<NotamType>)
        ensures
            match r {
                Some(t) => is_notam(self.extra_data) && t.code() == (self.extra_data >> 28u32)
                    & 0x03,
                None => !is_notam(self.extra_data),
            },
    {
        if self.has_notam_data() {
            Some(NotamType::from_bits(self.extra_data))
        } else {
            None
        }
    }

    /// The NOTAM traffic, when the extra data holds NOTAM fields.
    pub fn notam_traffic(&self) -> (r: Option<NotamTraffic>)
        ensures
            match r {
                Some(t) => is_notam(self.extra_data) && (t.code() == (self.extra_data >> 4u32)
                    & 0x07 || (t == NotamTraffic::Miscellaneous && (self.extra_data >> 4u32) & 0x07
                    > 4)),
                None => !is_notam(self.extra_data),
            },
    {
        if self.has_notam_data() {
            Some(NotamTraffic::from_bits(self.extra_data))
        } else {
            None
        }
    }

    /// The NOTAM scope, when the extra data holds NOTAM fields.
    pub fn notam_scope(&self) -> (r: Option<NotamScope>)
        ensures
            match r {
                Some(t) => is_notam(self.extra_data) && (t.code() == self.extra_data & 0x0f || (t
                    == NotamScope::Unknown && forall|s: NotamScope| #[trigger] s.code()
                    != self.extra_data & 0x0f)),
                None => !is_notam(self.extra_data),
            },
    {
        if self.has_notam_data() {
            Some(NotamScope::from_bits(self.extra_data))
        } else {
            None
        }
    }

    /// The NOTAM subject and action codes of the extra data.
    pub fn notam_codes(&self) -> (r: Option<NotamCodes>)
        ensures
            r == notam_codes_of(self.extra_data),
    {
        NotamCodes::from_extra_data(self.extra_data)
    }

    /// The item's rectangle.
    pub fn bounding_box(&self) -> (r: &BoundingBox)
        ensures
            *r == self.bounding_box,
    {
        &self.bounding_box
    }
}

} // verus!
