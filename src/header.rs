//! The fixed 210-byte file header.
use vstd::prelude::*;

use crate::bounding_box::{box_bytes, BoundingBox};
use crate::byte_string::ByteString;
use crate::enums::ByteOrder;
use crate::error::{Error, Warning};
use crate::item::ITEM_STRUCT_SIZE;
use crate::io::{
    get_bytes, get_i32, get_u16, get_u32, i32_bytes, i32_value, le2, le4, push_all, push_zeros,
    read_bytes, u16_value, u32_bytes, u32_value, write_i32, write_u16, write_u32, write_u8,
    ByteReader,
};

verus! {

/// The magic value at the start of every CUB file (stored little-endian).
pub const FILE_IDENTIFIER: u32 = 0x425543C2;

/// The size of the header in bytes, which is also the offset of the item table.
pub const HEADER_SIZE: usize = 210;

/// The smallest accepted `size_of_item`: an item must reach its geometry offset.
pub const MIN_SIZE_OF_ITEM: i32 = 26;

/// The smallest accepted `size_of_point`: the size of one geometry record.
pub const MIN_SIZE_OF_POINT: i32 = 5;

/// The width of the title field.
pub const TITLE_SIZE: usize = 112;

/// The header as the contracts see it.
pub struct HeaderView {
    pub title: Seq<u8>,
    pub allowed_serials: Seq<u16>,
    pub pc_byte_order: u8,
    pub key: Seq<u8>,
    pub size_of_item: i32,
    pub size_of_point: i32,
    pub hdr_items: i32,
    pub max_pts: i32,
    pub bounding_box: BoundingBox,
    pub max_width: u32,
    pub max_height: u32,
    pub lo_la_scale: u32,
    pub data_offset: i32,
}

/// The file header. Floating-point fields hold IEEE-754 bit patterns.
#[derive(Debug, Clone, PartialEq, Eq)]
pub struct Header {
    /// Title, without its NUL padding.
    pub title: ByteString,
    /// Serial numbers allowed to open the file (always little-endian on disk).
    pub allowed_serials: [u16; 8],
    /// Byte-order selector: `0` is big-endian, anything else little-endian.
    pub pc_byte_order: u8,
    /// Opaque key, carried through unchanged.
    pub key: [u8; 16],
    /// Size of one item record.
    pub size_of_item: i32,
    /// Size of one geometry record.
    pub size_of_point: i32,
    /// Number of items.
    pub hdr_items: i32,
    /// Largest number of points of one item (advisory).
    pub max_pts: i32,
    /// Rectangle around all items.
    pub bounding_box: BoundingBox,
    /// Width of the widest item, as `f32` bits (advisory).
    pub max_width: u32,
    /// Height of the highest item, as `f32` bits (advisory).
    pub max_height: u32,
    /// Radians per unit of the 16-bit geometry offsets, as `f32` bits.
    pub lo_la_scale: u32,
    /// Offset of the data section.
    pub data_offset: i32,
}

impl View for Header {
    type V = HeaderView;

    open spec fn view(&self) -> HeaderView {
        HeaderView {
            title: self.title@,
            allowed_serials: self.allowed_serials@,
            pc_byte_order: self.pc_byte_order,
            key: self.key@,
            size_of_item: self.size_of_item,
            size_of_point: self.size_of_point,
            hdr_items: self.hdr_items,
            max_pts: self.max_pts,
            bounding_box: self.bounding_box,
            max_width: self.max_width,
            max_height: self.max_height,
            lo_la_scale: self.lo_la_scale,
            data_offset: self.data_offset,
        }
    }
}

/// `s` without its trailing NUL bytes.
pub open spec fn trim_nul(s: Seq<u8>) -> Seq<u8>
    decreases s.len(),
{
    if s.len() > 0 && s.last() == 0 {
        trim_nul(s.drop_last())
    } else {
        s
    }
}

/// The `u16` at `off` in `s`.
pub open spec fn u16_at(s: Seq<u8>, off: int, order: ByteOrder) -> u16 {
    u16_value(s.subrange(off, off + 2), order)
}

/// The `u32` at `off` in `s`.
pub open spec fn u32_at(s: Seq<u8>, off: int, order: ByteOrder) -> u32 {
    u32_value(s.subrange(off, off + 4), order)
}

/// The `i32` at `off` in `s`.
pub open spec fn i32_at(s: Seq<u8>, off: int, order: ByteOrder) -> i32 {
    i32_value(s.subrange(off, off + 4), order)
}

/// The byte order that the selector byte of header bytes `s` chooses.
pub open spec fn header_order(s: Seq<u8>) -> ByteOrder {
    ByteOrder::from_selector(s[132])
}

/// The fields of 210 header bytes.
pub open spec fn header_fields(s: Seq<u8>) -> HeaderView {
    let o = header_order(s);
    HeaderView {
        title: trim_nul(s.subrange(4, 116)),
        allowed_serials: Seq::new(8, |k: int| u16_at(s, 116 + 2 * k, ByteOrder::LE)),
        pc_byte_order: s[132],
        key: s.subrange(138, 154),
        size_of_item: i32_at(s, 154, o),
        size_of_point: i32_at(s, 158, o),
        hdr_items: i32_at(s, 162, o),
        max_pts: i32_at(s, 166, o),
        bounding_box: BoundingBox {
            left: u32_at(s, 170, ByteOrder::LE),
            top: u32_at(s, 174, ByteOrder::LE),
            right: u32_at(s, 178, ByteOrder::LE),
            bottom: u32_at(s, 182, ByteOrder::LE),
        },
        max_width: u32_at(s, 186, ByteOrder::LE),
        max_height: u32_at(s, 190, ByteOrder::LE),
        lo_la_scale: u32_at(s, 194, ByteOrder::LE),
        data_offset: i32_at(s, 202, o),
    }
}

/// What reading a header from bytes `s` gives. Checks come in file order:
/// the magic value, the encryption flag, the header offset, then the record
/// sizes; a file that ends before a check is reached is an end-of-file error.
pub open spec fn decode_header(s: Seq<u8>) -> Result<HeaderView, Error> {
    if s.len() < 4 {
        Err(Error::UnexpectedEof)
    } else if u32_at(s, 0, ByteOrder::LE) != FILE_IDENTIFIER {
        Err(Error::InvalidMagicBytes)
    } else if s.len() < 134 {
        Err(Error::UnexpectedEof)
    } else if s[133] != 0 {
        Err(Error::EncryptedFile)
    } else if s.len() < 202 {
        Err(Error::UnexpectedEof)
    } else if i32_at(s, 198, header_order(s)) != HEADER_SIZE as i32 {
        Err(Error::InvalidHeaderOffset { found: i32_at(s, 198, header_order(s)) })
    } else if s.len() < 210 {
        Err(Error::UnexpectedEof)
    } else if i32_at(s, 154, header_order(s)) < MIN_SIZE_OF_ITEM {
        Err(Error::UndersizedItems { size_of_item: i32_at(s, 154, header_order(s)) })
    } else if i32_at(s, 158, header_order(s)) < MIN_SIZE_OF_POINT {
        Err(Error::UndersizedPoints { size_of_point: i32_at(s, 158, header_order(s)) })
    } else {
        Ok(header_fields(s))
    }
}

/// The 112-byte title field: the title cut or NUL-padded to the width.
pub open spec fn title_field(t: Seq<u8>) -> Seq<u8> {
    if t.len() >= TITLE_SIZE {
        t.subrange(0, TITLE_SIZE as int)
    } else {
        t + Seq::new((TITLE_SIZE - t.len()) as nat, |i: int| 0u8)
    }
}

/// The sixteen bytes of the serial numbers.
pub open spec fn serial_bytes(s: Seq<u16>) -> Seq<u8> {
    le2(s[0]) + le2(s[1]) + le2(s[2]) + le2(s[3]) + le2(s[4]) + le2(s[5]) + le2(s[6]) + le2(s[7])
}

/// The 210 bytes that encode a header. The encryption flag, the CRC and the
/// alignment are written as zero, the header offset as [`HEADER_SIZE`].
pub open spec fn encode_header(h: HeaderView) -> Seq<u8> {
    let o = ByteOrder::from_selector(h.pc_byte_order);
    le4(FILE_IDENTIFIER) + title_field(h.title) + serial_bytes(h.allowed_serials) + seq![
        h.pc_byte_order,
        0u8,
    ] + u32_bytes(0, o) + h.key + i32_bytes(h.size_of_item, o) + i32_bytes(h.size_of_point, o)
        + i32_bytes(h.hdr_items, o) + i32_bytes(h.max_pts, o) + box_bytes(h.bounding_box) + le4(
        h.max_width,
    ) + le4(h.max_height) + le4(h.lo_la_scale) + i32_bytes(HEADER_SIZE as i32, o) + i32_bytes(
        h.data_offset,
        o,
    ) + i32_bytes(0, o)
}

/// A header that a file can hold and give back unchanged: a title that fits
/// and does not end in NUL, eight serials, a sixteen-byte key, and record
/// sizes that a reader accepts.
pub open spec fn header_is_valid(h: HeaderView) -> bool {
    &&& h.title.len() <= TITLE_SIZE
    &&& (h.title.len() == 0 || h.title.last() != 0)
    &&& h.allowed_serials.len() == 8
    &&& h.key.len() == 16
    &&& h.size_of_item >= MIN_SIZE_OF_ITEM
    &&& h.size_of_point >= MIN_SIZE_OF_POINT
}

/// Trimming the NUL padding off a padded title gives the title back.
proof fn lemma_trim_padded(t: Seq<u8>, n: nat)
    requires
        t.len() == 0 || t.last() != 0,
    ensures
        trim_nul(t + Seq::new(n, |i: int| 0u8)) == t,
    decreases n,
{
    let z = Seq::new(n, |i: int| 0u8);
    if n == 0 {
        assert(t + z =~= t);
        if t.len() > 0 {
            assert(trim_nul(t) == t);
        }
    } else {
        let z1 = Seq::new((n - 1) as nat, |i: int| 0u8);
        assert((t + z).drop_last() =~= t + z1);
        assert((t + z).last() == 0);
        lemma_trim_padded(t, (n - 1) as nat);
    }
}

/// Encoding a valid header and decoding the bytes gives the same header.
pub proof fn lemma_header_round_trip(h: HeaderView)
    requires
        header_is_valid(h),
    ensures
        encode_header(h).len() == HEADER_SIZE,
        decode_header(encode_header(h)) == Ok::<HeaderView, Error>(h),
{
    let o = ByteOrder::from_selector(h.pc_byte_order);
    let s = encode_header(h);
    crate::io::lemma_u32_round_trip(FILE_IDENTIFIER, ByteOrder::LE);
    crate::io::lemma_u32_round_trip(0, o);
    crate::io::lemma_i32_round_trip(h.size_of_item, o);
    crate::io::lemma_i32_round_trip(h.size_of_point, o);
    crate::io::lemma_i32_round_trip(h.hdr_items, o);
    crate::io::lemma_i32_round_trip(h.max_pts, o);
    crate::io::lemma_i32_round_trip(HEADER_SIZE as i32, o);
    crate::io::lemma_i32_round_trip(h.data_offset, o);
    crate::io::lemma_i32_round_trip(0, o);
    let b = h.bounding_box;
    crate::io::lemma_u32_round_trip(b.left, ByteOrder::LE);
    crate::io::lemma_u32_round_trip(b.top, ByteOrder::LE);
    crate::io::lemma_u32_round_trip(b.right, ByteOrder::LE);
    crate::io::lemma_u32_round_trip(b.bottom, ByteOrder::LE);
    crate::io::lemma_u32_round_trip(h.max_width, ByteOrder::LE);
    crate::io::lemma_u32_round_trip(h.max_height, ByteOrder::LE);
    crate::io::lemma_u32_round_trip(h.lo_la_scale, ByteOrder::LE);
    let tf = title_field(h.title);
    assert(tf.len() == 112);
    let sb = serial_bytes(h.allowed_serials);
    assert(sb.len() == 16);
    assert(s.len() == 210);
    assert(s.subrange(0, 4) =~= le4(FILE_IDENTIFIER));
    assert(s.subrange(4, 116) =~= tf);
    assert(s.subrange(116, 132) =~= sb);
    assert(s[132] == h.pc_byte_order);
    assert(s[133] == 0);
    assert(s.subrange(138, 154) =~= h.key);
    assert(s.subrange(154, 158) =~= i32_bytes(h.size_of_item, o));
    assert(s.subrange(158, 162) =~= i32_bytes(h.size_of_point, o));
    assert(s.subrange(162, 166) =~= i32_bytes(h.hdr_items, o));
    assert(s.subrange(166, 170) =~= i32_bytes(h.max_pts, o));
    assert(s.subrange(170, 174) =~= le4(b.left));
    assert(s.subrange(174, 178) =~= le4(b.top));
    assert(s.subrange(178, 182) =~= le4(b.right));
    assert(s.subrange(182, 186) =~= le4(b.bottom));
    assert(s.subrange(186, 190) =~= le4(h.max_width));
    assert(s.subrange(190, 194) =~= le4(h.max_height));
    assert(s.subrange(194, 198) =~= le4(h.lo_la_scale));
    assert(s.subrange(198, 202) =~= i32_bytes(HEADER_SIZE as i32, o));
    assert(s.subrange(202, 206) =~= i32_bytes(h.data_offset, o));
    if h.title.len() < TITLE_SIZE {
        lemma_trim_padded(h.title, (TITLE_SIZE - h.title.len()) as nat);
    } else {
        assert(tf =~= h.title);
    }
    let serials = Seq::new(8, |k: int| u16_at(s, 116 + 2 * k, ByteOrder::LE));
    assert forall|k: int| 0 <= k < 8 implies serials[k] == h.allowed_serials[k] by {
        crate::io::lemma_u16_round_trip(h.allowed_serials[k], ByteOrder::LE);
        assert(s.subrange(116 + 2 * k, 118 + 2 * k) =~= le2(h.allowed_serials[k]));
    }
    assert(serials =~= h.allowed_serials);
    assert(header_fields(s) == h);
}

/// Header decoding looks at the first [`HEADER_SIZE`] bytes only.
proof fn lemma_decode_header_prefix(s: Seq<u8>, n: int)
    requires
        n == if s.len() < HEADER_SIZE {
            s.len() as int
        } else {
            HEADER_SIZE as int
        },
    ensures
        decode_header(s.subrange(0, n)) == decode_header(s),
{
    let p = s.subrange(0, n);
    assert forall|a: int, b: int| 0 <= a <= b <= n implies #[trigger] p.subrange(a, b)
        == s.subrange(a, b) by {
        assert(p.subrange(a, b) =~= s.subrange(a, b));
    }
    if n >= 210 {
        let serials_p = Seq::new(8, |k: int| u16_at(p, 116 + 2 * k, ByteOrder::LE));
        let serials_s = Seq::new(8, |k: int| u16_at(s, 116 + 2 * k, ByteOrder::LE));
        assert forall|k: int| 0 <= k < 8 implies serials_p[k] == serials_s[k] by {
            assert(p.subrange(116 + 2 * k, 118 + 2 * k) == s.subrange(116 + 2 * k, 118 + 2 * k));
        }
        assert(serials_p =~= serials_s);
        assert(header_fields(p) == header_fields(s));
    }
}

impl Header {
    /// Reads and checks a header at the reader's position.
    ///
    /// Fails on a wrong magic value, an encrypted file, a header offset other
    /// than [`HEADER_SIZE`], record sizes below their minimum, or a file that
    /// ends before the check that it reaches.
    pub fn read(reader: &mut ByteReader) -> (r: Result<Header, Error>)
        ensures
            final(reader).bytes() == old(reader).bytes(),
            match r {
                Ok(h) => decode_header(old(reader).rest()) == Ok::<HeaderView, Error>(h@)
                    && final(reader).pos() == old(reader).pos() + HEADER_SIZE,
                Err(e) => decode_header(old(reader).rest()) == Err::<HeaderView, Error>(e),
            },
    {
        let ghost s = reader.rest();
        let pos = reader.position();
        let len = reader.len();
        let avail = if pos <= len {
            len - pos
        } else {
            0
        };
        let n = if avail < HEADER_SIZE {
            avail
        } else {
            HEADER_SIZE
        };
        let buf = match read_bytes(reader, n) {
            Ok(b) => b,
            Err(e) => return Err(e),
        };
        proof {
            assert(buf@ =~= s.subrange(0, n as int));
            lemma_decode_header_prefix(s, n as int);
        }
        Header::decode(&buf)
    }

    /// Decodes the header at the start of `b`.
    fn decode(b: &Vec<u8>) -> (r: Result<Header, Error>)
        ensures
            match r {
                Ok(h) => decode_header(b@) == Ok::<HeaderView, Error>(h@),
                Err(e) => decode_header(b@) == Err::<HeaderView, Error>(e),
            },
    {
        let len = b.len();
        if len < 4 {
            return Err(Error::UnexpectedEof);
        }
        if get_u32(b, 0, ByteOrder::LE) != FILE_IDENTIFIER {
            return Err(Error::InvalidMagicBytes);
        }
        if len < 134 {
            return Err(Error::UnexpectedEof);
        }
        if b[133] != 0 {
            return Err(Error::EncryptedFile);
        }
        if len < 202 {
            return Err(Error::UnexpectedEof);
        }
        let pc_byte_order = b[132];
        let order = ByteOrder::from_pc_byte_order(pc_byte_order);
        let header_offset = get_i32(b, 198, order);
        if header_offset != HEADER_SIZE as i32 {
            return Err(Error::InvalidHeaderOffset { found: header_offset });
        }
        if len < 210 {
            return Err(Error::UnexpectedEof);
        }
        let size_of_item = get_i32(b, 154, order);
        if size_of_item < MIN_SIZE_OF_ITEM {
            return Err(Error::UndersizedItems { size_of_item });
        }
        let size_of_point = get_i32(b, 158, order);
        if size_of_point < MIN_SIZE_OF_POINT {
            return Err(Error::UndersizedPoints { size_of_point });
        }
        let title = trim_trailing_nul(get_bytes(b, 4, 116));
        let allowed_serials = [
            get_u16(b, 116, ByteOrder::LE),
            get_u16(b, 118, ByteOrder::LE),
            get_u16(b, 120, ByteOrder::LE),
            get_u16(b, 122, ByteOrder::LE),
            get_u16(b, 124, ByteOrder::LE),
            get_u16(b, 126, ByteOrder::LE),
            get_u16(b, 128, ByteOrder::LE),
            get_u16(b, 130, ByteOrder::LE),
        ];
        let key = [
            b[138],
            b[139],
            b[140],
            b[141],
            b[142],
            b[143],
            b[144],
            b[145],
            b[146],
            b[147],
            b[148],
            b[149],
            b[150],
            b[151],
            b[152],
            b[153],
        ];
        let h = Header {
            title: ByteString::new(title),
            allowed_serials,
            pc_byte_order,
            key,
            size_of_item,
            size_of_point,
            hdr_items: get_i32(b, 162, order),
            max_pts: get_i32(b, 166, order),
            bounding_box: BoundingBox {
                left: get_u32(b, 170, ByteOrder::LE),
                top: get_u32(b, 174, ByteOrder::LE),
                right: get_u32(b, 178, ByteOrder::LE),
                bottom: get_u32(b, 182, ByteOrder::LE),
            },
            max_width: get_u32(b, 186, ByteOrder::LE),
            max_height: get_u32(b, 190, ByteOrder::LE),
            lo_la_scale: get_u32(b, 194, ByteOrder::LE),
            data_offset: get_i32(b, 202, order),
        };
        proof {
            let s = b@;
            assert(h@.allowed_serials =~= Seq::new(
                8,
                |k: int| u16_at(s, 116 + 2 * k, ByteOrder::LE),
            ));
            assert(h@.key =~= s.subrange(138, 154));
            assert(h@ == header_fields(s));
        }
        Ok(h)
    }

    /// The anomalies of the header that a reader goes on past: item records
    /// larger than the structure understood here.
    pub fn warnings(&self) -> (r: Vec<Warning>)
        ensures
            r@ == (if self.size_of_item > ITEM_STRUCT_SIZE {
                seq![Warning::OversizedItem { size_of_item: self.size_of_item }]
            } else {
                Seq::<Warning>::empty()
            }),
    {
        let mut r: Vec<Warning> = Vec::new();
        if self.size_of_item > ITEM_STRUCT_SIZE as i32 {
            r.push(Warning::OversizedItem { size_of_item: self.size_of_item });
        }
        proof {
            if self.size_of_item > ITEM_STRUCT_SIZE {
                assert(r@ =~= seq![Warning::OversizedItem { size_of_item: self.size_of_item }]);
            } else {
                assert(r@ =~= Seq::<Warning>::empty());
            }
        }
        r
    }

    /// The byte order of the file's integer fields.
    pub fn byte_order(&self) -> (r: ByteOrder)
        ensures
            r == ByteOrder::from_selector(self.pc_byte_order),
    {
        ByteOrder::from_pc_byte_order(self.pc_byte_order)
    }

    /// The rectangle around all items.
    pub fn bounding_box(&self) -> (r: &BoundingBox)
        ensures
            *r == self.bounding_box,
    {
        &self.bounding_box
    }

    /// Appends the 210 header bytes and returns their number.
    ///
    /// The title is cut to 112 bytes; the encryption flag, the CRC and the
    /// alignment are written as zero.
    pub fn write(&self, out: &mut Vec<u8>) -> (r: Result<usize, Error>)
        ensures
            final(out)@ == old(out)@ + encode_header(self@),
            r == Ok::<usize, Error>(HEADER_SIZE),
    {
        let order = self.byte_order();
        let mut buf: Vec<u8> = Vec::new();
        let _ = write_u32(&mut buf, FILE_IDENTIFIER, ByteOrder::LE);
        assert(buf@ =~= le4(FILE_IDENTIFIER));
        let tlen = self.title.len();
        if tlen >= TITLE_SIZE {
            let t = get_bytes(&self.title.0, 0, TITLE_SIZE);
            push_all(&mut buf, &t);
        } else {
            push_all(&mut buf, &self.title.0);
            push_zeros(&mut buf, TITLE_SIZE - tlen);
            assert(buf@ =~= le4(FILE_IDENTIFIER) + title_field(self.title@));
        }
        let ghost prefix = buf@;
        let mut i: usize = 0;
        while i < 8
            invariant
                i <= 8,
                buf@ == prefix + serial_bytes(self.allowed_serials@).subrange(0, 2 * i),
            decreases 8 - i,
        {
            let _ = write_u16(&mut buf, self.allowed_serials[i], ByteOrder::LE);
            i += 1;
            assert(serial_bytes(self.allowed_serials@).subrange(0, 2 * i) =~= serial_bytes(
                self.allowed_serials@,
            ).subrange(0, 2 * (i - 1)) + le2(self.allowed_serials@[i - 1]));
            assert(buf@ =~= prefix + serial_bytes(self.allowed_serials@).subrange(0, 2 * i));
        }
        assert(serial_bytes(self.allowed_serials@).subrange(0, 16) =~= serial_bytes(
            self.allowed_serials@,
        ));
        let _ = write_u8(&mut buf, self.pc_byte_order);
        let _ = write_u8(&mut buf, 0);
        assert(buf@ =~= prefix + serial_bytes(self.allowed_serials@) + seq![self.pc_byte_order, 0u8]);
        let _ = write_u32(&mut buf, 0, order);
        let ghost prefix2 = buf@;
        let mut k: usize = 0;
        while k < 16
            invariant
                k <= 16,
                buf@ == prefix2 + self.key@.subrange(0, k as int),
            decreases 16 - k,
        {
            buf.push(self.key[k]);
            k += 1;
            assert(buf@ =~= prefix2 + self.key@.subrange(0, k as int));
        }
        assert(self.key@.subrange(0, 16) =~= self.key@);
        let _ = write_i32(&mut buf, self.size_of_item, order);
        let _ = write_i32(&mut buf, self.size_of_point, order);
        let _ = write_i32(&mut buf, self.hdr_items, order);
        let _ = write_i32(&mut buf, self.max_pts, order);
        let _ = self.bounding_box.write(&mut buf);
        let _ = write_u32(&mut buf, self.max_width, ByteOrder::LE);
        let _ = write_u32(&mut buf, self.max_height, ByteOrder::LE);
        let _ = write_u32(&mut buf, self.lo_la_scale, ByteOrder::LE);
        let _ = write_i32(&mut buf, HEADER_SIZE as i32, order);
        let _ = write_i32(&mut buf, self.data_offset, order);
        let _ = write_i32(&mut buf, 0, order);
        assert(buf@ == encode_header(self@));
        push_all(out, &buf);
        Ok(HEADER_SIZE)
    }
}

/// `t` without its trailing NUL bytes.
fn trim_trailing_nul(t: Vec<u8>) -> (r: Vec<u8>)
    ensures
        r@ == trim_nul(t@),
{
    let ghost t0 = t@;
    let mut t = t;
    while t.len() > 0 && t[t.len() - 1] == 0
        invariant
            trim_nul(t@) == trim_nul(t0),
        decreases t.len(),
    {
        let _ = t.pop();
    }
    t
}

} // verus!
