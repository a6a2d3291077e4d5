//! Byte-order-aware fixed-width integers, read from a [`ByteReader`] and
//! appended to a byte vector.
use vstd::prelude::*;

use crate::enums::ByteOrder;
use crate::error::Error;

verus! {

/// The two bytes of `v`, least significant first.
pub open spec fn le2(v: u16) -> Seq<u8> {
    seq![(v & 0xff) as u8, (v >> 8u16) as u8]
}

/// The four bytes of `v`, least significant first.
pub open spec fn le4(v: u32) -> Seq<u8> {
    seq![(v & 0xff) as u8, ((v >> 8u32) & 0xff) as u8, ((v >> 16u32) & 0xff) as u8, (v >> 24u32) as u8]
}

/// The eight bytes of `v`, least significant first.
pub open spec fn le8(v: u64) -> Seq<u8> {
    seq![
        (v & 0xff) as u8,
        ((v >> 8u64) & 0xff) as u8,
        ((v >> 16u64) & 0xff) as u8,
        ((v >> 24u64) & 0xff) as u8,
        ((v >> 32u64) & 0xff) as u8,
        ((v >> 40u64) & 0xff) as u8,
        ((v >> 48u64) & 0xff) as u8,
        (v >> 56u64) as u8,
    ]
}

/// The value of two bytes given least significant first.
pub open spec fn from_le2(b0: u8, b1: u8) -> u16 {
    (b0 as u16) | ((b1 as u16) << 8u16)
}

/// The value of four bytes given least significant first.
pub open spec fn from_le4(b0: u8, b1: u8, b2: u8, b3: u8) -> u32 {
    (b0 as u32) | ((b1 as u32) << 8u32) | ((b2 as u32) << 16u32) | ((b3 as u32) << 24u32)
}

/// The value of eight bytes given least significant first.
pub open spec fn from_le8(b: Seq<u8>) -> u64
    recommends
        b.len() >= 8,
{
    (b[0] as u64) | ((b[1] as u64) << 8u64) | ((b[2] as u64) << 16u64) | ((b[3] as u64)
        << 24u64) | ((b[4] as u64) << 32u64) | ((b[5] as u64) << 40u64) | ((b[6] as u64)
        << 48u64) | ((b[7] as u64) << 56u64)
}

/// The encoding of a `u16` in the given byte order.
pub open spec fn u16_bytes(v: u16, order: ByteOrder) -> Seq<u8> {
    match order {
        ByteOrder::LE => le2(v),
        ByteOrder::BE => le2(v).reverse(),
    }
}

/// The encoding of a `u32` in the given byte order.
pub open spec fn u32_bytes(v: u32, order: ByteOrder) -> Seq<u8> {
    match order {
        ByteOrder::LE => le4(v),
        ByteOrder::BE => le4(v).reverse(),
    }
}

/// The encoding of a `u64` in the given byte order.
pub open spec fn u64_bytes(v: u64, order: ByteOrder) -> Seq<u8> {
    match order {
        ByteOrder::LE => le8(v),
        ByteOrder::BE => le8(v).reverse(),
    }
}

/// The encoding of an `i16`: its two's-complement bits as a `u16`.
pub open spec fn i16_bytes(v: i16, order: ByteOrder) -> Seq<u8> {
    u16_bytes(v as u16, order)
}

/// The encoding of an `i32`: its two's-complement bits as a `u32`.
pub open spec fn i32_bytes(v: i32, order: ByteOrder) -> Seq<u8> {
    u32_bytes(v as u32, order)
}

/// The `u16` that the first two bytes of `s` encode.
pub open spec fn u16_value(s: Seq<u8>, order: ByteOrder) -> u16
    recommends
        s.len() >= 2,
{
    match order {
        ByteOrder::LE => from_le2(s[0], s[1]),
        ByteOrder::BE => from_le2(s[1], s[0]),
    }
}

/// The `u32` that the first four bytes of `s` encode.
pub open spec fn u32_value(s: Seq<u8>, order: ByteOrder) -> u32
    recommends
        s.len() >= 4,
{
    match order {
        ByteOrder::LE => from_le4(s[0], s[1], s[2], s[3]),
        ByteOrder::BE => from_le4(s[3], s[2], s[1], s[0]),
    }
}

/// The `u64` that the first eight bytes of `s` encode.
pub open spec fn u64_value(s: Seq<u8>, order: ByteOrder) -> u64
    recommends
        s.len() >= 8,
{
    match order {
        ByteOrder::LE => from_le8(s.subrange(0, 8)),
        ByteOrder::BE => from_le8(s.subrange(0, 8).reverse()),
    }
}

/// The `i16` that the first two bytes of `s` encode.
pub open spec fn i16_value(s: Seq<u8>, order: ByteOrder) -> i16
    recommends
        s.len() >= 2,
{
    u16_value(s, order) as i16
}

/// The `i32` that the first four bytes of `s` encode.
pub open spec fn i32_value(s: Seq<u8>, order: ByteOrder) -> i32
    recommends
        s.len() >= 4,
{
    u32_value(s, order) as i32
}

/// Decoding an encoded `u16` gives it back.
pub proof fn lemma_u16_round_trip(v: u16, order: ByteOrder)
    ensures
        u16_bytes(v, order).len() == 2,
        u16_value(u16_bytes(v, order), order) == v,
{
    let b0 = (v & 0xff) as u8;
    let b1 = (v >> 8u16) as u8;
    assert(((b0 as u16) | ((b1 as u16) << 8u16)) == v) by (bit_vector)
        requires
            b0 == (v & 0xff) as u8,
            b1 == (v >> 8u16) as u8,
    ;
}

/// Decoding an encoded `u32` gives it back.
pub proof fn lemma_u32_round_trip(v: u32, order: ByteOrder)
    ensures
        u32_bytes(v, order).len() == 4,
        u32_value(u32_bytes(v, order), order) == v,
{
    let b0 = (v & 0xff) as u8;
    let b1 = ((v >> 8u32) & 0xff) as u8;
    let b2 = ((v >> 16u32) & 0xff) as u8;
    let b3 = (v >> 24u32) as u8;
    assert(from_le4(b0, b1, b2, b3) == v) by (bit_vector)
        requires
            b0 == (v & 0xff) as u8,
            b1 == ((v >> 8u32) & 0xff) as u8,
            b2 == ((v >> 16u32) & 0xff) as u8,
            b3 == (v >> 24u32) as u8,
    ;
}

/// Decoding an encoded `u64` gives it back.
pub proof fn lemma_u64_round_trip(v: u64, order: ByteOrder)
    ensures
        u64_bytes(v, order).len() == 8,
        u64_value(u64_bytes(v, order), order) == v,
{
    let b = le8(v);
    let (b0, b1, b2, b3, b4, b5, b6, b7) = (b[0], b[1], b[2], b[3], b[4], b[5], b[6], b[7]);
    assert((b0 as u64) | ((b1 as u64) << 8u64) | ((b2 as u64) << 16u64) | ((b3 as u64) << 24u64)
        | ((b4 as u64) << 32u64) | ((b5 as u64) << 40u64) | ((b6 as u64) << 48u64) | ((b7 as u64)
        << 56u64) == v) by (bit_vector)
        requires
            b0 == (v & 0xff) as u8,
            b1 == ((v >> 8u64) & 0xff) as u8,
            b2 == ((v >> 16u64) & 0xff) as u8,
            b3 == ((v >> 24u64) & 0xff) as u8,
            b4 == ((v >> 32u64) & 0xff) as u8,
            b5 == ((v >> 40u64) & 0xff) as u8,
            b6 == ((v >> 48u64) & 0xff) as u8,
            b7 == (v >> 56u64) as u8,
    ;
    assert(b.subrange(0, 8) =~= b);
    assert(b.reverse().subrange(0, 8).reverse() =~= b);
}

/// Decoding an encoded `i16` gives it back.
pub proof fn lemma_i16_round_trip(v: i16, order: ByteOrder)
    ensures
        i16_bytes(v, order).len() == 2,
        i16_value(i16_bytes(v, order), order) == v,
{
    lemma_u16_round_trip(v as u16, order);
    assert((v as u16) as i16 == v) by (bit_vector);
}

/// Decoding an encoded `i32` gives it back.
pub proof fn lemma_i32_round_trip(v: i32, order: ByteOrder)
    ensures
        i32_bytes(v, order).len() == 4,
        i32_value(i32_bytes(v, order), order) == v,
{
    lemma_u32_round_trip(v as u32, order);
    assert((v as u32) as i32 == v) by (bit_vector);
}

/// A read cursor over a byte buffer: the whole file image and a position in it.
///
/// The position may be set past the end; reads there fail with
/// [`Error::UnexpectedEof`].
#[derive(Debug, Clone)]
pub struct ByteReader {
    data: Vec<u8>,
    pos: usize,
}

impl ByteReader {
    /// The bytes of the buffer.
    pub closed spec fn bytes(&self) -> Seq<u8> {
        self.data@
    }

    /// The current position.
    pub closed spec fn pos(&self) -> nat {
        self.pos as nat
    }

    /// Whether `n` more bytes can be read at the current position.
    pub open spec fn has(&self, n: int) -> bool {
        self.pos() + n <= self.bytes().len()
    }

    /// The `n` bytes at the current position.
    pub open spec fn ahead(&self, n: int) -> Seq<u8> {
        self.bytes().subrange(self.pos() as int, self.pos() + n)
    }

    /// The bytes from the current position to the end.
    pub open spec fn rest(&self) -> Seq<u8> {
        if self.pos() <= self.bytes().len() {
            self.bytes().subrange(self.pos() as int, self.bytes().len() as int)
        } else {
            Seq::empty()
        }
    }

    /// A cursor at the start of `data`.
    pub fn new(data: Vec<u8>) -> (r: ByteReader)
        ensures
            r.bytes() == data@,
            r.pos() == 0,
    {
        ByteReader { data, pos: 0 }
    }

    /// The current position.
    pub fn position(&self) -> (r: usize)
        ensures
            r == self.pos(),
    {
        self.pos
    }

    /// The length of the buffer.
    pub fn len(&self) -> (r: usize)
        ensures
            r == self.bytes().len(),
    {
        self.data.len()
    }

    /// Moves the position to `pos`, which may lie past the end.
    pub fn seek(&mut self, pos: usize)
        ensures
            final(self).bytes() == old(self).bytes(),
            final(self).pos() == pos,
    {
        self.pos = pos;
    }

    /// The buffer.
    pub(crate) fn buffer(&self) -> (r: &Vec<u8>)
        ensures
            r@ == self.bytes(),
    {
        &self.data
    }

    /// Gives the buffer back.
    pub fn into_inner(self) -> (r: Vec<u8>)
        ensures
            r@ == self.bytes(),
    {
        self.data
    }

    /// Takes the next `n` bytes, or fails without moving if fewer are left.
    fn take(&mut self, n: usize) -> (r: Result<Vec<u8>, Error>)
        ensures
            final(self).bytes() == old(self).bytes(),
            match r {
                Ok(v) => old(self).has(n as int) && v@ == old(self).ahead(n as int) && final(self).pos() == old(self).pos() + n,
                Err(e) => !old(self).has(n as int) && e == Error::UnexpectedEof && final(self).pos()
                    == old(self).pos(),
            },
    {
        if self.pos > self.data.len() || self.data.len() - self.pos < n {
            return Err(Error::UnexpectedEof);
        }
        let mut v: Vec<u8> = Vec::new();
        let mut i: usize = 0;
        while i < n
            invariant
                self.pos + n <= self.data.len(),
                i <= n,
                v@ == self.data@.subrange(self.pos as int, self.pos + i),
            decreases n - i,
        {
            v.push(self.data[self.pos + i]);
            i += 1;
            assert(v@ =~= self.data@.subrange(self.pos as int, self.pos + i));
        }
        self.pos = self.pos + n;
        Ok(v)
    }

    /// Reads one byte.
    fn next_byte(&mut self) -> (r: Result<u8, Error>)
        ensures
            final(self).bytes() == old(self).bytes(),
            match r {
                Ok(b) => old(self).has(1) && b == old(self).bytes()[old(self).pos() as int] && final(self).pos() == old(self).pos() + 1,
                Err(e) => !old(self).has(1) && e == Error::UnexpectedEof && final(self).pos()
                    == old(self).pos(),
            },
    {
        if self.pos >= self.data.len() {
            return Err(Error::UnexpectedEof);
        }
        let b = self.data[self.pos];
        self.pos = self.pos + 1;
        Ok(b)
    }
}

/// What a successful fixed-width read promises: `n` bytes were there, the
/// cursor moved past them, and the buffer is unchanged.
pub open spec fn advanced(before: ByteReader, after: ByteReader, n: int) -> bool {
    &&& before.has(n)
    &&& after.bytes() == before.bytes()
    &&& after.pos() == before.pos() + n
}

/// What a failed fixed-width read promises: fewer than `n` bytes were left,
/// and the cursor did not move.
pub open spec fn short(before: ByteReader, after: ByteReader, n: int) -> bool {
    &&& !before.has(n)
    &&& after.bytes() == before.bytes()
    &&& after.pos() == before.pos()
}

/// Reads one byte.
pub fn read_u8(reader: &mut ByteReader) -> (r: Result<u8, Error>)
    ensures
        match r {
            Ok(v) => advanced(*old(reader), *final(reader), 1) && v == old(reader).ahead(1)[0],
            Err(e) => short(*old(reader), *final(reader), 1) && e == Error::UnexpectedEof,
        },
{
    reader.next_byte()
}

/// Reads a `u16` in the given byte order.
pub fn read_u16(reader: &mut ByteReader, order: ByteOrder) -> (r: Result<u16, Error>)
    ensures
        match r {
            Ok(v) => advanced(*old(reader), *final(reader), 2) && v == u16_value(old(reader).ahead(2), order),
            Err(e) => short(*old(reader), *final(reader), 2) && e == Error::UnexpectedEof,
        },
{
    let b = reader.take(2)?;
    match order {
        ByteOrder::LE => Ok((b[0] as u16) | ((b[1] as u16) << 8u16)),
        ByteOrder::BE => Ok((b[1] as u16) | ((b[0] as u16) << 8u16)),
    }
}

/// Reads an `i16` in the given byte order.
pub fn read_i16(reader: &mut ByteReader, order: ByteOrder) -> (r: Result<i16, Error>)
    ensures
        match r {
            Ok(v) => advanced(*old(reader), *final(reader), 2) && v == i16_value(old(reader).ahead(2), order),
            Err(e) => short(*old(reader), *final(reader), 2) && e == Error::UnexpectedEof,
        },
{
    let u = read_u16(reader, order)?;
    Ok(u as i16)
}

/// Reads a `u32` in the given byte order.
pub fn read_u32(reader: &mut ByteReader, order: ByteOrder) -> (r: Result<u32, Error>)
    ensures
        match r {
            Ok(v) => advanced(*old(reader), *final(reader), 4) && v == u32_value(old(reader).ahead(4), order),
            Err(e) => short(*old(reader), *final(reader), 4) && e == Error::UnexpectedEof,
        },
{
    let b = reader.take(4)?;
    match order {
        ByteOrder::LE => Ok(
            (b[0] as u32) | ((b[1] as u32) << 8u32) | ((b[2] as u32) << 16u32) | ((b[3] as u32)
                << 24u32),
        ),
        ByteOrder::BE => Ok(
            (b[3] as u32) | ((b[2] as u32) << 8u32) | ((b[1] as u32) << 16u32) | ((b[0] as u32)
                << 24u32),
        ),
    }
}

/// Reads an `i32` in the given byte order.
pub fn read_i32(reader: &mut ByteReader, order: ByteOrder) -> (r: Result<i32, Error>)
    ensures
        match r {
            Ok(v) => advanced(*old(reader), *final(reader), 4) && v == i32_value(old(reader).ahead(4), order),
            Err(e) => short(*old(reader), *final(reader), 4) && e == Error::UnexpectedEof,
        },
{
    let u = read_u32(reader, order)?;
    Ok(u as i32)
}

/// Reads a `u64` in the given byte order.
pub fn read_u64(reader: &mut ByteReader, order: ByteOrder) -> (r: Result<u64, Error>)
    ensures
        match r {
            Ok(v) => advanced(*old(reader), *final(reader), 8) && v == u64_value(old(reader).ahead(8), order),
            Err(e) => short(*old(reader), *final(reader), 8) && e == Error::UnexpectedEof,
        },
{
    let b = reader.take(8)?;
    let ghost s = b@;
    let mut le: Vec<u8> = Vec::new();
    let mut i: usize = 0;
    while i < 8
        invariant
            b@ == s,
            s.len() == 8,
            i <= 8,
            le@ == (match order {
                ByteOrder::LE => s,
                ByteOrder::BE => s.reverse(),
            }).subrange(0, i as int),
        decreases 8 - i,
    {
        match order {
            ByteOrder::LE => le.push(b[i]),
            ByteOrder::BE => le.push(b[7 - i]),
        }
        i += 1;
        assert(le@ =~= (match order {
            ByteOrder::LE => s,
            ByteOrder::BE => s.reverse(),
        }).subrange(0, i as int));
    }
    assert(s.subrange(0, 8) =~= s);
    assert(le@ =~= (match order {
        ByteOrder::LE => s,
        ByteOrder::BE => s.reverse(),
    }));
    Ok(
        (le[0] as u64) | ((le[1] as u64) << 8u64) | ((le[2] as u64) << 16u64) | ((le[3] as u64)
            << 24u64) | ((le[4] as u64) << 32u64) | ((le[5] as u64) << 40u64) | ((le[6] as u64)
            << 48u64) | ((le[7] as u64) << 56u64),
    )
}

/// Reads `len` raw bytes.
pub fn read_bytes(reader: &mut ByteReader, len: usize) -> (r: Result<Vec<u8>, Error>)
    ensures
        match r {
            Ok(v) => advanced(*old(reader), *final(reader), len as int) && v@ == old(reader).ahead(len as int),
            Err(e) => short(*old(reader), *final(reader), len as int) && e == Error::UnexpectedEof,
        },
{
    reader.take(len)
}

/// Appends bytes `b` to `out`, one by one.
pub(crate) fn push_all(out: &mut Vec<u8>, b: &Vec<u8>)
    ensures
        final(out)@ == old(out)@ + b@,
{
    let mut i: usize = 0;
    while i < b.len()
        invariant
            i <= b.len(),
            out@ == old(out)@ + b@.subrange(0, i as int),
        decreases b.len() - i,
    {
        out.push(b[i]);
        i += 1;
        assert(out@ =~= old(out)@ + b@.subrange(0, i as int));
    }
    assert(b@.subrange(0, b.len() as int) =~= b@);
}

/// Appends `n` zero bytes to `out`.
pub(crate) fn push_zeros(out: &mut Vec<u8>, n: usize)
    ensures
        final(out)@ == old(out)@ + Seq::new(n as nat, |i: int| 0u8),
{
    let mut i: usize = 0;
    while i < n
        invariant
            i <= n,
            out@ == old(out)@ + Seq::new(i as nat, |k: int| 0u8),
        decreases n - i,
    {
        out.push(0u8);
        i += 1;
        assert(out@ =~= old(out)@ + Seq::new(i as nat, |k: int| 0u8));
    }
}

/// Appends one byte.
pub fn write_u8(out: &mut Vec<u8>, value: u8) -> (r: Result<(), Error>)
    ensures
        final(out)@ == old(out)@.push(value),
        r is Ok,
{
    out.push(value);
    Ok(())
}

/// Appends a `u16` in the given byte order.
pub fn write_u16(out: &mut Vec<u8>, value: u16, order: ByteOrder) -> (r: Result<(), Error>)
    ensures
        final(out)@ == old(out)@ + u16_bytes(value, order),
        r is Ok,
{
    let lo = (value & 0xff) as u8;
    let hi = (value >> 8u16) as u8;
    match order {
        ByteOrder::LE => {
            out.push(lo);
            out.push(hi);
        },
        ByteOrder::BE => {
            out.push(hi);
            out.push(lo);
        },
    }
    assert(final(out)@ =~= old(out)@ + u16_bytes(value, order));
    Ok(())
}

/// Appends an `i16` in the given byte order.
pub fn write_i16(out: &mut Vec<u8>, value: i16, order: ByteOrder) -> (r: Result<(), Error>)
    ensures
        final(out)@ == old(out)@ + i16_bytes(value, order),
        r is Ok,
{
    write_u16(out, value as u16, order)
}

/// Appends a `u32` in the given byte order.
pub fn write_u32(out: &mut Vec<u8>, value: u32, order: ByteOrder) -> (r: Result<(), Error>)
    ensures
        final(out)@ == old(out)@ + u32_bytes(value, order),
        r is Ok,
{
    let b0 = (value & 0xff) as u8;
    let b1 = ((value >> 8u32) & 0xff) as u8;
    let b2 = ((value >> 16u32) & 0xff) as u8;
    let b3 = (value >> 24u32) as u8;
    match order {
        ByteOrder::LE => {
            out.push(b0);
            out.push(b1);
            out.push(b2);
            out.push(b3);
        },
        ByteOrder::BE => {
            out.push(b3);
            out.push(b2);
            out.push(b1);
            out.push(b0);
        },
    }
    assert(final(out)@ =~= old(out)@ + u32_bytes(value, order));
    Ok(())
}

/// Appends an `i32` in the given byte order.
pub fn write_i32(out: &mut Vec<u8>, value: i32, order: ByteOrder) -> (r: Result<(), Error>)
    ensures
        final(out)@ == old(out)@ + i32_bytes(value, order),
        r is Ok,
{
    write_u32(out, value as u32, order)
}

/// Appends a `u64` in the given byte order.
pub fn write_u64(out: &mut Vec<u8>, value: u64, order: ByteOrder) -> (r: Result<(), Error>)
    ensures
        final(out)@ == old(out)@ + u64_bytes(value, order),
        r is Ok,
{
    let le = vec![
        (value & 0xff) as u8,
        ((value >> 8u64) & 0xff) as u8,
        ((value >> 16u64) & 0xff) as u8,
        ((value >> 24u64) & 0xff) as u8,
        ((value >> 32u64) & 0xff) as u8,
        ((value >> 40u64) & 0xff) as u8,
        ((value >> 48u64) & 0xff) as u8,
        (value >> 56u64) as u8,
    ];
    assert(le@ =~= le8(value));
    let mut i: usize = 0;
    while i < 8
        invariant
            le@ == le8(value),
            i <= 8,
            out@ == old(out)@ + u64_bytes(value, order).subrange(0, i as int),
        decreases 8 - i,
    {
        match order {
            ByteOrder::LE => out.push(le[i]),
            ByteOrder::BE => out.push(le[7 - i]),
        }
        i += 1;
        assert(out@ =~= old(out)@ + u64_bytes(value, order).subrange(0, i as int));
    }
    assert(u64_bytes(value, order).subrange(0, 8) =~= u64_bytes(value, order));
    Ok(())
}

} // verus!

verus! {

/// Four bytes are the little-endian encoding of the value they decode to.
pub proof fn lemma_le4_of_value(s: Seq<u8>)
    requires
        s.len() == 4,
    ensures
        le4(u32_value(s, ByteOrder::LE)) == s,
{
    let (b0, b1, b2, b3) = (s[0], s[1], s[2], s[3]);
    let v = from_le4(b0, b1, b2, b3);
    assert((v & 0xff) as u8 == b0 && ((v >> 8u32) & 0xff) as u8 == b1 && ((v >> 16u32) & 0xff) as u8
        == b2 && (v >> 24u32) as u8 == b3) by (bit_vector)
        requires
            v == (b0 as u32) | ((b1 as u32) << 8u32) | ((b2 as u32) << 16u32) | ((b3 as u32)
                << 24u32),
    ;
    assert(le4(v) =~= s);
}

} // verus!

verus! {

/// The `u16` at offset `off` of `b`.
pub(crate) fn get_u16(b: &Vec<u8>, off: usize, order: ByteOrder) -> (r: u16)
    requires
        off + 2 <= b@.len(),
    ensures
        r == u16_value(b@.subrange(off as int, off + 2), order),
{
    let _len = b.len();
    match order {
        ByteOrder::LE => (b[off] as u16) | ((b[off + 1] as u16) << 8u16),
        ByteOrder::BE => (b[off + 1] as u16) | ((b[off] as u16) << 8u16),
    }
}

/// The `i16` at offset `off` of `b`.
pub(crate) fn get_i16(b: &Vec<u8>, off: usize, order: ByteOrder) -> (r: i16)
    requires
        off + 2 <= b@.len(),
    ensures
        r == i16_value(b@.subrange(off as int, off + 2), order),
{
    get_u16(b, off, order) as i16
}

/// The `u32` at offset `off` of `b`.
pub(crate) fn get_u32(b: &Vec<u8>, off: usize, order: ByteOrder) -> (r: u32)
    requires
        off + 4 <= b@.len(),
    ensures
        r == u32_value(b@.subrange(off as int, off + 4), order),
{
    let _len = b.len();
    match order {
        ByteOrder::LE => (b[off] as u32) | ((b[off + 1] as u32) << 8u32) | ((b[off + 2] as u32)
            << 16u32) | ((b[off + 3] as u32) << 24u32),
        ByteOrder::BE => (b[off + 3] as u32) | ((b[off + 2] as u32) << 8u32) | ((b[off + 1] as u32)
            << 16u32) | ((b[off] as u32) << 24u32),
    }
}

/// The `i32` at offset `off` of `b`.
pub(crate) fn get_i32(b: &Vec<u8>, off: usize, order: ByteOrder) -> (r: i32)
    requires
        off + 4 <= b@.len(),
    ensures
        r == i32_value(b@.subrange(off as int, off + 4), order),
{
    get_u32(b, off, order) as i32
}

/// The `u64` at offset `off` of `b`.
pub(crate) fn get_u64(b: &Vec<u8>, off: usize, order: ByteOrder) -> (r: u64)
    requires
        off + 8 <= b@.len(),
    ensures
        r == u64_value(b@.subrange(off as int, off + 8), order),
{
    let _len = b.len();
    let ghost s = b@.subrange(off as int, off + 8);
    let ghost le = match order {
        ByteOrder::LE => s,
        ByteOrder::BE => s.reverse(),
    };
    assert(s.subrange(0, 8) =~= s);
    let (b0, b1, b2, b3, b4, b5, b6, b7) = match order {
        ByteOrder::LE => (
            b[off],
            b[off + 1],
            b[off + 2],
            b[off + 3],
            b[off + 4],
            b[off + 5],
            b[off + 6],
            b[off + 7],
        ),
        ByteOrder::BE => (
            b[off + 7],
            b[off + 6],
            b[off + 5],
            b[off + 4],
            b[off + 3],
            b[off + 2],
            b[off + 1],
            b[off],
        ),
    };
    assert(b0 == le[0] && b1 == le[1] && b2 == le[2] && b3 == le[3] && b4 == le[4] && b5 == le[5]
        && b6 == le[6] && b7 == le[7]);
    (b0 as u64) | ((b1 as u64) << 8u64) | ((b2 as u64) << 16u64) | ((b3 as u64) << 24u64) | ((
    b4 as u64) << 32u64) | ((b5 as u64) << 40u64) | ((b6 as u64) << 48u64) | ((b7 as u64) << 56u64)
}

/// A copy of `b[from..to]`.
pub(crate) fn get_bytes(b: &Vec<u8>, from: usize, to: usize) -> (r: Vec<u8>)
    requires
        from <= to <= b@.len(),
    ensures
        r@ == b@.subrange(from as int, to as int),
{
    let mut v: Vec<u8> = Vec::new();
    let mut i: usize = from;
    while i < to
        invariant
            from <= i <= to,
            to <= b@.len(),
            v@ == b@.subrange(from as int, i as int),
        decreases to - i,
    {
        v.push(b[i]);
        i += 1;
        assert(v@ =~= b@.subrange(from as int, i as int));
    }
    v
}

} // verus!
