//! The rectangle of an item or of a whole file, as stored on disk.
use vstd::prelude::*;

use crate::enums::ByteOrder;
use crate::error::Error;
use crate::io::{le4, read_u32, write_u32, ByteReader};

verus! {

/// A bounding rectangle in radians, as four IEEE-754 single-precision values
/// held by their bit patterns (`f32::to_bits`). The floats are always stored
/// little-endian, whatever the file's byte order.
#[derive(Debug, Clone, Copy, PartialEq, Eq, Structural)]
pub struct BoundingBox {
    /// West edge (longitude).
    pub left: u32,
    /// North edge (latitude).
    pub top: u32,
    /// East edge (longitude).
    pub right: u32,
    /// South edge (latitude).
    pub bottom: u32,
}

/// The sixteen bytes of a bounding box on disk.
pub open spec fn box_bytes(b: BoundingBox) -> Seq<u8> {
    le4(b.left) + le4(b.top) + le4(b.right) + le4(b.bottom)
}

impl BoundingBox {
    /// Reads a bounding box: four little-endian 32-bit floats.
    pub fn read(reader: &mut ByteReader) -> (r: Result<BoundingBox, Error>)
        ensures
            final(reader).bytes() == old(reader).bytes(),
            match r {
                Ok(b) => old(reader).has(16) && box_bytes(b) == old(reader).ahead(16) && final(reader).pos() == old(reader).pos() + 16,
                Err(e) => !old(reader).has(16) && e == Error::UnexpectedEof,
            },
    {
        let ghost start = *reader;
        if !(reader.position() <= reader.len() && reader.len() - reader.position() >= 16) {
            return Err(Error::UnexpectedEof);
        }
        let left = read_u32(reader, ByteOrder::LE)?;
        let top = read_u32(reader, ByteOrder::LE)?;
        let right = read_u32(reader, ByteOrder::LE)?;
        let bottom = read_u32(reader, ByteOrder::LE)?;
        let b = BoundingBox { left, top, right, bottom };
        proof {
            let s = start.ahead(16);
            crate::io::lemma_u32_round_trip(left, ByteOrder::LE);
            crate::io::lemma_u32_round_trip(top, ByteOrder::LE);
            crate::io::lemma_u32_round_trip(right, ByteOrder::LE);
            crate::io::lemma_u32_round_trip(bottom, ByteOrder::LE);
            crate::io::lemma_le4_of_value(s.subrange(0, 4));
            crate::io::lemma_le4_of_value(s.subrange(4, 8));
            crate::io::lemma_le4_of_value(s.subrange(8, 12));
            crate::io::lemma_le4_of_value(s.subrange(12, 16));
            assert(s =~= s.subrange(0, 4) + s.subrange(4, 8) + s.subrange(8, 12) + s.subrange(
                12,
                16,
            ));
        }
        Ok(b)
    }

    /// Appends the sixteen bytes of the box.
    pub fn write(&self, out: &mut Vec<u8>) -> (r: Result<(), Error>)
        ensures
            final(out)@ == old(out)@ + box_bytes(*self),
            r is Ok,
    {
        let _ = write_u32(out, self.left, ByteOrder::LE);
        let _ = write_u32(out, self.top, ByteOrder::LE);
        let _ = write_u32(out, self.right, ByteOrder::LE);
        let _ = write_u32(out, self.bottom, ByteOrder::LE);
        assert(final(out)@ =~= old(out)@ + box_bytes(*self));
        Ok(())
    }
}

} // verus!
