use vstd::prelude::*;

verus! {

/// Failures that stop a parse.
#[derive(Debug, Clone, Copy, PartialEq, Eq, Structural)]
pub enum Error {
    /// The input ended before a record that had to be complete.
    UnexpectedEof,
    /// The first four bytes are not the CUB magic value.
    InvalidMagicBytes,
    /// The file is encrypted, which this codec does not support.
    EncryptedFile,
    /// The header names an item-table offset other than the header size.
    InvalidHeaderOffset { found: i32 },
    /// A geometry record starts with a flag byte that has no meaning.
    UnexpectedPointFlag(u8),
    /// `size_of_item` is below the smallest usable item record.
    UndersizedItems { size_of_item: i32 },
    /// `size_of_point` is below the size of one geometry record.
    UndersizedPoints { size_of_point: i32 },
    /// A file offset or count does not fit its 32-bit field.
    OffsetOverflow,
}

/// Recoverable anomalies: the parse goes on and the value is still returned.
#[derive(Debug, Clone, Copy, PartialEq, Eq, Structural)]
pub enum Warning {
    /// Item records are larger than the structure understood here; the extra
    /// bytes of each record are skipped.
    OversizedItem { size_of_item: i32 },
    /// An optional-data record carries a type id with no meaning; it is skipped.
    UnknownDataId(u8),
    /// The geometry/attribute stream ends inside a record, at this offset;
    /// what was decoded before it is kept.
    Truncated { offset: usize },
}

} // verus!
