//! Reading and writing of CUB airspace files.
//!
//! The library works on bytes held in memory: a [`ByteReader`] walks a file
//! image, and every encoder appends to a `Vec<u8>`. Floating-point fields of
//! the format are carried as their IEEE-754 bit patterns, and polygon vertices
//! are expressed on the integer grid of the file's coordinate scale.

mod bounding_box;
mod byte_string;
mod enums;
mod error;
mod file;
mod header;
mod io;
mod item;
mod item_data;
mod point_op;

pub use crate::bounding_box::BoundingBox;
pub use crate::byte_string::{decode_string, read_string, ByteString};
pub use crate::enums::{
    decode_notam_time, encode_notam_time, AltStyle, ByteOrder, CubClass, CubDataId, CubStyle,
    DateTime, DaysActive, ExtendedType, NotamCodes, NotamScope, NotamTraffic, NotamType,
};
pub use crate::error::{Error, Warning};
pub use crate::file::{
    encode_active_time, encode_alt_style_byte, encode_type_byte, read_item_at, read_item_data_for,
    read_items,
    write_file,
};
pub use crate::header::{
    Header, FILE_IDENTIFIER, HEADER_SIZE, MIN_SIZE_OF_ITEM, MIN_SIZE_OF_POINT, TITLE_SIZE,
};
pub use crate::io::{
    read_bytes, read_i16, read_i32, read_u16, read_u32, read_u64, read_u8, write_i16, write_i32,
    write_u16, write_u32, write_u64, write_u8, ByteReader,
};
pub use crate::item::{Item, ITEM_STRUCT_SIZE, NO_END_DATE};
pub use crate::item_data::ItemData;
pub use crate::point_op::{GridPoint, PointOp, GRID_LIMIT, POINT_OP_MOVE_ORIGIN, POINT_OP_NEW_POINT};
