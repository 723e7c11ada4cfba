//! Reading and writing of the DBC tabular container format: fixed-width
//! little-endian records followed by a NUL-terminated string block, preceded
//! by a 20-byte header. Each supported table gets a typed row struct, a typed
//! primary key where the table declares one, and `read` / `write` routines
//! that are proved to round-trip.
//!
//! The crate also holds the schema-driven code generator those tables come
//! from: the schema catalog ([`types`]), the indented text sink and the
//! snake-case name transform ([`writer`]), and the per-version registry
//! emitter ([`printer`]), whose output is pinned byte-for-byte by its
//! contract.

use vstd::prelude::*;

pub mod codec;
pub mod header;
pub mod int_list;
pub mod localized;
pub mod printer;
pub mod server_enums;
pub mod str_list;
pub mod string_block;
pub mod tbc_tables;
pub mod types;
pub mod util;
pub mod vanilla_tables;
pub mod wrath_tables;
pub mod writer;

verus! {

/// A header whose fixed fields do not match the table being read.
#[derive(Debug, Clone, Copy, PartialEq, Eq, Structural)]
pub enum InvalidHeaderError {
    /// `record_size` in the header differs from the table's row size.
    RecordSize { expected: u32, actual: u32 },
    /// `field_count` in the header differs from the table's field count.
    FieldCount { expected: u32, actual: u32 },
    /// The first four bytes are not the `WDBC` tag.
    Magic,
}

/// Everything that can go wrong while decoding a DBC byte stream or
/// resolving a table name.
#[derive(Debug, Clone, PartialEq)]
pub enum DbcError {
    /// The header is malformed or does not match the table.
    InvalidHeader(InvalidHeaderError),
    /// The input ended before the header, records and string block were read.
    Io,
    /// A string reference does not resolve to NUL-terminated UTF-8 text.
    InvalidString,
    /// An enum column holds a value outside the external enum's range.
    InvalidEnumValue { table: &'static str, field: &'static str, value: i64 },
    /// A table name matched no table of the version.
    InvalidTableName(String),
}

} // verus!
