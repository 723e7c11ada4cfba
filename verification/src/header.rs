//! The fixed 20-byte DBC preface: the `WDBC` tag followed by four
//! little-endian `u32` fields.

use vstd::prelude::*;
use crate::DbcError;
use crate::InvalidHeaderError;
use crate::util::{u32_le, u32_at, read_u32_le, push_u32_le, lemma_u32_at_of_le, lemma_u32_le_len};

verus! {

pub const HEADER_SIZE: usize = 20;

/// The four counted fields of a DBC header, after the magic tag.
#[derive(Debug, Clone, Copy, PartialEq, Eq, Structural)]
pub struct DbcHeader {
    pub record_count: u32,
    pub field_count: u32,
    pub record_size: u32,
    pub string_block_size: u32,
}

/// The `WDBC` tag.
pub open spec fn magic_bytes() -> Seq<u8> {
    seq![0x57u8, 0x44u8, 0x42u8, 0x43u8]
}

/// The 20 bytes a header occupies on disk.
pub open spec fn header_bytes(h: DbcHeader) -> Seq<u8> {
    magic_bytes() + u32_le(h.record_count) + u32_le(h.field_count) + u32_le(h.record_size)
        + u32_le(h.string_block_size)
}

/// What a reader makes of the start of `b`: the header fields, `Io` when
/// fewer than 20 bytes are present, or the magic error when the tag is wrong.
pub open spec fn parse_header_spec(b: Seq<u8>) -> Result<DbcHeader, DbcError> {
    if b.len() < 20 {
        Err(DbcError::Io)
    } else if b.subrange(0, 4) != magic_bytes() {
        Err(DbcError::InvalidHeader(InvalidHeaderError::Magic))
    } else {
        Ok(
            DbcHeader {
                record_count: u32_at(b, 4),
                field_count: u32_at(b, 8),
                record_size: u32_at(b, 12),
                string_block_size: u32_at(b, 16),
            },
        )
    }
}

/// Parses the header at the front of `b`.
pub fn parse_header(b: &[u8]) -> (r: Result<DbcHeader, DbcError>)
    ensures
        r == parse_header_spec(b@),
{
    if b.len() < HEADER_SIZE {
        return Err(DbcError::Io);
    }
    let m0 = *vstd::slice::slice_index_get(b, 0);
    let m1 = *vstd::slice::slice_index_get(b, 1);
    let m2 = *vstd::slice::slice_index_get(b, 2);
    let m3 = *vstd::slice::slice_index_get(b, 3);
    if m0 != 0x57 || m1 != 0x44 || m2 != 0x42 || m3 != 0x43 {
        proof {
            assert(b@.subrange(0, 4)[0] == b@[0]);
            assert(b@.subrange(0, 4)[1] == b@[1]);
            assert(b@.subrange(0, 4)[2] == b@[2]);
            assert(b@.subrange(0, 4)[3] == b@[3]);
            assert(b@.subrange(0, 4) != magic_bytes());
        }
        return Err(DbcError::InvalidHeader(InvalidHeaderError::Magic));
    }
    proof {
        assert(b@.subrange(0, 4) =~= magic_bytes());
    }
    let mut pos: usize = 4;
    let record_count = read_u32_le(b, &mut pos);
    let field_count = read_u32_le(b, &mut pos);
    let record_size = read_u32_le(b, &mut pos);
    let string_block_size = read_u32_le(b, &mut pos);
    Ok(DbcHeader { record_count, field_count, record_size, string_block_size })
}

/// Appends the 20 header bytes for `h` to `out`.
pub fn write_header(out: &mut Vec<u8>, h: &DbcHeader)
    ensures
        final(out)@ == old(out)@ + header_bytes(*h),
{
    out.push(0x57);
    out.push(0x44);
    out.push(0x42);
    out.push(0x43);
    push_u32_le(out, h.record_count);
    push_u32_le(out, h.field_count);
    push_u32_le(out, h.record_size);
    push_u32_le(out, h.string_block_size);
    proof {
        assert(final(out)@ =~= old(out)@ + header_bytes(*h));
    }
}

/// Parsing a written header, whatever follows it, yields the header back.
pub proof fn lemma_parse_header(h: DbcHeader, rest: Seq<u8>)
    ensures
        parse_header_spec(header_bytes(h) + rest) == Ok::<DbcHeader, DbcError>(h),
        (header_bytes(h) + rest).len() == 20 + rest.len(),
{
    lemma_u32_le_len(h.record_count);
    lemma_u32_le_len(h.field_count);
    lemma_u32_le_len(h.record_size);
    lemma_u32_le_len(h.string_block_size);
    let b = header_bytes(h) + rest;
    assert(b.subrange(0, 4) =~= magic_bytes());
    assert(b.subrange(4, 8) =~= u32_le(h.record_count));
    assert(b.subrange(8, 12) =~= u32_le(h.field_count));
    assert(b.subrange(12, 16) =~= u32_le(h.record_size));
    assert(b.subrange(16, 20) =~= u32_le(h.string_block_size));
    lemma_u32_at_of_le(b, 4, h.record_count);
    lemma_u32_at_of_le(b, 8, h.field_count);
    lemma_u32_at_of_le(b, 12, h.record_size);
    lemma_u32_at_of_le(b, 16, h.string_block_size);
}

} // verus!
