//! Little-endian primitive readers and writers shared by every table codec,
//! together with the UTF-8 boundary that turns raw string-block bytes into
//! `String` values.

use vstd::prelude::*;
use crate::DbcError;

verus! {

/// The four little-endian bytes of `v`.
pub open spec fn u32_le(v: u32) -> Seq<u8> {
    vstd::bytes::spec_u32_to_le_bytes(v)
}

/// The `u32` stored little-endian at byte offset `i` of `b`.
pub open spec fn u32_at(b: Seq<u8>, i: int) -> u32 {
    vstd::bytes::spec_u32_from_le_bytes(b.subrange(i, i + 4))
}

/// The `i32` stored little-endian at byte offset `i` of `b`.
pub open spec fn i32_at(b: Seq<u8>, i: int) -> i32 {
    u32_at(b, i) as i32
}

pub broadcast proof fn lemma_u32_le_len(v: u32)
    ensures
        (#[trigger] u32_le(v)).len() == 4,
{
    vstd::bytes::lemma_auto_spec_u32_to_from_le_bytes();
}

/// Reading four bytes back out of `u32_le(v)` yields `v` again.
pub proof fn lemma_u32_at_of_le(b: Seq<u8>, i: int, v: u32)
    requires
        0 <= i,
        i + 4 <= b.len(),
        b.subrange(i, i + 4) == u32_le(v),
    ensures
        u32_at(b, i) == v,
{
    vstd::bytes::lemma_auto_spec_u32_to_from_le_bytes();
    assert(u32_le(v).len() == 4);
    assert(vstd::bytes::spec_u32_from_le_bytes(vstd::bytes::spec_u32_to_le_bytes(v)) == v);
}

/// Reading four bytes back out of `u32_le(v as u32)` yields the `i32` `v`.
pub proof fn lemma_i32_at_of_le(b: Seq<u8>, i: int, v: i32)
    requires
        0 <= i,
        i + 4 <= b.len(),
        b.subrange(i, i + 4) == u32_le(v as u32),
    ensures
        i32_at(b, i) == v,
{
    lemma_u32_at_of_le(b, i, v as u32);
    assert(v as u32 as i32 == v) by (bit_vector);
}

/// Reads the `u32` at `*pos`, advancing the position by four bytes.
pub fn read_u32_le(b: &[u8], pos: &mut usize) -> (r: u32)
    requires
        *old(pos) + 4 <= b@.len(),
    ensures
        r == u32_at(b@, *old(pos) as int),
        *final(pos) == *old(pos) + 4,
{
    let n: usize = b.len();
    assert(*pos + 4 <= n);
    let chunk = vstd::slice::slice_subrange(b, *pos, *pos + 4);
    let r = vstd::bytes::u32_from_le_bytes(chunk);
    *pos = *pos + 4;
    r
}

/// Reads the `i32` at `*pos`, advancing the position by four bytes.
pub fn read_i32_le(b: &[u8], pos: &mut usize) -> (r: i32)
    requires
        *old(pos) + 4 <= b@.len(),
    ensures
        r == i32_at(b@, *old(pos) as int),
        *final(pos) == *old(pos) + 4,
{
    read_u32_le(b, pos) as i32
}

/// Appends the four little-endian bytes of `v` to `out`.
pub fn push_u32_le(out: &mut Vec<u8>, v: u32)
    ensures
        final(out)@ == old(out)@ + u32_le(v),
{
    let mut bs = vstd::bytes::u32_to_le_bytes(v);
    out.append(&mut bs);
}

/// Appends the four little-endian bytes of `v` to `out`.
pub fn push_i32_le(out: &mut Vec<u8>, v: i32)
    ensures
        final(out)@ == old(out)@ + u32_le(v as u32),
{
    push_u32_le(out, v as u32);
}

/// Relies on `String::from_utf8`: succeeds exactly on valid UTF-8 and returns
/// the string made of those very bytes.
#[verifier::external_body]
pub fn string_from_utf8(v: Vec<u8>) -> (r: Option<String>)
    ensures
        r is Some <==> vstd::utf8::valid_utf8(v@),
        r matches Some(s) ==> vstd::utf8::encode_utf8(s@) == v@,
{
    String::from_utf8(v).ok()
}

/// Byte-for-byte equality of two slices.
pub fn bytes_eq(a: &[u8], b: &[u8]) -> (r: bool)
    ensures
        r == (a@ == b@),
{
    if a.len() != b.len() {
        proof {
            assert(a@.len() != b@.len());
        }
        return false;
    }
    let n = a.len();
    let mut i: usize = 0;
    while i < n
        invariant
            n == a@.len() == b@.len(),
            0 <= i <= n,
            forall|j: int| 0 <= j < i ==> a@[j] == b@[j],
        decreases n - i,
    {
        if *vstd::slice::slice_index_get(a, i) != *vstd::slice::slice_index_get(b, i) {
            return false;
        }
        i = i + 1;
    }
    proof {
        assert(a@ =~= b@);
    }
    true
}

/// The index of the first element of `rows` satisfying `p`, if any.
pub open spec fn find_first<T>(rows: Seq<T>, p: spec_fn(T) -> bool) -> Option<int>
    decreases rows.len(),
{
    if rows.len() == 0 {
        None
    } else if p(rows[0]) {
        Some(0int)
    } else {
        match find_first(rows.drop_first(), p) {
            None => None,
            Some(i) => Some(i + 1),
        }
    }
}

pub proof fn lemma_find_first_hit<T>(rows: Seq<T>, p: spec_fn(T) -> bool, i: int)
    requires
        0 <= i < rows.len(),
        p(rows[i]),
        forall|j: int| 0 <= j < i ==> !p(rows[j]),
    ensures
        find_first(rows, p) == Some(i),
    decreases i,
{
    if i == 0 {
    } else {
        assert(!p(rows[0]));
        lemma_find_first_hit(rows.drop_first(), p, i - 1);
    }
}

pub proof fn lemma_find_first_miss<T>(rows: Seq<T>, p: spec_fn(T) -> bool)
    requires
        forall|j: int| 0 <= j < rows.len() ==> !p(rows[j]),
    ensures
        find_first(rows, p) is None,
    decreases rows.len(),
{
    if rows.len() > 0 {
        lemma_find_first_miss(rows.drop_first(), p);
    }
}

} // verus!
