//! The string block: all string payloads of a table, NUL-terminated, packed
//! after the record region and addressed by byte offset. Offset 0 always
//! holds the lone NUL that encodes the empty string.

use vstd::prelude::*;
use crate::DbcError;
use crate::util::{u32_le, u32_at, read_u32_le, push_u32_le};

verus! {

/// The UTF-8 bytes of a string value.
pub open spec fn str_bytes(s: Seq<char>) -> Seq<u8> {
    vstd::utf8::encode_utf8(s)
}

/// True when no byte of `s` is NUL, so that `s` survives NUL-terminated
/// storage intact.
pub open spec fn no_nul(s: Seq<u8>) -> bool {
    forall|j: int| 0 <= j < s.len() ==> s[j] != 0
}

/// What one string slot contributes to the string block: its bytes plus a
/// terminating NUL, or nothing at all when the string is empty.
pub open spec fn slot_enc(s: Seq<u8>) -> Seq<u8> {
    if s.len() == 0 {
        Seq::empty()
    } else {
        s + seq![0u8]
    }
}

/// The block contribution of a sequence of string slots, in order.
pub open spec fn block_bytes(ss: Seq<Seq<u8>>) -> Seq<u8>
    decreases ss.len(),
{
    if ss.len() == 0 {
        Seq::empty()
    } else {
        slot_enc(ss[0]) + block_bytes(ss.drop_first())
    }
}

/// Length of the block contribution of `ss`.
pub open spec fn block_len(ss: Seq<Seq<u8>>) -> int {
    block_bytes(ss).len() as int
}

/// Every slot is free of NUL bytes.
pub open spec fn slots_wf(ss: Seq<Seq<u8>>) -> bool {
    forall|k: int| 0 <= k < ss.len() ==> no_nul(#[trigger] ss[k])
}

/// The offset a writer emits for a slot holding bytes `s` while its running
/// string cursor stands at `c`: the cursor for a non-empty string, 0 for an
/// empty one.
pub open spec fn slot_off(s: Seq<u8>, c: int) -> u32 {
    if s.len() == 0 {
        0u32
    } else {
        c as u32
    }
}

/// The bytes found by walking `b` from `off` up to the next NUL, or `None`
/// when `off` is out of bounds or no NUL follows.
pub open spec fn scan_block(b: Seq<u8>, off: int) -> Option<Seq<u8>>
    decreases b.len() - off,
{
    if off < 0 || off >= b.len() {
        None
    } else if b[off] == 0 {
        Some(Seq::empty())
    } else {
        match scan_block(b, off + 1) {
            None => None,
            Some(s) => Some(seq![b[off]] + s),
        }
    }
}

/// What a reader makes of the string reference `off` against block `b`:
/// the text found there, or `InvalidString` when the offset does not lead
/// to NUL-terminated UTF-8.
pub open spec fn decode_str(b: Seq<u8>, off: u32) -> Result<Seq<char>, DbcError> {
    match scan_block(b, off as int) {
        None => Err(DbcError::InvalidString),
        Some(bs) => if vstd::utf8::valid_utf8(bs) {
            Ok(vstd::utf8::decode_utf8(bs))
        } else {
            Err(DbcError::InvalidString)
        },
    }
}

pub proof fn lemma_block_bytes_concat(a: Seq<Seq<u8>>, b: Seq<Seq<u8>>)
    ensures
        block_bytes(a + b) == block_bytes(a) + block_bytes(b),
    decreases a.len(),
{
    if a.len() == 0 {
        assert(a + b =~= b);
        assert(block_bytes(a) + block_bytes(b) =~= block_bytes(b));
    } else {
        assert((a + b).drop_first() =~= a.drop_first() + b);
        lemma_block_bytes_concat(a.drop_first(), b);
        assert(block_bytes(a + b) =~= block_bytes(a) + block_bytes(b));
    }
}

/// Appending one more slot extends the block contribution by that slot.
pub proof fn lemma_block_bytes_push(ss: Seq<Seq<u8>>, s: Seq<u8>)
    ensures
        block_bytes(ss.push(s)) == block_bytes(ss) + slot_enc(s),
{
    assert(ss.push(s) =~= ss + seq![s]);
    lemma_block_bytes_concat(ss, seq![s]);
    assert(seq![s].drop_first() =~= Seq::<Seq<u8>>::empty());
    assert(block_bytes(Seq::<Seq<u8>>::empty()) =~= Seq::<u8>::empty());
    assert(block_bytes(seq![s]) =~= slot_enc(s) + block_bytes(seq![s].drop_first()));
    assert(block_bytes(seq![s]) =~= slot_enc(s));
}

/// The block contribution of a single slot.
pub proof fn lemma_block_bytes_single(s: Seq<u8>)
    ensures
        block_bytes(seq![s]) == slot_enc(s),
{
    assert(seq![s].drop_first() =~= Seq::<Seq<u8>>::empty());
    assert(block_bytes(Seq::<Seq<u8>>::empty()) =~= Seq::<u8>::empty());
    assert(block_bytes(seq![s]) =~= slot_enc(s) + block_bytes(seq![s].drop_first()));
    assert(block_bytes(seq![s]) =~= slot_enc(s));
}

/// Scanning from `off` finds exactly the NUL-free bytes laid down there.
pub proof fn lemma_scan_found(b: Seq<u8>, off: int, end: int)
    requires
        0 <= off <= end < b.len(),
        forall|j: int| off <= j < end ==> b[j] != 0,
        b[end] == 0,
    ensures
        scan_block(b, off) == Some(b.subrange(off, end)),
    decreases end - off,
{
    if off == end {
        assert(b.subrange(off, end) =~= Seq::empty());
    } else {
        lemma_scan_found(b, off + 1, end);
        assert(seq![b[off]] + b.subrange(off + 1, end) =~= b.subrange(off, end));
    }
}

/// A scan that meets no NUL at all comes back empty-handed.
pub proof fn lemma_scan_none(b: Seq<u8>, off: int)
    requires
        0 <= off <= b.len(),
        forall|j: int| off <= j < b.len() ==> b[j] != 0,
    ensures
        scan_block(b, off) is None,
    decreases b.len() - off,
{
    if off < b.len() {
        lemma_scan_none(b, off + 1);
    }
}

/// Scanning at the offset where a non-empty NUL-free slot was written
/// recovers that slot.
pub proof fn lemma_scan_at_slot(b: Seq<u8>, off: int, s: Seq<u8>)
    requires
        0 <= off,
        s.len() > 0,
        off + s.len() < b.len(),
        b.subrange(off, off + s.len() as int) == s,
        b[off + s.len()] == 0,
        no_nul(s),
    ensures
        scan_block(b, off) == Some(s),
{
    assert forall|j: int| off <= j < off + s.len() implies b[j] != 0 by {
        assert(s[j - off] == b.subrange(off, off + s.len() as int)[j - off]);
    }
    lemma_scan_found(b, off, off + s.len() as int);
}

/// Reads a 4-byte string reference from `rec` at `*pos` and resolves it in
/// `block`, returning the text or `InvalidString`.
pub fn read_string_ref(rec: &[u8], pos: &mut usize, block: &[u8]) -> (r: Result<String, DbcError>)
    requires
        *old(pos) + 4 <= rec@.len(),
    ensures
        *final(pos) == *old(pos) + 4,
        match r {
            Ok(s) => decode_str(block@, u32_at(rec@, *old(pos) as int)) == Ok::<_, DbcError>(s@),
            Err(e) => decode_str(block@, u32_at(rec@, *old(pos) as int)) == Err::<Seq<char>, _>(e),
        },
{
    let off = read_u32_le(rec, pos);
    let n: usize = block.len();
    if off as usize >= n {
        proof {
            assert(scan_block(block@, off as int) is None);
        }
        return Err(DbcError::InvalidString);
    }
    let start = off as usize;
    let mut i: usize = start;
    while i < n && *vstd::slice::slice_index_get(block, i) != 0
        invariant
            n == block@.len(),
            start <= i <= n,
            forall|j: int| start <= j < i ==> block@[j] != 0,
        decreases n - i,
    {
        i = i + 1;
    }
    if i == n {
        proof {
            lemma_scan_none(block@, start as int);
        }
        return Err(DbcError::InvalidString);
    }
    proof {
        lemma_scan_found(block@, start as int, i as int);
    }
    let raw = vstd::slice::slice_subrange(block, start, i);
    let bytes = vstd::slice::slice_to_vec(raw);
    match crate::util::string_from_utf8(bytes) {
        Some(s) => {
            proof {
                vstd::utf8::encode_utf8_decode_utf8(s@);
            }
            Ok(s)
        },
        None => Err(DbcError::InvalidString),
    }
}

/// Emits the 4-byte reference for string `s` at the running cursor
/// `*cursor`, advancing the cursor past the bytes the block will hold for it.
pub fn write_string_ref(out: &mut Vec<u8>, s: &String, cursor: &mut u64)
    requires
        *old(cursor) + slot_enc(str_bytes(s@)).len() <= u32::MAX,
    ensures
        final(out)@ == old(out)@ + u32_le(slot_off(str_bytes(s@), *old(cursor) as int)),
        *final(cursor) == *old(cursor) + slot_enc(str_bytes(s@)).len(),
{
    let bs = s.as_str().as_bytes();
    if bs.len() == 0 {
        push_u32_le(out, 0);
    } else {
        push_u32_le(out, *cursor as u32);
        *cursor = *cursor + bs.len() as u64 + 1;
    }
}

/// Appends what `s` contributes to the string block: its bytes and a NUL,
/// or nothing when `s` is empty.
pub fn push_block_slot(out: &mut Vec<u8>, s: &String)
    ensures
        final(out)@ == old(out)@ + slot_enc(str_bytes(s@)),
{
    let bs = s.as_str().as_bytes();
    if bs.len() > 0 {
        out.extend_from_slice(bs);
        out.push(0);
        proof {
            assert(final(out)@ =~= old(out)@ + slot_enc(str_bytes(s@)));
        }
    }
}

/// The number of block bytes `s` will occupy: `len + 1` when non-empty.
pub fn slot_size(s: &String) -> (r: u64)
    requires
        slot_enc(str_bytes(s@)).len() <= u64::MAX,
    ensures
        r == slot_enc(str_bytes(s@)).len(),
{
    let bs = s.as_str().as_bytes();
    if bs.len() == 0 {
        0
    } else {
        bs.len() as u64 + 1
    }
}

} // verus!
