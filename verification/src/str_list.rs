//! A run of consecutive 4-byte string references inside one record:
//! localized strings and string arrays are both read and written as such a
//! run, so the cursor bookkeeping and its proofs live here once.

use vstd::prelude::*;
use crate::DbcError;
use crate::util::{u32_le, u32_at, lemma_u32_at_of_le, lemma_u32_le_len};
use crate::string_block::{
    str_bytes, no_nul, slot_enc, slot_off, block_bytes, block_len, slots_wf, decode_str,
    lemma_block_bytes_concat, lemma_block_bytes_push, lemma_scan_at_slot, read_string_ref,
    write_string_ref, push_block_slot, slot_size,
};

verus! {

/// The slot bytes of a list of string values.
pub open spec fn strs_slots(ss: Seq<Seq<char>>) -> Seq<Seq<u8>> {
    ss.map_values(|s: Seq<char>| str_bytes(s))
}

/// The views of a list of `String`s.
pub open spec fn strs_view(v: Seq<String>) -> Seq<Seq<char>> {
    v.map_values(|s: String| s@)
}

/// The 4-byte references a writer emits for the list, threading the string
/// cursor from `c`.
pub open spec fn strs_rec_bytes(ss: Seq<Seq<char>>, c: int) -> Seq<u8>
    decreases ss.len(),
{
    if ss.len() == 0 {
        Seq::empty()
    } else {
        u32_le(slot_off(str_bytes(ss[0]), c)) + strs_rec_bytes(
            ss.drop_first(),
            c + slot_enc(str_bytes(ss[0])).len(),
        )
    }
}

/// What a reader makes of the first `k` references of the run starting at
/// `pos`.
pub open spec fn decode_strs(rec: Seq<u8>, pos: int, k: nat, block: Seq<u8>) -> Result<
    Seq<Seq<char>>,
    DbcError,
>
    decreases k,
{
    if k == 0 {
        Ok(Seq::empty())
    } else {
        match decode_strs(rec, pos, (k - 1) as nat, block) {
            Err(e) => Err(e),
            Ok(ss) => match decode_str(block, u32_at(rec, pos + 4 * (k - 1))) {
                Err(e) => Err(e),
                Ok(s) => Ok(ss.push(s)),
            },
        }
    }
}

pub proof fn lemma_strs_slots_push(ss: Seq<Seq<char>>, s: Seq<char>)
    ensures
        strs_slots(ss.push(s)) == strs_slots(ss).push(str_bytes(s)),
{
    assert(strs_slots(ss.push(s)) =~= strs_slots(ss).push(str_bytes(s)));
}

pub proof fn lemma_strs_rec_bytes_len(ss: Seq<Seq<char>>, c: int)
    ensures
        strs_rec_bytes(ss, c).len() == 4 * ss.len(),
    decreases ss.len(),
{
    lemma_u32_le_len(slot_off(str_bytes(ss[0]), c));
    if ss.len() > 0 {
        lemma_strs_rec_bytes_len(ss.drop_first(), c + slot_enc(str_bytes(ss[0])).len());
    }
}

/// Appending one string extends the reference run by one offset, emitted at
/// the cursor the earlier strings left behind.
pub proof fn lemma_strs_rec_bytes_push(ss: Seq<Seq<char>>, s: Seq<char>, c: int)
    ensures
        strs_rec_bytes(ss.push(s), c) == strs_rec_bytes(ss, c) + u32_le(
            slot_off(str_bytes(s), c + block_len(strs_slots(ss))),
        ),
    decreases ss.len(),
{
    if ss.len() == 0 {
        assert(ss.push(s)[0] == s);
        assert(ss.push(s).drop_first() =~= Seq::<Seq<char>>::empty());
        assert(strs_rec_bytes(Seq::<Seq<char>>::empty(), c + slot_enc(str_bytes(s)).len())
            =~= Seq::<u8>::empty());
        assert(strs_slots(ss) =~= Seq::<Seq<u8>>::empty());
        assert(block_bytes(Seq::<Seq<u8>>::empty()) =~= Seq::<u8>::empty());
        assert(strs_rec_bytes(ss, c) =~= Seq::<u8>::empty());
        assert(strs_rec_bytes(ss.push(s), c) =~= u32_le(slot_off(str_bytes(s), c)));
    } else {
        let tail = ss.drop_first();
        assert(ss.push(s)[0] == ss[0]);
        assert(ss.push(s).drop_first() =~= tail.push(s));
        let c1 = c + slot_enc(str_bytes(ss[0])).len();
        lemma_strs_rec_bytes_push(tail, s, c1);
        assert(strs_slots(ss) =~= strs_slots(ss).take(1) + strs_slots(tail)) by {
            assert(strs_slots(ss).len() == ss.len());
            assert(forall|i: int| 0 <= i < tail.len() ==> strs_slots(tail)[i] == strs_slots(
                ss,
            )[i + 1]);
        }
        lemma_block_bytes_concat(strs_slots(ss).take(1), strs_slots(tail));
        assert(strs_slots(ss).take(1) =~= seq![str_bytes(ss[0])]);
        assert(seq![str_bytes(ss[0])].drop_first() =~= Seq::<Seq<u8>>::empty());
        assert(block_bytes(Seq::<Seq<u8>>::empty()) =~= Seq::<u8>::empty());
        assert(block_bytes(seq![str_bytes(ss[0])]) =~= slot_enc(str_bytes(ss[0])));
        assert(block_len(strs_slots(ss)) == slot_enc(str_bytes(ss[0])).len() + block_len(
            strs_slots(tail),
        ));
        assert(strs_rec_bytes(ss.push(s), c) =~= strs_rec_bytes(ss, c) + u32_le(
            slot_off(str_bytes(s), c + block_len(strs_slots(ss))),
        ));
    }
}

/// The `k`-th emitted reference of the run, and where its slot sits.
pub proof fn lemma_strs_rec_bytes_index(ss: Seq<Seq<char>>, c: int, k: int)
    requires
        0 <= k < ss.len(),
    ensures
        strs_rec_bytes(ss, c).subrange(4 * k, 4 * k + 4) == u32_le(
            slot_off(str_bytes(ss[k]), c + block_len(strs_slots(ss.take(k)))),
        ),
    decreases k,
{
    lemma_strs_rec_bytes_len(ss, c);
    lemma_u32_le_len(slot_off(str_bytes(ss[0]), c));
    if k == 0 {
        assert(ss.take(0) =~= Seq::<Seq<char>>::empty());
        assert(strs_slots(ss.take(0)) =~= Seq::<Seq<u8>>::empty());
        assert(block_bytes(Seq::<Seq<u8>>::empty()) =~= Seq::<u8>::empty());
        assert(strs_rec_bytes(ss, c).subrange(0, 4) =~= u32_le(slot_off(str_bytes(ss[0]), c)));
    } else {
        let tail = ss.drop_first();
        let c1 = c + slot_enc(str_bytes(ss[0])).len();
        lemma_strs_rec_bytes_index(tail, c1, k - 1);
        lemma_strs_rec_bytes_len(tail, c1);
        assert(strs_rec_bytes(ss, c).subrange(4 * k, 4 * k + 4) =~= strs_rec_bytes(
            tail,
            c1,
        ).subrange(4 * (k - 1), 4 * (k - 1) + 4));
        assert(ss.take(k) =~= seq![ss[0]] + tail.take(k - 1));
        assert(strs_slots(ss.take(k)) =~= seq![str_bytes(ss[0])] + strs_slots(tail.take(k - 1)));
        lemma_block_bytes_concat(seq![str_bytes(ss[0])], strs_slots(tail.take(k - 1)));
        assert(seq![str_bytes(ss[0])].drop_first() =~= Seq::<Seq<u8>>::empty());
        assert(block_bytes(Seq::<Seq<u8>>::empty()) =~= Seq::<u8>::empty());
        assert(block_bytes(seq![str_bytes(ss[0])]) =~= slot_enc(str_bytes(ss[0])));
        assert(tail[k - 1] == ss[k]);
        assert(c1 + block_len(strs_slots(tail.take(k - 1))) == c + block_len(
            strs_slots(ss.take(k)),
        ));
    }
}

/// Where slot `k` of a slot list sits inside the list's block contribution.
pub proof fn lemma_slots_block_at(ss: Seq<Seq<u8>>, k: int)
    requires
        0 <= k < ss.len(),
    ensures
        block_len(ss.take(k)) + slot_enc(ss[k]).len() <= block_len(ss),
        block_bytes(ss).subrange(
            block_len(ss.take(k)),
            block_len(ss.take(k)) + slot_enc(ss[k]).len(),
        ) == slot_enc(ss[k]),
{
    assert(ss =~= ss.take(k) + seq![ss[k]] + ss.skip(k + 1));
    lemma_block_bytes_concat(ss.take(k) + seq![ss[k]], ss.skip(k + 1));
    lemma_block_bytes_concat(ss.take(k), seq![ss[k]]);
    assert(seq![ss[k]].drop_first() =~= Seq::<Seq<u8>>::empty());
    assert(block_bytes(Seq::<Seq<u8>>::empty()) =~= Seq::<u8>::empty());
    assert(block_bytes(seq![ss[k]]) =~= slot_enc(ss[k]));
    assert(block_bytes(ss) =~= block_bytes(ss.take(k)) + slot_enc(ss[k]) + block_bytes(
        ss.skip(k + 1),
    ));
    assert(block_bytes(ss).subrange(
        block_len(ss.take(k)),
        block_len(ss.take(k)) + slot_enc(ss[k]).len(),
    ) =~= slot_enc(ss[k]));
}

/// A contiguous run of slots laid down at `c` puts each inner segment at
/// `c` plus the length of what precedes it.
pub proof fn lemma_block_segment(
    block: Seq<u8>,
    c: int,
    pre: Seq<Seq<u8>>,
    mid: Seq<Seq<u8>>,
    post: Seq<Seq<u8>>,
)
    requires
        0 <= c,
        c + block_len(pre + mid + post) <= block.len(),
        block.subrange(c, c + block_len(pre + mid + post)) == block_bytes(pre + mid + post),
    ensures
        block.subrange(c + block_len(pre), c + block_len(pre) + block_len(mid)) == block_bytes(
            mid,
        ),
        block_len(pre) + block_len(mid) <= block_len(pre + mid + post),
        0 <= block_len(pre),
        0 <= block_len(mid),
{
    lemma_block_bytes_concat(pre + mid, post);
    lemma_block_bytes_concat(pre, mid);
    let off = block_len(pre);
    let l = block_len(mid);
    assert(block_bytes(pre + mid + post) =~= block_bytes(pre) + block_bytes(mid) + block_bytes(
        post,
    ));
    assert(block.subrange(c + off, c + off + l) =~= block_bytes(mid)) by {
        assert forall|j: int| 0 <= j < l implies block.subrange(c + off, c + off + l)[j]
            == block_bytes(mid)[j] by {
            assert(block.subrange(c + off, c + off + l)[j] == block[c + off + j]);
            assert(block.subrange(c, c + block_len(pre + mid + post))[off + j] == block[c + off
                + j]);
            assert(block_bytes(pre + mid + post)[off + j] == block_bytes(mid)[j]);
        }
    }
}

/// The single-slot case of [`lemma_block_segment`]: where slot `k` of a run
/// laid down at `c` sits inside `block`.
pub proof fn lemma_block_slot_at(block: Seq<u8>, c: int, ss: Seq<Seq<u8>>, k: int)
    requires
        0 <= k < ss.len(),
        0 <= c,
        c + block_len(ss) <= block.len(),
        block.subrange(c, c + block_len(ss)) == block_bytes(ss),
    ensures
        block.subrange(
            c + block_len(ss.take(k)),
            c + block_len(ss.take(k)) + slot_enc(ss[k]).len(),
        ) == slot_enc(ss[k]),
        block_len(ss.take(k)) + slot_enc(ss[k]).len() <= block_len(ss),
        0 <= block_len(ss.take(k)),
{
    assert(ss =~= ss.take(k) + seq![ss[k]] + ss.skip(k + 1));
    lemma_block_segment(block, c, ss.take(k), seq![ss[k]], ss.skip(k + 1));
    assert(seq![ss[k]].drop_first() =~= Seq::<Seq<u8>>::empty());
    assert(block_bytes(Seq::<Seq<u8>>::empty()) =~= Seq::<u8>::empty());
    assert(block_bytes(seq![ss[k]]) =~= slot_enc(ss[k]));
}

/// Decoding one written slot at its cursor position recovers the string.
pub proof fn lemma_decode_written_slot(block: Seq<u8>, c: int, s: Seq<char>)
    requires
        no_nul(str_bytes(s)),
        1 <= c,
        c <= u32::MAX,
        c + slot_enc(str_bytes(s)).len() <= block.len(),
        block[0] == 0,
        block.subrange(c, c + slot_enc(str_bytes(s)).len() as int) == slot_enc(str_bytes(s)),
    ensures
        decode_str(block, slot_off(str_bytes(s), c)) == Ok::<Seq<char>, DbcError>(s),
{
    let bs = str_bytes(s);
    vstd::utf8::encode_utf8_valid_utf8(s);
    vstd::utf8::encode_utf8_decode_utf8(s);
    if bs.len() == 0 {
        assert(s.len() == 0);
        assert(slot_off(bs, c) == 0u32);
        assert(block[0] == 0);
        assert(scan_block_zero(block));
        assert(vstd::utf8::decode_utf8(Seq::<u8>::empty()) =~= Seq::<char>::empty());
        assert(s =~= Seq::<char>::empty());
    } else {
        assert(slot_enc(bs) =~= bs + seq![0u8]);
        assert(block.subrange(c, c + bs.len() as int) =~= bs) by {
            assert(forall|j: int|
                0 <= j < bs.len() ==> block.subrange(c, c + slot_enc(bs).len() as int)[j] == (bs
                    + seq![0u8])[j]);
        }
        assert(block[c + bs.len()] == 0) by {
            assert(block.subrange(c, c + slot_enc(bs).len() as int)[bs.len() as int] == (bs
                + seq![0u8])[bs.len() as int]);
        }
        lemma_scan_at_slot(block, c, bs);
        assert(slot_off(bs, c) == c as u32);
        assert(c as u32 as int == c);
    }
}

/// Scanning a block at offset 0 yields the empty string: offset 0 holds the
/// sentinel NUL.
pub open spec fn scan_block_zero(block: Seq<u8>) -> bool {
    crate::string_block::scan_block(block, 0) == Some(Seq::<u8>::empty())
}

/// The whole written reference run decodes back to the very strings given.
pub proof fn lemma_strs_round_trip(
    ss: Seq<Seq<char>>,
    rec: Seq<u8>,
    pos: int,
    block: Seq<u8>,
    c: int,
    k: nat,
)
    requires
        slots_wf(strs_slots(ss)),
        1 <= c,
        c + block_len(strs_slots(ss)) <= u32::MAX,
        c + block_len(strs_slots(ss)) <= block.len(),
        block[0] == 0,
        block.subrange(c, c + block_len(strs_slots(ss))) == block_bytes(strs_slots(ss)),
        0 <= pos,
        pos + 4 * ss.len() <= rec.len(),
        rec.subrange(pos, pos + 4 * ss.len()) == strs_rec_bytes(ss, c),
        k <= ss.len(),
    ensures
        decode_strs(rec, pos, k, block) == Ok::<Seq<Seq<char>>, DbcError>(ss.take(k as int)),
    decreases k,
{
    if k == 0 {
        assert(ss.take(0) =~= Seq::<Seq<char>>::empty());
    } else {
        lemma_strs_round_trip(ss, rec, pos, block, c, (k - 1) as nat);
        let j = k - 1;
        let slots = strs_slots(ss);
        let ck = c + block_len(slots.take(j));
        lemma_strs_rec_bytes_index(ss, c, j);
        assert(strs_slots(ss.take(j)) =~= slots.take(j));
        lemma_strs_rec_bytes_len(ss, c);
        assert(rec.subrange(pos + 4 * j, pos + 4 * j + 4) =~= strs_rec_bytes(ss, c).subrange(
            4 * j,
            4 * j + 4,
        ));
        lemma_u32_le_len(slot_off(str_bytes(ss[j]), ck));
        lemma_u32_at_of_le(rec, pos + 4 * j, slot_off(str_bytes(ss[j]), ck));
        lemma_slots_block_at(slots, j);
        assert(block.subrange(ck, ck + slot_enc(str_bytes(ss[j])).len()) =~= block_bytes(
            slots,
        ).subrange(
            block_len(slots.take(j)),
            block_len(slots.take(j)) + slot_enc(str_bytes(ss[j])).len(),
        ));
        assert(slots[j] == str_bytes(ss[j]));
        lemma_decode_written_slot(block, ck, ss[j]);
        assert(ss.take(j).push(ss[j]) =~= ss.take(k as int));
    }
}

/// A reference that fails to resolve fails the whole run with its error.
pub proof fn lemma_decode_strs_error(
    rec: Seq<u8>,
    pos: int,
    i: nat,
    m: nat,
    block: Seq<u8>,
    e: DbcError,
)
    requires
        decode_strs(rec, pos, i, block) is Ok,
        decode_str(block, u32_at(rec, pos + 4 * i)) == Err::<Seq<char>, DbcError>(e),
        i < m,
    ensures
        decode_strs(rec, pos, m, block) == Err::<Seq<Seq<char>>, DbcError>(e),
    decreases m,
{
    if m == i + 1 {
    } else {
        lemma_decode_strs_error(rec, pos, i, (m - 1) as nat, block, e);
    }
}

/// Reads `n` consecutive string references at `*pos`, resolving each in
/// `block`.
#[verifier::loop_isolation(false)]
pub fn read_str_list(rec: &[u8], pos: &mut usize, n: usize, block: &[u8]) -> (r: Result<
    Vec<String>,
    DbcError,
>)
    requires
        *old(pos) + 4 * n <= rec@.len(),
    ensures
        match r {
            Ok(v) => {
                &&& *final(pos) == *old(pos) + 4 * n
                &&& v@.len() == n
                &&& decode_strs(rec@, *old(pos) as int, n as nat, block@) == Ok::<
                    Seq<Seq<char>>,
                    DbcError,
                >(strs_view(v@))
            },
            Err(e) => decode_strs(rec@, *old(pos) as int, n as nat, block@) == Err::<
                Seq<Seq<char>>,
                DbcError,
            >(e),
        },
{
    let ghost pos0 = *old(pos) as int;
    let mut out: Vec<String> = Vec::new();
    proof {
        assert(strs_view(out@) =~= Seq::<Seq<char>>::empty());
    }
    let mut k: usize = 0;
    while k < n
        invariant
            *pos == pos0 + 4 * k,
            0 <= k <= n,
            pos0 + 4 * n <= rec@.len(),
            out@.len() == k,
            decode_strs(rec@, pos0, k as nat, block@) == Ok::<Seq<Seq<char>>, DbcError>(
                strs_view(out@),
            ),
        decreases n - k,
    {
        match read_string_ref(rec, pos, block) {
            Ok(s) => {
                let ghost pre = out@;
                let ghost sv = s@;
                out.push(s);
                proof {
                    assert(out@ == pre.push(s));
                    assert(strs_view(out@) =~= strs_view(pre).push(sv));
                    assert(decode_strs(rec@, pos0, (k + 1) as nat, block@) == Ok::<
                        Seq<Seq<char>>,
                        DbcError,
                    >(strs_view(pre).push(sv)));
                }
            },
            Err(e) => {
                proof {
                    lemma_decode_strs_error(rec@, pos0, k as nat, n as nat, block@, e);
                }
                return Err(e);
            },
        }
        k = k + 1;
    }
    Ok(out)
}

/// Emits the 4-byte references for every string of `v`, advancing the
/// string cursor past each non-empty one.
#[verifier::loop_isolation(false)]
pub fn write_str_list(out: &mut Vec<u8>, v: &Vec<String>, cursor: &mut u64)
    requires
        1 <= *old(cursor),
        *old(cursor) + block_len(strs_slots(strs_view(v@))) <= u32::MAX,
    ensures
        final(out)@ == old(out)@ + strs_rec_bytes(strs_view(v@), *old(cursor) as int),
        *final(cursor) == *old(cursor) + block_len(strs_slots(strs_view(v@))),
{
    let ghost sv = strs_view(v@);
    let ghost c0 = *old(cursor) as int;
    let ghost out0 = old(out)@;
    proof {
        assert(sv.take(0) =~= Seq::<Seq<char>>::empty());
        assert(strs_slots(sv.take(0)) =~= Seq::<Seq<u8>>::empty());
        assert(block_bytes(Seq::<Seq<u8>>::empty()) =~= Seq::<u8>::empty());
        assert(strs_rec_bytes(sv.take(0), c0) =~= Seq::<u8>::empty());
        assert(out@ =~= out0 + strs_rec_bytes(sv.take(0), c0));
    }
    let n: usize = v.len();
    let mut i: usize = 0;
    while i < n
        invariant
            0 <= i <= n,
            n == v@.len(),
            out@ == out0 + strs_rec_bytes(sv.take(i as int), c0),
            *cursor == c0 + block_len(strs_slots(sv.take(i as int))),
        decreases n - i,
    {
        proof {
            assert(strs_slots(sv.take(i as int)) =~= strs_slots(sv).take(i as int));
            lemma_slots_block_at(strs_slots(sv), i as int);
            assert(strs_slots(sv)[i as int] == str_bytes(sv[i as int]));
        }
        write_string_ref(out, &v[i], cursor);
        proof {
            lemma_strs_rec_bytes_push(sv.take(i as int), sv[i as int], c0);
            lemma_strs_slots_push(sv.take(i as int), sv[i as int]);
            lemma_block_bytes_push(strs_slots(sv.take(i as int)), str_bytes(sv[i as int]));
            assert(sv.take(i as int).push(sv[i as int]) =~= sv.take(i + 1));
        }
        i = i + 1;
    }
    proof {
        assert(sv.take(n as int) =~= sv);
    }
}

/// Appends every string's block contribution, in order.
#[verifier::loop_isolation(false)]
pub fn push_block_slots(out: &mut Vec<u8>, v: &Vec<String>)
    ensures
        final(out)@ == old(out)@ + block_bytes(strs_slots(strs_view(v@))),
{
    let ghost sv = strs_view(v@);
    let ghost out0 = old(out)@;
    proof {
        assert(strs_slots(sv.take(0)) =~= Seq::<Seq<u8>>::empty());
        assert(block_bytes(Seq::<Seq<u8>>::empty()) =~= Seq::<u8>::empty());
        assert(out@ =~= out0 + block_bytes(strs_slots(sv.take(0))));
    }
    let n: usize = v.len();
    let mut i: usize = 0;
    while i < n
        invariant
            0 <= i <= n,
            n == v@.len(),
            out@ == out0 + block_bytes(strs_slots(sv.take(i as int))),
        decreases n - i,
    {
        push_block_slot(out, &v[i]);
        proof {
            lemma_strs_slots_push(sv.take(i as int), sv[i as int]);
            lemma_block_bytes_push(strs_slots(sv.take(i as int)), str_bytes(sv[i as int]));
            assert(sv.take(i as int).push(sv[i as int]) =~= sv.take(i + 1));
        }
        i = i + 1;
    }
    proof {
        assert(sv.take(n as int) =~= sv);
    }
}

/// The number of block bytes the strings of `v` will occupy.
#[verifier::loop_isolation(false)]
pub fn str_list_block_size(v: &Vec<String>) -> (r: u64)
    requires
        block_len(strs_slots(strs_view(v@))) <= u32::MAX,
    ensures
        r == block_len(strs_slots(strs_view(v@))),
{
    let ghost sv = strs_view(v@);
    proof {
        assert(strs_slots(sv.take(0)) =~= Seq::<Seq<u8>>::empty());
        assert(block_bytes(Seq::<Seq<u8>>::empty()) =~= Seq::<u8>::empty());
    }
    let n: usize = v.len();
    let mut sum: u64 = 0;
    let mut i: usize = 0;
    while i < n
        invariant
            0 <= i <= n,
            n == v@.len(),
            sum == block_len(strs_slots(sv.take(i as int))),
        decreases n - i,
    {
        proof {
            assert(strs_slots(sv.take(i as int)) =~= strs_slots(sv).take(i as int));
            lemma_slots_block_at(strs_slots(sv), i as int);
            assert(strs_slots(sv)[i as int] == str_bytes(sv[i as int]));
            lemma_strs_slots_push(sv.take(i as int), sv[i as int]);
            lemma_block_bytes_push(strs_slots(sv.take(i as int)), str_bytes(sv[i as int]));
            assert(sv.take(i as int).push(sv[i as int]) =~= sv.take(i + 1));
        }
        let extra = slot_size(&v[i]);
        sum = sum + extra;
        i = i + 1;
    }
    proof {
        assert(sv.take(n as int) =~= sv);
    }
    sum
}

} // verus!
