//! A run of consecutive little-endian `i32` values inside one record:
//! fixed-length integer array fields are read and written as such a run.

use vstd::prelude::*;
use crate::util::{u32_le, i32_at, read_i32_le, push_i32_le, lemma_i32_at_of_le, lemma_u32_le_len};

verus! {

/// The bytes a writer emits for a list of `i32` values.
pub open spec fn i32s_le(vs: Seq<i32>) -> Seq<u8>
    decreases vs.len(),
{
    if vs.len() == 0 {
        Seq::empty()
    } else {
        u32_le(vs[0] as u32) + i32s_le(vs.drop_first())
    }
}

/// What a reader makes of `k` consecutive `i32` values at `pos`.
pub open spec fn decode_i32s(rec: Seq<u8>, pos: int, k: nat) -> Seq<i32> {
    Seq::new(k, |j: int| i32_at(rec, pos + 4 * j))
}

pub proof fn lemma_i32s_le_len(vs: Seq<i32>)
    ensures
        i32s_le(vs).len() == 4 * vs.len(),
    decreases vs.len(),
{
    lemma_u32_le_len(vs[0] as u32);
    if vs.len() > 0 {
        lemma_i32s_le_len(vs.drop_first());
    }
}

/// Appending one value extends the emitted bytes by its four bytes.
pub proof fn lemma_i32s_le_push(vs: Seq<i32>, v: i32)
    ensures
        i32s_le(vs.push(v)) == i32s_le(vs) + u32_le(v as u32),
    decreases vs.len(),
{
    if vs.len() == 0 {
        assert(vs.push(v)[0] == v);
        assert(vs.push(v).drop_first() =~= Seq::<i32>::empty());
        assert(i32s_le(Seq::<i32>::empty()) =~= Seq::<u8>::empty());
        assert(i32s_le(vs) =~= Seq::<u8>::empty());
        assert(i32s_le(vs.push(v)) =~= i32s_le(vs) + u32_le(v as u32));
    } else {
        assert(vs.push(v)[0] == vs[0]);
        assert(vs.push(v).drop_first() =~= vs.drop_first().push(v));
        lemma_i32s_le_push(vs.drop_first(), v);
        assert(i32s_le(vs.push(v)) =~= i32s_le(vs) + u32_le(v as u32));
    }
}

/// The `k`-th emitted value's four bytes.
pub proof fn lemma_i32s_le_index(vs: Seq<i32>, k: int)
    requires
        0 <= k < vs.len(),
    ensures
        i32s_le(vs).subrange(4 * k, 4 * k + 4) == u32_le(vs[k] as u32),
    decreases k,
{
    lemma_i32s_le_len(vs);
    lemma_u32_le_len(vs[0] as u32);
    if k == 0 {
        assert(i32s_le(vs).subrange(0, 4) =~= u32_le(vs[0] as u32));
    } else {
        lemma_i32s_le_index(vs.drop_first(), k - 1);
        lemma_i32s_le_len(vs.drop_first());
        assert(i32s_le(vs).subrange(4 * k, 4 * k + 4) =~= i32s_le(vs.drop_first()).subrange(
            4 * (k - 1),
            4 * (k - 1) + 4,
        ));
        assert(vs.drop_first()[k - 1] == vs[k]);
    }
}

/// Decoding the written run recovers the values.
pub proof fn lemma_i32s_round_trip(vs: Seq<i32>, rec: Seq<u8>, pos: int)
    requires
        0 <= pos,
        pos + 4 * vs.len() <= rec.len(),
        rec.subrange(pos, pos + 4 * vs.len()) == i32s_le(vs),
    ensures
        decode_i32s(rec, pos, vs.len()) == vs,
{
    lemma_i32s_le_len(vs);
    assert forall|j: int| 0 <= j < vs.len() implies i32_at(rec, pos + 4 * j) == vs[j] by {
        lemma_i32s_le_index(vs, j);
        lemma_u32_le_len(vs[j] as u32);
        assert(rec.subrange(pos + 4 * j, pos + 4 * j + 4) =~= i32s_le(vs).subrange(
            4 * j,
            4 * j + 4,
        ));
        lemma_i32_at_of_le(rec, pos + 4 * j, vs[j]);
    }
    assert(decode_i32s(rec, pos, vs.len()) =~= vs);
}

/// Reads `n` consecutive `i32` values at `*pos`.
#[verifier::loop_isolation(false)]
pub fn read_i32_list(rec: &[u8], pos: &mut usize, n: usize) -> (r: Vec<i32>)
    requires
        *old(pos) + 4 * n <= rec@.len(),
    ensures
        *final(pos) == *old(pos) + 4 * n,
        r@ == decode_i32s(rec@, *old(pos) as int, n as nat),
{
    let ghost pos0 = *old(pos) as int;
    let mut out: Vec<i32> = Vec::new();
    let mut k: usize = 0;
    while k < n
        invariant
            *pos == pos0 + 4 * k,
            0 <= k <= n,
            out@.len() == k,
            forall|j: int| 0 <= j < k ==> out@[j] == i32_at(rec@, pos0 + 4 * j),
        decreases n - k,
    {
        let v = read_i32_le(rec, pos);
        out.push(v);
        k = k + 1;
    }
    proof {
        assert(out@ =~= decode_i32s(rec@, pos0, n as nat));
    }
    out
}

/// Emits the four little-endian bytes of every value of `v`, in order.
#[verifier::loop_isolation(false)]
pub fn write_i32_list(out: &mut Vec<u8>, v: &Vec<i32>)
    ensures
        final(out)@ == old(out)@ + i32s_le(v@),
{
    let ghost out0 = old(out)@;
    proof {
        assert(i32s_le(v@.take(0)) =~= Seq::<u8>::empty());
        assert(out@ =~= out0 + i32s_le(v@.take(0)));
    }
    let n: usize = v.len();
    let mut i: usize = 0;
    while i < n
        invariant
            0 <= i <= n,
            n == v@.len(),
            out@ == out0 + i32s_le(v@.take(i as int)),
        decreases n - i,
    {
        push_i32_le(out, v[i]);
        proof {
            lemma_i32s_le_push(v@.take(i as int), v@[i as int]);
            assert(v@.take(i as int).push(v@[i as int]) =~= v@.take(i + 1));
        }
        i = i + 1;
    }
    proof {
        assert(v@.take(n as int) =~= v@);
    }
}

} // verus!
