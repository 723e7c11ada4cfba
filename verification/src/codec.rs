//! The table-level codec, generic over the row layout. Each table supplies
//! a functional description of one row — how it decodes, which string slots
//! it emits, and what record bytes it writes at a given string cursor — and
//! receives in return the whole-table round-trip theorem.

use vstd::prelude::*;
use crate::DbcError;
use crate::InvalidHeaderError;
use crate::header::{DbcHeader, header_bytes, parse_header_spec, parse_header, lemma_parse_header};
use crate::string_block::{
    block_bytes, block_len, slots_wf, no_nul, slot_enc, slot_off, str_bytes, decode_str,
    scan_block, lemma_block_bytes_concat, lemma_scan_at_slot,
};
use crate::str_list::lemma_slots_block_at;

verus! {

/// The functional wire description of one row type, stated on the row's
/// mathematical view.
pub trait RowCodec: Sized {
    /// Bytes one record occupies.
    spec fn row_size() -> int;

    /// Rows the wire format can carry at all: array-valued fields must hold
    /// exactly their declared number of elements. Most rows have no such
    /// fields, and then every row is well-formed.
    spec fn row_wf(self) -> bool;

    /// What a reader makes of one record against the string block.
    spec fn decode_row(rec: Seq<u8>, block: Seq<u8>) -> Result<Self, DbcError>;

    /// The string slots of the row, in traversal order.
    spec fn slots(self) -> Seq<Seq<u8>>;

    /// The record bytes a writer emits while its string cursor stands at `c`.
    spec fn rec_bytes(self, c: int) -> Seq<u8>;

    proof fn lemma_rec_bytes_len(self, c: int)
        requires
            self.row_wf(),
        ensures
            self.rec_bytes(c).len() == Self::row_size(),
    ;

    /// Decoding the record written at cursor `c` against a block that holds
    /// this row's slots at `c` gives the row back.
    proof fn lemma_row_round_trip(self, block: Seq<u8>, c: int)
        requires
            self.row_wf(),
            slots_wf(self.slots()),
            1 <= c,
            c + block_len(self.slots()) <= u32::MAX,
            c + block_len(self.slots()) <= block.len(),
            block[0] == 0,
            block.subrange(c, c + block_len(self.slots())) == block_bytes(self.slots()),
        ensures
            Self::decode_row(self.rec_bytes(c), block) == Ok::<Self, DbcError>(self),
    ;
}

/// All string slots of a row sequence, in traversal order.
pub open spec fn rows_slots<R: RowCodec>(rows: Seq<R>) -> Seq<Seq<u8>>
    decreases rows.len(),
{
    if rows.len() == 0 {
        Seq::empty()
    } else {
        rows[0].slots() + rows_slots(rows.drop_first())
    }
}

/// The record region a writer emits, threading the string cursor from `c`.
pub open spec fn encode_rows<R: RowCodec>(rows: Seq<R>, c: int) -> Seq<u8>
    decreases rows.len(),
{
    if rows.len() == 0 {
        Seq::empty()
    } else {
        rows[0].rec_bytes(c) + encode_rows(rows.drop_first(), c + block_len(rows[0].slots()))
    }
}

/// What a reader makes of the first `n` records of `region`.
pub open spec fn decode_rows<R: RowCodec>(region: Seq<u8>, block: Seq<u8>, n: nat) -> Result<
    Seq<R>,
    DbcError,
>
    decreases n,
{
    if n == 0 {
        Ok(Seq::empty())
    } else {
        match decode_rows::<R>(region, block, (n - 1) as nat) {
            Err(e) => Err(e),
            Ok(rows) => match R::decode_row(
                region.subrange((n - 1) * R::row_size(), n as int * R::row_size()),
                block,
            ) {
                Err(e) => Err(e),
                Ok(r) => Ok(rows.push(r)),
            },
        }
    }
}

/// The whole string block of a table: the leading NUL, then every non-empty
/// slot with its terminator.
pub open spec fn table_block<R: RowCodec>(rows: Seq<R>) -> Seq<u8> {
    seq![0u8] + block_bytes(rows_slots(rows))
}

/// Every row's string slots are free of NUL bytes, so each survives
/// NUL-terminated storage.
pub open spec fn table_wf<R: RowCodec>(rows: Seq<R>) -> bool {
    forall|i: int| 0 <= i < rows.len() ==> slots_wf(#[trigger] rows[i].slots())
}

/// Every row is one the wire format can carry: array-valued fields hold
/// their declared number of elements.
pub open spec fn rows_wf<R: RowCodec>(rows: Seq<R>) -> bool {
    forall|i: int| 0 <= i < rows.len() ==> (#[trigger] rows[i]).row_wf()
}

/// The table is small enough for the format: counts and the string block
/// size fit the header's `u32` fields.
pub open spec fn table_fits<R: RowCodec>(rows: Seq<R>) -> bool {
    &&& rows.len() <= u32::MAX
    &&& 1 + block_len(rows_slots(rows)) <= u32::MAX
}

/// Splits `b` into its record count, record region and string block, after
/// validating the header against the expected record size and field count.
pub open spec fn split_table(b: Seq<u8>, rs: u32, fc: u32) -> Result<
    (nat, Seq<u8>, Seq<u8>),
    DbcError,
> {
    match parse_header_spec(b) {
        Err(e) => Err(e),
        Ok(h) => if h.record_size != rs {
            Err(
                DbcError::InvalidHeader(
                    InvalidHeaderError::RecordSize { expected: rs, actual: h.record_size },
                ),
            )
        } else if h.field_count != fc {
            Err(
                DbcError::InvalidHeader(
                    InvalidHeaderError::FieldCount { expected: fc, actual: h.field_count },
                ),
            )
        } else if b.len() < 20 + h.record_count * rs + h.string_block_size {
            Err(DbcError::Io)
        } else {
            Ok(
                (
                    h.record_count as nat,
                    b.subrange(20, 20 + h.record_count * rs),
                    b.subrange(
                        20 + h.record_count * rs,
                        20 + h.record_count * rs + h.string_block_size,
                    ),
                ),
            )
        },
    }
}

/// What a reader makes of a full byte stream for a table with the given
/// record size and field count.
pub open spec fn decode_table<R: RowCodec>(b: Seq<u8>, rs: u32, fc: u32) -> Result<
    Seq<R>,
    DbcError,
> {
    match split_table(b, rs, fc) {
        Err(e) => Err(e),
        Ok((n, region, block)) => decode_rows(region, block, n),
    }
}

/// The byte stream a writer emits for the table.
pub open spec fn encode_table<R: RowCodec>(rows: Seq<R>, fc: u32) -> Seq<u8> {
    header_bytes(
        DbcHeader {
            record_count: rows.len() as u32,
            field_count: fc,
            record_size: R::row_size() as u32,
            string_block_size: (1 + block_len(rows_slots(rows))) as u32,
        },
    ) + encode_rows(rows, 1) + table_block(rows)
}

pub proof fn lemma_rows_slots_single<R: RowCodec>(r: R)
    ensures
        rows_slots(seq![r]) == r.slots(),
{
    assert(seq![r].len() == 1);
    assert(seq![r][0] == r);
    assert(seq![r].drop_first() =~= Seq::<R>::empty());
    assert(rows_slots(Seq::<R>::empty()) =~= Seq::<Seq<u8>>::empty());
    assert(rows_slots(seq![r]) =~= r.slots() + rows_slots(seq![r].drop_first()));
    assert(rows_slots(seq![r]) =~= r.slots());
}

pub proof fn lemma_rows_slots_concat<R: RowCodec>(a: Seq<R>, b: Seq<R>)
    ensures
        rows_slots(a + b) == rows_slots(a) + rows_slots(b),
    decreases a.len(),
{
    if a.len() == 0 {
        assert(a + b =~= b);
        assert(rows_slots(a) + rows_slots(b) =~= rows_slots(b));
    } else {
        assert((a + b).drop_first() =~= a.drop_first() + b);
        lemma_rows_slots_concat(a.drop_first(), b);
        assert(rows_slots(a + b) =~= rows_slots(a) + rows_slots(b));
    }
}

/// Appending one row extends the slot sequence by that row's slots.
pub proof fn lemma_rows_slots_push<R: RowCodec>(rows: Seq<R>, r: R)
    ensures
        rows_slots(rows.push(r)) == rows_slots(rows) + r.slots(),
{
    assert(rows.push(r) =~= rows + seq![r]);
    lemma_rows_slots_concat(rows, seq![r]);
    lemma_rows_slots_single(r);
}

pub proof fn lemma_encode_rows_len<R: RowCodec>(rows: Seq<R>, c: int)
    requires
        rows_wf(rows),
    ensures
        encode_rows(rows, c).len() == rows.len() * R::row_size(),
    decreases rows.len(),
{
    if rows.len() == 0 {
    } else {
        rows[0].lemma_rec_bytes_len(c);
        assert(rows_wf(rows.drop_first())) by {
            assert forall|i: int| 0 <= i < rows.drop_first().len() implies (
            #[trigger] rows.drop_first()[i]).row_wf() by {
                assert(rows.drop_first()[i] == rows[i + 1]);
            }
        }
        lemma_encode_rows_len(rows.drop_first(), c + block_len(rows[0].slots()));
        assert(rows.len() * R::row_size() == (rows.len() - 1) * R::row_size() + R::row_size())
            by (nonlinear_arith);
    }
}

/// Appending one row extends the record region by that row's record bytes,
/// written at the cursor the earlier rows left behind.
pub proof fn lemma_encode_rows_push<R: RowCodec>(rows: Seq<R>, r: R, c: int)
    ensures
        encode_rows(rows.push(r), c) == encode_rows(rows, c) + r.rec_bytes(
            c + block_len(rows_slots(rows)),
        ),
    decreases rows.len(),
{
    if rows.len() == 0 {
        assert(rows.push(r).len() == 1);
        assert(rows.push(r)[0] == r);
        assert(rows.push(r).drop_first() =~= Seq::<R>::empty());
        assert(encode_rows(Seq::<R>::empty(), c + block_len(r.slots())) =~= Seq::<u8>::empty());
        assert(rows_slots(rows) =~= Seq::<Seq<u8>>::empty());
        assert(block_bytes(Seq::<Seq<u8>>::empty()) =~= Seq::<u8>::empty());
        assert(encode_rows(rows.push(r), c) =~= r.rec_bytes(c) + encode_rows(
            rows.push(r).drop_first(),
            c + block_len(r.slots()),
        ));
        assert(encode_rows(rows, c) =~= Seq::<u8>::empty());
        assert(encode_rows(rows.push(r), c) =~= encode_rows(rows, c) + r.rec_bytes(c));
    } else {
        let tail = rows.drop_first();
        assert(rows.push(r).drop_first() =~= tail.push(r));
        assert(rows.push(r)[0] == rows[0]);
        lemma_encode_rows_push(tail, r, c + block_len(rows[0].slots()));
        assert(seq![rows[0]] + tail =~= rows);
        lemma_rows_slots_concat(seq![rows[0]], tail);
        lemma_rows_slots_single(rows[0]);
        lemma_block_bytes_concat(rows[0].slots(), rows_slots(tail));
        assert(encode_rows(rows.push(r), c) =~= encode_rows(rows, c) + r.rec_bytes(
            c + block_len(rows_slots(rows)),
        ));
    }
}

/// The record bytes of row `k` sit at `k * row_size` in the record region,
/// written at the cursor position the earlier rows determine.
pub proof fn lemma_encode_rows_index<R: RowCodec>(rows: Seq<R>, c: int, k: int)
    requires
        rows_wf(rows),
        0 <= k < rows.len(),
        0 < R::row_size(),
    ensures
        encode_rows(rows, c).subrange(k * R::row_size(), (k + 1) * R::row_size()) == rows[k].rec_bytes(
            c + block_len(rows_slots(rows.take(k))),
        ),
    decreases k,
{
    lemma_encode_rows_len(rows, c);
    rows[0].lemma_rec_bytes_len(c);
    let rs = R::row_size();
    assert(rows_wf(rows.drop_first())) by {
        assert forall|i: int| 0 <= i < rows.drop_first().len() implies (
        #[trigger] rows.drop_first()[i]).row_wf() by {
            assert(rows.drop_first()[i] == rows[i + 1]);
        }
    }
    if k == 0 {
        assert(rows.take(0) =~= Seq::<R>::empty());
        assert(block_bytes(rows_slots(rows.take(0))) =~= Seq::<u8>::empty());
        lemma_encode_rows_len(rows.drop_first(), c + block_len(rows[0].slots()));
        assert(encode_rows(rows, c).subrange(0, rs) =~= rows[0].rec_bytes(c));
        assert(k * rs == 0 && (k + 1) * rs == rs) by (nonlinear_arith)
            requires
                k == 0,
        ;
        assert(c + block_len(rows_slots(rows.take(k))) == c);
        assert(encode_rows(rows, c).subrange(k * rs, (k + 1) * rs) =~= rows[k].rec_bytes(
            c + block_len(rows_slots(rows.take(k))),
        ));
    } else {
        let tail = rows.drop_first();
        let c1 = c + block_len(rows[0].slots());
        lemma_encode_rows_index(tail, c1, k - 1);
        lemma_encode_rows_len(tail, c1);
        assert((k - 1) * rs == k * rs - rs && k * rs == (k + 1) * rs - rs && 0 <= (k - 1) * rs
            && (k + 1) * rs - rs <= tail.len() * rs) by (nonlinear_arith)
            requires
                1 <= k <= tail.len(),
                0 < rs,
        ;
        assert(encode_rows(rows, c).subrange(k * rs, (k + 1) * rs) =~= encode_rows(
            tail,
            c1,
        ).subrange((k - 1) * rs, k * rs)) by {
            assert(encode_rows(rows, c) =~= rows[0].rec_bytes(c) + encode_rows(tail, c1));
        }
        assert(rows.take(k) =~= seq![rows[0]] + tail.take(k - 1));
        lemma_rows_slots_concat(seq![rows[0]], tail.take(k - 1));
        lemma_rows_slots_single(rows[0]);
        lemma_block_bytes_concat(rows[0].slots(), rows_slots(tail.take(k - 1)));
        assert(rows_slots(rows.take(k)) =~= rows[0].slots() + rows_slots(tail.take(k - 1)));
        assert(block_len(rows_slots(rows.take(k))) == block_len(rows[0].slots()) + block_len(
            rows_slots(tail.take(k - 1)),
        ));
        assert(tail[k - 1] == rows[k]);
        assert(c1 + block_len(rows_slots(tail.take(k - 1))) == c + block_len(
            rows_slots(rows.take(k)),
        ));
        assert(rows[k].rec_bytes(c + block_len(rows_slots(rows.take(k)))) == tail[k - 1].rec_bytes(
            c1 + block_len(rows_slots(tail.take(k - 1))),
        ));
        assert(encode_rows(rows, c).subrange(k * rs, (k + 1) * rs) =~= rows[k].rec_bytes(
            c + block_len(rows_slots(rows.take(k))),
        ));
    }
}

/// Where row `k`'s slots sit inside the whole table's block contribution.
pub proof fn lemma_rows_block_at<R: RowCodec>(rows: Seq<R>, k: int)
    requires
        0 <= k < rows.len(),
    ensures
        block_len(rows_slots(rows.take(k))) + block_len(rows[k].slots()) <= block_len(
            rows_slots(rows),
        ),
        block_bytes(rows_slots(rows)).subrange(
            block_len(rows_slots(rows.take(k))),
            block_len(rows_slots(rows.take(k))) + block_len(rows[k].slots()),
        ) == block_bytes(rows[k].slots()),
{
    assert(rows =~= rows.take(k) + seq![rows[k]] + rows.skip(k + 1));
    lemma_rows_slots_concat(rows.take(k) + seq![rows[k]], rows.skip(k + 1));
    lemma_rows_slots_concat(rows.take(k), seq![rows[k]]);
    lemma_rows_slots_single(rows[k]);
    let pre = rows_slots(rows.take(k));
    let mid = rows[k].slots();
    let post = rows_slots(rows.skip(k + 1));
    assert(rows_slots(rows) =~= pre + mid + post);
    lemma_block_bytes_concat(pre + mid, post);
    lemma_block_bytes_concat(pre, mid);
    assert(block_bytes(rows_slots(rows)) =~= block_bytes(pre) + block_bytes(mid) + block_bytes(
        post,
    ));
    assert(block_bytes(rows_slots(rows)).subrange(
        block_len(pre),
        block_len(pre) + block_len(mid),
    ) =~= block_bytes(mid));
}

/// Decoding the written record region row by row recovers the row prefix.
pub proof fn lemma_decode_rows_prefix<R: RowCodec>(rows: Seq<R>, i: nat)
    requires
        table_wf(rows),
        rows_wf(rows),
        table_fits::<R>(rows),
        0 < R::row_size(),
        i <= rows.len(),
    ensures
        decode_rows::<R>(encode_rows(rows, 1), table_block(rows), i) == Ok::<Seq<R>, DbcError>(
            rows.take(i as int),
        ),
    decreases i,
{
    let region = encode_rows(rows, 1);
    let block = table_block(rows);
    if i == 0 {
        assert(rows.take(0) =~= Seq::<R>::empty());
    } else {
        lemma_decode_rows_prefix(rows, (i - 1) as nat);
        let k = i - 1;
        let ck = 1 + block_len(rows_slots(rows.take(k)));
        lemma_encode_rows_index(rows, 1, k);
        lemma_rows_block_at(rows, k);
        assert(block.subrange(ck, ck + block_len(rows[k].slots())) =~= block_bytes(
            rows_slots(rows),
        ).subrange(
            block_len(rows_slots(rows.take(k))),
            block_len(rows_slots(rows.take(k))) + block_len(rows[k].slots()),
        ));
        assert(block[0] == 0);
        assert(block.len() == 1 + block_len(rows_slots(rows)));
        rows[k].lemma_row_round_trip(block, ck);
        assert(rows.take(k).push(rows[k]) =~= rows.take(i as int));
    }
}

/// A row that fails to decode fails the whole table with its error.
pub proof fn lemma_decode_rows_error<R: RowCodec>(
    region: Seq<u8>,
    block: Seq<u8>,
    i: nat,
    m: nat,
    e: DbcError,
)
    requires
        decode_rows::<R>(region, block, i) is Ok,
        R::decode_row(region.subrange(i * R::row_size(), (i + 1) * R::row_size()), block)
            == Err::<R, DbcError>(e),
        i < m,
    ensures
        decode_rows::<R>(region, block, m) == Err::<Seq<R>, DbcError>(e),
    decreases m,
{
    if m == i + 1 {
    } else {
        lemma_decode_rows_error::<R>(region, block, i, (m - 1) as nat, e);
    }
}

/// Round trip: reading back a written table yields the very same rows.
pub proof fn lemma_table_round_trip<R: RowCodec>(rows: Seq<R>, fc: u32)
    requires
        table_wf(rows),
        rows_wf(rows),
        table_fits::<R>(rows),
        0 < R::row_size() <= u32::MAX,
    ensures
        decode_table::<R>(encode_table(rows, fc), R::row_size() as u32, fc) == Ok::<
            Seq<R>,
            DbcError,
        >(rows),
{
    let rs = R::row_size() as u32;
    let n = rows.len();
    let sbs = 1 + block_len(rows_slots(rows));
    let h = DbcHeader {
        record_count: n as u32,
        field_count: fc,
        record_size: rs,
        string_block_size: sbs as u32,
    };
    let region = encode_rows(rows, 1);
    let block = table_block(rows);
    let b = encode_table(rows, fc);
    lemma_parse_header(h, region + block);
    assert(b =~= header_bytes(h) + (region + block));
    lemma_encode_rows_len(rows, 1);
    assert(region.len() == n * R::row_size());
    assert(block.len() == sbs);
    assert(h.record_count * rs == n * R::row_size()) by (nonlinear_arith)
        requires
            h.record_count == n,
            rs == R::row_size(),
            n <= u32::MAX,
    ;
    assert(b.len() == 20 + h.record_count * rs + h.string_block_size);
    assert(b.subrange(20, 20 + h.record_count * rs) =~= region);
    assert(b.subrange(
        20 + h.record_count * rs,
        20 + h.record_count * rs + h.string_block_size,
    ) =~= block);
    assert(split_table(b, rs, fc) == Ok::<(nat, Seq<u8>, Seq<u8>), DbcError>(
        (n as nat, region, block),
    ));
    lemma_decode_rows_prefix(rows, n as nat);
    assert(rows.take(n as int) =~= rows);
}

/// A well-formed table's flattened slot sequence is NUL-free throughout.
pub proof fn lemma_table_slots_wf<R: RowCodec>(rows: Seq<R>)
    requires
        table_wf(rows),
    ensures
        slots_wf(rows_slots(rows)),
    decreases rows.len(),
{
    if rows.len() == 0 {
        assert(slots_wf(rows_slots(rows)));
    } else {
        let tail = rows.drop_first();
        assert(table_wf(tail)) by {
            assert forall|i: int| 0 <= i < tail.len() implies slots_wf(
                #[trigger] tail[i].slots(),
            ) by {
                assert(tail[i] == rows[i + 1]);
            }
        }
        lemma_table_slots_wf(tail);
        assert(slots_wf(rows[0].slots()));
        assert forall|k: int| 0 <= k < rows_slots(rows).len() implies no_nul(
            #[trigger] rows_slots(rows)[k],
        ) by {
            if k < rows[0].slots().len() {
                assert(rows_slots(rows)[k] == rows[0].slots()[k]);
            } else {
                assert(rows_slots(rows)[k] == rows_slots(tail)[k - rows[0].slots().len()]);
            }
        }
    }
}

/// Header consistency: the header of an emitted stream always carries the
/// row count, the compile-time field count and record size, and a string
/// block size of one plus the `len + 1` contributions of every non-empty
/// string, in traversal order.
pub proof fn lemma_header_consistency<R: RowCodec>(rows: Seq<R>, fc: u32)
    ensures
        crate::header::parse_header_spec(encode_table(rows, fc)) == Ok::<DbcHeader, DbcError>(
            DbcHeader {
                record_count: rows.len() as u32,
                field_count: fc,
                record_size: R::row_size() as u32,
                string_block_size: (1 + block_len(rows_slots(rows))) as u32,
            },
        ),
{
    let h = DbcHeader {
        record_count: rows.len() as u32,
        field_count: fc,
        record_size: R::row_size() as u32,
        string_block_size: (1 + block_len(rows_slots(rows))) as u32,
    };
    lemma_parse_header(h, encode_rows(rows, 1) + table_block(rows));
    assert(encode_table(rows, fc) =~= header_bytes(h) + (encode_rows(rows, 1) + table_block(
        rows,
    )));
}

/// String-block indexing: at the moment the encoder emits slot `k`, its
/// cursor reads one plus the block bytes of all earlier slots — and that is
/// exactly the offset at which the emitted string block holds slot `k`'s
/// bytes, NUL-terminated.
pub proof fn lemma_string_block_indexing<R: RowCodec>(rows: Seq<R>, k: int)
    requires
        table_wf(rows),
        0 <= k < rows_slots(rows).len(),
        rows_slots(rows)[k].len() > 0,
    ensures
        scan_block(table_block(rows), 1 + block_len(rows_slots(rows).take(k))) == Some(
            rows_slots(rows)[k],
        ),
{
    let ss = rows_slots(rows);
    let b = table_block(rows);
    let off = 1 + block_len(ss.take(k));
    let sk = ss[k];
    lemma_table_slots_wf(rows);
    lemma_slots_block_at(ss, k);
    assert(slot_enc(sk) =~= sk + seq![0u8]);
    assert(b.subrange(off, off + sk.len() as int) =~= sk) by {
        assert forall|j: int| 0 <= j < sk.len() implies b.subrange(off, off + sk.len() as int)[j]
            == sk[j] by {
            assert(b[off + j] == block_bytes(ss)[off - 1 + j]);
            assert(block_bytes(ss).subrange(
                block_len(ss.take(k)),
                block_len(ss.take(k)) + slot_enc(sk).len(),
            )[j] == slot_enc(sk)[j]);
        }
    }
    assert(b[off + sk.len()] == 0) by {
        assert(b[off + sk.len()] == block_bytes(ss)[off - 1 + sk.len()]);
        assert(block_bytes(ss).subrange(
            block_len(ss.take(k)),
            block_len(ss.take(k)) + slot_enc(sk).len(),
        )[sk.len() as int] == slot_enc(sk)[sk.len() as int]);
    }
    lemma_scan_at_slot(b, off, sk);
}

/// Empty-string encoding: an empty string is always emitted as offset 0,
/// and offset 0 of any emitted string block resolves to the empty string,
/// so empty strings survive every round trip.
pub proof fn lemma_empty_string_encoding<R: RowCodec>(rows: Seq<R>, s: Seq<char>, c: int)
    requires
        1 <= c <= u32::MAX,
    ensures
        s.len() == 0 ==> slot_off(str_bytes(s), c) == 0,
        s.len() > 0 ==> slot_off(str_bytes(s), c) != 0,
        decode_str(table_block(rows), 0) == Ok::<Seq<char>, DbcError>(Seq::<char>::empty()),
{
    vstd::utf8::encode_utf8_valid_utf8(s);
    vstd::utf8::encode_utf8_decode_utf8(s);
    if s.len() == 0 {
        assert(str_bytes(s) =~= Seq::<u8>::empty());
    } else {
        assert(str_bytes(s).len() > 0) by {
            if str_bytes(s).len() == 0 {
                assert(vstd::utf8::decode_utf8(Seq::<u8>::empty()) =~= Seq::<char>::empty());
                assert(s =~= Seq::<char>::empty());
            }
        }
        assert(c as u32 != 0) by (nonlinear_arith)
            requires
                1 <= c <= u32::MAX,
        ;
    }
    let b = table_block(rows);
    assert(b[0] == 0);
    assert(scan_block(b, 0) == Some(Seq::<u8>::empty()));
    assert(vstd::utf8::valid_utf8(Seq::<u8>::empty()));
    assert(vstd::utf8::decode_utf8(Seq::<u8>::empty()) =~= Seq::<char>::empty());
}

/// Reads and validates the header of `b`, returning the record count and
/// the byte positions where the string block starts and ends.
pub fn split_exec(b: &[u8], rs: u32, fc: u32) -> (r: Result<(u32, usize, usize), DbcError>)
    requires
        0 < rs,
    ensures
        match r {
            Ok(t) => {
                &&& split_table(b@, rs, fc) == Ok::<(nat, Seq<u8>, Seq<u8>), DbcError>(
                    (t.0 as nat, b@.subrange(20, t.1 as int), b@.subrange(t.1 as int, t.2 as int)),
                )
                &&& t.1 as int == 20 + t.0 as int * rs as int
                &&& 20 <= t.1 <= t.2 <= b@.len()
            },
            Err(e) => split_table(b@, rs, fc) == Err::<(nat, Seq<u8>, Seq<u8>), DbcError>(e),
        },
{
    let h = match parse_header(b) {
        Ok(h) => h,
        Err(e) => {
            return Err(e);
        },
    };
    if h.record_size != rs {
        return Err(
            DbcError::InvalidHeader(
                InvalidHeaderError::RecordSize { expected: rs, actual: h.record_size },
            ),
        );
    }
    if h.field_count != fc {
        return Err(
            DbcError::InvalidHeader(
                InvalidHeaderError::FieldCount { expected: fc, actual: h.field_count },
            ),
        );
    }
    let blen: u64 = b.len() as u64;
    proof {
        assert(h.record_count as int * rs as int <= 0xffff_ffff * 0xffff_ffff)
            by (nonlinear_arith)
            requires
                h.record_count <= 0xffff_ffffu32,
                rs <= 0xffff_ffffu32,
        ;
    }
    let need: u64 = h.record_count as u64 * rs as u64;
    if blen - 20 < need {
        return Err(DbcError::Io);
    }
    let rem: u64 = blen - 20 - need;
    if h.string_block_size as u64 > rem {
        return Err(DbcError::Io);
    }
    let bs: usize = 20 + need as usize;
    let be: usize = bs + h.string_block_size as usize;
    Ok((h.record_count, bs, be))
}

} // verus!
