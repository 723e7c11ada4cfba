//! The `AttackAnimTypes` table: an animation id and a name per row.

use vstd::prelude::*;
use crate::DbcError;
use crate::codec::{
    RowCodec, decode_table, encode_table, decode_rows, encode_rows, rows_slots, rows_wf,
    table_block,
    table_wf,
    table_fits, split_exec, lemma_decode_rows_error, lemma_encode_rows_push, lemma_rows_slots_push,
    lemma_rows_block_at, lemma_table_round_trip,
};
use crate::header::{DbcHeader, header_bytes, write_header};
use crate::string_block::{
    str_bytes, slot_off, slot_enc, block_len, block_bytes, no_nul, decode_str, read_string_ref,
    write_string_ref, push_block_slot, slot_size, lemma_block_bytes_single,
    lemma_block_bytes_concat,
};
use crate::str_list::lemma_decode_written_slot;
use crate::util::{
    u32_le, u32_at, i32_at, read_i32_le, push_i32_le, lemma_i32_at_of_le, lemma_u32_at_of_le,
    lemma_u32_le_len,
};

verus! {

pub const FILENAME: &'static str = "AttackAnimTypes.dbc";

pub const FIELD_COUNT: usize = 2;

pub const ROW_SIZE: usize = 8;

/// One row: an animation id and its name.
#[derive(Debug, Clone, PartialEq, Eq, PartialOrd, Ord, Hash)]
pub struct AttackAnimTypesRow {
    pub anim_id: i32,
    pub anim_name: String,
}

/// The mathematical view of a row.
pub struct AttackAnimTypesRowV {
    pub anim_id: i32,
    pub anim_name: Seq<char>,
}

impl View for AttackAnimTypesRow {
    type V = AttackAnimTypesRowV;

    open spec fn view(&self) -> AttackAnimTypesRowV {
        AttackAnimTypesRowV { anim_id: self.anim_id, anim_name: self.anim_name@ }
    }
}

impl RowCodec for AttackAnimTypesRowV {
    open spec fn row_size() -> int {
        8
    }

    open spec fn row_wf(self) -> bool {
        true
    }

    open spec fn decode_row(rec: Seq<u8>, block: Seq<u8>) -> Result<Self, DbcError> {
        match decode_str(block, u32_at(rec, 4)) {
            Err(e) => Err(e),
            Ok(name) => Ok(AttackAnimTypesRowV { anim_id: i32_at(rec, 0), anim_name: name }),
        }
    }

    open spec fn slots(self) -> Seq<Seq<u8>> {
        seq![str_bytes(self.anim_name)]
    }

    open spec fn rec_bytes(self, c: int) -> Seq<u8> {
        u32_le(self.anim_id as u32) + u32_le(slot_off(str_bytes(self.anim_name), c))
    }

    proof fn lemma_rec_bytes_len(self, c: int) {
        lemma_u32_le_len(self.anim_id as u32);
        lemma_u32_le_len(slot_off(str_bytes(self.anim_name), c));
    }

    proof fn lemma_row_round_trip(self, block: Seq<u8>, c: int) {
        let rec = self.rec_bytes(c);
        let name = str_bytes(self.anim_name);
        lemma_u32_le_len(self.anim_id as u32);
        lemma_u32_le_len(slot_off(name, c));
        assert(rec.subrange(0, 4) =~= u32_le(self.anim_id as u32));
        lemma_i32_at_of_le(rec, 0, self.anim_id);
        assert(rec.subrange(4, 8) =~= u32_le(slot_off(name, c)));
        lemma_u32_at_of_le(rec, 4, slot_off(name, c));
        lemma_block_bytes_single(name);
        assert(block_bytes(self.slots()) == slot_enc(name));
        assert(self.slots()[0] == name);
        assert(no_nul(name));
        lemma_decode_written_slot(block, c, self.anim_name);
    }
}

/// The table: a sequence of rows.
#[derive(Debug, Clone, PartialEq, Eq, PartialOrd, Ord, Hash)]
pub struct AttackAnimTypes {
    pub rows: Vec<AttackAnimTypesRow>,
}

/// The views of a row sequence.
pub open spec fn rows_view(rows: Seq<AttackAnimTypesRow>) -> Seq<AttackAnimTypesRowV> {
    rows.map_values(|r: AttackAnimTypesRow| r@)
}

impl View for AttackAnimTypes {
    type V = Seq<AttackAnimTypesRowV>;

    open spec fn view(&self) -> Seq<AttackAnimTypesRowV> {
        rows_view(self.rows@)
    }
}

impl AttackAnimTypes {
    /// The rows of the table.
    pub fn rows(&self) -> (r: &Vec<AttackAnimTypesRow>)
        ensures
            r@ == self.rows@,
    {
        &self.rows
    }

    /// The rows of the table, borrowed for in-place mutation.
    pub fn rows_mut(&mut self) -> (r: &mut Vec<AttackAnimTypesRow>)
        ensures
            *r == old(self).rows,
            final(self).rows == *final(r),
    {
        &mut self.rows
    }

    /// Decodes a whole DBC byte stream into the table, or reports exactly
    /// why it cannot be decoded.
    #[verifier::loop_isolation(false)]
    pub fn read(b: &[u8]) -> (r: Result<AttackAnimTypes, DbcError>)
        ensures
            match r {
                Ok(t) => decode_table::<AttackAnimTypesRowV>(b@, ROW_SIZE as u32, FIELD_COUNT as u32)
                    == Ok::<Seq<AttackAnimTypesRowV>, DbcError>(t@),
                Err(e) => decode_table::<AttackAnimTypesRowV>(
                    b@,
                    ROW_SIZE as u32,
                    FIELD_COUNT as u32,
                ) == Err::<Seq<AttackAnimTypesRowV>, DbcError>(e),
            },
    {
        let (n, bs, be) = match split_exec(b, ROW_SIZE as u32, FIELD_COUNT as u32) {
            Ok(t) => t,
            Err(e) => {
                return Err(e);
            },
        };
        let ghost region = b@.subrange(20, bs as int);
        let block = vstd::slice::slice_subrange(b, bs, be);
        let mut rows: Vec<AttackAnimTypesRow> = Vec::new();
        proof {
            assert(rows_view(rows@) =~= Seq::<AttackAnimTypesRowV>::empty());
        }
        let mut i: u32 = 0;
        while i < n
            invariant
                0 <= i <= n,
                rows@.len() == i,
                decode_rows::<AttackAnimTypesRowV>(region, block@, i as nat) == Ok::<
                    Seq<AttackAnimTypesRowV>,
                    DbcError,
                >(rows_view(rows@)),
            decreases n - i,
        {
            let off: usize = 20 + (i as usize) * ROW_SIZE;
            let rec = vstd::slice::slice_subrange(b, off, off + ROW_SIZE);
            proof {
                assert(rec@ =~= region.subrange(i as int * 8, (i as int + 1) * 8));
            }
            let mut pos: usize = 0;
            let anim_id = read_i32_le(rec, &mut pos);
            let anim_name = match read_string_ref(rec, &mut pos, block) {
                Ok(s) => s,
                Err(e) => {
                    proof {
                        assert(AttackAnimTypesRowV::decode_row(
                            region.subrange(i as int * 8, (i as int + 1) * 8),
                            block@,
                        ) == Err::<AttackAnimTypesRowV, DbcError>(e));
                        lemma_decode_rows_error::<AttackAnimTypesRowV>(
                            region,
                            block@,
                            i as nat,
                            n as nat,
                            e,
                        );
                    }
                    return Err(e);
                },
            };
            let row = AttackAnimTypesRow { anim_id, anim_name };
            let ghost pre = rows@;
            rows.push(row);
            proof {
                assert(AttackAnimTypesRowV::decode_row(
                    region.subrange(i as int * 8, (i as int + 1) * 8),
                    block@,
                ) == Ok::<AttackAnimTypesRowV, DbcError>(rows@[i as int]@));
                assert(rows_view(rows@) =~= rows_view(pre).push(rows@[i as int]@));
            }
            i = i + 1;
        }
        Ok(AttackAnimTypes { rows })
    }

    /// Encodes the table: header, records, then the string block. The
    /// emitted bytes decode back to this very table.
    #[verifier::loop_isolation(false)]
    pub fn write(&self) -> (out: Vec<u8>)
        requires
            table_fits::<AttackAnimTypesRowV>(self@),
        ensures
            out@ == encode_table::<AttackAnimTypesRowV>(self@, FIELD_COUNT as u32),
    {
        let ghost rv = self@;
        let mut out: Vec<u8> = Vec::new();
        let sbs = self.string_block_size();
        let h = DbcHeader {
            record_count: self.rows.len() as u32,
            field_count: FIELD_COUNT as u32,
            record_size: ROW_SIZE as u32,
            string_block_size: sbs,
        };
        write_header(&mut out, &h);
        let mut cursor: u64 = 1;
        let n = self.rows.len();
        let mut i: usize = 0;
        proof {
            assert(rv.take(0) =~= Seq::<AttackAnimTypesRowV>::empty());
            assert(rows_slots(rv.take(0)) =~= Seq::<Seq<u8>>::empty());
            assert(block_bytes(Seq::<Seq<u8>>::empty()) =~= Seq::<u8>::empty());
            assert(encode_rows::<AttackAnimTypesRowV>(rv.take(0), 1) =~= Seq::<u8>::empty());
            assert(out@ =~= header_bytes(h) + encode_rows::<AttackAnimTypesRowV>(rv.take(0), 1));
        }
        while i < n
            invariant
                0 <= i <= n,
                n == self.rows@.len(),
                out@ == header_bytes(h) + encode_rows::<AttackAnimTypesRowV>(rv.take(i as int), 1),
                cursor == 1 + block_len(rows_slots(rv.take(i as int))),
            decreases n - i,
        {
            let row = &self.rows[i];
            proof {
                lemma_rows_block_at::<AttackAnimTypesRowV>(rv, i as int);
                lemma_block_bytes_single(str_bytes(rv[i as int].anim_name));
                assert(block_len(rv[i as int].slots()) == slot_enc(
                    str_bytes(rv[i as int].anim_name),
                ).len());
            }
            push_i32_le(&mut out, row.anim_id);
            write_string_ref(&mut out, &row.anim_name, &mut cursor);
            proof {
                lemma_encode_rows_push::<AttackAnimTypesRowV>(rv.take(i as int), rv[i as int], 1);
                lemma_rows_slots_push::<AttackAnimTypesRowV>(rv.take(i as int), rv[i as int]);
                lemma_block_bytes_concat(rows_slots(rv.take(i as int)), rv[i as int].slots());
                assert(rv.take(i as int).push(rv[i as int]) =~= rv.take(i + 1));
                assert(out@ =~= header_bytes(h) + encode_rows::<AttackAnimTypesRowV>(
                    rv.take(i + 1),
                    1,
                ));
            }
            i = i + 1;
        }
        self.write_string_block(&mut out);
        proof {
            assert(rv.take(n as int) =~= rv);
            assert(out@ =~= encode_table::<AttackAnimTypesRowV>(self@, FIELD_COUNT as u32));
        }
        out
    }

    /// Appends the string block: the sentinel NUL, then every non-empty
    /// name in row order.
    #[verifier::loop_isolation(false)]
    fn write_string_block(&self, out: &mut Vec<u8>)
        ensures
            final(out)@ == old(out)@ + table_block::<AttackAnimTypesRowV>(self@),
    {
        let ghost rv = self@;
        out.push(0);
        let n = self.rows.len();
        let mut i: usize = 0;
        proof {
            assert(rows_slots(rv.take(0)) =~= Seq::<Seq<u8>>::empty());
            assert(block_bytes(Seq::<Seq<u8>>::empty()) =~= Seq::<u8>::empty());
            assert(out@ =~= old(out)@ + seq![0u8] + block_bytes(rows_slots(rv.take(0))));
        }
        while i < n
            invariant
                0 <= i <= n,
                n == self.rows@.len(),
                out@ == old(out)@ + seq![0u8] + block_bytes(rows_slots(rv.take(i as int))),
            decreases n - i,
        {
            push_block_slot(out, &self.rows[i].anim_name);
            proof {
                lemma_rows_slots_push::<AttackAnimTypesRowV>(rv.take(i as int), rv[i as int]);
                lemma_block_bytes_concat(rows_slots(rv.take(i as int)), rv[i as int].slots());
                lemma_block_bytes_single(str_bytes(rv[i as int].anim_name));
                assert(rv.take(i as int).push(rv[i as int]) =~= rv.take(i + 1));
                assert(out@ =~= old(out)@ + seq![0u8] + block_bytes(rows_slots(rv.take(i + 1))));
            }
            i = i + 1;
        }
        proof {
            assert(rv.take(n as int) =~= rv);
        }
    }

    /// The string block size the header will carry: 1 for the sentinel plus
    /// each non-empty name's bytes and terminator.
    #[verifier::loop_isolation(false)]
    fn string_block_size(&self) -> (r: u32)
        requires
            table_fits::<AttackAnimTypesRowV>(self@),
        ensures
            r == 1 + block_len(rows_slots(self@)),
    {
        let ghost rv = self@;
        let mut sum: u64 = 1;
        let n = self.rows.len();
        let mut i: usize = 0;
        proof {
            assert(rows_slots(rv.take(0)) =~= Seq::<Seq<u8>>::empty());
            assert(block_bytes(Seq::<Seq<u8>>::empty()) =~= Seq::<u8>::empty());
        }
        while i < n
            invariant
                0 <= i <= n,
                n == self.rows@.len(),
                sum == 1 + block_len(rows_slots(rv.take(i as int))),
            decreases n - i,
        {
            proof {
                lemma_rows_block_at::<AttackAnimTypesRowV>(rv, i as int);
                lemma_block_bytes_single(str_bytes(rv[i as int].anim_name));
                assert(block_len(rv[i as int].slots()) == slot_enc(
                    str_bytes(rv[i as int].anim_name),
                ).len());
            }
            let extra = slot_size(&self.rows[i].anim_name);
            sum = sum + extra;
            proof {
                lemma_rows_slots_push::<AttackAnimTypesRowV>(rv.take(i as int), rv[i as int]);
                lemma_block_bytes_concat(rows_slots(rv.take(i as int)), rv[i as int].slots());
                assert(rv.take(i as int).push(rv[i as int]) =~= rv.take(i + 1));
            }
            i = i + 1;
        }
        proof {
            assert(rv.take(n as int) =~= rv);
        }
        sum as u32
    }
}

/// Round trip: writing any well-formed table and reading the result yields
/// the same rows. Every table read from bytes is well-formed in this sense,
/// since a read string can never contain a NUL byte.
pub proof fn lemma_attack_anim_types_round_trip(rows: Seq<AttackAnimTypesRowV>)
    requires
        table_wf(rows),
        table_fits::<AttackAnimTypesRowV>(rows),
    ensures
        decode_table::<AttackAnimTypesRowV>(
            encode_table(rows, FIELD_COUNT as u32),
            ROW_SIZE as u32,
            FIELD_COUNT as u32,
        ) == Ok::<Seq<AttackAnimTypesRowV>, DbcError>(rows),
{
    assert(rows_wf(rows));
    lemma_table_round_trip(rows, FIELD_COUNT as u32);
}

} // verus!
