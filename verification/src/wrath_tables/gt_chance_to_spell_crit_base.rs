//! The `gtChanceToSpellCritBase` table: one value per row, carried as the on-disk IEEE-754 bit pattern verbatim.

use vstd::prelude::*;
use crate::DbcError;
use crate::codec::{
    RowCodec, decode_table, encode_table, decode_rows, encode_rows, rows_slots, rows_wf,
    table_block, table_wf, table_fits, split_exec, lemma_encode_rows_push,
    lemma_rows_slots_push, lemma_rows_block_at, lemma_table_round_trip,
};
use crate::header::{DbcHeader, header_bytes, write_header};
use crate::string_block::{block_len, block_bytes, lemma_block_bytes_concat};

use crate::util::{u32_le, u32_at, read_u32_le, push_u32_le, lemma_u32_at_of_le, lemma_u32_le_len};

verus! {

pub const FILENAME: &'static str = "gtChanceToSpellCritBase.dbc";

pub const FIELD_COUNT: usize = 1;

pub const ROW_SIZE: usize = 4;

/// One row of the table.
#[allow(non_camel_case_types)]
#[derive(Debug, Clone, PartialEq, Eq, PartialOrd, Ord, Hash)]
pub struct gtChanceToSpellCritBaseRow {
    pub data: u32,
}

/// The mathematical view of a row.
#[allow(non_camel_case_types)]
pub struct gtChanceToSpellCritBaseRowV {
    pub data: u32,
}

impl View for gtChanceToSpellCritBaseRow {
    type V = gtChanceToSpellCritBaseRowV;

    open spec fn view(&self) -> gtChanceToSpellCritBaseRowV {
        gtChanceToSpellCritBaseRowV { data: self.data }
    }
}

impl RowCodec for gtChanceToSpellCritBaseRowV {
    open spec fn row_size() -> int {
        4
    }

    open spec fn row_wf(self) -> bool {
        true
    }

    open spec fn decode_row(rec: Seq<u8>, block: Seq<u8>) -> Result<Self, DbcError> {
        Ok(
            gtChanceToSpellCritBaseRowV { data: u32_at(rec, 0) },
        )
    }

    open spec fn slots(self) -> Seq<Seq<u8>> {
        Seq::<Seq<u8>>::empty()
    }

    open spec fn rec_bytes(self, c: int) -> Seq<u8> {
        u32_le(self.data)
    }

    proof fn lemma_rec_bytes_len(self, c: int) {
        lemma_u32_le_len(self.data);
    }

    proof fn lemma_row_round_trip(self, block: Seq<u8>, c: int) {
        let rec = self.rec_bytes(c);
        lemma_u32_le_len(self.data);
        assert(rec.subrange(0, 4) =~= u32_le(self.data));
        lemma_u32_at_of_le(rec, 0, self.data);
    }
}

/// The table: a sequence of rows.
#[allow(non_camel_case_types)]
#[derive(Debug, Clone, PartialEq, Eq, PartialOrd, Ord, Hash)]
pub struct gtChanceToSpellCritBase {
    pub rows: Vec<gtChanceToSpellCritBaseRow>,
}

/// The views of a row sequence.
pub open spec fn rows_view(rows: Seq<gtChanceToSpellCritBaseRow>) -> Seq<gtChanceToSpellCritBaseRowV> {
    rows.map_values(|r: gtChanceToSpellCritBaseRow| r@)
}

impl View for gtChanceToSpellCritBase {
    type V = Seq<gtChanceToSpellCritBaseRowV>;

    open spec fn view(&self) -> Seq<gtChanceToSpellCritBaseRowV> {
        rows_view(self.rows@)
    }
}

impl gtChanceToSpellCritBase {
    /// The rows of the table.
    pub fn rows(&self) -> (r: &Vec<gtChanceToSpellCritBaseRow>)
        ensures
            r@ == self.rows@,
    {
        &self.rows
    }

    /// The rows of the table, borrowed for in-place mutation.
    pub fn rows_mut(&mut self) -> (r: &mut Vec<gtChanceToSpellCritBaseRow>)
        ensures
            *r == old(self).rows,
            final(self).rows == *final(r),
    {
        &mut self.rows
    }

    /// Decodes a whole DBC byte stream into the table, or reports exactly
    /// why it cannot be decoded.
    #[verifier::loop_isolation(false)]
    pub fn read(b: &[u8]) -> (r: Result<gtChanceToSpellCritBase, DbcError>)
        ensures
            match r {
                Ok(t) => decode_table::<gtChanceToSpellCritBaseRowV>(b@, ROW_SIZE as u32, FIELD_COUNT as u32)
                    == Ok::<Seq<gtChanceToSpellCritBaseRowV>, DbcError>(t@),
                Err(e) => decode_table::<gtChanceToSpellCritBaseRowV>(b@, ROW_SIZE as u32, FIELD_COUNT as u32)
                    == Err::<Seq<gtChanceToSpellCritBaseRowV>, DbcError>(e),
            },
    {
        let (n, bs, be) = match split_exec(b, ROW_SIZE as u32, FIELD_COUNT as u32) {
            Ok(t) => t,
            Err(e) => {
                return Err(e);
            },
        };
        let ghost region = b@.subrange(20, bs as int);
        let block = vstd::slice::slice_subrange(b, bs, be);
        let mut rows: Vec<gtChanceToSpellCritBaseRow> = Vec::new();
        proof {
            assert(rows_view(rows@) =~= Seq::<gtChanceToSpellCritBaseRowV>::empty());
        }
        let mut i: u32 = 0;
        while i < n
            invariant
                0 <= i <= n,
                rows@.len() == i,
                decode_rows::<gtChanceToSpellCritBaseRowV>(region, block@, i as nat) == Ok::<
                    Seq<gtChanceToSpellCritBaseRowV>,
                    DbcError,
                >(rows_view(rows@)),
            decreases n - i,
        {
            let off: usize = 20 + (i as usize) * ROW_SIZE;
            let rec = vstd::slice::slice_subrange(b, off, off + ROW_SIZE);
            proof {
                assert(rec@ =~= region.subrange(i as int * 4, (i as int + 1) * 4));
            }
            let mut pos: usize = 0;
            let data = read_u32_le(rec, &mut pos);
            let row = gtChanceToSpellCritBaseRow { data };
            let ghost pre = rows@;
            rows.push(row);
            proof {
                assert(gtChanceToSpellCritBaseRowV::decode_row(
                    region.subrange(i as int * 4, (i as int + 1) * 4),
                    block@,
                ) == Ok::<gtChanceToSpellCritBaseRowV, DbcError>(rows@[i as int]@));
                assert(rows_view(rows@) =~= rows_view(pre).push(rows@[i as int]@));
            }
            i = i + 1;
        }
        Ok(gtChanceToSpellCritBase { rows })
    }

    /// Encodes the table: header, records, then the string block. The
    /// emitted bytes decode back to this very table.
    #[verifier::loop_isolation(false)]
    pub fn write(&self) -> (out: Vec<u8>)
        requires
            table_fits::<gtChanceToSpellCritBaseRowV>(self@),
        ensures
            out@ == encode_table::<gtChanceToSpellCritBaseRowV>(self@, FIELD_COUNT as u32),
    {
        let ghost rv = self@;
        let mut out: Vec<u8> = Vec::new();
        let sbs = self.string_block_size();
        let h = DbcHeader {
            record_count: self.rows.len() as u32,
            field_count: FIELD_COUNT as u32,
            record_size: ROW_SIZE as u32,
            string_block_size: sbs,
        };
        write_header(&mut out, &h);
        let mut cursor: u64 = 1;
        let n = self.rows.len();
        let mut i: usize = 0;
        proof {
            assert(rv.take(0) =~= Seq::<gtChanceToSpellCritBaseRowV>::empty());
            assert(rows_slots(rv.take(0)) =~= Seq::<Seq<u8>>::empty());
            assert(block_bytes(Seq::<Seq<u8>>::empty()) =~= Seq::<u8>::empty());
            assert(encode_rows::<gtChanceToSpellCritBaseRowV>(rv.take(0), 1) =~= Seq::<u8>::empty());
            assert(out@ =~= header_bytes(h) + encode_rows::<gtChanceToSpellCritBaseRowV>(rv.take(0), 1));
        }
        while i < n
            invariant
                0 <= i <= n,
                n == self.rows@.len(),
                out@ == header_bytes(h) + encode_rows::<gtChanceToSpellCritBaseRowV>(rv.take(i as int), 1),
                cursor == 1 + block_len(rows_slots(rv.take(i as int))),
            decreases n - i,
        {
            let row = &self.rows[i];
            proof {
                lemma_rows_block_at::<gtChanceToSpellCritBaseRowV>(rv, i as int);
            }
            push_u32_le(&mut out, row.data);
            proof {
                lemma_encode_rows_push::<gtChanceToSpellCritBaseRowV>(rv.take(i as int), rv[i as int], 1);
                lemma_rows_slots_push::<gtChanceToSpellCritBaseRowV>(rv.take(i as int), rv[i as int]);
                lemma_block_bytes_concat(rows_slots(rv.take(i as int)), rv[i as int].slots());
                assert(rv.take(i as int).push(rv[i as int]) =~= rv.take(i + 1));
                assert(out@ =~= header_bytes(h) + encode_rows::<gtChanceToSpellCritBaseRowV>(rv.take(i + 1), 1));
            }
            i = i + 1;
        }
        self.write_string_block(&mut out);
        proof {
            assert(rv.take(n as int) =~= rv);
            assert(out@ =~= encode_table::<gtChanceToSpellCritBaseRowV>(self@, FIELD_COUNT as u32));
        }
        out
    }

    /// Appends the string block: the sentinel NUL, then every non-empty
    /// string in traversal order.
    #[verifier::loop_isolation(false)]
    fn write_string_block(&self, out: &mut Vec<u8>)
        ensures
            final(out)@ == old(out)@ + table_block::<gtChanceToSpellCritBaseRowV>(self@),
    {
        let ghost rv = self@;
        out.push(0);
        let n = self.rows.len();
        let mut i: usize = 0;
        proof {
            assert(rows_slots(rv.take(0)) =~= Seq::<Seq<u8>>::empty());
            assert(block_bytes(Seq::<Seq<u8>>::empty()) =~= Seq::<u8>::empty());
            assert(out@ =~= old(out)@ + seq![0u8] + block_bytes(rows_slots(rv.take(0))));
        }
        while i < n
            invariant
                0 <= i <= n,
                n == self.rows@.len(),
                out@ == old(out)@ + seq![0u8] + block_bytes(rows_slots(rv.take(i as int))),
            decreases n - i,
        {
            
            proof {
                
                lemma_rows_slots_push::<gtChanceToSpellCritBaseRowV>(rv.take(i as int), rv[i as int]);
                lemma_block_bytes_concat(rows_slots(rv.take(i as int)), rv[i as int].slots());
                assert(rv.take(i as int).push(rv[i as int]) =~= rv.take(i + 1));
                assert(out@ =~= old(out)@ + seq![0u8] + block_bytes(rows_slots(rv.take(i + 1))));
            }
            i = i + 1;
        }
        proof {
            assert(rv.take(n as int) =~= rv);
        }
    }

    /// The string block size the header will carry.
    #[verifier::loop_isolation(false)]
    fn string_block_size(&self) -> (r: u32)
        requires
            table_fits::<gtChanceToSpellCritBaseRowV>(self@),
        ensures
            r == 1 + block_len(rows_slots(self@)),
    {
        let ghost rv = self@;
        let mut sum: u64 = 1;
        let n = self.rows.len();
        let mut i: usize = 0;
        proof {
            assert(rows_slots(rv.take(0)) =~= Seq::<Seq<u8>>::empty());
            assert(block_bytes(Seq::<Seq<u8>>::empty()) =~= Seq::<u8>::empty());
        }
        while i < n
            invariant
                0 <= i <= n,
                n == self.rows@.len(),
                sum == 1 + block_len(rows_slots(rv.take(i as int))),
            decreases n - i,
        {
            proof {
                lemma_rows_block_at::<gtChanceToSpellCritBaseRowV>(rv, i as int);
            }
            
            sum = sum;
            proof {
                lemma_rows_slots_push::<gtChanceToSpellCritBaseRowV>(rv.take(i as int), rv[i as int]);
                lemma_block_bytes_concat(rows_slots(rv.take(i as int)), rv[i as int].slots());
                assert(rv.take(i as int).push(rv[i as int]) =~= rv.take(i + 1));
            }
            i = i + 1;
        }
        proof {
            assert(rv.take(n as int) =~= rv);
        }
        sum as u32
    }
}

/// Round trip: writing any well-formed table and reading the result yields
/// the same rows.
pub proof fn lemma_gt_chance_to_spell_crit_base_round_trip(rows: Seq<gtChanceToSpellCritBaseRowV>)
    requires
        table_wf(rows),
        table_fits::<gtChanceToSpellCritBaseRowV>(rows),
    ensures
        decode_table::<gtChanceToSpellCritBaseRowV>(
            encode_table(rows, FIELD_COUNT as u32),
            ROW_SIZE as u32,
            FIELD_COUNT as u32,
        ) == Ok::<Seq<gtChanceToSpellCritBaseRowV>, DbcError>(rows),
{
    assert(rows_wf(rows));
    lemma_table_round_trip(rows, FIELD_COUNT as u32);
}

} // verus!
