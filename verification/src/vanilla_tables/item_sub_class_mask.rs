//! The `ItemSubClassMask` table: a subclass mask with a localized name.

use vstd::prelude::*;
use crate::DbcError;
use crate::codec::{
    RowCodec, decode_table, encode_table, decode_rows, encode_rows, rows_slots, rows_wf,
    table_block,
    table_wf, table_fits, split_exec, lemma_decode_rows_error, lemma_encode_rows_push,
    lemma_rows_slots_push, lemma_rows_block_at, lemma_table_round_trip,
};
use crate::header::{DbcHeader, header_bytes, write_header};
use crate::localized::{
    LocalizedString, LocalizedStringV, loc_strs, loc_slots, loc_rec_bytes, decode_loc, lemma_loc_round_trip,
};
use crate::string_block::{block_len, block_bytes, no_nul, slots_wf, lemma_block_bytes_concat};
use crate::str_list::{lemma_block_segment, lemma_strs_rec_bytes_len};
use crate::util::{
    u32_le, u32_at, i32_at, read_i32_le, read_u32_le, push_i32_le, push_u32_le,
    lemma_i32_at_of_le, lemma_u32_at_of_le, lemma_u32_le_len,
};

verus! {

pub const FILENAME: &'static str = "ItemSubClassMask.dbc";

pub const FIELD_COUNT: usize = 11;

pub const ROW_SIZE: usize = 44;

/// One row of the table.
#[derive(Debug, Clone, PartialEq, Eq, PartialOrd, Ord, Hash)]
pub struct ItemSubClassMaskRow {
    pub subclass: u32,
    pub mask: i32,
    pub name: LocalizedString,
}

/// The mathematical view of a row.
pub struct ItemSubClassMaskRowV {
    pub subclass: u32,
    pub mask: i32,
    pub name: LocalizedStringV,
}

impl View for ItemSubClassMaskRow {
    type V = ItemSubClassMaskRowV;

    open spec fn view(&self) -> ItemSubClassMaskRowV {
        ItemSubClassMaskRowV { subclass: self.subclass, mask: self.mask, name: self.name@ }
    }
}

impl RowCodec for ItemSubClassMaskRowV {
    open spec fn row_size() -> int {
        44
    }

    open spec fn row_wf(self) -> bool {
        true
    }

    open spec fn decode_row(rec: Seq<u8>, block: Seq<u8>) -> Result<Self, DbcError> {
        match decode_loc(rec, 8, block) {
            Err(e) => Err(e),
            Ok(name) => Ok(
            ItemSubClassMaskRowV { subclass: u32_at(rec, 0), mask: i32_at(rec, 4), name },
        ),
        }
    }

    open spec fn slots(self) -> Seq<Seq<u8>> {
        loc_slots(self.name)
    }

    open spec fn rec_bytes(self, c: int) -> Seq<u8> {
        u32_le(self.subclass) + u32_le(self.mask as u32) + loc_rec_bytes(self.name, c)
    }

    proof fn lemma_rec_bytes_len(self, c: int) {
        lemma_u32_le_len(self.subclass);
        lemma_u32_le_len(self.mask as u32);
        lemma_u32_le_len(self.name.flags);
        lemma_strs_rec_bytes_len(loc_strs(self.name), c);
        assert(loc_rec_bytes(self.name, c).len() == 36);
    }

    proof fn lemma_row_round_trip(self, block: Seq<u8>, c: int) {
        let rec = self.rec_bytes(c);
        lemma_u32_le_len(self.subclass);
        lemma_u32_le_len(self.mask as u32);
        lemma_u32_le_len(self.name.flags);
        lemma_strs_rec_bytes_len(loc_strs(self.name), c);
        assert(loc_rec_bytes(self.name, c).len() == 36);
        assert(rec.subrange(0, 4) =~= u32_le(self.subclass));
        lemma_u32_at_of_le(rec, 0, self.subclass);
        assert(rec.subrange(4, 8) =~= u32_le(self.mask as u32));
        lemma_i32_at_of_le(rec, 4, self.mask);
        let pre0 = Seq::<Seq<u8>>::empty();
        let mid0 = loc_slots(self.name);
        let post0 = Seq::<Seq<u8>>::empty();
        assert(self.slots() =~= pre0 + mid0 + post0);
        lemma_block_segment(block, c, pre0, mid0, post0);
        assert(c + block_len(pre0) == c);
        assert(slots_wf(mid0)) by {
            assert forall|q: int| 0 <= q < 8 implies no_nul(mid0[q]) by {
                assert(mid0[q] == self.slots()[0 + q]);
            }
        }
        assert(rec.subrange(8, 44) =~= loc_rec_bytes(self.name, c));
        lemma_loc_round_trip(self.name, rec, 8, block, c);
    }
}

/// The table: a sequence of rows.
#[derive(Debug, Clone, PartialEq, Eq, PartialOrd, Ord, Hash)]
pub struct ItemSubClassMask {
    pub rows: Vec<ItemSubClassMaskRow>,
}

/// The views of a row sequence.
pub open spec fn rows_view(rows: Seq<ItemSubClassMaskRow>) -> Seq<ItemSubClassMaskRowV> {
    rows.map_values(|r: ItemSubClassMaskRow| r@)
}

impl View for ItemSubClassMask {
    type V = Seq<ItemSubClassMaskRowV>;

    open spec fn view(&self) -> Seq<ItemSubClassMaskRowV> {
        rows_view(self.rows@)
    }
}

impl ItemSubClassMask {
    /// The rows of the table.
    pub fn rows(&self) -> (r: &Vec<ItemSubClassMaskRow>)
        ensures
            r@ == self.rows@,
    {
        &self.rows
    }

    /// The rows of the table, borrowed for in-place mutation.
    pub fn rows_mut(&mut self) -> (r: &mut Vec<ItemSubClassMaskRow>)
        ensures
            *r == old(self).rows,
            final(self).rows == *final(r),
    {
        &mut self.rows
    }

    /// Decodes a whole DBC byte stream into the table, or reports exactly
    /// why it cannot be decoded.
    #[verifier::loop_isolation(false)]
    pub fn read(b: &[u8]) -> (r: Result<ItemSubClassMask, DbcError>)
        ensures
            match r {
                Ok(t) => decode_table::<ItemSubClassMaskRowV>(b@, ROW_SIZE as u32, FIELD_COUNT as u32)
                    == Ok::<Seq<ItemSubClassMaskRowV>, DbcError>(t@),
                Err(e) => decode_table::<ItemSubClassMaskRowV>(b@, ROW_SIZE as u32, FIELD_COUNT as u32)
                    == Err::<Seq<ItemSubClassMaskRowV>, DbcError>(e),
            },
    {
        let (n, bs, be) = match split_exec(b, ROW_SIZE as u32, FIELD_COUNT as u32) {
            Ok(t) => t,
            Err(e) => {
                return Err(e);
            },
        };
        let ghost region = b@.subrange(20, bs as int);
        let block = vstd::slice::slice_subrange(b, bs, be);
        let mut rows: Vec<ItemSubClassMaskRow> = Vec::new();
        proof {
            assert(rows_view(rows@) =~= Seq::<ItemSubClassMaskRowV>::empty());
        }
        let mut i: u32 = 0;
        while i < n
            invariant
                0 <= i <= n,
                rows@.len() == i,
                decode_rows::<ItemSubClassMaskRowV>(region, block@, i as nat) == Ok::<
                    Seq<ItemSubClassMaskRowV>,
                    DbcError,
                >(rows_view(rows@)),
            decreases n - i,
        {
            let off: usize = 20 + (i as usize) * ROW_SIZE;
            let rec = vstd::slice::slice_subrange(b, off, off + ROW_SIZE);
            proof {
                assert(rec@ =~= region.subrange(i as int * 44, (i as int + 1) * 44));
            }
            let mut pos: usize = 0;
            let subclass = read_u32_le(rec, &mut pos);
            let mask = read_i32_le(rec, &mut pos);
            let name = match LocalizedString::read(rec, &mut pos, block) {
                Ok(v) => v,
                Err(e) => {
                    proof {
                        lemma_decode_rows_error::<ItemSubClassMaskRowV>(region, block@, i as nat, n as nat, e);
                    }
                    return Err(e);
                },
            };
            let row = ItemSubClassMaskRow { subclass, mask, name };
            let ghost pre = rows@;
            rows.push(row);
            proof {
                assert(ItemSubClassMaskRowV::decode_row(
                    region.subrange(i as int * 44, (i as int + 1) * 44),
                    block@,
                ) == Ok::<ItemSubClassMaskRowV, DbcError>(rows@[i as int]@));
                assert(rows_view(rows@) =~= rows_view(pre).push(rows@[i as int]@));
            }
            i = i + 1;
        }
        Ok(ItemSubClassMask { rows })
    }

    /// Encodes the table: header, records, then the string block. The
    /// emitted bytes decode back to this very table.
    #[verifier::loop_isolation(false)]
    pub fn write(&self) -> (out: Vec<u8>)
        requires
            table_fits::<ItemSubClassMaskRowV>(self@),
        ensures
            out@ == encode_table::<ItemSubClassMaskRowV>(self@, FIELD_COUNT as u32),
    {
        let ghost rv = self@;
        let mut out: Vec<u8> = Vec::new();
        let sbs = self.string_block_size();
        let h = DbcHeader {
            record_count: self.rows.len() as u32,
            field_count: FIELD_COUNT as u32,
            record_size: ROW_SIZE as u32,
            string_block_size: sbs,
        };
        write_header(&mut out, &h);
        let mut cursor: u64 = 1;
        let n = self.rows.len();
        let mut i: usize = 0;
        proof {
            assert(rv.take(0) =~= Seq::<ItemSubClassMaskRowV>::empty());
            assert(rows_slots(rv.take(0)) =~= Seq::<Seq<u8>>::empty());
            assert(block_bytes(Seq::<Seq<u8>>::empty()) =~= Seq::<u8>::empty());
            assert(encode_rows::<ItemSubClassMaskRowV>(rv.take(0), 1) =~= Seq::<u8>::empty());
            assert(out@ =~= header_bytes(h) + encode_rows::<ItemSubClassMaskRowV>(rv.take(0), 1));
        }
        while i < n
            invariant
                0 <= i <= n,
                n == self.rows@.len(),
                out@ == header_bytes(h) + encode_rows::<ItemSubClassMaskRowV>(rv.take(i as int), 1),
                cursor == 1 + block_len(rows_slots(rv.take(i as int))),
            decreases n - i,
        {
            let row = &self.rows[i];
            proof {
                lemma_rows_block_at::<ItemSubClassMaskRowV>(rv, i as int);
            }
            push_u32_le(&mut out, row.subclass);
            push_i32_le(&mut out, row.mask);
            row.name.write(&mut out, &mut cursor);
            proof {
                lemma_encode_rows_push::<ItemSubClassMaskRowV>(rv.take(i as int), rv[i as int], 1);
                lemma_rows_slots_push::<ItemSubClassMaskRowV>(rv.take(i as int), rv[i as int]);
                lemma_block_bytes_concat(rows_slots(rv.take(i as int)), rv[i as int].slots());
                assert(rv.take(i as int).push(rv[i as int]) =~= rv.take(i + 1));
                assert(out@ =~= header_bytes(h) + encode_rows::<ItemSubClassMaskRowV>(rv.take(i + 1), 1));
            }
            i = i + 1;
        }
        self.write_string_block(&mut out);
        proof {
            assert(rv.take(n as int) =~= rv);
            assert(out@ =~= encode_table::<ItemSubClassMaskRowV>(self@, FIELD_COUNT as u32));
        }
        out
    }

    /// Appends the string block: the sentinel NUL, then every non-empty
    /// string in traversal order.
    #[verifier::loop_isolation(false)]
    fn write_string_block(&self, out: &mut Vec<u8>)
        ensures
            final(out)@ == old(out)@ + table_block::<ItemSubClassMaskRowV>(self@),
    {
        let ghost rv = self@;
        out.push(0);
        let n = self.rows.len();
        let mut i: usize = 0;
        proof {
            assert(rows_slots(rv.take(0)) =~= Seq::<Seq<u8>>::empty());
            assert(block_bytes(Seq::<Seq<u8>>::empty()) =~= Seq::<u8>::empty());
            assert(out@ =~= old(out)@ + seq![0u8] + block_bytes(rows_slots(rv.take(0))));
        }
        while i < n
            invariant
                0 <= i <= n,
                n == self.rows@.len(),
                out@ == old(out)@ + seq![0u8] + block_bytes(rows_slots(rv.take(i as int))),
            decreases n - i,
        {
            self.rows[i].name.write_block(out);
            proof {
                
                lemma_rows_slots_push::<ItemSubClassMaskRowV>(rv.take(i as int), rv[i as int]);
                lemma_block_bytes_concat(rows_slots(rv.take(i as int)), rv[i as int].slots());
                assert(rv.take(i as int).push(rv[i as int]) =~= rv.take(i + 1));
                assert(out@ =~= old(out)@ + seq![0u8] + block_bytes(rows_slots(rv.take(i + 1))));
            }
            i = i + 1;
        }
        proof {
            assert(rv.take(n as int) =~= rv);
        }
    }

    /// The string block size the header will carry.
    #[verifier::loop_isolation(false)]
    fn string_block_size(&self) -> (r: u32)
        requires
            table_fits::<ItemSubClassMaskRowV>(self@),
        ensures
            r == 1 + block_len(rows_slots(self@)),
    {
        let ghost rv = self@;
        let mut sum: u64 = 1;
        let n = self.rows.len();
        let mut i: usize = 0;
        proof {
            assert(rows_slots(rv.take(0)) =~= Seq::<Seq<u8>>::empty());
            assert(block_bytes(Seq::<Seq<u8>>::empty()) =~= Seq::<u8>::empty());
        }
        while i < n
            invariant
                0 <= i <= n,
                n == self.rows@.len(),
                sum == 1 + block_len(rows_slots(rv.take(i as int))),
            decreases n - i,
        {
            proof {
                lemma_rows_block_at::<ItemSubClassMaskRowV>(rv, i as int);
            }
            let extra0 = self.rows[i].name.block_size();
            sum = sum + extra0;
            proof {
                lemma_rows_slots_push::<ItemSubClassMaskRowV>(rv.take(i as int), rv[i as int]);
                lemma_block_bytes_concat(rows_slots(rv.take(i as int)), rv[i as int].slots());
                assert(rv.take(i as int).push(rv[i as int]) =~= rv.take(i + 1));
            }
            i = i + 1;
        }
        proof {
            assert(rv.take(n as int) =~= rv);
        }
        sum as u32
    }
}

/// Round trip: writing any well-formed table and reading the result yields
/// the same rows.
pub proof fn lemma_item_sub_class_mask_round_trip(rows: Seq<ItemSubClassMaskRowV>)
    requires
        table_wf(rows),
        table_fits::<ItemSubClassMaskRowV>(rows),
    ensures
        decode_table::<ItemSubClassMaskRowV>(
            encode_table(rows, FIELD_COUNT as u32),
            ROW_SIZE as u32,
            FIELD_COUNT as u32,
        ) == Ok::<Seq<ItemSubClassMaskRowV>, DbcError>(rows),
{
    assert(rows_wf(rows));
    lemma_table_round_trip(rows, FIELD_COUNT as u32);
}

} // verus!
