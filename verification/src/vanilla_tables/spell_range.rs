//! The `SpellRange` table: spell range rows whose `range_min` and `range_max` carry the on-disk IEEE-754 bit patterns verbatim.

use vstd::prelude::*;
use crate::DbcError;
use crate::codec::{
    RowCodec, decode_table, encode_table, decode_rows, encode_rows, rows_slots, rows_wf,
    table_block,
    table_wf, table_fits, split_exec, lemma_decode_rows_error, lemma_encode_rows_push,
    lemma_rows_slots_push, lemma_rows_block_at, lemma_table_round_trip,
};
use crate::header::{DbcHeader, header_bytes, write_header};
use crate::localized::{
    LocalizedString, LocalizedStringV, loc_strs, loc_slots, loc_rec_bytes, decode_loc, lemma_loc_round_trip,
};
use crate::string_block::{block_len, block_bytes, no_nul, slots_wf, lemma_block_bytes_concat};
use crate::str_list::{lemma_block_segment, lemma_strs_rec_bytes_len};
use crate::util::{
    find_first, lemma_find_first_hit, lemma_find_first_miss, u32_le, u32_at, i32_at, read_i32_le,
    read_u32_le, push_i32_le, push_u32_le, lemma_i32_at_of_le, lemma_u32_at_of_le,
    lemma_u32_le_len,
};

verus! {

pub const FILENAME: &'static str = "SpellRange.dbc";

pub const FIELD_COUNT: usize = 22;

pub const ROW_SIZE: usize = 88;

/// The typed primary key of `SpellRange`.
#[derive(Debug, Clone, Copy, PartialEq, Eq, PartialOrd, Ord, Hash, Default, Structural)]
pub struct SpellRangeKey {
    pub id: u32,
}

impl SpellRangeKey {
    pub fn new(id: u32) -> (r: Self)
        ensures
            r.id == id,
    {
        Self { id }
    }
}

impl From<u8> for SpellRangeKey {
    fn from(v: u8) -> (r: Self) {
        Self::new(v as u32)
    }
}

impl vstd::std_specs::convert::FromSpecImpl<u8> for SpellRangeKey {
    open spec fn obeys_from_spec() -> bool {
        true
    }

    open spec fn from_spec(v: u8) -> Self {
        SpellRangeKey { id: v as u32 }
    }
}

impl From<u16> for SpellRangeKey {
    fn from(v: u16) -> (r: Self) {
        Self::new(v as u32)
    }
}

impl vstd::std_specs::convert::FromSpecImpl<u16> for SpellRangeKey {
    open spec fn obeys_from_spec() -> bool {
        true
    }

    open spec fn from_spec(v: u16) -> Self {
        SpellRangeKey { id: v as u32 }
    }
}

impl From<u32> for SpellRangeKey {
    fn from(v: u32) -> (r: Self) {
        Self::new(v)
    }
}

impl vstd::std_specs::convert::FromSpecImpl<u32> for SpellRangeKey {
    open spec fn obeys_from_spec() -> bool {
        true
    }

    open spec fn from_spec(v: u32) -> Self {
        SpellRangeKey { id: v }
    }
}

impl TryFrom<u64> for SpellRangeKey {
    type Error = u64;

    fn try_from(v: u64) -> (r: Result<Self, u64>) {
        if v <= u32::MAX as u64 {
            Ok(Self::new(v as u32))
        } else {
            Err(v)
        }
    }
}

impl vstd::std_specs::convert::TryFromSpecImpl<u64> for SpellRangeKey {
    open spec fn obeys_try_from_spec() -> bool {
        true
    }

    open spec fn try_from_spec(v: u64) -> Result<Self, u64> {
        if v <= u32::MAX as u64 {
            Ok(SpellRangeKey { id: v as u32 })
        } else {
            Err(v)
        }
    }
}

impl TryFrom<usize> for SpellRangeKey {
    type Error = usize;

    fn try_from(v: usize) -> (r: Result<Self, usize>) {
        if v <= u32::MAX as usize {
            Ok(Self::new(v as u32))
        } else {
            Err(v)
        }
    }
}

impl vstd::std_specs::convert::TryFromSpecImpl<usize> for SpellRangeKey {
    open spec fn obeys_try_from_spec() -> bool {
        true
    }

    open spec fn try_from_spec(v: usize) -> Result<Self, usize> {
        if v <= u32::MAX as usize {
            Ok(SpellRangeKey { id: v as u32 })
        } else {
            Err(v)
        }
    }
}

impl TryFrom<i8> for SpellRangeKey {
    type Error = i8;

    fn try_from(v: i8) -> (r: Result<Self, i8>) {
        if v >= 0 {
            Ok(Self::new(v as u32))
        } else {
            Err(v)
        }
    }
}

impl vstd::std_specs::convert::TryFromSpecImpl<i8> for SpellRangeKey {
    open spec fn obeys_try_from_spec() -> bool {
        true
    }

    open spec fn try_from_spec(v: i8) -> Result<Self, i8> {
        if v >= 0 {
            Ok(SpellRangeKey { id: v as u32 })
        } else {
            Err(v)
        }
    }
}

impl TryFrom<i16> for SpellRangeKey {
    type Error = i16;

    fn try_from(v: i16) -> (r: Result<Self, i16>) {
        if v >= 0 {
            Ok(Self::new(v as u32))
        } else {
            Err(v)
        }
    }
}

impl vstd::std_specs::convert::TryFromSpecImpl<i16> for SpellRangeKey {
    open spec fn obeys_try_from_spec() -> bool {
        true
    }

    open spec fn try_from_spec(v: i16) -> Result<Self, i16> {
        if v >= 0 {
            Ok(SpellRangeKey { id: v as u32 })
        } else {
            Err(v)
        }
    }
}

impl TryFrom<i32> for SpellRangeKey {
    type Error = i32;

    fn try_from(v: i32) -> (r: Result<Self, i32>) {
        if v >= 0 {
            Ok(Self::new(v as u32))
        } else {
            Err(v)
        }
    }
}

impl vstd::std_specs::convert::TryFromSpecImpl<i32> for SpellRangeKey {
    open spec fn obeys_try_from_spec() -> bool {
        true
    }

    open spec fn try_from_spec(v: i32) -> Result<Self, i32> {
        if v >= 0 {
            Ok(SpellRangeKey { id: v as u32 })
        } else {
            Err(v)
        }
    }
}

impl TryFrom<i64> for SpellRangeKey {
    type Error = i64;

    fn try_from(v: i64) -> (r: Result<Self, i64>) {
        if 0 <= v && v <= u32::MAX as i64 {
            Ok(Self::new(v as u32))
        } else {
            Err(v)
        }
    }
}

impl vstd::std_specs::convert::TryFromSpecImpl<i64> for SpellRangeKey {
    open spec fn obeys_try_from_spec() -> bool {
        true
    }

    open spec fn try_from_spec(v: i64) -> Result<Self, i64> {
        if 0 <= v && v <= u32::MAX as i64 {
            Ok(SpellRangeKey { id: v as u32 })
        } else {
            Err(v)
        }
    }
}

impl TryFrom<isize> for SpellRangeKey {
    type Error = isize;

    fn try_from(v: isize) -> (r: Result<Self, isize>) {
        if 0 <= v && v <= u32::MAX as isize {
            Ok(Self::new(v as u32))
        } else {
            Err(v)
        }
    }
}

impl vstd::std_specs::convert::TryFromSpecImpl<isize> for SpellRangeKey {
    open spec fn obeys_try_from_spec() -> bool {
        true
    }

    open spec fn try_from_spec(v: isize) -> Result<Self, isize> {
        if 0 <= v && v <= u32::MAX as isize {
            Ok(SpellRangeKey { id: v as u32 })
        } else {
            Err(v)
        }
    }
}

/// One row of the table.
#[derive(Debug, Clone, PartialEq, Eq, PartialOrd, Ord, Hash)]
pub struct SpellRangeRow {
    pub id: SpellRangeKey,
    pub range_min: u32,
    pub range_max: u32,
    pub flags: i32,
    pub display_name: LocalizedString,
    pub display_name_short: LocalizedString,
}

/// The mathematical view of a row.
pub struct SpellRangeRowV {
    pub id: SpellRangeKey,
    pub range_min: u32,
    pub range_max: u32,
    pub flags: i32,
    pub display_name: LocalizedStringV,
    pub display_name_short: LocalizedStringV,
}

impl View for SpellRangeRow {
    type V = SpellRangeRowV;

    open spec fn view(&self) -> SpellRangeRowV {
        SpellRangeRowV { id: self.id, range_min: self.range_min, range_max: self.range_max, flags: self.flags, display_name: self.display_name@, display_name_short: self.display_name_short@ }
    }
}

impl RowCodec for SpellRangeRowV {
    open spec fn row_size() -> int {
        88
    }

    open spec fn row_wf(self) -> bool {
        true
    }

    open spec fn decode_row(rec: Seq<u8>, block: Seq<u8>) -> Result<Self, DbcError> {
        match decode_loc(rec, 16, block) {
            Err(e) => Err(e),
            Ok(display_name) => match decode_loc(rec, 52, block) {
            Err(e) => Err(e),
            Ok(display_name_short) => Ok(
            SpellRangeRowV { id: SpellRangeKey { id: u32_at(rec, 0) }, range_min: u32_at(rec, 4), range_max: u32_at(rec, 8), flags: i32_at(rec, 12), display_name, display_name_short },
        ),
        },
        }
    }

    open spec fn slots(self) -> Seq<Seq<u8>> {
        loc_slots(self.display_name) + loc_slots(self.display_name_short)
    }

    open spec fn rec_bytes(self, c: int) -> Seq<u8> {
        u32_le(self.id.id as u32) + u32_le(self.range_min) + u32_le(self.range_max) + u32_le(self.flags as u32) + loc_rec_bytes(self.display_name, c) + loc_rec_bytes(self.display_name_short, c + block_len(loc_slots(self.display_name)))
    }

    proof fn lemma_rec_bytes_len(self, c: int) {
        lemma_u32_le_len(self.id.id as u32);
        lemma_u32_le_len(self.range_min);
        lemma_u32_le_len(self.range_max);
        lemma_u32_le_len(self.flags as u32);
        lemma_u32_le_len(self.display_name.flags);
        lemma_strs_rec_bytes_len(loc_strs(self.display_name), c);
        assert(loc_rec_bytes(self.display_name, c).len() == 36);
        lemma_u32_le_len(self.display_name_short.flags);
        lemma_strs_rec_bytes_len(loc_strs(self.display_name_short), c + block_len(loc_slots(self.display_name)));
        assert(loc_rec_bytes(self.display_name_short, c + block_len(loc_slots(self.display_name))).len() == 36);
    }

    proof fn lemma_row_round_trip(self, block: Seq<u8>, c: int) {
        let rec = self.rec_bytes(c);
        lemma_u32_le_len(self.id.id as u32);
        lemma_u32_le_len(self.range_min);
        lemma_u32_le_len(self.range_max);
        lemma_u32_le_len(self.flags as u32);
        lemma_u32_le_len(self.display_name.flags);
        lemma_strs_rec_bytes_len(loc_strs(self.display_name), c);
        assert(loc_rec_bytes(self.display_name, c).len() == 36);
        lemma_u32_le_len(self.display_name_short.flags);
        lemma_strs_rec_bytes_len(loc_strs(self.display_name_short), c + block_len(loc_slots(self.display_name)));
        assert(loc_rec_bytes(self.display_name_short, c + block_len(loc_slots(self.display_name))).len() == 36);
        assert(self.slots() =~= loc_slots(self.display_name) + loc_slots(self.display_name_short));
        assert(rec.subrange(0, 4) =~= u32_le(self.id.id));
        lemma_u32_at_of_le(rec, 0, self.id.id);
        assert(rec.subrange(4, 8) =~= u32_le(self.range_min));
        lemma_u32_at_of_le(rec, 4, self.range_min);
        assert(rec.subrange(8, 12) =~= u32_le(self.range_max));
        lemma_u32_at_of_le(rec, 8, self.range_max);
        assert(rec.subrange(12, 16) =~= u32_le(self.flags as u32));
        lemma_i32_at_of_le(rec, 12, self.flags);
        let pre0 = Seq::<Seq<u8>>::empty();
        let mid0 = loc_slots(self.display_name);
        let post0 = loc_slots(self.display_name_short);
        assert(self.slots() =~= pre0 + mid0 + post0);
        lemma_block_segment(block, c, pre0, mid0, post0);
        assert(c + block_len(pre0) == c);
        assert(slots_wf(mid0)) by {
            assert forall|q: int| 0 <= q < 8 implies no_nul(mid0[q]) by {
                assert(mid0[q] == self.slots()[0 + q]);
            }
        }
        assert(rec.subrange(16, 52) =~= loc_rec_bytes(self.display_name, c));
        lemma_loc_round_trip(self.display_name, rec, 16, block, c);
        let pre1 = loc_slots(self.display_name);
        let mid1 = loc_slots(self.display_name_short);
        let post1 = Seq::<Seq<u8>>::empty();
        assert(self.slots() =~= pre1 + mid1 + post1);
        lemma_block_segment(block, c, pre1, mid1, post1);
        assert(c + block_len(pre1) == c + block_len(loc_slots(self.display_name)));
        assert(slots_wf(mid1)) by {
            assert forall|q: int| 0 <= q < 8 implies no_nul(mid1[q]) by {
                assert(mid1[q] == self.slots()[8 + q]);
            }
        }
        assert(rec.subrange(52, 88) =~= loc_rec_bytes(self.display_name_short, c + block_len(loc_slots(self.display_name))));
        lemma_loc_round_trip(self.display_name_short, rec, 52, block, c + block_len(loc_slots(self.display_name)));
    }
}

/// The table: a sequence of rows.
#[derive(Debug, Clone, PartialEq, Eq, PartialOrd, Ord, Hash)]
pub struct SpellRange {
    pub rows: Vec<SpellRangeRow>,
}

/// The views of a row sequence.
pub open spec fn rows_view(rows: Seq<SpellRangeRow>) -> Seq<SpellRangeRowV> {
    rows.map_values(|r: SpellRangeRow| r@)
}

impl View for SpellRange {
    type V = Seq<SpellRangeRowV>;

    open spec fn view(&self) -> Seq<SpellRangeRowV> {
        rows_view(self.rows@)
    }
}

impl SpellRange {
    /// The rows of the table.
    pub fn rows(&self) -> (r: &Vec<SpellRangeRow>)
        ensures
            r@ == self.rows@,
    {
        &self.rows
    }

    /// The rows of the table, borrowed for in-place mutation.
    pub fn rows_mut(&mut self) -> (r: &mut Vec<SpellRangeRow>)
        ensures
            *r == old(self).rows,
            final(self).rows == *final(r),
    {
        &mut self.rows
    }

    /// Where the first row with primary key `key` stands, if anywhere.
    pub open spec fn key_index(rows: Seq<SpellRangeRow>, key: SpellRangeKey) -> Option<int> {
        find_first(rows, |r: SpellRangeRow| r.id == key)
    }

    /// The position of the first row whose primary key equals `key`.
    #[verifier::loop_isolation(false)]
    fn key_pos(&self, key: SpellRangeKey) -> (r: Option<usize>)
        ensures
            match r {
                Some(i) => Self::key_index(self.rows@, key) == Some(i as int) && i
                    < self.rows@.len(),
                None => Self::key_index(self.rows@, key) is None,
            },
    {
        let ghost p = |r: SpellRangeRow| r.id == key;
        let n = self.rows.len();
        let mut i: usize = 0;
        while i < n
            invariant
                0 <= i <= n,
                n == self.rows@.len(),
                forall|j: int| 0 <= j < i ==> !p(self.rows@[j]),
            decreases n - i,
        {
            if self.rows[i].id.id == key.id {
                proof {
                    assert(p(self.rows@[i as int]));
                    lemma_find_first_hit(self.rows@, p, i as int);
                }
                return Some(i);
            }
            proof {
                assert(self.rows@[i as int].id != key);
            }
            i = i + 1;
        }
        proof {
            lemma_find_first_miss(self.rows@, p);
        }
        None
    }

    /// The first row whose primary key equals `key`, if any.
    pub fn get(&self, key: SpellRangeKey) -> (r: Option<&SpellRangeRow>)
        ensures
            match r {
                Some(row) => Self::key_index(self.rows@, key) matches Some(i) && *row
                    == self.rows@[i],
                None => Self::key_index(self.rows@, key) is None,
            },
    {
        match self.key_pos(key) {
            Some(i) => Some(&self.rows[i]),
            None => None,
        }
    }

    /// The first row whose primary key equals `key`, borrowed for mutation.
    pub fn get_mut(&mut self, key: SpellRangeKey) -> (r: Option<&mut SpellRangeRow>)
        ensures
            match r {
                Some(row) => Self::key_index(old(self).rows@, key) matches Some(i) && *row == old(
                    self,
                ).rows@[i] && final(self).rows@ == old(self).rows@.update(i, *final(row)),
                None => {
                    &&& *final(self) == *old(self)
                    &&& Self::key_index(old(self).rows@, key) is None
                },
            },
    {
        match self.key_pos(key) {
            Some(i) => Some(&mut self.rows[i]),
            None => None,
        }
    }

    /// Decodes a whole DBC byte stream into the table, or reports exactly
    /// why it cannot be decoded.
    #[verifier::loop_isolation(false)]
    pub fn read(b: &[u8]) -> (r: Result<SpellRange, DbcError>)
        ensures
            match r {
                Ok(t) => decode_table::<SpellRangeRowV>(b@, ROW_SIZE as u32, FIELD_COUNT as u32)
                    == Ok::<Seq<SpellRangeRowV>, DbcError>(t@),
                Err(e) => decode_table::<SpellRangeRowV>(b@, ROW_SIZE as u32, FIELD_COUNT as u32)
                    == Err::<Seq<SpellRangeRowV>, DbcError>(e),
            },
    {
        let (n, bs, be) = match split_exec(b, ROW_SIZE as u32, FIELD_COUNT as u32) {
            Ok(t) => t,
            Err(e) => {
                return Err(e);
            },
        };
        let ghost region = b@.subrange(20, bs as int);
        let block = vstd::slice::slice_subrange(b, bs, be);
        let mut rows: Vec<SpellRangeRow> = Vec::new();
        proof {
            assert(rows_view(rows@) =~= Seq::<SpellRangeRowV>::empty());
        }
        let mut i: u32 = 0;
        while i < n
            invariant
                0 <= i <= n,
                rows@.len() == i,
                decode_rows::<SpellRangeRowV>(region, block@, i as nat) == Ok::<
                    Seq<SpellRangeRowV>,
                    DbcError,
                >(rows_view(rows@)),
            decreases n - i,
        {
            let off: usize = 20 + (i as usize) * ROW_SIZE;
            let rec = vstd::slice::slice_subrange(b, off, off + ROW_SIZE);
            proof {
                assert(rec@ =~= region.subrange(i as int * 88, (i as int + 1) * 88));
            }
            let mut pos: usize = 0;
            let id = SpellRangeKey::new(read_u32_le(rec, &mut pos));
            let range_min = read_u32_le(rec, &mut pos);
            let range_max = read_u32_le(rec, &mut pos);
            let flags = read_i32_le(rec, &mut pos);
            let display_name = match LocalizedString::read(rec, &mut pos, block) {
                Ok(v) => v,
                Err(e) => {
                    proof {
                        lemma_decode_rows_error::<SpellRangeRowV>(region, block@, i as nat, n as nat, e);
                    }
                    return Err(e);
                },
            };
            let display_name_short = match LocalizedString::read(rec, &mut pos, block) {
                Ok(v) => v,
                Err(e) => {
                    proof {
                        lemma_decode_rows_error::<SpellRangeRowV>(region, block@, i as nat, n as nat, e);
                    }
                    return Err(e);
                },
            };
            let row = SpellRangeRow { id, range_min, range_max, flags, display_name, display_name_short };
            let ghost pre = rows@;
            rows.push(row);
            proof {
                assert(SpellRangeRowV::decode_row(
                    region.subrange(i as int * 88, (i as int + 1) * 88),
                    block@,
                ) == Ok::<SpellRangeRowV, DbcError>(rows@[i as int]@));
                assert(rows_view(rows@) =~= rows_view(pre).push(rows@[i as int]@));
            }
            i = i + 1;
        }
        Ok(SpellRange { rows })
    }

    /// Encodes the table: header, records, then the string block. The
    /// emitted bytes decode back to this very table.
    #[verifier::loop_isolation(false)]
    #[verifier::rlimit(80)]
    pub fn write(&self) -> (out: Vec<u8>)
        requires
            table_fits::<SpellRangeRowV>(self@),
        ensures
            out@ == encode_table::<SpellRangeRowV>(self@, FIELD_COUNT as u32),
    {
        let ghost rv = self@;
        let mut out: Vec<u8> = Vec::new();
        let sbs = self.string_block_size();
        let h = DbcHeader {
            record_count: self.rows.len() as u32,
            field_count: FIELD_COUNT as u32,
            record_size: ROW_SIZE as u32,
            string_block_size: sbs,
        };
        write_header(&mut out, &h);
        let mut cursor: u64 = 1;
        let n = self.rows.len();
        let mut i: usize = 0;
        proof {
            assert(rv.take(0) =~= Seq::<SpellRangeRowV>::empty());
            assert(rows_slots(rv.take(0)) =~= Seq::<Seq<u8>>::empty());
            assert(block_bytes(Seq::<Seq<u8>>::empty()) =~= Seq::<u8>::empty());
            assert(encode_rows::<SpellRangeRowV>(rv.take(0), 1) =~= Seq::<u8>::empty());
            assert(out@ =~= header_bytes(h) + encode_rows::<SpellRangeRowV>(rv.take(0), 1));
        }
        while i < n
            invariant
                0 <= i <= n,
                n == self.rows@.len(),
                out@ == header_bytes(h) + encode_rows::<SpellRangeRowV>(rv.take(i as int), 1),
                cursor == 1 + block_len(rows_slots(rv.take(i as int))),
            decreases n - i,
        {
            let row = &self.rows[i];
            proof {
                lemma_rows_block_at::<SpellRangeRowV>(rv, i as int);
                assert(rv[i as int].slots() =~= loc_slots(rv[i as int].display_name) + loc_slots(rv[i as int].display_name_short));
                lemma_block_bytes_concat(loc_slots(rv[i as int].display_name), loc_slots(rv[i as int].display_name_short));
            }
            push_u32_le(&mut out, row.id.id);
            push_u32_le(&mut out, row.range_min);
            push_u32_le(&mut out, row.range_max);
            push_i32_le(&mut out, row.flags);
            row.display_name.write(&mut out, &mut cursor);
            row.display_name_short.write(&mut out, &mut cursor);
            proof {
                lemma_encode_rows_push::<SpellRangeRowV>(rv.take(i as int), rv[i as int], 1);
                lemma_rows_slots_push::<SpellRangeRowV>(rv.take(i as int), rv[i as int]);
                lemma_block_bytes_concat(rows_slots(rv.take(i as int)), rv[i as int].slots());
                assert(rv.take(i as int).push(rv[i as int]) =~= rv.take(i + 1));
                assert(out@ =~= header_bytes(h) + encode_rows::<SpellRangeRowV>(rv.take(i + 1), 1));
            }
            i = i + 1;
        }
        self.write_string_block(&mut out);
        proof {
            assert(rv.take(n as int) =~= rv);
            assert(out@ =~= encode_table::<SpellRangeRowV>(self@, FIELD_COUNT as u32));
        }
        out
    }

    /// Appends the string block: the sentinel NUL, then every non-empty
    /// string in traversal order.
    #[verifier::loop_isolation(false)]
    #[verifier::rlimit(80)]
    fn write_string_block(&self, out: &mut Vec<u8>)
        ensures
            final(out)@ == old(out)@ + table_block::<SpellRangeRowV>(self@),
    {
        let ghost rv = self@;
        out.push(0);
        let n = self.rows.len();
        let mut i: usize = 0;
        proof {
            assert(rows_slots(rv.take(0)) =~= Seq::<Seq<u8>>::empty());
            assert(block_bytes(Seq::<Seq<u8>>::empty()) =~= Seq::<u8>::empty());
            assert(out@ =~= old(out)@ + seq![0u8] + block_bytes(rows_slots(rv.take(0))));
        }
        while i < n
            invariant
                0 <= i <= n,
                n == self.rows@.len(),
                out@ == old(out)@ + seq![0u8] + block_bytes(rows_slots(rv.take(i as int))),
            decreases n - i,
        {
            self.rows[i].display_name.write_block(out);
            self.rows[i].display_name_short.write_block(out);
            proof {
                assert(rv[i as int].slots() =~= loc_slots(rv[i as int].display_name) + loc_slots(rv[i as int].display_name_short));
                lemma_block_bytes_concat(loc_slots(rv[i as int].display_name), loc_slots(rv[i as int].display_name_short));
                lemma_rows_slots_push::<SpellRangeRowV>(rv.take(i as int), rv[i as int]);
                lemma_block_bytes_concat(rows_slots(rv.take(i as int)), rv[i as int].slots());
                assert(rv.take(i as int).push(rv[i as int]) =~= rv.take(i + 1));
                assert(out@ =~= old(out)@ + seq![0u8] + block_bytes(rows_slots(rv.take(i + 1))));
            }
            i = i + 1;
        }
        proof {
            assert(rv.take(n as int) =~= rv);
        }
    }

    /// The string block size the header will carry.
    #[verifier::loop_isolation(false)]
    #[verifier::rlimit(80)]
    fn string_block_size(&self) -> (r: u32)
        requires
            table_fits::<SpellRangeRowV>(self@),
        ensures
            r == 1 + block_len(rows_slots(self@)),
    {
        let ghost rv = self@;
        let mut sum: u64 = 1;
        let n = self.rows.len();
        let mut i: usize = 0;
        proof {
            assert(rows_slots(rv.take(0)) =~= Seq::<Seq<u8>>::empty());
            assert(block_bytes(Seq::<Seq<u8>>::empty()) =~= Seq::<u8>::empty());
        }
        while i < n
            invariant
                0 <= i <= n,
                n == self.rows@.len(),
                sum == 1 + block_len(rows_slots(rv.take(i as int))),
            decreases n - i,
        {
            proof {
                lemma_rows_block_at::<SpellRangeRowV>(rv, i as int);
                assert(rv[i as int].slots() =~= loc_slots(rv[i as int].display_name) + loc_slots(rv[i as int].display_name_short));
                lemma_block_bytes_concat(loc_slots(rv[i as int].display_name), loc_slots(rv[i as int].display_name_short));
            }
            let extra0 = self.rows[i].display_name.block_size();
            let extra1 = self.rows[i].display_name_short.block_size();
            sum = sum + extra0 + extra1;
            proof {
                lemma_rows_slots_push::<SpellRangeRowV>(rv.take(i as int), rv[i as int]);
                lemma_block_bytes_concat(rows_slots(rv.take(i as int)), rv[i as int].slots());
                assert(rv.take(i as int).push(rv[i as int]) =~= rv.take(i + 1));
            }
            i = i + 1;
        }
        proof {
            assert(rv.take(n as int) =~= rv);
        }
        sum as u32
    }
}

/// Round trip: writing any well-formed table and reading the result yields
/// the same rows.
pub proof fn lemma_spell_range_round_trip(rows: Seq<SpellRangeRowV>)
    requires
        table_wf(rows),
        table_fits::<SpellRangeRowV>(rows),
    ensures
        decode_table::<SpellRangeRowV>(
            encode_table(rows, FIELD_COUNT as u32),
            ROW_SIZE as u32,
            FIELD_COUNT as u32,
        ) == Ok::<Seq<SpellRangeRowV>, DbcError>(rows),
{
    assert(rows_wf(rows));
    lemma_table_round_trip(rows, FIELD_COUNT as u32);
}

} // verus!
