//! The `DungeonEncounter` table: one encounter per row, with its map, difficulty and localized name.

use vstd::prelude::*;
use crate::DbcError;
use crate::codec::{
    RowCodec, decode_table, encode_table, decode_rows, encode_rows, rows_slots, rows_wf,
    table_block,
    table_wf, table_fits, split_exec, lemma_decode_rows_error, lemma_encode_rows_push,
    lemma_rows_slots_push, lemma_rows_block_at, lemma_table_round_trip,
};
use crate::header::{DbcHeader, header_bytes, write_header};
use crate::localized::{
    ExtendedLocalizedString, ExtendedLocalizedStringV, ext_strs, ext_slots, ext_rec_bytes, decode_ext, lemma_ext_round_trip,
};
use crate::string_block::{block_len, block_bytes, no_nul, slots_wf, lemma_block_bytes_concat};
use crate::str_list::{lemma_block_segment, lemma_strs_rec_bytes_len};
use crate::wrath_tables::map::MapKey;
use crate::wrath_tables::spell_icon::SpellIconKey;
use crate::util::{
    find_first, lemma_find_first_hit, lemma_find_first_miss, u32_le, i32_at, read_i32_le,
    push_i32_le, lemma_i32_at_of_le, lemma_u32_le_len,
};

verus! {

pub const FILENAME: &'static str = "DungeonEncounter.dbc";

pub const FIELD_COUNT: usize = 23;

pub const ROW_SIZE: usize = 92;

/// The typed primary key of `DungeonEncounter`.
#[derive(Debug, Clone, Copy, PartialEq, Eq, PartialOrd, Ord, Hash, Default, Structural)]
pub struct DungeonEncounterKey {
    pub id: i32,
}

impl DungeonEncounterKey {
    pub fn new(id: i32) -> (r: Self)
        ensures
            r.id == id,
    {
        Self { id }
    }
}

impl From<u8> for DungeonEncounterKey {
    fn from(v: u8) -> (r: Self) {
        Self::new(v as i32)
    }
}

impl vstd::std_specs::convert::FromSpecImpl<u8> for DungeonEncounterKey {
    open spec fn obeys_from_spec() -> bool {
        true
    }

    open spec fn from_spec(v: u8) -> Self {
        DungeonEncounterKey { id: v as i32 }
    }
}

impl From<u16> for DungeonEncounterKey {
    fn from(v: u16) -> (r: Self) {
        Self::new(v as i32)
    }
}

impl vstd::std_specs::convert::FromSpecImpl<u16> for DungeonEncounterKey {
    open spec fn obeys_from_spec() -> bool {
        true
    }

    open spec fn from_spec(v: u16) -> Self {
        DungeonEncounterKey { id: v as i32 }
    }
}

impl From<i8> for DungeonEncounterKey {
    fn from(v: i8) -> (r: Self) {
        Self::new(v as i32)
    }
}

impl vstd::std_specs::convert::FromSpecImpl<i8> for DungeonEncounterKey {
    open spec fn obeys_from_spec() -> bool {
        true
    }

    open spec fn from_spec(v: i8) -> Self {
        DungeonEncounterKey { id: v as i32 }
    }
}

impl From<i16> for DungeonEncounterKey {
    fn from(v: i16) -> (r: Self) {
        Self::new(v as i32)
    }
}

impl vstd::std_specs::convert::FromSpecImpl<i16> for DungeonEncounterKey {
    open spec fn obeys_from_spec() -> bool {
        true
    }

    open spec fn from_spec(v: i16) -> Self {
        DungeonEncounterKey { id: v as i32 }
    }
}

impl From<i32> for DungeonEncounterKey {
    fn from(v: i32) -> (r: Self) {
        Self::new(v)
    }
}

impl vstd::std_specs::convert::FromSpecImpl<i32> for DungeonEncounterKey {
    open spec fn obeys_from_spec() -> bool {
        true
    }

    open spec fn from_spec(v: i32) -> Self {
        DungeonEncounterKey { id: v }
    }
}

impl TryFrom<u32> for DungeonEncounterKey {
    type Error = u32;

    fn try_from(v: u32) -> (r: Result<Self, u32>) {
        if v <= i32::MAX as u32 {
            Ok(Self::new(v as i32))
        } else {
            Err(v)
        }
    }
}

impl vstd::std_specs::convert::TryFromSpecImpl<u32> for DungeonEncounterKey {
    open spec fn obeys_try_from_spec() -> bool {
        true
    }

    open spec fn try_from_spec(v: u32) -> Result<Self, u32> {
        if v <= i32::MAX as u32 {
            Ok(DungeonEncounterKey { id: v as i32 })
        } else {
            Err(v)
        }
    }
}

impl TryFrom<u64> for DungeonEncounterKey {
    type Error = u64;

    fn try_from(v: u64) -> (r: Result<Self, u64>) {
        if v <= i32::MAX as u64 {
            Ok(Self::new(v as i32))
        } else {
            Err(v)
        }
    }
}

impl vstd::std_specs::convert::TryFromSpecImpl<u64> for DungeonEncounterKey {
    open spec fn obeys_try_from_spec() -> bool {
        true
    }

    open spec fn try_from_spec(v: u64) -> Result<Self, u64> {
        if v <= i32::MAX as u64 {
            Ok(DungeonEncounterKey { id: v as i32 })
        } else {
            Err(v)
        }
    }
}

impl TryFrom<usize> for DungeonEncounterKey {
    type Error = usize;

    fn try_from(v: usize) -> (r: Result<Self, usize>) {
        if v <= i32::MAX as usize {
            Ok(Self::new(v as i32))
        } else {
            Err(v)
        }
    }
}

impl vstd::std_specs::convert::TryFromSpecImpl<usize> for DungeonEncounterKey {
    open spec fn obeys_try_from_spec() -> bool {
        true
    }

    open spec fn try_from_spec(v: usize) -> Result<Self, usize> {
        if v <= i32::MAX as usize {
            Ok(DungeonEncounterKey { id: v as i32 })
        } else {
            Err(v)
        }
    }
}

impl TryFrom<i64> for DungeonEncounterKey {
    type Error = i64;

    fn try_from(v: i64) -> (r: Result<Self, i64>) {
        if i32::MIN as i64 <= v && v <= i32::MAX as i64 {
            Ok(Self::new(v as i32))
        } else {
            Err(v)
        }
    }
}

impl vstd::std_specs::convert::TryFromSpecImpl<i64> for DungeonEncounterKey {
    open spec fn obeys_try_from_spec() -> bool {
        true
    }

    open spec fn try_from_spec(v: i64) -> Result<Self, i64> {
        if i32::MIN as i64 <= v && v <= i32::MAX as i64 {
            Ok(DungeonEncounterKey { id: v as i32 })
        } else {
            Err(v)
        }
    }
}

impl TryFrom<isize> for DungeonEncounterKey {
    type Error = isize;

    fn try_from(v: isize) -> (r: Result<Self, isize>) {
        if i32::MIN as isize <= v && v <= i32::MAX as isize {
            Ok(Self::new(v as i32))
        } else {
            Err(v)
        }
    }
}

impl vstd::std_specs::convert::TryFromSpecImpl<isize> for DungeonEncounterKey {
    open spec fn obeys_try_from_spec() -> bool {
        true
    }

    open spec fn try_from_spec(v: isize) -> Result<Self, isize> {
        if i32::MIN as isize <= v && v <= i32::MAX as isize {
            Ok(DungeonEncounterKey { id: v as i32 })
        } else {
            Err(v)
        }
    }
}

/// One row of the table.
#[derive(Debug, Clone, PartialEq, Eq, PartialOrd, Ord, Hash)]
pub struct DungeonEncounterRow {
    pub id: DungeonEncounterKey,
    pub map_id: MapKey,
    pub difficulty: i32,
    pub order_index: i32,
    pub bit: i32,
    pub name_lang: ExtendedLocalizedString,
    pub spell_icon_id: SpellIconKey,
}

/// The mathematical view of a row.
pub struct DungeonEncounterRowV {
    pub id: DungeonEncounterKey,
    pub map_id: MapKey,
    pub difficulty: i32,
    pub order_index: i32,
    pub bit: i32,
    pub name_lang: ExtendedLocalizedStringV,
    pub spell_icon_id: SpellIconKey,
}

impl View for DungeonEncounterRow {
    type V = DungeonEncounterRowV;

    open spec fn view(&self) -> DungeonEncounterRowV {
        DungeonEncounterRowV { id: self.id, map_id: self.map_id, difficulty: self.difficulty, order_index: self.order_index, bit: self.bit, name_lang: self.name_lang@, spell_icon_id: self.spell_icon_id }
    }
}

impl RowCodec for DungeonEncounterRowV {
    open spec fn row_size() -> int {
        92
    }

    open spec fn row_wf(self) -> bool {
        true
    }

    open spec fn decode_row(rec: Seq<u8>, block: Seq<u8>) -> Result<Self, DbcError> {
        match decode_ext(rec, 20, block) {
            Err(e) => Err(e),
            Ok(name_lang) => Ok(
            DungeonEncounterRowV { id: DungeonEncounterKey { id: i32_at(rec, 0) }, map_id: MapKey { id: i32_at(rec, 4) }, difficulty: i32_at(rec, 8), order_index: i32_at(rec, 12), bit: i32_at(rec, 16), name_lang, spell_icon_id: SpellIconKey { id: i32_at(rec, 88) } },
        ),
        }
    }

    open spec fn slots(self) -> Seq<Seq<u8>> {
        ext_slots(self.name_lang)
    }

    open spec fn rec_bytes(self, c: int) -> Seq<u8> {
        u32_le(self.id.id as u32) + u32_le(self.map_id.id as u32) + u32_le(self.difficulty as u32) + u32_le(self.order_index as u32) + u32_le(self.bit as u32) + ext_rec_bytes(self.name_lang, c) + u32_le(self.spell_icon_id.id as u32)
    }

    proof fn lemma_rec_bytes_len(self, c: int) {
        lemma_u32_le_len(self.id.id as u32);
        lemma_u32_le_len(self.map_id.id as u32);
        lemma_u32_le_len(self.difficulty as u32);
        lemma_u32_le_len(self.order_index as u32);
        lemma_u32_le_len(self.bit as u32);
        lemma_u32_le_len(self.name_lang.flags);
        lemma_strs_rec_bytes_len(ext_strs(self.name_lang), c);
        assert(ext_rec_bytes(self.name_lang, c).len() == 68);
        lemma_u32_le_len(self.spell_icon_id.id as u32);
    }

    proof fn lemma_row_round_trip(self, block: Seq<u8>, c: int) {
        let rec = self.rec_bytes(c);
        lemma_u32_le_len(self.id.id as u32);
        lemma_u32_le_len(self.map_id.id as u32);
        lemma_u32_le_len(self.difficulty as u32);
        lemma_u32_le_len(self.order_index as u32);
        lemma_u32_le_len(self.bit as u32);
        lemma_u32_le_len(self.name_lang.flags);
        lemma_strs_rec_bytes_len(ext_strs(self.name_lang), c);
        assert(ext_rec_bytes(self.name_lang, c).len() == 68);
        lemma_u32_le_len(self.spell_icon_id.id as u32);
        assert(rec.subrange(0, 4) =~= u32_le(self.id.id as u32));
        lemma_i32_at_of_le(rec, 0, self.id.id);
        assert(rec.subrange(4, 8) =~= u32_le(self.map_id.id as u32));
        lemma_i32_at_of_le(rec, 4, self.map_id.id);
        assert(rec.subrange(8, 12) =~= u32_le(self.difficulty as u32));
        lemma_i32_at_of_le(rec, 8, self.difficulty);
        assert(rec.subrange(12, 16) =~= u32_le(self.order_index as u32));
        lemma_i32_at_of_le(rec, 12, self.order_index);
        assert(rec.subrange(16, 20) =~= u32_le(self.bit as u32));
        lemma_i32_at_of_le(rec, 16, self.bit);
        let pre0 = Seq::<Seq<u8>>::empty();
        let mid0 = ext_slots(self.name_lang);
        let post0 = Seq::<Seq<u8>>::empty();
        assert(self.slots() =~= pre0 + mid0 + post0);
        lemma_block_segment(block, c, pre0, mid0, post0);
        assert(c + block_len(pre0) == c);
        assert(slots_wf(mid0)) by {
            assert forall|q: int| 0 <= q < 16 implies no_nul(mid0[q]) by {
                assert(mid0[q] == self.slots()[0 + q]);
            }
        }
        assert(rec.subrange(20, 88) =~= ext_rec_bytes(self.name_lang, c));
        lemma_ext_round_trip(self.name_lang, rec, 20, block, c);
        assert(rec.subrange(88, 92) =~= u32_le(self.spell_icon_id.id as u32));
        lemma_i32_at_of_le(rec, 88, self.spell_icon_id.id);
    }
}

/// The table: a sequence of rows.
#[derive(Debug, Clone, PartialEq, Eq, PartialOrd, Ord, Hash)]
pub struct DungeonEncounter {
    pub rows: Vec<DungeonEncounterRow>,
}

/// The views of a row sequence.
pub open spec fn rows_view(rows: Seq<DungeonEncounterRow>) -> Seq<DungeonEncounterRowV> {
    rows.map_values(|r: DungeonEncounterRow| r@)
}

impl View for DungeonEncounter {
    type V = Seq<DungeonEncounterRowV>;

    open spec fn view(&self) -> Seq<DungeonEncounterRowV> {
        rows_view(self.rows@)
    }
}

impl DungeonEncounter {
    /// The rows of the table.
    pub fn rows(&self) -> (r: &Vec<DungeonEncounterRow>)
        ensures
            r@ == self.rows@,
    {
        &self.rows
    }

    /// The rows of the table, borrowed for in-place mutation.
    pub fn rows_mut(&mut self) -> (r: &mut Vec<DungeonEncounterRow>)
        ensures
            *r == old(self).rows,
            final(self).rows == *final(r),
    {
        &mut self.rows
    }

    /// Where the first row with primary key `key` stands, if anywhere.
    pub open spec fn key_index(rows: Seq<DungeonEncounterRow>, key: DungeonEncounterKey) -> Option<int> {
        find_first(rows, |r: DungeonEncounterRow| r.id == key)
    }

    /// The position of the first row whose primary key equals `key`.
    #[verifier::loop_isolation(false)]
    fn key_pos(&self, key: DungeonEncounterKey) -> (r: Option<usize>)
        ensures
            match r {
                Some(i) => Self::key_index(self.rows@, key) == Some(i as int) && i
                    < self.rows@.len(),
                None => Self::key_index(self.rows@, key) is None,
            },
    {
        let ghost p = |r: DungeonEncounterRow| r.id == key;
        let n = self.rows.len();
        let mut i: usize = 0;
        while i < n
            invariant
                0 <= i <= n,
                n == self.rows@.len(),
                forall|j: int| 0 <= j < i ==> !p(self.rows@[j]),
            decreases n - i,
        {
            if self.rows[i].id.id == key.id {
                proof {
                    assert(p(self.rows@[i as int]));
                    lemma_find_first_hit(self.rows@, p, i as int);
                }
                return Some(i);
            }
            proof {
                assert(self.rows@[i as int].id != key);
            }
            i = i + 1;
        }
        proof {
            lemma_find_first_miss(self.rows@, p);
        }
        None
    }

    /// The first row whose primary key equals `key`, if any.
    pub fn get(&self, key: DungeonEncounterKey) -> (r: Option<&DungeonEncounterRow>)
        ensures
            match r {
                Some(row) => Self::key_index(self.rows@, key) matches Some(i) && *row
                    == self.rows@[i],
                None => Self::key_index(self.rows@, key) is None,
            },
    {
        match self.key_pos(key) {
            Some(i) => Some(&self.rows[i]),
            None => None,
        }
    }

    /// The first row whose primary key equals `key`, borrowed for mutation.
    pub fn get_mut(&mut self, key: DungeonEncounterKey) -> (r: Option<&mut DungeonEncounterRow>)
        ensures
            match r {
                Some(row) => Self::key_index(old(self).rows@, key) matches Some(i) && *row == old(
                    self,
                ).rows@[i] && final(self).rows@ == old(self).rows@.update(i, *final(row)),
                None => {
                    &&& *final(self) == *old(self)
                    &&& Self::key_index(old(self).rows@, key) is None
                },
            },
    {
        match self.key_pos(key) {
            Some(i) => Some(&mut self.rows[i]),
            None => None,
        }
    }

    /// Decodes a whole DBC byte stream into the table, or reports exactly
    /// why it cannot be decoded.
    #[verifier::loop_isolation(false)]
    pub fn read(b: &[u8]) -> (r: Result<DungeonEncounter, DbcError>)
        ensures
            match r {
                Ok(t) => decode_table::<DungeonEncounterRowV>(b@, ROW_SIZE as u32, FIELD_COUNT as u32)
                    == Ok::<Seq<DungeonEncounterRowV>, DbcError>(t@),
                Err(e) => decode_table::<DungeonEncounterRowV>(b@, ROW_SIZE as u32, FIELD_COUNT as u32)
                    == Err::<Seq<DungeonEncounterRowV>, DbcError>(e),
            },
    {
        let (n, bs, be) = match split_exec(b, ROW_SIZE as u32, FIELD_COUNT as u32) {
            Ok(t) => t,
            Err(e) => {
                return Err(e);
            },
        };
        let ghost region = b@.subrange(20, bs as int);
        let block = vstd::slice::slice_subrange(b, bs, be);
        let mut rows: Vec<DungeonEncounterRow> = Vec::new();
        proof {
            assert(rows_view(rows@) =~= Seq::<DungeonEncounterRowV>::empty());
        }
        let mut i: u32 = 0;
        while i < n
            invariant
                0 <= i <= n,
                rows@.len() == i,
                decode_rows::<DungeonEncounterRowV>(region, block@, i as nat) == Ok::<
                    Seq<DungeonEncounterRowV>,
                    DbcError,
                >(rows_view(rows@)),
            decreases n - i,
        {
            let off: usize = 20 + (i as usize) * ROW_SIZE;
            let rec = vstd::slice::slice_subrange(b, off, off + ROW_SIZE);
            proof {
                assert(rec@ =~= region.subrange(i as int * 92, (i as int + 1) * 92));
            }
            let mut pos: usize = 0;
            let id = DungeonEncounterKey::new(read_i32_le(rec, &mut pos));
            let map_id = MapKey::new(read_i32_le(rec, &mut pos));
            let difficulty = read_i32_le(rec, &mut pos);
            let order_index = read_i32_le(rec, &mut pos);
            let bit = read_i32_le(rec, &mut pos);
            let name_lang = match ExtendedLocalizedString::read(rec, &mut pos, block) {
                Ok(v) => v,
                Err(e) => {
                    proof {
                        lemma_decode_rows_error::<DungeonEncounterRowV>(region, block@, i as nat, n as nat, e);
                    }
                    return Err(e);
                },
            };
            let spell_icon_id = SpellIconKey::new(read_i32_le(rec, &mut pos));
            let row = DungeonEncounterRow { id, map_id, difficulty, order_index, bit, name_lang, spell_icon_id };
            let ghost pre = rows@;
            rows.push(row);
            proof {
                assert(DungeonEncounterRowV::decode_row(
                    region.subrange(i as int * 92, (i as int + 1) * 92),
                    block@,
                ) == Ok::<DungeonEncounterRowV, DbcError>(rows@[i as int]@));
                assert(rows_view(rows@) =~= rows_view(pre).push(rows@[i as int]@));
            }
            i = i + 1;
        }
        Ok(DungeonEncounter { rows })
    }

    /// Encodes the table: header, records, then the string block. The
    /// emitted bytes decode back to this very table.
    #[verifier::loop_isolation(false)]
    pub fn write(&self) -> (out: Vec<u8>)
        requires
            table_fits::<DungeonEncounterRowV>(self@),
        ensures
            out@ == encode_table::<DungeonEncounterRowV>(self@, FIELD_COUNT as u32),
    {
        let ghost rv = self@;
        let mut out: Vec<u8> = Vec::new();
        let sbs = self.string_block_size();
        let h = DbcHeader {
            record_count: self.rows.len() as u32,
            field_count: FIELD_COUNT as u32,
            record_size: ROW_SIZE as u32,
            string_block_size: sbs,
        };
        write_header(&mut out, &h);
        let mut cursor: u64 = 1;
        let n = self.rows.len();
        let mut i: usize = 0;
        proof {
            assert(rv.take(0) =~= Seq::<DungeonEncounterRowV>::empty());
            assert(rows_slots(rv.take(0)) =~= Seq::<Seq<u8>>::empty());
            assert(block_bytes(Seq::<Seq<u8>>::empty()) =~= Seq::<u8>::empty());
            assert(encode_rows::<DungeonEncounterRowV>(rv.take(0), 1) =~= Seq::<u8>::empty());
            assert(out@ =~= header_bytes(h) + encode_rows::<DungeonEncounterRowV>(rv.take(0), 1));
        }
        while i < n
            invariant
                0 <= i <= n,
                n == self.rows@.len(),
                out@ == header_bytes(h) + encode_rows::<DungeonEncounterRowV>(rv.take(i as int), 1),
                cursor == 1 + block_len(rows_slots(rv.take(i as int))),
            decreases n - i,
        {
            let row = &self.rows[i];
            proof {
                lemma_rows_block_at::<DungeonEncounterRowV>(rv, i as int);
            }
            push_i32_le(&mut out, row.id.id);
            push_i32_le(&mut out, row.map_id.id);
            push_i32_le(&mut out, row.difficulty);
            push_i32_le(&mut out, row.order_index);
            push_i32_le(&mut out, row.bit);
            row.name_lang.write(&mut out, &mut cursor);
            push_i32_le(&mut out, row.spell_icon_id.id);
            proof {
                lemma_encode_rows_push::<DungeonEncounterRowV>(rv.take(i as int), rv[i as int], 1);
                lemma_rows_slots_push::<DungeonEncounterRowV>(rv.take(i as int), rv[i as int]);
                lemma_block_bytes_concat(rows_slots(rv.take(i as int)), rv[i as int].slots());
                assert(rv.take(i as int).push(rv[i as int]) =~= rv.take(i + 1));
                assert(out@ =~= header_bytes(h) + encode_rows::<DungeonEncounterRowV>(rv.take(i + 1), 1));
            }
            i = i + 1;
        }
        self.write_string_block(&mut out);
        proof {
            assert(rv.take(n as int) =~= rv);
            assert(out@ =~= encode_table::<DungeonEncounterRowV>(self@, FIELD_COUNT as u32));
        }
        out
    }

    /// Appends the string block: the sentinel NUL, then every non-empty
    /// string in traversal order.
    #[verifier::loop_isolation(false)]
    fn write_string_block(&self, out: &mut Vec<u8>)
        ensures
            final(out)@ == old(out)@ + table_block::<DungeonEncounterRowV>(self@),
    {
        let ghost rv = self@;
        out.push(0);
        let n = self.rows.len();
        let mut i: usize = 0;
        proof {
            assert(rows_slots(rv.take(0)) =~= Seq::<Seq<u8>>::empty());
            assert(block_bytes(Seq::<Seq<u8>>::empty()) =~= Seq::<u8>::empty());
            assert(out@ =~= old(out)@ + seq![0u8] + block_bytes(rows_slots(rv.take(0))));
        }
        while i < n
            invariant
                0 <= i <= n,
                n == self.rows@.len(),
                out@ == old(out)@ + seq![0u8] + block_bytes(rows_slots(rv.take(i as int))),
            decreases n - i,
        {
            self.rows[i].name_lang.write_block(out);
            proof {
                
                lemma_rows_slots_push::<DungeonEncounterRowV>(rv.take(i as int), rv[i as int]);
                lemma_block_bytes_concat(rows_slots(rv.take(i as int)), rv[i as int].slots());
                assert(rv.take(i as int).push(rv[i as int]) =~= rv.take(i + 1));
                assert(out@ =~= old(out)@ + seq![0u8] + block_bytes(rows_slots(rv.take(i + 1))));
            }
            i = i + 1;
        }
        proof {
            assert(rv.take(n as int) =~= rv);
        }
    }

    /// The string block size the header will carry.
    #[verifier::loop_isolation(false)]
    fn string_block_size(&self) -> (r: u32)
        requires
            table_fits::<DungeonEncounterRowV>(self@),
        ensures
            r == 1 + block_len(rows_slots(self@)),
    {
        let ghost rv = self@;
        let mut sum: u64 = 1;
        let n = self.rows.len();
        let mut i: usize = 0;
        proof {
            assert(rows_slots(rv.take(0)) =~= Seq::<Seq<u8>>::empty());
            assert(block_bytes(Seq::<Seq<u8>>::empty()) =~= Seq::<u8>::empty());
        }
        while i < n
            invariant
                0 <= i <= n,
                n == self.rows@.len(),
                sum == 1 + block_len(rows_slots(rv.take(i as int))),
            decreases n - i,
        {
            proof {
                lemma_rows_block_at::<DungeonEncounterRowV>(rv, i as int);
            }
            let extra0 = self.rows[i].name_lang.block_size();
            sum = sum + extra0;
            proof {
                lemma_rows_slots_push::<DungeonEncounterRowV>(rv.take(i as int), rv[i as int]);
                lemma_block_bytes_concat(rows_slots(rv.take(i as int)), rv[i as int].slots());
                assert(rv.take(i as int).push(rv[i as int]) =~= rv.take(i + 1));
            }
            i = i + 1;
        }
        proof {
            assert(rv.take(n as int) =~= rv);
        }
        sum as u32
    }
}

/// Round trip: writing any well-formed table and reading the result yields
/// the same rows.
pub proof fn lemma_dungeon_encounter_round_trip(rows: Seq<DungeonEncounterRowV>)
    requires
        table_wf(rows),
        table_fits::<DungeonEncounterRowV>(rows),
    ensures
        decode_table::<DungeonEncounterRowV>(
            encode_table(rows, FIELD_COUNT as u32),
            ROW_SIZE as u32,
            FIELD_COUNT as u32,
        ) == Ok::<Seq<DungeonEncounterRowV>, DbcError>(rows),
{
    assert(rows_wf(rows));
    lemma_table_round_trip(rows, FIELD_COUNT as u32);
}

} // verus!
