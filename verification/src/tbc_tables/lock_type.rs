//! The `LockType` table: lock categories with localized names, resource names and verbs.

use vstd::prelude::*;
use crate::DbcError;
use crate::codec::{
    RowCodec, decode_table, encode_table, decode_rows, encode_rows, rows_slots, rows_wf,
    table_block,
    table_wf, table_fits, split_exec, lemma_decode_rows_error, lemma_encode_rows_push,
    lemma_rows_slots_push, lemma_rows_block_at, lemma_table_round_trip,
};
use crate::header::{DbcHeader, header_bytes, write_header};
use crate::localized::{
    ExtendedLocalizedString, ExtendedLocalizedStringV, ext_strs, ext_slots, ext_rec_bytes, decode_ext, lemma_ext_round_trip,
};
use crate::string_block::{
    str_bytes, slot_off, slot_enc, block_len, block_bytes, no_nul, slots_wf, decode_str,
    read_string_ref, write_string_ref, push_block_slot, slot_size, lemma_block_bytes_single,
    lemma_block_bytes_concat,
};
use crate::str_list::{lemma_decode_written_slot, lemma_block_segment, lemma_strs_rec_bytes_len};
use crate::util::{
    find_first, lemma_find_first_hit, lemma_find_first_miss, u32_le, u32_at, i32_at,
    read_i32_le, push_i32_le, lemma_i32_at_of_le, lemma_u32_at_of_le, lemma_u32_le_len,
};

verus! {

pub const FILENAME: &'static str = "LockType.dbc";

pub const FIELD_COUNT: usize = 53;

pub const ROW_SIZE: usize = 212;

/// The typed primary key of `LockType`.
#[derive(Debug, Clone, Copy, PartialEq, Eq, PartialOrd, Ord, Hash, Default, Structural)]
pub struct LockTypeKey {
    pub id: i32,
}

impl LockTypeKey {
    pub fn new(id: i32) -> (r: Self)
        ensures
            r.id == id,
    {
        Self { id }
    }
}

impl From<u8> for LockTypeKey {
    fn from(v: u8) -> (r: Self) {
        Self::new(v as i32)
    }
}

impl vstd::std_specs::convert::FromSpecImpl<u8> for LockTypeKey {
    open spec fn obeys_from_spec() -> bool {
        true
    }

    open spec fn from_spec(v: u8) -> Self {
        LockTypeKey { id: v as i32 }
    }
}

impl From<u16> for LockTypeKey {
    fn from(v: u16) -> (r: Self) {
        Self::new(v as i32)
    }
}

impl vstd::std_specs::convert::FromSpecImpl<u16> for LockTypeKey {
    open spec fn obeys_from_spec() -> bool {
        true
    }

    open spec fn from_spec(v: u16) -> Self {
        LockTypeKey { id: v as i32 }
    }
}

impl From<i8> for LockTypeKey {
    fn from(v: i8) -> (r: Self) {
        Self::new(v as i32)
    }
}

impl vstd::std_specs::convert::FromSpecImpl<i8> for LockTypeKey {
    open spec fn obeys_from_spec() -> bool {
        true
    }

    open spec fn from_spec(v: i8) -> Self {
        LockTypeKey { id: v as i32 }
    }
}

impl From<i16> for LockTypeKey {
    fn from(v: i16) -> (r: Self) {
        Self::new(v as i32)
    }
}

impl vstd::std_specs::convert::FromSpecImpl<i16> for LockTypeKey {
    open spec fn obeys_from_spec() -> bool {
        true
    }

    open spec fn from_spec(v: i16) -> Self {
        LockTypeKey { id: v as i32 }
    }
}

impl From<i32> for LockTypeKey {
    fn from(v: i32) -> (r: Self) {
        Self::new(v)
    }
}

impl vstd::std_specs::convert::FromSpecImpl<i32> for LockTypeKey {
    open spec fn obeys_from_spec() -> bool {
        true
    }

    open spec fn from_spec(v: i32) -> Self {
        LockTypeKey { id: v }
    }
}

impl TryFrom<u32> for LockTypeKey {
    type Error = u32;

    fn try_from(v: u32) -> (r: Result<Self, u32>) {
        if v <= i32::MAX as u32 {
            Ok(Self::new(v as i32))
        } else {
            Err(v)
        }
    }
}

impl vstd::std_specs::convert::TryFromSpecImpl<u32> for LockTypeKey {
    open spec fn obeys_try_from_spec() -> bool {
        true
    }

    open spec fn try_from_spec(v: u32) -> Result<Self, u32> {
        if v <= i32::MAX as u32 {
            Ok(LockTypeKey { id: v as i32 })
        } else {
            Err(v)
        }
    }
}

impl TryFrom<u64> for LockTypeKey {
    type Error = u64;

    fn try_from(v: u64) -> (r: Result<Self, u64>) {
        if v <= i32::MAX as u64 {
            Ok(Self::new(v as i32))
        } else {
            Err(v)
        }
    }
}

impl vstd::std_specs::convert::TryFromSpecImpl<u64> for LockTypeKey {
    open spec fn obeys_try_from_spec() -> bool {
        true
    }

    open spec fn try_from_spec(v: u64) -> Result<Self, u64> {
        if v <= i32::MAX as u64 {
            Ok(LockTypeKey { id: v as i32 })
        } else {
            Err(v)
        }
    }
}

impl TryFrom<usize> for LockTypeKey {
    type Error = usize;

    fn try_from(v: usize) -> (r: Result<Self, usize>) {
        if v <= i32::MAX as usize {
            Ok(Self::new(v as i32))
        } else {
            Err(v)
        }
    }
}

impl vstd::std_specs::convert::TryFromSpecImpl<usize> for LockTypeKey {
    open spec fn obeys_try_from_spec() -> bool {
        true
    }

    open spec fn try_from_spec(v: usize) -> Result<Self, usize> {
        if v <= i32::MAX as usize {
            Ok(LockTypeKey { id: v as i32 })
        } else {
            Err(v)
        }
    }
}

impl TryFrom<i64> for LockTypeKey {
    type Error = i64;

    fn try_from(v: i64) -> (r: Result<Self, i64>) {
        if i32::MIN as i64 <= v && v <= i32::MAX as i64 {
            Ok(Self::new(v as i32))
        } else {
            Err(v)
        }
    }
}

impl vstd::std_specs::convert::TryFromSpecImpl<i64> for LockTypeKey {
    open spec fn obeys_try_from_spec() -> bool {
        true
    }

    open spec fn try_from_spec(v: i64) -> Result<Self, i64> {
        if i32::MIN as i64 <= v && v <= i32::MAX as i64 {
            Ok(LockTypeKey { id: v as i32 })
        } else {
            Err(v)
        }
    }
}

impl TryFrom<isize> for LockTypeKey {
    type Error = isize;

    fn try_from(v: isize) -> (r: Result<Self, isize>) {
        if i32::MIN as isize <= v && v <= i32::MAX as isize {
            Ok(Self::new(v as i32))
        } else {
            Err(v)
        }
    }
}

impl vstd::std_specs::convert::TryFromSpecImpl<isize> for LockTypeKey {
    open spec fn obeys_try_from_spec() -> bool {
        true
    }

    open spec fn try_from_spec(v: isize) -> Result<Self, isize> {
        if i32::MIN as isize <= v && v <= i32::MAX as isize {
            Ok(LockTypeKey { id: v as i32 })
        } else {
            Err(v)
        }
    }
}

/// One row of the table.
#[derive(Debug, Clone, PartialEq, Eq, PartialOrd, Ord, Hash)]
pub struct LockTypeRow {
    pub id: LockTypeKey,
    pub name_lang: ExtendedLocalizedString,
    pub resource_name_lang: ExtendedLocalizedString,
    pub verb_lang: ExtendedLocalizedString,
    pub cursor_name: String,
}

/// The mathematical view of a row.
pub struct LockTypeRowV {
    pub id: LockTypeKey,
    pub name_lang: ExtendedLocalizedStringV,
    pub resource_name_lang: ExtendedLocalizedStringV,
    pub verb_lang: ExtendedLocalizedStringV,
    pub cursor_name: Seq<char>,
}

impl View for LockTypeRow {
    type V = LockTypeRowV;

    open spec fn view(&self) -> LockTypeRowV {
        LockTypeRowV { id: self.id, name_lang: self.name_lang@, resource_name_lang: self.resource_name_lang@, verb_lang: self.verb_lang@, cursor_name: self.cursor_name@ }
    }
}

impl RowCodec for LockTypeRowV {
    open spec fn row_size() -> int {
        212
    }

    open spec fn row_wf(self) -> bool {
        true
    }

    open spec fn decode_row(rec: Seq<u8>, block: Seq<u8>) -> Result<Self, DbcError> {
        match decode_ext(rec, 4, block) {
            Err(e) => Err(e),
            Ok(name_lang) => match decode_ext(rec, 72, block) {
            Err(e) => Err(e),
            Ok(resource_name_lang) => match decode_ext(rec, 140, block) {
            Err(e) => Err(e),
            Ok(verb_lang) => match decode_str(block, u32_at(rec, 208)) {
            Err(e) => Err(e),
            Ok(cursor_name) => Ok(
            LockTypeRowV { id: LockTypeKey { id: i32_at(rec, 0) }, name_lang, resource_name_lang, verb_lang, cursor_name },
        ),
        },
        },
        },
        }
    }

    open spec fn slots(self) -> Seq<Seq<u8>> {
        ext_slots(self.name_lang) + ext_slots(self.resource_name_lang) + ext_slots(self.verb_lang) + seq![str_bytes(self.cursor_name)]
    }

    open spec fn rec_bytes(self, c: int) -> Seq<u8> {
        u32_le(self.id.id as u32) + ext_rec_bytes(self.name_lang, c) + ext_rec_bytes(self.resource_name_lang, c + block_len(ext_slots(self.name_lang))) + ext_rec_bytes(self.verb_lang, c + block_len(ext_slots(self.name_lang)) + block_len(ext_slots(self.resource_name_lang))) + u32_le(slot_off(str_bytes(self.cursor_name), c + block_len(ext_slots(self.name_lang)) + block_len(ext_slots(self.resource_name_lang)) + block_len(ext_slots(self.verb_lang))))
    }

    proof fn lemma_rec_bytes_len(self, c: int) {
        lemma_u32_le_len(self.id.id as u32);
        lemma_u32_le_len(self.name_lang.flags);
        lemma_strs_rec_bytes_len(ext_strs(self.name_lang), c);
        assert(ext_rec_bytes(self.name_lang, c).len() == 68);
        lemma_u32_le_len(self.resource_name_lang.flags);
        lemma_strs_rec_bytes_len(ext_strs(self.resource_name_lang), c + block_len(ext_slots(self.name_lang)));
        assert(ext_rec_bytes(self.resource_name_lang, c + block_len(ext_slots(self.name_lang))).len() == 68);
        lemma_u32_le_len(self.verb_lang.flags);
        lemma_strs_rec_bytes_len(ext_strs(self.verb_lang), c + block_len(ext_slots(self.name_lang)) + block_len(ext_slots(self.resource_name_lang)));
        assert(ext_rec_bytes(self.verb_lang, c + block_len(ext_slots(self.name_lang)) + block_len(ext_slots(self.resource_name_lang))).len() == 68);
        lemma_u32_le_len(slot_off(str_bytes(self.cursor_name), c + block_len(ext_slots(self.name_lang)) + block_len(ext_slots(self.resource_name_lang)) + block_len(ext_slots(self.verb_lang))));
    }

    proof fn lemma_row_round_trip(self, block: Seq<u8>, c: int) {
        let rec = self.rec_bytes(c);
        lemma_u32_le_len(self.id.id as u32);
        lemma_u32_le_len(self.name_lang.flags);
        lemma_strs_rec_bytes_len(ext_strs(self.name_lang), c);
        assert(ext_rec_bytes(self.name_lang, c).len() == 68);
        lemma_u32_le_len(self.resource_name_lang.flags);
        lemma_strs_rec_bytes_len(ext_strs(self.resource_name_lang), c + block_len(ext_slots(self.name_lang)));
        assert(ext_rec_bytes(self.resource_name_lang, c + block_len(ext_slots(self.name_lang))).len() == 68);
        lemma_u32_le_len(self.verb_lang.flags);
        lemma_strs_rec_bytes_len(ext_strs(self.verb_lang), c + block_len(ext_slots(self.name_lang)) + block_len(ext_slots(self.resource_name_lang)));
        assert(ext_rec_bytes(self.verb_lang, c + block_len(ext_slots(self.name_lang)) + block_len(ext_slots(self.resource_name_lang))).len() == 68);
        lemma_u32_le_len(slot_off(str_bytes(self.cursor_name), c + block_len(ext_slots(self.name_lang)) + block_len(ext_slots(self.resource_name_lang)) + block_len(ext_slots(self.verb_lang))));
        assert(self.slots() =~= ext_slots(self.name_lang) + ext_slots(self.resource_name_lang) + ext_slots(self.verb_lang) + seq![str_bytes(self.cursor_name)]);
        assert(rec.subrange(0, 4) =~= u32_le(self.id.id as u32));
        lemma_i32_at_of_le(rec, 0, self.id.id);
        let pre0 = Seq::<Seq<u8>>::empty();
        let mid0 = ext_slots(self.name_lang);
        let post0 = ext_slots(self.resource_name_lang) + ext_slots(self.verb_lang) + seq![str_bytes(self.cursor_name)];
        assert(self.slots() =~= pre0 + mid0 + post0);
        lemma_block_segment(block, c, pre0, mid0, post0);
        assert(c + block_len(pre0) == c);
        assert(slots_wf(mid0)) by {
            assert forall|q: int| 0 <= q < 16 implies no_nul(mid0[q]) by {
                assert(mid0[q] == self.slots()[0 + q]);
            }
        }
        assert(rec.subrange(4, 72) =~= ext_rec_bytes(self.name_lang, c));
        lemma_ext_round_trip(self.name_lang, rec, 4, block, c);
        let pre1 = ext_slots(self.name_lang);
        let mid1 = ext_slots(self.resource_name_lang);
        let post1 = ext_slots(self.verb_lang) + seq![str_bytes(self.cursor_name)];
        assert(self.slots() =~= pre1 + mid1 + post1);
        lemma_block_segment(block, c, pre1, mid1, post1);
        assert(c + block_len(pre1) == c + block_len(ext_slots(self.name_lang)));
        assert(slots_wf(mid1)) by {
            assert forall|q: int| 0 <= q < 16 implies no_nul(mid1[q]) by {
                assert(mid1[q] == self.slots()[16 + q]);
            }
        }
        assert(rec.subrange(72, 140) =~= ext_rec_bytes(self.resource_name_lang, c + block_len(ext_slots(self.name_lang))));
        lemma_ext_round_trip(self.resource_name_lang, rec, 72, block, c + block_len(ext_slots(self.name_lang)));
        let pre2 = ext_slots(self.name_lang) + ext_slots(self.resource_name_lang);
        let mid2 = ext_slots(self.verb_lang);
        let post2 = seq![str_bytes(self.cursor_name)];
        assert(self.slots() =~= pre2 + mid2 + post2);
        lemma_block_segment(block, c, pre2, mid2, post2);
        lemma_block_bytes_concat(ext_slots(self.name_lang), ext_slots(self.resource_name_lang));
        assert(c + block_len(pre2) == c + block_len(ext_slots(self.name_lang)) + block_len(ext_slots(self.resource_name_lang)));
        assert(slots_wf(mid2)) by {
            assert forall|q: int| 0 <= q < 16 implies no_nul(mid2[q]) by {
                assert(mid2[q] == self.slots()[32 + q]);
            }
        }
        assert(rec.subrange(140, 208) =~= ext_rec_bytes(self.verb_lang, c + block_len(ext_slots(self.name_lang)) + block_len(ext_slots(self.resource_name_lang))));
        lemma_ext_round_trip(self.verb_lang, rec, 140, block, c + block_len(ext_slots(self.name_lang)) + block_len(ext_slots(self.resource_name_lang)));
        let pre3 = ext_slots(self.name_lang) + ext_slots(self.resource_name_lang) + ext_slots(self.verb_lang);
        let mid3 = seq![str_bytes(self.cursor_name)];
        let post3 = Seq::<Seq<u8>>::empty();
        assert(self.slots() =~= pre3 + mid3 + post3);
        lemma_block_segment(block, c, pre3, mid3, post3);
        lemma_block_bytes_concat(ext_slots(self.name_lang), ext_slots(self.resource_name_lang));
        lemma_block_bytes_concat((ext_slots(self.name_lang) + ext_slots(self.resource_name_lang)), ext_slots(self.verb_lang));
        lemma_block_bytes_single(str_bytes(self.cursor_name));
        assert(c + block_len(pre3) == c + block_len(ext_slots(self.name_lang)) + block_len(ext_slots(self.resource_name_lang)) + block_len(ext_slots(self.verb_lang)));
        assert(slots_wf(mid3)) by {
            assert forall|q: int| 0 <= q < 1 implies no_nul(mid3[q]) by {
                assert(mid3[q] == self.slots()[48 + q]);
            }
        }
        assert(rec.subrange(208, 212) =~= u32_le(slot_off(str_bytes(self.cursor_name), c + block_len(ext_slots(self.name_lang)) + block_len(ext_slots(self.resource_name_lang)) + block_len(ext_slots(self.verb_lang)))));
        lemma_u32_at_of_le(rec, 208, slot_off(str_bytes(self.cursor_name), c + block_len(ext_slots(self.name_lang)) + block_len(ext_slots(self.resource_name_lang)) + block_len(ext_slots(self.verb_lang))));
        assert(block.subrange(c + block_len(ext_slots(self.name_lang)) + block_len(ext_slots(self.resource_name_lang)) + block_len(ext_slots(self.verb_lang)), c + block_len(ext_slots(self.name_lang)) + block_len(ext_slots(self.resource_name_lang)) + block_len(ext_slots(self.verb_lang)) + slot_enc(str_bytes(self.cursor_name)).len()) =~= slot_enc(str_bytes(self.cursor_name)));
        assert(no_nul(str_bytes(self.cursor_name)));
        lemma_decode_written_slot(block, c + block_len(ext_slots(self.name_lang)) + block_len(ext_slots(self.resource_name_lang)) + block_len(ext_slots(self.verb_lang)), self.cursor_name);
    }
}

/// The table: a sequence of rows.
#[derive(Debug, Clone, PartialEq, Eq, PartialOrd, Ord, Hash)]
pub struct LockType {
    pub rows: Vec<LockTypeRow>,
}

/// The views of a row sequence.
pub open spec fn rows_view(rows: Seq<LockTypeRow>) -> Seq<LockTypeRowV> {
    rows.map_values(|r: LockTypeRow| r@)
}

impl View for LockType {
    type V = Seq<LockTypeRowV>;

    open spec fn view(&self) -> Seq<LockTypeRowV> {
        rows_view(self.rows@)
    }
}

impl LockType {
    /// The rows of the table.
    pub fn rows(&self) -> (r: &Vec<LockTypeRow>)
        ensures
            r@ == self.rows@,
    {
        &self.rows
    }

    /// The rows of the table, borrowed for in-place mutation.
    pub fn rows_mut(&mut self) -> (r: &mut Vec<LockTypeRow>)
        ensures
            *r == old(self).rows,
            final(self).rows == *final(r),
    {
        &mut self.rows
    }

    /// Where the first row with primary key `key` stands, if anywhere.
    pub open spec fn key_index(rows: Seq<LockTypeRow>, key: LockTypeKey) -> Option<int> {
        find_first(rows, |r: LockTypeRow| r.id == key)
    }

    /// The position of the first row whose primary key equals `key`.
    #[verifier::loop_isolation(false)]
    fn key_pos(&self, key: LockTypeKey) -> (r: Option<usize>)
        ensures
            match r {
                Some(i) => Self::key_index(self.rows@, key) == Some(i as int) && i
                    < self.rows@.len(),
                None => Self::key_index(self.rows@, key) is None,
            },
    {
        let ghost p = |r: LockTypeRow| r.id == key;
        let n = self.rows.len();
        let mut i: usize = 0;
        while i < n
            invariant
                0 <= i <= n,
                n == self.rows@.len(),
                forall|j: int| 0 <= j < i ==> !p(self.rows@[j]),
            decreases n - i,
        {
            if self.rows[i].id.id == key.id {
                proof {
                    assert(p(self.rows@[i as int]));
                    lemma_find_first_hit(self.rows@, p, i as int);
                }
                return Some(i);
            }
            proof {
                assert(self.rows@[i as int].id != key);
            }
            i = i + 1;
        }
        proof {
            lemma_find_first_miss(self.rows@, p);
        }
        None
    }

    /// The first row whose primary key equals `key`, if any.
    pub fn get(&self, key: LockTypeKey) -> (r: Option<&LockTypeRow>)
        ensures
            match r {
                Some(row) => Self::key_index(self.rows@, key) matches Some(i) && *row
                    == self.rows@[i],
                None => Self::key_index(self.rows@, key) is None,
            },
    {
        match self.key_pos(key) {
            Some(i) => Some(&self.rows[i]),
            None => None,
        }
    }

    /// The first row whose primary key equals `key`, borrowed for mutation.
    pub fn get_mut(&mut self, key: LockTypeKey) -> (r: Option<&mut LockTypeRow>)
        ensures
            match r {
                Some(row) => Self::key_index(old(self).rows@, key) matches Some(i) && *row == old(
                    self,
                ).rows@[i] && final(self).rows@ == old(self).rows@.update(i, *final(row)),
                None => {
                    &&& *final(self) == *old(self)
                    &&& Self::key_index(old(self).rows@, key) is None
                },
            },
    {
        match self.key_pos(key) {
            Some(i) => Some(&mut self.rows[i]),
            None => None,
        }
    }

    /// Decodes a whole DBC byte stream into the table, or reports exactly
    /// why it cannot be decoded.
    #[verifier::loop_isolation(false)]
    pub fn read(b: &[u8]) -> (r: Result<LockType, DbcError>)
        ensures
            match r {
                Ok(t) => decode_table::<LockTypeRowV>(b@, ROW_SIZE as u32, FIELD_COUNT as u32)
                    == Ok::<Seq<LockTypeRowV>, DbcError>(t@),
                Err(e) => decode_table::<LockTypeRowV>(b@, ROW_SIZE as u32, FIELD_COUNT as u32)
                    == Err::<Seq<LockTypeRowV>, DbcError>(e),
            },
    {
        let (n, bs, be) = match split_exec(b, ROW_SIZE as u32, FIELD_COUNT as u32) {
            Ok(t) => t,
            Err(e) => {
                return Err(e);
            },
        };
        let ghost region = b@.subrange(20, bs as int);
        let block = vstd::slice::slice_subrange(b, bs, be);
        let mut rows: Vec<LockTypeRow> = Vec::new();
        proof {
            assert(rows_view(rows@) =~= Seq::<LockTypeRowV>::empty());
        }
        let mut i: u32 = 0;
        while i < n
            invariant
                0 <= i <= n,
                rows@.len() == i,
                decode_rows::<LockTypeRowV>(region, block@, i as nat) == Ok::<
                    Seq<LockTypeRowV>,
                    DbcError,
                >(rows_view(rows@)),
            decreases n - i,
        {
            let off: usize = 20 + (i as usize) * ROW_SIZE;
            let rec = vstd::slice::slice_subrange(b, off, off + ROW_SIZE);
            proof {
                assert(rec@ =~= region.subrange(i as int * 212, (i as int + 1) * 212));
            }
            let mut pos: usize = 0;
            let id = LockTypeKey::new(read_i32_le(rec, &mut pos));
            let name_lang = match ExtendedLocalizedString::read(rec, &mut pos, block) {
                Ok(v) => v,
                Err(e) => {
                    proof {
                        lemma_decode_rows_error::<LockTypeRowV>(region, block@, i as nat, n as nat, e);
                    }
                    return Err(e);
                },
            };
            let resource_name_lang = match ExtendedLocalizedString::read(rec, &mut pos, block) {
                Ok(v) => v,
                Err(e) => {
                    proof {
                        lemma_decode_rows_error::<LockTypeRowV>(region, block@, i as nat, n as nat, e);
                    }
                    return Err(e);
                },
            };
            let verb_lang = match ExtendedLocalizedString::read(rec, &mut pos, block) {
                Ok(v) => v,
                Err(e) => {
                    proof {
                        lemma_decode_rows_error::<LockTypeRowV>(region, block@, i as nat, n as nat, e);
                    }
                    return Err(e);
                },
            };
            let cursor_name = match read_string_ref(rec, &mut pos, block) {
                Ok(v) => v,
                Err(e) => {
                    proof {
                        lemma_decode_rows_error::<LockTypeRowV>(region, block@, i as nat, n as nat, e);
                    }
                    return Err(e);
                },
            };
            let row = LockTypeRow { id, name_lang, resource_name_lang, verb_lang, cursor_name };
            let ghost pre = rows@;
            rows.push(row);
            proof {
                assert(LockTypeRowV::decode_row(
                    region.subrange(i as int * 212, (i as int + 1) * 212),
                    block@,
                ) == Ok::<LockTypeRowV, DbcError>(rows@[i as int]@));
                assert(rows_view(rows@) =~= rows_view(pre).push(rows@[i as int]@));
            }
            i = i + 1;
        }
        Ok(LockType { rows })
    }

    /// Encodes the table: header, records, then the string block. The
    /// emitted bytes decode back to this very table.
    #[verifier::loop_isolation(false)]
    #[verifier::rlimit(80)]
    pub fn write(&self) -> (out: Vec<u8>)
        requires
            table_fits::<LockTypeRowV>(self@),
        ensures
            out@ == encode_table::<LockTypeRowV>(self@, FIELD_COUNT as u32),
    {
        let ghost rv = self@;
        let mut out: Vec<u8> = Vec::new();
        let sbs = self.string_block_size();
        let h = DbcHeader {
            record_count: self.rows.len() as u32,
            field_count: FIELD_COUNT as u32,
            record_size: ROW_SIZE as u32,
            string_block_size: sbs,
        };
        write_header(&mut out, &h);
        let mut cursor: u64 = 1;
        let n = self.rows.len();
        let mut i: usize = 0;
        proof {
            assert(rv.take(0) =~= Seq::<LockTypeRowV>::empty());
            assert(rows_slots(rv.take(0)) =~= Seq::<Seq<u8>>::empty());
            assert(block_bytes(Seq::<Seq<u8>>::empty()) =~= Seq::<u8>::empty());
            assert(encode_rows::<LockTypeRowV>(rv.take(0), 1) =~= Seq::<u8>::empty());
            assert(out@ =~= header_bytes(h) + encode_rows::<LockTypeRowV>(rv.take(0), 1));
        }
        while i < n
            invariant
                0 <= i <= n,
                n == self.rows@.len(),
                out@ == header_bytes(h) + encode_rows::<LockTypeRowV>(rv.take(i as int), 1),
                cursor == 1 + block_len(rows_slots(rv.take(i as int))),
            decreases n - i,
        {
            let row = &self.rows[i];
            proof {
                lemma_rows_block_at::<LockTypeRowV>(rv, i as int);
                assert(rv[i as int].slots() =~= ext_slots(rv[i as int].name_lang) + ext_slots(rv[i as int].resource_name_lang) + ext_slots(rv[i as int].verb_lang) + seq![str_bytes(rv[i as int].cursor_name)]);
                lemma_block_bytes_concat(ext_slots(rv[i as int].name_lang), ext_slots(rv[i as int].resource_name_lang));
                lemma_block_bytes_concat((ext_slots(rv[i as int].name_lang) + ext_slots(rv[i as int].resource_name_lang)), ext_slots(rv[i as int].verb_lang));
                lemma_block_bytes_concat(((ext_slots(rv[i as int].name_lang) + ext_slots(rv[i as int].resource_name_lang)) + ext_slots(rv[i as int].verb_lang)), seq![str_bytes(rv[i as int].cursor_name)]);
                lemma_block_bytes_single(str_bytes(rv[i as int].cursor_name));
            }
            push_i32_le(&mut out, row.id.id);
            row.name_lang.write(&mut out, &mut cursor);
            row.resource_name_lang.write(&mut out, &mut cursor);
            row.verb_lang.write(&mut out, &mut cursor);
            write_string_ref(&mut out, &row.cursor_name, &mut cursor);
            proof {
                lemma_encode_rows_push::<LockTypeRowV>(rv.take(i as int), rv[i as int], 1);
                lemma_rows_slots_push::<LockTypeRowV>(rv.take(i as int), rv[i as int]);
                lemma_block_bytes_concat(rows_slots(rv.take(i as int)), rv[i as int].slots());
                assert(rv.take(i as int).push(rv[i as int]) =~= rv.take(i + 1));
                assert(out@ =~= header_bytes(h) + encode_rows::<LockTypeRowV>(rv.take(i + 1), 1));
            }
            i = i + 1;
        }
        self.write_string_block(&mut out);
        proof {
            assert(rv.take(n as int) =~= rv);
            assert(out@ =~= encode_table::<LockTypeRowV>(self@, FIELD_COUNT as u32));
        }
        out
    }

    /// Appends the string block: the sentinel NUL, then every non-empty
    /// string in traversal order.
    #[verifier::loop_isolation(false)]
    #[verifier::rlimit(80)]
    fn write_string_block(&self, out: &mut Vec<u8>)
        ensures
            final(out)@ == old(out)@ + table_block::<LockTypeRowV>(self@),
    {
        let ghost rv = self@;
        out.push(0);
        let n = self.rows.len();
        let mut i: usize = 0;
        proof {
            assert(rows_slots(rv.take(0)) =~= Seq::<Seq<u8>>::empty());
            assert(block_bytes(Seq::<Seq<u8>>::empty()) =~= Seq::<u8>::empty());
            assert(out@ =~= old(out)@ + seq![0u8] + block_bytes(rows_slots(rv.take(0))));
        }
        while i < n
            invariant
                0 <= i <= n,
                n == self.rows@.len(),
                out@ == old(out)@ + seq![0u8] + block_bytes(rows_slots(rv.take(i as int))),
            decreases n - i,
        {
            self.rows[i].name_lang.write_block(out);
            self.rows[i].resource_name_lang.write_block(out);
            self.rows[i].verb_lang.write_block(out);
            push_block_slot(out, &self.rows[i].cursor_name);
            proof {
                assert(rv[i as int].slots() =~= ext_slots(rv[i as int].name_lang) + ext_slots(rv[i as int].resource_name_lang) + ext_slots(rv[i as int].verb_lang) + seq![str_bytes(rv[i as int].cursor_name)]);
                lemma_block_bytes_concat(ext_slots(rv[i as int].name_lang), ext_slots(rv[i as int].resource_name_lang));
                lemma_block_bytes_concat((ext_slots(rv[i as int].name_lang) + ext_slots(rv[i as int].resource_name_lang)), ext_slots(rv[i as int].verb_lang));
                lemma_block_bytes_concat(((ext_slots(rv[i as int].name_lang) + ext_slots(rv[i as int].resource_name_lang)) + ext_slots(rv[i as int].verb_lang)), seq![str_bytes(rv[i as int].cursor_name)]);
                lemma_block_bytes_single(str_bytes(rv[i as int].cursor_name));
                lemma_rows_slots_push::<LockTypeRowV>(rv.take(i as int), rv[i as int]);
                lemma_block_bytes_concat(rows_slots(rv.take(i as int)), rv[i as int].slots());
                assert(rv.take(i as int).push(rv[i as int]) =~= rv.take(i + 1));
                assert(out@ =~= old(out)@ + seq![0u8] + block_bytes(rows_slots(rv.take(i + 1))));
            }
            i = i + 1;
        }
        proof {
            assert(rv.take(n as int) =~= rv);
        }
    }

    /// The string block size the header will carry.
    #[verifier::loop_isolation(false)]
    #[verifier::rlimit(80)]
    fn string_block_size(&self) -> (r: u32)
        requires
            table_fits::<LockTypeRowV>(self@),
        ensures
            r == 1 + block_len(rows_slots(self@)),
    {
        let ghost rv = self@;
        let mut sum: u64 = 1;
        let n = self.rows.len();
        let mut i: usize = 0;
        proof {
            assert(rows_slots(rv.take(0)) =~= Seq::<Seq<u8>>::empty());
            assert(block_bytes(Seq::<Seq<u8>>::empty()) =~= Seq::<u8>::empty());
        }
        while i < n
            invariant
                0 <= i <= n,
                n == self.rows@.len(),
                sum == 1 + block_len(rows_slots(rv.take(i as int))),
            decreases n - i,
        {
            proof {
                lemma_rows_block_at::<LockTypeRowV>(rv, i as int);
                assert(rv[i as int].slots() =~= ext_slots(rv[i as int].name_lang) + ext_slots(rv[i as int].resource_name_lang) + ext_slots(rv[i as int].verb_lang) + seq![str_bytes(rv[i as int].cursor_name)]);
                lemma_block_bytes_concat(ext_slots(rv[i as int].name_lang), ext_slots(rv[i as int].resource_name_lang));
                lemma_block_bytes_concat((ext_slots(rv[i as int].name_lang) + ext_slots(rv[i as int].resource_name_lang)), ext_slots(rv[i as int].verb_lang));
                lemma_block_bytes_concat(((ext_slots(rv[i as int].name_lang) + ext_slots(rv[i as int].resource_name_lang)) + ext_slots(rv[i as int].verb_lang)), seq![str_bytes(rv[i as int].cursor_name)]);
                lemma_block_bytes_single(str_bytes(rv[i as int].cursor_name));
            }
            let extra0 = self.rows[i].name_lang.block_size();
            let extra1 = self.rows[i].resource_name_lang.block_size();
            let extra2 = self.rows[i].verb_lang.block_size();
            let extra3 = slot_size(&self.rows[i].cursor_name);
            sum = sum + extra0 + extra1 + extra2 + extra3;
            proof {
                lemma_rows_slots_push::<LockTypeRowV>(rv.take(i as int), rv[i as int]);
                lemma_block_bytes_concat(rows_slots(rv.take(i as int)), rv[i as int].slots());
                assert(rv.take(i as int).push(rv[i as int]) =~= rv.take(i + 1));
            }
            i = i + 1;
        }
        proof {
            assert(rv.take(n as int) =~= rv);
        }
        sum as u32
    }
}

/// Round trip: writing any well-formed table and reading the result yields
/// the same rows.
pub proof fn lemma_lock_type_round_trip(rows: Seq<LockTypeRowV>)
    requires
        table_wf(rows),
        table_fits::<LockTypeRowV>(rows),
    ensures
        decode_table::<LockTypeRowV>(
            encode_table(rows, FIELD_COUNT as u32),
            ROW_SIZE as u32,
            FIELD_COUNT as u32,
        ) == Ok::<Seq<LockTypeRowV>, DbcError>(rows),
{
    assert(rows_wf(rows));
    lemma_table_round_trip(rows, FIELD_COUNT as u32);
}

} // verus!
