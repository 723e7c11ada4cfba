//! The `SoundEntries` table: sound definitions with a name, ten file slots and their frequencies. The four volume and distance fields carry the on-disk IEEE-754 bit patterns verbatim.

use vstd::prelude::*;
use crate::DbcError;
use crate::codec::{
    RowCodec, decode_table, encode_table, decode_rows, encode_rows, rows_slots, rows_wf,
    table_block,
    table_wf, table_fits, split_exec, lemma_decode_rows_error, lemma_encode_rows_push,
    lemma_rows_slots_push, lemma_rows_block_at, lemma_table_round_trip,
};
use crate::header::{DbcHeader, header_bytes, write_header};
use crate::string_block::{
    str_bytes, slot_off, slot_enc, block_len, block_bytes, no_nul, slots_wf, decode_str,
    read_string_ref, write_string_ref, push_block_slot, slot_size, lemma_block_bytes_single,
    lemma_block_bytes_concat,
};
use crate::str_list::{
    strs_slots, strs_view, strs_rec_bytes, lemma_decode_written_slot, lemma_block_segment,
    lemma_strs_rec_bytes_len, lemma_strs_round_trip, read_str_list, write_str_list,
    push_block_slots, str_list_block_size, decode_strs,
};
use crate::int_list::{
    i32s_le, decode_i32s, lemma_i32s_le_len, lemma_i32s_round_trip, read_i32_list, write_i32_list,
};
use crate::util::{
    find_first, lemma_find_first_hit, lemma_find_first_miss, u32_le, u32_at, i32_at, read_i32_le,
    read_u32_le, push_i32_le, push_u32_le, lemma_i32_at_of_le, lemma_u32_at_of_le,
    lemma_u32_le_len,
};

verus! {

pub const FILENAME: &'static str = "SoundEntries.dbc";

pub const FIELD_COUNT: usize = 29;

pub const ROW_SIZE: usize = 116;

/// The typed primary key of `SoundEntries`.
#[derive(Debug, Clone, Copy, PartialEq, Eq, PartialOrd, Ord, Hash, Default, Structural)]
pub struct SoundEntriesKey {
    pub id: i32,
}

impl SoundEntriesKey {
    pub fn new(id: i32) -> (r: Self)
        ensures
            r.id == id,
    {
        Self { id }
    }
}

impl From<u8> for SoundEntriesKey {
    fn from(v: u8) -> (r: Self) {
        Self::new(v as i32)
    }
}

impl vstd::std_specs::convert::FromSpecImpl<u8> for SoundEntriesKey {
    open spec fn obeys_from_spec() -> bool {
        true
    }

    open spec fn from_spec(v: u8) -> Self {
        SoundEntriesKey { id: v as i32 }
    }
}

impl From<u16> for SoundEntriesKey {
    fn from(v: u16) -> (r: Self) {
        Self::new(v as i32)
    }
}

impl vstd::std_specs::convert::FromSpecImpl<u16> for SoundEntriesKey {
    open spec fn obeys_from_spec() -> bool {
        true
    }

    open spec fn from_spec(v: u16) -> Self {
        SoundEntriesKey { id: v as i32 }
    }
}

impl From<i8> for SoundEntriesKey {
    fn from(v: i8) -> (r: Self) {
        Self::new(v as i32)
    }
}

impl vstd::std_specs::convert::FromSpecImpl<i8> for SoundEntriesKey {
    open spec fn obeys_from_spec() -> bool {
        true
    }

    open spec fn from_spec(v: i8) -> Self {
        SoundEntriesKey { id: v as i32 }
    }
}

impl From<i16> for SoundEntriesKey {
    fn from(v: i16) -> (r: Self) {
        Self::new(v as i32)
    }
}

impl vstd::std_specs::convert::FromSpecImpl<i16> for SoundEntriesKey {
    open spec fn obeys_from_spec() -> bool {
        true
    }

    open spec fn from_spec(v: i16) -> Self {
        SoundEntriesKey { id: v as i32 }
    }
}

impl From<i32> for SoundEntriesKey {
    fn from(v: i32) -> (r: Self) {
        Self::new(v)
    }
}

impl vstd::std_specs::convert::FromSpecImpl<i32> for SoundEntriesKey {
    open spec fn obeys_from_spec() -> bool {
        true
    }

    open spec fn from_spec(v: i32) -> Self {
        SoundEntriesKey { id: v }
    }
}

impl TryFrom<u32> for SoundEntriesKey {
    type Error = u32;

    fn try_from(v: u32) -> (r: Result<Self, u32>) {
        if v <= i32::MAX as u32 {
            Ok(Self::new(v as i32))
        } else {
            Err(v)
        }
    }
}

impl vstd::std_specs::convert::TryFromSpecImpl<u32> for SoundEntriesKey {
    open spec fn obeys_try_from_spec() -> bool {
        true
    }

    open spec fn try_from_spec(v: u32) -> Result<Self, u32> {
        if v <= i32::MAX as u32 {
            Ok(SoundEntriesKey { id: v as i32 })
        } else {
            Err(v)
        }
    }
}

impl TryFrom<u64> for SoundEntriesKey {
    type Error = u64;

    fn try_from(v: u64) -> (r: Result<Self, u64>) {
        if v <= i32::MAX as u64 {
            Ok(Self::new(v as i32))
        } else {
            Err(v)
        }
    }
}

impl vstd::std_specs::convert::TryFromSpecImpl<u64> for SoundEntriesKey {
    open spec fn obeys_try_from_spec() -> bool {
        true
    }

    open spec fn try_from_spec(v: u64) -> Result<Self, u64> {
        if v <= i32::MAX as u64 {
            Ok(SoundEntriesKey { id: v as i32 })
        } else {
            Err(v)
        }
    }
}

impl TryFrom<usize> for SoundEntriesKey {
    type Error = usize;

    fn try_from(v: usize) -> (r: Result<Self, usize>) {
        if v <= i32::MAX as usize {
            Ok(Self::new(v as i32))
        } else {
            Err(v)
        }
    }
}

impl vstd::std_specs::convert::TryFromSpecImpl<usize> for SoundEntriesKey {
    open spec fn obeys_try_from_spec() -> bool {
        true
    }

    open spec fn try_from_spec(v: usize) -> Result<Self, usize> {
        if v <= i32::MAX as usize {
            Ok(SoundEntriesKey { id: v as i32 })
        } else {
            Err(v)
        }
    }
}

impl TryFrom<i64> for SoundEntriesKey {
    type Error = i64;

    fn try_from(v: i64) -> (r: Result<Self, i64>) {
        if i32::MIN as i64 <= v && v <= i32::MAX as i64 {
            Ok(Self::new(v as i32))
        } else {
            Err(v)
        }
    }
}

impl vstd::std_specs::convert::TryFromSpecImpl<i64> for SoundEntriesKey {
    open spec fn obeys_try_from_spec() -> bool {
        true
    }

    open spec fn try_from_spec(v: i64) -> Result<Self, i64> {
        if i32::MIN as i64 <= v && v <= i32::MAX as i64 {
            Ok(SoundEntriesKey { id: v as i32 })
        } else {
            Err(v)
        }
    }
}

impl TryFrom<isize> for SoundEntriesKey {
    type Error = isize;

    fn try_from(v: isize) -> (r: Result<Self, isize>) {
        if i32::MIN as isize <= v && v <= i32::MAX as isize {
            Ok(Self::new(v as i32))
        } else {
            Err(v)
        }
    }
}

impl vstd::std_specs::convert::TryFromSpecImpl<isize> for SoundEntriesKey {
    open spec fn obeys_try_from_spec() -> bool {
        true
    }

    open spec fn try_from_spec(v: isize) -> Result<Self, isize> {
        if i32::MIN as isize <= v && v <= i32::MAX as isize {
            Ok(SoundEntriesKey { id: v as i32 })
        } else {
            Err(v)
        }
    }
}

/// One row of the table.
#[derive(Debug, Clone, PartialEq, Eq, PartialOrd, Ord, Hash)]
pub struct SoundEntriesRow {
    pub id: SoundEntriesKey,
    pub sound_type: i32,
    pub name: String,
    pub file: Vec<String>,
    pub freq: Vec<i32>,
    pub directory_base: String,
    pub volume_float: u32,
    pub flags: i32,
    pub min_distance: u32,
    pub distance_cutoff: u32,
    pub e_a_x_def: i32,
}

/// The mathematical view of a row.
pub struct SoundEntriesRowV {
    pub id: SoundEntriesKey,
    pub sound_type: i32,
    pub name: Seq<char>,
    pub file: Seq<Seq<char>>,
    pub freq: Seq<i32>,
    pub directory_base: Seq<char>,
    pub volume_float: u32,
    pub flags: i32,
    pub min_distance: u32,
    pub distance_cutoff: u32,
    pub e_a_x_def: i32,
}

impl View for SoundEntriesRow {
    type V = SoundEntriesRowV;

    open spec fn view(&self) -> SoundEntriesRowV {
        SoundEntriesRowV {
            id: self.id,
            sound_type: self.sound_type,
            name: self.name@,
            file: strs_view(self.file@),
            freq: self.freq@,
            directory_base: self.directory_base@,
            volume_float: self.volume_float,
            flags: self.flags,
            min_distance: self.min_distance,
            distance_cutoff: self.distance_cutoff,
            e_a_x_def: self.e_a_x_def,
        }
    }
}

impl RowCodec for SoundEntriesRowV {
    open spec fn row_size() -> int {
        116
    }

    open spec fn row_wf(self) -> bool {
        self.file.len() == 10 && self.freq.len() == 10
    }

    open spec fn decode_row(rec: Seq<u8>, block: Seq<u8>) -> Result<Self, DbcError> {
        match decode_str(block, u32_at(rec, 8)) {
            Err(e) => Err(e),
            Ok(name) => match decode_strs(rec, 12, 10, block) {
                Err(e) => Err(e),
                Ok(file) => match decode_str(block, u32_at(rec, 92)) {
                    Err(e) => Err(e),
                    Ok(directory_base) => Ok(
                        SoundEntriesRowV {
                            id: SoundEntriesKey { id: i32_at(rec, 0) },
                            sound_type: i32_at(rec, 4),
                            name,
                            file,
                            freq: decode_i32s(rec, 52, 10),
                            directory_base,
                            volume_float: u32_at(rec, 96),
                            flags: i32_at(rec, 100),
                            min_distance: u32_at(rec, 104),
                            distance_cutoff: u32_at(rec, 108),
                            e_a_x_def: i32_at(rec, 112),
                        },
                    ),
                },
            },
        }
    }

    open spec fn slots(self) -> Seq<Seq<u8>> {
        seq![str_bytes(self.name)] + strs_slots(self.file) + seq![str_bytes(self.directory_base)]
    }

    open spec fn rec_bytes(self, c: int) -> Seq<u8> {
        u32_le(self.id.id as u32) + u32_le(self.sound_type as u32) + u32_le(
            slot_off(str_bytes(self.name), c),
        ) + strs_rec_bytes(self.file, c + slot_enc(str_bytes(self.name)).len()) + i32s_le(
            self.freq,
        ) + u32_le(
            slot_off(
                str_bytes(self.directory_base),
                c + slot_enc(str_bytes(self.name)).len() + block_len(strs_slots(self.file)),
            ),
        ) + u32_le(self.volume_float) + u32_le(self.flags as u32) + u32_le(self.min_distance)
            + u32_le(self.distance_cutoff) + u32_le(self.e_a_x_def as u32)
    }

    proof fn lemma_rec_bytes_len(self, c: int) {
        let c1 = c + slot_enc(str_bytes(self.name)).len();
        let c2 = c1 + block_len(strs_slots(self.file));
        lemma_u32_le_len(self.id.id as u32);
        lemma_u32_le_len(self.sound_type as u32);
        lemma_u32_le_len(slot_off(str_bytes(self.name), c));
        lemma_strs_rec_bytes_len(self.file, c1);
        lemma_i32s_le_len(self.freq);
        lemma_u32_le_len(slot_off(str_bytes(self.directory_base), c2));
        lemma_u32_le_len(self.volume_float);
        lemma_u32_le_len(self.flags as u32);
        lemma_u32_le_len(self.min_distance);
        lemma_u32_le_len(self.distance_cutoff);
        lemma_u32_le_len(self.e_a_x_def as u32);
    }

    proof fn lemma_row_round_trip(self, block: Seq<u8>, c: int) {
        let rec = self.rec_bytes(c);
        let s_name = str_bytes(self.name);
        let s_dir = str_bytes(self.directory_base);
        let fileslots = strs_slots(self.file);
        let c1 = c + slot_enc(s_name).len();
        let c2 = c1 + block_len(fileslots);
        self.lemma_rec_bytes_len(c);
        lemma_u32_le_len(self.id.id as u32);
        lemma_u32_le_len(self.sound_type as u32);
        lemma_u32_le_len(slot_off(s_name, c));
        lemma_strs_rec_bytes_len(self.file, c1);
        lemma_i32s_le_len(self.freq);
        lemma_u32_le_len(slot_off(s_dir, c2));
        lemma_u32_le_len(self.volume_float);
        lemma_u32_le_len(self.flags as u32);
        lemma_u32_le_len(self.min_distance);
        lemma_u32_le_len(self.distance_cutoff);
        lemma_u32_le_len(self.e_a_x_def as u32);
        assert(rec.subrange(0, 4) =~= u32_le(self.id.id as u32));
        lemma_i32_at_of_le(rec, 0, self.id.id);
        assert(rec.subrange(4, 8) =~= u32_le(self.sound_type as u32));
        lemma_i32_at_of_le(rec, 4, self.sound_type);
        assert(rec.subrange(8, 12) =~= u32_le(slot_off(s_name, c)));
        lemma_u32_at_of_le(rec, 8, slot_off(s_name, c));
        assert(rec.subrange(12, 52) =~= strs_rec_bytes(self.file, c1));
        assert(rec.subrange(52, 92) =~= i32s_le(self.freq));
        assert(rec.subrange(92, 96) =~= u32_le(slot_off(s_dir, c2)));
        lemma_u32_at_of_le(rec, 92, slot_off(s_dir, c2));
        assert(rec.subrange(96, 100) =~= u32_le(self.volume_float));
        lemma_u32_at_of_le(rec, 96, self.volume_float);
        assert(rec.subrange(100, 104) =~= u32_le(self.flags as u32));
        lemma_i32_at_of_le(rec, 100, self.flags);
        assert(rec.subrange(104, 108) =~= u32_le(self.min_distance));
        lemma_u32_at_of_le(rec, 104, self.min_distance);
        assert(rec.subrange(108, 112) =~= u32_le(self.distance_cutoff));
        lemma_u32_at_of_le(rec, 108, self.distance_cutoff);
        assert(rec.subrange(112, 116) =~= u32_le(self.e_a_x_def as u32));
        lemma_i32_at_of_le(rec, 112, self.e_a_x_def);
        // block layout: the name slot, the ten file slots, the directory slot
        lemma_block_bytes_single(s_name);
        lemma_block_bytes_single(s_dir);
        lemma_block_bytes_concat(seq![s_name], fileslots);
        lemma_block_bytes_concat(seq![s_name] + fileslots, seq![s_dir]);
        let pre0 = Seq::<Seq<u8>>::empty();
        assert(block_bytes(pre0) =~= Seq::<u8>::empty());
        assert(self.slots() =~= pre0 + seq![s_name] + (fileslots + seq![s_dir]));
        lemma_block_segment(block, c, pre0, seq![s_name], fileslots + seq![s_dir]);
        assert(self.slots() =~= seq![s_name] + fileslots + seq![s_dir]);
        lemma_block_segment(block, c, seq![s_name], fileslots, seq![s_dir]);
        assert(self.slots() =~= (seq![s_name] + fileslots) + seq![s_dir]
            + Seq::<Seq<u8>>::empty());
        lemma_block_segment(block, c, seq![s_name] + fileslots, seq![s_dir],
            Seq::<Seq<u8>>::empty());
        assert(c + block_len(seq![s_name]) == c1);
        assert(c + block_len(seq![s_name] + fileslots) == c2);
        // the name
        assert(slots_wf(self.slots()));
        assert(no_nul(s_name)) by {
            assert(self.slots()[0] == s_name);
        }
        assert(block.subrange(c, c + slot_enc(s_name).len()) =~= slot_enc(s_name));
        lemma_decode_written_slot(block, c, self.name);
        // the file slots
        assert(slots_wf(fileslots)) by {
            assert forall|q: int| 0 <= q < fileslots.len() implies no_nul(#[trigger] fileslots[q])
            by {
                assert(fileslots[q] == self.slots()[1 + q]);
            }
        }
        lemma_strs_round_trip(self.file, rec, 12, block, c1, 10);
        assert(self.file.take(10) =~= self.file);
        // the frequencies
        lemma_i32s_round_trip(self.freq, rec, 52);
        // the directory
        assert(no_nul(s_dir)) by {
            assert(self.slots()[11] == s_dir);
        }
        assert(block.subrange(c2, c2 + slot_enc(s_dir).len()) =~= slot_enc(s_dir));
        lemma_decode_written_slot(block, c2, self.directory_base);
    }
}

/// The table: a sequence of rows.
#[derive(Debug, Clone, PartialEq, Eq, PartialOrd, Ord, Hash)]
pub struct SoundEntries {
    pub rows: Vec<SoundEntriesRow>,
}

/// The views of a row sequence.
pub open spec fn rows_view(rows: Seq<SoundEntriesRow>) -> Seq<SoundEntriesRowV> {
    rows.map_values(|r: SoundEntriesRow| r@)
}

impl View for SoundEntries {
    type V = Seq<SoundEntriesRowV>;

    open spec fn view(&self) -> Seq<SoundEntriesRowV> {
        rows_view(self.rows@)
    }
}

impl SoundEntries {
    /// The rows of the table.
    pub fn rows(&self) -> (r: &Vec<SoundEntriesRow>)
        ensures
            r@ == self.rows@,
    {
        &self.rows
    }

    /// The rows of the table, borrowed for in-place mutation.
    pub fn rows_mut(&mut self) -> (r: &mut Vec<SoundEntriesRow>)
        ensures
            *r == old(self).rows,
            final(self).rows == *final(r),
    {
        &mut self.rows
    }

    /// Where the first row with primary key `key` stands, if anywhere.
    pub open spec fn key_index(rows: Seq<SoundEntriesRow>, key: SoundEntriesKey) -> Option<int> {
        find_first(rows, |r: SoundEntriesRow| r.id == key)
    }

    /// The position of the first row whose primary key equals `key`.
    #[verifier::loop_isolation(false)]
    fn key_pos(&self, key: SoundEntriesKey) -> (r: Option<usize>)
        ensures
            match r {
                Some(i) => Self::key_index(self.rows@, key) == Some(i as int) && i
                    < self.rows@.len(),
                None => Self::key_index(self.rows@, key) is None,
            },
    {
        let ghost p = |r: SoundEntriesRow| r.id == key;
        let n = self.rows.len();
        let mut i: usize = 0;
        while i < n
            invariant
                0 <= i <= n,
                n == self.rows@.len(),
                forall|j: int| 0 <= j < i ==> !p(self.rows@[j]),
            decreases n - i,
        {
            if self.rows[i].id.id == key.id {
                proof {
                    assert(p(self.rows@[i as int]));
                    lemma_find_first_hit(self.rows@, p, i as int);
                }
                return Some(i);
            }
            proof {
                assert(self.rows@[i as int].id != key);
            }
            i = i + 1;
        }
        proof {
            lemma_find_first_miss(self.rows@, p);
        }
        None
    }

    /// The first row whose primary key equals `key`, if any.
    pub fn get(&self, key: SoundEntriesKey) -> (r: Option<&SoundEntriesRow>)
        ensures
            match r {
                Some(row) => Self::key_index(self.rows@, key) matches Some(i) && *row
                    == self.rows@[i],
                None => Self::key_index(self.rows@, key) is None,
            },
    {
        match self.key_pos(key) {
            Some(i) => Some(&self.rows[i]),
            None => None,
        }
    }

    /// The first row whose primary key equals `key`, borrowed for mutation.
    pub fn get_mut(&mut self, key: SoundEntriesKey) -> (r: Option<&mut SoundEntriesRow>)
        ensures
            match r {
                Some(row) => Self::key_index(old(self).rows@, key) matches Some(i) && *row == old(
                    self,
                ).rows@[i] && final(self).rows@ == old(self).rows@.update(i, *final(row)),
                None => {
                    &&& *final(self) == *old(self)
                    &&& Self::key_index(old(self).rows@, key) is None
                },
            },
    {
        match self.key_pos(key) {
            Some(i) => Some(&mut self.rows[i]),
            None => None,
        }
    }

    /// Decodes a whole DBC byte stream into the table, or reports exactly
    /// why it cannot be decoded.
    #[verifier::loop_isolation(false)]
    pub fn read(b: &[u8]) -> (r: Result<SoundEntries, DbcError>)
        ensures
            match r {
                Ok(t) => decode_table::<SoundEntriesRowV>(b@, ROW_SIZE as u32, FIELD_COUNT as u32)
                    == Ok::<Seq<SoundEntriesRowV>, DbcError>(t@),
                Err(e) => decode_table::<SoundEntriesRowV>(b@, ROW_SIZE as u32, FIELD_COUNT as u32)
                    == Err::<Seq<SoundEntriesRowV>, DbcError>(e),
            },
    {
        let (n, bs, be) = match split_exec(b, ROW_SIZE as u32, FIELD_COUNT as u32) {
            Ok(t) => t,
            Err(e) => {
                return Err(e);
            },
        };
        let ghost region = b@.subrange(20, bs as int);
        let block = vstd::slice::slice_subrange(b, bs, be);
        let mut rows: Vec<SoundEntriesRow> = Vec::new();
        proof {
            assert(rows_view(rows@) =~= Seq::<SoundEntriesRowV>::empty());
        }
        let mut i: u32 = 0;
        while i < n
            invariant
                0 <= i <= n,
                rows@.len() == i,
                decode_rows::<SoundEntriesRowV>(region, block@, i as nat) == Ok::<
                    Seq<SoundEntriesRowV>,
                    DbcError,
                >(rows_view(rows@)),
            decreases n - i,
        {
            let off: usize = 20 + (i as usize) * ROW_SIZE;
            let rec = vstd::slice::slice_subrange(b, off, off + ROW_SIZE);
            proof {
                assert(rec@ =~= region.subrange(i as int * 116, (i as int + 1) * 116));
            }
            let mut pos: usize = 0;
            let id = SoundEntriesKey::new(read_i32_le(rec, &mut pos));
            let sound_type = read_i32_le(rec, &mut pos);
            let name = match read_string_ref(rec, &mut pos, block) {
                Ok(v) => v,
                Err(e) => {
                    proof {
                        lemma_decode_rows_error::<SoundEntriesRowV>(region, block@, i as nat, n as nat, e);
                    }
                    return Err(e);
                },
            };
            let file = match read_str_list(rec, &mut pos, 10, block) {
                Ok(v) => v,
                Err(e) => {
                    proof {
                        lemma_decode_rows_error::<SoundEntriesRowV>(region, block@, i as nat, n as nat, e);
                    }
                    return Err(e);
                },
            };
            let freq = read_i32_list(rec, &mut pos, 10);
            let directory_base = match read_string_ref(rec, &mut pos, block) {
                Ok(v) => v,
                Err(e) => {
                    proof {
                        lemma_decode_rows_error::<SoundEntriesRowV>(region, block@, i as nat, n as nat, e);
                    }
                    return Err(e);
                },
            };
            let volume_float = read_u32_le(rec, &mut pos);
            let flags = read_i32_le(rec, &mut pos);
            let min_distance = read_u32_le(rec, &mut pos);
            let distance_cutoff = read_u32_le(rec, &mut pos);
            let e_a_x_def = read_i32_le(rec, &mut pos);
            let row = SoundEntriesRow {
                id,
                sound_type,
                name,
                file,
                freq,
                directory_base,
                volume_float,
                flags,
                min_distance,
                distance_cutoff,
                e_a_x_def,
            };
            let ghost pre = rows@;
            rows.push(row);
            proof {
                assert(SoundEntriesRowV::decode_row(
                    region.subrange(i as int * 116, (i as int + 1) * 116),
                    block@,
                ) == Ok::<SoundEntriesRowV, DbcError>(rows@[i as int]@));
                assert(rows_view(rows@) =~= rows_view(pre).push(rows@[i as int]@));
            }
            i = i + 1;
        }
        Ok(SoundEntries { rows })
    }

    /// Emits the 116 record bytes of one row at the current string cursor.
    #[verifier::rlimit(100)]
    fn write_row(row: &SoundEntriesRow, out: &mut Vec<u8>, cursor: &mut u64)
        requires
            row@.row_wf(),
            1 <= *old(cursor),
            *old(cursor) + block_len(row@.slots()) <= u32::MAX,
        ensures
            final(out)@ == old(out)@ + row@.rec_bytes(*old(cursor) as int),
            *final(cursor) == *old(cursor) + block_len(row@.slots()),
    {
        proof {
            assert(row@.slots() =~= seq![str_bytes(row@.name)] + strs_slots(row@.file)
                + seq![str_bytes(row@.directory_base)]);
            lemma_block_bytes_concat(seq![str_bytes(row@.name)], strs_slots(row@.file));
            lemma_block_bytes_concat(
                seq![str_bytes(row@.name)] + strs_slots(row@.file),
                seq![str_bytes(row@.directory_base)],
            );
            lemma_block_bytes_single(str_bytes(row@.name));
            lemma_block_bytes_single(str_bytes(row@.directory_base));
            assert(strs_view(row.file@) == row@.file);
        }
        push_i32_le(out, row.id.id);
        push_i32_le(out, row.sound_type);
        write_string_ref(out, &row.name, cursor);
        write_str_list(out, &row.file, cursor);
        write_i32_list(out, &row.freq);
        write_string_ref(out, &row.directory_base, cursor);
        push_u32_le(out, row.volume_float);
        push_i32_le(out, row.flags);
        push_u32_le(out, row.min_distance);
        push_u32_le(out, row.distance_cutoff);
        push_i32_le(out, row.e_a_x_def);
        proof {
            assert(final(out)@ =~= old(out)@ + row@.rec_bytes(*old(cursor) as int));
        }
    }

    /// Encodes the table: header, records, then the string block. The
    /// emitted bytes decode back to this very table.
    #[verifier::loop_isolation(false)]
    #[verifier::rlimit(80)]
    pub fn write(&self) -> (out: Vec<u8>)
        requires
            table_fits::<SoundEntriesRowV>(self@),
            rows_wf(self@),
        ensures
            out@ == encode_table::<SoundEntriesRowV>(self@, FIELD_COUNT as u32),
    {
        let ghost rv = self@;
        let mut out: Vec<u8> = Vec::new();
        let sbs = self.string_block_size();
        let h = DbcHeader {
            record_count: self.rows.len() as u32,
            field_count: FIELD_COUNT as u32,
            record_size: ROW_SIZE as u32,
            string_block_size: sbs,
        };
        write_header(&mut out, &h);
        let mut cursor: u64 = 1;
        let n = self.rows.len();
        let mut i: usize = 0;
        proof {
            assert(rv.take(0) =~= Seq::<SoundEntriesRowV>::empty());
            assert(rows_slots(rv.take(0)) =~= Seq::<Seq<u8>>::empty());
            assert(block_bytes(Seq::<Seq<u8>>::empty()) =~= Seq::<u8>::empty());
            assert(encode_rows::<SoundEntriesRowV>(rv.take(0), 1) =~= Seq::<u8>::empty());
            assert(out@ =~= header_bytes(h) + encode_rows::<SoundEntriesRowV>(rv.take(0), 1));
        }
        while i < n
            invariant
                0 <= i <= n,
                n == self.rows@.len(),
                out@ == header_bytes(h) + encode_rows::<SoundEntriesRowV>(rv.take(i as int), 1),
                cursor == 1 + block_len(rows_slots(rv.take(i as int))),
            decreases n - i,
        {
            let row = &self.rows[i];
            proof {
                assert(rv[i as int].row_wf());
                lemma_rows_block_at::<SoundEntriesRowV>(rv, i as int);
                assert(rv[i as int] == row@);
            }
            Self::write_row(row, &mut out, &mut cursor);
            proof {
                lemma_encode_rows_push::<SoundEntriesRowV>(rv.take(i as int), rv[i as int], 1);
                lemma_rows_slots_push::<SoundEntriesRowV>(rv.take(i as int), rv[i as int]);
                lemma_block_bytes_concat(rows_slots(rv.take(i as int)), rv[i as int].slots());
                assert(rv.take(i as int).push(rv[i as int]) =~= rv.take(i + 1));
                assert(out@ =~= header_bytes(h) + encode_rows::<SoundEntriesRowV>(rv.take(i + 1), 1));
            }
            i = i + 1;
        }
        self.write_string_block(&mut out);
        proof {
            assert(rv.take(n as int) =~= rv);
            assert(out@ =~= encode_table::<SoundEntriesRowV>(self@, FIELD_COUNT as u32));
        }
        out
    }

    /// Appends the string block: the sentinel NUL, then every non-empty
    /// string in traversal order.
    #[verifier::loop_isolation(false)]
    #[verifier::rlimit(80)]
    fn write_string_block(&self, out: &mut Vec<u8>)
        ensures
            final(out)@ == old(out)@ + table_block::<SoundEntriesRowV>(self@),
    {
        let ghost rv = self@;
        out.push(0);
        let n = self.rows.len();
        let mut i: usize = 0;
        proof {
            assert(rows_slots(rv.take(0)) =~= Seq::<Seq<u8>>::empty());
            assert(block_bytes(Seq::<Seq<u8>>::empty()) =~= Seq::<u8>::empty());
            assert(out@ =~= old(out)@ + seq![0u8] + block_bytes(rows_slots(rv.take(0))));
        }
        while i < n
            invariant
                0 <= i <= n,
                n == self.rows@.len(),
                out@ == old(out)@ + seq![0u8] + block_bytes(rows_slots(rv.take(i as int))),
            decreases n - i,
        {
            push_block_slot(out, &self.rows[i].name);
            push_block_slots(out, &self.rows[i].file);
            push_block_slot(out, &self.rows[i].directory_base);
            proof {
                assert(rv[i as int].slots() =~= seq![str_bytes(rv[i as int].name)] + strs_slots(
                    rv[i as int].file,
                ) + seq![str_bytes(rv[i as int].directory_base)]);
                lemma_block_bytes_concat(
                    seq![str_bytes(rv[i as int].name)],
                    strs_slots(rv[i as int].file),
                );
                lemma_block_bytes_concat(
                    seq![str_bytes(rv[i as int].name)] + strs_slots(rv[i as int].file),
                    seq![str_bytes(rv[i as int].directory_base)],
                );
                lemma_block_bytes_single(str_bytes(rv[i as int].name));
                lemma_block_bytes_single(str_bytes(rv[i as int].directory_base));
                assert(strs_view(self.rows@[i as int].file@) == rv[i as int].file);
                lemma_rows_slots_push::<SoundEntriesRowV>(rv.take(i as int), rv[i as int]);
                lemma_block_bytes_concat(rows_slots(rv.take(i as int)), rv[i as int].slots());
                assert(rv.take(i as int).push(rv[i as int]) =~= rv.take(i + 1));
                assert(out@ =~= old(out)@ + seq![0u8] + block_bytes(rows_slots(rv.take(i + 1))));
            }
            i = i + 1;
        }
        proof {
            assert(rv.take(n as int) =~= rv);
        }
    }

    /// The string block size the header will carry.
    #[verifier::loop_isolation(false)]
    #[verifier::rlimit(80)]
    fn string_block_size(&self) -> (r: u32)
        requires
            table_fits::<SoundEntriesRowV>(self@),
        ensures
            r == 1 + block_len(rows_slots(self@)),
    {
        let ghost rv = self@;
        let mut sum: u64 = 1;
        let n = self.rows.len();
        let mut i: usize = 0;
        proof {
            assert(rows_slots(rv.take(0)) =~= Seq::<Seq<u8>>::empty());
            assert(block_bytes(Seq::<Seq<u8>>::empty()) =~= Seq::<u8>::empty());
        }
        while i < n
            invariant
                0 <= i <= n,
                n == self.rows@.len(),
                sum == 1 + block_len(rows_slots(rv.take(i as int))),
            decreases n - i,
        {
            proof {
                lemma_rows_block_at::<SoundEntriesRowV>(rv, i as int);
                assert(rv[i as int].slots() =~= seq![str_bytes(rv[i as int].name)] + strs_slots(
                    rv[i as int].file,
                ) + seq![str_bytes(rv[i as int].directory_base)]);
                lemma_block_bytes_concat(
                    seq![str_bytes(rv[i as int].name)],
                    strs_slots(rv[i as int].file),
                );
                lemma_block_bytes_concat(
                    seq![str_bytes(rv[i as int].name)] + strs_slots(rv[i as int].file),
                    seq![str_bytes(rv[i as int].directory_base)],
                );
                lemma_block_bytes_single(str_bytes(rv[i as int].name));
                lemma_block_bytes_single(str_bytes(rv[i as int].directory_base));
                assert(strs_view(self.rows@[i as int].file@) == rv[i as int].file);
            }
            let extra0 = slot_size(&self.rows[i].name);
            let extra1 = str_list_block_size(&self.rows[i].file);
            let extra2 = slot_size(&self.rows[i].directory_base);
            sum = sum + extra0 + extra1 + extra2;
            proof {
                lemma_rows_slots_push::<SoundEntriesRowV>(rv.take(i as int), rv[i as int]);
                lemma_block_bytes_concat(rows_slots(rv.take(i as int)), rv[i as int].slots());
                assert(rv.take(i as int).push(rv[i as int]) =~= rv.take(i + 1));
            }
            i = i + 1;
        }
        proof {
            assert(rv.take(n as int) =~= rv);
        }
        sum as u32
    }
}

/// Round trip: writing any well-formed table and reading the result yields
/// the same rows.
pub proof fn lemma_sound_entries_round_trip(rows: Seq<SoundEntriesRowV>)
    requires
        table_wf(rows),
        rows_wf(rows),
        table_fits::<SoundEntriesRowV>(rows),
    ensures
        decode_table::<SoundEntriesRowV>(
            encode_table(rows, FIELD_COUNT as u32),
            ROW_SIZE as u32,
            FIELD_COUNT as u32,
        ) == Ok::<Seq<SoundEntriesRowV>, DbcError>(rows),
{
    lemma_table_round_trip(rows, FIELD_COUNT as u32);
}

} // verus!
