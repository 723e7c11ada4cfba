//! The `WorldMapArea` table: map areas whose four location fields carry the on-disk IEEE-754 bit patterns verbatim.

use vstd::prelude::*;
use crate::DbcError;
use crate::codec::{
    RowCodec, decode_table, encode_table, decode_rows, encode_rows, rows_slots, rows_wf,
    table_block,
    table_wf, table_fits, split_exec, lemma_decode_rows_error, lemma_encode_rows_push,
    lemma_rows_slots_push, lemma_rows_block_at, lemma_table_round_trip,
};
use crate::header::{DbcHeader, header_bytes, write_header};
use crate::string_block::{
    str_bytes, slot_off, slot_enc, block_len, block_bytes, no_nul, slots_wf, decode_str,
    read_string_ref, write_string_ref, push_block_slot, slot_size, lemma_block_bytes_single,
    lemma_block_bytes_concat,
};
use crate::str_list::{lemma_decode_written_slot, lemma_block_segment};
use crate::vanilla_tables::area_table::AreaTableKey;
use crate::vanilla_tables::world_map_continent::WorldMapContinentKey;
use crate::util::{
    find_first, lemma_find_first_hit, lemma_find_first_miss, u32_le, u32_at, read_u32_le,
    push_u32_le, lemma_u32_at_of_le, lemma_u32_le_len,
};

verus! {

pub const FILENAME: &'static str = "WorldMapArea.dbc";

pub const FIELD_COUNT: usize = 8;

pub const ROW_SIZE: usize = 32;

/// The typed primary key of `WorldMapArea`.
#[derive(Debug, Clone, Copy, PartialEq, Eq, PartialOrd, Ord, Hash, Default, Structural)]
pub struct WorldMapAreaKey {
    pub id: u32,
}

impl WorldMapAreaKey {
    pub fn new(id: u32) -> (r: Self)
        ensures
            r.id == id,
    {
        Self { id }
    }
}

impl From<u8> for WorldMapAreaKey {
    fn from(v: u8) -> (r: Self) {
        Self::new(v as u32)
    }
}

impl vstd::std_specs::convert::FromSpecImpl<u8> for WorldMapAreaKey {
    open spec fn obeys_from_spec() -> bool {
        true
    }

    open spec fn from_spec(v: u8) -> Self {
        WorldMapAreaKey { id: v as u32 }
    }
}

impl From<u16> for WorldMapAreaKey {
    fn from(v: u16) -> (r: Self) {
        Self::new(v as u32)
    }
}

impl vstd::std_specs::convert::FromSpecImpl<u16> for WorldMapAreaKey {
    open spec fn obeys_from_spec() -> bool {
        true
    }

    open spec fn from_spec(v: u16) -> Self {
        WorldMapAreaKey { id: v as u32 }
    }
}

impl From<u32> for WorldMapAreaKey {
    fn from(v: u32) -> (r: Self) {
        Self::new(v)
    }
}

impl vstd::std_specs::convert::FromSpecImpl<u32> for WorldMapAreaKey {
    open spec fn obeys_from_spec() -> bool {
        true
    }

    open spec fn from_spec(v: u32) -> Self {
        WorldMapAreaKey { id: v }
    }
}

impl TryFrom<u64> for WorldMapAreaKey {
    type Error = u64;

    fn try_from(v: u64) -> (r: Result<Self, u64>) {
        if v <= u32::MAX as u64 {
            Ok(Self::new(v as u32))
        } else {
            Err(v)
        }
    }
}

impl vstd::std_specs::convert::TryFromSpecImpl<u64> for WorldMapAreaKey {
    open spec fn obeys_try_from_spec() -> bool {
        true
    }

    open spec fn try_from_spec(v: u64) -> Result<Self, u64> {
        if v <= u32::MAX as u64 {
            Ok(WorldMapAreaKey { id: v as u32 })
        } else {
            Err(v)
        }
    }
}

impl TryFrom<usize> for WorldMapAreaKey {
    type Error = usize;

    fn try_from(v: usize) -> (r: Result<Self, usize>) {
        if v <= u32::MAX as usize {
            Ok(Self::new(v as u32))
        } else {
            Err(v)
        }
    }
}

impl vstd::std_specs::convert::TryFromSpecImpl<usize> for WorldMapAreaKey {
    open spec fn obeys_try_from_spec() -> bool {
        true
    }

    open spec fn try_from_spec(v: usize) -> Result<Self, usize> {
        if v <= u32::MAX as usize {
            Ok(WorldMapAreaKey { id: v as u32 })
        } else {
            Err(v)
        }
    }
}

impl TryFrom<i8> for WorldMapAreaKey {
    type Error = i8;

    fn try_from(v: i8) -> (r: Result<Self, i8>) {
        if v >= 0 {
            Ok(Self::new(v as u32))
        } else {
            Err(v)
        }
    }
}

impl vstd::std_specs::convert::TryFromSpecImpl<i8> for WorldMapAreaKey {
    open spec fn obeys_try_from_spec() -> bool {
        true
    }

    open spec fn try_from_spec(v: i8) -> Result<Self, i8> {
        if v >= 0 {
            Ok(WorldMapAreaKey { id: v as u32 })
        } else {
            Err(v)
        }
    }
}

impl TryFrom<i16> for WorldMapAreaKey {
    type Error = i16;

    fn try_from(v: i16) -> (r: Result<Self, i16>) {
        if v >= 0 {
            Ok(Self::new(v as u32))
        } else {
            Err(v)
        }
    }
}

impl vstd::std_specs::convert::TryFromSpecImpl<i16> for WorldMapAreaKey {
    open spec fn obeys_try_from_spec() -> bool {
        true
    }

    open spec fn try_from_spec(v: i16) -> Result<Self, i16> {
        if v >= 0 {
            Ok(WorldMapAreaKey { id: v as u32 })
        } else {
            Err(v)
        }
    }
}

impl TryFrom<i32> for WorldMapAreaKey {
    type Error = i32;

    fn try_from(v: i32) -> (r: Result<Self, i32>) {
        if v >= 0 {
            Ok(Self::new(v as u32))
        } else {
            Err(v)
        }
    }
}

impl vstd::std_specs::convert::TryFromSpecImpl<i32> for WorldMapAreaKey {
    open spec fn obeys_try_from_spec() -> bool {
        true
    }

    open spec fn try_from_spec(v: i32) -> Result<Self, i32> {
        if v >= 0 {
            Ok(WorldMapAreaKey { id: v as u32 })
        } else {
            Err(v)
        }
    }
}

impl TryFrom<i64> for WorldMapAreaKey {
    type Error = i64;

    fn try_from(v: i64) -> (r: Result<Self, i64>) {
        if 0 <= v && v <= u32::MAX as i64 {
            Ok(Self::new(v as u32))
        } else {
            Err(v)
        }
    }
}

impl vstd::std_specs::convert::TryFromSpecImpl<i64> for WorldMapAreaKey {
    open spec fn obeys_try_from_spec() -> bool {
        true
    }

    open spec fn try_from_spec(v: i64) -> Result<Self, i64> {
        if 0 <= v && v <= u32::MAX as i64 {
            Ok(WorldMapAreaKey { id: v as u32 })
        } else {
            Err(v)
        }
    }
}

impl TryFrom<isize> for WorldMapAreaKey {
    type Error = isize;

    fn try_from(v: isize) -> (r: Result<Self, isize>) {
        if 0 <= v && v <= u32::MAX as isize {
            Ok(Self::new(v as u32))
        } else {
            Err(v)
        }
    }
}

impl vstd::std_specs::convert::TryFromSpecImpl<isize> for WorldMapAreaKey {
    open spec fn obeys_try_from_spec() -> bool {
        true
    }

    open spec fn try_from_spec(v: isize) -> Result<Self, isize> {
        if 0 <= v && v <= u32::MAX as isize {
            Ok(WorldMapAreaKey { id: v as u32 })
        } else {
            Err(v)
        }
    }
}

/// One row of the table.
#[derive(Debug, Clone, PartialEq, Eq, PartialOrd, Ord, Hash)]
pub struct WorldMapAreaRow {
    pub id: WorldMapAreaKey,
    pub world_map_continent: WorldMapContinentKey,
    pub area_table: AreaTableKey,
    pub area_name: String,
    pub location_left: u32,
    pub location_right: u32,
    pub location_top: u32,
    pub location_bottom: u32,
}

/// The mathematical view of a row.
pub struct WorldMapAreaRowV {
    pub id: WorldMapAreaKey,
    pub world_map_continent: WorldMapContinentKey,
    pub area_table: AreaTableKey,
    pub area_name: Seq<char>,
    pub location_left: u32,
    pub location_right: u32,
    pub location_top: u32,
    pub location_bottom: u32,
}

impl View for WorldMapAreaRow {
    type V = WorldMapAreaRowV;

    open spec fn view(&self) -> WorldMapAreaRowV {
        WorldMapAreaRowV { id: self.id, world_map_continent: self.world_map_continent, area_table: self.area_table, area_name: self.area_name@, location_left: self.location_left, location_right: self.location_right, location_top: self.location_top, location_bottom: self.location_bottom }
    }
}

impl RowCodec for WorldMapAreaRowV {
    open spec fn row_size() -> int {
        32
    }

    open spec fn row_wf(self) -> bool {
        true
    }

    open spec fn decode_row(rec: Seq<u8>, block: Seq<u8>) -> Result<Self, DbcError> {
        match decode_str(block, u32_at(rec, 12)) {
            Err(e) => Err(e),
            Ok(area_name) => Ok(
            WorldMapAreaRowV { id: WorldMapAreaKey { id: u32_at(rec, 0) }, world_map_continent: WorldMapContinentKey { id: u32_at(rec, 4) }, area_table: AreaTableKey { id: u32_at(rec, 8) }, area_name, location_left: u32_at(rec, 16), location_right: u32_at(rec, 20), location_top: u32_at(rec, 24), location_bottom: u32_at(rec, 28) },
        ),
        }
    }

    open spec fn slots(self) -> Seq<Seq<u8>> {
        seq![str_bytes(self.area_name)]
    }

    open spec fn rec_bytes(self, c: int) -> Seq<u8> {
        u32_le(self.id.id as u32) + u32_le(self.world_map_continent.id as u32) + u32_le(self.area_table.id as u32) + u32_le(slot_off(str_bytes(self.area_name), c)) + u32_le(self.location_left) + u32_le(self.location_right) + u32_le(self.location_top) + u32_le(self.location_bottom)
    }

    proof fn lemma_rec_bytes_len(self, c: int) {
        lemma_u32_le_len(self.id.id as u32);
        lemma_u32_le_len(self.world_map_continent.id as u32);
        lemma_u32_le_len(self.area_table.id as u32);
        lemma_u32_le_len(slot_off(str_bytes(self.area_name), c));
        lemma_u32_le_len(self.location_left);
        lemma_u32_le_len(self.location_right);
        lemma_u32_le_len(self.location_top);
        lemma_u32_le_len(self.location_bottom);
    }

    proof fn lemma_row_round_trip(self, block: Seq<u8>, c: int) {
        let rec = self.rec_bytes(c);
        lemma_u32_le_len(self.id.id as u32);
        lemma_u32_le_len(self.world_map_continent.id as u32);
        lemma_u32_le_len(self.area_table.id as u32);
        lemma_u32_le_len(slot_off(str_bytes(self.area_name), c));
        lemma_u32_le_len(self.location_left);
        lemma_u32_le_len(self.location_right);
        lemma_u32_le_len(self.location_top);
        lemma_u32_le_len(self.location_bottom);
        assert(rec.subrange(0, 4) =~= u32_le(self.id.id));
        lemma_u32_at_of_le(rec, 0, self.id.id);
        assert(rec.subrange(4, 8) =~= u32_le(self.world_map_continent.id));
        lemma_u32_at_of_le(rec, 4, self.world_map_continent.id);
        assert(rec.subrange(8, 12) =~= u32_le(self.area_table.id));
        lemma_u32_at_of_le(rec, 8, self.area_table.id);
        let pre0 = Seq::<Seq<u8>>::empty();
        let mid0 = seq![str_bytes(self.area_name)];
        let post0 = Seq::<Seq<u8>>::empty();
        assert(self.slots() =~= pre0 + mid0 + post0);
        lemma_block_segment(block, c, pre0, mid0, post0);
        lemma_block_bytes_single(str_bytes(self.area_name));
        assert(c + block_len(pre0) == c);
        assert(slots_wf(mid0)) by {
            assert forall|q: int| 0 <= q < 1 implies no_nul(mid0[q]) by {
                assert(mid0[q] == self.slots()[0 + q]);
            }
        }
        assert(rec.subrange(12, 16) =~= u32_le(slot_off(str_bytes(self.area_name), c)));
        lemma_u32_at_of_le(rec, 12, slot_off(str_bytes(self.area_name), c));
        assert(block.subrange(c, c + slot_enc(str_bytes(self.area_name)).len()) =~= slot_enc(str_bytes(self.area_name)));
        assert(no_nul(str_bytes(self.area_name)));
        lemma_decode_written_slot(block, c, self.area_name);
        assert(rec.subrange(16, 20) =~= u32_le(self.location_left));
        lemma_u32_at_of_le(rec, 16, self.location_left);
        assert(rec.subrange(20, 24) =~= u32_le(self.location_right));
        lemma_u32_at_of_le(rec, 20, self.location_right);
        assert(rec.subrange(24, 28) =~= u32_le(self.location_top));
        lemma_u32_at_of_le(rec, 24, self.location_top);
        assert(rec.subrange(28, 32) =~= u32_le(self.location_bottom));
        lemma_u32_at_of_le(rec, 28, self.location_bottom);
    }
}

/// The table: a sequence of rows.
#[derive(Debug, Clone, PartialEq, Eq, PartialOrd, Ord, Hash)]
pub struct WorldMapArea {
    pub rows: Vec<WorldMapAreaRow>,
}

/// The views of a row sequence.
pub open spec fn rows_view(rows: Seq<WorldMapAreaRow>) -> Seq<WorldMapAreaRowV> {
    rows.map_values(|r: WorldMapAreaRow| r@)
}

impl View for WorldMapArea {
    type V = Seq<WorldMapAreaRowV>;

    open spec fn view(&self) -> Seq<WorldMapAreaRowV> {
        rows_view(self.rows@)
    }
}

impl WorldMapArea {
    /// The rows of the table.
    pub fn rows(&self) -> (r: &Vec<WorldMapAreaRow>)
        ensures
            r@ == self.rows@,
    {
        &self.rows
    }

    /// The rows of the table, borrowed for in-place mutation.
    pub fn rows_mut(&mut self) -> (r: &mut Vec<WorldMapAreaRow>)
        ensures
            *r == old(self).rows,
            final(self).rows == *final(r),
    {
        &mut self.rows
    }

    /// Where the first row with primary key `key` stands, if anywhere.
    pub open spec fn key_index(rows: Seq<WorldMapAreaRow>, key: WorldMapAreaKey) -> Option<int> {
        find_first(rows, |r: WorldMapAreaRow| r.id == key)
    }

    /// The position of the first row whose primary key equals `key`.
    #[verifier::loop_isolation(false)]
    fn key_pos(&self, key: WorldMapAreaKey) -> (r: Option<usize>)
        ensures
            match r {
                Some(i) => Self::key_index(self.rows@, key) == Some(i as int) && i
                    < self.rows@.len(),
                None => Self::key_index(self.rows@, key) is None,
            },
    {
        let ghost p = |r: WorldMapAreaRow| r.id == key;
        let n = self.rows.len();
        let mut i: usize = 0;
        while i < n
            invariant
                0 <= i <= n,
                n == self.rows@.len(),
                forall|j: int| 0 <= j < i ==> !p(self.rows@[j]),
            decreases n - i,
        {
            if self.rows[i].id.id == key.id {
                proof {
                    assert(p(self.rows@[i as int]));
                    lemma_find_first_hit(self.rows@, p, i as int);
                }
                return Some(i);
            }
            proof {
                assert(self.rows@[i as int].id != key);
            }
            i = i + 1;
        }
        proof {
            lemma_find_first_miss(self.rows@, p);
        }
        None
    }

    /// The first row whose primary key equals `key`, if any.
    pub fn get(&self, key: WorldMapAreaKey) -> (r: Option<&WorldMapAreaRow>)
        ensures
            match r {
                Some(row) => Self::key_index(self.rows@, key) matches Some(i) && *row
                    == self.rows@[i],
                None => Self::key_index(self.rows@, key) is None,
            },
    {
        match self.key_pos(key) {
            Some(i) => Some(&self.rows[i]),
            None => None,
        }
    }

    /// The first row whose primary key equals `key`, borrowed for mutation.
    pub fn get_mut(&mut self, key: WorldMapAreaKey) -> (r: Option<&mut WorldMapAreaRow>)
        ensures
            match r {
                Some(row) => Self::key_index(old(self).rows@, key) matches Some(i) && *row == old(
                    self,
                ).rows@[i] && final(self).rows@ == old(self).rows@.update(i, *final(row)),
                None => {
                    &&& *final(self) == *old(self)
                    &&& Self::key_index(old(self).rows@, key) is None
                },
            },
    {
        match self.key_pos(key) {
            Some(i) => Some(&mut self.rows[i]),
            None => None,
        }
    }

    /// Decodes a whole DBC byte stream into the table, or reports exactly
    /// why it cannot be decoded.
    #[verifier::loop_isolation(false)]
    pub fn read(b: &[u8]) -> (r: Result<WorldMapArea, DbcError>)
        ensures
            match r {
                Ok(t) => decode_table::<WorldMapAreaRowV>(b@, ROW_SIZE as u32, FIELD_COUNT as u32)
                    == Ok::<Seq<WorldMapAreaRowV>, DbcError>(t@),
                Err(e) => decode_table::<WorldMapAreaRowV>(b@, ROW_SIZE as u32, FIELD_COUNT as u32)
                    == Err::<Seq<WorldMapAreaRowV>, DbcError>(e),
            },
    {
        let (n, bs, be) = match split_exec(b, ROW_SIZE as u32, FIELD_COUNT as u32) {
            Ok(t) => t,
            Err(e) => {
                return Err(e);
            },
        };
        let ghost region = b@.subrange(20, bs as int);
        let block = vstd::slice::slice_subrange(b, bs, be);
        let mut rows: Vec<WorldMapAreaRow> = Vec::new();
        proof {
            assert(rows_view(rows@) =~= Seq::<WorldMapAreaRowV>::empty());
        }
        let mut i: u32 = 0;
        while i < n
            invariant
                0 <= i <= n,
                rows@.len() == i,
                decode_rows::<WorldMapAreaRowV>(region, block@, i as nat) == Ok::<
                    Seq<WorldMapAreaRowV>,
                    DbcError,
                >(rows_view(rows@)),
            decreases n - i,
        {
            let off: usize = 20 + (i as usize) * ROW_SIZE;
            let rec = vstd::slice::slice_subrange(b, off, off + ROW_SIZE);
            proof {
                assert(rec@ =~= region.subrange(i as int * 32, (i as int + 1) * 32));
            }
            let mut pos: usize = 0;
            let id = WorldMapAreaKey::new(read_u32_le(rec, &mut pos));
            let world_map_continent = WorldMapContinentKey::new(read_u32_le(rec, &mut pos));
            let area_table = AreaTableKey::new(read_u32_le(rec, &mut pos));
            let area_name = match read_string_ref(rec, &mut pos, block) {
                Ok(v) => v,
                Err(e) => {
                    proof {
                        lemma_decode_rows_error::<WorldMapAreaRowV>(region, block@, i as nat, n as nat, e);
                    }
                    return Err(e);
                },
            };
            let location_left = read_u32_le(rec, &mut pos);
            let location_right = read_u32_le(rec, &mut pos);
            let location_top = read_u32_le(rec, &mut pos);
            let location_bottom = read_u32_le(rec, &mut pos);
            let row = WorldMapAreaRow { id, world_map_continent, area_table, area_name, location_left, location_right, location_top, location_bottom };
            let ghost pre = rows@;
            rows.push(row);
            proof {
                assert(WorldMapAreaRowV::decode_row(
                    region.subrange(i as int * 32, (i as int + 1) * 32),
                    block@,
                ) == Ok::<WorldMapAreaRowV, DbcError>(rows@[i as int]@));
                assert(rows_view(rows@) =~= rows_view(pre).push(rows@[i as int]@));
            }
            i = i + 1;
        }
        Ok(WorldMapArea { rows })
    }

    /// Encodes the table: header, records, then the string block. The
    /// emitted bytes decode back to this very table.
    #[verifier::loop_isolation(false)]
    pub fn write(&self) -> (out: Vec<u8>)
        requires
            table_fits::<WorldMapAreaRowV>(self@),
        ensures
            out@ == encode_table::<WorldMapAreaRowV>(self@, FIELD_COUNT as u32),
    {
        let ghost rv = self@;
        let mut out: Vec<u8> = Vec::new();
        let sbs = self.string_block_size();
        let h = DbcHeader {
            record_count: self.rows.len() as u32,
            field_count: FIELD_COUNT as u32,
            record_size: ROW_SIZE as u32,
            string_block_size: sbs,
        };
        write_header(&mut out, &h);
        let mut cursor: u64 = 1;
        let n = self.rows.len();
        let mut i: usize = 0;
        proof {
            assert(rv.take(0) =~= Seq::<WorldMapAreaRowV>::empty());
            assert(rows_slots(rv.take(0)) =~= Seq::<Seq<u8>>::empty());
            assert(block_bytes(Seq::<Seq<u8>>::empty()) =~= Seq::<u8>::empty());
            assert(encode_rows::<WorldMapAreaRowV>(rv.take(0), 1) =~= Seq::<u8>::empty());
            assert(out@ =~= header_bytes(h) + encode_rows::<WorldMapAreaRowV>(rv.take(0), 1));
        }
        while i < n
            invariant
                0 <= i <= n,
                n == self.rows@.len(),
                out@ == header_bytes(h) + encode_rows::<WorldMapAreaRowV>(rv.take(i as int), 1),
                cursor == 1 + block_len(rows_slots(rv.take(i as int))),
            decreases n - i,
        {
            let row = &self.rows[i];
            proof {
                lemma_rows_block_at::<WorldMapAreaRowV>(rv, i as int);
                lemma_block_bytes_single(str_bytes(rv[i as int].area_name));
            }
            push_u32_le(&mut out, row.id.id);
            push_u32_le(&mut out, row.world_map_continent.id);
            push_u32_le(&mut out, row.area_table.id);
            write_string_ref(&mut out, &row.area_name, &mut cursor);
            push_u32_le(&mut out, row.location_left);
            push_u32_le(&mut out, row.location_right);
            push_u32_le(&mut out, row.location_top);
            push_u32_le(&mut out, row.location_bottom);
            proof {
                lemma_encode_rows_push::<WorldMapAreaRowV>(rv.take(i as int), rv[i as int], 1);
                lemma_rows_slots_push::<WorldMapAreaRowV>(rv.take(i as int), rv[i as int]);
                lemma_block_bytes_concat(rows_slots(rv.take(i as int)), rv[i as int].slots());
                assert(rv.take(i as int).push(rv[i as int]) =~= rv.take(i + 1));
                assert(out@ =~= header_bytes(h) + encode_rows::<WorldMapAreaRowV>(rv.take(i + 1), 1));
            }
            i = i + 1;
        }
        self.write_string_block(&mut out);
        proof {
            assert(rv.take(n as int) =~= rv);
            assert(out@ =~= encode_table::<WorldMapAreaRowV>(self@, FIELD_COUNT as u32));
        }
        out
    }

    /// Appends the string block: the sentinel NUL, then every non-empty
    /// string in traversal order.
    #[verifier::loop_isolation(false)]
    fn write_string_block(&self, out: &mut Vec<u8>)
        ensures
            final(out)@ == old(out)@ + table_block::<WorldMapAreaRowV>(self@),
    {
        let ghost rv = self@;
        out.push(0);
        let n = self.rows.len();
        let mut i: usize = 0;
        proof {
            assert(rows_slots(rv.take(0)) =~= Seq::<Seq<u8>>::empty());
            assert(block_bytes(Seq::<Seq<u8>>::empty()) =~= Seq::<u8>::empty());
            assert(out@ =~= old(out)@ + seq![0u8] + block_bytes(rows_slots(rv.take(0))));
        }
        while i < n
            invariant
                0 <= i <= n,
                n == self.rows@.len(),
                out@ == old(out)@ + seq![0u8] + block_bytes(rows_slots(rv.take(i as int))),
            decreases n - i,
        {
            push_block_slot(out, &self.rows[i].area_name);
            proof {
                lemma_block_bytes_single(str_bytes(rv[i as int].area_name));
                lemma_rows_slots_push::<WorldMapAreaRowV>(rv.take(i as int), rv[i as int]);
                lemma_block_bytes_concat(rows_slots(rv.take(i as int)), rv[i as int].slots());
                assert(rv.take(i as int).push(rv[i as int]) =~= rv.take(i + 1));
                assert(out@ =~= old(out)@ + seq![0u8] + block_bytes(rows_slots(rv.take(i + 1))));
            }
            i = i + 1;
        }
        proof {
            assert(rv.take(n as int) =~= rv);
        }
    }

    /// The string block size the header will carry.
    #[verifier::loop_isolation(false)]
    fn string_block_size(&self) -> (r: u32)
        requires
            table_fits::<WorldMapAreaRowV>(self@),
        ensures
            r == 1 + block_len(rows_slots(self@)),
    {
        let ghost rv = self@;
        let mut sum: u64 = 1;
        let n = self.rows.len();
        let mut i: usize = 0;
        proof {
            assert(rows_slots(rv.take(0)) =~= Seq::<Seq<u8>>::empty());
            assert(block_bytes(Seq::<Seq<u8>>::empty()) =~= Seq::<u8>::empty());
        }
        while i < n
            invariant
                0 <= i <= n,
                n == self.rows@.len(),
                sum == 1 + block_len(rows_slots(rv.take(i as int))),
            decreases n - i,
        {
            proof {
                lemma_rows_block_at::<WorldMapAreaRowV>(rv, i as int);
                lemma_block_bytes_single(str_bytes(rv[i as int].area_name));
            }
            let extra0 = slot_size(&self.rows[i].area_name);
            sum = sum + extra0;
            proof {
                lemma_rows_slots_push::<WorldMapAreaRowV>(rv.take(i as int), rv[i as int]);
                lemma_block_bytes_concat(rows_slots(rv.take(i as int)), rv[i as int].slots());
                assert(rv.take(i as int).push(rv[i as int]) =~= rv.take(i + 1));
            }
            i = i + 1;
        }
        proof {
            assert(rv.take(n as int) =~= rv);
        }
        sum as u32
    }
}

/// Round trip: writing any well-formed table and reading the result yields
/// the same rows.
pub proof fn lemma_world_map_area_round_trip(rows: Seq<WorldMapAreaRowV>)
    requires
        table_wf(rows),
        table_fits::<WorldMapAreaRowV>(rows),
    ensures
        decode_table::<WorldMapAreaRowV>(
            encode_table(rows, FIELD_COUNT as u32),
            ROW_SIZE as u32,
            FIELD_COUNT as u32,
        ) == Ok::<Seq<WorldMapAreaRowV>, DbcError>(rows),
{
    assert(rows_wf(rows));
    lemma_table_round_trip(rows, FIELD_COUNT as u32);
}

} // verus!
