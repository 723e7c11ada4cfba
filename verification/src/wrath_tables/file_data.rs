//! The `FileData` table: a primary key and two path strings per row.

use vstd::prelude::*;
use crate::DbcError;
use crate::codec::{
    RowCodec, decode_table, encode_table, decode_rows, encode_rows, rows_slots, rows_wf,
    table_block,
    table_wf, table_fits, split_exec, lemma_decode_rows_error, lemma_encode_rows_push,
    lemma_rows_slots_push, lemma_rows_block_at, lemma_table_round_trip,
};
use crate::header::{DbcHeader, header_bytes, write_header};
use crate::string_block::{
    str_bytes, slot_off, slot_enc, block_len, block_bytes, decode_str, read_string_ref,
    write_string_ref, push_block_slot, slot_size, lemma_block_bytes_single,
    lemma_block_bytes_concat,
};
use crate::str_list::lemma_decode_written_slot;
use crate::util::{
    find_first, lemma_find_first_hit, lemma_find_first_miss,
    u32_le, u32_at, i32_at, read_i32_le, push_i32_le, lemma_i32_at_of_le, lemma_u32_at_of_le,
    lemma_u32_le_len,
};

verus! {

pub const FILENAME: &'static str = "FileData.dbc";

pub const FIELD_COUNT: usize = 3;

pub const ROW_SIZE: usize = 12;

/// The typed primary key of `FileData`.
#[derive(Debug, Clone, Copy, PartialEq, Eq, PartialOrd, Ord, Hash, Default, Structural)]
pub struct FileDataKey {
    pub id: i32,
}

impl FileDataKey {
    pub fn new(id: i32) -> (r: Self)
        ensures
            r.id == id,
    {
        Self { id }
    }
}

impl From<u8> for FileDataKey {
    fn from(v: u8) -> (r: Self) {
        Self::new(v as i32)
    }
}

impl vstd::std_specs::convert::FromSpecImpl<u8> for FileDataKey {
    open spec fn obeys_from_spec() -> bool {
        true
    }

    open spec fn from_spec(v: u8) -> Self {
        FileDataKey { id: v as i32 }
    }
}

impl From<u16> for FileDataKey {
    fn from(v: u16) -> (r: Self) {
        Self::new(v as i32)
    }
}

impl vstd::std_specs::convert::FromSpecImpl<u16> for FileDataKey {
    open spec fn obeys_from_spec() -> bool {
        true
    }

    open spec fn from_spec(v: u16) -> Self {
        FileDataKey { id: v as i32 }
    }
}

impl From<i8> for FileDataKey {
    fn from(v: i8) -> (r: Self) {
        Self::new(v as i32)
    }
}

impl vstd::std_specs::convert::FromSpecImpl<i8> for FileDataKey {
    open spec fn obeys_from_spec() -> bool {
        true
    }

    open spec fn from_spec(v: i8) -> Self {
        FileDataKey { id: v as i32 }
    }
}

impl From<i16> for FileDataKey {
    fn from(v: i16) -> (r: Self) {
        Self::new(v as i32)
    }
}

impl vstd::std_specs::convert::FromSpecImpl<i16> for FileDataKey {
    open spec fn obeys_from_spec() -> bool {
        true
    }

    open spec fn from_spec(v: i16) -> Self {
        FileDataKey { id: v as i32 }
    }
}

impl From<i32> for FileDataKey {
    fn from(v: i32) -> (r: Self) {
        Self::new(v)
    }
}

impl vstd::std_specs::convert::FromSpecImpl<i32> for FileDataKey {
    open spec fn obeys_from_spec() -> bool {
        true
    }

    open spec fn from_spec(v: i32) -> Self {
        FileDataKey { id: v }
    }
}

impl TryFrom<u32> for FileDataKey {
    type Error = u32;

    fn try_from(v: u32) -> (r: Result<Self, u32>) {
        if v <= i32::MAX as u32 {
            Ok(Self::new(v as i32))
        } else {
            Err(v)
        }
    }
}

impl vstd::std_specs::convert::TryFromSpecImpl<u32> for FileDataKey {
    open spec fn obeys_try_from_spec() -> bool {
        true
    }

    open spec fn try_from_spec(v: u32) -> Result<Self, u32> {
        if v <= i32::MAX as u32 {
            Ok(FileDataKey { id: v as i32 })
        } else {
            Err(v)
        }
    }
}

impl TryFrom<u64> for FileDataKey {
    type Error = u64;

    fn try_from(v: u64) -> (r: Result<Self, u64>) {
        if v <= i32::MAX as u64 {
            Ok(Self::new(v as i32))
        } else {
            Err(v)
        }
    }
}

impl vstd::std_specs::convert::TryFromSpecImpl<u64> for FileDataKey {
    open spec fn obeys_try_from_spec() -> bool {
        true
    }

    open spec fn try_from_spec(v: u64) -> Result<Self, u64> {
        if v <= i32::MAX as u64 {
            Ok(FileDataKey { id: v as i32 })
        } else {
            Err(v)
        }
    }
}

impl TryFrom<usize> for FileDataKey {
    type Error = usize;

    fn try_from(v: usize) -> (r: Result<Self, usize>) {
        if v <= i32::MAX as usize {
            Ok(Self::new(v as i32))
        } else {
            Err(v)
        }
    }
}

impl vstd::std_specs::convert::TryFromSpecImpl<usize> for FileDataKey {
    open spec fn obeys_try_from_spec() -> bool {
        true
    }

    open spec fn try_from_spec(v: usize) -> Result<Self, usize> {
        if v <= i32::MAX as usize {
            Ok(FileDataKey { id: v as i32 })
        } else {
            Err(v)
        }
    }
}

impl TryFrom<i64> for FileDataKey {
    type Error = i64;

    fn try_from(v: i64) -> (r: Result<Self, i64>) {
        if i32::MIN as i64 <= v && v <= i32::MAX as i64 {
            Ok(Self::new(v as i32))
        } else {
            Err(v)
        }
    }
}

impl vstd::std_specs::convert::TryFromSpecImpl<i64> for FileDataKey {
    open spec fn obeys_try_from_spec() -> bool {
        true
    }

    open spec fn try_from_spec(v: i64) -> Result<Self, i64> {
        if i32::MIN as i64 <= v && v <= i32::MAX as i64 {
            Ok(FileDataKey { id: v as i32 })
        } else {
            Err(v)
        }
    }
}

impl TryFrom<isize> for FileDataKey {
    type Error = isize;

    fn try_from(v: isize) -> (r: Result<Self, isize>) {
        if i32::MIN as isize <= v && v <= i32::MAX as isize {
            Ok(Self::new(v as i32))
        } else {
            Err(v)
        }
    }
}

impl vstd::std_specs::convert::TryFromSpecImpl<isize> for FileDataKey {
    open spec fn obeys_try_from_spec() -> bool {
        true
    }

    open spec fn try_from_spec(v: isize) -> Result<Self, isize> {
        if i32::MIN as isize <= v && v <= i32::MAX as isize {
            Ok(FileDataKey { id: v as i32 })
        } else {
            Err(v)
        }
    }
}

/// One row: key, file name, file path.
#[derive(Debug, Clone, PartialEq, Eq, PartialOrd, Ord, Hash)]
pub struct FileDataRow {
    pub id: FileDataKey,
    pub filename: String,
    pub filepath: String,
}

/// The mathematical view of a row.
pub struct FileDataRowV {
    pub id: FileDataKey,
    pub filename: Seq<char>,
    pub filepath: Seq<char>,
}

impl View for FileDataRow {
    type V = FileDataRowV;

    open spec fn view(&self) -> FileDataRowV {
        FileDataRowV { id: self.id, filename: self.filename@, filepath: self.filepath@ }
    }
}

impl RowCodec for FileDataRowV {
    open spec fn row_size() -> int {
        12
    }

    open spec fn row_wf(self) -> bool {
        true
    }

    open spec fn decode_row(rec: Seq<u8>, block: Seq<u8>) -> Result<Self, DbcError> {
        match decode_str(block, u32_at(rec, 4)) {
            Err(e) => Err(e),
            Ok(filename) => match decode_str(block, u32_at(rec, 8)) {
                Err(e) => Err(e),
                Ok(filepath) => Ok(
                    FileDataRowV { id: FileDataKey { id: i32_at(rec, 0) }, filename, filepath },
                ),
            },
        }
    }

    open spec fn slots(self) -> Seq<Seq<u8>> {
        seq![str_bytes(self.filename), str_bytes(self.filepath)]
    }

    open spec fn rec_bytes(self, c: int) -> Seq<u8> {
        u32_le(self.id.id as u32) + u32_le(slot_off(str_bytes(self.filename), c)) + u32_le(
            slot_off(str_bytes(self.filepath), c + slot_enc(str_bytes(self.filename)).len()),
        )
    }

    proof fn lemma_rec_bytes_len(self, c: int) {
        lemma_u32_le_len(self.id.id as u32);
        lemma_u32_le_len(slot_off(str_bytes(self.filename), c));
        lemma_u32_le_len(
            slot_off(str_bytes(self.filepath), c + slot_enc(str_bytes(self.filename)).len()),
        );
    }

    proof fn lemma_row_round_trip(self, block: Seq<u8>, c: int) {
        let rec = self.rec_bytes(c);
        let s1 = str_bytes(self.filename);
        let s2 = str_bytes(self.filepath);
        let c2 = c + slot_enc(s1).len();
        lemma_u32_le_len(self.id.id as u32);
        lemma_u32_le_len(slot_off(s1, c));
        lemma_u32_le_len(slot_off(s2, c2));
        assert(rec.subrange(0, 4) =~= u32_le(self.id.id as u32));
        lemma_i32_at_of_le(rec, 0, self.id.id);
        assert(rec.subrange(4, 8) =~= u32_le(slot_off(s1, c)));
        lemma_u32_at_of_le(rec, 4, slot_off(s1, c));
        assert(rec.subrange(8, 12) =~= u32_le(slot_off(s2, c2)));
        lemma_u32_at_of_le(rec, 8, slot_off(s2, c2));
        assert(self.slots()[0] == s1 && self.slots()[1] == s2);
        crate::str_list::lemma_block_slot_at(block, c, self.slots(), 0);
        crate::str_list::lemma_block_slot_at(block, c, self.slots(), 1);
        assert(self.slots().take(0) =~= Seq::<Seq<u8>>::empty());
        assert(block_bytes(Seq::<Seq<u8>>::empty()) =~= Seq::<u8>::empty());
        assert(self.slots().take(1) =~= seq![s1]);
        lemma_block_bytes_single(s1);
        lemma_decode_written_slot(block, c, self.filename);
        lemma_decode_written_slot(block, c2, self.filepath);
    }
}

/// The table: a sequence of rows.
#[derive(Debug, Clone, PartialEq, Eq, PartialOrd, Ord, Hash)]
pub struct FileData {
    pub rows: Vec<FileDataRow>,
}

/// The views of a row sequence.
pub open spec fn rows_view(rows: Seq<FileDataRow>) -> Seq<FileDataRowV> {
    rows.map_values(|r: FileDataRow| r@)
}

impl View for FileData {
    type V = Seq<FileDataRowV>;

    open spec fn view(&self) -> Seq<FileDataRowV> {
        rows_view(self.rows@)
    }
}

impl FileData {
    /// The rows of the table.
    pub fn rows(&self) -> (r: &Vec<FileDataRow>)
        ensures
            r@ == self.rows@,
    {
        &self.rows
    }

    /// The rows of the table, borrowed for in-place mutation.
    pub fn rows_mut(&mut self) -> (r: &mut Vec<FileDataRow>)
        ensures
            *r == old(self).rows,
            final(self).rows == *final(r),
    {
        &mut self.rows
    }

    /// Where the first row with primary key `key` stands, if anywhere.
    pub open spec fn key_index(rows: Seq<FileDataRow>, key: FileDataKey) -> Option<int> {
        find_first(rows, |r: FileDataRow| r.id == key)
    }

    /// The position of the first row whose primary key equals `key`.
    #[verifier::loop_isolation(false)]
    fn key_pos(&self, key: FileDataKey) -> (r: Option<usize>)
        ensures
            match r {
                Some(i) => Self::key_index(self.rows@, key) == Some(i as int) && i
                    < self.rows@.len(),
                None => Self::key_index(self.rows@, key) is None,
            },
    {
        let ghost p = |r: FileDataRow| r.id == key;
        let n = self.rows.len();
        let mut i: usize = 0;
        while i < n
            invariant
                0 <= i <= n,
                n == self.rows@.len(),
                forall|j: int| 0 <= j < i ==> !p(self.rows@[j]),
            decreases n - i,
        {
            if self.rows[i].id.id == key.id {
                proof {
                    assert(p(self.rows@[i as int]));
                    lemma_find_first_hit(self.rows@, p, i as int);
                }
                return Some(i);
            }
            proof {
                assert(self.rows@[i as int].id != key);
            }
            i = i + 1;
        }
        proof {
            lemma_find_first_miss(self.rows@, p);
        }
        None
    }

    /// The first row whose primary key equals `key`, if any.
    pub fn get(&self, key: FileDataKey) -> (r: Option<&FileDataRow>)
        ensures
            match r {
                Some(row) => Self::key_index(self.rows@, key) matches Some(i) && *row
                    == self.rows@[i],
                None => Self::key_index(self.rows@, key) is None,
            },
    {
        match self.key_pos(key) {
            Some(i) => Some(&self.rows[i]),
            None => None,
        }
    }

    /// The first row whose primary key equals `key`, borrowed for mutation.
    pub fn get_mut(&mut self, key: FileDataKey) -> (r: Option<&mut FileDataRow>)
        ensures
            match r {
                Some(row) => Self::key_index(old(self).rows@, key) matches Some(i) && *row == old(
                    self,
                ).rows@[i] && final(self).rows@ == old(self).rows@.update(i, *final(row)),
                None => {
                    &&& *final(self) == *old(self)
                    &&& Self::key_index(old(self).rows@, key) is None
                },
            },
    {
        match self.key_pos(key) {
            Some(i) => Some(&mut self.rows[i]),
            None => None,
        }
    }

    /// Decodes a whole DBC byte stream into the table, or reports exactly
    /// why it cannot be decoded.
    #[verifier::loop_isolation(false)]
    pub fn read(b: &[u8]) -> (r: Result<FileData, DbcError>)
        ensures
            match r {
                Ok(t) => decode_table::<FileDataRowV>(b@, ROW_SIZE as u32, FIELD_COUNT as u32)
                    == Ok::<Seq<FileDataRowV>, DbcError>(t@),
                Err(e) => decode_table::<FileDataRowV>(b@, ROW_SIZE as u32, FIELD_COUNT as u32)
                    == Err::<Seq<FileDataRowV>, DbcError>(e),
            },
    {
        let (n, bs, be) = match split_exec(b, ROW_SIZE as u32, FIELD_COUNT as u32) {
            Ok(t) => t,
            Err(e) => {
                return Err(e);
            },
        };
        let ghost region = b@.subrange(20, bs as int);
        let block = vstd::slice::slice_subrange(b, bs, be);
        let mut rows: Vec<FileDataRow> = Vec::new();
        proof {
            assert(rows_view(rows@) =~= Seq::<FileDataRowV>::empty());
        }
        let mut i: u32 = 0;
        while i < n
            invariant
                0 <= i <= n,
                rows@.len() == i,
                decode_rows::<FileDataRowV>(region, block@, i as nat) == Ok::<
                    Seq<FileDataRowV>,
                    DbcError,
                >(rows_view(rows@)),
            decreases n - i,
        {
            let off: usize = 20 + (i as usize) * ROW_SIZE;
            let rec = vstd::slice::slice_subrange(b, off, off + ROW_SIZE);
            proof {
                assert(rec@ =~= region.subrange(i as int * 12, (i as int + 1) * 12));
            }
            let mut pos: usize = 0;
            let id = FileDataKey::new(read_i32_le(rec, &mut pos));
            let filename = match read_string_ref(rec, &mut pos, block) {
                Ok(s) => s,
                Err(e) => {
                    proof {
                        lemma_decode_rows_error::<FileDataRowV>(region, block@, i as nat, n as nat, e);
                    }
                    return Err(e);
                },
            };
            let filepath = match read_string_ref(rec, &mut pos, block) {
                Ok(s) => s,
                Err(e) => {
                    proof {
                        lemma_decode_rows_error::<FileDataRowV>(region, block@, i as nat, n as nat, e);
                    }
                    return Err(e);
                },
            };
            let row = FileDataRow { id, filename, filepath };
            let ghost pre = rows@;
            rows.push(row);
            proof {
                assert(FileDataRowV::decode_row(
                    region.subrange(i as int * 12, (i as int + 1) * 12),
                    block@,
                ) == Ok::<FileDataRowV, DbcError>(rows@[i as int]@));
                assert(rows_view(rows@) =~= rows_view(pre).push(rows@[i as int]@));
            }
            i = i + 1;
        }
        Ok(FileData { rows })
    }

    /// Encodes the table: header, records, then the string block. The
    /// emitted bytes decode back to this very table.
    #[verifier::loop_isolation(false)]
    pub fn write(&self) -> (out: Vec<u8>)
        requires
            table_fits::<FileDataRowV>(self@),
        ensures
            out@ == encode_table::<FileDataRowV>(self@, FIELD_COUNT as u32),
    {
        let ghost rv = self@;
        let mut out: Vec<u8> = Vec::new();
        let sbs = self.string_block_size();
        let h = DbcHeader {
            record_count: self.rows.len() as u32,
            field_count: FIELD_COUNT as u32,
            record_size: ROW_SIZE as u32,
            string_block_size: sbs,
        };
        write_header(&mut out, &h);
        let mut cursor: u64 = 1;
        let n = self.rows.len();
        let mut i: usize = 0;
        proof {
            assert(rv.take(0) =~= Seq::<FileDataRowV>::empty());
            assert(rows_slots(rv.take(0)) =~= Seq::<Seq<u8>>::empty());
            assert(block_bytes(Seq::<Seq<u8>>::empty()) =~= Seq::<u8>::empty());
            assert(encode_rows::<FileDataRowV>(rv.take(0), 1) =~= Seq::<u8>::empty());
            assert(out@ =~= header_bytes(h) + encode_rows::<FileDataRowV>(rv.take(0), 1));
        }
        while i < n
            invariant
                0 <= i <= n,
                n == self.rows@.len(),
                out@ == header_bytes(h) + encode_rows::<FileDataRowV>(rv.take(i as int), 1),
                cursor == 1 + block_len(rows_slots(rv.take(i as int))),
            decreases n - i,
        {
            let row = &self.rows[i];
            let ghost s1 = str_bytes(rv[i as int].filename);
            let ghost s2 = str_bytes(rv[i as int].filepath);
            proof {
                lemma_rows_block_at::<FileDataRowV>(rv, i as int);
                assert(rv[i as int].slots().drop_first() =~= seq![s2]);
                lemma_block_bytes_single(s2);
                assert(block_bytes(rv[i as int].slots()) =~= slot_enc(s1) + slot_enc(s2));
            }
            push_i32_le(&mut out, row.id.id);
            write_string_ref(&mut out, &row.filename, &mut cursor);
            write_string_ref(&mut out, &row.filepath, &mut cursor);
            proof {
                lemma_encode_rows_push::<FileDataRowV>(rv.take(i as int), rv[i as int], 1);
                lemma_rows_slots_push::<FileDataRowV>(rv.take(i as int), rv[i as int]);
                lemma_block_bytes_concat(rows_slots(rv.take(i as int)), rv[i as int].slots());
                assert(rv.take(i as int).push(rv[i as int]) =~= rv.take(i + 1));
                assert(out@ =~= header_bytes(h) + encode_rows::<FileDataRowV>(rv.take(i + 1), 1));
            }
            i = i + 1;
        }
        self.write_string_block(&mut out);
        proof {
            assert(rv.take(n as int) =~= rv);
            assert(out@ =~= encode_table::<FileDataRowV>(self@, FIELD_COUNT as u32));
        }
        out
    }

    /// Appends the string block: the sentinel NUL, then every non-empty
    /// string in traversal order.
    #[verifier::loop_isolation(false)]
    fn write_string_block(&self, out: &mut Vec<u8>)
        ensures
            final(out)@ == old(out)@ + table_block::<FileDataRowV>(self@),
    {
        let ghost rv = self@;
        out.push(0);
        let n = self.rows.len();
        let mut i: usize = 0;
        proof {
            assert(rows_slots(rv.take(0)) =~= Seq::<Seq<u8>>::empty());
            assert(block_bytes(Seq::<Seq<u8>>::empty()) =~= Seq::<u8>::empty());
            assert(out@ =~= old(out)@ + seq![0u8] + block_bytes(rows_slots(rv.take(0))));
        }
        while i < n
            invariant
                0 <= i <= n,
                n == self.rows@.len(),
                out@ == old(out)@ + seq![0u8] + block_bytes(rows_slots(rv.take(i as int))),
            decreases n - i,
        {
            push_block_slot(out, &self.rows[i].filename);
            push_block_slot(out, &self.rows[i].filepath);
            proof {
                let ghost s1 = str_bytes(rv[i as int].filename);
                let ghost s2 = str_bytes(rv[i as int].filepath);
                lemma_rows_slots_push::<FileDataRowV>(rv.take(i as int), rv[i as int]);
                lemma_block_bytes_concat(rows_slots(rv.take(i as int)), rv[i as int].slots());
                assert(rv[i as int].slots().drop_first() =~= seq![s2]);
                lemma_block_bytes_single(s2);
                assert(block_bytes(rv[i as int].slots()) =~= slot_enc(s1) + slot_enc(s2));
                assert(rv.take(i as int).push(rv[i as int]) =~= rv.take(i + 1));
                assert(out@ =~= old(out)@ + seq![0u8] + block_bytes(rows_slots(rv.take(i + 1))));
            }
            i = i + 1;
        }
        proof {
            assert(rv.take(n as int) =~= rv);
        }
    }

    /// The string block size the header will carry.
    #[verifier::loop_isolation(false)]
    fn string_block_size(&self) -> (r: u32)
        requires
            table_fits::<FileDataRowV>(self@),
        ensures
            r == 1 + block_len(rows_slots(self@)),
    {
        let ghost rv = self@;
        let mut sum: u64 = 1;
        let n = self.rows.len();
        let mut i: usize = 0;
        proof {
            assert(rows_slots(rv.take(0)) =~= Seq::<Seq<u8>>::empty());
            assert(block_bytes(Seq::<Seq<u8>>::empty()) =~= Seq::<u8>::empty());
        }
        while i < n
            invariant
                0 <= i <= n,
                n == self.rows@.len(),
                sum == 1 + block_len(rows_slots(rv.take(i as int))),
            decreases n - i,
        {
            let ghost s1 = str_bytes(rv[i as int].filename);
            let ghost s2 = str_bytes(rv[i as int].filepath);
            proof {
                lemma_rows_block_at::<FileDataRowV>(rv, i as int);
                assert(rv[i as int].slots().drop_first() =~= seq![s2]);
                lemma_block_bytes_single(s2);
                assert(block_bytes(rv[i as int].slots()) =~= slot_enc(s1) + slot_enc(s2));
            }
            let extra1 = slot_size(&self.rows[i].filename);
            let extra2 = slot_size(&self.rows[i].filepath);
            sum = sum + extra1 + extra2;
            proof {
                lemma_rows_slots_push::<FileDataRowV>(rv.take(i as int), rv[i as int]);
                lemma_block_bytes_concat(rows_slots(rv.take(i as int)), rv[i as int].slots());
                assert(rv.take(i as int).push(rv[i as int]) =~= rv.take(i + 1));
            }
            i = i + 1;
        }
        proof {
            assert(rv.take(n as int) =~= rv);
        }
        sum as u32
    }
}

/// Round trip: writing any well-formed table and reading the result yields
/// the same rows.
pub proof fn lemma_file_data_round_trip(rows: Seq<FileDataRowV>)
    requires
        table_wf(rows),
        table_fits::<FileDataRowV>(rows),
    ensures
        decode_table::<FileDataRowV>(
            encode_table(rows, FIELD_COUNT as u32),
            ROW_SIZE as u32,
            FIELD_COUNT as u32,
        ) == Ok::<Seq<FileDataRowV>, DbcError>(rows),
{
    assert(rows_wf(rows));
    lemma_table_round_trip(rows, FIELD_COUNT as u32);
}

} // verus!
