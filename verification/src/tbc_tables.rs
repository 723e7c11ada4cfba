//! Tables of the second game version.

pub mod attack_anim_types;
pub mod lock_type;
pub mod sound_entries;

use vstd::prelude::*;
use crate::DbcError;
use crate::codec::{decode_table, encode_table, table_fits};
use crate::util::bytes_eq;

verus! {

/// The name of one table of this version, used to load tables dynamically.
#[derive(Debug, Clone, Copy, PartialEq, Eq, Hash, Structural)]
pub enum TbcTableName {
    AttackAnimTypes,
    LockType,
    SoundEntries,
}

/// The exact name string of each table.
pub open spec fn table_name_chars(n: TbcTableName) -> Seq<char> {
    match n {
        TbcTableName::AttackAnimTypes => "AttackAnimTypes"@,
        TbcTableName::LockType => "LockType"@,
        TbcTableName::SoundEntries => "SoundEntries"@,
    }
}

/// What parsing a candidate table name yields: the table whose exact name
/// it is, if any.
pub open spec fn parse_table_name(s: Seq<char>) -> Option<TbcTableName> {
    if s == "AttackAnimTypes"@ {
        Some(TbcTableName::AttackAnimTypes)
    } else if s == "LockType"@ {
        Some(TbcTableName::LockType)
    } else if s == "SoundEntries"@ {
        Some(TbcTableName::SoundEntries)
    } else {
        None
    }
}

impl TbcTableName {
    /// The table name as text.
    pub fn name(&self) -> (r: &'static str)
        ensures
            r@ == table_name_chars(*self),
    {
        match self {
            TbcTableName::AttackAnimTypes => "AttackAnimTypes",
            TbcTableName::LockType => "LockType",
            TbcTableName::SoundEntries => "SoundEntries",
        }
    }

    /// Parses an exact table name; any other string is an
    /// `InvalidTableName` error carrying that string.
    pub fn from_name(s: String) -> (r: Result<TbcTableName, DbcError>)
        ensures
            match r {
                Ok(v) => parse_table_name(s@) == Some(v) && s@ == table_name_chars(v),
                Err(e) => {
                    &&& parse_table_name(s@) is None
                    &&& e matches DbcError::InvalidTableName(t) && t@ == s@
                },
            },
    {
        if bytes_eq(s.as_str().as_bytes(), "AttackAnimTypes".as_bytes()) {
            proof {
                vstd::utf8::encode_utf8_decode_utf8(s@);
                vstd::utf8::encode_utf8_decode_utf8("AttackAnimTypes"@);
            }
            Ok(TbcTableName::AttackAnimTypes)
        } else if bytes_eq(s.as_str().as_bytes(), "LockType".as_bytes()) {
            proof {
                vstd::utf8::encode_utf8_decode_utf8(s@);
                vstd::utf8::encode_utf8_decode_utf8("LockType"@);
            }
            Ok(TbcTableName::LockType)
        } else if bytes_eq(s.as_str().as_bytes(), "SoundEntries".as_bytes()) {
            proof {
                vstd::utf8::encode_utf8_decode_utf8(s@);
                vstd::utf8::encode_utf8_decode_utf8("SoundEntries"@);
            }
            Ok(TbcTableName::SoundEntries)
        } else {
            proof {
                assert(s@ != "AttackAnimTypes"@);
                assert(s@ != "LockType"@);
                assert(s@ != "SoundEntries"@);
            }
            Err(DbcError::InvalidTableName(s))
        }
    }

    /// Reads the table this name denotes from a full DBC byte stream.
    pub fn load(self, b: &[u8]) -> (r: Result<TbcTable, DbcError>)
        ensures
            match self {
                TbcTableName::AttackAnimTypes => match r {
                    Ok(t) => t matches TbcTable::AttackAnimTypes(x) && decode_table::<
                        attack_anim_types::AttackAnimTypesRowV,
                    >(b@, attack_anim_types::ROW_SIZE as u32, attack_anim_types::FIELD_COUNT as u32) == Ok::<
                        Seq<attack_anim_types::AttackAnimTypesRowV>,
                        DbcError,
                    >(x@),
                    Err(e) => decode_table::<attack_anim_types::AttackAnimTypesRowV>(
                        b@,
                        attack_anim_types::ROW_SIZE as u32,
                        attack_anim_types::FIELD_COUNT as u32,
                    ) == Err::<Seq<attack_anim_types::AttackAnimTypesRowV>, DbcError>(e),
                },
                TbcTableName::LockType => match r {
                    Ok(t) => t matches TbcTable::LockType(x) && decode_table::<
                        lock_type::LockTypeRowV,
                    >(b@, lock_type::ROW_SIZE as u32, lock_type::FIELD_COUNT as u32) == Ok::<
                        Seq<lock_type::LockTypeRowV>,
                        DbcError,
                    >(x@),
                    Err(e) => decode_table::<lock_type::LockTypeRowV>(
                        b@,
                        lock_type::ROW_SIZE as u32,
                        lock_type::FIELD_COUNT as u32,
                    ) == Err::<Seq<lock_type::LockTypeRowV>, DbcError>(e),
                },
                TbcTableName::SoundEntries => match r {
                    Ok(t) => t matches TbcTable::SoundEntries(x) && decode_table::<
                        sound_entries::SoundEntriesRowV,
                    >(b@, sound_entries::ROW_SIZE as u32, sound_entries::FIELD_COUNT as u32) == Ok::<
                        Seq<sound_entries::SoundEntriesRowV>,
                        DbcError,
                    >(x@),
                    Err(e) => decode_table::<sound_entries::SoundEntriesRowV>(
                        b@,
                        sound_entries::ROW_SIZE as u32,
                        sound_entries::FIELD_COUNT as u32,
                    ) == Err::<Seq<sound_entries::SoundEntriesRowV>, DbcError>(e),
                },
            },
    {
        match self {
            TbcTableName::AttackAnimTypes => match attack_anim_types::AttackAnimTypes::read(b) {
                Ok(t) => Ok(TbcTable::AttackAnimTypes(t)),
                Err(e) => Err(e),
            },
            TbcTableName::LockType => match lock_type::LockType::read(b) {
                Ok(t) => Ok(TbcTable::LockType(t)),
                Err(e) => Err(e),
            },
            TbcTableName::SoundEntries => match sound_entries::SoundEntries::read(b) {
                Ok(t) => Ok(TbcTable::SoundEntries(t)),
                Err(e) => Err(e),
            },
        }
    }
}

impl core::str::FromStr for TbcTableName {
    type Err = DbcError;

    fn from_str(s: &str) -> Result<TbcTableName, DbcError> {
        TbcTableName::from_name(s.to_owned())
    }
}

/// One loaded table of this version, whichever table it is.
#[derive(Debug, Clone, PartialEq)]
pub enum TbcTable {
    AttackAnimTypes(attack_anim_types::AttackAnimTypes),
    LockType(lock_type::LockType),
    SoundEntries(sound_entries::SoundEntries),
}

impl TbcTable {
    /// Encodes whichever table this is.
    pub fn write(&self) -> (out: Vec<u8>)
        requires
            match self {
                TbcTable::AttackAnimTypes(t) => table_fits::<attack_anim_types::AttackAnimTypesRowV>(t@),
                TbcTable::LockType(t) => table_fits::<lock_type::LockTypeRowV>(t@),
                TbcTable::SoundEntries(t) => table_fits::<
                    sound_entries::SoundEntriesRowV,
                >(t@) && crate::codec::rows_wf(t@),
            },
        ensures
            match self {
                TbcTable::AttackAnimTypes(t) => out@ == encode_table::<attack_anim_types::AttackAnimTypesRowV>(
                    t@,
                    attack_anim_types::FIELD_COUNT as u32,
                ),
                TbcTable::LockType(t) => out@ == encode_table::<lock_type::LockTypeRowV>(
                    t@,
                    lock_type::FIELD_COUNT as u32,
                ),
                TbcTable::SoundEntries(t) => out@ == encode_table::<sound_entries::SoundEntriesRowV>(
                    t@,
                    sound_entries::FIELD_COUNT as u32,
                ),
            },
    {
        match self {
            TbcTable::AttackAnimTypes(t) => t.write(),
            TbcTable::LockType(t) => t.write(),
            TbcTable::SoundEntries(t) => t.write(),
        }
    }
}

/// Every table name parses back to itself, and only exact names parse.
pub proof fn lemma_table_name_round_trip(v: TbcTableName)
    ensures
        parse_table_name(table_name_chars(v)) == Some(v),
{
    reveal_strlit("AttackAnimTypes");
    reveal_strlit("LockType");
    reveal_strlit("SoundEntries");
    assert("AttackAnimTypes"@.len() == 15);
    assert("LockType"@.len() == 8);
    assert("SoundEntries"@.len() == 12);
}

} // verus!
