//! Tables of the third game version.

pub mod achievement_category;
pub mod dungeon_encounter;
pub mod file_data;
pub mod gt_chance_to_spell_crit_base;
pub mod map;
pub mod spell_icon;

use vstd::prelude::*;
use crate::DbcError;
use crate::codec::{decode_table, encode_table, table_fits};
use crate::util::bytes_eq;

verus! {

/// The name of one table of this version, used to load tables dynamically.
#[allow(non_camel_case_types)]
#[derive(Debug, Clone, Copy, PartialEq, Eq, Hash, Structural)]
pub enum WrathTableName {
    Achievement_Category,
    DungeonEncounter,
    FileData,
    gtChanceToSpellCritBase,
}

/// The exact name string of each table.
pub open spec fn table_name_chars(n: WrathTableName) -> Seq<char> {
    match n {
        WrathTableName::Achievement_Category => "Achievement_Category"@,
        WrathTableName::DungeonEncounter => "DungeonEncounter"@,
        WrathTableName::FileData => "FileData"@,
        WrathTableName::gtChanceToSpellCritBase => "gtChanceToSpellCritBase"@,
    }
}

/// What parsing a candidate table name yields: the table whose exact name
/// it is, if any.
pub open spec fn parse_table_name(s: Seq<char>) -> Option<WrathTableName> {
    if s == "Achievement_Category"@ {
        Some(WrathTableName::Achievement_Category)
    } else if s == "DungeonEncounter"@ {
        Some(WrathTableName::DungeonEncounter)
    } else if s == "FileData"@ {
        Some(WrathTableName::FileData)
    } else if s == "gtChanceToSpellCritBase"@ {
        Some(WrathTableName::gtChanceToSpellCritBase)
    } else {
        None
    }
}

impl WrathTableName {
    /// The table name as text.
    pub fn name(&self) -> (r: &'static str)
        ensures
            r@ == table_name_chars(*self),
    {
        match self {
            WrathTableName::Achievement_Category => "Achievement_Category",
            WrathTableName::DungeonEncounter => "DungeonEncounter",
            WrathTableName::FileData => "FileData",
            WrathTableName::gtChanceToSpellCritBase => "gtChanceToSpellCritBase",
        }
    }

    /// Parses an exact table name; any other string is an
    /// `InvalidTableName` error carrying that string.
    pub fn from_name(s: String) -> (r: Result<WrathTableName, DbcError>)
        ensures
            match r {
                Ok(v) => parse_table_name(s@) == Some(v) && s@ == table_name_chars(v),
                Err(e) => {
                    &&& parse_table_name(s@) is None
                    &&& e matches DbcError::InvalidTableName(t) && t@ == s@
                },
            },
    {
        if bytes_eq(s.as_str().as_bytes(), "Achievement_Category".as_bytes()) {
            proof {
                vstd::utf8::encode_utf8_decode_utf8(s@);
                vstd::utf8::encode_utf8_decode_utf8("Achievement_Category"@);
            }
            Ok(WrathTableName::Achievement_Category)
        } else if bytes_eq(s.as_str().as_bytes(), "DungeonEncounter".as_bytes()) {
            proof {
                vstd::utf8::encode_utf8_decode_utf8(s@);
                vstd::utf8::encode_utf8_decode_utf8("DungeonEncounter"@);
            }
            Ok(WrathTableName::DungeonEncounter)
        } else if bytes_eq(s.as_str().as_bytes(), "FileData".as_bytes()) {
            proof {
                vstd::utf8::encode_utf8_decode_utf8(s@);
                vstd::utf8::encode_utf8_decode_utf8("FileData"@);
            }
            Ok(WrathTableName::FileData)
        } else if bytes_eq(s.as_str().as_bytes(), "gtChanceToSpellCritBase".as_bytes()) {
            proof {
                vstd::utf8::encode_utf8_decode_utf8(s@);
                vstd::utf8::encode_utf8_decode_utf8("gtChanceToSpellCritBase"@);
            }
            Ok(WrathTableName::gtChanceToSpellCritBase)
        } else {
            proof {
                assert(s@ != "Achievement_Category"@);
                assert(s@ != "DungeonEncounter"@);
                assert(s@ != "FileData"@);
                assert(s@ != "gtChanceToSpellCritBase"@);
            }
            Err(DbcError::InvalidTableName(s))
        }
    }

    /// Reads the table this name denotes from a full DBC byte stream.
    pub fn load(self, b: &[u8]) -> (r: Result<WrathTable, DbcError>)
        ensures
            match self {
                WrathTableName::Achievement_Category => match r {
                    Ok(t) => t matches WrathTable::Achievement_Category(x) && decode_table::<
                        achievement_category::Achievement_CategoryRowV,
                    >(b@, achievement_category::ROW_SIZE as u32, achievement_category::FIELD_COUNT as u32) == Ok::<
                        Seq<achievement_category::Achievement_CategoryRowV>,
                        DbcError,
                    >(x@),
                    Err(e) => decode_table::<achievement_category::Achievement_CategoryRowV>(
                        b@,
                        achievement_category::ROW_SIZE as u32,
                        achievement_category::FIELD_COUNT as u32,
                    ) == Err::<Seq<achievement_category::Achievement_CategoryRowV>, DbcError>(e),
                },
                WrathTableName::DungeonEncounter => match r {
                    Ok(t) => t matches WrathTable::DungeonEncounter(x) && decode_table::<
                        dungeon_encounter::DungeonEncounterRowV,
                    >(b@, dungeon_encounter::ROW_SIZE as u32, dungeon_encounter::FIELD_COUNT as u32) == Ok::<
                        Seq<dungeon_encounter::DungeonEncounterRowV>,
                        DbcError,
                    >(x@),
                    Err(e) => decode_table::<dungeon_encounter::DungeonEncounterRowV>(
                        b@,
                        dungeon_encounter::ROW_SIZE as u32,
                        dungeon_encounter::FIELD_COUNT as u32,
                    ) == Err::<Seq<dungeon_encounter::DungeonEncounterRowV>, DbcError>(e),
                },
                WrathTableName::FileData => match r {
                    Ok(t) => t matches WrathTable::FileData(x) && decode_table::<
                        file_data::FileDataRowV,
                    >(b@, file_data::ROW_SIZE as u32, file_data::FIELD_COUNT as u32) == Ok::<
                        Seq<file_data::FileDataRowV>,
                        DbcError,
                    >(x@),
                    Err(e) => decode_table::<file_data::FileDataRowV>(
                        b@,
                        file_data::ROW_SIZE as u32,
                        file_data::FIELD_COUNT as u32,
                    ) == Err::<Seq<file_data::FileDataRowV>, DbcError>(e),
                },
                WrathTableName::gtChanceToSpellCritBase => match r {
                    Ok(t) => t matches WrathTable::gtChanceToSpellCritBase(x) && decode_table::<
                        gt_chance_to_spell_crit_base::gtChanceToSpellCritBaseRowV,
                    >(b@, gt_chance_to_spell_crit_base::ROW_SIZE as u32, gt_chance_to_spell_crit_base::FIELD_COUNT as u32) == Ok::<
                        Seq<gt_chance_to_spell_crit_base::gtChanceToSpellCritBaseRowV>,
                        DbcError,
                    >(x@),
                    Err(e) => decode_table::<gt_chance_to_spell_crit_base::gtChanceToSpellCritBaseRowV>(
                        b@,
                        gt_chance_to_spell_crit_base::ROW_SIZE as u32,
                        gt_chance_to_spell_crit_base::FIELD_COUNT as u32,
                    ) == Err::<Seq<gt_chance_to_spell_crit_base::gtChanceToSpellCritBaseRowV>, DbcError>(e),
                },
            },
    {
        match self {
            WrathTableName::Achievement_Category => match achievement_category::Achievement_Category::read(b) {
                Ok(t) => Ok(WrathTable::Achievement_Category(t)),
                Err(e) => Err(e),
            },
            WrathTableName::DungeonEncounter => match dungeon_encounter::DungeonEncounter::read(b) {
                Ok(t) => Ok(WrathTable::DungeonEncounter(t)),
                Err(e) => Err(e),
            },
            WrathTableName::FileData => match file_data::FileData::read(b) {
                Ok(t) => Ok(WrathTable::FileData(t)),
                Err(e) => Err(e),
            },
            WrathTableName::gtChanceToSpellCritBase => match gt_chance_to_spell_crit_base::gtChanceToSpellCritBase::read(b) {
                Ok(t) => Ok(WrathTable::gtChanceToSpellCritBase(t)),
                Err(e) => Err(e),
            },
        }
    }
}

impl core::str::FromStr for WrathTableName {
    type Err = DbcError;

    fn from_str(s: &str) -> Result<WrathTableName, DbcError> {
        WrathTableName::from_name(s.to_owned())
    }
}

/// One loaded table of this version, whichever table it is.
#[allow(non_camel_case_types)]
#[derive(Debug, Clone, PartialEq)]
pub enum WrathTable {
    Achievement_Category(achievement_category::Achievement_Category),
    DungeonEncounter(dungeon_encounter::DungeonEncounter),
    FileData(file_data::FileData),
    gtChanceToSpellCritBase(gt_chance_to_spell_crit_base::gtChanceToSpellCritBase),
}

impl WrathTable {
    /// Encodes whichever table this is.
    pub fn write(&self) -> (out: Vec<u8>)
        requires
            match self {
                WrathTable::Achievement_Category(t) => table_fits::<achievement_category::Achievement_CategoryRowV>(t@),
                WrathTable::DungeonEncounter(t) => table_fits::<dungeon_encounter::DungeonEncounterRowV>(t@),
                WrathTable::FileData(t) => table_fits::<file_data::FileDataRowV>(t@),
                WrathTable::gtChanceToSpellCritBase(t) => table_fits::<gt_chance_to_spell_crit_base::gtChanceToSpellCritBaseRowV>(t@),
            },
        ensures
            match self {
                WrathTable::Achievement_Category(t) => out@ == encode_table::<achievement_category::Achievement_CategoryRowV>(
                    t@,
                    achievement_category::FIELD_COUNT as u32,
                ),
                WrathTable::DungeonEncounter(t) => out@ == encode_table::<dungeon_encounter::DungeonEncounterRowV>(
                    t@,
                    dungeon_encounter::FIELD_COUNT as u32,
                ),
                WrathTable::FileData(t) => out@ == encode_table::<file_data::FileDataRowV>(
                    t@,
                    file_data::FIELD_COUNT as u32,
                ),
                WrathTable::gtChanceToSpellCritBase(t) => out@ == encode_table::<gt_chance_to_spell_crit_base::gtChanceToSpellCritBaseRowV>(
                    t@,
                    gt_chance_to_spell_crit_base::FIELD_COUNT as u32,
                ),
            },
    {
        match self {
            WrathTable::Achievement_Category(t) => t.write(),
            WrathTable::DungeonEncounter(t) => t.write(),
            WrathTable::FileData(t) => t.write(),
            WrathTable::gtChanceToSpellCritBase(t) => t.write(),
        }
    }
}

/// Every table name parses back to itself, and only exact names parse.
pub proof fn lemma_table_name_round_trip(v: WrathTableName)
    ensures
        parse_table_name(table_name_chars(v)) == Some(v),
{
    reveal_strlit("Achievement_Category");
    reveal_strlit("DungeonEncounter");
    reveal_strlit("FileData");
    reveal_strlit("gtChanceToSpellCritBase");
    assert("Achievement_Category"@.len() == 20);
    assert("DungeonEncounter"@.len() == 16);
    assert("FileData"@.len() == 8);
    assert("gtChanceToSpellCritBase"@.len() == 23);
}

} // verus!
