//! Tables of the first game version.

pub mod area_table;
pub mod cfg_categories;
pub mod item_sub_class_mask;
pub mod spell_range;
pub mod world_map_area;
pub mod world_map_continent;

use vstd::prelude::*;
use crate::DbcError;
use crate::codec::{decode_table, encode_table, table_fits};
use crate::util::bytes_eq;

verus! {

/// The name of one table of this version, used to load tables dynamically.
#[allow(non_camel_case_types)]
#[derive(Debug, Clone, Copy, PartialEq, Eq, Hash, Structural)]
pub enum VanillaTableName {
    Cfg_Categories,
    ItemSubClassMask,
    SpellRange,
    WorldMapArea,
}

/// The exact name string of each table.
pub open spec fn table_name_chars(n: VanillaTableName) -> Seq<char> {
    match n {
        VanillaTableName::Cfg_Categories => "Cfg_Categories"@,
        VanillaTableName::ItemSubClassMask => "ItemSubClassMask"@,
        VanillaTableName::SpellRange => "SpellRange"@,
        VanillaTableName::WorldMapArea => "WorldMapArea"@,
    }
}

/// What parsing a candidate table name yields: the table whose exact name
/// it is, if any.
pub open spec fn parse_table_name(s: Seq<char>) -> Option<VanillaTableName> {
    if s == "Cfg_Categories"@ {
        Some(VanillaTableName::Cfg_Categories)
    } else if s == "ItemSubClassMask"@ {
        Some(VanillaTableName::ItemSubClassMask)
    } else if s == "SpellRange"@ {
        Some(VanillaTableName::SpellRange)
    } else if s == "WorldMapArea"@ {
        Some(VanillaTableName::WorldMapArea)
    } else {
        None
    }
}

impl VanillaTableName {
    /// The table name as text.
    pub fn name(&self) -> (r: &'static str)
        ensures
            r@ == table_name_chars(*self),
    {
        match self {
            VanillaTableName::Cfg_Categories => "Cfg_Categories",
            VanillaTableName::ItemSubClassMask => "ItemSubClassMask",
            VanillaTableName::SpellRange => "SpellRange",
            VanillaTableName::WorldMapArea => "WorldMapArea",
        }
    }

    /// Parses an exact table name; any other string is an
    /// `InvalidTableName` error carrying that string.
    pub fn from_name(s: String) -> (r: Result<VanillaTableName, DbcError>)
        ensures
            match r {
                Ok(v) => parse_table_name(s@) == Some(v) && s@ == table_name_chars(v),
                Err(e) => {
                    &&& parse_table_name(s@) is None
                    &&& e matches DbcError::InvalidTableName(t) && t@ == s@
                },
            },
    {
        if bytes_eq(s.as_str().as_bytes(), "Cfg_Categories".as_bytes()) {
            proof {
                vstd::utf8::encode_utf8_decode_utf8(s@);
                vstd::utf8::encode_utf8_decode_utf8("Cfg_Categories"@);
            }
            Ok(VanillaTableName::Cfg_Categories)
        } else if bytes_eq(s.as_str().as_bytes(), "ItemSubClassMask".as_bytes()) {
            proof {
                vstd::utf8::encode_utf8_decode_utf8(s@);
                vstd::utf8::encode_utf8_decode_utf8("ItemSubClassMask"@);
            }
            Ok(VanillaTableName::ItemSubClassMask)
        } else if bytes_eq(s.as_str().as_bytes(), "SpellRange".as_bytes()) {
            proof {
                vstd::utf8::encode_utf8_decode_utf8(s@);
                vstd::utf8::encode_utf8_decode_utf8("SpellRange"@);
            }
            Ok(VanillaTableName::SpellRange)
        } else if bytes_eq(s.as_str().as_bytes(), "WorldMapArea".as_bytes()) {
            proof {
                vstd::utf8::encode_utf8_decode_utf8(s@);
                vstd::utf8::encode_utf8_decode_utf8("WorldMapArea"@);
            }
            Ok(VanillaTableName::WorldMapArea)
        } else {
            proof {
                assert(s@ != "Cfg_Categories"@);
                assert(s@ != "ItemSubClassMask"@);
                assert(s@ != "SpellRange"@);
                assert(s@ != "WorldMapArea"@);
            }
            Err(DbcError::InvalidTableName(s))
        }
    }

    /// Reads the table this name denotes from a full DBC byte stream.
    pub fn load(self, b: &[u8]) -> (r: Result<VanillaTable, DbcError>)
        ensures
            match self {
                VanillaTableName::Cfg_Categories => match r {
                    Ok(t) => t matches VanillaTable::Cfg_Categories(x) && decode_table::<
                        cfg_categories::Cfg_CategoriesRowV,
                    >(b@, cfg_categories::ROW_SIZE as u32, cfg_categories::FIELD_COUNT as u32) == Ok::<
                        Seq<cfg_categories::Cfg_CategoriesRowV>,
                        DbcError,
                    >(x@),
                    Err(e) => decode_table::<cfg_categories::Cfg_CategoriesRowV>(
                        b@,
                        cfg_categories::ROW_SIZE as u32,
                        cfg_categories::FIELD_COUNT as u32,
                    ) == Err::<Seq<cfg_categories::Cfg_CategoriesRowV>, DbcError>(e),
                },
                VanillaTableName::ItemSubClassMask => match r {
                    Ok(t) => t matches VanillaTable::ItemSubClassMask(x) && decode_table::<
                        item_sub_class_mask::ItemSubClassMaskRowV,
                    >(b@, item_sub_class_mask::ROW_SIZE as u32, item_sub_class_mask::FIELD_COUNT as u32) == Ok::<
                        Seq<item_sub_class_mask::ItemSubClassMaskRowV>,
                        DbcError,
                    >(x@),
                    Err(e) => decode_table::<item_sub_class_mask::ItemSubClassMaskRowV>(
                        b@,
                        item_sub_class_mask::ROW_SIZE as u32,
                        item_sub_class_mask::FIELD_COUNT as u32,
                    ) == Err::<Seq<item_sub_class_mask::ItemSubClassMaskRowV>, DbcError>(e),
                },
                VanillaTableName::SpellRange => match r {
                    Ok(t) => t matches VanillaTable::SpellRange(x) && decode_table::<
                        spell_range::SpellRangeRowV,
                    >(b@, spell_range::ROW_SIZE as u32, spell_range::FIELD_COUNT as u32) == Ok::<
                        Seq<spell_range::SpellRangeRowV>,
                        DbcError,
                    >(x@),
                    Err(e) => decode_table::<spell_range::SpellRangeRowV>(
                        b@,
                        spell_range::ROW_SIZE as u32,
                        spell_range::FIELD_COUNT as u32,
                    ) == Err::<Seq<spell_range::SpellRangeRowV>, DbcError>(e),
                },
                VanillaTableName::WorldMapArea => match r {
                    Ok(t) => t matches VanillaTable::WorldMapArea(x) && decode_table::<
                        world_map_area::WorldMapAreaRowV,
                    >(b@, world_map_area::ROW_SIZE as u32, world_map_area::FIELD_COUNT as u32) == Ok::<
                        Seq<world_map_area::WorldMapAreaRowV>,
                        DbcError,
                    >(x@),
                    Err(e) => decode_table::<world_map_area::WorldMapAreaRowV>(
                        b@,
                        world_map_area::ROW_SIZE as u32,
                        world_map_area::FIELD_COUNT as u32,
                    ) == Err::<Seq<world_map_area::WorldMapAreaRowV>, DbcError>(e),
                },
            },
    {
        match self {
            VanillaTableName::Cfg_Categories => match cfg_categories::Cfg_Categories::read(b) {
                Ok(t) => Ok(VanillaTable::Cfg_Categories(t)),
                Err(e) => Err(e),
            },
            VanillaTableName::ItemSubClassMask => match item_sub_class_mask::ItemSubClassMask::read(b) {
                Ok(t) => Ok(VanillaTable::ItemSubClassMask(t)),
                Err(e) => Err(e),
            },
            VanillaTableName::SpellRange => match spell_range::SpellRange::read(b) {
                Ok(t) => Ok(VanillaTable::SpellRange(t)),
                Err(e) => Err(e),
            },
            VanillaTableName::WorldMapArea => match world_map_area::WorldMapArea::read(b) {
                Ok(t) => Ok(VanillaTable::WorldMapArea(t)),
                Err(e) => Err(e),
            },
        }
    }
}

impl core::str::FromStr for VanillaTableName {
    type Err = DbcError;

    fn from_str(s: &str) -> Result<VanillaTableName, DbcError> {
        VanillaTableName::from_name(s.to_owned())
    }
}

/// One loaded table of this version, whichever table it is.
#[allow(non_camel_case_types)]
#[derive(Debug, Clone, PartialEq)]
pub enum VanillaTable {
    Cfg_Categories(cfg_categories::Cfg_Categories),
    ItemSubClassMask(item_sub_class_mask::ItemSubClassMask),
    SpellRange(spell_range::SpellRange),
    WorldMapArea(world_map_area::WorldMapArea),
}

impl VanillaTable {
    /// Encodes whichever table this is.
    pub fn write(&self) -> (out: Vec<u8>)
        requires
            match self {
                VanillaTable::Cfg_Categories(t) => table_fits::<cfg_categories::Cfg_CategoriesRowV>(t@),
                VanillaTable::ItemSubClassMask(t) => table_fits::<item_sub_class_mask::ItemSubClassMaskRowV>(t@),
                VanillaTable::SpellRange(t) => table_fits::<spell_range::SpellRangeRowV>(t@),
                VanillaTable::WorldMapArea(t) => table_fits::<world_map_area::WorldMapAreaRowV>(t@),
            },
        ensures
            match self {
                VanillaTable::Cfg_Categories(t) => out@ == encode_table::<cfg_categories::Cfg_CategoriesRowV>(
                    t@,
                    cfg_categories::FIELD_COUNT as u32,
                ),
                VanillaTable::ItemSubClassMask(t) => out@ == encode_table::<item_sub_class_mask::ItemSubClassMaskRowV>(
                    t@,
                    item_sub_class_mask::FIELD_COUNT as u32,
                ),
                VanillaTable::SpellRange(t) => out@ == encode_table::<spell_range::SpellRangeRowV>(
                    t@,
                    spell_range::FIELD_COUNT as u32,
                ),
                VanillaTable::WorldMapArea(t) => out@ == encode_table::<world_map_area::WorldMapAreaRowV>(
                    t@,
                    world_map_area::FIELD_COUNT as u32,
                ),
            },
    {
        match self {
            VanillaTable::Cfg_Categories(t) => t.write(),
            VanillaTable::ItemSubClassMask(t) => t.write(),
            VanillaTable::SpellRange(t) => t.write(),
            VanillaTable::WorldMapArea(t) => t.write(),
        }
    }
}

/// Every table name parses back to itself, and only exact names parse.
pub proof fn lemma_table_name_round_trip(v: VanillaTableName)
    ensures
        parse_table_name(table_name_chars(v)) == Some(v),
{
    reveal_strlit("Cfg_Categories");
    reveal_strlit("ItemSubClassMask");
    reveal_strlit("SpellRange");
    reveal_strlit("WorldMapArea");
    assert("Cfg_Categories"@.len() == 14);
    assert("ItemSubClassMask"@.len() == 16);
    assert("SpellRange"@.len() == 10);
    assert("WorldMapArea"@.len() == 12);
}

} // verus!
