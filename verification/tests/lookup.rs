//! Tests for the typed primary keys, the linear lookup, and the per-version
//! registry: name round trip, dynamic load, and write dispatch.

use std::str::FromStr;
use wow_dbc::tbc_tables::attack_anim_types::{AttackAnimTypes, AttackAnimTypesRow};
use wow_dbc::tbc_tables::{TbcTable, TbcTableName};
use wow_dbc::vanilla_tables::VanillaTableName;
use wow_dbc::wrath_tables::file_data::{FileData, FileDataKey, FileDataRow};
use wow_dbc::wrath_tables::WrathTableName;
use wow_dbc::DbcError;

fn sample() -> FileData {
    FileData {
        rows: vec![
            FileDataRow {
                id: FileDataKey::new(7),
                filename: "a".to_string(),
                filepath: "p".to_string(),
            },
            FileDataRow {
                id: FileDataKey::new(9),
                filename: "b".to_string(),
                filepath: "q".to_string(),
            },
            FileDataRow {
                id: FileDataKey::new(7),
                filename: "c".to_string(),
                filepath: "r".to_string(),
            },
        ],
    }
}

#[test]
fn get_returns_first_match() {
    let t = sample();
    let row = t.get(FileDataKey::new(7)).unwrap();
    assert_eq!(row.filename, "a");
    assert!(t.get(FileDataKey::new(8)).is_none());
}

#[test]
fn get_mut_edits_first_match() {
    let mut t = sample();
    t.get_mut(FileDataKey::new(9)).unwrap().filename = "renamed".to_string();
    assert_eq!(t.rows[1].filename, "renamed");
    assert!(t.get_mut(FileDataKey::new(1000)).is_none());
}

#[test]
fn rows_accessors() {
    let mut t = sample();
    assert_eq!(t.rows().len(), 3);
    t.rows_mut()[0].filepath = "edited".to_string();
    assert_eq!(t.rows[0].filepath, "edited");
}

#[test]
fn key_conversions() {
    assert_eq!(FileDataKey::from(5u8).id, 5);
    assert_eq!(FileDataKey::from(-5i16).id, -5);
    assert_eq!(FileDataKey::from(123456i32).id, 123456);
    assert_eq!(FileDataKey::try_from(70000u32), Ok(FileDataKey::new(70000)));
    assert_eq!(FileDataKey::try_from(0x8000_0000u32), Err(0x8000_0000u32));
    assert_eq!(FileDataKey::try_from(-1i64), Ok(FileDataKey::new(-1)));
    assert_eq!(FileDataKey::try_from(i64::MIN), Err(i64::MIN));
}

#[test]
fn table_name_round_trip_all_versions() {
    let tbc = [TbcTableName::AttackAnimTypes, TbcTableName::LockType, TbcTableName::SoundEntries];
    for n in tbc {
        assert_eq!(TbcTableName::from_str(n.name()), Ok(n));
    }
    let vanilla = [
        VanillaTableName::Cfg_Categories,
        VanillaTableName::ItemSubClassMask,
        VanillaTableName::SpellRange,
        VanillaTableName::WorldMapArea,
    ];
    for n in vanilla {
        assert_eq!(VanillaTableName::from_str(n.name()), Ok(n));
    }
    let wrath = [
        WrathTableName::Achievement_Category,
        WrathTableName::DungeonEncounter,
        WrathTableName::FileData,
        WrathTableName::gtChanceToSpellCritBase,
    ];
    for n in wrath {
        assert_eq!(WrathTableName::from_str(n.name()), Ok(n));
    }
    match VanillaTableName::from_str("NoSuchTable") {
        Err(DbcError::InvalidTableName(s)) => assert_eq!(s, "NoSuchTable"),
        other => panic!("expected InvalidTableName, got {:?}", other),
    }
}

#[test]
fn dynamic_load_and_write_dispatch() {
    let table = AttackAnimTypes {
        rows: vec![AttackAnimTypesRow { anim_id: 4, anim_name: "swing".to_string() }],
    };
    let bytes = table.write();
    let loaded = TbcTableName::AttackAnimTypes.load(bytes.as_slice()).unwrap();
    match &loaded {
        TbcTable::AttackAnimTypes(t) => assert_eq!(*t, table),
        other => panic!("wrong variant: {:?}", other),
    }
    assert_eq!(loaded.write(), bytes);
    // A stream for one table does not load as another.
    assert!(TbcTableName::LockType.load(bytes.as_slice()).is_err());
}
