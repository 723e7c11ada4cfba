//! End-to-end scenarios: exact byte layouts, header mismatches, foreign
//! keys to absent rows, empty localized strings, and table-name parsing.

use std::str::FromStr;
use wow_dbc::localized::ExtendedLocalizedString;
use wow_dbc::tbc_tables::attack_anim_types::{AttackAnimTypes, AttackAnimTypesRow};
use wow_dbc::tbc_tables::TbcTableName;
use wow_dbc::vanilla_tables::cfg_categories::Cfg_Categories;
use wow_dbc::wrath_tables::dungeon_encounter::{
    DungeonEncounter, DungeonEncounterKey, DungeonEncounterRow,
};
use wow_dbc::wrath_tables::file_data::{FileData, FileDataKey, FileDataRow};
use wow_dbc::wrath_tables::gt_chance_to_spell_crit_base::gtChanceToSpellCritBase;
use wow_dbc::wrath_tables::map::MapKey;
use wow_dbc::wrath_tables::spell_icon::SpellIconKey;
use wow_dbc::{DbcError, InvalidHeaderError};

fn header(record_count: u32, field_count: u32, record_size: u32, string_block_size: u32) -> Vec<u8> {
    let mut v = Vec::new();
    v.extend_from_slice(b"WDBC");
    v.extend_from_slice(&record_count.to_le_bytes());
    v.extend_from_slice(&field_count.to_le_bytes());
    v.extend_from_slice(&record_size.to_le_bytes());
    v.extend_from_slice(&string_block_size.to_le_bytes());
    v
}

fn empty_ext(flags: u32) -> ExtendedLocalizedString {
    ExtendedLocalizedString {
        en_gb: String::new(),
        ko_kr: String::new(),
        fr_fr: String::new(),
        de_de: String::new(),
        en_cn: String::new(),
        en_tw: String::new(),
        es_es: String::new(),
        es_mx: String::new(),
        ru_ru: String::new(),
        ja_jp: String::new(),
        pt_pt: String::new(),
        it_it: String::new(),
        unknown_12: String::new(),
        unknown_13: String::new(),
        unknown_14: String::new(),
        unknown_15: String::new(),
        flags,
    }
}

#[test]
fn minimal_float_table() {
    // One field of four bytes per record, no strings: two records holding
    // the bit patterns of 1.0 and 2.0.
    let mut contents = header(2, 1, 4, 1);
    contents.extend_from_slice(&1.0f32.to_bits().to_le_bytes());
    contents.extend_from_slice(&2.0f32.to_bits().to_le_bytes());
    contents.push(0);
    let t = gtChanceToSpellCritBase::read(contents.as_slice()).unwrap();
    assert_eq!(t.rows.len(), 2);
    assert_eq!(f32::from_bits(t.rows[0].data), 1.0);
    assert_eq!(f32::from_bits(t.rows[1].data), 2.0);
    assert_eq!(t.write(), contents);
}

#[test]
fn string_offsets_and_block_layout() {
    // Rows (1, "a"), (2, ""), (3, "bc"): offsets 1, 0, 3 and the block
    // 00 'a' 00 'b' 'c' 00, for a block size of 1 + 2 + 3 = 6.
    let table = AttackAnimTypes {
        rows: vec![
            AttackAnimTypesRow { anim_id: 1, anim_name: "a".to_string() },
            AttackAnimTypesRow { anim_id: 2, anim_name: String::new() },
            AttackAnimTypesRow { anim_id: 3, anim_name: "bc".to_string() },
        ],
    };
    let v = table.write();
    let mut expected = header(3, 2, 8, 6);
    expected.extend_from_slice(&1u32.to_le_bytes());
    expected.extend_from_slice(&1u32.to_le_bytes());
    expected.extend_from_slice(&2u32.to_le_bytes());
    expected.extend_from_slice(&0u32.to_le_bytes());
    expected.extend_from_slice(&3u32.to_le_bytes());
    expected.extend_from_slice(&3u32.to_le_bytes());
    expected.extend_from_slice(&[0, b'a', 0, b'b', b'c', 0]);
    assert_eq!(v, expected);
    let back = AttackAnimTypes::read(v.as_slice()).unwrap();
    assert_eq!(back, table);
}

#[test]
fn foreign_key_to_unknown_id() {
    // A row whose foreign-key slot holds 999999 decodes fine: the codec
    // does not validate cross-table references.
    let table = DungeonEncounter {
        rows: vec![DungeonEncounterRow {
            id: DungeonEncounterKey::new(1),
            map_id: MapKey::new(999999),
            difficulty: 0,
            order_index: 0,
            bit: 0,
            name_lang: empty_ext(0),
            spell_icon_id: SpellIconKey::new(999999),
        }],
    };
    let v = table.write();
    let back = DungeonEncounter::read(v.as_slice()).unwrap();
    assert_eq!(back.rows[0].map_id, MapKey::new(999999));
    // Looking up a key no row carries is "not found", not an error.
    let target = FileData {
        rows: vec![FileDataRow {
            id: FileDataKey::new(1),
            filename: String::new(),
            filepath: String::new(),
        }],
    };
    let key = FileDataKey::try_from(999999u32).unwrap();
    assert!(target.get(key).is_none());
}

#[test]
fn header_record_size_mismatch() {
    // record_size 16 where FileData rows occupy 12 bytes.
    let mut contents = header(0, 3, 16, 1);
    contents.push(0);
    let r = FileData::read(contents.as_slice());
    assert_eq!(
        r,
        Err(DbcError::InvalidHeader(InvalidHeaderError::RecordSize { expected: 12, actual: 16 }))
    );
}

#[test]
fn header_field_count_mismatch() {
    let mut contents = header(0, 4, 12, 1);
    contents.push(0);
    let r = FileData::read(contents.as_slice());
    assert_eq!(
        r,
        Err(DbcError::InvalidHeader(InvalidHeaderError::FieldCount { expected: 3, actual: 4 }))
    );
}

#[test]
fn header_bad_magic() {
    let mut contents = header(0, 3, 12, 1);
    contents[0] = b'X';
    contents.push(0);
    let r = FileData::read(contents.as_slice());
    assert_eq!(r, Err(DbcError::InvalidHeader(InvalidHeaderError::Magic)));
}

#[test]
fn truncated_input_is_io_error() {
    assert_eq!(FileData::read(b"WDBC\x00".as_slice()), Err(DbcError::Io));
    // A header promising more records than the stream holds.
    let contents = header(5, 3, 12, 1);
    assert_eq!(FileData::read(contents.as_slice()), Err(DbcError::Io));
}

#[test]
fn unterminated_string_reference() {
    // The offset points past the string block.
    let mut contents = header(1, 2, 8, 1);
    contents.extend_from_slice(&1u32.to_le_bytes());
    contents.extend_from_slice(&99u32.to_le_bytes());
    contents.push(0);
    assert_eq!(AttackAnimTypes::read(contents.as_slice()), Err(DbcError::InvalidString));
}

#[test]
fn non_utf8_string_reference() {
    let mut contents = header(1, 2, 8, 3);
    contents.extend_from_slice(&1u32.to_le_bytes());
    contents.extend_from_slice(&1u32.to_le_bytes());
    contents.extend_from_slice(&[0, 0xFF, 0]);
    assert_eq!(AttackAnimTypes::read(contents.as_slice()), Err(DbcError::InvalidString));
}

#[test]
fn invalid_enum_value() {
    // Category code 7 names no server category.
    let mut contents = header(1, 11, 44, 1);
    contents.extend_from_slice(&7u32.to_le_bytes());
    contents.extend_from_slice(&1u32.to_le_bytes());
    for _ in 0..9 {
        contents.extend_from_slice(&0u32.to_le_bytes());
    }
    contents.push(0);
    assert_eq!(
        Cfg_Categories::read(contents.as_slice()),
        Err(DbcError::InvalidEnumValue { table: "Cfg_Categories", field: "category", value: 7 })
    );
}

#[test]
fn extended_localized_string_all_locales_empty() {
    // Sixteen offset-0 locale slots, flags preserved verbatim, and no
    // string-block contribution beyond the sentinel NUL.
    let table = DungeonEncounter {
        rows: vec![DungeonEncounterRow {
            id: DungeonEncounterKey::new(9),
            map_id: MapKey::new(0),
            difficulty: 0,
            order_index: 0,
            bit: 0,
            name_lang: empty_ext(0x1234_5678),
            spell_icon_id: SpellIconKey::new(0),
        }],
    };
    let v = table.write();
    // string_block_size is 1: the sentinel alone.
    assert_eq!(&v[16..20], &1u32.to_le_bytes());
    // The sixteen locale offsets, at bytes 20..84 of the record, are zero.
    for slot in 0..16 {
        let at = 20 + 20 + 4 * slot;
        assert_eq!(&v[at..at + 4], &0u32.to_le_bytes());
    }
    let back = DungeonEncounter::read(v.as_slice()).unwrap();
    assert_eq!(back.rows[0].name_lang.flags, 0x1234_5678);
    assert_eq!(back, table);
}

#[test]
fn shared_string_offsets_are_tolerated() {
    // A foreign encoder may reuse one offset for equal strings; the reader
    // resolves each reference independently.
    let mut contents = header(2, 2, 8, 4);
    contents.extend_from_slice(&1u32.to_le_bytes());
    contents.extend_from_slice(&1u32.to_le_bytes());
    contents.extend_from_slice(&2u32.to_le_bytes());
    contents.extend_from_slice(&1u32.to_le_bytes());
    contents.extend_from_slice(&[0, b'h', b'i', 0]);
    let t = AttackAnimTypes::read(contents.as_slice()).unwrap();
    assert_eq!(t.rows[0].anim_name, "hi");
    assert_eq!(t.rows[1].anim_name, "hi");
    // Re-encoding does not deduplicate: each occurrence gets its own slot.
    let v = t.write();
    assert_eq!(&v[16..20], &7u32.to_le_bytes());
}

#[test]
fn trailing_bytes_are_ignored() {
    let mut contents = header(1, 2, 8, 1);
    contents.extend_from_slice(&5u32.to_le_bytes());
    contents.extend_from_slice(&0u32.to_le_bytes());
    contents.push(0);
    contents.extend_from_slice(&[9, 9, 9]);
    let t = AttackAnimTypes::read(contents.as_slice()).unwrap();
    assert_eq!(t.rows.len(), 1);
    assert_eq!(t.rows[0].anim_id, 5);
}

#[test]
fn table_name_parsing() {
    assert_eq!(TbcTableName::from_str("LockType"), Ok(TbcTableName::LockType));
    match TbcTableName::from_str("lock_type") {
        Err(DbcError::InvalidTableName(s)) => assert_eq!(s, "lock_type"),
        other => panic!("expected InvalidTableName, got {:?}", other),
    }
}
