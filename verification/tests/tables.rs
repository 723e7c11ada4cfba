//! Round-trip tests for every table: encode a table, decode the bytes, and
//! expect the very same rows back. The byte streams are synthesized in
//! writer-canonical form, so the encoder's output can also be compared to
//! the input bytes directly.

use wow_dbc::localized::{ExtendedLocalizedString, LocalizedString};
use wow_dbc::server_enums::{ServerCategory, ServerRegion};
use wow_dbc::tbc_tables::attack_anim_types::{AttackAnimTypes, AttackAnimTypesRow};
use wow_dbc::tbc_tables::lock_type::{LockType, LockTypeKey, LockTypeRow};
use wow_dbc::tbc_tables::sound_entries::{SoundEntries, SoundEntriesKey, SoundEntriesRow};
use wow_dbc::vanilla_tables::area_table::AreaTableKey;
use wow_dbc::vanilla_tables::cfg_categories::{Cfg_Categories, Cfg_CategoriesRow};
use wow_dbc::vanilla_tables::item_sub_class_mask::{ItemSubClassMask, ItemSubClassMaskRow};
use wow_dbc::vanilla_tables::spell_range::{SpellRange, SpellRangeKey, SpellRangeRow};
use wow_dbc::vanilla_tables::world_map_continent::WorldMapContinentKey;
use wow_dbc::vanilla_tables::world_map_area::{WorldMapArea, WorldMapAreaKey, WorldMapAreaRow};
use wow_dbc::wrath_tables::achievement_category::{
    Achievement_Category, Achievement_CategoryKey, Achievement_CategoryRow,
};
use wow_dbc::wrath_tables::dungeon_encounter::{
    DungeonEncounter, DungeonEncounterKey, DungeonEncounterRow,
};
use wow_dbc::wrath_tables::file_data::{FileData, FileDataKey, FileDataRow};
use wow_dbc::wrath_tables::gt_chance_to_spell_crit_base::{
    gtChanceToSpellCritBase, gtChanceToSpellCritBaseRow,
};
use wow_dbc::wrath_tables::map::MapKey;
use wow_dbc::wrath_tables::spell_icon::SpellIconKey;

fn loc(s: &str) -> LocalizedString {
    LocalizedString {
        en_gb: s.to_string(),
        ko_kr: String::new(),
        fr_fr: String::new(),
        de_de: String::new(),
        en_cn: String::new(),
        en_tw: String::new(),
        es_es: String::new(),
        es_mx: String::new(),
        flags: 0x1_00FF,
    }
}

fn ext(s: &str) -> ExtendedLocalizedString {
    ExtendedLocalizedString {
        en_gb: s.to_string(),
        ko_kr: String::new(),
        fr_fr: String::new(),
        de_de: String::new(),
        en_cn: String::new(),
        en_tw: String::new(),
        es_es: String::new(),
        es_mx: String::new(),
        ru_ru: String::new(),
        ja_jp: String::new(),
        pt_pt: String::new(),
        it_it: String::new(),
        unknown_12: String::new(),
        unknown_13: String::new(),
        unknown_14: String::new(),
        unknown_15: String::new(),
        flags: 0xFF01_FE02,
    }
}

#[test]
fn attack_anim_types() {
    let table = AttackAnimTypes {
        rows: vec![
            AttackAnimTypesRow { anim_id: 1, anim_name: "a".to_string() },
            AttackAnimTypesRow { anim_id: 2, anim_name: String::new() },
            AttackAnimTypesRow { anim_id: 3, anim_name: "bc".to_string() },
        ],
    };
    let contents = table.write();
    let actual = AttackAnimTypes::read(contents.as_slice()).unwrap();
    let v = actual.write();
    let new = AttackAnimTypes::read(v.as_slice()).unwrap();
    assert_eq!(actual, new);
    assert_eq!(contents, v);
}

#[test]
fn lock_type() {
    let table = LockType {
        rows: vec![
            LockTypeRow {
                id: LockTypeKey::new(5),
                name_lang: ext("Frobnicate"),
                resource_name_lang: ext(""),
                verb_lang: ext("Pick"),
                cursor_name: "hand".to_string(),
            },
            LockTypeRow {
                id: LockTypeKey::new(-3),
                name_lang: ext(""),
                resource_name_lang: ext("Ore"),
                verb_lang: ext(""),
                cursor_name: String::new(),
            },
        ],
    };
    let contents = table.write();
    let actual = LockType::read(contents.as_slice()).unwrap();
    let v = actual.write();
    let new = LockType::read(v.as_slice()).unwrap();
    assert_eq!(actual, new);
    assert_eq!(contents, v);
}

#[test]
fn sound_entries() {
    let files: Vec<String> = vec![
        "one.wav".to_string(),
        String::new(),
        "two.wav".to_string(),
        String::new(),
        String::new(),
        String::new(),
        String::new(),
        String::new(),
        String::new(),
        "last.wav".to_string(),
    ];
    let table = SoundEntries {
        rows: vec![SoundEntriesRow {
            id: SoundEntriesKey::new(77),
            sound_type: 4,
            name: "Footsteps".to_string(),
            file: files,
            freq: vec![1, 2, 3, 4, 5, 6, 7, 8, 9, 10],
            directory_base: "Sound".to_string(),
            volume_float: 1.0f32.to_bits(),
            flags: 0,
            min_distance: 8.0f32.to_bits(),
            distance_cutoff: 45.0f32.to_bits(),
            e_a_x_def: 0,
        }],
    };
    let contents = table.write();
    let actual = SoundEntries::read(contents.as_slice()).unwrap();
    let v = actual.write();
    let new = SoundEntries::read(v.as_slice()).unwrap();
    assert_eq!(actual, new);
    assert_eq!(contents, v);
}

#[test]
fn cfg_categories() {
    let table = Cfg_Categories {
        rows: vec![
            Cfg_CategoriesRow {
                category: ServerCategory::One,
                region: ServerRegion::UnitedStates,
                name: loc("United States"),
            },
            Cfg_CategoriesRow {
                category: ServerCategory::Five,
                region: ServerRegion::QaServer,
                name: loc(""),
            },
        ],
    };
    let contents = table.write();
    let actual = Cfg_Categories::read(contents.as_slice()).unwrap();
    let v = actual.write();
    let new = Cfg_Categories::read(v.as_slice()).unwrap();
    assert_eq!(actual, new);
    assert_eq!(contents, v);
}

#[test]
fn item_sub_class_mask() {
    let table = ItemSubClassMask {
        rows: vec![
            ItemSubClassMaskRow { subclass: 1, mask: -1, name: loc("Axes") },
            ItemSubClassMaskRow { subclass: 2, mask: 0x7FFF_FFFF, name: loc("") },
        ],
    };
    let contents = table.write();
    let actual = ItemSubClassMask::read(contents.as_slice()).unwrap();
    let v = actual.write();
    let new = ItemSubClassMask::read(v.as_slice()).unwrap();
    assert_eq!(actual, new);
    assert_eq!(contents, v);
}

#[test]
fn spell_range() {
    let table = SpellRange {
        rows: vec![SpellRangeRow {
            id: SpellRangeKey::new(4),
            range_min: 0.0f32.to_bits(),
            range_max: 30.0f32.to_bits(),
            flags: 0,
            display_name: loc("Medium Range"),
            display_name_short: loc("Medium"),
        }],
    };
    let contents = table.write();
    let actual = SpellRange::read(contents.as_slice()).unwrap();
    let v = actual.write();
    let new = SpellRange::read(v.as_slice()).unwrap();
    assert_eq!(actual, new);
    assert_eq!(contents, v);
}

#[test]
fn world_map_area() {
    let table = WorldMapArea {
        rows: vec![WorldMapAreaRow {
            id: WorldMapAreaKey::new(10),
            world_map_continent: WorldMapContinentKey::new(0),
            area_table: AreaTableKey::new(12),
            area_name: "Elwynn".to_string(),
            location_left: (-1000.5f32).to_bits(),
            location_right: 2200.0f32.to_bits(),
            location_top: 100.25f32.to_bits(),
            location_bottom: (-50.0f32).to_bits(),
        }],
    };
    let contents = table.write();
    let actual = WorldMapArea::read(contents.as_slice()).unwrap();
    let v = actual.write();
    let new = WorldMapArea::read(v.as_slice()).unwrap();
    assert_eq!(actual, new);
    assert_eq!(contents, v);
}

#[test]
fn achievement_category() {
    let table = Achievement_Category {
        rows: vec![
            Achievement_CategoryRow {
                id: Achievement_CategoryKey::new(92),
                parent: Achievement_CategoryKey::new(-1),
                name_lang: ext("General"),
                ui_order: 0,
            },
            Achievement_CategoryRow {
                id: Achievement_CategoryKey::new(96),
                parent: Achievement_CategoryKey::new(92),
                name_lang: ext("Quests"),
                ui_order: 1,
            },
        ],
    };
    let contents = table.write();
    let actual = Achievement_Category::read(contents.as_slice()).unwrap();
    let v = actual.write();
    let new = Achievement_Category::read(v.as_slice()).unwrap();
    assert_eq!(actual, new);
    assert_eq!(contents, v);
}

#[test]
fn dungeon_encounter() {
    let table = DungeonEncounter {
        rows: vec![DungeonEncounterRow {
            id: DungeonEncounterKey::new(1),
            map_id: MapKey::new(36),
            difficulty: 0,
            order_index: 2,
            bit: 5,
            name_lang: ext("Rhahk'Zor"),
            spell_icon_id: SpellIconKey::new(3),
        }],
    };
    let contents = table.write();
    let actual = DungeonEncounter::read(contents.as_slice()).unwrap();
    let v = actual.write();
    let new = DungeonEncounter::read(v.as_slice()).unwrap();
    assert_eq!(actual, new);
    assert_eq!(contents, v);
}

#[test]
fn file_data() {
    let table = FileData {
        rows: vec![
            FileDataRow {
                id: FileDataKey::new(1),
                filename: "a.mdx".to_string(),
                filepath: "Path".to_string(),
            },
            FileDataRow {
                id: FileDataKey::new(2),
                filename: String::new(),
                filepath: String::new(),
            },
        ],
    };
    let contents = table.write();
    let actual = FileData::read(contents.as_slice()).unwrap();
    let v = actual.write();
    let new = FileData::read(v.as_slice()).unwrap();
    assert_eq!(actual, new);
    assert_eq!(contents, v);
}

#[test]
fn gt_chance_to_spell_crit_base() {
    let table = gtChanceToSpellCritBase {
        rows: vec![
            gtChanceToSpellCritBaseRow { data: 1.0f32.to_bits() },
            gtChanceToSpellCritBaseRow { data: 2.0f32.to_bits() },
        ],
    };
    let contents = table.write();
    let actual = gtChanceToSpellCritBase::read(contents.as_slice()).unwrap();
    let v = actual.write();
    let new = gtChanceToSpellCritBase::read(v.as_slice()).unwrap();
    assert_eq!(actual, new);
    assert_eq!(contents, v);
}
