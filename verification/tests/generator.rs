//! Tests for the code-generation half: the snake-case transform, the text
//! writer, the schema catalog, and the per-version registry emitter.

use wow_dbc::printer::create_table_enum;
use wow_dbc::types::{DbcDescription, DbcVersion, Field, Objects, ScalarType, Type};
use wow_dbc::writer::{snake_case, Writer};

#[test]
fn snake_case_names() {
    assert_eq!(snake_case("AttackAnimTypes"), "attack_anim_types");
    assert_eq!(snake_case("WorldMapArea"), "world_map_area");
    assert_eq!(snake_case("gtChanceToSpellCritBase"), "gt_chance_to_spell_crit_base");
    assert_eq!(snake_case("Cfg_Categories"), "cfg_categories");
    assert_eq!(snake_case("XMLHttpRequest"), "xml_http_request");
    assert_eq!(snake_case("LockType"), "lock_type");
}

#[test]
fn snake_case_applied_twice() {
    let once = snake_case("gtChanceToSpellCritBase");
    let twice = snake_case(once.as_str());
    assert_eq!(once, twice);
}

#[test]
fn writer_module_and_file_names() {
    let w = Writer::new("AttackAnimTypes");
    assert_eq!(w.module_name(), "attack_anim_types");
    assert_eq!(w.file_name(), "attack_anim_types.rs");
}

#[test]
fn writer_blocks_and_lines() {
    let mut w = Writer::new("Example");
    w.wln("use std::fmt;");
    w.open_block("pub struct S");
    w.wln("pub x: u32,");
    w.close_block();
    w.newline();
    assert_eq!(w.inner(), "use std::fmt;\npub struct S {\n    pub x: u32,\n}\n\n");
}

#[test]
fn version_names() {
    assert_eq!(DbcVersion::Vanilla.to_str(), "vanilla");
    assert_eq!(DbcVersion::Tbc.to_str_capitalized(), "Tbc");
    assert_eq!(DbcVersion::Wrath.module_name(), "wrath_tables");
    assert_eq!(DbcVersion::Vanilla.test_dir_name(), "vanilla-dbc");
    assert_eq!(DbcVersion::Tbc.xml_dir_name(), "tbc_xml");
}

fn simple_description(name: &str, with_key: bool) -> DbcDescription {
    let mut fields = Vec::new();
    if with_key {
        fields.push(Field {
            name: "id".to_string(),
            ty: Type::PrimaryKey { table: name.to_string(), ty: ScalarType::Int32 },
            comment: String::new(),
        });
    }
    fields.push(Field {
        name: "name".to_string(),
        ty: Type::Scalar(ScalarType::StringRef),
        comment: String::new(),
    });
    DbcDescription {
        name: name.to_string(),
        filename: format!("{name}.dbc"),
        fields,
    }
}

#[test]
fn objects_catalog() {
    let mut o = Objects::new();
    o.push_description(simple_description("Map", true));
    o.push_description(simple_description("AttackAnimTypes", false));
    assert!(o.table_exists("Map"));
    assert!(!o.table_exists("Spell"));
    let (field, ty) = o.table_primary_key_ty("Map").unwrap();
    assert_eq!(field.name, "id");
    assert_eq!(ty, ScalarType::Int32);
    assert!(o.table_primary_key_ty("AttackAnimTypes").is_none());
    assert!(o.table_primary_key_ty("Spell").is_none());
    assert_eq!(o.descriptions().len(), 2);
}

#[test]
fn description_primary_key() {
    let d = simple_description("Map", true);
    let (field, ty) = d.primary_key().unwrap();
    assert_eq!(field.name, "id");
    assert_eq!(ty, ScalarType::Int32);
    assert!(simple_description("Plain", false).primary_key().is_none());
}

#[test]
fn table_registry_text() {
    let mut o = Objects::new();
    o.push_description(simple_description("AttackAnimTypes", false));
    o.push_description(simple_description("LockType", true));
    let mut w = Writer::new("");
    create_table_enum(&mut w, &o, DbcVersion::Tbc);
    let mut expected = String::new();
    expected.push_str("use crate::{DbcTable, DbcTableEnum, DbcTableWriter};\n");
    expected.push_str("use crate::load_table_to_enum;\n");
    expected.push_str("#[derive(Copy, Clone, PartialEq, Eq, Hash, Debug)]\n");
    expected.push_str("pub enum TbcTableName {\n");
    expected.push_str("    AttackAnimTypes,\n");
    expected.push_str("    LockType,\n");
    expected.push_str("}\n");
    expected.push_str("\n");
    expected.push_str("#[derive(Debug)]\n");
    expected.push_str("#[cfg_attr(feature = \"serde\", derive(serde::Serialize, serde::Deserialize))]\n");
    expected.push_str("#[cfg_attr(feature = \"serde\", serde(tag = \"type\"))]\n");
    expected.push_str("pub enum TbcTable {\n");
    expected.push_str("    AttackAnimTypes(attack_anim_types::AttackAnimTypes),\n");
    expected.push_str("    LockType(lock_type::LockType),\n");
    expected.push_str("}\n");
    expected.push_str("\n");
    expected.push_str("impl DbcTableEnum<TbcTable> for TbcTableName {\n");
    expected.push_str("    fn load(self, b: &mut impl std::io::Read) -> Result<TbcTable, crate::DbcError> {\n");
    expected.push_str("        match self {\n");
    expected.push_str("            Self::AttackAnimTypes => load_table_to_enum::<attack_anim_types::AttackAnimTypes, TbcTable>(b),\n");
    expected.push_str("            Self::LockType => load_table_to_enum::<lock_type::LockType, TbcTable>(b),\n");
    expected.push_str("        }\n");
    expected.push_str("    }\n");
    expected.push_str("\n");
    expected.push_str("}\n");
    expected.push_str("impl DbcTableWriter for TbcTable {\n");
    expected.push_str("    fn write(self, w: &mut impl std::io::Write) -> Result<(), std::io::Error> {\n");
    expected.push_str("        match self {\n");
    expected.push_str("            Self::AttackAnimTypes(t) => t.write(w),\n");
    expected.push_str("            Self::LockType(t) => t.write(w),\n");
    expected.push_str("        }\n");
    expected.push_str("    }\n");
    expected.push_str("\n");
    expected.push_str("}\n");
    expected.push_str("impl std::str::FromStr for TbcTableName {\n");
    expected.push_str("    type Err = crate::DbcError;\n");
    expected.push_str("    fn from_str(s: &str) -> Result<Self, Self::Err> {\n");
    expected.push_str("        match s {\n");
    expected.push_str("            \"AttackAnimTypes\" => Ok(TbcTableName::AttackAnimTypes),\n");
    expected.push_str("            \"LockType\" => Ok(TbcTableName::LockType),\n");
    expected.push_str("            _ => Err(crate::DbcError::InvalidTableName(s.to_string()))\n");
    expected.push_str("        }\n");
    expected.push_str("    }\n");
    expected.push_str("}\n");
    expected.push_str("\n");
    assert_eq!(w.inner(), expected);
}

#[test]
fn registry_emission_is_deterministic() {
    let mut o = Objects::new();
    o.push_description(simple_description("FileData", true));
    let mut w1 = Writer::new("");
    create_table_enum(&mut w1, &o, DbcVersion::Wrath);
    let mut w2 = Writer::new("");
    create_table_enum(&mut w2, &o, DbcVersion::Wrath);
    assert_eq!(w1.inner(), w2.inner());
}
