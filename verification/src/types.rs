//! The schema model the code generator consumes: one description per
//! table, holding its name, its on-disk file name and its ordered fields,
//! collected per game version.

use vstd::prelude::*;
use crate::util::{bytes_eq, find_first, lemma_find_first_hit, lemma_find_first_miss};

verus! {

/// One of the three game versions the generator emits tables for.
#[derive(Debug, Clone, Copy, PartialEq, Eq, PartialOrd, Ord, Hash, Structural)]
pub enum DbcVersion {
    Vanilla,
    Tbc,
    Wrath,
}

/// The lower-case name of a version.
pub open spec fn version_str(v: DbcVersion) -> Seq<char> {
    match v {
        DbcVersion::Vanilla => "vanilla"@,
        DbcVersion::Tbc => "tbc"@,
        DbcVersion::Wrath => "wrath"@,
    }
}

/// The capitalized name of a version.
pub open spec fn version_str_capitalized(v: DbcVersion) -> Seq<char> {
    match v {
        DbcVersion::Vanilla => "Vanilla"@,
        DbcVersion::Tbc => "Tbc"@,
        DbcVersion::Wrath => "Wrath"@,
    }
}

impl DbcVersion {
    /// The lower-case version name.
    pub fn to_str(&self) -> (r: &'static str)
        ensures
            r@ == version_str(*self),
    {
        match self {
            DbcVersion::Vanilla => "vanilla",
            DbcVersion::Tbc => "tbc",
            DbcVersion::Wrath => "wrath",
        }
    }

    /// The capitalized version name.
    pub fn to_str_capitalized(&self) -> (r: &'static str)
        ensures
            r@ == version_str_capitalized(*self),
    {
        match self {
            DbcVersion::Vanilla => "Vanilla",
            DbcVersion::Tbc => "Tbc",
            DbcVersion::Wrath => "Wrath",
        }
    }

    /// The module the version's tables are generated into.
    pub fn module_name(&self) -> (r: String)
        ensures
            r@ == version_str(*self) + "_tables"@,
    {
        self.to_str().to_owned().concat("_tables")
    }

    /// The directory the version's test data sits in.
    pub fn test_dir_name(&self) -> (r: String)
        ensures
            r@ == version_str(*self) + "-dbc"@,
    {
        self.to_str().to_owned().concat("-dbc")
    }

    /// The directory the version's XML schemas sit in.
    pub fn xml_dir_name(&self) -> (r: String)
        ensures
            r@ == version_str(*self) + "_xml"@,
    {
        self.to_str().to_owned().concat("_xml")
    }
}

/// A scalar field type: an integer, a float, a 32-bit boolean or a single
/// string reference.
#[derive(Debug, Clone, Copy, PartialEq, Eq, Structural)]
pub enum ScalarType {
    Int8,
    Int16,
    Int32,
    Uint8,
    Uint16,
    Uint32,
    Float,
    Bool32,
    StringRef,
}

/// A field type of the schema vocabulary.
#[derive(Debug, Clone, PartialEq)]
pub enum Type {
    Scalar(ScalarType),
    StringRefLoc,
    ExtendedStringRefLoc,
    Array { ty: ScalarType, size: u32 },
    PrimaryKey { table: String, ty: ScalarType },
    ForeignKey { table: String, ty: ScalarType },
    Enum { name: String },
}

/// One schema field: a name, a type and a free-form comment.
#[derive(Debug, Clone, PartialEq)]
pub struct Field {
    pub name: String,
    pub ty: Type,
    pub comment: String,
}

/// One table's schema: its name, its on-disk file name and its ordered
/// fields.
#[derive(Debug, Clone, PartialEq)]
pub struct DbcDescription {
    pub name: String,
    pub filename: String,
    pub fields: Vec<Field>,
}

impl DbcDescription {
    /// The table's CamelCase name.
    pub fn name(&self) -> (r: &String)
        ensures
            r@ == self.name@,
    {
        &self.name
    }

    /// Where the primary-key field stands, if the schema declares one.
    pub open spec fn primary_key_index(&self) -> Option<int> {
        find_first(self.fields@, |f: Field| f.ty matches Type::PrimaryKey { .. })
    }

    /// The first primary-key field and the integer type under it, if the
    /// schema declares one.
    #[verifier::loop_isolation(false)]
    pub fn primary_key(&self) -> (r: Option<(&Field, ScalarType)>)
        ensures
            match r {
                Some(p) => {
                    &&& self.primary_key_index() matches Some(i)
                    &&& *p.0 == self.fields@[i]
                    &&& self.fields@[i].ty matches Type::PrimaryKey { ty, .. } && p.1 == ty
                },
                None => self.primary_key_index() is None,
            },
    {
        let ghost p = |f: Field| f.ty matches Type::PrimaryKey { .. };
        let n = self.fields.len();
        let mut i: usize = 0;
        while i < n
            invariant
                0 <= i <= n,
                n == self.fields@.len(),
                forall|j: int| 0 <= j < i ==> !p(self.fields@[j]),
            decreases n - i,
        {
            let field = &self.fields[i];
            match &field.ty {
                Type::PrimaryKey { table: _, ty } => {
                    proof {
                        assert(p(self.fields@[i as int]));
                        lemma_find_first_hit(self.fields@, p, i as int);
                    }
                    return Some((field, *ty));
                },
                _ => {
                    proof {
                        assert(!p(self.fields@[i as int]));
                    }
                },
            }
            i = i + 1;
        }
        proof {
            lemma_find_first_miss(self.fields@, p);
        }
        None
    }
}

/// The catalog of all table descriptions of one version.
#[derive(Debug, Clone, PartialEq)]
pub struct Objects {
    pub descriptions: Vec<DbcDescription>,
}

/// Whether some description in `ds` carries the name `name`.
pub open spec fn spec_table_exists(ds: Seq<DbcDescription>, name: Seq<char>) -> bool {
    exists|i: int| 0 <= i < ds.len() && ds[i].name@ == name
}

impl Objects {
    /// An empty catalog.
    pub fn new() -> (r: Objects)
        ensures
            r.descriptions@ == Seq::<DbcDescription>::empty(),
    {
        Objects { descriptions: Vec::new() }
    }

    /// Adds one parsed description to the catalog.
    pub fn push_description(&mut self, d: DbcDescription)
        ensures
            final(self).descriptions@ == old(self).descriptions@.push(d),
    {
        self.descriptions.push(d);
    }

    /// The collected descriptions, in catalog order.
    pub fn descriptions(&self) -> (r: &Vec<DbcDescription>)
        ensures
            r@ == self.descriptions@,
    {
        &self.descriptions
    }

    /// Whether a table of the given name was collected: this is how
    /// foreign-key targets are resolved after the first pass.
    #[verifier::loop_isolation(false)]
    pub fn table_exists(&self, table_name: &str) -> (r: bool)
        ensures
            r == spec_table_exists(self.descriptions@, table_name@),
    {
        let n = self.descriptions.len();
        let mut i: usize = 0;
        while i < n
            invariant
                0 <= i <= n,
                n == self.descriptions@.len(),
                forall|j: int| 0 <= j < i ==> self.descriptions@[j].name@ != table_name@,
            decreases n - i,
        {
            if bytes_eq(self.descriptions[i].name.as_str().as_bytes(), table_name.as_bytes()) {
                proof {
                    vstd::utf8::encode_utf8_decode_utf8(self.descriptions@[i as int].name@);
                    vstd::utf8::encode_utf8_decode_utf8(table_name@);
                }
                return true;
            }
            proof {
                assert(self.descriptions@[i as int].name@ != table_name@);
            }
            i = i + 1;
        }
        false
    }

    /// Where the first description carrying `name` stands, if anywhere.
    pub open spec fn desc_index(ds: Seq<DbcDescription>, name: Seq<char>) -> Option<int> {
        find_first(ds, |d: DbcDescription| d.name@ == name)
    }

    /// The primary-key field and its integer type for the named table:
    /// nothing when no table of that name was collected, and nothing when
    /// the table declares no primary key.
    #[verifier::loop_isolation(false)]
    pub fn table_primary_key_ty(&self, table_name: &str) -> (r: Option<(&Field, ScalarType)>)
        ensures
            match Self::desc_index(self.descriptions@, table_name@) {
                Some(i) => match self.descriptions@[i].primary_key_index() {
                    Some(k) => {
                        &&& r matches Some(p)
                        &&& *p.0 == self.descriptions@[i].fields@[k]
                        &&& self.descriptions@[i].fields@[k].ty matches Type::PrimaryKey {
                            ty,
                            ..
                        } && p.1 == ty
                    },
                    None => r is None,
                },
                None => r is None,
            },
    {
        let ghost q = |d: DbcDescription| d.name@ == table_name@;
        let n = self.descriptions.len();
        let mut i: usize = 0;
        while i < n
            invariant
                0 <= i <= n,
                n == self.descriptions@.len(),
                forall|j: int| 0 <= j < i ==> !q(self.descriptions@[j]),
            decreases n - i,
        {
            if bytes_eq(self.descriptions[i].name.as_str().as_bytes(), table_name.as_bytes()) {
                proof {
                    vstd::utf8::encode_utf8_decode_utf8(self.descriptions@[i as int].name@);
                    vstd::utf8::encode_utf8_decode_utf8(table_name@);
                    assert(q(self.descriptions@[i as int]));
                    lemma_find_first_hit(self.descriptions@, q, i as int);
                }
                return self.descriptions[i].primary_key();
            }
            proof {
                assert(!q(self.descriptions@[i as int]));
            }
            i = i + 1;
        }
        proof {
            lemma_find_first_miss(self.descriptions@, q);
        }
        None
    }
}

} // verus!
