//! The code generator's version-wide emitter: for one game version it
//! prints the table-name enum, the table enum, the dynamic load and write
//! dispatchers, and the name parser. The emitted text is pinned exactly by
//! [`table_enum_text`], so two runs over the same catalog produce
//! byte-identical output.

use vstd::prelude::*;
use crate::types::{DbcDescription, DbcVersion, Objects, version_str_capitalized};
use crate::writer::{Writer, ind_text, snake_of, snake_case};

verus! {

/// The names of the catalog's tables, in catalog order.
pub open spec fn desc_names(ds: Seq<DbcDescription>) -> Seq<Seq<char>> {
    ds.map_values(|d: DbcDescription| d.name@)
}

/// A sequence of text pieces, joined in order.
pub open spec fn concat_texts(ps: Seq<Seq<char>>) -> Seq<char>
    decreases ps.len(),
{
    if ps.len() == 0 {
        Seq::empty()
    } else {
        ps[0] + concat_texts(ps.drop_first())
    }
}

pub proof fn lemma_concat_texts_push(ps: Seq<Seq<char>>, p: Seq<char>)
    ensures
        concat_texts(ps.push(p)) == concat_texts(ps) + p,
    decreases ps.len(),
{
    if ps.len() == 0 {
        assert(ps.push(p)[0] == p);
        assert(ps.push(p).drop_first() =~= Seq::<Seq<char>>::empty());
        assert(concat_texts(Seq::<Seq<char>>::empty()) =~= Seq::<char>::empty());
        assert(concat_texts(ps) =~= Seq::<char>::empty());
        assert(concat_texts(ps.push(p)) =~= concat_texts(ps) + p);
    } else {
        assert(ps.push(p)[0] == ps[0]);
        assert(ps.push(p).drop_first() =~= ps.drop_first().push(p));
        lemma_concat_texts_push(ps.drop_first(), p);
        assert(concat_texts(ps.push(p)) =~= concat_texts(ps) + p);
    }
}

/// One variant line of the name enum.
pub open spec fn name_variant_piece(n: Seq<char>) -> Seq<char> {
    ind_text(1) + n + ","@ + "\n"@
}

/// One variant line of the table enum.
pub open spec fn table_variant_piece(n: Seq<char>) -> Seq<char> {
    ind_text(1) + n + "("@ + snake_of(n) + "::"@ + n + "),"@ + "\n"@
}

/// One dispatch arm of the load match.
pub open spec fn load_arm_piece(n: Seq<char>, v: DbcVersion) -> Seq<char> {
    ind_text(3) + "Self::"@ + n + " => load_table_to_enum::<"@ + snake_of(n) + "::"@ + n + ", "@
        + version_str_capitalized(v) + "Table>(b),"@ + "\n"@
}

/// One dispatch arm of the write match.
pub open spec fn write_arm_piece(n: Seq<char>) -> Seq<char> {
    ind_text(3) + "Self::"@ + n + "(t) => t.write(w),"@ + "\n"@
}

/// One parse arm of the name match.
pub open spec fn parse_arm_piece(n: Seq<char>, v: DbcVersion) -> Seq<char> {
    ind_text(3) + "\""@ + n + "\" => Ok("@ + version_str_capitalized(v) + "TableName::"@ + n
        + "),"@ + "\n"@
}

pub open spec fn name_variant_lines(names: Seq<Seq<char>>) -> Seq<char> {
    concat_texts(names.map_values(|n: Seq<char>| name_variant_piece(n)))
}

pub open spec fn table_variant_lines(names: Seq<Seq<char>>) -> Seq<char> {
    concat_texts(names.map_values(|n: Seq<char>| table_variant_piece(n)))
}

pub open spec fn load_arm_lines(names: Seq<Seq<char>>, v: DbcVersion) -> Seq<char> {
    concat_texts(names.map_values(|n: Seq<char>| load_arm_piece(n, v)))
}

pub open spec fn write_arm_lines(names: Seq<Seq<char>>) -> Seq<char> {
    concat_texts(names.map_values(|n: Seq<char>| write_arm_piece(n)))
}

pub open spec fn parse_arm_lines(names: Seq<Seq<char>>, v: DbcVersion) -> Seq<char> {
    concat_texts(names.map_values(|n: Seq<char>| parse_arm_piece(n, v)))
}

/// A top-level line with its newline.
pub open spec fn line0(t: Seq<char>) -> Seq<char> {
    t + "\n"@
}

/// The opening of a block at depth `d`.
pub open spec fn open0(d: int, t: Seq<char>) -> Seq<char> {
    ind_text(d) + t + " {"@ + "\n"@
}

/// The closing brace at depth `d`.
pub open spec fn close0(d: int) -> Seq<char> {
    ind_text(d) + "}"@ + "\n"@
}

/// The text of the name-enum section.
pub open spec fn sec_name_enum(v: DbcVersion, names: Seq<Seq<char>>) -> Seq<char> {
    let cap = version_str_capitalized(v);
    line0("use crate::{DbcTable, DbcTableEnum, DbcTableWriter};"@) + line0(
        "use crate::load_table_to_enum;"@,
    ) + line0("#[derive(Copy, Clone, PartialEq, Eq, Hash, Debug)]"@) + open0(
        0,
        "pub enum "@ + cap + "TableName"@,
    ) + name_variant_lines(names) + close0(0) + "\n"@
}

/// The text of the table-enum section.
pub open spec fn sec_table_enum(v: DbcVersion, names: Seq<Seq<char>>) -> Seq<char> {
    let cap = version_str_capitalized(v);
    line0("#[derive(Debug)]"@) + line0(
        "#[cfg_attr(feature = \"serde\", derive(serde::Serialize, serde::Deserialize))]"@,
    ) + line0("#[cfg_attr(feature = \"serde\", serde(tag = \"type\"))]"@) + open0(
        0,
        "pub enum "@ + cap + "Table"@,
    ) + table_variant_lines(names) + close0(0) + "\n"@
}

/// The text of the load-dispatch section.
pub open spec fn sec_load(v: DbcVersion, names: Seq<Seq<char>>) -> Seq<char> {
    let cap = version_str_capitalized(v);
    open0(0, "impl DbcTableEnum<"@ + cap + "Table> for "@ + cap + "TableName"@) + open0(
        1,
        "fn load(self, b: &mut impl std::io::Read) -> Result<"@ + cap
            + "Table, crate::DbcError>"@,
    ) + open0(2, "match self"@) + load_arm_lines(names, v) + close0(2) + close0(1) + "\n"@
        + close0(0)
}

/// The text of the write-dispatch section.
pub open spec fn sec_write(v: DbcVersion, names: Seq<Seq<char>>) -> Seq<char> {
    let cap = version_str_capitalized(v);
    open0(0, "impl DbcTableWriter for "@ + cap + "Table"@) + open0(
        1,
        "fn write(self, w: &mut impl std::io::Write) -> Result<(), std::io::Error>"@,
    ) + open0(2, "match self"@) + write_arm_lines(names) + close0(2) + close0(1) + "\n"@
        + close0(0)
}

/// The text of the name-parser section.
pub open spec fn sec_fromstr(v: DbcVersion, names: Seq<Seq<char>>) -> Seq<char> {
    let cap = version_str_capitalized(v);
    open0(0, "impl std::str::FromStr for "@ + cap + "TableName"@) + line0(
        ind_text(1) + "type Err = crate::DbcError;"@,
    ) + open0(1, "fn from_str(s: &str) -> Result<Self, Self::Err>"@) + open0(2, "match s"@)
        + parse_arm_lines(names, v) + line0(
        ind_text(3) + "_ => Err(crate::DbcError::InvalidTableName(s.to_string()))"@,
    ) + close0(2) + close0(1) + close0(0) + "\n"@
}

/// The whole text emitted for one version's table registry: the name enum,
/// the table enum, the load and write dispatchers, and the name parser.
pub open spec fn table_enum_text(v: DbcVersion, names: Seq<Seq<char>>) -> Seq<char> {
    sec_name_enum(v, names) + sec_table_enum(v, names) + sec_load(v, names) + sec_write(v, names)
        + sec_fromstr(v, names)
}

/// The emitted text is a function of the version and the catalog's names
/// alone: two runs over equal inputs emit byte-identical text.
pub proof fn lemma_printer_deterministic(
    t1: Seq<char>,
    t2: Seq<char>,
    v: DbcVersion,
    names: Seq<Seq<char>>,
)
    requires
        t1 == table_enum_text(v, names),
        t2 == table_enum_text(v, names),
    ensures
        t1 == t2,
{
}

/// Reassociates a seven-piece concatenation after an accumulator.
proof fn lemma_concat7(
    a: Seq<char>,
    x1: Seq<char>,
    x2: Seq<char>,
    x3: Seq<char>,
    x4: Seq<char>,
    x5: Seq<char>,
    x6: Seq<char>,
    x7: Seq<char>,
)
    ensures
        a + x1 + x2 + x3 + x4 + x5 + x6 + x7 == a + (x1 + x2 + x3 + x4 + x5 + x6 + x7),
{
    assert(a + x1 + x2 + x3 + x4 + x5 + x6 + x7 =~= a + (x1 + x2 + x3 + x4 + x5 + x6 + x7));
}

/// Reassociates an eight-piece concatenation after an accumulator.
proof fn lemma_concat8(
    a: Seq<char>,
    x1: Seq<char>,
    x2: Seq<char>,
    x3: Seq<char>,
    x4: Seq<char>,
    x5: Seq<char>,
    x6: Seq<char>,
    x7: Seq<char>,
    x8: Seq<char>,
)
    ensures
        a + x1 + x2 + x3 + x4 + x5 + x6 + x7 + x8 == a + (x1 + x2 + x3 + x4 + x5 + x6 + x7 + x8),
{
    assert(a + x1 + x2 + x3 + x4 + x5 + x6 + x7 + x8 =~= a + (x1 + x2 + x3 + x4 + x5 + x6 + x7
        + x8));
}

/// Reassociates a ten-piece concatenation after an accumulator.
proof fn lemma_concat10(
    a: Seq<char>,
    x1: Seq<char>,
    x2: Seq<char>,
    x3: Seq<char>,
    x4: Seq<char>,
    x5: Seq<char>,
    x6: Seq<char>,
    x7: Seq<char>,
    x8: Seq<char>,
    x9: Seq<char>,
    x10: Seq<char>,
)
    ensures
        a + x1 + x2 + x3 + x4 + x5 + x6 + x7 + x8 + x9 + x10 == a + (x1 + x2 + x3 + x4 + x5 + x6
            + x7 + x8 + x9 + x10),
{
    assert(a + x1 + x2 + x3 + x4 + x5 + x6 + x7 + x8 + x9 + x10 =~= a + (x1 + x2 + x3 + x4 + x5
        + x6 + x7 + x8 + x9 + x10));
}

/// Emits the name enum.
#[verifier::loop_isolation(false)]
#[verifier::rlimit(100)]
fn emit_name_enum(s: &mut Writer, o: &Objects, version: DbcVersion)
    requires
        old(s).indent == 0,
    ensures
        final(s).buf@ == old(s).buf@ + sec_name_enum(version, desc_names(o.descriptions@)),
        final(s).indent == 0,
        final(s).name == old(s).name,
{
    let ghost names = desc_names(o.descriptions@);
    let ghost buf0 = old(s).buf@;
    let cap = version.to_str_capitalized();
    proof {
        assert(ind_text(0) =~= Seq::<char>::empty());
    }
    s.wln("use crate::{DbcTable, DbcTableEnum, DbcTableWriter};");
    s.wln("use crate::load_table_to_enum;");
    s.wln("#[derive(Copy, Clone, PartialEq, Eq, Hash, Debug)]");
    let header = String::new().concat("pub enum ").concat(cap).concat("TableName");
    s.open_block(header.as_str());
    let n = o.descriptions.len();
    let ghost chunk1 = buf0 + line0("use crate::{DbcTable, DbcTableEnum, DbcTableWriter};"@)
        + line0("use crate::load_table_to_enum;"@) + line0(
        "#[derive(Copy, Clone, PartialEq, Eq, Hash, Debug)]"@,
    ) + open0(0, "pub enum "@ + version_str_capitalized(version) + "TableName"@);
    proof {
        assert(names.take(0).map_values(|q: Seq<char>| name_variant_piece(q)).len() == 0);
        assert(concat_texts(names.take(0).map_values(|q: Seq<char>| name_variant_piece(q)))
            =~= Seq::<char>::empty());
        assert(s.buf@ =~= chunk1 + name_variant_lines(names.take(0)));
    }
    let mut i: usize = 0;
    while i < n
        invariant
            0 <= i <= n,
            n == o.descriptions@.len(),
            s.indent == 1,
            s.name == old(s).name,
            s.buf@ == chunk1 + name_variant_lines(names.take(i as int)),
        decreases n - i,
    {
        let line = o.descriptions[i].name.clone().concat(",");
        s.wln(line.as_str());
        proof {
            lemma_concat_texts_push(
                names.take(i as int).map_values(|q: Seq<char>| name_variant_piece(q)),
                name_variant_piece(names[i as int]),
            );
            assert(names.take(i + 1).map_values(|q: Seq<char>| name_variant_piece(q)) =~= names.take(
                i as int,
            ).map_values(|q: Seq<char>| name_variant_piece(q)).push(
                name_variant_piece(names[i as int]),
            ));
            assert(s.buf@ =~= chunk1 + name_variant_lines(names.take(i + 1)));
        }
        i = i + 1;
    }
    proof {
        assert(names.take(n as int) =~= names);
    }
    s.closen_block();
    proof {
        lemma_concat7(
            buf0,
            line0("use crate::{DbcTable, DbcTableEnum, DbcTableWriter};"@),
            line0("use crate::load_table_to_enum;"@),
            line0("#[derive(Copy, Clone, PartialEq, Eq, Hash, Debug)]"@),
            open0(0, "pub enum "@ + version_str_capitalized(version) + "TableName"@),
            name_variant_lines(names),
            close0(0),
            "\n"@,
        );
    }
}

/// Emits the table enum.
#[verifier::loop_isolation(false)]
#[verifier::rlimit(100)]
fn emit_table_enum(s: &mut Writer, o: &Objects, version: DbcVersion)
    requires
        old(s).indent == 0,
        forall|i: int|
            0 <= i < o.descriptions@.len() ==> vstd::utf8::is_ascii_chars(
                (#[trigger] o.descriptions@[i]).name@,
            ),
    ensures
        final(s).buf@ == old(s).buf@ + sec_table_enum(version, desc_names(o.descriptions@)),
        final(s).indent == 0,
        final(s).name == old(s).name,
{
    let ghost names = desc_names(o.descriptions@);
    let ghost buf0 = old(s).buf@;
    let cap = version.to_str_capitalized();
    proof {
        assert(ind_text(0) =~= Seq::<char>::empty());
    }
    s.wln("#[derive(Debug)]");
    s.wln("#[cfg_attr(feature = \"serde\", derive(serde::Serialize, serde::Deserialize))]");
    s.wln("#[cfg_attr(feature = \"serde\", serde(tag = \"type\"))]");
    let header = String::new().concat("pub enum ").concat(cap).concat("Table");
    s.open_block(header.as_str());
    let n = o.descriptions.len();
    let ghost chunk = buf0 + line0("#[derive(Debug)]"@) + line0(
        "#[cfg_attr(feature = \"serde\", derive(serde::Serialize, serde::Deserialize))]"@,
    ) + line0("#[cfg_attr(feature = \"serde\", serde(tag = \"type\"))]"@) + open0(
        0,
        "pub enum "@ + version_str_capitalized(version) + "Table"@,
    );
    proof {
        assert(names.take(0).map_values(|q: Seq<char>| table_variant_piece(q)).len() == 0);
        assert(concat_texts(names.take(0).map_values(|q: Seq<char>| table_variant_piece(q)))
            =~= Seq::<char>::empty());
        assert(s.buf@ =~= chunk + table_variant_lines(names.take(0)));
    }
    let mut i: usize = 0;
    while i < n
        invariant
            0 <= i <= n,
            n == o.descriptions@.len(),
            s.indent == 1,
            s.name == old(s).name,
            s.buf@ == chunk + table_variant_lines(names.take(i as int)),
        decreases n - i,
    {
        let module = snake_case(o.descriptions[i].name.as_str());
        let line = o.descriptions[i].name.clone().concat("(").concat(module.as_str()).concat(
            "::",
        ).concat(o.descriptions[i].name.as_str()).concat("),");
        s.wln(line.as_str());
        proof {
            lemma_concat_texts_push(
                names.take(i as int).map_values(|q: Seq<char>| table_variant_piece(q)),
                table_variant_piece(names[i as int]),
            );
            assert(names.take(i + 1).map_values(|q: Seq<char>| table_variant_piece(q))
                =~= names.take(i as int).map_values(|q: Seq<char>| table_variant_piece(q)).push(
                table_variant_piece(names[i as int]),
            ));
            assert(s.buf@ =~= chunk + table_variant_lines(names.take(i + 1)));
        }
        i = i + 1;
    }
    proof {
        assert(names.take(n as int) =~= names);
    }
    s.closen_block();
    proof {
        lemma_concat7(
            buf0,
            line0("#[derive(Debug)]"@),
            line0(
                "#[cfg_attr(feature = \"serde\", derive(serde::Serialize, serde::Deserialize))]"@,
            ),
            line0("#[cfg_attr(feature = \"serde\", serde(tag = \"type\"))]"@),
            open0(0, "pub enum "@ + version_str_capitalized(version) + "Table"@),
            table_variant_lines(names),
            close0(0),
            "\n"@,
        );
    }
}

/// Emits the load dispatcher.
#[verifier::loop_isolation(false)]
#[verifier::rlimit(100)]
fn emit_load(s: &mut Writer, o: &Objects, version: DbcVersion)
    requires
        old(s).indent == 0,
        forall|i: int|
            0 <= i < o.descriptions@.len() ==> vstd::utf8::is_ascii_chars(
                (#[trigger] o.descriptions@[i]).name@,
            ),
    ensures
        final(s).buf@ == old(s).buf@ + sec_load(version, desc_names(o.descriptions@)),
        final(s).indent == 0,
        final(s).name == old(s).name,
{
    let ghost names = desc_names(o.descriptions@);
    let ghost buf0 = old(s).buf@;
    let cap = version.to_str_capitalized();
    proof {
        assert(ind_text(0) =~= Seq::<char>::empty());
    }
    let header = String::new().concat("impl DbcTableEnum<").concat(cap).concat(
        "Table> for ",
    ).concat(cap).concat("TableName");
    s.open_block(header.as_str());
    let header2 = String::new().concat(
        "fn load(self, b: &mut impl std::io::Read) -> Result<",
    ).concat(cap).concat("Table, crate::DbcError>");
    s.open_block(header2.as_str());
    s.open_block("match self");
    let n = o.descriptions.len();
    let ghost chunk = buf0 + open0(
        0,
        "impl DbcTableEnum<"@ + version_str_capitalized(version) + "Table> for "@
            + version_str_capitalized(version) + "TableName"@,
    ) + open0(
        1,
        "fn load(self, b: &mut impl std::io::Read) -> Result<"@ + version_str_capitalized(version)
            + "Table, crate::DbcError>"@,
    ) + open0(2, "match self"@);
    proof {
        assert(names.take(0).map_values(|q: Seq<char>| load_arm_piece(q, version)).len() == 0);
        assert(concat_texts(names.take(0).map_values(|q: Seq<char>| load_arm_piece(q, version)))
            =~= Seq::<char>::empty());
        assert(s.buf@ =~= chunk + load_arm_lines(names.take(0), version));
    }
    let mut i: usize = 0;
    while i < n
        invariant
            0 <= i <= n,
            n == o.descriptions@.len(),
            s.indent == 3,
            s.name == old(s).name,
            s.buf@ == chunk + load_arm_lines(names.take(i as int), version),
        decreases n - i,
    {
        let module = snake_case(o.descriptions[i].name.as_str());
        let line = String::new().concat("Self::").concat(o.descriptions[i].name.as_str()).concat(
            " => load_table_to_enum::<",
        ).concat(module.as_str()).concat("::").concat(o.descriptions[i].name.as_str()).concat(
            ", ",
        ).concat(cap).concat("Table>(b),");
        s.wln(line.as_str());
        proof {
            lemma_concat_texts_push(
                names.take(i as int).map_values(|q: Seq<char>| load_arm_piece(q, version)),
                load_arm_piece(names[i as int], version),
            );
            assert(names.take(i + 1).map_values(|q: Seq<char>| load_arm_piece(q, version))
                =~= names.take(i as int).map_values(
                |q: Seq<char>| load_arm_piece(q, version),
            ).push(load_arm_piece(names[i as int], version)));
            assert(s.buf@ =~= chunk + load_arm_lines(names.take(i + 1), version));
        }
        i = i + 1;
    }
    proof {
        assert(names.take(n as int) =~= names);
    }
    s.close_block();
    s.closen_block();
    s.close_block();
    proof {
        lemma_concat8(
            buf0,
            open0(
                0,
                "impl DbcTableEnum<"@ + version_str_capitalized(version) + "Table> for "@
                    + version_str_capitalized(version) + "TableName"@,
            ),
            open0(
                1,
                "fn load(self, b: &mut impl std::io::Read) -> Result<"@ + version_str_capitalized(
                    version,
                ) + "Table, crate::DbcError>"@,
            ),
            open0(2, "match self"@),
            load_arm_lines(names, version),
            close0(2),
            close0(1),
            "\n"@,
            close0(0),
        );
    }
}

/// Emits the write dispatcher.
#[verifier::loop_isolation(false)]
#[verifier::rlimit(100)]
fn emit_write(s: &mut Writer, o: &Objects, version: DbcVersion)
    requires
        old(s).indent == 0,
    ensures
        final(s).buf@ == old(s).buf@ + sec_write(version, desc_names(o.descriptions@)),
        final(s).indent == 0,
        final(s).name == old(s).name,
{
    let ghost names = desc_names(o.descriptions@);
    let ghost buf0 = old(s).buf@;
    let cap = version.to_str_capitalized();
    proof {
        assert(ind_text(0) =~= Seq::<char>::empty());
    }
    let header = String::new().concat("impl DbcTableWriter for ").concat(cap).concat("Table");
    s.open_block(header.as_str());
    s.open_block("fn write(self, w: &mut impl std::io::Write) -> Result<(), std::io::Error>");
    s.open_block("match self");
    let n = o.descriptions.len();
    let ghost chunk = buf0 + open0(
        0,
        "impl DbcTableWriter for "@ + version_str_capitalized(version) + "Table"@,
    ) + open0(1, "fn write(self, w: &mut impl std::io::Write) -> Result<(), std::io::Error>"@)
        + open0(2, "match self"@);
    proof {
        assert(names.take(0).map_values(|q: Seq<char>| write_arm_piece(q)).len() == 0);
        assert(concat_texts(names.take(0).map_values(|q: Seq<char>| write_arm_piece(q)))
            =~= Seq::<char>::empty());
        assert(s.buf@ =~= chunk + write_arm_lines(names.take(0)));
    }
    let mut i: usize = 0;
    while i < n
        invariant
            0 <= i <= n,
            n == o.descriptions@.len(),
            s.indent == 3,
            s.name == old(s).name,
            s.buf@ == chunk + write_arm_lines(names.take(i as int)),
        decreases n - i,
    {
        let line = String::new().concat("Self::").concat(o.descriptions[i].name.as_str()).concat(
            "(t) => t.write(w),",
        );
        s.wln(line.as_str());
        proof {
            lemma_concat_texts_push(
                names.take(i as int).map_values(|q: Seq<char>| write_arm_piece(q)),
                write_arm_piece(names[i as int]),
            );
            assert(names.take(i + 1).map_values(|q: Seq<char>| write_arm_piece(q)) =~= names.take(
                i as int,
            ).map_values(|q: Seq<char>| write_arm_piece(q)).push(
                write_arm_piece(names[i as int]),
            ));
            assert(s.buf@ =~= chunk + write_arm_lines(names.take(i + 1)));
        }
        i = i + 1;
    }
    proof {
        assert(names.take(n as int) =~= names);
    }
    s.close_block();
    s.closen_block();
    s.close_block();
    proof {
        lemma_concat8(
            buf0,
            open0(0, "impl DbcTableWriter for "@ + version_str_capitalized(version) + "Table"@),
            open0(
                1,
                "fn write(self, w: &mut impl std::io::Write) -> Result<(), std::io::Error>"@,
            ),
            open0(2, "match self"@),
            write_arm_lines(names),
            close0(2),
            close0(1),
            "\n"@,
            close0(0),
        );
    }
}

/// Emits the name parser.
#[verifier::loop_isolation(false)]
#[verifier::rlimit(100)]
fn emit_fromstr(s: &mut Writer, o: &Objects, version: DbcVersion)
    requires
        old(s).indent == 0,
    ensures
        final(s).buf@ == old(s).buf@ + sec_fromstr(version, desc_names(o.descriptions@)),
        final(s).indent == 0,
        final(s).name == old(s).name,
{
    let ghost names = desc_names(o.descriptions@);
    let ghost buf0 = old(s).buf@;
    let cap = version.to_str_capitalized();
    proof {
        assert(ind_text(0) =~= Seq::<char>::empty());
    }
    let header = String::new().concat("impl std::str::FromStr for ").concat(cap).concat(
        "TableName",
    );
    s.open_block(header.as_str());
    s.wln("type Err = crate::DbcError;");
    s.open_block("fn from_str(s: &str) -> Result<Self, Self::Err>");
    s.open_block("match s");
    let n = o.descriptions.len();
    let ghost chunk = buf0 + open0(
        0,
        "impl std::str::FromStr for "@ + version_str_capitalized(version) + "TableName"@,
    ) + line0(ind_text(1) + "type Err = crate::DbcError;"@) + open0(
        1,
        "fn from_str(s: &str) -> Result<Self, Self::Err>"@,
    ) + open0(2, "match s"@);
    proof {
        assert(names.take(0).map_values(|q: Seq<char>| parse_arm_piece(q, version)).len() == 0);
        assert(concat_texts(names.take(0).map_values(|q: Seq<char>| parse_arm_piece(q, version)))
            =~= Seq::<char>::empty());
        assert(s.buf@ =~= chunk + parse_arm_lines(names.take(0), version));
    }
    let mut i: usize = 0;
    while i < n
        invariant
            0 <= i <= n,
            n == o.descriptions@.len(),
            s.indent == 3,
            s.name == old(s).name,
            s.buf@ == chunk + parse_arm_lines(names.take(i as int), version),
        decreases n - i,
    {
        let line = String::new().concat("\"").concat(o.descriptions[i].name.as_str()).concat(
            "\" => Ok(",
        ).concat(cap).concat("TableName::").concat(o.descriptions[i].name.as_str()).concat("),");
        s.wln(line.as_str());
        proof {
            lemma_concat_texts_push(
                names.take(i as int).map_values(|q: Seq<char>| parse_arm_piece(q, version)),
                parse_arm_piece(names[i as int], version),
            );
            assert(names.take(i + 1).map_values(|q: Seq<char>| parse_arm_piece(q, version))
                =~= names.take(i as int).map_values(
                |q: Seq<char>| parse_arm_piece(q, version),
            ).push(parse_arm_piece(names[i as int], version)));
            assert(s.buf@ =~= chunk + parse_arm_lines(names.take(i + 1), version));
        }
        i = i + 1;
    }
    proof {
        assert(names.take(n as int) =~= names);
    }
    s.wln("_ => Err(crate::DbcError::InvalidTableName(s.to_string()))");
    s.close_block();
    s.close_block();
    s.closen_block();
    proof {
        lemma_concat10(
            buf0,
            open0(
                0,
                "impl std::str::FromStr for "@ + version_str_capitalized(version) + "TableName"@,
            ),
            line0(ind_text(1) + "type Err = crate::DbcError;"@),
            open0(1, "fn from_str(s: &str) -> Result<Self, Self::Err>"@),
            open0(2, "match s"@),
            parse_arm_lines(names, version),
            line0(ind_text(3) + "_ => Err(crate::DbcError::InvalidTableName(s.to_string()))"@),
            close0(2),
            close0(1),
            close0(0),
            "\n"@,
        );
    }
}

/// Concatenation of five pieces after an accumulator associates freely.
proof fn lemma_concat5(
    a: Seq<char>,
    s1: Seq<char>,
    s2: Seq<char>,
    s3: Seq<char>,
    s4: Seq<char>,
    s5: Seq<char>,
)
    ensures
        a + s1 + s2 + s3 + s4 + s5 == a + (s1 + s2 + s3 + s4 + s5),
{
    assert(a + s1 + s2 + s3 + s4 + s5 =~= a + (s1 + s2 + s3 + s4 + s5));
}

/// Emits the table registry for one version into `s`: both enums, the load
/// and write dispatchers, and the name parser.
pub fn create_table_enum(s: &mut Writer, o: &Objects, version: DbcVersion)
    requires
        old(s).indent == 0,
        forall|i: int|
            0 <= i < o.descriptions@.len() ==> vstd::utf8::is_ascii_chars(
                (#[trigger] o.descriptions@[i]).name@,
            ),
    ensures
        final(s).buf@ == old(s).buf@ + table_enum_text(version, desc_names(o.descriptions@)),
        final(s).indent == 0,
        final(s).name == old(s).name,
{
    emit_name_enum(s, o, version);
    emit_table_enum(s, o, version);
    emit_load(s, o, version);
    emit_write(s, o, version);
    emit_fromstr(s, o, version);
    proof {
        let nm = desc_names(o.descriptions@);
        lemma_concat5(
            old(s).buf@,
            sec_name_enum(version, nm),
            sec_table_enum(version, nm),
            sec_load(version, nm),
            sec_write(version, nm),
            sec_fromstr(version, nm),
        );
    }
}

} // verus!
