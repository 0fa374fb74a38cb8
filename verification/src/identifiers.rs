//! Object identifiers: finding objects by name, naming them, and writing out
//! the statements that define them.
use vstd::prelude::*;
use crate::catalog::{Catalog, IndexInfo, TableConstraint, TableInfo};
use crate::facts::{asked, on_one, outcome, Facts, Halt, Known, Stop, Task, TaskView};
use crate::pg_catalog::oid_at;
use crate::render::answered_text;
use crate::rows::{row_views, QueryOutput, Row};
use crate::system_rows::{listed_name, listed_type};
use crate::text::{
    chars_of, concat2, concat3, join, join_texts, lower, lower_text, parse_int, parsed_int,
    push_text, replace_char, replaced, same_text, split, split_once, split_once_text, split_text,
    strip_both, strip_end, strip_start, texts, trim_text, trimmed,
};
use crate::value::{vals, Val, Value};

verus! {

// ---------------------------------------------------------------------------
// Quoting
// ---------------------------------------------------------------------------

/// Whether a character may stand in a plain name.
pub open spec fn is_plain_char(c: char) -> bool {
    97 <= c as u32 <= 122 || 48 <= c as u32 <= 57 || c == '_'
}

/// Whether a name is a plain lower-case one.
pub open spec fn is_plain_name(name: Seq<char>) -> bool {
    &&& name.len() > 0
    &&& !(48 <= name[0] as u32 <= 57)
    &&& forall|i: int| 0 <= i < name.len() ==> is_plain_char(#[trigger] name[i])
}

/// An identifier as PostgreSQL prints it: quoted unless it is a plain
/// lower-case name.
pub open spec fn quoted(name: Seq<char>) -> Seq<char> {
    if is_plain_name(name) {
        name
    } else {
        "\""@ + replaced(name, '"', "\"\""@) + "\""@
    }
}

fn plain_char(c: char) -> (r: bool)
    ensures
        r == is_plain_char(c),
{
    let n: u32 = c as u32;
    (97 <= n && n <= 122) || (48 <= n && n <= 57) || c == '_'
}

fn digit_char(c: char) -> (r: bool)
    ensures
        r == (48 <= c as u32 <= 57),
{
    let n: u32 = c as u32;
    48 <= n && n <= 57
}

/// An identifier as PostgreSQL prints it: quoted unless it is a plain
/// lower-case name.
pub fn quote_ident(name: &str) -> (r: String)
    ensures
        r@ == quoted(name@),
{
    let chars = chars_of(name);
    let mut plain: bool = chars.len() > 0 && !digit_char(chars[0]);
    let mut i: usize = 0;
    while i < chars.len()
        invariant
            i <= chars@.len(),
            chars@ == name@,
            plain ==> name@.len() > 0 && !(48 <= name@[0] as u32 <= 57) && forall|j: int|
                0 <= j < i ==> is_plain_char(#[trigger] name@[j]),
            !plain ==> !is_plain_name(name@),
        decreases chars@.len() - i,
    {
        if !plain_char(chars[i]) {
            assert(!is_plain_char(name@[i as int]));
            plain = false;
        }
        i = i + 1;
    }
    if plain {
        name.to_owned()
    } else {
        let body = replace_char(name, '"', "\"\"");
        concat3("\"", body.as_str(), "\"")
    }
}

/// Quoting tells plain names from the others: a name is printed as it is
/// exactly when it is plain.
pub proof fn law_only_plain_names_stay_unquoted(name: Seq<char>)
    ensures
        quoted(name) == name <==> is_plain_name(name),
{
    reveal_strlit("\"");
    if !is_plain_name(name) {
        let q = quoted(name);
        assert(q[0] == '"');
        lemma_replaced_grows(name);
        assert(q.len() >= name.len() + 2);
    }
}

proof fn lemma_replaced_grows(name: Seq<char>)
    ensures
        replaced(name, '"', "\"\""@).len() >= name.len(),
    decreases name.len(),
{
    reveal_strlit("\"\"");
    if name.len() > 0 {
        lemma_replaced_grows(name.drop_last());
        lemma_replaced_grows(name.skip(1));
    }
}

/// Quoted names, as a list.
pub open spec fn quoted_list(names: Seq<Seq<char>>) -> Seq<char> {
    join(Seq::new(names.len(), |i: int| quoted(names[i])), ", "@)
}

fn quote_all(names: &Vec<String>) -> (r: String)
    ensures
        r@ == quoted_list(texts(names@)),
{
    let mut out: Vec<String> = Vec::new();
    let mut i: usize = 0;
    while i < names.len()
        invariant
            i <= names@.len(),
            out@.len() == i,
            forall|j: int| 0 <= j < i ==> (#[trigger] out@[j])@ == quoted(names@[j]@),
        decreases names@.len() - i,
    {
        out.push(quote_ident(names[i].as_str()));
        i = i + 1;
    }
    assert(texts(out@) =~= Seq::new(texts(names@).len(), |i: int| quoted(texts(names@)[i])));
    join_texts(&out, ", ")
}

// ---------------------------------------------------------------------------
// Finding objects by name
// ---------------------------------------------------------------------------

/// The system catalogs' fixed OIDs, as `'pg_class'::regclass` gives them.
pub const SYSTEM_CATALOG_OIDS: &'static str = "pg_class:1259|pg_type:1247|pg_attribute:1249|\
    pg_proc:1255|pg_database:1262|pg_tablespace:1213|pg_authid:1260|pg_namespace:2615|\
    pg_constraint:2606|pg_index:2610|pg_inherits:2611|pg_language:2612|pg_opclass:2616|\
    pg_operator:2617|pg_rewrite:2618|pg_trigger:2620|pg_am:2601|pg_attrdef:2604|pg_cast:2605|\
    pg_depend:2608|pg_description:2609|pg_sequence:2224|pg_policy:3256|pg_statistic_ext:3381|\
    pg_collation:3456|pg_extension:3079|pg_publication:6104";

/// The entry of a system catalog, from `i` on, by its name.
pub open spec fn system_entry(entries: Seq<Seq<char>>, name: Seq<char>, i: int) -> Option<int>
    decreases entries.len() - i,
{
    if i < 0 || i >= entries.len() {
        None
    } else if listed_name(entries[i]) == name {
        Some(i)
    } else {
        system_entry(entries, name, i + 1)
    }
}

/// The number that an entry lists.
pub open spec fn listed_number(entry: Seq<char>) -> i64 {
    match parsed_int(listed_type(entry)) {
        Some(n) => n,
        None => 0,
    }
}

/// The OID of a system catalog.
pub open spec fn system_oid(name: Seq<char>) -> Option<i64> {
    let entries = split(SYSTEM_CATALOG_OIDS@, '|');
    match system_entry(entries, name, 0) {
        Some(i) => Some(listed_number(entries[i])),
        None => None,
    }
}

fn entry_parts(entry: &str) -> (r: (String, i64))
    ensures
        r.0@ == listed_name(entry@),
        r.1 == listed_number(entry@),
{
    let (name, number): (String, String) = match split_once_text(entry, ':') {
        Some((a, b)) => (a, b),
        None => (entry.to_owned(), "TEXT".to_owned()),
    };
    let oid: i64 = match parse_int(number.as_str()) {
        Some(n) => n,
        None => 0,
    };
    (name, oid)
}

/// The OID of a system catalog.
pub fn find_system_oid(name: &str) -> (r: Option<i64>)
    ensures
        r == system_oid(name@),
{
    let entries = split_text(SYSTEM_CATALOG_OIDS, '|');
    let ghost all = texts(entries@);
    let mut i: usize = 0;
    while i < entries.len()
        invariant
            i <= entries@.len(),
            all == texts(entries@),
            all == split(SYSTEM_CATALOG_OIDS@, '|'),
            system_entry(all, name@, 0) == system_entry(all, name@, i as int),
        decreases entries@.len() - i,
    {
        assert(all[i as int] == entries@[i as int]@);
        let (found, oid) = entry_parts(entries[i].as_str());
        if same_text(found.as_str(), name) {
            return Some(oid);
        }
        i = i + 1;
    }
    None
}

/// The entry of a system catalog, from `i` on, by its OID.
pub open spec fn system_entry_with(entries: Seq<Seq<char>>, oid: i64, i: int) -> Option<int>
    decreases entries.len() - i,
{
    if i < 0 || i >= entries.len() {
        None
    } else if listed_number(entries[i]) == oid {
        Some(i)
    } else {
        system_entry_with(entries, oid, i + 1)
    }
}

/// The name of the system catalog with an OID.
pub open spec fn system_name(oid: i64) -> Option<Seq<char>> {
    let entries = split(SYSTEM_CATALOG_OIDS@, '|');
    match system_entry_with(entries, oid, 0) {
        Some(i) => Some(listed_name(entries[i])),
        None => None,
    }
}

/// The name of the system catalog with an OID.
pub fn find_system_name(oid: i64) -> (r: Option<String>)
    ensures
        crate::text::opt_text(r) == system_name(oid),
{
    let entries = split_text(SYSTEM_CATALOG_OIDS, '|');
    let ghost all = texts(entries@);
    let mut i: usize = 0;
    while i < entries.len()
        invariant
            i <= entries@.len(),
            all == texts(entries@),
            all == split(SYSTEM_CATALOG_OIDS@, '|'),
            system_entry_with(all, oid, 0) == system_entry_with(all, oid, i as int),
        decreases entries@.len() - i,
    {
        assert(all[i as int] == entries@[i as int]@);
        let (found, number) = entry_parts(entries[i].as_str());
        if number == oid {
            return Some(found);
        }
        i = i + 1;
    }
    None
}

/// The table of a name in a schema, from `i` on.
pub open spec fn table_named(
    tables: Seq<TableInfo>,
    schema: Seq<char>,
    name: Seq<char>,
    i: int,
) -> Option<int>
    decreases tables.len() - i,
{
    if i < 0 || i >= tables.len() {
        None
    } else if tables[i].schema@ == schema && tables[i].name@ == name {
        Some(i)
    } else {
        table_named(tables, schema, name, i + 1)
    }
}

fn find_table(tables: &Vec<TableInfo>, schema: &str, name: &str) -> (r: Option<usize>)
    ensures
        match (r, table_named(tables@, schema@, name@, 0)) {
            (Some(a), Some(b)) => a == b && a < tables@.len(),
            (None, None) => true,
            _ => false,
        },
{
    let mut i: usize = 0;
    while i < tables.len()
        invariant
            i <= tables@.len(),
            table_named(tables@, schema@, name@, 0) == table_named(
                tables@,
                schema@,
                name@,
                i as int,
            ),
        decreases tables@.len() - i,
    {
        if same_text(tables[i].schema.as_str(), schema) && same_text(
            tables[i].name.as_str(),
            name,
        ) {
            return Some(i);
        }
        i = i + 1;
    }
    None
}

/// The OID of the index of a name, from `i` on.
pub open spec fn index_named(indexes: Seq<IndexInfo>, name: Seq<char>, i: int) -> Option<i64>
    decreases indexes.len() - i,
{
    if i < 0 || i >= indexes.len() {
        None
    } else if indexes[i].name@ == name {
        Some(indexes[i].oid)
    } else {
        index_named(indexes, name, i + 1)
    }
}

/// The OID of the index of a name in a schema, from table `i` on.
pub open spec fn index_in_schema(
    tables: Seq<TableInfo>,
    schema: Seq<char>,
    name: Seq<char>,
    i: int,
) -> Option<i64>
    decreases tables.len() - i,
{
    if i < 0 || i >= tables.len() {
        None
    } else if tables[i].schema@ == schema && index_named(tables[i].indexes@, name, 0) is Some {
        index_named(tables[i].indexes@, name, 0)
    } else {
        index_in_schema(tables, schema, name, i + 1)
    }
}

fn find_index_named(indexes: &Vec<IndexInfo>, name: &str) -> (r: Option<i64>)
    ensures
        r == index_named(indexes@, name@, 0),
{
    let mut i: usize = 0;
    while i < indexes.len()
        invariant
            i <= indexes@.len(),
            index_named(indexes@, name@, 0) == index_named(indexes@, name@, i as int),
        decreases indexes@.len() - i,
    {
        if same_text(indexes[i].name.as_str(), name) {
            return Some(indexes[i].oid);
        }
        i = i + 1;
    }
    None
}

fn find_index_in_schema(tables: &Vec<TableInfo>, schema: &str, name: &str) -> (r: Option<i64>)
    ensures
        r == index_in_schema(tables@, schema@, name@, 0),
{
    let mut i: usize = 0;
    while i < tables.len()
        invariant
            i <= tables@.len(),
            index_in_schema(tables@, schema@, name@, 0) == index_in_schema(
                tables@,
                schema@,
                name@,
                i as int,
            ),
        decreases tables@.len() - i,
    {
        if same_text(tables[i].schema.as_str(), schema) {
            if let Some(oid) = find_index_named(&tables[i].indexes, name) {
                return Some(oid);
            }
        }
        i = i + 1;
    }
    None
}

/// A name without the white space and double quotes around it.
pub open spec fn unquoted(name: Seq<char>) -> Seq<char> {
    strip_end(strip_start(trimmed(name), '"'), '"')
}

fn unquote(name: &str) -> (r: String)
    ensures
        r@ == unquoted(name@),
{
    let t = trim_text(name);
    strip_both(t.as_str(), '"')
}

/// The schema and relation that a name means; an unqualified one is looked up
/// in `public`.
pub open spec fn relation_path(name: Seq<char>) -> (Seq<char>, Seq<char>) {
    match split_once(trimmed(name), '.') {
        Some((schema, relation)) => (unquoted(schema), unquoted(relation)),
        None => ("public"@, unquoted(name)),
    }
}

/// The OID of a relation (table, view, sequence, or index) by its possibly
/// schema-qualified name; an unqualified one is looked up in `public`, then
/// among the system catalogs.
pub open spec fn relation_with_name(c: Catalog, name: Seq<char>) -> Option<i64> {
    let (schema, relation) = relation_path(name);
    let table = table_named(c.tables@, schema, relation, 0);
    if system_oid(relation) is Some && (schema == "pg_catalog"@ || table is None) {
        system_oid(relation)
    } else {
        match table {
            Some(i) => Some(c.tables@[i].oid),
            None => index_in_schema(c.tables@, schema, relation, 0),
        }
    }
}

/// The OID of a relation by its possibly schema-qualified name.
pub fn relation_oid(c: &Catalog, name: &str) -> (r: Option<i64>)
    ensures
        r == relation_with_name(*c, name@),
{
    let t = trim_text(name);
    let (schema, relation): (String, String) = match split_once_text(t.as_str(), '.') {
        Some((a, b)) => (unquote(a.as_str()), unquote(b.as_str())),
        None => ("public".to_owned(), unquote(name)),
    };
    let table = find_table(&c.tables, schema.as_str(), relation.as_str());
    if let Some(oid) = find_system_oid(relation.as_str()) {
        let missing: bool = match table {
            Some(_) => false,
            None => true,
        };
        if same_text(schema.as_str(), "pg_catalog") || missing {
            return Some(oid);
        }
    }
    match table {
        Some(i) => Some(c.tables[i].oid),
        None => find_index_in_schema(&c.tables, schema.as_str(), relation.as_str()),
    }
}

/// The OID of the schema of a name, from `i` on.
pub open spec fn schema_named(c: Catalog, name: Seq<char>, i: int) -> Option<i64>
    decreases c.schemas@.len() - i,
{
    if i < 0 || i >= c.schemas@.len() {
        None
    } else if c.schemas@[i].name@ == name {
        Some(c.schemas@[i].oid)
    } else {
        schema_named(c, name, i + 1)
    }
}

fn find_schema(c: &Catalog, name: &str) -> (r: Option<i64>)
    ensures
        r == schema_named(*c, name@, 0),
{
    let mut i: usize = 0;
    while i < c.schemas.len()
        invariant
            i <= c.schemas@.len(),
            schema_named(*c, name@, 0) == schema_named(*c, name@, i as int),
        decreases c.schemas@.len() - i,
    {
        if same_text(c.schemas[i].name.as_str(), name) {
            return Some(c.schemas[i].oid);
        }
        i = i + 1;
    }
    None
}

/// The object of a name, among the objects of a kind.
pub open spec fn object_named(kind: Seq<char>, name: Seq<char>, c: Option<Catalog>, k: Known) -> Result<
    Val,
    Stop,
> {
    if kind == "REGCLASS"@ || kind == "REGNAMESPACE"@ {
        let found = match c {
            Some(catalog) => if kind == "REGCLASS"@ {
                relation_with_name(catalog, name)
            } else {
                schema_named(catalog, unquoted(name), 0)
            },
            None => None,
        };
        match found {
            Some(oid) => Ok(Val::Int(oid)),
            None => Err(
                Stop::Raised(
                    if kind == "REGCLASS"@ {
                        "relation \""@
                    } else {
                        "schema \""@
                    } + name + "\" does not exist"@,
                ),
            ),
        }
    } else {
        asked(k, on_one(TaskView::TypeOid, Val::Text(name)))
    }
}

/// A value cast to an object-identifier type.
pub open spec fn identified(v: Val, kind: Seq<char>, c: Option<Catalog>, k: Known) -> Result<
    Val,
    Stop,
> {
    match v {
        Val::Int(oid) => Ok(Val::Int(oid)),
        Val::Text(name) => match parsed_int(trimmed(name)) {
            Some(oid) => Ok(Val::Int(oid)),
            None => object_named(kind, name, c, k),
        },
        _ => match asked(k, on_one(TaskView::TypeName, v)) {
            Err(s) => Err(s),
            Ok(shown) => Err(
                Stop::Raised("cannot cast "@ + answered_text(shown) + " to "@ + lower(kind)),
            ),
        },
    }
}

/// What an optional reference stands for.
pub open spec fn opt_catalog(c: Option<&Catalog>) -> Option<Catalog> {
    match c {
        Some(x) => Some(*x),
        None => None,
    }
}

/// A value cast to an object-identifier type: its OID, found by name for text
/// (`'t'::regclass`), with PostgreSQL's error when there is no such object.
pub fn object_identifier(v: &Value, kind: &str, c: Option<&Catalog>, facts: &Facts) -> (r: Result<
    Value,
    Halt,
>)
    ensures
        outcome(r) == identified(v@, kind@, opt_catalog(c), facts@),
{
    match v {
        Value::Int(oid) => Ok(Value::Int(*oid)),
        Value::Text(name) => {
            let t = trim_text(name.as_str());
            if let Some(oid) = parse_int(t.as_str()) {
                return Ok(Value::Int(oid));
            }
            let class: bool = same_text(kind, "REGCLASS");
            if !class && !same_text(kind, "REGNAMESPACE") {
                return facts.ask_one(Task::TypeOid, v);
            }
            let found: Option<i64> = match c {
                Some(catalog) => if class {
                    relation_oid(catalog, name.as_str())
                } else {
                    let bare = unquote(name.as_str());
                    find_schema(catalog, bare.as_str())
                },
                None => None,
            };
            match found {
                Some(oid) => Ok(Value::Int(oid)),
                None => {
                    let what: &str = if class {
                        "relation \""
                    } else {
                        "schema \""
                    };
                    Err(Halt::Raised(concat3(what, name.as_str(), "\" does not exist")))
                },
            }
        },
        _ => match facts.ask_one(Task::TypeName, v) {
            Err(h) => Err(h),
            Ok(shown) => {
                let text = match shown {
                    Value::Text(t) => t,
                    _ => String::new(),
                };
                assert(text@ =~= answered_text(shown@));
                let low = lower_text(kind);
                let mut m = concat3("cannot cast ", text.as_str(), " to ");
                push_text(&mut m, low.as_str());
                Err(Halt::Raised(m))
            },
        },
    }
}

// ---------------------------------------------------------------------------
// Naming objects
// ---------------------------------------------------------------------------

/// A name qualified by its schema, unless that is `public`.
pub open spec fn qualified(schema: Seq<char>, name: Seq<char>) -> Seq<char> {
    if schema == "public"@ {
        quoted(name)
    } else {
        quoted(schema) + "."@ + quoted(name)
    }
}

fn qualify(schema: &str, name: &str) -> (r: String)
    ensures
        r@ == qualified(schema@, name@),
{
    let n = quote_ident(name);
    if same_text(schema, "public") {
        n
    } else {
        let s = quote_ident(schema);
        concat3(s.as_str(), ".", n.as_str())
    }
}

/// The index with an OID, from `i` on.
pub open spec fn index_with_oid(indexes: Seq<IndexInfo>, oid: i64, i: int) -> Option<int>
    decreases indexes.len() - i,
{
    if i < 0 || i >= indexes.len() {
        None
    } else if indexes[i].oid == oid {
        Some(i)
    } else {
        index_with_oid(indexes, oid, i + 1)
    }
}

fn find_index_oid(indexes: &Vec<IndexInfo>, oid: i64) -> (r: Option<usize>)
    ensures
        match (r, index_with_oid(indexes@, oid, 0)) {
            (Some(a), Some(b)) => a == b && a < indexes@.len(),
            (None, None) => true,
            _ => false,
        },
{
    let mut i: usize = 0;
    while i < indexes.len()
        invariant
            i <= indexes@.len(),
            index_with_oid(indexes@, oid, 0) == index_with_oid(indexes@, oid, i as int),
        decreases indexes@.len() - i,
    {
        if indexes[i].oid == oid {
            return Some(i);
        }
        i = i + 1;
    }
    None
}

/// The name of the relation with an OID, among the tables from `i` on and
/// their indexes.
pub open spec fn relation_named(tables: Seq<TableInfo>, oid: i64, i: int) -> Option<Seq<char>>
    decreases tables.len() - i,
{
    if i < 0 || i >= tables.len() {
        None
    } else {
        let t = tables[i];
        if t.oid == oid {
            Some(qualified(t.schema@, t.name@))
        } else {
            match index_with_oid(t.indexes@, oid, 0) {
                Some(j) => Some(qualified(t.schema@, t.indexes@[j].name@)),
                None => relation_named(tables, oid, i + 1),
            }
        }
    }
}

fn name_of_relation(tables: &Vec<TableInfo>, oid: i64) -> (r: Option<String>)
    ensures
        crate::text::opt_text(r) == relation_named(tables@, oid, 0),
{
    let mut i: usize = 0;
    while i < tables.len()
        invariant
            i <= tables@.len(),
            relation_named(tables@, oid, 0) == relation_named(tables@, oid, i as int),
        decreases tables@.len() - i,
    {
        let t = &tables[i];
        if t.oid == oid {
            return Some(qualify(t.schema.as_str(), t.name.as_str()));
        }
        if let Some(j) = find_index_oid(&t.indexes, oid) {
            return Some(qualify(t.schema.as_str(), t.indexes[j].name.as_str()));
        }
        i = i + 1;
    }
    None
}

/// The name of the schema with an OID, from `i` on.
pub open spec fn schema_with_oid(c: Catalog, oid: i64, i: int) -> Option<Seq<char>>
    decreases c.schemas@.len() - i,
{
    if i < 0 || i >= c.schemas@.len() {
        None
    } else if c.schemas@[i].oid == oid {
        Some(quoted(c.schemas@[i].name@))
    } else {
        schema_with_oid(c, oid, i + 1)
    }
}

fn name_of_schema(c: &Catalog, oid: i64) -> (r: Option<String>)
    ensures
        crate::text::opt_text(r) == schema_with_oid(*c, oid, 0),
{
    let mut i: usize = 0;
    while i < c.schemas.len()
        invariant
            i <= c.schemas@.len(),
            schema_with_oid(*c, oid, 0) == schema_with_oid(*c, oid, i as int),
        decreases c.schemas@.len() - i,
    {
        if c.schemas[i].oid == oid {
            return Some(quote_ident(c.schemas[i].name.as_str()));
        }
        i = i + 1;
    }
    None
}

/// An object identifier as its type prints it.
pub open spec fn named_object(c: Catalog, kind: Seq<char>, oid: i64, k: Known) -> Result<
    Option<Seq<char>>,
    Stop,
> {
    if kind == "REGTYPE"@ {
        match asked(k, on_one(TaskView::TypeText, Val::Int(oid))) {
            Ok(v) => Ok(Some(answered_text(v))),
            Err(s) => Err(s),
        }
    } else if kind == "REGNAMESPACE"@ {
        Ok(schema_with_oid(c, oid, 0))
    } else {
        Ok(
            match system_name(oid) {
                Some(n) => Some(n),
                None => relation_named(c.tables@, oid, 0),
            },
        )
    }
}

/// What an optional text's result stands for.
pub open spec fn opt_text_outcome(r: Result<Option<String>, Halt>) -> Result<
    Option<Seq<char>>,
    Stop,
> {
    match r {
        Ok(t) => Ok(crate::text::opt_text(t)),
        Err(h) => Err(h@),
    }
}

/// An object identifier as its type prints it: a relation, type, or schema
/// name (schema-qualified outside `public`), or nothing when there is no such
/// object.
pub fn object_name(c: &Catalog, kind: &str, oid: i64, facts: &Facts) -> (r: Result<
    Option<String>,
    Halt,
>)
    ensures
        opt_text_outcome(r) == named_object(*c, kind@, oid, facts@),
{
    if same_text(kind, "REGTYPE") {
        return match facts.ask_one(Task::TypeText, &Value::Int(oid)) {
            Err(h) => Err(h),
            Ok(v) => {
                let text = match v {
                    Value::Text(t) => t,
                    _ => String::new(),
                };
                assert(text@ =~= answered_text(v@));
                Ok(Some(text))
            },
        };
    }
    if same_text(kind, "REGNAMESPACE") {
        return Ok(name_of_schema(c, oid));
    }
    match find_system_name(oid) {
        Some(n) => Ok(Some(n)),
        None => Ok(name_of_relation(&c.tables, oid)),
    }
}

/// A cell of an object-identifier column with the name in place of the OID.
pub open spec fn named_cell(c: Catalog, kind: Option<Seq<char>>, v: Val, k: Known) -> Result<
    Val,
    Stop,
> {
    match (kind, v) {
        (Some(kd), Val::Int(oid)) => match named_object(c, kd, oid, k) {
            Err(s) => Err(s),
            Ok(Some(name)) => Ok(Val::Text(name)),
            Ok(None) => Ok(v),
        },
        _ => Ok(v),
    }
}

/// The kind of a column's identifiers.
pub open spec fn kind_at(kinds: Seq<Option<String>>, i: int) -> Option<Seq<char>> {
    if 0 <= i < kinds.len() {
        crate::text::opt_text(kinds[i])
    } else {
        None
    }
}

/// The first `n` cells of a row, with names in place of OIDs.
pub open spec fn named_cells(
    c: Catalog,
    kinds: Seq<Option<String>>,
    row: Seq<Val>,
    n: nat,
    k: Known,
) -> Result<Seq<Val>, Stop>
    decreases n,
{
    if n == 0 {
        Ok(Seq::empty())
    } else {
        match named_cells(c, kinds, row, (n - 1) as nat, k) {
            Err(s) => Err(s),
            Ok(done) => match named_cell(c, kind_at(kinds, n - 1), row[n - 1], k) {
                Err(s) => Err(s),
                Ok(v) => Ok(done.push(v)),
            },
        }
    }
}

proof fn lemma_named_cells_fail(
    c: Catalog,
    kinds: Seq<Option<String>>,
    row: Seq<Val>,
    n: nat,
    m: nat,
    k: Known,
)
    requires
        n <= m,
        named_cells(c, kinds, row, n, k) is Err,
    ensures
        named_cells(c, kinds, row, m, k) == named_cells(c, kinds, row, n, k),
    decreases m,
{
    if n < m {
        lemma_named_cells_fail(c, kinds, row, n, (m - 1) as nat, k);
    }
}

fn name_cell(c: &Catalog, kind: &Option<String>, v: &Value, facts: &Facts) -> (r: Result<
    Value,
    Halt,
>)
    ensures
        outcome(r) == named_cell(*c, crate::text::opt_text(*kind), v@, facts@),
{
    match (kind, v) {
        (Some(kd), Value::Int(oid)) => match object_name(c, kd.as_str(), *oid, facts) {
            Err(h) => Err(h),
            Ok(Some(name)) => Ok(Value::Text(name)),
            Ok(None) => Ok(v.duplicate()),
        },
        _ => Ok(v.duplicate()),
    }
}

fn name_cells(c: &Catalog, kinds: &Vec<Option<String>>, row: &Row, facts: &Facts) -> (r: Result<
    Row,
    Halt,
>)
    ensures
        match r {
            Ok(out) => named_cells(*c, kinds@, row@, row@.len(), facts@) == Ok::<Seq<Val>, Stop>(
                out@,
            ),
            Err(h) => named_cells(*c, kinds@, row@, row@.len(), facts@) == Err::<Seq<Val>, Stop>(
                h@,
            ),
        },
{
    let ghost view = row@;
    let none: Option<String> = None;
    let mut out: Vec<Value> = Vec::new();
    let mut i: usize = 0;
    assert(vals(out@) =~= Seq::<Val>::empty());
    while i < row.values.len()
        invariant
            i <= row.values@.len(),
            view == row@,
            none is None,
            named_cells(*c, kinds@, view, i as nat, facts@) == Ok::<Seq<Val>, Stop>(vals(out@)),
        decreases row.values@.len() - i,
    {
        assert(view[i as int] == row.values@[i as int]@);
        let kind: &Option<String> = if i < kinds.len() {
            &kinds[i]
        } else {
            &none
        };
        match name_cell(c, kind, &row.values[i], facts) {
            Err(h) => {
                proof {
                    lemma_named_cells_fail(*c, kinds@, view, (i + 1) as nat, view.len(), facts@);
                }
                return Err(h);
            },
            Ok(v) => {
                let ghost before = out@;
                out.push(v);
                assert(vals(out@) =~= vals(before).push(v@));
            },
        }
        i = i + 1;
    }
    Ok(Row { values: out })
}

/// The first `n` rows, with names in place of OIDs.
pub open spec fn named_rows(
    c: Catalog,
    kinds: Seq<Option<String>>,
    rows: Seq<Seq<Val>>,
    n: nat,
    k: Known,
) -> Result<Seq<Seq<Val>>, Stop>
    decreases n,
{
    if n == 0 {
        Ok(Seq::empty())
    } else {
        match named_rows(c, kinds, rows, (n - 1) as nat, k) {
            Err(s) => Err(s),
            Ok(done) => match named_cells(c, kinds, rows[n - 1], rows[n - 1].len(), k) {
                Err(s) => Err(s),
                Ok(row) => Ok(done.push(row)),
            },
        }
    }
}

proof fn lemma_named_rows_fail(
    c: Catalog,
    kinds: Seq<Option<String>>,
    rows: Seq<Seq<Val>>,
    n: nat,
    m: nat,
    k: Known,
)
    requires
        n <= m,
        named_rows(c, kinds, rows, n, k) is Err,
    ensures
        named_rows(c, kinds, rows, m, k) == named_rows(c, kinds, rows, n, k),
    decreases m,
{
    if n < m {
        lemma_named_rows_fail(c, kinds, rows, n, (m - 1) as nat, k);
    }
}

/// A statement's result with its object-identifier columns (`regclass`,
/// `regtype`, `regnamespace`) showing names rather than OIDs. For each column
/// `kinds` says which kind of object it identifies, if any.
pub fn name_object_identifiers(
    out: QueryOutput,
    kinds: &Vec<Option<String>>,
    c: &Catalog,
    facts: &Facts,
) -> (r: Result<QueryOutput, Halt>)
    ensures
        match (
            r,
            named_rows(*c, kinds@, row_views(out.rows@), out.rows@.len(), facts@),
        ) {
            (Ok(named), Ok(rows)) => {
                &&& row_views(named.rows@) == rows
                &&& named.columns == out.columns
                &&& named.types == out.types
                &&& named.tag == out.tag
            },
            (Err(h), Err(s)) => h@ == s,
            _ => false,
        },
{
    let ghost view = row_views(out.rows@);
    let mut rows: Vec<Row> = Vec::new();
    let mut i: usize = 0;
    assert(row_views(rows@) =~= Seq::<Seq<Val>>::empty());
    while i < out.rows.len()
        invariant
            i <= out.rows@.len(),
            view == row_views(out.rows@),
            named_rows(*c, kinds@, view, i as nat, facts@) == Ok::<Seq<Seq<Val>>, Stop>(
                row_views(rows@),
            ),
        decreases out.rows@.len() - i,
    {
        assert(view[i as int] == out.rows@[i as int]@);
        match name_cells(c, kinds, &out.rows[i], facts) {
            Err(h) => {
                proof {
                    lemma_named_rows_fail(
                        *c,
                        kinds@,
                        view,
                        (i + 1) as nat,
                        out.rows@.len(),
                        facts@,
                    );
                }
                return Err(h);
            },
            Ok(row) => {
                let ghost before = rows@;
                rows.push(row);
                assert(row_views(rows@) =~= row_views(before).push(row@));
            },
        }
        i = i + 1;
    }
    Ok(QueryOutput { columns: out.columns, types: out.types, rows, tag: out.tag })
}

// ---------------------------------------------------------------------------
// Definitions
// ---------------------------------------------------------------------------

/// An index's key columns as its definition lists them.
pub open spec fn key_texts(t: TableInfo, x: IndexInfo, n: nat) -> Seq<Seq<char>>
    decreases n,
{
    if n == 0 {
        Seq::empty()
    } else {
        let rest = key_texts(t, x, (n - 1) as nat);
        match crate::catalog::column_with_id(t.columns@, x.keys@[n - 1].column_id, 0) {
            Some(p) => rest.push(
                quoted(t.columns@[p].name@) + if x.keys@[n - 1].descending {
                    " DESC"@
                } else {
                    ""@
                },
            ),
            None => rest,
        }
    }
}

fn texts_of_keys(t: &TableInfo, x: &IndexInfo) -> (r: Vec<String>)
    ensures
        texts(r@) == key_texts(*t, *x, x.keys@.len()),
{
    let mut out: Vec<String> = Vec::new();
    let mut i: usize = 0;
    assert(texts(out@) =~= Seq::<Seq<char>>::empty());
    while i < x.keys.len()
        invariant
            i <= x.keys@.len(),
            texts(out@) == key_texts(*t, *x, i as nat),
        decreases x.keys@.len() - i,
    {
        if let Some(p) = crate::catalog::find_column_id(&t.columns, x.keys[i].column_id) {
            let ghost before = out@;
            let name = quote_ident(t.columns[p].name.as_str());
            let text = concat2(
                name.as_str(),
                if x.keys[i].descending {
                    " DESC"
                } else {
                    ""
                },
            );
            out.push(text);
            assert(texts(out@) =~= texts(before).push(text@));
        }
        i = i + 1;
    }
    out
}

/// An index's `CREATE INDEX` statement, or with a column number that key
/// column.
pub open spec fn index_text(t: TableInfo, x: IndexInfo, column: i64, pretty: bool) -> Option<
    Seq<char>,
> {
    let keys = key_texts(t, x, x.keys@.len());
    if column > 0 {
        if column <= keys.len() {
            Some(keys[column - 1])
        } else {
            None
        }
    } else {
        let relation = if pretty && t.schema@ == "public"@ {
            quoted(t.name@)
        } else {
            quoted(t.schema@) + "."@ + quoted(t.name@)
        };
        Some(
            "CREATE "@ + if x.unique {
                "UNIQUE "@
            } else {
                ""@
            } + "INDEX "@ + quoted(x.name@) + " ON "@ + relation + " USING btree ("@ + join(
                keys,
                ", "@,
            ) + ")"@,
        )
    }
}

fn text_of_index(t: &TableInfo, x: &IndexInfo, column: i64, pretty: bool) -> (r: Option<String>)
    ensures
        crate::text::opt_text(r) == index_text(*t, *x, column, pretty),
{
    let keys = texts_of_keys(t, x);
    assert(texts(keys@).len() == keys@.len());
    if column > 0 {
        if column as u128 <= keys.len() as u128 {
            let at: usize = (column - 1) as usize;
            assert(texts(keys@)[column - 1] == keys@[at as int]@);
            return Some(keys[at].clone());
        }
        return None;
    }
    let relation = if pretty && same_text(t.schema.as_str(), "public") {
        quote_ident(t.name.as_str())
    } else {
        let s = quote_ident(t.schema.as_str());
        let n = quote_ident(t.name.as_str());
        concat3(s.as_str(), ".", n.as_str())
    };
    let name = quote_ident(x.name.as_str());
    let mut out = concat3(
        "CREATE ",
        if x.unique {
            "UNIQUE "
        } else {
            ""
        },
        "INDEX ",
    );
    push_text(&mut out, name.as_str());
    push_text(&mut out, " ON ");
    push_text(&mut out, relation.as_str());
    push_text(&mut out, " USING btree (");
    let listed = join_texts(&keys, ", ");
    push_text(&mut out, listed.as_str());
    push_text(&mut out, ")");
    Some(out)
}

/// The definition of the index with an OID, among the tables from `i` on.
pub open spec fn index_defined(
    tables: Seq<TableInfo>,
    oid: i64,
    column: i64,
    pretty: bool,
    i: int,
) -> Option<Seq<char>>
    decreases tables.len() - i,
{
    if i < 0 || i >= tables.len() {
        None
    } else {
        match index_with_oid(tables[i].indexes@, oid, 0) {
            Some(j) => index_text(tables[i], tables[i].indexes@[j], column, pretty),
            None => index_defined(tables, oid, column, pretty, i + 1),
        }
    }
}

/// `pg_get_indexdef(oid [, column, pretty])`: the index's `CREATE INDEX`
/// statement, or with a column number that key column.
pub fn index_definition(c: &Catalog, oid: i64, column: i64, pretty: bool) -> (r: Option<String>)
    ensures
        crate::text::opt_text(r) == index_defined(c.tables@, oid, column, pretty, 0),
{
    let mut i: usize = 0;
    while i < c.tables.len()
        invariant
            i <= c.tables@.len(),
            index_defined(c.tables@, oid, column, pretty, 0) == index_defined(
                c.tables@,
                oid,
                column,
                pretty,
                i as int,
            ),
        decreases c.tables@.len() - i,
    {
        if let Some(j) = find_index_oid(&c.tables[i].indexes, oid) {
            return text_of_index(&c.tables[i], &c.tables[i].indexes[j], column, pretty);
        }
        i = i + 1;
    }
    None
}

/// The quoted names of an index's key columns, as a list.
pub open spec fn key_list(t: TableInfo, x: IndexInfo) -> Seq<char> {
    quoted_list(crate::pg_catalog::key_names(t, x))
}

/// The definition of a unique index's constraint.
pub open spec fn key_definition(t: TableInfo, x: IndexInfo) -> Seq<char> {
    let kind = if x.primary {
        "PRIMARY KEY"@
    } else {
        "UNIQUE"@
    };
    kind + " ("@ + key_list(t, x) + ")"@
}

/// The definition of the constraint of one of a table's unique indexes with
/// an OID, from `i` on.
pub open spec fn key_with_oid(t: TableInfo, oid: i64, i: int) -> Option<Seq<char>>
    decreases t.indexes@.len() - i,
{
    if i < 0 || i >= t.indexes@.len() {
        None
    } else if t.indexes@[i].unique && oid_at(t.index_constraint_oids@, i) == oid {
        Some(key_definition(t, t.indexes@[i]))
    } else {
        key_with_oid(t, oid, i + 1)
    }
}

/// The definition of the NOT NULL constraint of one of a table's columns with
/// an OID, from `i` on.
pub open spec fn not_null_with_oid(t: TableInfo, oid: i64, i: int) -> Option<Seq<char>>
    decreases t.columns@.len() - i,
{
    if i < 0 || i >= t.columns@.len() {
        None
    } else if !t.columns@[i].nullable && oid_at(t.not_null_oids@, i) == oid {
        Some("NOT NULL "@ + quoted(t.columns@[i].name@))
    } else {
        not_null_with_oid(t, oid, i + 1)
    }
}

/// A constraint as `ALTER TABLE .. ADD CONSTRAINT` would take it.
pub open spec fn constraint_text(x: TableConstraint, pretty: bool) -> Seq<char> {
    match x {
        TableConstraint::Check { expr, .. } => if pretty {
            "CHECK ("@ + expr@ + ")"@
        } else {
            "CHECK (("@ + expr@ + "))"@
        },
        TableConstraint::ForeignKey { columns, foreign_table, referred_columns, .. } =>
            "FOREIGN KEY ("@ + quoted_list(texts(columns@)) + ") REFERENCES "@ + foreign_table@
            + "("@ + quoted_list(texts(referred_columns@)) + ")"@,
    }
}

fn text_of_constraint(x: &TableConstraint, pretty: bool) -> (r: String)
    ensures
        r@ == constraint_text(*x, pretty),
{
    match x {
        TableConstraint::Check { expr, .. } => if pretty {
            concat3("CHECK (", expr.as_str(), ")")
        } else {
            concat3("CHECK ((", expr.as_str(), "))")
        },
        TableConstraint::ForeignKey { columns, foreign_table, referred_columns, .. } => {
            let a = quote_all(columns);
            let b = quote_all(referred_columns);
            let mut out = concat3("FOREIGN KEY (", a.as_str(), ") REFERENCES ");
            push_text(&mut out, foreign_table.as_str());
            push_text(&mut out, "(");
            push_text(&mut out, b.as_str());
            push_text(&mut out, ")");
            out
        },
    }
}

/// The definition of one of a table's other constraints with an OID, from `i`
/// on.
pub open spec fn declared_with_oid(t: TableInfo, oid: i64, pretty: bool, i: int) -> Option<
    Seq<char>,
>
    decreases t.constraints@.len() - i,
{
    if i < 0 || i >= t.constraints@.len() {
        None
    } else if t.constraints@[i].oid == oid {
        Some(constraint_text(t.constraints@[i].constraint, pretty))
    } else {
        declared_with_oid(t, oid, pretty, i + 1)
    }
}

/// The definition of one of a table's constraints with an OID.
pub open spec fn defined_in(t: TableInfo, oid: i64, pretty: bool) -> Option<Seq<char>> {
    match key_with_oid(t, oid, 0) {
        Some(d) => Some(d),
        None => match not_null_with_oid(t, oid, 0) {
            Some(d) => Some(d),
            None => declared_with_oid(t, oid, pretty, 0),
        },
    }
}

fn find_key(t: &TableInfo, oid: i64) -> (r: Option<String>)
    ensures
        crate::text::opt_text(r) == key_with_oid(*t, oid, 0),
{
    let mut i: usize = 0;
    while i < t.indexes.len()
        invariant
            i <= t.indexes@.len(),
            key_with_oid(*t, oid, 0) == key_with_oid(*t, oid, i as int),
        decreases t.indexes@.len() - i,
    {
        let own: i64 = if i < t.index_constraint_oids.len() {
            t.index_constraint_oids[i]
        } else {
            0
        };
        if t.indexes[i].unique && own == oid {
            let names = crate::pg_catalog::names_of_keys(t, &t.indexes[i]);
            let listed = quote_all(&names);
            let mut out = concat3(
                if t.indexes[i].primary {
                    "PRIMARY KEY"
                } else {
                    "UNIQUE"
                },
                " (",
                listed.as_str(),
            );
            push_text(&mut out, ")");
            return Some(out);
        }
        i = i + 1;
    }
    None
}

fn find_not_null(t: &TableInfo, oid: i64) -> (r: Option<String>)
    ensures
        crate::text::opt_text(r) == not_null_with_oid(*t, oid, 0),
{
    let mut i: usize = 0;
    while i < t.columns.len()
        invariant
            i <= t.columns@.len(),
            not_null_with_oid(*t, oid, 0) == not_null_with_oid(*t, oid, i as int),
        decreases t.columns@.len() - i,
    {
        let own: i64 = if i < t.not_null_oids.len() {
            t.not_null_oids[i]
        } else {
            0
        };
        if !t.columns[i].nullable && own == oid {
            let name = quote_ident(t.columns[i].name.as_str());
            return Some(concat2("NOT NULL ", name.as_str()));
        }
        i = i + 1;
    }
    None
}

fn find_declared(t: &TableInfo, oid: i64, pretty: bool) -> (r: Option<String>)
    ensures
        crate::text::opt_text(r) == declared_with_oid(*t, oid, pretty, 0),
{
    let mut i: usize = 0;
    while i < t.constraints.len()
        invariant
            i <= t.constraints@.len(),
            declared_with_oid(*t, oid, pretty, 0) == declared_with_oid(*t, oid, pretty, i as int),
        decreases t.constraints@.len() - i,
    {
        if t.constraints[i].oid == oid {
            return Some(text_of_constraint(&t.constraints[i].constraint, pretty));
        }
        i = i + 1;
    }
    None
}

/// The definition of the constraint with an OID, among the tables from `i` on.
pub open spec fn constraint_defined(tables: Seq<TableInfo>, oid: i64, pretty: bool, i: int) -> Option<
    Seq<char>,
>
    decreases tables.len() - i,
{
    if i < 0 || i >= tables.len() {
        None
    } else {
        match defined_in(tables[i], oid, pretty) {
            Some(d) => Some(d),
            None => constraint_defined(tables, oid, pretty, i + 1),
        }
    }
}

/// `pg_get_constraintdef(oid)`: the constraint's definition as `ALTER TABLE ..
/// ADD CONSTRAINT` would take it.
pub fn constraint_definition(c: &Catalog, oid: i64, pretty: bool) -> (r: Option<String>)
    ensures
        crate::text::opt_text(r) == constraint_defined(c.tables@, oid, pretty, 0),
{
    let mut i: usize = 0;
    while i < c.tables.len()
        invariant
            i <= c.tables@.len(),
            constraint_defined(c.tables@, oid, pretty, 0) == constraint_defined(
                c.tables@,
                oid,
                pretty,
                i as int,
            ),
        decreases c.tables@.len() - i,
    {
        let t = &c.tables[i];
        if let Some(d) = find_key(t, oid) {
            return Some(d);
        }
        if let Some(d) = find_not_null(t, oid) {
            return Some(d);
        }
        if let Some(d) = find_declared(t, oid, pretty) {
            return Some(d);
        }
        i = i + 1;
    }
    None
}

/// The view with an OID, among the tables from `i` on.
pub open spec fn view_with_oid(tables: Seq<TableInfo>, oid: i64, i: int) -> Option<int>
    decreases tables.len() - i,
{
    if i < 0 || i >= tables.len() {
        None
    } else if (tables[i].is_view || tables[i].is_materialized) && tables[i].oid == oid {
        Some(i)
    } else {
        view_with_oid(tables, oid, i + 1)
    }
}

/// The position of the view, plain or materialized, with an OID.
pub fn find_view(c: &Catalog, oid: i64) -> (r: Option<usize>)
    ensures
        match (r, view_with_oid(c.tables@, oid, 0)) {
            (Some(a), Some(b)) => a == b && a < c.tables@.len(),
            (None, None) => true,
            _ => false,
        },
{
    let mut i: usize = 0;
    while i < c.tables.len()
        invariant
            i <= c.tables@.len(),
            view_with_oid(c.tables@, oid, 0) == view_with_oid(c.tables@, oid, i as int),
        decreases c.tables@.len() - i,
    {
        if (c.tables[i].is_view || c.tables[i].is_materialized) && c.tables[i].oid == oid {
            return Some(i);
        }
        i = i + 1;
    }
    None
}

} // verus!
