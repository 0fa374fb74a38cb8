//! Synthesized `pg_catalog` virtual tables (pg_class, pg_type, pg_settings, ..).
use vstd::prelude::*;
use crate::catalog::{
    as_ints, constraint_name, is_sequence_table, key_positions, name_of_constraint,
    name_of_not_null, not_null_name, positions_of_keys, table_is_sequence, Catalog, DefaultInfo,
    IndexInfo, TableConstraint, TableInfo,
};
use crate::join::{Rel, Relation};
use crate::plan_types::ScalarExpr;
use crate::sequences::{default_sequence, drawn_sequence, identity, identity_kind};
use crate::system_rows::{
    add_row, constant_cell, make_table, new_rows, no_rows, system_table,
};
use crate::system_shapes::{
    find_written_table, written_table, PG_ATTRDEF_COLUMNS, PG_ATTRIBUTE_COLUMNS, PG_CLASS_COLUMNS,
    PG_CONSTRAINT_COLUMNS, PG_DEPEND_COLUMNS, PG_INDEXES_COLUMNS, PG_INDEX_COLUMNS,
    PG_LOCKS_COLUMNS, PG_NAMESPACE_COLUMNS, PG_SEQUENCE_COLUMNS, PG_SETTINGS_COLUMNS,
    PG_TABLES_COLUMNS, PG_TYPE_COLUMNS,
};
use crate::system_types::{rows_of_settings, rows_of_types, setting_rows, type_rows};
use crate::text::{
    concat3, ends, ends_with, index_of, join, join_texts, lower, lower_text, position_of,
    push_text, replace_char, replaced, same_text, split, split_text, texts,
};
use crate::value::{group_value_views, rows_view, vals, Val, Value};

verus! {

broadcast use group_value_views;

/// `pg_class`'s own OID, the class of relations in `pg_depend`.
pub const PG_CLASS_OID: i64 = 1259;

// ---------------------------------------------------------------------------
// Tables written out
// ---------------------------------------------------------------------------

/// A cell of a table written out: a constant, or what a database fills in.
pub open spec fn catalog_cell(t: Seq<char>, c: Catalog) -> Val {
    if t == "$database"@ {
        Val::Text(c.database@)
    } else if t == "$database_oid"@ {
        Val::Int(c.database_oid)
    } else if t == "$catalog"@ {
        Val::Int(c.catalog_oid)
    } else if t == "$extension"@ {
        Val::Int(c.extension_oid)
    } else if t == "$language"@ {
        Val::Int(c.language_oid)
    } else {
        constant_cell(t)
    }
}

/// A row of a table written out.
pub open spec fn catalog_cells(list: Seq<char>, c: Catalog) -> Seq<Val> {
    Seq::new(split(list, '|').len(), |i: int| catalog_cell(split(list, '|')[i], c))
}

/// The rows of a table written out.
pub open spec fn catalog_rows(text: Seq<char>, c: Catalog) -> Seq<Seq<Val>> {
    if text.len() == 0 {
        Seq::empty()
    } else {
        Seq::new(split(text, '\n').len(), |i: int| catalog_cells(split(text, '\n')[i], c))
    }
}

fn fill_cell(t: &str, c: &Catalog) -> (r: Value)
    ensures
        r@ == catalog_cell(t@, *c),
{
    if same_text(t, "$database") {
        Value::Text(c.database.clone())
    } else if same_text(t, "$database_oid") {
        Value::Int(c.database_oid)
    } else if same_text(t, "$catalog") {
        Value::Int(c.catalog_oid)
    } else if same_text(t, "$extension") {
        Value::Int(c.extension_oid)
    } else if same_text(t, "$language") {
        Value::Int(c.language_oid)
    } else {
        crate::system_rows::read_constant(t)
    }
}

fn fill_cells(list: &str, c: &Catalog) -> (r: Vec<Value>)
    ensures
        vals(r@) == catalog_cells(list@, *c),
{
    let parts = split_text(list, '|');
    let mut out: Vec<Value> = Vec::new();
    let mut i: usize = 0;
    while i < parts.len()
        invariant
            i <= parts@.len(),
            out@.len() == i,
            forall|j: int| 0 <= j < i ==> (#[trigger] out@[j])@ == catalog_cell(parts@[j]@, *c),
        decreases parts@.len() - i,
    {
        out.push(fill_cell(parts[i].as_str(), c));
        i = i + 1;
    }
    assert(texts(parts@).len() == parts@.len());
    assert(vals(out@) =~= catalog_cells(list@, *c));
    out
}

fn fill_rows(text: &str, c: &Catalog) -> (r: Vec<Vec<Value>>)
    ensures
        rows_view(r@) == catalog_rows(text@, *c),
{
    let mut out: Vec<Vec<Value>> = Vec::new();
    let chars = crate::text::chars_of(text);
    if chars.len() == 0 {
        assert(rows_view(out@) =~= Seq::<Seq<Val>>::empty());
        return out;
    }
    let parts = split_text(text, '\n');
    let mut i: usize = 0;
    while i < parts.len()
        invariant
            i <= parts@.len(),
            out@.len() == i,
            forall|j: int| 0 <= j < i ==> vals((#[trigger] out@[j])@) == catalog_cells(parts@[j]@, *c),
        decreases parts@.len() - i,
    {
        out.push(fill_cells(parts[i].as_str(), c));
        i = i + 1;
    }
    assert(texts(parts@).len() == parts@.len());
    assert(rows_view(out@) =~= catalog_rows(text@, *c));
    out
}

// ---------------------------------------------------------------------------
// Cells that several tables show
// ---------------------------------------------------------------------------

/// The kind of a relation, as `relkind` shows it.
pub open spec fn relation_kind(t: TableInfo) -> Seq<char> {
    if t.is_view {
        "v"@
    } else if t.is_materialized {
        "m"@
    } else if is_sequence_table(t) {
        "S"@
    } else {
        "r"@
    }
}

fn kind_of_relation(t: &TableInfo) -> (r: &'static str)
    ensures
        r@ == relation_kind(*t),
{
    if t.is_view {
        "v"
    } else if t.is_materialized {
        "m"
    } else if table_is_sequence(t) {
        "S"
    } else {
        "r"
    }
}

/// Whether values of a type are passed by value.
pub open spec fn by_value(oid: i64) -> bool {
    oid == 16 || oid == 20 || oid == 21 || oid == 23 || oid == 26 || oid == 700 || oid == 701
}

/// The number of CHECK constraints among the first `n`.
pub open spec fn check_count(t: TableInfo, n: nat) -> int
    decreases n,
{
    if n == 0 {
        0
    } else {
        check_count(t, (n - 1) as nat) + if t.constraints@[n - 1].constraint is Check {
            1int
        } else {
            0
        }
    }
}

fn count_checks(t: &TableInfo) -> (r: usize)
    ensures
        r == check_count(*t, t.constraints@.len()),
{
    let mut count: usize = 0;
    let mut i: usize = 0;
    while i < t.constraints.len()
        invariant
            i <= t.constraints@.len(),
            count <= i,
            count == check_count(*t, i as nat),
        decreases t.constraints@.len() - i,
    {
        if let TableConstraint::Check { .. } = &t.constraints[i].constraint {
            count = count + 1;
        }
        i = i + 1;
    }
    count
}

/// How a column's default makes it an identity column, as `attidentity` shows
/// it.
pub open spec fn identity_mark(d: Option<DefaultInfo>) -> Seq<char> {
    match d {
        Some(info) => match identity(info.expr) {
            Some(always) => if always {
                "a"@
            } else {
                "d"@
            },
            None => ""@,
        },
        None => ""@,
    }
}

fn mark_identity(d: &Option<DefaultInfo>) -> (r: &'static str)
    ensures
        r@ == identity_mark(*d),
{
    match d {
        Some(info) => match identity_kind(&info.expr) {
            Some(always) => if always {
                "a"
            } else {
                "d"
            },
            None => "",
        },
        None => "",
    }
}

/// Whether a column is generated, as `attgenerated` shows it.
pub open spec fn generated_mark(d: Option<DefaultInfo>) -> Seq<char> {
    match d {
        Some(info) => if info.generation is Some {
            "s"@
        } else {
            ""@
        },
        None => ""@,
    }
}

fn mark_generated(d: &Option<DefaultInfo>) -> (r: &'static str)
    ensures
        r@ == generated_mark(*d),
{
    match d {
        Some(info) => match &info.generation {
            Some(_) => "s",
            None => "",
        },
        None => "",
    }
}

/// Whether a column has a default that is not an identity column's generator.
pub open spec fn has_plain_default(d: Option<DefaultInfo>) -> bool {
    match d {
        Some(info) => identity(info.expr) is None,
        None => false,
    }
}

/// The literal text that a default stores, if it is one.
pub open spec fn literal_text(e: ScalarExpr) -> Option<Seq<char>> {
    match e {
        ScalarExpr::Literal(Value::Text(s)) => Some(s@),
        _ => None,
    }
}

/// A column default as `pg_get_expr(adbin, ..)` shows it; a generated column's
/// default is its generation expression. A literal text is stored as a value
/// of the column's type.
pub open spec fn shown_default(d: DefaultInfo, shown_type: Seq<char>) -> Seq<char> {
    let e = match d.generation {
        Some(g) => g,
        None => d.expr,
    };
    match literal_text(e) {
        Some(s) => "'"@ + replaced(s, '\'', "''"@) + "'::"@ + shown_type,
        None => d.shown@,
    }
}

/// A column default as `pg_get_expr(adbin, ..)` shows it.
pub fn default_text(d: &DefaultInfo, shown_type: &str) -> (r: String)
    ensures
        r@ == shown_default(*d, shown_type@),
{
    let e: &ScalarExpr = match &d.generation {
        Some(g) => g,
        None => &d.expr,
    };
    match e {
        ScalarExpr::Literal(Value::Text(s)) => {
            let body = replace_char(s.as_str(), '\'', "''");
            let mut out = concat3("'", body.as_str(), "'::");
            push_text(&mut out, shown_type);
            out
        },
        _ => d.shown.clone(),
    }
}

/// Column positions, counted from 1, as an array.
pub open spec fn numbers(at: Seq<int>) -> Val {
    Val::Array(Seq::new(at.len(), |i: int| Val::Int((at[i] + 1) as i64)))
}

fn number_array(at: &Vec<usize>) -> (r: Value)
    ensures
        r@ == numbers(as_ints(at@)),
{
    let mut out: Vec<Value> = Vec::new();
    let mut i: usize = 0;
    while i < at.len()
        invariant
            i <= at@.len(),
            out@.len() == i,
            forall|j: int| 0 <= j < i ==> (#[trigger] out@[j])@ == Val::Int((at@[j] + 1) as i64),
        decreases at@.len() - i,
    {
        out.push(Value::Int((at[i] as u128 + 1) as i64));
        i = i + 1;
    }
    assert(vals(out@) =~= numbers(as_ints(at@))->Array_0);
    Value::Array(out)
}

/// The identifier at a position of a list, 0 beyond it.
pub open spec fn oid_at(oids: Seq<i64>, i: int) -> i64 {
    if 0 <= i < oids.len() {
        oids[i]
    } else {
        0
    }
}

fn read_oid(oids: &Vec<i64>, i: usize) -> (r: i64)
    ensures
        r == oid_at(oids@, i as int),
{
    if i < oids.len() {
        oids[i]
    } else {
        0
    }
}

/// The names of an index's key columns.
pub open spec fn key_names(t: TableInfo, index: IndexInfo) -> Seq<Seq<char>> {
    let at = key_positions(t.columns@, index.keys@);
    Seq::new(at.len(), |i: int| t.columns@[at[i]].name@)
}

/// The names of an index's key columns.
pub fn names_of_keys(t: &TableInfo, index: &IndexInfo) -> (r: Vec<String>)
    ensures
        texts(r@) == key_names(*t, *index),
{
    let at = positions_of_keys(&t.columns, &index.keys);
    let ghost places = as_ints(at@);
    let mut out: Vec<String> = Vec::new();
    let mut i: usize = 0;
    while i < at.len()
        invariant
            i <= at@.len(),
            out@.len() == i,
            places == as_ints(at@),
            forall|j: int| 0 <= j < at@.len() ==> (#[trigger] at@[j]) < t.columns@.len(),
            forall|j: int| 0 <= j < i ==> (#[trigger] out@[j])@ == t.columns@[places[j]].name@,
        decreases at@.len() - i,
    {
        out.push(t.columns[at[i]].name.clone());
        i = i + 1;
    }
    assert(texts(out@) =~= key_names(*t, *index));
    out
}

/// The `CREATE INDEX` statement that `pg_indexes` shows.
pub open spec fn index_statement(t: TableInfo, index: IndexInfo) -> Seq<char> {
    "CREATE "@ + if index.unique {
        "UNIQUE "@
    } else {
        ""@
    } + "INDEX "@ + index.name@ + " ON "@ + t.schema@ + "."@ + t.name@ + " ("@ + join(
        key_names(t, index),
        ", "@,
    ) + ")"@
}

fn statement_of_index(t: &TableInfo, index: &IndexInfo) -> (r: String)
    ensures
        r@ == index_statement(*t, *index),
{
    let unique: &str = if index.unique {
        "UNIQUE "
    } else {
        ""
    };
    let mut out = concat3("CREATE ", unique, "INDEX ");
    push_text(&mut out, index.name.as_str());
    push_text(&mut out, " ON ");
    push_text(&mut out, t.schema.as_str());
    push_text(&mut out, ".");
    push_text(&mut out, t.name.as_str());
    push_text(&mut out, " (");
    let keys = names_of_keys(t, index);
    let listed = join_texts(&keys, ", ");
    push_text(&mut out, listed.as_str());
    push_text(&mut out, ")");
    out
}

// ---------------------------------------------------------------------------
// Rows of tables, columns, indexes, and constraints
// ---------------------------------------------------------------------------

/// The system tables whose rows the tables of a database make.
#[derive(Debug, Clone, Copy, PartialEq, Eq, Structural)]
pub enum SystemView {
    Class,
    Attribute,
    Index,
    Constraint,
    Tables,
    Indexes,
    Attrdef,
    Depend,
    Sequence,
}

/// The row that a table itself makes.
pub open spec fn table_row(view: SystemView, t: TableInfo) -> Option<Seq<Val>> {
    match view {
        SystemView::Class => Some(
            seq![
                Val::Int(t.oid),
                Val::Text(t.name@),
                Val::Int(t.schema_oid),
                Val::Int(0),
                Val::Int(0),
                Val::Int(10),
                // A table's access method is heap.
                Val::Int(
                    if !t.is_view && !is_sequence_table(t) {
                        2
                    } else {
                        0
                    },
                ),
                Val::Int(t.oid),
                Val::Int(0),
                Val::Int(0),
                Val::Float(0),
                Val::Int(0),
                Val::Int(0),
                Val::Bool(t.indexes@.len() > 0),
                Val::Bool(false),
                Val::Text("p"@),
                Val::Text(relation_kind(t)),
                Val::Int(t.columns@.len() as i64),
                Val::Int(check_count(t, t.constraints@.len()) as i64),
                Val::Bool(false),
                Val::Bool(false),
                Val::Bool(false),
                Val::Bool(false),
                Val::Bool(false),
                Val::Bool(true),
                Val::Text("d"@),
                Val::Bool(false),
                Val::Int(0),
                Val::Int(0),
                Val::Int(0),
                Val::Null,
                Val::Null,
                Val::Null,
            ],
        ),
        SystemView::Tables => if t.is_view {
            None
        } else {
            Some(
                seq![
                    Val::Text(t.schema@),
                    Val::Text(t.name@),
                    Val::Text("nodus"@),
                    Val::Null,
                    Val::Bool(t.indexes@.len() > 0),
                    Val::Bool(false),
                    Val::Bool(false),
                    Val::Bool(false),
                ],
            )
        },
        SystemView::Sequence => if !is_sequence_table(t) {
            None
        } else {
            match t.sequence {
                Some(s) => Some(
                    seq![
                        Val::Int(t.oid),
                        Val::Int(s.type_oid),
                        Val::Int(s.state.start),
                        Val::Int(s.state.increment),
                        Val::Int(s.state.max),
                        Val::Int(s.state.min),
                        Val::Int(s.state.cache),
                        Val::Bool(s.state.cycle),
                    ],
                ),
                None => None,
            }
        },
        _ => None,
    }
}

/// What an optional row stands for.
pub open spec fn opt_row(r: Option<Vec<Value>>) -> Option<Seq<Val>> {
    match r {
        Some(row) => Some(vals(row@)),
        None => None,
    }
}

fn row_of_table(view: SystemView, t: &TableInfo) -> (r: Option<Vec<Value>>)
    ensures
        opt_row(r) == table_row(view, *t),
{
    match view {
        SystemView::Class => {
            let sequence: bool = table_is_sequence(t);
            let method: i64 = if !t.is_view && !sequence {
                2
            } else {
                0
            };
            let row: Vec<Value> = vec![
                Value::Int(t.oid),
                Value::Text(t.name.clone()),
                Value::Int(t.schema_oid),
                Value::Int(0),
                Value::Int(0),
                Value::Int(10),
                Value::Int(method),
                Value::Int(t.oid),
                Value::Int(0),
                Value::Int(0),
                Value::Float(0),
                Value::Int(0),
                Value::Int(0),
                Value::Bool(t.indexes.len() > 0),
                Value::Bool(false),
                Value::Text("p".to_owned()),
                Value::Text(kind_of_relation(t).to_owned()),
                Value::Int(t.columns.len() as i64),
                Value::Int(count_checks(t) as i64),
                Value::Bool(false),
                Value::Bool(false),
                Value::Bool(false),
                Value::Bool(false),
                Value::Bool(false),
                Value::Bool(true),
                Value::Text("d".to_owned()),
                Value::Bool(false),
                Value::Int(0),
                Value::Int(0),
                Value::Int(0),
                Value::Null,
                Value::Null,
                Value::Null,
            ];
            assert(vals(row@) =~= table_row(view, *t)->Some_0);
            Some(row)
        },
        SystemView::Tables => {
            if t.is_view {
                return None;
            }
            let row: Vec<Value> = vec![
                Value::Text(t.schema.clone()),
                Value::Text(t.name.clone()),
                Value::Text("nodus".to_owned()),
                Value::Null,
                Value::Bool(t.indexes.len() > 0),
                Value::Bool(false),
                Value::Bool(false),
                Value::Bool(false),
            ];
            assert(vals(row@) =~= table_row(view, *t)->Some_0);
            Some(row)
        },
        SystemView::Sequence => {
            if !table_is_sequence(t) {
                return None;
            }
            match &t.sequence {
                Some(s) => {
                    let row: Vec<Value> = vec![
                        Value::Int(t.oid),
                        Value::Int(s.type_oid),
                        Value::Int(s.state.start),
                        Value::Int(s.state.increment),
                        Value::Int(s.state.max),
                        Value::Int(s.state.min),
                        Value::Int(s.state.cache),
                        Value::Bool(s.state.cycle),
                    ];
                    assert(vals(row@) =~= table_row(view, *t)->Some_0);
                    Some(row)
                },
                None => None,
            }
        },
        _ => None,
    }
}

/// The row that a column makes.
pub open spec fn column_row(view: SystemView, t: TableInfo, i: int) -> Option<Seq<Val>> {
    let c = t.columns@[i];
    match view {
        SystemView::Attribute => Some(
            seq![
                Val::Int(t.oid),
                Val::Text(c.name@),
                Val::Int(c.type_oid),
                Val::Int((-1) as i64),
                Val::Int(c.type_length),
                Val::Int((i + 1) as i64),
                Val::Int(
                    if ends(c.data_type@, "[]"@) {
                        1
                    } else {
                        0
                    },
                ),
                Val::Int((-1) as i64),
                Val::Int(c.type_modifier),
                Val::Bool(by_value(c.type_oid)),
                Val::Text(c.type_storage@),
                Val::Text("i"@),
                Val::Bool(!c.nullable),
                Val::Bool(has_plain_default(c.default)),
                Val::Bool(false),
                Val::Text(identity_mark(c.default)),
                Val::Text(generated_mark(c.default)),
                Val::Bool(false),
                Val::Bool(true),
                Val::Int(0),
                Val::Int(100),
                Val::Null,
                Val::Null,
                Val::Null,
                Val::Null,
                Val::Text(""@),
            ],
        ),
        // Each NOT NULL column is recorded as a constraint.
        SystemView::Constraint => if c.nullable || t.is_view {
            None
        } else {
            Some(
                seq![
                    Val::Int(oid_at(t.not_null_oids@, i)),
                    Val::Text(not_null_name(t.name@, c.name@)),
                    Val::Int(t.schema_oid),
                    Val::Text("n"@),
                    Val::Bool(false),
                    Val::Bool(false),
                    Val::Bool(true),
                    Val::Int(t.oid),
                    Val::Int(0),
                    Val::Int(0),
                    Val::Int(0),
                    Val::Int(0),
                    Val::Text(" "@),
                    Val::Text(" "@),
                    Val::Text(" "@),
                    Val::Bool(true),
                    Val::Int(0),
                    Val::Bool(false),
                    numbers(seq![i]),
                    Val::Null,
                    Val::Null,
                    Val::Null,
                    Val::Null,
                    Val::Null,
                    Val::Null,
                    Val::Null,
                ],
            )
        },
        // An identity column's generator is not a default.
        SystemView::Attrdef => match c.default {
            Some(d) => if identity(d.expr) is None {
                Some(
                    seq![
                        Val::Int(d.oid),
                        Val::Int(t.oid),
                        Val::Int((i + 1) as i64),
                        Val::Text(shown_default(d, c.shown_type@)),
                    ],
                )
            } else {
                None
            },
            None => None,
        },
        // A `serial` column's sequence depends on the column automatically, an
        // identity column's internally.
        SystemView::Depend => match c.default {
            Some(d) => if drawn_sequence(d.expr) is Some {
                Some(
                    seq![
                        Val::Int(PG_CLASS_OID),
                        Val::Int(d.sequence_oid),
                        Val::Int(0),
                        Val::Int(PG_CLASS_OID),
                        Val::Int(t.oid),
                        Val::Int((i + 1) as i64),
                        Val::Text(
                            if identity(d.expr) is Some {
                                "i"@
                            } else {
                                "a"@
                            },
                        ),
                    ],
                )
            } else {
                None
            },
            None => None,
        },
        _ => None,
    }
}

fn attribute_row(t: &TableInfo, i: usize) -> (r: Vec<Value>)
    requires
        i < t.columns@.len(),
    ensures
        Some(vals(r@)) == column_row(SystemView::Attribute, *t, i as int),
{
    let c = &t.columns[i];
    let dims: i64 = if ends_with(c.data_type.as_str(), "[]") {
        1
    } else {
        0
    };
    let oid: i64 = c.type_oid;
    let direct: bool = oid == 16 || oid == 20 || oid == 21 || oid == 23 || oid == 26 || oid == 700
        || oid == 701;
    let plain: bool = match &c.default {
        Some(d) => match identity_kind(&d.expr) {
            Some(_) => false,
            None => true,
        },
        None => false,
    };
    let row: Vec<Value> = vec![
        Value::Int(t.oid),
        Value::Text(c.name.clone()),
        Value::Int(c.type_oid),
        Value::Int(-1),
        Value::Int(c.type_length),
        Value::Int((i as u128 + 1) as i64),
        Value::Int(dims),
        Value::Int(-1),
        Value::Int(c.type_modifier),
        Value::Bool(direct),
        Value::Text(c.type_storage.clone()),
        Value::Text("i".to_owned()),
        Value::Bool(!c.nullable),
        Value::Bool(plain),
        Value::Bool(false),
        Value::Text(mark_identity(&c.default).to_owned()),
        Value::Text(mark_generated(&c.default).to_owned()),
        Value::Bool(false),
        Value::Bool(true),
        Value::Int(0),
        Value::Int(100),
        Value::Null,
        Value::Null,
        Value::Null,
        Value::Null,
        Value::Text("".to_owned()),
    ];
    assert(vals(row@) =~= column_row(SystemView::Attribute, *t, i as int)->Some_0);
    row
}

fn row_of_column(view: SystemView, t: &TableInfo, i: usize) -> (r: Option<Vec<Value>>)
    requires
        i < t.columns@.len(),
    ensures
        opt_row(r) == column_row(view, *t, i as int),
{
    let c = &t.columns[i];
    match view {
        SystemView::Attribute => Some(attribute_row(t, i)),
        SystemView::Constraint => {
            if c.nullable || t.is_view {
                return None;
            }
            let name = name_of_not_null(t.name.as_str(), c.name.as_str());
            let at: Vec<usize> = vec![i];
            assert(as_ints(at@) =~= seq![i as int]);
            let row: Vec<Value> = vec![
                Value::Int(read_oid(&t.not_null_oids, i)),
                Value::Text(name.clone()),
                Value::Int(t.schema_oid),
                Value::Text("n".to_owned()),
                Value::Bool(false),
                Value::Bool(false),
                Value::Bool(true),
                Value::Int(t.oid),
                Value::Int(0),
                Value::Int(0),
                Value::Int(0),
                Value::Int(0),
                Value::Text(" ".to_owned()),
                Value::Text(" ".to_owned()),
                Value::Text(" ".to_owned()),
                Value::Bool(true),
                Value::Int(0),
                Value::Bool(false),
                number_array(&at),
                Value::Null,
                Value::Null,
                Value::Null,
                Value::Null,
                Value::Null,
                Value::Null,
                Value::Null,
            ];
            assert(vals(row@) =~= column_row(view, *t, i as int)->Some_0);
            Some(row)
        },
        SystemView::Attrdef => match &c.default {
            Some(d) => match identity_kind(&d.expr) {
                Some(_) => None,
                None => {
                    let text = default_text(d, c.shown_type.as_str());
                    let row: Vec<Value> = vec![
                        Value::Int(d.oid),
                        Value::Int(t.oid),
                        Value::Int((i as u128 + 1) as i64),
                        Value::Text(text.clone()),
                    ];
                    assert(vals(row@) =~= column_row(view, *t, i as int)->Some_0);
                    Some(row)
                },
            },
            None => None,
        },
        SystemView::Depend => match &c.default {
            Some(d) => match default_sequence(&d.expr) {
                None => None,
                Some(_) => {
                    let internal: bool = match identity_kind(&d.expr) {
                        Some(_) => true,
                        None => false,
                    };
                    let mark: &str = if internal {
                        "i"
                    } else {
                        "a"
                    };
                    let row: Vec<Value> = vec![
                        Value::Int(PG_CLASS_OID),
                        Value::Int(d.sequence_oid),
                        Value::Int(0),
                        Value::Int(PG_CLASS_OID),
                        Value::Int(t.oid),
                        Value::Int((i as u128 + 1) as i64),
                        Value::Text(mark.to_owned()),
                    ];
                    assert(vals(row@) =~= column_row(view, *t, i as int)->Some_0);
                    Some(row)
                },
            },
            None => None,
        },
        _ => None,
    }
}

/// The row that an index makes.
pub open spec fn index_row(view: SystemView, t: TableInfo, i: int) -> Option<Seq<Val>> {
    let x = t.indexes@[i];
    match view {
        SystemView::Class => Some(
            seq![
                Val::Int(x.oid),
                Val::Text(x.name@),
                Val::Int(t.schema_oid),
                Val::Int(0),
                Val::Int(0),
                Val::Int(10),
                Val::Int(403),
                Val::Int(x.oid),
                Val::Int(0),
                Val::Int(0),
                Val::Float(0),
                Val::Int(0),
                Val::Int(0),
                Val::Bool(false),
                Val::Bool(false),
                Val::Text("p"@),
                Val::Text("i"@),
                Val::Int(x.keys@.len() as i64),
                Val::Int(0),
                Val::Bool(false),
                Val::Bool(false),
                Val::Bool(false),
                Val::Bool(false),
                Val::Bool(false),
                Val::Bool(true),
                Val::Text("n"@),
                Val::Bool(false),
                Val::Int(0),
                Val::Int(0),
                Val::Int(0),
                Val::Null,
                Val::Null,
                Val::Null,
            ],
        ),
        // `indkey` is the ordered list of 1-based column positions, as a real
        // array so that `unnest(i.indkey)` returns one row per indexed column.
        SystemView::Index => Some(
            seq![
                Val::Int(x.oid),
                Val::Int(t.oid),
                Val::Int(x.keys@.len() as i64),
                Val::Int(x.keys@.len() as i64),
                Val::Bool(x.unique),
                Val::Bool(x.primary),
                Val::Bool(false),
                Val::Bool(true),
                Val::Bool(false),
                Val::Bool(true),
                Val::Bool(false),
                Val::Bool(true),
                Val::Bool(true),
                Val::Bool(false),
                numbers(key_positions(t.columns@, x.keys@)),
                Val::Text(""@),
                Val::Text(""@),
                Val::Text(""@),
                Val::Null,
                Val::Null,
            ],
        ),
        SystemView::Constraint => if !x.unique {
            None
        } else {
            Some(
                seq![
                    Val::Int(oid_at(t.index_constraint_oids@, i)),
                    Val::Text(x.name@),
                    Val::Int(t.schema_oid),
                    Val::Text(
                        if x.primary {
                            "p"@
                        } else {
                            "u"@
                        },
                    ),
                    Val::Bool(false),
                    Val::Bool(false),
                    Val::Bool(true),
                    Val::Int(t.oid),
                    Val::Int(0),
                    Val::Int(x.oid),
                    Val::Int(0),
                    Val::Int(0),
                    Val::Text("a"@),
                    Val::Text("a"@),
                    Val::Text("s"@),
                    Val::Bool(true),
                    Val::Int(0),
                    Val::Bool(false),
                    numbers(key_positions(t.columns@, x.keys@)),
                    Val::Null,
                    Val::Null,
                    Val::Null,
                    Val::Null,
                    Val::Null,
                    Val::Null,
                    Val::Null,
                ],
            )
        },
        SystemView::Indexes => Some(
            seq![
                Val::Text(t.schema@),
                Val::Text(t.name@),
                Val::Text(x.name@),
                Val::Null,
                Val::Text(index_statement(t, x)),
            ],
        ),
        _ => None,
    }
}

fn row_of_index(view: SystemView, t: &TableInfo, i: usize) -> (r: Option<Vec<Value>>)
    requires
        i < t.indexes@.len(),
    ensures
        opt_row(r) == index_row(view, *t, i as int),
{
    let x = &t.indexes[i];
    match view {
        SystemView::Class => {
            let row: Vec<Value> = vec![
                Value::Int(x.oid),
                Value::Text(x.name.clone()),
                Value::Int(t.schema_oid),
                Value::Int(0),
                Value::Int(0),
                Value::Int(10),
                Value::Int(403),
                Value::Int(x.oid),
                Value::Int(0),
                Value::Int(0),
                Value::Float(0),
                Value::Int(0),
                Value::Int(0),
                Value::Bool(false),
                Value::Bool(false),
                Value::Text("p".to_owned()),
                Value::Text("i".to_owned()),
                Value::Int(x.keys.len() as i64),
                Value::Int(0),
                Value::Bool(false),
                Value::Bool(false),
                Value::Bool(false),
                Value::Bool(false),
                Value::Bool(false),
                Value::Bool(true),
                Value::Text("n".to_owned()),
                Value::Bool(false),
                Value::Int(0),
                Value::Int(0),
                Value::Int(0),
                Value::Null,
                Value::Null,
                Value::Null,
            ];
            assert(vals(row@) =~= index_row(view, *t, i as int)->Some_0);
            Some(row)
        },
        SystemView::Index => {
            let at = positions_of_keys(&t.columns, &x.keys);
            let row: Vec<Value> = vec![
                Value::Int(x.oid),
                Value::Int(t.oid),
                Value::Int(x.keys.len() as i64),
                Value::Int(x.keys.len() as i64),
                Value::Bool(x.unique),
                Value::Bool(x.primary),
                Value::Bool(false),
                Value::Bool(true),
                Value::Bool(false),
                Value::Bool(true),
                Value::Bool(false),
                Value::Bool(true),
                Value::Bool(true),
                Value::Bool(false),
                number_array(&at),
                Value::Text("".to_owned()),
                Value::Text("".to_owned()),
                Value::Text("".to_owned()),
                Value::Null,
                Value::Null,
            ];
            assert(vals(row@) =~= index_row(view, *t, i as int)->Some_0);
            Some(row)
        },
        SystemView::Constraint => {
            if !x.unique {
                return None;
            }
            let at = positions_of_keys(&t.columns, &x.keys);
            let mark: &str = if x.primary {
                "p"
            } else {
                "u"
            };
            let row: Vec<Value> = vec![
                Value::Int(read_oid(&t.index_constraint_oids, i)),
                Value::Text(x.name.clone()),
                Value::Int(t.schema_oid),
                Value::Text(mark.to_owned()),
                Value::Bool(false),
                Value::Bool(false),
                Value::Bool(true),
                Value::Int(t.oid),
                Value::Int(0),
                Value::Int(x.oid),
                Value::Int(0),
                Value::Int(0),
                Value::Text("a".to_owned()),
                Value::Text("a".to_owned()),
                Value::Text("s".to_owned()),
                Value::Bool(true),
                Value::Int(0),
                Value::Bool(false),
                number_array(&at),
                Value::Null,
                Value::Null,
                Value::Null,
                Value::Null,
                Value::Null,
                Value::Null,
                Value::Null,
            ];
            assert(vals(row@) =~= index_row(view, *t, i as int)->Some_0);
            Some(row)
        },
        SystemView::Indexes => {
            let statement = statement_of_index(t, x);
            let row: Vec<Value> = vec![
                Value::Text(t.schema.clone()),
                Value::Text(t.name.clone()),
                Value::Text(x.name.clone()),
                Value::Null,
                Value::Text(statement.clone()),
            ];
            assert(vals(row@) =~= index_row(view, *t, i as int)->Some_0);
            Some(row)
        },
        _ => None,
    }
}

/// The row that a key column of an index makes: the `j`-th key, which is the
/// table's column at `p`.
pub open spec fn key_row(view: SystemView, t: TableInfo, i: int, j: int, p: int) -> Option<
    Seq<Val>,
> {
    let x = t.indexes@[i];
    let c = t.columns@[p];
    match view {
        // An index's attributes are its key columns.
        SystemView::Attribute => Some(
            seq![
                Val::Int(x.oid),
                Val::Text(c.name@),
                Val::Int(c.type_oid),
                Val::Int((-1) as i64),
                Val::Int(c.type_length),
                Val::Int((j + 1) as i64),
                Val::Int(0),
                Val::Int((-1) as i64),
                Val::Int(c.type_modifier),
                Val::Bool(by_value(c.type_oid)),
                Val::Text(c.type_storage@),
                Val::Text("i"@),
                Val::Bool(false),
                Val::Bool(false),
                Val::Bool(false),
                Val::Text(""@),
                Val::Text(""@),
                Val::Bool(false),
                Val::Bool(true),
                Val::Int(0),
                Val::Int(0),
                Val::Null,
                Val::Null,
                Val::Null,
                Val::Null,
                Val::Text(""@),
            ],
        ),
        // An index depends on its columns (a unique one, like a constraint's,
        // on the constraint instead).
        SystemView::Depend => if x.unique {
            None
        } else {
            Some(
                seq![
                    Val::Int(PG_CLASS_OID),
                    Val::Int(x.oid),
                    Val::Int(0),
                    Val::Int(PG_CLASS_OID),
                    Val::Int(t.oid),
                    Val::Int((p + 1) as i64),
                    Val::Text("a"@),
                ],
            )
        },
        _ => None,
    }
}

fn row_of_key(view: SystemView, t: &TableInfo, i: usize, j: usize, p: usize) -> (r: Option<
    Vec<Value>,
>)
    requires
        i < t.indexes@.len(),
        p < t.columns@.len(),
    ensures
        opt_row(r) == key_row(view, *t, i as int, j as int, p as int),
{
    let x = &t.indexes[i];
    let c = &t.columns[p];
    match view {
        SystemView::Attribute => {
            let oid: i64 = c.type_oid;
            let direct: bool = oid == 16 || oid == 20 || oid == 21 || oid == 23 || oid == 26 || oid
                == 700 || oid == 701;
            let row: Vec<Value> = vec![
                Value::Int(x.oid),
                Value::Text(c.name.clone()),
                Value::Int(c.type_oid),
                Value::Int(-1),
                Value::Int(c.type_length),
                Value::Int((j as u128 + 1) as i64),
                Value::Int(0),
                Value::Int(-1),
                Value::Int(c.type_modifier),
                Value::Bool(direct),
                Value::Text(c.type_storage.clone()),
                Value::Text("i".to_owned()),
                Value::Bool(false),
                Value::Bool(false),
                Value::Bool(false),
                Value::Text("".to_owned()),
                Value::Text("".to_owned()),
                Value::Bool(false),
                Value::Bool(true),
                Value::Int(0),
                Value::Int(0),
                Value::Null,
                Value::Null,
                Value::Null,
                Value::Null,
                Value::Text("".to_owned()),
            ];
            assert(vals(row@) =~= key_row(view, *t, i as int, j as int, p as int)->Some_0);
            Some(row)
        },
        SystemView::Depend => {
            if x.unique {
                return None;
            }
            let row: Vec<Value> = vec![
                Value::Int(PG_CLASS_OID),
                Value::Int(x.oid),
                Value::Int(0),
                Value::Int(PG_CLASS_OID),
                Value::Int(t.oid),
                Value::Int((p as u128 + 1) as i64),
                Value::Text("a".to_owned()),
            ];
            assert(vals(row@) =~= key_row(view, *t, i as int, j as int, p as int)->Some_0);
            Some(row)
        },
        _ => None,
    }
}

/// The positions of named columns, without the names that no column has.
pub open spec fn named_positions(names: Seq<Seq<char>>, wanted: Seq<Seq<char>>) -> Seq<int>
    decreases wanted.len(),
{
    if wanted.len() == 0 {
        Seq::empty()
    } else {
        let rest = named_positions(names, wanted.drop_last());
        match index_of(names, wanted.last()) {
            Some(i) => rest.push(i),
            None => rest,
        }
    }
}

fn positions_of_names(names: &Vec<String>, wanted: &Vec<String>) -> (r: Vec<usize>)
    ensures
        as_ints(r@) == named_positions(texts(names@), texts(wanted@)),
{
    let ghost all = texts(wanted@);
    let mut out: Vec<usize> = Vec::new();
    let mut i: usize = 0;
    assert(all.take(0) =~= Seq::<Seq<char>>::empty());
    assert(as_ints(out@) =~= Seq::<int>::empty());
    while i < wanted.len()
        invariant
            i <= wanted@.len(),
            all == texts(wanted@),
            as_ints(out@) == named_positions(texts(names@), all.take(i as int)),
        decreases wanted@.len() - i,
    {
        assert(all.take(i + 1).drop_last() =~= all.take(i as int));
        assert(all.take(i + 1).last() == wanted@[i as int]@);
        let ghost before = out@;
        if let Some(p) = position_of(names, wanted[i].as_str()) {
            out.push(p);
            assert(as_ints(out@) =~= as_ints(before).push(p as int));
        }
        i = i + 1;
    }
    assert(all.take(i as int) =~= all);
    out
}

/// The numbers from 0 below `n`.
pub open spec fn count_to(n: nat) -> Seq<int> {
    Seq::new(n, |i: int| i)
}

fn counted_to(n: usize) -> (r: Vec<usize>)
    ensures
        as_ints(r@) == count_to(n as nat),
{
    let mut out: Vec<usize> = Vec::new();
    let mut i: usize = 0;
    while i < n
        invariant
            i <= n,
            out@.len() == i,
            forall|j: int| 0 <= j < i ==> out@[j] == j,
        decreases n - i,
    {
        out.push(i);
        i = i + 1;
    }
    assert(as_ints(out@) =~= count_to(n as nat));
    out
}

/// The row that a CHECK or FOREIGN KEY constraint makes.
pub open spec fn constraint_row(t: TableInfo, i: int) -> Seq<Val> {
    let info = t.constraints@[i];
    match info.constraint {
        TableConstraint::Check { expr, .. } => seq![
            Val::Int(info.oid),
            Val::Text(constraint_name(t.name@, i, info.constraint)),
            Val::Int(t.schema_oid),
            Val::Text("c"@),
            Val::Bool(false),
            Val::Bool(false),
            Val::Bool(true),
            Val::Int(t.oid),
            Val::Int(0),
            Val::Int(0),
            Val::Int(0),
            Val::Int(0),
            Val::Text("a"@),
            Val::Text("a"@),
            Val::Text("s"@),
            Val::Bool(true),
            Val::Int(0),
            Val::Bool(false),
            Val::Null,
            Val::Null,
            Val::Null,
            Val::Null,
            Val::Null,
            Val::Null,
            Val::Null,
            Val::Text(expr@),
        ],
        TableConstraint::ForeignKey { columns, referred_columns, .. } => seq![
            Val::Int(info.oid),
            Val::Text(constraint_name(t.name@, i, info.constraint)),
            Val::Int(t.schema_oid),
            Val::Text("f"@),
            Val::Bool(false),
            Val::Bool(false),
            Val::Bool(true),
            Val::Int(t.oid),
            Val::Int(0),
            Val::Int(0),
            Val::Int(0),
            Val::Int(info.referenced_oid),
            Val::Text("a"@),
            Val::Text("a"@),
            Val::Text("s"@),
            Val::Bool(true),
            Val::Int(0),
            Val::Bool(false),
            numbers(
                named_positions(crate::catalog::column_names(t.columns@), texts(columns@)),
            ),
            numbers(count_to(referred_columns@.len())),
            Val::Null,
            Val::Null,
            Val::Null,
            Val::Null,
            Val::Null,
            Val::Null,
        ],
    }
}

fn row_of_constraint(t: &TableInfo, i: usize) -> (r: Vec<Value>)
    requires
        i < t.constraints@.len(),
    ensures
        vals(r@) == constraint_row(*t, i as int),
{
    let info = &t.constraints[i];
    let name = name_of_constraint(t.name.as_str(), i, &info.constraint);
    match &info.constraint {
        TableConstraint::Check { expr, .. } => {
            let row: Vec<Value> = vec![
                Value::Int(info.oid),
                Value::Text(name),
                Value::Int(t.schema_oid),
                Value::Text("c".to_owned()),
                Value::Bool(false),
                Value::Bool(false),
                Value::Bool(true),
                Value::Int(t.oid),
                Value::Int(0),
                Value::Int(0),
                Value::Int(0),
                Value::Int(0),
                Value::Text("a".to_owned()),
                Value::Text("a".to_owned()),
                Value::Text("s".to_owned()),
                Value::Bool(true),
                Value::Int(0),
                Value::Bool(false),
                Value::Null,
                Value::Null,
                Value::Null,
                Value::Null,
                Value::Null,
                Value::Null,
                Value::Null,
                Value::Text(expr.clone()),
            ];
            assert(vals(row@) =~= constraint_row(*t, i as int));
            row
        },
        TableConstraint::ForeignKey { columns, referred_columns, .. } => {
            let names = crate::catalog::names_of_columns(&t.columns);
            let at = positions_of_names(&names, columns);
            let referred = counted_to(referred_columns.len());
            let row: Vec<Value> = vec![
                Value::Int(info.oid),
                Value::Text(name),
                Value::Int(t.schema_oid),
                Value::Text("f".to_owned()),
                Value::Bool(false),
                Value::Bool(false),
                Value::Bool(true),
                Value::Int(t.oid),
                Value::Int(0),
                Value::Int(0),
                Value::Int(0),
                Value::Int(info.referenced_oid),
                Value::Text("a".to_owned()),
                Value::Text("a".to_owned()),
                Value::Text("s".to_owned()),
                Value::Bool(true),
                Value::Int(0),
                Value::Bool(false),
                number_array(&at),
                number_array(&referred),
                Value::Null,
                Value::Null,
                Value::Null,
                Value::Null,
                Value::Null,
                Value::Null,
            ];
            assert(vals(row@) =~= constraint_row(*t, i as int));
            row
        },
    }
}

// ---------------------------------------------------------------------------
// All rows
// ---------------------------------------------------------------------------

/// Rows and an optional further one.
pub open spec fn with_row(rows: Seq<Seq<Val>>, row: Option<Seq<Val>>) -> Seq<Seq<Val>> {
    match row {
        Some(r) => rows.push(r),
        None => rows,
    }
}

fn push_row(rows: &mut Vec<Vec<Value>>, row: Option<Vec<Value>>)
    ensures
        rows_view(final(rows)@) == with_row(rows_view(old(rows)@), opt_row(row)),
{
    if let Some(r) = row {
        add_row(rows, r);
    }
}

/// The rows that a table's first `n` columns make, after those given.
pub open spec fn column_rows(view: SystemView, t: TableInfo, n: nat, given: Seq<Seq<Val>>) -> Seq<
    Seq<Val>,
>
    decreases n,
{
    if n == 0 {
        given
    } else {
        with_row(column_rows(view, t, (n - 1) as nat, given), column_row(view, t, n - 1))
    }
}

/// The rows that a table's first `n` indexes make, after those given.
pub open spec fn index_rows(view: SystemView, t: TableInfo, n: nat, given: Seq<Seq<Val>>) -> Seq<
    Seq<Val>,
>
    decreases n,
{
    if n == 0 {
        given
    } else {
        with_row(index_rows(view, t, (n - 1) as nat, given), index_row(view, t, n - 1))
    }
}

/// The rows that the first `n` key columns of an index make, after those
/// given.
pub open spec fn key_rows(
    view: SystemView,
    t: TableInfo,
    i: int,
    n: nat,
    given: Seq<Seq<Val>>,
) -> Seq<Seq<Val>>
    decreases n,
{
    if n == 0 {
        given
    } else {
        let at = key_positions(t.columns@, t.indexes@[i].keys@);
        with_row(
            key_rows(view, t, i, (n - 1) as nat, given),
            key_row(view, t, i, n - 1, at[n - 1]),
        )
    }
}

/// The rows that the key columns of a table's first `n` indexes make, after
/// those given.
pub open spec fn all_key_rows(view: SystemView, t: TableInfo, n: nat, given: Seq<Seq<Val>>) -> Seq<
    Seq<Val>,
>
    decreases n,
{
    if n == 0 {
        given
    } else {
        key_rows(
            view,
            t,
            n - 1,
            key_positions(t.columns@, t.indexes@[n - 1].keys@).len(),
            all_key_rows(view, t, (n - 1) as nat, given),
        )
    }
}

/// The rows that a table's first `n` constraints make, after those given.
pub open spec fn constraint_rows(t: TableInfo, n: nat, given: Seq<Seq<Val>>) -> Seq<Seq<Val>>
    decreases n,
{
    if n == 0 {
        given
    } else {
        constraint_rows(t, (n - 1) as nat, given).push(constraint_row(t, n - 1))
    }
}

/// The rows that a table makes, after those given: its own, its columns' and
/// indexes', its indexes' keys', and its constraints'. In `pg_constraint` the
/// indexes come before the columns.
pub open spec fn table_rows(view: SystemView, t: TableInfo, given: Seq<Seq<Val>>) -> Seq<Seq<Val>> {
    let own = with_row(given, table_row(view, t));
    if view == SystemView::Constraint {
        constraint_rows(
            t,
            t.constraints@.len(),
            column_rows(
                view,
                t,
                t.columns@.len(),
                index_rows(view, t, t.indexes@.len(), own),
            ),
        )
    } else {
        all_key_rows(
            view,
            t,
            t.indexes@.len(),
            index_rows(
                view,
                t,
                t.indexes@.len(),
                column_rows(view, t, t.columns@.len(), own),
            ),
        )
    }
}

/// The rows that the first `n` tables make.
pub open spec fn view_rows(view: SystemView, tables: Seq<TableInfo>, n: nat) -> Seq<Seq<Val>>
    decreases n,
{
    if n == 0 {
        no_rows()
    } else {
        table_rows(view, tables[n - 1], view_rows(view, tables, (n - 1) as nat))
    }
}

fn push_column_rows(view: SystemView, t: &TableInfo, rows: &mut Vec<Vec<Value>>)
    ensures
        rows_view(final(rows)@) == column_rows(
            view,
            *t,
            t.columns@.len(),
            rows_view(old(rows)@),
        ),
{
    let ghost given = rows_view(rows@);
    let mut i: usize = 0;
    while i < t.columns.len()
        invariant
            i <= t.columns@.len(),
            rows_view(rows@) == column_rows(view, *t, i as nat, given),
        decreases t.columns@.len() - i,
    {
        let row = row_of_column(view, t, i);
        push_row(rows, row);
        i = i + 1;
    }
}

fn push_index_rows(view: SystemView, t: &TableInfo, rows: &mut Vec<Vec<Value>>)
    ensures
        rows_view(final(rows)@) == index_rows(
            view,
            *t,
            t.indexes@.len(),
            rows_view(old(rows)@),
        ),
{
    let ghost given = rows_view(rows@);
    let mut i: usize = 0;
    while i < t.indexes.len()
        invariant
            i <= t.indexes@.len(),
            rows_view(rows@) == index_rows(view, *t, i as nat, given),
        decreases t.indexes@.len() - i,
    {
        let row = row_of_index(view, t, i);
        push_row(rows, row);
        i = i + 1;
    }
}

fn push_key_rows(view: SystemView, t: &TableInfo, i: usize, rows: &mut Vec<Vec<Value>>)
    requires
        i < t.indexes@.len(),
    ensures
        rows_view(final(rows)@) == key_rows(
            view,
            *t,
            i as int,
            key_positions(t.columns@, t.indexes@[i as int].keys@).len(),
            rows_view(old(rows)@),
        ),
{
    let at = positions_of_keys(&t.columns, &t.indexes[i].keys);
    let ghost places = as_ints(at@);
    let ghost given = rows_view(rows@);
    let mut j: usize = 0;
    while j < at.len()
        invariant
            i < t.indexes@.len(),
            j <= at@.len(),
            places == as_ints(at@),
            places == key_positions(t.columns@, t.indexes@[i as int].keys@),
            forall|x: int| 0 <= x < at@.len() ==> (#[trigger] at@[x]) < t.columns@.len(),
            rows_view(rows@) == key_rows(view, *t, i as int, j as nat, given),
        decreases at@.len() - j,
    {
        assert(places[j as int] == at@[j as int]);
        let row = row_of_key(view, t, i, j, at[j]);
        push_row(rows, row);
        j = j + 1;
    }
    assert(places.len() == at@.len());
}

fn push_all_key_rows(view: SystemView, t: &TableInfo, rows: &mut Vec<Vec<Value>>)
    ensures
        rows_view(final(rows)@) == all_key_rows(
            view,
            *t,
            t.indexes@.len(),
            rows_view(old(rows)@),
        ),
{
    let ghost given = rows_view(rows@);
    let mut i: usize = 0;
    while i < t.indexes.len()
        invariant
            i <= t.indexes@.len(),
            rows_view(rows@) == all_key_rows(view, *t, i as nat, given),
        decreases t.indexes@.len() - i,
    {
        push_key_rows(view, t, i, rows);
        i = i + 1;
    }
}

fn push_constraint_rows(t: &TableInfo, rows: &mut Vec<Vec<Value>>)
    ensures
        rows_view(final(rows)@) == constraint_rows(
            *t,
            t.constraints@.len(),
            rows_view(old(rows)@),
        ),
{
    let ghost given = rows_view(rows@);
    let mut i: usize = 0;
    while i < t.constraints.len()
        invariant
            i <= t.constraints@.len(),
            rows_view(rows@) == constraint_rows(*t, i as nat, given),
        decreases t.constraints@.len() - i,
    {
        let row = row_of_constraint(t, i);
        add_row(rows, row);
        i = i + 1;
    }
}

/// The rows that the tables of a database make in a system table.
pub fn rows_of_view(view: SystemView, tables: &Vec<TableInfo>) -> (r: Vec<Vec<Value>>)
    ensures
        rows_view(r@) == view_rows(view, tables@, tables@.len()),
{
    let mut rows = new_rows();
    let mut i: usize = 0;
    while i < tables.len()
        invariant
            i <= tables@.len(),
            rows_view(rows@) == view_rows(view, tables@, i as nat),
        decreases tables@.len() - i,
    {
        let t = &tables[i];
        let own = row_of_table(view, t);
        push_row(&mut rows, own);
        if view == SystemView::Constraint {
            push_index_rows(view, t, &mut rows);
            push_column_rows(view, t, &mut rows);
            push_constraint_rows(t, &mut rows);
        } else {
            push_column_rows(view, t, &mut rows);
            push_index_rows(view, t, &mut rows);
            push_all_key_rows(view, t, &mut rows);
        }
        i = i + 1;
    }
    rows
}

/// The rows of `pg_constraint`.
pub fn pg_constraint_rows(tables: &Vec<TableInfo>) -> (r: Vec<Vec<Value>>)
    ensures
        rows_view(r@) == view_rows(SystemView::Constraint, tables@, tables@.len()),
{
    rows_of_view(SystemView::Constraint, tables)
}

// ---------------------------------------------------------------------------
// Schemas and transactions
// ---------------------------------------------------------------------------

/// A schema's row in `pg_namespace`.
pub open spec fn namespace_row(oid: i64, name: Seq<char>) -> Seq<Val> {
    seq![Val::Int(oid), Val::Text(name), Val::Int(10), Val::Null]
}

fn row_of_namespace(oid: i64, name: &str) -> (r: Vec<Value>)
    ensures
        vals(r@) == namespace_row(oid, name@),
{
    let row: Vec<Value> = vec![
        Value::Int(oid),
        Value::Text(name.to_owned()),
        Value::Int(10),
        Value::Null,
    ];
    assert(vals(row@) =~= namespace_row(oid, name@));
    row
}

/// The rows of `pg_namespace` for the first `n` schemas.
pub open spec fn namespace_rows(c: Catalog, n: nat) -> Seq<Seq<Val>>
    decreases n,
{
    if n == 0 {
        no_rows().push(namespace_row(c.catalog_oid, "pg_catalog"@)).push(
            namespace_row(c.information_oid, "information_schema"@),
        )
    } else {
        namespace_rows(c, (n - 1) as nat).push(
            namespace_row(c.schemas@[n - 1].oid, c.schemas@[n - 1].name@),
        )
    }
}

fn rows_of_namespaces(c: &Catalog) -> (r: Vec<Vec<Value>>)
    ensures
        rows_view(r@) == namespace_rows(*c, c.schemas@.len()),
{
    let mut rows = new_rows();
    add_row(&mut rows, row_of_namespace(c.catalog_oid, "pg_catalog"));
    add_row(&mut rows, row_of_namespace(c.information_oid, "information_schema"));
    let mut i: usize = 0;
    while i < c.schemas.len()
        invariant
            i <= c.schemas@.len(),
            rows_view(rows@) == namespace_rows(*c, i as nat),
        decreases c.schemas@.len() - i,
    {
        add_row(&mut rows, row_of_namespace(c.schemas[i].oid, c.schemas[i].name.as_str()));
        i = i + 1;
    }
    rows
}

/// The row of `pg_locks` for a transaction: the lock that it holds on its own
/// number.
pub open spec fn lock_row(c: Catalog, xid: i64) -> Seq<Val> {
    seq![
        Val::Text("transactionid"@),
        Val::Int(c.database_oid),
        Val::Null,
        Val::Int(xid),
        Val::Null,
        Val::Text("ExclusiveLock"@),
        Val::Bool(true),
    ]
}

/// The rows of `pg_locks` for the first `n` transactions that a `BEGIN`
/// opened.
pub open spec fn lock_rows(c: Catalog, n: nat) -> Seq<Seq<Val>>
    decreases n,
{
    if n == 0 {
        no_rows()
    } else {
        lock_rows(c, (n - 1) as nat).push(lock_row(c, c.transactions@[n - 1]))
    }
}

fn rows_of_locks(c: &Catalog) -> (r: Vec<Vec<Value>>)
    ensures
        rows_view(r@) == lock_rows(*c, c.transactions@.len()),
{
    let mut rows = new_rows();
    let mut i: usize = 0;
    while i < c.transactions.len()
        invariant
            i <= c.transactions@.len(),
            rows_view(rows@) == lock_rows(*c, i as nat),
        decreases c.transactions@.len() - i,
    {
        let row: Vec<Value> = vec![
            Value::Text("transactionid".to_owned()),
            Value::Int(c.database_oid),
            Value::Null,
            Value::Int(c.transactions[i]),
            Value::Null,
            Value::Text("ExclusiveLock".to_owned()),
            Value::Bool(true),
        ];
        assert(vals(row@) =~= lock_row(*c, c.transactions@[i as int]));
        add_row(&mut rows, row);
        i = i + 1;
    }
    rows
}

// ---------------------------------------------------------------------------
// The tables
// ---------------------------------------------------------------------------

/// The system table that the tables of a database make under a name, with its
/// columns.
pub open spec fn made_table(name: Seq<char>) -> Option<(SystemView, Seq<char>)> {
    if name == "pg_class"@ {
        Some((SystemView::Class, PG_CLASS_COLUMNS@))
    } else if name == "pg_attribute"@ {
        Some((SystemView::Attribute, PG_ATTRIBUTE_COLUMNS@))
    } else if name == "pg_index"@ {
        Some((SystemView::Index, PG_INDEX_COLUMNS@))
    } else if name == "pg_constraint"@ {
        Some((SystemView::Constraint, PG_CONSTRAINT_COLUMNS@))
    } else if name == "pg_tables"@ {
        Some((SystemView::Tables, PG_TABLES_COLUMNS@))
    } else if name == "pg_indexes"@ {
        Some((SystemView::Indexes, PG_INDEXES_COLUMNS@))
    } else if name == "pg_attrdef"@ {
        Some((SystemView::Attrdef, PG_ATTRDEF_COLUMNS@))
    } else if name == "pg_depend"@ {
        Some((SystemView::Depend, PG_DEPEND_COLUMNS@))
    } else if name == "pg_sequence"@ {
        Some((SystemView::Sequence, PG_SEQUENCE_COLUMNS@))
    } else {
        None
    }
}

fn find_made_table(name: &str) -> (r: Option<(SystemView, &'static str)>)
    ensures
        match (r, made_table(name@)) {
            (Some((v, a)), Some((w, b))) => v == w && a@ == b,
            (None, None) => true,
            _ => false,
        },
{
    if same_text(name, "pg_class") {
        Some((SystemView::Class, PG_CLASS_COLUMNS))
    } else if same_text(name, "pg_attribute") {
        Some((SystemView::Attribute, PG_ATTRIBUTE_COLUMNS))
    } else if same_text(name, "pg_index") {
        Some((SystemView::Index, PG_INDEX_COLUMNS))
    } else if same_text(name, "pg_constraint") {
        Some((SystemView::Constraint, PG_CONSTRAINT_COLUMNS))
    } else if same_text(name, "pg_tables") {
        Some((SystemView::Tables, PG_TABLES_COLUMNS))
    } else if same_text(name, "pg_indexes") {
        Some((SystemView::Indexes, PG_INDEXES_COLUMNS))
    } else if same_text(name, "pg_attrdef") {
        Some((SystemView::Attrdef, PG_ATTRDEF_COLUMNS))
    } else if same_text(name, "pg_depend") {
        Some((SystemView::Depend, PG_DEPEND_COLUMNS))
    } else if same_text(name, "pg_sequence") {
        Some((SystemView::Sequence, PG_SEQUENCE_COLUMNS))
    } else {
        None
    }
}

/// The system table of a name, in any letter case; `None` if there is none.
pub open spec fn pg_table(name: Seq<char>, c: Catalog) -> Option<Rel> {
    let low = lower(name);
    if low == "pg_type"@ {
        Some(system_table(PG_TYPE_COLUMNS@, type_rows(c.catalog_oid)))
    } else if low == "pg_settings"@ {
        Some(system_table(PG_SETTINGS_COLUMNS@, setting_rows()))
    } else if low == "pg_namespace"@ {
        Some(system_table(PG_NAMESPACE_COLUMNS@, namespace_rows(c, c.schemas@.len())))
    } else if low == "pg_locks"@ {
        Some(system_table(PG_LOCKS_COLUMNS@, lock_rows(c, c.transactions@.len())))
    } else {
        match made_table(low) {
            Some((view, columns)) => Some(
                system_table(columns, view_rows(view, c.tables@, c.tables@.len())),
            ),
            None => match written_table(low) {
                Some((columns, rows)) => Some(system_table(columns, catalog_rows(rows, c))),
                None => None,
            },
        }
    }
}

/// The system table of a name.
pub fn pg_catalog_virtual_table(name: &str, c: &Catalog) -> (r: Option<Relation>)
    ensures
        match (r, pg_table(name@, *c)) {
            (Some(a), Some(b)) => a@ == b,
            (None, None) => true,
            _ => false,
        },
{
    let low = lower_text(name);
    if same_text(low.as_str(), "pg_type") {
        return Some(make_table(PG_TYPE_COLUMNS, rows_of_types(c.catalog_oid)));
    }
    if same_text(low.as_str(), "pg_settings") {
        return Some(make_table(PG_SETTINGS_COLUMNS, rows_of_settings()));
    }
    if same_text(low.as_str(), "pg_namespace") {
        return Some(make_table(PG_NAMESPACE_COLUMNS, rows_of_namespaces(c)));
    }
    if same_text(low.as_str(), "pg_locks") {
        return Some(make_table(PG_LOCKS_COLUMNS, rows_of_locks(c)));
    }
    match find_made_table(low.as_str()) {
        Some((view, columns)) => Some(make_table(columns, rows_of_view(view, &c.tables))),
        None => match find_written_table(low.as_str()) {
            Some((columns, rows)) => Some(make_table(columns, fill_rows(rows, c))),
            None => None,
        },
    }
}

/// The virtual table of a schema and a name: one of `pg_catalog`, or one of
/// `information_schema` as given; any other name is an error.
pub open spec fn virtual_table(
    schema: Seq<char>,
    name: Seq<char>,
    c: Catalog,
    information: Option<Rel>,
) -> Result<Rel, Seq<char>> {
    if lower(schema) == "pg_catalog"@ {
        match pg_table(name, c) {
            Some(t) => Ok(t),
            None => Err("relation \"pg_catalog."@ + name + "\" does not exist"@),
        }
    } else if lower(schema) == "information_schema"@ {
        match information {
            Some(t) => Ok(t),
            None => Err("relation \"information_schema."@ + name + "\" does not exist"@),
        }
    } else {
        Err("relation \""@ + schema + "."@ + name + "\" does not exist"@)
    }
}

/// Routes a schema and a table name to the matching synthesized view.
pub fn get_virtual_table(
    schema: &str,
    name: &str,
    c: &Catalog,
    information: Option<Relation>,
) -> (r: Result<Relation, String>)
    ensures
        match (
            r,
            virtual_table(
                schema@,
                name@,
                *c,
                match information {
                    Some(t) => Some(t@),
                    None => None,
                },
            ),
        ) {
            (Ok(a), Ok(b)) => a@ == b,
            (Err(a), Err(b)) => a@ == b,
            _ => false,
        },
{
    let low = lower_text(schema);
    if same_text(low.as_str(), "pg_catalog") {
        match pg_catalog_virtual_table(name, c) {
            Some(t) => Ok(t),
            None => Err(concat3("relation \"pg_catalog.", name, "\" does not exist")),
        }
    } else if same_text(low.as_str(), "information_schema") {
        match information {
            Some(t) => Ok(t),
            None => Err(concat3("relation \"information_schema.", name, "\" does not exist")),
        }
    } else {
        let mut m = concat3("relation \"", schema, ".");
        push_text(&mut m, name);
        push_text(&mut m, "\" does not exist");
        Err(m)
    }
}

/// `pg_type` is the table of the built-in types, and `pg_settings` that of the
/// settings' defaults.
pub proof fn law_types_and_settings_are_listed(name: Seq<char>, c: Catalog)
    ensures
        lower(name) == "pg_type"@ ==> pg_table(name, c) == Some(
            system_table(PG_TYPE_COLUMNS@, type_rows(c.catalog_oid)),
        ),
        lower(name) == "pg_settings"@ ==> pg_table(name, c) == Some(
            system_table(PG_SETTINGS_COLUMNS@, setting_rows()),
        ),
{
    reveal_strlit("pg_type");
    reveal_strlit("pg_settings");
    assert("pg_type"@.len() != "pg_settings"@.len());
}

/// The name of a system table does not depend on its letter case.
pub proof fn law_table_names_ignore_case(a: Seq<char>, b: Seq<char>, c: Catalog)
    requires
        lower(a) == lower(b),
    ensures
        pg_table(a, c) == pg_table(b, c),
{
}

} // verus!
