//! The catalog objects that the planner, the foreign keys, and the system
//! views read.
use vstd::prelude::*;
use crate::plan_types::ScalarExpr;
use crate::sequences::{is_sequence, sequence_names, SequenceState};
use crate::text::{concat3, decimal, join, join_texts, number_text, push_text, texts};

verus! {

/// What a foreign key does to the rows that reference a key that is removed
/// or changed.
#[derive(Debug, Clone, Copy, PartialEq, Eq, Structural)]
pub enum ReferentialAction {
    NoAction,
    Restrict,
    Cascade,
    SetNull,
    SetDefault,
}

/// A table constraint.
pub enum TableConstraint {
    Check { name: Option<String>, expr: String },
    ForeignKey {
        name: Option<String>,
        columns: Vec<String>,
        foreign_table: String,
        referred_columns: Vec<String>,
        on_delete: ReferentialAction,
        on_update: ReferentialAction,
    },
}

/// A column's default.
pub struct DefaultInfo {
    pub expr: ScalarExpr,
    /// The expression that generates the column, if it is a generated one.
    pub generation: Option<ScalarExpr>,
    /// The default, or the generating expression, as SQL.
    pub shown: String,
    /// The identifier of the default itself.
    pub oid: i64,
    /// The identifier of the sequence that the default draws from.
    pub sequence_oid: i64,
}

/// A column of a table.
pub struct ColumnInfo {
    pub id: u64,
    pub name: String,
    pub data_type: String,
    pub nullable: bool,
    pub default: Option<DefaultInfo>,
    pub type_oid: i64,
    pub type_length: i64,
    pub type_modifier: i64,
    pub type_storage: String,
    /// The type's name as the system functions print it.
    pub shown_type: String,
}

/// A key column of an index.
#[derive(Debug, Clone, Copy, PartialEq, Eq, Structural)]
pub struct IndexKey {
    pub column_id: u64,
    pub descending: bool,
}

/// An index of a table.
pub struct IndexInfo {
    pub name: String,
    pub unique: bool,
    pub primary: bool,
    pub keys: Vec<IndexKey>,
    /// Whether the index covers only some rows.
    pub partial: bool,
    /// Whether the index is over expressions.
    pub computed: bool,
    pub oid: i64,
}

/// A constraint of a table, with its identifier and, for a foreign key, that of
/// the table it references.
pub struct ConstraintInfo {
    pub constraint: TableConstraint,
    pub oid: i64,
    pub referenced_oid: i64,
}

/// A sequence's state, and the identifier of its type.
pub struct SequenceInfo {
    pub state: SequenceState,
    pub type_oid: i64,
}

/// A table, view, or sequence.
pub struct TableInfo {
    pub name: String,
    pub schema: String,
    pub oid: i64,
    pub schema_oid: i64,
    pub columns: Vec<ColumnInfo>,
    pub indexes: Vec<IndexInfo>,
    pub constraints: Vec<ConstraintInfo>,
    /// The identifier of each column's NOT NULL constraint.
    pub not_null_oids: Vec<i64>,
    /// The identifier of each index's constraint.
    pub index_constraint_oids: Vec<i64>,
    pub is_view: bool,
    pub is_materialized: bool,
    pub sequence: Option<SequenceInfo>,
}

/// A schema.
pub struct SchemaInfo {
    pub name: String,
    pub oid: i64,
}

/// A database's catalog.
pub struct Catalog {
    pub database: String,
    pub database_oid: i64,
    /// The identifier of the `pg_catalog` schema.
    pub catalog_oid: i64,
    /// The identifier of the `information_schema` schema.
    pub information_oid: i64,
    pub schemas: Vec<SchemaInfo>,
    pub tables: Vec<TableInfo>,
    /// The numbers of the transactions that a `BEGIN` opened.
    pub transactions: Vec<i64>,
    /// The identifier of the `plpgsql` extension.
    pub extension_oid: i64,
    /// The identifier of the `plpgsql` language.
    pub language_oid: i64,
}

/// The names of columns.
pub open spec fn column_names(columns: Seq<ColumnInfo>) -> Seq<Seq<char>> {
    Seq::new(columns.len(), |i: int| columns[i].name@)
}

/// The names of columns.
pub fn names_of_columns(columns: &Vec<ColumnInfo>) -> (r: Vec<String>)
    ensures
        texts(r@) == column_names(columns@),
{
    let mut out: Vec<String> = Vec::new();
    let mut i: usize = 0;
    while i < columns.len()
        invariant
            i <= columns@.len(),
            out@.len() == i,
            forall|j: int| 0 <= j < i ==> (#[trigger] out@[j])@ == columns@[j].name@,
        decreases columns@.len() - i,
    {
        out.push(columns[i].name.clone());
        i = i + 1;
    }
    assert(texts(out@) =~= column_names(columns@));
    out
}

/// The position of the column with an identifier, from `i` on.
pub open spec fn column_with_id(columns: Seq<ColumnInfo>, id: u64, i: int) -> Option<int>
    decreases columns.len() - i,
{
    if i < 0 || i >= columns.len() {
        None
    } else if columns[i].id == id {
        Some(i)
    } else {
        column_with_id(columns, id, i + 1)
    }
}

/// The position of the column with an identifier.
pub fn find_column_id(columns: &Vec<ColumnInfo>, id: u64) -> (r: Option<usize>)
    ensures
        match (r, column_with_id(columns@, id, 0)) {
            (Some(a), Some(b)) => a == b && a < columns@.len(),
            (None, None) => true,
            _ => false,
        },
{
    let mut i: usize = 0;
    while i < columns.len()
        invariant
            i <= columns@.len(),
            column_with_id(columns@, id, 0) == column_with_id(columns@, id, i as int),
        decreases columns@.len() - i,
    {
        if columns[i].id == id {
            return Some(i);
        }
        i = i + 1;
    }
    None
}

/// The positions of an index's key columns, without those that are gone.
pub open spec fn key_positions(columns: Seq<ColumnInfo>, keys: Seq<IndexKey>) -> Seq<int>
    decreases keys.len(),
{
    if keys.len() == 0 {
        Seq::empty()
    } else {
        let rest = key_positions(columns, keys.drop_last());
        match column_with_id(columns, keys.last().column_id, 0) {
            Some(i) => rest.push(i),
            None => rest,
        }
    }
}

/// Positions as integers.
pub open spec fn as_ints(s: Seq<usize>) -> Seq<int> {
    Seq::new(s.len(), |i: int| s[i] as int)
}

/// The positions of an index's key columns.
pub fn positions_of_keys(columns: &Vec<ColumnInfo>, keys: &Vec<IndexKey>) -> (r: Vec<usize>)
    ensures
        as_ints(r@) == key_positions(columns@, keys@),
        forall|i: int| 0 <= i < r@.len() ==> (#[trigger] r@[i]) < columns@.len(),
{
    let mut out: Vec<usize> = Vec::new();
    let mut i: usize = 0;
    assert(keys@.take(0) =~= Seq::<IndexKey>::empty());
    assert(as_ints(out@) =~= Seq::<int>::empty());
    while i < keys.len()
        invariant
            i <= keys@.len(),
            as_ints(out@) == key_positions(columns@, keys@.take(i as int)),
            forall|j: int| 0 <= j < out@.len() ==> (#[trigger] out@[j]) < columns@.len(),
        decreases keys@.len() - i,
    {
        assert(keys@.take(i + 1).drop_last() =~= keys@.take(i as int));
        let ghost before = out@;
        if let Some(p) = find_column_id(columns, keys[i].column_id) {
            out.push(p);
            assert(as_ints(out@) =~= as_ints(before).push(p as int));
        }
        i = i + 1;
    }
    assert(keys@.take(i as int) =~= keys@);
    out
}

/// Whether a table is a sequence relation.
pub open spec fn is_sequence_table(t: TableInfo) -> bool {
    column_names(t.columns@) == sequence_names()
}

/// Whether a table is a sequence relation.
pub fn table_is_sequence(t: &TableInfo) -> (r: bool)
    ensures
        r == is_sequence_table(*t),
{
    is_sequence(&names_of_columns(&t.columns))
}

/// The name of an unnamed foreign key.
pub open spec fn default_key_name(table: Seq<char>, columns: Seq<Seq<char>>) -> Seq<char> {
    table + "_"@ + join(columns, "_"@) + "_fkey"@
}

/// The name PostgreSQL gives an unnamed foreign key.
pub fn foreign_key_name(table: &str, columns: &Vec<String>) -> (r: String)
    ensures
        r@ == default_key_name(table@, texts(columns@)),
{
    let listed = join_texts(columns, "_");
    let mut out = concat3(table, "_", listed.as_str());
    push_text(&mut out, "_fkey");
    out
}

/// The name of the `i`-th constraint of a table.
pub open spec fn constraint_name(table: Seq<char>, i: int, c: TableConstraint) -> Seq<char> {
    match c {
        TableConstraint::Check { name, .. } => match name {
            Some(n) => n@,
            None => table + "_check_"@ + decimal(i + 1),
        },
        TableConstraint::ForeignKey { name, columns, .. } => match name {
            Some(n) => n@,
            None => default_key_name(table, texts(columns@)),
        },
    }
}

/// The name of the `i`-th constraint of a table.
pub fn name_of_constraint(table: &str, i: usize, c: &TableConstraint) -> (r: String)
    ensures
        r@ == constraint_name(table@, i as int, *c),
{
    match c {
        TableConstraint::Check { name, .. } => match name {
            Some(n) => n.clone(),
            None => {
                let number = number_text(i as u128 + 1);
                concat3(table, "_check_", number.as_str())
            },
        },
        TableConstraint::ForeignKey { name, columns, .. } => match name {
            Some(n) => n.clone(),
            None => foreign_key_name(table, columns),
        },
    }
}

/// The name of a column's NOT NULL constraint.
pub open spec fn not_null_name(table: Seq<char>, column: Seq<char>) -> Seq<char> {
    table + "_"@ + column + "_not_null"@
}

/// The name of a column's NOT NULL constraint.
pub fn name_of_not_null(table: &str, column: &str) -> (r: String)
    ensures
        r@ == not_null_name(table@, column@),
{
    let mut out = concat3(table, "_", column);
    push_text(&mut out, "_not_null");
    out
}

} // verus!
