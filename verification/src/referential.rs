//! Foreign keys: a new or changed row must reference an existing key, and
//! removing or changing a referenced key applies the key's `ON DELETE` /
//! `ON UPDATE` action to the rows referencing it.
use vstd::prelude::*;
use crate::catalog::{
    column_names, default_key_name, foreign_key_name, names_of_columns, ReferentialAction,
    TableConstraint, TableInfo,
};
use crate::cells::{cell, cell_at, cells, pick_cells};
use crate::facts::{bool_outcome, text_outcome, Facts, Halt, Known, Stop};
use crate::json_ops::texts_outcome;
use crate::names::{object_path, parse_object_name};
use crate::ordering::{positions_outcome, sort_by_keys, sorted_rows, KeyOrder};
use crate::pg_catalog::{key_names, names_of_keys};
use crate::render::{equal_values, render, shown, values_equal};
use crate::rows::{key_of, values_key};
use crate::text::{
    clone_texts, concat3, index_of, join, join_texts, opt_text, position_of, push_text, same_text,
    text_in, texts,
};
use crate::value::{clone_values, rows_view, vals, Val, Value};

verus! {

// ---------------------------------------------------------------------------
// Keys that a foreign key may reference
// ---------------------------------------------------------------------------

/// A table's columns and the keys a foreign key may reference: its primary key
/// and its unique constraints, by column names.
pub struct Keys {
    pub name: String,
    pub columns: Vec<String>,
    pub primary: Vec<String>,
    pub unique: Vec<Vec<String>>,
}

/// What [`Keys`] stand for.
#[verifier::ext_equal]
pub struct KeysView {
    pub name: Seq<char>,
    pub columns: Seq<Seq<char>>,
    pub primary: Seq<Seq<char>>,
    pub unique: Seq<Seq<Seq<char>>>,
}

impl View for Keys {
    type V = KeysView;

    open spec fn view(&self) -> KeysView {
        KeysView {
            name: self.name@,
            columns: texts(self.columns@),
            primary: texts(self.primary@),
            unique: crate::grouping::text_lists(self.unique@),
        }
    }
}

/// Whether a key has just these columns, in any order.
pub open spec fn same_columns(key: Seq<Seq<char>>, columns: Seq<Seq<char>>) -> bool {
    key.len() == columns.len() && forall|i: int|
        0 <= i < key.len() ==> columns.contains(#[trigger] key[i])
}

/// Whether columns are those of one of the keys.
pub open spec fn is_key(keys: KeysView, columns: Seq<Seq<char>>) -> bool {
    (keys.primary.len() > 0 && same_columns(keys.primary, columns)) || exists|i: int|
        0 <= i < keys.unique.len() && same_columns(#[trigger] keys.unique[i], columns)
}

fn columns_match(key: &Vec<String>, columns: &Vec<String>) -> (r: bool)
    ensures
        r == same_columns(texts(key@), texts(columns@)),
{
    if key.len() != columns.len() {
        return false;
    }
    let ghost all = texts(key@);
    let mut i: usize = 0;
    while i < key.len()
        invariant
            i <= key@.len() == columns@.len(),
            all == texts(key@),
            forall|j: int| 0 <= j < i ==> texts(columns@).contains(#[trigger] all[j]),
        decreases key@.len() - i,
    {
        assert(all[i as int] == key@[i as int]@);
        if !text_in(columns, key[i].as_str()) {
            return false;
        }
        i = i + 1;
    }
    true
}

/// The unique constraints' columns of the first `n` indexes: those that are
/// unique, cover every row, and are over columns alone.
pub open spec fn unique_keys(t: TableInfo, n: nat) -> Seq<Seq<Seq<char>>>
    decreases n,
{
    if n == 0 {
        Seq::empty()
    } else {
        let x = t.indexes@[n - 1];
        let rest = unique_keys(t, (n - 1) as nat);
        if x.unique && !x.primary && !x.partial && !x.computed {
            rest.push(key_names(t, x))
        } else {
            rest
        }
    }
}

impl Keys {
    /// The keys of a table in the catalog, given the columns of its declared
    /// primary key.
    pub fn of(t: &TableInfo, primary: &Vec<String>) -> (r: Keys)
        ensures
            r@ == (KeysView {
                name: t.name@,
                columns: column_names(t.columns@),
                primary: texts(primary@),
                unique: unique_keys(*t, t.indexes@.len()),
            }),
    {
        let mut unique: Vec<Vec<String>> = Vec::new();
        let mut i: usize = 0;
        assert(crate::grouping::text_lists(unique@) =~= Seq::<Seq<Seq<char>>>::empty());
        while i < t.indexes.len()
            invariant
                i <= t.indexes@.len(),
                crate::grouping::text_lists(unique@) == unique_keys(*t, i as nat),
            decreases t.indexes@.len() - i,
        {
            let x = &t.indexes[i];
            if x.unique && !x.primary && !x.partial && !x.computed {
                let ghost before = unique@;
                let names = names_of_keys(t, x);
                let ghost added = texts(names@);
                unique.push(names);
                assert(crate::grouping::text_lists(unique@) =~= crate::grouping::text_lists(
                    before,
                ).push(added));
            }
            i = i + 1;
        }
        Keys {
            name: t.name.clone(),
            columns: names_of_columns(&t.columns),
            primary: clone_texts(primary),
            unique,
        }
    }

    /// Whether `columns` are the columns of one of the keys.
    pub fn has_key(&self, columns: &Vec<String>) -> (r: bool)
        ensures
            r == is_key(self@, texts(columns@)),
    {
        if self.primary.len() > 0 && columns_match(&self.primary, columns) {
            return true;
        }
        let ghost all = self@.unique;
        let mut i: usize = 0;
        while i < self.unique.len()
            invariant
                i <= self.unique@.len(),
                all == crate::grouping::text_lists(self.unique@),
                all == self@.unique,
                forall|j: int|
                    0 <= j < i ==> !same_columns(#[trigger] all[j], texts(columns@)),
            decreases self.unique@.len() - i,
        {
            assert(all[i as int] == texts(self.unique@[i as int]@));
            if columns_match(&self.unique[i], columns) {
                assert(same_columns(self@.unique[i as int], texts(columns@)));
                return true;
            }
            i = i + 1;
        }
        false
    }
}

// ---------------------------------------------------------------------------
// Declaring a foreign key
// ---------------------------------------------------------------------------

/// The database, schema, and table that a foreign key names.
pub open spec fn referenced_path(name: Seq<char>) -> (Seq<char>, Seq<char>, Seq<char>) {
    match object_path(name) {
        Some(p) => p,
        None => ("default"@, "public"@, name),
    }
}

/// The database, schema, and table that a foreign key names.
pub fn referenced_table(name: &str) -> (r: (String, String, String))
    ensures
        (r.0@, r.1@, r.2@) == referenced_path(name@),
{
    match parse_object_name(name) {
        Ok(p) => p,
        Err(_) => ("default".to_owned(), "public".to_owned(), name.to_owned()),
    }
}

/// The first of the columns that is not among those of a table.
pub open spec fn missing_column(columns: Seq<Seq<char>>, among: Seq<Seq<char>>) -> Option<Seq<char>>
    decreases columns.len(),
{
    if columns.len() == 0 {
        None
    } else {
        match missing_column(columns.drop_last(), among) {
            Some(c) => Some(c),
            None => if among.contains(columns.last()) {
                None
            } else {
                Some(columns.last())
            },
        }
    }
}

proof fn lemma_missing_found(columns: Seq<Seq<char>>, among: Seq<Seq<char>>, n: int)
    requires
        0 <= n <= columns.len(),
        missing_column(columns.take(n), among) is Some,
    ensures
        missing_column(columns, among) == missing_column(columns.take(n), among),
    decreases columns.len(),
{
    if n < columns.len() {
        assert(columns.drop_last().take(n) =~= columns.take(n));
        lemma_missing_found(columns.drop_last(), among, n);
    } else {
        assert(columns.take(n) =~= columns);
    }
}

fn find_missing(columns: &Vec<String>, among: &Vec<String>) -> (r: Option<String>)
    ensures
        opt_text(r) == missing_column(texts(columns@), texts(among@)),
{
    let ghost all = texts(columns@);
    let mut i: usize = 0;
    assert(all.take(0) =~= Seq::<Seq<char>>::empty());
    while i < columns.len()
        invariant
            i <= columns@.len(),
            all == texts(columns@),
            missing_column(all.take(i as int), texts(among@)) is None,
        decreases columns@.len() - i,
    {
        assert(all.take(i + 1).drop_last() =~= all.take(i as int));
        assert(all.take(i + 1).last() == columns@[i as int]@);
        if !text_in(among, columns[i].as_str()) {
            proof {
                lemma_missing_found(all, texts(among@), i + 1);
            }
            return Some(columns[i].clone());
        }
        i = i + 1;
    }
    assert(all.take(i as int) =~= all);
    None
}

/// A foreign key as it is declared.
#[verifier::ext_equal]
pub struct KeyView {
    pub name: Option<Seq<char>>,
    pub columns: Seq<Seq<char>>,
    pub foreign_table: Seq<char>,
    pub referred_columns: Seq<Seq<char>>,
    pub on_delete: ReferentialAction,
    pub on_update: ReferentialAction,
}

/// The foreign key that a constraint is.
pub open spec fn key_view(c: TableConstraint) -> Option<KeyView> {
    match c {
        TableConstraint::ForeignKey {
            name,
            columns,
            foreign_table,
            referred_columns,
            on_delete,
            on_update,
        } => Some(
            KeyView {
                name: opt_text(name),
                columns: texts(columns@),
                foreign_table: foreign_table@,
                referred_columns: texts(referred_columns@),
                on_delete,
                on_update,
            },
        ),
        _ => None,
    }
}

/// The message for a column that a foreign key names and that is not there.
pub open spec fn no_key_column(column: Seq<char>) -> Seq<char> {
    "column \""@ + column + "\" referenced in foreign key constraint does not exist"@
}

/// The columns that a foreign key references: those it names, else the primary
/// key of the referenced table.
pub open spec fn referred(fk: KeyView, table: Seq<char>, parent: KeysView) -> Result<
    Seq<Seq<char>>,
    Seq<char>,
> {
    if fk.referred_columns.len() == 0 {
        if parent.primary.len() == 0 {
            Err("there is no primary key for referenced table \""@ + table + "\""@)
        } else {
            Ok(parent.primary)
        }
    } else {
        match missing_column(fk.referred_columns, parent.columns) {
            Some(c) => Err(no_key_column(c)),
            None => Ok(fk.referred_columns),
        }
    }
}

/// A foreign key completed and checked: it gets its name, one that names no
/// referenced columns references the primary key, and the referenced columns
/// must be a primary key or unique constraint of the referenced table.
/// `found` holds the keys of the table it names, if there is one.
pub open spec fn prepared(
    child: KeysView,
    child_schema: Seq<char>,
    fk: KeyView,
    found: Option<KeysView>,
) -> Result<KeyView, Seq<char>> {
    match missing_column(fk.columns, child.columns) {
        Some(c) => Err(no_key_column(c)),
        None => {
            let (_, schema, table) = referenced_path(fk.foreign_table);
            let parent = if table == child.name && schema == child_schema {
                Some(child)
            } else {
                found
            };
            match parent {
                None => Err("relation \""@ + table + "\" does not exist"@),
                Some(keys) => match referred(fk, table, keys) {
                    Err(m) => Err(m),
                    Ok(columns) => if columns.len() != fk.columns.len() {
                        Err(
                            "number of referencing and referenced columns for foreign key disagree"@,
                        )
                    } else if !is_key(keys, columns) {
                        Err(
                            "there is no unique constraint matching given keys for referenced table \""@
                                + table + "\""@,
                        )
                    } else {
                        Ok(
                            KeyView {
                                name: Some(
                                    match fk.name {
                                        Some(n) => n,
                                        None => default_key_name(child.name, fk.columns),
                                    },
                                ),
                                referred_columns: columns,
                                ..fk
                            },
                        )
                    },
                },
            }
        },
    }
}

/// What optional keys stand for.
pub open spec fn opt_keys(k: Option<&Keys>) -> Option<KeysView> {
    match k {
        Some(x) => Some(x@),
        None => None,
    }
}

/// Completes and checks `fk`, a foreign key of the table `child` is the keys
/// of. `found` holds the keys of the table it names, if there is one; any
/// other constraint is left as it is.
pub fn prepare_foreign_key(
    child: &Keys,
    child_schema: &str,
    fk: TableConstraint,
    found: Option<&Keys>,
) -> (r: Result<TableConstraint, String>)
    ensures
        match key_view(fk) {
            None => r == Ok::<TableConstraint, String>(fk),
            Some(view) => match (r, prepared(child@, child_schema@, view, opt_keys(found))) {
                (Ok(c), Ok(k)) => key_view(c) == Some(k),
                (Err(m), Err(e)) => m@ == e,
                _ => false,
            },
        },
{
    match fk {
        TableConstraint::ForeignKey {
            name,
            columns,
            foreign_table,
            referred_columns,
            on_delete,
            on_update,
        } => {
            if let Some(c) = find_missing(&columns, &child.columns) {
                return Err(
                    concat3(
                        "column \"",
                        c.as_str(),
                        "\" referenced in foreign key constraint does not exist",
                    ),
                );
            }
            let (_db, schema, table) = referenced_table(foreign_table.as_str());
            let own: bool = same_text(table.as_str(), child.name.as_str()) && same_text(
                schema.as_str(),
                child_schema,
            );
            let parent: &Keys = if own {
                child
            } else {
                match found {
                    Some(keys) => keys,
                    None => {
                        return Err(
                            concat3("relation \"", table.as_str(), "\" does not exist"),
                        );
                    },
                }
            };
            let whole: Vec<String> = if referred_columns.len() == 0 {
                if parent.primary.len() == 0 {
                    return Err(
                        concat3(
                            "there is no primary key for referenced table \"",
                            table.as_str(),
                            "\"",
                        ),
                    );
                }
                clone_texts(&parent.primary)
            } else {
                if let Some(c) = find_missing(&referred_columns, &parent.columns) {
                    return Err(
                        concat3(
                            "column \"",
                            c.as_str(),
                            "\" referenced in foreign key constraint does not exist",
                        ),
                    );
                }
                referred_columns
            };
            assert(texts(whole@).len() == whole@.len());
            if whole.len() != columns.len() {
                return Err(
                    "number of referencing and referenced columns for foreign key disagree".to_owned(),
                );
            }
            if !parent.has_key(&whole) {
                return Err(
                    concat3(
                        "there is no unique constraint matching given keys for referenced table \"",
                        table.as_str(),
                        "\"",
                    ),
                );
            }
            let full = match name {
                Some(n) => n,
                None => foreign_key_name(child.name.as_str(), &columns),
            };
            Ok(
                TableConstraint::ForeignKey {
                    name: Some(full),
                    columns,
                    foreign_table,
                    referred_columns: whole,
                    on_delete,
                    on_update,
                },
            )
        },
        other => Ok(other),
    }
}

/// A prepared foreign key references a key of the table it names, column by
/// column, and has a name.
pub proof fn law_prepared_keys_reference_a_key(
    child: KeysView,
    child_schema: Seq<char>,
    fk: KeyView,
    found: Option<KeysView>,
)
    requires
        prepared(child, child_schema, fk, found) is Ok,
    ensures
        ({
            let (_, schema, table) = referenced_path(fk.foreign_table);
            let parent = if table == child.name && schema == child_schema {
                child
            } else {
                found->Some_0
            };
            let k = prepared(child, child_schema, fk, found)->Ok_0;
            &&& k.name is Some
            &&& k.columns.len() == k.referred_columns.len()
            &&& is_key(parent, k.referred_columns)
        }),
{
}

/// Preparing a prepared foreign key again changes nothing.
pub proof fn law_preparing_twice_changes_nothing(
    child: KeysView,
    child_schema: Seq<char>,
    fk: KeyView,
    found: Option<KeysView>,
)
    requires
        prepared(child, child_schema, fk, found) is Ok,
        fk.columns.len() > 0,
        fk.referred_columns.len() > 0,
    ensures
        prepared(child, child_schema, prepared(child, child_schema, fk, found)->Ok_0, found)
            == prepared(child, child_schema, fk, found),
{
}

// ---------------------------------------------------------------------------
// A foreign key resolved
// ---------------------------------------------------------------------------

/// A foreign key of a table resolved against the table it references.
pub struct Reference {
    pub name: String,
    /// The schema of the referencing table.
    pub child_schema: String,
    pub child: String,
    pub child_columns: Vec<String>,
    pub child_positions: Vec<usize>,
    pub parent: String,
    pub parent_columns: Vec<String>,
    pub parent_positions: Vec<usize>,
    /// Whether the table references itself.
    pub is_own: bool,
    pub on_delete: ReferentialAction,
    pub on_update: ReferentialAction,
}

/// The positions of columns, or the first that is missing.
pub open spec fn column_positions(wanted: Seq<Seq<char>>, columns: Seq<Seq<char>>) -> Result<
    Seq<int>,
    Seq<char>,
>
    decreases wanted.len(),
{
    if wanted.len() == 0 {
        Ok(Seq::empty())
    } else {
        match column_positions(wanted.drop_last(), columns) {
            Err(c) => Err(c),
            Ok(done) => match index_of(columns, wanted.last()) {
                Some(i) => Ok(done.push(i)),
                None => Err(wanted.last()),
            },
        }
    }
}

proof fn lemma_positions_missing(wanted: Seq<Seq<char>>, columns: Seq<Seq<char>>, n: int)
    requires
        0 <= n <= wanted.len(),
        column_positions(wanted.take(n), columns) is Err,
    ensures
        column_positions(wanted, columns) == column_positions(wanted.take(n), columns),
    decreases wanted.len(),
{
    if n < wanted.len() {
        assert(wanted.drop_last().take(n) =~= wanted.take(n));
        lemma_positions_missing(wanted.drop_last(), columns, n);
    } else {
        assert(wanted.take(n) =~= wanted);
    }
}

fn find_positions(wanted: &Vec<String>, columns: &Vec<String>) -> (r: Result<Vec<usize>, String>)
    ensures
        match (r, column_positions(texts(wanted@), texts(columns@))) {
            (Ok(a), Ok(b)) => crate::catalog::as_ints(a@) == b && a@.len() == wanted@.len(),
            (Err(a), Err(b)) => a@ == b,
            _ => false,
        },
        r is Ok ==> forall|i: int|
            0 <= i < r->Ok_0@.len() ==> (#[trigger] r->Ok_0@[i]) < columns@.len(),
{
    let ghost all = texts(wanted@);
    let mut out: Vec<usize> = Vec::new();
    let mut i: usize = 0;
    assert(all.take(0) =~= Seq::<Seq<char>>::empty());
    assert(crate::catalog::as_ints(out@) =~= Seq::<int>::empty());
    while i < wanted.len()
        invariant
            i <= wanted@.len(),
            out@.len() == i,
            all == texts(wanted@),
            column_positions(all.take(i as int), texts(columns@)) == Ok::<Seq<int>, Seq<char>>(
                crate::catalog::as_ints(out@),
            ),
            forall|j: int| 0 <= j < out@.len() ==> (#[trigger] out@[j]) < columns@.len(),
        decreases wanted@.len() - i,
    {
        assert(all.take(i + 1).drop_last() =~= all.take(i as int));
        assert(all.take(i + 1).last() == wanted@[i as int]@);
        match position_of(columns, wanted[i].as_str()) {
            Some(p) => {
                let ghost before = out@;
                out.push(p);
                assert(crate::catalog::as_ints(out@) =~= crate::catalog::as_ints(before).push(
                    p as int,
                ));
            },
            None => {
                proof {
                    lemma_positions_missing(all, texts(columns@), i + 1);
                }
                return Err(wanted[i].clone());
            },
        }
        i = i + 1;
    }
    assert(all.take(i as int) =~= all);
    Ok(out)
}

/// The table that a foreign key references, as far as resolving it needs.
pub struct Parent<'a> {
    pub name: &'a str,
    pub columns: &'a Vec<String>,
    /// The positions of the declared primary key.
    pub primary: &'a Vec<usize>,
}

/// The message for a column that a relation does not have.
pub open spec fn no_column_of(column: Seq<char>, relation: Seq<char>) -> Seq<char> {
    "column \""@ + column + "\" of relation \""@ + relation + "\" does not exist"@
}

/// The message for a column that a relation does not have.
pub fn no_column_text(column: &str, relation: &str) -> (r: String)
    ensures
        r@ == no_column_of(column@, relation@),
{
    let mut m = concat3("column \"", column, "\" of relation \"");
    push_text(&mut m, relation);
    push_text(&mut m, "\" does not exist");
    m
}

/// The positions of the referencing and the referenced columns of a foreign
/// key. A key written without its columns references the primary key.
pub open spec fn resolved(
    child: Seq<char>,
    child_columns: Seq<Seq<char>>,
    parent: Seq<char>,
    parent_columns: Seq<Seq<char>>,
    primary: Seq<int>,
    fk: KeyView,
) -> Result<(Seq<int>, Seq<int>), Seq<char>> {
    match column_positions(fk.columns, child_columns) {
        Err(c) => Err(no_column_of(c, child)),
        Ok(at) => match if fk.referred_columns.len() == 0 {
            Ok(primary)
        } else {
            column_positions(fk.referred_columns, parent_columns)
        } {
            Err(c) => Err(no_column_of(c, parent)),
            Ok(parent_at) => if at.len() != parent_at.len() {
                Err("number of referencing and referenced columns for foreign key disagree"@)
            } else {
                Ok((at, parent_at))
            },
        },
    }
}

/// The name of the schema a table is in: `public` where the catalog has none.
pub open spec fn schema_named(found: Option<Seq<char>>) -> Seq<char> {
    match found {
        Some(name) => name,
        None => "public"@,
    }
}

/// The name of the schema a table is in, from what the catalog has for it.
pub fn schema_name_of(found: Option<String>) -> (r: String)
    ensures
        r@ == schema_named(opt_text(found)),
{
    match found {
        Some(name) => name,
        None => "public".to_owned(),
    }
}

/// `fk`, a foreign key of the table `child`, resolved against the table it
/// names; `None` for any other constraint.
pub fn resolve_reference(
    child_schema: &str,
    child: &str,
    child_columns: &Vec<String>,
    parent: &Parent,
    is_own: bool,
    fk: &TableConstraint,
) -> (r: Result<Option<Reference>, String>)
    ensures
        match key_view(*fk) {
            None => r == Ok::<Option<Reference>, String>(None),
            Some(view) => match (
                r,
                resolved(
                    child@,
                    texts(child_columns@),
                    parent.name@,
                    texts(parent.columns@),
                    crate::catalog::as_ints(parent.primary@),
                    view,
                ),
            ) {
                (Ok(Some(x)), Ok((a, b))) => {
                    &&& crate::catalog::as_ints(x.child_positions@) == a
                    &&& crate::catalog::as_ints(x.parent_positions@) == b
                    &&& x.child_schema@ == child_schema@
                    &&& x.child@ == child@
                    &&& texts(x.child_columns@) == texts(child_columns@)
                    &&& x.parent@ == parent.name@
                    &&& texts(x.parent_columns@) == texts(parent.columns@)
                    &&& x.is_own == is_own
                    &&& x.on_delete == view.on_delete
                    &&& x.on_update == view.on_update
                    &&& x.name@ == match view.name {
                        Some(n) => n,
                        None => default_key_name(child@, view.columns),
                    }
                },
                (Err(m), Err(e)) => m@ == e,
                _ => false,
            },
        },
{
    match fk {
        TableConstraint::ForeignKey {
            name,
            columns,
            foreign_table,
            referred_columns,
            on_delete,
            on_update,
        } => {
            let at = match find_positions(columns, child_columns) {
                Ok(at) => at,
                Err(c) => {
                    return Err(no_column_text(c.as_str(), child));
                },
            };
            let parent_at: Vec<usize> = if referred_columns.len() == 0 {
                parent.primary.clone()
            } else {
                match find_positions(referred_columns, parent.columns) {
                    Ok(at) => at,
                    Err(c) => {
                        return Err(no_column_text(c.as_str(), parent.name));
                    },
                }
            };
            assert(crate::catalog::as_ints(parent_at@) =~= if referred_columns@.len() == 0 {
                crate::catalog::as_ints(parent.primary@)
            } else {
                crate::catalog::as_ints(parent_at@)
            });
            assert(crate::catalog::as_ints(at@).len() == at@.len());
            assert(crate::catalog::as_ints(parent_at@).len() == parent_at@.len());
            if at.len() != parent_at.len() {
                return Err(
                    "number of referencing and referenced columns for foreign key disagree".to_owned(),
                );
            }
            Ok(
                Some(
                    Reference {
                        name: match name {
                            Some(n) => n.clone(),
                            None => foreign_key_name(child, columns),
                        },
                        child_schema: child_schema.to_owned(),
                        child: child.to_owned(),
                        child_columns: clone_texts(child_columns),
                        child_positions: at,
                        parent: parent.name.to_owned(),
                        parent_columns: clone_texts(parent.columns),
                        parent_positions: parent_at,
                        is_own,
                        on_delete: *on_delete,
                        on_update: *on_update,
                    },
                ),
            )
        },
        _ => Ok(None),
    }
}

/// Whether a foreign key names a table, in whatever schema.
pub open spec fn names_table(foreign_table: Seq<char>, table: Seq<char>) -> bool {
    match object_path(foreign_table) {
        Some((_, _, t)) => t == table,
        None => false,
    }
}

/// Whether a foreign key names a table, in whatever schema.
pub fn does_name_table(foreign_table: &str, table: &str) -> (r: bool)
    ensures
        r == names_table(foreign_table@, table@),
{
    match parse_object_name(foreign_table) {
        Ok((_, _, t)) => same_text(t.as_str(), table),
        Err(_) => false,
    }
}

/// The order in which tables are asked for their foreign keys: by when they
/// were created, and then by name.
pub open spec fn creation_keys(tables: Seq<(i64, String)>) -> Seq<Seq<Val>> {
    Seq::new(tables.len(), |i: int| seq![Val::Int(tables[i].0), Val::Text(tables[i].1@)])
}

/// The positions of tables in the order in which they were created.
pub fn creation_order(tables: &Vec<(i64, String)>, facts: &Facts) -> (r: Result<Vec<usize>, Halt>)
    ensures
        positions_outcome(r) == sorted_rows(
            creation_keys(tables@),
            seq![KeyOrder::Plain, KeyOrder::Plain],
            tables@.len(),
            facts@,
        ),
{
    let mut keys: Vec<Vec<Value>> = Vec::new();
    let mut i: usize = 0;
    while i < tables.len()
        invariant
            i <= tables@.len(),
            keys@.len() == i,
            forall|j: int|
                0 <= j < i ==> vals((#[trigger] keys@[j])@) == seq![
                    Val::Int(tables@[j].0),
                    Val::Text(tables@[j].1@),
                ],
        decreases tables@.len() - i,
    {
        let key: Vec<Value> = vec![Value::Int(tables[i].0), Value::Text(tables[i].1.clone())];
        assert(vals(key@) =~= seq![
            Val::Int(tables@[i as int].0),
            Val::Text(tables@[i as int].1@),
        ]);
        keys.push(key);
        i = i + 1;
    }
    assert(rows_view(keys@) =~= creation_keys(tables@));
    let orders: Vec<KeyOrder> = vec![KeyOrder::Plain, KeyOrder::Plain];
    assert(orders@ =~= seq![KeyOrder::Plain, KeyOrder::Plain]);
    sort_by_keys(&keys, &orders, facts)
}

// ---------------------------------------------------------------------------
// Key values
// ---------------------------------------------------------------------------

/// The values of a key in a row; `None` when a part of it is NULL, so that it
/// references nothing.
pub open spec fn key_values(row: Seq<Val>, at: Seq<usize>) -> Option<Seq<Val>> {
    if exists|i: int| 0 <= i < at.len() && #[trigger] cell(row, at[i] as int) == Val::Null {
        None
    } else {
        Some(cells(row, at))
    }
}

/// What optional values stand for.
pub open spec fn opt_vals(v: Option<Vec<Value>>) -> Option<Seq<Val>> {
    match v {
        Some(x) => Some(vals(x@)),
        None => None,
    }
}

/// The values of a key in a row.
pub fn key_tuple(row: &Vec<Value>, at: &Vec<usize>) -> (r: Option<Vec<Value>>)
    ensures
        opt_vals(r) == key_values(vals(row@), at@),
{
    let mut i: usize = 0;
    while i < at.len()
        invariant
            i <= at@.len(),
            forall|j: int| 0 <= j < i ==> #[trigger] cell(vals(row@), at@[j] as int) != Val::Null,
        decreases at@.len() - i,
    {
        let v = cell_at(row, at[i]);
        if v.is_null() {
            assert(cell(vals(row@), at@[i as int] as int) == Val::Null);
            return None;
        }
        i = i + 1;
    }
    Some(pick_cells(row, at))
}

/// Whether two keys are equal from value `i` on.
pub open spec fn keys_equal_from(a: Seq<Val>, b: Seq<Val>, i: int, k: Known) -> Result<bool, Stop>
    decreases a.len() - i,
{
    if i < 0 || i >= a.len() || i >= b.len() {
        Ok(true)
    } else {
        match equal_values(a[i], b[i], k) {
            Err(s) => Err(s),
            Ok(same) => if same {
                keys_equal_from(a, b, i + 1, k)
            } else {
                Ok(false)
            },
        }
    }
}

/// Whether two keys are equal, value by value.
pub open spec fn keys_equal(a: Seq<Val>, b: Seq<Val>, k: Known) -> Result<bool, Stop> {
    if a.len() != b.len() {
        Ok(false)
    } else {
        keys_equal_from(a, b, 0, k)
    }
}

/// Whether two keys are equal, value by value.
pub fn same_key(a: &Vec<Value>, b: &Vec<Value>, facts: &Facts) -> (r: Result<bool, Halt>)
    ensures
        bool_outcome(r) == keys_equal(vals(a@), vals(b@), facts@),
{
    if a.len() != b.len() {
        return Ok(false);
    }
    let ghost x = vals(a@);
    let ghost y = vals(b@);
    let mut i: usize = 0;
    while i < a.len()
        invariant
            i <= a@.len() == b@.len(),
            x == vals(a@),
            y == vals(b@),
            keys_equal_from(x, y, 0, facts@) == keys_equal_from(x, y, i as int, facts@),
        decreases a@.len() - i,
    {
        assert(x[i as int] == a@[i as int]@);
        assert(y[i as int] == b@[i as int]@);
        match values_equal(&a[i], &b[i], facts) {
            Err(h) => {
                return Err(h);
            },
            Ok(same) => {
                if !same {
                    return Ok(false);
                }
            },
        }
        i = i + 1;
    }
    Ok(true)
}

/// The texts of values.
pub open spec fn shown_values(values: Seq<Val>, k: Known) -> Result<Seq<Seq<char>>, Stop>
    decreases values.len(),
{
    if values.len() == 0 {
        Ok(Seq::empty())
    } else {
        match shown_values(values.drop_last(), k) {
            Err(s) => Err(s),
            Ok(done) => match shown(values.last(), k) {
                Err(s) => Err(s),
                Ok(t) => Ok(done.push(t)),
            },
        }
    }
}

proof fn lemma_shown_values_fail(values: Seq<Val>, n: int, k: Known)
    requires
        0 <= n <= values.len(),
        shown_values(values.take(n), k) is Err,
    ensures
        shown_values(values, k) == shown_values(values.take(n), k),
    decreases values.len(),
{
    if n < values.len() {
        assert(values.drop_last().take(n) =~= values.take(n));
        lemma_shown_values_fail(values.drop_last(), n, k);
    } else {
        assert(values.take(n) =~= values);
    }
}

/// Values as a key's DETAIL lists them: `1, x`.
pub open spec fn listed_values(values: Seq<Val>, k: Known) -> Result<Seq<char>, Stop> {
    match shown_values(values, k) {
        Ok(t) => Ok(join(t, ", "@)),
        Err(s) => Err(s),
    }
}

fn list_values(values: &Vec<Value>, facts: &Facts) -> (r: Result<String, Halt>)
    ensures
        text_outcome(r) == listed_values(vals(values@), facts@),
{
    let ghost all = vals(values@);
    let mut out: Vec<String> = Vec::new();
    let mut i: usize = 0;
    assert(all.take(0) =~= Seq::<Val>::empty());
    assert(texts(out@) =~= Seq::<Seq<char>>::empty());
    while i < values.len()
        invariant
            i <= values@.len(),
            all == vals(values@),
            shown_values(all.take(i as int), facts@) == Ok::<Seq<Seq<char>>, Stop>(texts(out@)),
        decreases values@.len() - i,
    {
        assert(all.take(i + 1).drop_last() =~= all.take(i as int));
        assert(all.take(i + 1).last() == values@[i as int]@);
        match render(&values[i], facts) {
            Err(h) => {
                proof {
                    lemma_shown_values_fail(all, i + 1, facts@);
                }
                return Err(h);
            },
            Ok(t) => {
                let ghost before = out@;
                out.push(t);
                assert(texts(out@) =~= texts(before).push(t@));
            },
        }
        i = i + 1;
    }
    assert(all.take(i as int) =~= all);
    Ok(join_texts(&out, ", "))
}

/// The names of the columns at positions, empty for one beyond them.
pub open spec fn names_at(columns: Seq<Seq<char>>, at: Seq<usize>) -> Seq<Seq<char>> {
    Seq::new(
        at.len(),
        |i: int|
            if at[i] < columns.len() {
                columns[at[i] as int]
            } else {
                Seq::empty()
            },
    )
}

/// Column names as a key's DETAIL lists them: `a, b`.
fn listed_columns(columns: &Vec<String>, at: &Vec<usize>) -> (r: String)
    ensures
        r@ == join(names_at(texts(columns@), at@), ", "@),
{
    let mut out: Vec<String> = Vec::new();
    let mut i: usize = 0;
    while i < at.len()
        invariant
            i <= at@.len(),
            out@.len() == i,
            forall|j: int| 0 <= j < i ==> (#[trigger] out@[j])@ == names_at(texts(columns@), at@)[j],
        decreases at@.len() - i,
    {
        let name = if at[i] < columns.len() {
            columns[at[i]].clone()
        } else {
            String::new()
        };
        assert(name@ =~= names_at(texts(columns@), at@)[i as int]);
        out.push(name);
        i = i + 1;
    }
    assert(texts(out@) =~= names_at(texts(columns@), at@));
    join_texts(&out, ", ")
}

// ---------------------------------------------------------------------------
// Violations
// ---------------------------------------------------------------------------

/// A violated foreign key, as the client is told of it.
#[derive(Debug, PartialEq)]
pub struct Violation {
    pub message: String,
    pub detail: String,
    /// The schema of the referencing table.
    pub schema: String,
    /// The referencing table.
    pub table: String,
    pub constraint: String,
}

/// What a [`Violation`] stands for.
#[verifier::ext_equal]
pub struct ViolationView {
    pub message: Seq<char>,
    pub detail: Seq<char>,
    pub schema: Seq<char>,
    pub table: Seq<char>,
    pub constraint: Seq<char>,
}

impl View for Violation {
    type V = ViolationView;

    open spec fn view(&self) -> ViolationView {
        ViolationView {
            message: self.message@,
            detail: self.detail@,
            schema: self.schema@,
            table: self.table@,
            constraint: self.constraint@,
        }
    }
}

/// The violation by a row whose key is not there.
pub open spec fn not_present(x: Reference, listed: Seq<char>) -> ViolationView {
    ViolationView {
        message: "insert or update on table \""@ + x.child@
            + "\" violates foreign key constraint \""@ + x.name@ + "\""@,
        detail: "Key ("@ + join(names_at(texts(x.child_columns@), x.child_positions@), ", "@)
            + ")=("@ + listed + ") is not present in table \""@ + x.parent@ + "\"."@,
        schema: x.child_schema@,
        table: x.child@,
        constraint: x.name@,
    }
}

/// The violation by removing or changing a key that is still referenced, or
/// under RESTRICT one that is referenced.
pub open spec fn in_use(x: Reference, listed: Seq<char>, restrict: bool) -> ViolationView {
    ViolationView {
        message: "update or delete on table \""@ + x.parent@ + "\" violates "@ + if restrict {
            "RESTRICT setting of "@
        } else {
            ""@
        } + "foreign key constraint \""@ + x.name@ + "\" on table \""@ + x.child@ + "\""@,
        detail: "Key ("@ + join(names_at(texts(x.parent_columns@), x.parent_positions@), ", "@)
            + ")=("@ + listed + ") is "@ + if restrict {
            ""@
        } else {
            "still "@
        } + "referenced from table \""@ + x.child@ + "\"."@,
        schema: x.child_schema@,
        table: x.child@,
        constraint: x.name@,
    }
}

fn report_missing(x: &Reference, listed: &str) -> (r: Violation)
    ensures
        r@ == not_present(*x, listed@),
{
    let mut message = concat3(
        "insert or update on table \"",
        x.child.as_str(),
        "\" violates foreign key constraint \"",
    );
    push_text(&mut message, x.name.as_str());
    push_text(&mut message, "\"");
    let columns = listed_columns(&x.child_columns, &x.child_positions);
    let mut detail = concat3("Key (", columns.as_str(), ")=(");
    push_text(&mut detail, listed);
    push_text(&mut detail, ") is not present in table \"");
    push_text(&mut detail, x.parent.as_str());
    push_text(&mut detail, "\".");
    Violation {
        message,
        detail,
        schema: x.child_schema.clone(),
        table: x.child.clone(),
        constraint: x.name.clone(),
    }
}

fn report_in_use(x: &Reference, listed: &str, restrict: bool) -> (r: Violation)
    ensures
        r@ == in_use(*x, listed@, restrict),
{
    let mut message = concat3("update or delete on table \"", x.parent.as_str(), "\" violates ");
    push_text(
        &mut message,
        if restrict {
            "RESTRICT setting of "
        } else {
            ""
        },
    );
    push_text(&mut message, "foreign key constraint \"");
    push_text(&mut message, x.name.as_str());
    push_text(&mut message, "\" on table \"");
    push_text(&mut message, x.child.as_str());
    push_text(&mut message, "\"");
    let columns = listed_columns(&x.parent_columns, &x.parent_positions);
    let mut detail = concat3("Key (", columns.as_str(), ")=(");
    push_text(&mut detail, listed);
    push_text(&mut detail, ") is ");
    push_text(
        &mut detail,
        if restrict {
            ""
        } else {
            "still "
        },
    );
    push_text(&mut detail, "referenced from table \"");
    push_text(&mut detail, x.child.as_str());
    push_text(&mut detail, "\".");
    Violation {
        message,
        detail,
        schema: x.child_schema.clone(),
        table: x.child.clone(),
        constraint: x.name.clone(),
    }
}

/// The violation by removing or changing a key, with its values listed.
pub open spec fn refused(x: Reference, key: Seq<Val>, restrict: bool, k: Known) -> Result<
    ViolationView,
    Stop,
> {
    match listed_values(key, k) {
        Ok(t) => Ok(in_use(x, t, restrict)),
        Err(s) => Err(s),
    }
}

/// What a violation's result stands for.
pub open spec fn violation_outcome(r: Result<Violation, Halt>) -> Result<ViolationView, Stop> {
    match r {
        Ok(v) => Ok(v@),
        Err(h) => Err(h@),
    }
}

fn refuse(x: &Reference, key: &Vec<Value>, restrict: bool, facts: &Facts) -> (r: Result<
    Violation,
    Halt,
>)
    ensures
        violation_outcome(r) == refused(*x, vals(key@), restrict, facts@),
{
    match list_values(key, facts) {
        Ok(t) => Ok(report_in_use(x, t.as_str(), restrict)),
        Err(h) => Err(h),
    }
}

/// The error for a removed or changed key that a row still references.
pub fn still_referenced(x: &Reference, key: &Vec<Value>, facts: &Facts) -> (r: Result<
    Violation,
    Halt,
>)
    ensures
        violation_outcome(r) == refused(*x, vals(key@), false, facts@),
{
    refuse(x, key, false, facts)
}

/// The error for a removed or changed key that a row references, under ON
/// DELETE / ON UPDATE RESTRICT.
pub fn restricted(x: &Reference, key: &Vec<Value>, facts: &Facts) -> (r: Result<Violation, Halt>)
    ensures
        violation_outcome(r) == refused(*x, vals(key@), true, facts@),
{
    refuse(x, key, true, facts)
}

// ---------------------------------------------------------------------------
// Checking a row
// ---------------------------------------------------------------------------

/// Whether one of the rows from `i` on has a key.
pub open spec fn key_found(rows: Seq<Seq<Val>>, at: Seq<usize>, key: Seq<Val>, i: int, k: Known) -> Result<
    bool,
    Stop,
>
    decreases rows.len() - i,
{
    if i < 0 || i >= rows.len() {
        Ok(false)
    } else {
        match key_values(rows[i], at) {
            None => key_found(rows, at, key, i + 1, k),
            Some(own) => match keys_equal(own, key, k) {
                Err(s) => Err(s),
                Ok(same) => if same {
                    Ok(true)
                } else {
                    key_found(rows, at, key, i + 1, k)
                },
            },
        }
    }
}

fn find_key(rows: &Vec<Vec<Value>>, at: &Vec<usize>, key: &Vec<Value>, facts: &Facts) -> (r: Result<
    bool,
    Halt,
>)
    ensures
        bool_outcome(r) == key_found(rows_view(rows@), at@, vals(key@), 0, facts@),
{
    let ghost view = rows_view(rows@);
    let mut i: usize = 0;
    while i < rows.len()
        invariant
            i <= rows@.len(),
            view == rows_view(rows@),
            key_found(view, at@, vals(key@), 0, facts@) == key_found(
                view,
                at@,
                vals(key@),
                i as int,
                facts@,
            ),
        decreases rows@.len() - i,
    {
        assert(view[i as int] == vals(rows@[i as int]@));
        if let Some(own) = key_tuple(&rows[i], at) {
            match same_key(&own, key, facts) {
                Err(h) => {
                    return Err(h);
                },
                Ok(same) => {
                    if same {
                        return Ok(true);
                    }
                },
            }
        }
        i = i + 1;
    }
    Ok(false)
}

/// Whether a row's key is one that another row of the same key has.
pub open spec fn shares_key(row: Option<Seq<Val>>, at: Seq<usize>, key: Seq<Val>, k: Known) -> Result<
    bool,
    Stop,
> {
    match row {
        None => Ok(false),
        Some(r) => match key_values(r, at) {
            None => Ok(false),
            Some(own) => keys_equal(own, key, k),
        },
    }
}

fn row_shares_key(row: Option<&Vec<Value>>, at: &Vec<usize>, key: &Vec<Value>, facts: &Facts) -> (r:
    Result<bool, Halt>)
    ensures
        bool_outcome(r) == shares_key(
            match row {
                Some(x) => Some(vals(x@)),
                None => None,
            },
            at@,
            vals(key@),
            facts@,
        ),
{
    match row {
        None => Ok(false),
        Some(x) => match key_tuple(x, at) {
            None => Ok(false),
            Some(own) => same_key(&own, key, facts),
        },
    }
}

/// What a check of a row finds: nothing, or a violation.
pub open spec fn row_checked(
    x: Reference,
    row: Seq<Val>,
    old_row: Option<Seq<Val>>,
    parents: Seq<Seq<Val>>,
    k: Known,
) -> Result<Option<ViolationView>, Stop> {
    match key_values(row, x.child_positions@) {
        // A key with a NULL part references nothing.
        None => Ok(None),
        Some(key) => match shares_key(old_row, x.child_positions@, key, k) {
            Err(s) => Err(s),
            // A key that a change leaves as it was is not checked again.
            Ok(true) => Ok(None),
            Ok(false) => {
                let own = if x.is_own {
                    shares_key(Some(row), x.parent_positions@, key, k)
                } else {
                    Ok(false)
                };
                match own {
                    Err(s) => Err(s),
                    // A row may reference itself.
                    Ok(true) => Ok(None),
                    Ok(false) => match key_found(parents, x.parent_positions@, key, 0, k) {
                        Err(s) => Err(s),
                        Ok(true) => Ok(None),
                        Ok(false) => match listed_values(key, k) {
                            Err(s) => Err(s),
                            Ok(t) => Ok(Some(not_present(x, t))),
                        },
                    },
                }
            },
        },
    }
}

/// What a check's result stands for.
pub open spec fn check_outcome(r: Result<Option<Violation>, Halt>) -> Result<
    Option<ViolationView>,
    Stop,
> {
    match r {
        Ok(Some(v)) => Ok(Some(v@)),
        Ok(None) => Ok(None),
        Err(h) => Err(h@),
    }
}

/// Checks a new row, or one replacing `old_row`, against one of its table's
/// foreign keys, given the rows of the table it references.
pub fn check_reference(
    x: &Reference,
    row: &Vec<Value>,
    old_row: Option<&Vec<Value>>,
    parents: &Vec<Vec<Value>>,
    facts: &Facts,
) -> (r: Result<Option<Violation>, Halt>)
    ensures
        check_outcome(r) == row_checked(
            *x,
            vals(row@),
            match old_row {
                Some(o) => Some(vals(o@)),
                None => None,
            },
            rows_view(parents@),
            facts@,
        ),
{
    let key = match key_tuple(row, &x.child_positions) {
        None => {
            return Ok(None);
        },
        Some(key) => key,
    };
    match row_shares_key(old_row, &x.child_positions, &key, facts) {
        Err(h) => {
            return Err(h);
        },
        Ok(unchanged) => {
            if unchanged {
                return Ok(None);
            }
        },
    }
    if x.is_own {
        match row_shares_key(Some(row), &x.parent_positions, &key, facts) {
            Err(h) => {
                return Err(h);
            },
            Ok(own) => {
                if own {
                    return Ok(None);
                }
            },
        }
    }
    match find_key(parents, &x.parent_positions, &key, facts) {
        Err(h) => Err(h),
        Ok(true) => Ok(None),
        Ok(false) => match list_values(&key, facts) {
            Err(h) => Err(h),
            Ok(t) => Ok(Some(report_missing(x, t.as_str()))),
        },
    }
}

/// What checking a row against the first `n` foreign keys finds.
pub open spec fn references_checked(
    xs: Seq<Reference>,
    n: nat,
    row: Seq<Val>,
    old_row: Option<Seq<Val>>,
    parents: Seq<Seq<Seq<Val>>>,
    k: Known,
) -> Result<Option<ViolationView>, Stop>
    decreases n,
{
    if n == 0 {
        Ok(None)
    } else {
        match references_checked(xs, (n - 1) as nat, row, old_row, parents, k) {
            Err(s) => Err(s),
            Ok(Some(v)) => Ok(Some(v)),
            Ok(None) => row_checked(xs[n - 1], row, old_row, parents[n - 1], k),
        }
    }
}

proof fn lemma_references_decided(
    xs: Seq<Reference>,
    n: nat,
    m: nat,
    row: Seq<Val>,
    old_row: Option<Seq<Val>>,
    parents: Seq<Seq<Seq<Val>>>,
    k: Known,
)
    requires
        n <= m,
        references_checked(xs, n, row, old_row, parents, k) != Ok::<Option<ViolationView>, Stop>(
            None,
        ),
    ensures
        references_checked(xs, m, row, old_row, parents, k) == references_checked(
            xs,
            n,
            row,
            old_row,
            parents,
            k,
        ),
    decreases m,
{
    if n < m {
        lemma_references_decided(xs, n, (m - 1) as nat, row, old_row, parents, k);
    }
}

/// Rejects a new row, or one replacing `old_row`, when a foreign key of its
/// table finds no row with the key it references. `parents` holds for each
/// foreign key the rows of the table it references.
pub fn check_references_from(
    xs: &Vec<Reference>,
    row: &Vec<Value>,
    old_row: Option<&Vec<Value>>,
    parents: &Vec<Vec<Vec<Value>>>,
    facts: &Facts,
) -> (r: Result<Option<Violation>, Halt>)
    requires
        parents@.len() == xs@.len(),
    ensures
        check_outcome(r) == references_checked(
            xs@,
            xs@.len(),
            vals(row@),
            match old_row {
                Some(o) => Some(vals(o@)),
                None => None,
            },
            crate::cells::groups_view(parents@),
            facts@,
        ),
{
    let ghost old_view = match old_row {
        Some(o) => Some(vals(o@)),
        None => None,
    };
    let ghost all = crate::cells::groups_view(parents@);
    let mut i: usize = 0;
    while i < xs.len()
        invariant
            i <= xs@.len() == parents@.len(),
            all == crate::cells::groups_view(parents@),
            old_view == (match old_row {
                Some(o) => Some(vals(o@)),
                None => None,
            }),
            references_checked(xs@, i as nat, vals(row@), old_view, all, facts@) == Ok::<
                Option<ViolationView>,
                Stop,
            >(None),
        decreases xs@.len() - i,
    {
        assert(all[i as int] == rows_view(parents@[i as int]@));
        proof {
            if references_checked(xs@, (i + 1) as nat, vals(row@), old_view, all, facts@) != Ok::<
                Option<ViolationView>,
                Stop,
            >(None) {
                lemma_references_decided(
                    xs@,
                    (i + 1) as nat,
                    xs@.len(),
                    vals(row@),
                    old_view,
                    all,
                    facts@,
                );
            }
        }
        match check_reference(&xs[i], row, old_row, &parents[i], facts) {
            Err(h) => {
                return Err(h);
            },
            Ok(Some(v)) => {
                return Ok(Some(v));
            },
            Ok(None) => {},
        }
        i = i + 1;
    }
    Ok(None)
}

// ---------------------------------------------------------------------------
// Removed and changed keys
// ---------------------------------------------------------------------------

/// A key that is gone, and the key it changed to, if it changed.
pub struct Gone {
    pub old: Vec<Value>,
    pub new: Option<Vec<Value>>,
}

/// What a [`Gone`] stands for.
#[verifier::ext_equal]
pub struct GoneView {
    pub old: Seq<Val>,
    pub new: Option<Seq<Val>>,
}

impl View for Gone {
    type V = GoneView;

    open spec fn view(&self) -> GoneView {
        GoneView { old: vals(self.old@), new: opt_vals(self.new) }
    }
}

/// What each gone key stands for.
pub open spec fn gone_views(s: Seq<Gone>) -> Seq<GoneView> {
    Seq::new(s.len(), |i: int| s[i]@)
}

/// The keys of the first `n` removed rows.
pub open spec fn removed_keys(at: Seq<usize>, rows: Seq<Seq<Val>>, n: nat) -> Seq<GoneView>
    decreases n,
{
    if n == 0 {
        Seq::empty()
    } else {
        let rest = removed_keys(at, rows, (n - 1) as nat);
        match key_values(rows[n - 1], at) {
            Some(key) => rest.push(GoneView { old: key, new: None }),
            None => rest,
        }
    }
}

/// The keys that are gone from the first `n` changed rows, after those given.
pub open spec fn changed_keys(
    at: Seq<usize>,
    changed: Seq<(Seq<Val>, Seq<Val>)>,
    n: nat,
    given: Seq<GoneView>,
    k: Known,
) -> Result<Seq<GoneView>, Stop>
    decreases n,
{
    if n == 0 {
        Ok(given)
    } else {
        match changed_keys(at, changed, (n - 1) as nat, given, k) {
            Err(s) => Err(s),
            Ok(rest) => match key_values(changed[n - 1].0, at) {
                None => Ok(rest),
                Some(old) => {
                    let new = cells(changed[n - 1].1, at);
                    match keys_equal(old, new, k) {
                        Err(s) => Err(s),
                        Ok(same) => Ok(
                            if same {
                                rest
                            } else {
                                rest.push(GoneView { old, new: Some(new) })
                            },
                        ),
                    }
                },
            },
        }
    }
}

/// Pairs of rows.
pub open spec fn row_pairs(s: Seq<(Vec<Value>, Vec<Value>)>) -> Seq<(Seq<Val>, Seq<Val>)> {
    Seq::new(s.len(), |i: int| (vals(s[i].0@), vals(s[i].1@)))
}

/// What a result of gone keys stands for.
pub open spec fn gone_outcome(r: Result<Vec<Gone>, Halt>) -> Result<Seq<GoneView>, Stop> {
    match r {
        Ok(v) => Ok(gone_views(v@)),
        Err(h) => Err(h@),
    }
}

proof fn lemma_changed_fails(
    at: Seq<usize>,
    changed: Seq<(Seq<Val>, Seq<Val>)>,
    n: nat,
    m: nat,
    given: Seq<GoneView>,
    k: Known,
)
    requires
        n <= m,
        changed_keys(at, changed, n, given, k) is Err,
    ensures
        changed_keys(at, changed, m, given, k) == changed_keys(at, changed, n, given, k),
    decreases m,
{
    if n < m {
        lemma_changed_fails(at, changed, n, (m - 1) as nat, given, k);
    }
}

/// The keys that are gone when rows are removed and changed, with the key each
/// changed to.
pub fn gone_keys(
    at: &Vec<usize>,
    removed: &Vec<Vec<Value>>,
    changed: &Vec<(Vec<Value>, Vec<Value>)>,
    facts: &Facts,
) -> (r: Result<Vec<Gone>, Halt>)
    ensures
        gone_outcome(r) == changed_keys(
            at@,
            row_pairs(changed@),
            changed@.len(),
            removed_keys(at@, rows_view(removed@), removed@.len()),
            facts@,
        ),
{
    let ghost rows = rows_view(removed@);
    let ghost pairs = row_pairs(changed@);
    let mut out: Vec<Gone> = Vec::new();
    let mut i: usize = 0;
    assert(gone_views(out@) =~= Seq::<GoneView>::empty());
    while i < removed.len()
        invariant
            i <= removed@.len(),
            rows == rows_view(removed@),
            gone_views(out@) == removed_keys(at@, rows, i as nat),
        decreases removed@.len() - i,
    {
        assert(rows[i as int] == vals(removed@[i as int]@));
        if let Some(key) = key_tuple(&removed[i], at) {
            let ghost before = out@;
            let g = Gone { old: key, new: None };
            let ghost added = g@;
            out.push(g);
            assert(gone_views(out@) =~= gone_views(before).push(added));
        }
        i = i + 1;
    }
    let ghost given = gone_views(out@);
    let mut j: usize = 0;
    while j < changed.len()
        invariant
            j <= changed@.len(),
            pairs == row_pairs(changed@),
            given == removed_keys(at@, rows_view(removed@), removed@.len()),
            changed_keys(at@, pairs, j as nat, given, facts@) == Ok::<Seq<GoneView>, Stop>(
                gone_views(out@),
            ),
        decreases changed@.len() - j,
    {
        assert(pairs[j as int] == (vals(changed@[j as int].0@), vals(changed@[j as int].1@)));
        if let Some(old) = key_tuple(&changed[j].0, at) {
            let new = pick_cells(&changed[j].1, at);
            match same_key(&old, &new, facts) {
                Err(h) => {
                    proof {
                        lemma_changed_fails(
                            at@,
                            pairs,
                            (j + 1) as nat,
                            changed@.len(),
                            given,
                            facts@,
                        );
                    }
                    return Err(h);
                },
                Ok(same) => {
                    if !same {
                        let ghost before = out@;
                        let g = Gone { old, new: Some(new) };
                        let ghost added = g@;
                        out.push(g);
                        assert(gone_views(out@) =~= gone_views(before).push(added));
                    }
                },
            }
        }
        j = j + 1;
    }
    Ok(out)
}

/// The first gone key, from `i` on, that equals a key.
pub open spec fn gone_match(gone: Seq<GoneView>, key: Seq<Val>, i: int, k: Known) -> Result<
    Option<int>,
    Stop,
>
    decreases gone.len() - i,
{
    if i < 0 || i >= gone.len() {
        Ok(None)
    } else {
        match keys_equal(gone[i].old, key, k) {
            Err(s) => Err(s),
            Ok(same) => if same {
                Ok(Some(i))
            } else {
                gone_match(gone, key, i + 1, k)
            },
        }
    }
}

fn find_gone(gone: &Vec<Gone>, key: &Vec<Value>, facts: &Facts) -> (r: Result<Option<usize>, Halt>)
    ensures
        match (r, gone_match(gone_views(gone@), vals(key@), 0, facts@)) {
            (Ok(Some(a)), Ok(Some(b))) => a == b && a < gone@.len(),
            (Ok(None), Ok(None)) => true,
            (Err(h), Err(s)) => h@ == s,
            _ => false,
        },
{
    let ghost all = gone_views(gone@);
    let mut i: usize = 0;
    while i < gone.len()
        invariant
            i <= gone@.len(),
            all == gone_views(gone@),
            gone_match(all, vals(key@), 0, facts@) == gone_match(
                all,
                vals(key@),
                i as int,
                facts@,
            ),
        decreases gone@.len() - i,
    {
        assert(all[i as int] == gone@[i as int]@);
        match same_key(&gone[i].old, key, facts) {
            Err(h) => {
                return Err(h);
            },
            Ok(same) => {
                if same {
                    return Ok(Some(i));
                }
            },
        }
        i = i + 1;
    }
    Ok(None)
}

/// A row with the values of a key set, the first `n` of them.
pub open spec fn with_key(row: Seq<Val>, at: Seq<usize>, values: Seq<Val>, n: nat) -> Seq<Val>
    decreases n,
{
    if n == 0 {
        row
    } else {
        with_key(row, at, values, (n - 1) as nat).update(at[n - 1] as int, cell(values, n - 1))
    }
}

fn set_key(row: &Vec<Value>, at: &Vec<usize>, values: &Vec<Value>) -> (r: Vec<Value>)
    requires
        forall|i: int| 0 <= i < at@.len() ==> (#[trigger] at@[i]) < row@.len(),
    ensures
        vals(r@) == with_key(vals(row@), at@, vals(values@), at@.len()),
        r@.len() == row@.len(),
{
    let mut out = clone_values(row);
    let mut i: usize = 0;
    while i < at.len()
        invariant
            i <= at@.len(),
            out@.len() == row@.len(),
            forall|j: int| 0 <= j < at@.len() ==> (#[trigger] at@[j]) < row@.len(),
            vals(out@) == with_key(vals(row@), at@, vals(values@), i as nat),
        decreases at@.len() - i,
    {
        let ghost before = out@;
        let v = cell_at(values, i);
        out.set(at[i], v);
        assert(vals(out@) =~= vals(before).update(at@[i as int] as int, v@));
        i = i + 1;
    }
    out
}

/// What is to be done with a row that may reference a key that is gone.
pub enum ChildStep {
    /// The row stays as it is.
    Keep,
    /// The statement fails.
    Refuse(Violation),
    /// The row is deleted along.
    Remove,
    /// The row is changed to this one.
    Update(Vec<Value>),
}

/// What a [`ChildStep`] stands for.
#[verifier::ext_equal]
pub enum StepView {
    Keep,
    Refuse(ViolationView),
    Remove,
    Update(Seq<Val>),
}

impl View for ChildStep {
    type V = StepView;

    open spec fn view(&self) -> StepView {
        match *self {
            ChildStep::Keep => StepView::Keep,
            ChildStep::Refuse(v) => StepView::Refuse(v@),
            ChildStep::Remove => StepView::Remove,
            ChildStep::Update(row) => StepView::Update(vals(row@)),
        }
    }
}

/// What is to be done with a row of the referencing table. `defaults` holds
/// the defaults of the referencing columns.
pub open spec fn child_step(
    x: Reference,
    gone: Seq<GoneView>,
    defaults: Seq<Val>,
    row: Seq<Val>,
    k: Known,
) -> Result<StepView, Stop> {
    let at = x.child_positions@;
    match key_values(row, at) {
        None => Ok(StepView::Keep),
        Some(key) => match gone_match(gone, key, 0, k) {
            Err(s) => Err(s),
            Ok(None) => Ok(StepView::Keep),
            Ok(Some(i)) => {
                let action = if gone[i].new is Some {
                    x.on_update
                } else {
                    x.on_delete
                };
                match action {
                    ReferentialAction::NoAction => Ok(StepView::Keep),
                    ReferentialAction::Restrict => match refused(x, gone[i].old, true, k) {
                        Ok(v) => Ok(StepView::Refuse(v)),
                        Err(s) => Err(s),
                    },
                    ReferentialAction::Cascade => match gone[i].new {
                        None => Ok(StepView::Remove),
                        Some(new) => Ok(StepView::Update(with_key(row, at, new, at.len()))),
                    },
                    ReferentialAction::SetNull => Ok(
                        StepView::Update(
                            with_key(row, at, crate::cells::nulls(at.len()), at.len()),
                        ),
                    ),
                    ReferentialAction::SetDefault => Ok(
                        StepView::Update(with_key(row, at, defaults, at.len())),
                    ),
                }
            },
        },
    }
}

/// What a step's result stands for.
pub open spec fn step_outcome(r: Result<ChildStep, Halt>) -> Result<StepView, Stop> {
    match r {
        Ok(s) => Ok(s@),
        Err(h) => Err(h@),
    }
}

/// Whether a row has every column of a key.
pub open spec fn holds_key(row: Seq<Value>, at: Seq<usize>) -> bool {
    forall|i: int| 0 <= i < at.len() ==> (#[trigger] at[i]) < row.len()
}

/// Decides what is to be done with a row of the referencing table.
pub fn decide_child(
    x: &Reference,
    gone: &Vec<Gone>,
    defaults: &Vec<Value>,
    row: &Vec<Value>,
    facts: &Facts,
) -> (r: Result<ChildStep, Halt>)
    requires
        holds_key(row@, x.child_positions@),
    ensures
        step_outcome(r) == child_step(
            *x,
            gone_views(gone@),
            vals(defaults@),
            vals(row@),
            facts@,
        ),
{
    let at = &x.child_positions;
    let key = match key_tuple(row, at) {
        None => {
            return Ok(ChildStep::Keep);
        },
        Some(key) => key,
    };
    let i: usize = match find_gone(gone, &key, facts) {
        Err(h) => {
            return Err(h);
        },
        Ok(None) => {
            return Ok(ChildStep::Keep);
        },
        Ok(Some(i)) => i,
    };
    assert(gone_views(gone@)[i as int] == gone@[i as int]@);
    let updated: bool = match &gone[i].new {
        Some(_) => true,
        None => false,
    };
    let action = if updated {
        x.on_update
    } else {
        x.on_delete
    };
    match action {
        ReferentialAction::NoAction => Ok(ChildStep::Keep),
        ReferentialAction::Restrict => match restricted(x, &gone[i].old, facts) {
            Ok(v) => Ok(ChildStep::Refuse(v)),
            Err(h) => Err(h),
        },
        ReferentialAction::Cascade => match &gone[i].new {
            None => Ok(ChildStep::Remove),
            Some(new) => Ok(ChildStep::Update(set_key(row, at, new))),
        },
        ReferentialAction::SetNull => {
            let empty = crate::cells::null_row(at.len());
            Ok(ChildStep::Update(set_key(row, at, &empty)))
        },
        ReferentialAction::SetDefault => Ok(ChildStep::Update(set_key(row, at, defaults))),
    }
}

/// What steps stand for.
pub open spec fn step_views(s: Seq<ChildStep>) -> Seq<StepView> {
    Seq::new(s.len(), |i: int| s[i]@)
}

/// What is to be done with the rows of the referencing table, from `i` on after
/// the steps before: up to the first row that makes the statement fail.
pub open spec fn child_steps(
    x: Reference,
    gone: Seq<GoneView>,
    defaults: Seq<Val>,
    rows: Seq<Seq<Val>>,
    i: int,
    before: Seq<StepView>,
    k: Known,
) -> Result<Seq<StepView>, Stop>
    decreases rows.len() - i,
{
    if i < 0 || i >= rows.len() {
        Ok(before)
    } else {
        match child_step(x, gone, defaults, rows[i], k) {
            Err(s) => Err(s),
            Ok(step) => if step is Refuse {
                Ok(before.push(step))
            } else {
                child_steps(x, gone, defaults, rows, i + 1, before.push(step), k)
            },
        }
    }
}

/// What a list of steps stands for.
pub open spec fn steps_outcome(r: Result<Vec<ChildStep>, Halt>) -> Result<Seq<StepView>, Stop> {
    match r {
        Ok(s) => Ok(step_views(s@)),
        Err(h) => Err(h@),
    }
}

/// Decides what is to be done with each row of the referencing table, up to the
/// first that makes the statement fail.
pub fn decide_children(
    x: &Reference,
    gone: &Vec<Gone>,
    defaults: &Vec<Value>,
    rows: &Vec<Vec<Value>>,
    facts: &Facts,
) -> (r: Result<Vec<ChildStep>, Halt>)
    requires
        forall|i: int|
            0 <= i < rows@.len() ==> holds_key(#[trigger] rows@[i]@, x.child_positions@),
    ensures
        steps_outcome(r) == child_steps(
            *x,
            gone_views(gone@),
            vals(defaults@),
            rows_view(rows@),
            0,
            Seq::empty(),
            facts@,
        ),
{
    let ghost all = rows_view(rows@);
    let mut out: Vec<ChildStep> = Vec::new();
    let mut i: usize = 0;
    assert(step_views(out@) =~= Seq::<StepView>::empty());
    while i < rows.len()
        invariant
            i <= rows@.len(),
            all == rows_view(rows@),
            forall|j: int|
                0 <= j < rows@.len() ==> holds_key(#[trigger] rows@[j]@, x.child_positions@),
            child_steps(
                *x,
                gone_views(gone@),
                vals(defaults@),
                all,
                0,
                Seq::empty(),
                facts@,
            ) == child_steps(
                *x,
                gone_views(gone@),
                vals(defaults@),
                all,
                i as int,
                step_views(out@),
                facts@,
            ),
        decreases rows@.len() - i,
    {
        assert(holds_key(rows@[i as int]@, x.child_positions@));
        assert(all[i as int] == vals(rows@[i as int]@));
        let step = match decide_child(x, gone, defaults, &rows[i], facts) {
            Ok(step) => step,
            Err(h) => {
                return Err(h);
            },
        };
        let ghost before = out@;
        let refused: bool = match &step {
            ChildStep::Refuse(_) => true,
            _ => false,
        };
        out.push(step);
        assert(step_views(out@) =~= step_views(before).push(step@));
        if refused {
            return Ok(out);
        }
        i = i + 1;
    }
    Ok(out)
}

/// The rows of the referencing table after the first `n` of them have met
/// their steps.
pub open spec fn swept(rows: Seq<Seq<Val>>, steps: Seq<StepView>, n: nat) -> Seq<Seq<Val>>
    decreases n,
{
    if n == 0 {
        Seq::empty()
    } else {
        let before = swept(rows, steps, (n - 1) as nat);
        match steps[n - 1] {
            StepView::Remove => before,
            StepView::Update(new) => before.push(new),
            _ => before.push(rows[n - 1]),
        }
    }
}

/// The rows among the first `n` that are deleted along.
pub open spec fn swept_away(rows: Seq<Seq<Val>>, steps: Seq<StepView>, n: nat) -> Seq<Seq<Val>>
    decreases n,
{
    if n == 0 {
        Seq::empty()
    } else {
        let before = swept_away(rows, steps, (n - 1) as nat);
        if steps[n - 1] is Remove {
            before.push(rows[n - 1])
        } else {
            before
        }
    }
}

/// The rows among the first `n` that are changed, as old and new.
pub open spec fn swept_over(rows: Seq<Seq<Val>>, steps: Seq<StepView>, n: nat) -> Seq<
    (Seq<Val>, Seq<Val>),
>
    decreases n,
{
    if n == 0 {
        Seq::empty()
    } else {
        let before = swept_over(rows, steps, (n - 1) as nat);
        match steps[n - 1] {
            StepView::Update(new) => before.push((rows[n - 1], new)),
            _ => before,
        }
    }
}

/// The referencing table after its rows have met their steps.
pub struct Sweep {
    /// The rows it then has.
    pub kept: Vec<Vec<Value>>,
    /// The rows deleted along.
    pub removed: Vec<Vec<Value>>,
    /// The rows changed, as old and new.
    pub changed: Vec<(Vec<Value>, Vec<Value>)>,
}

/// What the steps make of the rows of the referencing table; they are then
/// applied to what references that table in turn.
pub fn sweep(rows: &Vec<Vec<Value>>, steps: &Vec<ChildStep>) -> (r: Sweep)
    requires
        steps@.len() == rows@.len(),
    ensures
        rows_view(r.kept@) == swept(rows_view(rows@), step_views(steps@), rows@.len()),
        rows_view(r.removed@) == swept_away(rows_view(rows@), step_views(steps@), rows@.len()),
        row_pairs(r.changed@) == swept_over(rows_view(rows@), step_views(steps@), rows@.len()),
{
    let ghost all = rows_view(rows@);
    let ghost done = step_views(steps@);
    let mut kept: Vec<Vec<Value>> = Vec::new();
    let mut removed: Vec<Vec<Value>> = Vec::new();
    let mut changed: Vec<(Vec<Value>, Vec<Value>)> = Vec::new();
    assert(rows_view(kept@) =~= Seq::<Seq<Val>>::empty());
    assert(rows_view(removed@) =~= Seq::<Seq<Val>>::empty());
    assert(row_pairs(changed@) =~= Seq::<(Seq<Val>, Seq<Val>)>::empty());
    let mut i: usize = 0;
    while i < rows.len()
        invariant
            i <= rows@.len() == steps@.len(),
            all == rows_view(rows@),
            done == step_views(steps@),
            rows_view(kept@) == swept(all, done, i as nat),
            rows_view(removed@) == swept_away(all, done, i as nat),
            row_pairs(changed@) == swept_over(all, done, i as nat),
        decreases rows@.len() - i,
    {
        assert(all[i as int] == vals(rows@[i as int]@));
        assert(done[i as int] == steps@[i as int]@);
        let ghost kept_before = kept@;
        let ghost removed_before = removed@;
        let ghost changed_before = changed@;
        match &steps[i] {
            ChildStep::Remove => {
                removed.push(clone_values(&rows[i]));
                assert(rows_view(removed@) =~= rows_view(removed_before).push(all[i as int]));
            },
            ChildStep::Update(new) => {
                kept.push(clone_values(new));
                assert(rows_view(kept@) =~= rows_view(kept_before).push(vals(new@)));
                changed.push((clone_values(&rows[i]), clone_values(new)));
                assert(row_pairs(changed@) =~= row_pairs(changed_before).push(
                    (all[i as int], vals(new@)),
                ));
            },
            _ => {
                kept.push(clone_values(&rows[i]));
                assert(rows_view(kept@) =~= rows_view(kept_before).push(all[i as int]));
            },
        }
        i = i + 1;
    }
    Sweep { kept, removed, changed }
}

/// Whether a foreign key is checked at the end of the statement.
pub open spec fn is_deferred(x: Reference) -> bool {
    x.on_delete == ReferentialAction::NoAction || x.on_update == ReferentialAction::NoAction
}

/// Whether a foreign key is checked at the end of the statement: NO ACTION
/// lets a statement put things right before it ends.
pub fn checked_at_end(x: &Reference) -> (r: bool)
    ensures
        r == is_deferred(*x),
{
    x.on_delete == ReferentialAction::NoAction || x.on_update == ReferentialAction::NoAction
}

/// The texts of the keys of the first `n` rows.
pub open spec fn key_strings(rows: Seq<Seq<Val>>, at: Seq<usize>, n: nat, k: Known) -> Result<
    Seq<Seq<char>>,
    Stop,
>
    decreases n,
{
    if n == 0 {
        Ok(Seq::empty())
    } else {
        match key_strings(rows, at, (n - 1) as nat, k) {
            Err(s) => Err(s),
            Ok(rest) => match key_values(rows[n - 1], at) {
                None => Ok(rest),
                Some(key) => match key_of(key, k) {
                    Err(s) => Err(s),
                    Ok(t) => Ok(rest.push(t)),
                },
            },
        }
    }
}

proof fn lemma_key_strings_fail(rows: Seq<Seq<Val>>, at: Seq<usize>, n: nat, m: nat, k: Known)
    requires
        n <= m,
        key_strings(rows, at, n, k) is Err,
    ensures
        key_strings(rows, at, m, k) == key_strings(rows, at, n, k),
    decreases m,
{
    if n < m {
        lemma_key_strings_fail(rows, at, n, (m - 1) as nat, k);
    }
}

fn strings_of_keys(rows: &Vec<Vec<Value>>, at: &Vec<usize>, facts: &Facts) -> (r: Result<
    Vec<String>,
    Halt,
>)
    ensures
        texts_outcome(r) == key_strings(rows_view(rows@), at@, rows@.len(), facts@),
{
    let ghost view = rows_view(rows@);
    let mut out: Vec<String> = Vec::new();
    let mut i: usize = 0;
    assert(texts(out@) =~= Seq::<Seq<char>>::empty());
    while i < rows.len()
        invariant
            i <= rows@.len(),
            view == rows_view(rows@),
            key_strings(view, at@, i as nat, facts@) == Ok::<Seq<Seq<char>>, Stop>(texts(out@)),
        decreases rows@.len() - i,
    {
        assert(view[i as int] == vals(rows@[i as int]@));
        if let Some(key) = key_tuple(&rows[i], at) {
            match values_key(&key, facts) {
                Err(h) => {
                    proof {
                        lemma_key_strings_fail(view, at@, (i + 1) as nat, rows@.len(), facts@);
                    }
                    return Err(h);
                },
                Ok(t) => {
                    let ghost before = out@;
                    out.push(t);
                    assert(texts(out@) =~= texts(before).push(t@));
                },
            }
        }
        i = i + 1;
    }
    Ok(out)
}

/// The first of the rows from `i` on that references a key which is not there.
pub open spec fn first_dangling(
    x: Reference,
    keys: Seq<Seq<char>>,
    rows: Seq<Seq<Val>>,
    i: int,
    k: Known,
) -> Result<Option<ViolationView>, Stop>
    decreases rows.len() - i,
{
    if i < 0 || i >= rows.len() {
        Ok(None)
    } else {
        match key_values(rows[i], x.child_positions@) {
            None => first_dangling(x, keys, rows, i + 1, k),
            Some(key) => match key_of(key, k) {
                Err(s) => Err(s),
                Ok(t) => if keys.contains(t) {
                    first_dangling(x, keys, rows, i + 1, k)
                } else {
                    match refused(x, key, false, k) {
                        Ok(v) => Ok(Some(v)),
                        Err(s) => Err(s),
                    }
                },
            },
        }
    }
}

/// At the end of the statement no row may reference a key that is gone.
pub open spec fn end_checked(
    x: Reference,
    parents: Seq<Seq<Val>>,
    children: Seq<Seq<Val>>,
    k: Known,
) -> Result<Option<ViolationView>, Stop> {
    match key_strings(parents, x.parent_positions@, parents.len(), k) {
        Err(s) => Err(s),
        Ok(keys) => first_dangling(x, keys, children, 0, k),
    }
}

/// NO ACTION: at the end of the statement no row may reference a key that is
/// gone.
pub fn check_at_end(
    x: &Reference,
    parents: &Vec<Vec<Value>>,
    children: &Vec<Vec<Value>>,
    facts: &Facts,
) -> (r: Result<Option<Violation>, Halt>)
    ensures
        check_outcome(r) == end_checked(*x, rows_view(parents@), rows_view(children@), facts@),
{
    let keys = match strings_of_keys(parents, &x.parent_positions, facts) {
        Ok(keys) => keys,
        Err(h) => {
            return Err(h);
        },
    };
    assert(rows_view(parents@).len() == parents@.len());
    let ghost known = texts(keys@);
    let ghost rows = rows_view(children@);
    let mut i: usize = 0;
    while i < children.len()
        invariant
            i <= children@.len(),
            known == texts(keys@),
            rows == rows_view(children@),
            end_checked(*x, rows_view(parents@), rows, facts@) == first_dangling(
                *x,
                known,
                rows,
                i as int,
                facts@,
            ),
        decreases children@.len() - i,
    {
        assert(rows[i as int] == vals(children@[i as int]@));
        if let Some(key) = key_tuple(&children[i], &x.child_positions) {
            match values_key(&key, facts) {
                Err(h) => {
                    return Err(h);
                },
                Ok(t) => {
                    if !text_in(&keys, t.as_str()) {
                        return match still_referenced(x, &key, facts) {
                            Ok(v) => Ok(Some(v)),
                            Err(h) => Err(h),
                        };
                    }
                },
            }
        }
        i = i + 1;
    }
    Ok(None)
}

// ---------------------------------------------------------------------------
// Laws
// ---------------------------------------------------------------------------

/// A key with a NULL part references nothing: no foreign key refuses its row,
/// and no removed key touches it.
pub proof fn law_null_keys_reference_nothing(
    x: Reference,
    row: Seq<Val>,
    old_row: Option<Seq<Val>>,
    parents: Seq<Seq<Val>>,
    gone: Seq<GoneView>,
    defaults: Seq<Val>,
    i: int,
    k: Known,
)
    requires
        0 <= i < x.child_positions@.len(),
        cell(row, x.child_positions@[i] as int) == Val::Null,
    ensures
        row_checked(x, row, old_row, parents, k) == Ok::<Option<ViolationView>, Stop>(None),
        child_step(x, gone, defaults, row, k) == Ok::<StepView, Stop>(StepView::Keep),
{
    assert(key_values(row, x.child_positions@) is None);
}

/// Setting a key leaves every other column as it was.
pub proof fn law_setting_a_key_keeps_the_rest(
    row: Seq<Val>,
    at: Seq<usize>,
    values: Seq<Val>,
    n: nat,
    c: int,
)
    requires
        n <= at.len(),
        0 <= c < row.len(),
        forall|i: int| 0 <= i < at.len() ==> (#[trigger] at[i]) < row.len() && at[i] != c,
    ensures
        with_key(row, at, values, n).len() == row.len(),
        with_key(row, at, values, n)[c] == row[c],
    decreases n,
{
    if n > 0 {
        law_setting_a_key_keeps_the_rest(row, at, values, (n - 1) as nat, c);
        assert(at[n - 1] < row.len());
    }
}

proof fn lemma_no_gone_match(gone: Seq<GoneView>, key: Seq<Val>, from: int, i: int, k: Known)
    requires
        0 <= from <= i < gone.len(),
        gone_match(gone, key, from, k) == Ok::<Option<int>, Stop>(None),
    ensures
        keys_equal(gone[i].old, key, k) == Ok::<bool, Stop>(false),
    decreases i - from,
{
    if from < i {
        lemma_no_gone_match(gone, key, from + 1, i, k);
    }
}

/// A foreign key that acts at once leaves a row as it is only if the row's key
/// is none of those that are gone.
pub proof fn law_a_kept_row_references_no_gone_key(
    x: Reference,
    gone: Seq<GoneView>,
    defaults: Seq<Val>,
    row: Seq<Val>,
    i: int,
    k: Known,
)
    requires
        !(x.on_delete is NoAction),
        !(x.on_update is NoAction),
        0 <= i < gone.len(),
        key_values(row, x.child_positions@) is Some,
        child_step(x, gone, defaults, row, k) == Ok::<StepView, Stop>(StepView::Keep),
    ensures
        keys_equal(gone[i].old, key_values(row, x.child_positions@)->Some_0, k) == Ok::<bool, Stop>(
            false,
        ),
{
    lemma_no_gone_match(gone, key_values(row, x.child_positions@)->Some_0, 0, i, k);
}

proof fn lemma_key_is_set(row: Seq<Val>, at: Seq<usize>, values: Seq<Val>, n: nat, i: int)
    requires
        0 <= i < n <= at.len(),
        at.no_duplicates(),
        forall|j: int| 0 <= j < at.len() ==> (#[trigger] at[j]) < row.len(),
    ensures
        with_key(row, at, values, n).len() == row.len(),
        with_key(row, at, values, n)[at[i] as int] == cell(values, i),
    decreases n,
{
    if i < n - 1 {
        lemma_key_is_set(row, at, values, (n - 1) as nat, i);
    } else {
        lemma_key_length(row, at, values, (n - 1) as nat);
    }
    assert(at[n - 1] < row.len());
}

proof fn lemma_key_length(row: Seq<Val>, at: Seq<usize>, values: Seq<Val>, n: nat)
    requires
        n <= at.len(),
        forall|j: int| 0 <= j < at.len() ==> (#[trigger] at[j]) < row.len(),
    ensures
        with_key(row, at, values, n).len() == row.len(),
    decreases n,
{
    if n > 0 {
        assert(at[n - 1] < row.len());
        lemma_key_length(row, at, values, (n - 1) as nat);
    }
}

/// ON .. SET NULL leaves a row that references nothing.
pub proof fn law_a_nulled_row_references_nothing(
    x: Reference,
    gone: Seq<GoneView>,
    defaults: Seq<Val>,
    row: Seq<Val>,
    new: Seq<Val>,
    k: Known,
)
    requires
        x.on_delete is SetNull,
        x.on_update is SetNull,
        x.child_positions@.len() > 0,
        x.child_positions@.no_duplicates(),
        forall|i: int|
            0 <= i < x.child_positions@.len() ==> (#[trigger] x.child_positions@[i]) < row.len(),
        child_step(x, gone, defaults, row, k) == Ok::<StepView, Stop>(StepView::Update(new)),
    ensures
        key_values(new, x.child_positions@) is None,
{
    let at = x.child_positions@;
    lemma_key_is_set(row, at, crate::cells::nulls(at.len()), at.len(), 0);
    assert(cell(new, at[0] as int) == Val::Null);
}

/// ON UPDATE CASCADE gives a row the key that the referenced one changed to.
pub proof fn law_a_cascaded_row_has_the_new_key(
    x: Reference,
    gone: Seq<GoneView>,
    defaults: Seq<Val>,
    row: Seq<Val>,
    new: Seq<Val>,
    k: Known,
)
    requires
        x.on_delete is Cascade,
        x.on_update is Cascade,
        x.child_positions@.no_duplicates(),
        forall|i: int|
            0 <= i < x.child_positions@.len() ==> (#[trigger] x.child_positions@[i]) < row.len(),
        forall|i: int|
            0 <= i < gone.len() ==> ((#[trigger] gone[i]).new matches Some(v) ==> v.len()
                == x.child_positions@.len()),
        child_step(x, gone, defaults, row, k) == Ok::<StepView, Stop>(StepView::Update(new)),
    ensures
        exists|i: int|
            0 <= i < gone.len() && (#[trigger] gone[i]).new == Some(
                cells(new, x.child_positions@),
            ),
{
    let at = x.child_positions@;
    let key = key_values(row, at)->Some_0;
    lemma_gone_match_in_range(gone, key, 0, k);
    let i = gone_match(gone, key, 0, k)->Ok_0->Some_0;
    let values = gone[i].new->Some_0;
    assert forall|j: int| 0 <= j < at.len() implies cell(new, at[j] as int) == values[j] by {
        lemma_key_is_set(row, at, values, at.len(), j);
    }
    assert(cells(new, at) =~= values);
}

proof fn lemma_gone_match_in_range(gone: Seq<GoneView>, key: Seq<Val>, from: int, k: Known)
    ensures
        gone_match(gone, key, from, k) matches Ok(Some(i)) ==> 0 <= i < gone.len(),
    decreases gone.len() - from,
{
    if 0 <= from < gone.len() {
        lemma_gone_match_in_range(gone, key, from + 1, k);
    }
}

/// A statement that no row refuses has a step for every row.
pub proof fn law_every_row_has_its_step(
    x: Reference,
    gone: Seq<GoneView>,
    defaults: Seq<Val>,
    rows: Seq<Seq<Val>>,
    i: int,
    before: Seq<StepView>,
    k: Known,
)
    requires
        0 <= i <= rows.len(),
        before.len() == i,
    ensures
        child_steps(x, gone, defaults, rows, i, before, k) matches Ok(steps) ==> {
            ||| steps.len() == rows.len()
            ||| i < steps.len() <= rows.len() && steps.last() is Refuse
        },
    decreases rows.len() - i,
{
    if i < rows.len() {
        match child_step(x, gone, defaults, rows[i], k) {
            Err(_) => {},
            Ok(step) => {
                if !(step is Refuse) {
                    law_every_row_has_its_step(
                        x,
                        gone,
                        defaults,
                        rows,
                        i + 1,
                        before.push(step),
                        k,
                    );
                }
            },
        }
    }
}

proof fn lemma_step_of_row(
    x: Reference,
    gone: Seq<GoneView>,
    defaults: Seq<Val>,
    rows: Seq<Seq<Val>>,
    i: int,
    before: Seq<StepView>,
    k: Known,
    j: int,
)
    requires
        0 <= i <= rows.len(),
        before.len() == i,
        forall|n: int|
            0 <= n < i ==> child_step(x, gone, defaults, rows[n], k) == Ok::<StepView, Stop>(
                #[trigger] before[n],
            ),
        child_steps(x, gone, defaults, rows, i, before, k) is Ok,
        0 <= j < child_steps(x, gone, defaults, rows, i, before, k)->Ok_0.len(),
        child_steps(x, gone, defaults, rows, i, before, k)->Ok_0.len() <= rows.len(),
    ensures
        child_step(x, gone, defaults, rows[j], k) == Ok::<StepView, Stop>(
            child_steps(x, gone, defaults, rows, i, before, k)->Ok_0[j],
        ),
    decreases rows.len() - i,
{
    if i < rows.len() {
        let step = child_step(x, gone, defaults, rows[i], k)->Ok_0;
        let now = before.push(step);
        assert forall|n: int| 0 <= n < i + 1 implies child_step(x, gone, defaults, rows[n], k)
            == Ok::<StepView, Stop>(#[trigger] now[n]) by {
            if n < i {
                assert(now[n] == before[n]);
            }
        }
        if !(step is Refuse) {
            lemma_step_of_row(x, gone, defaults, rows, i + 1, now, k, j);
        } else {
            assert(child_steps(x, gone, defaults, rows, i, before, k)->Ok_0 == now);
            assert(now[j] == now[j]);
        }
    } else {
        assert(before[j] == before[j]);
    }
}

/// Whether a row references no key that is gone: it references nothing, its
/// key is none of those that are gone, or it is the key that one of them
/// changed to.
pub open spec fn references_no_gone_key(
    x: Reference,
    gone: Seq<GoneView>,
    row: Seq<Val>,
    k: Known,
) -> bool {
    match key_values(row, x.child_positions@) {
        None => true,
        Some(key) => {
            ||| forall|g: int|
                0 <= g < gone.len() ==> keys_equal((#[trigger] gone[g]).old, key, k) == Ok::<
                    bool,
                    Stop,
                >(false)
            ||| exists|g: int| 0 <= g < gone.len() && (#[trigger] gone[g]).new == Some(key)
        },
    }
}

proof fn lemma_step_leaves_no_gone_key(
    x: Reference,
    gone: Seq<GoneView>,
    defaults: Seq<Val>,
    row: Seq<Val>,
    k: Known,
)
    requires
        !is_deferred(x),
        !(x.on_delete is SetDefault),
        !(x.on_update is SetDefault),
        x.child_positions@.len() > 0,
        x.child_positions@.no_duplicates(),
        forall|i: int|
            0 <= i < x.child_positions@.len() ==> (#[trigger] x.child_positions@[i]) < row.len(),
        forall|g: int|
            0 <= g < gone.len() ==> ((#[trigger] gone[g]).new matches Some(v) ==> v.len()
                == x.child_positions@.len()),
    ensures
        match child_step(x, gone, defaults, row, k) {
            Ok(StepView::Keep) => references_no_gone_key(x, gone, row, k),
            Ok(StepView::Update(new)) => references_no_gone_key(x, gone, new, k),
            _ => true,
        },
{
    let at = x.child_positions@;
    if let Some(key) = key_values(row, at) {
        lemma_gone_match_in_range(gone, key, 0, k);
        match gone_match(gone, key, 0, k) {
            Ok(None) => {
                assert forall|g: int| 0 <= g < gone.len() implies keys_equal(
                    (#[trigger] gone[g]).old,
                    key,
                    k,
                ) == Ok::<bool, Stop>(false) by {
                    lemma_no_gone_match(gone, key, 0, g, k);
                }
            },
            Ok(Some(i)) => {
                match child_step(x, gone, defaults, row, k) {
                    Ok(StepView::Update(new)) => {
                        let action = if gone[i].new is Some {
                            x.on_update
                        } else {
                            x.on_delete
                        };
                        if action is SetNull {
                            lemma_key_is_set(row, at, crate::cells::nulls(at.len()), at.len(), 0);
                            assert(cell(new, at[0] as int) == Val::Null);
                            assert(key_values(new, at) is None);
                        } else {
                            let values = gone[i].new->Some_0;
                            assert forall|j: int| 0 <= j < at.len() implies cell(
                                new,
                                at[j] as int,
                            ) == values[j] by {
                                lemma_key_is_set(row, at, values, at.len(), j);
                            }
                            assert(cells(new, at) =~= values);
                        }
                    },
                    _ => {},
                }
            },
            Err(_) => {},
        }
    }
}

proof fn lemma_swept_rows(
    x: Reference,
    gone: Seq<GoneView>,
    defaults: Seq<Val>,
    rows: Seq<Seq<Val>>,
    steps: Seq<StepView>,
    n: nat,
    j: int,
    k: Known,
)
    requires
        !is_deferred(x),
        !(x.on_delete is SetDefault),
        !(x.on_update is SetDefault),
        x.child_positions@.len() > 0,
        x.child_positions@.no_duplicates(),
        n <= rows.len() == steps.len(),
        forall|i: int, c: int|
            0 <= i < rows.len() && 0 <= c < x.child_positions@.len()
                ==> (#[trigger] x.child_positions@[c]) < (#[trigger] rows[i]).len(),
        forall|g: int|
            0 <= g < gone.len() ==> ((#[trigger] gone[g]).new matches Some(v) ==> v.len()
                == x.child_positions@.len()),
        forall|i: int|
            0 <= i < steps.len() ==> !((#[trigger] steps[i]) is Refuse) && child_step(
                x,
                gone,
                defaults,
                rows[i],
                k,
            ) == Ok::<StepView, Stop>(steps[i]),
        0 <= j < swept(rows, steps, n).len(),
    ensures
        references_no_gone_key(x, gone, swept(rows, steps, n)[j], k),
    decreases n,
{
    let before = swept(rows, steps, (n - 1) as nat);
    if j < before.len() {
        lemma_swept_rows(x, gone, defaults, rows, steps, (n - 1) as nat, j, k);
        assert(swept(rows, steps, n)[j] == before[j]);
    } else {
        let step = steps[n - 1];
        assert(child_step(x, gone, defaults, rows[n - 1], k) == Ok::<StepView, Stop>(step));
        assert forall|c: int| 0 <= c < x.child_positions@.len() implies (
        #[trigger] x.child_positions@[c]) < rows[n - 1].len() by {
            assert(x.child_positions@[c] < rows[n - 1].len());
        }
        lemma_step_leaves_no_gone_key(x, gone, defaults, rows[n - 1], k);
    }
}

/// After a statement that was not refused, no row references a key that is
/// gone, where a foreign key acts at once and sets no defaults.
pub proof fn law_no_row_is_left_behind(
    x: Reference,
    gone: Seq<GoneView>,
    defaults: Seq<Val>,
    rows: Seq<Seq<Val>>,
    steps: Seq<StepView>,
    j: int,
    k: Known,
)
    requires
        !is_deferred(x),
        !(x.on_delete is SetDefault),
        !(x.on_update is SetDefault),
        x.child_positions@.len() > 0,
        x.child_positions@.no_duplicates(),
        forall|i: int, c: int|
            0 <= i < rows.len() && 0 <= c < x.child_positions@.len()
                ==> (#[trigger] x.child_positions@[c]) < (#[trigger] rows[i]).len(),
        forall|g: int|
            0 <= g < gone.len() ==> ((#[trigger] gone[g]).new matches Some(v) ==> v.len()
                == x.child_positions@.len()),
        child_steps(x, gone, defaults, rows, 0, Seq::empty(), k) == Ok::<Seq<StepView>, Stop>(
            steps,
        ),
        forall|i: int| 0 <= i < steps.len() ==> !((#[trigger] steps[i]) is Refuse),
        0 <= j < swept(rows, steps, rows.len()).len(),
    ensures
        references_no_gone_key(x, gone, swept(rows, steps, rows.len())[j], k),
{
    law_every_row_has_its_step(x, gone, defaults, rows, 0, Seq::empty(), k);
    assert(steps.len() == rows.len());
    assert forall|i: int| 0 <= i < steps.len() implies !((#[trigger] steps[i]) is Refuse)
        && child_step(x, gone, defaults, rows[i], k) == Ok::<StepView, Stop>(steps[i]) by {
        lemma_step_of_row(x, gone, defaults, rows, 0, Seq::empty(), k, i);
    }
    lemma_swept_rows(x, gone, defaults, rows, steps, rows.len(), j, k);
}

/// Whether one of the rows has a key of the given text.
pub open spec fn has_key_string(rows: Seq<Seq<Val>>, at: Seq<usize>, text: Seq<char>, k: Known) -> bool {
    exists|i: int|
        0 <= i < rows.len() && match key_values(#[trigger] rows[i], at) {
            Some(key) => key_of(key, k) == Ok::<Seq<char>, Stop>(text),
            None => false,
        }
}

proof fn lemma_key_string_is_of_a_row(
    rows: Seq<Seq<Val>>,
    at: Seq<usize>,
    n: nat,
    text: Seq<char>,
    k: Known,
)
    requires
        n <= rows.len(),
        key_strings(rows, at, n, k) is Ok,
        key_strings(rows, at, n, k)->Ok_0.contains(text),
    ensures
        has_key_string(rows, at, text, k),
    decreases n,
{
    let all = key_strings(rows, at, n, k)->Ok_0;
    if n > 0 {
        let rest = key_strings(rows, at, (n - 1) as nat, k)->Ok_0;
        let i = choose|i: int| 0 <= i < all.len() && all[i] == text;
        if i < rest.len() {
            assert(rest[i] == text);
            lemma_key_string_is_of_a_row(rows, at, (n - 1) as nat, text, k);
        } else {
            assert(key_values(rows[n - 1], at) is Some);
        }
    }
}

proof fn lemma_nothing_dangles(
    x: Reference,
    keys: Seq<Seq<char>>,
    rows: Seq<Seq<Val>>,
    from: int,
    j: int,
    k: Known,
)
    requires
        0 <= from <= j < rows.len(),
        first_dangling(x, keys, rows, from, k) == Ok::<Option<ViolationView>, Stop>(None),
        key_values(rows[j], x.child_positions@) is Some,
    ensures
        key_of(key_values(rows[j], x.child_positions@)->Some_0, k) is Ok,
        keys.contains(key_of(key_values(rows[j], x.child_positions@)->Some_0, k)->Ok_0),
    decreases j - from,
{
    if from < j {
        lemma_nothing_dangles(x, keys, rows, from + 1, j, k);
    }
}

/// A statement that passes the check at its end leaves no row of the
/// referencing table whose key no row of the referenced table has.
pub proof fn law_the_end_check_leaves_no_dangling_row(
    x: Reference,
    parents: Seq<Seq<Val>>,
    children: Seq<Seq<Val>>,
    j: int,
    k: Known,
)
    requires
        end_checked(x, parents, children, k) == Ok::<Option<ViolationView>, Stop>(None),
        0 <= j < children.len(),
        key_values(children[j], x.child_positions@) is Some,
    ensures
        match key_of(key_values(children[j], x.child_positions@)->Some_0, k) {
            Ok(text) => has_key_string(parents, x.parent_positions@, text, k),
            Err(_) => false,
        },
{
    let keys = key_strings(parents, x.parent_positions@, parents.len(), k)->Ok_0;
    lemma_nothing_dangles(x, keys, children, 0, j, k);
    lemma_key_string_is_of_a_row(
        parents,
        x.parent_positions@,
        parents.len(),
        key_of(key_values(children[j], x.child_positions@)->Some_0, k)->Ok_0,
        k,
    );
}

} // verus!
