//! What planned statements keep of what they say: definitions, assignments,
//! select lists, named queries, and subqueries.
use vstd::prelude::*;
use crate::cells::cell;
use crate::expr::ExprView;
use crate::facts::{Known, Stop};
use crate::grouping_sets::{columns_among, element_columns};
use crate::literals::col_name;
use crate::lower::lowered;
use crate::plan_changes::{
    assigned, assigned_next, assigned_pairs, assignments_from, is_default, is_new, is_old,
    returned,
};
use crate::plan_statement::{planned, planned_drop};
use crate::plan_tables::{
    altered, foreign_key, plain_definition, with_constraint, with_option, with_options,
    DefinitionView, TableView,
};
use crate::plan_types::SubqueryKind;
use crate::plan_views::{ConstraintView, ItemView, PlanView};
use crate::planner::{
    planned_comma, planned_constant, planned_item, planned_items, planned_join, planned_query,
    planned_relation, recursive_form, references, Ctes, Place,
};
use crate::subqueries::yielded;
use crate::syntax::{
    AlterOperation, Assignment, ColumnOption, ColumnSpec, ConstraintSpec, ForeignKeySpec,
    FromItem, JoinClause, ObjectName, ObjectType, SelectItem, SqlExpr, Statement, TableFactor,
};
use crate::value::Val;
use crate::values_list::{has_kind, unified_type, CellKind};

verus! {

// ---------------------------------------------------------------------------
// Definitions
// ---------------------------------------------------------------------------

/// Whether one of the first `n` options is of the given kinds.
pub open spec fn has_option(
    options: Seq<(Option<String>, ColumnOption)>,
    from: nat,
    kind: spec_fn(ColumnOption) -> bool,
) -> bool {
    exists|i: int| from <= i < options.len() && kind((#[trigger] options[i]).1)
}

/// A column takes NULL unless an option says `NOT NULL` or `PRIMARY KEY`, is
/// unique exactly with `UNIQUE` or `PRIMARY KEY`, a part of the primary key
/// exactly with `PRIMARY KEY`, and has a default exactly with `DEFAULT`; its
/// name and type are those written.
pub proof fn law_columns_are_what_their_options_say(
    c: ColumnSpec,
    constraints: Seq<ConstraintView>,
    params: Seq<Val>,
    k: Known,
)
    requires
        with_options(
            c.options@,
            0,
            DefinitionView { column: plain_definition(c), constraints },
            params,
            k,
        ) is Ok,
    ensures
        ({
            let d = with_options(
                c.options@,
                0,
                DefinitionView { column: plain_definition(c), constraints },
                params,
                k,
            )->Ok_0.column;
            &&& d.name == c.name@
            &&& d.data_type == c.data_type@
            &&& !d.nullable <==> has_option(
                c.options@,
                0,
                |o: ColumnOption| o is NotNull || o is PrimaryKey,
            )
            &&& d.unique <==> has_option(
                c.options@,
                0,
                |o: ColumnOption| o is Unique || o is PrimaryKey,
            )
            &&& d.primary <==> has_option(c.options@, 0, |o: ColumnOption| o is PrimaryKey)
            &&& d.default is Some <==> has_option(c.options@, 0, |o: ColumnOption| o is Default)
        }),
{
    lemma_options(
        c.options@,
        0,
        DefinitionView { column: plain_definition(c), constraints },
        params,
        k,
    );
}

proof fn lemma_has_option(
    options: Seq<(Option<String>, ColumnOption)>,
    from: nat,
    kind: spec_fn(ColumnOption) -> bool,
)
    requires
        from < options.len(),
    ensures
        has_option(options, from, kind) <==> kind(options[from as int].1) || has_option(
            options,
            from + 1,
            kind,
        ),
{
    if has_option(options, from, kind) {
        let i = choose|i: int| from <= i < options.len() && kind((#[trigger] options[i]).1);
        if i > from {
            assert(kind(options[i].1));
        }
    }
    if has_option(options, from + 1, kind) {
        let i = choose|i: int| from + 1 <= i < options.len() && kind((#[trigger] options[i]).1);
        assert(kind(options[i].1));
    }
}

proof fn lemma_options(
    options: Seq<(Option<String>, ColumnOption)>,
    from: nat,
    d: DefinitionView,
    params: Seq<Val>,
    k: Known,
)
    requires
        from <= options.len(),
        with_options(options, from, d, params, k) is Ok,
    ensures
        ({
            let e = with_options(options, from, d, params, k)->Ok_0.column;
            &&& e.name == d.column.name
            &&& e.data_type == d.column.data_type
            &&& !e.nullable <==> !d.column.nullable || has_option(
                options,
                from,
                |o: ColumnOption| o is NotNull || o is PrimaryKey,
            )
            &&& e.unique <==> d.column.unique || has_option(
                options,
                from,
                |o: ColumnOption| o is Unique || o is PrimaryKey,
            )
            &&& e.primary <==> d.column.primary || has_option(
                options,
                from,
                |o: ColumnOption| o is PrimaryKey,
            )
            &&& e.default is Some <==> d.column.default is Some || has_option(
                options,
                from,
                |o: ColumnOption| o is Default,
            )
        }),
    decreases options.len() - from,
{
    if from < options.len() {
        let (name, option) = options[from as int];
        let next = with_option(d, crate::text::opt_text(name), option, params, k)->Ok_0;
        lemma_options(options, from + 1, next, params, k);
        lemma_has_option(options, from, |o: ColumnOption| o is NotNull || o is PrimaryKey);
        lemma_has_option(options, from, |o: ColumnOption| o is Unique || o is PrimaryKey);
        lemma_has_option(options, from, |o: ColumnOption| o is PrimaryKey);
        lemma_has_option(options, from, |o: ColumnOption| o is Default);
    }
}

/// A foreign key keeps its own columns, the table it references, and the
/// columns it references there, each in its place and in order.
pub proof fn law_foreign_keys_keep_their_columns(
    name: Option<Seq<char>>,
    columns: Seq<Seq<char>>,
    fk: ForeignKeySpec,
)
    ensures
        ({
            let f = foreign_key(name, columns, fk);
            &&& f is ForeignKey
            &&& f->ForeignKey_columns == columns
            &&& f->foreign_table == fk.foreign_table@
            &&& f->referred_columns.len() == fk.referred_columns@.len()
            &&& forall|i: int|
                0 <= i < fk.referred_columns@.len() ==> #[trigger] f->referred_columns[i]
                    == fk.referred_columns@[i]@
            &&& f->ForeignKey_name == name
        }),
{
}

/// A table constraint changes only what it speaks of: `UNIQUE` and `PRIMARY KEY`
/// add no check and no foreign key, and these two mark no column.
pub proof fn law_table_constraints_keep_the_rest(
    t: TableView,
    c: ConstraintSpec,
    params: Seq<Val>,
    k: Known,
)
    requires
        with_constraint(t, c, params, k) is Ok,
    ensures
        ({
            let u = with_constraint(t, c, params, k)->Ok_0;
            &&& c is Unique || c is PrimaryKey ==> u.constraints == t.constraints
            &&& c is Check || c is ForeignKey ==> u.columns == t.columns && u.unique == t.unique
                && u.constraints.len() == t.constraints.len() + 1 && u.constraints.drop_last()
                == t.constraints
            &&& c is Check ==> u.constraints.last() is Check
            &&& c is ForeignKey ==> u.constraints.last() is ForeignKey
            &&& c is Other ==> u == t
        }),
{
    let u = with_constraint(t, c, params, k)->Ok_0;
    if c is Check || c is ForeignKey {
        assert(u.constraints.drop_last() =~= t.constraints);
    }
}

/// `DROP` drops an object of the kind it names, under the name it gives, and
/// lets a missing one be exactly with `IF EXISTS`.
pub proof fn law_drop_names_its_object(
    object_type: ObjectType,
    text: Seq<char>,
    if_exists: bool,
    names: Seq<String>,
    cascade: bool,
)
    requires
        names.len() > 0,
    ensures
        ({
            let r = planned_drop(object_type, text, if_exists, names, cascade);
            let p = r->Ok_0;
            &&& object_type is Other <==> r is Err
            &&& object_type is Table ==> p is DropTable && p->DropTable_name == names[0]@
                && p->DropTable_if_exists == if_exists && !p->DropTable_materialized
            &&& object_type is View ==> p is DropView && p->DropView_name == names[0]@
                && p->DropView_if_exists == if_exists
            &&& object_type is Schema ==> p is DropSchema && p->DropSchema_schema_name
                == names[0]@ && p->DropSchema_if_exists == if_exists && p->cascade == cascade
            &&& object_type is Index ==> p is DropIndex && p->DropIndex_name == names[0]@
                && p->DropIndex_if_exists == if_exists
        }),
{
}

/// `ALTER TABLE` does the change it names: a renamed column gets the new name, a
/// retyped one the new type, and an added one takes NULL unless an option says
/// otherwise.
pub proof fn law_alterations_are_kept(op: AlterOperation, params: Seq<Val>, k: Known)
    requires
        altered(op, params, k) is Ok,
    ensures
        ({
            let a = altered(op, params, k)->Ok_0;
            &&& op is RenameColumn ==> a is RenameColumn && a->old_name == op->old_name@
                && a->RenameColumn_new_name == op->new_name@
            &&& op is SetDataType ==> a is AlterColumnType && a->AlterColumnType_name
                == op->column@ && a->AlterColumnType_data_type == op->data_type@
            &&& op is DropColumn ==> a is DropColumn && a->DropColumn_name == op->names@[0]@
            &&& op is RenameTable ==> a is RenameTable && a->RenameTable_new_name
                == op->RenameTable_name@
            &&& op is AddColumn ==> a is AddColumn && a->AddColumn_name == op->AddColumn_0.name@
                && a->AddColumn_data_type == op->AddColumn_0.data_type@
            &&& op is AddColumn && op->AddColumn_0.options@.len() == 0 ==> a->nullable
                && a->AddColumn_default is None
        }),
{
}

/// Statements that begin and end transactions and give and take privileges are
/// told apart.
#[verifier::rlimit(40)]
pub proof fn law_statements_are_told_apart(s: Statement, params: Seq<Val>, k: Known)
    ensures
        ({
            let r = planned(s, params, k);
            let p = r->Ok_0;
            &&& s is StartTransaction ==> r is Ok && p is Begin
            &&& s is Commit ==> r is Ok && p is Commit
            &&& s is Rollback && s->savepoint is None ==> r is Ok && p is Rollback
            &&& s is Rollback && s->savepoint is Some ==> r is Ok && p is RollbackToSavepoint
                && p->RollbackToSavepoint_name == s->savepoint->Some_0@
            &&& s is Savepoint ==> r is Ok && p is Savepoint && p->Savepoint_name
                == s->Savepoint_name@
            &&& s is ReleaseSavepoint ==> r is Ok && p is ReleaseSavepoint
                && p->ReleaseSavepoint_name == s->ReleaseSavepoint_name@
            &&& s is Grant && r is Ok ==> p is Grant
            &&& s is Revoke && r is Ok ==> p is Revoke
            &&& s is CreateIndex ==> r is Ok && p is CreateIndex && p->unique
                == s->CreateIndex_unique && p->CreateIndex_table_name == s->table_name@
        }),
{
}

// ---------------------------------------------------------------------------
// Assignments
// ---------------------------------------------------------------------------

/// `SET column = value` assigns the value to that column, and `DEFAULT` the
/// column's default; assignments keep their order.
pub proof fn law_assignments_pair_columns_with_values(
    list: Seq<Assignment>,
    from: nat,
    before: Seq<(Seq<char>, ExprView)>,
    i: int,
    params: Seq<Val>,
    k: Known,
)
    requires
        from <= list.len(),
        before.len() == from,
        assignments_from(list, from, before, params, k) is Ok,
        forall|j: int| 0 <= j < list.len() ==> (#[trigger] list[j]).target is Column,
        0 <= i < list.len(),
        i < from ==> assigned(list[i].target->Column_0, list[i].value, params, k) == Ok::<
            (Seq<char>, ExprView),
            Stop,
        >(before[i]),
    ensures
        ({
            let r = assignments_from(list, from, before, params, k)->Ok_0;
            &&& r.len() == list.len()
            &&& list[i].target->Column_0.last_part is Some
            &&& r[i].0 == list[i].target->Column_0.last_part->Some_0@
            &&& is_default(list[i].value) ==> r[i].1 == ExprView::Function(
                "__COLUMN_DEFAULT__"@,
                Seq::empty(),
            )
            &&& !is_default(list[i].value) ==> lowered(list[i].value, params, k) == Ok::<
                Option<ExprView>,
                Stop,
            >(Some(r[i].1))
        }),
    decreases list.len() - from,
{
    if from < list.len() {
        let a = list[from as int];
        assert(a.target is Column);
        let p = assigned(a.target->Column_0, a.value, params, k)->Ok_0;
        assert(assigned_next(a, before, params, k) == Ok::<Seq<(Seq<char>, ExprView)>, Stop>(
            before.push(p),
        ));
        law_assignments_pair_columns_with_values(list, from + 1, before.push(p), i, params, k);
    }
}

/// `SET (a, b, ..) = (x, y, ..)` assigns each value to the column in its place.
pub proof fn law_lists_are_assigned_place_by_place(
    names: Seq<ObjectName>,
    es: Seq<SqlExpr>,
    from: nat,
    before: Seq<(Seq<char>, ExprView)>,
    i: int,
    params: Seq<Val>,
    k: Known,
)
    requires
        names.len() == es.len(),
        from <= names.len(),
        assigned_pairs(names, es, from, before, params, k) is Ok,
        from <= i < names.len(),
    ensures
        ({
            let r = assigned_pairs(names, es, from, before, params, k)->Ok_0;
            &&& r.len() == before.len() + names.len() - from
            &&& r.take(before.len() as int) == before
            &&& assigned(names[i], es[i], params, k) == Ok::<(Seq<char>, ExprView), Stop>(
                r[before.len() + i - from],
            )
        }),
    decreases names.len() - from,
{
    let p = assigned(names[from as int], es[from as int], params, k)->Ok_0;
    let next = before.push(p);
    let r = assigned_pairs(names, es, from, before, params, k)->Ok_0;
    lemma_pairs_after(names, es, from + 1, next, params, k);
    assert(r.take(next.len() as int)[before.len() as int] == p);
    assert(r.take(before.len() as int) =~= r.take(next.len() as int).take(before.len() as int));
    assert(next.take(before.len() as int) =~= before);
    if i > from {
        law_lists_are_assigned_place_by_place(names, es, from + 1, next, i, params, k);
    }
}

proof fn lemma_pairs_after(
    names: Seq<ObjectName>,
    es: Seq<SqlExpr>,
    from: nat,
    before: Seq<(Seq<char>, ExprView)>,
    params: Seq<Val>,
    k: Known,
)
    requires
        from <= names.len(),
        assigned_pairs(names, es, from, before, params, k) is Ok,
    ensures
        ({
            let r = assigned_pairs(names, es, from, before, params, k)->Ok_0;
            r.len() == before.len() + names.len() - from && r.take(before.len() as int) == before
        }),
    decreases names.len() - from,
{
    let r = assigned_pairs(names, es, from, before, params, k)->Ok_0;
    if from < names.len() {
        let p = assigned(names[from as int], es[from as int], params, k)->Ok_0;
        let next = before.push(p);
        lemma_pairs_after(names, es, from + 1, next, params, k);
        assert(r.take(before.len() as int) =~= r.take(next.len() as int).take(
            before.len() as int,
        ));
        assert(next.take(before.len() as int) =~= before);
    } else {
        assert(r.take(before.len() as int) =~= before);
    }
}

/// In `RETURNING`, `t.c` is the plain column `c`, while `old.c` and `new.c` are
/// computed, so that the row before a change and the row after it are told
/// apart.
pub proof fn law_returning_tells_old_from_new(item: SelectItem, params: Seq<Val>, k: Known)
    requires
        item.kind is Unnamed,
        item.kind->Unnamed_0.node is Compound,
        item.kind->Unnamed_0.node->Compound_0@.len() == 2,
        returned(item, params, k) is Ok,
    ensures
        ({
            let ids = item.kind->Unnamed_0.node->Compound_0@;
            let (name, x) = returned(item, params, k)->Ok_0;
            &&& is_old(ids[0].value@) || is_new(ids[0].value@) ==> x is Some && lowered(
                item.kind->Unnamed_0,
                params,
                k,
            ) == Ok::<Option<ExprView>, Stop>(x)
            &&& !is_old(ids[0].value@) && !is_new(ids[0].value@) ==> x is None && name
                == ids[1].value@
        }),
{
}

// ---------------------------------------------------------------------------
// Select lists and named queries
// ---------------------------------------------------------------------------

/// Each item of a select list without `*` is planned in its place, under its
/// alias where it has one.
pub proof fn law_select_items_keep_their_places(
    items: Vec<SelectItem>,
    from: nat,
    before: Seq<ItemView>,
    i: int,
    depth: nat,
    params: Seq<Val>,
    k: Known,
)
    requires
        from <= items@.len(),
        before.len() == from,
        planned_items(items, from, before, depth, params, k) is Ok,
        forall|j: int|
            0 <= j < items@.len() ==> (#[trigger] items@[j]).kind is Unnamed
                || items@[j].kind is Aliased,
        from <= i < items@.len(),
    ensures
        ({
            let r = planned_items(items, from, before, depth, params, k)->Ok_0;
            &&& r.len() == items@.len()
            &&& items@[i].kind is Unnamed ==> planned_item(
                items@[i].kind->Unnamed_0,
                None,
                depth,
                params,
                k,
            ) == Ok::<ItemView, Stop>(r[i])
            &&& items@[i].kind is Aliased ==> planned_item(
                items@[i].kind->Aliased_0,
                Some(items@[i].kind->Aliased_1@),
                depth,
                params,
                k,
            ) == Ok::<ItemView, Stop>(r[i])
        }),
    decreases items@.len() - from,
{
    let item = items@[from as int];
    assert(item.kind is Unnamed || item.kind is Aliased);
    let x = if item.kind is Unnamed {
        planned_item(item.kind->Unnamed_0, None, depth, params, k)->Ok_0
    } else {
        planned_item(
            item.kind->Aliased_0,
            Some(item.kind->Aliased_1@),
            depth,
            params,
            k,
        )->Ok_0
    };
    let next = before.push(x);
    lemma_items_after(items, from + 1, next, depth, params, k);
    let r = planned_items(items, from, before, depth, params, k)->Ok_0;
    assert(r.take(next.len() as int)[from as int] == x);
    if i > from {
        law_select_items_keep_their_places(items, from + 1, next, i, depth, params, k);
    }
}

proof fn lemma_items_after(
    items: Vec<SelectItem>,
    from: nat,
    before: Seq<ItemView>,
    depth: nat,
    params: Seq<Val>,
    k: Known,
)
    requires
        from <= items@.len(),
        planned_items(items, from, before, depth, params, k) is Ok,
        forall|j: int|
            0 <= j < items@.len() ==> (#[trigger] items@[j]).kind is Unnamed
                || items@[j].kind is Aliased,
    ensures
        ({
            let r = planned_items(items, from, before, depth, params, k)->Ok_0;
            r.len() == before.len() + items@.len() - from && r.take(before.len() as int) == before
        }),
    decreases items@.len() - from,
{
    let r = planned_items(items, from, before, depth, params, k)->Ok_0;
    if from < items@.len() {
        let item = items@[from as int];
        assert(item.kind is Unnamed || item.kind is Aliased);
        let x = if item.kind is Unnamed {
            planned_item(item.kind->Unnamed_0, None, depth, params, k)->Ok_0
        } else {
            planned_item(
                item.kind->Aliased_0,
                Some(item.kind->Aliased_1@),
                depth,
                params,
                k,
            )->Ok_0
        };
        let next = before.push(x);
        lemma_items_after(items, from + 1, next, depth, params, k);
        assert(r.take(before.len() as int) =~= r.take(next.len() as int).take(
            before.len() as int,
        ));
        assert(next.take(before.len() as int) =~= before);
    } else {
        assert(r.take(before.len() as int) =~= before);
    }
}

/// A named query runs as a recursion exactly where `WITH RECURSIVE` names it and
/// it is a `UNION` whose right side reads it: its left side is then the seed and
/// its right side the step, and `ALL` is kept.
pub proof fn law_recursions_are_recognized(
    p: PlanView,
    recursive: bool,
    name: Seq<char>,
    columns: Seq<Seq<char>>,
)
    requires
        !(p is RecursiveCte),
    ensures
        ({
            let r = recursive_form(p, recursive, name, columns);
            &&& r is RecursiveCte <==> recursive && p is SetOp && p->SetOp_op is Union
                && references(*p->SetOp_right, name)
            &&& r is RecursiveCte ==> r->seed == p->SetOp_left && r->recursive_term
                == p->SetOp_right && r->RecursiveCte_all == p->SetOp_all && r->column_aliases
                == columns
            &&& !(r is RecursiveCte) ==> r == p
        }),
{
}

/// A relation after a comma is cross joined, under the name and alias it has.
pub proof fn law_commas_cross_join(
    item: FromItem,
    ctes: Ctes,
    depth: nat,
    params: Seq<Val>,
    k: Known,
)
    requires
        planned_comma(item, ctes, depth, params, k) is Ok,
    ensures
        ({
            let (_, j) = planned_comma(item, ctes, depth, params, k)->Ok_0;
            &&& j.join_type is Cross
            &&& j.condition is None && !j.natural && j.using_columns.len() == 0
            &&& j.table_fn is None && item.relation.kind is Table ==> j.table_name
                == item.relation.kind->Table_name@
        }),
{
    reveal(planned_comma);
}

/// `SELECT EXISTS (..)` without `FROM` keeps whether it is negated, and a
/// constant is its own value.
pub proof fn law_constants_without_from(e: SqlExpr, depth: nat, params: Seq<Val>, k: Known)
    requires
        planned_constant(e, depth, params, k) is Ok,
    ensures
        ({
            let (v, d) = planned_constant(e, depth, params, k)->Ok_0;
            &&& e.node is Exists ==> d is Some && d->Some_0 is Exists && d->Some_0->negated
                == e.node->Exists_negated
            &&& e.node is Value && d is None ==> crate::literals::literal(e, params, k) == Ok::<
                Option<Val>,
                Stop,
            >(Some(v))
        }),
{
}

/// A table in `FROM` is read under the name it has, with the alias it is given,
/// and a subquery there becomes a named query under its alias.
pub proof fn law_relations_keep_their_names(
    f: TableFactor,
    place: Place,
    ctes: Ctes,
    depth: nat,
    params: Seq<Val>,
    k: Known,
)
    requires
        planned_relation(f, place, ctes, depth, params, k) is Ok,
    ensures
        ({
            let (more, name, alias) = planned_relation(f, place, ctes, depth, params, k)->Ok_0;
            &&& f.kind is Table ==> more == ctes && name == f.kind->Table_name@ && (alias is Some
                <==> f.kind->Table_alias is Some) && (alias is Some ==> alias->Some_0
                == f.kind->Table_alias->Some_0.name@)
            &&& f.kind is Derived ==> more.len() == ctes.len() + 1 && more.drop_last() == ctes
                && more.last().0 == name && f.kind->Derived_alias is Some && name
                == f.kind->Derived_alias->Some_0.name@ && planned_query(
                *f.kind->Derived_subquery,
                depth,
                params,
                k,
            ) == Ok::<PlanView, Stop>(more.last().1)
        }),
{
    let (more, name, alias) = planned_relation(f, place, ctes, depth, params, k)->Ok_0;
    if f.kind is Derived {
        assert(more.drop_last() =~= ctes);
    }
}

/// A join with a table function is a left join exactly where a left join is
/// written, and otherwise an inner one.
pub proof fn law_function_joins(
    clause: JoinClause,
    ctes: Ctes,
    depth: nat,
    params: Seq<Val>,
    k: Known,
)
    requires
        planned_join(clause, ctes, depth, params, k) is Ok,
    ensures
        ({
            let (more, j) = planned_join(clause, ctes, depth, params, k)->Ok_0;
            j.table_fn is Some ==> more == ctes && (j.join_type is LeftOuter
                <==> clause.operator is Left) && (j.join_type is Inner <==> !(
            clause.operator is Left)) && j.condition is None
        }),
{
    reveal(planned_join);
}

/// The partition of a window call is by the columns it names, in order.
pub proof fn law_window_partitions_keep_their_columns(es: Seq<SqlExpr>, n: int, i: int)
    requires
        forall|j: int| 0 <= j < es.len() ==> col_name(#[trigger] es[j]) is Some,
        0 <= n <= es.len(),
    ensures
        columns_among(es, n).len() == n,
        0 <= i < n ==> col_name(es[i]) == Some(columns_among(es, n)[i]),
        n == es.len() ==> element_columns(es) == columns_among(es, n),
    decreases n,
{
    if n > 0 {
        law_window_partitions_keep_their_columns(es, n - 1, i);
        assert(col_name(es[n - 1]) is Some);
    }
}

// ---------------------------------------------------------------------------
// Subqueries and lists of values
// ---------------------------------------------------------------------------

/// `EXISTS` is true exactly where the subquery has a row, `ARRAY` lists its
/// values in order, and a scalar subquery is its one value, NULL without a row.
pub proof fn law_subqueries_yield(rows: Seq<Seq<Val>>, columns: nat, i: int)
    ensures
        yielded(SubqueryKind::Exists, columns, rows) == Ok::<Val, Seq<char>>(
            Val::Bool(rows.len() > 0),
        ),
        columns == 1 ==> ({
            let a = yielded(SubqueryKind::Array, columns, rows);
            let s = yielded(SubqueryKind::Scalar, columns, rows);
            &&& a is Ok && a->Ok_0 is Array && a->Ok_0->Array_0.len() == rows.len()
            &&& 0 <= i < rows.len() && rows[i].len() > 0 ==> a->Ok_0->Array_0[i] == rows[i][0]
            &&& rows.len() == 0 ==> s == Ok::<Val, Seq<char>>(Val::Null)
            &&& rows.len() == 1 && rows[0].len() > 0 ==> s == Ok::<Val, Seq<char>>(rows[0][0])
            &&& rows.len() > 1 ==> s is Err
        }),
        columns != 1 ==> yielded(SubqueryKind::Array, columns, rows) is Err && yielded(
            SubqueryKind::Scalar,
            columns,
            rows,
        ) is Err,
{
}

/// A column of a list of values has the widest type its numbers need: integers
/// of 32 bits stay so, one beyond them makes the column wide, and an exact or a
/// floating-point number makes it exact or floating-point.
pub proof fn law_lists_of_values_widen(rows: Seq<Seq<Val>>, column: int, i: int)
    requires
        0 <= i < rows.len(),
    ensures
        cell(rows[i], column) is Float ==> unified_type(rows, column) == "DOUBLE PRECISION"@,
        (forall|j: int| 0 <= j < rows.len() ==> !(cell(#[trigger] rows[j], column) is Float))
            && cell(rows[i], column) is Numeric ==> unified_type(rows, column) == "NUMERIC"@,
        (forall|j: int| 0 <= j < rows.len() ==> cell(#[trigger] rows[j], column) is Int) ==> ({
            let t = unified_type(rows, column);
            &&& (forall|j: int|
                0 <= j < rows.len() ==> i32::MIN <= cell(#[trigger] rows[j], column)->Int_0
                    <= i32::MAX) ==> t == "INTEGER"@
            &&& !(i32::MIN <= cell(rows[i], column)->Int_0 <= i32::MAX) ==> t == "BIGINT"@
        }),
{
    if cell(rows[i], column) is Float {
        assert(has_kind(rows, column, CellKind::Float));
    }
    if cell(rows[i], column) is Numeric {
        assert(has_kind(rows, column, CellKind::Numeric));
    }
    if cell(rows[i], column) is Int {
        assert(has_kind(rows, column, CellKind::Int));
        if !(i32::MIN <= cell(rows[i], column)->Int_0 <= i32::MAX) {
            assert(has_kind(rows, column, CellKind::WideInt));
        }
    }
}

} // verus!
