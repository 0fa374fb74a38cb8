//! Plans, expressions, and conditions as values: each part under its name, and
//! in it its own parts in order. A step that is handed out names the expression
//! or condition it is about by this form.
use vstd::prelude::*;
use std::sync::Arc;
use crate::cells::{names_val, names_value};
use crate::catalog::{ReferentialAction, TableConstraint};
use crate::plan_types::{
    AggregateOp, AlterTableOp, ColumnDef, CompareOp, ConflictTarget, DeferredItem, FilterExpr,
    Join, JoinType, LogicalPlan, MergeAction, MergeClause, MergeKind, OnConflictClause, Operand,
    PatternKind, Predicate, ProjectionItem, ReturningExpr, ScalarBinaryOp, ScalarExpr,
    ScalarUnaryOp, SelectPlan, SetOpKind, SortKey, SortTarget, SubPlan, SubqueryKind, TableFnSpec,
    WindowBound, WindowFrame, WindowFrameUnits,
};
use crate::sequences::SequenceSpec;
use crate::system_rows::add_value;
use crate::text::{decimal, size_text, texts};
use crate::value::{group_value_views, vals, Val, Value};

verus! {

broadcast use group_value_views;

/// The beginning of a part: its name.
pub open spec fn tagged(name: Seq<char>) -> Seq<Val> {
    seq![Val::Text(name)]
}

/// The beginning of a part without a name.
pub open spec fn untagged() -> Seq<Val> {
    Seq::empty()
}

/// A part that is there.
pub open spec fn given(v: Val) -> Val {
    Val::Array(seq![v])
}

/// A part that is not there.
pub open spec fn missing() -> Val {
    Val::Array(Seq::empty())
}

fn begin(name: &str) -> (r: Vec<Value>)
    ensures
        vals(r@) == tagged(name@),
{
    let mut out: Vec<Value> = Vec::new();
    out.push(Value::Text(name.to_owned()));
    assert(vals(out@) =~= tagged(name@));
    out
}

fn no_tag() -> (r: Vec<Value>)
    ensures
        vals(r@) == untagged(),
{
    let out: Vec<Value> = Vec::new();
    assert(vals(out@) =~= untagged());
    out
}

fn give(v: Value) -> (r: Value)
    ensures
        r@ == given(v@),
{
    let mut out: Vec<Value> = Vec::new();
    out.push(v);
    assert(vals(out@) =~= seq![v@]);
    Value::Array(out)
}

fn miss() -> (r: Value)
    ensures
        r@ == missing(),
{
    let out: Vec<Value> = Vec::new();
    assert(vals(out@) =~= Seq::<Val>::empty());
    Value::Array(out)
}

fn code_of_char(c: char) -> (r: Value)
    ensures
        r@ == Val::Text(seq![c]),
{
    let mut s = String::new();
    s.push(c);
    assert(s@ =~= seq![c]);
    Value::Text(s)
}

/// The form of a [`LogicalPlan`].
pub closed spec fn plan_code(x: LogicalPlan) -> Val
    decreases x,
{
    match x {
        LogicalPlan::CreateSchema { schema_name, if_not_exists } => Val::Array(
            tagged("CreateSchema"@)
                .push(Val::Text(schema_name@))
                .push(Val::Bool(if_not_exists)),
        ),
        LogicalPlan::DropSchema { schema_name, if_exists, cascade } => Val::Array(
            tagged("DropSchema"@)
                .push(Val::Text(schema_name@))
                .push(Val::Bool(if_exists))
                .push(Val::Bool(cascade)),
        ),
        LogicalPlan::CreateTable {
            name,
            columns,
            constraints,
            if_not_exists,
            unique_constraints,
        } => Val::Array(
            tagged("CreateTable"@)
                .push(Val::Text(name@))
                .push(column_defs_code(columns))
                .push(table_constraints_code(constraints))
                .push(Val::Bool(if_not_exists))
                .push(text_lists_code(unique_constraints)),
        ),
        LogicalPlan::DropTable { name, if_exists, materialized } => Val::Array(
            tagged("DropTable"@)
                .push(Val::Text(name@))
                .push(Val::Bool(if_exists))
                .push(Val::Bool(materialized)),
        ),
        LogicalPlan::CreateView { name, query, or_replace } => Val::Array(
            tagged("CreateView"@)
                .push(Val::Text(name@))
                .push(plan_code(*query))
                .push(Val::Bool(or_replace)),
        ),
        LogicalPlan::DropView { name, if_exists } => Val::Array(
            tagged("DropView"@)
                .push(Val::Text(name@))
                .push(Val::Bool(if_exists)),
        ),
        LogicalPlan::AlterTable { table_name, operation } => Val::Array(
            tagged("AlterTable"@)
                .push(Val::Text(table_name@))
                .push(alter_table_op_code(operation)),
        ),
        LogicalPlan::CreateIndex { name, table_name, columns, unique, if_not_exists } => Val::Array(
            tagged("CreateIndex"@)
                .push(Val::Text(name@))
                .push(Val::Text(table_name@))
                .push(names_val(texts(columns@)))
                .push(Val::Bool(unique))
                .push(Val::Bool(if_not_exists)),
        ),
        LogicalPlan::DropIndex { name, if_exists } => Val::Array(
            tagged("DropIndex"@)
                .push(Val::Text(name@))
                .push(Val::Bool(if_exists)),
        ),
        LogicalPlan::CreateRole {
            name,
        } => Val::Array(tagged("CreateRole"@).push(Val::Text(name@))),
        LogicalPlan::Grant { privilege, object_name, grantee } => Val::Array(
            tagged("Grant"@)
                .push(Val::Text(privilege@))
                .push(Val::Text(object_name@))
                .push(Val::Text(grantee@)),
        ),
        LogicalPlan::Revoke { privilege, object_name, revokee } => Val::Array(
            tagged("Revoke"@)
                .push(Val::Text(privilege@))
                .push(Val::Text(object_name@))
                .push(Val::Text(revokee@)),
        ),
        LogicalPlan::Insert {
            table_name,
            columns,
            values_list,
            returning,
            returning_exprs,
            on_conflict,
            default_cells,
            source,
        } => Val::Array(
            tagged("Insert"@)
                .push(Val::Text(table_name@))
                .push(names_val(texts(columns@)))
                .push(value_lists_code(values_list))
                .push(names_val(texts(returning@)))
                .push(opt_returning_exprs_code(returning_exprs))
                .push(
                    match on_conflict {
                        Some(y) => given(on_conflict_clause_code(y)),
                        None => missing(),
                    },
                )
                .push(flag_lists_code(default_cells))
                .push(
                    match source {
                        Some(y) => given(plan_code(*y)),
                        None => missing(),
                    },
                ),
        ),
        LogicalPlan::CreateTableAs {
            name,
            query,
            if_not_exists,
            no_data,
            materialized,
        } => Val::Array(
            tagged("CreateTableAs"@)
                .push(Val::Text(name@))
                .push(plan_code(*query))
                .push(Val::Bool(if_not_exists))
                .push(Val::Bool(no_data))
                .push(Val::Bool(materialized)),
        ),
        LogicalPlan::Select(a) => Val::Array(tagged("Select"@).push(select_code(a))),
        LogicalPlan::Update {
            table_name,
            assignments,
            filter,
            returning,
            returning_exprs,
            table_alias,
            from,
        } => Val::Array(
            tagged("Update"@)
                .push(Val::Text(table_name@))
                .push(text_exprs_code(assignments))
                .push(
                    match filter {
                        Some(y) => given(filter_code(y)),
                        None => missing(),
                    },
                )
                .push(names_val(texts(returning@)))
                .push(opt_returning_exprs_code(returning_exprs))
                .push(
                    match table_alias {
                        Some(y) => given(Val::Text(y@)),
                        None => missing(),
                    },
                )
                .push(
                    match from {
                        Some(y) => given(plan_code(*y)),
                        None => missing(),
                    },
                ),
        ),
        LogicalPlan::Delete {
            table_name,
            filter,
            returning,
            returning_exprs,
            table_alias,
            using,
        } => Val::Array(
            tagged("Delete"@)
                .push(Val::Text(table_name@))
                .push(
                    match filter {
                        Some(y) => given(filter_code(y)),
                        None => missing(),
                    },
                )
                .push(names_val(texts(returning@)))
                .push(opt_returning_exprs_code(returning_exprs))
                .push(
                    match table_alias {
                        Some(y) => given(Val::Text(y@)),
                        None => missing(),
                    },
                )
                .push(
                    match using {
                        Some(y) => given(plan_code(*y)),
                        None => missing(),
                    },
                ),
        ),
        LogicalPlan::Begin => Val::Array(tagged("Begin"@)),
        LogicalPlan::Commit => Val::Array(tagged("Commit"@)),
        LogicalPlan::Rollback => Val::Array(tagged("Rollback"@)),
        LogicalPlan::Savepoint { name } => Val::Array(tagged("Savepoint"@).push(Val::Text(name@))),
        LogicalPlan::RollbackToSavepoint { name } => Val::Array(
            tagged("RollbackToSavepoint"@)
                .push(Val::Text(name@)),
        ),
        LogicalPlan::ReleaseSavepoint { name } => Val::Array(
            tagged("ReleaseSavepoint"@)
                .push(Val::Text(name@)),
        ),
        LogicalPlan::ShowVariable { variable } => Val::Array(
            tagged("ShowVariable"@)
                .push(Val::Text(variable@)),
        ),
        LogicalPlan::SetVariable { variable, value } => Val::Array(
            tagged("SetVariable"@)
                .push(Val::Text(variable@))
                .push(Val::Text(value@)),
        ),
        LogicalPlan::Noop { tag } => Val::Array(tagged("Noop"@).push(Val::Text(tag@))),
        LogicalPlan::SelectLiteral { values, filter, deferred } => Val::Array(
            tagged("SelectLiteral"@)
                .push(text_value_opt_texts_code(values))
                .push(
                    match filter {
                        Some(y) => given(filter_code(y)),
                        None => missing(),
                    },
                )
                .push(opt_deferred_items_code(deferred)),
        ),
        LogicalPlan::SetOp { op, all, left, right } => Val::Array(
            tagged("SetOp"@)
                .push(set_op_kind_code(op))
                .push(Val::Bool(all))
                .push(plan_code(*left))
                .push(plan_code(*right)),
        ),
        LogicalPlan::RecursiveCte { all, column_aliases, seed, recursive_term } => Val::Array(
            tagged("RecursiveCte"@)
                .push(Val::Bool(all))
                .push(names_val(texts(column_aliases@)))
                .push(plan_code(*seed))
                .push(plan_code(*recursive_term)),
        ),
        LogicalPlan::InlineRows { columns, types, rows } => Val::Array(
            tagged("InlineRows"@)
                .push(names_val(texts(columns@)))
                .push(names_val(texts(types@)))
                .push(value_lists_code(rows)),
        ),
        LogicalPlan::TableFunction(a) => Val::Array(
            tagged("TableFunction"@)
                .push(table_fn_code(a)),
        ),
        LogicalPlan::CreateSequence { name, if_not_exists, spec } => Val::Array(
            tagged("CreateSequence"@)
                .push(Val::Text(name@))
                .push(Val::Bool(if_not_exists))
                .push(sequence_spec_code(spec)),
        ),
        LogicalPlan::DropSequence { names, if_exists } => Val::Array(
            tagged("DropSequence"@)
                .push(names_val(texts(names@)))
                .push(Val::Bool(if_exists)),
        ),
        LogicalPlan::Values { rows } => Val::Array(tagged("Values"@).push(expr_lists_code(rows))),
        LogicalPlan::Renamed { input, columns } => Val::Array(
            tagged("Renamed"@)
                .push(plan_code(*input))
                .push(names_val(texts(columns@))),
        ),
        LogicalPlan::Merge {
            table_name,
            table_alias,
            source,
            on,
            clauses,
            returning,
            returning_exprs,
        } => Val::Array(
            tagged("Merge"@)
                .push(Val::Text(table_name@))
                .push(
                    match table_alias {
                        Some(y) => given(Val::Text(y@)),
                        None => missing(),
                    },
                )
                .push(plan_code(*source))
                .push(
                    match on {
                        Some(y) => given(filter_code(y)),
                        None => missing(),
                    },
                )
                .push(merge_clauses_code(clauses))
                .push(names_val(texts(returning@)))
                .push(opt_returning_exprs_code(returning_exprs)),
        ),
        LogicalPlan::With { ctes, body } => Val::Array(
            tagged("With"@)
                .push(text_plans_code(ctes))
                .push(plan_code(*body)),
        ),
        LogicalPlan::Truncate { tables, restart_identity } => Val::Array(
            tagged("Truncate"@)
                .push(names_val(texts(tables@)))
                .push(Val::Bool(restart_identity)),
        ),
        LogicalPlan::RefreshMaterializedView { name, with_data } => Val::Array(
            tagged("RefreshMaterializedView"@)
                .push(Val::Text(name@))
                .push(Val::Bool(with_data)),
        ),
        LogicalPlan::Explain { plan, analyze } => Val::Array(
            tagged("Explain"@)
                .push(plan_code(*plan))
                .push(Val::Bool(analyze)),
        ),
    }
}

pub fn code_of_plan(x: &LogicalPlan) -> (r: Value)
    ensures
        r@ == plan_code(*x),
    decreases x,
{
    match x {
        LogicalPlan::CreateSchema { schema_name, if_not_exists } => {
            let mut out = begin("CreateSchema");
            add_value(&mut out, Value::Text(schema_name.clone()));
            add_value(&mut out, Value::Bool(*if_not_exists));
            Value::Array(out)
        },
        LogicalPlan::DropSchema { schema_name, if_exists, cascade } => {
            let mut out = begin("DropSchema");
            add_value(&mut out, Value::Text(schema_name.clone()));
            add_value(&mut out, Value::Bool(*if_exists));
            add_value(&mut out, Value::Bool(*cascade));
            Value::Array(out)
        },
        LogicalPlan::CreateTable {
            name,
            columns,
            constraints,
            if_not_exists,
            unique_constraints,
        } => {
            let mut out = begin("CreateTable");
            add_value(&mut out, Value::Text(name.clone()));
            add_value(&mut out, code_of_column_defs(columns));
            add_value(&mut out, code_of_table_constraints(constraints));
            add_value(&mut out, Value::Bool(*if_not_exists));
            add_value(&mut out, code_of_text_lists(unique_constraints));
            Value::Array(out)
        },
        LogicalPlan::DropTable { name, if_exists, materialized } => {
            let mut out = begin("DropTable");
            add_value(&mut out, Value::Text(name.clone()));
            add_value(&mut out, Value::Bool(*if_exists));
            add_value(&mut out, Value::Bool(*materialized));
            Value::Array(out)
        },
        LogicalPlan::CreateView { name, query, or_replace } => {
            let mut out = begin("CreateView");
            add_value(&mut out, Value::Text(name.clone()));
            add_value(&mut out, code_of_plan(query));
            add_value(&mut out, Value::Bool(*or_replace));
            Value::Array(out)
        },
        LogicalPlan::DropView { name, if_exists } => {
            let mut out = begin("DropView");
            add_value(&mut out, Value::Text(name.clone()));
            add_value(&mut out, Value::Bool(*if_exists));
            Value::Array(out)
        },
        LogicalPlan::AlterTable { table_name, operation } => {
            let mut out = begin("AlterTable");
            add_value(&mut out, Value::Text(table_name.clone()));
            add_value(&mut out, code_of_alter_table_op(operation));
            Value::Array(out)
        },
        LogicalPlan::CreateIndex { name, table_name, columns, unique, if_not_exists } => {
            let mut out = begin("CreateIndex");
            add_value(&mut out, Value::Text(name.clone()));
            add_value(&mut out, Value::Text(table_name.clone()));
            add_value(&mut out, names_value(columns));
            add_value(&mut out, Value::Bool(*unique));
            add_value(&mut out, Value::Bool(*if_not_exists));
            Value::Array(out)
        },
        LogicalPlan::DropIndex { name, if_exists } => {
            let mut out = begin("DropIndex");
            add_value(&mut out, Value::Text(name.clone()));
            add_value(&mut out, Value::Bool(*if_exists));
            Value::Array(out)
        },
        LogicalPlan::CreateRole { name } => {
            let mut out = begin("CreateRole");
            add_value(&mut out, Value::Text(name.clone()));
            Value::Array(out)
        },
        LogicalPlan::Grant { privilege, object_name, grantee } => {
            let mut out = begin("Grant");
            add_value(&mut out, Value::Text(privilege.clone()));
            add_value(&mut out, Value::Text(object_name.clone()));
            add_value(&mut out, Value::Text(grantee.clone()));
            Value::Array(out)
        },
        LogicalPlan::Revoke { privilege, object_name, revokee } => {
            let mut out = begin("Revoke");
            add_value(&mut out, Value::Text(privilege.clone()));
            add_value(&mut out, Value::Text(object_name.clone()));
            add_value(&mut out, Value::Text(revokee.clone()));
            Value::Array(out)
        },
        LogicalPlan::Insert {
            table_name,
            columns,
            values_list,
            returning,
            returning_exprs,
            on_conflict,
            default_cells,
            source,
        } => {
            let mut out = begin("Insert");
            add_value(&mut out, Value::Text(table_name.clone()));
            add_value(&mut out, names_value(columns));
            add_value(&mut out, code_of_value_lists(values_list));
            add_value(&mut out, names_value(returning));
            add_value(&mut out, code_of_opt_returning_exprs(returning_exprs));
            add_value(
                &mut out,
                match on_conflict {
                    Some(y) => give(code_of_on_conflict_clause(y)),
                    None => miss(),
                },
            );
            add_value(&mut out, code_of_flag_lists(default_cells));
            add_value(
                &mut out,
                match source {
                    Some(y) => give(code_of_plan(y)),
                    None => miss(),
                },
            );
            Value::Array(out)
        },
        LogicalPlan::CreateTableAs { name, query, if_not_exists, no_data, materialized } => {
            let mut out = begin("CreateTableAs");
            add_value(&mut out, Value::Text(name.clone()));
            add_value(&mut out, code_of_plan(query));
            add_value(&mut out, Value::Bool(*if_not_exists));
            add_value(&mut out, Value::Bool(*no_data));
            add_value(&mut out, Value::Bool(*materialized));
            Value::Array(out)
        },
        LogicalPlan::Select(a) => {
            let mut out = begin("Select");
            add_value(&mut out, code_of_select(a));
            Value::Array(out)
        },
        LogicalPlan::Update {
            table_name,
            assignments,
            filter,
            returning,
            returning_exprs,
            table_alias,
            from,
        } => {
            let mut out = begin("Update");
            add_value(&mut out, Value::Text(table_name.clone()));
            add_value(&mut out, code_of_text_exprs(assignments));
            add_value(
                &mut out,
                match filter {
                    Some(y) => give(code_of_filter(y)),
                    None => miss(),
                },
            );
            add_value(&mut out, names_value(returning));
            add_value(&mut out, code_of_opt_returning_exprs(returning_exprs));
            add_value(
                &mut out,
                match table_alias {
                    Some(y) => give(Value::Text(y.clone())),
                    None => miss(),
                },
            );
            add_value(
                &mut out,
                match from {
                    Some(y) => give(code_of_plan(y)),
                    None => miss(),
                },
            );
            Value::Array(out)
        },
        LogicalPlan::Delete {
            table_name,
            filter,
            returning,
            returning_exprs,
            table_alias,
            using,
        } => {
            let mut out = begin("Delete");
            add_value(&mut out, Value::Text(table_name.clone()));
            add_value(
                &mut out,
                match filter {
                    Some(y) => give(code_of_filter(y)),
                    None => miss(),
                },
            );
            add_value(&mut out, names_value(returning));
            add_value(&mut out, code_of_opt_returning_exprs(returning_exprs));
            add_value(
                &mut out,
                match table_alias {
                    Some(y) => give(Value::Text(y.clone())),
                    None => miss(),
                },
            );
            add_value(
                &mut out,
                match using {
                    Some(y) => give(code_of_plan(y)),
                    None => miss(),
                },
            );
            Value::Array(out)
        },
        LogicalPlan::Begin => {
            let mut out = begin("Begin");
            Value::Array(out)
        },
        LogicalPlan::Commit => {
            let mut out = begin("Commit");
            Value::Array(out)
        },
        LogicalPlan::Rollback => {
            let mut out = begin("Rollback");
            Value::Array(out)
        },
        LogicalPlan::Savepoint { name } => {
            let mut out = begin("Savepoint");
            add_value(&mut out, Value::Text(name.clone()));
            Value::Array(out)
        },
        LogicalPlan::RollbackToSavepoint { name } => {
            let mut out = begin("RollbackToSavepoint");
            add_value(&mut out, Value::Text(name.clone()));
            Value::Array(out)
        },
        LogicalPlan::ReleaseSavepoint { name } => {
            let mut out = begin("ReleaseSavepoint");
            add_value(&mut out, Value::Text(name.clone()));
            Value::Array(out)
        },
        LogicalPlan::ShowVariable { variable } => {
            let mut out = begin("ShowVariable");
            add_value(&mut out, Value::Text(variable.clone()));
            Value::Array(out)
        },
        LogicalPlan::SetVariable { variable, value } => {
            let mut out = begin("SetVariable");
            add_value(&mut out, Value::Text(variable.clone()));
            add_value(&mut out, Value::Text(value.clone()));
            Value::Array(out)
        },
        LogicalPlan::Noop { tag } => {
            let mut out = begin("Noop");
            add_value(&mut out, Value::Text(tag.clone()));
            Value::Array(out)
        },
        LogicalPlan::SelectLiteral { values, filter, deferred } => {
            let mut out = begin("SelectLiteral");
            add_value(&mut out, code_of_text_value_opt_texts(values));
            add_value(
                &mut out,
                match filter {
                    Some(y) => give(code_of_filter(y)),
                    None => miss(),
                },
            );
            add_value(&mut out, code_of_opt_deferred_items(deferred));
            Value::Array(out)
        },
        LogicalPlan::SetOp { op, all, left, right } => {
            let mut out = begin("SetOp");
            add_value(&mut out, code_of_set_op_kind(op));
            add_value(&mut out, Value::Bool(*all));
            add_value(&mut out, code_of_plan(left));
            add_value(&mut out, code_of_plan(right));
            Value::Array(out)
        },
        LogicalPlan::RecursiveCte { all, column_aliases, seed, recursive_term } => {
            let mut out = begin("RecursiveCte");
            add_value(&mut out, Value::Bool(*all));
            add_value(&mut out, names_value(column_aliases));
            add_value(&mut out, code_of_plan(seed));
            add_value(&mut out, code_of_plan(recursive_term));
            Value::Array(out)
        },
        LogicalPlan::InlineRows { columns, types, rows } => {
            let mut out = begin("InlineRows");
            add_value(&mut out, names_value(columns));
            add_value(&mut out, names_value(types));
            add_value(&mut out, code_of_value_lists(rows));
            Value::Array(out)
        },
        LogicalPlan::TableFunction(a) => {
            let mut out = begin("TableFunction");
            add_value(&mut out, code_of_table_fn(a));
            Value::Array(out)
        },
        LogicalPlan::CreateSequence { name, if_not_exists, spec } => {
            let mut out = begin("CreateSequence");
            add_value(&mut out, Value::Text(name.clone()));
            add_value(&mut out, Value::Bool(*if_not_exists));
            add_value(&mut out, code_of_sequence_spec(spec));
            Value::Array(out)
        },
        LogicalPlan::DropSequence { names, if_exists } => {
            let mut out = begin("DropSequence");
            add_value(&mut out, names_value(names));
            add_value(&mut out, Value::Bool(*if_exists));
            Value::Array(out)
        },
        LogicalPlan::Values { rows } => {
            let mut out = begin("Values");
            add_value(&mut out, code_of_expr_lists(rows));
            Value::Array(out)
        },
        LogicalPlan::Renamed { input, columns } => {
            let mut out = begin("Renamed");
            add_value(&mut out, code_of_plan(input));
            add_value(&mut out, names_value(columns));
            Value::Array(out)
        },
        LogicalPlan::Merge {
            table_name,
            table_alias,
            source,
            on,
            clauses,
            returning,
            returning_exprs,
        } => {
            let mut out = begin("Merge");
            add_value(&mut out, Value::Text(table_name.clone()));
            add_value(
                &mut out,
                match table_alias {
                    Some(y) => give(Value::Text(y.clone())),
                    None => miss(),
                },
            );
            add_value(&mut out, code_of_plan(source));
            add_value(
                &mut out,
                match on {
                    Some(y) => give(code_of_filter(y)),
                    None => miss(),
                },
            );
            add_value(&mut out, code_of_merge_clauses(clauses));
            add_value(&mut out, names_value(returning));
            add_value(&mut out, code_of_opt_returning_exprs(returning_exprs));
            Value::Array(out)
        },
        LogicalPlan::With { ctes, body } => {
            let mut out = begin("With");
            add_value(&mut out, code_of_text_plans(ctes));
            add_value(&mut out, code_of_plan(body));
            Value::Array(out)
        },
        LogicalPlan::Truncate { tables, restart_identity } => {
            let mut out = begin("Truncate");
            add_value(&mut out, names_value(tables));
            add_value(&mut out, Value::Bool(*restart_identity));
            Value::Array(out)
        },
        LogicalPlan::RefreshMaterializedView { name, with_data } => {
            let mut out = begin("RefreshMaterializedView");
            add_value(&mut out, Value::Text(name.clone()));
            add_value(&mut out, Value::Bool(*with_data));
            Value::Array(out)
        },
        LogicalPlan::Explain { plan, analyze } => {
            let mut out = begin("Explain");
            add_value(&mut out, code_of_plan(plan));
            add_value(&mut out, Value::Bool(*analyze));
            Value::Array(out)
        },
    }
}

/// A list of parts: `Vec<ColumnDef>`.
pub closed spec fn column_defs_code(v: Vec<ColumnDef>) -> Val
    decreases v,
{
    Val::Array(
        Seq::new(
            v@.len(),
            |i: int|
                if 0 <= i < v@.len() {
                    column_def_code(v@[i])
                } else {
                    Val::Null
                },
        ),
    )
}

fn code_of_column_defs(v: &Vec<ColumnDef>) -> (r: Value)
    ensures
        r@ == column_defs_code(*v),
    decreases v,
{
    let mut out: Vec<Value> = Vec::new();
    let mut i: usize = 0;
    while i < v.len()
        invariant
            i <= v@.len(),
            out@.len() == i,
            forall|i: int| 0 <= i < out@.len() ==> (#[trigger] out@[i])@ == column_def_code(v@[i]),
        decreases v@.len() - i,
    {
        assert(decreases_to!(v@ => v@[i as int]));
        out.push(code_of_column_def(&v[i]));
        i = i + 1;
    }
    let ghost made = column_defs_code(*v);
    assert(made is Array);
    assert(vals(out@) =~= made->Array_0);
    Value::Array(out)
}

/// A list of parts: `Vec<TableConstraint>`.
pub closed spec fn table_constraints_code(v: Vec<TableConstraint>) -> Val
    decreases v,
{
    Val::Array(
        Seq::new(
            v@.len(),
            |i: int|
                if 0 <= i < v@.len() {
                    table_constraint_code(v@[i])
                } else {
                    Val::Null
                },
        ),
    )
}

fn code_of_table_constraints(v: &Vec<TableConstraint>) -> (r: Value)
    ensures
        r@ == table_constraints_code(*v),
    decreases v,
{
    let mut out: Vec<Value> = Vec::new();
    let mut i: usize = 0;
    while i < v.len()
        invariant
            i <= v@.len(),
            out@.len() == i,
            forall|i: int|
                0 <= i < out@.len() ==> (#[trigger] out@[i])@ == table_constraint_code(v@[i]),
        decreases v@.len() - i,
    {
        assert(decreases_to!(v@ => v@[i as int]));
        out.push(code_of_table_constraint(&v[i]));
        i = i + 1;
    }
    let ghost made = table_constraints_code(*v);
    assert(made is Array);
    assert(vals(out@) =~= made->Array_0);
    Value::Array(out)
}

/// A list of parts: `Vec<Vec<String>>`.
pub closed spec fn text_lists_code(v: Vec<Vec<String>>) -> Val
    decreases v,
{
    Val::Array(
        Seq::new(
            v@.len(),
            |i: int|
                if 0 <= i < v@.len() {
                    names_val(texts(v@[i]@))
                } else {
                    Val::Null
                },
        ),
    )
}

fn code_of_text_lists(v: &Vec<Vec<String>>) -> (r: Value)
    ensures
        r@ == text_lists_code(*v),
    decreases v,
{
    let mut out: Vec<Value> = Vec::new();
    let mut i: usize = 0;
    while i < v.len()
        invariant
            i <= v@.len(),
            out@.len() == i,
            forall|i: int|
                0 <= i < out@.len() ==> (#[trigger] out@[i])@ == names_val(texts(v@[i]@)),
        decreases v@.len() - i,
    {
        assert(decreases_to!(v@ => v@[i as int]));
        out.push(names_value(&v[i]));
        i = i + 1;
    }
    let ghost made = text_lists_code(*v);
    assert(made is Array);
    assert(vals(out@) =~= made->Array_0);
    Value::Array(out)
}

/// The form of a [`AlterTableOp`].
pub closed spec fn alter_table_op_code(x: AlterTableOp) -> Val
    decreases x,
{
    match x {
        AlterTableOp::AddColumn { name, data_type, nullable, default } => Val::Array(
            tagged("AddColumn"@)
                .push(Val::Text(name@))
                .push(Val::Text(data_type@))
                .push(Val::Bool(nullable))
                .push(
                    match default {
                        Some(y) => given(expr_code(y)),
                        None => missing(),
                    },
                ),
        ),
        AlterTableOp::RenameColumn { old_name, new_name } => Val::Array(
            tagged("RenameColumn"@)
                .push(Val::Text(old_name@))
                .push(Val::Text(new_name@)),
        ),
        AlterTableOp::AlterColumnType { name, data_type } => Val::Array(
            tagged("AlterColumnType"@)
                .push(Val::Text(name@))
                .push(Val::Text(data_type@)),
        ),
        AlterTableOp::DropColumn {
            name,
        } => Val::Array(tagged("DropColumn"@).push(Val::Text(name@))),
        AlterTableOp::RenameTable { new_name } => Val::Array(
            tagged("RenameTable"@)
                .push(Val::Text(new_name@)),
        ),
    }
}

pub fn code_of_alter_table_op(x: &AlterTableOp) -> (r: Value)
    ensures
        r@ == alter_table_op_code(*x),
    decreases x,
{
    match x {
        AlterTableOp::AddColumn { name, data_type, nullable, default } => {
            let mut out = begin("AddColumn");
            add_value(&mut out, Value::Text(name.clone()));
            add_value(&mut out, Value::Text(data_type.clone()));
            add_value(&mut out, Value::Bool(*nullable));
            add_value(
                &mut out,
                match default {
                    Some(y) => give(code_of_expr(y)),
                    None => miss(),
                },
            );
            Value::Array(out)
        },
        AlterTableOp::RenameColumn { old_name, new_name } => {
            let mut out = begin("RenameColumn");
            add_value(&mut out, Value::Text(old_name.clone()));
            add_value(&mut out, Value::Text(new_name.clone()));
            Value::Array(out)
        },
        AlterTableOp::AlterColumnType { name, data_type } => {
            let mut out = begin("AlterColumnType");
            add_value(&mut out, Value::Text(name.clone()));
            add_value(&mut out, Value::Text(data_type.clone()));
            Value::Array(out)
        },
        AlterTableOp::DropColumn { name } => {
            let mut out = begin("DropColumn");
            add_value(&mut out, Value::Text(name.clone()));
            Value::Array(out)
        },
        AlterTableOp::RenameTable { new_name } => {
            let mut out = begin("RenameTable");
            add_value(&mut out, Value::Text(new_name.clone()));
            Value::Array(out)
        },
    }
}

/// A list of parts: `Vec<Vec<Value>>`.
pub closed spec fn value_lists_code(v: Vec<Vec<Value>>) -> Val
    decreases v,
{
    Val::Array(
        Seq::new(
            v@.len(),
            |i: int|
                if 0 <= i < v@.len() {
                    values_code(v@[i])
                } else {
                    Val::Null
                },
        ),
    )
}

fn code_of_value_lists(v: &Vec<Vec<Value>>) -> (r: Value)
    ensures
        r@ == value_lists_code(*v),
    decreases v,
{
    let mut out: Vec<Value> = Vec::new();
    let mut i: usize = 0;
    while i < v.len()
        invariant
            i <= v@.len(),
            out@.len() == i,
            forall|i: int| 0 <= i < out@.len() ==> (#[trigger] out@[i])@ == values_code(v@[i]),
        decreases v@.len() - i,
    {
        assert(decreases_to!(v@ => v@[i as int]));
        out.push(code_of_values(&v[i]));
        i = i + 1;
    }
    let ghost made = value_lists_code(*v);
    assert(made is Array);
    assert(vals(out@) =~= made->Array_0);
    Value::Array(out)
}

/// A list of parts: `Vec<Option<ReturningExpr>>`.
pub closed spec fn opt_returning_exprs_code(v: Vec<Option<ReturningExpr>>) -> Val
    decreases v,
{
    Val::Array(
        Seq::new(
            v@.len(),
            |i: int|
                if 0 <= i < v@.len() {
                    match v@[i] { Some(y) => given(returning_expr_code(y)), None => missing() }
                } else {
                    Val::Null
                },
        ),
    )
}

fn code_of_opt_returning_exprs(v: &Vec<Option<ReturningExpr>>) -> (r: Value)
    ensures
        r@ == opt_returning_exprs_code(*v),
    decreases v,
{
    let mut out: Vec<Value> = Vec::new();
    let mut i: usize = 0;
    while i < v.len()
        invariant
            i <= v@.len(),
            out@.len() == i,
            forall|i: int|
                0 <= i < out@.len() ==> (#[trigger] out@[i])@ == match v@[i] {
                    Some(y) => given(returning_expr_code(y)),
                    None => missing(),
                },
        decreases v@.len() - i,
    {
        assert(decreases_to!(v@ => v@[i as int]));
        out.push(
            match &v[i] {
                Some(y) => give(code_of_returning_expr(y)),
                None => miss(),
            },
        );
        i = i + 1;
    }
    let ghost made = opt_returning_exprs_code(*v);
    assert(made is Array);
    assert(vals(out@) =~= made->Array_0);
    Value::Array(out)
}

/// The form of a [`OnConflictClause`].
pub closed spec fn on_conflict_clause_code(x: OnConflictClause) -> Val
    decreases x,
{
    match x {
        OnConflictClause::DoNothing { target } => Val::Array(
            tagged("DoNothing"@)
                .push(
                    match target {
                        Some(y) => given(conflict_target_code(y)),
                        None => missing(),
                    },
                ),
        ),
        OnConflictClause::DoUpdate { target, assignments, condition } => Val::Array(
            tagged("DoUpdate"@)
                .push(
                    match target {
                        Some(y) => given(conflict_target_code(y)),
                        None => missing(),
                    },
                )
                .push(text_exprs_code(assignments))
                .push(
                    match condition {
                        Some(y) => given(expr_code(y)),
                        None => missing(),
                    },
                ),
        ),
    }
}

pub fn code_of_on_conflict_clause(x: &OnConflictClause) -> (r: Value)
    ensures
        r@ == on_conflict_clause_code(*x),
    decreases x,
{
    match x {
        OnConflictClause::DoNothing { target } => {
            let mut out = begin("DoNothing");
            add_value(
                &mut out,
                match target {
                    Some(y) => give(code_of_conflict_target(y)),
                    None => miss(),
                },
            );
            Value::Array(out)
        },
        OnConflictClause::DoUpdate { target, assignments, condition } => {
            let mut out = begin("DoUpdate");
            add_value(
                &mut out,
                match target {
                    Some(y) => give(code_of_conflict_target(y)),
                    None => miss(),
                },
            );
            add_value(&mut out, code_of_text_exprs(assignments));
            add_value(
                &mut out,
                match condition {
                    Some(y) => give(code_of_expr(y)),
                    None => miss(),
                },
            );
            Value::Array(out)
        },
    }
}

/// A list of parts: `Vec<Vec<bool>>`.
pub closed spec fn flag_lists_code(v: Vec<Vec<bool>>) -> Val
    decreases v,
{
    Val::Array(
        Seq::new(
            v@.len(),
            |i: int|
                if 0 <= i < v@.len() {
                    flags_code(v@[i])
                } else {
                    Val::Null
                },
        ),
    )
}

fn code_of_flag_lists(v: &Vec<Vec<bool>>) -> (r: Value)
    ensures
        r@ == flag_lists_code(*v),
    decreases v,
{
    let mut out: Vec<Value> = Vec::new();
    let mut i: usize = 0;
    while i < v.len()
        invariant
            i <= v@.len(),
            out@.len() == i,
            forall|i: int| 0 <= i < out@.len() ==> (#[trigger] out@[i])@ == flags_code(v@[i]),
        decreases v@.len() - i,
    {
        assert(decreases_to!(v@ => v@[i as int]));
        out.push(code_of_flags(&v[i]));
        i = i + 1;
    }
    let ghost made = flag_lists_code(*v);
    assert(made is Array);
    assert(vals(out@) =~= made->Array_0);
    Value::Array(out)
}

/// The form of a [`SelectPlan`].
pub closed spec fn select_code(x: SelectPlan) -> Val
    decreases x,
{
    Val::Array(
    tagged("SelectPlan"@)
        .push(text_plans_code(x.ctes))
        .push(Val::Text(x.table_name@))
        .push(
            match x.table_alias {
                Some(y) => given(Val::Text(y@)),
                None => missing(),
            },
        )
        .push(joins_code(x.joins))
        .push(items_code(x.projection))
        .push(names_val(texts(x.group_by@)))
        .push(
            match x.filter {
                Some(y) => given(filter_code(y)),
                None => missing(),
            },
        )
        .push(
            match x.having {
                Some(y) => given(filter_code(y)),
                None => missing(),
            },
        )
        .push(
            match x.grouping_sets {
                Some(y) => given(text_lists_code(y)),
                None => missing(),
            },
        )
        .push(text_flag_opt_flags_code(x.order_by))
        .push(
            match x.limit {
                Some(y) => given(Val::Text(decimal(y as int))),
                None => missing(),
            },
        )
        .push(
            match x.offset {
                Some(y) => given(Val::Text(decimal(y as int))),
                None => missing(),
            },
        )
        .push(Val::Bool(x.distinct))
        .push(sort_keys_code(x.sort))
        .push(text_exprs_code(x.group_exprs))
        .push(sort_targets_code(x.distinct_on)),
)
}

pub fn code_of_select(x: &SelectPlan) -> (r: Value)
    ensures
        r@ == select_code(*x),
    decreases x,
{
    let mut out = begin("SelectPlan");
    add_value(&mut out, code_of_text_plans(&x.ctes));
    add_value(&mut out, Value::Text(x.table_name.clone()));
    add_value(
        &mut out,
        match &x.table_alias {
            Some(y) => give(Value::Text(y.clone())),
            None => miss(),
        },
    );
    add_value(&mut out, code_of_joins(&x.joins));
    add_value(&mut out, code_of_items(&x.projection));
    add_value(&mut out, names_value(&x.group_by));
    add_value(
        &mut out,
        match &x.filter {
            Some(y) => give(code_of_filter(y)),
            None => miss(),
        },
    );
    add_value(
        &mut out,
        match &x.having {
            Some(y) => give(code_of_filter(y)),
            None => miss(),
        },
    );
    add_value(
        &mut out,
        match &x.grouping_sets {
            Some(y) => give(code_of_text_lists(y)),
            None => miss(),
        },
    );
    add_value(&mut out, code_of_text_flag_opt_flags(&x.order_by));
    add_value(
        &mut out,
        match &x.limit {
            Some(y) => give(Value::Text(size_text(*y))),
            None => miss(),
        },
    );
    add_value(
        &mut out,
        match &x.offset {
            Some(y) => give(Value::Text(size_text(*y))),
            None => miss(),
        },
    );
    add_value(&mut out, Value::Bool(x.distinct));
    add_value(&mut out, code_of_sort_keys(&x.sort));
    add_value(&mut out, code_of_text_exprs(&x.group_exprs));
    add_value(&mut out, code_of_sort_targets(&x.distinct_on));
    Value::Array(out)
}

/// A list of parts: `Vec<(String, ScalarExpr)>`.
pub closed spec fn text_exprs_code(v: Vec<(String, ScalarExpr)>) -> Val
    decreases v,
{
    Val::Array(
        Seq::new(
            v@.len(),
            |i: int|
                if 0 <= i < v@.len() {
                    Val::Array(
                        untagged()
                            .push(Val::Text(v@[i].0@))
                            .push(expr_code(v@[i].1)),
                    )
                } else {
                    Val::Null
                },
        ),
    )
}

fn code_of_text_exprs(v: &Vec<(String, ScalarExpr)>) -> (r: Value)
    ensures
        r@ == text_exprs_code(*v),
    decreases v,
{
    let mut out: Vec<Value> = Vec::new();
    let mut i: usize = 0;
    while i < v.len()
        invariant
            i <= v@.len(),
            out@.len() == i,
            forall|i: int|
                0 <= i < out@.len() ==> (#[trigger] out@[i])@ == Val::Array(
                    untagged()
                        .push(Val::Text(v@[i].0@))
                        .push(expr_code(v@[i].1)),
                ),
        decreases v@.len() - i,
    {
        assert(decreases_to!(v@ => v@[i as int]));
        let mut pair = no_tag();
        add_value(&mut pair, Value::Text(v[i].0.clone()));
        add_value(&mut pair, code_of_expr(&v[i].1));
        out.push(Value::Array(pair));
        i = i + 1;
    }
    let ghost made = text_exprs_code(*v);
    assert(made is Array);
    assert(vals(out@) =~= made->Array_0);
    Value::Array(out)
}

/// The form of a [`FilterExpr`].
pub closed spec fn filter_code(x: FilterExpr) -> Val
    decreases x,
{
    match x {
        FilterExpr::Predicate(a) => Val::Array(tagged("Predicate"@).push(predicate_code(a))),
        FilterExpr::And(a, b) => Val::Array(
            tagged("And"@)
                .push(filter_code(*a))
                .push(filter_code(*b)),
        ),
        FilterExpr::Or(a, b) => Val::Array(
            tagged("Or"@)
                .push(filter_code(*a))
                .push(filter_code(*b)),
        ),
        FilterExpr::Not(a) => Val::Array(tagged("Not"@).push(filter_code(*a))),
        FilterExpr::IsNull(a) => Val::Array(tagged("IsNull"@).push(Val::Text(a@))),
        FilterExpr::IsNotNull(a) => Val::Array(tagged("IsNotNull"@).push(Val::Text(a@))),
        FilterExpr::InList { left, list, negated } => Val::Array(
            tagged("InList"@)
                .push(Val::Text(left@))
                .push(operands_code(list))
                .push(Val::Bool(negated)),
        ),
        FilterExpr::InSubquery { left, subquery, negated, left_value } => Val::Array(
            tagged("InSubquery"@)
                .push(Val::Text(left@))
                .push(plan_code(*subquery))
                .push(Val::Bool(negated))
                .push(
                    match left_value {
                        Some(y) => given(y@),
                        None => missing(),
                    },
                ),
        ),
        FilterExpr::CompareSubquery { left, op, subquery } => Val::Array(
            tagged("CompareSubquery"@)
                .push(Val::Text(left@))
                .push(compare_op_code(op))
                .push(plan_code(*subquery)),
        ),
        FilterExpr::ExprCmp { left, op, right } => Val::Array(
            tagged("ExprCmp"@)
                .push(expr_code(left))
                .push(compare_op_code(op))
                .push(expr_code(right)),
        ),
        FilterExpr::Exists { subquery, negated } => Val::Array(
            tagged("Exists"@)
                .push(plan_code(*subquery))
                .push(Val::Bool(negated)),
        ),
        FilterExpr::Scalar(a) => Val::Array(tagged("Scalar"@).push(expr_code(a))),
        FilterExpr::QuantifiedSubquery { left, op, subquery, all } => Val::Array(
            tagged("QuantifiedSubquery"@)
                .push(expr_code(left))
                .push(scalar_binary_op_code(op))
                .push(plan_code(*subquery))
                .push(Val::Bool(all)),
        ),
    }
}

pub fn code_of_filter(x: &FilterExpr) -> (r: Value)
    ensures
        r@ == filter_code(*x),
    decreases x,
{
    match x {
        FilterExpr::Predicate(a) => {
            let mut out = begin("Predicate");
            add_value(&mut out, code_of_predicate(a));
            Value::Array(out)
        },
        FilterExpr::And(a, b) => {
            let mut out = begin("And");
            add_value(&mut out, code_of_filter(a));
            add_value(&mut out, code_of_filter(b));
            Value::Array(out)
        },
        FilterExpr::Or(a, b) => {
            let mut out = begin("Or");
            add_value(&mut out, code_of_filter(a));
            add_value(&mut out, code_of_filter(b));
            Value::Array(out)
        },
        FilterExpr::Not(a) => {
            let mut out = begin("Not");
            add_value(&mut out, code_of_filter(a));
            Value::Array(out)
        },
        FilterExpr::IsNull(a) => {
            let mut out = begin("IsNull");
            add_value(&mut out, Value::Text(a.clone()));
            Value::Array(out)
        },
        FilterExpr::IsNotNull(a) => {
            let mut out = begin("IsNotNull");
            add_value(&mut out, Value::Text(a.clone()));
            Value::Array(out)
        },
        FilterExpr::InList { left, list, negated } => {
            let mut out = begin("InList");
            add_value(&mut out, Value::Text(left.clone()));
            add_value(&mut out, code_of_operands(list));
            add_value(&mut out, Value::Bool(*negated));
            Value::Array(out)
        },
        FilterExpr::InSubquery { left, subquery, negated, left_value } => {
            let mut out = begin("InSubquery");
            add_value(&mut out, Value::Text(left.clone()));
            add_value(&mut out, code_of_plan(subquery));
            add_value(&mut out, Value::Bool(*negated));
            add_value(
                &mut out,
                match left_value {
                    Some(y) => give(y.duplicate()),
                    None => miss(),
                },
            );
            Value::Array(out)
        },
        FilterExpr::CompareSubquery { left, op, subquery } => {
            let mut out = begin("CompareSubquery");
            add_value(&mut out, Value::Text(left.clone()));
            add_value(&mut out, code_of_compare_op(op));
            add_value(&mut out, code_of_plan(subquery));
            Value::Array(out)
        },
        FilterExpr::ExprCmp { left, op, right } => {
            let mut out = begin("ExprCmp");
            add_value(&mut out, code_of_expr(left));
            add_value(&mut out, code_of_compare_op(op));
            add_value(&mut out, code_of_expr(right));
            Value::Array(out)
        },
        FilterExpr::Exists { subquery, negated } => {
            let mut out = begin("Exists");
            add_value(&mut out, code_of_plan(subquery));
            add_value(&mut out, Value::Bool(*negated));
            Value::Array(out)
        },
        FilterExpr::Scalar(a) => {
            let mut out = begin("Scalar");
            add_value(&mut out, code_of_expr(a));
            Value::Array(out)
        },
        FilterExpr::QuantifiedSubquery { left, op, subquery, all } => {
            let mut out = begin("QuantifiedSubquery");
            add_value(&mut out, code_of_expr(left));
            add_value(&mut out, code_of_scalar_binary_op(op));
            add_value(&mut out, code_of_plan(subquery));
            add_value(&mut out, Value::Bool(*all));
            Value::Array(out)
        },
    }
}

/// A list of parts: `Vec<(String, Value, Option<String>)>`.
pub closed spec fn text_value_opt_texts_code(v: Vec<(String, Value, Option<String>)>) -> Val
    decreases v,
{
    Val::Array(
        Seq::new(
            v@.len(),
            |i: int|
                if 0 <= i < v@.len() {
                    Val::Array(
                        untagged()
                            .push(Val::Text(v@[i].0@))
                            .push(v@[i].1@)
                            .push(
                                match v@[i].2 {
                                    Some(y) => given(Val::Text(y@)),
                                    None => missing(),
                                },
                            ),
                    )
                } else {
                    Val::Null
                },
        ),
    )
}

fn code_of_text_value_opt_texts(v: &Vec<(String, Value, Option<String>)>) -> (r: Value)
    ensures
        r@ == text_value_opt_texts_code(*v),
    decreases v,
{
    let mut out: Vec<Value> = Vec::new();
    let mut i: usize = 0;
    while i < v.len()
        invariant
            i <= v@.len(),
            out@.len() == i,
            forall|i: int|
                0 <= i < out@.len() ==> (#[trigger] out@[i])@ == Val::Array(
                    untagged()
                        .push(Val::Text(v@[i].0@))
                        .push(v@[i].1@)
                        .push(
                            match v@[i].2 {
                                Some(y) => given(Val::Text(y@)),
                                None => missing(),
                            },
                        ),
                ),
        decreases v@.len() - i,
    {
        assert(decreases_to!(v@ => v@[i as int]));
        let mut pair = no_tag();
        add_value(&mut pair, Value::Text(v[i].0.clone()));
        add_value(&mut pair, v[i].1.duplicate());
        add_value(
            &mut pair,
            match &v[i].2 {
                Some(y) => give(Value::Text(y.clone())),
                None => miss(),
            },
        );
        out.push(Value::Array(pair));
        i = i + 1;
    }
    let ghost made = text_value_opt_texts_code(*v);
    assert(made is Array);
    assert(vals(out@) =~= made->Array_0);
    Value::Array(out)
}

/// A list of parts: `Vec<Option<DeferredItem>>`.
pub closed spec fn opt_deferred_items_code(v: Vec<Option<DeferredItem>>) -> Val
    decreases v,
{
    Val::Array(
        Seq::new(
            v@.len(),
            |i: int|
                if 0 <= i < v@.len() {
                    match v@[i] { Some(y) => given(deferred_item_code(y)), None => missing() }
                } else {
                    Val::Null
                },
        ),
    )
}

fn code_of_opt_deferred_items(v: &Vec<Option<DeferredItem>>) -> (r: Value)
    ensures
        r@ == opt_deferred_items_code(*v),
    decreases v,
{
    let mut out: Vec<Value> = Vec::new();
    let mut i: usize = 0;
    while i < v.len()
        invariant
            i <= v@.len(),
            out@.len() == i,
            forall|i: int|
                0 <= i < out@.len() ==> (#[trigger] out@[i])@ == match v@[i] {
                    Some(y) => given(deferred_item_code(y)),
                    None => missing(),
                },
        decreases v@.len() - i,
    {
        assert(decreases_to!(v@ => v@[i as int]));
        out.push(
            match &v[i] {
                Some(y) => give(code_of_deferred_item(y)),
                None => miss(),
            },
        );
        i = i + 1;
    }
    let ghost made = opt_deferred_items_code(*v);
    assert(made is Array);
    assert(vals(out@) =~= made->Array_0);
    Value::Array(out)
}

/// The form of a [`SetOpKind`].
pub closed spec fn set_op_kind_code(x: SetOpKind) -> Val
    decreases x,
{
    match x {
        SetOpKind::Union => Val::Array(tagged("Union"@)),
        SetOpKind::Intersect => Val::Array(tagged("Intersect"@)),
        SetOpKind::Except => Val::Array(tagged("Except"@)),
    }
}

pub fn code_of_set_op_kind(x: &SetOpKind) -> (r: Value)
    ensures
        r@ == set_op_kind_code(*x),
    decreases x,
{
    match x {
        SetOpKind::Union => {
            let mut out = begin("Union");
            Value::Array(out)
        },
        SetOpKind::Intersect => {
            let mut out = begin("Intersect");
            Value::Array(out)
        },
        SetOpKind::Except => {
            let mut out = begin("Except");
            Value::Array(out)
        },
    }
}

/// The form of a [`TableFnSpec`].
pub closed spec fn table_fn_code(x: TableFnSpec) -> Val
    decreases x,
{
    Val::Array(
    tagged("TableFnSpec"@)
        .push(Val::Text(x.name@))
        .push(operands_code(x.args))
        .push(Val::Bool(x.with_ordinality))
        .push(
            match x.alias {
                Some(y) => given(Val::Text(y@)),
                None => missing(),
            },
        )
        .push(names_val(texts(x.column_aliases@)))
        .push(exprs_code(x.arg_exprs))
        .push(table_fns_code(x.rows_from)),
)
}

pub fn code_of_table_fn(x: &TableFnSpec) -> (r: Value)
    ensures
        r@ == table_fn_code(*x),
    decreases x,
{
    let mut out = begin("TableFnSpec");
    add_value(&mut out, Value::Text(x.name.clone()));
    add_value(&mut out, code_of_operands(&x.args));
    add_value(&mut out, Value::Bool(x.with_ordinality));
    add_value(
        &mut out,
        match &x.alias {
            Some(y) => give(Value::Text(y.clone())),
            None => miss(),
        },
    );
    add_value(&mut out, names_value(&x.column_aliases));
    add_value(&mut out, code_of_exprs(&x.arg_exprs));
    add_value(&mut out, code_of_table_fns(&x.rows_from));
    Value::Array(out)
}

/// The form of a [`SequenceSpec`].
pub closed spec fn sequence_spec_code(x: SequenceSpec) -> Val
    decreases x,
{
    Val::Array(
    tagged("SequenceSpec"@)
        .push(
            match x.data_type {
                Some(y) => given(Val::Text(y@)),
                None => missing(),
            },
        )
        .push(
            match x.increment {
                Some(y) => given(Val::Int(y)),
                None => missing(),
            },
        )
        .push(
            match x.min_value {
                Some(y) => given(Val::Int(y)),
                None => missing(),
            },
        )
        .push(
            match x.max_value {
                Some(y) => given(Val::Int(y)),
                None => missing(),
            },
        )
        .push(
            match x.start {
                Some(y) => given(Val::Int(y)),
                None => missing(),
            },
        )
        .push(
            match x.cache {
                Some(y) => given(Val::Int(y)),
                None => missing(),
            },
        )
        .push(Val::Bool(x.cycle)),
)
}

pub fn code_of_sequence_spec(x: &SequenceSpec) -> (r: Value)
    ensures
        r@ == sequence_spec_code(*x),
    decreases x,
{
    let mut out = begin("SequenceSpec");
    add_value(
        &mut out,
        match &x.data_type {
            Some(y) => give(Value::Text(y.clone())),
            None => miss(),
        },
    );
    add_value(
        &mut out,
        match &x.increment {
            Some(y) => give(Value::Int(*y)),
            None => miss(),
        },
    );
    add_value(
        &mut out,
        match &x.min_value {
            Some(y) => give(Value::Int(*y)),
            None => miss(),
        },
    );
    add_value(
        &mut out,
        match &x.max_value {
            Some(y) => give(Value::Int(*y)),
            None => miss(),
        },
    );
    add_value(
        &mut out,
        match &x.start {
            Some(y) => give(Value::Int(*y)),
            None => miss(),
        },
    );
    add_value(
        &mut out,
        match &x.cache {
            Some(y) => give(Value::Int(*y)),
            None => miss(),
        },
    );
    add_value(&mut out, Value::Bool(x.cycle));
    Value::Array(out)
}

/// A list of parts: `Vec<Vec<ScalarExpr>>`.
pub closed spec fn expr_lists_code(v: Vec<Vec<ScalarExpr>>) -> Val
    decreases v,
{
    Val::Array(
        Seq::new(
            v@.len(),
            |i: int|
                if 0 <= i < v@.len() {
                    exprs_code(v@[i])
                } else {
                    Val::Null
                },
        ),
    )
}

fn code_of_expr_lists(v: &Vec<Vec<ScalarExpr>>) -> (r: Value)
    ensures
        r@ == expr_lists_code(*v),
    decreases v,
{
    let mut out: Vec<Value> = Vec::new();
    let mut i: usize = 0;
    while i < v.len()
        invariant
            i <= v@.len(),
            out@.len() == i,
            forall|i: int| 0 <= i < out@.len() ==> (#[trigger] out@[i])@ == exprs_code(v@[i]),
        decreases v@.len() - i,
    {
        assert(decreases_to!(v@ => v@[i as int]));
        out.push(code_of_exprs(&v[i]));
        i = i + 1;
    }
    let ghost made = expr_lists_code(*v);
    assert(made is Array);
    assert(vals(out@) =~= made->Array_0);
    Value::Array(out)
}

/// A list of parts: `Vec<MergeClause>`.
pub closed spec fn merge_clauses_code(v: Vec<MergeClause>) -> Val
    decreases v,
{
    Val::Array(
        Seq::new(
            v@.len(),
            |i: int|
                if 0 <= i < v@.len() {
                    merge_clause_code(v@[i])
                } else {
                    Val::Null
                },
        ),
    )
}

fn code_of_merge_clauses(v: &Vec<MergeClause>) -> (r: Value)
    ensures
        r@ == merge_clauses_code(*v),
    decreases v,
{
    let mut out: Vec<Value> = Vec::new();
    let mut i: usize = 0;
    while i < v.len()
        invariant
            i <= v@.len(),
            out@.len() == i,
            forall|i: int|
                0 <= i < out@.len() ==> (#[trigger] out@[i])@ == merge_clause_code(v@[i]),
        decreases v@.len() - i,
    {
        assert(decreases_to!(v@ => v@[i as int]));
        out.push(code_of_merge_clause(&v[i]));
        i = i + 1;
    }
    let ghost made = merge_clauses_code(*v);
    assert(made is Array);
    assert(vals(out@) =~= made->Array_0);
    Value::Array(out)
}

/// A list of parts: `Vec<(String, Arc<LogicalPlan>)>`.
pub closed spec fn text_plans_code(v: Vec<(String, Arc<LogicalPlan>)>) -> Val
    decreases v,
{
    Val::Array(
        Seq::new(
            v@.len(),
            |i: int|
                if 0 <= i < v@.len() {
                    Val::Array(
                        untagged()
                            .push(Val::Text(v@[i].0@))
                            .push(plan_code(*v@[i].1)),
                    )
                } else {
                    Val::Null
                },
        ),
    )
}

fn code_of_text_plans(v: &Vec<(String, Arc<LogicalPlan>)>) -> (r: Value)
    ensures
        r@ == text_plans_code(*v),
    decreases v,
{
    let mut out: Vec<Value> = Vec::new();
    let mut i: usize = 0;
    while i < v.len()
        invariant
            i <= v@.len(),
            out@.len() == i,
            forall|i: int|
                0 <= i < out@.len() ==> (#[trigger] out@[i])@ == Val::Array(
                    untagged()
                        .push(Val::Text(v@[i].0@))
                        .push(plan_code(*v@[i].1)),
                ),
        decreases v@.len() - i,
    {
        assert(decreases_to!(v@ => v@[i as int]));
        let mut pair = no_tag();
        add_value(&mut pair, Value::Text(v[i].0.clone()));
        add_value(&mut pair, code_of_plan(&v[i].1));
        out.push(Value::Array(pair));
        i = i + 1;
    }
    let ghost made = text_plans_code(*v);
    assert(made is Array);
    assert(vals(out@) =~= made->Array_0);
    Value::Array(out)
}

/// The form of a [`ColumnDef`].
pub closed spec fn column_def_code(x: ColumnDef) -> Val
    decreases x,
{
    Val::Array(
    tagged("ColumnDef"@)
        .push(Val::Text(x.name@))
        .push(Val::Text(x.data_type@))
        .push(Val::Bool(x.nullable))
        .push(Val::Bool(x.unique))
        .push(Val::Bool(x.primary))
        .push(
            match x.default {
                Some(y) => given(expr_code(y)),
                None => missing(),
            },
        ),
)
}

pub fn code_of_column_def(x: &ColumnDef) -> (r: Value)
    ensures
        r@ == column_def_code(*x),
    decreases x,
{
    let mut out = begin("ColumnDef");
    add_value(&mut out, Value::Text(x.name.clone()));
    add_value(&mut out, Value::Text(x.data_type.clone()));
    add_value(&mut out, Value::Bool(x.nullable));
    add_value(&mut out, Value::Bool(x.unique));
    add_value(&mut out, Value::Bool(x.primary));
    add_value(
        &mut out,
        match &x.default {
            Some(y) => give(code_of_expr(y)),
            None => miss(),
        },
    );
    Value::Array(out)
}

/// The form of a [`TableConstraint`].
pub closed spec fn table_constraint_code(x: TableConstraint) -> Val
    decreases x,
{
    match x {
        TableConstraint::Check { name, expr } => Val::Array(
            tagged("Check"@)
                .push(
                    match name {
                        Some(y) => given(Val::Text(y@)),
                        None => missing(),
                    },
                )
                .push(Val::Text(expr@)),
        ),
        TableConstraint::ForeignKey {
            name,
            columns,
            foreign_table,
            referred_columns,
            on_delete,
            on_update,
        } => Val::Array(
            tagged("ForeignKey"@)
                .push(
                    match name {
                        Some(y) => given(Val::Text(y@)),
                        None => missing(),
                    },
                )
                .push(names_val(texts(columns@)))
                .push(Val::Text(foreign_table@))
                .push(names_val(texts(referred_columns@)))
                .push(referential_action_code(on_delete))
                .push(referential_action_code(on_update)),
        ),
    }
}

pub fn code_of_table_constraint(x: &TableConstraint) -> (r: Value)
    ensures
        r@ == table_constraint_code(*x),
    decreases x,
{
    match x {
        TableConstraint::Check { name, expr } => {
            let mut out = begin("Check");
            add_value(
                &mut out,
                match name {
                    Some(y) => give(Value::Text(y.clone())),
                    None => miss(),
                },
            );
            add_value(&mut out, Value::Text(expr.clone()));
            Value::Array(out)
        },
        TableConstraint::ForeignKey {
            name,
            columns,
            foreign_table,
            referred_columns,
            on_delete,
            on_update,
        } => {
            let mut out = begin("ForeignKey");
            add_value(
                &mut out,
                match name {
                    Some(y) => give(Value::Text(y.clone())),
                    None => miss(),
                },
            );
            add_value(&mut out, names_value(columns));
            add_value(&mut out, Value::Text(foreign_table.clone()));
            add_value(&mut out, names_value(referred_columns));
            add_value(&mut out, code_of_referential_action(on_delete));
            add_value(&mut out, code_of_referential_action(on_update));
            Value::Array(out)
        },
    }
}

/// The form of a [`ScalarExpr`].
pub closed spec fn expr_code(x: ScalarExpr) -> Val
    decreases x,
{
    match x {
        ScalarExpr::Literal(a) => Val::Array(tagged("Literal"@).push(a@)),
        ScalarExpr::Column(a) => Val::Array(tagged("Column"@).push(Val::Text(a@))),
        ScalarExpr::Unary { op, expr } => Val::Array(
            tagged("Unary"@)
                .push(scalar_unary_op_code(op))
                .push(expr_code(*expr)),
        ),
        ScalarExpr::Binary { op, left, right } => Val::Array(
            tagged("Binary"@)
                .push(scalar_binary_op_code(op))
                .push(expr_code(*left))
                .push(expr_code(*right)),
        ),
        ScalarExpr::Cast { expr, target } => Val::Array(
            tagged("Cast"@)
                .push(expr_code(*expr))
                .push(Val::Text(target@)),
        ),
        ScalarExpr::Function { name, args } => Val::Array(
            tagged("Function"@)
                .push(Val::Text(name@))
                .push(exprs_code(args)),
        ),
        ScalarExpr::IsNull { expr, negated } => Val::Array(
            tagged("IsNull"@)
                .push(expr_code(*expr))
                .push(Val::Bool(negated)),
        ),
        ScalarExpr::Extract { field, expr } => Val::Array(
            tagged("Extract"@)
                .push(Val::Text(field@))
                .push(expr_code(*expr)),
        ),
        ScalarExpr::Aggregate {
            op,
            arg,
            arg_expr,
            distinct,
            extra_args,
            filter,
            order_by,
        } => Val::Array(
            tagged("Aggregate"@)
                .push(aggregate_op_code(op))
                .push(Val::Text(arg@))
                .push(
                    match arg_expr {
                        Some(y) => given(expr_code(*y)),
                        None => missing(),
                    },
                )
                .push(Val::Bool(distinct))
                .push(exprs_code(extra_args))
                .push(
                    match filter {
                        Some(y) => given(expr_code(*y)),
                        None => missing(),
                    },
                )
                .push(expr_flag_opt_flags_code(order_by)),
        ),
        ScalarExpr::DateOffset { base, months, days, seconds } => Val::Array(
            tagged("DateOffset"@)
                .push(expr_code(*base))
                .push(Val::Int(months))
                .push(Val::Int(days))
                .push(Val::Int(seconds)),
        ),
        ScalarExpr::Case { operand, branches, else_result } => Val::Array(
            tagged("Case"@)
                .push(
                    match operand {
                        Some(y) => given(expr_code(*y)),
                        None => missing(),
                    },
                )
                .push(expr_exprs_code(branches))
                .push(
                    match else_result {
                        Some(y) => given(expr_code(*y)),
                        None => missing(),
                    },
                ),
        ),
        ScalarExpr::PatternMatch {
            expr,
            pattern,
            kind,
            case_insensitive,
            negated,
            escape,
        } => Val::Array(
            tagged("PatternMatch"@)
                .push(expr_code(*expr))
                .push(expr_code(*pattern))
                .push(pattern_kind_code(kind))
                .push(Val::Bool(case_insensitive))
                .push(Val::Bool(negated))
                .push(
                    match escape {
                        Some(y) => given(Val::Text(seq![y])),
                        None => missing(),
                    },
                ),
        ),
        ScalarExpr::IsDistinctFrom { left, right, negated } => Val::Array(
            tagged("IsDistinctFrom"@)
                .push(expr_code(*left))
                .push(expr_code(*right))
                .push(Val::Bool(negated)),
        ),
        ScalarExpr::IsBool { expr, value, negated } => Val::Array(
            tagged("IsBool"@)
                .push(expr_code(*expr))
                .push(
                    match value {
                        Some(y) => given(Val::Bool(y)),
                        None => missing(),
                    },
                )
                .push(Val::Bool(negated)),
        ),
        ScalarExpr::InList { expr, list, negated } => Val::Array(
            tagged("InList"@)
                .push(expr_code(*expr))
                .push(exprs_code(list))
                .push(Val::Bool(negated)),
        ),
        ScalarExpr::Quantified { left, op, right, all } => Val::Array(
            tagged("Quantified"@)
                .push(expr_code(*left))
                .push(scalar_binary_op_code(op))
                .push(expr_code(*right))
                .push(Val::Bool(all)),
        ),
        ScalarExpr::Row(a) => Val::Array(tagged("Row"@).push(exprs_code(a))),
        ScalarExpr::Subquery { plan, kind } => Val::Array(
            tagged("Subquery"@)
                .push(sub_plan_code(plan))
                .push(subquery_kind_code(kind)),
        ),
    }
}

pub fn code_of_expr(x: &ScalarExpr) -> (r: Value)
    ensures
        r@ == expr_code(*x),
    decreases x,
{
    match x {
        ScalarExpr::Literal(a) => {
            let mut out = begin("Literal");
            add_value(&mut out, a.duplicate());
            Value::Array(out)
        },
        ScalarExpr::Column(a) => {
            let mut out = begin("Column");
            add_value(&mut out, Value::Text(a.clone()));
            Value::Array(out)
        },
        ScalarExpr::Unary { op, expr } => {
            let mut out = begin("Unary");
            add_value(&mut out, code_of_scalar_unary_op(op));
            add_value(&mut out, code_of_expr(expr));
            Value::Array(out)
        },
        ScalarExpr::Binary { op, left, right } => {
            let mut out = begin("Binary");
            add_value(&mut out, code_of_scalar_binary_op(op));
            add_value(&mut out, code_of_expr(left));
            add_value(&mut out, code_of_expr(right));
            Value::Array(out)
        },
        ScalarExpr::Cast { expr, target } => {
            let mut out = begin("Cast");
            add_value(&mut out, code_of_expr(expr));
            add_value(&mut out, Value::Text(target.clone()));
            Value::Array(out)
        },
        ScalarExpr::Function { name, args } => {
            let mut out = begin("Function");
            add_value(&mut out, Value::Text(name.clone()));
            add_value(&mut out, code_of_exprs(args));
            Value::Array(out)
        },
        ScalarExpr::IsNull { expr, negated } => {
            let mut out = begin("IsNull");
            add_value(&mut out, code_of_expr(expr));
            add_value(&mut out, Value::Bool(*negated));
            Value::Array(out)
        },
        ScalarExpr::Extract { field, expr } => {
            let mut out = begin("Extract");
            add_value(&mut out, Value::Text(field.clone()));
            add_value(&mut out, code_of_expr(expr));
            Value::Array(out)
        },
        ScalarExpr::Aggregate { op, arg, arg_expr, distinct, extra_args, filter, order_by } => {
            let mut out = begin("Aggregate");
            add_value(&mut out, code_of_aggregate_op(op));
            add_value(&mut out, Value::Text(arg.clone()));
            add_value(
                &mut out,
                match arg_expr {
                    Some(y) => give(code_of_expr(y)),
                    None => miss(),
                },
            );
            add_value(&mut out, Value::Bool(*distinct));
            add_value(&mut out, code_of_exprs(extra_args));
            add_value(
                &mut out,
                match filter {
                    Some(y) => give(code_of_expr(y)),
                    None => miss(),
                },
            );
            add_value(&mut out, code_of_expr_flag_opt_flags(order_by));
            Value::Array(out)
        },
        ScalarExpr::DateOffset { base, months, days, seconds } => {
            let mut out = begin("DateOffset");
            add_value(&mut out, code_of_expr(base));
            add_value(&mut out, Value::Int(*months));
            add_value(&mut out, Value::Int(*days));
            add_value(&mut out, Value::Int(*seconds));
            Value::Array(out)
        },
        ScalarExpr::Case { operand, branches, else_result } => {
            let mut out = begin("Case");
            add_value(
                &mut out,
                match operand {
                    Some(y) => give(code_of_expr(y)),
                    None => miss(),
                },
            );
            add_value(&mut out, code_of_expr_exprs(branches));
            add_value(
                &mut out,
                match else_result {
                    Some(y) => give(code_of_expr(y)),
                    None => miss(),
                },
            );
            Value::Array(out)
        },
        ScalarExpr::PatternMatch { expr, pattern, kind, case_insensitive, negated, escape } => {
            let mut out = begin("PatternMatch");
            add_value(&mut out, code_of_expr(expr));
            add_value(&mut out, code_of_expr(pattern));
            add_value(&mut out, code_of_pattern_kind(kind));
            add_value(&mut out, Value::Bool(*case_insensitive));
            add_value(&mut out, Value::Bool(*negated));
            add_value(
                &mut out,
                match escape {
                    Some(y) => give(code_of_char(*y)),
                    None => miss(),
                },
            );
            Value::Array(out)
        },
        ScalarExpr::IsDistinctFrom { left, right, negated } => {
            let mut out = begin("IsDistinctFrom");
            add_value(&mut out, code_of_expr(left));
            add_value(&mut out, code_of_expr(right));
            add_value(&mut out, Value::Bool(*negated));
            Value::Array(out)
        },
        ScalarExpr::IsBool { expr, value, negated } => {
            let mut out = begin("IsBool");
            add_value(&mut out, code_of_expr(expr));
            add_value(
                &mut out,
                match value {
                    Some(y) => give(Value::Bool(*y)),
                    None => miss(),
                },
            );
            add_value(&mut out, Value::Bool(*negated));
            Value::Array(out)
        },
        ScalarExpr::InList { expr, list, negated } => {
            let mut out = begin("InList");
            add_value(&mut out, code_of_expr(expr));
            add_value(&mut out, code_of_exprs(list));
            add_value(&mut out, Value::Bool(*negated));
            Value::Array(out)
        },
        ScalarExpr::Quantified { left, op, right, all } => {
            let mut out = begin("Quantified");
            add_value(&mut out, code_of_expr(left));
            add_value(&mut out, code_of_scalar_binary_op(op));
            add_value(&mut out, code_of_expr(right));
            add_value(&mut out, Value::Bool(*all));
            Value::Array(out)
        },
        ScalarExpr::Row(a) => {
            let mut out = begin("Row");
            add_value(&mut out, code_of_exprs(a));
            Value::Array(out)
        },
        ScalarExpr::Subquery { plan, kind } => {
            let mut out = begin("Subquery");
            add_value(&mut out, code_of_sub_plan(plan));
            add_value(&mut out, code_of_subquery_kind(kind));
            Value::Array(out)
        },
    }
}

/// A list of parts: `Vec<Value>`.
pub closed spec fn values_code(v: Vec<Value>) -> Val
    decreases v,
{
    Val::Array(
        Seq::new(
            v@.len(),
            |i: int|
                if 0 <= i < v@.len() {
                    v@[i]@
                } else {
                    Val::Null
                },
        ),
    )
}

fn code_of_values(v: &Vec<Value>) -> (r: Value)
    ensures
        r@ == values_code(*v),
    decreases v,
{
    let mut out: Vec<Value> = Vec::new();
    let mut i: usize = 0;
    while i < v.len()
        invariant
            i <= v@.len(),
            out@.len() == i,
            forall|i: int| 0 <= i < out@.len() ==> (#[trigger] out@[i])@ == v@[i]@,
        decreases v@.len() - i,
    {
        assert(decreases_to!(v@ => v@[i as int]));
        out.push(v[i].duplicate());
        i = i + 1;
    }
    let ghost made = values_code(*v);
    assert(made is Array);
    assert(vals(out@) =~= made->Array_0);
    Value::Array(out)
}

/// The form of a [`ReturningExpr`].
pub closed spec fn returning_expr_code(x: ReturningExpr) -> Val
    decreases x,
{
    Val::Array(tagged("ReturningExpr"@).push(expr_code(x.expr)))
}

pub fn code_of_returning_expr(x: &ReturningExpr) -> (r: Value)
    ensures
        r@ == returning_expr_code(*x),
    decreases x,
{
    let mut out = begin("ReturningExpr");
    add_value(&mut out, code_of_expr(&x.expr));
    Value::Array(out)
}

/// The form of a [`ConflictTarget`].
pub closed spec fn conflict_target_code(x: ConflictTarget) -> Val
    decreases x,
{
    match x {
        ConflictTarget::Columns(a) => Val::Array(tagged("Columns"@).push(names_val(texts(a@)))),
        ConflictTarget::Constraint(a) => Val::Array(tagged("Constraint"@).push(Val::Text(a@))),
    }
}

pub fn code_of_conflict_target(x: &ConflictTarget) -> (r: Value)
    ensures
        r@ == conflict_target_code(*x),
    decreases x,
{
    match x {
        ConflictTarget::Columns(a) => {
            let mut out = begin("Columns");
            add_value(&mut out, names_value(a));
            Value::Array(out)
        },
        ConflictTarget::Constraint(a) => {
            let mut out = begin("Constraint");
            add_value(&mut out, Value::Text(a.clone()));
            Value::Array(out)
        },
    }
}

/// A list of parts: `Vec<bool>`.
pub closed spec fn flags_code(v: Vec<bool>) -> Val
    decreases v,
{
    Val::Array(
        Seq::new(
            v@.len(),
            |i: int|
                if 0 <= i < v@.len() {
                    Val::Bool(v@[i])
                } else {
                    Val::Null
                },
        ),
    )
}

fn code_of_flags(v: &Vec<bool>) -> (r: Value)
    ensures
        r@ == flags_code(*v),
    decreases v,
{
    let mut out: Vec<Value> = Vec::new();
    let mut i: usize = 0;
    while i < v.len()
        invariant
            i <= v@.len(),
            out@.len() == i,
            forall|i: int| 0 <= i < out@.len() ==> (#[trigger] out@[i])@ == Val::Bool(v@[i]),
        decreases v@.len() - i,
    {
        assert(decreases_to!(v@ => v@[i as int]));
        out.push(Value::Bool(v[i]));
        i = i + 1;
    }
    let ghost made = flags_code(*v);
    assert(made is Array);
    assert(vals(out@) =~= made->Array_0);
    Value::Array(out)
}

/// A list of parts: `Vec<Join>`.
pub closed spec fn joins_code(v: Vec<Join>) -> Val
    decreases v,
{
    Val::Array(
        Seq::new(
            v@.len(),
            |i: int|
                if 0 <= i < v@.len() {
                    join_code(v@[i])
                } else {
                    Val::Null
                },
        ),
    )
}

fn code_of_joins(v: &Vec<Join>) -> (r: Value)
    ensures
        r@ == joins_code(*v),
    decreases v,
{
    let mut out: Vec<Value> = Vec::new();
    let mut i: usize = 0;
    while i < v.len()
        invariant
            i <= v@.len(),
            out@.len() == i,
            forall|i: int| 0 <= i < out@.len() ==> (#[trigger] out@[i])@ == join_code(v@[i]),
        decreases v@.len() - i,
    {
        assert(decreases_to!(v@ => v@[i as int]));
        out.push(code_of_join(&v[i]));
        i = i + 1;
    }
    let ghost made = joins_code(*v);
    assert(made is Array);
    assert(vals(out@) =~= made->Array_0);
    Value::Array(out)
}

/// A list of parts: `Vec<ProjectionItem>`.
pub closed spec fn items_code(v: Vec<ProjectionItem>) -> Val
    decreases v,
{
    Val::Array(
        Seq::new(
            v@.len(),
            |i: int|
                if 0 <= i < v@.len() {
                    item_code(v@[i])
                } else {
                    Val::Null
                },
        ),
    )
}

fn code_of_items(v: &Vec<ProjectionItem>) -> (r: Value)
    ensures
        r@ == items_code(*v),
    decreases v,
{
    let mut out: Vec<Value> = Vec::new();
    let mut i: usize = 0;
    while i < v.len()
        invariant
            i <= v@.len(),
            out@.len() == i,
            forall|i: int| 0 <= i < out@.len() ==> (#[trigger] out@[i])@ == item_code(v@[i]),
        decreases v@.len() - i,
    {
        assert(decreases_to!(v@ => v@[i as int]));
        out.push(code_of_item(&v[i]));
        i = i + 1;
    }
    let ghost made = items_code(*v);
    assert(made is Array);
    assert(vals(out@) =~= made->Array_0);
    Value::Array(out)
}

/// A list of parts: `Vec<(String, bool, Option<bool>)>`.
pub closed spec fn text_flag_opt_flags_code(v: Vec<(String, bool, Option<bool>)>) -> Val
    decreases v,
{
    Val::Array(
        Seq::new(
            v@.len(),
            |i: int|
                if 0 <= i < v@.len() {
                    Val::Array(
                        untagged()
                            .push(Val::Text(v@[i].0@))
                            .push(Val::Bool(v@[i].1))
                            .push(
                                match v@[i].2 {
                                    Some(y) => given(Val::Bool(y)),
                                    None => missing(),
                                },
                            ),
                    )
                } else {
                    Val::Null
                },
        ),
    )
}

fn code_of_text_flag_opt_flags(v: &Vec<(String, bool, Option<bool>)>) -> (r: Value)
    ensures
        r@ == text_flag_opt_flags_code(*v),
    decreases v,
{
    let mut out: Vec<Value> = Vec::new();
    let mut i: usize = 0;
    while i < v.len()
        invariant
            i <= v@.len(),
            out@.len() == i,
            forall|i: int|
                0 <= i < out@.len() ==> (#[trigger] out@[i])@ == Val::Array(
                    untagged()
                        .push(Val::Text(v@[i].0@))
                        .push(Val::Bool(v@[i].1))
                        .push(
                            match v@[i].2 {
                                Some(y) => given(Val::Bool(y)),
                                None => missing(),
                            },
                        ),
                ),
        decreases v@.len() - i,
    {
        assert(decreases_to!(v@ => v@[i as int]));
        let mut pair = no_tag();
        add_value(&mut pair, Value::Text(v[i].0.clone()));
        add_value(&mut pair, Value::Bool(v[i].1));
        add_value(
            &mut pair,
            match &v[i].2 {
                Some(y) => give(Value::Bool(*y)),
                None => miss(),
            },
        );
        out.push(Value::Array(pair));
        i = i + 1;
    }
    let ghost made = text_flag_opt_flags_code(*v);
    assert(made is Array);
    assert(vals(out@) =~= made->Array_0);
    Value::Array(out)
}

/// A list of parts: `Vec<SortKey>`.
pub closed spec fn sort_keys_code(v: Vec<SortKey>) -> Val
    decreases v,
{
    Val::Array(
        Seq::new(
            v@.len(),
            |i: int|
                if 0 <= i < v@.len() {
                    sort_key_code(v@[i])
                } else {
                    Val::Null
                },
        ),
    )
}

fn code_of_sort_keys(v: &Vec<SortKey>) -> (r: Value)
    ensures
        r@ == sort_keys_code(*v),
    decreases v,
{
    let mut out: Vec<Value> = Vec::new();
    let mut i: usize = 0;
    while i < v.len()
        invariant
            i <= v@.len(),
            out@.len() == i,
            forall|i: int| 0 <= i < out@.len() ==> (#[trigger] out@[i])@ == sort_key_code(v@[i]),
        decreases v@.len() - i,
    {
        assert(decreases_to!(v@ => v@[i as int]));
        out.push(code_of_sort_key(&v[i]));
        i = i + 1;
    }
    let ghost made = sort_keys_code(*v);
    assert(made is Array);
    assert(vals(out@) =~= made->Array_0);
    Value::Array(out)
}

/// A list of parts: `Vec<SortTarget>`.
pub closed spec fn sort_targets_code(v: Vec<SortTarget>) -> Val
    decreases v,
{
    Val::Array(
        Seq::new(
            v@.len(),
            |i: int|
                if 0 <= i < v@.len() {
                    sort_target_code(v@[i])
                } else {
                    Val::Null
                },
        ),
    )
}

fn code_of_sort_targets(v: &Vec<SortTarget>) -> (r: Value)
    ensures
        r@ == sort_targets_code(*v),
    decreases v,
{
    let mut out: Vec<Value> = Vec::new();
    let mut i: usize = 0;
    while i < v.len()
        invariant
            i <= v@.len(),
            out@.len() == i,
            forall|i: int| 0 <= i < out@.len() ==> (#[trigger] out@[i])@ == sort_target_code(v@[i]),
        decreases v@.len() - i,
    {
        assert(decreases_to!(v@ => v@[i as int]));
        out.push(code_of_sort_target(&v[i]));
        i = i + 1;
    }
    let ghost made = sort_targets_code(*v);
    assert(made is Array);
    assert(vals(out@) =~= made->Array_0);
    Value::Array(out)
}

/// The form of a [`Predicate`].
pub closed spec fn predicate_code(x: Predicate) -> Val
    decreases x,
{
    Val::Array(
    tagged("Predicate"@)
        .push(Val::Text(x.left@))
        .push(compare_op_code(x.op))
        .push(operand_code(x.right)),
)
}

pub fn code_of_predicate(x: &Predicate) -> (r: Value)
    ensures
        r@ == predicate_code(*x),
    decreases x,
{
    let mut out = begin("Predicate");
    add_value(&mut out, Value::Text(x.left.clone()));
    add_value(&mut out, code_of_compare_op(&x.op));
    add_value(&mut out, code_of_operand(&x.right));
    Value::Array(out)
}

/// A list of parts: `Vec<Operand>`.
pub closed spec fn operands_code(v: Vec<Operand>) -> Val
    decreases v,
{
    Val::Array(
        Seq::new(
            v@.len(),
            |i: int|
                if 0 <= i < v@.len() {
                    operand_code(v@[i])
                } else {
                    Val::Null
                },
        ),
    )
}

fn code_of_operands(v: &Vec<Operand>) -> (r: Value)
    ensures
        r@ == operands_code(*v),
    decreases v,
{
    let mut out: Vec<Value> = Vec::new();
    let mut i: usize = 0;
    while i < v.len()
        invariant
            i <= v@.len(),
            out@.len() == i,
            forall|i: int| 0 <= i < out@.len() ==> (#[trigger] out@[i])@ == operand_code(v@[i]),
        decreases v@.len() - i,
    {
        assert(decreases_to!(v@ => v@[i as int]));
        out.push(code_of_operand(&v[i]));
        i = i + 1;
    }
    let ghost made = operands_code(*v);
    assert(made is Array);
    assert(vals(out@) =~= made->Array_0);
    Value::Array(out)
}

/// The form of a [`CompareOp`].
pub closed spec fn compare_op_code(x: CompareOp) -> Val
    decreases x,
{
    match x {
        CompareOp::Eq => Val::Array(tagged("Eq"@)),
        CompareOp::Ne => Val::Array(tagged("Ne"@)),
        CompareOp::Lt => Val::Array(tagged("Lt"@)),
        CompareOp::Le => Val::Array(tagged("Le"@)),
        CompareOp::Gt => Val::Array(tagged("Gt"@)),
        CompareOp::Ge => Val::Array(tagged("Ge"@)),
        CompareOp::Contains => Val::Array(tagged("Contains"@)),
        CompareOp::ContainedBy => Val::Array(tagged("ContainedBy"@)),
    }
}

pub fn code_of_compare_op(x: &CompareOp) -> (r: Value)
    ensures
        r@ == compare_op_code(*x),
    decreases x,
{
    match x {
        CompareOp::Eq => {
            let mut out = begin("Eq");
            Value::Array(out)
        },
        CompareOp::Ne => {
            let mut out = begin("Ne");
            Value::Array(out)
        },
        CompareOp::Lt => {
            let mut out = begin("Lt");
            Value::Array(out)
        },
        CompareOp::Le => {
            let mut out = begin("Le");
            Value::Array(out)
        },
        CompareOp::Gt => {
            let mut out = begin("Gt");
            Value::Array(out)
        },
        CompareOp::Ge => {
            let mut out = begin("Ge");
            Value::Array(out)
        },
        CompareOp::Contains => {
            let mut out = begin("Contains");
            Value::Array(out)
        },
        CompareOp::ContainedBy => {
            let mut out = begin("ContainedBy");
            Value::Array(out)
        },
    }
}

/// The form of a [`ScalarBinaryOp`].
pub closed spec fn scalar_binary_op_code(x: ScalarBinaryOp) -> Val
    decreases x,
{
    match x {
        ScalarBinaryOp::Add => Val::Array(tagged("Add"@)),
        ScalarBinaryOp::Sub => Val::Array(tagged("Sub"@)),
        ScalarBinaryOp::Mul => Val::Array(tagged("Mul"@)),
        ScalarBinaryOp::Div => Val::Array(tagged("Div"@)),
        ScalarBinaryOp::Mod => Val::Array(tagged("Mod"@)),
        ScalarBinaryOp::Eq => Val::Array(tagged("Eq"@)),
        ScalarBinaryOp::NotEq => Val::Array(tagged("NotEq"@)),
        ScalarBinaryOp::Lt => Val::Array(tagged("Lt"@)),
        ScalarBinaryOp::LtEq => Val::Array(tagged("LtEq"@)),
        ScalarBinaryOp::Gt => Val::Array(tagged("Gt"@)),
        ScalarBinaryOp::GtEq => Val::Array(tagged("GtEq"@)),
        ScalarBinaryOp::And => Val::Array(tagged("And"@)),
        ScalarBinaryOp::Or => Val::Array(tagged("Or"@)),
        ScalarBinaryOp::Concat => Val::Array(tagged("Concat"@)),
        ScalarBinaryOp::JsonGet => Val::Array(tagged("JsonGet"@)),
        ScalarBinaryOp::JsonGetText => Val::Array(tagged("JsonGetText"@)),
        ScalarBinaryOp::JsonPath => Val::Array(tagged("JsonPath"@)),
        ScalarBinaryOp::JsonPathText => Val::Array(tagged("JsonPathText"@)),
        ScalarBinaryOp::JsonHasKey => Val::Array(tagged("JsonHasKey"@)),
        ScalarBinaryOp::JsonHasAnyKey => Val::Array(tagged("JsonHasAnyKey"@)),
        ScalarBinaryOp::JsonHasAllKeys => Val::Array(tagged("JsonHasAllKeys"@)),
        ScalarBinaryOp::Contains => Val::Array(tagged("Contains"@)),
        ScalarBinaryOp::ContainedBy => Val::Array(tagged("ContainedBy"@)),
        ScalarBinaryOp::Overlap => Val::Array(tagged("Overlap"@)),
    }
}

pub fn code_of_scalar_binary_op(x: &ScalarBinaryOp) -> (r: Value)
    ensures
        r@ == scalar_binary_op_code(*x),
    decreases x,
{
    match x {
        ScalarBinaryOp::Add => {
            let mut out = begin("Add");
            Value::Array(out)
        },
        ScalarBinaryOp::Sub => {
            let mut out = begin("Sub");
            Value::Array(out)
        },
        ScalarBinaryOp::Mul => {
            let mut out = begin("Mul");
            Value::Array(out)
        },
        ScalarBinaryOp::Div => {
            let mut out = begin("Div");
            Value::Array(out)
        },
        ScalarBinaryOp::Mod => {
            let mut out = begin("Mod");
            Value::Array(out)
        },
        ScalarBinaryOp::Eq => {
            let mut out = begin("Eq");
            Value::Array(out)
        },
        ScalarBinaryOp::NotEq => {
            let mut out = begin("NotEq");
            Value::Array(out)
        },
        ScalarBinaryOp::Lt => {
            let mut out = begin("Lt");
            Value::Array(out)
        },
        ScalarBinaryOp::LtEq => {
            let mut out = begin("LtEq");
            Value::Array(out)
        },
        ScalarBinaryOp::Gt => {
            let mut out = begin("Gt");
            Value::Array(out)
        },
        ScalarBinaryOp::GtEq => {
            let mut out = begin("GtEq");
            Value::Array(out)
        },
        ScalarBinaryOp::And => {
            let mut out = begin("And");
            Value::Array(out)
        },
        ScalarBinaryOp::Or => {
            let mut out = begin("Or");
            Value::Array(out)
        },
        ScalarBinaryOp::Concat => {
            let mut out = begin("Concat");
            Value::Array(out)
        },
        ScalarBinaryOp::JsonGet => {
            let mut out = begin("JsonGet");
            Value::Array(out)
        },
        ScalarBinaryOp::JsonGetText => {
            let mut out = begin("JsonGetText");
            Value::Array(out)
        },
        ScalarBinaryOp::JsonPath => {
            let mut out = begin("JsonPath");
            Value::Array(out)
        },
        ScalarBinaryOp::JsonPathText => {
            let mut out = begin("JsonPathText");
            Value::Array(out)
        },
        ScalarBinaryOp::JsonHasKey => {
            let mut out = begin("JsonHasKey");
            Value::Array(out)
        },
        ScalarBinaryOp::JsonHasAnyKey => {
            let mut out = begin("JsonHasAnyKey");
            Value::Array(out)
        },
        ScalarBinaryOp::JsonHasAllKeys => {
            let mut out = begin("JsonHasAllKeys");
            Value::Array(out)
        },
        ScalarBinaryOp::Contains => {
            let mut out = begin("Contains");
            Value::Array(out)
        },
        ScalarBinaryOp::ContainedBy => {
            let mut out = begin("ContainedBy");
            Value::Array(out)
        },
        ScalarBinaryOp::Overlap => {
            let mut out = begin("Overlap");
            Value::Array(out)
        },
    }
}

/// The form of a [`DeferredItem`].
pub closed spec fn deferred_item_code(x: DeferredItem) -> Val
    decreases x,
{
    match x {
        DeferredItem::Scalar(a) => Val::Array(tagged("Scalar"@).push(expr_code(a))),
        DeferredItem::Subquery(a) => Val::Array(tagged("Subquery"@).push(plan_code(*a))),
        DeferredItem::Exists { plan, negated } => Val::Array(
            tagged("Exists"@)
                .push(plan_code(*plan))
                .push(Val::Bool(negated)),
        ),
    }
}

pub fn code_of_deferred_item(x: &DeferredItem) -> (r: Value)
    ensures
        r@ == deferred_item_code(*x),
    decreases x,
{
    match x {
        DeferredItem::Scalar(a) => {
            let mut out = begin("Scalar");
            add_value(&mut out, code_of_expr(a));
            Value::Array(out)
        },
        DeferredItem::Subquery(a) => {
            let mut out = begin("Subquery");
            add_value(&mut out, code_of_plan(a));
            Value::Array(out)
        },
        DeferredItem::Exists { plan, negated } => {
            let mut out = begin("Exists");
            add_value(&mut out, code_of_plan(plan));
            add_value(&mut out, Value::Bool(*negated));
            Value::Array(out)
        },
    }
}

/// A list of parts: `Vec<ScalarExpr>`.
pub closed spec fn exprs_code(v: Vec<ScalarExpr>) -> Val
    decreases v,
{
    Val::Array(
        Seq::new(
            v@.len(),
            |i: int|
                if 0 <= i < v@.len() {
                    expr_code(v@[i])
                } else {
                    Val::Null
                },
        ),
    )
}

fn code_of_exprs(v: &Vec<ScalarExpr>) -> (r: Value)
    ensures
        r@ == exprs_code(*v),
    decreases v,
{
    let mut out: Vec<Value> = Vec::new();
    let mut i: usize = 0;
    while i < v.len()
        invariant
            i <= v@.len(),
            out@.len() == i,
            forall|i: int| 0 <= i < out@.len() ==> (#[trigger] out@[i])@ == expr_code(v@[i]),
        decreases v@.len() - i,
    {
        assert(decreases_to!(v@ => v@[i as int]));
        out.push(code_of_expr(&v[i]));
        i = i + 1;
    }
    let ghost made = exprs_code(*v);
    assert(made is Array);
    assert(vals(out@) =~= made->Array_0);
    Value::Array(out)
}

/// A list of parts: `Vec<TableFnSpec>`.
pub closed spec fn table_fns_code(v: Vec<TableFnSpec>) -> Val
    decreases v,
{
    Val::Array(
        Seq::new(
            v@.len(),
            |i: int|
                if 0 <= i < v@.len() {
                    table_fn_code(v@[i])
                } else {
                    Val::Null
                },
        ),
    )
}

fn code_of_table_fns(v: &Vec<TableFnSpec>) -> (r: Value)
    ensures
        r@ == table_fns_code(*v),
    decreases v,
{
    let mut out: Vec<Value> = Vec::new();
    let mut i: usize = 0;
    while i < v.len()
        invariant
            i <= v@.len(),
            out@.len() == i,
            forall|i: int| 0 <= i < out@.len() ==> (#[trigger] out@[i])@ == table_fn_code(v@[i]),
        decreases v@.len() - i,
    {
        assert(decreases_to!(v@ => v@[i as int]));
        out.push(code_of_table_fn(&v[i]));
        i = i + 1;
    }
    let ghost made = table_fns_code(*v);
    assert(made is Array);
    assert(vals(out@) =~= made->Array_0);
    Value::Array(out)
}

/// The form of a [`MergeClause`].
pub closed spec fn merge_clause_code(x: MergeClause) -> Val
    decreases x,
{
    Val::Array(
    tagged("MergeClause"@)
        .push(merge_kind_code(x.kind))
        .push(
            match x.condition {
                Some(y) => given(filter_code(y)),
                None => missing(),
            },
        )
        .push(merge_action_code(x.action)),
)
}

pub fn code_of_merge_clause(x: &MergeClause) -> (r: Value)
    ensures
        r@ == merge_clause_code(*x),
    decreases x,
{
    let mut out = begin("MergeClause");
    add_value(&mut out, code_of_merge_kind(&x.kind));
    add_value(
        &mut out,
        match &x.condition {
            Some(y) => give(code_of_filter(y)),
            None => miss(),
        },
    );
    add_value(&mut out, code_of_merge_action(&x.action));
    Value::Array(out)
}

/// The form of a [`ReferentialAction`].
pub closed spec fn referential_action_code(x: ReferentialAction) -> Val
    decreases x,
{
    match x {
        ReferentialAction::NoAction => Val::Array(tagged("NoAction"@)),
        ReferentialAction::Restrict => Val::Array(tagged("Restrict"@)),
        ReferentialAction::Cascade => Val::Array(tagged("Cascade"@)),
        ReferentialAction::SetNull => Val::Array(tagged("SetNull"@)),
        ReferentialAction::SetDefault => Val::Array(tagged("SetDefault"@)),
    }
}

pub fn code_of_referential_action(x: &ReferentialAction) -> (r: Value)
    ensures
        r@ == referential_action_code(*x),
    decreases x,
{
    match x {
        ReferentialAction::NoAction => {
            let mut out = begin("NoAction");
            Value::Array(out)
        },
        ReferentialAction::Restrict => {
            let mut out = begin("Restrict");
            Value::Array(out)
        },
        ReferentialAction::Cascade => {
            let mut out = begin("Cascade");
            Value::Array(out)
        },
        ReferentialAction::SetNull => {
            let mut out = begin("SetNull");
            Value::Array(out)
        },
        ReferentialAction::SetDefault => {
            let mut out = begin("SetDefault");
            Value::Array(out)
        },
    }
}

/// The form of a [`ScalarUnaryOp`].
pub closed spec fn scalar_unary_op_code(x: ScalarUnaryOp) -> Val
    decreases x,
{
    match x {
        ScalarUnaryOp::Neg => Val::Array(tagged("Neg"@)),
        ScalarUnaryOp::Not => Val::Array(tagged("Not"@)),
    }
}

pub fn code_of_scalar_unary_op(x: &ScalarUnaryOp) -> (r: Value)
    ensures
        r@ == scalar_unary_op_code(*x),
    decreases x,
{
    match x {
        ScalarUnaryOp::Neg => {
            let mut out = begin("Neg");
            Value::Array(out)
        },
        ScalarUnaryOp::Not => {
            let mut out = begin("Not");
            Value::Array(out)
        },
    }
}

/// The form of a [`AggregateOp`].
pub closed spec fn aggregate_op_code(x: AggregateOp) -> Val
    decreases x,
{
    match x {
        AggregateOp::Count => Val::Array(tagged("Count"@)),
        AggregateOp::Sum => Val::Array(tagged("Sum"@)),
        AggregateOp::Min => Val::Array(tagged("Min"@)),
        AggregateOp::Max => Val::Array(tagged("Max"@)),
        AggregateOp::Avg => Val::Array(tagged("Avg"@)),
        AggregateOp::StringAgg => Val::Array(tagged("StringAgg"@)),
        AggregateOp::ArrayAgg => Val::Array(tagged("ArrayAgg"@)),
        AggregateOp::BoolAnd => Val::Array(tagged("BoolAnd"@)),
        AggregateOp::BoolOr => Val::Array(tagged("BoolOr"@)),
        AggregateOp::JsonAgg => Val::Array(tagged("JsonAgg"@)),
        AggregateOp::JsonbAgg => Val::Array(tagged("JsonbAgg"@)),
        AggregateOp::JsonObjectAgg => Val::Array(tagged("JsonObjectAgg"@)),
        AggregateOp::JsonbObjectAgg => Val::Array(tagged("JsonbObjectAgg"@)),
        AggregateOp::StddevSamp => Val::Array(tagged("StddevSamp"@)),
        AggregateOp::StddevPop => Val::Array(tagged("StddevPop"@)),
        AggregateOp::VarSamp => Val::Array(tagged("VarSamp"@)),
        AggregateOp::VarPop => Val::Array(tagged("VarPop"@)),
        AggregateOp::BitAnd => Val::Array(tagged("BitAnd"@)),
        AggregateOp::BitOr => Val::Array(tagged("BitOr"@)),
    }
}

pub fn code_of_aggregate_op(x: &AggregateOp) -> (r: Value)
    ensures
        r@ == aggregate_op_code(*x),
    decreases x,
{
    match x {
        AggregateOp::Count => {
            let mut out = begin("Count");
            Value::Array(out)
        },
        AggregateOp::Sum => {
            let mut out = begin("Sum");
            Value::Array(out)
        },
        AggregateOp::Min => {
            let mut out = begin("Min");
            Value::Array(out)
        },
        AggregateOp::Max => {
            let mut out = begin("Max");
            Value::Array(out)
        },
        AggregateOp::Avg => {
            let mut out = begin("Avg");
            Value::Array(out)
        },
        AggregateOp::StringAgg => {
            let mut out = begin("StringAgg");
            Value::Array(out)
        },
        AggregateOp::ArrayAgg => {
            let mut out = begin("ArrayAgg");
            Value::Array(out)
        },
        AggregateOp::BoolAnd => {
            let mut out = begin("BoolAnd");
            Value::Array(out)
        },
        AggregateOp::BoolOr => {
            let mut out = begin("BoolOr");
            Value::Array(out)
        },
        AggregateOp::JsonAgg => {
            let mut out = begin("JsonAgg");
            Value::Array(out)
        },
        AggregateOp::JsonbAgg => {
            let mut out = begin("JsonbAgg");
            Value::Array(out)
        },
        AggregateOp::JsonObjectAgg => {
            let mut out = begin("JsonObjectAgg");
            Value::Array(out)
        },
        AggregateOp::JsonbObjectAgg => {
            let mut out = begin("JsonbObjectAgg");
            Value::Array(out)
        },
        AggregateOp::StddevSamp => {
            let mut out = begin("StddevSamp");
            Value::Array(out)
        },
        AggregateOp::StddevPop => {
            let mut out = begin("StddevPop");
            Value::Array(out)
        },
        AggregateOp::VarSamp => {
            let mut out = begin("VarSamp");
            Value::Array(out)
        },
        AggregateOp::VarPop => {
            let mut out = begin("VarPop");
            Value::Array(out)
        },
        AggregateOp::BitAnd => {
            let mut out = begin("BitAnd");
            Value::Array(out)
        },
        AggregateOp::BitOr => {
            let mut out = begin("BitOr");
            Value::Array(out)
        },
    }
}

/// A list of parts: `Vec<(ScalarExpr, bool, Option<bool>)>`.
pub closed spec fn expr_flag_opt_flags_code(v: Vec<(ScalarExpr, bool, Option<bool>)>) -> Val
    decreases v,
{
    Val::Array(
        Seq::new(
            v@.len(),
            |i: int|
                if 0 <= i < v@.len() {
                    Val::Array(
                        untagged()
                            .push(expr_code(v@[i].0))
                            .push(Val::Bool(v@[i].1))
                            .push(
                                match v@[i].2 {
                                    Some(y) => given(Val::Bool(y)),
                                    None => missing(),
                                },
                            ),
                    )
                } else {
                    Val::Null
                },
        ),
    )
}

fn code_of_expr_flag_opt_flags(v: &Vec<(ScalarExpr, bool, Option<bool>)>) -> (r: Value)
    ensures
        r@ == expr_flag_opt_flags_code(*v),
    decreases v,
{
    let mut out: Vec<Value> = Vec::new();
    let mut i: usize = 0;
    while i < v.len()
        invariant
            i <= v@.len(),
            out@.len() == i,
            forall|i: int|
                0 <= i < out@.len() ==> (#[trigger] out@[i])@ == Val::Array(
                    untagged()
                        .push(expr_code(v@[i].0))
                        .push(Val::Bool(v@[i].1))
                        .push(
                            match v@[i].2 {
                                Some(y) => given(Val::Bool(y)),
                                None => missing(),
                            },
                        ),
                ),
        decreases v@.len() - i,
    {
        assert(decreases_to!(v@ => v@[i as int]));
        let mut pair = no_tag();
        add_value(&mut pair, code_of_expr(&v[i].0));
        add_value(&mut pair, Value::Bool(v[i].1));
        add_value(
            &mut pair,
            match &v[i].2 {
                Some(y) => give(Value::Bool(*y)),
                None => miss(),
            },
        );
        out.push(Value::Array(pair));
        i = i + 1;
    }
    let ghost made = expr_flag_opt_flags_code(*v);
    assert(made is Array);
    assert(vals(out@) =~= made->Array_0);
    Value::Array(out)
}

/// A list of parts: `Vec<(ScalarExpr, ScalarExpr)>`.
pub closed spec fn expr_exprs_code(v: Vec<(ScalarExpr, ScalarExpr)>) -> Val
    decreases v,
{
    Val::Array(
        Seq::new(
            v@.len(),
            |i: int|
                if 0 <= i < v@.len() {
                    Val::Array(
                        untagged()
                            .push(expr_code(v@[i].0))
                            .push(expr_code(v@[i].1)),
                    )
                } else {
                    Val::Null
                },
        ),
    )
}

fn code_of_expr_exprs(v: &Vec<(ScalarExpr, ScalarExpr)>) -> (r: Value)
    ensures
        r@ == expr_exprs_code(*v),
    decreases v,
{
    let mut out: Vec<Value> = Vec::new();
    let mut i: usize = 0;
    while i < v.len()
        invariant
            i <= v@.len(),
            out@.len() == i,
            forall|i: int|
                0 <= i < out@.len() ==> (#[trigger] out@[i])@ == Val::Array(
                    untagged()
                        .push(expr_code(v@[i].0))
                        .push(expr_code(v@[i].1)),
                ),
        decreases v@.len() - i,
    {
        assert(decreases_to!(v@ => v@[i as int]));
        let mut pair = no_tag();
        add_value(&mut pair, code_of_expr(&v[i].0));
        add_value(&mut pair, code_of_expr(&v[i].1));
        out.push(Value::Array(pair));
        i = i + 1;
    }
    let ghost made = expr_exprs_code(*v);
    assert(made is Array);
    assert(vals(out@) =~= made->Array_0);
    Value::Array(out)
}

/// The form of a [`PatternKind`].
pub closed spec fn pattern_kind_code(x: PatternKind) -> Val
    decreases x,
{
    match x {
        PatternKind::Like => Val::Array(tagged("Like"@)),
        PatternKind::SimilarTo => Val::Array(tagged("SimilarTo"@)),
        PatternKind::Regex => Val::Array(tagged("Regex"@)),
    }
}

pub fn code_of_pattern_kind(x: &PatternKind) -> (r: Value)
    ensures
        r@ == pattern_kind_code(*x),
    decreases x,
{
    match x {
        PatternKind::Like => {
            let mut out = begin("Like");
            Value::Array(out)
        },
        PatternKind::SimilarTo => {
            let mut out = begin("SimilarTo");
            Value::Array(out)
        },
        PatternKind::Regex => {
            let mut out = begin("Regex");
            Value::Array(out)
        },
    }
}

/// The form of a [`SubPlan`].
pub closed spec fn sub_plan_code(x: SubPlan) -> Val
    decreases x,
{
    Val::Array(tagged("SubPlan"@).push(plan_code(*x.0)))
}

pub fn code_of_sub_plan(x: &SubPlan) -> (r: Value)
    ensures
        r@ == sub_plan_code(*x),
    decreases x,
{
    let mut out = begin("SubPlan");
    add_value(&mut out, code_of_plan(&x.0));
    Value::Array(out)
}

/// The form of a [`SubqueryKind`].
pub closed spec fn subquery_kind_code(x: SubqueryKind) -> Val
    decreases x,
{
    match x {
        SubqueryKind::Scalar => Val::Array(tagged("Scalar"@)),
        SubqueryKind::Exists => Val::Array(tagged("Exists"@)),
        SubqueryKind::Array => Val::Array(tagged("Array"@)),
    }
}

pub fn code_of_subquery_kind(x: &SubqueryKind) -> (r: Value)
    ensures
        r@ == subquery_kind_code(*x),
    decreases x,
{
    match x {
        SubqueryKind::Scalar => {
            let mut out = begin("Scalar");
            Value::Array(out)
        },
        SubqueryKind::Exists => {
            let mut out = begin("Exists");
            Value::Array(out)
        },
        SubqueryKind::Array => {
            let mut out = begin("Array");
            Value::Array(out)
        },
    }
}

/// The form of a [`Join`].
pub closed spec fn join_code(x: Join) -> Val
    decreases x,
{
    Val::Array(
    tagged("Join"@)
        .push(Val::Text(x.table_name@))
        .push(
            match x.table_alias {
                Some(y) => given(Val::Text(y@)),
                None => missing(),
            },
        )
        .push(
            match x.condition {
                Some(y) => given(filter_code(y)),
                None => missing(),
            },
        )
        .push(join_type_code(x.join_type))
        .push(
            match x.table_fn {
                Some(y) => given(table_fn_code(y)),
                None => missing(),
            },
        )
        .push(names_val(texts(x.using_columns@)))
        .push(Val::Bool(x.natural))
        .push(
            match x.lateral {
                Some(y) => given(plan_code(*y)),
                None => missing(),
            },
        ),
)
}

pub fn code_of_join(x: &Join) -> (r: Value)
    ensures
        r@ == join_code(*x),
    decreases x,
{
    let mut out = begin("Join");
    add_value(&mut out, Value::Text(x.table_name.clone()));
    add_value(
        &mut out,
        match &x.table_alias {
            Some(y) => give(Value::Text(y.clone())),
            None => miss(),
        },
    );
    add_value(
        &mut out,
        match &x.condition {
            Some(y) => give(code_of_filter(y)),
            None => miss(),
        },
    );
    add_value(&mut out, code_of_join_type(&x.join_type));
    add_value(
        &mut out,
        match &x.table_fn {
            Some(y) => give(code_of_table_fn(y)),
            None => miss(),
        },
    );
    add_value(&mut out, names_value(&x.using_columns));
    add_value(&mut out, Value::Bool(x.natural));
    add_value(
        &mut out,
        match &x.lateral {
            Some(y) => give(code_of_plan(y)),
            None => miss(),
        },
    );
    Value::Array(out)
}

/// The form of a [`ProjectionItem`].
pub closed spec fn item_code(x: ProjectionItem) -> Val
    decreases x,
{
    match x {
        ProjectionItem::Column(a) => Val::Array(tagged("Column"@).push(Val::Text(a@))),
        ProjectionItem::AliasedColumn(a, b) => Val::Array(
            tagged("AliasedColumn"@)
                .push(Val::Text(a@))
                .push(Val::Text(b@)),
        ),
        ProjectionItem::Aggregate(a, b) => Val::Array(
            tagged("Aggregate"@)
                .push(aggregate_op_code(a))
                .push(Val::Text(b@)),
        ),
        ProjectionItem::ScalarFunction { func_name, args, alias } => Val::Array(
            tagged("ScalarFunction"@)
                .push(Val::Text(func_name@))
                .push(names_val(texts(args@)))
                .push(
                    match alias {
                        Some(y) => given(Val::Text(y@)),
                        None => missing(),
                    },
                ),
        ),
        ProjectionItem::JsonAccess { left, operator, right, alias } => Val::Array(
            tagged("JsonAccess"@)
                .push(Val::Text(left@))
                .push(Val::Text(operator@))
                .push(Val::Text(right@))
                .push(
                    match alias {
                        Some(y) => given(Val::Text(y@)),
                        None => missing(),
                    },
                ),
        ),
        ProjectionItem::CaseWhenEq {
            left,
            equals,
            then_value,
            then_column,
            else_column,
            alias,
        } => Val::Array(
            tagged("CaseWhenEq"@)
                .push(Val::Text(left@))
                .push(equals@)
                .push(then_value@)
                .push(
                    match then_column {
                        Some(y) => given(Val::Text(y@)),
                        None => missing(),
                    },
                )
                .push(Val::Text(else_column@))
                .push(
                    match alias {
                        Some(y) => given(Val::Text(y@)),
                        None => missing(),
                    },
                ),
        ),
        ProjectionItem::Case { branches, else_result, alias } => Val::Array(
            tagged("Case"@)
                .push(predicate_operands_code(branches))
                .push(
                    match else_result {
                        Some(y) => given(operand_code(y)),
                        None => missing(),
                    },
                )
                .push(
                    match alias {
                        Some(y) => given(Val::Text(y@)),
                        None => missing(),
                    },
                ),
        ),
        ProjectionItem::WindowFunction {
            func_name,
            args,
            partition_by,
            order_by,
            alias,
            frame,
        } => Val::Array(
            tagged("WindowFunction"@)
                .push(Val::Text(func_name@))
                .push(names_val(texts(args@)))
                .push(names_val(texts(partition_by@)))
                .push(text_flags_code(order_by))
                .push(
                    match alias {
                        Some(y) => given(Val::Text(y@)),
                        None => missing(),
                    },
                )
                .push(
                    match frame {
                        Some(y) => given(window_frame_code(y)),
                        None => missing(),
                    },
                ),
        ),
        ProjectionItem::Literal(a) => Val::Array(tagged("Literal"@).push(a@)),
        ProjectionItem::AliasedLiteral(a, b) => Val::Array(
            tagged("AliasedLiteral"@)
                .push(a@)
                .push(Val::Text(b@)),
        ),
        ProjectionItem::Expr { expr, alias } => Val::Array(
            tagged("Expr"@)
                .push(expr_code(expr))
                .push(
                    match alias {
                        Some(y) => given(Val::Text(y@)),
                        None => missing(),
                    },
                ),
        ),
        ProjectionItem::Subquery { plan, alias } => Val::Array(
            tagged("Subquery"@)
                .push(plan_code(*plan))
                .push(
                    match alias {
                        Some(y) => given(Val::Text(y@)),
                        None => missing(),
                    },
                ),
        ),
    }
}

pub fn code_of_item(x: &ProjectionItem) -> (r: Value)
    ensures
        r@ == item_code(*x),
    decreases x,
{
    match x {
        ProjectionItem::Column(a) => {
            let mut out = begin("Column");
            add_value(&mut out, Value::Text(a.clone()));
            Value::Array(out)
        },
        ProjectionItem::AliasedColumn(a, b) => {
            let mut out = begin("AliasedColumn");
            add_value(&mut out, Value::Text(a.clone()));
            add_value(&mut out, Value::Text(b.clone()));
            Value::Array(out)
        },
        ProjectionItem::Aggregate(a, b) => {
            let mut out = begin("Aggregate");
            add_value(&mut out, code_of_aggregate_op(a));
            add_value(&mut out, Value::Text(b.clone()));
            Value::Array(out)
        },
        ProjectionItem::ScalarFunction { func_name, args, alias } => {
            let mut out = begin("ScalarFunction");
            add_value(&mut out, Value::Text(func_name.clone()));
            add_value(&mut out, names_value(args));
            add_value(
                &mut out,
                match alias {
                    Some(y) => give(Value::Text(y.clone())),
                    None => miss(),
                },
            );
            Value::Array(out)
        },
        ProjectionItem::JsonAccess { left, operator, right, alias } => {
            let mut out = begin("JsonAccess");
            add_value(&mut out, Value::Text(left.clone()));
            add_value(&mut out, Value::Text(operator.clone()));
            add_value(&mut out, Value::Text(right.clone()));
            add_value(
                &mut out,
                match alias {
                    Some(y) => give(Value::Text(y.clone())),
                    None => miss(),
                },
            );
            Value::Array(out)
        },
        ProjectionItem::CaseWhenEq {
            left,
            equals,
            then_value,
            then_column,
            else_column,
            alias,
        } => {
            let mut out = begin("CaseWhenEq");
            add_value(&mut out, Value::Text(left.clone()));
            add_value(&mut out, equals.duplicate());
            add_value(&mut out, then_value.duplicate());
            add_value(
                &mut out,
                match then_column {
                    Some(y) => give(Value::Text(y.clone())),
                    None => miss(),
                },
            );
            add_value(&mut out, Value::Text(else_column.clone()));
            add_value(
                &mut out,
                match alias {
                    Some(y) => give(Value::Text(y.clone())),
                    None => miss(),
                },
            );
            Value::Array(out)
        },
        ProjectionItem::Case { branches, else_result, alias } => {
            let mut out = begin("Case");
            add_value(&mut out, code_of_predicate_operands(branches));
            add_value(
                &mut out,
                match else_result {
                    Some(y) => give(code_of_operand(y)),
                    None => miss(),
                },
            );
            add_value(
                &mut out,
                match alias {
                    Some(y) => give(Value::Text(y.clone())),
                    None => miss(),
                },
            );
            Value::Array(out)
        },
        ProjectionItem::WindowFunction {
            func_name,
            args,
            partition_by,
            order_by,
            alias,
            frame,
        } => {
            let mut out = begin("WindowFunction");
            add_value(&mut out, Value::Text(func_name.clone()));
            add_value(&mut out, names_value(args));
            add_value(&mut out, names_value(partition_by));
            add_value(&mut out, code_of_text_flags(order_by));
            add_value(
                &mut out,
                match alias {
                    Some(y) => give(Value::Text(y.clone())),
                    None => miss(),
                },
            );
            add_value(
                &mut out,
                match frame {
                    Some(y) => give(code_of_window_frame(y)),
                    None => miss(),
                },
            );
            Value::Array(out)
        },
        ProjectionItem::Literal(a) => {
            let mut out = begin("Literal");
            add_value(&mut out, a.duplicate());
            Value::Array(out)
        },
        ProjectionItem::AliasedLiteral(a, b) => {
            let mut out = begin("AliasedLiteral");
            add_value(&mut out, a.duplicate());
            add_value(&mut out, Value::Text(b.clone()));
            Value::Array(out)
        },
        ProjectionItem::Expr { expr, alias } => {
            let mut out = begin("Expr");
            add_value(&mut out, code_of_expr(expr));
            add_value(
                &mut out,
                match alias {
                    Some(y) => give(Value::Text(y.clone())),
                    None => miss(),
                },
            );
            Value::Array(out)
        },
        ProjectionItem::Subquery { plan, alias } => {
            let mut out = begin("Subquery");
            add_value(&mut out, code_of_plan(plan));
            add_value(
                &mut out,
                match alias {
                    Some(y) => give(Value::Text(y.clone())),
                    None => miss(),
                },
            );
            Value::Array(out)
        },
    }
}

/// The form of a [`SortKey`].
pub closed spec fn sort_key_code(x: SortKey) -> Val
    decreases x,
{
    Val::Array(
    tagged("SortKey"@)
        .push(sort_target_code(x.target))
        .push(Val::Bool(x.ascending))
        .push(
            match x.nulls_first {
                Some(y) => given(Val::Bool(y)),
                None => missing(),
            },
        ),
)
}

pub fn code_of_sort_key(x: &SortKey) -> (r: Value)
    ensures
        r@ == sort_key_code(*x),
    decreases x,
{
    let mut out = begin("SortKey");
    add_value(&mut out, code_of_sort_target(&x.target));
    add_value(&mut out, Value::Bool(x.ascending));
    add_value(
        &mut out,
        match &x.nulls_first {
            Some(y) => give(Value::Bool(*y)),
            None => miss(),
        },
    );
    Value::Array(out)
}

/// The form of a [`SortTarget`].
pub closed spec fn sort_target_code(x: SortTarget) -> Val
    decreases x,
{
    match x {
        SortTarget::Output(a) => Val::Array(
            tagged("Output"@)
                .push(Val::Text(decimal(a as int))),
        ),
        SortTarget::Name(a) => Val::Array(tagged("Name"@).push(Val::Text(a@))),
        SortTarget::Expr(a) => Val::Array(tagged("Expr"@).push(expr_code(a))),
    }
}

pub fn code_of_sort_target(x: &SortTarget) -> (r: Value)
    ensures
        r@ == sort_target_code(*x),
    decreases x,
{
    match x {
        SortTarget::Output(a) => {
            let mut out = begin("Output");
            add_value(&mut out, Value::Text(size_text(*a)));
            Value::Array(out)
        },
        SortTarget::Name(a) => {
            let mut out = begin("Name");
            add_value(&mut out, Value::Text(a.clone()));
            Value::Array(out)
        },
        SortTarget::Expr(a) => {
            let mut out = begin("Expr");
            add_value(&mut out, code_of_expr(a));
            Value::Array(out)
        },
    }
}

/// The form of a [`Operand`].
pub closed spec fn operand_code(x: Operand) -> Val
    decreases x,
{
    match x {
        Operand::Literal(a) => Val::Array(tagged("Literal"@).push(a@)),
        Operand::Ident(a) => Val::Array(tagged("Ident"@).push(Val::Text(a@))),
    }
}

pub fn code_of_operand(x: &Operand) -> (r: Value)
    ensures
        r@ == operand_code(*x),
    decreases x,
{
    match x {
        Operand::Literal(a) => {
            let mut out = begin("Literal");
            add_value(&mut out, a.duplicate());
            Value::Array(out)
        },
        Operand::Ident(a) => {
            let mut out = begin("Ident");
            add_value(&mut out, Value::Text(a.clone()));
            Value::Array(out)
        },
    }
}

/// The form of a [`MergeKind`].
pub closed spec fn merge_kind_code(x: MergeKind) -> Val
    decreases x,
{
    match x {
        MergeKind::Matched => Val::Array(tagged("Matched"@)),
        MergeKind::NotMatchedBySource => Val::Array(tagged("NotMatchedBySource"@)),
        MergeKind::NotMatchedByTarget => Val::Array(tagged("NotMatchedByTarget"@)),
    }
}

pub fn code_of_merge_kind(x: &MergeKind) -> (r: Value)
    ensures
        r@ == merge_kind_code(*x),
    decreases x,
{
    match x {
        MergeKind::Matched => {
            let mut out = begin("Matched");
            Value::Array(out)
        },
        MergeKind::NotMatchedBySource => {
            let mut out = begin("NotMatchedBySource");
            Value::Array(out)
        },
        MergeKind::NotMatchedByTarget => {
            let mut out = begin("NotMatchedByTarget");
            Value::Array(out)
        },
    }
}

/// The form of a [`MergeAction`].
pub closed spec fn merge_action_code(x: MergeAction) -> Val
    decreases x,
{
    match x {
        MergeAction::Update(a) => Val::Array(tagged("Update"@).push(text_exprs_code(a))),
        MergeAction::Delete => Val::Array(tagged("Delete"@)),
        MergeAction::Insert { columns, values } => Val::Array(
            tagged("Insert"@)
                .push(names_val(texts(columns@)))
                .push(opt_exprs_code(values)),
        ),
        MergeAction::Nothing => Val::Array(tagged("Nothing"@)),
    }
}

pub fn code_of_merge_action(x: &MergeAction) -> (r: Value)
    ensures
        r@ == merge_action_code(*x),
    decreases x,
{
    match x {
        MergeAction::Update(a) => {
            let mut out = begin("Update");
            add_value(&mut out, code_of_text_exprs(a));
            Value::Array(out)
        },
        MergeAction::Delete => {
            let mut out = begin("Delete");
            Value::Array(out)
        },
        MergeAction::Insert { columns, values } => {
            let mut out = begin("Insert");
            add_value(&mut out, names_value(columns));
            add_value(&mut out, code_of_opt_exprs(values));
            Value::Array(out)
        },
        MergeAction::Nothing => {
            let mut out = begin("Nothing");
            Value::Array(out)
        },
    }
}

/// The form of a [`JoinType`].
pub closed spec fn join_type_code(x: JoinType) -> Val
    decreases x,
{
    match x {
        JoinType::Inner => Val::Array(tagged("Inner"@)),
        JoinType::LeftOuter => Val::Array(tagged("LeftOuter"@)),
        JoinType::RightOuter => Val::Array(tagged("RightOuter"@)),
        JoinType::FullOuter => Val::Array(tagged("FullOuter"@)),
        JoinType::Cross => Val::Array(tagged("Cross"@)),
    }
}

pub fn code_of_join_type(x: &JoinType) -> (r: Value)
    ensures
        r@ == join_type_code(*x),
    decreases x,
{
    match x {
        JoinType::Inner => {
            let mut out = begin("Inner");
            Value::Array(out)
        },
        JoinType::LeftOuter => {
            let mut out = begin("LeftOuter");
            Value::Array(out)
        },
        JoinType::RightOuter => {
            let mut out = begin("RightOuter");
            Value::Array(out)
        },
        JoinType::FullOuter => {
            let mut out = begin("FullOuter");
            Value::Array(out)
        },
        JoinType::Cross => {
            let mut out = begin("Cross");
            Value::Array(out)
        },
    }
}

/// A list of parts: `Vec<(Predicate, Operand)>`.
pub closed spec fn predicate_operands_code(v: Vec<(Predicate, Operand)>) -> Val
    decreases v,
{
    Val::Array(
        Seq::new(
            v@.len(),
            |i: int|
                if 0 <= i < v@.len() {
                    Val::Array(
                        untagged()
                            .push(predicate_code(v@[i].0))
                            .push(operand_code(v@[i].1)),
                    )
                } else {
                    Val::Null
                },
        ),
    )
}

fn code_of_predicate_operands(v: &Vec<(Predicate, Operand)>) -> (r: Value)
    ensures
        r@ == predicate_operands_code(*v),
    decreases v,
{
    let mut out: Vec<Value> = Vec::new();
    let mut i: usize = 0;
    while i < v.len()
        invariant
            i <= v@.len(),
            out@.len() == i,
            forall|i: int|
                0 <= i < out@.len() ==> (#[trigger] out@[i])@ == Val::Array(
                    untagged()
                        .push(predicate_code(v@[i].0))
                        .push(operand_code(v@[i].1)),
                ),
        decreases v@.len() - i,
    {
        assert(decreases_to!(v@ => v@[i as int]));
        let mut pair = no_tag();
        add_value(&mut pair, code_of_predicate(&v[i].0));
        add_value(&mut pair, code_of_operand(&v[i].1));
        out.push(Value::Array(pair));
        i = i + 1;
    }
    let ghost made = predicate_operands_code(*v);
    assert(made is Array);
    assert(vals(out@) =~= made->Array_0);
    Value::Array(out)
}

/// A list of parts: `Vec<(String, bool)>`.
pub closed spec fn text_flags_code(v: Vec<(String, bool)>) -> Val
    decreases v,
{
    Val::Array(
        Seq::new(
            v@.len(),
            |i: int|
                if 0 <= i < v@.len() {
                    Val::Array(
                        untagged()
                            .push(Val::Text(v@[i].0@))
                            .push(Val::Bool(v@[i].1)),
                    )
                } else {
                    Val::Null
                },
        ),
    )
}

fn code_of_text_flags(v: &Vec<(String, bool)>) -> (r: Value)
    ensures
        r@ == text_flags_code(*v),
    decreases v,
{
    let mut out: Vec<Value> = Vec::new();
    let mut i: usize = 0;
    while i < v.len()
        invariant
            i <= v@.len(),
            out@.len() == i,
            forall|i: int|
                0 <= i < out@.len() ==> (#[trigger] out@[i])@ == Val::Array(
                    untagged()
                        .push(Val::Text(v@[i].0@))
                        .push(Val::Bool(v@[i].1)),
                ),
        decreases v@.len() - i,
    {
        assert(decreases_to!(v@ => v@[i as int]));
        let mut pair = no_tag();
        add_value(&mut pair, Value::Text(v[i].0.clone()));
        add_value(&mut pair, Value::Bool(v[i].1));
        out.push(Value::Array(pair));
        i = i + 1;
    }
    let ghost made = text_flags_code(*v);
    assert(made is Array);
    assert(vals(out@) =~= made->Array_0);
    Value::Array(out)
}

/// The form of a [`WindowFrame`].
pub closed spec fn window_frame_code(x: WindowFrame) -> Val
    decreases x,
{
    Val::Array(
    tagged("WindowFrame"@)
        .push(window_frame_units_code(x.units))
        .push(window_bound_code(x.start))
        .push(window_bound_code(x.end)),
)
}

pub fn code_of_window_frame(x: &WindowFrame) -> (r: Value)
    ensures
        r@ == window_frame_code(*x),
    decreases x,
{
    let mut out = begin("WindowFrame");
    add_value(&mut out, code_of_window_frame_units(&x.units));
    add_value(&mut out, code_of_window_bound(&x.start));
    add_value(&mut out, code_of_window_bound(&x.end));
    Value::Array(out)
}

/// A list of parts: `Vec<Option<ScalarExpr>>`.
pub closed spec fn opt_exprs_code(v: Vec<Option<ScalarExpr>>) -> Val
    decreases v,
{
    Val::Array(
        Seq::new(
            v@.len(),
            |i: int|
                if 0 <= i < v@.len() {
                    match v@[i] { Some(y) => given(expr_code(y)), None => missing() }
                } else {
                    Val::Null
                },
        ),
    )
}

fn code_of_opt_exprs(v: &Vec<Option<ScalarExpr>>) -> (r: Value)
    ensures
        r@ == opt_exprs_code(*v),
    decreases v,
{
    let mut out: Vec<Value> = Vec::new();
    let mut i: usize = 0;
    while i < v.len()
        invariant
            i <= v@.len(),
            out@.len() == i,
            forall|i: int|
                0 <= i < out@.len() ==> (#[trigger] out@[i])@ == match v@[i] {
                    Some(y) => given(expr_code(y)),
                    None => missing(),
                },
        decreases v@.len() - i,
    {
        assert(decreases_to!(v@ => v@[i as int]));
        out.push(
            match &v[i] {
                Some(y) => give(code_of_expr(y)),
                None => miss(),
            },
        );
        i = i + 1;
    }
    let ghost made = opt_exprs_code(*v);
    assert(made is Array);
    assert(vals(out@) =~= made->Array_0);
    Value::Array(out)
}

/// The form of a [`WindowFrameUnits`].
pub closed spec fn window_frame_units_code(x: WindowFrameUnits) -> Val
    decreases x,
{
    match x {
        WindowFrameUnits::Rows => Val::Array(tagged("Rows"@)),
        WindowFrameUnits::Range => Val::Array(tagged("Range"@)),
    }
}

pub fn code_of_window_frame_units(x: &WindowFrameUnits) -> (r: Value)
    ensures
        r@ == window_frame_units_code(*x),
    decreases x,
{
    match x {
        WindowFrameUnits::Rows => {
            let mut out = begin("Rows");
            Value::Array(out)
        },
        WindowFrameUnits::Range => {
            let mut out = begin("Range");
            Value::Array(out)
        },
    }
}

/// The form of a [`WindowBound`].
pub closed spec fn window_bound_code(x: WindowBound) -> Val
    decreases x,
{
    match x {
        WindowBound::UnboundedPreceding => Val::Array(tagged("UnboundedPreceding"@)),
        WindowBound::Preceding(a) => Val::Array(tagged("Preceding"@).push(Val::Int(a))),
        WindowBound::CurrentRow => Val::Array(tagged("CurrentRow"@)),
        WindowBound::Following(a) => Val::Array(tagged("Following"@).push(Val::Int(a))),
        WindowBound::UnboundedFollowing => Val::Array(tagged("UnboundedFollowing"@)),
    }
}

pub fn code_of_window_bound(x: &WindowBound) -> (r: Value)
    ensures
        r@ == window_bound_code(*x),
    decreases x,
{
    match x {
        WindowBound::UnboundedPreceding => {
            let mut out = begin("UnboundedPreceding");
            Value::Array(out)
        },
        WindowBound::Preceding(a) => {
            let mut out = begin("Preceding");
            add_value(&mut out, Value::Int(*a));
            Value::Array(out)
        },
        WindowBound::CurrentRow => {
            let mut out = begin("CurrentRow");
            Value::Array(out)
        },
        WindowBound::Following(a) => {
            let mut out = begin("Following");
            add_value(&mut out, Value::Int(*a));
            Value::Array(out)
        },
        WindowBound::UnboundedFollowing => {
            let mut out = begin("UnboundedFollowing");
            Value::Array(out)
        },
    }
}

/// The form of a condition that is a single comparison.
pub fn code_of_comparison(p: &Predicate) -> (r: Value)
    ensures
        r@ == filter_code(FilterExpr::Predicate(*p)),
{
    let mut out = begin("Predicate");
    add_value(&mut out, code_of_predicate(p));
    Value::Array(out)
}

// ---------------------------------------------------------------------------
// Laws
// ---------------------------------------------------------------------------

/// The kind of a [`ScalarExpr`], by its position.
spec fn expr_kind(x: ScalarExpr) -> int {
    match x {
        ScalarExpr::Literal(..) => 0,
        ScalarExpr::Column(..) => 1,
        ScalarExpr::Unary { .. } => 2,
        ScalarExpr::Binary { .. } => 3,
        ScalarExpr::Cast { .. } => 4,
        ScalarExpr::Function { .. } => 5,
        ScalarExpr::IsNull { .. } => 6,
        ScalarExpr::Extract { .. } => 7,
        ScalarExpr::Aggregate { .. } => 8,
        ScalarExpr::DateOffset { .. } => 9,
        ScalarExpr::Case { .. } => 10,
        ScalarExpr::PatternMatch { .. } => 11,
        ScalarExpr::IsDistinctFrom { .. } => 12,
        ScalarExpr::IsBool { .. } => 13,
        ScalarExpr::InList { .. } => 14,
        ScalarExpr::Quantified { .. } => 15,
        ScalarExpr::Row(..) => 16,
        ScalarExpr::Subquery { .. } => 17,
    }
}

proof fn lemma_expr_kind(a: ScalarExpr, b: ScalarExpr)
    requires
        expr_code(a) == expr_code(b),
    ensures
        expr_kind(a) == expr_kind(b),
{
    reveal_strlit("Literal");
    reveal_strlit("Column");
    reveal_strlit("Unary");
    reveal_strlit("Binary");
    reveal_strlit("Cast");
    reveal_strlit("Function");
    reveal_strlit("IsNull");
    reveal_strlit("Extract");
    reveal_strlit("Aggregate");
    reveal_strlit("DateOffset");
    reveal_strlit("Case");
    reveal_strlit("PatternMatch");
    reveal_strlit("IsDistinctFrom");
    reveal_strlit("IsBool");
    reveal_strlit("InList");
    reveal_strlit("Quantified");
    reveal_strlit("Row");
    reveal_strlit("Subquery");
    let x = expr_code(a)->Array_0;
    let y = expr_code(b)->Array_0;
    assert(x[0] == y[0]);
    let s = x[0]->Text_0;
    let t = y[0]->Text_0;
    assert(expr_kind(a) == 0 ==> s.len() == 7 && s[2] == 't' && s[6] == 'l');
    assert(expr_kind(b) == 0 ==> t.len() == 7 && t[2] == 't' && t[6] == 'l');
    assert(expr_kind(a) == 1 ==> s.len() == 6 && s[2] == 'l' && s[5] == 'n');
    assert(expr_kind(b) == 1 ==> t.len() == 6 && t[2] == 'l' && t[5] == 'n');
    assert(expr_kind(a) == 2 ==> s.len() == 5 && s[2] == 'a' && s[4] == 'y');
    assert(expr_kind(b) == 2 ==> t.len() == 5 && t[2] == 'a' && t[4] == 'y');
    assert(expr_kind(a) == 3 ==> s.len() == 6 && s[2] == 'n' && s[5] == 'y');
    assert(expr_kind(b) == 3 ==> t.len() == 6 && t[2] == 'n' && t[5] == 'y');
    assert(expr_kind(a) == 4 ==> s.len() == 4 && s[2] == 's' && s[3] == 't');
    assert(expr_kind(b) == 4 ==> t.len() == 4 && t[2] == 's' && t[3] == 't');
    assert(expr_kind(a) == 5 ==> s.len() == 8 && s[2] == 'n' && s[7] == 'n');
    assert(expr_kind(b) == 5 ==> t.len() == 8 && t[2] == 'n' && t[7] == 'n');
    assert(expr_kind(a) == 6 ==> s.len() == 6 && s[2] == 'N' && s[5] == 'l');
    assert(expr_kind(b) == 6 ==> t.len() == 6 && t[2] == 'N' && t[5] == 'l');
    assert(expr_kind(a) == 7 ==> s.len() == 7 && s[2] == 't' && s[6] == 't');
    assert(expr_kind(b) == 7 ==> t.len() == 7 && t[2] == 't' && t[6] == 't');
    assert(expr_kind(a) == 8 ==> s.len() == 9 && s[2] == 'g' && s[8] == 'e');
    assert(expr_kind(b) == 8 ==> t.len() == 9 && t[2] == 'g' && t[8] == 'e');
    assert(expr_kind(a) == 9 ==> s.len() == 10 && s[2] == 't' && s[9] == 't');
    assert(expr_kind(b) == 9 ==> t.len() == 10 && t[2] == 't' && t[9] == 't');
    assert(expr_kind(a) == 10 ==> s.len() == 4 && s[2] == 's' && s[3] == 'e');
    assert(expr_kind(b) == 10 ==> t.len() == 4 && t[2] == 's' && t[3] == 'e');
    assert(expr_kind(a) == 11 ==> s.len() == 12 && s[2] == 't' && s[11] == 'h');
    assert(expr_kind(b) == 11 ==> t.len() == 12 && t[2] == 't' && t[11] == 'h');
    assert(expr_kind(a) == 12 ==> s.len() == 14 && s[2] == 'D' && s[13] == 'm');
    assert(expr_kind(b) == 12 ==> t.len() == 14 && t[2] == 'D' && t[13] == 'm');
    assert(expr_kind(a) == 13 ==> s.len() == 6 && s[2] == 'B' && s[5] == 'l');
    assert(expr_kind(b) == 13 ==> t.len() == 6 && t[2] == 'B' && t[5] == 'l');
    assert(expr_kind(a) == 14 ==> s.len() == 6 && s[2] == 'L' && s[5] == 't');
    assert(expr_kind(b) == 14 ==> t.len() == 6 && t[2] == 'L' && t[5] == 't');
    assert(expr_kind(a) == 15 ==> s.len() == 10 && s[2] == 'a' && s[9] == 'd');
    assert(expr_kind(b) == 15 ==> t.len() == 10 && t[2] == 'a' && t[9] == 'd');
    assert(expr_kind(a) == 16 ==> s.len() == 3 && s[2] == 'w' && s[2] == 'w');
    assert(expr_kind(b) == 16 ==> t.len() == 3 && t[2] == 'w' && t[2] == 'w');
    assert(expr_kind(a) == 17 ==> s.len() == 8 && s[2] == 'b' && s[7] == 'y');
    assert(expr_kind(b) == 17 ==> t.len() == 8 && t[2] == 'b' && t[7] == 'y');
}

/// Expressions with one code are of one kind, and have the same parts.
pub proof fn law_expr_codes_tell_apart(a: ScalarExpr, b: ScalarExpr)
    requires
        expr_code(a) == expr_code(b),
    ensures
        match (a, b) {
            (ScalarExpr::Literal(u), ScalarExpr::Literal(w)) => u@ == w@,
            (ScalarExpr::Column(u), ScalarExpr::Column(w)) => u@ == w@,
            (
                ScalarExpr::Unary { op, expr },
                ScalarExpr::Unary { op: other_op, expr: other_expr },
            ) => {
                &&& op == other_op
                &&& expr_code(*expr) == expr_code(*other_expr)
            },
            (
                ScalarExpr::Binary { op, left, right },
                ScalarExpr::Binary { op: other_op, left: other_left, right: other_right },
            ) => {
                &&& op == other_op
                &&& expr_code(*left) == expr_code(*other_left)
                &&& expr_code(*right) == expr_code(*other_right)
            },
            (
                ScalarExpr::Cast { expr, target },
                ScalarExpr::Cast { expr: other_expr, target: other_target },
            ) => {
                &&& expr_code(*expr) == expr_code(*other_expr)
                &&& target@ == other_target@
            },
            (
                ScalarExpr::Function { name, args },
                ScalarExpr::Function { name: other_name, args: other_args },
            ) => {
                &&& name@ == other_name@
                &&& exprs_code(args) == exprs_code(other_args)
            },
            (
                ScalarExpr::IsNull { expr, negated },
                ScalarExpr::IsNull { expr: other_expr, negated: other_negated },
            ) => {
                &&& expr_code(*expr) == expr_code(*other_expr)
                &&& negated == other_negated
            },
            (
                ScalarExpr::Extract { field, expr },
                ScalarExpr::Extract { field: other_field, expr: other_expr },
            ) => {
                &&& field@ == other_field@
                &&& expr_code(*expr) == expr_code(*other_expr)
            },
            (
                ScalarExpr::Aggregate { op, arg, arg_expr, distinct, extra_args, filter, order_by },
                ScalarExpr::Aggregate {
                    op: other_op,
                    arg: other_arg,
                    arg_expr: other_arg_expr,
                    distinct: other_distinct,
                    extra_args: other_extra_args,
                    filter: other_filter,
                    order_by: other_order_by,
                },
            ) => {
                &&& op == other_op
                &&& arg@ == other_arg@
                &&& match (arg_expr, other_arg_expr) {
                    (Some(v), Some(w)) => expr_code(*v) == expr_code(*w),
                    (None, None) => true,
                    _ => false,
                }
                &&& distinct == other_distinct
                &&& exprs_code(extra_args) == exprs_code(other_extra_args)
                &&& match (filter, other_filter) {
                    (Some(v), Some(w)) => expr_code(*v) == expr_code(*w),
                    (None, None) => true,
                    _ => false,
                }
                &&& expr_flag_opt_flags_code(order_by) == expr_flag_opt_flags_code(other_order_by)
            },
            (
                ScalarExpr::DateOffset { base, months, days, seconds },
                ScalarExpr::DateOffset {
                    base: other_base,
                    months: other_months,
                    days: other_days,
                    seconds: other_seconds,
                },
            ) => {
                &&& expr_code(*base) == expr_code(*other_base)
                &&& months == other_months
                &&& days == other_days
                &&& seconds == other_seconds
            },
            (
                ScalarExpr::Case { operand, branches, else_result },
                ScalarExpr::Case {
                    operand: other_operand,
                    branches: other_branches,
                    else_result: other_else_result,
                },
            ) => {
                &&& match (operand, other_operand) {
                    (Some(v), Some(w)) => expr_code(*v) == expr_code(*w),
                    (None, None) => true,
                    _ => false,
                }
                &&& expr_exprs_code(branches) == expr_exprs_code(other_branches)
                &&& match (else_result, other_else_result) {
                    (Some(v), Some(w)) => expr_code(*v) == expr_code(*w),
                    (None, None) => true,
                    _ => false,
                }
            },
            (
                ScalarExpr::PatternMatch { expr, pattern, kind, case_insensitive, negated, escape },
                ScalarExpr::PatternMatch {
                    expr: other_expr,
                    pattern: other_pattern,
                    kind: other_kind,
                    case_insensitive: other_case_insensitive,
                    negated: other_negated,
                    escape: other_escape,
                },
            ) => {
                &&& expr_code(*expr) == expr_code(*other_expr)
                &&& expr_code(*pattern) == expr_code(*other_pattern)
                &&& kind == other_kind
                &&& case_insensitive == other_case_insensitive
                &&& negated == other_negated
                &&& match (escape, other_escape) {
                    (Some(v), Some(w)) => v == w,
                    (None, None) => true,
                    _ => false,
                }
            },
            (
                ScalarExpr::IsDistinctFrom { left, right, negated },
                ScalarExpr::IsDistinctFrom {
                    left: other_left,
                    right: other_right,
                    negated: other_negated,
                },
            ) => {
                &&& expr_code(*left) == expr_code(*other_left)
                &&& expr_code(*right) == expr_code(*other_right)
                &&& negated == other_negated
            },
            (
                ScalarExpr::IsBool { expr, value, negated },
                ScalarExpr::IsBool { expr: other_expr, value: other_value, negated: other_negated },
            ) => {
                &&& expr_code(*expr) == expr_code(*other_expr)
                &&& match (value, other_value) {
                    (Some(v), Some(w)) => v == w,
                    (None, None) => true,
                    _ => false,
                }
                &&& negated == other_negated
            },
            (
                ScalarExpr::InList { expr, list, negated },
                ScalarExpr::InList { expr: other_expr, list: other_list, negated: other_negated },
            ) => {
                &&& expr_code(*expr) == expr_code(*other_expr)
                &&& exprs_code(list) == exprs_code(other_list)
                &&& negated == other_negated
            },
            (
                ScalarExpr::Quantified { left, op, right, all },
                ScalarExpr::Quantified {
                    left: other_left,
                    op: other_op,
                    right: other_right,
                    all: other_all,
                },
            ) => {
                &&& expr_code(*left) == expr_code(*other_left)
                &&& op == other_op
                &&& expr_code(*right) == expr_code(*other_right)
                &&& all == other_all
            },
            (ScalarExpr::Row(u), ScalarExpr::Row(w)) => exprs_code(u) == exprs_code(w),
            (
                ScalarExpr::Subquery { plan, kind },
                ScalarExpr::Subquery { plan: other_plan, kind: other_kind },
            ) => {
                &&& sub_plan_code(plan) == sub_plan_code(other_plan)
                &&& kind == other_kind
            },
            _ => false,
        },
{
    lemma_expr_kind(a, b);
    let x = expr_code(a)->Array_0;
    let y = expr_code(b)->Array_0;
    match (a, b) {
        (ScalarExpr::Literal(u), ScalarExpr::Literal(w)) => {
            assert(x[1] == y[1]);
        },
        (ScalarExpr::Column(u), ScalarExpr::Column(w)) => {
            assert(x[1] == y[1]);
        },
        (
            ScalarExpr::Unary { op, expr },
            ScalarExpr::Unary { op: other_op, expr: other_expr },
        ) => {
            assert(x[1] == y[1]);
            law_scalar_unary_op_codes_tell_apart(op, other_op);
            assert(x[2] == y[2]);
        },
        (
            ScalarExpr::Binary { op, left, right },
            ScalarExpr::Binary { op: other_op, left: other_left, right: other_right },
        ) => {
            assert(x[1] == y[1]);
            law_scalar_binary_op_codes_tell_apart(op, other_op);
            assert(x[2] == y[2]);
            assert(x[3] == y[3]);
        },
        (
            ScalarExpr::Cast { expr, target },
            ScalarExpr::Cast { expr: other_expr, target: other_target },
        ) => {
            assert(x[1] == y[1]);
            assert(x[2] == y[2]);
        },
        (
            ScalarExpr::Function { name, args },
            ScalarExpr::Function { name: other_name, args: other_args },
        ) => {
            assert(x[1] == y[1]);
            assert(x[2] == y[2]);
        },
        (
            ScalarExpr::IsNull { expr, negated },
            ScalarExpr::IsNull { expr: other_expr, negated: other_negated },
        ) => {
            assert(x[1] == y[1]);
            assert(x[2] == y[2]);
        },
        (
            ScalarExpr::Extract { field, expr },
            ScalarExpr::Extract { field: other_field, expr: other_expr },
        ) => {
            assert(x[1] == y[1]);
            assert(x[2] == y[2]);
        },
        (
            ScalarExpr::Aggregate { op, arg, arg_expr, distinct, extra_args, filter, order_by },
            ScalarExpr::Aggregate {
                op: other_op,
                arg: other_arg,
                arg_expr: other_arg_expr,
                distinct: other_distinct,
                extra_args: other_extra_args,
                filter: other_filter,
                order_by: other_order_by,
            },
        ) => {
            assert(x[1] == y[1]);
            law_aggregate_op_codes_tell_apart(op, other_op);
            assert(x[2] == y[2]);
            assert(x[3] == y[3]);
            if let (Some(v), Some(w)) = (arg_expr, other_arg_expr) {
                assert(x[3]->Array_0[0] == y[3]->Array_0[0]);
            }
            assert(x[3]->Array_0.len() == y[3]->Array_0.len());
            assert(x[4] == y[4]);
            assert(x[5] == y[5]);
            assert(x[6] == y[6]);
            if let (Some(v), Some(w)) = (filter, other_filter) {
                assert(x[6]->Array_0[0] == y[6]->Array_0[0]);
            }
            assert(x[6]->Array_0.len() == y[6]->Array_0.len());
            assert(x[7] == y[7]);
        },
        (
            ScalarExpr::DateOffset { base, months, days, seconds },
            ScalarExpr::DateOffset {
                base: other_base,
                months: other_months,
                days: other_days,
                seconds: other_seconds,
            },
        ) => {
            assert(x[1] == y[1]);
            assert(x[2] == y[2]);
            assert(x[3] == y[3]);
            assert(x[4] == y[4]);
        },
        (
            ScalarExpr::Case { operand, branches, else_result },
            ScalarExpr::Case {
                operand: other_operand,
                branches: other_branches,
                else_result: other_else_result,
            },
        ) => {
            assert(x[1] == y[1]);
            if let (Some(v), Some(w)) = (operand, other_operand) {
                assert(x[1]->Array_0[0] == y[1]->Array_0[0]);
            }
            assert(x[1]->Array_0.len() == y[1]->Array_0.len());
            assert(x[2] == y[2]);
            assert(x[3] == y[3]);
            if let (Some(v), Some(w)) = (else_result, other_else_result) {
                assert(x[3]->Array_0[0] == y[3]->Array_0[0]);
            }
            assert(x[3]->Array_0.len() == y[3]->Array_0.len());
        },
        (
            ScalarExpr::PatternMatch { expr, pattern, kind, case_insensitive, negated, escape },
            ScalarExpr::PatternMatch {
                expr: other_expr,
                pattern: other_pattern,
                kind: other_kind,
                case_insensitive: other_case_insensitive,
                negated: other_negated,
                escape: other_escape,
            },
        ) => {
            assert(x[1] == y[1]);
            assert(x[2] == y[2]);
            assert(x[3] == y[3]);
            law_pattern_kind_codes_tell_apart(kind, other_kind);
            assert(x[4] == y[4]);
            assert(x[5] == y[5]);
            assert(x[6] == y[6]);
            if let (Some(v), Some(w)) = (escape, other_escape) {
                assert(x[6]->Array_0[0] == y[6]->Array_0[0]);
                assert(seq![v][0] == seq![w][0]);
            }
            assert(x[6]->Array_0.len() == y[6]->Array_0.len());
        },
        (
            ScalarExpr::IsDistinctFrom { left, right, negated },
            ScalarExpr::IsDistinctFrom {
                left: other_left,
                right: other_right,
                negated: other_negated,
            },
        ) => {
            assert(x[1] == y[1]);
            assert(x[2] == y[2]);
            assert(x[3] == y[3]);
        },
        (
            ScalarExpr::IsBool { expr, value, negated },
            ScalarExpr::IsBool { expr: other_expr, value: other_value, negated: other_negated },
        ) => {
            assert(x[1] == y[1]);
            assert(x[2] == y[2]);
            if let (Some(v), Some(w)) = (value, other_value) {
                assert(x[2]->Array_0[0] == y[2]->Array_0[0]);
            }
            assert(x[2]->Array_0.len() == y[2]->Array_0.len());
            assert(x[3] == y[3]);
        },
        (
            ScalarExpr::InList { expr, list, negated },
            ScalarExpr::InList { expr: other_expr, list: other_list, negated: other_negated },
        ) => {
            assert(x[1] == y[1]);
            assert(x[2] == y[2]);
            assert(x[3] == y[3]);
        },
        (
            ScalarExpr::Quantified { left, op, right, all },
            ScalarExpr::Quantified {
                left: other_left,
                op: other_op,
                right: other_right,
                all: other_all,
            },
        ) => {
            assert(x[1] == y[1]);
            assert(x[2] == y[2]);
            law_scalar_binary_op_codes_tell_apart(op, other_op);
            assert(x[3] == y[3]);
            assert(x[4] == y[4]);
        },
        (ScalarExpr::Row(u), ScalarExpr::Row(w)) => {
            assert(x[1] == y[1]);
        },
        (
            ScalarExpr::Subquery { plan, kind },
            ScalarExpr::Subquery { plan: other_plan, kind: other_kind },
        ) => {
            assert(x[1] == y[1]);
            assert(x[2] == y[2]);
            law_subquery_kind_codes_tell_apart(kind, other_kind);
        },
        _ => {},
    }
}

/// The kind of a [`FilterExpr`], by its position.
spec fn filter_kind(x: FilterExpr) -> int {
    match x {
        FilterExpr::Predicate(..) => 0,
        FilterExpr::And(..) => 1,
        FilterExpr::Or(..) => 2,
        FilterExpr::Not(..) => 3,
        FilterExpr::IsNull(..) => 4,
        FilterExpr::IsNotNull(..) => 5,
        FilterExpr::InList { .. } => 6,
        FilterExpr::InSubquery { .. } => 7,
        FilterExpr::CompareSubquery { .. } => 8,
        FilterExpr::ExprCmp { .. } => 9,
        FilterExpr::Exists { .. } => 10,
        FilterExpr::Scalar(..) => 11,
        FilterExpr::QuantifiedSubquery { .. } => 12,
    }
}

proof fn lemma_filter_kind(a: FilterExpr, b: FilterExpr)
    requires
        filter_code(a) == filter_code(b),
    ensures
        filter_kind(a) == filter_kind(b),
{
    reveal_strlit("Predicate");
    reveal_strlit("And");
    reveal_strlit("Or");
    reveal_strlit("Not");
    reveal_strlit("IsNull");
    reveal_strlit("IsNotNull");
    reveal_strlit("InList");
    reveal_strlit("InSubquery");
    reveal_strlit("CompareSubquery");
    reveal_strlit("ExprCmp");
    reveal_strlit("Exists");
    reveal_strlit("Scalar");
    reveal_strlit("QuantifiedSubquery");
    let x = filter_code(a)->Array_0;
    let y = filter_code(b)->Array_0;
    assert(x[0] == y[0]);
    let s = x[0]->Text_0;
    let t = y[0]->Text_0;
    assert(filter_kind(a) == 0 ==> s.len() == 9 && s[1] == 'r');
    assert(filter_kind(b) == 0 ==> t.len() == 9 && t[1] == 'r');
    assert(filter_kind(a) == 1 ==> s.len() == 3 && s[1] == 'n');
    assert(filter_kind(b) == 1 ==> t.len() == 3 && t[1] == 'n');
    assert(filter_kind(a) == 2 ==> s.len() == 2 && s[1] == 'r');
    assert(filter_kind(b) == 2 ==> t.len() == 2 && t[1] == 'r');
    assert(filter_kind(a) == 3 ==> s.len() == 3 && s[1] == 'o');
    assert(filter_kind(b) == 3 ==> t.len() == 3 && t[1] == 'o');
    assert(filter_kind(a) == 4 ==> s.len() == 6 && s[1] == 's');
    assert(filter_kind(b) == 4 ==> t.len() == 6 && t[1] == 's');
    assert(filter_kind(a) == 5 ==> s.len() == 9 && s[1] == 's');
    assert(filter_kind(b) == 5 ==> t.len() == 9 && t[1] == 's');
    assert(filter_kind(a) == 6 ==> s.len() == 6 && s[1] == 'n');
    assert(filter_kind(b) == 6 ==> t.len() == 6 && t[1] == 'n');
    assert(filter_kind(a) == 7 ==> s.len() == 10 && s[1] == 'n');
    assert(filter_kind(b) == 7 ==> t.len() == 10 && t[1] == 'n');
    assert(filter_kind(a) == 8 ==> s.len() == 15 && s[1] == 'o');
    assert(filter_kind(b) == 8 ==> t.len() == 15 && t[1] == 'o');
    assert(filter_kind(a) == 9 ==> s.len() == 7 && s[1] == 'x');
    assert(filter_kind(b) == 9 ==> t.len() == 7 && t[1] == 'x');
    assert(filter_kind(a) == 10 ==> s.len() == 6 && s[1] == 'x');
    assert(filter_kind(b) == 10 ==> t.len() == 6 && t[1] == 'x');
    assert(filter_kind(a) == 11 ==> s.len() == 6 && s[1] == 'c');
    assert(filter_kind(b) == 11 ==> t.len() == 6 && t[1] == 'c');
    assert(filter_kind(a) == 12 ==> s.len() == 18 && s[1] == 'u');
    assert(filter_kind(b) == 12 ==> t.len() == 18 && t[1] == 'u');
}

/// Conditions with one code are of one kind, and have the same parts.
pub proof fn law_filter_codes_tell_apart(a: FilterExpr, b: FilterExpr)
    requires
        filter_code(a) == filter_code(b),
    ensures
        match (a, b) {
            (FilterExpr::Predicate(u), FilterExpr::Predicate(w)) =>
                predicate_code(u) == predicate_code(w),
            (FilterExpr::And(u0, u1), FilterExpr::And(w0, w1)) => {
                &&& filter_code(*u0) == filter_code(*w0)
                &&& filter_code(*u1) == filter_code(*w1)
            },
            (FilterExpr::Or(u0, u1), FilterExpr::Or(w0, w1)) => {
                &&& filter_code(*u0) == filter_code(*w0)
                &&& filter_code(*u1) == filter_code(*w1)
            },
            (FilterExpr::Not(u), FilterExpr::Not(w)) => filter_code(*u) == filter_code(*w),
            (FilterExpr::IsNull(u), FilterExpr::IsNull(w)) => u@ == w@,
            (FilterExpr::IsNotNull(u), FilterExpr::IsNotNull(w)) => u@ == w@,
            (
                FilterExpr::InList { left, list, negated },
                FilterExpr::InList { left: other_left, list: other_list, negated: other_negated },
            ) => {
                &&& left@ == other_left@
                &&& operands_code(list) == operands_code(other_list)
                &&& negated == other_negated
            },
            (
                FilterExpr::InSubquery { left, subquery, negated, left_value },
                FilterExpr::InSubquery {
                    left: other_left,
                    subquery: other_subquery,
                    negated: other_negated,
                    left_value: other_left_value,
                },
            ) => {
                &&& left@ == other_left@
                &&& plan_code(*subquery) == plan_code(*other_subquery)
                &&& negated == other_negated
                &&& match (left_value, other_left_value) {
                    (Some(v), Some(w)) => v@ == w@,
                    (None, None) => true,
                    _ => false,
                }
            },
            (
                FilterExpr::CompareSubquery { left, op, subquery },
                FilterExpr::CompareSubquery {
                    left: other_left,
                    op: other_op,
                    subquery: other_subquery,
                },
            ) => {
                &&& left@ == other_left@
                &&& op == other_op
                &&& plan_code(*subquery) == plan_code(*other_subquery)
            },
            (
                FilterExpr::ExprCmp { left, op, right },
                FilterExpr::ExprCmp { left: other_left, op: other_op, right: other_right },
            ) => {
                &&& expr_code(left) == expr_code(other_left)
                &&& op == other_op
                &&& expr_code(right) == expr_code(other_right)
            },
            (
                FilterExpr::Exists { subquery, negated },
                FilterExpr::Exists { subquery: other_subquery, negated: other_negated },
            ) => {
                &&& plan_code(*subquery) == plan_code(*other_subquery)
                &&& negated == other_negated
            },
            (FilterExpr::Scalar(u), FilterExpr::Scalar(w)) => expr_code(u) == expr_code(w),
            (
                FilterExpr::QuantifiedSubquery { left, op, subquery, all },
                FilterExpr::QuantifiedSubquery {
                    left: other_left,
                    op: other_op,
                    subquery: other_subquery,
                    all: other_all,
                },
            ) => {
                &&& expr_code(left) == expr_code(other_left)
                &&& op == other_op
                &&& plan_code(*subquery) == plan_code(*other_subquery)
                &&& all == other_all
            },
            _ => false,
        },
{
    lemma_filter_kind(a, b);
    let x = filter_code(a)->Array_0;
    let y = filter_code(b)->Array_0;
    match (a, b) {
        (FilterExpr::Predicate(u), FilterExpr::Predicate(w)) => {
            assert(x[1] == y[1]);
        },
        (FilterExpr::And(u0, u1), FilterExpr::And(w0, w1)) => {
            assert(x[1] == y[1]);
            assert(x[2] == y[2]);
        },
        (FilterExpr::Or(u0, u1), FilterExpr::Or(w0, w1)) => {
            assert(x[1] == y[1]);
            assert(x[2] == y[2]);
        },
        (FilterExpr::Not(u), FilterExpr::Not(w)) => {
            assert(x[1] == y[1]);
        },
        (FilterExpr::IsNull(u), FilterExpr::IsNull(w)) => {
            assert(x[1] == y[1]);
        },
        (FilterExpr::IsNotNull(u), FilterExpr::IsNotNull(w)) => {
            assert(x[1] == y[1]);
        },
        (
            FilterExpr::InList { left, list, negated },
            FilterExpr::InList { left: other_left, list: other_list, negated: other_negated },
        ) => {
            assert(x[1] == y[1]);
            assert(x[2] == y[2]);
            assert(x[3] == y[3]);
        },
        (
            FilterExpr::InSubquery { left, subquery, negated, left_value },
            FilterExpr::InSubquery {
                left: other_left,
                subquery: other_subquery,
                negated: other_negated,
                left_value: other_left_value,
            },
        ) => {
            assert(x[1] == y[1]);
            assert(x[2] == y[2]);
            assert(x[3] == y[3]);
            assert(x[4] == y[4]);
            if let (Some(v), Some(w)) = (left_value, other_left_value) {
                assert(x[4]->Array_0[0] == y[4]->Array_0[0]);
            }
            assert(x[4]->Array_0.len() == y[4]->Array_0.len());
        },
        (
            FilterExpr::CompareSubquery { left, op, subquery },
            FilterExpr::CompareSubquery {
                left: other_left,
                op: other_op,
                subquery: other_subquery,
            },
        ) => {
            assert(x[1] == y[1]);
            assert(x[2] == y[2]);
            law_compare_op_codes_tell_apart(op, other_op);
            assert(x[3] == y[3]);
        },
        (
            FilterExpr::ExprCmp { left, op, right },
            FilterExpr::ExprCmp { left: other_left, op: other_op, right: other_right },
        ) => {
            assert(x[1] == y[1]);
            assert(x[2] == y[2]);
            law_compare_op_codes_tell_apart(op, other_op);
            assert(x[3] == y[3]);
        },
        (
            FilterExpr::Exists { subquery, negated },
            FilterExpr::Exists { subquery: other_subquery, negated: other_negated },
        ) => {
            assert(x[1] == y[1]);
            assert(x[2] == y[2]);
        },
        (FilterExpr::Scalar(u), FilterExpr::Scalar(w)) => {
            assert(x[1] == y[1]);
        },
        (
            FilterExpr::QuantifiedSubquery { left, op, subquery, all },
            FilterExpr::QuantifiedSubquery {
                left: other_left,
                op: other_op,
                subquery: other_subquery,
                all: other_all,
            },
        ) => {
            assert(x[1] == y[1]);
            assert(x[2] == y[2]);
            law_scalar_binary_op_codes_tell_apart(op, other_op);
            assert(x[3] == y[3]);
            assert(x[4] == y[4]);
        },
        _ => {},
    }
}

/// Comparisons with one code have the same operands and operator.
pub proof fn law_predicate_codes_tell_apart(a: Predicate, b: Predicate)
    requires
        predicate_code(a) == predicate_code(b),
    ensures
        a.left@ == b.left@,
        a.op == b.op,
        operand_code(a.right) == operand_code(b.right),
{
    let x = predicate_code(a)->Array_0;
    let y = predicate_code(b)->Array_0;
    assert(x[1] == y[1]);
    assert(x[2] == y[2]);
    law_compare_op_codes_tell_apart(a.op, b.op);
    assert(x[3] == y[3]);
}

/// The kind of a [`Operand`], by its position.
spec fn operand_kind(x: Operand) -> int {
    match x {
        Operand::Literal(..) => 0,
        Operand::Ident(..) => 1,
    }
}

proof fn lemma_operand_kind(a: Operand, b: Operand)
    requires
        operand_code(a) == operand_code(b),
    ensures
        operand_kind(a) == operand_kind(b),
{
    reveal_strlit("Literal");
    reveal_strlit("Ident");
    let x = operand_code(a)->Array_0;
    let y = operand_code(b)->Array_0;
    assert(x[0] == y[0]);
    let s = x[0]->Text_0;
    let t = y[0]->Text_0;
    assert(operand_kind(a) == 0 ==> s.len() == 7);
    assert(operand_kind(b) == 0 ==> t.len() == 7);
    assert(operand_kind(a) == 1 ==> s.len() == 5);
    assert(operand_kind(b) == 1 ==> t.len() == 5);
}

/// Operands with one code are the same.
pub proof fn law_operand_codes_tell_apart(a: Operand, b: Operand)
    requires
        operand_code(a) == operand_code(b),
    ensures
        match (a, b) {
            (Operand::Literal(u), Operand::Literal(w)) => u@ == w@,
            (Operand::Ident(u), Operand::Ident(w)) => u@ == w@,
            _ => false,
        },
{
    lemma_operand_kind(a, b);
    let x = operand_code(a)->Array_0;
    let y = operand_code(b)->Array_0;
    match (a, b) {
        (Operand::Literal(u), Operand::Literal(w)) => {
            assert(x[1] == y[1]);
        },
        (Operand::Ident(u), Operand::Ident(w)) => {
            assert(x[1] == y[1]);
        },
        _ => {},
    }
}

/// The kind of a [`CompareOp`], by its position.
spec fn compare_op_kind(x: CompareOp) -> int {
    match x {
        CompareOp::Eq => 0,
        CompareOp::Ne => 1,
        CompareOp::Lt => 2,
        CompareOp::Le => 3,
        CompareOp::Gt => 4,
        CompareOp::Ge => 5,
        CompareOp::Contains => 6,
        CompareOp::ContainedBy => 7,
    }
}

proof fn lemma_compare_op_kind(a: CompareOp, b: CompareOp)
    requires
        compare_op_code(a) == compare_op_code(b),
    ensures
        compare_op_kind(a) == compare_op_kind(b),
{
    reveal_strlit("Eq");
    reveal_strlit("Ne");
    reveal_strlit("Lt");
    reveal_strlit("Le");
    reveal_strlit("Gt");
    reveal_strlit("Ge");
    reveal_strlit("Contains");
    reveal_strlit("ContainedBy");
    let x = compare_op_code(a)->Array_0;
    let y = compare_op_code(b)->Array_0;
    assert(x[0] == y[0]);
    let s = x[0]->Text_0;
    let t = y[0]->Text_0;
    assert(compare_op_kind(a) == 0 ==> s.len() == 2 && s[0] == 'E' && s[1] == 'q');
    assert(compare_op_kind(b) == 0 ==> t.len() == 2 && t[0] == 'E' && t[1] == 'q');
    assert(compare_op_kind(a) == 1 ==> s.len() == 2 && s[0] == 'N' && s[1] == 'e');
    assert(compare_op_kind(b) == 1 ==> t.len() == 2 && t[0] == 'N' && t[1] == 'e');
    assert(compare_op_kind(a) == 2 ==> s.len() == 2 && s[0] == 'L' && s[1] == 't');
    assert(compare_op_kind(b) == 2 ==> t.len() == 2 && t[0] == 'L' && t[1] == 't');
    assert(compare_op_kind(a) == 3 ==> s.len() == 2 && s[0] == 'L' && s[1] == 'e');
    assert(compare_op_kind(b) == 3 ==> t.len() == 2 && t[0] == 'L' && t[1] == 'e');
    assert(compare_op_kind(a) == 4 ==> s.len() == 2 && s[0] == 'G' && s[1] == 't');
    assert(compare_op_kind(b) == 4 ==> t.len() == 2 && t[0] == 'G' && t[1] == 't');
    assert(compare_op_kind(a) == 5 ==> s.len() == 2 && s[0] == 'G' && s[1] == 'e');
    assert(compare_op_kind(b) == 5 ==> t.len() == 2 && t[0] == 'G' && t[1] == 'e');
    assert(compare_op_kind(a) == 6 ==> s.len() == 8 && s[0] == 'C' && s[1] == 'o');
    assert(compare_op_kind(b) == 6 ==> t.len() == 8 && t[0] == 'C' && t[1] == 'o');
    assert(compare_op_kind(a) == 7 ==> s.len() == 11 && s[0] == 'C' && s[1] == 'o');
    assert(compare_op_kind(b) == 7 ==> t.len() == 11 && t[0] == 'C' && t[1] == 'o');
}

/// Each has a code of its own.
pub proof fn law_compare_op_codes_tell_apart(a: CompareOp, b: CompareOp)
    requires
        compare_op_code(a) == compare_op_code(b),
    ensures
        a == b,
{
    lemma_compare_op_kind(a, b);
}

/// The kind of a [`ScalarBinaryOp`], by its position.
spec fn scalar_binary_op_kind(x: ScalarBinaryOp) -> int {
    match x {
        ScalarBinaryOp::Add => 0,
        ScalarBinaryOp::Sub => 1,
        ScalarBinaryOp::Mul => 2,
        ScalarBinaryOp::Div => 3,
        ScalarBinaryOp::Mod => 4,
        ScalarBinaryOp::Eq => 5,
        ScalarBinaryOp::NotEq => 6,
        ScalarBinaryOp::Lt => 7,
        ScalarBinaryOp::LtEq => 8,
        ScalarBinaryOp::Gt => 9,
        ScalarBinaryOp::GtEq => 10,
        ScalarBinaryOp::And => 11,
        ScalarBinaryOp::Or => 12,
        ScalarBinaryOp::Concat => 13,
        ScalarBinaryOp::JsonGet => 14,
        ScalarBinaryOp::JsonGetText => 15,
        ScalarBinaryOp::JsonPath => 16,
        ScalarBinaryOp::JsonPathText => 17,
        ScalarBinaryOp::JsonHasKey => 18,
        ScalarBinaryOp::JsonHasAnyKey => 19,
        ScalarBinaryOp::JsonHasAllKeys => 20,
        ScalarBinaryOp::Contains => 21,
        ScalarBinaryOp::ContainedBy => 22,
        ScalarBinaryOp::Overlap => 23,
    }
}

proof fn lemma_scalar_binary_op_kind(a: ScalarBinaryOp, b: ScalarBinaryOp)
    requires
        scalar_binary_op_code(a) == scalar_binary_op_code(b),
    ensures
        scalar_binary_op_kind(a) == scalar_binary_op_kind(b),
{
    reveal_strlit("Add");
    reveal_strlit("Sub");
    reveal_strlit("Mul");
    reveal_strlit("Div");
    reveal_strlit("Mod");
    reveal_strlit("Eq");
    reveal_strlit("NotEq");
    reveal_strlit("Lt");
    reveal_strlit("LtEq");
    reveal_strlit("Gt");
    reveal_strlit("GtEq");
    reveal_strlit("And");
    reveal_strlit("Or");
    reveal_strlit("Concat");
    reveal_strlit("JsonGet");
    reveal_strlit("JsonGetText");
    reveal_strlit("JsonPath");
    reveal_strlit("JsonPathText");
    reveal_strlit("JsonHasKey");
    reveal_strlit("JsonHasAnyKey");
    reveal_strlit("JsonHasAllKeys");
    reveal_strlit("Contains");
    reveal_strlit("ContainedBy");
    reveal_strlit("Overlap");
    let x = scalar_binary_op_code(a)->Array_0;
    let y = scalar_binary_op_code(b)->Array_0;
    assert(x[0] == y[0]);
    let s = x[0]->Text_0;
    let t = y[0]->Text_0;
    assert(scalar_binary_op_kind(a) == 0 ==> s.len() == 3 && s[0] == 'A' && s[1] == 'd');
    assert(scalar_binary_op_kind(b) == 0 ==> t.len() == 3 && t[0] == 'A' && t[1] == 'd');
    assert(scalar_binary_op_kind(a) == 1 ==> s.len() == 3 && s[0] == 'S' && s[1] == 'u');
    assert(scalar_binary_op_kind(b) == 1 ==> t.len() == 3 && t[0] == 'S' && t[1] == 'u');
    assert(scalar_binary_op_kind(a) == 2 ==> s.len() == 3 && s[0] == 'M' && s[1] == 'u');
    assert(scalar_binary_op_kind(b) == 2 ==> t.len() == 3 && t[0] == 'M' && t[1] == 'u');
    assert(scalar_binary_op_kind(a) == 3 ==> s.len() == 3 && s[0] == 'D' && s[1] == 'i');
    assert(scalar_binary_op_kind(b) == 3 ==> t.len() == 3 && t[0] == 'D' && t[1] == 'i');
    assert(scalar_binary_op_kind(a) == 4 ==> s.len() == 3 && s[0] == 'M' && s[1] == 'o');
    assert(scalar_binary_op_kind(b) == 4 ==> t.len() == 3 && t[0] == 'M' && t[1] == 'o');
    assert(scalar_binary_op_kind(a) == 5 ==> s.len() == 2 && s[0] == 'E' && s[1] == 'q');
    assert(scalar_binary_op_kind(b) == 5 ==> t.len() == 2 && t[0] == 'E' && t[1] == 'q');
    assert(scalar_binary_op_kind(a) == 6 ==> s.len() == 5 && s[0] == 'N' && s[1] == 'o');
    assert(scalar_binary_op_kind(b) == 6 ==> t.len() == 5 && t[0] == 'N' && t[1] == 'o');
    assert(scalar_binary_op_kind(a) == 7 ==> s.len() == 2 && s[0] == 'L' && s[1] == 't');
    assert(scalar_binary_op_kind(b) == 7 ==> t.len() == 2 && t[0] == 'L' && t[1] == 't');
    assert(scalar_binary_op_kind(a) == 8 ==> s.len() == 4 && s[0] == 'L' && s[1] == 't');
    assert(scalar_binary_op_kind(b) == 8 ==> t.len() == 4 && t[0] == 'L' && t[1] == 't');
    assert(scalar_binary_op_kind(a) == 9 ==> s.len() == 2 && s[0] == 'G' && s[1] == 't');
    assert(scalar_binary_op_kind(b) == 9 ==> t.len() == 2 && t[0] == 'G' && t[1] == 't');
    assert(scalar_binary_op_kind(a) == 10 ==> s.len() == 4 && s[0] == 'G' && s[1] == 't');
    assert(scalar_binary_op_kind(b) == 10 ==> t.len() == 4 && t[0] == 'G' && t[1] == 't');
    assert(scalar_binary_op_kind(a) == 11 ==> s.len() == 3 && s[0] == 'A' && s[1] == 'n');
    assert(scalar_binary_op_kind(b) == 11 ==> t.len() == 3 && t[0] == 'A' && t[1] == 'n');
    assert(scalar_binary_op_kind(a) == 12 ==> s.len() == 2 && s[0] == 'O' && s[1] == 'r');
    assert(scalar_binary_op_kind(b) == 12 ==> t.len() == 2 && t[0] == 'O' && t[1] == 'r');
    assert(scalar_binary_op_kind(a) == 13 ==> s.len() == 6 && s[0] == 'C' && s[1] == 'o');
    assert(scalar_binary_op_kind(b) == 13 ==> t.len() == 6 && t[0] == 'C' && t[1] == 'o');
    assert(scalar_binary_op_kind(a) == 14 ==> s.len() == 7 && s[0] == 'J' && s[1] == 's');
    assert(scalar_binary_op_kind(b) == 14 ==> t.len() == 7 && t[0] == 'J' && t[1] == 's');
    assert(scalar_binary_op_kind(a) == 15 ==> s.len() == 11 && s[0] == 'J' && s[1] == 's');
    assert(scalar_binary_op_kind(b) == 15 ==> t.len() == 11 && t[0] == 'J' && t[1] == 's');
    assert(scalar_binary_op_kind(a) == 16 ==> s.len() == 8 && s[0] == 'J' && s[1] == 's');
    assert(scalar_binary_op_kind(b) == 16 ==> t.len() == 8 && t[0] == 'J' && t[1] == 's');
    assert(scalar_binary_op_kind(a) == 17 ==> s.len() == 12 && s[0] == 'J' && s[1] == 's');
    assert(scalar_binary_op_kind(b) == 17 ==> t.len() == 12 && t[0] == 'J' && t[1] == 's');
    assert(scalar_binary_op_kind(a) == 18 ==> s.len() == 10 && s[0] == 'J' && s[1] == 's');
    assert(scalar_binary_op_kind(b) == 18 ==> t.len() == 10 && t[0] == 'J' && t[1] == 's');
    assert(scalar_binary_op_kind(a) == 19 ==> s.len() == 13 && s[0] == 'J' && s[1] == 's');
    assert(scalar_binary_op_kind(b) == 19 ==> t.len() == 13 && t[0] == 'J' && t[1] == 's');
    assert(scalar_binary_op_kind(a) == 20 ==> s.len() == 14 && s[0] == 'J' && s[1] == 's');
    assert(scalar_binary_op_kind(b) == 20 ==> t.len() == 14 && t[0] == 'J' && t[1] == 's');
    assert(scalar_binary_op_kind(a) == 21 ==> s.len() == 8 && s[0] == 'C' && s[1] == 'o');
    assert(scalar_binary_op_kind(b) == 21 ==> t.len() == 8 && t[0] == 'C' && t[1] == 'o');
    assert(scalar_binary_op_kind(a) == 22 ==> s.len() == 11 && s[0] == 'C' && s[1] == 'o');
    assert(scalar_binary_op_kind(b) == 22 ==> t.len() == 11 && t[0] == 'C' && t[1] == 'o');
    assert(scalar_binary_op_kind(a) == 23 ==> s.len() == 7 && s[0] == 'O' && s[1] == 'v');
    assert(scalar_binary_op_kind(b) == 23 ==> t.len() == 7 && t[0] == 'O' && t[1] == 'v');
}

/// Each has a code of its own.
pub proof fn law_scalar_binary_op_codes_tell_apart(a: ScalarBinaryOp, b: ScalarBinaryOp)
    requires
        scalar_binary_op_code(a) == scalar_binary_op_code(b),
    ensures
        a == b,
{
    lemma_scalar_binary_op_kind(a, b);
}

/// The kind of a [`ScalarUnaryOp`], by its position.
spec fn scalar_unary_op_kind(x: ScalarUnaryOp) -> int {
    match x {
        ScalarUnaryOp::Neg => 0,
        ScalarUnaryOp::Not => 1,
    }
}

proof fn lemma_scalar_unary_op_kind(a: ScalarUnaryOp, b: ScalarUnaryOp)
    requires
        scalar_unary_op_code(a) == scalar_unary_op_code(b),
    ensures
        scalar_unary_op_kind(a) == scalar_unary_op_kind(b),
{
    reveal_strlit("Neg");
    reveal_strlit("Not");
    let x = scalar_unary_op_code(a)->Array_0;
    let y = scalar_unary_op_code(b)->Array_0;
    assert(x[0] == y[0]);
    let s = x[0]->Text_0;
    let t = y[0]->Text_0;
    assert(scalar_unary_op_kind(a) == 0 ==> s.len() == 3 && s[1] == 'e');
    assert(scalar_unary_op_kind(b) == 0 ==> t.len() == 3 && t[1] == 'e');
    assert(scalar_unary_op_kind(a) == 1 ==> s.len() == 3 && s[1] == 'o');
    assert(scalar_unary_op_kind(b) == 1 ==> t.len() == 3 && t[1] == 'o');
}

/// Each has a code of its own.
pub proof fn law_scalar_unary_op_codes_tell_apart(a: ScalarUnaryOp, b: ScalarUnaryOp)
    requires
        scalar_unary_op_code(a) == scalar_unary_op_code(b),
    ensures
        a == b,
{
    lemma_scalar_unary_op_kind(a, b);
}

/// The kind of a [`AggregateOp`], by its position.
spec fn aggregate_op_kind(x: AggregateOp) -> int {
    match x {
        AggregateOp::Count => 0,
        AggregateOp::Sum => 1,
        AggregateOp::Min => 2,
        AggregateOp::Max => 3,
        AggregateOp::Avg => 4,
        AggregateOp::StringAgg => 5,
        AggregateOp::ArrayAgg => 6,
        AggregateOp::BoolAnd => 7,
        AggregateOp::BoolOr => 8,
        AggregateOp::JsonAgg => 9,
        AggregateOp::JsonbAgg => 10,
        AggregateOp::JsonObjectAgg => 11,
        AggregateOp::JsonbObjectAgg => 12,
        AggregateOp::StddevSamp => 13,
        AggregateOp::StddevPop => 14,
        AggregateOp::VarSamp => 15,
        AggregateOp::VarPop => 16,
        AggregateOp::BitAnd => 17,
        AggregateOp::BitOr => 18,
    }
}

proof fn lemma_aggregate_op_kind(a: AggregateOp, b: AggregateOp)
    requires
        aggregate_op_code(a) == aggregate_op_code(b),
    ensures
        aggregate_op_kind(a) == aggregate_op_kind(b),
{
    reveal_strlit("Count");
    reveal_strlit("Sum");
    reveal_strlit("Min");
    reveal_strlit("Max");
    reveal_strlit("Avg");
    reveal_strlit("StringAgg");
    reveal_strlit("ArrayAgg");
    reveal_strlit("BoolAnd");
    reveal_strlit("BoolOr");
    reveal_strlit("JsonAgg");
    reveal_strlit("JsonbAgg");
    reveal_strlit("JsonObjectAgg");
    reveal_strlit("JsonbObjectAgg");
    reveal_strlit("StddevSamp");
    reveal_strlit("StddevPop");
    reveal_strlit("VarSamp");
    reveal_strlit("VarPop");
    reveal_strlit("BitAnd");
    reveal_strlit("BitOr");
    let x = aggregate_op_code(a)->Array_0;
    let y = aggregate_op_code(b)->Array_0;
    assert(x[0] == y[0]);
    let s = x[0]->Text_0;
    let t = y[0]->Text_0;
    assert(aggregate_op_kind(a) == 0 ==> s.len() == 5 && s[0] == 'C' && s[2] == 'u');
    assert(aggregate_op_kind(b) == 0 ==> t.len() == 5 && t[0] == 'C' && t[2] == 'u');
    assert(aggregate_op_kind(a) == 1 ==> s.len() == 3 && s[0] == 'S' && s[2] == 'm');
    assert(aggregate_op_kind(b) == 1 ==> t.len() == 3 && t[0] == 'S' && t[2] == 'm');
    assert(aggregate_op_kind(a) == 2 ==> s.len() == 3 && s[0] == 'M' && s[2] == 'n');
    assert(aggregate_op_kind(b) == 2 ==> t.len() == 3 && t[0] == 'M' && t[2] == 'n');
    assert(aggregate_op_kind(a) == 3 ==> s.len() == 3 && s[0] == 'M' && s[2] == 'x');
    assert(aggregate_op_kind(b) == 3 ==> t.len() == 3 && t[0] == 'M' && t[2] == 'x');
    assert(aggregate_op_kind(a) == 4 ==> s.len() == 3 && s[0] == 'A' && s[2] == 'g');
    assert(aggregate_op_kind(b) == 4 ==> t.len() == 3 && t[0] == 'A' && t[2] == 'g');
    assert(aggregate_op_kind(a) == 5 ==> s.len() == 9 && s[0] == 'S' && s[2] == 'r');
    assert(aggregate_op_kind(b) == 5 ==> t.len() == 9 && t[0] == 'S' && t[2] == 'r');
    assert(aggregate_op_kind(a) == 6 ==> s.len() == 8 && s[0] == 'A' && s[2] == 'r');
    assert(aggregate_op_kind(b) == 6 ==> t.len() == 8 && t[0] == 'A' && t[2] == 'r');
    assert(aggregate_op_kind(a) == 7 ==> s.len() == 7 && s[0] == 'B' && s[2] == 'o');
    assert(aggregate_op_kind(b) == 7 ==> t.len() == 7 && t[0] == 'B' && t[2] == 'o');
    assert(aggregate_op_kind(a) == 8 ==> s.len() == 6 && s[0] == 'B' && s[2] == 'o');
    assert(aggregate_op_kind(b) == 8 ==> t.len() == 6 && t[0] == 'B' && t[2] == 'o');
    assert(aggregate_op_kind(a) == 9 ==> s.len() == 7 && s[0] == 'J' && s[2] == 'o');
    assert(aggregate_op_kind(b) == 9 ==> t.len() == 7 && t[0] == 'J' && t[2] == 'o');
    assert(aggregate_op_kind(a) == 10 ==> s.len() == 8 && s[0] == 'J' && s[2] == 'o');
    assert(aggregate_op_kind(b) == 10 ==> t.len() == 8 && t[0] == 'J' && t[2] == 'o');
    assert(aggregate_op_kind(a) == 11 ==> s.len() == 13 && s[0] == 'J' && s[2] == 'o');
    assert(aggregate_op_kind(b) == 11 ==> t.len() == 13 && t[0] == 'J' && t[2] == 'o');
    assert(aggregate_op_kind(a) == 12 ==> s.len() == 14 && s[0] == 'J' && s[2] == 'o');
    assert(aggregate_op_kind(b) == 12 ==> t.len() == 14 && t[0] == 'J' && t[2] == 'o');
    assert(aggregate_op_kind(a) == 13 ==> s.len() == 10 && s[0] == 'S' && s[2] == 'd');
    assert(aggregate_op_kind(b) == 13 ==> t.len() == 10 && t[0] == 'S' && t[2] == 'd');
    assert(aggregate_op_kind(a) == 14 ==> s.len() == 9 && s[0] == 'S' && s[2] == 'd');
    assert(aggregate_op_kind(b) == 14 ==> t.len() == 9 && t[0] == 'S' && t[2] == 'd');
    assert(aggregate_op_kind(a) == 15 ==> s.len() == 7 && s[0] == 'V' && s[2] == 'r');
    assert(aggregate_op_kind(b) == 15 ==> t.len() == 7 && t[0] == 'V' && t[2] == 'r');
    assert(aggregate_op_kind(a) == 16 ==> s.len() == 6 && s[0] == 'V' && s[2] == 'r');
    assert(aggregate_op_kind(b) == 16 ==> t.len() == 6 && t[0] == 'V' && t[2] == 'r');
    assert(aggregate_op_kind(a) == 17 ==> s.len() == 6 && s[0] == 'B' && s[2] == 't');
    assert(aggregate_op_kind(b) == 17 ==> t.len() == 6 && t[0] == 'B' && t[2] == 't');
    assert(aggregate_op_kind(a) == 18 ==> s.len() == 5 && s[0] == 'B' && s[2] == 't');
    assert(aggregate_op_kind(b) == 18 ==> t.len() == 5 && t[0] == 'B' && t[2] == 't');
}

/// Each has a code of its own.
pub proof fn law_aggregate_op_codes_tell_apart(a: AggregateOp, b: AggregateOp)
    requires
        aggregate_op_code(a) == aggregate_op_code(b),
    ensures
        a == b,
{
    lemma_aggregate_op_kind(a, b);
}

/// The kind of a [`PatternKind`], by its position.
spec fn pattern_kind_kind(x: PatternKind) -> int {
    match x {
        PatternKind::Like => 0,
        PatternKind::SimilarTo => 1,
        PatternKind::Regex => 2,
    }
}

proof fn lemma_pattern_kind_kind(a: PatternKind, b: PatternKind)
    requires
        pattern_kind_code(a) == pattern_kind_code(b),
    ensures
        pattern_kind_kind(a) == pattern_kind_kind(b),
{
    reveal_strlit("Like");
    reveal_strlit("SimilarTo");
    reveal_strlit("Regex");
    let x = pattern_kind_code(a)->Array_0;
    let y = pattern_kind_code(b)->Array_0;
    assert(x[0] == y[0]);
    let s = x[0]->Text_0;
    let t = y[0]->Text_0;
    assert(pattern_kind_kind(a) == 0 ==> s.len() == 4);
    assert(pattern_kind_kind(b) == 0 ==> t.len() == 4);
    assert(pattern_kind_kind(a) == 1 ==> s.len() == 9);
    assert(pattern_kind_kind(b) == 1 ==> t.len() == 9);
    assert(pattern_kind_kind(a) == 2 ==> s.len() == 5);
    assert(pattern_kind_kind(b) == 2 ==> t.len() == 5);
}

/// Each has a code of its own.
pub proof fn law_pattern_kind_codes_tell_apart(a: PatternKind, b: PatternKind)
    requires
        pattern_kind_code(a) == pattern_kind_code(b),
    ensures
        a == b,
{
    lemma_pattern_kind_kind(a, b);
}

/// The kind of a [`SubqueryKind`], by its position.
spec fn subquery_kind_kind(x: SubqueryKind) -> int {
    match x {
        SubqueryKind::Scalar => 0,
        SubqueryKind::Exists => 1,
        SubqueryKind::Array => 2,
    }
}

proof fn lemma_subquery_kind_kind(a: SubqueryKind, b: SubqueryKind)
    requires
        subquery_kind_code(a) == subquery_kind_code(b),
    ensures
        subquery_kind_kind(a) == subquery_kind_kind(b),
{
    reveal_strlit("Scalar");
    reveal_strlit("Exists");
    reveal_strlit("Array");
    let x = subquery_kind_code(a)->Array_0;
    let y = subquery_kind_code(b)->Array_0;
    assert(x[0] == y[0]);
    let s = x[0]->Text_0;
    let t = y[0]->Text_0;
    assert(subquery_kind_kind(a) == 0 ==> s.len() == 6 && s[0] == 'S');
    assert(subquery_kind_kind(b) == 0 ==> t.len() == 6 && t[0] == 'S');
    assert(subquery_kind_kind(a) == 1 ==> s.len() == 6 && s[0] == 'E');
    assert(subquery_kind_kind(b) == 1 ==> t.len() == 6 && t[0] == 'E');
    assert(subquery_kind_kind(a) == 2 ==> s.len() == 5 && s[0] == 'A');
    assert(subquery_kind_kind(b) == 2 ==> t.len() == 5 && t[0] == 'A');
}

/// Each has a code of its own.
pub proof fn law_subquery_kind_codes_tell_apart(a: SubqueryKind, b: SubqueryKind)
    requires
        subquery_kind_code(a) == subquery_kind_code(b),
    ensures
        a == b,
{
    lemma_subquery_kind_kind(a, b);
}

/// Lists of expressions with one code have the same length, and the same
/// expressions at each position.
pub proof fn law_expr_list_codes_tell_apart(a: Vec<ScalarExpr>, b: Vec<ScalarExpr>)
    requires
        exprs_code(a) == exprs_code(b),
    ensures
        a@.len() == b@.len(),
        forall|i: int| 0 <= i < a@.len() ==> expr_code(#[trigger] a@[i]) == expr_code(b@[i]),
{
    let x = exprs_code(a)->Array_0;
    let y = exprs_code(b)->Array_0;
    assert(x.len() == a@.len());
    assert(y.len() == b@.len());
    assert forall|i: int| 0 <= i < a@.len() implies expr_code(#[trigger] a@[i]) == expr_code(
        b@[i],
    ) by {
        assert(x[i] == y[i]);
    }
}

/// Lists of operands with one code have the same length, and the same operands
/// at each position.
pub proof fn law_operand_list_codes_tell_apart(a: Vec<Operand>, b: Vec<Operand>)
    requires
        operands_code(a) == operands_code(b),
    ensures
        a@.len() == b@.len(),
        forall|i: int| 0 <= i < a@.len() ==> operand_code(#[trigger] a@[i]) == operand_code(b@[i]),
{
    let x = operands_code(a)->Array_0;
    let y = operands_code(b)->Array_0;
    assert(x.len() == a@.len());
    assert(y.len() == b@.len());
    assert forall|i: int| 0 <= i < a@.len() implies operand_code(#[trigger] a@[i]) == operand_code(
        b@[i],
    ) by {
        assert(x[i] == y[i]);
    }
}

/// Branches of a CASE with one code have the same conditions and results.
pub proof fn law_branch_codes_tell_apart(
    a: Vec<(ScalarExpr, ScalarExpr)>,
    b: Vec<(ScalarExpr, ScalarExpr)>,
)
    requires
        expr_exprs_code(a) == expr_exprs_code(b),
    ensures
        a@.len() == b@.len(),
        forall|i: int|
            0 <= i < a@.len() ==> expr_code((#[trigger] a@[i]).0) == expr_code(b@[i].0)
                && expr_code(a@[i].1) == expr_code(b@[i].1),
{
    let x = expr_exprs_code(a)->Array_0;
    let y = expr_exprs_code(b)->Array_0;
    assert(x.len() == a@.len());
    assert(y.len() == b@.len());
    assert forall|i: int| 0 <= i < a@.len() implies expr_code((#[trigger] a@[i]).0) == expr_code(
        b@[i].0,
    ) && expr_code(a@[i].1) == expr_code(b@[i].1) by {
        assert(x[i] == y[i]);
        assert(x[i]->Array_0[0] == y[i]->Array_0[0]);
        assert(x[i]->Array_0[1] == y[i]->Array_0[1]);
    }
}

/// Sort keys of an aggregate with one code have the same expressions and
/// directions.
pub proof fn law_order_codes_tell_apart(
    a: Vec<(ScalarExpr, bool, Option<bool>)>,
    b: Vec<(ScalarExpr, bool, Option<bool>)>,
)
    requires
        expr_flag_opt_flags_code(a) == expr_flag_opt_flags_code(b),
    ensures
        a@.len() == b@.len(),
        forall|i: int|
            0 <= i < a@.len() ==> expr_code((#[trigger] a@[i]).0) == expr_code(b@[i].0) && a@[i].1
                == b@[i].1 && a@[i].2 == b@[i].2,
{
    let x = expr_flag_opt_flags_code(a)->Array_0;
    let y = expr_flag_opt_flags_code(b)->Array_0;
    assert(x.len() == a@.len());
    assert(y.len() == b@.len());
    assert forall|i: int| 0 <= i < a@.len() implies expr_code((#[trigger] a@[i]).0) == expr_code(
        b@[i].0,
    ) && a@[i].1 == b@[i].1 && a@[i].2 == b@[i].2 by {
        assert(x[i] == y[i]);
        let u = x[i]->Array_0;
        let w = y[i]->Array_0;
        assert(u[0] == w[0]);
        assert(u[1] == w[1]);
        assert(u[2] == w[2]);
        assert(u[2]->Array_0.len() == w[2]->Array_0.len());
        if let (Some(p), Some(q)) = (a@[i].2, b@[i].2) {
            assert(u[2]->Array_0[0] == w[2]->Array_0[0]);
        }
    }
}

} // verus!
