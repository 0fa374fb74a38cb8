//! Planning select lists.
use vstd::prelude::*;
use std::sync::Arc;
use crate::call_errors::unknown_function_error;
use crate::expr::first_column_reference;
use crate::facts::{Facts, Halt, Stop};
use crate::literals::expr_to_value;
use crate::lower::lower_scalar;
use crate::output_names::{default_name, default_output_name};
use crate::plan_conditions::unsupported_error;
use crate::plan_parts::{item_outcome, plan_named_args, plan_window};
use crate::plan_query::plan_query;
use crate::plan_types::{DeferredItem, ProjectionItem, ScalarExpr};
use crate::plan_views::{
    constants_view, deferred_if, deferreds_view, item_view, items_view, DeferredView, ItemView,
};
use crate::planner::{
    deferred_scalar, named_call, planned_constant, planned_constants, planned_item, planned_items,
    scalar_item, type_hint,
};
use crate::syntax::{Arguments, FunctionCall, ItemKind, SelectItem, SqlExpr, SqlNode};
use crate::text::{concat2, concat3, opt_text, texts, uppercase};
use crate::value::{vals, Val, Value};

verus! {

fn item_name(alias: &Option<String>, e: &SqlExpr) -> (r: String)
    ensures
        r@ == (match *alias {
            Some(a) => a@,
            None => default_name(*e),
        }),
{
    match alias {
        Some(a) => a.clone(),
        None => default_output_name(e),
    }
}

fn plan_named_call(call: &FunctionCall, name: String, params: &Vec<Value>, facts: &Facts) -> (r:
    Result<ProjectionItem, Halt>)
    ensures
        item_outcome(r) == named_call(*call, name@, vals(params@), facts@),
{
    let args = match &call.args {
        Arguments::List { args, .. } => plan_named_args(args, params, facts),
        _ => {
            let none: Vec<String> = Vec::new();
            assert(texts(none@) =~= Seq::<Seq<char>>::empty());
            Ok(none)
        },
    };
    match args {
        Ok(args) => Ok(
            ProjectionItem::ScalarFunction {
                func_name: uppercase(call.name.as_str()),
                args,
                alias: Some(name),
            },
        ),
        Err(h) => Err(h),
    }
}

fn plan_scalar_item(
    e: &SqlExpr,
    alias: Option<String>,
    params: &Vec<Value>,
    facts: &Facts,
) -> (r: Result<ProjectionItem, Halt>)
    ensures
        item_outcome(r) == scalar_item(*e, opt_text(alias), vals(params@), facts@),
{
    broadcast use crate::expr::group_expr_views;

    let name = item_name(&alias, e);
    match lower_scalar(e, params, facts) {
        Ok(Some(x)) => {
            let is_value: bool = match &e.node {
                SqlNode::Value(_) => true,
                _ => false,
            };
            match x {
                ScalarExpr::Column(c) => match alias {
                    Some(a) => Ok(ProjectionItem::AliasedColumn(c, a)),
                    None => Ok(ProjectionItem::Column(c)),
                },
                ScalarExpr::Literal(v) => {
                    if is_value {
                        match alias {
                            Some(a) => Ok(ProjectionItem::AliasedLiteral(v, a)),
                            None => Ok(ProjectionItem::Literal(v)),
                        }
                    } else {
                        Ok(
                            ProjectionItem::Expr {
                                expr: ScalarExpr::Literal(v),
                                alias: Some(name),
                            },
                        )
                    }
                },
                ScalarExpr::Aggregate {
                    op,
                    arg,
                    arg_expr,
                    distinct,
                    extra_args,
                    filter,
                    order_by,
                } => {
                    if alias.is_none() && arg_expr.is_none() && !distinct {
                        Ok(ProjectionItem::Aggregate(op, arg))
                    } else {
                        Ok(
                            ProjectionItem::Expr {
                                expr: ScalarExpr::Aggregate {
                                    op,
                                    arg,
                                    arg_expr,
                                    distinct,
                                    extra_args,
                                    filter,
                                    order_by,
                                },
                                alias: Some(name),
                            },
                        )
                    }
                },
                other => Ok(ProjectionItem::Expr { expr: other, alias: Some(name) }),
            }
        },
        Ok(None) => match &e.node {
            SqlNode::Function(call) => match unknown_function_error(e, facts) {
                Ok(Some(_)) => plan_named_call(call, name, params, facts),
                Ok(None) => Err(
                    Halt::Raised(
                        concat2("Unsupported expression in SELECT: ", e.text.as_str()),
                    ),
                ),
                Err(h) => Err(h),
            },
            _ => Err(unsupported_error(e, "Unsupported expression in SELECT: ", facts)),
        },
        Err(h) => Err(h),
    }
}

/// Plans one select-list expression; `alias` is its `AS` name. Plain columns,
/// literals, and plain aggregates keep items of their own; everything else is
/// a scalar expression named as PostgreSQL names it.
pub fn plan_select_expr(
    e: &SqlExpr,
    alias: Option<String>,
    depth: usize,
    params: &Vec<Value>,
    facts: &Facts,
) -> (r: Result<ProjectionItem, Halt>)
    ensures
        item_outcome(r) == planned_item(
            *e,
            opt_text(alias),
            depth as nat,
            vals(params@),
            facts@,
        ),
    decreases e, 0int,
{
    match &e.node {
        SqlNode::Function(call) => match &call.over {
            Some(over) => {
                let name = item_name(&alias, e);
                plan_window(uppercase(call.name.as_str()), &call.args, over, name)
            },
            None => plan_scalar_item(e, alias, params, facts),
        },
        SqlNode::Subquery(query) => {
            let name = item_name(&alias, e);
            match plan_query(query, depth, params, facts) {
                Ok(plan) => Ok(
                    ProjectionItem::Subquery { plan: Arc::new(plan), alias: Some(name) },
                ),
                Err(h) => Err(h),
            }
        },
        _ => plan_scalar_item(e, alias, params, facts),
    }
}

pub fn plan_items(items: &Vec<SelectItem>, depth: usize, params: &Vec<Value>, facts: &Facts) -> (r:
    Result<Vec<ProjectionItem>, Halt>)
    ensures
        match r {
            Ok(v) => Ok(items_view(v@)),
            Err(h) => Err(h@),
        } == planned_items(*items, 0, Seq::empty(), depth as nat, vals(params@), facts@),
    decreases items, items@.len(),
{
    let mut out: Vec<ProjectionItem> = Vec::new();
    let mut i: usize = 0;
    assert(items_view(out@) =~= Seq::<ItemView>::empty());
    while i < items.len()
        invariant
            i <= items@.len(),
            planned_items(*items, 0, Seq::empty(), depth as nat, vals(params@), facts@)
                == planned_items(
                *items,
                i as nat,
                items_view(out@),
                depth as nat,
                vals(params@),
                facts@,
            ),
        decreases items@.len() - i,
    {
        assert(decreases_to!(items@ => items@[i as int]));
        let planned = match &items[i].kind {
            ItemKind::Wildcard | ItemKind::QualifiedWildcard(_) => {
                let none: Vec<ProjectionItem> = Vec::new();
                assert(items_view(none@) =~= Seq::<ItemView>::empty());
                return Ok(none);
            },
            ItemKind::Unnamed(e) => plan_select_expr(e, None, depth, params, facts),
            ItemKind::Aliased(e, a) => plan_select_expr(e, Some(a.clone()), depth, params, facts),
            ItemKind::MultiAliased => {
                return Err(Halt::Raised("Unsupported multi-alias select item".to_owned()));
            },
        };
        match planned {
            Ok(x) => {
                let ghost before = out@;
                out.push(x);
                assert(items_view(out@) =~= items_view(before).push(item_view(x)));
            },
            Err(h) => {
                return Err(h);
            },
        }
        i = i + 1;
    }
    Ok(out)
}

/// What a planned item without `FROM` stands for.
pub open spec fn constant_outcome(r: Result<(Value, Option<DeferredItem>), Halt>) -> Result<
    (Val, Option<DeferredView>),
    Stop,
> {
    match r {
        Ok((v, d)) => Ok((v@, deferred_if(d))),
        Err(h) => Err(h@),
    }
}

fn plan_deferred(e: &SqlExpr, params: &Vec<Value>, facts: &Facts) -> (r: Result<
    (Value, Option<DeferredItem>),
    Halt,
>)
    ensures
        constant_outcome(r) == deferred_scalar(*e, vals(params@), facts@),
{
    match lower_scalar(e, params, facts) {
        Ok(Some(x)) => match first_column_reference(&x) {
            Some(c) => Err(
                Halt::Raised(concat3("column \"", c.as_str(), "\" does not exist")),
            ),
            None => Ok((Value::Null, Some(DeferredItem::Scalar(x)))),
        },
        Ok(None) => Err(unsupported_error(e, "Unsupported expression in SELECT: ", facts)),
        Err(h) => Err(h),
    }
}

fn plan_constant(e: &SqlExpr, depth: usize, params: &Vec<Value>, facts: &Facts) -> (r: Result<
    (Value, Option<DeferredItem>),
    Halt,
>)
    ensures
        constant_outcome(r) == planned_constant(*e, depth as nat, vals(params@), facts@),
    decreases e, 0int,
{
    match &e.node {
        SqlNode::Subquery(query) => match plan_query(query, depth, params, facts) {
            Ok(plan) => Ok((Value::Null, Some(DeferredItem::Subquery(Arc::new(plan))))),
            Err(h) => Err(h),
        },
        SqlNode::Exists { query, negated } => match plan_query(query, depth, params, facts) {
            Ok(plan) => Ok(
                (
                    Value::Null,
                    Some(DeferredItem::Exists { plan: Arc::new(plan), negated: *negated }),
                ),
            ),
            Err(h) => Err(h),
        },
        SqlNode::Identifier(_) | SqlNode::Compound(_) => plan_deferred(e, params, facts),
        _ => match expr_to_value(e, params, facts) {
            Ok(Some(v)) => Ok((v, None)),
            Ok(None) => plan_deferred(e, params, facts),
            Err(h) => Err(h),
        },
    }
}

fn read_type_hint(e: &SqlExpr) -> (r: Option<String>)
    ensures
        opt_text(r) == type_hint(*e),
{
    match &e.node {
        SqlNode::Cast { data_type, .. } => Some(data_type.clone()),
        _ => None,
    }
}

pub fn plan_constants(items: &Vec<SelectItem>, depth: usize, params: &Vec<Value>, facts: &Facts) -> (r:
    Result<(Vec<(String, Value, Option<String>)>, Vec<Option<DeferredItem>>), Halt>)
    ensures
        match r {
            Ok((v, d)) => Ok((constants_view(v@), deferreds_view(d@))),
            Err(h) => Err(h@),
        } == planned_constants(
            *items,
            0,
            Seq::empty(),
            Seq::empty(),
            depth as nat,
            vals(params@),
            facts@,
        ),
    decreases items, items@.len(),
{
    let mut values: Vec<(String, Value, Option<String>)> = Vec::new();
    let mut deferred: Vec<Option<DeferredItem>> = Vec::new();
    let mut i: usize = 0;
    assert(constants_view(values@) =~= Seq::<(Seq<char>, Val, Option<Seq<char>>)>::empty());
    assert(deferreds_view(deferred@) =~= Seq::<Option<DeferredView>>::empty());
    while i < items.len()
        invariant
            i <= items@.len(),
            planned_constants(
                *items,
                0,
                Seq::empty(),
                Seq::empty(),
                depth as nat,
                vals(params@),
                facts@,
            ) == planned_constants(
                *items,
                i as nat,
                constants_view(values@),
                deferreds_view(deferred@),
                depth as nat,
                vals(params@),
                facts@,
            ),
        decreases items@.len() - i,
    {
        assert(decreases_to!(items@ => items@[i as int]));
        let (e, name) = match &items[i].kind {
            ItemKind::Unnamed(e) => (e, default_output_name(e)),
            ItemKind::Aliased(e, a) => (e, a.clone()),
            _ => {
                return Err(Halt::Raised("Unsupported scalar select item".to_owned()));
            },
        };
        let hint = read_type_hint(e);
        match plan_constant(e, depth, params, facts) {
            Ok((v, d)) => {
                let ghost before = values@;
                let ghost earlier = deferred@;
                values.push((name, v, hint));
                deferred.push(d);
                assert(constants_view(values@) =~= constants_view(before).push(
                    (name@, v@, opt_text(hint)),
                ));
                assert(deferreds_view(deferred@) =~= deferreds_view(earlier).push(deferred_if(d)));
            },
            Err(h) => {
                return Err(h);
            },
        }
        i = i + 1;
    }
    Ok((values, deferred))
}

} // verus!
