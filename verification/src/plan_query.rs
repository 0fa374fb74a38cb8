//! Planning queries.
use vstd::prelude::*;
use std::sync::Arc;
use crate::facts::{Facts, Halt};
use crate::grouping_sets::plan_grouping;
use crate::plan_conditions::{parse_having, parse_predicates, plan_outcome};
use crate::plan_from::{add_cte, plan_from, CtePlans};
use crate::plan_items::{plan_constants, plan_items};
use crate::plan_parts::{plan_count, plan_order};
use crate::plan_types::{LogicalPlan, ProjectionItem, SelectPlan, SetOpKind};
use crate::plan_views::{
    ctes_view, items_view, lemma_literal_view, lemma_select_view, select_view, ItemView, JoinView,
    PlanView,
};
use crate::planner::{
    make_recursive, planned_body, planned_ctes, planned_query, planned_select, planned_side,
    planned_tail, MAX_QUERY_PLAN_DEPTH,
};
use crate::syntax::{Body, Cte, OrderItem, Query, Select, SetOperator, SqlExpr};
use crate::value::{vals, Value};

verus! {

/// Plans the entries of `WITH`, in order.
pub fn plan_ctes(
    entries: &Vec<Cte>,
    recursive: bool,
    depth: usize,
    params: &Vec<Value>,
    facts: &Facts,
) -> (r: Result<CtePlans, Halt>)
    ensures
        match r {
            Ok(c) => Ok(ctes_view(c@)),
            Err(h) => Err(h@),
        } == planned_ctes(
            *entries,
            0,
            Seq::empty(),
            recursive,
            depth as nat,
            vals(params@),
            facts@,
        ),
    decreases entries, entries@.len(),
{
    let mut out: CtePlans = Vec::new();
    let mut i: usize = 0;
    assert(ctes_view(out@) =~= Seq::<(Seq<char>, PlanView)>::empty());
    while i < entries.len()
        invariant
            i <= entries@.len(),
            planned_ctes(
                *entries,
                0,
                Seq::empty(),
                recursive,
                depth as nat,
                vals(params@),
                facts@,
            ) == planned_ctes(
                *entries,
                i as nat,
                ctes_view(out@),
                recursive,
                depth as nat,
                vals(params@),
                facts@,
            ),
        decreases entries@.len() - i,
    {
        assert(decreases_to!(entries@ => entries@[i as int]));
        let entry = &entries[i];
        match plan_query(&entry.query, depth, params, facts) {
            Ok(plan) => {
                let plan = make_recursive(plan, recursive, entry.name.as_str(), &entry.columns);
                out = add_cte(out, entry.name.clone(), plan);
            },
            Err(h) => {
                return Err(h);
            },
        }
        i = i + 1;
    }
    Ok(out)
}

/// Plans a query that stands inside `depth` others. A query nested too deep is
/// an error.
pub fn plan_query(query: &Query, depth: usize, params: &Vec<Value>, facts: &Facts) -> (r: Result<
    LogicalPlan,
    Halt,
>)
    ensures
        plan_outcome(r) == planned_query(*query, depth as nat, vals(params@), facts@),
    decreases query, 0int,
{
    if depth >= MAX_QUERY_PLAN_DEPTH {
        return Err(Halt::Raised("query nesting too deep (limit 100)".to_owned()));
    }
    let ctes = match &query.with {
        Some(with) => plan_ctes(&with.ctes, with.recursive, depth + 1, params, facts),
        None => {
            let none: CtePlans = Vec::new();
            assert(ctes_view(none@) =~= Seq::<(Seq<char>, PlanView)>::empty());
            Ok(none)
        },
    };
    match ctes {
        Ok(ctes) => plan_body(
            &query.body,
            ctes,
            &query.order_by,
            &query.limit,
            &query.offset,
            depth + 1,
            params,
            facts,
        ),
        Err(h) => Err(h),
    }
}

fn plan_side(body: &Body, depth: usize, params: &Vec<Value>, facts: &Facts) -> (r: Result<
    LogicalPlan,
    Halt,
>)
    ensures
        plan_outcome(r) == planned_side(*body, depth as nat, vals(params@), facts@),
    decreases body, 1int,
{
    if depth >= MAX_QUERY_PLAN_DEPTH {
        return Err(Halt::Raised("query nesting too deep (limit 100)".to_owned()));
    }
    let ctes: CtePlans = Vec::new();
    let order_by: Vec<OrderItem> = Vec::new();
    assert(ctes_view(ctes@) =~= Seq::<(Seq<char>, PlanView)>::empty());
    assert(order_by@ =~= Seq::<OrderItem>::empty());
    plan_body(body, ctes, &order_by, &None, &None, depth + 1, params, facts)
}

/// Plans the body of a query with these named plans, ordering, and limits.
pub fn plan_body(
    body: &Body,
    ctes: CtePlans,
    order_by: &Vec<OrderItem>,
    limit: &Option<SqlExpr>,
    offset: &Option<SqlExpr>,
    depth: usize,
    params: &Vec<Value>,
    facts: &Facts,
) -> (r: Result<LogicalPlan, Halt>)
    ensures
        plan_outcome(r) == planned_body(
            *body,
            ctes_view(ctes@),
            order_by@,
            *limit,
            *offset,
            depth as nat,
            vals(params@),
            facts@,
        ),
    decreases body, 0int,
{
    match body {
        Body::SetOperation { op, all, left, right } => {
            let kind = match op {
                SetOperator::Union => SetOpKind::Union,
                SetOperator::Intersect => SetOpKind::Intersect,
                SetOperator::Except | SetOperator::Minus => SetOpKind::Except,
            };
            let l = match plan_side(left, depth, params, facts) {
                Ok(p) => p,
                Err(h) => return Err(h),
            };
            match plan_side(right, depth, params, facts) {
                Ok(r) => Ok(
                    LogicalPlan::SetOp {
                        op: kind,
                        all: *all,
                        left: Arc::new(l),
                        right: Arc::new(r),
                    },
                ),
                Err(h) => Err(h),
            }
        },
        Body::Select(select) => plan_select(
            select,
            ctes,
            order_by,
            limit,
            offset,
            depth,
            params,
            facts,
        ),
        _ => Err(Halt::Raised("Unsupported query body".to_owned())),
    }
}

fn plan_tail(
    select: &Select,
    items: &Vec<ProjectionItem>,
    order_by: &Vec<OrderItem>,
    limit: &Option<SqlExpr>,
    offset: &Option<SqlExpr>,
    params: &Vec<Value>,
    facts: &Facts,
) -> (r: Result<SelectPlan, Halt>)
    ensures
        match r {
            Ok(s) => Ok(select_view(s)),
            Err(h) => Err(h@),
        } == planned_tail(
            *select,
            items_view(items@),
            order_by@,
            *limit,
            *offset,
            vals(params@),
            facts@,
        ),
{
    let (group_by, grouping_sets) = match plan_grouping(&select.group_by, items) {
        Ok(x) => x,
        Err(h) => return Err(h),
    };
    let order_by = match plan_order(order_by, items) {
        Ok(x) => x,
        Err(h) => return Err(h),
    };
    let limit = match plan_count(limit, params, facts) {
        Ok(x) => x,
        Err(h) => return Err(h),
    };
    let offset = match plan_count(offset, params, facts) {
        Ok(x) => x,
        Err(h) => return Err(h),
    };
    let having = match parse_having(&select.having, params, facts) {
        Ok(x) => x,
        Err(h) => return Err(h),
    };
    let plan = SelectPlan {
        ctes: Vec::new(),
        table_name: String::new(),
        table_alias: None,
        joins: Vec::new(),
        projection: Vec::new(),
        group_by,
        filter: None,
        having,
        grouping_sets,
        order_by,
        limit,
        offset,
        distinct: select.distinct,
        sort: Vec::new(),
        group_exprs: Vec::new(),
        distinct_on: Vec::new(),
    };
    proof {
        lemma_select_view(plan);
        let v = select_view(plan);
        assert(v.ctes =~= Seq::<(Seq<char>, PlanView)>::empty());
        assert(v.joins =~= Seq::<JoinView>::empty());
        assert(v.projection =~= Seq::<ItemView>::empty());
        assert(v.table_name =~= Seq::<char>::empty());
        assert(v.sort =~= Seq::empty());
        assert(v.group_exprs =~= Seq::empty());
        assert(v.distinct_on =~= Seq::empty());
    }
    Ok(plan)
}

fn plan_select(
    select: &Select,
    ctes: CtePlans,
    order_by: &Vec<OrderItem>,
    limit: &Option<SqlExpr>,
    offset: &Option<SqlExpr>,
    depth: usize,
    params: &Vec<Value>,
    facts: &Facts,
) -> (r: Result<LogicalPlan, Halt>)
    ensures
        plan_outcome(r) == planned_select(
            *select,
            ctes_view(ctes@),
            order_by@,
            *limit,
            *offset,
            depth as nat,
            vals(params@),
            facts@,
        ),
    decreases select, 0int,
{
    if select.from.len() == 0 {
        let (values, deferred) = match plan_constants(&select.projection, depth, params, facts) {
            Ok(x) => x,
            Err(h) => return Err(h),
        };
        return match parse_predicates(&select.selection, depth, params, facts) {
            Ok(filter) => {
                proof {
                    lemma_literal_view(values, filter, deferred);
                }
                Ok(LogicalPlan::SelectLiteral { values, filter, deferred })
            },
            Err(h) => Err(h),
        };
    }
    let source = match plan_from(&select.from, ctes, depth, params, facts) {
        Ok(x) => x,
        Err(h) => return Err(h),
    };
    let items = match plan_items(&select.projection, depth, params, facts) {
        Ok(x) => x,
        Err(h) => return Err(h),
    };
    let tail = match plan_tail(select, &items, order_by, limit, offset, params, facts) {
        Ok(x) => x,
        Err(h) => return Err(h),
    };
    let filter = match parse_predicates(&select.selection, depth, params, facts) {
        Ok(x) => x,
        Err(h) => return Err(h),
    };
    let plan = SelectPlan {
        ctes: source.ctes,
        table_name: source.table_name,
        table_alias: source.table_alias,
        joins: source.joins,
        projection: items,
        filter,
        ..tail
    };
    proof {
        lemma_select_view(plan);
    }
    Ok(LogicalPlan::Select(plan))
}

} // verus!
