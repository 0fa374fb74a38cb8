//! Planning `FROM`: relations, joins, and functions.
use vstd::prelude::*;
use std::sync::Arc;
use crate::facts::{Facts, Halt, Stop};
use crate::plan_conditions::parse_filter_expr;
use crate::plan_parts::{table_fn, table_fn_from_factor};
use crate::plan_query::plan_query;
use crate::plan_types::{FilterExpr, Join, JoinType, LogicalPlan, TableFnSpec};
use crate::plan_views::{ctes_view, filter_if, fn_view, join_view, joins_view, plan_view, JoinView};
use crate::planner::{
    fn_alias, fn_join, planned_comma, planned_commas, planned_constraint, planned_driver,
    planned_from, planned_join, planned_joins, planned_operator, planned_relation, Ctes, Place,
    SourceView,
};
use crate::syntax::{FactorKind, FromItem, JoinClause, JoinConstraint, JoinOperator, TableFactor};
use crate::text::{clone_texts, concat2, opt_text, texts};
use crate::value::{vals, Value};

verus! {

/// The named plans that a query reads, in memory.
pub type CtePlans = Vec<(String, Arc<LogicalPlan>)>;

/// What a planned relation stands for.
pub open spec fn relation_outcome(
    r: Result<(CtePlans, String, Option<String>), Halt>,
) -> Result<(Ctes, Seq<char>, Option<Seq<char>>), Stop> {
    match r {
        Ok((c, n, a)) => Ok((ctes_view(c@), n@, opt_text(a))),
        Err(h) => Err(h@),
    }
}

pub fn add_cte(ctes: CtePlans, name: String, plan: LogicalPlan) -> (r: CtePlans)
    ensures
        ctes_view(r@) == ctes_view(ctes@).push((name@, plan_view(plan))),
{
    let ghost before = ctes@;
    let mut out = ctes;
    out.push((name, Arc::new(plan)));
    assert(ctes_view(out@) =~= ctes_view(before).push((name@, plan_view(plan))));
    out
}

fn plan_relation(
    f: &TableFactor,
    place: Place,
    ctes: CtePlans,
    depth: usize,
    params: &Vec<Value>,
    facts: &Facts,
) -> (r: Result<(CtePlans, String, Option<String>), Halt>)
    ensures
        relation_outcome(r) == planned_relation(
            *f,
            place,
            ctes_view(ctes@),
            depth as nat,
            vals(params@),
            facts@,
        ),
    decreases f, 0int,
{
    match &f.kind {
        FactorKind::Table { name, alias, .. } => {
            let alias = match alias {
                Some(a) => Some(a.name.clone()),
                None => None,
            };
            Ok((ctes, name.clone(), alias))
        },
        FactorKind::Derived { subquery, alias } => match alias {
            Some(a) => match plan_query(subquery, depth, params, facts) {
                Ok(plan) => {
                    let out = add_cte(ctes, a.name.clone(), plan);
                    Ok((out, a.name.clone(), None))
                },
                Err(h) => Err(h),
            },
            None => {
                let message = match place {
                    Place::From => "Derived table requires an alias",
                    Place::Join => "Derived join requires an alias",
                };
                Err(Halt::Raised(message.to_owned()))
            },
        },
        _ => {
            let prefix = match place {
                Place::From => "Unsupported FROM relation: ",
                Place::Join => "Unsupported join relation: ",
            };
            Err(Halt::Raised(concat2(prefix, f.text.as_str())))
        },
    }
}

fn name_of_fn(call: &TableFnSpec) -> (r: String)
    ensures
        r@ == fn_alias(fn_view(*call)),
{
    match &call.alias {
        Some(a) => a.clone(),
        None => call.name.clone(),
    }
}

fn plan_driver(
    f: &TableFactor,
    ctes: CtePlans,
    depth: usize,
    params: &Vec<Value>,
    facts: &Facts,
) -> (r: Result<(CtePlans, String, Option<String>), Halt>)
    ensures
        relation_outcome(r) == planned_driver(
            *f,
            ctes_view(ctes@),
            depth as nat,
            vals(params@),
            facts@,
        ),
    decreases f, 1int,
{
    match table_fn_from_factor(f, params, facts) {
        Ok(Some(call)) => {
            let name = name_of_fn(&call);
            let out = add_cte(ctes, name.clone(), LogicalPlan::TableFunction(call));
            Ok((out, name, None))
        },
        Ok(None) => plan_relation(f, Place::From, ctes, depth, params, facts),
        Err(h) => Err(h),
    }
}

fn join_function(call: TableFnSpec, join_type: JoinType) -> (r: Join)
    ensures
        join_view(r) == fn_join(fn_view(call), join_type),
{
    let name = name_of_fn(&call);
    let using_columns: Vec<String> = Vec::new();
    assert(texts(using_columns@) =~= Seq::<Seq<char>>::empty());
    Join {
        table_name: name.clone(),
        table_alias: Some(name),
        condition: None,
        join_type,
        table_fn: Some(call),
        using_columns,
        natural: false,
        lateral: None,
    }
}

fn plan_constraint(
    c: &JoinConstraint,
    depth: usize,
    params: &Vec<Value>,
    facts: &Facts,
) -> (r: Result<(Option<FilterExpr>, Vec<String>, bool), Halt>)
    ensures
        match r {
            Ok((f, u, n)) => Ok((filter_if(f), texts(u@), n)),
            Err(h) => Err(h@),
        } == planned_constraint(*c, depth as nat, vals(params@), facts@),
    decreases c, 2int,
{
    let none: Vec<String> = Vec::new();
    assert(texts(none@) =~= Seq::<Seq<char>>::empty());
    match c {
        JoinConstraint::On(e) => match parse_filter_expr(e, depth, params, facts) {
            Ok(f) => Ok((Some(f), none, false)),
            Err(h) => Err(h),
        },
        JoinConstraint::Using(columns) => Ok((None, clone_texts(columns), false)),
        JoinConstraint::Natural => Ok((None, none, true)),
        JoinConstraint::Absent => Ok((None, none, false)),
    }
}

/// What a planned join stands for.
pub open spec fn join_outcome(r: Result<Join, Halt>) -> Result<JoinView, Stop> {
    match r {
        Ok(j) => Ok(join_view(j)),
        Err(h) => Err(h@),
    }
}

fn plan_operator(
    name: String,
    alias: Option<String>,
    op: &JoinOperator,
    depth: usize,
    params: &Vec<Value>,
    facts: &Facts,
) -> (r: Result<Join, Halt>)
    ensures
        join_outcome(r) == planned_operator(
            name@,
            opt_text(alias),
            *op,
            depth as nat,
            vals(params@),
            facts@,
        ),
    decreases op, 3int,
{
    let (join_type, constraint) = match op {
        JoinOperator::Inner(c) => (JoinType::Inner, c),
        JoinOperator::Left(c) => (JoinType::LeftOuter, c),
        JoinOperator::Right(c) => (JoinType::RightOuter, c),
        JoinOperator::Full(c) => (JoinType::FullOuter, c),
        JoinOperator::Cross => {
            let using_columns: Vec<String> = Vec::new();
            assert(texts(using_columns@) =~= Seq::<Seq<char>>::empty());
            return Ok(
                Join {
                    table_name: name,
                    table_alias: alias,
                    condition: None,
                    join_type: JoinType::Cross,
                    table_fn: None,
                    using_columns,
                    natural: false,
                    lateral: None,
                },
            );
        },
        JoinOperator::Other(text) => {
            return Err(Halt::Raised(concat2("Unsupported join operator: ", text.as_str())));
        },
    };
    match plan_constraint(constraint, depth, params, facts) {
        Ok((condition, using_columns, natural)) => Ok(
            Join {
                table_name: name,
                table_alias: alias,
                condition,
                join_type,
                table_fn: None,
                using_columns,
                natural,
                lateral: None,
            },
        ),
        Err(h) => Err(h),
    }
}

/// What planned joins stand for, with the named plans they read.
pub open spec fn joins_outcome(r: Result<(CtePlans, Vec<Join>), Halt>) -> Result<
    (Ctes, Seq<JoinView>),
    Stop,
> {
    match r {
        Ok((c, j)) => Ok((ctes_view(c@), joins_view(j@))),
        Err(h) => Err(h@),
    }
}

/// What a planned join stands for, with the named plans it adds to.
pub open spec fn next_join_outcome(r: Result<(CtePlans, Join), Halt>) -> Result<
    (Ctes, JoinView),
    Stop,
> {
    match r {
        Ok((c, j)) => Ok((ctes_view(c@), join_view(j))),
        Err(h) => Err(h@),
    }
}

fn plan_join(
    clause: &JoinClause,
    ctes: CtePlans,
    depth: usize,
    params: &Vec<Value>,
    facts: &Facts,
) -> (r: Result<(CtePlans, Join), Halt>)
    ensures
        next_join_outcome(r) == planned_join(
            *clause,
            ctes_view(ctes@),
            depth as nat,
            vals(params@),
            facts@,
        ),
    decreases clause, 4int,
{
    reveal(planned_join);
    match table_fn_from_factor(&clause.relation, params, facts) {
        Ok(Some(call)) => {
            let join_type = match &clause.operator {
                JoinOperator::Left(_) => JoinType::LeftOuter,
                _ => JoinType::Inner,
            };
            Ok((ctes, join_function(call, join_type)))
        },
        Ok(None) => match plan_relation(
            &clause.relation,
            Place::Join,
            ctes,
            depth,
            params,
            facts,
        ) {
            Ok((next, name, alias)) => match plan_operator(
                name,
                alias,
                &clause.operator,
                depth,
                params,
                facts,
            ) {
                Ok(join) => Ok((next, join)),
                Err(h) => Err(h),
            },
            Err(h) => Err(h),
        },
        Err(h) => Err(h),
    }
}

fn add_join(joins: Vec<Join>, join: Join) -> (r: Vec<Join>)
    ensures
        joins_view(r@) == joins_view(joins@).push(join_view(join)),
{
    let ghost before = joins@;
    let mut out = joins;
    out.push(join);
    assert(joins_view(out@) =~= joins_view(before).push(join_view(join)));
    out
}

#[verifier::spinoff_prover]
fn plan_joins(
    clauses: &Vec<JoinClause>,
    i: usize,
    ctes: CtePlans,
    joins: Vec<Join>,
    depth: usize,
    params: &Vec<Value>,
    facts: &Facts,
) -> (r: Result<(CtePlans, Vec<Join>), Halt>)
    ensures
        joins_outcome(r) == planned_joins(
            *clauses,
            i as nat,
            ctes_view(ctes@),
            joins_view(joins@),
            depth as nat,
            vals(params@),
            facts@,
        ),
    decreases clauses, clauses@.len() - i,
{
    if i >= clauses.len() {
        return Ok((ctes, joins));
    }
    assert(decreases_to!(clauses@ => clauses@[i as int]));
    match plan_join(&clauses[i], ctes, depth, params, facts) {
        Ok((next, join)) => plan_joins(
            clauses,
            i + 1,
            next,
            add_join(joins, join),
            depth,
            params,
            facts,
        ),
        Err(h) => Err(h),
    }
}

fn plan_comma(
    item: &FromItem,
    ctes: CtePlans,
    depth: usize,
    params: &Vec<Value>,
    facts: &Facts,
) -> (r: Result<(CtePlans, Join), Halt>)
    ensures
        next_join_outcome(r) == planned_comma(
            *item,
            ctes_view(ctes@),
            depth as nat,
            vals(params@),
            facts@,
        ),
    decreases item, 4int,
{
    reveal(planned_comma);
    match table_fn_from_factor(&item.relation, params, facts) {
        Ok(Some(call)) => Ok((ctes, join_function(call, JoinType::Cross))),
        Ok(None) => match plan_relation(&item.relation, Place::From, ctes, depth, params, facts) {
            Ok((next, name, alias)) => {
                let table_alias = match &item.relation.kind {
                    FactorKind::Derived { .. } => Some(name.clone()),
                    _ => alias,
                };
                let using_columns: Vec<String> = Vec::new();
                assert(texts(using_columns@) =~= Seq::<Seq<char>>::empty());
                let join = Join {
                    table_name: name,
                    table_alias,
                    condition: None,
                    join_type: JoinType::Cross,
                    table_fn: None,
                    using_columns,
                    natural: false,
                    lateral: None,
                };
                Ok((next, join))
            },
            Err(h) => Err(h),
        },
        Err(h) => Err(h),
    }
}

#[verifier::spinoff_prover]
fn plan_commas(
    from: &Vec<FromItem>,
    i: usize,
    ctes: CtePlans,
    joins: Vec<Join>,
    depth: usize,
    params: &Vec<Value>,
    facts: &Facts,
) -> (r: Result<(CtePlans, Vec<Join>), Halt>)
    ensures
        joins_outcome(r) == planned_commas(
            *from,
            i as nat,
            ctes_view(ctes@),
            joins_view(joins@),
            depth as nat,
            vals(params@),
            facts@,
        ),
    decreases from, from@.len() - i,
{
    if i >= from.len() {
        return Ok((ctes, joins));
    }
    assert(decreases_to!(from@ => from@[i as int]));
    match plan_comma(&from[i], ctes, depth, params, facts) {
        Ok((next, join)) => plan_commas(
            from,
            i + 1,
            next,
            add_join(joins, join),
            depth,
            params,
            facts,
        ),
        Err(h) => Err(h),
    }
}

/// The relations that a `SELECT` reads, in memory.
pub struct Source {
    pub ctes: CtePlans,
    pub table_name: String,
    pub table_alias: Option<String>,
    pub joins: Vec<Join>,
}

/// What a planned `FROM` stands for.
pub open spec fn source_outcome(r: Result<Source, Halt>) -> Result<SourceView, Stop> {
    match r {
        Ok(s) => Ok(
            SourceView {
                ctes: ctes_view(s.ctes@),
                table_name: s.table_name@,
                table_alias: opt_text(s.table_alias),
                joins: joins_view(s.joins@),
            },
        ),
        Err(h) => Err(h@),
    }
}

pub fn plan_from(
    from: &Vec<FromItem>,
    ctes: CtePlans,
    depth: usize,
    params: &Vec<Value>,
    facts: &Facts,
) -> (r: Result<Source, Halt>)
    requires
        from@.len() > 0,
    ensures
        source_outcome(r) == planned_from(
            *from,
            ctes_view(ctes@),
            depth as nat,
            vals(params@),
            facts@,
        ),
    decreases from, from@.len() + 1,
{
    assert(decreases_to!(from@ => from@[0]));
    let (named, table_name, table_alias) = match plan_driver(
        &from[0].relation,
        ctes,
        depth,
        params,
        facts,
    ) {
        Ok(x) => x,
        Err(h) => return Err(h),
    };
    let none: Vec<Join> = Vec::new();
    assert(joins_view(none@) =~= Seq::<JoinView>::empty());
    let (named, joins) = match plan_joins(&from[0].joins, 0, named, none, depth, params, facts) {
        Ok(x) => x,
        Err(h) => return Err(h),
    };
    match plan_commas(from, 1, named, joins, depth, params, facts) {
        Ok((ctes, joins)) => Ok(Source { ctes, table_name, table_alias, joins }),
        Err(h) => Err(h),
    }
}

} // verus!
