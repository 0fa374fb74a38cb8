//! Planning `MERGE`.
use vstd::prelude::*;
use std::sync::Arc;
use crate::expr::ExprView;
use crate::facts::{Facts, Halt, Known, Stop};
use crate::lower::{lower_scalar, lowered};
use crate::plan_changes::{
    assignments_from, bare_names, is_default, is_default_keyword, keep_exprs, kept_exprs,
    named_table, names_bare, plan_assignments, plan_returning, returning, table_name_of,
};
use crate::plan_conditions::{parse_predicates, unsupported_error};
use crate::plan_query::plan_query;
use crate::plan_types::{
    LogicalPlan, MergeAction, MergeClause, MergeKind, ScalarExpr,
};
use crate::plan_views::{
    assignments_view, filter_if, plan_view, returning_view, FilterView, PlanView,
};
use crate::planner::{planned_query, planned_where, unsupported};
use crate::syntax::{Merge, MergeStep, MergeWhen, SqlExpr};
use crate::text::{opt_text, texts};
use crate::value::{vals, Val, Value};

verus! {

/// What a [`MergeAction`] stands for.
#[verifier::ext_equal]
#[allow(inconsistent_fields)]
pub enum ActionView {
    Update(Seq<(Seq<char>, ExprView)>),
    Delete,
    Insert { columns: Seq<Seq<char>>, values: Seq<Option<ExprView>> },
    Nothing,
}

/// What a [`MergeClause`] stands for.
#[verifier::ext_equal]
pub struct ClauseView {
    pub kind: MergeKind,
    pub condition: Option<FilterView>,
    pub action: ActionView,
}

/// What a plan for a `MERGE` stands for.
#[verifier::ext_equal]
pub struct MergeView {
    pub table_name: Seq<char>,
    pub table_alias: Option<Seq<char>>,
    pub source: PlanView,
    pub on: Option<FilterView>,
    pub clauses: Seq<ClauseView>,
    pub returning: Seq<Seq<char>>,
    pub returning_exprs: Seq<Option<ExprView>>,
}

/// What values, `None` for `DEFAULT`, stand for.
pub open spec fn values_view(s: Seq<Option<ScalarExpr>>) -> Seq<Option<ExprView>> {
    Seq::new(
        s.len(),
        |i: int|
            match s[i] {
                Some(e) => Some(e@),
                None => None,
            },
    )
}

/// What a [`MergeAction`] stands for.
pub open spec fn action_view(a: MergeAction) -> ActionView {
    match a {
        MergeAction::Update(list) => ActionView::Update(assignments_view(list@)),
        MergeAction::Delete => ActionView::Delete,
        MergeAction::Insert { columns, values } => ActionView::Insert {
            columns: texts(columns@),
            values: values_view(values@),
        },
        MergeAction::Nothing => ActionView::Nothing,
    }
}

/// What a [`MergeClause`] stands for.
pub open spec fn clause_view(c: MergeClause) -> ClauseView {
    ClauseView {
        kind: c.kind,
        condition: filter_if(c.condition),
        action: action_view(c.action),
    }
}

/// What clauses stand for.
pub open spec fn clause_views(s: Seq<MergeClause>) -> Seq<ClauseView> {
    Seq::new(s.len(), |i: int| clause_view(s[i]))
}

/// The `MERGE` that a plan is.
pub open spec fn merge_view(p: LogicalPlan) -> Option<MergeView> {
    match p {
        LogicalPlan::Merge {
            table_name,
            table_alias,
            source,
            on,
            clauses,
            returning,
            returning_exprs,
        } => Some(
            MergeView {
                table_name: table_name@,
                table_alias: opt_text(table_alias),
                source: plan_view(*source),
                on: filter_if(on),
                clauses: clause_views(clauses@),
                returning: texts(returning@),
                returning_exprs: returning_view(returning_exprs@),
            },
        ),
        _ => None,
    }
}

/// The value that an `INSERT` action gives a column: `None` for `DEFAULT`.
pub open spec fn inserted_value(e: SqlExpr, params: Seq<Val>, k: Known) -> Result<
    Option<ExprView>,
    Stop,
> {
    if is_default(e) {
        Ok(None)
    } else {
        match lowered(e, params, k) {
            Err(s) => Err(s),
            Ok(Some(x)) => Ok(Some(x)),
            Ok(None) => Err(unsupported(e, "Unsupported MERGE value: "@, k)),
        }
    }
}

/// The values that an `INSERT` action gives, from position `i` on.
pub open spec fn inserted_from(
    list: Seq<SqlExpr>,
    i: nat,
    before: Seq<Option<ExprView>>,
    params: Seq<Val>,
    k: Known,
) -> Result<Seq<Option<ExprView>>, Stop>
    decreases list.len() - i,
{
    if i >= list.len() {
        Ok(before)
    } else {
        match inserted_value(list[i as int], params, k) {
            Err(s) => Err(s),
            Ok(x) => inserted_from(list, i + 1, before.push(x), params, k),
        }
    }
}

/// What a step is planned to.
pub open spec fn planned_step(step: MergeStep, params: Seq<Val>, k: Known) -> Result<
    ActionView,
    Stop,
> {
    match step {
        MergeStep::Update(list) => match assignments_from(list@, 0, Seq::empty(), params, k) {
            Err(s) => Err(s),
            Ok(a) => Ok(ActionView::Update(a)),
        },
        MergeStep::Delete => Ok(ActionView::Delete),
        MergeStep::Insert { columns, values } => match inserted_from(
            values@,
            0,
            Seq::empty(),
            params,
            k,
        ) {
            Err(s) => Err(s),
            Ok(list) => Ok(ActionView::Insert { columns: bare_names(columns@), values: list }),
        },
        MergeStep::Nothing => Ok(ActionView::Nothing),
    }
}

/// What a clause is planned to.
pub open spec fn planned_clause(c: MergeWhen, params: Seq<Val>, k: Known) -> Result<
    ClauseView,
    Stop,
> {
    match planned_where(c.condition, 0, params, k) {
        Err(s) => Err(s),
        Ok(condition) => match planned_step(c.step, params, k) {
            Err(s) => Err(s),
            Ok(action) => Ok(ClauseView { kind: c.kind, condition, action }),
        },
    }
}

/// What the clauses from position `i` on are planned to.
pub open spec fn planned_clauses(
    list: Seq<MergeWhen>,
    i: nat,
    before: Seq<ClauseView>,
    params: Seq<Val>,
    k: Known,
) -> Result<Seq<ClauseView>, Stop>
    decreases list.len() - i,
{
    if i >= list.len() {
        Ok(before)
    } else {
        match planned_clause(list[i as int], params, k) {
            Err(s) => Err(s),
            Ok(c) => planned_clauses(list, i + 1, before.push(c), params, k),
        }
    }
}

/// What a `MERGE` is planned to.
pub open spec fn planned_merge(m: Merge, params: Seq<Val>, k: Known) -> Result<MergeView, Stop> {
    match named_table(m.table) {
        Err(s) => Err(s),
        Ok(table_name) => match planned_query(m.source, 0, params, k) {
            Err(s) => Err(s),
            Ok(source) => match planned_where(m.on, 0, params, k) {
                Err(s) => Err(s),
                Ok(on) => match planned_clauses(m.clauses@, 0, Seq::empty(), params, k) {
                    Err(s) => Err(s),
                    Ok(clauses) => match returning(m.returning, params, k) {
                        Err(s) => Err(s),
                        Ok((returned, found)) => Ok(
                            MergeView {
                                table_name,
                                table_alias: opt_text(m.alias),
                                source,
                                on,
                                clauses,
                                returning: returned,
                                returning_exprs: kept_exprs(found),
                            },
                        ),
                    },
                },
            },
        },
    }
}

fn plan_values(list: &Vec<SqlExpr>, params: &Vec<Value>, facts: &Facts) -> (r: Result<
    Vec<Option<ScalarExpr>>,
    Halt,
>)
    ensures
        match (r, inserted_from(list@, 0, Seq::empty(), vals(params@), facts@)) {
            (Ok(a), Ok(b)) => values_view(a@) == b,
            (Err(h), Err(s)) => h@ == s,
            _ => false,
        },
{
    let mut out: Vec<Option<ScalarExpr>> = Vec::new();
    assert(values_view(out@) =~= Seq::<Option<ExprView>>::empty());
    let mut i: usize = 0;
    while i < list.len()
        invariant
            i <= list@.len(),
            inserted_from(list@, 0, Seq::empty(), vals(params@), facts@) == inserted_from(
                list@,
                i as nat,
                values_view(out@),
                vals(params@),
                facts@,
            ),
        decreases list@.len() - i,
    {
        let ghost before = out@;
        if is_default_keyword(&list[i]) {
            out.push(None);
            assert(values_view(out@) =~= values_view(before).push(None));
        } else {
            match lower_scalar(&list[i], params, facts) {
                Err(h) => {
                    return Err(h);
                },
                Ok(None) => {
                    return Err(unsupported_error(&list[i], "Unsupported MERGE value: ", facts));
                },
                Ok(Some(x)) => {
                    let ghost shown = x@;
                    out.push(Some(x));
                    assert(values_view(out@) =~= values_view(before).push(Some(shown)));
                },
            }
        }
        i = i + 1;
    }
    Ok(out)
}

fn plan_step(step: &MergeStep, params: &Vec<Value>, facts: &Facts) -> (r: Result<MergeAction, Halt>)
    ensures
        match (r, planned_step(*step, vals(params@), facts@)) {
            (Ok(a), Ok(b)) => action_view(a) == b,
            (Err(h), Err(s)) => h@ == s,
            _ => false,
        },
{
    match step {
        MergeStep::Update(list) => match plan_assignments(list, params, facts) {
            Ok(a) => Ok(MergeAction::Update(a)),
            Err(h) => Err(h),
        },
        MergeStep::Delete => Ok(MergeAction::Delete),
        MergeStep::Insert { columns, values } => match plan_values(values, params, facts) {
            Ok(list) => Ok(MergeAction::Insert { columns: names_bare(columns), values: list }),
            Err(h) => Err(h),
        },
        MergeStep::Nothing => Ok(MergeAction::Nothing),
    }
}

fn plan_clause(c: &MergeWhen, params: &Vec<Value>, facts: &Facts) -> (r: Result<MergeClause, Halt>)
    ensures
        match (r, planned_clause(*c, vals(params@), facts@)) {
            (Ok(a), Ok(b)) => clause_view(a) == b,
            (Err(h), Err(s)) => h@ == s,
            _ => false,
        },
{
    let condition = match parse_predicates(&c.condition, 0, params, facts) {
        Ok(f) => f,
        Err(h) => return Err(h),
    };
    let action = match plan_step(&c.step, params, facts) {
        Ok(a) => a,
        Err(h) => return Err(h),
    };
    Ok(MergeClause { kind: c.kind, condition, action })
}

fn plan_clauses(list: &Vec<MergeWhen>, params: &Vec<Value>, facts: &Facts) -> (r: Result<
    Vec<MergeClause>,
    Halt,
>)
    ensures
        match (r, planned_clauses(list@, 0, Seq::empty(), vals(params@), facts@)) {
            (Ok(a), Ok(b)) => clause_views(a@) == b,
            (Err(h), Err(s)) => h@ == s,
            _ => false,
        },
{
    let mut out: Vec<MergeClause> = Vec::new();
    assert(clause_views(out@) =~= Seq::<ClauseView>::empty());
    let mut i: usize = 0;
    while i < list.len()
        invariant
            i <= list@.len(),
            planned_clauses(list@, 0, Seq::empty(), vals(params@), facts@) == planned_clauses(
                list@,
                i as nat,
                clause_views(out@),
                vals(params@),
                facts@,
            ),
        decreases list@.len() - i,
    {
        match plan_clause(&list[i], params, facts) {
            Err(h) => {
                return Err(h);
            },
            Ok(c) => {
                let ghost before = out@;
                let ghost shown = clause_view(c);
                out.push(c);
                assert(clause_views(out@) =~= clause_views(before).push(shown));
            },
        }
        i = i + 1;
    }
    Ok(out)
}

/// Plans a `MERGE`: its source, its join condition, and what each `WHEN`
/// clause does, in their order.
pub fn plan_merge(m: &Merge, params: &Vec<Value>, facts: &Facts) -> (r: Result<LogicalPlan, Halt>)
    ensures
        match (r, planned_merge(*m, vals(params@), facts@)) {
            (Ok(p), Ok(v)) => merge_view(p) == Some(v),
            (Err(h), Err(s)) => h@ == s,
            _ => false,
        },
{
    let table_name = match table_name_of(&m.table) {
        Ok(x) => x,
        Err(h) => return Err(h),
    };
    let source = match plan_query(&m.source, 0, params, facts) {
        Ok(x) => x,
        Err(h) => return Err(h),
    };
    let on = match parse_predicates(&m.on, 0, params, facts) {
        Ok(x) => x,
        Err(h) => return Err(h),
    };
    let clauses = match plan_clauses(&m.clauses, params, facts) {
        Ok(x) => x,
        Err(h) => return Err(h),
    };
    let (returning, found) = match plan_returning(&m.returning, params, facts) {
        Ok(x) => x,
        Err(h) => return Err(h),
    };
    let returning_exprs = keep_exprs(found);
    Ok(
        LogicalPlan::Merge {
            table_name,
            table_alias: m.alias.clone(),
            source: Arc::new(source),
            on,
            clauses,
            returning,
            returning_exprs,
        },
    )
}

} // verus!
