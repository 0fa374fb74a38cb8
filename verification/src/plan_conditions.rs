//! Planning conditions: `WHERE`, `ON`, and `HAVING`.
use vstd::prelude::*;
use std::sync::Arc;
use crate::call_errors::unknown_function_error;
use crate::expr::{lemma_aggregates, scalar_has_aggregate};
use crate::facts::{Facts, Halt, Stop};
use crate::literals::{expr_to_value, extract_col_name, extract_operand, operand, plain_column};
use crate::lower::lower_scalar;
use crate::plan_query::plan_query;
use crate::plan_types::{
    operands, CompareOp, FilterExpr, LogicalPlan, Operand, OperandView, Predicate, ScalarBinaryOp,
};
use crate::plan_views::{filter_if, filter_view, plan_view, FilterView, PlanView};
use crate::planner::{
    column_between, compare_op, compare_op_scalar, comparing, in_subquery, operand_list,
    planned_filter, planned_having, planned_test, planned_where, scalar_filter, unsupported,
};
use crate::syntax::{SqlBinaryOp, SqlExpr, SqlNode, SqlUnaryOp};
use crate::text::concat2;
use crate::value::{vals, Value};

verus! {

/// What a planned condition stands for.
pub open spec fn filter_outcome(r: Result<FilterExpr, Halt>) -> Result<FilterView, Stop> {
    match r {
        Ok(f) => Ok(filter_view(f)),
        Err(h) => Err(h@),
    }
}

/// What an optional planned condition stands for.
pub open spec fn opt_filter_outcome(r: Result<Option<FilterExpr>, Halt>) -> Result<
    Option<FilterView>,
    Stop,
> {
    match r {
        Ok(f) => Ok(filter_if(f)),
        Err(h) => Err(h@),
    }
}

/// What a plan result stands for.
pub open spec fn plan_outcome(r: Result<LogicalPlan, Halt>) -> Result<PlanView, Stop> {
    match r {
        Ok(p) => Ok(plan_view(p)),
        Err(h) => Err(h@),
    }
}

fn plan_operands(es: &Vec<SqlExpr>, params: &Vec<Value>, facts: &Facts) -> (r: Result<
    Option<Vec<Operand>>,
    Halt,
>)
    ensures
        match r {
            Ok(Some(v)) => Ok(Some(operands(v@))),
            Ok(None) => Ok(None),
            Err(h) => Err(h@),
        } == operand_list(es@, 0, Seq::empty(), vals(params@), facts@),
{
    let mut out: Vec<Operand> = Vec::new();
    let mut i: usize = 0;
    assert(operands(out@) =~= Seq::<OperandView>::empty());
    while i < es.len()
        invariant
            i <= es@.len(),
            operand_list(es@, 0, Seq::empty(), vals(params@), facts@) == operand_list(
                es@,
                i as nat,
                operands(out@),
                vals(params@),
                facts@,
            ),
        decreases es@.len() - i,
    {
        match extract_operand(&es[i], params, facts) {
            Ok(Some(o)) => {
                let ghost before = out@;
                out.push(o);
                assert(operands(out@) =~= operands(before).push(o@));
            },
            Ok(None) => {
                return Ok(None);
            },
            Err(h) => {
                return Err(h);
            },
        }
        i = i + 1;
    }
    Ok(Some(out))
}

fn compare_column(left: String, op: CompareOp, right: Operand) -> (r: FilterExpr)
    ensures
        filter_view(r) == comparing(left@, op, right@),
{
    FilterExpr::Predicate(Predicate { left, op, right })
}

fn plan_between(column: String, low: Operand, high: Operand, negated: bool) -> (r: FilterExpr)
    ensures
        filter_view(r) == column_between(column@, low@, high@, negated),
{
    let again = column.clone();
    if negated {
        let lo = compare_column(column, CompareOp::Lt, low);
        let hi = compare_column(again, CompareOp::Gt, high);
        FilterExpr::Or(Box::new(lo), Box::new(hi))
    } else {
        let lo = compare_column(column, CompareOp::Ge, low);
        let hi = compare_column(again, CompareOp::Le, high);
        FilterExpr::And(Box::new(lo), Box::new(hi))
    }
}

/// The error for an expression that is not supported where it stands.
pub fn unsupported_error(e: &SqlExpr, prefix: &str, facts: &Facts) -> (r: Halt)
    ensures
        r@ == unsupported(*e, prefix@, facts@),
{
    match unknown_function_error(e, facts) {
        Ok(Some(m)) => Halt::Raised(m),
        Ok(None) => Halt::Raised(concat2(prefix, e.text.as_str())),
        Err(h) => h,
    }
}

fn plan_scalar_filter(e: &SqlExpr, params: &Vec<Value>, facts: &Facts) -> (r: Result<
    FilterExpr,
    Halt,
>)
    ensures
        filter_outcome(r) == scalar_filter(*e, vals(params@), facts@),
{
    match lower_scalar(e, params, facts) {
        Ok(Some(x)) => {
            proof {
                lemma_aggregates(x);
            }
            if scalar_has_aggregate(&x) {
                Err(Halt::Raised("aggregate functions are not allowed in WHERE".to_owned()))
            } else {
                Ok(FilterExpr::Scalar(x))
            }
        },
        Ok(None) => Err(unsupported_error(e, "Unsupported WHERE condition: ", facts)),
        Err(h) => Err(h),
    }
}

fn plan_in_subquery(
    e: &SqlExpr,
    plan: LogicalPlan,
    negated: bool,
    params: &Vec<Value>,
    facts: &Facts,
) -> (r: Result<Option<FilterExpr>, Halt>)
    ensures
        opt_filter_outcome(r) == in_subquery(
            *e,
            plan_view(plan),
            negated,
            vals(params@),
            facts@,
        ),
{
    if let Some(left) = extract_col_name(e) {
        return Ok(
            Some(
                FilterExpr::InSubquery {
                    left,
                    subquery: Arc::new(plan),
                    negated,
                    left_value: None,
                },
            ),
        );
    }
    match expr_to_value(e, params, facts) {
        Ok(Some(v)) => {
            let left = String::new();
            assert(left@ =~= Seq::<char>::empty());
            Ok(
                Some(
                    FilterExpr::InSubquery {
                        left,
                        subquery: Arc::new(plan),
                        negated,
                        left_value: Some(v),
                    },
                ),
            )
        },
        Ok(None) => match lower_scalar(e, params, facts) {
            Ok(Some(left)) => {
                let quantified = FilterExpr::QuantifiedSubquery {
                    left,
                    op: ScalarBinaryOp::Eq,
                    subquery: Arc::new(plan),
                    all: false,
                };
                assert(filter_view(quantified) == (FilterView::QuantifiedSubquery {
                    left: left@,
                    op: ScalarBinaryOp::Eq,
                    subquery: Box::new(plan_view(plan)),
                    all: false,
                }));
                if negated {
                    Ok(Some(FilterExpr::Not(Box::new(quantified))))
                } else {
                    Ok(Some(quantified))
                }
            },
            Ok(None) => Err(
                Halt::Raised(concat2("Unsupported IN (subquery) operand: ", e.text.as_str())),
            ),
            Err(h) => Err(h),
        },
        Err(h) => Err(h),
    }
}

#[verifier::rlimit(50)]
fn plan_test(e: &SqlExpr, depth: usize, params: &Vec<Value>, facts: &Facts) -> (r: Result<
    Option<FilterExpr>,
    Halt,
>)
    ensures
        opt_filter_outcome(r) == planned_test(*e, depth as nat, vals(params@), facts@),
    decreases e, 0int,
{
    match &e.node {
        SqlNode::IsNull(x) => match plain_column(x) {
            Some(c) => Ok(Some(FilterExpr::IsNull(c))),
            None => Ok(None),
        },
        SqlNode::IsNotNull(x) => match plain_column(x) {
            Some(c) => Ok(Some(FilterExpr::IsNotNull(c))),
            None => Ok(None),
        },
        SqlNode::InList { expr, list, negated } => match plain_column(expr) {
            Some(left) => match plan_operands(list, params, facts) {
                Ok(Some(list)) => Ok(Some(FilterExpr::InList { left, list, negated: *negated })),
                Ok(None) => Ok(None),
                Err(h) => Err(h),
            },
            None => Ok(None),
        },
        SqlNode::InSubquery { expr, query, negated } => match plan_query(
            query,
            depth,
            params,
            facts,
        ) {
            Ok(plan) => plan_in_subquery(expr, plan, *negated, params, facts),
            Err(h) => Err(h),
        },
        SqlNode::Exists { query, negated } => match plan_query(query, depth, params, facts) {
            Ok(plan) => Ok(
                Some(FilterExpr::Exists { subquery: Arc::new(plan), negated: *negated }),
            ),
            Err(h) => Err(h),
        },
        SqlNode::Quantified { left, op, op_text, right, all } => match &right.node {
            SqlNode::Subquery(query) => {
                let op = match compare_op_scalar(op) {
                    Some(op) => op,
                    None => return Err(
                        Halt::Raised(
                            concat2("Unsupported quantified operator: ", op_text.as_str()),
                        ),
                    ),
                };
                let x = match lower_scalar(left, params, facts) {
                    Ok(Some(x)) => x,
                    Ok(None) => return Err(
                        Halt::Raised(
                            concat2("Unsupported quantified operand: ", left.text.as_str()),
                        ),
                    ),
                    Err(h) => return Err(h),
                };
                match plan_query(query, depth, params, facts) {
                    Ok(plan) => Ok(
                        Some(
                            FilterExpr::QuantifiedSubquery {
                                left: x,
                                op,
                                subquery: Arc::new(plan),
                                all: *all,
                            },
                        ),
                    ),
                    Err(h) => Err(h),
                }
            },
            _ => Ok(None),
        },
        SqlNode::Binary { left, op, right } => match (compare_op(op), extract_col_name(left)) {
            (Some(op), Some(left)) => match &right.node {
                SqlNode::Subquery(query) => match plan_query(query, depth, params, facts) {
                    Ok(plan) => Ok(
                        Some(FilterExpr::CompareSubquery { left, op, subquery: Arc::new(plan) }),
                    ),
                    Err(h) => Err(h),
                },
                _ => match extract_operand(right, params, facts) {
                    Ok(Some(o)) => Ok(Some(compare_column(left, op, o))),
                    Ok(None) => Ok(None),
                    Err(h) => Err(h),
                },
            },
            _ => Ok(None),
        },
        SqlNode::Between { expr, negated, low, high } => {
            let column = match plain_column(expr) {
                Some(c) => c,
                None => return Ok(None),
            };
            let low = match extract_operand(low, params, facts) {
                Ok(Some(o)) => o,
                Ok(None) => return Ok(None),
                Err(h) => return Err(h),
            };
            match extract_operand(high, params, facts) {
                Ok(Some(high)) => Ok(Some(plan_between(column, low, high, *negated))),
                Ok(None) => Ok(None),
                Err(h) => Err(h),
            }
        },
        _ => Ok(None),
    }
}

/// Plans a boolean condition. Column comparisons against literals keep forms of
/// their own (literals are coerced to the column type, and indexes can use
/// them); subqueries become subquery filters; anything else is evaluated as a
/// scalar expression. A condition none of these can express is an error.
pub fn parse_filter_expr(e: &SqlExpr, depth: usize, params: &Vec<Value>, facts: &Facts) -> (r:
    Result<FilterExpr, Halt>)
    ensures
        filter_outcome(r) == planned_filter(*e, depth as nat, vals(params@), facts@),
    decreases e, 1int,
{
    match &e.node {
        SqlNode::Nested(x) => parse_filter_expr(x, depth, params, facts),
        SqlNode::Binary { left, op: SqlBinaryOp::And, right } => match parse_filter_expr(
            left,
            depth,
            params,
            facts,
        ) {
            Ok(a) => match parse_filter_expr(right, depth, params, facts) {
                Ok(b) => Ok(FilterExpr::And(Box::new(a), Box::new(b))),
                Err(h) => Err(h),
            },
            Err(h) => Err(h),
        },
        SqlNode::Binary { left, op: SqlBinaryOp::Or, right } => match parse_filter_expr(
            left,
            depth,
            params,
            facts,
        ) {
            Ok(a) => match parse_filter_expr(right, depth, params, facts) {
                Ok(b) => Ok(FilterExpr::Or(Box::new(a), Box::new(b))),
                Err(h) => Err(h),
            },
            Err(h) => Err(h),
        },
        SqlNode::Unary { op: SqlUnaryOp::Not, expr } => match parse_filter_expr(
            expr,
            depth,
            params,
            facts,
        ) {
            Ok(a) => Ok(FilterExpr::Not(Box::new(a))),
            Err(h) => Err(h),
        },
        _ => match plan_test(e, depth, params, facts) {
            Ok(Some(f)) => Ok(f),
            Ok(None) => plan_scalar_filter(e, params, facts),
            Err(h) => Err(h),
        },
    }
}

/// Plans an optional `WHERE` clause. Every condition must be understood: an
/// unsupported one is an error rather than dropped, since a dropped condition
/// widens a query and makes UPDATE and DELETE touch every row.
pub fn parse_predicates(
    selection: &Option<SqlExpr>,
    depth: usize,
    params: &Vec<Value>,
    facts: &Facts,
) -> (r: Result<Option<FilterExpr>, Halt>)
    ensures
        opt_filter_outcome(r) == planned_where(*selection, depth as nat, vals(params@), facts@),
    decreases selection, 2int,
{
    match selection {
        Some(e) => match parse_filter_expr(e, depth, params, facts) {
            Ok(f) => Ok(Some(f)),
            Err(h) => Err(h),
        },
        None => Ok(None),
    }
}

/// Plans an optional `HAVING` clause as one boolean expression over each group,
/// so any operator the scalar evaluator supports works on aggregates and group
/// keys.
pub fn parse_having(having: &Option<SqlExpr>, params: &Vec<Value>, facts: &Facts) -> (r: Result<
    Option<FilterExpr>,
    Halt,
>)
    ensures
        opt_filter_outcome(r) == planned_having(*having, vals(params@), facts@),
{
    match having {
        Some(e) => match lower_scalar(e, params, facts) {
            Ok(Some(x)) => Ok(Some(FilterExpr::Scalar(x))),
            Ok(None) => Err(
                Halt::Raised(concat2("Unsupported HAVING condition: ", e.text.as_str())),
            ),
            Err(h) => Err(h),
        },
        None => Ok(None),
    }
}

} // verus!
