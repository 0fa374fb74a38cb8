//! Checking integer ranges in the expressions of a condition.
use vstd::prelude::*;
use crate::facts::{Facts, Halt, Known, Stop};
use crate::plan_conditions::filter_outcome;
use crate::plan_types::{operands, share, FilterExpr, Operand, Predicate};
use crate::plan_views::{filter_view, FilterView};
use crate::result_types::{check_integer_ranges, range_checked, ColumnTypes, DeclaredTypes};

verus! {

/// A condition with the integer ranges of its expressions checked.
pub open spec fn filter_checked(f: FilterExpr, columns: DeclaredTypes, k: Known) -> Result<
    FilterView,
    Stop,
>
    decreases f,
{
    match f {
        FilterExpr::And(a, b) => match filter_checked(*a, columns, k) {
            Ok(x) => match filter_checked(*b, columns, k) {
                Ok(y) => Ok(FilterView::And(Box::new(x), Box::new(y))),
                Err(s) => Err(s),
            },
            Err(s) => Err(s),
        },
        FilterExpr::Or(a, b) => match filter_checked(*a, columns, k) {
            Ok(x) => match filter_checked(*b, columns, k) {
                Ok(y) => Ok(FilterView::Or(Box::new(x), Box::new(y))),
                Err(s) => Err(s),
            },
            Err(s) => Err(s),
        },
        FilterExpr::Not(a) => match filter_checked(*a, columns, k) {
            Ok(x) => Ok(FilterView::Not(Box::new(x))),
            Err(s) => Err(s),
        },
        FilterExpr::ExprCmp { left, op, right } => match range_checked(left, columns, k) {
            Ok(x) => match range_checked(right, columns, k) {
                Ok(y) => Ok(FilterView::ExprCmp { left: x, op, right: y }),
                Err(s) => Err(s),
            },
            Err(s) => Err(s),
        },
        FilterExpr::Scalar(e) => match range_checked(e, columns, k) {
            Ok(x) => Ok(FilterView::Scalar(x)),
            Err(s) => Err(s),
        },
        FilterExpr::QuantifiedSubquery { left, op, subquery, all } => match range_checked(
            left,
            columns,
            k,
        ) {
            Ok(x) => Ok(
                FilterView::QuantifiedSubquery {
                    left: x,
                    op,
                    subquery: Box::new(crate::plan_views::plan_view(*subquery)),
                    all,
                },
            ),
            Err(s) => Err(s),
        },
        _ => Ok(filter_view(f)),
    }
}

impl Operand {
    /// A copy of the operand.
    pub fn duplicate(&self) -> (r: Operand)
        ensures
            r@ == self@,
    {
        match self {
            Operand::Literal(v) => Operand::Literal(v.duplicate()),
            Operand::Ident(n) => Operand::Ident(n.clone()),
        }
    }
}

fn copy_operands(list: &Vec<Operand>) -> (r: Vec<Operand>)
    ensures
        operands(r@) == operands(list@),
{
    let mut out: Vec<Operand> = Vec::new();
    let mut i: usize = 0;
    while i < list.len()
        invariant
            i <= list@.len(),
            out@.len() == i,
            forall|j: int| 0 <= j < i ==> (#[trigger] out@[j])@ == list@[j]@,
        decreases list@.len() - i,
    {
        out.push(list[i].duplicate());
        i = i + 1;
    }
    assert(operands(out@) =~= operands(list@));
    out
}

/// A condition with the integer ranges of its expressions checked.
pub fn check_filter_integer_ranges(filter: &FilterExpr, columns: &ColumnTypes, facts: &Facts) -> (r:
    Result<FilterExpr, Halt>)
    ensures
        filter_outcome(r) == filter_checked(*filter, columns@, facts@),
    decreases filter,
{
    match filter {
        FilterExpr::And(a, b) => match check_filter_integer_ranges(a, columns, facts) {
            Ok(x) => match check_filter_integer_ranges(b, columns, facts) {
                Ok(y) => Ok(FilterExpr::And(Box::new(x), Box::new(y))),
                Err(h) => Err(h),
            },
            Err(h) => Err(h),
        },
        FilterExpr::Or(a, b) => match check_filter_integer_ranges(a, columns, facts) {
            Ok(x) => match check_filter_integer_ranges(b, columns, facts) {
                Ok(y) => Ok(FilterExpr::Or(Box::new(x), Box::new(y))),
                Err(h) => Err(h),
            },
            Err(h) => Err(h),
        },
        FilterExpr::Not(a) => match check_filter_integer_ranges(a, columns, facts) {
            Ok(x) => Ok(FilterExpr::Not(Box::new(x))),
            Err(h) => Err(h),
        },
        FilterExpr::ExprCmp { left, op, right } => match check_integer_ranges(
            left,
            columns,
            facts,
        ) {
            Ok(x) => match check_integer_ranges(right, columns, facts) {
                Ok(y) => Ok(FilterExpr::ExprCmp { left: x, op: *op, right: y }),
                Err(h) => Err(h),
            },
            Err(h) => Err(h),
        },
        FilterExpr::Scalar(e) => match check_integer_ranges(e, columns, facts) {
            Ok(x) => Ok(FilterExpr::Scalar(x)),
            Err(h) => Err(h),
        },
        FilterExpr::QuantifiedSubquery { left, op, subquery, all } => match check_integer_ranges(
            left,
            columns,
            facts,
        ) {
            Ok(x) => Ok(
                FilterExpr::QuantifiedSubquery {
                    left: x,
                    op: *op,
                    subquery: share(subquery),
                    all: *all,
                },
            ),
            Err(h) => Err(h),
        },
        FilterExpr::Predicate(p) => Ok(
            FilterExpr::Predicate(
                Predicate { left: p.left.clone(), op: p.op, right: p.right.duplicate() },
            ),
        ),
        FilterExpr::IsNull(c) => Ok(FilterExpr::IsNull(c.clone())),
        FilterExpr::IsNotNull(c) => Ok(FilterExpr::IsNotNull(c.clone())),
        FilterExpr::InList { left, list, negated } => Ok(
            FilterExpr::InList {
                left: left.clone(),
                list: copy_operands(list),
                negated: *negated,
            },
        ),
        FilterExpr::InSubquery { left, subquery, negated, left_value } => {
            let left_value = match left_value {
                Some(v) => Some(v.duplicate()),
                None => None,
            };
            Ok(
                FilterExpr::InSubquery {
                    left: left.clone(),
                    subquery: share(subquery),
                    negated: *negated,
                    left_value,
                },
            )
        },
        FilterExpr::CompareSubquery { left, op, subquery } => Ok(
            FilterExpr::CompareSubquery {
                left: left.clone(),
                op: *op,
                subquery: share(subquery),
            },
        ),
        FilterExpr::Exists { subquery, negated } => Ok(
            FilterExpr::Exists { subquery: share(subquery), negated: *negated },
        ),
    }
}

} // verus!
