//! Evaluating scalar expressions with SQL NULL propagation and three-valued
//! logic.
use vstd::prelude::*;
use crate::cast::{cast, cast_value};
use crate::cells::{cell_at_if, cell_if};
use crate::expr::{branch_views, exprs, group_expr_views, ExprView};
use crate::facts::{
    asked, list_outcome, outcome, Facts, Halt, Known, RequestView, Stop, Task, TaskView,
};
use crate::pattern::{
    like_regex, like_to_regex, regex_is_match, regex_match, similar_regex, similar_to_regex,
};
use crate::plan_types::{PatternKind, ScalarBinaryOp, ScalarExpr, ScalarUnaryOp};
use crate::render::{equal_values, render, shown, values_equal};
use crate::scalar_ops::{
    any_or_all, apply_binary_op, apply_unary_op, binary_op, comparison, is_comparison,
    quantified_compare, unary_op,
};
use crate::temporal::{apply_date_offset, date_offset, extract_datetime_field, extracted};
use crate::text::{concat2, concat3, index_of, join, join_texts, position_of, texts};
use crate::value::{vals, Val, Value};

verus! {

broadcast use group_expr_views;

/// What the leaves of an expression stand for where it is evaluated.
#[verifier::ext_equal]
pub struct ScopeView {
    /// The value of each column reference.
    pub columns: spec_fn(Seq<char>) -> Val,
    /// The value of each aggregate call.
    pub aggregates: spec_fn(ExprView) -> Val,
}

/// Resolves the leaves of a [`ScalarExpr`] whose value depends on where it is
/// evaluated: column references and aggregate calls.
pub trait ScalarScope {
    /// What the leaves stand for.
    spec fn scope_view(&self) -> ScopeView;

    /// The value of a column reference.
    fn column(&self, name: &str) -> (r: Value)
        ensures
            r@ == (self.scope_view().columns)(name@),
    ;

    /// An aggregate over the scope's rows.
    fn aggregate(&self, expr: &ScalarExpr) -> (r: Value)
        ensures
            r@ == (self.scope_view().aggregates)(expr@),
    ;
}

/// The values that the column references of an expression were found to have
/// in one row. There is no other reference, and a single row has no
/// aggregates: those are NULL.
pub struct Bindings {
    pub references: Vec<String>,
    pub values: Vec<Value>,
}

/// What the leaves of an expression stand for where each reference has a value.
pub open spec fn bound(references: Seq<Seq<char>>, values: Seq<Val>) -> ScopeView {
    ScopeView {
        columns: |name: Seq<char>| cell_if(values, index_of(references, name)),
        aggregates: |e: ExprView| Val::Null,
    }
}

impl ScalarScope for Bindings {
    open spec fn scope_view(&self) -> ScopeView {
        bound(texts(self.references@), vals(self.values@))
    }

    fn column(&self, name: &str) -> (r: Value) {
        let at = position_of(&self.references, name);
        cell_at_if(&self.values, at)
    }

    fn aggregate(&self, expr: &ScalarExpr) -> (r: Value) {
        Value::Null
    }
}

// ---------------------------------------------------------------------------
// Sizes
// ---------------------------------------------------------------------------

/// The number of nodes of an expression.
pub open spec fn size(e: ExprView) -> nat
    decreases e,
{
    match e {
        ExprView::Literal(_) | ExprView::Column(_) | ExprView::Subquery(_, _)
        | ExprView::Aggregate { .. } => 1,
        ExprView::Unary(_, expr) => 1 + size(*expr),
        ExprView::Binary(_, left, right) => 1 + size(*left) + size(*right),
        ExprView::Cast(expr, _) => 1 + size(*expr),
        ExprView::Function(_, args) => 1 + total(args),
        ExprView::IsNull(expr, _) => 1 + size(*expr),
        ExprView::Extract(_, expr) => 1 + size(*expr),
        ExprView::DateOffset(base, _, _, _) => 1 + size(*base),
        ExprView::Case { operand, branches, else_result } => 1 + (match operand {
            Some(x) => size(*x),
            None => 0,
        }) + total_pairs(branches) + (match else_result {
            Some(x) => size(*x),
            None => 0,
        }),
        ExprView::PatternMatch { expr, pattern, .. } => 1 + size(*expr) + size(*pattern),
        ExprView::IsDistinctFrom(left, right, _) => 1 + size(*left) + size(*right),
        ExprView::IsBool(expr, _, _) => 1 + size(*expr),
        ExprView::InList(expr, list, _) => 1 + size(*expr) + total(list),
        ExprView::Quantified { left, right, .. } => 1 + size(*left) + size(*right),
        ExprView::Row(items) => 1 + total(items),
    }
}

/// The number of nodes of a list of expressions.
pub open spec fn total(s: Seq<ExprView>) -> nat
    decreases s,
{
    if s.len() == 0 {
        0
    } else {
        total(s.drop_last()) + size(s.last())
    }
}

/// The number of nodes of a list of branches.
pub open spec fn total_pairs(s: Seq<(ExprView, ExprView)>) -> nat
    decreases s,
{
    if s.len() == 0 {
        0
    } else {
        total_pairs(s.drop_last()) + size(s.last().0) + size(s.last().1)
    }
}

/// An expression of a list has at most the list's nodes.
pub proof fn lemma_total(s: Seq<ExprView>, i: int)
    requires
        0 <= i < s.len(),
    ensures
        size(s[i]) <= total(s),
    decreases s.len(),
{
    if i < s.len() - 1 {
        lemma_total(s.drop_last(), i);
    }
}

/// A branch of a list has at most the list's nodes.
pub proof fn lemma_total_pairs(s: Seq<(ExprView, ExprView)>, i: int)
    requires
        0 <= i < s.len(),
    ensures
        size(s[i].0) + size(s[i].1) <= total_pairs(s),
    decreases s.len(),
{
    if i < s.len() - 1 {
        lemma_total_pairs(s.drop_last(), i);
    }
}

// ---------------------------------------------------------------------------
// Pattern matching
// ---------------------------------------------------------------------------

/// Whether a value matches a pattern; `None` when either is NULL or the
/// pattern is invalid.
pub open spec fn matched(
    value: Val,
    pattern: Val,
    kind: PatternKind,
    case_insensitive: bool,
    escape: Option<char>,
    k: Known,
) -> Result<Option<bool>, Stop> {
    if value == Val::Null || pattern == Val::Null {
        Ok(None)
    } else {
        match shown(pattern, k) {
            Err(s) => Err(s),
            Ok(p) => {
                let source = match kind {
                    PatternKind::Like => like_regex(p, escape),
                    PatternKind::SimilarTo => similar_regex(p, escape),
                    PatternKind::Regex => Some(p),
                };
                match source {
                    None => Ok(None),
                    Some(src) => match shown(value, k) {
                        Err(s) => Err(s),
                        Ok(text) => Ok(
                            regex_match(
                                if case_insensitive {
                                    "(?i)"@ + src
                                } else {
                                    src
                                },
                                text,
                            ),
                        ),
                    },
                }
            },
        }
    }
}

/// What an optional truth result stands for.
pub open spec fn opt_bool_outcome(r: Result<Option<bool>, Halt>) -> Result<Option<bool>, Stop> {
    match r {
        Ok(b) => Ok(b),
        Err(h) => Err(h@),
    }
}

/// Matches `value` against a LIKE, SIMILAR TO, or POSIX regex pattern; `None`
/// when either side is NULL or the pattern is invalid.
pub fn pattern_match(
    value: &Value,
    pattern: &Value,
    kind: PatternKind,
    case_insensitive: bool,
    escape: Option<char>,
    facts: &Facts,
) -> (r: Result<Option<bool>, Halt>)
    ensures
        opt_bool_outcome(r) == matched(value@, pattern@, kind, case_insensitive, escape, facts@),
{
    if value.is_null() || pattern.is_null() {
        return Ok(None);
    }
    let p = match render(pattern, facts) {
        Ok(p) => p,
        Err(h) => return Err(h),
    };
    let translated = match kind {
        PatternKind::Like => like_to_regex(p.as_str(), escape),
        PatternKind::SimilarTo => similar_to_regex(p.as_str(), escape),
        PatternKind::Regex => Some(p),
    };
    let src = match translated {
        None => return Ok(None),
        Some(src) => src,
    };
    let text = match render(value, facts) {
        Ok(t) => t,
        Err(h) => return Err(h),
    };
    let source = if case_insensitive {
        concat2("(?i)", src.as_str())
    } else {
        src
    };
    Ok(regex_is_match(source.as_str(), text.as_str()))
}

// ---------------------------------------------------------------------------
// What an expression evaluates to
// ---------------------------------------------------------------------------

/// The value of an expression.
pub open spec fn eval(e: ExprView, scope: ScopeView, k: Known) -> Result<Val, Stop>
    decreases size(e), 0nat,
{
    match e {
        ExprView::Literal(v) => Ok(v),
        ExprView::Column(name) => Ok((scope.columns)(name)),
        ExprView::Aggregate { .. } => Ok((scope.aggregates)(e)),
        ExprView::Subquery(_, _) => Ok(Val::Null),
        ExprView::Unary(op, expr) => match eval(*expr, scope, k) {
            Err(s) => Err(s),
            Ok(v) => unary_op(op, v),
        },
        ExprView::Binary(op, left, right) => eval_pair(op, *left, *right, scope, k),
        ExprView::Cast(expr, target) => match eval(*expr, scope, k) {
            Err(s) => Err(s),
            Ok(v) => cast(v, target, k),
        },
        ExprView::Function(name, args) => match eval_list(args, args.len(), scope, k) {
            Err(s) => Err(s),
            Ok(vs) => asked(k, RequestView { task: TaskView::Call(name), args: vs }),
        },
        ExprView::IsNull(expr, negated) => match eval(*expr, scope, k) {
            Err(s) => Err(s),
            Ok(v) => Ok(Val::Bool((v == Val::Null) != negated)),
        },
        ExprView::Extract(field, expr) => match eval(*expr, scope, k) {
            Err(s) => Err(s),
            Ok(v) => extracted(v, field, k),
        },
        ExprView::DateOffset(base, months, days, seconds) => match eval(*base, scope, k) {
            Err(s) => Err(s),
            Ok(v) => date_offset(v, months, days, seconds, k),
        },
        ExprView::Case { operand, branches, else_result } => {
            let first = match operand {
                None => Ok(None),
                Some(x) => match eval(*x, scope, k) {
                    Err(s) => Err(s),
                    Ok(v) => Ok(Some(v)),
                },
            };
            match first {
                Err(s) => Err(s),
                Ok(op) => match eval_branches(op, branches, branches.len(), scope, k) {
                    Err(s) => Err(s),
                    Ok(Some(v)) => Ok(v),
                    Ok(None) => match else_result {
                        Some(x) => eval(*x, scope, k),
                        None => Ok(Val::Null),
                    },
                },
            }
        },
        ExprView::PatternMatch { expr, pattern, kind, case_insensitive, negated, escape } =>
            match eval(*expr, scope, k) {
                Err(s) => Err(s),
                Ok(v) => match eval(*pattern, scope, k) {
                    Err(s) => Err(s),
                    Ok(p) => match matched(v, p, kind, case_insensitive, escape, k) {
                        Err(s) => Err(s),
                        Ok(None) => Ok(Val::Null),
                        Ok(Some(hit)) => Ok(Val::Bool(hit != negated)),
                    },
                },
            },
        ExprView::IsDistinctFrom(left, right, negated) => match eval_pair(
            ScalarBinaryOp::NotEq,
            *left,
            *right,
            scope,
            k,
        ) {
            Err(s) => Err(s),
            Ok(Val::Bool(b)) => Ok(Val::Bool(b != negated)),
            Ok(_) => match eval(*left, scope, k) {
                Err(s) => Err(s),
                Ok(l) => match eval(*right, scope, k) {
                    Err(s) => Err(s),
                    Ok(r) => Ok(Val::Bool(!(l == Val::Null && r == Val::Null) != negated)),
                },
            },
        },
        ExprView::IsBool(expr, value, negated) => match eval(*expr, scope, k) {
            Err(s) => Err(s),
            Ok(v) => Ok(
                Val::Bool(
                    (match value {
                        Some(b) => v == Val::Bool(b),
                        None => v == Val::Null,
                    }) != negated,
                ),
            ),
        },
        ExprView::InList(expr, list, negated) => match eval_in(
            *expr,
            list,
            0,
            false,
            scope,
            k,
        ) {
            Err(s) => Err(s),
            Ok(v) => if negated {
                unary_op(ScalarUnaryOp::Not, v)
            } else {
                Ok(v)
            },
        },
        ExprView::Quantified { left, op, right, all } => match eval(*left, scope, k) {
            Err(s) => Err(s),
            Ok(l) => match eval(*right, scope, k) {
                Err(s) => Err(s),
                Ok(r) => any_or_all(op, l, r, all, k),
            },
        },
        ExprView::Row(items) => match eval_texts(items, items.len(), scope, k) {
            Err(s) => Err(s),
            Ok(ts) => Ok(Val::Text("("@ + join(ts, ","@) + ")"@)),
        },
    }
}

/// A binary operator on two expressions; row constructors are compared
/// element-wise.
pub open spec fn eval_pair(
    op: ScalarBinaryOp,
    left: ExprView,
    right: ExprView,
    scope: ScopeView,
    k: Known,
) -> Result<Val, Stop>
    decreases size(left) + size(right), 0nat,
{
    match (left, right) {
        (ExprView::Row(l), ExprView::Row(r)) if comparison(op) => if l.len() != r.len() {
            Ok(Val::Null)
        } else if op is Eq || op is NotEq {
            eval_rows_equal(op is Eq, l, r, 0, false, scope, k)
        } else {
            eval_rows_ordered(op, l, r, 0, scope, k)
        },
        _ => match eval(left, scope, k) {
            Err(s) => Err(s),
            Ok(a) => match eval(right, scope, k) {
                Err(s) => Err(s),
                Ok(b) => binary_op(op, a, b, k),
            },
        },
    }
}

/// Row equality from pair `i` on: false as soon as a pair differs, unknown if
/// a pair is unknown.
pub open spec fn eval_rows_equal(
    equal: bool,
    l: Seq<ExprView>,
    r: Seq<ExprView>,
    i: int,
    unknown: bool,
    scope: ScopeView,
    k: Known,
) -> Result<Val, Stop>
    decreases total(l) + total(r) + 1, l.len() - i,
{
    if i < 0 || i >= l.len() || i >= r.len() {
        Ok(
            if unknown {
                Val::Null
            } else {
                Val::Bool(equal)
            },
        )
    } else {
        proof {
            lemma_total(l, i);
            lemma_total(r, i);
        }
        match eval_pair(ScalarBinaryOp::Eq, l[i], r[i], scope, k) {
            Err(s) => Err(s),
            Ok(Val::Bool(b)) => if b {
                eval_rows_equal(equal, l, r, i + 1, unknown, scope, k)
            } else {
                Ok(Val::Bool(!equal))
            },
            Ok(_) => eval_rows_equal(equal, l, r, i + 1, true, scope, k),
        }
    }
}

/// Row ordering from pair `i` on: the first unequal pair decides, and an
/// unknown pair on the way makes it unknown.
pub open spec fn eval_rows_ordered(
    op: ScalarBinaryOp,
    l: Seq<ExprView>,
    r: Seq<ExprView>,
    i: int,
    scope: ScopeView,
    k: Known,
) -> Result<Val, Stop>
    decreases total(l) + total(r) + 1, l.len() - i,
{
    if i < 0 || i >= l.len() || i >= r.len() {
        Ok(Val::Bool(op is LtEq || op is GtEq))
    } else {
        proof {
            lemma_total(l, i);
            lemma_total(r, i);
        }
        match eval_pair(ScalarBinaryOp::Eq, l[i], r[i], scope, k) {
            Err(s) => Err(s),
            Ok(Val::Bool(b)) => if b {
                eval_rows_ordered(op, l, r, i + 1, scope, k)
            } else {
                eval_pair(
                    match op {
                        ScalarBinaryOp::LtEq => ScalarBinaryOp::Lt,
                        ScalarBinaryOp::GtEq => ScalarBinaryOp::Gt,
                        other => other,
                    },
                    l[i],
                    r[i],
                    scope,
                    k,
                )
            },
            Ok(_) => Ok(Val::Null),
        }
    }
}

/// The values of the first `n` expressions.
pub open spec fn eval_list(s: Seq<ExprView>, n: nat, scope: ScopeView, k: Known) -> Result<
    Seq<Val>,
    Stop,
>
    decreases total(s), n,
{
    if n == 0 || n > s.len() {
        Ok(Seq::empty())
    } else {
        proof {
            lemma_total(s, n - 1);
        }
        match eval_list(s, (n - 1) as nat, scope, k) {
            Err(e) => Err(e),
            Ok(before) => match eval(s[n - 1], scope, k) {
                Err(e) => Err(e),
                Ok(v) => Ok(before.push(v)),
            },
        }
    }
}

/// The texts of the values of the first `n` expressions.
pub open spec fn eval_texts(
    s: Seq<ExprView>,
    n: nat,
    scope: ScopeView,
    k: Known,
) -> Result<Seq<Seq<char>>, Stop>
    decreases total(s), n,
{
    if n == 0 || n > s.len() {
        Ok(Seq::empty())
    } else {
        proof {
            lemma_total(s, n - 1);
        }
        match eval_texts(s, (n - 1) as nat, scope, k) {
            Err(e) => Err(e),
            Ok(before) => match eval(s[n - 1], scope, k) {
                Err(e) => Err(e),
                Ok(v) => match shown(v, k) {
                    Err(e) => Err(e),
                    Ok(t) => Ok(before.push(t)),
                },
            },
        }
    }
}

/// Whether a `CASE` condition's value selects its branch.
pub open spec fn branch_hit(operand: Option<Val>, condition: Val, k: Known) -> Result<bool, Stop> {
    match operand {
        Some(v) => if v == Val::Null {
            Ok(false)
        } else {
            equal_values(v, condition, k)
        },
        None => Ok(condition == Val::Bool(true)),
    }
}

/// The result of the first of the first `n` branches that is selected.
pub open spec fn eval_branches(
    operand: Option<Val>,
    s: Seq<(ExprView, ExprView)>,
    n: nat,
    scope: ScopeView,
    k: Known,
) -> Result<Option<Val>, Stop>
    decreases total_pairs(s), n,
{
    if n == 0 || n > s.len() {
        Ok(None)
    } else {
        proof {
            lemma_total_pairs(s, n - 1);
        }
        match eval_branches(operand, s, (n - 1) as nat, scope, k) {
            Err(e) => Err(e),
            Ok(Some(v)) => Ok(Some(v)),
            Ok(None) => match eval(s[n - 1].0, scope, k) {
                Err(e) => Err(e),
                Ok(c) => match branch_hit(operand, c, k) {
                    Err(e) => Err(e),
                    Ok(hit) => if hit {
                        match eval(s[n - 1].1, scope, k) {
                            Err(e) => Err(e),
                            Ok(v) => Ok(Some(v)),
                        }
                    } else {
                        Ok(None)
                    },
                },
            },
        }
    }
}

/// `expr IN (list)` from item `i` on: true on a match; otherwise NULL if a
/// comparison was unknown.
pub open spec fn eval_in(
    expr: ExprView,
    list: Seq<ExprView>,
    i: int,
    unknown: bool,
    scope: ScopeView,
    k: Known,
) -> Result<Val, Stop>
    decreases size(expr) + total(list), list.len() + 1 - i,
{
    if i < 0 || i >= list.len() {
        Ok(
            if unknown {
                Val::Null
            } else {
                Val::Bool(false)
            },
        )
    } else {
        proof {
            lemma_total(list, i);
        }
        match eval_pair(ScalarBinaryOp::Eq, expr, list[i], scope, k) {
            Err(s) => Err(s),
            Ok(Val::Bool(b)) => if b {
                Ok(Val::Bool(true))
            } else {
                eval_in(expr, list, i + 1, unknown, scope, k)
            },
            Ok(_) => eval_in(expr, list, i + 1, true, scope, k),
        }
    }
}

// ---------------------------------------------------------------------------
// Evaluation
// ---------------------------------------------------------------------------

/// Evaluates a [`ScalarExpr`] with SQL NULL propagation and three-valued logic,
/// resolving columns and aggregates through `scope`.
#[verifier::rlimit(40)]
pub fn eval_scalar_in<S: ScalarScope>(expr: &ScalarExpr, scope: &S, facts: &Facts) -> (r: Result<
    Value,
    Halt,
>)
    ensures
        outcome(r) == eval(expr@, scope.scope_view(), facts@),
    decreases size(expr@), 0nat,
{
    match expr {
        ScalarExpr::Literal(v) => Ok(v.duplicate()),
        ScalarExpr::Column(name) => Ok(scope.column(name.as_str())),
        ScalarExpr::Aggregate { .. } => Ok(scope.aggregate(expr)),
        ScalarExpr::Subquery { .. } => Ok(Value::Null),
        ScalarExpr::Unary { op, expr } => match eval_scalar_in(&**expr, scope, facts) {
            Err(h) => Err(h),
            Ok(v) => apply_unary_op(*op, v),
        },
        ScalarExpr::Binary { op, left, right } => eval_comparison(
            *op,
            &**left,
            &**right,
            scope,
            facts,
        ),
        ScalarExpr::Cast { expr, target } => match eval_scalar_in(&**expr, scope, facts) {
            Err(h) => Err(h),
            Ok(v) => cast_value(v, target.as_str(), facts),
        },
        ScalarExpr::Function { name, args } => match eval_all(args, scope, facts) {
            Err(h) => Err(h),
            Ok(vs) => facts.ask(Task::Call(name.clone()), vs),
        },
        ScalarExpr::IsNull { expr, negated } => match eval_scalar_in(&**expr, scope, facts) {
            Err(h) => Err(h),
            Ok(v) => Ok(Value::Bool(v.is_null() != *negated)),
        },
        ScalarExpr::Extract { field, expr } => match eval_scalar_in(&**expr, scope, facts) {
            Err(h) => Err(h),
            Ok(v) => extract_datetime_field(&v, field.as_str(), facts),
        },
        ScalarExpr::DateOffset { base, months, days, seconds } => match eval_scalar_in(
            &**base,
            scope,
            facts,
        ) {
            Err(h) => Err(h),
            Ok(v) => apply_date_offset(&v, *months, *days, *seconds, facts),
        },
        ScalarExpr::Case { operand, branches, else_result } => {
            let first = match operand {
                None => None,
                Some(x) => match eval_scalar_in(&**x, scope, facts) {
                    Err(h) => return Err(h),
                    Ok(v) => Some(v),
                },
            };
            match eval_case(&first, branches, scope, facts) {
                Err(h) => Err(h),
                Ok(Some(v)) => Ok(v),
                Ok(None) => match else_result {
                    Some(x) => eval_scalar_in(&**x, scope, facts),
                    None => Ok(Value::Null),
                },
            }
        },
        ScalarExpr::PatternMatch { expr, pattern, kind, case_insensitive, negated, escape } => {
            let v = match eval_scalar_in(&**expr, scope, facts) {
                Err(h) => return Err(h),
                Ok(v) => v,
            };
            let p = match eval_scalar_in(&**pattern, scope, facts) {
                Err(h) => return Err(h),
                Ok(p) => p,
            };
            match pattern_match(&v, &p, *kind, *case_insensitive, *escape, facts) {
                Err(h) => Err(h),
                Ok(None) => Ok(Value::Null),
                Ok(Some(hit)) => Ok(Value::Bool(hit != *negated)),
            }
        },
        ScalarExpr::IsDistinctFrom { left, right, negated } => match eval_comparison(
            ScalarBinaryOp::NotEq,
            &**left,
            &**right,
            scope,
            facts,
        ) {
            Err(h) => Err(h),
            Ok(Value::Bool(b)) => Ok(Value::Bool(b != *negated)),
            Ok(_) => {
                let l = match eval_scalar_in(&**left, scope, facts) {
                    Err(h) => return Err(h),
                    Ok(v) => v,
                };
                let r = match eval_scalar_in(&**right, scope, facts) {
                    Err(h) => return Err(h),
                    Ok(v) => v,
                };
                let distinct: bool = !(l.is_null() && r.is_null());
                Ok(Value::Bool(distinct != *negated))
            },
        },
        ScalarExpr::IsBool { expr, value, negated } => match eval_scalar_in(
            &**expr,
            scope,
            facts,
        ) {
            Err(h) => Err(h),
            Ok(v) => {
                let hit: bool = match (value, &v) {
                    (Some(b), Value::Bool(c)) => *b == *c,
                    (None, Value::Null) => true,
                    _ => false,
                };
                Ok(Value::Bool(hit != *negated))
            },
        },
        ScalarExpr::InList { expr, list, negated } => match eval_in_list(
            &**expr,
            list,
            scope,
            facts,
        ) {
            Err(h) => Err(h),
            Ok(v) => {
                if *negated {
                    apply_unary_op(ScalarUnaryOp::Not, v)
                } else {
                    Ok(v)
                }
            },
        },
        ScalarExpr::Quantified { left, op, right, all } => {
            let l = match eval_scalar_in(&**left, scope, facts) {
                Err(h) => return Err(h),
                Ok(v) => v,
            };
            let r = match eval_scalar_in(&**right, scope, facts) {
                Err(h) => return Err(h),
                Ok(v) => v,
            };
            quantified_compare(*op, l, r, *all, facts)
        },
        ScalarExpr::Row(items) => match eval_all_texts(items, scope, facts) {
            Err(h) => Err(h),
            Ok(ts) => {
                let inner = join_texts(&ts, ",");
                Ok(Value::Text(concat3("(", inner.as_str(), ")")))
            },
        },
    }
}

/// Applies a binary operator, comparing row constructors element-wise.
pub fn eval_comparison<S: ScalarScope>(
    op: ScalarBinaryOp,
    left: &ScalarExpr,
    right: &ScalarExpr,
    scope: &S,
    facts: &Facts,
) -> (r: Result<Value, Halt>)
    ensures
        outcome(r) == eval_pair(op, left@, right@, scope.scope_view(), facts@),
    decreases size(left@) + size(right@), 0nat,
{
    if is_comparison(op) {
        if let (ScalarExpr::Row(l), ScalarExpr::Row(r)) = (left, right) {
            return compare_rows(op, l, r, scope, facts);
        }
    }
    let a = match eval_scalar_in(left, scope, facts) {
        Err(h) => return Err(h),
        Ok(v) => v,
    };
    let b = match eval_scalar_in(right, scope, facts) {
        Err(h) => return Err(h),
        Ok(v) => v,
    };
    apply_binary_op(op, a, b, facts)
}

/// PostgreSQL row comparison: `=`/`<>` hold only if every pair decides it, and
/// ordering is decided by the first unequal pair; a NULL on the way is unknown.
pub fn compare_rows<S: ScalarScope>(
    op: ScalarBinaryOp,
    left: &Vec<ScalarExpr>,
    right: &Vec<ScalarExpr>,
    scope: &S,
    facts: &Facts,
) -> (r: Result<Value, Halt>)
    requires
        comparison(op),
    ensures
        outcome(r) == (if left@.len() != right@.len() {
            Ok(Val::Null)
        } else if op is Eq || op is NotEq {
            eval_rows_equal(op is Eq, exprs(left@), exprs(right@), 0, false, scope.scope_view(), facts@)
        } else {
            eval_rows_ordered(op, exprs(left@), exprs(right@), 0, scope.scope_view(), facts@)
        }),
    decreases total(exprs(left@)) + total(exprs(right@)) + 1, left@.len() + 1,
{
    if left.len() != right.len() {
        return Ok(Value::Null);
    }
    let equal: bool = match op {
        ScalarBinaryOp::Eq => true,
        _ => false,
    };
    let equality: bool = match op {
        ScalarBinaryOp::Eq | ScalarBinaryOp::NotEq => true,
        _ => false,
    };
    if equality {
        let mut unknown: bool = false;
        let mut i: usize = 0;
        while i < left.len()
            invariant
                i <= left@.len() == right@.len(),
                op is Eq || op is NotEq,
                equal == (op is Eq),
                eval_rows_equal(equal, exprs(left@), exprs(right@), 0, false, scope.scope_view(), facts@) == eval_rows_equal(
                    equal,
                    exprs(left@),
                    exprs(right@),
                    i as int,
                    unknown,
                    scope.scope_view(),
                    facts@,
                ),
            decreases left@.len() - i,
        {
            proof {
                lemma_total(exprs(left@), i as int);
                lemma_total(exprs(right@), i as int);
            }
            match eval_comparison(ScalarBinaryOp::Eq, &left[i], &right[i], scope, facts) {
                Err(h) => {
                    return Err(h);
                },
                Ok(Value::Bool(b)) => {
                    if !b {
                        return Ok(Value::Bool(!equal));
                    }
                },
                Ok(_) => {
                    unknown = true;
                },
            }
            i = i + 1;
        }
        return if unknown {
            Ok(Value::Null)
        } else {
            Ok(Value::Bool(equal))
        };
    }
    let strict: ScalarBinaryOp = match op {
        ScalarBinaryOp::LtEq => ScalarBinaryOp::Lt,
        ScalarBinaryOp::GtEq => ScalarBinaryOp::Gt,
        other => other,
    };
    let mut i: usize = 0;
    while i < left.len()
        invariant
            i <= left@.len() == right@.len(),
            !(op is Eq) && !(op is NotEq),
            strict == (match op {
                ScalarBinaryOp::LtEq => ScalarBinaryOp::Lt,
                ScalarBinaryOp::GtEq => ScalarBinaryOp::Gt,
                other => other,
            }),
            eval_rows_ordered(op, exprs(left@), exprs(right@), 0, scope.scope_view(), facts@) == eval_rows_ordered(
                op,
                exprs(left@),
                exprs(right@),
                i as int,
                scope.scope_view(),
                facts@,
            ),
        decreases left@.len() - i,
    {
        proof {
            lemma_total(exprs(left@), i as int);
            lemma_total(exprs(right@), i as int);
        }
        match eval_comparison(ScalarBinaryOp::Eq, &left[i], &right[i], scope, facts) {
            Err(h) => {
                return Err(h);
            },
            Ok(Value::Bool(b)) => {
                if !b {
                    return eval_comparison(strict, &left[i], &right[i], scope, facts);
                }
            },
            Ok(_) => {
                return Ok(Value::Null);
            },
        }
        i = i + 1;
    }
    Ok(
        Value::Bool(
            match op {
                ScalarBinaryOp::LtEq | ScalarBinaryOp::GtEq => true,
                _ => false,
            },
        ),
    )
}

proof fn lemma_eval_list_fails(
    s: Seq<ExprView>,
    n: nat,
    m: nat,
    scope: ScopeView,
    k: Known,
)
    requires
        n <= m <= s.len(),
        eval_list(s, n, scope, k) is Err,
    ensures
        eval_list(s, m, scope, k) == eval_list(s, n, scope, k),
    decreases m,
{
    if n < m {
        lemma_eval_list_fails(s, n, (m - 1) as nat, scope, k);
    }
}

fn eval_all<S: ScalarScope>(items: &Vec<ScalarExpr>, scope: &S, facts: &Facts) -> (r: Result<
    Vec<Value>,
    Halt,
>)
    ensures
        list_outcome(r) == eval_list(exprs(items@), items@.len(), scope.scope_view(), facts@),
    decreases total(exprs(items@)), items@.len() + 1,
{
    let mut out: Vec<Value> = Vec::new();
    let mut i: usize = 0;
    assert(vals(out@) =~= Seq::<Val>::empty());
    while i < items.len()
        invariant
            i <= items@.len(),
            eval_list(exprs(items@), i as nat, scope.scope_view(), facts@) == Ok::<Seq<Val>, Stop>(vals(out@)),
        decreases items@.len() - i,
    {
        proof {
            lemma_total(exprs(items@), i as int);
        }
        match eval_scalar_in(&items[i], scope, facts) {
            Err(h) => {
                proof {
                    lemma_eval_list_fails(
                        exprs(items@),
                        (i + 1) as nat,
                        items@.len(),
                        scope.scope_view(),
                        facts@,
                    );
                }
                return Err(h);
            },
            Ok(v) => {
                let ghost before = out@;
                out.push(v);
                assert(vals(out@) =~= vals(before).push(v@));
            },
        }
        i = i + 1;
    }
    Ok(out)
}

proof fn lemma_eval_texts_fail(
    s: Seq<ExprView>,
    n: nat,
    m: nat,
    scope: ScopeView,
    k: Known,
)
    requires
        n <= m <= s.len(),
        eval_texts(s, n, scope, k) is Err,
    ensures
        eval_texts(s, m, scope, k) == eval_texts(s, n, scope, k),
    decreases m,
{
    if n < m {
        lemma_eval_texts_fail(s, n, (m - 1) as nat, scope, k);
    }
}

fn eval_all_texts<S: ScalarScope>(items: &Vec<ScalarExpr>, scope: &S, facts: &Facts) -> (r: Result<
    Vec<String>,
    Halt,
>)
    ensures
        crate::json_ops::texts_outcome(r) == eval_texts(exprs(items@), items@.len(), scope.scope_view(), facts@),
    decreases total(exprs(items@)), items@.len() + 1,
{
    let mut out: Vec<String> = Vec::new();
    let mut i: usize = 0;
    assert(texts(out@) =~= Seq::<Seq<char>>::empty());
    while i < items.len()
        invariant
            i <= items@.len(),
            eval_texts(exprs(items@), i as nat, scope.scope_view(), facts@) == Ok::<Seq<Seq<char>>, Stop>(texts(out@)),
        decreases items@.len() - i,
    {
        proof {
            lemma_total(exprs(items@), i as int);
        }
        let v = match eval_scalar_in(&items[i], scope, facts) {
            Err(h) => {
                proof {
                    lemma_eval_texts_fail(exprs(items@), (i + 1) as nat, items@.len(), scope.scope_view(), facts@);
                }
                return Err(h);
            },
            Ok(v) => v,
        };
        match render(&v, facts) {
            Err(h) => {
                proof {
                    lemma_eval_texts_fail(exprs(items@), (i + 1) as nat, items@.len(), scope.scope_view(), facts@);
                }
                return Err(h);
            },
            Ok(t) => {
                let ghost before = out@;
                out.push(t);
                assert(texts(out@) =~= texts(before).push(t@));
            },
        }
        i = i + 1;
    }
    Ok(out)
}

proof fn lemma_eval_branches_decided(
    operand: Option<Val>,
    s: Seq<(ExprView, ExprView)>,
    n: nat,
    m: nat,
    scope: ScopeView,
    k: Known,
)
    requires
        n <= m <= s.len(),
        eval_branches(operand, s, n, scope, k) != Ok::<Option<Val>, Stop>(None),
    ensures
        eval_branches(operand, s, m, scope, k) == eval_branches(operand, s, n, scope, k),
    decreases m,
{
    if n < m {
        lemma_eval_branches_decided(operand, s, n, (m - 1) as nat, scope, k);
    }
}

fn eval_case<S: ScalarScope>(
    operand: &Option<Value>,
    branches: &Vec<(ScalarExpr, ScalarExpr)>,
    scope: &S,
    facts: &Facts,
) -> (r: Result<Option<Value>, Halt>)
    ensures
        crate::scalar_ops::opt_outcome(r) == eval_branches(
            crate::value::opt_val(*operand),
            branch_views(branches@),
            branches@.len(),
            scope.scope_view(),
            facts@,
        ),
    decreases total_pairs(branch_views(branches@)), branches@.len() + 1,
{
    let ghost first = crate::value::opt_val(*operand);
    let mut i: usize = 0;
    while i < branches.len()
        invariant
            i <= branches@.len(),
            first == crate::value::opt_val(*operand),
            eval_branches(first, branch_views(branches@), i as nat, scope.scope_view(), facts@) == Ok::<Option<Val>, Stop>(
                None,
            ),
        decreases branches@.len() - i,
    {
        proof {
            lemma_total_pairs(branch_views(branches@), i as int);
            if eval_branches(first, branch_views(branches@), (i + 1) as nat, scope.scope_view(), facts@) != Ok::<
                Option<Val>,
                Stop,
            >(None) {
                lemma_eval_branches_decided(
                    first,
                    branch_views(branches@),
                    (i + 1) as nat,
                    branches@.len(),
                    scope.scope_view(),
                    facts@,
                );
            }
        }
        let condition = match eval_scalar_in(&branches[i].0, scope, facts) {
            Err(h) => return Err(h),
            Ok(v) => v,
        };
        let hit = match operand {
            Some(v) => {
                if v.is_null() {
                    Ok(false)
                } else {
                    values_equal(v, &condition, facts)
                }
            },
            None => match condition {
                Value::Bool(b) => Ok(b),
                _ => Ok(false),
            },
        };
        match hit {
            Err(h) => {
                return Err(h);
            },
            Ok(hit) => {
                if hit {
                    return match eval_scalar_in(&branches[i].1, scope, facts) {
                        Err(h) => Err(h),
                        Ok(v) => Ok(Some(v)),
                    };
                }
            },
        }
        i = i + 1;
    }
    Ok(None)
}

fn eval_in_list<S: ScalarScope>(
    expr: &ScalarExpr,
    list: &Vec<ScalarExpr>,
    scope: &S,
    facts: &Facts,
) -> (r: Result<Value, Halt>)
    ensures
        outcome(r) == eval_in(expr@, exprs(list@), 0, false, scope.scope_view(), facts@),
    decreases size(expr@) + total(exprs(list@)), list@.len() + 2,
{
    let mut unknown: bool = false;
    let mut i: usize = 0;
    while i < list.len()
        invariant
            i <= list@.len(),
            eval_in(expr@, exprs(list@), 0, false, scope.scope_view(), facts@) == eval_in(
                expr@,
                exprs(list@),
                i as int,
                unknown,
                scope.scope_view(),
                facts@,
            ),
        decreases list@.len() - i,
    {
        proof {
            lemma_total(exprs(list@), i as int);
        }
        match eval_comparison(ScalarBinaryOp::Eq, expr, &list[i], scope, facts) {
            Err(h) => {
                return Err(h);
            },
            Ok(Value::Bool(b)) => {
                if b {
                    return Ok(Value::Bool(true));
                }
            },
            Ok(_) => {
                unknown = true;
            },
        }
        i = i + 1;
    }
    if unknown {
        Ok(Value::Null)
    } else {
        Ok(Value::Bool(false))
    }
}

/// `IS NOT DISTINCT FROM` is the negation of `IS DISTINCT FROM`, and neither
/// is ever NULL.
pub proof fn law_distinct_from_is_two_valued(
    left: ExprView,
    right: ExprView,
    scope: ScopeView,
    k: Known,
)
    ensures
        match (
            eval(ExprView::IsDistinctFrom(Box::new(left), Box::new(right), false), scope, k),
            eval(ExprView::IsDistinctFrom(Box::new(left), Box::new(right), true), scope, k),
        ) {
            (Ok(a), Ok(b)) => a is Bool && b is Bool && a->Bool_0 == !b->Bool_0,
            (Err(a), Err(b)) => a == b,
            _ => false,
        },
{
}

/// Nothing is in an empty list.
pub proof fn law_in_list_of_nothing(expr: ExprView, scope: ScopeView, k: Known)
    ensures
        eval(ExprView::InList(Box::new(expr), Seq::empty(), false), scope, k) == Ok::<Val, Stop>(
            Val::Bool(false),
        ),
        eval(ExprView::InList(Box::new(expr), Seq::empty(), true), scope, k) == Ok::<Val, Stop>(
            Val::Bool(true),
        ),
{
    assert(eval_in(expr, Seq::empty(), 0, false, scope, k) == Ok::<Val, Stop>(Val::Bool(false)));
}

} // verus!
