//! What expressions mean: the relations that evaluation keeps between
//! operators, their negations, and the values they are applied to.
use vstd::prelude::*;
use crate::eval::{
    eval, eval_branches, eval_in, eval_pair, eval_rows_equal, eval_rows_ordered, matched,
    ScopeView,
};
use crate::expr::ExprView;
use crate::facts::{Known, Stop};
use crate::lower::between;
use crate::pattern::regex_match;
use crate::plan_types::{PatternKind, ScalarBinaryOp, ScalarUnaryOp};
use crate::scalar_ops::{any_or_all, binary_op, comparison, flat, quantified, unary_op};
use crate::value::Val;

verus! {

/// Whether `n` is the negation of `v` in three-valued logic: a truth value is
/// flipped, NULL stays NULL, and an error stays the same error.
pub open spec fn negates(n: Result<Val, Stop>, v: Result<Val, Stop>) -> bool {
    match v {
        Ok(Val::Bool(b)) => n == Ok::<Val, Stop>(Val::Bool(!b)),
        Ok(x) => x == Val::Null && n == Ok::<Val, Stop>(Val::Null),
        Err(s) => n == Err::<Val, Stop>(s),
    }
}

// ---------------------------------------------------------------------------
// Pattern matching
// ---------------------------------------------------------------------------

/// `x NOT LIKE p` is the negation of `x LIKE p`, for every value and pattern,
/// and so for `ILIKE`, `SIMILAR TO`, and the regular-expression operators; it
/// is NULL exactly where `x LIKE p` is.
pub proof fn law_a_negated_match_negates(
    expr: ExprView,
    pattern: ExprView,
    kind: PatternKind,
    case_insensitive: bool,
    escape: Option<char>,
    scope: ScopeView,
    k: Known,
)
    ensures
        ({
            let plain = eval(
                ExprView::PatternMatch {
                    expr: Box::new(expr),
                    pattern: Box::new(pattern),
                    kind,
                    case_insensitive,
                    negated: false,
                    escape,
                },
                scope,
                k,
            );
            let negated = eval(
                ExprView::PatternMatch {
                    expr: Box::new(expr),
                    pattern: Box::new(pattern),
                    kind,
                    case_insensitive,
                    negated: true,
                    escape,
                },
                scope,
                k,
            );
            negates(negated, plain) && negates(unary_of(plain), plain) && negated == unary_of(plain)
        }),
{
}

/// `NOT` applied to what an expression evaluates to.
pub open spec fn unary_of(r: Result<Val, Stop>) -> Result<Val, Stop> {
    match r {
        Ok(v) => unary_op(ScalarUnaryOp::Not, v),
        Err(s) => Err(s),
    }
}

/// A text matches a regular expression exactly where the expression finds it:
/// a match is true, a miss false, and an invalid expression unknown.
/// `~*` asks the same of the expression marked as ignoring case.
pub proof fn law_a_match_is_what_the_expression_finds(
    text: Seq<char>,
    pattern: Seq<char>,
    scope: ScopeView,
    k: Known,
)
    ensures
        ({
            let ask = |ci: bool|
                eval(
                    ExprView::PatternMatch {
                        expr: Box::new(ExprView::Literal(Val::Text(text))),
                        pattern: Box::new(ExprView::Literal(Val::Text(pattern))),
                        kind: PatternKind::Regex,
                        case_insensitive: ci,
                        negated: false,
                        escape: None,
                    },
                    scope,
                    k,
                );
            &&& regex_match(pattern, text) == Some(true) <==> ask(false) == Ok::<Val, Stop>(
                Val::Bool(true),
            )
            &&& regex_match(pattern, text) == Some(false) <==> ask(false) == Ok::<Val, Stop>(
                Val::Bool(false),
            )
            &&& regex_match(pattern, text) is None <==> ask(false) == Ok::<Val, Stop>(Val::Null)
            &&& regex_match("(?i)"@ + pattern, text) == Some(true) <==> ask(true) == Ok::<
                Val,
                Stop,
            >(Val::Bool(true))
            &&& regex_match("(?i)"@ + pattern, text) == Some(false) <==> ask(true) == Ok::<
                Val,
                Stop,
            >(Val::Bool(false))
        }),
{
    reveal_with_fuel(eval, 2);
}

/// A match with NULL on either side is unknown, whatever the other side is.
pub proof fn law_a_match_with_null_is_unknown(
    v: Val,
    kind: PatternKind,
    case_insensitive: bool,
    escape: Option<char>,
    k: Known,
)
    ensures
        matched(Val::Null, v, kind, case_insensitive, escape, k) == Ok::<Option<bool>, Stop>(None),
        matched(v, Val::Null, kind, case_insensitive, escape, k) == Ok::<Option<bool>, Stop>(None),
{
}

// ---------------------------------------------------------------------------
// Comparisons and logic
// ---------------------------------------------------------------------------

/// Each comparison of two integers is true exactly where it holds.
pub proof fn law_comparisons_of_integers(a: i64, b: i64, k: Known)
    ensures
        ({
            let of = |op: ScalarBinaryOp| binary_op(op, Val::Int(a), Val::Int(b), k);
            &&& of(ScalarBinaryOp::Eq) == Ok::<Val, Stop>(Val::Bool(a == b))
            &&& of(ScalarBinaryOp::NotEq) == Ok::<Val, Stop>(Val::Bool(a != b))
            &&& of(ScalarBinaryOp::Lt) == Ok::<Val, Stop>(Val::Bool(a < b))
            &&& of(ScalarBinaryOp::LtEq) == Ok::<Val, Stop>(Val::Bool(a <= b))
            &&& of(ScalarBinaryOp::Gt) == Ok::<Val, Stop>(Val::Bool(a > b))
            &&& of(ScalarBinaryOp::GtEq) == Ok::<Val, Stop>(Val::Bool(a >= b))
        }),
{
    reveal(binary_op);
}

/// False comes before true, and truth values are equal where they are the
/// same.
pub proof fn law_comparisons_of_truth_values(a: bool, b: bool, k: Known)
    ensures
        ({
            let of = |op: ScalarBinaryOp| binary_op(op, Val::Bool(a), Val::Bool(b), k);
            &&& of(ScalarBinaryOp::Eq) == Ok::<Val, Stop>(Val::Bool(a == b))
            &&& of(ScalarBinaryOp::Lt) == Ok::<Val, Stop>(Val::Bool(!a && b))
            &&& of(ScalarBinaryOp::Gt) == Ok::<Val, Stop>(Val::Bool(a && !b))
        }),
{
    reveal(binary_op);
}

/// For all values, `<>` negates `=`, `>=` negates `<`, and `<=` negates `>`.
pub proof fn law_comparisons_in_pairs(l: Val, r: Val, k: Known)
    ensures
        negates(
            binary_op(ScalarBinaryOp::NotEq, l, r, k),
            binary_op(ScalarBinaryOp::Eq, l, r, k),
        ),
        negates(
            binary_op(ScalarBinaryOp::GtEq, l, r, k),
            binary_op(ScalarBinaryOp::Lt, l, r, k),
        ),
        negates(
            binary_op(ScalarBinaryOp::LtEq, l, r, k),
            binary_op(ScalarBinaryOp::Gt, l, r, k),
        ),
        binary_op(ScalarBinaryOp::Lt, l, r, k) == Ok::<Val, Stop>(Val::Bool(true)) ==> binary_op(
            ScalarBinaryOp::Gt,
            l,
            r,
            k,
        ) == Ok::<Val, Stop>(Val::Bool(false)) && binary_op(ScalarBinaryOp::Eq, l, r, k) == Ok::<
            Val,
            Stop,
        >(Val::Bool(false)),
{
    reveal(binary_op);
}

/// `AND`, `OR`, and `NOT` on truth values, and beside NULL: unknown unless the
/// other side decides.
pub proof fn law_connectives(a: bool, b: bool, k: Known)
    ensures
        binary_op(ScalarBinaryOp::And, Val::Bool(a), Val::Bool(b), k) == Ok::<Val, Stop>(
            Val::Bool(a && b),
        ),
        binary_op(ScalarBinaryOp::Or, Val::Bool(a), Val::Bool(b), k) == Ok::<Val, Stop>(
            Val::Bool(a || b),
        ),
        unary_op(ScalarUnaryOp::Not, Val::Bool(a)) == Ok::<Val, Stop>(Val::Bool(!a)),
        unary_op(ScalarUnaryOp::Not, Val::Null) == Ok::<Val, Stop>(Val::Null),
        forall|l: Val, r: Val|
            #![trigger binary_op(ScalarBinaryOp::And, l, r, k)]
            ((l == Val::Null && r == Val::Bool(a)) || (l == Val::Bool(a) && r == Val::Null))
                ==> binary_op(ScalarBinaryOp::And, l, r, k) == Ok::<Val, Stop>(
                if a {
                    Val::Null
                } else {
                    Val::Bool(false)
                },
            ),
        forall|l: Val, r: Val|
            #![trigger binary_op(ScalarBinaryOp::Or, l, r, k)]
            ((l == Val::Null && r == Val::Bool(a)) || (l == Val::Bool(a) && r == Val::Null))
                ==> binary_op(ScalarBinaryOp::Or, l, r, k) == Ok::<Val, Stop>(
                if a {
                    Val::Bool(true)
                } else {
                    Val::Null
                },
            ),
        binary_op(ScalarBinaryOp::And, Val::Null, Val::Null, k) == Ok::<Val, Stop>(Val::Null),
        binary_op(ScalarBinaryOp::Or, Val::Null, Val::Null, k) == Ok::<Val, Stop>(Val::Null),
{
    reveal(binary_op);
}

// ---------------------------------------------------------------------------
// Arithmetic
// ---------------------------------------------------------------------------

/// Whether `r` is the integer `n`, or out of range where `n` does not fit.
pub open spec fn is_exactly(r: Result<Val, Stop>, n: int) -> bool {
    if i64::MIN <= n <= i64::MAX {
        r == Ok::<Val, Stop>(Val::Int(n as i64))
    } else {
        r == Err::<Val, Stop>(Stop::Raised("bigint out of range"@))
    }
}

/// Adding, subtracting, multiplying, and negating integers gives the exact
/// result where it fits, and is out of range where it does not.
pub proof fn law_integer_arithmetic_is_exact(a: i64, b: i64, k: Known)
    ensures
        is_exactly(binary_op(ScalarBinaryOp::Add, Val::Int(a), Val::Int(b), k), a + b),
        is_exactly(binary_op(ScalarBinaryOp::Sub, Val::Int(a), Val::Int(b), k), a - b),
        is_exactly(binary_op(ScalarBinaryOp::Mul, Val::Int(a), Val::Int(b), k), a * b),
        is_exactly(unary_op(ScalarUnaryOp::Neg, Val::Int(a)), -a),
{
    reveal(binary_op);
}

/// Dividing integers truncates toward zero: the quotient and the remainder
/// give the dividend back, the remainder is smaller than the divisor, and it
/// has the dividend's sign. Dividing by zero is an error.
#[verifier::rlimit(40)]
pub proof fn law_division_and_remainder(a: i64, b: i64, k: Known)
    ensures
        b == 0 ==> binary_op(ScalarBinaryOp::Div, Val::Int(a), Val::Int(b), k) == Err::<Val, Stop>(
            Stop::Raised("division by zero"@),
        ),
        b == 0 ==> binary_op(ScalarBinaryOp::Mod, Val::Int(a), Val::Int(b), k) == Err::<Val, Stop>(
            Stop::Raised("division by zero"@),
        ),
        b != 0 && !(a == i64::MIN && b == -1) ==> ({
            let q = binary_op(ScalarBinaryOp::Div, Val::Int(a), Val::Int(b), k);
            let m = binary_op(ScalarBinaryOp::Mod, Val::Int(a), Val::Int(b), k);
            &&& q is Ok && q->Ok_0 is Int
            &&& m is Ok && m->Ok_0 is Int
            &&& q->Ok_0->Int_0 * b + m->Ok_0->Int_0 == a
            &&& m->Ok_0->Int_0 < (if b < 0 {
                -b
            } else {
                b as int
            })
            &&& -m->Ok_0->Int_0 < (if b < 0 {
                -b
            } else {
                b as int
            })
            &&& a >= 0 ==> m->Ok_0->Int_0 >= 0
            &&& a <= 0 ==> m->Ok_0->Int_0 <= 0
        }),
{
    reveal(binary_op);
    if b != 0 {
        let x = if a < 0 {
            a * -1
        } else {
            a as int
        };
        let d = if b < 0 {
            b * -1
        } else {
            b as int
        };
        vstd::arithmetic::div_mod::lemma_fundamental_div_mod(x, d);
        vstd::arithmetic::div_mod::lemma_mod_bound(x, d);
        let q = x / d;
        assert(0 <= q <= x) by (nonlinear_arith)
            requires
                x >= 0,
                d > 0,
                q == x / d,
        ;
        assert(q == x ==> d == 1 || x == 0) by (nonlinear_arith)
            requires
                x >= 0,
                d > 0,
                x == d * q + x % d,
                0 <= x % d < d,
        ;
        assert(d * q == q * d && q * (d * -1) == -(q * d) && (q * -1) * d == -(q * d) && (q * -1)
            * (d * -1) == q * d) by (nonlinear_arith);
    }
}

// ---------------------------------------------------------------------------
// Tests
// ---------------------------------------------------------------------------

/// `IS NULL` is true exactly of NULL, and `IS NOT NULL` its negation; neither
/// is ever unknown.
pub proof fn law_is_null(expr: ExprView, scope: ScopeView, k: Known)
    requires
        eval(expr, scope, k) is Ok,
    ensures
        eval(ExprView::IsNull(Box::new(expr), false), scope, k) == Ok::<Val, Stop>(
            Val::Bool(eval(expr, scope, k)->Ok_0 is Null),
        ),
        eval(ExprView::IsNull(Box::new(expr), true), scope, k) == Ok::<Val, Stop>(
            Val::Bool(!(eval(expr, scope, k)->Ok_0 is Null)),
        ),
{
}

/// `IS TRUE`, `IS FALSE`, and `IS UNKNOWN` are true exactly of that truth
/// value, and their negations of every other value.
pub proof fn law_is_truth_value(expr: ExprView, b: bool, scope: ScopeView, k: Known)
    requires
        eval(expr, scope, k) is Ok,
    ensures
        ({
            let v = eval(expr, scope, k)->Ok_0;
            let test = |value: Option<bool>, negated: bool|
                eval(ExprView::IsBool(Box::new(expr), value, negated), scope, k);
            &&& test(Some(b), false) == Ok::<Val, Stop>(Val::Bool(v == Val::Bool(b)))
            &&& test(Some(b), true) == Ok::<Val, Stop>(Val::Bool(v != Val::Bool(b)))
            &&& test(None, false) == Ok::<Val, Stop>(Val::Bool(v is Null))
            &&& test(None, true) == Ok::<Val, Stop>(Val::Bool(!(v is Null)))
        }),
{
}

/// `IS DISTINCT FROM` tells integers apart as `<>` does and takes NULL for a
/// value equal to itself and to nothing else; `IS NOT DISTINCT FROM` is its
/// negation.
pub proof fn law_is_distinct_from(a: i64, b: i64, scope: ScopeView, k: Known)
    ensures
        ({
            let test = |l: Val, r: Val, negated: bool|
                eval(
                    ExprView::IsDistinctFrom(
                        Box::new(ExprView::Literal(l)),
                        Box::new(ExprView::Literal(r)),
                        negated,
                    ),
                    scope,
                    k,
                );
            &&& test(Val::Int(a), Val::Int(b), false) == Ok::<Val, Stop>(Val::Bool(a != b))
            &&& test(Val::Int(a), Val::Int(b), true) == Ok::<Val, Stop>(Val::Bool(a == b))
            &&& test(Val::Int(a), Val::Null, false) == Ok::<Val, Stop>(Val::Bool(true))
            &&& test(Val::Int(a), Val::Null, true) == Ok::<Val, Stop>(Val::Bool(false))
            &&& test(Val::Null, Val::Int(a), false) == Ok::<Val, Stop>(Val::Bool(true))
            &&& test(Val::Null, Val::Null, false) == Ok::<Val, Stop>(Val::Bool(false))
            &&& test(Val::Null, Val::Null, true) == Ok::<Val, Stop>(Val::Bool(true))
        }),
{
    reveal(binary_op);
    reveal_with_fuel(eval, 3);
}

/// For expressions that are no rows, `IS NOT DISTINCT FROM` negates
/// `IS DISTINCT FROM`.
pub proof fn law_distinct_from_negates(
    left: ExprView,
    right: ExprView,
    scope: ScopeView,
    k: Known,
)
    ensures
        negates(
            eval(ExprView::IsDistinctFrom(Box::new(left), Box::new(right), true), scope, k),
            eval(ExprView::IsDistinctFrom(Box::new(left), Box::new(right), false), scope, k),
        ),
{
}

// ---------------------------------------------------------------------------
// IN
// ---------------------------------------------------------------------------

/// What comparing an expression with an item of a list for equality gives.
pub open spec fn item_equal(
    expr: ExprView,
    list: Seq<ExprView>,
    i: int,
    scope: ScopeView,
    k: Known,
) -> Result<Val, Stop> {
    eval(ExprView::Binary(ScalarBinaryOp::Eq, Box::new(expr), Box::new(list[i])), scope, k)
}

proof fn lemma_in_from(
    expr: ExprView,
    list: Seq<ExprView>,
    i: int,
    unknown: bool,
    scope: ScopeView,
    k: Known,
)
    requires
        0 <= i <= list.len(),
        forall|j: int| i <= j < list.len() ==> (#[trigger] item_equal(expr, list, j, scope, k)) is Ok,
    ensures
        ({
            let r = eval_in(expr, list, i, unknown, scope, k);
            let hit = exists|j: int|
                i <= j < list.len() && #[trigger] item_equal(expr, list, j, scope, k) == Ok::<
                    Val,
                    Stop,
                >(Val::Bool(true));
            let open = unknown || exists|j: int|
                i <= j < list.len() && !((#[trigger] item_equal(
                    expr,
                    list,
                    j,
                    scope,
                    k,
                ))->Ok_0 is Bool);
            r == Ok::<Val, Stop>(
                if hit {
                    Val::Bool(true)
                } else if open {
                    Val::Null
                } else {
                    Val::Bool(false)
                },
            )
        }),
    decreases list.len() - i,
{
    if i < list.len() {
        let first = item_equal(expr, list, i, scope, k);
        assert(first == eval_pair(ScalarBinaryOp::Eq, expr, list[i], scope, k));
        if first != Ok::<Val, Stop>(Val::Bool(true)) {
            lemma_in_from(expr, list, i + 1, unknown || !(first->Ok_0 is Bool), scope, k);
        }
    }
}

/// `x IN (list)` is true where `x` equals an item, NULL where it equals none
/// but a comparison is unknown, and false otherwise; `x NOT IN (list)` is its
/// negation.
pub proof fn law_in_is_equality_with_some_item(
    expr: ExprView,
    list: Seq<ExprView>,
    scope: ScopeView,
    k: Known,
)
    requires
        forall|j: int| 0 <= j < list.len() ==> (#[trigger] item_equal(expr, list, j, scope, k)) is Ok,
    ensures
        ({
            let r = eval(ExprView::InList(Box::new(expr), list, false), scope, k);
            &&& r == Ok::<Val, Stop>(Val::Bool(true)) <==> exists|j: int|
                0 <= j < list.len() && #[trigger] item_equal(expr, list, j, scope, k) == Ok::<
                    Val,
                    Stop,
                >(Val::Bool(true))
            &&& r == Ok::<Val, Stop>(Val::Bool(false)) <==> forall|j: int|
                0 <= j < list.len() ==> #[trigger] item_equal(expr, list, j, scope, k) == Ok::<
                    Val,
                    Stop,
                >(Val::Bool(false))
            &&& r is Ok
            &&& negates(eval(ExprView::InList(Box::new(expr), list, true), scope, k), r)
        }),
{
    lemma_in_from(expr, list, 0, false, scope, k);
    let r = eval(ExprView::InList(Box::new(expr), list, false), scope, k);
    assert(r == eval_in(expr, list, 0, false, scope, k));
    if r == Ok::<Val, Stop>(Val::Bool(false)) {
        assert forall|j: int| 0 <= j < list.len() implies #[trigger] item_equal(
            expr,
            list,
            j,
            scope,
            k,
        ) == Ok::<Val, Stop>(Val::Bool(false)) by {
            assert(item_equal(expr, list, j, scope, k) is Ok);
            if item_equal(expr, list, j, scope, k)->Ok_0 is Bool {
                if item_equal(expr, list, j, scope, k)->Ok_0->Bool_0 {
                    assert(item_equal(expr, list, j, scope, k) == Ok::<Val, Stop>(Val::Bool(true)));
                }
            }
        }
    }
}

// ---------------------------------------------------------------------------
// CASE
// ---------------------------------------------------------------------------

proof fn lemma_branches(
    branches: Seq<(ExprView, ExprView)>,
    n: nat,
    i: int,
    scope: ScopeView,
    k: Known,
)
    requires
        n <= branches.len(),
        0 <= i <= n,
        forall|j: int|
            0 <= j < i ==> (#[trigger] eval(branches[j].0, scope, k)) is Ok && eval(
                branches[j].0,
                scope,
                k,
            ) != Ok::<Val, Stop>(Val::Bool(true)),
        i < n ==> eval(branches[i].0, scope, k) == Ok::<Val, Stop>(Val::Bool(true)) && eval(
            branches[i].1,
            scope,
            k,
        ) is Ok,
    ensures
        eval_branches(None, branches, n, scope, k) == Ok::<Option<Val>, Stop>(
            if i < n {
                Some(eval(branches[i].1, scope, k)->Ok_0)
            } else {
                None
            },
        ),
    decreases n,
{
    if n > 0 {
        let m = (n - 1) as nat;
        if i < n {
            if i < m {
                lemma_branches(branches, m, i, scope, k);
            } else {
                lemma_branches(branches, m, i, scope, k);
            }
        } else {
            lemma_branches(branches, m, m as int, scope, k);
            assert(eval(branches[m as int].0, scope, k) is Ok);
        }
    }
}

/// `CASE WHEN` gives the result of the first branch whose condition is true;
/// the branches behind it and `ELSE` do not count.
pub proof fn law_case_takes_the_first_true_branch(
    branches: Seq<(ExprView, ExprView)>,
    else_result: Option<Box<ExprView>>,
    i: int,
    scope: ScopeView,
    k: Known,
)
    requires
        0 <= i < branches.len(),
        forall|j: int|
            0 <= j < i ==> (#[trigger] eval(branches[j].0, scope, k)) is Ok && eval(
                branches[j].0,
                scope,
                k,
            ) != Ok::<Val, Stop>(Val::Bool(true)),
        eval(branches[i].0, scope, k) == Ok::<Val, Stop>(Val::Bool(true)),
        eval(branches[i].1, scope, k) is Ok,
    ensures
        eval(ExprView::Case { operand: None, branches, else_result }, scope, k) == eval(
            branches[i].1,
            scope,
            k,
        ),
{
    lemma_branches(branches, branches.len(), i, scope, k);
}

/// `CASE WHEN` without a true condition gives the result of `ELSE`, and NULL
/// where there is none.
pub proof fn law_case_falls_to_else(
    branches: Seq<(ExprView, ExprView)>,
    other: ExprView,
    scope: ScopeView,
    k: Known,
)
    requires
        forall|j: int|
            0 <= j < branches.len() ==> (#[trigger] eval(branches[j].0, scope, k)) is Ok && eval(
                branches[j].0,
                scope,
                k,
            ) != Ok::<Val, Stop>(Val::Bool(true)),
    ensures
        eval(
            ExprView::Case { operand: None, branches, else_result: Some(Box::new(other)) },
            scope,
            k,
        ) == eval(other, scope, k),
        eval(ExprView::Case { operand: None, branches, else_result: None }, scope, k) == Ok::<
            Val,
            Stop,
        >(Val::Null),
{
    lemma_branches(branches, branches.len(), branches.len() as int, scope, k);
}

/// `CASE x WHEN v THEN a ELSE b` with integers gives `a` where `x` equals `v`
/// and `b` where it does not; a NULL operand equals nothing.
pub proof fn law_case_with_an_operand(
    x: i64,
    v: i64,
    a: Val,
    b: Val,
    scope: ScopeView,
    k: Known,
)
    ensures
        ({
            let case = |operand: Val|
                eval(
                    ExprView::Case {
                        operand: Some(Box::new(ExprView::Literal(operand))),
                        branches: seq![
                            (ExprView::Literal(Val::Int(v)), ExprView::Literal(a)),
                        ],
                        else_result: Some(Box::new(ExprView::Literal(b))),
                    },
                    scope,
                    k,
                );
            &&& case(Val::Int(x)) == Ok::<Val, Stop>(
                if x == v {
                    a
                } else {
                    b
                },
            )
            &&& case(Val::Null) == Ok::<Val, Stop>(b)
        }),
{
    let s = seq![(ExprView::Literal(Val::Int(v)), ExprView::Literal(a))];
    reveal_with_fuel(eval, 3);
    reveal_with_fuel(eval_branches, 3);
    assert(s.len() == 1);
    assert(eval_branches(Some(Val::Int(x)), s, 0, scope, k) == Ok::<Option<Val>, Stop>(None));
    assert(eval_branches(Some(Val::Null), s, 0, scope, k) == Ok::<Option<Val>, Stop>(None));
}

// ---------------------------------------------------------------------------
// BETWEEN
// ---------------------------------------------------------------------------

/// `x BETWEEN lo AND hi` holds of integers where `x` lies between the two
/// bounds, both of which belong to the range.
pub proof fn law_between_of_integers(x: i64, lo: i64, hi: i64, scope: ScopeView, k: Known)
    ensures
        eval(
            between(
                ExprView::Literal(Val::Int(x)),
                ExprView::Literal(Val::Int(lo)),
                ExprView::Literal(Val::Int(hi)),
                false,
            ),
            scope,
            k,
        ) == Ok::<Val, Stop>(Val::Bool(lo <= x && x <= hi)),
{
    law_comparisons_of_integers(x, lo, k);
    law_comparisons_of_integers(x, hi, k);
    law_connectives(lo <= x, x <= hi, k);
    lemma_between(Val::Int(x), Val::Int(lo), Val::Int(hi), false, scope, k);
}

proof fn lemma_literal_pair(op: ScalarBinaryOp, l: Val, r: Val, scope: ScopeView, k: Known)
    ensures
        eval_pair(op, ExprView::Literal(l), ExprView::Literal(r), scope, k) == binary_op(
            op,
            l,
            r,
            k,
        ),
        eval(
            ExprView::Binary(op, Box::new(ExprView::Literal(l)), Box::new(ExprView::Literal(r))),
            scope,
            k,
        ) == binary_op(op, l, r, k),
{
    assert(eval(ExprView::Literal(l), scope, k) == Ok::<Val, Stop>(l));
    assert(eval(ExprView::Literal(r), scope, k) == Ok::<Val, Stop>(r));
}

proof fn lemma_between(x: Val, lo: Val, hi: Val, negated: bool, scope: ScopeView, k: Known)
    ensures
        ({
            let (below, above, both) = if negated {
                (ScalarBinaryOp::Lt, ScalarBinaryOp::Gt, ScalarBinaryOp::Or)
            } else {
                (ScalarBinaryOp::GtEq, ScalarBinaryOp::LtEq, ScalarBinaryOp::And)
            };
            eval(
                between(ExprView::Literal(x), ExprView::Literal(lo), ExprView::Literal(hi), negated),
                scope,
                k,
            ) == (match binary_op(below, x, lo, k) {
                Err(s) => Err(s),
                Ok(a) => match binary_op(above, x, hi, k) {
                    Err(s) => Err(s),
                    Ok(b) => binary_op(both, a, b, k),
                },
            })
        }),
{
    let (below, above, both) = if negated {
        (ScalarBinaryOp::Lt, ScalarBinaryOp::Gt, ScalarBinaryOp::Or)
    } else {
        (ScalarBinaryOp::GtEq, ScalarBinaryOp::LtEq, ScalarBinaryOp::And)
    };
    lemma_literal_pair(below, x, lo, scope, k);
    lemma_literal_pair(above, x, hi, scope, k);
    let e = between(ExprView::Literal(x), ExprView::Literal(lo), ExprView::Literal(hi), negated);
    let a = ExprView::Binary(
        below,
        Box::new(ExprView::Literal(x)),
        Box::new(ExprView::Literal(lo)),
    );
    let b = ExprView::Binary(
        above,
        Box::new(ExprView::Literal(x)),
        Box::new(ExprView::Literal(hi)),
    );
    assert(e == ExprView::Binary(both, Box::new(a), Box::new(b)));
    assert(eval(e, scope, k) == eval_pair(both, a, b, scope, k));
}

/// `x NOT BETWEEN lo AND hi` is the negation of `x BETWEEN lo AND hi`, for all
/// values.
pub proof fn law_not_between_negates(x: Val, lo: Val, hi: Val, scope: ScopeView, k: Known)
    ensures
        negates(
            eval(
                between(ExprView::Literal(x), ExprView::Literal(lo), ExprView::Literal(hi), true),
                scope,
                k,
            ),
            eval(
                between(ExprView::Literal(x), ExprView::Literal(lo), ExprView::Literal(hi), false),
                scope,
                k,
            ),
        ),
{
    lemma_between(x, lo, hi, true, scope, k);
    lemma_between(x, lo, hi, false, scope, k);
    law_comparisons_in_pairs(x, lo, k);
    law_comparisons_in_pairs(x, hi, k);
    let below = binary_op(ScalarBinaryOp::Lt, x, lo, k);
    let above = binary_op(ScalarBinaryOp::Gt, x, hi, k);
    if below is Ok && above is Ok {
        lemma_negated_and(
            binary_op(ScalarBinaryOp::GtEq, x, lo, k)->Ok_0,
            binary_op(ScalarBinaryOp::LtEq, x, hi, k)->Ok_0,
            below->Ok_0,
            above->Ok_0,
            k,
        );
    }
}

proof fn lemma_negated_and(a: Val, b: Val, not_a: Val, not_b: Val, k: Known)
    requires
        negates(Ok(a), Ok(not_a)),
        negates(Ok(b), Ok(not_b)),
    ensures
        negates(
            binary_op(ScalarBinaryOp::Or, not_a, not_b, k),
            binary_op(ScalarBinaryOp::And, a, b, k),
        ),
{
    reveal(binary_op);
}

// ---------------------------------------------------------------------------
// ANY and ALL
// ---------------------------------------------------------------------------

/// `x op ANY` over items of which none is compared as true is false, or NULL
/// where a comparison is unknown, and `x op ALL` over items of which none is
/// compared as false is true, or NULL where a comparison is unknown.
pub proof fn law_any_all_undecided(
    op: ScalarBinaryOp,
    left: Val,
    items: Seq<Val>,
    all: bool,
    unknown: bool,
    k: Known,
)
    requires
        forall|i: int|
            0 <= i < items.len() ==> (#[trigger] binary_op(op, left, items[i], k)) is Ok
                && binary_op(op, left, items[i], k) != Ok::<Val, Stop>(Val::Bool(!all)),
    ensures
        quantified(op, left, items, all, unknown, k) == Ok::<Val, Stop>(
            if unknown || exists|i: int|
                0 <= i < items.len() && !((#[trigger] binary_op(
                    op,
                    left,
                    items[i],
                    k,
                ))->Ok_0 is Bool) {
                Val::Null
            } else {
                Val::Bool(all)
            },
        ),
    decreases items.len(),
{
    if items.len() > 0 {
        let rest = items.skip(1);
        let first = binary_op(op, left, items[0], k);
        assert forall|i: int| 0 <= i < rest.len() implies (#[trigger] binary_op(
            op,
            left,
            rest[i],
            k,
        )) is Ok && binary_op(op, left, rest[i], k) != Ok::<Val, Stop>(Val::Bool(!all)) by {
            assert(rest[i] == items[i + 1]);
            assert(binary_op(op, left, items[i + 1], k) is Ok);
        }
        let now = unknown || !(first->Ok_0 is Bool);
        law_any_all_undecided(op, left, rest, all, now, k);
        if !unknown && first->Ok_0 is Bool {
            if exists|i: int|
                0 <= i < rest.len() && !((#[trigger] binary_op(
                    op,
                    left,
                    rest[i],
                    k,
                ))->Ok_0 is Bool) {
                let i = choose|i: int|
                    0 <= i < rest.len() && !((#[trigger] binary_op(
                        op,
                        left,
                        rest[i],
                        k,
                    ))->Ok_0 is Bool);
                assert(rest[i] == items[i + 1]);
                assert(!(binary_op(op, left, items[i + 1], k)->Ok_0 is Bool));
            } else {
                assert forall|i: int| 0 <= i < items.len() implies (#[trigger] binary_op(
                    op,
                    left,
                    items[i],
                    k,
                ))->Ok_0 is Bool by {
                    if i > 0 {
                        assert(rest[i - 1] == items[i]);
                        assert(binary_op(op, left, rest[i - 1], k)->Ok_0 is Bool);
                    }
                }
            }
        }
    }
}

proof fn lemma_flat_integers(items: Seq<i64>)
    ensures
        flat(items.map_values(|n: i64| Val::Int(n))) == items.map_values(|n: i64| Val::Int(n)),
    decreases items.len(),
{
    let vs = items.map_values(|n: i64| Val::Int(n));
    if items.len() > 0 {
        let rest = items.skip(1);
        lemma_flat_integers(rest);
        assert(vs.skip(1) =~= rest.map_values(|n: i64| Val::Int(n)));
        assert(vs[0] == Val::Int(items[0]));
        assert(flat(vs) == seq![vs[0]] + flat(vs.skip(1)));
        assert(seq![vs[0]] + vs.skip(1) =~= vs);
    } else {
        assert(flat(vs) =~= vs);
    }
}

/// Over an array of integers `x op ANY` is true exactly where the comparison
/// holds of some element, and `x op ALL` where it holds of every one.
pub proof fn law_any_and_all_of_integers(
    op: ScalarBinaryOp,
    x: i64,
    items: Seq<i64>,
    k: Known,
)
    requires
        comparison(op),
    ensures
        ({
            let list = Val::Array(items.map_values(|n: i64| Val::Int(n)));
            let holds = |i: int|
                binary_op(op, Val::Int(x), Val::Int(items[i]), k) == Ok::<Val, Stop>(
                    Val::Bool(true),
                );
            &&& any_or_all(op, Val::Int(x), list, false, k) == Ok::<Val, Stop>(
                Val::Bool(exists|i: int| 0 <= i < items.len() && #[trigger] holds(i)),
            )
            &&& any_or_all(op, Val::Int(x), list, true, k) == Ok::<Val, Stop>(
                Val::Bool(forall|i: int| 0 <= i < items.len() ==> #[trigger] holds(i)),
            )
        }),
{
    lemma_flat_integers(items);
    lemma_quantified_integers(op, x, items, false, k);
    lemma_quantified_integers(op, x, items, true, k);
}

proof fn lemma_quantified_integers(
    op: ScalarBinaryOp,
    x: i64,
    items: Seq<i64>,
    all: bool,
    k: Known,
)
    requires
        comparison(op),
    ensures
        ({
            let vs = items.map_values(|n: i64| Val::Int(n));
            let holds = |i: int|
                binary_op(op, Val::Int(x), Val::Int(items[i]), k) == Ok::<Val, Stop>(
                    Val::Bool(true),
                );
            quantified(op, Val::Int(x), vs, all, false, k) == Ok::<Val, Stop>(
                Val::Bool(
                    if all {
                        forall|i: int| 0 <= i < items.len() ==> #[trigger] holds(i)
                    } else {
                        exists|i: int| 0 <= i < items.len() && #[trigger] holds(i)
                    },
                ),
            )
        }),
    decreases items.len(),
{
    let vs = items.map_values(|n: i64| Val::Int(n));
    let holds = |i: int|
        binary_op(op, Val::Int(x), Val::Int(items[i]), k) == Ok::<Val, Stop>(Val::Bool(true));
    if items.len() > 0 {
        let rest = items.skip(1);
        let later = |i: int|
            binary_op(op, Val::Int(x), Val::Int(rest[i]), k) == Ok::<Val, Stop>(Val::Bool(true));
        lemma_quantified_integers(op, x, rest, all, k);
        assert(vs.skip(1) =~= rest.map_values(|n: i64| Val::Int(n)));
        law_comparisons_of_integers(x, items[0], k);
        let first = binary_op(op, Val::Int(x), Val::Int(items[0]), k);
        assert(first is Ok && first->Ok_0 is Bool);
        assert(holds(0) == first->Ok_0->Bool_0);
        assert forall|i: int| 0 <= i < rest.len() implies #[trigger] later(i) == holds(i + 1) by {
            assert(rest[i] == items[i + 1]);
        }
        assert forall|i: int| 1 <= i < items.len() implies #[trigger] holds(i) == later(i - 1) by {
            assert(rest[i - 1] == items[i]);
        }
    }
}

// ---------------------------------------------------------------------------
// Rows
// ---------------------------------------------------------------------------

/// Rows are unequal where they are not equal: `<>` negates `=`.
pub proof fn law_row_inequality_negates(
    l: Seq<ExprView>,
    r: Seq<ExprView>,
    scope: ScopeView,
    k: Known,
)
    ensures
        negates(
            eval_pair(ScalarBinaryOp::NotEq, ExprView::Row(l), ExprView::Row(r), scope, k),
            eval_pair(ScalarBinaryOp::Eq, ExprView::Row(l), ExprView::Row(r), scope, k),
        ),
{
    lemma_row_inequality(l, r, 0, false, scope, k);
}

proof fn lemma_row_inequality(
    l: Seq<ExprView>,
    r: Seq<ExprView>,
    i: int,
    unknown: bool,
    scope: ScopeView,
    k: Known,
)
    ensures
        negates(
            eval_rows_equal(false, l, r, i, unknown, scope, k),
            eval_rows_equal(true, l, r, i, unknown, scope, k),
        ),
    decreases l.len() - i,
{
    if !(i < 0 || i >= l.len() || i >= r.len()) {
        lemma_row_inequality(l, r, i + 1, unknown, scope, k);
        lemma_row_inequality(l, r, i + 1, true, scope, k);
    }
}

/// The row of integers that `s` holds.
pub open spec fn integer_row(s: Seq<i64>) -> Seq<ExprView> {
    s.map_values(|n: i64| ExprView::Literal(Val::Int(n)))
}

/// Rows of integers of the same length are equal where all their integers are,
/// and otherwise ordered by the first pair that differs.
pub proof fn law_rows_compare_by_the_first_difference(
    l: Seq<i64>,
    r: Seq<i64>,
    n: int,
    scope: ScopeView,
    k: Known,
)
    requires
        l.len() == r.len(),
        0 <= n <= l.len(),
        forall|j: int| 0 <= j < n ==> l[j] == r[j],
        n < l.len() ==> l[n] != r[n],
    ensures
        ({
            let of = |op: ScalarBinaryOp|
                eval_pair(
                    op,
                    ExprView::Row(integer_row(l)),
                    ExprView::Row(integer_row(r)),
                    scope,
                    k,
                );
            let less = n < l.len() && l[n] < r[n];
            let same = n == l.len();
            &&& of(ScalarBinaryOp::Eq) == Ok::<Val, Stop>(Val::Bool(same))
            &&& of(ScalarBinaryOp::NotEq) == Ok::<Val, Stop>(Val::Bool(!same))
            &&& of(ScalarBinaryOp::Lt) == Ok::<Val, Stop>(Val::Bool(less))
            &&& of(ScalarBinaryOp::LtEq) == Ok::<Val, Stop>(Val::Bool(less || same))
            &&& of(ScalarBinaryOp::Gt) == Ok::<Val, Stop>(Val::Bool(!less && !same))
            &&& of(ScalarBinaryOp::GtEq) == Ok::<Val, Stop>(Val::Bool(!less))
        }),
{
    let x = integer_row(l);
    let y = integer_row(r);
    assert(x.len() == y.len());
    lemma_integer_rows(ScalarBinaryOp::Lt, true, l, r, 0, n, scope, k);
    lemma_integer_rows(ScalarBinaryOp::LtEq, false, l, r, 0, n, scope, k);
    lemma_integer_rows(ScalarBinaryOp::Gt, true, l, r, 0, n, scope, k);
    lemma_integer_rows(ScalarBinaryOp::GtEq, false, l, r, 0, n, scope, k);
    lemma_row_pair(ScalarBinaryOp::Eq, x, y, scope, k);
    lemma_row_pair(ScalarBinaryOp::NotEq, x, y, scope, k);
    lemma_row_pair(ScalarBinaryOp::Lt, x, y, scope, k);
    lemma_row_pair(ScalarBinaryOp::LtEq, x, y, scope, k);
    lemma_row_pair(ScalarBinaryOp::Gt, x, y, scope, k);
    lemma_row_pair(ScalarBinaryOp::GtEq, x, y, scope, k);
}

proof fn lemma_row_pair(
    op: ScalarBinaryOp,
    l: Seq<ExprView>,
    r: Seq<ExprView>,
    scope: ScopeView,
    k: Known,
)
    requires
        l.len() == r.len(),
        comparison(op),
    ensures
        eval_pair(op, ExprView::Row(l), ExprView::Row(r), scope, k) == (if op is Eq || op is NotEq {
            eval_rows_equal(op is Eq, l, r, 0, false, scope, k)
        } else {
            eval_rows_ordered(op, l, r, 0, scope, k)
        }),
{
}

proof fn lemma_integer_rows(
    op: ScalarBinaryOp,
    equal: bool,
    l: Seq<i64>,
    r: Seq<i64>,
    i: int,
    n: int,
    scope: ScopeView,
    k: Known,
)
    requires
        l.len() == r.len(),
        0 <= i <= n <= l.len(),
        forall|j: int| 0 <= j < n ==> l[j] == r[j],
        n < l.len() ==> l[n] != r[n],
        op is Lt || op is LtEq || op is Gt || op is GtEq,
    ensures
        ({
            let less = n < l.len() && l[n] < r[n];
            let same = n == l.len();
            &&& eval_rows_ordered(op, integer_row(l), integer_row(r), i, scope, k) == Ok::<
                Val,
                Stop,
            >(
                Val::Bool(
                    match op {
                        ScalarBinaryOp::Lt => less,
                        ScalarBinaryOp::LtEq => less || same,
                        ScalarBinaryOp::Gt => !less && !same,
                        _ => !less,
                    },
                ),
            )
            &&& eval_rows_equal(equal, integer_row(l), integer_row(r), i, false, scope, k) == Ok::<
                Val,
                Stop,
            >(Val::Bool(equal == same))
        }),
    decreases n - i,
{
    let a = integer_row(l);
    let b = integer_row(r);
    assert(a.len() == l.len() && b.len() == r.len());
    if i < l.len() {
        assert(a[i] == ExprView::Literal(Val::Int(l[i])));
        assert(b[i] == ExprView::Literal(Val::Int(r[i])));
        law_comparisons_of_integers(l[i], r[i], k);
        lemma_literal_pair(ScalarBinaryOp::Eq, Val::Int(l[i]), Val::Int(r[i]), scope, k);
        lemma_literal_pair(ScalarBinaryOp::Lt, Val::Int(l[i]), Val::Int(r[i]), scope, k);
        lemma_literal_pair(ScalarBinaryOp::Gt, Val::Int(l[i]), Val::Int(r[i]), scope, k);
        let of = |o: ScalarBinaryOp| eval_pair(o, a[i], b[i], scope, k);
        assert(of(ScalarBinaryOp::Eq) == Ok::<Val, Stop>(Val::Bool(l[i] == r[i])));
        assert(of(ScalarBinaryOp::Lt) == Ok::<Val, Stop>(Val::Bool(l[i] < r[i])));
        assert(of(ScalarBinaryOp::Gt) == Ok::<Val, Stop>(Val::Bool(l[i] > r[i])));
        if i < n {
            lemma_integer_rows(op, equal, l, r, i + 1, n, scope, k);
        }
    }
}

} // verus!
