//! What planning promises of the conditions, joins, and set operations of a
//! query: they mean what their SQL says.
use vstd::prelude::*;
use crate::eval::{eval, ScopeView};
use crate::expr::ExprView;
use crate::expression_laws::{
    law_between_of_integers, law_comparisons_of_integers, law_connectives,
    law_integer_arithmetic_is_exact, law_not_between_negates,
};
use crate::facts::{asked, on_one, on_two, Known, Stop, TaskView};
use crate::interval::Interval;
use crate::json_ops::{has_all, has_any, has_key, shown_all};
use crate::literals::{col_name, interval_node, literal, operand, plain_name};
use crate::lower::{binary, lowered, pattern_op};
use crate::plan_changes::{planned_conflict, planned_delete, planned_update};
use crate::plan_parts::{
    ascending, count_of, directions, frame, frame_offset, keys_among, order_keys, window_item,
    window_order,
};
use crate::plan_types::{named_aggregate, AggregateOp, CompareOp, OperandView, WindowBound};
use crate::plan_views::{FilterView, ItemView};
use crate::planner::{
    comparing, planned_constraint, planned_filter, planned_operator, planned_select, planned_test,
    predicate_op, quantified_op, set_kind, Ctes,
};
use crate::scalar_ops::binary_op;
use crate::syntax::{
    Arguments, Assignment, Frame, FrameBound, FromItem, InsertClause, JoinConstraint,
    JoinOperator, OrderItem, Over, Select, SelectItem, SetOperator, SqlBinaryOp, SqlExpr, SqlNode,
};
use crate::text::{decimal, decimal_nat, is_digit, law_decimal_reads_back, lemma_decimal_nat};
use crate::value::{JsonView, Val};

verus! {

// ---------------------------------------------------------------------------
// What a planned condition keeps
// ---------------------------------------------------------------------------

/// Whether a planned comparison of a column with an operand keeps a row, by the
/// integers that the two hold.
pub open spec fn comparison_keeps(op: CompareOp, column: int, operand: int) -> bool {
    match op {
        CompareOp::Eq => column == operand,
        CompareOp::Ne => column != operand,
        CompareOp::Lt => column < operand,
        CompareOp::Le => column <= operand,
        CompareOp::Gt => column > operand,
        CompareOp::Ge => column >= operand,
        _ => false,
    }
}

/// Whether a planned condition on one integer column keeps the rows in which
/// that column holds `v`.
pub open spec fn filter_keeps(f: FilterView, v: int) -> bool
    decreases f,
{
    match f {
        FilterView::Predicate(p) => match p.right {
            OperandView::Literal(Val::Int(n)) => comparison_keeps(p.op, v, n as int),
            _ => false,
        },
        FilterView::And(a, b) => filter_keeps(*a, v) && filter_keeps(*b, v),
        FilterView::Or(a, b) => filter_keeps(*a, v) || filter_keeps(*b, v),
        FilterView::Not(a) => !filter_keeps(*a, v),
        FilterView::InList { left, list, negated } => (exists|i: int|
            0 <= i < list.len() && #[trigger] list[i] == OperandView::Literal(Val::Int(v as i64)))
            != negated,
        FilterView::IsNotNull(_) => true,
        _ => false,
    }
}

/// `column op literal` keeps exactly the rows for which the comparison holds:
/// for each of the six operators, the planned predicate is on that column and
/// keeps the integers for which the operator is true.
#[verifier::rlimit(40)]
pub proof fn law_a_planned_comparison_keeps_its_rows(
    e: SqlExpr,
    column: Seq<char>,
    n: i64,
    v: i64,
    depth: nat,
    params: Seq<Val>,
    k: Known,
)
    requires
        e.node is Binary,
        col_name(*e.node->Binary_left) == Some(column),
        operand(*e.node->Binary_right, params, k) == Ok::<Option<OperandView>, Stop>(
            Some(OperandView::Literal(Val::Int(n))),
        ),
    ensures
        ({
            let f = planned_filter(e, depth, params, k);
            let op = e.node->Binary_op;
            &&& op is Eq || op is NotEq || op is Lt || op is LtEq || op is Gt || op is GtEq ==> {
                &&& f is Ok && f->Ok_0 is Predicate
                &&& f->Ok_0->Predicate_0.left == column
                &&& f->Ok_0->Predicate_0.right == OperandView::Literal(Val::Int(n))
            }
            &&& op is Eq ==> filter_keeps(f->Ok_0, v as int) == (v == n)
            &&& op is NotEq ==> filter_keeps(f->Ok_0, v as int) == (v != n)
            &&& op is Lt ==> filter_keeps(f->Ok_0, v as int) == (v < n)
            &&& op is LtEq ==> filter_keeps(f->Ok_0, v as int) == (v <= n)
            &&& op is Gt ==> filter_keeps(f->Ok_0, v as int) == (v > n)
            &&& op is GtEq ==> filter_keeps(f->Ok_0, v as int) == (v >= n)
        }),
{
    let right = *e.node->Binary_right;
    assert(!(right.node is Subquery)) by {
        if right.node is Subquery {
            assert(plain_name(right) is None);
            assert(literal(right, params, k) == Ok::<Option<Val>, Stop>(None));
        }
    }
    reveal_with_fuel(planned_filter, 2);
    let op = e.node->Binary_op;
    if op is Eq || op is NotEq || op is Lt || op is LtEq || op is Gt || op is GtEq {
        let o = OperandView::Literal(Val::Int(n));
        let f = comparing(column, predicate_op(op)->Some_0, o);
        assert(planned_test(e, depth, params, k) == Ok::<Option<FilterView>, Stop>(Some(f)));
        assert(planned_filter(e, depth, params, k) == Ok::<FilterView, Stop>(f));
    }
}

/// A SQL comparison means the same wherever it is planned: the predicate of a
/// `WHERE`, the operator of an expression, and the operator of `ANY` and `ALL`
/// agree on all integers, and an operator that one of the six comparisons is
/// planned to is planned for no other.
pub proof fn law_comparisons_agree_wherever_planned(op: SqlBinaryOp, a: i64, b: i64, k: Known)
    requires
        op is Eq || op is NotEq || op is Lt || op is LtEq || op is Gt || op is GtEq,
    ensures
        predicate_op(op) is Some,
        binary(op) is Some,
        quantified_op(op) == binary(op),
        binary_op(binary(op)->Some_0, Val::Int(a), Val::Int(b), k) == Ok::<Val, Stop>(
            Val::Bool(comparison_keeps(predicate_op(op)->Some_0, a as int, b as int)),
        ),
        comparison_keeps(predicate_op(op)->Some_0, a as int, b as int) == (match op {
            SqlBinaryOp::Eq => a == b,
            SqlBinaryOp::NotEq => a != b,
            SqlBinaryOp::Lt => a < b,
            SqlBinaryOp::LtEq => a <= b,
            SqlBinaryOp::Gt => a > b,
            _ => a >= b,
        }),
        forall|other: SqlBinaryOp|
            #[trigger] predicate_op(other) == predicate_op(op) ==> other == op,
        forall|other: SqlBinaryOp|
            #[trigger] quantified_op(other) == quantified_op(op) ==> other == op,
{
    law_comparisons_of_integers(a, b, k);
}

/// `column BETWEEN low AND high` keeps the rows whose column lies between the
/// two, both bounds included, and `NOT BETWEEN` exactly the others.
#[verifier::rlimit(40)]
pub proof fn law_a_planned_range_keeps_its_rows(
    e: SqlExpr,
    low: i64,
    high: i64,
    v: i64,
    depth: nat,
    params: Seq<Val>,
    k: Known,
)
    requires
        e.node is Between,
        plain_name(*e.node->Between_expr) is Some,
        operand(*e.node->Between_low, params, k) == Ok::<Option<OperandView>, Stop>(
            Some(OperandView::Literal(Val::Int(low))),
        ),
        operand(*e.node->Between_high, params, k) == Ok::<Option<OperandView>, Stop>(
            Some(OperandView::Literal(Val::Int(high))),
        ),
    ensures
        planned_filter(e, depth, params, k) is Ok,
        filter_keeps(planned_filter(e, depth, params, k)->Ok_0, v as int) == ((low <= v && v
            <= high) != e.node->Between_negated),
{
    reveal_with_fuel(filter_keeps, 3);
    reveal_with_fuel(planned_filter, 2);
}

/// `AND`, `OR`, and `NOT` of conditions keep the rows that both, either, or not
/// the condition keeps, and brackets change nothing; a part that cannot be
/// planned fails the whole.
pub proof fn law_planned_conditions_combine(
    e: SqlExpr,
    v: int,
    depth: nat,
    params: Seq<Val>,
    k: Known,
)
    ensures
        ({
            let of = |x: SqlExpr| planned_filter(x, depth, params, k);
            &&& e.node is Nested ==> of(e) == of(*e.node->Nested_0)
            &&& e.node is Unary && e.node->Unary_op is Not ==> {
                &&& of(e) is Ok <==> of(*e.node->Unary_expr) is Ok
                &&& of(e) is Ok ==> filter_keeps(of(e)->Ok_0, v) == !filter_keeps(
                    of(*e.node->Unary_expr)->Ok_0,
                    v,
                )
            }
            &&& e.node is Binary && e.node->Binary_op is And ==> {
                let l = of(*e.node->Binary_left);
                let r = of(*e.node->Binary_right);
                &&& of(e) is Ok <==> l is Ok && r is Ok
                &&& of(e) is Ok ==> filter_keeps(of(e)->Ok_0, v) == (filter_keeps(l->Ok_0, v)
                    && filter_keeps(r->Ok_0, v))
            }
            &&& e.node is Binary && e.node->Binary_op is Or ==> {
                let l = of(*e.node->Binary_left);
                let r = of(*e.node->Binary_right);
                &&& of(e) is Ok <==> l is Ok && r is Ok
                &&& of(e) is Ok ==> filter_keeps(of(e)->Ok_0, v) == (filter_keeps(l->Ok_0, v)
                    || filter_keeps(r->Ok_0, v))
            }
        }),
{
}

/// `column IS NULL` and `column IS NOT NULL` are planned to tests on that
/// column, and `[NOT] IN` and `[NOT] EXISTS` keep whether they are negated.
#[verifier::rlimit(40)]
pub proof fn law_planned_tests_keep_their_sense(
    e: SqlExpr,
    depth: nat,
    params: Seq<Val>,
    k: Known,
)
    ensures
        ({
            let f = planned_filter(e, depth, params, k);
            &&& e.node is IsNull && plain_name(*e.node->IsNull_0) is Some ==> f == Ok::<
                FilterView,
                Stop,
            >(FilterView::IsNull(plain_name(*e.node->IsNull_0)->Some_0))
            &&& e.node is IsNotNull && plain_name(*e.node->IsNotNull_0) is Some ==> f == Ok::<
                FilterView,
                Stop,
            >(FilterView::IsNotNull(plain_name(*e.node->IsNotNull_0)->Some_0))
            &&& e.node is InList && f is Ok && f->Ok_0 is InList ==> f->Ok_0->InList_negated
                == e.node->InList_negated
            &&& e.node is Exists && f is Ok ==> f->Ok_0 is Exists && f->Ok_0->Exists_negated
                == e.node->Exists_negated
            &&& e.node is InSubquery && f is Ok && f->Ok_0 is InSubquery
                ==> f->Ok_0->InSubquery_negated == e.node->InSubquery_negated
            &&& e.node is InSubquery && f is Ok && !(f->Ok_0 is InSubquery) ==> (f->Ok_0 is Not
                <==> e.node->InSubquery_negated)
        }),
{
    reveal_with_fuel(planned_filter, 2);
}

// ---------------------------------------------------------------------------
// Operators of expressions
// ---------------------------------------------------------------------------

/// Each SQL operator computes what it says: `+` adds, `-` subtracts, `*`
/// multiplies, `/` and `%` are the quotient and the remainder, and `AND` and
/// `OR` combine truth values.
pub proof fn law_operators_compute_what_they_say(op: SqlBinaryOp, a: i64, b: i64, k: Known)
    ensures
        ({
            let r = binary_op(binary(op)->Some_0, Val::Int(a), Val::Int(b), k);
            &&& op is Plus && i64::MIN <= a + b <= i64::MAX ==> binary(op) is Some && r == Ok::<
                Val,
                Stop,
            >(Val::Int((a + b) as i64))
            &&& op is Minus && i64::MIN <= a - b <= i64::MAX ==> binary(op) is Some && r == Ok::<
                Val,
                Stop,
            >(Val::Int((a - b) as i64))
            &&& op is Multiply && i64::MIN <= a * b <= i64::MAX ==> binary(op) is Some && r
                == Ok::<Val, Stop>(Val::Int((a * b) as i64))
            &&& op is Divide && 0 <= a && 0 < b ==> binary(op) is Some && r == Ok::<Val, Stop>(
                Val::Int((a as int / b as int) as i64),
            )
            &&& op is Modulo && 0 <= a && 0 < b ==> binary(op) is Some && r == Ok::<Val, Stop>(
                Val::Int((a as int % b as int) as i64),
            )
        }),
        ({
            let (x, y) = (a > 0, b > 0);
            let r = binary_op(binary(op)->Some_0, Val::Bool(x), Val::Bool(y), k);
            &&& op is And ==> binary(op) is Some && r == Ok::<Val, Stop>(Val::Bool(x && y))
            &&& op is Or ==> binary(op) is Some && r == Ok::<Val, Stop>(Val::Bool(x || y))
        }),
{
    law_integer_arithmetic_is_exact(a, b, k);
    law_connectives(a > 0, b > 0, k);
    if 0 <= a && 0 < b {
        let (x, d) = (a as int, b as int);
        assert(0 <= x / d <= x) by (nonlinear_arith)
            requires
                x >= 0,
                d > 0,
        ;
        assert(0 <= x % d < d) by (nonlinear_arith)
            requires
                d > 0,
        ;
        reveal(binary_op);
    }
}

/// Each pattern operator that starts with `!` is the negation of the one
/// without it, each that ends in `*` ignores case where the other does not,
/// and nothing else about them differs.
pub proof fn law_pattern_operators_come_in_fours()
    ensures
        ({
            let of = |op: SqlBinaryOp| pattern_op(op);
            let four = |plain: SqlBinaryOp, star: SqlBinaryOp, not: SqlBinaryOp, both: SqlBinaryOp|
                {
                    &&& of(plain) is Some
                    &&& !of(plain)->Some_0.1 && !of(plain)->Some_0.2
                    &&& of(star) == Some((of(plain)->Some_0.0, true, false))
                    &&& of(not) == Some((of(plain)->Some_0.0, false, true))
                    &&& of(both) == Some((of(plain)->Some_0.0, true, true))
                };
            &&& four(
                SqlBinaryOp::RegexMatch,
                SqlBinaryOp::RegexIMatch,
                SqlBinaryOp::RegexNotMatch,
                SqlBinaryOp::RegexNotIMatch,
            )
            &&& four(
                SqlBinaryOp::LikeMatch,
                SqlBinaryOp::ILikeMatch,
                SqlBinaryOp::NotLikeMatch,
                SqlBinaryOp::NotILikeMatch,
            )
            &&& of(SqlBinaryOp::RegexMatch)->Some_0.0 is Regex
            &&& of(SqlBinaryOp::LikeMatch)->Some_0.0 is Like
        }),
{
}

/// `x IS NOT NULL` evaluates to the negation of `x IS NULL`, and `-x`, `+x`,
/// and `NOT x` to the negative, the value itself, and the negation of `x`.
#[verifier::rlimit(40)]
pub proof fn law_lowered_tests_and_signs(
    e: SqlExpr,
    scope: ScopeView,
    params: Seq<Val>,
    k: Known,
)
    ensures
        ({
            let value = |x: SqlExpr| eval(lowered(x, params, k)->Ok_0->Some_0, scope, k);
            let x = match e.node {
                SqlNode::IsNull(x) => *x,
                SqlNode::IsNotNull(x) => *x,
                SqlNode::Unary { op, expr } => *expr,
                _ => e,
            };
            lowered(x, params, k) is Ok && lowered(x, params, k)->Ok_0 is Some && value(x) is Ok
                ==> ({
                let v = value(x)->Ok_0;
                &&& e.node is IsNull ==> value(e) == Ok::<Val, Stop>(Val::Bool(v is Null))
                &&& e.node is IsNotNull ==> value(e) == Ok::<Val, Stop>(Val::Bool(!(v is Null)))
                &&& e.node is Unary && e.node->Unary_op is Plus ==> value(e) == value(x)
                &&& e.node is Unary && e.node->Unary_op is Not && v is Bool ==> value(e) == Ok::<
                    Val,
                    Stop,
                >(Val::Bool(!v->Bool_0))
                &&& e.node is Unary && e.node->Unary_op is Minus && v is Int && v->Int_0
                    > i64::MIN ==> value(e) == Ok::<Val, Stop>(Val::Int((-v->Int_0) as i64))
            })
        }),
{
    reveal_with_fuel(lowered, 2);
    reveal_with_fuel(eval, 2);
}

// ---------------------------------------------------------------------------
// Joins and set operations
// ---------------------------------------------------------------------------

/// A join is planned to the type that its SQL names, with the relation it
/// names; only a join with a condition is planned with one.
pub proof fn law_joins_keep_their_type(
    name: Seq<char>,
    alias: Option<Seq<char>>,
    op: JoinOperator,
    depth: nat,
    params: Seq<Val>,
    k: Known,
)
    ensures
        ({
            let r = planned_operator(name, alias, op, depth, params, k);
            r is Ok ==> ({
                let j = r->Ok_0;
                &&& j.table_name == name && j.table_alias == alias
                &&& j.join_type is Inner <==> op is Inner
                &&& j.join_type is LeftOuter <==> op is Left
                &&& j.join_type is RightOuter <==> op is Right
                &&& j.join_type is FullOuter <==> op is Full
                &&& j.join_type is Cross <==> op is Cross
                &&& !j.natural || j.using_columns.len() == 0
                &&& op is Cross ==> j.condition is None && !j.natural && j.using_columns.len() == 0
            })
        }),
{
    let r = planned_operator(name, alias, op, depth, params, k);
    match op {
        JoinOperator::Inner(c) => lemma_constraint(c, depth, params, k),
        JoinOperator::Left(c) => lemma_constraint(c, depth, params, k),
        JoinOperator::Right(c) => lemma_constraint(c, depth, params, k),
        JoinOperator::Full(c) => lemma_constraint(c, depth, params, k),
        _ => {},
    }
}

proof fn lemma_constraint(c: JoinConstraint, depth: nat, params: Seq<Val>, k: Known)
    ensures
        planned_constraint(c, depth, params, k) is Ok ==> ({
            let (f, u, n) = planned_constraint(c, depth, params, k)->Ok_0;
            &&& n ==> u.len() == 0
            &&& n <==> c is Natural
            &&& f is Some <==> c is On
        }),
{
}

/// A constraint of a join keeps to itself: `ON` gives the condition that a
/// `WHERE` with the same expression would, `USING` the columns it lists, and
/// `NATURAL` neither.
pub proof fn law_join_constraints(c: JoinConstraint, depth: nat, params: Seq<Val>, k: Known)
    ensures
        ({
            let r = planned_constraint(c, depth, params, k);
            &&& c is On ==> (r is Ok <==> planned_filter(c->On_0, depth, params, k) is Ok)
            &&& c is On && r is Ok ==> r->Ok_0.0 == Some(
                planned_filter(c->On_0, depth, params, k)->Ok_0,
            ) && r->Ok_0.1.len() == 0 && !r->Ok_0.2
            &&& c is Using ==> r is Ok && r->Ok_0.0 is None && !r->Ok_0.2 && r->Ok_0.1.len()
                == c->Using_0@.len() && forall|i: int|
                0 <= i < r->Ok_0.1.len() ==> #[trigger] r->Ok_0.1[i] == c->Using_0@[i]@
            &&& c is Natural ==> r is Ok && r->Ok_0.0 is None && r->Ok_0.2 && r->Ok_0.1.len() == 0
        }),
{
}

/// Set operators are told apart: `EXCEPT` and `MINUS` are the same operation,
/// and no two of the others are.
pub proof fn law_set_operators_are_told_apart(a: SetOperator, b: SetOperator)
    ensures
        set_kind(a) == set_kind(b) <==> a == b || ((a is Except || a is Minus) && (b is Except
            || b is Minus)),
        set_kind(a) is Union <==> a is Union,
        set_kind(a) is Intersect <==> a is Intersect,
        set_kind(a) is Except <==> a is Except || a is Minus,
{
}

// ---------------------------------------------------------------------------
// Clauses
// ---------------------------------------------------------------------------

/// A planned `SELECT` keeps each of its clauses in its own place: the limit is
/// what `LIMIT` counts, the offset what `OFFSET` counts, `WHERE` and `HAVING`
/// are its conditions, and it is distinct exactly with `DISTINCT`.
#[verifier::rlimit(40)]
pub proof fn law_a_planned_select_keeps_its_clauses(
    select: Select,
    ctes: Ctes,
    order_by: Seq<OrderItem>,
    limit: Option<SqlExpr>,
    offset: Option<SqlExpr>,
    depth: nat,
    params: Seq<Val>,
    k: Known,
)
    requires
        select.from@.len() > 0,
        planned_select(select, ctes, order_by, limit, offset, depth, params, k) is Ok,
    ensures
        ({
            let p = planned_select(select, ctes, order_by, limit, offset, depth, params, k)->Ok_0;
            let s = p->Select_0;
            &&& p is Select
            &&& count_of(limit, params, k) == Ok::<Option<usize>, Stop>(s.limit)
            &&& count_of(offset, params, k) == Ok::<Option<usize>, Stop>(s.offset)
            &&& s.distinct == select.distinct
            &&& s.filter is Some <==> select.selection is Some
            &&& s.having is Some <==> select.having is Some
            &&& s.filter is Some ==> planned_filter(select.selection->Some_0, depth, params, k)
                == Ok::<FilterView, Stop>(s.filter->Some_0)
            &&& s.having is Some ==> s.having->Some_0 is Scalar && lowered(
                select.having->Some_0,
                params,
                k,
            ) == Ok::<Option<ExprView>, Stop>(
                Some(s.having->Some_0->Scalar_0),
            )
        }),
{
}

/// A `LIMIT` or `OFFSET` that writes a count is that count, and one that is not
/// given is none.
pub proof fn law_counts_are_read_as_written(e: SqlExpr, n: i64, params: Seq<Val>, k: Known)
    requires
        literal(e, params, k) == Ok::<Option<Val>, Stop>(Some(Val::Int(n))),
        0 <= n <= usize::MAX,
    ensures
        count_of(Some(e), params, k) == Ok::<Option<usize>, Stop>(Some(n as usize)),
        count_of(None, params, k) == Ok::<Option<usize>, Stop>(None),
{
    law_decimal_reads_back(n);
    lemma_decimal_nat(n as nat);
    assert(decimal(n as int) == decimal_nat(n as nat));
    assert(is_digit(decimal_nat(n as nat)[0]));
}

/// An ordering key is descending exactly with `DESC`, keeps the place it gives
/// to NULLs, and orders by the column it names; keys keep their order.
pub proof fn law_ordering_keys_keep_their_direction(
    keys: Seq<OrderItem>,
    items: Seq<ItemView>,
    i: int,
)
    requires
        order_keys(keys, items) is Ok,
        0 <= i < keys.len(),
        forall|j: int| 0 <= j < keys.len() ==> plain_name((#[trigger] keys[j]).expr) is Some,
    ensures
        ({
            let r = order_keys(keys, items)->Ok_0;
            &&& r.len() == keys.len()
            &&& Some(r[i].0) == plain_name(keys[i].expr)
            &&& r[i].1 <==> keys[i].direction is None || keys[i].direction->Some_0 is Asc
            &&& !r[i].1 <==> keys[i].direction is Some && keys[i].direction->Some_0 is Desc
            &&& r[i].2 == keys[i].nulls_first
        }),
{
    lemma_directions(keys, 0);
    lemma_keys_among(keys, keys.len() as int, items, i);
}

proof fn lemma_directions(keys: Seq<OrderItem>, from: nat)
    requires
        from <= keys.len(),
        directions(keys, from) is Ok,
    ensures
        forall|j: int| from <= j < keys.len() ==> ascending((#[trigger] keys[j]).direction) is Ok,
    decreases keys.len() - from,
{
    if from < keys.len() {
        lemma_directions(keys, from + 1);
    }
}

proof fn lemma_keys_among(keys: Seq<OrderItem>, n: int, items: Seq<ItemView>, i: int)
    requires
        0 <= n <= keys.len(),
        forall|j: int| 0 <= j < keys.len() ==> plain_name((#[trigger] keys[j]).expr) is Some,
        forall|j: int| 0 <= j < keys.len() ==> ascending((#[trigger] keys[j]).direction) is Ok,
    ensures
        keys_among(keys, n, items).len() == n,
        0 <= i < n ==> keys_among(keys, n, items)[i] == (
            plain_name(keys[i].expr)->Some_0,
            ascending(keys[i].direction)->Ok_0,
            keys[i].nulls_first,
        ),
    decreases n,
{
    if n > 0 {
        lemma_keys_among(keys, n - 1, items, i);
        assert(plain_name(keys[n - 1].expr) is Some);
        assert(ascending(keys[n - 1].direction) is Ok);
    }
}

/// A window frame is planned as it is written: `ROWS` counts rows and the other
/// units count peers, `n PRECEDING` reaches back and `n FOLLOWING` ahead, the
/// first bound is its start and the second its end, and a frame with one bound
/// ends at the current row.
pub proof fn law_window_frames_are_kept(f: Frame)
    ensures
        ({
            let w = frame(Some(f))->Some_0;
            let told = |b: FrameBound, t: WindowBound|
                {
                    &&& b is CurrentRow <==> t is CurrentRow
                    &&& b is Preceding <==> t is Preceding || t is UnboundedPreceding
                    &&& b is Following <==> t is Following || t is UnboundedFollowing
                    &&& t is Preceding ==> frame_offset(b->Preceding_0) == Some(t->Preceding_0)
                    &&& t is Following ==> frame_offset(b->Following_0) == Some(t->Following_0)
                    &&& t is UnboundedPreceding ==> frame_offset(b->Preceding_0) is None
                    &&& t is UnboundedFollowing ==> frame_offset(b->Following_0) is None
                };
            &&& frame(None) is None
            &&& frame(Some(f)) is Some
            &&& w.units is Rows <==> f.units is Rows
            &&& told(f.start, w.start)
            &&& f.end is Some ==> told(f.end->Some_0, w.end)
            &&& f.end is None ==> w.end is CurrentRow
        }),
{
}

/// A window call is planned with its own name, partition, order, and frame, and
/// each of its ordering columns with its direction.
pub proof fn law_window_calls_keep_their_parts(
    name: Seq<char>,
    args: Arguments,
    over: Over,
    alias: Seq<char>,
    i: int,
)
    requires
        over is Spec,
        window_item(name, args, over, alias) is Ok,
        forall|j: int|
            0 <= j < over->order_by@.len() ==> col_name((#[trigger] over->order_by@[j]).expr)
                is Some,
        0 <= i < over->order_by@.len(),
    ensures
        ({
            let w = window_item(name, args, over, alias)->Ok_0;
            let key = over->order_by@[i];
            &&& w is WindowFunction
            &&& w->WindowFunction_func_name == name
            &&& w->WindowFunction_order_by.len() == over->order_by@.len()
            &&& Some(w->WindowFunction_order_by[i].0) == col_name(key.expr)
            &&& w->WindowFunction_order_by[i].1 <==> !(key.direction is Some
                && key.direction->Some_0 is Desc)
            &&& w->WindowFunction_frame == frame(over->Spec_frame)
        }),
{
    lemma_window_order(over->order_by@, 0, Seq::empty(), i);
}

proof fn lemma_window_order(keys: Seq<OrderItem>, from: nat, before: Seq<(Seq<char>, bool)>, i: int)
    requires
        from <= keys.len(),
        before.len() == from,
        window_order(keys, from, before) is Ok,
        forall|j: int| 0 <= j < keys.len() ==> col_name((#[trigger] keys[j]).expr) is Some,
        0 <= i < keys.len(),
        i < from ==> Some(before[i].0) == col_name(keys[i].expr) && (before[i].1 <==> !(
        keys[i].direction is Some && keys[i].direction->Some_0 is Desc)),
    ensures
        ({
            let r = window_order(keys, from, before)->Ok_0;
            &&& r.len() == keys.len()
            &&& Some(r[i].0) == col_name(keys[i].expr)
            &&& r[i].1 <==> !(keys[i].direction is Some && keys[i].direction->Some_0 is Desc)
        }),
    decreases keys.len() - from,
{
    if from < keys.len() {
        let c = col_name(keys[from as int].expr)->Some_0;
        let asc = ascending(keys[from as int].direction)->Ok_0;
        assert(col_name(keys[from as int].expr) is Some);
        lemma_window_order(keys, from + 1, before.push((c, asc)), i);
    }
}

// ---------------------------------------------------------------------------
// Changes
// ---------------------------------------------------------------------------

/// `UPDATE` and `DELETE` change the rows that a `SELECT` with the same `WHERE`
/// would read, in the table they name, and every row without a `WHERE`.
pub proof fn law_changes_use_their_condition(
    table: FromItem,
    assignments: Seq<Assignment>,
    e: SqlExpr,
    items: Option<Vec<SelectItem>>,
    params: Seq<Val>,
    k: Known,
)
    ensures
        ({
            let u = planned_update(false, table, assignments, Some(e), items, params, k);
            let d = planned_delete(false, seq![table], Some(e), items, params, k);
            &&& u is Ok ==> u->Ok_0 is Update && planned_filter(e, 0, params, k) == Ok::<
                FilterView,
                Stop,
            >(u->Ok_0->Update_filter->Some_0) && u->Ok_0->Update_filter is Some
                && table.relation.kind is Table && u->Ok_0->Update_table_name
                == table.relation.kind->Table_name@
            &&& d is Ok ==> d->Ok_0 is Delete && planned_filter(e, 0, params, k) == Ok::<
                FilterView,
                Stop,
            >(d->Ok_0->Delete_filter->Some_0) && d->Ok_0->Delete_filter is Some
                && table.relation.kind is Table && d->Ok_0->Delete_table_name
                == table.relation.kind->Table_name@
            &&& planned_update(false, table, assignments, None, items, params, k) is Ok
                ==> planned_update(
                false,
                table,
                assignments,
                None,
                items,
                params,
                k,
            )->Ok_0->Update_filter is None
        }),
{
    assert(seq![table][0] == table);
}

/// `ON CONFLICT DO NOTHING` and `DO UPDATE` are told apart, and an `INSERT`
/// without the clause has neither.
pub proof fn law_conflict_actions(on: Option<InsertClause>, params: Seq<Val>, k: Known)
    requires
        planned_conflict(on, params, k) is Ok,
    ensures
        ({
            let r = planned_conflict(on, params, k)->Ok_0;
            &&& on is None <==> r is None
            &&& r is Some ==> on->Some_0 is OnConflict && (r->Some_0 is DoNothing
                <==> on->Some_0->OnConflict_action is Nothing) && (r->Some_0 is DoUpdate
                <==> on->Some_0->OnConflict_action is Update)
            &&& r is Some && r->Some_0 is DoUpdate ==> (r->Some_0->condition is Some
                <==> on->Some_0->OnConflict_action->selection is Some)
        }),
{
}

// ---------------------------------------------------------------------------
// Operators on documents and arrays
// ---------------------------------------------------------------------------

/// The evaluator's operator that a SQL operator is planned to, applied.
pub open spec fn applied(op: SqlBinaryOp, l: Val, r: Val, k: Known) -> Result<Val, Stop> {
    binary_op(binary(op)->Some_0, l, r, k)
}

/// `->>` gives the text of what `->` gives, and `#>>` of what `#>` gives: the
/// characters of a string, and NULL for a JSON null and for nothing.
pub proof fn law_text_access_follows_access(l: Val, r: Val, k: Known)
    ensures
        ({
            let told = |doc: Result<Val, Stop>, text: Result<Val, Stop>|
                {
                    &&& doc is Err <==> text is Err
                    &&& doc is Ok && doc->Ok_0 is Null ==> text == doc
                    &&& doc is Ok && doc->Ok_0 is Jsonb && doc->Ok_0->Jsonb_0 is Str ==> text
                        == Ok::<Val, Stop>(Val::Text(doc->Ok_0->Jsonb_0->Str_0))
                    &&& doc is Ok && doc->Ok_0 is Jsonb && doc->Ok_0->Jsonb_0 is Null ==> text
                        == Ok::<Val, Stop>(Val::Null)
                    &&& doc is Ok && doc->Ok_0 is Jsonb && !(doc->Ok_0->Jsonb_0 is Null)
                        ==> text->Ok_0 is Text
                    &&& doc is Ok ==> doc->Ok_0 is Null || doc->Ok_0 is Jsonb
                };
            &&& told(
                applied(SqlBinaryOp::Arrow, l, r, k),
                applied(SqlBinaryOp::LongArrow, l, r, k),
            )
            &&& told(
                applied(SqlBinaryOp::HashArrow, l, r, k),
                applied(SqlBinaryOp::HashLongArrow, l, r, k),
            )
        }),
{
    reveal(binary_op);
}

/// `a <@ b` is `b @> a`, which asks whether `b` contains `a`; in a `WHERE` the
/// two are told apart from each other and from every comparison.
pub proof fn law_containment_operators(l: Val, r: Val, other: SqlBinaryOp, k: Known)
    requires
        l != Val::Null,
        r != Val::Null,
    ensures
        applied(SqlBinaryOp::ArrowAt, l, r, k) == applied(SqlBinaryOp::AtArrow, r, l, k),
        asked(k, on_two(TaskView::Contains, l, r)) == Ok::<Val, Stop>(Val::Bool(true)) ==> applied(
            SqlBinaryOp::AtArrow,
            l,
            r,
            k,
        ) == Ok::<Val, Stop>(Val::Bool(true)),
        asked(k, on_two(TaskView::Contains, l, r)) == Ok::<Val, Stop>(Val::Bool(false)) ==> applied(
            SqlBinaryOp::AtArrow,
            l,
            r,
            k,
        ) == Ok::<Val, Stop>(Val::Bool(false)),
        predicate_op(SqlBinaryOp::AtArrow) == Some(CompareOp::Contains),
        predicate_op(SqlBinaryOp::ArrowAt) == Some(CompareOp::ContainedBy),
        predicate_op(other) == Some(CompareOp::Contains) ==> other is AtArrow || other is Custom,
        predicate_op(other) == Some(CompareOp::ContainedBy) ==> other is ArrowAt
            || other is Custom,
{
    reveal(binary_op);
}

/// Texts as values.
pub open spec fn text_values(keys: Seq<Seq<char>>) -> Seq<Val> {
    keys.map_values(|t: Seq<char>| Val::Text(t))
}

proof fn lemma_text_values(keys: Seq<Seq<char>>, k: Known)
    ensures
        shown_all(text_values(keys), k) == Ok::<Seq<Seq<char>>, Stop>(keys),
    decreases keys.len(),
{
    let vs = text_values(keys);
    if keys.len() > 0 {
        lemma_text_values(keys.drop_last(), k);
        assert(vs.drop_last() =~= text_values(keys.drop_last()));
        assert(vs.last() == Val::Text(keys.last()));
        assert(keys =~= keys.drop_last().push(keys.last()));
    } else {
        assert(keys =~= Seq::empty());
    }
}

/// `?|` asks whether the document has one of the keys that `?` asks for, and
/// `?&` whether it has all of them.
#[verifier::rlimit(40)]
pub proof fn law_key_operators(l: Val, keys: Seq<Seq<char>>, j: JsonView, k: Known)
    requires
        l != Val::Null,
        asked(k, on_one(TaskView::ToJson, l)) == Ok::<Val, Stop>(Val::Jsonb(j)),
    ensures
        ({
            let one = |i: int| applied(SqlBinaryOp::Question, l, Val::Text(keys[i]), k);
            let list = Val::Array(text_values(keys));
            &&& applied(SqlBinaryOp::QuestionPipe, l, list, k) == Ok::<Val, Stop>(
                Val::Bool(
                    exists|i: int|
                        0 <= i < keys.len() && #[trigger] one(i) == Ok::<Val, Stop>(
                            Val::Bool(true),
                        ),
                ),
            )
            &&& applied(SqlBinaryOp::QuestionAnd, l, list, k) == Ok::<Val, Stop>(
                Val::Bool(
                    forall|i: int|
                        0 <= i < keys.len() ==> #[trigger] one(i) == Ok::<Val, Stop>(
                            Val::Bool(true),
                        ),
                ),
            )
        }),
{
    reveal(binary_op);
    lemma_text_values(keys, k);
    let one = |i: int| applied(SqlBinaryOp::Question, l, Val::Text(keys[i]), k);
    assert forall|i: int| 0 <= i < keys.len() implies #[trigger] one(i) == Ok::<Val, Stop>(
        Val::Bool(has_key(j, keys[i])),
    ) by {}
    if has_any(j, keys) {
        let i = choose|i: int| 0 <= i < keys.len() && has_key(j, #[trigger] keys[i]);
        assert(one(i) == Ok::<Val, Stop>(Val::Bool(true)));
    }
    if exists|i: int|
        0 <= i < keys.len() && #[trigger] one(i) == Ok::<Val, Stop>(Val::Bool(true)) {
        let i = choose|i: int|
            0 <= i < keys.len() && #[trigger] one(i) == Ok::<Val, Stop>(Val::Bool(true));
        assert(has_key(j, keys[i]));
    }
    if has_all(j, keys) {
        assert forall|i: int| 0 <= i < keys.len() implies #[trigger] one(i) == Ok::<Val, Stop>(
            Val::Bool(true),
        ) by {
            assert(has_key(j, keys[i]));
        }
    }
    if forall|i: int|
        0 <= i < keys.len() ==> #[trigger] one(i) == Ok::<Val, Stop>(Val::Bool(true)) {
        assert forall|i: int| 0 <= i < keys.len() implies has_key(j, #[trigger] keys[i]) by {
            assert(one(i) == Ok::<Val, Stop>(Val::Bool(true)));
        }
    }
}

// ---------------------------------------------------------------------------
// Offsets, tests, and aggregates
// ---------------------------------------------------------------------------

/// Adding an interval moves a date by its months, days, and seconds, on
/// whichever side it stands, and subtracting one moves it by as much the other
/// way.
#[verifier::rlimit(40)]
pub proof fn law_subtracting_an_interval_moves_back(
    plus: SqlExpr,
    swapped: SqlExpr,
    minus: SqlExpr,
    i: Interval,
    params: Seq<Val>,
    k: Known,
)
    requires
        plus.node is Binary && plus.node->Binary_op is Plus,
        plus.node->Binary_right.node is Interval,
        !(plus.node->Binary_left.node is Interval),
        swapped.node is Binary && swapped.node->Binary_op is Plus,
        swapped.node->Binary_left == plus.node->Binary_right,
        swapped.node->Binary_right == plus.node->Binary_left,
        minus.node is Binary && minus.node->Binary_op is Minus,
        minus.node->Binary_left == plus.node->Binary_left,
        minus.node->Binary_right == plus.node->Binary_right,
        interval_node(
            *plus.node->Binary_right.node->Interval_value,
            plus.node->Binary_right.node->leading,
        ) == Some(i),
        i.0 > i64::MIN && i.1 > i64::MIN && i.2 > i64::MIN,
        lowered(*plus.node->Binary_left, params, k) is Ok,
        lowered(*plus.node->Binary_left, params, k)->Ok_0 is Some,
    ensures
        ({
            let base = Box::new(lowered(*plus.node->Binary_left, params, k)->Ok_0->Some_0);
            &&& lowered(plus, params, k) == Ok::<Option<ExprView>, Stop>(
                Some(ExprView::DateOffset(base, i.0, i.1, i.2)),
            )
            &&& lowered(swapped, params, k) == lowered(plus, params, k)
            &&& lowered(minus, params, k) == Ok::<Option<ExprView>, Stop>(
                Some(
                    ExprView::DateOffset(base, (-i.0) as i64, (-i.1) as i64, (-i.2) as i64),
                ),
            )
        }),
{
    reveal_with_fuel(lowered, 2);
}

/// A lowered test keeps whether it is negated and what it compares: `[NOT] IN`,
/// `IS [NOT] DISTINCT FROM`, `IS [NOT] TRUE`, and `op ANY` and `op ALL`.
#[verifier::rlimit(40)]
pub proof fn law_lowered_tests_keep_their_sense(e: SqlExpr, params: Seq<Val>, k: Known)
    requires
        lowered(e, params, k) is Ok,
        lowered(e, params, k)->Ok_0 is Some,
    ensures
        ({
            let x = lowered(e, params, k)->Ok_0->Some_0;
            &&& e.node is InList ==> x is InList && x->InList_2 == e.node->InList_negated
                && lowered(*e.node->InList_expr, params, k) == Ok::<Option<ExprView>, Stop>(
                Some(*x->InList_0),
            )
            &&& e.node is DistinctFrom ==> x is IsDistinctFrom && x->IsDistinctFrom_2
                == e.node->DistinctFrom_negated
            &&& e.node is IsBool ==> x is IsBool && x->IsBool_1 == e.node->IsBool_value
                && x->IsBool_2 == e.node->IsBool_negated
            &&& e.node is Quantified ==> x is Quantified && x->all == e.node->all && binary(
                e.node->Quantified_op,
            ) == Some(x->Quantified_op) && lowered(*e.node->Quantified_left, params, k) == Ok::<
                Option<ExprView>,
                Stop,
            >(Some(*x->Quantified_left))
        }),
{
    reveal_with_fuel(lowered, 2);
}

/// `x BETWEEN lo AND hi` evaluates to whether integers `x`, `lo`, and `hi` are in
/// that order, and `NOT BETWEEN` to the negation.
pub proof fn law_lowered_between(
    e: SqlExpr,
    x: i64,
    lo: i64,
    hi: i64,
    scope: ScopeView,
    params: Seq<Val>,
    k: Known,
)
    requires
        e.node is Between,
        lowered(*e.node->Between_expr, params, k) == Ok::<Option<ExprView>, Stop>(
            Some(ExprView::Literal(Val::Int(x))),
        ),
        lowered(*e.node->Between_low, params, k) == Ok::<Option<ExprView>, Stop>(
            Some(ExprView::Literal(Val::Int(lo))),
        ),
        lowered(*e.node->Between_high, params, k) == Ok::<Option<ExprView>, Stop>(
            Some(ExprView::Literal(Val::Int(hi))),
        ),
    ensures
        lowered(e, params, k) is Ok,
        lowered(e, params, k)->Ok_0 is Some,
        eval(lowered(e, params, k)->Ok_0->Some_0, scope, k) == Ok::<Val, Stop>(
            Val::Bool((lo <= x && x <= hi) != e.node->Between_negated),
        ),
{
    reveal_with_fuel(lowered, 2);
    law_between_of_integers(x, lo, hi, scope, k);
    law_not_between_negates(Val::Int(x), Val::Int(lo), Val::Int(hi), scope, k);
}

/// A minus before a constant negates it, and a plus leaves it as it is.
pub proof fn law_signed_constants(e: SqlExpr, n: i64, params: Seq<Val>, k: Known)
    requires
        e.node is Unary,
        literal(*e.node->Unary_expr, params, k) == Ok::<Option<Val>, Stop>(Some(Val::Int(n))),
        n > i64::MIN,
    ensures
        e.node->Unary_op is Minus ==> literal(e, params, k) == Ok::<Option<Val>, Stop>(
            Some(Val::Int((-n) as i64)),
        ),
        e.node->Unary_op is Plus ==> literal(e, params, k) == Ok::<Option<Val>, Stop>(
            Some(Val::Int(n)),
        ),
        e.node->Unary_op is Not ==> literal(e, params, k) == Ok::<Option<Val>, Stop>(None),
{
}

/// Each aggregate is called by its own name, and by no other.
pub proof fn law_aggregates_go_by_their_names(name: Seq<char>)
    ensures
        named_aggregate(name) == Some(AggregateOp::Count) <==> name == "COUNT"@,
        named_aggregate(name) == Some(AggregateOp::Sum) <==> name == "SUM"@,
        named_aggregate(name) == Some(AggregateOp::Min) <==> name == "MIN"@,
        named_aggregate(name) == Some(AggregateOp::Max) <==> name == "MAX"@,
        named_aggregate(name) == Some(AggregateOp::Avg) <==> name == "AVG"@,
{
    reveal_strlit("COUNT");
    reveal_strlit("SUM");
    reveal_strlit("MIN");
    reveal_strlit("MAX");
    reveal_strlit("AVG");
    assert("COUNT"@.len() == 5);
    assert("SUM"@.len() == 3 && "SUM"@[0] == 'S');
    assert("MIN"@.len() == 3 && "MIN"@[0] == 'M' && "MIN"@[1] == 'I');
    assert("MAX"@.len() == 3 && "MAX"@[0] == 'M' && "MAX"@[1] == 'A');
    assert("AVG"@.len() == 3 && "AVG"@[0] == 'A');
}

} // verus!
