//! Scalar expression trees: what they stand for, their sub-expressions, and
//! rebuilding a node around new sub-expressions.
use vstd::prelude::*;
use crate::plan_types::{
    share, AggregateOp, LogicalPlan, PatternKind, ScalarBinaryOp, ScalarExpr, ScalarUnaryOp,
    SubPlan, SubqueryKind,
};
use crate::value::Val;

verus! {

/// What a [`ScalarExpr`] stands for.
#[verifier::ext_equal]
#[allow(inconsistent_fields)]
pub enum ExprView {
    Literal(Val),
    Column(Seq<char>),
    Unary(ScalarUnaryOp, Box<ExprView>),
    Binary(ScalarBinaryOp, Box<ExprView>, Box<ExprView>),
    Cast(Box<ExprView>, Seq<char>),
    Function(Seq<char>, Seq<ExprView>),
    IsNull(Box<ExprView>, bool),
    Extract(Seq<char>, Box<ExprView>),
    Aggregate {
        op: AggregateOp,
        arg: Seq<char>,
        arg_expr: Option<Box<ExprView>>,
        distinct: bool,
        extra_args: Seq<ExprView>,
        filter: Option<Box<ExprView>>,
        order_by: Seq<(ExprView, bool, Option<bool>)>,
    },
    DateOffset(Box<ExprView>, i64, i64, i64),
    Case {
        operand: Option<Box<ExprView>>,
        branches: Seq<(ExprView, ExprView)>,
        else_result: Option<Box<ExprView>>,
    },
    PatternMatch {
        expr: Box<ExprView>,
        pattern: Box<ExprView>,
        kind: PatternKind,
        case_insensitive: bool,
        negated: bool,
        escape: Option<char>,
    },
    IsDistinctFrom(Box<ExprView>, Box<ExprView>, bool),
    IsBool(Box<ExprView>, Option<bool>, bool),
    InList(Box<ExprView>, Seq<ExprView>, bool),
    Quantified { left: Box<ExprView>, op: ScalarBinaryOp, right: Box<ExprView>, all: bool },
    Row(Seq<ExprView>),
    Subquery(LogicalPlan, SubqueryKind),
}

/// A view for positions that hold nothing.
pub open spec fn nothing() -> ExprView {
    ExprView::Literal(Val::Null)
}

pub open spec fn expr_view(e: ScalarExpr) -> ExprView
    decreases e,
{
    match e {
        ScalarExpr::Literal(v) => ExprView::Literal(v@),
        ScalarExpr::Column(n) => ExprView::Column(n@),
        ScalarExpr::Unary { op, expr } => ExprView::Unary(op, Box::new(expr_view(*expr))),
        ScalarExpr::Binary { op, left, right } => ExprView::Binary(
            op,
            Box::new(expr_view(*left)),
            Box::new(expr_view(*right)),
        ),
        ScalarExpr::Cast { expr, target } => ExprView::Cast(Box::new(expr_view(*expr)), target@),
        ScalarExpr::Function { name, args } => ExprView::Function(
            name@,
            Seq::new(
                args@.len(),
                |i: int|
                    if 0 <= i < args@.len() {
                        expr_view(args@[i])
                    } else {
                        nothing()
                    },
            ),
        ),
        ScalarExpr::IsNull { expr, negated } => ExprView::IsNull(
            Box::new(expr_view(*expr)),
            negated,
        ),
        ScalarExpr::Extract { field, expr } => ExprView::Extract(
            field@,
            Box::new(expr_view(*expr)),
        ),
        ScalarExpr::Aggregate { op, arg, arg_expr, distinct, extra_args, filter, order_by } =>
            ExprView::Aggregate {
                op,
                arg: arg@,
                arg_expr: match arg_expr {
                    Some(x) => Some(Box::new(expr_view(*x))),
                    None => None,
                },
                distinct,
                extra_args: Seq::new(
                    extra_args@.len(),
                    |i: int|
                        if 0 <= i < extra_args@.len() {
                            expr_view(extra_args@[i])
                        } else {
                            nothing()
                        },
                ),
                filter: match filter {
                    Some(x) => Some(Box::new(expr_view(*x))),
                    None => None,
                },
                order_by: Seq::new(
                    order_by@.len(),
                    |i: int|
                        if 0 <= i < order_by@.len() {
                            (expr_view(order_by@[i].0), order_by@[i].1, order_by@[i].2)
                        } else {
                            (nothing(), false, None)
                        },
                ),
            },
        ScalarExpr::DateOffset { base, months, days, seconds } => ExprView::DateOffset(
            Box::new(expr_view(*base)),
            months,
            days,
            seconds,
        ),
        ScalarExpr::Case { operand, branches, else_result } => ExprView::Case {
            operand: match operand {
                Some(x) => Some(Box::new(expr_view(*x))),
                None => None,
            },
            branches: Seq::new(
                branches@.len(),
                |i: int|
                    if 0 <= i < branches@.len() {
                        (expr_view(branches@[i].0), expr_view(branches@[i].1))
                    } else {
                        (nothing(), nothing())
                    },
            ),
            else_result: match else_result {
                Some(x) => Some(Box::new(expr_view(*x))),
                None => None,
            },
        },
        ScalarExpr::PatternMatch { expr, pattern, kind, case_insensitive, negated, escape } =>
            ExprView::PatternMatch {
                expr: Box::new(expr_view(*expr)),
                pattern: Box::new(expr_view(*pattern)),
                kind,
                case_insensitive,
                negated,
                escape,
            },
        ScalarExpr::IsDistinctFrom { left, right, negated } => ExprView::IsDistinctFrom(
            Box::new(expr_view(*left)),
            Box::new(expr_view(*right)),
            negated,
        ),
        ScalarExpr::IsBool { expr, value, negated } => ExprView::IsBool(
            Box::new(expr_view(*expr)),
            value,
            negated,
        ),
        ScalarExpr::InList { expr, list, negated } => ExprView::InList(
            Box::new(expr_view(*expr)),
            Seq::new(
                list@.len(),
                |i: int|
                    if 0 <= i < list@.len() {
                        expr_view(list@[i])
                    } else {
                        nothing()
                    },
            ),
            negated,
        ),
        ScalarExpr::Quantified { left, op, right, all } => ExprView::Quantified {
            left: Box::new(expr_view(*left)),
            op,
            right: Box::new(expr_view(*right)),
            all,
        },
        ScalarExpr::Row(items) => ExprView::Row(
            Seq::new(
                items@.len(),
                |i: int|
                    if 0 <= i < items@.len() {
                        expr_view(items@[i])
                    } else {
                        nothing()
                    },
            ),
        ),
        ScalarExpr::Subquery { plan, kind } => ExprView::Subquery(*plan.0, kind),
    }
}

impl View for ScalarExpr {
    type V = ExprView;

    open spec fn view(&self) -> ExprView {
        expr_view(*self)
    }
}

/// What each expression stands for.
pub open spec fn exprs(s: Seq<ScalarExpr>) -> Seq<ExprView> {
    Seq::new(s.len(), |i: int| s[i]@)
}

/// What each borrowed expression stands for.
pub open spec fn borrowed(s: Seq<&ScalarExpr>) -> Seq<ExprView> {
    Seq::new(s.len(), |i: int| s[i]@)
}

/// What each aggregate ordering key stands for.
pub open spec fn order_keys(s: Seq<(ScalarExpr, bool, Option<bool>)>) -> Seq<
    (ExprView, bool, Option<bool>),
> {
    Seq::new(s.len(), |i: int| (s[i].0@, s[i].1, s[i].2))
}

/// What each `CASE` branch stands for.
pub open spec fn branch_views(s: Seq<(ScalarExpr, ScalarExpr)>) -> Seq<(ExprView, ExprView)> {
    Seq::new(s.len(), |i: int| (s[i].0@, s[i].1@))
}

/// What an optional expression stands for.
pub open spec fn opt_expr(e: Option<Box<ScalarExpr>>) -> Option<Box<ExprView>> {
    match e {
        Some(x) => Some(Box::new(x@)),
        None => None,
    }
}

pub broadcast proof fn lemma_function_view(name: String, args: Vec<ScalarExpr>)
    ensures
        #[trigger] expr_view(ScalarExpr::Function { name, args }) == ExprView::Function(
            name@,
            exprs(args@),
        ),
{
    assert(expr_view(ScalarExpr::Function { name, args })->Function_1 =~= exprs(args@));
}

pub broadcast proof fn lemma_row_view(items: Vec<ScalarExpr>)
    ensures
        #[trigger] expr_view(ScalarExpr::Row(items)) == ExprView::Row(exprs(items@)),
{
    assert(expr_view(ScalarExpr::Row(items))->Row_0 =~= exprs(items@));
}

pub broadcast proof fn lemma_in_list_view(
    expr: Box<ScalarExpr>,
    list: Vec<ScalarExpr>,
    negated: bool,
)
    ensures
        #[trigger] expr_view(ScalarExpr::InList { expr, list, negated }) == ExprView::InList(
            Box::new(expr@),
            exprs(list@),
            negated,
        ),
{
    assert(expr_view(ScalarExpr::InList { expr, list, negated })->InList_1 =~= exprs(list@));
}

pub broadcast proof fn lemma_case_view(
    operand: Option<Box<ScalarExpr>>,
    branches: Vec<(ScalarExpr, ScalarExpr)>,
    else_result: Option<Box<ScalarExpr>>,
)
    ensures
        #[trigger] expr_view(ScalarExpr::Case { operand, branches, else_result })
            == (ExprView::Case {
            operand: opt_expr(operand),
            branches: branch_views(branches@),
            else_result: opt_expr(else_result),
        }),
{
    assert(expr_view(ScalarExpr::Case { operand, branches, else_result })->branches
        =~= branch_views(branches@));
}

pub broadcast proof fn lemma_aggregate_view(
    op: AggregateOp,
    arg: String,
    arg_expr: Option<Box<ScalarExpr>>,
    distinct: bool,
    extra_args: Vec<ScalarExpr>,
    filter: Option<Box<ScalarExpr>>,
    order_by: Vec<(ScalarExpr, bool, Option<bool>)>,
)
    ensures
        #[trigger] expr_view(
            ScalarExpr::Aggregate { op, arg, arg_expr, distinct, extra_args, filter, order_by },
        ) == (ExprView::Aggregate {
            op,
            arg: arg@,
            arg_expr: opt_expr(arg_expr),
            distinct,
            extra_args: exprs(extra_args@),
            filter: opt_expr(filter),
            order_by: order_keys(order_by@),
        }),
{
    let v = expr_view(
        ScalarExpr::Aggregate { op, arg, arg_expr, distinct, extra_args, filter, order_by },
    );
    assert(v->extra_args =~= exprs(extra_args@));
    assert(v->order_by =~= order_keys(order_by@));
}

pub broadcast group group_expr_views {
    lemma_function_view,
    lemma_row_view,
    lemma_in_list_view,
    lemma_case_view,
    lemma_aggregate_view,
}

// ---------------------------------------------------------------------------
// Sub-expressions
// ---------------------------------------------------------------------------

pub open spec fn opt_kid(e: Option<Box<ScalarExpr>>) -> Seq<ScalarExpr> {
    match e {
        Some(x) => seq![*x],
        None => Seq::empty(),
    }
}

/// The conditions and results of branches, in turn.
pub open spec fn branch_kids(s: Seq<(ScalarExpr, ScalarExpr)>) -> Seq<ScalarExpr> {
    Seq::new(
        2 * s.len(),
        |i: int|
            if i % 2 == 0 {
                s[i / 2].0
            } else {
                s[i / 2].1
            },
    )
}

pub open spec fn order_kids(s: Seq<(ScalarExpr, bool, Option<bool>)>) -> Seq<ScalarExpr> {
    Seq::new(s.len(), |i: int| s[i].0)
}

/// The immediate sub-expressions of `e`, in evaluation order.
pub open spec fn kids(e: ScalarExpr) -> Seq<ScalarExpr> {
    match e {
        ScalarExpr::Literal(_) | ScalarExpr::Column(_) | ScalarExpr::Subquery { .. } =>
            Seq::empty(),
        ScalarExpr::Unary { expr, .. } => seq![*expr],
        ScalarExpr::Cast { expr, .. } => seq![*expr],
        ScalarExpr::IsNull { expr, .. } => seq![*expr],
        ScalarExpr::Extract { expr, .. } => seq![*expr],
        ScalarExpr::IsBool { expr, .. } => seq![*expr],
        ScalarExpr::DateOffset { base, .. } => seq![*base],
        ScalarExpr::Aggregate { arg_expr, extra_args, filter, order_by, .. } => opt_kid(arg_expr)
            + extra_args@ + opt_kid(filter) + order_kids(order_by@),
        ScalarExpr::Binary { left, right, .. } => seq![*left, *right],
        ScalarExpr::IsDistinctFrom { left, right, .. } => seq![*left, *right],
        ScalarExpr::Quantified { left, right, .. } => seq![*left, *right],
        ScalarExpr::PatternMatch { expr, pattern, .. } => seq![*expr, *pattern],
        ScalarExpr::Function { args, .. } => args@,
        ScalarExpr::Row(items) => items@,
        ScalarExpr::InList { expr, list, .. } => seq![*expr] + list@,
        ScalarExpr::Case { operand, branches, else_result } => opt_kid(operand) + branch_kids(
            branches@,
        ) + opt_kid(else_result),
    }
}

/// How many entries an optional part takes.
pub open spec fn opt_len(e: Option<Box<ExprView>>) -> int {
    match e {
        Some(_) => 1,
        None => 0,
    }
}

pub open spec fn opt_with(e: Option<Box<ExprView>>, k: ExprView) -> Option<Box<ExprView>> {
    match e {
        Some(_) => Some(Box::new(k)),
        None => None,
    }
}

/// `e` with its immediate sub-expressions replaced, in order, by `ks`.
pub open spec fn rebuilt(e: ExprView, ks: Seq<ExprView>) -> ExprView {
    match e {
        ExprView::Literal(_) | ExprView::Column(_) | ExprView::Subquery(..) => e,
        ExprView::Unary(op, _) => ExprView::Unary(op, Box::new(ks[0])),
        ExprView::Cast(_, target) => ExprView::Cast(Box::new(ks[0]), target),
        ExprView::IsNull(_, negated) => ExprView::IsNull(Box::new(ks[0]), negated),
        ExprView::Extract(field, _) => ExprView::Extract(field, Box::new(ks[0])),
        ExprView::IsBool(_, value, negated) => ExprView::IsBool(Box::new(ks[0]), value, negated),
        ExprView::DateOffset(_, m, d, s) => ExprView::DateOffset(Box::new(ks[0]), m, d, s),
        ExprView::Aggregate { op, arg, arg_expr, distinct, extra_args, filter, order_by } => {
            let a = opt_len(arg_expr);
            let b = a + extra_args.len();
            let c = b + opt_len(filter);
            ExprView::Aggregate {
                op,
                arg,
                arg_expr: opt_with(arg_expr, ks[0]),
                distinct,
                extra_args: ks.subrange(a, b),
                filter: opt_with(filter, ks[b]),
                order_by: Seq::new(
                    order_by.len(),
                    |i: int| (ks[c + i], order_by[i].1, order_by[i].2),
                ),
            }
        },
        ExprView::Binary(op, _, _) => ExprView::Binary(op, Box::new(ks[0]), Box::new(ks[1])),
        ExprView::IsDistinctFrom(_, _, negated) => ExprView::IsDistinctFrom(
            Box::new(ks[0]),
            Box::new(ks[1]),
            negated,
        ),
        ExprView::Quantified { op, all, .. } => ExprView::Quantified {
            left: Box::new(ks[0]),
            op,
            right: Box::new(ks[1]),
            all,
        },
        ExprView::PatternMatch { kind, case_insensitive, negated, escape, .. } =>
            ExprView::PatternMatch {
                expr: Box::new(ks[0]),
                pattern: Box::new(ks[1]),
                kind,
                case_insensitive,
                negated,
                escape,
            },
        ExprView::Function(name, _) => ExprView::Function(name, ks),
        ExprView::Row(_) => ExprView::Row(ks),
        ExprView::InList(_, _, negated) => ExprView::InList(Box::new(ks[0]), ks.skip(1), negated),
        ExprView::Case { operand, branches, else_result } => {
            let a = opt_len(operand);
            let b = a + 2 * branches.len();
            ExprView::Case {
                operand: opt_with(operand, ks[0]),
                branches: Seq::new(
                    branches.len(),
                    |i: int| (ks[a + 2 * i], ks[a + 2 * i + 1]),
                ),
                else_result: opt_with(else_result, ks[b]),
            }
        },
    }
}

/// Replacing every sub-expression by itself changes nothing.
pub proof fn law_rebuilt_with_own_kids(e: ScalarExpr)
    ensures
        rebuilt(e@, exprs(kids(e))) == e@,
{
    broadcast use group_expr_views;

    let ks = exprs(kids(e));
    match e {
        ScalarExpr::Aggregate { op, arg, arg_expr, distinct, extra_args, filter, order_by } => {
            let a = opt_len(opt_expr(arg_expr));
            let b = a + extra_args@.len();
            assert(ks.subrange(a, b) =~= exprs(extra_args@));
            assert(rebuilt(e@, ks)->order_by =~= order_keys(order_by@));
        },
        ScalarExpr::InList { expr, list, negated } => {
            assert(ks.skip(1) =~= exprs(list@));
        },
        ScalarExpr::Case { operand, branches, else_result } => {
            let a = opt_len(opt_expr(operand));
            assert forall|i: int| 0 <= i < branches@.len() implies (
            #[trigger] rebuilt(e@, ks)->branches[i]) == branch_views(branches@)[i] by {
                assert((2 * i) / 2 == i && (2 * i) % 2 == 0);
                assert((2 * i + 1) / 2 == i && (2 * i + 1) % 2 == 1);
                assert(branch_kids(branches@)[2 * i] == branches@[i].0);
                assert(branch_kids(branches@)[2 * i + 1] == branches@[i].1);
                assert(ks[a + 2 * i] == branches@[i].0@);
                assert(ks[a + 2 * i + 1] == branches@[i].1@);
            }
            assert(rebuilt(e@, ks)->branches =~= branch_views(branches@));
        },
        _ => {},
    }
}

fn push_opt<'a>(out: &mut Vec<&'a ScalarExpr>, e: &'a Option<Box<ScalarExpr>>)
    ensures
        final(out)@ == old(out)@ + refs(opt_kid(*e)),
{
    let ghost before = out@;
    match e {
        Some(x) => {
            out.push(&**x);
            assert(out@ =~= before + refs(opt_kid(*e)));
        },
        None => {
            assert(out@ =~= before + refs(opt_kid(*e)));
        },
    }
}

/// References to the elements of a sequence.
pub open spec fn refs<'a>(s: Seq<ScalarExpr>) -> Seq<&'a ScalarExpr> {
    Seq::new(s.len(), |i: int| &s[i])
}

fn push_all<'a>(out: &mut Vec<&'a ScalarExpr>, items: &'a Vec<ScalarExpr>)
    ensures
        final(out)@ == old(out)@ + refs(items@),
{
    let ghost before = out@;
    let mut i: usize = 0;
    while i < items.len()
        invariant
            i <= items@.len(),
            out@ == before + refs(items@.take(i as int)),
        decreases items@.len() - i,
    {
        out.push(&items[i]);
        i = i + 1;
        assert(out@ =~= before + refs(items@.take(i as int)));
    }
    assert(items@.take(i as int) =~= items@);
}

impl ScalarExpr {
    /// The immediate sub-expressions, in evaluation order.
    pub fn children(&self) -> (r: Vec<&ScalarExpr>)
        ensures
            r@ == refs(kids(*self)),
    {
        let mut out: Vec<&ScalarExpr> = Vec::new();
        match self {
            ScalarExpr::Literal(_) | ScalarExpr::Column(_) | ScalarExpr::Subquery { .. } => {},
            ScalarExpr::Unary { expr, .. } => {
                out.push(&**expr);
            },
            ScalarExpr::Cast { expr, .. } => {
                out.push(&**expr);
            },
            ScalarExpr::IsNull { expr, .. } => {
                out.push(&**expr);
            },
            ScalarExpr::Extract { expr, .. } => {
                out.push(&**expr);
            },
            ScalarExpr::IsBool { expr, .. } => {
                out.push(&**expr);
            },
            ScalarExpr::DateOffset { base, .. } => {
                out.push(&**base);
            },
            ScalarExpr::Aggregate { arg_expr, extra_args, filter, order_by, .. } => {
                push_opt(&mut out, arg_expr);
                push_all(&mut out, extra_args);
                push_opt(&mut out, filter);
                let ghost before = out@;
                let mut i: usize = 0;
                while i < order_by.len()
                    invariant
                        i <= order_by@.len(),
                        out@ == before + refs(order_kids(order_by@.take(i as int))),
                    decreases order_by@.len() - i,
                {
                    out.push(&order_by[i].0);
                    i = i + 1;
                    assert(out@ =~= before + refs(order_kids(order_by@.take(i as int))));
                }
                assert(order_by@.take(i as int) =~= order_by@);
            },
            ScalarExpr::Binary { left, right, .. } => {
                out.push(&**left);
                out.push(&**right);
            },
            ScalarExpr::IsDistinctFrom { left, right, .. } => {
                out.push(&**left);
                out.push(&**right);
            },
            ScalarExpr::Quantified { left, right, .. } => {
                out.push(&**left);
                out.push(&**right);
            },
            ScalarExpr::PatternMatch { expr, pattern, .. } => {
                out.push(&**expr);
                out.push(&**pattern);
            },
            ScalarExpr::Function { args, .. } => {
                push_all(&mut out, args);
            },
            ScalarExpr::Row(items) => {
                push_all(&mut out, items);
            },
            ScalarExpr::InList { expr, list, .. } => {
                out.push(&**expr);
                push_all(&mut out, list);
            },
            ScalarExpr::Case { operand, branches, else_result } => {
                push_opt(&mut out, operand);
                let ghost before = out@;
                let mut i: usize = 0;
                assert(out@ =~= before + refs(branch_kids(branches@.take(0))));
                while i < branches.len()
                    invariant
                        i <= branches@.len(),
                        out@ == before + refs(branch_kids(branches@.take(i as int))),
                    decreases branches@.len() - i,
                {
                    out.push(&branches[i].0);
                    out.push(&branches[i].1);
                    proof {
                        let s = branches@.take(i + 1);
                        assert forall|k: int| 0 <= k < 2 * (i + 1) implies branch_kids(s)[k] == (
                        if k < 2 * i {
                            branch_kids(branches@.take(i as int))[k]
                        } else if k == 2 * i {
                            branches@[i as int].0
                        } else {
                            branches@[i as int].1
                        }) by {
                            if k < 2 * i {
                                assert(k / 2 < i);
                            } else if k == 2 * i {
                                assert(k / 2 == i && k % 2 == 0);
                            } else {
                                assert(k == 2 * i + 1);
                                assert(k / 2 == i && k % 2 == 1);
                            }
                        }
                    }
                    i = i + 1;
                    assert(out@ =~= before + refs(branch_kids(branches@.take(i as int))));
                }
                assert(branches@.take(i as int) =~= branches@);
                push_opt(&mut out, else_result);
            },
        }
        assert(out@ =~= refs(kids(*self)));
        out
    }
}

/// A sub-expression is smaller than the expression.
pub proof fn lemma_kids_smaller(e: ScalarExpr, i: int)
    requires
        0 <= i < kids(e).len(),
    ensures
        decreases_to!(e => kids(e)[i]),
{
    match e {
        ScalarExpr::Function { args, .. } => {
            assert(decreases_to!(args@ => args@[i]));
        },
        ScalarExpr::Row(items) => {
            assert(decreases_to!(items@ => items@[i]));
        },
        ScalarExpr::InList { expr, list, .. } => {
            if i > 0 {
                assert(decreases_to!(list@ => list@[i - 1]));
            }
        },
        ScalarExpr::Aggregate { arg_expr, extra_args, filter, order_by, .. } => {
            let a = opt_kid(arg_expr).len() as int;
            let b = a + extra_args@.len();
            let c = b + opt_kid(filter).len();
            if i < a {
                assert(decreases_to!(arg_expr => arg_expr->0));
            } else if i < b {
                assert(decreases_to!(extra_args@ => extra_args@[i - a]));
            } else if i < c {
                assert(decreases_to!(filter => filter->0));
            } else {
                assert(decreases_to!(order_by@ => order_by@[i - c]));
                assert(decreases_to!(order_by@[i - c] => order_by@[i - c].0));
            }
        },
        ScalarExpr::Case { operand, branches, else_result } => {
            let a = opt_kid(operand).len() as int;
            let b = a + 2 * branches@.len();
            if i < a {
                assert(decreases_to!(operand => operand->0));
            } else if i < b {
                let k = (i - a) / 2;
                assert(decreases_to!(branches@ => branches@[k]));
                assert(decreases_to!(branches@[k] => branches@[k].0));
                assert(decreases_to!(branches@[k] => branches@[k].1));
            } else {
                assert(decreases_to!(else_result => else_result->0));
            }
        },
        _ => {},
    }
}

/// Whether `f` was called once for each immediate sub-expression of `e`, from
/// the first to the last, on the state that the call before it left; `ks` are
/// the expressions it gave.
pub open spec fn handed_on<S, F: Fn(S, &ScalarExpr) -> (S, ScalarExpr)>(
    e: ScalarExpr,
    f: F,
    states: Seq<S>,
    ks: Seq<ScalarExpr>,
) -> bool {
    &&& fits(e, ks)
    &&& ks.len() == kids(e).len()
    &&& states.len() == ks.len() + 1
    &&& forall|i: int|
        0 <= i < ks.len() ==> call_ensures(
            f,
            (states[i], &kids(e)[i]),
            (states[i + 1], #[trigger] ks[i]),
        )
}

/// Whether `ks` has one entry for each sub-expression of `e`.
pub open spec fn fits(e: ScalarExpr, ks: Seq<ScalarExpr>) -> bool {
    ks.len() == kids(e).len()
}

fn take_opt(e: &Option<Box<ScalarExpr>>, ks: &mut Vec<ScalarExpr>) -> (r: Option<Box<ScalarExpr>>)
    requires
        opt_kid(*e).len() <= old(ks)@.len(),
    ensures
        final(ks)@ == old(ks)@.skip(opt_kid(*e).len() as int),
        opt_expr(r) == opt_with(opt_expr(*e), old(ks)@[0]@),
{
    let ghost before = ks@;
    match e {
        Some(_) => {
            let k = ks.remove(0);
            assert(ks@ =~= before.skip(1));
            Some(Box::new(k))
        },
        None => {
            assert(ks@ =~= before.skip(0));
            None
        },
    }
}

fn take_some(n: usize, ks: &mut Vec<ScalarExpr>) -> (r: Vec<ScalarExpr>)
    requires
        n <= old(ks)@.len(),
    ensures
        final(ks)@ == old(ks)@.skip(n as int),
        r@ == old(ks)@.take(n as int),
{
    let ghost before = ks@;
    let mut out: Vec<ScalarExpr> = Vec::new();
    let mut i: usize = 0;
    assert(before.skip(0) =~= before);
    while i < n
        invariant
            i <= n <= before.len(),
            ks@ == before.skip(i as int),
            out@ == before.take(i as int),
        decreases n - i,
    {
        let k = ks.remove(0);
        out.push(k);
        i = i + 1;
        assert(ks@ =~= before.skip(i as int));
        assert(out@ =~= before.take(i as int));
    }
    out
}

fn take_order(
    order_by: &Vec<(ScalarExpr, bool, Option<bool>)>,
    ks: &mut Vec<ScalarExpr>,
) -> (r: Vec<(ScalarExpr, bool, Option<bool>)>)
    requires
        order_by@.len() == old(ks)@.len(),
    ensures
        order_keys(r@) == Seq::new(
            order_by@.len(),
            |j: int| (old(ks)@[j]@, order_by@[j].1, order_by@[j].2),
        ),
{
    let ghost all = ks@;
    let mut out: Vec<(ScalarExpr, bool, Option<bool>)> = Vec::new();
    let mut i: usize = 0;
    assert(all.skip(0) =~= all);
    while i < order_by.len()
        invariant
            i <= order_by@.len() == all.len(),
            ks@ == all.skip(i as int),
            i == out@.len(),
            forall|j: int|
                0 <= j < i ==> (#[trigger] out@[j]).0@ == all[j]@ && out@[j].1 == order_by@[j].1
                    && out@[j].2 == order_by@[j].2,
        decreases order_by@.len() - i,
    {
        let k = ks.remove(0);
        out.push((k, order_by[i].1, order_by[i].2));
        i = i + 1;
        assert(ks@ =~= all.skip(i as int));
    }
    assert(order_keys(out@) =~= Seq::new(
        order_by@.len(),
        |j: int| (all[j]@, order_by@[j].1, order_by@[j].2),
    ));
    out
}

fn take_branches(branches: &Vec<(ScalarExpr, ScalarExpr)>, ks: &mut Vec<ScalarExpr>) -> (r: Vec<
    (ScalarExpr, ScalarExpr),
>)
    requires
        2 * branches@.len() <= old(ks)@.len(),
    ensures
        branch_views(r@) == Seq::new(
            branches@.len(),
            |j: int| (old(ks)@[2 * j]@, old(ks)@[2 * j + 1]@),
        ),
        final(ks)@ == old(ks)@.skip(2 * branches@.len() as int),
{
    let ghost all = ks@;
    let mut out: Vec<(ScalarExpr, ScalarExpr)> = Vec::new();
    let mut i: usize = 0;
    assert(all.skip(0) =~= all);
    while i < branches.len()
        invariant
            i <= branches@.len(),
            2 * branches@.len() <= all.len(),
            ks@ == all.skip(2 * i),
            i == out@.len(),
            forall|j: int|
                0 <= j < i ==> (#[trigger] out@[j]).0@ == all[2 * j]@ && out@[j].1@ == all[2 * j
                    + 1]@,
        decreases branches@.len() - i,
    {
        let cond = ks.remove(0);
        let result = ks.remove(0);
        out.push((cond, result));
        i = i + 1;
        assert(ks@ =~= all.skip(2 * i));
    }
    assert(branch_views(out@) =~= Seq::new(
        branches@.len(),
        |j: int| (all[2 * j]@, all[2 * j + 1]@),
    ));
    out
}

impl ScalarExpr {
    /// This node around the sub-expressions `kids`, which replace its own in
    /// order; a leaf is copied.
    #[verifier::rlimit(40)]
    pub fn with_children(&self, kids: Vec<ScalarExpr>) -> (r: ScalarExpr)
        requires
            fits(*self, kids@),
        ensures
            r@ == rebuilt(self@, exprs(kids@)),
    {
        broadcast use group_expr_views;

        let ghost all = kids@;
        let mut ks = kids;
        match self {
            ScalarExpr::Literal(v) => ScalarExpr::Literal(v.duplicate()),
            ScalarExpr::Column(n) => ScalarExpr::Column(n.clone()),
            ScalarExpr::Subquery { plan, kind } => ScalarExpr::Subquery {
                plan: SubPlan(share(&plan.0)),
                kind: *kind,
            },
            ScalarExpr::Unary { op, .. } => ScalarExpr::Unary {
                op: *op,
                expr: Box::new(ks.remove(0)),
            },
            ScalarExpr::Cast { target, .. } => ScalarExpr::Cast {
                expr: Box::new(ks.remove(0)),
                target: target.clone(),
            },
            ScalarExpr::IsNull { negated, .. } => ScalarExpr::IsNull {
                expr: Box::new(ks.remove(0)),
                negated: *negated,
            },
            ScalarExpr::Extract { field, .. } => ScalarExpr::Extract {
                field: field.clone(),
                expr: Box::new(ks.remove(0)),
            },
            ScalarExpr::IsBool { value, negated, .. } => ScalarExpr::IsBool {
                expr: Box::new(ks.remove(0)),
                value: *value,
                negated: *negated,
            },
            ScalarExpr::DateOffset { months, days, seconds, .. } => ScalarExpr::DateOffset {
                base: Box::new(ks.remove(0)),
                months: *months,
                days: *days,
                seconds: *seconds,
            },
            ScalarExpr::Aggregate { op, arg, arg_expr, distinct, extra_args, filter, order_by } => {
                let ghost a = opt_kid(*arg_expr).len() as int;
                let ghost b = a + extra_args@.len();
                let ghost c = b + opt_kid(*filter).len();
                let new_arg = take_opt(arg_expr, &mut ks);
                let new_extra = take_some(extra_args.len(), &mut ks);
                assert(exprs(new_extra@) =~= exprs(all).subrange(a, b));
                assert(ks@ =~= all.skip(b));
                let new_filter = take_opt(filter, &mut ks);
                assert(ks@ =~= all.skip(c));
                let new_order = take_order(order_by, &mut ks);
                assert(order_keys(new_order@) =~= rebuilt(self@, exprs(all))->order_by);
                ScalarExpr::Aggregate {
                    op: *op,
                    arg: arg.clone(),
                    arg_expr: new_arg,
                    distinct: *distinct,
                    extra_args: new_extra,
                    filter: new_filter,
                    order_by: new_order,
                }
            },
            ScalarExpr::Binary { op, .. } => {
                let left = ks.remove(0);
                let right = ks.remove(0);
                ScalarExpr::Binary { op: *op, left: Box::new(left), right: Box::new(right) }
            },
            ScalarExpr::IsDistinctFrom { negated, .. } => {
                let left = ks.remove(0);
                let right = ks.remove(0);
                ScalarExpr::IsDistinctFrom {
                    left: Box::new(left),
                    right: Box::new(right),
                    negated: *negated,
                }
            },
            ScalarExpr::Quantified { op, all, .. } => {
                let left = ks.remove(0);
                let right = ks.remove(0);
                ScalarExpr::Quantified {
                    left: Box::new(left),
                    op: *op,
                    right: Box::new(right),
                    all: *all,
                }
            },
            ScalarExpr::PatternMatch { kind, case_insensitive, negated, escape, .. } => {
                let expr = ks.remove(0);
                let pattern = ks.remove(0);
                ScalarExpr::PatternMatch {
                    expr: Box::new(expr),
                    pattern: Box::new(pattern),
                    kind: *kind,
                    case_insensitive: *case_insensitive,
                    negated: *negated,
                    escape: *escape,
                }
            },
            ScalarExpr::Function { name, .. } => ScalarExpr::Function {
                name: name.clone(),
                args: ks,
            },
            ScalarExpr::Row(_) => ScalarExpr::Row(ks),
            ScalarExpr::InList { negated, .. } => {
                let expr = ks.remove(0);
                assert(exprs(ks@) =~= exprs(all).skip(1));
                ScalarExpr::InList { expr: Box::new(expr), list: ks, negated: *negated }
            },
            ScalarExpr::Case { operand, branches, else_result } => {
                let ghost a = opt_kid(*operand).len() as int;
                let ghost b = a + 2 * branches@.len();
                let new_operand = take_opt(operand, &mut ks);
                let new_branches = take_branches(branches, &mut ks);
                assert(ks@ =~= all.skip(b));
                let new_else = take_opt(else_result, &mut ks);
                assert(branch_views(new_branches@) =~= rebuilt(self@, exprs(all))->branches);
                ScalarExpr::Case {
                    operand: new_operand,
                    branches: new_branches,
                    else_result: new_else,
                }
            },
        }
    }

    /// Rebuilds this node with every immediate sub-expression replaced by
    /// `f(child)`; leaves are returned unchanged.
    pub fn map_children<F: Fn(&ScalarExpr) -> ScalarExpr>(&self, f: F) -> (r: ScalarExpr)
        requires
            forall|i: int|
                0 <= i < kids(*self).len() ==> call_requires(f, (&#[trigger] kids(*self)[i],)),
        ensures
            exists|ks: Seq<ScalarExpr>|
                fits(*self, ks) && #[trigger] rebuilt(self@, exprs(ks)) == r@ && forall|i: int|
                    0 <= i < ks.len() ==> call_ensures(f, (&kids(*self)[i],), #[trigger] ks[i]),
    {
        let children = self.children();
        let mut ks: Vec<ScalarExpr> = Vec::new();
        let mut i: usize = 0;
        while i < children.len()
            invariant
                children@ == refs(kids(*self)),
                i == ks@.len(),
                i <= children@.len(),
                forall|j: int|
                    0 <= j < kids(*self).len() ==> call_requires(f, (&#[trigger] kids(*self)[j],)),
                forall|j: int|
                    0 <= j < i ==> call_ensures(f, (&kids(*self)[j],), #[trigger] ks@[j]),
            decreases children@.len() - i,
        {
            let child: &ScalarExpr = children[i];
            assert(*child == kids(*self)[i as int]);
            ks.push(f(child));
            i = i + 1;
        }
        let ghost made = ks@;
        let r = self.with_children(ks);
        assert(fits(*self, made) && rebuilt(self@, exprs(made)) == r@);
        r
    }

    /// As [`ScalarExpr::map_children`], with a state that `f` takes and hands
    /// on: it is called once for each immediate sub-expression, from the first
    /// to the last, on the state that the call before it left.
    pub fn map_children_with<S, F: Fn(S, &ScalarExpr) -> (S, ScalarExpr)>(
        &self,
        state: S,
        f: F,
    ) -> (r: (S, ScalarExpr))
        requires
            forall|s: S, i: int|
                0 <= i < kids(*self).len() ==> call_requires(f, (s, &#[trigger] kids(*self)[i])),
        ensures
            exists|states: Seq<S>, ks: Seq<ScalarExpr>|
                #[trigger] handed_on(*self, f, states, ks) && states[0] == state && states.last()
                    == r.0 && rebuilt(self@, exprs(ks)) == r.1@,
    {
        let ghost start = state;
        let children = self.children();
        let mut ks: Vec<ScalarExpr> = Vec::new();
        let mut state: S = state;
        let ghost mut states: Seq<S> = seq![state];
        let mut i: usize = 0;
        while i < children.len()
            invariant
                children@ == refs(kids(*self)),
                i == ks@.len(),
                i <= children@.len(),
                states.len() == i + 1,
                states[0] == start,
                states.last() == state,
                forall|s: S, j: int|
                    0 <= j < kids(*self).len() ==> call_requires(
                        f,
                        (s, &#[trigger] kids(*self)[j]),
                    ),
                forall|j: int|
                    0 <= j < i ==> call_ensures(
                        f,
                        (states[j], &kids(*self)[j]),
                        (states[j + 1], #[trigger] ks@[j]),
                    ),
            decreases children@.len() - i,
        {
            let child: &ScalarExpr = children[i];
            assert(*child == kids(*self)[i as int]);
            let (next, made) = f(state, child);
            state = next;
            ks.push(made);
            proof {
                states = states.push(state);
            }
            i = i + 1;
        }
        let ghost made = ks@;
        let r = self.with_children(ks);
        assert(handed_on(*self, f, states, made));
        (state, r)
    }

    /// A copy of the expression.
    pub fn duplicate(&self) -> (r: ScalarExpr)
        ensures
            r@ == self@,
        decreases self,
    {
        let children = self.children();
        let mut ks: Vec<ScalarExpr> = Vec::new();
        let mut i: usize = 0;
        while i < children.len()
            invariant
                children@ == refs(kids(*self)),
                i == ks@.len(),
                i <= children@.len(),
                exprs(ks@) == exprs(kids(*self)).take(i as int),
            decreases children@.len() - i,
        {
            let child: &ScalarExpr = children[i];
            proof {
                lemma_kids_smaller(*self, i as int);
            }
            let ghost before = ks@;
            ks.push(child.duplicate());
            i = i + 1;
            assert(exprs(ks@) =~= exprs(kids(*self)).take(i as int));
        }
        proof {
            assert(exprs(ks@) =~= exprs(kids(*self)));
            law_rebuilt_with_own_kids(*self);
        }
        self.with_children(ks)
    }
}

/// Whether an aggregate call occurs in `e`.
pub open spec fn has_aggregate(e: ScalarExpr) -> bool
    decreases e,
{
    e is Aggregate || exists|i: int|
        #![trigger kids(e)[i]]
        0 <= i < kids(e).len() && {
            if 0 <= i < kids(e).len() && decreases_to!(e => kids(e)[i]) {
                has_aggregate(kids(e)[i])
            } else {
                false
            }
        }
}

/// True if a scalar expression contains an aggregate call, so a query using it
/// must go through the grouping/aggregation path.
pub fn scalar_has_aggregate(expr: &ScalarExpr) -> (r: bool)
    ensures
        r == has_aggregate(*expr),
    decreases expr,
{
    if let ScalarExpr::Aggregate { .. } = expr {
        return true;
    }
    let children = expr.children();
    let mut i: usize = 0;
    while i < children.len()
        invariant
            children@ == refs(kids(*expr)),
            i <= children@.len(),
            !(*expr is Aggregate),
            forall|j: int| 0 <= j < i ==> !has_aggregate(#[trigger] kids(*expr)[j]),
        decreases children@.len() - i,
    {
        proof {
            lemma_kids_smaller(*expr, i as int);
        }
        if scalar_has_aggregate(children[i]) {
            assert(has_aggregate(kids(*expr)[i as int]));
            return true;
        }
        i = i + 1;
    }
    false
}

// ---------------------------------------------------------------------------
// Sub-expressions of what an expression stands for
// ---------------------------------------------------------------------------

pub open spec fn opt_part(e: Option<Box<ExprView>>) -> Seq<ExprView> {
    match e {
        Some(x) => seq![*x],
        None => Seq::empty(),
    }
}

/// The conditions and results of branches, in turn.
pub open spec fn branch_parts(s: Seq<(ExprView, ExprView)>) -> Seq<ExprView> {
    Seq::new(
        2 * s.len(),
        |i: int|
            if i % 2 == 0 {
                s[i / 2].0
            } else {
                s[i / 2].1
            },
    )
}

pub open spec fn order_parts(s: Seq<(ExprView, bool, Option<bool>)>) -> Seq<ExprView> {
    Seq::new(s.len(), |i: int| s[i].0)
}

/// The immediate sub-expressions of `e`, in evaluation order.
pub open spec fn parts(e: ExprView) -> Seq<ExprView> {
    match e {
        ExprView::Literal(_) | ExprView::Column(_) | ExprView::Subquery(..) => Seq::empty(),
        ExprView::Unary(_, x) => seq![*x],
        ExprView::Cast(x, _) => seq![*x],
        ExprView::IsNull(x, _) => seq![*x],
        ExprView::Extract(_, x) => seq![*x],
        ExprView::IsBool(x, _, _) => seq![*x],
        ExprView::DateOffset(x, _, _, _) => seq![*x],
        ExprView::Aggregate { arg_expr, extra_args, filter, order_by, .. } => opt_part(arg_expr)
            + extra_args + opt_part(filter) + order_parts(order_by),
        ExprView::Binary(_, x, y) => seq![*x, *y],
        ExprView::IsDistinctFrom(x, y, _) => seq![*x, *y],
        ExprView::Quantified { left, right, .. } => seq![*left, *right],
        ExprView::PatternMatch { expr, pattern, .. } => seq![*expr, *pattern],
        ExprView::Function(_, args) => args,
        ExprView::Row(items) => items,
        ExprView::InList(x, list, _) => seq![*x] + list,
        ExprView::Case { operand, branches, else_result } => opt_part(operand) + branch_parts(
            branches,
        ) + opt_part(else_result),
    }
}

/// What the sub-expressions of `e` stand for are the sub-expressions of what
/// it stands for.
pub proof fn lemma_parts(e: ScalarExpr)
    ensures
        exprs(kids(e)) == parts(e@),
{
    broadcast use group_expr_views;

    match e {
        ScalarExpr::Aggregate { arg_expr, extra_args, filter, order_by, .. } => {
            assert(exprs(opt_kid(arg_expr)) =~= opt_part(opt_expr(arg_expr)));
            assert(exprs(opt_kid(filter)) =~= opt_part(opt_expr(filter)));
            assert(exprs(order_kids(order_by@)) =~= order_parts(order_keys(order_by@)));
            assert(exprs(kids(e)) =~= exprs(opt_kid(arg_expr)) + exprs(extra_args@) + exprs(
                opt_kid(filter),
            ) + exprs(order_kids(order_by@)));
        },
        ScalarExpr::InList { expr, list, negated } => {
            assert(exprs(kids(e)) =~= seq![expr@] + exprs(list@));
        },
        ScalarExpr::Case { operand, branches, else_result } => {
            assert(exprs(opt_kid(operand)) =~= opt_part(opt_expr(operand)));
            assert(exprs(opt_kid(else_result)) =~= opt_part(opt_expr(else_result)));
            assert(exprs(branch_kids(branches@)) =~= branch_parts(branch_views(branches@)));
            assert(exprs(kids(e)) =~= exprs(opt_kid(operand)) + exprs(branch_kids(branches@))
                + exprs(opt_kid(else_result)));
        },
        ScalarExpr::Function { .. } | ScalarExpr::Row(_) => {},
        _ => {
            assert(exprs(kids(e)) =~= parts(e@));
        },
    }
}

pub proof fn lemma_parts_smaller(e: ExprView, i: int)
    requires
        0 <= i < parts(e).len(),
    ensures
        decreases_to!(e => parts(e)[i]),
{
    match e {
        ExprView::Aggregate { arg_expr, extra_args, filter, order_by, .. } => {
            let a = opt_part(arg_expr).len();
            let b = a + extra_args.len();
            let c = b + opt_part(filter).len();
            if a <= i < b {
                assert(decreases_to!(extra_args => extra_args[i - a]));
            } else if c <= i {
                assert(decreases_to!(order_by => order_by[i - c]));
            }
        },
        ExprView::Function(_, args) => {
            assert(decreases_to!(args => args[i]));
        },
        ExprView::Row(items) => {
            assert(decreases_to!(items => items[i]));
        },
        ExprView::InList(_, list, _) => {
            if i > 0 {
                assert(decreases_to!(list => list[i - 1]));
            }
        },
        ExprView::Case { operand, branches, else_result } => {
            let a = opt_part(operand).len();
            if a <= i < a + 2 * branches.len() {
                assert(0 <= (i - a) / 2 < branches.len());
                assert(decreases_to!(branches => branches[(i - a) / 2]));
            }
        },
        _ => {},
    }
}

/// Whether an aggregate call occurs in `e`.
pub open spec fn aggregates(e: ExprView) -> bool
    decreases e,
{
    e is Aggregate || exists|i: int|
        #![trigger parts(e)[i]]
        0 <= i < parts(e).len() && {
            if 0 <= i < parts(e).len() && decreases_to!(e => parts(e)[i]) {
                aggregates(parts(e)[i])
            } else {
                false
            }
        }
}

/// An expression holds an aggregate call when what it stands for does.
pub proof fn lemma_aggregates(e: ScalarExpr)
    ensures
        has_aggregate(e) == aggregates(e@),
    decreases e,
{
    lemma_parts(e);
    let ks = kids(e);
    assert((e is Aggregate) == (e@ is Aggregate));
    assert forall|i: int| 0 <= i < ks.len() implies has_aggregate(#[trigger] ks[i]) == aggregates(
        parts(e@)[i],
    ) && decreases_to!(e => ks[i]) && decreases_to!(e@ => parts(e@)[i]) by {
        lemma_kids_smaller(e, i);
        lemma_parts_smaller(e@, i);
        assert(parts(e@)[i] == exprs(ks)[i]);
        lemma_aggregates(ks[i]);
    }
    if has_aggregate(e) && !(e is Aggregate) {
        let i = choose|i: int|
            #![trigger kids(e)[i]]
            0 <= i < kids(e).len() && (if 0 <= i < kids(e).len() && decreases_to!(e => kids(e)[i]) {
                has_aggregate(kids(e)[i])
            } else {
                false
            });
        assert(has_aggregate(ks[i]));
        assert(aggregates(parts(e@)[i]));
    }
    if aggregates(e@) && !(e@ is Aggregate) {
        let i = choose|i: int|
            #![trigger parts(e@)[i]]
            0 <= i < parts(e@).len() && (if 0 <= i < parts(e@).len() && decreases_to!(e@ => parts(
                e@,
            )[i]) {
                aggregates(parts(e@)[i])
            } else {
                false
            });
        assert(has_aggregate(ks[i]));
    }
}

/// The first column that an expression references.
pub open spec fn first_column(e: ExprView) -> Option<Seq<char>>
    decreases e, parts(e).len() + 1,
{
    match e {
        ExprView::Column(name) => Some(name),
        _ => first_column_from(e, 0),
    }
}

/// The first column that the sub-expressions from position `i` on reference.
pub open spec fn first_column_from(e: ExprView, i: nat) -> Option<Seq<char>>
    decreases e, parts(e).len() - i,
{
    if i >= parts(e).len() {
        None
    } else {
        let found = if i < parts(e).len() && decreases_to!(e => parts(e)[i as int]) {
            first_column(parts(e)[i as int])
        } else {
            None
        };
        match found {
            Some(name) => Some(name),
            None => first_column_from(e, i + 1),
        }
    }
}

/// The first column a scalar expression references, if any.
pub fn first_column_reference(expr: &ScalarExpr) -> (r: Option<String>)
    ensures
        crate::text::opt_text(r) == first_column(expr@),
    decreases expr,
{
    if let ScalarExpr::Column(name) = expr {
        return Some(name.clone());
    }
    let children = expr.children();
    proof {
        lemma_parts(*expr);
    }
    let mut i: usize = 0;
    while i < children.len()
        invariant
            children@ == refs(kids(*expr)),
            exprs(kids(*expr)) == parts(expr@),
            i <= children@.len(),
            first_column(expr@) == first_column_from(expr@, i as nat),
        decreases children@.len() - i,
    {
        proof {
            lemma_kids_smaller(*expr, i as int);
            lemma_parts_smaller(expr@, i as int);
            assert(parts(expr@)[i as int] == exprs(kids(*expr))[i as int]);
        }
        match first_column_reference(children[i]) {
            Some(name) => {
                return Some(name);
            },
            None => {},
        }
        i = i + 1;
    }
    None
}

} // verus!
