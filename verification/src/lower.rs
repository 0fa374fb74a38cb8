//! Lowering parsed expressions into scalar expressions for evaluation.
use vstd::prelude::*;
use crate::expr::{
    branch_views, exprs, group_expr_views, lemma_function_view, opt_expr, order_keys, ExprView,
};
use crate::facts::{asked, on_one, Facts, Halt, Known, Stop, Task, TaskView};
use crate::interval::Interval;
use crate::literals::{
    col_name, dotted, expr_to_value, extract_col_name, interval_node, literal, parameter,
    part_texts, read_interval,
};
use crate::plan_types::{
    aggregate_op, named_aggregate, AggregateOp, PatternKind, ScalarBinaryOp, ScalarExpr,
    ScalarUnaryOp,
};
use crate::scalar_ops::{comparison, is_comparison};
use crate::syntax::{
    ArgKind, Arguments, FunctionArg, FunctionCall, LikeKind, SqlBinaryOp, SqlExpr, SqlNode,
    SqlUnaryOp, SqlValue, TrimSide,
};
use crate::text::{
    begins, begins_with, join, same_text, text_between, upper, upper_text, uppercase, uppercased,
};
use crate::value::{group_value_views, vals, Val, Value};

verus! {

/// The result of lowering: `None` for forms that are not supported.
pub type Lowering = Result<Option<ScalarExpr>, Halt>;

/// What a [`Lowering`] stands for.
pub type LoweringView = Result<Option<ExprView>, Stop>;

/// What a [`Lowering`] stands for.
pub open spec fn lowering(r: Lowering) -> LoweringView {
    match r {
        Ok(Some(e)) => Ok(Some(e@)),
        Ok(None) => Ok(None),
        Err(h) => Err(h@),
    }
}

/// What lowering several expressions stands for.
pub open spec fn list_lowering(r: Result<Option<Vec<ScalarExpr>>, Halt>) -> Result<
    Option<Seq<ExprView>>,
    Stop,
> {
    match r {
        Ok(Some(v)) => Ok(Some(exprs(v@))),
        Ok(None) => Ok(None),
        Err(h) => Err(h@),
    }
}

// ---------------------------------------------------------------------------
// Operators and names
// ---------------------------------------------------------------------------

/// The evaluator's operator for the last part of `OPERATOR(schema.op)`.
pub open spec fn symbol_op(symbol: Seq<char>) -> Option<ScalarBinaryOp> {
    if symbol == "="@ {
        Some(ScalarBinaryOp::Eq)
    } else if symbol == "<>"@ {
        Some(ScalarBinaryOp::NotEq)
    } else if symbol == "<"@ {
        Some(ScalarBinaryOp::Lt)
    } else if symbol == "<="@ {
        Some(ScalarBinaryOp::LtEq)
    } else if symbol == ">"@ {
        Some(ScalarBinaryOp::Gt)
    } else if symbol == ">="@ {
        Some(ScalarBinaryOp::GtEq)
    } else {
        None
    }
}

/// The evaluator's operator for a SQL operator.
pub open spec fn binary(op: SqlBinaryOp) -> Option<ScalarBinaryOp> {
    match op {
        SqlBinaryOp::Plus => Some(ScalarBinaryOp::Add),
        SqlBinaryOp::Minus => Some(ScalarBinaryOp::Sub),
        SqlBinaryOp::Multiply => Some(ScalarBinaryOp::Mul),
        SqlBinaryOp::Divide => Some(ScalarBinaryOp::Div),
        SqlBinaryOp::Modulo => Some(ScalarBinaryOp::Mod),
        SqlBinaryOp::Eq => Some(ScalarBinaryOp::Eq),
        SqlBinaryOp::NotEq => Some(ScalarBinaryOp::NotEq),
        SqlBinaryOp::Lt => Some(ScalarBinaryOp::Lt),
        SqlBinaryOp::LtEq => Some(ScalarBinaryOp::LtEq),
        SqlBinaryOp::Gt => Some(ScalarBinaryOp::Gt),
        SqlBinaryOp::GtEq => Some(ScalarBinaryOp::GtEq),
        SqlBinaryOp::And => Some(ScalarBinaryOp::And),
        SqlBinaryOp::Or => Some(ScalarBinaryOp::Or),
        SqlBinaryOp::StringConcat => Some(ScalarBinaryOp::Concat),
        SqlBinaryOp::Arrow => Some(ScalarBinaryOp::JsonGet),
        SqlBinaryOp::LongArrow => Some(ScalarBinaryOp::JsonGetText),
        SqlBinaryOp::HashArrow => Some(ScalarBinaryOp::JsonPath),
        SqlBinaryOp::HashLongArrow => Some(ScalarBinaryOp::JsonPathText),
        SqlBinaryOp::Question => Some(ScalarBinaryOp::JsonHasKey),
        SqlBinaryOp::QuestionPipe => Some(ScalarBinaryOp::JsonHasAnyKey),
        SqlBinaryOp::QuestionAnd => Some(ScalarBinaryOp::JsonHasAllKeys),
        SqlBinaryOp::AtArrow => Some(ScalarBinaryOp::Contains),
        SqlBinaryOp::ArrowAt => Some(ScalarBinaryOp::ContainedBy),
        SqlBinaryOp::Overlap => Some(ScalarBinaryOp::Overlap),
        SqlBinaryOp::Qualified(parts) => if parts@.len() == 0 {
            None
        } else {
            symbol_op(parts@.last()@)
        },
        SqlBinaryOp::Custom(s) => if s@ == "@>"@ {
            Some(ScalarBinaryOp::Contains)
        } else if s@ == "<@"@ {
            Some(ScalarBinaryOp::ContainedBy)
        } else {
            None
        },
        _ => None,
    }
}

fn op_of_symbol(symbol: &str) -> (r: Option<ScalarBinaryOp>)
    ensures
        r == symbol_op(symbol@),
{
    if same_text(symbol, "=") {
        Some(ScalarBinaryOp::Eq)
    } else if same_text(symbol, "<>") {
        Some(ScalarBinaryOp::NotEq)
    } else if same_text(symbol, "<") {
        Some(ScalarBinaryOp::Lt)
    } else if same_text(symbol, "<=") {
        Some(ScalarBinaryOp::LtEq)
    } else if same_text(symbol, ">") {
        Some(ScalarBinaryOp::Gt)
    } else if same_text(symbol, ">=") {
        Some(ScalarBinaryOp::GtEq)
    } else {
        None
    }
}

/// The evaluator's operator for a SQL operator, in its bare or schema-qualified
/// spelling; `None` if unsupported.
pub fn scalar_binary_op(op: &SqlBinaryOp) -> (r: Option<ScalarBinaryOp>)
    ensures
        r == binary(*op),
{
    match op {
        SqlBinaryOp::Plus => Some(ScalarBinaryOp::Add),
        SqlBinaryOp::Minus => Some(ScalarBinaryOp::Sub),
        SqlBinaryOp::Multiply => Some(ScalarBinaryOp::Mul),
        SqlBinaryOp::Divide => Some(ScalarBinaryOp::Div),
        SqlBinaryOp::Modulo => Some(ScalarBinaryOp::Mod),
        SqlBinaryOp::Eq => Some(ScalarBinaryOp::Eq),
        SqlBinaryOp::NotEq => Some(ScalarBinaryOp::NotEq),
        SqlBinaryOp::Lt => Some(ScalarBinaryOp::Lt),
        SqlBinaryOp::LtEq => Some(ScalarBinaryOp::LtEq),
        SqlBinaryOp::Gt => Some(ScalarBinaryOp::Gt),
        SqlBinaryOp::GtEq => Some(ScalarBinaryOp::GtEq),
        SqlBinaryOp::And => Some(ScalarBinaryOp::And),
        SqlBinaryOp::Or => Some(ScalarBinaryOp::Or),
        SqlBinaryOp::StringConcat => Some(ScalarBinaryOp::Concat),
        SqlBinaryOp::Arrow => Some(ScalarBinaryOp::JsonGet),
        SqlBinaryOp::LongArrow => Some(ScalarBinaryOp::JsonGetText),
        SqlBinaryOp::HashArrow => Some(ScalarBinaryOp::JsonPath),
        SqlBinaryOp::HashLongArrow => Some(ScalarBinaryOp::JsonPathText),
        SqlBinaryOp::Question => Some(ScalarBinaryOp::JsonHasKey),
        SqlBinaryOp::QuestionPipe => Some(ScalarBinaryOp::JsonHasAnyKey),
        SqlBinaryOp::QuestionAnd => Some(ScalarBinaryOp::JsonHasAllKeys),
        SqlBinaryOp::AtArrow => Some(ScalarBinaryOp::Contains),
        SqlBinaryOp::ArrowAt => Some(ScalarBinaryOp::ContainedBy),
        SqlBinaryOp::Overlap => Some(ScalarBinaryOp::Overlap),
        SqlBinaryOp::Qualified(parts) => {
            let n: usize = parts.len();
            if n == 0 {
                None
            } else {
                op_of_symbol(parts[n - 1].as_str())
            }
        },
        SqlBinaryOp::Custom(s) => {
            if same_text(s.as_str(), "@>") {
                Some(ScalarBinaryOp::Contains)
            } else if same_text(s.as_str(), "<@") {
                Some(ScalarBinaryOp::ContainedBy)
            } else {
                None
            }
        },
        _ => None,
    }
}

/// The pattern matching that an operator symbol asks for: its kind, whether it
/// ignores case, and whether it is negated.
pub open spec fn symbol_pattern(symbol: Seq<char>) -> Option<(PatternKind, bool, bool)> {
    if symbol == "~"@ {
        Some((PatternKind::Regex, false, false))
    } else if symbol == "~*"@ {
        Some((PatternKind::Regex, true, false))
    } else if symbol == "!~"@ {
        Some((PatternKind::Regex, false, true))
    } else if symbol == "!~*"@ {
        Some((PatternKind::Regex, true, true))
    } else if symbol == "~~"@ {
        Some((PatternKind::Like, false, false))
    } else if symbol == "~~*"@ {
        Some((PatternKind::Like, true, false))
    } else if symbol == "!~~"@ {
        Some((PatternKind::Like, false, true))
    } else if symbol == "!~~*"@ {
        Some((PatternKind::Like, true, true))
    } else {
        None
    }
}

/// The pattern matching that a SQL operator asks for.
pub open spec fn pattern_op(op: SqlBinaryOp) -> Option<(PatternKind, bool, bool)> {
    match op {
        SqlBinaryOp::RegexMatch => Some((PatternKind::Regex, false, false)),
        SqlBinaryOp::RegexIMatch => Some((PatternKind::Regex, true, false)),
        SqlBinaryOp::RegexNotMatch => Some((PatternKind::Regex, false, true)),
        SqlBinaryOp::RegexNotIMatch => Some((PatternKind::Regex, true, true)),
        SqlBinaryOp::LikeMatch => Some((PatternKind::Like, false, false)),
        SqlBinaryOp::ILikeMatch => Some((PatternKind::Like, true, false)),
        SqlBinaryOp::NotLikeMatch => Some((PatternKind::Like, false, true)),
        SqlBinaryOp::NotILikeMatch => Some((PatternKind::Like, true, true)),
        SqlBinaryOp::Qualified(parts) => if parts@.len() == 0 {
            None
        } else {
            symbol_pattern(parts@.last()@)
        },
        _ => None,
    }
}

/// The pattern matching that a SQL operator asks for, in its bare or
/// schema-qualified spelling: its kind, whether it ignores case, and whether
/// it is negated.
pub fn pattern_operator(op: &SqlBinaryOp) -> (r: Option<(PatternKind, bool, bool)>)
    ensures
        r == pattern_op(*op),
{
    match op {
        SqlBinaryOp::RegexMatch => Some((PatternKind::Regex, false, false)),
        SqlBinaryOp::RegexIMatch => Some((PatternKind::Regex, true, false)),
        SqlBinaryOp::RegexNotMatch => Some((PatternKind::Regex, false, true)),
        SqlBinaryOp::RegexNotIMatch => Some((PatternKind::Regex, true, true)),
        SqlBinaryOp::LikeMatch => Some((PatternKind::Like, false, false)),
        SqlBinaryOp::ILikeMatch => Some((PatternKind::Like, true, false)),
        SqlBinaryOp::NotLikeMatch => Some((PatternKind::Like, false, true)),
        SqlBinaryOp::NotILikeMatch => Some((PatternKind::Like, true, true)),
        SqlBinaryOp::Qualified(parts) => {
            let n: usize = parts.len();
            if n == 0 {
                return None;
            }
            let symbol = parts[n - 1].as_str();
            if same_text(symbol, "~") {
                Some((PatternKind::Regex, false, false))
            } else if same_text(symbol, "~*") {
                Some((PatternKind::Regex, true, false))
            } else if same_text(symbol, "!~") {
                Some((PatternKind::Regex, false, true))
            } else if same_text(symbol, "!~*") {
                Some((PatternKind::Regex, true, true))
            } else if same_text(symbol, "~~") {
                Some((PatternKind::Like, false, false))
            } else if same_text(symbol, "~~*") {
                Some((PatternKind::Like, true, false))
            } else if same_text(symbol, "!~~") {
                Some((PatternKind::Like, false, true))
            } else if same_text(symbol, "!~~*") {
                Some((PatternKind::Like, true, true))
            } else {
                None
            }
        },
        _ => None,
    }
}

/// Keywords that are evaluated as functions without parentheses.
pub open spec fn keyword_function(name: Seq<char>) -> bool {
    ||| name == "CURRENT_ROLE"@
    ||| name == "CURRENT_USER"@
    ||| name == "SESSION_USER"@
    ||| name == "USER"@
    ||| name == "CURRENT_CATALOG"@
    ||| name == "CURRENT_SCHEMA"@
    ||| name == "CURRENT_DATE"@
    ||| name == "CURRENT_TIME"@
    ||| name == "CURRENT_TIMESTAMP"@
    ||| name == "LOCALTIME"@
    ||| name == "LOCALTIMESTAMP"@
}

/// Whether an upper-cased name is a keyword that is evaluated as a function
/// without parentheses.
pub fn is_keyword_function(name: &str) -> (r: bool)
    ensures
        r == keyword_function(name@),
{
    same_text(name, "CURRENT_ROLE") || same_text(name, "CURRENT_USER") || same_text(
        name,
        "SESSION_USER",
    ) || same_text(name, "USER") || same_text(name, "CURRENT_CATALOG") || same_text(
        name,
        "CURRENT_SCHEMA",
    ) || same_text(name, "CURRENT_DATE") || same_text(name, "CURRENT_TIME") || same_text(
        name,
        "CURRENT_TIMESTAMP",
    ) || same_text(name, "LOCALTIME") || same_text(name, "LOCALTIMESTAMP")
}

/// A function's upper-cased name without the schema of the built-in functions.
pub open spec fn function_name(name: Seq<char>) -> Seq<char> {
    if begins(uppercased(name), "PG_CATALOG."@) {
        uppercased(name).skip("PG_CATALOG."@.len() as int)
    } else {
        uppercased(name)
    }
}

/// A function's upper-cased name without the schema of the built-in functions.
pub fn built_in_name(name: &str) -> (r: String)
    ensures
        r@ == function_name(name@),
{
    let whole = uppercase(name);
    if begins_with(whole.as_str(), "PG_CATALOG.") {
        let chars = crate::text::chars_of(whole.as_str());
        proof {
            reveal_strlit("PG_CATALOG.");
        }
        let bare = text_between(&chars, 11, chars.len());
        assert(bare@ =~= whole@.skip(11));
        bare
    } else {
        whole
    }
}

/// Whether a scalar function of this upper-cased name is provided.
pub open spec fn provided(name: Seq<char>, k: Known) -> Result<bool, Stop> {
    match asked(k, on_one(TaskView::KnownFunction, Val::Text(name))) {
        Ok(v) => Ok(v == Val::Bool(true)),
        Err(s) => Err(s),
    }
}

/// Whether a scalar function of this upper-cased name is provided.
pub fn is_provided(name: &String, facts: &Facts) -> (r: Result<bool, Halt>)
    ensures
        crate::facts::bool_outcome(r) == provided(name@, facts@),
{
    let text = Value::Text(name.clone());
    match facts.ask_one(Task::KnownFunction, &text) {
        Ok(Value::Bool(b)) => Ok(b),
        Ok(_) => Ok(false),
        Err(h) => Err(h),
    }
}

// ---------------------------------------------------------------------------
// Combining lowered parts
// ---------------------------------------------------------------------------

/// What `f` makes of a lowered expression.
pub open spec fn with_one(a: LoweringView, f: spec_fn(ExprView) -> ExprView) -> LoweringView {
    match a {
        Ok(Some(x)) => Ok(Some(f(x))),
        Ok(None) => Ok(None),
        Err(s) => Err(s),
    }
}

/// What `f` makes of two lowered expressions, the first of which decides where
/// both fail.
pub open spec fn with_two(
    a: LoweringView,
    b: LoweringView,
    f: spec_fn(ExprView, ExprView) -> ExprView,
) -> LoweringView {
    match a {
        Ok(Some(x)) => match b {
            Ok(Some(y)) => Ok(Some(f(x, y))),
            Ok(None) => Ok(None),
            Err(s) => Err(s),
        },
        Ok(None) => Ok(None),
        Err(s) => Err(s),
    }
}

fn both(a: Lowering, b: Lowering) -> (r: Result<Option<(ScalarExpr, ScalarExpr)>, Halt>)
    ensures
        forall|f: spec_fn(ExprView, ExprView) -> ExprView| #[trigger]
            with_two(lowering(a), lowering(b), f) == (match r {
                Ok(Some(p)) => Ok(Some(f(p.0@, p.1@))),
                Ok(None) => Ok(None),
                Err(h) => Err(h@),
            }),
{
    match a {
        Ok(Some(x)) => match b {
            Ok(Some(y)) => Ok(Some((x, y))),
            Ok(None) => Ok(None),
            Err(h) => Err(h),
        },
        Ok(None) => Ok(None),
        Err(h) => Err(h),
    }
}

/// The lowered parts of a `CASE`, `BETWEEN` and the like, with the expressions
/// of `before` in front.
pub open spec fn after(before: Seq<ExprView>, next: LoweringView) -> Result<
    Option<Seq<ExprView>>,
    Stop,
> {
    match next {
        Ok(Some(x)) => Ok(Some(before.push(x))),
        Ok(None) => Ok(None),
        Err(s) => Err(s),
    }
}

/// The values of the expressions, if all of them are constants.
pub open spec fn constants(es: Seq<ExprView>) -> Option<Seq<Val>> {
    if forall|i: int| 0 <= i < es.len() ==> (#[trigger] es[i]) is Literal {
        Some(Seq::new(es.len(), |i: int| es[i]->Literal_0))
    } else {
        None
    }
}

/// An array constructor: a constant when every element is one.
pub open spec fn array_of(es: Seq<ExprView>) -> ExprView {
    match constants(es) {
        Some(vs) => ExprView::Literal(Val::Array(vs)),
        None => ExprView::Function("ARRAY"@, es),
    }
}

fn build_array(items: Vec<ScalarExpr>) -> (r: ScalarExpr)
    ensures
        r@ == array_of(exprs(items@)),
{
    broadcast use {group_expr_views, group_value_views};

    let ghost es = exprs(items@);
    let mut values: Vec<Value> = Vec::new();
    let mut i: usize = 0;
    while i < items.len()
        invariant
            i <= items@.len(),
            es == exprs(items@),
            values@.len() == i,
            forall|j: int|
                0 <= j < i ==> (#[trigger] es[j]) is Literal && es[j]->Literal_0 == values@[j]@,
        decreases items@.len() - i,
    {
        assert(es[i as int] == items@[i as int]@);
        match &items[i] {
            ScalarExpr::Literal(v) => {
                values.push(v.duplicate());
            },
            _ => {
                assert(!(es[i as int] is Literal));
                let name = "ARRAY".to_owned();
                proof {
                    lemma_function_view(name, items);
                }
                return ScalarExpr::Function { name, args: items };
            },
        }
        i = i + 1;
    }
    assert(constants(es) is Some);
    assert(vals(values@) =~= constants(es)->0);
    ScalarExpr::Literal(Value::Array(values))
}

/// The escape character a pattern match uses: a backslash unless `ESCAPE`
/// gives another, and none at all for `ESCAPE ''`.
pub open spec fn escape_of(escape: Option<Box<SqlExpr>>, params: Seq<Val>, k: Known) -> Result<
    Option<Option<char>>,
    Stop,
> {
    match escape {
        None => Ok(Some(Some('\\'))),
        Some(e) => match literal(*e, params, k) {
            Ok(Some(Val::Text(t))) => if t.len() == 0 {
                Ok(Some(None))
            } else if t.len() == 1 {
                Ok(Some(Some(t[0])))
            } else {
                Ok(None)
            },
            Ok(_) => Ok(None),
            Err(s) => Err(s),
        },
    }
}

fn read_escape(escape: &Option<Box<SqlExpr>>, params: &Vec<Value>, facts: &Facts) -> (r: Result<
    Option<Option<char>>,
    Halt,
>)
    ensures
        match (r, escape_of(*escape, vals(params@), facts@)) {
            (Ok(a), Ok(b)) => a == b,
            (Err(h), Err(s)) => h@ == s,
            _ => false,
        },
{
    match escape {
        None => Ok(Some(Some('\\'))),
        Some(e) => match expr_to_value(e, params, facts) {
            Ok(Some(Value::Text(t))) => {
                let chars = crate::text::chars_of(t.as_str());
                if chars.len() == 0 {
                    Ok(Some(None))
                } else if chars.len() == 1 {
                    Ok(Some(Some(chars[0])))
                } else {
                    Ok(None)
                }
            },
            Ok(_) => Ok(None),
            Err(h) => Err(h),
        },
    }
}

/// The negative of an offset, if each part has one.
pub open spec fn negated_offset(i: Interval) -> Option<Interval> {
    if i.0 == i64::MIN || i.1 == i64::MIN || i.2 == i64::MIN {
        None
    } else {
        Some(((-i.0) as i64, (-i.1) as i64, (-i.2) as i64))
    }
}

fn negate_offset(i: Interval) -> (r: Option<Interval>)
    ensures
        r == negated_offset(i),
{
    if i.0 == i64::MIN || i.1 == i64::MIN || i.2 == i64::MIN {
        None
    } else {
        Some((-i.0, -i.1, -i.2))
    }
}

/// The offset that adding or subtracting an `INTERVAL` expression moves a date
/// by.
pub open spec fn signed_offset(value: SqlExpr, leading: Option<String>, sub: bool) -> Option<
    Interval,
> {
    match interval_node(value, leading) {
        Some(i) => if sub {
            negated_offset(i)
        } else {
            Some(i)
        },
        None => None,
    }
}

fn read_offset(value: &SqlExpr, leading: &Option<String>, sub: bool) -> (r: Option<Interval>)
    ensures
        r == signed_offset(*value, *leading, sub),
{
    match read_interval(value, leading) {
        Some(i) => {
            if sub {
                negate_offset(i)
            } else {
                Some(i)
            }
        },
        None => None,
    }
}

/// A date moved by an offset.
pub open spec fn moved(base: LoweringView, offset: Option<Interval>) -> LoweringView {
    match offset {
        Some((m, d, s)) => with_one(base, |x: ExprView| ExprView::DateOffset(Box::new(x), m, d, s)),
        None => Ok(None),
    }
}

/// An aggregate call as a part of an expression.
pub open spec fn aggregate_call(
    op: AggregateOp,
    arg: Seq<char>,
    arg_expr: Option<Box<ExprView>>,
    distinct: bool,
) -> ExprView {
    ExprView::Aggregate {
        op,
        arg,
        arg_expr,
        distinct,
        extra_args: Seq::empty(),
        filter: None,
        order_by: Seq::empty(),
    }
}

fn build_aggregate(
    op: AggregateOp,
    arg: String,
    arg_expr: Option<Box<ScalarExpr>>,
    distinct: bool,
) -> (r: ScalarExpr)
    ensures
        r@ == aggregate_call(op, arg@, opt_expr(arg_expr), distinct),
{
    broadcast use group_expr_views;

    let extra_args: Vec<ScalarExpr> = Vec::new();
    let order_by: Vec<(ScalarExpr, bool, Option<bool>)> = Vec::new();
    assert(exprs(extra_args@) =~= Seq::empty());
    assert(order_keys(order_by@) =~= Seq::empty());
    ScalarExpr::Aggregate { op, arg, arg_expr, distinct, extra_args, filter: None, order_by }
}

// ---------------------------------------------------------------------------
// Expressions
// ---------------------------------------------------------------------------

/// What an expression is lowered to; `None` for forms that are not supported.
pub open spec fn lowered(e: SqlExpr, params: Seq<Val>, k: Known) -> LoweringView
    decreases e, 2int,
{
    match e.node {
        SqlNode::Value(_) | SqlNode::Interval { .. } | SqlNode::TypedString { .. }
        | SqlNode::Identifier(_) | SqlNode::Compound(_) => lowered_leaf(e, params, k),
        SqlNode::Array(items) => match lowered_all(items, 0, Seq::empty(), params, k) {
            Ok(Some(es)) => Ok(Some(array_of(es))),
            Ok(None) => Ok(None),
            Err(s) => Err(s),
        },
        SqlNode::Nested(x) | SqlNode::Collate(x) => lowered(*x, params, k),
        SqlNode::Unary { op, expr } => match lowered(*expr, params, k) {
            Ok(Some(x)) => Ok(
                match op {
                    SqlUnaryOp::Minus => Some(ExprView::Unary(ScalarUnaryOp::Neg, Box::new(x))),
                    SqlUnaryOp::Not => Some(ExprView::Unary(ScalarUnaryOp::Not, Box::new(x))),
                    SqlUnaryOp::Plus => Some(x),
                    SqlUnaryOp::Other => None,
                },
            ),
            Ok(None) => Ok(None),
            Err(s) => Err(s),
        },
        SqlNode::Binary { .. } => lowered_binary(e, params, k),
        SqlNode::Cast { expr, data_type } => with_one(
            lowered(*expr, params, k),
            |x: ExprView| ExprView::Cast(Box::new(x), data_type@),
        ),
        SqlNode::Case { .. } => lowered_case(e, params, k),
        SqlNode::IsNull(_) | SqlNode::IsNotNull(_) | SqlNode::Like { .. }
        | SqlNode::DistinctFrom { .. } | SqlNode::IsBool { .. } | SqlNode::InList { .. }
        | SqlNode::Between { .. } | SqlNode::Quantified { .. } => lowered_test(e, params, k),
        SqlNode::Tuple(items) => match lowered_all(items, 0, Seq::empty(), params, k) {
            Ok(Some(es)) => Ok(Some(ExprView::Row(es))),
            Ok(None) => Ok(None),
            Err(s) => Err(s),
        },
        SqlNode::Function(call) => lowered_call(call, params, k),
        SqlNode::Substring { .. } | SqlNode::Trim { .. } | SqlNode::Position { .. }
        | SqlNode::Overlay { .. } => lowered_text(e, params, k),
        SqlNode::Rounded { expr, up, plain } => if plain {
            with_one(
                lowered(*expr, params, k),
                |x: ExprView|
                    ExprView::Function(
                        if up {
                            "CEIL"@
                        } else {
                            "FLOOR"@
                        },
                        seq![x],
                    ),
            )
        } else {
            Ok(None)
        },
        SqlNode::Extract { field, expr } => with_one(
            lowered(*expr, params, k),
            |x: ExprView| ExprView::Extract(field@, Box::new(x)),
        ),
        _ => Ok(None),
    }
}

/// What a constant or a name is lowered to. A placeholder without a value is
/// NULL, and a typed text that its type rejects a cast of the text.
pub open spec fn lowered_leaf(e: SqlExpr, params: Seq<Val>, k: Known) -> LoweringView {
    match e.node {
        SqlNode::Value(SqlValue::Placeholder(s)) => Ok(
            Some(
                ExprView::Literal(
                    match parameter(s@, params) {
                        Some(v) => v,
                        None => Val::Null,
                    },
                ),
            ),
        ),
        SqlNode::Value(_) | SqlNode::Interval { .. } => match literal(e, params, k) {
            Ok(Some(v)) => Ok(Some(ExprView::Literal(v))),
            Ok(None) => Ok(None),
            Err(s) => Err(s),
        },
        SqlNode::TypedString { value, data_type } => match literal(e, params, k) {
            Ok(Some(v)) => Ok(Some(ExprView::Literal(v))),
            Ok(None) => match value {
                SqlValue::Quoted(s) => Ok(
                    Some(
                        ExprView::Cast(
                            Box::new(ExprView::Literal(Val::Text(s@))),
                            data_type@,
                        ),
                    ),
                ),
                _ => Ok(None),
            },
            Err(s) => Err(s),
        },
        SqlNode::Identifier(id) => Ok(
            Some(
                if !id.quoted && keyword_function(upper(id.value@)) {
                    ExprView::Function(upper(id.value@), Seq::empty())
                } else {
                    ExprView::Column(id.value@)
                },
            ),
        ),
        SqlNode::Compound(ids) => Ok(Some(ExprView::Column(join(part_texts(ids@), "."@)))),
        _ => Ok(None),
    }
}

/// What a test is lowered to.
pub open spec fn lowered_test(e: SqlExpr, params: Seq<Val>, k: Known) -> LoweringView
    decreases e, 1int,
{
    match e.node {
        SqlNode::IsNull(x) => with_one(
            lowered(*x, params, k),
            |x: ExprView| ExprView::IsNull(Box::new(x), false),
        ),
        SqlNode::IsNotNull(x) => with_one(
            lowered(*x, params, k),
            |x: ExprView| ExprView::IsNull(Box::new(x), true),
        ),
        SqlNode::Like { kind, negated, any, expr, pattern, escape } => if any || kind is RLike {
            Ok(None)
        } else {
            match escape_of(escape, params, k) {
                Ok(Some(escape)) => with_two(
                    lowered(*expr, params, k),
                    lowered(*pattern, params, k),
                    |x: ExprView, y: ExprView|
                        ExprView::PatternMatch {
                            expr: Box::new(x),
                            pattern: Box::new(y),
                            kind: if kind is SimilarTo {
                                PatternKind::SimilarTo
                            } else {
                                PatternKind::Like
                            },
                            case_insensitive: kind is ILike,
                            negated,
                            escape,
                        },
                ),
                Ok(None) => Ok(None),
                Err(s) => Err(s),
            }
        },
        SqlNode::DistinctFrom { left, right, negated } => with_two(
            lowered(*left, params, k),
            lowered(*right, params, k),
            |x: ExprView, y: ExprView|
                ExprView::IsDistinctFrom(Box::new(x), Box::new(y), negated),
        ),
        SqlNode::IsBool { expr, value, negated } => with_one(
            lowered(*expr, params, k),
            |x: ExprView| ExprView::IsBool(Box::new(x), value, negated),
        ),
        SqlNode::InList { expr, list, negated } => match lowered(*expr, params, k) {
            Ok(Some(x)) => match lowered_all(list, 0, Seq::empty(), params, k) {
                Ok(Some(es)) => Ok(Some(ExprView::InList(Box::new(x), es, negated))),
                Ok(None) => Ok(None),
                Err(s) => Err(s),
            },
            Ok(None) => Ok(None),
            Err(s) => Err(s),
        },
        SqlNode::Between { expr, negated, low, high } => match lowered(*expr, params, k) {
            Ok(Some(x)) => with_two(
                lowered(*low, params, k),
                lowered(*high, params, k),
                |lo: ExprView, hi: ExprView| between(x, lo, hi, negated),
            ),
            Ok(None) => Ok(None),
            Err(s) => Err(s),
        },
        SqlNode::Quantified { left, op, op_text, right, all } => if right.node is Subquery {
            Ok(None)
        } else {
            match binary(op) {
                Some(op) => if comparison(op) {
                    with_two(
                        lowered(*left, params, k),
                        lowered(*right, params, k),
                        |x: ExprView, y: ExprView|
                            ExprView::Quantified {
                                left: Box::new(x),
                                op,
                                right: Box::new(y),
                                all,
                            },
                    )
                } else {
                    Ok(None)
                },
                None => Ok(None),
            }
        },
        _ => Ok(None),
    }
}

/// `x BETWEEN lo AND hi` is `x >= lo AND x <= hi`; its negation is
/// `x < lo OR x > hi`.
pub open spec fn between(x: ExprView, lo: ExprView, hi: ExprView, negated: bool) -> ExprView {
    if negated {
        ExprView::Binary(
            ScalarBinaryOp::Or,
            Box::new(ExprView::Binary(ScalarBinaryOp::Lt, Box::new(x), Box::new(lo))),
            Box::new(ExprView::Binary(ScalarBinaryOp::Gt, Box::new(x), Box::new(hi))),
        )
    } else {
        ExprView::Binary(
            ScalarBinaryOp::And,
            Box::new(ExprView::Binary(ScalarBinaryOp::GtEq, Box::new(x), Box::new(lo))),
            Box::new(ExprView::Binary(ScalarBinaryOp::LtEq, Box::new(x), Box::new(hi))),
        )
    }
}

/// The lowered expressions from position `i` on, after those of `before`.
pub open spec fn lowered_all(
    items: Vec<SqlExpr>,
    i: nat,
    before: Seq<ExprView>,
    params: Seq<Val>,
    k: Known,
) -> Result<Option<Seq<ExprView>>, Stop>
    decreases items, items@.len() - i,
{
    if i >= items@.len() {
        Ok(Some(before))
    } else {
        match lowered(items@[i as int], params, k) {
            Ok(Some(x)) => lowered_all(items, i + 1, before.push(x), params, k),
            Ok(None) => Ok(None),
            Err(s) => Err(s),
        }
    }
}

/// The lowered arguments from position `i` on, after those of `before`; none
/// unless every argument is a plain expression.
pub open spec fn lowered_args(
    args: Vec<FunctionArg>,
    i: nat,
    before: Seq<ExprView>,
    params: Seq<Val>,
    k: Known,
) -> Result<Option<Seq<ExprView>>, Stop>
    decreases args, args@.len() - i,
{
    if i >= args@.len() {
        Ok(Some(before))
    } else {
        match args@[i as int].kind {
            ArgKind::Expr(e) => match lowered(e, params, k) {
                Ok(Some(x)) => lowered_args(args, i + 1, before.push(x), params, k),
                Ok(None) => Ok(None),
                Err(s) => Err(s),
            },
            _ => Ok(None),
        }
    }
}

/// The lowered branches of a `CASE` from position `i` on, after those of
/// `before`.
pub open spec fn lowered_branches(
    branches: Vec<(SqlExpr, SqlExpr)>,
    i: nat,
    before: Seq<(ExprView, ExprView)>,
    params: Seq<Val>,
    k: Known,
) -> Result<Option<Seq<(ExprView, ExprView)>>, Stop>
    decreases branches, branches@.len() - i,
{
    if i >= branches@.len() {
        Ok(Some(before))
    } else {
        match lowered(branches@[i as int].0, params, k) {
            Ok(Some(x)) => match lowered(branches@[i as int].1, params, k) {
                Ok(Some(y)) => lowered_branches(branches, i + 1, before.push((x, y)), params, k),
                Ok(None) => Ok(None),
                Err(s) => Err(s),
            },
            Ok(None) => Ok(None),
            Err(s) => Err(s),
        }
    }
}

/// A lowered expression that may be absent.
pub open spec fn lowered_if(e: Option<Box<SqlExpr>>, params: Seq<Val>, k: Known) -> Result<
    Option<Option<Box<ExprView>>>,
    Stop,
>
    decreases e, 3int,
{
    match e {
        None => Ok(Some(None)),
        Some(x) => match lowered(*x, params, k) {
            Ok(Some(y)) => Ok(Some(Some(Box::new(y)))),
            Ok(None) => Ok(None),
            Err(s) => Err(s),
        },
    }
}

/// What a `CASE` is lowered to.
pub open spec fn lowered_case(e: SqlExpr, params: Seq<Val>, k: Known) -> LoweringView
    decreases e, 1int,
{
    match e.node {
        SqlNode::Case { operand, branches, else_result } => match lowered_if(operand, params, k) {
            Ok(Some(operand)) => match lowered_branches(branches, 0, Seq::empty(), params, k) {
                Ok(Some(branches)) => match lowered_if(else_result, params, k) {
                    Ok(Some(else_result)) => Ok(
                        Some(ExprView::Case { operand, branches, else_result }),
                    ),
                    Ok(None) => Ok(None),
                    Err(s) => Err(s),
                },
                Ok(None) => Ok(None),
                Err(s) => Err(s),
            },
            Ok(None) => Ok(None),
            Err(s) => Err(s),
        },
        _ => Ok(None),
    }
}

/// What a binary operation is lowered to. Adding an interval to a date or
/// timestamp, or subtracting one, becomes an offset, when exactly one side is
/// an interval.
pub open spec fn lowered_binary(e: SqlExpr, params: Seq<Val>, k: Known) -> LoweringView
    decreases e, 1int,
{
    match e.node {
        SqlNode::Binary { left, op, right } => match (left.node, right.node) {
            (SqlNode::Interval { value, leading }, node) if op is Plus && !(node is Interval) =>
            moved(lowered(*right, params, k), signed_offset(*value, leading, false)),
            (node, SqlNode::Interval { value, leading }) if (op is Plus || op is Minus) && !(
            node is Interval) => moved(
                lowered(*left, params, k),
                signed_offset(*value, leading, op is Minus),
            ),
            _ => match pattern_op(op) {
                Some((kind, case_insensitive, negated)) => with_two(
                    lowered(*left, params, k),
                    lowered(*right, params, k),
                    |x: ExprView, y: ExprView|
                        ExprView::PatternMatch {
                            expr: Box::new(x),
                            pattern: Box::new(y),
                            kind,
                            case_insensitive,
                            negated,
                            escape: if kind is Like {
                                Some('\\')
                            } else {
                                None
                            },
                        },
                ),
                None => match binary(op) {
                    Some(op) => with_two(
                        lowered(*left, params, k),
                        lowered(*right, params, k),
                        |x: ExprView, y: ExprView|
                            ExprView::Binary(op, Box::new(x), Box::new(y)),
                    ),
                    None => Ok(None),
                },
            },
        },
        _ => Ok(None),
    }
}

/// What a call is lowered to: a row constructor, an aggregate, or a scalar
/// function that is provided. Window calls and aggregates with modifiers are
/// not expressions.
pub open spec fn lowered_call(call: FunctionCall, params: Seq<Val>, k: Known) -> LoweringView
    decreases call, 1int,
{
    let name = function_name(call.name@);
    if name == "ROW"@ && call.args is List {
        match lowered_args(call.args->args, 0, Seq::empty(), params, k) {
            Ok(Some(es)) => Ok(Some(ExprView::Row(es))),
            Ok(None) => Ok(None),
            Err(s) => Err(s),
        }
    } else if call.over is Some || call.filtered || call.within_group {
        Ok(None)
    } else {
        match named_aggregate(name) {
            Some(op) => match call.args {
                Arguments::List { args, distinct, clauses } => if clauses || args@.len() == 0 {
                    Ok(None)
                } else {
                    match args@[0].kind {
                        ArgKind::Wildcard => Ok(Some(aggregate_call(op, "*"@, None, distinct))),
                        ArgKind::Expr(e) => match col_name(e) {
                            Some(col) => Ok(Some(aggregate_call(op, col, None, distinct))),
                            None => with_one(
                                lowered(e, params, k),
                                |x: ExprView|
                                    aggregate_call(op, Seq::empty(), Some(Box::new(x)), distinct),
                            ),
                        },
                        _ => Ok(None),
                    }
                },
                _ => Ok(None),
            },
            None => match provided(name, k) {
                Err(s) => Err(s),
                Ok(false) => Ok(None),
                Ok(true) => match call.args {
                    Arguments::Absent => Ok(Some(ExprView::Function(name, Seq::empty()))),
                    Arguments::List { args, distinct, clauses } => if clauses {
                        Ok(None)
                    } else {
                        match lowered_args(args, 0, Seq::empty(), params, k) {
                            Ok(Some(es)) => Ok(Some(ExprView::Function(name, es))),
                            Ok(None) => Ok(None),
                            Err(s) => Err(s),
                        }
                    },
                    Arguments::Other => Ok(None),
                },
            },
        }
    }
}

/// A call of a function on the expressions of `before` and, where it lowers,
/// one more.
pub open spec fn call_with(
    name: Seq<char>,
    before: Seq<ExprView>,
    next: LoweringView,
) -> LoweringView {
    match after(before, next) {
        Ok(Some(es)) => Ok(Some(ExprView::Function(name, es))),
        Ok(None) => Ok(None),
        Err(s) => Err(s),
    }
}

/// What the text functions with a syntax of their own are lowered to.
pub open spec fn lowered_text(e: SqlExpr, params: Seq<Val>, k: Known) -> LoweringView
    decreases e, 1int,
{
    match e.node {
        SqlNode::Substring { expr, from, length, shorthand } => match lowered(*expr, params, k) {
            Ok(Some(x)) => match (from, length) {
                (Some(from), Some(length)) => with_two(
                    lowered(*from, params, k),
                    lowered(*length, params, k),
                    |a: ExprView, b: ExprView| ExprView::Function("SUBSTR"@, seq![x, a, b]),
                ),
                (Some(from), None) => call_with("SUBSTR"@, seq![x], lowered(*from, params, k)),
                (None, Some(length)) => call_with(
                    "SUBSTR"@,
                    seq![x, ExprView::Literal(Val::Int(1))],
                    lowered(*length, params, k),
                ),
                (None, None) => Ok(Some(ExprView::Function("SUBSTR"@, seq![x]))),
            },
            Ok(None) => Ok(None),
            Err(s) => Err(s),
        },
        SqlNode::Trim { expr, side, what, characters } => {
            let name = match side {
                TrimSide::Leading => "LTRIM"@,
                TrimSide::Trailing => "RTRIM"@,
                TrimSide::Both => "BTRIM"@,
            };
            match lowered(*expr, params, k) {
                Ok(Some(x)) => match (what, characters) {
                    (Some(what), _) => call_with(name, seq![x], lowered(*what, params, k)),
                    (None, Some(characters)) => if characters@.len() == 1 {
                        call_with(name, seq![x], lowered(characters@[0], params, k))
                    } else {
                        Ok(None)
                    },
                    (None, None) => Ok(Some(ExprView::Function(name, seq![x]))),
                },
                Ok(None) => Ok(None),
                Err(s) => Err(s),
            }
        },
        SqlNode::Position { expr, within } => with_two(
            lowered(*within, params, k),
            lowered(*expr, params, k),
            |x: ExprView, y: ExprView| ExprView::Function("STRPOS"@, seq![x, y]),
        ),
        SqlNode::Overlay { expr, what, from, length } => match lowered(*expr, params, k) {
            Ok(Some(x)) => match lowered(*what, params, k) {
                Ok(Some(y)) => match lowered(*from, params, k) {
                    Ok(Some(z)) => match length {
                        Some(length) => call_with(
                            "OVERLAY"@,
                            seq![x, y, z],
                            lowered(*length, params, k),
                        ),
                        None => Ok(Some(ExprView::Function("OVERLAY"@, seq![x, y, z]))),
                    },
                    Ok(None) => Ok(None),
                    Err(s) => Err(s),
                },
                Ok(None) => Ok(None),
                Err(s) => Err(s),
            },
            Ok(None) => Ok(None),
            Err(s) => Err(s),
        },
        _ => Ok(None),
    }
}

// ---------------------------------------------------------------------------
// Lowering
// ---------------------------------------------------------------------------

fn lower_all(items: &Vec<SqlExpr>, params: &Vec<Value>, facts: &Facts) -> (r: Result<
    Option<Vec<ScalarExpr>>,
    Halt,
>)
    ensures
        list_lowering(r) == lowered_all(*items, 0, Seq::empty(), vals(params@), facts@),
    decreases items, items@.len(),
{
    let mut out: Vec<ScalarExpr> = Vec::new();
    let mut i: usize = 0;
    assert(exprs(out@) =~= Seq::<ExprView>::empty());
    while i < items.len()
        invariant
            i <= items@.len(),
            lowered_all(*items, 0, Seq::empty(), vals(params@), facts@) == lowered_all(
                *items,
                i as nat,
                exprs(out@),
                vals(params@),
                facts@,
            ),
        decreases items@.len() - i,
    {
        assert(decreases_to!(items@ => items@[i as int]));
        match lower_scalar(&items[i], params, facts) {
            Ok(Some(x)) => {
                let ghost before = out@;
                out.push(x);
                assert(exprs(out@) =~= exprs(before).push(x@));
            },
            Ok(None) => {
                return Ok(None);
            },
            Err(h) => {
                return Err(h);
            },
        }
        i = i + 1;
    }
    Ok(Some(out))
}

fn lower_args(args: &Vec<FunctionArg>, params: &Vec<Value>, facts: &Facts) -> (r: Result<
    Option<Vec<ScalarExpr>>,
    Halt,
>)
    ensures
        list_lowering(r) == lowered_args(*args, 0, Seq::empty(), vals(params@), facts@),
    decreases args, args@.len(),
{
    let mut out: Vec<ScalarExpr> = Vec::new();
    let mut i: usize = 0;
    assert(exprs(out@) =~= Seq::<ExprView>::empty());
    while i < args.len()
        invariant
            i <= args@.len(),
            lowered_args(*args, 0, Seq::empty(), vals(params@), facts@) == lowered_args(
                *args,
                i as nat,
                exprs(out@),
                vals(params@),
                facts@,
            ),
        decreases args@.len() - i,
    {
        assert(decreases_to!(args@ => args@[i as int]));
        match &args[i].kind {
            ArgKind::Expr(e) => match lower_scalar(e, params, facts) {
                Ok(Some(x)) => {
                    let ghost before = out@;
                    out.push(x);
                    assert(exprs(out@) =~= exprs(before).push(x@));
                },
                Ok(None) => {
                    return Ok(None);
                },
                Err(h) => {
                    return Err(h);
                },
            },
            _ => {
                return Ok(None);
            },
        }
        i = i + 1;
    }
    Ok(Some(out))
}

fn lower_branches(branches: &Vec<(SqlExpr, SqlExpr)>, params: &Vec<Value>, facts: &Facts) -> (r:
    Result<Option<Vec<(ScalarExpr, ScalarExpr)>>, Halt>)
    ensures
        match r {
            Ok(Some(v)) => Ok(Some(branch_views(v@))),
            Ok(None) => Ok(None),
            Err(h) => Err(h@),
        } == lowered_branches(*branches, 0, Seq::empty(), vals(params@), facts@),
    decreases branches, branches@.len(),
{
    let mut out: Vec<(ScalarExpr, ScalarExpr)> = Vec::new();
    let mut i: usize = 0;
    assert(branch_views(out@) =~= Seq::<(ExprView, ExprView)>::empty());
    while i < branches.len()
        invariant
            i <= branches@.len(),
            lowered_branches(*branches, 0, Seq::empty(), vals(params@), facts@) == lowered_branches(
                *branches,
                i as nat,
                branch_views(out@),
                vals(params@),
                facts@,
            ),
        decreases branches@.len() - i,
    {
        assert(decreases_to!(branches@ => branches@[i as int]));
        let condition = match lower_scalar(&branches[i].0, params, facts) {
            Ok(Some(x)) => x,
            Ok(None) => {
                return Ok(None);
            },
            Err(h) => {
                return Err(h);
            },
        };
        match lower_scalar(&branches[i].1, params, facts) {
            Ok(Some(y)) => {
                let ghost before = out@;
                out.push((condition, y));
                assert(branch_views(out@) =~= branch_views(before).push((condition@, y@)));
            },
            Ok(None) => {
                return Ok(None);
            },
            Err(h) => {
                return Err(h);
            },
        }
        i = i + 1;
    }
    Ok(Some(out))
}

fn lower_if(e: &Option<Box<SqlExpr>>, params: &Vec<Value>, facts: &Facts) -> (r: Result<
    Option<Option<Box<ScalarExpr>>>,
    Halt,
>)
    ensures
        match r {
            Ok(Some(x)) => Ok(Some(opt_expr(x))),
            Ok(None) => Ok(None),
            Err(h) => Err(h@),
        } == lowered_if(*e, vals(params@), facts@),
    decreases e, 3int,
{
    match e {
        None => Ok(Some(None)),
        Some(x) => match lower_scalar(x, params, facts) {
            Ok(Some(y)) => Ok(Some(Some(Box::new(y)))),
            Ok(None) => Ok(None),
            Err(h) => Err(h),
        },
    }
}

fn lower_case(e: &SqlExpr, params: &Vec<Value>, facts: &Facts) -> (r: Lowering)
    ensures
        lowering(r) == lowered_case(*e, vals(params@), facts@),
    decreases e, 1int,
{
    broadcast use group_expr_views;

    match &e.node {
        SqlNode::Case { operand, branches, else_result } => {
            let operand = match lower_if(operand, params, facts) {
                Ok(Some(x)) => x,
                Ok(None) => return Ok(None),
                Err(h) => return Err(h),
            };
            let branches = match lower_branches(branches, params, facts) {
                Ok(Some(x)) => x,
                Ok(None) => return Ok(None),
                Err(h) => return Err(h),
            };
            match lower_if(else_result, params, facts) {
                Ok(Some(else_result)) => Ok(
                    Some(ScalarExpr::Case { operand, branches, else_result }),
                ),
                Ok(None) => Ok(None),
                Err(h) => Err(h),
            }
        },
        _ => Ok(None),
    }
}

fn move_by(base: Lowering, offset: Option<Interval>) -> (r: Lowering)
    ensures
        lowering(r) == moved(lowering(base), offset),
{
    match offset {
        Some((months, days, seconds)) => match base {
            Ok(Some(x)) => Ok(
                Some(ScalarExpr::DateOffset { base: Box::new(x), months, days, seconds }),
            ),
            Ok(None) => Ok(None),
            Err(h) => Err(h),
        },
        None => Ok(None),
    }
}

fn lower_binary(e: &SqlExpr, params: &Vec<Value>, facts: &Facts) -> (r: Lowering)
    ensures
        lowering(r) == lowered_binary(*e, vals(params@), facts@),
    decreases e, 1int,
{
    match &e.node {
        SqlNode::Binary { left, op, right } => {
            let adds: bool = match op {
                SqlBinaryOp::Plus => true,
                _ => false,
            };
            let subtracts: bool = match op {
                SqlBinaryOp::Minus => true,
                _ => false,
            };
            if adds || subtracts {
                match (&left.node, &right.node) {
                    (SqlNode::Interval { .. }, SqlNode::Interval { .. }) => {},
                    (_, SqlNode::Interval { value, leading }) => {
                        return move_by(
                            lower_scalar(left, params, facts),
                            read_offset(value, leading, subtracts),
                        );
                    },
                    (SqlNode::Interval { value, leading }, _) => {
                        if adds {
                            return move_by(
                                lower_scalar(right, params, facts),
                                read_offset(value, leading, false),
                            );
                        }
                    },
                    _ => {},
                }
            }
            match pattern_operator(op) {
                Some((kind, case_insensitive, negated)) => {
                    let escape: Option<char> = match kind {
                        PatternKind::Like => Some('\\'),
                        _ => None,
                    };
                    match both(
                        lower_scalar(left, params, facts),
                        lower_scalar(right, params, facts),
                    ) {
                        Ok(Some((x, y))) => Ok(
                            Some(
                                ScalarExpr::PatternMatch {
                                    expr: Box::new(x),
                                    pattern: Box::new(y),
                                    kind,
                                    case_insensitive,
                                    negated,
                                    escape,
                                },
                            ),
                        ),
                        Ok(None) => Ok(None),
                        Err(h) => Err(h),
                    }
                },
                None => match scalar_binary_op(op) {
                    Some(op) => match both(
                        lower_scalar(left, params, facts),
                        lower_scalar(right, params, facts),
                    ) {
                        Ok(Some((x, y))) => Ok(
                            Some(
                                ScalarExpr::Binary { op, left: Box::new(x), right: Box::new(y) },
                            ),
                        ),
                        Ok(None) => Ok(None),
                        Err(h) => Err(h),
                    },
                    None => Ok(None),
                },
            }
        },
        _ => Ok(None),
    }
}

fn lower_call(call: &FunctionCall, params: &Vec<Value>, facts: &Facts) -> (r: Lowering)
    ensures
        lowering(r) == lowered_call(*call, vals(params@), facts@),
    decreases call, 1int,
{
    broadcast use group_expr_views;

    let name = built_in_name(call.name.as_str());
    if same_text(name.as_str(), "ROW") {
        if let Arguments::List { args, .. } = &call.args {
            return match lower_args(args, params, facts) {
                Ok(Some(items)) => Ok(Some(ScalarExpr::Row(items))),
                Ok(None) => Ok(None),
                Err(h) => Err(h),
            };
        }
    }
    if call.over.is_some() || call.filtered || call.within_group {
        return Ok(None);
    }
    if let Some(op) = aggregate_op(name.as_str()) {
        return match &call.args {
            Arguments::List { args, distinct, clauses } => {
                if *clauses || args.len() == 0 {
                    return Ok(None);
                }
                assert(decreases_to!(args@ => args@[0]));
                match &args[0].kind {
                    ArgKind::Wildcard => Ok(
                        Some(build_aggregate(op, "*".to_owned(), None, *distinct)),
                    ),
                    ArgKind::Expr(e) => match extract_col_name(e) {
                        Some(col) => Ok(Some(build_aggregate(op, col, None, *distinct))),
                        None => match lower_scalar(e, params, facts) {
                            Ok(Some(x)) => {
                                let blank = String::new();
                                assert(blank@ =~= Seq::<char>::empty());
                                Ok(Some(build_aggregate(op, blank, Some(Box::new(x)), *distinct)))
                            },
                            Ok(None) => Ok(None),
                            Err(h) => Err(h),
                        },
                    },
                    _ => Ok(None),
                }
            },
            _ => Ok(None),
        };
    }
    match is_provided(&name, facts) {
        Err(h) => Err(h),
        Ok(false) => Ok(None),
        Ok(true) => match &call.args {
            Arguments::Absent => {
                let args: Vec<ScalarExpr> = Vec::new();
                assert(exprs(args@) =~= Seq::<ExprView>::empty());
                Ok(Some(ScalarExpr::Function { name, args }))
            },
            Arguments::List { args, clauses, .. } => {
                if *clauses {
                    return Ok(None);
                }
                match lower_args(args, params, facts) {
                    Ok(Some(args)) => Ok(Some(ScalarExpr::Function { name, args })),
                    Ok(None) => Ok(None),
                    Err(h) => Err(h),
                }
            },
            Arguments::Other => Ok(None),
        },
    }
}

fn function_of(name: &str, before: Vec<ScalarExpr>) -> (r: Lowering)
    ensures
        lowering(r) == Ok::<Option<ExprView>, Stop>(
            Some(ExprView::Function(name@, exprs(before@))),
        ),
{
    broadcast use group_expr_views;

    Ok(Some(ScalarExpr::Function { name: name.to_owned(), args: before }))
}

fn function_with(name: &str, before: Vec<ScalarExpr>, next: Lowering) -> (r: Lowering)
    ensures
        lowering(r) == call_with(name@, exprs(before@), lowering(next)),
{
    broadcast use group_expr_views;

    match next {
        Ok(Some(x)) => {
            let ghost earlier = before@;
            let mut args = before;
            args.push(x);
            assert(exprs(args@) =~= exprs(earlier).push(x@));
            Ok(Some(ScalarExpr::Function { name: name.to_owned(), args }))
        },
        Ok(None) => Ok(None),
        Err(h) => Err(h),
    }
}

fn list_one(x: ScalarExpr) -> (r: Vec<ScalarExpr>)
    ensures
        exprs(r@) == seq![x@],
{
    let mut out: Vec<ScalarExpr> = Vec::new();
    out.push(x);
    assert(exprs(out@) =~= seq![x@]);
    out
}

fn list_two(x: ScalarExpr, y: ScalarExpr) -> (r: Vec<ScalarExpr>)
    ensures
        exprs(r@) == seq![x@, y@],
{
    let mut out: Vec<ScalarExpr> = Vec::new();
    out.push(x);
    out.push(y);
    assert(exprs(out@) =~= seq![x@, y@]);
    out
}

fn list_three(x: ScalarExpr, y: ScalarExpr, z: ScalarExpr) -> (r: Vec<ScalarExpr>)
    ensures
        exprs(r@) == seq![x@, y@, z@],
{
    let mut out: Vec<ScalarExpr> = Vec::new();
    out.push(x);
    out.push(y);
    out.push(z);
    assert(exprs(out@) =~= seq![x@, y@, z@]);
    out
}

#[verifier::rlimit(50)]
fn lower_text(e: &SqlExpr, params: &Vec<Value>, facts: &Facts) -> (r: Lowering)
    ensures
        lowering(r) == lowered_text(*e, vals(params@), facts@),
    decreases e, 1int,
{
    match &e.node {
        SqlNode::Substring { expr, from, length, .. } => {
            let x = match lower_scalar(expr, params, facts) {
                Ok(Some(x)) => x,
                Ok(None) => return Ok(None),
                Err(h) => return Err(h),
            };
            match (from, length) {
                (Some(from), Some(length)) => match both(
                    lower_scalar(from, params, facts),
                    lower_scalar(length, params, facts),
                ) {
                    Ok(Some((a, b))) => function_of("SUBSTR", list_three(x, a, b)),
                    Ok(None) => Ok(None),
                    Err(h) => Err(h),
                },
                (Some(from), None) => function_with(
                    "SUBSTR",
                    list_one(x),
                    lower_scalar(from, params, facts),
                ),
                (None, Some(length)) => function_with(
                    "SUBSTR",
                    list_two(x, ScalarExpr::Literal(Value::Int(1))),
                    lower_scalar(length, params, facts),
                ),
                (None, None) => function_of("SUBSTR", list_one(x)),
            }
        },
        SqlNode::Trim { expr, side, what, characters } => {
            let name = match side {
                TrimSide::Leading => "LTRIM",
                TrimSide::Trailing => "RTRIM",
                TrimSide::Both => "BTRIM",
            };
            let x = match lower_scalar(expr, params, facts) {
                Ok(Some(x)) => x,
                Ok(None) => return Ok(None),
                Err(h) => return Err(h),
            };
            match (what, characters) {
                (Some(what), _) => function_with(
                    name,
                    list_one(x),
                    lower_scalar(what, params, facts),
                ),
                (None, Some(characters)) => {
                    if characters.len() == 1 {
                        assert(decreases_to!(characters@ => characters@[0]));
                        function_with(
                            name,
                            list_one(x),
                            lower_scalar(&characters[0], params, facts),
                        )
                    } else {
                        Ok(None)
                    }
                },
                (None, None) => function_of(name, list_one(x)),
            }
        },
        SqlNode::Position { expr, within } => match both(
            lower_scalar(within, params, facts),
            lower_scalar(expr, params, facts),
        ) {
            Ok(Some((x, y))) => function_of("STRPOS", list_two(x, y)),
            Ok(None) => Ok(None),
            Err(h) => Err(h),
        },
        SqlNode::Overlay { expr, what, from, length } => {
            let x = match lower_scalar(expr, params, facts) {
                Ok(Some(x)) => x,
                Ok(None) => return Ok(None),
                Err(h) => return Err(h),
            };
            let y = match lower_scalar(what, params, facts) {
                Ok(Some(x)) => x,
                Ok(None) => return Ok(None),
                Err(h) => return Err(h),
            };
            let z = match lower_scalar(from, params, facts) {
                Ok(Some(x)) => x,
                Ok(None) => return Ok(None),
                Err(h) => return Err(h),
            };
            match length {
                Some(length) => function_with(
                    "OVERLAY",
                    list_three(x, y, z),
                    lower_scalar(length, params, facts),
                ),
                None => function_of("OVERLAY", list_three(x, y, z)),
            }
        },
        _ => Ok(None),
    }
}

fn build_between(x: ScalarExpr, lo: ScalarExpr, hi: ScalarExpr, negated: bool) -> (r: ScalarExpr)
    ensures
        r@ == between(x@, lo@, hi@, negated),
{
    let (lo_op, hi_op, joined) = if negated {
        (ScalarBinaryOp::Lt, ScalarBinaryOp::Gt, ScalarBinaryOp::Or)
    } else {
        (ScalarBinaryOp::GtEq, ScalarBinaryOp::LtEq, ScalarBinaryOp::And)
    };
    let again = x.duplicate();
    let low = ScalarExpr::Binary { op: lo_op, left: Box::new(x), right: Box::new(lo) };
    let high = ScalarExpr::Binary { op: hi_op, left: Box::new(again), right: Box::new(hi) };
    assert(low@ == ExprView::Binary(lo_op, Box::new(x@), Box::new(lo@)));
    assert(high@ == ExprView::Binary(hi_op, Box::new(x@), Box::new(hi@)));
    ScalarExpr::Binary { op: joined, left: Box::new(low), right: Box::new(high) }
}

fn lower_leaf(expr: &SqlExpr, params: &Vec<Value>, facts: &Facts) -> (r: Lowering)
    ensures
        lowering(r) == lowered_leaf(*expr, vals(params@), facts@),
{
    broadcast use group_expr_views;

    match &expr.node {
        SqlNode::Value(_) | SqlNode::Interval { .. } => match expr_to_value(expr, params, facts) {
            Ok(Some(v)) => Ok(Some(ScalarExpr::Literal(v))),
            Ok(None) => match &expr.node {
                // A placeholder is unbound while a statement is only described.
                SqlNode::Value(SqlValue::Placeholder(_)) => Ok(
                    Some(ScalarExpr::Literal(Value::Null)),
                ),
                _ => Ok(None),
            },
            Err(h) => Err(h),
        },
        SqlNode::TypedString { value, data_type } => match expr_to_value(expr, params, facts) {
            Ok(Some(v)) => Ok(Some(ScalarExpr::Literal(v))),
            Ok(None) => match value {
                SqlValue::Quoted(s) => {
                    let text = ScalarExpr::Literal(Value::Text(s.clone()));
                    assert(text@ == ExprView::Literal(Val::Text(s@)));
                    Ok(Some(ScalarExpr::Cast { expr: Box::new(text), target: data_type.clone() }))
                },
                _ => Ok(None),
            },
            Err(h) => Err(h),
        },
        SqlNode::Identifier(id) => {
            let name = upper_text(id.value.as_str());
            if !id.quoted && is_keyword_function(name.as_str()) {
                let args: Vec<ScalarExpr> = Vec::new();
                assert(exprs(args@) =~= Seq::<ExprView>::empty());
                Ok(Some(ScalarExpr::Function { name, args }))
            } else {
                Ok(Some(ScalarExpr::Column(id.value.clone())))
            }
        },
        SqlNode::Compound(ids) => Ok(Some(ScalarExpr::Column(dotted(ids)))),
        _ => Ok(None),
    }
}

fn lower_test(expr: &SqlExpr, params: &Vec<Value>, facts: &Facts) -> (r: Lowering)
    ensures
        lowering(r) == lowered_test(*expr, vals(params@), facts@),
    decreases expr, 1int,
{
    broadcast use group_expr_views;

    match &expr.node {
        SqlNode::IsNull(inner) => match lower_scalar(inner, params, facts) {
            Ok(Some(x)) => Ok(Some(ScalarExpr::IsNull { expr: Box::new(x), negated: false })),
            Ok(None) => Ok(None),
            Err(h) => Err(h),
        },
        SqlNode::IsNotNull(inner) => match lower_scalar(inner, params, facts) {
            Ok(Some(x)) => Ok(Some(ScalarExpr::IsNull { expr: Box::new(x), negated: true })),
            Ok(None) => Ok(None),
            Err(h) => Err(h),
        },
        SqlNode::Like { kind, negated, any, expr: inner, pattern, escape } => {
            if *any || *kind == LikeKind::RLike {
                return Ok(None);
            }
            let escape = match read_escape(escape, params, facts) {
                Ok(Some(escape)) => escape,
                Ok(None) => return Ok(None),
                Err(h) => return Err(h),
            };
            match both(lower_scalar(inner, params, facts), lower_scalar(pattern, params, facts)) {
                Ok(Some((x, y))) => Ok(
                    Some(
                        ScalarExpr::PatternMatch {
                            expr: Box::new(x),
                            pattern: Box::new(y),
                            kind: if *kind == LikeKind::SimilarTo {
                                PatternKind::SimilarTo
                            } else {
                                PatternKind::Like
                            },
                            case_insensitive: *kind == LikeKind::ILike,
                            negated: *negated,
                            escape,
                        },
                    ),
                ),
                Ok(None) => Ok(None),
                Err(h) => Err(h),
            }
        },
        SqlNode::DistinctFrom { left, right, negated } => match both(
            lower_scalar(left, params, facts),
            lower_scalar(right, params, facts),
        ) {
            Ok(Some((x, y))) => Ok(
                Some(
                    ScalarExpr::IsDistinctFrom {
                        left: Box::new(x),
                        right: Box::new(y),
                        negated: *negated,
                    },
                ),
            ),
            Ok(None) => Ok(None),
            Err(h) => Err(h),
        },
        SqlNode::IsBool { expr: inner, value, negated } => match lower_scalar(
            inner,
            params,
            facts,
        ) {
            Ok(Some(x)) => Ok(
                Some(
                    ScalarExpr::IsBool { expr: Box::new(x), value: *value, negated: *negated },
                ),
            ),
            Ok(None) => Ok(None),
            Err(h) => Err(h),
        },
        SqlNode::InList { expr: inner, list, negated } => match lower_scalar(
            inner,
            params,
            facts,
        ) {
            Ok(Some(x)) => match lower_all(list, params, facts) {
                Ok(Some(list)) => Ok(
                    Some(ScalarExpr::InList { expr: Box::new(x), list, negated: *negated }),
                ),
                Ok(None) => Ok(None),
                Err(h) => Err(h),
            },
            Ok(None) => Ok(None),
            Err(h) => Err(h),
        },
        SqlNode::Between { expr: inner, negated, low, high } => match lower_scalar(
            inner,
            params,
            facts,
        ) {
            Ok(Some(x)) => match both(
                lower_scalar(low, params, facts),
                lower_scalar(high, params, facts),
            ) {
                Ok(Some((lo, hi))) => Ok(Some(build_between(x, lo, hi, *negated))),
                Ok(None) => Ok(None),
                Err(h) => Err(h),
            },
            Ok(None) => Ok(None),
            Err(h) => Err(h),
        },
        SqlNode::Quantified { left, op, right, all, .. } => {
            if let SqlNode::Subquery(_) = &right.node {
                return Ok(None);
            }
            let op = match scalar_binary_op(op) {
                Some(op) => op,
                None => return Ok(None),
            };
            if !is_comparison(op) {
                return Ok(None);
            }
            match both(lower_scalar(left, params, facts), lower_scalar(right, params, facts)) {
                Ok(Some((x, y))) => Ok(
                    Some(
                        ScalarExpr::Quantified {
                            left: Box::new(x),
                            op,
                            right: Box::new(y),
                            all: *all,
                        },
                    ),
                ),
                Ok(None) => Ok(None),
                Err(h) => Err(h),
            }
        },
        _ => Ok(None),
    }
}

/// Lowers a SQL expression into a scalar expression for per-row evaluation.
/// Returns `None` for forms that are not supported, so that the planner can
/// fall back to other handling.
pub fn lower_scalar(expr: &SqlExpr, params: &Vec<Value>, facts: &Facts) -> (r: Lowering)
    ensures
        lowering(r) == lowered(*expr, vals(params@), facts@),
    decreases expr, 2int,
{
    broadcast use group_expr_views;

    match &expr.node {
        SqlNode::Value(_)
        | SqlNode::Interval { .. }
        | SqlNode::TypedString { .. }
        | SqlNode::Identifier(_)
        | SqlNode::Compound(_) => lower_leaf(expr, params, facts),
        SqlNode::Array(items) => match lower_all(items, params, facts) {
            Ok(Some(items)) => Ok(Some(build_array(items))),
            Ok(None) => Ok(None),
            Err(h) => Err(h),
        },
        SqlNode::Nested(x) | SqlNode::Collate(x) => lower_scalar(x, params, facts),
        SqlNode::Unary { op, expr: inner } => match lower_scalar(inner, params, facts) {
            Ok(Some(x)) => match op {
                SqlUnaryOp::Minus => Ok(
                    Some(ScalarExpr::Unary { op: ScalarUnaryOp::Neg, expr: Box::new(x) }),
                ),
                SqlUnaryOp::Not => Ok(
                    Some(ScalarExpr::Unary { op: ScalarUnaryOp::Not, expr: Box::new(x) }),
                ),
                SqlUnaryOp::Plus => Ok(Some(x)),
                SqlUnaryOp::Other => Ok(None),
            },
            Ok(None) => Ok(None),
            Err(h) => Err(h),
        },
        SqlNode::Binary { .. } => lower_binary(expr, params, facts),
        SqlNode::Cast { expr: inner, data_type } => match lower_scalar(inner, params, facts) {
            Ok(Some(x)) => Ok(
                Some(ScalarExpr::Cast { expr: Box::new(x), target: data_type.clone() }),
            ),
            Ok(None) => Ok(None),
            Err(h) => Err(h),
        },
        SqlNode::Case { .. } => lower_case(expr, params, facts),
        SqlNode::IsNull(_)
        | SqlNode::IsNotNull(_)
        | SqlNode::Like { .. }
        | SqlNode::DistinctFrom { .. }
        | SqlNode::IsBool { .. }
        | SqlNode::InList { .. }
        | SqlNode::Between { .. }
        | SqlNode::Quantified { .. } => lower_test(expr, params, facts),
        SqlNode::Tuple(items) => match lower_all(items, params, facts) {
            Ok(Some(items)) => Ok(Some(ScalarExpr::Row(items))),
            Ok(None) => Ok(None),
            Err(h) => Err(h),
        },
        SqlNode::Function(call) => lower_call(call, params, facts),
        SqlNode::Substring { .. }
        | SqlNode::Trim { .. }
        | SqlNode::Position { .. }
        | SqlNode::Overlay { .. } => lower_text(expr, params, facts),
        SqlNode::Rounded { expr: inner, up, plain } => {
            if !*plain {
                return Ok(None);
            }
            match lower_scalar(inner, params, facts) {
                Ok(Some(x)) => {
                    let name = if *up {
                        "CEIL"
                    } else {
                        "FLOOR"
                    };
                    function_of(name, list_one(x))
                },
                Ok(None) => Ok(None),
                Err(h) => Err(h),
            }
        },
        SqlNode::Extract { field, expr: inner } => match lower_scalar(inner, params, facts) {
            Ok(Some(x)) => Ok(
                Some(ScalarExpr::Extract { field: field.clone(), expr: Box::new(x) }),
            ),
            Ok(None) => Ok(None),
            Err(h) => Err(h),
        },
        _ => Ok(None),
    }
}

} // verus!
