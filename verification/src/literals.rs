//! Constants and names in parsed SQL: which expressions are constants, and
//! which name a column.
use vstd::prelude::*;
use crate::cast::{cast, try_cast};
use crate::facts::{asked, on_one, Facts, Halt, Known, Stop, Task, TaskView};
use crate::interval::{format_interval, interval_literal, interval_text, parse_interval, Interval};
use crate::plan_types::{Operand, OperandView, ProjectionItem};
use crate::plan_views::{item_view, ItemView};
use crate::scalar_ops::opt_outcome;
use crate::syntax::{
    ArgKind, Arguments, Ident, SqlBinaryOp, SqlExpr, SqlNode, SqlUnaryOp, SqlValue,
};
use crate::text::{
    concat3, join, join_texts, opt_text, parse_int, parse_size, parsed_int, parsed_size, push_text,
    same_text, texts, uppercase, uppercased,
};
use crate::value::{group_value_views, opt_val, vals, Val, Value};

verus! {

// ---------------------------------------------------------------------------
// Constants
// ---------------------------------------------------------------------------

/// The number a numeric constant writes; the text itself if it writes none.
pub open spec fn number_literal(n: Seq<char>, k: Known) -> Result<Val, Stop> {
    match parsed_int(n) {
        Some(i) => Ok(Val::Int(i)),
        None => match asked(k, on_one(TaskView::ToFloat, Val::Text(n))) {
            Ok(Val::Float(b)) => Ok(Val::Float(b)),
            Ok(_) => Ok(Val::Text(n)),
            Err(s) => Err(s),
        },
    }
}

fn read_number(n: &String, facts: &Facts) -> (r: Result<Value, Halt>)
    ensures
        crate::facts::outcome(r) == number_literal(n@, facts@),
{
    match parse_int(n.as_str()) {
        Some(i) => Ok(Value::Int(i)),
        None => {
            let whole = Value::Text(n.clone());
            match facts.ask_one(Task::ToFloat, &whole) {
                Ok(Value::Float(b)) => Ok(Value::Float(b)),
                Ok(_) => Ok(whole),
                Err(h) => Err(h),
            }
        },
    }
}

/// The parameter that `$n` names, counting from one.
pub open spec fn parameter(s: Seq<char>, params: Seq<Val>) -> Option<Val> {
    if s.len() > 0 && s[0] == '$' {
        match parsed_size(s.skip(1)) {
            Some(n) => if 0 < n <= params.len() {
                Some(params[n - 1])
            } else {
                None
            },
            None => None,
        }
    } else {
        None
    }
}

fn find_parameter(s: &String, params: &Vec<Value>) -> (r: Option<Value>)
    ensures
        opt_val(r) == parameter(s@, vals(params@)),
{
    let chars = crate::text::chars_of(s.as_str());
    if chars.len() == 0 || chars[0] != '$' {
        return None;
    }
    let number = crate::text::text_between(&chars, 1, chars.len());
    assert(number@ =~= s@.skip(1));
    match parse_size(number.as_str()) {
        Some(n) => {
            if n > 0 && n <= params.len() {
                Some(params[n - 1].duplicate())
            } else {
                None
            }
        },
        None => None,
    }
}

/// The value of a constant, if it has one.
pub open spec fn constant(v: SqlValue, params: Seq<Val>, k: Known) -> Result<Option<Val>, Stop> {
    match v {
        SqlValue::Quoted(s) | SqlValue::Spelled(s) => Ok(Some(Val::Text(s@))),
        SqlValue::Number(n) => match number_literal(n@, k) {
            Ok(x) => Ok(Some(x)),
            Err(s) => Err(s),
        },
        SqlValue::Boolean(b) => Ok(Some(Val::Bool(b))),
        SqlValue::Null => Ok(Some(Val::Null)),
        SqlValue::Placeholder(s) => Ok(parameter(s@, params)),
        SqlValue::Other => Ok(None),
    }
}

fn read_constant(v: &SqlValue, params: &Vec<Value>, facts: &Facts) -> (r: Result<
    Option<Value>,
    Halt,
>)
    ensures
        opt_outcome(r) == constant(*v, vals(params@), facts@),
{
    match v {
        SqlValue::Quoted(s) | SqlValue::Spelled(s) => Ok(Some(Value::Text(s.clone()))),
        SqlValue::Number(n) => match read_number(n, facts) {
            Ok(x) => Ok(Some(x)),
            Err(h) => Err(h),
        },
        SqlValue::Boolean(b) => Ok(Some(Value::Bool(*b))),
        SqlValue::Null => Ok(Some(Value::Null)),
        SqlValue::Placeholder(s) => Ok(find_parameter(s, params)),
        SqlValue::Other => Ok(None),
    }
}

/// The offset that an `INTERVAL` expression writes.
pub open spec fn interval_node(value: SqlExpr, leading: Option<String>) -> Option<Interval> {
    match value.node {
        SqlNode::Value(SqlValue::Quoted(s)) => interval_literal(s@, opt_text(leading)),
        SqlNode::Value(SqlValue::Number(s)) => interval_literal(s@, opt_text(leading)),
        _ => None,
    }
}

/// The offset that an `INTERVAL` expression writes.
pub fn read_interval(value: &SqlExpr, leading: &Option<String>) -> (r: Option<Interval>)
    ensures
        r == interval_node(*value, *leading),
{
    match &value.node {
        SqlNode::Value(SqlValue::Quoted(s)) => parse_interval(s.as_str(), leading),
        SqlNode::Value(SqlValue::Number(s)) => parse_interval(s.as_str(), leading),
        _ => None,
    }
}

/// The negative of a number; other values, and the least integer, have none.
pub open spec fn negative(v: Val) -> Option<Val> {
    match v {
        Val::Int(i) => if i == i64::MIN {
            None
        } else {
            Some(Val::Int((-i) as i64))
        },
        Val::Float(b) => Some(Val::Float(b ^ 0x8000_0000_0000_0000)),
        _ => None,
    }
}

/// The value that an expression writes out: a constant, a signed number, a
/// typed text, an interval, or an array of such. A bare name stands for its
/// own text.
pub open spec fn literal(e: SqlExpr, params: Seq<Val>, k: Known) -> Result<Option<Val>, Stop>
    decreases e, 0int,
{
    match e.node {
        SqlNode::Value(v) => constant(v, params, k),
        SqlNode::Identifier(id) => Ok(Some(Val::Text(id.value@))),
        SqlNode::TypedString { value: SqlValue::Quoted(s), data_type } => match cast(
            Val::Text(s@),
            data_type@,
            k,
        ) {
            Ok(v) => Ok(Some(v)),
            Err(Stop::Raised(_)) => Ok(None),
            Err(s) => Err(s),
        },
        SqlNode::Interval { value, leading } => Ok(
            match interval_node(*value, leading) {
                Some((m, d, s)) => if s == i64::MIN {
                    None
                } else {
                    Some(Val::Text(interval_text(m as int, d as int, s as int)))
                },
                None => None,
            },
        ),
        SqlNode::Array(items) => match literals(items, 0, Seq::empty(), params, k) {
            Ok(Some(vs)) => Ok(Some(Val::Array(vs))),
            Ok(None) => Ok(None),
            Err(s) => Err(s),
        },
        SqlNode::Unary { op, expr } => match literal(*expr, params, k) {
            Ok(Some(v)) => match op {
                SqlUnaryOp::Minus => Ok(negative(v)),
                SqlUnaryOp::Plus => Ok(Some(v)),
                _ => Ok(None),
            },
            Ok(None) => Ok(None),
            Err(s) => Err(s),
        },
        SqlNode::Nested(inner) => literal(*inner, params, k),
        _ => Ok(None),
    }
}

/// The values that the expressions from position `i` on write out, after those
/// of `before`; none at the first that writes out none.
pub open spec fn literals(
    items: Vec<SqlExpr>,
    i: nat,
    before: Seq<Val>,
    params: Seq<Val>,
    k: Known,
) -> Result<Option<Seq<Val>>, Stop>
    decreases items, items@.len() - i,
{
    if i >= items@.len() {
        Ok(Some(before))
    } else {
        match literal(items@[i as int], params, k) {
            Ok(Some(v)) => literals(items, i + 1, before.push(v), params, k),
            Ok(None) => Ok(None),
            Err(s) => Err(s),
        }
    }
}

/// The value that an expression writes out, if it does. Text that its type
/// rejects writes out none.
pub fn expr_to_value(expr: &SqlExpr, params: &Vec<Value>, facts: &Facts) -> (r: Result<
    Option<Value>,
    Halt,
>)
    ensures
        opt_outcome(r) == literal(*expr, vals(params@), facts@),
    decreases expr, 0int,
{
    broadcast use group_value_views;

    match &expr.node {
        SqlNode::Value(v) => read_constant(v, params, facts),
        SqlNode::Identifier(id) => Ok(Some(Value::Text(id.value.clone()))),
        SqlNode::TypedString { value: SqlValue::Quoted(s), data_type } => {
            let text = Value::Text(s.clone());
            match try_cast(&text, data_type.as_str(), facts) {
                Ok(v) => Ok(Some(v)),
                Err(Halt::Raised(_)) => Ok(None),
                Err(h) => Err(h),
            }
        },
        SqlNode::Interval { value, leading } => match read_interval(value, leading) {
            Some((m, d, s)) => {
                if s == i64::MIN {
                    Ok(None)
                } else {
                    Ok(Some(Value::Text(format_interval(m, d, s))))
                }
            },
            None => Ok(None),
        },
        SqlNode::Array(items) => match values_of(items, params, facts) {
            Ok(Some(vs)) => Ok(Some(Value::Array(vs))),
            Ok(None) => Ok(None),
            Err(h) => Err(h),
        },
        SqlNode::Unary { op, expr: inner } => match expr_to_value(inner, params, facts) {
            Ok(Some(v)) => match op {
                SqlUnaryOp::Minus => match v {
                    Value::Int(i) => {
                        if i == i64::MIN {
                            Ok(None)
                        } else {
                            Ok(Some(Value::Int(-i)))
                        }
                    },
                    Value::Float(b) => Ok(Some(Value::Float(b ^ 0x8000_0000_0000_0000))),
                    _ => Ok(None),
                },
                SqlUnaryOp::Plus => Ok(Some(v)),
                _ => Ok(None),
            },
            Ok(None) => Ok(None),
            Err(h) => Err(h),
        },
        SqlNode::Nested(inner) => expr_to_value(inner, params, facts),
        _ => Ok(None),
    }
}

/// What a result of several values stands for.
pub open spec fn opt_list_outcome(r: Result<Option<Vec<Value>>, Halt>) -> Result<
    Option<Seq<Val>>,
    Stop,
> {
    match r {
        Ok(Some(v)) => Ok(Some(vals(v@))),
        Ok(None) => Ok(None),
        Err(h) => Err(h@),
    }
}

fn values_of(items: &Vec<SqlExpr>, params: &Vec<Value>, facts: &Facts) -> (r: Result<
    Option<Vec<Value>>,
    Halt,
>)
    ensures
        opt_list_outcome(r) == literals(*items, 0, Seq::empty(), vals(params@), facts@),
    decreases items, items@.len(),
{
    let mut out: Vec<Value> = Vec::new();
    let mut i: usize = 0;
    assert(vals(out@) =~= Seq::<Val>::empty());
    while i < items.len()
        invariant
            i <= items@.len(),
            literals(*items, 0, Seq::empty(), vals(params@), facts@) == literals(
                *items,
                i as nat,
                vals(out@),
                vals(params@),
                facts@,
            ),
        decreases items@.len() - i,
    {
        assert(decreases_to!(items@ => items@[i as int]));
        match expr_to_value(&items[i], params, facts) {
            Ok(Some(v)) => {
                let ghost before = out@;
                out.push(v);
                assert(vals(out@) =~= vals(before).push(v@));
            },
            Ok(None) => {
                return Ok(None);
            },
            Err(h) => {
                return Err(h);
            },
        }
        i = i + 1;
    }
    Ok(Some(out))
}

// ---------------------------------------------------------------------------
// Column names
// ---------------------------------------------------------------------------

/// The parts of a qualified name.
pub open spec fn part_texts(ids: Seq<Ident>) -> Seq<Seq<char>> {
    Seq::new(ids.len(), |i: int| ids[i].value@)
}

/// The parts of a name, joined by dots.
pub fn dotted(ids: &Vec<Ident>) -> (r: String)
    ensures
        r@ == join(part_texts(ids@), "."@),
{
    let mut parts: Vec<String> = Vec::new();
    let mut i: usize = 0;
    while i < ids.len()
        invariant
            i <= ids@.len(),
            parts@.len() == i,
            forall|j: int| 0 <= j < i ==> parts@[j]@ == ids@[j].value@,
        decreases ids@.len() - i,
    {
        parts.push(ids[i].value.clone());
        i = i + 1;
    }
    assert(texts(parts@) =~= part_texts(ids@));
    join_texts(&parts, ".")
}

/// The spelling of an operator that reads inside JSON.
pub open spec fn json_access(op: SqlBinaryOp) -> Option<Seq<char>> {
    match op {
        SqlBinaryOp::LongArrow => Some("->>"@),
        SqlBinaryOp::Arrow => Some("->"@),
        SqlBinaryOp::HashArrow => Some("#>"@),
        SqlBinaryOp::HashLongArrow => Some("#>>"@),
        _ => None,
    }
}

/// Whether an upper-cased name is that of an aggregate which a `HAVING`
/// predicate can name.
pub open spec fn plain_aggregate(name: Seq<char>) -> bool {
    name == "COUNT"@ || name == "SUM"@ || name == "MIN"@ || name == "MAX"@ || name == "AVG"@
}

/// The name under which an expression's value is looked up as a column: a
/// plain or qualified name, a JSON access on one (`col->>'key'`), the same
/// under a cast, or an aggregate call (`COUNT(*)`).
pub open spec fn col_name(e: SqlExpr) -> Option<Seq<char>>
    decreases e,
{
    match e.node {
        SqlNode::Identifier(id) => Some(id.value@),
        SqlNode::Compound(ids) => Some(join(part_texts(ids@), "."@)),
        SqlNode::Binary { left, op, right } => {
            let base = match left.node {
                SqlNode::Identifier(id) => Some(id.value@),
                SqlNode::Compound(ids) => Some(join(part_texts(ids@), "."@)),
                _ => None,
            };
            let key = match right.node {
                SqlNode::Value(SqlValue::Quoted(s)) => Some(s@),
                SqlNode::Value(SqlValue::Number(n)) => Some(n@),
                _ => None,
            };
            match (json_access(op), base, key) {
                (Some(symbol), Some(base), Some(key)) => Some(base + symbol + "'"@ + key + "'"@),
                _ => None,
            }
        },
        SqlNode::Cast { expr, data_type } => col_name(*expr),
        SqlNode::Function(call) => match call.args {
            Arguments::List { args, distinct, clauses } => if plain_aggregate(uppercased(call.name@))
                && args@.len() > 0 {
                match args@[0].kind {
                    ArgKind::Wildcard => Some(uppercased(call.name@) + "("@ + "*"@ + ")"@),
                    ArgKind::Expr(x) => match col_name(x) {
                        Some(arg) => Some(uppercased(call.name@) + "("@ + arg + ")"@),
                        None => None,
                    },
                    _ => None,
                }
            } else {
                None
            },
            _ => None,
        },
        _ => None,
    }
}

fn access_symbol(op: &SqlBinaryOp) -> (r: Option<&'static str>)
    ensures
        match (r, json_access(*op)) {
            (Some(a), Some(b)) => a@ == b,
            (None, None) => true,
            _ => false,
        },
{
    match op {
        SqlBinaryOp::LongArrow => Some("->>"),
        SqlBinaryOp::Arrow => Some("->"),
        SqlBinaryOp::HashArrow => Some("#>"),
        SqlBinaryOp::HashLongArrow => Some("#>>"),
        _ => None,
    }
}

/// The name under which an expression's value is looked up as a column.
pub fn extract_col_name(expr: &SqlExpr) -> (r: Option<String>)
    ensures
        opt_text(r) == col_name(*expr),
    decreases expr,
{
    match &expr.node {
        SqlNode::Identifier(id) => Some(id.value.clone()),
        SqlNode::Compound(ids) => Some(dotted(ids)),
        SqlNode::Binary { left, op, right } => {
            let base = match &left.node {
                SqlNode::Identifier(id) => id.value.clone(),
                SqlNode::Compound(ids) => dotted(ids),
                _ => {
                    return None;
                },
            };
            let key: &String = match &right.node {
                SqlNode::Value(SqlValue::Quoted(s)) => s,
                SqlNode::Value(SqlValue::Number(n)) => n,
                _ => {
                    return None;
                },
            };
            match access_symbol(op) {
                Some(symbol) => {
                    let mut out = concat3(base.as_str(), symbol, "'");
                    push_text(&mut out, key.as_str());
                    push_text(&mut out, "'");
                    Some(out)
                },
                None => None,
            }
        },
        SqlNode::Cast { expr: inner, .. } => extract_col_name(inner),
        SqlNode::Function(call) => {
            let name = uppercase(call.name.as_str());
            if !(same_text(name.as_str(), "COUNT") || same_text(name.as_str(), "SUM") || same_text(
                name.as_str(),
                "MIN",
            ) || same_text(name.as_str(), "MAX") || same_text(name.as_str(), "AVG")) {
                return None;
            }
            match &call.args {
                Arguments::List { args, .. } => {
                    if args.len() == 0 {
                        return None;
                    }
                    assert(decreases_to!(args@ => args@[0]));
                    match &args[0].kind {
                        ArgKind::Wildcard => {
                            let mut out = concat3(name.as_str(), "(", "*");
                            push_text(&mut out, ")");
                            Some(out)
                        },
                        ArgKind::Expr(x) => match extract_col_name(x) {
                            Some(arg) => {
                                let mut out = concat3(name.as_str(), "(", arg.as_str());
                                push_text(&mut out, ")");
                                Some(out)
                            },
                            None => None,
                        },
                        _ => None,
                    }
                },
                _ => None,
            }
        },
        _ => None,
    }
}

/// A bare or qualified column reference (not a JSON access or cast).
pub open spec fn plain_name(e: SqlExpr) -> Option<Seq<char>> {
    match e.node {
        SqlNode::Identifier(id) => Some(id.value@),
        SqlNode::Compound(ids) => Some(join(part_texts(ids@), "."@)),
        _ => None,
    }
}

/// The column that a bare or qualified reference names.
pub fn plain_column(expr: &SqlExpr) -> (r: Option<String>)
    ensures
        opt_text(r) == plain_name(*expr),
{
    match &expr.node {
        SqlNode::Identifier(id) => Some(id.value.clone()),
        SqlNode::Compound(ids) => Some(dotted(ids)),
        _ => None,
    }
}

// ---------------------------------------------------------------------------
// Operands
// ---------------------------------------------------------------------------

/// The operand that an expression is: a column, or a value written out.
pub open spec fn operand(e: SqlExpr, params: Seq<Val>, k: Known) -> Result<
    Option<OperandView>,
    Stop,
> {
    match plain_name(e) {
        Some(name) => Ok(Some(OperandView::Ident(name))),
        None => match literal(e, params, k) {
            Ok(Some(v)) => Ok(Some(OperandView::Literal(v))),
            Ok(None) => Ok(None),
            Err(s) => Err(s),
        },
    }
}

/// What an operand result stands for.
pub open spec fn operand_outcome(r: Result<Option<Operand>, Halt>) -> Result<
    Option<OperandView>,
    Stop,
> {
    match r {
        Ok(Some(o)) => Ok(Some(o@)),
        Ok(None) => Ok(None),
        Err(h) => Err(h@),
    }
}

/// The operand that an expression is.
pub fn extract_operand(expr: &SqlExpr, params: &Vec<Value>, facts: &Facts) -> (r: Result<
    Option<Operand>,
    Halt,
>)
    ensures
        operand_outcome(r) == operand(*expr, vals(params@), facts@),
{
    match plain_column(expr) {
        Some(name) => Ok(Some(Operand::Ident(name))),
        None => match expr_to_value(expr, params, facts) {
            Ok(Some(v)) => Ok(Some(Operand::Literal(v))),
            Ok(None) => Ok(None),
            Err(h) => Err(h),
        },
    }
}

/// The argument of a function in `FROM`: a column, which makes the call depend
/// on the row, or a value written out.
pub open spec fn lateral_operand(e: SqlExpr, params: Seq<Val>, k: Known) -> Result<
    Option<OperandView>,
    Stop,
> {
    match col_name(e) {
        Some(name) => Ok(Some(OperandView::Ident(name))),
        None => match literal(e, params, k) {
            Ok(Some(v)) => Ok(Some(OperandView::Literal(v))),
            Ok(None) => Ok(None),
            Err(s) => Err(s),
        },
    }
}

/// The argument of a function in `FROM`.
pub fn expr_to_operand(expr: &SqlExpr, params: &Vec<Value>, facts: &Facts) -> (r: Result<
    Option<Operand>,
    Halt,
>)
    ensures
        operand_outcome(r) == lateral_operand(*expr, vals(params@), facts@),
{
    match extract_col_name(expr) {
        Some(name) => Ok(Some(Operand::Ident(name))),
        None => match expr_to_value(expr, params, facts) {
            Ok(Some(v)) => Ok(Some(Operand::Literal(v))),
            Ok(None) => Ok(None),
            Err(h) => Err(h),
        },
    }
}

// ---------------------------------------------------------------------------
// CASE on one comparison
// ---------------------------------------------------------------------------

/// Plans `CASE WHEN column = constant THEN ... ELSE column END`; `None` for
/// any other expression.
pub fn parse_simple_case_when_eq(
    expr: &SqlExpr,
    alias: Option<String>,
    params: &Vec<Value>,
    facts: &Facts,
) -> (r: Result<Option<ProjectionItem>, Halt>)
    ensures
        case_outcome(r) == simple_case(*expr, opt_text(alias), vals(params@), facts@),
{
    match &expr.node {
        SqlNode::Case { operand: None, branches, else_result: Some(otherwise) } => {
            if branches.len() == 0 {
                return Ok(None);
            }
            let (condition, result) = (&branches[0].0, &branches[0].1);
            match &condition.node {
                SqlNode::Binary { left, op: SqlBinaryOp::Eq, right } => {
                    let left = match extract_col_name(left) {
                        Some(c) => c,
                        None => return Ok(None),
                    };
                    let equals = match expr_to_value(right, params, facts) {
                        Ok(Some(v)) => v,
                        Ok(None) => return Ok(None),
                        Err(h) => return Err(h),
                    };
                    let (then_value, then_column) = match expr_to_value(result, params, facts) {
                        Ok(Some(v)) => (v, None),
                        Ok(None) => match extract_col_name(result) {
                            Some(c) => (Value::Null, Some(c)),
                            None => return Ok(None),
                        },
                        Err(h) => return Err(h),
                    };
                    match extract_col_name(otherwise) {
                        Some(else_column) => Ok(
                            Some(
                                ProjectionItem::CaseWhenEq {
                                    left,
                                    equals,
                                    then_value,
                                    then_column,
                                    else_column,
                                    alias,
                                },
                            ),
                        ),
                        None => Ok(None),
                    }
                },
                _ => Ok(None),
            }
        },
        _ => Ok(None),
    }
}

/// What a `CASE` on one comparison is planned to.
pub open spec fn simple_case(
    e: SqlExpr,
    alias: Option<Seq<char>>,
    params: Seq<Val>,
    k: Known,
) -> Result<Option<ItemView>, Stop> {
    match e.node {
        SqlNode::Case { operand: None, branches, else_result: Some(otherwise) } => if branches@.len()
            == 0 {
            Ok(None)
        } else {
            match branches@[0].0.node {
                SqlNode::Binary { left, op: SqlBinaryOp::Eq, right } => match col_name(*left) {
                    None => Ok(None),
                    Some(left) => match literal(*right, params, k) {
                        Err(s) => Err(s),
                        Ok(None) => Ok(None),
                        Ok(Some(equals)) => match literal(branches@[0].1, params, k) {
                            Err(s) => Err(s),
                            Ok(Some(v)) => Ok(
                                match col_name(*otherwise) {
                                    Some(else_column) => Some(
                                        ItemView::CaseWhenEq {
                                            left,
                                            equals,
                                            then_value: v,
                                            then_column: None,
                                            else_column,
                                            alias,
                                        },
                                    ),
                                    None => None,
                                },
                            ),
                            Ok(None) => Ok(
                                match (col_name(branches@[0].1), col_name(*otherwise)) {
                                    (Some(c), Some(else_column)) => Some(
                                        ItemView::CaseWhenEq {
                                            left,
                                            equals,
                                            then_value: Val::Null,
                                            then_column: Some(c),
                                            else_column,
                                            alias,
                                        },
                                    ),
                                    _ => None,
                                },
                            ),
                        },
                    },
                },
                _ => Ok(None),
            }
        },
        _ => Ok(None),
    }
}

/// What an optional select item stands for.
pub open spec fn case_outcome(r: Result<Option<ProjectionItem>, Halt>) -> Result<
    Option<ItemView>,
    Stop,
> {
    match r {
        Ok(Some(item)) => Ok(Some(item_view(item))),
        Ok(None) => Ok(None),
        Err(h) => Err(h@),
    }
}

} // verus!
