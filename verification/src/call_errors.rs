//! The error for a call of a function that is not provided.
use vstd::prelude::*;
use crate::facts::{described, text_outcome, Facts, Halt, Known, Stop};
use crate::lower::{built_in_name, function_name, is_provided, provided};
use crate::plan_types::{aggregate_op, named_aggregate};
use crate::syntax::{
    ArgKind, Arguments, FunctionArg, FunctionCall, SqlExpr, SqlNode, SqlValue,
};
use crate::text::{
    chars_of, concat3, join, join_texts, lower, lower_text, opt_text, parse_int, parsed_int,
    push_text, same_text, texts,
};

verus! {

/// Whether the text holds one of the characters that make a numeric constant
/// more than an integer.
pub open spec fn is_decimal(n: Seq<char>) -> bool {
    n.contains('.') || n.contains('e') || n.contains('E')
}

fn has_decimal(n: &str) -> (r: bool)
    ensures
        r == is_decimal(n@),
{
    let chars = chars_of(n);
    let mut i: usize = 0;
    while i < chars.len()
        invariant
            i <= chars@.len(),
            chars@ == n@,
            forall|j: int|
                0 <= j < i ==> chars@[j] != '.' && chars@[j] != 'e' && chars@[j] != 'E',
        decreases chars@.len() - i,
    {
        if chars[i] == '.' || chars[i] == 'e' || chars[i] == 'E' {
            assert(n@[i as int] == chars@[i as int]);
            return true;
        }
        i = i + 1;
    }
    false
}

/// The type of a numeric constant: an integer of the width it needs, or a
/// decimal.
pub open spec fn number_type(n: Seq<char>) -> Seq<char> {
    if is_decimal(n) {
        "numeric"@
    } else {
        match parsed_int(n) {
            Some(i) => if i32::MIN <= i <= i32::MAX {
                "integer"@
            } else {
                "bigint"@
            },
            None => "bigint"@,
        }
    }
}

/// The type of an argument as a message shows it.
pub open spec fn literal_type(e: SqlExpr, k: Known) -> Result<Seq<char>, Stop>
    decreases e,
{
    match e.node {
        SqlNode::Value(SqlValue::Number(n)) => Ok(number_type(n@)),
        SqlNode::Value(SqlValue::Boolean(_)) => Ok("boolean"@),
        SqlNode::Cast { expr, data_type } => match described(k.types, data_type@) {
            Some(info) => Ok(info.shown),
            None => Err(Stop::NeedsType(data_type@)),
        },
        SqlNode::Nested(inner) => literal_type(*inner, k),
        _ => Ok("unknown"@),
    }
}

/// A best-effort type name for a function argument in an error.
pub fn literal_type_name(expr: &SqlExpr, facts: &Facts) -> (r: Result<String, Halt>)
    ensures
        text_outcome(r) == literal_type(*expr, facts@),
    decreases expr,
{
    match &expr.node {
        SqlNode::Value(SqlValue::Number(n)) => {
            if has_decimal(n.as_str()) {
                return Ok("numeric".to_owned());
            }
            match parse_int(n.as_str()) {
                Some(i) => {
                    if i >= -2147483648 && i <= 2147483647 {
                        Ok("integer".to_owned())
                    } else {
                        Ok("bigint".to_owned())
                    }
                },
                None => Ok("bigint".to_owned()),
            }
        },
        SqlNode::Value(SqlValue::Boolean(_)) => Ok("boolean".to_owned()),
        SqlNode::Cast { data_type, .. } => match facts.type_info(data_type.as_str()) {
            Ok(info) => Ok(info.shown.clone()),
            Err(h) => Err(h),
        },
        SqlNode::Nested(inner) => literal_type_name(inner, facts),
        _ => Ok("unknown".to_owned()),
    }
}

/// The expressions among the arguments from position `i` on, as a message
/// shows their types, after those of `before`.
pub open spec fn arg_types(
    args: Seq<FunctionArg>,
    i: nat,
    before: Seq<Seq<char>>,
    k: Known,
) -> Result<Seq<Seq<char>>, Stop>
    decreases args.len() - i,
{
    if i >= args.len() {
        Ok(before)
    } else {
        match args[i as int].kind {
            ArgKind::Expr(e) | ArgKind::Named(e) => match literal_type(e, k) {
                Ok(t) => arg_types(args, i + 1, before.push(t), k),
                Err(s) => Err(s),
            },
            _ => arg_types(args, i + 1, before, k),
        }
    }
}

/// The arguments in parentheses, if a call has them.
pub open spec fn listed_args(args: Arguments) -> Seq<FunctionArg> {
    match args {
        Arguments::List { args, .. } => args@,
        _ => Seq::empty(),
    }
}

/// The message for a call of a function that is not provided.
pub open spec fn no_function(name: Seq<char>, types: Seq<Seq<char>>) -> Seq<char> {
    "function "@ + lower(name) + "("@ + join(types, ", "@) + ") does not exist"@
}

/// Whether a call is of a function that is not provided: neither a row
/// constructor, an aggregate, a window call, nor a scalar function.
pub open spec fn is_unknown(call: FunctionCall, k: Known) -> Result<bool, Stop> {
    let name = function_name(call.name@);
    if name != "ROW"@ && named_aggregate(name) is None && call.over is None {
        match provided(name, k) {
            Ok(b) => Ok(!b),
            Err(s) => Err(s),
        }
    } else {
        Ok(false)
    }
}

/// The first of two messages.
pub open spec fn first_message(
    a: Result<Option<Seq<char>>, Stop>,
    b: Result<Option<Seq<char>>, Stop>,
) -> Result<Option<Seq<char>>, Stop> {
    match a {
        Ok(None) => b,
        _ => a,
    }
}

/// The error for the first call, in an expression and then in its parts, of a
/// function that is not provided.
pub open spec fn unknown_function(e: SqlExpr, k: Known) -> Result<Option<Seq<char>>, Stop>
    decreases e, 0int,
{
    match e.node {
        SqlNode::Function(call) => match is_unknown(call, k) {
            Err(s) => Err(s),
            Ok(true) => match arg_types(listed_args(call.args), 0, Seq::empty(), k) {
                Ok(types) => Ok(Some(no_function(call.name@, types))),
                Err(s) => Err(s),
            },
            Ok(false) => match call.args {
                Arguments::List { args, .. } => unknown_in_args(args, 0, k),
                _ => Ok(None),
            },
        },
        SqlNode::Nested(x) | SqlNode::Unary { expr: x, .. } | SqlNode::Cast { expr: x, .. }
        | SqlNode::IsNull(x) | SqlNode::IsNotNull(x) | SqlNode::Collate(x) => unknown_function(
            *x,
            k,
        ),
        SqlNode::IsBool { expr, value, .. } => if value is Some {
            unknown_function(*expr, k)
        } else {
            Ok(None)
        },
        SqlNode::Binary { left, right, .. } | SqlNode::DistinctFrom { left, right, .. }
        | SqlNode::Quantified { left, right, .. } => first_message(
            unknown_function(*left, k),
            unknown_function(*right, k),
        ),
        SqlNode::Like { expr, pattern, .. } => first_message(
            unknown_function(*expr, k),
            unknown_function(*pattern, k),
        ),
        SqlNode::Between { expr, low, high, .. } => first_message(
            unknown_function(*expr, k),
            first_message(unknown_function(*low, k), unknown_function(*high, k)),
        ),
        SqlNode::InList { expr, list, .. } => first_message(
            unknown_function(*expr, k),
            unknown_in(list, 0, k),
        ),
        SqlNode::Tuple(items) => unknown_in(items, 0, k),
        SqlNode::Case { operand, branches, else_result } => {
            let first = match operand {
                Some(x) => unknown_function(*x, k),
                None => Ok(None),
            };
            let last = match else_result {
                Some(x) => unknown_function(*x, k),
                None => Ok(None),
            };
            first_message(first, first_message(unknown_in_branches(branches, 0, k), last))
        },
        _ => Ok(None),
    }
}

/// The error for the first such call in the expressions from position `i` on.
pub open spec fn unknown_in(items: Vec<SqlExpr>, i: nat, k: Known) -> Result<
    Option<Seq<char>>,
    Stop,
>
    decreases items, items@.len() - i,
{
    if i >= items@.len() {
        Ok(None)
    } else {
        first_message(unknown_function(items@[i as int], k), unknown_in(items, i + 1, k))
    }
}

/// The error for the first such call in the arguments from position `i` on.
pub open spec fn unknown_in_args(args: Vec<FunctionArg>, i: nat, k: Known) -> Result<
    Option<Seq<char>>,
    Stop,
>
    decreases args, args@.len() - i,
{
    if i >= args@.len() {
        Ok(None)
    } else {
        match args@[i as int].kind {
            ArgKind::Expr(e) | ArgKind::Named(e) => first_message(
                unknown_function(e, k),
                unknown_in_args(args, i + 1, k),
            ),
            _ => unknown_in_args(args, i + 1, k),
        }
    }
}

/// The error for the first such call in the branches from position `i` on.
pub open spec fn unknown_in_branches(branches: Vec<(SqlExpr, SqlExpr)>, i: nat, k: Known) -> Result<
    Option<Seq<char>>,
    Stop,
>
    decreases branches, branches@.len() - i,
{
    if i >= branches@.len() {
        Ok(None)
    } else {
        first_message(
            unknown_function(branches@[i as int].0, k),
            first_message(
                unknown_function(branches@[i as int].1, k),
                unknown_in_branches(branches, i + 1, k),
            ),
        )
    }
}

/// What an optional message stands for.
pub open spec fn message_outcome(r: Result<Option<String>, Halt>) -> Result<
    Option<Seq<char>>,
    Stop,
> {
    match r {
        Ok(m) => Ok(opt_text(m)),
        Err(h) => Err(h@),
    }
}

fn show_arg_types(args: &Vec<FunctionArg>, facts: &Facts) -> (r: Result<Vec<String>, Halt>)
    ensures
        match r {
            Ok(v) => Ok(texts(v@)),
            Err(h) => Err(h@),
        } == arg_types(args@, 0, Seq::empty(), facts@),
{
    let mut out: Vec<String> = Vec::new();
    let mut i: usize = 0;
    assert(texts(out@) =~= Seq::<Seq<char>>::empty());
    while i < args.len()
        invariant
            i <= args@.len(),
            arg_types(args@, 0, Seq::empty(), facts@) == arg_types(
                args@,
                i as nat,
                texts(out@),
                facts@,
            ),
        decreases args@.len() - i,
    {
        match &args[i].kind {
            ArgKind::Expr(e) | ArgKind::Named(e) => match literal_type_name(e, facts) {
                Ok(t) => {
                    let ghost before = out@;
                    out.push(t);
                    assert(texts(out@) =~= texts(before).push(t@));
                },
                Err(h) => {
                    return Err(h);
                },
            },
            _ => {},
        }
        i = i + 1;
    }
    Ok(out)
}

fn calls_unknown(call: &FunctionCall, facts: &Facts) -> (r: Result<bool, Halt>)
    ensures
        crate::facts::bool_outcome(r) == is_unknown(*call, facts@),
{
    let name = built_in_name(call.name.as_str());
    if !same_text(name.as_str(), "ROW") && aggregate_op(name.as_str()).is_none()
        && call.over.is_none() {
        match is_provided(&name, facts) {
            Ok(b) => Ok(!b),
            Err(h) => Err(h),
        }
    } else {
        Ok(false)
    }
}

fn unknown_message(call: &FunctionCall, types: &Vec<String>) -> (r: String)
    ensures
        r@ == no_function(call.name@, texts(types@)),
{
    let name = lower_text(call.name.as_str());
    let shown = join_texts(types, ", ");
    let mut out = concat3("function ", name.as_str(), "(");
    push_text(&mut out, shown.as_str());
    push_text(&mut out, ") does not exist");
    out
}

fn in_call(call: &FunctionCall, facts: &Facts) -> (r: Result<Option<String>, Halt>)
    ensures
        message_outcome(r) == (match is_unknown(*call, facts@) {
            Err(s) => Err(s),
            Ok(true) => match arg_types(listed_args(call.args), 0, Seq::empty(), facts@) {
                Ok(types) => Ok(Some(no_function(call.name@, types))),
                Err(s) => Err(s),
            },
            Ok(false) => match call.args {
                Arguments::List { args, .. } => unknown_in_args(args, 0, facts@),
                _ => Ok(None),
            },
        }),
    decreases call, 0int,
{
    match calls_unknown(call, facts) {
        Err(h) => Err(h),
        Ok(true) => {
            let types = match &call.args {
                Arguments::List { args, .. } => show_arg_types(args, facts),
                _ => {
                    let none: Vec<String> = Vec::new();
                    assert(texts(none@) =~= Seq::<Seq<char>>::empty());
                    Ok(none)
                },
            };
            match types {
                Ok(types) => Ok(Some(unknown_message(call, &types))),
                Err(h) => Err(h),
            }
        },
        Ok(false) => match &call.args {
            Arguments::List { args, .. } => in_args(args, facts),
            _ => Ok(None),
        },
    }
}

fn in_args(args: &Vec<FunctionArg>, facts: &Facts) -> (r: Result<Option<String>, Halt>)
    ensures
        message_outcome(r) == unknown_in_args(*args, 0, facts@),
    decreases args, args@.len(),
{
    let mut i: usize = 0;
    while i < args.len()
        invariant
            i <= args@.len(),
            unknown_in_args(*args, 0, facts@) == unknown_in_args(*args, i as nat, facts@),
        decreases args@.len() - i,
    {
        assert(decreases_to!(args@ => args@[i as int]));
        match &args[i].kind {
            ArgKind::Expr(e) | ArgKind::Named(e) => match unknown_function_error(e, facts) {
                Ok(None) => {},
                found => {
                    return found;
                },
            },
            _ => {},
        }
        i = i + 1;
    }
    Ok(None)
}

fn in_all(items: &Vec<SqlExpr>, facts: &Facts) -> (r: Result<Option<String>, Halt>)
    ensures
        message_outcome(r) == unknown_in(*items, 0, facts@),
    decreases items, items@.len(),
{
    let mut i: usize = 0;
    while i < items.len()
        invariant
            i <= items@.len(),
            unknown_in(*items, 0, facts@) == unknown_in(*items, i as nat, facts@),
        decreases items@.len() - i,
    {
        assert(decreases_to!(items@ => items@[i as int]));
        match unknown_function_error(&items[i], facts) {
            Ok(None) => {},
            found => {
                return found;
            },
        }
        i = i + 1;
    }
    Ok(None)
}

fn in_branches(branches: &Vec<(SqlExpr, SqlExpr)>, facts: &Facts) -> (r: Result<
    Option<String>,
    Halt,
>)
    ensures
        message_outcome(r) == unknown_in_branches(*branches, 0, facts@),
    decreases branches, branches@.len(),
{
    let mut i: usize = 0;
    while i < branches.len()
        invariant
            i <= branches@.len(),
            unknown_in_branches(*branches, 0, facts@) == unknown_in_branches(
                *branches,
                i as nat,
                facts@,
            ),
        decreases branches@.len() - i,
    {
        assert(decreases_to!(branches@ => branches@[i as int]));
        match unknown_function_error(&branches[i].0, facts) {
            Ok(None) => {},
            found => {
                return found;
            },
        }
        match unknown_function_error(&branches[i].1, facts) {
            Ok(None) => {},
            found => {
                return found;
            },
        }
        i = i + 1;
    }
    Ok(None)
}

/// The error for the first call of a function that is not provided, if an
/// expression makes one: `function f(types) does not exist`.
pub fn unknown_function_error(expr: &SqlExpr, facts: &Facts) -> (r: Result<Option<String>, Halt>)
    ensures
        message_outcome(r) == unknown_function(*expr, facts@),
    decreases expr, 0int,
{
    match &expr.node {
        SqlNode::Function(call) => in_call(call, facts),
        SqlNode::Nested(x)
        | SqlNode::Unary { expr: x, .. }
        | SqlNode::Cast { expr: x, .. }
        | SqlNode::IsNull(x)
        | SqlNode::IsNotNull(x)
        | SqlNode::Collate(x) => unknown_function_error(x, facts),
        SqlNode::IsBool { expr: x, value, .. } => {
            if value.is_some() {
                unknown_function_error(x, facts)
            } else {
                Ok(None)
            }
        },
        SqlNode::Binary { left, right, .. }
        | SqlNode::DistinctFrom { left, right, .. }
        | SqlNode::Quantified { left, right, .. } => match unknown_function_error(left, facts) {
            Ok(None) => unknown_function_error(right, facts),
            found => found,
        },
        SqlNode::Like { expr: left, pattern, .. } => match unknown_function_error(left, facts) {
            Ok(None) => unknown_function_error(pattern, facts),
            found => found,
        },
        SqlNode::Between { expr: x, low, high, .. } => match unknown_function_error(x, facts) {
            Ok(None) => match unknown_function_error(low, facts) {
                Ok(None) => unknown_function_error(high, facts),
                found => found,
            },
            found => found,
        },
        SqlNode::InList { expr: x, list, .. } => match unknown_function_error(x, facts) {
            Ok(None) => in_all(list, facts),
            found => found,
        },
        SqlNode::Tuple(items) => in_all(items, facts),
        SqlNode::Case { operand, branches, else_result } => {
            if let Some(x) = operand {
                match unknown_function_error(x, facts) {
                    Ok(None) => {},
                    found => {
                        return found;
                    },
                }
            }
            match in_branches(branches, facts) {
                Ok(None) => {},
                found => {
                    return found;
                },
            }
            match else_result {
                Some(x) => unknown_function_error(x, facts),
                None => Ok(None),
            }
        },
        _ => Ok(None),
    }
}

} // verus!
