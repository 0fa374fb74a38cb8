//! Folding a binary operator over two constants.
use vstd::prelude::*;
use crate::facts::{asked, on_two, Facts, Halt, Known, Stop, Task, TaskView};
use crate::plan_types::ScalarBinaryOp;
use crate::render::{compare, equal_values, ordered, render, shown, values_equal, Rank};
use crate::scalar_ops::{and3, is_number, number_zero, opt_outcome, or3, truth, truth_val};
use crate::syntax::SqlBinaryOp;
use crate::text::concat2;
use crate::value::{Val, Value};

verus! {

/// The arithmetic operator that a SQL operator is.
pub open spec fn arithmetic(op: SqlBinaryOp) -> Option<ScalarBinaryOp> {
    match op {
        SqlBinaryOp::Plus => Some(ScalarBinaryOp::Add),
        SqlBinaryOp::Minus => Some(ScalarBinaryOp::Sub),
        SqlBinaryOp::Multiply => Some(ScalarBinaryOp::Mul),
        SqlBinaryOp::Divide => Some(ScalarBinaryOp::Div),
        SqlBinaryOp::Modulo => Some(ScalarBinaryOp::Mod),
        _ => None,
    }
}

fn arithmetic_of(op: &SqlBinaryOp) -> (r: Option<ScalarBinaryOp>)
    ensures
        r == arithmetic(*op),
{
    match op {
        SqlBinaryOp::Plus => Some(ScalarBinaryOp::Add),
        SqlBinaryOp::Minus => Some(ScalarBinaryOp::Sub),
        SqlBinaryOp::Multiply => Some(ScalarBinaryOp::Mul),
        SqlBinaryOp::Divide => Some(ScalarBinaryOp::Div),
        SqlBinaryOp::Modulo => Some(ScalarBinaryOp::Mod),
        _ => None,
    }
}

/// The result of an integer operation, if it is in range; division rounds
/// toward zero, and there is none by zero.
pub open spec fn checked(op: ScalarBinaryOp, a: i64, b: i64) -> Option<i64> {
    match op {
        ScalarBinaryOp::Add => a.checked_add(b),
        ScalarBinaryOp::Sub => a.checked_sub(b),
        ScalarBinaryOp::Mul => a.checked_mul(b),
        ScalarBinaryOp::Div => a.checked_div(b),
        _ => a.checked_rem(b),
    }
}

/// What folding arithmetic over two numbers gives: NULL for a division by
/// zero and for an integer result out of range.
pub open spec fn folded_arithmetic(op: ScalarBinaryOp, l: Val, r: Val, k: Known) -> Result<
    Option<Val>,
    Stop,
> {
    match (l, r) {
        (Val::Int(a), Val::Int(b)) => Ok(
            Some(
                match checked(op, a, b) {
                    Some(n) => Val::Int(n),
                    None => Val::Null,
                },
            ),
        ),
        _ => if !is_number(l) || !is_number(r) {
            Ok(None)
        } else if (op is Div || op is Mod) && number_zero(r) {
            Ok(Some(Val::Null))
        } else {
            match asked(k, on_two(TaskView::Arithmetic(op), l, r)) {
                Ok(v) => Ok(Some(v)),
                Err(s) => Err(s),
            }
        },
    }
}

/// What a comparison operator makes of two values that are not NULL.
pub open spec fn folded_comparison(op: SqlBinaryOp, l: Val, r: Val, k: Known) -> Result<
    bool,
    Stop,
> {
    match op {
        SqlBinaryOp::Eq => equal_values(l, r, k),
        SqlBinaryOp::NotEq => match equal_values(l, r, k) {
            Ok(b) => Ok(!b),
            Err(s) => Err(s),
        },
        _ => match ordered(l, r, k) {
            Ok(rank) => Ok(
                match op {
                    SqlBinaryOp::Lt => rank is Less,
                    SqlBinaryOp::LtEq => !(rank is Greater),
                    SqlBinaryOp::Gt => rank is Greater,
                    _ => !(rank is Less),
                },
            ),
            Err(s) => Err(s),
        },
    }
}

/// What an operator makes of two constants; `None` where it is not folded.
pub open spec fn folded(op: SqlBinaryOp, l: Val, r: Val, k: Known) -> Result<Option<Val>, Stop> {
    match op {
        SqlBinaryOp::Plus | SqlBinaryOp::Minus | SqlBinaryOp::Multiply | SqlBinaryOp::Divide
        | SqlBinaryOp::Modulo => if l is Null || r is Null {
            Ok(Some(Val::Null))
        } else {
            folded_arithmetic(arithmetic(op)->0, l, r, k)
        },
        SqlBinaryOp::Eq | SqlBinaryOp::NotEq | SqlBinaryOp::Lt | SqlBinaryOp::LtEq
        | SqlBinaryOp::Gt | SqlBinaryOp::GtEq => if l is Null || r is Null {
            Ok(Some(Val::Null))
        } else {
            match folded_comparison(op, l, r, k) {
                Ok(b) => Ok(Some(Val::Bool(b))),
                Err(s) => Err(s),
            }
        },
        SqlBinaryOp::StringConcat => if l is Null || r is Null {
            Ok(Some(Val::Null))
        } else {
            match shown(l, k) {
                Err(s) => Err(s),
                Ok(a) => match shown(r, k) {
                    Err(s) => Err(s),
                    Ok(b) => Ok(Some(Val::Text(a + b))),
                },
            }
        },
        SqlBinaryOp::And | SqlBinaryOp::Or => match (truth(l), truth(r)) {
            (Some(a), Some(b)) => Ok(
                Some(
                    truth_val(
                        if op is And {
                            and3(a, b)
                        } else {
                            or3(a, b)
                        },
                    ),
                ),
            ),
            _ => Ok(None),
        },
        _ => Ok(None),
    }
}

fn fold_arithmetic(op: ScalarBinaryOp, l: &Value, r: &Value, facts: &Facts) -> (res: Result<
    Option<Value>,
    Halt,
>)
    ensures
        opt_outcome(res) == folded_arithmetic(op, l@, r@, facts@),
{
    match (l, r) {
        (Value::Int(a), Value::Int(b)) => {
            let a: i64 = *a;
            let b: i64 = *b;
            let out: Option<i64> = match op {
                ScalarBinaryOp::Add => a.checked_add(b),
                ScalarBinaryOp::Sub => a.checked_sub(b),
                ScalarBinaryOp::Mul => a.checked_mul(b),
                ScalarBinaryOp::Div => a.checked_div(b),
                _ => a.checked_rem(b),
            };
            match out {
                Some(n) => Ok(Some(Value::Int(n))),
                None => Ok(Some(Value::Null)),
            }
        },
        _ => {
            let l_number: bool = match l {
                Value::Int(_) | Value::Float(_) => true,
                _ => false,
            };
            let (r_number, zero): (bool, bool) = match r {
                Value::Int(i) => (true, *i == 0),
                Value::Float(b) => (true, *b & 0x7fff_ffff_ffff_ffff == 0),
                _ => (false, false),
            };
            if !l_number || !r_number {
                return Ok(None);
            }
            let divides: bool = match op {
                ScalarBinaryOp::Div | ScalarBinaryOp::Mod => true,
                _ => false,
            };
            if divides && zero {
                return Ok(Some(Value::Null));
            }
            match facts.ask_two(Task::Arithmetic(op), l, r) {
                Ok(v) => Ok(Some(v)),
                Err(h) => Err(h),
            }
        },
    }
}

fn fold_comparison(op: &SqlBinaryOp, l: &Value, r: &Value, facts: &Facts) -> (res: Result<
    bool,
    Halt,
>)
    ensures
        crate::facts::bool_outcome(res) == folded_comparison(*op, l@, r@, facts@),
{
    match op {
        SqlBinaryOp::Eq => values_equal(l, r, facts),
        SqlBinaryOp::NotEq => match values_equal(l, r, facts) {
            Ok(b) => Ok(!b),
            Err(h) => Err(h),
        },
        _ => match compare(l, r, facts) {
            Ok(rank) => Ok(
                match op {
                    SqlBinaryOp::Lt => rank == Rank::Less,
                    SqlBinaryOp::LtEq => rank != Rank::Greater,
                    SqlBinaryOp::Gt => rank == Rank::Greater,
                    _ => rank != Rank::Less,
                },
            ),
            Err(h) => Err(h),
        },
    }
}

fn truth_of(v: &Value) -> (r: Option<Option<bool>>)
    ensures
        r == truth(v@),
{
    match v {
        Value::Bool(b) => Some(Some(*b)),
        Value::Null => Some(None),
        _ => None,
    }
}

fn fold_logic(and: bool, a: Option<bool>, b: Option<bool>) -> (r: Value)
    ensures
        r@ == truth_val(
            if and {
                and3(a, b)
            } else {
                or3(a, b)
            },
        ),
{
    if and {
        match (a, b) {
            (Some(false), _) | (_, Some(false)) => Value::Bool(false),
            (Some(true), Some(true)) => Value::Bool(true),
            _ => Value::Null,
        }
    } else {
        match (a, b) {
            (Some(true), _) | (_, Some(true)) => Value::Bool(true),
            (Some(false), Some(false)) => Value::Bool(false),
            _ => Value::Null,
        }
    }
}

/// What an operator makes of two constants: NULL propagates through arithmetic,
/// comparison, and concatenation, and AND and OR are three-valued. `None`
/// where the operator is not folded over such values.
pub fn fold_binary(op: &SqlBinaryOp, l: Value, r: Value, facts: &Facts) -> (res: Result<
    Option<Value>,
    Halt,
>)
    ensures
        opt_outcome(res) == folded(*op, l@, r@, facts@),
{
    match op {
        SqlBinaryOp::And | SqlBinaryOp::Or => {
            let and: bool = match op {
                SqlBinaryOp::And => true,
                _ => false,
            };
            match (truth_of(&l), truth_of(&r)) {
                (Some(a), Some(b)) => Ok(Some(fold_logic(and, a, b))),
                _ => Ok(None),
            }
        },
        SqlBinaryOp::StringConcat => {
            if l.is_null() || r.is_null() {
                return Ok(Some(Value::Null));
            }
            let a = match render(&l, facts) {
                Ok(a) => a,
                Err(h) => return Err(h),
            };
            match render(&r, facts) {
                Ok(b) => Ok(Some(Value::Text(concat2(a.as_str(), b.as_str())))),
                Err(h) => Err(h),
            }
        },
        SqlBinaryOp::Eq
        | SqlBinaryOp::NotEq
        | SqlBinaryOp::Lt
        | SqlBinaryOp::LtEq
        | SqlBinaryOp::Gt
        | SqlBinaryOp::GtEq => {
            if l.is_null() || r.is_null() {
                return Ok(Some(Value::Null));
            }
            match fold_comparison(op, &l, &r, facts) {
                Ok(b) => Ok(Some(Value::Bool(b))),
                Err(h) => Err(h),
            }
        },
        _ => match arithmetic_of(op) {
            Some(arith) => {
                if l.is_null() || r.is_null() {
                    return Ok(Some(Value::Null));
                }
                fold_arithmetic(arith, &l, &r, facts)
            },
            None => Ok(None),
        },
    }
}

/// Adding, subtracting, and multiplying integers folds to the exact result
/// wherever it is in range, and to NULL elsewhere.
pub proof fn law_folding_integers_is_exact(a: i64, b: i64, k: Known)
    ensures
        folded(SqlBinaryOp::Plus, Val::Int(a), Val::Int(b), k) == Ok::<Option<Val>, Stop>(
            Some(in_range(a + b)),
        ),
        folded(SqlBinaryOp::Minus, Val::Int(a), Val::Int(b), k) == Ok::<Option<Val>, Stop>(
            Some(in_range(a - b)),
        ),
        folded(SqlBinaryOp::Multiply, Val::Int(a), Val::Int(b), k) == Ok::<Option<Val>, Stop>(
            Some(in_range(a * b)),
        ),
{
}

/// A number as a value: NULL for one out of range.
pub open spec fn in_range(n: int) -> Val {
    if i64::MIN <= n <= i64::MAX {
        Val::Int(n as i64)
    } else {
        Val::Null
    }
}

} // verus!
