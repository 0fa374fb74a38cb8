//! Unary and binary operators on values, with SQL NULL propagation and
//! three-valued logic.
use vstd::prelude::*;
use crate::facts::{
    asked, on_one, on_two, outcome, Facts, Halt, Known, Stop, Task, TaskView,
};
use crate::interval::{fit, format_interval, interval_of, interval_text, parse_interval_text};
use crate::json_ops::{apply_json_array_op, json_array_op};
use crate::plan_types::{ScalarBinaryOp, ScalarUnaryOp};
use crate::render::{interval_aware_compare, ordered_with_intervals, render, shown, Rank};
use crate::temporal::{
    apply_date_offset, bare_date, bare_day, date_offset, day_text, text_of_day,
};
use crate::text::{concat2, lower, lower_text, parse_int, parsed_int, same_text, trim_text, trimmed};
use crate::value::{clone_values, group_value_views, vals, Val, Value};

verus! {

/// The error of an integer that does not fit in 64 bits.
pub open spec fn out_of_range() -> Result<Val, Stop> {
    Err(Stop::Raised("bigint out of range"@))
}

fn raise_out_of_range() -> (r: Result<Value, Halt>)
    ensures
        outcome(r) == out_of_range(),
{
    Err(Halt::Raised("bigint out of range".to_owned()))
}

/// The error of an interval that does not fit in 64 bits.
pub open spec fn interval_range() -> Result<Val, Stop> {
    Err(Stop::Raised("interval out of range"@))
}

fn raise_interval_range() -> (r: Result<Value, Halt>)
    ensures
        outcome(r) == interval_range(),
{
    Err(Halt::Raised("interval out of range".to_owned()))
}

/// The error of a division by zero.
pub open spec fn by_zero() -> Result<Val, Stop> {
    Err(Stop::Raised("division by zero"@))
}

fn raise_by_zero() -> (r: Result<Value, Halt>)
    ensures
        outcome(r) == by_zero(),
{
    Err(Halt::Raised("division by zero".to_owned()))
}

// ---------------------------------------------------------------------------
// Floating-point numbers as bits
// ---------------------------------------------------------------------------

/// Whether the bits are those of a zero.
pub open spec fn float_zero(bits: u64) -> bool {
    bits & 0x7fff_ffff_ffff_ffff == 0
}

/// Whether the bits are those of a number that is neither infinite nor NaN.
pub open spec fn float_finite(bits: u64) -> bool {
    bits & 0x7ff0_0000_0000_0000 != 0x7ff0_0000_0000_0000
}

/// Whether the bits are those of an infinity.
pub open spec fn float_infinite(bits: u64) -> bool {
    bits & 0x7fff_ffff_ffff_ffff == 0x7ff0_0000_0000_0000
}

/// Whether a value is a number that integer or floating-point arithmetic takes.
pub open spec fn is_number(v: Val) -> bool {
    v is Int || v is Float
}

fn number(v: &Value) -> (r: bool)
    ensures
        r == is_number(v@),
{
    match v {
        Value::Int(_) => true,
        Value::Float(_) => true,
        _ => false,
    }
}

/// Whether a number is zero.
pub open spec fn number_zero(v: Val) -> bool {
    match v {
        Val::Int(i) => i == 0,
        Val::Float(b) => float_zero(b),
        _ => false,
    }
}

/// Whether a number is finite.
pub open spec fn number_finite(v: Val) -> bool {
    match v {
        Val::Float(b) => float_finite(b),
        _ => true,
    }
}

// ---------------------------------------------------------------------------
// Unary operators and boolean text
// ---------------------------------------------------------------------------

/// The boolean that a text writes.
pub open spec fn bool_of_text(s: Seq<char>) -> Option<bool> {
    let t = lower(trimmed(s));
    if t == "t"@ || t == "true"@ || t == "y"@ || t == "yes"@ || t == "on"@ || t == "1"@ {
        Some(true)
    } else if t == "f"@ || t == "false"@ || t == "n"@ || t == "no"@ || t == "off"@ || t == "0"@ {
        Some(false)
    } else {
        None
    }
}

/// PostgreSQL-style textual boolean input; unrecognized text folds to NULL.
pub fn parse_bool_text(s: &str) -> (r: Value)
    ensures
        r@ == (match bool_of_text(s@) {
            Some(b) => Val::Bool(b),
            None => Val::Null,
        }),
{
    let bare = trim_text(s);
    let low = lower_text(bare.as_str());
    let t = low.as_str();
    if same_text(t, "t") || same_text(t, "true") || same_text(t, "y") || same_text(t, "yes")
        || same_text(t, "on") || same_text(t, "1") {
        Value::Bool(true)
    } else if same_text(t, "f") || same_text(t, "false") || same_text(t, "n") || same_text(t, "no")
        || same_text(t, "off") || same_text(t, "0") {
        Value::Bool(false)
    } else {
        Value::Null
    }
}

/// What a unary operator makes of a value; the least integer has no negative.
pub open spec fn unary_op(op: ScalarUnaryOp, v: Val) -> Result<Val, Stop> {
    match (op, v) {
        (ScalarUnaryOp::Neg, Val::Int(i)) => if i == i64::MIN {
            out_of_range()
        } else {
            Ok(Val::Int((-i) as i64))
        },
        (ScalarUnaryOp::Neg, Val::Float(b)) => Ok(Val::Float(b ^ 0x8000_0000_0000_0000)),
        (ScalarUnaryOp::Not, Val::Bool(b)) => Ok(Val::Bool(!b)),
        _ => Ok(Val::Null),
    }
}

/// Applies a unary operator to a value; type-invalid combinations yield `Null`.
pub fn apply_unary_op(op: ScalarUnaryOp, v: Value) -> (r: Result<Value, Halt>)
    ensures
        outcome(r) == unary_op(op, v@),
{
    match (op, v) {
        (ScalarUnaryOp::Neg, Value::Int(i)) => {
            if i == i64::MIN {
                raise_out_of_range()
            } else {
                Ok(Value::Int(-i))
            }
        },
        (ScalarUnaryOp::Neg, Value::Float(b)) => Ok(Value::Float(b ^ 0x8000_0000_0000_0000)),
        (ScalarUnaryOp::Not, Value::Bool(b)) => Ok(Value::Bool(!b)),
        _ => Ok(Value::Null),
    }
}

// ---------------------------------------------------------------------------
// Arithmetic
// ---------------------------------------------------------------------------

/// Integer arithmetic; division truncates toward zero.
pub open spec fn int_arithmetic(op: ScalarBinaryOp, a: i64, b: i64) -> Result<Val, Stop> {
    if (op is Div || op is Mod) && b == 0 {
        by_zero()
    } else {
        let out = match op {
            ScalarBinaryOp::Add => a.checked_add(b),
            ScalarBinaryOp::Sub => a.checked_sub(b),
            ScalarBinaryOp::Mul => a.checked_mul(b),
            ScalarBinaryOp::Div => a.checked_div(b),
            _ => a.checked_rem(b),
        };
        match out {
            Some(n) => Ok(Val::Int(n)),
            None => out_of_range(),
        }
    }
}

fn apply_int_arithmetic(op: ScalarBinaryOp, a: i64, b: i64) -> (r: Result<Value, Halt>)
    ensures
        outcome(r) == int_arithmetic(op, a, b),
{
    let out = match op {
        ScalarBinaryOp::Add => a.checked_add(b),
        ScalarBinaryOp::Sub => a.checked_sub(b),
        ScalarBinaryOp::Mul => a.checked_mul(b),
        ScalarBinaryOp::Div => {
            if b == 0 {
                return raise_by_zero();
            }
            a.checked_div(b)
        },
        ScalarBinaryOp::Mod => {
            if b == 0 {
                return raise_by_zero();
            }
            a.checked_rem(b)
        },
        _ => a.checked_rem(b),
    };
    match out {
        Some(n) => Ok(Value::Int(n)),
        None => raise_out_of_range(),
    }
}

/// Floating-point arithmetic: the operation is looked up; dividing by zero and
/// an infinite result from finite operands are errors.
pub open spec fn float_arithmetic(op: ScalarBinaryOp, l: Val, r: Val, k: Known) -> Result<
    Val,
    Stop,
> {
    if (op is Div || op is Mod) && number_zero(r) {
        by_zero()
    } else {
        match asked(k, on_two(TaskView::Arithmetic(op), l, r)) {
            Err(s) => Err(s),
            Ok(Val::Float(out)) => if float_infinite(out) && number_finite(l) && number_finite(r) {
                Err(Stop::Raised("value out of range: overflow"@))
            } else {
                Ok(Val::Float(out))
            },
            Ok(_) => Ok(Val::Null),
        }
    }
}

fn apply_float_arithmetic(op: ScalarBinaryOp, l: &Value, r: &Value, facts: &Facts) -> (res: Result<
    Value,
    Halt,
>)
    ensures
        outcome(res) == float_arithmetic(op, l@, r@, facts@),
{
    let zero: bool = match r {
        Value::Int(i) => *i == 0,
        Value::Float(b) => *b & 0x7fff_ffff_ffff_ffff == 0,
        _ => false,
    };
    let divides: bool = match op {
        ScalarBinaryOp::Div | ScalarBinaryOp::Mod => true,
        _ => false,
    };
    if divides && zero {
        return raise_by_zero();
    }
    match facts.ask_two(Task::Arithmetic(op), l, r) {
        Err(h) => Err(h),
        Ok(Value::Float(out)) => {
            let infinite: bool = out & 0x7fff_ffff_ffff_ffff == 0x7ff0_0000_0000_0000;
            let l_finite: bool = match l {
                Value::Float(b) => *b & 0x7ff0_0000_0000_0000 != 0x7ff0_0000_0000_0000,
                _ => true,
            };
            let r_finite: bool = match r {
                Value::Float(b) => *b & 0x7ff0_0000_0000_0000 != 0x7ff0_0000_0000_0000,
                _ => true,
            };
            if infinite && l_finite && r_finite {
                Err(Halt::Raised("value out of range: overflow".to_owned()))
            } else {
                Ok(Value::Float(out))
            }
        },
        Ok(_) => Ok(Value::Null),
    }
}

/// A date text moved by whole days.
pub open spec fn day_moved(date: i32, days: i64, back: bool) -> Result<Val, Stop> {
    match day_text(
        if back {
            date - days
        } else {
            date + days
        },
    ) {
        Ok(t) => Ok(Val::Text(t)),
        Err(s) => Err(s),
    }
}

fn move_day(date: i32, days: i64, back: bool) -> (r: Result<Value, Halt>)
    ensures
        outcome(r) == day_moved(date, days, back),
{
    let day: i128 = if back {
        date as i128 - days as i128
    } else {
        date as i128 + days as i128
    };
    match text_of_day(day) {
        Ok(t) => Ok(Value::Text(t)),
        Err(h) => Err(h),
    }
}

/// `n`, negated for a subtraction.
pub open spec fn signed(n: int, sub: bool) -> int {
    if sub {
        -n
    } else {
        n
    }
}

/// What adding to or subtracting from text an interval gives.
pub open spec fn interval_arithmetic(ls: Seq<char>, rs: Seq<char>, sub: bool, k: Known) -> Result<
    Val,
    Stop,
> {
    match (interval_of(ls), interval_of(rs)) {
        (Some((m1, d1, s1)), Some((m2, d2, s2))) => match (
            fit(m1 + signed(m2 as int, sub)),
            fit(d1 + signed(d2 as int, sub)),
            fit(s1 + signed(s2 as int, sub)),
        ) {
            (Some(m), Some(d), Some(s)) => if s == i64::MIN {
                interval_range()
            } else {
                Ok(Val::Text(interval_text(m as int, d as int, s as int)))
            },
            _ => interval_range(),
        },
        (None, Some((m, d, s))) => match (
            fit(signed(m as int, sub)),
            fit(signed(d as int, sub)),
            fit(signed(s as int, sub)),
        ) {
            (Some(m), Some(d), Some(s)) => date_offset(Val::Text(ls), m, d, s, k),
            _ => interval_range(),
        },
        _ => Ok(Val::Null),
    }
}

fn add_signed(a: i64, b: i64, sub: bool) -> (r: Option<i64>)
    ensures
        r == fit(a + signed(b as int, sub)),
{
    if sub {
        a.checked_sub(b)
    } else {
        a.checked_add(b)
    }
}

fn apply_interval_arithmetic(l: &Value, ls: &str, rs: &str, sub: bool, facts: &Facts) -> (r: Result<
    Value,
    Halt,
>)
    requires
        l@ == Val::Text(ls@),
    ensures
        outcome(r) == interval_arithmetic(ls@, rs@, sub, facts@),
{
    let left = parse_interval_text(ls);
    let (m2, d2, s2) = match parse_interval_text(rs) {
        Some(i) => i,
        None => return Ok(Value::Null),
    };
    match left {
        Some((m1, d1, s1)) => match (
            add_signed(m1, m2, sub),
            add_signed(d1, d2, sub),
            add_signed(s1, s2, sub),
        ) {
            (Some(m), Some(d), Some(s)) => {
                if s == i64::MIN {
                    raise_interval_range()
                } else {
                    Ok(Value::Text(format_interval(m, d, s)))
                }
            },
            _ => raise_interval_range(),
        },
        None => match (add_signed(0, m2, sub), add_signed(0, d2, sub), add_signed(0, s2, sub)) {
            (Some(m), Some(d), Some(s)) => apply_date_offset(l, m, d, s, facts),
            _ => raise_interval_range(),
        },
    }
}

/// `+` and `-` on operands of which one is no number: a date and a number of
/// days, two dates, two intervals, a date or timestamp and an interval.
pub open spec fn date_arithmetic(op: ScalarBinaryOp, l: Val, r: Val, k: Known) -> Result<
    Val,
    Stop,
> {
    let sub = op is Sub;
    if !(op is Add) && !sub {
        Ok(Val::Null)
    } else {
        match (l, r) {
            (Val::Text(date), Val::Int(days)) => match bare_day(date, k) {
                Err(s) => Err(s),
                Ok(Some(d)) => day_moved(d, days, sub),
                Ok(None) => Ok(Val::Null),
            },
            (Val::Int(days), Val::Text(date)) => match bare_day(date, k) {
                Err(s) => Err(s),
                Ok(Some(d)) => if sub {
                    Ok(Val::Null)
                } else {
                    day_moved(d, days, false)
                },
                Ok(None) => Ok(Val::Null),
            },
            (Val::Text(a), Val::Text(b)) => if sub {
                match bare_day(a, k) {
                    Err(s) => Err(s),
                    Ok(x) => match bare_day(b, k) {
                        Err(s) => Err(s),
                        Ok(y) => match (x, y) {
                            (Some(p), Some(q)) => Ok(Val::Int((p - q) as i64)),
                            _ => interval_arithmetic(a, b, true, k),
                        },
                    },
                }
            } else {
                interval_arithmetic(a, b, false, k)
            },
            _ => Ok(Val::Null),
        }
    }
}

/// `interval +/- interval` and `date/timestamp +/- interval` on text operands.
pub fn interval_date_arith(op: ScalarBinaryOp, l: &Value, r: &Value, facts: &Facts) -> (res: Result<
    Value,
    Halt,
>)
    ensures
        outcome(res) == date_arithmetic(op, l@, r@, facts@),
{
    let sub: bool = match op {
        ScalarBinaryOp::Add => false,
        ScalarBinaryOp::Sub => true,
        _ => return Ok(Value::Null),
    };
    match (l, r) {
        (Value::Text(date), Value::Int(days)) => match bare_date(date.as_str(), facts) {
            Err(h) => Err(h),
            Ok(Some(d)) => move_day(d, *days, sub),
            Ok(None) => Ok(Value::Null),
        },
        (Value::Int(days), Value::Text(date)) => match bare_date(date.as_str(), facts) {
            Err(h) => Err(h),
            Ok(Some(d)) => {
                if sub {
                    Ok(Value::Null)
                } else {
                    move_day(d, *days, false)
                }
            },
            Ok(None) => Ok(Value::Null),
        },
        (Value::Text(a), Value::Text(b)) => {
            if sub {
                let x = match bare_date(a.as_str(), facts) {
                    Err(h) => return Err(h),
                    Ok(x) => x,
                };
                let y = match bare_date(b.as_str(), facts) {
                    Err(h) => return Err(h),
                    Ok(y) => y,
                };
                if let (Some(p), Some(q)) = (x, y) {
                    return Ok(Value::Int(p as i64 - q as i64));
                }
            }
            apply_interval_arithmetic(l, a.as_str(), b.as_str(), sub, facts)
        },
        _ => Ok(Value::Null),
    }
}

// ---------------------------------------------------------------------------
// Comparison
// ---------------------------------------------------------------------------

/// Whether an operator compares.
pub open spec fn comparison(op: ScalarBinaryOp) -> bool {
    op is Eq || op is NotEq || op is Lt || op is LtEq || op is Gt || op is GtEq
}

/// Whether an operator compares.
pub fn is_comparison(op: ScalarBinaryOp) -> (r: bool)
    ensures
        r == comparison(op),
{
    match op {
        ScalarBinaryOp::Eq
        | ScalarBinaryOp::NotEq
        | ScalarBinaryOp::Lt
        | ScalarBinaryOp::LtEq
        | ScalarBinaryOp::Gt
        | ScalarBinaryOp::GtEq => true,
        _ => false,
    }
}

/// The value that `text` stands for beside a value of another type; `None`
/// leaves it a text.
pub open spec fn resolved(text: Seq<char>, typed: Val, k: Known) -> Result<Option<Val>, Stop> {
    let t = trimmed(text);
    match typed {
        Val::Int(_) | Val::Float(_) => match parsed_int(t) {
            Some(i) => Ok(Some(Val::Int(i))),
            None => match asked(k, on_one(TaskView::ToFloat, Val::Text(t))) {
                Ok(Val::Float(b)) => Ok(Some(Val::Float(b))),
                Ok(_) => Ok(None),
                Err(s) => Err(s),
            },
        },
        Val::Bool(_) => Ok(
            match bool_of_text(t) {
                Some(b) => Some(Val::Bool(b)),
                None => None,
            },
        ),
        Val::Jsonb(_) => match asked(k, on_one(TaskView::ParseJson, Val::Text(t))) {
            Ok(Val::Jsonb(j)) => Ok(Some(Val::Jsonb(j))),
            Ok(_) => Ok(None),
            Err(s) => Err(s),
        },
        _ => Ok(None),
    }
}

/// What an optional value result stands for.
pub open spec fn opt_outcome(r: Result<Option<Value>, Halt>) -> Result<Option<Val>, Stop> {
    match r {
        Ok(v) => Ok(crate::value::opt_val(v)),
        Err(h) => Err(h@),
    }
}

fn resolve(text: &str, typed: &Value, facts: &Facts) -> (r: Result<Option<Value>, Halt>)
    ensures
        opt_outcome(r) == resolved(text@, typed@, facts@),
{
    let t = trim_text(text);
    match typed {
        Value::Int(_) | Value::Float(_) => match parse_int(t.as_str()) {
            Some(i) => Ok(Some(Value::Int(i))),
            None => {
                let whole = Value::Text(t);
                match facts.ask_one(Task::ToFloat, &whole) {
                    Ok(Value::Float(b)) => Ok(Some(Value::Float(b))),
                    Ok(_) => Ok(None),
                    Err(h) => Err(h),
                }
            },
        },
        Value::Bool(_) => Ok(
            match parse_bool_text(t.as_str()) {
                Value::Bool(b) => Some(Value::Bool(b)),
                _ => None,
            },
        ),
        Value::Jsonb(_) => {
            let whole = Value::Text(t);
            match facts.ask_one(Task::ParseJson, &whole) {
                Ok(Value::Jsonb(j)) => Ok(Some(Value::Jsonb(j))),
                Ok(_) => Ok(None),
                Err(h) => Err(h),
            }
        },
        _ => Ok(None),
    }
}

/// The pair that is compared for `l` and `r`: a text beside a typed value is
/// read as that type where it can be.
pub open spec fn unified(l: Val, r: Val, k: Known) -> Result<(Val, Val), Stop> {
    match (l, r) {
        (Val::Text(t), typed) => match resolved(t, typed, k) {
            Ok(Some(v)) => Ok((v, r)),
            Ok(None) => Ok((l, r)),
            Err(s) => Err(s),
        },
        (typed, Val::Text(t)) => match resolved(t, typed, k) {
            Ok(Some(v)) => Ok((l, v)),
            Ok(None) => Ok((l, r)),
            Err(s) => Err(s),
        },
        _ => Ok((l, r)),
    }
}

/// What a pair result stands for.
pub open spec fn pair_outcome(r: Result<(Value, Value), Halt>) -> Result<(Val, Val), Stop> {
    match r {
        Ok((a, b)) => Ok((a@, b@)),
        Err(h) => Err(h@),
    }
}

/// Resolves an untyped text operand against a typed one, the way PostgreSQL
/// resolves an unknown-typed literal to the other operand's type (`5 = '5'`,
/// `flag = 't'`, `doc = '{"a":1}'`). Text that doesn't parse is left as is.
pub fn unify_for_comparison(l: Value, r: Value, facts: &Facts) -> (res: Result<
    (Value, Value),
    Halt,
>)
    ensures
        pair_outcome(res) == unified(l@, r@, facts@),
{
    let found = match (&l, &r) {
        (Value::Text(t), typed) => match resolve(t.as_str(), typed, facts) {
            Ok(Some(v)) => (Some(v), None),
            Ok(None) => (None, None),
            Err(h) => return Err(h),
        },
        (typed, Value::Text(t)) => match resolve(t.as_str(), typed, facts) {
            Ok(Some(v)) => (None, Some(v)),
            Ok(None) => (None, None),
            Err(h) => return Err(h),
        },
        _ => (None, None),
    };
    match found {
        (Some(v), _) => Ok((v, r)),
        (None, Some(v)) => Ok((l, v)),
        (None, None) => Ok((l, r)),
    }
}

/// Whether a rank satisfies a comparison.
pub open spec fn rank_holds(op: ScalarBinaryOp, rank: Rank) -> bool {
    match op {
        ScalarBinaryOp::Eq => rank == Rank::Equal,
        ScalarBinaryOp::NotEq => rank != Rank::Equal,
        ScalarBinaryOp::Lt => rank == Rank::Less,
        ScalarBinaryOp::LtEq => rank != Rank::Greater,
        ScalarBinaryOp::Gt => rank == Rank::Greater,
        _ => rank != Rank::Less,
    }
}

/// Comparing two values that are not NULL.
pub open spec fn compared(op: ScalarBinaryOp, l: Val, r: Val, k: Known) -> Result<Val, Stop> {
    match unified(l, r, k) {
        Err(s) => Err(s),
        Ok((a, b)) => match ordered_with_intervals(a, b, k) {
            Err(s) => Err(s),
            Ok(rank) => Ok(Val::Bool(rank_holds(op, rank))),
        },
    }
}

fn apply_comparison(op: ScalarBinaryOp, l: Value, r: Value, facts: &Facts) -> (res: Result<
    Value,
    Halt,
>)
    ensures
        outcome(res) == compared(op, l@, r@, facts@),
{
    let (a, b) = match unify_for_comparison(l, r, facts) {
        Ok(p) => p,
        Err(h) => return Err(h),
    };
    let rank = match interval_aware_compare(&a, &b, facts) {
        Ok(x) => x,
        Err(h) => return Err(h),
    };
    Ok(
        Value::Bool(
            match op {
                ScalarBinaryOp::Eq => rank == Rank::Equal,
                ScalarBinaryOp::NotEq => rank != Rank::Equal,
                ScalarBinaryOp::Lt => rank == Rank::Less,
                ScalarBinaryOp::LtEq => rank != Rank::Greater,
                ScalarBinaryOp::Gt => rank == Rank::Greater,
                _ => rank != Rank::Less,
            },
        ),
    )
}

// ---------------------------------------------------------------------------
// Concatenation and logic
// ---------------------------------------------------------------------------

/// `||`: arrays and elements are joined into an array, other values as text.
pub open spec fn concatenated(l: Val, r: Val, k: Known) -> Result<Val, Stop> {
    match (l, r) {
        (Val::Array(a), Val::Array(b)) => Ok(Val::Array(a + b)),
        (Val::Array(a), _) => Ok(Val::Array(a.push(r))),
        (_, Val::Array(b)) => Ok(Val::Array(seq![l] + b)),
        _ => if l == Val::Null || r == Val::Null {
            Ok(Val::Null)
        } else {
            match shown(l, k) {
                Err(s) => Err(s),
                Ok(a) => match shown(r, k) {
                    Err(s) => Err(s),
                    Ok(b) => Ok(Val::Text(a + b)),
                },
            }
        },
    }
}

fn push_values(out: &mut Vec<Value>, more: &Vec<Value>)
    ensures
        vals(final(out)@) == vals(old(out)@) + vals(more@),
{
    let ghost start = out@;
    let mut i: usize = 0;
    assert(vals(out@) =~= vals(start) + vals(more@).take(0));
    while i < more.len()
        invariant
            i <= more@.len(),
            vals(out@) == vals(start) + vals(more@).take(i as int),
        decreases more@.len() - i,
    {
        let ghost before = out@;
        out.push(more[i].duplicate());
        assert(vals(out@) =~= vals(before).push(more@[i as int]@));
        i = i + 1;
        assert(vals(out@) =~= vals(start) + vals(more@).take(i as int));
    }
    assert(vals(more@).take(i as int) =~= vals(more@));
}

fn apply_concat(l: Value, r: Value, facts: &Facts) -> (res: Result<Value, Halt>)
    ensures
        outcome(res) == concatenated(l@, r@, facts@),
{
    broadcast use group_value_views;

    match (&l, &r) {
        (Value::Array(a), Value::Array(b)) => {
            let mut out = clone_values(a);
            push_values(&mut out, b);
            return Ok(Value::Array(out));
        },
        (Value::Array(a), elem) => {
            let mut out = clone_values(a);
            let ghost before = out@;
            out.push(elem.duplicate());
            assert(vals(out@) =~= vals(before).push(r@));
            return Ok(Value::Array(out));
        },
        (elem, Value::Array(b)) => {
            let mut out: Vec<Value> = Vec::new();
            out.push(elem.duplicate());
            assert(vals(out@) =~= seq![l@]);
            push_values(&mut out, b);
            return Ok(Value::Array(out));
        },
        _ => {},
    }
    if l.is_null() || r.is_null() {
        return Ok(Value::Null);
    }
    let a = match render(&l, facts) {
        Ok(t) => t,
        Err(h) => return Err(h),
    };
    let b = match render(&r, facts) {
        Ok(t) => t,
        Err(h) => return Err(h),
    };
    Ok(Value::Text(concat2(a.as_str(), b.as_str())))
}

/// A truth value: true, false, or (`None`) unknown.
pub open spec fn truth(v: Val) -> Option<Option<bool>> {
    match v {
        Val::Bool(b) => Some(Some(b)),
        Val::Null => Some(None),
        _ => None,
    }
}

/// Three-valued conjunction.
pub open spec fn and3(a: Option<bool>, b: Option<bool>) -> Option<bool> {
    if a == Some(false) || b == Some(false) {
        Some(false)
    } else if a == Some(true) && b == Some(true) {
        Some(true)
    } else {
        None
    }
}

/// Three-valued disjunction.
pub open spec fn or3(a: Option<bool>, b: Option<bool>) -> Option<bool> {
    if a == Some(true) || b == Some(true) {
        Some(true)
    } else if a == Some(false) && b == Some(false) {
        Some(false)
    } else {
        None
    }
}

/// Three-valued negation.
pub open spec fn not3(a: Option<bool>) -> Option<bool> {
    match a {
        Some(b) => Some(!b),
        None => None,
    }
}

/// A truth value as a SQL value.
pub open spec fn truth_val(t: Option<bool>) -> Val {
    match t {
        Some(b) => Val::Bool(b),
        None => Val::Null,
    }
}

/// `AND` and `OR`; NULL for operands that are no truth values.
pub open spec fn logical(and: bool, l: Val, r: Val) -> Val {
    match (truth(l), truth(r)) {
        (Some(a), Some(b)) => truth_val(
            if and {
                and3(a, b)
            } else {
                or3(a, b)
            },
        ),
        _ => Val::Null,
    }
}

fn apply_logic(and: bool, l: &Value, r: &Value) -> (res: Value)
    ensures
        res@ == logical(and, l@, r@),
{
    let a: Option<bool> = match l {
        Value::Bool(b) => Some(*b),
        Value::Null => None,
        _ => return Value::Null,
    };
    let b: Option<bool> = match r {
        Value::Bool(b) => Some(*b),
        Value::Null => None,
        _ => return Value::Null,
    };
    if and {
        match (a, b) {
            (Some(false), _) => Value::Bool(false),
            (_, Some(false)) => Value::Bool(false),
            (Some(true), Some(true)) => Value::Bool(true),
            _ => Value::Null,
        }
    } else {
        match (a, b) {
            (Some(true), _) => Value::Bool(true),
            (_, Some(true)) => Value::Bool(true),
            (Some(false), Some(false)) => Value::Bool(false),
            _ => Value::Null,
        }
    }
}

// ---------------------------------------------------------------------------
// Binary operators
// ---------------------------------------------------------------------------

/// What a binary operator makes of two values.
#[verifier::opaque]
pub open spec fn binary_op(op: ScalarBinaryOp, l: Val, r: Val, k: Known) -> Result<Val, Stop> {
    let null = l == Val::Null || r == Val::Null;
    match op {
        ScalarBinaryOp::Add
        | ScalarBinaryOp::Sub
        | ScalarBinaryOp::Mul
        | ScalarBinaryOp::Div
        | ScalarBinaryOp::Mod => if null {
            Ok(Val::Null)
        } else {
            match (l, r) {
                (Val::Int(a), Val::Int(b)) => int_arithmetic(op, a, b),
                _ => if is_number(l) && is_number(r) {
                    float_arithmetic(op, l, r, k)
                } else {
                    date_arithmetic(op, l, r, k)
                },
            }
        },
        ScalarBinaryOp::Eq
        | ScalarBinaryOp::NotEq
        | ScalarBinaryOp::Lt
        | ScalarBinaryOp::LtEq
        | ScalarBinaryOp::Gt
        | ScalarBinaryOp::GtEq => if null {
            Ok(Val::Null)
        } else {
            compared(op, l, r, k)
        },
        ScalarBinaryOp::Concat => concatenated(l, r, k),
        ScalarBinaryOp::And => Ok(logical(true, l, r)),
        ScalarBinaryOp::Or => Ok(logical(false, l, r)),
        ScalarBinaryOp::JsonGet
        | ScalarBinaryOp::JsonGetText
        | ScalarBinaryOp::JsonPath
        | ScalarBinaryOp::JsonPathText
        | ScalarBinaryOp::JsonHasKey
        | ScalarBinaryOp::JsonHasAnyKey
        | ScalarBinaryOp::JsonHasAllKeys
        | ScalarBinaryOp::Contains
        | ScalarBinaryOp::ContainedBy
        | ScalarBinaryOp::Overlap => if null {
            Ok(Val::Null)
        } else {
            json_array_op(op, l, r, k)
        },
    }
}

/// Applies a binary operator to two values with SQL NULL propagation and
/// three-valued logic; type-invalid combinations yield `Null`.
pub fn apply_binary_op(op: ScalarBinaryOp, l: Value, r: Value, facts: &Facts) -> (res: Result<
    Value,
    Halt,
>)
    ensures
        outcome(res) == binary_op(op, l@, r@, facts@),
{
    reveal(binary_op);
    match op {
        ScalarBinaryOp::Add
        | ScalarBinaryOp::Sub
        | ScalarBinaryOp::Mul
        | ScalarBinaryOp::Div
        | ScalarBinaryOp::Mod => {
            if l.is_null() || r.is_null() {
                return Ok(Value::Null);
            }
            if let (Value::Int(a), Value::Int(b)) = (&l, &r) {
                return apply_int_arithmetic(op, *a, *b);
            }
            if number(&l) && number(&r) {
                apply_float_arithmetic(op, &l, &r, facts)
            } else {
                interval_date_arith(op, &l, &r, facts)
            }
        },
        ScalarBinaryOp::Eq
        | ScalarBinaryOp::NotEq
        | ScalarBinaryOp::Lt
        | ScalarBinaryOp::LtEq
        | ScalarBinaryOp::Gt
        | ScalarBinaryOp::GtEq => {
            if l.is_null() || r.is_null() {
                return Ok(Value::Null);
            }
            apply_comparison(op, l, r, facts)
        },
        ScalarBinaryOp::Concat => apply_concat(l, r, facts),
        ScalarBinaryOp::And => Ok(apply_logic(true, &l, &r)),
        ScalarBinaryOp::Or => Ok(apply_logic(false, &l, &r)),
        ScalarBinaryOp::JsonGet
        | ScalarBinaryOp::JsonGetText
        | ScalarBinaryOp::JsonPath
        | ScalarBinaryOp::JsonPathText
        | ScalarBinaryOp::JsonHasKey
        | ScalarBinaryOp::JsonHasAnyKey
        | ScalarBinaryOp::JsonHasAllKeys
        | ScalarBinaryOp::Contains
        | ScalarBinaryOp::ContainedBy
        | ScalarBinaryOp::Overlap => {
            if l.is_null() || r.is_null() {
                return Ok(Value::Null);
            }
            apply_json_array_op(op, &l, &r, facts)
        },
    }
}

/// Every operator but `AND`, `OR`, and `||` yields NULL when an operand is
/// NULL.
pub proof fn law_null_propagates(op: ScalarBinaryOp, v: Val, k: Known)
    requires
        !(op is And) && !(op is Or) && !(op is Concat),
    ensures
        binary_op(op, Val::Null, v, k) == Ok::<Val, Stop>(Val::Null),
        binary_op(op, v, Val::Null, k) == Ok::<Val, Stop>(Val::Null),
{
    reveal(binary_op);
}

/// De Morgan's laws hold in three-valued logic, and `AND` and `OR` commute.
pub proof fn law_three_valued_logic(a: Option<bool>, b: Option<bool>)
    ensures
        not3(and3(a, b)) == or3(not3(a), not3(b)),
        not3(or3(a, b)) == and3(not3(a), not3(b)),
        and3(a, b) == and3(b, a),
        or3(a, b) == or3(b, a),
        not3(not3(a)) == a,
{
}

/// Of the two strict comparisons and equality, exactly one holds between two
/// integers, and each non-strict comparison is the negation of the opposite
/// strict one.
pub proof fn law_integer_comparisons(a: i64, b: i64, k: Known)
    ensures
        compared(ScalarBinaryOp::Lt, Val::Int(a), Val::Int(b), k) == Ok::<Val, Stop>(
            Val::Bool(a < b),
        ),
        compared(ScalarBinaryOp::Eq, Val::Int(a), Val::Int(b), k) == Ok::<Val, Stop>(
            Val::Bool(a == b),
        ),
        compared(ScalarBinaryOp::GtEq, Val::Int(a), Val::Int(b), k) == Ok::<Val, Stop>(
            Val::Bool(a >= b),
        ),
{
}

// ---------------------------------------------------------------------------
// ANY and ALL
// ---------------------------------------------------------------------------

/// The values of nested arrays, in order.
pub open spec fn flat(items: Seq<Val>) -> Seq<Val>
    decreases items,
{
    if items.len() == 0 {
        Seq::empty()
    } else {
        (match items[0] {
            Val::Array(inner) => flat(inner),
            v => seq![v],
        }) + flat(items.skip(1))
    }
}

fn flatten(items: &Vec<Value>, out: &mut Vec<Value>)
    ensures
        vals(final(out)@) == vals(old(out)@) + flat(vals(items@)),
    decreases items,
{
    broadcast use group_value_views;

    let ghost start = out@;
    let ghost all = vals(items@);
    let mut i: usize = 0;
    assert(all.skip(0) =~= all);
    while i < items.len()
        invariant
            i <= items@.len(),
            all == vals(items@),
            vals(out@) + flat(all.skip(i as int)) == vals(start) + flat(all),
        decreases items@.len() - i,
    {
        let ghost before = out@;
        assert(all.skip(i as int)[0] == items@[i as int]@);
        assert(all.skip(i as int).skip(1) =~= all.skip(i + 1));
        assert(decreases_to!(items@ => items@[i as int]));
        match &items[i] {
            Value::Array(inner) => {
                flatten(inner, out);
                proof {
                    crate::value::lemma_array_view(*inner);
                }
                assert(items@[i as int] == Value::Array(*inner));
                assert(items@[i as int]@ == Val::Array(vals(inner@)));
                assert(flat(all.skip(i as int)) == flat(vals(inner@)) + flat(all.skip(i + 1)));
                assert(vals(out@) + flat(all.skip(i + 1)) =~= vals(before) + (flat(vals(inner@))
                    + flat(all.skip(i + 1))));
            },
            v => {
                out.push(v.duplicate());
                assert(vals(out@) =~= vals(before).push(v@));
                assert(flat(all.skip(i as int)) == seq![v@] + flat(all.skip(i + 1)));
                assert(vals(out@) + flat(all.skip(i + 1)) =~= vals(before) + (seq![v@] + flat(
                    all.skip(i + 1),
                )));
            },
        }
        i = i + 1;
    }
    assert(all.skip(i as int).len() == 0);
    assert(vals(out@) + Seq::<Val>::empty() =~= vals(out@));
}

/// Comparing `left` with each of the items: the first that is true (for ANY)
/// or false (for ALL) decides; otherwise an unknown comparison makes the
/// result NULL.
pub open spec fn quantified(
    op: ScalarBinaryOp,
    left: Val,
    items: Seq<Val>,
    all: bool,
    unknown: bool,
    k: Known,
) -> Result<Val, Stop>
    decreases items.len(),
{
    if items.len() == 0 {
        Ok(
            if unknown {
                Val::Null
            } else {
                Val::Bool(all)
            },
        )
    } else {
        match binary_op(op, left, items[0], k) {
            Err(s) => Err(s),
            Ok(Val::Bool(b)) => if b != all {
                Ok(Val::Bool(b))
            } else {
                quantified(op, left, items.skip(1), all, unknown, k)
            },
            Ok(_) => quantified(op, left, items.skip(1), all, true, k),
        }
    }
}

/// `left <op> ANY|ALL (right)`.
pub open spec fn any_or_all(op: ScalarBinaryOp, left: Val, right: Val, all: bool, k: Known) -> Result<
    Val,
    Stop,
> {
    match right {
        Val::Array(items) => quantified(op, left, flat(items), all, false, k),
        Val::Text(_) => match asked(k, on_one(TaskView::ArrayLiteral, right)) {
            Ok(Val::Array(items)) => quantified(op, left, flat(items), all, false, k),
            Ok(_) => Ok(Val::Null),
            Err(s) => Err(s),
        },
        _ => Ok(Val::Null),
    }
}

/// `left <op> ANY|ALL (array)`: ANY is true on any true comparison, ALL false
/// on any false one; otherwise an unknown comparison makes the result NULL.
/// Array text (`'{1,2}'`) is accepted as the array operand.
pub fn quantified_compare(
    op: ScalarBinaryOp,
    left: Value,
    right: Value,
    all: bool,
    facts: &Facts,
) -> (r: Result<Value, Halt>)
    ensures
        outcome(r) == any_or_all(op, left@, right@, all, facts@),
{
    broadcast use group_value_views;

    let items = match right {
        Value::Array(items) => items,
        Value::Text(t) => {
            let text = Value::Text(t);
            match facts.ask_one(Task::ArrayLiteral, &text) {
                Ok(Value::Array(items)) => items,
                Ok(_) => return Ok(Value::Null),
                Err(h) => return Err(h),
            }
        },
        _ => return Ok(Value::Null),
    };
    let mut list: Vec<Value> = Vec::new();
    flatten(&items, &mut list);
    assert(vals(list@) =~= flat(vals(items@)));
    quantify(op, &left, &list, all, facts)
}

fn quantify(op: ScalarBinaryOp, left: &Value, list: &Vec<Value>, all: bool, facts: &Facts) -> (r:
    Result<Value, Halt>)
    ensures
        outcome(r) == quantified(op, left@, vals(list@), all, false, facts@),
{
    let ghost items = vals(list@);
    let mut unknown: bool = false;
    let mut i: usize = 0;
    assert(items.skip(0) =~= items);
    while i < list.len()
        invariant
            i <= list@.len(),
            vals(list@) == items,
            quantified(op, left@, items, all, false, facts@) == quantified(
                op,
                left@,
                items.skip(i as int),
                all,
                unknown,
                facts@,
            ),
        decreases list@.len() - i,
    {
        assert(items.skip(i as int)[0] == list@[i as int]@);
        assert(items.skip(i as int).skip(1) =~= items.skip(i + 1));
        match apply_binary_op(op, left.duplicate(), list[i].duplicate(), facts) {
            Err(h) => {
                return Err(h);
            },
            Ok(Value::Bool(b)) => {
                if b != all {
                    return Ok(Value::Bool(b));
                }
            },
            Ok(_) => {
                unknown = true;
            },
        }
        i = i + 1;
    }
    if unknown {
        Ok(Value::Null)
    } else {
        Ok(Value::Bool(all))
    }
}

/// The first comparison that is true decides `ANY`, and the first that is
/// false decides `ALL`, whatever is unknown before it and whatever follows.
pub proof fn law_any_all_decided(
    op: ScalarBinaryOp,
    left: Val,
    items: Seq<Val>,
    all: bool,
    unknown: bool,
    k: Known,
    n: int,
)
    requires
        0 <= n < items.len(),
        binary_op(op, left, items[n], k) == Ok::<Val, Stop>(Val::Bool(!all)),
        forall|i: int|
            0 <= i < n ==> (#[trigger] binary_op(op, left, items[i], k)) is Ok && binary_op(
                op,
                left,
                items[i],
                k,
            ) != Ok::<Val, Stop>(Val::Bool(!all)),
    ensures
        quantified(op, left, items, all, unknown, k) == Ok::<Val, Stop>(Val::Bool(!all)),
    decreases n,
{
    if n > 0 {
        let rest = items.skip(1);
        let first = binary_op(op, left, items[0], k);
        assert forall|i: int| 0 <= i < n - 1 implies (#[trigger] binary_op(op, left, rest[i], k))
            is Ok && binary_op(op, left, rest[i], k) != Ok::<Val, Stop>(Val::Bool(!all)) by {
            assert(rest[i] == items[i + 1]);
        }
        law_any_all_decided(op, left, rest, all, unknown, k, n - 1);
        law_any_all_decided(op, left, rest, all, true, k, n - 1);
    }
}

} // verus!
