//! Casting values to SQL types.
use vstd::prelude::*;
use crate::facts::{
    asked, described, list_outcome, on_one, outcome, ColumnType, Facts, Halt, Known, Stop, Task,
    TaskView, TypeInfo, TypeInfoView,
};
use crate::render::{answered_text, render, shown};
use crate::scalar_ops::{bool_of_text, float_finite, parse_bool_text};
use crate::text::{
    concat2, concat3, parse_int, parsed_int, push_text, same_text, trim_text, trimmed, upper,
    upper_text,
};
use crate::value::{group_value_views, vals, Json, JsonView, Val, Value};

verus! {

/// Whether a text is a JSON document.
pub uninterp spec fn is_json(s: Seq<char>) -> bool;

/// `serde_json::from_str` into a `serde_json::Value`: whether it succeeds
/// depends on the text alone.
#[verifier::external_body]
fn json_valid(s: &str) -> (r: bool)
    ensures
        r == is_json(s@),
{
    serde_json::from_str::<serde_json::Value>(s).is_ok()
}

/// The hyphenated form of the UUID that a text writes, if it writes one.
pub uninterp spec fn uuid_of(s: Seq<char>) -> Option<Seq<char>>;

/// `uuid::Uuid::parse_str`, then `Uuid::hyphenated`: the outcome depends on
/// the text alone.
#[verifier::external_body]
fn uuid_text(s: &str) -> (r: Option<String>)
    ensures
        crate::text::opt_text(r) == uuid_of(s@),
{
    uuid::Uuid::parse_str(s).ok().map(|u| u.hyphenated().to_string())
}

/// The message for text that a type does not take.
pub open spec fn invalid_input(shown_type: Seq<char>, text: Seq<char>) -> Stop {
    Stop::Raised(
        "invalid input syntax for type "@ + shown_type + ": \""@ + text + "\""@,
    )
}

fn invalid(info: &TypeInfo, text: &str) -> (r: Halt)
    ensures
        r@ == invalid_input(info@.shown, text@),
{
    let mut m = concat3("invalid input syntax for type ", info.shown.as_str(), ": \"");
    push_text(&mut m, text);
    push_text(&mut m, "\"");
    Halt::Raised(m)
}

/// A JSON scalar as the value it casts as.
pub open spec fn json_scalar(v: Val, category: ColumnType) -> Val {
    match v {
        Val::Jsonb(JsonView::Null) => Val::Null,
        Val::Jsonb(JsonView::Number(n)) => if category != ColumnType::Text {
            Val::Text(n)
        } else {
            v
        },
        Val::Jsonb(JsonView::Bool(b)) => if category == ColumnType::Bool {
            Val::Bool(b)
        } else {
            v
        },
        _ => v,
    }
}

/// Casting to an integer type.
pub open spec fn cast_int(v: Val, shown_type: Seq<char>, k: Known) -> Result<Val, Stop> {
    match v {
        Val::Int(_) => Ok(v),
        Val::Float(b) => if float_finite(b) {
            asked(k, on_one(TaskView::RoundToInt, v))
        } else {
            Err(Stop::Raised(shown_type + " out of range"@))
        },
        Val::Bool(b) => Ok(
            Val::Int(
                if b {
                    1
                } else {
                    0
                },
            ),
        ),
        Val::Text(s) => match parsed_int(trimmed(s)) {
            Some(i) => Ok(Val::Int(i)),
            None => Err(invalid_input(shown_type, s)),
        },
        _ => match shown(v, k) {
            Ok(t) => Err(invalid_input(shown_type, t)),
            Err(s) => Err(s),
        },
    }
}

/// The bits of the floating-point number one.
pub const FLOAT_ONE: u64 = 0x3ff0_0000_0000_0000;

/// Casting to a floating-point or numeric type.
pub open spec fn cast_float(v: Val, shown_type: Seq<char>, k: Known) -> Result<Val, Stop> {
    match v {
        Val::Float(_) => Ok(v),
        Val::Int(_) => asked(k, on_one(TaskView::ToFloat, v)),
        Val::Bool(b) => Ok(
            Val::Float(
                if b {
                    FLOAT_ONE
                } else {
                    0
                },
            ),
        ),
        Val::Text(s) => match asked(k, on_one(TaskView::ToFloat, Val::Text(trimmed(s)))) {
            Ok(Val::Float(b)) => Ok(Val::Float(b)),
            Ok(_) => Err(invalid_input(shown_type, s)),
            Err(e) => Err(e),
        },
        _ => match shown(v, k) {
            Ok(t) => Err(invalid_input(shown_type, t)),
            Err(s) => Err(s),
        },
    }
}

/// Casting to a boolean.
pub open spec fn cast_bool(v: Val, shown_type: Seq<char>, k: Known) -> Result<Val, Stop> {
    match v {
        Val::Bool(_) => Ok(v),
        Val::Int(i) => Ok(Val::Bool(i != 0)),
        Val::Text(s) => match bool_of_text(s) {
            Some(b) => Ok(Val::Bool(b)),
            None => Err(invalid_input(shown_type, s)),
        },
        _ => match shown(v, k) {
            Ok(t) => Err(invalid_input(shown_type, t)),
            Err(s) => Err(s),
        },
    }
}

/// Casting to a type whose values are text.
pub open spec fn cast_text(v: Val, t: Seq<char>, info: TypeInfoView, k: Known) -> Result<
    Val,
    Stop,
> {
    let up = upper(trimmed(t));
    match v {
        Val::Bool(b) => Ok(
            Val::Text(
                if b {
                    "true"@
                } else {
                    "false"@
                },
            ),
        ),
        Val::Text(s) => if up == "JSON"@ || up == "JSONB"@ {
            if is_json(s) {
                Ok(v)
            } else {
                Err(invalid_input(info.shown, s))
            }
        } else if info.temporal {
            match asked(k, on_one(TaskView::NormalizeTemporal(t), v)) {
                Err(e) => Err(e),
                Ok(Val::Text(x)) => Ok(Val::Text(x)),
                Ok(_) => match asked(k, on_one(TaskView::LooksTemporal, v)) {
                    Err(e) => Err(e),
                    Ok(looks) => if looks == Val::Bool(true) {
                        Err(
                            Stop::Raised(
                                "date/time field value out of range: \""@ + s + "\""@,
                            ),
                        )
                    } else {
                        Err(invalid_input(info.shown, s))
                    },
                },
            }
        } else if up == "UUID"@ {
            match uuid_of(trimmed(s)) {
                Some(x) => Ok(Val::Text(x)),
                None => Err(invalid_input(info.shown, s)),
            }
        } else {
            Ok(v)
        },
        _ => match shown(v, k) {
            Ok(x) => Ok(Val::Text(x)),
            Err(s) => Err(s),
        },
    }
}

/// Casting a value that is not NULL to a type that is no array.
pub open spec fn cast_scalar(v: Val, t: Seq<char>, info: TypeInfoView, k: Known) -> Result<
    Val,
    Stop,
> {
    let w = json_scalar(v, info.category);
    if w == Val::Null {
        Ok(Val::Null)
    } else {
        match info.category {
            ColumnType::Int => cast_int(w, info.shown, k),
            ColumnType::Float => cast_float(w, info.shown, k),
            ColumnType::Bool => cast_bool(w, info.shown, k),
            ColumnType::Text => cast_text(w, t, info, k),
        }
    }
}

/// `v::t`. NULL stays NULL; the elements of an array are cast each.
pub open spec fn cast(v: Val, t: Seq<char>, k: Known) -> Result<Val, Stop>
    decreases v,
{
    if v == Val::Null {
        Ok(Val::Null)
    } else {
        match described(k.types, t) {
            None => Err(Stop::NeedsType(t)),
            Some(info) => match info.element {
                None => cast_scalar(v, t, info, k),
                Some(element) => match v {
                    Val::Array(items) => match cast_items(items, t, element, k) {
                        Ok(out) => Ok(Val::Array(out)),
                        Err(s) => Err(s),
                    },
                    Val::Text(s) => match asked(k, on_one(TaskView::ArrayOf(t), v)) {
                        Err(e) => Err(e),
                        Ok(x) => if x == Val::Null {
                            Err(Stop::Raised("malformed array literal: \""@ + s + "\""@))
                        } else {
                            Ok(x)
                        },
                    },
                    _ => match asked(k, on_one(TaskView::TypeName, v)) {
                        Err(e) => Err(e),
                        Ok(name) => Err(
                            Stop::Raised("cannot cast "@ + answered_text(name) + " to "@ + t),
                        ),
                    },
                },
            },
        }
    }
}

/// The elements of an array cast to its element type, nested arrays to the
/// array type itself.
pub open spec fn cast_items(items: Seq<Val>, t: Seq<char>, element: Seq<char>, k: Known) -> Result<
    Seq<Val>,
    Stop,
>
    decreases items,
{
    if items.len() == 0 {
        Ok(Seq::empty())
    } else {
        match cast_items(items.drop_last(), t, element, k) {
            Err(s) => Err(s),
            Ok(before) => match if items.last() is Array {
                cast(items.last(), t, k)
            } else {
                cast(items.last(), element, k)
            } {
                Ok(x) => Ok(before.push(x)),
                Err(s) => Err(s),
            },
        }
    }
}

proof fn lemma_cast_items_fail(
    items: Seq<Val>,
    n: int,
    t: Seq<char>,
    element: Seq<char>,
    k: Known,
)
    requires
        0 <= n <= items.len(),
        cast_items(items.take(n), t, element, k) is Err,
    ensures
        cast_items(items, t, element, k) == cast_items(items.take(n), t, element, k),
    decreases items.len() - n,
{
    if n == items.len() {
        assert(items.take(n) =~= items);
    } else {
        assert(items.take(n + 1).drop_last() =~= items.take(n));
        lemma_cast_items_fail(items, n + 1, t, element, k);
    }
}

fn try_cast_int(v: &Value, info: &TypeInfo, facts: &Facts) -> (r: Result<Value, Halt>)
    ensures
        outcome(r) == cast_int(v@, info@.shown, facts@),
{
    match v {
        Value::Int(i) => Ok(Value::Int(*i)),
        Value::Float(b) => {
            if *b & 0x7ff0_0000_0000_0000 != 0x7ff0_0000_0000_0000 {
                facts.ask_one(Task::RoundToInt, v)
            } else {
                Err(Halt::Raised(concat2(info.shown.as_str(), " out of range")))
            }
        },
        Value::Bool(b) => Ok(
            Value::Int(
                if *b {
                    1
                } else {
                    0
                },
            ),
        ),
        Value::Text(s) => {
            let bare = trim_text(s.as_str());
            match parse_int(bare.as_str()) {
                Some(i) => Ok(Value::Int(i)),
                None => Err(invalid(info, s.as_str())),
            }
        },
        _ => match render(v, facts) {
            Ok(t) => Err(invalid(info, t.as_str())),
            Err(h) => Err(h),
        },
    }
}

fn try_cast_float(v: &Value, info: &TypeInfo, facts: &Facts) -> (r: Result<Value, Halt>)
    ensures
        outcome(r) == cast_float(v@, info@.shown, facts@),
{
    match v {
        Value::Float(b) => Ok(Value::Float(*b)),
        Value::Int(_) => facts.ask_one(Task::ToFloat, v),
        Value::Bool(b) => Ok(
            Value::Float(
                if *b {
                    FLOAT_ONE
                } else {
                    0
                },
            ),
        ),
        Value::Text(s) => {
            let bare = Value::Text(trim_text(s.as_str()));
            match facts.ask_one(Task::ToFloat, &bare) {
                Ok(Value::Float(b)) => Ok(Value::Float(b)),
                Ok(_) => Err(invalid(info, s.as_str())),
                Err(h) => Err(h),
            }
        },
        _ => match render(v, facts) {
            Ok(t) => Err(invalid(info, t.as_str())),
            Err(h) => Err(h),
        },
    }
}

fn try_cast_bool(v: &Value, info: &TypeInfo, facts: &Facts) -> (r: Result<Value, Halt>)
    ensures
        outcome(r) == cast_bool(v@, info@.shown, facts@),
{
    match v {
        Value::Bool(b) => Ok(Value::Bool(*b)),
        Value::Int(i) => Ok(Value::Bool(*i != 0)),
        Value::Text(s) => match parse_bool_text(s.as_str()) {
            Value::Bool(b) => Ok(Value::Bool(b)),
            _ => Err(invalid(info, s.as_str())),
        },
        _ => match render(v, facts) {
            Ok(t) => Err(invalid(info, t.as_str())),
            Err(h) => Err(h),
        },
    }
}

fn try_cast_text(v: &Value, t: &str, info: &TypeInfo, facts: &Facts) -> (r: Result<Value, Halt>)
    ensures
        outcome(r) == cast_text(v@, t@, info@, facts@),
{
    let bare = trim_text(t);
    let up = upper_text(bare.as_str());
    match v {
        Value::Bool(b) => Ok(
            Value::Text(
                if *b {
                    "true".to_owned()
                } else {
                    "false".to_owned()
                },
            ),
        ),
        Value::Text(s) => {
            if same_text(up.as_str(), "JSON") || same_text(up.as_str(), "JSONB") {
                if json_valid(s.as_str()) {
                    Ok(v.duplicate())
                } else {
                    Err(invalid(info, s.as_str()))
                }
            } else if info.temporal {
                match facts.ask_one(Task::NormalizeTemporal(t.to_owned()), v) {
                    Err(h) => Err(h),
                    Ok(Value::Text(x)) => Ok(Value::Text(x)),
                    Ok(_) => match facts.ask_one(Task::LooksTemporal, v) {
                        Err(h) => Err(h),
                        Ok(Value::Bool(true)) => Err(
                            Halt::Raised(
                                concat3(
                                    "date/time field value out of range: \"",
                                    s.as_str(),
                                    "\"",
                                ),
                            ),
                        ),
                        Ok(_) => Err(invalid(info, s.as_str())),
                    },
                }
            } else if same_text(up.as_str(), "UUID") {
                let inner = trim_text(s.as_str());
                match uuid_text(inner.as_str()) {
                    Some(x) => Ok(Value::Text(x)),
                    None => Err(invalid(info, s.as_str())),
                }
            } else {
                Ok(v.duplicate())
            }
        },
        _ => match render(v, facts) {
            Ok(x) => Ok(Value::Text(x)),
            Err(h) => Err(h),
        },
    }
}

fn scalar_of_json(v: &Value, category: ColumnType) -> (r: Value)
    ensures
        r@ == json_scalar(v@, category),
{
    match v {
        Value::Jsonb(Json::Null) => Value::Null,
        Value::Jsonb(Json::Number(n)) => {
            if category != ColumnType::Text {
                Value::Text(n.clone())
            } else {
                v.duplicate()
            }
        },
        Value::Jsonb(Json::Bool(b)) => {
            if category == ColumnType::Bool {
                Value::Bool(*b)
            } else {
                v.duplicate()
            }
        },
        _ => v.duplicate(),
    }
}

fn try_cast_scalar(v: &Value, t: &str, info: &TypeInfo, facts: &Facts) -> (r: Result<Value, Halt>)
    ensures
        outcome(r) == cast_scalar(v@, t@, info@, facts@),
{
    let w = scalar_of_json(v, info.category);
    if w.is_null() {
        return Ok(Value::Null);
    }
    match info.category {
        ColumnType::Int => try_cast_int(&w, info, facts),
        ColumnType::Float => try_cast_float(&w, info, facts),
        ColumnType::Bool => try_cast_bool(&w, info, facts),
        ColumnType::Text => try_cast_text(&w, t, info, facts),
    }
}

/// Casts a value to the logical category of `t` (INT/FLOAT/BOOL/TEXT).
/// `Halt::Raised` describes input that is invalid for the type, for callers
/// that fall back to keeping the original value.
pub fn try_cast(v: &Value, t: &str, facts: &Facts) -> (r: Result<Value, Halt>)
    ensures
        outcome(r) == cast(v@, t@, facts@),
    decreases v,
{
    broadcast use group_value_views;

    if v.is_null() {
        return Ok(Value::Null);
    }
    let info = match facts.type_info(t) {
        Ok(info) => info,
        Err(h) => return Err(h),
    };
    match &info.element {
        None => try_cast_scalar(v, t, info, facts),
        Some(element) => match v {
            Value::Array(items) => match try_cast_items(items, t, element.as_str(), facts) {
                Ok(out) => Ok(Value::Array(out)),
                Err(h) => Err(h),
            },
            Value::Text(s) => match facts.ask_one(Task::ArrayOf(t.to_owned()), v) {
                Err(h) => Err(h),
                Ok(x) => {
                    if x.is_null() {
                        Err(
                            Halt::Raised(
                                concat3("malformed array literal: \"", s.as_str(), "\""),
                            ),
                        )
                    } else {
                        Ok(x)
                    }
                },
            },
            _ => match facts.ask_one(Task::TypeName, v) {
                Err(h) => Err(h),
                Ok(name) => {
                    let shown_name = match name {
                        Value::Text(n) => n,
                        _ => String::new(),
                    };
                    let mut m = concat3("cannot cast ", shown_name.as_str(), " to ");
                    push_text(&mut m, t);
                    Err(Halt::Raised(m))
                },
            },
        },
    }
}

fn try_cast_items(items: &Vec<Value>, t: &str, element: &str, facts: &Facts) -> (r: Result<
    Vec<Value>,
    Halt,
>)
    ensures
        list_outcome(r) == cast_items(vals(items@), t@, element@, facts@),
    decreases items,
{
    let ghost all = vals(items@);
    let mut out: Vec<Value> = Vec::new();
    let mut i: usize = 0;
    assert(all.take(0) =~= Seq::<Val>::empty());
    assert(vals(out@) =~= Seq::<Val>::empty());
    while i < items.len()
        invariant
            i <= items@.len(),
            all == vals(items@),
            cast_items(all.take(i as int), t@, element@, facts@) == Ok::<Seq<Val>, Stop>(
                vals(out@),
            ),
        decreases items@.len() - i,
    {
        assert(all.take(i + 1).drop_last() =~= all.take(i as int));
        assert(all.take(i + 1).last() == items@[i as int]@);
        assert(decreases_to!(items@ => items@[i as int]));
        let nested: bool = match &items[i] {
            Value::Array(_) => true,
            _ => false,
        };
        let next = if nested {
            try_cast(&items[i], t, facts)
        } else {
            try_cast(&items[i], element, facts)
        };
        match next {
            Ok(x) => {
                let ghost before = out@;
                out.push(x);
                assert(vals(out@) =~= vals(before).push(x@));
            },
            Err(h) => {
                proof {
                    lemma_cast_items_fail(all, i + 1, t@, element@, facts@);
                }
                return Err(h);
            },
        }
        i = i + 1;
    }
    assert(all.take(i as int) =~= all);
    Ok(out)
}

/// Casts a value to a type; input that is invalid for the type fails the
/// statement.
pub fn cast_value(v: Value, t: &str, facts: &Facts) -> (r: Result<Value, Halt>)
    ensures
        outcome(r) == cast(v@, t@, facts@),
{
    try_cast(&v, t, facts)
}

/// Casting NULL gives NULL, whatever the type.
pub proof fn law_cast_of_null(t: Seq<char>, k: Known)
    ensures
        cast(Val::Null, t, k) == Ok::<Val, Stop>(Val::Null),
{
}

} // verus!
