//! Writing out the columns and rows of system tables.
//!
//! A list of columns is written `name:TYPE|name:TYPE`, and a list of constant
//! cells `0|true|null|'text`.
use vstd::prelude::*;

use crate::join::{Rel, Relation};
use crate::text::{
    chars_of, parse_int, parsed_int, same_text, split, split_once, split_once_text, split_text,
    text_between, texts,
};
use crate::value::{group_value_views, rows_view, vals, Val, Value};

verus! {

broadcast use group_value_views;

/// The bits of the floating-point number one.
pub const ONE_BITS: u64 = 0x3ff0_0000_0000_0000;

/// The constant a cell's text writes.
pub open spec fn constant_cell(t: Seq<char>) -> Val {
    if t == "null"@ {
        Val::Null
    } else if t == "true"@ {
        Val::Bool(true)
    } else if t == "false"@ {
        Val::Bool(false)
    } else if t == "0.0"@ {
        Val::Float(0)
    } else if t == "1.0"@ {
        Val::Float(ONE_BITS)
    } else if t == "[]"@ {
        Val::Array(Seq::empty())
    } else if t.len() > 0 && t[0] == '\'' {
        Val::Text(t.skip(1))
    } else {
        match parsed_int(t) {
            Some(i) => Val::Int(i),
            None => Val::Text(t),
        }
    }
}

/// The constant a cell writes.
pub fn read_constant(t: &str) -> (r: Value)
    ensures
        r@ == constant_cell(t@),
{
    if same_text(t, "null") {
        return Value::Null;
    }
    if same_text(t, "true") {
        return Value::Bool(true);
    }
    if same_text(t, "false") {
        return Value::Bool(false);
    }
    if same_text(t, "0.0") {
        return Value::Float(0);
    }
    if same_text(t, "1.0") {
        return Value::Float(ONE_BITS);
    }
    if same_text(t, "[]") {
        let none: Vec<Value> = Vec::new();
        assert(vals(none@) =~= Seq::<Val>::empty());
        return Value::Array(none);
    }
    let chars = chars_of(t);
    if chars.len() > 0 && chars[0] == '\'' {
        let rest = text_between(&chars, 1, chars.len());
        assert(rest@ =~= t@.skip(1));
        return Value::Text(rest);
    }
    match parse_int(t) {
        Some(i) => Value::Int(i),
        None => Value::Text(t.to_owned()),
    }
}

/// The name of a listed column.
pub open spec fn listed_name(part: Seq<char>) -> Seq<char> {
    match split_once(part, ':') {
        Some((name, _)) => name,
        None => part,
    }
}

/// The type of a listed column.
pub open spec fn listed_type(part: Seq<char>) -> Seq<char> {
    match split_once(part, ':') {
        Some((_, t)) => t,
        None => "TEXT"@,
    }
}

/// The names of a list of columns.
pub open spec fn listed_names(list: Seq<char>) -> Seq<Seq<char>> {
    Seq::new(split(list, '|').len(), |i: int| listed_name(split(list, '|')[i]))
}

/// The types of a list of columns.
pub open spec fn listed_types(list: Seq<char>) -> Seq<Seq<char>> {
    Seq::new(split(list, '|').len(), |i: int| listed_type(split(list, '|')[i]))
}

/// A system table: its columns as listed, and its rows.
pub open spec fn system_table(list: Seq<char>, rows: Seq<Seq<Val>>) -> Rel {
    Rel { columns: listed_names(list), types: listed_types(list), rows }
}

/// A system table: its columns as listed, and its rows.
pub fn make_table(list: &str, rows: Vec<Vec<Value>>) -> (r: Relation)
    ensures
        r@ == system_table(list@, rows_view(rows@)),
{
    let parts = split_text(list, '|');
    let mut columns: Vec<String> = Vec::new();
    let mut types: Vec<String> = Vec::new();
    let mut i: usize = 0;
    while i < parts.len()
        invariant
            i <= parts@.len(),
            columns@.len() == i,
            types@.len() == i,
            forall|j: int| 0 <= j < i ==> (#[trigger] columns@[j])@ == listed_name(parts@[j]@),
            forall|j: int| 0 <= j < i ==> (#[trigger] types@[j])@ == listed_type(parts@[j]@),
        decreases parts@.len() - i,
    {
        match split_once_text(parts[i].as_str(), ':') {
            Some((name, t)) => {
                columns.push(name);
                types.push(t);
            },
            None => {
                columns.push(parts[i].clone());
                types.push("TEXT".to_owned());
            },
        }
        i = i + 1;
    }
    assert(texts(parts@).len() == parts@.len());
    assert(texts(columns@) =~= listed_names(list@));
    assert(texts(types@) =~= listed_types(list@));
    Relation { columns, types, rows }
}

/// Appends a cell to a row.
pub fn add_value(row: &mut Vec<Value>, v: Value)
    ensures
        vals(final(row)@) == vals(old(row)@).push(v@),
{
    let ghost before = row@;
    row.push(v);
    assert(vals(row@) =~= vals(before).push(v@));
}

/// Appends an integer to a row.
pub fn add_int(row: &mut Vec<Value>, n: i64)
    ensures
        vals(final(row)@) == vals(old(row)@).push(Val::Int(n)),
{
    add_value(row, Value::Int(n));
}

/// Appends a text to a row.
pub fn add_text(row: &mut Vec<Value>, t: &str)
    ensures
        vals(final(row)@) == vals(old(row)@).push(Val::Text(t@)),
{
    add_value(row, Value::Text(t.to_owned()));
}

/// Appends a truth value to a row.
pub fn add_bool(row: &mut Vec<Value>, b: bool)
    ensures
        vals(final(row)@) == vals(old(row)@).push(Val::Bool(b)),
{
    add_value(row, Value::Bool(b));
}

/// A row without cells.
pub open spec fn no_cells() -> Seq<Val> {
    Seq::empty()
}

/// A row without cells.
pub fn new_row() -> (r: Vec<Value>)
    ensures
        vals(r@) == no_cells(),
{
    let out: Vec<Value> = Vec::new();
    assert(vals(out@) =~= no_cells());
    out
}

/// Appends a row.
pub fn add_row(rows: &mut Vec<Vec<Value>>, row: Vec<Value>)
    ensures
        rows_view(final(rows)@) == rows_view(old(rows)@).push(vals(row@)),
{
    let ghost before = rows@;
    rows.push(row);
    assert(rows_view(rows@) =~= rows_view(before).push(vals(row@)));
}

/// A table without rows.
pub open spec fn no_rows() -> Seq<Seq<Val>> {
    Seq::empty()
}

/// A table without rows.
pub fn new_rows() -> (r: Vec<Vec<Value>>)
    ensures
        rows_view(r@) == no_rows(),
{
    let out: Vec<Vec<Value>> = Vec::new();
    assert(rows_view(out@) =~= no_rows());
    out
}

} // verus!
