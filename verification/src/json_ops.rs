//! JSON access and existence operators, and array overlap.
use vstd::prelude::*;
use crate::facts::{asked, on_one, on_two, outcome, Facts, Halt, Known, Stop, Task, TaskView};
use crate::json_text::{compact, compact_text};
use crate::plan_types::ScalarBinaryOp;
use crate::render::{render, shown};
use crate::text::{parse_int, parsed_int, same_text, text_in, texts, trim_text, trimmed};
use crate::value::{
    clone_values, group_value_views, jsons, members, vals, Json, JsonView, Val, Value,
};

verus! {

/// The first member of that name.
pub open spec fn member(m: Seq<(Seq<char>, JsonView)>, key: Seq<char>) -> Option<JsonView>
    decreases m.len(),
{
    if m.len() == 0 {
        None
    } else if m[0].0 == key {
        Some(m[0].1)
    } else {
        member(m.skip(1), key)
    }
}

/// What an optional document stands for.
pub open spec fn opt_json(j: Option<Json>) -> Option<JsonView> {
    match j {
        Some(x) => Some(x@),
        None => None,
    }
}

pub fn find_member(m: &Vec<(String, Json)>, key: &str) -> (r: Option<Json>)
    ensures
        opt_json(r) == member(members(m@), key@),
{
    let mut i: usize = 0;
    let ghost all = members(m@);
    assert(all.skip(0) =~= all);
    while i < m.len()
        invariant
            i <= m@.len(),
            all == members(m@),
            member(all, key@) == member(all.skip(i as int), key@),
        decreases m@.len() - i,
    {
        assert(all.skip(i as int)[0] == all[i as int]);
        assert(all.skip(i as int).skip(1) =~= all.skip(i + 1));
        if same_text(m[i].0.as_str(), key) {
            return Some(m[i].1.duplicate());
        }
        i = i + 1;
    }
    None
}

/// The element position a key names: an integer, or text that writes one.
pub open spec fn index_key(key: Val) -> Option<i64> {
    match key {
        Val::Int(i) => Some(i),
        Val::Text(t) => parsed_int(trimmed(t)),
        _ => None,
    }
}

/// The element at a position, counted from the end if it is negative.
pub open spec fn element(items: Seq<JsonView>, i: int) -> Option<JsonView> {
    let at = if i < 0 {
        items.len() + i
    } else {
        i
    };
    if 0 <= at < items.len() {
        Some(items[at])
    } else {
        None
    }
}

/// One JSON access step: an object field by name, or an array element.
pub open spec fn step(j: JsonView, key: Val, k: Known) -> Result<Option<JsonView>, Stop> {
    match j {
        JsonView::Object(m) => match shown(key, k) {
            Ok(name) => Ok(member(m, name)),
            Err(s) => Err(s),
        },
        JsonView::Array(items) => Ok(
            match index_key(key) {
                Some(i) => element(items, i as int),
                None => None,
            },
        ),
        _ => Ok(None),
    }
}

/// What an optional document result stands for.
pub open spec fn json_outcome(r: Result<Option<Json>, Halt>) -> Result<Option<JsonView>, Stop> {
    match r {
        Ok(j) => Ok(opt_json(j)),
        Err(h) => Err(h@),
    }
}

/// One JSON access step: an object field by name, or an array element by
/// (possibly negative) integer index, given as an integer or numeric text.
pub fn json_step(json: &Json, key: &Value, facts: &Facts) -> (r: Result<Option<Json>, Halt>)
    ensures
        json_outcome(r) == step(json@, key@, facts@),
{
    broadcast use group_value_views;

    match json {
        Json::Object(m) => match render(key, facts) {
            Ok(name) => Ok(find_member(m, name.as_str())),
            Err(h) => Err(h),
        },
        Json::Array(items) => {
            assert(jsons(items@).len() == items@.len());
            let index: i64 = match key {
                Value::Int(i) => *i,
                Value::Text(t) => {
                    let bare = trim_text(t.as_str());
                    match parse_int(bare.as_str()) {
                        Some(i) => i,
                        None => return Ok(None),
                    }
                },
                _ => return Ok(None),
            };
            let n: i128 = items.len() as i128;
            let at: i128 = if index < 0 {
                n + index as i128
            } else {
                index as i128
            };
            if 0 <= at && at < n {
                let p: usize = at as usize;
                assert(jsons(items@)[p as int] == items@[p as int]@);
                Ok(Some(items[p].duplicate()))
            } else {
                Ok(None)
            }
        },
        _ => Ok(None),
    }
}

/// The result of an access: absent is NULL; as text, a JSON null is NULL, a
/// string is its characters, and any other document its text.
pub open spec fn accessed(j: Option<JsonView>, as_text: bool) -> Val {
    match j {
        None => Val::Null,
        Some(d) => if !as_text {
            Val::Jsonb(d)
        } else {
            match d {
                JsonView::Null => Val::Null,
                JsonView::Str(s) => Val::Text(s),
                _ => Val::Text(compact(d)),
            }
        },
    }
}

fn access_value(j: Option<Json>, as_text: bool) -> (r: Value)
    ensures
        r@ == accessed(opt_json(j), as_text),
{
    match j {
        None => Value::Null,
        Some(d) => {
            if !as_text {
                return Value::Jsonb(d);
            }
            match d {
                Json::Null => Value::Null,
                Json::Str(s) => Value::Text(s),
                other => Value::Text(compact_text(&other)),
            }
        },
    }
}

/// The texts of the values that are not NULL.
pub open spec fn shown_all(items: Seq<Val>, k: Known) -> Result<Seq<Seq<char>>, Stop>
    decreases items.len(),
{
    if items.len() == 0 {
        Ok(Seq::empty())
    } else {
        match shown_all(items.drop_last(), k) {
            Err(s) => Err(s),
            Ok(before) => if items.last() == Val::Null {
                Ok(before)
            } else {
                match shown(items.last(), k) {
                    Ok(t) => Ok(before.push(t)),
                    Err(s) => Err(s),
                }
            },
        }
    }
}

/// The elements of an array, or of the array a text writes; none otherwise.
pub open spec fn elements(v: Val, k: Known) -> Result<Seq<Val>, Stop> {
    match v {
        Val::Array(items) => Ok(items),
        Val::Text(_) => match asked(k, on_one(TaskView::ArrayLiteral, v)) {
            Ok(Val::Array(items)) => Ok(items),
            Ok(_) => Ok(Seq::empty()),
            Err(s) => Err(s),
        },
        _ => Ok(Seq::empty()),
    }
}

/// The texts of the elements of `v` that are not NULL.
pub open spec fn element_texts(v: Val, k: Known) -> Result<Seq<Seq<char>>, Stop> {
    match elements(v, k) {
        Ok(items) => shown_all(items, k),
        Err(s) => Err(s),
    }
}

/// What a texts result stands for.
pub open spec fn texts_outcome(r: Result<Vec<String>, Halt>) -> Result<Seq<Seq<char>>, Stop> {
    match r {
        Ok(t) => Ok(texts(t@)),
        Err(h) => Err(h@),
    }
}

proof fn lemma_shown_all_fails(items: Seq<Val>, n: int, k: Known)
    requires
        0 <= n <= items.len(),
        shown_all(items.take(n), k) is Err,
    ensures
        shown_all(items, k) == shown_all(items.take(n), k),
    decreases items.len() - n,
{
    if n == items.len() {
        assert(items.take(n) =~= items);
    } else {
        assert(items.take(n + 1).drop_last() =~= items.take(n));
        lemma_shown_all_fails(items, n + 1, k);
    }
}

fn list_texts(v: &Value, facts: &Facts) -> (r: Result<Vec<String>, Halt>)
    ensures
        texts_outcome(r) == element_texts(v@, facts@),
{
    broadcast use group_value_views;

    let items = match v {
        Value::Array(items) => clone_values(items),
        Value::Text(_) => match facts.ask_one(Task::ArrayLiteral, v) {
            Ok(Value::Array(items)) => items,
            Ok(_) => {
                let none: Vec<Value> = Vec::new();
                assert(vals(none@) =~= Seq::<Val>::empty());
                none
            },
            Err(h) => return Err(h),
        },
        _ => {
            let none: Vec<Value> = Vec::new();
            assert(vals(none@) =~= Seq::<Val>::empty());
            none
        },
    };
    let ghost all = vals(items@);
    assert(elements(v@, facts@) == Ok::<Seq<Val>, Stop>(all));
    let mut out: Vec<String> = Vec::new();
    let mut i: usize = 0;
    assert(all.take(0) =~= Seq::<Val>::empty());
    assert(texts(out@) =~= Seq::<Seq<char>>::empty());
    while i < items.len()
        invariant
            i <= items@.len(),
            all == vals(items@),
            elements(v@, facts@) == Ok::<Seq<Val>, Stop>(all),
            shown_all(all.take(i as int), facts@) == Ok::<Seq<Seq<char>>, Stop>(texts(out@)),
        decreases items@.len() - i,
    {
        assert(all.take(i + 1).drop_last() =~= all.take(i as int));
        assert(all.take(i + 1).last() == items@[i as int]@);
        if !items[i].is_null() {
            match render(&items[i], facts) {
                Ok(t) => {
                    let ghost before = out@;
                    out.push(t);
                    assert(texts(out@) =~= texts(before).push(t@));
                },
                Err(h) => {
                    proof {
                        lemma_shown_all_fails(all, i + 1, facts@);
                    }
                    return Err(h);
                },
            }
        }
        i = i + 1;
    }
    assert(all.take(i as int) =~= all);
    Ok(out)
}

/// Whether a document has a key: an object member, a string of an array, or a
/// string itself.
pub open spec fn has_key(j: JsonView, key: Seq<char>) -> bool {
    match j {
        JsonView::Object(m) => exists|i: int| 0 <= i < m.len() && (#[trigger] m[i]).0 == key,
        JsonView::Array(items) => exists|i: int|
            0 <= i < items.len() && #[trigger] items[i] == JsonView::Str(key),
        JsonView::Str(s) => s == key,
        _ => false,
    }
}

fn json_has_key(j: &Json, key: &str) -> (r: bool)
    ensures
        r == has_key(j@, key@),
{
    broadcast use group_value_views;

    match j {
        Json::Object(m) => {
            let mut i: usize = 0;
            while i < m.len()
                invariant
                    i <= m@.len(),
                    j@ == JsonView::Object(members(m@)),
                    forall|p: int| 0 <= p < i ==> (#[trigger] members(m@)[p]).0 != key@,
                decreases m@.len() - i,
            {
                if same_text(m[i].0.as_str(), key) {
                    proof {
                        let all = members(m@);
                        assert(all.len() == m@.len());
                        assert(all[i as int].0 == key@);
                        assert(j@->Object_0[i as int].0 == key@);
                    }
                    return true;
                }
                i = i + 1;
            }
            false
        },
        Json::Array(items) => {
            let mut i: usize = 0;
            while i < items.len()
                invariant
                    i <= items@.len(),
                    j@ == JsonView::Array(jsons(items@)),
                    forall|p: int| 0 <= p < i ==> #[trigger] jsons(items@)[p] != JsonView::Str(key@),
                decreases items@.len() - i,
            {
                let hit: bool = match &items[i] {
                    Json::Str(s) => same_text(s.as_str(), key),
                    _ => false,
                };
                assert(jsons(items@)[i as int] == items@[i as int]@);
                if hit {
                    return true;
                }
                i = i + 1;
            }
            false
        },
        Json::Str(s) => same_text(s.as_str(), key),
        _ => false,
    }
}

/// Whether a document has any of the keys.
pub open spec fn has_any(j: JsonView, keys: Seq<Seq<char>>) -> bool {
    exists|i: int| 0 <= i < keys.len() && has_key(j, #[trigger] keys[i])
}

/// Whether a document has all of the keys.
pub open spec fn has_all(j: JsonView, keys: Seq<Seq<char>>) -> bool {
    forall|i: int| 0 <= i < keys.len() ==> has_key(j, #[trigger] keys[i])
}

/// The document a path of keys leads to.
pub open spec fn walk(j: Option<JsonView>, keys: Seq<Seq<char>>, k: Known) -> Result<
    Option<JsonView>,
    Stop,
>
    decreases keys.len(),
{
    if keys.len() == 0 {
        Ok(j)
    } else {
        match j {
            None => walk(None, keys.skip(1), k),
            Some(d) => match step(d, Val::Text(keys[0]), k) {
                Ok(next) => walk(next, keys.skip(1), k),
                Err(s) => Err(s),
            },
        }
    }
}

/// Whether two lists share a text.
pub open spec fn share_text(a: Seq<Seq<char>>, b: Seq<Seq<char>>) -> bool {
    exists|i: int| 0 <= i < a.len() && b.contains(#[trigger] a[i])
}

/// The operators on JSON documents and arrays, on operands that are not NULL.
pub open spec fn json_array_op(op: ScalarBinaryOp, l: Val, r: Val, k: Known) -> Result<Val, Stop> {
    match op {
        ScalarBinaryOp::Contains => match asked(k, on_two(TaskView::Contains, l, r)) {
            Ok(v) => Ok(Val::Bool(v == Val::Bool(true))),
            Err(s) => Err(s),
        },
        ScalarBinaryOp::ContainedBy => match asked(k, on_two(TaskView::Contains, r, l)) {
            Ok(v) => Ok(Val::Bool(v == Val::Bool(true))),
            Err(s) => Err(s),
        },
        ScalarBinaryOp::Overlap => match (element_texts(l, k), element_texts(r, k)) {
            (Err(s), _) => Err(s),
            (Ok(_), Err(s)) => Err(s),
            (Ok(a), Ok(b)) => Ok(Val::Bool(share_text(a, b))),
        },
        _ => match asked(k, on_one(TaskView::ToJson, l)) {
            Err(s) => Err(s),
            Ok(Val::Jsonb(j)) => match op {
                ScalarBinaryOp::JsonGet | ScalarBinaryOp::JsonGetText => match step(j, r, k) {
                    Ok(found) => Ok(accessed(found, op == ScalarBinaryOp::JsonGetText)),
                    Err(s) => Err(s),
                },
                ScalarBinaryOp::JsonPath | ScalarBinaryOp::JsonPathText => match element_texts(
                    r,
                    k,
                ) {
                    Err(s) => Err(s),
                    Ok(keys) => match walk(Some(j), keys, k) {
                        Ok(found) => Ok(accessed(found, op == ScalarBinaryOp::JsonPathText)),
                        Err(s) => Err(s),
                    },
                },
                ScalarBinaryOp::JsonHasKey => match shown(r, k) {
                    Ok(key) => Ok(Val::Bool(has_key(j, key))),
                    Err(s) => Err(s),
                },
                ScalarBinaryOp::JsonHasAnyKey => match element_texts(r, k) {
                    Ok(keys) => Ok(Val::Bool(has_any(j, keys))),
                    Err(s) => Err(s),
                },
                ScalarBinaryOp::JsonHasAllKeys => match element_texts(r, k) {
                    Ok(keys) => Ok(Val::Bool(has_all(j, keys))),
                    Err(s) => Err(s),
                },
                _ => Ok(Val::Null),
            },
            Ok(_) => Ok(Val::Null),
        },
    }
}

/// JSON access/existence and JSONB/array containment operators over non-NULL
/// operands. A missing field, element, or path yields NULL.
pub fn apply_json_array_op(op: ScalarBinaryOp, l: &Value, r: &Value, facts: &Facts) -> (res: Result<
    Value,
    Halt,
>)
    ensures
        outcome(res) == json_array_op(op, l@, r@, facts@),
{
    match op {
        ScalarBinaryOp::Contains => match facts.ask_two(Task::Contains, l, r) {
            Ok(Value::Bool(b)) => Ok(Value::Bool(b)),
            Ok(_) => Ok(Value::Bool(false)),
            Err(h) => Err(h),
        },
        ScalarBinaryOp::ContainedBy => match facts.ask_two(Task::Contains, r, l) {
            Ok(Value::Bool(b)) => Ok(Value::Bool(b)),
            Ok(_) => Ok(Value::Bool(false)),
            Err(h) => Err(h),
        },
        ScalarBinaryOp::Overlap => {
            let a = match list_texts(l, facts) {
                Ok(a) => a,
                Err(h) => return Err(h),
            };
            let b = match list_texts(r, facts) {
                Ok(b) => b,
                Err(h) => return Err(h),
            };
            let mut i: usize = 0;
            while i < a.len()
                invariant
                    i <= a@.len(),
                    op == ScalarBinaryOp::Overlap,
                    element_texts(l@, facts@) == Ok::<Seq<Seq<char>>, Stop>(texts(a@)),
                    element_texts(r@, facts@) == Ok::<Seq<Seq<char>>, Stop>(texts(b@)),
                    forall|p: int| 0 <= p < i ==> !texts(b@).contains(#[trigger] texts(a@)[p]),
                decreases a@.len() - i,
            {
                assert(texts(a@)[i as int] == a@[i as int]@);
                if text_in(&b, a[i].as_str()) {
                    return Ok(Value::Bool(true));
                }
                i = i + 1;
            }
            Ok(Value::Bool(false))
        },
        _ => {
            let json = match facts.ask_one(Task::ToJson, l) {
                Ok(Value::Jsonb(j)) => j,
                Ok(_) => return Ok(Value::Null),
                Err(h) => return Err(h),
            };
            match op {
                ScalarBinaryOp::JsonGet | ScalarBinaryOp::JsonGetText => match json_step(
                    &json,
                    r,
                    facts,
                ) {
                    Ok(found) => Ok(access_value(found, op == ScalarBinaryOp::JsonGetText)),
                    Err(h) => Err(h),
                },
                ScalarBinaryOp::JsonPath | ScalarBinaryOp::JsonPathText => {
                    let keys = match list_texts(r, facts) {
                        Ok(keys) => keys,
                        Err(h) => return Err(h),
                    };
                    match json_walk(json, &keys, facts) {
                        Ok(found) => Ok(access_value(found, op == ScalarBinaryOp::JsonPathText)),
                        Err(h) => Err(h),
                    }
                },
                ScalarBinaryOp::JsonHasKey => match render(r, facts) {
                    Ok(key) => Ok(Value::Bool(json_has_key(&json, key.as_str()))),
                    Err(h) => Err(h),
                },
                ScalarBinaryOp::JsonHasAnyKey => match list_texts(r, facts) {
                    Ok(keys) => Ok(Value::Bool(json_has_any(&json, &keys))),
                    Err(h) => Err(h),
                },
                ScalarBinaryOp::JsonHasAllKeys => match list_texts(r, facts) {
                    Ok(keys) => Ok(Value::Bool(json_has_all(&json, &keys))),
                    Err(h) => Err(h),
                },
                _ => Ok(Value::Null),
            }
        },
    }
}

fn json_walk(json: Json, keys: &Vec<String>, facts: &Facts) -> (r: Result<Option<Json>, Halt>)
    ensures
        json_outcome(r) == walk(Some(json@), texts(keys@), facts@),
{
    let ghost path = texts(keys@);
    let ghost start = json@;
    let mut cur: Option<Json> = Some(json);
    let mut i: usize = 0;
    assert(path.skip(0) =~= path);
    while i < keys.len()
        invariant
            i <= keys@.len(),
            path == texts(keys@),
            walk(Some(start), path, facts@) == walk(opt_json(cur), path.skip(i as int), facts@),
        decreases keys@.len() - i,
    {
        assert(path.skip(i as int)[0] == keys@[i as int]@);
        assert(path.skip(i as int).skip(1) =~= path.skip(i + 1));
        let next = match &cur {
            None => None,
            Some(d) => {
                let key = Value::Text(keys[i].clone());
                match json_step(d, &key, facts) {
                    Ok(next) => next,
                    Err(h) => return Err(h),
                }
            },
        };
        cur = next;
        i = i + 1;
    }
    Ok(cur)
}

fn json_has_any(j: &Json, keys: &Vec<String>) -> (r: bool)
    ensures
        r == has_any(j@, texts(keys@)),
{
    let mut i: usize = 0;
    while i < keys.len()
        invariant
            i <= keys@.len(),
            forall|p: int| 0 <= p < i ==> !has_key(j@, #[trigger] texts(keys@)[p]),
        decreases keys@.len() - i,
    {
        assert(texts(keys@)[i as int] == keys@[i as int]@);
        if json_has_key(j, keys[i].as_str()) {
            return true;
        }
        i = i + 1;
    }
    false
}

fn json_has_all(j: &Json, keys: &Vec<String>) -> (r: bool)
    ensures
        r == has_all(j@, texts(keys@)),
{
    let mut i: usize = 0;
    while i < keys.len()
        invariant
            i <= keys@.len(),
            forall|p: int| 0 <= p < i ==> has_key(j@, #[trigger] texts(keys@)[p]),
        decreases keys@.len() - i,
    {
        assert(texts(keys@)[i as int] == keys@[i as int]@);
        if !json_has_key(j, keys[i].as_str()) {
            return false;
        }
        i = i + 1;
    }
    true
}

} // verus!
