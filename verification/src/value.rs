//! SQL values, JSON documents, and the mathematical values they stand for.
use vstd::prelude::*;
use crate::text::same_text;

verus! {

/// A JSON document. A number keeps its text; an object keeps its members in
/// order.
#[derive(Debug, PartialEq)]
pub enum Json {
    Null,
    Bool(bool),
    Number(String),
    Str(String),
    Array(Vec<Json>),
    Object(Vec<(String, Json)>),
}

/// A SQL value.
#[derive(Debug, PartialEq)]
pub enum Value {
    Null,
    Int(i64),
    /// A double-precision number, as its IEEE 754 bits.
    Float(u64),
    /// An exact decimal number, as its text.
    Numeric(String),
    Bool(bool),
    Text(String),
    /// A `json` value, which keeps the text it was written in.
    Json(String),
    Jsonb(Json),
    Array(Vec<Value>),
}

/// What a [`Json`] stands for.
#[verifier::ext_equal]
pub enum JsonView {
    Null,
    Bool(bool),
    Number(Seq<char>),
    Str(Seq<char>),
    Array(Seq<JsonView>),
    Object(Seq<(Seq<char>, JsonView)>),
}

/// What a [`Value`] stands for.
#[verifier::ext_equal]
pub enum Val {
    Null,
    Int(i64),
    Float(u64),
    Numeric(Seq<char>),
    Bool(bool),
    Text(Seq<char>),
    Json(Seq<char>),
    Jsonb(JsonView),
    Array(Seq<Val>),
}

pub open spec fn json_view(j: Json) -> JsonView
    decreases j,
{
    match j {
        Json::Null => JsonView::Null,
        Json::Bool(b) => JsonView::Bool(b),
        Json::Number(t) => JsonView::Number(t@),
        Json::Str(t) => JsonView::Str(t@),
        Json::Array(items) => JsonView::Array(
            Seq::new(
                items@.len(),
                |i: int|
                    if 0 <= i < items@.len() {
                        json_view(items@[i])
                    } else {
                        JsonView::Null
                    },
            ),
        ),
        Json::Object(members) => JsonView::Object(
            Seq::new(
                members@.len(),
                |i: int|
                    if 0 <= i < members@.len() {
                        (members@[i].0@, json_view(members@[i].1))
                    } else {
                        (Seq::empty(), JsonView::Null)
                    },
            ),
        ),
    }
}

pub open spec fn value_view(v: Value) -> Val
    decreases v,
{
    match v {
        Value::Null => Val::Null,
        Value::Int(i) => Val::Int(i),
        Value::Float(b) => Val::Float(b),
        Value::Numeric(t) => Val::Numeric(t@),
        Value::Bool(b) => Val::Bool(b),
        Value::Text(t) => Val::Text(t@),
        Value::Json(t) => Val::Json(t@),
        Value::Jsonb(j) => Val::Jsonb(j@),
        Value::Array(items) => Val::Array(
            Seq::new(
                items@.len(),
                |i: int|
                    if 0 <= i < items@.len() {
                        value_view(items@[i])
                    } else {
                        Val::Null
                    },
            ),
        ),
    }
}

impl View for Json {
    type V = JsonView;

    open spec fn view(&self) -> JsonView {
        json_view(*self)
    }
}

impl View for Value {
    type V = Val;

    open spec fn view(&self) -> Val {
        value_view(*self)
    }
}

/// What each JSON document stands for.
pub open spec fn jsons(s: Seq<Json>) -> Seq<JsonView> {
    Seq::new(s.len(), |i: int| s[i]@)
}

/// What each object member stands for.
pub open spec fn members(s: Seq<(String, Json)>) -> Seq<(Seq<char>, JsonView)> {
    Seq::new(s.len(), |i: int| (s[i].0@, s[i].1@))
}

/// What each value stands for.
pub open spec fn vals(s: Seq<Value>) -> Seq<Val> {
    Seq::new(s.len(), |i: int| s[i]@)
}

/// What each row stands for.
pub open spec fn rows_view(s: Seq<Vec<Value>>) -> Seq<Seq<Val>> {
    Seq::new(s.len(), |i: int| vals(s[i]@))
}

/// What an optional value stands for.
pub open spec fn opt_val(v: Option<Value>) -> Option<Val> {
    match v {
        Some(x) => Some(x@),
        None => None,
    }
}

pub broadcast proof fn lemma_array_view(items: Vec<Value>)
    ensures
        #[trigger] value_view(Value::Array(items)) == Val::Array(vals(items@)),
{
    assert(value_view(Value::Array(items))->Array_0 =~= vals(items@));
}

pub broadcast proof fn lemma_json_array_view(items: Vec<Json>)
    ensures
        #[trigger] json_view(Json::Array(items)) == JsonView::Array(jsons(items@)),
{
    assert(json_view(Json::Array(items))->Array_0 =~= jsons(items@));
}

pub broadcast proof fn lemma_json_object_view(m: Vec<(String, Json)>)
    ensures
        #[trigger] json_view(Json::Object(m)) == JsonView::Object(members(m@)),
{
    assert(json_view(Json::Object(m))->Object_0 =~= members(m@));
}

pub broadcast group group_value_views {
    lemma_array_view,
    lemma_json_array_view,
    lemma_json_object_view,
}

impl Json {
    /// A copy of the document.
    pub fn duplicate(&self) -> (r: Json)
        ensures
            r@ == self@,
        decreases self,
    {
        broadcast use group_value_views;

        match self {
            Json::Null => Json::Null,
            Json::Bool(b) => Json::Bool(*b),
            Json::Number(t) => Json::Number(t.clone()),
            Json::Str(t) => Json::Str(t.clone()),
            Json::Array(items) => Json::Array(clone_jsons(items)),
            Json::Object(m) => Json::Object(clone_members(m)),
        }
    }

    /// Whether two documents are the same.
    pub fn same(&self, other: &Json) -> (r: bool)
        ensures
            r == (self@ == other@),
        decreases self,
    {
        broadcast use group_value_views;

        match (self, other) {
            (Json::Null, Json::Null) => true,
            (Json::Bool(a), Json::Bool(b)) => *a == *b,
            (Json::Number(a), Json::Number(b)) => same_text(a.as_str(), b.as_str()),
            (Json::Str(a), Json::Str(b)) => same_text(a.as_str(), b.as_str()),
            (Json::Array(a), Json::Array(b)) => same_jsons(a, b),
            (Json::Object(a), Json::Object(b)) => same_members(a, b),
            _ => false,
        }
    }
}

/// A copy of every document.
pub fn clone_jsons(v: &Vec<Json>) -> (r: Vec<Json>)
    ensures
        jsons(r@) == jsons(v@),
        r@.len() == v@.len(),
    decreases v,
{
    let mut out: Vec<Json> = Vec::new();
    let mut i: usize = 0;
    while i < v.len()
        invariant
            i <= v@.len(),
            jsons(out@) == jsons(v@).take(i as int),
        decreases v@.len() - i,
    {
        let ghost before = out@;
        assert(decreases_to!(v@ => v@[i as int]));
        out.push(v[i].duplicate());
        assert(jsons(out@) =~= jsons(before).push(v@[i as int]@));
        i = i + 1;
        assert(jsons(out@) =~= jsons(v@).take(i as int));
    }
    assert(jsons(v@).take(i as int) =~= jsons(v@));
    assert(jsons(out@).len() == jsons(v@).len());
    out
}

/// A copy of every member.
pub fn clone_members(v: &Vec<(String, Json)>) -> (r: Vec<(String, Json)>)
    ensures
        members(r@) == members(v@),
        r@.len() == v@.len(),
    decreases v,
{
    let mut out: Vec<(String, Json)> = Vec::new();
    let mut i: usize = 0;
    while i < v.len()
        invariant
            i <= v@.len(),
            members(out@) == members(v@).take(i as int),
        decreases v@.len() - i,
    {
        let ghost before = out@;
        assert(decreases_to!(v@ => v@[i as int]));
        out.push((v[i].0.clone(), v[i].1.duplicate()));
        assert(members(out@) =~= members(before).push((v@[i as int].0@, v@[i as int].1@)));
        i = i + 1;
        assert(members(out@) =~= members(v@).take(i as int));
    }
    assert(members(v@).take(i as int) =~= members(v@));
    assert(members(out@).len() == members(v@).len());
    out
}

/// Whether two lists hold the same documents.
pub fn same_jsons(a: &Vec<Json>, b: &Vec<Json>) -> (r: bool)
    ensures
        r == (jsons(a@) == jsons(b@)),
    decreases a,
{
    if a.len() != b.len() {
        assert(jsons(a@).len() != jsons(b@).len());
        return false;
    }
    let mut i: usize = 0;
    while i < a.len()
        invariant
            i <= a@.len() == b@.len(),
            forall|k: int| 0 <= k < i ==> (#[trigger] a@[k])@ == b@[k]@,
        decreases a@.len() - i,
    {
        assert(decreases_to!(a@ => a@[i as int]));
        if !(a[i].same(&b[i])) {
            assert(jsons(a@)[i as int] != jsons(b@)[i as int]);
            return false;
        }
        i = i + 1;
    }
    assert(jsons(a@) =~= jsons(b@));
    true
}

/// Whether two lists hold the same members.
pub fn same_members(a: &Vec<(String, Json)>, b: &Vec<(String, Json)>) -> (r: bool)
    ensures
        r == (members(a@) == members(b@)),
    decreases a,
{
    if a.len() != b.len() {
        assert(members(a@).len() != members(b@).len());
        return false;
    }
    let mut i: usize = 0;
    while i < a.len()
        invariant
            i <= a@.len() == b@.len(),
            forall|k: int| 0 <= k < i ==> (#[trigger] a@[k]).0@ == b@[k].0@ && a@[k].1@ == b@[k].1@,
        decreases a@.len() - i,
    {
        assert(decreases_to!(a@ => a@[i as int]));
        if !(same_text(a[i].0.as_str(), b[i].0.as_str()) && a[i].1.same(&b[i].1)) {
            assert(members(a@)[i as int] != members(b@)[i as int]);
            return false;
        }
        i = i + 1;
    }
    assert(members(a@) =~= members(b@));
    true
}

impl Value {
    /// A copy of the value.
    pub fn duplicate(&self) -> (r: Value)
        ensures
            r@ == self@,
        decreases self,
    {
        broadcast use group_value_views;

        match self {
            Value::Null => Value::Null,
            Value::Int(i) => Value::Int(*i),
            Value::Float(b) => Value::Float(*b),
            Value::Numeric(t) => Value::Numeric(t.clone()),
            Value::Bool(b) => Value::Bool(*b),
            Value::Text(t) => Value::Text(t.clone()),
            Value::Json(t) => Value::Json(t.clone()),
            Value::Jsonb(j) => Value::Jsonb(j.duplicate()),
            Value::Array(items) => Value::Array(clone_values(items)),
        }
    }

    /// Whether two values are the same.
    pub fn same(&self, other: &Value) -> (r: bool)
        ensures
            r == (self@ == other@),
        decreases self,
    {
        broadcast use group_value_views;

        match (self, other) {
            (Value::Null, Value::Null) => true,
            (Value::Int(a), Value::Int(b)) => *a == *b,
            (Value::Float(a), Value::Float(b)) => *a == *b,
            (Value::Numeric(a), Value::Numeric(b)) => same_text(a.as_str(), b.as_str()),
            (Value::Bool(a), Value::Bool(b)) => *a == *b,
            (Value::Text(a), Value::Text(b)) => same_text(a.as_str(), b.as_str()),
            (Value::Json(a), Value::Json(b)) => same_text(a.as_str(), b.as_str()),
            (Value::Jsonb(a), Value::Jsonb(b)) => a.same(b),
            (Value::Array(a), Value::Array(b)) => same_values(a, b),
            _ => false,
        }
    }

    /// Whether the value is NULL.
    pub fn is_null(&self) -> (r: bool)
        ensures
            r == (self@ == Val::Null),
    {
        match self {
            Value::Null => true,
            _ => false,
        }
    }
}

/// A copy of every value.
pub fn clone_values(v: &Vec<Value>) -> (r: Vec<Value>)
    ensures
        vals(r@) == vals(v@),
        r@.len() == v@.len(),
    decreases v,
{
    let mut out: Vec<Value> = Vec::new();
    let mut i: usize = 0;
    while i < v.len()
        invariant
            i <= v@.len(),
            vals(out@) == vals(v@).take(i as int),
        decreases v@.len() - i,
    {
        let ghost before = out@;
        assert(decreases_to!(v@ => v@[i as int]));
        out.push(v[i].duplicate());
        assert(vals(out@) =~= vals(before).push(v@[i as int]@));
        i = i + 1;
        assert(vals(out@) =~= vals(v@).take(i as int));
    }
    assert(vals(v@).take(i as int) =~= vals(v@));
    assert(vals(out@).len() == vals(v@).len());
    out
}

/// Whether two lists hold the same values.
pub fn same_values(a: &Vec<Value>, b: &Vec<Value>) -> (r: bool)
    ensures
        r == (vals(a@) == vals(b@)),
    decreases a,
{
    if a.len() != b.len() {
        assert(vals(a@).len() != vals(b@).len());
        return false;
    }
    let mut i: usize = 0;
    while i < a.len()
        invariant
            i <= a@.len() == b@.len(),
            forall|k: int| 0 <= k < i ==> (#[trigger] a@[k])@ == b@[k]@,
        decreases a@.len() - i,
    {
        assert(decreases_to!(a@ => a@[i as int]));
        if !(a[i].same(&b[i])) {
            assert(vals(a@)[i as int] != vals(b@)[i as int]);
            return false;
        }
        i = i + 1;
    }
    assert(vals(a@) =~= vals(b@));
    true
}

} // verus!
