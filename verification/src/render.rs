//! Writing values as text, and ordering them.
use vstd::prelude::*;
use crate::facts::{asked, on_one, on_two, Facts, Halt, Known, Stop, Task, TaskView};
use crate::interval::{interval_of, interval_total, magnitude, parse_interval_text};
use crate::text::{chars_of, decimal, int_text};
use crate::value::{Val, Value};

verus! {

/// How one value stands to another.
#[derive(Debug, Clone, Copy, PartialEq, Eq, Structural)]
pub enum Rank {
    Less,
    Equal,
    Greater,
}

impl Rank {
    /// The rank seen from the other side.
    pub open spec fn flipped(self) -> Rank {
        match self {
            Rank::Less => Rank::Greater,
            Rank::Equal => Rank::Equal,
            Rank::Greater => Rank::Less,
        }
    }

    /// The rank seen from the other side.
    pub fn reverse(self) -> (r: Rank)
        ensures
            r == self.flipped(),
    {
        match self {
            Rank::Less => Rank::Greater,
            Rank::Equal => Rank::Equal,
            Rank::Greater => Rank::Less,
        }
    }
}

/// How two integers stand to each other.
pub open spec fn int_rank(a: int, b: int) -> Rank {
    if a < b {
        Rank::Less
    } else if a > b {
        Rank::Greater
    } else {
        Rank::Equal
    }
}

/// How two texts stand to each other: by the first character in which they
/// differ, a text before its extensions.
pub open spec fn text_rank(a: Seq<char>, b: Seq<char>) -> Rank
    decreases a.len(),
{
    if a.len() == 0 {
        if b.len() == 0 {
            Rank::Equal
        } else {
            Rank::Less
        }
    } else if b.len() == 0 {
        Rank::Greater
    } else if a[0] != b[0] {
        if (a[0] as int) < (b[0] as int) {
            Rank::Less
        } else {
            Rank::Greater
        }
    } else {
        text_rank(a.skip(1), b.skip(1))
    }
}

/// Whether `a` comes before `b`.
fn char_below(a: char, b: char) -> (r: bool)
    ensures
        r == ((a as int) < (b as int)),
{
    (a as u32) < (b as u32)
}

/// How two texts stand to each other.
pub fn rank_texts(a: &str, b: &str) -> (r: Rank)
    ensures
        r == text_rank(a@, b@),
{
    let x = chars_of(a);
    let y = chars_of(b);
    let mut i: usize = 0;
    assert(a@.skip(0) =~= a@);
    assert(b@.skip(0) =~= b@);
    while i < x.len() && i < y.len()
        invariant
            i <= x@.len(),
            i <= y@.len(),
            x@ == a@,
            y@ == b@,
            text_rank(a@, b@) == text_rank(a@.skip(i as int), b@.skip(i as int)),
        decreases x@.len() - i,
    {
        assert(a@.skip(i as int)[0] == x@[i as int]);
        assert(b@.skip(i as int)[0] == y@[i as int]);
        if x[i] != y[i] {
            return if char_below(x[i], y[i]) {
                Rank::Less
            } else {
                Rank::Greater
            };
        }
        assert(a@.skip(i as int).skip(1) =~= a@.skip(i + 1));
        assert(b@.skip(i as int).skip(1) =~= b@.skip(i + 1));
        i = i + 1;
    }
    if i < x.len() {
        Rank::Greater
    } else if i < y.len() {
        Rank::Less
    } else {
        Rank::Equal
    }
}

/// Ordering texts is antisymmetric, and equal only for the same text.
pub proof fn law_text_rank_is_antisymmetric(a: Seq<char>, b: Seq<char>)
    ensures
        text_rank(b, a) == text_rank(a, b).flipped(),
        text_rank(a, b) == Rank::Equal <==> a == b,
    decreases a.len(),
{
    if a.len() > 0 && b.len() > 0 && a[0] == b[0] {
        law_text_rank_is_antisymmetric(a.skip(1), b.skip(1));
        if a.skip(1) == b.skip(1) {
            assert(a =~= seq![a[0]] + a.skip(1));
            assert(b =~= seq![b[0]] + b.skip(1));
        }
    } else if a.len() == 0 && b.len() == 0 {
        assert(a =~= b);
    }
}

/// Ordering texts is transitive.
pub proof fn law_text_rank_is_transitive(a: Seq<char>, b: Seq<char>, c: Seq<char>)
    requires
        text_rank(a, b) == Rank::Less,
        text_rank(b, c) == Rank::Less,
    ensures
        text_rank(a, c) == Rank::Less,
    decreases a.len(),
{
    if a.len() > 0 && b.len() > 0 && c.len() > 0 && a[0] == b[0] && b[0] == c[0] {
        law_text_rank_is_transitive(a.skip(1), b.skip(1), c.skip(1));
    }
}

/// The text in an answer.
pub open spec fn answered_text(v: Val) -> Seq<char> {
    match v {
        Val::Text(t) => t,
        _ => Seq::empty(),
    }
}

/// A value as text. NULL is empty, booleans are `t` and `f`; the text of a
/// float, a JSON document, and an array is looked up.
pub open spec fn shown(v: Val, k: Known) -> Result<Seq<char>, Stop> {
    match v {
        Val::Null => Ok(Seq::empty()),
        Val::Int(i) => Ok(decimal(i as int)),
        Val::Bool(b) => Ok(
            if b {
                "t"@
            } else {
                "f"@
            },
        ),
        Val::Text(t) => Ok(t),
        Val::Json(t) => Ok(t),
        Val::Numeric(t) => Ok(t),
        Val::Float(_) | Val::Jsonb(_) | Val::Array(_) => match asked(
            k,
            on_one(TaskView::Render, v),
        ) {
            Ok(a) => Ok(answered_text(a)),
            Err(s) => Err(s),
        },
    }
}

/// A value as text.
pub fn render(v: &Value, facts: &Facts) -> (r: Result<String, Halt>)
    ensures
        crate::facts::text_outcome(r) == shown(v@, facts@),
{
    match v {
        Value::Null => Ok(String::new()),
        Value::Int(i) => Ok(int_text(*i)),
        Value::Bool(b) => Ok(
            if *b {
                "t".to_owned()
            } else {
                "f".to_owned()
            },
        ),
        Value::Text(t) => Ok(t.clone()),
        Value::Json(t) => Ok(t.clone()),
        Value::Numeric(t) => Ok(t.clone()),
        Value::Float(_) | Value::Jsonb(_) | Value::Array(_) => match facts.ask_one(
            Task::Render,
            v,
        ) {
            Ok(Value::Text(t)) => Ok(t),
            Ok(_) => Ok(String::new()),
            Err(h) => Err(h),
        },
    }
}

/// The rank in an answer.
pub open spec fn answered_rank(v: Val) -> Rank {
    match v {
        Val::Int(n) => int_rank(n as int, 0),
        _ => Rank::Equal,
    }
}

/// How two values stand to each other. Integers, booleans, and texts are
/// ordered among themselves; any other pair is looked up.
pub open spec fn ordered(a: Val, b: Val, k: Known) -> Result<Rank, Stop> {
    match (a, b) {
        (Val::Int(x), Val::Int(y)) => Ok(int_rank(x as int, y as int)),
        (Val::Bool(x), Val::Bool(y)) => Ok(
            if x == y {
                Rank::Equal
            } else if y {
                Rank::Less
            } else {
                Rank::Greater
            },
        ),
        (Val::Text(x), Val::Text(y)) => Ok(text_rank(x, y)),
        _ => match asked(k, on_two(TaskView::Order, a, b)) {
            Ok(v) => Ok(answered_rank(v)),
            Err(s) => Err(s),
        },
    }
}

/// What a rank result stands for.
pub open spec fn rank_outcome(r: Result<Rank, Halt>) -> Result<Rank, Stop> {
    match r {
        Ok(x) => Ok(x),
        Err(h) => Err(h@),
    }
}

/// How two values stand to each other.
pub fn compare(a: &Value, b: &Value, facts: &Facts) -> (r: Result<Rank, Halt>)
    ensures
        rank_outcome(r) == ordered(a@, b@, facts@),
{
    match (a, b) {
        (Value::Int(x), Value::Int(y)) => Ok(
            if *x < *y {
                Rank::Less
            } else if *x > *y {
                Rank::Greater
            } else {
                Rank::Equal
            },
        ),
        (Value::Bool(x), Value::Bool(y)) => Ok(
            if *x == *y {
                Rank::Equal
            } else if *y {
                Rank::Less
            } else {
                Rank::Greater
            },
        ),
        (Value::Text(x), Value::Text(y)) => Ok(rank_texts(x.as_str(), y.as_str())),
        _ => match facts.ask_two(Task::Order, a, b) {
            Ok(Value::Int(n)) => Ok(
                if n < 0 {
                    Rank::Less
                } else if n > 0 {
                    Rank::Greater
                } else {
                    Rank::Equal
                },
            ),
            Ok(_) => Ok(Rank::Equal),
            Err(h) => Err(h),
        },
    }
}

/// Whether two values are equal: as they are ordered for integers, booleans,
/// and texts; looked up for any other pair.
pub open spec fn equal_values(a: Val, b: Val, k: Known) -> Result<bool, Stop> {
    match (a, b) {
        (Val::Int(x), Val::Int(y)) => Ok(x == y),
        (Val::Bool(x), Val::Bool(y)) => Ok(x == y),
        (Val::Text(x), Val::Text(y)) => Ok(x == y),
        _ => match asked(k, on_two(TaskView::Equal, a, b)) {
            Ok(v) => Ok(v == Val::Bool(true)),
            Err(s) => Err(s),
        },
    }
}

/// Whether two values are equal.
pub fn values_equal(a: &Value, b: &Value, facts: &Facts) -> (r: Result<bool, Halt>)
    ensures
        crate::facts::bool_outcome(r) == equal_values(a@, b@, facts@),
{
    match (a, b) {
        (Value::Int(x), Value::Int(y)) => Ok(*x == *y),
        (Value::Bool(x), Value::Bool(y)) => Ok(*x == *y),
        (Value::Text(x), Value::Text(y)) => Ok(crate::text::same_text(x.as_str(), y.as_str())),
        _ => match facts.ask_two(Task::Equal, a, b) {
            Ok(Value::Bool(t)) => Ok(t),
            Ok(_) => Ok(false),
            Err(h) => Err(h),
        },
    }
}

/// How two values stand to each other, two interval texts by magnitude.
pub open spec fn ordered_with_intervals(a: Val, b: Val, k: Known) -> Result<Rank, Stop> {
    match (a, b) {
        (Val::Text(x), Val::Text(y)) => match (interval_of(x), interval_of(y)) {
            (Some(i), Some(j)) => Ok(int_rank(magnitude(i), magnitude(j))),
            _ => ordered(a, b, k),
        },
        _ => ordered(a, b, k),
    }
}

/// Compares two values, treating two interval-formatted texts by magnitude
/// (so `10 days` > `2 days`); otherwise defers to the generic `compare`.
pub fn interval_aware_compare(a: &Value, b: &Value, facts: &Facts) -> (r: Result<Rank, Halt>)
    ensures
        rank_outcome(r) == ordered_with_intervals(a@, b@, facts@),
{
    if let (Value::Text(x), Value::Text(y)) = (a, b) {
        let i = parse_interval_text(x.as_str());
        let j = parse_interval_text(y.as_str());
        if let (Some(i), Some(j)) = (i, j) {
            let m: i128 = interval_total(i);
            let n: i128 = interval_total(j);
            return Ok(
                if m < n {
                    Rank::Less
                } else if m > n {
                    Rank::Greater
                } else {
                    Rank::Equal
                },
            );
        }
    }
    compare(a, b, facts)
}

/// Comparing is antisymmetric wherever nothing is looked up.
pub proof fn law_interval_order_is_antisymmetric(a: Seq<char>, b: Seq<char>, k: Known)
    ensures
        match (
            ordered_with_intervals(Val::Text(a), Val::Text(b), k),
            ordered_with_intervals(Val::Text(b), Val::Text(a), k),
        ) {
            (Ok(x), Ok(y)) => y == x.flipped(),
            _ => false,
        },
{
    law_text_rank_is_antisymmetric(a, b);
}

} // verus!
