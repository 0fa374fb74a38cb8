//! Rows, query results, and the keys under which rows count as equal.
use vstd::prelude::*;
use crate::facts::{
    asked, on_one, text_outcome, Facts, Halt, Known, Stop, Task, TaskView,
};
use crate::json_ops::texts_outcome;
use crate::render::{render, shown};
use crate::text::{join, join_texts, texts};
use crate::value::{clone_values, vals, Val, Value};

verus! {

/// One row of a result.
#[derive(Debug, PartialEq)]
pub struct Row {
    pub values: Vec<Value>,
}

/// What a statement returns.
#[derive(Debug, PartialEq)]
pub struct QueryOutput {
    pub columns: Vec<String>,
    pub types: Vec<String>,
    pub rows: Vec<Row>,
    /// The command tag (`SELECT 3`).
    pub tag: String,
}

impl View for Row {
    type V = Seq<Val>;

    open spec fn view(&self) -> Seq<Val> {
        vals(self.values@)
    }
}

/// What each row holds.
pub open spec fn row_views(s: Seq<Row>) -> Seq<Seq<Val>> {
    Seq::new(s.len(), |i: int| s[i]@)
}

impl Row {
    /// A copy of the row.
    pub fn duplicate(&self) -> (r: Row)
        ensures
            r@ == self@,
    {
        Row { values: clone_values(&self.values) }
    }
}

/// The text under which a value is grouped.
pub open spec fn value_key(v: Val, k: Known) -> Result<Seq<char>, Stop> {
    match asked(k, on_one(TaskView::KeyForm, v)) {
        Ok(form) => shown(form, k),
        Err(s) => Err(s),
    }
}

/// The texts under which values are grouped.
pub open spec fn value_keys(row: Seq<Val>, k: Known) -> Result<Seq<Seq<char>>, Stop>
    decreases row.len(),
{
    if row.len() == 0 {
        Ok(Seq::empty())
    } else {
        match value_keys(row.drop_last(), k) {
            Err(s) => Err(s),
            Ok(before) => match value_key(row.last(), k) {
                Ok(t) => Ok(before.push(t)),
                Err(s) => Err(s),
            },
        }
    }
}

/// The text under which a row is deduplicated.
pub open spec fn key_of(row: Seq<Val>, k: Known) -> Result<Seq<char>, Stop> {
    match value_keys(row, k) {
        Ok(parts) => Ok(join(parts, "\u{1}"@)),
        Err(s) => Err(s),
    }
}

/// The texts under which rows are deduplicated.
pub open spec fn keys_of(rows: Seq<Seq<Val>>, k: Known) -> Result<Seq<Seq<char>>, Stop>
    decreases rows.len(),
{
    if rows.len() == 0 {
        Ok(Seq::empty())
    } else {
        match keys_of(rows.drop_last(), k) {
            Err(s) => Err(s),
            Ok(before) => match key_of(rows.last(), k) {
                Ok(t) => Ok(before.push(t)),
                Err(s) => Err(s),
            },
        }
    }
}

proof fn lemma_value_keys_fail(row: Seq<Val>, n: int, k: Known)
    requires
        0 <= n <= row.len(),
        value_keys(row.take(n), k) is Err,
    ensures
        value_keys(row, k) == value_keys(row.take(n), k),
    decreases row.len() - n,
{
    if n == row.len() {
        assert(row.take(n) =~= row);
    } else {
        assert(row.take(n + 1).drop_last() =~= row.take(n));
        lemma_value_keys_fail(row, n + 1, k);
    }
}

proof fn lemma_keys_fail(rows: Seq<Seq<Val>>, n: int, k: Known)
    requires
        0 <= n <= rows.len(),
        keys_of(rows.take(n), k) is Err,
    ensures
        keys_of(rows, k) == keys_of(rows.take(n), k),
    decreases rows.len() - n,
{
    if n == rows.len() {
        assert(rows.take(n) =~= rows);
    } else {
        assert(rows.take(n + 1).drop_last() =~= rows.take(n));
        lemma_keys_fail(rows, n + 1, k);
    }
}

/// There is one key for each row.
pub proof fn lemma_keys_len(rows: Seq<Seq<Val>>, k: Known)
    requires
        keys_of(rows, k) is Ok,
    ensures
        keys_of(rows, k)->Ok_0.len() == rows.len(),
    decreases rows.len(),
{
    if rows.len() > 0 {
        lemma_keys_len(rows.drop_last(), k);
    }
}

/// The text under which values are grouped together.
pub fn values_key(values: &Vec<Value>, facts: &Facts) -> (r: Result<String, Halt>)
    ensures
        text_outcome(r) == key_of(vals(values@), facts@),
{
    let ghost all = vals(values@);
    let mut parts: Vec<String> = Vec::new();
    let mut i: usize = 0;
    assert(all.take(0) =~= Seq::<Val>::empty());
    assert(texts(parts@) =~= Seq::<Seq<char>>::empty());
    while i < values.len()
        invariant
            i <= values@.len(),
            all == vals(values@),
            value_keys(all.take(i as int), facts@) == Ok::<Seq<Seq<char>>, Stop>(texts(parts@)),
        decreases values@.len() - i,
    {
        assert(all.take(i + 1).drop_last() =~= all.take(i as int));
        assert(all.take(i + 1).last() == values@[i as int]@);
        let form = match facts.ask_one(Task::KeyForm, &values[i]) {
            Ok(v) => v,
            Err(h) => {
                proof {
                    lemma_value_keys_fail(all, i + 1, facts@);
                }
                return Err(h);
            },
        };
        match render(&form, facts) {
            Ok(t) => {
                let ghost before = parts@;
                parts.push(t);
                assert(texts(parts@) =~= texts(before).push(t@));
            },
            Err(h) => {
                proof {
                    lemma_value_keys_fail(all, i + 1, facts@);
                }
                return Err(h);
            },
        }
        i = i + 1;
    }
    assert(all.take(i as int) =~= all);
    Ok(join_texts(&parts, "\u{1}"))
}

/// The text under which a row is deduplicated.
pub fn row_key(row: &Row, facts: &Facts) -> (r: Result<String, Halt>)
    ensures
        text_outcome(r) == key_of(row@, facts@),
{
    values_key(&row.values, facts)
}

/// The text under which each row is deduplicated.
pub fn row_keys(rows: &Vec<Row>, facts: &Facts) -> (r: Result<Vec<String>, Halt>)
    ensures
        texts_outcome(r) == keys_of(row_views(rows@), facts@),
        r is Ok ==> r->Ok_0@.len() == rows@.len(),
{
    let ghost all = row_views(rows@);
    let mut out: Vec<String> = Vec::new();
    let mut i: usize = 0;
    assert(all.take(0) =~= Seq::<Seq<Val>>::empty());
    assert(texts(out@) =~= Seq::<Seq<char>>::empty());
    while i < rows.len()
        invariant
            i <= rows@.len(),
            all == row_views(rows@),
            out@.len() == i,
            keys_of(all.take(i as int), facts@) == Ok::<Seq<Seq<char>>, Stop>(texts(out@)),
        decreases rows@.len() - i,
    {
        assert(all.take(i + 1).drop_last() =~= all.take(i as int));
        assert(all.take(i + 1).last() == rows@[i as int]@);
        match row_key(&rows[i], facts) {
            Ok(t) => {
                let ghost before = out@;
                out.push(t);
                assert(texts(out@) =~= texts(before).push(t@));
            },
            Err(h) => {
                proof {
                    lemma_keys_fail(all, i + 1, facts@);
                }
                return Err(h);
            },
        }
        i = i + 1;
    }
    assert(all.take(i as int) =~= all);
    Ok(out)
}

} // verus!
