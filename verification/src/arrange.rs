//! Putting output rows in order: ORDER BY, DISTINCT ON, DISTINCT, OFFSET, and
//! LIMIT.
use vstd::prelude::*;
use crate::cells::{cell, cell_at};
use crate::facts::{bool_outcome, Facts, Halt, Known, Stop};
use crate::grouping::{keys_of_rows, rows_keys, text_lists};
use crate::ordering::{positions, sort_by_keys, sorted_rows, KeyOrder};
use crate::plan_types::{SortKey, SortTarget};
use crate::render::{compare, ordered, Rank};
use crate::table_functions::rows_result;
use crate::text::{chars_of, concat3, decimal, index_of, number_text, position_of, texts};
use crate::value::{clone_values, rows_view, vals, Val, Value};
use crate::window::{find_reference, opt_ints, reference_position, reordered};

verus! {

// ---------------------------------------------------------------------------
// Where sort keys come from
// ---------------------------------------------------------------------------

/// Where a key's value comes from.
#[derive(Debug, Clone, Copy, PartialEq, Eq, Structural)]
pub enum KeySource {
    /// The output column at this position.
    Output(usize),
    /// The input column at this position.
    Source(usize),
    /// The key's own computed value, by key position.
    Computed(usize),
    /// An unresolved key of a catalog query: NULL for every row.
    Missing,
}

/// The message for a column that does not exist.
pub open spec fn no_such_column(name: Seq<char>) -> Stop {
    Stop::Raised("column \""@ + name + "\" does not exist"@)
}

/// Where a key's value comes from. A name means an output column before an
/// input column, a qualified name only an input column.
pub open spec fn key_source(
    target: SortTarget,
    index: nat,
    outputs: Seq<Seq<char>>,
    names: Seq<Seq<char>>,
    lenient: bool,
    k: Known,
) -> Result<KeySource, Stop> {
    match target {
        SortTarget::Output(i) => if i < outputs.len() {
            Ok(KeySource::Output(i))
        } else {
            Err(
                Stop::Raised(
                    "ORDER BY position "@ + decimal(i + 1) + " is not in select list"@,
                ),
            )
        },
        SortTarget::Name(name) => {
            let output = if name@.contains('.') {
                None
            } else {
                index_of(outputs, name@)
            };
            match output {
                Some(i) => Ok(KeySource::Output(i as usize)),
                None => match reference_position(names, name@, k) {
                    Err(s) => Err(s),
                    Ok(Some(i)) => Ok(KeySource::Source(i as usize)),
                    Ok(None) => if lenient {
                        Ok(KeySource::Missing)
                    } else {
                        Err(no_such_column(name@))
                    },
                },
            }
        },
        SortTarget::Expr(_) => Ok(KeySource::Computed(index as usize)),
    }
}

/// What a key source's result stands for.
pub open spec fn source_outcome(r: Result<KeySource, Halt>) -> Result<KeySource, Stop> {
    match r {
        Ok(s) => Ok(s),
        Err(h) => Err(h@),
    }
}

/// Whether a text holds a character.
pub fn has_char(s: &str, c: char) -> (r: bool)
    ensures
        r == s@.contains(c),
{
    let chars = chars_of(s);
    let mut i: usize = 0;
    while i < chars.len()
        invariant
            i <= chars@.len(),
            chars@ == s@,
            forall|j: int| 0 <= j < i ==> s@[j] != c,
        decreases chars@.len() - i,
    {
        if chars[i] == c {
            assert(s@[i as int] == c);
            return true;
        }
        i = i + 1;
    }
    false
}

/// Where a key's value comes from.
pub fn find_key_source(
    target: &SortTarget,
    index: usize,
    outputs: &Vec<String>,
    names: &Vec<String>,
    lenient: bool,
    facts: &Facts,
) -> (r: Result<KeySource, Halt>)
    ensures
        source_outcome(r) == key_source(
            *target,
            index as nat,
            texts(outputs@),
            texts(names@),
            lenient,
            facts@,
        ),
{
    match target {
        SortTarget::Output(i) => {
            if *i < outputs.len() {
                Ok(KeySource::Output(*i))
            } else {
                let number = number_text(*i as u128 + 1);
                Err(
                    Halt::Raised(
                        concat3(
                            "ORDER BY position ",
                            number.as_str(),
                            " is not in select list",
                        ),
                    ),
                )
            }
        },
        SortTarget::Name(name) => {
            if !has_char(name.as_str(), '.') {
                if let Some(i) = position_of(outputs, name.as_str()) {
                    return Ok(KeySource::Output(i));
                }
            }
            match find_reference(names, name.as_str(), facts) {
                Err(h) => Err(h),
                Ok(Some(i)) => Ok(KeySource::Source(i)),
                // Catalog queries resolve columns leniently.
                Ok(None) => if lenient {
                    Ok(KeySource::Missing)
                } else {
                    Err(
                        Halt::Raised(
                            concat3("column \"", name.as_str(), "\" does not exist"),
                        ),
                    )
                },
            }
        },
        SortTarget::Expr(_) => Ok(KeySource::Computed(index)),
    }
}

/// The targets of the sort keys, then those of `DISTINCT ON`.
pub open spec fn key_target(sort: Seq<SortKey>, distinct_on: Seq<SortTarget>, i: int) -> SortTarget {
    if i < sort.len() {
        sort[i].target
    } else {
        distinct_on[i - sort.len()]
    }
}

/// The target of the `i`-th key.
pub fn target_at<'a>(sort: &'a Vec<SortKey>, distinct_on: &'a Vec<SortTarget>, i: usize) -> (r:
    &'a SortTarget)
    requires
        i < sort@.len() + distinct_on@.len(),
    ensures
        *r == key_target(sort@, distinct_on@, i as int),
{
    if i < sort.len() {
        &sort[i].target
    } else {
        &distinct_on[i - sort.len()]
    }
}

/// Where the first `n` keys' values come from.
pub open spec fn key_sources(
    sort: Seq<SortKey>,
    distinct_on: Seq<SortTarget>,
    n: nat,
    outputs: Seq<Seq<char>>,
    names: Seq<Seq<char>>,
    lenient: bool,
    k: Known,
) -> Result<Seq<KeySource>, Stop>
    decreases n,
{
    if n == 0 {
        Ok(Seq::empty())
    } else {
        match key_sources(sort, distinct_on, (n - 1) as nat, outputs, names, lenient, k) {
            Err(s) => Err(s),
            Ok(done) => match key_source(
                key_target(sort, distinct_on, n - 1),
                (n - 1) as nat,
                outputs,
                names,
                lenient,
                k,
            ) {
                Err(s) => Err(s),
                Ok(source) => Ok(done.push(source)),
            },
        }
    }
}

proof fn lemma_key_sources_fail(
    sort: Seq<SortKey>,
    distinct_on: Seq<SortTarget>,
    n: nat,
    m: nat,
    outputs: Seq<Seq<char>>,
    names: Seq<Seq<char>>,
    lenient: bool,
    k: Known,
)
    requires
        n <= m,
        key_sources(sort, distinct_on, n, outputs, names, lenient, k) is Err,
    ensures
        key_sources(sort, distinct_on, m, outputs, names, lenient, k) == key_sources(
            sort,
            distinct_on,
            n,
            outputs,
            names,
            lenient,
            k,
        ),
    decreases m,
{
    if n < m {
        lemma_key_sources_fail(sort, distinct_on, n, (m - 1) as nat, outputs, names, lenient, k);
    }
}

/// What a result of key sources stands for.
pub open spec fn sources_outcome(r: Result<Vec<KeySource>, Halt>) -> Result<Seq<KeySource>, Stop> {
    match r {
        Ok(v) => Ok(v@),
        Err(h) => Err(h@),
    }
}

fn find_key_sources(
    sort: &Vec<SortKey>,
    distinct_on: &Vec<SortTarget>,
    total: usize,
    outputs: &Vec<String>,
    names: &Vec<String>,
    lenient: bool,
    facts: &Facts,
) -> (r: Result<Vec<KeySource>, Halt>)
    requires
        total == sort@.len() + distinct_on@.len(),
    ensures
        sources_outcome(r) == key_sources(
            sort@,
            distinct_on@,
            total as nat,
            texts(outputs@),
            texts(names@),
            lenient,
            facts@,
        ),
        r is Ok ==> r->Ok_0@.len() == total,
{
    let mut out: Vec<KeySource> = Vec::new();
    let mut i: usize = 0;
    while i < total
        invariant
            i <= total == sort@.len() + distinct_on@.len(),
            out@.len() == i,
            key_sources(
                sort@,
                distinct_on@,
                i as nat,
                texts(outputs@),
                texts(names@),
                lenient,
                facts@,
            ) == Ok::<Seq<KeySource>, Stop>(out@),
        decreases total - i,
    {
        let target = target_at(sort, distinct_on, i);
        match find_key_source(target, i, outputs, names, lenient, facts) {
            Err(h) => {
                proof {
                    lemma_key_sources_fail(
                        sort@,
                        distinct_on@,
                        (i + 1) as nat,
                        total as nat,
                        texts(outputs@),
                        texts(names@),
                        lenient,
                        facts@,
                    );
                }
                return Err(h);
            },
            Ok(source) => {
                out.push(source);
            },
        }
        i = i + 1;
    }
    Ok(out)
}

/// Output rows, each with its source row and its computed key values.
#[verifier::ext_equal]
pub struct Staged {
    pub rows: Seq<Seq<Val>>,
    /// Each output row's source row (for a group, its first row), so that
    /// ORDER BY can sort by a column that is not in the SELECT list.
    pub sources: Seq<Seq<Val>>,
    /// Each output row's values of the expression keys (NULL for the other
    /// keys), computed over its source row or group.
    pub computed: Seq<Seq<Val>>,
}

/// Output rows with what their keys are read from.
pub struct StagedRows {
    pub rows: Vec<Vec<Value>>,
    pub sources: Vec<Vec<Value>>,
    pub computed: Vec<Vec<Value>>,
}

impl View for StagedRows {
    type V = Staged;

    open spec fn view(&self) -> Staged {
        Staged {
            rows: rows_view(self.rows@),
            sources: rows_view(self.sources@),
            computed: rows_view(self.computed@),
        }
    }
}

/// The cell of a row that may be missing.
pub open spec fn cell_of(rows: Seq<Seq<Val>>, r: int, c: int) -> Val {
    if 0 <= r < rows.len() {
        cell(rows[r], c)
    } else {
        Val::Null
    }
}

fn read_cell(rows: &Vec<Vec<Value>>, r: usize, c: usize) -> (v: Value)
    ensures
        v@ == cell_of(rows_view(rows@), r as int, c as int),
{
    if r < rows.len() {
        assert(rows_view(rows@)[r as int] == vals(rows@[r as int]@));
        cell_at(&rows[r], c)
    } else {
        Value::Null
    }
}

/// A key's value for an output row.
pub open spec fn key_cell(source: KeySource, s: Staged, r: int) -> Val {
    match source {
        KeySource::Output(i) => cell_of(s.rows, r, i as int),
        KeySource::Source(i) => cell_of(s.sources, r, i as int),
        KeySource::Computed(i) => cell_of(s.computed, r, i as int),
        KeySource::Missing => Val::Null,
    }
}

/// The keys of the output rows.
pub open spec fn sort_keys(sources: Seq<KeySource>, s: Staged) -> Seq<Seq<Val>> {
    Seq::new(s.rows.len(), |r: int| Seq::new(sources.len(), |c: int| key_cell(sources[c], s, r)))
}

fn read_keys(sources: &Vec<KeySource>, s: &StagedRows) -> (r: Vec<Vec<Value>>)
    ensures
        rows_view(r@) == sort_keys(sources@, s@),
        r@.len() == s.rows@.len(),
{
    let ghost view = s@;
    let mut out: Vec<Vec<Value>> = Vec::new();
    let mut i: usize = 0;
    while i < s.rows.len()
        invariant
            i <= s.rows@.len(),
            out@.len() == i,
            view == s@,
            forall|j: int| 0 <= j < i ==> vals((#[trigger] out@[j])@) == sort_keys(sources@, view)[j],
        decreases s.rows@.len() - i,
    {
        let mut row: Vec<Value> = Vec::new();
        let mut c: usize = 0;
        while c < sources.len()
            invariant
                c <= sources@.len(),
                row@.len() == c,
                view == s@,
                forall|j: int|
                    0 <= j < c ==> (#[trigger] row@[j])@ == key_cell(sources@[j], view, i as int),
            decreases sources@.len() - c,
        {
            let v = match sources[c] {
                KeySource::Output(at) => read_cell(&s.rows, i, at),
                KeySource::Source(at) => read_cell(&s.sources, i, at),
                KeySource::Computed(at) => read_cell(&s.computed, i, at),
                KeySource::Missing => Value::Null,
            };
            row.push(v);
            c = c + 1;
        }
        assert(vals(row@) =~= sort_keys(sources@, view)[i as int]);
        out.push(row);
        i = i + 1;
    }
    assert(rows_view(out@) =~= sort_keys(sources@, view));
    out
}

/// The orders of the sort keys.
pub open spec fn sort_orders(sort: Seq<SortKey>) -> Seq<KeyOrder> {
    Seq::new(
        sort.len(),
        |i: int|
            KeyOrder::Directed { ascending: sort[i].ascending, nulls_first: sort[i].nulls_first },
    )
}

fn orders_of(sort: &Vec<SortKey>) -> (r: Vec<KeyOrder>)
    ensures
        r@ == sort_orders(sort@),
{
    let mut out: Vec<KeyOrder> = Vec::new();
    let mut i: usize = 0;
    while i < sort.len()
        invariant
            i <= sort@.len(),
            out@.len() == i,
            forall|j: int| 0 <= j < i ==> #[trigger] out@[j] == sort_orders(sort@)[j],
        decreases sort@.len() - i,
    {
        out.push(
            KeyOrder::Directed { ascending: sort[i].ascending, nulls_first: sort[i].nulls_first },
        );
        i = i + 1;
    }
    assert(out@ =~= sort_orders(sort@));
    out
}

// ---------------------------------------------------------------------------
// DISTINCT ON
// ---------------------------------------------------------------------------

/// The positions, among the first `n`, whose key no earlier one has.
pub open spec fn first_of_each(p: Seq<int>, keys: Seq<Seq<Seq<char>>>, n: nat) -> Seq<int>
    decreases n,
{
    if n == 0 {
        Seq::empty()
    } else {
        let rest = first_of_each(p, keys, (n - 1) as nat);
        if keys.take(n - 1).contains(keys[n - 1]) {
            rest
        } else {
            rest.push(p[n - 1])
        }
    }
}

fn list_seen(keys: &Vec<Vec<String>>, n: usize) -> (r: bool)
    requires
        n < keys@.len(),
    ensures
        r == text_lists(keys@).take(n as int).contains(text_lists(keys@)[n as int]),
{
    let ghost view = text_lists(keys@);
    let mut i: usize = 0;
    while i < n
        invariant
            i <= n < keys@.len(),
            view == text_lists(keys@),
            forall|j: int| 0 <= j < i ==> view[j] != view[n as int],
        decreases n - i,
    {
        assert(view[i as int] == texts(keys@[i as int]@));
        assert(view[n as int] == texts(keys@[n as int]@));
        let rank = crate::grouping::rank_lists(&keys[i], &keys[n]);
        proof {
            crate::grouping::law_equal_lists_are_the_same(view[i as int], view[n as int]);
        }
        if rank == Rank::Equal {
            assert(view.take(n as int)[i as int] == view[n as int]);
            return true;
        }
        i = i + 1;
    }
    assert(!view.take(n as int).contains(view[n as int])) by {
        if view.take(n as int).contains(view[n as int]) {
            let j = choose|j: int|
                0 <= j < view.take(n as int).len() && view.take(n as int)[j] == view[n as int];
            assert(view[j] == view[n as int]);
        }
    }
    false
}

fn keep_first_of_each(p: &Vec<usize>, keys: &Vec<Vec<String>>) -> (r: Vec<usize>)
    requires
        p@.len() == keys@.len(),
    ensures
        positions(r@) == first_of_each(positions(p@), text_lists(keys@), p@.len()),
        forall|i: int| 0 <= i < r@.len() ==> p@.contains(#[trigger] r@[i]),
{
    let ghost order = positions(p@);
    let ghost view = text_lists(keys@);
    let mut out: Vec<usize> = Vec::new();
    let mut i: usize = 0;
    assert(positions(out@) =~= Seq::<int>::empty());
    while i < p.len()
        invariant
            i <= p@.len() == keys@.len(),
            order == positions(p@),
            view == text_lists(keys@),
            positions(out@) == first_of_each(order, view, i as nat),
            forall|j: int| 0 <= j < out@.len() ==> p@.contains(#[trigger] out@[j]),
        decreases p@.len() - i,
    {
        if !list_seen(keys, i) {
            let ghost before = out@;
            out.push(p[i]);
            assert(p@.contains(p@[i as int]));
            assert(positions(out@) =~= positions(before).push(order[i as int]));
        }
        i = i + 1;
    }
    out
}

/// The positions of a row's `DISTINCT ON` keys.
pub open spec fn distinct_positions(from: nat, to: nat) -> Seq<Option<int>> {
    Seq::new((to - from) as nat, |i: int| Some(from + i))
}

/// Sorts the output rows and keeps the first row of each `DISTINCT ON` key.
pub open spec fn arranged(
    sort: Seq<SortKey>,
    distinct_on: Seq<SortTarget>,
    outputs: Seq<Seq<char>>,
    names: Seq<Seq<char>>,
    lenient: bool,
    s: Staged,
    k: Known,
) -> Result<Seq<Seq<Val>>, Stop> {
    let total = sort.len() + distinct_on.len();
    if total == 0 {
        Ok(s.rows)
    } else {
        match key_sources(sort, distinct_on, total, outputs, names, lenient, k) {
            Err(e) => Err(e),
            Ok(sources) => {
                let keys = sort_keys(sources, s);
                match sorted_rows(keys, sort_orders(sort), s.rows.len(), k) {
                    Err(e) => Err(e),
                    Ok(p) => if distinct_on.len() == 0 {
                        Ok(reordered(s.rows, p))
                    } else {
                        match rows_keys(
                            reordered(keys, p),
                            distinct_positions(sort.len(), total),
                            p.len(),
                            k,
                        ) {
                            Err(e) => Err(e),
                            Ok(texts) => Ok(reordered(s.rows, first_of_each(p, texts, p.len()))),
                        }
                    },
                }
            },
        }
    }
}

fn pick_rows(rows: &Vec<Vec<Value>>, p: &Vec<usize>) -> (r: Vec<Vec<Value>>)
    requires
        forall|i: int| 0 <= i < p@.len() ==> (#[trigger] p@[i]) < rows@.len(),
    ensures
        rows_view(r@) == reordered(rows_view(rows@), positions(p@)),
        r@.len() == p@.len(),
{
    let mut out: Vec<Vec<Value>> = Vec::new();
    let mut i: usize = 0;
    while i < p.len()
        invariant
            i <= p@.len(),
            out@.len() == i,
            forall|i: int| 0 <= i < p@.len() ==> (#[trigger] p@[i]) < rows@.len(),
            forall|j: int| 0 <= j < i ==> vals((#[trigger] out@[j])@) == vals(rows@[p@[j] as int]@),
        decreases p@.len() - i,
    {
        out.push(clone_values(&rows[p[i]]));
        i = i + 1;
    }
    assert(rows_view(out@) =~= reordered(rows_view(rows@), positions(p@)));
    out
}

/// Sorts the output rows and keeps the first row, in sort order, of each
/// `DISTINCT ON` key.
pub fn arrange_rows(
    sort: &Vec<SortKey>,
    distinct_on: &Vec<SortTarget>,
    outputs: &Vec<String>,
    names: &Vec<String>,
    lenient: bool,
    s: StagedRows,
    facts: &Facts,
) -> (r: Result<Vec<Vec<Value>>, Halt>)
    requires
        sort@.len() + distinct_on@.len() <= usize::MAX,
    ensures
        rows_result(r) == arranged(
            sort@,
            distinct_on@,
            texts(outputs@),
            texts(names@),
            lenient,
            s@,
            facts@,
        ),
{
    let total: usize = sort.len() + distinct_on.len();
    if total == 0 {
        return Ok(s.rows);
    }
    let sources = match find_key_sources(sort, distinct_on, total, outputs, names, lenient, facts) {
        Ok(v) => v,
        Err(h) => {
            return Err(h);
        },
    };
    let keys = read_keys(&sources, &s);
    let orders = orders_of(sort);
    assert(rows_view(s.rows@).len() == s.rows@.len());
    let p = match sort_by_keys(&keys, &orders, facts) {
        Ok(p) => p,
        Err(h) => {
            return Err(h);
        },
    };
    if distinct_on.len() == 0 {
        return Ok(pick_rows(&s.rows, &p));
    }
    let sorted_keys = pick_rows(&keys, &p);
    let mut at: Vec<Option<usize>> = Vec::new();
    let mut i: usize = sort.len();
    while i < total
        invariant
            sort@.len() <= i <= total,
            at@.len() == i - sort@.len(),
            forall|j: int| 0 <= j < at@.len() ==> #[trigger] at@[j] == Some((sort@.len() + j) as usize),
        decreases total - i,
    {
        at.push(Some(i));
        i = i + 1;
    }
    assert(opt_ints(at@) =~= distinct_positions(sort@.len(), total as nat));
    let groups = match keys_of_rows(&sorted_keys, &at, facts) {
        Ok(g) => g,
        Err(h) => {
            return Err(h);
        },
    };
    assert(positions(p@).len() == p@.len());
    let kept = keep_first_of_each(&p, &groups);
    assert forall|i: int| 0 <= i < kept@.len() implies (#[trigger] kept@[i]) < s.rows@.len() by {
        assert(p@.contains(kept@[i]));
        let j = choose|j: int| 0 <= j < p@.len() && p@[j] == kept@[i];
        assert(p@[j] < keys@.len());
    }
    Ok(pick_rows(&s.rows, &kept))
}

// ---------------------------------------------------------------------------
// DISTINCT
// ---------------------------------------------------------------------------

/// Whether two rows compare equal from cell `i` on.
pub open spec fn rows_alike(a: Seq<Val>, b: Seq<Val>, i: int, k: Known) -> Result<bool, Stop>
    decreases a.len() - i,
{
    if i < 0 || i >= a.len() || i >= b.len() {
        Ok(true)
    } else {
        match ordered(a[i], b[i], k) {
            Err(s) => Err(s),
            Ok(rank) => if rank == Rank::Equal {
                rows_alike(a, b, i + 1, k)
            } else {
                Ok(false)
            },
        }
    }
}

/// Whether one of the rows from `j` on compares equal to `row`.
pub open spec fn row_seen(seen: Seq<Seq<Val>>, row: Seq<Val>, j: int, k: Known) -> Result<bool, Stop>
    decreases seen.len() - j,
{
    if j < 0 || j >= seen.len() {
        Ok(false)
    } else {
        match rows_alike(seen[j], row, 0, k) {
            Err(s) => Err(s),
            Ok(b) => if b {
                Ok(true)
            } else {
                row_seen(seen, row, j + 1, k)
            },
        }
    }
}

/// The rows that compare equal to no earlier one.
pub open spec fn distinct_rows(rows: Seq<Seq<Val>>, k: Known) -> Result<Seq<Seq<Val>>, Stop>
    decreases rows.len(),
{
    if rows.len() == 0 {
        Ok(Seq::empty())
    } else {
        match distinct_rows(rows.drop_last(), k) {
            Err(s) => Err(s),
            Ok(seen) => match row_seen(seen, rows.last(), 0, k) {
                Err(s) => Err(s),
                Ok(b) => Ok(
                    if b {
                        seen
                    } else {
                        seen.push(rows.last())
                    },
                ),
            },
        }
    }
}

fn alike(a: &Vec<Value>, b: &Vec<Value>, facts: &Facts) -> (r: Result<bool, Halt>)
    ensures
        bool_outcome(r) == rows_alike(vals(a@), vals(b@), 0, facts@),
{
    let ghost x = vals(a@);
    let ghost y = vals(b@);
    let mut i: usize = 0;
    while i < a.len() && i < b.len()
        invariant
            i <= a@.len(),
            i <= b@.len(),
            x == vals(a@),
            y == vals(b@),
            rows_alike(x, y, 0, facts@) == rows_alike(x, y, i as int, facts@),
        decreases a@.len() - i,
    {
        assert(x[i as int] == a@[i as int]@);
        assert(y[i as int] == b@[i as int]@);
        match compare(&a[i], &b[i], facts) {
            Err(h) => {
                return Err(h);
            },
            Ok(rank) => {
                if rank != Rank::Equal {
                    return Ok(false);
                }
            },
        }
        i = i + 1;
    }
    Ok(true)
}

fn is_row_seen(seen: &Vec<Vec<Value>>, row: &Vec<Value>, facts: &Facts) -> (r: Result<bool, Halt>)
    ensures
        bool_outcome(r) == row_seen(rows_view(seen@), vals(row@), 0, facts@),
{
    let ghost view = rows_view(seen@);
    let mut j: usize = 0;
    while j < seen.len()
        invariant
            j <= seen@.len(),
            view == rows_view(seen@),
            row_seen(view, vals(row@), 0, facts@) == row_seen(view, vals(row@), j as int, facts@),
        decreases seen@.len() - j,
    {
        assert(view[j as int] == vals(seen@[j as int]@));
        match alike(&seen[j], row, facts) {
            Err(h) => {
                return Err(h);
            },
            Ok(b) => {
                if b {
                    return Ok(true);
                }
            },
        }
        j = j + 1;
    }
    Ok(false)
}

proof fn lemma_distinct_fails(rows: Seq<Seq<Val>>, n: int, k: Known)
    requires
        0 <= n <= rows.len(),
        distinct_rows(rows.take(n), k) is Err,
    ensures
        distinct_rows(rows, k) == distinct_rows(rows.take(n), k),
    decreases rows.len(),
{
    if n < rows.len() {
        assert(rows.drop_last().take(n) =~= rows.take(n));
        lemma_distinct_fails(rows.drop_last(), n, k);
    } else {
        assert(rows.take(n) =~= rows);
    }
}

/// Keeps the first of the rows that compare equal.
pub fn keep_distinct(rows: &Vec<Vec<Value>>, facts: &Facts) -> (r: Result<Vec<Vec<Value>>, Halt>)
    ensures
        rows_result(r) == distinct_rows(rows_view(rows@), facts@),
{
    let ghost all = rows_view(rows@);
    let mut out: Vec<Vec<Value>> = Vec::new();
    let mut i: usize = 0;
    assert(all.take(0) =~= Seq::<Seq<Val>>::empty());
    assert(rows_view(out@) =~= Seq::<Seq<Val>>::empty());
    while i < rows.len()
        invariant
            i <= rows@.len(),
            all == rows_view(rows@),
            distinct_rows(all.take(i as int), facts@) == Ok::<Seq<Seq<Val>>, Stop>(
                rows_view(out@),
            ),
        decreases rows@.len() - i,
    {
        assert(all.take(i + 1).drop_last() =~= all.take(i as int));
        assert(all.take(i + 1).last() == vals(rows@[i as int]@));
        match is_row_seen(&out, &rows[i], facts) {
            Err(h) => {
                proof {
                    lemma_distinct_fails(all, i + 1, facts@);
                }
                return Err(h);
            },
            Ok(seen) => {
                if !seen {
                    let ghost before = out@;
                    out.push(clone_values(&rows[i]));
                    assert(rows_view(out@) =~= rows_view(before).push(all[i as int]));
                }
            },
        }
        i = i + 1;
    }
    assert(all.take(i as int) =~= all);
    Ok(out)
}

// ---------------------------------------------------------------------------
// OFFSET and LIMIT
// ---------------------------------------------------------------------------

/// The rows that OFFSET and LIMIT leave.
pub open spec fn sliced<T>(rows: Seq<T>, offset: Option<usize>, limit: Option<usize>) -> Seq<T> {
    let skipped = match offset {
        Some(o) => if o < rows.len() {
            rows.skip(o as int)
        } else {
            Seq::empty()
        },
        None => rows,
    };
    match limit {
        Some(n) => if n < skipped.len() {
            skipped.take(n as int)
        } else {
            skipped
        },
        None => skipped,
    }
}

/// The rows that OFFSET and LIMIT leave.
pub fn slice_rows(rows: &Vec<Vec<Value>>, offset: Option<usize>, limit: Option<usize>) -> (r: Vec<
    Vec<Value>,
>)
    ensures
        rows_view(r@) == sliced(rows_view(rows@), offset, limit),
{
    let n: usize = rows.len();
    let from: usize = match offset {
        Some(o) => if o < n {
            o
        } else {
            n
        },
        None => 0,
    };
    let to: usize = match limit {
        Some(l) => if l < n - from {
            from + l
        } else {
            n
        },
        None => n,
    };
    let ghost view = rows_view(rows@);
    let mut out: Vec<Vec<Value>> = Vec::new();
    let mut i: usize = from;
    while i < to
        invariant
            from <= i <= to <= rows@.len(),
            out@.len() == i - from,
            forall|j: int| 0 <= j < i - from ==> vals((#[trigger] out@[j])@) == vals(rows@[from + j]@),
        decreases to - i,
    {
        out.push(clone_values(&rows[i]));
        i = i + 1;
    }
    assert(rows_view(out@) =~= view.subrange(from as int, to as int));
    assert(view.subrange(from as int, to as int) =~= sliced(view, offset, limit));
    out
}

/// LIMIT and OFFSET read no further than their sum: the rows beyond it do not
/// matter.
pub proof fn law_slice_needs_only_a_prefix<T>(
    rows: Seq<T>,
    offset: Option<usize>,
    limit: usize,
    cap: int,
)
    requires
        cap >= limit + match offset {
            Some(o) => o as int,
            None => 0,
        },
        cap <= rows.len(),
    ensures
        sliced(rows.take(cap), offset, Some(limit)) == sliced(rows, offset, Some(limit)),
{
    assert(sliced(rows.take(cap), offset, Some(limit)) =~= sliced(rows, offset, Some(limit)));
}

} // verus!
