//! Grouping rows by keys.
use vstd::prelude::*;
use crate::cells::{cell_at_if, cell_if, clone_rows, groups_view};
use crate::facts::{asked, on_one, Facts, Halt, Known, Stop, Task, TaskView};
use crate::json_ops::texts_outcome;
use crate::render::{answered_text, rank_texts, text_rank, Rank};
use crate::text::texts;
use crate::value::{clone_values, rows_view, vals, Val, Value};
use crate::window::opt_ints;

verus! {

// ---------------------------------------------------------------------------
// Keys
// ---------------------------------------------------------------------------

/// How two lists of texts stand to each other: the first text that tells them
/// apart decides, and a list comes before the longer lists that it begins.
pub open spec fn list_rank(a: Seq<Seq<char>>, b: Seq<Seq<char>>, i: int) -> Rank
    decreases a.len() - i,
{
    if i >= a.len() || i < 0 {
        if i >= b.len() {
            Rank::Equal
        } else {
            Rank::Less
        }
    } else if i >= b.len() {
        Rank::Greater
    } else if text_rank(a[i], b[i]) != Rank::Equal {
        text_rank(a[i], b[i])
    } else {
        list_rank(a, b, i + 1)
    }
}

/// How two lists of texts stand to each other.
pub fn rank_lists(a: &Vec<String>, b: &Vec<String>) -> (r: Rank)
    ensures
        r == list_rank(texts(a@), texts(b@), 0),
{
    let ghost x = texts(a@);
    let ghost y = texts(b@);
    let mut i: usize = 0;
    while i < a.len()
        invariant
            i <= a@.len(),
            i <= b@.len(),
            x == texts(a@),
            y == texts(b@),
            list_rank(x, y, 0) == list_rank(x, y, i as int),
        decreases a@.len() - i,
    {
        if i >= b.len() {
            return Rank::Greater;
        }
        assert(x[i as int] == a@[i as int]@);
        assert(y[i as int] == b@[i as int]@);
        let rank = rank_texts(a[i].as_str(), b[i].as_str());
        if rank != Rank::Equal {
            return rank;
        }
        i = i + 1;
    }
    if i >= b.len() {
        Rank::Equal
    } else {
        Rank::Less
    }
}

proof fn lemma_text_equal(a: Seq<char>, b: Seq<char>)
    ensures
        text_rank(a, b) == Rank::Equal <==> a == b,
    decreases a.len(),
{
    if a.len() == 0 {
        assert(b.len() == 0 ==> a =~= b);
    } else if b.len() == 0 {
    } else {
        lemma_text_equal(a.skip(1), b.skip(1));
        if a[0] == b[0] && a.skip(1) == b.skip(1) {
            assert(a =~= seq![a[0]] + a.skip(1));
            assert(b =~= seq![b[0]] + b.skip(1));
        }
    }
}

/// Two lists rank equal exactly where they are the same.
pub proof fn law_equal_lists_are_the_same(a: Seq<Seq<char>>, b: Seq<Seq<char>>)
    ensures
        list_rank(a, b, 0) == Rank::Equal <==> a == b,
{
    assert(a.take(0) =~= b.take(0));
    lemma_equal_from(a, b, 0);
}

proof fn lemma_equal_from(a: Seq<Seq<char>>, b: Seq<Seq<char>>, i: int)
    requires
        0 <= i <= a.len(),
        i <= b.len(),
        a.take(i) == b.take(i),
    ensures
        list_rank(a, b, i) == Rank::Equal <==> a == b,
    decreases a.len() - i,
{
    if i >= a.len() {
        if i >= b.len() {
            assert(a.take(i) =~= a);
            assert(b.take(i) =~= b);
        }
    } else if i < b.len() {
        lemma_text_equal(a[i], b[i]);
        if a[i] == b[i] {
            assert(a.take(i + 1) =~= a.take(i).push(a[i]));
            assert(b.take(i + 1) =~= b.take(i).push(b[i]));
            lemma_equal_from(a, b, i + 1);
        }
    }
}

/// The texts under which the first `n` of a row's key cells are grouped.
pub open spec fn row_key_texts(row: Seq<Val>, at: Seq<Option<int>>, n: nat, k: Known) -> Result<
    Seq<Seq<char>>,
    Stop,
>
    decreases n,
{
    if n == 0 {
        Ok(Seq::empty())
    } else {
        match row_key_texts(row, at, (n - 1) as nat, k) {
            Err(s) => Err(s),
            Ok(done) => match asked(k, on_one(TaskView::GroupKey, cell_if(row, at[n - 1]))) {
                Err(s) => Err(s),
                Ok(v) => Ok(done.push(answered_text(v))),
            },
        }
    }
}

proof fn lemma_key_texts_fail(row: Seq<Val>, at: Seq<Option<int>>, n: nat, m: nat, k: Known)
    requires
        n <= m,
        row_key_texts(row, at, n, k) is Err,
    ensures
        row_key_texts(row, at, m, k) == row_key_texts(row, at, n, k),
    decreases m,
{
    if n < m {
        lemma_key_texts_fail(row, at, n, (m - 1) as nat, k);
    }
}

/// The texts under which a row's key cells are grouped.
pub fn key_texts_of(row: &Vec<Value>, at: &Vec<Option<usize>>, facts: &Facts) -> (r: Result<
    Vec<String>,
    Halt,
>)
    ensures
        texts_outcome(r) == row_key_texts(vals(row@), opt_ints(at@), at@.len(), facts@),
{
    let ghost places = opt_ints(at@);
    let mut out: Vec<String> = Vec::new();
    let mut i: usize = 0;
    assert(texts(out@) =~= Seq::<Seq<char>>::empty());
    while i < at.len()
        invariant
            i <= at@.len(),
            places == opt_ints(at@),
            row_key_texts(vals(row@), places, i as nat, facts@) == Ok::<Seq<Seq<char>>, Stop>(
                texts(out@),
            ),
        decreases at@.len() - i,
    {
        let v = cell_at_if(row, at[i]);
        match facts.ask_one(Task::GroupKey, &v) {
            Err(h) => {
                proof {
                    lemma_key_texts_fail(vals(row@), places, (i + 1) as nat, at@.len(), facts@);
                }
                return Err(h);
            },
            Ok(answer) => {
                let ghost before = out@;
                let t = match answer {
                    Value::Text(t) => t,
                    _ => String::new(),
                };
                assert(t@ =~= answered_text(answer@));
                out.push(t);
                assert(texts(out@) =~= texts(before).push(t@));
            },
        }
        i = i + 1;
    }
    Ok(out)
}

/// Lists of texts.
pub open spec fn text_lists(s: Seq<Vec<String>>) -> Seq<Seq<Seq<char>>> {
    Seq::new(s.len(), |i: int| texts(s[i]@))
}

/// What a result of lists of texts stands for.
pub open spec fn lists_outcome(r: Result<Vec<Vec<String>>, Halt>) -> Result<
    Seq<Seq<Seq<char>>>,
    Stop,
> {
    match r {
        Ok(v) => Ok(text_lists(v@)),
        Err(h) => Err(h@),
    }
}

/// The keys of the first `n` rows.
pub open spec fn rows_keys(rows: Seq<Seq<Val>>, at: Seq<Option<int>>, n: nat, k: Known) -> Result<
    Seq<Seq<Seq<char>>>,
    Stop,
>
    decreases n,
{
    if n == 0 {
        Ok(Seq::empty())
    } else {
        match rows_keys(rows, at, (n - 1) as nat, k) {
            Err(s) => Err(s),
            Ok(done) => match row_key_texts(rows[n - 1], at, at.len(), k) {
                Err(s) => Err(s),
                Ok(key) => Ok(done.push(key)),
            },
        }
    }
}

proof fn lemma_rows_keys_fail(rows: Seq<Seq<Val>>, at: Seq<Option<int>>, n: nat, m: nat, k: Known)
    requires
        n <= m,
        rows_keys(rows, at, n, k) is Err,
    ensures
        rows_keys(rows, at, m, k) == rows_keys(rows, at, n, k),
    decreases m,
{
    if n < m {
        lemma_rows_keys_fail(rows, at, n, (m - 1) as nat, k);
    }
}

/// The keys of the rows.
pub fn keys_of_rows(rows: &Vec<Vec<Value>>, at: &Vec<Option<usize>>, facts: &Facts) -> (r: Result<
    Vec<Vec<String>>,
    Halt,
>)
    ensures
        lists_outcome(r) == rows_keys(rows_view(rows@), opt_ints(at@), rows@.len(), facts@),
        r is Ok ==> r->Ok_0@.len() == rows@.len(),
{
    let ghost view = rows_view(rows@);
    let ghost places = opt_ints(at@);
    let mut out: Vec<Vec<String>> = Vec::new();
    let mut i: usize = 0;
    assert(text_lists(out@) =~= Seq::<Seq<Seq<char>>>::empty());
    while i < rows.len()
        invariant
            i <= rows@.len(),
            out@.len() == i,
            view == rows_view(rows@),
            places == opt_ints(at@),
            places.len() == at@.len(),
            rows_keys(view, places, i as nat, facts@) == Ok::<Seq<Seq<Seq<char>>>, Stop>(
                text_lists(out@),
            ),
        decreases rows@.len() - i,
    {
        assert(view[i as int] == vals(rows@[i as int]@));
        match key_texts_of(&rows[i], at, facts) {
            Err(h) => {
                proof {
                    lemma_rows_keys_fail(view, places, (i + 1) as nat, rows@.len(), facts@);
                }
                return Err(h);
            },
            Ok(key) => {
                let ghost before = out@;
                out.push(key);
                assert(text_lists(out@) =~= text_lists(before).push(texts(key@)));
            },
        }
        i = i + 1;
    }
    Ok(out)
}

// ---------------------------------------------------------------------------
// Groups
// ---------------------------------------------------------------------------

/// Groups of rows, in the order of their keys.
#[verifier::ext_equal]
pub struct Groups {
    pub keys: Seq<Seq<Seq<char>>>,
    pub rows: Seq<Seq<Seq<Val>>>,
}

/// Where a key is, or belongs, among sorted keys, from `i` on.
pub open spec fn key_slot(keys: Seq<Seq<Seq<char>>>, key: Seq<Seq<char>>, i: int) -> int
    decreases keys.len() - i,
{
    if i < 0 || i >= keys.len() || list_rank(keys[i], key, 0) != Rank::Less {
        i
    } else {
        key_slot(keys, key, i + 1)
    }
}

/// The groups with one more row.
pub open spec fn with_row(g: Groups, key: Seq<Seq<char>>, row: Seq<Val>) -> Groups {
    let at = key_slot(g.keys, key, 0);
    if at < g.keys.len() && list_rank(g.keys[at], key, 0) == Rank::Equal {
        Groups { keys: g.keys, rows: g.rows.update(at, g.rows[at].push(row)) }
    } else {
        Groups { keys: g.keys.insert(at, key), rows: g.rows.insert(at, seq![row]) }
    }
}

/// The groups of the first `n` rows.
pub open spec fn grouped(keys: Seq<Seq<Seq<char>>>, rows: Seq<Seq<Val>>, n: nat) -> Groups
    decreases n,
{
    if n == 0 {
        Groups { keys: Seq::empty(), rows: Seq::empty() }
    } else {
        with_row(grouped(keys, rows, (n - 1) as nat), keys[n - 1], rows[n - 1])
    }
}

proof fn lemma_slot_range(keys: Seq<Seq<Seq<char>>>, key: Seq<Seq<char>>, i: int)
    requires
        0 <= i <= keys.len(),
    ensures
        i <= key_slot(keys, key, i) <= keys.len(),
        forall|j: int|
            i <= j < key_slot(keys, key, i) ==> list_rank(#[trigger] keys[j], key, 0) == Rank::Less,
        key_slot(keys, key, i) < keys.len() ==> list_rank(
            keys[key_slot(keys, key, i)],
            key,
            0,
        ) != Rank::Less,
    decreases keys.len() - i,
{
    if i < keys.len() && list_rank(keys[i], key, 0) == Rank::Less {
        lemma_slot_range(keys, key, i + 1);
    }
}

proof fn lemma_grouped_shape(keys: Seq<Seq<Seq<char>>>, rows: Seq<Seq<Val>>, n: nat)
    ensures
        grouped(keys, rows, n).keys.len() == grouped(keys, rows, n).rows.len(),
    decreases n,
{
    if n > 0 {
        lemma_grouped_shape(keys, rows, (n - 1) as nat);
        lemma_slot_range(grouped(keys, rows, (n - 1) as nat).keys, keys[n - 1], 0);
    }
}

/// The rows among the first `n` that have a key.
pub open spec fn rows_with_key(
    keys: Seq<Seq<Seq<char>>>,
    rows: Seq<Seq<Val>>,
    key: Seq<Seq<char>>,
    n: nat,
) -> Seq<Seq<Val>>
    decreases n,
{
    if n == 0 {
        Seq::empty()
    } else {
        let rest = rows_with_key(keys, rows, key, (n - 1) as nat);
        if keys[n - 1] == key {
            rest.push(rows[n - 1])
        } else {
            rest
        }
    }
}

/// Each group holds exactly the rows that have its key, in their order, and
/// every row is in the group of its key.
#[verifier::spinoff_prover]
pub proof fn law_groups_collect_equal_keys(
    keys: Seq<Seq<Seq<char>>>,
    rows: Seq<Seq<Val>>,
    n: nat,
)
    requires
        n <= keys.len(),
        n <= rows.len(),
    ensures
        ({
            let g = grouped(keys, rows, n);
            &&& g.keys.len() == g.rows.len()
            &&& forall|i: int|
                0 <= i < g.keys.len() ==> g.rows[i] == rows_with_key(
                    keys,
                    rows,
                    #[trigger] g.keys[i],
                    n,
                ) && g.rows[i].len() > 0
            &&& forall|j: int| 0 <= j < n ==> g.keys.contains(#[trigger] keys[j])
            &&& forall|a: int, b: int| 0 <= a < b < g.keys.len() ==> g.keys[a] != g.keys[b]
        }),
    decreases n,
{
    if n > 0 {
        let m = (n - 1) as nat;
        law_groups_collect_equal_keys(keys, rows, m);
        lemma_keys_ascend(keys, rows, m);
        lemma_keys_ascend(keys, rows, n);
        let g = grouped(keys, rows, m);
        let key = keys[n - 1];
        let at = key_slot(g.keys, key, 0);
        lemma_slot_range(g.keys, key, 0);
        let h = grouped(keys, rows, n);
        if at < g.keys.len() && list_rank(g.keys[at], key, 0) == Rank::Equal {
            law_equal_lists_are_the_same(g.keys[at], key);
            assert(g.keys[at] == key);
            assert(h.keys == g.keys);
            assert forall|i: int| 0 <= i < h.keys.len() implies h.rows[i] == rows_with_key(
                keys,
                rows,
                #[trigger] h.keys[i],
                n,
            ) && h.rows[i].len() > 0 by {
                assert(g.rows[i] == rows_with_key(keys, rows, g.keys[i], m));
                if i == at {
                    assert(h.rows[i] == g.rows[i].push(rows[n - 1]));
                } else {
                    assert(h.rows[i] == g.rows[i]);
                    if i < at {
                        assert(g.keys[i] != g.keys[at]);
                    } else {
                        assert(g.keys[at] != g.keys[i]);
                    }
                }
            }
            assert forall|j: int| 0 <= j < n implies h.keys.contains(#[trigger] keys[j]) by {
                if j < m {
                    assert(g.keys.contains(keys[j]));
                } else {
                    assert(h.keys[at] == keys[j]);
                }
            }
        } else {
            // The key is new: every key before it is smaller, and the one at
            // its place, if any, is larger.
            assert forall|i: int| 0 <= i < g.keys.len() implies g.keys[i] != key by {
                law_equal_lists_are_the_same(g.keys[i], key);
                if i >= at {
                    lemma_not_less_beyond(g.keys, key, at, i);
                }
            }
            lemma_no_rows_with_key(keys, rows, g.keys, key, m);
            assert forall|i: int| 0 <= i < h.keys.len() implies h.rows[i] == rows_with_key(
                keys,
                rows,
                #[trigger] h.keys[i],
                n,
            ) && h.rows[i].len() > 0 by {
                if i < at {
                    assert(h.keys[i] == g.keys[i]);
                    assert(h.rows[i] == g.rows[i]);
                    assert(g.rows[i] == rows_with_key(keys, rows, g.keys[i], m));
                } else if i == at {
                    assert(h.keys[i] == key);
                    assert(h.rows[i] =~= Seq::<Seq<Val>>::empty().push(rows[n - 1]));
                } else {
                    assert(h.keys[i] == g.keys[i - 1]);
                    assert(h.rows[i] == g.rows[i - 1]);
                    assert(g.rows[i - 1] == rows_with_key(keys, rows, g.keys[i - 1], m));
                }
            }
            assert forall|j: int| 0 <= j < n implies h.keys.contains(#[trigger] keys[j]) by {
                if j < m {
                    let i = choose|i: int| 0 <= i < g.keys.len() && g.keys[i] == keys[j];
                    if i < at {
                        assert(h.keys[i] == keys[j]);
                    } else {
                        assert(h.keys[i + 1] == keys[j]);
                    }
                } else {
                    assert(h.keys[at] == keys[j]);
                }
            }
        }
        assert forall|a: int, b: int| 0 <= a < b < h.keys.len() implies h.keys[a] != h.keys[b] by {
            assert(list_rank(h.keys[a], h.keys[b], 0) == Rank::Less);
            law_equal_lists_are_the_same(h.keys[a], h.keys[b]);
        }
    }
}

proof fn lemma_no_rows_with_key(
    keys: Seq<Seq<Seq<char>>>,
    rows: Seq<Seq<Val>>,
    known: Seq<Seq<Seq<char>>>,
    key: Seq<Seq<char>>,
    n: nat,
)
    requires
        forall|j: int| 0 <= j < n ==> known.contains(#[trigger] keys[j]),
        forall|i: int| 0 <= i < known.len() ==> known[i] != key,
    ensures
        rows_with_key(keys, rows, key, n).len() == 0,
    decreases n,
{
    if n > 0 {
        assert(known.contains(keys[n - 1]));
        lemma_no_rows_with_key(keys, rows, known, key, (n - 1) as nat);
    }
}

/// Whether keys are in strictly ascending order.
pub open spec fn ascending(keys: Seq<Seq<Seq<char>>>) -> bool {
    forall|a: int, b: int|
        0 <= a < b < keys.len() ==> list_rank(#[trigger] keys[a], #[trigger] keys[b], 0)
            == Rank::Less
}

proof fn lemma_not_less_beyond(
    keys: Seq<Seq<Seq<char>>>,
    key: Seq<Seq<char>>,
    at: int,
    i: int,
)
    requires
        ascending(keys),
        0 <= at <= i < keys.len(),
        list_rank(keys[at], key, 0) == Rank::Greater,
    ensures
        list_rank(keys[i], key, 0) == Rank::Greater,
{
    if at < i {
        assert(list_rank(keys[at], keys[i], 0) == Rank::Less);
        lemma_rank_flips(keys[at], key, 0);
        lemma_rank_transitive(key, keys[at], keys[i], 0);
        lemma_rank_flips(key, keys[i], 0);
    }
}

proof fn lemma_rank_flips(a: Seq<Seq<char>>, b: Seq<Seq<char>>, i: int)
    requires
        0 <= i,
    ensures
        list_rank(b, a, i) == list_rank(a, b, i).flipped(),
    decreases a.len() - i,
{
    if i < a.len() && i < b.len() {
        crate::render::law_text_rank_is_antisymmetric(a[i], b[i]);
        if text_rank(a[i], b[i]) == Rank::Equal {
            lemma_rank_flips(a, b, i + 1);
        }
    }
}

proof fn lemma_rank_transitive(a: Seq<Seq<char>>, b: Seq<Seq<char>>, c: Seq<Seq<char>>, i: int)
    requires
        0 <= i,
        list_rank(a, b, i) == Rank::Less,
        list_rank(b, c, i) == Rank::Less,
    ensures
        list_rank(a, c, i) == Rank::Less,
    decreases b.len() - i,
{
    if i < a.len() && i < b.len() && i < c.len() {
        lemma_text_equal(a[i], b[i]);
        lemma_text_equal(b[i], c[i]);
        if text_rank(a[i], b[i]) == Rank::Equal && text_rank(b[i], c[i]) == Rank::Equal {
            lemma_rank_transitive(a, b, c, i + 1);
        } else if text_rank(a[i], b[i]) == Rank::Less && text_rank(b[i], c[i]) == Rank::Less {
            crate::render::law_text_rank_is_transitive(a[i], b[i], c[i]);
        }
    }
}

/// The groups come in strictly ascending order of their keys.
pub proof fn law_groups_come_in_key_order(
    keys: Seq<Seq<Seq<char>>>,
    rows: Seq<Seq<Val>>,
    n: nat,
)
    ensures
        ascending(grouped(keys, rows, n).keys),
{
    lemma_keys_ascend(keys, rows, n);
}

proof fn lemma_keys_ascend(keys: Seq<Seq<Seq<char>>>, rows: Seq<Seq<Val>>, n: nat)
    ensures
        ascending(grouped(keys, rows, n).keys),
        forall|a: int, b: int|
            0 <= a < b < grouped(keys, rows, n).keys.len() ==> grouped(keys, rows, n).keys[a]
                != grouped(keys, rows, n).keys[b],
    decreases n,
{
    if n > 0 {
        let m = (n - 1) as nat;
        lemma_keys_ascend(keys, rows, m);
        let g = grouped(keys, rows, m);
        let key = keys[n - 1];
        let at = key_slot(g.keys, key, 0);
        lemma_slot_range(g.keys, key, 0);
        let h = grouped(keys, rows, n);
        if !(at < g.keys.len() && list_rank(g.keys[at], key, 0) == Rank::Equal) {
            assert forall|a: int, b: int| 0 <= a < b < h.keys.len() implies list_rank(
                #[trigger] h.keys[a],
                #[trigger] h.keys[b],
                0,
            ) == Rank::Less by {
                if b < at {
                    assert(h.keys[a] == g.keys[a] && h.keys[b] == g.keys[b]);
                } else if b == at {
                    assert(h.keys[a] == g.keys[a] && h.keys[b] == key);
                } else if a < at {
                    assert(h.keys[a] == g.keys[a] && h.keys[b] == g.keys[b - 1]);
                } else if a == at {
                    assert(h.keys[a] == key && h.keys[b] == g.keys[b - 1]);
                    lemma_not_less_beyond(g.keys, key, at, b - 1);
                    lemma_rank_flips(g.keys[b - 1], key, 0);
                } else {
                    assert(h.keys[a] == g.keys[a - 1] && h.keys[b] == g.keys[b - 1]);
                }
            }
        }
        let ks = grouped(keys, rows, n).keys;
        assert forall|a: int, b: int| 0 <= a < b < ks.len() implies ks[a] != ks[b] by {
            assert(list_rank(ks[a], ks[b], 0) == Rank::Less);
            law_equal_lists_are_the_same(ks[a], ks[b]);
        }
    }
}

fn find_slot(keys: &Vec<Vec<String>>, key: &Vec<String>) -> (r: (usize, bool))
    ensures
        r.0 == key_slot(text_lists(keys@), texts(key@), 0),
        r.0 <= keys@.len(),
        r.1 == (r.0 < keys@.len() && list_rank(
            text_lists(keys@)[r.0 as int],
            texts(key@),
            0,
        ) == Rank::Equal),
{
    let ghost view = text_lists(keys@);
    let mut i: usize = 0;
    while i < keys.len()
        invariant
            i <= keys@.len(),
            view == text_lists(keys@),
            key_slot(view, texts(key@), 0) == key_slot(view, texts(key@), i as int),
        decreases keys@.len() - i,
    {
        assert(view[i as int] == texts(keys@[i as int]@));
        let rank = rank_lists(&keys[i], key);
        if rank == Rank::Equal {
            return (i, true);
        }
        if rank == Rank::Greater {
            return (i, false);
        }
        i = i + 1;
    }
    (i, false)
}

/// The rows of each group, in the order of the groups' keys.
pub fn group_rows(keys: Vec<Vec<String>>, rows: &Vec<Vec<Value>>) -> (r: Vec<Vec<Vec<Value>>>)
    requires
        keys@.len() == rows@.len(),
    ensures
        groups_view(r@) == grouped(text_lists(keys@), rows_view(rows@), rows@.len()).rows,
{
    let ghost all = text_lists(keys@);
    let ghost view = rows_view(rows@);
    let mut known: Vec<Vec<String>> = Vec::new();
    let mut groups: Vec<Vec<Vec<Value>>> = Vec::new();
    let mut i: usize = 0;
    assert(text_lists(known@) =~= Seq::<Seq<Seq<char>>>::empty());
    assert(groups_view(groups@) =~= Seq::<Seq<Seq<Val>>>::empty());
    while i < rows.len()
        invariant
            i <= rows@.len(),
            keys@.len() == rows@.len(),
            known@.len() == groups@.len(),
            all == text_lists(keys@),
            view == rows_view(rows@),
            grouped(all, view, i as nat) == (Groups {
                keys: text_lists(known@),
                rows: groups_view(groups@),
            }),
        decreases rows@.len() - i,
    {
        assert(all[i as int] == texts(keys@[i as int]@));
        assert(view[i as int] == vals(rows@[i as int]@));
        let ghost old_keys = known@;
        let ghost old_groups = groups@;
        let (at, there) = find_slot(&known, &keys[i]);
        if there {
            let mut here = clone_rows(&groups[at]);
            let ghost before = here@;
            here.push(clone_values(&rows[i]));
            assert(rows_view(here@) =~= rows_view(before).push(view[i as int]));
            groups.set(at, here);
            assert(groups_view(groups@) =~= groups_view(old_groups).update(
                at as int,
                groups_view(old_groups)[at as int].push(view[i as int]),
            ));
        } else {
            let first: Vec<Vec<Value>> = vec![clone_values(&rows[i])];
            assert(rows_view(first@) =~= seq![view[i as int]]);
            let key = crate::text::clone_texts(&keys[i]);
            known.insert(at, key);
            groups.insert(at, first);
            assert(text_lists(known@) =~= text_lists(old_keys).insert(at as int, all[i as int]));
            assert(groups_view(groups@) =~= groups_view(old_groups).insert(
                at as int,
                seq![view[i as int]],
            ));
        }
        i = i + 1;
    }
    groups
}

/// The groups of rows under one grouping set: for no rows and an empty set,
/// one empty group.
pub open spec fn set_groups(rows: Seq<Seq<Val>>, at: Seq<Option<int>>, k: Known) -> Result<
    Seq<Seq<Seq<Val>>>,
    Stop,
> {
    if rows.len() == 0 && at.len() == 0 {
        Ok(seq![Seq::empty()])
    } else {
        match rows_keys(rows, at, rows.len(), k) {
            Err(s) => Err(s),
            Ok(keys) => Ok(grouped(keys, rows, rows.len()).rows),
        }
    }
}

/// What a result of groups stands for.
pub open spec fn groups_outcome(r: Result<Vec<Vec<Vec<Value>>>, Halt>) -> Result<
    Seq<Seq<Seq<Val>>>,
    Stop,
> {
    match r {
        Ok(g) => Ok(groups_view(g@)),
        Err(h) => Err(h@),
    }
}

/// The groups of rows under one grouping set.
pub fn group_by_set(rows: &Vec<Vec<Value>>, at: &Vec<Option<usize>>, facts: &Facts) -> (r: Result<
    Vec<Vec<Vec<Value>>>,
    Halt,
>)
    ensures
        groups_outcome(r) == set_groups(rows_view(rows@), opt_ints(at@), facts@),
{
    if rows.len() == 0 && at.len() == 0 {
        // An empty set, but a scalar aggregate like COUNT(*) yields one row.
        let empty: Vec<Vec<Value>> = Vec::new();
        assert(rows_view(empty@) =~= Seq::<Seq<Val>>::empty());
        let out: Vec<Vec<Vec<Value>>> = vec![empty];
        assert(groups_view(out@) =~= seq![Seq::<Seq<Val>>::empty()]);
        return Ok(out);
    }
    match keys_of_rows(rows, at, facts) {
        Err(h) => Err(h),
        Ok(keys) => Ok(group_rows(keys, rows)),
    }
}

/// An aggregate over no rows, without grouping columns, still has its one
/// group.
pub proof fn law_no_rows_make_one_group(k: Known)
    ensures
        set_groups(Seq::empty(), Seq::empty(), k) == Ok::<Seq<Seq<Seq<Val>>>, Stop>(
            seq![Seq::empty()],
        ),
{
}

} // verus!
