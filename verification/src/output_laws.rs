//! What ordering, slicing, and combining promise of the rows of a query.
use vstd::prelude::*;
use crate::arrange::{
    arranged, first_of_each, key_sources, key_target, rows_alike, sliced, sort_keys, sort_orders,
    KeySource, Staged,
};
use crate::facts::{Known, Stop};
use crate::ordering::{
    cell_rank, consistent, key_rank, keys_rank, law_plain_keys_order_consistently,
    law_sort_is_a_permutation, law_sort_orders_stably, sorted_rows, KeyOrder,
};
use crate::plan_types::{SetOpKind, SortKey, SortTarget};
use crate::render::Rank;
use crate::rows::QueryOutput;
use crate::set_ops::{combined, subquery_single};
use crate::value::Val;

verus! {

// ---------------------------------------------------------------------------
// ORDER BY
// ---------------------------------------------------------------------------

/// Under an ascending key a smaller integer comes first, under a descending one
/// a greater.
pub proof fn law_integers_order_by_direction(
    a: i64,
    b: i64,
    nulls_first: Option<bool>,
    k: Known,
)
    ensures
        ({
            let up = cell_rank(Val::Int(a), Val::Int(b), true, nulls_first, k);
            let down = cell_rank(Val::Int(a), Val::Int(b), false, nulls_first, k);
            &&& a < b <==> up == Ok::<Rank, Stop>(Rank::Less)
            &&& a > b <==> up == Ok::<Rank, Stop>(Rank::Greater)
            &&& a == b <==> up == Ok::<Rank, Stop>(Rank::Equal)
            &&& a > b <==> down == Ok::<Rank, Stop>(Rank::Less)
            &&& a < b <==> down == Ok::<Rank, Stop>(Rank::Greater)
            &&& a == b <==> down == Ok::<Rank, Stop>(Rank::Equal)
        }),
{
}

/// `NULLS FIRST` puts NULL before every value and `NULLS LAST` behind it, in
/// either direction; two NULLs are equal.
pub proof fn law_nulls_go_where_they_are_put(v: Val, ascending: bool, first: bool, k: Known)
    requires
        v != Val::Null,
    ensures
        cell_rank(Val::Null, v, ascending, Some(first), k) == Ok::<Rank, Stop>(
            if first {
                Rank::Less
            } else {
                Rank::Greater
            },
        ),
        cell_rank(v, Val::Null, ascending, Some(first), k) == Ok::<Rank, Stop>(
            if first {
                Rank::Greater
            } else {
                Rank::Less
            },
        ),
        cell_rank(v, Val::Null, ascending, None, k) == Ok::<Rank, Stop>(
            if ascending {
                Rank::Less
            } else {
                Rank::Greater
            },
        ),
        cell_rank(Val::Null, Val::Null, ascending, Some(first), k) == Ok::<Rank, Stop>(
            Rank::Equal,
        ),
        cell_rank(Val::Null, Val::Null, ascending, None, k) == Ok::<Rank, Stop>(Rank::Equal),
{
}

/// The first key that tells two rows apart decides; later keys do not count.
pub proof fn law_the_first_difference_decides(
    a: Seq<Val>,
    b: Seq<Val>,
    orders: Seq<KeyOrder>,
    from: int,
    n: int,
    k: Known,
)
    requires
        a.len() == orders.len(),
        b.len() == orders.len(),
        0 <= from <= n <= orders.len(),
        forall|i: int|
            from <= i < n ==> #[trigger] key_rank(a[i], b[i], orders[i], k) == Ok::<Rank, Stop>(
                Rank::Equal,
            ),
        n < orders.len() ==> key_rank(a[n], b[n], orders[n], k) != Ok::<Rank, Stop>(Rank::Equal),
    ensures
        keys_rank(a, b, orders, from, k) == (if n < orders.len() {
            key_rank(a[n], b[n], orders[n], k)
        } else {
            Ok(Rank::Equal)
        }),
    decreases n - from,
{
    if from < n {
        assert(key_rank(a[from], b[from], orders[from], k) == Ok::<Rank, Stop>(Rank::Equal));
        law_the_first_difference_decides(a, b, orders, from + 1, n, k);
    }
}

/// One integer key for each row.
pub open spec fn integer_keys(s: Seq<i64>) -> Seq<Seq<Val>> {
    Seq::new(s.len(), |i: int| seq![Val::Int(s[i])])
}

/// Rows sorted by one integer key come in ascending or descending order, each
/// row once, and rows of the same key in the order they had.
pub proof fn law_integer_keys_sort(s: Seq<i64>, ascending: bool, k: Known)
    ensures
        ({
            let orders = seq![KeyOrder::Directed { ascending, nulls_first: None }];
            let r = sorted_rows(integer_keys(s), orders, s.len(), k);
            let p = r->Ok_0;
            &&& r is Ok
            &&& p.len() == s.len()
            &&& forall|i: int| 0 <= i < p.len() ==> 0 <= #[trigger] p[i] < s.len()
            &&& forall|i: int, j: int|
                0 <= i < j < p.len() ==> {
                    &&& #[trigger] p[i] != #[trigger] p[j]
                    &&& ascending ==> s[p[i]] <= s[p[j]]
                    &&& !ascending ==> s[p[i]] >= s[p[j]]
                    &&& s[p[i]] == s[p[j]] ==> p[i] < p[j]
                }
        }),
{
    let order = KeyOrder::Directed { ascending, nulls_first: None };
    let orders = seq![order];
    let keys = integer_keys(s);
    law_plain_keys_order_consistently(keys, orders, s.len(), k);
    lemma_sorts(keys, orders, s.len(), s.len(), k);
    law_sort_is_a_permutation(keys, orders, s.len(), k);
    law_sort_orders_stably(keys, orders, s.len(), k);
    let p = sorted_rows(keys, orders, s.len(), k)->Ok_0;
    assert forall|i: int, j: int| 0 <= i < j < p.len() implies {
        &&& #[trigger] p[i] != #[trigger] p[j]
        &&& ascending ==> s[p[i]] <= s[p[j]]
        &&& !ascending ==> s[p[i]] >= s[p[j]]
        &&& s[p[i]] == s[p[j]] ==> p[i] < p[j]
    } by {
        let a = keys[p[i]];
        let b = keys[p[j]];
        assert(a[0] == Val::Int(s[p[i]]));
        assert(b[0] == Val::Int(s[p[j]]));
        law_integers_order_by_direction(s[p[i]], s[p[j]], None, k);
        reveal_with_fuel(keys_rank, 3);
        assert(keys_rank(a, b, orders, 0, k) == key_rank(a[0], b[0], orders[0], k));
    }
}

proof fn lemma_sorts(keys: Seq<Seq<Val>>, orders: Seq<KeyOrder>, n: nat, m: nat, k: Known)
    requires
        m <= n,
        consistent(keys, orders, n, k),
    ensures
        sorted_rows(keys, orders, m, k) is Ok,
    decreases m,
{
    if m > 0 {
        let l = (m - 1) as nat;
        lemma_sorts(keys, orders, n, l, k);
        law_sort_is_a_permutation(keys, orders, l, k);
        let p = sorted_rows(keys, orders, l, k)->Ok_0;
        lemma_has_slot(keys, orders, p, m - 1, p.len(), n, k);
    }
}

proof fn lemma_has_slot(
    keys: Seq<Seq<Val>>,
    orders: Seq<KeyOrder>,
    p: Seq<int>,
    x: int,
    j: nat,
    n: nat,
    k: Known,
)
    requires
        consistent(keys, orders, n, k),
        0 <= x < n,
        j <= p.len(),
        forall|i: int| 0 <= i < p.len() ==> 0 <= #[trigger] p[i] < n,
    ensures
        crate::ordering::slot(keys, orders, p, x, j, k) is Ok,
    decreases j,
{
    if j > 0 {
        assert(0 <= p[j - 1] < n);
        assert(keys_rank(keys[p[j - 1]], keys[x], orders, 0, k) is Ok);
        lemma_has_slot(keys, orders, p, x, (j - 1) as nat, n, k);
    }
}

/// `ORDER BY` an output column of integers gives the same rows in ascending
/// order of that column, and in descending order with `DESC`.
pub proof fn law_output_is_sorted_by_its_column(
    key: SortKey,
    c: usize,
    outputs: Seq<Seq<char>>,
    names: Seq<Seq<char>>,
    lenient: bool,
    s: Staged,
    values: Seq<i64>,
    k: Known,
)
    requires
        key.target == SortTarget::Output(c),
        key.nulls_first is None,
        c < outputs.len(),
        values.len() == s.rows.len(),
        forall|r: int|
            0 <= r < s.rows.len() ==> c < (#[trigger] s.rows[r]).len() && s.rows[r][c as int]
                == Val::Int(values[r]),
    ensures
        ({
            let out = arranged(seq![key], Seq::empty(), outputs, names, lenient, s, k);
            let rows = out->Ok_0;
            &&& out is Ok
            &&& rows.len() == s.rows.len()
            &&& forall|i: int| 0 <= i < rows.len() ==> s.rows.contains(#[trigger] rows[i])
            &&& forall|i: int, j: int|
                0 <= i < j < rows.len() ==> {
                    &&& key.ascending ==> (#[trigger] rows[i])[c as int]->Int_0 <= (
                    #[trigger] rows[j])[c as int]->Int_0
                    &&& !key.ascending ==> rows[i][c as int]->Int_0 >= rows[j][c as int]->Int_0
                }
        }),
{
    let sort = seq![key];
    let none = Seq::<SortTarget>::empty();
    assert(sort[0] == key);
    let source = KeySource::Output(c);
    assert(key_sources(sort, none, 0, outputs, names, lenient, k) == Ok::<Seq<KeySource>, Stop>(
        Seq::empty(),
    ));
    assert(key_target(sort, none, 0) == key.target);
    assert(key_sources(sort, none, 1, outputs, names, lenient, k) == Ok::<Seq<KeySource>, Stop>(
        Seq::empty().push(source),
    ));
    let sources = Seq::<KeySource>::empty().push(source);
    let keys = sort_keys(sources, s);
    assert forall|r: int| 0 <= r < s.rows.len() implies keys[r] == integer_keys(values)[r] by {
        assert(s.rows[r][c as int] == Val::Int(values[r]));
        assert(keys[r] =~= seq![Val::Int(values[r])]);
    }
    assert(keys =~= integer_keys(values));
    let orders = seq![KeyOrder::Directed { ascending: key.ascending, nulls_first: None }];
    assert(sort_orders(sort) =~= orders);
    law_integer_keys_sort(values, key.ascending, k);
    let p = sorted_rows(integer_keys(values), orders, values.len(), k)->Ok_0;
    let rows = arranged(sort, none, outputs, names, lenient, s, k)->Ok_0;
    assert forall|i: int, j: int| 0 <= i < j < rows.len() implies {
        &&& key.ascending ==> (#[trigger] rows[i])[c as int]->Int_0 <= (#[trigger] rows[j])[c as int]->Int_0
        &&& !key.ascending ==> rows[i][c as int]->Int_0 >= rows[j][c as int]->Int_0
    } by {
        assert(rows[i] == s.rows[p[i]] && rows[j] == s.rows[p[j]]);
        assert(p[i] != p[j]);
    }
    assert forall|i: int| 0 <= i < rows.len() implies s.rows.contains(#[trigger] rows[i]) by {
        assert(rows[i] == s.rows[p[i]]);
    }
}

// ---------------------------------------------------------------------------
// OFFSET and LIMIT
// ---------------------------------------------------------------------------

/// `LIMIT n OFFSET m` skips the first `m` rows and leaves at most `n` of the
/// others, in order; without either every row is left.
pub proof fn law_limit_and_offset_count_rows<T>(rows: Seq<T>, offset: usize, limit: usize)
    ensures
        ({
            let r = sliced(rows, Some(offset), Some(limit));
            let there = if rows.len() > offset {
                rows.len() - offset
            } else {
                0
            };
            &&& r.len() == (if limit < there {
                limit as int
            } else {
                there
            })
            &&& forall|i: int| 0 <= i < r.len() ==> #[trigger] r[i] == rows[offset + i]
        }),
        sliced(rows, None, Some(limit)) == sliced(rows, Some(0usize), Some(limit)),
        sliced(rows, Some(offset), None).len() + (if offset < rows.len() {
            offset as int
        } else {
            rows.len() as int
        }) == rows.len(),
        sliced(rows, None, None) == rows,
        offset < rows.len() ==> sliced(rows, Some(offset), None) == rows.skip(offset as int),
{
    assert(rows.skip(0) =~= rows);
    assert(rows.take(rows.len() as int) =~= rows);
    if rows.len() == 0 {
        assert(rows =~= Seq::empty());
    }
}

// ---------------------------------------------------------------------------
// DISTINCT
// ---------------------------------------------------------------------------

/// A row of integers.
pub open spec fn integers(s: Seq<i64>) -> Seq<Val> {
    s.map_values(|n: i64| Val::Int(n))
}

/// `DISTINCT` takes two rows of integers for the same exactly where every
/// integer is.
pub proof fn law_integer_rows_are_alike_where_the_same(a: Seq<i64>, b: Seq<i64>, i: int, k: Known)
    requires
        a.len() == b.len(),
        0 <= i <= a.len(),
    ensures
        rows_alike(integers(a), integers(b), i, k) == Ok::<bool, Stop>(
            forall|j: int| i <= j < a.len() ==> a[j] == b[j],
        ),
    decreases a.len() - i,
{
    if i < a.len() {
        assert(integers(a)[i] == Val::Int(a[i]));
        assert(integers(b)[i] == Val::Int(b[i]));
        law_integer_rows_are_alike_where_the_same(a, b, i + 1, k);
    }
}

/// `DISTINCT ON` keeps, of the rows of each key, the first in sort order: every
/// key has a row, and the row is the first of its key.
pub proof fn law_distinct_on_keeps_the_first(p: Seq<int>, keys: Seq<Seq<Seq<char>>>, n: nat)
    requires
        p.len() == keys.len(),
        n <= p.len(),
    ensures
        forall|j: int|
            0 <= j < n && !keys.take(j).contains(#[trigger] keys[j]) ==> first_of_each(
                p,
                keys,
                n,
            ).contains(p[j]),
        forall|i: int|
            0 <= i < first_of_each(p, keys, n).len() ==> exists|j: int|
                0 <= j < n && p[j] == #[trigger] first_of_each(p, keys, n)[i] && !keys.take(
                    j,
                ).contains(#[trigger] keys[j]),
    decreases n,
{
    if n > 0 {
        let m = (n - 1) as nat;
        law_distinct_on_keeps_the_first(p, keys, m);
        let rest = first_of_each(p, keys, m);
        let all = first_of_each(p, keys, n);
        assert forall|j: int| 0 <= j < n && !keys.take(j).contains(#[trigger] keys[j]) implies all.contains(
            p[j],
        ) by {
            if j < m {
                assert(rest.contains(p[j]));
                let i = choose|i: int| 0 <= i < rest.len() && rest[i] == p[j];
                assert(all[i] == p[j]);
            } else {
                assert(all[rest.len() as int] == p[j]);
            }
        }
        assert forall|i: int| 0 <= i < all.len() implies exists|j: int|
            0 <= j < n && p[j] == #[trigger] all[i] && !keys.take(j).contains(
                #[trigger] keys[j],
            ) by {
            if i < rest.len() {
                assert(rest[i] == all[i]);
                let j = choose|j: int|
                    0 <= j < m && p[j] == rest[i] && !keys.take(j).contains(#[trigger] keys[j]);
                assert(p[j] == all[i] && !keys.take(j).contains(keys[j]));
            } else {
                let j = m as int;
                assert(p[j] == all[i] && !keys.take(j).contains(keys[j]));
            }
        }
    }
}

// ---------------------------------------------------------------------------
// Set operations and scalar subqueries
// ---------------------------------------------------------------------------

/// `UNION ALL` gives the left rows, then the right rows; `UNION` with nothing
/// and `UNION` of the two sides taken together are the same.
pub proof fn law_union_follows_left_then_right(
    left: Seq<Seq<Val>>,
    right: Seq<Seq<Val>>,
    k: Known,
)
    ensures
        ({
            let r = combined(SetOpKind::Union, true, left, right, k);
            &&& r is Ok
            &&& r->Ok_0.len() == left.len() + right.len()
            &&& forall|i: int| 0 <= i < left.len() ==> #[trigger] r->Ok_0[i] == left[i]
            &&& forall|i: int|
                0 <= i < right.len() ==> #[trigger] r->Ok_0[left.len() + i] == right[i]
        }),
        combined(SetOpKind::Union, false, left, right, k) == combined(
            SetOpKind::Union,
            false,
            left + right,
            Seq::empty(),
            k,
        ),
{
    assert((left + right) + Seq::<Seq<Val>>::empty() =~= left + right);
}

/// A scalar subquery gives its one value, NULL where it has no row, and fails
/// where it has more than one row or not exactly one column.
pub proof fn law_a_scalar_subquery_has_one_value(out: QueryOutput)
    ensures
        subquery_single(out) is Err <==> out.columns@.len() != 1 || out.rows@.len() > 1,
        out.columns@.len() == 1 && out.rows@.len() == 0 ==> subquery_single(out) == Ok::<
            Val,
            Seq<char>,
        >(Val::Null),
        out.columns@.len() == 1 && out.rows@.len() == 1 && out.rows@[0]@.len() == 1
            ==> subquery_single(out) == Ok::<Val, Seq<char>>(out.rows@[0]@[0]),
{
}

} // verus!
