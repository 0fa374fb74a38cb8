//! What joins promise of their rows, by the type of the join and however its
//! rows are matched.
use vstd::prelude::*;
use crate::cells::{cell, is_true, nulls, passing, row_answers};
use crate::facts::{Known, Stop, TaskView};
use crate::join::{
    bare_names, condition_subject, condition_verdicts, contribution, equality_verdicts, joined,
    joined_upto, matched_names, name_pairs, pairings, pairs_equal, pairs_upto, prefixed,
    relation_name, right_matched, right_rows, shared_names, unmatched_right, Rel, Side,
};
use crate::codes::filter_code;
use crate::plan_types::Join;
use crate::render::equal_values;
use crate::text::{index_of, lemma_index_of, lower, texts};
use crate::value::Val;

verus! {

/// Whether each row has a cell for each column.
pub open spec fn regular(r: Rel) -> bool {
    forall|i: int| 0 <= i < r.rows.len() ==> (#[trigger] r.rows[i]).len() == r.columns.len()
}

/// Whether a column is the first of its name, compared without case and
/// without the relation it belongs to.
pub open spec fn first_of_its_name(columns: Seq<Seq<char>>, c: int) -> bool {
    0 <= c < columns.len() && forall|b: int|
        0 <= b < c ==> #[trigger] bare_names(columns)[b] != bare_names(columns)[c]
}

/// Whether a name is among those of a `USING` list, compared without case.
pub open spec fn is_used(using: Seq<Seq<char>>, name: Seq<char>) -> bool {
    exists|i: int| 0 <= i < using.len() && #[trigger] lower(using[i]) == name
}

/// The place of the pair of the left row at `i` and the right row at `j`, of
/// `n` right rows.
pub open spec fn pair_at(i: int, j: int, n: nat) -> int {
    i * n + j
}

/// Whether the left row at `i` and the right row at `j` match: with `USING` or
/// `NATURAL`, where they are equal in every column whose name both sides have
/// (and that the list holds); otherwise where the condition holds of them.
pub open spec fn pair_matches(
    left: Rel,
    join: Join,
    right: Rel,
    i: int,
    j: int,
    k: Known,
) -> bool {
    let prefix = relation_name(join.table_alias, join.table_name);
    let others = prefixed(prefix, right.columns);
    if join.natural || join.using_columns@.len() > 0 {
        forall|c: int, d: int|
            #![trigger bare_names(left.columns)[c], bare_names(others)[d]]
            first_of_its_name(left.columns, c) && first_of_its_name(others, d) && bare_names(
                left.columns,
            )[c] == bare_names(others)[d] && (join.natural || is_used(
                texts(join.using_columns@),
                bare_names(left.columns)[c],
            )) ==> equal_values(left.rows[i][c], right.rows[j][d], k) == Ok::<bool, Stop>(true)
    } else {
        match join.condition {
            Some(f) => is_true(
                cell(
                    row_answers(
                        TaskView::Conditions,
                        condition_subject(
                            filter_code(f),
                            left.types + crate::join::padded_types(
                                right.types,
                                right.columns.len(),
                            ),
                        ),
                        left.columns + others,
                        pairs_upto(left.rows, Side::Shared(right.rows), left.rows.len()),
                        k,
                    )->Ok_0,
                    pair_at(i, j, right.rows.len()),
                ),
            ),
            None => true,
        }
    }
}

/// The positions of the right rows that match the left row at `i`, in order.
pub open spec fn matches_of(left: Rel, join: Join, right: Rel, i: int, k: Known) -> Seq<int> {
    Seq::new(right.rows.len(), |j: int| j).filter(|j: int| pair_matches(left, join, right, i, j, k))
}

/// Whether no right row matches the left row at `i`.
pub open spec fn unmatched(left: Rel, join: Join, right: Rel, i: int, k: Known) -> bool {
    forall|j: int| 0 <= j < right.rows.len() ==> !#[trigger] pair_matches(left, join, right, i, j, k)
}

/// The rows, without NULLs added, of the left row at `i` beside each of the
/// right rows that match it.
pub open spec fn matched_rows(
    left: Rel,
    join: Join,
    right: Rel,
    i: int,
    k: Known,
) -> Seq<Seq<Val>> {
    matches_of(left, join, right, i, k).map_values(|j: int| left.rows[i] + right.rows[j])
}

// ---------------------------------------------------------------------------
// Pairs
// ---------------------------------------------------------------------------

proof fn lemma_pairs(left: Seq<Seq<Val>>, right: Seq<Seq<Val>>, n: nat)
    requires
        n <= left.len(),
    ensures
        pairs_upto(left, Side::Shared(right), n).len() == n * right.len(),
        forall|i: int, j: int|
            #![trigger pair_at(i, j, right.len())]
            0 <= i < n && 0 <= j < right.len() ==> 0 <= pair_at(i, j, right.len()) < n
                * right.len() && pairs_upto(left, Side::Shared(right), n)[pair_at(
                i,
                j,
                right.len(),
            )] == left[i] + right[j],
    decreases n,
{
    if n == 0 {
        assert(0 * right.len() == 0);
    } else {
        let m = (n - 1) as nat;
        lemma_pairs(left, right, m);
        let before = pairs_upto(left, Side::Shared(right), m);
        let last = pairings(left[m as int], right);
        let all = pairs_upto(left, Side::Shared(right), n);
        assert(all == before + last);
        assert(n * right.len() == m * right.len() + right.len()) by (nonlinear_arith)
            requires
                n == m + 1,
        ;
        assert forall|i: int, j: int|
            #![trigger pair_at(i, j, right.len())]
            0 <= i < n && 0 <= j < right.len() implies 0 <= pair_at(i, j, right.len()) < n
            * right.len() && all[pair_at(i, j, right.len())] == left[i] + right[j] by {
            let at = pair_at(i, j, right.len());
            if i < m {
                assert(0 <= at < m * right.len());
                assert(all[at] == before[at]);
            } else {
                assert(i == m);
                assert(at == m * right.len() + j);
                assert(all[at] == last[j]);
            }
        }
    }
}

// ---------------------------------------------------------------------------
// Columns matched by name
// ---------------------------------------------------------------------------

proof fn lemma_name_pairs_sound(
    names: Seq<Seq<char>>,
    left: Seq<Seq<char>>,
    right: Seq<Seq<char>>,
    p: int,
)
    requires
        0 <= p < name_pairs(names, left, right).len(),
    ensures
        ({
            let (c, d) = name_pairs(names, left, right)[p];
            &&& first_of_its_name(left, c)
            &&& first_of_its_name(right, d - left.len())
            &&& bare_names(left)[c] == bare_names(right)[d - left.len()]
            &&& names.contains(bare_names(left)[c])
        }),
    decreases names.len(),
{
    if names.len() > 0 {
        let rest = name_pairs(names.drop_last(), left, right);
        if p < rest.len() {
            lemma_name_pairs_sound(names.drop_last(), left, right, p);
            let (c, d) = rest[p];
            let at = choose|at: int|
                0 <= at < names.drop_last().len() && names.drop_last()[at] == bare_names(left)[c];
            assert(names[at] == bare_names(left)[c]);
        } else {
            lemma_index_of(bare_names(left), names.last());
            lemma_index_of(bare_names(right), names.last());
            assert(names[names.len() - 1] == names.last());
        }
    }
}

proof fn lemma_name_pairs_complete(
    names: Seq<Seq<char>>,
    left: Seq<Seq<char>>,
    right: Seq<Seq<char>>,
    c: int,
    d: int,
) -> (p: int)
    requires
        first_of_its_name(left, c),
        first_of_its_name(right, d),
        bare_names(left)[c] == bare_names(right)[d],
        names.contains(bare_names(left)[c]),
    ensures
        0 <= p < name_pairs(names, left, right).len(),
        name_pairs(names, left, right)[p] == (c, left.len() + d),
    decreases names.len(),
{
    let name = bare_names(left)[c];
    let at = choose|at: int| 0 <= at < names.len() && names[at] == name;
    let rest = name_pairs(names.drop_last(), left, right);
    if at < names.len() - 1 {
        assert(names.drop_last()[at] == name);
        lemma_name_pairs_complete(names.drop_last(), left, right, c, d)
    } else {
        lemma_index_of(bare_names(left), name);
        lemma_index_of(bare_names(right), name);
        let l = index_of(bare_names(left), name);
        let r = index_of(bare_names(right), name);
        assert(l == Some(c)) by {
            assert(bare_names(left)[c] == name);
        }
        assert(r == Some(d)) by {
            assert(bare_names(right)[d] == name);
        }
        rest.len() as int
    }
}

proof fn lemma_shared_names(names: Seq<Seq<char>>, others: Seq<Seq<char>>, x: Seq<char>)
    ensures
        shared_names(names, others).contains(x) <==> names.contains(x) && others.contains(x),
    decreases names.len(),
{
    if names.len() > 0 {
        let rest = shared_names(names.drop_last(), others);
        lemma_shared_names(names.drop_last(), others, x);
        let all = shared_names(names, others);
        if names.contains(x) && x != names.last() {
            let at = choose|at: int| 0 <= at < names.len() && names[at] == x;
            assert(names.drop_last()[at] == x);
        }
        if names.drop_last().contains(x) {
            let at = choose|at: int|
                0 <= at < names.drop_last().len() && names.drop_last()[at] == x;
            assert(names[at] == x);
        }
        if others.contains(names.last()) {
            assert(all == rest.push(names.last()));
            if rest.contains(x) {
                let at = choose|at: int| 0 <= at < rest.len() && rest[at] == x;
                assert(all[at] == x);
            }
            if x == names.last() {
                assert(all[rest.len() as int] == x);
                assert(names[names.len() - 1] == x);
            }
            if all.contains(x) && x != names.last() {
                let at = choose|at: int| 0 <= at < all.len() && all[at] == x;
                assert(rest[at] == x);
            }
        }
    }
}

proof fn lemma_pairs_equal(row: Seq<Val>, pairs: Seq<(int, int)>, i: int, k: Known)
    requires
        0 <= i <= pairs.len(),
        pairs_equal(row, pairs, i, k) is Ok,
    ensures
        pairs_equal(row, pairs, i, k) == Ok::<bool, Stop>(true) <==> forall|p: int|
            i <= p < pairs.len() ==> equal_values(
                cell(row, (#[trigger] pairs[p]).0),
                cell(row, pairs[p].1),
                k,
            ) == Ok::<bool, Stop>(true),
    decreases pairs.len() - i,
{
    if i < pairs.len() {
        let first = equal_values(cell(row, pairs[i].0), cell(row, pairs[i].1), k);
        if first == Ok::<bool, Stop>(true) {
            lemma_pairs_equal(row, pairs, i + 1, k);
        } else {
            assert(pairs[i] == pairs[i]);
        }
    }
}

proof fn lemma_equality_verdicts(rows: Seq<Seq<Val>>, pairs: Seq<(int, int)>, k: Known)
    requires
        equality_verdicts(rows, pairs, k) is Ok,
    ensures
        equality_verdicts(rows, pairs, k)->Ok_0.len() == rows.len(),
        forall|i: int|
            0 <= i < rows.len() ==> pairs_equal(#[trigger] rows[i], pairs, 0, k) is Ok
                && equality_verdicts(rows, pairs, k)->Ok_0[i] == Val::Bool(
                pairs_equal(rows[i], pairs, 0, k)->Ok_0,
            ),
    decreases rows.len(),
{
    if rows.len() > 0 {
        lemma_equality_verdicts(rows.drop_last(), pairs, k);
        let done = equality_verdicts(rows.drop_last(), pairs, k)->Ok_0;
        let all = equality_verdicts(rows, pairs, k)->Ok_0;
        assert(all == done.push(Val::Bool(pairs_equal(rows.last(), pairs, 0, k)->Ok_0)));
        assert forall|i: int| 0 <= i < rows.len() implies pairs_equal(
            #[trigger] rows[i],
            pairs,
            0,
            k,
        ) is Ok && all[i] == Val::Bool(pairs_equal(rows[i], pairs, 0, k)->Ok_0) by {
            if i < rows.len() - 1 {
                assert(rows.drop_last()[i] == rows[i]);
                assert(done[i] == all[i]);
            }
        }
    }
}

// ---------------------------------------------------------------------------
// Verdicts
// ---------------------------------------------------------------------------

/// The verdicts by which a join picks pairs.
spec fn marks_of(left: Rel, join: Join, right: Rel, k: Known) -> Result<Seq<Val>, Stop> {
    let prefix = relation_name(join.table_alias, join.table_name);
    let others = prefixed(prefix, right.columns);
    let pairs = pairs_upto(left.rows, Side::Shared(right.rows), left.rows.len());
    if join.natural || join.using_columns@.len() > 0 {
        equality_verdicts(
            pairs,
            name_pairs(
                matched_names(join.natural, texts(join.using_columns@), left.columns, others),
                left.columns,
                others,
            ),
            k,
        )
    } else {
        condition_verdicts(
            join.condition,
            left.columns + others,
            left.types + crate::join::padded_types(right.types, right.columns.len()),
            pairs,
            k,
        )
    }
}

proof fn lemma_matched_names(
    join: Join,
    left: Seq<Seq<char>>,
    others: Seq<Seq<char>>,
    c: int,
    d: int,
)
    requires
        0 <= c < left.len(),
        0 <= d < others.len(),
        bare_names(left)[c] == bare_names(others)[d],
    ensures
        matched_names(join.natural, texts(join.using_columns@), left, others).contains(
            bare_names(left)[c],
        ) <==> join.natural || is_used(texts(join.using_columns@), bare_names(left)[c]),
{
    let name = bare_names(left)[c];
    let names = matched_names(join.natural, texts(join.using_columns@), left, others);
    if join.natural {
        lemma_shared_names(bare_names(left), bare_names(others), name);
        assert(bare_names(left)[c] == name);
        assert(bare_names(others)[d] == name);
    } else {
        let using = texts(join.using_columns@);
        if names.contains(name) {
            let at = choose|at: int| 0 <= at < names.len() && names[at] == name;
            assert(lower(using[at]) == name);
        }
        if is_used(using, name) {
            let at = choose|at: int| 0 <= at < using.len() && #[trigger] lower(using[at]) == name;
            assert(names[at] == name);
        }
    }
}

proof fn lemma_pair_equal(left: Rel, join: Join, right: Rel, i: int, j: int, k: Known)
    requires
        regular(left),
        regular(right),
        0 <= i < left.rows.len(),
        0 <= j < right.rows.len(),
        join.natural || join.using_columns@.len() > 0,
        ({
            let others = prefixed(
                relation_name(join.table_alias, join.table_name),
                right.columns,
            );
            let names = matched_names(
                join.natural,
                texts(join.using_columns@),
                left.columns,
                others,
            );
            pairs_equal(
                left.rows[i] + right.rows[j],
                name_pairs(names, left.columns, others),
                0,
                k,
            ) is Ok
        }),
    ensures
        ({
            let others = prefixed(
                relation_name(join.table_alias, join.table_name),
                right.columns,
            );
            let names = matched_names(
                join.natural,
                texts(join.using_columns@),
                left.columns,
                others,
            );
            pairs_equal(
                left.rows[i] + right.rows[j],
                name_pairs(names, left.columns, others),
                0,
                k,
            )->Ok_0 <==> pair_matches(left, join, right, i, j, k)
        }),
{
    let others = prefixed(relation_name(join.table_alias, join.table_name), right.columns);
    let names = matched_names(join.natural, texts(join.using_columns@), left.columns, others);
    let pairs = name_pairs(names, left.columns, others);
    let row = left.rows[i] + right.rows[j];
    lemma_pairs_equal(row, pairs, 0, k);
    assert(left.rows[i].len() == left.columns.len());
    assert(right.rows[j].len() == right.columns.len());
    if pairs_equal(row, pairs, 0, k) == Ok::<bool, Stop>(true) {
        assert forall|c: int, d: int|
            #![trigger bare_names(left.columns)[c], bare_names(others)[d]]
            first_of_its_name(left.columns, c) && first_of_its_name(others, d) && bare_names(
                left.columns,
            )[c] == bare_names(others)[d] && (join.natural || is_used(
                texts(join.using_columns@),
                bare_names(left.columns)[c],
            )) implies equal_values(left.rows[i][c], right.rows[j][d], k) == Ok::<bool, Stop>(
            true,
        ) by {
            lemma_matched_names(join, left.columns, others, c, d);
            let p = lemma_name_pairs_complete(names, left.columns, others, c, d);
            assert(pairs[p] == (c, left.columns.len() + d));
            assert(cell(row, c) == left.rows[i][c]);
            assert(cell(row, left.columns.len() + d) == right.rows[j][d]);
        }
        assert(pair_matches(left, join, right, i, j, k));
    }
    if pair_matches(left, join, right, i, j, k) {
        assert forall|p: int| 0 <= p < pairs.len() implies equal_values(
            cell(row, (#[trigger] pairs[p]).0),
            cell(row, pairs[p].1),
            k,
        ) == Ok::<bool, Stop>(true) by {
            lemma_name_pairs_sound(names, left.columns, others, p);
            let (c, e) = pairs[p];
            let d = e - left.columns.len();
            lemma_matched_names(join, left.columns, others, c, d);
            assert(cell(row, c) == left.rows[i][c]);
            assert(cell(row, e) == right.rows[j][d]);
            assert(bare_names(left.columns)[c] == bare_names(others)[d]);
        }
        assert(pairs_equal(row, pairs, 0, k) == Ok::<bool, Stop>(true));
    }
}

proof fn lemma_marks(left: Rel, join: Join, right: Rel, k: Known)
    requires
        regular(left),
        regular(right),
        marks_of(left, join, right, k) is Ok,
    ensures
        ({
            let marks = marks_of(left, join, right, k)->Ok_0;
            &&& marks.len() == left.rows.len() * right.rows.len()
            &&& forall|i: int, j: int|
                0 <= i < left.rows.len() && 0 <= j < right.rows.len() ==> is_true(
                    #[trigger] cell(marks, pair_at(i, j, right.rows.len())),
                ) == pair_matches(left, join, right, i, j, k)
        }),
{
    let marks = marks_of(left, join, right, k)->Ok_0;
    let n = right.rows.len();
    let others = prefixed(relation_name(join.table_alias, join.table_name), right.columns);
    let pairs = pairs_upto(left.rows, Side::Shared(right.rows), left.rows.len());
    lemma_pairs(left.rows, right.rows, left.rows.len());
    if join.natural || join.using_columns@.len() > 0 {
        let at = name_pairs(
            matched_names(join.natural, texts(join.using_columns@), left.columns, others),
            left.columns,
            others,
        );
        lemma_equality_verdicts(pairs, at, k);
        assert forall|i: int, j: int|
            0 <= i < left.rows.len() && 0 <= j < right.rows.len() implies is_true(
            #[trigger] cell(marks, pair_at(i, j, n)),
        ) == pair_matches(left, join, right, i, j, k) by {
            assert(pairs[pair_at(i, j, n)] == left.rows[i] + right.rows[j]);
            assert(marks[pair_at(i, j, n)] == Val::Bool(pairs_equal(pairs[pair_at(i, j, n)], at, 0, k)->Ok_0));
            lemma_pair_equal(left, join, right, i, j, k);
        }
    } else {
        assert forall|i: int, j: int|
            0 <= i < left.rows.len() && 0 <= j < right.rows.len() implies is_true(
            #[trigger] cell(marks, pair_at(i, j, n)),
        ) == pair_matches(left, join, right, i, j, k) by {
            assert(pairs[pair_at(i, j, n)] == left.rows[i] + right.rows[j]);
        }
    }
}

// ---------------------------------------------------------------------------
// Rows
// ---------------------------------------------------------------------------

proof fn lemma_contribution(
    left: Rel,
    join: Join,
    right: Rel,
    marks: Seq<Val>,
    i: int,
    m: nat,
    k: Known,
)
    requires
        0 <= i < left.rows.len(),
        m <= right.rows.len(),
        marks.len() == left.rows.len() * right.rows.len(),
        i * right.rows.len() <= marks.len(),
        0 <= i * right.rows.len(),
        forall|j: int|
            0 <= j < right.rows.len() ==> is_true(
                #[trigger] cell(marks, pair_at(i, j, right.rows.len())),
            ) == pair_matches(left, join, right, i, j, k),
    ensures
        passing(
            pairings(left.rows[i], right.rows).take(m as int),
            marks.skip(i * right.rows.len()),
        ) == Seq::new(m, |j: int| j).filter(
            |j: int| pair_matches(left, join, right, i, j, k),
        ).map_values(|j: int| left.rows[i] + right.rows[j]),
    decreases m,
{
    let all = pairings(left.rows[i], right.rows).take(m as int);
    let tail = marks.skip(i * right.rows.len());
    let keep = |j: int| pair_matches(left, join, right, i, j, k);
    let row = |j: int| left.rows[i] + right.rows[j];
    let ids = Seq::new(m, |j: int| j);
    reveal(Seq::filter);
    if m == 0 {
        assert(passing(all, tail) =~= ids.filter(keep).map_values(row));
    } else {
        let l = (m - 1) as nat;
        lemma_contribution(left, join, right, marks, i, l, k);
        assert(all.drop_last() =~= pairings(left.rows[i], right.rows).take(l as int));
        assert(ids.drop_last() =~= Seq::new(l, |j: int| j));
        assert(all.last() == left.rows[i] + right.rows[l as int]);
        assert(ids.last() == l as int);
        assert(cell(marks, pair_at(i, l as int, right.rows.len())) == cell(tail, l as int));
        let done = ids.drop_last().filter(keep);
        assert(done.push(l as int).map_values(row) =~= done.map_values(row).push(row(l as int)));
    }
}

/// How many rows the first `n` left rows contribute.
pub open spec fn rows_of_first(
    left: Rel,
    join: Join,
    right: Rel,
    n: nat,
    k: Known,
) -> nat
    decreases n,
{
    if n == 0 {
        0
    } else {
        let i = n - 1;
        rows_of_first(left, join, right, i as nat, k) + if unmatched(left, join, right, i, k) {
            if join.join_type is LeftOuter || join.join_type is FullOuter {
                1nat
            } else {
                0
            }
        } else {
            matches_of(left, join, right, i, k).len()
        }
    }
}

proof fn lemma_kept_positions(n: nat, keep: spec_fn(int) -> bool)
    ensures
        ({
            let found = Seq::new(n, |j: int| j).filter(keep);
            &&& forall|p: int|
                0 <= p < found.len() ==> 0 <= #[trigger] found[p] < n && keep(found[p])
            &&& forall|j: int| 0 <= j < n && #[trigger] keep(j) ==> found.contains(j)
        }),
    decreases n,
{
    reveal(Seq::filter);
    let ids = Seq::new(n, |j: int| j);
    let found = ids.filter(keep);
    if n > 0 {
        let m = (n - 1) as nat;
        lemma_kept_positions(m, keep);
        assert(ids.drop_last() =~= Seq::new(m, |j: int| j));
        let done = Seq::new(m, |j: int| j).filter(keep);
        assert forall|p: int| 0 <= p < found.len() implies 0 <= #[trigger] found[p] < n && keep(
            found[p],
        ) by {
            if p < done.len() {
                assert(found[p] == done[p]);
            }
        }
        assert forall|j: int| 0 <= j < n && #[trigger] keep(j) implies found.contains(j) by {
            if j < m {
                assert(done.contains(j));
                let p = choose|p: int| 0 <= p < done.len() && done[p] == j;
                assert(found[p] == j);
            } else {
                assert(found[done.len() as int] == j);
            }
        }
    }
}

proof fn lemma_matches_of(left: Rel, join: Join, right: Rel, i: int, k: Known)
    ensures
        matches_of(left, join, right, i, k).len() == 0 <==> unmatched(left, join, right, i, k),
{
    let keep = |j: int| pair_matches(left, join, right, i, j, k);
    let found = Seq::new(right.rows.len(), |j: int| j).filter(keep);
    lemma_kept_positions(right.rows.len(), keep);
    if found.len() > 0 {
        assert(keep(found[0]));
        assert(pair_matches(left, join, right, i, found[0], k));
    }
    if !unmatched(left, join, right, i, k) {
        let j = choose|j: int|
            0 <= j < right.rows.len() && #[trigger] pair_matches(left, join, right, i, j, k);
        assert(keep(j));
        assert(found.contains(j));
    }
}

/// What a left row contributes to a join that keeps such rows or does not.
pub open spec fn block_of(
    left: Rel,
    join: Join,
    right: Rel,
    keep: bool,
    i: int,
    k: Known,
) -> Seq<Seq<Val>> {
    if unmatched(left, join, right, i, k) {
        if keep {
            seq![left.rows[i] + nulls(right.columns.len())]
        } else {
            Seq::empty()
        }
    } else {
        matched_rows(left, join, right, i, k)
    }
}

proof fn lemma_block(
    left: Rel,
    join: Join,
    right: Rel,
    marks: Seq<Val>,
    keep: bool,
    i: int,
    k: Known,
)
    requires
        0 <= i < left.rows.len(),
        marks.len() == left.rows.len() * right.rows.len(),
        forall|i: int, j: int|
            0 <= i < left.rows.len() && 0 <= j < right.rows.len() ==> is_true(
                #[trigger] cell(marks, pair_at(i, j, right.rows.len())),
            ) == pair_matches(left, join, right, i, j, k),
    ensures
        contribution(
            left.rows[i],
            right.rows,
            marks.skip(i * right.rows.len()),
            keep,
            right.columns.len(),
        ) == block_of(left, join, right, keep, i, k),
{
    assert(0 <= i * right.rows.len() <= marks.len()) by (nonlinear_arith)
        requires
            marks.len() == left.rows.len() * right.rows.len(),
            0 <= i <= left.rows.len(),
    ;
    lemma_contribution(left, join, right, marks, i, right.rows.len(), k);
    lemma_matches_of(left, join, right, i, k);
    let pairs = pairings(left.rows[i], right.rows);
    assert(pairs.take(right.rows.len() as int) =~= pairs);
    let hits = passing(pairs, marks.skip(i * right.rows.len()));
    assert(hits == matched_rows(left, join, right, i, k));
    if unmatched(left, join, right, i, k) && !keep {
        assert(hits =~= Seq::empty());
    }
}

/// Whether the rows that belong to a left row are those that it contributes.
spec fn block_stands(
    rows: Seq<Seq<Val>>,
    left: Rel,
    join: Join,
    right: Rel,
    keep: bool,
    i: int,
    k: Known,
) -> bool {
    let from = rows_of_first(left, join, right, i as nat, k) as int;
    let to = rows_of_first(left, join, right, (i + 1) as nat, k) as int;
    &&& 0 <= from <= to <= rows.len()
    &&& rows.subrange(from, to) == block_of(left, join, right, keep, i, k)
}

/// Whether the rows of the first `n` left rows are those that each contributes.
spec fn in_blocks(
    rows: Seq<Seq<Val>>,
    left: Rel,
    join: Join,
    right: Rel,
    keep: bool,
    n: nat,
    k: Known,
) -> bool {
    &&& rows.len() == rows_of_first(left, join, right, n, k)
    &&& forall|i: int| 0 <= i < n ==> #[trigger] block_stands(rows, left, join, right, keep, i, k)
}

proof fn lemma_joined_blocks(
    left: Rel,
    join: Join,
    right: Rel,
    marks: Seq<Val>,
    n: nat,
    k: Known,
)
    requires
        n <= left.rows.len(),
        marks.len() == left.rows.len() * right.rows.len(),
        forall|i: int, j: int|
            0 <= i < left.rows.len() && 0 <= j < right.rows.len() ==> is_true(
                #[trigger] cell(marks, pair_at(i, j, right.rows.len())),
            ) == pair_matches(left, join, right, i, j, k),
    ensures
        ({
            let keep = join.join_type is LeftOuter || join.join_type is FullOuter;
            let rows = joined_upto(
                left.rows,
                Side::Shared(right.rows),
                marks,
                keep,
                right.columns.len(),
                n,
            );
            in_blocks(rows, left, join, right, keep, n, k)
        }),
    decreases n,
{
    if n > 0 {
        let m = (n - 1) as nat;
        let keep = join.join_type is LeftOuter || join.join_type is FullOuter;
        let w = right.columns.len();
        let side = Side::Shared(right.rows);
        lemma_joined_blocks(left, join, right, marks, m, k);
        lemma_pairs(left.rows, right.rows, m);
        let before = joined_upto(left.rows, side, marks, keep, w, m);
        let rows = joined_upto(left.rows, side, marks, keep, w, n);
        lemma_block(left, join, right, marks, keep, m as int, k);
        let block = block_of(left, join, right, keep, m as int, k);
        assert(right_rows(side, m as int) == right.rows);
        assert(pairs_upto(left.rows, side, m).len() as int == m as int * right.rows.len());
        assert(rows == before + block);
        lemma_matches_of(left, join, right, m as int, k);
        assert(block.len() == rows_of_first(left, join, right, n, k) - rows_of_first(
            left,
            join,
            right,
            m,
            k,
        ));
        lemma_one_more_block(before, block, left, join, right, keep, m, k);
    }
}

proof fn lemma_one_more_block(
    before: Seq<Seq<Val>>,
    block: Seq<Seq<Val>>,
    left: Rel,
    join: Join,
    right: Rel,
    keep: bool,
    m: nat,
    k: Known,
)
    requires
        in_blocks(before, left, join, right, keep, m, k),
        block == block_of(left, join, right, keep, m as int, k),
        block.len() == rows_of_first(left, join, right, m + 1, k) - rows_of_first(
            left,
            join,
            right,
            m,
            k,
        ),
    ensures
        in_blocks(before + block, left, join, right, keep, m + 1, k),
{
    let rows = before + block;
    assert(rows.len() == rows_of_first(left, join, right, m + 1, k));
    assert forall|b: int| 0 <= b < m + 1 implies #[trigger] block_stands(
        rows,
        left,
        join,
        right,
        keep,
        b,
        k,
    ) by {
        let from = rows_of_first(left, join, right, b as nat, k) as int;
        let to = rows_of_first(left, join, right, (b + 1) as nat, k) as int;
        if b < m {
            assert(block_stands(before, left, join, right, keep, b, k));
            assert(rows.subrange(from, to) =~= before.subrange(from, to));
        } else {
            assert(rows.subrange(from, to) =~= block);
        }
    }
}

proof fn lemma_joined(left: Rel, join: Join, right: Rel, lenient: bool, k: Known)
    requires
        regular(left),
        regular(right),
        joined(left, join, right, lenient, k) is Ok,
    ensures
        marks_of(left, join, right, k) is Ok,
        ({
            let marks = marks_of(left, join, right, k)->Ok_0;
            let rel = joined(left, join, right, lenient, k)->Ok_0;
            let side = Side::Shared(right.rows);
            let keep = join.join_type is LeftOuter || join.join_type is FullOuter;
            let rest = if join.join_type is RightOuter || join.join_type is FullOuter {
                unmatched_right(left.rows, side, marks, left.columns.len(), right.rows.len())
            } else {
                Seq::empty()
            };
            rel.rows == joined_upto(
                left.rows,
                side,
                marks,
                keep,
                right.columns.len(),
                left.rows.len(),
            ) + rest
        }),
{
}

/// A join's rows come left row by left row: the rows that the left row at `i`
/// contributes stand together, and they are the left row beside each right row
/// that matches it, in order. A left row that nothing matches contributes
/// itself beside NULLs, once, to a left or full join, and nothing to any other.
/// Behind them stand only rows that a right or full join adds.
pub proof fn law_joined_rows_of_each_left_row(
    left: Rel,
    join: Join,
    right: Rel,
    lenient: bool,
    i: int,
    k: Known,
)
    requires
        regular(left),
        regular(right),
        0 <= i < left.rows.len(),
        joined(left, join, right, lenient, k) is Ok,
    ensures
        ({
            let rows = joined(left, join, right, lenient, k)->Ok_0.rows;
            let from = rows_of_first(left, join, right, i as nat, k) as int;
            let to = rows_of_first(left, join, right, (i + 1) as nat, k) as int;
            &&& 0 <= from <= to <= rows.len()
            &&& unmatched(left, join, right, i, k) && (join.join_type is LeftOuter
                || join.join_type is FullOuter) ==> to == from + 1 && rows[from] == left.rows[i]
                + nulls(right.columns.len())
            &&& unmatched(left, join, right, i, k) && (join.join_type is Inner
                || join.join_type is Cross || join.join_type is RightOuter) ==> to == from
            &&& !unmatched(left, join, right, i, k) ==> rows.subrange(from, to) == matched_rows(
                left,
                join,
                right,
                i,
                k,
            )
            &&& !(join.join_type is RightOuter) && !(join.join_type is FullOuter) ==> rows.len()
                == rows_of_first(left, join, right, left.rows.len(), k)
        }),
{
    lemma_joined(left, join, right, lenient, k);
    lemma_marks(left, join, right, k);
    let marks = marks_of(left, join, right, k)->Ok_0;
    lemma_joined_blocks(left, join, right, marks, left.rows.len(), k);
    let keep = join.join_type is LeftOuter || join.join_type is FullOuter;
    let first = joined_upto(
        left.rows,
        Side::Shared(right.rows),
        marks,
        keep,
        right.columns.len(),
        left.rows.len(),
    );
    let rows = joined(left, join, right, lenient, k)->Ok_0.rows;
    let from = rows_of_first(left, join, right, i as nat, k) as int;
    let to = rows_of_first(left, join, right, (i + 1) as nat, k) as int;
    let block = first.subrange(from, to);
    assert(block_stands(first, left, join, right, keep, i, k));
    assert(rows.subrange(from, to) =~= block);
    assert(block.len() == to - from);
    if unmatched(left, join, right, i, k) && keep {
        assert(block == seq![left.rows[i] + nulls(right.columns.len())]);
        assert(block.len() == 1);
        assert(block[0] == rows[from]);
    }
}

/// A left or full join, whether its rows are matched by a condition, by
/// `USING`, or by `NATURAL`, loses no left row: each is the left part of a row
/// of the result.
pub proof fn law_left_and_full_joins_keep_left_rows(
    left: Rel,
    join: Join,
    right: Rel,
    lenient: bool,
    i: int,
    k: Known,
)
    requires
        regular(left),
        regular(right),
        0 <= i < left.rows.len(),
        join.join_type is LeftOuter || join.join_type is FullOuter,
        joined(left, join, right, lenient, k) is Ok,
    ensures
        exists|r: int|
            0 <= r < joined(left, join, right, lenient, k)->Ok_0.rows.len() && (
            #[trigger] joined(left, join, right, lenient, k)->Ok_0.rows[r]).take(
                left.columns.len() as int,
            ) == left.rows[i],
{
    law_joined_rows_of_each_left_row(left, join, right, lenient, i, k);
    lemma_matches_of(left, join, right, i, k);
    let rows = joined(left, join, right, lenient, k)->Ok_0.rows;
    let from = rows_of_first(left, join, right, i as nat, k) as int;
    let to = rows_of_first(left, join, right, (i + 1) as nat, k) as int;
    let w = left.columns.len() as int;
    if unmatched(left, join, right, i, k) {
        assert(rows[from].take(w) =~= left.rows[i]);
    } else {
        let block = matched_rows(left, join, right, i, k);
        let j = matches_of(left, join, right, i, k)[0];
        assert(block[0] == left.rows[i] + right.rows[j]);
        assert(rows.subrange(from, to)[0] == rows[from]);
        assert(rows[from].take(w) =~= left.rows[i]);
    }
}

proof fn lemma_right_matched(
    left: Rel,
    join: Join,
    right: Rel,
    marks: Seq<Val>,
    j: int,
    n: nat,
    k: Known,
)
    requires
        n <= left.rows.len(),
        0 <= j < right.rows.len(),
        forall|i: int, j: int|
            0 <= i < left.rows.len() && 0 <= j < right.rows.len() ==> is_true(
                #[trigger] cell(marks, pair_at(i, j, right.rows.len())),
            ) == pair_matches(left, join, right, i, j, k),
    ensures
        right_matched(left.rows, Side::Shared(right.rows), marks, j, n) <==> exists|i: int|
            0 <= i < n && #[trigger] pair_matches(left, join, right, i, j, k),
    decreases n,
{
    if n > 0 {
        let m = (n - 1) as nat;
        lemma_right_matched(left, join, right, marks, j, m, k);
        lemma_pairs(left.rows, right.rows, m);
        assert(is_true(cell(marks, pair_at(m as int, j, right.rows.len()))) == pair_matches(
            left,
            join,
            right,
            m as int,
            j,
            k,
        ));
        assert(m * right.rows.len() == m as int * right.rows.len());
    }
}

/// The right rows that no left row matches, in order, each beside NULLs.
pub open spec fn lone_right_rows(left: Rel, join: Join, right: Rel, k: Known) -> Seq<Seq<Val>> {
    Seq::new(right.rows.len(), |j: int| j).filter(
        |j: int| forall|i: int|
            0 <= i < left.rows.len() ==> !#[trigger] pair_matches(left, join, right, i, j, k),
    ).map_values(|j: int| nulls(left.columns.len()) + right.rows[j])
}

proof fn lemma_unmatched_right(
    left: Rel,
    join: Join,
    right: Rel,
    marks: Seq<Val>,
    m: nat,
    k: Known,
)
    requires
        m <= right.rows.len(),
        forall|i: int, j: int|
            0 <= i < left.rows.len() && 0 <= j < right.rows.len() ==> is_true(
                #[trigger] cell(marks, pair_at(i, j, right.rows.len())),
            ) == pair_matches(left, join, right, i, j, k),
    ensures
        unmatched_right(left.rows, Side::Shared(right.rows), marks, left.columns.len(), m)
            == Seq::new(m, |j: int| j).filter(
            |j: int| forall|i: int|
                0 <= i < left.rows.len() ==> !#[trigger] pair_matches(left, join, right, i, j, k),
        ).map_values(|j: int| nulls(left.columns.len()) + right.rows[j]),
    decreases m,
{
    let lone = |j: int| forall|i: int|
        0 <= i < left.rows.len() ==> !#[trigger] pair_matches(left, join, right, i, j, k);
    let row = |j: int| nulls(left.columns.len()) + right.rows[j];
    let ids = Seq::new(m, |j: int| j);
    let got = unmatched_right(left.rows, Side::Shared(right.rows), marks, left.columns.len(), m);
    reveal(Seq::filter);
    if m == 0 {
        assert(got =~= ids.filter(lone).map_values(row));
    } else {
        let l = (m - 1) as nat;
        lemma_unmatched_right(left, join, right, marks, l, k);
        lemma_right_matched(left, join, right, marks, l as int, left.rows.len(), k);
        assert(ids.drop_last() =~= Seq::new(l, |j: int| j));
        assert(ids.last() == l as int);
        let done = ids.drop_last().filter(lone);
        assert(done.push(l as int).map_values(row) =~= done.map_values(row).push(row(l as int)));
        assert(lone(l as int) == !right_matched(
            left.rows,
            Side::Shared(right.rows),
            marks,
            l as int,
            left.rows.len(),
        ));
        assert(got =~= ids.filter(lone).map_values(row));
    }
}

/// A right or full join adds, behind the rows of its left rows, each right row
/// that no left row matches, once, beside NULLs; no other join adds any.
pub proof fn law_right_and_full_joins_keep_right_rows(
    left: Rel,
    join: Join,
    right: Rel,
    lenient: bool,
    k: Known,
)
    requires
        regular(left),
        regular(right),
        joined(left, join, right, lenient, k) is Ok,
    ensures
        ({
            let rows = joined(left, join, right, lenient, k)->Ok_0.rows;
            let n = rows_of_first(left, join, right, left.rows.len(), k) as int;
            &&& 0 <= n <= rows.len()
            &&& join.join_type is RightOuter || join.join_type is FullOuter ==> rows.skip(n)
                == lone_right_rows(left, join, right, k)
            &&& join.join_type is Inner || join.join_type is Cross || join.join_type is LeftOuter
                ==> rows.len() == n
        }),
{
    lemma_joined(left, join, right, lenient, k);
    lemma_marks(left, join, right, k);
    let marks = marks_of(left, join, right, k)->Ok_0;
    lemma_joined_blocks(left, join, right, marks, left.rows.len(), k);
    lemma_unmatched_right(left, join, right, marks, right.rows.len(), k);
    let rows = joined(left, join, right, lenient, k)->Ok_0.rows;
    let n = rows_of_first(left, join, right, left.rows.len(), k) as int;
    assert(rows.skip(n) =~= unmatched_right(
        left.rows,
        Side::Shared(right.rows),
        marks,
        left.columns.len(),
        right.rows.len(),
    ) || !(join.join_type is RightOuter || join.join_type is FullOuter));
}

/// A joined relation has the columns of its left side, then those of its right
/// side under the name that side goes by: its alias, or else its own name.
pub proof fn law_joined_columns(left: Rel, join: Join, right: Rel, lenient: bool, k: Known)
    requires
        joined(left, join, right, lenient, k) is Ok,
    ensures
        ({
            let columns = joined(left, join, right, lenient, k)->Ok_0.columns;
            let n = left.columns.len();
            &&& columns.len() == n + right.columns.len()
            &&& forall|c: int| 0 <= c < n ==> #[trigger] columns[c] == left.columns[c]
            &&& forall|c: int|
                0 <= c < right.columns.len() ==> #[trigger] columns[n + c] == (
                match join.table_alias {
                    Some(a) => a@,
                    None => join.table_name@,
                }) + "."@ + right.columns[c]
        }),
{
}

} // verus!
