//! What foreign keys promise of referencing rows, action by action.
use vstd::prelude::*;
use crate::cells::{cell, cells};
use crate::facts::{Known, Stop};
use crate::referential::{
    changed_keys, child_step, column_positions, end_checked, first_dangling, gone_match,
    has_key_string, key_found, key_strings, key_values, keys_equal, keys_equal_from, prepared,
    removed_keys, resolved, row_checked, swept, swept_away, swept_over, with_key, GoneView,
    KeyView, KeysView, Reference, StepView, ViolationView,
};
use crate::rows::key_of;
use crate::value::Val;

verus! {

/// Whether the gone key at `g` is the first one equal to a row's key.
pub open spec fn first_gone(
    x: Reference,
    gone: Seq<GoneView>,
    row: Seq<Val>,
    g: int,
    k: Known,
) -> bool {
    let key = key_values(row, x.child_positions@);
    &&& key is Some
    &&& 0 <= g < gone.len()
    &&& keys_equal(gone[g].old, key->Some_0, k) == Ok::<bool, Stop>(true)
    &&& forall|h: int|
        0 <= h < g ==> keys_equal((#[trigger] gone[h]).old, key->Some_0, k) == Ok::<bool, Stop>(
            false,
        )
}

/// Whether a row has every column of the foreign key.
pub open spec fn has_key_columns(x: Reference, row: Seq<Val>) -> bool {
    &&& x.child_positions@.no_duplicates()
    &&& forall|i: int|
        0 <= i < x.child_positions@.len() ==> (#[trigger] x.child_positions@[i]) < row.len()
}

/// Whether `new` is `row` with `values` in the columns of the foreign key and
/// every other column as it was.
pub open spec fn rekeyed(x: Reference, row: Seq<Val>, values: Seq<Val>, new: Seq<Val>) -> bool {
    &&& new.len() == row.len()
    &&& forall|i: int|
        0 <= i < x.child_positions@.len() ==> new[#[trigger] x.child_positions@[i] as int] == cell(
            values,
            i,
        )
    &&& forall|c: int|
        0 <= c < row.len() && (forall|i: int|
            0 <= i < x.child_positions@.len() ==> #[trigger] x.child_positions@[i] != c)
            ==> #[trigger] new[c] == row[c]
}

proof fn lemma_gone_match(
    gone: Seq<GoneView>,
    key: Seq<Val>,
    from: int,
    g: int,
    k: Known,
)
    requires
        0 <= from <= g < gone.len(),
        keys_equal(gone[g].old, key, k) == Ok::<bool, Stop>(true),
        forall|h: int|
            from <= h < g ==> keys_equal((#[trigger] gone[h]).old, key, k) == Ok::<bool, Stop>(
                false,
            ),
    ensures
        gone_match(gone, key, from, k) == Ok::<Option<int>, Stop>(Some(g)),
    decreases g - from,
{
    if from < g {
        assert(keys_equal(gone[from].old, key, k) == Ok::<bool, Stop>(false));
        lemma_gone_match(gone, key, from + 1, g, k);
    }
}

proof fn lemma_rekeyed(x: Reference, row: Seq<Val>, values: Seq<Val>, n: nat)
    requires
        has_key_columns(x, row),
        n <= x.child_positions@.len(),
    ensures
        ({
            let at = x.child_positions@;
            let new = with_key(row, at, values, n);
            &&& new.len() == row.len()
            &&& forall|i: int| 0 <= i < n ==> new[#[trigger] at[i] as int] == cell(values, i)
            &&& forall|c: int|
                0 <= c < row.len() && (forall|i: int| 0 <= i < n ==> #[trigger] at[i] != c)
                    ==> #[trigger] new[c] == row[c]
        }),
    decreases n,
{
    if n > 0 {
        let m = (n - 1) as nat;
        let at = x.child_positions@;
        lemma_rekeyed(x, row, values, m);
        let before = with_key(row, at, values, m);
        let new = with_key(row, at, values, n);
        assert(at[m as int] < row.len());
        assert(new == before.update(at[m as int] as int, cell(values, m as int)));
        assert forall|i: int| 0 <= i < n implies new[#[trigger] at[i] as int] == cell(
            values,
            i,
        ) by {
            if i < m {
                assert(at[i] != at[m as int]);
                assert(at[i] < row.len());
            }
        }
    }
}

/// NO ACTION changes nothing at once: a row that references a removed key is
/// kept as it is where the key's action on deletion is NO ACTION, and one that
/// references a changed key where its action on an update is.
pub proof fn law_no_action_keeps_every_row(
    x: Reference,
    gone: Seq<GoneView>,
    defaults: Seq<Val>,
    row: Seq<Val>,
    g: int,
    k: Known,
)
    requires
        first_gone(x, gone, row, g, k),
        gone[g].new is None ==> x.on_delete is NoAction,
        gone[g].new is Some ==> x.on_update is NoAction,
    ensures
        child_step(x, gone, defaults, row, k) == Ok::<StepView, Stop>(StepView::Keep),
{
    lemma_gone_match(gone, key_values(row, x.child_positions@)->Some_0, 0, g, k);
}

/// CASCADE removes a row along with the key it references, and gives it the
/// key that a changed one changed to, every other column left as it was.
pub proof fn law_cascade_follows_the_key(
    x: Reference,
    gone: Seq<GoneView>,
    defaults: Seq<Val>,
    row: Seq<Val>,
    g: int,
    k: Known,
)
    requires
        first_gone(x, gone, row, g, k),
        has_key_columns(x, row),
    ensures
        gone[g].new is None && x.on_delete is Cascade ==> child_step(x, gone, defaults, row, k)
            == Ok::<StepView, Stop>(StepView::Remove),
        gone[g].new is Some && x.on_update is Cascade ==> ({
            let step = child_step(x, gone, defaults, row, k);
            &&& step is Ok && step->Ok_0 is Update
            &&& rekeyed(x, row, gone[g].new->Some_0, step->Ok_0->Update_0)
        }),
{
    lemma_gone_match(gone, key_values(row, x.child_positions@)->Some_0, 0, g, k);
    if gone[g].new is Some {
        lemma_rekeyed(x, row, gone[g].new->Some_0, x.child_positions@.len());
    }
}

/// SET NULL and SET DEFAULT keep the row, with NULL or the columns' defaults in
/// the columns of the foreign key and every other column as it was, whether the
/// referenced key was removed or changed.
pub proof fn law_set_null_and_set_default(
    x: Reference,
    gone: Seq<GoneView>,
    defaults: Seq<Val>,
    row: Seq<Val>,
    g: int,
    k: Known,
)
    requires
        first_gone(x, gone, row, g, k),
        has_key_columns(x, row),
    ensures
        (gone[g].new is None && x.on_delete is SetNull) || (gone[g].new is Some
            && x.on_update is SetNull) ==> ({
            let step = child_step(x, gone, defaults, row, k);
            &&& step is Ok && step->Ok_0 is Update
            &&& rekeyed(x, row, Seq::empty(), step->Ok_0->Update_0)
            &&& forall|i: int|
                0 <= i < x.child_positions@.len()
                    ==> step->Ok_0->Update_0[#[trigger] x.child_positions@[i] as int] == Val::Null
        }),
        (gone[g].new is None && x.on_delete is SetDefault) || (gone[g].new is Some
            && x.on_update is SetDefault) ==> ({
            let step = child_step(x, gone, defaults, row, k);
            &&& step is Ok && step->Ok_0 is Update
            &&& rekeyed(x, row, defaults, step->Ok_0->Update_0)
        }),
{
    lemma_gone_match(gone, key_values(row, x.child_positions@)->Some_0, 0, g, k);
    let at = x.child_positions@;
    lemma_rekeyed(x, row, crate::cells::nulls(at.len()), at.len());
    lemma_rekeyed(x, row, defaults, at.len());
}

/// RESTRICT refuses the statement at the first row that references a key that
/// is gone: it never keeps, changes, or removes that row.
pub proof fn law_restrict_refuses(
    x: Reference,
    gone: Seq<GoneView>,
    defaults: Seq<Val>,
    row: Seq<Val>,
    g: int,
    k: Known,
)
    requires
        first_gone(x, gone, row, g, k),
        gone[g].new is None ==> x.on_delete is Restrict,
        gone[g].new is Some ==> x.on_update is Restrict,
    ensures
        ({
            let step = child_step(x, gone, defaults, row, k);
            step is Err || step->Ok_0 is Refuse
        }),
{
    lemma_gone_match(gone, key_values(row, x.child_positions@)->Some_0, 0, g, k);
}

/// A row is refused, removed, or changed only for a key that is gone: where its
/// key equals none of them it stays as it is, whatever the actions are.
pub proof fn law_other_rows_stay(
    x: Reference,
    gone: Seq<GoneView>,
    defaults: Seq<Val>,
    row: Seq<Val>,
    k: Known,
)
    requires
        key_values(row, x.child_positions@) is Some,
        forall|h: int|
            0 <= h < gone.len() ==> keys_equal(
                (#[trigger] gone[h]).old,
                key_values(row, x.child_positions@)->Some_0,
                k,
            ) == Ok::<bool, Stop>(false),
    ensures
        child_step(x, gone, defaults, row, k) == Ok::<StepView, Stop>(StepView::Keep),
{
    lemma_no_match(gone, key_values(row, x.child_positions@)->Some_0, 0, k);
}

proof fn lemma_no_match(gone: Seq<GoneView>, key: Seq<Val>, from: int, k: Known)
    requires
        0 <= from <= gone.len(),
        forall|h: int|
            from <= h < gone.len() ==> keys_equal((#[trigger] gone[h]).old, key, k) == Ok::<
                bool,
                Stop,
            >(false),
    ensures
        gone_match(gone, key, from, k) == Ok::<Option<int>, Stop>(None),
    decreases gone.len() - from,
{
    if from < gone.len() {
        assert(keys_equal(gone[from].old, key, k) == Ok::<bool, Stop>(false));
        lemma_no_match(gone, key, from + 1, k);
    }
}

// ---------------------------------------------------------------------------
// Keys
// ---------------------------------------------------------------------------

/// A key of integers.
pub open spec fn integer_key(s: Seq<i64>) -> Seq<Val> {
    s.map_values(|n: i64| Val::Int(n))
}

/// Keys of integers are equal where they are the same.
pub proof fn law_integer_keys_are_equal_where_the_same(a: Seq<i64>, b: Seq<i64>, k: Known)
    ensures
        keys_equal(integer_key(a), integer_key(b), k) == Ok::<bool, Stop>(a == b),
{
    if a.len() == b.len() {
        lemma_integer_keys(a, b, 0, k);
        if a == b {
            assert(forall|i: int| 0 <= i < a.len() ==> a[i] == b[i]);
        } else {
            assert(!(a =~= b));
        }
    }
}

proof fn lemma_integer_keys(a: Seq<i64>, b: Seq<i64>, i: int, k: Known)
    requires
        a.len() == b.len(),
        0 <= i <= a.len(),
    ensures
        keys_equal_from(integer_key(a), integer_key(b), i, k) == Ok::<bool, Stop>(
            forall|j: int| i <= j < a.len() ==> a[j] == b[j],
        ),
    decreases a.len() - i,
{
    if i < a.len() {
        assert(integer_key(a)[i] == Val::Int(a[i]));
        assert(integer_key(b)[i] == Val::Int(b[i]));
        lemma_integer_keys(a, b, i + 1, k);
    }
}

/// A row has a key where none of its columns is NULL, and the key is those
/// columns' values in order.
pub proof fn law_a_key_is_its_columns(row: Seq<Val>, at: Seq<usize>)
    requires
        forall|i: int| 0 <= i < at.len() ==> (#[trigger] at[i]) < row.len(),
    ensures
        key_values(row, at) is None <==> exists|i: int|
            0 <= i < at.len() && row[#[trigger] at[i] as int] == Val::Null,
        key_values(row, at) is Some ==> key_values(row, at)->Some_0.len() == at.len() && forall|
            i: int,
        |
            0 <= i < at.len() ==> #[trigger] key_values(row, at)->Some_0[i] == row[at[i] as int],
{
    if exists|i: int| 0 <= i < at.len() && row[#[trigger] at[i] as int] == Val::Null {
        let i = choose|i: int| 0 <= i < at.len() && row[#[trigger] at[i] as int] == Val::Null;
        assert(cell(row, at[i] as int) == Val::Null);
    }
    if key_values(row, at) is None {
        let i = choose|i: int| 0 <= i < at.len() && #[trigger] cell(row, at[i] as int) == Val::Null;
        assert(at[i] < row.len());
        assert(row[at[i] as int] == Val::Null);
    }
}

/// Every removed row with a key makes that key gone for good, and no other key
/// is gone.
pub proof fn law_removed_rows_take_their_keys(at: Seq<usize>, rows: Seq<Seq<Val>>, n: nat)
    requires
        n <= rows.len(),
    ensures
        ({
            let gone = removed_keys(at, rows, n);
            &&& forall|i: int|
                0 <= i < n && key_values(#[trigger] rows[i], at) is Some ==> gone.contains(
                    GoneView { old: key_values(rows[i], at)->Some_0, new: None },
                )
            &&& forall|g: int|
                0 <= g < gone.len() ==> (#[trigger] gone[g]).new is None && exists|i: int|
                    0 <= i < n && key_values(#[trigger] rows[i], at) == Some(gone[g].old)
        }),
    decreases n,
{
    if n > 0 {
        let m = (n - 1) as nat;
        law_removed_rows_take_their_keys(at, rows, m);
        let before = removed_keys(at, rows, m);
        let gone = removed_keys(at, rows, n);
        assert forall|i: int|
            0 <= i < n && key_values(#[trigger] rows[i], at) is Some implies gone.contains(
            GoneView { old: key_values(rows[i], at)->Some_0, new: None },
        ) by {
            let want = GoneView { old: key_values(rows[i], at)->Some_0, new: None };
            if i < m {
                assert(before.contains(want));
                let p = choose|p: int| 0 <= p < before.len() && before[p] == want;
                assert(gone[p] == want);
            } else {
                assert(gone[before.len() as int] == want);
            }
        }
        assert forall|g: int| 0 <= g < gone.len() implies (#[trigger] gone[g]).new is None
            && exists|i: int|
            0 <= i < n && key_values(#[trigger] rows[i], at) == Some(gone[g].old) by {
            if g < before.len() {
                assert(before[g] == gone[g]);
                let i = choose|i: int|
                    0 <= i < m && key_values(#[trigger] rows[i], at) == Some(before[g].old);
                assert(0 <= i < n && key_values(rows[i], at) == Some(gone[g].old));
            } else {
                assert(key_values(rows[m as int], at) == Some(gone[g].old));
            }
        }
    }
}

/// A changed row makes its old key gone, in favour of its new one, exactly
/// where the two differ.
pub proof fn law_a_changed_row_takes_its_key(
    at: Seq<usize>,
    old_row: Seq<Val>,
    new_row: Seq<Val>,
    k: Known,
)
    requires
        key_values(old_row, at) is Some,
    ensures
        ({
            let r = changed_keys(at, seq![(old_row, new_row)], 1, Seq::empty(), k);
            let old = key_values(old_row, at)->Some_0;
            let new = cells(new_row, at);
            &&& keys_equal(old, new, k) == Ok::<bool, Stop>(true) ==> r == Ok::<
                Seq<GoneView>,
                Stop,
            >(Seq::empty())
            &&& keys_equal(old, new, k) == Ok::<bool, Stop>(false) ==> r == Ok::<
                Seq<GoneView>,
                Stop,
            >(seq![GoneView { old, new: Some(new) }])
        }),
{
    let changed = seq![(old_row, new_row)];
    assert(changed_keys(at, changed, 0, Seq::empty(), k) == Ok::<Seq<GoneView>, Stop>(
        Seq::empty(),
    ));
    let old = key_values(old_row, at)->Some_0;
    let g = GoneView { old, new: Some(cells(new_row, at)) };
    assert(Seq::<GoneView>::empty().push(g) =~= seq![g]);
}

/// Every changed row whose key changes makes its old key gone, in favour of its
/// new one, and no other key is gone.
pub proof fn law_changed_rows_take_their_keys(
    at: Seq<usize>,
    changed: Seq<(Seq<Val>, Seq<Val>)>,
    n: nat,
    k: Known,
)
    requires
        n <= changed.len(),
        changed_keys(at, changed, n, Seq::empty(), k) is Ok,
    ensures
        ({
            let gone = changed_keys(at, changed, n, Seq::empty(), k)->Ok_0;
            &&& forall|i: int|
                0 <= i < n && key_changes(at, #[trigger] changed[i], k) ==> gone.contains(
                    GoneView {
                        old: key_values(changed[i].0, at)->Some_0,
                        new: Some(cells(changed[i].1, at)),
                    },
                )
            &&& forall|g: int|
                0 <= g < gone.len() ==> exists|i: int|
                    0 <= i < n && key_changes(at, #[trigger] changed[i], k) && key_values(
                        changed[i].0,
                        at,
                    ) == Some((#[trigger] gone[g]).old) && gone[g].new == Some(
                        cells(changed[i].1, at),
                    )
        }),
    decreases n,
{
    if n > 0 {
        let m = (n - 1) as nat;
        law_changed_rows_take_their_keys(at, changed, m, k);
        let before = changed_keys(at, changed, m, Seq::empty(), k)->Ok_0;
        let gone = changed_keys(at, changed, n, Seq::empty(), k)->Ok_0;
        assert forall|i: int| 0 <= i < n && key_changes(at, #[trigger] changed[i], k) implies gone.contains(
            GoneView {
                old: key_values(changed[i].0, at)->Some_0,
                new: Some(cells(changed[i].1, at)),
            },
        ) by {
            let want = GoneView {
                old: key_values(changed[i].0, at)->Some_0,
                new: Some(cells(changed[i].1, at)),
            };
            if i < m {
                assert(before.contains(want));
                let p = choose|p: int| 0 <= p < before.len() && before[p] == want;
                assert(gone[p] == want);
            } else {
                assert(gone[before.len() as int] == want);
            }
        }
        assert forall|g: int| 0 <= g < gone.len() implies exists|i: int|
            0 <= i < n && key_changes(at, #[trigger] changed[i], k) && key_values(
                changed[i].0,
                at,
            ) == Some((#[trigger] gone[g]).old) && gone[g].new == Some(cells(changed[i].1, at)) by {
            if g < before.len() {
                assert(before[g] == gone[g]);
                let i = choose|i: int|
                    0 <= i < m && key_changes(at, #[trigger] changed[i], k) && key_values(
                        changed[i].0,
                        at,
                    ) == Some(before[g].old) && before[g].new == Some(cells(changed[i].1, at));
                assert(key_changes(at, changed[i], k) && key_values(changed[i].0, at) == Some(
                    gone[g].old,
                ));
            } else {
                let i = m as int;
                assert(key_changes(at, changed[i], k));
            }
        }
    }
}

/// Whether a change of a row changes its key.
pub open spec fn key_changes(at: Seq<usize>, change: (Seq<Val>, Seq<Val>), k: Known) -> bool {
    key_values(change.0, at) is Some && keys_equal(
        key_values(change.0, at)->Some_0,
        cells(change.1, at),
        k,
    ) == Ok::<bool, Stop>(false)
}

// ---------------------------------------------------------------------------
// New and changed rows
// ---------------------------------------------------------------------------

proof fn lemma_key_found(
    rows: Seq<Seq<Val>>,
    at: Seq<usize>,
    key: Seq<Val>,
    from: int,
    k: Known,
)
    requires
        0 <= from <= rows.len(),
        forall|i: int|
            from <= i < rows.len() && key_values(#[trigger] rows[i], at) is Some ==> keys_equal(
                key_values(rows[i], at)->Some_0,
                key,
                k,
            ) is Ok,
    ensures
        key_found(rows, at, key, from, k) == Ok::<bool, Stop>(
            exists|i: int|
                from <= i < rows.len() && key_values(#[trigger] rows[i], at) is Some && keys_equal(
                    key_values(rows[i], at)->Some_0,
                    key,
                    k,
                ) == Ok::<bool, Stop>(true),
        ),
    decreases rows.len() - from,
{
    if from < rows.len() {
        lemma_key_found(rows, at, key, from + 1, k);
        assert(rows[from] == rows[from]);
    }
}

/// A new row of another table is accepted exactly where a referenced row has
/// its key; otherwise it is a violation, or the check fails.
pub proof fn law_a_new_row_needs_its_key(
    x: Reference,
    row: Seq<Val>,
    parents: Seq<Seq<Val>>,
    k: Known,
)
    requires
        !x.is_own,
        key_values(row, x.child_positions@) is Some,
        forall|i: int|
            0 <= i < parents.len() && key_values(#[trigger] parents[i], x.parent_positions@) is Some
                ==> keys_equal(
                key_values(parents[i], x.parent_positions@)->Some_0,
                key_values(row, x.child_positions@)->Some_0,
                k,
            ) is Ok,
    ensures
        row_checked(x, row, None, parents, k) == Ok::<Option<ViolationView>, Stop>(None)
            <==> exists|i: int|
            0 <= i < parents.len() && key_values(#[trigger] parents[i], x.parent_positions@) is Some
                && keys_equal(
                key_values(parents[i], x.parent_positions@)->Some_0,
                key_values(row, x.child_positions@)->Some_0,
                k,
            ) == Ok::<bool, Stop>(true),
{
    lemma_key_found(
        parents,
        x.parent_positions@,
        key_values(row, x.child_positions@)->Some_0,
        0,
        k,
    );
}

/// A row that references its own table may name itself, and a change that
/// leaves a key as it was is not checked again, whatever the table holds.
pub proof fn law_rows_that_are_not_looked_up(
    x: Reference,
    row: Seq<Val>,
    old_row: Seq<Val>,
    parents: Seq<Seq<Val>>,
    k: Known,
)
    requires
        key_values(row, x.child_positions@) is Some,
    ensures
        x.is_own && key_values(row, x.parent_positions@) is Some && keys_equal(
            key_values(row, x.parent_positions@)->Some_0,
            key_values(row, x.child_positions@)->Some_0,
            k,
        ) == Ok::<bool, Stop>(true) ==> row_checked(x, row, None, parents, k) == Ok::<
            Option<ViolationView>,
            Stop,
        >(None),
        key_values(old_row, x.child_positions@) is Some && keys_equal(
            key_values(old_row, x.child_positions@)->Some_0,
            key_values(row, x.child_positions@)->Some_0,
            k,
        ) == Ok::<bool, Stop>(true) ==> row_checked(x, row, Some(old_row), parents, k) == Ok::<
            Option<ViolationView>,
            Stop,
        >(None),
{
}

// ---------------------------------------------------------------------------
// Definitions of foreign keys
// ---------------------------------------------------------------------------

/// A resolved foreign key pairs the columns it names, in order: its `i`-th
/// position in the referencing table is that of the `i`-th column it names, and
/// its `i`-th position in the referenced table that of the `i`-th column it
/// references.
pub proof fn law_keys_resolve_to_their_columns(
    child: Seq<char>,
    child_columns: Seq<Seq<char>>,
    parent: Seq<char>,
    parent_columns: Seq<Seq<char>>,
    primary: Seq<int>,
    fk: KeyView,
    i: int,
)
    requires
        resolved(child, child_columns, parent, parent_columns, primary, fk) is Ok,
        0 <= i < fk.columns.len(),
    ensures
        ({
            let (at, parent_at) = resolved(
                child,
                child_columns,
                parent,
                parent_columns,
                primary,
                fk,
            )->Ok_0;
            &&& at.len() == fk.columns.len() && parent_at.len() == at.len()
            &&& 0 <= at[i] < child_columns.len() && child_columns[at[i]] == fk.columns[i]
            &&& fk.referred_columns.len() > 0 ==> 0 <= parent_at[i] < parent_columns.len()
                && parent_columns[parent_at[i]] == fk.referred_columns[i]
            &&& fk.referred_columns.len() == 0 ==> parent_at == primary
        }),
{
    lemma_column_positions(fk.columns, child_columns, i);
    lemma_positions_len(fk.columns, child_columns);
    if fk.referred_columns.len() > 0 {
        lemma_positions_len(fk.referred_columns, parent_columns);
        lemma_column_positions(fk.referred_columns, parent_columns, i);
    }
}

proof fn lemma_positions_len(wanted: Seq<Seq<char>>, columns: Seq<Seq<char>>)
    ensures
        column_positions(wanted, columns) is Ok ==> column_positions(wanted, columns)->Ok_0.len()
            == wanted.len(),
    decreases wanted.len(),
{
    if wanted.len() > 0 {
        lemma_positions_len(wanted.drop_last(), columns);
    }
}

proof fn lemma_column_positions(wanted: Seq<Seq<char>>, columns: Seq<Seq<char>>, i: int)
    ensures
        column_positions(wanted, columns) is Ok && 0 <= i < wanted.len() ==> ({
            let at = column_positions(wanted, columns)->Ok_0;
            0 <= at[i] < columns.len() && columns[at[i]] == wanted[i]
        }),
    decreases wanted.len(),
{
    if wanted.len() > 0 {
        lemma_column_positions(wanted.drop_last(), columns, i);
        lemma_positions_len(wanted.drop_last(), columns);
        crate::text::lemma_index_of(columns, wanted.last());
    }
}

/// Completing a foreign key changes neither its own columns, nor the table it
/// references, nor what it does on a deletion or an update, and keeps the
/// columns it names there.
pub proof fn law_completing_a_key_keeps_its_actions(
    child: KeysView,
    schema: Seq<char>,
    fk: KeyView,
    found: Option<KeysView>,
)
    requires
        prepared(child, schema, fk, found) is Ok,
    ensures
        ({
            let p = prepared(child, schema, fk, found)->Ok_0;
            &&& p.on_delete == fk.on_delete && p.on_update == fk.on_update
            &&& p.columns == fk.columns && p.foreign_table == fk.foreign_table
            &&& fk.referred_columns.len() > 0 ==> p.referred_columns == fk.referred_columns
            &&& fk.name is Some ==> p.name == fk.name
            &&& p.referred_columns.len() == fk.columns.len()
        }),
{
}

// ---------------------------------------------------------------------------
// Sweeping the referencing table
// ---------------------------------------------------------------------------

/// A sweep keeps every row that is neither removed nor changed, in order, puts
/// the new row in the place of a changed one, and leaves out exactly the
/// removed ones, which it hands on with the changed ones.
pub proof fn law_a_sweep_does_each_step(rows: Seq<Seq<Val>>, steps: Seq<StepView>, n: nat)
    requires
        n < rows.len(),
        n < steps.len(),
    ensures
        steps[n as int] is Keep ==> swept(rows, steps, n + 1) == swept(rows, steps, n).push(
            rows[n as int],
        ) && swept_away(rows, steps, n + 1) == swept_away(rows, steps, n) && swept_over(
            rows,
            steps,
            n + 1,
        ) == swept_over(rows, steps, n),
        steps[n as int] is Remove ==> swept(rows, steps, n + 1) == swept(rows, steps, n)
            && swept_away(rows, steps, n + 1) == swept_away(rows, steps, n).push(rows[n as int])
            && swept_over(rows, steps, n + 1) == swept_over(rows, steps, n),
        steps[n as int] is Update ==> swept(rows, steps, n + 1) == swept(rows, steps, n).push(
            steps[n as int]->Update_0,
        ) && swept_away(rows, steps, n + 1) == swept_away(rows, steps, n) && swept_over(
            rows,
            steps,
            n + 1,
        ) == swept_over(rows, steps, n).push((rows[n as int], steps[n as int]->Update_0)),
        swept(rows, steps, n + 1).len() + swept_away(rows, steps, n + 1).len() == swept(
            rows,
            steps,
            n,
        ).len() + swept_away(rows, steps, n).len() + 1,
{
}

/// A sweep in which every row is kept changes nothing.
pub proof fn law_a_sweep_of_kept_rows_changes_nothing(
    rows: Seq<Seq<Val>>,
    steps: Seq<StepView>,
    n: nat,
)
    requires
        n <= rows.len(),
        n <= steps.len(),
        forall|i: int| 0 <= i < n ==> (#[trigger] steps[i]) is Keep,
    ensures
        swept(rows, steps, n) == rows.take(n as int),
        swept_away(rows, steps, n) == Seq::<Seq<Val>>::empty(),
        swept_over(rows, steps, n) == Seq::<(Seq<Val>, Seq<Val>)>::empty(),
    decreases n,
{
    if n == 0 {
        assert(rows.take(0) =~= Seq::empty());
    } else {
        law_a_sweep_of_kept_rows_changes_nothing(rows, steps, (n - 1) as nat);
        assert(steps[n - 1] is Keep);
        assert(rows.take(n as int) =~= rows.take(n - 1).push(rows[n - 1]));
    }
}

// ---------------------------------------------------------------------------
// The check at the end of a statement
// ---------------------------------------------------------------------------

proof fn lemma_key_strings_hold(
    rows: Seq<Seq<Val>>,
    at: Seq<usize>,
    n: nat,
    i: int,
    k: Known,
)
    requires
        0 <= i < n <= rows.len(),
        key_strings(rows, at, n, k) is Ok,
        key_values(rows[i], at) is Some,
    ensures
        key_of(key_values(rows[i], at)->Some_0, k) is Ok,
        key_strings(rows, at, n, k)->Ok_0.contains(
            key_of(key_values(rows[i], at)->Some_0, k)->Ok_0,
        ),
    decreases n,
{
    let all = key_strings(rows, at, n, k)->Ok_0;
    let rest = key_strings(rows, at, (n - 1) as nat, k)->Ok_0;
    if i < n - 1 {
        lemma_key_strings_hold(rows, at, (n - 1) as nat, i, k);
        let text = key_of(key_values(rows[i], at)->Some_0, k)->Ok_0;
        let p = choose|p: int| 0 <= p < rest.len() && rest[p] == text;
        assert(all[p] == text);
    } else {
        assert(all[rest.len() as int] == key_of(key_values(rows[i], at)->Some_0, k)->Ok_0);
    }
}

/// The check at the end of a statement passes where every referencing row with
/// a key finds it among the referenced rows.
pub proof fn law_the_end_check_passes_intact_rows(
    x: Reference,
    parents: Seq<Seq<Val>>,
    children: Seq<Seq<Val>>,
    k: Known,
)
    requires
        key_strings(parents, x.parent_positions@, parents.len(), k) is Ok,
        forall|j: int|
            0 <= j < children.len() && key_values(#[trigger] children[j], x.child_positions@) is Some
                ==> ({
                let text = key_of(key_values(children[j], x.child_positions@)->Some_0, k);
                text is Ok && has_key_string(parents, x.parent_positions@, text->Ok_0, k)
            }),
    ensures
        end_checked(x, parents, children, k) == Ok::<Option<ViolationView>, Stop>(None),
{
    lemma_nothing_dangles_from(x, parents, children, 0, k);
}

proof fn lemma_nothing_dangles_from(
    x: Reference,
    parents: Seq<Seq<Val>>,
    children: Seq<Seq<Val>>,
    from: int,
    k: Known,
)
    requires
        0 <= from <= children.len(),
        key_strings(parents, x.parent_positions@, parents.len(), k) is Ok,
        forall|j: int|
            0 <= j < children.len() && key_values(#[trigger] children[j], x.child_positions@) is Some
                ==> ({
                let text = key_of(key_values(children[j], x.child_positions@)->Some_0, k);
                text is Ok && has_key_string(parents, x.parent_positions@, text->Ok_0, k)
            }),
    ensures
        first_dangling(
            x,
            key_strings(parents, x.parent_positions@, parents.len(), k)->Ok_0,
            children,
            from,
            k,
        ) == Ok::<Option<ViolationView>, Stop>(None),
    decreases children.len() - from,
{
    if from < children.len() {
        lemma_nothing_dangles_from(x, parents, children, from + 1, k);
        if key_values(children[from], x.child_positions@) is Some {
            let text = key_of(key_values(children[from], x.child_positions@)->Some_0, k)->Ok_0;
            assert(has_key_string(parents, x.parent_positions@, text, k));
            let i = choose|i: int|
                0 <= i < parents.len() && match key_values(
                    #[trigger] parents[i],
                    x.parent_positions@,
                ) {
                    Some(key) => key_of(key, k) == Ok::<Seq<char>, Stop>(text),
                    None => false,
                };
            lemma_key_strings_hold(parents, x.parent_positions@, parents.len(), i, k);
        }
    }
}

} // verus!
