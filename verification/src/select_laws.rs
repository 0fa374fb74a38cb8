//! What LIMIT, OFFSET, ORDER BY, and DISTINCT make of a query's output.
use vstd::prelude::*;
use crate::arrange::{
    distinct_rows, key_sources, key_target, row_seen, rows_alike, sliced, sort_keys, sort_orders,
};
use crate::facts::{Known, Stop};
use crate::join::{relation_name, sourced, Rel, Relation};
use crate::ordering::{
    consistent, in_order, law_plain_keys_order_consistently, law_sort_is_a_permutation,
    law_sort_orders_stably, plain_keys, sorted_rows,
};
use crate::plan_types::{ScalarExpr, SelectPlan};
use crate::projection::Table;
use crate::select::{
    filtered, group_columns_checked, groups_rows, grouping_sets, joins_upto, names_checked,
    produced_rows, row_key_columns, select_output, selected, set_staged, sets_staged,
    target_aggregates, with_group_exprs, JoinInput, Joined, Produced,
};
use crate::set_ops::select_tag;
use crate::text::{lower, texts};
use crate::value::Val;
use crate::window::reordered;

verus! {

// ---------------------------------------------------------------------------
// The stages of a query
// ---------------------------------------------------------------------------

/// The relations that a query reads, joined.
pub open spec fn relations_read(
    plan: SelectPlan,
    base: Relation,
    is_virtual: bool,
    inputs: Seq<JoinInput>,
    k: Known,
) -> Result<Joined, Stop> {
    let prefix = relation_name(plan.table_alias, plan.table_name);
    let first = sourced(prefix, base@.columns, base@.types, base@.rows);
    joins_upto(plan, inputs, plan.joins@.len(), Joined { rel: first, lenient: is_virtual }, k)
}

/// The rows that a query produces of its joined relations, before they are put
/// in order.
pub open spec fn rows_produced(plan: SelectPlan, rel: Rel, lenient: bool, k: Known) -> Result<
    Produced,
    Stop,
> {
    match names_checked(plan, rel, lenient, k) {
        Err(s) => Err(s),
        Ok(_) => match filtered(plan, rel, k) {
            Err(s) => Err(s),
            Ok(rows) => match with_group_exprs(
                plan.group_exprs@,
                plan.group_exprs@.len(),
                Table { names: rel.columns, rows },
                k,
            ) {
                Err(s) => Err(s),
                Ok(t) => match if lenient {
                    Ok(())
                } else {
                    group_columns_checked(
                        texts(plan.group_by@),
                        plan.group_by@.len(),
                        t.names,
                        k,
                    )
                } {
                    Err(s) => Err(s),
                    Ok(_) => produced_rows(plan, rel.types, t, k),
                },
            },
        },
    }
}

proof fn lemma_joins_alike(
    p: SelectPlan,
    q: SelectPlan,
    inputs: Seq<JoinInput>,
    n: nat,
    base: Joined,
    k: Known,
)
    requires
        p.joins == q.joins,
    ensures
        joins_upto(p, inputs, n, base, k) == joins_upto(q, inputs, n, base, k),
    decreases n,
{
    if n > 0 {
        lemma_joins_alike(p, q, inputs, (n - 1) as nat, base, k);
    }
}

proof fn lemma_sets_alike(
    p: SelectPlan,
    q: SelectPlan,
    sets: Seq<Seq<Seq<char>>>,
    n: nat,
    t: Table,
    k: Known,
)
    requires
        p.having == q.having,
        p.projection == q.projection,
        p.group_by == q.group_by,
        p.sort == q.sort,
        p.distinct_on == q.distinct_on,
    ensures
        sets_staged(p, sets, n, t, k) == sets_staged(q, sets, n, t, k),
    decreases n,
{
    if n > 0 {
        lemma_sets_alike(p, q, sets, (n - 1) as nat, t, k);
        assert(set_staged(p, sets[n - 1], t, k) == set_staged(q, sets[n - 1], t, k));
    }
}

proof fn lemma_produced_alike(
    p: SelectPlan,
    q: SelectPlan,
    types: Seq<Seq<char>>,
    t: Table,
    k: Known,
)
    requires
        q == (SelectPlan { limit: q.limit, offset: q.offset, distinct: q.distinct, ..p }),
    ensures
        produced_rows(p, types, t, k) == produced_rows(q, types, t, k),
{
    lemma_sets_alike(p, q, grouping_sets(p), grouping_sets(p).len(), t, k);
    assert(grouping_sets(p) == grouping_sets(q));
    assert(groups_rows(p) == groups_rows(q));
}

// ---------------------------------------------------------------------------
// LIMIT and OFFSET
// ---------------------------------------------------------------------------

proof fn lemma_group_expr_names(
    exprs: Seq<(String, ScalarExpr)>,
    n: nat,
    t: Table,
    u: Table,
    k: Known,
)
    requires
        t.names == u.names,
        with_group_exprs(exprs, n, t, k) is Ok,
        with_group_exprs(exprs, n, u, k) is Ok,
    ensures
        with_group_exprs(exprs, n, t, k)->Ok_0.names == with_group_exprs(
            exprs,
            n,
            u,
            k,
        )->Ok_0.names,
    decreases n,
{
    if n > 0 {
        lemma_group_expr_names(exprs, (n - 1) as nat, t, u, k);
    }
}

proof fn lemma_selected_slice(
    plan: SelectPlan,
    full: SelectPlan,
    rel: Rel,
    lenient: bool,
    k: Known,
)
    requires
        full == (SelectPlan { limit: full.limit, offset: full.offset, ..plan }),
        full.limit is None,
        full.offset is None,
        selected(plan, rel, lenient, k) is Ok,
        selected(full, rel, lenient, k) is Ok,
    ensures
        selected(plan, rel, lenient, k)->Ok_0.columns == selected(
            full,
            rel,
            lenient,
            k,
        )->Ok_0.columns,
        selected(plan, rel, lenient, k)->Ok_0.rows == sliced(
            selected(full, rel, lenient, k)->Ok_0.rows,
            plan.offset,
            plan.limit,
        ),
        selected(plan, rel, lenient, k)->Ok_0.tag == select_tag(
            selected(plan, rel, lenient, k)->Ok_0.rows.len(),
        ),
{
    let part = Table { names: rel.columns, rows: filtered(plan, rel, k)->Ok_0 };
    let whole = Table { names: rel.columns, rows: filtered(full, rel, k)->Ok_0 };
    let n = plan.group_exprs@.len();
    lemma_group_expr_names(plan.group_exprs@, n, part, whole, k);
    let t = with_group_exprs(plan.group_exprs@, n, part, k)->Ok_0;
    let u = with_group_exprs(plan.group_exprs@, n, whole, k)->Ok_0;
    lemma_produced_alike(plan, full, rel.types, t, k);
    lemma_produced_alike(plan, full, rel.types, u, k);
    let p = produced_rows(plan, rel.types, t, k)->Ok_0;
    let q = produced_rows(full, rel.types, u, k)->Ok_0;
    assert(groups_rows(plan) == groups_rows(full));
    assert(p.outputs == q.outputs);
    let rows = selected(full, rel, lenient, k)->Ok_0.rows;
    if plan.limit == Some(0usize) {
        assert(selected(plan, rel, lenient, k)->Ok_0.rows =~= sliced(
            rows,
            plan.offset,
            plan.limit,
        ));
    }
}

/// A query with LIMIT and OFFSET returns the slice that they leave of the query
/// without them: the same columns, those rows, and a tag that counts them.
pub proof fn law_limit_and_offset_slice_the_output(
    plan: SelectPlan,
    full: SelectPlan,
    base: Relation,
    is_virtual: bool,
    inputs: Seq<JoinInput>,
    k: Known,
)
    requires
        full == (SelectPlan { limit: full.limit, offset: full.offset, ..plan }),
        full.limit is None,
        full.offset is None,
        lower(plan.table_name@) != "pg_stat_ssl"@,
        select_output(plan, base, is_virtual, inputs, k) is Ok,
        select_output(full, base, is_virtual, inputs, k) is Ok,
    ensures
        ({
            let part = select_output(plan, base, is_virtual, inputs, k)->Ok_0;
            let whole = select_output(full, base, is_virtual, inputs, k)->Ok_0;
            &&& part.columns == whole.columns
            &&& part.rows == sliced(whole.rows, plan.offset, plan.limit)
            &&& part.tag == select_tag(part.rows.len())
        }),
{
    let prefix = relation_name(plan.table_alias, plan.table_name);
    let first = Joined {
        rel: sourced(prefix, base@.columns, base@.types, base@.rows),
        lenient: is_virtual,
    };
    lemma_joins_alike(plan, full, inputs, plan.joins@.len(), first, k);
    let state = joins_upto(plan, inputs, plan.joins@.len(), first, k)->Ok_0;
    lemma_selected_slice(plan, full, state.rel, state.lenient, k);
}

// ---------------------------------------------------------------------------
// ORDER BY
// ---------------------------------------------------------------------------

/// The values of the sort keys of each row that a query produces.
pub open spec fn order_keys(
    plan: SelectPlan,
    base: Relation,
    is_virtual: bool,
    inputs: Seq<JoinInput>,
    k: Known,
) -> Seq<Seq<Val>> {
    let state = relations_read(plan, base, is_virtual, inputs, k)->Ok_0;
    let p = rows_produced(plan, state.rel, state.lenient, k)->Ok_0;
    let sources = key_sources(
        plan.sort@,
        plan.distinct_on@,
        plan.sort@.len() + plan.distinct_on@.len(),
        p.outputs,
        p.names,
        state.lenient,
        k,
    )->Ok_0;
    sort_keys(sources, p.staged)
}

proof fn lemma_sets_rows_alike(
    p: SelectPlan,
    q: SelectPlan,
    sets: Seq<Seq<Seq<char>>>,
    n: nat,
    t: Table,
    k: Known,
)
    requires
        q == (SelectPlan { sort: q.sort, ..p }),
        q.sort@.len() == 0,
        q.distinct_on@.len() == 0,
        sets_staged(p, sets, n, t, k) is Ok,
    ensures
        sets_staged(q, sets, n, t, k) is Ok,
        sets_staged(q, sets, n, t, k)->Ok_0.rows == sets_staged(p, sets, n, t, k)->Ok_0.rows,
    decreases n,
{
    if n > 0 {
        lemma_sets_rows_alike(p, q, sets, (n - 1) as nat, t, k);
        assert(set_staged(p, sets[n - 1], t, k) is Ok);
        assert(set_staged(q, sets[n - 1], t, k) is Ok);
        assert(set_staged(q, sets[n - 1], t, k)->Ok_0.rows == set_staged(
            p,
            sets[n - 1],
            t,
            k,
        )->Ok_0.rows);
    }
}

proof fn lemma_produced_rows_alike(
    p: SelectPlan,
    q: SelectPlan,
    types: Seq<Seq<char>>,
    t: Table,
    k: Known,
)
    requires
        q == (SelectPlan { sort: q.sort, ..p }),
        q.sort@.len() == 0,
        q.distinct_on@.len() == 0,
        forall|i: int| 0 <= i < p.sort@.len() ==> !target_aggregates(#[trigger] p.sort@[i].target),
        produced_rows(p, types, t, k) is Ok,
    ensures
        produced_rows(q, types, t, k) is Ok,
        produced_rows(q, types, t, k)->Ok_0.staged.rows == produced_rows(
            p,
            types,
            t,
            k,
        )->Ok_0.staged.rows,
        produced_rows(q, types, t, k)->Ok_0.outputs == produced_rows(p, types, t, k)->Ok_0.outputs,
{
    assert(grouping_sets(p) == grouping_sets(q));
    assert forall|i: int|
        0 <= i < p.sort@.len() + p.distinct_on@.len() implies !target_aggregates(
        #[trigger] key_target(p.sort@, p.distinct_on@, i),
    ) by {
        assert(key_target(p.sort@, p.distinct_on@, i) == p.sort@[i].target);
    }
    assert(groups_rows(p) == groups_rows(q));
    if groups_rows(p) {
        lemma_sets_rows_alike(p, q, grouping_sets(p), grouping_sets(p).len(), t, k);
    } else {
        assert(row_key_columns(q.sort@, q.distinct_on@, 0, t, k) is Ok);
    }
}

/// ORDER BY rearranges the output of the query without it: each row occurs as
/// often, under the same columns and tag, and where the keys order the rows
/// consistently every two of them stand in order, rows that the keys do not
/// tell apart in the order that they had. Keys of integers, booleans, and texts,
/// and NULLs among them, order the rows consistently; what is looked up for
/// other values need not.
pub proof fn law_order_by_sorts_the_output(
    plan: SelectPlan,
    plain: SelectPlan,
    base: Relation,
    is_virtual: bool,
    inputs: Seq<JoinInput>,
    k: Known,
)
    requires
        plain == (SelectPlan { sort: plain.sort, ..plan }),
        plain.sort@.len() == 0,
        plan.sort@.len() > 0,
        forall|i: int|
            0 <= i < plan.sort@.len() ==> !target_aggregates(#[trigger] plan.sort@[i].target),
        plan.distinct_on@.len() == 0,
        !plan.distinct,
        plan.limit is None,
        plan.offset is None,
        lower(plan.table_name@) != "pg_stat_ssl"@,
        select_output(plan, base, is_virtual, inputs, k) is Ok,
        select_output(plain, base, is_virtual, inputs, k) is Ok,
    ensures
        ({
            let sorted = select_output(plan, base, is_virtual, inputs, k)->Ok_0;
            let unsorted = select_output(plain, base, is_virtual, inputs, k)->Ok_0;
            let n = unsorted.rows.len();
            let keys = order_keys(plan, base, is_virtual, inputs, k);
            let orders = sort_orders(plan.sort@);
            let p = sorted_rows(keys, orders, n, k)->Ok_0;
            &&& sorted.columns == unsorted.columns
            &&& sorted.tag == unsorted.tag
            &&& sorted_rows(keys, orders, n, k) is Ok
            &&& p.len() == n
            &&& forall|i: int| 0 <= i < n ==> 0 <= #[trigger] p[i] < n
            &&& forall|i: int, j: int| 0 <= i < j < n ==> p[i] != p[j]
            &&& sorted.rows == reordered(unsorted.rows, p)
            &&& plain_keys(keys, orders, n) ==> consistent(keys, orders, n, k)
            &&& consistent(keys, orders, n, k) ==> forall|i: int, j: int|
                0 <= i < j < n ==> in_order(keys, orders, #[trigger] p[i], #[trigger] p[j], k)
        }),
{
    let prefix = relation_name(plan.table_alias, plan.table_name);
    let first = Joined {
        rel: sourced(prefix, base@.columns, base@.types, base@.rows),
        lenient: is_virtual,
    };
    lemma_joins_alike(plan, plain, inputs, plan.joins@.len(), first, k);
    let state = joins_upto(plan, inputs, plan.joins@.len(), first, k)->Ok_0;
    let rel = state.rel;
    let given = Table { names: rel.columns, rows: filtered(plan, rel, k)->Ok_0 };
    let t = with_group_exprs(plan.group_exprs@, plan.group_exprs@.len(), given, k)->Ok_0;
    lemma_produced_rows_alike(plan, plain, rel.types, t, k);
    let p = produced_rows(plan, rel.types, t, k)->Ok_0;
    let q = produced_rows(plain, rel.types, t, k)->Ok_0;
    assert(rows_produced(plan, rel, state.lenient, k) == Ok::<Produced, Stop>(p));
    let keys = order_keys(plan, base, is_virtual, inputs, k);
    let orders = sort_orders(plan.sort@);
    let n = q.staged.rows.len();
    law_sort_is_a_permutation(keys, orders, n, k);
    if plain_keys(keys, orders, n) {
        law_plain_keys_order_consistently(keys, orders, n, k);
    }
    if consistent(keys, orders, n, k) {
        law_sort_orders_stably(keys, orders, n, k);
    }
}

// ---------------------------------------------------------------------------
// DISTINCT
// ---------------------------------------------------------------------------

/// The positions of the rows that DISTINCT keeps.
pub open spec fn kept_positions(rows: Seq<Seq<Val>>, k: Known) -> Seq<int>
    decreases rows.len(),
{
    if rows.len() == 0 {
        Seq::empty()
    } else {
        let before = kept_positions(rows.drop_last(), k);
        match distinct_rows(rows.drop_last(), k) {
            Ok(seen) => if row_seen(seen, rows.last(), 0, k) == Ok::<bool, Stop>(true) {
                before
            } else {
                before.push(rows.len() - 1)
            },
            Err(_) => before,
        }
    }
}

proof fn lemma_seen(seen: Seq<Seq<Val>>, row: Seq<Val>, from: int, k: Known)
    requires
        0 <= from,
    ensures
        row_seen(seen, row, from, k) == Ok::<bool, Stop>(true) ==> exists|j: int|
            from <= j < seen.len() && rows_alike(#[trigger] seen[j], row, 0, k) == Ok::<bool, Stop>(
                true,
            ),
        row_seen(seen, row, from, k) == Ok::<bool, Stop>(false) ==> forall|j: int|
            from <= j < seen.len() ==> rows_alike(#[trigger] seen[j], row, 0, k) == Ok::<
                bool,
                Stop,
            >(false),
    decreases seen.len() - from,
{
    if from < seen.len() {
        lemma_seen(seen, row, from + 1, k);
        if row_seen(seen, row, from, k) == Ok::<bool, Stop>(true) {
            if rows_alike(seen[from], row, 0, k) == Ok::<bool, Stop>(true) {
                assert(rows_alike(seen[from], row, 0, k) == Ok::<bool, Stop>(true));
            } else {
                let j = choose|j: int|
                    from + 1 <= j < seen.len() && rows_alike(#[trigger] seen[j], row, 0, k) == Ok::<
                        bool,
                        Stop,
                    >(true);
                assert(rows_alike(seen[j], row, 0, k) == Ok::<bool, Stop>(true));
            }
        }
    }
}

/// Whether a row, or one that compares equal to it, is among rows.
pub open spec fn has_alike(rows: Seq<Seq<Val>>, row: Seq<Val>, k: Known) -> bool {
    exists|i: int|
        0 <= i < rows.len() && (#[trigger] rows[i] == row || rows_alike(rows[i], row, 0, k) == Ok::<
            bool,
            Stop,
        >(true))
}

/// DISTINCT keeps rows in their order, no two of which compare equal, and
/// drops a row only for an earlier one that compares equal to it.
pub proof fn law_distinct_keeps_the_first_of_each_class(rows: Seq<Seq<Val>>, k: Known)
    requires
        distinct_rows(rows, k) is Ok,
    ensures
        ({
            let out = distinct_rows(rows, k)->Ok_0;
            let at = kept_positions(rows, k);
            &&& out.len() == at.len()
            &&& forall|i: int|
                0 <= i < at.len() ==> 0 <= #[trigger] at[i] < rows.len() && out[i] == rows[at[i]]
            &&& forall|i: int, j: int| 0 <= i < j < at.len() ==> at[i] < at[j]
            &&& forall|i: int, j: int|
                0 <= i < j < out.len() ==> rows_alike(#[trigger] out[i], #[trigger] out[j], 0, k)
                    == Ok::<bool, Stop>(false)
            &&& forall|r: int| 0 <= r < rows.len() ==> has_alike(out, #[trigger] rows[r], k)
        }),
    decreases rows.len(),
{
    if rows.len() > 0 {
        let rest = rows.drop_last();
        let row = rows.last();
        law_distinct_keeps_the_first_of_each_class(rest, k);
        let seen = distinct_rows(rest, k)->Ok_0;
        let out = distinct_rows(rows, k)->Ok_0;
        let at = kept_positions(rows, k);
        let before = kept_positions(rest, k);
        lemma_seen(seen, row, 0, k);
        assert forall|i: int| 0 <= i < at.len() implies 0 <= #[trigger] at[i] < rows.len() && out[i]
            == rows[at[i]] by {
            if i < before.len() {
                assert(at[i] == before[i]);
                assert(out[i] == seen[i]);
                assert(rest[before[i]] == rows[before[i]]);
            }
        }
        assert forall|i: int, j: int| 0 <= i < j < out.len() implies rows_alike(
            #[trigger] out[i],
            #[trigger] out[j],
            0,
            k,
        ) == Ok::<bool, Stop>(false) by {
            assert(out[i] == seen[i]);
            if j < seen.len() {
                assert(out[j] == seen[j]);
            } else {
                assert(out[j] == row);
            }
        }
        assert forall|r: int| 0 <= r < rows.len() implies has_alike(out, #[trigger] rows[r], k) by {
            if r < rest.len() {
                assert(rest[r] == rows[r]);
                assert(has_alike(seen, rest[r], k));
                let i = choose|i: int|
                    0 <= i < seen.len() && (#[trigger] seen[i] == rest[r] || rows_alike(
                        seen[i],
                        rest[r],
                        0,
                        k,
                    ) == Ok::<bool, Stop>(true));
                assert(out[i] == seen[i]);
            } else if row_seen(seen, row, 0, k) == Ok::<bool, Stop>(true) {
                let i = choose|i: int|
                    0 <= i < seen.len() && rows_alike(#[trigger] seen[i], row, 0, k) == Ok::<
                        bool,
                        Stop,
                    >(true);
                assert(out[i] == seen[i]);
            } else {
                assert(out[out.len() - 1] == row);
            }
        }
    }
}

/// SELECT DISTINCT returns, under the same columns, what DISTINCT keeps of the
/// output of the plain query.
pub proof fn law_select_distinct_keeps_the_first_rows(
    plan: SelectPlan,
    plain: SelectPlan,
    base: Relation,
    is_virtual: bool,
    inputs: Seq<JoinInput>,
    k: Known,
)
    requires
        plain == (SelectPlan { distinct: plain.distinct, ..plan }),
        plan.distinct,
        !plain.distinct,
        plan.limit is None,
        plan.offset is None,
        lower(plan.table_name@) != "pg_stat_ssl"@,
        select_output(plan, base, is_virtual, inputs, k) is Ok,
        select_output(plain, base, is_virtual, inputs, k) is Ok,
    ensures
        ({
            let out = select_output(plan, base, is_virtual, inputs, k)->Ok_0;
            let all = select_output(plain, base, is_virtual, inputs, k)->Ok_0;
            let at = kept_positions(all.rows, k);
            &&& out.columns == all.columns
            &&& distinct_rows(all.rows, k) == Ok::<Seq<Seq<Val>>, Stop>(out.rows)
            &&& out.rows == reordered(all.rows, at)
            &&& forall|i: int, j: int| 0 <= i < j < at.len() ==> at[i] < at[j]
            &&& forall|i: int, j: int|
                0 <= i < j < out.rows.len() ==> rows_alike(
                    #[trigger] out.rows[i],
                    #[trigger] out.rows[j],
                    0,
                    k,
                ) == Ok::<bool, Stop>(false)
            &&& forall|r: int|
                0 <= r < all.rows.len() ==> has_alike(out.rows, #[trigger] all.rows[r], k)
            &&& out.tag == select_tag(out.rows.len())
        }),
{
    let prefix = relation_name(plan.table_alias, plan.table_name);
    let first = Joined {
        rel: sourced(prefix, base@.columns, base@.types, base@.rows),
        lenient: is_virtual,
    };
    lemma_joins_alike(plan, plain, inputs, plan.joins@.len(), first, k);
    let state = joins_upto(plan, inputs, plan.joins@.len(), first, k)->Ok_0;
    let rel = state.rel;
    let given = Table { names: rel.columns, rows: filtered(plan, rel, k)->Ok_0 };
    let t = with_group_exprs(plan.group_exprs@, plan.group_exprs@.len(), given, k)->Ok_0;
    lemma_produced_alike(plan, plain, rel.types, t, k);
    let out = select_output(plan, base, is_virtual, inputs, k)->Ok_0;
    let all = select_output(plain, base, is_virtual, inputs, k)->Ok_0;
    law_distinct_keeps_the_first_of_each_class(all.rows, k);
    assert(out.rows =~= reordered(all.rows, kept_positions(all.rows, k)));
}

} // verus!
