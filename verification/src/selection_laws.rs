//! What filtering, projecting, and table functions promise of their rows.
use vstd::prelude::*;
use crate::arrange::sliced;
use crate::cells::{cell, cell_if, nulls, passing};
use crate::facts::{Known, Stop};
use crate::grouping::set_groups;
use crate::join::{
    all_true, contribution, joined_each, joined_upto, pairings, pairs_upto, right_rows, Rel, Side,
};
use crate::names::{column_of, unqualified};
use crate::plan_types::{JoinType, ProjectionItem, SelectPlan, TableFnSpec};
use crate::projection::{
    case_when_eq, first_rows, group_item_column, item_column, item_columns, output_names,
    projected, Table,
};
use crate::select::{filtered, having_verdicts, scan_limit, set_staged};
use crate::table_functions::{
    all_elements, generated, height, json_elements, named_output, series, unnested, Produced,
};
use crate::value::{JsonView, Val};
use crate::window::reference_positions;

verus! {

// ---------------------------------------------------------------------------
// WHERE and HAVING
// ---------------------------------------------------------------------------

/// The positions below `n` whose verdict is true, in order.
pub open spec fn true_positions(verdicts: Seq<Val>, n: nat) -> Seq<int> {
    Seq::new(n, |i: int| i).filter(
        |i: int| i < verdicts.len() && verdicts[i] == Val::Bool(true),
    )
}

/// A condition leaves exactly the items it is true of, in order: not those it
/// is false of, nor those it is unknown of.
pub proof fn law_only_true_verdicts_pass<T>(items: Seq<T>, verdicts: Seq<Val>)
    ensures
        passing(items, verdicts) == true_positions(verdicts, items.len()).map_values(
            |i: int| items[i],
        ),
{
    lemma_passing(items, verdicts, items.len());
    assert(items.take(items.len() as int) =~= items);
}

proof fn lemma_passing<T>(items: Seq<T>, verdicts: Seq<Val>, n: nat)
    requires
        n <= items.len(),
    ensures
        passing(items.take(n as int), verdicts) == true_positions(verdicts, n).map_values(
            |i: int| items[i],
        ),
    decreases n,
{
    reveal(Seq::filter);
    let part = items.take(n as int);
    let at = |i: int| items[i];
    let ids = Seq::new(n, |i: int| i);
    let pass = |i: int| i < verdicts.len() && verdicts[i] == Val::Bool(true);
    if n == 0 {
        assert(passing(part, verdicts) =~= true_positions(verdicts, n).map_values(at));
    } else {
        let m = (n - 1) as nat;
        lemma_passing(items, verdicts, m);
        assert(part.drop_last() =~= items.take(m as int));
        assert(ids.drop_last() =~= Seq::new(m, |i: int| i));
        let done = ids.drop_last().filter(pass);
        assert(done.push(m as int).map_values(at) =~= done.map_values(at).push(items[m as int]));
        assert(passing(part, verdicts) =~= true_positions(verdicts, n).map_values(at));
    }
}

/// A query without `WHERE` reads every row of its relations, and one with
/// `LIMIT 0` none.
pub proof fn law_no_condition_keeps_every_row(plan: SelectPlan, rel: Rel, k: Known)
    requires
        plan.filter is None,
    ensures
        plan.limit != Some(0usize) ==> filtered(plan, rel, k) == Ok::<Seq<Seq<Val>>, Stop>(
            rel.rows,
        ),
        plan.limit == Some(0usize) ==> filtered(plan, rel, k) == Ok::<Seq<Seq<Val>>, Stop>(
            Seq::empty(),
        ),
{
    lemma_all_pass(rel.rows, rel.rows.len(), rel.rows.len());
    assert(rel.rows.take(rel.rows.len() as int) =~= rel.rows);
}

proof fn lemma_all_pass<T>(items: Seq<T>, n: nat, total: nat)
    requires
        n <= items.len(),
        n <= total,
    ensures
        passing(items.take(n as int), all_true(total)) == items.take(n as int),
    decreases n,
{
    let part = items.take(n as int);
    if n > 0 {
        let m = (n - 1) as nat;
        lemma_all_pass(items, m, total);
        assert(part.drop_last() =~= items.take(m as int));
        assert(part =~= items.take(m as int).push(items[m as int]));
    } else {
        assert(passing(part, all_true(total)) =~= part);
    }
}

/// `HAVING` leaves exactly the groups it is true of, in order, and without it
/// every group is left.
pub proof fn law_having_keeps_groups(plan: SelectPlan, set: Seq<Seq<char>>, t: Table, k: Known)
    requires
        set_staged(plan, set, t, k) is Ok,
    ensures
        ({
            let at = reference_positions(t.names, set, k)->Ok_0;
            let all = set_groups(t.rows, at, k)->Ok_0;
            let left = set_staged(plan, set, t, k)->Ok_0.sources;
            &&& plan.having is None ==> left == first_rows(all)
            &&& plan.having is Some ==> left == first_rows(
                true_positions(
                    having_verdicts(plan.having->Some_0, t.names, all, k)->Ok_0,
                    all.len(),
                ).map_values(|i: int| all[i]),
            )
        }),
{
    let at = reference_positions(t.names, set, k)->Ok_0;
    let all = set_groups(t.rows, at, k)->Ok_0;
    if plan.having is Some {
        law_only_true_verdicts_pass(
            all,
            having_verdicts(plan.having->Some_0, t.names, all, k)->Ok_0,
        );
    }
}

/// A scan that may stop early reads enough: the rows it does not read are none
/// that `LIMIT` and `OFFSET` would leave. It may stop early only for a query
/// that filters, joins, groups, sorts, and deduplicates nothing.
pub proof fn law_a_short_scan_reads_enough<T>(plan: SelectPlan, rows: Seq<T>)
    requires
        scan_limit(plan) is Some,
        rows.len() <= usize::MAX,
    ensures
        plan.filter is None && plan.having is None && !plan.distinct,
        plan.joins@.len() == 0 && plan.group_by@.len() == 0,
        plan.sort@.len() == 0 && plan.distinct_on@.len() == 0,
        scan_limit(plan)->Some_0 < rows.len() ==> sliced(
            rows.take(scan_limit(plan)->Some_0),
            plan.offset,
            plan.limit,
        ) == sliced(rows, plan.offset, plan.limit),
{
    let cap = scan_limit(plan)->Some_0;
    if cap < rows.len() {
        assert(sliced(rows.take(cap), plan.offset, plan.limit) =~= sliced(
            rows,
            plan.offset,
            plan.limit,
        ));
    }
}

// ---------------------------------------------------------------------------
// The select list
// ---------------------------------------------------------------------------

/// Item `c` of a select list gives column `c` of the output: a column its cell
/// of the same row, and a constant its value in every row.
pub proof fn law_output_columns_are_the_items(
    items: Seq<ProjectionItem>,
    types: Seq<Seq<char>>,
    t: Table,
    c: int,
    r: int,
    p: int,
    k: Known,
)
    requires
        projected(items, types, t, k) is Ok,
        0 <= c < items.len(),
        0 <= r < t.rows.len(),
    ensures
        ({
            let v = projected(items, types, t, k)->Ok_0[r][c];
            &&& items[c] is Literal ==> v == items[c]->Literal_0@
            &&& items[c] is AliasedLiteral ==> v == items[c]->AliasedLiteral_0@
            &&& items[c] is Column && column_of(t.names, items[c]->Column_0@) == Some(p) && 0 <= p
                < t.rows[r].len() ==> v == t.rows[r][p]
            &&& items[c] is AliasedColumn && column_of(t.names, items[c]->AliasedColumn_0@)
                == Some(p) && 0 <= p < t.rows[r].len() ==> v == t.rows[r][p]
        }),
{
    lemma_item_columns(items, items.len(), types, t, c, k);
}

proof fn lemma_item_columns(
    items: Seq<ProjectionItem>,
    n: nat,
    types: Seq<Seq<char>>,
    t: Table,
    c: int,
    k: Known,
)
    requires
        item_columns(items, n, types, t, k) is Ok,
        0 <= c < n,
    ensures
        item_columns(items, n, types, t, k)->Ok_0.len() == n,
        item_column(items[c], c as nat, types, t, k) == Ok::<Seq<Val>, Stop>(
            item_columns(items, n, types, t, k)->Ok_0[c],
        ),
    decreases n,
{
    let m = (n - 1) as nat;
    crate::projection::lemma_item_column_count(items, m, types, t, k);
    if c < m {
        lemma_item_columns(items, m, types, t, c, k);
    }
}

/// Over groups a column is what the group's first row holds, unless the
/// grouping set leaves the column out, and a constant its value in every group.
pub proof fn law_group_columns(
    item: ProjectionItem,
    group_by: Seq<Seq<char>>,
    set: Seq<Seq<char>>,
    names: Seq<Seq<char>>,
    groups: Seq<Seq<Seq<Val>>>,
    g: int,
    p: int,
    k: Known,
)
    requires
        0 <= g < groups.len(),
        groups[g].len() > 0,
        0 <= p < groups[g][0].len(),
    ensures
        ({
            let r = group_item_column(item, group_by, set, names, groups, k);
            &&& item is Column && (set.contains(item->Column_0@) || !group_by.contains(
                item->Column_0@,
            )) && column_of(names, item->Column_0@) == Some(p) ==> r is Ok && r->Ok_0.len()
                == groups.len() && r->Ok_0[g] == groups[g][0][p]
            &&& item is Column && !set.contains(item->Column_0@) && group_by.contains(
                item->Column_0@,
            ) ==> r is Ok && r->Ok_0[g] == Val::Null
            &&& item is AliasedColumn && (set.contains(item->AliasedColumn_0@)
                || !group_by.contains(item->AliasedColumn_0@)) && column_of(
                names,
                item->AliasedColumn_0@,
            ) == Some(p) ==> r is Ok && r->Ok_0[g] == groups[g][0][p]
            &&& item is Literal ==> r is Ok && r->Ok_0[g] == item->Literal_0@
        }),
{
}

/// `CASE column WHEN n THEN .. ELSE ..` takes its first result exactly in the
/// rows whose column holds `n`.
pub proof fn law_case_when_equal(
    item: ProjectionItem,
    names: Seq<Seq<char>>,
    row: Seq<Val>,
    a: i64,
    b: i64,
    k: Known,
)
    requires
        item is CaseWhenEq,
        item->CaseWhenEq_then_column is None,
        item->CaseWhenEq_equals@ == Val::Int(b),
        cell_if(row, column_of(names, item->CaseWhenEq_left@)) == Val::Int(a),
    ensures
        a == b ==> case_when_eq(item, names, row, k) == Ok::<Val, Stop>(
            item->CaseWhenEq_then_value@,
        ),
        a != b ==> case_when_eq(item, names, row, k) == Ok::<Val, Stop>(
            cell_if(row, column_of(names, item->CaseWhenEq_else_column@)),
        ),
{
}

/// An item with an alias is an output column under its alias; a column without
/// one goes by its own name, without that of its relation.
pub proof fn law_aliases_name_output_columns(items: Seq<ProjectionItem>, i: int)
    requires
        0 <= i < items.len(),
    ensures
        ({
            let name = output_names(items)[i];
            &&& output_names(items).len() == items.len()
            &&& items[i] is AliasedColumn ==> name == items[i]->AliasedColumn_1@
            &&& items[i] is AliasedLiteral ==> name == items[i]->AliasedLiteral_1@
            &&& items[i] is Expr && items[i]->Expr_alias is Some ==> name
                == items[i]->Expr_alias->Some_0@
            &&& items[i] is WindowFunction && items[i]->WindowFunction_alias is Some ==> name
                == items[i]->WindowFunction_alias->Some_0@
            &&& items[i] is Subquery && items[i]->Subquery_alias is Some ==> name
                == items[i]->Subquery_alias->Some_0@
            &&& items[i] is Column ==> name == unqualified(items[i]->Column_0@)
        }),
{
}

// ---------------------------------------------------------------------------
// Table functions
// ---------------------------------------------------------------------------

/// `generate_series(a, b, s)` starts at `a`, and the number that would follow
/// its last is beyond `b`; without a step it counts by one, and it is empty
/// where `b` lies behind `a`.
pub proof fn law_series_reaches_its_stop(a: i64, b: i64, s: i64, k: Known)
    requires
        s != 0,
    ensures
        ({
            let three = generated(seq![Val::Int(a), Val::Int(b), Val::Int(s)], k);
            let two = generated(seq![Val::Int(a), Val::Int(b)], k);
            let one = generated(seq![Val::Int(a), Val::Int(b), Val::Int(1)], k);
            let n = three->Ok_0.rows.len();
            &&& two == one
            &&& three is Ok
            &&& s > 0 ==> (n == 0 <==> a > b)
            &&& s < 0 ==> (n == 0 <==> a < b)
            &&& n > 0 ==> three->Ok_0.rows[0] == seq![Val::Int(a)]
            &&& s > 0 && n > 0 ==> a + (n - 1) * s <= b && a + n * s > b
            &&& s < 0 && n > 0 ==> a + (n - 1) * s >= b && a + n * s < b
        }),
{
    let args = seq![Val::Int(a), Val::Int(b), Val::Int(s)];
    assert(cell(args, 0) == Val::Int(a) && cell(args, 1) == Val::Int(b) && cell(args, 2)
        == Val::Int(s));
    let less = seq![Val::Int(a), Val::Int(b)];
    assert(cell(less, 0) == Val::Int(a) && cell(less, 1) == Val::Int(b) && cell(less, 2)
        == Val::Null);
    let same = seq![Val::Int(a), Val::Int(b), Val::Int(1)];
    assert(cell(same, 0) == Val::Int(a) && cell(same, 1) == Val::Int(b) && cell(same, 2)
        == Val::Int(1));
    lemma_series(a as int, b as int, s as int);
    assert((0 - 1) * s == -s) by (nonlinear_arith);
}

proof fn lemma_series(n: int, stop: int, step: int)
    requires
        step != 0,
    ensures
        ({
            let rows = series(n, stop, step);
            let len = rows.len() as int;
            &&& step > 0 ==> (len == 0 <==> n > stop)
            &&& step < 0 ==> (len == 0 <==> n < stop)
            &&& len > 0 ==> rows[0] == seq![Val::Int(n as i64)]
            &&& step > 0 && len > 0 ==> n + (len - 1) * step <= stop && n + len * step > stop
            &&& step < 0 && len > 0 ==> n + (len - 1) * step >= stop && n + len * step < stop
        }),
    decreases crate::table_functions::ahead(n, stop, step),
{
    if (step > 0 && n <= stop) || (step < 0 && n >= stop) {
        lemma_series(n + step, stop, step);
        let rest = series(n + step, stop, step);
        let len = rest.len() as int + 1;
        assert(series(n, stop, step) == seq![seq![Val::Int(n as i64)]] + rest);
        assert(n + len * step == (n + step) + (len - 1) * step) by (nonlinear_arith);
        assert(n + (len - 1) * step == (n + step) + (len - 2) * step) by (nonlinear_arith);
        if rest.len() == 0 {
            assert(len == 1);
            assert((1int - 1) * step == 0 && 1int * step == step) by (nonlinear_arith);
        }
    }
}

/// `unnest` puts its arrays side by side: row `i` holds the `i`-th element of
/// each, NULL where an array has none, and there are as many rows as the
/// longest array has elements.
pub proof fn law_unnest_puts_arrays_side_by_side(args: Seq<Val>, c: int, i: int, k: Known)
    requires
        0 <= c < args.len(),
        forall|a: int| 0 <= a < args.len() ==> (#[trigger] args[a]) is Array,
    ensures
        ({
            let r = unnested(args, k);
            let rows = r->Ok_0.rows;
            &&& r is Ok
            &&& args[c]->Array_0.len() <= rows.len()
            &&& 0 <= i < rows.len() ==> rows[i].len() == args.len()
            &&& 0 <= i < args[c]->Array_0.len() ==> rows[i][c] == args[c]->Array_0[i]
            &&& args[c]->Array_0.len() <= i < rows.len() ==> rows[i][c] == Val::Null
            &&& rows.len() > 0 ==> exists|a: int|
                0 <= a < args.len() && (#[trigger] args[a])->Array_0.len() == rows.len()
        }),
{
    lemma_all_elements(args, k);
    let columns = all_elements(args, k)->Ok_0;
    lemma_height(columns);
    assert(columns[c].len() <= height(columns));
    if height(columns) > 0 {
        let a = choose|a: int|
            0 <= a < columns.len() && (#[trigger] columns[a]).len() == height(columns);
        assert(args[a]->Array_0.len() == height(columns));
    }
}

proof fn lemma_all_elements(args: Seq<Val>, k: Known)
    requires
        forall|a: int| 0 <= a < args.len() ==> (#[trigger] args[a]) is Array,
    ensures
        all_elements(args, k) is Ok,
        all_elements(args, k)->Ok_0.len() == args.len(),
        forall|a: int|
            0 <= a < args.len() ==> #[trigger] all_elements(args, k)->Ok_0[a] == args[a]->Array_0,
    decreases args.len(),
{
    if args.len() > 0 {
        let before = args.drop_last();
        assert forall|a: int| 0 <= a < before.len() implies (#[trigger] before[a]) is Array by {
            assert(before[a] == args[a]);
        }
        lemma_all_elements(before, k);
        assert(args[args.len() - 1] is Array);
        let all = all_elements(args, k)->Ok_0;
        let done = all_elements(before, k)->Ok_0;
        assert(all == done.push(args.last()->Array_0));
        assert forall|a: int| 0 <= a < args.len() implies #[trigger] all[a] == args[a]->Array_0 by {
            if a < before.len() {
                assert(done[a] == before[a]->Array_0);
            }
        }
    }
}

proof fn lemma_height(columns: Seq<Seq<Val>>)
    ensures
        forall|a: int| 0 <= a < columns.len() ==> (#[trigger] columns[a]).len() <= height(columns),
        height(columns) > 0 ==> exists|a: int|
            0 <= a < columns.len() && (#[trigger] columns[a]).len() == height(columns),
    decreases columns.len(),
{
    if columns.len() > 0 {
        let before = columns.drop_last();
        lemma_height(before);
        assert forall|a: int| 0 <= a < columns.len() implies (#[trigger] columns[a]).len()
            <= height(columns) by {
            if a < before.len() {
                assert(before[a] == columns[a]);
            }
        }
        if height(columns) > 0 {
            if columns.last().len() == height(columns) {
                assert(columns[columns.len() - 1].len() == height(columns));
            } else {
                let a = choose|a: int|
                    0 <= a < before.len() && (#[trigger] before[a]).len() == height(before);
                assert(columns[a].len() == height(columns));
            }
        }
    }
}

/// `WITH ORDINALITY` adds each row's number, counted from 1, as a last column,
/// and changes nothing else; without it the rows are the function's own.
pub proof fn law_ordinality_numbers_the_rows(spec: TableFnSpec, p: Produced, i: int)
    requires
        0 <= i < p.rows.len() <= i64::MAX,
    ensures
        ({
            let r = named_output(spec, p);
            &&& r.rows.len() == p.rows.len()
            &&& spec.with_ordinality ==> r.rows[i].len() == p.rows[i].len() + 1
                && r.rows[i].last() == Val::Int((i + 1) as i64) && r.rows[i].drop_last()
                == p.rows[i] && r.columns.len() == p.types.len() + 1
            &&& !spec.with_ordinality ==> r.rows[i] == p.rows[i] && r.columns.len()
                == p.types.len()
            &&& r.types.len() == r.columns.len()
        }),
{
    assert(p.rows[i].push(Val::Int((i + 1) as i64)).drop_last() =~= p.rows[i]);
}

/// `jsonb_array_elements` gives each element as it is, one a row and in order,
/// and `jsonb_array_elements_text` its text: the characters of a string, and
/// NULL for a JSON null.
pub proof fn law_json_array_elements(items: Seq<JsonView>, i: int, k: Known)
    requires
        0 <= i < items.len(),
    ensures
        ({
            let args = seq![Val::Jsonb(JsonView::Array(items))];
            let plain = json_elements(args, false, k);
            let text = json_elements(args, true, k);
            &&& plain is Ok && plain->Ok_0.rows.len() == items.len()
            &&& text is Ok && text->Ok_0.rows.len() == items.len()
            &&& plain->Ok_0.rows[i] == seq![Val::Jsonb(items[i])]
            &&& items[i] is Str ==> text->Ok_0.rows[i] == seq![Val::Text(items[i]->Str_0)]
            &&& items[i] is Null ==> text->Ok_0.rows[i] == seq![Val::Null]
        }),
{
    let args = seq![Val::Jsonb(JsonView::Array(items))];
    assert(cell(args, 0) == Val::Jsonb(JsonView::Array(items)));
}

// ---------------------------------------------------------------------------
// Joins with rows made for each left row
// ---------------------------------------------------------------------------

/// What a left row contributes to a join without a condition with rows made for
/// it: itself beside each of them, and in a left join itself beside NULLs where
/// there are none.
pub open spec fn made_block(
    left: Seq<Val>,
    made: Seq<Seq<Val>>,
    keep: bool,
    width: nat,
) -> Seq<Seq<Val>> {
    if made.len() == 0 && keep {
        seq![left + nulls(width)]
    } else {
        made.map_values(|r: Seq<Val>| left + r)
    }
}

/// The rows of the first `n` left rows, one after the other.
pub open spec fn made_blocks(
    left: Seq<Seq<Val>>,
    made: Seq<Seq<Seq<Val>>>,
    keep: bool,
    width: nat,
    n: nat,
) -> Seq<Seq<Val>>
    decreases n,
{
    if n == 0 {
        Seq::empty()
    } else {
        made_blocks(left, made, keep, width, (n - 1) as nat) + made_block(
            left[n - 1],
            made[n - 1],
            keep,
            width,
        )
    }
}

/// A join with a `LATERAL` subquery or a table function pairs each left row
/// with the rows made for it and with no others; only a left join keeps a left
/// row for which none were made.
pub proof fn law_lateral_joins_pair_each_row_with_its_own(
    left: Rel,
    prefix: Seq<char>,
    join_type: JoinType,
    checked: bool,
    columns: Seq<Seq<char>>,
    types: Seq<Seq<char>>,
    made: Seq<Seq<Seq<Val>>>,
    k: Known,
)
    requires
        made.len() == left.rows.len(),
    ensures
        ({
            let r = joined_each(left, prefix, join_type, checked, None, columns, types, made, k);
            &&& r is Ok
            &&& r->Ok_0.rows == made_blocks(
                left.rows,
                made,
                join_type is LeftOuter,
                columns.len(),
                left.rows.len(),
            )
            &&& r->Ok_0.columns.len() == left.columns.len() + columns.len()
        }),
{
    let side = Side::PerRow(made);
    let total = pairs_upto(left.rows, side, left.rows.len()).len();
    lemma_made(left.rows, made, join_type is LeftOuter, columns.len(), left.rows.len(), total);
}

proof fn lemma_more_pairs(left: Seq<Seq<Val>>, side: Side, n: nat, m: nat)
    requires
        n <= m,
    ensures
        pairs_upto(left, side, n).len() <= pairs_upto(left, side, m).len(),
    decreases m,
{
    if n < m {
        lemma_more_pairs(left, side, n, (m - 1) as nat);
    }
}

proof fn lemma_made(
    left: Seq<Seq<Val>>,
    made: Seq<Seq<Seq<Val>>>,
    keep: bool,
    width: nat,
    n: nat,
    total: nat,
)
    requires
        n <= left.len(),
        made.len() == left.len(),
        total == pairs_upto(left, Side::PerRow(made), left.len()).len(),
    ensures
        joined_upto(left, Side::PerRow(made), all_true(total), keep, width, n) == made_blocks(
            left,
            made,
            keep,
            width,
            n,
        ),
    decreases n,
{
    if n > 0 {
        let m = (n - 1) as nat;
        let side = Side::PerRow(made);
        lemma_made(left, made, keep, width, m, total);
        lemma_more_pairs(left, side, n, left.len());
        let base = pairs_upto(left, side, m).len();
        let own = made[m as int];
        let pairs = pairings(left[m as int], own);
        assert(right_rows(side, m as int) == own);
        assert(pairs_upto(left, side, n).len() == base + own.len());
        let rest = (total - base) as nat;
        assert(all_true(total).skip(base as int) =~= all_true(rest));
        lemma_all_pass(pairs, pairs.len(), rest);
        assert(pairs.take(pairs.len() as int) =~= pairs);
        assert(pairs =~= own.map_values(|r: Seq<Val>| left[m as int] + r));
        assert(contribution(left[m as int], own, all_true(rest), keep, width) == made_block(
            left[m as int],
            own,
            keep,
            width,
        ));
    }
}

} // verus!
