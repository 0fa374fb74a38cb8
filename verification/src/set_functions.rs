//! Set-returning functions in a select list: each row is repeated for the rows
//! that they return. Several run in lockstep, the shorter padded with NULL.
//!
//! Such a query is the same as one that joins the functions laterally, as
//! `ROWS FROM (..)` runs them, and reads their columns.
use vstd::prelude::*;
use crate::plan_types::{
    scalar_table_function, Join, JoinType, ProjectionItem, ScalarExpr, SelectPlan, TableFnSpec,
};
use crate::select::{item_needs_all_rows, needs_all_rows};
use crate::text::{concat2, decimal, lower, lower_text, same_text, size_text};

verus! {

/// The name under which the functions of a select list are joined.
pub const SET_RELATION: &'static str = "__set";

/// Whether a function returns a set of values, given the number of its
/// arguments.
pub open spec fn returns_set(name: Seq<char>, args: nat) -> bool {
    if name == "unnest"@ {
        args == 1
    } else {
        scalar_table_function(name)
    }
}

/// Whether an item is a call of a set-returning function.
pub open spec fn is_set_call(item: ProjectionItem) -> bool {
    item matches ProjectionItem::Expr { expr: ScalarExpr::Function { name, args }, .. }
        && returns_set(lower(name@), args@.len())
}

/// The number of set-returning items among the first `n`.
pub open spec fn set_count(items: Seq<ProjectionItem>, n: nat) -> nat
    decreases n,
{
    if n == 0 {
        0
    } else {
        set_count(items, (n - 1) as nat) + (if is_set_call(items[n - 1]) {
            1nat
        } else {
            0nat
        })
    }
}

/// The column of the set-returning item numbered `k`.
pub open spec fn set_column(k: nat) -> Seq<char> {
    "c"@ + decimal(k as int + 1)
}

/// Whether `f` is the call that a set-returning item makes.
pub open spec fn is_call_of(f: TableFnSpec, item: ProjectionItem) -> bool {
    match item {
        ProjectionItem::Expr { expr: ScalarExpr::Function { name, args }, .. } => {
            &&& f.name@ == lower(name@)
            &&& f.arg_exprs == args
            &&& f.args@.len() == 0
            &&& !f.with_ordinality
            &&& f.alias is None
            &&& f.column_aliases@.len() == 0
            &&& f.rows_from@.len() == 0
        },
        _ => false,
    }
}

/// Whether `out` reads the column of a set-returning item under the item's
/// name: its alias, else the function's.
pub open spec fn reads_call(out: ProjectionItem, item: ProjectionItem, k: nat) -> bool {
    match (out, item) {
        (
            ProjectionItem::AliasedColumn(column, shown),
            ProjectionItem::Expr { expr: ScalarExpr::Function { name, .. }, alias },
        ) => {
            &&& column@ == SET_RELATION@ + "."@ + set_column(k)
            &&& shown@ == (match alias {
                Some(a) => a@,
                None => lower(name@),
            })
        },
        _ => false,
    }
}

/// Whether an item reads what the one in its place calls, or is that item.
pub open spec fn reads_item(
    out: ProjectionItem,
    calls: Seq<TableFnSpec>,
    items: Seq<ProjectionItem>,
    i: int,
) -> bool {
    if is_set_call(items[i]) {
        let k = set_count(items, i as nat);
        k < calls.len() && reads_call(out, items[i], k) && is_call_of(calls[k as int], items[i])
    } else {
        out == items[i]
    }
}

/// Whether the items `out` read what the first of `items` call, and `calls` are
/// those calls.
pub open spec fn reads_calls(
    out: Seq<ProjectionItem>,
    calls: Seq<TableFnSpec>,
    items: Seq<ProjectionItem>,
) -> bool {
    &&& out.len() <= items.len()
    &&& calls.len() == set_count(items, out.len())
    &&& forall|i: int| 0 <= i < out.len() ==> reads_item(#[trigger] out[i], calls, items, i)
}

/// Whether a join runs the functions of a select list for each row.
pub open spec fn joins_calls(j: Join, calls: Seq<TableFnSpec>) -> bool {
    &&& j.table_name@ == SET_RELATION@
    &&& j.table_alias is Some && j.table_alias->Some_0@ == SET_RELATION@
    &&& j.condition is None
    &&& j.join_type == JoinType::Inner
    &&& j.using_columns@.len() == 0
    &&& !j.natural
    &&& j.lateral is None
    &&& j.table_fn matches Some(f) && {
        &&& f.rows_from@ == calls
        &&& f.column_aliases@.len() == calls.len()
        &&& forall|k: int|
            0 <= k < calls.len() ==> (#[trigger] f.column_aliases@[k])@ == set_column(k as nat)
        &&& !f.with_ordinality
        &&& f.args@.len() == 0
        &&& f.arg_exprs@.len() == 0
    }
}

/// Whether a query puts several rows into one, or looks beyond its own row.
pub open spec fn combines_rows(plan: SelectPlan) -> bool {
    ||| plan.group_by@.len() > 0
    ||| plan.grouping_sets is Some
    ||| plan.having is Some
    ||| exists|i: int| 0 <= i < plan.projection@.len() && needs_all_rows(#[trigger] plan.projection@[i])
}

fn any_combines(items: &Vec<ProjectionItem>) -> (r: bool)
    ensures
        r == exists|i: int| 0 <= i < items@.len() && needs_all_rows(#[trigger] items@[i]),
{
    let mut i: usize = 0;
    while i < items.len()
        invariant
            i <= items@.len(),
            forall|j: int| 0 <= j < i ==> !needs_all_rows(#[trigger] items@[j]),
        decreases items@.len() - i,
    {
        if item_needs_all_rows(&items[i]) {
            assert(needs_all_rows(items@[i as int]));
            return true;
        }
        i = i + 1;
    }
    false
}

fn calls_set(item: &ProjectionItem) -> (r: bool)
    ensures
        r == is_set_call(*item),
{
    match item {
        ProjectionItem::Expr { expr: ScalarExpr::Function { name, args }, .. } => {
            let low = lower_text(name.as_str());
            if same_text(low.as_str(), "unnest") {
                args.len() == 1
            } else {
                same_text(low.as_str(), "generate_series") || same_text(
                    low.as_str(),
                    "jsonb_array_elements",
                ) || same_text(low.as_str(), "jsonb_array_elements_text") || same_text(
                    low.as_str(),
                    "json_array_elements",
                ) || same_text(low.as_str(), "json_array_elements_text") || same_text(
                    low.as_str(),
                    "regexp_split_to_table",
                ) || same_text(low.as_str(), "pg_partition_ancestors")
            }
        },
        _ => false,
    }
}

fn column_text(k: usize) -> (r: String)
    requires
        k < usize::MAX,
    ensures
        r@ == set_column(k as nat),
{
    let n = size_text(k + 1);
    concat2("c", n.as_str())
}

fn make_call(name: String, args: Vec<ScalarExpr>) -> (r: TableFnSpec)
    ensures
        r.name@ == lower(name@),
        r.arg_exprs == args,
        r.args@.len() == 0,
        !r.with_ordinality,
        r.alias is None,
        r.column_aliases@.len() == 0,
        r.rows_from@.len() == 0,
{
    TableFnSpec {
        name: lower_text(name.as_str()),
        args: Vec::new(),
        with_ordinality: false,
        alias: None,
        column_aliases: Vec::new(),
        arg_exprs: args,
        rows_from: Vec::new(),
    }
}

fn make_join(calls: Vec<TableFnSpec>) -> (r: Join)
    ensures
        joins_calls(r, calls@),
{
    let mut names: Vec<String> = Vec::new();
    let n: usize = calls.len();
    let mut k: usize = 0;
    while k < n
        invariant
            k <= n,
            names@.len() == k,
            forall|j: int| 0 <= j < k ==> (#[trigger] names@[j])@ == set_column(j as nat),
        decreases n - k,
    {
        names.push(column_text(k));
        k = k + 1;
    }
    Join {
        table_name: SET_RELATION.to_owned(),
        table_alias: Some(SET_RELATION.to_owned()),
        condition: None,
        join_type: JoinType::Inner,
        table_fn: Some(
            TableFnSpec {
                name: SET_RELATION.to_owned(),
                args: Vec::new(),
                with_ordinality: false,
                alias: None,
                column_aliases: names,
                arg_exprs: Vec::new(),
                rows_from: calls,
            },
        ),
        using_columns: Vec::new(),
        natural: false,
        lateral: None,
    }
}

proof fn lemma_set_count_grows(items: Seq<ProjectionItem>, i: nat, n: nat)
    requires
        i <= n,
    ensures
        set_count(items, i) <= set_count(items, n) <= n,
        i < n && is_set_call(items[i as int]) ==> set_count(items, i) < set_count(items, n),
    decreases n,
{
    if i < n {
        lemma_set_count_grows(items, i, (n - 1) as nat);
    } else if n > 0 {
        lemma_set_count_grows(items, (n - 1) as nat, (n - 1) as nat);
    }
}

/// The items with every set-returning call replaced by the column it fills, and
/// the calls.
fn split_calls(items: Vec<ProjectionItem>) -> (r: (Vec<ProjectionItem>, Vec<TableFnSpec>))
    ensures
        r.0@.len() == items@.len(),
        reads_calls(r.0@, r.1@, items@),
{
    let ghost all = items@;
    let n: usize = items.len();
    let mut rest = items;
    let mut out: Vec<ProjectionItem> = Vec::new();
    let mut calls: Vec<TableFnSpec> = Vec::new();
    assert(rest@ =~= all.skip(0));
    while out.len() < n
        invariant
            n == all.len(),
            out@.len() <= n,
            rest@ == all.skip(out@.len() as int),
            calls@.len() <= out@.len(),
            reads_calls(out@, calls@, all),
        decreases n - out@.len(),
    {
        let ghost (before, known) = (out@, calls@);
        let i: usize = out.len();
        assert(rest@[0] == all[i as int]);
        let item = rest.remove(0);
        assert(rest@ =~= all.skip(i + 1));
        let set: bool = calls_set(&item);
        match item {
            ProjectionItem::Expr { expr: ScalarExpr::Function { name, args }, alias } if set => {
                let k: usize = calls.len();
                let column = column_text(k);
                let mut source = concat2(SET_RELATION, ".");
                crate::text::push_text(&mut source, column.as_str());
                let shown = match alias {
                    Some(a) => a,
                    None => lower_text(name.as_str()),
                };
                out.push(ProjectionItem::AliasedColumn(source, shown));
                calls.push(make_call(name, args));
            },
            other => {
                out.push(other);
            },
        }
        assert(set_count(all, (i + 1) as nat) == set_count(all, i as nat) + (if set {
            1nat
        } else {
            0nat
        }));
        assert(calls@.len() == set_count(all, out@.len()));
        assert forall|j: int| 0 <= j < out@.len() implies reads_item(
            #[trigger] out@[j],
            calls@,
            all,
            j,
        ) by {
            lemma_set_count_grows(all, j as nat, i as nat);
            if j < i {
                assert(out@[j] == before[j]);
                assert(reads_item(before[j], known, all, j));
                if is_set_call(all[j]) {
                    assert(calls@[set_count(all, j as nat) as int] == known[set_count(
                        all,
                        j as nat,
                    ) as int]);
                }
            }
        }
    }
    (out, calls)
}

/// The message for a set-returning function where rows are combined.
pub open spec fn set_refused() -> Seq<char> {
    "set-returning functions are not allowed in a query that combines rows"@
}

/// The plan of a query whose select list calls set-returning functions: one
/// that joins them and reads their columns. A plan without such a call stays
/// as it is.
pub fn with_set_functions(plan: SelectPlan) -> (r: Result<SelectPlan, String>)
    ensures
        match r {
            Ok(p) => if set_count(plan.projection@, plan.projection@.len()) == 0 {
                p == plan
            } else {
                &&& !combines_rows(plan)
                &&& p == (SelectPlan { joins: p.joins, projection: p.projection, ..plan })
                &&& p.joins@.len() == plan.joins@.len() + 1
                &&& p.joins@.drop_last() == plan.joins@
                &&& p.projection@.len() == plan.projection@.len()
                &&& exists|calls: Seq<TableFnSpec>|
                    joins_calls(p.joins@.last(), calls) && reads_calls(
                        p.projection@,
                        calls,
                        plan.projection@,
                    )
            },
            Err(m) => {
                &&& set_count(plan.projection@, plan.projection@.len()) > 0
                &&& combines_rows(plan)
                &&& m@ == set_refused()
            },
        },
{
    let ghost items = plan.projection@;
    let mut i: usize = 0;
    let mut found: bool = false;
    while i < plan.projection.len()
        invariant
            i <= plan.projection@.len(),
            items == plan.projection@,
            found == (set_count(items, i as nat) > 0),
        decreases plan.projection@.len() - i,
    {
        if calls_set(&plan.projection[i]) {
            found = true;
        }
        i = i + 1;
    }
    if !found {
        return Ok(plan);
    }
    let grouped: bool = match &plan.grouping_sets {
        Some(_) => true,
        None => false,
    };
    let conditional: bool = match &plan.having {
        Some(_) => true,
        None => false,
    };
    if plan.group_by.len() > 0 || grouped || conditional || any_combines(&plan.projection) {
        return Err(
            "set-returning functions are not allowed in a query that combines rows".to_owned(),
        );
    }
    let ghost whole = plan;
    let SelectPlan {
        ctes,
        table_name,
        table_alias,
        joins,
        projection,
        group_by,
        filter,
        having,
        grouping_sets,
        order_by,
        limit,
        offset,
        distinct,
        sort,
        group_exprs,
        distinct_on,
    } = plan;
    let (out, calls) = split_calls(projection);
    let ghost made = calls@;
    let mut all = joins;
    all.push(make_join(calls));
    assert(all@.drop_last() =~= whole.joins@);
    assert(joins_calls(all@.last(), made) && reads_calls(out@, made, items));
    Ok(
        SelectPlan {
            ctes,
            table_name,
            table_alias,
            joins: all,
            projection: out,
            group_by,
            filter,
            having,
            grouping_sets,
            order_by,
            limit,
            offset,
            distinct,
            sort,
            group_exprs,
            distinct_on,
        },
    )
}

} // verus!
