//! SELECT: joins, WHERE filtering, GROUP BY aggregation, HAVING, projection,
//! ORDER BY, DISTINCT, and LIMIT/OFFSET over relations already read.
use vstd::prelude::*;
use crate::arrange::{
    arrange_rows, arranged, distinct_rows, has_char, keep_distinct, key_target, no_such_column, slice_rows,
    sliced, target_at, Staged, StagedRows,
};
use crate::cells::{
    ask_groups, cell_at, clone_rows, group_answers, groups_view, keep_rows, nulls, null_row,
    passing, value_is_true,
};
use crate::codes::{code_of_expr, code_of_filter, expr_code, filter_code};
use crate::expr::{has_aggregate, scalar_has_aggregate};
use crate::facts::{asked, list_outcome, on_one, Facts, Halt, Known, Stop, Task, TaskView};
use crate::grouping::{group_by_set, groups_outcome, set_groups};
use crate::join::{
    check_columns, columns_checked, condition_marks, condition_verdicts, done_outcome, join_each,
    join_relation, joined, joined_each, name_of, relation_name, source_relation, sourced, Rel,
    Relation,
};
use crate::names::{column_of, find_column, unqualified, unqualify};
use crate::plan_types::{
    FilterExpr, Join, ProjectionItem, ScalarExpr, SelectPlan, SortKey, SortTarget, TableFnSpec,
};
use crate::projection::{
    add_column, ask_group_subqueries, compute_items, eval_grouped, group_subject, group_subject_of,
    group_subqueries, group_values, first_rows, firsts_of, group_projected, make_rows, output_names,
    output_names_of, project, project_groups, projected, rows_of_columns, Table, table_outcome,
    with_column, with_computed,
};
use crate::result_types::{projection_type, projection_type_of, ColumnTypes, DeclaredTypes};
use crate::rows::{row_views, QueryOutput, Row};
use crate::set_ops::{select_tag, select_tag_text};
use crate::subqueries::{column_values, eval_column};
use crate::system_rows::add_value;
use crate::table_functions::{eval_table_function, rows_result, table_output};
use crate::text::{
    begins, begins_with, chars_of, clone_texts, concat3, lower, lower_text, same_text,
    text_between, texts,
};
use crate::value::{clone_values, group_value_views, rows_view, vals, Val, Value};
use crate::window::{find_reference, find_references, reference_position, reference_positions};

verus! {

broadcast use group_value_views;

/// What a [`QueryOutput`] stands for.
#[verifier::ext_equal]
pub struct OutputView {
    pub columns: Seq<Seq<char>>,
    pub types: Seq<Seq<char>>,
    pub rows: Seq<Seq<Val>>,
    pub tag: Seq<char>,
}

/// What a query's output stands for.
pub open spec fn output_view(out: QueryOutput) -> OutputView {
    OutputView {
        columns: texts(out.columns@),
        types: texts(out.types@),
        rows: row_views(out.rows@),
        tag: out.tag@,
    }
}

/// What a query's result stands for.
pub open spec fn output_outcome(r: Result<QueryOutput, Halt>) -> Result<OutputView, Stop> {
    match r {
        Ok(out) => Ok(output_view(out)),
        Err(h) => Err(h@),
    }
}

/// Rows as a query's rows.
pub fn as_rows(rows: Vec<Vec<Value>>) -> (r: Vec<Row>)
    ensures
        row_views(r@) == rows_view(rows@),
        r@.len() == rows@.len(),
{
    let mut out: Vec<Row> = Vec::new();
    let mut i: usize = 0;
    while i < rows.len()
        invariant
            i <= rows@.len(),
            out@.len() == i,
            forall|j: int| 0 <= j < i ==> (#[trigger] out@[j])@ == vals(rows@[j]@),
        decreases rows@.len() - i,
    {
        out.push(Row { values: clone_values(&rows[i]) });
        i = i + 1;
    }
    assert(row_views(out@) =~= rows_view(rows@));
    out
}

// ---------------------------------------------------------------------------
// How much of a table a query reads
// ---------------------------------------------------------------------------

/// Whether an item needs more than its own row.
pub open spec fn needs_all_rows(item: ProjectionItem) -> bool {
    match item {
        ProjectionItem::Aggregate(_, _) => true,
        ProjectionItem::WindowFunction { .. } => true,
        ProjectionItem::Expr { expr, .. } => has_aggregate(expr),
        _ => false,
    }
}

/// The number of rows after which a scan can stop: where the pipeline is a
/// plain row-by-row scan of a single table, the result is just the first
/// `offset + limit` rows in scan order. Any other operator needs the full
/// input.
pub open spec fn scan_limit(plan: SelectPlan) -> Option<int> {
    match plan.limit {
        Some(n) => if plan.joins@.len() == 0 && plan.group_by@.len() == 0 && plan.sort@.len() == 0
            && plan.distinct_on@.len() == 0 && plan.having is None && plan.filter is None
            && !plan.distinct && forall|i: int|
            0 <= i < plan.projection@.len() ==> !needs_all_rows(#[trigger] plan.projection@[i]) {
            let skipped = match plan.offset {
                Some(o) => o as int,
                None => 0,
            };
            Some(
                if skipped + n > usize::MAX {
                    usize::MAX as int
                } else {
                    skipped + n
                },
            )
        } else {
            None
        },
        None => None,
    }
}

/// Whether an item needs more than its own row.
pub fn item_needs_all_rows(item: &ProjectionItem) -> (r: bool)
    ensures
        r == needs_all_rows(*item),
{
    match item {
        ProjectionItem::Aggregate(_, _) => true,
        ProjectionItem::WindowFunction { .. } => true,
        ProjectionItem::Expr { expr, .. } => scalar_has_aggregate(expr),
        _ => false,
    }
}

/// LIMIT/OFFSET push-down: the number of rows after which a scan can stop.
pub fn scan_cap(plan: &SelectPlan) -> (r: Option<usize>)
    ensures
        match (r, scan_limit(*plan)) {
            (Some(a), Some(b)) => a == b,
            (None, None) => true,
            _ => false,
        },
{
    let n: usize = match plan.limit {
        Some(n) => n,
        None => {
            return None;
        },
    };
    let plain_having: bool = match &plan.having {
        Some(_) => false,
        None => true,
    };
    let plain_filter: bool = match &plan.filter {
        Some(_) => false,
        None => true,
    };
    if plan.joins.len() != 0 || plan.group_by.len() != 0 || plan.sort.len() != 0
        || plan.distinct_on.len() != 0 || !plain_having || !plain_filter || plan.distinct {
        return None;
    }
    let mut i: usize = 0;
    while i < plan.projection.len()
        invariant
            i <= plan.projection@.len(),
            forall|j: int| 0 <= j < i ==> !needs_all_rows(#[trigger] plan.projection@[j]),
        decreases plan.projection@.len() - i,
    {
        if item_needs_all_rows(&plan.projection[i]) {
            return None;
        }
        i = i + 1;
    }
    let skipped: usize = match plan.offset {
        Some(o) => o,
        None => 0,
    };
    Some(skipped.saturating_add(n))
}

// ---------------------------------------------------------------------------
// Joins
// ---------------------------------------------------------------------------

/// What the right side of a join was read from.
pub enum JoinInput {
    /// A table, a view, or a named query.
    Table { relation: Relation, is_virtual: bool },
    /// A `LATERAL` subquery: its columns, and its rows for each left row.
    Lateral { columns: Vec<String>, types: Vec<String>, made: Vec<Vec<Vec<Value>>> },
    /// A table function, evaluated for each left row.
    Function,
}

/// What a table function makes for each of the first `n` left rows.
pub open spec fn function_rows(
    spec: TableFnSpec,
    names: Seq<Seq<char>>,
    rows: Seq<Seq<Val>>,
    n: nat,
    k: Known,
) -> Result<Seq<Seq<Seq<Val>>>, Stop>
    decreases n,
{
    if n == 0 {
        Ok(Seq::empty())
    } else {
        match function_rows(spec, names, rows, (n - 1) as nat, k) {
            Err(s) => Err(s),
            Ok(done) => match table_output(spec, names, rows[n - 1], k) {
                Err(s) => Err(s),
                Ok(rel) => Ok(done.push(rel.rows)),
            },
        }
    }
}

proof fn lemma_function_rows_fail(
    spec: TableFnSpec,
    names: Seq<Seq<char>>,
    rows: Seq<Seq<Val>>,
    n: nat,
    m: nat,
    k: Known,
)
    requires
        n <= m,
        function_rows(spec, names, rows, n, k) is Err,
    ensures
        function_rows(spec, names, rows, m, k) == function_rows(spec, names, rows, n, k),
    decreases m,
{
    if n < m {
        lemma_function_rows_fail(spec, names, rows, n, (m - 1) as nat, k);
    }
}

fn eval_function_rows(
    spec: &TableFnSpec,
    names: &Vec<String>,
    rows: &Vec<Vec<Value>>,
    facts: &Facts,
) -> (r: Result<Vec<Vec<Vec<Value>>>, Halt>)
    ensures
        groups_outcome(r) == function_rows(
            *spec,
            texts(names@),
            rows_view(rows@),
            rows@.len(),
            facts@,
        ),
{
    let ghost view = rows_view(rows@);
    let mut out: Vec<Vec<Vec<Value>>> = Vec::new();
    let mut i: usize = 0;
    assert(groups_view(out@) =~= Seq::<Seq<Seq<Val>>>::empty());
    while i < rows.len()
        invariant
            i <= rows@.len(),
            view == rows_view(rows@),
            function_rows(*spec, texts(names@), view, i as nat, facts@) == Ok::<
                Seq<Seq<Seq<Val>>>,
                Stop,
            >(groups_view(out@)),
        decreases rows@.len() - i,
    {
        assert(view[i as int] == vals(rows@[i as int]@));
        match eval_table_function(spec, &rows[i], names, facts) {
            Err(h) => {
                proof {
                    lemma_function_rows_fail(
                        *spec,
                        texts(names@),
                        view,
                        (i + 1) as nat,
                        rows@.len(),
                        facts@,
                    );
                }
                return Err(h);
            },
            Ok(rel) => {
                let ghost before = out@;
                let ghost made = rel@.rows;
                out.push(rel.rows);
                assert(groups_view(out@) =~= groups_view(before).push(made));
            },
        }
        i = i + 1;
    }
    Ok(out)
}

/// The name a joined table function goes by.
pub open spec fn function_prefix(join: Join, spec: TableFnSpec) -> Seq<char> {
    match join.table_alias {
        Some(a) => a@,
        None => match spec.alias {
            Some(a) => a@,
            None => spec.name@,
        },
    }
}

/// Relations joined so far, and whether a virtual table is among them.
#[verifier::ext_equal]
pub struct Joined {
    pub rel: Rel,
    pub lenient: bool,
}

/// One more join.
pub open spec fn join_step(state: Joined, join: Join, input: JoinInput, k: Known) -> Result<
    Joined,
    Stop,
> {
    match input {
        JoinInput::Table { relation, is_virtual } => {
            let lenient = state.lenient || is_virtual;
            match joined(state.rel, join, relation@, lenient, k) {
                Err(s) => Err(s),
                Ok(rel) => Ok(Joined { rel, lenient }),
            }
        },
        JoinInput::Lateral { columns, types, made } => match joined_each(
            state.rel,
            relation_name(join.table_alias, join.table_name),
            join.join_type,
            !state.lenient,
            join.condition,
            texts(columns@),
            texts(types@),
            groups_view(made@),
            k,
        ) {
            Err(s) => Err(s),
            Ok(rel) => Ok(Joined { rel, lenient: state.lenient }),
        },
        JoinInput::Function => match join.table_fn {
            None => Ok(state),
            Some(spec) => match table_output(spec, state.rel.columns, Seq::empty(), k) {
                Err(s) => Err(s),
                Ok(header) => match function_rows(
                    spec,
                    state.rel.columns,
                    state.rel.rows,
                    state.rel.rows.len(),
                    k,
                ) {
                    Err(s) => Err(s),
                    Ok(made) => match joined_each(
                        state.rel,
                        function_prefix(join, spec),
                        join.join_type,
                        false,
                        None,
                        header.columns,
                        header.types,
                        made,
                        k,
                    ) {
                        Err(s) => Err(s),
                        Ok(rel) => Ok(Joined { rel, lenient: state.lenient }),
                    },
                },
            },
        },
    }
}

/// What a join's result stands for.
pub open spec fn joined_outcome(r: Result<(Relation, bool), Halt>) -> Result<Joined, Stop> {
    match r {
        Ok((rel, lenient)) => Ok(Joined { rel: rel@, lenient }),
        Err(h) => Err(h@),
    }
}

/// Joins one more relation.
pub fn join_next(
    rel: Relation,
    lenient: bool,
    join: &Join,
    input: &JoinInput,
    facts: &Facts,
) -> (r: Result<(Relation, bool), Halt>)
    ensures
        joined_outcome(r) == join_step(
            Joined { rel: rel@, lenient },
            *join,
            *input,
            facts@,
        ),
{
    match input {
        JoinInput::Table { relation, is_virtual } => {
            let all_lenient: bool = lenient || *is_virtual;
            match join_relation(rel, join, relation, all_lenient, facts) {
                Err(h) => Err(h),
                Ok(out) => Ok((out, all_lenient)),
            }
        },
        JoinInput::Lateral { columns, types, made } => {
            let prefix = name_of(&join.table_alias, &join.table_name);
            match join_each(
                rel,
                prefix,
                join.join_type,
                !lenient,
                &join.condition,
                columns,
                types,
                made,
                facts,
            ) {
                Err(h) => Err(h),
                Ok(out) => Ok((out, lenient)),
            }
        },
        JoinInput::Function => match &join.table_fn {
            None => Ok((rel, lenient)),
            Some(spec) => {
                let no_row: Vec<Value> = Vec::new();
                assert(vals(no_row@) =~= Seq::<Val>::empty());
                // Headers are row-independent; derive them once.
                let header = match eval_table_function(spec, &no_row, &rel.columns, facts) {
                    Ok(h) => h,
                    Err(h) => {
                        return Err(h);
                    },
                };
                assert(rel@.rows.len() == rel.rows@.len());
                let made = match eval_function_rows(spec, &rel.columns, &rel.rows, facts) {
                    Ok(m) => m,
                    Err(h) => {
                        return Err(h);
                    },
                };
                let prefix: &str = match &join.table_alias {
                    Some(a) => a.as_str(),
                    None => match &spec.alias {
                        Some(a) => a.as_str(),
                        None => spec.name.as_str(),
                    },
                };
                match join_each(
                    rel,
                    prefix,
                    join.join_type,
                    false,
                    &None,
                    &header.columns,
                    &header.types,
                    &made,
                    facts,
                ) {
                    Err(h) => Err(h),
                    Ok(out) => Ok((out, lenient)),
                }
            },
        },
    }
}

// ---------------------------------------------------------------------------
// Checks and filtering
// ---------------------------------------------------------------------------

/// A function name without the catalog schema in front.
pub open spec fn bare_function(name: Seq<char>) -> Seq<char> {
    if begins(name, "PG_CATALOG."@) {
        name.skip(11)
    } else {
        name
    }
}

fn bare_function_name(name: &str) -> (r: String)
    ensures
        r@ == bare_function(name@),
{
    if begins_with(name, "PG_CATALOG.") {
        proof {
            reveal_strlit("PG_CATALOG.");
        }
        let chars = chars_of(name);
        let out = text_between(&chars, 11, chars.len());
        assert(out@ =~= name@.skip(11));
        out
    } else {
        name.to_owned()
    }
}

/// Whether the functions that the first `n` items call exist.
pub open spec fn functions_known(items: Seq<ProjectionItem>, n: nat, k: Known) -> Result<(), Stop>
    decreases n,
{
    if n == 0 {
        Ok(())
    } else {
        match functions_known(items, (n - 1) as nat, k) {
            Err(s) => Err(s),
            Ok(_) => match items[n - 1] {
                ProjectionItem::ScalarFunction { func_name, .. } => {
                    let name = bare_function(func_name@);
                    match asked(k, on_one(TaskView::KnownFunction, Val::Text(name))) {
                        Err(s) => Err(s),
                        Ok(v) => if v == Val::Bool(true) {
                            Ok(())
                        } else {
                            Err(
                                Stop::Raised(
                                    "function "@ + lower(name) + "() does not exist"@,
                                ),
                            )
                        },
                    }
                },
                _ => Ok(()),
            },
        }
    }
}

proof fn lemma_functions_fail(items: Seq<ProjectionItem>, n: nat, m: nat, k: Known)
    requires
        n <= m,
        functions_known(items, n, k) is Err,
    ensures
        functions_known(items, m, k) == functions_known(items, n, k),
    decreases m,
{
    if n < m {
        lemma_functions_fail(items, n, (m - 1) as nat, k);
    }
}

/// Whether the functions that the items call exist.
pub fn check_functions(items: &Vec<ProjectionItem>, facts: &Facts) -> (r: Result<(), Halt>)
    ensures
        done_outcome(r) == functions_known(items@, items@.len(), facts@),
{
    let mut i: usize = 0;
    while i < items.len()
        invariant
            i <= items@.len(),
            functions_known(items@, i as nat, facts@) == Ok::<(), Stop>(()),
        decreases items@.len() - i,
    {
        proof {
            if functions_known(items@, (i + 1) as nat, facts@) is Err {
                lemma_functions_fail(items@, (i + 1) as nat, items@.len(), facts@);
            }
        }
        if let ProjectionItem::ScalarFunction { func_name, .. } = &items[i] {
            let name = bare_function_name(func_name.as_str());
            match facts.ask_one(Task::KnownFunction, &Value::Text(name.clone())) {
                Err(h) => {
                    return Err(h);
                },
                Ok(v) => {
                    if !value_is_true(&v) {
                        let low = lower_text(name.as_str());
                        return Err(
                            Halt::Raised(
                                concat3("function ", low.as_str(), "() does not exist"),
                            ),
                        );
                    }
                },
            }
        }
        i = i + 1;
    }
    Ok(())
}

/// What of an item refers to columns.
pub open spec fn item_part(item: ProjectionItem) -> Option<Val> {
    match item {
        ProjectionItem::Column(c) => Some(Val::Text(c@)),
        ProjectionItem::AliasedColumn(c, _) => Some(Val::Text(c@)),
        ProjectionItem::Expr { expr, .. } => Some(expr_code(expr)),
        _ => None,
    }
}

/// What of a sort target refers to columns: a bare name may name an output
/// column instead.
pub open spec fn target_part(target: SortTarget) -> Option<Val> {
    match target {
        SortTarget::Expr(e) => Some(expr_code(e)),
        SortTarget::Name(n) => if n@.contains('.') {
            Some(Val::Text(n@))
        } else {
            None
        },
        _ => None,
    }
}

/// Parts with one more, if there is one.
pub open spec fn with_part(parts: Seq<Val>, part: Option<Val>) -> Seq<Val> {
    match part {
        Some(v) => parts.push(v),
        None => parts,
    }
}

/// `parts`, and what of the first `n` items refers to columns.
pub open spec fn item_parts(parts: Seq<Val>, items: Seq<ProjectionItem>, n: nat) -> Seq<Val>
    decreases n,
{
    if n == 0 {
        parts
    } else {
        with_part(item_parts(parts, items, (n - 1) as nat), item_part(items[n - 1]))
    }
}

/// `parts`, and the first `n` grouping expressions.
pub open spec fn group_parts(parts: Seq<Val>, exprs: Seq<(String, ScalarExpr)>, n: nat) -> Seq<Val>
    decreases n,
{
    if n == 0 {
        parts
    } else {
        group_parts(parts, exprs, (n - 1) as nat).push(expr_code(exprs[n - 1].1))
    }
}

/// `parts`, and what of the first `n` keys refers to columns.
pub open spec fn key_parts(
    parts: Seq<Val>,
    sort: Seq<SortKey>,
    distinct_on: Seq<SortTarget>,
    n: nat,
) -> Seq<Val>
    decreases n,
{
    if n == 0 {
        parts
    } else {
        with_part(
            key_parts(parts, sort, distinct_on, (n - 1) as nat),
            target_part(key_target(sort, distinct_on, n - 1)),
        )
    }
}

/// What of a query refers to columns, in the order in which it is checked: its
/// items, its WHERE, its grouping expressions, and its keys.
pub open spec fn referring_parts(plan: SelectPlan) -> Seq<Val> {
    let items = item_parts(Seq::empty(), plan.projection@, plan.projection@.len());
    let filter = match plan.filter {
        Some(f) => items.push(filter_code(f)),
        None => items,
    };
    let groups = group_parts(filter, plan.group_exprs@, plan.group_exprs@.len());
    key_parts(groups, plan.sort@, plan.distinct_on@, plan.sort@.len() + plan.distinct_on@.len())
}

fn add_item_parts(out: &mut Vec<Value>, items: &Vec<ProjectionItem>)
    ensures
        vals(final(out)@) == item_parts(vals(old(out)@), items@, items@.len()),
{
    let ghost start = vals(out@);
    let mut i: usize = 0;
    while i < items.len()
        invariant
            i <= items@.len(),
            vals(out@) == item_parts(start, items@, i as nat),
        decreases items@.len() - i,
    {
        match &items[i] {
            ProjectionItem::Column(c) => add_value(out, Value::Text(c.clone())),
            ProjectionItem::AliasedColumn(c, _) => add_value(out, Value::Text(c.clone())),
            ProjectionItem::Expr { expr, .. } => add_value(out, code_of_expr(expr)),
            _ => {},
        }
        i = i + 1;
    }
}

fn add_group_parts(out: &mut Vec<Value>, exprs: &Vec<(String, ScalarExpr)>)
    ensures
        vals(final(out)@) == group_parts(vals(old(out)@), exprs@, exprs@.len()),
{
    let ghost start = vals(out@);
    let mut i: usize = 0;
    while i < exprs.len()
        invariant
            i <= exprs@.len(),
            vals(out@) == group_parts(start, exprs@, i as nat),
        decreases exprs@.len() - i,
    {
        add_value(out, code_of_expr(&exprs[i].1));
        i = i + 1;
    }
}

fn add_key_parts(
    out: &mut Vec<Value>,
    sort: &Vec<SortKey>,
    distinct_on: &Vec<SortTarget>,
    total: usize,
)
    requires
        total == sort@.len() + distinct_on@.len(),
    ensures
        vals(final(out)@) == key_parts(vals(old(out)@), sort@, distinct_on@, total as nat),
{
    let ghost start = vals(out@);
    let mut i: usize = 0;
    while i < total
        invariant
            i <= total == sort@.len() + distinct_on@.len(),
            vals(out@) == key_parts(start, sort@, distinct_on@, i as nat),
        decreases total - i,
    {
        match target_at(sort, distinct_on, i) {
            SortTarget::Expr(e) => add_value(out, code_of_expr(e)),
            SortTarget::Name(n) => {
                if has_char(n.as_str(), '.') {
                    add_value(out, Value::Text(n.clone()));
                }
            },
            _ => {},
        }
        i = i + 1;
    }
}

/// Whether every function and column that the query names exists; a query on
/// a virtual table is lenient.
pub open spec fn names_checked(plan: SelectPlan, rel: Rel, lenient: bool, k: Known) -> Result<
    (),
    Stop,
> {
    if lenient {
        Ok(())
    } else {
        match functions_known(plan.projection@, plan.projection@.len(), k) {
            Err(s) => Err(s),
            Ok(_) => columns_checked(referring_parts(plan), rel.columns, k),
        }
    }
}

fn check_names(plan: &SelectPlan, rel: &Relation, lenient: bool, facts: &Facts) -> (r: Result<
    (),
    Halt,
>)
    requires
        plan.sort@.len() + plan.distinct_on@.len() <= usize::MAX,
    ensures
        done_outcome(r) == names_checked(*plan, rel@, lenient, facts@),
{
    if lenient {
        return Ok(());
    }
    match check_functions(&plan.projection, facts) {
        Err(h) => Err(h),
        Ok(_) => {
            let mut parts: Vec<Value> = Vec::new();
            assert(vals(parts@) =~= Seq::<Val>::empty());
            add_item_parts(&mut parts, &plan.projection);
            if let Some(f) = &plan.filter {
                add_value(&mut parts, code_of_filter(f));
            }
            add_group_parts(&mut parts, &plan.group_exprs);
            let total: usize = plan.sort.len() + plan.distinct_on.len();
            add_key_parts(&mut parts, &plan.sort, &plan.distinct_on, total);
            check_columns(parts, &rel.columns, facts)
        },
    }
}

/// The rows that WHERE leaves; `LIMIT 0` evaluates no row.
pub open spec fn filtered(plan: SelectPlan, rel: Rel, k: Known) -> Result<Seq<Seq<Val>>, Stop> {
    let rows = if plan.limit == Some(0usize) {
        Seq::empty()
    } else {
        rel.rows
    };
    match condition_verdicts(plan.filter, rel.columns, rel.types, rows, k) {
        Err(s) => Err(s),
        Ok(marks) => Ok(passing(rows, marks)),
    }
}

fn filter_rows(plan: &SelectPlan, rel: &Relation, facts: &Facts) -> (r: Result<
    Vec<Vec<Value>>,
    Halt,
>)
    ensures
        rows_result(r) == filtered(*plan, rel@, facts@),
{
    let zero: bool = match plan.limit {
        Some(n) => n == 0,
        None => false,
    };
    let rows: Vec<Vec<Value>> = if zero {
        let none: Vec<Vec<Value>> = Vec::new();
        assert(rows_view(none@) =~= Seq::<Seq<Val>>::empty());
        none
    } else {
        clone_rows(&rel.rows)
    };
    match condition_marks(&plan.filter, &rel.columns, &rel.types, &rows, facts) {
        Err(h) => Err(h),
        Ok(marks) => Ok(keep_rows(rows, &marks)),
    }
}

/// The joined rows of the relations that a data-modifying statement reads,
/// under their qualified names.
pub open spec fn relation_read(plan: SelectPlan, rel: Rel, lenient: bool, k: Known) -> Result<
    OutputView,
    Stop,
> {
    match names_checked(plan, rel, lenient, k) {
        Err(s) => Err(s),
        Ok(_) => match filtered(plan, rel, k) {
            Err(s) => Err(s),
            Ok(rows) => Ok(
                OutputView { columns: rel.columns, types: rel.types, rows, tag: Seq::empty() },
            ),
        },
    }
}

/// The joined rows of the relations that a data-modifying statement reads.
pub fn relation_rows(plan: &SelectPlan, rel: Relation, lenient: bool, facts: &Facts) -> (r: Result<
    QueryOutput,
    Halt,
>)
    requires
        plan.sort@.len() + plan.distinct_on@.len() <= usize::MAX,
    ensures
        output_outcome(r) == relation_read(*plan, rel@, lenient, facts@),
{
    match check_names(plan, &rel, lenient, facts) {
        Err(h) => {
            return Err(h);
        },
        Ok(_) => {},
    }
    match filter_rows(plan, &rel, facts) {
        Err(h) => Err(h),
        Ok(rows) => {
            let tag = String::new();
            assert(tag@ =~= Seq::<char>::empty());
            Ok(QueryOutput { columns: rel.columns, types: rel.types, rows: as_rows(rows), tag })
        },
    }
}

// ---------------------------------------------------------------------------
// Grouping
// ---------------------------------------------------------------------------

/// The rows with the columns of the first `n` grouping expressions; a name
/// that is already an input column keeps that column.
pub open spec fn with_group_exprs(
    exprs: Seq<(String, ScalarExpr)>,
    n: nat,
    t: Table,
    k: Known,
) -> Result<Table, Stop>
    decreases n,
{
    if n == 0 {
        Ok(t)
    } else {
        match with_group_exprs(exprs, (n - 1) as nat, t, k) {
            Err(s) => Err(s),
            Ok(u) => match reference_position(u.names, exprs[n - 1].0@, k) {
                Err(s) => Err(s),
                Ok(Some(_)) => Ok(u),
                Ok(None) => match column_values(
                    exprs[n - 1].1,
                    u.names,
                    u.rows,
                    k,
                ) {
                    Err(s) => Err(s),
                    Ok(values) => Ok(
                        Table {
                            names: u.names.push(exprs[n - 1].0@),
                            rows: with_column(u.rows, values),
                        },
                    ),
                },
            },
        }
    }
}

proof fn lemma_group_exprs_fail(
    exprs: Seq<(String, ScalarExpr)>,
    n: nat,
    m: nat,
    t: Table,
    k: Known,
)
    requires
        n <= m,
        with_group_exprs(exprs, n, t, k) is Err,
    ensures
        with_group_exprs(exprs, m, t, k) == with_group_exprs(exprs, n, t, k),
    decreases m,
{
    if n < m {
        lemma_group_exprs_fail(exprs, n, (m - 1) as nat, t, k);
    }
}

fn add_group_exprs(
    exprs: &Vec<(String, ScalarExpr)>,
    names: Vec<String>,
    rows: Vec<Vec<Value>>,
    facts: &Facts,
) -> (r: Result<(Vec<String>, Vec<Vec<Value>>), Halt>)
    ensures
        table_outcome(r) == with_group_exprs(
            exprs@,
            exprs@.len(),
            Table { names: texts(names@), rows: rows_view(rows@) },
            facts@,
        ),
{
    let ghost given = Table { names: texts(names@), rows: rows_view(rows@) };
    let mut all_names = names;
    let mut all_rows = rows;
    let mut i: usize = 0;
    while i < exprs.len()
        invariant
            i <= exprs@.len(),
            given == (Table { names: texts(names@), rows: rows_view(rows@) }),
            with_group_exprs(exprs@, i as nat, given, facts@) == Ok::<Table, Stop>(
                Table { names: texts(all_names@), rows: rows_view(all_rows@) },
            ),
        decreases exprs@.len() - i,
    {
        proof {
            if with_group_exprs(exprs@, (i + 1) as nat, given, facts@) is Err {
                lemma_group_exprs_fail(exprs@, (i + 1) as nat, exprs@.len(), given, facts@);
            }
        }
        match find_reference(&all_names, exprs[i].0.as_str(), facts) {
            Err(h) => {
                return Err(h);
            },
            Ok(Some(_)) => {},
            Ok(None) => {
                match eval_column(&exprs[i].1, &all_names, &all_rows, facts) {
                    Err(h) => {
                        return Err(h);
                    },
                    Ok(values) => {
                        let ghost before = all_names@;
                        all_rows = add_column(&all_rows, &values);
                        all_names.push(exprs[i].0.clone());
                        assert(texts(all_names@) =~= texts(before).push(exprs@[i as int].0@));
                    },
                }
            },
        }
        i = i + 1;
    }
    Ok((all_names, all_rows))
}

/// Whether the first `n` grouping columns exist.
pub open spec fn group_columns_checked(
    group_by: Seq<Seq<char>>,
    n: nat,
    names: Seq<Seq<char>>,
    k: Known,
) -> Result<(), Stop>
    decreases n,
{
    if n == 0 {
        Ok(())
    } else {
        match group_columns_checked(group_by, (n - 1) as nat, names, k) {
            Err(s) => Err(s),
            Ok(_) => match reference_position(names, group_by[n - 1], k) {
                Err(s) => Err(s),
                Ok(Some(_)) => Ok(()),
                Ok(None) => Err(no_such_column(group_by[n - 1])),
            },
        }
    }
}

proof fn lemma_group_columns_fail(
    group_by: Seq<Seq<char>>,
    n: nat,
    m: nat,
    names: Seq<Seq<char>>,
    k: Known,
)
    requires
        n <= m,
        group_columns_checked(group_by, n, names, k) is Err,
    ensures
        group_columns_checked(group_by, m, names, k) == group_columns_checked(
            group_by,
            n,
            names,
            k,
        ),
    decreases m,
{
    if n < m {
        lemma_group_columns_fail(group_by, n, (m - 1) as nat, names, k);
    }
}

fn check_group_columns(group_by: &Vec<String>, names: &Vec<String>, facts: &Facts) -> (r: Result<
    (),
    Halt,
>)
    ensures
        done_outcome(r) == group_columns_checked(
            texts(group_by@),
            group_by@.len(),
            texts(names@),
            facts@,
        ),
{
    let ghost all = texts(group_by@);
    let mut i: usize = 0;
    while i < group_by.len()
        invariant
            i <= group_by@.len(),
            all == texts(group_by@),
            group_columns_checked(all, i as nat, texts(names@), facts@) == Ok::<(), Stop>(()),
        decreases group_by@.len() - i,
    {
        proof {
            assert(all[i as int] == group_by@[i as int]@);
            if group_columns_checked(all, (i + 1) as nat, texts(names@), facts@) is Err {
                lemma_group_columns_fail(
                    all,
                    (i + 1) as nat,
                    group_by@.len(),
                    texts(names@),
                    facts@,
                );
            }
        }
        match find_reference(names, group_by[i].as_str(), facts) {
            Err(h) => {
                return Err(h);
            },
            Ok(Some(_)) => {},
            Ok(None) => {
                return Err(
                    Halt::Raised(
                        concat3("column \"", group_by[i].as_str(), "\" does not exist"),
                    ),
                );
            },
        }
        i = i + 1;
    }
    Ok(())
}

/// Whether an item is computed over a group.
pub open spec fn item_aggregates(item: ProjectionItem) -> bool {
    match item {
        ProjectionItem::Aggregate(_, _) => true,
        ProjectionItem::Expr { expr, .. } => has_aggregate(expr),
        _ => false,
    }
}

/// Whether a sort target is computed over a group.
pub open spec fn target_aggregates(target: SortTarget) -> bool {
    match target {
        SortTarget::Expr(e) => has_aggregate(e),
        _ => false,
    }
}

/// Whether the query groups its rows. A HAVING clause forces grouping even
/// without GROUP BY or aggregates: it treats the whole input as one group.
pub open spec fn groups_rows(plan: SelectPlan) -> bool {
    ||| plan.group_by@.len() > 0
    ||| plan.having is Some
    ||| exists|i: int|
        0 <= i < plan.projection@.len() && item_aggregates(#[trigger] plan.projection@[i])
    ||| exists|i: int|
        0 <= i < plan.sort@.len() + plan.distinct_on@.len() && target_aggregates(
            #[trigger] key_target(plan.sort@, plan.distinct_on@, i),
        )
}

fn is_grouping(plan: &SelectPlan, keys: usize) -> (r: bool)
    requires
        keys == plan.sort@.len() + plan.distinct_on@.len(),
    ensures
        r == groups_rows(*plan),
{
    if plan.group_by.len() > 0 {
        return true;
    }
    match &plan.having {
        Some(_) => {
            return true;
        },
        None => {},
    }
    let mut i: usize = 0;
    while i < plan.projection.len()
        invariant
            i <= plan.projection@.len(),
            forall|j: int| 0 <= j < i ==> !item_aggregates(#[trigger] plan.projection@[j]),
        decreases plan.projection@.len() - i,
    {
        let here: bool = match &plan.projection[i] {
            ProjectionItem::Aggregate(_, _) => true,
            // An expression like `sum(a) + 1` also forces the grouping path.
            ProjectionItem::Expr { expr, .. } => scalar_has_aggregate(expr),
            _ => false,
        };
        if here {
            assert(item_aggregates(plan.projection@[i as int]));
            return true;
        }
        i = i + 1;
    }
    let mut j: usize = 0;
    while j < keys
        invariant
            j <= keys == plan.sort@.len() + plan.distinct_on@.len(),
            forall|x: int|
                0 <= x < j ==> !target_aggregates(
                    #[trigger] key_target(plan.sort@, plan.distinct_on@, x),
                ),
        decreases keys - j,
    {
        let here: bool = match target_at(&plan.sort, &plan.distinct_on, j) {
            SortTarget::Expr(e) => scalar_has_aggregate(e),
            _ => false,
        };
        if here {
            assert(target_aggregates(key_target(plan.sort@, plan.distinct_on@, j as int)));
            return true;
        }
        j = j + 1;
    }
    false
}

/// The values of the first `n` keys over groups, NULL for those that are not
/// expressions.
pub open spec fn group_key_columns(
    sort: Seq<SortKey>,
    distinct_on: Seq<SortTarget>,
    n: nat,
    names: Seq<Seq<char>>,
    groups: Seq<Seq<Seq<Val>>>,
    k: Known,
) -> Result<Seq<Seq<Val>>, Stop>
    decreases n,
{
    if n == 0 {
        Ok(Seq::empty())
    } else {
        match group_key_columns(sort, distinct_on, (n - 1) as nat, names, groups, k) {
            Err(s) => Err(s),
            Ok(done) => match match key_target(sort, distinct_on, n - 1) {
                SortTarget::Expr(e) => group_values(e, names, groups, k),
                _ => Ok(nulls(groups.len())),
            } {
                Err(s) => Err(s),
                Ok(c) => Ok(done.push(c)),
            },
        }
    }
}

proof fn lemma_group_keys_fail(
    sort: Seq<SortKey>,
    distinct_on: Seq<SortTarget>,
    n: nat,
    m: nat,
    names: Seq<Seq<char>>,
    groups: Seq<Seq<Seq<Val>>>,
    k: Known,
)
    requires
        n <= m,
        group_key_columns(sort, distinct_on, n, names, groups, k) is Err,
    ensures
        group_key_columns(sort, distinct_on, m, names, groups, k) == group_key_columns(
            sort,
            distinct_on,
            n,
            names,
            groups,
            k,
        ),
    decreases m,
{
    if n < m {
        lemma_group_keys_fail(sort, distinct_on, n, (m - 1) as nat, names, groups, k);
    }
}

fn eval_group_keys(
    sort: &Vec<SortKey>,
    distinct_on: &Vec<SortTarget>,
    total: usize,
    names: &Vec<String>,
    groups: &Vec<Vec<Vec<Value>>>,
    facts: &Facts,
) -> (r: Result<Vec<Vec<Value>>, Halt>)
    requires
        total == sort@.len() + distinct_on@.len(),
    ensures
        rows_result(r) == group_key_columns(
            sort@,
            distinct_on@,
            total as nat,
            texts(names@),
            groups_view(groups@),
            facts@,
        ),
{
    let mut out: Vec<Vec<Value>> = Vec::new();
    let mut i: usize = 0;
    assert(rows_view(out@) =~= Seq::<Seq<Val>>::empty());
    while i < total
        invariant
            i <= total == sort@.len() + distinct_on@.len(),
            group_key_columns(
                sort@,
                distinct_on@,
                i as nat,
                texts(names@),
                groups_view(groups@),
                facts@,
            ) == Ok::<Seq<Seq<Val>>, Stop>(rows_view(out@)),
        decreases total - i,
    {
        assert(groups_view(groups@).len() == groups@.len());
        let column = match target_at(sort, distinct_on, i) {
            SortTarget::Expr(e) => eval_grouped(e, names, groups, facts),
            _ => Ok(null_row(groups.len())),
        };
        match column {
            Err(h) => {
                proof {
                    lemma_group_keys_fail(
                        sort@,
                        distinct_on@,
                        (i + 1) as nat,
                        total as nat,
                        texts(names@),
                        groups_view(groups@),
                        facts@,
                    );
                }
                return Err(h);
            },
            Ok(c) => {
                let ghost before = out@;
                out.push(c);
                assert(rows_view(out@) =~= rows_view(before).push(vals(c@)));
            },
        }
        i = i + 1;
    }
    Ok(out)
}

fn keep_groups(groups: &Vec<Vec<Vec<Value>>>, verdicts: &Vec<Value>) -> (r: Vec<Vec<Vec<Value>>>)
    ensures
        groups_view(r@) == passing(groups_view(groups@), vals(verdicts@)),
{
    let ghost all = groups_view(groups@);
    let mut out: Vec<Vec<Vec<Value>>> = Vec::new();
    let mut i: usize = 0;
    assert(all.take(0) =~= Seq::<Seq<Seq<Val>>>::empty());
    assert(groups_view(out@) =~= Seq::<Seq<Seq<Val>>>::empty());
    while i < groups.len()
        invariant
            i <= groups@.len(),
            all == groups_view(groups@),
            groups_view(out@) == passing(all.take(i as int), vals(verdicts@)),
        decreases groups@.len() - i,
    {
        let ghost before = out@;
        assert(all.take(i + 1).drop_last() =~= all.take(i as int));
        assert(all.take(i + 1).last() == rows_view(groups@[i as int]@));
        let verdict = cell_at(verdicts, i);
        if value_is_true(&verdict) {
            let copy = clone_rows(&groups[i]);
            out.push(copy);
            assert(groups_view(out@) =~= groups_view(before).push(all[i as int]));
        }
        i = i + 1;
    }
    assert(all.take(i as int) =~= all);
    out
}

/// The verdict of HAVING on each group: a subquery in it reads the group's
/// first row.
pub open spec fn having_verdicts(
    having: FilterExpr,
    names: Seq<Seq<char>>,
    groups: Seq<Seq<Seq<Val>>>,
    k: Known,
) -> Result<Seq<Val>, Stop> {
    match match having {
        FilterExpr::Scalar(e) => group_subqueries(e, names, groups, k),
        _ => Ok(Seq::empty()),
    } {
        Err(s) => Err(s),
        Ok(lists) => group_answers(
            TaskView::GroupConditions,
            group_subject(filter_code(having), lists),
            names,
            groups,
            k,
        ),
    }
}

fn having_marks(
    having: &FilterExpr,
    names: &Vec<String>,
    groups: &Vec<Vec<Vec<Value>>>,
    facts: &Facts,
) -> (r: Result<Vec<Value>, Halt>)
    ensures
        list_outcome(r) == having_verdicts(
            *having,
            texts(names@),
            groups_view(groups@),
            facts@,
        ),
{
    let lists = match having {
        FilterExpr::Scalar(e) => match ask_group_subqueries(e, names, groups, facts) {
            Ok(lists) => lists,
            Err(h) => {
                return Err(h);
            },
        },
        _ => {
            let none: Vec<Value> = Vec::new();
            assert(vals(none@) =~= Seq::<Val>::empty());
            none
        },
    };
    ask_groups(
        Task::GroupConditions,
        group_subject_of(code_of_filter(having), lists),
        names,
        groups,
        facts,
    )
}

/// What one grouping set contributes to the output.
pub open spec fn set_staged(plan: SelectPlan, set: Seq<Seq<char>>, t: Table, k: Known) -> Result<
    Staged,
    Stop,
> {
    match reference_positions(t.names, set, k) {
        Err(s) => Err(s),
        Ok(at) => match set_groups(t.rows, at, k) {
            Err(s) => Err(s),
            Ok(all) => {
                let kept = match plan.having {
                    Some(having) => match having_verdicts(having, t.names, all, k) {
                        Err(s) => Err(s),
                        Ok(marks) => Ok(passing(all, marks)),
                    },
                    None => Ok(all),
                };
                match kept {
                    Err(s) => Err(s),
                    Ok(groups) => match group_projected(
                        plan.projection@,
                        texts(plan.group_by@),
                        set,
                        t.names,
                        groups,
                        k,
                    ) {
                        Err(s) => Err(s),
                        Ok(rows) => match group_key_columns(
                            plan.sort@,
                            plan.distinct_on@,
                            plan.sort@.len() + plan.distinct_on@.len(),
                            t.names,
                            groups,
                            k,
                        ) {
                            Err(s) => Err(s),
                            Ok(columns) => Ok(
                                Staged {
                                    rows,
                                    sources: first_rows(groups),
                                    computed: rows_of_columns(columns, groups.len()),
                                },
                            ),
                        },
                    },
                }
            },
        },
    }
}

/// What staged rows' result stands for.
pub open spec fn staged_outcome(r: Result<StagedRows, Halt>) -> Result<Staged, Stop> {
    match r {
        Ok(s) => Ok(s@),
        Err(h) => Err(h@),
    }
}

fn stage_set(
    plan: &SelectPlan,
    set: &Vec<String>,
    total: usize,
    names: &Vec<String>,
    rows: &Vec<Vec<Value>>,
    facts: &Facts,
) -> (r: Result<StagedRows, Halt>)
    requires
        total == plan.sort@.len() + plan.distinct_on@.len(),
    ensures
        staged_outcome(r) == set_staged(
            *plan,
            texts(set@),
            Table { names: texts(names@), rows: rows_view(rows@) },
            facts@,
        ),
{
    let at = match find_references(names, set, facts) {
        Ok(at) => at,
        Err(h) => {
            return Err(h);
        },
    };
    let all = match group_by_set(rows, &at, facts) {
        Ok(g) => g,
        Err(h) => {
            return Err(h);
        },
    };
    // HAVING filters whole groups after aggregation.
    let groups = match &plan.having {
        Some(having) => match having_marks(having, names, &all, facts) {
            Ok(marks) => keep_groups(&all, &marks),
            Err(h) => {
                return Err(h);
            },
        },
        None => all,
    };
    assert(groups_view(groups@).len() == groups@.len());
    let out = match project_groups(&plan.projection, &plan.group_by, set, names, &groups, facts) {
        Ok(rows) => rows,
        Err(h) => {
            return Err(h);
        },
    };
    let columns = match eval_group_keys(
        &plan.sort,
        &plan.distinct_on,
        total,
        names,
        &groups,
        facts,
    ) {
        Ok(c) => c,
        Err(h) => {
            return Err(h);
        },
    };
    Ok(
        StagedRows {
            rows: out,
            sources: firsts_of(&groups),
            computed: make_rows(&columns, groups.len()),
        },
    )
}

/// Staged rows, one list after the other.
pub open spec fn staged_after(a: Staged, b: Staged) -> Staged {
    Staged {
        rows: a.rows + b.rows,
        sources: a.sources + b.sources,
        computed: a.computed + b.computed,
    }
}

/// The grouping sets of a query: without ROLLUP, CUBE, or GROUPING SETS a
/// single set of the GROUP BY columns.
pub open spec fn grouping_sets(plan: SelectPlan) -> Seq<Seq<Seq<char>>> {
    match plan.grouping_sets {
        Some(sets) => if sets@.len() > 0 {
            crate::grouping::text_lists(sets@)
        } else {
            seq![texts(plan.group_by@)]
        },
        None => seq![texts(plan.group_by@)],
    }
}

/// What the first `n` grouping sets contribute.
pub open spec fn sets_staged(
    plan: SelectPlan,
    sets: Seq<Seq<Seq<char>>>,
    n: nat,
    t: Table,
    k: Known,
) -> Result<Staged, Stop>
    decreases n,
{
    if n == 0 {
        Ok(Staged { rows: Seq::empty(), sources: Seq::empty(), computed: Seq::empty() })
    } else {
        match sets_staged(plan, sets, (n - 1) as nat, t, k) {
            Err(s) => Err(s),
            Ok(done) => match set_staged(plan, sets[n - 1], t, k) {
                Err(s) => Err(s),
                Ok(more) => Ok(staged_after(done, more)),
            },
        }
    }
}

proof fn lemma_sets_fail(
    plan: SelectPlan,
    sets: Seq<Seq<Seq<char>>>,
    n: nat,
    m: nat,
    t: Table,
    k: Known,
)
    requires
        n <= m,
        sets_staged(plan, sets, n, t, k) is Err,
    ensures
        sets_staged(plan, sets, m, t, k) == sets_staged(plan, sets, n, t, k),
    decreases m,
{
    if n < m {
        lemma_sets_fail(plan, sets, n, (m - 1) as nat, t, k);
    }
}

fn append(a: &mut Vec<Vec<Value>>, b: &Vec<Vec<Value>>)
    ensures
        rows_view(final(a)@) == rows_view(old(a)@) + rows_view(b@),
{
    let ghost start = rows_view(a@);
    let ghost all = rows_view(b@);
    let mut i: usize = 0;
    assert(start + all.take(0) =~= start);
    while i < b.len()
        invariant
            i <= b@.len(),
            all == rows_view(b@),
            rows_view(a@) == start + all.take(i as int),
        decreases b@.len() - i,
    {
        let ghost before = a@;
        a.push(clone_values(&b[i]));
        assert(rows_view(a@) =~= rows_view(before).push(all[i as int]));
        i = i + 1;
        assert(start + all.take(i as int) =~= (start + all.take(i - 1)).push(all[i - 1]));
    }
    assert(all.take(i as int) =~= all);
}

fn stage_sets(
    plan: &SelectPlan,
    sets: &Vec<Vec<String>>,
    total: usize,
    names: &Vec<String>,
    rows: &Vec<Vec<Value>>,
    facts: &Facts,
) -> (r: Result<StagedRows, Halt>)
    requires
        total == plan.sort@.len() + plan.distinct_on@.len(),
    ensures
        staged_outcome(r) == sets_staged(
            *plan,
            crate::grouping::text_lists(sets@),
            sets@.len(),
            Table { names: texts(names@), rows: rows_view(rows@) },
            facts@,
        ),
{
    let ghost t = Table { names: texts(names@), rows: rows_view(rows@) };
    let ghost lists = crate::grouping::text_lists(sets@);
    let mut out: Vec<Vec<Value>> = Vec::new();
    let mut sources: Vec<Vec<Value>> = Vec::new();
    let mut computed: Vec<Vec<Value>> = Vec::new();
    let mut i: usize = 0;
    assert(rows_view(out@) =~= Seq::<Seq<Val>>::empty());
    assert(rows_view(sources@) =~= Seq::<Seq<Val>>::empty());
    assert(rows_view(computed@) =~= Seq::<Seq<Val>>::empty());
    while i < sets.len()
        invariant
            i <= sets@.len(),
            total == plan.sort@.len() + plan.distinct_on@.len(),
            t == (Table { names: texts(names@), rows: rows_view(rows@) }),
            lists == crate::grouping::text_lists(sets@),
            sets_staged(*plan, lists, i as nat, t, facts@) == Ok::<Staged, Stop>(
                Staged {
                    rows: rows_view(out@),
                    sources: rows_view(sources@),
                    computed: rows_view(computed@),
                },
            ),
        decreases sets@.len() - i,
    {
        assert(lists[i as int] == texts(sets@[i as int]@));
        match stage_set(plan, &sets[i], total, names, rows, facts) {
            Err(h) => {
                proof {
                    lemma_sets_fail(*plan, lists, (i + 1) as nat, sets@.len(), t, facts@);
                }
                return Err(h);
            },
            Ok(more) => {
                append(&mut out, &more.rows);
                append(&mut sources, &more.sources);
                append(&mut computed, &more.computed);
            },
        }
        i = i + 1;
    }
    Ok(StagedRows { rows: out, sources, computed })
}

fn grouping_sets_of(plan: &SelectPlan) -> (r: Vec<Vec<String>>)
    ensures
        crate::grouping::text_lists(r@) == grouping_sets(*plan),
{
    if let Some(sets) = &plan.grouping_sets {
        if sets.len() > 0 {
            let mut out: Vec<Vec<String>> = Vec::new();
            let mut i: usize = 0;
            while i < sets.len()
                invariant
                    i <= sets@.len(),
                    out@.len() == i,
                    forall|j: int| 0 <= j < i ==> texts((#[trigger] out@[j])@) == texts(sets@[j]@),
                decreases sets@.len() - i,
            {
                out.push(clone_texts(&sets[i]));
                i = i + 1;
            }
            assert(crate::grouping::text_lists(out@) =~= crate::grouping::text_lists(sets@));
            return out;
        }
    }
    let out: Vec<Vec<String>> = vec![clone_texts(&plan.group_by)];
    assert(crate::grouping::text_lists(out@) =~= seq![texts(plan.group_by@)]);
    out
}

// ---------------------------------------------------------------------------
// Rows without grouping
// ---------------------------------------------------------------------------

/// The values of the first `n` keys over rows, NULL for those that are not
/// expressions.
pub open spec fn row_key_columns(
    sort: Seq<SortKey>,
    distinct_on: Seq<SortTarget>,
    n: nat,
    t: Table,
    k: Known,
) -> Result<Seq<Seq<Val>>, Stop>
    decreases n,
{
    if n == 0 {
        Ok(Seq::empty())
    } else {
        match row_key_columns(sort, distinct_on, (n - 1) as nat, t, k) {
            Err(s) => Err(s),
            Ok(done) => match match key_target(sort, distinct_on, n - 1) {
                SortTarget::Expr(e) => column_values(e, t.names, t.rows, k),
                _ => Ok(nulls(t.rows.len())),
            } {
                Err(s) => Err(s),
                Ok(c) => Ok(done.push(c)),
            },
        }
    }
}

proof fn lemma_row_keys_fail(
    sort: Seq<SortKey>,
    distinct_on: Seq<SortTarget>,
    n: nat,
    m: nat,
    t: Table,
    k: Known,
)
    requires
        n <= m,
        row_key_columns(sort, distinct_on, n, t, k) is Err,
    ensures
        row_key_columns(sort, distinct_on, m, t, k) == row_key_columns(
            sort,
            distinct_on,
            n,
            t,
            k,
        ),
    decreases m,
{
    if n < m {
        lemma_row_keys_fail(sort, distinct_on, n, (m - 1) as nat, t, k);
    }
}

fn eval_row_keys(
    sort: &Vec<SortKey>,
    distinct_on: &Vec<SortTarget>,
    total: usize,
    names: &Vec<String>,
    rows: &Vec<Vec<Value>>,
    facts: &Facts,
) -> (r: Result<Vec<Vec<Value>>, Halt>)
    requires
        total == sort@.len() + distinct_on@.len(),
    ensures
        rows_result(r) == row_key_columns(
            sort@,
            distinct_on@,
            total as nat,
            Table { names: texts(names@), rows: rows_view(rows@) },
            facts@,
        ),
{
    let ghost t = Table { names: texts(names@), rows: rows_view(rows@) };
    let mut out: Vec<Vec<Value>> = Vec::new();
    let mut i: usize = 0;
    assert(rows_view(out@) =~= Seq::<Seq<Val>>::empty());
    while i < total
        invariant
            i <= total == sort@.len() + distinct_on@.len(),
            t == (Table { names: texts(names@), rows: rows_view(rows@) }),
            row_key_columns(sort@, distinct_on@, i as nat, t, facts@) == Ok::<
                Seq<Seq<Val>>,
                Stop,
            >(rows_view(out@)),
        decreases total - i,
    {
        assert(t.rows.len() == rows@.len());
        let column = match target_at(sort, distinct_on, i) {
            SortTarget::Expr(e) => eval_column(e, names, rows, facts),
            _ => Ok(null_row(rows.len())),
        };
        match column {
            Err(h) => {
                proof {
                    lemma_row_keys_fail(
                        sort@,
                        distinct_on@,
                        (i + 1) as nat,
                        total as nat,
                        t,
                        facts@,
                    );
                }
                return Err(h);
            },
            Ok(c) => {
                let ghost before = out@;
                out.push(c);
                assert(rows_view(out@) =~= rows_view(before).push(vals(c@)));
            },
        }
        i = i + 1;
    }
    Ok(out)
}

/// The output rows of a query that does not group, over rows that already
/// hold the columns its items compute.
pub open spec fn rows_staged(plan: SelectPlan, types: Seq<Seq<char>>, t: Table, k: Known) -> Result<
    Staged,
    Stop,
> {
    match row_key_columns(
        plan.sort@,
        plan.distinct_on@,
        plan.sort@.len() + plan.distinct_on@.len(),
        t,
        k,
    ) {
        Err(s) => Err(s),
        Ok(columns) => match projected(plan.projection@, types, t, k) {
            Err(s) => Err(s),
            Ok(rows) => Ok(
                Staged {
                    rows,
                    sources: t.rows,
                    computed: rows_of_columns(columns, t.rows.len()),
                },
            ),
        },
    }
}

fn stage_rows(
    plan: &SelectPlan,
    total: usize,
    types: &Vec<String>,
    names: &Vec<String>,
    rows: &Vec<Vec<Value>>,
    facts: &Facts,
) -> (r: Result<StagedRows, Halt>)
    requires
        total == plan.sort@.len() + plan.distinct_on@.len(),
    ensures
        staged_outcome(r) == rows_staged(
            *plan,
            texts(types@),
            Table { names: texts(names@), rows: rows_view(rows@) },
            facts@,
        ),
{
    let columns = match eval_row_keys(&plan.sort, &plan.distinct_on, total, names, rows, facts) {
        Ok(c) => c,
        Err(h) => {
            return Err(h);
        },
    };
    let out = match project(&plan.projection, types, names, rows, facts) {
        Ok(rows) => rows,
        Err(h) => {
            return Err(h);
        },
    };
    assert(rows_view(rows@).len() == rows@.len());
    Ok(
        StagedRows {
            rows: out,
            sources: clone_rows(rows),
            computed: make_rows(&columns, rows.len()),
        },
    )
}

/// Names without their relations.
pub open spec fn bare_columns(names: Seq<Seq<char>>) -> Seq<Seq<char>> {
    Seq::new(names.len(), |i: int| unqualified(names[i]))
}

fn unqualify_all(names: &Vec<String>) -> (r: Vec<String>)
    ensures
        texts(r@) == bare_columns(texts(names@)),
{
    let mut out: Vec<String> = Vec::new();
    let mut i: usize = 0;
    while i < names.len()
        invariant
            i <= names@.len(),
            out@.len() == i,
            forall|j: int| 0 <= j < i ==> (#[trigger] out@[j])@ == unqualified(names@[j]@),
        decreases names@.len() - i,
    {
        out.push(unqualify(names[i].as_str()));
        i = i + 1;
    }
    assert(texts(out@) =~= bare_columns(texts(names@)));
    out
}

// ---------------------------------------------------------------------------
// Types of the output
// ---------------------------------------------------------------------------

/// The type that a value gives an output column without a declared type.
pub open spec fn shown_type(v: Val) -> Seq<char> {
    match v {
        Val::Int(_) => "INTEGER"@,
        Val::Float(_) => "DOUBLE"@,
        Val::Numeric(_) => "NUMERIC"@,
        Val::Bool(_) => "BOOLEAN"@,
        _ => "VARCHAR"@,
    }
}

/// The type that a literal item gives its column in an empty result.
pub open spec fn literal_item_type(item: ProjectionItem) -> Seq<char> {
    let v = match item {
        ProjectionItem::Literal(v) => v@,
        ProjectionItem::AliasedLiteral(v, _) => v@,
        _ => Val::Null,
    };
    match v {
        Val::Int(_) => "INTEGER"@,
        Val::Float(_) => "DOUBLE"@,
        Val::Bool(_) => "BOOLEAN"@,
        _ => "VARCHAR"@,
    }
}

/// The type declared for an output column, `VARCHAR` without one.
pub open spec fn declared_type(
    items: Seq<ProjectionItem>,
    i: int,
    names: Seq<Seq<char>>,
    types: Seq<Seq<char>>,
) -> Seq<char> {
    let at = if items.len() == 0 {
        Some(i)
    } else if i < items.len() {
        match items[i] {
            ProjectionItem::Column(c) => column_of(names, c@),
            ProjectionItem::AliasedColumn(c, _) => column_of(names, c@),
            _ => None,
        }
    } else {
        None
    };
    match at {
        Some(j) => if 0 <= j < types.len() {
            types[j]
        } else {
            "VARCHAR"@
        },
        None => "VARCHAR"@,
    }
}

/// The type of an output column: the one its item's expression has, else the
/// declared one, else the one its first value shows.
pub open spec fn output_type(
    items: Seq<ProjectionItem>,
    i: int,
    names: Seq<Seq<char>>,
    types: Seq<Seq<char>>,
    rows: Seq<Seq<Val>>,
    k: Known,
) -> Result<Seq<char>, Stop> {
    let declared = declared_type(items, i, names, types);
    let inferred = if i < items.len() {
        projection_type_of(items[i], DeclaredTypes { names, types, suffixes: true }, k)
    } else {
        Ok(None)
    };
    match inferred {
        Err(s) => Err(s),
        Ok(Some(t)) => Ok(t),
        Ok(None) => Ok(
            if declared != "VARCHAR"@ {
                declared
            } else if rows.len() > 0 {
                if i < rows[0].len() {
                    shown_type(rows[0][i])
                } else {
                    "VARCHAR"@
                }
            } else if i < items.len() {
                literal_item_type(items[i])
            } else {
                "VARCHAR"@
            },
        ),
    }
}

fn shown_type_of(v: &Value) -> (r: String)
    ensures
        r@ == shown_type(v@),
{
    match v {
        Value::Int(_) => "INTEGER".to_owned(),
        Value::Float(_) => "DOUBLE".to_owned(),
        Value::Numeric(_) => "NUMERIC".to_owned(),
        Value::Bool(_) => "BOOLEAN".to_owned(),
        _ => "VARCHAR".to_owned(),
    }
}

fn literal_type_of_item(item: &ProjectionItem) -> (r: String)
    ensures
        r@ == literal_item_type(*item),
{
    let v = match item {
        ProjectionItem::Literal(v) => v.duplicate(),
        ProjectionItem::AliasedLiteral(v, _) => v.duplicate(),
        _ => Value::Null,
    };
    match v {
        Value::Int(_) => "INTEGER".to_owned(),
        Value::Float(_) => "DOUBLE".to_owned(),
        Value::Bool(_) => "BOOLEAN".to_owned(),
        _ => "VARCHAR".to_owned(),
    }
}

fn declared_type_of(items: &Vec<ProjectionItem>, i: usize, columns: &ColumnTypes) -> (r: String)
    ensures
        r@ == declared_type(items@, i as int, texts(columns.names@), texts(columns.types@)),
{
    let at: Option<usize> = if items.len() == 0 {
        Some(i)
    } else if i < items.len() {
        match &items[i] {
            ProjectionItem::Column(c) => find_column(&columns.names, c.as_str()),
            ProjectionItem::AliasedColumn(c, _) => find_column(&columns.names, c.as_str()),
            _ => None,
        }
    } else {
        None
    };
    match at {
        Some(j) => if j < columns.types.len() {
            columns.types[j].clone()
        } else {
            "VARCHAR".to_owned()
        },
        None => "VARCHAR".to_owned(),
    }
}

fn type_of_output(
    items: &Vec<ProjectionItem>,
    i: usize,
    columns: &ColumnTypes,
    rows: &Vec<Vec<Value>>,
    facts: &Facts,
) -> (r: Result<String, Halt>)
    requires
        columns.suffixes,
    ensures
        crate::facts::text_outcome(r) == output_type(
            items@,
            i as int,
            texts(columns.names@),
            texts(columns.types@),
            rows_view(rows@),
            facts@,
        ),
{
    if i < items.len() {
        match projection_type(&items[i], columns, facts) {
            Err(h) => {
                return Err(h);
            },
            Ok(Some(t)) => {
                return Ok(t);
            },
            Ok(None) => {},
        }
    }
    let declared = declared_type_of(items, i, columns);
    if !same_text(declared.as_str(), "VARCHAR") {
        return Ok(declared);
    }
    if rows.len() > 0 {
        assert(rows_view(rows@)[0] == vals(rows@[0]@));
        if i < rows[0].len() {
            return Ok(shown_type_of(&rows[0][i]));
        }
        return Ok("VARCHAR".to_owned());
    }
    if i < items.len() {
        Ok(literal_type_of_item(&items[i]))
    } else {
        Ok("VARCHAR".to_owned())
    }
}

/// The types of the first `n` output columns.
pub open spec fn output_types(
    items: Seq<ProjectionItem>,
    n: nat,
    names: Seq<Seq<char>>,
    types: Seq<Seq<char>>,
    rows: Seq<Seq<Val>>,
    k: Known,
) -> Result<Seq<Seq<char>>, Stop>
    decreases n,
{
    if n == 0 {
        Ok(Seq::empty())
    } else {
        match output_types(items, (n - 1) as nat, names, types, rows, k) {
            Err(s) => Err(s),
            Ok(done) => match output_type(items, n - 1, names, types, rows, k) {
                Err(s) => Err(s),
                Ok(t) => Ok(done.push(t)),
            },
        }
    }
}

proof fn lemma_output_types_fail(
    items: Seq<ProjectionItem>,
    n: nat,
    m: nat,
    names: Seq<Seq<char>>,
    types: Seq<Seq<char>>,
    rows: Seq<Seq<Val>>,
    k: Known,
)
    requires
        n <= m,
        output_types(items, n, names, types, rows, k) is Err,
    ensures
        output_types(items, m, names, types, rows, k) == output_types(
            items,
            n,
            names,
            types,
            rows,
            k,
        ),
    decreases m,
{
    if n < m {
        lemma_output_types_fail(items, n, (m - 1) as nat, names, types, rows, k);
    }
}

fn types_of_output(
    items: &Vec<ProjectionItem>,
    n: usize,
    columns: &ColumnTypes,
    rows: &Vec<Vec<Value>>,
    facts: &Facts,
) -> (r: Result<Vec<String>, Halt>)
    requires
        columns.suffixes,
    ensures
        crate::json_ops::texts_outcome(r) == output_types(
            items@,
            n as nat,
            texts(columns.names@),
            texts(columns.types@),
            rows_view(rows@),
            facts@,
        ),
{
    let ghost (c, t, v) = (texts(columns.names@), texts(columns.types@), rows_view(rows@));
    let mut out: Vec<String> = Vec::new();
    let mut i: usize = 0;
    assert(texts(out@) =~= Seq::<Seq<char>>::empty());
    while i < n
        invariant
            i <= n,
            columns.suffixes,
            c == texts(columns.names@),
            t == texts(columns.types@),
            v == rows_view(rows@),
            output_types(items@, i as nat, c, t, v, facts@) == Ok::<Seq<Seq<char>>, Stop>(
                texts(out@),
            ),
        decreases n - i,
    {
        match type_of_output(items, i, columns, rows, facts) {
            Err(h) => {
                proof {
                    lemma_output_types_fail(
                        items@,
                        (i + 1) as nat,
                        n as nat,
                        c,
                        t,
                        v,
                        facts@,
                    );
                }
                return Err(h);
            },
            Ok(ty) => {
                let ghost before = out@;
                out.push(ty);
                assert(texts(out@) =~= texts(before).push(ty@));
            },
        }
        i = i + 1;
    }
    Ok(out)
}

// ---------------------------------------------------------------------------
// The query
// ---------------------------------------------------------------------------

/// The output rows with what their keys are read from, the output's columns,
/// and the columns of the input rows.
#[verifier::ext_equal]
pub struct Produced {
    pub staged: Staged,
    pub outputs: Seq<Seq<char>>,
    pub names: Seq<Seq<char>>,
}

/// The output rows of a query, before they are put in order.
pub open spec fn produced_rows(plan: SelectPlan, types: Seq<Seq<char>>, t: Table, k: Known) -> Result<
    Produced,
    Stop,
> {
    if groups_rows(plan) {
        match sets_staged(plan, grouping_sets(plan), grouping_sets(plan).len(), t, k) {
            Err(s) => Err(s),
            Ok(staged) => Ok(
                Produced {
                    staged,
                    outputs: if plan.projection@.len() == 0 {
                        t.names
                    } else {
                        output_names(plan.projection@)
                    },
                    names: t.names,
                },
            ),
        }
    } else {
        match with_computed(plan.projection@, plan.projection@.len(), t, k) {
            Err(s) => Err(s),
            Ok(u) => match rows_staged(plan, types, u, k) {
                Err(s) => Err(s),
                Ok(staged) => Ok(
                    Produced {
                        staged,
                        outputs: if plan.projection@.len() == 0 {
                            bare_columns(t.names)
                        } else {
                            output_names(plan.projection@)
                        },
                        names: u.names,
                    },
                ),
            },
        }
    }
}

/// What produced rows' result stands for.
pub open spec fn produced_outcome(r: Result<(StagedRows, Vec<String>, Vec<String>), Halt>) -> Result<
    Produced,
    Stop,
> {
    match r {
        Ok((staged, outputs, names)) => Ok(
            Produced { staged: staged@, outputs: texts(outputs@), names: texts(names@) },
        ),
        Err(h) => Err(h@),
    }
}

fn produce_rows(
    plan: &SelectPlan,
    total: usize,
    types: &Vec<String>,
    names: Vec<String>,
    rows: Vec<Vec<Value>>,
    facts: &Facts,
) -> (r: Result<(StagedRows, Vec<String>, Vec<String>), Halt>)
    requires
        total == plan.sort@.len() + plan.distinct_on@.len(),
    ensures
        produced_outcome(r) == produced_rows(
            *plan,
            texts(types@),
            Table { names: texts(names@), rows: rows_view(rows@) },
            facts@,
        ),
{
    if is_grouping(plan, total) {
        let sets = grouping_sets_of(plan);
        assert(crate::grouping::text_lists(sets@).len() == sets@.len());
        match stage_sets(plan, &sets, total, &names, &rows, facts) {
            Err(h) => Err(h),
            Ok(staged) => {
                let outputs = if plan.projection.len() == 0 {
                    clone_texts(&names)
                } else {
                    output_names_of(&plan.projection)
                };
                Ok((staged, outputs, names))
            },
        }
    } else {
        let outputs = if plan.projection.len() == 0 {
            unqualify_all(&names)
        } else {
            output_names_of(&plan.projection)
        };
        match compute_items(&plan.projection, names, rows, facts) {
            Err(h) => Err(h),
            Ok((all_names, all_rows)) => match stage_rows(
                plan,
                total,
                types,
                &all_names,
                &all_rows,
                facts,
            ) {
                Err(h) => Err(h),
                Ok(staged) => Ok((staged, outputs, all_names)),
            },
        }
    }
}

/// The query's output, from the rows that it produces.
pub open spec fn finished(
    plan: SelectPlan,
    types: Seq<Seq<char>>,
    lenient: bool,
    p: Produced,
    k: Known,
) -> Result<OutputView, Stop> {
    match arranged(plan.sort@, plan.distinct_on@, p.outputs, p.names, lenient, p.staged, k) {
        Err(s) => Err(s),
        Ok(sorted) => match if plan.distinct {
            distinct_rows(sorted, k)
        } else {
            Ok(sorted)
        } {
            Err(s) => Err(s),
            Ok(kept) => {
                let rows = sliced(kept, plan.offset, plan.limit);
                match output_types(plan.projection@, p.outputs.len(), p.names, types, rows, k) {
                    Err(s) => Err(s),
                    Ok(shown) => Ok(
                        OutputView {
                            columns: p.outputs,
                            types: shown,
                            rows,
                            tag: select_tag(rows.len()),
                        },
                    ),
                }
            },
        },
    }
}

fn finish(
    plan: &SelectPlan,
    types: Vec<String>,
    lenient: bool,
    staged: StagedRows,
    outputs: Vec<String>,
    names: Vec<String>,
    facts: &Facts,
) -> (r: Result<QueryOutput, Halt>)
    requires
        plan.sort@.len() + plan.distinct_on@.len() <= usize::MAX,
    ensures
        output_outcome(r) == finished(
            *plan,
            texts(types@),
            lenient,
            Produced { staged: staged@, outputs: texts(outputs@), names: texts(names@) },
            facts@,
        ),
{
    let sorted = match arrange_rows(
        &plan.sort,
        &plan.distinct_on,
        &outputs,
        &names,
        lenient,
        staged,
        facts,
    ) {
        Ok(rows) => rows,
        Err(h) => {
            return Err(h);
        },
    };
    let kept = if plan.distinct {
        match keep_distinct(&sorted, facts) {
            Ok(rows) => rows,
            Err(h) => {
                return Err(h);
            },
        }
    } else {
        sorted
    };
    let rows = slice_rows(&kept, plan.offset, plan.limit);
    let columns = ColumnTypes { names, types, suffixes: true };
    assert(texts(outputs@).len() == outputs@.len());
    match types_of_output(&plan.projection, outputs.len(), &columns, &rows, facts) {
        Err(h) => Err(h),
        Ok(shown) => {
            let tag = select_tag_text(rows.len());
            assert(rows_view(rows@).len() == rows@.len());
            Ok(QueryOutput { columns: outputs, types: shown, rows: as_rows(rows), tag })
        },
    }
}

/// The output of a query over its joined relations.
pub open spec fn selected(plan: SelectPlan, rel: Rel, lenient: bool, k: Known) -> Result<
    OutputView,
    Stop,
> {
    match names_checked(plan, rel, lenient, k) {
        Err(s) => Err(s),
        Ok(_) => match filtered(plan, rel, k) {
            Err(s) => Err(s),
            Ok(rows) => match with_group_exprs(
                plan.group_exprs@,
                plan.group_exprs@.len(),
                Table { names: rel.columns, rows },
                k,
            ) {
                Err(s) => Err(s),
                Ok(t) => match if lenient {
                    Ok(())
                } else {
                    group_columns_checked(
                        texts(plan.group_by@),
                        plan.group_by@.len(),
                        t.names,
                        k,
                    )
                } {
                    Err(s) => Err(s),
                    Ok(_) => match produced_rows(plan, rel.types, t, k) {
                        Err(s) => Err(s),
                        Ok(p) => finished(plan, rel.types, lenient, p, k),
                    },
                },
            },
        },
    }
}

/// Runs a query over its joined relations.
pub fn select_relation(plan: &SelectPlan, rel: Relation, lenient: bool, facts: &Facts) -> (r:
    Result<QueryOutput, Halt>)
    requires
        plan.sort@.len() + plan.distinct_on@.len() <= usize::MAX,
    ensures
        output_outcome(r) == selected(*plan, rel@, lenient, facts@),
{
    match check_names(plan, &rel, lenient, facts) {
        Err(h) => {
            return Err(h);
        },
        Ok(_) => {},
    }
    let rows = match filter_rows(plan, &rel, facts) {
        Ok(rows) => rows,
        Err(h) => {
            return Err(h);
        },
    };
    let (names, rows) = match add_group_exprs(&plan.group_exprs, rel.columns, rows, facts) {
        Ok(t) => t,
        Err(h) => {
            return Err(h);
        },
    };
    if !lenient {
        match check_group_columns(&plan.group_by, &names, facts) {
            Err(h) => {
                return Err(h);
            },
            Ok(_) => {},
        }
    }
    let total: usize = plan.sort.len() + plan.distinct_on.len();
    match produce_rows(plan, total, &rel.types, names, rows, facts) {
        Err(h) => Err(h),
        Ok((staged, outputs, all_names)) => finish(
            plan,
            rel.types,
            lenient,
            staged,
            outputs,
            all_names,
            facts,
        ),
    }
}

/// The answer about the encryption of the session's connection: it has none.
pub open spec fn ssl_status() -> OutputView {
    OutputView {
        columns: seq!["ssl"@],
        types: seq!["BOOL"@],
        rows: seq![seq![Val::Bool(false)]],
        tag: "SELECT 1"@,
    }
}

fn ssl_output() -> (r: QueryOutput)
    ensures
        output_view(r) == ssl_status(),
{
    let columns: Vec<String> = vec!["ssl".to_owned()];
    let types: Vec<String> = vec!["BOOL".to_owned()];
    let values: Vec<Value> = vec![Value::Bool(false)];
    assert(texts(columns@) =~= seq!["ssl"@]);
    assert(texts(types@) =~= seq!["BOOL"@]);
    assert(vals(values@) =~= seq![Val::Bool(false)]);
    let rows: Vec<Row> = vec![Row { values }];
    assert(row_views(rows@) =~= seq![seq![Val::Bool(false)]]);
    QueryOutput { columns, types, rows, tag: "SELECT 1".to_owned() }
}

/// The relations of a query joined in order, the first `n` of them.
pub open spec fn joins_upto(
    plan: SelectPlan,
    inputs: Seq<JoinInput>,
    n: nat,
    base: Joined,
    k: Known,
) -> Result<Joined, Stop>
    decreases n,
{
    if n == 0 {
        Ok(base)
    } else {
        match joins_upto(plan, inputs, (n - 1) as nat, base, k) {
            Err(s) => Err(s),
            Ok(state) => join_step(state, plan.joins@[n - 1], inputs[n - 1], k),
        }
    }
}

proof fn lemma_joins_fail(
    plan: SelectPlan,
    inputs: Seq<JoinInput>,
    n: nat,
    m: nat,
    base: Joined,
    k: Known,
)
    requires
        n <= m,
        joins_upto(plan, inputs, n, base, k) is Err,
    ensures
        joins_upto(plan, inputs, m, base, k) == joins_upto(plan, inputs, n, base, k),
    decreases m,
{
    if n < m {
        lemma_joins_fail(plan, inputs, n, (m - 1) as nat, base, k);
    }
}

/// The output of a query, from the relations that its FROM clause reads.
pub open spec fn select_output(
    plan: SelectPlan,
    base: Relation,
    is_virtual: bool,
    inputs: Seq<JoinInput>,
    k: Known,
) -> Result<OutputView, Stop> {
    if lower(plan.table_name@) == "pg_stat_ssl"@ {
        Ok(ssl_status())
    } else {
        let prefix = relation_name(plan.table_alias, plan.table_name);
        let first = sourced(prefix, base@.columns, base@.types, base@.rows);
        match joins_upto(
            plan,
            inputs,
            plan.joins@.len(),
            Joined { rel: first, lenient: is_virtual },
            k,
        ) {
            Err(s) => Err(s),
            Ok(state) => selected(plan, state.rel, state.lenient, k),
        }
    }
}

/// Runs a query on the relations that its FROM clause reads: the base table,
/// then for each join its input.
pub fn exec_select(
    plan: &SelectPlan,
    base: &Relation,
    is_virtual: bool,
    inputs: &Vec<JoinInput>,
    facts: &Facts,
) -> (r: Result<QueryOutput, Halt>)
    requires
        plan.sort@.len() + plan.distinct_on@.len() <= usize::MAX,
        inputs@.len() == plan.joins@.len(),
    ensures
        output_outcome(r) == select_output(*plan, *base, is_virtual, inputs@, facts@),
{
    let low = lower_text(plan.table_name.as_str());
    if same_text(low.as_str(), "pg_stat_ssl") {
        return Ok(ssl_output());
    }
    let prefix = name_of(&plan.table_alias, &plan.table_name);
    let mut rel = source_relation(prefix, base);
    let mut lenient: bool = is_virtual;
    let ghost first = Joined { rel: rel@, lenient: is_virtual };
    let mut i: usize = 0;
    while i < plan.joins.len()
        invariant
            i <= plan.joins@.len() == inputs@.len(),
            lower(plan.table_name@) != "pg_stat_ssl"@,
            first == (Joined {
                rel: sourced(
                    relation_name(plan.table_alias, plan.table_name),
                    base@.columns,
                    base@.types,
                    base@.rows,
                ),
                lenient: is_virtual,
            }),
            joins_upto(*plan, inputs@, i as nat, first, facts@) == Ok::<Joined, Stop>(
                Joined { rel: rel@, lenient },
            ),
        decreases plan.joins@.len() - i,
    {
        match join_next(rel, lenient, &plan.joins[i], &inputs[i], facts) {
            Err(h) => {
                proof {
                    lemma_joins_fail(
                        *plan,
                        inputs@,
                        (i + 1) as nat,
                        plan.joins@.len(),
                        first,
                        facts@,
                    );
                }
                return Err(h);
            },
            Ok((next, flag)) => {
                rel = next;
                lenient = flag;
            },
        }
        i = i + 1;
    }
    select_relation(plan, rel, lenient, facts)
}

} // verus!
