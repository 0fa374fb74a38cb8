//! Streaming execution: producing a query's rows one at a time instead of
//! materializing them all up front.
//!
//! Only a *plain single-table scan* streams (`SELECT [*|cols] FROM t [WHERE ..]
//! [LIMIT/OFFSET]` with a column-only projection and no join, grouping,
//! ordering, DISTINCT, HAVING, or CTE), because every other operator needs the
//! full input buffered anyway.
use vstd::prelude::*;
use crate::arrange::sliced;
use crate::cells::{cell, cells, is_true, passing, pick_cells};
use crate::facts::{Known, Stop};
use crate::join::{
    all_true, condition_verdicts, name_of, padded_types, prefix_names, prefixed, relation_name,
    sourced, Rel, Relation,
};
use crate::names::{column_of, find_column, lemma_column_of, unqualified, unqualify};
use crate::plan_types::{ProjectionItem, SelectPlan};
use crate::projection::{
    column_cells, cut_rows, is_computed, item_column, item_columns, lemma_relation_rows_of_part,
    output_name, output_names,
    projected, rows_of_columns, with_column, with_computed, Table,
};
use crate::rows::QueryOutput;
use crate::select::{
    bare_columns, filtered, groups_rows, item_aggregates, needs_all_rows, output_types,
    output_view, scan_limit, select_output, selected, shown_type, with_group_exprs, JoinInput,
    OutputView,
};
use crate::set_ops::{select_tag, select_tag_text};
use crate::subqueries::{nested, row_values};
use crate::storage_keys::{has_pending_writes, in_table};
use crate::text::{clone_texts, lemma_split_nonempty, lower, texts};
use crate::value::{clone_values, vals, Val, Value};
use crate::window::reference_positions;

verus! {

/// Whether an item is a plain column.
pub open spec fn is_column(item: ProjectionItem) -> bool {
    item is Column || item is AliasedColumn
}

/// Whether a query is a plain scan of one table, so that its rows can be sent
/// as they are read.
pub open spec fn streamable(plan: SelectPlan) -> bool {
    &&& plan.ctes@.len() == 0
    &&& plan.joins@.len() == 0
    &&& plan.group_by@.len() == 0
    &&& plan.grouping_sets is None
    &&& plan.group_exprs@.len() == 0
    &&& plan.having is None
    &&& plan.order_by@.len() == 0
    &&& plan.sort@.len() == 0
    &&& plan.distinct_on@.len() == 0
    &&& !plan.distinct
    &&& forall|i: int| 0 <= i < plan.projection@.len() ==> is_column(#[trigger] plan.projection@[i])
}

/// Whether a query is a plain scan of one table.
pub fn is_streamable(plan: &SelectPlan) -> (r: bool)
    ensures
        r == streamable(*plan),
{
    let having: bool = match &plan.having {
        Some(_) => true,
        None => false,
    };
    let sets: bool = match &plan.grouping_sets {
        Some(_) => true,
        None => false,
    };
    if plan.ctes.len() != 0 || plan.joins.len() != 0 || plan.group_by.len() != 0 || sets
        || plan.group_exprs.len() != 0 || having || plan.order_by.len() != 0 || plan.sort.len() != 0 || plan.distinct_on.len() != 0
        || plan.distinct {
        return false;
    }
    let mut i: usize = 0;
    while i < plan.projection.len()
        invariant
            i <= plan.projection@.len(),
            forall|j: int| 0 <= j < i ==> is_column(#[trigger] plan.projection@[j]),
        decreases plan.projection@.len() - i,
    {
        let plain: bool = match &plan.projection[i] {
            ProjectionItem::Column(_) | ProjectionItem::AliasedColumn(_, _) => true,
            _ => false,
        };
        if !plain {
            assert(!is_column(plan.projection@[i as int]));
            return false;
        }
        i = i + 1;
    }
    true
}

/// The shape of a streamed result: its columns, their types, and the table's
/// columns that they read.
#[verifier::ext_equal]
pub struct Shape {
    pub columns: Seq<Seq<char>>,
    pub types: Seq<Seq<char>>,
    pub at: Seq<usize>,
}

/// The shape of a streamed result.
pub struct StreamShape {
    pub columns: Vec<String>,
    pub types: Vec<String>,
    pub at: Vec<usize>,
}

impl View for StreamShape {
    type V = Shape;

    open spec fn view(&self) -> Shape {
        Shape { columns: texts(self.columns@), types: texts(self.types@), at: self.at@ }
    }
}

/// The column that an item reads.
pub open spec fn column_read(item: ProjectionItem) -> Seq<char> {
    match item {
        ProjectionItem::Column(c) => c@,
        ProjectionItem::AliasedColumn(c, _) => c@,
        _ => Seq::empty(),
    }
}

/// The shape of the first `n` items; `None` when one is not a column of the
/// table.
pub open spec fn items_shape(
    items: Seq<ProjectionItem>,
    n: nat,
    names: Seq<Seq<char>>,
    types: Seq<Seq<char>>,
) -> Option<Shape>
    decreases n,
{
    if n == 0 {
        Some(Shape { columns: Seq::empty(), types: Seq::empty(), at: Seq::empty() })
    } else {
        match items_shape(items, (n - 1) as nat, names, types) {
            None => None,
            Some(s) => if !is_column(items[n - 1]) {
                None
            } else {
                match column_of(names, column_read(items[n - 1])) {
                    None => None,
                    Some(i) => Some(
                        Shape {
                            columns: s.columns.push(output_name(items[n - 1])),
                            types: s.types.push(
                                if i < types.len() {
                                    types[i]
                                } else {
                                    "VARCHAR"@
                                },
                            ),
                            at: s.at.push(i as usize),
                        },
                    ),
                }
            },
        }
    }
}

/// The shape of a streamed result: every column of the table for an empty
/// SELECT list.
pub open spec fn stream_shape(
    items: Seq<ProjectionItem>,
    prefix: Seq<char>,
    columns: Seq<Seq<char>>,
    types: Seq<Seq<char>>,
) -> Option<Shape> {
    if items.len() == 0 {
        Some(
            Shape {
                columns,
                types,
                at: Seq::new(columns.len(), |i: int| i as usize),
            },
        )
    } else {
        items_shape(items, items.len(), prefixed(prefix, columns), types)
    }
}

proof fn lemma_shape_fails(
    items: Seq<ProjectionItem>,
    n: nat,
    m: nat,
    names: Seq<Seq<char>>,
    types: Seq<Seq<char>>,
)
    requires
        n <= m,
        items_shape(items, n, names, types) is None,
    ensures
        items_shape(items, m, names, types) is None,
    decreases m,
{
    if n < m {
        lemma_shape_fails(items, n, (m - 1) as nat, names, types);
    }
}

/// Resolves a streamed result's columns, types, and source positions up front,
/// so that its shape is known before any row is read. `None` when a column
/// cannot be resolved.
pub fn resolve_shape(
    items: &Vec<ProjectionItem>,
    prefix: &str,
    columns: &Vec<String>,
    types: &Vec<String>,
) -> (r: Option<StreamShape>)
    ensures
        match (
            r,
            stream_shape(items@, prefix@, texts(columns@), texts(types@)),
        ) {
            (Some(a), Some(b)) => a@ == b,
            (None, None) => true,
            _ => false,
        },
{
    if items.len() == 0 {
        let mut at: Vec<usize> = Vec::new();
        let mut i: usize = 0;
        while i < columns.len()
            invariant
                i <= columns@.len(),
                at@.len() == i,
                forall|j: int| 0 <= j < i ==> at@[j] == j as usize,
            decreases columns@.len() - i,
        {
            at.push(i);
            i = i + 1;
        }
        assert(at@ =~= Seq::new(texts(columns@).len(), |i: int| i as usize));
        return Some(
            StreamShape { columns: clone_texts(columns), types: clone_texts(types), at },
        );
    }
    let names = prefix_names(prefix, columns);
    let ghost (c, t) = (texts(names@), texts(types@));
    let mut out_columns: Vec<String> = Vec::new();
    let mut out_types: Vec<String> = Vec::new();
    let mut at: Vec<usize> = Vec::new();
    let mut i: usize = 0;
    assert(texts(out_columns@) =~= Seq::<Seq<char>>::empty());
    assert(texts(out_types@) =~= Seq::<Seq<char>>::empty());
    assert(at@ =~= Seq::<usize>::empty());
    while i < items.len()
        invariant
            i <= items@.len(),
            items@.len() > 0,
            c == texts(names@),
            c == prefixed(prefix@, texts(columns@)),
            t == texts(types@),
            items_shape(items@, i as nat, c, t) == Some(
                Shape { columns: texts(out_columns@), types: texts(out_types@), at: at@ },
            ),
        decreases items@.len() - i,
    {
        proof {
            if items_shape(items@, (i + 1) as nat, c, t) is None {
                lemma_shape_fails(items@, (i + 1) as nat, items@.len(), c, t);
            }
        }
        let (source, name): (&str, String) = match &items[i] {
            ProjectionItem::Column(s) => (s.as_str(), unqualify(s.as_str())),
            ProjectionItem::AliasedColumn(s, a) => (s.as_str(), a.clone()),
            _ => {
                return None;
            },
        };
        match find_column(&names, source) {
            None => {
                return None;
            },
            Some(p) => {
                let ghost before = (out_columns@, out_types@, at@);
                out_columns.push(name);
                let ty = if p < types.len() {
                    types[p].clone()
                } else {
                    "VARCHAR".to_owned()
                };
                out_types.push(ty);
                at.push(p);
                assert(texts(out_columns@) =~= texts(before.0).push(output_name(items@[i as int])));
                assert(texts(out_types@) =~= texts(before.1).push(ty@));
            },
        }
        i = i + 1;
    }
    Some(StreamShape { columns: out_columns, types: out_types, at })
}

// ---------------------------------------------------------------------------
// Row by row
// ---------------------------------------------------------------------------

/// The shape under which a query over a stored table is streamed; `None` where
/// the whole query is run instead: when it is no plain scan, when the table is
/// computed or a view, when an item is no column of it, and when the session
/// has uncommitted rows in it.
pub open spec fn streamed_shape(
    plan: SelectPlan,
    columns: Seq<Seq<char>>,
    types: Seq<Seq<char>>,
    is_virtual: bool,
    is_view: bool,
    pending: bool,
) -> Option<Shape> {
    if !streamable(plan) || is_virtual || is_view || pending {
        None
    } else {
        stream_shape(
            plan.projection@,
            relation_name(plan.table_alias, plan.table_name),
            columns,
            types,
        )
    }
}

/// The shape under which a query is streamed. `keys` are the session's
/// uncommitted keys, and `id` is the table's identifier.
pub fn plan_stream(
    plan: &SelectPlan,
    columns: &Vec<String>,
    types: &Vec<String>,
    is_virtual: bool,
    is_view: bool,
    keys: &Vec<String>,
    id: &str,
) -> (r: Option<StreamShape>)
    ensures
        match (
            r,
            streamed_shape(
                *plan,
                texts(columns@),
                texts(types@),
                is_virtual,
                is_view,
                exists|i: int| 0 <= i < keys@.len() && in_table(#[trigger] texts(keys@)[i], id@),
            ),
        ) {
            (Some(a), Some(b)) => a@ == b,
            (None, None) => true,
            _ => false,
        },
{
    if !is_streamable(plan) || is_virtual || is_view || has_pending_writes(keys, id) {
        return None;
    }
    let prefix = name_of(&plan.table_alias, &plan.table_name);
    resolve_shape(&plan.projection, prefix, columns, types)
}

/// How far a streamed scan has come.
#[derive(Debug, Clone, Copy, PartialEq, Eq, Structural)]
pub struct StreamState {
    /// Rows still to be skipped.
    pub to_skip: usize,
    /// Rows sent so far.
    pub produced: usize,
    pub limit: Option<usize>,
}

/// The state before the first row.
pub open spec fn first_state(offset: Option<usize>, limit: Option<usize>) -> StreamState {
    StreamState {
        to_skip: match offset {
            Some(o) => o,
            None => 0,
        },
        produced: 0,
        limit,
    }
}

impl StreamState {
    /// The state before the first row.
    pub fn new(offset: Option<usize>, limit: Option<usize>) -> (r: StreamState)
        ensures
            r == first_state(offset, limit),
    {
        StreamState {
            to_skip: match offset {
                Some(o) => o,
                None => 0,
            },
            produced: 0,
            limit,
        }
    }

    /// Whether the scan is to read another row.
    pub open spec fn wants_more(self) -> bool {
        match self.limit {
            Some(n) => self.produced < n,
            None => true,
        }
    }

    /// Whether the scan is to read another row.
    pub fn reads_on(&self) -> (r: bool)
        ensures
            r == self.wants_more(),
    {
        match self.limit {
            Some(n) => self.produced < n,
            None => true,
        }
    }

    /// Whether a row that the filter keeps or drops is sent.
    pub open spec fn sends(self, keep: bool) -> bool {
        keep && self.to_skip == 0
    }

    /// The state after a row that the filter keeps or drops.
    pub open spec fn offered(self, keep: bool) -> StreamState {
        StreamState {
            to_skip: if keep && self.to_skip > 0 {
                (self.to_skip - 1) as usize
            } else {
                self.to_skip
            },
            produced: if self.sends(keep) {
                (self.produced + 1) as usize
            } else {
                self.produced
            },
            limit: self.limit,
        }
    }

    /// Takes a row that the filter keeps or drops, and says whether it is to
    /// be sent.
    pub fn offer(&mut self, keep: bool) -> (sent: bool)
        requires
            old(self).produced < usize::MAX,
        ensures
            sent == old(self).sends(keep),
            *final(self) == old(self).offered(keep),
    {
        if !keep {
            return false;
        }
        if self.to_skip > 0 {
            self.to_skip = self.to_skip - 1;
            return false;
        }
        self.produced = self.produced + 1;
        true
    }
}

// ---------------------------------------------------------------------------
// What the sink is told
// ---------------------------------------------------------------------------

/// A call on the sink that receives a query's rows.
#[derive(Debug, PartialEq)]
pub enum SinkCall {
    Schema { columns: Vec<String>, types: Vec<String> },
    Row(Vec<Value>),
}

/// What a [`SinkCall`] stands for.
#[verifier::ext_equal]
pub enum Told {
    Schema(Seq<Seq<char>>, Seq<Seq<char>>),
    Row(Seq<Val>),
}

impl View for SinkCall {
    type V = Told;

    open spec fn view(&self) -> Told {
        match *self {
            SinkCall::Schema { columns, types } => Told::Schema(texts(columns@), texts(types@)),
            SinkCall::Row(values) => Told::Row(vals(values@)),
        }
    }
}

/// What each call stands for.
pub open spec fn calls_told(s: Seq<SinkCall>) -> Seq<Told> {
    Seq::new(s.len(), |i: int| s[i]@)
}

/// One call for each row.
pub open spec fn rows_told(rows: Seq<Seq<Val>>) -> Seq<Told> {
    Seq::new(rows.len(), |i: int| Told::Row(rows[i]))
}

/// What a sink is told of a result: its schema, then its rows in order.
pub open spec fn output_told(out: OutputView) -> Seq<Told> {
    seq![Told::Schema(out.columns, out.types)] + rows_told(out.rows)
}

/// The calls that hand a result to a sink, and its tag.
pub fn send_output(out: QueryOutput) -> (r: (Vec<SinkCall>, String))
    ensures
        calls_told(r.0@) == output_told(output_view(out)),
        r.1@ == output_view(out).tag,
{
    let ghost whole = output_view(out);
    let mut calls: Vec<SinkCall> = vec![
        SinkCall::Schema { columns: clone_texts(&out.columns), types: clone_texts(&out.types) },
    ];
    let mut i: usize = 0;
    while i < out.rows.len()
        invariant
            i <= out.rows@.len(),
            whole == output_view(out),
            calls@.len() == i + 1,
            calls@[0]@ == Told::Schema(whole.columns, whole.types),
            forall|j: int|
                1 <= j < calls@.len() ==> (#[trigger] calls@[j])@ == Told::Row(whole.rows[j - 1]),
        decreases out.rows@.len() - i,
    {
        assert(whole.rows[i as int] == out.rows@[i as int]@);
        calls.push(SinkCall::Row(clone_values(&out.rows[i].values)));
        i = i + 1;
    }
    assert(calls_told(calls@) =~= output_told(whole));
    (calls, out.tag)
}

/// A scan whose rows are sent as they are read.
pub struct RunningScan {
    /// The table's columns that a row sent holds.
    pub at: Vec<usize>,
    pub state: StreamState,
}

impl RunningScan {
    /// Takes the next row of the table, and says what the sink is told of it.
    pub fn take_row(&mut self, row: &Vec<Value>, keep: bool) -> (r: Option<SinkCall>)
        requires
            old(self).state.produced < usize::MAX,
        ensures
            final(self).at@ == old(self).at@,
            final(self).state == old(self).state.offered(keep),
            match r {
                Some(call) => old(self).state.sends(keep) && call@ == Told::Row(
                    cells(vals(row@), old(self).at@),
                ),
                None => !old(self).state.sends(keep),
            },
    {
        let sent = self.state.offer(keep);
        if sent {
            Some(SinkCall::Row(pick_cells(row, &self.at)))
        } else {
            None
        }
    }

    /// The tag of the rows sent.
    pub fn tag(&self) -> (r: String)
        ensures
            r@ == select_tag(self.state.produced as nat),
    {
        select_tag_text(self.state.produced)
    }
}

/// Begins to stream a query: the call that the sink gets first, and the scan.
/// `None` where the whole query is run instead. `keys` are the session's
/// uncommitted keys, and `id` is the table's identifier.
pub fn begin_stream(
    plan: &SelectPlan,
    columns: &Vec<String>,
    types: &Vec<String>,
    is_virtual: bool,
    is_view: bool,
    keys: &Vec<String>,
    id: &str,
) -> (r: Option<(SinkCall, RunningScan)>)
    ensures
        match (
            r,
            streamed_shape(
                *plan,
                texts(columns@),
                texts(types@),
                is_virtual,
                is_view,
                exists|i: int| 0 <= i < keys@.len() && in_table(#[trigger] texts(keys@)[i], id@),
            ),
        ) {
            (Some((call, scan)), Some(shape)) => call@ == Told::Schema(shape.columns, shape.types)
                && scan.at@ == shape.at && scan.state == first_state(plan.offset, plan.limit),
            (None, None) => true,
            _ => false,
        },
{
    match plan_stream(plan, columns, types, is_virtual, is_view, keys, id) {
        None => None,
        Some(shape) => {
            assert(shape@.at == shape.at@);
            Some(
                (
                    SinkCall::Schema { columns: shape.columns, types: shape.types },
                    RunningScan { at: shape.at, state: StreamState::new(plan.offset, plan.limit) },
                ),
            )
        },
    }
}

/// What a scan tells the sink of a table's rows from the `i`-th on, given the
/// filter's verdict on each, and its state then. It reads on until it has sent
/// as many rows as it may.
pub open spec fn scan_told(
    state: StreamState,
    at: Seq<usize>,
    rows: Seq<Seq<Val>>,
    verdicts: Seq<Val>,
    i: int,
) -> (Seq<Told>, StreamState)
    decreases rows.len() - i,
{
    if i < 0 || i >= rows.len() || !state.wants_more() {
        (Seq::empty(), state)
    } else {
        let keep = is_true(cell(verdicts, i));
        let rest = scan_told(state.offered(keep), at, rows, verdicts, i + 1);
        (
            if state.sends(keep) {
                seq![Told::Row(cells(rows[i], at))] + rest.0
            } else {
                rest.0
            },
            rest.1,
        )
    }
}

/// All that a sink is told of a query over a table, and the tag returned:
/// streamed where it can be, else from the output of the whole query.
pub open spec fn stream_told(
    plan: SelectPlan,
    base: Rel,
    is_virtual: bool,
    is_view: bool,
    pending: bool,
    verdicts: Seq<Val>,
    full: OutputView,
) -> (Seq<Told>, Seq<char>) {
    match streamed_shape(plan, base.columns, base.types, is_virtual, is_view, pending) {
        None => (output_told(full), full.tag),
        Some(shape) => {
            let scan = scan_told(
                first_state(plan.offset, plan.limit),
                shape.at,
                base.rows,
                verdicts,
                0,
            );
            (
                seq![Told::Schema(shape.columns, shape.types)] + scan.0,
                select_tag(scan.1.produced as nat),
            )
        },
    }
}

/// What is sent of a scan's rows, given the filter's verdict on each: from the
/// kept rows those that OFFSET and LIMIT leave, cut to the columns read.
pub open spec fn streamed(
    rows: Seq<Seq<Val>>,
    verdicts: Seq<Val>,
    at: Seq<usize>,
    offset: Option<usize>,
    limit: Option<usize>,
) -> Seq<Seq<Val>> {
    let kept = sliced(passing(rows, verdicts), offset, limit);
    Seq::new(kept.len(), |i: int| cells(kept[i], at))
}

proof fn lemma_passing_grows(rows: Seq<Seq<Val>>, verdicts: Seq<Val>, n: int)
    requires
        0 <= n <= rows.len(),
    ensures
        passing(rows.take(n), verdicts).len() <= passing(rows, verdicts).len(),
        passing(rows, verdicts).take(passing(rows.take(n), verdicts).len() as int) == passing(
            rows.take(n),
            verdicts,
        ),
        passing(rows.take(n), verdicts).len() <= n,
    decreases rows.len(),
{
    if n < rows.len() {
        lemma_passing_grows(rows.drop_last(), verdicts, n);
        assert(rows.drop_last().take(n) =~= rows.take(n));
        let all = passing(rows, verdicts);
        let part = passing(rows.take(n), verdicts);
        assert(all.take(part.len() as int) =~= part);
    } else {
        assert(rows.take(n) =~= rows);
        assert(passing(rows, verdicts).take(passing(rows, verdicts).len() as int) =~= passing(
            rows,
            verdicts,
        ));
        if n > 0 {
            lemma_passing_grows(rows.drop_last(), verdicts, n - 1);
            assert(rows.drop_last().take(n - 1) =~= rows.drop_last());
        }
    }
}

proof fn lemma_scan_told(
    rows: Seq<Seq<Val>>,
    verdicts: Seq<Val>,
    at: Seq<usize>,
    offset: Option<usize>,
    limit: Option<usize>,
    state: StreamState,
    i: int,
)
    requires
        0 <= i <= rows.len() <= usize::MAX,
        state.limit == limit,
        state.produced <= i,
        state.to_skip <= first_state(offset, limit).to_skip,
        state.to_skip > 0 ==> state.produced == 0,
        limit is Some ==> state.produced <= limit->Some_0,
        passing(rows.take(i), verdicts).len() == (first_state(offset, limit).to_skip
            - state.to_skip) + state.produced,
    ensures
        ({
            let sent = rows_told(streamed(rows, verdicts, at, offset, limit));
            let scan = scan_told(state, at, rows, verdicts, i);
            &&& state.produced <= sent.len()
            &&& scan.0 == sent.skip(state.produced as int)
            &&& scan.1.produced == sent.len()
        }),
    decreases rows.len() - i,
{
    let kept = passing(rows, verdicts);
    let start = first_state(offset, limit).to_skip as int;
    let sent = rows_told(streamed(rows, verdicts, at, offset, limit));
    let scan = scan_told(state, at, rows, verdicts, i);
    lemma_passing_grows(rows, verdicts, i);
    if i >= rows.len() || !state.wants_more() {
        if i == rows.len() {
            assert(rows.take(i) =~= rows);
        }
        assert(sent.skip(state.produced as int) =~= Seq::<Told>::empty());
    } else {
        let keep = is_true(cell(verdicts, i));
        let n = passing(rows.take(i), verdicts).len();
        assert(rows.take(i + 1).drop_last() =~= rows.take(i));
        assert(rows.take(i + 1).last() == rows[i]);
        lemma_passing_grows(rows, verdicts, i + 1);
        lemma_scan_told(rows, verdicts, at, offset, limit, state.offered(keep), i + 1);
        if state.sends(keep) {
            let part = passing(rows.take(i + 1), verdicts);
            assert(part == passing(rows.take(i), verdicts).push(rows[i]));
            assert(kept.take(part.len() as int)[n as int] == kept[n as int]);
            assert(kept[n as int] == rows[i]);
            assert(sent[state.produced as int] == Told::Row(cells(rows[i], at)));
            assert(sent.skip(state.produced as int) =~= seq![sent[state.produced as int]]
                + sent.skip(state.produced + 1));
        }
    }
}

// ---------------------------------------------------------------------------
// Streaming gives the same rows
// ---------------------------------------------------------------------------

/// Rows cut to the columns read.
pub open spec fn cut_to(rows: Seq<Seq<Val>>, at: Seq<usize>) -> Seq<Seq<Val>> {
    Seq::new(rows.len(), |i: int| cells(rows[i], at))
}

proof fn lemma_nothing_computed(items: Seq<ProjectionItem>, n: nat, t: Table, k: Known)
    requires
        n <= items.len(),
        forall|i: int| 0 <= i < items.len() ==> !is_computed(#[trigger] items[i]),
    ensures
        with_computed(items, n, t, k) == Ok::<Table, Stop>(t),
    decreases n,
{
    if n > 0 {
        lemma_nothing_computed(items, (n - 1) as nat, t, k);
        assert(!is_computed(items[n - 1]));
    }
}

proof fn lemma_shape_columns(
    items: Seq<ProjectionItem>,
    n: nat,
    shown: Seq<Seq<char>>,
    t: Table,
    types: Seq<Seq<char>>,
    k: Known,
)
    requires
        n <= items.len(),
        t.names.len() <= usize::MAX,
        items_shape(items, n, t.names, types) is Some,
    ensures
        ({
            let at = items_shape(items, n, t.names, types)->Some_0.at;
            let columns = item_columns(items, n, shown, t, k);
            &&& at.len() == n
            &&& columns is Ok
            &&& columns->Ok_0.len() == n
            &&& forall|c: int|
                0 <= c < n ==> #[trigger] columns->Ok_0[c] == column_cells(
                    t.rows,
                    Some(at[c] as int),
                )
        }),
    decreases n,
{
    if n > 0 {
        lemma_shape_columns(items, (n - 1) as nat, shown, t, types, k);
        let item = items[n - 1];
        assert(is_column(item));
        lemma_column_of(t.names, column_read(item));
        assert(item_column(item, (n - 1) as nat, shown, t, k) == Ok::<Seq<Val>, Stop>(
            column_cells(t.rows, column_of(t.names, column_read(item))),
        ));
    }
}

proof fn lemma_projected_columns(
    items: Seq<ProjectionItem>,
    shown: Seq<Seq<char>>,
    t: Table,
    types: Seq<Seq<char>>,
    at: Seq<usize>,
    k: Known,
)
    requires
        t.names.len() <= usize::MAX,
        items.len() == 0 ==> at == Seq::new(t.names.len(), |i: int| i as usize),
        items.len() > 0 ==> items_shape(items, items.len(), t.names, types) is Some && at
            == items_shape(items, items.len(), t.names, types)->Some_0.at,
    ensures
        projected(items, shown, t, k) == Ok::<Seq<Seq<Val>>, Stop>(cut_to(t.rows, at)),
{
    if items.len() == 0 {
        let cut = cut_rows(t.rows, t.names.len());
        assert forall|r: int| 0 <= r < t.rows.len() implies cut[r] == cut_to(t.rows, at)[r] by {
            assert(cut[r] =~= cells(t.rows[r], at));
        }
        assert(cut =~= cut_to(t.rows, at));
    } else {
        lemma_shape_columns(items, items.len(), shown, t, types, k);
        let columns = item_columns(items, items.len(), shown, t, k)->Ok_0;
        let made = rows_of_columns(columns, t.rows.len());
        assert forall|r: int| 0 <= r < t.rows.len() implies made[r] == cut_to(t.rows, at)[r] by {
            assert forall|c: int| 0 <= c < columns.len() implies made[r][c] == cells(
                t.rows[r],
                at,
            )[c] by {
                assert(columns[c] == column_cells(t.rows, Some(at[c] as int)));
            }
            assert(made[r] =~= cells(t.rows[r], at));
        }
        assert(made =~= cut_to(t.rows, at));
    }
}

proof fn lemma_streamed_rows(
    plan: SelectPlan,
    prefix: Seq<char>,
    columns: Seq<Seq<char>>,
    types: Seq<Seq<char>>,
    rows: Seq<Seq<Val>>,
    marks: Seq<Val>,
    k: Known,
)
    requires
        streamable(plan),
        columns.len() <= usize::MAX,
        stream_shape(plan.projection@, prefix, columns, types) is Some,
        plan.limit != Some(0usize) ==> condition_verdicts(
            plan.filter,
            prefixed(prefix, columns),
            sourced(prefix, columns, types, rows).types,
            rows,
            k,
        ) == Ok::<Seq<Val>, Stop>(marks),
        selected(plan, sourced(prefix, columns, types, rows), false, k) is Ok,
    ensures
        selected(plan, sourced(prefix, columns, types, rows), false, k)->Ok_0.rows == streamed(
            rows,
            marks,
            stream_shape(plan.projection@, prefix, columns, types)->Some_0.at,
            plan.offset,
            plan.limit,
        ),
{
    let rel = sourced(prefix, columns, types, rows);
    let items = plan.projection@;
    let at = stream_shape(items, prefix, columns, types)->Some_0.at;
    let kept = filtered(plan, rel, k)->Ok_0;
    let t = Table { names: rel.columns, rows: kept };
    assert forall|i: int| 0 <= i < items.len() implies !item_aggregates(#[trigger] items[i])
        && !is_computed(items[i]) by {
        assert(is_column(items[i]));
    }
    assert(!groups_rows(plan));
    lemma_nothing_computed(items, items.len(), t, k);
    lemma_projected_columns(items, rel.types, t, types, at, k);
    let full = passing(rows, marks);
    let out = selected(plan, rel, false, k)->Ok_0.rows;
    assert(out == sliced(cut_to(kept, at), plan.offset, plan.limit));
    if plan.limit == Some(0usize) {
        assert(out =~= streamed(rows, marks, at, plan.offset, plan.limit));
    } else {
        assert(kept == full);
        assert(out =~= streamed(rows, marks, at, plan.offset, plan.limit));
    }
}

proof fn lemma_shape_is_the_schema(
    items: Seq<ProjectionItem>,
    n: nat,
    names: Seq<Seq<char>>,
    types: Seq<Seq<char>>,
    rows: Seq<Seq<Val>>,
    k: Known,
)
    requires
        n <= items.len(),
        items_shape(items, n, names, types) is Some,
    ensures
        items_shape(items, n, names, types)->Some_0.columns == output_names(items).take(n as int),
        output_types(items, n, names, padded_types(types, names.len()), rows, k) == Ok::<
            Seq<Seq<char>>,
            Stop,
        >(items_shape(items, n, names, types)->Some_0.types),
    decreases n,
{
    if n > 0 {
        lemma_shape_is_the_schema(items, (n - 1) as nat, names, types, rows, k);
        let item = items[n - 1];
        assert(is_column(item));
        lemma_column_of(names, column_read(item));
        assert(output_names(items).take(n as int) =~= output_names(items).take(n - 1).push(
            output_name(item),
        ));
    } else {
        assert(output_names(items).take(0) =~= Seq::<Seq<char>>::empty());
    }
}

proof fn lemma_plain_types(
    n: nat,
    names: Seq<Seq<char>>,
    types: Seq<Seq<char>>,
    rows: Seq<Seq<Val>>,
    k: Known,
)
    requires
        n <= types.len(),
        forall|i: int|
            0 <= i < types.len() && #[trigger] types[i] == "VARCHAR"@ && rows.len() > 0 && i
                < rows[0].len() ==> shown_type(rows[0][i]) == "VARCHAR"@,
    ensures
        output_types(Seq::empty(), n, names, types, rows, k) == Ok::<Seq<Seq<char>>, Stop>(
            types.take(n as int),
        ),
    decreases n,
{
    if n > 0 {
        lemma_plain_types((n - 1) as nat, names, types, rows, k);
        assert(types.take(n as int) =~= types.take(n - 1).push(types[n - 1]));
    } else {
        assert(types.take(0) =~= Seq::<Seq<char>>::empty());
    }
}

proof fn lemma_unqualified(prefix: Seq<char>, column: Seq<char>)
    requires
        !column.contains('.'),
    ensures
        unqualified(prefix + "."@ + column) == column,
    decreases column.len(),
{
    reveal_strlit(".");
    let whole = prefix + "."@ + column;
    lemma_split_nonempty(whole.drop_last(), '.');
    if column.len() == 0 {
        assert(whole.last() == '.');
        assert(unqualified(whole) =~= column);
    } else {
        let shorter = column.drop_last();
        assert(!shorter.contains('.')) by {
            if shorter.contains('.') {
                let i = choose|i: int| 0 <= i < shorter.len() && shorter[i] == '.';
                assert(column[i] == '.');
            }
        }
        lemma_unqualified(prefix, shorter);
        assert(whole.drop_last() =~= prefix + "."@ + shorter);
        assert(column.contains(column.last()));
        assert(whole.last() == column.last());
        assert(unqualified(whole) =~= shorter.push(column.last()));
        assert(shorter.push(column.last()) =~= column);
    }
}

proof fn lemma_streamed_schema(
    plan: SelectPlan,
    prefix: Seq<char>,
    columns: Seq<Seq<char>>,
    types: Seq<Seq<char>>,
    rows: Seq<Seq<Val>>,
    k: Known,
)
    requires
        streamable(plan),
        columns.len() <= usize::MAX,
        types.len() == columns.len(),
        stream_shape(plan.projection@, prefix, columns, types) is Some,
        selected(plan, sourced(prefix, columns, types, rows), false, k) is Ok,
        plan.projection@.len() == 0 ==> forall|i: int|
            0 <= i < columns.len() ==> !(#[trigger] columns[i]).contains('.'),
        plan.projection@.len() == 0 ==> ({
            let sent = selected(plan, sourced(prefix, columns, types, rows), false, k)->Ok_0.rows;
            forall|i: int|
                0 <= i < types.len() && #[trigger] types[i] == "VARCHAR"@ && sent.len() > 0 && i
                    < sent[0].len() ==> shown_type(sent[0][i]) == "VARCHAR"@
        }),
    ensures
        ({
            let out = selected(plan, sourced(prefix, columns, types, rows), false, k)->Ok_0;
            let shape = stream_shape(plan.projection@, prefix, columns, types)->Some_0;
            &&& out.columns == shape.columns
            &&& out.types == shape.types
            &&& out.tag == select_tag(out.rows.len())
        }),
{
    let rel = sourced(prefix, columns, types, rows);
    let items = plan.projection@;
    let at = stream_shape(items, prefix, columns, types)->Some_0.at;
    let kept = filtered(plan, rel, k)->Ok_0;
    let t = Table { names: rel.columns, rows: kept };
    assert forall|i: int| 0 <= i < items.len() implies !item_aggregates(#[trigger] items[i])
        && !is_computed(items[i]) by {
        assert(is_column(items[i]));
    }
    assert(!groups_rows(plan));
    lemma_nothing_computed(items, items.len(), t, k);
    let out = selected(plan, rel, false, k)->Ok_0;
    assert(padded_types(types, columns.len()) =~= types);
    if items.len() == 0 {
        assert forall|i: int| 0 <= i < columns.len() implies #[trigger] bare_columns(
            rel.columns,
        )[i] == columns[i] by {
            lemma_unqualified(prefix, columns[i]);
        }
        assert(bare_columns(rel.columns) =~= columns);
        assert(items =~= Seq::<ProjectionItem>::empty());
        lemma_plain_types(columns.len(), rel.columns, types, out.rows, k);
        assert(types.take(columns.len() as int) =~= types);
    } else {
        lemma_shape_is_the_schema(items, items.len(), rel.columns, types, out.rows, k);
        assert(output_names(items).take(items.len() as int) =~= output_names(items));
    }
}

/// Streaming a query tells the sink its output, whether it is streamed or run
/// first: the schema once before any row, then every row once and in order,
/// and the tag of the output is returned. `SELECT *` is streamed under the
/// stored names and types, which are those of the output only where no column
/// name holds a dot, and where the first row has texts in the columns declared
/// `VARCHAR`.
pub proof fn law_streaming_tells_the_output(
    plan: SelectPlan,
    base: Relation,
    is_virtual: bool,
    is_view: bool,
    pending: bool,
    inputs: Seq<JoinInput>,
    verdicts: Seq<Val>,
    k: Known,
)
    requires
        base@.types.len() == base@.columns.len(),
        lower(plan.table_name@) == "pg_stat_ssl"@ ==> is_virtual,
        select_output(plan, base, is_virtual, inputs, k) is Ok,
        ({
            let first = sourced(
                relation_name(plan.table_alias, plan.table_name),
                base@.columns,
                base@.types,
                base@.rows,
            );
            plan.limit != Some(0usize) ==> condition_verdicts(
                plan.filter,
                first.columns,
                first.types,
                first.rows,
                k,
            ) == Ok::<Seq<Val>, Stop>(verdicts)
        }),
        ({
            let full = select_output(plan, base, is_virtual, inputs, k)->Ok_0;
            streamable(plan) && plan.projection@.len() == 0 ==> {
                &&& forall|i: int|
                    0 <= i < base@.columns.len() ==> !(#[trigger] base@.columns[i]).contains('.')
                &&& forall|i: int|
                    0 <= i < base@.types.len() && #[trigger] base@.types[i] == "VARCHAR"@
                        && full.rows.len() > 0 && i < full.rows[0].len() ==> shown_type(
                        full.rows[0][i],
                    ) == "VARCHAR"@
            }
        }),
    ensures
        ({
            let full = select_output(plan, base, is_virtual, inputs, k)->Ok_0;
            stream_told(plan, base@, is_virtual, is_view, pending, verdicts, full) == (
                output_told(full),
                full.tag,
            )
        }),
{
    let full = select_output(plan, base, is_virtual, inputs, k)->Ok_0;
    let prefix = relation_name(plan.table_alias, plan.table_name);
    let shape = streamed_shape(
        plan,
        base@.columns,
        base@.types,
        is_virtual,
        is_view,
        pending,
    );
    if shape is Some {
        let rel = sourced(prefix, base@.columns, base@.types, base@.rows);
        assert(base.columns.len() == base@.columns.len());
        assert(base.rows.len() == base@.rows.len());
        assert(base@.rows.take(0) =~= Seq::<Seq<Val>>::empty());
        assert(selected(plan, rel, false, k) == Ok::<OutputView, Stop>(full));
        let at = shape->Some_0.at;
        lemma_scan_told(
            base@.rows,
            verdicts,
            at,
            plan.offset,
            plan.limit,
            first_state(plan.offset, plan.limit),
            0,
        );
        lemma_streamed_rows(plan, prefix, base@.columns, base@.types, base@.rows, verdicts, k);
        lemma_streamed_schema(plan, prefix, base@.columns, base@.types, base@.rows, k);
        let sent = rows_told(full.rows);
        assert(sent.skip(0) =~= sent);
    }
}

// ---------------------------------------------------------------------------
// A capped scan gives the same rows
// ---------------------------------------------------------------------------

/// Whether an item's value in a row depends on that row alone, and on no
/// subquery.
pub open spec fn is_plain(item: ProjectionItem) -> bool {
    match item {
        ProjectionItem::Column(_) => true,
        ProjectionItem::AliasedColumn(_, _) => true,
        ProjectionItem::Literal(_) => true,
        ProjectionItem::AliasedLiteral(_, _) => true,
        ProjectionItem::Expr { expr, .. } => nested(expr).len() == 0,
        _ => false,
    }
}

/// The first rows of a table.
pub open spec fn first_part(t: Table, n: int) -> Table {
    Table { names: t.names, rows: t.rows.take(n) }
}

proof fn lemma_row_values_of_part(
    e: crate::plan_types::ScalarExpr,
    names: Seq<Seq<char>>,
    at: Seq<Option<int>>,
    rows: Seq<Seq<Val>>,
    cap: int,
    n: nat,
    k: Known,
)
    requires
        n <= cap <= rows.len(),
    ensures
        row_values(e, names, at, rows.take(cap), Seq::empty(), n, k) == row_values(
            e,
            names,
            at,
            rows,
            Seq::empty(),
            n,
            k,
        ),
    decreases n,
{
    if n > 0 {
        lemma_row_values_of_part(e, names, at, rows, cap, (n - 1) as nat, k);
    }
}

proof fn lemma_row_values_prefix(
    e: crate::plan_types::ScalarExpr,
    names: Seq<Seq<char>>,
    at: Seq<Option<int>>,
    rows: Seq<Seq<Val>>,
    n: nat,
    m: nat,
    k: Known,
)
    requires
        n <= m,
        row_values(e, names, at, rows, Seq::empty(), m, k) is Ok,
    ensures
        row_values(e, names, at, rows, Seq::empty(), m, k)->Ok_0.len() == m,
        row_values(e, names, at, rows, Seq::empty(), n, k) == Ok::<Seq<Val>, Stop>(
            row_values(e, names, at, rows, Seq::empty(), m, k)->Ok_0.take(n as int),
        ),
    decreases m,
{
    let all = row_values(e, names, at, rows, Seq::empty(), m, k)->Ok_0;
    if m > 0 {
        let before = row_values(e, names, at, rows, Seq::empty(), (m - 1) as nat, k)->Ok_0;
        if n < m {
            lemma_row_values_prefix(e, names, at, rows, n, (m - 1) as nat, k);
            assert(all.take(n as int) =~= before.take(n as int));
        } else {
            lemma_row_values_prefix(e, names, at, rows, (m - 1) as nat, (m - 1) as nat, k);
            assert(all.take(n as int) =~= all);
        }
    } else {
        assert(all.take(0) =~= all);
    }
}

proof fn lemma_computed_part(items: Seq<ProjectionItem>, n: nat, t: Table, cap: int, k: Known)
    requires
        n <= items.len(),
        0 < cap <= t.rows.len(),
        forall|i: int| 0 <= i < items.len() ==> is_plain(#[trigger] items[i]),
        with_computed(items, n, t, k) is Ok,
    ensures
        with_computed(items, n, t, k)->Ok_0.rows.len() == t.rows.len(),
        with_computed(items, n, first_part(t, cap), k) == Ok::<Table, Stop>(
            first_part(with_computed(items, n, t, k)->Ok_0, cap),
        ),
    decreases n,
{
    if n > 0 {
        let m = (n - 1) as nat;
        lemma_computed_part(items, m, t, cap, k);
        let u = with_computed(items, m, t, k)->Ok_0;
        let item = items[m as int];
        assert(is_plain(item));
        if is_computed(item) {
            reveal(crate::projection::computed_column);
            let e = item->Expr_expr;
            let refs = reference_positions(u.names, crate::subqueries::referenced(e), k);
            let at = refs->Ok_0;
            let part = first_part(u, cap);
            lemma_row_values_of_part(e, u.names, at, u.rows, cap, cap as nat, k);
            lemma_row_values_prefix(e, u.names, at, u.rows, cap as nat, u.rows.len(), k);
            let values = row_values(e, u.names, at, u.rows, Seq::empty(), u.rows.len(), k)->Ok_0;
            assert(with_column(part.rows, values.take(cap)) =~= with_column(
                u.rows,
                values,
            ).take(cap));
        }
    }
}

proof fn lemma_item_columns_part(
    items: Seq<ProjectionItem>,
    n: nat,
    shown: Seq<Seq<char>>,
    t: Table,
    cap: int,
    k: Known,
)
    requires
        n <= items.len(),
        0 <= cap <= t.rows.len(),
        forall|i: int| 0 <= i < items.len() ==> is_plain(#[trigger] items[i]),
        item_columns(items, n, shown, t, k) is Ok,
    ensures
        ({
            let all = item_columns(items, n, shown, t, k);
            let part = item_columns(items, n, shown, first_part(t, cap), k);
            &&& part is Ok
            &&& all->Ok_0.len() == n
            &&& part->Ok_0.len() == n
            &&& forall|c: int|
                0 <= c < n ==> #[trigger] part->Ok_0[c] == all->Ok_0[c].take(cap)
                    && all->Ok_0[c].len() == t.rows.len()
        }),
    decreases n,
{
    if n > 0 {
        let m = (n - 1) as nat;
        lemma_item_columns_part(items, m, shown, t, cap, k);
        let item = items[m as int];
        assert(is_plain(item));
        let whole = item_column(item, m, shown, t, k)->Ok_0;
        if is_column(item) && column_of(t.names, column_read(item)) is None {
            lemma_relation_rows_of_part(
                t.names,
                column_read(item),
                t.rows,
                cap,
                t.rows.len(),
                k,
            );
        }
        let some = item_column(item, m, shown, first_part(t, cap), k)->Ok_0;
        assert(some =~= whole.take(cap));
    }
}

proof fn lemma_projected_part(
    items: Seq<ProjectionItem>,
    shown: Seq<Seq<char>>,
    t: Table,
    cap: int,
    k: Known,
)
    requires
        0 <= cap <= t.rows.len(),
        forall|i: int| 0 <= i < items.len() ==> is_plain(#[trigger] items[i]),
        projected(items, shown, t, k) is Ok,
    ensures
        projected(items, shown, t, k)->Ok_0.len() == t.rows.len(),
        projected(items, shown, first_part(t, cap), k) == Ok::<Seq<Seq<Val>>, Stop>(
            projected(items, shown, t, k)->Ok_0.take(cap),
        ),
{
    let part = first_part(t, cap);
    if items.len() == 0 {
        assert(cut_rows(part.rows, t.names.len()) =~= cut_rows(t.rows, t.names.len()).take(cap));
    } else {
        lemma_item_columns_part(items, items.len(), shown, t, cap, k);
        let all = item_columns(items, items.len(), shown, t, k)->Ok_0;
        let some = item_columns(items, items.len(), shown, part, k)->Ok_0;
        let a = rows_of_columns(all, t.rows.len());
        let b = rows_of_columns(some, cap as nat);
        assert forall|r: int| 0 <= r < cap implies b[r] == a.take(cap)[r] by {
            assert forall|c: int| 0 <= c < some.len() implies b[r][c] == a[r][c] by {
                assert(some[c] == all[c].take(cap));
            }
            assert(b[r] =~= a[r]);
        }
        assert(b =~= a.take(cap));
    }
}

proof fn lemma_all_pass(rows: Seq<Seq<Val>>, n: nat)
    requires
        rows.len() <= n,
    ensures
        passing(rows, all_true(n)) == rows,
    decreases rows.len(),
{
    if rows.len() > 0 {
        lemma_all_pass(rows.drop_last(), n);
        assert(passing(rows, all_true(n)) =~= rows);
    } else {
        assert(passing(rows, all_true(n)) =~= rows);
    }
}

/// Reading no more rows than the scan limit does not change the result: the
/// output over the first rows is the output over all of them.
pub proof fn law_capped_scan_gives_the_same_output(
    plan: SelectPlan,
    rel: Rel,
    cap: int,
    lenient: bool,
    k: Known,
)
    requires
        scan_limit(plan) == Some(cap),
        plan.group_exprs@.len() == 0,
        forall|i: int|
            0 <= i < plan.projection@.len() ==> is_plain(#[trigger] plan.projection@[i]),
        cap < rel.rows.len(),
        rel.rows.len() <= usize::MAX,
        selected(plan, rel, lenient, k) is Ok,
    ensures
        selected(plan, Rel { rows: rel.rows.take(cap), ..rel }, lenient, k) == selected(
            plan,
            rel,
            lenient,
            k,
        ),
{
    let items = plan.projection@;
    let short = Rel { rows: rel.rows.take(cap), ..rel };
    assert forall|i: int| 0 <= i < items.len() implies !item_aggregates(#[trigger] items[i]) by {
        assert(!needs_all_rows(items[i]));
    }
    assert(!groups_rows(plan));
    if plan.limit != Some(0usize) {
        lemma_all_pass(rel.rows, rel.rows.len());
        lemma_all_pass(short.rows, short.rows.len());
        assert(filtered(plan, rel, k) == Ok::<Seq<Seq<Val>>, Stop>(rel.rows));
        assert(filtered(plan, short, k) == Ok::<Seq<Seq<Val>>, Stop>(short.rows));
        let t = Table { names: rel.columns, rows: rel.rows };
        let p = first_part(t, cap);
        assert(with_group_exprs(plan.group_exprs@, 0, t, k) == Ok::<Table, Stop>(t));
        assert(with_group_exprs(plan.group_exprs@, 0, p, k) == Ok::<Table, Stop>(p));
        lemma_computed_part(items, items.len(), t, cap, k);
        let u = with_computed(items, items.len(), t, k)->Ok_0;
        lemma_projected_part(items, rel.types, u, cap, k);
        let whole = projected(items, rel.types, u, k)->Ok_0;
        crate::arrange::law_slice_needs_only_a_prefix(
            whole,
            plan.offset,
            plan.limit->Some_0,
            cap,
        );
    }
}

} // verus!
