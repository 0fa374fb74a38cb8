//! Window functions over partitioned, ordered rows.
use vstd::prelude::*;
use crate::cells::{
    are_identical, cell, cell_at_if, cell_if, cells, identical_rows, names_val, names_value,
    opt_int, pick_cells,
};
use crate::facts::{
    asked, list_outcome, on_two, outcome, Facts, Halt, Known, RequestView, Stop, Task, TaskView,
};
use crate::frames::{bucket_of, frame_bounds, frame_span, ntile_bucket};
use crate::names::{column_of, find_column};
use crate::ordering::{positions, sort_by_keys, sorted_rows, KeyOrder};
use crate::plan_types::{
    aggregate_op, named_aggregate, AggregateOp, WindowBound, WindowFrame, WindowFrameUnits,
};
use crate::text::{concat2, parse_size, parsed_size, same_text, texts};
use crate::value::{group_value_views, rows_view, vals, Val, Value};

verus! {

broadcast use group_value_views;

// ---------------------------------------------------------------------------
// Partitions and peers
// ---------------------------------------------------------------------------

/// Where the partition of the row at `i` starts, in rows sorted by partition.
pub open spec fn part_start(keys: Seq<Seq<Val>>, i: int) -> int
    decreases i,
{
    if i <= 0 {
        0
    } else {
        let s = part_start(keys, i - 1);
        if identical_rows(keys[i], keys[s]) {
            s
        } else {
            i
        }
    }
}

/// Where the partition of the row at `i` ends.
pub open spec fn part_end(keys: Seq<Seq<Val>>, i: int) -> int
    decreases keys.len() - i,
{
    if i + 1 >= keys.len() {
        keys.len() as int
    } else if part_start(keys, i + 1) == i + 1 {
        i + 1
    } else {
        part_end(keys, i + 1)
    }
}

/// A partition holds its own row: it starts at or before it and ends after it.
pub proof fn law_partition_holds_its_row(keys: Seq<Seq<Val>>, i: int)
    requires
        0 <= i < keys.len(),
    ensures
        0 <= part_start(keys, i) <= i < part_end(keys, i) <= keys.len(),
    decreases keys.len() - i,
{
    lemma_part_start(keys, i);
    if i + 1 < keys.len() && part_start(keys, i + 1) != i + 1 {
        law_partition_holds_its_row(keys, i + 1);
    }
}

proof fn lemma_part_start(keys: Seq<Seq<Val>>, i: int)
    requires
        0 <= i,
    ensures
        0 <= part_start(keys, i) <= i,
    decreases i,
{
    if i > 0 {
        lemma_part_start(keys, i - 1);
    }
}

/// The start of the run of rows, from `from` on, that share the order key of
/// the row at `i`.
pub open spec fn run_start(keys: Seq<Seq<Val>>, from: int, i: int) -> int
    decreases i - from,
{
    if i <= from {
        from
    } else {
        let s = run_start(keys, from, i - 1);
        if identical_rows(keys[i], keys[s]) {
            s
        } else {
            i
        }
    }
}

/// How many such runs there are from `from` up to the row at `i`.
pub open spec fn run_count(keys: Seq<Seq<Val>>, from: int, i: int) -> int
    decreases i - from,
{
    if i <= from {
        1
    } else {
        run_count(keys, from, i - 1) + if run_start(keys, from, i) == i {
            1int
        } else {
            0
        }
    }
}

proof fn lemma_run_start(keys: Seq<Seq<Val>>, from: int, i: int)
    requires
        from <= i,
    ensures
        from <= run_start(keys, from, i) <= i,
        1 <= run_count(keys, from, i) <= i - from + 1,
    decreases i - from,
{
    if i > from {
        lemma_run_start(keys, from, i - 1);
    }
}

/// Both ranks start at 1, never exceed the row's number, and RANK is at least
/// DENSE_RANK.
pub proof fn law_rank_and_dense_rank(keys: Seq<Seq<Val>>, from: int, i: int)
    requires
        from <= i,
    ensures
        1 <= run_count(keys, from, i) <= run_start(keys, from, i) - from + 1 <= i - from + 1,
    decreases i - from,
{
    if i > from {
        law_rank_and_dense_rank(keys, from, i - 1);
        lemma_run_start(keys, from, i - 1);
    }
}

// ---------------------------------------------------------------------------
// Aggregates over a frame
// ---------------------------------------------------------------------------

/// The position an answer names.
pub open spec fn answered_position(v: Val) -> Option<int> {
    match v {
        Val::Int(i) => if 0 <= i <= usize::MAX {
            Some(i as int)
        } else {
            None
        },
        _ => None,
    }
}

/// The position of the column that a reference names, by the rules for
/// references.
pub open spec fn reference_position(names: Seq<Seq<char>>, name: Seq<char>, k: Known) -> Result<
    Option<int>,
    Stop,
> {
    match asked(k, on_two(TaskView::ColumnPosition, names_val(names), Val::Text(name))) {
        Ok(v) => Ok(answered_position(v)),
        Err(s) => Err(s),
    }
}

/// What a position result stands for.
pub open spec fn position_outcome(r: Result<Option<usize>, Halt>) -> Result<Option<int>, Stop> {
    match r {
        Ok(p) => Ok(opt_int(p)),
        Err(h) => Err(h@),
    }
}

/// The position of the column that a reference names.
pub fn find_reference(names: &Vec<String>, name: &str, facts: &Facts) -> (r: Result<
    Option<usize>,
    Halt,
>)
    ensures
        position_outcome(r) == reference_position(texts(names@), name@, facts@),
{
    match facts.ask_two(Task::ColumnPosition, &names_value(names), &Value::Text(name.to_owned())) {
        Ok(v) => match v {
            Value::Int(i) => {
                if i >= 0 && i as u128 <= usize::MAX as u128 {
                    Ok(Some(i as usize))
                } else {
                    Ok(None)
                }
            },
            _ => Ok(None),
        },
        Err(h) => Err(h),
    }
}

/// The positions of several references, in order.
pub open spec fn reference_positions(names: Seq<Seq<char>>, refs: Seq<Seq<char>>, k: Known) -> Result<
    Seq<Option<int>>,
    Stop,
>
    decreases refs.len(),
{
    if refs.len() == 0 {
        Ok(Seq::empty())
    } else {
        match reference_positions(names, refs.drop_last(), k) {
            Err(s) => Err(s),
            Ok(done) => match reference_position(names, refs.last(), k) {
                Err(s) => Err(s),
                Ok(p) => Ok(done.push(p)),
            },
        }
    }
}

/// Optional positions as integers.
pub open spec fn opt_ints(s: Seq<Option<usize>>) -> Seq<Option<int>> {
    Seq::new(s.len(), |i: int| opt_int(s[i]))
}

/// What a result of positions stands for.
pub open spec fn found_outcome(r: Result<Vec<Option<usize>>, Halt>) -> Result<
    Seq<Option<int>>,
    Stop,
> {
    match r {
        Ok(v) => Ok(opt_ints(v@)),
        Err(h) => Err(h@),
    }
}

proof fn lemma_positions_fail(names: Seq<Seq<char>>, refs: Seq<Seq<char>>, n: int, k: Known)
    requires
        0 <= n <= refs.len(),
        reference_positions(names, refs.take(n), k) is Err,
    ensures
        reference_positions(names, refs, k) == reference_positions(names, refs.take(n), k),
    decreases refs.len(),
{
    if n < refs.len() {
        assert(refs.drop_last().take(n) =~= refs.take(n));
        lemma_positions_fail(names, refs.drop_last(), n, k);
    } else {
        assert(refs.take(n) =~= refs);
    }
}

/// The positions of several references.
pub fn find_references(names: &Vec<String>, refs: &Vec<String>, facts: &Facts) -> (r: Result<
    Vec<Option<usize>>,
    Halt,
>)
    ensures
        found_outcome(r) == reference_positions(texts(names@), texts(refs@), facts@),
        r is Ok ==> r->Ok_0@.len() == refs@.len(),
{
    let ghost all = texts(refs@);
    let ghost columns = texts(names@);
    let mut out: Vec<Option<usize>> = Vec::new();
    let mut i: usize = 0;
    assert(all.take(0) =~= Seq::<Seq<char>>::empty());
    assert(opt_ints(out@) =~= Seq::<Option<int>>::empty());
    while i < refs.len()
        invariant
            i <= refs@.len(),
            out@.len() == i,
            all == texts(refs@),
            columns == texts(names@),
            reference_positions(columns, all.take(i as int), facts@) == Ok::<
                Seq<Option<int>>,
                Stop,
            >(opt_ints(out@)),
        decreases refs@.len() - i,
    {
        assert(all.take(i + 1).drop_last() =~= all.take(i as int));
        assert(all.take(i + 1).last() == refs@[i as int]@);
        match find_reference(names, refs[i].as_str(), facts) {
            Err(h) => {
                proof {
                    lemma_positions_fail(columns, all, i + 1, facts@);
                }
                return Err(h);
            },
            Ok(p) => {
                let ghost before = out@;
                out.push(p);
                assert(opt_ints(out@) =~= opt_ints(before).push(opt_int(p)));
            },
        }
        i = i + 1;
    }
    assert(all.take(i as int) =~= all);
    Ok(out)
}

/// One input of a windowed aggregate: its argument, then its further
/// arguments, each the column of that name or else the name itself as text.
pub open spec fn window_input(
    row: Seq<Val>,
    at: Option<int>,
    extra: Seq<Seq<char>>,
    extra_at: Seq<Option<int>>,
) -> Val {
    Val::Array(
        seq![cell_if(row, at)] + Seq::new(
            extra.len(),
            |i: int|
                match extra_at[i] {
                    Some(p) => cell(row, p),
                    None => Val::Text(extra[i]),
                },
        ),
    )
}

/// The aggregate of the rows of a frame.
pub open spec fn windowed(
    op: AggregateOp,
    arg: Seq<char>,
    extra: Seq<Seq<char>>,
    names: Seq<Seq<char>>,
    rows: Seq<Seq<Val>>,
    k: Known,
) -> Result<Val, Stop> {
    if arg == "*"@ {
        Ok(Val::Int(rows.len() as i64))
    } else {
        match reference_position(names, arg, k) {
            Err(s) => Err(s),
            Ok(at) => match reference_positions(names, extra, k) {
                Err(s) => Err(s),
                Ok(extra_at) => asked(
                    k,
                    RequestView {
                        task: TaskView::Aggregate(op),
                        args: Seq::new(
                            rows.len(),
                            |i: int| window_input(rows[i], at, extra, extra_at),
                        ),
                    },
                ),
            },
        }
    }
}

fn window_input_value(
    row: &Vec<Value>,
    at: Option<usize>,
    extra: &Vec<String>,
    extra_at: &Vec<Option<usize>>,
) -> (r: Value)
    requires
        extra@.len() == extra_at@.len(),
    ensures
        r@ == window_input(vals(row@), opt_int(at), texts(extra@), opt_ints(extra_at@)),
{
    let mut out: Vec<Value> = vec![cell_at_if(row, at)];
    let ghost first = out@[0]@;
    let mut i: usize = 0;
    while i < extra.len()
        invariant
            i <= extra@.len(),
            extra@.len() == extra_at@.len(),
            out@.len() == i + 1,
            out@[0]@ == first,
            forall|j: int|
                0 <= j < i ==> (#[trigger] out@[j + 1])@ == match opt_int(extra_at@[j]) {
                    Some(p) => cell(vals(row@), p),
                    None => Val::Text(extra@[j]@),
                },
        decreases extra@.len() - i,
    {
        let v = match extra_at[i] {
            Some(p) => cell_at_if(row, Some(p)),
            None => Value::Text(extra[i].clone()),
        };
        out.push(v);
        i = i + 1;
    }
    proof {
        let want = window_input(vals(row@), opt_int(at), texts(extra@), opt_ints(extra_at@))->Array_0;
        assert forall|j: int| 0 <= j < out@.len() implies vals(out@)[j] == want[j] by {
            if j > 0 {
                assert(out@[(j - 1) + 1]@ == vals(out@)[j]);
            }
        }
        assert(vals(out@) =~= want);
    }
    Value::Array(out)
}

/// Computes a single windowed aggregate (`SUM`/`COUNT`/`AVG`/`MIN`/`MAX`) over
/// the rows from `from` up to `to`, matching the grouped-aggregate semantics.
pub fn window_aggregate(
    op: AggregateOp,
    arg: &str,
    extra: &Vec<String>,
    names: &Vec<String>,
    rows: &Vec<Vec<Value>>,
    from: usize,
    to: usize,
    facts: &Facts,
) -> (r: Result<Value, Halt>)
    requires
        from <= to <= rows@.len(),
    ensures
        outcome(r) == windowed(
            op,
            arg@,
            texts(extra@),
            texts(names@),
            rows_view(rows@).subrange(from as int, to as int),
            facts@,
        ),
{
    if same_text(arg, "*") {
        return Ok(Value::Int((to - from) as i64));
    }
    let at = match find_reference(names, arg, facts) {
        Ok(p) => p,
        Err(h) => {
            return Err(h);
        },
    };
    let extra_at = match find_references(names, extra, facts) {
        Ok(p) => p,
        Err(h) => {
            return Err(h);
        },
    };
    let ghost slice = rows_view(rows@).subrange(from as int, to as int);
    let mut inputs: Vec<Value> = Vec::new();
    let mut i: usize = from;
    while i < to
        invariant
            from <= i <= to <= rows@.len(),
            inputs@.len() == i - from,
            extra@.len() == extra_at@.len(),
            slice == rows_view(rows@).subrange(from as int, to as int),
            forall|j: int|
                0 <= j < i - from ==> (#[trigger] inputs@[j])@ == window_input(
                    slice[j],
                    opt_int(at),
                    texts(extra@),
                    opt_ints(extra_at@),
                ),
        decreases to - i,
    {
        assert(slice[i - from] == vals(rows@[i as int]@));
        inputs.push(window_input_value(&rows[i], at, extra, &extra_at));
        i = i + 1;
    }
    assert(vals(inputs@) =~= Seq::new(
        slice.len(),
        |i: int| window_input(slice[i], opt_int(at), texts(extra@), opt_ints(extra_at@)),
    ));
    facts.ask(Task::Aggregate(op), inputs)
}

// ---------------------------------------------------------------------------
// Window functions
// ---------------------------------------------------------------------------

/// A window function call, with the frame it uses.
pub struct WindowCall<'a> {
    pub func_name: &'a str,
    pub args: &'a Vec<String>,
    pub frame: Option<WindowFrame>,
}

/// What a [`WindowCall`] stands for.
pub struct CallView {
    pub func_name: Seq<char>,
    pub args: Seq<Seq<char>>,
    pub frame: Option<WindowFrame>,
}

impl<'a> View for WindowCall<'a> {
    type V = CallView;

    open spec fn view(&self) -> CallView {
        CallView {
            func_name: self.func_name@,
            args: texts(self.args@),
            frame: self.frame,
        }
    }
}

/// The frame of the row at `i`: absolute positions, the whole partition
/// without a frame clause.
pub open spec fn covered(
    frame: Option<WindowFrame>,
    order_keys: Seq<Seq<Val>>,
    start: int,
    end: int,
    i: int,
) -> Option<(int, int)> {
    match frame {
        Some(f) => match frame_span(f, end - start, i - start, order_keys.skip(start)) {
            Some((a, b)) => Some((start + a, start + b)),
            None => None,
        },
        None => Some((start, end - 1)),
    }
}

/// The number of rows that LAG and LEAD reach back or ahead.
pub open spec fn reach(args: Seq<Seq<char>>) -> usize {
    if args.len() > 1 {
        match parsed_size(args[1]) {
            Some(n) => n,
            None => 1,
        }
    } else {
        1
    }
}

/// The number of buckets that NTILE distributes rows into.
pub open spec fn buckets(args: Seq<Seq<char>>) -> usize {
    if args.len() > 0 {
        match parsed_size(args[0]) {
            Some(n) => if n > 0 {
                n
            } else {
                1
            },
            None => 1,
        }
    } else {
        1
    }
}

/// The column that a call's first argument names.
pub open spec fn arg_column(names: Seq<Seq<char>>, args: Seq<Seq<char>>) -> Option<int> {
    if args.len() > 0 {
        column_of(names, args[0])
    } else {
        None
    }
}

/// Whether there is a window function of this name.
pub open spec fn is_window_function(name: Seq<char>) -> bool {
    ||| name == "ROW_NUMBER"@
    ||| name == "RANK"@
    ||| name == "DENSE_RANK"@
    ||| name == "LAG"@
    ||| name == "LEAD"@
    ||| name == "NTILE"@
    ||| name == "FIRST_VALUE"@
    ||| name == "LAST_VALUE"@
    ||| named_aggregate(name) is Some
}

/// The value of a window function on the row at `i` of the sorted rows.
pub open spec fn window_cell(
    call: CallView,
    names: Seq<Seq<char>>,
    rows: Seq<Seq<Val>>,
    part_keys: Seq<Seq<Val>>,
    order_keys: Seq<Seq<Val>>,
    i: int,
    k: Known,
) -> Result<Val, Stop> {
    let name = call.func_name;
    let start = part_start(part_keys, i);
    let end = part_end(part_keys, i);
    let column = arg_column(names, call.args);
    if name == "ROW_NUMBER"@ {
        Ok(Val::Int((i - start + 1) as i64))
    } else if name == "RANK"@ {
        Ok(Val::Int((run_start(order_keys, start, i) - start + 1) as i64))
    } else if name == "DENSE_RANK"@ {
        Ok(Val::Int(run_count(order_keys, start, i) as i64))
    } else if name == "LAG"@ {
        Ok(
            if i - reach(call.args) >= start {
                cell_if(rows[i - reach(call.args)], column)
            } else {
                Val::Null
            },
        )
    } else if name == "LEAD"@ {
        Ok(
            if i + reach(call.args) < end {
                cell_if(rows[i + reach(call.args)], column)
            } else {
                Val::Null
            },
        )
    } else if name == "NTILE"@ {
        Ok(Val::Int(bucket_of(buckets(call.args) as int, end - start, i - start) as i64))
    } else if name == "FIRST_VALUE"@ || name == "LAST_VALUE"@ {
        Ok(
            match covered(call.frame, order_keys, start, end, i) {
                Some((a, b)) => cell_if(
                    rows[if name == "LAST_VALUE"@ {
                        b
                    } else {
                        a
                    }],
                    column,
                ),
                None => Val::Null,
            },
        )
    } else {
        match named_aggregate(name) {
            Some(op) => {
                let arg = if call.args.len() > 0 {
                    call.args[0]
                } else {
                    "*"@
                };
                let extra = if call.args.len() > 0 {
                    call.args.skip(1)
                } else {
                    Seq::empty()
                };
                let slice = match covered(call.frame, order_keys, start, end, i) {
                    Some((a, b)) => rows.subrange(a, b + 1),
                    None => Seq::empty(),
                };
                windowed(op, arg, extra, names, slice, k)
            },
            None => Err(Stop::Raised("Unsupported window function: "@ + name)),
        }
    }
}

/// The values of a window function on the first `n` sorted rows.
pub open spec fn window_cells(
    call: CallView,
    names: Seq<Seq<char>>,
    rows: Seq<Seq<Val>>,
    part_keys: Seq<Seq<Val>>,
    order_keys: Seq<Seq<Val>>,
    n: nat,
    k: Known,
) -> Result<Seq<Val>, Stop>
    decreases n,
{
    if n == 0 {
        Ok(Seq::empty())
    } else {
        match window_cells(call, names, rows, part_keys, order_keys, (n - 1) as nat, k) {
            Err(s) => Err(s),
            Ok(done) => match window_cell(call, names, rows, part_keys, order_keys, n - 1, k) {
                Err(s) => Err(s),
                Ok(v) => Ok(done.push(v)),
            },
        }
    }
}

/// The columns that references find, without those that find none.
pub open spec fn found_columns(names: Seq<Seq<char>>, refs: Seq<Seq<char>>) -> Seq<usize>
    decreases refs.len(),
{
    if refs.len() == 0 {
        Seq::empty()
    } else {
        let rest = found_columns(names, refs.drop_last());
        match column_of(names, refs.last()) {
            Some(i) => rest.push(i as usize),
            None => rest,
        }
    }
}

/// The orders of the keys that `ORDER BY` references find.
pub open spec fn found_orders(names: Seq<Seq<char>>, refs: Seq<(Seq<char>, bool)>) -> Seq<KeyOrder>
    decreases refs.len(),
{
    if refs.len() == 0 {
        Seq::empty()
    } else {
        let rest = found_orders(names, refs.drop_last());
        match column_of(names, refs.last().0) {
            Some(i) => rest.push(
                KeyOrder::Directed { ascending: refs.last().1, nulls_first: None },
            ),
            None => rest,
        }
    }
}

/// References with their directions.
pub open spec fn directed(s: Seq<(String, bool)>) -> Seq<(Seq<char>, bool)> {
    Seq::new(s.len(), |i: int| (s[i].0@, s[i].1))
}

/// The references alone.
pub open spec fn undirected(s: Seq<(Seq<char>, bool)>) -> Seq<Seq<char>> {
    Seq::new(s.len(), |i: int| s[i].0)
}

/// Keys of rows.
pub open spec fn key_rows(rows: Seq<Seq<Val>>, at: Seq<usize>) -> Seq<Seq<Val>> {
    Seq::new(rows.len(), |i: int| cells(rows[i], at))
}

/// Rows in the given order.
pub open spec fn reordered(rows: Seq<Seq<Val>>, p: Seq<int>) -> Seq<Seq<Val>> {
    Seq::new(p.len(), |i: int| rows[p[i]])
}

/// The orders of a number of partition keys.
pub open spec fn plain_orders(n: nat) -> Seq<KeyOrder> {
    Seq::new(n, |i: int| KeyOrder::Plain)
}

/// The frame a call uses: the one given, else for an ordered window the rows
/// up to the current row's last peer, else none.
pub open spec fn effective_frame(frame: Option<WindowFrame>, has_order: bool) -> Option<
    WindowFrame,
> {
    match frame {
        Some(f) => Some(f),
        None => if has_order {
            Some(
                WindowFrame {
                    units: WindowFrameUnits::Range,
                    start: WindowBound::UnboundedPreceding,
                    end: WindowBound::CurrentRow,
                },
            )
        } else {
            None
        },
    }
}

/// Whether a bound counts rows or values.
pub open spec fn is_numeric_bound(b: WindowBound) -> bool {
    b is Preceding || b is Following
}

/// Whether a frame needs arithmetic on the order key.
pub open spec fn unsupported_frame(frame: Option<WindowFrame>) -> bool {
    match frame {
        Some(f) => f.units == WindowFrameUnits::Range && (is_numeric_bound(f.start)
            || is_numeric_bound(f.end)),
        None => false,
    }
}

/// The values, each at the position that the order gives for it.
pub open spec fn placed(p: Seq<int>, values: Seq<Val>, n: nat) -> Seq<Val>
    decreases p.len(),
{
    if p.len() == 0 || values.len() == 0 {
        Seq::new(n, |i: int| Val::Null)
    } else {
        placed(p.drop_last(), values.drop_last(), n).update(p.last(), values.last())
    }
}

/// The values of a window function call, by row.
pub open spec fn window_values(
    func_name: Seq<char>,
    args: Seq<Seq<char>>,
    partition_by: Seq<Seq<char>>,
    order_by: Seq<(Seq<char>, bool)>,
    frame: Option<WindowFrame>,
    names: Seq<Seq<char>>,
    rows: Seq<Seq<Val>>,
    k: Known,
) -> Result<Seq<Val>, Stop> {
    let parts = found_columns(names, partition_by);
    let keys = found_columns(names, undirected(order_by));
    let orders = plain_orders(parts.len()) + found_orders(names, order_by);
    match sorted_rows(key_rows(rows, parts + keys), orders, rows.len(), k) {
        Err(s) => Err(s),
        Ok(p) => {
            let used = effective_frame(frame, order_by.len() > 0);
            if unsupported_frame(used) {
                Err(
                    Stop::Raised(
                        "RANGE frame with a numeric offset is not supported; use ROWS"@,
                    ),
                )
            } else if !is_window_function(func_name) {
                Err(Stop::Raised("Unsupported window function: "@ + func_name))
            } else {
                let sorted = reordered(rows, p);
                let call = CallView { func_name, args, frame: used };
                match window_cells(
                    call,
                    names,
                    sorted,
                    key_rows(sorted, parts),
                    key_rows(sorted, keys),
                    rows.len(),
                    k,
                ) {
                    Err(s) => Err(s),
                    Ok(values) => Ok(placed(p, values, rows.len())),
                }
            }
        },
    }
}

/// Every row gets the value computed at its place in the sorted order, where
/// no row occurs twice.
pub proof fn law_placed_values(p: Seq<int>, values: Seq<Val>, n: nat, i: int)
    requires
        p.len() == values.len(),
        forall|j: int| 0 <= j < p.len() ==> 0 <= #[trigger] p[j] < n,
        forall|a: int, b: int| 0 <= a < b < p.len() ==> p[a] != p[b],
        0 <= i < p.len(),
    ensures
        placed(p, values, n).len() == n,
        placed(p, values, n)[p[i]] == values[i],
    decreases p.len(),
{
    lemma_placed_len(p.drop_last(), values.drop_last(), n);
    if i < p.len() - 1 {
        law_placed_values(p.drop_last(), values.drop_last(), n, i);
    }
}

proof fn lemma_placed_len(p: Seq<int>, values: Seq<Val>, n: nat)
    requires
        forall|j: int| 0 <= j < p.len() ==> 0 <= #[trigger] p[j] < n,
    ensures
        placed(p, values, n).len() == n,
    decreases p.len(),
{
    if p.len() > 0 && values.len() > 0 {
        lemma_placed_len(p.drop_last(), values.drop_last(), n);
    }
}

/// The columns that references find.
pub fn find_columns(names: &Vec<String>, refs: &Vec<String>) -> (r: Vec<usize>)
    ensures
        r@ == found_columns(texts(names@), texts(refs@)),
{
    let ghost all = texts(refs@);
    let mut out: Vec<usize> = Vec::new();
    let mut i: usize = 0;
    assert(all.take(0) =~= Seq::<Seq<char>>::empty());
    while i < refs.len()
        invariant
            i <= refs@.len(),
            all == texts(refs@),
            out@ == found_columns(texts(names@), all.take(i as int)),
        decreases refs@.len() - i,
    {
        assert(all.take(i + 1).drop_last() =~= all.take(i as int));
        assert(all.take(i + 1).last() == refs@[i as int]@);
        match find_column(names, refs[i].as_str()) {
            Some(at) => {
                out.push(at);
            },
            None => {},
        }
        i = i + 1;
    }
    assert(all.take(i as int) =~= all);
    out
}

fn find_orders(names: &Vec<String>, refs: &Vec<(String, bool)>, orders: &mut Vec<KeyOrder>) -> (r:
    Vec<usize>)
    ensures
        r@ == found_columns(texts(names@), undirected(directed(refs@))),
        final(orders)@ == old(orders)@ + found_orders(texts(names@), directed(refs@)),
{
    let ghost all = directed(refs@);
    let ghost bare = undirected(all);
    let ghost given = orders@;
    let mut out: Vec<usize> = Vec::new();
    let mut i: usize = 0;
    assert(all.take(0) =~= Seq::<(Seq<char>, bool)>::empty());
    assert(bare.take(0) =~= Seq::<Seq<char>>::empty());
    assert(given + found_orders(texts(names@), all.take(0)) =~= given);
    while i < refs.len()
        invariant
            i <= refs@.len(),
            all == directed(refs@),
            bare == undirected(all),
            out@ == found_columns(texts(names@), bare.take(i as int)),
            orders@ == given + found_orders(texts(names@), all.take(i as int)),
        decreases refs@.len() - i,
    {
        assert(all.take(i + 1).drop_last() =~= all.take(i as int));
        assert(bare.take(i + 1).drop_last() =~= bare.take(i as int));
        assert(bare.take(i + 1).last() == refs@[i as int].0@);
        let ghost before = orders@;
        match find_column(names, refs[i].0.as_str()) {
            Some(at) => {
                out.push(at);
                orders.push(KeyOrder::Directed { ascending: refs[i].1, nulls_first: None });
                assert(orders@ =~= given + found_orders(texts(names@), all.take(i + 1)));
            },
            None => {},
        }
        i = i + 1;
    }
    assert(all.take(i as int) =~= all);
    assert(bare.take(i as int) =~= bare);
    out
}

fn rows_of_keys(rows: &Vec<Vec<Value>>, at: &Vec<usize>) -> (r: Vec<Vec<Value>>)
    ensures
        rows_view(r@) == key_rows(rows_view(rows@), at@),
{
    let mut out: Vec<Vec<Value>> = Vec::new();
    let mut i: usize = 0;
    while i < rows.len()
        invariant
            i <= rows@.len(),
            out@.len() == i,
            forall|j: int| 0 <= j < i ==> vals((#[trigger] out@[j])@) == cells(vals(rows@[j]@), at@),
        decreases rows@.len() - i,
    {
        out.push(pick_cells(&rows[i], at));
        i = i + 1;
    }
    assert(rows_view(out@) =~= key_rows(rows_view(rows@), at@));
    out
}

fn reorder(rows: &Vec<Vec<Value>>, p: &Vec<usize>) -> (r: Vec<Vec<Value>>)
    requires
        forall|i: int| 0 <= i < p@.len() ==> (#[trigger] p@[i]) < rows@.len(),
    ensures
        rows_view(r@) == reordered(rows_view(rows@), positions(p@)),
{
    let mut out: Vec<Vec<Value>> = Vec::new();
    let mut i: usize = 0;
    while i < p.len()
        invariant
            i <= p@.len(),
            out@.len() == i,
            forall|i: int| 0 <= i < p@.len() ==> (#[trigger] p@[i]) < rows@.len(),
            forall|j: int| 0 <= j < i ==> vals((#[trigger] out@[j])@) == vals(rows@[p@[j] as int]@),
        decreases p@.len() - i,
    {
        out.push(crate::value::clone_values(&rows[p[i]]));
        i = i + 1;
    }
    assert(rows_view(out@) =~= reordered(rows_view(rows@), positions(p@)));
    out
}

/// The start of each sorted row's partition.
fn partition_starts(keys: &Vec<Vec<Value>>) -> (r: Vec<usize>)
    ensures
        r@.len() == keys@.len(),
        forall|i: int| 0 <= i < r@.len() ==> #[trigger] r@[i] == part_start(rows_view(keys@), i),
{
    let ghost view = rows_view(keys@);
    let mut out: Vec<usize> = Vec::new();
    let mut i: usize = 0;
    while i < keys.len()
        invariant
            i <= keys@.len(),
            out@.len() == i,
            view == rows_view(keys@),
            forall|j: int| 0 <= j < i ==> #[trigger] out@[j] == part_start(view, j),
        decreases keys@.len() - i,
    {
        if i == 0 {
            out.push(0);
        } else {
            let s: usize = out[i - 1];
            proof {
                lemma_part_start(view, i - 1);
            }
            assert(view[i as int] == vals(keys@[i as int]@));
            assert(view[s as int] == vals(keys@[s as int]@));
            if are_identical(&keys[i], &keys[s]) {
                out.push(s);
            } else {
                out.push(i);
            }
        }
        i = i + 1;
    }
    out
}

/// The end of each sorted row's partition.
fn partition_ends(keys: &Vec<Vec<Value>>, starts: &Vec<usize>) -> (r: Vec<usize>)
    requires
        starts@.len() == keys@.len(),
        forall|i: int|
            0 <= i < starts@.len() ==> #[trigger] starts@[i] == part_start(rows_view(keys@), i),
    ensures
        r@.len() == keys@.len(),
        forall|i: int| 0 <= i < r@.len() ==> #[trigger] r@[i] == part_end(rows_view(keys@), i),
{
    let ghost view = rows_view(keys@);
    let n: usize = keys.len();
    let mut out: Vec<usize> = Vec::new();
    let mut i: usize = 0;
    while i < n
        invariant
            i <= n,
            n == keys@.len() == starts@.len(),
            out@.len() == i,
            forall|j: int| 0 <= j < i ==> out@[j] == n,
        decreases n - i,
    {
        out.push(n);
        i = i + 1;
    }
    while i > 0
        invariant
            i <= n,
            n == keys@.len() == starts@.len() == out@.len(),
            view == rows_view(keys@),
            forall|j: int|
                0 <= j < starts@.len() ==> #[trigger] starts@[j] == part_start(view, j),
            forall|j: int| i <= j < n ==> #[trigger] out@[j] == part_end(view, j),
        decreases i,
    {
        i = i - 1;
        if i + 1 < n {
            assert(starts@[i + 1] == part_start(view, i + 1));
            let e: usize = if starts[i + 1] == i + 1 {
                i + 1
            } else {
                out[i + 1]
            };
            out.set(i, e);
        } else {
            out.set(i, n);
        }
    }
    out
}

fn run_of(keys: &Vec<Vec<Value>>, from: usize, i: usize) -> (r: (usize, usize))
    requires
        from <= i < keys@.len(),
    ensures
        r.0 == run_start(rows_view(keys@), from as int, i as int),
        r.1 == run_count(rows_view(keys@), from as int, i as int),
{
    let ghost view = rows_view(keys@);
    let total: usize = keys.len();
    let mut s: usize = from;
    let mut count: usize = 1;
    let mut j: usize = from;
    while j < i
        invariant
            from <= j <= i < total == keys@.len(),
            view == rows_view(keys@),
            from <= s <= j,
            count <= j - from + 1,
            s == run_start(view, from as int, j as int),
            count == run_count(view, from as int, j as int),
        decreases i - j,
    {
        j = j + 1;
        assert(view[j as int] == vals(keys@[j as int]@));
        assert(view[s as int] == vals(keys@[s as int]@));
        if !are_identical(&keys[j], &keys[s]) {
            s = j;
            count = count + 1;
        }
    }
    (s, count)
}

fn covered_rows(
    frame: &Option<WindowFrame>,
    order_keys: &Vec<Vec<Value>>,
    start: usize,
    end: usize,
    i: usize,
) -> (r: Option<(usize, usize)>)
    requires
        start <= i < end <= order_keys@.len(),
    ensures
        match (
            r,
            covered(*frame, rows_view(order_keys@), start as int, end as int, i as int),
        ) {
            (Some((a, b)), Some((c, d))) => a == c && b == d && start <= a <= b < end,
            (None, None) => true,
            _ => false,
        },
{
    match frame {
        Some(f) => match frame_bounds(f, end - start, i - start, order_keys, start) {
            Some((a, b)) => Some((start + a, start + b)),
            None => None,
        },
        None => Some((start, end - 1)),
    }
}

/// The value of a window function on one row.
fn window_cell_value(
    call: &WindowCall,
    names: &Vec<String>,
    rows: &Vec<Vec<Value>>,
    Ghost(part_keys): Ghost<Seq<Seq<Val>>>,
    order_keys: &Vec<Vec<Value>>,
    start: usize,
    end: usize,
    i: usize,
    facts: &Facts,
) -> (r: Result<Value, Halt>)
    requires
        i < rows@.len(),
        part_keys.len() == rows@.len(),
        order_keys@.len() == rows@.len(),
        start == part_start(part_keys, i as int),
        end == part_end(part_keys, i as int),
    ensures
        outcome(r) == window_cell(
            call@,
            texts(names@),
            rows_view(rows@),
            part_keys,
            rows_view(order_keys@),
            i as int,
            facts@,
        ),
{
    proof {
        law_partition_holds_its_row(part_keys, i as int);
        lemma_run_start(rows_view(order_keys@), start as int, i as int);
    }
    let name = call.func_name;
    let ghost given = texts(call.args@);
    assert(call.args@.len() > 0 ==> given[0] == call.args@[0]@);
    assert(call.args@.len() > 1 ==> given[1] == call.args@[1]@);
    let column: Option<usize> = if call.args.len() > 0 {
        find_column(names, call.args[0].as_str())
    } else {
        None
    };
    if same_text(name, "ROW_NUMBER") {
        Ok(Value::Int((i - start + 1) as i64))
    } else if same_text(name, "RANK") {
        let (s, _count) = run_of(order_keys, start, i);
        Ok(Value::Int((s - start + 1) as i64))
    } else if same_text(name, "DENSE_RANK") {
        let (_s, count) = run_of(order_keys, start, i);
        Ok(Value::Int(count as i64))
    } else if same_text(name, "LAG") || same_text(name, "LEAD") {
        let far: usize = if call.args.len() > 1 {
            match parse_size(call.args[1].as_str()) {
                Some(n) => n,
                None => 1,
            }
        } else {
            1
        };
        if same_text(name, "LAG") {
            if i - start >= far {
                assert(rows_view(rows@)[i - far] == vals(rows@[i - far]@));
                Ok(cell_at_if(&rows[i - far], column))
            } else {
                Ok(Value::Null)
            }
        } else if end - i > far {
            assert(rows_view(rows@)[i + far] == vals(rows@[i + far]@));
            Ok(cell_at_if(&rows[i + far], column))
        } else {
            Ok(Value::Null)
        }
    } else if same_text(name, "NTILE") {
        let n: usize = if call.args.len() > 0 {
            match parse_size(call.args[0].as_str()) {
                Some(n) => if n > 0 {
                    n
                } else {
                    1
                },
                None => 1,
            }
        } else {
            1
        };
        Ok(Value::Int(ntile_bucket(n, end - start, i - start) as i64))
    } else if same_text(name, "FIRST_VALUE") || same_text(name, "LAST_VALUE") {
        match covered_rows(&call.frame, order_keys, start, end, i) {
            Some((a, b)) => {
                let pick: usize = if same_text(name, "LAST_VALUE") {
                    b
                } else {
                    a
                };
                assert(rows_view(rows@)[pick as int] == vals(rows@[pick as int]@));
                Ok(cell_at_if(&rows[pick], column))
            },
            None => Ok(Value::Null),
        }
    } else {
        match aggregate_op(name) {
            Some(op) => {
                let arg: &str = if call.args.len() > 0 {
                    call.args[0].as_str()
                } else {
                    "*"
                };
                let extra = rest_of(call.args);
                let (from, to): (usize, usize) = match covered_rows(
                    &call.frame,
                    order_keys,
                    start,
                    end,
                    i,
                ) {
                    Some((a, b)) => (a, b + 1),
                    None => (i, i),
                };
                assert(from == to ==> rows_view(rows@).subrange(from as int, to as int)
                    =~= Seq::<Seq<Val>>::empty());
                window_aggregate(op, arg, &extra, names, rows, from, to, facts)
            },
            None => Err(Halt::Raised(concat2("Unsupported window function: ", name))),
        }
    }
}

fn rest_of(args: &Vec<String>) -> (r: Vec<String>)
    ensures
        texts(r@) == if args@.len() > 0 {
            texts(args@).skip(1)
        } else {
            Seq::empty()
        },
{
    let mut out: Vec<String> = Vec::new();
    let mut i: usize = 1;
    while i < args.len()
        invariant
            1 <= i,
            args@.len() > 0 ==> i <= args@.len(),
            args@.len() == 0 ==> i == 1,
            out@.len() == i - 1,
            forall|j: int| 0 <= j < i - 1 ==> (#[trigger] out@[j])@ == args@[j + 1]@,
        decreases args@.len() - i,
    {
        out.push(args[i].clone());
        i = i + 1;
    }
    assert(args@.len() > 0 ==> texts(out@) =~= texts(args@).skip(1));
    assert(args@.len() == 0 ==> texts(out@) =~= Seq::<Seq<char>>::empty());
    out
}

proof fn lemma_window_fails(
    call: CallView,
    names: Seq<Seq<char>>,
    rows: Seq<Seq<Val>>,
    part_keys: Seq<Seq<Val>>,
    order_keys: Seq<Seq<Val>>,
    n: nat,
    m: nat,
    k: Known,
)
    requires
        n <= m,
        window_cells(call, names, rows, part_keys, order_keys, n, k) is Err,
    ensures
        window_cells(call, names, rows, part_keys, order_keys, m, k) == window_cells(
            call,
            names,
            rows,
            part_keys,
            order_keys,
            n,
            k,
        ),
    decreases m,
{
    if n < m {
        lemma_window_fails(call, names, rows, part_keys, order_keys, n, (m - 1) as nat, k);
    }
}

/// The values of a window function on the sorted rows.
fn window_cell_values(
    call: &WindowCall,
    names: &Vec<String>,
    rows: &Vec<Vec<Value>>,
    part_keys: &Vec<Vec<Value>>,
    order_keys: &Vec<Vec<Value>>,
    facts: &Facts,
) -> (r: Result<Vec<Value>, Halt>)
    requires
        part_keys@.len() == rows@.len(),
        order_keys@.len() == rows@.len(),
    ensures
        list_outcome(r) == window_cells(
            call@,
            texts(names@),
            rows_view(rows@),
            rows_view(part_keys@),
            rows_view(order_keys@),
            rows@.len(),
            facts@,
        ),
        r is Ok ==> r->Ok_0@.len() == rows@.len(),
{
    let starts = partition_starts(part_keys);
    let ends = partition_ends(part_keys, &starts);
    let ghost parts = rows_view(part_keys@);
    let mut out: Vec<Value> = Vec::new();
    let mut i: usize = 0;
    assert(vals(out@) =~= Seq::<Val>::empty());
    while i < rows.len()
        invariant
            i <= rows@.len(),
            out@.len() == i,
            part_keys@.len() == rows@.len(),
            order_keys@.len() == rows@.len(),
            starts@.len() == rows@.len(),
            ends@.len() == rows@.len(),
            parts == rows_view(part_keys@),
            forall|j: int| 0 <= j < starts@.len() ==> #[trigger] starts@[j] == part_start(parts, j),
            forall|j: int| 0 <= j < ends@.len() ==> #[trigger] ends@[j] == part_end(parts, j),
            window_cells(
                call@,
                texts(names@),
                rows_view(rows@),
                parts,
                rows_view(order_keys@),
                i as nat,
                facts@,
            ) == Ok::<Seq<Val>, Stop>(vals(out@)),
        decreases rows@.len() - i,
    {
        match window_cell_value(
            call,
            names,
            rows,
            Ghost(parts),
            order_keys,
            starts[i],
            ends[i],
            i,
            facts,
        ) {
            Err(h) => {
                proof {
                    lemma_window_fails(
                        call@,
                        texts(names@),
                        rows_view(rows@),
                        parts,
                        rows_view(order_keys@),
                        (i + 1) as nat,
                        rows@.len(),
                        facts@,
                    );
                }
                return Err(h);
            },
            Ok(v) => {
                let ghost before = out@;
                out.push(v);
                assert(vals(out@) =~= vals(before).push(v@));
            },
        }
        i = i + 1;
    }
    Ok(out)
}

fn place(p: &Vec<usize>, values: &Vec<Value>) -> (r: Vec<Value>)
    requires
        p@.len() == values@.len(),
        forall|i: int| 0 <= i < p@.len() ==> (#[trigger] p@[i]) < p@.len(),
    ensures
        vals(r@) == placed(positions(p@), vals(values@), p@.len()),
{
    let ghost order = positions(p@);
    let ghost given = vals(values@);
    let mut out = crate::cells::null_row(p.len());
    let mut i: usize = 0;
    assert(vals(out@).len() == p@.len());
    assert(vals(out@) =~= placed(order.take(0), given.take(0), p@.len()));
    while i < p.len()
        invariant
            i <= p@.len(),
            p@.len() == values@.len(),
            out@.len() == p@.len(),
            order == positions(p@),
            given == vals(values@),
            forall|i: int| 0 <= i < p@.len() ==> (#[trigger] p@[i]) < p@.len(),
            vals(out@) == placed(order.take(i as int), given.take(i as int), p@.len()),
        decreases p@.len() - i,
    {
        let ghost before = out@;
        out.set(p[i], values[i].duplicate());
        assert(vals(out@) =~= vals(before).update(p@[i as int] as int, values@[i as int]@));
        assert(order.take(i + 1).drop_last() =~= order.take(i as int));
        assert(given.take(i + 1).drop_last() =~= given.take(i as int));
        i = i + 1;
    }
    assert(order.take(i as int) =~= order);
    assert(given.take(i as int) =~= given);
    out
}

fn has_window_function(name: &str) -> (r: bool)
    ensures
        r == is_window_function(name@),
{
    same_text(name, "ROW_NUMBER") || same_text(name, "RANK") || same_text(name, "DENSE_RANK")
        || same_text(name, "LAG") || same_text(name, "LEAD") || same_text(name, "NTILE")
        || same_text(name, "FIRST_VALUE") || same_text(name, "LAST_VALUE") || match aggregate_op(
        name,
    ) {
        Some(_) => true,
        None => false,
    }
}

fn choose_frame(frame: &Option<WindowFrame>, has_order: bool) -> (r: Option<WindowFrame>)
    ensures
        r == effective_frame(*frame, has_order),
{
    match frame {
        Some(f) => Some(*f),
        None => {
            if has_order {
                Some(
                    WindowFrame {
                        units: WindowFrameUnits::Range,
                        start: WindowBound::UnboundedPreceding,
                        end: WindowBound::CurrentRow,
                    },
                )
            } else {
                None
            }
        },
    }
}

fn frame_refused(frame: &Option<WindowFrame>) -> (r: bool)
    ensures
        r == unsupported_frame(*frame),
{
    match frame {
        Some(f) => {
            let range = match f.units {
                WindowFrameUnits::Range => true,
                WindowFrameUnits::Rows => false,
            };
            let start = match f.start {
                WindowBound::Preceding(_) | WindowBound::Following(_) => true,
                _ => false,
            };
            let end = match f.end {
                WindowBound::Preceding(_) | WindowBound::Following(_) => true,
                _ => false,
            };
            range && (start || end)
        },
        None => false,
    }
}

/// The values of a window function call, by row.
pub fn window_column(
    func_name: &str,
    args: &Vec<String>,
    partition_by: &Vec<String>,
    order_by: &Vec<(String, bool)>,
    frame: &Option<WindowFrame>,
    names: &Vec<String>,
    rows: &Vec<Vec<Value>>,
    facts: &Facts,
) -> (r: Result<Vec<Value>, Halt>)
    ensures
        list_outcome(r) == window_values(
            func_name@,
            texts(args@),
            texts(partition_by@),
            directed(order_by@),
            *frame,
            texts(names@),
            rows_view(rows@),
            facts@,
        ),
        r is Ok ==> r->Ok_0@.len() == rows@.len(),
{
    let parts = find_columns(names, partition_by);
    let mut orders: Vec<KeyOrder> = Vec::new();
    let mut all: Vec<usize> = Vec::new();
    let mut i: usize = 0;
    while i < parts.len()
        invariant
            i <= parts@.len(),
            orders@.len() == i,
            forall|j: int| 0 <= j < i ==> orders@[j] == KeyOrder::Plain,
            all@ == parts@.take(i as int),
        decreases parts@.len() - i,
    {
        orders.push(KeyOrder::Plain);
        all.push(parts[i]);
        i = i + 1;
        assert(all@ =~= parts@.take(i as int));
    }
    assert(orders@ =~= plain_orders(parts@.len()));
    let keys = find_orders(names, order_by, &mut orders);
    i = 0;
    assert(all@ =~= parts@ + keys@.take(0));
    while i < keys.len()
        invariant
            i <= keys@.len(),
            all@ == parts@ + keys@.take(i as int),
        decreases keys@.len() - i,
    {
        all.push(keys[i]);
        i = i + 1;
        assert(all@ =~= parts@ + keys@.take(i as int));
    }
    assert(keys@.take(i as int) =~= keys@);
    let sort_keys = rows_of_keys(rows, &all);
    assert(rows_view(sort_keys@).len() == rows@.len());
    let p = match sort_by_keys(&sort_keys, &orders, facts) {
        Ok(p) => p,
        Err(h) => {
            return Err(h);
        },
    };
    let used = choose_frame(frame, order_by.len() > 0);
    if frame_refused(&used) {
        return Err(
            Halt::Raised(
                "RANGE frame with a numeric offset is not supported; use ROWS".to_owned(),
            ),
        );
    }
    if !has_window_function(func_name) {
        return Err(Halt::Raised(concat2("Unsupported window function: ", func_name)));
    }
    let sorted = reorder(rows, &p);
    let part_keys = rows_of_keys(&sorted, &parts);
    let order_keys = rows_of_keys(&sorted, &keys);
    let call = WindowCall { func_name, args, frame: used };
    assert(rows_view(sorted@).len() == rows@.len());
    assert(rows_view(part_keys@).len() == rows@.len());
    assert(rows_view(order_keys@).len() == rows@.len());
    match window_cell_values(&call, names, &sorted, &part_keys, &order_keys, facts) {
        Ok(values) => {
            let out = place(&p, &values);
            proof {
                lemma_placed_len(positions(p@), vals(values@), p@.len());
                assert(vals(out@).len() == out@.len());
            }
            Ok(out)
        },
        Err(h) => Err(h),
    }
}

} // verus!
