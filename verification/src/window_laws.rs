//! What window functions give each row of an ordered partition.
use vstd::prelude::*;
use crate::cells::{cell_if, cells, identical, identical_rows};
use crate::facts::{asked, Known, RequestView, Stop, TaskView};
use crate::frames::{
    bucket_of, bucket_start, first_peer, frame_span, last_peer, law_buckets_are_even,
};
use crate::names::column_of;
use crate::ordering::{law_sort_is_a_permutation, sorted_rows, KeyOrder};
use crate::plan_types::{named_aggregate, AggregateOp, WindowBound, WindowFrame, WindowFrameUnits};
use crate::text::parsed_size;
use crate::value::Val;
use crate::window::{
    covered, effective_frame, found_columns, found_orders, key_rows, law_partition_holds_its_row,
    law_placed_values, part_end, part_start, plain_orders, reference_position,
    reference_positions, reordered, run_count, run_start, undirected, window_cell, window_cells,
    window_input, window_values, CallView,
};

verus! {

// ---------------------------------------------------------------------------
// Identical values
// ---------------------------------------------------------------------------

proof fn lemma_identical_joins(a: Val, b: Val, c: Val)
    requires
        identical(a, b),
    ensures
        identical(a, c) <==> identical(b, c),
        identical(a, a),
        identical(b, b),
    decreases a,
{
    if let (Val::Array(x), Val::Array(y)) = (a, b) {
        assert forall|i: int| 0 <= i < x.len() implies identical(#[trigger] x[i], x[i])
            && identical(y[i], y[i]) by {
            lemma_identical_joins(x[i], y[i], Val::Null);
        }
        if let Val::Array(z) = c {
            if x.len() == z.len() {
                assert forall|i: int| 0 <= i < x.len() implies (identical(#[trigger] x[i], z[i])
                    <==> identical(y[i], z[i])) by {
                    lemma_identical_joins(x[i], y[i], z[i]);
                }
                if identical(a, c) {
                    assert forall|i: int| 0 <= i < y.len() implies identical(
                        #[trigger] y[i],
                        z[i],
                    ) by {
                        assert(identical(x[i], z[i]));
                    }
                }
                if identical(b, c) {
                    assert forall|i: int| 0 <= i < x.len() implies identical(
                        #[trigger] x[i],
                        z[i],
                    ) by {
                        assert(identical(y[i], z[i]));
                    }
                }
            }
        }
        assert forall|i: int| 0 <= i < y.len() implies identical(#[trigger] y[i], y[i]) by {
            assert(identical(x[i], x[i]));
        }
    }
}

proof fn lemma_rows_flip(a: Seq<Val>, b: Seq<Val>)
    ensures
        identical_rows(a, b) == identical_rows(b, a),
{
    if a.len() == b.len() {
        assert forall|i: int| 0 <= i < a.len() implies identical(#[trigger] a[i], b[i])
            == identical(b[i], a[i]) by {
            crate::cells::law_identical_is_symmetric(a[i], b[i]);
        }
        if identical_rows(a, b) {
            assert forall|i: int| 0 <= i < b.len() implies identical(#[trigger] b[i], a[i]) by {
                assert(identical(a[i], b[i]));
            }
        }
        if identical_rows(b, a) {
            assert forall|i: int| 0 <= i < a.len() implies identical(#[trigger] a[i], b[i]) by {
                assert(identical(b[i], a[i]));
            }
        }
    }
}

proof fn lemma_rows_join(a: Seq<Val>, b: Seq<Val>, c: Seq<Val>)
    requires
        identical_rows(a, b),
    ensures
        identical_rows(c, a) <==> identical_rows(c, b),
{
    lemma_rows_flip(c, a);
    lemma_rows_flip(c, b);
    if a.len() == c.len() {
        assert forall|i: int| 0 <= i < a.len() implies (identical(#[trigger] a[i], c[i])
            <==> identical(b[i], c[i])) by {
            lemma_identical_joins(a[i], b[i], c[i]);
        }
        if identical_rows(a, c) {
            assert forall|i: int| 0 <= i < b.len() implies identical(#[trigger] b[i], c[i]) by {
                assert(identical(a[i], c[i]));
            }
        }
        if identical_rows(b, c) {
            assert forall|i: int| 0 <= i < a.len() implies identical(#[trigger] a[i], c[i]) by {
                assert(identical(b[i], c[i]));
            }
        }
    }
}

// ---------------------------------------------------------------------------
// Partitions
// ---------------------------------------------------------------------------

/// A partition is a run of rows: a row is in the partition of the row before
/// it exactly where its partition key is that row's.
pub proof fn law_a_partition_is_a_run_of_equal_keys(keys: Seq<Seq<Val>>, i: int)
    requires
        0 <= i,
        i + 1 < keys.len(),
    ensures
        identical_rows(keys[i + 1], keys[i]) ==> part_start(keys, i + 1) == part_start(keys, i)
            && part_end(keys, i + 1) == part_end(keys, i),
        !identical_rows(keys[i + 1], keys[i]) && identical_rows(keys[i], keys[i]) ==> part_start(
            keys,
            i + 1,
        ) == i + 1 && part_end(keys, i) == i + 1,
        part_start(keys, 0) == 0,
        part_end(keys, keys.len() - 1) == keys.len(),
{
    lemma_part_key(keys, i);
    let s = part_start(keys, i);
    if identical_rows(keys[i + 1], keys[i]) {
        lemma_rows_flip(keys[i + 1], keys[i]);
        lemma_self_identical(keys[i], keys[i + 1]);
    }
    if s < i || identical_rows(keys[i], keys[i]) {
        lemma_rows_join(keys[i], keys[s], keys[i + 1]);
    }
}

proof fn lemma_self_identical(a: Seq<Val>, b: Seq<Val>)
    requires
        identical_rows(a, b),
    ensures
        identical_rows(a, a),
{
    assert forall|i: int| 0 <= i < a.len() implies identical(#[trigger] a[i], a[i]) by {
        lemma_identical_joins(a[i], b[i], Val::Null);
    }
}

proof fn lemma_part_key(keys: Seq<Seq<Val>>, i: int)
    requires
        0 <= i < keys.len(),
    ensures
        0 <= part_start(keys, i) <= i,
        part_start(keys, i) < i ==> identical_rows(keys[i], keys[part_start(keys, i)]),
    decreases i,
{
    if i > 0 {
        lemma_part_key(keys, i - 1);
    }
}

// ---------------------------------------------------------------------------
// Frames
// ---------------------------------------------------------------------------

/// Whether the row at `j` is not before the start that a bound sets for the
/// row at `pos`, counting rows.
pub open spec fn from_bound(b: WindowBound, pos: int, j: int) -> bool {
    match b {
        WindowBound::UnboundedPreceding => true,
        WindowBound::Preceding(k) => j >= pos - k,
        WindowBound::CurrentRow => j >= pos,
        WindowBound::Following(k) => j >= pos + k,
        WindowBound::UnboundedFollowing => false,
    }
}

/// Whether the row at `j` is not behind the end that a bound sets for the row
/// at `pos`, counting rows.
pub open spec fn to_bound(b: WindowBound, pos: int, j: int) -> bool {
    match b {
        WindowBound::UnboundedPreceding => false,
        WindowBound::Preceding(k) => j <= pos - k,
        WindowBound::CurrentRow => j <= pos,
        WindowBound::Following(k) => j <= pos + k,
        WindowBound::UnboundedFollowing => true,
    }
}

/// Whether a frame covers the row at `j`.
pub open spec fn spans(span: Option<(int, int)>, j: int) -> bool {
    match span {
        Some((a, b)) => a <= j <= b,
        None => false,
    }
}

/// A frame of rows covers exactly the rows of the partition between its two
/// bounds.
pub proof fn law_a_frame_of_rows_covers_its_rows(
    frame: WindowFrame,
    n: int,
    pos: int,
    keys: Seq<Seq<Val>>,
    j: int,
)
    requires
        frame.units is Rows,
        0 <= pos < n,
    ensures
        spans(frame_span(frame, n, pos, keys), j) <==> 0 <= j < n && from_bound(
            frame.start,
            pos,
            j,
        ) && to_bound(frame.end, pos, j),
{
}

proof fn lemma_first_peer(keys: Seq<Seq<Val>>, pos: int, i: int)
    requires
        0 <= i <= pos,
    ensures
        ({
            let f = first_peer(keys, pos, i);
            &&& i <= f <= pos
            &&& f < pos ==> identical_rows(keys[f], keys[pos])
            &&& forall|j: int| i <= j < f ==> !identical_rows(#[trigger] keys[j], keys[pos])
        }),
    decreases pos - i,
{
    if i < pos && !identical_rows(keys[i], keys[pos]) {
        lemma_first_peer(keys, pos, i + 1);
    }
}

proof fn lemma_last_peer(keys: Seq<Seq<Val>>, pos: int, i: int)
    requires
        0 <= pos <= i,
    ensures
        ({
            let l = last_peer(keys, pos, i);
            &&& pos <= l <= i
            &&& l > pos ==> identical_rows(keys[l], keys[pos])
            &&& forall|j: int| l < j <= i ==> !identical_rows(#[trigger] keys[j], keys[pos])
        }),
    decreases i - pos,
{
    if i > pos && !identical_rows(keys[i], keys[pos]) {
        lemma_last_peer(keys, pos, i - 1);
    }
}

/// In a frame of values the current row stands for all its peers: a frame from
/// the current row covers the rows from its first peer on, one to the current
/// row those up to its last peer, and an unbounded side every row of the
/// partition on that side. Every row that shares the current row's order key
/// is covered, and so is the row itself.
pub proof fn law_a_frame_of_values_covers_peers(
    frame: WindowFrame,
    n: int,
    pos: int,
    keys: Seq<Seq<Val>>,
    j: int,
)
    requires
        frame.units is Range,
        0 <= pos < n,
        frame.start is UnboundedPreceding || frame.start is CurrentRow,
        frame.end is UnboundedFollowing || frame.end is CurrentRow,
    ensures
        ({
            let in_frame = spans(frame_span(frame, n, pos, keys), j);
            let peer = |r: int| r == pos || identical_rows(keys[r], keys[pos]);
            &&& in_frame ==> 0 <= j < n
            &&& 0 <= j < n && peer(j) ==> in_frame
            &&& frame.start is UnboundedPreceding && 0 <= j <= pos ==> in_frame
            &&& frame.end is UnboundedFollowing && pos <= j < n ==> in_frame
            &&& frame.start is CurrentRow && in_frame && j < pos ==> exists|r: int|
                0 <= r <= j && #[trigger] peer(r)
            &&& frame.end is CurrentRow && in_frame && j > pos ==> exists|r: int|
                j <= r < n && #[trigger] peer(r)
        }),
{
    lemma_first_peer(keys, pos, 0);
    lemma_last_peer(keys, pos, n - 1);
    let peer = |r: int| r == pos || identical_rows(keys[r], keys[pos]);
    let f = first_peer(keys, pos, 0);
    let l = last_peer(keys, pos, n - 1);
    assert(peer(f));
    assert(peer(l));
    if 0 <= j < n && j < f {
        assert(!identical_rows(keys[j], keys[pos]));
    }
    if 0 <= j < n && j > l {
        assert(!identical_rows(keys[j], keys[pos]));
    }
}

/// Without a frame clause an ordered window reaches from the partition's first
/// row to the current row's last peer, and an unordered one over the whole
/// partition; a frame clause is used as it is.
pub proof fn law_default_frames(
    given: WindowFrame,
    order_keys: Seq<Seq<Val>>,
    start: int,
    end: int,
    i: int,
)
    requires
        0 <= start <= i < end <= order_keys.len(),
    ensures
        effective_frame(Some(given), true) == Some(given),
        effective_frame(Some(given), false) == Some(given),
        covered(effective_frame(None, false), order_keys, start, end, i) == Some((start, end - 1)),
        ({
            let c = covered(effective_frame(None, true), order_keys, start, end, i);
            &&& c is Some && c->Some_0.0 == start && i <= c->Some_0.1 < end
            &&& c->Some_0.1 == i || identical_rows(order_keys[c->Some_0.1], order_keys[i])
            &&& forall|j: int|
                c->Some_0.1 < j < end ==> !identical_rows(#[trigger] order_keys[j], order_keys[i])
        }),
{
    let keys = order_keys.skip(start);
    lemma_last_peer(keys, i - start, end - start - 1);
    let l = last_peer(keys, i - start, end - start - 1);
    assert(keys[i - start] == order_keys[i]);
    assert(keys[l] == order_keys[start + l]);
    assert forall|j: int| start + l < j < end implies !identical_rows(
        #[trigger] order_keys[j],
        order_keys[i],
    ) by {
        assert(keys[j - start] == order_keys[j]);
    }
}

// ---------------------------------------------------------------------------
// Names of functions
// ---------------------------------------------------------------------------

proof fn lemma_function_names()
    ensures
        "ROW_NUMBER"@ != "RANK"@,
        "ROW_NUMBER"@ != "DENSE_RANK"@,
        "ROW_NUMBER"@ != "LAG"@,
        "ROW_NUMBER"@ != "LEAD"@,
        "ROW_NUMBER"@ != "NTILE"@,
        "ROW_NUMBER"@ != "FIRST_VALUE"@,
        "ROW_NUMBER"@ != "LAST_VALUE"@,
        "RANK"@ != "DENSE_RANK"@,
        "RANK"@ != "LAG"@,
        "RANK"@ != "LEAD"@,
        "RANK"@ != "NTILE"@,
        "RANK"@ != "FIRST_VALUE"@,
        "RANK"@ != "LAST_VALUE"@,
        "DENSE_RANK"@ != "LAG"@,
        "DENSE_RANK"@ != "LEAD"@,
        "DENSE_RANK"@ != "NTILE"@,
        "DENSE_RANK"@ != "FIRST_VALUE"@,
        "DENSE_RANK"@ != "LAST_VALUE"@,
        "LAG"@ != "LEAD"@,
        "LAG"@ != "NTILE"@,
        "LAG"@ != "FIRST_VALUE"@,
        "LAG"@ != "LAST_VALUE"@,
        "LEAD"@ != "NTILE"@,
        "LEAD"@ != "FIRST_VALUE"@,
        "LEAD"@ != "LAST_VALUE"@,
        "NTILE"@ != "FIRST_VALUE"@,
        "NTILE"@ != "LAST_VALUE"@,
        "FIRST_VALUE"@ != "LAST_VALUE"@,
{
    reveal_strlit("ROW_NUMBER");
    reveal_strlit("RANK");
    reveal_strlit("DENSE_RANK");
    reveal_strlit("LAG");
    reveal_strlit("LEAD");
    reveal_strlit("NTILE");
    reveal_strlit("FIRST_VALUE");
    reveal_strlit("LAST_VALUE");
    assert("ROW_NUMBER"@.len() == 10 && "ROW_NUMBER"@[0] == 'R');
    assert("RANK"@.len() == 4 && "RANK"@[0] == 'R');
    assert("DENSE_RANK"@.len() == 10 && "DENSE_RANK"@[0] == 'D');
    assert("LAG"@.len() == 3);
    assert("LEAD"@.len() == 4 && "LEAD"@[0] == 'L');
    assert("NTILE"@.len() == 5);
    assert("FIRST_VALUE"@.len() == 11);
    assert("LAST_VALUE"@.len() == 10 && "LAST_VALUE"@[0] == 'L');
}

proof fn lemma_aggregate_names()
    ensures
        forall|name: Seq<char>|
            (name == "COUNT"@ || name == "SUM"@ || name == "MIN"@ || name == "MAX"@ || name
                == "AVG"@) ==> !(#[trigger] is_ranking(name)),
{
    reveal_strlit("ROW_NUMBER");
    reveal_strlit("RANK");
    reveal_strlit("DENSE_RANK");
    reveal_strlit("LAG");
    reveal_strlit("LEAD");
    reveal_strlit("NTILE");
    reveal_strlit("FIRST_VALUE");
    reveal_strlit("LAST_VALUE");
    reveal_strlit("COUNT");
    reveal_strlit("SUM");
    reveal_strlit("MIN");
    reveal_strlit("MAX");
    reveal_strlit("AVG");
    assert("ROW_NUMBER"@.len() == 10);
    assert("RANK"@.len() == 4);
    assert("DENSE_RANK"@.len() == 10);
    assert("LAG"@.len() == 3 && "LAG"@[0] == 'L');
    assert("LEAD"@.len() == 4);
    assert("NTILE"@.len() == 5 && "NTILE"@[0] == 'N');
    assert("FIRST_VALUE"@.len() == 11);
    assert("LAST_VALUE"@.len() == 10);
    assert("COUNT"@.len() == 5 && "COUNT"@[0] == 'C');
    assert("SUM"@.len() == 3 && "SUM"@[0] == 'S');
    assert("MIN"@.len() == 3 && "MIN"@[0] == 'M');
    assert("MAX"@.len() == 3 && "MAX"@[0] == 'M');
    assert("AVG"@.len() == 3 && "AVG"@[0] == 'A');
}

/// Whether a name is that of a window function that is no aggregate.
pub open spec fn is_ranking(name: Seq<char>) -> bool {
    ||| name == "ROW_NUMBER"@
    ||| name == "RANK"@
    ||| name == "DENSE_RANK"@
    ||| name == "LAG"@
    ||| name == "LEAD"@
    ||| name == "NTILE"@
    ||| name == "FIRST_VALUE"@
    ||| name == "LAST_VALUE"@
}

// ---------------------------------------------------------------------------
// Values
// ---------------------------------------------------------------------------

/// Where the frame of a row covers the sorted rows from `a` to `b`,
/// `FIRST_VALUE(c)` is column `c` of the row at `a` and `LAST_VALUE(c)` that of
/// the row at `b`; over an empty frame both are NULL.
pub proof fn law_first_and_last_value(
    args: Seq<Seq<char>>,
    frame: Option<WindowFrame>,
    names: Seq<Seq<char>>,
    rows: Seq<Seq<Val>>,
    part_keys: Seq<Seq<Val>>,
    order_keys: Seq<Seq<Val>>,
    i: int,
    k: Known,
)
    requires
        args.len() > 0,
    ensures
        ({
            let span = covered(
                frame,
                order_keys,
                part_start(part_keys, i),
                part_end(part_keys, i),
                i,
            );
            let first = window_cell(
                CallView { func_name: "FIRST_VALUE"@, args, frame },
                names,
                rows,
                part_keys,
                order_keys,
                i,
                k,
            );
            let last = window_cell(
                CallView { func_name: "LAST_VALUE"@, args, frame },
                names,
                rows,
                part_keys,
                order_keys,
                i,
                k,
            );
            match span {
                Some((a, b)) => first == Ok::<Val, Stop>(
                    cell_if(rows[a], column_of(names, args[0])),
                ) && last == Ok::<Val, Stop>(cell_if(rows[b], column_of(names, args[0]))),
                None => first == Ok::<Val, Stop>(Val::Null) && last == Ok::<Val, Stop>(Val::Null),
            }
        }),
{
    lemma_function_names();
}

/// Over a window with the default frame `FIRST_VALUE` is the same for all rows
/// of a partition: the value of the partition's first row. `LAST_VALUE` is, in
/// a window without an order, that of its last row, and in an ordered window
/// that of a row at or behind the current one which has its order key.
pub proof fn law_first_value_is_the_partitions_first(
    args: Seq<Seq<char>>,
    ordered: bool,
    names: Seq<Seq<char>>,
    rows: Seq<Seq<Val>>,
    part_keys: Seq<Seq<Val>>,
    order_keys: Seq<Seq<Val>>,
    i: int,
    k: Known,
)
    requires
        args.len() > 0,
        0 <= i < part_keys.len(),
        part_keys.len() == order_keys.len(),
    ensures
        ({
            let frame = effective_frame(None, ordered);
            let cell_of = |name: Seq<char>|
                window_cell(
                    CallView { func_name: name, args, frame },
                    names,
                    rows,
                    part_keys,
                    order_keys,
                    i,
                    k,
                );
            let value = |j: int| Ok::<Val, Stop>(cell_if(rows[j], column_of(names, args[0])));
            &&& cell_of("FIRST_VALUE"@) == value(part_start(part_keys, i))
            &&& !ordered ==> cell_of("LAST_VALUE"@) == value(part_end(part_keys, i) - 1)
            &&& ordered ==> exists|j: int|
                i <= j < part_end(part_keys, i) && (j == i || identical_rows(
                    order_keys[j],
                    order_keys[i],
                )) && cell_of("LAST_VALUE"@) == #[trigger] value(j)
        }),
{
    let frame = effective_frame(None, ordered);
    let start = part_start(part_keys, i);
    let end = part_end(part_keys, i);
    law_partition_holds_its_row(part_keys, i);
    law_first_and_last_value(args, frame, names, rows, part_keys, order_keys, i, k);
    law_default_frames(
        WindowFrame {
            units: WindowFrameUnits::Rows,
            start: WindowBound::CurrentRow,
            end: WindowBound::CurrentRow,
        },
        order_keys,
        start,
        end,
        i,
    );
    let value = |j: int| Ok::<Val, Stop>(cell_if(rows[j], column_of(names, args[0])));
    let c = covered(frame, order_keys, start, end, i);
    let j = c->Some_0.1;
    assert(value(j) == Ok::<Val, Stop>(cell_if(rows[j], column_of(names, args[0]))));
}

/// `ROW_NUMBER` counts the rows of each partition from 1: the first row of a
/// partition has 1, and a row in the partition of the row before it has one
/// more than that row.
pub proof fn law_row_number_counts(
    call: CallView,
    names: Seq<Seq<char>>,
    rows: Seq<Seq<Val>>,
    part_keys: Seq<Seq<Val>>,
    order_keys: Seq<Seq<Val>>,
    i: int,
    k: Known,
)
    requires
        call.func_name == "ROW_NUMBER"@,
        0 <= i < part_keys.len() <= i64::MAX,
    ensures
        ({
            let at = |j: int| window_cell(call, names, rows, part_keys, order_keys, j, k);
            &&& at(i) is Ok && at(i)->Ok_0 is Int
            &&& part_start(part_keys, i) == i ==> at(i) == Ok::<Val, Stop>(Val::Int(1))
            &&& part_start(part_keys, i) < i ==> at(i)->Ok_0->Int_0 == at(i - 1)->Ok_0->Int_0 + 1
        }),
{
    lemma_function_names();
    law_partition_holds_its_row(part_keys, i);
    if part_start(part_keys, i) < i {
        law_partition_holds_its_row(part_keys, i - 1);
        assert(part_start(part_keys, i) == part_start(part_keys, i - 1));
    }
}

proof fn lemma_run_key(keys: Seq<Seq<Val>>, from: int, i: int)
    requires
        0 <= from <= i < keys.len(),
    ensures
        from <= run_start(keys, from, i) <= i,
        run_start(keys, from, i) < i ==> identical_rows(keys[i], keys[run_start(keys, from, i)]),
    decreases i - from,
{
    if i > from {
        lemma_run_key(keys, from, i - 1);
    }
}

proof fn lemma_run_steps(keys: Seq<Seq<Val>>, from: int, i: int)
    requires
        0 <= from < i < keys.len(),
        identical_rows(keys[i - 1], keys[i - 1]),
    ensures
        identical_rows(keys[i], keys[i - 1]) ==> run_start(keys, from, i) == run_start(
            keys,
            from,
            i - 1,
        ) && run_count(keys, from, i) == run_count(keys, from, i - 1),
        !identical_rows(keys[i], keys[i - 1]) ==> run_start(keys, from, i) == i && run_count(
            keys,
            from,
            i,
        ) == run_count(keys, from, i - 1) + 1,
{
    lemma_run_key(keys, from, i - 1);
    lemma_rows_join(keys[i - 1], keys[run_start(keys, from, i - 1)], keys[i]);
}

/// `RANK` and `DENSE_RANK` start at 1 in each partition. A row with the order
/// key of the row before it has that row's ranks; otherwise its `RANK` is its
/// row number and its `DENSE_RANK` one more than before.
pub proof fn law_ranks_follow_the_order_keys(
    args: Seq<Seq<char>>,
    frame: Option<WindowFrame>,
    names: Seq<Seq<char>>,
    rows: Seq<Seq<Val>>,
    part_keys: Seq<Seq<Val>>,
    order_keys: Seq<Seq<Val>>,
    i: int,
    k: Known,
)
    requires
        0 <= i < part_keys.len() <= i64::MAX,
        part_keys.len() == order_keys.len(),
        i > 0 ==> identical_rows(order_keys[i - 1], order_keys[i - 1]),
    ensures
        ({
            let at = |name: Seq<char>, j: int|
                window_cell(
                    CallView { func_name: name, args, frame },
                    names,
                    rows,
                    part_keys,
                    order_keys,
                    j,
                    k,
                );
            let fresh = part_start(part_keys, i) == i;
            &&& fresh ==> at("RANK"@, i) == Ok::<Val, Stop>(Val::Int(1)) && at("DENSE_RANK"@, i)
                == Ok::<Val, Stop>(Val::Int(1))
            &&& !fresh && identical_rows(order_keys[i], order_keys[i - 1]) ==> at("RANK"@, i)
                == at("RANK"@, i - 1) && at("DENSE_RANK"@, i) == at("DENSE_RANK"@, i - 1)
            &&& !fresh && !identical_rows(order_keys[i], order_keys[i - 1]) ==> at("RANK"@, i)
                == at("ROW_NUMBER"@, i) && at("DENSE_RANK"@, i) == Ok::<Val, Stop>(
                Val::Int((at("DENSE_RANK"@, i - 1)->Ok_0->Int_0 + 1) as i64),
            )
        }),
{
    lemma_function_names();
    law_partition_holds_its_row(part_keys, i);
    let start = part_start(part_keys, i);
    if start < i {
        law_partition_holds_its_row(part_keys, i - 1);
        assert(start == part_start(part_keys, i - 1));
        lemma_run_steps(order_keys, start, i);
        crate::window::law_rank_and_dense_rank(order_keys, start, i - 1);
        crate::window::law_rank_and_dense_rank(order_keys, start, i);
    }
}

/// `LAG(c, n)` is column `c` of the row `n` rows before, and `LEAD(c, n)` that
/// of the row `n` rows behind; each is NULL where that row is outside the
/// partition. Without a number they reach one row.
pub proof fn law_lag_and_lead_reach(
    args: Seq<Seq<char>>,
    frame: Option<WindowFrame>,
    names: Seq<Seq<char>>,
    rows: Seq<Seq<Val>>,
    part_keys: Seq<Seq<Val>>,
    order_keys: Seq<Seq<Val>>,
    i: int,
    n: usize,
    k: Known,
)
    requires
        args.len() > 0,
        args.len() == 1 ==> n == 1,
        args.len() > 1 ==> parsed_size(args[1]) == Some(n),
    ensures
        ({
            let at = |name: Seq<char>|
                window_cell(
                    CallView { func_name: name, args, frame },
                    names,
                    rows,
                    part_keys,
                    order_keys,
                    i,
                    k,
                );
            let value = |j: int| Ok::<Val, Stop>(cell_if(rows[j], column_of(names, args[0])));
            &&& i - n >= part_start(part_keys, i) ==> at("LAG"@) == value(i - n)
            &&& i - n < part_start(part_keys, i) ==> at("LAG"@) == Ok::<Val, Stop>(Val::Null)
            &&& i + n < part_end(part_keys, i) ==> at("LEAD"@) == value(i + n)
            &&& i + n >= part_end(part_keys, i) ==> at("LEAD"@) == Ok::<Val, Stop>(Val::Null)
        }),
{
    lemma_function_names();
}

/// `NTILE(n)` numbers `n` runs of rows of each partition from 1, as even as can
/// be: each bucket holds the whole quotient of rows, the first ones one more.
pub proof fn law_ntile_is_even(
    call: CallView,
    names: Seq<Seq<char>>,
    rows: Seq<Seq<Val>>,
    part_keys: Seq<Seq<Val>>,
    order_keys: Seq<Seq<Val>>,
    i: int,
    n: usize,
    k: Known,
)
    requires
        call.func_name == "NTILE"@,
        call.args.len() > 0,
        parsed_size(call.args[0]) == Some(n),
        0 < n <= i64::MAX,
        0 <= i < part_keys.len(),
    ensures
        ({
            let start = part_start(part_keys, i);
            let len = part_end(part_keys, i) - start;
            let quotient = len / (n as int);
            let more = len % (n as int);
            let r = window_cell(call, names, rows, part_keys, order_keys, i, k);
            let b = r->Ok_0->Int_0 as int;
            &&& r is Ok && r->Ok_0 is Int
            &&& 1 <= b <= n
            &&& b <= more ==> (b - 1) * (quotient + 1) <= i - start < b * (quotient + 1)
            &&& b > more ==> more + (b - 1) * quotient <= i - start < more + b * quotient
        }),
{
    lemma_function_names();
    law_partition_holds_its_row(part_keys, i);
    let start = part_start(part_keys, i);
    let len = part_end(part_keys, i) - start;
    let q = len / (n as int);
    let m = len % (n as int);
    law_buckets_are_even(n as int, len, i - start);
    let b = bucket_of(n as int, len, i - start);
    assert((b - 1) * (q + 1) == (b - 1) * q + (b - 1)) by (nonlinear_arith);
    assert(b * (q + 1) == b * q + b) by (nonlinear_arith);
    assert(bucket_start(n as int, len, b) == (b - 1) * q + if b - 1 < m {
        b - 1
    } else {
        m
    });
    assert(bucket_start(n as int, len, b + 1) == (b + 1 - 1) * q + if b + 1 - 1 < m {
        b + 1 - 1
    } else {
        m
    });
    assert((b + 1 - 1) * q == b * q);
}

/// `COUNT(*)` over a window is the number of rows that the frame covers.
pub proof fn law_count_counts_the_frame(
    frame: Option<WindowFrame>,
    names: Seq<Seq<char>>,
    rows: Seq<Seq<Val>>,
    part_keys: Seq<Seq<Val>>,
    order_keys: Seq<Seq<Val>>,
    i: int,
    k: Known,
)
    requires
        rows.len() == part_keys.len(),
        0 <= i < part_keys.len() <= i64::MAX,
    ensures
        ({
            let start = part_start(part_keys, i);
            let end = part_end(part_keys, i);
            let r = window_cell(
                CallView { func_name: "COUNT"@, args: seq!["*"@], frame },
                names,
                rows,
                part_keys,
                order_keys,
                i,
                k,
            );
            match covered(frame, order_keys, start, end, i) {
                Some((a, b)) => r == Ok::<Val, Stop>(Val::Int((b - a + 1) as i64)),
                None => r == Ok::<Val, Stop>(Val::Int(0)),
            }
        }),
{
    lemma_aggregate_names();
    assert(!is_ranking("COUNT"@));
    law_partition_holds_its_row(part_keys, i);
    let start = part_start(part_keys, i);
    let end = part_end(part_keys, i);
    if let Some(f) = frame {
        crate::frames::law_frames_stay_in_the_partition(
            f,
            end - start,
            i - start,
            order_keys.skip(start),
        );
    }
    assert(seq!["*"@][0] == "*"@);
}

/// An aggregate of a column over a window is the aggregate of that column's
/// cells in the rows that the frame covers, in order, and of no others.
#[verifier::rlimit(40)]
pub proof fn law_window_aggregates_read_the_frame(
    name: Seq<char>,
    op: AggregateOp,
    column: Seq<char>,
    p: int,
    frame: Option<WindowFrame>,
    names: Seq<Seq<char>>,
    rows: Seq<Seq<Val>>,
    part_keys: Seq<Seq<Val>>,
    order_keys: Seq<Seq<Val>>,
    i: int,
    k: Known,
)
    requires
        named_aggregate(name) == Some(op),
        column != "*"@,
        reference_position(names, column, k) == Ok::<Option<int>, Stop>(Some(p)),
        rows.len() == part_keys.len(),
        0 <= i < part_keys.len(),
    ensures
        ({
            let r = window_cell(
                CallView { func_name: name, args: seq![column], frame },
                names,
                rows,
                part_keys,
                order_keys,
                i,
                k,
            );
            let span = covered(
                frame,
                order_keys,
                part_start(part_keys, i),
                part_end(part_keys, i),
                i,
            );
            let (a, n) = match span {
                Some((a, b)) => (a, (b - a + 1) as nat),
                None => (0, 0nat),
            };
            r == asked(
                k,
                RequestView {
                    task: TaskView::Aggregate(op),
                    args: Seq::new(n, |j: int| Val::Array(seq![cell_if(rows[a + j], Some(p))])),
                },
            )
        }),
{
    lemma_aggregate_names();
    assert(name == "COUNT"@ || name == "SUM"@ || name == "MIN"@ || name == "MAX"@ || name
        == "AVG"@);
    assert(!is_ranking(name));
    law_partition_holds_its_row(part_keys, i);
    let start = part_start(part_keys, i);
    let end = part_end(part_keys, i);
    if let Some(f) = frame {
        crate::frames::law_frames_stay_in_the_partition(
            f,
            end - start,
            i - start,
            order_keys.skip(start),
        );
    }
    let args = seq![column];
    let none = Seq::<Seq<char>>::empty();
    assert(args.skip(1) =~= none);
    let span = covered(frame, order_keys, start, end, i);
    let slice = match span {
        Some((a, b)) => rows.subrange(a, b + 1),
        None => Seq::empty(),
    };
    let (a, n) = match span {
        Some((a, b)) => (a, (b - a + 1) as nat),
        None => (0, 0nat),
    };
    let spots = Seq::<Option<int>>::empty();
    assert(reference_positions(names, none, k) == Ok::<Seq<Option<int>>, Stop>(spots));
    let got = Seq::new(slice.len(), |j: int| window_input(slice[j], Some(p), none, spots));
    let want = Seq::new(n, |j: int| Val::Array(seq![cell_if(rows[a + j], Some(p))]));
    assert forall|j: int| 0 <= j < n implies got[j] == want[j] by {
        assert(slice[j] == rows[a + j]);
        let cellv = cell_if(slice[j], Some(p));
        let rest = Seq::new(
            none.len(),
            |x: int|
                match spots[x] {
                    Some(q) => crate::cells::cell(slice[j], q),
                    None => Val::Text(none[x]),
                },
        );
        assert(seq![cellv] + rest =~= seq![cellv]);
        assert(got[j] == Val::Array(seq![cellv] + rest));
    }
    assert(got =~= want);
}

// ---------------------------------------------------------------------------
// Whole columns
// ---------------------------------------------------------------------------

proof fn lemma_cells(
    call: CallView,
    names: Seq<Seq<char>>,
    rows: Seq<Seq<Val>>,
    part_keys: Seq<Seq<Val>>,
    order_keys: Seq<Seq<Val>>,
    n: nat,
    i: int,
    k: Known,
)
    requires
        window_cells(call, names, rows, part_keys, order_keys, n, k) is Ok,
        0 <= i < n,
    ensures
        ({
            let all = window_cells(call, names, rows, part_keys, order_keys, n, k)->Ok_0;
            all.len() == n && window_cell(call, names, rows, part_keys, order_keys, i, k) == Ok::<
                Val,
                Stop,
            >(all[i])
        }),
    decreases n,
{
    let m = (n - 1) as nat;
    if m == 0 {
        assert(window_cells(call, names, rows, part_keys, order_keys, 0, k) == Ok::<Seq<Val>, Stop>(
            Seq::empty(),
        ));
    } else if i < m {
        lemma_cells(call, names, rows, part_keys, order_keys, m, i, k);
    } else {
        lemma_cells(call, names, rows, part_keys, order_keys, m, 0, k);
    }
}

/// Every row of a window column has what the function gives at the row's place
/// among the rows sorted by partition key and order key: the rows, partition
/// keys, and order keys that the function sees are those of the sorted rows.
pub proof fn law_each_row_has_its_window_value(
    func_name: Seq<char>,
    args: Seq<Seq<char>>,
    partition_by: Seq<Seq<char>>,
    order_by: Seq<(Seq<char>, bool)>,
    frame: Option<WindowFrame>,
    names: Seq<Seq<char>>,
    rows: Seq<Seq<Val>>,
    i: int,
    k: Known,
)
    requires
        window_values(func_name, args, partition_by, order_by, frame, names, rows, k) is Ok,
        0 <= i < rows.len(),
    ensures
        ({
            let out = window_values(
                func_name,
                args,
                partition_by,
                order_by,
                frame,
                names,
                rows,
                k,
            )->Ok_0;
            let parts = found_columns(names, partition_by);
            let keys = found_columns(names, undirected(order_by));
            let p = sorted_rows(
                key_rows(rows, parts + keys),
                plain_orders(parts.len()) + found_orders(names, order_by),
                rows.len(),
                k,
            )->Ok_0;
            let sorted = Seq::new(p.len(), |j: int| rows[p[j]]);
            &&& out.len() == rows.len()
            &&& p.len() == rows.len()
            &&& window_cell(
                CallView {
                    func_name,
                    args,
                    frame: if frame is None {
                        effective_frame(None, order_by.len() > 0)
                    } else {
                        frame
                    },
                },
                names,
                sorted,
                Seq::new(p.len(), |j: int| cells(rows[p[j]], parts)),
                Seq::new(p.len(), |j: int| cells(rows[p[j]], keys)),
                i,
                k,
            ) == Ok::<Val, Stop>(out[p[i]])
        }),
{
    let parts = found_columns(names, partition_by);
    let keys = found_columns(names, undirected(order_by));
    let orders = plain_orders(parts.len()) + found_orders(names, order_by);
    law_sort_is_a_permutation(key_rows(rows, parts + keys), orders, rows.len(), k);
    let p = sorted_rows(key_rows(rows, parts + keys), orders, rows.len(), k)->Ok_0;
    let used = effective_frame(frame, order_by.len() > 0);
    let sorted = reordered(rows, p);
    let call = CallView { func_name, args, frame: used };
    let a = key_rows(sorted, parts);
    let b = key_rows(sorted, keys);
    let values = window_cells(call, names, sorted, a, b, rows.len(), k)->Ok_0;
    lemma_cells(call, names, sorted, a, b, rows.len(), i, k);
    law_placed_values(p, values, rows.len(), i);
    assert(sorted =~= Seq::new(p.len(), |j: int| rows[p[j]]));
    assert(a =~= Seq::new(p.len(), |j: int| cells(rows[p[j]], parts)));
    assert(b =~= Seq::new(p.len(), |j: int| cells(rows[p[j]], keys)));
}

proof fn lemma_found(names: Seq<Seq<char>>, refs: Seq<Seq<char>>, i: int)
    requires
        forall|j: int| 0 <= j < refs.len() ==> column_of(names, #[trigger] refs[j]) is Some,
        names.len() <= usize::MAX,
    ensures
        found_columns(names, refs).len() == refs.len(),
        0 <= i < refs.len() ==> column_of(names, refs[i]) == Some(
            found_columns(names, refs)[i] as int,
        ),
    decreases refs.len(),
{
    if refs.len() > 0 {
        let before = refs.drop_last();
        assert forall|j: int| 0 <= j < before.len() implies column_of(
            names,
            #[trigger] before[j],
        ) is Some by {
            assert(before[j] == refs[j]);
        }
        lemma_found(names, before, i);
        assert(column_of(names, refs[refs.len() - 1]) is Some);
        crate::names::lemma_column_of(names, refs.last());
    }
}

/// A window's rows are sorted by its partition columns, then by its ordering
/// columns, each in the direction that is written for it.
pub proof fn law_window_orders_keep_their_direction(
    names: Seq<Seq<char>>,
    order_by: Seq<(Seq<char>, bool)>,
    i: int,
)
    requires
        forall|j: int| 0 <= j < order_by.len() ==> column_of(names, (#[trigger] order_by[j]).0)
            is Some,
        0 <= i < order_by.len(),
        names.len() <= usize::MAX,
    ensures
        found_orders(names, order_by).len() == order_by.len(),
        found_orders(names, order_by)[i] == (KeyOrder::Directed {
            ascending: order_by[i].1,
            nulls_first: None,
        }),
        found_columns(names, undirected(order_by)).len() == order_by.len(),
        column_of(names, order_by[i].0) == Some(
            found_columns(names, undirected(order_by))[i] as int,
        ),
    decreases order_by.len(),
{
    let refs = undirected(order_by);
    assert forall|j: int| 0 <= j < refs.len() implies column_of(names, #[trigger] refs[j])
        is Some by {
        assert(column_of(names, order_by[j].0) is Some);
    }
    lemma_found(names, refs, i);
    lemma_found_orders(names, order_by, i);
}

proof fn lemma_found_orders(names: Seq<Seq<char>>, order_by: Seq<(Seq<char>, bool)>, i: int)
    requires
        forall|j: int| 0 <= j < order_by.len() ==> column_of(names, (#[trigger] order_by[j]).0)
            is Some,
    ensures
        found_orders(names, order_by).len() == order_by.len(),
        0 <= i < order_by.len() ==> found_orders(names, order_by)[i] == (KeyOrder::Directed {
            ascending: order_by[i].1,
            nulls_first: None,
        }),
    decreases order_by.len(),
{
    if order_by.len() > 0 {
        let before = order_by.drop_last();
        assert forall|j: int| 0 <= j < before.len() implies column_of(
            names,
            (#[trigger] before[j]).0,
        ) is Some by {
            assert(before[j] == order_by[j]);
        }
        lemma_found_orders(names, before, i);
        assert(column_of(names, order_by[order_by.len() - 1].0) is Some);
    }
}

} // verus!
