//! Window frames: which rows of an ordered partition a row's window covers.
use vstd::prelude::*;
use crate::cells::{are_identical, identical_rows};
use crate::plan_types::{WindowBound, WindowFrame, WindowFrameUnits};
use crate::value::{rows_view, vals, Val, Value};

verus! {

/// The first row from `i` on that shares the order key of the row at `pos`;
/// that row itself at the latest.
pub open spec fn first_peer(keys: Seq<Seq<Val>>, pos: int, i: int) -> int
    decreases pos - i,
{
    if i >= pos || identical_rows(keys[i], keys[pos]) {
        if i >= pos {
            pos
        } else {
            i
        }
    } else {
        first_peer(keys, pos, i + 1)
    }
}

/// The last row up to `i` that shares the order key of the row at `pos`; that
/// row itself at the earliest.
pub open spec fn last_peer(keys: Seq<Seq<Val>>, pos: int, i: int) -> int
    decreases i - pos,
{
    if i <= pos {
        pos
    } else if identical_rows(keys[i], keys[pos]) {
        i
    } else {
        last_peer(keys, pos, i - 1)
    }
}

/// Where a frame starts, before it is cut to the partition.
pub open spec fn frame_start(frame: WindowFrame, n: int, pos: int, keys: Seq<Seq<Val>>) -> int {
    match frame.units {
        WindowFrameUnits::Rows => match frame.start {
            WindowBound::UnboundedPreceding => 0,
            WindowBound::Preceding(k) => pos - k,
            WindowBound::CurrentRow => pos,
            WindowBound::Following(k) => pos + k,
            WindowBound::UnboundedFollowing => n,
        },
        WindowFrameUnits::Range => match frame.start {
            WindowBound::CurrentRow => first_peer(keys, pos, 0),
            WindowBound::UnboundedFollowing => n,
            _ => 0,
        },
    }
}

/// Where a frame ends, before it is cut to the partition.
pub open spec fn frame_end(frame: WindowFrame, n: int, pos: int, keys: Seq<Seq<Val>>) -> int {
    match frame.units {
        WindowFrameUnits::Rows => match frame.end {
            WindowBound::UnboundedPreceding => -1,
            WindowBound::Preceding(k) => pos - k,
            WindowBound::CurrentRow => pos,
            WindowBound::Following(k) => pos + k,
            WindowBound::UnboundedFollowing => n - 1,
        },
        WindowFrameUnits::Range => match frame.end {
            WindowBound::UnboundedPreceding => -1,
            WindowBound::CurrentRow => last_peer(keys, pos, n - 1),
            _ => n - 1,
        },
    }
}

/// The first and last row of the frame of the row at `pos` in an ordered
/// partition of `n` rows; `None` for an empty frame.
pub open spec fn frame_span(frame: WindowFrame, n: int, pos: int, keys: Seq<Seq<Val>>) -> Option<
    (int, int),
> {
    let start = frame_start(frame, n, pos, keys);
    let end = frame_end(frame, n, pos, keys);
    let from = if start < 0 {
        0
    } else {
        start
    };
    let to = if end > n - 1 {
        n - 1
    } else {
        end
    };
    if n <= 0 || from > to {
        None
    } else {
        Some((from, to))
    }
}

fn find_first_peer(keys: &Vec<Vec<Value>>, base: usize, pos: usize) -> (r: usize)
    requires
        base + pos < keys@.len(),
    ensures
        r == first_peer(rows_view(keys@).skip(base as int), pos as int, 0),
        r <= pos,
{
    let ghost view = rows_view(keys@).skip(base as int);
    let total: usize = keys.len();
    let mut i: usize = 0;
    while i < pos
        invariant
            i <= pos,
            base + pos < keys@.len(),
            view == rows_view(keys@).skip(base as int),
            total == keys@.len(),
            first_peer(view, pos as int, 0) == first_peer(view, pos as int, i as int),
        decreases pos - i,
    {
        assert(view[i as int] == vals(keys@[base + i]@));
        assert(view[pos as int] == vals(keys@[base + pos]@));
        if are_identical(&keys[base + i], &keys[base + pos]) {
            return i;
        }
        i = i + 1;
    }
    pos
}

fn find_last_peer(keys: &Vec<Vec<Value>>, base: usize, n: usize, pos: usize) -> (r: usize)
    requires
        pos < n,
        base + n <= keys@.len(),
    ensures
        r == last_peer(rows_view(keys@).skip(base as int), pos as int, n - 1),
        pos <= r < n,
{
    let ghost view = rows_view(keys@).skip(base as int);
    let total: usize = keys.len();
    let mut i: usize = n - 1;
    while i > pos
        invariant
            pos <= i < n,
            base + n <= keys@.len(),
            view == rows_view(keys@).skip(base as int),
            total == keys@.len(),
            last_peer(view, pos as int, n - 1) == last_peer(view, pos as int, i as int),
        decreases i - pos,
    {
        assert(view[i as int] == vals(keys@[base + i]@));
        assert(view[pos as int] == vals(keys@[base + pos]@));
        if are_identical(&keys[base + i], &keys[base + pos]) {
            return i;
        }
        i = i - 1;
    }
    pos
}

/// The inclusive range of rows, within an ordered partition of `group_len`
/// rows, that a window frame covers for the row at `pos`; `None` when the
/// frame is empty for that row. The partition's order keys are those of
/// `order_keys` from `base` on.
pub fn frame_bounds(
    frame: &WindowFrame,
    group_len: usize,
    pos: usize,
    order_keys: &Vec<Vec<Value>>,
    base: usize,
) -> (r: Option<(usize, usize)>)
    requires
        pos < group_len,
        base + group_len <= order_keys@.len(),
    ensures
        match (
            r,
            frame_span(
                *frame,
                group_len as int,
                pos as int,
                rows_view(order_keys@).skip(base as int),
            ),
        ) {
            (Some((a, b)), Some((c, d))) => a == c && b == d,
            (None, None) => true,
            _ => false,
        },
        r is Some ==> r->Some_0.0 <= r->Some_0.1 < group_len,
{
    let n: i128 = group_len as i128;
    let p: i128 = pos as i128;
    let (start, end): (i128, i128) = match frame.units {
        WindowFrameUnits::Rows => {
            let s: i128 = match frame.start {
                WindowBound::UnboundedPreceding => 0,
                WindowBound::Preceding(k) => p - k as i128,
                WindowBound::CurrentRow => p,
                WindowBound::Following(k) => p + k as i128,
                WindowBound::UnboundedFollowing => n,
            };
            let e: i128 = match frame.end {
                WindowBound::UnboundedPreceding => -1,
                WindowBound::Preceding(k) => p - k as i128,
                WindowBound::CurrentRow => p,
                WindowBound::Following(k) => p + k as i128,
                WindowBound::UnboundedFollowing => n - 1,
            };
            (s, e)
        },
        WindowFrameUnits::Range => {
            let s: i128 = match frame.start {
                WindowBound::CurrentRow => find_first_peer(order_keys, base, pos) as i128,
                WindowBound::UnboundedFollowing => n,
                _ => 0,
            };
            let e: i128 = match frame.end {
                WindowBound::UnboundedPreceding => -1,
                WindowBound::CurrentRow => find_last_peer(
                    order_keys,
                    base,
                    group_len,
                    pos,
                ) as i128,
                _ => n - 1,
            };
            (s, e)
        },
    };
    let from: i128 = if start < 0 {
        0
    } else {
        start
    };
    let to: i128 = if end > n - 1 {
        n - 1
    } else {
        end
    };
    if from > to {
        None
    } else {
        Some((from as usize, to as usize))
    }
}

/// A frame never reaches outside its partition.
pub proof fn law_frames_stay_in_the_partition(
    frame: WindowFrame,
    n: int,
    pos: int,
    keys: Seq<Seq<Val>>,
)
    requires
        0 <= pos < n,
    ensures
        match frame_span(frame, n, pos, keys) {
            Some((from, to)) => 0 <= from <= to < n,
            None => true,
        },
{
}

/// A frame from the partition's start to the current row covers that row, and
/// starts at the first row.
pub proof fn law_running_frame_covers_its_row(
    units: WindowFrameUnits,
    n: int,
    pos: int,
    keys: Seq<Seq<Val>>,
)
    requires
        0 <= pos < n,
    ensures
        ({
            let frame = WindowFrame {
                units,
                start: WindowBound::UnboundedPreceding,
                end: WindowBound::CurrentRow,
            };
            let span = frame_span(frame, n, pos, keys);
            span is Some && span->Some_0.0 == 0 && pos <= span->Some_0.1 < n
        }),
{
    lemma_last_peer_range(keys, pos, n - 1);
}

proof fn lemma_last_peer_range(keys: Seq<Seq<Val>>, pos: int, i: int)
    requires
        pos <= i,
    ensures
        pos <= last_peer(keys, pos, i) <= i,
    decreases i - pos,
{
    if i > pos && !identical_rows(keys[i], keys[pos]) {
        lemma_last_peer_range(keys, pos, i - 1);
    }
}

// ---------------------------------------------------------------------------
// NTILE
// ---------------------------------------------------------------------------

/// The bucket, counted from 1, of the row at `pos` when `len` rows are
/// distributed into `n` buckets as evenly as possible, the first `len % n` of
/// them getting one row more.
pub open spec fn bucket_of(n: int, len: int, pos: int) -> int {
    let base = len / n;
    let rem = len % n;
    if pos < rem * (base + 1) {
        pos / (base + 1) + 1
    } else {
        rem + (pos - rem * (base + 1)) / base + 1
    }
}

/// The first position of a bucket.
pub open spec fn bucket_start(n: int, len: int, bucket: int) -> int {
    let base = len / n;
    let rem = len % n;
    (bucket - 1) * base + if bucket - 1 < rem {
        bucket - 1
    } else {
        rem
    }
}

/// Every row falls in a bucket between 1 and `n`, and the buckets are runs of
/// consecutive rows whose sizes differ by at most one, the larger ones first.
pub proof fn law_buckets_are_even(n: int, len: int, pos: int)
    requires
        0 < n,
        0 <= pos < len,
    ensures
        1 <= bucket_of(n, len, pos) <= n,
        bucket_start(n, len, bucket_of(n, len, pos)) <= pos,
        pos < bucket_start(n, len, bucket_of(n, len, pos) + 1),
        bucket_start(n, len, 1) == 0,
        bucket_start(n, len, n + 1) == len,
{
    let base = len / n;
    let rem = len % n;
    let b = bucket_of(n, len, pos);
    assert(len == n * base + rem && 0 <= rem < n && base >= 0) by (nonlinear_arith)
        requires
            0 < n,
            0 < len,
            base == len / n,
            rem == len % n,
    ;
    assert((n + 1 - 1) * base == n * base);
    let cut = rem * (base + 1);
    assert(cut == rem * base + rem) by (nonlinear_arith)
        requires
            cut == rem * (base + 1),
    ;
    if pos < cut {
        let q = pos / (base + 1);
        let t = pos % (base + 1);
        assert(pos == q * (base + 1) + t && 0 <= t < base + 1 && q >= 0) by (nonlinear_arith)
            requires
                base >= 0,
                pos >= 0,
                q == pos / (base + 1),
                t == pos % (base + 1),
        ;
        assert(q < rem) by (nonlinear_arith)
            requires
                pos == q * (base + 1) + t,
                0 <= t,
                pos < rem * (base + 1),
                base >= 0,
        ;
        assert(q * (base + 1) == q * base + q) by (nonlinear_arith);
        assert((q + 1) * base == q * base + base) by (nonlinear_arith);
        assert(b == q + 1);
        assert((b - 1) * base == q * base);
        assert((b + 1 - 1) * base == (q + 1) * base);
    } else {
        assert(base > 0) by (nonlinear_arith)
            requires
                base >= 0,
                len == n * base + rem,
                pos < len,
                pos >= rem * (base + 1),
        ;
        let d = pos - cut;
        let q = d / base;
        let t = d % base;
        assert(d == q * base + t && 0 <= t < base && q >= 0) by (nonlinear_arith)
            requires
                base > 0,
                d >= 0,
                q == d / base,
                t == d % base,
        ;
        assert(b == rem + q + 1);
        assert((rem + q) * base == rem * base + q * base) by (nonlinear_arith);
        assert((rem + q + 1) * base == rem * base + q * base + base) by (nonlinear_arith);
        assert((b - 1) * base == (rem + q) * base);
        assert((b + 1 - 1) * base == (rem + q + 1) * base);
        assert(rem + q < n) by (nonlinear_arith)
            requires
                base > 0,
                rem * base + rem + q * base + t == pos,
                pos < len,
                len == n * base + rem,
                0 <= t,
        ;
    }
}

/// The bucket of the row at `pos` among `len` rows distributed into `n`.
pub fn ntile_bucket(n: usize, len: usize, pos: usize) -> (r: usize)
    requires
        0 < n,
        pos < len,
    ensures
        r == bucket_of(n as int, len as int, pos as int),
        1 <= r <= n,
{
    proof {
        law_buckets_are_even(n as int, len as int, pos as int);
        let (m, l) = (n as int, len as int);
        assert(l == m * (l / m) + l % m && 0 <= l % m && l % m < m) by (nonlinear_arith)
            requires
                0 < m,
        ;
    }
    let base: usize = len / n;
    let rem: usize = len % n;
    let ghost cut = rem as int * (base as int + 1);
    assert(cut <= len && base < len + 1) by (nonlinear_arith)
        requires
            cut == rem as int * (base as int + 1),
            len == n * base + rem,
            rem < n,
            0 < n,
    ;
    let step: u128 = base as u128 + 1;
    assert(rem as u128 * step <= len) by (nonlinear_arith)
        requires
            step == base + 1,
            rem as int * (base as int + 1) <= len,
    ;
    let edge: u128 = rem as u128 * step;
    let at: u128 = pos as u128;
    if at < edge {
        (at / step + 1) as usize
    } else {
        assert(base > 0) by (nonlinear_arith)
            requires
                len == n * base + rem,
                pos < len,
                pos >= rem as int * (base as int + 1),
        ;
        (rem as u128 + (at - edge) / (base as u128) + 1) as usize
    }
}

} // verus!
