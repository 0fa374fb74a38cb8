//! What casts, JSON operators, sequences, dates, and patterns promise of
//! values.
use vstd::prelude::*;
use crate::cast::{cast, cast_items};
use crate::facts::{described, ColumnType, Known, Stop};
use crate::folding::folded;
use crate::json_ops::{
    accessed, element, element_texts, has_all, has_any, has_key, json_array_op, member,
    share_text, step, walk,
};
use crate::interval::{interval_of, interval_text, Interval};
use crate::interval_laws::law_written_intervals_read_back;
use crate::literals::{constant, parameter};
use crate::pattern::{escaped, like_body, similar_body};
use crate::plan_types::ScalarBinaryOp;
use crate::scalar_ops::{binary_op, comparison, interval_arithmetic};
use crate::sequences::{
    advanced, current_after, initial_state, last_after, next_value, restarted, set_to,
    SequenceSpec, SessionCall, StateView,
};
use crate::syntax::{SqlBinaryOp, SqlValue};
use crate::temporal::{bare_day, date_offset, day_text, moment_of, month_shifted, Moment};
use crate::text::{parsed_int, parsed_size, trimmed};
use crate::value::{JsonView, Val};

verus! {

// ---------------------------------------------------------------------------
// Casts
// ---------------------------------------------------------------------------

/// Whether a type is known to be of a category, and no array type.
pub open spec fn is_scalar_type(t: Seq<char>, category: ColumnType, k: Known) -> bool {
    match described(k.types, t) {
        Some(info) => info.category == category && info.element is None,
        None => false,
    }
}

/// A cast to an integer type keeps integers, reads the text that writes one,
/// and takes true for 1 and false for 0; text that writes none is refused.
pub proof fn law_casts_to_integers(n: i64, b: bool, s: Seq<char>, t: Seq<char>, k: Known)
    requires
        is_scalar_type(t, ColumnType::Int, k),
    ensures
        cast(Val::Int(n), t, k) == Ok::<Val, Stop>(Val::Int(n)),
        cast(Val::Bool(b), t, k) == Ok::<Val, Stop>(
            Val::Int(
                if b {
                    1
                } else {
                    0
                },
            ),
        ),
        parsed_int(trimmed(s)) is Some ==> cast(Val::Text(s), t, k) == Ok::<Val, Stop>(
            Val::Int(parsed_int(trimmed(s))->Some_0),
        ),
        parsed_int(trimmed(s)) is None ==> cast(Val::Text(s), t, k) is Err,
{
}

/// A cast to boolean takes exactly 0 for false and keeps truth values; a truth
/// value cast to an integer and back is the same.
pub proof fn law_casts_to_booleans(n: i64, b: bool, t: Seq<char>, u: Seq<char>, k: Known)
    requires
        is_scalar_type(t, ColumnType::Bool, k),
        is_scalar_type(u, ColumnType::Int, k),
    ensures
        cast(Val::Bool(b), t, k) == Ok::<Val, Stop>(Val::Bool(b)),
        cast(Val::Int(n), t, k) == Ok::<Val, Stop>(Val::Bool(n != 0)),
        cast(cast(Val::Bool(b), u, k)->Ok_0, t, k) == Ok::<Val, Stop>(Val::Bool(b)),
{
}

/// Casting an array to an array type casts each element to the element type,
/// in order.
pub proof fn law_casts_of_arrays(
    items: Seq<Val>,
    t: Seq<char>,
    element: Seq<char>,
    i: int,
    k: Known,
)
    requires
        described(k.types, t) is Some,
        described(k.types, t)->Some_0.element == Some(element),
        cast(Val::Array(items), t, k) is Ok,
        0 <= i < items.len(),
        !(items[i] is Array),
    ensures
        cast(Val::Array(items), t, k)->Ok_0 is Array,
        cast(Val::Array(items), t, k)->Ok_0->Array_0.len() == items.len(),
        cast(items[i], element, k) == Ok::<Val, Stop>(
            cast(Val::Array(items), t, k)->Ok_0->Array_0[i],
        ),
{
    lemma_cast_items(items, t, element, i, k);
}

proof fn lemma_cast_items(items: Seq<Val>, t: Seq<char>, element: Seq<char>, i: int, k: Known)
    requires
        cast_items(items, t, element, k) is Ok,
        0 <= i < items.len(),
        !(items[i] is Array),
    ensures
        ({
            let out = cast_items(items, t, element, k)->Ok_0;
            out.len() == items.len() && cast(items[i], element, k) == Ok::<Val, Stop>(out[i])
        }),
    decreases items.len(),
{
    let before = items.drop_last();
    lemma_cast_len(before, t, element, k);
    if i < items.len() - 1 {
        lemma_cast_items(before, t, element, i, k);
    }
}

proof fn lemma_cast_len(items: Seq<Val>, t: Seq<char>, element: Seq<char>, k: Known)
    requires
        cast_items(items, t, element, k) is Ok,
    ensures
        cast_items(items, t, element, k)->Ok_0.len() == items.len(),
    decreases items.len(),
{
    if items.len() > 0 {
        lemma_cast_len(items.drop_last(), t, element, k);
    }
}

// ---------------------------------------------------------------------------
// Constants
// ---------------------------------------------------------------------------

/// Constants are folded as their operators say: comparisons of integers to
/// whether they hold, and anything with NULL to NULL.
pub proof fn law_folded_comparisons(op: SqlBinaryOp, a: i64, b: i64, v: Val, k: Known)
    requires
        op is Eq || op is NotEq || op is Lt || op is LtEq || op is Gt || op is GtEq,
    ensures
        folded(op, Val::Int(a), Val::Int(b), k) == Ok::<Option<Val>, Stop>(
            Some(
                Val::Bool(
                    match op {
                        SqlBinaryOp::Eq => a == b,
                        SqlBinaryOp::NotEq => a != b,
                        SqlBinaryOp::Lt => a < b,
                        SqlBinaryOp::LtEq => a <= b,
                        SqlBinaryOp::Gt => a > b,
                        _ => a >= b,
                    },
                ),
            ),
        ),
        folded(op, Val::Null, v, k) == Ok::<Option<Val>, Stop>(Some(Val::Null)),
        folded(op, v, Val::Null, k) == Ok::<Option<Val>, Stop>(Some(Val::Null)),
{
}

/// Dividing constants gives the quotient and the remainder, and NULL for a
/// division by zero; `||` joins two texts.
pub proof fn law_folded_division_and_concatenation(
    a: i64,
    b: i64,
    s: Seq<char>,
    t: Seq<char>,
    k: Known,
)
    requires
        0 <= a,
        0 <= b,
    ensures
        folded(SqlBinaryOp::Divide, Val::Int(a), Val::Int(b), k) == Ok::<Option<Val>, Stop>(
            Some(
                if b == 0 {
                    Val::Null
                } else {
                    Val::Int((a as int / b as int) as i64)
                },
            ),
        ),
        folded(SqlBinaryOp::Modulo, Val::Int(a), Val::Int(b), k) == Ok::<Option<Val>, Stop>(
            Some(
                if b == 0 {
                    Val::Null
                } else {
                    Val::Int((a as int % b as int) as i64)
                },
            ),
        ),
        folded(SqlBinaryOp::StringConcat, Val::Text(s), Val::Text(t), k) == Ok::<
            Option<Val>,
            Stop,
        >(Some(Val::Text(s + t))),
{
    if b > 0 {
        let (x, d) = (a as int, b as int);
        assert(0 <= x / d <= x) by (nonlinear_arith)
            requires
                x >= 0,
                d > 0,
        ;
        assert(0 <= x % d < d && 0int % d == 0) by (nonlinear_arith)
            requires
                d > 0,
        ;
    }
}

/// `$n` is the `n`-th parameter, counting from one, and nothing where there are
/// fewer.
pub proof fn law_parameters_count_from_one(n: nat, params: Seq<Val>, digits: Seq<char>)
    requires
        parsed_size(digits) == Some(n as usize),
        n <= usize::MAX,
    ensures
        0 < n <= params.len() ==> parameter(seq!['$'] + digits, params) == Some(params[n - 1]),
        n == 0 || n > params.len() ==> parameter(seq!['$'] + digits, params) is None,
{
    assert((seq!['$'] + digits).skip(1) =~= digits);
}

// ---------------------------------------------------------------------------
// JSON and arrays
// ---------------------------------------------------------------------------

/// `a <@ b` is `b @> a`, and `a && b` is `b && a`.
pub proof fn law_containment_is_converse(l: Val, r: Val, k: Known)
    ensures
        json_array_op(ScalarBinaryOp::ContainedBy, l, r, k) == json_array_op(
            ScalarBinaryOp::Contains,
            r,
            l,
            k,
        ),
        json_array_op(ScalarBinaryOp::Overlap, l, r, k) is Ok ==> json_array_op(
            ScalarBinaryOp::Overlap,
            l,
            r,
            k,
        ) == json_array_op(ScalarBinaryOp::Overlap, r, l, k),
{
    let a = element_texts(l, k);
    let b = element_texts(r, k);
    if a is Ok && b is Ok {
        lemma_sharing_is_mutual(a->Ok_0, b->Ok_0);
        lemma_sharing_is_mutual(b->Ok_0, a->Ok_0);
    }
}

proof fn lemma_sharing_is_mutual(a: Seq<Seq<char>>, b: Seq<Seq<char>>)
    ensures
        share_text(a, b) ==> share_text(b, a),
{
    if share_text(a, b) {
        let i = choose|i: int| 0 <= i < a.len() && b.contains(#[trigger] a[i]);
        let j = choose|j: int| 0 <= j < b.len() && b[j] == a[i];
        assert(a.contains(b[j]));
    }
}

/// Two arrays of texts overlap exactly where an element of one is an element of
/// the other.
pub proof fn law_overlap_shares_an_element(a: Seq<Seq<char>>, b: Seq<Seq<char>>)
    ensures
        share_text(a, b) <==> exists|i: int, j: int|
            0 <= i < a.len() && 0 <= j < b.len() && #[trigger] a[i] == #[trigger] b[j],
{
    if share_text(a, b) {
        let i = choose|i: int| 0 <= i < a.len() && b.contains(#[trigger] a[i]);
        let j = choose|j: int| 0 <= j < b.len() && b[j] == a[i];
        assert(a[i] == b[j]);
    }
    if exists|i: int, j: int|
        0 <= i < a.len() && 0 <= j < b.len() && #[trigger] a[i] == #[trigger] b[j] {
        let (i, j) = choose|i: int, j: int|
            0 <= i < a.len() && 0 <= j < b.len() && #[trigger] a[i] == #[trigger] b[j];
        assert(b.contains(a[i]));
    }
}

/// `?|` and `?&` on one key are `?`; on more keys a key more makes `?|` true
/// where the document has it, and `?&` false where it has it not.
pub proof fn law_keys_asked_together(j: JsonView, keys: Seq<Seq<char>>, key: Seq<char>)
    ensures
        has_any(j, seq![key]) == has_key(j, key),
        has_all(j, seq![key]) == has_key(j, key),
        !has_any(j, Seq::empty()),
        has_all(j, Seq::empty()),
        has_any(j, keys.push(key)) <==> has_any(j, keys) || has_key(j, key),
        has_all(j, keys.push(key)) <==> has_all(j, keys) && has_key(j, key),
{
    let one = seq![key];
    assert(one[0] == key);
    let more = keys.push(key);
    assert(more[keys.len() as int] == key);
    if has_any(j, keys) {
        let i = choose|i: int| 0 <= i < keys.len() && has_key(j, #[trigger] keys[i]);
        assert(more[i] == keys[i]);
    }
    if has_any(j, more) && !has_key(j, key) {
        let i = choose|i: int| 0 <= i < more.len() && has_key(j, #[trigger] more[i]);
        assert(keys[i] == more[i]);
    }
    if has_all(j, more) {
        assert forall|i: int| 0 <= i < keys.len() implies has_key(j, #[trigger] keys[i]) by {
            assert(more[i] == keys[i]);
        }
    }
    if has_all(j, keys) && has_key(j, key) {
        assert forall|i: int| 0 <= i < more.len() implies has_key(j, #[trigger] more[i]) by {
            if i < keys.len() {
                assert(more[i] == keys[i]);
            }
        }
    }
}

/// A negative position counts from the end of a JSON array; a position outside
/// it has no element.
pub proof fn law_negative_positions_count_from_the_end(items: Seq<JsonView>, i: int)
    ensures
        0 <= i < items.len() ==> element(items, i) == Some(items[i]) && element(
            items,
            i - items.len(),
        ) == Some(items[i]),
        i >= items.len() || i < -items.len() ==> element(items, i) is None,
{
}

/// `->` gives the document itself and `->>` its text: the characters of a
/// string, and NULL for a JSON null; a missing document is NULL for both.
pub proof fn law_json_access(j: JsonView, s: Seq<char>)
    ensures
        accessed(Some(j), false) == Val::Jsonb(j),
        accessed(Some(JsonView::Str(s)), true) == Val::Text(s),
        accessed(Some(JsonView::Null), true) == Val::Null,
        !(j is Null) ==> accessed(Some(j), true) is Text,
        accessed(None, true) == Val::Null,
        accessed(None, false) == Val::Null,
{
}

/// A path of keys is walked one key at a time: the document it leads to is what
/// its last step gives where the keys before it lead, and a path that leads
/// nowhere leads nowhere.
pub proof fn law_paths_are_walked_in_steps(
    j: Option<JsonView>,
    first: Seq<char>,
    rest: Seq<Seq<char>>,
    k: Known,
)
    ensures
        j is Some && step(j->Some_0, Val::Text(first), k) is Ok ==> walk(
            j,
            seq![first] + rest,
            k,
        ) == walk(step(j->Some_0, Val::Text(first), k)->Ok_0, rest, k),
        walk(None, rest, k) == Ok::<Option<JsonView>, Stop>(None),
        walk(j, Seq::empty(), k) == Ok::<Option<JsonView>, Stop>(j),
    decreases rest.len(),
{
    assert((seq![first] + rest).skip(1) =~= rest);
    assert((seq![first] + rest)[0] == first);
    if rest.len() > 0 {
        law_paths_are_walked_in_steps(None, first, rest.skip(1), k);
    }
}

/// A member of an object is found by its name: the first of that name, and none
/// where there is none.
pub proof fn law_members_are_found_by_name(m: Seq<(Seq<char>, JsonView)>, i: int)
    requires
        0 <= i < m.len(),
        forall|j: int| 0 <= j < i ==> (#[trigger] m[j]).0 != m[i].0,
    ensures
        member(m, m[i].0) == Some(m[i].1),
    decreases i,
{
    if i > 0 {
        let rest = m.skip(1);
        assert(m[0].0 != m[i].0);
        assert forall|j: int| 0 <= j < i - 1 implies (#[trigger] rest[j]).0 != rest[i - 1].0 by {
            assert(rest[j] == m[j + 1]);
        }
        law_members_are_found_by_name(rest, i - 1);
    }
}

// ---------------------------------------------------------------------------
// Sequences
// ---------------------------------------------------------------------------

/// A sequence hands out its last value plus its increment where that is within
/// its bounds. Beyond them it wraps to the opposite bound if it cycles, and
/// fails if it does not. The value handed out is then the last value.
pub proof fn law_a_sequence_steps_by_its_increment(s: StateView, name: Seq<char>)
    requires
        s.well_formed(),
    ensures
        ({
            let r = next_value(s, name);
            let next = s.last_value + s.increment;
            &&& !s.is_called ==> r == Ok::<i64, Seq<char>>(s.last_value)
            &&& s.is_called && s.min <= next <= s.max ==> r is Ok && r->Ok_0 == next
            &&& s.is_called && !(s.min <= next <= s.max) && !s.cycle ==> r is Err
            &&& s.is_called && next > s.max && s.cycle ==> r == Ok::<i64, Seq<char>>(s.min)
            &&& s.is_called && next < s.min && s.cycle ==> r == Ok::<i64, Seq<char>>(s.max)
            &&& r is Ok ==> s.min <= r->Ok_0 <= s.max
            &&& r is Ok <==> advanced(s, name) is Ok
            &&& r is Ok ==> advanced(s, name)->Ok_0.last_value == r->Ok_0 && advanced(
                s,
                name,
            )->Ok_0.is_called
        }),
{
}

/// A new sequence without options counts up from 1 by 1 within the range of
/// its type; with a negative increment it counts down from -1. Options given
/// are used as they are, and its first value is its start.
pub proof fn law_new_sequences(s: SequenceSpec, name: Seq<char>)
    requires
        initial_state(s) is Ok,
    ensures
        ({
            let t = initial_state(s)->Ok_0;
            &&& next_value(t, name) == Ok::<i64, Seq<char>>(t.start)
            &&& s.increment is None ==> t.increment == 1
            &&& s.increment is Some ==> t.increment == s.increment->Some_0
            &&& s.min_value is Some ==> t.min == s.min_value->Some_0
            &&& s.max_value is Some ==> t.max == s.max_value->Some_0
            &&& s.start is Some ==> t.start == s.start->Some_0
            &&& s.min_value is None && t.increment > 0 ==> t.min == 1
            &&& s.max_value is None && t.increment < 0 ==> t.max == -1
            &&& s.start is None ==> t.start == (if t.increment > 0 {
                t.min
            } else {
                t.max
            })
            &&& t.cycle == s.cycle
            &&& t.min <= t.start <= t.max && t.min < t.max && t.increment != 0
        }),
{
}

/// `setval` takes exactly the values within the bounds, and changes nothing but
/// the value and whether it counts as called.
pub proof fn law_setval_takes_values_in_bounds(
    s: StateView,
    name: Seq<char>,
    value: i64,
    is_called: bool,
)
    ensures
        set_to(s, name, value, is_called) is Ok <==> s.min <= value <= s.max,
        set_to(s, name, value, is_called) is Ok ==> ({
            let t = set_to(s, name, value, is_called)->Ok_0;
            &&& t.last_value == value && t.is_called == is_called
            &&& t.min == s.min && t.max == s.max && t.increment == s.increment && t.start
                == s.start && t.cycle == s.cycle
        }),
        restarted(s).last_value == s.start && !restarted(s).is_called,
{
}

// ---------------------------------------------------------------------------
// Dates
// ---------------------------------------------------------------------------

/// A date moved by whole days and months stays a date: the one as many days
/// behind the day that the months lead to. Moving by no months and `d` days and
/// moving back are moves by the same number of days.
pub proof fn law_a_date_moves_by_days(
    v: Seq<char>,
    m: Moment,
    months: i64,
    days: i64,
    k: Known,
)
    requires
        moment_of(trimmed(v), k) == Ok::<Option<Moment>, Stop>(Some(m)),
        !m.timed,
        m.second == 0,
    ensures
        date_offset(Val::Text(v), months, days, 0, k) == (match day_text(
            month_shifted(m.day, months) + days,
        ) {
            Ok(t) => Ok(Val::Text(t)),
            Err(s) => Err(s),
        }),
{
    let d = month_shifted(m.day, months) as int + days as int;
    let total = month_shifted(m.day, months) * 86_400 + days * 86_400;
    assert(total == d * 86_400) by (nonlinear_arith)
        requires
            total == month_shifted(m.day, months) * 86_400 + days * 86_400,
            d == month_shifted(m.day, months) as int + days as int,
    ;
    assert(total / 86_400 == d);
}

// ---------------------------------------------------------------------------
// Patterns
// ---------------------------------------------------------------------------

/// In a `LIKE` pattern `%` matches any run of characters, `_` one character,
/// the escape character makes the next one stand for itself, and every other
/// character stands for itself, wherever they stand.
pub proof fn law_like_reads_character_by_character(
    c: char,
    rest: Seq<char>,
    escape: Option<char>,
)
    requires
        like_body(rest, escape) is Some,
    ensures
        ({
            let after = like_body(rest, escape)->Some_0;
            let read = |c: char| like_body(seq![c] + rest, escape);
            &&& escape != Some('%') ==> read('%') == Some(".*"@ + after)
            &&& escape != Some('_') ==> read('_') == Some("."@ + after)
            &&& escape != Some(c) && c != '%' && c != '_' ==> read(c) == Some(escaped(c) + after)
            &&& escape is Some ==> like_body(seq![escape->Some_0, c] + rest, escape) == Some(
                escaped(c) + after,
            )
        }),
        like_body(Seq::empty(), escape) == Some(Seq::<char>::empty()),
        escape is Some ==> like_body(seq![escape->Some_0], escape) is None,
{
    assert((seq![c] + rest).skip(1) =~= rest);
    assert((seq!['%'] + rest).skip(1) =~= rest);
    assert((seq!['_'] + rest).skip(1) =~= rest);
    if escape is Some {
        assert((seq![escape->Some_0, c] + rest).skip(2) =~= rest);
    }
}

/// In a `SIMILAR TO` pattern, outside brackets, `%` and `_` mean what they mean
/// in `LIKE`, the operators `|`, `*`, `+`, `?`, `{`, `}`, `(`, and `)` mean what
/// they mean in a regular expression, and other characters stand for
/// themselves; inside brackets every character is kept as it is.
pub proof fn law_similar_reads_character_by_character(
    c: char,
    rest: Seq<char>,
    escape: Option<char>,
    in_class: bool,
)
    requires
        escape != Some(c),
        c != '[',
        c != ']',
        similar_body(rest, escape, in_class) is Some,
    ensures
        ({
            let after = similar_body(rest, escape, in_class)->Some_0;
            let read = similar_body(seq![c] + rest, escape, in_class);
            &&& !in_class && c == '%' ==> read == Some(".*"@ + after)
            &&& !in_class && c == '_' ==> read == Some("."@ + after)
            &&& in_class || c == '|' || c == '*' || c == '+' || c == '?' || c == '{' || c == '}'
                || c == '(' || c == ')' ==> read == Some(seq![c] + after)
        }),
{
    assert((seq![c] + rest).skip(1) =~= rest);
}

/// `currval` is the value that the session itself drew last, or set last as
/// called, from that sequence: other sessions, other sequences, and values that
/// do not count as called leave it, and the end of the session clears it.
pub proof fn law_currval_is_the_last_value(
    before: Option<i64>,
    call: SessionCall,
    session: Seq<char>,
    id: u128,
)
    ensures
        ({
            let now = current_after(before, call, session, id);
            &&& call is Drew && call->Drew_session == session && call->Drew_id == id ==> now == Some(
                call->Drew_value,
            )
            &&& call is Assigned && call->Assigned_session == session && call->Assigned_id == id
                && call->is_called ==> now == Some(call->Assigned_value)
            &&& call is Assigned && !call->is_called ==> now == before
            &&& call is Drew && (call->Drew_session != session || call->Drew_id != id) ==> now
                == before
            &&& call is Ended && call->Ended_session == session ==> now is None
            &&& call is Ended && call->Ended_session != session ==> now == before
            &&& call is Drew && call->Drew_session == session ==> last_after(before, call, session)
                == Some(call->Drew_value)
            &&& call is Drew && call->Drew_session != session ==> last_after(before, call, session)
                == before
        }),
{
}

/// The constants of SQL are the values they write.
pub proof fn law_constants_are_what_they_write(v: SqlValue, params: Seq<Val>, k: Known)
    ensures
        v is Boolean ==> constant(v, params, k) == Ok::<Option<Val>, Stop>(
            Some(Val::Bool(v->Boolean_0)),
        ),
        v is Quoted ==> constant(v, params, k) == Ok::<Option<Val>, Stop>(
            Some(Val::Text(v->Quoted_0@)),
        ),
        v is Null ==> constant(v, params, k) == Ok::<Option<Val>, Stop>(Some(Val::Null)),
        v is Number && parsed_int(v->Number_0@) is Some ==> constant(v, params, k) == Ok::<
            Option<Val>,
            Stop,
        >(Some(Val::Int(parsed_int(v->Number_0@)->Some_0))),
{
}

/// Adding and subtracting intervals adds and subtracts their months, days, and
/// seconds.
#[verifier::rlimit(40)]
pub proof fn law_interval_sums(a: Interval, b: Interval, k: Known)
    requires
        -1_000_000_000 <= a.0 <= 1_000_000_000,
        -1_000_000_000 <= a.1 <= 1_000_000_000,
        -1_000_000_000 <= a.2 <= 1_000_000_000,
        -1_000_000_000 <= b.0 <= 1_000_000_000,
        -1_000_000_000 <= b.1 <= 1_000_000_000,
        -1_000_000_000 <= b.2 <= 1_000_000_000,
        bare_day(interval_text(a.0 as int, a.1 as int, a.2 as int), k) == Ok::<
            Option<i32>,
            Stop,
        >(None),
        bare_day(interval_text(b.0 as int, b.1 as int, b.2 as int), k) is Ok,
    ensures
        ({
            let x = Val::Text(interval_text(a.0 as int, a.1 as int, a.2 as int));
            let y = Val::Text(interval_text(b.0 as int, b.1 as int, b.2 as int));
            &&& binary_op(ScalarBinaryOp::Add, x, y, k) == Ok::<Val, Stop>(
                Val::Text(interval_text(a.0 + b.0, a.1 + b.1, a.2 + b.2)),
            )
            &&& binary_op(ScalarBinaryOp::Sub, x, y, k) == Ok::<Val, Stop>(
                Val::Text(interval_text(a.0 - b.0, a.1 - b.1, a.2 - b.2)),
            )
        }),
{
    let ls = interval_text(a.0 as int, a.1 as int, a.2 as int);
    let rs = interval_text(b.0 as int, b.1 as int, b.2 as int);
    lemma_text_sums(ls, rs, k);
    law_written_intervals_read_back(a.0, a.1, a.2);
    law_written_intervals_read_back(b.0, b.1, b.2);
    lemma_interval_sum(ls, rs, a, b, false, k);
    lemma_interval_sum(ls, rs, a, b, true, k);
}

proof fn lemma_text_sums(ls: Seq<char>, rs: Seq<char>, k: Known)
    requires
        bare_day(ls, k) == Ok::<Option<i32>, Stop>(None),
        bare_day(rs, k) is Ok,
    ensures
        binary_op(ScalarBinaryOp::Add, Val::Text(ls), Val::Text(rs), k) == interval_arithmetic(
            ls,
            rs,
            false,
            k,
        ),
        binary_op(ScalarBinaryOp::Sub, Val::Text(ls), Val::Text(rs), k) == interval_arithmetic(
            ls,
            rs,
            true,
            k,
        ),
{
    reveal(binary_op);
}

proof fn lemma_interval_sum(
    ls: Seq<char>,
    rs: Seq<char>,
    a: Interval,
    b: Interval,
    sub: bool,
    k: Known,
)
    requires
        interval_of(ls) == Some(a),
        interval_of(rs) == Some(b),
        -1_000_000_000 <= a.0 <= 1_000_000_000,
        -1_000_000_000 <= a.1 <= 1_000_000_000,
        -1_000_000_000 <= a.2 <= 1_000_000_000,
        -1_000_000_000 <= b.0 <= 1_000_000_000,
        -1_000_000_000 <= b.1 <= 1_000_000_000,
        -1_000_000_000 <= b.2 <= 1_000_000_000,
    ensures
        interval_arithmetic(ls, rs, sub, k) == Ok::<Val, Stop>(
            Val::Text(
                if sub {
                    interval_text(a.0 - b.0, a.1 - b.1, a.2 - b.2)
                } else {
                    interval_text(a.0 + b.0, a.1 + b.1, a.2 + b.2)
                },
            ),
        ),
{
}

/// A text that writes an integer compares with an integer as that integer, on
/// either side.
pub proof fn law_texts_compare_as_the_integers_they_write(
    op: ScalarBinaryOp,
    s: Seq<char>,
    a: i64,
    b: i64,
    k: Known,
)
    requires
        comparison(op),
        parsed_int(trimmed(s)) == Some(a),
    ensures
        binary_op(op, Val::Text(s), Val::Int(b), k) == binary_op(op, Val::Int(a), Val::Int(b), k),
        binary_op(op, Val::Int(b), Val::Text(s), k) == binary_op(op, Val::Int(b), Val::Int(a), k),
{
    reveal(binary_op);
}

} // verus!
