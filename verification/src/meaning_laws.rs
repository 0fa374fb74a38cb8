//! What the spellings of a statement mean: functions with a syntax of their
//! own, dates and intervals, names, types, and settings.
use vstd::prelude::*;
use crate::arrange::{key_source, KeySource};
use crate::expr::ExprView;
use crate::facts::{Known, Stop};
use crate::grouping_sets::{grouped_by, ordinal_of, Grouping};
use crate::interval::{magnitude, unit_added, Interval};
use crate::lower::lowered;
use crate::names::{column_of, names_column};
use crate::plan_merge::{planned_clause, planned_clauses, planned_merge, ClauseView};
use crate::plan_types::{AggregateOp, ScalarBinaryOp, SortTarget};
use crate::plan_views::{FilterView, ItemView};
use crate::planner::planned_filter;
use crate::render::{shown, text_rank, Rank};
use crate::result_types::{
    aggregate_type_of, arithmetic_type, binary_type_of, float_type, integer_rank_of, numeric_type,
};
use crate::scalar_ops::{bool_of_text, binary_op};
use crate::session_vars::{default_var, setting_of};
use crate::syntax::{Merge, MergeWhen, SqlBinaryOp, SqlExpr};
use crate::temporal::{bare_day, datetime_field, day_text};
use crate::text::{
    decimal, law_decimal_reads_back, lower, parsed_int, parsed_size, split, strip_end, trimmed,
    upper,
};
use crate::value::Val;

verus! {

// ---------------------------------------------------------------------------
// Functions with a syntax of their own
// ---------------------------------------------------------------------------

/// The expression that an expression is lowered to.
pub open spec fn form(e: SqlExpr, params: Seq<Val>, k: Known) -> ExprView {
    lowered(e, params, k)->Ok_0->Some_0
}

/// Whether an expression can be lowered.
pub open spec fn has_form(e: SqlExpr, params: Seq<Val>, k: Known) -> bool {
    lowered(e, params, k) is Ok && lowered(e, params, k)->Ok_0 is Some
}

/// `SUBSTRING(x FROM a FOR b)` is `SUBSTR(x, a, b)`, with its parts in that
/// order; without `FOR` the length is left out, and without `FROM` the text
/// starts at its first character.
#[verifier::rlimit(40)]
pub proof fn law_substring_keeps_its_parts(e: SqlExpr, params: Seq<Val>, k: Known)
    requires
        e.node is Substring,
        has_form(*e.node->Substring_expr, params, k),
        e.node->Substring_from is Some ==> has_form(
            *e.node->Substring_from->Some_0,
            params,
            k,
        ),
        e.node->Substring_length is Some ==> has_form(
            *e.node->Substring_length->Some_0,
            params,
            k,
        ),
    ensures
        ({
            let x = form(*e.node->Substring_expr, params, k);
            let from = e.node->Substring_from;
            let length = e.node->Substring_length;
            let call = form(e, params, k);
            let args = call->Function_1;
            &&& has_form(e, params, k)
            &&& call is Function && call->Function_0 == "SUBSTR"@
            &&& args[0] == x
            &&& from is Some ==> args[1] == form(*from->Some_0, params, k)
            &&& from is Some && length is Some ==> args.len() == 3 && args[2] == form(
                *length->Some_0,
                params,
                k,
            )
            &&& from is Some && length is None ==> args.len() == 2
            &&& from is None && length is Some ==> args.len() == 3 && args[1]
                == ExprView::Literal(Val::Int(1)) && args[2] == form(*length->Some_0, params, k)
        }),
{
    reveal_with_fuel(lowered, 2);
}

/// `POSITION(a IN b)` looks for `a` in `b`.
pub proof fn law_position_looks_for_the_first_in_the_second(
    e: SqlExpr,
    params: Seq<Val>,
    k: Known,
)
    requires
        e.node is Position,
        has_form(*e.node->Position_expr, params, k),
        has_form(*e.node->Position_within, params, k),
    ensures
        has_form(e, params, k),
        form(e, params, k) == ExprView::Function(
            "STRPOS"@,
            seq![
                form(*e.node->Position_within, params, k),
                form(*e.node->Position_expr, params, k),
            ],
        ),
{
    reveal_with_fuel(lowered, 2);
}

/// `TRIM(LEADING ..)` trims on the left, `TRIM(TRAILING ..)` on the right, and
/// `TRIM(BOTH ..)` on both sides; no two of them are the same function.
#[verifier::rlimit(40)]
pub proof fn law_trim_sides(e: SqlExpr, params: Seq<Val>, k: Known)
    requires
        e.node is Trim,
        has_form(e, params, k),
    ensures
        ({
            let call = form(e, params, k);
            &&& call is Function
            &&& call->Function_0 == "LTRIM"@ <==> e.node->Trim_side is Leading
            &&& call->Function_0 == "RTRIM"@ <==> e.node->Trim_side is Trailing
            &&& call->Function_0 == "BTRIM"@ <==> e.node->Trim_side is Both
            &&& call->Function_1[0] == form(*e.node->Trim_expr, params, k)
        }),
{
    reveal_strlit("LTRIM");
    reveal_strlit("RTRIM");
    reveal_strlit("BTRIM");
    assert("LTRIM"@[0] == 'L' && "RTRIM"@[0] == 'R' && "BTRIM"@[0] == 'B');
    reveal_with_fuel(lowered, 2);
}

/// `CEIL` and `FLOOR` are told apart.
pub proof fn law_ceil_and_floor(e: SqlExpr, params: Seq<Val>, k: Known)
    requires
        e.node is Rounded,
        has_form(e, params, k),
    ensures
        form(e, params, k) is Function,
        form(e, params, k)->Function_0 == "CEIL"@ <==> e.node->Rounded_up,
        form(e, params, k)->Function_0 == "FLOOR"@ <==> !e.node->Rounded_up,
{
    reveal_strlit("CEIL");
    reveal_strlit("FLOOR");
    assert("CEIL"@.len() == 4 && "FLOOR"@.len() == 5);
    reveal_with_fuel(lowered, 2);
}

/// `[NOT] LIKE` and `[NOT] ILIKE` without `ESCAPE` mean what the operators `~~`,
/// `!~~`, `~~*`, and `!~~*` mean: only `ILIKE` ignores case, and exactly the
/// `NOT` forms are negated.
#[verifier::rlimit(40)]
pub proof fn law_like_is_its_operator(like: SqlExpr, op: SqlExpr, params: Seq<Val>, k: Known)
    requires
        like.node is Like,
        like.node->Like_kind is Like || like.node->Like_kind is ILike,
        !like.node->Like_any,
        like.node->Like_escape is None,
        op.node is Binary,
        op.node->Binary_left == like.node->Like_expr,
        op.node->Binary_right == like.node->Like_pattern,
        !(op.node->Binary_left.node is Interval),
        !(op.node->Binary_right.node is Interval),
        op.node->Binary_op == (if like.node->Like_kind is ILike {
            if like.node->Like_negated {
                SqlBinaryOp::NotILikeMatch
            } else {
                SqlBinaryOp::ILikeMatch
            }
        } else {
            if like.node->Like_negated {
                SqlBinaryOp::NotLikeMatch
            } else {
                SqlBinaryOp::LikeMatch
            }
        }),
    ensures
        lowered(like, params, k) == lowered(op, params, k),
        has_form(like, params, k) ==> form(like, params, k) is PatternMatch && form(
            like,
            params,
            k,
        )->PatternMatch_negated == like.node->Like_negated && form(
            like,
            params,
            k,
        )->case_insensitive == like.node->Like_kind is ILike,
{
    reveal_with_fuel(lowered, 2);
}

// ---------------------------------------------------------------------------
// Dates and intervals
// ---------------------------------------------------------------------------

/// A date plus a number of days is the date that many days later, a date minus
/// a number of days the date that many days earlier, and the difference of two
/// dates the number of days between them.
pub proof fn law_date_arithmetic(
    a: Seq<char>,
    b: Seq<char>,
    x: i32,
    y: i32,
    n: i64,
    k: Known,
)
    requires
        bare_day(a, k) == Ok::<Option<i32>, Stop>(Some(x)),
        bare_day(b, k) == Ok::<Option<i32>, Stop>(Some(y)),
    ensures
        ({
            let of = |op: ScalarBinaryOp, l: Val, r: Val| binary_op(op, l, r, k);
            let day = |d: int|
                match day_text(d) {
                    Ok(t) => Ok::<Val, Stop>(Val::Text(t)),
                    Err(s) => Err(s),
                };
            &&& of(ScalarBinaryOp::Add, Val::Text(a), Val::Int(n)) == day(x + n)
            &&& of(ScalarBinaryOp::Add, Val::Int(n), Val::Text(a)) == day(x + n)
            &&& of(ScalarBinaryOp::Sub, Val::Text(a), Val::Int(n)) == day(x - n)
            &&& of(ScalarBinaryOp::Sub, Val::Text(a), Val::Text(b)) == Ok::<Val, Stop>(
                Val::Int((x - y) as i64),
            )
        }),
{
    reveal(binary_op);
}

/// Whether a word is a unit, in any case and with or without a plural `s`.
pub open spec fn is_unit(word: Seq<char>, unit: Seq<char>) -> bool {
    strip_end(lower(word), 's') == unit
}

proof fn lemma_units()
    ensures
        "year"@ != "month"@ && "year"@ != "mon"@ && "year"@ != "week"@ && "year"@ != "day"@,
        "month"@ != "year"@ && "month"@ != "yr"@,
        "week"@ != "yr"@ && "week"@ != "month"@ && "week"@ != "mon"@,
        "day"@ != "yr"@ && "day"@ != "month"@ && "day"@ != "mon"@ && "day"@ != "week"@,
        "hour"@ != "year"@ && "hour"@ != "yr"@ && "hour"@ != "month"@ && "hour"@ != "mon"@
            && "hour"@ != "week"@ && "hour"@ != "day"@,
        "minute"@ != "year"@ && "minute"@ != "yr"@ && "minute"@ != "month"@ && "minute"@ != "mon"@
            && "minute"@ != "week"@ && "minute"@ != "day"@ && "minute"@ != "hour"@,
        "second"@ != "year"@ && "second"@ != "yr"@ && "second"@ != "month"@ && "second"@ != "mon"@
            && "second"@ != "week"@ && "second"@ != "day"@ && "second"@ != "hour"@ && "second"@
            != "minute"@ && "second"@ != "min"@,
{
    reveal_strlit("year");
    reveal_strlit("yr");
    reveal_strlit("month");
    reveal_strlit("mon");
    reveal_strlit("week");
    reveal_strlit("day");
    reveal_strlit("hour");
    reveal_strlit("minute");
    reveal_strlit("min");
    reveal_strlit("second");
    assert("year"@.len() == 4 && "year"@[0] == 'y');
    assert("yr"@.len() == 2);
    assert("month"@.len() == 5);
    assert("mon"@.len() == 3 && "mon"@[0] == 'm');
    assert("week"@.len() == 4 && "week"@[0] == 'w');
    assert("day"@.len() == 3 && "day"@[0] == 'd');
    assert("hour"@.len() == 4 && "hour"@[0] == 'h');
    assert("minute"@.len() == 6 && "minute"@[0] == 'm');
    assert("min"@.len() == 3);
    assert("second"@.len() == 6 && "second"@[0] == 's');
}

/// A year is 12 months, a week 7 days, an hour 60 minutes, and a minute 60
/// seconds; months, days, and seconds are counted apart.
#[verifier::rlimit(40)]
pub proof fn law_units_of_intervals(
    acc: Interval,
    n: i64,
    years: Seq<char>,
    months: Seq<char>,
    weeks: Seq<char>,
    days: Seq<char>,
    hours: Seq<char>,
    minutes: Seq<char>,
    seconds: Seq<char>,
)
    requires
        is_unit(years, "year"@),
        is_unit(months, "month"@),
        is_unit(weeks, "week"@),
        is_unit(days, "day"@),
        is_unit(hours, "hour"@),
        is_unit(minutes, "minute"@),
        is_unit(seconds, "second"@),
        -1_000_000 <= n <= 1_000_000,
        -1_000_000 <= acc.0 <= 1_000_000,
        -1_000_000 <= acc.1 <= 1_000_000,
        -1_000_000 <= acc.2 <= 1_000_000,
    ensures
        unit_added(acc, n, months) == Some(((acc.0 + n) as i64, acc.1, acc.2)),
        unit_added(acc, n, days) == Some((acc.0, (acc.1 + n) as i64, acc.2)),
        unit_added(acc, n, seconds) == Some((acc.0, acc.1, (acc.2 + n) as i64)),
        unit_added(acc, n, years) == unit_added(acc, (12 * n) as i64, months),
        unit_added(acc, n, weeks) == unit_added(acc, (7 * n) as i64, days),
        unit_added(acc, n, hours) == unit_added(acc, (60 * n) as i64, minutes),
        unit_added(acc, n, minutes) == unit_added(acc, (60 * n) as i64, seconds),
{
    lemma_units();
}

/// Intervals compare by their length in seconds: a day is 24 hours, and a month
/// 30 days.
pub proof fn law_interval_lengths(months: i64, days: i64, seconds: i64)
    ensures
        magnitude((months, days, seconds)) == magnitude((months, 0, 0)) + magnitude((0, days, 0))
            + magnitude((0, 0, seconds)),
        magnitude((0, 0, seconds)) == seconds,
        magnitude((0, days, 0)) == days * (24 * 60 * 60),
        magnitude((months, 0, 0)) == 30 * magnitude((0, months, 0)),
{
}

proof fn lemma_date_end(s: Seq<char>, n: int)
    requires
        0 <= n <= s.len(),
        forall|i: int| 0 <= i < n ==> s[i] != ' ' && s[i] != 'T',
        n < s.len() ==> s[n] == ' ' || s[n] == 'T',
    ensures
        crate::temporal::date_end(s) == n,
    decreases s.len(),
{
    if n > 0 {
        assert forall|i: int| 0 <= i < n - 1 implies s.skip(1)[i] != ' ' && s.skip(1)[i]
            != 'T' by {
            assert(s.skip(1)[i] == s[i + 1]);
        }
        lemma_date_end(s.skip(1), n - 1);
    }
}

/// The year, month, and day of a timestamp are the first, second, and third
/// number of its date, and the hour and minute the first and second number of
/// its time.
pub proof fn law_fields_of_a_timestamp(
    text: Seq<char>,
    date: Seq<char>,
    time: Seq<char>,
    field: Seq<char>,
)
    requires
        trimmed(text) == date + seq![' '] + time,
        forall|i: int| 0 <= i < date.len() ==> date[i] != ' ' && date[i] != 'T',
        split(date, '-').len() == 3,
        split(time, ':').len() == 3,
    ensures
        upper(field) == "YEAR"@ ==> datetime_field(text, field) == parsed_int(split(date, '-')[0]),
        upper(field) == "MONTH"@ ==> datetime_field(text, field) == parsed_int(
            split(date, '-')[1],
        ),
        upper(field) == "DAY"@ ==> datetime_field(text, field) == parsed_int(split(date, '-')[2]),
        upper(field) == "HOUR"@ ==> datetime_field(text, field) == parsed_int(
            trimmed(split(trimmed(split(time, ':')[0]), '.')[0]),
        ),
        upper(field) == "MINUTE"@ ==> datetime_field(text, field) == parsed_int(
            trimmed(split(trimmed(split(time, ':')[1]), '.')[0]),
        ),
        upper(field) == "SECOND"@ ==> datetime_field(text, field) == parsed_int(
            trimmed(split(trimmed(split(time, ':')[2]), '.')[0]),
        ),
{
    let s = trimmed(text);
    let n = date.len() as int;
    assert(s[n] == ' ');
    assert forall|i: int| 0 <= i < n implies s[i] != ' ' && s[i] != 'T' by {
        assert(s[i] == date[i]);
    }
    lemma_date_end(s, n);
    assert(s.take(n) =~= date);
    assert(s.skip(n + 1) =~= time);
    reveal_strlit("YEAR");
    reveal_strlit("MONTH");
    reveal_strlit("DAY");
    reveal_strlit("HOUR");
    reveal_strlit("MINUTE");
    reveal_strlit("SECOND");
    assert("YEAR"@.len() == 4 && "YEAR"@[0] == 'Y');
    assert("MONTH"@.len() == 5);
    assert("DAY"@.len() == 3);
    assert("HOUR"@.len() == 4 && "HOUR"@[0] == 'H');
    assert("MINUTE"@.len() == 6 && "MINUTE"@[0] == 'M');
    assert("SECOND"@.len() == 6 && "SECOND"@[0] == 'S');
}

// ---------------------------------------------------------------------------
// Texts
// ---------------------------------------------------------------------------

/// Texts are ordered by the first character in which they differ, and a text
/// comes before every longer one that starts with it.
pub proof fn law_texts_order_by_the_first_difference(
    same: Seq<char>,
    a: char,
    b: char,
    x: Seq<char>,
    y: Seq<char>,
)
    ensures
        (a as int) < (b as int) ==> text_rank(same + seq![a] + x, same + seq![b] + y)
            == Rank::Less,
        (a as int) > (b as int) ==> text_rank(same + seq![a] + x, same + seq![b] + y)
            == Rank::Greater,
        text_rank(same, same + seq![a] + x) == Rank::Less,
        text_rank(same + seq![a] + x, same) == Rank::Greater,
        text_rank(same, same) == Rank::Equal,
    decreases same.len(),
{
    let l = same + seq![a] + x;
    let r = same + seq![b] + y;
    if same.len() == 0 {
        assert(l[0] == a && r[0] == b);
    } else {
        let rest = same.skip(1);
        law_texts_order_by_the_first_difference(rest, a, b, x, y);
        assert(l.skip(1) =~= rest + seq![a] + x);
        assert(r.skip(1) =~= rest + seq![b] + y);
        assert(l[0] == same[0] && r[0] == same[0]);
    }
}

/// `||` joins texts in order, appends an element to an array, and puts one in
/// front of it; NULL joined with a text is NULL.
pub proof fn law_concatenation_keeps_the_order(
    s: Seq<char>,
    t: Seq<char>,
    a: Seq<Val>,
    b: Seq<Val>,
    n: i64,
    k: Known,
)
    ensures
        ({
            let of = |l: Val, r: Val| binary_op(ScalarBinaryOp::Concat, l, r, k);
            &&& of(Val::Text(s), Val::Text(t)) == Ok::<Val, Stop>(Val::Text(s + t))
            &&& of(Val::Text(s), Val::Int(n)) == Ok::<Val, Stop>(
                Val::Text(s + decimal(n as int)),
            )
            &&& of(Val::Text(s), Val::Null) == Ok::<Val, Stop>(Val::Null)
            &&& of(Val::Null, Val::Text(s)) == Ok::<Val, Stop>(Val::Null)
            &&& of(Val::Array(a), Val::Array(b)) == Ok::<Val, Stop>(Val::Array(a + b))
            &&& of(Val::Array(a), Val::Int(n)) == Ok::<Val, Stop>(Val::Array(a.push(Val::Int(n))))
            &&& of(Val::Int(n), Val::Array(b)) == Ok::<Val, Stop>(
                Val::Array(seq![Val::Int(n)] + b),
            )
        }),
{
    reveal(binary_op);
}

/// The text of an integer reads back as that integer, and the text of a truth
/// value as that truth value; a text is its own text.
pub proof fn law_shown_values_read_back(n: i64, b: bool, s: Seq<char>, k: Known)
    ensures
        shown(Val::Int(n), k) is Ok,
        parsed_int(shown(Val::Int(n), k)->Ok_0) == Some(n),
        shown(Val::Bool(b), k) is Ok,
        bool_of_text(shown(Val::Bool(b), k)->Ok_0) == Some(b),
        shown(Val::Text(s), k) == Ok::<Seq<char>, Stop>(s),
        shown(Val::Null, k) == Ok::<Seq<char>, Stop>(Seq::empty()),
{
    law_decimal_reads_back(n);
    reveal_strlit("t");
    reveal_strlit("f");
    lemma_one_letter("t"@);
    lemma_one_letter("f"@);
    reveal_strlit("true");
    reveal_strlit("y");
    reveal_strlit("yes");
    reveal_strlit("on");
    reveal_strlit("1");
    assert("t"@.len() == 1 && "t"@[0] == 't');
    assert("f"@.len() == 1 && "f"@[0] == 'f');
    assert("true"@.len() == 4 && "yes"@.len() == 3 && "on"@.len() == 2);
    assert("y"@[0] == 'y' && "1"@[0] == '1');
}

proof fn lemma_one_letter(s: Seq<char>)
    requires
        s.len() == 1,
        97 <= s[0] as u32 <= 122,
    ensures
        lower(trimmed(s)) == s,
{
    assert(trimmed(s) == s);
    assert(lower(s) =~= s);
}

// ---------------------------------------------------------------------------
// Names and positions
// ---------------------------------------------------------------------------

/// A reference means the column of exactly its name, and a column under a
/// relation's name is also meant by its bare name.
pub proof fn law_references_mean_columns(relation: Seq<char>, column: Seq<char>)
    ensures
        names_column(column, column),
        names_column(relation + "."@ + column, column),
        names_column(relation + "."@ + column, relation + "."@ + column),
        column_of(seq![relation + "."@ + column], column) == Some(0int),
{
    let whole = relation + "."@ + column;
    reveal_strlit(".");
    assert(whole.skip(whole.len() - ("."@ + column).len()) =~= "."@ + column);
    let one = seq![whole];
    assert(one.drop_last() =~= Seq::<Seq<char>>::empty());
    assert(column_of(one.drop_last(), column) is None);
}

/// `ORDER BY n` and `GROUP BY n` mean the `n`-th item of the select list,
/// counting from one.
pub proof fn law_positions_mean_items(
    e: SqlExpr,
    items: Seq<ItemView>,
    n: usize,
    g: Grouping,
)
    requires
        e.node is Value,
        e.node->Value_0 is Number,
        parsed_size(e.node->Value_0->Number_0@) == Some(n),
        1 <= n <= items.len(),
    ensures
        items[n - 1] is Column ==> ordinal_of(e, items) == Some(items[n - 1]->Column_0),
        items[n - 1] is AliasedColumn ==> ordinal_of(e, items) == Some(
            items[n - 1]->AliasedColumn_1,
        ),
        items[n - 1] is Column ==> grouped_by(g, e, items) == Ok::<Grouping, Stop>(
            Grouping { columns: g.columns.push(items[n - 1]->Column_0), sets: g.sets },
        ),
{
}

/// An ordering key that is the name of an output column means that column, and
/// a position the output column there; a position beyond them is an error.
pub proof fn law_ordering_keys_mean_output_columns(
    target: SortTarget,
    index: nat,
    outputs: Seq<Seq<char>>,
    names: Seq<Seq<char>>,
    lenient: bool,
    i: int,
    k: Known,
)
    requires
        0 <= i < outputs.len() <= usize::MAX,
        forall|j: int| 0 <= j < i ==> outputs[j] != outputs[i],
        !outputs[i].contains('.'),
    ensures
        target is Name && target->Name_0@ == outputs[i] ==> key_source(
            target,
            index,
            outputs,
            names,
            lenient,
            k,
        ) == Ok::<KeySource, Stop>(KeySource::Output(i as usize)),
        target is Output && target->Output_0 == i ==> key_source(
            target,
            index,
            outputs,
            names,
            lenient,
            k,
        ) == Ok::<KeySource, Stop>(KeySource::Output(i as usize)),
        target is Output && target->Output_0 >= outputs.len() ==> key_source(
            target,
            index,
            outputs,
            names,
            lenient,
            k,
        ) is Err,
{
    crate::text::lemma_index_of(outputs, outputs[i]);
}

// ---------------------------------------------------------------------------
// Types
// ---------------------------------------------------------------------------

/// Arithmetic on integers has the wider of the two types, floating-point wins
/// over every other number, and an exact number over integers.
pub proof fn law_arithmetic_types(l: Seq<char>, r: Seq<char>)
    ensures
        integer_rank_of(l) is Some && integer_rank_of(r) is Some ==> ({
            let t = arithmetic_type(l, r);
            let (a, b) = (integer_rank_of(l)->Some_0, integer_rank_of(r)->Some_0);
            &&& t is Some
            &&& t->Some_0 == "SMALLINT"@ <==> a == 1 && b == 1
            &&& t->Some_0 == "BIGINT"@ <==> a == 3 || b == 3
            &&& t->Some_0 == "INTEGER"@ <==> a < 3 && b < 3 && (a == 2 || b == 2)
        }),
        float_type(l) && integer_rank_of(r) is None ==> arithmetic_type(l, r) == Some(
            "DOUBLE PRECISION"@,
        ),
        numeric_type(l) && integer_rank_of(l) is None && !float_type(l) && integer_rank_of(r)
            is Some && !float_type(r) ==> arithmetic_type(l, r) == Some("NUMERIC"@),
{
    reveal_strlit("SMALLINT");
    reveal_strlit("INTEGER");
    reveal_strlit("BIGINT");
    assert("SMALLINT"@.len() == 8 && "INTEGER"@.len() == 7 && "BIGINT"@.len() == 6);
    let (a, b) = (integer_rank_of(l), integer_rank_of(r));
    assert(a is Some ==> 1 <= a->Some_0 <= 3);
    assert(b is Some ==> 1 <= b->Some_0 <= 3);
}

/// A comparison, a test of a key, and a connective give a truth value; `->`
/// keeps the type of its document, and `->>` gives text.
pub proof fn law_operator_types(op: ScalarBinaryOp, l: Option<Seq<char>>, r: Option<Seq<char>>)
    ensures
        crate::scalar_ops::comparison(op) || op is And || op is Or || op is JsonHasKey
            || op is Contains || op is ContainedBy || op is Overlap ==> binary_type_of(op, l, r)
            == Some("BOOLEAN"@),
        op is JsonGet || op is JsonPath ==> binary_type_of(op, l, r) == l,
        op is JsonGetText || op is JsonPathText ==> binary_type_of(op, l, r) == Some("TEXT"@),
        (op is Add || op is Sub || op is Mul || op is Div || op is Mod) && l is Some && r is Some
            ==> binary_type_of(op, l, r) == arithmetic_type(l->Some_0, r->Some_0),
{
}

/// `MIN` and `MAX` have the type of their input, `COUNT` counts in the widest
/// integer type, and a sum has a type wider than that of the integers summed.
#[verifier::rlimit(40)]
pub proof fn law_aggregate_types(t: Seq<char>)
    ensures
        aggregate_type_of(AggregateOp::Min, Some(t)) == Some(t),
        aggregate_type_of(AggregateOp::Max, Some(t)) == Some(t),
        aggregate_type_of(AggregateOp::Count, Some(t)) == Some("BIGINT"@),
        aggregate_type_of(AggregateOp::ArrayAgg, Some(t)) == Some(t + "[]"@),
        upper(t) == "SMALLINT"@ || upper(t) == "INTEGER"@ ==> aggregate_type_of(
            AggregateOp::Sum,
            Some(t),
        ) == Some("BIGINT"@),
        upper(t) == "BIGINT"@ ==> aggregate_type_of(AggregateOp::Sum, Some(t)) == Some(
            "NUMERIC"@,
        ),
        upper(t) == "SMALLINT"@ || upper(t) == "INTEGER"@ || upper(t) == "BIGINT"@
            ==> aggregate_type_of(AggregateOp::Avg, Some(t)) == Some("NUMERIC"@),
        upper(t) == "DOUBLE PRECISION"@ ==> aggregate_type_of(AggregateOp::Avg, Some(t)) == Some(
            "DOUBLE PRECISION"@,
        ),
{
    reveal_strlit("SMALLINT");
    reveal_strlit("INTEGER");
    reveal_strlit("BIGINT");
    reveal_strlit("INT");
    reveal_strlit("INT4");
    reveal_strlit("INT2");
    reveal_strlit("REAL");
    reveal_strlit("FLOAT4");
    reveal_strlit("DOUBLE");
    reveal_strlit("DOUBLE PRECISION");
    reveal_strlit("FLOAT8");
    assert("SMALLINT"@.len() == 8 && "INTEGER"@.len() == 7 && "BIGINT"@.len() == 6);
    assert("BIGINT"@[0] == 'B' && "FLOAT4"@[0] == 'F' && "DOUBLE"@[0] == 'D' && "FLOAT8"@[0]
        == 'F');
    assert("INT"@.len() == 3 && "INT4"@.len() == 4 && "INT2"@.len() == 4 && "REAL"@.len() == 4);
    assert("FLOAT4"@.len() == 6 && "DOUBLE"@.len() == 6 && "FLOAT8"@.len() == 6);
    assert("DOUBLE PRECISION"@.len() == 16);
}

// ---------------------------------------------------------------------------
// Settings
// ---------------------------------------------------------------------------

/// A setting that the session has set is that value, whatever its default; one
/// that it has not set is the default.
pub proof fn law_the_sessions_own_setting_wins(
    overrides: Seq<(String, String)>,
    name: Seq<char>,
    i: int,
)
    requires
        0 <= i <= overrides.len(),
        forall|j: int| 0 <= j < i ==> (#[trigger] overrides[j]).0@ != name,
        i < overrides.len() ==> overrides[i].0@ == name,
    ensures
        setting_of(overrides, name) == (if i < overrides.len() {
            Some(overrides[i].1@)
        } else {
            default_var(name)
        }),
    decreases i,
{
    if i > 0 {
        let rest = overrides.skip(1);
        assert(overrides[0].0@ != name);
        assert forall|j: int| 0 <= j < i - 1 implies (#[trigger] rest[j]).0@ != name by {
            assert(rest[j] == overrides[j + 1]);
        }
        law_the_sessions_own_setting_wins(rest, name, i - 1);
    }
}

// ---------------------------------------------------------------------------
// MERGE
// ---------------------------------------------------------------------------

/// A planned `MERGE` keeps its clauses in order, each for the rows it was
/// written for, with its own condition and the action it names.
pub proof fn law_merge_keeps_its_clauses(m: Merge, i: int, params: Seq<Val>, k: Known)
    requires
        planned_merge(m, params, k) is Ok,
        0 <= i < m.clauses@.len(),
    ensures
        ({
            let r = planned_merge(m, params, k)->Ok_0;
            let c = m.clauses@[i];
            let p = r.clauses[i];
            &&& r.clauses.len() == m.clauses@.len()
            &&& p.kind == c.kind
            &&& p.condition is Some <==> c.condition is Some
            &&& c.condition is Some ==> planned_filter(c.condition->Some_0, 0, params, k) == Ok::<
                FilterView,
                Stop,
            >(p.condition->Some_0)
            &&& p.action is Update <==> c.step is Update
            &&& p.action is Delete <==> c.step is Delete
            &&& p.action is Insert <==> c.step is Insert
            &&& p.action is Nothing <==> c.step is Nothing
            &&& r.on is Some <==> m.on is Some
        }),
{
    lemma_clauses(m.clauses@, 0, Seq::empty(), i, params, k);
}

proof fn lemma_clauses(
    list: Seq<MergeWhen>,
    from: nat,
    before: Seq<ClauseView>,
    i: int,
    params: Seq<Val>,
    k: Known,
)
    requires
        from <= list.len(),
        before.len() == from,
        planned_clauses(list, from, before, params, k) is Ok,
        0 <= i < list.len(),
        i < from ==> planned_clause(list[i], params, k) == Ok::<ClauseView, Stop>(before[i]),
    ensures
        planned_clauses(list, from, before, params, k)->Ok_0.len() == list.len(),
        planned_clause(list[i], params, k) == Ok::<ClauseView, Stop>(
            planned_clauses(list, from, before, params, k)->Ok_0[i],
        ),
    decreases list.len() - from,
{
    if from < list.len() {
        let c = planned_clause(list[from as int], params, k)->Ok_0;
        lemma_clauses(list, from + 1, before.push(c), i, params, k);
    }
}

} // verus!
