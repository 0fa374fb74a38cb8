//! Dates and timestamps: days counted from the first of the common era, and
//! seconds within the day.
use vstd::prelude::*;
use crate::facts::{asked, on_one, outcome, Facts, Halt, Known, RequestView, Stop, Task, TaskView};
use crate::render::{render, shown};
use crate::text::{
    chars_of, parse_int, parsed_int, same_text, split, split_text, text_between, texts, trim_text,
    trimmed, upper, upper_text,
};
use crate::value::{vals, Val, Value};

verus! {

/// The text `YYYY-MM-DD` of the day that many days after the last of the year
/// before the common era; `None` for a day the calendar does not reach.
pub uninterp spec fn date_text_of(day: i32) -> Option<Seq<char>>;

/// `chrono::NaiveDate::from_num_days_from_ce_opt`, then `NaiveDate::format`
/// with `%Y-%m-%d`: the outcome depends on the day alone.
#[verifier::external_body]
fn date_text(day: i32) -> (r: Option<String>)
    ensures
        crate::text::opt_text(r) == date_text_of(day),
{
    chrono::NaiveDate::from_num_days_from_ce_opt(day).map(|d| d.format("%Y-%m-%d").to_string())
}

/// The same day of the month that many months later, or the last day of a
/// shorter month; `None` outside the calendar.
pub uninterp spec fn months_after(day: i32, months: u32) -> Option<i32>;

/// `chrono::NaiveDate::checked_add_months` on the day: the outcome depends on
/// the day and the number of months alone.
#[verifier::external_body]
fn add_months(day: i32, months: u32) -> (r: Option<i32>)
    ensures
        r == months_after(day, months),
{
    let date = chrono::NaiveDate::from_num_days_from_ce_opt(day)?;
    let moved = date.checked_add_months(chrono::Months::new(months))?;
    Some(chrono::Datelike::num_days_from_ce(&moved))
}

/// The same day of the month that many months earlier, or the last day of a
/// shorter month; `None` outside the calendar.
pub uninterp spec fn months_before(day: i32, months: u32) -> Option<i32>;

/// `chrono::NaiveDate::checked_sub_months` on the day: the outcome depends on
/// the day and the number of months alone.
#[verifier::external_body]
fn sub_months(day: i32, months: u32) -> (r: Option<i32>)
    ensures
        r == months_before(day, months),
{
    let date = chrono::NaiveDate::from_num_days_from_ce_opt(day)?;
    let moved = date.checked_sub_months(chrono::Months::new(months))?;
    Some(chrono::Datelike::num_days_from_ce(&moved))
}

/// A date or timestamp that a text writes.
#[derive(Debug, Clone, Copy, PartialEq, Eq, Structural)]
pub struct Moment {
    pub day: i32,
    /// The second of the day.
    pub second: i64,
    pub nano: i64,
    /// Whether the text has a time.
    pub timed: bool,
    /// Whether the text has an offset.
    pub zoned: bool,
}

/// The moment in an answer.
pub open spec fn answered_moment(v: Val) -> Option<Moment> {
    match v {
        Val::Array(items) => if items.len() == 5 {
            match (items[0], items[1], items[2], items[3], items[4]) {
                (
                    Val::Int(day),
                    Val::Int(second),
                    Val::Int(nano),
                    Val::Bool(timed),
                    Val::Bool(zoned),
                ) => if i32::MIN <= day <= i32::MAX && 0 <= second < 86_400 {
                    Some(Moment { day: day as i32, second, nano, timed, zoned })
                } else {
                    None
                },
                _ => None,
            }
        } else {
            None
        },
        _ => None,
    }
}

/// The date or timestamp a text writes, if it writes one.
pub open spec fn moment_of(t: Seq<char>, k: Known) -> Result<Option<Moment>, Stop> {
    match asked(k, on_one(TaskView::Temporal, Val::Text(t))) {
        Ok(v) => Ok(answered_moment(v)),
        Err(s) => Err(s),
    }
}

/// What a moment result stands for.
pub open spec fn moment_outcome(r: Result<Option<Moment>, Halt>) -> Result<Option<Moment>, Stop> {
    match r {
        Ok(m) => Ok(m),
        Err(h) => Err(h@),
    }
}

fn decode_moment(v: &Value) -> (r: Option<Moment>)
    ensures
        r == answered_moment(v@),
{
    broadcast use crate::value::group_value_views;

    match v {
        Value::Array(items) => {
            assert(vals(items@).len() == items@.len());
            if items.len() != 5 {
                return None;
            }
            assert(forall|i: int| 0 <= i < 5 ==> vals(items@)[i] == items@[i]@);
            match (&items[0], &items[1], &items[2], &items[3], &items[4]) {
                (
                    Value::Int(day),
                    Value::Int(second),
                    Value::Int(nano),
                    Value::Bool(timed),
                    Value::Bool(zoned),
                ) => {
                    if *day < -2_147_483_648 || *day > 2_147_483_647 || *second < 0 || *second
                        >= 86_400 {
                        return None;
                    }
                    Some(
                        Moment {
                            day: *day as i32,
                            second: *second,
                            nano: *nano,
                            timed: *timed,
                            zoned: *zoned,
                        },
                    )
                },
                _ => None,
            }
        },
        _ => None,
    }
}

/// The date or timestamp a text writes, if it writes one.
pub fn parse_moment(t: &str, facts: &Facts) -> (r: Result<Option<Moment>, Halt>)
    ensures
        moment_outcome(r) == moment_of(t@, facts@),
{
    let text = Value::Text(t.to_owned());
    match facts.ask_one(Task::Temporal, &text) {
        Ok(v) => Ok(decode_moment(&v)),
        Err(h) => Err(h),
    }
}

/// The day a text writes, if it writes a date without a time.
pub open spec fn bare_day(t: Seq<char>, k: Known) -> Result<Option<i32>, Stop> {
    match moment_of(t, k) {
        Ok(Some(m)) => Ok(
            if m.timed {
                None
            } else {
                Some(m.day)
            },
        ),
        Ok(None) => Ok(None),
        Err(s) => Err(s),
    }
}

/// What a day result stands for.
pub open spec fn day_outcome(r: Result<Option<i32>, Halt>) -> Result<Option<i32>, Stop> {
    match r {
        Ok(d) => Ok(d),
        Err(h) => Err(h@),
    }
}

/// The day a text writes, if it writes a date without a time.
pub fn bare_date(t: &str, facts: &Facts) -> (r: Result<Option<i32>, Halt>)
    ensures
        day_outcome(r) == bare_day(t@, facts@),
{
    match parse_moment(t, facts) {
        Ok(Some(m)) => Ok(
            if m.timed {
                None
            } else {
                Some(m.day)
            },
        ),
        Ok(None) => Ok(None),
        Err(h) => Err(h),
    }
}

/// The text of a day, or the error of a day outside the calendar.
pub open spec fn day_text(day: int) -> Result<Seq<char>, Stop> {
    let text = if i32::MIN <= day <= i32::MAX {
        date_text_of(day as i32)
    } else {
        None
    };
    match text {
        Some(t) => Ok(t),
        None => Err(Stop::Raised("date out of range"@)),
    }
}

/// The text of a day, or the error of a day outside the calendar.
pub fn text_of_day(day: i128) -> (r: Result<String, Halt>)
    ensures
        crate::facts::text_outcome(r) == day_text(day as int),
{
    if day < -2_147_483_648 || day > 2_147_483_647 {
        return Err(Halt::Raised("date out of range".to_owned()));
    }
    match date_text(day as i32) {
        Some(t) => Ok(t),
        None => Err(Halt::Raised("date out of range".to_owned())),
    }
}

/// The day `months` months away; the day itself where the calendar ends, which
/// it does well before the 32-bit numbers of months do.
pub open spec fn month_shifted(day: i32, months: i64) -> i32 {
    let moved = if 0 <= months <= u32::MAX {
        months_after(day, months as u32)
    } else if -u32::MAX <= months < 0 {
        months_before(day, (-months) as u32)
    } else {
        None
    };
    match moved {
        Some(d) => d,
        None => day,
    }
}

fn shift_months(day: i32, months: i64) -> (r: i32)
    ensures
        r == month_shifted(day, months),
{
    let moved = if months >= 0 && months <= u32::MAX as i64 {
        add_months(day, months as u32)
    } else if months < 0 && months >= -(u32::MAX as i64) {
        sub_months(day, (-months) as u32)
    } else {
        None
    };
    match moved {
        Some(d) => d,
        None => day,
    }
}

/// The second since the first of the common era that an offset leads to.
pub open spec fn offset_second(m: Moment, months: i64, days: i64, seconds: i64) -> int {
    month_shifted(m.day, months) * 86_400 + m.second + days * 86_400 + seconds
}

/// `v` moved by an offset: a date moved by whole days stays a date; otherwise
/// the result is a timestamp, zoned if `v` was. NULL for what is no date or
/// timestamp.
pub open spec fn date_offset(v: Val, months: i64, days: i64, seconds: i64, k: Known) -> Result<
    Val,
    Stop,
> {
    let text = match v {
        Val::Text(t) => Ok(trimmed(t)),
        _ => shown(v, k),
    };
    if v == Val::Null {
        Ok(Val::Null)
    } else {
        match text {
            Err(s) => Err(s),
            Ok(t) => match moment_of(t, k) {
                Err(s) => Err(s),
                Ok(None) => Ok(Val::Null),
                Ok(Some(m)) => {
                    let total = offset_second(m, months, days, seconds);
                    match day_text(total / 86_400) {
                        Err(s) => Err(s),
                        Ok(d) => if !m.timed && seconds == 0 {
                            Ok(Val::Text(d))
                        } else {
                            asked(
                                k,
                                RequestView {
                                    task: TaskView::TimestampText,
                                    args: seq![
                                        Val::Int((total / 86_400) as i64),
                                        Val::Int((total % 86_400) as i64),
                                        Val::Int(m.nano),
                                        Val::Bool(m.zoned),
                                    ],
                                },
                            )
                        },
                    }
                },
            },
        }
    }
}

/// Applies a `(months, days, seconds)` offset to an ISO date/timestamp text
/// value using real calendar math. Returns a date when the input was a date and
/// no sub-day offset applies, otherwise a timestamp.
pub fn apply_date_offset(v: &Value, months: i64, days: i64, seconds: i64, facts: &Facts) -> (r:
    Result<Value, Halt>)
    ensures
        outcome(r) == date_offset(v@, months, days, seconds, facts@),
{
    let text = match v {
        Value::Null => return Ok(Value::Null),
        Value::Text(t) => trim_text(t.as_str()),
        _ => match render(v, facts) {
            Ok(t) => t,
            Err(h) => return Err(h),
        },
    };
    let m = match parse_moment(text.as_str(), facts) {
        Ok(Some(m)) => m,
        Ok(None) => return Ok(Value::Null),
        Err(h) => return Err(h),
    };
    let base: i128 = shift_months(m.day, months) as i128;
    let total: i128 = base * 86_400 + m.second as i128 + days as i128 * 86_400 + seconds as i128;
    let day: i128 = floor_div(total);
    let second: i128 = total - day * 86_400;
    let date = match text_of_day(day) {
        Ok(d) => d,
        Err(h) => return Err(h),
    };
    if !m.timed && seconds == 0 {
        return Ok(Value::Text(date));
    }
    let mut args: Vec<Value> = Vec::new();
    args.push(Value::Int(day as i64));
    args.push(Value::Int(second as i64));
    args.push(Value::Int(m.nano));
    args.push(Value::Bool(m.zoned));
    assert(vals(args@) =~= seq![
        Val::Int(day as i64),
        Val::Int(second as i64),
        Val::Int(m.nano),
        Val::Bool(m.zoned),
    ]);
    facts.ask(Task::TimestampText, args)
}

/// The day that a second falls on.
fn floor_div(total: i128) -> (r: i128)
    requires
        -0x1000_0000_0000_0000_0000_0000 < total < 0x1000_0000_0000_0000_0000_0000,
    ensures
        r == total as int / 86_400,
{
    if total >= 0 {
        total / 86_400
    } else {
        let back: i128 = (-total + 86_399) / 86_400;
        -back
    }
}

/// The position of the first space or `T`, or the length.
pub open spec fn date_end(s: Seq<char>) -> int
    decreases s.len(),
{
    if s.len() == 0 || s[0] == ' ' || s[0] == 'T' {
        0
    } else {
        1 + date_end(s.skip(1))
    }
}

/// The integer at position `i` of the parts of `s` between `sep`.
pub open spec fn int_at(s: Seq<char>, sep: char, i: int) -> Option<i64> {
    if i < split(s, sep).len() {
        parsed_int(split(s, sep)[i])
    } else {
        None
    }
}

/// The whole number at position `i` of a time.
pub open spec fn time_at(s: Seq<char>, i: int) -> Option<i64> {
    if i < split(s, ':').len() {
        parsed_int(trimmed(split(trimmed(split(s, ':')[i]), '.')[0]))
    } else {
        None
    }
}

/// The field of a date or timestamp text.
pub open spec fn datetime_field(t: Seq<char>, field: Seq<char>) -> Option<i64> {
    let s = trimmed(t);
    let n = date_end(s);
    let date = s.take(n);
    let time = if n < s.len() {
        s.skip(n + 1)
    } else {
        Seq::empty()
    };
    let f = upper(field);
    if f == "YEAR"@ {
        int_at(date, '-', 0)
    } else if f == "MONTH"@ {
        int_at(date, '-', 1)
    } else if f == "DAY"@ {
        int_at(date, '-', 2)
    } else if f == "HOUR"@ {
        time_at(time, 0)
    } else if f == "MINUTE"@ {
        time_at(time, 1)
    } else if f == "SECOND"@ {
        time_at(time, 2)
    } else {
        None
    }
}

/// `EXTRACT(field FROM v)`.
pub open spec fn extracted(v: Val, field: Seq<char>, k: Known) -> Result<Val, Stop> {
    if v == Val::Null {
        Ok(Val::Null)
    } else {
        match shown(v, k) {
            Err(s) => Err(s),
            Ok(t) => Ok(
                match datetime_field(t, field) {
                    Some(n) => Val::Int(n),
                    None => Val::Null,
                },
            ),
        }
    }
}

proof fn lemma_date_end(s: Seq<char>, n: int)
    requires
        0 <= n <= s.len(),
        forall|i: int| 0 <= i < n ==> s[i] != ' ' && s[i] != 'T',
        n < s.len() ==> s[n] == ' ' || s[n] == 'T',
    ensures
        date_end(s) == n,
    decreases n,
{
    if n > 0 {
        lemma_date_end(s.skip(1), n - 1);
    }
}

fn find_int(s: &str, sep: char, i: usize) -> (r: Option<i64>)
    ensures
        r == int_at(s@, sep, i as int),
{
    let parts = split_text(s, sep);
    assert(texts(parts@).len() == parts@.len());
    if i < parts.len() {
        assert(texts(parts@)[i as int] == parts@[i as int]@);
        parse_int(parts[i].as_str())
    } else {
        None
    }
}

fn find_time(s: &str, i: usize) -> (r: Option<i64>)
    ensures
        r == time_at(s@, i as int),
{
    let parts = split_text(s, ':');
    assert(texts(parts@).len() == parts@.len());
    if i < parts.len() {
        assert(texts(parts@)[i as int] == parts@[i as int]@);
        let bare = trim_text(parts[i].as_str());
        let pieces = split_text(bare.as_str(), '.');
        assert(texts(pieces@)[0] == pieces@[0]@);
        let whole = trim_text(pieces[0].as_str());
        parse_int(whole.as_str())
    } else {
        None
    }
}

/// Extracts a datetime field (`YEAR`/`MONTH`/`DAY`/`HOUR`/`MINUTE`/`SECOND`)
/// from an ISO-8601 date/timestamp text value. Returns NULL when it can't parse.
pub fn extract_datetime_field(v: &Value, field: &str, facts: &Facts) -> (r: Result<Value, Halt>)
    ensures
        outcome(r) == extracted(v@, field@, facts@),
{
    if v.is_null() {
        return Ok(Value::Null);
    }
    let text = match render(v, facts) {
        Ok(t) => t,
        Err(h) => return Err(h),
    };
    let bare = trim_text(text.as_str());
    let chars = chars_of(bare.as_str());
    let len: usize = chars.len();
    let mut n: usize = 0;
    while n < len && chars[n] != ' ' && chars[n] != 'T'
        invariant
            n <= len,
            len == chars@.len(),
            chars@ == bare@,
            forall|i: int| 0 <= i < n ==> bare@[i] != ' ' && bare@[i] != 'T',
        decreases len - n,
    {
        n = n + 1;
    }
    proof {
        lemma_date_end(bare@, n as int);
    }
    let date = text_between(&chars, 0, n);
    let time = if n < len {
        text_between(&chars, n + 1, len)
    } else {
        String::new()
    };
    assert(date@ =~= bare@.take(n as int));
    assert(n < len ==> time@ =~= bare@.skip(n + 1));
    let up = upper_text(field);
    let f = up.as_str();
    let found = if same_text(f, "YEAR") {
        find_int(date.as_str(), '-', 0)
    } else if same_text(f, "MONTH") {
        find_int(date.as_str(), '-', 1)
    } else if same_text(f, "DAY") {
        find_int(date.as_str(), '-', 2)
    } else if same_text(f, "HOUR") {
        find_time(time.as_str(), 0)
    } else if same_text(f, "MINUTE") {
        find_time(time.as_str(), 1)
    } else if same_text(f, "SECOND") {
        find_time(time.as_str(), 2)
    } else {
        None
    };
    match found {
        Some(i) => Ok(Value::Int(i)),
        None => Ok(Value::Null),
    }
}

} // verus!
