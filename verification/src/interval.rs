//! Intervals as `(months, days, seconds)`: reading them from text, writing
//! them as PostgreSQL does, and comparing their magnitudes.
use vstd::prelude::*;
use crate::text::{
    chars_of, decimal, decimal_nat, int_text, join, join_texts, lower, lower_text, parse_int,
    parsed_int, same_text, split, split_text, strip_end, strip_trailing, text_between, texts,
    trim_text, trimmed, words, words_of,
};

verus! {

/// Months, days, and seconds.
pub type Interval = (i64, i64, i64);

/// `n` as a 64-bit integer, if it fits.
pub open spec fn fit(n: int) -> Option<i64> {
    if i64::MIN <= n <= i64::MAX {
        Some(n as i64)
    } else {
        None
    }
}

/// `a + amount * k`, if it and the product fit.
pub open spec fn plus_scaled(a: i64, amount: i64, k: int) -> Option<i64> {
    match fit(amount * k) {
        Some(p) => fit(a + p),
        None => None,
    }
}

fn add_scaled(a: i64, amount: i64, k: i64) -> (r: Option<i64>)
    requires
        0 < k <= 3600,
    ensures
        r == plus_scaled(a, amount, k as int),
{
    match amount.checked_mul(k) {
        Some(p) => a.checked_add(p),
        None => None,
    }
}

/// `acc` with `amount` of a unit added; `None` for an unknown unit or a total
/// that does not fit.
pub open spec fn unit_added(acc: Interval, amount: i64, unit: Seq<char>) -> Option<Interval> {
    let u = strip_end(lower(unit), 's');
    let (months, days, seconds) = acc;
    let in_months = |k: int|
        match plus_scaled(months, amount, k) {
            Some(m) => Some((m, days, seconds)),
            None => None::<Interval>,
        };
    let in_days = |k: int|
        match plus_scaled(days, amount, k) {
            Some(d) => Some((months, d, seconds)),
            None => None::<Interval>,
        };
    let in_seconds = |k: int|
        match plus_scaled(seconds, amount, k) {
            Some(s) => Some((months, days, s)),
            None => None::<Interval>,
        };
    if u == "year"@ || u == "yr"@ {
        in_months(12)
    } else if u == "month"@ || u == "mon"@ {
        in_months(1)
    } else if u == "week"@ {
        in_days(7)
    } else if u == "day"@ {
        in_days(1)
    } else if u == "hour"@ {
        in_seconds(3600)
    } else if u == "minute"@ || u == "min"@ {
        in_seconds(60)
    } else if u == "second"@ || u == "sec"@ {
        in_seconds(1)
    } else {
        None
    }
}

/// `acc` with `amount` of a unit added. A unit may be written in any case and
/// with a plural `s`.
pub fn apply_interval_unit(acc: Interval, amount: i64, unit: &str) -> (r: Option<Interval>)
    ensures
        r == unit_added(acc, amount, unit@),
{
    let low = lower_text(unit);
    let name = strip_trailing(low.as_str(), 's');
    let u = name.as_str();
    let (months, days, seconds) = acc;
    if same_text(u, "year") || same_text(u, "yr") {
        match add_scaled(months, amount, 12) {
            Some(m) => Some((m, days, seconds)),
            None => None,
        }
    } else if same_text(u, "month") || same_text(u, "mon") {
        match add_scaled(months, amount, 1) {
            Some(m) => Some((m, days, seconds)),
            None => None,
        }
    } else if same_text(u, "week") {
        match add_scaled(days, amount, 7) {
            Some(d) => Some((months, d, seconds)),
            None => None,
        }
    } else if same_text(u, "day") {
        match add_scaled(days, amount, 1) {
            Some(d) => Some((months, d, seconds)),
            None => None,
        }
    } else if same_text(u, "hour") {
        match add_scaled(seconds, amount, 3600) {
            Some(s) => Some((months, days, s)),
            None => None,
        }
    } else if same_text(u, "minute") || same_text(u, "min") {
        match add_scaled(seconds, amount, 60) {
            Some(s) => Some((months, days, s)),
            None => None,
        }
    } else if same_text(u, "second") || same_text(u, "sec") {
        match add_scaled(seconds, amount, 1) {
            Some(s) => Some((months, days, s)),
            None => None,
        }
    } else {
        None
    }
}

/// The seconds that `h:m:s` makes, negated after a leading `-`.
pub open spec fn hms_seconds(t: Seq<char>) -> Option<i64> {
    let neg = t.len() > 0 && t[0] == '-';
    let body = if neg {
        t.skip(1)
    } else {
        t
    };
    let parts = split(body, ':');
    if parts.len() != 3 {
        None
    } else {
        match (parsed_int(parts[0]), parsed_int(parts[1]), parsed_int(parts[2])) {
            (Some(h), Some(m), Some(s)) => {
                let total = h * 3600 + m * 60 + s;
                if fit(h * 3600) is Some && fit(m * 60) is Some && fit(h * 3600 + m * 60) is Some
                    && fit(total) is Some {
                    if neg {
                        fit(-total)
                    } else {
                        fit(total)
                    }
                } else {
                    None
                }
            },
            _ => None,
        }
    }
}

/// Parses an `HH:MM:SS` (optionally negative) interval time component to
/// seconds; `None` for other text, and where the seconds do not fit.
pub fn parse_hms_token(t: &str) -> (r: Option<i64>)
    ensures
        r == hms_seconds(t@),
{
    let chars = chars_of(t);
    let n: usize = chars.len();
    let neg: bool = n > 0 && chars[0] == '-';
    let start: usize = if neg {
        1
    } else {
        0
    };
    let body = text_between(&chars, start, n);
    assert(body@ =~= (if neg {
        t@.skip(1)
    } else {
        t@
    }));
    let parts = split_text(body.as_str(), ':');
    assert(texts(parts@).len() == parts@.len());
    if parts.len() != 3 {
        return None;
    }
    assert(texts(parts@)[0] == parts@[0]@);
    assert(texts(parts@)[1] == parts@[1]@);
    assert(texts(parts@)[2] == parts@[2]@);
    let h: i64 = match parse_int(parts[0].as_str()) {
        Some(h) => h,
        None => return None,
    };
    let m: i64 = match parse_int(parts[1].as_str()) {
        Some(m) => m,
        None => return None,
    };
    let s: i64 = match parse_int(parts[2].as_str()) {
        Some(s) => s,
        None => return None,
    };
    let hours: i64 = match h.checked_mul(3600) {
        Some(x) => x,
        None => return None,
    };
    let minutes: i64 = match m.checked_mul(60) {
        Some(x) => x,
        None => return None,
    };
    let most: i64 = match hours.checked_add(minutes) {
        Some(x) => x,
        None => return None,
    };
    let total: i64 = match most.checked_add(s) {
        Some(x) => x,
        None => return None,
    };
    if !neg {
        Some(total)
    } else if total == i64::MIN {
        None
    } else {
        Some(-total)
    }
}

/// The interval that the words from `i` on add to `acc`.
pub open spec fn interval_words(w: Seq<Seq<char>>, i: int, acc: Interval) -> Option<Interval>
    decreases w.len() - i,
{
    if i < 0 || i >= w.len() {
        Some(acc)
    } else {
        match hms_seconds(w[i]) {
            Some(secs) => match fit(acc.2 + secs) {
                Some(s) => interval_words(w, i + 1, (acc.0, acc.1, s)),
                None => None,
            },
            None => if i + 1 < w.len() {
                match parsed_int(w[i]) {
                    Some(amount) => match unit_added(acc, amount, w[i + 1]) {
                        Some(next) => interval_words(w, i + 2, next),
                        None => None,
                    },
                    None => None,
                }
            } else {
                None
            },
        }
    }
}

/// The interval a text writes, if it writes nothing else.
pub open spec fn interval_of(s: Seq<char>) -> Option<Interval> {
    if words(s).len() == 0 {
        None
    } else {
        interval_words(words(s), 0, (0, 0, 0))
    }
}

/// Strictly parses interval *text* (`2 mons 3 days`, `1 year`, `02:00:00`,
/// `-5 days`) into `(months, days, seconds)`. Returns `None` for anything not
/// clearly an interval (bare numbers, dates, arbitrary text) so it never
/// hijacks ordinary text arithmetic or comparison, and where a component does
/// not fit.
pub fn parse_interval_text(s: &str) -> (r: Option<Interval>)
    ensures
        r == interval_of(s@),
{
    let tokens = words_of(s);
    assert(texts(tokens@).len() == tokens@.len());
    if tokens.len() == 0 {
        return None;
    }
    let ghost w = words(s@);
    let mut acc: Interval = (0, 0, 0);
    let mut i: usize = 0;
    while i < tokens.len()
        invariant
            i <= tokens@.len(),
            texts(tokens@) == w,
            w == words(s@),
            w.len() > 0,
            w.len() == tokens@.len(),
            interval_of(s@) == interval_words(w, i as int, acc),
        decreases tokens@.len() - i,
    {
        assert(w[i as int] == tokens@[i as int]@);
        match parse_hms_token(tokens[i].as_str()) {
            Some(secs) => {
                match acc.2.checked_add(secs) {
                    Some(total) => {
                        acc = (acc.0, acc.1, total);
                        i = i + 1;
                    },
                    None => {
                        return None;
                    },
                }
            },
            None => {
                if tokens.len() - i < 2 {
                    return None;
                }
                assert(w[i + 1] == tokens@[i + 1]@);
                match parse_int(tokens[i].as_str()) {
                    Some(amount) => {
                        match apply_interval_unit(acc, amount, tokens[i + 1].as_str()) {
                            Some(next) => {
                                acc = next;
                                i = i + 2;
                            },
                            None => {
                                return None;
                            },
                        }
                    },
                    None => {
                        return None;
                    },
                }
            },
        }
    }
    Some(acc)
}

/// The interval that the pairs of words from `i` on add to `acc`.
pub open spec fn interval_pairs(w: Seq<Seq<char>>, i: int, acc: Interval) -> Option<Interval>
    decreases w.len() - i,
{
    if i < 0 || i + 1 >= w.len() {
        Some(acc)
    } else {
        match parsed_int(w[i]) {
            Some(amount) => match unit_added(acc, amount, w[i + 1]) {
                Some(next) => interval_pairs(w, i + 2, next),
                None => None,
            },
            None => None,
        }
    }
}

/// What an `INTERVAL` expression with this text and leading field stands for.
pub open spec fn interval_literal(raw: Seq<char>, leading: Option<Seq<char>>) -> Option<Interval> {
    if words(raw).len() >= 2 {
        interval_pairs(words(raw), 0, (0, 0, 0))
    } else {
        match (parsed_int(trimmed(raw)), leading) {
            (Some(amount), Some(unit)) => unit_added((0, 0, 0), amount, unit),
            _ => None,
        }
    }
}

/// Parses an `INTERVAL` expression into a `(months, days, seconds)` offset.
/// Handles `INTERVAL '1 day'`, `INTERVAL '2 months 3 days'`, and
/// `INTERVAL '1' DAY` (value + leading field).
pub fn parse_interval(raw: &str, leading: &Option<String>) -> (r: Option<Interval>)
    ensures
        r == interval_literal(raw@, crate::text::opt_text(*leading)),
{
    let tokens = words_of(raw);
    let ghost w = words(raw@);
    assert(texts(tokens@).len() == tokens@.len());
    if tokens.len() >= 2 {
        let n: usize = tokens.len();
        let mut acc: Interval = (0, 0, 0);
        let mut i: usize = 0;
        while n - i >= 2
            invariant
                i <= n,
                n == tokens@.len(),
                texts(tokens@) == w,
                w.len() == n,
                interval_pairs(w, 0, (0, 0, 0)) == interval_pairs(w, i as int, acc),
                w == words(raw@),
                n >= 2,
            decreases n - i,
        {
            assert(w[i as int] == tokens@[i as int]@);
            assert(w[i + 1] == tokens@[i + 1]@);
            match parse_int(tokens[i].as_str()) {
                Some(amount) => match apply_interval_unit(acc, amount, tokens[i + 1].as_str()) {
                    Some(next) => {
                        acc = next;
                        i = i + 2;
                    },
                    None => {
                        return None;
                    },
                },
                None => {
                    return None;
                },
            }
        }
        return Some(acc);
    }
    let bare = trim_text(raw);
    match parse_int(bare.as_str()) {
        Some(amount) => match leading {
            Some(unit) => apply_interval_unit((0, 0, 0), amount, unit.as_str()),
            None => None,
        },
        None => None,
    }
}

/// Division rounding toward zero.
pub open spec fn trunc_div(a: int, b: int) -> int {
    if a >= 0 {
        a / b
    } else {
        -((-a) / b)
    }
}

/// The remainder of [`trunc_div`], with the sign of `a`.
pub open spec fn trunc_rem(a: int, b: int) -> int {
    if a >= 0 {
        a % b
    } else {
        -((-a) % b)
    }
}

/// `n` and a unit, plural unless `n` is 1 or -1.
pub open spec fn counted(n: int, unit: Seq<char>) -> Seq<char> {
    decimal(n) + seq![' '] + unit + (if n == 1 || n == -1 {
        Seq::empty()
    } else {
        seq!['s']
    })
}

fn count_text(n: i64, unit: &str) -> (r: String)
    ensures
        r@ == counted(n as int, unit@),
{
    let mut out = int_text(n);
    out.push(' ');
    crate::text::push_text(&mut out, unit);
    if n != 1 && n != -1 {
        out.push('s');
    }
    assert(out@ =~= counted(n as int, unit@));
    out
}

/// A number in at least two digits.
pub open spec fn two_digits(n: nat) -> Seq<char> {
    if n < 10 {
        seq!['0'] + decimal_nat(n)
    } else {
        decimal_nat(n)
    }
}

fn push_two_digits(out: &mut String, n: i64)
    requires
        n >= 0,
    ensures
        final(out)@ == old(out)@ + two_digits(n as nat),
{
    let ghost before = out@;
    let digits = int_text(n);
    if n < 10 {
        out.push('0');
    }
    crate::text::push_text(out, digits.as_str());
    assert(out@ =~= before + two_digits(n as nat));
}

/// `[-]HH:MM:SS`.
pub open spec fn clock(seconds: int) -> Seq<char> {
    let s = if seconds < 0 {
        -seconds
    } else {
        seconds
    };
    (if seconds < 0 {
        seq!['-']
    } else {
        Seq::empty()
    }) + two_digits((s / 3600) as nat) + seq![':'] + two_digits(((s % 3600) / 60) as nat)
        + seq![':'] + two_digits((s % 60) as nat)
}

fn clock_text(seconds: i64) -> (r: String)
    requires
        seconds != i64::MIN,
    ensures
        r@ == clock(seconds as int),
{
    let s: i64 = if seconds < 0 {
        -seconds
    } else {
        seconds
    };
    let mut out = String::new();
    if seconds < 0 {
        out.push('-');
    }
    push_two_digits(&mut out, s / 3600);
    out.push(':');
    push_two_digits(&mut out, (s % 3600) / 60);
    out.push(':');
    push_two_digits(&mut out, s % 60);
    assert(out@ =~= clock(seconds as int));
    out
}

/// The parts an interval is written in.
pub open spec fn interval_parts(months: int, days: int, seconds: int) -> Seq<Seq<char>> {
    let years = trunc_div(months, 12);
    let mons = trunc_rem(months, 12);
    let a = if years != 0 {
        seq![counted(years, "year"@)]
    } else {
        Seq::empty()
    };
    let b = if mons != 0 {
        a.push(counted(mons, "mon"@))
    } else {
        a
    };
    let c = if days != 0 {
        b.push(counted(days, "day"@))
    } else {
        b
    };
    if seconds != 0 {
        c.push(clock(seconds))
    } else {
        c
    }
}

/// An interval as PostgreSQL writes it.
pub open spec fn interval_text(months: int, days: int, seconds: int) -> Seq<char> {
    if months == 0 && days == 0 && seconds == 0 {
        "00:00:00"@
    } else {
        join(interval_parts(months, days, seconds), " "@)
    }
}

/// Renders a `(months, days, seconds)` interval as canonical PostgreSQL text,
/// e.g. `1 year 2 mons 3 days` / `02:00:00`.
pub fn format_interval(months: i64, days: i64, seconds: i64) -> (r: String)
    requires
        seconds != i64::MIN,
    ensures
        r@ == interval_text(months as int, days as int, seconds as int),
{
    let mut parts: Vec<String> = Vec::new();
    let wide: i128 = months as i128;
    let abs: i128 = if wide < 0 {
        -wide
    } else {
        wide
    };
    let q: i128 = abs / 12;
    let m: i128 = abs % 12;
    let years: i64 = if months < 0 {
        (-q) as i64
    } else {
        q as i64
    };
    let mons: i64 = if months < 0 {
        (-m) as i64
    } else {
        m as i64
    };
    assert(years == trunc_div(months as int, 12));
    assert(mons == trunc_rem(months as int, 12));
    if years != 0 {
        parts.push(count_text(years, "year"));
    }
    if mons != 0 {
        parts.push(count_text(mons, "mon"));
    }
    if days != 0 {
        parts.push(count_text(days, "day"));
    }
    if seconds != 0 {
        parts.push(clock_text(seconds));
    }
    assert(texts(parts@) =~= interval_parts(months as int, days as int, seconds as int));
    if parts.len() == 0 {
        assert(months == 0 && days == 0 && seconds == 0);
        "00:00:00".to_owned()
    } else {
        join_texts(&parts, " ")
    }
}

/// The magnitude of an interval in seconds, with months of 30 days.
pub open spec fn magnitude(i: Interval) -> int {
    i.0 * 30 * 86400 + i.1 * 86400 + i.2
}

/// A comparable magnitude for an interval (PostgreSQL uses a 30-day month);
/// exact for every interval.
pub fn interval_total(i: Interval) -> (r: i128)
    ensures
        r == magnitude(i),
{
    i.0 as i128 * 2_592_000 + i.1 as i128 * 86_400 + i.2 as i128
}

} // verus!
