//! An interval that is written is read back.
use vstd::prelude::*;
use crate::interval::{
    clock, counted, fit, hms_seconds, interval_of, interval_parts, interval_text, interval_words,
    trunc_div, trunc_rem, two_digits, unit_added, Interval,
};
use crate::text::{
    all_digits, decimal, decimal_nat, digits_value, int_value, is_digit, is_space, join,
    law_decimal_reads_back, lemma_decimal_nat, lower, lower_char, parsed_int, split, strip_end,
    words,
};

verus! {

/// Whether a text is one word.
pub open spec fn is_word(s: Seq<char>) -> bool {
    s.len() > 0 && forall|i: int| 0 <= i < s.len() ==> !is_space(#[trigger] s[i])
}

proof fn lemma_one_word(s: Seq<char>)
    requires
        is_word(s),
    ensures
        words(s) == seq![s],
    decreases s.len(),
{
    assert(!is_space(s[s.len() - 1]));
    if s.len() == 1 {
        assert(s.drop_last() =~= Seq::<char>::empty());
        assert(words(s.drop_last()) =~= Seq::<Seq<char>>::empty());
        assert(seq![s.last()] =~= s);
    } else {
        let t = s.drop_last();
        assert forall|i: int| 0 <= i < t.len() implies !is_space(#[trigger] t[i]) by {
            assert(t[i] == s[i]);
        }
        lemma_one_word(t);
        assert(!is_space(s[s.len() - 2]));
        assert(t.push(s.last()) =~= s);
    }
    assert(words(s) =~= seq![s]);
}

proof fn lemma_word_added(x: Seq<char>, t: Seq<char>)
    requires
        is_word(t),
    ensures
        words(x + seq![' '] + t) == words(x).push(t),
    decreases t.len(),
{
    let s = x + seq![' '] + t;
    assert(is_space(' '));
    assert(s.last() == t[t.len() - 1]);
    assert(!is_space(t[t.len() - 1]));
    if t.len() == 1 {
        let before = x + seq![' '];
        assert(s.drop_last() =~= before);
        assert(before.drop_last() =~= x);
        assert(words(before) == words(x));
        assert(s[s.len() - 2] == ' ');
        assert(seq![s.last()] =~= t);
    } else {
        let u = t.drop_last();
        assert forall|i: int| 0 <= i < u.len() implies !is_space(#[trigger] u[i]) by {
            assert(u[i] == t[i]);
        }
        assert(s.drop_last() =~= x + seq![' '] + u);
        lemma_word_added(x, u);
        assert(s[s.len() - 2] == t[t.len() - 2]);
        assert(!is_space(t[t.len() - 2]));
        assert(u.push(t.last()) =~= t);
    }
    assert(words(s) =~= words(x).push(t));
}

// ---------------------------------------------------------------------------
// Pieces
// ---------------------------------------------------------------------------

proof fn lemma_one_piece(s: Seq<char>, sep: char)
    requires
        !s.contains(sep),
    ensures
        split(s, sep) == seq![s],
    decreases s.len(),
{
    if s.len() > 0 {
        let t = s.drop_last();
        assert(!t.contains(sep)) by {
            if t.contains(sep) {
                let i = choose|i: int| 0 <= i < t.len() && t[i] == sep;
                assert(s[i] == sep);
            }
        }
        lemma_one_piece(t, sep);
        assert(s[s.len() - 1] != sep);
        assert(t.push(s.last()) =~= s);
    } else {
        assert(s =~= Seq::<char>::empty());
    }
    assert(split(s, sep) =~= seq![s]);
}

proof fn lemma_piece_added(x: Seq<char>, sep: char, t: Seq<char>)
    requires
        !t.contains(sep),
    ensures
        split(x + seq![sep] + t, sep) == split(x, sep).push(t),
    decreases t.len(),
{
    let s = x + seq![sep] + t;
    if t.len() == 0 {
        assert(s.drop_last() =~= x);
        assert(s.last() == sep);
        assert(t =~= Seq::<char>::empty());
    } else {
        let u = t.drop_last();
        assert(!u.contains(sep)) by {
            if u.contains(sep) {
                let i = choose|i: int| 0 <= i < u.len() && u[i] == sep;
                assert(t[i] == sep);
            }
        }
        assert(s.drop_last() =~= x + seq![sep] + u);
        lemma_piece_added(x, sep, u);
        assert(t[t.len() - 1] != sep);
        assert(s.last() == t.last());
        assert(u.push(t.last()) =~= t);
    }
    assert(split(s, sep) =~= split(x, sep).push(t));
}

// ---------------------------------------------------------------------------
// Numbers
// ---------------------------------------------------------------------------

proof fn lemma_digits_are_plain(s: Seq<char>)
    requires
        s.len() > 0,
        all_digits(s),
    ensures
        is_word(s),
        !s.contains(':'),
        s[0] != '-',
        s[0] != '+',
{
    assert forall|i: int| 0 <= i < s.len() implies !is_space(#[trigger] s[i]) && s[i] != ':' by {
        assert(is_digit(s[i]));
    }
    assert(is_digit(s[0]));
}

proof fn lemma_decimal_is_plain(n: i64)
    ensures
        is_word(decimal(n as int)),
        hms_seconds(decimal(n as int)) is None,
{
    let t = decimal(n as int);
    let d = decimal_nat(
        (if n < 0 {
            -n
        } else {
            n as int
        }) as nat,
    );
    lemma_decimal_nat(
        (if n < 0 {
            -n
        } else {
            n as int
        }) as nat,
    );
    lemma_digits_are_plain(d);
    lemma_one_piece(d, ':');
    if n < 0 {
        assert(t =~= seq!['-'] + d);
        assert(t.skip(1) =~= d);
        assert forall|i: int| 0 <= i < t.len() implies !is_space(#[trigger] t[i]) by {
            if i > 0 {
                assert(t[i] == d[i - 1]);
            }
        }
    }
}

proof fn lemma_two_digits(n: nat)
    requires
        n <= i64::MAX,
    ensures
        two_digits(n).len() > 0,
        all_digits(two_digits(n)),
        parsed_int(two_digits(n)) == Some(n as i64),
{
    lemma_decimal_nat(n);
    let t = two_digits(n);
    if n < 10 {
        let d = decimal_nat(n);
        assert(t =~= seq!['0', d[0]]);
        assert(t.drop_last() =~= seq!['0']);
        assert(seq!['0'].drop_last() =~= Seq::<char>::empty());
        assert(d.drop_last() =~= Seq::<char>::empty());
        assert(digits_value(Seq::<char>::empty()) == 0);
        assert(digits_value(seq!['0']) == 0);
        assert(digits_value(d) == n);
        assert(digits_value(t) == n);
        assert(all_digits(t));
    }
    lemma_digits_are_plain(t);
    assert(int_value(t) == Some(n as int));
}

proof fn lemma_clock(seconds: i64)
    requires
        seconds != i64::MIN,
    ensures
        is_word(clock(seconds as int)),
        hms_seconds(clock(seconds as int)) == Some(seconds),
{
    let s: int = if seconds < 0 {
        -seconds
    } else {
        seconds as int
    };
    let h = (s / 3600) as nat;
    let m = ((s % 3600) / 60) as nat;
    let r = (s % 60) as nat;
    assert(h * 3600 + m * 60 + r == s) by {
        assert(s == (s / 3600) * 3600 + s % 3600);
        assert(s % 3600 == ((s % 3600) / 60) * 60 + (s % 3600) % 60);
        assert((s % 3600) % 60 == s % 60);
    }
    lemma_two_digits(h);
    lemma_two_digits(m);
    lemma_two_digits(r);
    let a = two_digits(h);
    let b = two_digits(m);
    let c = two_digits(r);
    lemma_digits_are_plain(a);
    lemma_digits_are_plain(b);
    lemma_digits_are_plain(c);
    let body = a + seq![':'] + b + seq![':'] + c;
    lemma_one_piece(a, ':');
    lemma_piece_added(a, ':', b);
    lemma_piece_added(a + seq![':'] + b, ':', c);
    assert(split(body, ':') =~= seq![a, b, c]);
    let t = clock(seconds as int);
    if seconds < 0 {
        assert(t =~= seq!['-'] + body);
        assert(t.skip(1) =~= body);
    } else {
        assert(t =~= body);
        assert(t[0] == a[0]);
    }
    assert forall|i: int| 0 <= i < body.len() implies !is_space(#[trigger] body[i]) by {
        let x = a.len();
        let y = x + 1 + b.len();
        if i < x {
            assert(body[i] == a[i]);
        } else if i == x {
            assert(body[i] == ':');
        } else if i < y {
            assert(body[i] == b[i - x - 1]);
        } else if i == y {
            assert(body[i] == ':');
        } else {
            assert(body[i] == c[i - y - 1]);
        }
    }
    assert forall|i: int| 0 <= i < t.len() implies !is_space(#[trigger] t[i]) by {
        if seconds < 0 {
            if i > 0 {
                assert(t[i] == body[i - 1]);
            }
        } else {
            assert(t[i] == body[i]);
        }
    }
}

// ---------------------------------------------------------------------------
// Units
// ---------------------------------------------------------------------------

/// A unit's name for this count.
pub open spec fn unit_word(n: int, unit: Seq<char>) -> Seq<char> {
    unit + (if n == 1 || n == -1 {
        Seq::empty()
    } else {
        seq!['s']
    })
}

proof fn lemma_unit_word(n: int, unit: Seq<char>)
    requires
        unit.len() > 0,
        unit.last() != 's',
        forall|i: int| 0 <= i < unit.len() ==> 97 <= (#[trigger] unit[i]) as u32 <= 122,
    ensures
        is_word(unit_word(n, unit)),
        strip_end(lower(unit_word(n, unit)), 's') == unit,
{
    let w = unit_word(n, unit);
    assert forall|i: int| 0 <= i < w.len() implies !is_space(#[trigger] w[i]) && lower_char(w[i])
        == w[i] by {
        if i < unit.len() {
            assert(w[i] == unit[i]);
        }
    }
    assert(lower(w) =~= w);
    assert(strip_end(unit, 's') == unit);
    if n == 1 || n == -1 {
        assert(w =~= unit);
    } else {
        assert(w.last() == 's');
        assert(w.drop_last() =~= unit);
    }
}

proof fn lemma_years(acc: Interval, n: i64)
    requires
        fit(n * 12) is Some,
        fit(acc.0 + n * 12) is Some,
    ensures
        is_word(unit_word(n as int, "year"@)),
        unit_added(acc, n, unit_word(n as int, "year"@)) == Some(
            ((acc.0 + n * 12) as i64, acc.1, acc.2),
        ),
{
    reveal_strlit("year");
    lemma_unit_word(n as int, "year"@);
}

proof fn lemma_months(acc: Interval, n: i64)
    requires
        fit(acc.0 + n) is Some,
    ensures
        is_word(unit_word(n as int, "mon"@)),
        unit_added(acc, n, unit_word(n as int, "mon"@)) == Some(
            ((acc.0 + n) as i64, acc.1, acc.2),
        ),
{
    reveal_strlit("year");
    reveal_strlit("yr");
    reveal_strlit("mon");
    lemma_unit_word(n as int, "mon"@);
    assert("mon"@.len() != "year"@.len() && "mon"@.len() != "yr"@.len());
}

proof fn lemma_days(acc: Interval, n: i64)
    requires
        fit(acc.1 + n) is Some,
    ensures
        is_word(unit_word(n as int, "day"@)),
        unit_added(acc, n, unit_word(n as int, "day"@)) == Some(
            (acc.0, (acc.1 + n) as i64, acc.2),
        ),
{
    reveal_strlit("year");
    reveal_strlit("yr");
    reveal_strlit("month");
    reveal_strlit("mon");
    reveal_strlit("week");
    reveal_strlit("day");
    lemma_unit_word(n as int, "day"@);
    assert("day"@.len() != "year"@.len() && "day"@.len() != "yr"@.len() && "day"@.len()
        != "month"@.len() && "day"@.len() != "week"@.len());
    assert("day"@[0] != "mon"@[0]);
}

// ---------------------------------------------------------------------------
// Parts
// ---------------------------------------------------------------------------

proof fn lemma_more_words(w: Seq<Seq<char>>, more: Seq<Seq<char>>, i: int, acc: Interval)
    requires
        0 <= i <= w.len(),
        interval_words(w, i, acc) is Some,
    ensures
        interval_words(w + more, i, acc) == interval_words(
            w + more,
            w.len() as int,
            interval_words(w, i, acc)->0,
        ),
    decreases w.len() - i,
{
    let all = w + more;
    if i < w.len() {
        assert(all[i] == w[i]);
        match hms_seconds(w[i]) {
            Some(secs) => {
                let s = fit(acc.2 + secs)->0;
                lemma_more_words(w, more, i + 1, (acc.0, acc.1, s));
            },
            None => {
                assert(all[i + 1] == w[i + 1]);
                let amount = parsed_int(w[i])->0;
                lemma_more_words(w, more, i + 2, unit_added(acc, amount, w[i + 1])->0);
            },
        }
    }
}

/// Whether the parts so far, written one after the other, are read as `acc`.
#[verifier::opaque]
pub open spec fn reads_as(parts: Seq<Seq<char>>, acc: Interval) -> bool {
    &&& interval_words(words(join(parts, " "@)), 0, (0, 0, 0)) == Some(acc)
    &&& parts.len() > 0 ==> words(join(parts, " "@)).len() > 0
}

proof fn lemma_reads(parts: Seq<Seq<char>>, acc: Interval)
    requires
        reads_as(parts, acc),
        parts.len() > 0,
    ensures
        interval_of(join(parts, " "@)) == Some(acc),
{
    reveal(reads_as);
}

proof fn lemma_joined(parts: Seq<Seq<char>>, p: Seq<char>)
    ensures
        join(parts.push(p), " "@) == (if parts.len() == 0 {
            p
        } else {
            join(parts, " "@) + seq![' '] + p
        }),
{
    reveal_strlit(" ");
    assert(" "@ =~= seq![' ']);
    assert(parts.push(p).drop_last() =~= parts);
    assert(parts.push(p).last() == p);
}

proof fn lemma_no_parts()
    ensures
        reads_as(Seq::empty(), (0, 0, 0)),
{
    reveal(reads_as);
    assert(join(Seq::<Seq<char>>::empty(), " "@) =~= Seq::<char>::empty());
    assert(words(Seq::<char>::empty()) =~= Seq::<Seq<char>>::empty());
}

proof fn lemma_counted_part(
    parts: Seq<Seq<char>>,
    acc: Interval,
    n: i64,
    unit: Seq<char>,
    next: Interval,
)
    requires
        reads_as(parts, acc),
        is_word(unit_word(n as int, unit)),
        unit_added(acc, n, unit_word(n as int, unit)) == Some(next),
    ensures
        reads_as(parts.push(counted(n as int, unit)), next),
{
    reveal(reads_as);
    let d = decimal(n as int);
    let u = unit_word(n as int, unit);
    let p = counted(n as int, unit);
    assert(p =~= d + seq![' '] + u);
    law_decimal_reads_back(n);
    lemma_decimal_is_plain(n);
    lemma_joined(parts, p);
    let x = join(parts, " "@);
    let w = words(x);
    let all = words(join(parts.push(p), " "@));
    if parts.len() == 0 {
        assert(x =~= Seq::<char>::empty());
        lemma_one_word(d);
        lemma_word_added(d, u);
        assert(w =~= Seq::<Seq<char>>::empty());
        assert(all =~= w + seq![d, u]);
    } else {
        lemma_word_added(x, d);
        lemma_word_added(x + seq![' '] + d, u);
        assert(x + seq![' '] + p =~= x + seq![' '] + d + seq![' '] + u);
        assert(all =~= w + seq![d, u]);
    }
    lemma_more_words(w, seq![d, u], 0, (0, 0, 0));
    assert(all[w.len() as int] == d && all[w.len() as int + 1] == u);
    assert(interval_words(all, w.len() as int + 2, next) == Some(next));
}

proof fn lemma_clock_part(parts: Seq<Seq<char>>, acc: Interval, seconds: i64)
    requires
        reads_as(parts, acc),
        acc.2 == 0,
        seconds != i64::MIN,
    ensures
        reads_as(parts.push(clock(seconds as int)), (acc.0, acc.1, seconds)),
{
    reveal(reads_as);
    let c = clock(seconds as int);
    lemma_clock(seconds);
    lemma_joined(parts, c);
    let x = join(parts, " "@);
    let w = words(x);
    let all = words(join(parts.push(c), " "@));
    if parts.len() == 0 {
        assert(x =~= Seq::<char>::empty());
        lemma_one_word(c);
        assert(w =~= Seq::<Seq<char>>::empty());
        assert(all =~= w + seq![c]);
    } else {
        lemma_word_added(x, c);
        assert(all =~= w + seq![c]);
    }
    lemma_more_words(w, seq![c], 0, (0, 0, 0));
    assert(all[w.len() as int] == c);
    let next: Interval = (acc.0, acc.1, seconds);
    assert(interval_words(all, w.len() as int + 1, next) == Some(next));
}

proof fn lemma_zero()
    ensures
        interval_of("00:00:00"@) == Some((0i64, 0i64, 0i64)),
{
    reveal_strlit("00:00:00");
    let t = "00:00:00"@;
    lemma_clock(0);
    assert(decimal_nat(0) =~= seq!['0']);
    assert(two_digits(0) =~= seq!['0', '0']);
    assert(t =~= clock(0));
    lemma_one_word(t);
    let w = words(t);
    assert(w[0] == t);
    assert(interval_words(w, 1, (0, 0, 0)) == Some((0i64, 0i64, 0i64)));
}

/// An interval that is written is read back, part for part. The least number of
/// seconds, which has no absolute value to write, is left out.
pub proof fn law_written_intervals_read_back(months: i64, days: i64, seconds: i64)
    requires
        seconds != i64::MIN,
    ensures
        interval_of(interval_text(months as int, days as int, seconds as int)) == Some(
            (months, days, seconds),
        ),
{
    let years = trunc_div(months as int, 12);
    let mons = trunc_rem(months as int, 12);
    assert(years * 12 + mons == months);
    assert(i64::MIN <= years <= i64::MAX && i64::MIN <= mons <= i64::MAX);
    assert(i64::MIN <= years * 12 <= i64::MAX);
    if months == 0 && days == 0 && seconds == 0 {
        lemma_zero();
    } else {
        lemma_no_parts();
        let none = Seq::<Seq<char>>::empty();
        let a = if years != 0 {
            none.push(counted(years, "year"@))
        } else {
            none
        };
        let acc_a: Interval = ((years * 12) as i64, 0, 0);
        if years != 0 {
            lemma_years((0, 0, 0), years as i64);
            lemma_counted_part(none, (0, 0, 0), years as i64, "year"@, acc_a);
        }
        assert(reads_as(a, acc_a));
        let b = if mons != 0 {
            a.push(counted(mons, "mon"@))
        } else {
            a
        };
        let acc_b: Interval = (months, 0, 0);
        if mons != 0 {
            lemma_months(acc_a, mons as i64);
            lemma_counted_part(a, acc_a, mons as i64, "mon"@, acc_b);
        }
        assert(reads_as(b, acc_b));
        let c = if days != 0 {
            b.push(counted(days as int, "day"@))
        } else {
            b
        };
        let acc_c: Interval = (months, days, 0);
        if days != 0 {
            lemma_days(acc_b, days);
            lemma_counted_part(b, acc_b, days, "day"@, acc_c);
        }
        assert(reads_as(c, acc_c));
        let d = if seconds != 0 {
            c.push(clock(seconds as int))
        } else {
            c
        };
        if seconds != 0 {
            lemma_clock_part(c, acc_c, seconds);
        }
        assert(reads_as(d, (months, days, seconds)));
        assert(none.push(counted(years, "year"@)) =~= seq![counted(years, "year"@)]);
        assert(d =~= interval_parts(months as int, days as int, seconds as int));
        assert(d.len() > 0);
        lemma_reads(d, (months, days, seconds));
    }
}

} // verus!
