//! The canonical text of a duration parses back to the same duration.
use vstd::prelude::*;

use crate::model::time::{
    designator_order, duration_text, first_designator, parse_duration_spec, parse_seconds_spec,
    plain_unsigned, strip_trailing_zeros, time_fields, u64_max, zeros, TimeFields,
};
use crate::path::first_index;
use crate::text::{all_digits, decimal, digit_char, digit_value, digits_value, is_digit, zero_padded};

verus! {

proof fn lemma_digit_char(d: nat)
    requires
        d < 10,
    ensures
        is_digit(digit_char(d)),
        digit_value(digit_char(d)) == d,
{
}

/// Decimal text is one or more digits denoting the number.
pub proof fn lemma_decimal(n: nat)
    ensures
        decimal(n).len() > 0,
        all_digits(decimal(n)),
        digits_value(decimal(n)) == n,
    decreases n,
{
    if n < 10 {
        lemma_digit_char(n);
        assert(decimal(n).drop_last() =~= Seq::<char>::empty());
        assert(digits_value(decimal(n)) == digits_value(decimal(n).drop_last()) * 10 + digit_value(decimal(n).last()));
    } else {
        lemma_decimal(n / 10);
        lemma_digit_char(n % 10);
        assert(decimal(n).drop_last() =~= decimal(n / 10));
        assert(digits_value(decimal(n)) == digits_value(decimal(n / 10)) * 10 + digit_value(digit_char(n % 10)));
        assert((n / 10) * 10 + n % 10 == n);
    }
}

proof fn lemma_plain_decimal(n: nat)
    requires
        n <= u64_max(),
    ensures
        plain_unsigned(decimal(n)) == Some(n),
{
    lemma_decimal(n);
}

/// Digits and dots are skipped when looking for a designator.
proof fn lemma_first_designator_concat(a: Seq<char>, b: Seq<char>)
    requires
        forall|i: int| 0 <= i < a.len() ==> is_digit(#[trigger] a[i]) || a[i] == '.',
    ensures
        first_designator(a + b) == a.len() + first_designator(b),
    decreases a.len(),
{
    if a.len() > 0 {
        assert((a + b).drop_first() =~= a.drop_first() + b);
        lemma_first_designator_concat(a.drop_first(), b);
    } else {
        assert(a + b =~= b);
    }
}

/// Leading zeros do not change a digit string's value.
proof fn lemma_leading_zeros(k: nat, d: Seq<char>)
    ensures
        digits_value(zeros(k) + d) == digits_value(d),
        all_digits(d) ==> all_digits(zeros(k) + d),
    decreases d.len(),
{
    if d.len() == 0 {
        assert(zeros(k) + d =~= zeros(k));
        lemma_zeros_value(k);
    } else {
        assert((zeros(k) + d).drop_last() =~= zeros(k) + d.drop_last());
        lemma_leading_zeros(k, d.drop_last());
    }
}

proof fn lemma_zeros_value(k: nat)
    ensures
        digits_value(zeros(k)) == 0,
    decreases k,
{
    if k > 0 {
        assert(zeros(k).drop_last() =~= zeros((k - 1) as nat));
        lemma_zeros_value((k - 1) as nat);
    }
}

/// Removing trailing zeros and padding them back gives the text again.
proof fn lemma_strip_zeros(x: Seq<char>)
    ensures
        strip_trailing_zeros(x).len() <= x.len(),
        strip_trailing_zeros(x) + zeros((x.len() - strip_trailing_zeros(x).len()) as nat) == x,
        strip_trailing_zeros(x).len() > 0 ==> strip_trailing_zeros(x).last() != '0',
        strip_trailing_zeros(x) =~= x.take(strip_trailing_zeros(x).len() as int),
    decreases x.len(),
{
    if x.len() > 0 && x.last() == '0' {
        lemma_strip_zeros(x.drop_last());
        let s = strip_trailing_zeros(x.drop_last());
        let k = (x.drop_last().len() - s.len()) as nat;
        assert(s + zeros(k + 1) =~= (s + zeros(k)).push('0'));
        assert(x =~= x.drop_last().push('0'));
    } else {
        assert(x + zeros(0) =~= x);
    }
}


proof fn lemma_decimal_len(n: nat, k: nat, bound: nat)
    requires
        n < bound,
        bound == vstd::arithmetic::power::pow(10, k),
        k > 0,
    ensures
        decimal(n).len() <= k,
    decreases k,
{
    vstd::arithmetic::power::lemma_pow_positive(10, k);
    if n >= 10 {
        assert(k > 1) by {
            if k == 1 {
                vstd::arithmetic::power::lemma_pow1(10);
            }
        }
        let b2 = vstd::arithmetic::power::pow(10, (k - 1) as nat);
        vstd::arithmetic::power::lemma_pow_adds(10, 1, (k - 1) as nat);
        vstd::arithmetic::power::lemma_pow1(10);
        assert(n / 10 < b2) by (nonlinear_arith)
            requires n < bound, bound == 10 * b2, b2 > 0;
        lemma_decimal_len(n / 10, (k - 1) as nat, b2 as nat);
    }
}

/// Whole seconds without a fraction.
proof fn lemma_seconds_plain(sec: nat)
    requires
        sec <= u64_max(),
    ensures
        parse_seconds_spec(decimal(sec)) == Some((sec, 0nat)),
{
    let t = decimal(sec);
    lemma_decimal(sec);
    assert forall|j: int| 0 <= j < t.len() implies t[j] != '.' by {
        assert(is_digit(t[j]));
    }
    crate::path::lemma_first_index_is(t, '.', t.len() as int);
    assert(t.take(t.len() as int) =~= t);
}

/// Whole seconds with the canonical fraction of `nanos`.
proof fn lemma_seconds_fraction(sec: nat, nanos: nat)
    requires
        sec <= u64_max(),
        0 < nanos < 1_000_000_000,
    ensures
        parse_seconds_spec(decimal(sec).push('.') + strip_trailing_zeros(zero_padded(nanos, 9)))
            == Some((sec, nanos)),
{
    let w = decimal(sec);
    let z = zero_padded(nanos, 9);
    let f = strip_trailing_zeros(z);
    let t = w.push('.') + f;
    lemma_decimal(sec);
    lemma_decimal(nanos);
    vstd::arithmetic::power::lemma_pow_positive(10, 9);
    assert(vstd::arithmetic::power::pow(10, 9) == 1_000_000_000) by {
        reveal_with_fuel(vstd::arithmetic::power::pow, 10);
    }
    lemma_decimal_len(nanos, 9, 1_000_000_000);
    let d = decimal(nanos);
    assert(z =~= zeros((9 - d.len()) as nat) + d);
    lemma_leading_zeros((9 - d.len()) as nat, d);
    assert(z.len() == 9);
    lemma_strip_zeros(z);
    assert(all_digits(f)) by {
        assert forall|i: int| 0 <= i < f.len() implies is_digit(#[trigger] f[i]) by {
            assert(f[i] == z[i]);
        }
    }
    if f.len() == 0 {
        assert(z =~= zeros(9));
        lemma_zeros_value(9);
        assert(false);
    }
    assert forall|j: int| 0 <= j < w.len() implies t[j] != '.' by {
        assert(t[j] == w[j]);
        assert(is_digit(w[j]));
    }
    assert(t[w.len() as int] == '.');
    crate::path::lemma_first_index_is(t, '.', w.len() as int);
    assert(t.take(w.len() as int) =~= w);
    assert(t.skip(w.len() + 1int) =~= f);
    assert(f + zeros((9 - f.len()) as nat) == z);
}

/// A component ending in a designator is read and the rest follows it.
proof fn lemma_time_component(x: Seq<char>, d: char, rest: Seq<char>, last: nat)
    requires
        forall|i: int| 0 <= i < x.len() ==> is_digit(#[trigger] x[i]) || x[i] == '.',
        designator_order(d) > last,
        designator_order(d) > 0,
    ensures
        time_fields(x.push(d) + rest, last) == (match time_fields(rest, designator_order(d)) {
            None => None,
            Some(r) => if d == 'H' {
                match plain_unsigned(x) {
                    Some(h) => Some(TimeFields { hours: h, ..r }),
                    None => None,
                }
            } else if d == 'M' {
                match plain_unsigned(x) {
                    Some(m) => Some(TimeFields { minutes: m, ..r }),
                    None => None,
                }
            } else {
                match parse_seconds_spec(x) {
                    Some((s, n)) => Some(TimeFields { seconds: s, nanos: n, ..r }),
                    None => None,
                }
            },
        }),
{
    let t = x.push(d) + rest;
    assert(t =~= x + (seq![d] + rest));
    lemma_first_designator_concat(x, seq![d] + rest);
    assert(first_designator(seq![d] + rest) == 0);
    assert(t[x.len() as int] == d);
    assert(t.take(x.len() as int) =~= x);
    assert(t.skip(x.len() + 1int) =~= rest);
}


/// The canonical fraction of a non-zero nanosecond count is one to nine digits.
proof fn lemma_fraction(nanos: nat)
    requires
        0 < nanos < 1_000_000_000,
    ensures
        ({
            let f = strip_trailing_zeros(zero_padded(nanos, 9));
            &&& 0 < f.len() <= 9
            &&& forall|i: int| 0 <= i < f.len() ==> is_digit(#[trigger] f[i])
        }),
{
    let z = zero_padded(nanos, 9);
    let f = strip_trailing_zeros(z);
    lemma_decimal(nanos);
    assert(vstd::arithmetic::power::pow(10, 9) == 1_000_000_000) by {
        reveal_with_fuel(vstd::arithmetic::power::pow, 10);
    }
    lemma_decimal_len(nanos, 9, 1_000_000_000);
    let d = decimal(nanos);
    assert(z =~= zeros((9 - d.len()) as nat) + d);
    lemma_leading_zeros((9 - d.len()) as nat, d);
    lemma_strip_zeros(z);
    assert forall|i: int| 0 <= i < f.len() implies is_digit(#[trigger] f[i]) by {
        assert(f[i] == z[i]);
    }
    if f.len() == 0 {
        assert(z =~= zeros(9));
        lemma_zeros_value(9);
    }
}

/// No character of `s` is `T`, when every one is a digit, `.`, `H`, `M` or `S`.
proof fn lemma_no_t(s: Seq<char>)
    requires
        forall|i: int| 0 <= i < s.len() ==> is_digit(#[trigger] s[i]) || s[i] == '.' || s[i] == 'H'
            || s[i] == 'M' || s[i] == 'S',
    ensures
        !s.contains('T'),
{
    if s.contains('T') {
        let i = choose|i: int| 0 <= i < s.len() && s[i] == 'T';
        assert(is_digit(s[i]) || s[i] == '.' || s[i] == 'H' || s[i] == 'M' || s[i] == 'S');
    }
}

/// Every character is a digit, `.` or a time designator.
pub open spec fn time_chars(s: Seq<char>) -> bool {
    forall|i: int| 0 <= i < s.len() ==> is_digit(#[trigger] s[i]) || s[i] == '.' || s[i] == 'H'
        || s[i] == 'M' || s[i] == 'S'
}

proof fn lemma_time_chars_concat(a: Seq<char>, b: Seq<char>)
    requires
        time_chars(a),
        time_chars(b),
    ensures
        time_chars(a + b),
{
    assert forall|i: int| 0 <= i < (a + b).len() implies is_digit(#[trigger] (a + b)[i]) || (a + b)[i] == '.'
        || (a + b)[i] == 'H' || (a + b)[i] == 'M' || (a + b)[i] == 'S' by {
        if i < a.len() {
            assert((a + b)[i] == a[i]);
        } else {
            assert((a + b)[i] == b[i - a.len()]);
        }
    }
}

proof fn lemma_decimal_part(n: nat, d: char)
    requires
        d == 'H' || d == 'M' || d == 'S',
    ensures
        time_chars(decimal(n).push(d)),
{
    lemma_decimal(n);
    assert forall|i: int| 0 <= i < decimal(n).push(d).len() implies is_digit(#[trigger] decimal(n).push(d)[i])
        || decimal(n).push(d)[i] == '.' || decimal(n).push(d)[i] == 'H' || decimal(n).push(d)[i] == 'M'
        || decimal(n).push(d)[i] == 'S' by {
        if i < decimal(n).len() {
            assert(decimal(n).push(d)[i] == decimal(n)[i]);
        }
    }
}

/// The seconds part of a duration text.
pub open spec fn seconds_part(seconds: nat, nanos: nat, written: bool) -> Seq<char> {
    if nanos == 0 {
        if written {
            decimal(seconds).push('S')
        } else {
            Seq::<char>::empty()
        }
    } else {
        decimal(seconds).push('.') + strip_trailing_zeros(zero_padded(nanos, 9)).push('S')
    }
}

proof fn lemma_seconds_part(seconds: nat, nanos: nat, written: bool, last: nat)
    requires
        seconds <= u64_max(),
        nanos < 1_000_000_000,
        last < 3,
        written || seconds == 0,
    ensures
        time_fields(seconds_part(seconds, nanos, written), last) == Some(TimeFields { hours: 0, minutes: 0, seconds, nanos }),
        time_chars(seconds_part(seconds, nanos, written)),
        written || nanos != 0 ==> seconds_part(seconds, nanos, written).len() > 0,
{
    let sp = seconds_part(seconds, nanos, written);
    lemma_decimal(seconds);
    if nanos == 0 {
        if written {
            lemma_seconds_plain(seconds);
            assert(sp =~= decimal(seconds).push('S') + Seq::<char>::empty());
            lemma_time_component(decimal(seconds), 'S', Seq::<char>::empty(), last);
            lemma_decimal_part(seconds, 'S');
        }
    } else {
        let frac = strip_trailing_zeros(zero_padded(nanos, 9));
        lemma_seconds_fraction(seconds, nanos);
        lemma_fraction(nanos);
        let x = decimal(seconds).push('.') + frac;
        assert forall|i: int| 0 <= i < x.len() implies is_digit(#[trigger] x[i]) || x[i] == '.' by {
            if i < decimal(seconds).len() {
                assert(x[i] == decimal(seconds)[i]);
            } else if i > decimal(seconds).len() {
                assert(x[i] == frac[i - decimal(seconds).len() - 1]);
            }
        }
        assert(sp =~= x.push('S') + Seq::<char>::empty());
        lemma_time_component(x, 'S', Seq::<char>::empty(), last);
        assert forall|i: int| 0 <= i < sp.len() implies is_digit(#[trigger] sp[i]) || sp[i] == '.' || sp[i] == 'H'
            || sp[i] == 'M' || sp[i] == 'S' by {
            if i < x.len() {
                assert(sp[i] == x[i]);
            }
        }
    }
}

/// The time part of a duration text is read back as its fields.
proof fn lemma_time_part(hours: nat, minutes: nat, seconds: nat, nanos: nat, written: bool)
    requires
        hours <= u64_max(),
        minutes <= u64_max(),
        seconds <= u64_max(),
        nanos < 1_000_000_000,
        written == (seconds != 0 || (hours == 0 && minutes == 0)),
    ensures
        ({
            let h = if hours != 0 { decimal(hours).push('H') } else { Seq::<char>::empty() };
            let m = if minutes != 0 { decimal(minutes).push('M') } else { Seq::<char>::empty() };
            let sp = seconds_part(seconds, nanos, written);
            &&& time_fields(h + m + sp, 0) == Some(TimeFields { hours, minutes, seconds, nanos })
            &&& (h + m + sp).len() > 0
            &&& !(h + m + sp).contains('T')
        }),
{
    let h = if hours != 0 { decimal(hours).push('H') } else { Seq::<char>::empty() };
    let m = if minutes != 0 { decimal(minutes).push('M') } else { Seq::<char>::empty() };
    let sp = seconds_part(seconds, nanos, written);
    lemma_seconds_part(seconds, nanos, written, 0);
    lemma_seconds_part(seconds, nanos, written, 1);
    lemma_seconds_part(seconds, nanos, written, 2);
    let ms = m + sp;
    if minutes != 0 {
        lemma_decimal(minutes);
        assert(ms =~= decimal(minutes).push('M') + sp);
        lemma_time_component(decimal(minutes), 'M', sp, 0);
        lemma_time_component(decimal(minutes), 'M', sp, 1);
        lemma_decimal_part(minutes, 'M');
    } else {
        assert(ms =~= sp);
    }
    lemma_time_chars_concat(m, sp);
    let all = h + m + sp;
    assert(all =~= h + ms);
    if hours != 0 {
        lemma_decimal(hours);
        assert(all =~= decimal(hours).push('H') + ms);
        lemma_time_component(decimal(hours), 'H', ms, 0);
        lemma_decimal_part(hours, 'H');
    } else {
        assert(all =~= ms);
    }
    lemma_time_chars_concat(h, ms);
    lemma_no_t(all);
}

proof fn lemma_duration_fields(secs: nat)
    ensures
        (secs / 86400) * 86400 + (secs % 86400 / 3600) * 3600 + (secs % 3600 / 60) * 60 + secs % 60 == secs,
{
    vstd::arithmetic::div_mod::lemma_fundamental_div_mod(secs as int, 86400);
    vstd::arithmetic::div_mod::lemma_fundamental_div_mod((secs % 86400) as int, 3600);
    vstd::arithmetic::div_mod::lemma_fundamental_div_mod((secs % 3600) as int, 60);
    vstd::arithmetic::div_mod::lemma_mod_mod(secs as int, 3600, 24);
    vstd::arithmetic::div_mod::lemma_mod_mod(secs as int, 60, 60);
}

/// The date part of a duration text.
pub open spec fn date_part(days: nat) -> Seq<char> {
    if days != 0 { decimal(days).push('D') } else { Seq::<char>::empty() }
}

proof fn lemma_date_part(days: nat)
    requires
        days <= u64_max(),
    ensures
        !date_part(days).contains('T'),
        (if date_part(days).len() == 0 {
            Some(0nat)
        } else if date_part(days).last() == 'D' {
            plain_unsigned(date_part(days).drop_last())
        } else {
            None
        }) == Some(days),
{
    let date = date_part(days);
    lemma_decimal(days);
    if date.contains('T') {
        let j = choose|j: int| 0 <= j < date.len() && date[j] == 'T';
        assert(j < date.len() - 1);
        assert(date[j] == decimal(days)[j]);
    }
    if days != 0 {
        assert(date.drop_last() =~= decimal(days));
        lemma_plain_decimal(days);
    }
}

proof fn lemma_parse_with_time(days: nat, t: Seq<char>, f: TimeFields)
    requires
        days <= u64_max(),
        time_fields(t, 0) == Some(f),
        t.len() > 0,
        !t.contains('T'),
        days * 86400 + f.hours * 3600 + f.minutes * 60 + f.seconds <= u64_max(),
    ensures
        parse_duration_spec(seq!['P'] + date_part(days) + (seq!['T'] + t)) == Some(
            ((days * 86400 + f.hours * 3600 + f.minutes * 60 + f.seconds) as nat, f.nanos),
        ),
{
    let date = date_part(days);
    let v = seq!['P'] + date + (seq!['T'] + t);
    lemma_date_part(days);
    let body = v.drop_first();
    assert(body =~= date + (seq!['T'] + t));
    assert(body[date.len() as int] == 'T');
    assert forall|j: int| 0 <= j < date.len() implies body[j] != 'T' by {
        assert(body[j] == date[j]);
    }
    crate::path::lemma_first_index_is(body, 'T', date.len() as int);
    assert(body.take(date.len() as int) =~= date);
    assert(body.skip(date.len() + 1int) =~= t);
}

proof fn lemma_parse_days_only(days: nat)
    requires
        0 < days,
        days * 86400 <= u64_max(),
    ensures
        parse_duration_spec(seq!['P'] + date_part(days) + Seq::<char>::empty()) == Some(((days * 86400) as nat, 0nat)),
{
    let date = date_part(days);
    let v = seq!['P'] + date + Seq::<char>::empty();
    lemma_date_part(days);
    let body = v.drop_first();
    assert(body =~= date);
    crate::path::lemma_first_index_is(body, 'T', body.len() as int);
    assert(body.take(body.len() as int) =~= date);
}

/// The canonical text of a duration parses back to that duration.
pub proof fn lemma_duration_text_round_trip(secs: nat, nanos: nat)
    requires
        secs <= u64_max(),
        nanos < 1_000_000_000,
    ensures
        parse_duration_spec(duration_text(secs, nanos)) == Some((secs, nanos)),
{
    let days = secs / 86400;
    let hours = secs % 86400 / 3600;
    let minutes = secs % 3600 / 60;
    let seconds = secs % 60;
    lemma_duration_fields(secs);
    let has_time = hours != 0 || minutes != 0 || seconds != 0 || nanos != 0 || days == 0;
    let h = if hours != 0 { decimal(hours).push('H') } else { Seq::<char>::empty() };
    let m = if minutes != 0 { decimal(minutes).push('M') } else { Seq::<char>::empty() };
    let written = seconds != 0 || (hours == 0 && minutes == 0);
    let sp = seconds_part(seconds, nanos, written);
    assert(duration_text(secs, nanos) == seq!['P'] + date_part(days) + (if has_time {
        seq!['T'] + h + m + sp
    } else {
        Seq::<char>::empty()
    }));
    if has_time {
        lemma_time_part(hours, minutes, seconds, nanos, written);
        assert(seq!['T'] + h + m + sp =~= seq!['T'] + (h + m + sp));
        lemma_parse_with_time(days, h + m + sp, TimeFields { hours, minutes, seconds, nanos });
    } else {
        lemma_parse_days_only(days);
    }
}

} // verus!
