//! A civil boundary written with a `Z` suffix is accepted exactly when the
//! same civil text is accepted as a wall-clock time.
use vstd::prelude::*;

use crate::model::time::{
    civil_text_spec, ends_with_z, last_sign, offset_start_spec, parse_datetime_spec, year_text,
};
use crate::path::{first_index, lemma_first_index_is};
use crate::text::{all_digits, decimal, is_digit, zero_padded};

verus! {

proof fn lemma_zero_padded_digits(n: nat, width: nat)
    ensures
        all_digits(zero_padded(n, width)),
        zero_padded(n, width).len() > 0,
{
    crate::model::duration_laws::lemma_decimal(n);
    let d = decimal(n);
    if d.len() < width {
        let z = Seq::new((width - d.len()) as nat, |i: int| '0');
        assert forall|i: int| 0 <= i < (z + d).len() implies is_digit(#[trigger] (z + d)[i]) by {
            if i >= z.len() {
                assert((z + d)[i] == d[i - z.len()]);
            }
        }
    }
}

/// Whether every character is a digit or `sep`.
pub open spec fn digits_or(s: Seq<char>, sep: char) -> bool {
    forall|i: int| 0 <= i < s.len() ==> is_digit(#[trigger] s[i]) || s[i] == sep
}

proof fn lemma_no_sign(s: Seq<char>)
    requires
        digits_or(s, ':'),
    ensures
        last_sign(s) == -1,
    decreases s.len(),
{
    if s.len() > 0 {
        assert(is_digit(s.last()) || s.last() == ':');
        lemma_no_sign(s.drop_last());
    }
}

proof fn lemma_civil_shape(year: i16, month: u8, day: u8, hour: u8, minute: u8, second: u8)
    ensures
        offset_start_spec(civil_text_spec(year, month, day, hour, minute, second)) is None,
        !ends_with_z(civil_text_spec(year, month, day, hour, minute, second)),
{
    let y = year_text(year);
    if year < 0 {
        lemma_zero_padded_digits((-year) as nat, 3);
    } else {
        lemma_zero_padded_digits(year as nat, 4);
    }
    lemma_zero_padded_digits(month as nat, 2);
    lemma_zero_padded_digits(day as nat, 2);
    lemma_zero_padded_digits(hour as nat, 2);
    lemma_zero_padded_digits(minute as nat, 2);
    lemma_zero_padded_digits(second as nat, 2);
    let mo = zero_padded(month as nat, 2);
    let da = zero_padded(day as nat, 2);
    let ho = zero_padded(hour as nat, 2);
    let mi = zero_padded(minute as nat, 2);
    let se = zero_padded(second as nat, 2);
    assert(digits_or(y, '-')) by {
        if year < 0 {
            let p = zero_padded((-year) as nat, 3);
            assert forall|i: int| 0 <= i < y.len() implies is_digit(#[trigger] y[i]) || y[i] == '-' by {
                if i > 0 {
                    assert(y[i] == p[i - 1]);
                }
            }
        }
    }
    let p = y + seq!['-'] + mo + seq!['-'] + da;
    let r = ho + seq![':'] + mi + seq![':'] + se;
    let c = civil_text_spec(year, month, day, hour, minute, second);
    assert(c =~= p + seq!['T'] + r);
    assert(digits_or(p, '-')) by {
        assert forall|i: int| 0 <= i < p.len() implies is_digit(#[trigger] p[i]) || p[i] == '-' by {
            let a = y.len();
            let b = a + 1 + mo.len();
            if i < a {
                assert(p[i] == y[i]);
            } else if i == a {
            } else if i < b {
                assert(p[i] == mo[i - a - 1]);
            } else if i == b {
            } else {
                assert(p[i] == da[i - b - 1]);
            }
        }
    }
    assert(digits_or(r, ':')) by {
        assert forall|i: int| 0 <= i < r.len() implies is_digit(#[trigger] r[i]) || r[i] == ':' by {
            let a = ho.len();
            let b = a + 1 + mi.len();
            if i < a {
                assert(r[i] == ho[i]);
            } else if i == a {
            } else if i < b {
                assert(r[i] == mi[i - a - 1]);
            } else if i == b {
            } else {
                assert(r[i] == se[i - b - 1]);
            }
        }
    }
    assert forall|j: int| 0 <= j < p.len() implies c[j] != 'T' by {
        assert(c[j] == p[j]);
        assert(is_digit(p[j]) || p[j] == '-');
    }
    lemma_first_index_is(c, 'T', p.len() as int);
    assert(c.skip(p.len() as int + 1) =~= r);
    lemma_no_sign(r);
    assert(c.last() == se.last());
    assert(is_digit(se[se.len() - 1]));
}

/// A civil boundary with a `Z` suffix is accepted exactly when the same
/// civil text is accepted as a wall-clock time, so `utc` succeeds exactly
/// when `wall_clock` does.
pub proof fn lemma_utc_iff_wall_clock(year: i16, month: u8, day: u8, hour: u8, minute: u8, second: u8)
    ensures
        parse_datetime_spec(civil_text_spec(year, month, day, hour, minute, second).push('Z')) is Some
            <==> parse_datetime_spec(civil_text_spec(year, month, day, hour, minute, second)) is Some,
{
    let c = civil_text_spec(year, month, day, hour, minute, second);
    lemma_civil_shape(year, month, day, hour, minute, second);
    let z = c.push('Z');
    assert(ends_with_z(z));
    assert(z.drop_last() =~= c);
}

} // verus!
