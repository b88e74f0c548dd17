//! Task boundaries, fixed durations and time limits.
use vstd::prelude::*;
use vstd::string::*;

use crate::path::first_index;
use crate::text::{
    all_digits, all_digits_exec, chars_of, decimal, digits_to_u64, digits_value, parse_unsigned,
    parse_unsigned_spec, push_char, slice_subrange, string_of, u64_to_padded, u64_to_string,
    zero_padded,
};

verus! {

broadcast use vstd::string::group_string_axioms;

/// Whether a task boundary follows the target's wall clock or a fixed offset.
#[derive(Clone, Copy, Debug, Eq, Hash, PartialEq, Structural)]
pub enum TimeBasis {
    /// Repeats according to the target computer's local wall clock and DST.
    LocalWallClock,
    /// Denotes an instant with a numeric UTC offset or `Z`.
    FixedOffset,
}

/// Whether the civil date-time parser of `jiff` accepts `text`
/// (`jiff::civil::DateTime::from_str`).
pub uninterp spec fn jiff_accepts_civil(text: Seq<char>) -> bool;

/// `jiff::civil::DateTime::from_str`: whether `text` is a valid civil
/// date-time. The result depends on the text alone.
#[verifier::external_body]
fn jiff_civil_datetime_is_valid(text: &str) -> (ok: bool)
    ensures
        ok == jiff_accepts_civil(text@),
{
    <jiff::civil::DateTime as std::str::FromStr>::from_str(text).is_ok()
}

/// A validated Task Scheduler boundary timestamp.
#[derive(Clone, Debug, Eq, Hash, PartialEq)]
pub struct TaskDateTime {
    text: String,
    basis: TimeBasis,
}

impl View for TaskDateTime {
    type V = (Seq<char>, TimeBasis);

    closed spec fn view(&self) -> (Seq<char>, TimeBasis) {
        (self.text@, self.basis)
    }
}

/// Error returned for an invalid task boundary.
#[derive(Clone, Debug, Eq, PartialEq)]
pub struct ParseTaskDateTimeError {
    message: String,
}

impl View for ParseTaskDateTimeError {
    type V = Seq<char>;

    closed spec fn view(&self) -> Seq<char> {
        self.message@
    }
}

impl ParseTaskDateTimeError {
    /// Returns the explanation of the failure.
    pub fn message(&self) -> (s: &str)
        ensures
            s@ == self@,
    {
        self.message.as_str()
    }
}

/// Start of the numeric UTC offset: the last `+` or `-` after the first `T`.
pub open spec fn offset_start_spec(v: Seq<char>) -> Option<int> {
    let t = first_index(v, 'T');
    if t >= v.len() {
        None
    } else {
        let rest = v.skip(t + 1);
        let r = last_sign(rest);
        if r < 0 {
            None
        } else {
            Some(t + 1 + r)
        }
    }
}

/// Index of the last `+` or `-` in `s`, or -1.
pub open spec fn last_sign(s: Seq<char>) -> int
    decreases s.len(),
{
    if s.len() == 0 {
        -1
    } else if s.last() == '+' || s.last() == '-' {
        s.len() - 1
    } else {
        last_sign(s.drop_last())
    }
}

/// Whether `o` is a numeric UTC offset `±hh:mm` no further than 14:00 from UTC.
pub open spec fn valid_offset_spec(o: Seq<char>) -> bool {
    let hours = parse_unsigned_spec(o.subrange(1, 3), 255);
    let minutes = parse_unsigned_spec(o.subrange(4, 6), 255);
    &&& o.len() == 6
    &&& (o[0] == '+' || o[0] == '-')
    &&& o[3] == ':'
    &&& hours matches Some(h) && h <= 14
    &&& minutes matches Some(m) && m <= 59
    &&& !(hours == Some(14nat) && minutes != Some(0nat))
}

/// Whether the text ends with `Z`.
pub open spec fn ends_with_z(v: Seq<char>) -> bool {
    v.len() > 0 && v.last() == 'Z'
}

/// The outcome of parsing a task boundary: its basis, or `None` when rejected.
pub open spec fn parse_datetime_spec(v: Seq<char>) -> Option<TimeBasis> {
    let off = offset_start_spec(v);
    let civil = if ends_with_z(v) {
        v.drop_last()
    } else if off is Some {
        v.take(off->0)
    } else {
        v
    };
    let offset_ok = ends_with_z(v) || off is None || valid_offset_spec(v.skip(off->0));
    if offset_ok && jiff_accepts_civil(civil) {
        Some(
            if ends_with_z(v) || off is Some {
                TimeBasis::FixedOffset
            } else {
                TimeBasis::LocalWallClock
            },
        )
    } else {
        None
    }
}

pub(crate) fn find_first(chars: &[char], c: char) -> (i: usize)
    ensures
        i as int == first_index(chars@, c),
        i <= chars.len(),
{
    let mut i: usize = 0;
    while i < chars.len() && chars[i] != c
        invariant
            i <= chars.len(),
            forall|j: int| 0 <= j < i ==> chars@[j] != c,
        decreases chars.len() - i,
    {
        i += 1;
    }
    proof {
        crate::path::lemma_first_index_is(chars@, c, i as int);
    }
    i
}

fn find_last_sign(chars: &[char]) -> (r: Option<usize>)
    ensures
        match r {
            Some(i) => i as int == last_sign(chars@),
            None => last_sign(chars@) < 0,
        },
{
    let mut i: usize = chars.len();
    proof {
        assert(chars@.take(i as int) =~= chars@);
    }
    while i > 0
        invariant
            i <= chars.len(),
            last_sign(chars@) == last_sign(chars@.take(i as int)),
        decreases i,
    {
        proof {
            assert(chars@.take(i - 1) =~= chars@.take(i as int).drop_last());
        }
        if chars[i - 1] == '+' || chars[i - 1] == '-' {
            return Some(i - 1);
        }
        i -= 1;
    }
    None
}

fn numeric_offset_start(v: &[char]) -> (r: Option<usize>)
    ensures
        match r {
            Some(i) => offset_start_spec(v@) == Some(i as int) && i < v.len(),
            None => offset_start_spec(v@) is None,
        },
{
    proof {
        lemma_last_sign_bound(v@.skip(first_index(v@, 'T') + 1));
    }
    let t = find_first(v, 'T');
    if t >= v.len() {
        return None;
    }
    let rest = slice_subrange(v, t + 1, v.len());
    proof {
        assert(rest@ =~= v@.skip(t + 1));
        lemma_last_sign_bound(rest@);
    }
    match find_last_sign(rest) {
        Some(r) => Some(t + 1 + r),
        None => None,
    }
}

proof fn lemma_last_sign_bound(s: Seq<char>)
    ensures
        -1 <= last_sign(s) < s.len(),
    decreases s.len(),
{
    if s.len() > 0 {
        lemma_last_sign_bound(s.drop_last());
    }
}

fn validate_offset(o: &[char]) -> (ok: bool)
    ensures
        ok == valid_offset_spec(o@),
{
    if o.len() != 6 {
        return false;
    }
    let hours = parse_unsigned(slice_subrange(o, 1, 3), 255);
    let minutes = parse_unsigned(slice_subrange(o, 4, 6), 255);
    let sign_ok = o[0] == '+' || o[0] == '-';
    let hours_ok = match hours {
        Some(h) => h <= 14,
        None => false,
    };
    let minutes_ok = match minutes {
        Some(m) => m <= 59,
        None => false,
    };
    let fourteen = match (hours, minutes) {
        (Some(h), Some(m)) => h == 14 && m != 0,
        (Some(h), None) => h == 14,
        _ => false,
    };
    sign_ok && o[3] == ':' && hours_ok && minutes_ok && !fourteen
}

/// Text of a civil timestamp `yyyy-mm-ddThh:mm:ss`, each field zero-padded
/// as `format!("{:04}-{:02}-...")` writes it.
pub open spec fn civil_text_spec(year: i16, month: u8, day: u8, hour: u8, minute: u8, second: u8) -> Seq<char> {
    year_text(year) + seq!['-'] + zero_padded(month as nat, 2) + seq!['-'] + zero_padded(day as nat, 2)
        + seq!['T'] + zero_padded(hour as nat, 2) + seq![':'] + zero_padded(minute as nat, 2)
        + seq![':'] + zero_padded(second as nat, 2)
}

/// A year padded to four characters including its sign.
pub open spec fn year_text(year: i16) -> Seq<char> {
    if year < 0 {
        seq!['-'] + zero_padded((-year) as nat, 3)
    } else {
        zero_padded(year as nat, 4)
    }
}

fn civil_text(year: i16, month: u8, day: u8, hour: u8, minute: u8, second: u8) -> (s: String)
    ensures
        s@ == civil_text_spec(year, month, day, hour, minute, second),
{
    let mut s = if year < 0 {
        let mut y = String::new();
        push_char(&mut y, '-');
        let magnitude: u64 = (0 - (year as i32)) as u64;
        let digits = u64_to_padded(magnitude, 3);
        y.append(digits.as_str());
        y
    } else {
        u64_to_padded(year as u64, 4)
    };
    push_char(&mut s, '-');
    s.append(u64_to_padded(month as u64, 2).as_str());
    push_char(&mut s, '-');
    s.append(u64_to_padded(day as u64, 2).as_str());
    push_char(&mut s, 'T');
    s.append(u64_to_padded(hour as u64, 2).as_str());
    push_char(&mut s, ':');
    s.append(u64_to_padded(minute as u64, 2).as_str());
    push_char(&mut s, ':');
    s.append(u64_to_padded(second as u64, 2).as_str());
    s
}

impl TaskDateTime {
    /// Parses an ISO-8601 timestamp accepted by Task Scheduler.
    pub fn parse(value: &str) -> (r: Result<Self, ParseTaskDateTimeError>)
        ensures
            match r {
                Ok(t) => parse_datetime_spec(value@) == Some(t@.1) && t@.0 == value@,
                Err(_) => parse_datetime_spec(value@) is None,
            },
    {
        let v = chars_of(value);
        let offset_start = numeric_offset_start(v.as_slice());
        let z = v.len() > 0 && v[v.len() - 1] == 'Z';
        let civil: &[char] = if z {
            slice_subrange(v.as_slice(), 0, v.len() - 1)
        } else if let Some(index) = offset_start {
            let offset = slice_subrange(v.as_slice(), index, v.len());
            proof {
                assert(offset@ =~= v@.skip(index as int));
            }
            if !validate_offset(offset) {
                let mut message = "invalid numeric UTC offset ".to_owned();
                message.append(crate::text::debug_quoted(&offset_string(offset)).as_str());
                return Err(ParseTaskDateTimeError { message });
            }
            slice_subrange(v.as_slice(), 0, index)
        } else {
            v.as_slice()
        };
        proof {
            if z {
                assert(civil@ =~= v@.drop_last());
            } else if offset_start is Some {
                assert(civil@ =~= v@.take(offset_start->0 as int));
            }
        }
        let civil_string = string_of(civil);
        if !jiff_civil_datetime_is_valid(civil_string.as_str()) {
            let mut message = "invalid task boundary ".to_owned();
            message.append(crate::text::debug_quoted(value).as_str());
            return Err(ParseTaskDateTimeError { message });
        }
        let basis = if z || offset_start.is_some() {
            TimeBasis::FixedOffset
        } else {
            TimeBasis::LocalWallClock
        };
        Ok(TaskDateTime { text: value.to_owned(), basis })
    }

    /// Creates a boundary that follows the target computer's wall clock,
    /// including its DST transitions.
    pub fn wall_clock(year: i16, month: u8, day: u8, hour: u8, minute: u8, second: u8) -> (r:
        Result<Self, ParseTaskDateTimeError>)
        ensures
            match r {
                Ok(t) => t@.0 == civil_text_spec(year, month, day, hour, minute, second)
                    && parse_datetime_spec(t@.0) == Some(t@.1),
                Err(_) => parse_datetime_spec(civil_text_spec(year, month, day, hour, minute, second)) is None,
            },
    {
        let text = civil_text(year, month, day, hour, minute, second);
        Self::parse(text.as_str())
    }

    /// Creates a boundary at a fixed UTC instant.
    pub fn utc(year: i16, month: u8, day: u8, hour: u8, minute: u8, second: u8) -> (r: Result<
        Self,
        ParseTaskDateTimeError,
    >)
        ensures
            match r {
                Ok(t) => t@.0 == civil_text_spec(year, month, day, hour, minute, second).push('Z')
                    && parse_datetime_spec(t@.0) == Some(t@.1),
                Err(_) => parse_datetime_spec(
                    civil_text_spec(year, month, day, hour, minute, second).push('Z'),
                ) is None,
            },
    {
        let mut text = civil_text(year, month, day, hour, minute, second);
        push_char(&mut text, 'Z');
        Self::parse(text.as_str())
    }

    /// Returns the scheduler-compatible ISO-8601 text.
    pub fn as_str(&self) -> (s: &str)
        ensures
            s@ == self@.0,
    {
        self.text.as_str()
    }

    /// Whether two boundaries have the same text and basis.
    pub fn same(&self, other: &Self) -> (r: bool)
        ensures
            r == (self@ == other@),
    {
        crate::text::str_eq(self.text.as_str(), other.text.as_str()) && self.basis == other.basis
    }

    /// Returns the timestamp's recurrence basis.
    pub fn basis(&self) -> (b: TimeBasis)
        ensures
            b == self@.1,
    {
        self.basis
    }
}

fn offset_string(o: &[char]) -> (s: String)
    ensures
        s@ == o@,
{
    string_of(o)
}

} // verus!

verus! {

/// Largest `u64`.
pub open spec fn u64_max() -> nat {
    0xffff_ffff_ffff_ffff
}

/// A fixed non-negative duration with Task Scheduler ISO-8601 formatting:
/// whole seconds plus a nanosecond part below one second.
#[derive(Clone, Copy, Debug, Default, Eq, Hash, Ord, PartialEq, PartialOrd)]
pub struct TaskDuration {
    secs: u64,
    nanos: u32,
}

impl View for TaskDuration {
    type V = (nat, nat);

    closed spec fn view(&self) -> (nat, nat) {
        (self.secs as nat, self.nanos as nat)
    }
}

/// Digits of a plain unsigned number: one or more ASCII digits whose value
/// fits in a `u64`.
pub open spec fn plain_unsigned(s: Seq<char>) -> Option<nat> {
    if s.len() > 0 && all_digits(s) && digits_value(s) <= u64_max() {
        Some(digits_value(s))
    } else {
        None
    }
}

/// `n` zero characters.
pub open spec fn zeros(n: nat) -> Seq<char> {
    Seq::new(n, |i: int| '0')
}

/// Seconds with an optional fraction of one to nine digits.
pub open spec fn parse_seconds_spec(s: Seq<char>) -> Option<(nat, nat)> {
    let dot = first_index(s, '.');
    let whole = s.take(dot);
    let fraction = if dot < s.len() { s.skip(dot + 1) } else { Seq::<char>::empty() };
    match plain_unsigned(whole) {
        None => None,
        Some(seconds) => if dot < s.len() && (fraction.len() == 0 || fraction.len() > 9
            || !all_digits(fraction)) {
            None
        } else {
            Some(
                (
                    seconds,
                    if fraction.len() == 0 {
                        0
                    } else {
                        digits_value(fraction + zeros((9 - fraction.len()) as nat))
                    },
                ),
            )
        },
    }
}

/// Hours, minutes, seconds and nanoseconds read from a time part.
pub struct TimeFields {
    /// Hours.
    pub hours: nat,
    /// Minutes.
    pub minutes: nat,
    /// Whole seconds.
    pub seconds: nat,
    /// Nanoseconds.
    pub nanos: nat,
}

/// Index of the first character that is neither a digit nor `.`.
pub open spec fn first_designator(t: Seq<char>) -> int
    decreases t.len(),
{
    if t.len() == 0 {
        0
    } else if ('0' <= t[0] <= '9') || t[0] == '.' {
        1 + first_designator(t.drop_first())
    } else {
        0
    }
}

/// Order of a time designator: `H` < `M` < `S`; 0 for anything else.
pub open spec fn designator_order(c: char) -> nat {
    if c == 'H' {
        1
    } else if c == 'M' {
        2
    } else if c == 'S' {
        3
    } else {
        0
    }
}

/// Fields of the rest of a time part, whose designators must come after
/// `last` in `H`, `M`, `S` order.
pub open spec fn time_fields(t: Seq<char>, last: nat) -> Option<TimeFields>
    decreases t.len(),
{
    if t.len() == 0 {
        Some(TimeFields { hours: 0, minutes: 0, seconds: 0, nanos: 0 })
    } else {
        let k = first_designator(t);
        if !(0 <= k < t.len()) {
            None
        } else {
            let d = t[k];
            let order = designator_order(d);
            if order == 0 || order <= last {
                None
            } else {
                let component = t.take(k);
                match time_fields(t.skip(k + 1), order) {
                    None => None,
                    Some(rest) => if d == 'H' {
                        match plain_unsigned(component) {
                            Some(h) => Some(TimeFields { hours: h, ..rest }),
                            None => None,
                        }
                    } else if d == 'M' {
                        match plain_unsigned(component) {
                            Some(m) => Some(TimeFields { minutes: m, ..rest }),
                            None => None,
                        }
                    } else {
                        match parse_seconds_spec(component) {
                            Some((s, n)) => Some(TimeFields { seconds: s, nanos: n, ..rest }),
                            None => None,
                        }
                    },
                }
            }
        }
    }
}

/// The seconds and nanoseconds a fixed ISO-8601 duration denotes, or `None`
/// when it is rejected: `P`, optional `<days>D`, then optionally `T` and
/// `H`, `M`, `S` parts in that order; the total must fit in a `u64`.
pub open spec fn parse_duration_spec(v: Seq<char>) -> Option<(nat, nat)> {
    if v.len() == 0 || v[0] != 'P' || v.len() == 1 {
        None
    } else {
        let body = v.drop_first();
        let ti = first_index(body, 'T');
        let date = body.take(ti);
        let has_time = ti < body.len();
        let time = if has_time { body.skip(ti + 1) } else { Seq::<char>::empty() };
        let days = if date.len() == 0 {
            Some(0nat)
        } else if date.last() == 'D' {
            plain_unsigned(date.drop_last())
        } else {
            None
        };
        let fields = if has_time {
            if time.len() == 0 || time.contains('T') {
                None
            } else {
                time_fields(time, 0)
            }
        } else {
            Some(TimeFields { hours: 0, minutes: 0, seconds: 0, nanos: 0 })
        };
        match (days, fields) {
            (Some(d), Some(f)) => {
                let total = d * 86400 + f.hours * 3600 + f.minutes * 60 + f.seconds;
                if total <= u64_max() {
                    Some((total, f.nanos))
                } else {
                    None
                }
            },
            _ => None,
        }
    }
}

/// Characters with trailing zeros removed.
pub open spec fn strip_trailing_zeros(s: Seq<char>) -> Seq<char>
    decreases s.len(),
{
    if s.len() > 0 && s.last() == '0' {
        strip_trailing_zeros(s.drop_last())
    } else {
        s
    }
}

/// Canonical text of a duration: `P`, then `<days>D` when there are whole
/// days, then a `T` part with the non-zero hours, minutes and seconds (zero
/// seconds are written when nothing else is), seconds carrying a fraction
/// without trailing zeros when there are nanoseconds.
pub open spec fn duration_text(secs: nat, nanos: nat) -> Seq<char> {
    let days = secs / 86400;
    let hours = secs % 86400 / 3600;
    let minutes = secs % 3600 / 60;
    let seconds = secs % 60;
    let date = if days != 0 { decimal(days).push('D') } else { Seq::<char>::empty() };
    let has_time = hours != 0 || minutes != 0 || seconds != 0 || nanos != 0 || days == 0;
    let h = if hours != 0 { decimal(hours).push('H') } else { Seq::<char>::empty() };
    let m = if minutes != 0 { decimal(minutes).push('M') } else { Seq::<char>::empty() };
    let s = if nanos == 0 {
        if seconds != 0 || (hours == 0 && minutes == 0) {
            decimal(seconds).push('S')
        } else {
            Seq::<char>::empty()
        }
    } else {
        decimal(seconds).push('.') + strip_trailing_zeros(zero_padded(nanos, 9)).push('S')
    };
    let time = if has_time { seq!['T'] + h + m + s } else { Seq::<char>::empty() };
    seq!['P'] + date + time
}

/// Error returned for an unsupported or malformed duration.
#[derive(Clone, Debug, Eq, PartialEq)]
pub struct ParseTaskDurationError {
    message: String,
}

impl View for ParseTaskDurationError {
    type V = Seq<char>;

    closed spec fn view(&self) -> Seq<char> {
        self.message@
    }
}

impl ParseTaskDurationError {
    /// Returns the explanation of the failure.
    pub fn message(&self) -> (s: &str)
        ensures
            s@ == self@,
    {
        self.message.as_str()
    }
}

/// The message of a rejected duration text.
pub open spec fn duration_error_message(value: Seq<char>) -> Seq<char> {
    "invalid fixed ISO-8601 task duration "@ + crate::text::debug_quoted_spec(value)
}

fn duration_error(value: &str) -> (e: ParseTaskDurationError)
    ensures
        e@ == duration_error_message(value@),
{
    let mut message = "invalid fixed ISO-8601 task duration ".to_owned();
    message.append(crate::text::debug_quoted(value).as_str());
    ParseTaskDurationError { message }
}

fn plain_unsigned_exec(s: &[char]) -> (r: Option<u64>)
    ensures
        match r {
            Some(v) => plain_unsigned(s@) == Some(v as nat),
            None => plain_unsigned(s@) is None,
        },
{
    if s.len() == 0 || !all_digits_exec(s) {
        return None;
    }
    digits_to_u64(s, 0xffff_ffff_ffff_ffff)
}

fn first_designator_exec(t: &[char]) -> (k: usize)
    ensures
        k as int == first_designator(t@),
        k <= t.len(),
{
    let mut k: usize = 0;
    proof {
        assert(t@.skip(0) =~= t@);
    }
    while k < t.len() && ((t[k] >= '0' && t[k] <= '9') || t[k] == '.')
        invariant
            k <= t.len(),
            first_designator(t@) == k + first_designator(t@.skip(k as int)),
        decreases t.len() - k,
    {
        proof {
            assert(t@.skip(k as int).drop_first() =~= t@.skip(k + 1));
        }
        k += 1;
    }
    k
}

fn parse_seconds(s: &[char]) -> (r: Option<(u64, u32)>)
    ensures
        match r {
            Some((sec, n)) => parse_seconds_spec(s@) == Some((sec as nat, n as nat)) && n < 1_000_000_000,
            None => parse_seconds_spec(s@) is None,
        },
{
    let dot = find_first(s, '.');
    let whole = slice_subrange(s, 0, dot);
    proof {
        assert(whole@ =~= s@.take(dot as int));
    }
    let seconds = match plain_unsigned_exec(whole) {
        Some(v) => v,
        None => return None,
    };
    if dot >= s.len() {
        return Some((seconds, 0));
    }
    let fraction = slice_subrange(s, dot + 1, s.len());
    proof {
        assert(fraction@ =~= s@.skip(dot + 1));
    }
    if fraction.len() == 0 || fraction.len() > 9 || !all_digits_exec(fraction) {
        return None;
    }
    let mut padded: Vec<char> = Vec::new();
    let mut i: usize = 0;
    while i < fraction.len()
        invariant
            i <= fraction.len(),
            padded@ == fraction@.take(i as int),
        decreases fraction.len() - i,
    {
        padded.push(fraction[i]);
        proof {
            assert(fraction@.take(i + 1) =~= fraction@.take(i as int).push(fraction@[i as int]));
        }
        i += 1;
    }
    proof {
        assert(fraction@.take(fraction.len() as int) =~= fraction@);
    }
    while padded.len() < 9
        invariant
            padded.len() <= 9,
            fraction.len() <= 9,
            padded@ == fraction@ + zeros((padded.len() - fraction.len()) as nat),
            padded.len() >= fraction.len(),
        decreases 9 - padded.len(),
    {
        padded.push('0');
        proof {
            assert(padded@ =~= fraction@ + zeros((padded.len() - fraction.len()) as nat));
        }
    }
    proof {
        assert(all_digits(padded@)) by {
            assert forall|j: int| 0 <= j < padded@.len() implies crate::text::is_digit(#[trigger] padded@[j]) by {
                if j >= fraction.len() {
                    assert(padded@[j] == '0');
                }
            }
        }
        lemma_nine_digits_bound(padded@);
        reveal_with_fuel(crate::text::pow10, 10);
        assert(crate::text::pow10(9) == 1_000_000_000);
        assert(padded@.len() == 9);
        assert(padded@ == fraction@ + zeros((9 - fraction@.len()) as nat));
    }
    match digits_to_u64(padded.as_slice(), 999_999_999) {
        Some(n) => Some((seconds, n as u32)),
        None => None,
    }
}

/// A string of nine digits has a value below one billion.
proof fn lemma_nine_digits_bound(s: Seq<char>)
    requires
        all_digits(s),
    ensures
        digits_value(s) < crate::text::pow10(s.len()),
    decreases s.len(),
{
    if s.len() > 0 {
        assert(all_digits(s.drop_last())) by {
            assert forall|j: int| 0 <= j < s.drop_last().len() implies crate::text::is_digit(#[trigger] s.drop_last()[j]) by {
                assert(s.drop_last()[j] == s[j]);
            }
        }
        lemma_nine_digits_bound(s.drop_last());
        assert(crate::text::is_digit(s[s.len() - 1]));
        let a = digits_value(s.drop_last());
        let p = crate::text::pow10((s.len() - 1) as nat);
        let d = crate::text::digit_value(s.last());
        assert(a * 10 + d < p * 10) by (nonlinear_arith)
            requires a < p, d < 10;
    }
}

/// Designator order of a character.
fn designator_order_exec(c: char) -> (o: u8)
    ensures
        o as nat == designator_order(c),
{
    if c == 'H' {
        1
    } else if c == 'M' {
        2
    } else if c == 'S' {
        3
    } else {
        0
    }
}

/// Hours, minutes, seconds and nanoseconds of a time part.
fn time_fields_exec(t: &[char], last: u8) -> (r: Option<(u64, u64, u64, u32)>)
    ensures
        match r {
            Some((h, m, s, n)) => time_fields(t@, last as nat) == Some(
                TimeFields { hours: h as nat, minutes: m as nat, seconds: s as nat, nanos: n as nat },
            ) && n < 1_000_000_000,
            None => time_fields(t@, last as nat) is None,
        },
    decreases t.len(),
{
    if t.len() == 0 {
        return Some((0, 0, 0, 0));
    }
    let k = first_designator_exec(t);
    if k >= t.len() {
        return None;
    }
    let d = t[k];
    let order = designator_order_exec(d);
    if order == 0 || order <= last {
        return None;
    }
    let component = slice_subrange(t, 0, k);
    let rest_chars = slice_subrange(t, k + 1, t.len());
    proof {
        assert(component@ =~= t@.take(k as int));
        assert(rest_chars@ =~= t@.skip(k + 1));
    }
    let (h, m, s, n) = match time_fields_exec(rest_chars, order) {
        Some(rest) => rest,
        None => return None,
    };
    if d == 'H' {
        match plain_unsigned_exec(component) {
            Some(v) => Some((v, m, s, n)),
            None => None,
        }
    } else if d == 'M' {
        match plain_unsigned_exec(component) {
            Some(v) => Some((h, v, s, n)),
            None => None,
        }
    } else {
        match parse_seconds(component) {
            Some((sec, ns)) => Some((h, m, sec, ns)),
            None => None,
        }
    }
}

fn parse_iso_duration(value: &str) -> (r: Result<(u64, u32), ParseTaskDurationError>)
    ensures
        match r {
            Ok((s, n)) => parse_duration_spec(value@) == Some((s as nat, n as nat)) && n < 1_000_000_000,
            Err(e) => parse_duration_spec(value@) is None && e@ == duration_error_message(value@),
        },
{
    let v = chars_of(value);
    if v.len() == 0 || v[0] != 'P' || v.len() == 1 {
        return Err(duration_error(value));
    }
    let body = slice_subrange(v.as_slice(), 1, v.len());
    proof {
        assert(body@ =~= v@.drop_first());
    }
    let ti = find_first(body, 'T');
    let date = slice_subrange(body, 0, ti);
    proof {
        assert(date@ =~= body@.take(ti as int));
    }
    let days: u64 = if date.len() == 0 {
        0
    } else if date[date.len() - 1] == 'D' {
        let digits = slice_subrange(date, 0, date.len() - 1);
        proof {
            assert(digits@ =~= date@.drop_last());
        }
        match plain_unsigned_exec(digits) {
            Some(d) => d,
            None => return Err(duration_error(value)),
        }
    } else {
        return Err(duration_error(value));
    };
    let (hours, minutes, seconds, nanos) = if ti < body.len() {
        let time = slice_subrange(body, ti + 1, body.len());
        proof {
            assert(time@ =~= body@.skip(ti + 1));
        }
        if time.len() == 0 || crate::text::contains_char(time, 'T') {
            return Err(duration_error(value));
        }
        match time_fields_exec(time, 0) {
            Some(f) => f,
            None => return Err(duration_error(value)),
        }
    } else {
        (0u64, 0u64, 0u64, 0u32)
    };
    let total: u128 = (days as u128) * 86400 + (hours as u128) * 3600 + (minutes as u128) * 60
        + (seconds as u128);
    if total > 0xffff_ffff_ffff_ffff {
        return Err(duration_error(value));
    }
    Ok((total as u64, nanos))
}

impl TaskDuration {
    /// Whether two durations are equal.
    pub fn same(&self, other: &Self) -> (r: bool)
        ensures
            r == (*self == *other),
    {
        self.secs == other.secs && self.nanos == other.nanos
    }

    /// Constructs a duration from seconds.
    pub fn from_secs(seconds: u64) -> (d: Self)
        ensures
            d@ == (seconds as nat, 0nat),
    {
        TaskDuration { secs: seconds, nanos: 0 }
    }

    /// Constructs a duration from whole minutes, saturating at the largest
    /// representable number of seconds.
    pub fn from_mins(minutes: u64) -> (d: Self)
        ensures
            d@ == (crate::text::saturating_mul_spec(minutes as nat, 60) as nat, 0nat),
    {
        TaskDuration { secs: crate::text::saturating_mul(minutes, 60), nanos: 0 }
    }

    /// Constructs a duration from whole hours, saturating at the largest
    /// representable number of seconds.
    pub fn from_hours(hours: u64) -> (d: Self)
        ensures
            d@ == (crate::text::saturating_mul_spec(hours as nat, 3600) as nat, 0nat),
    {
        TaskDuration { secs: crate::text::saturating_mul(hours, 3600), nanos: 0 }
    }

    /// Constructs a duration from whole days, saturating at the largest
    /// representable number of seconds.
    pub fn from_days(days: u64) -> (d: Self)
        ensures
            d@ == (crate::text::saturating_mul_spec(days as nat, 86400) as nat, 0nat),
    {
        TaskDuration { secs: crate::text::saturating_mul(days, 86400), nanos: 0 }
    }

    /// Whole seconds.
    pub fn secs(&self) -> (s: u64)
        ensures
            s == self@.0,
    {
        self.secs
    }

    /// Nanoseconds beyond the whole seconds.
    pub fn subsec_nanos(&self) -> (n: u32)
        ensures
            n == self@.1,
    {
        self.nanos
    }

    /// Whether the duration is zero.
    pub fn is_zero(&self) -> (z: bool)
        ensures
            z == (self@.0 == 0 && self@.1 == 0),
    {
        self.secs == 0 && self.nanos == 0
    }

    /// The whole seconds of a duration fit in a `u64`.
    pub proof fn lemma_seconds_bound(self)
        ensures
            self@.0 <= u64_max(),
    {
    }

    /// Whether the nanosecond part is below one second.
    pub open spec fn well_formed(self) -> bool {
        self@.1 < 1_000_000_000
    }

    /// Every duration keeps its nanosecond part below one second.
    #[verifier::type_invariant]
    spec fn nanos_below_second(self) -> bool {
        self.nanos < 1_000_000_000
    }

    /// Writing a duration and parsing the text back gives the same duration.
    pub proof fn lemma_round_trip(self)
        requires
            self.well_formed(),
        ensures
            parse_duration_spec(duration_text(self@.0, self@.1)) == Some(self@),
    {
        crate::model::duration_laws::lemma_duration_text_round_trip(self@.0, self@.1);
    }

    /// Parses the fixed-unit subset of ISO-8601 used by Task Scheduler.
    pub fn parse(value: &str) -> (r: Result<Self, ParseTaskDurationError>)
        ensures
            match r {
                Ok(d) => parse_duration_spec(value@) == Some(d@) && d.well_formed(),
                Err(e) => parse_duration_spec(value@) is None && e@ == duration_error_message(value@),
            },
    {
        let (secs, nanos) = parse_iso_duration(value)?;
        Ok(TaskDuration { secs, nanos })
    }

    /// Writes the canonical Task Scheduler text of this duration.
    pub fn to_string(&self) -> (s: String)
        ensures
            s@ == duration_text(self@.0, self@.1),
    {
        proof {
            use_type_invariant(self);
        }
        let total = self.secs;
        let days = total / 86400;
        let hours = total % 86400 / 3600;
        let minutes = total % 3600 / 60;
        let seconds = total % 60;
        let mut out = String::new();
        push_char(&mut out, 'P');
        let date = unit_part(days, 'D');
        out.append(date.as_str());
        let has_time = hours != 0 || minutes != 0 || seconds != 0 || self.nanos != 0 || days == 0;
        if has_time {
            push_char(&mut out, 'T');
            let h = unit_part(hours, 'H');
            let m = unit_part(minutes, 'M');
            let sp = seconds_part(seconds, self.nanos, hours == 0 && minutes == 0);
            out.append(h.as_str());
            out.append(m.as_str());
            out.append(sp.as_str());
        }
        proof {
            assert(out@ =~= duration_text(self@.0, self@.1));
        }
        out
    }
}

fn unit_part(n: u64, unit: char) -> (s: String)
    ensures
        s@ == (if n != 0 { decimal(n as nat).push(unit) } else { Seq::<char>::empty() }),
{
    if n != 0 {
        let mut s = u64_to_string(n);
        push_char(&mut s, unit);
        s
    } else {
        String::new()
    }
}

fn seconds_part(seconds: u64, nanos: u32, alone: bool) -> (s: String)
    requires
        nanos < 1_000_000_000,
    ensures
        s@ == (if nanos == 0 {
            if seconds != 0 || alone {
                decimal(seconds as nat).push('S')
            } else {
                Seq::<char>::empty()
            }
        } else {
            decimal(seconds as nat).push('.') + strip_trailing_zeros(zero_padded(nanos as nat, 9)).push('S')
        }),
{
    if nanos == 0 {
        if seconds != 0 || alone {
            let mut s = u64_to_string(seconds);
            push_char(&mut s, 'S');
            s
        } else {
            String::new()
        }
    } else {
        let mut s = u64_to_string(seconds);
        push_char(&mut s, '.');
        let fraction = u64_to_padded(nanos as u64, 9);
        let stripped = strip_zeros(fraction.as_str());
        s.append(stripped.as_str());
        push_char(&mut s, 'S');
        s
    }
}

fn strip_zeros(s: &str) -> (r: String)
    ensures
        r@ == strip_trailing_zeros(s@),
{
    let chars = chars_of(s);
    let mut end = chars.len();
    proof {
        assert(chars@.take(end as int) =~= chars@);
    }
    while end > 0 && chars[end - 1] == '0'
        invariant
            end <= chars.len(),
            strip_trailing_zeros(chars@) == strip_trailing_zeros(chars@.take(end as int)),
        decreases end,
    {
        proof {
            assert(chars@.take(end - 1) =~= chars@.take(end as int).drop_last());
        }
        end -= 1;
    }
    let kept = slice_subrange(chars.as_slice(), 0, end);
    proof {
        assert(kept@ =~= chars@.take(end as int));
    }
    string_of(kept)
}

/// A scheduler time limit with an explicit unlimited sentinel.
#[derive(Clone, Copy, Debug, Eq, Hash, PartialEq)]
pub enum TaskLimit {
    /// Stop after this finite duration.
    Finite(TaskDuration),
    /// Do not impose a time limit.
    Unlimited,
}

impl Default for TaskLimit {
    /// Seventy-two hours.
    fn default() -> (l: Self)
        ensures
            l matches TaskLimit::Finite(d) && d@ == (259200nat, 0nat),
    {
        TaskLimit::Finite(TaskDuration::from_secs(72 * 60 * 60))
    }
}

} // verus!

verus! {

/// The whole seconds of a standard duration, as `Duration::as_secs`
/// returns them.
pub uninterp spec fn whole_seconds(duration: std::time::Duration) -> u64;

/// The fractional part of a standard duration in nanoseconds, as
/// `Duration::subsec_nanos` returns it.
pub uninterp spec fn subsec_part(duration: std::time::Duration) -> u32;

/// `std::time::Duration::as_secs`: whole seconds of a standard duration.
#[verifier::external_body]
pub(crate) fn std_duration_secs(duration: &std::time::Duration) -> (s: u64)
    ensures
        s == whole_seconds(*duration),
{
    duration.as_secs()
}

/// `std::time::Duration::subsec_nanos`: the fractional part in
/// nanoseconds, which std documents as always below one billion.
#[verifier::external_body]
pub(crate) fn std_duration_subsec_nanos(duration: &std::time::Duration) -> (n: u32)
    ensures
        n == subsec_part(*duration),
        n < 1_000_000_000,
{
    duration.subsec_nanos()
}

/// `std::time::Duration::new`, which does not panic when `nanos` is below
/// one billion; nothing then carries over, so the duration has `secs`
/// whole seconds and `nanos` nanoseconds beyond them.
#[verifier::external_body]
pub(crate) fn std_duration_new(secs: u64, nanos: u32) -> (d: std::time::Duration)
    requires
        nanos < 1_000_000_000,
    ensures
        whole_seconds(d) == secs,
        subsec_part(d) == nanos,
{
    std::time::Duration::new(secs, nanos)
}

impl TaskDuration {
    /// Constructs a duration from a standard duration.
    pub fn from_std(duration: std::time::Duration) -> (d: Self)
        ensures
            d.well_formed(),
            d@ == (whole_seconds(duration) as nat, subsec_part(duration) as nat),
    {
        TaskDuration {
            secs: std_duration_secs(&duration),
            nanos: std_duration_subsec_nanos(&duration),
        }
    }

    /// Returns the standard duration.
    pub fn as_std(self) -> (r: std::time::Duration)
        ensures
            whole_seconds(r) == self@.0,
            subsec_part(r) == self@.1,
    {
        proof {
            use_type_invariant(&self);
        }
        std_duration_new(self.secs, self.nanos)
    }
}

} // verus!
