//! High-level schedule recipes and exact POSIX cron compilation.
use vstd::prelude::*;
use vstd::string::*;

use crate::model::time::{parse_datetime_spec, TaskDateTime, TaskDuration};
use crate::model::trigger::{
    day_set, is_default_common, month_at, month_index, starts_at, week_at, weekday_at,
    weekday_index, weekday_set, BootTrigger, DailyTrigger, EventTrigger, LogonTrigger, Month,
    MonthlyDowTrigger, MonthlyTrigger, Repetition, TimeTrigger, Trigger, TriggerCommon,
    WeekOfMonth, Weekday, WeeklyTrigger,
};
use crate::path::{first_index, split_on};
use crate::text::{
    chars_of, debug_quoted, parse_unsigned, parse_unsigned_spec, push_char, slice_subrange,
    string_of, u64_to_padded, zero_padded,
};
use crate::MAX_TRIGGERS;

verus! {

broadcast use vstd::string::group_string_axioms;

/// Cron or high-level schedule compilation failure.
#[derive(Clone, Debug, Eq, PartialEq)]
pub enum ScheduleError {
    /// Invalid recipe or cron syntax.
    Invalid(String),
    /// A valid schedule cannot be represented exactly by native triggers.
    NotRepresentable {
        /// Explanation of the semantic mismatch.
        reason: String,
        /// Expanded trigger count when the limit caused failure.
        required_triggers: Option<usize>,
    },
}

impl ScheduleError {
    /// The error text, as the error's display form writes it.
    pub fn message(&self) -> (s: String)
        ensures
            s@ == schedule_error_message(*self),
    {
        match self {
            ScheduleError::Invalid(text) => {
                let mut s = "invalid schedule: ".to_owned();
                s.append(text.as_str());
                s
            },
            ScheduleError::NotRepresentable { reason, .. } => {
                let mut s = "schedule is not exactly representable: ".to_owned();
                s.append(reason.as_str());
                s
            },
        }
    }
}

/// The text of a schedule failure: its kind, then its explanation.
pub open spec fn schedule_error_message(e: ScheduleError) -> Seq<char> {
    match e {
        ScheduleError::Invalid(text) => "invalid schedule: "@ + text@,
        ScheduleError::NotRepresentable { reason, .. } => "schedule is not exactly representable: "@ + reason@,
    }
}

/// Creates a one-time trigger.
pub fn once(at: TaskDateTime) -> (t: Trigger)
    ensures
        t matches Trigger::Time(v) && starts_at(v.common, at) && v.random_delay is None,
{
    Trigger::Time(TimeTrigger::new(at))
}

/// Creates a daily trigger at the supplied first boundary.
pub fn daily(first: TaskDateTime) -> (t: Trigger)
    ensures
        t matches Trigger::Daily(v) && starts_at(v.common, first) && v.days_interval == 1
            && v.random_delay is None,
{
    Trigger::Daily(DailyTrigger::new(first))
}

/// Creates a weekly trigger.
pub fn weekly(first: TaskDateTime, days: &[Weekday]) -> (t: Trigger)
    ensures
        t matches Trigger::Weekly(v) && starts_at(v.common, first) && v.weeks_interval == 1
            && crate::model::trigger::weekdays_ordered(v.days_of_week@)
            && v.days_of_week@.to_set() == days@.to_set() && v.random_delay is None,
{
    Trigger::Weekly(WeeklyTrigger::new(first, days))
}

/// Creates a logon trigger for one user or for any user.
pub fn at_logon(user_id: Option<String>) -> (t: Trigger)
    ensures
        t matches Trigger::Logon(v) && is_default_common(v.common) && v.user_id == user_id
            && v.delay is None,
{
    let mut trigger = LogonTrigger::new();
    trigger.user_id = user_id;
    Trigger::Logon(trigger)
}

/// Creates a system boot trigger.
pub fn at_startup() -> (t: Trigger)
    ensures
        t matches Trigger::Boot(v) && is_default_common(v.common) && v.delay is None,
{
    Trigger::Boot(BootTrigger::new())
}

/// Creates a Windows Event Log XPath trigger.
pub fn on_event(subscription: &str) -> (t: Trigger)
    ensures
        t matches Trigger::Event(v) && is_default_common(v.common) && v.subscription@
            == subscription@ && v.value_queries@.len() == 0 && v.delay is None
            && v.period_of_occurrence is None && v.number_of_occurrences is None
            && v.matching_element is None,
{
    Trigger::Event(EventTrigger::new(subscription))
}

/// Creates a trigger that repeats forever from a boundary.
pub fn every(first: TaskDateTime, interval: TaskDuration) -> (r: Result<Trigger, ScheduleError>)
    ensures
        match r {
            Ok(t) => interval@ != (0nat, 0nat) && (t matches Trigger::Time(v) && v.common.id is None
                && v.common.start_boundary == Some(first) && v.common.end_boundary is None
                && v.common.enabled && v.common.execution_time_limit is None
                && v.common.repetition == Some(
                Repetition { interval, duration: None, stop_at_duration_end: false },
            ) && v.random_delay is None),
            Err(e) => interval@ == (0nat, 0nat) && e is Invalid,
        },
{
    if interval.is_zero() {
        return Err(ScheduleError::Invalid("repeat interval must be greater than zero".to_owned()));
    }
    let mut common = TriggerCommon::starting_at(first);
    common.repetition = Some(Repetition { interval, duration: None, stop_at_duration_end: false });
    Ok(Trigger::Time(TimeTrigger { common, random_delay: None }))
}

} // verus!

verus! {

/// Whether `c` is ASCII whitespace.
pub open spec fn ascii_ws(c: char) -> bool {
    c == ' ' || c == '\t' || c == '\n' || c == '\u{c}' || c == '\r'
}

/// The maximal runs of non-whitespace characters, as
/// `str::split_ascii_whitespace` yields them.
pub open spec fn ascii_words(s: Seq<char>) -> Seq<Seq<char>>
    decreases s.len(),
{
    if s.len() == 0 {
        Seq::empty()
    } else {
        let prev = ascii_words(s.drop_last());
        let c = s.last();
        if ascii_ws(c) {
            prev
        } else if s.len() >= 2 && !ascii_ws(s[s.len() - 2]) && prev.len() > 0 {
            prev.drop_last().push(prev.last().push(c))
        } else {
            prev.push(seq![c])
        }
    }
}

fn split_words(s: &[char]) -> (r: Vec<Vec<char>>)
    ensures
        r@.map_values(|w: Vec<char>| w@) == ascii_words(s@),
{
    let mut r: Vec<Vec<char>> = Vec::new();
    let mut i: usize = 0;
    while i < s.len()
        invariant
            i <= s.len(),
            r@.map_values(|w: Vec<char>| w@) == ascii_words(s@.take(i as int)),
            i > 0 && !ascii_ws(s@[i - 1]) ==> r@.len() > 0,
        decreases s.len() - i,
    {
        let c = s[i];
        let ghost prev = r@.map_values(|w: Vec<char>| w@);
        proof {
            assert(s@.take(i + 1).drop_last() =~= s@.take(i as int));
            assert(s@.take(i + 1).last() == c);
        }
        if c == ' ' || c == '\t' || c == '\n' || c == '\u{c}' || c == '\r' {
        } else if i >= 1 && !(s[i - 1] == ' ' || s[i - 1] == '\t' || s[i - 1] == '\n' || s[i - 1] == '\u{c}' || s[i - 1] == '\r') {
            let last = r.len() - 1;
            let mut word = r.remove(last);
            word.push(c);
            r.push(word);
            proof {
                assert(s@.take(i + 1)[i - 1] == s@[i - 1]);
                assert(r@.map_values(|w: Vec<char>| w@) =~= prev.drop_last().push(prev.last().push(c)));
            }
        } else {
            let mut word: Vec<char> = Vec::new();
            word.push(c);
            r.push(word);
            proof {
                if i >= 1 {
                    assert(s@.take(i + 1)[i - 1] == s@[i - 1]);
                }
                assert(r@.map_values(|w: Vec<char>| w@) =~= prev.push(seq![c]));
            }
        }
        i += 1;
    }
    proof {
        assert(s@.take(s.len() as int) =~= s@);
    }
    r
}

/// ASCII lower case of a character.
pub open spec fn ascii_lower(c: char) -> char {
    if 'A' <= c <= 'Z' {
        ((c as u32) + 32) as char
    } else {
        c
    }
}

/// Whether two strings are equal ignoring ASCII case.
pub open spec fn eq_ignore_ascii_case(a: Seq<char>, b: Seq<char>) -> bool {
    a.len() == b.len() && forall|i: int| 0 <= i < a.len() ==> ascii_lower(a[i]) == ascii_lower(b[i])
}

/// The value of the first name in `names` equal to `text` ignoring ASCII case.
pub open spec fn name_lookup(names: Seq<(Seq<char>, u8)>, text: Seq<char>) -> Option<u8>
    decreases names.len(),
{
    if names.len() == 0 {
        None
    } else if eq_ignore_ascii_case(names[0].0, text) {
        Some(names[0].1)
    } else {
        name_lookup(names.drop_first(), text)
    }
}

/// A field value: a name from `names`, or a number as std's `u8` parser reads it.
pub open spec fn field_value_spec(text: Seq<char>, names: Seq<(Seq<char>, u8)>) -> Option<nat> {
    match name_lookup(names, text) {
        Some(v) => Some(v as nat),
        None => parse_unsigned_spec(text, 255),
    }
}

/// The range `(start, end, step)` a list element denotes, or `None` when it
/// is malformed or outside `minimum..=maximum`.
pub open spec fn part_range(part: Seq<char>, minimum: nat, maximum: nat, names: Seq<(Seq<char>, u8)>) -> Option<(nat, nat, nat)> {
    let slash = first_index(part, '/');
    let range = part.take(slash);
    let has_step = slash < part.len();
    let step = if has_step { parse_unsigned_spec(part.skip(slash + 1), 255) } else { Some(1nat) };
    let dash = first_index(range, '-');
    let bounds = if range == seq!['*'] {
        Some((minimum, maximum))
    } else if dash < range.len() {
        match (field_value_spec(range.take(dash), names), field_value_spec(range.skip(dash + 1), names)) {
            (Some(a), Some(b)) => Some((a, b)),
            _ => None,
        }
    } else {
        match field_value_spec(range, names) {
            Some(v) => Some((v, if has_step { maximum } else { v })),
            None => None,
        }
    };
    match (step, bounds) {
        (Some(st), Some((a, b))) => if st == 0 || a < minimum || b > maximum || a > b {
            None
        } else {
            Some((a, b, st))
        },
        _ => None,
    }
}

/// The `j`-th value of a stepped range.
pub open spec fn nth_step(start: nat, step: nat, j: nat) -> nat {
    start + j * step
}

/// A field value with 7 read as Sunday (0) when `sunday_alias` holds.
pub open spec fn alias(v: nat, sunday_alias: bool) -> nat {
    if sunday_alias && v == 7 {
        0
    } else {
        v
    }
}

/// Whether `x` is one of the values a range yields: `start`, `start + step`,
/// ... up to `end`, with 7 read as 0 when `sunday_alias` holds.
pub open spec fn in_range_values(x: nat, start: nat, end: nat, step: nat, sunday_alias: bool) -> bool {
    exists|j: nat| #[trigger] nth_step(start, step, j) <= end && x == alias(nth_step(start, step, j), sunday_alias)
}

/// Whether every list element is well formed.
pub open spec fn parts_ok(parts: Seq<Seq<char>>, minimum: nat, maximum: nat, names: Seq<(Seq<char>, u8)>) -> bool {
    forall|i: int| 0 <= i < parts.len() ==> (#[trigger] part_range(parts[i], minimum, maximum, names)) is Some
}

/// Whether `x` is yielded by some list element.
pub open spec fn in_parts(x: nat, parts: Seq<Seq<char>>, minimum: nat, maximum: nat, names: Seq<(Seq<char>, u8)>, sunday_alias: bool) -> bool {
    exists|i: int| 0 <= i < parts.len() && (#[trigger] part_range(parts[i], minimum, maximum, names) matches Some((a, b, st))
        && in_range_values(x, a, b, st, sunday_alias))
}

/// Values of a parsed cron field: all values its comma-separated elements
/// yield, or `None` when an element is malformed or out of range.
pub open spec fn field_values(text: Seq<char>, minimum: nat, maximum: nat, names: Seq<(Seq<char>, u8)>, sunday_alias: bool) -> Option<Set<nat>> {
    let parts = split_on(text, ',');
    if parts_ok(parts, minimum, maximum, names) {
        Some(Set::new(|x: nat| in_parts(x, parts, minimum, maximum, names, sunday_alias)))
    } else {
        None
    }
}

} // verus!

verus! {

/// Month names and their numbers.
pub open spec fn month_names() -> Seq<(Seq<char>, u8)> {
    seq![("jan"@, 1u8), ("feb"@, 2u8), ("mar"@, 3u8), ("apr"@, 4u8), ("may"@, 5u8), ("jun"@, 6u8),
        ("jul"@, 7u8), ("aug"@, 8u8), ("sep"@, 9u8), ("oct"@, 10u8), ("nov"@, 11u8), ("dec"@, 12u8)]
}

/// Weekday names and their numbers, Sunday 0.
pub open spec fn weekday_names() -> Seq<(Seq<char>, u8)> {
    seq![("sun"@, 0u8), ("mon"@, 1u8), ("tue"@, 2u8), ("wed"@, 3u8), ("thu"@, 4u8), ("fri"@, 5u8),
        ("sat"@, 6u8)]
}

/// Views of a list of names.
pub open spec fn names_view(names: Seq<(&str, u8)>) -> Seq<(Seq<char>, u8)> {
    names.map_values(|p: (&str, u8)| (p.0@, p.1))
}

fn month_names_exec() -> (r: Vec<(&'static str, u8)>)
    ensures
        names_view(r@) == month_names(),
{
    let r = vec![("jan", 1u8), ("feb", 2u8), ("mar", 3u8), ("apr", 4u8), ("may", 5u8), ("jun", 6u8),
        ("jul", 7u8), ("aug", 8u8), ("sep", 9u8), ("oct", 10u8), ("nov", 11u8), ("dec", 12u8)];
    proof {
        assert(names_view(r@) =~= month_names());
    }
    r
}

fn weekday_names_exec() -> (r: Vec<(&'static str, u8)>)
    ensures
        names_view(r@) == weekday_names(),
{
    let r = vec![("sun", 0u8), ("mon", 1u8), ("tue", 2u8), ("wed", 3u8), ("thu", 4u8), ("fri", 5u8),
        ("sat", 6u8)];
    proof {
        assert(names_view(r@) =~= weekday_names());
    }
    r
}

fn lower_exec(c: char) -> (r: char)
    ensures
        r == ascii_lower(c),
{
    if c >= 'A' && c <= 'Z' {
        let code: u8 = (c as u8) + 32;
        code as char
    } else {
        c
    }
}

pub(crate) fn eq_ignore_case_exec(a: &[char], b: &[char]) -> (r: bool)
    ensures
        r == eq_ignore_ascii_case(a@, b@),
{
    if a.len() != b.len() {
        return false;
    }
    let mut i: usize = 0;
    while i < a.len()
        invariant
            i <= a.len(),
            a.len() == b.len(),
            forall|j: int| 0 <= j < i ==> ascii_lower(a@[j]) == ascii_lower(b@[j]),
        decreases a.len() - i,
    {
        if lower_exec(a[i]) != lower_exec(b[i]) {
            return false;
        }
        i += 1;
    }
    true
}

fn field_value(text: &[char], names: &[(&str, u8)]) -> (r: Option<u8>)
    ensures
        match r {
            Some(v) => field_value_spec(text@, names_view(names@)) == Some(v as nat),
            None => field_value_spec(text@, names_view(names@)) is None,
        },
{
    let ghost nv = names_view(names@);
    proof {
        assert(nv.skip(0) =~= nv);
    }
    let mut i: usize = 0;
    while i < names.len()
        invariant
            i <= names.len(),
            nv == names_view(names@),
            name_lookup(nv, text@) == name_lookup(nv.skip(i as int), text@),
        decreases names.len() - i,
    {
        proof {
            assert(nv.skip(i as int)[0] == (names@[i as int].0@, names@[i as int].1));
            assert(nv.skip(i as int).drop_first() =~= nv.skip(i + 1));
        }
        let name = chars_of(names[i].0);
        if eq_ignore_case_exec(name.as_slice(), text) {
            return Some(names[i].1);
        }
        i += 1;
    }
    proof {
        assert(nv.skip(i as int) =~= Seq::<(Seq<char>, u8)>::empty());
    }
    match parse_unsigned(text, 255) {
        Some(v) => Some(v as u8),
        None => None,
    }
}

} // verus!

verus! {

/// A parsed cron field.
#[derive(Clone, Debug, PartialEq, Eq)]
pub struct Field {
    /// The selected values, in increasing order.
    pub values: Vec<u8>,
    /// Whether the field text was the bare wildcard `*`.
    pub wildcard: bool,
}

/// Whether `s` is strictly increasing.
pub open spec fn strictly_increasing(s: Seq<u8>) -> bool {
    forall|i: int, j: int| 0 <= i < j < s.len() ==> s[i] < s[j]
}

/// Whether `v` is `start + j * step` for some `j`, at most `end`.
pub open spec fn step_hits(v: nat, start: nat, end: nat, step: nat) -> bool {
    exists|j: nat| #[trigger] nth_step(start, step, j) <= end && v == nth_step(start, step, j)
}

/// Whether `x` is yielded by one of the parsed list elements `ranges`.
pub open spec fn ranges_hit(x: nat, ranges: Seq<(u8, u8, u8)>, sunday_alias: bool) -> bool {
    exists|i: int|
        0 <= i < ranges.len() && #[trigger] in_range_values(
            x,
            ranges[i].0 as nat,
            ranges[i].1 as nat,
            ranges[i].2 as nat,
            sunday_alias,
        )
}

/// Whether `ranges` are the parsed forms of the list elements `parts`.
pub open spec fn ranges_match(
    parts: Seq<Seq<char>>,
    ranges: Seq<(u8, u8, u8)>,
    minimum: nat,
    maximum: nat,
    names: Seq<(Seq<char>, u8)>,
) -> bool {
    &&& ranges.len() == parts.len()
    &&& forall|i: int|
        0 <= i < parts.len() ==> #[trigger] part_range(parts[i], minimum, maximum, names) == Some(
            (ranges[i].0 as nat, ranges[i].1 as nat, ranges[i].2 as nat),
        )
}

/// Whether `text` is a well-formed cron field selecting at least one value.
pub open spec fn field_ok(
    text: Seq<char>,
    minimum: nat,
    maximum: nat,
    names: Seq<(Seq<char>, u8)>,
    sunday_alias: bool,
) -> bool {
    field_values(text, minimum, maximum, names, sunday_alias) matches Some(s) && !s.is_empty()
}

/// Whether `f` is what the cron field `text` parses to: the values it
/// selects in increasing order, and whether it is the bare `*`.
pub open spec fn field_parsed(
    text: Seq<char>,
    minimum: nat,
    maximum: nat,
    names: Seq<(Seq<char>, u8)>,
    sunday_alias: bool,
    f: Field,
) -> bool {
    &&& field_values(text, minimum, maximum, names, sunday_alias) matches Some(s)
    &&& !s.is_empty()
    &&& strictly_increasing(f.values@)
    &&& forall|v: u8| #[trigger] f.values@.contains(v) <==> s.contains(v as nat)
    &&& f.wildcard == (text == seq!['*'])
}

proof fn lemma_step_hits(v: nat, a: nat, b: nat, st: nat)
    requires
        st > 0,
    ensures
        step_hits(v, a, b, st) <==> (a <= v <= b && (v - a) % (st as int) == 0),
{
    if a <= v <= b && (v - a) % (st as int) == 0 {
        let d: int = v - a;
        vstd::arithmetic::div_mod::lemma_fundamental_div_mod(d, st as int);
        let q: int = d / (st as int);
        assert(q >= 0) by (nonlinear_arith)
            requires
                d >= 0,
                st > 0,
                q == d / (st as int),
        ;
        let j: nat = q as nat;
        assert(nth_step(a, st, j) == v) by (nonlinear_arith)
            requires
                d == st * q + 0,
                j == q,
                d == v - a,
        ;
    }
    if step_hits(v, a, b, st) {
        let j = choose|j: nat| #[trigger] nth_step(a, st, j) <= b && v == nth_step(a, st, j);
        vstd::arithmetic::div_mod::lemma_mod_multiples_basic(j as int, st as int);
        assert((v - a) % (st as int) == 0);
    }
}

proof fn lemma_in_range_values(x: nat, a: nat, b: nat, st: nat, sunday: bool)
    ensures
        in_range_values(x, a, b, st, sunday) <==> (if sunday {
            (x != 7 && step_hits(x, a, b, st)) || (x == 0 && step_hits(7, a, b, st))
        } else {
            step_hits(x, a, b, st)
        }),
        in_range_values(x, a, b, st, sunday) ==> x <= b,
        in_range_values(x, a, b, st, sunday) && !sunday ==> x >= a,
        in_range_values(x, a, b, st, sunday) && sunday ==> x != 7,
{
    if in_range_values(x, a, b, st, sunday) {
        let j = choose|j: nat|
            #[trigger] nth_step(a, st, j) <= b && x == alias(nth_step(a, st, j), sunday);
        let n = nth_step(a, st, j);
        if sunday && n == 7 {
            assert(step_hits(7, a, b, st));
        } else {
            assert(step_hits(x, a, b, st));
        }
    }
    if step_hits(x, a, b, st) && (!sunday || x != 7) {
        let j = choose|j: nat| #[trigger] nth_step(a, st, j) <= b && x == nth_step(a, st, j);
        assert(x == alias(nth_step(a, st, j), sunday));
    }
    if sunday && x == 0 && step_hits(7, a, b, st) {
        let j = choose|j: nat| #[trigger] nth_step(a, st, j) <= b && 7 == nth_step(a, st, j);
        assert(x == alias(nth_step(a, st, j), sunday));
    }
}

proof fn lemma_ranges_hit(
    x: nat,
    parts: Seq<Seq<char>>,
    ranges: Seq<(u8, u8, u8)>,
    minimum: nat,
    maximum: nat,
    names: Seq<(Seq<char>, u8)>,
    sunday_alias: bool,
)
    requires
        ranges_match(parts, ranges, minimum, maximum, names),
    ensures
        in_parts(x, parts, minimum, maximum, names, sunday_alias) == ranges_hit(
            x,
            ranges,
            sunday_alias,
        ),
        in_parts(x, parts, minimum, maximum, names, sunday_alias) ==> x <= maximum,
{
    if in_parts(x, parts, minimum, maximum, names, sunday_alias) {
        let i = choose|i: int|
            0 <= i < parts.len() && (#[trigger] part_range(
                parts[i],
                minimum,
                maximum,
                names,
            ) matches Some((a, b, st)) && in_range_values(x, a, b, st, sunday_alias));
        let (a, b, st) = part_range(parts[i], minimum, maximum, names)->0;
        assert(in_range_values(x, ranges[i].0 as nat, ranges[i].1 as nat, ranges[i].2 as nat, sunday_alias));
        lemma_in_range_values(x, a, b, st, sunday_alias);
    }
    if ranges_hit(x, ranges, sunday_alias) {
        let i = choose|i: int|
            0 <= i < ranges.len() && #[trigger] in_range_values(
                x,
                ranges[i].0 as nat,
                ranges[i].1 as nat,
                ranges[i].2 as nat,
                sunday_alias,
            );
        assert(part_range(parts[i], minimum, maximum, names) is Some);
    }
}

/// Whether `x` is a value of the list element `(start, end, step)`.
fn range_hit(x: u8, start: u8, end: u8, step: u8, sunday_alias: bool) -> (r: bool)
    requires
        step > 0,
    ensures
        r == in_range_values(x as nat, start as nat, end as nat, step as nat, sunday_alias),
{
    proof {
        lemma_in_range_values(x as nat, start as nat, end as nat, step as nat, sunday_alias);
        lemma_step_hits(x as nat, start as nat, end as nat, step as nat);
        lemma_step_hits(7, start as nat, end as nat, step as nat);
    }
    let plain = x >= start && x <= end && (x - start) % step == 0;
    if sunday_alias {
        let seven = 7 >= start && 7 <= end && (7 - start) % step == 0;
        (x != 7 && plain) || (x == 0 && seven)
    } else {
        plain
    }
}

/// Whether one of the parsed list elements yields `x`.
fn ranges_hit_exec(x: u8, ranges: &Vec<(u8, u8, u8)>, sunday_alias: bool) -> (r: bool)
    requires
        forall|i: int| 0 <= i < ranges.len() ==> #[trigger] ranges@[i].2 > 0,
    ensures
        r == ranges_hit(x as nat, ranges@, sunday_alias),
{
    let mut hit = false;
    let mut k: usize = 0;
    while k < ranges.len()
        invariant
            k <= ranges.len(),
            forall|i: int| 0 <= i < ranges.len() ==> #[trigger] ranges@[i].2 > 0,
            hit == exists|i: int|
                0 <= i < k && #[trigger] in_range_values(
                    x as nat,
                    ranges@[i].0 as nat,
                    ranges@[i].1 as nat,
                    ranges@[i].2 as nat,
                    sunday_alias,
                ),
        decreases ranges.len() - k,
    {
        let (a, b, st) = ranges[k];
        assert(ranges@[k as int].2 > 0);
        let h = range_hit(x, a, b, st, sunday_alias);
        hit = hit || h;
        k += 1;
    }
    hit
}

} // verus!

verus! {

/// `text` in double quotes with Rust debug escapes.
fn quoted(text: &[char]) -> (r: String)
    ensures
        r@ == crate::text::debug_quoted_spec(text@),
{
    debug_quoted(string_of(text).as_str())
}

/// The error for a malformed cron field element.
fn invalid_with(prefix: &str, subject: &[char], infix: &str, field: &[char]) -> (e: ScheduleError)
    ensures
        e matches ScheduleError::Invalid(s) && s@ == prefix@ + crate::text::debug_quoted_spec(subject@) + infix@
            + crate::text::debug_quoted_spec(field@),
{
    let mut s = prefix.to_owned();
    s.append(quoted(subject).as_str());
    s.append(infix);
    s.append(quoted(field).as_str());
    ScheduleError::Invalid(s)
}

/// Parses one list element of a cron field into `(start, end, step)`.
fn parse_part(part: &[char], text: &[char], minimum: u8, maximum: u8, names: &[(&str, u8)]) -> (r:
    Result<(u8, u8, u8), ScheduleError>)
    ensures
        match r {
            Ok((a, b, st)) => part_range(part@, minimum as nat, maximum as nat, names_view(names@))
                == Some((a as nat, b as nat, st as nat)),
            Err(e) => part_range(part@, minimum as nat, maximum as nat, names_view(names@)) is None
                && e is Invalid,
        },
{
    let ghost nv = names_view(names@);
    let slash = crate::model::time::find_first(part, '/');
    let range = slice_subrange(part, 0, slash);
    let has_step = slash < part.len();
    let mut step: u8 = 1;
    if has_step {
        let step_text = slice_subrange(part, slash + 1, part.len());
        proof {
            assert(step_text@ =~= part@.skip(slash + 1));
        }
        match parse_unsigned(step_text, 255) {
            Some(v) => {
                step = v as u8;
            },
            None => {
                return Err(invalid_with("invalid step ", step_text, " in ", text));
            },
        }
    }
    if step == 0 {
        let mut s = "invalid zero step in ".to_owned();
        s.append(quoted(text).as_str());
        return Err(ScheduleError::Invalid(s));
    }
    proof {
        assert(range@ =~= part@.take(slash as int));
    }
    let star = range.len() == 1 && range[0] == '*';
    proof {
        if star {
            assert(range@ =~= seq!['*']);
        } else {
            assert(range@ != seq!['*']) by {
                if range@ == seq!['*'] {
                    assert(range@.len() == 1 && range@[0] == '*');
                }
            }
        }
    }
    let mut start: u8 = minimum;
    let mut end: u8 = maximum;
    if !star {
        let dash = crate::model::time::find_first(range, '-');
        if dash < range.len() {
            let first = slice_subrange(range, 0, dash);
            let second = slice_subrange(range, dash + 1, range.len());
            proof {
                assert(first@ =~= range@.take(dash as int));
                assert(second@ =~= range@.skip(dash + 1));
            }
            match field_value(first, names) {
                Some(v) => {
                    start = v;
                },
                None => {
                    let mut s = "invalid cron value ".to_owned();
                    s.append(quoted(first).as_str());
                    return Err(ScheduleError::Invalid(s));
                },
            }
            match field_value(second, names) {
                Some(v) => {
                    end = v;
                },
                None => {
                    let mut s = "invalid cron value ".to_owned();
                    s.append(quoted(second).as_str());
                    return Err(ScheduleError::Invalid(s));
                },
            }
        } else {
            match field_value(range, names) {
                Some(v) => {
                    start = v;
                    end = if has_step {
                        maximum
                    } else {
                        v
                    };
                },
                None => {
                    let mut s = "invalid cron value ".to_owned();
                    s.append(quoted(range).as_str());
                    return Err(ScheduleError::Invalid(s));
                },
            }
        }
    }
    if start < minimum || end > maximum || start > end {
        let mut s = "field ".to_owned();
        s.append(quoted(part).as_str());
        s.append(" is outside ");
        s.append(crate::text::u64_to_string(minimum as u64).as_str());
        s.append("..=");
        s.append(crate::text::u64_to_string(maximum as u64).as_str());
        return Err(ScheduleError::Invalid(s));
    }
    Ok((start, end, step))
}

/// Parses the comma-separated list elements of `rest`.
fn parse_parts(rest: &[char], text: &[char], minimum: u8, maximum: u8, names: &[(&str, u8)]) -> (r:
    Result<Vec<(u8, u8, u8)>, ScheduleError>)
    ensures
        match r {
            Ok(v) => ranges_match(
                split_on(rest@, ','),
                v@,
                minimum as nat,
                maximum as nat,
                names_view(names@),
            ),
            Err(e) => !parts_ok(
                split_on(rest@, ','),
                minimum as nat,
                maximum as nat,
                names_view(names@),
            ) && e is Invalid,
        },
    decreases rest.len(),
{
    let ghost nv = names_view(names@);
    let ghost cs = split_on(rest@, ',');
    let i = crate::model::time::find_first(rest, ',');
    let head = slice_subrange(rest, 0, i);
    proof {
        assert(head@ =~= rest@.take(i as int));
        if i < rest.len() {
            assert(cs == seq![rest@.take(i as int)] + split_on(rest@.skip(i + 1), ','));
        } else {
            assert(cs == seq![rest@]);
            assert(rest@.take(i as int) =~= rest@);
        }
        assert(cs[0] == head@);
    }
    let h = match parse_part(head, text, minimum, maximum, names) {
        Ok(h) => h,
        Err(e) => {
            return Err(e);
        },
    };
    if i == rest.len() {
        let v = vec![h];
        proof {
            assert(v@.len() == 1);
            assert(v@[0] == h);
        }
        return Ok(v);
    }
    let tail = slice_subrange(rest, i + 1, rest.len());
    proof {
        assert(tail@ =~= rest@.skip(i + 1));
        assert(cs.drop_first() =~= split_on(tail@, ','));
    }
    match parse_parts(tail, text, minimum, maximum, names) {
        Ok(mut v) => {
            let ghost tv = v@;
            v.insert(0, h);
            proof {
                assert(v@ == seq![h] + tv);
                assert forall|k: int| 0 <= k < cs.len() implies #[trigger] part_range(
                    cs[k],
                    minimum as nat,
                    maximum as nat,
                    nv,
                ) == Some((v@[k].0 as nat, v@[k].1 as nat, v@[k].2 as nat)) by {
                    if k > 0 {
                        assert(cs[k] == cs.drop_first()[k - 1]);
                        assert(v@[k] == tv[k - 1]);
                    }
                }
            }
            Ok(v)
        },
        Err(e) => {
            proof {
                if parts_ok(cs, minimum as nat, maximum as nat, nv) {
                    assert forall|k: int| 0 <= k < cs.drop_first().len() implies (
                    #[trigger] part_range(
                        cs.drop_first()[k],
                        minimum as nat,
                        maximum as nat,
                        nv,
                    )) is Some by {
                        assert(cs.drop_first()[k] == cs[k + 1]);
                    }
                }
            }
            Err(e)
        },
    }
}

} // verus!

verus! {

/// Parses a cron field whose values lie in `minimum..=maximum`, reading
/// `names` as aliases and 7 as Sunday when `sunday_alias` holds.
fn parse_field(
    text: &[char],
    minimum: u8,
    maximum: u8,
    names: &[(&str, u8)],
    sunday_alias: bool,
) -> (r: Result<Field, ScheduleError>)
    requires
        maximum < 255,
    ensures
        match r {
            Ok(f) => field_parsed(
                text@,
                minimum as nat,
                maximum as nat,
                names_view(names@),
                sunday_alias,
                f,
            ),
            Err(e) => !field_ok(
                text@,
                minimum as nat,
                maximum as nat,
                names_view(names@),
                sunday_alias,
            ) && e is Invalid,
        },
{
    let ghost nv = names_view(names@);
    let ghost parts = split_on(text@, ',');
    let wildcard = text.len() == 1 && text[0] == '*';
    proof {
        if wildcard {
            assert(text@ =~= seq!['*']);
        } else if text@ == seq!['*'] {
            assert(text@.len() == 1 && text@[0] == '*');
        }
    }
    let ranges = match parse_parts(text, text, minimum, maximum, names) {
        Ok(v) => v,
        Err(e) => {
            return Err(e);
        },
    };
    proof {
        assert forall|i: int| 0 <= i < ranges.len() implies #[trigger] ranges@[i].2 > 0 by {
            assert(part_range(parts[i], minimum as nat, maximum as nat, nv) is Some);
        }
    }
    let ghost s = Set::new(|x: nat| in_parts(x, parts, minimum as nat, maximum as nat, nv, sunday_alias));
    let mut values: Vec<u8> = Vec::new();
    let mut x: u8 = 0;
    while x <= maximum
        invariant
            x <= maximum + 1,
            maximum < 255,
            ranges_match(parts, ranges@, minimum as nat, maximum as nat, nv),
            forall|i: int| 0 <= i < ranges.len() ==> #[trigger] ranges@[i].2 > 0,
            s == Set::new(|x: nat| in_parts(x, parts, minimum as nat, maximum as nat, nv, sunday_alias)),
            strictly_increasing(values@),
            forall|i: int| 0 <= i < values.len() ==> #[trigger] values@[i] < x,
            forall|v: u8| v < x ==> (#[trigger] values@.contains(v) <==> s.contains(v as nat)),
        decreases maximum + 1 - x,
    {
        let hit = ranges_hit_exec(x, &ranges, sunday_alias);
        proof {
            lemma_ranges_hit(x as nat, parts, ranges@, minimum as nat, maximum as nat, nv, sunday_alias);
        }
        let ghost old_values = values@;
        if hit {
            values.push(x);
        }
        proof {
            assert forall|v: u8| v < x + 1 implies (#[trigger] values@.contains(v) <==> s.contains(v as nat)) by {
                if v < x {
                    if values@.contains(v) && !old_values.contains(v) {
                        let i = choose|i: int| 0 <= i < values@.len() && values@[i] == v;
                        assert(i == old_values.len());
                    }
                    if old_values.contains(v) {
                        let i = choose|i: int| 0 <= i < old_values.len() && old_values[i] == v;
                        assert(values@[i] == v);
                    }
                } else {
                    if hit {
                        assert(values@[values@.len() - 1] == v);
                    } else {
                        if values@.contains(v) {
                            let i = choose|i: int| 0 <= i < values@.len() && values@[i] == v;
                            assert(values@[i] < x);
                        }
                    }
                }
            }
        }
        x += 1;
    }
    proof {
        assert forall|v: u8| #[trigger] values@.contains(v) <==> s.contains(v as nat) by {
            if v > maximum {
                lemma_ranges_hit(v as nat, parts, ranges@, minimum as nat, maximum as nat, nv, sunday_alias);
                if values@.contains(v) {
                    let i = choose|i: int| 0 <= i < values@.len() && values@[i] == v;
                    assert(values@[i] < x);
                }
            }
        }
    }
    if values.len() == 0 {
        proof {
            assert forall|y: nat| !s.contains(y) by {
                lemma_ranges_hit(y, parts, ranges@, minimum as nat, maximum as nat, nv, sunday_alias);
                if s.contains(y) {
                    assert(y <= maximum);
                    assert(values@.contains(y as u8));
                }
            }
            assert(s =~= Set::<nat>::empty());
        }
        let mut m = "empty cron field ".to_owned();
        m.append(quoted(text).as_str());
        return Err(ScheduleError::Invalid(m));
    }
    proof {
        assert(values@.contains(values@[0]));
        assert(s.contains(values@[0] as nat));
    }
    Ok(Field { values, wildcard })
}

} // verus!

verus! {

/// Whether `c` starts an offset: `+`, `-` or `Z`.
pub open spec fn is_offset_mark(c: char) -> bool {
    c == '+' || c == '-' || c == 'Z'
}

/// Index of the first offset mark in `s`, or its length when none occurs.
pub open spec fn first_mark(s: Seq<char>) -> int
    decreases s.len(),
{
    if s.len() == 0 {
        0
    } else if is_offset_mark(s[0]) {
        0
    } else {
        1 + first_mark(s.drop_first())
    }
}

proof fn lemma_first_mark_is(s: Seq<char>, i: int)
    requires
        0 <= i <= s.len(),
        forall|j: int| 0 <= j < i ==> !is_offset_mark(#[trigger] s[j]),
        i == s.len() || is_offset_mark(s[i]),
    ensures
        first_mark(s) == i,
    decreases i,
{
    if i > 0 {
        assert forall|j: int| 0 <= j < i - 1 implies !is_offset_mark(#[trigger] s.drop_first()[j]) by {
            assert(s.drop_first()[j] == s[j + 1]);
        }
        lemma_first_mark_is(s.drop_first(), i - 1);
    }
}

/// The text of the boundary `anchor` with its time of day replaced by
/// `hour:minute:00`, keeping its date and its offset, or `None` when it has
/// no `T`.
pub open spec fn boundary_text(anchor: Seq<char>, hour: nat, minute: nat) -> Option<Seq<char>> {
    let t = first_index(anchor, 'T');
    if t < anchor.len() {
        let suffix = t + 1 + first_mark(anchor.skip(t + 1));
        Some(
            anchor.take(t) + seq!['T'] + zero_padded(hour, 2) + seq![':'] + zero_padded(minute, 2)
                + seq![':', '0', '0'] + anchor.skip(suffix),
        )
    } else {
        None
    }
}

/// Whether a boundary at `hour:minute` can be derived from `anchor`.
pub open spec fn boundary_ok(anchor: Seq<char>, hour: nat, minute: nat) -> bool {
    boundary_text(anchor, hour, minute) matches Some(b) && parse_datetime_spec(b) is Some
}

/// The view of the boundary at `hour:minute` derived from `anchor`.
pub open spec fn boundary_view(anchor: Seq<char>, hour: nat, minute: nat) -> (Seq<char>, crate::model::time::TimeBasis) {
    let b = boundary_text(anchor, hour, minute)->0;
    (b, parse_datetime_spec(b)->0)
}

fn find_mark(s: &[char]) -> (i: usize)
    ensures
        i as int == first_mark(s@),
        i <= s.len(),
{
    let mut i: usize = 0;
    while i < s.len() && !(s[i] == '+' || s[i] == '-' || s[i] == 'Z')
        invariant
            i <= s.len(),
            forall|j: int| 0 <= j < i ==> !is_offset_mark(#[trigger] s@[j]),
        decreases s.len() - i,
    {
        i += 1;
    }
    proof {
        lemma_first_mark_is(s@, i as int);
    }
    i
}

/// The boundary at `hour:minute` on the date and offset of `first`.
fn boundary_at(first: &TaskDateTime, hour: u8, minute: u8) -> (r: Result<TaskDateTime, ScheduleError>)
    ensures
        match r {
            Ok(b) => boundary_ok(first@.0, hour as nat, minute as nat) && b@ == boundary_view(
                first@.0,
                hour as nat,
                minute as nat,
            ),
            Err(e) => !boundary_ok(first@.0, hour as nat, minute as nat) && e is Invalid,
        },
{
    let text = chars_of(first.as_str());
    let t = crate::model::time::find_first(text.as_slice(), 'T');
    if t == text.len() {
        return Err(ScheduleError::Invalid("cron anchor has no time separator".to_owned()));
    }
    let after = slice_subrange(text.as_slice(), t + 1, text.len());
    let m = find_mark(after);
    proof {
        assert(after@ =~= text@.skip(t + 1));
    }
    let suffix = t + 1 + m;
    let mut s = string_of(slice_subrange(text.as_slice(), 0, t));
    push_char(&mut s, 'T');
    s.append(u64_to_padded(hour as u64, 2).as_str());
    push_char(&mut s, ':');
    s.append(u64_to_padded(minute as u64, 2).as_str());
    push_char(&mut s, ':');
    push_char(&mut s, '0');
    push_char(&mut s, '0');
    s.append(string_of(slice_subrange(text.as_slice(), suffix, text.len())).as_str());
    proof {
        assert(s@ =~= boundary_text(first@.0, hour as nat, minute as nat)->0);
    }
    match TaskDateTime::parse(s.as_str()) {
        Ok(b) => Ok(b),
        Err(e) => Err(ScheduleError::Invalid(e.message().to_owned())),
    }
}

} // verus!

verus! {

/// Whether `c` is the default common settings starting at the boundary
/// whose view is `b`.
pub open spec fn starts_at_view(c: TriggerCommon, b: (Seq<char>, crate::model::time::TimeBasis)) -> bool {
    &&& c.id is None
    &&& c.start_boundary matches Some(s) && s@ == b
    &&& c.end_boundary is None
    &&& c.enabled
    &&& c.execution_time_limit is None
    &&& c.repetition is None
}

/// Whether `days` are the weekdays numbered `values`, Sunday 0, in order.
pub open spec fn weekdays_are(days: Seq<Weekday>, values: Seq<u8>) -> bool {
    days.len() == values.len() && forall|i: int| 0 <= i < days.len() ==> weekday_index(#[trigger] days[i]) == values[i]
}

/// Whether `months` are the months numbered `values`, January 1, in order.
pub open spec fn months_are(months: Seq<Month>, values: Seq<u8>) -> bool {
    months.len() == values.len() && forall|i: int| 0 <= i < months.len() ==> month_index(#[trigger] months[i]) + 1 == values[i]
}

/// Whether `weeks` are the first four week ordinals, in order.
pub open spec fn first_four_weeks(weeks: Seq<WeekOfMonth>) -> bool {
    weeks.len() == 4 && forall|i: int| 0 <= i < 4 ==> crate::model::trigger::week_index(#[trigger] weeks[i]) == i
}

/// Whether `t` is the native trigger for the days that the fields `f`
/// (minutes, hours, days of month, months, days of week) select, starting at
/// the boundary viewed as `b`: daily when no day or month is restricted,
/// weekly when only weekdays are, monthly by weekday when weekdays and months
/// are, and monthly by day otherwise.
pub open spec fn calendar_trigger_ok(f: Seq<Field>, t: Trigger, b: (Seq<char>, crate::model::time::TimeBasis)) -> bool {
    let dom = f[2];
    let months = f[3];
    let dow = f[4];
    if dom.wildcard && dow.wildcard && months.wildcard {
        t matches Trigger::Daily(v) && starts_at_view(v.common, b) && v.days_interval == 1
            && v.random_delay is None
    } else if !dow.wildcard && months.wildcard {
        t matches Trigger::Weekly(v) && starts_at_view(v.common, b) && v.weeks_interval == 1
            && weekdays_are(v.days_of_week@, dow.values@) && v.random_delay is None
    } else if !dow.wildcard {
        t matches Trigger::MonthlyDow(v) && starts_at_view(v.common, b) && first_four_weeks(
            v.weeks_of_month@,
        ) && weekdays_are(v.days_of_week@, dow.values@) && months_are(v.months@, months.values@)
            && v.run_on_last_week && v.random_delay is None
    } else {
        t matches Trigger::Monthly(v) && starts_at_view(v.common, b) && v.days_of_month@
            == dom.values@ && months_are(v.months@, months.values@) && !v.run_on_last_day
            && v.random_delay is None
    }
}

/// The `(hour, minute)` pairs of `hours` and `minutes`, hour by hour.
pub open spec fn time_pairs(hours: Seq<u8>, minutes: Seq<u8>) -> Seq<(u8, u8)>
    decreases hours.len(),
{
    if hours.len() == 0 {
        Seq::empty()
    } else {
        time_pairs(hours.drop_last(), minutes) + minutes.map_values(|m: u8| (hours.last(), m))
    }
}

proof fn lemma_time_pairs_len(hours: Seq<u8>, minutes: Seq<u8>)
    ensures
        time_pairs(hours, minutes).len() == hours.len() * minutes.len(),
    decreases hours.len(),
{
    if hours.len() > 0 {
        lemma_time_pairs_len(hours.drop_last(), minutes);
        let a = hours.len();
        let b = minutes.len();
        assert((a - 1) * b + b == a * b) by (nonlinear_arith);
    }
}

proof fn lemma_time_pairs_prefix(hours: Seq<u8>, minutes: Seq<u8>, i: int)
    requires
        0 <= i <= hours.len(),
    ensures
        time_pairs(hours.take(i), minutes) == time_pairs(hours, minutes).take(
            time_pairs(hours.take(i), minutes).len() as int,
        ),
        time_pairs(hours.take(i), minutes).len() <= time_pairs(hours, minutes).len(),
    decreases hours.len(),
{
    if i == hours.len() {
        assert(hours.take(i) =~= hours);
        assert(time_pairs(hours, minutes).take(time_pairs(hours, minutes).len() as int) =~= time_pairs(hours, minutes));
    } else {
        assert(hours.take(i) =~= hours.drop_last().take(i));
        lemma_time_pairs_prefix(hours.drop_last(), minutes, i);
        let a = time_pairs(hours.drop_last(), minutes);
        let x = minutes.map_values(|m: u8| (hours.last(), m));
        let k = time_pairs(hours.take(i), minutes).len() as int;
        assert((a + x).take(k) =~= a.take(k));
    }
}

proof fn lemma_increasing_at_least_index(s: Seq<u8>, i: int)
    requires
        strictly_increasing(s),
        0 <= i < s.len(),
    ensures
        s[i] >= i,
    decreases i,
{
    if i > 0 {
        lemma_increasing_at_least_index(s, i - 1);
        assert(s[i - 1] < s[i]);
    }
}

proof fn lemma_increasing_len(s: Seq<u8>, maximum: nat)
    requires
        strictly_increasing(s),
        forall|i: int| 0 <= i < s.len() ==> #[trigger] s[i] <= maximum,
    ensures
        s.len() <= maximum + 1,
{
    if s.len() > 0 {
        lemma_increasing_at_least_index(s, s.len() - 1);
    }
}

/// What compiling the fields `f` against the anchor text `anchor` gives:
/// an error when both days of month and weekdays are restricted; otherwise
/// one trigger per `(hour, minute)` pair, in order, failing on the first
/// pair whose boundary cannot be formed, or once more than the native limit
/// of triggers would be needed, reporting then how many the expansion needs.
pub open spec fn compile_outcome(f: Seq<Field>, anchor: Seq<char>, r: Result<Vec<Trigger>, ScheduleError>) -> bool {
    let pairs = time_pairs(f[1].values@, f[0].values@);
    let checked = if pairs.len() <= MAX_TRIGGERS {
        pairs.len() as int
    } else {
        MAX_TRIGGERS + 1
    };
    let all_ok = forall|k: int| 0 <= k < checked ==> boundary_ok(anchor, #[trigger] pairs[k].0 as nat, pairs[k].1 as nat);
    if !f[2].wildcard && !f[4].wildcard {
        r matches Err(ScheduleError::NotRepresentable { required_triggers: None, .. })
    } else if !all_ok {
        r matches Err(ScheduleError::Invalid(_))
    } else if pairs.len() > MAX_TRIGGERS {
        r matches Err(ScheduleError::NotRepresentable { required_triggers: Some(n), .. }) && n == pairs.len()
    } else {
        r matches Ok(v) && v@.len() == pairs.len() && forall|k: int| 0 <= k < pairs.len() ==> calendar_trigger_ok(
            f,
            #[trigger] v@[k],
            boundary_view(anchor, pairs[k].0 as nat, pairs[k].1 as nat),
        )
    }
}

/// Whether the words of `text` are five well-formed cron fields: minute,
/// hour, day of month, month and day of week.
pub open spec fn cron_text_ok(text: Seq<char>) -> bool {
    let w = ascii_words(text);
    &&& w.len() == 5
    &&& field_ok(w[0], 0, 59, Seq::empty(), false)
    &&& field_ok(w[1], 0, 23, Seq::empty(), false)
    &&& field_ok(w[2], 1, 31, Seq::empty(), false)
    &&& field_ok(w[3], 1, 12, month_names(), false)
    &&& field_ok(w[4], 0, 7, weekday_names(), true)
}

/// Whether `f` are the fields that the cron expression `text` parses to.
pub open spec fn cron_parsed(text: Seq<char>, f: Seq<Field>) -> bool {
    let w = ascii_words(text);
    &&& w.len() == 5
    &&& f.len() == 5
    &&& field_parsed(w[0], 0, 59, Seq::empty(), false, f[0])
    &&& field_parsed(w[1], 0, 23, Seq::empty(), false, f[1])
    &&& field_parsed(w[2], 1, 31, Seq::empty(), false, f[2])
    &&& field_parsed(w[3], 1, 12, month_names(), false, f[3])
    &&& field_parsed(w[4], 0, 7, weekday_names(), true, f[4])
}

/// Parsed fields exist only for a well-formed cron text; with the contract
/// of `CronSchedule::parse`, which refuses only text that is not well
/// formed, parsing succeeds exactly on well-formed text.
pub proof fn lemma_cron_parse_iff_well_formed(text: Seq<char>, f: Seq<Field>)
    requires
        cron_parsed(text, f),
    ensures
        cron_text_ok(text),
{
}

proof fn lemma_field_bounds(
    text: Seq<char>,
    minimum: nat,
    maximum: nat,
    names: Seq<(Seq<char>, u8)>,
    sunday_alias: bool,
    f: Field,
)
    requires
        field_parsed(text, minimum, maximum, names, sunday_alias, f),
    ensures
        forall|i: int|
            0 <= i < f.values@.len() ==> #[trigger] f.values@[i] <= maximum && (sunday_alias
                ==> f.values@[i] != 7) && (!sunday_alias ==> f.values@[i] >= minimum),
{
    let parts = split_on(text, ',');
    assert forall|i: int| 0 <= i < f.values@.len() implies #[trigger] f.values@[i] <= maximum && (
    sunday_alias ==> f.values@[i] != 7) && (!sunday_alias ==> f.values@[i] >= minimum) by {
        let v = f.values@[i];
        assert(f.values@.contains(v));
        assert(in_parts(v as nat, parts, minimum, maximum, names, sunday_alias));
        let k = choose|k: int|
            0 <= k < parts.len() && (#[trigger] part_range(
                parts[k],
                minimum,
                maximum,
                names,
            ) matches Some((a, b, st)) && in_range_values(v as nat, a, b, st, sunday_alias));
        let (a, b, st) = part_range(parts[k], minimum, maximum, names)->0;
        lemma_in_range_values(v as nat, a, b, st, sunday_alias);
    }
}

/// Parsed POSIX five-field cron expression.
#[derive(Debug)]
pub struct CronSchedule {
    original: String,
    minutes: Field,
    hours: Field,
    days_of_month: Field,
    months: Field,
    days_of_week: Field,
}

impl View for CronSchedule {
    /// The expression text, and the minute, hour, day-of-month, month and
    /// day-of-week fields.
    type V = (Seq<char>, Seq<Field>);

    closed spec fn view(&self) -> (Seq<char>, Seq<Field>) {
        (
            self.original@,
            seq![self.minutes, self.hours, self.days_of_month, self.months, self.days_of_week],
        )
    }
}

fn weekdays_of(values: &Vec<u8>) -> (r: Vec<Weekday>)
    requires
        forall|i: int| 0 <= i < values.len() ==> #[trigger] values@[i] < 7,
    ensures
        weekdays_are(r@, values@),
{
    let mut r: Vec<Weekday> = Vec::new();
    let mut i: usize = 0;
    while i < values.len()
        invariant
            i <= values.len(),
            forall|k: int| 0 <= k < values.len() ==> #[trigger] values@[k] < 7,
            r@.len() == i,
            forall|k: int| 0 <= k < i ==> weekday_index(#[trigger] r@[k]) == values@[k],
        decreases values.len() - i,
    {
        assert(values@[i as int] < 7);
        r.push(weekday_at(values[i]));
        i += 1;
    }
    r
}

fn months_of(values: &Vec<u8>) -> (r: Vec<Month>)
    requires
        forall|i: int| 0 <= i < values.len() ==> 1 <= #[trigger] values@[i] <= 12,
    ensures
        months_are(r@, values@),
{
    let mut r: Vec<Month> = Vec::new();
    let mut i: usize = 0;
    while i < values.len()
        invariant
            i <= values.len(),
            forall|k: int| 0 <= k < values.len() ==> 1 <= #[trigger] values@[k] <= 12,
            r@.len() == i,
            forall|k: int| 0 <= k < i ==> month_index(#[trigger] r@[k]) + 1 == values@[k],
        decreases values.len() - i,
    {
        assert(1 <= values@[i as int] <= 12);
        r.push(month_at(values[i] - 1));
        i += 1;
    }
    r
}

fn copy_bytes(values: &Vec<u8>) -> (r: Vec<u8>)
    ensures
        r@ == values@,
{
    let mut r: Vec<u8> = Vec::new();
    let mut i: usize = 0;
    while i < values.len()
        invariant
            i <= values.len(),
            r@ == values@.take(i as int),
        decreases values.len() - i,
    {
        r.push(values[i]);
        i += 1;
        proof {
            assert(r@ =~= values@.take(i as int));
        }
    }
    proof {
        assert(values@.take(i as int) =~= values@);
    }
    r
}

impl CronSchedule {
    #[verifier::type_invariant]
    spec fn parsed(self) -> bool {
        cron_parsed(
            self.original@,
            seq![self.minutes, self.hours, self.days_of_month, self.months, self.days_of_week],
        )
    }

    /// Parses `minute hour day-of-month month day-of-week` using POSIX DOM/DOW
    /// OR semantics. Lists, ranges, steps, and English month/day names work.
    pub fn parse(expression: &str) -> (r: Result<Self, ScheduleError>)
        ensures
            match r {
                Ok(c) => c@.0 == expression@ && cron_parsed(expression@, c@.1),
                Err(e) => !cron_text_ok(expression@) && e is Invalid,
            },
    {
        let chars = chars_of(expression);
        let words = split_words(chars.as_slice());
        let ghost w = ascii_words(expression@);
        proof {
            assert(words@.len() == w.len());
        }
        if words.len() != 5 {
            return Err(
                ScheduleError::Invalid(
                    "cron requires exactly five fields: minute hour day-of-month month day-of-week".to_owned(),
                ),
            );
        }
        proof {
            assert forall|k: int| 0 <= k < 5 implies #[trigger] words@[k]@ == w[k] by {
                assert(words@.map_values(|v: Vec<char>| v@)[k] == w[k]);
            }
            assert(names_view(Seq::<(&str, u8)>::empty()) =~= Seq::<(Seq<char>, u8)>::empty());
        }
        let no_names: Vec<(&str, u8)> = Vec::new();
        let month_names = month_names_exec();
        let weekday_names = weekday_names_exec();
        let minutes = parse_field(words[0].as_slice(), 0, 59, no_names.as_slice(), false)?;
        let hours = parse_field(words[1].as_slice(), 0, 23, no_names.as_slice(), false)?;
        let days_of_month = parse_field(words[2].as_slice(), 1, 31, no_names.as_slice(), false)?;
        let months = parse_field(words[3].as_slice(), 1, 12, month_names.as_slice(), false)?;
        let days_of_week = parse_field(words[4].as_slice(), 0, 7, weekday_names.as_slice(), true)?;
        Ok(
            CronSchedule {
                original: expression.to_owned(),
                minutes,
                hours,
                days_of_month,
                months,
                days_of_week,
            },
        )
    }

    /// Returns the original normalized expression text.
    pub fn as_str(&self) -> (s: &str)
        ensures
            s@ == self@.0,
    {
        self.original.as_str()
    }

    /// Compiles this expression to native calendar triggers anchored to the
    /// date and offset of `first`. It fails instead of approximating or
    /// producing duplicate runs.
    pub fn compile(&self, first: &TaskDateTime) -> (r: Result<Vec<Trigger>, ScheduleError>)
        ensures
            compile_outcome(self@.1, first@.0, r),
    {
        if !self.days_of_month.wildcard && !self.days_of_week.wildcard {
            return Err(
                ScheduleError::NotRepresentable {
                    reason: "POSIX OR semantics for simultaneous day-of-month and day-of-week restrictions would duplicate overlapping runs".to_owned(),
                    required_triggers: None,
                },
            );
        }
        let ghost f = self@.1;
        let ghost anchor = first@.0;
        let ghost hs = self.hours.values@;
        let ghost ms = self.minutes.values@;
        let ghost pairs = time_pairs(hs, ms);
        let mut triggers: Vec<Trigger> = Vec::new();
        let mut hi: usize = 0;
        proof {
            assert(hs.take(0) =~= Seq::<u8>::empty());
            use_type_invariant(self);
            let w = ascii_words(self.original@);
            lemma_field_bounds(w[0], 0, 59, Seq::empty(), false, self.minutes);
            lemma_field_bounds(w[1], 0, 23, Seq::empty(), false, self.hours);
            lemma_increasing_len(ms, 59);
            lemma_increasing_len(hs, 23);
        }
        while hi < self.hours.values.len()
            invariant
                f == self@.1,
                anchor == first@.0,
                hs == self.hours.values@,
                ms == self.minutes.values@,
                pairs == time_pairs(hs, ms),
                hs.len() <= 24,
                ms.len() <= 60,
                f[2].wildcard || f[4].wildcard,
                hi <= hs.len(),
                triggers@.len() == time_pairs(hs.take(hi as int), ms).len(),
                triggers@.len() <= MAX_TRIGGERS,
                forall|k: int|
                    0 <= k < triggers@.len() ==> boundary_ok(anchor, #[trigger] pairs[k].0 as nat, pairs[k].1 as nat),
                forall|k: int|
                    0 <= k < triggers@.len() ==> calendar_trigger_ok(
                        f,
                        #[trigger] triggers@[k],
                        boundary_view(anchor, pairs[k].0 as nat, pairs[k].1 as nat),
                    ),
            decreases hs.len() - hi,
        {
            let h = self.hours.values[hi];
            let ghost base = triggers@.len();
            proof {
                lemma_time_pairs_prefix(hs, ms, hi + 1);
                assert(hs.take(hi + 1).drop_last() =~= hs.take(hi as int));
                assert(hs.take(hi + 1).last() == h);
                let nxt = time_pairs(hs.take(hi + 1), ms);
                assert(nxt == time_pairs(hs.take(hi as int), ms) + ms.map_values(|m: u8| (h, m)));
                assert forall|j: int| 0 <= j < ms.len() implies #[trigger] pairs[base + j] == (h, ms[j]) by {
                    assert(nxt[base + j] == (h, ms[j]));
                }
                assert(nxt.len() == base + ms.len());
            }
            let mut mi: usize = 0;
            while mi < self.minutes.values.len()
                invariant
                    f == self@.1,
                    anchor == first@.0,
                    hs == self.hours.values@,
                    ms == self.minutes.values@,
                    pairs == time_pairs(hs, ms),
                    hs.len() <= 24,
                    ms.len() <= 60,
                    f[2].wildcard || f[4].wildcard,
                    hi < hs.len(),
                    h == hs[hi as int],
                    mi <= ms.len(),
                    base == time_pairs(hs.take(hi as int), ms).len(),
                    base + ms.len() == time_pairs(hs.take(hi + 1), ms).len(),
                    time_pairs(hs.take(hi + 1), ms).len() <= pairs.len(),
                    forall|j: int| 0 <= j < ms.len() ==> #[trigger] pairs[base + j] == (h, ms[j]),
                    triggers@.len() == base + mi,
                    triggers@.len() <= MAX_TRIGGERS,
                    forall|k: int|
                        0 <= k < triggers@.len() ==> boundary_ok(anchor, #[trigger] pairs[k].0 as nat, pairs[k].1 as nat),
                    forall|k: int|
                        0 <= k < triggers@.len() ==> calendar_trigger_ok(
                            f,
                            #[trigger] triggers@[k],
                            boundary_view(anchor, pairs[k].0 as nat, pairs[k].1 as nat),
                        ),
                decreases ms.len() - mi,
            {
                let m = self.minutes.values[mi];
                proof {
                    assert(pairs[base + mi] == (h, ms[mi as int]));
                }
                let boundary = match boundary_at(first, h, m) {
                    Ok(b) => b,
                    Err(e) => {
                        proof {
                            let k = triggers@.len() as int;
                            assert(!boundary_ok(anchor, pairs[k].0 as nat, pairs[k].1 as nat));
                        }
                        return Err(e);
                    },
                };
                let ghost old_triggers = triggers@;
                triggers.push(self.calendar_trigger(boundary));
                proof {
                    assert forall|k: int| 0 <= k < triggers@.len() implies calendar_trigger_ok(
                        f,
                        #[trigger] triggers@[k],
                        boundary_view(anchor, pairs[k].0 as nat, pairs[k].1 as nat),
                    ) by {
                        if k < old_triggers.len() {
                            assert(triggers@[k] == old_triggers[k]);
                        }
                    }
                }
                if triggers.len() > MAX_TRIGGERS {
                    let hour_count = self.hours.values.len();
                    let minute_count = self.minutes.values.len();
                    proof {
                        lemma_time_pairs_len(hs, ms);
                        assert(hour_count * minute_count <= 24 * 60) by (nonlinear_arith)
                            requires
                                hour_count <= 24,
                                minute_count <= 60,
                        ;
                    }
                    return Err(
                        ScheduleError::NotRepresentable {
                            reason: "expanded time selections exceed Task Scheduler's trigger limit".to_owned(),
                            required_triggers: Some(hour_count * minute_count),
                        },
                    );
                }
                mi += 1;
            }
            hi += 1;
        }
        proof {
            assert(hs.take(hi as int) =~= hs);
        }
        Ok(triggers)
    }

    fn calendar_trigger(&self, boundary: TaskDateTime) -> (t: Trigger)
        ensures
            calendar_trigger_ok(self@.1, t, boundary@),
    {
        proof {
            use_type_invariant(self);
            let w = ascii_words(self.original@);
            lemma_field_bounds(w[3], 1, 12, month_names(), false, self.months);
            lemma_field_bounds(w[4], 0, 7, weekday_names(), true, self.days_of_week);
        }
        let ghost b = boundary@;
        let common = TriggerCommon::starting_at(boundary);
        if self.days_of_month.wildcard && self.days_of_week.wildcard && self.months.wildcard {
            return Trigger::Daily(DailyTrigger { common, days_interval: 1, random_delay: None });
        }
        if !self.days_of_week.wildcard && self.months.wildcard {
            return Trigger::Weekly(
                WeeklyTrigger {
                    common,
                    weeks_interval: 1,
                    days_of_week: weekdays_of(&self.days_of_week.values),
                    random_delay: None,
                },
            );
        }
        if !self.days_of_week.wildcard {
            let weeks = vec![week_at(0), week_at(1), week_at(2), week_at(3)];
            return Trigger::MonthlyDow(
                MonthlyDowTrigger {
                    common,
                    weeks_of_month: weeks,
                    days_of_week: weekdays_of(&self.days_of_week.values),
                    months: months_of(&self.months.values),
                    run_on_last_week: true,
                    random_delay: None,
                },
            );
        }
        Trigger::Monthly(
            MonthlyTrigger {
                common,
                days_of_month: copy_bytes(&self.days_of_month.values),
                months: months_of(&self.months.values),
                run_on_last_day: false,
                random_delay: None,
            },
        )
    }
}

} // verus!

verus! {

impl std::str::FromStr for CronSchedule {
    type Err = ScheduleError;

    fn from_str(value: &str) -> Result<Self, ScheduleError> {
        CronSchedule::parse(value)
    }
}

} // verus!
