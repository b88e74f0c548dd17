//! Triggers: what makes a task start.
use vstd::prelude::*;

use crate::model::time::{TaskDateTime, TaskDuration, TaskLimit};

verus! {

broadcast use vstd::string::group_string_axioms;

/// Settings shared by every trigger. An omitted `Enabled` element in Task
/// XML means enabled, and so does the default here.
#[derive(Clone, Debug, Eq, PartialEq)]
pub struct TriggerCommon {
    /// Optional identifier, unique within the task.
    pub id: Option<String>,
    /// First boundary at which the trigger can fire.
    pub start_boundary: Option<TaskDateTime>,
    /// Last boundary at which the trigger can fire.
    pub end_boundary: Option<TaskDateTime>,
    /// Whether the trigger participates in scheduling.
    pub enabled: bool,
    /// Per-trigger execution time limit.
    pub execution_time_limit: Option<TaskLimit>,
    /// Optional repeated execution after each firing.
    pub repetition: Option<Repetition>,
}

/// The default common settings: enabled, with nothing else set.
pub open spec fn is_default_common(c: TriggerCommon) -> bool {
    &&& c.id is None
    &&& c.start_boundary is None
    &&& c.end_boundary is None
    &&& c.enabled
    &&& c.execution_time_limit is None
    &&& c.repetition is None
}

/// Default common settings starting at `at`.
pub open spec fn starts_at(c: TriggerCommon, at: TaskDateTime) -> bool {
    &&& c.id is None
    &&& c.start_boundary == Some(at)
    &&& c.end_boundary is None
    &&& c.enabled
    &&& c.execution_time_limit is None
    &&& c.repetition is None
}

impl Default for TriggerCommon {
    /// Mirrors the Task XML schema: an omitted `Enabled` element is enabled.
    fn default() -> (c: Self)
        ensures
            is_default_common(c),
    {
        TriggerCommon {
            id: None,
            start_boundary: None,
            end_boundary: None,
            enabled: true,
            execution_time_limit: None,
            repetition: None,
        }
    }
}

impl TriggerCommon {
    /// Creates common settings starting at `at`.
    pub fn starting_at(at: TaskDateTime) -> (c: Self)
        ensures
            starts_at(c, at),
    {
        TriggerCommon {
            id: None,
            start_boundary: Some(at),
            end_boundary: None,
            enabled: true,
            execution_time_limit: None,
            repetition: None,
        }
    }
}

/// Repetition applied after a trigger fires.
#[derive(Clone, Copy, Debug, Eq, PartialEq)]
pub struct Repetition {
    /// Non-zero interval between repetitions.
    pub interval: TaskDuration,
    /// Optional repetition window; `None` means indefinite.
    pub duration: Option<TaskDuration>,
    /// Stops an executing instance when the repetition window ends.
    pub stop_at_duration_end: bool,
}

/// A boot trigger.
#[derive(Clone, Debug, Eq, PartialEq)]
pub struct BootTrigger {
    /// Shared trigger settings.
    pub common: TriggerCommon,
    /// Delay after boot.
    pub delay: Option<TaskDuration>,
}

impl BootTrigger {
    /// Creates an enabled trigger that fires after system boot.
    pub fn new() -> (t: Self)
        ensures
            is_default_common(t.common),
            t.delay is None,
    {
        BootTrigger { common: TriggerCommon::default(), delay: None }
    }
}

/// A registration trigger.
#[derive(Clone, Debug, Eq, PartialEq)]
pub struct RegistrationTrigger {
    /// Shared trigger settings.
    pub common: TriggerCommon,
    /// Delay after registration or update.
    pub delay: Option<TaskDuration>,
}

impl RegistrationTrigger {
    /// Creates an enabled trigger that fires after registration or update.
    pub fn new() -> (t: Self)
        ensures
            is_default_common(t.common),
            t.delay is None,
    {
        RegistrationTrigger { common: TriggerCommon::default(), delay: None }
    }
}

/// An idle trigger.
#[derive(Clone, Debug, Eq, PartialEq)]
pub struct IdleTrigger {
    /// Shared trigger settings.
    pub common: TriggerCommon,
}

impl IdleTrigger {
    /// Creates an enabled trigger that fires when the computer becomes idle.
    pub fn new() -> (t: Self)
        ensures
            is_default_common(t.common),
    {
        IdleTrigger { common: TriggerCommon::default() }
    }
}

/// A one-time trigger.
#[derive(Clone, Debug, Eq, PartialEq)]
pub struct TimeTrigger {
    /// Shared trigger settings, including a required start boundary.
    pub common: TriggerCommon,
    /// Maximum random delay.
    pub random_delay: Option<TaskDuration>,
}

impl TimeTrigger {
    /// Creates an enabled one-time trigger at the required start boundary.
    pub fn new(at: TaskDateTime) -> (t: Self)
        ensures
            starts_at(t.common, at),
            t.random_delay is None,
    {
        TimeTrigger { common: TriggerCommon::starting_at(at), random_delay: None }
    }
}

/// Whether the keys of a list of pairs are in strictly increasing
/// lexicographic order.
pub open spec fn keys_strictly_sorted(entries: Seq<(Seq<char>, Seq<char>)>) -> bool {
    forall|i: int, j: int| 0 <= i < j < entries.len() ==> seq_less(entries[i].0, entries[j].0)
}

/// Lexicographic order of character sequences by code point.
pub open spec fn seq_less(a: Seq<char>, b: Seq<char>) -> bool
    decreases a.len(),
{
    if a.len() == 0 {
        b.len() > 0
    } else if b.len() == 0 {
        false
    } else if a[0] != b[0] {
        (a[0] as u32) < (b[0] as u32)
    } else {
        seq_less(a.drop_first(), b.drop_first())
    }
}

/// A Windows Event Log subscription trigger.
#[derive(Clone, Debug, Eq, PartialEq)]
pub struct EventTrigger {
    /// Shared trigger settings.
    pub common: TriggerCommon,
    /// XPath event subscription.
    pub subscription: String,
    /// Named XPath value queries exposed as task variables, ordered by name
    /// with each name once.
    pub value_queries: Vec<(String, String)>,
    /// Delay after a matching event.
    pub delay: Option<TaskDuration>,
    /// Event matching period.
    pub period_of_occurrence: Option<TaskDuration>,
    /// Number of matching events required in the period.
    pub number_of_occurrences: Option<u32>,
    /// Maximum wait for the occurrence pattern.
    pub matching_element: Option<String>,
}

impl EventTrigger {
    /// Creates an enabled trigger for one Windows Event Log XPath subscription.
    pub fn new(subscription: &str) -> (t: Self)
        ensures
            is_default_common(t.common),
            t.subscription@ == subscription@,
            t.value_queries@.len() == 0,
            t.delay is None,
            t.period_of_occurrence is None,
            t.number_of_occurrences is None,
            t.matching_element is None,
    {
        EventTrigger {
            common: TriggerCommon::default(),
            subscription: subscription.to_owned(),
            value_queries: Vec::new(),
            delay: None,
            period_of_occurrence: None,
            number_of_occurrences: None,
            matching_element: None,
        }
    }
}

/// A user logon trigger.
#[derive(Clone, Debug, Eq, PartialEq)]
pub struct LogonTrigger {
    /// Shared trigger settings.
    pub common: TriggerCommon,
    /// Optional user or group; `None` means any user.
    pub user_id: Option<String>,
    /// Delay after logon.
    pub delay: Option<TaskDuration>,
}

impl LogonTrigger {
    /// Creates an enabled trigger that fires when any user logs on.
    pub fn new() -> (t: Self)
        ensures
            is_default_common(t.common),
            t.user_id is None,
            t.delay is None,
    {
        LogonTrigger { common: TriggerCommon::default(), user_id: None, delay: None }
    }
}

/// A Terminal Services session state.
#[derive(Clone, Copy, Debug, Eq, Hash, Ord, PartialEq, PartialOrd, Structural)]
pub enum SessionStateChange {
    /// A console connection occurred.
    ConsoleConnect,
    /// A console disconnect occurred.
    ConsoleDisconnect,
    /// A remote connection occurred.
    RemoteConnect,
    /// A remote disconnect occurred.
    RemoteDisconnect,
    /// The workstation became locked.
    SessionLock,
    /// The workstation became unlocked.
    SessionUnlock,
}

/// A session-state-change trigger.
#[derive(Clone, Debug, Eq, PartialEq)]
pub struct SessionStateChangeTrigger {
    /// Shared trigger settings.
    pub common: TriggerCommon,
    /// State transition that fires the task.
    pub state_change: SessionStateChange,
    /// Optional user filter.
    pub user_id: Option<String>,
    /// Delay after the transition.
    pub delay: Option<TaskDuration>,
}

impl SessionStateChangeTrigger {
    /// Creates an enabled trigger for one Terminal Services state change.
    pub fn new(state_change: SessionStateChange) -> (t: Self)
        ensures
            is_default_common(t.common),
            t.state_change == state_change,
            t.user_id is None,
            t.delay is None,
    {
        SessionStateChangeTrigger {
            common: TriggerCommon::default(),
            state_change,
            user_id: None,
            delay: None,
        }
    }
}

/// Day of the week used by calendar triggers.
#[derive(Clone, Copy, Debug, Eq, Hash, Ord, PartialEq, PartialOrd, Structural)]
pub enum Weekday {
    /// Sunday.
    Sunday,
    /// Monday.
    Monday,
    /// Tuesday.
    Tuesday,
    /// Wednesday.
    Wednesday,
    /// Thursday.
    Thursday,
    /// Friday.
    Friday,
    /// Saturday.
    Saturday,
}

/// Calendar month.
#[derive(Clone, Copy, Debug, Eq, Hash, Ord, PartialEq, PartialOrd, Structural)]
pub enum Month {
    /// January.
    January,
    /// February.
    February,
    /// March.
    March,
    /// April.
    April,
    /// May.
    May,
    /// June.
    June,
    /// July.
    July,
    /// August.
    August,
    /// September.
    September,
    /// October.
    October,
    /// November.
    November,
    /// December.
    December,
}

/// Week ordinal used by a monthly day-of-week trigger.
#[derive(Clone, Copy, Debug, Eq, Hash, Ord, PartialEq, PartialOrd, Structural)]
pub enum WeekOfMonth {
    /// First matching day.
    First,
    /// Second matching day.
    Second,
    /// Third matching day.
    Third,
    /// Fourth matching day.
    Fourth,
}

/// Position of a weekday, Sunday first.
pub open spec fn weekday_index(d: Weekday) -> nat {
    match d {
        Weekday::Sunday => 0,
        Weekday::Monday => 1,
        Weekday::Tuesday => 2,
        Weekday::Wednesday => 3,
        Weekday::Thursday => 4,
        Weekday::Friday => 5,
        Weekday::Saturday => 6,
    }
}

/// Position of a month, January first.
pub open spec fn month_index(m: Month) -> nat {
    match m {
        Month::January => 0,
        Month::February => 1,
        Month::March => 2,
        Month::April => 3,
        Month::May => 4,
        Month::June => 5,
        Month::July => 6,
        Month::August => 7,
        Month::September => 8,
        Month::October => 9,
        Month::November => 10,
        Month::December => 11,
    }
}

/// Position of a week ordinal, first week first.
pub open spec fn week_index(w: WeekOfMonth) -> nat {
    match w {
        WeekOfMonth::First => 0,
        WeekOfMonth::Second => 1,
        WeekOfMonth::Third => 2,
        WeekOfMonth::Fourth => 3,
    }
}

/// Whether weekdays are listed in strictly increasing order (so each once).
pub open spec fn weekdays_ordered(s: Seq<Weekday>) -> bool {
    forall|i: int, j: int| 0 <= i < j < s.len() ==> weekday_index(s[i]) < weekday_index(s[j])
}

/// Whether months are listed in strictly increasing order.
pub open spec fn months_ordered(s: Seq<Month>) -> bool {
    forall|i: int, j: int| 0 <= i < j < s.len() ==> month_index(s[i]) < month_index(s[j])
}

/// Whether week ordinals are listed in strictly increasing order.
pub open spec fn weeks_ordered(s: Seq<WeekOfMonth>) -> bool {
    forall|i: int, j: int| 0 <= i < j < s.len() ==> week_index(s[i]) < week_index(s[j])
}

/// Whether day numbers are listed in strictly increasing order.
pub open spec fn days_ordered(s: Seq<u8>) -> bool {
    forall|i: int, j: int| 0 <= i < j < s.len() ==> s[i] < s[j]
}

/// The weekday at a position, Sunday first.
pub fn weekday_at(i: u8) -> (d: Weekday)
    requires
        i < 7,
    ensures
        weekday_index(d) == i,
{
    match i {
        0 => Weekday::Sunday,
        1 => Weekday::Monday,
        2 => Weekday::Tuesday,
        3 => Weekday::Wednesday,
        4 => Weekday::Thursday,
        5 => Weekday::Friday,
        _ => Weekday::Saturday,
    }
}

/// The month at a position, January first.
pub fn month_at(i: u8) -> (m: Month)
    requires
        i < 12,
    ensures
        month_index(m) == i,
{
    match i {
        0 => Month::January,
        1 => Month::February,
        2 => Month::March,
        3 => Month::April,
        4 => Month::May,
        5 => Month::June,
        6 => Month::July,
        7 => Month::August,
        8 => Month::September,
        9 => Month::October,
        10 => Month::November,
        _ => Month::December,
    }
}

/// The week ordinal at a position, first week first.
pub fn week_at(i: u8) -> (w: WeekOfMonth)
    requires
        i < 4,
    ensures
        week_index(w) == i,
{
    match i {
        0 => WeekOfMonth::First,
        1 => WeekOfMonth::Second,
        2 => WeekOfMonth::Third,
        _ => WeekOfMonth::Fourth,
    }
}

/// Position of a weekday.
pub fn weekday_pos(d: Weekday) -> (i: u8)
    ensures
        i == weekday_index(d),
{
    match d {
        Weekday::Sunday => 0,
        Weekday::Monday => 1,
        Weekday::Tuesday => 2,
        Weekday::Wednesday => 3,
        Weekday::Thursday => 4,
        Weekday::Friday => 5,
        Weekday::Saturday => 6,
    }
}

/// Position of a month.
pub fn month_pos(m: Month) -> (i: u8)
    ensures
        i == month_index(m),
{
    match m {
        Month::January => 0,
        Month::February => 1,
        Month::March => 2,
        Month::April => 3,
        Month::May => 4,
        Month::June => 5,
        Month::July => 6,
        Month::August => 7,
        Month::September => 8,
        Month::October => 9,
        Month::November => 10,
        Month::December => 11,
    }
}

/// Position of a week ordinal.
pub fn week_pos(w: WeekOfMonth) -> (i: u8)
    ensures
        i == week_index(w),
{
    match w {
        WeekOfMonth::First => 0,
        WeekOfMonth::Second => 1,
        WeekOfMonth::Third => 2,
        WeekOfMonth::Fourth => 3,
    }
}

proof fn lemma_weekday_injective(a: Weekday, b: Weekday)
    ensures
        weekday_index(a) == weekday_index(b) ==> a == b,
{
}

proof fn lemma_month_injective(a: Month, b: Month)
    ensures
        month_index(a) == month_index(b) ==> a == b,
{
}

proof fn lemma_week_injective(a: WeekOfMonth, b: WeekOfMonth)
    ensures
        week_index(a) == week_index(b) ==> a == b,
{
}

/// The distinct weekdays of `days` in order, Sunday first.
pub fn weekday_set(days: &[Weekday]) -> (r: Vec<Weekday>)
    ensures
        weekdays_ordered(r@),
        r@.to_set() == days@.to_set(),
{
    let mut r: Vec<Weekday> = Vec::new();
    let mut i: u8 = 0;
    while i < 7
        invariant
            i <= 7,
            forall|a: int, b: int| 0 <= a < b < r@.len() ==> weekday_index(r@[a]) < weekday_index(r@[b]),
            forall|a: int| 0 <= a < r@.len() ==> weekday_index(#[trigger] r@[a]) < i,
            forall|d: Weekday| r@.contains(d) <==> (days@.contains(d) && weekday_index(d) < i),
        decreases 7 - i,
    {
        let wanted = weekday_at(i);
        let mut found = false;
        let mut k: usize = 0;
        while k < days.len()
            invariant
                k <= days.len(),
                weekday_index(wanted) == i,
                found <==> exists|j: int| 0 <= j < k && days@[j] == wanted,
            decreases days.len() - k,
        {
            if weekday_pos(days[k]) == i {
                proof {
                    lemma_weekday_injective(days@[k as int], wanted);
                }
                found = true;
            }
            k += 1;
        }
        let ghost old_r = r@;
        if found {
            r.push(wanted);
        }
        proof {
            assert forall|d: Weekday| r@.contains(d) <==> (days@.contains(d) && weekday_index(d) < i + 1) by {
                lemma_weekday_injective(d, wanted);
                if r@.contains(d) && !old_r.contains(d) {
                    let j = choose|j: int| 0 <= j < r@.len() && r@[j] == d;
                    if j < old_r.len() {
                        assert(old_r[j] == d);
                    }
                }
                if old_r.contains(d) {
                    let j = choose|j: int| 0 <= j < old_r.len() && old_r[j] == d;
                    assert(r@[j] == d);
                }
                if days@.contains(d) && weekday_index(d) == i {
                    let j = choose|j: int| 0 <= j < days@.len() && days@[j] == d;
                    assert(found);
                    assert(r@[r@.len() - 1] == d);
                }
            }
        }
        i += 1;
    }
    proof {
        assert forall|d: Weekday| r@.to_set().contains(d) <==> days@.to_set().contains(d) by {
            assert(weekday_index(d) < 7);
        }
        assert(r@.to_set() =~= days@.to_set());
    }
    r
}

/// The distinct months of `months` in order, January first.
pub fn month_set(months: &[Month]) -> (r: Vec<Month>)
    ensures
        months_ordered(r@),
        r@.to_set() == months@.to_set(),
{
    let mut r: Vec<Month> = Vec::new();
    let mut i: u8 = 0;
    while i < 12
        invariant
            i <= 12,
            forall|a: int, b: int| 0 <= a < b < r@.len() ==> month_index(r@[a]) < month_index(r@[b]),
            forall|a: int| 0 <= a < r@.len() ==> month_index(#[trigger] r@[a]) < i,
            forall|d: Month| r@.contains(d) <==> (months@.contains(d) && month_index(d) < i),
        decreases 12 - i,
    {
        let wanted = month_at(i);
        let mut found = false;
        let mut k: usize = 0;
        while k < months.len()
            invariant
                k <= months.len(),
                month_index(wanted) == i,
                found <==> exists|j: int| 0 <= j < k && months@[j] == wanted,
            decreases months.len() - k,
        {
            if month_pos(months[k]) == i {
                proof {
                    lemma_month_injective(months@[k as int], wanted);
                }
                found = true;
            }
            k += 1;
        }
        let ghost old_r = r@;
        if found {
            r.push(wanted);
        }
        proof {
            assert forall|d: Month| r@.contains(d) <==> (months@.contains(d) && month_index(d) < i + 1) by {
                lemma_month_injective(d, wanted);
                if r@.contains(d) && !old_r.contains(d) {
                    let j = choose|j: int| 0 <= j < r@.len() && r@[j] == d;
                    if j < old_r.len() {
                        assert(old_r[j] == d);
                    }
                }
                if old_r.contains(d) {
                    let j = choose|j: int| 0 <= j < old_r.len() && old_r[j] == d;
                    assert(r@[j] == d);
                }
                if months@.contains(d) && month_index(d) == i {
                    let j = choose|j: int| 0 <= j < months@.len() && months@[j] == d;
                    assert(found);
                    assert(r@[r@.len() - 1] == d);
                }
            }
        }
        i += 1;
    }
    proof {
        assert forall|d: Month| r@.to_set().contains(d) <==> months@.to_set().contains(d) by {
            assert(month_index(d) < 12);
        }
        assert(r@.to_set() =~= months@.to_set());
    }
    r
}

/// The distinct week ordinals of `weeks` in order.
pub fn week_set(weeks: &[WeekOfMonth]) -> (r: Vec<WeekOfMonth>)
    ensures
        weeks_ordered(r@),
        r@.to_set() == weeks@.to_set(),
{
    let mut r: Vec<WeekOfMonth> = Vec::new();
    let mut i: u8 = 0;
    while i < 4
        invariant
            i <= 4,
            forall|a: int, b: int| 0 <= a < b < r@.len() ==> week_index(r@[a]) < week_index(r@[b]),
            forall|a: int| 0 <= a < r@.len() ==> week_index(#[trigger] r@[a]) < i,
            forall|d: WeekOfMonth| r@.contains(d) <==> (weeks@.contains(d) && week_index(d) < i),
        decreases 4 - i,
    {
        let wanted = week_at(i);
        let mut found = false;
        let mut k: usize = 0;
        while k < weeks.len()
            invariant
                k <= weeks.len(),
                week_index(wanted) == i,
                found <==> exists|j: int| 0 <= j < k && weeks@[j] == wanted,
            decreases weeks.len() - k,
        {
            if week_pos(weeks[k]) == i {
                proof {
                    lemma_week_injective(weeks@[k as int], wanted);
                }
                found = true;
            }
            k += 1;
        }
        let ghost old_r = r@;
        if found {
            r.push(wanted);
        }
        proof {
            assert forall|d: WeekOfMonth| r@.contains(d) <==> (weeks@.contains(d) && week_index(d) < i + 1) by {
                lemma_week_injective(d, wanted);
                if r@.contains(d) && !old_r.contains(d) {
                    let j = choose|j: int| 0 <= j < r@.len() && r@[j] == d;
                    if j < old_r.len() {
                        assert(old_r[j] == d);
                    }
                }
                if old_r.contains(d) {
                    let j = choose|j: int| 0 <= j < old_r.len() && old_r[j] == d;
                    assert(r@[j] == d);
                }
                if weeks@.contains(d) && week_index(d) == i {
                    let j = choose|j: int| 0 <= j < weeks@.len() && weeks@[j] == d;
                    assert(found);
                    assert(r@[r@.len() - 1] == d);
                }
            }
        }
        i += 1;
    }
    proof {
        assert forall|d: WeekOfMonth| r@.to_set().contains(d) <==> weeks@.to_set().contains(d) by {
            assert(week_index(d) < 4);
        }
        assert(r@.to_set() =~= weeks@.to_set());
    }
    r
}

/// The distinct numbers of `days` in increasing order.
pub fn day_set(days: &[u8]) -> (r: Vec<u8>)
    ensures
        days_ordered(r@),
        r@.to_set() == days@.to_set(),
{
    let mut r: Vec<u8> = Vec::new();
    let mut i: u16 = 0;
    while i < 256
        invariant
            i <= 256,
            forall|a: int, b: int| 0 <= a < b < r@.len() ==> r@[a] < r@[b],
            forall|a: int| 0 <= a < r@.len() ==> (#[trigger] r@[a]) < i,
            forall|d: u8| r@.contains(d) <==> (days@.contains(d) && d < i),
        decreases 256 - i,
    {
        let wanted = i as u8;
        let mut found = false;
        let mut k: usize = 0;
        while k < days.len()
            invariant
                k <= days.len(),
                wanted == i,
                found <==> exists|j: int| 0 <= j < k && days@[j] == wanted,
            decreases days.len() - k,
        {
            if days[k] == wanted {
                found = true;
            }
            k += 1;
        }
        let ghost old_r = r@;
        if found {
            r.push(wanted);
        }
        proof {
            assert forall|d: u8| r@.contains(d) <==> (days@.contains(d) && d < i + 1) by {
                if r@.contains(d) && !old_r.contains(d) {
                    let j = choose|j: int| 0 <= j < r@.len() && r@[j] == d;
                    if j < old_r.len() {
                        assert(old_r[j] == d);
                    }
                }
                if old_r.contains(d) {
                    let j = choose|j: int| 0 <= j < old_r.len() && old_r[j] == d;
                    assert(r@[j] == d);
                }
                if days@.contains(d) && d == i {
                    let j = choose|j: int| 0 <= j < days@.len() && days@[j] == d;
                    assert(found);
                    assert(r@[r@.len() - 1] == d);
                }
            }
        }
        i += 1;
    }
    proof {
        assert(r@.to_set() =~= days@.to_set());
    }
    r
}

/// A daily calendar trigger.
#[derive(Clone, Debug, Eq, PartialEq)]
pub struct DailyTrigger {
    /// Shared trigger settings.
    pub common: TriggerCommon,
    /// Number of days between firings; must be at least one.
    pub days_interval: u16,
    /// Maximum random delay.
    pub random_delay: Option<TaskDuration>,
}

impl DailyTrigger {
    /// Creates an enabled trigger that fires every day from `first`.
    pub fn new(first: TaskDateTime) -> (t: Self)
        ensures
            starts_at(t.common, first),
            t.days_interval == 1,
            t.random_delay is None,
    {
        DailyTrigger { common: TriggerCommon::starting_at(first), days_interval: 1, random_delay: None }
    }
}

/// A weekly calendar trigger.
#[derive(Clone, Debug, Eq, PartialEq)]
pub struct WeeklyTrigger {
    /// Shared trigger settings.
    pub common: TriggerCommon,
    /// Number of weeks between firings; must be at least one.
    pub weeks_interval: u16,
    /// Days that fire within each selected week, Sunday first, each once.
    pub days_of_week: Vec<Weekday>,
    /// Maximum random delay.
    pub random_delay: Option<TaskDuration>,
}

impl WeeklyTrigger {
    /// Creates an enabled trigger that fires on the selected weekdays of every
    /// week from `first`.
    pub fn new(first: TaskDateTime, days_of_week: &[Weekday]) -> (t: Self)
        ensures
            starts_at(t.common, first),
            t.weeks_interval == 1,
            weekdays_ordered(t.days_of_week@),
            t.days_of_week@.to_set() == days_of_week@.to_set(),
            t.random_delay is None,
    {
        WeeklyTrigger {
            common: TriggerCommon::starting_at(first),
            weeks_interval: 1,
            days_of_week: weekday_set(days_of_week),
            random_delay: None,
        }
    }
}

/// A monthly day-number trigger.
#[derive(Clone, Debug, Eq, PartialEq)]
pub struct MonthlyTrigger {
    /// Shared trigger settings.
    pub common: TriggerCommon,
    /// Selected day numbers in the range 1 through 31, increasing, each once.
    pub days_of_month: Vec<u8>,
    /// Selected months, January first, each once.
    pub months: Vec<Month>,
    /// Also fires on the last day of selected months.
    pub run_on_last_day: bool,
    /// Maximum random delay.
    pub random_delay: Option<TaskDuration>,
}

impl MonthlyTrigger {
    /// Creates an enabled trigger that fires on the selected day numbers of the
    /// selected months, at the time of day given by `first`.
    pub fn new(first: TaskDateTime, days_of_month: &[u8], months: &[Month]) -> (t: Self)
        ensures
            starts_at(t.common, first),
            days_ordered(t.days_of_month@),
            t.days_of_month@.to_set() == days_of_month@.to_set(),
            months_ordered(t.months@),
            t.months@.to_set() == months@.to_set(),
            !t.run_on_last_day,
            t.random_delay is None,
    {
        MonthlyTrigger {
            common: TriggerCommon::starting_at(first),
            days_of_month: day_set(days_of_month),
            months: month_set(months),
            run_on_last_day: false,
            random_delay: None,
        }
    }
}

/// A monthly day-of-week trigger.
#[derive(Clone, Debug, Eq, PartialEq)]
pub struct MonthlyDowTrigger {
    /// Shared trigger settings.
    pub common: TriggerCommon,
    /// Selected week ordinals, in order, each once.
    pub weeks_of_month: Vec<WeekOfMonth>,
    /// Selected weekdays, Sunday first, each once.
    pub days_of_week: Vec<Weekday>,
    /// Selected months, January first, each once.
    pub months: Vec<Month>,
    /// Also fires in the last matching week of each selected month.
    pub run_on_last_week: bool,
    /// Maximum random delay.
    pub random_delay: Option<TaskDuration>,
}

impl MonthlyDowTrigger {
    /// Creates an enabled trigger that fires on the selected weekdays within the
    /// selected week ordinals of the selected months, at the time of day given
    /// by `first`.
    pub fn new(
        first: TaskDateTime,
        weeks_of_month: &[WeekOfMonth],
        days_of_week: &[Weekday],
        months: &[Month],
    ) -> (t: Self)
        ensures
            starts_at(t.common, first),
            weeks_ordered(t.weeks_of_month@),
            t.weeks_of_month@.to_set() == weeks_of_month@.to_set(),
            weekdays_ordered(t.days_of_week@),
            t.days_of_week@.to_set() == days_of_week@.to_set(),
            months_ordered(t.months@),
            t.months@.to_set() == months@.to_set(),
            !t.run_on_last_week,
            t.random_delay is None,
    {
        MonthlyDowTrigger {
            common: TriggerCommon::starting_at(first),
            weeks_of_month: week_set(weeks_of_month),
            days_of_week: weekday_set(days_of_week),
            months: month_set(months),
            run_on_last_week: false,
            random_delay: None,
        }
    }
}

/// A future or custom trigger retained as XML.
#[derive(Clone, Debug, Eq, PartialEq)]
pub struct UnknownTrigger {
    /// XML local name.
    pub kind: String,
    /// Original XML element including start and end tags.
    pub xml: String,
}

/// A Task Scheduler trigger.
#[derive(Clone, Debug, Eq, PartialEq)]
pub enum Trigger {
    /// Starts after system boot.
    Boot(BootTrigger),
    /// Starts after task registration or update.
    Registration(RegistrationTrigger),
    /// Starts when the computer is idle.
    Idle(IdleTrigger),
    /// Starts once at a boundary, optionally with repetition.
    Time(TimeTrigger),
    /// Starts after a matching Windows event.
    Event(EventTrigger),
    /// Starts after user logon.
    Logon(LogonTrigger),
    /// Starts after a Terminal Services state change.
    SessionStateChange(SessionStateChangeTrigger),
    /// Starts on a daily cadence.
    Daily(DailyTrigger),
    /// Starts on a weekly cadence.
    Weekly(WeeklyTrigger),
    /// Starts on selected day numbers of selected months.
    Monthly(MonthlyTrigger),
    /// Starts on selected weekdays and week ordinals of selected months.
    MonthlyDow(MonthlyDowTrigger),
    /// A future or provider-specific trigger retained without interpretation.
    Unknown(UnknownTrigger),
}

/// Common settings of a trigger; unknown triggers have none.
pub open spec fn trigger_common(t: Trigger) -> Option<TriggerCommon> {
    match t {
        Trigger::Boot(v) => Some(v.common),
        Trigger::Registration(v) => Some(v.common),
        Trigger::Idle(v) => Some(v.common),
        Trigger::Time(v) => Some(v.common),
        Trigger::Event(v) => Some(v.common),
        Trigger::Logon(v) => Some(v.common),
        Trigger::SessionStateChange(v) => Some(v.common),
        Trigger::Daily(v) => Some(v.common),
        Trigger::Weekly(v) => Some(v.common),
        Trigger::Monthly(v) => Some(v.common),
        Trigger::MonthlyDow(v) => Some(v.common),
        Trigger::Unknown(_) => None,
    }
}

impl Trigger {
    /// Returns common settings for known trigger kinds.
    pub fn common(&self) -> (r: Option<&TriggerCommon>)
        ensures
            match r {
                Some(c) => trigger_common(*self) == Some(*c),
                None => trigger_common(*self) is None,
            },
    {
        match self {
            Trigger::Boot(value) => Some(&value.common),
            Trigger::Registration(value) => Some(&value.common),
            Trigger::Idle(value) => Some(&value.common),
            Trigger::Time(value) => Some(&value.common),
            Trigger::Event(value) => Some(&value.common),
            Trigger::Logon(value) => Some(&value.common),
            Trigger::SessionStateChange(value) => Some(&value.common),
            Trigger::Daily(value) => Some(&value.common),
            Trigger::Weekly(value) => Some(&value.common),
            Trigger::Monthly(value) => Some(&value.common),
            Trigger::MonthlyDow(value) => Some(&value.common),
            Trigger::Unknown(_) => None,
        }
    }
}

} // verus!
