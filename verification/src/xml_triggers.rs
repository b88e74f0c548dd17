//! Reading triggers from a parsed Task XML element tree.
use vstd::prelude::*;
use vstd::string::*;

use crate::error::{Error, ErrorKind};
use crate::history::{fields_map, fields_view, insert_field, keys_increasing};
use crate::model::trigger::{month_set, week_set, weekday_set, day_set};
use crate::model::{
    BootTrigger, DailyTrigger, EventTrigger, IdleTrigger, LogonTrigger, Month, MonthlyDowTrigger,
    MonthlyTrigger, RegistrationTrigger, Repetition, SessionStateChange, SessionStateChangeTrigger,
    TaskLimit, TimeTrigger, Trigger, TriggerCommon, Triggers, UnknownTrigger, WeekOfMonth, Weekday,
    WeeklyTrigger,
};
use crate::text::{opt_view, str_eq};
use crate::xml::Node;
use crate::xml_read::{
    attr_of, attribute, bool_default, bool_field, bool_or, child, child_bool, child_of, child_text,
    datetime_field, datetime_read, duration_field, duration_view, field_error, limit_text_value,
    limit_view, list_items, missing_error, named, named_positions, number_field, optional_datetime,
    optional_duration, owned_attribute, owned_text, parse_limit, parse_number_text, required_duration,
    required_duration_field, required_number, required_number_field, text_of, xml_error,
};

verus! {

broadcast use vstd::string::group_string_axioms;

// ---------------------------------------------------------------------------
// Settings shared by every trigger
// ---------------------------------------------------------------------------

/// Whether an optional limit is the one an optional limit text holds.
pub open spec fn opt_limit_read(o: Option<TaskLimit>, f: Option<Seq<char>>) -> bool {
    match (o, f) {
        (None, None) => true,
        (Some(l), Some(t)) => limit_text_value(t) == Some(limit_view(l)),
        _ => false,
    }
}

/// Whether a `Repetition` element lacks a valid interval or holds a
/// malformed duration or flag.
pub open spec fn repetition_fault(r: Node) -> bool {
    ||| required_duration_field(r, "Interval"@) is None
    ||| duration_field(r, "Duration"@) is None
    ||| bool_field(r, "StopAtDurationEnd"@) is None
}

/// Whether `p` is what a valid `Repetition` element holds.
pub open spec fn repetition_read(r: Node, p: Repetition) -> bool {
    &&& required_duration_field(r, "Interval"@) == Some(p.interval@)
    &&& duration_field(r, "Duration"@) == Some(duration_view(p.duration))
    &&& p.stop_at_duration_end == bool_or(bool_field(r, "StopAtDurationEnd"@), false)
}

/// Whether a trigger element holds a malformed boundary, flag, limit or
/// repetition.
pub open spec fn common_fault(t: Node) -> bool {
    ||| datetime_field(t, "StartBoundary"@) is None
    ||| datetime_field(t, "EndBoundary"@) is None
    ||| bool_field(t, "Enabled"@) is None
    ||| text_of(t, "ExecutionTimeLimit"@) matches Some(x) && limit_text_value(x) is None
    ||| child_of(t, "Repetition"@) matches Some(r) && repetition_fault(r)
}

/// Whether `c` is what the shared part of a valid trigger element holds;
/// an absent `Enabled` means enabled.
pub open spec fn common_read(t: Node, c: TriggerCommon) -> bool {
    &&& opt_view(c.id) == attr_of(t, "id"@)
    &&& datetime_read(c.start_boundary, datetime_field(t, "StartBoundary"@))
    &&& datetime_read(c.end_boundary, datetime_field(t, "EndBoundary"@))
    &&& c.enabled == bool_or(bool_field(t, "Enabled"@), true)
    &&& opt_limit_read(c.execution_time_limit, text_of(t, "ExecutionTimeLimit"@))
    &&& match child_of(t, "Repetition"@) {
        Some(r) => c.repetition matches Some(p) && repetition_read(r, p),
        None => c.repetition is None,
    }
}

/// Reads the settings shared by every trigger.
pub fn parse_trigger_common(t: &Node) -> (r: Result<TriggerCommon, Error>)
    ensures
        match r {
            Ok(c) => !common_fault(*t) && common_read(*t, c),
            Err(e) => common_fault(*t) && e@.kind == ErrorKind::Xml,
        },
{
    let id = owned_attribute(t, "id");
    let start_boundary = optional_datetime(t, "StartBoundary")?;
    let end_boundary = optional_datetime(t, "EndBoundary")?;
    let enabled = bool_default(child_bool(t, "Enabled")?, true);
    let execution_time_limit = match child_text(t, "ExecutionTimeLimit") {
        Some(x) => Some(parse_limit("ExecutionTimeLimit", x)?),
        None => None,
    };
    let repetition = match child(t, "Repetition") {
        Some(r) => {
            let interval = required_duration(r, "Repetition", "Interval")?;
            let duration = optional_duration(r, "Duration")?;
            let stop_at_duration_end = bool_default(child_bool(r, "StopAtDurationEnd")?, false);
            Some(Repetition { interval, duration, stop_at_duration_end })
        },
        None => None,
    };
    Ok(TriggerCommon { id, start_boundary, end_boundary, enabled, execution_time_limit, repetition })
}


// ---------------------------------------------------------------------------
// Names of days, months, weeks and session state changes
// ---------------------------------------------------------------------------

/// The weekday an element name denotes.
pub open spec fn weekday_named(t: Seq<char>) -> Option<Weekday> {
    if t == "Sunday"@ {
        Some(Weekday::Sunday)
    } else if t == "Monday"@ {
        Some(Weekday::Monday)
    } else if t == "Tuesday"@ {
        Some(Weekday::Tuesday)
    } else if t == "Wednesday"@ {
        Some(Weekday::Wednesday)
    } else if t == "Thursday"@ {
        Some(Weekday::Thursday)
    } else if t == "Friday"@ {
        Some(Weekday::Friday)
    } else if t == "Saturday"@ {
        Some(Weekday::Saturday)
    } else {
        None
    }
}

/// The month an element name denotes.
pub open spec fn month_named(t: Seq<char>) -> Option<Month> {
    if t == "January"@ {
        Some(Month::January)
    } else if t == "February"@ {
        Some(Month::February)
    } else if t == "March"@ {
        Some(Month::March)
    } else if t == "April"@ {
        Some(Month::April)
    } else if t == "May"@ {
        Some(Month::May)
    } else if t == "June"@ {
        Some(Month::June)
    } else if t == "July"@ {
        Some(Month::July)
    } else if t == "August"@ {
        Some(Month::August)
    } else if t == "September"@ {
        Some(Month::September)
    } else if t == "October"@ {
        Some(Month::October)
    } else if t == "November"@ {
        Some(Month::November)
    } else if t == "December"@ {
        Some(Month::December)
    } else {
        None
    }
}

/// The week ordinal a `Week` text denotes: `1` to `4`.
pub open spec fn week_numbered(t: Seq<char>) -> Option<WeekOfMonth> {
    if t == "1"@ {
        Some(WeekOfMonth::First)
    } else if t == "2"@ {
        Some(WeekOfMonth::Second)
    } else if t == "3"@ {
        Some(WeekOfMonth::Third)
    } else if t == "4"@ {
        Some(WeekOfMonth::Fourth)
    } else {
        None
    }
}

/// The session change a `StateChange` text names.
pub open spec fn state_change_named(t: Seq<char>) -> Option<SessionStateChange> {
    if t == "ConsoleConnect"@ {
        Some(SessionStateChange::ConsoleConnect)
    } else if t == "ConsoleDisconnect"@ {
        Some(SessionStateChange::ConsoleDisconnect)
    } else if t == "RemoteConnect"@ {
        Some(SessionStateChange::RemoteConnect)
    } else if t == "RemoteDisconnect"@ {
        Some(SessionStateChange::RemoteDisconnect)
    } else if t == "SessionLock"@ {
        Some(SessionStateChange::SessionLock)
    } else if t == "SessionUnlock"@ {
        Some(SessionStateChange::SessionUnlock)
    } else {
        None
    }
}

fn read_weekday(t: &str) -> (r: Option<Weekday>)
    ensures
        r == weekday_named(t@),
{
    if str_eq(t, "Sunday") {
        Some(Weekday::Sunday)
    } else if str_eq(t, "Monday") {
        Some(Weekday::Monday)
    } else if str_eq(t, "Tuesday") {
        Some(Weekday::Tuesday)
    } else if str_eq(t, "Wednesday") {
        Some(Weekday::Wednesday)
    } else if str_eq(t, "Thursday") {
        Some(Weekday::Thursday)
    } else if str_eq(t, "Friday") {
        Some(Weekday::Friday)
    } else if str_eq(t, "Saturday") {
        Some(Weekday::Saturday)
    } else {
        None
    }
}

fn read_month(t: &str) -> (r: Option<Month>)
    ensures
        r == month_named(t@),
{
    if str_eq(t, "January") {
        Some(Month::January)
    } else if str_eq(t, "February") {
        Some(Month::February)
    } else if str_eq(t, "March") {
        Some(Month::March)
    } else if str_eq(t, "April") {
        Some(Month::April)
    } else if str_eq(t, "May") {
        Some(Month::May)
    } else if str_eq(t, "June") {
        Some(Month::June)
    } else if str_eq(t, "July") {
        Some(Month::July)
    } else if str_eq(t, "August") {
        Some(Month::August)
    } else if str_eq(t, "September") {
        Some(Month::September)
    } else if str_eq(t, "October") {
        Some(Month::October)
    } else if str_eq(t, "November") {
        Some(Month::November)
    } else if str_eq(t, "December") {
        Some(Month::December)
    } else {
        None
    }
}

fn read_week(t: &str) -> (r: Option<WeekOfMonth>)
    ensures
        r == week_numbered(t@),
{
    if str_eq(t, "1") {
        Some(WeekOfMonth::First)
    } else if str_eq(t, "2") {
        Some(WeekOfMonth::Second)
    } else if str_eq(t, "3") {
        Some(WeekOfMonth::Third)
    } else if str_eq(t, "4") {
        Some(WeekOfMonth::Fourth)
    } else {
        None
    }
}

fn read_state_change(t: &str) -> (r: Option<SessionStateChange>)
    ensures
        r == state_change_named(t@),
{
    if str_eq(t, "ConsoleConnect") {
        Some(SessionStateChange::ConsoleConnect)
    } else if str_eq(t, "ConsoleDisconnect") {
        Some(SessionStateChange::ConsoleDisconnect)
    } else if str_eq(t, "RemoteConnect") {
        Some(SessionStateChange::RemoteConnect)
    } else if str_eq(t, "RemoteDisconnect") {
        Some(SessionStateChange::RemoteDisconnect)
    } else if str_eq(t, "SessionLock") {
        Some(SessionStateChange::SessionLock)
    } else if str_eq(t, "SessionUnlock") {
        Some(SessionStateChange::SessionUnlock)
    } else {
        None
    }
}

/// The weekdays the children name, in order; other children are ignored.
pub open spec fn weekday_names(children: Seq<Node>) -> Seq<Weekday>
    decreases children.len(),
{
    if children.len() == 0 {
        Seq::<Weekday>::empty()
    } else {
        let rest = weekday_names(children.drop_last());
        match weekday_named(children.last().name@) {
            Some(w) => rest.push(w),
            None => rest,
        }
    }
}

/// The months the children name, in order; other children are ignored.
pub open spec fn month_names(children: Seq<Node>) -> Seq<Month>
    decreases children.len(),
{
    if children.len() == 0 {
        Seq::<Month>::empty()
    } else {
        let rest = month_names(children.drop_last());
        match month_named(children.last().name@) {
            Some(m) => rest.push(m),
            None => rest,
        }
    }
}

/// The week ordinals of the `Week` children, in order; other children and
/// other texts are ignored.
pub open spec fn week_numbers(children: Seq<Node>) -> Seq<WeekOfMonth>
    decreases children.len(),
{
    if children.len() == 0 {
        Seq::<WeekOfMonth>::empty()
    } else {
        let rest = week_numbers(children.drop_last());
        if children.last().name@ == "Week"@ {
            match week_numbered(children.last().text@) {
                Some(w) => rest.push(w),
                None => rest,
            }
        } else {
            rest
        }
    }
}

fn read_weekdays(d: &Node) -> (r: Vec<Weekday>)
    ensures
        crate::model::trigger::weekdays_ordered(r@),
        r@.to_set() == weekday_names(d.children@).to_set(),
{
    let mut found: Vec<Weekday> = Vec::new();
    let mut i: usize = 0;
    while i < d.children.len()
        invariant
            i <= d.children@.len(),
            found@ == weekday_names(d.children@.take(i as int)),
        decreases d.children.len() - i,
    {
        proof {
            assert(d.children@.take(i + 1).drop_last() =~= d.children@.take(i as int));
        }
        match read_weekday(d.children[i].name.as_str()) {
            Some(w) => found.push(w),
            None => {},
        }
        i += 1;
    }
    proof {
        assert(d.children@.take(d.children@.len() as int) =~= d.children@);
    }
    weekday_set(found.as_slice())
}

fn read_months(d: &Node) -> (r: Vec<Month>)
    ensures
        crate::model::trigger::months_ordered(r@),
        r@.to_set() == month_names(d.children@).to_set(),
{
    let mut found: Vec<Month> = Vec::new();
    let mut i: usize = 0;
    while i < d.children.len()
        invariant
            i <= d.children@.len(),
            found@ == month_names(d.children@.take(i as int)),
        decreases d.children.len() - i,
    {
        proof {
            assert(d.children@.take(i + 1).drop_last() =~= d.children@.take(i as int));
        }
        match read_month(d.children[i].name.as_str()) {
            Some(m) => found.push(m),
            None => {},
        }
        i += 1;
    }
    proof {
        assert(d.children@.take(d.children@.len() as int) =~= d.children@);
    }
    month_set(found.as_slice())
}

fn read_weeks(d: &Node) -> (r: Vec<WeekOfMonth>)
    ensures
        crate::model::trigger::weeks_ordered(r@),
        r@.to_set() == week_numbers(d.children@).to_set(),
{
    let mut found: Vec<WeekOfMonth> = Vec::new();
    let mut i: usize = 0;
    while i < d.children.len()
        invariant
            i <= d.children@.len(),
            found@ == week_numbers(d.children@.take(i as int)),
        decreases d.children.len() - i,
    {
        proof {
            assert(d.children@.take(i + 1).drop_last() =~= d.children@.take(i as int));
        }
        if str_eq(d.children[i].name.as_str(), "Week") {
            match read_week(d.children[i].text.as_str()) {
                Some(w) => found.push(w),
                None => {},
            }
        }
        i += 1;
    }
    proof {
        assert(d.children@.take(d.children@.len() as int) =~= d.children@);
    }
    week_set(found.as_slice())
}

/// Whether a `DaysOfMonth` element holds a `Day` that is not a number up
/// to 255.
pub open spec fn days_fault(d: Node) -> bool {
    exists|i: int|
        0 <= i < named(d.children@, "Day"@).len() && crate::text::parse_unsigned_spec(
            #[trigger] named(d.children@, "Day"@)[i].text@,
            255,
        ) is None
}

/// The numbers of the `Day` children of a valid `DaysOfMonth` element.
pub open spec fn day_numbers(d: Node) -> Seq<u8> {
    named(d.children@, "Day"@).map_values(
        |c: Node| crate::text::parse_unsigned_spec(c.text@, 255)->0 as u8,
    )
}

fn read_days(d: &Node) -> (r: Result<Vec<u8>, Error>)
    ensures
        match r {
            Ok(v) => !days_fault(*d) && crate::model::trigger::days_ordered(v@) && v@.to_set()
                == day_numbers(*d).to_set(),
            Err(e) => days_fault(*d) && e@.kind == ErrorKind::Xml,
        },
{
    let positions = named_positions(d, "Day");
    let ghost nodes = named(d.children@, "Day"@);
    let mut found: Vec<u8> = Vec::new();
    let mut i: usize = 0;
    while i < positions.len()
        invariant
            i <= positions@.len(),
            nodes == named(d.children@, "Day"@),
            positions@.len() == nodes.len(),
            forall|k: int|
                0 <= k < positions@.len() ==> #[trigger] positions@[k] < d.children@.len()
                    && d.children@[positions@[k] as int] == nodes[k],
            found@.len() == i,
            forall|k: int|
                0 <= k < i ==> crate::text::parse_unsigned_spec(#[trigger] nodes[k].text@, 255) == Some(
                    found@[k] as nat,
                ),
        decreases positions.len() - i,
    {
        let text = d.children[positions[i]].text.as_str();
        let v = match parse_number_text("Day", text, 255) {
            Ok(v) => v,
            Err(e) => {
                proof {
                    assert(crate::text::parse_unsigned_spec(nodes[i as int].text@, 255) is None);
                }
                return Err(e);
            },
        };
        found.push(v as u8);
        i += 1;
    }
    proof {
        assert(found@ =~= day_numbers(*d));
    }
    Ok(day_set(found.as_slice()))
}


// ---------------------------------------------------------------------------
// Trigger kinds
// ---------------------------------------------------------------------------

/// The named value queries of an event trigger: each `Value` with a `name`
/// attribute, a later one replacing an earlier one of the same name.
pub open spec fn query_map(values: Seq<Node>) -> Map<Seq<char>, Seq<char>>
    decreases values.len(),
{
    if values.len() == 0 {
        Map::empty()
    } else {
        let m = query_map(values.drop_last());
        match attr_of(values.last(), "name"@) {
            Some(k) => m.insert(k, values.last().text@),
            None => m,
        }
    }
}

/// The schedule element of a calendar trigger: the first of its
/// `ScheduleByDay`, `ScheduleByWeek`, `ScheduleByMonth` and
/// `ScheduleByMonthDayOfWeek` children, in that order of preference.
pub open spec fn calendar_schedule(t: Node) -> Option<Node> {
    if child_of(t, "ScheduleByDay"@) is Some {
        child_of(t, "ScheduleByDay"@)
    } else if child_of(t, "ScheduleByWeek"@) is Some {
        child_of(t, "ScheduleByWeek"@)
    } else if child_of(t, "ScheduleByMonth"@) is Some {
        child_of(t, "ScheduleByMonth"@)
    } else {
        child_of(t, "ScheduleByMonthDayOfWeek"@)
    }
}

/// Whether a calendar schedule element lacks a required part or holds a
/// malformed one.
pub open spec fn schedule_fault(s: Node) -> bool {
    if s.name@ == "ScheduleByDay"@ {
        required_number_field(s, "DaysInterval"@, 65535) is None
    } else if s.name@ == "ScheduleByWeek"@ {
        required_number_field(s, "WeeksInterval"@, 65535) is None || child_of(s, "DaysOfWeek"@) is None
    } else if s.name@ == "ScheduleByMonth"@ {
        ||| child_of(s, "DaysOfMonth"@) is None
        ||| days_fault(child_of(s, "DaysOfMonth"@)->0)
        ||| child_of(s, "Months"@) is None
        ||| bool_field(s, "RunOnLastDayOfMonth"@) is None
    } else {
        ||| child_of(s, "Weeks"@) is None
        ||| child_of(s, "DaysOfWeek"@) is None
        ||| child_of(s, "Months"@) is None
        ||| bool_field(s, "RunOnLastWeekOfMonth"@) is None
    }
}

/// Whether the part of a trigger element specific to its kind lacks a
/// required part or holds a malformed one; unknown kinds are never at
/// fault there.
pub open spec fn kind_fault(t: Node) -> bool {
    let k = t.name@;
    if k == "BootTrigger"@ || k == "RegistrationTrigger"@ {
        duration_field(t, "Delay"@) is None
    } else if k == "IdleTrigger"@ {
        false
    } else if k == "TimeTrigger"@ {
        duration_field(t, "RandomDelay"@) is None
    } else if k == "EventTrigger"@ {
        event_fault(t)
    } else if k == "LogonTrigger"@ {
        duration_field(t, "Delay"@) is None
    } else if k == "SessionStateChangeTrigger"@ {
        ||| match text_of(t, "StateChange"@) {
            Some(x) => state_change_named(x) is None,
            None => true,
        }
        ||| duration_field(t, "Delay"@) is None
    } else if k == "CalendarTrigger"@ {
        calendar_fault(t)
    } else {
        false
    }
}

/// Whether an event trigger element lacks its subscription or holds a
/// malformed delay, period or occurrence count.
pub open spec fn event_fault(t: Node) -> bool {
    ||| text_of(t, "Subscription"@) is None
    ||| duration_field(t, "Delay"@) is None
    ||| duration_field(t, "PeriodOfOccurrence"@) is None
    ||| number_field(t, "NumberOfOccurrences"@, 0xffff_ffff) is None
}

/// Whether `x` is what a valid event trigger element holds.
pub open spec fn event_read(t: Node, x: Trigger) -> bool {
    &&& x matches Trigger::Event(e)
    &&& common_read(t, e.common)
    &&& Some(e.subscription@) == text_of(t, "Subscription"@)
    &&& keys_increasing(fields_view(e.value_queries@))
    &&& fields_map(fields_view(e.value_queries@)) == query_map(list_items(t, "ValueQueries"@, "Value"@))
    &&& Some(duration_view(e.delay)) == duration_field(t, "Delay"@)
    &&& Some(duration_view(e.period_of_occurrence)) == duration_field(t, "PeriodOfOccurrence"@)
    &&& number_field(t, "NumberOfOccurrences"@, 0xffff_ffff) == Some(
        match e.number_of_occurrences {
            Some(v) => Some(v as nat),
            None => None,
        },
    )
    &&& opt_view(e.matching_element) == text_of(t, "MatchingElement"@)
}

/// Whether a calendar trigger element has no schedule or holds a malformed
/// delay or schedule.
pub open spec fn calendar_fault(t: Node) -> bool {
    ||| calendar_schedule(t) is None
    ||| duration_field(t, "RandomDelay"@) is None
    ||| schedule_fault(calendar_schedule(t)->0)
}

/// Whether a trigger element is at fault in its shared or its specific
/// part.
pub open spec fn trigger_fault(t: Node) -> bool {
    common_fault(t) || kind_fault(t)
}

/// Whether `c` is what the `days` child of a valid schedule element names.
pub open spec fn weekdays_read(s: Node, days: Seq<Weekday>) -> bool {
    crate::model::trigger::weekdays_ordered(days) && days.to_set() == weekday_names(
        child_of(s, "DaysOfWeek"@)->0.children@,
    ).to_set()
}

/// Whether `months` is what the `Months` child of a valid schedule element
/// names.
pub open spec fn months_read(s: Node, months: Seq<Month>) -> bool {
    crate::model::trigger::months_ordered(months) && months.to_set() == month_names(
        child_of(s, "Months"@)->0.children@,
    ).to_set()
}

/// Whether `x` is what a valid calendar trigger element holds.
pub open spec fn calendar_read(t: Node, x: Trigger) -> bool {
    let s = calendar_schedule(t)->0;
    let delay = duration_field(t, "RandomDelay"@)->0;
    if s.name@ == "ScheduleByDay"@ {
        &&& x matches Trigger::Daily(d)
        &&& common_read(t, d.common)
        &&& required_number_field(s, "DaysInterval"@, 65535) == Some(d.days_interval as nat)
        &&& duration_view(d.random_delay) == delay
    } else if s.name@ == "ScheduleByWeek"@ {
        &&& x matches Trigger::Weekly(w)
        &&& common_read(t, w.common)
        &&& required_number_field(s, "WeeksInterval"@, 65535) == Some(w.weeks_interval as nat)
        &&& weekdays_read(s, w.days_of_week@)
        &&& duration_view(w.random_delay) == delay
    } else if s.name@ == "ScheduleByMonth"@ {
        &&& x matches Trigger::Monthly(m)
        &&& common_read(t, m.common)
        &&& crate::model::trigger::days_ordered(m.days_of_month@)
        &&& m.days_of_month@.to_set() == day_numbers(child_of(s, "DaysOfMonth"@)->0).to_set()
        &&& months_read(s, m.months@)
        &&& m.run_on_last_day == bool_or(bool_field(s, "RunOnLastDayOfMonth"@), false)
        &&& duration_view(m.random_delay) == delay
    } else {
        &&& x matches Trigger::MonthlyDow(m)
        &&& common_read(t, m.common)
        &&& crate::model::trigger::weeks_ordered(m.weeks_of_month@)
        &&& m.weeks_of_month@.to_set() == week_numbers(child_of(s, "Weeks"@)->0.children@).to_set()
        &&& weekdays_read(s, m.days_of_week@)
        &&& months_read(s, m.months@)
        &&& m.run_on_last_week == bool_or(bool_field(s, "RunOnLastWeekOfMonth"@), false)
        &&& duration_view(m.random_delay) == delay
    }
}

/// Whether `x` is what a valid trigger element holds; an element of an
/// unknown kind is kept with its name and markup.
pub open spec fn trigger_read(t: Node, x: Trigger) -> bool {
    let k = t.name@;
    if k == "BootTrigger"@ {
        x matches Trigger::Boot(b) && common_read(t, b.common) && Some(duration_view(b.delay))
            == duration_field(t, "Delay"@)
    } else if k == "RegistrationTrigger"@ {
        x matches Trigger::Registration(b) && common_read(t, b.common) && Some(duration_view(b.delay))
            == duration_field(t, "Delay"@)
    } else if k == "IdleTrigger"@ {
        x matches Trigger::Idle(b) && common_read(t, b.common)
    } else if k == "TimeTrigger"@ {
        x matches Trigger::Time(b) && common_read(t, b.common) && Some(duration_view(b.random_delay))
            == duration_field(t, "RandomDelay"@)
    } else if k == "EventTrigger"@ {
        event_read(t, x)
    } else if k == "LogonTrigger"@ {
        &&& x matches Trigger::Logon(l)
        &&& common_read(t, l.common)
        &&& opt_view(l.user_id) == text_of(t, "UserId"@)
        &&& Some(duration_view(l.delay)) == duration_field(t, "Delay"@)
    } else if k == "SessionStateChangeTrigger"@ {
        &&& x matches Trigger::SessionStateChange(c)
        &&& common_read(t, c.common)
        &&& Some(c.state_change) == state_change_named(text_of(t, "StateChange"@)->0)
        &&& opt_view(c.user_id) == text_of(t, "UserId"@)
        &&& Some(duration_view(c.delay)) == duration_field(t, "Delay"@)
    } else if k == "CalendarTrigger"@ {
        calendar_read(t, x)
    } else {
        x matches Trigger::Unknown(u) && u.kind@ == k && u.xml@ == crate::markup::node_markup(t)
    }
}

fn read_value_queries(t: &Node) -> (r: Vec<(String, String)>)
    ensures
        keys_increasing(fields_view(r@)),
        fields_map(fields_view(r@)) == query_map(list_items(*t, "ValueQueries"@, "Value"@)),
{
    let mut out: Vec<(String, String)> = Vec::new();
    let container = match child(t, "ValueQueries") {
        Some(c) => c,
        None => {
            proof {
                assert(fields_map(fields_view(out@)) =~= Map::<Seq<char>, Seq<char>>::empty());
            }
            return out;
        },
    };
    let positions = named_positions(container, "Value");
    let ghost nodes = named(container.children@, "Value"@);
    proof {
        assert(fields_map(fields_view(out@)) =~= Map::<Seq<char>, Seq<char>>::empty());
    }
    let mut i: usize = 0;
    while i < positions.len()
        invariant
            i <= positions@.len(),
            nodes == named(container.children@, "Value"@),
            nodes == list_items(*t, "ValueQueries"@, "Value"@),
            positions@.len() == nodes.len(),
            forall|k: int|
                0 <= k < positions@.len() ==> #[trigger] positions@[k] < container.children@.len()
                    && container.children@[positions@[k] as int] == nodes[k],
            keys_increasing(fields_view(out@)),
            fields_map(fields_view(out@)) == query_map(nodes.take(i as int)),
        decreases positions.len() - i,
    {
        proof {
            assert(nodes.take(i + 1).drop_last() =~= nodes.take(i as int));
        }
        let v = &container.children[positions[i]];
        match attribute(v, "name") {
            Some(name) => insert_field(&mut out, name.to_owned(), v.text.clone()),
            None => {},
        }
        i += 1;
    }
    proof {
        assert(nodes.take(nodes.len() as int) =~= nodes);
    }
    out
}

fn read_event(t: &Node, common: TriggerCommon) -> (r: Result<Trigger, Error>)
    requires
        common_read(*t, common),
    ensures
        match r {
            Ok(x) => !event_fault(*t) && event_read(*t, x),
            Err(e) => event_fault(*t) && e@.kind == ErrorKind::Xml,
        },
{
    let subscription = match child_text(t, "Subscription") {
        Some(s) => s.to_owned(),
        None => {
            return Err(missing_error("EventTrigger", "Subscription"));
        },
    };
    let value_queries = read_value_queries(t);
    let delay = optional_duration(t, "Delay")?;
    let period_of_occurrence = optional_duration(t, "PeriodOfOccurrence")?;
    let number_of_occurrences = match child_text(t, "NumberOfOccurrences") {
        Some(x) => {
            let v = parse_number_text("NumberOfOccurrences", x, 0xffff_ffff)?;
            Some(v as u32)
        },
        None => None,
    };
    Ok(
        Trigger::Event(
            EventTrigger {
                common,
                subscription,
                value_queries,
                delay,
                period_of_occurrence,
                number_of_occurrences,
                matching_element: owned_text(t, "MatchingElement"),
            },
        ),
    )
}

fn read_calendar(t: &Node, common: TriggerCommon) -> (r: Result<Trigger, Error>)
    requires
        common_read(*t, common),
    ensures
        match r {
            Ok(x) => !calendar_fault(*t) && calendar_read(*t, x),
            Err(e) => calendar_fault(*t) && e@.kind == ErrorKind::Xml,
        },
{
    let schedule = match child(t, "ScheduleByDay") {
        Some(s) => s,
        None => match child(t, "ScheduleByWeek") {
            Some(s) => s,
            None => match child(t, "ScheduleByMonth") {
                Some(s) => s,
                None => match child(t, "ScheduleByMonthDayOfWeek") {
                    Some(s) => s,
                    None => {
                        return Err(xml_error("CalendarTrigger has no schedule"));
                    },
                },
            },
        },
    };
    assert(calendar_schedule(*t) == Some(*schedule));
    let random_delay = optional_duration(t, "RandomDelay")?;
    let kind = schedule.name.as_str();
    if str_eq(kind, "ScheduleByDay") {
        let days_interval = required_number(schedule, "ScheduleByDay", "DaysInterval", 65535)?;
        Ok(Trigger::Daily(DailyTrigger { common, days_interval: days_interval as u16, random_delay }))
    } else if str_eq(kind, "ScheduleByWeek") {
        let weeks_interval = required_number(schedule, "ScheduleByWeek", "WeeksInterval", 65535)?;
        let days = match child(schedule, "DaysOfWeek") {
            Some(d) => d,
            None => {
                return Err(missing_error("ScheduleByWeek", "DaysOfWeek"));
            },
        };
        let days_of_week = read_weekdays(days);
        Ok(
            Trigger::Weekly(
                WeeklyTrigger { common, weeks_interval: weeks_interval as u16, days_of_week, random_delay },
            ),
        )
    } else if str_eq(kind, "ScheduleByMonth") {
        let days = match child(schedule, "DaysOfMonth") {
            Some(d) => d,
            None => {
                return Err(missing_error("ScheduleByMonth", "DaysOfMonth"));
            },
        };
        let days_of_month = read_days(days)?;
        let months_node = match child(schedule, "Months") {
            Some(m) => m,
            None => {
                return Err(missing_error("ScheduleByMonth", "Months"));
            },
        };
        let months = read_months(months_node);
        let run_on_last_day = bool_default(child_bool(schedule, "RunOnLastDayOfMonth")?, false);
        Ok(Trigger::Monthly(MonthlyTrigger { common, days_of_month, months, run_on_last_day, random_delay }))
    } else {
        let weeks_node = match child(schedule, "Weeks") {
            Some(w) => w,
            None => {
                return Err(missing_error("ScheduleByMonthDayOfWeek", "Weeks"));
            },
        };
        let weeks_of_month = read_weeks(weeks_node);
        let days = match child(schedule, "DaysOfWeek") {
            Some(d) => d,
            None => {
                return Err(missing_error("ScheduleByMonthDayOfWeek", "DaysOfWeek"));
            },
        };
        let days_of_week = read_weekdays(days);
        let months_node = match child(schedule, "Months") {
            Some(m) => m,
            None => {
                return Err(missing_error("ScheduleByMonthDayOfWeek", "Months"));
            },
        };
        let months = read_months(months_node);
        let run_on_last_week = bool_default(child_bool(schedule, "RunOnLastWeekOfMonth")?, false);
        Ok(
            Trigger::MonthlyDow(
                MonthlyDowTrigger {
                    common,
                    weeks_of_month,
                    days_of_week,
                    months,
                    run_on_last_week,
                    random_delay,
                },
            ),
        )
    }
}

/// Reads one trigger element.
#[verifier::rlimit(60)]
pub fn parse_trigger(t: &Node) -> (r: Result<Trigger, Error>)
    ensures
        match r {
            Ok(x) => !trigger_fault(*t) && trigger_read(*t, x),
            Err(e) => trigger_fault(*t) && e@.kind == ErrorKind::Xml,
        },
{
    let common = parse_trigger_common(t)?;
    let kind = t.name.as_str();
    if str_eq(kind, "BootTrigger") {
        let delay = optional_duration(t, "Delay")?;
        Ok(Trigger::Boot(BootTrigger { common, delay }))
    } else if str_eq(kind, "RegistrationTrigger") {
        let delay = optional_duration(t, "Delay")?;
        Ok(Trigger::Registration(RegistrationTrigger { common, delay }))
    } else if str_eq(kind, "IdleTrigger") {
        Ok(Trigger::Idle(IdleTrigger { common }))
    } else if str_eq(kind, "TimeTrigger") {
        let random_delay = optional_duration(t, "RandomDelay")?;
        Ok(Trigger::Time(TimeTrigger { common, random_delay }))
    } else if str_eq(kind, "EventTrigger") {
        read_event(t, common)
    } else if str_eq(kind, "LogonTrigger") {
        let delay = optional_duration(t, "Delay")?;
        Ok(Trigger::Logon(LogonTrigger { common, user_id: owned_text(t, "UserId"), delay }))
    } else if str_eq(kind, "SessionStateChangeTrigger") {
        let state_change = match child_text(t, "StateChange") {
            Some(x) => match read_state_change(x) {
                Some(c) => c,
                None => {
                    return Err(field_error("StateChange", "a known session state change", x));
                },
            },
            None => {
                return Err(missing_error("SessionStateChangeTrigger", "StateChange"));
            },
        };
        let delay = optional_duration(t, "Delay")?;
        Ok(
            Trigger::SessionStateChange(
                SessionStateChangeTrigger { common, state_change, user_id: owned_text(t, "UserId"), delay },
            ),
        )
    } else if str_eq(kind, "CalendarTrigger") {
        read_calendar(t, common)
    } else {
        Ok(Trigger::Unknown(UnknownTrigger { kind: kind.to_owned(), xml: crate::markup::node_to_xml(t) }))
    }
}

/// Whether a `Triggers` element holds a faulty trigger or more triggers
/// than Task Scheduler accepts.
pub open spec fn triggers_fault(n: Node) -> bool {
    ||| exists|i: int| 0 <= i < n.children@.len() && trigger_fault(#[trigger] n.children@[i])
    ||| n.children@.len() > crate::MAX_TRIGGERS
}

/// Whether `v` is what a valid `Triggers` element holds, in order.
pub open spec fn triggers_read(n: Node, v: Seq<Trigger>) -> bool {
    &&& v.len() == n.children@.len()
    &&& forall|i: int| 0 <= i < v.len() ==> trigger_read(n.children@[i], #[trigger] v[i])
}

/// Reads a `Triggers` element.
pub fn parse_triggers(n: &Node) -> (r: Result<Triggers, Error>)
    ensures
        match r {
            Ok(v) => !triggers_fault(*n) && triggers_read(*n, v@),
            Err(e) => triggers_fault(*n) && e@.kind == ErrorKind::Xml,
        },
{
    let mut values: Vec<Trigger> = Vec::new();
    let mut i: usize = 0;
    while i < n.children.len()
        invariant
            i <= n.children@.len(),
            values@.len() == i,
            forall|k: int| 0 <= k < i ==> !trigger_fault(#[trigger] n.children@[k]),
            forall|k: int| 0 <= k < i ==> trigger_read(n.children@[k], #[trigger] values@[k]),
        decreases n.children.len() - i,
    {
        let x = parse_trigger(&n.children[i])?;
        values.push(x);
        i += 1;
    }
    match Triggers::new(values) {
        Ok(t) => Ok(t),
        Err(e) => Err(xml_error(e.message().as_str())),
    }
}

} // verus!
