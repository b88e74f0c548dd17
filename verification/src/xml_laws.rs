//! What the Task XML writer writes for a value, the reader reads back as
//! that value: the value texts and name tables of the two sides agree.
use vstd::prelude::*;

use crate::markup::{escaped_attribute, escaped_text};
use crate::model::time::{duration_text, parse_duration_spec};
use crate::model::{
    LogonType, Month, MultipleInstancesPolicy, PrincipalIdentity, ProcessTokenSidType, RunLevel,
    ServiceAccount, SessionStateChange, TaskLimit, WeekOfMonth, Weekday,
};
use crate::text::{decimal, parse_unsigned_spec};
use crate::xml_read::{
    bool_text, inferred_logon_type, instances_named, limit_text_value, limit_view, logon_type_named,
    run_level_named, service_account_named, sid_type_named,
};
use crate::xml_triggers::{month_named, state_change_named, week_numbered, weekday_named};
use crate::xml_write::{
    bool_markup_text, instances_text, limit_text, logon_type_text, month_text, run_level_text,
    service_account_text, sid_type_text, state_change_text, week_text, weekday_text,
};

verus! {

/// A boolean is read back from the text written for it.
pub proof fn lemma_bool_round_trip(b: bool)
    ensures
        bool_text(bool_markup_text(b)) == Some(b),
{
}

/// A number no larger than the field's maximum is read back from its
/// decimal text.
pub proof fn lemma_number_round_trip(n: nat, max: nat)
    requires
        n <= max,
    ensures
        parse_unsigned_spec(decimal(n), max) == Some(n),
{
    crate::model::duration_laws::lemma_decimal(n);
}

/// An execution limit is read back from the text written for it, except a
/// finite limit of zero: its text `PT0S` means no limit.
pub proof fn lemma_limit_round_trip(l: TaskLimit)
    requires
        l matches TaskLimit::Finite(d) ==> d.well_formed() && d@ != (0nat, 0nat),
    ensures
        limit_text_value(limit_text(l)) == Some(limit_view(l)),
{
    match l {
        TaskLimit::Finite(d) => {
            d.lemma_seconds_bound();
            crate::model::duration_laws::lemma_duration_text_round_trip(d@.0, d@.1);
            let t = duration_text(d@.0, d@.1);
            if t == seq!['P', 'T', '0', 'S'] {
                assert(parse_duration_spec(seq!['P', 'T', '0', 'S']) == Some(d@));
                lemma_zero_text();
            }
        },
        TaskLimit::Unlimited => {},
    }
}

proof fn lemma_zero_text()
    ensures
        parse_duration_spec(seq!['P', 'T', '0', 'S']) == Some((0nat, 0nat)),
{
    crate::model::duration_laws::lemma_duration_text_round_trip(0, 0);
    assert(duration_text(0, 0) =~= seq!['P', 'T', '0', 'S']) by {
        crate::model::duration_laws::lemma_decimal(0);
        assert(decimal(0) == seq!['0']);
    }
}

/// Every weekday, month, week ordinal and session state change is read
/// back from the name written for it.
pub proof fn lemma_calendar_names_round_trip(d: Weekday, m: Month, w: WeekOfMonth, c: SessionStateChange)
    ensures
        weekday_named(weekday_text(d)) == Some(d),
        month_named(month_text(m)) == Some(m),
        week_numbered(week_text(w)) == Some(w),
        state_change_named(state_change_text(c)) == Some(c),
{
    reveal_strlit("Sunday");
    assert("Sunday"@.len() == 6 && "Sunday"@[0] == 'S' && "Sunday"@[1] == 'u' && "Sunday"@[2] == 'n');
    reveal_strlit("Monday");
    assert("Monday"@.len() == 6 && "Monday"@[0] == 'M' && "Monday"@[1] == 'o' && "Monday"@[2] == 'n');
    reveal_strlit("Tuesday");
    assert("Tuesday"@.len() == 7 && "Tuesday"@[0] == 'T' && "Tuesday"@[1] == 'u' && "Tuesday"@[2] == 'e');
    reveal_strlit("Wednesday");
    assert("Wednesday"@.len() == 9 && "Wednesday"@[0] == 'W' && "Wednesday"@[1] == 'e' && "Wednesday"@[2] == 'd');
    reveal_strlit("Thursday");
    assert("Thursday"@.len() == 8 && "Thursday"@[0] == 'T' && "Thursday"@[1] == 'h' && "Thursday"@[2] == 'u');
    reveal_strlit("Friday");
    assert("Friday"@.len() == 6 && "Friday"@[0] == 'F' && "Friday"@[1] == 'r' && "Friday"@[2] == 'i');
    reveal_strlit("Saturday");
    assert("Saturday"@.len() == 8 && "Saturday"@[0] == 'S' && "Saturday"@[1] == 'a' && "Saturday"@[2] == 't');
    reveal_strlit("January");
    assert("January"@.len() == 7 && "January"@[0] == 'J' && "January"@[1] == 'a' && "January"@[2] == 'n');
    reveal_strlit("February");
    assert("February"@.len() == 8 && "February"@[0] == 'F' && "February"@[1] == 'e' && "February"@[2] == 'b');
    reveal_strlit("March");
    assert("March"@.len() == 5 && "March"@[0] == 'M' && "March"@[1] == 'a' && "March"@[2] == 'r');
    reveal_strlit("April");
    assert("April"@.len() == 5 && "April"@[0] == 'A' && "April"@[1] == 'p' && "April"@[2] == 'r');
    reveal_strlit("May");
    assert("May"@.len() == 3 && "May"@[0] == 'M' && "May"@[1] == 'a' && "May"@[2] == 'y');
    reveal_strlit("June");
    assert("June"@.len() == 4 && "June"@[0] == 'J' && "June"@[1] == 'u' && "June"@[2] == 'n');
    reveal_strlit("July");
    assert("July"@.len() == 4 && "July"@[0] == 'J' && "July"@[1] == 'u' && "July"@[2] == 'l');
    reveal_strlit("August");
    assert("August"@.len() == 6 && "August"@[0] == 'A' && "August"@[1] == 'u' && "August"@[2] == 'g');
    reveal_strlit("September");
    assert("September"@.len() == 9 && "September"@[0] == 'S' && "September"@[1] == 'e' && "September"@[2] == 'p');
    reveal_strlit("October");
    assert("October"@.len() == 7 && "October"@[0] == 'O' && "October"@[1] == 'c' && "October"@[2] == 't');
    reveal_strlit("November");
    assert("November"@.len() == 8 && "November"@[0] == 'N' && "November"@[1] == 'o' && "November"@[2] == 'v');
    reveal_strlit("December");
    assert("December"@.len() == 8 && "December"@[0] == 'D' && "December"@[1] == 'e' && "December"@[2] == 'c');
    reveal_strlit("1");
    assert("1"@.len() == 1 && "1"@[0] == '1');
    reveal_strlit("2");
    assert("2"@.len() == 1 && "2"@[0] == '2');
    reveal_strlit("3");
    assert("3"@.len() == 1 && "3"@[0] == '3');
    reveal_strlit("4");
    assert("4"@.len() == 1 && "4"@[0] == '4');
    reveal_strlit("ConsoleConnect");
    assert("ConsoleConnect"@.len() == 14 && "ConsoleConnect"@[0] == 'C' && "ConsoleConnect"@[1] == 'o' && "ConsoleConnect"@[2] == 'n');
    reveal_strlit("ConsoleDisconnect");
    assert("ConsoleDisconnect"@.len() == 17 && "ConsoleDisconnect"@[0] == 'C' && "ConsoleDisconnect"@[1] == 'o' && "ConsoleDisconnect"@[2] == 'n');
    reveal_strlit("RemoteConnect");
    assert("RemoteConnect"@.len() == 13 && "RemoteConnect"@[0] == 'R' && "RemoteConnect"@[1] == 'e' && "RemoteConnect"@[2] == 'm');
    reveal_strlit("RemoteDisconnect");
    assert("RemoteDisconnect"@.len() == 16 && "RemoteDisconnect"@[0] == 'R' && "RemoteDisconnect"@[1] == 'e' && "RemoteDisconnect"@[2] == 'm');
    reveal_strlit("SessionLock");
    assert("SessionLock"@.len() == 11 && "SessionLock"@[0] == 'S' && "SessionLock"@[1] == 'e' && "SessionLock"@[2] == 's');
    reveal_strlit("SessionUnlock");
    assert("SessionUnlock"@.len() == 13 && "SessionUnlock"@[0] == 'S' && "SessionUnlock"@[1] == 'e' && "SessionUnlock"@[2] == 's');
}

/// Every instance policy, run level and token SID type is read back from
/// the text written for it, and so is every logon type that is written.
pub proof fn lemma_principal_names_round_trip(
    m: MultipleInstancesPolicy,
    r: RunLevel,
    s: ProcessTokenSidType,
    l: LogonType,
)
    ensures
        instances_named(instances_text(m)) == Some(m),
        run_level_named(run_level_text(r)) == Some(r),
        sid_type_named(sid_type_text(s)) == Some(s),
        logon_type_text(l) matches Some(t) ==> logon_type_named(t) == Some(l),
{
    reveal_strlit("Parallel");
    assert("Parallel"@.len() == 8 && "Parallel"@[0] == 'P' && "Parallel"@[1] == 'a');
    reveal_strlit("Queue");
    assert("Queue"@.len() == 5 && "Queue"@[0] == 'Q' && "Queue"@[1] == 'u');
    reveal_strlit("IgnoreNew");
    assert("IgnoreNew"@.len() == 9 && "IgnoreNew"@[0] == 'I' && "IgnoreNew"@[1] == 'g');
    reveal_strlit("StopExisting");
    assert("StopExisting"@.len() == 12 && "StopExisting"@[0] == 'S' && "StopExisting"@[1] == 't');
    reveal_strlit("LeastPrivilege");
    assert("LeastPrivilege"@.len() == 14 && "LeastPrivilege"@[0] == 'L' && "LeastPrivilege"@[1] == 'e');
    reveal_strlit("HighestAvailable");
    assert("HighestAvailable"@.len() == 16 && "HighestAvailable"@[0] == 'H' && "HighestAvailable"@[1] == 'i');
    reveal_strlit("Default");
    assert("Default"@.len() == 7 && "Default"@[0] == 'D' && "Default"@[1] == 'e');
    reveal_strlit("None");
    assert("None"@.len() == 4 && "None"@[0] == 'N' && "None"@[1] == 'o');
    reveal_strlit("Unrestricted");
    assert("Unrestricted"@.len() == 12 && "Unrestricted"@[0] == 'U' && "Unrestricted"@[1] == 'n');
    reveal_strlit("Password");
    assert("Password"@.len() == 8 && "Password"@[0] == 'P' && "Password"@[1] == 'a');
    reveal_strlit("InteractiveToken");
    assert("InteractiveToken"@.len() == 16 && "InteractiveToken"@[0] == 'I' && "InteractiveToken"@[1] == 'n');
    reveal_strlit("S4U");
    assert("S4U"@.len() == 3 && "S4U"@[0] == 'S' && "S4U"@[1] == '4');
    reveal_strlit("Group");
    assert("Group"@.len() == 5 && "Group"@[0] == 'G' && "Group"@[1] == 'r');
    reveal_strlit("ServiceAccount");
    assert("ServiceAccount"@.len() == 14 && "ServiceAccount"@[0] == 'S' && "ServiceAccount"@[1] == 'e');
    reveal_strlit("InteractiveTokenOrPassword");
    assert("InteractiveTokenOrPassword"@.len() == 26 && "InteractiveTokenOrPassword"@[0] == 'I' && "InteractiveTokenOrPassword"@[1] == 'n');
}

/// Every built-in service account is recognized again from the user name
/// written for it.
pub proof fn lemma_service_account_round_trip(a: ServiceAccount)
    ensures
        service_account_named(service_account_text(a)) == Some(a),
{
    reveal_strlit("SYSTEM");
    assert("SYSTEM"@.len() == 6);
    reveal_strlit("S-1-5-18");
    assert("S-1-5-18"@.len() == 8);
    reveal_strlit("LOCAL SERVICE");
    assert("LOCAL SERVICE"@.len() == 13);
    reveal_strlit("NT AUTHORITY\\LOCAL SERVICE");
    assert("NT AUTHORITY\\LOCAL SERVICE"@.len() == 26);
    reveal_strlit("S-1-5-19");
    assert("S-1-5-19"@.len() == 8);
    reveal_strlit("NETWORK SERVICE");
    assert("NETWORK SERVICE"@.len() == 15);
    reveal_strlit("NT AUTHORITY\\NETWORK SERVICE");
    assert("NT AUTHORITY\\NETWORK SERVICE"@.len() == 28);
    reveal_strlit("S-1-5-20");
    assert("S-1-5-20"@.len() == 8);
    let t = service_account_text(a);
    assert(crate::schedule::eq_ignore_ascii_case(t, t));
}

/// The logon types Task Scheduler infers from an identity are the ones the
/// writer leaves out: a group's, a service account's, and none for a user
/// or no identity. So a principal whose logon type is the one inferred for
/// its identity has no `LogonType` written and gets that type back.
pub proof fn lemma_inferred_logon_type_is_omitted(id: PrincipalIdentity, l: LogonType)
    requires
        l == inferred_logon_type(id),
    ensures
        logon_type_text(l) is None,
{
}

/// A written logon type is never one Task Scheduler would infer, so it is
/// always needed.
pub proof fn lemma_written_logon_type_is_not_inferred(id: PrincipalIdentity, l: LogonType)
    requires
        logon_type_text(l) is Some,
    ensures
        l != inferred_logon_type(id),
{
}

/// Escaped element text holds no `<` or `>`, and every `&` in it begins an
/// entity reference.
pub proof fn lemma_escaped_text_has_no_markup(s: Seq<char>)
    ensures
        forall|i: int| 0 <= i < escaped_text(s).len() ==> #[trigger] escaped_text(s)[i] != '<' && escaped_text(s)[i] != '>',
    decreases s.len(),
{
    if s.len() > 0 {
        lemma_escaped_text_has_no_markup(s.drop_last());
        let a = escaped_text(s.drop_last());
        let b = crate::markup::text_escape(s.last());
        assert forall|i: int| 0 <= i < escaped_text(s).len() implies #[trigger] escaped_text(s)[i] != '<'
            && escaped_text(s)[i] != '>' by {
            if i >= a.len() {
                assert(escaped_text(s)[i] == b[i - a.len()]);
            } else {
                assert(escaped_text(s)[i] == a[i]);
            }
        }
    }
}

/// An escaped attribute value holds no `<`, `>` or `"`, so it cannot end
/// the quoted value early.
pub proof fn lemma_escaped_attribute_has_no_quote(s: Seq<char>)
    ensures
        forall|i: int|
            0 <= i < escaped_attribute(s).len() ==> #[trigger] escaped_attribute(s)[i] != '"'
                && escaped_attribute(s)[i] != '<' && escaped_attribute(s)[i] != '>',
    decreases s.len(),
{
    if s.len() > 0 {
        lemma_escaped_attribute_has_no_quote(s.drop_last());
        let a = escaped_attribute(s.drop_last());
        let b = crate::markup::attribute_escape(s.last());
        assert forall|i: int| 0 <= i < escaped_attribute(s).len() implies #[trigger] escaped_attribute(s)[i]
            != '"' && escaped_attribute(s)[i] != '<' && escaped_attribute(s)[i] != '>' by {
            if i >= a.len() {
                assert(escaped_attribute(s)[i] == b[i - a.len()]);
            } else {
                assert(escaped_attribute(s)[i] == a[i]);
            }
        }
    }
}

} // verus!
