//! Reading the typed task definition from a parsed Task XML element tree.
use vstd::prelude::*;
use vstd::string::*;

use crate::error::{Error, ErrorKind};
use crate::model::time::{parse_datetime_spec, parse_duration_spec};
use crate::model::{
    TaskDefinition, TaskSchemaVersion, TaskSchemaVersionView, XmlExtension, Triggers, Action, Actions, ComHandlerAction, EmailAction, EmailHeader, ExecAction, ShowMessageAction,
    UnknownAction, IdleSettings, MaintenanceSettings, MultipleInstancesPolicy, NetworkSettings, RestartPolicy,
    TaskSettings, LogonType, Principal, PrincipalIdentity, ProcessTokenSidType, RegistrationInfo,
    RequiredPrivilege, RunLevel, SecurityDescriptor, ServiceAccount, TaskDateTime, TaskDuration,
    TaskLimit,
};
use crate::schedule::eq_ignore_ascii_case;
use crate::text::{chars_of, opt_str_view, opt_view, str_eq};
use crate::xml::Node;

verus! {

broadcast use vstd::string::group_string_axioms;

// ---------------------------------------------------------------------------
// Tree access
// ---------------------------------------------------------------------------

/// The first of `children`, from index `from` on, named `name`.
pub open spec fn child_from(children: Seq<Node>, name: Seq<char>, from: int) -> Option<Node>
    decreases children.len() - from,
{
    if from < 0 || from >= children.len() {
        None
    } else if children[from].name@ == name {
        Some(children[from])
    } else {
        child_from(children, name, from + 1)
    }
}

/// The first child of `n` named `name`.
pub open spec fn child_of(n: Node, name: Seq<char>) -> Option<Node> {
    child_from(n.children@, name, 0)
}

/// The text of the first child of `n` named `name`.
pub open spec fn text_of(n: Node, name: Seq<char>) -> Option<Seq<char>> {
    match child_of(n, name) {
        Some(c) => Some(c.text@),
        None => None,
    }
}

/// The children named `name`, in order.
pub open spec fn named(children: Seq<Node>, name: Seq<char>) -> Seq<Node>
    decreases children.len(),
{
    if children.len() == 0 {
        Seq::<Node>::empty()
    } else {
        let rest = named(children.drop_last(), name);
        if children.last().name@ == name {
            rest.push(children.last())
        } else {
            rest
        }
    }
}

/// The value of the first attribute, from index `from` on, with key `key`.
pub open spec fn attr_from(attributes: Seq<(String, String)>, key: Seq<char>, from: int) -> Option<Seq<char>>
    decreases attributes.len() - from,
{
    if from < 0 || from >= attributes.len() {
        None
    } else if attributes[from].0@ == key {
        Some(attributes[from].1@)
    } else {
        attr_from(attributes, key, from + 1)
    }
}

/// The value of the attribute `key` of `n`.
pub open spec fn attr_of(n: Node, key: Seq<char>) -> Option<Seq<char>> {
    attr_from(n.attributes@, key, 0)
}

/// The first child named `name`.
pub(crate) fn child<'a>(n: &'a Node, name: &str) -> (r: Option<&'a Node>)
    ensures
        match r {
            Some(c) => child_of(*n, name@) == Some(*c),
            None => child_of(*n, name@) is None,
        },
{
    let mut i: usize = 0;
    while i < n.children.len()
        invariant
            i <= n.children@.len(),
            child_from(n.children@, name@, 0) == child_from(n.children@, name@, i as int),
        decreases n.children.len() - i,
    {
        if str_eq(n.children[i].name.as_str(), name) {
            return Some(&n.children[i]);
        }
        i += 1;
    }
    None
}

/// The text of the first child named `name`.
pub(crate) fn child_text<'a>(n: &'a Node, name: &str) -> (r: Option<&'a str>)
    ensures
        opt_str_view(r) == text_of(*n, name@),
{
    match child(n, name) {
        Some(c) => Some(c.text.as_str()),
        None => None,
    }
}

/// An owned copy of the text of the first child named `name`.
pub(crate) fn owned_text(n: &Node, name: &str) -> (r: Option<String>)
    ensures
        opt_view(r) == text_of(*n, name@),
{
    match child_text(n, name) {
        Some(t) => Some(t.to_owned()),
        None => None,
    }
}

/// The positions of the children named `name`, in order.
pub(crate) fn named_positions(n: &Node, name: &str) -> (r: Vec<usize>)
    ensures
        r@.len() == named(n.children@, name@).len(),
        forall|i: int|
            0 <= i < r@.len() ==> #[trigger] r@[i] < n.children@.len() && n.children@[r@[i] as int]
                == named(n.children@, name@)[i],
{
    let mut r: Vec<usize> = Vec::new();
    let mut i: usize = 0;
    while i < n.children.len()
        invariant
            i <= n.children@.len(),
            r@.len() == named(n.children@.take(i as int), name@).len(),
            forall|k: int|
                0 <= k < r@.len() ==> #[trigger] r@[k] < n.children@.len() && n.children@[r@[k] as int]
                    == named(n.children@.take(i as int), name@)[k],
        decreases n.children.len() - i,
    {
        let ghost before = named(n.children@.take(i as int), name@);
        let ghost r0 = r@;
        proof {
            let t = n.children@.take(i + 1);
            assert(t.drop_last() =~= n.children@.take(i as int));
            assert(t.last() == n.children@[i as int]);
        }
        if str_eq(n.children[i].name.as_str(), name) {
            r.push(i);
            proof {
                let after = named(n.children@.take(i + 1), name@);
                assert(after == before.push(n.children@[i as int]));
                assert forall|k: int| 0 <= k < r@.len() implies r@[k] < n.children@.len()
                    && n.children@[r@[k] as int] == after[k] by {
                    if k < r0.len() {
                        assert(r@[k] == r0[k]);
                    }
                }
            }
        } else {
            proof {
                let after = named(n.children@.take(i + 1), name@);
                assert(after == before);
            }
        }
        i += 1;
    }
    proof {
        assert(n.children@.take(n.children@.len() as int) =~= n.children@);
    }
    r
}

/// The value of the attribute `key`.
pub(crate) fn attribute<'a>(n: &'a Node, key: &str) -> (r: Option<&'a str>)
    ensures
        opt_str_view(r) == attr_of(*n, key@),
{
    let mut i: usize = 0;
    while i < n.attributes.len()
        invariant
            i <= n.attributes@.len(),
            attr_from(n.attributes@, key@, 0) == attr_from(n.attributes@, key@, i as int),
        decreases n.attributes.len() - i,
    {
        if str_eq(n.attributes[i].0.as_str(), key) {
            return Some(n.attributes[i].1.as_str());
        }
        i += 1;
    }
    None
}

/// An owned copy of the value of the attribute `key`.
pub(crate) fn owned_attribute(n: &Node, key: &str) -> (r: Option<String>)
    ensures
        opt_view(r) == attr_of(*n, key@),
{
    match attribute(n, key) {
        Some(v) => Some(v.to_owned()),
        None => None,
    }
}

// ---------------------------------------------------------------------------
// Scalar fields
// ---------------------------------------------------------------------------

/// An XML failure with its message.
pub(crate) fn xml_error(message: &str) -> (e: Error)
    ensures
        e@.kind == ErrorKind::Xml,
{
    Error::new(ErrorKind::Xml, message)
}

/// The failure for a child whose text is not what `what` names.
pub(crate) fn field_error(name: &str, what: &str, value: &str) -> (e: Error)
    ensures
        e@.kind == ErrorKind::Xml,
{
    let mut m = name.to_owned();
    m.append(" is not ");
    m.append(what);
    m.append(": ");
    m.append(crate::text::debug_quoted(value).as_str());
    xml_error(m.as_str())
}

/// The failure for a missing required child.
pub(crate) fn missing_error(parent: &str, name: &str) -> (e: Error)
    ensures
        e@.kind == ErrorKind::Xml,
{
    let mut m = parent.to_owned();
    m.append(" requires ");
    m.append(name);
    xml_error(m.as_str())
}

/// The boolean a text denotes: `true` or `1`, `false` or `0`.
pub open spec fn bool_text(t: Seq<char>) -> Option<bool> {
    if t == seq!['t', 'r', 'u', 'e'] || t == seq!['1'] {
        Some(true)
    } else if t == seq!['f', 'a', 'l', 's', 'e'] || t == seq!['0'] {
        Some(false)
    } else {
        None
    }
}

/// A boolean child: `Some(None)` when absent, `None` when its text is not
/// a boolean.
pub open spec fn bool_field(n: Node, name: Seq<char>) -> Option<Option<bool>> {
    match text_of(n, name) {
        None => Some(None),
        Some(t) => match bool_text(t) {
            Some(b) => Some(Some(b)),
            None => None,
        },
    }
}

/// The value of a boolean field, or `default` when it is absent.
pub open spec fn bool_or(f: Option<Option<bool>>, default: bool) -> bool {
    match f {
        Some(Some(b)) => b,
        _ => default,
    }
}

fn parse_bool(t: &str) -> (r: Option<bool>)
    ensures
        r == bool_text(t@),
{
    proof {
        reveal_strlit("true");
        reveal_strlit("1");
        reveal_strlit("false");
        reveal_strlit("0");
        assert("true"@ =~= seq!['t', 'r', 'u', 'e']);
        assert("1"@ =~= seq!['1']);
        assert("false"@ =~= seq!['f', 'a', 'l', 's', 'e']);
        assert("0"@ =~= seq!['0']);
    }
    if str_eq(t, "true") || str_eq(t, "1") {
        Some(true)
    } else if str_eq(t, "false") || str_eq(t, "0") {
        Some(false)
    } else {
        None
    }
}

/// The boolean child `name`, if present.
pub(crate) fn child_bool(n: &Node, name: &str) -> (r: Result<Option<bool>, Error>)
    ensures
        match r {
            Ok(v) => bool_field(*n, name@) == Some(v),
            Err(e) => bool_field(*n, name@) is None && e@.kind == ErrorKind::Xml,
        },
{
    match child_text(n, name) {
        None => Ok(None),
        Some(t) => match parse_bool(t) {
            Some(b) => Ok(Some(b)),
            None => Err(field_error(name, "a boolean", t)),
        },
    }
}

/// A duration child: `Some(None)` when absent, `None` when malformed.
pub open spec fn duration_field(n: Node, name: Seq<char>) -> Option<Option<(nat, nat)>> {
    match text_of(n, name) {
        None => Some(None),
        Some(t) => match parse_duration_spec(t) {
            Some(d) => Some(Some(d)),
            None => None,
        },
    }
}

/// A required duration child: `None` when absent or malformed.
pub open spec fn required_duration_field(n: Node, name: Seq<char>) -> Option<(nat, nat)> {
    match text_of(n, name) {
        None => None,
        Some(t) => parse_duration_spec(t),
    }
}

/// The view of an optional duration.
pub open spec fn duration_view(o: Option<TaskDuration>) -> Option<(nat, nat)> {
    match o {
        Some(d) => Some(d@),
        None => None,
    }
}

fn parse_duration_text(name: &str, t: &str) -> (r: Result<TaskDuration, Error>)
    ensures
        match r {
            Ok(d) => parse_duration_spec(t@) == Some(d@),
            Err(e) => parse_duration_spec(t@) is None && e@.kind == ErrorKind::Xml,
        },
{
    match TaskDuration::parse(t) {
        Ok(d) => Ok(d),
        Err(_) => Err(field_error(name, "a fixed duration", t)),
    }
}

/// The duration child `name`, if present.
pub(crate) fn optional_duration(n: &Node, name: &str) -> (r: Result<Option<TaskDuration>, Error>)
    ensures
        match r {
            Ok(v) => duration_field(*n, name@) == Some(duration_view(v)),
            Err(e) => duration_field(*n, name@) is None && e@.kind == ErrorKind::Xml,
        },
{
    match child_text(n, name) {
        None => Ok(None),
        Some(t) => Ok(Some(parse_duration_text(name, t)?)),
    }
}

/// The required duration child `name`.
pub(crate) fn required_duration(n: &Node, parent: &str, name: &str) -> (r: Result<TaskDuration, Error>)
    ensures
        match r {
            Ok(d) => required_duration_field(*n, name@) == Some(d@),
            Err(e) => required_duration_field(*n, name@) is None && e@.kind == ErrorKind::Xml,
        },
{
    match child_text(n, name) {
        None => Err(missing_error(parent, name)),
        Some(t) => parse_duration_text(name, t),
    }
}

/// An unsigned number child no larger than `max`: `Some(None)` when
/// absent, `None` when malformed.
pub open spec fn number_field(n: Node, name: Seq<char>, max: nat) -> Option<Option<nat>> {
    match text_of(n, name) {
        None => Some(None),
        Some(t) => match crate::text::parse_unsigned_spec(t, max) {
            Some(v) => Some(Some(v)),
            None => None,
        },
    }
}

/// A required unsigned number child: `None` when absent or malformed.
pub open spec fn required_number_field(n: Node, name: Seq<char>, max: nat) -> Option<nat> {
    match text_of(n, name) {
        None => None,
        Some(t) => crate::text::parse_unsigned_spec(t, max),
    }
}

pub(crate) fn parse_number_text(name: &str, t: &str, max: u64) -> (r: Result<u64, Error>)
    ensures
        match r {
            Ok(v) => crate::text::parse_unsigned_spec(t@, max as nat) == Some(v as nat),
            Err(e) => crate::text::parse_unsigned_spec(t@, max as nat) is None && e@.kind == ErrorKind::Xml,
        },
{
    let chars = chars_of(t);
    match crate::text::parse_unsigned(chars.as_slice(), max) {
        Some(v) => Ok(v),
        None => Err(field_error(name, "a number in range", t)),
    }
}

/// The number child `name` no larger than `max`, if present.
pub(crate) fn optional_number(n: &Node, name: &str, max: u64) -> (r: Result<Option<u64>, Error>)
    ensures
        match r {
            Ok(Some(v)) => number_field(*n, name@, max as nat) == Some(Some(v as nat)) && v <= max,
            Ok(None) => number_field(*n, name@, max as nat) == Some(None::<nat>),
            Err(e) => number_field(*n, name@, max as nat) is None && e@.kind == ErrorKind::Xml,
        },
{
    match child_text(n, name) {
        None => Ok(None),
        Some(t) => Ok(Some(parse_number_text(name, t, max)?)),
    }
}

/// The required number child `name` no larger than `max`.
pub(crate) fn required_number(n: &Node, parent: &str, name: &str, max: u64) -> (r: Result<u64, Error>)
    ensures
        match r {
            Ok(v) => required_number_field(*n, name@, max as nat) == Some(v as nat) && v <= max,
            Err(e) => required_number_field(*n, name@, max as nat) is None && e@.kind == ErrorKind::Xml,
        },
{
    match child_text(n, name) {
        None => Err(missing_error(parent, name)),
        Some(t) => parse_number_text(name, t, max),
    }
}

/// A timestamp child: `Some(None)` when absent, `None` when malformed.
pub open spec fn datetime_field(n: Node, name: Seq<char>) -> Option<Option<Seq<char>>> {
    match text_of(n, name) {
        None => Some(None),
        Some(t) => if parse_datetime_spec(t) is Some {
            Some(Some(t))
        } else {
            None
        },
    }
}

/// Whether an optional timestamp is the one a valid field holds: the same
/// text, with the basis its text denotes.
pub open spec fn datetime_read(o: Option<TaskDateTime>, f: Option<Option<Seq<char>>>) -> bool {
    match o {
        None => f == Some(None::<Seq<char>>),
        Some(d) => f == Some(Some(d@.0)) && parse_datetime_spec(d@.0) == Some(d@.1),
    }
}

/// The timestamp child `name`, if present.
pub(crate) fn optional_datetime(n: &Node, name: &str) -> (r: Result<Option<TaskDateTime>, Error>)
    ensures
        match r {
            Ok(v) => datetime_read(v, datetime_field(*n, name@)),
            Err(e) => datetime_field(*n, name@) is None && e@.kind == ErrorKind::Xml,
        },
{
    match child_text(n, name) {
        None => Ok(None),
        Some(t) => match TaskDateTime::parse(t) {
            Ok(d) => Ok(Some(d)),
            Err(_) => Err(field_error(name, "a task boundary", t)),
        },
    }
}

/// An execution limit text: `PT0S` is no limit (`Some(None)`), another
/// fixed duration a finite limit, anything else malformed (`None`).
pub open spec fn limit_text_value(t: Seq<char>) -> Option<Option<(nat, nat)>> {
    if t == seq!['P', 'T', '0', 'S'] {
        Some(None)
    } else {
        match parse_duration_spec(t) {
            Some(d) => Some(Some(d)),
            None => None,
        }
    }
}

/// The view of a limit: the finite duration, or `None` for no limit.
pub open spec fn limit_view(l: TaskLimit) -> Option<(nat, nat)> {
    match l {
        TaskLimit::Finite(d) => Some(d@),
        TaskLimit::Unlimited => None,
    }
}

pub(crate) fn parse_limit(name: &str, t: &str) -> (r: Result<TaskLimit, Error>)
    ensures
        match r {
            Ok(l) => limit_text_value(t@) == Some(limit_view(l)),
            Err(e) => limit_text_value(t@) is None && e@.kind == ErrorKind::Xml,
        },
{
    proof {
        reveal_strlit("PT0S");
        assert("PT0S"@ =~= seq!['P', 'T', '0', 'S']);
    }
    if str_eq(t, "PT0S") {
        Ok(TaskLimit::Unlimited)
    } else {
        Ok(TaskLimit::Finite(parse_duration_text(name, t)?))
    }
}

// ---------------------------------------------------------------------------
// Registration information
// ---------------------------------------------------------------------------

/// The view of an optional security descriptor.
pub open spec fn descriptor_view(o: Option<SecurityDescriptor>) -> Option<Seq<char>> {
    match o {
        Some(d) => Some(d@),
        None => None,
    }
}

/// Whether a `RegistrationInfo` element holds a malformed date or security
/// descriptor.
pub open spec fn registration_fault(n: Node) -> bool {
    ||| datetime_field(n, "Date"@) is None
    ||| text_of(n, "SecurityDescriptor"@) matches Some(t) && !crate::model::valid_sddl(t)
}

/// Whether `r` is what a valid `RegistrationInfo` element holds.
pub open spec fn registration_read(n: Node, r: RegistrationInfo) -> bool {
    &&& opt_view(r.author) == text_of(n, "Author"@)
    &&& datetime_read(r.date, datetime_field(n, "Date"@))
    &&& opt_view(r.description) == text_of(n, "Description"@)
    &&& opt_view(r.documentation) == text_of(n, "Documentation"@)
    &&& opt_view(r.source) == text_of(n, "Source"@)
    &&& opt_view(r.version) == text_of(n, "Version"@)
    &&& opt_view(r.uri) == text_of(n, "URI"@)
    &&& descriptor_view(r.security_descriptor) == text_of(n, "SecurityDescriptor"@)
}

/// Reads a `RegistrationInfo` element.
pub fn parse_registration(n: &Node) -> (r: Result<RegistrationInfo, Error>)
    ensures
        match r {
            Ok(info) => !registration_fault(*n) && registration_read(*n, info),
            Err(e) => registration_fault(*n) && e@.kind == ErrorKind::Xml,
        },
{
    let date = optional_datetime(n, "Date")?;
    let security_descriptor = match child_text(n, "SecurityDescriptor") {
        None => None,
        Some(t) => match SecurityDescriptor::from_sddl(t) {
            Ok(d) => Some(d),
            Err(_) => {
                return Err(field_error("SecurityDescriptor", "a security descriptor", t));
            },
        },
    };
    Ok(RegistrationInfo {
        author: owned_text(n, "Author"),
        date,
        description: owned_text(n, "Description"),
        documentation: owned_text(n, "Documentation"),
        source: owned_text(n, "Source"),
        version: owned_text(n, "Version"),
        uri: owned_text(n, "URI"),
        security_descriptor,
    })
}

// ---------------------------------------------------------------------------
// Principal
// ---------------------------------------------------------------------------

/// The built-in service account a user name denotes, compared without
/// regard to ASCII case.
pub open spec fn service_account_named(u: Seq<char>) -> Option<ServiceAccount> {
    if eq_ignore_ascii_case(u, "SYSTEM"@) || eq_ignore_ascii_case(u, "S-1-5-18"@) {
        Some(ServiceAccount::LocalSystem)
    } else if eq_ignore_ascii_case(u, "LOCAL SERVICE"@) || eq_ignore_ascii_case(
        u,
        "NT AUTHORITY\\LOCAL SERVICE"@,
    ) || eq_ignore_ascii_case(u, "S-1-5-19"@) {
        Some(ServiceAccount::LocalService)
    } else if eq_ignore_ascii_case(u, "NETWORK SERVICE"@) || eq_ignore_ascii_case(
        u,
        "NT AUTHORITY\\NETWORK SERVICE"@,
    ) || eq_ignore_ascii_case(u, "S-1-5-20"@) {
        Some(ServiceAccount::NetworkService)
    } else {
        None
    }
}

/// Whether `id` is the identity a `Principal` element names: its group,
/// else its user (a built-in service account when the name denotes one),
/// else none.
pub open spec fn identity_read(n: Node, id: PrincipalIdentity) -> bool {
    match text_of(n, "GroupId"@) {
        Some(g) => id matches PrincipalIdentity::Group(s) && s@ == g,
        None => match text_of(n, "UserId"@) {
            Some(u) => match service_account_named(u) {
                Some(a) => id == PrincipalIdentity::ServiceAccount(a),
                None => id matches PrincipalIdentity::User(s) && s@ == u,
            },
            None => id is Unspecified,
        },
    }
}

fn ignore_case_eq(a: &str, b: &str) -> (r: bool)
    ensures
        r == eq_ignore_ascii_case(a@, b@),
{
    let x = chars_of(a);
    let y = chars_of(b);
    crate::schedule::eq_ignore_case_exec(x.as_slice(), y.as_slice())
}

fn service_account(u: &str) -> (r: Option<ServiceAccount>)
    ensures
        r == service_account_named(u@),
{
    if ignore_case_eq(u, "SYSTEM") || ignore_case_eq(u, "S-1-5-18") {
        Some(ServiceAccount::LocalSystem)
    } else if ignore_case_eq(u, "LOCAL SERVICE") || ignore_case_eq(u, "NT AUTHORITY\\LOCAL SERVICE")
        || ignore_case_eq(u, "S-1-5-19") {
        Some(ServiceAccount::LocalService)
    } else if ignore_case_eq(u, "NETWORK SERVICE") || ignore_case_eq(
        u,
        "NT AUTHORITY\\NETWORK SERVICE",
    ) || ignore_case_eq(u, "S-1-5-20") {
        Some(ServiceAccount::NetworkService)
    } else {
        None
    }
}

fn read_identity(n: &Node) -> (id: PrincipalIdentity)
    ensures
        identity_read(*n, id),
{
    if let Some(group) = child_text(n, "GroupId") {
        PrincipalIdentity::Group(group.to_owned())
    } else if let Some(user) = child_text(n, "UserId") {
        match service_account(user) {
            Some(a) => PrincipalIdentity::ServiceAccount(a),
            None => PrincipalIdentity::User(user.to_owned()),
        }
    } else {
        PrincipalIdentity::Unspecified
    }
}

/// The logon type a `LogonType` text names; the values outside the schema
/// that older documents carry are accepted too.
pub open spec fn logon_type_named(t: Seq<char>) -> Option<LogonType> {
    if t == "None"@ {
        Some(LogonType::Unspecified)
    } else if t == "Password"@ {
        Some(LogonType::Password)
    } else if t == "InteractiveToken"@ {
        Some(LogonType::InteractiveToken)
    } else if t == "S4U"@ {
        Some(LogonType::S4u)
    } else if t == "Group"@ {
        Some(LogonType::Group)
    } else if t == "ServiceAccount"@ {
        Some(LogonType::ServiceAccount)
    } else if t == "InteractiveTokenOrPassword"@ {
        Some(LogonType::InteractiveTokenOrPassword)
    } else {
        None
    }
}

/// The logon type inferred for an identity when none is written.
pub open spec fn inferred_logon_type(id: PrincipalIdentity) -> LogonType {
    match id {
        PrincipalIdentity::Group(_) => LogonType::Group,
        PrincipalIdentity::ServiceAccount(_) => LogonType::ServiceAccount,
        _ => LogonType::Unspecified,
    }
}

/// The run level a `RunLevel` text names.
pub open spec fn run_level_named(t: Seq<char>) -> Option<RunLevel> {
    if t == "LeastPrivilege"@ {
        Some(RunLevel::LeastPrivilege)
    } else if t == "HighestAvailable"@ {
        Some(RunLevel::HighestAvailable)
    } else {
        None
    }
}

/// The token SID type a `ProcessTokenSidType` text names.
pub open spec fn sid_type_named(t: Seq<char>) -> Option<ProcessTokenSidType> {
    if t == "Default"@ {
        Some(ProcessTokenSidType::Default)
    } else if t == "None"@ {
        Some(ProcessTokenSidType::NoSid)
    } else if t == "Unrestricted"@ {
        Some(ProcessTokenSidType::Unrestricted)
    } else {
        None
    }
}

/// The `Privilege` elements of a principal's `RequiredPrivileges`.
pub open spec fn privilege_nodes(n: Node) -> Seq<Node> {
    match child_of(n, "RequiredPrivileges"@) {
        Some(c) => named(c.children@, "Privilege"@),
        None => Seq::<Node>::empty(),
    }
}

/// Whether a `Principal` element holds an unknown logon type, run level or
/// token SID type, or an invalid privilege name.
pub open spec fn principal_fault(n: Node) -> bool {
    ||| text_of(n, "LogonType"@) matches Some(t) && logon_type_named(t) is None
    ||| text_of(n, "RunLevel"@) matches Some(t) && run_level_named(t) is None
    ||| text_of(n, "ProcessTokenSidType"@) matches Some(t) && sid_type_named(t) is None
    ||| exists|i: int|
        0 <= i < privilege_nodes(n).len() && !crate::model::principal::is_privilege_name(
            #[trigger] privilege_nodes(n)[i].text@,
        )
}

/// Whether `p` is what a valid `Principal` element holds.
pub open spec fn principal_read(n: Node, p: Principal) -> bool {
    &&& p.id@ == match attr_of(n, "id"@) {
        Some(v) => v,
        None => "Author"@,
    }
    &&& opt_view(p.display_name) == text_of(n, "DisplayName"@)
    &&& identity_read(n, p.identity)
    &&& p.logon_type == match text_of(n, "LogonType"@) {
        Some(t) => logon_type_named(t)->0,
        None => inferred_logon_type(p.identity),
    }
    &&& p.run_level == match text_of(n, "RunLevel"@) {
        Some(t) => run_level_named(t)->0,
        None => RunLevel::LeastPrivilege,
    }
    &&& p.process_token_sid_type == match text_of(n, "ProcessTokenSidType"@) {
        Some(t) => sid_type_named(t)->0,
        None => ProcessTokenSidType::Default,
    }
    &&& p.required_privileges@.len() == privilege_nodes(n).len()
    &&& forall|i: int|
        0 <= i < p.required_privileges@.len() ==> (#[trigger] p.required_privileges@[i])@
            == privilege_nodes(n)[i].text@
}

fn read_logon_type(t: &str) -> (r: Option<LogonType>)
    ensures
        r == logon_type_named(t@),
{
    if str_eq(t, "None") {
        Some(LogonType::Unspecified)
    } else if str_eq(t, "Password") {
        Some(LogonType::Password)
    } else if str_eq(t, "InteractiveToken") {
        Some(LogonType::InteractiveToken)
    } else if str_eq(t, "S4U") {
        Some(LogonType::S4u)
    } else if str_eq(t, "Group") {
        Some(LogonType::Group)
    } else if str_eq(t, "ServiceAccount") {
        Some(LogonType::ServiceAccount)
    } else if str_eq(t, "InteractiveTokenOrPassword") {
        Some(LogonType::InteractiveTokenOrPassword)
    } else {
        None
    }
}

fn read_run_level(t: &str) -> (r: Option<RunLevel>)
    ensures
        r == run_level_named(t@),
{
    if str_eq(t, "LeastPrivilege") {
        Some(RunLevel::LeastPrivilege)
    } else if str_eq(t, "HighestAvailable") {
        Some(RunLevel::HighestAvailable)
    } else {
        None
    }
}

fn read_sid_type(t: &str) -> (r: Option<ProcessTokenSidType>)
    ensures
        r == sid_type_named(t@),
{
    if str_eq(t, "Default") {
        Some(ProcessTokenSidType::Default)
    } else if str_eq(t, "None") {
        Some(ProcessTokenSidType::NoSid)
    } else if str_eq(t, "Unrestricted") {
        Some(ProcessTokenSidType::Unrestricted)
    } else {
        None
    }
}

fn read_privileges(n: &Node) -> (r: Result<Vec<RequiredPrivilege>, Error>)
    ensures
        match r {
            Ok(v) => {
                &&& forall|i: int|
                    0 <= i < privilege_nodes(*n).len() ==> crate::model::principal::is_privilege_name(
                        #[trigger] privilege_nodes(*n)[i].text@,
                    )
                &&& v@.len() == privilege_nodes(*n).len()
                &&& forall|i: int| 0 <= i < v@.len() ==> (#[trigger] v@[i])@ == privilege_nodes(*n)[i].text@
            },
            Err(e) => {
                &&& exists|i: int|
                    0 <= i < privilege_nodes(*n).len() && !crate::model::principal::is_privilege_name(
                        #[trigger] privilege_nodes(*n)[i].text@,
                    )
                &&& e@.kind == ErrorKind::Xml
            },
        },
{
    let mut out: Vec<RequiredPrivilege> = Vec::new();
    let container = match child(n, "RequiredPrivileges") {
        Some(c) => c,
        None => {
            return Ok(out);
        },
    };
    let positions = named_positions(container, "Privilege");
    let ghost nodes = privilege_nodes(*n);
    let mut i: usize = 0;
    while i < positions.len()
        invariant
            i <= positions@.len(),
            nodes == named(container.children@, "Privilege"@),
            nodes == privilege_nodes(*n),
            positions@.len() == nodes.len(),
            forall|k: int|
                0 <= k < positions@.len() ==> #[trigger] positions@[k] < container.children@.len()
                    && container.children@[positions@[k] as int] == nodes[k],
            out@.len() == i,
            forall|k: int|
                0 <= k < i ==> crate::model::principal::is_privilege_name(#[trigger] nodes[k].text@),
            forall|k: int| 0 <= k < i ==> (#[trigger] out@[k])@ == nodes[k].text@,
        decreases positions.len() - i,
    {
        let text = container.children[positions[i]].text.as_str();
        match RequiredPrivilege::new(text) {
            Ok(p) => out.push(p),
            Err(_) => {
                proof {
                    assert(!crate::model::principal::is_privilege_name(privilege_nodes(*n)[i as int].text@));
                }
                return Err(field_error("Privilege", "a privilege name", text));
            },
        }
        i += 1;
    }
    Ok(out)
}

/// Reads a `Principal` element.
pub fn parse_principal(n: &Node) -> (r: Result<Principal, Error>)
    ensures
        match r {
            Ok(p) => !principal_fault(*n) && principal_read(*n, p),
            Err(e) => principal_fault(*n) && e@.kind == ErrorKind::Xml,
        },
{
    let identity = read_identity(n);
    let logon_type = match child_text(n, "LogonType") {
        Some(t) => match read_logon_type(t) {
            Some(l) => l,
            None => {
                return Err(field_error("LogonType", "a known logon type", t));
            },
        },
        None => match &identity {
            PrincipalIdentity::Group(_) => LogonType::Group,
            PrincipalIdentity::ServiceAccount(_) => LogonType::ServiceAccount,
            _ => LogonType::Unspecified,
        },
    };
    let run_level = match child_text(n, "RunLevel") {
        Some(t) => match read_run_level(t) {
            Some(l) => l,
            None => {
                return Err(field_error("RunLevel", "a known run level", t));
            },
        },
        None => RunLevel::LeastPrivilege,
    };
    let process_token_sid_type = match child_text(n, "ProcessTokenSidType") {
        Some(t) => match read_sid_type(t) {
            Some(s) => s,
            None => {
                return Err(field_error("ProcessTokenSidType", "a known token SID type", t));
            },
        },
        None => ProcessTokenSidType::Default,
    };
    let required_privileges = read_privileges(n)?;
    let id = match owned_attribute(n, "id") {
        Some(v) => v,
        None => {
            proof {
                reveal_strlit("Author");
            }
            "Author".to_owned()
        },
    };
    Ok(Principal {
        id,
        display_name: owned_text(n, "DisplayName"),
        identity,
        logon_type,
        run_level,
        process_token_sid_type,
        required_privileges,
    })
}


// ---------------------------------------------------------------------------
// Settings
// ---------------------------------------------------------------------------

/// The policy a `MultipleInstancesPolicy` text names.
pub open spec fn instances_named(t: Seq<char>) -> Option<MultipleInstancesPolicy> {
    if t == "Parallel"@ {
        Some(MultipleInstancesPolicy::Parallel)
    } else if t == "Queue"@ {
        Some(MultipleInstancesPolicy::Queue)
    } else if t == "IgnoreNew"@ {
        Some(MultipleInstancesPolicy::IgnoreNew)
    } else if t == "StopExisting"@ {
        Some(MultipleInstancesPolicy::StopExisting)
    } else {
        None
    }
}

/// A boolean child of an optional element: absent when the element is.
pub open spec fn opt_bool_field(c: Option<Node>, name: Seq<char>) -> Option<Option<bool>> {
    match c {
        Some(c) => bool_field(c, name),
        None => Some(None),
    }
}

/// A duration child of an optional element: absent when the element is.
pub open spec fn opt_duration_field(c: Option<Node>, name: Seq<char>) -> Option<Option<(nat, nat)>> {
    match c {
        Some(c) => duration_field(c, name),
        None => Some(None),
    }
}

/// The text of a child of an optional element.
pub open spec fn opt_text_of(c: Option<Node>, name: Seq<char>) -> Option<Seq<char>> {
    match c {
        Some(c) => text_of(c, name),
        None => None,
    }
}

/// The value of a duration field, or `default` when it is absent.
pub open spec fn duration_or(f: Option<Option<(nat, nat)>>, default: (nat, nat)) -> (nat, nat) {
    match f {
        Some(Some(d)) => d,
        _ => default,
    }
}

/// Whether the settings ask for idle conditions: `RunOnlyIfIdle` is true;
/// an `IdleSettings` element alone only holds inactive native defaults.
pub open spec fn idle_requested(n: Node) -> bool {
    bool_or(bool_field(n, "RunOnlyIfIdle"@), false)
}

/// Whether the settings ask for a network: `RunOnlyIfNetworkAvailable` is
/// true or a `NetworkSettings` element is present.
pub open spec fn network_requested(n: Node) -> bool {
    bool_or(bool_field(n, "RunOnlyIfNetworkAvailable"@), false) || child_of(n, "NetworkSettings"@)
        is Some
}

/// Whether a `RestartOnFailure` element lacks a valid interval or count.
pub open spec fn restart_fault(c: Node) -> bool {
    required_duration_field(c, "Interval"@) is None || required_number_field(c, "Count"@, 255) is None
}

/// Whether an `IdleSettings` element holds a malformed field.
pub open spec fn idle_fault(c: Node) -> bool {
    ||| duration_field(c, "Duration"@) is None
    ||| duration_field(c, "WaitTimeout"@) is None
    ||| bool_field(c, "StopOnIdleEnd"@) is None
    ||| bool_field(c, "RestartOnIdle"@) is None
}

/// Whether a `MaintenanceSettings` element lacks a valid period or
/// deadline or holds a malformed `Exclusive`.
pub open spec fn maintenance_fault(c: Node) -> bool {
    ||| required_duration_field(c, "Period"@) is None
    ||| required_duration_field(c, "Deadline"@) is None
    ||| bool_field(c, "Exclusive"@) is None
}

/// Whether a `Settings` element holds a malformed field.
pub open spec fn settings_fault(n: Node) -> bool {
    ||| bool_field(n, "AllowStartOnDemand"@) is None
    ||| text_of(n, "MultipleInstancesPolicy"@) matches Some(t) && instances_named(t) is None
    ||| bool_field(n, "DisallowStartIfOnBatteries"@) is None
    ||| bool_field(n, "StopIfGoingOnBatteries"@) is None
    ||| bool_field(n, "AllowHardTerminate"@) is None
    ||| bool_field(n, "StartWhenAvailable"@) is None
    ||| text_of(n, "ExecutionTimeLimit"@) matches Some(t) && limit_text_value(t) is None
    ||| bool_field(n, "Enabled"@) is None
    ||| duration_field(n, "DeleteExpiredTaskAfter"@) is None
    ||| number_field(n, "Priority"@, 255) is None
    ||| bool_field(n, "WakeToRun"@) is None
    ||| bool_field(n, "Hidden"@) is None
    ||| bool_field(n, "UseUnifiedSchedulingEngine"@) is None
    ||| bool_field(n, "DisallowStartOnRemoteAppSession"@) is None
    ||| bool_field(n, "Volatile"@) is None
    ||| child_of(n, "RestartOnFailure"@) matches Some(c) && restart_fault(c)
    ||| bool_field(n, "RunOnlyIfIdle"@) is None
    ||| child_of(n, "IdleSettings"@) matches Some(c) && idle_requested(n) && idle_fault(c)
    ||| bool_field(n, "RunOnlyIfNetworkAvailable"@) is None
    ||| child_of(n, "MaintenanceSettings"@) matches Some(c) && maintenance_fault(c)
}

/// Whether `i` is what valid idle settings hold, with Task Scheduler's
/// defaults for what is absent.
pub open spec fn idle_read(c: Option<Node>, i: IdleSettings) -> bool {
    &&& i.duration@ == duration_or(opt_duration_field(c, "Duration"@), (600, 0))
    &&& i.wait_timeout@ == duration_or(opt_duration_field(c, "WaitTimeout"@), (3600, 0))
    &&& i.stop_on_idle_end == bool_or(opt_bool_field(c, "StopOnIdleEnd"@), true)
    &&& i.restart_on_idle == bool_or(opt_bool_field(c, "RestartOnIdle"@), false)
}

/// Whether `s` is what a valid `Settings` element holds, with Task
/// Scheduler's defaults for what is absent.
pub open spec fn settings_read(n: Node, s: TaskSettings) -> bool {
    &&& s.allow_demand_start == bool_or(bool_field(n, "AllowStartOnDemand"@), true)
    &&& s.multiple_instances == match text_of(n, "MultipleInstancesPolicy"@) {
        Some(t) => instances_named(t)->0,
        None => MultipleInstancesPolicy::IgnoreNew,
    }
    &&& s.disallow_start_if_on_batteries == bool_or(bool_field(n, "DisallowStartIfOnBatteries"@), true)
    &&& s.stop_if_going_on_batteries == bool_or(bool_field(n, "StopIfGoingOnBatteries"@), true)
    &&& s.allow_hard_terminate == bool_or(bool_field(n, "AllowHardTerminate"@), true)
    &&& s.start_when_available == bool_or(bool_field(n, "StartWhenAvailable"@), false)
    &&& limit_view(s.execution_time_limit) == match text_of(n, "ExecutionTimeLimit"@) {
        Some(t) => limit_text_value(t)->0,
        None => Some((259200nat, 0nat)),
    }
    &&& s.enabled == bool_or(bool_field(n, "Enabled"@), true)
    &&& Some(duration_view(s.delete_expired_after)) == duration_field(n, "DeleteExpiredTaskAfter"@)
    &&& s.priority == match number_field(n, "Priority"@, 255) {
        Some(Some(v)) => v,
        _ => 7,
    }
    &&& s.wake_to_run == bool_or(bool_field(n, "WakeToRun"@), false)
    &&& s.hidden == bool_or(bool_field(n, "Hidden"@), false)
    &&& s.use_unified_scheduling_engine == bool_or(bool_field(n, "UseUnifiedSchedulingEngine"@), false)
    &&& s.disallow_start_on_remote_app_session == bool_or(
        bool_field(n, "DisallowStartOnRemoteAppSession"@),
        false,
    )
    &&& s.volatile == bool_or(bool_field(n, "Volatile"@), false)
    &&& match child_of(n, "RestartOnFailure"@) {
        Some(c) => s.restart_on_failure matches Some(p) && required_duration_field(c, "Interval"@) == Some(
            p.interval@,
        ) && required_number_field(c, "Count"@, 255) == Some(p.count as nat),
        None => s.restart_on_failure is None,
    }
    &&& if idle_requested(n) {
        s.idle matches Some(i) && idle_read(child_of(n, "IdleSettings"@), i)
    } else {
        s.idle is None
    }
    &&& if network_requested(n) {
        s.network matches Some(w) && opt_view(w.id) == opt_text_of(child_of(n, "NetworkSettings"@), "Id"@)
            && opt_view(w.name) == opt_text_of(child_of(n, "NetworkSettings"@), "Name"@)
    } else {
        s.network is None
    }
    &&& match child_of(n, "MaintenanceSettings"@) {
        Some(c) => s.maintenance matches Some(m) && required_duration_field(c, "Period"@) == Some(m.period@)
            && required_duration_field(c, "Deadline"@) == Some(m.deadline@) && m.exclusive == bool_or(
            bool_field(c, "Exclusive"@),
            false,
        ),
        None => s.maintenance is None,
    }
}

fn read_instances(t: &str) -> (r: Option<MultipleInstancesPolicy>)
    ensures
        r == instances_named(t@),
{
    if str_eq(t, "Parallel") {
        Some(MultipleInstancesPolicy::Parallel)
    } else if str_eq(t, "Queue") {
        Some(MultipleInstancesPolicy::Queue)
    } else if str_eq(t, "IgnoreNew") {
        Some(MultipleInstancesPolicy::IgnoreNew)
    } else if str_eq(t, "StopExisting") {
        Some(MultipleInstancesPolicy::StopExisting)
    } else {
        None
    }
}

pub(crate) fn bool_default(v: Option<bool>, default: bool) -> (r: bool)
    ensures
        r == bool_or(Some(v), default),
{
    match v {
        Some(b) => b,
        None => default,
    }
}

fn read_restart(c: &Node) -> (r: Result<RestartPolicy, Error>)
    ensures
        match r {
            Ok(p) => !restart_fault(*c) && required_duration_field(*c, "Interval"@) == Some(p.interval@)
                && required_number_field(*c, "Count"@, 255) == Some(p.count as nat),
            Err(e) => restart_fault(*c) && e@.kind == ErrorKind::Xml,
        },
{
    let interval = required_duration(c, "RestartOnFailure", "Interval")?;
    let count = required_number(c, "RestartOnFailure", "Count", 255)?;
    Ok(RestartPolicy { interval, count: count as u8 })
}

fn read_idle(c: Option<&Node>) -> (r: Result<IdleSettings, Error>)
    ensures
        match r {
            Ok(i) => (c matches Some(c) ==> !idle_fault(*c)) && idle_read(
                match c {
                    Some(c) => Some(*c),
                    None => None,
                },
                i,
            ),
            Err(e) => c matches Some(c) && idle_fault(*c) && e@.kind == ErrorKind::Xml,
        },
{
    let defaults = IdleSettings::default();
    match c {
        None => Ok(defaults),
        Some(c) => {
            let duration = optional_duration(c, "Duration")?;
            let wait_timeout = optional_duration(c, "WaitTimeout")?;
            let stop_on_idle_end = child_bool(c, "StopOnIdleEnd")?;
            let restart_on_idle = child_bool(c, "RestartOnIdle")?;
            Ok(IdleSettings {
                duration: match duration {
                    Some(d) => d,
                    None => defaults.duration,
                },
                wait_timeout: match wait_timeout {
                    Some(d) => d,
                    None => defaults.wait_timeout,
                },
                stop_on_idle_end: bool_default(stop_on_idle_end, defaults.stop_on_idle_end),
                restart_on_idle: bool_default(restart_on_idle, defaults.restart_on_idle),
            })
        },
    }
}

fn read_maintenance(c: &Node) -> (r: Result<MaintenanceSettings, Error>)
    ensures
        match r {
            Ok(m) => !maintenance_fault(*c) && required_duration_field(*c, "Period"@) == Some(m.period@)
                && required_duration_field(*c, "Deadline"@) == Some(m.deadline@) && m.exclusive
                == bool_or(bool_field(*c, "Exclusive"@), false),
            Err(e) => maintenance_fault(*c) && e@.kind == ErrorKind::Xml,
        },
{
    let period = required_duration(c, "MaintenanceSettings", "Period")?;
    let deadline = required_duration(c, "MaintenanceSettings", "Deadline")?;
    let exclusive = bool_default(child_bool(c, "Exclusive")?, false);
    Ok(MaintenanceSettings { period, deadline, exclusive })
}

/// Reads a `Settings` element.
#[verifier::rlimit(100)]
pub fn parse_settings(n: &Node) -> (r: Result<TaskSettings, Error>)
    ensures
        match r {
            Ok(s) => !settings_fault(*n) && settings_read(*n, s),
            Err(e) => settings_fault(*n) && e@.kind == ErrorKind::Xml,
        },
{
    let allow_demand_start = bool_default(child_bool(n, "AllowStartOnDemand")?, true);
    let multiple_instances = match child_text(n, "MultipleInstancesPolicy") {
        Some(t) => match read_instances(t) {
            Some(p) => p,
            None => {
                return Err(field_error("MultipleInstancesPolicy", "a known instance policy", t));
            },
        },
        None => MultipleInstancesPolicy::IgnoreNew,
    };
    let disallow_start_if_on_batteries = bool_default(child_bool(n, "DisallowStartIfOnBatteries")?, true);
    let stop_if_going_on_batteries = bool_default(child_bool(n, "StopIfGoingOnBatteries")?, true);
    let allow_hard_terminate = bool_default(child_bool(n, "AllowHardTerminate")?, true);
    let start_when_available = bool_default(child_bool(n, "StartWhenAvailable")?, false);
    let execution_time_limit = match child_text(n, "ExecutionTimeLimit") {
        Some(t) => parse_limit("ExecutionTimeLimit", t)?,
        None => TaskLimit::default(),
    };
    let enabled = bool_default(child_bool(n, "Enabled")?, true);
    let delete_expired_after = optional_duration(n, "DeleteExpiredTaskAfter")?;
    let priority = match optional_number(n, "Priority", 255)? {
        Some(v) => v as u8,
        None => 7,
    };
    let wake_to_run = bool_default(child_bool(n, "WakeToRun")?, false);
    let hidden = bool_default(child_bool(n, "Hidden")?, false);
    let use_unified_scheduling_engine = bool_default(child_bool(n, "UseUnifiedSchedulingEngine")?, false);
    let disallow_start_on_remote_app_session = bool_default(
        child_bool(n, "DisallowStartOnRemoteAppSession")?,
        false,
    );
    let volatile = bool_default(child_bool(n, "Volatile")?, false);
    let restart_on_failure = match child(n, "RestartOnFailure") {
        Some(c) => Some(read_restart(c)?),
        None => None,
    };
    let run_only_if_idle = bool_default(child_bool(n, "RunOnlyIfIdle")?, false);
    let idle_node = child(n, "IdleSettings");
    let idle = if run_only_if_idle {
        Some(read_idle(idle_node)?)
    } else {
        None
    };
    let run_only_if_network = bool_default(child_bool(n, "RunOnlyIfNetworkAvailable")?, false);
    let network_node = child(n, "NetworkSettings");
    let network = if run_only_if_network || network_node.is_some() {
        Some(
            match network_node {
                Some(c) => NetworkSettings { id: owned_text(c, "Id"), name: owned_text(c, "Name") },
                None => NetworkSettings { id: None, name: None },
            },
        )
    } else {
        None
    };
    let maintenance = match child(n, "MaintenanceSettings") {
        Some(c) => Some(read_maintenance(c)?),
        None => None,
    };
    Ok(TaskSettings {
        allow_demand_start,
        restart_on_failure,
        multiple_instances,
        disallow_start_if_on_batteries,
        stop_if_going_on_batteries,
        allow_hard_terminate,
        start_when_available,
        network,
        execution_time_limit,
        enabled,
        delete_expired_after,
        priority,
        idle,
        wake_to_run,
        hidden,
        use_unified_scheduling_engine,
        disallow_start_on_remote_app_session,
        maintenance,
        volatile,
    })
}


// ---------------------------------------------------------------------------
// Actions
// ---------------------------------------------------------------------------

/// The elements of a list child of `a`: the children named `item` of the
/// first child named `list`, none when it is absent.
pub open spec fn list_items(a: Node, list: Seq<char>, item: Seq<char>) -> Seq<Node> {
    match child_of(a, list) {
        Some(c) => named(c.children@, item),
        None => Seq::<Node>::empty(),
    }
}

/// Whether an action element lacks a required part or holds a malformed
/// one; unknown kinds are never at fault.
pub open spec fn action_fault(a: Node) -> bool {
    if a.name@ == "Exec"@ {
        text_of(a, "Command"@) is None || bool_field(a, "HideAppWindow"@) is None
    } else if a.name@ == "ComHandler"@ {
        match text_of(a, "ClassId"@) {
            Some(t) => crate::history::uuid_parsed(t) is None,
            None => true,
        }
    } else if a.name@ == "SendEmail"@ {
        ||| text_of(a, "Server"@) is None
        ||| exists|i: int|
            0 <= i < list_items(a, "HeaderFields"@, "HeaderField"@).len() && (text_of(
                #[trigger] list_items(a, "HeaderFields"@, "HeaderField"@)[i],
                "Name"@,
            ) is None || text_of(list_items(a, "HeaderFields"@, "HeaderField"@)[i], "Value"@) is None)
    } else if a.name@ == "ShowMessage"@ {
        text_of(a, "Body"@) is None
    } else {
        false
    }
}

/// Whether `h` is what a valid `HeaderField` element holds.
pub open spec fn header_read(n: Node, h: EmailHeader) -> bool {
    Some(h.name@) == text_of(n, "Name"@) && Some(h.value@) == text_of(n, "Value"@)
}

/// Whether `x` is what a valid action element holds; an element of another
/// kind is kept with its name and markup.
pub open spec fn action_read(a: Node, x: Action) -> bool {
    if a.name@ == "Exec"@ {
        &&& x matches Action::Exec(e)
        &&& opt_view(e.id) == attr_of(a, "id"@)
        &&& Some(e.command@) == text_of(a, "Command"@)
        &&& opt_view(e.arguments) == text_of(a, "Arguments"@)
        &&& opt_view(e.working_directory) == text_of(a, "WorkingDirectory"@)
        &&& e.hide_window == bool_or(bool_field(a, "HideAppWindow"@), false)
    } else if a.name@ == "ComHandler"@ {
        &&& x matches Action::ComHandler(c)
        &&& opt_view(c.id) == attr_of(a, "id"@)
        &&& crate::history::uuid_parsed(text_of(a, "ClassId"@)->0) == Some(c.class_id)
        &&& opt_view(c.data) == text_of(a, "Data"@)
    } else if a.name@ == "SendEmail"@ {
        &&& x matches Action::Email(m)
        &&& opt_view(m.id) == attr_of(a, "id"@)
        &&& Some(m.server@) == text_of(a, "Server"@)
        &&& opt_view(m.subject) == text_of(a, "Subject"@)
        &&& opt_view(m.from) == text_of(a, "From"@)
        &&& opt_view(m.to) == text_of(a, "To"@)
        &&& opt_view(m.cc) == text_of(a, "Cc"@)
        &&& opt_view(m.bcc) == text_of(a, "Bcc"@)
        &&& opt_view(m.reply_to) == text_of(a, "ReplyTo"@)
        &&& opt_view(m.body) == text_of(a, "Body"@)
        &&& m.attachments@.len() == list_items(a, "Attachments"@, "File"@).len()
        &&& forall|i: int|
            0 <= i < m.attachments@.len() ==> (#[trigger] m.attachments@[i])@ == list_items(
                a,
                "Attachments"@,
                "File"@,
            )[i].text@
        &&& m.headers@.len() == list_items(a, "HeaderFields"@, "HeaderField"@).len()
        &&& forall|i: int|
            0 <= i < m.headers@.len() ==> header_read(
                list_items(a, "HeaderFields"@, "HeaderField"@)[i],
                #[trigger] m.headers@[i],
            )
    } else if a.name@ == "ShowMessage"@ {
        &&& x matches Action::ShowMessage(m)
        &&& opt_view(m.id) == attr_of(a, "id"@)
        &&& opt_view(m.title) == text_of(a, "Title"@)
        &&& Some(m.body@) == text_of(a, "Body"@)
    } else {
        x matches Action::Unknown(u) && u.kind@ == a.name@ && u.xml@ == crate::markup::node_markup(a)
    }
}

/// Whether an `Actions` element holds a faulty action or more actions than
/// Task Scheduler accepts.
pub open spec fn actions_fault(n: Node) -> bool {
    ||| exists|i: int| 0 <= i < n.children@.len() && action_fault(#[trigger] n.children@[i])
    ||| n.children@.len() > crate::MAX_ACTIONS
}

/// Whether `v` is what a valid `Actions` element holds, in order.
pub open spec fn actions_read(n: Node, v: Seq<Action>) -> bool {
    &&& v.len() == n.children@.len()
    &&& forall|i: int| 0 <= i < v.len() ==> action_read(n.children@[i], #[trigger] v[i])
}

/// The texts of the elements `item` in the list `list` of `a`.
fn list_texts(a: &Node, list: &str, item: &str) -> (r: Vec<String>)
    ensures
        r@.len() == list_items(*a, list@, item@).len(),
        forall|i: int| 0 <= i < r@.len() ==> (#[trigger] r@[i])@ == list_items(*a, list@, item@)[i].text@,
{
    let mut out: Vec<String> = Vec::new();
    let container = match child(a, list) {
        Some(c) => c,
        None => {
            return out;
        },
    };
    let positions = named_positions(container, item);
    let mut i: usize = 0;
    while i < positions.len()
        invariant
            i <= positions@.len(),
            list_items(*a, list@, item@) == named(container.children@, item@),
            positions@.len() == named(container.children@, item@).len(),
            forall|k: int|
                0 <= k < positions@.len() ==> #[trigger] positions@[k] < container.children@.len()
                    && container.children@[positions@[k] as int] == named(container.children@, item@)[k],
            out@.len() == i,
            forall|k: int|
                0 <= k < i ==> (#[trigger] out@[k])@ == named(container.children@, item@)[k].text@,
        decreases positions.len() - i,
    {
        out.push(container.children[positions[i]].text.clone());
        i += 1;
    }
    out
}

fn read_headers(a: &Node) -> (r: Result<Vec<EmailHeader>, Error>)
    ensures
        match r {
            Ok(v) => {
                &&& forall|i: int|
                    0 <= i < list_items(*a, "HeaderFields"@, "HeaderField"@).len() ==> !(text_of(
                        #[trigger] list_items(*a, "HeaderFields"@, "HeaderField"@)[i],
                        "Name"@,
                    ) is None || text_of(list_items(*a, "HeaderFields"@, "HeaderField"@)[i], "Value"@) is None)
                &&& v@.len() == list_items(*a, "HeaderFields"@, "HeaderField"@).len()
                &&& forall|i: int|
                    0 <= i < v@.len() ==> header_read(
                        list_items(*a, "HeaderFields"@, "HeaderField"@)[i],
                        #[trigger] v@[i],
                    )
            },
            Err(e) => {
                &&& exists|i: int|
                    0 <= i < list_items(*a, "HeaderFields"@, "HeaderField"@).len() && (text_of(
                        #[trigger] list_items(*a, "HeaderFields"@, "HeaderField"@)[i],
                        "Name"@,
                    ) is None || text_of(list_items(*a, "HeaderFields"@, "HeaderField"@)[i], "Value"@) is None)
                &&& e@.kind == ErrorKind::Xml
            },
        },
{
    let mut out: Vec<EmailHeader> = Vec::new();
    let ghost items = list_items(*a, "HeaderFields"@, "HeaderField"@);
    let container = match child(a, "HeaderFields") {
        Some(c) => c,
        None => {
            return Ok(out);
        },
    };
    let positions = named_positions(container, "HeaderField");
    let mut i: usize = 0;
    while i < positions.len()
        invariant
            i <= positions@.len(),
            items == list_items(*a, "HeaderFields"@, "HeaderField"@),
            items == named(container.children@, "HeaderField"@),
            positions@.len() == items.len(),
            forall|k: int|
                0 <= k < positions@.len() ==> #[trigger] positions@[k] < container.children@.len()
                    && container.children@[positions@[k] as int] == items[k],
            out@.len() == i,
            forall|k: int|
                0 <= k < i ==> !(text_of(#[trigger] items[k], "Name"@) is None || text_of(items[k], "Value"@) is None),
            forall|k: int| 0 <= k < i ==> header_read(items[k], #[trigger] out@[k]),
        decreases positions.len() - i,
    {
        let h = &container.children[positions[i]];
        let name = match child_text(h, "Name") {
            Some(t) => t.to_owned(),
            None => {
                proof {
                    assert(text_of(items[i as int], "Name"@) is None);
                }
                return Err(missing_error("HeaderField", "Name"));
            },
        };
        let value = match child_text(h, "Value") {
            Some(t) => t.to_owned(),
            None => {
                proof {
                    assert(text_of(items[i as int], "Value"@) is None);
                }
                return Err(missing_error("HeaderField", "Value"));
            },
        };
        out.push(EmailHeader { name, value });
        i += 1;
    }
    Ok(out)
}

fn required_text(n: &Node, parent: &str, name: &str) -> (r: Result<String, Error>)
    ensures
        match r {
            Ok(t) => text_of(*n, name@) == Some(t@),
            Err(e) => text_of(*n, name@) is None && e@.kind == ErrorKind::Xml,
        },
{
    match child_text(n, name) {
        Some(t) => Ok(t.to_owned()),
        None => Err(missing_error(parent, name)),
    }
}

/// Reads one action element.
#[verifier::rlimit(40)]
pub fn parse_action(a: &Node) -> (r: Result<Action, Error>)
    ensures
        match r {
            Ok(x) => !action_fault(*a) && action_read(*a, x),
            Err(e) => action_fault(*a) && e@.kind == ErrorKind::Xml,
        },
{
    let id = owned_attribute(a, "id");
    let kind = a.name.as_str();
    if str_eq(kind, "Exec") {
        let command = required_text(a, "Exec", "Command")?;
        let hide_window = bool_default(child_bool(a, "HideAppWindow")?, false);
        Ok(
            Action::Exec(
                ExecAction {
                    id,
                    command,
                    arguments: owned_text(a, "Arguments"),
                    working_directory: owned_text(a, "WorkingDirectory"),
                    hide_window,
                },
            ),
        )
    } else if str_eq(kind, "ComHandler") {
        let text = match child_text(a, "ClassId") {
            Some(t) => t,
            None => {
                return Err(missing_error("ComHandler", "ClassId"));
            },
        };
        let class_id = match crate::history::parse_uuid_text(text) {
            Ok(v) => v,
            Err(message) => {
                let mut m = "invalid ComHandler ClassId: ".to_owned();
                m.append(message.as_str());
                return Err(xml_error(m.as_str()));
            },
        };
        Ok(Action::ComHandler(ComHandlerAction { id, class_id, data: owned_text(a, "Data") }))
    } else if str_eq(kind, "SendEmail") {
        let server = required_text(a, "SendEmail", "Server")?;
        let attachments = list_texts(a, "Attachments", "File");
        let headers = read_headers(a)?;
        Ok(
            Action::Email(
                EmailAction {
                    id,
                    server,
                    subject: owned_text(a, "Subject"),
                    from: owned_text(a, "From"),
                    to: owned_text(a, "To"),
                    cc: owned_text(a, "Cc"),
                    bcc: owned_text(a, "Bcc"),
                    reply_to: owned_text(a, "ReplyTo"),
                    body: owned_text(a, "Body"),
                    attachments,
                    headers,
                },
            ),
        )
    } else if str_eq(kind, "ShowMessage") {
        let body = required_text(a, "ShowMessage", "Body")?;
        Ok(Action::ShowMessage(ShowMessageAction { id, title: owned_text(a, "Title"), body }))
    } else {
        Ok(Action::Unknown(UnknownAction { kind: kind.to_owned(), xml: crate::markup::node_to_xml(a) }))
    }
}

/// Reads an `Actions` element.
pub fn parse_actions(n: &Node) -> (r: Result<Actions, Error>)
    ensures
        match r {
            Ok(v) => !actions_fault(*n) && actions_read(*n, v@),
            Err(e) => actions_fault(*n) && e@.kind == ErrorKind::Xml,
        },
{
    let mut values: Vec<Action> = Vec::new();
    let mut i: usize = 0;
    while i < n.children.len()
        invariant
            i <= n.children@.len(),
            values@.len() == i,
            forall|k: int| 0 <= k < i ==> !action_fault(#[trigger] n.children@[k]),
            forall|k: int| 0 <= k < i ==> action_read(n.children@[k], #[trigger] values@[k]),
        decreases n.children.len() - i,
    {
        let x = parse_action(&n.children[i])?;
        values.push(x);
        i += 1;
    }
    match Actions::new(values) {
        Ok(a) => Ok(a),
        Err(e) => Err(xml_error(e.message().as_str())),
    }
}


// ---------------------------------------------------------------------------
// Extensions and the whole definition
// ---------------------------------------------------------------------------

/// An element whose unknown children are kept as extensions.
#[derive(Clone, Copy, Debug, Eq, PartialEq, Structural)]
pub enum Section {
    /// The `Task` root.
    Task,
    /// `Task/RegistrationInfo`.
    Registration,
    /// `Task/Settings`.
    Settings,
}

/// Whether a child name is part of the typed model of a section.
pub open spec fn section_knows(section: Section, name: Seq<char>) -> bool {
    match section {
        Section::Task => {
            ||| name == "RegistrationInfo"@
            ||| name == "Triggers"@
            ||| name == "Principals"@
            ||| name == "Settings"@
            ||| name == "Data"@
            ||| name == "Actions"@
        },
        Section::Registration => {
            ||| name == "Author"@
            ||| name == "Date"@
            ||| name == "Description"@
            ||| name == "Documentation"@
            ||| name == "Source"@
            ||| name == "URI"@
            ||| name == "Version"@
            ||| name == "SecurityDescriptor"@
        },
        Section::Settings => {
            ||| name == "AllowStartOnDemand"@
            ||| name == "RestartOnFailure"@
            ||| name == "MultipleInstancesPolicy"@
            ||| name == "DisallowStartIfOnBatteries"@
            ||| name == "StopIfGoingOnBatteries"@
            ||| name == "AllowHardTerminate"@
            ||| name == "StartWhenAvailable"@
            ||| name == "NetworkSettings"@
            ||| name == "RunOnlyIfNetworkAvailable"@
            ||| name == "ExecutionTimeLimit"@
            ||| name == "Enabled"@
            ||| name == "DeleteExpiredTaskAfter"@
            ||| name == "Priority"@
            ||| name == "IdleSettings"@
            ||| name == "RunOnlyIfIdle"@
            ||| name == "WakeToRun"@
            ||| name == "Hidden"@
            ||| name == "UseUnifiedSchedulingEngine"@
            ||| name == "DisallowStartOnRemoteAppSession"@
            ||| name == "MaintenanceSettings"@
            ||| name == "Volatile"@
        },
    }
}

/// The slash-separated path of a section.
pub open spec fn section_path(section: Section) -> Seq<char> {
    match section {
        Section::Task => "Task"@,
        Section::Registration => "Task/RegistrationInfo"@,
        Section::Settings => "Task/Settings"@,
    }
}

fn knows(section: Section, name: &str) -> (r: bool)
    ensures
        r == section_knows(section, name@),
{
    match section {
        Section::Task => str_eq(name, "RegistrationInfo") || str_eq(name, "Triggers") || str_eq(
            name,
            "Principals",
        ) || str_eq(name, "Settings") || str_eq(name, "Data") || str_eq(name, "Actions"),
        Section::Registration => str_eq(name, "Author") || str_eq(name, "Date") || str_eq(
            name,
            "Description",
        ) || str_eq(name, "Documentation") || str_eq(name, "Source") || str_eq(name, "URI")
            || str_eq(name, "Version") || str_eq(name, "SecurityDescriptor"),
        Section::Settings => str_eq(name, "AllowStartOnDemand") || str_eq(name, "RestartOnFailure")
            || str_eq(name, "MultipleInstancesPolicy") || str_eq(name, "DisallowStartIfOnBatteries")
            || str_eq(name, "StopIfGoingOnBatteries") || str_eq(name, "AllowHardTerminate") || str_eq(
            name,
            "StartWhenAvailable",
        ) || str_eq(name, "NetworkSettings") || str_eq(name, "RunOnlyIfNetworkAvailable") || str_eq(
            name,
            "ExecutionTimeLimit",
        ) || str_eq(name, "Enabled") || str_eq(name, "DeleteExpiredTaskAfter") || str_eq(
            name,
            "Priority",
        ) || str_eq(name, "IdleSettings") || str_eq(name, "RunOnlyIfIdle") || str_eq(name, "WakeToRun")
            || str_eq(name, "Hidden") || str_eq(name, "UseUnifiedSchedulingEngine") || str_eq(
            name,
            "DisallowStartOnRemoteAppSession",
        ) || str_eq(name, "MaintenanceSettings") || str_eq(name, "Volatile"),
    }
}

fn section_name(section: Section) -> (r: &'static str)
    ensures
        r@ == section_path(section),
{
    match section {
        Section::Task => "Task",
        Section::Registration => "Task/RegistrationInfo",
        Section::Settings => "Task/Settings",
    }
}

/// An extension as its parent path, ordinal and markup.
pub open spec fn extension_view(e: XmlExtension) -> (Seq<char>, int, Seq<char>) {
    (e.parent@, e.ordinal as int, e.xml@)
}

/// The extensions of the first `count` children of a section element: each
/// child whose name the section does not know, with its position among all
/// the children and its markup.
pub open spec fn extensions_of(children: Seq<Node>, section: Section, count: int) -> Seq<
    (Seq<char>, int, Seq<char>),
>
    decreases count,
{
    if count <= 0 || count > children.len() {
        Seq::empty()
    } else {
        let rest = extensions_of(children, section, count - 1);
        if section_knows(section, children[count - 1].name@) {
            rest
        } else {
            rest.push(
                (section_path(section), count - 1, crate::markup::node_markup(children[count - 1])),
            )
        }
    }
}

/// The extensions of all the children of a section element.
pub open spec fn section_extensions(n: Node, section: Section) -> Seq<(Seq<char>, int, Seq<char>)> {
    extensions_of(n.children@, section, n.children@.len() as int)
}

/// Appends the extensions of a section element.
fn push_extensions(out: &mut Vec<XmlExtension>, n: &Node, section: Section)
    ensures
        final(out)@.map_values(|e: XmlExtension| extension_view(e)) == old(out)@.map_values(
            |e: XmlExtension| extension_view(e),
        ) + section_extensions(*n, section),
{
    let ghost start = old(out)@.map_values(|e: XmlExtension| extension_view(e));
    let mut i: usize = 0;
    while i < n.children.len()
        invariant
            i <= n.children@.len(),
            out@.map_values(|e: XmlExtension| extension_view(e)) == start + extensions_of(
                n.children@,
                section,
                i as int,
            ),
        decreases n.children.len() - i,
    {
        let c = &n.children[i];
        if !knows(section, c.name.as_str()) {
            let ghost before = out@;
            out.push(
                XmlExtension {
                    parent: section_name(section).to_owned(),
                    ordinal: i,
                    xml: crate::markup::node_to_xml(c),
                },
            );
            proof {
                assert(out@.map_values(|e: XmlExtension| extension_view(e)) =~= before.map_values(
                    |e: XmlExtension| extension_view(e),
                ).push(extension_view(out@.last())));
            }
        }
        i += 1;
        proof {
            assert(out@.map_values(|e: XmlExtension| extension_view(e)) =~= start + extensions_of(
                n.children@,
                section,
                i as int,
            ));
        }
    }
}

/// The `Principal` element of a `Task` root.
pub open spec fn principal_node(root: Node) -> Option<Node> {
    match child_of(root, "Principals"@) {
        Some(p) => child_of(p, "Principal"@),
        None => None,
    }
}

/// Whether a principal is the default one: `Author`, with no identity and
/// default token behavior.
pub open spec fn principal_is_default(p: Principal) -> bool {
    &&& p.id@ == seq!['A', 'u', 't', 'h', 'o', 'r']
    &&& p.display_name is None
    &&& p.identity is Unspecified
    &&& p.logon_type == LogonType::Unspecified
    &&& p.run_level == RunLevel::LeastPrivilege
    &&& p.process_token_sid_type == ProcessTokenSidType::Default
    &&& p.required_privileges@.len() == 0
}

/// Whether settings are Task Scheduler's defaults.
pub open spec fn settings_are_default(s: TaskSettings) -> bool {
    &&& s.allow_demand_start
    &&& s.restart_on_failure is None
    &&& s.multiple_instances == MultipleInstancesPolicy::IgnoreNew
    &&& s.disallow_start_if_on_batteries
    &&& s.stop_if_going_on_batteries
    &&& s.allow_hard_terminate
    &&& !s.start_when_available
    &&& s.network is None
    &&& limit_view(s.execution_time_limit) == Some((259200nat, 0nat))
    &&& s.enabled
    &&& s.delete_expired_after is None
    &&& s.priority == 7
    &&& s.idle is None
    &&& !s.wake_to_run
    &&& !s.hidden
    &&& !s.use_unified_scheduling_engine
    &&& !s.disallow_start_on_remote_app_session
    &&& s.maintenance is None
    &&& !s.volatile
}

/// Whether a document tree cannot be read as a task definition: its root
/// is not `Task`, or a section it holds is at fault.
pub open spec fn definition_fault(root: Node) -> bool {
    ||| root.name@ != "Task"@
    ||| child_of(root, "RegistrationInfo"@) matches Some(r) && registration_fault(r)
    ||| principal_node(root) matches Some(p) && principal_fault(p)
    ||| child_of(root, "Settings"@) matches Some(s) && settings_fault(s)
    ||| child_of(root, "Triggers"@) matches Some(t) && crate::xml_triggers::triggers_fault(t)
    ||| child_of(root, "Actions"@) matches Some(a) && actions_fault(a)
}

/// Whether `d` is what a valid document tree holds: each section read from
/// its element, defaults where one is absent, schema 1.2 when no version is
/// written, and the unknown children of the root, of `RegistrationInfo`
/// and of `Settings` kept as extensions in that order.
pub open spec fn definition_read(root: Node, d: TaskDefinition) -> bool {
    &&& d.schema_version@ == match attr_of(root, "version"@) {
        Some(v) => crate::model::schema_version_spec(v),
        None => TaskSchemaVersionView::V1_2,
    }
    &&& match child_of(root, "RegistrationInfo"@) {
        Some(r) => registration_read(r, d.registration),
        None => crate::model::registration_is_empty(d.registration),
    }
    &&& match principal_node(root) {
        Some(p) => principal_read(p, d.principal),
        None => principal_is_default(d.principal),
    }
    &&& match child_of(root, "Settings"@) {
        Some(s) => settings_read(s, d.settings),
        None => settings_are_default(d.settings),
    }
    &&& match child_of(root, "Triggers"@) {
        Some(t) => crate::xml_triggers::triggers_read(t, d.triggers@),
        None => d.triggers@.len() == 0,
    }
    &&& match child_of(root, "Actions"@) {
        Some(a) => actions_read(a, d.actions@),
        None => d.actions@.len() == 0,
    }
    &&& opt_view(d.data) == text_of(root, "Data"@)
    &&& d.extensions@.map_values(|e: XmlExtension| extension_view(e)) == section_extensions(
        root,
        Section::Task,
    ) + match child_of(root, "RegistrationInfo"@) {
        Some(r) => section_extensions(r, Section::Registration),
        None => Seq::empty(),
    } + match child_of(root, "Settings"@) {
        Some(s) => section_extensions(s, Section::Settings),
        None => Seq::empty(),
    }
}

/// Reads the typed task definition from a document tree.
#[verifier::rlimit(60)]
pub fn definition_from_node(root: &Node) -> (r: Result<TaskDefinition, Error>)
    ensures
        match r {
            Ok(d) => !definition_fault(*root) && definition_read(*root, d),
            Err(e) => definition_fault(*root) && e@.kind == ErrorKind::Xml,
        },
{
    if !str_eq(root.name.as_str(), "Task") {
        let mut m = "expected Task root, found ".to_owned();
        m.append(root.name.as_str());
        return Err(xml_error(m.as_str()));
    }
    let schema_version = match attribute(root, "version") {
        Some(v) => TaskSchemaVersion::parse(v),
        None => TaskSchemaVersion::V1_2,
    };
    let registration_node = child(root, "RegistrationInfo");
    let registration = match registration_node {
        Some(r) => parse_registration(r)?,
        None => RegistrationInfo::empty(),
    };
    let principal = match child(root, "Principals") {
        Some(p) => match child(p, "Principal") {
            Some(q) => parse_principal(q)?,
            None => Principal::default(),
        },
        None => Principal::default(),
    };
    let settings_node = child(root, "Settings");
    let settings = match settings_node {
        Some(s) => parse_settings(s)?,
        None => TaskSettings::default(),
    };
    let triggers = match child(root, "Triggers") {
        Some(t) => crate::xml_triggers::parse_triggers(t)?,
        None => Triggers::empty(),
    };
    let actions = match child(root, "Actions") {
        Some(a) => parse_actions(a)?,
        None => Actions::empty(),
    };
    let mut extensions: Vec<XmlExtension> = Vec::new();
    proof {
        assert(extensions@.map_values(|e: XmlExtension| extension_view(e)) =~= Seq::<
            (Seq<char>, int, Seq<char>),
        >::empty());
    }
    push_extensions(&mut extensions, root, Section::Task);
    match registration_node {
        Some(r) => push_extensions(&mut extensions, r, Section::Registration),
        None => {},
    }
    match settings_node {
        Some(s) => push_extensions(&mut extensions, s, Section::Settings),
        None => {},
    }
    proof {
        let e = extensions@.map_values(|e: XmlExtension| extension_view(e));
        let task = section_extensions(*root, Section::Task);
        assert(task =~= Seq::<(Seq<char>, int, Seq<char>)>::empty() + task);
        match child_of(*root, "RegistrationInfo"@) {
            Some(r) => {},
            None => {
                assert(task =~= task + Seq::<(Seq<char>, int, Seq<char>)>::empty());
            },
        }
        match child_of(*root, "Settings"@) {
            Some(s) => {},
            None => {},
        }
    }
    Ok(TaskDefinition {
        schema_version,
        registration,
        triggers,
        principal,
        settings,
        data: owned_text(root, "Data"),
        actions,
        extensions,
    })
}

} // verus!
