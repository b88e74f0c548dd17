//! Writing canonical Task XML from the typed model.
use vstd::prelude::*;
use vstd::string::*;

use crate::markup::{attributes_markup, escape_attribute, escape_text, escaped_attribute, escaped_text};
use crate::model::time::duration_text;
use crate::model::{
    RegistrationInfo, SecurityDescriptor, Month, SessionStateChange, TaskDateTime, Trigger, TriggerCommon, WeekOfMonth, Weekday, Action, EmailAction, EmailHeader, LogonType, MultipleInstancesPolicy, Principal, PrincipalIdentity, ProcessTokenSidType, RunLevel,
    ServiceAccount, TaskDefinition, TaskDuration, TaskLimit, TaskSettings, XmlExtension,
};
use crate::text::{decimal, opt_str_view, opt_view, push_char, str_eq, u64_to_string};

verus! {

broadcast use vstd::string::group_string_axioms;

// ---------------------------------------------------------------------------
// Elements
// ---------------------------------------------------------------------------

/// The texts of a list of strings.
pub open spec fn texts(v: Seq<String>) -> Seq<Seq<char>> {
    v.map_values(|s: String| s@)
}

/// The parts one after another.
pub open spec fn concat(parts: Seq<Seq<char>>) -> Seq<char>
    decreases parts.len(),
{
    if parts.len() == 0 {
        Seq::<char>::empty()
    } else {
        concat(parts.drop_last()) + parts.last()
    }
}

/// The attribute list of at most one attribute.
pub open spec fn attribute_list(attribute: Option<(Seq<char>, Seq<char>)>) -> Seq<(Seq<char>, Seq<char>)> {
    match attribute {
        Some(a) => seq![a],
        None => Seq::empty(),
    }
}

/// An element with an optional attribute, escaped text and child markup:
/// `<name attr="value">text children</name>`.
pub open spec fn container_markup(
    name: Seq<char>,
    attribute: Option<(Seq<char>, Seq<char>)>,
    text: Seq<char>,
    children: Seq<Seq<char>>,
) -> Seq<char> {
    seq!['<'] + name + attributes_markup(attribute_list(attribute)) + seq!['>'] + escaped_text(text)
        + concat(children) + seq!['<', '/'] + name + seq!['>']
}

/// An element holding only escaped text.
pub open spec fn element_markup(name: Seq<char>, text: Seq<char>) -> Seq<char> {
    container_markup(name, None, text, Seq::empty())
}

/// An empty element written as `<name />`.
pub open spec fn empty_markup(name: Seq<char>) -> Seq<char> {
    seq!['<'] + name + seq![' ', '/', '>']
}

/// The text of a boolean.
pub open spec fn bool_markup_text(b: bool) -> Seq<char> {
    if b {
        seq!['t', 'r', 'u', 'e']
    } else {
        seq!['f', 'a', 'l', 's', 'e']
    }
}

/// An element holding a boolean.
pub open spec fn bool_markup(name: Seq<char>, b: bool) -> Seq<char> {
    element_markup(name, bool_markup_text(b))
}

/// An element holding a text, or nothing when there is no text.
pub open spec fn opt_markup(name: Seq<char>, value: Option<Seq<char>>) -> Seq<Seq<char>> {
    match value {
        Some(v) => seq![element_markup(name, v)],
        None => Seq::empty(),
    }
}

proof fn lemma_concat_push(parts: Seq<Seq<char>>, p: Seq<char>)
    ensures
        concat(parts.push(p)) == concat(parts) + p,
{
    assert(parts.push(p).drop_last() =~= parts);
}

/// Writes an element with an optional attribute, text and children.
pub fn container(name: &str, attribute: Option<(&str, &str)>, text: &str, children: &Vec<String>) -> (r:
    String)
    ensures
        r@ == container_markup(
            name@,
            match attribute {
                Some((k, v)) => Some((k@, v@)),
                None => None,
            },
            text@,
            texts(children@),
        ),
{
    let mut out = String::new();
    push_char(&mut out, '<');
    out.append(name);
    let ghost attrs = attribute_list(
        match attribute {
            Some((k, v)) => Some((k@, v@)),
            None => None,
        },
    );
    match attribute {
        Some((k, v)) => {
            push_char(&mut out, ' ');
            out.append(k);
            push_char(&mut out, '=');
            push_char(&mut out, '"');
            out.append(escape_attribute(v).as_str());
            push_char(&mut out, '"');
            proof {
                assert(attrs.drop_last() =~= Seq::<(Seq<char>, Seq<char>)>::empty());
                assert(attributes_markup(attrs.drop_last()) =~= Seq::<char>::empty());
            }
        },
        None => {},
    }
    proof {
        assert(out@ =~= seq!['<'] + name@ + attributes_markup(attrs));
    }
    push_char(&mut out, '>');
    out.append(escape_text(text).as_str());
    let ghost head = out@;
    let mut i: usize = 0;
    while i < children.len()
        invariant
            i <= children@.len(),
            out@ == head + concat(texts(children@).take(i as int)),
        decreases children.len() - i,
    {
        proof {
            assert(texts(children@).take(i + 1) =~= texts(children@).take(i as int).push(children@[i as int]@));
            lemma_concat_push(texts(children@).take(i as int), children@[i as int]@);
        }
        out.append(children[i].as_str());
        i += 1;
    }
    proof {
        assert(texts(children@).take(children@.len() as int) =~= texts(children@));
    }
    out.append("</");
    out.append(name);
    push_char(&mut out, '>');
    proof {
        reveal_strlit("</");
        assert(out@ =~= container_markup(
            name@,
            match attribute {
                Some((k, v)) => Some((k@, v@)),
                None => None,
            },
            text@,
            texts(children@),
        ));
    }
    out
}

/// Writes an element holding only text.
pub fn element(name: &str, text: &str) -> (r: String)
    ensures
        r@ == element_markup(name@, text@),
{
    let none: Vec<String> = Vec::new();
    proof {
        assert(texts(none@) =~= Seq::<Seq<char>>::empty());
    }
    container(name, None, text, &none)
}

/// Writes `<name />`.
pub fn empty_element(name: &str) -> (r: String)
    ensures
        r@ == empty_markup(name@),
{
    let mut out = String::new();
    push_char(&mut out, '<');
    out.append(name);
    out.append(" />");
    proof {
        reveal_strlit(" />");
        assert(out@ =~= empty_markup(name@));
    }
    out
}

/// Writes an element holding `true` or `false`.
pub fn bool_element(name: &str, value: bool) -> (r: String)
    ensures
        r@ == bool_markup(name@, value),
{
    proof {
        reveal_strlit("true");
        reveal_strlit("false");
        assert("true"@ =~= seq!['t', 'r', 'u', 'e']);
        assert("false"@ =~= seq!['f', 'a', 'l', 's', 'e']);
    }
    element(
        name,
        if value {
            "true"
        } else {
            "false"
        },
    )
}

/// Appends one part.
pub fn push_part(children: &mut Vec<String>, part: String)
    ensures
        texts(final(children)@) == texts(old(children)@) + seq![part@],
{
    children.push(part);
    proof {
        assert(texts(final(children)@) =~= texts(old(children)@) + seq![part@]);
    }
}

/// Appends an element holding `value` when there is one.
pub fn push_optional(children: &mut Vec<String>, name: &str, value: Option<&str>)
    ensures
        texts(final(children)@) == texts(old(children)@) + opt_markup(name@, opt_str_view(value)),
{
    match value {
        Some(v) => push_part(children, element(name, v)),
        None => {
            proof {
                assert(texts(children@) =~= texts(children@) + Seq::<Seq<char>>::empty());
            }
        },
    }
}

// ---------------------------------------------------------------------------
// Extensions
// ---------------------------------------------------------------------------

/// The first position of an extension with the least ordinal.
pub open spec fn least_ordinal_at(e: Seq<(int, Seq<char>)>) -> int
    decreases e.len(),
{
    if e.len() <= 1 {
        0
    } else {
        let m = least_ordinal_at(e.drop_last());
        if e.last().0 < e[m].0 {
            e.len() - 1
        } else {
            m
        }
    }
}

/// The least ordinal is found at a position of the list.
pub proof fn lemma_least_in_range(e: Seq<(int, Seq<char>)>)
    requires
        e.len() > 0,
    ensures
        0 <= least_ordinal_at(e) < e.len(),
    decreases e.len(),
{
    if e.len() > 1 {
        lemma_least_in_range(e.drop_last());
    }
}

/// The extensions ordered by ordinal, keeping the given order among equal
/// ordinals.
pub open spec fn by_ordinal(e: Seq<(int, Seq<char>)>) -> Seq<(int, Seq<char>)>
    decreases e.len(),
{
    if e.len() == 0 {
        Seq::empty()
    } else {
        let m = least_ordinal_at(e);
        proof {
            lemma_least_in_range(e);
        }
        seq![e[m]] + by_ordinal(e.remove(m))
    }
}

proof fn lemma_by_ordinal_len(e: Seq<(int, Seq<char>)>)
    ensures
        by_ordinal(e).len() == e.len(),
    decreases e.len(),
{
    if e.len() > 0 {
        lemma_least_in_range(e);
        lemma_by_ordinal_len(e.remove(least_ordinal_at(e)));
    }
}

/// The extensions of `parent` as ordinal and markup, in the given order.
pub open spec fn extensions_under(extensions: Seq<XmlExtension>, parent: Seq<char>) -> Seq<(int, Seq<char>)>
    decreases extensions.len(),
{
    if extensions.len() == 0 {
        Seq::empty()
    } else {
        let rest = extensions_under(extensions.drop_last(), parent);
        if extensions.last().parent@ == parent {
            rest.push((extensions.last().ordinal as int, extensions.last().xml@))
        } else {
            rest
        }
    }
}

/// Inserts the first `count` ordered extensions one after another, the
/// `k`-th at its ordinal plus `k`, or at the end when that is past it.
pub open spec fn inserted(known: Seq<Seq<char>>, e: Seq<(int, Seq<char>)>, count: int) -> Seq<Seq<char>>
    decreases count,
{
    if count <= 0 || count > e.len() {
        known
    } else {
        let before = inserted(known, e, count - 1);
        let at = if e[count - 1].0 + (count - 1) < before.len() {
            e[count - 1].0 + (count - 1)
        } else {
            before.len() as int
        };
        before.insert(at, e[count - 1].1)
    }
}

/// The known children with the extensions of `parent` put back among them
/// by ordinal.
pub open spec fn merged(known: Seq<Seq<char>>, extensions: Seq<XmlExtension>, parent: Seq<char>) -> Seq<Seq<char>> {
    let e = by_ordinal(extensions_under(extensions, parent));
    inserted(known, e, e.len() as int)
}

fn matching_extensions(extensions: &[XmlExtension], parent: &str) -> (r: Vec<(usize, String)>)
    ensures
        r@.map_values(|x: (usize, String)| (x.0 as int, x.1@)) == extensions_under(extensions@, parent@),
{
    let mut out: Vec<(usize, String)> = Vec::new();
    let mut i: usize = 0;
    while i < extensions.len()
        invariant
            i <= extensions@.len(),
            out@.map_values(|x: (usize, String)| (x.0 as int, x.1@)) == extensions_under(
                extensions@.take(i as int),
                parent@,
            ),
        decreases extensions.len() - i,
    {
        proof {
            assert(extensions@.take(i + 1).drop_last() =~= extensions@.take(i as int));
        }
        if str_eq(extensions[i].parent.as_str(), parent) {
            out.push((extensions[i].ordinal, extensions[i].xml.clone()));
        }
        i += 1;
        proof {
            assert(out@.map_values(|x: (usize, String)| (x.0 as int, x.1@)) =~= extensions_under(
                extensions@.take(i as int),
                parent@,
            ));
        }
    }
    proof {
        assert(extensions@.take(extensions@.len() as int) =~= extensions@);
    }
    out
}

fn least_position(e: &Vec<(usize, String)>) -> (m: usize)
    requires
        e@.len() > 0,
    ensures
        m < e@.len(),
        m == least_ordinal_at(e@.map_values(|x: (usize, String)| (x.0 as int, x.1@))),
{
    let ghost v = e@.map_values(|x: (usize, String)| (x.0 as int, x.1@));
    let mut m: usize = 0;
    let mut i: usize = 1;
    while i < e.len()
        invariant
            1 <= i <= e@.len(),
            m < i,
            v == e@.map_values(|x: (usize, String)| (x.0 as int, x.1@)),
            m == least_ordinal_at(v.take(i as int)),
        decreases e.len() - i,
    {
        proof {
            assert(v.take(i + 1).drop_last() =~= v.take(i as int));
        }
        if e[i].0 < e[m].0 {
            m = i;
        }
        i += 1;
    }
    proof {
        assert(v.take(e@.len() as int) =~= v);
    }
    m
}

/// Puts the extensions of `parent` back among the known children by
/// ordinal.
pub fn merge_extensions(parent: &str, known: Vec<String>, extensions: &[XmlExtension]) -> (r: Vec<String>)
    ensures
        texts(r@) == merged(texts(known@), extensions@, parent@),
{
    let mut pending = matching_extensions(extensions, parent);
    let count: usize = pending.len();
    let ghost all = by_ordinal(extensions_under(extensions@, parent@));
    proof {
        assert(extensions_under(extensions@, parent@).len() == count);
        lemma_by_ordinal_len(extensions_under(extensions@, parent@));
        assert(all.take(0) =~= Seq::<(int, Seq<char>)>::empty());
        assert(all =~= all.take(0) + all);
    }
    let mut output = known;
    let mut offset: usize = 0;
    while pending.len() > 0
        invariant
            offset <= all.len(),
            all.len() <= usize::MAX,
            all.len() == offset + pending@.len(),
            all == all.take(offset as int) + by_ordinal(
                pending@.map_values(|x: (usize, String)| (x.0 as int, x.1@)),
            ),
            texts(output@) == inserted(texts(known@), all, offset as int),
        decreases pending.len(),
    {
        let ghost p = pending@.map_values(|x: (usize, String)| (x.0 as int, x.1@));
        let m = least_position(&pending);
        let (ordinal, xml) = pending.remove(m);
        proof {
            lemma_least_in_range(p);
            assert(pending@.map_values(|x: (usize, String)| (x.0 as int, x.1@)) =~= p.remove(m as int));
            assert(by_ordinal(p) == seq![p[m as int]] + by_ordinal(p.remove(m as int)));
            assert(all[offset as int] == p[m as int]);
            assert(all =~= all.take(offset + 1) + by_ordinal(p.remove(m as int)));
        }
        let at: usize = if ordinal < output.len() && offset < output.len() - ordinal {
            ordinal + offset
        } else {
            output.len()
        };
        let ghost before = texts(output@);
        output.insert(at, xml);
        proof {
            assert(texts(output@) =~= before.insert(at as int, all[offset as int].1));
        }
        offset += 1;
    }
    proof {
        assert(pending@.map_values(|x: (usize, String)| (x.0 as int, x.1@)) =~= Seq::<(int, Seq<char>)>::empty());
    }
    output
}


// ---------------------------------------------------------------------------
// Values
// ---------------------------------------------------------------------------

/// The canonical text of a duration.
pub open spec fn dur_text(d: TaskDuration) -> Seq<char> {
    duration_text(d@.0, d@.1)
}

/// The canonical text of an optional duration.
pub open spec fn opt_dur_text(o: Option<TaskDuration>) -> Option<Seq<char>> {
    match o {
        Some(d) => Some(dur_text(d)),
        None => None,
    }
}

/// The text of an execution limit: its duration, or `PT0S` for none.
pub open spec fn limit_text(l: TaskLimit) -> Seq<char> {
    match l {
        TaskLimit::Finite(d) => dur_text(d),
        TaskLimit::Unlimited => seq!['P', 'T', '0', 'S'],
    }
}

/// A string slice of an optional string.
pub fn opt_str(o: &Option<String>) -> (r: Option<&str>)
    ensures
        opt_str_view(r) == opt_view(*o),
{
    match o {
        Some(v) => Some(v.as_str()),
        None => None,
    }
}

fn push_duration(children: &mut Vec<String>, name: &str, d: Option<TaskDuration>)
    ensures
        texts(final(children)@) == texts(old(children)@) + opt_markup(name@, opt_dur_text(d)),
{
    match d {
        Some(v) => push_part(children, element(name, v.to_string().as_str())),
        None => {
            proof {
                assert(texts(children@) =~= texts(children@) + Seq::<Seq<char>>::empty());
            }
        },
    }
}

fn limit_string(l: TaskLimit) -> (r: String)
    ensures
        r@ == limit_text(l),
{
    match l {
        TaskLimit::Finite(d) => d.to_string(),
        TaskLimit::Unlimited => {
            proof {
                reveal_strlit("PT0S");
                assert("PT0S"@ =~= seq!['P', 'T', '0', 'S']);
            }
            "PT0S".to_owned()
        },
    }
}

fn push_if(children: &mut Vec<String>, condition: bool, part: String)
    ensures
        texts(final(children)@) == texts(old(children)@) + if condition {
            seq![part@]
        } else {
            Seq::empty()
        },
{
    if condition {
        push_part(children, part);
    } else {
        proof {
            assert(texts(children@) =~= texts(children@) + Seq::<Seq<char>>::empty());
        }
    }
}

// ---------------------------------------------------------------------------
// Principal
// ---------------------------------------------------------------------------

/// The user name written for a built-in service account.
pub open spec fn service_account_text(a: ServiceAccount) -> Seq<char> {
    match a {
        ServiceAccount::LocalSystem => "SYSTEM"@,
        ServiceAccount::LocalService => "NT AUTHORITY\\LOCAL SERVICE"@,
        ServiceAccount::NetworkService => "NT AUTHORITY\\NETWORK SERVICE"@,
    }
}

/// The element naming an identity, if any.
pub open spec fn identity_markup(id: PrincipalIdentity) -> Seq<Seq<char>> {
    match id {
        PrincipalIdentity::Unspecified => Seq::empty(),
        PrincipalIdentity::User(u) => seq![element_markup("UserId"@, u@)],
        PrincipalIdentity::Group(g) => seq![element_markup("GroupId"@, g@)],
        PrincipalIdentity::ServiceAccount(a) => seq![element_markup("UserId"@, service_account_text(a))],
    }
}

/// The `LogonType` text written for a logon type; the types that Task
/// Scheduler infers from the identity are not written.
pub open spec fn logon_type_text(l: LogonType) -> Option<Seq<char>> {
    match l {
        LogonType::Password => Some("Password"@),
        LogonType::InteractiveToken => Some("InteractiveToken"@),
        LogonType::S4u => Some("S4U"@),
        LogonType::InteractiveTokenOrPassword => Some("InteractiveTokenOrPassword"@),
        _ => None,
    }
}

/// The text of a run level.
pub open spec fn run_level_text(r: RunLevel) -> Seq<char> {
    match r {
        RunLevel::LeastPrivilege => "LeastPrivilege"@,
        RunLevel::HighestAvailable => "HighestAvailable"@,
    }
}

/// The text of a token SID type.
pub open spec fn sid_type_text(s: ProcessTokenSidType) -> Seq<char> {
    match s {
        ProcessTokenSidType::Default => "Default"@,
        ProcessTokenSidType::NoSid => "None"@,
        ProcessTokenSidType::Unrestricted => "Unrestricted"@,
    }
}

/// The `RequiredPrivileges` element, when any privilege is requested.
pub open spec fn privileges_markup(p: Principal) -> Seq<Seq<char>> {
    if p.required_privileges@.len() == 0 {
        Seq::empty()
    } else {
        seq![
            container_markup(
                "RequiredPrivileges"@,
                None,
                Seq::empty(),
                p.required_privileges@.map_values(|x: crate::model::RequiredPrivilege| element_markup("Privilege"@, x@)),
            ),
        ]
    }
}

/// The children of the `Principal` element: identity, display name,
/// logon type, run level, token SID type when not the default, privileges.
pub open spec fn principal_children(p: Principal) -> Seq<Seq<char>> {
    identity_markup(p.identity) + opt_markup("DisplayName"@, opt_view(p.display_name)) + opt_markup(
        "LogonType"@,
        logon_type_text(p.logon_type),
    ) + seq![element_markup("RunLevel"@, run_level_text(p.run_level))] + if p.process_token_sid_type
        != ProcessTokenSidType::Default {
        seq![element_markup("ProcessTokenSidType"@, sid_type_text(p.process_token_sid_type))]
    } else {
        Seq::empty()
    } + privileges_markup(p)
}

/// The `Principals` element holding one `Principal` with its `id`.
pub open spec fn principal_markup(p: Principal) -> Seq<char> {
    container_markup(
        "Principals"@,
        None,
        Seq::empty(),
        seq![container_markup("Principal"@, Some(("id"@, p.id@)), Seq::empty(), principal_children(p))],
    )
}

fn no_parts() -> (r: Vec<String>)
    ensures
        texts(r@) == Seq::<Seq<char>>::empty(),
{
    let r: Vec<String> = Vec::new();
    proof {
        assert(texts(r@) =~= Seq::<Seq<char>>::empty());
    }
    r
}

/// Writes the `Principals` element.
pub fn write_principal(p: &Principal) -> (r: String)
    ensures
        r@ == principal_markup(*p),
{
    let mut children = no_parts();
    match &p.identity {
        PrincipalIdentity::Unspecified => {},
        PrincipalIdentity::User(u) => push_part(&mut children, element("UserId", u.as_str())),
        PrincipalIdentity::Group(g) => push_part(&mut children, element("GroupId", g.as_str())),
        PrincipalIdentity::ServiceAccount(a) => push_part(
            &mut children,
            element(
                "UserId",
                match a {
                    ServiceAccount::LocalSystem => "SYSTEM",
                    ServiceAccount::LocalService => "NT AUTHORITY\\LOCAL SERVICE",
                    ServiceAccount::NetworkService => "NT AUTHORITY\\NETWORK SERVICE",
                },
            ),
        ),
    }
    proof {
        assert(texts(children@) =~= identity_markup(p.identity));
    }
    push_optional(&mut children, "DisplayName", opt_str(&p.display_name));
    let logon: Option<&str> = match p.logon_type {
        LogonType::Password => Some("Password"),
        LogonType::InteractiveToken => Some("InteractiveToken"),
        LogonType::S4u => Some("S4U"),
        LogonType::InteractiveTokenOrPassword => Some("InteractiveTokenOrPassword"),
        _ => None,
    };
    push_optional(&mut children, "LogonType", logon);
    push_part(
        &mut children,
        element(
            "RunLevel",
            match p.run_level {
                RunLevel::LeastPrivilege => "LeastPrivilege",
                RunLevel::HighestAvailable => "HighestAvailable",
            },
        ),
    );
    let sid = match p.process_token_sid_type {
        ProcessTokenSidType::Default => "Default",
        ProcessTokenSidType::NoSid => "None",
        ProcessTokenSidType::Unrestricted => "Unrestricted",
    };
    push_if(
        &mut children,
        p.process_token_sid_type != ProcessTokenSidType::Default,
        element("ProcessTokenSidType", sid),
    );
    if p.required_privileges.len() > 0 {
        let mut items = no_parts();
        let mut i: usize = 0;
        while i < p.required_privileges.len()
            invariant
                i <= p.required_privileges@.len(),
                texts(items@) == p.required_privileges@.take(i as int).map_values(
                    |x: crate::model::RequiredPrivilege| element_markup("Privilege"@, x@),
                ),
            decreases p.required_privileges.len() - i,
        {
            push_part(&mut items, element("Privilege", p.required_privileges[i].as_str()));
            i += 1;
            proof {
                assert(texts(items@) =~= p.required_privileges@.take(i as int).map_values(
                    |x: crate::model::RequiredPrivilege| element_markup("Privilege"@, x@),
                ));
            }
        }
        proof {
            assert(p.required_privileges@.take(p.required_privileges@.len() as int) =~= p.required_privileges@);
        }
        push_part(&mut children, container("RequiredPrivileges", None, "", &items));
        proof {
            reveal_strlit("");
            assert(""@ =~= Seq::<char>::empty());
        }
    } else {
        proof {
            assert(texts(children@) =~= texts(children@) + Seq::<Seq<char>>::empty());
        }
    }
    let principal = container("Principal", Some(("id", p.id.as_str())), "", &children);
    let mut outer = no_parts();
    push_part(&mut outer, principal);
    proof {
        reveal_strlit("");
        assert(""@ =~= Seq::<char>::empty());
        assert(texts(outer@) =~= seq![principal@]);
    }
    container("Principals", None, "", &outer)
}


// ---------------------------------------------------------------------------
// Settings
// ---------------------------------------------------------------------------

/// The text of an instance policy.
pub open spec fn instances_text(m: MultipleInstancesPolicy) -> Seq<char> {
    match m {
        MultipleInstancesPolicy::Parallel => "Parallel"@,
        MultipleInstancesPolicy::Queue => "Queue"@,
        MultipleInstancesPolicy::IgnoreNew => "IgnoreNew"@,
        MultipleInstancesPolicy::StopExisting => "StopExisting"@,
    }
}

/// The first known children of the `Settings` element: demand start,
/// battery flags and the restart policy.
pub open spec fn settings_start(s: TaskSettings) -> Seq<Seq<char>> {
    seq![
        bool_markup("AllowStartOnDemand"@, s.allow_demand_start),
        bool_markup("DisallowStartIfOnBatteries"@, s.disallow_start_if_on_batteries),
        bool_markup("StopIfGoingOnBatteries"@, s.stop_if_going_on_batteries),
    ] + match s.restart_on_failure {
        Some(r) => seq![
            container_markup(
                "RestartOnFailure"@,
                None,
                Seq::empty(),
                seq![
                    element_markup("Interval"@, dur_text(r.interval)),
                    element_markup("Count"@, decimal(r.count as nat)),
                ],
            ),
        ],
        None => Seq::empty(),
    }
}

/// The middle known children of the `Settings` element: instance policy,
/// start and terminate flags, idle and network conditions.
pub open spec fn settings_middle(s: TaskSettings) -> Seq<Seq<char>> {
    seq![
        element_markup("MultipleInstancesPolicy"@, instances_text(s.multiple_instances)),
        bool_markup("StartWhenAvailable"@, s.start_when_available),
        bool_markup("AllowHardTerminate"@, s.allow_hard_terminate),
    ] + match s.idle {
        Some(i) => seq![
            container_markup(
                "IdleSettings"@,
                None,
                Seq::empty(),
                seq![
                    element_markup("Duration"@, dur_text(i.duration)),
                    element_markup("WaitTimeout"@, dur_text(i.wait_timeout)),
                    bool_markup("StopOnIdleEnd"@, i.stop_on_idle_end),
                    bool_markup("RestartOnIdle"@, i.restart_on_idle),
                ],
            ),
        ],
        None => Seq::empty(),
    } + seq![bool_markup("RunOnlyIfIdle"@, s.idle is Some)] + match s.network {
        Some(n) => seq![
            container_markup(
                "NetworkSettings"@,
                None,
                Seq::empty(),
                opt_markup("Name"@, opt_view(n.name)) + opt_markup("Id"@, opt_view(n.id)),
            ),
        ],
        None => Seq::empty(),
    }
}

/// The last known children of the `Settings` element: network, wake,
/// enabled and hidden flags, expiry, limit, priority and the newer
/// settings written only when requested.
pub open spec fn settings_end(s: TaskSettings) -> Seq<Seq<char>> {
    seq![
        bool_markup("RunOnlyIfNetworkAvailable"@, s.network is Some),
        bool_markup("WakeToRun"@, s.wake_to_run),
        bool_markup("Enabled"@, s.enabled),
        bool_markup("Hidden"@, s.hidden),
    ] + opt_markup("DeleteExpiredTaskAfter"@, opt_dur_text(s.delete_expired_after)) + seq![
        element_markup("ExecutionTimeLimit"@, limit_text(s.execution_time_limit)),
        element_markup("Priority"@, decimal(s.priority as nat)),
    ] + if s.use_unified_scheduling_engine {
        seq![bool_markup("UseUnifiedSchedulingEngine"@, true)]
    } else {
        Seq::empty()
    } + if s.disallow_start_on_remote_app_session {
        seq![bool_markup("DisallowStartOnRemoteAppSession"@, true)]
    } else {
        Seq::empty()
    } + match s.maintenance {
        Some(m) => seq![
            container_markup(
                "MaintenanceSettings"@,
                None,
                Seq::empty(),
                seq![
                    element_markup("Period"@, dur_text(m.period)),
                    element_markup("Deadline"@, dur_text(m.deadline)),
                    bool_markup("Exclusive"@, m.exclusive),
                ],
            ),
        ],
        None => Seq::empty(),
    } + if s.volatile {
        seq![bool_markup("Volatile"@, true)]
    } else {
        Seq::empty()
    }
}

/// The known children of the `Settings` element, in canonical order.
pub open spec fn settings_children(s: TaskSettings) -> Seq<Seq<char>> {
    settings_start(s) + settings_middle(s) + settings_end(s)
}

/// The `Settings` element with the settings' extensions among its children.
pub open spec fn settings_markup(d: TaskDefinition) -> Seq<char> {
    container_markup(
        "Settings"@,
        None,
        Seq::empty(),
        merged(settings_children(d.settings), d.extensions@, "Task/Settings"@),
    )
}

fn empty_text() -> (r: &'static str)
    ensures
        r@ == Seq::<char>::empty(),
{
    proof {
        reveal_strlit("");
    }
    ""
}

fn append_parts(children: &mut Vec<String>, more: Vec<String>)
    ensures
        texts(final(children)@) == texts(old(children)@) + texts(more@),
{
    let ghost m = more@;
    let mut more = more;
    children.append(&mut more);
    proof {
        assert(texts(final(children)@) =~= texts(old(children)@) + texts(m));
    }
}

fn three_parts(a: String, b: String, c: String) -> (r: Vec<String>)
    ensures
        texts(r@) == seq![a@, b@, c@],
{
    let mut r = no_parts();
    push_part(&mut r, a);
    push_part(&mut r, b);
    push_part(&mut r, c);
    proof {
        assert(texts(r@) =~= seq![a@, b@, c@]);
    }
    r
}

fn four_parts(a: String, b: String, c: String, d: String) -> (r: Vec<String>)
    ensures
        texts(r@) == seq![a@, b@, c@, d@],
{
    let mut r = three_parts(a, b, c);
    push_part(&mut r, d);
    proof {
        assert(texts(r@) =~= seq![a@, b@, c@, d@]);
    }
    r
}

fn two_parts(a: String, b: String) -> (r: Vec<String>)
    ensures
        texts(r@) == seq![a@, b@],
{
    let mut r = no_parts();
    push_part(&mut r, a);
    push_part(&mut r, b);
    proof {
        assert(texts(r@) =~= seq![a@, b@]);
    }
    r
}

fn settings_start_parts(s: &TaskSettings) -> (r: Vec<String>)
    ensures
        texts(r@) == settings_start(*s),
{
    let mut children = three_parts(
        bool_element("AllowStartOnDemand", s.allow_demand_start),
        bool_element("DisallowStartIfOnBatteries", s.disallow_start_if_on_batteries),
        bool_element("StopIfGoingOnBatteries", s.stop_if_going_on_batteries),
    );
    match s.restart_on_failure {
        Some(r) => {
            let inner = two_parts(
                element("Interval", r.interval.to_string().as_str()),
                element("Count", u64_to_string(r.count as u64).as_str()),
            );
            push_part(&mut children, container("RestartOnFailure", None, empty_text(), &inner));
        },
        None => {
            proof {
                assert(texts(children@) =~= texts(children@) + Seq::<Seq<char>>::empty());
            }
        },
    }
    children
}

fn settings_middle_parts(s: &TaskSettings) -> (r: Vec<String>)
    ensures
        texts(r@) == settings_middle(*s),
{
    let mut children = three_parts(
        element(
            "MultipleInstancesPolicy",
            match s.multiple_instances {
                MultipleInstancesPolicy::Parallel => "Parallel",
                MultipleInstancesPolicy::Queue => "Queue",
                MultipleInstancesPolicy::IgnoreNew => "IgnoreNew",
                MultipleInstancesPolicy::StopExisting => "StopExisting",
            },
        ),
        bool_element("StartWhenAvailable", s.start_when_available),
        bool_element("AllowHardTerminate", s.allow_hard_terminate),
    );
    match s.idle {
        Some(i) => {
            let inner = four_parts(
                element("Duration", i.duration.to_string().as_str()),
                element("WaitTimeout", i.wait_timeout.to_string().as_str()),
                bool_element("StopOnIdleEnd", i.stop_on_idle_end),
                bool_element("RestartOnIdle", i.restart_on_idle),
            );
            push_part(&mut children, container("IdleSettings", None, empty_text(), &inner));
        },
        None => {
            proof {
                assert(texts(children@) =~= texts(children@) + Seq::<Seq<char>>::empty());
            }
        },
    }
    push_part(&mut children, bool_element("RunOnlyIfIdle", s.idle.is_some()));
    match &s.network {
        Some(n) => {
            let mut inner = no_parts();
            push_optional(&mut inner, "Name", opt_str(&n.name));
            push_optional(&mut inner, "Id", opt_str(&n.id));
            proof {
                assert(texts(inner@) =~= opt_markup("Name"@, opt_view(n.name)) + opt_markup("Id"@, opt_view(n.id)));
            }
            push_part(&mut children, container("NetworkSettings", None, empty_text(), &inner));
        },
        None => {
            proof {
                assert(texts(children@) =~= texts(children@) + Seq::<Seq<char>>::empty());
            }
        },
    }
    children
}

fn settings_end_parts(s: &TaskSettings) -> (r: Vec<String>)
    ensures
        texts(r@) == settings_end(*s),
{
    let mut children = four_parts(
        bool_element("RunOnlyIfNetworkAvailable", s.network.is_some()),
        bool_element("WakeToRun", s.wake_to_run),
        bool_element("Enabled", s.enabled),
        bool_element("Hidden", s.hidden),
    );
    push_duration(&mut children, "DeleteExpiredTaskAfter", s.delete_expired_after);
    append_parts(
        &mut children,
        two_parts(
            element("ExecutionTimeLimit", limit_string(s.execution_time_limit).as_str()),
            element("Priority", u64_to_string(s.priority as u64).as_str()),
        ),
    );
    push_if(&mut children, s.use_unified_scheduling_engine, bool_element("UseUnifiedSchedulingEngine", true));
    push_if(
        &mut children,
        s.disallow_start_on_remote_app_session,
        bool_element("DisallowStartOnRemoteAppSession", true),
    );
    match s.maintenance {
        Some(m) => {
            let inner = three_parts(
                element("Period", m.period.to_string().as_str()),
                element("Deadline", m.deadline.to_string().as_str()),
                bool_element("Exclusive", m.exclusive),
            );
            push_part(&mut children, container("MaintenanceSettings", None, empty_text(), &inner));
        },
        None => {
            proof {
                assert(texts(children@) =~= texts(children@) + Seq::<Seq<char>>::empty());
            }
        },
    }
    push_if(&mut children, s.volatile, bool_element("Volatile", true));
    children
}

fn settings_parts(s: &TaskSettings) -> (r: Vec<String>)
    ensures
        texts(r@) == settings_children(*s),
{
    let mut children = settings_start_parts(s);
    append_parts(&mut children, settings_middle_parts(s));
    append_parts(&mut children, settings_end_parts(s));
    children
}

/// Writes the `Settings` element.
pub fn write_settings(d: &TaskDefinition) -> (r: String)
    ensures
        r@ == settings_markup(*d),
{
    let children = merge_extensions("Task/Settings", settings_parts(&d.settings), d.extensions.as_slice());
    container("Settings", None, empty_text(), &children)
}


// ---------------------------------------------------------------------------
// Actions
// ---------------------------------------------------------------------------

/// The `id` attribute of an element, when there is an identifier.
pub open spec fn id_attribute(id: Option<String>) -> Option<(Seq<char>, Seq<char>)> {
    match id {
        Some(v) => Some(("id"@, v@)),
        None => None,
    }
}

/// The `HeaderFields` element, when there are headers.
pub open spec fn headers_markup(m: EmailAction) -> Seq<Seq<char>> {
    if m.headers@.len() == 0 {
        Seq::empty()
    } else {
        seq![
            container_markup(
                "HeaderFields"@,
                None,
                Seq::empty(),
                m.headers@.map_values(
                    |h: EmailHeader|
                        container_markup(
                            "HeaderField"@,
                            None,
                            Seq::empty(),
                            seq![element_markup("Name"@, h.name@), element_markup("Value"@, h.value@)],
                        ),
                ),
            ),
        ]
    }
}

/// The `Attachments` element, when there are attachments.
pub open spec fn attachments_markup(m: EmailAction) -> Seq<Seq<char>> {
    if m.attachments@.len() == 0 {
        Seq::empty()
    } else {
        seq![
            container_markup(
                "Attachments"@,
                None,
                Seq::empty(),
                m.attachments@.map_values(|f: String| element_markup("File"@, f@)),
            ),
        ]
    }
}

/// The markup of an action; an unknown action is written as it was read.
pub open spec fn action_markup(a: Action) -> Seq<char> {
    match a {
        Action::Exec(e) => container_markup(
            "Exec"@,
            id_attribute(e.id),
            Seq::empty(),
            seq![element_markup("Command"@, e.command@)] + opt_markup("Arguments"@, opt_view(e.arguments))
                + opt_markup("WorkingDirectory"@, opt_view(e.working_directory)) + if e.hide_window {
                seq![bool_markup("HideAppWindow"@, true)]
            } else {
                Seq::empty()
            },
        ),
        Action::ComHandler(c) => container_markup(
            "ComHandler"@,
            id_attribute(c.id),
            Seq::empty(),
            seq![element_markup("ClassId"@, crate::manifest::uuid_text(c.class_id as nat))] + opt_markup(
                "Data"@,
                opt_view(c.data),
            ),
        ),
        Action::Email(m) => container_markup(
            "SendEmail"@,
            id_attribute(m.id),
            Seq::empty(),
            seq![element_markup("Server"@, m.server@)] + opt_markup("Subject"@, opt_view(m.subject))
                + opt_markup("To"@, opt_view(m.to)) + opt_markup("Cc"@, opt_view(m.cc)) + opt_markup(
                "Bcc"@,
                opt_view(m.bcc),
            ) + opt_markup("ReplyTo"@, opt_view(m.reply_to)) + opt_markup("From"@, opt_view(m.from))
                + headers_markup(m) + opt_markup("Body"@, opt_view(m.body)) + attachments_markup(m),
        ),
        Action::ShowMessage(m) => container_markup(
            "ShowMessage"@,
            id_attribute(m.id),
            Seq::empty(),
            opt_markup("Title"@, opt_view(m.title)) + seq![element_markup("Body"@, m.body@)],
        ),
        Action::Unknown(u) => u.xml@,
    }
}

/// The `Actions` element, in the context of the principal.
pub open spec fn actions_markup(d: TaskDefinition) -> Seq<char> {
    container_markup(
        "Actions"@,
        Some(("Context"@, d.principal.id@)),
        Seq::empty(),
        d.actions@.map_values(|a: Action| action_markup(a)),
    )
}

fn id_container(name: &str, id: &Option<String>, children: &Vec<String>) -> (r: String)
    ensures
        r@ == container_markup(name@, id_attribute(*id), Seq::empty(), texts(children@)),
{
    proof {
        reveal_strlit("id");
    }
    match id {
        Some(v) => container(name, Some(("id", v.as_str())), empty_text(), children),
        None => container(name, None, empty_text(), children),
    }
}

fn email_parts(m: &EmailAction) -> (r: Vec<String>)
    ensures
        texts(r@) == seq![element_markup("Server"@, m.server@)] + opt_markup("Subject"@, opt_view(m.subject))
            + opt_markup("To"@, opt_view(m.to)) + opt_markup("Cc"@, opt_view(m.cc)) + opt_markup(
            "Bcc"@,
            opt_view(m.bcc),
        ) + opt_markup("ReplyTo"@, opt_view(m.reply_to)) + opt_markup("From"@, opt_view(m.from))
            + headers_markup(*m) + opt_markup("Body"@, opt_view(m.body)) + attachments_markup(*m),
{
    let mut children = no_parts();
    push_part(&mut children, element("Server", m.server.as_str()));
    proof {
        assert(texts(children@) =~= seq![element_markup("Server"@, m.server@)]);
    }
    push_optional(&mut children, "Subject", opt_str(&m.subject));
    push_optional(&mut children, "To", opt_str(&m.to));
    push_optional(&mut children, "Cc", opt_str(&m.cc));
    push_optional(&mut children, "Bcc", opt_str(&m.bcc));
    push_optional(&mut children, "ReplyTo", opt_str(&m.reply_to));
    push_optional(&mut children, "From", opt_str(&m.from));
    if m.headers.len() > 0 {
        let mut items = no_parts();
        let mut i: usize = 0;
        while i < m.headers.len()
            invariant
                i <= m.headers@.len(),
                texts(items@) == m.headers@.take(i as int).map_values(
                    |h: EmailHeader|
                        container_markup(
                            "HeaderField"@,
                            None,
                            Seq::empty(),
                            seq![element_markup("Name"@, h.name@), element_markup("Value"@, h.value@)],
                        ),
                ),
            decreases m.headers.len() - i,
        {
            let pair = two_parts(
                element("Name", m.headers[i].name.as_str()),
                element("Value", m.headers[i].value.as_str()),
            );
            push_part(&mut items, container("HeaderField", None, empty_text(), &pair));
            i += 1;
            proof {
                assert(texts(items@) =~= m.headers@.take(i as int).map_values(
                    |h: EmailHeader|
                        container_markup(
                            "HeaderField"@,
                            None,
                            Seq::empty(),
                            seq![element_markup("Name"@, h.name@), element_markup("Value"@, h.value@)],
                        ),
                ));
            }
        }
        proof {
            assert(m.headers@.take(m.headers@.len() as int) =~= m.headers@);
        }
        push_part(&mut children, container("HeaderFields", None, empty_text(), &items));
    } else {
        proof {
            assert(texts(children@) =~= texts(children@) + Seq::<Seq<char>>::empty());
        }
    }
    push_optional(&mut children, "Body", opt_str(&m.body));
    if m.attachments.len() > 0 {
        let mut items = no_parts();
        let mut i: usize = 0;
        while i < m.attachments.len()
            invariant
                i <= m.attachments@.len(),
                texts(items@) == m.attachments@.take(i as int).map_values(
                    |f: String| element_markup("File"@, f@),
                ),
            decreases m.attachments.len() - i,
        {
            push_part(&mut items, element("File", m.attachments[i].as_str()));
            i += 1;
            proof {
                assert(texts(items@) =~= m.attachments@.take(i as int).map_values(
                    |f: String| element_markup("File"@, f@),
                ));
            }
        }
        proof {
            assert(m.attachments@.take(m.attachments@.len() as int) =~= m.attachments@);
        }
        push_part(&mut children, container("Attachments", None, empty_text(), &items));
    } else {
        proof {
            assert(texts(children@) =~= texts(children@) + Seq::<Seq<char>>::empty());
        }
    }
    children
}

/// Writes one action.
pub fn write_action(a: &Action) -> (r: String)
    ensures
        r@ == action_markup(*a),
{
    match a {
        Action::Exec(e) => {
            let mut children = no_parts();
            push_part(&mut children, element("Command", e.command.as_str()));
            proof {
                assert(texts(children@) =~= seq![element_markup("Command"@, e.command@)]);
            }
            push_optional(&mut children, "Arguments", opt_str(&e.arguments));
            push_optional(&mut children, "WorkingDirectory", opt_str(&e.working_directory));
            push_if(&mut children, e.hide_window, bool_element("HideAppWindow", true));
            id_container("Exec", &e.id, &children)
        },
        Action::ComHandler(c) => {
            let mut children = no_parts();
            push_part(&mut children, element("ClassId", crate::manifest::uuid_hyphenated(c.class_id).as_str()));
            proof {
                assert(texts(children@) =~= seq![
                    element_markup("ClassId"@, crate::manifest::uuid_text(c.class_id as nat)),
                ]);
            }
            push_optional(&mut children, "Data", opt_str(&c.data));
            id_container("ComHandler", &c.id, &children)
        },
        Action::Email(m) => {
            let children = email_parts(m);
            id_container("SendEmail", &m.id, &children)
        },
        Action::ShowMessage(m) => {
            let mut children = no_parts();
            push_optional(&mut children, "Title", opt_str(&m.title));
            push_part(&mut children, element("Body", m.body.as_str()));
            proof {
                assert(texts(children@) =~= opt_markup("Title"@, opt_view(m.title)) + seq![
                    element_markup("Body"@, m.body@),
                ]);
            }
            id_container("ShowMessage", &m.id, &children)
        },
        Action::Unknown(u) => u.xml.clone(),
    }
}

/// Writes the `Actions` element.
pub fn write_actions(d: &TaskDefinition) -> (r: String)
    ensures
        r@ == actions_markup(*d),
{
    let actions = d.actions.as_slice();
    let mut items = no_parts();
    let mut i: usize = 0;
    while i < actions.len()
        invariant
            i <= actions@.len(),
            actions@ == d.actions@,
            texts(items@) == actions@.take(i as int).map_values(|a: Action| action_markup(a)),
        decreases actions.len() - i,
    {
        push_part(&mut items, write_action(&actions[i]));
        i += 1;
        proof {
            assert(texts(items@) =~= actions@.take(i as int).map_values(|a: Action| action_markup(a)));
        }
    }
    proof {
        assert(actions@.take(actions@.len() as int) =~= actions@);
        reveal_strlit("Context");
    }
    container("Actions", Some(("Context", d.principal.id.as_str())), empty_text(), &items)
}


// ---------------------------------------------------------------------------
// Triggers
// ---------------------------------------------------------------------------

/// The text of an optional timestamp.
pub open spec fn opt_datetime_text(o: Option<TaskDateTime>) -> Option<Seq<char>> {
    match o {
        Some(d) => Some(d@.0),
        None => None,
    }
}

/// The text of an optional limit.
pub open spec fn opt_limit_text(o: Option<TaskLimit>) -> Option<Seq<char>> {
    match o {
        Some(l) => Some(limit_text(l)),
        None => None,
    }
}

/// The children every trigger element begins with: repetition,
/// boundaries, limit and the enabled flag.
pub open spec fn common_children(c: TriggerCommon) -> Seq<Seq<char>> {
    (match c.repetition {
        Some(r) => seq![
            container_markup(
                "Repetition"@,
                None,
                Seq::empty(),
                seq![element_markup("Interval"@, dur_text(r.interval))] + opt_markup(
                    "Duration"@,
                    opt_dur_text(r.duration),
                ) + seq![bool_markup("StopAtDurationEnd"@, r.stop_at_duration_end)],
            ),
        ],
        None => Seq::empty(),
    }) + opt_markup("StartBoundary"@, opt_datetime_text(c.start_boundary)) + opt_markup(
        "EndBoundary"@,
        opt_datetime_text(c.end_boundary),
    ) + opt_markup("ExecutionTimeLimit"@, opt_limit_text(c.execution_time_limit)) + seq![
        bool_markup("Enabled"@, c.enabled),
    ]
}

/// The element name of a weekday.
pub open spec fn weekday_text(d: Weekday) -> Seq<char> {
    match d {
        Weekday::Sunday => "Sunday"@,
        Weekday::Monday => "Monday"@,
        Weekday::Tuesday => "Tuesday"@,
        Weekday::Wednesday => "Wednesday"@,
        Weekday::Thursday => "Thursday"@,
        Weekday::Friday => "Friday"@,
        Weekday::Saturday => "Saturday"@,
    }
}

/// The element name of a month.
pub open spec fn month_text(m: Month) -> Seq<char> {
    match m {
        Month::January => "January"@,
        Month::February => "February"@,
        Month::March => "March"@,
        Month::April => "April"@,
        Month::May => "May"@,
        Month::June => "June"@,
        Month::July => "July"@,
        Month::August => "August"@,
        Month::September => "September"@,
        Month::October => "October"@,
        Month::November => "November"@,
        Month::December => "December"@,
    }
}

/// The digit of a week ordinal.
pub open spec fn week_text(w: WeekOfMonth) -> Seq<char> {
    match w {
        WeekOfMonth::First => "1"@,
        WeekOfMonth::Second => "2"@,
        WeekOfMonth::Third => "3"@,
        WeekOfMonth::Fourth => "4"@,
    }
}

/// The text of a session state change.
pub open spec fn state_change_text(c: SessionStateChange) -> Seq<char> {
    match c {
        SessionStateChange::ConsoleConnect => "ConsoleConnect"@,
        SessionStateChange::ConsoleDisconnect => "ConsoleDisconnect"@,
        SessionStateChange::RemoteConnect => "RemoteConnect"@,
        SessionStateChange::RemoteDisconnect => "RemoteDisconnect"@,
        SessionStateChange::SessionLock => "SessionLock"@,
        SessionStateChange::SessionUnlock => "SessionUnlock"@,
    }
}

/// The `DaysOfWeek` element.
pub open spec fn weekdays_markup(days: Seq<Weekday>) -> Seq<char> {
    container_markup("DaysOfWeek"@, None, Seq::empty(), days.map_values(|d: Weekday| empty_markup(weekday_text(d))))
}

/// The `Months` element.
pub open spec fn months_markup(months: Seq<Month>) -> Seq<char> {
    container_markup("Months"@, None, Seq::empty(), months.map_values(|m: Month| empty_markup(month_text(m))))
}

/// The `Weeks` element.
pub open spec fn weeks_markup(weeks: Seq<WeekOfMonth>) -> Seq<char> {
    container_markup(
        "Weeks"@,
        None,
        Seq::empty(),
        weeks.map_values(|w: WeekOfMonth| element_markup("Week"@, week_text(w))),
    )
}

/// The `DaysOfMonth` element.
pub open spec fn days_markup(days: Seq<u8>) -> Seq<char> {
    container_markup("DaysOfMonth"@, None, Seq::empty(), days.map_values(|d: u8| element_markup("Day"@, decimal(d as nat))))
}

/// The `ValueQueries` element, when there are value queries.
pub open spec fn queries_markup(q: Seq<(String, String)>) -> Seq<Seq<char>> {
    if q.len() == 0 {
        Seq::empty()
    } else {
        seq![
            container_markup(
                "ValueQueries"@,
                None,
                Seq::empty(),
                q.map_values(
                    |v: (String, String)| container_markup("Value"@, Some(("name"@, v.0@)), v.1@, Seq::empty()),
                ),
            ),
        ]
    }
}

/// A trigger element: its `id`, the shared children, then its own.
pub open spec fn simple_trigger_markup(name: Seq<char>, c: TriggerCommon, specific: Seq<Seq<char>>) -> Seq<char> {
    container_markup(name, id_attribute(c.id), Seq::empty(), common_children(c) + specific)
}

/// A `CalendarTrigger` element with its schedule and random delay.
pub open spec fn calendar_markup(c: TriggerCommon, schedule: Seq<char>, random_delay: Option<TaskDuration>) -> Seq<char> {
    container_markup(
        "CalendarTrigger"@,
        id_attribute(c.id),
        Seq::empty(),
        common_children(c) + seq![schedule] + opt_markup("RandomDelay"@, opt_dur_text(random_delay)),
    )
}

/// The markup of a trigger; an unknown trigger is written as it was read.
pub open spec fn trigger_markup(t: Trigger) -> Seq<char> {
    match t {
        Trigger::Boot(b) => simple_trigger_markup("BootTrigger"@, b.common, opt_markup("Delay"@, opt_dur_text(b.delay))),
        Trigger::Registration(b) => simple_trigger_markup(
            "RegistrationTrigger"@,
            b.common,
            opt_markup("Delay"@, opt_dur_text(b.delay)),
        ),
        Trigger::Idle(b) => simple_trigger_markup("IdleTrigger"@, b.common, Seq::empty()),
        Trigger::Time(b) => simple_trigger_markup(
            "TimeTrigger"@,
            b.common,
            opt_markup("RandomDelay"@, opt_dur_text(b.random_delay)),
        ),
        Trigger::Event(e) => simple_trigger_markup(
            "EventTrigger"@,
            e.common,
            opt_markup("Delay"@, opt_dur_text(e.delay)) + seq![element_markup("Subscription"@, e.subscription@)]
                + queries_markup(e.value_queries@) + opt_markup(
                "PeriodOfOccurrence"@,
                opt_dur_text(e.period_of_occurrence),
            ) + opt_markup(
                "NumberOfOccurrences"@,
                match e.number_of_occurrences {
                    Some(v) => Some(decimal(v as nat)),
                    None => None,
                },
            ) + opt_markup("MatchingElement"@, opt_view(e.matching_element)),
        ),
        Trigger::Logon(l) => simple_trigger_markup(
            "LogonTrigger"@,
            l.common,
            opt_markup("UserId"@, opt_view(l.user_id)) + opt_markup("Delay"@, opt_dur_text(l.delay)),
        ),
        Trigger::SessionStateChange(c) => simple_trigger_markup(
            "SessionStateChangeTrigger"@,
            c.common,
            seq![element_markup("StateChange"@, state_change_text(c.state_change))] + opt_markup(
                "UserId"@,
                opt_view(c.user_id),
            ) + opt_markup("Delay"@, opt_dur_text(c.delay)),
        ),
        Trigger::Daily(d) => calendar_markup(
            d.common,
            container_markup(
                "ScheduleByDay"@,
                None,
                Seq::empty(),
                seq![element_markup("DaysInterval"@, decimal(d.days_interval as nat))],
            ),
            d.random_delay,
        ),
        Trigger::Weekly(w) => calendar_markup(
            w.common,
            container_markup(
                "ScheduleByWeek"@,
                None,
                Seq::empty(),
                seq![
                    element_markup("WeeksInterval"@, decimal(w.weeks_interval as nat)),
                    weekdays_markup(w.days_of_week@),
                ],
            ),
            w.random_delay,
        ),
        Trigger::Monthly(m) => calendar_markup(
            m.common,
            container_markup(
                "ScheduleByMonth"@,
                None,
                Seq::empty(),
                seq![
                    days_markup(m.days_of_month@),
                    months_markup(m.months@),
                    bool_markup("RunOnLastDayOfMonth"@, m.run_on_last_day),
                ],
            ),
            m.random_delay,
        ),
        Trigger::MonthlyDow(m) => calendar_markup(
            m.common,
            container_markup(
                "ScheduleByMonthDayOfWeek"@,
                None,
                Seq::empty(),
                seq![
                    weeks_markup(m.weeks_of_month@),
                    weekdays_markup(m.days_of_week@),
                    months_markup(m.months@),
                    bool_markup("RunOnLastWeekOfMonth"@, m.run_on_last_week),
                ],
            ),
            m.random_delay,
        ),
        Trigger::Unknown(u) => u.xml@,
    }
}

fn push_optional_owned(children: &mut Vec<String>, name: &str, value: Option<String>)
    ensures
        texts(final(children)@) == texts(old(children)@) + opt_markup(name@, opt_view(value)),
{
    match value {
        Some(v) => push_part(children, element(name, v.as_str())),
        None => {
            proof {
                assert(texts(children@) =~= texts(children@) + Seq::<Seq<char>>::empty());
            }
        },
    }
}

fn common_parts(c: &TriggerCommon) -> (r: Vec<String>)
    ensures
        texts(r@) == common_children(*c),
{
    let mut children = no_parts();
    match c.repetition {
        Some(r) => {
            let mut inner = no_parts();
            push_part(&mut inner, element("Interval", r.interval.to_string().as_str()));
            proof {
                assert(texts(inner@) =~= seq![element_markup("Interval"@, dur_text(r.interval))]);
            }
            push_duration(&mut inner, "Duration", r.duration);
            push_part(&mut inner, bool_element("StopAtDurationEnd", r.stop_at_duration_end));
            push_part(&mut children, container("Repetition", None, empty_text(), &inner));
        },
        None => {},
    }
    proof {
        assert(texts(children@) =~= match c.repetition {
            Some(r) => seq![
                container_markup(
                    "Repetition"@,
                    None,
                    Seq::empty(),
                    seq![element_markup("Interval"@, dur_text(r.interval))] + opt_markup(
                        "Duration"@,
                        opt_dur_text(r.duration),
                    ) + seq![bool_markup("StopAtDurationEnd"@, r.stop_at_duration_end)],
                ),
            ],
            None => Seq::<Seq<char>>::empty(),
        });
    }
    push_optional(
        &mut children,
        "StartBoundary",
        match &c.start_boundary {
            Some(d) => Some(d.as_str()),
            None => None,
        },
    );
    push_optional(
        &mut children,
        "EndBoundary",
        match &c.end_boundary {
            Some(d) => Some(d.as_str()),
            None => None,
        },
    );
    push_optional_owned(
        &mut children,
        "ExecutionTimeLimit",
        match c.execution_time_limit {
            Some(l) => Some(limit_string(l)),
            None => None,
        },
    );
    push_part(&mut children, bool_element("Enabled", c.enabled));
    children
}

fn simple_trigger(name: &str, c: &TriggerCommon, specific: Vec<String>) -> (r: String)
    ensures
        r@ == simple_trigger_markup(name@, *c, texts(specific@)),
{
    let mut children = common_parts(c);
    append_parts(&mut children, specific);
    id_container(name, &c.id, &children)
}

fn calendar_trigger(c: &TriggerCommon, schedule: String, random_delay: Option<TaskDuration>) -> (r: String)
    ensures
        r@ == calendar_markup(*c, schedule@, random_delay),
{
    let mut children = common_parts(c);
    push_part(&mut children, schedule);
    push_duration(&mut children, "RandomDelay", random_delay);
    id_container("CalendarTrigger", &c.id, &children)
}

fn weekday_name(d: Weekday) -> (r: &'static str)
    ensures
        r@ == weekday_text(d),
{
    match d {
        Weekday::Sunday => "Sunday",
        Weekday::Monday => "Monday",
        Weekday::Tuesday => "Tuesday",
        Weekday::Wednesday => "Wednesday",
        Weekday::Thursday => "Thursday",
        Weekday::Friday => "Friday",
        Weekday::Saturday => "Saturday",
    }
}

fn month_name(m: Month) -> (r: &'static str)
    ensures
        r@ == month_text(m),
{
    match m {
        Month::January => "January",
        Month::February => "February",
        Month::March => "March",
        Month::April => "April",
        Month::May => "May",
        Month::June => "June",
        Month::July => "July",
        Month::August => "August",
        Month::September => "September",
        Month::October => "October",
        Month::November => "November",
        Month::December => "December",
    }
}

fn write_weekdays(days: &Vec<Weekday>) -> (r: String)
    ensures
        r@ == weekdays_markup(days@),
{
    let mut items = no_parts();
    let mut i: usize = 0;
    while i < days.len()
        invariant
            i <= days@.len(),
            texts(items@) == days@.take(i as int).map_values(|d: Weekday| empty_markup(weekday_text(d))),
        decreases days.len() - i,
    {
        push_part(&mut items, empty_element(weekday_name(days[i])));
        i += 1;
        proof {
            assert(texts(items@) =~= days@.take(i as int).map_values(|d: Weekday| empty_markup(weekday_text(d))));
        }
    }
    proof {
        assert(days@.take(days@.len() as int) =~= days@);
    }
    container("DaysOfWeek", None, empty_text(), &items)
}

fn write_months(months: &Vec<Month>) -> (r: String)
    ensures
        r@ == months_markup(months@),
{
    let mut items = no_parts();
    let mut i: usize = 0;
    while i < months.len()
        invariant
            i <= months@.len(),
            texts(items@) == months@.take(i as int).map_values(|m: Month| empty_markup(month_text(m))),
        decreases months.len() - i,
    {
        push_part(&mut items, empty_element(month_name(months[i])));
        i += 1;
        proof {
            assert(texts(items@) =~= months@.take(i as int).map_values(|m: Month| empty_markup(month_text(m))));
        }
    }
    proof {
        assert(months@.take(months@.len() as int) =~= months@);
    }
    container("Months", None, empty_text(), &items)
}

fn write_weeks(weeks: &Vec<WeekOfMonth>) -> (r: String)
    ensures
        r@ == weeks_markup(weeks@),
{
    let mut items = no_parts();
    let mut i: usize = 0;
    while i < weeks.len()
        invariant
            i <= weeks@.len(),
            texts(items@) == weeks@.take(i as int).map_values(|w: WeekOfMonth| element_markup("Week"@, week_text(w))),
        decreases weeks.len() - i,
    {
        let digit = match weeks[i] {
            WeekOfMonth::First => "1",
            WeekOfMonth::Second => "2",
            WeekOfMonth::Third => "3",
            WeekOfMonth::Fourth => "4",
        };
        push_part(&mut items, element("Week", digit));
        i += 1;
        proof {
            assert(texts(items@) =~= weeks@.take(i as int).map_values(
                |w: WeekOfMonth| element_markup("Week"@, week_text(w)),
            ));
        }
    }
    proof {
        assert(weeks@.take(weeks@.len() as int) =~= weeks@);
    }
    container("Weeks", None, empty_text(), &items)
}

fn write_days(days: &Vec<u8>) -> (r: String)
    ensures
        r@ == days_markup(days@),
{
    let mut items = no_parts();
    let mut i: usize = 0;
    while i < days.len()
        invariant
            i <= days@.len(),
            texts(items@) == days@.take(i as int).map_values(|d: u8| element_markup("Day"@, decimal(d as nat))),
        decreases days.len() - i,
    {
        push_part(&mut items, element("Day", u64_to_string(days[i] as u64).as_str()));
        i += 1;
        proof {
            assert(texts(items@) =~= days@.take(i as int).map_values(
                |d: u8| element_markup("Day"@, decimal(d as nat)),
            ));
        }
    }
    proof {
        assert(days@.take(days@.len() as int) =~= days@);
    }
    container("DaysOfMonth", None, empty_text(), &items)
}

fn write_queries(q: &Vec<(String, String)>) -> (r: Vec<String>)
    ensures
        texts(r@) == queries_markup(q@),
{
    let mut out = no_parts();
    if q.len() == 0 {
        return out;
    }
    let mut items = no_parts();
    let mut i: usize = 0;
    let none = no_parts();
    while i < q.len()
        invariant
            i <= q@.len(),
            texts(none@) == Seq::<Seq<char>>::empty(),
            texts(items@) == q@.take(i as int).map_values(
                |v: (String, String)| container_markup("Value"@, Some(("name"@, v.0@)), v.1@, Seq::empty()),
            ),
        decreases q.len() - i,
    {
        proof {
            reveal_strlit("name");
        }
        push_part(&mut items, container("Value", Some(("name", q[i].0.as_str())), q[i].1.as_str(), &none));
        i += 1;
        proof {
            assert(texts(items@) =~= q@.take(i as int).map_values(
                |v: (String, String)| container_markup("Value"@, Some(("name"@, v.0@)), v.1@, Seq::empty()),
            ));
        }
    }
    proof {
        assert(q@.take(q@.len() as int) =~= q@);
    }
    push_part(&mut out, container("ValueQueries", None, empty_text(), &items));
    proof {
        assert(texts(out@) =~= queries_markup(q@));
    }
    out
}

fn one_part(a: String) -> (r: Vec<String>)
    ensures
        texts(r@) == seq![a@],
{
    let mut r = no_parts();
    push_part(&mut r, a);
    proof {
        assert(texts(r@) =~= seq![a@]);
    }
    r
}

/// Writes one trigger.
#[verifier::rlimit(40)]
pub fn write_trigger(t: &Trigger) -> (r: String)
    ensures
        r@ == trigger_markup(*t),
{
    match t {
        Trigger::Boot(b) => {
            let mut specific = no_parts();
            push_duration(&mut specific, "Delay", b.delay);
            proof {
                assert(texts(specific@) =~= opt_markup("Delay"@, opt_dur_text(b.delay)));
            }
            simple_trigger("BootTrigger", &b.common, specific)
        },
        Trigger::Registration(b) => {
            let mut specific = no_parts();
            push_duration(&mut specific, "Delay", b.delay);
            proof {
                assert(texts(specific@) =~= opt_markup("Delay"@, opt_dur_text(b.delay)));
            }
            simple_trigger("RegistrationTrigger", &b.common, specific)
        },
        Trigger::Idle(b) => simple_trigger("IdleTrigger", &b.common, no_parts()),
        Trigger::Time(b) => {
            let mut specific = no_parts();
            push_duration(&mut specific, "RandomDelay", b.random_delay);
            proof {
                assert(texts(specific@) =~= opt_markup("RandomDelay"@, opt_dur_text(b.random_delay)));
            }
            simple_trigger("TimeTrigger", &b.common, specific)
        },
        Trigger::Event(e) => {
            let mut specific = no_parts();
            push_duration(&mut specific, "Delay", e.delay);
            proof {
                assert(texts(specific@) =~= opt_markup("Delay"@, opt_dur_text(e.delay)));
            }
            push_part(&mut specific, element("Subscription", e.subscription.as_str()));
            append_parts(&mut specific, write_queries(&e.value_queries));
            push_duration(&mut specific, "PeriodOfOccurrence", e.period_of_occurrence);
            push_optional_owned(
                &mut specific,
                "NumberOfOccurrences",
                match e.number_of_occurrences {
                    Some(v) => Some(u64_to_string(v as u64)),
                    None => None,
                },
            );
            push_optional(&mut specific, "MatchingElement", opt_str(&e.matching_element));
            simple_trigger("EventTrigger", &e.common, specific)
        },
        Trigger::Logon(l) => {
            let mut specific = no_parts();
            push_optional(&mut specific, "UserId", opt_str(&l.user_id));
            proof {
                assert(texts(specific@) =~= opt_markup("UserId"@, opt_view(l.user_id)));
            }
            push_duration(&mut specific, "Delay", l.delay);
            simple_trigger("LogonTrigger", &l.common, specific)
        },
        Trigger::SessionStateChange(c) => {
            let name = match c.state_change {
                SessionStateChange::ConsoleConnect => "ConsoleConnect",
                SessionStateChange::ConsoleDisconnect => "ConsoleDisconnect",
                SessionStateChange::RemoteConnect => "RemoteConnect",
                SessionStateChange::RemoteDisconnect => "RemoteDisconnect",
                SessionStateChange::SessionLock => "SessionLock",
                SessionStateChange::SessionUnlock => "SessionUnlock",
            };
            let mut specific = one_part(element("StateChange", name));
            push_optional(&mut specific, "UserId", opt_str(&c.user_id));
            push_duration(&mut specific, "Delay", c.delay);
            simple_trigger("SessionStateChangeTrigger", &c.common, specific)
        },
        Trigger::Daily(d) => {
            let inner = one_part(element("DaysInterval", u64_to_string(d.days_interval as u64).as_str()));
            calendar_trigger(&d.common, container("ScheduleByDay", None, empty_text(), &inner), d.random_delay)
        },
        Trigger::Weekly(w) => {
            let inner = two_parts(
                element("WeeksInterval", u64_to_string(w.weeks_interval as u64).as_str()),
                write_weekdays(&w.days_of_week),
            );
            calendar_trigger(&w.common, container("ScheduleByWeek", None, empty_text(), &inner), w.random_delay)
        },
        Trigger::Monthly(m) => {
            let inner = three_parts(
                write_days(&m.days_of_month),
                write_months(&m.months),
                bool_element("RunOnLastDayOfMonth", m.run_on_last_day),
            );
            calendar_trigger(&m.common, container("ScheduleByMonth", None, empty_text(), &inner), m.random_delay)
        },
        Trigger::MonthlyDow(m) => {
            let inner = four_parts(
                write_weeks(&m.weeks_of_month),
                write_weekdays(&m.days_of_week),
                write_months(&m.months),
                bool_element("RunOnLastWeekOfMonth", m.run_on_last_week),
            );
            calendar_trigger(
                &m.common,
                container("ScheduleByMonthDayOfWeek", None, empty_text(), &inner),
                m.random_delay,
            )
        },
        Trigger::Unknown(u) => u.xml.clone(),
    }
}


// ---------------------------------------------------------------------------
// The whole definition
// ---------------------------------------------------------------------------

/// The Task Scheduler XML namespace.
pub const TASK_NAMESPACE: &'static str = "http://schemas.microsoft.com/windows/2004/02/mit/task";

/// The text of an optional security descriptor.
pub open spec fn opt_descriptor_text(o: Option<SecurityDescriptor>) -> Option<Seq<char>> {
    match o {
        Some(d) => Some(d@),
        None => None,
    }
}

/// The known children of `RegistrationInfo`, in canonical order.
pub open spec fn registration_children(r: RegistrationInfo) -> Seq<Seq<char>> {
    opt_markup("Date"@, opt_datetime_text(r.date)) + opt_markup("Author"@, opt_view(r.author)) + opt_markup(
        "Version"@,
        opt_view(r.version),
    ) + opt_markup("Description"@, opt_view(r.description)) + opt_markup(
        "Documentation"@,
        opt_view(r.documentation),
    ) + opt_markup("URI"@, opt_view(r.uri)) + opt_markup(
        "SecurityDescriptor"@,
        opt_descriptor_text(r.security_descriptor),
    ) + opt_markup("Source"@, opt_view(r.source))
}

/// The `RegistrationInfo` element with its extensions among its children.
pub open spec fn registration_markup(d: TaskDefinition) -> Seq<char> {
    container_markup(
        "RegistrationInfo"@,
        None,
        Seq::empty(),
        merged(registration_children(d.registration), d.extensions@, "Task/RegistrationInfo"@),
    )
}

/// Whether some extension belongs under `parent`.
pub open spec fn has_extensions(d: TaskDefinition, parent: Seq<char>) -> bool {
    exists|i: int| 0 <= i < d.extensions@.len() && (#[trigger] d.extensions@[i]).parent@ == parent
}

/// The known children of the `Task` root: registration information when
/// there is any, triggers when there are any, the principal, the settings,
/// the data when there is any, and the actions.
pub open spec fn root_children(d: TaskDefinition) -> Seq<Seq<char>> {
    (if !crate::model::registration_is_empty(d.registration) || has_extensions(d, "Task/RegistrationInfo"@) {
        seq![registration_markup(d)]
    } else {
        Seq::empty()
    }) + if d.triggers@.len() > 0 {
        seq![
            container_markup("Triggers"@, None, Seq::empty(), d.triggers@.map_values(|t: Trigger| trigger_markup(t))),
        ]
    } else {
        Seq::empty()
    } + seq![principal_markup(d.principal), settings_markup(d)] + opt_markup("Data"@, opt_view(d.data))
        + seq![actions_markup(d)]
}

/// The canonical document: the XML declaration with the given encoding
/// name, then the `Task` root with its schema version and namespace and its
/// children with the root extensions among them.
pub open spec fn definition_markup(d: TaskDefinition, encoding: Seq<char>) -> Seq<char> {
    "<?xml version=\"1.0\" encoding=\""@ + encoding + "\"?>\r\n<Task version=\""@ + escaped_attribute(
        crate::model::schema_text(d.schema_version@),
    ) + "\" xmlns=\""@ + TASK_NAMESPACE@ + "\">"@ + concat(merged(root_children(d), d.extensions@, "Task"@))
        + "</Task>\r\n"@
}

fn any_extension_under(d: &TaskDefinition, parent: &str) -> (r: bool)
    ensures
        r == has_extensions(*d, parent@),
{
    let mut i: usize = 0;
    while i < d.extensions.len()
        invariant
            i <= d.extensions@.len(),
            forall|k: int| 0 <= k < i ==> (#[trigger] d.extensions@[k]).parent@ != parent@,
        decreases d.extensions.len() - i,
    {
        if str_eq(d.extensions[i].parent.as_str(), parent) {
            return true;
        }
        i += 1;
    }
    false
}

fn registration_parts(r: &RegistrationInfo) -> (v: Vec<String>)
    ensures
        texts(v@) == registration_children(*r),
{
    let mut children = no_parts();
    push_optional(
        &mut children,
        "Date",
        match &r.date {
            Some(d) => Some(d.as_str()),
            None => None,
        },
    );
    proof {
        assert(texts(children@) =~= opt_markup("Date"@, opt_datetime_text(r.date)));
    }
    push_optional(&mut children, "Author", opt_str(&r.author));
    push_optional(&mut children, "Version", opt_str(&r.version));
    push_optional(&mut children, "Description", opt_str(&r.description));
    push_optional(&mut children, "Documentation", opt_str(&r.documentation));
    push_optional(&mut children, "URI", opt_str(&r.uri));
    push_optional(
        &mut children,
        "SecurityDescriptor",
        match &r.security_descriptor {
            Some(d) => Some(d.as_sddl()),
            None => None,
        },
    );
    push_optional(&mut children, "Source", opt_str(&r.source));
    children
}

/// Writes the `RegistrationInfo` element.
pub fn write_registration(d: &TaskDefinition) -> (r: String)
    ensures
        r@ == registration_markup(*d),
{
    let children = merge_extensions("Task/RegistrationInfo", registration_parts(&d.registration), d.extensions.as_slice());
    container("RegistrationInfo", None, empty_text(), &children)
}

fn write_triggers(d: &TaskDefinition) -> (r: String)
    ensures
        r@ == container_markup("Triggers"@, None, Seq::empty(), d.triggers@.map_values(|t: Trigger| trigger_markup(t))),
{
    let triggers = d.triggers.as_slice();
    let mut items = no_parts();
    let mut i: usize = 0;
    while i < triggers.len()
        invariant
            i <= triggers@.len(),
            triggers@ == d.triggers@,
            texts(items@) == triggers@.take(i as int).map_values(|t: Trigger| trigger_markup(t)),
        decreases triggers.len() - i,
    {
        push_part(&mut items, write_trigger(&triggers[i]));
        i += 1;
        proof {
            assert(texts(items@) =~= triggers@.take(i as int).map_values(|t: Trigger| trigger_markup(t)));
        }
    }
    proof {
        assert(triggers@.take(triggers@.len() as int) =~= triggers@);
    }
    container("Triggers", None, empty_text(), &items)
}

/// Writes the canonical document with the given encoding name in its
/// declaration.
pub fn write_definition(d: &TaskDefinition, encoding: &str) -> (r: String)
    ensures
        r@ == definition_markup(*d, encoding@),
{
    let mut children = no_parts();
    let registration = !d.registration.is_empty() || any_extension_under(d, "Task/RegistrationInfo");
    push_if(&mut children, registration, write_registration(d));
    proof {
        assert(texts(children@) =~= if !crate::model::registration_is_empty(d.registration) || has_extensions(
            *d,
            "Task/RegistrationInfo"@,
        ) {
            seq![registration_markup(*d)]
        } else {
            Seq::<Seq<char>>::empty()
        });
    }
    push_if(&mut children, !d.triggers.is_empty(), write_triggers(d));
    append_parts(&mut children, two_parts(write_principal(&d.principal), write_settings(d)));
    push_optional(&mut children, "Data", opt_str(&d.data));
    push_part(&mut children, write_actions(d));
    let merged_children = merge_extensions("Task", children, d.extensions.as_slice());
    let mut out = "<?xml version=\"1.0\" encoding=\"".to_owned();
    out.append(encoding);
    out.append("\"?>\r\n<Task version=\"");
    out.append(escape_attribute(d.schema_version.as_str().as_str()).as_str());
    out.append("\" xmlns=\"");
    out.append(TASK_NAMESPACE);
    out.append("\">");
    let ghost head = out@;
    let mut i: usize = 0;
    while i < merged_children.len()
        invariant
            i <= merged_children@.len(),
            out@ == head + concat(texts(merged_children@).take(i as int)),
        decreases merged_children.len() - i,
    {
        proof {
            assert(texts(merged_children@).take(i + 1) =~= texts(merged_children@).take(i as int).push(
                merged_children@[i as int]@,
            ));
            lemma_concat_push(texts(merged_children@).take(i as int), merged_children@[i as int]@);
        }
        out.append(merged_children[i].as_str());
        i += 1;
    }
    proof {
        assert(texts(merged_children@).take(merged_children@.len() as int) =~= texts(merged_children@));
    }
    out.append("</Task>\r\n");
    proof {
        assert(out@ =~= definition_markup(*d, encoding@));
    }
    out
}

/// Validates a definition: its findings, and whether none is an error.
pub fn checked_findings(d: &TaskDefinition) -> (r: (bool, crate::validation::ValidationReport))
    ensures
        r.0 == crate::model::builder::definition_valid(*d),
        crate::validation::diags_view(r.1.diagnostics@) == crate::validation::definition_findings(*d),
{
    let report = d.validate();
    let valid = report.is_valid();
    proof {
        if valid {
            assert forall|i: int|
                0 <= i < crate::validation::definition_findings(*d).len() implies (
                #[trigger] crate::validation::definition_findings(*d)[i]).level
                != crate::validation::DiagnosticLevel::Error by {
                assert(crate::validation::diags_view(report.diagnostics@)[i] == crate::validation::diag_view(
                    report.diagnostics@[i],
                ));
            }
        } else {
            let i = choose|i: int|
                0 <= i < report.diagnostics@.len() && report.diagnostics@[i].level
                    == crate::validation::DiagnosticLevel::Error;
            assert(crate::validation::diags_view(report.diagnostics@)[i] == crate::validation::diag_view(
                report.diagnostics@[i],
            ));
        }
    }
    (valid, report)
}

// ---------------------------------------------------------------------------
// UTF-16
// ---------------------------------------------------------------------------

/// The UTF-16 code units of one character: itself below `U+10000`, else a
/// surrogate pair.
pub open spec fn char_units(c: char) -> Seq<u16> {
    let v = c as u32;
    if v < 0x10000 {
        seq![v as u16]
    } else {
        seq![(0xD800 + (v - 0x10000) / 1024) as u16, (0xDC00 + (v - 0x10000) % 1024) as u16]
    }
}

/// The UTF-16 code units of a text.
pub open spec fn utf16_encode(t: Seq<char>) -> Seq<u16>
    decreases t.len(),
{
    if t.len() == 0 {
        Seq::empty()
    } else {
        char_units(t[0]) + utf16_encode(t.skip(1))
    }
}

/// Code units as little-endian byte pairs.
pub open spec fn le_bytes(units: Seq<u16>) -> Seq<u8> {
    Seq::new(
        2 * units.len(),
        |i: int|
            if i % 2 == 0 {
                (units[i / 2] % 256) as u8
            } else {
                (units[i / 2] / 256) as u8
            },
    )
}

fn push_unit(out: &mut Vec<u8>, unit: u16)
    ensures
        final(out)@ == old(out)@ + seq![(unit % 256) as u8, (unit / 256) as u8],
{
    out.push((unit % 256) as u8);
    out.push((unit / 256) as u8);
    proof {
        assert(final(out)@ =~= old(out)@ + seq![(unit % 256) as u8, (unit / 256) as u8]);
    }
}

proof fn lemma_le_bytes_append(a: Seq<u16>, b: Seq<u16>)
    ensures
        le_bytes(a + b) == le_bytes(a) + le_bytes(b),
{
    assert(le_bytes(a + b) =~= le_bytes(a) + le_bytes(b));
}

proof fn lemma_encode_take(t: Seq<char>, i: int)
    requires
        0 <= i < t.len(),
    ensures
        utf16_encode(t.take(i + 1)) == utf16_encode(t.take(i)) + char_units(t[i]),
    decreases i,
{
    if i == 0 {
        assert(t.take(1).skip(1) =~= Seq::<char>::empty());
        assert(t.take(0) =~= Seq::<char>::empty());
        assert(utf16_encode(Seq::<char>::empty()) == Seq::<u16>::empty());
        assert(t.take(1)[0] == t[0]);
        assert(utf16_encode(t.take(1)) == char_units(t[0]) + utf16_encode(t.take(1).skip(1)));
        assert(utf16_encode(t.take(1)) =~= char_units(t[0]) + Seq::<u16>::empty());
    } else {
        let s = t.skip(1);
        lemma_encode_take(s, i - 1);
        assert(t.take(i + 1).skip(1) =~= s.take(i));
        assert(t.take(i).skip(1) =~= s.take(i - 1));
        assert(s[i - 1] == t[i]);
        assert(utf16_encode(t.take(i + 1)) == char_units(t[0]) + utf16_encode(s.take(i)));
        assert(utf16_encode(t.take(i)) == char_units(t[0]) + utf16_encode(s.take(i - 1)));
        assert(utf16_encode(t.take(i + 1)) =~= utf16_encode(t.take(i)) + char_units(t[i]));
    }
}

/// The little-endian UTF-16 bytes of a text, without a byte order mark.
pub fn utf16le(text: &str) -> (r: Vec<u8>)
    ensures
        r@ == le_bytes(utf16_encode(text@)),
{
    let chars = crate::text::chars_of(text);
    let mut out: Vec<u8> = Vec::new();
    let mut i: usize = 0;
    proof {
        assert(chars@.take(0) =~= Seq::<char>::empty());
        assert(le_bytes(Seq::<u16>::empty()) =~= Seq::<u8>::empty());
    }
    while i < chars.len()
        invariant
            i <= chars@.len(),
            chars@ == text@,
            out@ == le_bytes(utf16_encode(chars@.take(i as int))),
        decreases chars.len() - i,
    {
        let v = chars[i] as u32;
        proof {
            lemma_encode_take(chars@, i as int);
            lemma_le_bytes_append(utf16_encode(chars@.take(i as int)), char_units(chars@[i as int]));
        }
        if v < 0x10000 {
            push_unit(&mut out, v as u16);
            proof {
                assert(le_bytes(char_units(chars@[i as int])) =~= seq![((v as u16) % 256) as u8, ((v as u16) / 256) as u8]);
            }
        } else {
            let hi = (0xD800 + (v - 0x10000) / 1024) as u16;
            let lo = (0xDC00 + (v - 0x10000) % 1024) as u16;
            push_unit(&mut out, hi);
            push_unit(&mut out, lo);
            proof {
                assert(le_bytes(char_units(chars@[i as int])) =~= seq![
                    (hi % 256) as u8,
                    (hi / 256) as u8,
                    (lo % 256) as u8,
                    (lo / 256) as u8,
                ]);
            }
        }
        i += 1;
    }
    proof {
        assert(chars@.take(chars@.len() as int) =~= chars@);
    }
    out
}


proof fn lemma_decode_char(c: char, rest: Seq<u16>)
    ensures
        crate::xml::utf16_decode(char_units(c) + rest) == match crate::xml::utf16_decode(rest) {
            Some(r) => Some(seq![c] + r),
            None => None,
        },
{
    let v = c as u32;
    vstd::utf8::char_is_scalar(c);
    vstd::utf8::char_u32_cast(c, v);
    let units = char_units(c) + rest;
    if v < 0x10000 {
        assert(units[0] == v as u16);
        assert(units.skip(1) =~= rest);
        assert(((units[0] as u32) as char) == c);
    } else {
        let hi = (0xD800 + (v - 0x10000) / 1024) as u16;
        let lo = (0xDC00 + (v - 0x10000) % 1024) as u16;
        assert(units[0] == hi && units[1] == lo);
        assert(0xD800 <= hi <= 0xDBFF);
        assert(0xDC00 <= lo <= 0xDFFF);
        assert(0x10000 + (hi - 0xD800) * 1024 + (lo - 0xDC00) == v);
        assert(units.skip(2) =~= rest);
    }
}

/// Decoding the UTF-16 code units of a text gives the text back.
pub proof fn lemma_utf16_round_trip(t: Seq<char>)
    ensures
        crate::xml::utf16_decode(utf16_encode(t)) == Some(t),
    decreases t.len(),
{
    if t.len() == 0 {
        assert(utf16_encode(t) =~= Seq::<u16>::empty());
    } else {
        lemma_utf16_round_trip(t.skip(1));
        lemma_decode_char(t[0], utf16_encode(t.skip(1)));
        assert(seq![t[0]] + t.skip(1) =~= t);
    }
}

proof fn lemma_le_units(u: Seq<u16>)
    ensures
        crate::xml::utf16_units(le_bytes(u), true) == u,
{
    let b = le_bytes(u);
    assert forall|i: int| 0 <= i < u.len() implies #[trigger] crate::xml::utf16_units(b, true)[i] == u[i] by {
        assert(b[2 * i] == (u[i] % 256) as u8);
        assert(b[2 * i + 1] == (u[i] / 256) as u8);
    }
    assert(crate::xml::utf16_units(b, true) =~= u);
}

/// A byte order mark followed by the little-endian UTF-16 of a text decodes
/// as little-endian UTF-16 to that text.
pub proof fn lemma_utf16le_document(t: Seq<char>)
    ensures
        crate::xml::decoded_text(seq![0xFFu8, 0xFEu8] + le_bytes(utf16_encode(t))) == Some(
            (crate::xml::XmlEncoding::Utf16LittleEndian, t),
        ),
{
    let bytes = seq![0xFFu8, 0xFEu8] + le_bytes(utf16_encode(t));
    assert(bytes.skip(2) =~= le_bytes(utf16_encode(t)));
    lemma_le_units(utf16_encode(t));
    lemma_utf16_round_trip(t);
}

/// A text that begins with `<`, encoded as UTF-8 without a byte order
/// mark, decodes as UTF-8 to that text.
pub proof fn lemma_utf8_document(t: Seq<char>)
    requires
        t.len() > 0,
        t[0] == '<',
    ensures
        crate::xml::decoded_text(vstd::utf8::encode_utf8(t)) == Some((crate::xml::XmlEncoding::Utf8, t)),
{
    vstd::utf8::encode_utf8_valid_utf8(t);
    vstd::utf8::encode_utf8_decode_utf8(t);
    let c: u32 = 0x3C;
    assert(t[0] as u32 == c);
    assert((c & 0x7F) as u8 == 0x3Cu8) by (bit_vector)
        requires
            c == 0x3C,
    ;
    assert(vstd::utf8::encode_scalar(c) == seq![0x3Cu8]);
    assert(vstd::utf8::encode_utf8(t)[0] == 0x3Cu8);
}

/// The UTF-8 bytes of a written document decode as UTF-8 to its text.
pub proof fn lemma_written_document_decodes(d: TaskDefinition)
    ensures
        crate::xml::decoded_text(vstd::utf8::encode_utf8(definition_markup(d, "UTF-8"@))) == Some(
            (crate::xml::XmlEncoding::Utf8, definition_markup(d, "UTF-8"@)),
        ),
{
    reveal_strlit("<?xml version=\"1.0\" encoding=\"");
    let m = definition_markup(d, "UTF-8"@);
    assert(m[0] == '<');
    lemma_utf8_document(m);
}

proof fn lemma_first_bytes(c: u32)
    requires
        vstd::utf8::is_scalar(c),
    ensures
        ({
            let e = vstd::utf8::encode_scalar(c);
            &&& e.len() >= 1
            &&& e[0] != 0xFFu8 && e[0] != 0xFEu8
            &&& e[0] == 0xEFu8 ==> e.len() == 3 && (e[1] == 0xBBu8 && e[2] == 0xBFu8 ==> c == 0xFEFF)
        }),
{
    if vstd::utf8::has_width_1_encoding(c) {
        assert((c & 0x7F) as u8 <= 0x7Fu8) by (bit_vector);
    } else if vstd::utf8::has_width_2_encoding(c) {
        assert(0xC0u8 | ((c >> 6) & 0x1F) as u8 <= 0xDFu8) by (bit_vector);
    } else if vstd::utf8::has_width_3_encoding(c) {
        assert(0xE0u8 | ((c >> 12) & 0x0F) as u8 <= 0xEFu8) by (bit_vector);
        assert(c <= 0xFFFF && (0xE0u8 | ((c >> 12) & 0x0F) as u8) == 0xEFu8 && (0x80u8 | ((c >> 6) & 0x3F) as u8)
            == 0xBBu8 && (0x80u8 | (c & 0x3F) as u8) == 0xBFu8 ==> c == 0xFEFF) by (bit_vector);
    } else {
        assert(0xF0u8 | ((c >> 18) & 0x7) as u8 <= 0xF7u8) by (bit_vector);
        assert(0xF0u8 | ((c >> 18) & 0x7) as u8 >= 0xF0u8) by (bit_vector);
    }
}

/// A text that does not begin with a byte order mark decodes back to
/// itself from its UTF-8 bytes, and from the little-endian UTF-16 of it
/// behind a byte order mark.
pub proof fn lemma_decoded_round_trip(t: Seq<char>)
    requires
        t.len() == 0 || t[0] != '\u{FEFF}',
    ensures
        crate::xml::decoded_text(vstd::utf8::encode_utf8(t)) == Some((crate::xml::XmlEncoding::Utf8, t)),
        crate::xml::decoded_text(seq![0xFFu8, 0xFEu8] + le_bytes(utf16_encode(t))) == Some(
            (crate::xml::XmlEncoding::Utf16LittleEndian, t),
        ),
{
    lemma_utf16le_document(t);
    vstd::utf8::encode_utf8_valid_utf8(t);
    vstd::utf8::encode_utf8_decode_utf8(t);
    let bytes = vstd::utf8::encode_utf8(t);
    if t.len() > 0 {
        vstd::utf8::char_is_scalar(t[0]);
        let c = t[0] as u32;
        lemma_first_bytes(c);
        let e = vstd::utf8::encode_scalar(c);
        assert(bytes == e + vstd::utf8::encode_utf8(t.drop_first()));
        assert(bytes[0] == e[0]);
        if e[0] == 0xEFu8 {
            assert(bytes[1] == e[1] && bytes[2] == e[2]);
            if e[1] == 0xBBu8 && e[2] == 0xBFu8 {
                vstd::utf8::char_u32_cast(t[0], c);
                assert((0xFEFFu32 as char) == '\u{FEFF}');
            }
        }
    }
}

} // verus!
