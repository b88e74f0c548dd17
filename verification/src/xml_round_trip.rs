//! Writing a section of a definition and reading it back.
use vstd::prelude::*;
use vstd::string::*;

use crate::markup::{attributes_markup, escaped_text};
use crate::model::time::parse_datetime_spec;
use crate::model::principal::{
    is_privilege_name, LogonType, Principal, PrincipalIdentity, ProcessTokenSidType, RequiredPrivilege,
};
use crate::model::{
    valid_sddl, Action, EmailAction, EmailHeader, ExecAction, RegistrationInfo, ShowMessageAction, TaskDefinition,
    TaskDuration, TaskLimit, TaskSettings,
};
use crate::text::opt_view;
use crate::xml::{local_part, node_view, nodes_view, Node, TreeView};
use crate::xml_read::{
    attr_from, attr_of, child_from, child_of, identity_read, inferred_logon_type, logon_type_named, named,
    principal_fault, principal_read, privilege_nodes, registration_fault, registration_read, run_level_named,
    service_account_named, sid_type_named, text_of, bool_field, bool_or, duration_field, duration_view,
    idle_fault, idle_read, idle_requested, instances_named, limit_text_value, limit_view, maintenance_fault,
    network_requested, number_field, opt_bool_field, opt_duration_field, opt_text_of, required_duration_field,
    required_number_field, restart_fault, settings_fault, settings_read, duration_or, action_fault, action_read,
    actions_fault, actions_read, header_read, list_items,
};
use crate::xml_write::{
    concat, element_markup, extensions_under, has_extensions, identity_markup, logon_type_text, opt_datetime_text,
    opt_descriptor_text, opt_markup, principal_children, principal_markup, privileges_markup, registration_children,
    registration_markup, run_level_text, service_account_text, sid_type_text, bool_markup, bool_markup_text,
    dur_text, opt_dur_text, limit_text, instances_text, settings_start, settings_middle, settings_end,
    settings_children, settings_markup, action_markup, actions_markup, attachments_markup, headers_markup,
    id_attribute, attribute_list, container_markup, common_children, opt_limit_text, simple_trigger_markup,
    state_change_text, trigger_markup, root_children, definition_markup, TASK_NAMESPACE,
};
use crate::model::trigger::{Repetition, Trigger, TriggerCommon};
use crate::xml_read::{
    datetime_field, datetime_read, definition_fault, definition_read, extension_view, extensions_of, principal_node,
    section_extensions, section_knows, Section,
};
use crate::xml_triggers::{common_fault, common_read, kind_fault, state_change_named, trigger_fault, trigger_read, triggers_fault, triggers_read};
use crate::text::decimal;

verus! {

broadcast use vstd::string::group_string_axioms;

/// An element as it is written: its name, its attributes in order, its
/// text, its child elements, and whether it is written as an empty tag.
pub struct WrittenElement {
    /// Name.
    pub name: Seq<char>,
    /// Attributes in the order written.
    pub attributes: Seq<(Seq<char>, Seq<char>)>,
    /// Text, before escaping.
    pub text: Seq<char>,
    /// Child elements in order.
    pub children: Seq<WrittenElement>,
    /// Whether the element is written as `<name />`.
    pub self_closing: bool,
}

/// The markup of a written element: the start tag with its attributes, then
/// ` />`, or `>`, the escaped text, the children and the end tag.
pub open spec fn written_markup(w: WrittenElement) -> Seq<char>
    decreases w, 1nat,
{
    let open = seq!['<'] + w.name + attributes_markup(w.attributes);
    if w.self_closing {
        open + seq![' ', '/', '>']
    } else {
        open + seq!['>'] + escaped_text(w.text) + written_list_markup(w.children, w.children.len() as int)
            + seq!['<', '/'] + w.name + seq!['>']
    }
}

/// The markup of the first `count` written elements, in order.
pub open spec fn written_list_markup(children: Seq<WrittenElement>, count: int) -> Seq<char>
    decreases children, 0nat, count,
{
    if count <= 0 || count > children.len() {
        Seq::<char>::empty()
    } else {
        written_list_markup(children, count - 1) + written_markup(children[count - 1])
    }
}

/// Attributes by local name, a later one winning.
pub open spec fn attribute_values(attributes: Seq<(Seq<char>, Seq<char>)>) -> Map<Seq<char>, Seq<char>>
    decreases attributes.len(),
{
    if attributes.len() == 0 {
        Map::empty()
    } else {
        attribute_values(attributes.drop_last()).insert(local_part(attributes.last().0), attributes.last().1)
    }
}

/// The element tree a written element stands for: names, attributes by
/// local name, children in order and unescaped text.
pub open spec fn written_view(w: WrittenElement) -> TreeView
    decreases w, 1nat,
{
    TreeView {
        name: w.name,
        attributes: attribute_values(w.attributes),
        children: written_views(w.children, w.children.len() as int),
        text: w.text,
    }
}

/// The trees of the first `count` written elements.
pub open spec fn written_views(children: Seq<WrittenElement>, count: int) -> Seq<TreeView>
    decreases children, 0nat, count,
{
    if count <= 0 || count > children.len() {
        Seq::empty()
    } else {
        written_views(children, count - 1).push(written_view(children[count - 1]))
    }
}

proof fn lemma_written_views(children: Seq<WrittenElement>, count: int)
    requires
        0 <= count <= children.len(),
    ensures
        written_views(children, count).len() == count,
        forall|i: int| 0 <= i < count ==> #[trigger] written_views(children, count)[i] == written_view(children[i]),
    decreases count,
{
    if count > 0 {
        lemma_written_views(children, count - 1);
    }
}

proof fn lemma_written_list_markup(children: Seq<WrittenElement>, count: int)
    requires
        0 <= count <= children.len(),
    ensures
        written_list_markup(children, count) == concat(
            children.take(count).map_values(|w: WrittenElement| written_markup(w)),
        ),
    decreases count,
{
    if count > 0 {
        lemma_written_list_markup(children, count - 1);
        assert(children.take(count).map_values(|w: WrittenElement| written_markup(w)).drop_last()
            =~= children.take(count - 1).map_values(|w: WrittenElement| written_markup(w)));
    }
}

/// The first of the written elements named `name`.
pub open spec fn first_named(children: Seq<WrittenElement>, name: Seq<char>) -> Option<WrittenElement>
    decreases children.len(),
{
    if children.len() == 0 {
        None
    } else if children[0].name == name {
        Some(children[0])
    } else {
        first_named(children.drop_first(), name)
    }
}

proof fn lemma_first_named_concat(a: Seq<WrittenElement>, b: Seq<WrittenElement>)
    ensures
        forall|name: Seq<char>| #[trigger] first_named(a + b, name) == match first_named(a, name) {
            Some(x) => Some(x),
            None => first_named(b, name),
        },
    decreases a.len(),
{
    if a.len() > 0 {
        lemma_first_named_concat(a.drop_first(), b);
        assert((a + b).drop_first() =~= a.drop_first() + b);
        assert forall|name: Seq<char>| #[trigger] first_named(a + b, name) == match first_named(a, name) {
            Some(x) => Some(x),
            None => first_named(b, name),
        } by {
            assert((a + b)[0] == a[0]);
            assert(first_named(a.drop_first() + b, name) == match first_named(a.drop_first(), name) {
                Some(x) => Some(x),
                None => first_named(b, name),
            });
        }
    } else {
        assert(a + b =~= b);
    }
}

/// An element holding only text.
pub open spec fn text_element(name: Seq<char>, text: Seq<char>) -> WrittenElement {
    WrittenElement { name, attributes: Seq::empty(), text, children: Seq::empty(), self_closing: false }
}

/// An element holding a text, or nothing when there is no text.
pub open spec fn opt_element(name: Seq<char>, value: Option<Seq<char>>) -> Seq<WrittenElement> {
    match value {
        Some(t) => seq![text_element(name, t)],
        None => Seq::empty(),
    }
}

proof fn lemma_opt_element(name: Seq<char>, value: Option<Seq<char>>)
    ensures
        opt_markup(name, value) == opt_element(name, value).map_values(|w: WrittenElement| written_markup(w)),
        forall|other: Seq<char>| #[trigger] first_named(opt_element(name, value), other) == if other == name {
            match value {
                Some(t) => Some(text_element(name, t)),
                None => None,
            }
        } else {
            None::<WrittenElement>
        },
{
    match value {
        Some(t) => {
            let w = text_element(name, t);
            assert(written_list_markup(w.children, 0) == Seq::<char>::empty());
            assert(concat(Seq::<Seq<char>>::empty()) == Seq::<char>::empty());
            assert(attributes_markup(crate::xml_write::attribute_list(None)) == attributes_markup(w.attributes)) by {
                assert(crate::xml_write::attribute_list(None) =~= w.attributes);
            }
            assert(opt_markup(name, value) =~= opt_element(name, value).map_values(
                |w: WrittenElement| written_markup(w),
            ));
            assert(seq![w].drop_first() =~= Seq::<WrittenElement>::empty());
            assert forall|other: Seq<char>| #[trigger] first_named(opt_element(name, value), other) == if other
                == name {
                Some(w)
            } else {
                None::<WrittenElement>
            } by {
                assert(opt_element(name, value)[0] == w);
                assert(first_named(Seq::<WrittenElement>::empty(), other) is None);
            }
        },
        None => {
            assert(opt_markup(name, value) =~= opt_element(name, value).map_values(
                |w: WrittenElement| written_markup(w),
            ));
        },
    }
}

/// A node whose values are those of a written element has, for each name,
/// a first child of that name exactly when the written element has one, and
/// that child has the written child's values.
proof fn lemma_child_of_written(n: Node, w: WrittenElement, name: Seq<char>)
    requires
        node_view(n) == written_view(w),
    ensures
        match first_named(w.children, name) {
            Some(x) => child_of(n, name) matches Some(c) && node_view(c) == written_view(x),
            None => child_of(n, name) is None,
        },
{
    let ns = n.children@;
    crate::xml::lemma_nodes_view(ns);
    lemma_written_views(w.children, w.children.len() as int);
    assert(nodes_view(ns) == written_views(w.children, w.children.len() as int));
    assert(ns.len() == w.children.len());
    assert forall|i: int| 0 <= i < ns.len() implies node_view(#[trigger] ns[i]) == written_view(w.children[i]) by {
        assert(nodes_view(ns)[i] == written_views(w.children, w.children.len() as int)[i]);
    }
    lemma_child_from_written(ns, w.children, name, 0);
    assert(w.children.skip(0) =~= w.children);
}

proof fn lemma_child_from_written(ns: Seq<Node>, ws: Seq<WrittenElement>, name: Seq<char>, from: int)
    requires
        ns.len() == ws.len(),
        0 <= from <= ns.len(),
        forall|i: int| 0 <= i < ns.len() ==> node_view(#[trigger] ns[i]) == written_view(ws[i]),
    ensures
        match first_named(ws.skip(from), name) {
            Some(x) => child_from(ns, name, from) matches Some(c) && node_view(c) == written_view(x),
            None => child_from(ns, name, from) is None,
        },
    decreases ns.len() - from,
{
    if from < ns.len() {
        lemma_child_from_written(ns, ws, name, from + 1);
        assert(ws.skip(from).drop_first() =~= ws.skip(from + 1));
        assert(node_view(ns[from]) == written_view(ws[from]));
        assert(ns[from].name@ == node_view(ns[from]).name);
        assert(ws.skip(from)[0] == ws[from]);
    }
}

// ---------------------------------------------------------------------------
// Registration information
// ---------------------------------------------------------------------------

/// The children written for registration information, in canonical order.
pub open spec fn registration_elements(r: RegistrationInfo) -> Seq<WrittenElement> {
    opt_element("Date"@, opt_datetime_text(r.date)) + opt_element("Author"@, opt_view(r.author)) + opt_element(
        "Version"@,
        opt_view(r.version),
    ) + opt_element("Description"@, opt_view(r.description)) + opt_element(
        "Documentation"@,
        opt_view(r.documentation),
    ) + opt_element("URI"@, opt_view(r.uri)) + opt_element(
        "SecurityDescriptor"@,
        opt_descriptor_text(r.security_descriptor),
    ) + opt_element("Source"@, opt_view(r.source))
}

/// The `RegistrationInfo` element written for registration information.
pub open spec fn registration_written(r: RegistrationInfo) -> WrittenElement {
    WrittenElement {
        name: "RegistrationInfo"@,
        attributes: Seq::empty(),
        text: Seq::empty(),
        children: registration_elements(r),
        self_closing: false,
    }
}

/// Whether the values a registration holds are well formed: a date whose
/// text denotes its basis and a valid security descriptor.
pub open spec fn registration_well_formed(r: RegistrationInfo) -> bool {
    &&& r.date matches Some(d) ==> parse_datetime_spec(d@.0) == Some(d@.1)
    &&& r.security_descriptor matches Some(s) ==> valid_sddl(s@)
}

/// Writing registration information and reading it back: without
/// extensions under `RegistrationInfo` the element written is the markup of
/// `registration_written`, and every element tree with that element's
/// values reads back as the same registration information, without fault.
pub proof fn lemma_registration_round_trip(d: TaskDefinition, n: Node)
    requires
        !has_extensions(d, "Task/RegistrationInfo"@),
        registration_well_formed(d.registration),
        node_view(n) == written_view(registration_written(d.registration)),
    ensures
        registration_markup(d) == written_markup(registration_written(d.registration)),
        !registration_fault(n),
        registration_read(n, d.registration),
{
    let r = d.registration;
    lemma_registration_write(d);
    lemma_registration_read(r, n);
}

#[verifier::rlimit(50)]
proof fn lemma_registration_read(r: RegistrationInfo, n: Node)
    requires
        registration_well_formed(r),
        node_view(n) == written_view(registration_written(r)),
    ensures
        !registration_fault(n),
        registration_read(n, r),
{
    let w = registration_written(r);
    reveal_strlit("Date");
    reveal_strlit("Author");
    reveal_strlit("Version");
    reveal_strlit("Description");
    reveal_strlit("Documentation");
    reveal_strlit("URI");
    reveal_strlit("SecurityDescriptor");
    reveal_strlit("Source");
    assert("Author"@[0] != "Source"@[0]);
    let e1 = opt_element("Date"@, opt_datetime_text(r.date));
    let e2 = opt_element("Author"@, opt_view(r.author));
    let e3 = opt_element("Version"@, opt_view(r.version));
    let e4 = opt_element("Description"@, opt_view(r.description));
    let e5 = opt_element("Documentation"@, opt_view(r.documentation));
    let e6 = opt_element("URI"@, opt_view(r.uri));
    let e7 = opt_element("SecurityDescriptor"@, opt_descriptor_text(r.security_descriptor));
    let e8 = opt_element("Source"@, opt_view(r.source));
    lemma_opt_element("Date"@, opt_datetime_text(r.date));
    lemma_opt_element("Author"@, opt_view(r.author));
    lemma_opt_element("Version"@, opt_view(r.version));
    lemma_opt_element("Description"@, opt_view(r.description));
    lemma_opt_element("Documentation"@, opt_view(r.documentation));
    lemma_opt_element("URI"@, opt_view(r.uri));
    lemma_opt_element("SecurityDescriptor"@, opt_descriptor_text(r.security_descriptor));
    lemma_opt_element("Source"@, opt_view(r.source));
    lemma_first_named_concat(e1, e2);
    lemma_first_named_concat(e1 + e2, e3);
    lemma_first_named_concat(e1 + e2 + e3, e4);
    lemma_first_named_concat(e1 + e2 + e3 + e4, e5);
    lemma_first_named_concat(e1 + e2 + e3 + e4 + e5, e6);
    lemma_first_named_concat(e1 + e2 + e3 + e4 + e5 + e6, e7);
    lemma_first_named_concat(e1 + e2 + e3 + e4 + e5 + e6 + e7, e8);
    lemma_child_of_written(n, w, "Date"@);
    lemma_child_of_written(n, w, "Author"@);
    lemma_child_of_written(n, w, "Version"@);
    lemma_child_of_written(n, w, "Description"@);
    lemma_child_of_written(n, w, "Documentation"@);
    lemma_child_of_written(n, w, "URI"@);
    lemma_child_of_written(n, w, "SecurityDescriptor"@);
    lemma_child_of_written(n, w, "Source"@);
    assert(text_of(n, "Author"@) == opt_view(r.author));
    assert(text_of(n, "Date"@) == opt_datetime_text(r.date));
    assert(text_of(n, "Version"@) == opt_view(r.version));
    assert(text_of(n, "Description"@) == opt_view(r.description));
    assert(text_of(n, "Documentation"@) == opt_view(r.documentation));
    assert(text_of(n, "URI"@) == opt_view(r.uri));
    assert(text_of(n, "SecurityDescriptor"@) == opt_descriptor_text(r.security_descriptor));
    assert(text_of(n, "Source"@) == opt_view(r.source));
}

/// The markups of written elements, in order.
pub open spec fn markups(ws: Seq<WrittenElement>) -> Seq<Seq<char>> {
    ws.map_values(|w: WrittenElement| written_markup(w))
}

proof fn lemma_markups_concat(a: Seq<WrittenElement>, b: Seq<WrittenElement>)
    ensures
        markups(a + b) == markups(a) + markups(b),
{
    assert(markups(a + b) =~= markups(a) + markups(b));
}

proof fn lemma_element_markup(w: WrittenElement, attribute: Option<(Seq<char>, Seq<char>)>, known: Seq<Seq<char>>)
    requires
        !w.self_closing,
        w.attributes == crate::xml_write::attribute_list(attribute),
        known == markups(w.children),
    ensures
        crate::xml_write::container_markup(w.name, attribute, w.text, known) == written_markup(w),
{
    lemma_written_list_markup(w.children, w.children.len() as int);
    assert(w.children.take(w.children.len() as int) =~= w.children);
}

#[verifier::rlimit(30)]
proof fn lemma_registration_write(d: TaskDefinition)
    requires
        !has_extensions(d, "Task/RegistrationInfo"@),
    ensures
        registration_markup(d) == written_markup(registration_written(d.registration)),
{
    let r = d.registration;
    let w = registration_written(r);
    let e1 = opt_element("Date"@, opt_datetime_text(r.date));
    let e2 = opt_element("Author"@, opt_view(r.author));
    let e3 = opt_element("Version"@, opt_view(r.version));
    let e4 = opt_element("Description"@, opt_view(r.description));
    let e5 = opt_element("Documentation"@, opt_view(r.documentation));
    let e6 = opt_element("URI"@, opt_view(r.uri));
    let e7 = opt_element("SecurityDescriptor"@, opt_descriptor_text(r.security_descriptor));
    let e8 = opt_element("Source"@, opt_view(r.source));
    lemma_opt_element("Date"@, opt_datetime_text(r.date));
    lemma_opt_element("Author"@, opt_view(r.author));
    lemma_opt_element("Version"@, opt_view(r.version));
    lemma_opt_element("Description"@, opt_view(r.description));
    lemma_opt_element("Documentation"@, opt_view(r.documentation));
    lemma_opt_element("URI"@, opt_view(r.uri));
    lemma_opt_element("SecurityDescriptor"@, opt_descriptor_text(r.security_descriptor));
    lemma_opt_element("Source"@, opt_view(r.source));
    lemma_markups_concat(e1, e2);
    lemma_markups_concat(e1 + e2, e3);
    lemma_markups_concat(e1 + e2 + e3, e4);
    lemma_markups_concat(e1 + e2 + e3 + e4, e5);
    lemma_markups_concat(e1 + e2 + e3 + e4 + e5, e6);
    lemma_markups_concat(e1 + e2 + e3 + e4 + e5 + e6, e7);
    lemma_markups_concat(e1 + e2 + e3 + e4 + e5 + e6 + e7, e8);
    assert(registration_children(r) == markups(w.children));
    lemma_no_extensions_merged(registration_children(r), d, "Task/RegistrationInfo"@);
    lemma_element_markup(w, None, registration_children(r));
}

/// Without extensions under a parent, the known children are written as
/// they are.
proof fn lemma_no_extensions_merged(known: Seq<Seq<char>>, d: TaskDefinition, parent: Seq<char>)
    requires
        !has_extensions(d, parent),
    ensures
        crate::xml_write::merged(known, d.extensions@, parent) == known,
{
    lemma_extensions_under_empty(d.extensions@, parent);
}

proof fn lemma_extensions_under_empty(extensions: Seq<crate::model::XmlExtension>, parent: Seq<char>)
    requires
        forall|i: int| 0 <= i < extensions.len() ==> (#[trigger] extensions[i]).parent@ != parent,
    ensures
        extensions_under(extensions, parent).len() == 0,
    decreases extensions.len(),
{
    if extensions.len() > 0 {
        assert forall|i: int| 0 <= i < extensions.drop_last().len() implies (#[trigger] extensions.drop_last()[i]).parent@
            != parent by {
            assert(extensions.drop_last()[i] == extensions[i]);
        }
        lemma_extensions_under_empty(extensions.drop_last(), parent);
        assert(extensions.last() == extensions[extensions.len() - 1]);
    }
}

// ---------------------------------------------------------------------------
// Attributes
// ---------------------------------------------------------------------------

/// Whether no two attributes of an element share a key, in every element
/// of a tree.
pub open spec fn attributes_distinct(n: Node) -> bool
    decreases n,
{
    &&& forall|i: int, j: int|
        0 <= i < j < n.attributes@.len() ==> (#[trigger] n.attributes@[i]).0@ != (#[trigger] n.attributes@[j]).0@
    &&& all_attributes_distinct(n.children@)
}

/// Whether every tree of a sequence has distinct attribute keys throughout.
pub open spec fn all_attributes_distinct(s: Seq<Node>) -> bool
    decreases s,
{
    if s.len() == 0 {
        true
    } else {
        all_attributes_distinct(s.subrange(0, s.len() - 1)) && attributes_distinct(s[s.len() - 1])
    }
}

proof fn lemma_all_attributes_distinct(s: Seq<Node>)
    requires
        all_attributes_distinct(s),
    ensures
        forall|i: int| 0 <= i < s.len() ==> attributes_distinct(#[trigger] s[i]),
    decreases s.len(),
{
    if s.len() > 0 {
        lemma_all_attributes_distinct(s.subrange(0, s.len() - 1));
        assert forall|i: int| 0 <= i < s.len() implies attributes_distinct(#[trigger] s[i]) by {
            if i < s.len() - 1 {
                assert(s.subrange(0, s.len() - 1)[i] == s[i]);
            }
        }
    }
}

proof fn lemma_attr_from(attributes: Seq<(String, String)>, key: Seq<char>, from: int, at: int)
    requires
        forall|i: int, j: int|
            0 <= i < j < attributes.len() ==> (#[trigger] attributes[i]).0@ != (#[trigger] attributes[j]).0@,
        0 <= from <= at < attributes.len(),
        attributes[at].0@ == key,
    ensures
        attr_from(attributes, key, from) == Some(attributes[at].1@),
    decreases at - from,
{
    if from < at {
        assert(attributes[from].0@ != attributes[at].0@);
        lemma_attr_from(attributes, key, from + 1, at);
    }
}

/// The attribute `key` of a node with distinct attribute keys is the value
/// its element tree holds under that key.
proof fn lemma_attr_of_view(n: Node, key: Seq<char>)
    requires
        forall|i: int, j: int|
            0 <= i < j < n.attributes@.len() ==> (#[trigger] n.attributes@[i]).0@ != (#[trigger] n.attributes@[j]).0@,
        node_view(n).attributes.dom().contains(key),
    ensures
        attr_of(n, key) == Some(node_view(n).attributes[key]),
{
    let f = crate::history::fields_view(n.attributes@);
    let at = choose|i: int| 0 <= i < f.len() && f[i].0 == key;
    assert(f[at].0 == n.attributes@[at].0@);
    lemma_attr_from(n.attributes@, key, 0, at);
    assert forall|i: int| 0 <= i < f.len() && f[i].0 == key implies i == at by {
        assert(f[i].0 == n.attributes@[i].0@);
        if i < at {
            assert(n.attributes@[i].0@ != n.attributes@[at].0@);
        } else if at < i {
            assert(n.attributes@[at].0@ != n.attributes@[i].0@);
        }
    }
}

proof fn lemma_local_id()
    ensures
        local_part("id"@) == "id"@,
{
    reveal_strlit("id");
    assert("id"@.drop_last() =~= seq!['i']);
    assert(seq!['i'].drop_last() =~= Seq::<char>::empty());
    assert(crate::path::last_index(Seq::<char>::empty(), ':') == -1);
    assert(crate::path::last_index(seq!['i'], ':') == -1);
    assert(crate::path::last_index("id"@, ':') == -1);
}

proof fn lemma_text_element(name: Seq<char>, t: Seq<char>)
    ensures
        element_markup(name, t) == written_markup(text_element(name, t)),
{
    lemma_opt_element(name, Some(t));
    assert(opt_markup(name, Some(t))[0] == element_markup(name, t));
}

// ---------------------------------------------------------------------------
// Principal
// ---------------------------------------------------------------------------

/// The element written for an identity, if any.
pub open spec fn identity_elements(id: PrincipalIdentity) -> Seq<WrittenElement> {
    match id {
        PrincipalIdentity::Unspecified => Seq::empty(),
        PrincipalIdentity::User(u) => seq![text_element("UserId"@, u@)],
        PrincipalIdentity::Group(g) => seq![text_element("GroupId"@, g@)],
        PrincipalIdentity::ServiceAccount(a) => seq![text_element("UserId"@, service_account_text(a))],
    }
}

/// The `Privilege` elements of the requested privileges.
pub open spec fn privilege_elements(ps: Seq<RequiredPrivilege>) -> Seq<WrittenElement> {
    ps.map_values(|x: RequiredPrivilege| text_element("Privilege"@, x@))
}

/// The `RequiredPrivileges` element, when any privilege is requested.
pub open spec fn privileges_elements(p: Principal) -> Seq<WrittenElement> {
    if p.required_privileges@.len() == 0 {
        Seq::empty()
    } else {
        seq![
            WrittenElement {
                name: "RequiredPrivileges"@,
                attributes: Seq::empty(),
                text: Seq::empty(),
                children: privilege_elements(p.required_privileges@),
                self_closing: false,
            },
        ]
    }
}

/// The children written for a principal, in canonical order.
pub open spec fn principal_elements(p: Principal) -> Seq<WrittenElement> {
    identity_elements(p.identity) + opt_element("DisplayName"@, opt_view(p.display_name)) + opt_element(
        "LogonType"@,
        logon_type_text(p.logon_type),
    ) + seq![text_element("RunLevel"@, run_level_text(p.run_level))] + (if p.process_token_sid_type
        != ProcessTokenSidType::Default {
        seq![text_element("ProcessTokenSidType"@, sid_type_text(p.process_token_sid_type))]
    } else {
        Seq::empty()
    }) + privileges_elements(p)
}

/// The `Principal` element written for a principal, with its `id`.
pub open spec fn principal_written(p: Principal) -> WrittenElement {
    WrittenElement {
        name: "Principal"@,
        attributes: seq![("id"@, p.id@)],
        text: Seq::empty(),
        children: principal_elements(p),
        self_closing: false,
    }
}

/// The `Principals` element written for a principal.
pub open spec fn principals_written(p: Principal) -> WrittenElement {
    WrittenElement {
        name: "Principals"@,
        attributes: Seq::empty(),
        text: Seq::empty(),
        children: seq![principal_written(p)],
        self_closing: false,
    }
}

/// Whether a principal reads back as written: a logon type that is not
/// written is the one inferred from the identity, a user is not named like
/// a built-in service account, and each privilege has a valid name.
pub open spec fn principal_round_trips(p: Principal) -> bool {
    &&& logon_type_text(p.logon_type) is None ==> p.logon_type == inferred_logon_type(p.identity)
    &&& p.identity matches PrincipalIdentity::User(u) ==> service_account_named(u@) is None
    &&& forall|i: int| 0 <= i < p.required_privileges@.len() ==> is_privilege_name(
        (#[trigger] p.required_privileges@[i])@,
    )
}

proof fn lemma_principal_write(p: Principal)
    ensures
        principal_markup(p) == written_markup(principals_written(p)),
{
    let e1 = identity_elements(p.identity);
    let e2 = opt_element("DisplayName"@, opt_view(p.display_name));
    let e3 = opt_element("LogonType"@, logon_type_text(p.logon_type));
    let e4 = seq![text_element("RunLevel"@, run_level_text(p.run_level))];
    let e5 = if p.process_token_sid_type != ProcessTokenSidType::Default {
        seq![text_element("ProcessTokenSidType"@, sid_type_text(p.process_token_sid_type))]
    } else {
        Seq::empty()
    };
    let e6 = privileges_elements(p);
    match p.identity {
        PrincipalIdentity::User(u) => lemma_text_element("UserId"@, u@),
        PrincipalIdentity::Group(g) => lemma_text_element("GroupId"@, g@),
        PrincipalIdentity::ServiceAccount(a) => lemma_text_element("UserId"@, service_account_text(a)),
        _ => {},
    }
    assert(identity_markup(p.identity) =~= markups(e1));
    lemma_opt_element("DisplayName"@, opt_view(p.display_name));
    lemma_opt_element("LogonType"@, logon_type_text(p.logon_type));
    lemma_text_element("RunLevel"@, run_level_text(p.run_level));
    assert(markups(e4) =~= seq![element_markup("RunLevel"@, run_level_text(p.run_level))]);
    if p.process_token_sid_type != ProcessTokenSidType::Default {
        lemma_text_element("ProcessTokenSidType"@, sid_type_text(p.process_token_sid_type));
        assert(markups(e5) =~= seq![element_markup("ProcessTokenSidType"@, sid_type_text(p.process_token_sid_type))]);
    } else {
        assert(markups(e5) =~= Seq::<Seq<char>>::empty());
    }
    if p.required_privileges@.len() > 0 {
        let rp = e6[0];
        let items = p.required_privileges@.map_values(
            |x: RequiredPrivilege| element_markup("Privilege"@, x@),
        );
        assert forall|i: int| 0 <= i < items.len() implies #[trigger] items[i] == markups(rp.children)[i] by {
            lemma_text_element("Privilege"@, p.required_privileges@[i]@);
        }
        assert(items =~= markups(rp.children));
        lemma_element_markup(rp, None, items);
        assert(privileges_markup(p) =~= markups(e6));
    } else {
        assert(privileges_markup(p) =~= markups(e6));
    }
    lemma_markups_concat(e1, e2);
    lemma_markups_concat(e1 + e2, e3);
    lemma_markups_concat(e1 + e2 + e3, e4);
    lemma_markups_concat(e1 + e2 + e3 + e4, e5);
    lemma_markups_concat(e1 + e2 + e3 + e4 + e5, e6);
    assert(principal_children(p) == markups(principal_elements(p)));
    let inner = principal_written(p);
    assert(crate::xml_write::attribute_list(Some(("id"@, p.id@))) =~= inner.attributes);
    lemma_element_markup(inner, Some(("id"@, p.id@)), principal_children(p));
    let outer = principals_written(p);
    assert(markups(outer.children) =~= seq![written_markup(inner)]);
    lemma_element_markup(outer, None, markups(outer.children));
}

proof fn lemma_first_named_single(x: WrittenElement)
    ensures
        forall|name: Seq<char>| #[trigger] first_named(seq![x], name) == if x.name == name {
            Some(x)
        } else {
            None::<WrittenElement>
        },
{
    assert(seq![x].drop_first() =~= Seq::<WrittenElement>::empty());
    assert forall|name: Seq<char>| #[trigger] first_named(seq![x], name) == if x.name == name {
        Some(x)
    } else {
        None::<WrittenElement>
    } by {
        assert(seq![x][0] == x);
        assert(first_named(Seq::<WrittenElement>::empty(), name) is None);
    }
}

proof fn lemma_first_named_empty()
    ensures
        forall|name: Seq<char>| #[trigger] first_named(Seq::<WrittenElement>::empty(), name) is None,
{
}

proof fn lemma_child_from_member(children: Seq<Node>, name: Seq<char>, from: int)
    requires
        0 <= from,
    ensures
        child_from(children, name, from) matches Some(c) ==> exists|k: int| 0 <= k < children.len() && children[k] == c,
    decreases children.len() - from,
{
    if from < children.len() {
        lemma_child_from_member(children, name, from + 1);
    }
}

/// The first child of a given name of a tree with distinct attribute keys
/// throughout has distinct attribute keys throughout.
proof fn lemma_child_distinct(n: Node, name: Seq<char>)
    requires
        attributes_distinct(n),
    ensures
        child_of(n, name) matches Some(c) ==> attributes_distinct(c),
{
    lemma_child_from_member(n.children@, name, 0);
    lemma_all_attributes_distinct(n.children@);
}

proof fn lemma_named_all(cs: Seq<Node>, name: Seq<char>)
    requires
        forall|i: int| 0 <= i < cs.len() ==> (#[trigger] cs[i]).name@ == name,
    ensures
        named(cs, name) == cs,
    decreases cs.len(),
{
    if cs.len() > 0 {
        lemma_named_all(cs.drop_last(), name);
        assert(cs.drop_last().push(cs.last()) =~= cs);
    }
}

proof fn lemma_identity_first(id: PrincipalIdentity)
    ensures
        forall|name: Seq<char>| #[trigger] first_named(identity_elements(id), name) == match id {
            PrincipalIdentity::User(u) => if name == "UserId"@ {
                Some(text_element("UserId"@, u@))
            } else {
                None
            },
            PrincipalIdentity::Group(g) => if name == "GroupId"@ {
                Some(text_element("GroupId"@, g@))
            } else {
                None
            },
            PrincipalIdentity::ServiceAccount(a) => if name == "UserId"@ {
                Some(text_element("UserId"@, service_account_text(a)))
            } else {
                None
            },
            PrincipalIdentity::Unspecified => None::<WrittenElement>,
        },
{
    lemma_first_named_empty();
    match id {
        PrincipalIdentity::User(u) => lemma_first_named_single(text_element("UserId"@, u@)),
        PrincipalIdentity::Group(g) => lemma_first_named_single(text_element("GroupId"@, g@)),
        PrincipalIdentity::ServiceAccount(a) => lemma_first_named_single(text_element("UserId"@, service_account_text(a))),
        _ => {},
    }
}

/// Writing a principal and reading it back: the `Principals` element
/// written is the markup of `principals_written`, and in every element tree
/// with that element's values and distinct attribute keys, its `Principal`
/// child reads back as the same principal, without fault, when the
/// principal's logon type, user name and privileges read back as written.
#[verifier::rlimit(60)]
pub proof fn lemma_principal_round_trip(p: Principal, n: Node)
    requires
        principal_round_trips(p),
        node_view(n) == written_view(principals_written(p)),
        attributes_distinct(n),
    ensures
        principal_markup(p) == written_markup(principals_written(p)),
        child_of(n, "Principal"@) matches Some(c) && !principal_fault(c) && principal_read(c, p),
{
    lemma_principal_write(p);
    let inner = principal_written(p);
    lemma_first_named_single(inner);
    reveal_strlit("Principal");
    lemma_child_of_written(n, principals_written(p), "Principal"@);
    lemma_child_distinct(n, "Principal"@);
    let c = child_of(n, "Principal"@)->0;
    lemma_principal_children(p, c);
}

#[verifier::rlimit(80)]
proof fn lemma_principal_children(p: Principal, c: Node)
    requires
        principal_round_trips(p),
        node_view(c) == written_view(principal_written(p)),
        attributes_distinct(c),
    ensures
        !principal_fault(c),
        principal_read(c, p),
{
    let w = principal_written(p);
    reveal_strlit("UserId");
    reveal_strlit("GroupId");
    reveal_strlit("DisplayName");
    reveal_strlit("LogonType");
    reveal_strlit("RunLevel");
    reveal_strlit("ProcessTokenSidType");
    reveal_strlit("RequiredPrivileges");
    reveal_strlit("Privilege");
    assert("UserId"@.len() == 6);
    assert("GroupId"@.len() == 7);
    assert("DisplayName"@.len() == 11);
    assert("LogonType"@.len() == 9);
    assert("RunLevel"@.len() == 8);
    assert("ProcessTokenSidType"@.len() == 19);
    assert("RequiredPrivileges"@.len() == 18);
    // The id attribute.
    lemma_local_id();
    assert(node_view(c).attributes == attribute_values(seq![("id"@, p.id@)]));
    assert(seq![("id"@, p.id@)].drop_last() =~= Seq::<(Seq<char>, Seq<char>)>::empty());
    assert(attribute_values(Seq::<(Seq<char>, Seq<char>)>::empty()) == Map::<Seq<char>, Seq<char>>::empty());
    assert(node_view(c).attributes == Map::<Seq<char>, Seq<char>>::empty().insert("id"@, p.id@));
    lemma_attr_of_view(c, "id"@);
    assert(attr_of(c, "id"@) == Some(p.id@));
    // The children.
    let e1 = identity_elements(p.identity);
    let e2 = opt_element("DisplayName"@, opt_view(p.display_name));
    let e3 = opt_element("LogonType"@, logon_type_text(p.logon_type));
    let e4 = seq![text_element("RunLevel"@, run_level_text(p.run_level))];
    let e5 = if p.process_token_sid_type != ProcessTokenSidType::Default {
        seq![text_element("ProcessTokenSidType"@, sid_type_text(p.process_token_sid_type))]
    } else {
        Seq::empty()
    };
    let e6 = privileges_elements(p);
    lemma_first_named_empty();
    lemma_identity_first(p.identity);
    if let PrincipalIdentity::ServiceAccount(a) = p.identity {
        crate::xml_laws::lemma_service_account_round_trip(a);
    }
    lemma_opt_element("DisplayName"@, opt_view(p.display_name));
    lemma_opt_element("LogonType"@, logon_type_text(p.logon_type));
    lemma_first_named_single(text_element("RunLevel"@, run_level_text(p.run_level)));
    if p.process_token_sid_type != ProcessTokenSidType::Default {
        lemma_first_named_single(text_element("ProcessTokenSidType"@, sid_type_text(p.process_token_sid_type)));
    }
    if p.required_privileges@.len() > 0 {
        lemma_first_named_single(e6[0]);
    }
    lemma_first_named_concat(e1, e2);
    lemma_first_named_concat(e1 + e2, e3);
    lemma_first_named_concat(e1 + e2 + e3, e4);
    lemma_first_named_concat(e1 + e2 + e3 + e4, e5);
    lemma_first_named_concat(e1 + e2 + e3 + e4 + e5, e6);
    assert(w.children == e1 + e2 + e3 + e4 + e5 + e6);
    lemma_child_of_written(c, w, "UserId"@);
    lemma_child_of_written(c, w, "GroupId"@);
    lemma_child_of_written(c, w, "DisplayName"@);
    lemma_child_of_written(c, w, "LogonType"@);
    lemma_child_of_written(c, w, "RunLevel"@);
    lemma_child_of_written(c, w, "ProcessTokenSidType"@);
    lemma_child_of_written(c, w, "RequiredPrivileges"@);
    crate::xml_laws::lemma_principal_names_round_trip(
        crate::model::MultipleInstancesPolicy::IgnoreNew,
        p.run_level,
        p.process_token_sid_type,
        p.logon_type,
    );
    assert(text_of(c, "DisplayName"@) == opt_view(p.display_name));
    assert(text_of(c, "LogonType"@) == logon_type_text(p.logon_type));
    assert(text_of(c, "RunLevel"@) == Some(run_level_text(p.run_level)));
    assert(identity_read(c, p.identity));
    // The privileges.
    if p.required_privileges@.len() > 0 {
        let rp = child_of(c, "RequiredPrivileges"@)->0;
        let rw = e6[0];
        let ps = p.required_privileges@;
        assert(node_view(rp) == written_view(rw));
        crate::xml::lemma_nodes_view(rp.children@);
        lemma_written_views(rw.children, rw.children.len() as int);
        assert(nodes_view(rp.children@) == written_views(rw.children, rw.children.len() as int));
        assert forall|i: int| 0 <= i < rp.children@.len() implies (#[trigger] rp.children@[i]).name@ == "Privilege"@
            && rp.children@[i].text@ == ps[i]@ by {
            assert(nodes_view(rp.children@)[i] == written_views(rw.children, rw.children.len() as int)[i]);
            assert(rw.children[i] == text_element("Privilege"@, ps[i]@));
        }
        lemma_named_all(rp.children@, "Privilege"@);
        assert(privilege_nodes(c) == rp.children@);
    } else {
        assert(privilege_nodes(c) == Seq::<Node>::empty());
    }
}

// ---------------------------------------------------------------------------
// Settings
// ---------------------------------------------------------------------------

/// An element holding a boolean.
pub open spec fn bool_element(name: Seq<char>, b: bool) -> WrittenElement {
    text_element(name, bool_markup_text(b))
}

/// An element holding only child elements.
pub open spec fn parent_element(name: Seq<char>, children: Seq<WrittenElement>) -> WrittenElement {
    WrittenElement { name, attributes: Seq::empty(), text: Seq::empty(), children, self_closing: false }
}

/// The first children written for settings: demand start, battery flags
/// and the restart policy.
pub open spec fn settings_start_elements(s: TaskSettings) -> Seq<WrittenElement> {
    settings_start_flags(s) + settings_restart(s)
}

/// The middle children written for settings: instance policy, start and
/// terminate flags, idle and network conditions.
pub open spec fn settings_middle_elements(s: TaskSettings) -> Seq<WrittenElement> {
    settings_middle_flags(s) + settings_idle(s) + settings_idle_flag(s) + settings_network(s)
}

/// The last children written for settings: network, wake, enabled and
/// hidden flags, expiry, limit, priority and the newer settings written only
/// when requested.
pub open spec fn settings_end_elements(s: TaskSettings) -> Seq<WrittenElement> {
    settings_end_flags(s) + settings_expiry(s) + settings_limits(s) + settings_unified(s) + settings_remote(s) + settings_maintenance(s) + settings_volatile(s)
}

/// The `Settings` element written for settings.
pub open spec fn settings_written(s: TaskSettings) -> WrittenElement {
    parent_element(
        "Settings"@,
        settings_start_elements(s) + settings_middle_elements(s) + settings_end_elements(s),
    )
}

proof fn lemma_texts_markups(ws: Seq<WrittenElement>, ms: Seq<Seq<char>>)
    requires
        ws.len() == ms.len(),
        forall|i: int| 0 <= i < ws.len() ==> #[trigger] ms[i] == written_markup(ws[i]),
    ensures
        markups(ws) == ms,
{
    assert(markups(ws) =~= ms);
}

proof fn lemma_parent_markup(name: Seq<char>, children: Seq<WrittenElement>, known: Seq<Seq<char>>)
    requires
        known == markups(children),
    ensures
        crate::xml_write::container_markup(name, None, Seq::empty(), known) == written_markup(
            parent_element(name, children),
        ),
{
    let w = parent_element(name, children);
    assert(crate::xml_write::attribute_list(None) =~= w.attributes);
    lemma_element_markup(w, None, known);
}

#[verifier::rlimit(60)]
proof fn lemma_settings_write(d: TaskDefinition)
    requires
        !has_extensions(d, "Task/Settings"@),
    ensures
        settings_markup(d) == written_markup(settings_written(d.settings)),
{
    let s = d.settings;
    // The first children.
    let a = seq![
        bool_element("AllowStartOnDemand"@, s.allow_demand_start),
        bool_element("DisallowStartIfOnBatteries"@, s.disallow_start_if_on_batteries),
        bool_element("StopIfGoingOnBatteries"@, s.stop_if_going_on_batteries),
    ];
    lemma_text_element("AllowStartOnDemand"@, bool_markup_text(s.allow_demand_start));
    lemma_text_element("DisallowStartIfOnBatteries"@, bool_markup_text(s.disallow_start_if_on_batteries));
    lemma_text_element("StopIfGoingOnBatteries"@, bool_markup_text(s.stop_if_going_on_batteries));
    lemma_texts_markups(a, seq![
        bool_markup("AllowStartOnDemand"@, s.allow_demand_start),
        bool_markup("DisallowStartIfOnBatteries"@, s.disallow_start_if_on_batteries),
        bool_markup("StopIfGoingOnBatteries"@, s.stop_if_going_on_batteries),
    ]);
    let b = settings_start_elements(s).skip(3);
    assert(settings_start_elements(s) =~= a + b);
    if let Some(r) = s.restart_on_failure {
        let inner = seq![
            text_element("Interval"@, dur_text(r.interval)),
            text_element("Count"@, decimal(r.count as nat)),
        ];
        lemma_text_element("Interval"@, dur_text(r.interval));
        lemma_text_element("Count"@, decimal(r.count as nat));
        lemma_texts_markups(inner, seq![
            crate::xml_write::element_markup("Interval"@, dur_text(r.interval)),
            crate::xml_write::element_markup("Count"@, decimal(r.count as nat)),
        ]);
        lemma_parent_markup("RestartOnFailure"@, inner, markups(inner));
        assert(markups(b) =~= settings_start(s).skip(3));
    } else {
        assert(markups(b) =~= settings_start(s).skip(3));
    }
    lemma_markups_concat(a, b);
    assert(settings_start(s) =~= markups(a) + markups(b));
    lemma_settings_middle_write(s);
    lemma_settings_end_write(s);
    let all = settings_start_elements(s) + settings_middle_elements(s) + settings_end_elements(s);
    lemma_markups_concat(settings_start_elements(s), settings_middle_elements(s));
    lemma_markups_concat(settings_start_elements(s) + settings_middle_elements(s), settings_end_elements(s));
    assert(settings_children(s) == markups(all));
    lemma_no_extensions_merged(settings_children(s), d, "Task/Settings"@);
    lemma_parent_markup("Settings"@, all, settings_children(s));
}

#[verifier::rlimit(60)]
proof fn lemma_settings_middle_write(s: TaskSettings)
    ensures
        settings_middle(s) == markups(settings_middle_elements(s)),
{
    let a = seq![
        text_element("MultipleInstancesPolicy"@, instances_text(s.multiple_instances)),
        bool_element("StartWhenAvailable"@, s.start_when_available),
        bool_element("AllowHardTerminate"@, s.allow_hard_terminate),
    ];
    lemma_text_element("MultipleInstancesPolicy"@, instances_text(s.multiple_instances));
    lemma_text_element("StartWhenAvailable"@, bool_markup_text(s.start_when_available));
    lemma_text_element("AllowHardTerminate"@, bool_markup_text(s.allow_hard_terminate));
    let b = match s.idle {
        Some(i) => seq![
            parent_element(
                "IdleSettings"@,
                seq![
                    text_element("Duration"@, dur_text(i.duration)),
                    text_element("WaitTimeout"@, dur_text(i.wait_timeout)),
                    bool_element("StopOnIdleEnd"@, i.stop_on_idle_end),
                    bool_element("RestartOnIdle"@, i.restart_on_idle),
                ],
            ),
        ],
        None => Seq::<WrittenElement>::empty(),
    };
    let c = seq![bool_element("RunOnlyIfIdle"@, s.idle is Some)];
    lemma_text_element("RunOnlyIfIdle"@, bool_markup_text(s.idle is Some));
    let e = match s.network {
        Some(n) => seq![
            parent_element(
                "NetworkSettings"@,
                opt_element("Name"@, opt_view(n.name)) + opt_element("Id"@, opt_view(n.id)),
            ),
        ],
        None => Seq::<WrittenElement>::empty(),
    };
    let ma = seq![
        crate::xml_write::element_markup("MultipleInstancesPolicy"@, instances_text(s.multiple_instances)),
        bool_markup("StartWhenAvailable"@, s.start_when_available),
        bool_markup("AllowHardTerminate"@, s.allow_hard_terminate),
    ];
    lemma_texts_markups(a, ma);
    if let Some(i) = s.idle {
        let inner = seq![
            text_element("Duration"@, dur_text(i.duration)),
            text_element("WaitTimeout"@, dur_text(i.wait_timeout)),
            bool_element("StopOnIdleEnd"@, i.stop_on_idle_end),
            bool_element("RestartOnIdle"@, i.restart_on_idle),
        ];
        lemma_text_element("Duration"@, dur_text(i.duration));
        lemma_text_element("WaitTimeout"@, dur_text(i.wait_timeout));
        lemma_text_element("StopOnIdleEnd"@, bool_markup_text(i.stop_on_idle_end));
        lemma_text_element("RestartOnIdle"@, bool_markup_text(i.restart_on_idle));
        lemma_texts_markups(inner, seq![
            crate::xml_write::element_markup("Duration"@, dur_text(i.duration)),
            crate::xml_write::element_markup("WaitTimeout"@, dur_text(i.wait_timeout)),
            bool_markup("StopOnIdleEnd"@, i.stop_on_idle_end),
            bool_markup("RestartOnIdle"@, i.restart_on_idle),
        ]);
        lemma_parent_markup("IdleSettings"@, inner, markups(inner));
    }
    assert(markups(c) =~= seq![bool_markup("RunOnlyIfIdle"@, s.idle is Some)]);
    if let Some(n) = s.network {
        let inner = opt_element("Name"@, opt_view(n.name)) + opt_element("Id"@, opt_view(n.id));
        lemma_opt_element("Name"@, opt_view(n.name));
        lemma_opt_element("Id"@, opt_view(n.id));
        lemma_markups_concat(opt_element("Name"@, opt_view(n.name)), opt_element("Id"@, opt_view(n.id)));
        lemma_parent_markup("NetworkSettings"@, inner, markups(inner));
    }
    lemma_markups_concat(a, b);
    lemma_markups_concat(a + b, c);
    lemma_markups_concat(a + b + c, e);
    assert(settings_middle_elements(s) == a + b + c + e);
    assert(settings_middle(s) =~= markups(a) + markups(b) + markups(c) + markups(e));
}

#[verifier::rlimit(60)]
proof fn lemma_settings_end_write(s: TaskSettings)
    ensures
        settings_end(s) == markups(settings_end_elements(s)),
{
    let a = seq![
        bool_element("RunOnlyIfNetworkAvailable"@, s.network is Some),
        bool_element("WakeToRun"@, s.wake_to_run),
        bool_element("Enabled"@, s.enabled),
        bool_element("Hidden"@, s.hidden),
    ];
    lemma_text_element("RunOnlyIfNetworkAvailable"@, bool_markup_text(s.network is Some));
    lemma_text_element("WakeToRun"@, bool_markup_text(s.wake_to_run));
    lemma_text_element("Enabled"@, bool_markup_text(s.enabled));
    lemma_text_element("Hidden"@, bool_markup_text(s.hidden));
    lemma_texts_markups(a, seq![
        bool_markup("RunOnlyIfNetworkAvailable"@, s.network is Some),
        bool_markup("WakeToRun"@, s.wake_to_run),
        bool_markup("Enabled"@, s.enabled),
        bool_markup("Hidden"@, s.hidden),
    ]);
    let b = opt_element("DeleteExpiredTaskAfter"@, opt_dur_text(s.delete_expired_after));
    lemma_opt_element("DeleteExpiredTaskAfter"@, opt_dur_text(s.delete_expired_after));
    let c = seq![
        text_element("ExecutionTimeLimit"@, limit_text(s.execution_time_limit)),
        text_element("Priority"@, decimal(s.priority as nat)),
    ];
    lemma_text_element("ExecutionTimeLimit"@, limit_text(s.execution_time_limit));
    lemma_text_element("Priority"@, decimal(s.priority as nat));
    lemma_texts_markups(c, seq![
        crate::xml_write::element_markup("ExecutionTimeLimit"@, limit_text(s.execution_time_limit)),
        crate::xml_write::element_markup("Priority"@, decimal(s.priority as nat)),
    ]);
    let e = if s.use_unified_scheduling_engine {
        seq![bool_element("UseUnifiedSchedulingEngine"@, true)]
    } else {
        Seq::<WrittenElement>::empty()
    };
    lemma_text_element("UseUnifiedSchedulingEngine"@, bool_markup_text(true));
    assert(markups(e) =~= if s.use_unified_scheduling_engine {
        seq![bool_markup("UseUnifiedSchedulingEngine"@, true)]
    } else {
        Seq::<Seq<char>>::empty()
    });
    let f = if s.disallow_start_on_remote_app_session {
        seq![bool_element("DisallowStartOnRemoteAppSession"@, true)]
    } else {
        Seq::<WrittenElement>::empty()
    };
    lemma_text_element("DisallowStartOnRemoteAppSession"@, bool_markup_text(true));
    assert(markups(f) =~= if s.disallow_start_on_remote_app_session {
        seq![bool_markup("DisallowStartOnRemoteAppSession"@, true)]
    } else {
        Seq::<Seq<char>>::empty()
    });
    let g = match s.maintenance {
        Some(m) => seq![
            parent_element(
                "MaintenanceSettings"@,
                seq![
                    text_element("Period"@, dur_text(m.period)),
                    text_element("Deadline"@, dur_text(m.deadline)),
                    bool_element("Exclusive"@, m.exclusive),
                ],
            ),
        ],
        None => Seq::<WrittenElement>::empty(),
    };
    if let Some(m) = s.maintenance {
        let inner = seq![
            text_element("Period"@, dur_text(m.period)),
            text_element("Deadline"@, dur_text(m.deadline)),
            bool_element("Exclusive"@, m.exclusive),
        ];
        lemma_text_element("Period"@, dur_text(m.period));
        lemma_text_element("Deadline"@, dur_text(m.deadline));
        lemma_text_element("Exclusive"@, bool_markup_text(m.exclusive));
        lemma_texts_markups(inner, seq![
            crate::xml_write::element_markup("Period"@, dur_text(m.period)),
            crate::xml_write::element_markup("Deadline"@, dur_text(m.deadline)),
            bool_markup("Exclusive"@, m.exclusive),
        ]);
        lemma_parent_markup("MaintenanceSettings"@, inner, markups(inner));
    }
    let h = if s.volatile {
        seq![bool_element("Volatile"@, true)]
    } else {
        Seq::<WrittenElement>::empty()
    };
    lemma_text_element("Volatile"@, bool_markup_text(true));
    assert(markups(h) =~= if s.volatile {
        seq![bool_markup("Volatile"@, true)]
    } else {
        Seq::<Seq<char>>::empty()
    });
    lemma_markups_concat(a, b);
    lemma_markups_concat(a + b, c);
    lemma_markups_concat(a + b + c, e);
    lemma_markups_concat(a + b + c + e, f);
    lemma_markups_concat(a + b + c + e + f, g);
    lemma_markups_concat(a + b + c + e + f + g, h);
    assert(settings_end_elements(s) == a + b + c + e + f + g + h);
    assert(settings_end(s) =~= markups(a) + markups(b) + markups(c) + markups(e) + markups(f) + markups(g)
        + markups(h));
}

proof fn lemma_first_named_list1(ws: Seq<WrittenElement>)
    requires
        ws.len() == 1,
    ensures
        forall|name: Seq<char>| #[trigger] first_named(ws, name) == if ws[0].name == name {
            Some(ws[0])
        } else {
            None::<WrittenElement>
        },
{
    assert(ws =~= seq![ws[0]]);
    lemma_first_named_single(ws[0]);
}

proof fn lemma_first_named_list2(ws: Seq<WrittenElement>)
    requires
        ws.len() == 2,
    ensures
        forall|name: Seq<char>| #[trigger] first_named(ws, name) == if ws[0].name == name {
            Some(ws[0])
        } else if ws[1].name == name {
            Some(ws[1])
        } else {
            None::<WrittenElement>
        },
{
    assert(ws =~= seq![ws[0]] + seq![ws[1]]);
    lemma_first_named_single(ws[0]);
    lemma_first_named_single(ws[1]);
    lemma_first_named_concat(seq![ws[0]], seq![ws[1]]);
}

proof fn lemma_first_named_list3(ws: Seq<WrittenElement>)
    requires
        ws.len() == 3,
    ensures
        forall|name: Seq<char>| #[trigger] first_named(ws, name) == if ws[0].name == name {
            Some(ws[0])
        } else if ws[1].name == name {
            Some(ws[1])
        } else if ws[2].name == name {
            Some(ws[2])
        } else {
            None::<WrittenElement>
        },
{
    assert(ws =~= seq![ws[0], ws[1]] + seq![ws[2]]);
    lemma_first_named_list2(seq![ws[0], ws[1]]);
    lemma_first_named_single(ws[2]);
    lemma_first_named_concat(seq![ws[0], ws[1]], seq![ws[2]]);
}

proof fn lemma_first_named_list4(ws: Seq<WrittenElement>)
    requires
        ws.len() == 4,
    ensures
        forall|name: Seq<char>| #[trigger] first_named(ws, name) == if ws[0].name == name {
            Some(ws[0])
        } else if ws[1].name == name {
            Some(ws[1])
        } else if ws[2].name == name {
            Some(ws[2])
        } else if ws[3].name == name {
            Some(ws[3])
        } else {
            None::<WrittenElement>
        },
{
    assert(ws =~= seq![ws[0], ws[1], ws[2]] + seq![ws[3]]);
    lemma_first_named_list3(seq![ws[0], ws[1], ws[2]]);
    lemma_first_named_single(ws[3]);
    lemma_first_named_concat(seq![ws[0], ws[1], ws[2]], seq![ws[3]]);
}

/// The `IdleSettings` element written for idle conditions.
pub open spec fn idle_element(i: crate::model::IdleSettings) -> WrittenElement {
    parent_element(
        "IdleSettings"@,
        seq![
            text_element("Duration"@, dur_text(i.duration)),
            text_element("WaitTimeout"@, dur_text(i.wait_timeout)),
            bool_element("StopOnIdleEnd"@, i.stop_on_idle_end),
            bool_element("RestartOnIdle"@, i.restart_on_idle),
        ],
    )
}

/// The `NetworkSettings` element written for a network condition.
pub open spec fn network_element(n: crate::model::NetworkSettings) -> WrittenElement {
    parent_element("NetworkSettings"@, opt_element("Name"@, opt_view(n.name)) + opt_element("Id"@, opt_view(n.id)))
}

/// The `MaintenanceSettings` element written for automatic maintenance.
pub open spec fn maintenance_element(m: crate::model::MaintenanceSettings) -> WrittenElement {
    parent_element(
        "MaintenanceSettings"@,
        seq![
            text_element("Period"@, dur_text(m.period)),
            text_element("Deadline"@, dur_text(m.deadline)),
            bool_element("Exclusive"@, m.exclusive),
        ],
    )
}

pub open spec fn settings_start_flags(s: TaskSettings) -> Seq<WrittenElement> {
    seq![
        bool_element("AllowStartOnDemand"@, s.allow_demand_start),
        bool_element("DisallowStartIfOnBatteries"@, s.disallow_start_if_on_batteries),
        bool_element("StopIfGoingOnBatteries"@, s.stop_if_going_on_batteries),
    ]
}

pub open spec fn settings_restart(s: TaskSettings) -> Seq<WrittenElement> {
    match s.restart_on_failure {
        Some(r) => seq![
            parent_element(
                "RestartOnFailure"@,
                seq![
                    text_element("Interval"@, dur_text(r.interval)),
                    text_element("Count"@, decimal(r.count as nat)),
                ],
            ),
        ],
        None => Seq::empty(),
    }
}

pub open spec fn settings_middle_flags(s: TaskSettings) -> Seq<WrittenElement> {
    seq![
        text_element("MultipleInstancesPolicy"@, instances_text(s.multiple_instances)),
        bool_element("StartWhenAvailable"@, s.start_when_available),
        bool_element("AllowHardTerminate"@, s.allow_hard_terminate),
    ]
}

pub open spec fn settings_idle(s: TaskSettings) -> Seq<WrittenElement> {
    match s.idle {
        Some(i) => seq![idle_element(i)],
        None => Seq::empty(),
    }
}

pub open spec fn settings_idle_flag(s: TaskSettings) -> Seq<WrittenElement> {
    seq![bool_element("RunOnlyIfIdle"@, s.idle is Some)]
}

pub open spec fn settings_network(s: TaskSettings) -> Seq<WrittenElement> {
    match s.network {
        Some(n) => seq![network_element(n)],
        None => Seq::empty(),
    }
}

pub open spec fn settings_end_flags(s: TaskSettings) -> Seq<WrittenElement> {
    seq![
        bool_element("RunOnlyIfNetworkAvailable"@, s.network is Some),
        bool_element("WakeToRun"@, s.wake_to_run),
        bool_element("Enabled"@, s.enabled),
        bool_element("Hidden"@, s.hidden),
    ]
}

pub open spec fn settings_expiry(s: TaskSettings) -> Seq<WrittenElement> {
    opt_element("DeleteExpiredTaskAfter"@, opt_dur_text(s.delete_expired_after))
}

pub open spec fn settings_limits(s: TaskSettings) -> Seq<WrittenElement> {
    seq![
        text_element("ExecutionTimeLimit"@, limit_text(s.execution_time_limit)),
        text_element("Priority"@, decimal(s.priority as nat)),
    ]
}

pub open spec fn settings_unified(s: TaskSettings) -> Seq<WrittenElement> {
    if s.use_unified_scheduling_engine {
        seq![bool_element("UseUnifiedSchedulingEngine"@, true)]
    } else {
        Seq::empty()
    }
}

pub open spec fn settings_remote(s: TaskSettings) -> Seq<WrittenElement> {
    if s.disallow_start_on_remote_app_session {
        seq![bool_element("DisallowStartOnRemoteAppSession"@, true)]
    } else {
        Seq::empty()
    }
}

pub open spec fn settings_maintenance(s: TaskSettings) -> Seq<WrittenElement> {
    match s.maintenance {
        Some(m) => seq![maintenance_element(m)],
        None => Seq::empty(),
    }
}

pub open spec fn settings_volatile(s: TaskSettings) -> Seq<WrittenElement> {
    if s.volatile {
        seq![bool_element("Volatile"@, true)]
    } else {
        Seq::empty()
    }
}

/// The first of two choices that is present.
pub open spec fn either(a: Option<WrittenElement>, b: Option<WrittenElement>) -> Option<WrittenElement> {
    match a {
        Some(x) => Some(x),
        None => b,
    }
}

/// The first child named `name` among the start children written for
/// settings, looked up block by block.
pub open spec fn settings_start_pick(s: TaskSettings, name: Seq<char>) -> Option<WrittenElement> {
    either(first_named(settings_start_flags(s), name), either(first_named(settings_restart(s), name), None))
}

proof fn lemma_settings_start_pick(s: TaskSettings)
    ensures
        forall|name: Seq<char>| #[trigger] first_named(settings_start_elements(s), name) == settings_start_pick(s, name),
{
    lemma_first_named_concat(settings_start_flags(s), settings_restart(s));
    assert forall|name: Seq<char>| #[trigger] first_named(settings_start_elements(s), name) == settings_start_pick(s, name) by {
        assert(first_named(settings_start_flags(s) + settings_restart(s), name) == settings_start_pick(s, name));
    }
}

/// The first child named `name` among the middle children written for
/// settings, looked up block by block.
pub open spec fn settings_middle_pick(s: TaskSettings, name: Seq<char>) -> Option<WrittenElement> {
    either(first_named(settings_middle_flags(s), name), either(first_named(settings_idle(s), name), either(first_named(settings_idle_flag(s), name), either(first_named(settings_network(s), name), None))))
}

proof fn lemma_settings_middle_pick(s: TaskSettings)
    ensures
        forall|name: Seq<char>| #[trigger] first_named(settings_middle_elements(s), name) == settings_middle_pick(s, name),
{
    lemma_first_named_concat(settings_middle_flags(s), settings_idle(s));
    lemma_first_named_concat(settings_middle_flags(s) + settings_idle(s), settings_idle_flag(s));
    lemma_first_named_concat(settings_middle_flags(s) + settings_idle(s) + settings_idle_flag(s), settings_network(s));
    assert forall|name: Seq<char>| #[trigger] first_named(settings_middle_elements(s), name) == settings_middle_pick(s, name) by {
        assert(first_named(settings_middle_flags(s) + settings_idle(s) + settings_idle_flag(s) + settings_network(s), name) == settings_middle_pick(s, name));
    }
}

/// The first child named `name` among the end children written for
/// settings, looked up block by block.
pub open spec fn settings_end_pick(s: TaskSettings, name: Seq<char>) -> Option<WrittenElement> {
    either(first_named(settings_end_flags(s), name), either(first_named(settings_expiry(s), name), either(first_named(settings_limits(s), name), either(first_named(settings_unified(s), name), either(first_named(settings_remote(s), name), either(first_named(settings_maintenance(s), name), either(first_named(settings_volatile(s), name), None)))))))
}

proof fn lemma_settings_end_pick(s: TaskSettings)
    ensures
        forall|name: Seq<char>| #[trigger] first_named(settings_end_elements(s), name) == settings_end_pick(s, name),
{
    lemma_first_named_concat(settings_end_flags(s), settings_expiry(s));
    lemma_first_named_concat(settings_end_flags(s) + settings_expiry(s), settings_limits(s));
    lemma_first_named_concat(settings_end_flags(s) + settings_expiry(s) + settings_limits(s), settings_unified(s));
    lemma_first_named_concat(settings_end_flags(s) + settings_expiry(s) + settings_limits(s) + settings_unified(s), settings_remote(s));
    lemma_first_named_concat(settings_end_flags(s) + settings_expiry(s) + settings_limits(s) + settings_unified(s) + settings_remote(s), settings_maintenance(s));
    lemma_first_named_concat(settings_end_flags(s) + settings_expiry(s) + settings_limits(s) + settings_unified(s) + settings_remote(s) + settings_maintenance(s), settings_volatile(s));
    assert forall|name: Seq<char>| #[trigger] first_named(settings_end_elements(s), name) == settings_end_pick(s, name) by {
        assert(first_named(settings_end_flags(s) + settings_expiry(s) + settings_limits(s) + settings_unified(s) + settings_remote(s) + settings_maintenance(s) + settings_volatile(s), name) == settings_end_pick(s, name));
    }
}

/// The first child named `name` among the children written for settings.
pub open spec fn settings_pick(s: TaskSettings, name: Seq<char>) -> Option<WrittenElement> {
    either(settings_start_pick(s, name), either(settings_middle_pick(s, name), settings_end_pick(s, name)))
}

proof fn lemma_settings_pick(s: TaskSettings)
    ensures
        forall|name: Seq<char>| #[trigger] first_named(settings_written(s).children, name) == settings_pick(s, name),
{
    lemma_settings_start_pick(s);
    lemma_settings_middle_pick(s);
    lemma_settings_end_pick(s);
    lemma_first_named_concat(settings_start_elements(s), settings_middle_elements(s));
    lemma_first_named_concat(settings_start_elements(s) + settings_middle_elements(s), settings_end_elements(s));
}

/// Whether the values settings hold are well formed: durations with their
/// nanoseconds below a second, and a finite execution limit that is not
/// zero, since the text of a zero limit means no limit.
pub open spec fn settings_round_trips(s: TaskSettings) -> bool {
    &&& s.restart_on_failure matches Some(r) ==> r.interval.well_formed()
    &&& s.idle matches Some(i) ==> i.duration.well_formed() && i.wait_timeout.well_formed()
    &&& s.delete_expired_after matches Some(x) ==> x.well_formed()
    &&& s.maintenance matches Some(m) ==> m.period.well_formed() && m.deadline.well_formed()
    &&& s.execution_time_limit matches TaskLimit::Finite(d) ==> d.well_formed() && d@ != (0nat, 0nat)
}

proof fn lemma_settings_child(s: TaskSettings, n: Node, name: Seq<char>)
    requires
        node_view(n) == written_view(settings_written(s)),
    ensures
        match settings_pick(s, name) {
            Some(x) => child_of(n, name) matches Some(c) && node_view(c) == written_view(x),
            None => child_of(n, name) is None,
        },
{
    lemma_settings_pick(s);
    lemma_child_of_written(n, settings_written(s), name);
}

proof fn lemma_bool_child(n: Node, name: Seq<char>, b: bool)
    requires
        child_of(n, name) matches Some(c) && node_view(c) == written_view(bool_element(name, b)),
    ensures
        bool_field(n, name) == Some(Some(b)),
{
    crate::xml_laws::lemma_bool_round_trip(b);
}

#[verifier::rlimit(100)]
proof fn lemma_settings_flags(s: TaskSettings, n: Node)
    requires
        node_view(n) == written_view(settings_written(s)),
    ensures
        bool_field(n, "AllowStartOnDemand"@) == Some(Some(s.allow_demand_start)),
        bool_field(n, "DisallowStartIfOnBatteries"@) == Some(Some(s.disallow_start_if_on_batteries)),
        bool_field(n, "StopIfGoingOnBatteries"@) == Some(Some(s.stop_if_going_on_batteries)),
        bool_field(n, "StartWhenAvailable"@) == Some(Some(s.start_when_available)),
        bool_field(n, "AllowHardTerminate"@) == Some(Some(s.allow_hard_terminate)),
{
    reveal_strlit("AllowStartOnDemand");
    assert("AllowStartOnDemand"@.len() == 18 && "AllowStartOnDemand"@[0] == 'A' && "AllowStartOnDemand"@[5] == 'S');
    reveal_strlit("DisallowStartIfOnBatteries");
    assert("DisallowStartIfOnBatteries"@.len() == 26 && "DisallowStartIfOnBatteries"@[0] == 'D' && "DisallowStartIfOnBatteries"@[5] == 'l');
    reveal_strlit("StopIfGoingOnBatteries");
    assert("StopIfGoingOnBatteries"@.len() == 22 && "StopIfGoingOnBatteries"@[0] == 'S' && "StopIfGoingOnBatteries"@[5] == 'f');
    reveal_strlit("RestartOnFailure");
    assert("RestartOnFailure"@.len() == 16 && "RestartOnFailure"@[0] == 'R' && "RestartOnFailure"@[5] == 'r');
    reveal_strlit("MultipleInstancesPolicy");
    assert("MultipleInstancesPolicy"@.len() == 23 && "MultipleInstancesPolicy"@[0] == 'M' && "MultipleInstancesPolicy"@[5] == 'p');
    reveal_strlit("StartWhenAvailable");
    assert("StartWhenAvailable"@.len() == 18 && "StartWhenAvailable"@[0] == 'S' && "StartWhenAvailable"@[5] == 'W');
    reveal_strlit("AllowHardTerminate");
    assert("AllowHardTerminate"@.len() == 18 && "AllowHardTerminate"@[0] == 'A' && "AllowHardTerminate"@[5] == 'H');
    reveal_strlit("IdleSettings");
    assert("IdleSettings"@.len() == 12 && "IdleSettings"@[0] == 'I' && "IdleSettings"@[5] == 'e');
    reveal_strlit("RunOnlyIfIdle");
    assert("RunOnlyIfIdle"@.len() == 13 && "RunOnlyIfIdle"@[0] == 'R' && "RunOnlyIfIdle"@[5] == 'l');
    reveal_strlit("NetworkSettings");
    assert("NetworkSettings"@.len() == 15 && "NetworkSettings"@[0] == 'N' && "NetworkSettings"@[5] == 'r');
    reveal_strlit("RunOnlyIfNetworkAvailable");
    assert("RunOnlyIfNetworkAvailable"@.len() == 25 && "RunOnlyIfNetworkAvailable"@[0] == 'R' && "RunOnlyIfNetworkAvailable"@[5] == 'l');
    reveal_strlit("WakeToRun");
    assert("WakeToRun"@.len() == 9 && "WakeToRun"@[0] == 'W' && "WakeToRun"@[5] == 'o');
    reveal_strlit("Enabled");
    assert("Enabled"@.len() == 7 && "Enabled"@[0] == 'E' && "Enabled"@[5] == 'e');
    reveal_strlit("Hidden");
    assert("Hidden"@.len() == 6 && "Hidden"@[0] == 'H' && "Hidden"@[5] == 'n');
    reveal_strlit("DeleteExpiredTaskAfter");
    assert("DeleteExpiredTaskAfter"@.len() == 22 && "DeleteExpiredTaskAfter"@[0] == 'D' && "DeleteExpiredTaskAfter"@[5] == 'e');
    reveal_strlit("ExecutionTimeLimit");
    assert("ExecutionTimeLimit"@.len() == 18 && "ExecutionTimeLimit"@[0] == 'E' && "ExecutionTimeLimit"@[5] == 't');
    reveal_strlit("Priority");
    assert("Priority"@.len() == 8 && "Priority"@[0] == 'P' && "Priority"@[5] == 'i');
    reveal_strlit("UseUnifiedSchedulingEngine");
    assert("UseUnifiedSchedulingEngine"@.len() == 26 && "UseUnifiedSchedulingEngine"@[0] == 'U' && "UseUnifiedSchedulingEngine"@[5] == 'i');
    reveal_strlit("DisallowStartOnRemoteAppSession");
    assert("DisallowStartOnRemoteAppSession"@.len() == 31 && "DisallowStartOnRemoteAppSession"@[0] == 'D' && "DisallowStartOnRemoteAppSession"@[5] == 'l');
    reveal_strlit("MaintenanceSettings");
    assert("MaintenanceSettings"@.len() == 19 && "MaintenanceSettings"@[0] == 'M' && "MaintenanceSettings"@[5] == 'e');
    reveal_strlit("Volatile");
    assert("Volatile"@.len() == 8 && "Volatile"@[0] == 'V' && "Volatile"@[5] == 'i');
    lemma_first_named_empty();
    lemma_first_named_list3(settings_start_flags(s));
    lemma_first_named_list3(settings_middle_flags(s));
    lemma_first_named_list1(settings_idle_flag(s));
    lemma_first_named_list4(settings_end_flags(s));
    lemma_first_named_list2(settings_limits(s));
    lemma_opt_element("DeleteExpiredTaskAfter"@, opt_dur_text(s.delete_expired_after));
    if settings_restart(s).len() == 1 {
        lemma_first_named_list1(settings_restart(s));
    }
    if settings_idle(s).len() == 1 {
        lemma_first_named_list1(settings_idle(s));
    }
    if settings_network(s).len() == 1 {
        lemma_first_named_list1(settings_network(s));
    }
    if settings_unified(s).len() == 1 {
        lemma_first_named_list1(settings_unified(s));
    }
    if settings_remote(s).len() == 1 {
        lemma_first_named_list1(settings_remote(s));
    }
    if settings_maintenance(s).len() == 1 {
        lemma_first_named_list1(settings_maintenance(s));
    }
    if settings_volatile(s).len() == 1 {
        lemma_first_named_list1(settings_volatile(s));
    }
    lemma_settings_child(s, n, "AllowStartOnDemand"@);
    lemma_bool_child(n, "AllowStartOnDemand"@, s.allow_demand_start);
    lemma_settings_child(s, n, "DisallowStartIfOnBatteries"@);
    lemma_bool_child(n, "DisallowStartIfOnBatteries"@, s.disallow_start_if_on_batteries);
    lemma_settings_child(s, n, "StopIfGoingOnBatteries"@);
    lemma_bool_child(n, "StopIfGoingOnBatteries"@, s.stop_if_going_on_batteries);
    lemma_settings_child(s, n, "StartWhenAvailable"@);
    lemma_bool_child(n, "StartWhenAvailable"@, s.start_when_available);
    lemma_settings_child(s, n, "AllowHardTerminate"@);
    lemma_bool_child(n, "AllowHardTerminate"@, s.allow_hard_terminate);
}

#[verifier::rlimit(100)]
proof fn lemma_settings_idle_flags(s: TaskSettings, n: Node)
    requires
        node_view(n) == written_view(settings_written(s)),
    ensures
        bool_field(n, "RunOnlyIfIdle"@) == Some(Some(s.idle is Some)),
        bool_field(n, "RunOnlyIfNetworkAvailable"@) == Some(Some(s.network is Some)),
        bool_field(n, "WakeToRun"@) == Some(Some(s.wake_to_run)),
        bool_field(n, "Enabled"@) == Some(Some(s.enabled)),
        bool_field(n, "Hidden"@) == Some(Some(s.hidden)),
{
    reveal_strlit("AllowStartOnDemand");
    assert("AllowStartOnDemand"@.len() == 18 && "AllowStartOnDemand"@[0] == 'A' && "AllowStartOnDemand"@[5] == 'S');
    reveal_strlit("DisallowStartIfOnBatteries");
    assert("DisallowStartIfOnBatteries"@.len() == 26 && "DisallowStartIfOnBatteries"@[0] == 'D' && "DisallowStartIfOnBatteries"@[5] == 'l');
    reveal_strlit("StopIfGoingOnBatteries");
    assert("StopIfGoingOnBatteries"@.len() == 22 && "StopIfGoingOnBatteries"@[0] == 'S' && "StopIfGoingOnBatteries"@[5] == 'f');
    reveal_strlit("RestartOnFailure");
    assert("RestartOnFailure"@.len() == 16 && "RestartOnFailure"@[0] == 'R' && "RestartOnFailure"@[5] == 'r');
    reveal_strlit("MultipleInstancesPolicy");
    assert("MultipleInstancesPolicy"@.len() == 23 && "MultipleInstancesPolicy"@[0] == 'M' && "MultipleInstancesPolicy"@[5] == 'p');
    reveal_strlit("StartWhenAvailable");
    assert("StartWhenAvailable"@.len() == 18 && "StartWhenAvailable"@[0] == 'S' && "StartWhenAvailable"@[5] == 'W');
    reveal_strlit("AllowHardTerminate");
    assert("AllowHardTerminate"@.len() == 18 && "AllowHardTerminate"@[0] == 'A' && "AllowHardTerminate"@[5] == 'H');
    reveal_strlit("IdleSettings");
    assert("IdleSettings"@.len() == 12 && "IdleSettings"@[0] == 'I' && "IdleSettings"@[5] == 'e');
    reveal_strlit("RunOnlyIfIdle");
    assert("RunOnlyIfIdle"@.len() == 13 && "RunOnlyIfIdle"@[0] == 'R' && "RunOnlyIfIdle"@[5] == 'l');
    reveal_strlit("NetworkSettings");
    assert("NetworkSettings"@.len() == 15 && "NetworkSettings"@[0] == 'N' && "NetworkSettings"@[5] == 'r');
    reveal_strlit("RunOnlyIfNetworkAvailable");
    assert("RunOnlyIfNetworkAvailable"@.len() == 25 && "RunOnlyIfNetworkAvailable"@[0] == 'R' && "RunOnlyIfNetworkAvailable"@[5] == 'l');
    reveal_strlit("WakeToRun");
    assert("WakeToRun"@.len() == 9 && "WakeToRun"@[0] == 'W' && "WakeToRun"@[5] == 'o');
    reveal_strlit("Enabled");
    assert("Enabled"@.len() == 7 && "Enabled"@[0] == 'E' && "Enabled"@[5] == 'e');
    reveal_strlit("Hidden");
    assert("Hidden"@.len() == 6 && "Hidden"@[0] == 'H' && "Hidden"@[5] == 'n');
    reveal_strlit("DeleteExpiredTaskAfter");
    assert("DeleteExpiredTaskAfter"@.len() == 22 && "DeleteExpiredTaskAfter"@[0] == 'D' && "DeleteExpiredTaskAfter"@[5] == 'e');
    reveal_strlit("ExecutionTimeLimit");
    assert("ExecutionTimeLimit"@.len() == 18 && "ExecutionTimeLimit"@[0] == 'E' && "ExecutionTimeLimit"@[5] == 't');
    reveal_strlit("Priority");
    assert("Priority"@.len() == 8 && "Priority"@[0] == 'P' && "Priority"@[5] == 'i');
    reveal_strlit("UseUnifiedSchedulingEngine");
    assert("UseUnifiedSchedulingEngine"@.len() == 26 && "UseUnifiedSchedulingEngine"@[0] == 'U' && "UseUnifiedSchedulingEngine"@[5] == 'i');
    reveal_strlit("DisallowStartOnRemoteAppSession");
    assert("DisallowStartOnRemoteAppSession"@.len() == 31 && "DisallowStartOnRemoteAppSession"@[0] == 'D' && "DisallowStartOnRemoteAppSession"@[5] == 'l');
    reveal_strlit("MaintenanceSettings");
    assert("MaintenanceSettings"@.len() == 19 && "MaintenanceSettings"@[0] == 'M' && "MaintenanceSettings"@[5] == 'e');
    reveal_strlit("Volatile");
    assert("Volatile"@.len() == 8 && "Volatile"@[0] == 'V' && "Volatile"@[5] == 'i');
    lemma_first_named_empty();
    lemma_first_named_list3(settings_start_flags(s));
    lemma_first_named_list3(settings_middle_flags(s));
    lemma_first_named_list1(settings_idle_flag(s));
    lemma_first_named_list4(settings_end_flags(s));
    lemma_first_named_list2(settings_limits(s));
    lemma_opt_element("DeleteExpiredTaskAfter"@, opt_dur_text(s.delete_expired_after));
    if settings_restart(s).len() == 1 {
        lemma_first_named_list1(settings_restart(s));
    }
    if settings_idle(s).len() == 1 {
        lemma_first_named_list1(settings_idle(s));
    }
    if settings_network(s).len() == 1 {
        lemma_first_named_list1(settings_network(s));
    }
    if settings_unified(s).len() == 1 {
        lemma_first_named_list1(settings_unified(s));
    }
    if settings_remote(s).len() == 1 {
        lemma_first_named_list1(settings_remote(s));
    }
    if settings_maintenance(s).len() == 1 {
        lemma_first_named_list1(settings_maintenance(s));
    }
    if settings_volatile(s).len() == 1 {
        lemma_first_named_list1(settings_volatile(s));
    }
    lemma_settings_child(s, n, "RunOnlyIfIdle"@);
    lemma_bool_child(n, "RunOnlyIfIdle"@, s.idle is Some);
    lemma_settings_child(s, n, "RunOnlyIfNetworkAvailable"@);
    lemma_bool_child(n, "RunOnlyIfNetworkAvailable"@, s.network is Some);
    lemma_settings_child(s, n, "WakeToRun"@);
    lemma_bool_child(n, "WakeToRun"@, s.wake_to_run);
    lemma_settings_child(s, n, "Enabled"@);
    lemma_bool_child(n, "Enabled"@, s.enabled);
    lemma_settings_child(s, n, "Hidden"@);
    lemma_bool_child(n, "Hidden"@, s.hidden);
}

#[verifier::rlimit(100)]
proof fn lemma_settings_newer_flags(s: TaskSettings, n: Node)
    requires
        node_view(n) == written_view(settings_written(s)),
    ensures
        bool_field(n, "UseUnifiedSchedulingEngine"@) == if s.use_unified_scheduling_engine {
            Some(Some(true))
        } else {
            Some(None::<bool>)
        },
        bool_field(n, "DisallowStartOnRemoteAppSession"@) == if s.disallow_start_on_remote_app_session {
            Some(Some(true))
        } else {
            Some(None::<bool>)
        },
        bool_field(n, "Volatile"@) == if s.volatile {
            Some(Some(true))
        } else {
            Some(None::<bool>)
        },
{
    reveal_strlit("AllowStartOnDemand");
    assert("AllowStartOnDemand"@.len() == 18 && "AllowStartOnDemand"@[0] == 'A' && "AllowStartOnDemand"@[5] == 'S');
    reveal_strlit("DisallowStartIfOnBatteries");
    assert("DisallowStartIfOnBatteries"@.len() == 26 && "DisallowStartIfOnBatteries"@[0] == 'D' && "DisallowStartIfOnBatteries"@[5] == 'l');
    reveal_strlit("StopIfGoingOnBatteries");
    assert("StopIfGoingOnBatteries"@.len() == 22 && "StopIfGoingOnBatteries"@[0] == 'S' && "StopIfGoingOnBatteries"@[5] == 'f');
    reveal_strlit("RestartOnFailure");
    assert("RestartOnFailure"@.len() == 16 && "RestartOnFailure"@[0] == 'R' && "RestartOnFailure"@[5] == 'r');
    reveal_strlit("MultipleInstancesPolicy");
    assert("MultipleInstancesPolicy"@.len() == 23 && "MultipleInstancesPolicy"@[0] == 'M' && "MultipleInstancesPolicy"@[5] == 'p');
    reveal_strlit("StartWhenAvailable");
    assert("StartWhenAvailable"@.len() == 18 && "StartWhenAvailable"@[0] == 'S' && "StartWhenAvailable"@[5] == 'W');
    reveal_strlit("AllowHardTerminate");
    assert("AllowHardTerminate"@.len() == 18 && "AllowHardTerminate"@[0] == 'A' && "AllowHardTerminate"@[5] == 'H');
    reveal_strlit("IdleSettings");
    assert("IdleSettings"@.len() == 12 && "IdleSettings"@[0] == 'I' && "IdleSettings"@[5] == 'e');
    reveal_strlit("RunOnlyIfIdle");
    assert("RunOnlyIfIdle"@.len() == 13 && "RunOnlyIfIdle"@[0] == 'R' && "RunOnlyIfIdle"@[5] == 'l');
    reveal_strlit("NetworkSettings");
    assert("NetworkSettings"@.len() == 15 && "NetworkSettings"@[0] == 'N' && "NetworkSettings"@[5] == 'r');
    reveal_strlit("RunOnlyIfNetworkAvailable");
    assert("RunOnlyIfNetworkAvailable"@.len() == 25 && "RunOnlyIfNetworkAvailable"@[0] == 'R' && "RunOnlyIfNetworkAvailable"@[5] == 'l');
    reveal_strlit("WakeToRun");
    assert("WakeToRun"@.len() == 9 && "WakeToRun"@[0] == 'W' && "WakeToRun"@[5] == 'o');
    reveal_strlit("Enabled");
    assert("Enabled"@.len() == 7 && "Enabled"@[0] == 'E' && "Enabled"@[5] == 'e');
    reveal_strlit("Hidden");
    assert("Hidden"@.len() == 6 && "Hidden"@[0] == 'H' && "Hidden"@[5] == 'n');
    reveal_strlit("DeleteExpiredTaskAfter");
    assert("DeleteExpiredTaskAfter"@.len() == 22 && "DeleteExpiredTaskAfter"@[0] == 'D' && "DeleteExpiredTaskAfter"@[5] == 'e');
    reveal_strlit("ExecutionTimeLimit");
    assert("ExecutionTimeLimit"@.len() == 18 && "ExecutionTimeLimit"@[0] == 'E' && "ExecutionTimeLimit"@[5] == 't');
    reveal_strlit("Priority");
    assert("Priority"@.len() == 8 && "Priority"@[0] == 'P' && "Priority"@[5] == 'i');
    reveal_strlit("UseUnifiedSchedulingEngine");
    assert("UseUnifiedSchedulingEngine"@.len() == 26 && "UseUnifiedSchedulingEngine"@[0] == 'U' && "UseUnifiedSchedulingEngine"@[5] == 'i');
    reveal_strlit("DisallowStartOnRemoteAppSession");
    assert("DisallowStartOnRemoteAppSession"@.len() == 31 && "DisallowStartOnRemoteAppSession"@[0] == 'D' && "DisallowStartOnRemoteAppSession"@[5] == 'l');
    reveal_strlit("MaintenanceSettings");
    assert("MaintenanceSettings"@.len() == 19 && "MaintenanceSettings"@[0] == 'M' && "MaintenanceSettings"@[5] == 'e');
    reveal_strlit("Volatile");
    assert("Volatile"@.len() == 8 && "Volatile"@[0] == 'V' && "Volatile"@[5] == 'i');
    lemma_first_named_empty();
    lemma_first_named_list3(settings_start_flags(s));
    lemma_first_named_list3(settings_middle_flags(s));
    lemma_first_named_list1(settings_idle_flag(s));
    lemma_first_named_list4(settings_end_flags(s));
    lemma_first_named_list2(settings_limits(s));
    lemma_opt_element("DeleteExpiredTaskAfter"@, opt_dur_text(s.delete_expired_after));
    if settings_restart(s).len() == 1 {
        lemma_first_named_list1(settings_restart(s));
    }
    if settings_idle(s).len() == 1 {
        lemma_first_named_list1(settings_idle(s));
    }
    if settings_network(s).len() == 1 {
        lemma_first_named_list1(settings_network(s));
    }
    if settings_unified(s).len() == 1 {
        lemma_first_named_list1(settings_unified(s));
    }
    if settings_remote(s).len() == 1 {
        lemma_first_named_list1(settings_remote(s));
    }
    if settings_maintenance(s).len() == 1 {
        lemma_first_named_list1(settings_maintenance(s));
    }
    if settings_volatile(s).len() == 1 {
        lemma_first_named_list1(settings_volatile(s));
    }
    lemma_settings_child(s, n, "UseUnifiedSchedulingEngine"@);
    if s.use_unified_scheduling_engine {
        lemma_bool_child(n, "UseUnifiedSchedulingEngine"@, true);
    }
    lemma_settings_child(s, n, "DisallowStartOnRemoteAppSession"@);
    if s.disallow_start_on_remote_app_session {
        lemma_bool_child(n, "DisallowStartOnRemoteAppSession"@, true);
    }
    lemma_settings_child(s, n, "Volatile"@);
    if s.volatile {
        lemma_bool_child(n, "Volatile"@, true);
    }
}

#[verifier::rlimit(100)]
proof fn lemma_settings_values(s: TaskSettings, n: Node)
    requires
        node_view(n) == written_view(settings_written(s)),
        settings_round_trips(s),
    ensures
        text_of(n, "MultipleInstancesPolicy"@) == Some(instances_text(s.multiple_instances)),
        text_of(n, "ExecutionTimeLimit"@) == Some(limit_text(s.execution_time_limit)),
        number_field(n, "Priority"@, 255) == Some(Some(s.priority as nat)),
        duration_field(n, "DeleteExpiredTaskAfter"@) == Some(duration_view(s.delete_expired_after)),
{
    reveal_strlit("AllowStartOnDemand");
    assert("AllowStartOnDemand"@.len() == 18 && "AllowStartOnDemand"@[0] == 'A' && "AllowStartOnDemand"@[5] == 'S');
    reveal_strlit("DisallowStartIfOnBatteries");
    assert("DisallowStartIfOnBatteries"@.len() == 26 && "DisallowStartIfOnBatteries"@[0] == 'D' && "DisallowStartIfOnBatteries"@[5] == 'l');
    reveal_strlit("StopIfGoingOnBatteries");
    assert("StopIfGoingOnBatteries"@.len() == 22 && "StopIfGoingOnBatteries"@[0] == 'S' && "StopIfGoingOnBatteries"@[5] == 'f');
    reveal_strlit("RestartOnFailure");
    assert("RestartOnFailure"@.len() == 16 && "RestartOnFailure"@[0] == 'R' && "RestartOnFailure"@[5] == 'r');
    reveal_strlit("MultipleInstancesPolicy");
    assert("MultipleInstancesPolicy"@.len() == 23 && "MultipleInstancesPolicy"@[0] == 'M' && "MultipleInstancesPolicy"@[5] == 'p');
    reveal_strlit("StartWhenAvailable");
    assert("StartWhenAvailable"@.len() == 18 && "StartWhenAvailable"@[0] == 'S' && "StartWhenAvailable"@[5] == 'W');
    reveal_strlit("AllowHardTerminate");
    assert("AllowHardTerminate"@.len() == 18 && "AllowHardTerminate"@[0] == 'A' && "AllowHardTerminate"@[5] == 'H');
    reveal_strlit("IdleSettings");
    assert("IdleSettings"@.len() == 12 && "IdleSettings"@[0] == 'I' && "IdleSettings"@[5] == 'e');
    reveal_strlit("RunOnlyIfIdle");
    assert("RunOnlyIfIdle"@.len() == 13 && "RunOnlyIfIdle"@[0] == 'R' && "RunOnlyIfIdle"@[5] == 'l');
    reveal_strlit("NetworkSettings");
    assert("NetworkSettings"@.len() == 15 && "NetworkSettings"@[0] == 'N' && "NetworkSettings"@[5] == 'r');
    reveal_strlit("RunOnlyIfNetworkAvailable");
    assert("RunOnlyIfNetworkAvailable"@.len() == 25 && "RunOnlyIfNetworkAvailable"@[0] == 'R' && "RunOnlyIfNetworkAvailable"@[5] == 'l');
    reveal_strlit("WakeToRun");
    assert("WakeToRun"@.len() == 9 && "WakeToRun"@[0] == 'W' && "WakeToRun"@[5] == 'o');
    reveal_strlit("Enabled");
    assert("Enabled"@.len() == 7 && "Enabled"@[0] == 'E' && "Enabled"@[5] == 'e');
    reveal_strlit("Hidden");
    assert("Hidden"@.len() == 6 && "Hidden"@[0] == 'H' && "Hidden"@[5] == 'n');
    reveal_strlit("DeleteExpiredTaskAfter");
    assert("DeleteExpiredTaskAfter"@.len() == 22 && "DeleteExpiredTaskAfter"@[0] == 'D' && "DeleteExpiredTaskAfter"@[5] == 'e');
    reveal_strlit("ExecutionTimeLimit");
    assert("ExecutionTimeLimit"@.len() == 18 && "ExecutionTimeLimit"@[0] == 'E' && "ExecutionTimeLimit"@[5] == 't');
    reveal_strlit("Priority");
    assert("Priority"@.len() == 8 && "Priority"@[0] == 'P' && "Priority"@[5] == 'i');
    reveal_strlit("UseUnifiedSchedulingEngine");
    assert("UseUnifiedSchedulingEngine"@.len() == 26 && "UseUnifiedSchedulingEngine"@[0] == 'U' && "UseUnifiedSchedulingEngine"@[5] == 'i');
    reveal_strlit("DisallowStartOnRemoteAppSession");
    assert("DisallowStartOnRemoteAppSession"@.len() == 31 && "DisallowStartOnRemoteAppSession"@[0] == 'D' && "DisallowStartOnRemoteAppSession"@[5] == 'l');
    reveal_strlit("MaintenanceSettings");
    assert("MaintenanceSettings"@.len() == 19 && "MaintenanceSettings"@[0] == 'M' && "MaintenanceSettings"@[5] == 'e');
    reveal_strlit("Volatile");
    assert("Volatile"@.len() == 8 && "Volatile"@[0] == 'V' && "Volatile"@[5] == 'i');
    lemma_first_named_empty();
    lemma_first_named_list3(settings_start_flags(s));
    lemma_first_named_list3(settings_middle_flags(s));
    lemma_first_named_list1(settings_idle_flag(s));
    lemma_first_named_list4(settings_end_flags(s));
    lemma_first_named_list2(settings_limits(s));
    lemma_opt_element("DeleteExpiredTaskAfter"@, opt_dur_text(s.delete_expired_after));
    if settings_restart(s).len() == 1 {
        lemma_first_named_list1(settings_restart(s));
    }
    if settings_idle(s).len() == 1 {
        lemma_first_named_list1(settings_idle(s));
    }
    if settings_network(s).len() == 1 {
        lemma_first_named_list1(settings_network(s));
    }
    if settings_unified(s).len() == 1 {
        lemma_first_named_list1(settings_unified(s));
    }
    if settings_remote(s).len() == 1 {
        lemma_first_named_list1(settings_remote(s));
    }
    if settings_maintenance(s).len() == 1 {
        lemma_first_named_list1(settings_maintenance(s));
    }
    if settings_volatile(s).len() == 1 {
        lemma_first_named_list1(settings_volatile(s));
    }
    lemma_settings_child(s, n, "MultipleInstancesPolicy"@);
    lemma_settings_child(s, n, "ExecutionTimeLimit"@);
    lemma_settings_child(s, n, "Priority"@);
    lemma_settings_child(s, n, "DeleteExpiredTaskAfter"@);
    crate::xml_laws::lemma_number_round_trip(s.priority as nat, 255);
    if let Some(x) = s.delete_expired_after {
        x.lemma_round_trip();
    }
}

#[verifier::rlimit(100)]
proof fn lemma_settings_restart(s: TaskSettings, n: Node)
    requires
        node_view(n) == written_view(settings_written(s)),
        settings_round_trips(s),
    ensures
        match child_of(n, "RestartOnFailure"@) {
            Some(c) => s.restart_on_failure matches Some(p) && required_duration_field(c, "Interval"@) == Some(
                p.interval@,
            ) && required_number_field(c, "Count"@, 255) == Some(p.count as nat),
            None => s.restart_on_failure is None,
        },
        match child_of(n, "MaintenanceSettings"@) {
            Some(c) => s.maintenance matches Some(m) && required_duration_field(c, "Period"@) == Some(m.period@)
                && required_duration_field(c, "Deadline"@) == Some(m.deadline@) && bool_field(c, "Exclusive"@)
                == Some(Some(m.exclusive)),
            None => s.maintenance is None,
        },
{
    reveal_strlit("AllowStartOnDemand");
    assert("AllowStartOnDemand"@.len() == 18 && "AllowStartOnDemand"@[0] == 'A' && "AllowStartOnDemand"@[5] == 'S');
    reveal_strlit("DisallowStartIfOnBatteries");
    assert("DisallowStartIfOnBatteries"@.len() == 26 && "DisallowStartIfOnBatteries"@[0] == 'D' && "DisallowStartIfOnBatteries"@[5] == 'l');
    reveal_strlit("StopIfGoingOnBatteries");
    assert("StopIfGoingOnBatteries"@.len() == 22 && "StopIfGoingOnBatteries"@[0] == 'S' && "StopIfGoingOnBatteries"@[5] == 'f');
    reveal_strlit("RestartOnFailure");
    assert("RestartOnFailure"@.len() == 16 && "RestartOnFailure"@[0] == 'R' && "RestartOnFailure"@[5] == 'r');
    reveal_strlit("MultipleInstancesPolicy");
    assert("MultipleInstancesPolicy"@.len() == 23 && "MultipleInstancesPolicy"@[0] == 'M' && "MultipleInstancesPolicy"@[5] == 'p');
    reveal_strlit("StartWhenAvailable");
    assert("StartWhenAvailable"@.len() == 18 && "StartWhenAvailable"@[0] == 'S' && "StartWhenAvailable"@[5] == 'W');
    reveal_strlit("AllowHardTerminate");
    assert("AllowHardTerminate"@.len() == 18 && "AllowHardTerminate"@[0] == 'A' && "AllowHardTerminate"@[5] == 'H');
    reveal_strlit("IdleSettings");
    assert("IdleSettings"@.len() == 12 && "IdleSettings"@[0] == 'I' && "IdleSettings"@[5] == 'e');
    reveal_strlit("RunOnlyIfIdle");
    assert("RunOnlyIfIdle"@.len() == 13 && "RunOnlyIfIdle"@[0] == 'R' && "RunOnlyIfIdle"@[5] == 'l');
    reveal_strlit("NetworkSettings");
    assert("NetworkSettings"@.len() == 15 && "NetworkSettings"@[0] == 'N' && "NetworkSettings"@[5] == 'r');
    reveal_strlit("RunOnlyIfNetworkAvailable");
    assert("RunOnlyIfNetworkAvailable"@.len() == 25 && "RunOnlyIfNetworkAvailable"@[0] == 'R' && "RunOnlyIfNetworkAvailable"@[5] == 'l');
    reveal_strlit("WakeToRun");
    assert("WakeToRun"@.len() == 9 && "WakeToRun"@[0] == 'W' && "WakeToRun"@[5] == 'o');
    reveal_strlit("Enabled");
    assert("Enabled"@.len() == 7 && "Enabled"@[0] == 'E' && "Enabled"@[5] == 'e');
    reveal_strlit("Hidden");
    assert("Hidden"@.len() == 6 && "Hidden"@[0] == 'H' && "Hidden"@[5] == 'n');
    reveal_strlit("DeleteExpiredTaskAfter");
    assert("DeleteExpiredTaskAfter"@.len() == 22 && "DeleteExpiredTaskAfter"@[0] == 'D' && "DeleteExpiredTaskAfter"@[5] == 'e');
    reveal_strlit("ExecutionTimeLimit");
    assert("ExecutionTimeLimit"@.len() == 18 && "ExecutionTimeLimit"@[0] == 'E' && "ExecutionTimeLimit"@[5] == 't');
    reveal_strlit("Priority");
    assert("Priority"@.len() == 8 && "Priority"@[0] == 'P' && "Priority"@[5] == 'i');
    reveal_strlit("UseUnifiedSchedulingEngine");
    assert("UseUnifiedSchedulingEngine"@.len() == 26 && "UseUnifiedSchedulingEngine"@[0] == 'U' && "UseUnifiedSchedulingEngine"@[5] == 'i');
    reveal_strlit("DisallowStartOnRemoteAppSession");
    assert("DisallowStartOnRemoteAppSession"@.len() == 31 && "DisallowStartOnRemoteAppSession"@[0] == 'D' && "DisallowStartOnRemoteAppSession"@[5] == 'l');
    reveal_strlit("MaintenanceSettings");
    assert("MaintenanceSettings"@.len() == 19 && "MaintenanceSettings"@[0] == 'M' && "MaintenanceSettings"@[5] == 'e');
    reveal_strlit("Volatile");
    assert("Volatile"@.len() == 8 && "Volatile"@[0] == 'V' && "Volatile"@[5] == 'i');
    reveal_strlit("Interval");
    assert("Interval"@.len() == 8 && "Interval"@[0] == 'I' && "Interval"@[5] == 'v');
    reveal_strlit("Count");
    assert("Count"@.len() == 5 && "Count"@[0] == 'C');
    reveal_strlit("Period");
    assert("Period"@.len() == 6 && "Period"@[0] == 'P' && "Period"@[5] == 'd');
    reveal_strlit("Deadline");
    assert("Deadline"@.len() == 8 && "Deadline"@[0] == 'D' && "Deadline"@[5] == 'i');
    reveal_strlit("Exclusive");
    assert("Exclusive"@.len() == 9 && "Exclusive"@[0] == 'E' && "Exclusive"@[5] == 's');
    lemma_first_named_empty();
    lemma_first_named_list3(settings_start_flags(s));
    lemma_first_named_list3(settings_middle_flags(s));
    lemma_first_named_list1(settings_idle_flag(s));
    lemma_first_named_list4(settings_end_flags(s));
    lemma_first_named_list2(settings_limits(s));
    lemma_opt_element("DeleteExpiredTaskAfter"@, opt_dur_text(s.delete_expired_after));
    if settings_restart(s).len() == 1 {
        lemma_first_named_list1(settings_restart(s));
    }
    if settings_idle(s).len() == 1 {
        lemma_first_named_list1(settings_idle(s));
    }
    if settings_network(s).len() == 1 {
        lemma_first_named_list1(settings_network(s));
    }
    if settings_unified(s).len() == 1 {
        lemma_first_named_list1(settings_unified(s));
    }
    if settings_remote(s).len() == 1 {
        lemma_first_named_list1(settings_remote(s));
    }
    if settings_maintenance(s).len() == 1 {
        lemma_first_named_list1(settings_maintenance(s));
    }
    if settings_volatile(s).len() == 1 {
        lemma_first_named_list1(settings_volatile(s));
    }
    lemma_settings_child(s, n, "RestartOnFailure"@);
    lemma_settings_child(s, n, "MaintenanceSettings"@);
    if let Some(r) = s.restart_on_failure {
        let w = settings_restart(s)[0];
        let c = child_of(n, "RestartOnFailure"@)->0;
        lemma_first_named_list2(w.children);
        lemma_child_of_written(c, w, "Interval"@);
        lemma_child_of_written(c, w, "Count"@);
        r.interval.lemma_round_trip();
        crate::xml_laws::lemma_number_round_trip(r.count as nat, 255);
    }
    if let Some(m) = s.maintenance {
        let w = settings_maintenance(s)[0];
        let c = child_of(n, "MaintenanceSettings"@)->0;
        lemma_first_named_list3(w.children);
        lemma_child_of_written(c, w, "Period"@);
        lemma_child_of_written(c, w, "Deadline"@);
        lemma_child_of_written(c, w, "Exclusive"@);
        m.period.lemma_round_trip();
        m.deadline.lemma_round_trip();
        crate::xml_laws::lemma_bool_round_trip(m.exclusive);
    }
}

#[verifier::rlimit(100)]
proof fn lemma_settings_conditions(s: TaskSettings, n: Node)
    requires
        node_view(n) == written_view(settings_written(s)),
        settings_round_trips(s),
    ensures
        match s.idle {
            Some(i) => child_of(n, "IdleSettings"@) matches Some(c) && duration_field(c, "Duration"@) == Some(
                Some(i.duration@),
            ) && duration_field(c, "WaitTimeout"@) == Some(Some(i.wait_timeout@)) && bool_field(c, "StopOnIdleEnd"@)
                == Some(Some(i.stop_on_idle_end)) && bool_field(c, "RestartOnIdle"@) == Some(Some(i.restart_on_idle)),
            None => child_of(n, "IdleSettings"@) is None,
        },
        match s.network {
            Some(w) => child_of(n, "NetworkSettings"@) matches Some(c) && text_of(c, "Id"@) == opt_view(w.id)
                && text_of(c, "Name"@) == opt_view(w.name),
            None => child_of(n, "NetworkSettings"@) is None,
        },
{
    reveal_strlit("AllowStartOnDemand");
    assert("AllowStartOnDemand"@.len() == 18 && "AllowStartOnDemand"@[0] == 'A' && "AllowStartOnDemand"@[5] == 'S');
    reveal_strlit("DisallowStartIfOnBatteries");
    assert("DisallowStartIfOnBatteries"@.len() == 26 && "DisallowStartIfOnBatteries"@[0] == 'D' && "DisallowStartIfOnBatteries"@[5] == 'l');
    reveal_strlit("StopIfGoingOnBatteries");
    assert("StopIfGoingOnBatteries"@.len() == 22 && "StopIfGoingOnBatteries"@[0] == 'S' && "StopIfGoingOnBatteries"@[5] == 'f');
    reveal_strlit("RestartOnFailure");
    assert("RestartOnFailure"@.len() == 16 && "RestartOnFailure"@[0] == 'R' && "RestartOnFailure"@[5] == 'r');
    reveal_strlit("MultipleInstancesPolicy");
    assert("MultipleInstancesPolicy"@.len() == 23 && "MultipleInstancesPolicy"@[0] == 'M' && "MultipleInstancesPolicy"@[5] == 'p');
    reveal_strlit("StartWhenAvailable");
    assert("StartWhenAvailable"@.len() == 18 && "StartWhenAvailable"@[0] == 'S' && "StartWhenAvailable"@[5] == 'W');
    reveal_strlit("AllowHardTerminate");
    assert("AllowHardTerminate"@.len() == 18 && "AllowHardTerminate"@[0] == 'A' && "AllowHardTerminate"@[5] == 'H');
    reveal_strlit("IdleSettings");
    assert("IdleSettings"@.len() == 12 && "IdleSettings"@[0] == 'I' && "IdleSettings"@[5] == 'e');
    reveal_strlit("RunOnlyIfIdle");
    assert("RunOnlyIfIdle"@.len() == 13 && "RunOnlyIfIdle"@[0] == 'R' && "RunOnlyIfIdle"@[5] == 'l');
    reveal_strlit("NetworkSettings");
    assert("NetworkSettings"@.len() == 15 && "NetworkSettings"@[0] == 'N' && "NetworkSettings"@[5] == 'r');
    reveal_strlit("RunOnlyIfNetworkAvailable");
    assert("RunOnlyIfNetworkAvailable"@.len() == 25 && "RunOnlyIfNetworkAvailable"@[0] == 'R' && "RunOnlyIfNetworkAvailable"@[5] == 'l');
    reveal_strlit("WakeToRun");
    assert("WakeToRun"@.len() == 9 && "WakeToRun"@[0] == 'W' && "WakeToRun"@[5] == 'o');
    reveal_strlit("Enabled");
    assert("Enabled"@.len() == 7 && "Enabled"@[0] == 'E' && "Enabled"@[5] == 'e');
    reveal_strlit("Hidden");
    assert("Hidden"@.len() == 6 && "Hidden"@[0] == 'H' && "Hidden"@[5] == 'n');
    reveal_strlit("DeleteExpiredTaskAfter");
    assert("DeleteExpiredTaskAfter"@.len() == 22 && "DeleteExpiredTaskAfter"@[0] == 'D' && "DeleteExpiredTaskAfter"@[5] == 'e');
    reveal_strlit("ExecutionTimeLimit");
    assert("ExecutionTimeLimit"@.len() == 18 && "ExecutionTimeLimit"@[0] == 'E' && "ExecutionTimeLimit"@[5] == 't');
    reveal_strlit("Priority");
    assert("Priority"@.len() == 8 && "Priority"@[0] == 'P' && "Priority"@[5] == 'i');
    reveal_strlit("UseUnifiedSchedulingEngine");
    assert("UseUnifiedSchedulingEngine"@.len() == 26 && "UseUnifiedSchedulingEngine"@[0] == 'U' && "UseUnifiedSchedulingEngine"@[5] == 'i');
    reveal_strlit("DisallowStartOnRemoteAppSession");
    assert("DisallowStartOnRemoteAppSession"@.len() == 31 && "DisallowStartOnRemoteAppSession"@[0] == 'D' && "DisallowStartOnRemoteAppSession"@[5] == 'l');
    reveal_strlit("MaintenanceSettings");
    assert("MaintenanceSettings"@.len() == 19 && "MaintenanceSettings"@[0] == 'M' && "MaintenanceSettings"@[5] == 'e');
    reveal_strlit("Volatile");
    assert("Volatile"@.len() == 8 && "Volatile"@[0] == 'V' && "Volatile"@[5] == 'i');
    reveal_strlit("Duration");
    assert("Duration"@.len() == 8 && "Duration"@[0] == 'D' && "Duration"@[5] == 'i');
    reveal_strlit("WaitTimeout");
    assert("WaitTimeout"@.len() == 11 && "WaitTimeout"@[0] == 'W' && "WaitTimeout"@[5] == 'i');
    reveal_strlit("StopOnIdleEnd");
    assert("StopOnIdleEnd"@.len() == 13 && "StopOnIdleEnd"@[0] == 'S' && "StopOnIdleEnd"@[5] == 'n');
    reveal_strlit("RestartOnIdle");
    assert("RestartOnIdle"@.len() == 13 && "RestartOnIdle"@[0] == 'R' && "RestartOnIdle"@[5] == 'r');
    reveal_strlit("Name");
    assert("Name"@.len() == 4 && "Name"@[0] == 'N');
    reveal_strlit("Id");
    assert("Id"@.len() == 2 && "Id"@[0] == 'I');
    lemma_first_named_empty();
    lemma_first_named_list3(settings_start_flags(s));
    lemma_first_named_list3(settings_middle_flags(s));
    lemma_first_named_list1(settings_idle_flag(s));
    lemma_first_named_list4(settings_end_flags(s));
    lemma_first_named_list2(settings_limits(s));
    lemma_opt_element("DeleteExpiredTaskAfter"@, opt_dur_text(s.delete_expired_after));
    if settings_restart(s).len() == 1 {
        lemma_first_named_list1(settings_restart(s));
    }
    if settings_idle(s).len() == 1 {
        lemma_first_named_list1(settings_idle(s));
    }
    if settings_network(s).len() == 1 {
        lemma_first_named_list1(settings_network(s));
    }
    if settings_unified(s).len() == 1 {
        lemma_first_named_list1(settings_unified(s));
    }
    if settings_remote(s).len() == 1 {
        lemma_first_named_list1(settings_remote(s));
    }
    if settings_maintenance(s).len() == 1 {
        lemma_first_named_list1(settings_maintenance(s));
    }
    if settings_volatile(s).len() == 1 {
        lemma_first_named_list1(settings_volatile(s));
    }
    lemma_settings_child(s, n, "IdleSettings"@);
    lemma_settings_child(s, n, "NetworkSettings"@);
    if let Some(i) = s.idle {
        let w = settings_idle(s)[0];
        let c = child_of(n, "IdleSettings"@)->0;
        lemma_first_named_list4(w.children);
        lemma_child_of_written(c, w, "Duration"@);
        lemma_child_of_written(c, w, "WaitTimeout"@);
        lemma_child_of_written(c, w, "StopOnIdleEnd"@);
        lemma_child_of_written(c, w, "RestartOnIdle"@);
        i.duration.lemma_round_trip();
        i.wait_timeout.lemma_round_trip();
        crate::xml_laws::lemma_bool_round_trip(i.stop_on_idle_end);
        crate::xml_laws::lemma_bool_round_trip(i.restart_on_idle);
    }
    if let Some(net) = s.network {
        let w = settings_network(s)[0];
        let c = child_of(n, "NetworkSettings"@)->0;
        lemma_opt_element("Name"@, opt_view(net.name));
        lemma_opt_element("Id"@, opt_view(net.id));
        lemma_first_named_concat(opt_element("Name"@, opt_view(net.name)), opt_element("Id"@, opt_view(net.id)));
        lemma_child_of_written(c, w, "Id"@);
        lemma_child_of_written(c, w, "Name"@);
    }
}

/// Writing settings and reading them back: without extensions under
/// `Settings` the element written is the markup of `settings_written`, and
/// every element tree with that element's values reads back as the same
/// settings, without fault, when their durations are well formed and a
/// finite execution limit is not zero.
#[verifier::rlimit(60)]
pub proof fn lemma_settings_round_trip(d: TaskDefinition, n: Node)
    requires
        !has_extensions(d, "Task/Settings"@),
        settings_round_trips(d.settings),
        node_view(n) == written_view(settings_written(d.settings)),
    ensures
        settings_markup(d) == written_markup(settings_written(d.settings)),
        !settings_fault(n),
        settings_read(n, d.settings),
{
    let s = d.settings;
    lemma_settings_write(d);
    lemma_settings_flags(s, n);
    lemma_settings_idle_flags(s, n);
    lemma_settings_newer_flags(s, n);
    lemma_settings_values(s, n);
    lemma_settings_restart(s, n);
    lemma_settings_conditions(s, n);
    crate::xml_laws::lemma_principal_names_round_trip(
        s.multiple_instances,
        crate::model::principal::RunLevel::LeastPrivilege,
        ProcessTokenSidType::Default,
        LogonType::Unspecified,
    );
    crate::xml_laws::lemma_limit_round_trip(s.execution_time_limit);
}

// ---------------------------------------------------------------------------
// Actions
// ---------------------------------------------------------------------------

/// The children written for a command action.
pub open spec fn exec_elements(e: ExecAction) -> Seq<WrittenElement> {
    seq![text_element("Command"@, e.command@)] + opt_element("Arguments"@, opt_view(e.arguments)) + opt_element(
        "WorkingDirectory"@,
        opt_view(e.working_directory),
    ) + if e.hide_window {
        seq![bool_element("HideAppWindow"@, true)]
    } else {
        Seq::empty()
    }
}

/// The children written for a message action.
pub open spec fn message_elements(m: ShowMessageAction) -> Seq<WrittenElement> {
    opt_element("Title"@, opt_view(m.title)) + seq![text_element("Body"@, m.body@)]
}

/// The `HeaderField` element written for an email header.
pub open spec fn header_element(h: EmailHeader) -> WrittenElement {
    parent_element("HeaderField"@, seq![text_element("Name"@, h.name@), text_element("Value"@, h.value@)])
}

/// The `HeaderFields` element, when there are headers.
pub open spec fn headers_elements(m: EmailAction) -> Seq<WrittenElement> {
    if m.headers@.len() == 0 {
        Seq::empty()
    } else {
        seq![parent_element("HeaderFields"@, m.headers@.map_values(|h: EmailHeader| header_element(h)))]
    }
}

/// The `Attachments` element, when there are attachments.
pub open spec fn attachments_elements(m: EmailAction) -> Seq<WrittenElement> {
    if m.attachments@.len() == 0 {
        Seq::empty()
    } else {
        seq![parent_element("Attachments"@, m.attachments@.map_values(|f: String| text_element("File"@, f@)))]
    }
}

/// The first children written for an email action: server, subject and
/// addresses.
pub open spec fn email_head_elements(m: EmailAction) -> Seq<WrittenElement> {
    seq![text_element("Server"@, m.server@)] + opt_element("Subject"@, opt_view(m.subject)) + opt_element(
        "To"@,
        opt_view(m.to),
    ) + opt_element("Cc"@, opt_view(m.cc)) + opt_element("Bcc"@, opt_view(m.bcc)) + opt_element(
        "ReplyTo"@,
        opt_view(m.reply_to),
    ) + opt_element("From"@, opt_view(m.from))
}

/// The children written for an email action.
pub open spec fn email_elements(m: EmailAction) -> Seq<WrittenElement> {
    email_head_elements(m) + headers_elements(m) + opt_element("Body"@, opt_view(m.body)) + attachments_elements(m)
}

/// An action element with its optional `id`.
pub open spec fn action_element(name: Seq<char>, id: Option<String>, children: Seq<WrittenElement>) -> WrittenElement {
    WrittenElement {
        name,
        attributes: attribute_list(id_attribute(id)),
        text: Seq::empty(),
        children,
        self_closing: false,
    }
}

/// The element written for an action of a known kind; an action of an
/// unknown kind is written as the markup it was read with, which this form
/// does not hold, and stands here as an empty element of its kind.
pub open spec fn action_written(a: Action) -> WrittenElement {
    match a {
        Action::Exec(e) => action_element("Exec"@, e.id, exec_elements(e)),
        Action::ComHandler(c) => action_element(
            "ComHandler"@,
            c.id,
            seq![text_element("ClassId"@, crate::manifest::uuid_text(c.class_id as nat))] + opt_element(
                "Data"@,
                opt_view(c.data),
            ),
        ),
        Action::Email(m) => action_element("SendEmail"@, m.id, email_elements(m)),
        Action::ShowMessage(m) => action_element("ShowMessage"@, m.id, message_elements(m)),
        Action::Unknown(u) => parent_element(u.kind@, Seq::empty()),
    }
}

/// The `Actions` element written for a definition.
pub open spec fn actions_written(d: TaskDefinition) -> WrittenElement {
    WrittenElement {
        name: "Actions"@,
        attributes: seq![("Context"@, d.principal.id@)],
        text: Seq::empty(),
        children: d.actions@.map_values(|a: Action| action_written(a)),
        self_closing: false,
    }
}

/// Whether an action reads back as written: a command, email or message
/// action. The class of a COM handler is read through the outside UUID
/// parser, of which nothing here states that it inverts the text written,
/// and an action of an unknown kind is written as its own markup.
pub open spec fn action_round_trips(a: Action) -> bool {
    a is Exec || a is Email || a is ShowMessage
}

proof fn lemma_action_element_markup(name: Seq<char>, id: Option<String>, children: Seq<WrittenElement>)
    ensures
        container_markup(name, id_attribute(id), Seq::empty(), markups(children)) == written_markup(
            action_element(name, id, children),
        ),
{
    lemma_element_markup(action_element(name, id, children), id_attribute(id), markups(children));
}

proof fn lemma_email_write(m: EmailAction)
    ensures
        markups(email_elements(m)) == seq![crate::xml_write::element_markup("Server"@, m.server@)] + opt_markup(
            "Subject"@,
            opt_view(m.subject),
        ) + opt_markup("To"@, opt_view(m.to)) + opt_markup("Cc"@, opt_view(m.cc)) + opt_markup(
            "Bcc"@,
            opt_view(m.bcc),
        ) + opt_markup("ReplyTo"@, opt_view(m.reply_to)) + opt_markup("From"@, opt_view(m.from))
            + headers_markup(m) + opt_markup("Body"@, opt_view(m.body)) + attachments_markup(m),
{
    let e1 = seq![text_element("Server"@, m.server@)];
    lemma_text_element("Server"@, m.server@);
    assert(markups(e1) =~= seq![crate::xml_write::element_markup("Server"@, m.server@)]);
    lemma_opt_element("Subject"@, opt_view(m.subject));
    lemma_opt_element("To"@, opt_view(m.to));
    lemma_opt_element("Cc"@, opt_view(m.cc));
    lemma_opt_element("Bcc"@, opt_view(m.bcc));
    lemma_opt_element("ReplyTo"@, opt_view(m.reply_to));
    lemma_opt_element("From"@, opt_view(m.from));
    lemma_opt_element("Body"@, opt_view(m.body));
    let e2 = opt_element("Subject"@, opt_view(m.subject));
    let e3 = opt_element("To"@, opt_view(m.to));
    let e4 = opt_element("Cc"@, opt_view(m.cc));
    let e5 = opt_element("Bcc"@, opt_view(m.bcc));
    let e6 = opt_element("ReplyTo"@, opt_view(m.reply_to));
    let e7 = opt_element("From"@, opt_view(m.from));
    let e8 = headers_elements(m);
    let e9 = opt_element("Body"@, opt_view(m.body));
    let e10 = attachments_elements(m);
    if m.headers@.len() > 0 {
        let hs = m.headers@.map_values(|h: EmailHeader| header_element(h));
        let written = m.headers@.map_values(
            |h: EmailHeader|
                container_markup(
                    "HeaderField"@,
                    None,
                    Seq::empty(),
                    seq![
                        crate::xml_write::element_markup("Name"@, h.name@),
                        crate::xml_write::element_markup("Value"@, h.value@),
                    ],
                ),
        );
        assert forall|i: int| 0 <= i < written.len() implies #[trigger] written[i] == markups(hs)[i] by {
            let h = m.headers@[i];
            let inner = seq![text_element("Name"@, h.name@), text_element("Value"@, h.value@)];
            lemma_text_element("Name"@, h.name@);
            lemma_text_element("Value"@, h.value@);
            lemma_texts_markups(inner, seq![
                crate::xml_write::element_markup("Name"@, h.name@),
                crate::xml_write::element_markup("Value"@, h.value@),
            ]);
            lemma_parent_markup("HeaderField"@, inner, markups(inner));
        }
        assert(written =~= markups(hs));
        lemma_parent_markup("HeaderFields"@, hs, written);
        assert(headers_markup(m) =~= markups(e8));
    } else {
        assert(headers_markup(m) =~= markups(e8));
    }
    if m.attachments@.len() > 0 {
        let fs = m.attachments@.map_values(|f: String| text_element("File"@, f@));
        let written = m.attachments@.map_values(|f: String| crate::xml_write::element_markup("File"@, f@));
        assert forall|i: int| 0 <= i < written.len() implies #[trigger] written[i] == markups(fs)[i] by {
            lemma_text_element("File"@, m.attachments@[i]@);
        }
        assert(written =~= markups(fs));
        lemma_parent_markup("Attachments"@, fs, written);
        assert(attachments_markup(m) =~= markups(e10));
    } else {
        assert(attachments_markup(m) =~= markups(e10));
    }
    lemma_markups_concat(e1, e2);
    lemma_markups_concat(e1 + e2, e3);
    lemma_markups_concat(e1 + e2 + e3, e4);
    lemma_markups_concat(e1 + e2 + e3 + e4, e5);
    lemma_markups_concat(e1 + e2 + e3 + e4 + e5, e6);
    lemma_markups_concat(e1 + e2 + e3 + e4 + e5 + e6, e7);
    lemma_markups_concat(e1 + e2 + e3 + e4 + e5 + e6 + e7, e8);
    lemma_markups_concat(e1 + e2 + e3 + e4 + e5 + e6 + e7 + e8, e9);
    lemma_markups_concat(e1 + e2 + e3 + e4 + e5 + e6 + e7 + e8 + e9, e10);
    assert(email_elements(m) == e1 + e2 + e3 + e4 + e5 + e6 + e7 + e8 + e9 + e10);
}

proof fn lemma_action_write(a: Action)
    requires
        !(a is Unknown),
    ensures
        action_markup(a) == written_markup(action_written(a)),
{
    match a {
        Action::Exec(e) => {
            let e1 = seq![text_element("Command"@, e.command@)];
            let e2 = opt_element("Arguments"@, opt_view(e.arguments));
            let e3 = opt_element("WorkingDirectory"@, opt_view(e.working_directory));
            let e4 = if e.hide_window {
                seq![bool_element("HideAppWindow"@, true)]
            } else {
                Seq::<WrittenElement>::empty()
            };
            lemma_text_element("Command"@, e.command@);
            assert(markups(e1) =~= seq![crate::xml_write::element_markup("Command"@, e.command@)]);
            lemma_opt_element("Arguments"@, opt_view(e.arguments));
            lemma_opt_element("WorkingDirectory"@, opt_view(e.working_directory));
            lemma_text_element("HideAppWindow"@, bool_markup_text(true));
            assert(markups(e4) =~= if e.hide_window {
                seq![bool_markup("HideAppWindow"@, true)]
            } else {
                Seq::<Seq<char>>::empty()
            });
            lemma_markups_concat(e1, e2);
            lemma_markups_concat(e1 + e2, e3);
            lemma_markups_concat(e1 + e2 + e3, e4);
            assert(exec_elements(e) == e1 + e2 + e3 + e4);
            lemma_action_element_markup("Exec"@, e.id, exec_elements(e));
        },
        Action::ComHandler(c) => {
            let e1 = seq![text_element("ClassId"@, crate::manifest::uuid_text(c.class_id as nat))];
            let e2 = opt_element("Data"@, opt_view(c.data));
            lemma_text_element("ClassId"@, crate::manifest::uuid_text(c.class_id as nat));
            assert(markups(e1) =~= seq![
                crate::xml_write::element_markup("ClassId"@, crate::manifest::uuid_text(c.class_id as nat)),
            ]);
            lemma_opt_element("Data"@, opt_view(c.data));
            lemma_markups_concat(e1, e2);
            lemma_action_element_markup("ComHandler"@, c.id, e1 + e2);
        },
        Action::Email(m) => {
            lemma_email_write(m);
            lemma_action_element_markup("SendEmail"@, m.id, email_elements(m));
        },
        Action::ShowMessage(m) => {
            let e1 = opt_element("Title"@, opt_view(m.title));
            let e2 = seq![text_element("Body"@, m.body@)];
            lemma_opt_element("Title"@, opt_view(m.title));
            lemma_text_element("Body"@, m.body@);
            assert(markups(e2) =~= seq![crate::xml_write::element_markup("Body"@, m.body@)]);
            lemma_markups_concat(e1, e2);
            lemma_action_element_markup("ShowMessage"@, m.id, message_elements(m));
        },
        Action::Unknown(_) => {},
    }
}

proof fn lemma_actions_write(d: TaskDefinition)
    requires
        forall|i: int| 0 <= i < d.actions@.len() ==> !((#[trigger] d.actions@[i]) is Unknown),
    ensures
        actions_markup(d) == written_markup(actions_written(d)),
{
    let w = actions_written(d);
    let written = d.actions@.map_values(|a: Action| action_markup(a));
    assert forall|i: int| 0 <= i < written.len() implies #[trigger] written[i] == markups(w.children)[i] by {
        lemma_action_write(d.actions@[i]);
    }
    assert(written =~= markups(w.children));
    assert(attribute_list(Some(("Context"@, d.principal.id@))) =~= w.attributes);
    lemma_element_markup(w, Some(("Context"@, d.principal.id@)), written);
}

proof fn lemma_attr_from_present(attributes: Seq<(String, String)>, key: Seq<char>, from: int)
    requires
        0 <= from,
    ensures
        attr_from(attributes, key, from) is Some ==> exists|i: int| 0 <= i < attributes.len() && attributes[i].0@ == key,
    decreases attributes.len() - from,
{
    if from < attributes.len() {
        lemma_attr_from_present(attributes, key, from + 1);
    }
}

/// The `id` of a node whose attributes are those of an optional `id`.
proof fn lemma_id_attribute(n: Node, id: Option<String>)
    requires
        node_view(n).attributes == attribute_values(attribute_list(id_attribute(id))),
        attributes_distinct(n),
    ensures
        attr_of(n, "id"@) == opt_view(id),
{
    lemma_local_id();
    assert(attribute_values(Seq::<(Seq<char>, Seq<char>)>::empty()) == Map::<Seq<char>, Seq<char>>::empty());
    match id {
        Some(v) => {
            assert(attribute_list(id_attribute(id)).drop_last() =~= Seq::<(Seq<char>, Seq<char>)>::empty());
            assert(node_view(n).attributes == Map::<Seq<char>, Seq<char>>::empty().insert("id"@, v@));
            lemma_attr_of_view(n, "id"@);
        },
        None => {
            assert(attribute_list(id_attribute(id)) =~= Seq::<(Seq<char>, Seq<char>)>::empty());
            lemma_attr_from_present(n.attributes@, "id"@, 0);
            if attr_of(n, "id"@) is Some {
                let i = choose|i: int| 0 <= i < n.attributes@.len() && n.attributes@[i].0@ == "id"@;
                let f = crate::history::fields_view(n.attributes@);
                assert(f[i].0 == "id"@);
                assert(node_view(n).attributes.dom().contains("id"@));
            }
        },
    }
}

#[verifier::rlimit(60)]
proof fn lemma_exec_read(e: ExecAction, a: Node)
    requires
        node_view(a) == written_view(action_written(Action::Exec(e))),
        attributes_distinct(a),
    ensures
        !action_fault(a),
        action_read(a, Action::Exec(e)),
{
    reveal_strlit("Exec");
    assert("Exec"@.len() == 4 && "Exec"@[0] == 'E');
    reveal_strlit("ComHandler");
    assert("ComHandler"@.len() == 10 && "ComHandler"@[0] == 'C' && "ComHandler"@[5] == 'n');
    reveal_strlit("SendEmail");
    assert("SendEmail"@.len() == 9 && "SendEmail"@[0] == 'S' && "SendEmail"@[5] == 'm');
    reveal_strlit("ShowMessage");
    assert("ShowMessage"@.len() == 11 && "ShowMessage"@[0] == 'S' && "ShowMessage"@[5] == 'e');
    reveal_strlit("Command");
    assert("Command"@.len() == 7 && "Command"@[0] == 'C' && "Command"@[5] == 'n');
    reveal_strlit("Arguments");
    assert("Arguments"@.len() == 9 && "Arguments"@[0] == 'A' && "Arguments"@[5] == 'e');
    reveal_strlit("WorkingDirectory");
    assert("WorkingDirectory"@.len() == 16 && "WorkingDirectory"@[0] == 'W' && "WorkingDirectory"@[5] == 'n');
    reveal_strlit("HideAppWindow");
    assert("HideAppWindow"@.len() == 13 && "HideAppWindow"@[0] == 'H' && "HideAppWindow"@[5] == 'p');
    let w = action_written(Action::Exec(e));
    let e1 = seq![text_element("Command"@, e.command@)];
    let e2 = opt_element("Arguments"@, opt_view(e.arguments));
    let e3 = opt_element("WorkingDirectory"@, opt_view(e.working_directory));
    let e4 = if e.hide_window {
        seq![bool_element("HideAppWindow"@, true)]
    } else {
        Seq::<WrittenElement>::empty()
    };
    lemma_first_named_empty();
    lemma_first_named_list1(e1);
    lemma_opt_element("Arguments"@, opt_view(e.arguments));
    lemma_opt_element("WorkingDirectory"@, opt_view(e.working_directory));
    if e.hide_window {
        lemma_first_named_list1(e4);
    }
    lemma_first_named_concat(e1, e2);
    lemma_first_named_concat(e1 + e2, e3);
    lemma_first_named_concat(e1 + e2 + e3, e4);
    assert(w.children == e1 + e2 + e3 + e4);
    lemma_child_of_written(a, w, "Command"@);
    lemma_child_of_written(a, w, "Arguments"@);
    lemma_child_of_written(a, w, "WorkingDirectory"@);
    lemma_child_of_written(a, w, "HideAppWindow"@);
    crate::xml_laws::lemma_bool_round_trip(true);
    lemma_id_attribute(a, e.id);
}

#[verifier::rlimit(60)]
proof fn lemma_message_read(m: ShowMessageAction, a: Node)
    requires
        node_view(a) == written_view(action_written(Action::ShowMessage(m))),
        attributes_distinct(a),
    ensures
        !action_fault(a),
        action_read(a, Action::ShowMessage(m)),
{
    reveal_strlit("Exec");
    assert("Exec"@.len() == 4 && "Exec"@[0] == 'E');
    reveal_strlit("ComHandler");
    assert("ComHandler"@.len() == 10 && "ComHandler"@[0] == 'C' && "ComHandler"@[5] == 'n');
    reveal_strlit("SendEmail");
    assert("SendEmail"@.len() == 9 && "SendEmail"@[0] == 'S' && "SendEmail"@[5] == 'm');
    reveal_strlit("ShowMessage");
    assert("ShowMessage"@.len() == 11 && "ShowMessage"@[0] == 'S' && "ShowMessage"@[5] == 'e');
    reveal_strlit("Title");
    assert("Title"@.len() == 5 && "Title"@[0] == 'T');
    reveal_strlit("Body");
    assert("Body"@.len() == 4 && "Body"@[0] == 'B');
    let w = action_written(Action::ShowMessage(m));
    let e1 = opt_element("Title"@, opt_view(m.title));
    let e2 = seq![text_element("Body"@, m.body@)];
    lemma_first_named_empty();
    lemma_opt_element("Title"@, opt_view(m.title));
    lemma_first_named_list1(e2);
    lemma_first_named_concat(e1, e2);
    lemma_child_of_written(a, w, "Title"@);
    lemma_child_of_written(a, w, "Body"@);
    lemma_id_attribute(a, m.id);
}

#[verifier::rlimit(100)]
proof fn lemma_email_children(m: EmailAction, a: Node)
    requires
        node_view(a) == written_view(action_written(Action::Email(m))),
    ensures
        text_of(a, "Server"@) == Some(m.server@),
        text_of(a, "Subject"@) == opt_view(m.subject),
        text_of(a, "To"@) == opt_view(m.to),
        text_of(a, "Cc"@) == opt_view(m.cc),
        text_of(a, "Bcc"@) == opt_view(m.bcc),
        text_of(a, "ReplyTo"@) == opt_view(m.reply_to),
        text_of(a, "From"@) == opt_view(m.from),
        text_of(a, "Body"@) == opt_view(m.body),
        match first_named(headers_elements(m), "HeaderFields"@) {
            Some(x) => child_of(a, "HeaderFields"@) matches Some(c) && node_view(c) == written_view(x),
            None => child_of(a, "HeaderFields"@) is None,
        },
        match first_named(attachments_elements(m), "Attachments"@) {
            Some(x) => child_of(a, "Attachments"@) matches Some(c) && node_view(c) == written_view(x),
            None => child_of(a, "Attachments"@) is None,
        },
{
    reveal_strlit("Server");
    assert("Server"@.len() == 6 && "Server"@[0] == 'S' && "Server"@[5] == 'r');
    reveal_strlit("Subject");
    assert("Subject"@.len() == 7 && "Subject"@[0] == 'S' && "Subject"@[5] == 'c');
    reveal_strlit("To");
    assert("To"@.len() == 2 && "To"@[0] == 'T');
    reveal_strlit("Cc");
    assert("Cc"@.len() == 2 && "Cc"@[0] == 'C');
    reveal_strlit("Bcc");
    assert("Bcc"@.len() == 3 && "Bcc"@[0] == 'B');
    reveal_strlit("ReplyTo");
    assert("ReplyTo"@.len() == 7 && "ReplyTo"@[0] == 'R' && "ReplyTo"@[5] == 'T');
    reveal_strlit("From");
    assert("From"@.len() == 4 && "From"@[0] == 'F');
    reveal_strlit("HeaderFields");
    assert("HeaderFields"@.len() == 12 && "HeaderFields"@[0] == 'H' && "HeaderFields"@[5] == 'r');
    reveal_strlit("Body");
    assert("Body"@.len() == 4 && "Body"@[0] == 'B');
    reveal_strlit("Attachments");
    assert("Attachments"@.len() == 11 && "Attachments"@[0] == 'A' && "Attachments"@[5] == 'h');
    let w = action_written(Action::Email(m));
    let e1 = seq![text_element("Server"@, m.server@)];
    let e2 = opt_element("Subject"@, opt_view(m.subject));
    let e3 = opt_element("To"@, opt_view(m.to));
    let e4 = opt_element("Cc"@, opt_view(m.cc));
    let e5 = opt_element("Bcc"@, opt_view(m.bcc));
    let e6 = opt_element("ReplyTo"@, opt_view(m.reply_to));
    let e7 = opt_element("From"@, opt_view(m.from));
    let e8 = headers_elements(m);
    let e9 = opt_element("Body"@, opt_view(m.body));
    let e10 = attachments_elements(m);
    lemma_first_named_empty();
    lemma_first_named_list1(e1);
    lemma_opt_element("Subject"@, opt_view(m.subject));
    lemma_opt_element("To"@, opt_view(m.to));
    lemma_opt_element("Cc"@, opt_view(m.cc));
    lemma_opt_element("Bcc"@, opt_view(m.bcc));
    lemma_opt_element("ReplyTo"@, opt_view(m.reply_to));
    lemma_opt_element("From"@, opt_view(m.from));
    lemma_opt_element("Body"@, opt_view(m.body));
    if e8.len() == 1 {
        lemma_first_named_list1(e8);
    }
    if e10.len() == 1 {
        lemma_first_named_list1(e10);
    }
    lemma_first_named_concat(e1, e2);
    lemma_first_named_concat(e1 + e2, e3);
    lemma_first_named_concat(e1 + e2 + e3, e4);
    lemma_first_named_concat(e1 + e2 + e3 + e4, e5);
    lemma_first_named_concat(e1 + e2 + e3 + e4 + e5, e6);
    lemma_first_named_concat(e1 + e2 + e3 + e4 + e5 + e6, e7);
    lemma_first_named_concat(e1 + e2 + e3 + e4 + e5 + e6 + e7, e8);
    lemma_first_named_concat(e1 + e2 + e3 + e4 + e5 + e6 + e7 + e8, e9);
    lemma_first_named_concat(e1 + e2 + e3 + e4 + e5 + e6 + e7 + e8 + e9, e10);
    assert(w.children == e1 + e2 + e3 + e4 + e5 + e6 + e7 + e8 + e9 + e10);
    lemma_child_of_written(a, w, "Server"@);
    lemma_child_of_written(a, w, "Subject"@);
    lemma_child_of_written(a, w, "To"@);
    lemma_child_of_written(a, w, "Cc"@);
    lemma_child_of_written(a, w, "Bcc"@);
    lemma_child_of_written(a, w, "ReplyTo"@);
    lemma_child_of_written(a, w, "From"@);
    lemma_child_of_written(a, w, "HeaderFields"@);
    lemma_child_of_written(a, w, "Body"@);
    lemma_child_of_written(a, w, "Attachments"@);
}

/// The items of a list node whose values are those of a written list: all
/// its children, each with the values of the written item.
proof fn lemma_list_nodes(c: Node, item: Seq<char>, ws: Seq<WrittenElement>)
    requires
        node_view(c).children == written_views(ws, ws.len() as int),
        forall|i: int| 0 <= i < ws.len() ==> (#[trigger] ws[i]).name == item,
    ensures
        named(c.children@, item) == c.children@,
        c.children@.len() == ws.len(),
        forall|i: int| 0 <= i < ws.len() ==> node_view(#[trigger] c.children@[i]) == written_view(ws[i]),
{
    crate::xml::lemma_nodes_view(c.children@);
    lemma_written_views(ws, ws.len() as int);
    assert forall|i: int| 0 <= i < ws.len() implies node_view(#[trigger] c.children@[i]) == written_view(ws[i]) by {
        assert(nodes_view(c.children@)[i] == written_views(ws, ws.len() as int)[i]);
    }
    assert forall|i: int| 0 <= i < c.children@.len() implies (#[trigger] c.children@[i]).name@ == item by {
        assert(node_view(c.children@[i]).name == written_view(ws[i]).name);
    }
    lemma_named_all(c.children@, item);
}

#[verifier::rlimit(60)]
proof fn lemma_email_read(m: EmailAction, a: Node)
    requires
        node_view(a) == written_view(action_written(Action::Email(m))),
        attributes_distinct(a),
    ensures
        !action_fault(a),
        action_read(a, Action::Email(m)),
{
    reveal_strlit("Exec");
    assert("Exec"@.len() == 4 && "Exec"@[0] == 'E');
    reveal_strlit("ComHandler");
    assert("ComHandler"@.len() == 10 && "ComHandler"@[0] == 'C' && "ComHandler"@[5] == 'n');
    reveal_strlit("SendEmail");
    assert("SendEmail"@.len() == 9 && "SendEmail"@[0] == 'S' && "SendEmail"@[5] == 'm');
    reveal_strlit("ShowMessage");
    assert("ShowMessage"@.len() == 11 && "ShowMessage"@[0] == 'S' && "ShowMessage"@[5] == 'e');
    reveal_strlit("HeaderFields");
    assert("HeaderFields"@.len() == 12 && "HeaderFields"@[0] == 'H' && "HeaderFields"@[5] == 'r');
    reveal_strlit("HeaderField");
    assert("HeaderField"@.len() == 11 && "HeaderField"@[0] == 'H' && "HeaderField"@[5] == 'r');
    reveal_strlit("Attachments");
    assert("Attachments"@.len() == 11 && "Attachments"@[0] == 'A' && "Attachments"@[5] == 'h');
    reveal_strlit("File");
    assert("File"@.len() == 4 && "File"@[0] == 'F');
    reveal_strlit("Name");
    assert("Name"@.len() == 4 && "Name"@[0] == 'N');
    reveal_strlit("Value");
    assert("Value"@.len() == 5 && "Value"@[0] == 'V');
    lemma_email_children(m, a);
    lemma_id_attribute(a, m.id);
    lemma_first_named_empty();
    if m.headers@.len() > 0 {
        let x = headers_elements(m)[0];
        lemma_first_named_list1(headers_elements(m));
        let c = child_of(a, "HeaderFields"@)->0;
        lemma_list_nodes(c, "HeaderField"@, x.children);
        let hs = list_items(a, "HeaderFields"@, "HeaderField"@);
        assert(hs == c.children@);
        assert forall|i: int| 0 <= i < hs.len() implies text_of(#[trigger] hs[i], "Name"@) == Some(m.headers@[i].name@)
            && text_of(hs[i], "Value"@) == Some(m.headers@[i].value@) by {
            let h = m.headers@[i];
            let hw = header_element(h);
            assert(x.children[i] == hw);
            lemma_first_named_list2(hw.children);
            lemma_child_of_written(hs[i], hw, "Name"@);
            lemma_child_of_written(hs[i], hw, "Value"@);
        }
    } else {
        assert(list_items(a, "HeaderFields"@, "HeaderField"@) == Seq::<Node>::empty());
    }
    if m.attachments@.len() > 0 {
        let x = attachments_elements(m)[0];
        lemma_first_named_list1(attachments_elements(m));
        let c = child_of(a, "Attachments"@)->0;
        lemma_list_nodes(c, "File"@, x.children);
        let fs = list_items(a, "Attachments"@, "File"@);
        assert(fs == c.children@);
        assert forall|i: int| 0 <= i < fs.len() implies (#[trigger] fs[i]).text@ == m.attachments@[i]@ by {
            assert(x.children[i] == text_element("File"@, m.attachments@[i]@));
            assert(node_view(fs[i]).text == fs[i].text@);
        }
    } else {
        assert(list_items(a, "Attachments"@, "File"@) == Seq::<Node>::empty());
    }
}

/// Writing the actions and reading them back: the `Actions` element
/// written for a definition is the markup of `actions_written`, and every
/// element tree with that element's values and distinct attribute keys
/// reads back as the same actions, in order and without fault, when each is
/// a command, email or message action and there are no more than Task
/// Scheduler accepts.
pub proof fn lemma_actions_round_trip(d: TaskDefinition, n: Node)
    requires
        forall|i: int| 0 <= i < d.actions@.len() ==> action_round_trips(#[trigger] d.actions@[i]),
        d.actions@.len() <= crate::MAX_ACTIONS,
        node_view(n) == written_view(actions_written(d)),
        attributes_distinct(n),
    ensures
        actions_markup(d) == written_markup(actions_written(d)),
        !actions_fault(n),
        actions_read(n, d.actions@),
{
    lemma_actions_write(d);
    let w = actions_written(d);
    let cs = n.children@;
    crate::xml::lemma_nodes_view(cs);
    lemma_written_views(w.children, w.children.len() as int);
    lemma_all_attributes_distinct(cs);
    assert(cs.len() == d.actions@.len());
    assert forall|i: int| 0 <= i < cs.len() implies !action_fault(#[trigger] cs[i]) && action_read(
        cs[i],
        d.actions@[i],
    ) by {
        assert(nodes_view(cs)[i] == written_views(w.children, w.children.len() as int)[i]);
        assert(node_view(cs[i]) == written_view(action_written(d.actions@[i])));
        match d.actions@[i] {
            Action::Exec(e) => lemma_exec_read(e, cs[i]),
            Action::Email(m) => lemma_email_read(m, cs[i]),
            Action::ShowMessage(m) => lemma_message_read(m, cs[i]),
            _ => {},
        }
    }
}

// ---------------------------------------------------------------------------
// Triggers
// ---------------------------------------------------------------------------

/// The `Repetition` element, when the trigger repeats.
pub open spec fn repetition_elements(c: TriggerCommon) -> Seq<WrittenElement> {
    match c.repetition {
        Some(r) => seq![
            parent_element(
                "Repetition"@,
                seq![text_element("Interval"@, dur_text(r.interval))] + opt_element(
                    "Duration"@,
                    opt_dur_text(r.duration),
                ) + seq![bool_element("StopAtDurationEnd"@, r.stop_at_duration_end)],
            ),
        ],
        None => Seq::empty(),
    }
}

/// The children every trigger element begins with: repetition,
/// boundaries, limit and the enabled flag.
pub open spec fn common_elements(c: TriggerCommon) -> Seq<WrittenElement> {
    repetition_elements(c) + opt_element("StartBoundary"@, opt_datetime_text(c.start_boundary)) + opt_element(
        "EndBoundary"@,
        opt_datetime_text(c.end_boundary),
    ) + opt_element("ExecutionTimeLimit"@, opt_limit_text(c.execution_time_limit)) + seq![
        bool_element("Enabled"@, c.enabled),
    ]
}

/// A trigger element: its `id`, the shared children, then its own.
pub open spec fn trigger_element(name: Seq<char>, c: TriggerCommon, specific: Seq<WrittenElement>) -> WrittenElement {
    action_element(name, c.id, common_elements(c) + specific)
}

/// The element written for a trigger of a kind with a fixed schedule; the
/// calendar, event and unknown kinds, whose elements this form does not
/// hold, stand here as an empty element without a name.
pub open spec fn trigger_written(t: Trigger) -> WrittenElement {
    match t {
        Trigger::Boot(b) => trigger_element("BootTrigger"@, b.common, opt_element("Delay"@, opt_dur_text(b.delay))),
        Trigger::Registration(b) => trigger_element(
            "RegistrationTrigger"@,
            b.common,
            opt_element("Delay"@, opt_dur_text(b.delay)),
        ),
        Trigger::Idle(b) => trigger_element("IdleTrigger"@, b.common, Seq::empty()),
        Trigger::Time(b) => trigger_element(
            "TimeTrigger"@,
            b.common,
            opt_element("RandomDelay"@, opt_dur_text(b.random_delay)),
        ),
        Trigger::Logon(l) => trigger_element(
            "LogonTrigger"@,
            l.common,
            opt_element("UserId"@, opt_view(l.user_id)) + opt_element("Delay"@, opt_dur_text(l.delay)),
        ),
        Trigger::SessionStateChange(c) => trigger_element(
            "SessionStateChangeTrigger"@,
            c.common,
            seq![text_element("StateChange"@, state_change_text(c.state_change))] + opt_element(
                "UserId"@,
                opt_view(c.user_id),
            ) + opt_element("Delay"@, opt_dur_text(c.delay)),
        ),
        _ => parent_element(Seq::empty(), Seq::empty()),
    }
}

/// Whether a trigger has one of the kinds with a fixed schedule: boot,
/// registration, idle, time, logon or session state change.
pub open spec fn fixed_schedule(t: Trigger) -> bool {
    t is Boot || t is Registration || t is Idle || t is Time || t is Logon || t is SessionStateChange
}

proof fn lemma_common_write(c: TriggerCommon)
    ensures
        common_children(c) == markups(common_elements(c)),
{
    let e1 = repetition_elements(c);
    let e2 = opt_element("StartBoundary"@, opt_datetime_text(c.start_boundary));
    let e3 = opt_element("EndBoundary"@, opt_datetime_text(c.end_boundary));
    let e4 = opt_element("ExecutionTimeLimit"@, opt_limit_text(c.execution_time_limit));
    let e5 = seq![bool_element("Enabled"@, c.enabled)];
    if let Some(r) = c.repetition {
        let i1 = seq![text_element("Interval"@, dur_text(r.interval))];
        let i2 = opt_element("Duration"@, opt_dur_text(r.duration));
        let i3 = seq![bool_element("StopAtDurationEnd"@, r.stop_at_duration_end)];
        lemma_text_element("Interval"@, dur_text(r.interval));
        assert(markups(i1) =~= seq![crate::xml_write::element_markup("Interval"@, dur_text(r.interval))]);
        lemma_opt_element("Duration"@, opt_dur_text(r.duration));
        lemma_text_element("StopAtDurationEnd"@, bool_markup_text(r.stop_at_duration_end));
        assert(markups(i3) =~= seq![bool_markup("StopAtDurationEnd"@, r.stop_at_duration_end)]);
        lemma_markups_concat(i1, i2);
        lemma_markups_concat(i1 + i2, i3);
        lemma_parent_markup("Repetition"@, i1 + i2 + i3, markups(i1 + i2 + i3));
    }
    assert(markups(e1) =~= match c.repetition {
        Some(r) => seq![
            container_markup(
                "Repetition"@,
                None,
                Seq::empty(),
                seq![crate::xml_write::element_markup("Interval"@, dur_text(r.interval))] + opt_markup(
                    "Duration"@,
                    opt_dur_text(r.duration),
                ) + seq![bool_markup("StopAtDurationEnd"@, r.stop_at_duration_end)],
            ),
        ],
        None => Seq::<Seq<char>>::empty(),
    });
    lemma_opt_element("StartBoundary"@, opt_datetime_text(c.start_boundary));
    lemma_opt_element("EndBoundary"@, opt_datetime_text(c.end_boundary));
    lemma_opt_element("ExecutionTimeLimit"@, opt_limit_text(c.execution_time_limit));
    lemma_text_element("Enabled"@, bool_markup_text(c.enabled));
    assert(markups(e5) =~= seq![bool_markup("Enabled"@, c.enabled)]);
    lemma_markups_concat(e1, e2);
    lemma_markups_concat(e1 + e2, e3);
    lemma_markups_concat(e1 + e2 + e3, e4);
    lemma_markups_concat(e1 + e2 + e3 + e4, e5);
}

proof fn lemma_trigger_element_markup(name: Seq<char>, c: TriggerCommon, specific: Seq<WrittenElement>)
    ensures
        simple_trigger_markup(name, c, markups(specific)) == written_markup(trigger_element(name, c, specific)),
{
    lemma_common_write(c);
    lemma_markups_concat(common_elements(c), specific);
    lemma_action_element_markup(name, c.id, common_elements(c) + specific);
}

proof fn lemma_trigger_write(t: Trigger)
    requires
        fixed_schedule(t),
    ensures
        trigger_markup(t) == written_markup(trigger_written(t)),
{
    match t {
        Trigger::Boot(b) => {
            lemma_opt_element("Delay"@, opt_dur_text(b.delay));
            lemma_trigger_element_markup("BootTrigger"@, b.common, opt_element("Delay"@, opt_dur_text(b.delay)));
        },
        Trigger::Registration(b) => {
            lemma_opt_element("Delay"@, opt_dur_text(b.delay));
            lemma_trigger_element_markup(
                "RegistrationTrigger"@,
                b.common,
                opt_element("Delay"@, opt_dur_text(b.delay)),
            );
        },
        Trigger::Idle(b) => {
            assert(markups(Seq::<WrittenElement>::empty()) =~= Seq::<Seq<char>>::empty());
            lemma_trigger_element_markup("IdleTrigger"@, b.common, Seq::empty());
        },
        Trigger::Time(b) => {
            lemma_opt_element("RandomDelay"@, opt_dur_text(b.random_delay));
            lemma_trigger_element_markup(
                "TimeTrigger"@,
                b.common,
                opt_element("RandomDelay"@, opt_dur_text(b.random_delay)),
            );
        },
        Trigger::Logon(l) => {
            let a = opt_element("UserId"@, opt_view(l.user_id));
            let b = opt_element("Delay"@, opt_dur_text(l.delay));
            lemma_opt_element("UserId"@, opt_view(l.user_id));
            lemma_opt_element("Delay"@, opt_dur_text(l.delay));
            lemma_markups_concat(a, b);
            lemma_trigger_element_markup("LogonTrigger"@, l.common, a + b);
        },
        Trigger::SessionStateChange(c) => {
            let a = seq![text_element("StateChange"@, state_change_text(c.state_change))];
            let b = opt_element("UserId"@, opt_view(c.user_id));
            let e = opt_element("Delay"@, opt_dur_text(c.delay));
            lemma_text_element("StateChange"@, state_change_text(c.state_change));
            assert(markups(a) =~= seq![crate::xml_write::element_markup("StateChange"@, state_change_text(c.state_change))]);
            lemma_opt_element("UserId"@, opt_view(c.user_id));
            lemma_opt_element("Delay"@, opt_dur_text(c.delay));
            lemma_markups_concat(a, b);
            lemma_markups_concat(a + b, e);
            lemma_trigger_element_markup("SessionStateChangeTrigger"@, c.common, a + b + e);
        },
        _ => {},
    }
}

proof fn lemma_first_named_absent(ws: Seq<WrittenElement>, name: Seq<char>)
    requires
        forall|i: int| 0 <= i < ws.len() ==> (#[trigger] ws[i]).name != name,
    ensures
        first_named(ws, name) is None,
    decreases ws.len(),
{
    if ws.len() > 0 {
        assert(ws[0].name != name);
        assert forall|i: int| 0 <= i < ws.drop_first().len() implies (#[trigger] ws.drop_first()[i]).name != name by {
            assert(ws.drop_first()[i] == ws[i + 1]);
        }
        lemma_first_named_absent(ws.drop_first(), name);
    }
}

/// Whether a name is none of those every trigger element begins with.
pub open spec fn not_common_name(name: Seq<char>) -> bool {
    &&& name != "Repetition"@
    &&& name != "StartBoundary"@
    &&& name != "EndBoundary"@
    &&& name != "ExecutionTimeLimit"@
    &&& name != "Enabled"@
}

/// Whether the shared part of a trigger reads back as written: boundaries
/// whose texts denote their bases, well-formed durations, and a finite
/// limit that is not zero.
pub open spec fn common_round_trips(c: TriggerCommon) -> bool {
    &&& c.start_boundary matches Some(d) ==> parse_datetime_spec(d@.0) == Some(d@.1)
    &&& c.end_boundary matches Some(d) ==> parse_datetime_spec(d@.0) == Some(d@.1)
    &&& c.repetition matches Some(r) ==> r.interval.well_formed() && (r.duration matches Some(x) ==> x.well_formed())
    &&& c.execution_time_limit matches Some(TaskLimit::Finite(d)) ==> d.well_formed() && d@ != (0nat, 0nat)
}

#[verifier::rlimit(100)]
proof fn lemma_common_read(name: Seq<char>, c: TriggerCommon, specific: Seq<WrittenElement>, t: Node)
    requires
        node_view(t) == written_view(trigger_element(name, c, specific)),
        attributes_distinct(t),
        common_round_trips(c),
        forall|i: int| 0 <= i < specific.len() ==> not_common_name(#[trigger] specific[i].name),
    ensures
        !common_fault(t),
        common_read(t, c),
{
    reveal_strlit("Repetition");
    assert("Repetition"@.len() == 10 && "Repetition"@[0] == 'R' && "Repetition"@[5] == 'i');
    reveal_strlit("StartBoundary");
    assert("StartBoundary"@.len() == 13 && "StartBoundary"@[0] == 'S' && "StartBoundary"@[5] == 'B');
    reveal_strlit("EndBoundary");
    assert("EndBoundary"@.len() == 11 && "EndBoundary"@[0] == 'E' && "EndBoundary"@[5] == 'u');
    reveal_strlit("ExecutionTimeLimit");
    assert("ExecutionTimeLimit"@.len() == 18 && "ExecutionTimeLimit"@[0] == 'E' && "ExecutionTimeLimit"@[5] == 't');
    reveal_strlit("Enabled");
    assert("Enabled"@.len() == 7 && "Enabled"@[0] == 'E' && "Enabled"@[5] == 'e');
    reveal_strlit("Interval");
    assert("Interval"@.len() == 8 && "Interval"@[0] == 'I' && "Interval"@[5] == 'v');
    reveal_strlit("Duration");
    assert("Duration"@.len() == 8 && "Duration"@[0] == 'D' && "Duration"@[5] == 'i');
    reveal_strlit("StopAtDurationEnd");
    assert("StopAtDurationEnd"@.len() == 17 && "StopAtDurationEnd"@[0] == 'S' && "StopAtDurationEnd"@[5] == 't');
    let w = trigger_element(name, c, specific);
    let e1 = repetition_elements(c);
    let e2 = opt_element("StartBoundary"@, opt_datetime_text(c.start_boundary));
    let e3 = opt_element("EndBoundary"@, opt_datetime_text(c.end_boundary));
    let e4 = opt_element("ExecutionTimeLimit"@, opt_limit_text(c.execution_time_limit));
    let e5 = seq![bool_element("Enabled"@, c.enabled)];
    lemma_first_named_empty();
    if e1.len() == 1 {
        lemma_first_named_list1(e1);
    }
    lemma_opt_element("StartBoundary"@, opt_datetime_text(c.start_boundary));
    lemma_opt_element("EndBoundary"@, opt_datetime_text(c.end_boundary));
    lemma_opt_element("ExecutionTimeLimit"@, opt_limit_text(c.execution_time_limit));
    lemma_first_named_list1(e5);
    lemma_first_named_concat(e1, e2);
    lemma_first_named_concat(e1 + e2, e3);
    lemma_first_named_concat(e1 + e2 + e3, e4);
    lemma_first_named_concat(e1 + e2 + e3 + e4, e5);
    lemma_first_named_concat(common_elements(c), specific);
    lemma_first_named_absent(specific, "Repetition"@);
    lemma_first_named_absent(specific, "StartBoundary"@);
    lemma_first_named_absent(specific, "EndBoundary"@);
    lemma_first_named_absent(specific, "ExecutionTimeLimit"@);
    lemma_first_named_absent(specific, "Enabled"@);
    assert(common_elements(c) == e1 + e2 + e3 + e4 + e5);
    lemma_child_of_written(t, w, "Repetition"@);
    lemma_child_of_written(t, w, "StartBoundary"@);
    lemma_child_of_written(t, w, "EndBoundary"@);
    lemma_child_of_written(t, w, "ExecutionTimeLimit"@);
    lemma_child_of_written(t, w, "Enabled"@);
    crate::xml_laws::lemma_bool_round_trip(c.enabled);
    lemma_id_attribute(t, c.id);
    if let Some(l) = c.execution_time_limit {
        crate::xml_laws::lemma_limit_round_trip(l);
    }
    if let Some(r) = c.repetition {
        let rw = e1[0];
        let rn = child_of(t, "Repetition"@)->0;
        let i1 = seq![text_element("Interval"@, dur_text(r.interval))];
        let i2 = opt_element("Duration"@, opt_dur_text(r.duration));
        let i3 = seq![bool_element("StopAtDurationEnd"@, r.stop_at_duration_end)];
        lemma_first_named_list1(i1);
        lemma_opt_element("Duration"@, opt_dur_text(r.duration));
        lemma_first_named_list1(i3);
        lemma_first_named_concat(i1, i2);
        lemma_first_named_concat(i1 + i2, i3);
        lemma_child_of_written(rn, rw, "Interval"@);
        lemma_child_of_written(rn, rw, "Duration"@);
        lemma_child_of_written(rn, rw, "StopAtDurationEnd"@);
        r.interval.lemma_round_trip();
        if let Some(x) = r.duration {
            x.lemma_round_trip();
        }
        crate::xml_laws::lemma_bool_round_trip(r.stop_at_duration_end);
    }
}

proof fn lemma_common_absent(c: TriggerCommon, name: Seq<char>)
    requires
        not_common_name(name),
    ensures
        first_named(common_elements(c), name) is None,
{
    let e1 = repetition_elements(c);
    let e2 = opt_element("StartBoundary"@, opt_datetime_text(c.start_boundary));
    let e3 = opt_element("EndBoundary"@, opt_datetime_text(c.end_boundary));
    let e4 = opt_element("ExecutionTimeLimit"@, opt_limit_text(c.execution_time_limit));
    let e5 = seq![bool_element("Enabled"@, c.enabled)];
    lemma_first_named_empty();
    if e1.len() == 1 {
        lemma_first_named_list1(e1);
    }
    lemma_opt_element("StartBoundary"@, opt_datetime_text(c.start_boundary));
    lemma_opt_element("EndBoundary"@, opt_datetime_text(c.end_boundary));
    lemma_opt_element("ExecutionTimeLimit"@, opt_limit_text(c.execution_time_limit));
    lemma_first_named_list1(e5);
    lemma_first_named_concat(e1, e2);
    lemma_first_named_concat(e1 + e2, e3);
    lemma_first_named_concat(e1 + e2 + e3, e4);
    lemma_first_named_concat(e1 + e2 + e3 + e4, e5);
    assert(common_elements(c) == e1 + e2 + e3 + e4 + e5);
}

/// Whether a trigger reads back as written: a kind with a fixed schedule,
/// its shared part reading back, and well-formed delays.
pub open spec fn trigger_round_trips(t: Trigger) -> bool {
    match t {
        Trigger::Boot(b) => common_round_trips(b.common) && (b.delay matches Some(x) ==> x.well_formed()),
        Trigger::Registration(b) => common_round_trips(b.common) && (b.delay matches Some(x) ==> x.well_formed()),
        Trigger::Idle(b) => common_round_trips(b.common),
        Trigger::Time(b) => common_round_trips(b.common) && (b.random_delay matches Some(x) ==> x.well_formed()),
        Trigger::Logon(l) => common_round_trips(l.common) && (l.delay matches Some(x) ==> x.well_formed()),
        Trigger::SessionStateChange(c) => common_round_trips(c.common) && (c.delay matches Some(x) ==> x.well_formed()),
        _ => false,
    }
}

proof fn lemma_specific_child(name: Seq<char>, c: TriggerCommon, specific: Seq<WrittenElement>, t: Node, child: Seq<char>)
    requires
        node_view(t) == written_view(trigger_element(name, c, specific)),
        not_common_name(child),
    ensures
        match first_named(specific, child) {
            Some(x) => child_of(t, child) matches Some(n) && node_view(n) == written_view(x),
            None => child_of(t, child) is None,
        },
{
    lemma_common_absent(c, child);
    lemma_first_named_concat(common_elements(c), specific);
    lemma_child_of_written(t, trigger_element(name, c, specific), child);
}

#[verifier::rlimit(100)]
proof fn lemma_fixed_trigger_read(x: Trigger, t: Node)
    requires
        trigger_round_trips(x),
        node_view(t) == written_view(trigger_written(x)),
        attributes_distinct(t),
    ensures
        !trigger_fault(t),
        trigger_read(t, x),
{
    reveal_strlit("Repetition");
    assert("Repetition"@.len() == 10 && "Repetition"@[0] == 'R' && "Repetition"@[5] == 'i');
    reveal_strlit("StartBoundary");
    assert("StartBoundary"@.len() == 13 && "StartBoundary"@[0] == 'S' && "StartBoundary"@[5] == 'B');
    reveal_strlit("EndBoundary");
    assert("EndBoundary"@.len() == 11 && "EndBoundary"@[0] == 'E' && "EndBoundary"@[5] == 'u');
    reveal_strlit("ExecutionTimeLimit");
    assert("ExecutionTimeLimit"@.len() == 18 && "ExecutionTimeLimit"@[0] == 'E' && "ExecutionTimeLimit"@[5] == 't');
    reveal_strlit("Enabled");
    assert("Enabled"@.len() == 7 && "Enabled"@[0] == 'E' && "Enabled"@[5] == 'e');
    reveal_strlit("BootTrigger");
    assert("BootTrigger"@.len() == 11 && "BootTrigger"@[0] == 'B' && "BootTrigger"@[5] == 'r');
    reveal_strlit("RegistrationTrigger");
    assert("RegistrationTrigger"@.len() == 19 && "RegistrationTrigger"@[0] == 'R' && "RegistrationTrigger"@[5] == 't');
    reveal_strlit("IdleTrigger");
    assert("IdleTrigger"@.len() == 11 && "IdleTrigger"@[0] == 'I' && "IdleTrigger"@[5] == 'r');
    reveal_strlit("TimeTrigger");
    assert("TimeTrigger"@.len() == 11 && "TimeTrigger"@[0] == 'T' && "TimeTrigger"@[5] == 'r');
    reveal_strlit("EventTrigger");
    assert("EventTrigger"@.len() == 12 && "EventTrigger"@[0] == 'E' && "EventTrigger"@[5] == 'T');
    reveal_strlit("LogonTrigger");
    assert("LogonTrigger"@.len() == 12 && "LogonTrigger"@[0] == 'L' && "LogonTrigger"@[5] == 'T');
    reveal_strlit("SessionStateChangeTrigger");
    assert("SessionStateChangeTrigger"@.len() == 25 && "SessionStateChangeTrigger"@[0] == 'S' && "SessionStateChangeTrigger"@[5] == 'o');
    reveal_strlit("CalendarTrigger");
    assert("CalendarTrigger"@.len() == 15 && "CalendarTrigger"@[0] == 'C' && "CalendarTrigger"@[5] == 'd');
    reveal_strlit("Delay");
    assert("Delay"@.len() == 5 && "Delay"@[0] == 'D');
    reveal_strlit("RandomDelay");
    assert("RandomDelay"@.len() == 11 && "RandomDelay"@[0] == 'R' && "RandomDelay"@[5] == 'm');
    reveal_strlit("UserId");
    assert("UserId"@.len() == 6 && "UserId"@[0] == 'U' && "UserId"@[5] == 'd');
    reveal_strlit("StateChange");
    assert("StateChange"@.len() == 11 && "StateChange"@[0] == 'S' && "StateChange"@[5] == 'C');
    lemma_first_named_empty();
    crate::xml_laws::lemma_calendar_names_round_trip(
        crate::model::trigger::Weekday::Sunday,
        crate::model::trigger::Month::January,
        crate::model::trigger::WeekOfMonth::First,
        match x {
            Trigger::SessionStateChange(c) => c.state_change,
            _ => crate::model::trigger::SessionStateChange::SessionLock,
        },
    );
    match x {
        Trigger::Boot(b) => {
            let sp = opt_element("Delay"@, opt_dur_text(b.delay));
            lemma_opt_element("Delay"@, opt_dur_text(b.delay));
            lemma_common_read("BootTrigger"@, b.common, sp, t);
            lemma_specific_child("BootTrigger"@, b.common, sp, t, "Delay"@);
            if let Some(d) = b.delay {
                d.lemma_round_trip();
            }
        },
        Trigger::Registration(b) => {
            let sp = opt_element("Delay"@, opt_dur_text(b.delay));
            lemma_opt_element("Delay"@, opt_dur_text(b.delay));
            lemma_common_read("RegistrationTrigger"@, b.common, sp, t);
            lemma_specific_child("RegistrationTrigger"@, b.common, sp, t, "Delay"@);
            if let Some(d) = b.delay {
                d.lemma_round_trip();
            }
        },
        Trigger::Idle(b) => {
            lemma_common_read("IdleTrigger"@, b.common, Seq::empty(), t);
        },
        Trigger::Time(b) => {
            let sp = opt_element("RandomDelay"@, opt_dur_text(b.random_delay));
            lemma_opt_element("RandomDelay"@, opt_dur_text(b.random_delay));
            lemma_common_read("TimeTrigger"@, b.common, sp, t);
            lemma_specific_child("TimeTrigger"@, b.common, sp, t, "RandomDelay"@);
            if let Some(d) = b.random_delay {
                d.lemma_round_trip();
            }
        },
        Trigger::Logon(l) => {
            let a = opt_element("UserId"@, opt_view(l.user_id));
            let b = opt_element("Delay"@, opt_dur_text(l.delay));
            lemma_opt_element("UserId"@, opt_view(l.user_id));
            lemma_opt_element("Delay"@, opt_dur_text(l.delay));
            lemma_first_named_concat(a, b);
            assert forall|i: int| 0 <= i < (a + b).len() implies not_common_name(#[trigger] (a + b)[i].name) by {
                if i < a.len() {
                    assert((a + b)[i] == a[i]);
                } else {
                    assert((a + b)[i] == b[i - a.len()]);
                }
            }
            lemma_common_read("LogonTrigger"@, l.common, a + b, t);
            lemma_specific_child("LogonTrigger"@, l.common, a + b, t, "UserId"@);
            lemma_specific_child("LogonTrigger"@, l.common, a + b, t, "Delay"@);
            if let Some(d) = l.delay {
                d.lemma_round_trip();
            }
        },
        Trigger::SessionStateChange(c) => {
            let a = seq![text_element("StateChange"@, state_change_text(c.state_change))];
            let b = opt_element("UserId"@, opt_view(c.user_id));
            let e = opt_element("Delay"@, opt_dur_text(c.delay));
            lemma_first_named_list1(a);
            lemma_opt_element("UserId"@, opt_view(c.user_id));
            lemma_opt_element("Delay"@, opt_dur_text(c.delay));
            lemma_first_named_concat(a, b);
            lemma_first_named_concat(a + b, e);
            assert forall|i: int| 0 <= i < (a + b + e).len() implies not_common_name(#[trigger] (a + b + e)[i].name) by {
                if i < a.len() {
                    assert((a + b + e)[i] == a[i]);
                } else if i < a.len() + b.len() {
                    assert((a + b + e)[i] == b[i - a.len()]);
                } else {
                    assert((a + b + e)[i] == e[i - a.len() - b.len()]);
                }
            }
            lemma_common_read("SessionStateChangeTrigger"@, c.common, a + b + e, t);
            lemma_specific_child("SessionStateChangeTrigger"@, c.common, a + b + e, t, "StateChange"@);
            lemma_specific_child("SessionStateChangeTrigger"@, c.common, a + b + e, t, "UserId"@);
            lemma_specific_child("SessionStateChangeTrigger"@, c.common, a + b + e, t, "Delay"@);
            if let Some(d) = c.delay {
                d.lemma_round_trip();
            }
        },
        _ => {},
    }
}

/// The `Triggers` element written for a definition.
pub open spec fn triggers_written(d: TaskDefinition) -> WrittenElement {
    parent_element("Triggers"@, d.triggers@.map_values(|t: Trigger| trigger_written(t)))
}

/// Writing the triggers and reading them back: the `Triggers` element
/// written for a definition is the markup of `triggers_written`, and every
/// element tree with that element's values and distinct attribute keys
/// reads back as the same triggers, in order and without fault, when each
/// has a fixed schedule and reads back as written and there are no more
/// than Task Scheduler accepts.
pub proof fn lemma_triggers_round_trip(d: TaskDefinition, n: Node)
    requires
        forall|i: int| 0 <= i < d.triggers@.len() ==> trigger_round_trips(#[trigger] d.triggers@[i]),
        d.triggers@.len() <= crate::MAX_TRIGGERS,
        node_view(n) == written_view(triggers_written(d)),
        attributes_distinct(n),
    ensures
        container_markup("Triggers"@, None, Seq::empty(), d.triggers@.map_values(|t: Trigger| trigger_markup(t)))
            == written_markup(triggers_written(d)),
        !triggers_fault(n),
        triggers_read(n, d.triggers@),
{
    let w = triggers_written(d);
    let written = d.triggers@.map_values(|t: Trigger| trigger_markup(t));
    assert forall|i: int| 0 <= i < written.len() implies #[trigger] written[i] == markups(w.children)[i] by {
        lemma_trigger_write(d.triggers@[i]);
    }
    assert(written =~= markups(w.children));
    lemma_parent_markup("Triggers"@, w.children, written);
    let cs = n.children@;
    crate::xml::lemma_nodes_view(cs);
    lemma_written_views(w.children, w.children.len() as int);
    lemma_all_attributes_distinct(cs);
    assert(cs.len() == d.triggers@.len());
    assert forall|i: int| 0 <= i < cs.len() implies !trigger_fault(#[trigger] cs[i]) && trigger_read(
        cs[i],
        d.triggers@[i],
    ) by {
        assert(nodes_view(cs)[i] == written_views(w.children, w.children.len() as int)[i]);
        lemma_fixed_trigger_read(d.triggers@[i], cs[i]);
    }
}

// ---------------------------------------------------------------------------
// The document
// ---------------------------------------------------------------------------

/// The children written for the `Task` root of a definition without
/// extensions: registration information when there is any, triggers when
/// there are any, the principal, the settings, the data when there is any,
/// and the actions.
pub open spec fn root_elements(d: TaskDefinition) -> Seq<WrittenElement> {
    (if !crate::model::registration_is_empty(d.registration) {
        seq![registration_written(d.registration)]
    } else {
        Seq::empty()
    }) + (if d.triggers@.len() > 0 {
        seq![triggers_written(d)]
    } else {
        Seq::empty()
    }) + seq![principals_written(d.principal), settings_written(d.settings)] + opt_element("Data"@, opt_view(d.data))
        + seq![actions_written(d)]
}

/// The `Task` root written for a definition, with its schema version and
/// namespace.
pub open spec fn root_written(d: TaskDefinition) -> WrittenElement {
    WrittenElement {
        name: "Task"@,
        attributes: seq![
            ("version"@, crate::model::schema_text(d.schema_version@)),
            ("xmlns"@, TASK_NAMESPACE@),
        ],
        text: Seq::empty(),
        children: root_elements(d),
        self_closing: false,
    }
}

/// The XML declaration written before the root, with an encoding name.
pub open spec fn declaration(encoding: Seq<char>) -> Seq<char> {
    "<?xml version=\"1.0\" encoding=\""@ + encoding + "\"?>\r\n"@
}

proof fn lemma_plain_attribute(v: Seq<char>)
    requires
        forall|i: int| 0 <= i < v.len() ==> #[trigger] v[i] != '"' && v[i] != '\'' && v[i] != '&' && v[i] != '<' && v[i] != '>',
    ensures
        crate::markup::escaped_attribute(v) == v,
    decreases v.len(),
{
    if v.len() > 0 {
        assert forall|i: int| 0 <= i < v.drop_last().len() implies #[trigger] v.drop_last()[i] != '"' && v.drop_last()[i]
            != '\'' && v.drop_last()[i] != '&' && v.drop_last()[i] != '<' && v.drop_last()[i] != '>' by {
            assert(v.drop_last()[i] == v[i]);
        }
        lemma_plain_attribute(v.drop_last());
        let c = v.last();
        assert(c == v[v.len() - 1]);
        assert(crate::markup::attribute_escape(c) =~= seq![c]);
        assert(v.drop_last() + seq![c] =~= v);
    }
}

#[verifier::rlimit(60)]
proof fn lemma_root_children_write(d: TaskDefinition)
    requires
        d.extensions@.len() == 0,
        forall|i: int| 0 <= i < d.actions@.len() ==> action_round_trips(#[trigger] d.actions@[i]),
        forall|i: int| 0 <= i < d.triggers@.len() ==> trigger_round_trips(#[trigger] d.triggers@[i]),
    ensures
        crate::xml_write::merged(root_children(d), d.extensions@, "Task"@) == markups(root_elements(d)),
{
    assert(!has_extensions(d, "Task/RegistrationInfo"@));
    assert(!has_extensions(d, "Task/Settings"@));
    assert(!has_extensions(d, "Task"@));
    lemma_registration_write(d);
    lemma_settings_write(d);
    lemma_principal_write(d.principal);
    assert forall|i: int| 0 <= i < d.actions@.len() implies !((#[trigger] d.actions@[i]) is Unknown) by {
        assert(action_round_trips(d.actions@[i]));
    }
    lemma_actions_write(d);
    let written = d.triggers@.map_values(|t: Trigger| trigger_markup(t));
    let tw = triggers_written(d);
    assert forall|i: int| 0 <= i < written.len() implies #[trigger] written[i] == markups(tw.children)[i] by {
        lemma_trigger_write(d.triggers@[i]);
    }
    assert(written =~= markups(tw.children));
    lemma_parent_markup("Triggers"@, tw.children, written);
    let e1 = if !crate::model::registration_is_empty(d.registration) {
        seq![registration_written(d.registration)]
    } else {
        Seq::<WrittenElement>::empty()
    };
    let e2 = if d.triggers@.len() > 0 {
        seq![tw]
    } else {
        Seq::<WrittenElement>::empty()
    };
    let e3 = seq![principals_written(d.principal), settings_written(d.settings)];
    let e4 = opt_element("Data"@, opt_view(d.data));
    let e5 = seq![actions_written(d)];
    lemma_opt_element("Data"@, opt_view(d.data));
    lemma_markups_concat(e1, e2);
    lemma_markups_concat(e1 + e2, e3);
    lemma_markups_concat(e1 + e2 + e3, e4);
    lemma_markups_concat(e1 + e2 + e3 + e4, e5);
    assert(root_elements(d) == e1 + e2 + e3 + e4 + e5);
    assert(root_children(d) =~= markups(root_elements(d)));
    lemma_no_extensions_merged(root_children(d), d, "Task"@);
}

#[verifier::rlimit(60)]
proof fn lemma_namespace_plain()
    ensures
        crate::markup::escaped_attribute(TASK_NAMESPACE@) == TASK_NAMESPACE@,
{
    reveal_strlit("http://schemas.microsoft.com/windows/2004/02/mit/task");
    lemma_plain_attribute(TASK_NAMESPACE@);
}

proof fn lemma_root_attributes(v: Seq<char>)
    ensures
        crate::markup::attributes_markup(seq![("version"@, v), ("xmlns"@, TASK_NAMESPACE@)]) == Seq::<char>::empty()
            + seq![' '] + "version"@ + seq!['=', '"'] + crate::markup::escaped_attribute(v) + seq!['"'] + seq![' ']
            + "xmlns"@ + seq!['=', '"'] + TASK_NAMESPACE@ + seq!['"'],
{
    let attrs = seq![("version"@, v), ("xmlns"@, TASK_NAMESPACE@)];
    lemma_namespace_plain();
    assert(attrs.drop_last() =~= seq![("version"@, v)]);
    assert(attrs.drop_last().drop_last() =~= Seq::<(Seq<char>, Seq<char>)>::empty());
    assert(crate::markup::attributes_markup(Seq::<(Seq<char>, Seq<char>)>::empty()) == Seq::<char>::empty());
    let one = crate::markup::attributes_markup(attrs.drop_last());
    assert(one == crate::markup::attributes_markup(attrs.drop_last().drop_last()) + seq![' '] + "version"@ + seq![
        '=',
        '"',
    ] + crate::markup::escaped_attribute(v) + seq!['"']);
    assert(crate::markup::attributes_markup(attrs) == one + seq![' '] + "xmlns"@ + seq!['=', '"']
        + crate::markup::escaped_attribute(TASK_NAMESPACE@) + seq!['"']);
    assert(crate::markup::attributes_markup(attrs) =~= Seq::<char>::empty() + seq![' '] + "version"@ + seq![
        '=',
        '"',
    ] + crate::markup::escaped_attribute(v) + seq!['"'] + seq![' '] + "xmlns"@ + seq!['=', '"'] + TASK_NAMESPACE@
        + seq!['"']);
}

#[verifier::rlimit(60)]
proof fn lemma_root_write(d: TaskDefinition, encoding: Seq<char>)
    requires
        d.extensions@.len() == 0,
        forall|i: int| 0 <= i < d.actions@.len() ==> action_round_trips(#[trigger] d.actions@[i]),
        forall|i: int| 0 <= i < d.triggers@.len() ==> trigger_round_trips(#[trigger] d.triggers@[i]),
    ensures
        definition_markup(d, encoding) == declaration(encoding) + written_markup(root_written(d)) + "\r\n"@,
{
    let w = root_written(d);
    let v = crate::model::schema_text(d.schema_version@);
    lemma_root_children_write(d);
    lemma_written_list_markup(w.children, w.children.len() as int);
    assert(w.children.take(w.children.len() as int) =~= w.children);
    let body = concat(crate::xml_write::merged(root_children(d), d.extensions@, "Task"@));
    assert(written_list_markup(w.children, w.children.len() as int) == body);
    lemma_namespace_plain();
    lemma_root_attributes(v);
    assert(escaped_text(Seq::<char>::empty()) =~= Seq::<char>::empty());
    lemma_root_text(encoding, crate::markup::escaped_attribute(v), TASK_NAMESPACE@, body);
    assert(definition_markup(d, encoding) == "<?xml version=\"1.0\" encoding=\""@ + encoding
        + "\"?>\r\n<Task version=\""@ + crate::markup::escaped_attribute(v) + "\" xmlns=\""@ + TASK_NAMESPACE@
        + "\">"@ + body + "</Task>\r\n"@);
    assert(written_markup(w) == seq!['<'] + "Task"@ + crate::markup::attributes_markup(w.attributes) + seq!['>']
        + escaped_text(Seq::<char>::empty()) + body + seq!['<', '/'] + "Task"@ + seq!['>']);
}

#[verifier::rlimit(100)]
proof fn lemma_root_text(encoding: Seq<char>, version: Seq<char>, namespace: Seq<char>, body: Seq<char>)
    ensures
        "<?xml version=\"1.0\" encoding=\""@ + encoding + "\"?>\r\n<Task version=\""@ + version + "\" xmlns=\""@
            + namespace + "\">"@ + body + "</Task>\r\n"@ == declaration(encoding) + (seq!['<'] + "Task"@ + (
        Seq::<char>::empty() + seq![' '] + "version"@ + seq!['=', '"'] + version + seq!['"'] + seq![' ']
            + "xmlns"@ + seq!['=', '"'] + namespace + seq!['"']) + seq!['>'] + Seq::<char>::empty() + body + seq![
            '<',
            '/',
        ] + "Task"@ + seq!['>']) + "\r\n"@,
{
    reveal_strlit("\"?>\r\n<Task version=\"");
    reveal_strlit("\"?>\r\n");
    reveal_strlit("\" xmlns=\"");
    reveal_strlit("\">");
    reveal_strlit("</Task>\r\n");
    reveal_strlit("\r\n");
    reveal_strlit("Task");
    reveal_strlit("version");
    reveal_strlit("xmlns");
    let head = "\"?>\r\n"@ + seq!['<'] + "Task"@ + seq![' '] + "version"@ + seq!['=', '"'];
    assert("\"?>\r\n<Task version=\""@ =~= head);
    assert("\" xmlns=\""@ =~= seq!['"'] + seq![' '] + "xmlns"@ + seq!['=', '"']);
    assert("\">"@ =~= seq!['"'] + seq!['>']);
    assert("</Task>\r\n"@ =~= seq!['<', '/'] + "Task"@ + seq!['>'] + "\r\n"@);
    assert("<?xml version=\"1.0\" encoding=\""@ + encoding + "\"?>\r\n<Task version=\""@ + version + "\" xmlns=\""@
        + namespace + "\">"@ + body + "</Task>\r\n"@ =~= declaration(encoding) + (seq!['<'] + "Task"@ + (
    Seq::<char>::empty() + seq![' '] + "version"@ + seq!['=', '"'] + version + seq!['"'] + seq![' ']
        + "xmlns"@ + seq!['=', '"'] + namespace + seq!['"']) + seq!['>'] + Seq::<char>::empty() + body + seq![
        '<',
        '/',
    ] + "Task"@ + seq!['>']) + "\r\n"@);
}

// ---------------------------------------------------------------------------
// Reading the document back
// ---------------------------------------------------------------------------

/// Whether every written element's name is part of a section's typed model.
pub open spec fn names_known(ws: Seq<WrittenElement>, section: Section) -> bool {
    forall|i: int| 0 <= i < ws.len() ==> section_knows(section, #[trigger] ws[i].name)
}

proof fn lemma_names_known_concat(a: Seq<WrittenElement>, b: Seq<WrittenElement>, section: Section)
    requires
        names_known(a, section),
        names_known(b, section),
    ensures
        names_known(a + b, section),
{
    assert forall|i: int| 0 <= i < (a + b).len() implies section_knows(section, #[trigger] (a + b)[i].name) by {
        if i < a.len() {
            assert((a + b)[i] == a[i]);
        } else {
            assert((a + b)[i] == b[i - a.len()]);
        }
    }
}

proof fn lemma_extensions_of_empty(children: Seq<Node>, section: Section, count: int)
    requires
        forall|i: int| 0 <= i < children.len() ==> section_knows(section, (#[trigger] children[i]).name@),
        count <= children.len(),
    ensures
        extensions_of(children, section, count) == Seq::<(Seq<char>, int, Seq<char>)>::empty(),
    decreases count,
{
    if count > 0 {
        lemma_extensions_of_empty(children, section, count - 1);
        assert(section_knows(section, children[count - 1].name@));
    }
}

/// A node whose values are those of a written element whose children's
/// names are all known to a section has no extensions there.
proof fn lemma_no_section_extensions(n: Node, w: WrittenElement, section: Section)
    requires
        node_view(n) == written_view(w),
        names_known(w.children, section),
    ensures
        section_extensions(n, section) == Seq::<(Seq<char>, int, Seq<char>)>::empty(),
{
    crate::xml::lemma_nodes_view(n.children@);
    lemma_written_views(w.children, w.children.len() as int);
    assert forall|i: int| 0 <= i < n.children@.len() implies section_knows(section, (#[trigger] n.children@[i]).name@) by {
        assert(nodes_view(n.children@)[i] == written_views(w.children, w.children.len() as int)[i]);
        assert(n.children@[i].name@ == node_view(n.children@[i]).name);
        assert(section_knows(section, w.children[i].name));
    }
    lemma_extensions_of_empty(n.children@, section, n.children@.len() as int);
}

proof fn lemma_registration_names(r: RegistrationInfo)
    ensures
        names_known(registration_elements(r), Section::Registration),
{
    let e1 = opt_element("Date"@, opt_datetime_text(r.date));
    let e2 = opt_element("Author"@, opt_view(r.author));
    let e3 = opt_element("Version"@, opt_view(r.version));
    let e4 = opt_element("Description"@, opt_view(r.description));
    let e5 = opt_element("Documentation"@, opt_view(r.documentation));
    let e6 = opt_element("URI"@, opt_view(r.uri));
    let e7 = opt_element("SecurityDescriptor"@, opt_descriptor_text(r.security_descriptor));
    let e8 = opt_element("Source"@, opt_view(r.source));
    lemma_names_known_concat(e1, e2, Section::Registration);
    lemma_names_known_concat(e1 + e2, e3, Section::Registration);
    lemma_names_known_concat(e1 + e2 + e3, e4, Section::Registration);
    lemma_names_known_concat(e1 + e2 + e3 + e4, e5, Section::Registration);
    lemma_names_known_concat(e1 + e2 + e3 + e4 + e5, e6, Section::Registration);
    lemma_names_known_concat(e1 + e2 + e3 + e4 + e5 + e6, e7, Section::Registration);
    lemma_names_known_concat(e1 + e2 + e3 + e4 + e5 + e6 + e7, e8, Section::Registration);
}

proof fn lemma_settings_start_names(s: TaskSettings)
    ensures
        names_known(settings_start_elements(s), Section::Settings),
{
    assert(names_known(settings_start_flags(s), Section::Settings));
    assert(names_known(settings_restart(s), Section::Settings));
    lemma_names_known_concat(settings_start_flags(s), settings_restart(s), Section::Settings);
}

proof fn lemma_settings_middle_names(s: TaskSettings)
    ensures
        names_known(settings_middle_elements(s), Section::Settings),
{
    assert(names_known(settings_middle_flags(s), Section::Settings));
    assert(names_known(settings_idle(s), Section::Settings));
    lemma_names_known_concat(settings_middle_flags(s), settings_idle(s), Section::Settings);
    assert(names_known(settings_idle_flag(s), Section::Settings));
    lemma_names_known_concat(settings_middle_flags(s) + settings_idle(s), settings_idle_flag(s), Section::Settings);
    assert(names_known(settings_network(s), Section::Settings));
    lemma_names_known_concat(settings_middle_flags(s) + settings_idle(s) + settings_idle_flag(s), settings_network(s), Section::Settings);
}

proof fn lemma_settings_end_names(s: TaskSettings)
    ensures
        names_known(settings_end_elements(s), Section::Settings),
{
    assert(names_known(settings_end_flags(s), Section::Settings));
    assert(names_known(settings_expiry(s), Section::Settings));
    lemma_names_known_concat(settings_end_flags(s), settings_expiry(s), Section::Settings);
    assert(names_known(settings_limits(s), Section::Settings));
    lemma_names_known_concat(settings_end_flags(s) + settings_expiry(s), settings_limits(s), Section::Settings);
    assert(names_known(settings_unified(s), Section::Settings));
    lemma_names_known_concat(settings_end_flags(s) + settings_expiry(s) + settings_limits(s), settings_unified(s), Section::Settings);
    assert(names_known(settings_remote(s), Section::Settings));
    lemma_names_known_concat(settings_end_flags(s) + settings_expiry(s) + settings_limits(s) + settings_unified(s), settings_remote(s), Section::Settings);
    assert(names_known(settings_maintenance(s), Section::Settings));
    lemma_names_known_concat(settings_end_flags(s) + settings_expiry(s) + settings_limits(s) + settings_unified(s) + settings_remote(s), settings_maintenance(s), Section::Settings);
    assert(names_known(settings_volatile(s), Section::Settings));
    lemma_names_known_concat(settings_end_flags(s) + settings_expiry(s) + settings_limits(s) + settings_unified(s) + settings_remote(s) + settings_maintenance(s), settings_volatile(s), Section::Settings);
}

proof fn lemma_settings_names(s: TaskSettings)
    ensures
        names_known(settings_written(s).children, Section::Settings),
{
    lemma_settings_start_names(s);
    lemma_settings_middle_names(s);
    lemma_settings_end_names(s);
    lemma_names_known_concat(settings_start_elements(s), settings_middle_elements(s), Section::Settings);
    lemma_names_known_concat(
        settings_start_elements(s) + settings_middle_elements(s),
        settings_end_elements(s),
        Section::Settings,
    );
}

/// Whether a definition reads back as written: no extensions, well-formed
/// registration values, a principal, settings, actions and triggers that
/// read back as written, no more actions and triggers than Task Scheduler
/// accepts, and a schema version whose text denotes it.
pub open spec fn definition_round_trips(d: TaskDefinition) -> bool {
    &&& d.extensions@.len() == 0
    &&& registration_well_formed(d.registration)
    &&& principal_round_trips(d.principal)
    &&& settings_round_trips(d.settings)
    &&& forall|i: int| 0 <= i < d.actions@.len() ==> action_round_trips(#[trigger] d.actions@[i])
    &&& forall|i: int| 0 <= i < d.triggers@.len() ==> trigger_round_trips(#[trigger] d.triggers@[i])
    &&& d.actions@.len() <= crate::MAX_ACTIONS
    &&& d.triggers@.len() <= crate::MAX_TRIGGERS
    &&& crate::model::schema_version_spec(crate::model::schema_text(d.schema_version@)) == d.schema_version@
}

proof fn lemma_no_colon(s: Seq<char>)
    requires
        !s.contains(':'),
    ensures
        local_part(s) == s,
    decreases s.len(),
{
    lemma_last_index_absent(s);
}

proof fn lemma_last_index_absent(s: Seq<char>)
    requires
        !s.contains(':'),
    ensures
        crate::path::last_index(s, ':') == -1,
    decreases s.len(),
{
    if s.len() > 0 {
        assert(s.last() == s[s.len() - 1]);
        assert(!s.drop_last().contains(':')) by {
            if s.drop_last().contains(':') {
                let i = choose|i: int| 0 <= i < s.drop_last().len() && s.drop_last()[i] == ':';
                assert(s[i] == ':');
            }
        }
        lemma_last_index_absent(s.drop_last());
    }
}

#[verifier::rlimit(100)]
proof fn lemma_root_sections(d: TaskDefinition, root: Node)
    requires
        definition_round_trips(d),
        node_view(root) == written_view(root_written(d)),
    ensures
        match child_of(root, "RegistrationInfo"@) {
            Some(r) => node_view(r) == written_view(registration_written(d.registration))
                && !crate::model::registration_is_empty(d.registration),
            None => crate::model::registration_is_empty(d.registration),
        },
        match child_of(root, "Triggers"@) {
            Some(t) => node_view(t) == written_view(triggers_written(d)) && d.triggers@.len() > 0,
            None => d.triggers@.len() == 0,
        },
        child_of(root, "Principals"@) matches Some(p) && node_view(p) == written_view(principals_written(d.principal)),
        child_of(root, "Settings"@) matches Some(x) && node_view(x) == written_view(settings_written(d.settings)),
        child_of(root, "Actions"@) matches Some(a) && node_view(a) == written_view(actions_written(d)),
        text_of(root, "Data"@) == opt_view(d.data),
        names_known(root_written(d).children, Section::Task),
{
    reveal_strlit("RegistrationInfo");
    assert("RegistrationInfo"@.len() == 16 && "RegistrationInfo"@[0] == 'R' && "RegistrationInfo"@[5] == 't');
    reveal_strlit("Triggers");
    assert("Triggers"@.len() == 8 && "Triggers"@[0] == 'T' && "Triggers"@[5] == 'e');
    reveal_strlit("Principals");
    assert("Principals"@.len() == 10 && "Principals"@[0] == 'P' && "Principals"@[5] == 'i');
    reveal_strlit("Settings");
    assert("Settings"@.len() == 8 && "Settings"@[0] == 'S' && "Settings"@[5] == 'n');
    reveal_strlit("Data");
    assert("Data"@.len() == 4 && "Data"@[0] == 'D');
    reveal_strlit("Actions");
    assert("Actions"@.len() == 7 && "Actions"@[0] == 'A' && "Actions"@[5] == 'n');
    let w = root_written(d);
    let e1 = if !crate::model::registration_is_empty(d.registration) {
        seq![registration_written(d.registration)]
    } else {
        Seq::<WrittenElement>::empty()
    };
    let e2 = if d.triggers@.len() > 0 {
        seq![triggers_written(d)]
    } else {
        Seq::<WrittenElement>::empty()
    };
    let e3 = seq![principals_written(d.principal), settings_written(d.settings)];
    let e4 = opt_element("Data"@, opt_view(d.data));
    let e5 = seq![actions_written(d)];
    lemma_first_named_empty();
    if e1.len() == 1 {
        lemma_first_named_list1(e1);
    }
    if e2.len() == 1 {
        lemma_first_named_list1(e2);
    }
    lemma_first_named_list2(e3);
    lemma_opt_element("Data"@, opt_view(d.data));
    lemma_first_named_list1(e5);
    lemma_first_named_concat(e1, e2);
    lemma_first_named_concat(e1 + e2, e3);
    lemma_first_named_concat(e1 + e2 + e3, e4);
    lemma_first_named_concat(e1 + e2 + e3 + e4, e5);
    assert(w.children == e1 + e2 + e3 + e4 + e5);
    lemma_child_of_written(root, w, "RegistrationInfo"@);
    lemma_child_of_written(root, w, "Triggers"@);
    lemma_child_of_written(root, w, "Principals"@);
    lemma_child_of_written(root, w, "Settings"@);
    lemma_child_of_written(root, w, "Data"@);
    lemma_child_of_written(root, w, "Actions"@);
    assert(names_known(e1, Section::Task));
    assert(names_known(e2, Section::Task));
    assert(names_known(e3, Section::Task));
    assert(names_known(e4, Section::Task));
    assert(names_known(e5, Section::Task));
    lemma_names_known_concat(e1, e2, Section::Task);
    lemma_names_known_concat(e1 + e2, e3, Section::Task);
    lemma_names_known_concat(e1 + e2 + e3, e4, Section::Task);
    lemma_names_known_concat(e1 + e2 + e3 + e4, e5, Section::Task);
}

proof fn lemma_plain_names()
    ensures
        local_part("version"@) == "version"@,
        local_part("xmlns"@) == "xmlns"@,
{
    reveal_strlit("version");
    reveal_strlit("xmlns");
    assert("version"@ =~= seq!['v', 'e', 'r', 's', 'i', 'o', 'n']);
    assert("xmlns"@ =~= seq!['x', 'm', 'l', 'n', 's']);
    assert forall|i: int| 0 <= i < 7 implies "version"@[i] != ':' by {}
    assert forall|i: int| 0 <= i < 5 implies "xmlns"@[i] != ':' by {}
    lemma_no_colon("version"@);
    lemma_no_colon("xmlns"@);
}

proof fn lemma_version_attr(root: Node, v: Seq<char>)
    requires
        node_view(root).attributes == attribute_values(seq![("version"@, v), ("xmlns"@, TASK_NAMESPACE@)]),
        attributes_distinct(root),
    ensures
        attr_of(root, "version"@) == Some(v),
{
    lemma_plain_names();
    reveal_strlit("version");
    reveal_strlit("xmlns");
    assert("version"@.len() == 7 && "xmlns"@.len() == 5);
    let attrs = seq![("version"@, v), ("xmlns"@, TASK_NAMESPACE@)];
    assert(attrs.drop_last() =~= seq![("version"@, v)]);
    assert(attrs.drop_last().drop_last() =~= Seq::<(Seq<char>, Seq<char>)>::empty());
    assert(attribute_values(Seq::<(Seq<char>, Seq<char>)>::empty()) == Map::<Seq<char>, Seq<char>>::empty());
    assert(attrs.drop_last().last() == ("version"@, v));
    assert(attrs.last() == ("xmlns"@, TASK_NAMESPACE@));
    assert(attribute_values(attrs.drop_last()) == attribute_values(attrs.drop_last().drop_last()).insert(
        local_part("version"@),
        v,
    ));
    assert(attribute_values(attrs) == attribute_values(attrs.drop_last()).insert(local_part("xmlns"@), TASK_NAMESPACE@));
    assert(attribute_values(attrs).dom().contains("version"@));
    assert(attribute_values(attrs)["version"@] == v);
    lemma_attr_of_view(root, "version"@);
}

proof fn lemma_root_version(d: TaskDefinition, root: Node)
    requires
        node_view(root) == written_view(root_written(d)),
        attributes_distinct(root),
    ensures
        attr_of(root, "version"@) == Some(crate::model::schema_text(d.schema_version@)),
{
    let v = crate::model::schema_text(d.schema_version@);
    assert(node_view(root).attributes == attribute_values(root_written(d).attributes));
    lemma_version_attr(root, v);
}

/// Writing a definition and reading it back. The document written for a
/// definition is the XML declaration, the markup of `root_written` and a
/// line break. Every element tree with the values of that root and distinct
/// attribute keys in each element reads back as the same definition,
/// without fault, when the definition has no extensions, its registration
/// values are well formed, its principal's logon type is written or
/// inferred from its identity and no user is named like a built-in service
/// account, its durations are well formed and no finite limit is zero, its
/// actions are command, email or message actions and its triggers have a
/// fixed schedule, there are no more actions and triggers than Task
/// Scheduler accepts, and the text of its schema version denotes it. That
/// the XML reader turns the written text into that tree is the reader's
/// part, which is not stated here.
#[verifier::rlimit(100)]
pub proof fn lemma_definition_round_trip(d: TaskDefinition, encoding: Seq<char>, root: Node)
    requires
        definition_round_trips(d),
        node_view(root) == written_view(root_written(d)),
        attributes_distinct(root),
    ensures
        definition_markup(d, encoding) == declaration(encoding) + written_markup(root_written(d)) + "\r\n"@,
        !definition_fault(root),
        definition_read(root, d),
{
    lemma_root_write(d, encoding);
    lemma_root_sections(d, root);
    lemma_root_version(d, root);
    reveal_strlit("Task");
    assert(root.name@ == node_view(root).name);
    assert(!has_extensions(d, "Task/Settings"@));
    if let Some(r) = child_of(root, "RegistrationInfo"@) {
        lemma_registration_read(d.registration, r);
        lemma_registration_names(d.registration);
        lemma_no_section_extensions(r, registration_written(d.registration), Section::Registration);
    }
    let p = child_of(root, "Principals"@)->0;
    lemma_child_distinct(root, "Principals"@);
    lemma_principal_round_trip(d.principal, p);
    let x = child_of(root, "Settings"@)->0;
    lemma_settings_round_trip(d, x);
    lemma_settings_names(d.settings);
    lemma_no_section_extensions(x, settings_written(d.settings), Section::Settings);
    if let Some(t) = child_of(root, "Triggers"@) {
        lemma_child_distinct(root, "Triggers"@);
        lemma_triggers_round_trip(d, t);
    }
    let a = child_of(root, "Actions"@)->0;
    lemma_child_distinct(root, "Actions"@);
    lemma_actions_round_trip(d, a);
    lemma_no_section_extensions(root, root_written(d), Section::Task);
    assert(d.extensions@.map_values(|e: crate::model::XmlExtension| extension_view(e)) =~= Seq::<
        (Seq<char>, int, Seq<char>),
    >::empty());
}

} // verus!
