//! Portable validation of task definitions and diagnostic reports.
use vstd::prelude::*;
use vstd::string::*;

use crate::model::trigger::seq_less;
use crate::model::action::action_id;
use crate::model::principal::{LogonType, Principal, PrincipalIdentity, RequiredPrivilege};
use crate::model::trigger::{trigger_common, Trigger};
use crate::model::{schema_generation, Action, TaskDefinition};
use crate::text::{chars_of, debug_quoted, debug_quoted_spec, decimal, push_char, str_eq, u64_to_string};

verus! {

/// Severity of a validation or diagnostic finding.
#[derive(Clone, Copy, Debug, Eq, Hash, Ord, PartialEq, PartialOrd, Structural)]
pub enum DiagnosticLevel {
    /// Informational context.
    Info,
    /// The operation is legal but surprising, deprecated, or risky.
    Warning,
    /// The requested operation cannot be performed correctly.
    Error,
}

/// Stable machine-readable diagnostic identifier.
#[derive(Clone, Debug, Eq, Hash, Ord, PartialEq, PartialOrd)]
#[non_exhaustive]
pub enum DiagnosticCode {
    /// At least one action is required.
    MissingAction,
    /// Two known elements use the same identifier.
    DuplicateId,
    /// A required string is empty.
    EmptyValue,
    /// A numeric value is outside the Task Scheduler range.
    OutOfRange,
    /// A trigger lacks a required boundary or selection.
    IncompleteTrigger,
    /// The configured identity and logon type disagree.
    PrincipalLogonMismatch,
    /// A password must be supplied separately for this operation.
    PasswordRequired,
    /// A legacy action can be preserved but not registered on modern engines.
    DeprecatedAction,
    /// The requested XML schema is too old for a selected field.
    SchemaTooOld,
    /// Updating a task can fire its registration trigger.
    RegistrationTriggerSideEffect,
    /// An opaque extension cannot be validated semantically.
    OpaqueExtension,
    /// An OS capability is missing.
    UnsupportedCapability,
    /// Task history is disabled or inaccessible.
    HistoryUnavailable,
    /// RPC or DCOM connectivity failed.
    RemoteConnectivity,
    /// The caller lacks a required right.
    InsufficientRights,
    /// Current ownership metadata conflicts with desired state.
    OwnershipConflict,
    /// A rollback would require a password that cannot be recovered.
    IrreversibleChange,
    /// Catch-all for forward-compatible diagnostic producers.
    Other(String),
}

/// One validation or environment diagnostic.
#[derive(Clone, Debug, Eq, PartialEq)]
pub struct Diagnostic {
    /// Severity.
    pub level: DiagnosticLevel,
    /// Stable code.
    pub code: DiagnosticCode,
    /// Manifest/model path or environment check name.
    pub path: String,
    /// Human-readable explanation.
    pub message: String,
    /// Concrete remediation when one is known.
    pub remediation: Option<String>,
}

/// Portable validation result for a task or desired-state document.
#[derive(Clone, Debug, Default, Eq, PartialEq)]
pub struct ValidationReport {
    /// Findings in deterministic model order.
    pub diagnostics: Vec<Diagnostic>,
}

} // verus!

verus! {

/// Mathematical view of a [`Diagnostic`].
pub struct DiagnosticView {
    /// Severity.
    pub level: DiagnosticLevel,
    /// Stable code.
    pub code: DiagnosticCode,
    /// Model path.
    pub path: Seq<char>,
    /// Explanation.
    pub message: Seq<char>,
    /// Remediation, when known.
    pub remediation: Option<Seq<char>>,
}

/// View of a diagnostic.
pub open spec fn diag_view(d: Diagnostic) -> DiagnosticView {
    DiagnosticView {
        level: d.level,
        code: d.code,
        path: d.path@,
        message: d.message@,
        remediation: crate::text::opt_view(d.remediation),
    }
}

/// The lower-case name of a severity.
pub open spec fn level_name(l: DiagnosticLevel) -> Seq<char> {
    match l {
        DiagnosticLevel::Info => "info"@,
        DiagnosticLevel::Warning => "warning"@,
        DiagnosticLevel::Error => "error"@,
    }
}

/// The snake-case name of a code; a forward-compatible code is its own text.
pub open spec fn code_name(c: DiagnosticCode) -> Seq<char> {
    match c {
        DiagnosticCode::MissingAction => "missing_action"@,
        DiagnosticCode::DuplicateId => "duplicate_id"@,
        DiagnosticCode::EmptyValue => "empty_value"@,
        DiagnosticCode::OutOfRange => "out_of_range"@,
        DiagnosticCode::IncompleteTrigger => "incomplete_trigger"@,
        DiagnosticCode::PrincipalLogonMismatch => "principal_logon_mismatch"@,
        DiagnosticCode::PasswordRequired => "password_required"@,
        DiagnosticCode::DeprecatedAction => "deprecated_action"@,
        DiagnosticCode::SchemaTooOld => "schema_too_old"@,
        DiagnosticCode::RegistrationTriggerSideEffect => "registration_trigger_side_effect"@,
        DiagnosticCode::OpaqueExtension => "opaque_extension"@,
        DiagnosticCode::UnsupportedCapability => "unsupported_capability"@,
        DiagnosticCode::HistoryUnavailable => "history_unavailable"@,
        DiagnosticCode::RemoteConnectivity => "remote_connectivity"@,
        DiagnosticCode::InsufficientRights => "insufficient_rights"@,
        DiagnosticCode::OwnershipConflict => "ownership_conflict"@,
        DiagnosticCode::IrreversibleChange => "irreversible_change"@,
        DiagnosticCode::Other(s) => s@,
    }
}

/// A finding as people read it: `level[code] path: message`, and the
/// remediation on an indented line of its own when one is known.
pub open spec fn diagnostic_text(d: DiagnosticView) -> Seq<char> {
    level_name(d.level) + "["@ + code_name(d.code) + "] "@ + d.path + ": "@ + d.message + match d.remediation {
        Some(r) => "\n  remediation: "@ + r,
        None => Seq::<char>::empty(),
    }
}

impl DiagnosticLevel {
    /// The lower-case name of the severity.
    pub fn name(&self) -> (s: &'static str)
        ensures
            s@ == level_name(*self),
    {
        match self {
            DiagnosticLevel::Info => "info",
            DiagnosticLevel::Warning => "warning",
            DiagnosticLevel::Error => "error",
        }
    }
}

impl DiagnosticCode {
    /// The snake-case name of the code.
    pub fn name(&self) -> (s: String)
        ensures
            s@ == code_name(*self),
    {
        match self {
            DiagnosticCode::MissingAction => "missing_action".to_owned(),
            DiagnosticCode::DuplicateId => "duplicate_id".to_owned(),
            DiagnosticCode::EmptyValue => "empty_value".to_owned(),
            DiagnosticCode::OutOfRange => "out_of_range".to_owned(),
            DiagnosticCode::IncompleteTrigger => "incomplete_trigger".to_owned(),
            DiagnosticCode::PrincipalLogonMismatch => "principal_logon_mismatch".to_owned(),
            DiagnosticCode::PasswordRequired => "password_required".to_owned(),
            DiagnosticCode::DeprecatedAction => "deprecated_action".to_owned(),
            DiagnosticCode::SchemaTooOld => "schema_too_old".to_owned(),
            DiagnosticCode::RegistrationTriggerSideEffect => "registration_trigger_side_effect".to_owned(),
            DiagnosticCode::OpaqueExtension => "opaque_extension".to_owned(),
            DiagnosticCode::UnsupportedCapability => "unsupported_capability".to_owned(),
            DiagnosticCode::HistoryUnavailable => "history_unavailable".to_owned(),
            DiagnosticCode::RemoteConnectivity => "remote_connectivity".to_owned(),
            DiagnosticCode::InsufficientRights => "insufficient_rights".to_owned(),
            DiagnosticCode::OwnershipConflict => "ownership_conflict".to_owned(),
            DiagnosticCode::IrreversibleChange => "irreversible_change".to_owned(),
            DiagnosticCode::Other(s) => s.clone(),
        }
    }
}

impl Diagnostic {
    /// The finding as people read it.
    pub fn to_string(&self) -> (s: String)
        ensures
            s@ == diagnostic_text(diag_view(*self)),
    {
        let mut s = self.level.name().to_owned();
        s.append("[");
        s.append(self.code.name().as_str());
        s.append("] ");
        s.append(self.path.as_str());
        s.append(": ");
        s.append(self.message.as_str());
        if let Some(r) = &self.remediation {
            s.append("\n  remediation: ");
            s.append(r.as_str());
        }
        s
    }
}

/// Views of a list of diagnostics.
pub open spec fn diags_view(ds: Seq<Diagnostic>) -> Seq<DiagnosticView> {
    ds.map_values(|d: Diagnostic| diag_view(d))
}

/// The standard remediation of a code.
pub open spec fn remediation_spec(code: DiagnosticCode) -> Seq<char> {
    match code {
        DiagnosticCode::MissingAction => "Add at least one Exec or COM handler action."@,
        DiagnosticCode::DuplicateId => "Assign a unique identifier to each sibling element."@,
        DiagnosticCode::EmptyValue => "Supply a non-empty value for the indicated field."@,
        DiagnosticCode::OutOfRange => "Set the field within the range stated in the diagnostic."@,
        DiagnosticCode::IncompleteTrigger => "Supply the missing boundary and schedule selections for this trigger."@,
        DiagnosticCode::PrincipalLogonMismatch => "Choose an identity and logon type that describe the same user, group or service account."@,
        DiagnosticCode::PasswordRequired => "Provide the registration password through a credential resolver, not through the definition."@,
        DiagnosticCode::DeprecatedAction => "Replace the legacy action with an Exec or COM handler action supported by the target."@,
        DiagnosticCode::SchemaTooOld => "Raise the schema version on a compatible target or remove the newer field."@,
        DiagnosticCode::RegistrationTriggerSideEffect => "Suppress registration triggers unless their execution is intended."@,
        DiagnosticCode::OpaqueExtension => "Preserve the raw XML and validate the extension against the target scheduler."@,
        _ => "Inspect the indicated field and correct the condition described before retrying."@,
    }
}

impl DiagnosticCode {
    /// The standard remediation hint of this code.
    pub fn remediation(&self) -> (r: &'static str)
        ensures
            r@ == remediation_spec(*self),
    {
        match self {
            DiagnosticCode::MissingAction => "Add at least one Exec or COM handler action.",
            DiagnosticCode::DuplicateId => "Assign a unique identifier to each sibling element.",
            DiagnosticCode::EmptyValue => "Supply a non-empty value for the indicated field.",
            DiagnosticCode::OutOfRange => "Set the field within the range stated in the diagnostic.",
            DiagnosticCode::IncompleteTrigger => "Supply the missing boundary and schedule selections for this trigger.",
            DiagnosticCode::PrincipalLogonMismatch => "Choose an identity and logon type that describe the same user, group or service account.",
            DiagnosticCode::PasswordRequired => "Provide the registration password through a credential resolver, not through the definition.",
            DiagnosticCode::DeprecatedAction => "Replace the legacy action with an Exec or COM handler action supported by the target.",
            DiagnosticCode::SchemaTooOld => "Raise the schema version on a compatible target or remove the newer field.",
            DiagnosticCode::RegistrationTriggerSideEffect => "Suppress registration triggers unless their execution is intended.",
            DiagnosticCode::OpaqueExtension => "Preserve the raw XML and validate the extension against the target scheduler.",
            _ => "Inspect the indicated field and correct the condition described before retrying.",
        }
    }
}

/// A finding with the standard remediation of its code.
pub open spec fn finding(level: DiagnosticLevel, code: DiagnosticCode, path: Seq<char>, message: Seq<char>) -> DiagnosticView {
    DiagnosticView { level, code, path, message, remediation: Some(remediation_spec(code)) }
}

impl Diagnostic {
    /// An error finding with the standard remediation of its code.
    pub fn error(code: DiagnosticCode, path: &str, message: &str) -> (d: Self)
        ensures
            diag_view(d) == finding(DiagnosticLevel::Error, code, path@, message@),
    {
        let remediation = Some(code.remediation().to_owned());
        Diagnostic {
            level: DiagnosticLevel::Error,
            code,
            path: path.to_owned(),
            message: message.to_owned(),
            remediation,
        }
    }

    /// A warning finding with the standard remediation of its code.
    pub fn warning(code: DiagnosticCode, path: &str, message: &str) -> (d: Self)
        ensures
            diag_view(d) == finding(DiagnosticLevel::Warning, code, path@, message@),
    {
        let remediation = Some(code.remediation().to_owned());
        Diagnostic {
            level: DiagnosticLevel::Warning,
            code,
            path: path.to_owned(),
            message: message.to_owned(),
            remediation,
        }
    }

    /// Attaches a remediation hint.
    pub fn with_remediation(self, remediation: &str) -> (d: Self)
        ensures
            diag_view(d) == (DiagnosticView { remediation: Some(remediation@), ..diag_view(self) }),
    {
        let mut d = self;
        d.remediation = Some(remediation.to_owned());
        d
    }
}

/// Whether any diagnostic is an error.
pub open spec fn has_error(ds: Seq<Diagnostic>) -> bool {
    exists|i: int| 0 <= i < ds.len() && ds[i].level == DiagnosticLevel::Error
}

/// Diagnostics of one severity, in order.
pub open spec fn of_level(ds: Seq<Diagnostic>, level: DiagnosticLevel) -> Seq<Diagnostic> {
    ds.filter(|d: Diagnostic| d.level == level)
}

fn filter_level(ds: &[Diagnostic], level: DiagnosticLevel) -> (r: Vec<&Diagnostic>)
    ensures
        r@.map_values(|d: &Diagnostic| *d) == of_level(ds@, level),
{
    let mut r: Vec<&Diagnostic> = Vec::new();
    let mut i: usize = 0;
    while i < ds.len()
        invariant
            i <= ds.len(),
            r@.map_values(|d: &Diagnostic| *d) == of_level(ds@.take(i as int), level),
        decreases ds.len() - i,
    {
        let ghost before = r@;
        if ds[i].level == level {
            r.push(&ds[i]);
        }
        proof {
            let pred = |d: Diagnostic| d.level == level;
            assert(ds@.take(i + 1).drop_last() =~= ds@.take(i as int));
            reveal_with_fuel(Seq::filter, 1);
            assert(r@.map_values(|d: &Diagnostic| *d) =~= of_level(ds@.take(i + 1), level));
        }
        i += 1;
    }
    proof {
        assert(ds@.take(ds.len() as int) =~= ds@);
    }
    r
}

fn any_error(ds: &[Diagnostic]) -> (r: bool)
    ensures
        r == has_error(ds@),
{
    let mut i: usize = 0;
    while i < ds.len()
        invariant
            i <= ds.len(),
            forall|j: int| 0 <= j < i ==> ds@[j].level != DiagnosticLevel::Error,
        decreases ds.len() - i,
    {
        if ds[i].level == DiagnosticLevel::Error {
            return true;
        }
        i += 1;
    }
    false
}

impl ValidationReport {
    /// An empty report.
    pub fn new() -> (r: Self)
        ensures
            r.diagnostics@.len() == 0,
    {
        ValidationReport { diagnostics: Vec::new() }
    }

    /// Whether no errors were found.
    pub fn is_valid(&self) -> (v: bool)
        ensures
            v == !has_error(self.diagnostics@),
    {
        !any_error(self.diagnostics.as_slice())
    }

    /// Error findings only, in order.
    pub fn errors(&self) -> (r: Vec<&Diagnostic>)
        ensures
            r@.map_values(|d: &Diagnostic| *d) == of_level(self.diagnostics@, DiagnosticLevel::Error),
    {
        filter_level(self.diagnostics.as_slice(), DiagnosticLevel::Error)
    }

    /// Warning findings only, in order.
    pub fn warnings(&self) -> (r: Vec<&Diagnostic>)
        ensures
            r@.map_values(|d: &Diagnostic| *d) == of_level(self.diagnostics@, DiagnosticLevel::Warning),
    {
        filter_level(self.diagnostics.as_slice(), DiagnosticLevel::Warning)
    }

    /// Appends one finding.
    pub fn push(&mut self, diagnostic: Diagnostic)
        ensures
            final(self).diagnostics@ == old(self).diagnostics@.push(diagnostic),
    {
        self.diagnostics.push(diagnostic);
    }
}

/// Read-only environment and connectivity diagnostics.
#[derive(Clone, Debug, Default, Eq, PartialEq)]
pub struct DiagnosticReport {
    /// Computer or endpoint that was inspected.
    pub target: Option<String>,
    /// Findings in check order.
    pub diagnostics: Vec<Diagnostic>,
}

impl DiagnosticReport {
    /// Whether every required check succeeded.
    pub fn is_healthy(&self) -> (h: bool)
        ensures
            h == !has_error(self.diagnostics@),
    {
        !any_error(self.diagnostics.as_slice())
    }
}

} // verus!

verus! {

/// `s` with `x` inserted in lexicographic order, unless already present.
pub open spec fn insert_sorted(s: Seq<Seq<char>>, x: Seq<char>) -> Seq<Seq<char>>
    decreases s.len(),
{
    if s.len() == 0 {
        seq![x]
    } else if s[0] == x {
        s
    } else if seq_less(x, s[0]) {
        seq![x] + s
    } else {
        seq![s[0]] + insert_sorted(s.drop_first(), x)
    }
}

/// The identifiers that occur more than once, each once, in lexicographic order.
pub open spec fn dup_ids(ids: Seq<Seq<char>>) -> Seq<Seq<char>>
    decreases ids.len(),
{
    if ids.len() == 0 {
        Seq::empty()
    } else {
        let prev = dup_ids(ids.drop_last());
        if ids.drop_last().contains(ids.last()) {
            insert_sorted(prev, ids.last())
        } else {
            prev
        }
    }
}

/// Lexicographic comparison of two strings by code point.
pub fn str_less(a: &str, b: &str) -> (r: bool)
    ensures
        r == seq_less(a@, b@),
{
    let x = chars_of(a);
    let y = chars_of(b);
    let mut i: usize = 0;
    proof {
        assert(a@.skip(0) =~= a@);
        assert(b@.skip(0) =~= b@);
    }
    while i < x.len() && i < y.len() && x[i] == y[i]
        invariant
            i <= x.len(),
            i <= y.len(),
            x@ == a@,
            y@ == b@,
            seq_less(a@, b@) == seq_less(a@.skip(i as int), b@.skip(i as int)),
        decreases x.len() - i,
    {
        proof {
            assert(a@.skip(i as int).drop_first() =~= a@.skip(i + 1));
            assert(b@.skip(i as int).drop_first() =~= b@.skip(i + 1));
        }
        i += 1;
    }
    proof {
        if i < x.len() {
            assert(a@.skip(i as int)[0] == x@[i as int]);
        }
        if i < y.len() {
            assert(b@.skip(i as int)[0] == y@[i as int]);
        }
    }
    if i == x.len() {
        i < y.len()
    } else if i == y.len() {
        false
    } else {
        (x[i] as u32) < (y[i] as u32)
    }
}

fn insert_sorted_exec(v: &mut Vec<String>, x: String)
    ensures
        final(v)@.map_values(|s: String| s@) == insert_sorted(old(v)@.map_values(|s: String| s@), x@),
{
    let ghost views = v@.map_values(|s: String| s@);
    let mut i: usize = 0;
    let mut present = false;
    proof {
        assert(views.skip(0) =~= views);
        assert(views.take(0) =~= Seq::<Seq<char>>::empty());
    }
    while i < v.len()
        invariant
            i <= v.len(),
            views == v@.map_values(|s: String| s@),
            insert_sorted(views, x@) == views.take(i as int) + insert_sorted(views.skip(i as int), x@),
            present ==> i < v.len() && views[i as int] == x@,
        ensures
            insert_sorted(views, x@) == views.take(i as int) + insert_sorted(views.skip(i as int), x@),
            i <= v.len(),
            views == v@.map_values(|s: String| s@),
            present ==> i < v.len() && views[i as int] == x@,
            !present && i < v.len() ==> seq_less(x@, views[i as int]),
        decreases v.len() - i,
    {
        proof {
            assert(views.skip(i as int)[0] == v@[i as int]@);
            assert(views.skip(i as int).drop_first() =~= views.skip(i + 1));
        }
        if str_eq(v[i].as_str(), x.as_str()) {
            present = true;
            break;
        }
        if str_less(x.as_str(), v[i].as_str()) {
            break;
        }
        proof {
            assert(views.take(i + 1) =~= views.take(i as int) + seq![views[i as int]]);
            assert(insert_sorted(views, x@) =~= views.take(i + 1) + insert_sorted(views.skip(i + 1), x@));
        }
        i += 1;
    }
    if present {
        proof {
            assert(views.skip(i as int)[0] == x@);
            assert(views.take(i as int) + views.skip(i as int) =~= views);
        }
    } else if i < v.len() {
        proof {
            assert(views.skip(i as int)[0] == views[i as int]);
            assert(views.skip(i as int)[0] != x@) by {
                if views[i as int] == x@ {
                    lemma_seq_less_irreflexive(x@);
                }
            }
        }
        v.insert(i, x);
        proof {
            assert(v@.map_values(|s: String| s@) =~= views.take(i as int) + (seq![x@] + views.skip(i as int)));
        }
    } else {
        v.push(x);
        proof {
            assert(views.skip(i as int) =~= Seq::<Seq<char>>::empty());
            assert(views.take(i as int) =~= views);
            assert(v@.map_values(|s: String| s@) =~= views + seq![x@]);
        }
    }
}

/// No string is less than itself.
pub proof fn lemma_seq_less_irreflexive(a: Seq<char>)
    ensures
        !seq_less(a, a),
    decreases a.len(),
{
    if a.len() > 0 {
        lemma_seq_less_irreflexive(a.drop_first());
    }
}

fn contains_str(v: &[String], x: &str) -> (r: bool)
    ensures
        r == v@.map_values(|s: String| s@).contains(x@),
{
    let mut i: usize = 0;
    while i < v.len()
        invariant
            i <= v.len(),
            forall|j: int| 0 <= j < i ==> v@[j]@ != x@,
        decreases v.len() - i,
    {
        if str_eq(v[i].as_str(), x) {
            proof {
                assert(v@.map_values(|s: String| s@)[i as int] == x@);
            }
            return true;
        }
        i += 1;
    }
    proof {
        if v@.map_values(|s: String| s@).contains(x@) {
            let m = v@.map_values(|s: String| s@);
            let j = choose|j: int| 0 <= j < m.len() && #[trigger] m[j] == x@;
            assert(v@[j]@ == x@);
        }
    }
    false
}

/// Identifiers that occur more than once, each once, in lexicographic order.
pub fn duplicate_ids(values: &[String]) -> (r: Vec<String>)
    ensures
        r@.map_values(|s: String| s@) == dup_ids(values@.map_values(|s: String| s@)),
{
    let ghost ids = values@.map_values(|s: String| s@);
    let mut duplicates: Vec<String> = Vec::new();
    let mut i: usize = 0;
    while i < values.len()
        invariant
            i <= values.len(),
            ids == values@.map_values(|s: String| s@),
            duplicates@.map_values(|s: String| s@) == dup_ids(ids.take(i as int)),
        decreases values.len() - i,
    {
        let seen = contains_str(slice_prefix(values, i), values[i].as_str());
        proof {
            assert(ids.take(i + 1).drop_last() =~= ids.take(i as int));
            assert(ids.take(i + 1).last() == values@[i as int]@);
            assert(slice_prefix_view(values@, i as int) =~= ids.take(i as int));
        }
        if seen {
            insert_sorted_exec(&mut duplicates, values[i].clone());
        }
        i += 1;
    }
    proof {
        assert(ids.take(values.len() as int) =~= ids);
    }
    duplicates
}

/// Views of the first `n` strings.
pub open spec fn slice_prefix_view(v: Seq<String>, n: int) -> Seq<Seq<char>> {
    v.take(n).map_values(|s: String| s@)
}

fn slice_prefix(v: &[String], n: usize) -> (r: &[String])
    requires
        n <= v.len(),
    ensures
        r@ == v@.take(n as int),
{
    crate::text::slice_subrange_strings(v, 0, n)
}

} // verus!

verus! {

/// `prefix[index]suffix`.
pub open spec fn indexed_path(prefix: Seq<char>, index: nat, suffix: Seq<char>) -> Seq<char> {
    prefix + seq!['['] + decimal(index) + seq![']'] + suffix
}

pub(crate) fn indexed(prefix: &str, index: usize, suffix: &str) -> (s: String)
    ensures
        s@ == indexed_path(prefix@, index as nat, suffix@),
{
    let mut s = prefix.to_owned();
    push_char(&mut s, '[');
    s.append(u64_to_string(index as u64).as_str());
    push_char(&mut s, ']');
    s.append(suffix);
    s
}

/// Identifiers of the actions that have one, in order.
pub open spec fn action_ids(actions: Seq<Action>) -> Seq<Seq<char>>
    decreases actions.len(),
{
    if actions.len() == 0 {
        Seq::empty()
    } else {
        let prev = action_ids(actions.drop_last());
        match action_id(actions.last()) {
            Some(id) => prev.push(id),
            None => prev,
        }
    }
}

/// Identifier of a trigger, when it is a known kind and has one.
pub open spec fn trigger_id(t: Trigger) -> Option<Seq<char>> {
    match trigger_common(t) {
        Some(c) => crate::text::opt_view(c.id),
        None => None,
    }
}

/// Identifiers of the triggers that have one, in order.
pub open spec fn trigger_ids(triggers: Seq<Trigger>) -> Seq<Seq<char>>
    decreases triggers.len(),
{
    if triggers.len() == 0 {
        Seq::empty()
    } else {
        let prev = trigger_ids(triggers.drop_last());
        match trigger_id(triggers.last()) {
            Some(id) => prev.push(id),
            None => prev,
        }
    }
}

/// Views of a list with one more diagnostic.
pub proof fn lemma_diags_push(ds: Seq<Diagnostic>, d: Diagnostic)
    ensures
        diags_view(ds.push(d)) == diags_view(ds).push(diag_view(d)),
{
    assert(diags_view(ds.push(d)) =~= diags_view(ds).push(diag_view(d)));
}

/// One finding per duplicated identifier.
pub open spec fn duplicate_findings(dups: Seq<Seq<char>>, path: Seq<char>, what: Seq<char>) -> Seq<DiagnosticView>
    decreases dups.len(),
{
    if dups.len() == 0 {
        Seq::empty()
    } else {
        duplicate_findings(dups.drop_last(), path, what).push(
            finding(DiagnosticLevel::Error, DiagnosticCode::DuplicateId, path, what + debug_quoted_spec(dups.last())),
        )
    }
}

fn collect_action_ids(actions: &[Action]) -> (r: Vec<String>)
    ensures
        r@.map_values(|s: String| s@) == action_ids(actions@),
{
    let mut r: Vec<String> = Vec::new();
    let mut i: usize = 0;
    while i < actions.len()
        invariant
            i <= actions.len(),
            r@.map_values(|s: String| s@) == action_ids(actions@.take(i as int)),
        decreases actions.len() - i,
    {
        proof {
            assert(actions@.take(i + 1).drop_last() =~= actions@.take(i as int));
        }
        match actions[i].id() {
            Some(id) => {
                r.push(id.to_owned());
                proof {
                    assert(r@.map_values(|s: String| s@) =~= action_ids(actions@.take(i as int)).push(id@));
                }
            },
            None => {},
        }
        i += 1;
    }
    proof {
        assert(actions@.take(actions.len() as int) =~= actions@);
    }
    r
}

fn collect_trigger_ids(triggers: &[Trigger]) -> (r: Vec<String>)
    ensures
        r@.map_values(|s: String| s@) == trigger_ids(triggers@),
{
    let mut r: Vec<String> = Vec::new();
    let mut i: usize = 0;
    while i < triggers.len()
        invariant
            i <= triggers.len(),
            r@.map_values(|s: String| s@) == trigger_ids(triggers@.take(i as int)),
        decreases triggers.len() - i,
    {
        proof {
            assert(triggers@.take(i + 1).drop_last() =~= triggers@.take(i as int));
        }
        match triggers[i].common() {
            Some(common) => match &common.id {
                Some(id) => {
                    r.push(id.clone());
                    proof {
                        assert(r@.map_values(|s: String| s@) =~= trigger_ids(triggers@.take(i as int)).push(id@));
                    }
                },
                None => {},
            },
            None => {},
        }
        i += 1;
    }
    proof {
        assert(triggers@.take(triggers.len() as int) =~= triggers@);
    }
    r
}

fn push_duplicates(report: &mut ValidationReport, dups: &[String], path: &str, what: &str)
    ensures
        diags_view(final(report).diagnostics@) == diags_view(old(report).diagnostics@)
            + duplicate_findings(dups@.map_values(|s: String| s@), path@, what@),
{
    let ghost views = dups@.map_values(|s: String| s@);
    let mut i: usize = 0;
    while i < dups.len()
        invariant
            i <= dups.len(),
            views == dups@.map_values(|s: String| s@),
            diags_view(report.diagnostics@) == diags_view(old(report).diagnostics@)
                + duplicate_findings(views.take(i as int), path@, what@),
        decreases dups.len() - i,
    {
        let mut message = what.to_owned();
        message.append(debug_quoted(dups[i].as_str()).as_str());
        let d = Diagnostic::error(DiagnosticCode::DuplicateId, path, message.as_str());
        let ghost before = report.diagnostics@;
        report.push(d);
        proof {
            lemma_diags_push(before, d);
            assert(views.take(i + 1).last() == dups@[i as int]@);
            assert(views.take(i + 1).drop_last() =~= views.take(i as int));
            assert(diags_view(report.diagnostics@) =~= diags_view(old(report).diagnostics@)
                + duplicate_findings(views.take(i + 1), path@, what@));
        }
        i += 1;
    }
    proof {
        assert(views.take(dups.len() as int) =~= views);
    }
}

/// Whether a principal's identity agrees with its logon type.
pub open spec fn identity_matches(p: Principal) -> bool {
    match p.logon_type {
        LogonType::Unspecified => true,
        LogonType::Password | LogonType::InteractiveToken | LogonType::S4u
        | LogonType::InteractiveTokenOrPassword => p.identity is User,
        LogonType::Group => p.identity is Group,
        LogonType::ServiceAccount => p.identity is ServiceAccount,
    }
}

/// Findings for privileges listed again after an earlier equal entry.
pub open spec fn privilege_findings(ps: Seq<RequiredPrivilege>) -> Seq<DiagnosticView>
    decreases ps.len(),
{
    if ps.len() == 0 {
        Seq::empty()
    } else {
        let prev = privilege_findings(ps.drop_last());
        let i = ps.len() - 1;
        if exists|j: int| 0 <= j < i && ps[j]@ == ps[i]@ {
            prev.push(
                finding(
                    DiagnosticLevel::Error,
                    DiagnosticCode::DuplicateId,
                    indexed_path("principal.required_privileges"@, i as nat, Seq::empty()),
                    "duplicate privilege "@ + debug_quoted_spec(ps[i]@),
                ),
            )
        } else {
            prev
        }
    }
}

/// Findings about the principal.
pub open spec fn principal_findings(p: Principal) -> Seq<DiagnosticView> {
    let empty_id = if p.id@.len() == 0 {
        seq![finding(DiagnosticLevel::Error, DiagnosticCode::EmptyValue, "principal.id"@, "principal id cannot be empty"@)]
    } else {
        Seq::empty()
    };
    let mismatch = if !identity_matches(p) {
        seq![finding(DiagnosticLevel::Error, DiagnosticCode::PrincipalLogonMismatch, "principal"@, "principal identity does not match its logon type"@)]
    } else {
        Seq::empty()
    };
    empty_id + mismatch + privilege_findings(p.required_privileges@)
}

fn validate_principal(principal: &Principal, report: &mut ValidationReport)
    ensures
        diags_view(final(report).diagnostics@) == diags_view(old(report).diagnostics@)
            + principal_findings(*principal),
{
    if principal.id.as_str().unicode_len() == 0 {
        report.push(Diagnostic::error(DiagnosticCode::EmptyValue, "principal.id", "principal id cannot be empty"));
    }
    let identity_ok = match principal.logon_type {
        LogonType::Unspecified => true,
        LogonType::Password | LogonType::InteractiveToken | LogonType::S4u
        | LogonType::InteractiveTokenOrPassword => matches!(principal.identity, PrincipalIdentity::User(_)),
        LogonType::Group => matches!(principal.identity, PrincipalIdentity::Group(_)),
        LogonType::ServiceAccount => matches!(principal.identity, PrincipalIdentity::ServiceAccount(_)),
    };
    if !identity_ok {
        report.push(
            Diagnostic::error(
                DiagnosticCode::PrincipalLogonMismatch,
                "principal",
                "principal identity does not match its logon type",
            ),
        );
    }
    let ghost base = diags_view(report.diagnostics@);
    let ps = &principal.required_privileges;
    let mut i: usize = 0;
    while i < ps.len()
        invariant
            i <= ps.len(),
            diags_view(report.diagnostics@) == base + privilege_findings(ps@.take(i as int)),
        decreases ps.len() - i,
    {
        let mut seen = false;
        let mut j: usize = 0;
        while j < i
            invariant
                j <= i,
                i < ps.len(),
                seen <==> exists|k: int| 0 <= k < j && ps@[k]@ == ps@[i as int]@,
            decreases i - j,
        {
            if str_eq(ps[j].as_str(), ps[i].as_str()) {
                seen = true;
            }
            j += 1;
        }
        proof {
            let t = ps@.take(i + 1);
            assert(t.drop_last() =~= ps@.take(i as int));
            assert(t[i as int] == ps@[i as int]);
            assert((exists|k: int| 0 <= k < i && t[k]@ == t[i as int]@) == seen) by {
                if seen {
                    let k = choose|k: int| 0 <= k < i && ps@[k]@ == ps@[i as int]@;
                    assert(t[k] == ps@[k]);
                }
                if exists|k: int| 0 <= k < i && t[k]@ == t[i as int]@ {
                    let k = choose|k: int| 0 <= k < i && t[k]@ == t[i as int]@;
                    assert(t[k] == ps@[k]);
                }
            }
        }
        if seen {
            let path = indexed("principal.required_privileges", i, "");
            let mut message = "duplicate privilege ".to_owned();
            message.append(debug_quoted(ps[i].as_str()).as_str());
            let d = Diagnostic::error(DiagnosticCode::DuplicateId, path.as_str(), message.as_str());
            let ghost before = report.diagnostics@;
            report.push(d);
            proof {
                reveal_strlit("");
                lemma_diags_push(before, d);
                assert(""@ =~= Seq::<char>::empty());
            }
        }
        proof {
            assert(diags_view(report.diagnostics@) =~= base + privilege_findings(ps@.take(i + 1)));
        }
        i += 1;
    }
    proof {
        assert(ps@.take(ps.len() as int) =~= ps@);
        assert(diags_view(report.diagnostics@) =~= diags_view(old(report).diagnostics@) + principal_findings(*principal));
    }
}

} // verus!

verus! {

/// Findings about one action at `index`.
pub open spec fn action_findings_at(a: Action, index: nat) -> Seq<DiagnosticView> {
    match a {
        Action::Exec(x) => if x.command@.len() == 0 {
            seq![finding(DiagnosticLevel::Error, DiagnosticCode::EmptyValue, indexed_path("actions"@, index, ".command"@), "an exec command cannot be empty"@)]
        } else {
            Seq::empty()
        },
        Action::Email(_) | Action::ShowMessage(_) => seq![
            DiagnosticView {
                remediation: Some("replace the legacy action with Exec or ComHandler"@),
                ..finding(DiagnosticLevel::Warning, DiagnosticCode::DeprecatedAction, indexed_path("actions"@, index, Seq::empty()),
                    "Email and ShowMessage actions are retained for round trips but unsupported by modern Windows"@)
            },
        ],
        Action::Unknown(_) => seq![finding(DiagnosticLevel::Warning, DiagnosticCode::OpaqueExtension, indexed_path("actions"@, index, Seq::empty()), "an unknown action cannot be validated semantically"@)],
        Action::ComHandler(_) => Seq::empty(),
    }
}

/// Findings about every action, in order.
pub open spec fn actions_findings(actions: Seq<Action>) -> Seq<DiagnosticView>
    decreases actions.len(),
{
    if actions.len() == 0 {
        Seq::empty()
    } else {
        actions_findings(actions.drop_last()) + action_findings_at(actions.last(), (actions.len() - 1) as nat)
    }
}

fn validate_action(action: &Action, index: usize, report: &mut ValidationReport)
    ensures
        diags_view(final(report).diagnostics@) == diags_view(old(report).diagnostics@)
            + action_findings_at(*action, index as nat),
{
    proof {
        reveal_strlit("");
        assert(""@ =~= Seq::<char>::empty());
    }
    let ghost before = report.diagnostics@;
    match action {
        Action::Exec(x) => {
            if x.command.as_str().unicode_len() == 0 {
                let path = indexed("actions", index, ".command");
                let d = Diagnostic::error(DiagnosticCode::EmptyValue, path.as_str(), "an exec command cannot be empty");
                report.push(d);
                proof {
                    lemma_diags_push(before, d);
                }
            } else {
                proof {
                    assert(diags_view(report.diagnostics@) =~= diags_view(before) + Seq::<DiagnosticView>::empty());
                }
            }
        },
        Action::Email(_) | Action::ShowMessage(_) => {
            let path = indexed("actions", index, "");
            let d = Diagnostic::warning(
                DiagnosticCode::DeprecatedAction,
                path.as_str(),
                "Email and ShowMessage actions are retained for round trips but unsupported by modern Windows",
            ).with_remediation("replace the legacy action with Exec or ComHandler");
            report.push(d);
            proof {
                lemma_diags_push(before, d);
            }
        },
        Action::Unknown(_) => {
            let path = indexed("actions", index, "");
            let d = Diagnostic::warning(
                DiagnosticCode::OpaqueExtension,
                path.as_str(),
                "an unknown action cannot be validated semantically",
            );
            report.push(d);
            proof {
                lemma_diags_push(before, d);
            }
        },
        Action::ComHandler(_) => {
            proof {
                assert(diags_view(report.diagnostics@) =~= diags_view(before) + Seq::<DiagnosticView>::empty());
            }
        },
    }
}

fn validate_actions(actions: &[Action], report: &mut ValidationReport)
    ensures
        diags_view(final(report).diagnostics@) == diags_view(old(report).diagnostics@)
            + actions_findings(actions@),
{
    let ghost base = diags_view(report.diagnostics@);
    let mut i: usize = 0;
    while i < actions.len()
        invariant
            i <= actions.len(),
            diags_view(report.diagnostics@) == base + actions_findings(actions@.take(i as int)),
        decreases actions.len() - i,
    {
        validate_action(&actions[i], i, report);
        proof {
            assert(actions@.take(i + 1).drop_last() =~= actions@.take(i as int));
            assert(diags_view(report.diagnostics@) =~= base + actions_findings(actions@.take(i + 1)));
        }
        i += 1;
    }
    proof {
        assert(actions@.take(actions.len() as int) =~= actions@);
    }
}

/// Whether every selected day number lies in 1 through 31.
pub open spec fn days_in_range(days: Seq<u8>) -> bool {
    forall|i: int| 0 <= i < days.len() ==> 1 <= #[trigger] days[i] <= 31
}

/// The finding specific to the kind of a trigger, if any.
pub open spec fn trigger_kind_findings(t: Trigger, index: nat) -> Seq<DiagnosticView> {
    let path = indexed_path("triggers"@, index, Seq::empty());
    match t {
        Trigger::Time(v) => if v.common.start_boundary is None {
            seq![finding(DiagnosticLevel::Error, DiagnosticCode::IncompleteTrigger, path + ".start_boundary"@, "a time trigger requires a start boundary"@)]
        } else {
            Seq::empty()
        },
        Trigger::Daily(v) => if v.days_interval == 0 {
            seq![finding(DiagnosticLevel::Error, DiagnosticCode::OutOfRange, path + ".days_interval"@, "daily interval must be at least one"@)]
        } else {
            Seq::empty()
        },
        Trigger::Weekly(v) => if v.weeks_interval == 0 || v.days_of_week@.len() == 0 {
            seq![finding(DiagnosticLevel::Error, DiagnosticCode::IncompleteTrigger, path, "a weekly trigger requires a non-zero interval and at least one weekday"@)]
        } else {
            Seq::empty()
        },
        Trigger::Monthly(v) => if v.months@.len() == 0 || (v.days_of_month@.len() == 0 && !v.run_on_last_day)
            || !days_in_range(v.days_of_month@) {
            seq![finding(DiagnosticLevel::Error, DiagnosticCode::IncompleteTrigger, path, "a monthly trigger needs valid days and at least one month"@)]
        } else {
            Seq::empty()
        },
        Trigger::MonthlyDow(v) => if v.months@.len() == 0 || v.days_of_week@.len() == 0
            || (v.weeks_of_month@.len() == 0 && !v.run_on_last_week) {
            seq![finding(DiagnosticLevel::Error, DiagnosticCode::IncompleteTrigger, path, "a monthly day-of-week trigger needs months, weekdays, and week ordinals"@)]
        } else {
            Seq::empty()
        },
        Trigger::Event(v) => if v.subscription@.len() == 0 {
            seq![finding(DiagnosticLevel::Error, DiagnosticCode::EmptyValue, path + ".subscription"@, "an event trigger requires an XPath subscription"@)]
        } else {
            Seq::empty()
        },
        Trigger::Registration(_) => seq![
            DiagnosticView {
                remediation: Some("keep ignore_registration_triggers enabled during reconciliation"@),
                ..finding(DiagnosticLevel::Warning, DiagnosticCode::RegistrationTriggerSideEffect, path, "registering or updating the task can execute it"@)
            },
        ],
        Trigger::Unknown(_) => seq![finding(DiagnosticLevel::Warning, DiagnosticCode::OpaqueExtension, path, "an unknown trigger cannot be validated semantically"@)],
        _ => Seq::empty(),
    }
}

/// Findings about one trigger at `index`: a zero repetition interval,
/// then the finding specific to its kind.
pub open spec fn trigger_findings_at(t: Trigger, index: nat) -> Seq<DiagnosticView> {
    let path = indexed_path("triggers"@, index, Seq::empty());
    let repetition = match trigger_common(t) {
        Some(c) => match c.repetition {
            Some(r) => if r.interval@ == (0nat, 0nat) {
                seq![finding(DiagnosticLevel::Error, DiagnosticCode::OutOfRange, path + ".repetition.interval"@, "a repetition interval must be greater than zero"@)]
            } else {
                Seq::empty()
            },
            None => Seq::empty(),
        },
        None => Seq::empty(),
    };
    repetition + trigger_kind_findings(t, index)
}

/// Findings about every trigger, in order.
pub open spec fn triggers_findings(triggers: Seq<Trigger>) -> Seq<DiagnosticView>
    decreases triggers.len(),
{
    if triggers.len() == 0 {
        Seq::empty()
    } else {
        triggers_findings(triggers.drop_last()) + trigger_findings_at(triggers.last(), (triggers.len() - 1) as nat)
    }
}

fn all_days_in_range(days: &[u8]) -> (r: bool)
    ensures
        r == days_in_range(days@),
{
    let mut i: usize = 0;
    while i < days.len()
        invariant
            i <= days.len(),
            forall|j: int| 0 <= j < i ==> 1 <= #[trigger] days@[j] <= 31,
        decreases days.len() - i,
    {
        if days[i] < 1 || days[i] > 31 {
            return false;
        }
        i += 1;
    }
    true
}

fn push_path_finding(
    report: &mut ValidationReport,
    level: DiagnosticLevel,
    code: DiagnosticCode,
    base: &str,
    suffix: &str,
    message: &str,
)
    ensures
        diags_view(final(report).diagnostics@) == diags_view(old(report).diagnostics@).push(
            finding(level, code, base@ + suffix@, message@),
        ),
{
    let mut path = base.to_owned();
    path.append(suffix);
    let d = if matches!(level, DiagnosticLevel::Error) {
        Diagnostic::error(code, path.as_str(), message)
    } else {
        let mut d = Diagnostic::warning(code, path.as_str(), message);
        d.level = level;
        d
    };
    let ghost before = report.diagnostics@;
    report.push(d);
    proof {
        lemma_diags_push(before, d);
    }
}

fn validate_trigger(trigger: &Trigger, index: usize, report: &mut ValidationReport)
    ensures
        diags_view(final(report).diagnostics@) == diags_view(old(report).diagnostics@)
            + trigger_findings_at(*trigger, index as nat),
{
    proof {
        reveal_strlit("");
        assert(""@ =~= Seq::<char>::empty());
    }
    let path = indexed("triggers", index, "");
    let ghost start = diags_view(report.diagnostics@);
    if let Some(common) = trigger.common() {
        if let Some(repetition) = &common.repetition {
            if repetition.interval.is_zero() {
                push_path_finding(
                    report,
                    DiagnosticLevel::Error,
                    DiagnosticCode::OutOfRange,
                    path.as_str(),
                    ".repetition.interval",
                    "a repetition interval must be greater than zero",
                );
            }
        }
    }
    let ghost mid = diags_view(report.diagnostics@);
    match trigger {
        Trigger::Time(v) => {
            if v.common.start_boundary.is_none() {
                push_path_finding(report, DiagnosticLevel::Error, DiagnosticCode::IncompleteTrigger, path.as_str(), ".start_boundary", "a time trigger requires a start boundary");
            }
        },
        Trigger::Daily(v) => {
            if v.days_interval == 0 {
                push_path_finding(report, DiagnosticLevel::Error, DiagnosticCode::OutOfRange, path.as_str(), ".days_interval", "daily interval must be at least one");
            }
        },
        Trigger::Weekly(v) => {
            if v.weeks_interval == 0 || v.days_of_week.len() == 0 {
                push_path_finding(report, DiagnosticLevel::Error, DiagnosticCode::IncompleteTrigger, path.as_str(), "", "a weekly trigger requires a non-zero interval and at least one weekday");
            }
        },
        Trigger::Monthly(v) => {
            if v.months.len() == 0 || (v.days_of_month.len() == 0 && !v.run_on_last_day)
                || !all_days_in_range(v.days_of_month.as_slice()) {
                push_path_finding(report, DiagnosticLevel::Error, DiagnosticCode::IncompleteTrigger, path.as_str(), "", "a monthly trigger needs valid days and at least one month");
            }
        },
        Trigger::MonthlyDow(v) => {
            if v.months.len() == 0 || v.days_of_week.len() == 0 || (v.weeks_of_month.len() == 0
                && !v.run_on_last_week) {
                push_path_finding(report, DiagnosticLevel::Error, DiagnosticCode::IncompleteTrigger, path.as_str(), "", "a monthly day-of-week trigger needs months, weekdays, and week ordinals");
            }
        },
        Trigger::Event(v) => {
            if v.subscription.as_str().unicode_len() == 0 {
                push_path_finding(report, DiagnosticLevel::Error, DiagnosticCode::EmptyValue, path.as_str(), ".subscription", "an event trigger requires an XPath subscription");
            }
        },
        Trigger::Registration(_) => {
            let d = Diagnostic::warning(
                DiagnosticCode::RegistrationTriggerSideEffect,
                path.as_str(),
                "registering or updating the task can execute it",
            ).with_remediation("keep ignore_registration_triggers enabled during reconciliation");
            let ghost before = report.diagnostics@;
            report.push(d);
            proof {
                lemma_diags_push(before, d);
            }
        },
        Trigger::Unknown(_) => {
            push_path_finding(report, DiagnosticLevel::Warning, DiagnosticCode::OpaqueExtension, path.as_str(), "", "an unknown trigger cannot be validated semantically");
        },
        _ => {},
    }
    proof {
        assert(diags_view(report.diagnostics@) =~= start + trigger_findings_at(*trigger, index as nat));
    }
}

fn validate_triggers(triggers: &[Trigger], report: &mut ValidationReport)
    ensures
        diags_view(final(report).diagnostics@) == diags_view(old(report).diagnostics@)
            + triggers_findings(triggers@),
{
    let ghost base = diags_view(report.diagnostics@);
    let mut i: usize = 0;
    while i < triggers.len()
        invariant
            i <= triggers.len(),
            diags_view(report.diagnostics@) == base + triggers_findings(triggers@.take(i as int)),
        decreases triggers.len() - i,
    {
        validate_trigger(&triggers[i], i, report);
        proof {
            assert(triggers@.take(i + 1).drop_last() =~= triggers@.take(i as int));
            assert(diags_view(report.diagnostics@) =~= base + triggers_findings(triggers@.take(i + 1)));
        }
        i += 1;
    }
    proof {
        assert(triggers@.take(triggers.len() as int) =~= triggers@);
    }
}

} // verus!

verus! {

/// Findings about fields newer than the requested schema.
pub open spec fn schema_findings(d: TaskDefinition) -> Seq<DiagnosticView> {
    let g = schema_generation(d.schema_version@);
    let unified = if d.settings.use_unified_scheduling_engine && g < 3 {
        seq![finding(DiagnosticLevel::Error, DiagnosticCode::SchemaTooOld, "settings.use_unified_scheduling_engine"@, "unified scheduling requires schema 1.3 or later"@)]
    } else {
        Seq::empty()
    };
    let maintenance = if d.settings.maintenance is Some && g < 4 {
        seq![finding(DiagnosticLevel::Error, DiagnosticCode::SchemaTooOld, "settings.maintenance"@, "maintenance settings require task schema 1.4 or later"@)]
    } else {
        Seq::empty()
    };
    let volatile = if d.settings.volatile && g < 6 {
        seq![finding(DiagnosticLevel::Error, DiagnosticCode::SchemaTooOld, "settings.volatile"@, "volatile tasks require task schema 1.6 or later"@)]
    } else {
        Seq::empty()
    };
    unified + maintenance + volatile
}

/// Every finding of a definition, in report order: a missing action,
/// duplicate action and trigger identifiers, an out-of-range priority, the
/// principal, each action, each trigger, schema conflicts, and opaque
/// extensions.
pub open spec fn definition_findings(d: TaskDefinition) -> Seq<DiagnosticView> {
    let missing = if d.actions@.len() == 0 {
        seq![finding(DiagnosticLevel::Error, DiagnosticCode::MissingAction, "actions"@, "a task must contain at least one action"@)]
    } else {
        Seq::empty()
    };
    let priority = if d.settings.priority > 10 {
        seq![finding(DiagnosticLevel::Error, DiagnosticCode::OutOfRange, "settings.priority"@, "scheduler priority must be between 0 and 10"@)]
    } else {
        Seq::empty()
    };
    let extensions = if d.extensions@.len() > 0 {
        seq![finding(DiagnosticLevel::Warning, DiagnosticCode::OpaqueExtension, "extensions"@, "opaque XML extensions are preserved but cannot be validated semantically"@)]
    } else {
        Seq::empty()
    };
    missing
        + duplicate_findings(dup_ids(action_ids(d.actions@)), "actions"@, "duplicate action id "@)
        + duplicate_findings(dup_ids(trigger_ids(d.triggers@)), "triggers"@, "duplicate trigger id "@)
        + priority
        + principal_findings(d.principal)
        + actions_findings(d.actions@)
        + triggers_findings(d.triggers@)
        + schema_findings(d)
        + extensions
}

fn validate_schema(definition: &TaskDefinition, report: &mut ValidationReport)
    ensures
        diags_view(final(report).diagnostics@) == diags_view(old(report).diagnostics@)
            + schema_findings(*definition),
{
    let ghost start = diags_view(report.diagnostics@);
    let generation = definition.schema_version.generation();
    if definition.settings.use_unified_scheduling_engine && generation < 3 {
        push_path_finding(report, DiagnosticLevel::Error, DiagnosticCode::SchemaTooOld, "settings.use_unified_scheduling_engine", "", "unified scheduling requires schema 1.3 or later");
    }
    if definition.settings.maintenance.is_some() && generation < 4 {
        push_path_finding(report, DiagnosticLevel::Error, DiagnosticCode::SchemaTooOld, "settings.maintenance", "", "maintenance settings require task schema 1.4 or later");
    }
    if definition.settings.volatile && generation < 6 {
        push_path_finding(report, DiagnosticLevel::Error, DiagnosticCode::SchemaTooOld, "settings.volatile", "", "volatile tasks require task schema 1.6 or later");
    }
    proof {
        reveal_strlit("");
        assert(""@ =~= Seq::<char>::empty());
        assert("settings.use_unified_scheduling_engine"@ + ""@ =~= "settings.use_unified_scheduling_engine"@);
        assert("settings.maintenance"@ + ""@ =~= "settings.maintenance"@);
        assert("settings.volatile"@ + ""@ =~= "settings.volatile"@);
        assert(diags_view(report.diagnostics@) =~= start + schema_findings(*definition));
    }
}

/// Performs complete portable and cross-field validation.
pub fn validate_definition(definition: &TaskDefinition) -> (report: ValidationReport)
    ensures
        diags_view(report.diagnostics@) == definition_findings(*definition),
{
    let mut report = ValidationReport::new();
    proof {
        reveal_strlit("");
        assert(""@ =~= Seq::<char>::empty());
        assert(diags_view(report.diagnostics@) =~= Seq::<DiagnosticView>::empty());
    }
    if definition.actions.is_empty() {
        push_path_finding(&mut report, DiagnosticLevel::Error, DiagnosticCode::MissingAction, "actions", "", "a task must contain at least one action");
        proof {
            assert("actions"@ + ""@ =~= "actions"@);
        }
    }
    let ghost after_missing = diags_view(report.diagnostics@);
    let action_id_list = collect_action_ids(definition.actions.as_slice());
    let action_dups = duplicate_ids(action_id_list.as_slice());
    push_duplicates(&mut report, action_dups.as_slice(), "actions", "duplicate action id ");
    let trigger_id_list = collect_trigger_ids(definition.triggers.as_slice());
    let trigger_dups = duplicate_ids(trigger_id_list.as_slice());
    push_duplicates(&mut report, trigger_dups.as_slice(), "triggers", "duplicate trigger id ");
    let ghost after_dups = diags_view(report.diagnostics@);
    if definition.settings.priority > 10 {
        push_path_finding(&mut report, DiagnosticLevel::Error, DiagnosticCode::OutOfRange, "settings.priority", "", "scheduler priority must be between 0 and 10");
        proof {
            assert("settings.priority"@ + ""@ =~= "settings.priority"@);
        }
    }
    validate_principal(&definition.principal, &mut report);
    validate_actions(definition.actions.as_slice(), &mut report);
    validate_triggers(definition.triggers.as_slice(), &mut report);
    validate_schema(definition, &mut report);
    if definition.extensions.len() > 0 {
        push_path_finding(&mut report, DiagnosticLevel::Warning, DiagnosticCode::OpaqueExtension, "extensions", "", "opaque XML extensions are preserved but cannot be validated semantically");
        proof {
            assert("extensions"@ + ""@ =~= "extensions"@);
        }
    }
    proof {
        assert(diags_view(report.diagnostics@) =~= definition_findings(*definition));
    }
    report
}

/// Whether a definition passes validation: none of its findings is an error.
pub open spec fn definition_is_valid(d: TaskDefinition) -> bool {
    !(exists|i: int| 0 <= i < definition_findings(d).len() && definition_findings(d)[i].level == DiagnosticLevel::Error)
}

/// A definition without actions never passes validation.
pub proof fn lemma_no_action_is_invalid(d: TaskDefinition)
    requires
        d.actions@.len() == 0,
    ensures
        !definition_is_valid(d),
{
    assert(definition_findings(d)[0].level == DiagnosticLevel::Error);
}

/// Whether a report holding these diagnostics is valid is decided by the
/// findings' levels alone.
pub proof fn lemma_report_validity(ds: Seq<Diagnostic>)
    ensures
        has_error(ds) == (exists|i: int| 0 <= i < diags_view(ds).len() && diags_view(ds)[i].level == DiagnosticLevel::Error),
{
    if has_error(ds) {
        let i = choose|i: int| 0 <= i < ds.len() && ds[i].level == DiagnosticLevel::Error;
        assert(diags_view(ds)[i].level == DiagnosticLevel::Error);
    }
    if exists|i: int| 0 <= i < diags_view(ds).len() && diags_view(ds)[i].level == DiagnosticLevel::Error {
        let i = choose|i: int| 0 <= i < diags_view(ds).len() && diags_view(ds)[i].level == DiagnosticLevel::Error;
        assert(ds[i].level == DiagnosticLevel::Error);
    }
}

} // verus!
