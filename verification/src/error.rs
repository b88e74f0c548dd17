//! Classified errors carrying native codes, diagnostics and structured context.
use vstd::prelude::*;

use crate::text::{hex8, hex8_spec, opt_str_view, opt_view, str_eq};
use vstd::string::*;
use crate::validation::{Diagnostic, DiagnosticCode, ValidationReport};
use crate::history::keys_increasing;
use crate::model::trigger::seq_less;

verus! {

/// Broad, stable classification for errors returned by this crate.
#[derive(Clone, Copy, Debug, Eq, Hash, PartialEq, Structural)]
#[non_exhaustive]
pub enum ErrorKind {
    /// The operation is unavailable on the current platform.
    UnsupportedPlatform,
    /// A task or folder path was invalid.
    InvalidPath,
    /// A task definition did not satisfy Task Scheduler constraints.
    InvalidDefinition,
    /// Task XML could not be read or written.
    Xml,
    /// A declarative document could not be read or written.
    Serialization,
    /// The Task Scheduler service or its RPC endpoint is unavailable.
    SchedulerUnavailable,
    /// The caller does not have the required access.
    AccessDenied,
    /// Authentication or credentials failed.
    Authentication,
    /// The requested object was not found.
    NotFound,
    /// The object already exists.
    AlreadyExists,
    /// The target cannot represent the requested capability.
    Capability,
    /// A COM operation failed.
    Com,
    /// A Win32 operation failed.
    Win32,
    /// Work was cancelled before it started.
    Cancelled,
    /// The requested wait elapsed.
    Timeout,
    /// Task Scheduler event history is unavailable.
    HistoryUnavailable,
    /// An event bookmark is no longer valid; records may have been lost.
    HistoryGap,
    /// A bounded query cannot establish a complete result.
    QueryLimit,
    /// Current state conflicts with the requested ownership or operation.
    Conflict,
    /// The operation cannot be safely rolled back with the supplied inputs.
    Irreversible,
    /// A background worker stopped unexpectedly.
    WorkerStopped,
    /// An error not covered by a more specific stable kind.
    Other,
}

/// The name of an error kind, as its `Debug` form writes it.
pub open spec fn kind_name_spec(kind: ErrorKind) -> Seq<char> {
    match kind {
        ErrorKind::UnsupportedPlatform => "UnsupportedPlatform"@,
        ErrorKind::InvalidPath => "InvalidPath"@,
        ErrorKind::InvalidDefinition => "InvalidDefinition"@,
        ErrorKind::Xml => "Xml"@,
        ErrorKind::Serialization => "Serialization"@,
        ErrorKind::SchedulerUnavailable => "SchedulerUnavailable"@,
        ErrorKind::AccessDenied => "AccessDenied"@,
        ErrorKind::Authentication => "Authentication"@,
        ErrorKind::NotFound => "NotFound"@,
        ErrorKind::AlreadyExists => "AlreadyExists"@,
        ErrorKind::Capability => "Capability"@,
        ErrorKind::Com => "Com"@,
        ErrorKind::Win32 => "Win32"@,
        ErrorKind::Cancelled => "Cancelled"@,
        ErrorKind::Timeout => "Timeout"@,
        ErrorKind::HistoryUnavailable => "HistoryUnavailable"@,
        ErrorKind::HistoryGap => "HistoryGap"@,
        ErrorKind::QueryLimit => "QueryLimit"@,
        ErrorKind::Conflict => "Conflict"@,
        ErrorKind::Irreversible => "Irreversible"@,
        ErrorKind::WorkerStopped => "WorkerStopped"@,
        ErrorKind::Other => "Other"@,
    }
}

/// The name of an error kind.
pub fn kind_name(kind: ErrorKind) -> (s: String)
    ensures
        s@ == kind_name_spec(kind),
{
    match kind {
        ErrorKind::UnsupportedPlatform => "UnsupportedPlatform".to_owned(),
        ErrorKind::InvalidPath => "InvalidPath".to_owned(),
        ErrorKind::InvalidDefinition => "InvalidDefinition".to_owned(),
        ErrorKind::Xml => "Xml".to_owned(),
        ErrorKind::Serialization => "Serialization".to_owned(),
        ErrorKind::SchedulerUnavailable => "SchedulerUnavailable".to_owned(),
        ErrorKind::AccessDenied => "AccessDenied".to_owned(),
        ErrorKind::Authentication => "Authentication".to_owned(),
        ErrorKind::NotFound => "NotFound".to_owned(),
        ErrorKind::AlreadyExists => "AlreadyExists".to_owned(),
        ErrorKind::Capability => "Capability".to_owned(),
        ErrorKind::Com => "Com".to_owned(),
        ErrorKind::Win32 => "Win32".to_owned(),
        ErrorKind::Cancelled => "Cancelled".to_owned(),
        ErrorKind::Timeout => "Timeout".to_owned(),
        ErrorKind::HistoryUnavailable => "HistoryUnavailable".to_owned(),
        ErrorKind::HistoryGap => "HistoryGap".to_owned(),
        ErrorKind::QueryLimit => "QueryLimit".to_owned(),
        ErrorKind::Conflict => "Conflict".to_owned(),
        ErrorKind::Irreversible => "Irreversible".to_owned(),
        ErrorKind::WorkerStopped => "WorkerStopped".to_owned(),
        ErrorKind::Other => "Other".to_owned(),
    }
}

/// Error with stable classification and native diagnostic context.
#[derive(Debug, Eq, PartialEq)]
pub struct Error {
    kind: ErrorKind,
    message: String,
    operation: Option<String>,
    target: Option<String>,
    native_code: Option<i32>,
    diagnostics: Vec<Diagnostic>,
    context: Vec<(String, String)>,
}

/// Mathematical view of an [`Error`].
pub struct ErrorView {
    /// Stable classification.
    pub kind: ErrorKind,
    /// Human-readable message.
    pub message: Seq<char>,
    /// Failed operation, when recorded.
    pub operation: Option<Seq<char>>,
    /// Failed target, when recorded.
    pub target: Option<Seq<char>>,
    /// Native HRESULT or Win32 value, when recorded.
    pub native_code: Option<i32>,
    /// Attached validation findings.
    pub diagnostics: Seq<Diagnostic>,
    /// Structured context entries in insertion order, each key once.
    pub context: Seq<(Seq<char>, Seq<char>)>,
}

/// Views of the entries of a context list.
pub open spec fn context_view(entries: Seq<(String, String)>) -> Seq<(Seq<char>, Seq<char>)> {
    entries.map_values(|entry: (String, String)| (entry.0@, entry.1@))
}

/// Index of the entry holding `key`, if any.
pub open spec fn context_index(entries: Seq<(Seq<char>, Seq<char>)>, key: Seq<char>) -> Option<int> {
    if exists|i: int| 0 <= i < entries.len() && entries[i].0 == key {
        Some(choose|i: int| 0 <= i < entries.len() && entries[i].0 == key)
    } else {
        None
    }
}

/// Whether no key occurs twice.
pub open spec fn unique_keys(entries: Seq<(Seq<char>, Seq<char>)>) -> bool {
    forall|i: int, j: int|
        0 <= i < entries.len() && 0 <= j < entries.len() && i != j ==> entries[i].0 != entries[j].0
}

/// Context after setting `key` to `value` in entries kept in key order: an
/// existing entry takes the new value, a new key is inserted where it
/// belongs.
pub open spec fn context_insert(
    entries: Seq<(Seq<char>, Seq<char>)>,
    key: Seq<char>,
    value: Seq<char>,
) -> Seq<(Seq<char>, Seq<char>)>
    decreases entries.len(),
{
    if entries.len() == 0 {
        seq![(key, value)]
    } else if entries[0].0 == key {
        entries.update(0, (key, value))
    } else if seq_less(key, entries[0].0) {
        seq![(key, value)] + entries
    } else {
        seq![entries[0]] + context_insert(entries.drop_first(), key, value)
    }
}

/// Context entries as a map from key to value.
pub open spec fn context_map(entries: Seq<(Seq<char>, Seq<char>)>) -> Map<Seq<char>, Seq<char>> {
    Map::new(
        |k: Seq<char>| context_index(entries, k) is Some,
        |k: Seq<char>| entries[context_index(entries, k)->0].1,
    )
}

impl View for Error {
    type V = ErrorView;

    closed spec fn view(&self) -> ErrorView {
        ErrorView {
            kind: self.kind,
            message: self.message@,
            operation: opt_view(self.operation),
            target: opt_view(self.target),
            native_code: self.native_code,
            diagnostics: self.diagnostics@,
            context: context_view(self.context@),
        }
    }
}

/// A copy of a diagnostic code.
fn copy_code(c: &DiagnosticCode) -> (r: DiagnosticCode)
    ensures
        r == *c,
{
    match c {
        DiagnosticCode::MissingAction => DiagnosticCode::MissingAction,
        DiagnosticCode::DuplicateId => DiagnosticCode::DuplicateId,
        DiagnosticCode::EmptyValue => DiagnosticCode::EmptyValue,
        DiagnosticCode::OutOfRange => DiagnosticCode::OutOfRange,
        DiagnosticCode::IncompleteTrigger => DiagnosticCode::IncompleteTrigger,
        DiagnosticCode::PrincipalLogonMismatch => DiagnosticCode::PrincipalLogonMismatch,
        DiagnosticCode::PasswordRequired => DiagnosticCode::PasswordRequired,
        DiagnosticCode::DeprecatedAction => DiagnosticCode::DeprecatedAction,
        DiagnosticCode::SchemaTooOld => DiagnosticCode::SchemaTooOld,
        DiagnosticCode::RegistrationTriggerSideEffect => DiagnosticCode::RegistrationTriggerSideEffect,
        DiagnosticCode::OpaqueExtension => DiagnosticCode::OpaqueExtension,
        DiagnosticCode::UnsupportedCapability => DiagnosticCode::UnsupportedCapability,
        DiagnosticCode::HistoryUnavailable => DiagnosticCode::HistoryUnavailable,
        DiagnosticCode::RemoteConnectivity => DiagnosticCode::RemoteConnectivity,
        DiagnosticCode::InsufficientRights => DiagnosticCode::InsufficientRights,
        DiagnosticCode::OwnershipConflict => DiagnosticCode::OwnershipConflict,
        DiagnosticCode::IrreversibleChange => DiagnosticCode::IrreversibleChange,
        DiagnosticCode::Other(s) => DiagnosticCode::Other(s.clone()),
    }
}

impl Clone for Error {
    fn clone(&self) -> (e: Self)
        ensures
            e@ == self@,
    {
        self.duplicate()
    }
}

impl Error {
    /// The structured context is in key order, each key once.
    #[verifier::type_invariant]
    pub closed spec fn well_formed(&self) -> bool {
        keys_increasing(context_view(self.context@))
    }

    /// A copy of the error with every field equal.
    pub fn duplicate(&self) -> (e: Self)
        ensures
            e@ == self@,
            self.well_formed() ==> e.well_formed(),
    {
        proof {
            use_type_invariant(self);
        }
        let mut diagnostics: Vec<Diagnostic> = Vec::new();
        let mut i: usize = 0;
        while i < self.diagnostics.len()
            invariant
                i <= self.diagnostics@.len(),
                diagnostics@ == self.diagnostics@.take(i as int),
            decreases self.diagnostics@.len() - i,
        {
            let d = &self.diagnostics[i];
            diagnostics.push(Diagnostic {
                level: d.level,
                code: copy_code(&d.code),
                path: d.path.clone(),
                message: d.message.clone(),
                remediation: crate::text::clone_opt(&d.remediation),
            });
            proof {
                assert(self.diagnostics@.take(i + 1) =~= self.diagnostics@.take(i as int).push(*d));
            }
            i += 1;
        }
        let mut context: Vec<(String, String)> = Vec::new();
        let mut j: usize = 0;
        while j < self.context.len()
            invariant
                j <= self.context@.len(),
                context@ == self.context@.take(j as int),
            decreases self.context@.len() - j,
        {
            let entry = &self.context[j];
            context.push((entry.0.clone(), entry.1.clone()));
            proof {
                assert(self.context@.take(j + 1) =~= self.context@.take(j as int).push(*entry));
            }
            j += 1;
        }
        proof {
            assert(diagnostics@ =~= self.diagnostics@);
            assert(context@ =~= self.context@);
        }
        Error {
            kind: self.kind,
            message: self.message.clone(),
            operation: crate::text::clone_opt(&self.operation),
            target: crate::text::clone_opt(&self.target),
            native_code: self.native_code,
            diagnostics,
            context,
        }
    }

    /// Creates an error with a stable kind and human-readable message.
    pub fn new(kind: ErrorKind, message: &str) -> (e: Self)
        ensures
            e@.kind == kind,
            e@.message == message@,
            e@.operation is None,
            e@.target is None,
            e@.native_code is None,
            e@.diagnostics.len() == 0,
            e@.context.len() == 0,
            e.well_formed(),
    {
        let e = Error {
            kind,
            message: message.to_owned(),
            operation: None,
            target: None,
            native_code: None,
            diagnostics: Vec::new(),
            context: Vec::new(),
        };
        proof {
            assert(context_view(e.context@) =~= Seq::empty());
        }
        e
    }

    /// Adds the operation that failed.
    pub fn with_operation(self, operation: &str) -> (e: Self)
        ensures
            e@ == (ErrorView { operation: Some(operation@), ..self@ }),
            self.well_formed() ==> e.well_formed(),
    {
        proof {
            use_type_invariant(&self);
        }
        let mut e = self;
        e.operation = Some(operation.to_owned());
        e
    }

    /// Adds the task, folder, computer, or channel that failed.
    pub fn with_target(self, target: &str) -> (e: Self)
        ensures
            e@ == (ErrorView { target: Some(target@), ..self@ }),
            self.well_formed() ==> e.well_formed(),
    {
        proof {
            use_type_invariant(&self);
        }
        let mut e = self;
        e.target = Some(target.to_owned());
        e
    }

    /// Retains actionable validation findings instead of flattening them.
    pub fn with_validation(self, report: ValidationReport) -> (e: Self)
        ensures
            e@ == (ErrorView { diagnostics: report.diagnostics@, ..self@ }),
            self.well_formed() ==> e.well_formed(),
    {
        proof {
            use_type_invariant(&self);
        }
        let mut e = self;
        e.diagnostics = report.diagnostics;
        e
    }

    /// Adds structured observation context in key order, replacing the value
    /// of an existing key.
    pub fn with_context(self, key: &str, value: &str) -> (e: Self)
        ensures
            e@ == (ErrorView { context: context_insert(self@.context, key@, value@), ..self@ }),
            e.well_formed(),
            context_map(e@.context) == context_map(self@.context).insert(key@, value@),
    {
        proof {
            use_type_invariant(&self);
        }
        let Error { kind, message, operation, target, native_code, diagnostics, context } = self;
        let mut context = context;
        insert_context(&mut context, key, value);
        Error { kind, message, operation, target, native_code, diagnostics, context }
    }

    /// Validation findings associated with this error.
    pub fn diagnostics(&self) -> (d: &[Diagnostic])
        ensures
            d@ == self@.diagnostics,
    {
        self.diagnostics.as_slice()
    }

    /// Last observed state or other structured error context, in key order.
    pub fn context(&self) -> (c: &[(String, String)])
        ensures
            context_view(c@) == self@.context,
    {
        self.context.as_slice()
    }

    /// Adds the original HRESULT or Win32 error value.
    pub fn with_native_code(self, native_code: i32) -> (e: Self)
        ensures
            e@ == (ErrorView { native_code: Some(native_code), ..self@ }),
            self.well_formed() ==> e.well_formed(),
    {
        proof {
            use_type_invariant(&self);
        }
        let mut e = self;
        e.native_code = Some(native_code);
        e
    }

    /// Returns the stable classification.
    pub fn kind(&self) -> (k: ErrorKind)
        ensures
            k == self@.kind,
    {
        self.kind
    }

    /// Returns the human-readable message without contextual prefixes.
    pub fn message(&self) -> (m: &str)
        ensures
            m@ == self@.message,
    {
        self.message.as_str()
    }

    /// Returns the native HRESULT or Win32 value, when present.
    pub fn native_code(&self) -> (c: Option<i32>)
        ensures
            c == self@.native_code,
    {
        self.native_code
    }

    /// Returns the operation context, when present.
    pub fn operation(&self) -> (o: Option<&str>)
        ensures
            opt_str_view(o) == self@.operation,
    {
        match &self.operation {
            Some(value) => Some(value.as_str()),
            None => None,
        }
    }

    /// Returns the target context, when present.
    pub fn target(&self) -> (t: Option<&str>)
        ensures
            opt_str_view(t) == self@.target,
    {
        match &self.target {
            Some(value) => Some(value.as_str()),
            None => None,
        }
    }

    /// The same error as a display string: optional `operation: ` prefix,
    /// the message, and the optional target and native-code suffixes.
    pub fn to_string(&self) -> (s: String)
        ensures
            s@ == error_display(self@),
    {
        let mut out = String::new();
        if let Some(operation) = &self.operation {
            out.append(operation.as_str());
            out.append(": ");
        }
        out.append(self.message.as_str());
        if let Some(target) = &self.target {
            out.append(" (target: ");
            out.append(target.as_str());
            out.append(")");
        }
        if let Some(code) = self.native_code {
            out.append(" (native code: 0x");
            let hex = hex8(code_bits(code));
            out.append(hex.as_str());
            out.append(")");
        }
        out
    }
}

/// Adding context never changes how an error reads: the display text holds
/// the operation, message, target and native code, and no context.
pub proof fn lemma_context_not_displayed(e: ErrorView, key: Seq<char>, value: Seq<char>)
    ensures
        error_display(ErrorView { context: context_insert(e.context, key, value), ..e }) == error_display(e),
{
}

/// The view of a converted failure: its kind and message, with no
/// operation, target, native code, findings or context.
pub open spec fn converted_error(kind: ErrorKind, message: Seq<char>) -> ErrorView {
    ErrorView {
        kind,
        message,
        operation: None,
        target: None,
        native_code: None,
        diagnostics: Seq::empty(),
        context: Seq::empty(),
    }
}

/// Two's-complement bit pattern of a native code.
pub open spec fn code_bits_spec(code: i32) -> u32 {
    if code >= 0 { code as u32 } else { (code + 0x1_0000_0000) as u32 }
}

/// Two's-complement bit pattern of a native code.
pub fn code_bits(code: i32) -> (b: u32)
    ensures
        b == code_bits_spec(code),
{
    if code >= 0 {
        code as u32
    } else {
        let widened: i64 = code as i64 + 0x1_0000_0000i64;
        widened as u32
    }
}

/// Display text of an error.
pub open spec fn error_display(e: ErrorView) -> Seq<char> {
    let prefix = match e.operation {
        Some(op) => op + ": "@,
        None => Seq::<char>::empty(),
    };
    let target = match e.target {
        Some(t) => " (target: "@ + t + ")"@,
        None => Seq::<char>::empty(),
    };
    let code = match e.native_code {
        Some(c) => " (native code: 0x"@ + hex8_spec(code_bits_spec(c)) + ")"@,
        None => Seq::<char>::empty(),
    };
    prefix + e.message + target + code
}

/// The index form of a sorted insert: `p` is the first entry whose key is
/// not below `key`.
proof fn lemma_context_insert_at(entries: Seq<(Seq<char>, Seq<char>)>, key: Seq<char>, value: Seq<char>, p: int)
    requires
        0 <= p <= entries.len(),
        forall|j: int| 0 <= j < p ==> seq_less(#[trigger] entries[j].0, key),
        p < entries.len() ==> !seq_less(entries[p].0, key),
    ensures
        context_insert(entries, key, value) == if p < entries.len() && entries[p].0 == key {
            entries.update(p, (key, value))
        } else {
            entries.insert(p, (key, value))
        },
    decreases entries.len(),
{
    if entries.len() == 0 {
        assert(entries.insert(0, (key, value)) =~= seq![(key, value)]);
    } else if p == 0 {
        if entries[0].0 != key {
            crate::reconcile::lemma_seq_less_total(key, entries[0].0);
            assert(entries.insert(0, (key, value)) =~= seq![(key, value)] + entries);
        }
    } else {
        let e0 = entries[0].0;
        assert(seq_less(e0, key));
        crate::validation::lemma_seq_less_irreflexive(key);
        if seq_less(key, e0) {
            crate::reconcile::lemma_seq_less_transitive(key, e0, key);
        }
        let rest = entries.drop_first();
        assert forall|j: int| 0 <= j < p - 1 implies seq_less(#[trigger] rest[j].0, key) by {
            assert(rest[j] == entries[j + 1]);
        }
        lemma_context_insert_at(rest, key, value, p - 1);
        if p < entries.len() && entries[p].0 == key {
            assert(seq![entries[0]] + rest.update(p - 1, (key, value)) =~= entries.update(p, (key, value)));
        } else {
            assert(seq![entries[0]] + rest.insert(p - 1, (key, value)) =~= entries.insert(p, (key, value)));
        }
    }
}

fn insert_context(context: &mut Vec<(String, String)>, key: &str, value: &str)
    requires
        keys_increasing(context_view(old(context)@)),
    ensures
        context_view(final(context)@) == context_insert(context_view(old(context)@), key@, value@),
        keys_increasing(context_view(final(context)@)),
        context_map(context_view(final(context)@)) == context_map(context_view(old(context)@)).insert(key@, value@),
{
    let ghost old_ctx = context_view(context@);
    let mut p: usize = 0;
    while p < context.len() && crate::validation::str_less(context[p].0.as_str(), key)
        invariant
            p <= context.len(),
            context_view(context@) == old_ctx,
            forall|j: int| 0 <= j < p ==> seq_less(#[trigger] old_ctx[j].0, key@),
        decreases context.len() - p,
    {
        p += 1;
    }
    proof {
        lemma_context_insert_at(old_ctx, key@, value@, p as int);
    }
    if p < context.len() && str_eq(context[p].0.as_str(), key) {
        context.set(p, (key.to_owned(), value.to_owned()));
        proof {
            assert(context_view(context@) =~= old_ctx.update(p as int, (key@, value@)));
        }
    } else {
        context.insert(p, (key.to_owned(), value.to_owned()));
        proof {
            assert(context_view(context@) =~= old_ctx.insert(p as int, (key@, value@)));
        }
    }
    proof {
        lemma_sorted_insert(old_ctx, key@, value@, p as int);
    }
}

proof fn lemma_increasing_unique(entries: Seq<(Seq<char>, Seq<char>)>)
    requires
        keys_increasing(entries),
    ensures
        unique_keys(entries),
{
    assert forall|i: int, j: int| 0 <= i < entries.len() && 0 <= j < entries.len() && i != j implies entries[i].0 != entries[j].0 by {
        crate::validation::lemma_seq_less_irreflexive(entries[i].0);
        if i < j {
            assert(seq_less(entries[i].0, entries[j].0));
        } else {
            assert(seq_less(entries[j].0, entries[i].0));
        }
    }
}

/// Setting a key in entries kept in key order keeps them in order and sets
/// it in what they map.
proof fn lemma_sorted_insert(entries: Seq<(Seq<char>, Seq<char>)>, key: Seq<char>, value: Seq<char>, p: int)
    requires
        keys_increasing(entries),
        0 <= p <= entries.len(),
        forall|j: int| 0 <= j < p ==> seq_less(#[trigger] entries[j].0, key),
        p < entries.len() ==> !seq_less(entries[p].0, key),
    ensures
        keys_increasing(context_insert(entries, key, value)),
        context_map(context_insert(entries, key, value)) == context_map(entries).insert(key, value),
{
    lemma_context_insert_at(entries, key, value, p);
    lemma_increasing_unique(entries);
    let n = context_insert(entries, key, value);
    if p < entries.len() && entries[p].0 == key {
        assert(context_index(entries, key) is Some);
        let i = context_index(entries, key)->0;
        assert(entries[i].0 == key);
        assert(i == p);
        assert(n == entries.update(p, (key, value)));
        assert forall|a: int, b: int| 0 <= a < b < n.len() implies seq_less(#[trigger] n[a].0, #[trigger] n[b].0) by {
            assert(n[a].0 == entries[a].0 && n[b].0 == entries[b].0);
        }
        lemma_insert_map(entries, key, value);
    } else {
        if p < entries.len() {
            crate::reconcile::lemma_seq_less_total(key, entries[p].0);
        }
        assert forall|j: int| 0 <= j < entries.len() implies #[trigger] entries[j].0 != key by {
            crate::validation::lemma_seq_less_irreflexive(key);
            if j >= p && j > p {
                assert(seq_less(entries[p].0, entries[j].0));
                crate::reconcile::lemma_seq_less_transitive(key, entries[p].0, entries[j].0);
            }
        }
        assert(context_index(entries, key) is None);
        assert(n == entries.insert(p, (key, value)));
        assert forall|a: int, b: int| 0 <= a < b < n.len() implies seq_less(#[trigger] n[a].0, #[trigger] n[b].0) by {
            if b < p {
                assert(n[a] == entries[a] && n[b] == entries[b]);
            } else if b == p {
                assert(n[b].0 == key && n[a] == entries[a]);
            } else if a == p {
                assert(n[b] == entries[b - 1]);
                if b - 1 > p {
                    assert(seq_less(entries[p].0, entries[b - 1].0));
                    crate::reconcile::lemma_seq_less_transitive(key, entries[p].0, entries[b - 1].0);
                }
            } else if a < p {
                assert(n[a] == entries[a] && n[b] == entries[b - 1]);
                if b - 1 >= p {
                    assert(seq_less(entries[a].0, key));
                    if b - 1 > p {
                        assert(seq_less(entries[p].0, entries[b - 1].0));
                        crate::reconcile::lemma_seq_less_transitive(key, entries[p].0, entries[b - 1].0);
                    }
                    crate::reconcile::lemma_seq_less_transitive(entries[a].0, key, entries[b - 1].0);
                }
            } else {
                assert(n[a] == entries[a - 1] && n[b] == entries[b - 1]);
            }
        }
        lemma_insert_new_map(entries, key, value, p);
    }
}

proof fn lemma_insert_new_map(entries: Seq<(Seq<char>, Seq<char>)>, key: Seq<char>, value: Seq<char>, p: int)
    requires
        unique_keys(entries),
        0 <= p <= entries.len(),
        forall|j: int| 0 <= j < entries.len() ==> #[trigger] entries[j].0 != key,
    ensures
        context_map(entries.insert(p, (key, value))) =~= context_map(entries).insert(key, value),
{
    let n = entries.insert(p, (key, value));
    assert(unique_keys(n)) by {
        assert forall|i: int, j: int| 0 <= i < n.len() && 0 <= j < n.len() && i != j implies n[i].0 != n[j].0 by {
            let ei = if i < p { i } else { i - 1 };
            let ej = if j < p { j } else { j - 1 };
            if i != p && j != p {
                assert(n[i] == entries[ei] && n[j] == entries[ej]);
            } else if i == p {
                assert(n[j] == entries[ej]);
            } else {
                assert(n[i] == entries[ei]);
            }
        }
    }
    assert forall|k: Seq<char>| #![auto] context_index(n, k) is Some <==> (context_index(entries, k) is Some || k == key) by {
        if context_index(entries, k) is Some {
            let j = context_index(entries, k)->0;
            let nj = if j < p { j } else { j + 1 };
            assert(n[nj].0 == k);
        }
        if k == key {
            assert(n[p].0 == k);
        }
        if context_index(n, k) is Some {
            let j = context_index(n, k)->0;
            if j != p {
                let ej = if j < p { j } else { j - 1 };
                assert(n[j] == entries[ej]);
            }
        }
    }
    assert forall|k: Seq<char>| #![auto] context_index(n, k) is Some ==> n[context_index(n, k)->0].1 == (if k == key { value } else { entries[context_index(entries, k)->0].1 }) by {
        if context_index(n, k) is Some {
            let j = context_index(n, k)->0;
            if k == key {
                if j != p {
                    let ej = if j < p { j } else { j - 1 };
                    assert(n[j] == entries[ej]);
                }
            } else {
                assert(j != p);
                let ej = if j < p { j } else { j - 1 };
                assert(n[j] == entries[ej]);
                let j2 = context_index(entries, k)->0;
                assert(j2 == ej);
            }
        }
    }
}

proof fn lemma_insert_map(entries: Seq<(Seq<char>, Seq<char>)>, key: Seq<char>, value: Seq<char>)
    requires
        unique_keys(entries),
        context_index(entries, key) is Some,
    ensures
        context_map(entries.update(context_index(entries, key)->0, (key, value))) =~= context_map(entries).insert(key, value),
{
    let n = entries.update(context_index(entries, key)->0, (key, value));
    match context_index(entries, key) {
        Some(i) => {
            assert(0 <= i < entries.len() && entries[i].0 == key);
            assert forall|k: Seq<char>| #![auto] context_index(n, k) is Some <==> (context_index(entries, k) is Some || k == key) by {
                if context_index(entries, k) is Some {
                    let j = context_index(entries, k)->0;
                    assert(n[j].0 == k);
                }
                if k == key {
                    assert(n[i].0 == k);
                }
                if context_index(n, k) is Some {
                    let j = context_index(n, k)->0;
                    if j != i {
                        assert(entries[j].0 == k);
                    }
                }
            }
            assert forall|k: Seq<char>| #![auto] context_index(n, k) is Some ==> n[context_index(n, k)->0].1 == (if k == key { value } else { entries[context_index(entries, k)->0].1 }) by {
                if context_index(n, k) is Some {
                    let j = context_index(n, k)->0;
                    if k == key {
                        assert(j == i);
                    } else {
                        assert(j != i);
                        assert(entries[j].0 == k);
                        let j2 = context_index(entries, k)->0;
                        assert(j2 == j);
                    }
                }
            }
        },
        None => {
            assert forall|k: Seq<char>| #![auto] context_index(n, k) is Some <==> (context_index(entries, k) is Some || k == key) by {
                if context_index(entries, k) is Some {
                    let j = context_index(entries, k)->0;
                    assert(n[j].0 == k);
                }
                if k == key {
                    assert(n[entries.len() as int].0 == k);
                }
                if context_index(n, k) is Some {
                    let j = context_index(n, k)->0;
                    if j < entries.len() {
                        assert(entries[j].0 == k);
                    }
                }
            }
            assert forall|k: Seq<char>| #![auto] context_index(n, k) is Some ==> n[context_index(n, k)->0].1 == (if k == key { value } else { entries[context_index(entries, k)->0].1 }) by {
                if context_index(n, k) is Some {
                    let j = context_index(n, k)->0;
                    if k == key {
                        assert(j == entries.len());
                    } else {
                        assert(j < entries.len());
                        let j2 = context_index(entries, k)->0;
                        assert(entries[j].0 == k);
                        assert(j2 == j);
                    }
                }
            }
        },
    }
}


/// The message of an invalid privilege name: the name in debug quotes.
fn privilege_message(error: &crate::model::principal::InvalidPrivilege) -> (s: String)
    ensures
        s@ == "invalid Windows privilege name "@ + crate::text::debug_quoted_spec(error@),
{
    let mut s = "invalid Windows privilege name ".to_owned();
    s.append(crate::text::debug_quoted(error.name()).as_str());
    s
}

impl From<crate::path::ParsePathError> for Error {
    /// Classifies the failure as [`ErrorKind::InvalidPath`], keeping its message.
    fn from(error: crate::path::ParsePathError) -> (e: Self)
        ensures
            e@.kind == ErrorKind::InvalidPath,
            e@.message == error@,
            e@.operation is None,
            e@.target is None,
            e@.native_code is None,
            e@.diagnostics.len() == 0,
            e@.context.len() == 0,
    {
        Error::new(ErrorKind::InvalidPath, error.message())
    }
}

impl vstd::std_specs::convert::FromSpecImpl<crate::path::ParsePathError> for Error {
    /// The converted error is an error whose view is the conversion's
    /// kind and message with nothing else recorded; `from` states that view,
    /// and since two errors with that view need not be one value, `from` is
    /// not claimed to return this very one.
    open spec fn obeys_from_spec() -> bool {
        false
    }

    open spec fn from_spec(v: crate::path::ParsePathError) -> Error {
        choose|e: Error| #[trigger] e.view() == converted_error(ErrorKind::InvalidPath, v@)
    }
}

impl From<crate::model::time::ParseTaskDateTimeError> for Error {
    /// Classifies the failure as [`ErrorKind::InvalidDefinition`], keeping its message.
    fn from(error: crate::model::time::ParseTaskDateTimeError) -> (e: Self)
        ensures
            e@.message == error@,
            e@.kind == ErrorKind::InvalidDefinition,
            e@.operation is None,
            e@.target is None,
            e@.native_code is None,
            e@.diagnostics.len() == 0,
            e@.context.len() == 0,
    {
        Error::new(ErrorKind::InvalidDefinition, error.message())
    }
}

impl vstd::std_specs::convert::FromSpecImpl<crate::model::time::ParseTaskDateTimeError> for Error {
    /// The converted error is an error whose view is the conversion's
    /// kind and message with nothing else recorded; `from` states that view,
    /// and since two errors with that view need not be one value, `from` is
    /// not claimed to return this very one.
    open spec fn obeys_from_spec() -> bool {
        false
    }

    open spec fn from_spec(v: crate::model::time::ParseTaskDateTimeError) -> Error {
        choose|e: Error| #[trigger] e.view() == converted_error(ErrorKind::InvalidDefinition, v@)
    }
}

impl From<crate::model::time::ParseTaskDurationError> for Error {
    /// Classifies the failure as [`ErrorKind::InvalidDefinition`], keeping its message.
    fn from(error: crate::model::time::ParseTaskDurationError) -> (e: Self)
        ensures
            e@.message == error@,
            e@.kind == ErrorKind::InvalidDefinition,
            e@.operation is None,
            e@.target is None,
            e@.native_code is None,
            e@.diagnostics.len() == 0,
            e@.context.len() == 0,
    {
        Error::new(ErrorKind::InvalidDefinition, error.message())
    }
}

impl vstd::std_specs::convert::FromSpecImpl<crate::model::time::ParseTaskDurationError> for Error {
    /// The converted error is an error whose view is the conversion's
    /// kind and message with nothing else recorded; `from` states that view,
    /// and since two errors with that view need not be one value, `from` is
    /// not claimed to return this very one.
    open spec fn obeys_from_spec() -> bool {
        false
    }

    open spec fn from_spec(v: crate::model::time::ParseTaskDurationError) -> Error {
        choose|e: Error| #[trigger] e.view() == converted_error(ErrorKind::InvalidDefinition, v@)
    }
}

impl From<crate::model::CollectionLimitError> for Error {
    /// Classifies the failure as [`ErrorKind::InvalidDefinition`], keeping its message.
    fn from(error: crate::model::CollectionLimitError) -> (e: Self)
        ensures
            e@.message == crate::model::collection_message(error),
            e@.kind == ErrorKind::InvalidDefinition,
            e@.operation is None,
            e@.target is None,
            e@.native_code is None,
            e@.diagnostics.len() == 0,
            e@.context.len() == 0,
    {
        Error::new(ErrorKind::InvalidDefinition, error.message().as_str())
    }
}

impl vstd::std_specs::convert::FromSpecImpl<crate::model::CollectionLimitError> for Error {
    /// The converted error is an error whose view is the conversion's
    /// kind and message with nothing else recorded; `from` states that view,
    /// and since two errors with that view need not be one value, `from` is
    /// not claimed to return this very one.
    open spec fn obeys_from_spec() -> bool {
        false
    }

    open spec fn from_spec(v: crate::model::CollectionLimitError) -> Error {
        choose|e: Error| #[trigger] e.view() == converted_error(ErrorKind::InvalidDefinition, crate::model::collection_message(v))
    }
}

impl From<crate::model::InvalidSecurityDescriptor> for Error {
    /// Classifies the failure as [`ErrorKind::InvalidDefinition`], keeping its message.
    fn from(error: crate::model::InvalidSecurityDescriptor) -> (e: Self)
        ensures
            e@.message == "a security descriptor must be non-empty SDDL without NUL"@,
            e@.kind == ErrorKind::InvalidDefinition,
            e@.operation is None,
            e@.target is None,
            e@.native_code is None,
            e@.diagnostics.len() == 0,
            e@.context.len() == 0,
    {
        Error::new(ErrorKind::InvalidDefinition, "a security descriptor must be non-empty SDDL without NUL")
    }
}

impl vstd::std_specs::convert::FromSpecImpl<crate::model::InvalidSecurityDescriptor> for Error {
    /// The converted error is an error whose view is the conversion's
    /// kind and message with nothing else recorded; `from` states that view,
    /// and since two errors with that view need not be one value, `from` is
    /// not claimed to return this very one.
    open spec fn obeys_from_spec() -> bool {
        false
    }

    open spec fn from_spec(v: crate::model::InvalidSecurityDescriptor) -> Error {
        choose|e: Error| #[trigger] e.view() == converted_error(ErrorKind::InvalidDefinition, "a security descriptor must be non-empty SDDL without NUL"@)
    }
}

impl From<crate::model::principal::InvalidPrivilege> for Error {
    /// Classifies the failure as [`ErrorKind::InvalidDefinition`], keeping its message.
    fn from(error: crate::model::principal::InvalidPrivilege) -> (e: Self)
        ensures
            e@.message == "invalid Windows privilege name "@ + crate::text::debug_quoted_spec(error@),
            e@.kind == ErrorKind::InvalidDefinition,
            e@.operation is None,
            e@.target is None,
            e@.native_code is None,
            e@.diagnostics.len() == 0,
            e@.context.len() == 0,
    {
        Error::new(ErrorKind::InvalidDefinition, privilege_message(&error).as_str())
    }
}

impl vstd::std_specs::convert::FromSpecImpl<crate::model::principal::InvalidPrivilege> for Error {
    /// The converted error is an error whose view is the conversion's
    /// kind and message with nothing else recorded; `from` states that view,
    /// and since two errors with that view need not be one value, `from` is
    /// not claimed to return this very one.
    open spec fn obeys_from_spec() -> bool {
        false
    }

    open spec fn from_spec(v: crate::model::principal::InvalidPrivilege) -> Error {
        choose|e: Error| #[trigger] e.view() == converted_error(ErrorKind::InvalidDefinition, "invalid Windows privilege name "@ + crate::text::debug_quoted_spec(v@))
    }
}

impl From<crate::schedule::ScheduleError> for Error {
    /// Classifies the failure as [`ErrorKind::InvalidDefinition`], keeping its message.
    fn from(error: crate::schedule::ScheduleError) -> (e: Self)
        ensures
            e@.message == crate::schedule::schedule_error_message(error),
            e@.kind == ErrorKind::InvalidDefinition,
            e@.operation is None,
            e@.target is None,
            e@.native_code is None,
            e@.diagnostics.len() == 0,
            e@.context.len() == 0,
    {
        Error::new(ErrorKind::InvalidDefinition, error.message().as_str())
    }
}

impl vstd::std_specs::convert::FromSpecImpl<crate::schedule::ScheduleError> for Error {
    /// The converted error is an error whose view is the conversion's
    /// kind and message with nothing else recorded; `from` states that view,
    /// and since two errors with that view need not be one value, `from` is
    /// not claimed to return this very one.
    open spec fn obeys_from_spec() -> bool {
        false
    }

    open spec fn from_spec(v: crate::schedule::ScheduleError) -> Error {
        choose|e: Error| #[trigger] e.view() == converted_error(ErrorKind::InvalidDefinition, crate::schedule::schedule_error_message(v))
    }
}


/// Classification of a native Task Scheduler or Win32 HRESULT.
pub open spec fn native_error_kind_spec(code: u32) -> ErrorKind {
    if code == 0x8007_0005 {
        ErrorKind::AccessDenied
    } else if code == 0x8007_0002 || code == 0x8007_0003 || code == 0x8004_1309 || code == 0x8004_130D {
        ErrorKind::NotFound
    } else if code == 0x8007_00B7 {
        ErrorKind::AlreadyExists
    } else if code == 0x8007_0056 || code == 0x8007_052E || code == 0x8004_130F || code == 0x8004_1310
        || code == 0x8004_1311 || code == 0x8004_1312 || code == 0x8004_1320 {
        ErrorKind::Authentication
    } else if code == 0x8007_06BA || code == 0x8007_06BE || code == 0x8007_06BF || code == 0x8004_130C
        || code == 0x8004_1315 || code == 0x8004_1322 || code == 0x8004_1323 {
        ErrorKind::SchedulerUnavailable
    } else if code == 0x8004_130E || code == 0x8004_1316 || code == 0x8004_1317 || code == 0x8004_1318
        || code == 0x8004_1319 || code == 0x8004_131A || code == 0x8004_131D || code == 0x8004_131E
        || code == 0x8004_1321 {
        ErrorKind::InvalidDefinition
    } else if code == 0x8004_1313 || code == 0x8004_1314 || code == 0x8004_1327 || code == 0x8004_1329
        || code == 0x8004_1330 {
        ErrorKind::Capability
    } else if code == 0x8004_131F || code == 0x8004_1326 || code == 0x8004_1328 {
        ErrorKind::Conflict
    } else {
        ErrorKind::Com
    }
}

/// Classifies a native HRESULT.
pub fn native_error_kind(code: u32) -> (k: ErrorKind)
    ensures
        k == native_error_kind_spec(code),
{
    match code {
        0x8007_0005 => ErrorKind::AccessDenied,
        0x8007_0002 | 0x8007_0003 | 0x8004_1309 | 0x8004_130D => ErrorKind::NotFound,
        0x8007_00B7 => ErrorKind::AlreadyExists,
        0x8007_0056 | 0x8007_052E | 0x8004_130F | 0x8004_1310 | 0x8004_1311 | 0x8004_1312
        | 0x8004_1320 => ErrorKind::Authentication,
        0x8007_06BA | 0x8007_06BE | 0x8007_06BF | 0x8004_130C | 0x8004_1315 | 0x8004_1322
        | 0x8004_1323 => ErrorKind::SchedulerUnavailable,
        0x8004_130E | 0x8004_1316 | 0x8004_1317 | 0x8004_1318 | 0x8004_1319 | 0x8004_131A
        | 0x8004_131D | 0x8004_131E | 0x8004_1321 => ErrorKind::InvalidDefinition,
        0x8004_1313 | 0x8004_1314 | 0x8004_1327 | 0x8004_1329 | 0x8004_1330 => ErrorKind::Capability,
        0x8004_131F | 0x8004_1326 | 0x8004_1328 => ErrorKind::Conflict,
        _ => ErrorKind::Com,
    }
}

/// The error for a failed native operation: classified by its HRESULT,
/// carrying the native message, the operation, the code and the target.
pub fn native_error(operation: &str, target: Option<&str>, code: i32, message: &str) -> (e: Error)
    ensures
        e@.kind == native_error_kind_spec(code_bits_spec(code)),
        e@.message == message@,
        e@.operation == Some(operation@),
        e@.native_code == Some(code),
        e@.target == opt_str_view(target),
        e@.diagnostics.len() == 0,
        e@.context.len() == 0,
{
    let kind = native_error_kind(code_bits(code));
    let mut result = Error::new(kind, message).with_operation(operation).with_native_code(code);
    match target {
        Some(t) => {
            result = result.with_target(t);
        },
        None => {},
    }
    result
}


/// Refuses an operation that needs an explicit acknowledgement when none
/// was given.
pub fn require_yes(value: bool, operation: &str) -> (r: Result<(), Error>)
    ensures
        r is Ok <==> value,
        r matches Err(e) ==> e@.kind == ErrorKind::Conflict && e@.message == operation@
            + "; repeat with --yes after reviewing the target"@,
{
    if value {
        Ok(())
    } else {
        let mut message = operation.to_owned();
        message.append("; repeat with --yes after reviewing the target");
        Err(Error::new(ErrorKind::Conflict, message.as_str()))
    }
}

} // verus!
