//! Portable, fully owned Task Scheduler domain model.
use vstd::prelude::*;
use vstd::string::*;

use crate::text::{chars_of, opt_view, str_eq, string_of};
use crate::validation::ValidationReport;
use crate::{MAX_ACTIONS, MAX_TRIGGERS};

pub mod time;

pub use time::{
    ParseTaskDateTimeError, ParseTaskDurationError, TaskDateTime, TaskDuration, TaskLimit, TimeBasis,
};
pub mod principal;
pub mod settings;

pub use principal::{
    InvalidPrivilege, LogonType, Principal, PrincipalIdentity, ProcessTokenSidType,
    RequiredPrivilege, RunLevel, ServiceAccount,
};
pub use settings::{
    IdleSettings, MaintenanceSettings, MultipleInstancesPolicy, NetworkSettings, RestartPolicy,
    TaskSettings,
};
pub mod action;

pub use action::{
    Action, ComHandlerAction, EmailAction, EmailHeader, ExecAction, ShowMessageAction,
    UnknownAction, expand_action_templates, quote_windows_argument,
};
pub mod trigger;
pub mod compare;
pub mod builder;
pub mod duration_laws;
pub mod datetime_laws;
pub mod argv_laws;

pub use trigger::{
    BootTrigger, DailyTrigger, EventTrigger, IdleTrigger, LogonTrigger, Month, MonthlyDowTrigger,
    MonthlyTrigger, RegistrationTrigger, Repetition, SessionStateChange, SessionStateChangeTrigger,
    TimeTrigger, Trigger, TriggerCommon, UnknownTrigger, WeekOfMonth, Weekday, WeeklyTrigger,
};

verus! {

broadcast use vstd::string::group_string_axioms;

/// Task Scheduler XML schema generation.
#[derive(Clone, Debug, Eq, Hash, PartialEq)]
pub enum TaskSchemaVersion {
    /// Task Scheduler 2.0 / schema 1.2.
    V1_2,
    /// Windows 7 additions / schema 1.3.
    V1_3,
    /// Windows 8 additions / schema 1.4.
    V1_4,
    /// Windows 10 additions / schema 1.5.
    V1_5,
    /// Current schema 1.6 additions.
    V1_6,
    /// A future schema retained by the raw XML layer.
    Unknown(String),
}

/// Version text of a known schema generation `1.<minor>`.
pub open spec fn version_text(minor: char) -> Seq<char> {
    seq!['1', '.', minor]
}

/// The schema version a `version` attribute denotes.
pub open spec fn schema_version_spec(v: Seq<char>) -> TaskSchemaVersionView {
    if v == version_text('2') {
        TaskSchemaVersionView::V1_2
    } else if v == version_text('3') {
        TaskSchemaVersionView::V1_3
    } else if v == version_text('4') {
        TaskSchemaVersionView::V1_4
    } else if v == version_text('5') {
        TaskSchemaVersionView::V1_5
    } else if v == version_text('6') {
        TaskSchemaVersionView::V1_6
    } else {
        TaskSchemaVersionView::Unknown(v)
    }
}

/// Mathematical view of a [`TaskSchemaVersion`].
pub enum TaskSchemaVersionView {
    /// Schema 1.2.
    V1_2,
    /// Schema 1.3.
    V1_3,
    /// Schema 1.4.
    V1_4,
    /// Schema 1.5.
    V1_5,
    /// Schema 1.6.
    V1_6,
    /// Another version text.
    Unknown(Seq<char>),
}

/// The version text of a schema version.
pub open spec fn schema_text(v: TaskSchemaVersionView) -> Seq<char> {
    match v {
        TaskSchemaVersionView::V1_2 => version_text('2'),
        TaskSchemaVersionView::V1_3 => version_text('3'),
        TaskSchemaVersionView::V1_4 => version_text('4'),
        TaskSchemaVersionView::V1_5 => version_text('5'),
        TaskSchemaVersionView::V1_6 => version_text('6'),
        TaskSchemaVersionView::Unknown(s) => s,
    }
}

impl View for TaskSchemaVersion {
    type V = TaskSchemaVersionView;

    open spec fn view(&self) -> TaskSchemaVersionView {
        match self {
            TaskSchemaVersion::V1_2 => TaskSchemaVersionView::V1_2,
            TaskSchemaVersion::V1_3 => TaskSchemaVersionView::V1_3,
            TaskSchemaVersion::V1_4 => TaskSchemaVersionView::V1_4,
            TaskSchemaVersion::V1_5 => TaskSchemaVersionView::V1_5,
            TaskSchemaVersion::V1_6 => TaskSchemaVersionView::V1_6,
            TaskSchemaVersion::Unknown(s) => TaskSchemaVersionView::Unknown(s@),
        }
    }
}

impl TaskSchemaVersion {
    /// Whether two schema versions are the same.
    pub fn same(&self, other: &Self) -> (r: bool)
        ensures
            r == (self@ == other@),
    {
        match (self, other) {
            (TaskSchemaVersion::V1_2, TaskSchemaVersion::V1_2) => true,
            (TaskSchemaVersion::V1_3, TaskSchemaVersion::V1_3) => true,
            (TaskSchemaVersion::V1_4, TaskSchemaVersion::V1_4) => true,
            (TaskSchemaVersion::V1_5, TaskSchemaVersion::V1_5) => true,
            (TaskSchemaVersion::V1_6, TaskSchemaVersion::V1_6) => true,
            (TaskSchemaVersion::Unknown(a), TaskSchemaVersion::Unknown(b)) => crate::text::str_eq(
                a.as_str(),
                b.as_str(),
            ),
            _ => false,
        }
    }

    /// Parses the value of the Task XML `version` attribute.
    pub fn parse(value: &str) -> (v: Self)
        ensures
            v@ == schema_version_spec(value@),
    {
        let c = chars_of(value);
        if c.len() == 3 && c[0] == '1' && c[1] == '.' {
            proof {
                assert(c@ =~= version_text(c@[2]));
            }
            if c[2] == '2' {
                return TaskSchemaVersion::V1_2;
            } else if c[2] == '3' {
                return TaskSchemaVersion::V1_3;
            } else if c[2] == '4' {
                return TaskSchemaVersion::V1_4;
            } else if c[2] == '5' {
                return TaskSchemaVersion::V1_5;
            } else if c[2] == '6' {
                return TaskSchemaVersion::V1_6;
            }
        }
        proof {
            assert forall|m: char| m == '2' || m == '3' || m == '4' || m == '5' || m == '6' implies value@ != version_text(m) by {
                if value@ == version_text(m) {
                    assert(c@.len() == 3 && c@[0] == '1' && c@[1] == '.' && c@[2] == m);
                }
            }
        }
        TaskSchemaVersion::Unknown(value.to_owned())
    }

    /// Returns the Task XML version text.
    pub fn as_str(&self) -> (s: String)
        ensures
            s@ == schema_text(self@),
    {
        let minor = match self {
            TaskSchemaVersion::V1_2 => '2',
            TaskSchemaVersion::V1_3 => '3',
            TaskSchemaVersion::V1_4 => '4',
            TaskSchemaVersion::V1_5 => '5',
            TaskSchemaVersion::V1_6 => '6',
            TaskSchemaVersion::Unknown(value) => return value.clone(),
        };
        let mut s = String::new();
        crate::text::push_char(&mut s, '1');
        crate::text::push_char(&mut s, '.');
        crate::text::push_char(&mut s, minor);
        proof {
            assert(s@ =~= version_text(minor));
        }
        s
    }

    /// Generation number of the schema: 2 through 6, with unknown
    /// versions counted as the newest.
    pub fn generation(&self) -> (g: u8)
        ensures
            g == schema_generation(self@),
    {
        match self {
            TaskSchemaVersion::V1_2 => 2,
            TaskSchemaVersion::V1_3 => 3,
            TaskSchemaVersion::V1_4 => 4,
            TaskSchemaVersion::V1_5 => 5,
            TaskSchemaVersion::V1_6 => 6,
            TaskSchemaVersion::Unknown(_) => 6,
        }
    }
}

/// Generation number of a schema version; unknown versions count as the newest.
pub open spec fn schema_generation(v: TaskSchemaVersionView) -> u8 {
    match v {
        TaskSchemaVersionView::V1_2 => 2,
        TaskSchemaVersionView::V1_3 => 3,
        TaskSchemaVersionView::V1_4 => 4,
        TaskSchemaVersionView::V1_5 => 5,
        _ => 6,
    }
}

/// Reading back the text of a parsed version attribute gives the attribute.
pub proof fn lemma_schema_version_text_round_trip(value: Seq<char>)
    ensures
        schema_text(schema_version_spec(value)) == value,
{
}

/// Parsing the text of a schema version gives the version back.
pub proof fn lemma_schema_version_parse_round_trip(v: TaskSchemaVersionView)
    requires
        v matches TaskSchemaVersionView::Unknown(s) ==> schema_version_spec(s) == v,
    ensures
        schema_version_spec(schema_text(v)) == v,
{
}

impl Default for TaskSchemaVersion {
    /// Schema 1.6.
    fn default() -> (v: Self)
        ensures
            v@ == TaskSchemaVersionView::V1_6,
    {
        TaskSchemaVersion::V1_6
    }
}

/// Validated SDDL security descriptor with a lossless textual representation.
#[derive(Debug, Eq, Hash, PartialEq)]
pub struct SecurityDescriptor(String);

impl Clone for SecurityDescriptor {
    fn clone(&self) -> (c: Self)
        ensures
            c@ == self@,
    {
        SecurityDescriptor(self.0.clone())
    }
}

/// An empty or NUL-containing SDDL value.
#[derive(Clone, Copy, Debug, Eq, PartialEq, Structural)]
pub struct InvalidSecurityDescriptor;

impl View for SecurityDescriptor {
    type V = Seq<char>;

    closed spec fn view(&self) -> Seq<char> {
        self.0@
    }
}

/// Whether `v` is acceptable SDDL text: non-empty and without NUL.
pub open spec fn valid_sddl(v: Seq<char>) -> bool {
    v.len() > 0 && !v.contains('\0')
}

/// The SDDL text compared for access equivalence: the Windows
/// auto-inheritance status bit is dropped from the DACL and SACL headers;
/// text with quoted conditional expressions is compared verbatim.
pub open spec fn access_key(v: Seq<char>) -> Seq<char> {
    if v.contains('\'') || v.contains('"') {
        v
    } else {
        crate::model::action::replace_all(
            crate::model::action::replace_all(
                crate::model::action::replace_all(
                    crate::model::action::replace_all(v, seq!['D', ':', 'P', 'A', 'I', '('], seq!['D', ':', 'P', '(']),
                    seq!['D', ':', 'A', 'I', '('],
                    seq!['D', ':', '('],
                ),
                seq!['S', ':', 'P', 'A', 'I', '('],
                seq!['S', ':', 'P', '('],
            ),
            seq!['S', ':', 'A', 'I', '('],
            seq!['S', ':', '('],
        )
    }
}

impl SecurityDescriptor {
    /// Creates an SDDL descriptor. Native semantic validation also occurs when
    /// the descriptor is applied on Windows.
    pub fn from_sddl(value: &str) -> (r: Result<Self, InvalidSecurityDescriptor>)
        ensures
            match r {
                Ok(d) => valid_sddl(value@) && d@ == value@,
                Err(_) => !valid_sddl(value@),
            },
    {
        let c = chars_of(value);
        if c.len() == 0 || crate::text::contains_char(c.as_slice(), '\0') {
            Err(InvalidSecurityDescriptor)
        } else {
            Ok(SecurityDescriptor(value.to_owned()))
        }
    }

    /// Returns the SDDL representation.
    pub fn as_sddl(&self) -> (s: &str)
        ensures
            s@ == self@,
    {
        self.0.as_str()
    }

    /// Whether two descriptors grant the same access, ignoring only the
    /// Windows auto-inheritance status bit.
    pub fn access_equivalent(&self, other: &Self) -> (r: bool)
        ensures
            r == (access_key(self@) == access_key(other@)),
    {
        let a = access_key_exec(self.0.as_str());
        let b = access_key_exec(other.0.as_str());
        str_eq(a.as_str(), b.as_str())
    }
}

fn access_key_exec(v: &str) -> (k: String)
    ensures
        k@ == access_key(v@),
{
    let c = chars_of(v);
    if crate::text::contains_char(c.as_slice(), '\'') || crate::text::contains_char(c.as_slice(), '"') {
        return v.to_owned();
    }
    let a = crate::model::action::replace_all_exec(v, &['D', ':', 'P', 'A', 'I', '('], "D:P(");
    let b = crate::model::action::replace_all_exec(a.as_str(), &['D', ':', 'A', 'I', '('], "D:(");
    let d = crate::model::action::replace_all_exec(b.as_str(), &['S', ':', 'P', 'A', 'I', '('], "S:P(");
    let e = crate::model::action::replace_all_exec(d.as_str(), &['S', ':', 'A', 'I', '('], "S:(");
    proof {
        reveal_strlit("D:P(");
        reveal_strlit("D:(");
        reveal_strlit("S:P(");
        reveal_strlit("S:(");
        assert("D:P("@ =~= seq!['D', ':', 'P', '(']);
        assert("D:("@ =~= seq!['D', ':', '(']);
        assert("S:P("@ =~= seq!['S', ':', 'P', '(']);
        assert("S:("@ =~= seq!['S', ':', '(']);
    }
    e
}

} // verus!

verus! {

/// Registration metadata shown by Task Scheduler.
#[derive(Clone, Debug, Default, Eq, PartialEq)]
pub struct RegistrationInfo {
    /// Author or owning application.
    pub author: Option<String>,
    /// Registration timestamp.
    pub date: Option<TaskDateTime>,
    /// Free-form description.
    pub description: Option<String>,
    /// Documentation URI or text.
    pub documentation: Option<String>,
    /// Where the task comes from.
    pub source: Option<String>,
    /// Version of the task definition.
    pub version: Option<String>,
    /// Registration URI. Windows can rewrite this to the task path; reconcile
    /// stores ownership in Source and accepts legacy URI markers when present.
    pub uri: Option<String>,
    /// Optional task security descriptor.
    pub security_descriptor: Option<SecurityDescriptor>,
}

/// Whether no registration field is set.
pub open spec fn registration_is_empty(r: RegistrationInfo) -> bool {
    &&& r.author is None
    &&& r.date is None
    &&& r.description is None
    &&& r.documentation is None
    &&& r.source is None
    &&& r.version is None
    &&& r.uri is None
    &&& r.security_descriptor is None
}

impl RegistrationInfo {
    /// Registration metadata with nothing set.
    pub fn empty() -> (r: Self)
        ensures
            registration_is_empty(r),
    {
        RegistrationInfo {
            author: None,
            date: None,
            description: None,
            documentation: None,
            source: None,
            version: None,
            uri: None,
            security_descriptor: None,
        }
    }

    /// Whether no field is set.
    pub fn is_empty(&self) -> (e: bool)
        ensures
            e == registration_is_empty(*self),
    {
        self.author.is_none() && self.date.is_none() && self.description.is_none()
            && self.documentation.is_none() && self.source.is_none() && self.version.is_none()
            && self.uri.is_none() && self.security_descriptor.is_none()
    }
}

/// Opaque XML retained at a stable extension point.
#[derive(Clone, Debug, Eq, PartialEq)]
pub struct XmlExtension {
    /// Slash-separated local-name path of the containing element.
    pub parent: String,
    /// Position among the containing element's children.
    pub ordinal: usize,
    /// Complete original XML element.
    pub xml: String,
}

/// Which native collection limit was exceeded.
#[derive(Clone, Copy, Debug, Eq, PartialEq, Structural)]
pub enum CollectionKind {
    /// The action collection (at most 32 entries).
    Actions,
    /// The trigger collection (at most 48 entries).
    Triggers,
}

/// A collection exceeded a Task Scheduler native maximum.
#[derive(Clone, Copy, Debug, Eq, PartialEq, Structural)]
pub struct CollectionLimitError {
    /// The collection.
    pub kind: CollectionKind,
    /// Number of entries it would have held.
    pub actual: usize,
    /// The native maximum.
    pub maximum: usize,
}

impl CollectionLimitError {
    fn actions(actual: usize) -> (e: Self)
        ensures
            e == (CollectionLimitError { kind: CollectionKind::Actions, actual, maximum: MAX_ACTIONS }),
    {
        CollectionLimitError { kind: CollectionKind::Actions, actual, maximum: MAX_ACTIONS }
    }

    fn triggers(actual: usize) -> (e: Self)
        ensures
            e == (CollectionLimitError { kind: CollectionKind::Triggers, actual, maximum: MAX_TRIGGERS }),
    {
        CollectionLimitError { kind: CollectionKind::Triggers, actual, maximum: MAX_TRIGGERS }
    }

    /// The error message: `<kind> contains <actual> entries; the maximum is <maximum>`.
    pub fn message(&self) -> (s: String)
        ensures
            s@ == collection_message(*self),
    {
        proof {
            reveal_strlit("actions");
            reveal_strlit("triggers");
        }
        let mut s = match self.kind {
            CollectionKind::Actions => "actions".to_owned(),
            CollectionKind::Triggers => "triggers".to_owned(),
        };
        s.append(" contains ");
        s.append(crate::text::u64_to_string(self.actual as u64).as_str());
        s.append(" entries; the maximum is ");
        s.append(crate::text::u64_to_string(self.maximum as u64).as_str());
        s
    }
}

/// The message of a collection limit failure: the collection, its size and
/// the limit.
pub open spec fn collection_message(e: CollectionLimitError) -> Seq<char> {
    (match e.kind {
        CollectionKind::Actions => "actions"@,
        CollectionKind::Triggers => "triggers"@,
    }) + " contains "@ + crate::text::decimal(e.actual as nat) + " entries; the maximum is "@
        + crate::text::decimal(e.maximum as nat)
}

/// Validated action collection enforcing Task Scheduler's 32-action limit.
#[derive(Debug, Default, Eq, PartialEq)]
pub struct Actions(Vec<Action>);

impl View for Actions {
    type V = Seq<Action>;

    closed spec fn view(&self) -> Seq<Action> {
        self.0@
    }
}

impl Clone for Actions {
    fn clone(&self) -> (c: Self)
        ensures
            c@.len() == self@.len(),
    {
        proof {
            use_type_invariant(self);
        }
        Actions(self.0.clone())
    }
}

impl Actions {
    #[verifier::type_invariant]
    closed spec fn inv(self) -> bool {
        self.0@.len() <= MAX_ACTIONS
    }

    /// Creates a checked action collection.
    pub fn new(values: Vec<Action>) -> (r: Result<Self, CollectionLimitError>)
        ensures
            match r {
                Ok(a) => values@.len() <= MAX_ACTIONS && a@ == values@,
                Err(e) => values@.len() > MAX_ACTIONS && e == (CollectionLimitError {
                    kind: CollectionKind::Actions,
                    actual: values@.len() as usize,
                    maximum: MAX_ACTIONS,
                }),
            },
    {
        if values.len() > MAX_ACTIONS {
            Err(CollectionLimitError::actions(values.len()))
        } else {
            Ok(Actions(values))
        }
    }

    /// An empty collection.
    pub fn empty() -> (a: Self)
        ensures
            a@.len() == 0,
    {
        Actions(Vec::new())
    }

    /// Adds one action if the collection remains within the native limit.
    pub fn push(&mut self, action: Action) -> (r: Result<(), CollectionLimitError>)
        ensures
            match r {
                Ok(()) => old(self)@.len() < MAX_ACTIONS && final(self)@ == old(self)@.push(action),
                Err(e) => old(self)@.len() == MAX_ACTIONS && final(self)@ == old(self)@ && e == (
                CollectionLimitError {
                    kind: CollectionKind::Actions,
                    actual: (MAX_ACTIONS + 1) as usize,
                    maximum: MAX_ACTIONS,
                }),
            },
    {
        proof {
            use_type_invariant(&*self);
        }
        if self.0.len() == MAX_ACTIONS {
            return Err(CollectionLimitError::actions(self.0.len() + 1));
        }
        let mut values = Vec::new();
        std::mem::swap(&mut values, &mut self.0);
        values.push(action);
        self.0 = values;
        Ok(())
    }

    /// Returns all actions.
    pub fn as_slice(&self) -> (s: &[Action])
        ensures
            s@ == self@,
            s@.len() <= MAX_ACTIONS,
    {
        proof {
            use_type_invariant(self);
        }
        self.0.as_slice()
    }

    /// Returns whether the collection is empty.
    pub fn is_empty(&self) -> (e: bool)
        ensures
            e == (self@.len() == 0),
    {
        self.0.len() == 0
    }

    /// Returns the number of actions.
    pub fn len(&self) -> (n: usize)
        ensures
            n == self@.len(),
            n <= MAX_ACTIONS,
    {
        proof {
            use_type_invariant(self);
        }
        self.0.len()
    }

    /// The actions, in order.
    pub fn into_vec(self) -> (v: Vec<Action>)
        ensures
            v@ == self@,
    {
        self.0
    }
}

/// Validated trigger collection enforcing Task Scheduler's 48-trigger limit.
#[derive(Debug, Default, Eq, PartialEq)]
pub struct Triggers(Vec<Trigger>);

impl View for Triggers {
    type V = Seq<Trigger>;

    closed spec fn view(&self) -> Seq<Trigger> {
        self.0@
    }
}

impl Clone for Triggers {
    fn clone(&self) -> (c: Self)
        ensures
            c@.len() == self@.len(),
    {
        proof {
            use_type_invariant(self);
        }
        Triggers(self.0.clone())
    }
}

impl Triggers {
    #[verifier::type_invariant]
    closed spec fn inv(self) -> bool {
        self.0@.len() <= MAX_TRIGGERS
    }

    /// Creates a checked trigger collection.
    pub fn new(values: Vec<Trigger>) -> (r: Result<Self, CollectionLimitError>)
        ensures
            match r {
                Ok(t) => values@.len() <= MAX_TRIGGERS && t@ == values@,
                Err(e) => values@.len() > MAX_TRIGGERS && e == (CollectionLimitError {
                    kind: CollectionKind::Triggers,
                    actual: values@.len() as usize,
                    maximum: MAX_TRIGGERS,
                }),
            },
    {
        if values.len() > MAX_TRIGGERS {
            Err(CollectionLimitError::triggers(values.len()))
        } else {
            Ok(Triggers(values))
        }
    }

    /// An empty collection.
    pub fn empty() -> (t: Self)
        ensures
            t@.len() == 0,
    {
        Triggers(Vec::new())
    }

    /// Adds one trigger if the collection remains within the native limit.
    pub fn push(&mut self, trigger: Trigger) -> (r: Result<(), CollectionLimitError>)
        ensures
            match r {
                Ok(()) => old(self)@.len() < MAX_TRIGGERS && final(self)@ == old(self)@.push(trigger),
                Err(e) => old(self)@.len() == MAX_TRIGGERS && final(self)@ == old(self)@ && e == (
                CollectionLimitError {
                    kind: CollectionKind::Triggers,
                    actual: (MAX_TRIGGERS + 1) as usize,
                    maximum: MAX_TRIGGERS,
                }),
            },
    {
        proof {
            use_type_invariant(&*self);
        }
        if self.0.len() == MAX_TRIGGERS {
            return Err(CollectionLimitError::triggers(self.0.len() + 1));
        }
        let mut values = Vec::new();
        std::mem::swap(&mut values, &mut self.0);
        values.push(trigger);
        self.0 = values;
        Ok(())
    }

    /// Returns all triggers.
    pub fn as_slice(&self) -> (s: &[Trigger])
        ensures
            s@ == self@,
            s@.len() <= MAX_TRIGGERS,
    {
        proof {
            use_type_invariant(self);
        }
        self.0.as_slice()
    }

    /// Returns whether the collection is empty.
    pub fn is_empty(&self) -> (e: bool)
        ensures
            e == (self@.len() == 0),
    {
        self.0.len() == 0
    }

    /// Returns the number of triggers.
    pub fn len(&self) -> (n: usize)
        ensures
            n == self@.len(),
            n <= MAX_TRIGGERS,
    {
        proof {
            use_type_invariant(self);
        }
        self.0.len()
    }

    /// The triggers, in order.
    pub fn into_vec(self) -> (v: Vec<Trigger>)
        ensures
            v@ == self@,
    {
        self.0
    }
}

/// Complete portable task definition.
#[derive(Clone, Debug, Eq, PartialEq)]
pub struct TaskDefinition {
    /// Task XML schema version.
    pub schema_version: TaskSchemaVersion,
    /// Registration metadata.
    pub registration: RegistrationInfo,
    /// Trigger collection.
    pub triggers: Triggers,
    /// Security principal.
    pub principal: Principal,
    /// Runtime settings.
    pub settings: TaskSettings,
    /// Opaque task data available to COM handlers.
    pub data: Option<String>,
    /// Ordered action collection.
    pub actions: Actions,
    /// Future-schema fragments retained by the XML layer.
    pub extensions: Vec<XmlExtension>,
}

impl Default for TaskDefinition {
    /// Schema 1.6 with default registration, principal and settings, and no
    /// triggers, actions, data or extensions.
    fn default() -> (d: Self)
        ensures
            d.schema_version@ == TaskSchemaVersionView::V1_6,
            registration_is_empty(d.registration),
            d.triggers@.len() == 0,
            d.data is None,
            d.actions@.len() == 0,
            d.extensions@.len() == 0,
    {
        TaskDefinition {
            schema_version: TaskSchemaVersion::default(),
            registration: RegistrationInfo::empty(),
            triggers: Triggers::empty(),
            principal: Principal::default(),
            settings: TaskSettings::default(),
            data: None,
            actions: Actions::empty(),
            extensions: Vec::new(),
        }
    }
}

impl TaskDefinition {
    /// Creates a definition containing one action and default settings.
    pub fn new(action: Action) -> (d: Self)
        ensures
            d.schema_version@ == TaskSchemaVersionView::V1_6,
            registration_is_empty(d.registration),
            d.triggers@.len() == 0,
            d.data is None,
            d.actions@ == seq![action],
            d.extensions@.len() == 0,
    {
        let mut actions = Actions::empty();
        let pushed = actions.push(action);
        proof {
            assert(actions@ =~= seq![action]);
        }
        TaskDefinition {
            schema_version: TaskSchemaVersion::default(),
            registration: RegistrationInfo::empty(),
            triggers: Triggers::empty(),
            principal: Principal::default(),
            settings: TaskSettings::default(),
            data: None,
            actions,
            extensions: Vec::new(),
        }
    }
}

} // verus!

verus! {

impl TaskDefinition {
    /// Performs complete portable and cross-field validation.
    pub fn validate(&self) -> (r: ValidationReport)
        ensures
            crate::validation::diags_view(r.diagnostics@) == crate::validation::definition_findings(*self),
    {
        crate::validation::validate_definition(self)
    }
}

} // verus!
