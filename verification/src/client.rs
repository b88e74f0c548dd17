//! Connection, registration and enumeration options, and security-information
//! flags for SDDL operations.
use vstd::prelude::*;

use crate::model::time::std_duration_new;
use crate::model::{SecurityDescriptor, TaskSchemaVersion};
use crate::path::FolderPath;

verus! {

/// Process-wide COM behavior. The library never silently initializes COM
/// security because another library may already own that decision.
#[derive(Clone, Copy, Debug, Eq, Hash, PartialEq, Structural)]
pub enum ComSecurityPolicy {
    /// Use existing process security and configure returned proxies when possible.
    ExistingProcess,
    /// Require proxy configuration to succeed; otherwise connection fails.
    RequireProxyBlanket,
}

impl Default for ComSecurityPolicy {
    fn default() -> (p: Self)
        ensures
            p == ComSecurityPolicy::ExistingProcess,
    {
        ComSecurityPolicy::ExistingProcess
    }
}

/// Information reported by the connected Task Scheduler service.
#[derive(Clone, Debug, Eq, PartialEq)]
pub struct ConnectionInfo {
    /// Server name selected by Task Scheduler.
    pub target_server: String,
    /// Connected username, when reported.
    pub user: Option<String>,
    /// Connected domain, when reported.
    pub domain: Option<String>,
    /// Highest Task Scheduler interface/schema version.
    pub highest_version: u32,
}

/// Capabilities determined from the connected service and read-only probes.
#[derive(Clone, Debug, Eq, PartialEq)]
pub struct Capabilities {
    /// Native packed highest-version value.
    pub highest_version: u32,
    /// Highest typed schema that can be registered.
    pub schema_version: TaskSchemaVersion,
    /// Required privileges on principals are accepted.
    pub required_privileges: bool,
    /// Automatic maintenance settings are accepted.
    pub maintenance_settings: bool,
    /// Volatile task settings are accepted.
    pub volatile_tasks: bool,
    /// Operational event history can be queried.
    pub history_query: bool,
    /// Remote event history can be queried in this session.
    pub remote_history_query: bool,
}

/// Task Scheduler runtime state.
#[derive(Clone, Copy, Debug, Eq, Hash, PartialEq, Structural)]
pub enum TaskState {
    /// State is not known.
    Unknown,
    /// Task is disabled.
    Disabled,
    /// Task is queued.
    Queued,
    /// Task is ready.
    Ready,
    /// Task is running.
    Running,
}

/// Information about one scheduler folder.
#[derive(Clone, Debug, Eq, PartialEq)]
pub struct TaskFolder {
    /// Absolute folder path.
    pub path: FolderPath,
    /// Optional security descriptor when requested.
    pub security_descriptor: Option<SecurityDescriptor>,
}

/// Information about one currently running task instance.
#[derive(Clone, Debug, Eq, PartialEq)]
pub struct RunningTask {
    /// Absolute registered task path.
    pub path: crate::path::TaskPath,
    /// Per-run instance GUID.
    pub instance_id: u128,
    /// Current action identifier or path.
    pub current_action: Option<String>,
    /// Task host process identifier.
    pub engine_process_id: u32,
    /// Current state.
    pub state: TaskState,
}

/// Identifier returned after a run request is accepted.
#[derive(Clone, Debug, Eq, PartialEq)]
pub struct RunHandle {
    /// Per-run instance GUID used to correlate history.
    pub instance_id: u128,
    /// Registered task path.
    pub path: crate::path::TaskPath,
    /// Task host process identifier when already assigned.
    pub engine_process_id: Option<u32>,
}

/// Polling and correlation policy for waiting on a run.
#[derive(Clone, Copy, Debug, Eq, PartialEq)]
pub struct WaitOptions {
    /// Overall wait limit.
    pub timeout: std::time::Duration,
    /// Interval between history/running-task probes.
    pub poll_interval: std::time::Duration,
    /// Time to wait for delayed Event Log delivery after an instance vanishes.
    pub history_grace: std::time::Duration,
    /// Permit the less precise registered-task last-result fallback.
    pub allow_polling_fallback: bool,
}

impl Default for WaitOptions {
    /// Five minutes overall, probing every quarter second, with two seconds
    /// of grace for delayed history; the last-result estimate is not allowed
    /// unless asked for.
    fn default() -> (w: Self)
        ensures
            !w.allow_polling_fallback,
            crate::model::time::whole_seconds(w.timeout) == 300 && crate::model::time::subsec_part(w.timeout) == 0,
            crate::model::time::whole_seconds(w.poll_interval) == 0
                && crate::model::time::subsec_part(w.poll_interval) == 250_000_000,
            crate::model::time::whole_seconds(w.history_grace) == 2 && crate::model::time::subsec_part(w.history_grace) == 0,
    {
        WaitOptions {
            timeout: std_duration_new(300, 0),
            poll_interval: std_duration_new(0, 250_000_000),
            history_grace: std_duration_new(2, 0),
            allow_polling_fallback: false,
        }
    }
}

/// Run/RunEx options.
#[derive(Clone, Debug, Eq, PartialEq)]
pub struct RunOptions {
    /// Up to 32 values substituted in order, starting at `$(Arg0)`.
    pub parameters: Vec<String>,
    /// Optional Terminal Services session id.
    pub session_id: Option<u32>,
    /// Optional user SID used by RunEx.
    pub user_sid: Option<String>,
    /// Starts regardless of constraint checks.
    pub ignore_constraints: bool,
    /// Runs in the caller's security context (`TASK_RUN_AS_SELF`) instead of
    /// the registered task principal.
    pub as_self: bool,
}

impl Default for RunOptions {
    fn default() -> (r: Self)
        ensures
            r.parameters@.len() == 0,
            r.session_id is None,
            r.user_sid is None,
            !r.ignore_constraints,
            !r.as_self,
    {
        RunOptions {
            parameters: Vec::new(),
            session_id: None,
            user_sid: None,
            ignore_constraints: false,
            as_self: false,
        }
    }
}

/// Registration behavior.
#[derive(Clone, Copy, Debug, Eq, Hash, PartialEq, Structural)]
pub enum RegistrationMode {
    /// Fails if the task exists.
    Create,
    /// Fails if the task does not exist.
    Update,
    /// Creates or replaces as needed.
    CreateOrUpdate,
    /// Asks Task Scheduler to validate without persisting.
    ValidateOnly,
}

impl Default for RegistrationMode {
    fn default() -> (m: Self)
        ensures
            m == RegistrationMode::CreateOrUpdate,
    {
        RegistrationMode::CreateOrUpdate
    }
}

/// Enumeration behavior.
#[derive(Clone, Copy, Debug, Eq, Hash, PartialEq, Structural)]
pub struct ListOptions {
    /// Descends into child folders.
    pub recursive: bool,
    /// Includes hidden tasks.
    pub include_hidden: bool,
}

impl Default for ListOptions {
    fn default() -> (o: Self)
        ensures
            !o.recursive,
            !o.include_hidden,
    {
        ListOptions { recursive: false, include_hidden: false }
    }
}

/// Explicit security-information flags for SDDL operations.
#[derive(Clone, Copy, Debug, Eq, Hash, PartialEq, Structural)]
pub struct SecurityInformation {
    bits: u32,
}

impl SecurityInformation {
    /// Owner SID.
    pub fn owner() -> (s: Self)
        ensures
            s.value() == 1,
    {
        SecurityInformation { bits: 1 }
    }

    /// Primary group SID.
    pub fn group() -> (s: Self)
        ensures
            s.value() == 2,
    {
        SecurityInformation { bits: 2 }
    }

    /// DACL.
    pub fn dacl() -> (s: Self)
        ensures
            s.value() == 4,
    {
        SecurityInformation { bits: 4 }
    }

    /// SACL; requires appropriate privilege.
    pub fn sacl() -> (s: Self)
        ensures
            s.value() == 8,
    {
        SecurityInformation { bits: 8 }
    }

    /// The flag bits.
    pub closed spec fn value(self) -> u32 {
        self.bits
    }

    /// No flags.
    pub fn empty() -> (s: Self)
        ensures
            s.value() == 0,
    {
        SecurityInformation { bits: 0 }
    }

    /// The flags with exactly these bits.
    pub fn from_bits_retain(bits: u32) -> (s: Self)
        ensures
            s.value() == bits,
    {
        SecurityInformation { bits }
    }

    /// The flag bits.
    pub fn bits(&self) -> (b: u32)
        ensures
            b == self.value(),
    {
        self.bits
    }

    /// Whether no flag is set.
    pub fn is_empty(&self) -> (r: bool)
        ensures
            r == (self.value() == 0),
    {
        self.bits == 0
    }

    /// Both sets of flags.
    pub fn union(self, other: Self) -> (s: Self)
        ensures
            s.value() == self.value() | other.value(),
    {
        SecurityInformation { bits: self.bits | other.bits }
    }

    /// Whether every flag of `other` is set.
    pub fn contains(&self, other: Self) -> (r: bool)
        ensures
            r == (self.value() & other.value() == other.value()),
    {
        self.bits & other.bits == other.bits
    }
}

impl std::ops::BitOr for SecurityInformation {
    type Output = SecurityInformation;

    fn bitor(self, other: Self) -> (s: Self)
        ensures
            s.value() == self.value() | other.value(),
    {
        SecurityInformation { bits: self.bits | other.bits }
    }
}

impl vstd::std_specs::ops::BitOrSpecImpl for SecurityInformation {
    open spec fn obeys_bitor_spec() -> bool {
        true
    }

    open spec fn bitor_req(self, other: Self) -> bool {
        true
    }

    closed spec fn bitor_spec(self, other: Self) -> Self {
        SecurityInformation { bits: self.bits | other.bits }
    }
}

} // verus!
