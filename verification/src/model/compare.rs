//! Structural comparison of task models, with strings compared by their
//! text.
use vstd::prelude::*;

use crate::model::action::{
    Action, ComHandlerAction, EmailAction, EmailHeader, ExecAction, ShowMessageAction,
    UnknownAction,
};
use crate::model::principal::{Principal, PrincipalIdentity, RequiredPrivilege};
use crate::model::settings::{
    IdleSettings, MaintenanceSettings, NetworkSettings, RestartPolicy, TaskSettings,
};
use crate::model::time::{TaskDateTime, TaskDuration, TaskLimit};
use crate::model::trigger::{
    BootTrigger, DailyTrigger, EventTrigger, IdleTrigger, LogonTrigger, MonthlyDowTrigger,
    MonthlyTrigger, RegistrationTrigger, Repetition, SessionStateChangeTrigger, TimeTrigger,
    Trigger, TriggerCommon, UnknownTrigger, WeekOfMonth, Weekday, WeeklyTrigger, Month,
};
use crate::model::{RegistrationInfo, TaskDefinition, XmlExtension};
use crate::text::{opt_view, str_eq};

verus! {

fn opt_str_eq(a: &Option<String>, b: &Option<String>) -> (r: bool)
    ensures
        r == (opt_view(*a) == opt_view(*b)),
{
    match (a, b) {
        (Some(x), Some(y)) => str_eq(x.as_str(), y.as_str()),
        (None, None) => true,
        _ => false,
    }
}

/// Whether two optional boundaries are both absent or have the same view.
pub open spec fn same_opt_task_date_time(a: Option<TaskDateTime>, b: Option<TaskDateTime>) -> bool {
    match (a, b) {
        (Some(x), Some(y)) => x@ == y@,
        (None, None) => true,
        _ => false,
    }
}

fn eq_opt_task_date_time(a: &Option<TaskDateTime>, b: &Option<TaskDateTime>) -> (r: bool)
    ensures
        r == same_opt_task_date_time(*a, *b),
{
    match (a, b) {
        (Some(x), Some(y)) => x.same(y),
        (None, None) => true,
        _ => false,
    }
}

/// Whether two string lists have the same texts.
pub open spec fn same_strings(a: Seq<String>, b: Seq<String>) -> bool {
    a.len() == b.len() && forall|i: int| 0 <= i < a.len() ==> #[trigger] a[i]@ == b[i]@
}

fn eq_strings(a: &[String], b: &[String]) -> (r: bool)
    ensures
        r == same_strings(a@, b@),
{
    if a.len() != b.len() {
        return false;
    }
    let mut i: usize = 0;
    while i < a.len()
        invariant
            i <= a.len(),
            a.len() == b.len(),
            forall|k: int| 0 <= k < i ==> #[trigger] a@[k]@ == b@[k]@,
        decreases a.len() - i,
    {
        if !str_eq(a[i].as_str(), b[i].as_str()) {
            return false;
        }
        i += 1;
    }
    true
}

/// Whether two lists of string pairs have the same texts.
pub open spec fn same_string_pairs(a: Seq<(String, String)>, b: Seq<(String, String)>) -> bool {
    a.len() == b.len() && forall|i: int|
        0 <= i < a.len() ==> (#[trigger] a[i]).0@ == b[i].0@ && a[i].1@ == b[i].1@
}

fn eq_string_pairs(a: &[(String, String)], b: &[(String, String)]) -> (r: bool)
    ensures
        r == same_string_pairs(a@, b@),
{
    if a.len() != b.len() {
        return false;
    }
    let mut i: usize = 0;
    while i < a.len()
        invariant
            i <= a.len(),
            a.len() == b.len(),
            forall|k: int| 0 <= k < i ==> (#[trigger] a@[k]).0@ == b@[k].0@ && a@[k].1@ == b@[k].1@,
        decreases a.len() - i,
    {
        if !str_eq(a[i].0.as_str(), b[i].0.as_str()) || !str_eq(a[i].1.as_str(), b[i].1.as_str()) {
            return false;
        }
        i += 1;
    }
    true
}

/// Whether two privilege lists name the same privileges in order.
pub open spec fn same_required_privilege_list(a: Seq<RequiredPrivilege>, b: Seq<RequiredPrivilege>) -> bool {
    a.len() == b.len() && forall|i: int| 0 <= i < a.len() ==> #[trigger] a[i]@ == b[i]@
}

fn eq_required_privilege_list(a: &[RequiredPrivilege], b: &[RequiredPrivilege]) -> (r: bool)
    ensures
        r == same_required_privilege_list(a@, b@),
{
    if a.len() != b.len() {
        return false;
    }
    let mut i: usize = 0;
    while i < a.len()
        invariant
            i <= a.len(),
            a.len() == b.len(),
            forall|k: int| 0 <= k < i ==> #[trigger] a@[k]@ == b@[k]@,
        decreases a.len() - i,
    {
        if !str_eq(a[i].as_str(), b[i].as_str()) {
            return false;
        }
        i += 1;
    }
    true
}

/// Whether two identities are the same.
pub open spec fn same_principal_identity(a: PrincipalIdentity, b: PrincipalIdentity) -> bool {
    match (a, b) {
        (PrincipalIdentity::Unspecified, PrincipalIdentity::Unspecified) => true,
        (PrincipalIdentity::User(x), PrincipalIdentity::User(y)) => x@ == y@,
        (PrincipalIdentity::Group(x), PrincipalIdentity::Group(y)) => x@ == y@,
        (PrincipalIdentity::ServiceAccount(x), PrincipalIdentity::ServiceAccount(y)) => x == y,
        _ => false,
    }
}

fn eq_principal_identity(a: &PrincipalIdentity, b: &PrincipalIdentity) -> (r: bool)
    ensures
        r == same_principal_identity(*a, *b),
{
    match (a, b) {
        (PrincipalIdentity::Unspecified, PrincipalIdentity::Unspecified) => true,
        (PrincipalIdentity::User(x), PrincipalIdentity::User(y)) => str_eq(x.as_str(), y.as_str()),
        (PrincipalIdentity::Group(x), PrincipalIdentity::Group(y)) => str_eq(x.as_str(), y.as_str()),
        (PrincipalIdentity::ServiceAccount(x), PrincipalIdentity::ServiceAccount(y)) => *x == *y,
        _ => false,
    }
}

fn eq_task_duration(a: &TaskDuration, b: &TaskDuration) -> (r: bool)
    ensures
        r == (*a == *b),
{
    a.same(b)
}

fn eq_task_limit(a: &TaskLimit, b: &TaskLimit) -> (r: bool)
    ensures
        r == (*a == *b),
{
    match (a, b) {
        (TaskLimit::Finite(x), TaskLimit::Finite(y)) => eq_task_duration(x, y),
        (TaskLimit::Unlimited, TaskLimit::Unlimited) => true,
        _ => false,
    }
}

fn eq_repetition(a: &Repetition, b: &Repetition) -> (r: bool)
    ensures
        r == (*a == *b),
{
    eq_task_duration(&a.interval, &b.interval) && eq_opt_task_duration(&a.duration, &b.duration)
        && a.stop_at_duration_end == b.stop_at_duration_end
}

fn eq_restart_policy(a: &RestartPolicy, b: &RestartPolicy) -> (r: bool)
    ensures
        r == (*a == *b),
{
    eq_task_duration(&a.interval, &b.interval) && a.count == b.count
}

fn eq_idle_settings(a: &IdleSettings, b: &IdleSettings) -> (r: bool)
    ensures
        r == (*a == *b),
{
    eq_task_duration(&a.duration, &b.duration) && eq_task_duration(&a.wait_timeout, &b.wait_timeout)
        && a.stop_on_idle_end == b.stop_on_idle_end && a.restart_on_idle == b.restart_on_idle
}

fn eq_maintenance_settings(a: &MaintenanceSettings, b: &MaintenanceSettings) -> (r: bool)
    ensures
        r == (*a == *b),
{
    eq_task_duration(&a.period, &b.period) && eq_task_duration(&a.deadline, &b.deadline)
        && a.exclusive == b.exclusive
}

fn eq_opt_restart_policy(a: &Option<RestartPolicy>, b: &Option<RestartPolicy>) -> (r: bool)
    ensures
        r == (*a == *b),
{
    match (a, b) {
        (Some(x), Some(y)) => eq_restart_policy(x, y),
        (None, None) => true,
        _ => false,
    }
}

fn eq_opt_idle_settings(a: &Option<IdleSettings>, b: &Option<IdleSettings>) -> (r: bool)
    ensures
        r == (*a == *b),
{
    match (a, b) {
        (Some(x), Some(y)) => eq_idle_settings(x, y),
        (None, None) => true,
        _ => false,
    }
}

fn eq_opt_maintenance_settings(a: &Option<MaintenanceSettings>, b: &Option<MaintenanceSettings>) -> (r: bool)
    ensures
        r == (*a == *b),
{
    match (a, b) {
        (Some(x), Some(y)) => eq_maintenance_settings(x, y),
        (None, None) => true,
        _ => false,
    }
}

/// Whether two optional network settings are both absent or the same.
pub open spec fn same_opt_network(a: Option<NetworkSettings>, b: Option<NetworkSettings>) -> bool {
    match (a, b) {
        (Some(x), Some(y)) => same_network_settings(x, y),
        (None, None) => true,
        _ => false,
    }
}

fn eq_opt_network(a: &Option<NetworkSettings>, b: &Option<NetworkSettings>) -> (r: bool)
    ensures
        r == same_opt_network(*a, *b),
{
    match (a, b) {
        (Some(x), Some(y)) => eq_network_settings(x, y),
        (None, None) => true,
        _ => false,
    }
}

/// Whether two registration records agree on everything but the date and
/// the security descriptor.
pub open spec fn same_registration_content(a: RegistrationInfo, b: RegistrationInfo) -> bool {
    &&& opt_view(a.author) == opt_view(b.author)
    &&& opt_view(a.description) == opt_view(b.description)
    &&& opt_view(a.documentation) == opt_view(b.documentation)
    &&& opt_view(a.source) == opt_view(b.source)
    &&& opt_view(a.version) == opt_view(b.version)
    &&& opt_view(a.uri) == opt_view(b.uri)
}

fn eq_registration_content(a: &RegistrationInfo, b: &RegistrationInfo) -> (r: bool)
    ensures
        r == same_registration_content(*a, *b),
{
    opt_str_eq(&a.author, &b.author) && opt_str_eq(&a.description, &b.description) && opt_str_eq(
        &a.documentation,
        &b.documentation,
    ) && opt_str_eq(&a.source, &b.source) && opt_str_eq(&a.version, &b.version) && opt_str_eq(
        &a.uri,
        &b.uri,
    )
}

/// Whether two settings records agree on everything but the enabled flag.
pub open spec fn same_settings_content(a: TaskSettings, b: TaskSettings) -> bool {
    &&& a.allow_demand_start == b.allow_demand_start
    &&& a.restart_on_failure == b.restart_on_failure
    &&& a.multiple_instances == b.multiple_instances
    &&& a.disallow_start_if_on_batteries == b.disallow_start_if_on_batteries
    &&& a.stop_if_going_on_batteries == b.stop_if_going_on_batteries
    &&& a.allow_hard_terminate == b.allow_hard_terminate
    &&& a.start_when_available == b.start_when_available
    &&& same_opt_network(a.network, b.network)
    &&& a.execution_time_limit == b.execution_time_limit
    &&& a.delete_expired_after == b.delete_expired_after
    &&& a.priority == b.priority
    &&& a.idle == b.idle
    &&& a.wake_to_run == b.wake_to_run
    &&& a.hidden == b.hidden
    &&& a.use_unified_scheduling_engine == b.use_unified_scheduling_engine
    &&& a.disallow_start_on_remote_app_session == b.disallow_start_on_remote_app_session
    &&& a.maintenance == b.maintenance
    &&& a.volatile == b.volatile
}

fn eq_settings_content(a: &TaskSettings, b: &TaskSettings) -> (r: bool)
    ensures
        r == same_settings_content(*a, *b),
{
    a.allow_demand_start == b.allow_demand_start && eq_opt_restart_policy(
        &a.restart_on_failure,
        &b.restart_on_failure,
    ) && a.multiple_instances == b.multiple_instances && a.disallow_start_if_on_batteries
        == b.disallow_start_if_on_batteries && a.stop_if_going_on_batteries
        == b.stop_if_going_on_batteries && a.allow_hard_terminate == b.allow_hard_terminate
        && a.start_when_available == b.start_when_available && eq_opt_network(&a.network, &b.network)
        && eq_task_limit(&a.execution_time_limit, &b.execution_time_limit) && eq_opt_task_duration(
        &a.delete_expired_after,
        &b.delete_expired_after,
    ) && a.priority == b.priority && eq_opt_idle_settings(&a.idle, &b.idle) && a.wake_to_run
        == b.wake_to_run && a.hidden == b.hidden && a.use_unified_scheduling_engine
        == b.use_unified_scheduling_engine && a.disallow_start_on_remote_app_session
        == b.disallow_start_on_remote_app_session && eq_opt_maintenance_settings(
        &a.maintenance,
        &b.maintenance,
    ) && a.volatile == b.volatile
}

/// Whether two definitions describe the same task once their registration
/// dates, security descriptors and enabled flags are set aside: the state
/// that is managed separately from the definition itself.
pub open spec fn definitions_semantically_equal_spec(a: TaskDefinition, b: TaskDefinition) -> bool {
    &&& a.schema_version@ == b.schema_version@
    &&& same_registration_content(a.registration, b.registration)
    &&& same_trigger_list(a.triggers@, b.triggers@)
    &&& same_principal(a.principal, b.principal)
    &&& same_settings_content(a.settings, b.settings)
    &&& opt_view(a.data) == opt_view(b.data)
    &&& same_action_list(a.actions@, b.actions@)
    &&& same_xml_extension_list(a.extensions@, b.extensions@)
}

/// Compares two definitions as [`definitions_semantically_equal_spec`] describes.
pub fn definitions_semantically_equal(a: &TaskDefinition, b: &TaskDefinition) -> (r: bool)
    ensures
        r == definitions_semantically_equal_spec(*a, *b),
{
    a.schema_version.same(&b.schema_version) && eq_registration_content(&a.registration, &b.registration)
        && eq_trigger_list(a.triggers.as_slice(), b.triggers.as_slice()) && eq_principal(
        &a.principal,
        &b.principal,
    ) && eq_settings_content(&a.settings, &b.settings) && opt_str_eq(&a.data, &b.data)
        && eq_action_list(a.actions.as_slice(), b.actions.as_slice()) && eq_xml_extension_list(
        a.extensions.as_slice(),
        b.extensions.as_slice(),
    )
}

/// Whether two optional descriptors are both absent or have the same text.
pub open spec fn same_opt_descriptor(a: Option<crate::model::SecurityDescriptor>, b: Option<crate::model::SecurityDescriptor>) -> bool {
    match (a, b) {
        (Some(x), Some(y)) => x@ == y@,
        (None, None) => true,
        _ => false,
    }
}

/// Compares as [`same_opt_descriptor`] describes.
pub fn eq_opt_descriptor(a: &Option<crate::model::SecurityDescriptor>, b: &Option<crate::model::SecurityDescriptor>) -> (r: bool)
    ensures
        r == same_opt_descriptor(*a, *b),
{
    match (a, b) {
        (Some(x), Some(y)) => str_eq(x.as_sddl(), y.as_sddl()),
        (None, None) => true,
        _ => false,
    }
}

/// Whether two definitions agree in every field: semantically, and in their
/// enabled flags, registration dates and security descriptors.
pub open spec fn definitions_identical_spec(a: TaskDefinition, b: TaskDefinition) -> bool {
    &&& definitions_semantically_equal_spec(a, b)
    &&& a.settings.enabled == b.settings.enabled
    &&& same_opt_task_date_time(a.registration.date, b.registration.date)
    &&& same_opt_descriptor(a.registration.security_descriptor, b.registration.security_descriptor)
}

/// Compares as [`definitions_identical_spec`] describes.
pub fn definitions_identical(a: &TaskDefinition, b: &TaskDefinition) -> (r: bool)
    ensures
        r == definitions_identical_spec(*a, *b),
{
    definitions_semantically_equal(a, b) && a.settings.enabled == b.settings.enabled
        && eq_opt_task_date_time(&a.registration.date, &b.registration.date)
        && eq_opt_descriptor(&a.registration.security_descriptor, &b.registration.security_descriptor)
}

/// Whether two ExecAction values agree field by field, strings by their text.
pub open spec fn same_exec_action(a: ExecAction, b: ExecAction) -> bool {
    (opt_view(a.id) == opt_view(b.id)) && (a.command@ == b.command@) && (opt_view(a.arguments) == opt_view(b.arguments)) && (opt_view(a.working_directory) == opt_view(b.working_directory)) && (a.hide_window == b.hide_window)
}

pub(crate) fn eq_exec_action(a: &ExecAction, b: &ExecAction) -> (r: bool)
    ensures
        r == same_exec_action(*a, *b),
{
    if !(opt_str_eq(&a.id, &b.id)) {
        return false;
    }
    if !(str_eq(a.command.as_str(), b.command.as_str())) {
        return false;
    }
    if !(opt_str_eq(&a.arguments, &b.arguments)) {
        return false;
    }
    if !(opt_str_eq(&a.working_directory, &b.working_directory)) {
        return false;
    }
    if !(a.hide_window == b.hide_window) {
        return false;
    }
    true
}

/// Whether two ComHandlerAction values agree field by field, strings by their text.
pub open spec fn same_com_handler_action(a: ComHandlerAction, b: ComHandlerAction) -> bool {
    (opt_view(a.id) == opt_view(b.id)) && (a.class_id == b.class_id) && (opt_view(a.data) == opt_view(b.data))
}

pub(crate) fn eq_com_handler_action(a: &ComHandlerAction, b: &ComHandlerAction) -> (r: bool)
    ensures
        r == same_com_handler_action(*a, *b),
{
    if !(opt_str_eq(&a.id, &b.id)) {
        return false;
    }
    if !(a.class_id == b.class_id) {
        return false;
    }
    if !(opt_str_eq(&a.data, &b.data)) {
        return false;
    }
    true
}

/// Whether two EmailHeader values agree field by field, strings by their text.
pub open spec fn same_email_header(a: EmailHeader, b: EmailHeader) -> bool {
    (a.name@ == b.name@) && (a.value@ == b.value@)
}

pub(crate) fn eq_email_header(a: &EmailHeader, b: &EmailHeader) -> (r: bool)
    ensures
        r == same_email_header(*a, *b),
{
    if !(str_eq(a.name.as_str(), b.name.as_str())) {
        return false;
    }
    if !(str_eq(a.value.as_str(), b.value.as_str())) {
        return false;
    }
    true
}

/// Whether two EmailAction values agree field by field, strings by their text.
pub open spec fn same_email_action(a: EmailAction, b: EmailAction) -> bool {
    (opt_view(a.id) == opt_view(b.id)) && (a.server@ == b.server@) && (opt_view(a.subject) == opt_view(b.subject)) && (opt_view(a.from) == opt_view(b.from)) && (opt_view(a.to) == opt_view(b.to)) && (opt_view(a.cc) == opt_view(b.cc)) && (opt_view(a.bcc) == opt_view(b.bcc)) && (opt_view(a.reply_to) == opt_view(b.reply_to)) && (opt_view(a.body) == opt_view(b.body)) && (same_strings(a.attachments@, b.attachments@)) && (same_email_header_list(a.headers@, b.headers@))
}

pub(crate) fn eq_email_action(a: &EmailAction, b: &EmailAction) -> (r: bool)
    ensures
        r == same_email_action(*a, *b),
{
    if !(opt_str_eq(&a.id, &b.id)) {
        return false;
    }
    if !(str_eq(a.server.as_str(), b.server.as_str())) {
        return false;
    }
    if !(opt_str_eq(&a.subject, &b.subject)) {
        return false;
    }
    if !(opt_str_eq(&a.from, &b.from)) {
        return false;
    }
    if !(opt_str_eq(&a.to, &b.to)) {
        return false;
    }
    if !(opt_str_eq(&a.cc, &b.cc)) {
        return false;
    }
    if !(opt_str_eq(&a.bcc, &b.bcc)) {
        return false;
    }
    if !(opt_str_eq(&a.reply_to, &b.reply_to)) {
        return false;
    }
    if !(opt_str_eq(&a.body, &b.body)) {
        return false;
    }
    if !(eq_strings(a.attachments.as_slice(), b.attachments.as_slice())) {
        return false;
    }
    if !(eq_email_header_list(a.headers.as_slice(), b.headers.as_slice())) {
        return false;
    }
    true
}

/// Whether two ShowMessageAction values agree field by field, strings by their text.
pub open spec fn same_show_message_action(a: ShowMessageAction, b: ShowMessageAction) -> bool {
    (opt_view(a.id) == opt_view(b.id)) && (opt_view(a.title) == opt_view(b.title)) && (a.body@ == b.body@)
}

pub(crate) fn eq_show_message_action(a: &ShowMessageAction, b: &ShowMessageAction) -> (r: bool)
    ensures
        r == same_show_message_action(*a, *b),
{
    if !(opt_str_eq(&a.id, &b.id)) {
        return false;
    }
    if !(opt_str_eq(&a.title, &b.title)) {
        return false;
    }
    if !(str_eq(a.body.as_str(), b.body.as_str())) {
        return false;
    }
    true
}

/// Whether two UnknownAction values agree field by field, strings by their text.
pub open spec fn same_unknown_action(a: UnknownAction, b: UnknownAction) -> bool {
    (a.kind@ == b.kind@) && (a.xml@ == b.xml@)
}

pub(crate) fn eq_unknown_action(a: &UnknownAction, b: &UnknownAction) -> (r: bool)
    ensures
        r == same_unknown_action(*a, *b),
{
    if !(str_eq(a.kind.as_str(), b.kind.as_str())) {
        return false;
    }
    if !(str_eq(a.xml.as_str(), b.xml.as_str())) {
        return false;
    }
    true
}

/// Whether two XmlExtension values agree field by field, strings by their text.
pub open spec fn same_xml_extension(a: XmlExtension, b: XmlExtension) -> bool {
    (a.parent@ == b.parent@) && (a.ordinal == b.ordinal) && (a.xml@ == b.xml@)
}

pub(crate) fn eq_xml_extension(a: &XmlExtension, b: &XmlExtension) -> (r: bool)
    ensures
        r == same_xml_extension(*a, *b),
{
    if !(str_eq(a.parent.as_str(), b.parent.as_str())) {
        return false;
    }
    if !(a.ordinal == b.ordinal) {
        return false;
    }
    if !(str_eq(a.xml.as_str(), b.xml.as_str())) {
        return false;
    }
    true
}

/// Whether two Principal values agree field by field, strings by their text.
pub open spec fn same_principal(a: Principal, b: Principal) -> bool {
    (a.id@ == b.id@) && (opt_view(a.display_name) == opt_view(b.display_name)) && (same_principal_identity(a.identity, b.identity)) && (a.logon_type == b.logon_type) && (a.run_level == b.run_level) && (a.process_token_sid_type == b.process_token_sid_type) && (same_required_privilege_list(a.required_privileges@, b.required_privileges@))
}

pub(crate) fn eq_principal(a: &Principal, b: &Principal) -> (r: bool)
    ensures
        r == same_principal(*a, *b),
{
    if !(str_eq(a.id.as_str(), b.id.as_str())) {
        return false;
    }
    if !(opt_str_eq(&a.display_name, &b.display_name)) {
        return false;
    }
    if !(eq_principal_identity(&a.identity, &b.identity)) {
        return false;
    }
    if !(a.logon_type == b.logon_type) {
        return false;
    }
    if !(a.run_level == b.run_level) {
        return false;
    }
    if !(a.process_token_sid_type == b.process_token_sid_type) {
        return false;
    }
    if !(eq_required_privilege_list(a.required_privileges.as_slice(), b.required_privileges.as_slice())) {
        return false;
    }
    true
}

/// Whether two NetworkSettings values agree field by field, strings by their text.
pub open spec fn same_network_settings(a: NetworkSettings, b: NetworkSettings) -> bool {
    (opt_view(a.id) == opt_view(b.id)) && (opt_view(a.name) == opt_view(b.name))
}

pub(crate) fn eq_network_settings(a: &NetworkSettings, b: &NetworkSettings) -> (r: bool)
    ensures
        r == same_network_settings(*a, *b),
{
    if !(opt_str_eq(&a.id, &b.id)) {
        return false;
    }
    if !(opt_str_eq(&a.name, &b.name)) {
        return false;
    }
    true
}

/// Whether two TriggerCommon values agree field by field, strings by their text.
pub open spec fn same_trigger_common(a: TriggerCommon, b: TriggerCommon) -> bool {
    (opt_view(a.id) == opt_view(b.id)) && (same_opt_task_date_time(a.start_boundary, b.start_boundary)) && (same_opt_task_date_time(a.end_boundary, b.end_boundary)) && (a.enabled == b.enabled) && (a.execution_time_limit == b.execution_time_limit) && (a.repetition == b.repetition)
}

pub(crate) fn eq_trigger_common(a: &TriggerCommon, b: &TriggerCommon) -> (r: bool)
    ensures
        r == same_trigger_common(*a, *b),
{
    if !(opt_str_eq(&a.id, &b.id)) {
        return false;
    }
    if !(eq_opt_task_date_time(&a.start_boundary, &b.start_boundary)) {
        return false;
    }
    if !(eq_opt_task_date_time(&a.end_boundary, &b.end_boundary)) {
        return false;
    }
    if !(a.enabled == b.enabled) {
        return false;
    }
    if !(eq_opt_task_limit(&a.execution_time_limit, &b.execution_time_limit)) {
        return false;
    }
    if !(eq_opt_repetition(&a.repetition, &b.repetition)) {
        return false;
    }
    true
}

/// Whether two BootTrigger values agree field by field, strings by their text.
pub open spec fn same_boot_trigger(a: BootTrigger, b: BootTrigger) -> bool {
    (same_trigger_common(a.common, b.common)) && (a.delay == b.delay)
}

pub(crate) fn eq_boot_trigger(a: &BootTrigger, b: &BootTrigger) -> (r: bool)
    ensures
        r == same_boot_trigger(*a, *b),
{
    if !(eq_trigger_common(&a.common, &b.common)) {
        return false;
    }
    if !(eq_opt_task_duration(&a.delay, &b.delay)) {
        return false;
    }
    true
}

/// Whether two RegistrationTrigger values agree field by field, strings by their text.
pub open spec fn same_registration_trigger(a: RegistrationTrigger, b: RegistrationTrigger) -> bool {
    (same_trigger_common(a.common, b.common)) && (a.delay == b.delay)
}

pub(crate) fn eq_registration_trigger(a: &RegistrationTrigger, b: &RegistrationTrigger) -> (r: bool)
    ensures
        r == same_registration_trigger(*a, *b),
{
    if !(eq_trigger_common(&a.common, &b.common)) {
        return false;
    }
    if !(eq_opt_task_duration(&a.delay, &b.delay)) {
        return false;
    }
    true
}

/// Whether two IdleTrigger values agree field by field, strings by their text.
pub open spec fn same_idle_trigger(a: IdleTrigger, b: IdleTrigger) -> bool {
    (same_trigger_common(a.common, b.common))
}

pub(crate) fn eq_idle_trigger(a: &IdleTrigger, b: &IdleTrigger) -> (r: bool)
    ensures
        r == same_idle_trigger(*a, *b),
{
    if !(eq_trigger_common(&a.common, &b.common)) {
        return false;
    }
    true
}

/// Whether two TimeTrigger values agree field by field, strings by their text.
pub open spec fn same_time_trigger(a: TimeTrigger, b: TimeTrigger) -> bool {
    (same_trigger_common(a.common, b.common)) && (a.random_delay == b.random_delay)
}

pub(crate) fn eq_time_trigger(a: &TimeTrigger, b: &TimeTrigger) -> (r: bool)
    ensures
        r == same_time_trigger(*a, *b),
{
    if !(eq_trigger_common(&a.common, &b.common)) {
        return false;
    }
    if !(eq_opt_task_duration(&a.random_delay, &b.random_delay)) {
        return false;
    }
    true
}

/// Whether two EventTrigger values agree field by field, strings by their text.
pub open spec fn same_event_trigger(a: EventTrigger, b: EventTrigger) -> bool {
    (same_trigger_common(a.common, b.common)) && (a.subscription@ == b.subscription@) && (same_string_pairs(a.value_queries@, b.value_queries@)) && (a.delay == b.delay) && (a.period_of_occurrence == b.period_of_occurrence) && (a.number_of_occurrences == b.number_of_occurrences) && (opt_view(a.matching_element) == opt_view(b.matching_element))
}

pub(crate) fn eq_event_trigger(a: &EventTrigger, b: &EventTrigger) -> (r: bool)
    ensures
        r == same_event_trigger(*a, *b),
{
    if !(eq_trigger_common(&a.common, &b.common)) {
        return false;
    }
    if !(str_eq(a.subscription.as_str(), b.subscription.as_str())) {
        return false;
    }
    if !(eq_string_pairs(a.value_queries.as_slice(), b.value_queries.as_slice())) {
        return false;
    }
    if !(eq_opt_task_duration(&a.delay, &b.delay)) {
        return false;
    }
    if !(eq_opt_task_duration(&a.period_of_occurrence, &b.period_of_occurrence)) {
        return false;
    }
    if !(a.number_of_occurrences == b.number_of_occurrences) {
        return false;
    }
    if !(opt_str_eq(&a.matching_element, &b.matching_element)) {
        return false;
    }
    true
}

/// Whether two LogonTrigger values agree field by field, strings by their text.
pub open spec fn same_logon_trigger(a: LogonTrigger, b: LogonTrigger) -> bool {
    (same_trigger_common(a.common, b.common)) && (opt_view(a.user_id) == opt_view(b.user_id)) && (a.delay == b.delay)
}

pub(crate) fn eq_logon_trigger(a: &LogonTrigger, b: &LogonTrigger) -> (r: bool)
    ensures
        r == same_logon_trigger(*a, *b),
{
    if !(eq_trigger_common(&a.common, &b.common)) {
        return false;
    }
    if !(opt_str_eq(&a.user_id, &b.user_id)) {
        return false;
    }
    if !(eq_opt_task_duration(&a.delay, &b.delay)) {
        return false;
    }
    true
}

/// Whether two SessionStateChangeTrigger values agree field by field, strings by their text.
pub open spec fn same_session_state_change_trigger(a: SessionStateChangeTrigger, b: SessionStateChangeTrigger) -> bool {
    (same_trigger_common(a.common, b.common)) && (a.state_change == b.state_change) && (opt_view(a.user_id) == opt_view(b.user_id)) && (a.delay == b.delay)
}

pub(crate) fn eq_session_state_change_trigger(a: &SessionStateChangeTrigger, b: &SessionStateChangeTrigger) -> (r: bool)
    ensures
        r == same_session_state_change_trigger(*a, *b),
{
    if !(eq_trigger_common(&a.common, &b.common)) {
        return false;
    }
    if !(a.state_change == b.state_change) {
        return false;
    }
    if !(opt_str_eq(&a.user_id, &b.user_id)) {
        return false;
    }
    if !(eq_opt_task_duration(&a.delay, &b.delay)) {
        return false;
    }
    true
}

/// Whether two DailyTrigger values agree field by field, strings by their text.
pub open spec fn same_daily_trigger(a: DailyTrigger, b: DailyTrigger) -> bool {
    (same_trigger_common(a.common, b.common)) && (a.days_interval == b.days_interval) && (a.random_delay == b.random_delay)
}

pub(crate) fn eq_daily_trigger(a: &DailyTrigger, b: &DailyTrigger) -> (r: bool)
    ensures
        r == same_daily_trigger(*a, *b),
{
    if !(eq_trigger_common(&a.common, &b.common)) {
        return false;
    }
    if !(a.days_interval == b.days_interval) {
        return false;
    }
    if !(eq_opt_task_duration(&a.random_delay, &b.random_delay)) {
        return false;
    }
    true
}

/// Whether two WeeklyTrigger values agree field by field, strings by their text.
pub open spec fn same_weekly_trigger(a: WeeklyTrigger, b: WeeklyTrigger) -> bool {
    (same_trigger_common(a.common, b.common)) && (a.weeks_interval == b.weeks_interval) && (a.days_of_week@ == b.days_of_week@) && (a.random_delay == b.random_delay)
}

pub(crate) fn eq_weekly_trigger(a: &WeeklyTrigger, b: &WeeklyTrigger) -> (r: bool)
    ensures
        r == same_weekly_trigger(*a, *b),
{
    if !(eq_trigger_common(&a.common, &b.common)) {
        return false;
    }
    if !(a.weeks_interval == b.weeks_interval) {
        return false;
    }
    if !(eq_weekday_vec(&a.days_of_week, &b.days_of_week)) {
        return false;
    }
    if !(eq_opt_task_duration(&a.random_delay, &b.random_delay)) {
        return false;
    }
    true
}

/// Whether two MonthlyTrigger values agree field by field, strings by their text.
pub open spec fn same_monthly_trigger(a: MonthlyTrigger, b: MonthlyTrigger) -> bool {
    (same_trigger_common(a.common, b.common)) && (a.days_of_month@ == b.days_of_month@) && (a.months@ == b.months@) && (a.run_on_last_day == b.run_on_last_day) && (a.random_delay == b.random_delay)
}

pub(crate) fn eq_monthly_trigger(a: &MonthlyTrigger, b: &MonthlyTrigger) -> (r: bool)
    ensures
        r == same_monthly_trigger(*a, *b),
{
    if !(eq_trigger_common(&a.common, &b.common)) {
        return false;
    }
    if !(eq_u8_vec(&a.days_of_month, &b.days_of_month)) {
        return false;
    }
    if !(eq_month_vec(&a.months, &b.months)) {
        return false;
    }
    if !(a.run_on_last_day == b.run_on_last_day) {
        return false;
    }
    if !(eq_opt_task_duration(&a.random_delay, &b.random_delay)) {
        return false;
    }
    true
}

/// Whether two MonthlyDowTrigger values agree field by field, strings by their text.
pub open spec fn same_monthly_dow_trigger(a: MonthlyDowTrigger, b: MonthlyDowTrigger) -> bool {
    (same_trigger_common(a.common, b.common)) && (a.weeks_of_month@ == b.weeks_of_month@) && (a.days_of_week@ == b.days_of_week@) && (a.months@ == b.months@) && (a.run_on_last_week == b.run_on_last_week) && (a.random_delay == b.random_delay)
}

pub(crate) fn eq_monthly_dow_trigger(a: &MonthlyDowTrigger, b: &MonthlyDowTrigger) -> (r: bool)
    ensures
        r == same_monthly_dow_trigger(*a, *b),
{
    if !(eq_trigger_common(&a.common, &b.common)) {
        return false;
    }
    if !(eq_week_of_month_vec(&a.weeks_of_month, &b.weeks_of_month)) {
        return false;
    }
    if !(eq_weekday_vec(&a.days_of_week, &b.days_of_week)) {
        return false;
    }
    if !(eq_month_vec(&a.months, &b.months)) {
        return false;
    }
    if !(a.run_on_last_week == b.run_on_last_week) {
        return false;
    }
    if !(eq_opt_task_duration(&a.random_delay, &b.random_delay)) {
        return false;
    }
    true
}

/// Whether two UnknownTrigger values agree field by field, strings by their text.
pub open spec fn same_unknown_trigger(a: UnknownTrigger, b: UnknownTrigger) -> bool {
    (a.kind@ == b.kind@) && (a.xml@ == b.xml@)
}

pub(crate) fn eq_unknown_trigger(a: &UnknownTrigger, b: &UnknownTrigger) -> (r: bool)
    ensures
        r == same_unknown_trigger(*a, *b),
{
    if !(str_eq(a.kind.as_str(), b.kind.as_str())) {
        return false;
    }
    if !(str_eq(a.xml.as_str(), b.xml.as_str())) {
        return false;
    }
    true
}

/// Whether two Action values are the same variant with the same contents.
pub open spec fn same_action(a: Action, b: Action) -> bool {
    match (a, b) {
        (Action::Exec(x), Action::Exec(y)) => same_exec_action(x, y),
        (Action::ComHandler(x), Action::ComHandler(y)) => same_com_handler_action(x, y),
        (Action::Email(x), Action::Email(y)) => same_email_action(x, y),
        (Action::ShowMessage(x), Action::ShowMessage(y)) => same_show_message_action(x, y),
        (Action::Unknown(x), Action::Unknown(y)) => same_unknown_action(x, y),
        _ => false,
    }
}

pub(crate) fn eq_action(a: &Action, b: &Action) -> (r: bool)
    ensures
        r == same_action(*a, *b),
{
    match (a, b) {
        (Action::Exec(x), Action::Exec(y)) => eq_exec_action(x, y),
        (Action::ComHandler(x), Action::ComHandler(y)) => eq_com_handler_action(x, y),
        (Action::Email(x), Action::Email(y)) => eq_email_action(x, y),
        (Action::ShowMessage(x), Action::ShowMessage(y)) => eq_show_message_action(x, y),
        (Action::Unknown(x), Action::Unknown(y)) => eq_unknown_action(x, y),
        _ => false,
    }
}

/// Whether two Trigger values are the same variant with the same contents.
pub open spec fn same_trigger(a: Trigger, b: Trigger) -> bool {
    match (a, b) {
        (Trigger::Boot(x), Trigger::Boot(y)) => same_boot_trigger(x, y),
        (Trigger::Registration(x), Trigger::Registration(y)) => same_registration_trigger(x, y),
        (Trigger::Idle(x), Trigger::Idle(y)) => same_idle_trigger(x, y),
        (Trigger::Time(x), Trigger::Time(y)) => same_time_trigger(x, y),
        (Trigger::Event(x), Trigger::Event(y)) => same_event_trigger(x, y),
        (Trigger::Logon(x), Trigger::Logon(y)) => same_logon_trigger(x, y),
        (Trigger::SessionStateChange(x), Trigger::SessionStateChange(y)) => same_session_state_change_trigger(x, y),
        (Trigger::Daily(x), Trigger::Daily(y)) => same_daily_trigger(x, y),
        (Trigger::Weekly(x), Trigger::Weekly(y)) => same_weekly_trigger(x, y),
        (Trigger::Monthly(x), Trigger::Monthly(y)) => same_monthly_trigger(x, y),
        (Trigger::MonthlyDow(x), Trigger::MonthlyDow(y)) => same_monthly_dow_trigger(x, y),
        (Trigger::Unknown(x), Trigger::Unknown(y)) => same_unknown_trigger(x, y),
        _ => false,
    }
}

pub(crate) fn eq_trigger(a: &Trigger, b: &Trigger) -> (r: bool)
    ensures
        r == same_trigger(*a, *b),
{
    match (a, b) {
        (Trigger::Boot(x), Trigger::Boot(y)) => eq_boot_trigger(x, y),
        (Trigger::Registration(x), Trigger::Registration(y)) => eq_registration_trigger(x, y),
        (Trigger::Idle(x), Trigger::Idle(y)) => eq_idle_trigger(x, y),
        (Trigger::Time(x), Trigger::Time(y)) => eq_time_trigger(x, y),
        (Trigger::Event(x), Trigger::Event(y)) => eq_event_trigger(x, y),
        (Trigger::Logon(x), Trigger::Logon(y)) => eq_logon_trigger(x, y),
        (Trigger::SessionStateChange(x), Trigger::SessionStateChange(y)) => eq_session_state_change_trigger(x, y),
        (Trigger::Daily(x), Trigger::Daily(y)) => eq_daily_trigger(x, y),
        (Trigger::Weekly(x), Trigger::Weekly(y)) => eq_weekly_trigger(x, y),
        (Trigger::Monthly(x), Trigger::Monthly(y)) => eq_monthly_trigger(x, y),
        (Trigger::MonthlyDow(x), Trigger::MonthlyDow(y)) => eq_monthly_dow_trigger(x, y),
        (Trigger::Unknown(x), Trigger::Unknown(y)) => eq_unknown_trigger(x, y),
        _ => false,
    }
}

/// Whether two lists of EmailHeader agree element by element.
pub open spec fn same_email_header_list(a: Seq<EmailHeader>, b: Seq<EmailHeader>) -> bool {
    a.len() == b.len() && forall|i: int| 0 <= i < a.len() ==> #[trigger] same_email_header(a[i], b[i])
}

pub(crate) fn eq_email_header_list(a: &[EmailHeader], b: &[EmailHeader]) -> (r: bool)
    ensures
        r == same_email_header_list(a@, b@),
{
    if a.len() != b.len() {
        return false;
    }
    let mut i: usize = 0;
    while i < a.len()
        invariant
            i <= a.len(),
            a.len() == b.len(),
            forall|k: int| 0 <= k < i ==> #[trigger] same_email_header(a@[k], b@[k]),
        decreases a.len() - i,
    {
        if !eq_email_header(&a[i], &b[i]) {
            return false;
        }
        i += 1;
    }
    true
}

/// Whether two lists of Action agree element by element.
pub open spec fn same_action_list(a: Seq<Action>, b: Seq<Action>) -> bool {
    a.len() == b.len() && forall|i: int| 0 <= i < a.len() ==> #[trigger] same_action(a[i], b[i])
}

pub(crate) fn eq_action_list(a: &[Action], b: &[Action]) -> (r: bool)
    ensures
        r == same_action_list(a@, b@),
{
    if a.len() != b.len() {
        return false;
    }
    let mut i: usize = 0;
    while i < a.len()
        invariant
            i <= a.len(),
            a.len() == b.len(),
            forall|k: int| 0 <= k < i ==> #[trigger] same_action(a@[k], b@[k]),
        decreases a.len() - i,
    {
        if !eq_action(&a[i], &b[i]) {
            return false;
        }
        i += 1;
    }
    true
}

/// Whether two lists of Trigger agree element by element.
pub open spec fn same_trigger_list(a: Seq<Trigger>, b: Seq<Trigger>) -> bool {
    a.len() == b.len() && forall|i: int| 0 <= i < a.len() ==> #[trigger] same_trigger(a[i], b[i])
}

pub(crate) fn eq_trigger_list(a: &[Trigger], b: &[Trigger]) -> (r: bool)
    ensures
        r == same_trigger_list(a@, b@),
{
    if a.len() != b.len() {
        return false;
    }
    let mut i: usize = 0;
    while i < a.len()
        invariant
            i <= a.len(),
            a.len() == b.len(),
            forall|k: int| 0 <= k < i ==> #[trigger] same_trigger(a@[k], b@[k]),
        decreases a.len() - i,
    {
        if !eq_trigger(&a[i], &b[i]) {
            return false;
        }
        i += 1;
    }
    true
}

/// Whether two lists of XmlExtension agree element by element.
pub open spec fn same_xml_extension_list(a: Seq<XmlExtension>, b: Seq<XmlExtension>) -> bool {
    a.len() == b.len() && forall|i: int| 0 <= i < a.len() ==> #[trigger] same_xml_extension(a[i], b[i])
}

pub(crate) fn eq_xml_extension_list(a: &[XmlExtension], b: &[XmlExtension]) -> (r: bool)
    ensures
        r == same_xml_extension_list(a@, b@),
{
    if a.len() != b.len() {
        return false;
    }
    let mut i: usize = 0;
    while i < a.len()
        invariant
            i <= a.len(),
            a.len() == b.len(),
            forall|k: int| 0 <= k < i ==> #[trigger] same_xml_extension(a@[k], b@[k]),
        decreases a.len() - i,
    {
        if !eq_xml_extension(&a[i], &b[i]) {
            return false;
        }
        i += 1;
    }
    true
}

pub(crate) fn eq_weekday_vec(a: &Vec<Weekday>, b: &Vec<Weekday>) -> (r: bool)
    ensures
        r == (a@ == b@),
{
    if a.len() != b.len() {
        return false;
    }
    let mut i: usize = 0;
    while i < a.len()
        invariant
            i <= a.len(),
            a.len() == b.len(),
            forall|k: int| 0 <= k < i ==> a@[k] == b@[k],
        decreases a.len() - i,
    {
        if a[i] != b[i] {
            return false;
        }
        i += 1;
    }
    proof {
        assert(a@ =~= b@);
    }
    true
}

pub(crate) fn eq_month_vec(a: &Vec<Month>, b: &Vec<Month>) -> (r: bool)
    ensures
        r == (a@ == b@),
{
    if a.len() != b.len() {
        return false;
    }
    let mut i: usize = 0;
    while i < a.len()
        invariant
            i <= a.len(),
            a.len() == b.len(),
            forall|k: int| 0 <= k < i ==> a@[k] == b@[k],
        decreases a.len() - i,
    {
        if a[i] != b[i] {
            return false;
        }
        i += 1;
    }
    proof {
        assert(a@ =~= b@);
    }
    true
}

pub(crate) fn eq_week_of_month_vec(a: &Vec<WeekOfMonth>, b: &Vec<WeekOfMonth>) -> (r: bool)
    ensures
        r == (a@ == b@),
{
    if a.len() != b.len() {
        return false;
    }
    let mut i: usize = 0;
    while i < a.len()
        invariant
            i <= a.len(),
            a.len() == b.len(),
            forall|k: int| 0 <= k < i ==> a@[k] == b@[k],
        decreases a.len() - i,
    {
        if a[i] != b[i] {
            return false;
        }
        i += 1;
    }
    proof {
        assert(a@ =~= b@);
    }
    true
}

pub(crate) fn eq_u8_vec(a: &Vec<u8>, b: &Vec<u8>) -> (r: bool)
    ensures
        r == (a@ == b@),
{
    if a.len() != b.len() {
        return false;
    }
    let mut i: usize = 0;
    while i < a.len()
        invariant
            i <= a.len(),
            a.len() == b.len(),
            forall|k: int| 0 <= k < i ==> a@[k] == b@[k],
        decreases a.len() - i,
    {
        if a[i] != b[i] {
            return false;
        }
        i += 1;
    }
    proof {
        assert(a@ =~= b@);
    }
    true
}

pub(crate) fn eq_opt_task_duration(a: &Option<TaskDuration>, b: &Option<TaskDuration>) -> (r: bool)
    ensures
        r == (*a == *b),
{
    match (a, b) {
        (Some(x), Some(y)) => eq_task_duration(x, y),
        (None, None) => true,
        _ => false,
    }
}

pub(crate) fn eq_opt_task_limit(a: &Option<TaskLimit>, b: &Option<TaskLimit>) -> (r: bool)
    ensures
        r == (*a == *b),
{
    match (a, b) {
        (Some(x), Some(y)) => eq_task_limit(x, y),
        (None, None) => true,
        _ => false,
    }
}

pub(crate) fn eq_opt_repetition(a: &Option<Repetition>, b: &Option<Repetition>) -> (r: bool)
    ensures
        r == (*a == *b),
{
    match (a, b) {
        (Some(x), Some(y)) => eq_repetition(x, y),
        (None, None) => true,
        _ => false,
    }
}


/// Whether `existing` is what registering `desired` with the ownership
/// `source` and the `uri` gives, once registration dates, security
/// descriptors and enabled flags are set aside.
pub open spec fn matches_owned_spec(existing: TaskDefinition, desired: TaskDefinition, source: Seq<char>, uri: Seq<char>) -> bool {
    &&& existing.schema_version@ == desired.schema_version@
    &&& opt_view(existing.registration.author) == opt_view(desired.registration.author)
    &&& opt_view(existing.registration.description) == opt_view(desired.registration.description)
    &&& opt_view(existing.registration.documentation) == opt_view(desired.registration.documentation)
    &&& opt_view(existing.registration.version) == opt_view(desired.registration.version)
    &&& opt_view(existing.registration.source) == Some(source)
    &&& opt_view(existing.registration.uri) == Some(uri)
    &&& same_trigger_list(existing.triggers@, desired.triggers@)
    &&& same_principal(existing.principal, desired.principal)
    &&& same_settings_content(existing.settings, desired.settings)
    &&& opt_view(existing.data) == opt_view(desired.data)
    &&& same_action_list(existing.actions@, desired.actions@)
    &&& same_xml_extension_list(existing.extensions@, desired.extensions@)
}

fn opt_is(a: &Option<String>, text: &str) -> (r: bool)
    ensures
        r == (opt_view(*a) == Some(text@)),
{
    match a {
        Some(x) => str_eq(x.as_str(), text),
        None => false,
    }
}

/// Compares as [`matches_owned_spec`] describes.
pub fn matches_owned(existing: &TaskDefinition, desired: &TaskDefinition, source: &str, uri: &str) -> (r: bool)
    ensures
        r == matches_owned_spec(*existing, *desired, source@, uri@),
{
    let a = &existing.registration;
    let b = &desired.registration;
    existing.schema_version.same(&desired.schema_version) && opt_str_eq(&a.author, &b.author)
        && opt_str_eq(&a.description, &b.description) && opt_str_eq(&a.documentation, &b.documentation)
        && opt_str_eq(&a.version, &b.version) && opt_is(&a.source, source) && opt_is(&a.uri, uri)
        && eq_trigger_list(existing.triggers.as_slice(), desired.triggers.as_slice()) && eq_principal(
        &existing.principal,
        &desired.principal,
    ) && eq_settings_content(&existing.settings, &desired.settings) && opt_str_eq(
        &existing.data,
        &desired.data,
    ) && eq_action_list(existing.actions.as_slice(), desired.actions.as_slice())
        && eq_xml_extension_list(existing.extensions.as_slice(), desired.extensions.as_slice())
}

} // verus!
