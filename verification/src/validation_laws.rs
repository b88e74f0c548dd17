//! When a task definition is valid, stated field by field.
use vstd::prelude::*;

use crate::model::action::Action;
use crate::model::builder::definition_valid;
use crate::model::principal::RequiredPrivilege;
use crate::model::trigger::{trigger_common, Trigger};
use crate::model::{schema_generation, TaskDefinition};
use crate::manifest::{
    duplicate_finding, entry_findings, folder_findings, manifest_findings, outside_finding, prefixed, task_findings,
    within_namespace, ManagedFolder, ManagedTask, TaskManifest, FORMAT_VERSION,
};
use crate::validation::{
    action_findings_at, action_ids, actions_findings, days_in_range, definition_findings, dup_ids,
    duplicate_findings, identity_matches, insert_sorted, principal_findings, privilege_findings, schema_findings,
    trigger_findings_at, trigger_ids, trigger_kind_findings, triggers_findings, diags_view, has_error, indexed_path,
    DiagnosticLevel, DiagnosticView, ValidationReport,
};

verus! {

/// Whether no finding is an error.
pub open spec fn no_errors(s: Seq<DiagnosticView>) -> bool {
    forall|i: int| 0 <= i < s.len() ==> (#[trigger] s[i]).level != DiagnosticLevel::Error
}

proof fn lemma_no_errors_concat(a: Seq<DiagnosticView>, b: Seq<DiagnosticView>)
    ensures
        no_errors(a + b) == (no_errors(a) && no_errors(b)),
{
    if no_errors(a + b) {
        assert forall|i: int| 0 <= i < a.len() implies (#[trigger] a[i]).level != DiagnosticLevel::Error by {
            assert((a + b)[i] == a[i]);
        }
        assert forall|i: int| 0 <= i < b.len() implies (#[trigger] b[i]).level != DiagnosticLevel::Error by {
            assert((a + b)[a.len() + i] == b[i]);
        }
    }
    if no_errors(a) && no_errors(b) {
        assert forall|i: int| 0 <= i < (a + b).len() implies (#[trigger] (a + b)[i]).level != DiagnosticLevel::Error by {
            if i < a.len() {
                assert((a + b)[i] == a[i]);
            } else {
                assert((a + b)[i] == b[i - a.len()]);
            }
        }
    }
}

proof fn lemma_duplicates_no_errors(dups: Seq<Seq<char>>, path: Seq<char>, what: Seq<char>)
    ensures
        no_errors(duplicate_findings(dups, path, what)) == (dups.len() == 0),
    decreases dups.len(),
{
    if dups.len() > 0 {
        let s = duplicate_findings(dups, path, what);
        assert(s[s.len() - 1].level == DiagnosticLevel::Error);
    }
}

proof fn lemma_insert_sorted_nonempty(s: Seq<Seq<char>>, x: Seq<char>)
    ensures
        insert_sorted(s, x).len() > 0,
    decreases s.len(),
{
    if s.len() > 0 && s[0] != x && !crate::model::trigger::seq_less(x, s[0]) {
        lemma_insert_sorted_nonempty(s.drop_first(), x);
    }
}

proof fn lemma_dup_ids_empty(ids: Seq<Seq<char>>)
    ensures
        (dup_ids(ids).len() == 0) == ids.no_duplicates(),
    decreases ids.len(),
{
    if ids.len() > 0 {
        let prev = ids.drop_last();
        lemma_dup_ids_empty(prev);
        if prev.contains(ids.last()) {
            lemma_insert_sorted_nonempty(dup_ids(prev), ids.last());
            let j = choose|j: int| 0 <= j < prev.len() && prev[j] == ids.last();
            assert(ids[j] == ids[ids.len() - 1]);
        } else {
            if prev.no_duplicates() {
                assert forall|i: int, j: int| 0 <= i < ids.len() && 0 <= j < ids.len() && i != j implies ids[i] != ids[j] by {
                    if i < ids.len() - 1 && j < ids.len() - 1 {
                        assert(ids[i] == prev[i] && ids[j] == prev[j]);
                    } else if i < ids.len() - 1 {
                        assert(ids[i] == prev[i]);
                    } else if j < ids.len() - 1 {
                        assert(ids[j] == prev[j]);
                    }
                }
            }
            if ids.no_duplicates() {
                assert forall|i: int, j: int| 0 <= i < prev.len() && 0 <= j < prev.len() && i != j implies prev[i] != prev[j] by {
                    assert(ids[i] == prev[i] && ids[j] == prev[j]);
                }
            }
        }
    }
}

/// Whether no privilege is requested twice.
pub open spec fn privileges_distinct(ps: Seq<RequiredPrivilege>) -> bool {
    forall|i: int, j: int| 0 <= i < j < ps.len() ==> (#[trigger] ps[i])@ != (#[trigger] ps[j])@
}

proof fn lemma_privileges_no_errors(ps: Seq<RequiredPrivilege>)
    ensures
        no_errors(privilege_findings(ps)) == privileges_distinct(ps),
    decreases ps.len(),
{
    if ps.len() > 0 {
        let prev = ps.drop_last();
        let i = ps.len() - 1;
        lemma_privileges_no_errors(prev);
        let s = privilege_findings(ps);
        if exists|j: int| 0 <= j < i && ps[j]@ == ps[i]@ {
            assert(s[s.len() - 1].level == DiagnosticLevel::Error);
        } else {
            if privileges_distinct(ps) {
                assert forall|a: int, b: int| 0 <= a < b < prev.len() implies (#[trigger] prev[a])@ != (#[trigger] prev[b])@ by {
                    assert(prev[a] == ps[a] && prev[b] == ps[b]);
                }
            }
            if privileges_distinct(prev) {
                assert forall|a: int, b: int| 0 <= a < b < ps.len() implies (#[trigger] ps[a])@ != (#[trigger] ps[b])@ by {
                    if b < i {
                        assert(prev[a] == ps[a] && prev[b] == ps[b]);
                    }
                }
            }
        }
    }
}

/// Whether an action that runs a command names one.
pub open spec fn command_present(a: Action) -> bool {
    a matches Action::Exec(x) ==> x.command@.len() > 0
}

proof fn lemma_actions_no_errors(actions: Seq<Action>)
    ensures
        no_errors(actions_findings(actions)) == forall|i: int| 0 <= i < actions.len() ==> command_present(#[trigger] actions[i]),
    decreases actions.len(),
{
    if actions.len() > 0 {
        let prev = actions.drop_last();
        lemma_actions_no_errors(prev);
        let last = actions.last();
        let here = action_findings_at(last, (actions.len() - 1) as nat);
        lemma_no_errors_concat(actions_findings(prev), here);
        assert(no_errors(here) == command_present(last)) by {
            if !command_present(last) {
                assert(here[0].level == DiagnosticLevel::Error);
            }
        }
        if forall|i: int| 0 <= i < actions.len() ==> command_present(#[trigger] actions[i]) {
            assert forall|i: int| 0 <= i < prev.len() implies command_present(#[trigger] prev[i]) by {
                assert(prev[i] == actions[i]);
            }
            assert(command_present(actions[actions.len() - 1]));
        }
        if no_errors(actions_findings(prev)) && command_present(last) {
            assert forall|i: int| 0 <= i < actions.len() implies command_present(#[trigger] actions[i]) by {
                if i < prev.len() {
                    assert(prev[i] == actions[i]);
                }
            }
        }
    }
}

/// Whether a trigger's repetition, when it has one, repeats after a non-zero interval.
pub open spec fn repetition_interval_set(t: Trigger) -> bool {
    match trigger_common(t) {
        Some(c) => match c.repetition {
            Some(r) => r.interval@ != (0nat, 0nat),
            None => true,
        },
        None => true,
    }
}

/// Whether a trigger is complete: a repetition, when set, has a non-zero
/// interval, a time trigger has a start, a daily one a non-zero interval, a
/// weekly one a non-zero interval and a weekday, a monthly one a month and
/// valid days, a monthly day-of-week one months, weekdays and weeks, and an
/// event one a subscription.
pub open spec fn trigger_complete(t: Trigger) -> bool {
    &&& repetition_interval_set(t)
    &&& match t {
        Trigger::Time(v) => v.common.start_boundary is Some,
        Trigger::Daily(v) => v.days_interval != 0,
        Trigger::Weekly(v) => v.weeks_interval != 0 && v.days_of_week@.len() != 0,
        Trigger::Monthly(v) => v.months@.len() != 0 && (v.days_of_month@.len() != 0 || v.run_on_last_day)
            && days_in_range(v.days_of_month@),
        Trigger::MonthlyDow(v) => v.months@.len() != 0 && v.days_of_week@.len() != 0
            && (v.weeks_of_month@.len() != 0 || v.run_on_last_week),
        Trigger::Event(v) => v.subscription@.len() != 0,
        _ => true,
    }
}

proof fn lemma_trigger_no_errors(t: Trigger, index: nat)
    ensures
        no_errors(trigger_findings_at(t, index)) == trigger_complete(t),
{
    let rep = match trigger_common(t) {
        Some(c) => match c.repetition {
            Some(r) => if r.interval@ == (0nat, 0nat) {
                seq![crate::validation::finding(
                    DiagnosticLevel::Error,
                    crate::validation::DiagnosticCode::OutOfRange,
                    crate::validation::indexed_path("triggers"@, index, Seq::empty()) + ".repetition.interval"@,
                    "a repetition interval must be greater than zero"@,
                )]
            } else {
                Seq::empty()
            },
            None => Seq::empty(),
        },
        None => Seq::empty(),
    };
    let kind = trigger_kind_findings(t, index);
    assert(trigger_findings_at(t, index) == rep + kind);
    lemma_no_errors_concat(rep, kind);
    if rep.len() > 0 {
        assert(rep[0].level == DiagnosticLevel::Error);
    }
    assert(no_errors(rep) == repetition_interval_set(t));
    match t {
        Trigger::Registration(_) => {
            assert(kind.len() == 1 && kind[0].level == DiagnosticLevel::Warning);
            assert(no_errors(kind));
        },
        Trigger::Unknown(_) => {
            assert(kind.len() == 1 && kind[0].level == DiagnosticLevel::Warning);
            assert(no_errors(kind));
        },
        Trigger::Time(_) | Trigger::Daily(_) | Trigger::Weekly(_) | Trigger::Monthly(_) | Trigger::MonthlyDow(_)
        | Trigger::Event(_) => {
            if kind.len() > 0 {
                assert(kind[0].level == DiagnosticLevel::Error);
            }
        },
        _ => {
            assert(kind.len() == 0);
        },
    }
}

proof fn lemma_triggers_no_errors(triggers: Seq<Trigger>)
    ensures
        no_errors(triggers_findings(triggers)) == forall|i: int| 0 <= i < triggers.len() ==> trigger_complete(#[trigger] triggers[i]),
    decreases triggers.len(),
{
    if triggers.len() > 0 {
        let prev = triggers.drop_last();
        lemma_triggers_no_errors(prev);
        let last = triggers.last();
        lemma_trigger_no_errors(last, (triggers.len() - 1) as nat);
        lemma_no_errors_concat(triggers_findings(prev), trigger_findings_at(last, (triggers.len() - 1) as nat));
        if forall|i: int| 0 <= i < triggers.len() ==> trigger_complete(#[trigger] triggers[i]) {
            assert forall|i: int| 0 <= i < prev.len() implies trigger_complete(#[trigger] prev[i]) by {
                assert(prev[i] == triggers[i]);
            }
            assert(trigger_complete(triggers[triggers.len() - 1]));
        }
        if no_errors(triggers_findings(prev)) && trigger_complete(last) {
            assert forall|i: int| 0 <= i < triggers.len() implies trigger_complete(#[trigger] triggers[i]) by {
                if i < prev.len() {
                    assert(prev[i] == triggers[i]);
                }
            }
        }
    }
}

/// Whether the requested schema supports the settings that need a newer
/// one: unified scheduling 1.3, maintenance 1.4, volatility 1.6.
pub open spec fn schema_supports(d: TaskDefinition) -> bool {
    let g = schema_generation(d.schema_version@);
    &&& d.settings.use_unified_scheduling_engine ==> g >= 3
    &&& d.settings.maintenance is Some ==> g >= 4
    &&& d.settings.volatile ==> g >= 6
}

/// The conditions of a valid definition, field by field.
pub open spec fn definition_conditions(d: TaskDefinition) -> bool {
    &&& d.actions@.len() > 0
    &&& action_ids(d.actions@).no_duplicates()
    &&& trigger_ids(d.triggers@).no_duplicates()
    &&& d.settings.priority <= 10
    &&& d.principal.id@.len() > 0
    &&& identity_matches(d.principal)
    &&& privileges_distinct(d.principal.required_privileges@)
    &&& forall|i: int| 0 <= i < d.actions@.len() ==> command_present(#[trigger] d.actions@[i])
    &&& forall|i: int| 0 <= i < d.triggers@.len() ==> trigger_complete(#[trigger] d.triggers@[i])
    &&& schema_supports(d)
}

/// A definition validates exactly when it has an action, unique action and
/// trigger identifiers, a priority of at most 10, a non-empty principal id
/// whose identity matches its logon type, no privilege requested twice, a
/// command for every command action, only complete triggers, and a schema
/// new enough for the settings it uses; warnings never make it invalid.
pub proof fn lemma_definition_valid_iff(d: TaskDefinition)
    ensures
        definition_valid(d) <==> definition_conditions(d),
{
    let missing = if d.actions@.len() == 0 {
        seq![crate::validation::finding(DiagnosticLevel::Error, crate::validation::DiagnosticCode::MissingAction, "actions"@, "a task must contain at least one action"@)]
    } else {
        Seq::empty()
    };
    let priority = if d.settings.priority > 10 {
        seq![crate::validation::finding(DiagnosticLevel::Error, crate::validation::DiagnosticCode::OutOfRange, "settings.priority"@, "scheduler priority must be between 0 and 10"@)]
    } else {
        Seq::empty()
    };
    let extensions = if d.extensions@.len() > 0 {
        seq![crate::validation::finding(DiagnosticLevel::Warning, crate::validation::DiagnosticCode::OpaqueExtension, "extensions"@, "opaque XML extensions are preserved but cannot be validated semantically"@)]
    } else {
        Seq::empty()
    };
    let da = duplicate_findings(dup_ids(action_ids(d.actions@)), "actions"@, "duplicate action id "@);
    let dt = duplicate_findings(dup_ids(trigger_ids(d.triggers@)), "triggers"@, "duplicate trigger id "@);
    let pf = principal_findings(d.principal);
    let af = actions_findings(d.actions@);
    let tf = triggers_findings(d.triggers@);
    let sf = schema_findings(d);
    assert(definition_findings(d) == missing + da + dt + priority + pf + af + tf + sf + extensions);
    lemma_no_errors_concat(missing, da);
    lemma_no_errors_concat(missing + da, dt);
    lemma_no_errors_concat(missing + da + dt, priority);
    lemma_no_errors_concat(missing + da + dt + priority, pf);
    lemma_no_errors_concat(missing + da + dt + priority + pf, af);
    lemma_no_errors_concat(missing + da + dt + priority + pf + af, tf);
    lemma_no_errors_concat(missing + da + dt + priority + pf + af + tf, sf);
    lemma_no_errors_concat(missing + da + dt + priority + pf + af + tf + sf, extensions);
    if missing.len() > 0 {
        assert(missing[0].level == DiagnosticLevel::Error);
    }
    if priority.len() > 0 {
        assert(priority[0].level == DiagnosticLevel::Error);
    }
    if extensions.len() > 0 {
        assert(extensions[0].level == DiagnosticLevel::Warning);
    }
    lemma_duplicates_no_errors(dup_ids(action_ids(d.actions@)), "actions"@, "duplicate action id "@);
    lemma_duplicates_no_errors(dup_ids(trigger_ids(d.triggers@)), "triggers"@, "duplicate trigger id "@);
    lemma_dup_ids_empty(action_ids(d.actions@));
    lemma_dup_ids_empty(trigger_ids(d.triggers@));
    // The principal: an empty id, an identity mismatch and repeated privileges.
    let p = d.principal;
    let empty_id = if p.id@.len() == 0 {
        seq![crate::validation::finding(DiagnosticLevel::Error, crate::validation::DiagnosticCode::EmptyValue, "principal.id"@, "principal id cannot be empty"@)]
    } else {
        Seq::empty()
    };
    let mismatch = if !identity_matches(p) {
        seq![crate::validation::finding(DiagnosticLevel::Error, crate::validation::DiagnosticCode::PrincipalLogonMismatch, "principal"@, "principal identity does not match its logon type"@)]
    } else {
        Seq::empty()
    };
    assert(pf == empty_id + mismatch + privilege_findings(p.required_privileges@));
    lemma_no_errors_concat(empty_id, mismatch);
    lemma_no_errors_concat(empty_id + mismatch, privilege_findings(p.required_privileges@));
    if empty_id.len() > 0 {
        assert(empty_id[0].level == DiagnosticLevel::Error);
    }
    if mismatch.len() > 0 {
        assert(mismatch[0].level == DiagnosticLevel::Error);
    }
    lemma_privileges_no_errors(p.required_privileges@);
    lemma_actions_no_errors(d.actions@);
    lemma_triggers_no_errors(d.triggers@);
    // The schema: each setting newer than the requested schema is an error.
    let g = schema_generation(d.schema_version@);
    let unified = if d.settings.use_unified_scheduling_engine && g < 3 {
        seq![crate::validation::finding(DiagnosticLevel::Error, crate::validation::DiagnosticCode::SchemaTooOld, "settings.use_unified_scheduling_engine"@, "unified scheduling requires schema 1.3 or later"@)]
    } else {
        Seq::empty()
    };
    let maintenance = if d.settings.maintenance is Some && g < 4 {
        seq![crate::validation::finding(DiagnosticLevel::Error, crate::validation::DiagnosticCode::SchemaTooOld, "settings.maintenance"@, "maintenance settings require task schema 1.4 or later"@)]
    } else {
        Seq::empty()
    };
    let volatile = if d.settings.volatile && g < 6 {
        seq![crate::validation::finding(DiagnosticLevel::Error, crate::validation::DiagnosticCode::SchemaTooOld, "settings.volatile"@, "volatile tasks require task schema 1.6 or later"@)]
    } else {
        Seq::empty()
    };
    assert(sf == unified + maintenance + volatile);
    lemma_no_errors_concat(unified, maintenance);
    lemma_no_errors_concat(unified + maintenance, volatile);
    if unified.len() > 0 {
        assert(unified[0].level == DiagnosticLevel::Error);
    }
    if maintenance.len() > 0 {
        assert(maintenance[0].level == DiagnosticLevel::Error);
    }
    if volatile.len() > 0 {
        assert(volatile[0].level == DiagnosticLevel::Error);
    }
    assert(definition_valid(d) == no_errors(definition_findings(d)));
}

// ---------------------------------------------------------------------------
// Manifests
// ---------------------------------------------------------------------------

proof fn lemma_no_duplicates_push(s: Seq<Seq<char>>, x: Seq<char>)
    ensures
        s.push(x).no_duplicates() == (s.no_duplicates() && !s.contains(x)),
{
    let t = s.push(x);
    if t.no_duplicates() {
        assert forall|i: int, j: int| 0 <= i < s.len() && 0 <= j < s.len() && i != j implies s[i] != s[j] by {
            assert(t[i] == s[i] && t[j] == s[j]);
        }
        if s.contains(x) {
            let k = choose|k: int| 0 <= k < s.len() && s[k] == x;
            assert(t[k] == t[s.len() as int]);
        }
    }
    if s.no_duplicates() && !s.contains(x) {
        assert forall|i: int, j: int| 0 <= i < t.len() && 0 <= j < t.len() && i != j implies t[i] != t[j] by {
            if i < s.len() && j < s.len() {
                assert(t[i] == s[i] && t[j] == s[j]);
            } else if i < s.len() {
                assert(t[i] == s[i]);
            } else if j < s.len() {
                assert(t[j] == s[j]);
            }
        }
    }
}

proof fn lemma_entry_no_errors(kind: Seq<char>, paths: Seq<Seq<char>>, namespace: Seq<char>)
    requires
        paths.len() > 0,
    ensures
        no_errors(entry_findings(kind, paths, namespace)) == (within_namespace(paths.last(), namespace)
            && !paths.drop_last().contains(paths.last())),
{
    let at = indexed_path(kind, (paths.len() - 1) as nat, ".path"@);
    let a = if !within_namespace(paths.last(), namespace) {
        seq![outside_finding(at)]
    } else {
        Seq::empty()
    };
    let b = if paths.drop_last().contains(paths.last()) {
        seq![duplicate_finding(at)]
    } else {
        Seq::empty()
    };
    assert(entry_findings(kind, paths, namespace) == a + b);
    lemma_no_errors_concat(a, b);
    if a.len() > 0 {
        assert(a[0].level == DiagnosticLevel::Error);
    }
    if b.len() > 0 {
        assert(b[0].level == DiagnosticLevel::Error);
    }
}

/// Whether every path lies within the namespace and none is listed twice.
pub open spec fn paths_owned(paths: Seq<Seq<char>>, namespace: Seq<char>) -> bool {
    &&& forall|i: int| 0 <= i < paths.len() ==> within_namespace(#[trigger] paths[i], namespace)
    &&& paths.no_duplicates()
}

proof fn lemma_folders_no_errors(paths: Seq<Seq<char>>, namespace: Seq<char>)
    ensures
        no_errors(folder_findings(paths, namespace)) == paths_owned(paths, namespace),
    decreases paths.len(),
{
    if paths.len() > 0 {
        let prev = paths.drop_last();
        lemma_folders_no_errors(prev, namespace);
        lemma_no_errors_concat(folder_findings(prev, namespace), entry_findings("folders"@, paths, namespace));
        lemma_entry_no_errors("folders"@, paths, namespace);
        lemma_paths_owned_push(prev, paths.last(), namespace);
        assert(prev.push(paths.last()) =~= paths);
    }
}

proof fn lemma_paths_owned_push(prev: Seq<Seq<char>>, x: Seq<char>, namespace: Seq<char>)
    ensures
        paths_owned(prev.push(x), namespace) == (paths_owned(prev, namespace) && within_namespace(x, namespace)
            && !prev.contains(x)),
{
    let t = prev.push(x);
    lemma_no_duplicates_push(prev, x);
    if paths_owned(t, namespace) {
        assert forall|i: int| 0 <= i < prev.len() implies within_namespace(#[trigger] prev[i], namespace) by {
            assert(t[i] == prev[i]);
        }
        assert(t[prev.len() as int] == x);
    }
    if paths_owned(prev, namespace) && within_namespace(x, namespace) {
        assert forall|i: int| 0 <= i < t.len() implies within_namespace(#[trigger] t[i], namespace) by {
            if i < prev.len() {
                assert(t[i] == prev[i]);
            }
        }
    }
}

proof fn lemma_prefixed_no_errors(prefix: Seq<char>, ds: Seq<DiagnosticView>)
    ensures
        no_errors(prefixed(prefix, ds)) == no_errors(ds),
{
    let p = prefixed(prefix, ds);
    assert(p.len() == ds.len());
    if no_errors(ds) {
        assert forall|i: int| 0 <= i < p.len() implies (#[trigger] p[i]).level != DiagnosticLevel::Error by {
            assert(p[i].level == ds[i].level);
        }
    }
    if no_errors(p) {
        assert forall|i: int| 0 <= i < ds.len() implies (#[trigger] ds[i]).level != DiagnosticLevel::Error by {
            assert(p[i].level == ds[i].level);
        }
    }
}

/// The paths of managed tasks.
pub open spec fn task_paths(tasks: Seq<ManagedTask>) -> Seq<Seq<char>> {
    tasks.map_values(|t: ManagedTask| t.path@)
}

/// Whether every task definition validates.
pub open spec fn definitions_valid(tasks: Seq<ManagedTask>) -> bool {
    forall|i: int| 0 <= i < tasks.len() ==> definition_valid(#[trigger] tasks[i].definition)
}

proof fn lemma_tasks_no_errors(tasks: Seq<ManagedTask>, namespace: Seq<char>)
    ensures
        no_errors(task_findings(tasks, namespace)) == (paths_owned(task_paths(tasks), namespace) && definitions_valid(
            tasks,
        )),
    decreases tasks.len(),
{
    if tasks.len() > 0 {
        let prev = tasks.drop_last();
        let paths = task_paths(tasks);
        let last = tasks.last();
        lemma_tasks_no_errors(prev, namespace);
        assert(task_paths(prev) =~= paths.drop_last());
        let here = entry_findings("tasks"@, paths, namespace);
        let defs = prefixed(indexed_path("tasks"@, (tasks.len() - 1) as nat, ".definition."@), definition_findings(last.definition));
        assert(task_findings(tasks, namespace) == task_findings(prev, namespace) + here + defs);
        lemma_no_errors_concat(task_findings(prev, namespace), here);
        lemma_no_errors_concat(task_findings(prev, namespace) + here, defs);
        lemma_entry_no_errors("tasks"@, paths, namespace);
        lemma_prefixed_no_errors(indexed_path("tasks"@, (tasks.len() - 1) as nat, ".definition."@), definition_findings(last.definition));
        assert(definition_valid(last.definition) == no_errors(definition_findings(last.definition)));
        lemma_paths_owned_push(paths.drop_last(), paths.last(), namespace);
        assert(paths.drop_last().push(paths.last()) =~= paths);
        if definitions_valid(tasks) {
            assert forall|i: int| 0 <= i < prev.len() implies definition_valid(#[trigger] prev[i].definition) by {
                assert(prev[i] == tasks[i]);
            }
            assert(definition_valid(tasks[tasks.len() - 1].definition));
        }
        if definitions_valid(prev) && definition_valid(last.definition) {
            assert forall|i: int| 0 <= i < tasks.len() implies definition_valid(#[trigger] tasks[i].definition) by {
                if i < prev.len() {
                    assert(prev[i] == tasks[i]);
                }
            }
        }
    }
}

/// The conditions of a valid manifest: the supported format version, a
/// namespace other than the scheduler root, folder and task paths within
/// the namespace and each listed once, and valid task definitions.
pub open spec fn manifest_conditions(m: TaskManifest) -> bool {
    &&& m.format_version == FORMAT_VERSION
    &&& m.namespace@ != seq!['\\']
    &&& paths_owned(m.folders@.map_values(|f: ManagedFolder| f.path@), m.namespace@)
    &&& paths_owned(task_paths(m.tasks@), m.namespace@)
    &&& definitions_valid(m.tasks@)
}

/// A manifest validates exactly when its format version is supported, its
/// namespace is not the scheduler root, every folder and task path is the
/// namespace or lies below it, no folder path and no task path is listed
/// twice, and every task definition validates; the report of `validate`
/// says so through `is_valid`.
pub proof fn lemma_manifest_valid_iff(m: TaskManifest, report: ValidationReport)
    requires
        diags_view(report.diagnostics@) == manifest_findings(m),
    ensures
        !has_error(report.diagnostics@) <==> manifest_conditions(m),
{
    let version = if m.format_version != FORMAT_VERSION {
        seq![
            DiagnosticView {
                level: DiagnosticLevel::Error,
                code: crate::validation::DiagnosticCode::UnsupportedCapability,
                path: "format_version"@,
                message: "manifest version "@ + crate::text::decimal(m.format_version as nat)
                    + " is unsupported; expected 1"@,
                remediation: Some("Use format_version = 1 and migrate unsupported fields."@),
            },
        ]
    } else {
        Seq::empty()
    };
    let root = if m.namespace@ == seq!['\\'] {
        seq![
            DiagnosticView {
                level: DiagnosticLevel::Error,
                code: crate::validation::DiagnosticCode::OwnershipConflict,
                path: "namespace"@,
                message: "the scheduler root cannot be a managed namespace"@,
                remediation: Some("choose a dedicated child folder"@),
            },
        ]
    } else {
        Seq::empty()
    };
    let folders = folder_findings(m.folders@.map_values(|f: ManagedFolder| f.path@), m.namespace@);
    let tasks = task_findings(m.tasks@, m.namespace@);
    assert(manifest_findings(m) == version + root + folders + tasks);
    lemma_no_errors_concat(version, root);
    lemma_no_errors_concat(version + root, folders);
    lemma_no_errors_concat(version + root + folders, tasks);
    if version.len() > 0 {
        assert(version[0].level == DiagnosticLevel::Error);
    }
    if root.len() > 0 {
        assert(root[0].level == DiagnosticLevel::Error);
    }
    lemma_folders_no_errors(m.folders@.map_values(|f: ManagedFolder| f.path@), m.namespace@);
    lemma_tasks_no_errors(m.tasks@, m.namespace@);
    let ds = report.diagnostics@;
    let v = diags_view(ds);
    if has_error(ds) {
        let i = choose|i: int| 0 <= i < ds.len() && ds[i].level == DiagnosticLevel::Error;
        assert(v[i].level == DiagnosticLevel::Error);
    }
    if !no_errors(v) {
        let i = choose|i: int| 0 <= i < v.len() && v[i].level == DiagnosticLevel::Error;
        assert(ds[i].level == DiagnosticLevel::Error);
    }
}

/// A path lies within a namespace exactly when it is the namespace, or it
/// starts with the namespace's characters followed by a backslash: a
/// sibling such as `\AcmeOther` is not within `\Acme`.
pub proof fn lemma_within_namespace_iff(path: Seq<char>, namespace: Seq<char>)
    ensures
        within_namespace(path, namespace) <==> (path == namespace || (namespace.len() < path.len() && path[namespace.len()
            as int] == '\\' && forall|i: int| 0 <= i < namespace.len() ==> #[trigger] path[i] == namespace[i])),
{
    if namespace.len() < path.len() && forall|i: int| 0 <= i < namespace.len() ==> #[trigger] path[i] == namespace[i] {
        assert(path.take(namespace.len() as int) =~= namespace);
    }
    if namespace.len() < path.len() && path.take(namespace.len() as int) == namespace {
        assert forall|i: int| 0 <= i < namespace.len() implies #[trigger] path[i] == namespace[i] by {
            assert(path.take(namespace.len() as int)[i] == path[i]);
        }
    }
}

/// A manifest with a task whose path continues the namespace's text
/// without a backslash right after it (a sibling folder) does not validate.
pub proof fn lemma_sibling_task_is_outside(m: TaskManifest, report: ValidationReport, k: int)
    requires
        diags_view(report.diagnostics@) == manifest_findings(m),
        0 <= k < m.tasks@.len(),
        m.namespace@.len() < m.tasks@[k].path@.len(),
        m.tasks@[k].path@[m.namespace@.len() as int] != '\\',
    ensures
        has_error(report.diagnostics@),
{
    lemma_manifest_valid_iff(m, report);
    lemma_within_namespace_iff(m.tasks@[k].path@, m.namespace@);
    assert(task_paths(m.tasks@)[k] == m.tasks@[k].path@);
    assert(!within_namespace(task_paths(m.tasks@)[k], m.namespace@));
}

} // verus!
