//! What a plan holds for each desired and each current task.
use vstd::prelude::*;

use crate::error::{Error, ErrorKind};
use crate::manifest::{ManagedTask, TaskManifest};
use crate::reconcile::{
    create_changes, desired_paths, folder_security_changes, folders_increasing, in_apply_order,
    last_task_index, lemma_apply_order, manifest_valid, plan_outcome, planned_changes_spec, planned_views,
    prune_changes, required_folder_set, chain_sources, task_changes_spec, tasks_changes_spec, ChangeView,
    CurrentState, CurrentTask, Plan, PlanOptions, RollbackSafety, owned_source, task_security_change,
};
use crate::manifest::ManagedFolder;
use crate::reconcile::{
    lemma_plan_deletes_only_owned_undesired, lemma_unowned_collision_is_conflict, rollback_safety_spec,
};

verus! {

proof fn lemma_tasks_changes_some(
    m: TaskManifest,
    current: CurrentState,
    options: PlanOptions,
    ds: Seq<ManagedTask>,
    k: int,
)
    requires
        tasks_changes_spec(m, current, options, ds) is Some,
        0 <= k < ds.len(),
    ensures
        task_changes_spec(m, current, options, ds[k]) matches Some(c) && forall|x: (ChangeView, RollbackSafety)|
            #[trigger] c.contains(x) ==> tasks_changes_spec(m, current, options, ds)->Some_0.contains(x),
    decreases ds.len(),
{
    let prev = tasks_changes_spec(m, current, options, ds.drop_last())->Some_0;
    let more = task_changes_spec(m, current, options, ds.last())->Some_0;
    let all = tasks_changes_spec(m, current, options, ds)->Some_0;
    assert(all == prev + more);
    if k < ds.len() - 1 {
        assert(ds.drop_last()[k] == ds[k]);
        lemma_tasks_changes_some(m, current, options, ds.drop_last(), k);
        let c = task_changes_spec(m, current, options, ds[k])->Some_0;
        assert forall|x: (ChangeView, RollbackSafety)| #[trigger] c.contains(x) implies all.contains(x) by {
            let i = choose|i: int| 0 <= i < prev.len() && prev[i] == x;
            assert(all[i] == x);
        }
    } else {
        assert forall|x: (ChangeView, RollbackSafety)| #[trigger] more.contains(x) implies all.contains(x) by {
            let i = choose|i: int| 0 <= i < more.len() && more[i] == x;
            assert(all[prev.len() + i] == x);
        }
    }
}

proof fn lemma_tasks_changes_none(m: TaskManifest, current: CurrentState, options: PlanOptions, ds: Seq<ManagedTask>)
    requires
        tasks_changes_spec(m, current, options, ds) is None,
    ensures
        exists|k: int| 0 <= k < ds.len() && #[trigger] task_changes_spec(m, current, options, ds[k]) is None,
    decreases ds.len(),
{
    if tasks_changes_spec(m, current, options, ds.drop_last()) is None {
        lemma_tasks_changes_none(m, current, options, ds.drop_last());
        let k = choose|k: int| 0 <= k < ds.drop_last().len() && #[trigger] task_changes_spec(m, current, options, ds.drop_last()[k]) is None;
        assert(ds.drop_last()[k] == ds[k]);
    } else {
        assert(task_changes_spec(m, current, options, ds[ds.len() - 1]) is None);
    }
}

proof fn lemma_prune_contains(tasks: Seq<CurrentTask>, desired: Seq<Seq<char>>, j: int)
    requires
        0 <= j < tasks.len(),
        tasks[j].owned,
        !desired.contains(tasks[j].path@),
    ensures
        exists|i: int| 0 <= i < prune_changes(tasks, desired).len()
            && (#[trigger] prune_changes(tasks, desired)[i]).0 == ChangeView::DeleteTask(tasks[j].path@),
    decreases tasks.len(),
{
    let prev = prune_changes(tasks.drop_last(), desired);
    if j < tasks.len() - 1 {
        assert(tasks.drop_last()[j] == tasks[j]);
        lemma_prune_contains(tasks.drop_last(), desired, j);
        let i = choose|i: int| 0 <= i < prev.len() && (#[trigger] prev[i]).0 == ChangeView::DeleteTask(tasks[j].path@);
        assert(prune_changes(tasks, desired)[i] == prev[i]);
    } else {
        assert(prune_changes(tasks, desired)[prev.len() as int].0 == ChangeView::DeleteTask(tasks[j].path@));
    }
}

proof fn lemma_plan_contains(
    m: TaskManifest,
    current: CurrentState,
    options: PlanOptions,
    p: Plan,
    x: (ChangeView, RollbackSafety),
    part: int,
)
    requires
        plan_outcome(m, current, options, Ok(p)),
        0 <= part < 2,
        part == 0 ==> (tasks_changes_spec(m, current, options, m.tasks@) matches Some(ts) && ts.contains(x)),
        part == 1 ==> options.prune && prune_changes(current.tasks@, desired_paths(m)).contains(x),
    ensures
        planned_views(p.changes@).contains(x),
{
    broadcast use vstd::seq_lib::group_to_multiset_ensures;

    let required = required_folder_set(m.namespace@, chain_sources(m));
    let rs = choose|rs: Seq<Seq<char>>| folders_increasing(rs) && rs.to_set() == required
        && (planned_changes_spec(m, current, options, rs) matches Some(cs) && planned_views(p.changes@) == in_apply_order(cs));
    let cs = planned_changes_spec(m, current, options, rs)->Some_0;
    lemma_apply_order(cs);
    let ts = tasks_changes_spec(m, current, options, m.tasks@)->Some_0;
    let a = create_changes(rs, current);
    let b = folder_security_changes(m.folders@, current);
    let pr = if options.prune { prune_changes(current.tasks@, desired_paths(m)) } else { Seq::empty() };
    assert(cs == a + ts + b + pr);
    if part == 0 {
        let i = choose|i: int| 0 <= i < ts.len() && ts[i] == x;
        assert(cs[a.len() + i] == x);
    } else {
        let i = choose|i: int| 0 <= i < pr.len() && pr[i] == x;
        assert(cs[a.len() + ts.len() + b.len() + i] == x);
    }
    assert(cs.contains(x));
    assert(cs.to_multiset().count(x) > 0);
    assert(planned_views(p.changes@).to_multiset().count(x) > 0);
}

/// Planning a valid manifest fails only with a conflict, and only when adoption
/// was not asked for and some desired task's path holds a current task without
/// the manifest's ownership marker.
pub proof fn lemma_conflict_has_unowned_collision(m: TaskManifest, current: CurrentState, options: PlanOptions, e: Error)
    requires
        manifest_valid(m),
        plan_outcome(m, current, options, Err(e)),
    ensures
        e@.kind == ErrorKind::Conflict,
        !options.adopt,
        exists|k: int| #![trigger m.tasks@[k]]
            0 <= k < m.tasks@.len() && last_task_index(current.tasks@, m.tasks@[k].path@) >= 0
            && !current.tasks@[last_task_index(current.tasks@, m.tasks@[k].path@)].owned,
{
    let required = required_folder_set(m.namespace@, chain_sources(m));
    let rs = choose|rs: Seq<Seq<char>>| folders_increasing(rs) && rs.to_set() == required
        && planned_changes_spec(m, current, options, rs) is None;
    assert(tasks_changes_spec(m, current, options, m.tasks@) is None);
    lemma_tasks_changes_none(m, current, options, m.tasks@);
    let k = choose|k: int| 0 <= k < m.tasks@.len() && #[trigger] task_changes_spec(m, current, options, m.tasks@[k]) is None;
    assert(task_changes_spec(m, current, options, m.tasks@[k]) is None);
}

/// Every change planned for a desired task is in the plan: creation when no
/// current task has its path, adoption of an unowned one, an update when an
/// owned one drifted, and otherwise the enabled-state and security changes
/// it needs.
pub proof fn lemma_plan_holds_task_changes(m: TaskManifest, current: CurrentState, options: PlanOptions, p: Plan, k: int)
    requires
        plan_outcome(m, current, options, Ok(p)),
        0 <= k < m.tasks@.len(),
    ensures
        task_changes_spec(m, current, options, m.tasks@[k]) matches Some(c) && forall|x: (ChangeView, RollbackSafety)|
            #[trigger] c.contains(x) ==> planned_views(p.changes@).contains(x),
{
    let required = required_folder_set(m.namespace@, chain_sources(m));
    let rs = choose|rs: Seq<Seq<char>>| folders_increasing(rs) && rs.to_set() == required
        && (planned_changes_spec(m, current, options, rs) matches Some(cs) && planned_views(p.changes@) == in_apply_order(cs));
    assert(tasks_changes_spec(m, current, options, m.tasks@) is Some);
    lemma_tasks_changes_some(m, current, options, m.tasks@, k);
    let c = task_changes_spec(m, current, options, m.tasks@[k])->Some_0;
    assert forall|x: (ChangeView, RollbackSafety)| #[trigger] c.contains(x) implies planned_views(p.changes@).contains(x) by {
        lemma_plan_contains(m, current, options, p, x, 0);
    }
}

/// With pruning, every current task that carries the manifest's ownership
/// marker and that the manifest no longer describes is deleted by the plan.
pub proof fn lemma_plan_prunes_owned_undesired(m: TaskManifest, current: CurrentState, options: PlanOptions, p: Plan, j: int)
    requires
        plan_outcome(m, current, options, Ok(p)),
        options.prune,
        0 <= j < current.tasks@.len(),
        current.tasks@[j].owned,
        !desired_paths(m).contains(current.tasks@[j].path@),
    ensures
        exists|i: int| 0 <= i < p.changes@.len() && (#[trigger] p.changes@[i]).change@ == ChangeView::DeleteTask(
            current.tasks@[j].path@,
        ),
{
    let pr = prune_changes(current.tasks@, desired_paths(m));
    lemma_prune_contains(current.tasks@, desired_paths(m), j);
    let i = choose|i: int| 0 <= i < pr.len() && (#[trigger] pr[i]).0 == ChangeView::DeleteTask(current.tasks@[j].path@);
    let x = pr[i];
    assert(pr.contains(x));
    lemma_plan_contains(m, current, options, p, x, 1);
    let views = planned_views(p.changes@);
    let n = choose|n: int| 0 <= n < views.len() && views[n] == x;
    assert(p.changes@[n].change@ == x.0);
}

/// Whether the current task at a desired task's path carries the
/// manifest's ownership marker and no longer matches the desired
/// definition.
pub open spec fn drifted(m: TaskManifest, current: CurrentState, d: ManagedTask) -> bool {
    let i = last_task_index(current.tasks@, d.path@);
    &&& i >= 0
    &&& current.tasks@[i].owned
    &&& !crate::model::compare::matches_owned_spec(
        current.tasks@[i].definition,
        d.definition,
        owned_source(
            crate::manifest::ownership_uri_text(m.owner, d.path@),
            crate::text::opt_view(d.definition.registration.source),
        ),
        d.path@,
    )
}

/// Whether no change in `s` updates a task.
pub open spec fn updates_nothing(s: Seq<(ChangeView, RollbackSafety)>) -> bool {
    forall|i: int| 0 <= i < s.len() ==> !((#[trigger] s[i]).0 is UpdateTask)
}

proof fn lemma_create_updates_nothing(required: Seq<Seq<char>>, current: CurrentState)
    ensures
        updates_nothing(create_changes(required, current)),
    decreases required.len(),
{
    if required.len() > 0 {
        lemma_create_updates_nothing(required.drop_last(), current);
    }
}

proof fn lemma_folder_security_updates_nothing(folders: Seq<ManagedFolder>, current: CurrentState)
    ensures
        updates_nothing(folder_security_changes(folders, current)),
    decreases folders.len(),
{
    if folders.len() > 0 {
        lemma_folder_security_updates_nothing(folders.drop_last(), current);
    }
}

proof fn lemma_prune_updates_nothing(tasks: Seq<CurrentTask>, desired: Seq<Seq<char>>)
    ensures
        updates_nothing(prune_changes(tasks, desired)),
    decreases tasks.len(),
{
    if tasks.len() > 0 {
        lemma_prune_updates_nothing(tasks.drop_last(), desired);
    }
}

proof fn lemma_task_update_drifted(m: TaskManifest, current: CurrentState, options: PlanOptions, d: ManagedTask, q: Seq<char>, i: int)
    requires
        task_changes_spec(m, current, options, d) matches Some(c) && 0 <= i < c.len() && c[i].0 == ChangeView::UpdateTask(q),
    ensures
        d.path@ == q,
        drifted(m, current, d),
{
    let p = d.path@;
    let k = last_task_index(current.tasks@, p);
    let c = task_changes_spec(m, current, options, d)->Some_0;
    if k >= 0 {
        let e = current.tasks@[k];
        if e.owned {
            let source = owned_source(
                crate::manifest::ownership_uri_text(m.owner, p),
                crate::text::opt_view(d.definition.registration.source),
            );
            if crate::model::compare::matches_owned_spec(e.definition, d.definition, source, p) {
                let enabled = if e.enabled != d.definition.settings.enabled {
                    seq![(ChangeView::SetEnabled(p, d.definition.settings.enabled), RollbackSafety::Reversible)]
                } else {
                    Seq::empty()
                };
                let ts = task_security_change(
                    d.definition.registration.security_descriptor,
                    e.definition.registration.security_descriptor,
                    p,
                );
                assert(c == enabled + ts);
                if i < enabled.len() {
                    assert(c[i] == enabled[i]);
                } else {
                    assert(c[i] == ts[i - enabled.len()]);
                }
            }
        }
    }
}

proof fn lemma_tasks_update_drifted(m: TaskManifest, current: CurrentState, options: PlanOptions, ds: Seq<ManagedTask>, q: Seq<char>, i: int)
    requires
        tasks_changes_spec(m, current, options, ds) matches Some(ts) && 0 <= i < ts.len() && ts[i].0 == ChangeView::UpdateTask(q),
    ensures
        exists|k: int| 0 <= k < ds.len() && (#[trigger] ds[k]).path@ == q && drifted(m, current, ds[k]),
    decreases ds.len(),
{
    let prev = tasks_changes_spec(m, current, options, ds.drop_last())->Some_0;
    let more = task_changes_spec(m, current, options, ds.last())->Some_0;
    let ts = tasks_changes_spec(m, current, options, ds)->Some_0;
    assert(ts == prev + more);
    if i < prev.len() {
        assert(ts[i] == prev[i]);
        lemma_tasks_update_drifted(m, current, options, ds.drop_last(), q, i);
        let k = choose|k: int| 0 <= k < ds.drop_last().len() && (#[trigger] ds.drop_last()[k]).path@ == q
            && drifted(m, current, ds.drop_last()[k]);
        assert(ds[k] == ds.drop_last()[k]);
    } else {
        assert(ts[i] == more[i - prev.len()]);
        lemma_task_update_drifted(m, current, options, ds.last(), q, i - prev.len());
        assert(ds[ds.len() - 1] == ds.last());
    }
}

/// A plan updates a task only when a desired task at that path finds its
/// current task owned and drifted from the desired definition: a task whose
/// desired definitions all match it, differing at most in its enabled state
/// or its security descriptor, is never updated.
pub proof fn lemma_plan_updates_only_drifted(m: TaskManifest, current: CurrentState, options: PlanOptions, p: Plan, n: int, q: Seq<char>)
    requires
        plan_outcome(m, current, options, Ok(p)),
        0 <= n < p.changes@.len(),
        p.changes@[n].change@ == ChangeView::UpdateTask(q),
    ensures
        exists|k: int| 0 <= k < m.tasks@.len() && (#[trigger] m.tasks@[k]).path@ == q && drifted(m, current, m.tasks@[k]),
{
    broadcast use vstd::seq_lib::group_to_multiset_ensures;

    let required = required_folder_set(m.namespace@, chain_sources(m));
    let rs = choose|rs: Seq<Seq<char>>| folders_increasing(rs) && rs.to_set() == required
        && (planned_changes_spec(m, current, options, rs) matches Some(cs) && planned_views(p.changes@) == in_apply_order(cs));
    let cs = planned_changes_spec(m, current, options, rs)->Some_0;
    lemma_apply_order(cs);
    let views = planned_views(p.changes@);
    let x = views[n];
    assert(x.0 == ChangeView::UpdateTask(q));
    assert(views.contains(x));
    assert(cs.to_multiset().count(x) > 0);
    assert(cs.contains(x));
    let j = choose|j: int| 0 <= j < cs.len() && cs[j] == x;
    let ts = tasks_changes_spec(m, current, options, m.tasks@)->Some_0;
    let a = create_changes(rs, current);
    let b = folder_security_changes(m.folders@, current);
    let pr = if options.prune { prune_changes(current.tasks@, desired_paths(m)) } else { Seq::empty() };
    assert(cs == a + ts + b + pr);
    lemma_create_updates_nothing(rs, current);
    lemma_folder_security_updates_nothing(m.folders@, current);
    lemma_prune_updates_nothing(current.tasks@, desired_paths(m));
    let ab = a + ts + b;
    if j < a.len() {
        assert(cs[j] == a[j]);
    } else if j < a.len() + ts.len() {
        assert(cs[j] == ts[j - a.len()]);
        lemma_tasks_update_drifted(m, current, options, m.tasks@, q, j - a.len());
    } else if j < ab.len() {
        assert(cs[j] == b[j - a.len() - ts.len()]);
    } else {
        assert(cs[j] == pr[j - ab.len()]);
    }
}

/// Planning a valid manifest fails exactly when adoption was not asked for
/// and some desired task's path holds a current task without the manifest's
/// ownership marker; the failure is then a conflict.
pub proof fn lemma_plan_conflict_iff(m: TaskManifest, current: CurrentState, options: PlanOptions, r: Result<Plan, Error>)
    requires
        manifest_valid(m),
        plan_outcome(m, current, options, r),
    ensures
        r is Err <==> (!options.adopt && exists|k: int| #![trigger m.tasks@[k]]
            0 <= k < m.tasks@.len() && last_task_index(current.tasks@, m.tasks@[k].path@) >= 0
            && !current.tasks@[last_task_index(current.tasks@, m.tasks@[k].path@)].owned),
        r matches Err(e) ==> e@.kind == ErrorKind::Conflict,
{
    match r {
        Err(e) => {
            lemma_conflict_has_unowned_collision(m, current, options, e);
        },
        Ok(_) => {
            if !options.adopt && exists|k: int| #![trigger m.tasks@[k]]
                0 <= k < m.tasks@.len() && last_task_index(current.tasks@, m.tasks@[k].path@) >= 0
                && !current.tasks@[last_task_index(current.tasks@, m.tasks@[k].path@)].owned {
                let k = choose|k: int| #![trigger m.tasks@[k]]
                    0 <= k < m.tasks@.len() && last_task_index(current.tasks@, m.tasks@[k].path@) >= 0
                    && !current.tasks@[last_task_index(current.tasks@, m.tasks@[k].path@)].owned;
                lemma_unowned_collision_is_conflict(m, current, options, r, k);
            }
        },
    }
}

/// A plan deletes a task exactly when pruning was asked for, the manifest no
/// longer describes the task, and a current task at that path carries the
/// manifest's ownership marker.
pub proof fn lemma_plan_delete_iff(m: TaskManifest, current: CurrentState, options: PlanOptions, p: Plan, path: Seq<char>)
    requires
        plan_outcome(m, current, options, Ok(p)),
    ensures
        (exists|n: int| 0 <= n < p.changes@.len() && (#[trigger] p.changes@[n]).change@ == ChangeView::DeleteTask(path))
            <==> (options.prune && !desired_paths(m).contains(path) && exists|j: int|
            0 <= j < current.tasks@.len() && (#[trigger] current.tasks@[j]).owned && current.tasks@[j].path@ == path),
{
    if exists|n: int| 0 <= n < p.changes@.len() && (#[trigger] p.changes@[n]).change@ == ChangeView::DeleteTask(path) {
        let n = choose|n: int| 0 <= n < p.changes@.len() && (#[trigger] p.changes@[n]).change@ == ChangeView::DeleteTask(path);
        lemma_plan_deletes_only_owned_undesired(m, current, options, p, n, path);
    }
    if options.prune && !desired_paths(m).contains(path) && exists|j: int|
        0 <= j < current.tasks@.len() && (#[trigger] current.tasks@[j]).owned && current.tasks@[j].path@ == path {
        let j = choose|j: int| 0 <= j < current.tasks@.len() && (#[trigger] current.tasks@[j]).owned && current.tasks@[j].path@ == path;
        lemma_plan_prunes_owned_undesired(m, current, options, p, j);
    }
}

/// What a plan holds for a desired task at `path`: creation when no current
/// task is there, adoption of an unowned one, an update when an owned one
/// drifted, and otherwise the enabled-state change when the enabled state
/// differs.
pub proof fn lemma_plan_change_for_desired(m: TaskManifest, current: CurrentState, options: PlanOptions, p: Plan, k: int)
    requires
        plan_outcome(m, current, options, Ok(p)),
        0 <= k < m.tasks@.len(),
    ensures
        ({
            let d = m.tasks@[k];
            let i = last_task_index(current.tasks@, d.path@);
            let views = planned_views(p.changes@);
            &&& i < 0 ==> views.contains((ChangeView::CreateTask(d.path@), RollbackSafety::Reversible))
            &&& i >= 0 && !current.tasks@[i].owned ==> options.adopt && views.contains(
                (ChangeView::AdoptTask(d.path@), rollback_safety_spec(current.tasks@[i])),
            )
            &&& drifted(m, current, d) ==> views.contains(
                (ChangeView::UpdateTask(d.path@), rollback_safety_spec(current.tasks@[i])),
            )
            &&& i >= 0 && current.tasks@[i].owned && !drifted(m, current, d) && current.tasks@[i].enabled
                != d.definition.settings.enabled ==> views.contains(
                (ChangeView::SetEnabled(d.path@, d.definition.settings.enabled), RollbackSafety::Reversible),
            )
        }),
{
    lemma_plan_holds_task_changes(m, current, options, p, k);
    let d = m.tasks@[k];
    let c = task_changes_spec(m, current, options, d)->Some_0;
    let i = last_task_index(current.tasks@, d.path@);
    if i >= 0 && current.tasks@[i].owned && !drifted(m, current, d) && current.tasks@[i].enabled != d.definition.settings.enabled {
        assert(c[0] == (ChangeView::SetEnabled(d.path@, d.definition.settings.enabled), RollbackSafety::Reversible));
        assert(c.contains(c[0]));
    } else if c.len() > 0 {
        assert(c.contains(c[0]));
    }
}

} // verus!
