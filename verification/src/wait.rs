//! Waiting for a task run to finish, as a state machine driven by the
//! caller's clock, history reads and running-instance reads. An exact result
//! comes only from history events of the requested instance; the registered
//! task's last result is used only when the caller allows that estimate.
use vstd::prelude::*;

use crate::client::{RunHandle, RunningTask, WaitOptions};
use crate::error::{context_insert, kind_name, kind_name_spec, Error, ErrorKind, ErrorView};
use crate::history::{
    FallbackReason, HistoryEvent, HistoryEventKind, HistoryQuery, ResultConfidence, RunOutcome,
};
use crate::manifest::{uuid_hyphenated, uuid_text};
use crate::path::TaskPath;

verus! {

/// What the history of one run showed so far.
#[derive(Clone, Copy, Debug)]
pub struct Correlation {
    /// Whether the instance completed.
    pub completed: bool,
    /// The latest action result: its record id and code.
    pub action: Option<(u64, i32)>,
    /// A terminal result code.
    pub terminal: Option<i32>,
}

impl Default for Correlation {
    fn default() -> (c: Self)
        ensures
            c == (Correlation { completed: false, action: None, terminal: None }),
    {
        Correlation { completed: false, action: None, terminal: None }
    }
}

/// The result code that stopping an instance reports when the event has none.
pub const STOPPED_RESULT: i32 = 267014;

/// Whether an event belongs to the run: same instance GUID and same task.
pub open spec fn matches_run(e: HistoryEvent, h: RunHandle) -> bool {
    e.instance_id == Some(h.instance_id) && match e.task_path {
        Some(p) => p@ == h.path@,
        None => false,
    }
}

/// `a` when present, else `b`.
pub open spec fn or_else(a: Option<i32>, b: Option<i32>) -> Option<i32> {
    match a {
        Some(x) => Some(x),
        None => b,
    }
}

/// What one event adds to a correlation. Events of other runs change
/// nothing. Completion marks the run completed with its result, when it has
/// one; a stop is terminal, with the stop code when the event has none;
/// launch and action failures are terminal with their result; an action
/// completion with a result is kept when it is the latest record so far.
pub open spec fn ingest_event(c: Correlation, h: RunHandle, e: HistoryEvent) -> Correlation {
    if !matches_run(e, h) {
        c
    } else {
        match e.kind {
            HistoryEventKind::Completed => Correlation { completed: true, terminal: or_else(e.result_code, c.terminal), ..c },
            HistoryEventKind::Stopped => Correlation {
                terminal: Some(
                    match e.result_code {
                        Some(r) => r,
                        None => STOPPED_RESULT,
                    },
                ),
                ..c
            },
            HistoryEventKind::Failed => if e.event_id == 101 || e.event_id == 103 || e.event_id == 104 || e.event_id == 311 {
                Correlation { terminal: or_else(e.result_code, c.terminal), ..c }
            } else {
                c
            },
            HistoryEventKind::ActionCompleted => match e.result_code {
                Some(code) => if (match c.action {
                    None => true,
                    Some((record, _)) => e.record_id > record,
                }) {
                    Correlation { action: Some((e.record_id, code)), ..c }
                } else {
                    c
                },
                None => c,
            },
            _ => c,
        }
    }
}

/// A correlation after events in order.
pub open spec fn ingest_all(c: Correlation, h: RunHandle, es: Seq<HistoryEvent>) -> Correlation
    decreases es.len(),
{
    if es.len() == 0 {
        c
    } else {
        ingest_event(ingest_all(c, h, es.drop_last()), h, es.last())
    }
}

/// The run's result, once known: the terminal result, or after completion
/// the latest action result.
pub open spec fn correlated_result(c: Correlation) -> Option<i32> {
    match c.terminal {
        Some(t) => Some(t),
        None => if c.completed {
            match c.action {
                Some((_, code)) => Some(code),
                None => None,
            }
        } else {
            None
        },
    }
}

impl Correlation {
    /// Adds events, in order, and returns the run's result once known.
    pub fn ingest(&mut self, handle: &RunHandle, events: Vec<HistoryEvent>) -> (r: Option<i32>)
        ensures
            *final(self) == ingest_all(*old(self), *handle, events@),
            r == correlated_result(*final(self)),
    {
        let ghost start = *self;
        let mut i: usize = 0;
        while i < events.len()
            invariant
                i <= events@.len(),
                *self == ingest_all(start, *handle, events@.take(i as int)),
            decreases events@.len() - i,
        {
            let e = &events[i];
            proof {
                assert(events@.take(i + 1).drop_last() =~= events@.take(i as int));
                assert(events@.take(i + 1).last() == *e);
            }
            let matching = match (&e.instance_id, &e.task_path) {
                (Some(id), Some(p)) => *id == handle.instance_id && p.same(&handle.path),
                _ => false,
            };
            if matching {
                match e.kind {
                    HistoryEventKind::Completed => {
                        self.completed = true;
                        if e.result_code.is_some() {
                            self.terminal = e.result_code;
                        }
                    },
                    HistoryEventKind::Stopped => {
                        self.terminal = Some(
                            match e.result_code {
                                Some(r) => r,
                                None => STOPPED_RESULT,
                            },
                        );
                    },
                    HistoryEventKind::Failed => {
                        if (e.event_id == 101 || e.event_id == 103 || e.event_id == 104 || e.event_id == 311)
                            && e.result_code.is_some() {
                            self.terminal = e.result_code;
                        }
                    },
                    HistoryEventKind::ActionCompleted => {
                        if let Some(code) = e.result_code {
                            let later = match self.action {
                                None => true,
                                Some((record, _)) => e.record_id > record,
                            };
                            if later {
                                self.action = Some((e.record_id, code));
                            }
                        }
                    },
                    _ => {},
                }
            }
            i += 1;
        }
        proof {
            assert(events@.take(i as int) =~= events@);
        }
        match self.terminal {
            Some(t) => Some(t),
            None => if self.completed {
                match self.action {
                    Some((_, code)) => Some(code),
                    None => None,
                }
            } else {
                None
            },
        }
    }
}

/// Events of other runs never change a correlation: ingesting all events
/// gives what ingesting only the run's own events gives.
pub proof fn lemma_other_runs_are_ignored(c: Correlation, h: RunHandle, es: Seq<HistoryEvent>)
    ensures
        ingest_all(c, h, es) == ingest_all(c, h, es.filter(|e: HistoryEvent| matches_run(e, h))),
    decreases es.len(),
{
    reveal_with_fuel(Seq::filter, 1);
    if es.len() > 0 {
        lemma_other_runs_are_ignored(c, h, es.drop_last());
        let f = |e: HistoryEvent| matches_run(e, h);
        assert(es.filter(f) == if f(es.last()) {
            es.drop_last().filter(f).push(es.last())
        } else {
            es.drop_last().filter(f)
        });
        if f(es.last()) {
            assert(es.filter(f).drop_last() =~= es.drop_last().filter(f));
        }
    }
}

/// Where a run wait stands.
#[derive(Clone, Copy, Debug, Eq, PartialEq, Structural)]
pub enum WaitStage {
    /// Waiting for the cancellation flag and the clock.
    Probing,
    /// Waiting for the history read.
    ReadingHistory,
    /// Waiting for the running instances and the clock.
    ListingRunning,
    /// Waiting for the task's last result.
    ReadingLastResult,
    /// The wait is over.
    Done,
}

/// What the caller does next for a run wait.
pub enum WaitAction {
    /// Read the cancellation flag and the elapsed time.
    Probe,
    /// Read history with this query.
    ReadHistory(HistoryQuery),
    /// List the running instances, then read the elapsed time.
    ListRunning,
    /// Read the registered task's last result.
    ReadLastResult(TaskPath),
    /// Sleep this many nanoseconds, then probe.
    Sleep(u128),
    /// The wait is over: take its outcome with `finish`.
    Finish,
}

/// What the caller answers after an action.
pub enum WaitEvent {
    /// Whether the wait was cancelled, and the nanoseconds elapsed since it began.
    Probed(bool, u128),
    /// History events, newest first, or why they could not be read.
    History(Result<Vec<HistoryEvent>, Error>),
    /// The running instances, or why they could not be listed, and the
    /// nanoseconds elapsed after listing them.
    Running(Result<Vec<RunningTask>, Error>, u128),
    /// The registered task's last result.
    LastResult(Result<i32, Error>),
}

/// A wait action with its query taken as plain values.
pub enum WaitActionView {
    /// Probe.
    Probe,
    /// Read history for the task and instance, at most this many events, newest first.
    ReadHistory(Option<Seq<char>>, Option<u128>, Option<i128>, Option<usize>, bool),
    /// List running instances.
    ListRunning,
    /// Read the last result of the task.
    ReadLastResult(Seq<char>),
    /// Sleep.
    Sleep(u128),
    /// Finish.
    Finish,
}

impl View for WaitAction {
    type V = WaitActionView;

    open spec fn view(&self) -> WaitActionView {
        match self {
            WaitAction::Probe => WaitActionView::Probe,
            WaitAction::ReadHistory(q) => WaitActionView::ReadHistory(
                match q.task {
                    Some(t) => Some(t@),
                    None => None,
                },
                q.instance_id,
                q.since,
                q.limit,
                q.forward,
            ),
            WaitAction::ListRunning => WaitActionView::ListRunning,
            WaitAction::ReadLastResult(p) => WaitActionView::ReadLastResult(p@),
            WaitAction::Sleep(n) => WaitActionView::Sleep(*n),
            WaitAction::Finish => WaitActionView::Finish,
        }
    }
}

/// A wait event with its errors taken by their views.
pub enum WaitEventView {
    /// Cancellation flag and elapsed nanoseconds.
    Probed(bool, u128),
    /// History events or the error.
    History(Result<Seq<HistoryEvent>, ErrorView>),
    /// Running instances or the error, and elapsed nanoseconds.
    Running(Result<Seq<RunningTask>, ErrorView>, u128),
    /// Last result or the error.
    LastResult(Result<i32, ErrorView>),
}

impl View for WaitEvent {
    type V = WaitEventView;

    open spec fn view(&self) -> WaitEventView {
        match self {
            WaitEvent::Probed(c, e) => WaitEventView::Probed(*c, *e),
            WaitEvent::History(r) => WaitEventView::History(
                match r {
                    Ok(v) => Ok(v@),
                    Err(e) => Err(e@),
                },
            ),
            WaitEvent::Running(r, t) => WaitEventView::Running(
                match r {
                    Ok(v) => Ok(v@),
                    Err(e) => Err(e@),
                },
                *t,
            ),
            WaitEvent::LastResult(r) => WaitEventView::LastResult(
                match r {
                    Ok(v) => Ok(*v),
                    Err(e) => Err(e@),
                },
            ),
        }
    }
}

/// The state of a run wait.
pub struct RunWaitView {
    /// Where the wait stands.
    pub stage: WaitStage,
    /// The run.
    pub handle: RunHandle,
    /// Overall limit, in nanoseconds.
    pub timeout: u128,
    /// Interval between probes, in nanoseconds.
    pub poll: u128,
    /// Grace for delayed history after an instance vanishes, in nanoseconds.
    pub grace: u128,
    /// Whether the last-result estimate is allowed.
    pub allow_fallback: bool,
    /// Unix seconds when the wait began.
    pub started_at: u64,
    /// The kind of the history error, once history could not be read.
    pub history_error: Option<ErrorKind>,
    /// Whether history was read.
    pub history_read: bool,
    /// Whether running instances were listed.
    pub running_read: bool,
    /// Whether the instance was ever seen running.
    pub observed_running: bool,
    /// Whether it was running at the last listing.
    pub last_running: bool,
    /// Elapsed nanoseconds when it was first seen absent since it last ran.
    pub absent_since: Option<u128>,
    /// What history showed.
    pub correlation: Correlation,
    /// The outcome, once the wait is over.
    pub outcome: Option<Result<RunOutcome, ErrorView>>,
}

/// The text of an instance GUID.
pub open spec fn instance_text(h: RunHandle) -> Seq<char> {
    uuid_text(h.instance_id as nat)
}

/// An error with a kind, message and target and nothing else.
pub open spec fn targeted_error(kind: ErrorKind, message: Seq<char>, target: Seq<char>) -> ErrorView {
    ErrorView {
        kind,
        message,
        operation: None,
        target: Some(target),
        native_code: None,
        diagnostics: Seq::empty(),
        context: Seq::empty(),
    }
}

/// The text of a boolean.
pub open spec fn bool_text(b: bool) -> Seq<char> {
    if b { "true"@ } else { "false"@ }
}

/// The error when the wait runs out of time: when it began, whether the
/// instance was seen running and was running at the last listing, and what
/// history showed.
pub open spec fn timeout_error(v: RunWaitView) -> ErrorView {
    let base = targeted_error(ErrorKind::Timeout, "task run wait elapsed; exact completion is unconfirmed"@, instance_text(v.handle));
    let c1 = context_insert(base.context, "wait_started_unix_seconds"@, crate::text::decimal(v.started_at as nat));
    let c2 = context_insert(c1, "observed_running"@, bool_text(v.observed_running));
    let c3 = context_insert(c2, "last_running"@, if v.running_read { bool_text(v.last_running) } else { "not_probed"@ });
    let c4 = context_insert(
        c3,
        "history"@,
        match v.history_error {
            Some(k) => kind_name_spec(k),
            None => if v.history_read { "readable_no_completion"@ } else { "not_probed"@ },
        },
    );
    ErrorView { context: c4, ..base }
}

/// The history query of a wait: the run's task and instance, the 256 newest events.
pub open spec fn history_query(v: RunWaitView) -> WaitActionView {
    WaitActionView::ReadHistory(Some(v.handle.path@), Some(v.handle.instance_id), None, Some(256), false)
}

/// A finished wait.
pub open spec fn done(v: RunWaitView, outcome: Result<RunOutcome, ErrorView>) -> (RunWaitView, WaitActionView) {
    (RunWaitView { stage: WaitStage::Done, outcome: Some(outcome), ..v }, WaitActionView::Finish)
}

/// The lesser of two values.
pub open spec fn min_u128(a: u128, b: u128) -> u128 {
    if a <= b { a } else { b }
}

/// One nanosecond short of a second and more: the longest single sleep.
pub open spec fn max_sleep() -> u128 {
    1_000_000_000
}

/// One step of a wait: what the answer to the last action changes, and what
/// to do next.
pub open spec fn wait_step(v: RunWaitView, e: WaitEventView) -> (RunWaitView, WaitActionView) {
    match (v.stage, e) {
        (WaitStage::Probing, WaitEventView::Probed(cancelled, elapsed)) => if cancelled {
            done(v, Err(targeted_error(ErrorKind::Cancelled, "run wait was cancelled"@, instance_text(v.handle))))
        } else if elapsed >= v.timeout {
            done(v, Err(timeout_error(v)))
        } else if v.history_error is None {
            (RunWaitView { stage: WaitStage::ReadingHistory, ..v }, history_query(v))
        } else {
            (RunWaitView { stage: WaitStage::ListingRunning, ..v }, WaitActionView::ListRunning)
        },
        (WaitStage::ReadingHistory, WaitEventView::History(r)) => match r {
            Ok(events) => {
                let c = ingest_all(v.correlation, v.handle, events);
                let v1 = RunWaitView { history_read: true, correlation: c, ..v };
                match correlated_result(c) {
                    Some(code) => done(
                        v1,
                        Ok(RunOutcome {
                            instance_id: v.handle.instance_id,
                            result_code: code,
                            confidence: ResultConfidence::Exact,
                            fallback_reason: None,
                        }),
                    ),
                    None => (RunWaitView { stage: WaitStage::ListingRunning, ..v1 }, WaitActionView::ListRunning),
                }
            },
            Err(err) => if v.allow_fallback {
                (
                    RunWaitView { stage: WaitStage::ListingRunning, history_error: Some(err.kind), ..v },
                    WaitActionView::ListRunning,
                )
            } else {
                done(v, Err(ErrorView { context: context_insert(err.context, "completion"@, "unconfirmed"@), ..err }))
            },
        },
        (WaitStage::ListingRunning, WaitEventView::Running(r, elapsed)) => match r {
            Err(err) => done(v, Err(err)),
            Ok(running) => {
                let present = exists|k: int| 0 <= k < running.len() && (#[trigger] running[k]).instance_id == v.handle.instance_id;
                let v1 = RunWaitView {
                    running_read: true,
                    last_running: present,
                    observed_running: v.observed_running || present,
                    absent_since: if present {
                        None
                    } else {
                        match v.absent_since {
                            Some(t) => Some(t),
                            None => Some(elapsed),
                        }
                    },
                    ..v
                };
                let fallback = v.allow_fallback && match v1.absent_since {
                    Some(since) => (if elapsed >= since { elapsed - since } else { 0 }) >= v.grace && (v1.observed_running
                        || elapsed >= v.grace),
                    None => false,
                };
                if fallback {
                    (RunWaitView { stage: WaitStage::ReadingLastResult, ..v1 }, WaitActionView::ReadLastResult(v.handle.path@))
                } else {
                    let remaining = if v.timeout >= elapsed { (v.timeout - elapsed) as u128 } else { 0 };
                    (
                        RunWaitView { stage: WaitStage::Probing, ..v1 },
                        WaitActionView::Sleep(min_u128(min_u128(v.poll, remaining), max_sleep())),
                    )
                }
            },
        },
        (WaitStage::ReadingLastResult, WaitEventView::LastResult(r)) => match r {
            Err(err) => done(v, Err(err)),
            Ok(code) => done(
                v,
                Ok(RunOutcome {
                    instance_id: v.handle.instance_id,
                    result_code: code,
                    confidence: ResultConfidence::PollingFallback,
                    fallback_reason: Some(
                        if v.history_error is Some {
                            FallbackReason::HistoryUnavailable
                        } else {
                            FallbackReason::CompletionNotObserved
                        },
                    ),
                }),
            ),
        },
        _ => (v, WaitActionView::Finish),
    }
}

/// Whether the wait expects this kind of answer.
pub open spec fn wait_awaits(v: RunWaitView, e: WaitEventView) -> bool {
    match v.stage {
        WaitStage::Probing => e is Probed,
        WaitStage::ReadingHistory => e is History,
        WaitStage::ListingRunning => e is Running,
        WaitStage::ReadingLastResult => e is LastResult,
        WaitStage::Done => false,
    }
}

/// The invariant of a wait: a finished wait holds its outcome, an
/// unfinished one none; the last result is read only when the estimate is
/// allowed; history is not read again after it failed.
pub open spec fn wait_wf(v: RunWaitView) -> bool {
    &&& (v.stage == WaitStage::Done) == (v.outcome is Some)
    &&& v.stage == WaitStage::ReadingLastResult ==> v.allow_fallback
    &&& v.stage == WaitStage::ReadingHistory ==> v.history_error is None
    &&& v.history_error is Some ==> v.allow_fallback
    &&& v.poll > 0
    &&& (v.outcome matches Some(Ok(o)) ==> o.instance_id == v.handle.instance_id
        && (o.confidence == ResultConfidence::PollingFallback ==> v.allow_fallback))
}

/// Every step keeps the invariant of a wait; in particular a result is only
/// ever estimated from the last result when the caller allowed it, and every
/// result names the awaited instance.
pub proof fn lemma_wait_step_keeps_wf(v: RunWaitView, e: WaitEventView)
    requires
        wait_wf(v),
        wait_awaits(v, e),
    ensures
        wait_wf(wait_step(v, e).0),
{
}

/// A cancelled probe ends the wait with a cancellation naming the instance,
/// before any history or running-instance read.
pub proof fn lemma_cancellation_stops_probing(v: RunWaitView, elapsed: u128)
    requires
        v.stage == WaitStage::Probing,
    ensures
        wait_step(v, WaitEventView::Probed(true, elapsed)).1 == WaitActionView::Finish,
        wait_step(v, WaitEventView::Probed(true, elapsed)).0.outcome == Some(
            Err::<RunOutcome, ErrorView>(targeted_error(ErrorKind::Cancelled, "run wait was cancelled"@, instance_text(v.handle))),
        ),
{
}


/// A wait for a task run in progress.
pub struct RunWait {
    stage: WaitStage,
    handle: RunHandle,
    timeout: u128,
    poll: u128,
    grace: u128,
    allow_fallback: bool,
    started_at: u64,
    history_error: Option<ErrorKind>,
    history_read: bool,
    running_read: bool,
    observed_running: bool,
    last_running: bool,
    absent_since: Option<u128>,
    correlation: Correlation,
    outcome: Option<Result<RunOutcome, Error>>,
}

/// The view of an optional outcome.
pub open spec fn outcome_view(o: Option<Result<RunOutcome, Error>>) -> Option<Result<RunOutcome, ErrorView>> {
    match o {
        Some(Ok(x)) => Some(Ok(x)),
        Some(Err(e)) => Some(Err(e@)),
        None => None,
    }
}

impl View for RunWait {
    type V = RunWaitView;

    closed spec fn view(&self) -> RunWaitView {
        RunWaitView {
            stage: self.stage,
            handle: self.handle,
            timeout: self.timeout,
            poll: self.poll,
            grace: self.grace,
            allow_fallback: self.allow_fallback,
            started_at: self.started_at,
            history_error: self.history_error,
            history_read: self.history_read,
            running_read: self.running_read,
            observed_running: self.observed_running,
            last_running: self.last_running,
            absent_since: self.absent_since,
            correlation: self.correlation,
            outcome: outcome_view(self.outcome),
        }
    }
}

/// The length of a standard duration in nanoseconds.
pub open spec fn std_nanos(d: std::time::Duration) -> int {
    crate::model::time::whole_seconds(d) * 1_000_000_000 + crate::model::time::subsec_part(d)
}

/// The length of a standard duration in nanoseconds.
fn duration_nanos(d: &std::time::Duration) -> (n: u128)
    ensures
        n == crate::model::time::whole_seconds(*d) * 1_000_000_000 + crate::model::time::subsec_part(*d),
{
    let secs = crate::model::time::std_duration_secs(d);
    let nanos = crate::model::time::std_duration_subsec_nanos(d);
    (secs as u128) * 1_000_000_000 + (nanos as u128)
}

fn targeted(kind: ErrorKind, message: &str, target: &str) -> (e: Error)
    ensures
        e@ == targeted_error(kind, message@, target@),
{
    let e = Error::new(kind, message).with_target(target);
    proof {
        assert(e@.diagnostics =~= Seq::empty());
        assert(e@.context =~= Seq::empty());
    }
    e
}

fn bool_string(b: bool) -> (s: &'static str)
    ensures
        s@ == bool_text(b),
{
    if b {
        "true"
    } else {
        "false"
    }
}

impl RunWait {
    /// The invariant of a wait.
    pub closed spec fn wf(&self) -> bool {
        wait_wf(self@)
    }

    /// Where the wait stands.
    pub fn stage(&self) -> (s: WaitStage)
        ensures
            s == self@.stage,
    {
        self.stage
    }

    /// Starts waiting for a run that began at `started_at` Unix seconds:
    /// the first action probes the cancellation flag and the clock. A zero
    /// poll interval is refused before anything is probed.
    pub fn start(handle: RunHandle, options: WaitOptions, started_at: u64) -> (r: Result<(RunWait, WaitAction), Error>)
        ensures
            match r {
                Ok((w, a)) => w.wf() && a@ == WaitActionView::Probe && w@.stage == WaitStage::Probing
                    && w@.handle == handle && w@.allow_fallback == options.allow_polling_fallback
                    && w@.started_at == started_at && w@.history_error is None && !w@.history_read
                    && !w@.running_read && !w@.observed_running && !w@.last_running && w@.absent_since is None
                    && w@.correlation == (Correlation { completed: false, action: None, terminal: None })
                    && w@.timeout == std_nanos(options.timeout) && w@.poll == std_nanos(options.poll_interval)
                    && w@.grace == std_nanos(options.history_grace),
                Err(e) => std_nanos(options.poll_interval) == 0
                    && e@ == crate::reconcile::engine::fresh_error(ErrorKind::InvalidDefinition, "run wait poll interval must be non-zero"@),
            },
    {
        let poll = duration_nanos(&options.poll_interval);
        if poll == 0 {
            let e = Error::new(ErrorKind::InvalidDefinition, "run wait poll interval must be non-zero");
            proof {
                assert(e@.diagnostics =~= Seq::empty());
                assert(e@.context =~= Seq::empty());
            }
            return Err(e);
        }
        let w = RunWait {
            stage: WaitStage::Probing,
            handle,
            timeout: duration_nanos(&options.timeout),
            poll,
            grace: duration_nanos(&options.history_grace),
            allow_fallback: options.allow_polling_fallback,
            started_at,
            history_error: None,
            history_read: false,
            running_read: false,
            observed_running: false,
            last_running: false,
            absent_since: None,
            correlation: Correlation::default(),
            outcome: None,
        };
        Ok((w, WaitAction::Probe))
    }

    fn finish_with(&mut self, outcome: Result<RunOutcome, Error>) -> (a: WaitAction)
        ensures
            (final(self)@, a@) == done(old(self)@, match outcome {
                Ok(x) => Ok(x),
                Err(e) => Err(e@),
            }),
    {
        self.stage = WaitStage::Done;
        self.outcome = Some(outcome);
        WaitAction::Finish
    }

    fn timeout_exec(&self) -> (e: Error)
        ensures
            e@ == timeout_error(self@),
    {
        let id = uuid_hyphenated(self.handle.instance_id);
        let started = crate::text::u64_to_string(self.started_at);
        let last = if self.running_read {
            bool_string(self.last_running).to_owned()
        } else {
            "not_probed".to_owned()
        };
        let history = match self.history_error {
            Some(k) => kind_name(k),
            None => if self.history_read {
                "readable_no_completion".to_owned()
            } else {
                "not_probed".to_owned()
            },
        };
        let base = targeted(ErrorKind::Timeout, "task run wait elapsed; exact completion is unconfirmed", id.as_str());
        base.with_context("wait_started_unix_seconds", started.as_str()).with_context(
            "observed_running",
            bool_string(self.observed_running),
        ).with_context("last_running", last.as_str()).with_context("history", history.as_str())
    }

    /// Whether the wait waits for this kind of answer.
    pub fn awaits_event(&self, event: &WaitEvent) -> (r: bool)
        ensures
            r == wait_awaits(self@, event@),
    {
        match self.stage {
            WaitStage::Probing => matches!(event, WaitEvent::Probed(_, _)),
            WaitStage::ReadingHistory => matches!(event, WaitEvent::History(_)),
            WaitStage::ListingRunning => matches!(event, WaitEvent::Running(_, _)),
            WaitStage::ReadingLastResult => matches!(event, WaitEvent::LastResult(_)),
            WaitStage::Done => false,
        }
    }

    /// Takes the answer to the last action and returns the next action.
    pub fn step(&mut self, event: WaitEvent) -> (a: WaitAction)
        requires
            old(self).wf(),
            wait_awaits(old(self)@, event@),
        ensures
            final(self).wf(),
            (final(self)@, a@) == wait_step(old(self)@, event@),
    {
        proof {
            lemma_wait_step_keeps_wf(self@, event@);
        }
        match (self.stage, event) {
            (WaitStage::Probing, WaitEvent::Probed(cancelled, elapsed)) => {
                if cancelled {
                    let id = uuid_hyphenated(self.handle.instance_id);
                    let e = targeted(ErrorKind::Cancelled, "run wait was cancelled", id.as_str());
                    self.finish_with(Err(e))
                } else if elapsed >= self.timeout {
                    let e = self.timeout_exec();
                    self.finish_with(Err(e))
                } else if self.history_error.is_none() {
                    self.stage = WaitStage::ReadingHistory;
                    WaitAction::ReadHistory(HistoryQuery {
                        task: Some(self.handle.path.clone()),
                        instance_id: Some(self.handle.instance_id),
                        since: None,
                        limit: Some(256),
                        forward: false,
                    })
                } else {
                    self.stage = WaitStage::ListingRunning;
                    WaitAction::ListRunning
                }
            },
            (WaitStage::ReadingHistory, WaitEvent::History(r)) => match r {
                Ok(events) => {
                    let result = self.correlation.ingest(&self.handle, events);
                    self.history_read = true;
                    match result {
                        Some(code) => {
                            let outcome = RunOutcome {
                                instance_id: self.handle.instance_id,
                                result_code: code,
                                confidence: ResultConfidence::Exact,
                                fallback_reason: None,
                            };
                            self.finish_with(Ok(outcome))
                        },
                        None => {
                            self.stage = WaitStage::ListingRunning;
                            WaitAction::ListRunning
                        },
                    }
                },
                Err(e) => {
                    if self.allow_fallback {
                        self.history_error = Some(e.kind());
                        self.stage = WaitStage::ListingRunning;
                        WaitAction::ListRunning
                    } else {
                        let e = e.with_context("completion", "unconfirmed");
                        self.finish_with(Err(e))
                    }
                },
            },
            (WaitStage::ListingRunning, WaitEvent::Running(r, elapsed)) => match r {
                Err(e) => self.finish_with(Err(e)),
                Ok(running) => {
                    let mut present = false;
                    let mut k: usize = 0;
                    while k < running.len()
                        invariant
                            k <= running@.len(),
                            present == exists|t: int| 0 <= t < k && (#[trigger] running@[t]).instance_id == self.handle.instance_id,
                        decreases running@.len() - k,
                    {
                        if running[k].instance_id == self.handle.instance_id {
                            present = true;
                        }
                        k += 1;
                    }
                    self.running_read = true;
                    self.last_running = present;
                    if present {
                        self.observed_running = true;
                        self.absent_since = None;
                    } else if self.absent_since.is_none() {
                        self.absent_since = Some(elapsed);
                    }
                    let fallback = self.allow_fallback && match self.absent_since {
                        Some(since) => {
                            let waited = if elapsed >= since {
                                elapsed - since
                            } else {
                                0
                            };
                            waited >= self.grace && (self.observed_running || elapsed >= self.grace)
                        },
                        None => false,
                    };
                    if fallback {
                        self.stage = WaitStage::ReadingLastResult;
                        WaitAction::ReadLastResult(self.handle.path.clone())
                    } else {
                        let remaining = if self.timeout >= elapsed {
                            self.timeout - elapsed
                        } else {
                            0
                        };
                        let mut nap = if self.poll <= remaining {
                            self.poll
                        } else {
                            remaining
                        };
                        if nap > 1_000_000_000 {
                            nap = 1_000_000_000;
                        }
                        self.stage = WaitStage::Probing;
                        WaitAction::Sleep(nap)
                    }
                },
            },
            (WaitStage::ReadingLastResult, WaitEvent::LastResult(r)) => match r {
                Err(e) => self.finish_with(Err(e)),
                Ok(code) => {
                    let reason = if self.history_error.is_some() {
                        FallbackReason::HistoryUnavailable
                    } else {
                        FallbackReason::CompletionNotObserved
                    };
                    let outcome = RunOutcome {
                        instance_id: self.handle.instance_id,
                        result_code: code,
                        confidence: ResultConfidence::PollingFallback,
                        fallback_reason: Some(reason),
                    };
                    self.finish_with(Ok(outcome))
                },
            },
            _ => {
                proof {
                    assert(false);
                }
                WaitAction::Finish
            },
        }
    }

    /// The outcome of a finished wait.
    pub fn finish(self) -> (r: Result<RunOutcome, Error>)
        requires
            self.wf(),
            self@.stage == WaitStage::Done,
        ensures
            Some(match r {
                Ok(x) => Ok::<RunOutcome, ErrorView>(x),
                Err(e) => Err(e@),
            }) == self@.outcome,
    {
        match self.outcome {
            Some(o) => o,
            None => {
                proof {
                    assert(false);
                }
                Err(Error::new(ErrorKind::Other, "run wait is not finished"))
            },
        }
    }
}
// ---------------------------------------------------------------------------
// What an event of the run does to its result
// ---------------------------------------------------------------------------

/// Whether an event carries the run's instance id and task path.
pub open spec fn of_run(e: HistoryEvent, h: RunHandle) -> bool {
    &&& e.instance_id == Some(h.instance_id)
    &&& e.task_path matches Some(p) && p@ == h.path@
}

/// A launch or action failure of the run (event 101, 103, 104 or 311) with
/// a result code is the run's result, whatever came before it.
pub proof fn lemma_failure_is_the_result(c: Correlation, h: RunHandle, before: Seq<HistoryEvent>, e: HistoryEvent, r: i32)
    requires
        of_run(e, h),
        e.kind == HistoryEventKind::Failed,
        e.event_id == 101 || e.event_id == 103 || e.event_id == 104 || e.event_id == 311,
        e.result_code == Some(r),
    ensures
        correlated_result(ingest_all(c, h, before.push(e))) == Some(r),
{
    assert(before.push(e).drop_last() =~= before);
}

/// A completion of the run with a result code is the run's result,
/// whatever came before it.
pub proof fn lemma_completion_is_the_result(c: Correlation, h: RunHandle, before: Seq<HistoryEvent>, e: HistoryEvent, r: i32)
    requires
        of_run(e, h),
        e.kind == HistoryEventKind::Completed,
        e.result_code == Some(r),
    ensures
        correlated_result(ingest_all(c, h, before.push(e))) == Some(r),
{
    assert(before.push(e).drop_last() =~= before);
}

/// A stop of the run is the run's result: its code, or 267014
/// (`SCHED_S_TASK_TERMINATED`) when it has none.
pub proof fn lemma_stop_is_the_result(c: Correlation, h: RunHandle, before: Seq<HistoryEvent>, e: HistoryEvent)
    requires
        of_run(e, h),
        e.kind == HistoryEventKind::Stopped,
    ensures
        correlated_result(ingest_all(c, h, before.push(e))) == Some(
            match e.result_code {
                Some(r) => r,
                None => 267014i32,
            },
        ),
{
    assert(before.push(e).drop_last() =~= before);
}

/// Until the run completes, an action's result alone is no result; after a
/// completion without a code, the latest action result is.
pub proof fn lemma_action_result_needs_completion(h: RunHandle, e: HistoryEvent, r: i32)
    requires
        of_run(e, h),
        e.kind == HistoryEventKind::ActionCompleted,
        e.result_code == Some(r),
    ensures
        correlated_result(ingest_all(Correlation { completed: false, action: None, terminal: None }, h, seq![e]))
            is None,
{
    let start = Correlation { completed: false, action: None, terminal: None };
    assert(seq![e].drop_last() =~= Seq::<HistoryEvent>::empty());
    assert(ingest_all(start, h, Seq::<HistoryEvent>::empty()) == start);
    assert(seq![e].last() == e);
}

/// Events of another instance or another task change nothing.
pub proof fn lemma_other_runs_ignored(c: Correlation, h: RunHandle, e: HistoryEvent)
    requires
        !of_run(e, h),
    ensures
        ingest_event(c, h, e) == c,
{
}

/// Ingesting events in two batches is ingesting them all at once.
pub proof fn lemma_ingest_batches(c: Correlation, h: RunHandle, a: Seq<HistoryEvent>, b: Seq<HistoryEvent>)
    ensures
        ingest_all(ingest_all(c, h, a), h, b) == ingest_all(c, h, a + b),
    decreases b.len(),
{
    if b.len() == 0 {
        assert(a + b =~= a);
    } else {
        lemma_ingest_batches(c, h, a, b.drop_last());
        assert((a + b).drop_last() =~= a + b.drop_last());
        assert((a + b).last() == b.last());
    }
}

/// After the run completes without a code, its result is that of the
/// action completion with the greater record id.
pub proof fn lemma_latest_action_is_the_result(
    h: RunHandle,
    e1: HistoryEvent,
    e2: HistoryEvent,
    done: HistoryEvent,
    r1: i32,
    r2: i32,
)
    requires
        of_run(e1, h),
        of_run(e2, h),
        of_run(done, h),
        e1.kind == HistoryEventKind::ActionCompleted,
        e2.kind == HistoryEventKind::ActionCompleted,
        e1.result_code == Some(r1),
        e2.result_code == Some(r2),
        done.kind == HistoryEventKind::Completed,
        done.result_code is None,
    ensures
        correlated_result(ingest_all(Correlation { completed: false, action: None, terminal: None }, h, seq![e1, e2, done]))
            == Some(if e2.record_id > e1.record_id { r2 } else { r1 }),
{
    let start = Correlation { completed: false, action: None, terminal: None };
    let es = seq![e1, e2, done];
    assert(es.drop_last() =~= seq![e1, e2]);
    assert(seq![e1, e2].drop_last() =~= seq![e1]);
    assert(seq![e1].drop_last() =~= Seq::<HistoryEvent>::empty());
    assert(ingest_all(start, h, Seq::<HistoryEvent>::empty()) == start);
    assert(es.last() == done);
    assert(seq![e1, e2].last() == e2);
    assert(seq![e1].last() == e1);
    let c1 = ingest_event(start, h, e1);
    assert(ingest_all(start, h, seq![e1]) == c1);
    let c2 = ingest_event(c1, h, e2);
    assert(ingest_all(start, h, seq![e1, e2]) == c2);
    assert(ingest_all(start, h, es) == ingest_event(c2, h, done));
    assert(c1.action == Some((e1.record_id, r1)));
}

/// A failure event of the run other than 101, 103, 104 and 311 (an action
/// failure that the run goes on after) changes nothing.
pub proof fn lemma_other_failures_ignored(c: Correlation, h: RunHandle, e: HistoryEvent)
    requires
        e.kind == HistoryEventKind::Failed,
        e.event_id != 101 && e.event_id != 103 && e.event_id != 104 && e.event_id != 311,
    ensures
        ingest_event(c, h, e) == c,
{
}

/// A completion of the run without a code marks it completed and keeps
/// whatever terminal result came before.
pub proof fn lemma_completion_keeps_terminal(c: Correlation, h: RunHandle, e: HistoryEvent)
    requires
        of_run(e, h),
        e.kind == HistoryEventKind::Completed,
        e.result_code is None,
    ensures
        ingest_event(c, h, e).completed,
        ingest_event(c, h, e).terminal == c.terminal,
        ingest_event(c, h, e).action == c.action,
{
}

} // verus!
