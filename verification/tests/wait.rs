use std::cell::Cell;
use std::time::Duration;

use windows_task::client::{RunHandle, WaitOptions};
use windows_task::history::{
    FallbackReason, HistoryEvent, HistoryEventKind, ResultConfidence, RunOutcome,
};
use windows_task::wait::{Correlation, RunWait, WaitAction, WaitEvent};
use windows_task::{Error, ErrorKind};

struct Fake {
    elapsed: Cell<u128>,
    fail_history: bool,
    completion_at: Option<u128>,
    instance: u128,
    last_result_reads: Cell<usize>,
}

const SECOND: u128 = 1_000_000_000;

impl Fake {
    fn history(&self) -> Result<Vec<HistoryEvent>, Error> {
        if self.fail_history {
            return Err(Error::new(ErrorKind::AccessDenied, "history denied"));
        }
        Ok(
            if self.completion_at.is_some_and(|at| self.elapsed.get() >= at) {
                vec![HistoryEvent {
                    record_id: 1,
                    event_id: 102,
                    kind: HistoryEventKind::Completed,
                    timestamp: (100 * SECOND + self.elapsed.get()) as i128,
                    task_path: Some("\\Test\\Run".parse().expect("fixture path")),
                    instance_id: Some(self.instance),
                    result_code: Some(7),
                    fields: Vec::new(),
                    message: None,
                }]
            } else {
                vec![]
            },
        )
    }

    fn last_result(&self) -> Result<i32, Error> {
        self.last_result_reads.set(self.last_result_reads.get() + 1);
        Ok(99)
    }
}

/// Drives a wait against the fake observer, as the scheduler client does.
fn observe_run(
    observer: &Fake,
    handle: &RunHandle,
    options: WaitOptions,
    cancelled: bool,
) -> Result<RunOutcome, Error> {
    let started = (100 + observer.elapsed.get() / SECOND) as u64;
    let (mut wait, mut action) = RunWait::start(handle.clone(), options, started)?;
    loop {
        let event = match action {
            WaitAction::Probe => WaitEvent::Probed(cancelled, observer.elapsed.get()),
            WaitAction::ReadHistory(query) => {
                assert!(
                    query.since.is_none(),
                    "waiting later must not discard earlier completion"
                );
                WaitEvent::History(observer.history())
            }
            WaitAction::ListRunning => WaitEvent::Running(Ok(vec![]), observer.elapsed.get()),
            WaitAction::ReadLastResult(_) => WaitEvent::LastResult(observer.last_result()),
            WaitAction::Sleep(nanos) => {
                observer.elapsed.set(observer.elapsed.get() + nanos);
                WaitEvent::Probed(cancelled, observer.elapsed.get())
            }
            WaitAction::Finish => return wait.finish(),
        };
        assert!(wait.awaits_event(&event), "the wait must await the answer it asked for");
        action = wait.step(event);
    }
}

fn fixture() -> (Fake, RunHandle, WaitOptions) {
    (
        Fake {
            elapsed: Cell::new(0),
            fail_history: false,
            completion_at: None,
            instance: 0,
            last_result_reads: Cell::new(0),
        },
        RunHandle {
            path: "\\Test\\Run".parse().expect("fixture path"),
            instance_id: 0,
            engine_process_id: None,
        },
        WaitOptions {
            timeout: Duration::from_secs(5),
            ..WaitOptions::default()
        },
    )
}

#[test]
fn delayed_exact_completion_does_not_become_a_last_result_estimate() {
    let (mut observer, handle, options) = fixture();
    observer.completion_at = Some(3 * SECOND);
    let result = observe_run(&observer, &handle, options, false).expect("delayed completion");
    assert_eq!(result.confidence, ResultConfidence::Exact);
    assert_eq!(result.result_code, 7);
    assert_eq!(observer.last_result_reads.get(), 0);
}

#[test]
fn other_instance_completion_is_not_accepted() {
    let (mut observer, handle, options) = fixture();
    observer.completion_at = Some(0);
    observer.instance = 1;
    let error = observe_run(&observer, &handle, options, false).expect_err("wrong instance");
    assert_eq!(error.kind(), ErrorKind::Timeout);
    assert_eq!(
        error
            .context()
            .iter()
            .find(|(key, _)| key == "last_running")
            .map(|(_, value)| value.as_str()),
        Some("false")
    );
    assert_eq!(observer.last_result_reads.get(), 0);
}

#[test]
fn inaccessible_history_requires_explicit_estimate_permission() {
    let (mut observer, handle, mut options) = fixture();
    observer.fail_history = true;
    assert_eq!(
        observe_run(&observer, &handle, options, false)
            .expect_err("strict history")
            .kind(),
        ErrorKind::AccessDenied
    );
    options.allow_polling_fallback = true;
    let result = observe_run(&observer, &handle, options, false).expect("explicit estimate");
    assert_eq!(result.confidence, ResultConfidence::PollingFallback);
    assert_eq!(
        result.fallback_reason,
        Some(FallbackReason::HistoryUnavailable)
    );
}

#[test]
fn cancellation_and_zero_interval_do_not_probe() {
    let (observer, handle, mut options) = fixture();
    assert_eq!(
        observe_run(&observer, &handle, options, true)
            .expect_err("cancelled")
            .kind(),
        ErrorKind::Cancelled
    );
    options.poll_interval = Duration::ZERO;
    assert_eq!(
        observe_run(&observer, &handle, options, false)
            .expect_err("zero interval")
            .kind(),
        ErrorKind::InvalidDefinition
    );
}

#[test]
fn native_completion_without_result_uses_latest_matching_action() {
    let (_, handle, _) = fixture();
    let event = |record_id, kind, result_code| HistoryEvent {
        record_id,
        event_id: if kind == HistoryEventKind::Completed {
            102
        } else {
            201
        },
        kind,
        timestamp: 0,
        task_path: Some(handle.path.clone()),
        instance_id: Some(handle.instance_id),
        result_code,
        fields: Vec::new(),
        message: None,
    };
    let mut correlation = Correlation::default();
    assert_eq!(
        correlation.ingest(
            &handle,
            vec![event(10, HistoryEventKind::ActionCompleted, Some(1))]
        ),
        None
    );
    // Reverse query order, duplicate older action, and the Windows 102
    // template (which does not contain ResultCode).
    assert_eq!(
        correlation.ingest(
            &handle,
            vec![
                event(13, HistoryEventKind::Completed, None),
                event(12, HistoryEventKind::ActionCompleted, Some(7)),
                event(10, HistoryEventKind::ActionCompleted, Some(1)),
            ]
        ),
        Some(7)
    );
}

#[test]
fn stopped_instances_report_the_stop_code() {
    let (_, handle, _) = fixture();
    let stopped = HistoryEvent {
        record_id: 5,
        event_id: 111,
        kind: HistoryEventKind::Stopped,
        timestamp: 0,
        task_path: Some(handle.path.clone()),
        instance_id: Some(handle.instance_id),
        result_code: None,
        fields: Vec::new(),
        message: None,
    };
    let mut other = stopped.clone();
    other.instance_id = Some(9);
    let mut correlation = Correlation::default();
    assert_eq!(correlation.ingest(&handle, vec![other]), None);
    assert_eq!(correlation.ingest(&handle, vec![stopped]), Some(0x0004_1306));
}

#[test]
fn timeout_reports_what_was_observed() {
    let (observer, handle, options) = fixture();
    let error = observe_run(&observer, &handle, options, false).expect_err("timeout");
    assert_eq!(error.kind(), ErrorKind::Timeout);
    assert_eq!(error.target(), Some("00000000-0000-0000-0000-000000000000"));
    let context: Vec<(&str, &str)> = error
        .context()
        .iter()
        .map(|(key, value)| (key.as_str(), value.as_str()))
        .collect();
    assert_eq!(
        context,
        vec![
            ("history", "readable_no_completion"),
            ("last_running", "false"),
            ("observed_running", "false"),
            ("wait_started_unix_seconds", "100"),
        ]
    );
}

#[test]
fn a_wait_awaits_only_the_answer_to_its_action() {
    let (_, handle, options) = fixture();
    let (wait, action) = RunWait::start(handle, options, 100).expect("start");
    assert!(matches!(action, WaitAction::Probe));
    assert!(wait.awaits_event(&WaitEvent::Probed(false, 0)));
    assert!(!wait.awaits_event(&WaitEvent::LastResult(Ok(0))));
    assert!(!wait.awaits_event(&WaitEvent::History(Ok(vec![]))));
}
