//! The daemon: its protocol, its status, how it is controlled, and how messages are framed.
use chrono::Utc;
use gh_housekeeper::account_usage::BillingPeriod;
use gh_housekeeper::account_usage_monitoring::AccountUsagePollingCycle;
use gh_housekeeper::agent::{
    DaemonAccountUsageSummary, DaemonCommand, DaemonControlError, DaemonControlErrorCode,
    DaemonEvent, DaemonEventSubscriptionRequest, DaemonReply, DaemonRequest, DaemonResponse,
    DaemonResponseOutcome, DaemonRuntimeState, DaemonStatus, DAEMON_PROTOCOL_SCHEMA_VERSION,
};
use gh_housekeeper::daemon::{
    attempt_limit, billing_period_at, describe_watch, monitoring_interval, next_check_at, plan_intervals, start_running,
    update_status_for_monitoring_event, DaemonControlHandle, DaemonEventSubscriptionError,
    DaemonIntervals, DaemonPresentation, ForegroundDaemon,
};
use gh_housekeeper::ipc::{
    check_response, encode_frame, ends_service, judge_client_path, judge_directory, judge_probe,
    judge_socket_path, refuse_frame, refuse_json, request_id, request_id_from_json, FrameReader,
    FrameStep, PathKind, ProbeOutcome, SocketStep, MAX_FRAME_BYTES,
};
use gh_housekeeper::model::{Account, ProviderTelemetry, ScanOptions, ScanScope};
use gh_housekeeper::monitoring::{
    MonitoringIteration, MonitoringIterationError, MonitoringNotificationSignal, MonitoringReport,
    MonitoringScheduler, MonitoringSchedulerEvent, MonitoringSchedulerStep,
    MonitoringSchedulerStopReason, StorageThresholds,
};
use gh_housekeeper::time::Timestamp;

const SECOND: u128 = 1_000_000_000;

fn now() -> Timestamp {
    let time = Utc::now();
    Timestamp::from_unix(time.timestamp(), time.timestamp_subsec_nanos()).unwrap()
}

fn later(at: Timestamp, seconds: u128) -> Timestamp {
    at.later_by(seconds * SECOND).unwrap()
}

fn empty_cycle(evaluated_at: Timestamp) -> AccountUsagePollingCycle {
    AccountUsagePollingCycle {
        period: BillingPeriod::monthly(2026, 9).unwrap(),
        evaluated_at,
        owners: Vec::new(),
    }
}

fn empty_summary() -> DaemonAccountUsageSummary {
    DaemonAccountUsageSummary {
        owner_count: 0,
        available_owner_count: 0,
        unavailable_owner_count: 0,
        persisted_owner_count: 0,
        persistence_failure_count: 0,
        evaluation_count: 0,
        evaluation_error_count: 0,
        delivered_notification_count: 0,
        suppressed_notification_count: 0,
        failed_notification_count: 0,
    }
}

#[test]
fn starting_status_is_safe_and_non_destructive() {
    let started_at = now();
    let status = DaemonStatus::starting(started_at);

    assert_eq!(status.schema_version, DAEMON_PROTOCOL_SCHEMA_VERSION);
    assert_eq!(status.state, DaemonRuntimeState::Starting);
    assert_eq!(status.started_at, started_at);
    assert!(!status.automatic_cleanup_enabled);
    assert!(!status.capabilities.destructive_cleanup);
    assert!(!status.capabilities.account_usage_monitoring);
    assert_eq!(status.pending_destructive_intents, 0);
    assert_eq!(status.last_account_usage_at, None);
    assert_eq!(status.next_account_usage_at, None);
    assert_eq!(status.last_account_usage_summary, None);
}

#[test]
fn account_usage_cycle_updates_status_without_cleanup_authority() {
    let started_at = now();
    let evaluated_at = later(started_at, 5);
    let next_check_at = later(evaluated_at, 30 * 60);
    let cycle = empty_cycle(evaluated_at);
    let mut status = DaemonStatus::starting(started_at);
    status.capabilities.account_usage_monitoring = true;

    status.record_account_usage_cycle(&cycle, Some(next_check_at));

    assert_eq!(status.last_account_usage_at, Some(evaluated_at));
    assert_eq!(status.next_account_usage_at, Some(next_check_at));
    assert_eq!(status.last_account_usage_summary, Some(empty_summary()));
    assert!(status.capabilities.account_usage_monitoring);
    assert!(!status.automatic_cleanup_enabled);
    assert!(!status.capabilities.destructive_cleanup);
}

#[test]
fn schema_mismatch_is_structured() {
    let mut request = DaemonRequest::new("request-2", DaemonCommand::Status);
    request.schema_version = DAEMON_PROTOCOL_SCHEMA_VERSION + 1;

    let error = request.validate_schema().unwrap_err();
    assert_eq!(error.code, DaemonControlErrorCode::SchemaMismatch);
    assert!(error.message.contains("received"));
    assert!(error.message.contains("expected"));
}

#[test]
fn event_subscription_request_is_versioned() {
    let subscription = DaemonEventSubscriptionRequest::new("subscription-1");
    assert_eq!(
        subscription.schema_version,
        DAEMON_PROTOCOL_SCHEMA_VERSION
    );
    assert!(subscription.validate_schema().is_ok());
}

#[test]
fn protocol_exposes_account_usage_events_without_destructive_commands() {
    let cycle = empty_cycle(now());
    let event = DaemonEvent::AccountUsageCycle {
        cycle: cycle.clone(),
    };

    assert_eq!(DaemonCommand::Status, DaemonCommand::Status);
    assert_eq!(
        DaemonCommand::RunMonitoringNow,
        DaemonCommand::RunMonitoringNow
    );
    assert_eq!(DaemonCommand::Shutdown, DaemonCommand::Shutdown);
    assert!(matches!(
        event,
        DaemonEvent::AccountUsageCycle { cycle: emitted } if emitted == cycle
    ));
}

fn control_fixture() -> DaemonControlHandle {
    let mut status = DaemonStatus::starting(now());
    status.state = DaemonRuntimeState::Running;
    DaemonControlHandle::new(status)
}

#[test]
fn control_status_uses_live_runtime_snapshot() {
    let mut control = control_fixture();
    let mut current = control.status();
    current.next_monitoring_at = Some(now());
    control.replace_status(current);

    let request = DaemonRequest::new("status-1", DaemonCommand::Status);
    let (response, events) = control.handle_request(&request);
    match response.outcome {
        DaemonResponseOutcome::Success {
            reply: DaemonReply::Status { status },
        } => {
            assert_eq!(status.state, DaemonRuntimeState::Running);
            assert!(status.next_monitoring_at.is_some());
        }
        other => panic!("unexpected status response: {other:?}"),
    }
    assert!(events.is_empty());
}

#[test]
fn shutdown_is_graceful_and_idempotent() {
    let mut control = control_fixture();
    assert!(!control.is_cancelled());

    control.shutdown();
    control.shutdown();

    assert_eq!(control.status().state, DaemonRuntimeState::Stopping);
    assert!(control.is_cancelled());
}

#[test]
fn run_monitoring_now_is_explicitly_unsupported() {
    let mut control = control_fixture();
    let request = DaemonRequest::new("run-now-1", DaemonCommand::RunMonitoringNow);
    let (response, _) = control.handle_request(&request);

    match response.outcome {
        DaemonResponseOutcome::Error { error } => {
            assert_eq!(error.code, DaemonControlErrorCode::Unsupported);
        }
        other => panic!("unexpected run-now response: {other:?}"),
    }
}

#[test]
fn subscription_uses_existing_daemon_events() {
    let mut control = control_fixture();
    let request = DaemonEventSubscriptionRequest::new("events-1");
    control.subscribe(&request).unwrap();

    let events = control.shutdown();

    assert!(matches!(
        &events[0],
        DaemonEvent::StatusChanged { status }
            if status.state == DaemonRuntimeState::Stopping
    ));
}

#[test]
fn schema_mismatch_fails_before_command_execution() {
    let mut control = control_fixture();
    let mut request = DaemonRequest::new("shutdown-1", DaemonCommand::Shutdown);
    request.schema_version += 1;

    let (response, _) = control.handle_request(&request);
    match response.outcome {
        DaemonResponseOutcome::Error { error } => {
            assert_eq!(error.code, DaemonControlErrorCode::SchemaMismatch);
        }
        other => panic!("unexpected schema-mismatch response: {other:?}"),
    }
    assert!(!control.is_cancelled());
    assert_eq!(control.status().state, DaemonRuntimeState::Running);
}

#[test]
fn a_subscription_of_another_version_is_refused() {
    let control = control_fixture();
    let mut request = DaemonEventSubscriptionRequest::new("events-1");
    request.schema_version = 1;
    assert_eq!(
        control.subscribe(&request).unwrap_err(),
        DaemonControlError::schema_mismatch(1)
    );
}

#[test]
fn shutdown_answers_its_own_request() {
    let mut control = control_fixture();
    let request = DaemonRequest::new("stop", DaemonCommand::Shutdown);
    let (response, events) = control.handle_request(&request);
    assert_eq!(response, DaemonResponse::ok(&request, DaemonReply::ShutdownAccepted));
    assert_eq!(events.len(), 1);
    assert_eq!(check_response(&response, &request), Ok(()));
}

#[test]
fn answers_to_other_requests_are_refused() {
    let request = DaemonRequest::new("mine", DaemonCommand::Status);
    let other = DaemonRequest::new("other", DaemonCommand::Status);
    let response = DaemonResponse::error(&other, DaemonControlError::unsupported("no"));
    assert!(check_response(&response, &request).is_err());
    let mut versioned = DaemonResponse::error(&request, DaemonControlError::unsupported("no"));
    versioned.schema_version = 1;
    assert_eq!(
        check_response(&versioned, &request).unwrap_err(),
        "daemon response schema mismatch: received 1, expected 2"
    );
}

#[test]
fn a_running_daemon_never_gains_the_right_to_delete() {
    let account = Account { provider: "github".to_owned(), login: "example-user".to_owned() };
    let mut status = DaemonStatus::starting(now());
    let at = now();
    start_running(
        &mut status,
        &account,
        &ScanOptions::default(),
        at,
        true,
        DaemonPresentation::Protocol,
    );
    assert_eq!(status.state, DaemonRuntimeState::Running);
    assert_eq!(status.account.as_ref(), Some(&account));
    assert_eq!(status.next_account_usage_at, Some(at));
    assert!(status.capabilities.event_stream);
    assert!(!status.capabilities.destructive_cleanup);
    assert!(!status.automatic_cleanup_enabled);
}

#[test]
fn failures_reach_the_status() {
    let mut status = DaemonStatus::starting(now());
    let event: MonitoringSchedulerEvent<u64, String> = MonitoringSchedulerEvent::Failure {
        error: MonitoringIterationError::Persistence("disk full".to_owned()),
        consecutive_failures: 2,
        retry_after: 60 * SECOND,
        notification: MonitoringNotificationSignal::MonitoringFailure { consecutive_failures: 2 },
    };
    let at = now();
    let events = update_status_for_monitoring_event(&mut status, &event, 300 * SECOND, at);
    assert_eq!(status.next_monitoring_at, Some(later(at, 60)));
    assert_eq!(
        status.last_notification,
        Some(MonitoringNotificationSignal::MonitoringFailure { consecutive_failures: 2 })
    );
    assert!(events.iter().any(|event| matches!(
        event,
        DaemonEvent::Error { message, .. } if message.contains("disk full")
    )));
}

#[test]
fn intervals_are_given_in_minutes() {
    assert_eq!(
        plan_intervals(5, 30, 60, None),
        Ok(DaemonIntervals { monitoring: 300, account_usage: 1_800, max_age: 3_600 })
    );
    assert_eq!(plan_intervals(u64::MAX, 30, 60, Some(7)).unwrap().monitoring, 7);
    assert!(plan_intervals(u64::MAX, 30, 60, None).unwrap_err().contains("monitoring interval"));
    assert!(plan_intervals(5, u64::MAX, 60, None).unwrap_err().contains("account usage interval"));
    assert!(plan_intervals(5, 30, u64::MAX, None).unwrap_err().contains("maximum age"));
    assert_eq!(attempt_limit(0), None);
    assert_eq!(attempt_limit(3), Some(3));
    let at = now();
    assert_eq!(next_check_at(at, 5 * SECOND), Some(later(at, 5)));
    assert_eq!(billing_period_at(at), BillingPeriod::at(at));
}

#[test]
fn a_watch_is_described() {
    let lines = describe_watch(&ScanScope::AllAccessible, 300, Some(2), "/data", None, None);
    assert!(lines.iter().any(|line| line.contains("all-accessible")));
    assert!(lines.iter().any(|line| line.contains("/data")));
}

#[test]
fn a_framed_message_comes_back() {
    let frame = encode_frame(b"{\"a\":1}".to_vec(), "daemon request").unwrap();
    assert_eq!(frame, b"{\"a\":1}\n".to_vec());
    let mut reader = FrameReader::new();
    assert_eq!(reader.received(&frame[..3].to_vec()), FrameStep::More);
    assert_eq!(
        reader.received(&frame[3..].to_vec()),
        FrameStep::Complete(b"{\"a\":1}".to_vec())
    );
}

#[test]
fn malformed_and_oversized_frames_fail_structurally() {
    let mut malformed = FrameReader::new();
    let FrameStep::Complete(frame) = malformed.received(&b"{not-json}\n".to_vec()) else {
        panic!("expected a frame");
    };
    let response = refuse_json(&frame, "key must be a string");
    assert!(matches!(
        response.outcome,
        DaemonResponseOutcome::Error { error }
            if error.code == DaemonControlErrorCode::InvalidRequest
    ));

    let mut incomplete = FrameReader::new();
    assert_eq!(
        incomplete.received(&b"{\"schema_version\":2".to_vec()),
        FrameStep::More
    );
    let response = refuse_frame(&incomplete.ended());
    assert!(matches!(
        response.outcome,
        DaemonResponseOutcome::Error { error }
            if error.code == DaemonControlErrorCode::InvalidRequest
    ));

    let mut oversized = FrameReader::new();
    let FrameStep::Refused(problem) = oversized.received(&vec![b'x'; MAX_FRAME_BYTES + 1]) else {
        panic!("expected a refusal");
    };
    let response = refuse_frame(&problem);
    assert!(matches!(
        response.outcome,
        DaemonResponseOutcome::Error { error }
            if error.code == DaemonControlErrorCode::InvalidRequest
    ));
    assert!(encode_frame(vec![b'x'; MAX_FRAME_BYTES + 1], "daemon request").is_err());
}

#[test]
fn refusals_keep_the_id_of_the_request() {
    let frame = b"{\"request_id\":\"abc\",\"command\":7}".to_vec();
    assert_eq!(request_id_from_json(&frame), "abc");
    assert_eq!(refuse_json(&frame, "unknown command").request_id, "abc");
    assert_eq!(request_id_from_json(&b"{\"request_id\":5}".to_vec()), "");
    assert_eq!(request_id_from_json(&b"[1]".to_vec()), "");
    assert_eq!(request_id_from_json(&b"not json".to_vec()), "");
}

#[test]
fn request_ids_tell_processes_and_requests_apart() {
    assert_ne!(request_id(1, 12), request_id(11, 2));
    assert!(request_id(42, 7).contains("42"));
}

#[test]
fn stale_socket_is_recovered_after_runtime_lock_authority() {
    assert_eq!(judge_socket_path(PathKind::Socket, "/run/s"), Ok(SocketStep::Probe));
    assert_eq!(judge_probe(ProbeOutcome::RefusedOrGone, "/run/s"), Ok(()));
    assert_eq!(judge_socket_path(PathKind::Missing, "/run/s"), Ok(SocketStep::Bind));
}

#[test]
fn live_socket_is_never_replaced_as_stale() {
    let error = judge_probe(ProbeOutcome::Accepted, "/run/s").unwrap_err();
    assert!(error.contains("already accepting connections"));
    assert!(judge_probe(ProbeOutcome::Unclear, "/run/s").is_err());
}

#[test]
fn unsafe_socket_symlink_is_refused() {
    let error = judge_socket_path(PathKind::SymbolicLink, "/run/s").unwrap_err();
    assert!(error.contains("symbolic link"));
    assert!(judge_client_path(PathKind::SymbolicLink, "/run/s").is_err());
    assert!(judge_client_path(PathKind::Missing, "/run/s").is_err());
    assert_eq!(judge_client_path(PathKind::Socket, "/run/s"), Ok(()));
    assert!(judge_socket_path(PathKind::Other, "/run/s").is_err());
    assert_eq!(judge_directory(true, false, "/run"), Ok(()));
    assert!(judge_directory(true, true, "/run").is_err());
    assert!(judge_directory(false, false, "/run").is_err());
}

#[test]
fn a_server_ends_with_the_daemon() {
    let mut status = DaemonStatus::starting(now());
    let running = DaemonEvent::StatusChanged { status: status.clone() };
    status.state = DaemonRuntimeState::Stopping;
    let stopping = DaemonEvent::StatusChanged { status };
    assert!(!ends_service(&Ok(running)));
    assert!(ends_service(&Ok(stopping)));
    assert!(ends_service(&Err(DaemonEventSubscriptionError::Closed)));
    assert!(!ends_service(&Err(DaemonEventSubscriptionError::Lagged(3))));
}

fn foreground(max_attempts: Option<u64>, presentation: DaemonPresentation) -> ForegroundDaemon {
    let thresholds = StorageThresholds::new(Some(100), Some(200)).unwrap();
    let scheduler =
        MonitoringScheduler::new(ScanOptions::default(), thresholds, 60 * SECOND, 30 * SECOND)
            .unwrap();
    let account = Account { provider: "github".to_owned(), login: "example-user".to_owned() };
    let (daemon, events) = ForegroundDaemon::start(
        &scheduler,
        max_attempts,
        &account,
        now(),
        now(),
        Some(120 * SECOND),
        presentation,
    );
    assert_eq!(events, vec![DaemonEvent::StatusChanged { status: daemon.status() }]);
    daemon
}

fn sample(scanned_at: Timestamp, bytes: u64) -> MonitoringIteration<String> {
    let thresholds = StorageThresholds::new(Some(100), Some(200)).unwrap();
    MonitoringIteration {
        report: MonitoringReport {
            account: Account { provider: "github".to_owned(), login: "example-user".to_owned() },
            scope: ScanScope::AllAccessible,
            exclude_repositories: Vec::new(),
            scanned_at,
            elapsed_ms: 1,
            repository_count: 1,
            artifact_count: 1,
            total_bytes: bytes,
            pressure: thresholds.evaluate(bytes),
            issues: Vec::new(),
            telemetry: ProviderTelemetry::default(),
        },
        receipt: "sample.json".to_owned(),
    }
}

#[test]
fn a_daemon_in_the_foreground_runs_by_its_schedule() {
    let mut daemon = foreground(Some(3), DaemonPresentation::Protocol);
    assert_eq!(daemon.status().state, DaemonRuntimeState::Running);
    assert!(daemon.status().capabilities.event_stream);
    assert!(!daemon.status().capabilities.destructive_cleanup);

    assert_eq!(daemon.before_attempt(), MonitoringSchedulerStep::Attempt);
    let first = now();
    let (_, events) = daemon.sampled(sample(first, 50), first);
    assert_eq!(events, vec![DaemonEvent::StatusChanged { status: daemon.status() }]);
    assert_eq!(daemon.status().last_monitoring_at, Some(first));
    assert_eq!(daemon.status().next_monitoring_at, Some(later(first, 60)));
    assert_eq!(daemon.after_attempt(), MonitoringSchedulerStep::Sleep { delay: 60 * SECOND });

    let second = later(first, 60);
    let (_, events) = daemon.sampled(sample(second, 150), second);
    assert_eq!(
        events,
        vec![
            DaemonEvent::MonitoringSignal {
                occurred_at: second,
                signal: MonitoringNotificationSignal::EnteredWarning { thresholds_changed: false },
            },
            DaemonEvent::StatusChanged { status: daemon.status() },
        ]
    );

    let third = later(second, 60);
    let (told, events) =
        daemon.failed::<String>(MonitoringIterationError::Persistence("full".to_owned()), third);
    assert!(matches!(
        told,
        MonitoringSchedulerEvent::Failure { consecutive_failures: 1, .. }
    ));
    assert!(events.iter().any(|event| matches!(event, DaemonEvent::Error { .. })));
    assert_eq!(daemon.status().next_monitoring_at, Some(later(third, 30)));

    match daemon.before_attempt() {
        MonitoringSchedulerStep::Stop { summary } => {
            assert_eq!(summary.attempts, 3);
            assert_eq!(summary.successes, 2);
            assert_eq!(summary.failures, 1);
            assert_eq!(summary.stop_reason, MonitoringSchedulerStopReason::AttemptLimitReached);
        }
        other => panic!("unexpected step: {other:?}"),
    }
}

#[test]
fn a_daemon_in_the_foreground_looks_at_usage() {
    let mut daemon = foreground(None, DaemonPresentation::MonitorWatch);
    assert!(!daemon.status().capabilities.event_stream);
    let at = now();
    let events = daemon.looked_at_usage(empty_cycle(at));
    assert_eq!(
        events,
        vec![
            DaemonEvent::AccountUsageCycle { cycle: empty_cycle(at) },
            DaemonEvent::StatusChanged { status: daemon.status() },
        ]
    );
    assert_eq!(daemon.status().next_account_usage_at, Some(later(at, 120)));
    assert_eq!(daemon.status().last_account_usage_summary, Some(empty_summary()));
}

#[test]
fn a_daemon_in_the_foreground_stops_when_it_is_told_to() {
    let mut daemon = foreground(None, DaemonPresentation::Protocol);
    let request = DaemonRequest::new("stop-1", DaemonCommand::Shutdown);
    let (response, events) = daemon.handle_request(&request);
    assert_eq!(response.request_id, "stop-1");
    assert_eq!(events, vec![DaemonEvent::StatusChanged { status: daemon.status() }]);
    assert!(daemon.is_cancelled());
    assert_eq!(daemon.status().state, DaemonRuntimeState::Stopping);
    assert!(matches!(daemon.before_attempt(), MonitoringSchedulerStep::Stop { .. }));
    assert_eq!(daemon.cancelled().stop_reason, MonitoringSchedulerStopReason::Cancelled);

    daemon.looked_at_usage(empty_cycle(now()));
    assert!(matches!(daemon.before_attempt(), MonitoringSchedulerStep::Stop { .. }));
}

#[test]
fn an_interval_can_be_overridden() {
    assert_eq!(monitoring_interval(5, None), Ok(300));
    assert_eq!(monitoring_interval(u64::MAX, Some(7)), Ok(7));
    assert_eq!(
        monitoring_interval(u64::MAX, None),
        Err("configured monitoring interval is too large".to_owned())
    );
}

/// Sends a request through a frame, as over a connection, and hands out the answer.
fn exchange(control: &mut DaemonControlHandle, request: &DaemonRequest) -> DaemonResponse {
    let command = match request.command {
        DaemonCommand::Status => "status",
        DaemonCommand::RunMonitoringNow => "run_monitoring_now",
        DaemonCommand::Shutdown => "shutdown",
    };
    let message = format!(
        "{{\"schema_version\":{},\"request_id\":\"{}\",\"command\":{{\"command\":\"{command}\"}}}}",
        request.schema_version, request.request_id
    );
    let frame = encode_frame(message.into_bytes(), "request").unwrap();
    let body = match FrameReader::new().received(&frame) {
        FrameStep::Complete(body) => body,
        other => panic!("unexpected frame: {other:?}"),
    };
    assert_eq!(request_id_from_json(&body), request.request_id);

    let value: serde_json::Value = serde_json::from_slice(&body).unwrap();
    let decoded = DaemonRequest {
        schema_version: value["schema_version"].as_u64().unwrap() as u32,
        request_id: value["request_id"].as_str().unwrap().to_owned(),
        command: match value["command"]["command"].as_str().unwrap() {
            "status" => DaemonCommand::Status,
            "run_monitoring_now" => DaemonCommand::RunMonitoringNow,
            "shutdown" => DaemonCommand::Shutdown,
            other => panic!("unexpected command: {other}"),
        },
    };
    assert_eq!(decoded, *request);
    let (response, _) = control.handle_request(&decoded);
    assert_eq!(check_response(&response, request), Ok(()));
    response
}

#[test]
fn local_socket_serves_live_status_and_graceful_shutdown() {
    let mut control = control_fixture();

    let status_request = DaemonRequest::new("status-test", DaemonCommand::Status);
    let status_response = exchange(&mut control, &status_request);
    assert!(matches!(
        status_response.outcome,
        DaemonResponseOutcome::Success {
            reply: DaemonReply::Status { status }
        } if status.state == DaemonRuntimeState::Running
    ));

    let shutdown_request = DaemonRequest::new("shutdown-test", DaemonCommand::Shutdown);
    let shutdown_response = exchange(&mut control, &shutdown_request);
    assert!(matches!(
        shutdown_response.outcome,
        DaemonResponseOutcome::Success {
            reply: DaemonReply::ShutdownAccepted
        }
    ));
    assert!(control.is_cancelled());
    assert!(ends_service(&Ok(DaemonEvent::StatusChanged { status: control.status() })));
}

#[test]
fn run_monitoring_now_remains_explicitly_unsupported() {
    let mut control = control_fixture();
    let response = exchange(
        &mut control,
        &DaemonRequest::new("run-now-test", DaemonCommand::RunMonitoringNow),
    );
    assert!(matches!(
        response.outcome,
        DaemonResponseOutcome::Error { error }
            if error.code == DaemonControlErrorCode::Unsupported
    ));
    assert!(!control.is_cancelled());
    assert_eq!(control.status().state, DaemonRuntimeState::Running);
}

#[test]
fn schema_mismatch_is_returned_without_executing_shutdown() {
    let mut control = control_fixture();
    let mut request = DaemonRequest::new("schema-test", DaemonCommand::Shutdown);
    request.schema_version += 1;
    let response = exchange(&mut control, &request);
    assert!(matches!(
        response.outcome,
        DaemonResponseOutcome::Error { error }
            if error.code == DaemonControlErrorCode::SchemaMismatch
    ));
    assert!(!control.is_cancelled());
    assert_eq!(control.status().state, DaemonRuntimeState::Running);
}
