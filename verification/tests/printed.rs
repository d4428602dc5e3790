//! The lines that are printed of purges, samples and the daemon.
use chrono::{TimeZone, Utc};
use gh_housekeeper::account_usage::{
    AccountUsageObservation, AccountUsageSource, BillingOwner, BillingOwnerKind, BillingPeriod,
};
use gh_housekeeper::account_usage_monitoring::{
    AccountUsageOwnerPoll, AccountUsagePollingCycle, UsageQuotaNotificationOutcome,
};
use gh_housekeeper::agent::{DaemonEvent, DaemonStatus};
use gh_housekeeper::allowance::{UsageQuotaAlertKey, UsageQuotaThreshold};
use gh_housekeeper::execution::ExecutionAuthorizationKind;
use gh_housekeeper::model::{
    Account, Artifact, ProviderError, ProviderTelemetry, Repository, RepositoryRef, ScanIssue,
    ScanScope, Visibility, WorkflowRun, WorkflowRunInventorySnapshot,
};
use gh_housekeeper::monitoring::{
    MonitoringIteration, MonitoringIterationError, MonitoringNotificationSignal, MonitoringReport,
    MonitoringSchedulerEvent, MonitoringSchedulerStopReason, MonitoringSchedulerSummary,
    PressureTransition, PressureTransitionEvaluation, StoragePressureLevel, StorageThresholds,
};
use gh_housekeeper::report::monitoring::{
    describe_foreground, describe_initialized_config, describe_monitoring_history,
    describe_monitoring_report,
    describe_scheduler_event, describe_scheduler_summary, MonitoringSample,
};
use gh_housekeeper::report::purge::{
    check_run_purge, describe_empty_purge, describe_run_purge, describe_run_purge_execution,
    describe_run_purge_history, describe_run_purge_plan, describe_run_purge_review, PurgeRecord,
};
use gh_housekeeper::report::service::{describe_daemon_event, describe_usage};
use gh_housekeeper::run_purge::{
    RunPurgePlan, RunPurgeSelection, RunPurgeSelectionMode, RunPurgeTarget,
};
use gh_housekeeper::run_purge_flow::{
    RunPurgeArtifactResult, RunPurgeExecutionItem, RunPurgeExecutionReport, RunPurgeExecutionState,
    RunPurgeRevalidationItem, RunPurgeRevalidationReport, RunPurgeRevalidationState,
    RunPurgeStepResult,
};
use gh_housekeeper::time::Timestamp;

const PLACE: &str = "example-user/project-alpha";

fn on(day: u32, hour: u32) -> Timestamp {
    let at = Utc.with_ymd_and_hms(2026, 2, day, hour, 4, 5).unwrap();
    Timestamp::from_unix(at.timestamp(), 0).unwrap()
}

fn account() -> Account {
    Account { provider: "github".to_owned(), login: "example-user".to_owned() }
}

fn place() -> RepositoryRef {
    RepositoryRef { id: 1, full_name: PLACE.to_owned() }
}

fn run(id: u64) -> WorkflowRun {
    WorkflowRun {
        id,
        repository: place(),
        workflow_id: 10,
        workflow_name: Some("Rust CI".to_owned()),
        display_title: "CI".to_owned(),
        event: "push".to_owned(),
        status: "completed".to_owned(),
        conclusion: Some("success".to_owned()),
        head_branch: None,
        head_sha: "sha".to_owned(),
        run_number: 3,
        run_attempt: 1,
        created_at: on(1, 0),
        updated_at: on(1, 0),
    }
}

fn artifact(id: u64) -> Artifact {
    Artifact {
        id,
        repository: place(),
        name: "package".to_owned(),
        size_in_bytes: 1024,
        created_at: on(1, 0),
        updated_at: on(1, 0),
        expires_at: None,
        expired: false,
        digest: None,
        workflow_run: None,
    }
}

fn snapshot() -> WorkflowRunInventorySnapshot {
    WorkflowRunInventorySnapshot {
        account: account(),
        scope: ScanScope::AllAccessible,
        scanned_at: on(1, 1),
        elapsed_ms: 1,
        repositories: vec![Repository {
            id: 1,
            owner: "example-user".to_owned(),
            name: "project-alpha".to_owned(),
            full_name: PLACE.to_owned(),
            visibility: Visibility::Public,
            default_branch: "main".to_owned(),
            archived: false,
            fork: false,
        }],
        runs: vec![run(7)],
        issues: vec![],
        telemetry: ProviderTelemetry::default(),
    }
}

fn selection() -> RunPurgeSelection {
    RunPurgeSelection {
        mode: RunPurgeSelectionMode::AllCompleted,
        requested_run_ids: vec![],
        older_than_seconds: None,
        workflow: None,
        branch: None,
        event: None,
        conclusion: None,
    }
}

fn plan(targets: Vec<RunPurgeTarget>) -> RunPurgePlan {
    RunPurgePlan::new(&snapshot(), on(1, 2), selection(), targets).unwrap()
}

fn one_target() -> RunPurgePlan {
    plan(vec![RunPurgeTarget::new(run(7), vec![artifact(1), artifact(2)], true)])
}

fn review(state: RunPurgeRevalidationState, error: Option<&str>) -> RunPurgeRevalidationReport {
    RunPurgeRevalidationReport {
        checked_at: on(1, 3),
        account: account(),
        telemetry: ProviderTelemetry::default(),
        items: vec![RunPurgeRevalidationItem {
            repository: PLACE.to_owned(),
            run_id: 7,
            state,
            missing_artifact_ids: vec![1],
            changed_artifact_ids: vec![2, 3],
            unexpected_artifact_ids: vec![4, 5, 6],
            current_run: None,
            error: error.map(str::to_owned),
        }],
    }
}

fn step(state: RunPurgeExecutionState) -> RunPurgeStepResult {
    RunPurgeStepResult { state, error: None }
}

fn purge(run_state: RunPurgeExecutionState) -> RunPurgeExecutionReport {
    RunPurgeExecutionReport {
        started_at: on(1, 3),
        completed_at: on(1, 4),
        account: account(),
        plan_schema_version: 1,
        plan_created_at: on(1, 2),
        plan_scanned_at: on(1, 1),
        scope: ScanScope::AllAccessible,
        selection: selection(),
        authorization: ExecutionAuthorizationKind::InteractiveConfirmation,
        telemetry: ProviderTelemetry::default(),
        items: vec![RunPurgeExecutionItem {
            planned_run: run(7),
            logs: step(RunPurgeExecutionState::Deleted),
            artifacts: vec![
                RunPurgeArtifactResult {
                    planned: artifact(1),
                    state: RunPurgeExecutionState::Deleted,
                    current: None,
                    error: None,
                },
                RunPurgeArtifactResult {
                    planned: artifact(2),
                    state: RunPurgeExecutionState::AlreadyAbsent,
                    current: None,
                    error: None,
                },
            ],
            residual_artifacts: vec![],
            run: step(run_state),
        }],
    }
}

#[test]
fn a_purge_plan_is_described() {
    let head = |runs: usize, artifacts: usize, bytes: &str| {
        vec![
            "Purge plan:           plan.json".to_owned(),
            "Plan schema:          1".to_owned(),
            format!("Runs:                 {runs}"),
            format!("Artifacts:            {artifacts}"),
            format!("Artifact storage:      {bytes}"),
            String::new(),
        ]
    };
    let mut empty = head(0, 0, "0 B");
    empty.push("No completed workflow runs matched the explicit purge selection.".to_owned());
    assert_eq!(describe_run_purge_plan("plan.json", &plan(vec![])), empty);

    let mut full = head(1, 2, "2.00 KiB");
    full.push(format!(
        "{:<14} {:<40} {:<28} {:>7} {:>10} {:>14} BRANCH",
        "RUN ID", "REPOSITORY", "WORKFLOW", "RUN", "ARTIFACTS", "ARTIFACT BYTES"
    ));
    full.push(format!(
        "{:<14} {:<40} {:<28} {:>7} {:>10} {:>14} {}",
        7, PLACE, "Rust CI", "#3.1", 2, "2.00 KiB", "<unknown>"
    ));
    assert_eq!(describe_run_purge_plan("plan.json", &one_target()), full);
}

#[test]
fn a_purge_review_is_described() {
    let report = review(RunPurgeRevalidationState::RevalidationFailed, Some("timeout"));
    assert_eq!(
        describe_run_purge_review("plan.json", &report),
        vec![
            "Plan:                 plan.json".to_owned(),
            "Targets checked:      1".to_owned(),
            "Safe to apply:        no".to_owned(),
            String::new(),
            format!(
                "{:<14} {:<40} {:<22} {:>9} {:>9} {:>10}",
                "RUN ID", "REPOSITORY", "STATE", "MISSING", "CHANGED", "UNEXPECTED"
            ),
            format!(
                "{:<14} {:<40} {:<22} {:>9} {:>9} {:>10}",
                7, PLACE, "revalidationfailed", 1, 2, 3
            ),
            "  -> timeout".to_owned(),
        ]
    );
}

#[test]
fn a_purge_is_described_before_it_happens() {
    let report = review(RunPurgeRevalidationState::Ready, None);
    assert_eq!(
        describe_run_purge("plan.json", &one_target(), &report),
        vec![
            "Plan:                 plan.json".to_owned(),
            "Account:              example-user".to_owned(),
            "Runs:                 1".to_owned(),
            "Artifacts:            2".to_owned(),
            "Artifact storage:      2.00 KiB".to_owned(),
            String::new(),
            format!(
                "{:<14} {:<40} {:<28} {:>10} STATE",
                "RUN ID", "REPOSITORY", "WORKFLOW", "ARTIFACTS"
            ),
            format!("{:<14} {:<40} {:<28} {:>10} {}", 7, PLACE, "Rust CI", 2, "ready"),
        ]
    );
    assert_eq!(
        describe_empty_purge("plan.json"),
        vec![
            "Plan:                 plan.json",
            "Runs:                 0",
            "No workflow-run targets; nothing to purge.",
        ]
    );
}

#[test]
fn a_purge_is_described_when_it_is_done() {
    let mut expected = vec![
        "".to_owned(),
        "Workflow-run purge complete".to_owned(),
        "Runs reviewed:         1".to_owned(),
        "Runs deleted:          1".to_owned(),
        "Run logs deleted:      1".to_owned(),
        "Artifacts deleted:     1".to_owned(),
        "Artifact bytes removed: 1.00 KiB".to_owned(),
        "Audit record:          audit.json".to_owned(),
    ];
    assert_eq!(
        describe_run_purge_execution(&purge(RunPurgeExecutionState::Deleted), "audit.json"),
        expected
    );
    expected[3] = "Runs deleted:          0".to_owned();
    expected.push(String::new());
    expected.push("Purge completed with blocked or failed step(s); inspect the audit record before retrying anything.".to_owned());
    assert_eq!(
        describe_run_purge_execution(&purge(RunPurgeExecutionState::Blocked), "audit.json"),
        expected
    );
}

#[test]
fn a_purge_history_is_described() {
    let records = vec![PurgeRecord {
        recorded_at: on(2, 1),
        execution: purge(RunPurgeExecutionState::Deleted),
    }];
    assert_eq!(
        describe_run_purge_history(&records),
        vec![
            "Workflow-run purge history".to_owned(),
            "Records:               1".to_owned(),
            String::new(),
            format!(
                "{:<20} {:<18} {:>8} {:>10} {:>14} AUTHORIZATION",
                "RECORDED", "ACCOUNT", "RUNS", "DELETED", "ARTIFACT BYTES"
            ),
            format!(
                "{:<20} {:<18} {:>8} {:>10} {:>14} {}",
                "2026-02-02 01:04:05", "example-user", 1, 1, "1.00 KiB", "interactive"
            ),
        ]
    );
}

fn report(warning: Option<u64>) -> MonitoringReport {
    let thresholds = StorageThresholds::new(warning, None).unwrap();
    MonitoringReport {
        account: account(),
        scope: ScanScope::Owner("example-org".to_owned()),
        exclude_repositories: vec![],
        scanned_at: on(1, 1),
        elapsed_ms: 1,
        repository_count: 2,
        artifact_count: 3,
        total_bytes: 2048,
        pressure: thresholds.evaluate(2048),
        issues: vec![ScanIssue { repository: None, message: "slow".to_owned() }],
        telemetry: ProviderTelemetry::default(),
    }
}

#[test]
fn a_sample_is_described() {
    let mut expected = vec![
        "Account:              example-user",
        "Scope:                owner:example-org",
        "Configuration:        config.toml",
        "Check interval:       30m",
        "Repositories:         2",
        "Artifacts:            3",
        "Current storage:      2.00 KiB",
        "Pressure:             warning",
        "Warning threshold:    1.00 KiB",
        "Critical threshold:   unconfigured",
    ];
    assert_eq!(describe_monitoring_report(&report(Some(1024)), "config.toml", true, 30), expected);

    expected[2] = "Configuration:        config.toml (built-in defaults; not persisted)";
    expected[7] = "Pressure:             unconfigured";
    expected[8] = "Warning threshold:    unconfigured";
    expected.push("");
    expected.push("Monitoring thresholds are unconfigured; this status is observational only.");
    assert_eq!(describe_monitoring_report(&report(None), "config.toml", false, 30), expected);
}

#[test]
fn samples_are_described() {
    assert_eq!(describe_monitoring_history(&vec![]), vec!["No monitoring samples found."]);
    let samples = vec![MonitoringSample { recorded_at: on(1, 2), report: report(Some(1024)) }];
    let row = |cells: [&str; 8]| {
        format!(
            "{:<20} {:<24} {:<26} {:<12} {:>6} {:>8} {:>12} {:>6}",
            cells[0], cells[1], cells[2], cells[3], cells[4], cells[5], cells[6], cells[7]
        )
    };
    assert_eq!(
        describe_monitoring_history(&samples),
        vec![
            row(["RECORDED", "SCOPE", "ACCOUNT", "PRESSURE", "REPOS", "ARTIFACTS", "STORAGE", "ISSUES"]),
            row([
                "2026-02-01 02:04:05Z", "owner:example-org", "github:example-user", "warning", "2", "3",
                "2.00 KiB", "1",
            ]),
        ]
    );
}

#[test]
fn what_a_schedule_tells_is_described() {
    let changed = MonitoringSchedulerEvent::Iteration {
        iteration: MonitoringIteration {
            report: report(Some(1024)),
            receipt: "sample.json".to_owned(),
        },
        transition: PressureTransitionEvaluation::Changed {
            transition: PressureTransition {
                from: StoragePressureLevel::Healthy,
                to: StoragePressureLevel::Warning,
                previous_total_bytes: 1,
                current_total_bytes: 2048,
                thresholds_changed: true,
            },
        },
        notification: MonitoringNotificationSignal::EnteredWarning { thresholds_changed: true },
    };
    let line = describe_scheduler_event(&changed);
    assert!(!line.is_error);
    assert_eq!(
        line.text,
        format!(
            "{}  {:<12} {:>12}  {:<28} {:<24} {}",
            "2026-02-01 01:04:05Z",
            "warning",
            "2.00 KiB",
            "healthy->warning;thresholds_changed",
            "entered_warning",
            "sample.json"
        )
    );

    let failed = MonitoringSchedulerEvent::Failure {
        error: MonitoringIterationError::Provider(ProviderError::Transport("offline".to_owned())),
        consecutive_failures: 3,
        retry_after: 90_999_999_999,
        notification: MonitoringNotificationSignal::MonitoringFailure { consecutive_failures: 3 },
    };
    let line = describe_scheduler_event(&failed);
    assert!(line.is_error);
    assert!(line.text.starts_with("monitoring failure #3: "), "{}", line.text);
    assert!(line.text.contains("offline"), "{}", line.text);
    assert!(
        line.text.ends_with("; signal=monitoring_failure; next attempt in 90s"),
        "{}",
        line.text
    );
}

#[test]
fn the_end_of_a_schedule_is_described() {
    let summary = MonitoringSchedulerSummary {
        attempts: 3,
        successes: 2,
        failures: 1,
        stop_reason: MonitoringSchedulerStopReason::AttemptLimitReached,
    };
    assert_eq!(
        describe_scheduler_summary(summary),
        vec![
            "",
            "Monitoring stopped",
            "Attempts:             3",
            "Successful samples:   2",
            "Failures:             1",
            "Reason:               AttemptLimitReached",
        ]
    );
}

#[test]
fn a_schedule_in_the_foreground_is_described() {
    assert_eq!(
        describe_foreground(&ScanScope::AllAccessible, 60, None, "/state", Some(on(1, 1))),
        vec![
            "Foreground monitoring",
            "Scope:                all-accessible",
            "Interval:             60s",
            "Attempt limit:        none (Ctrl-C to stop)",
            "Persistence:          /state",
            "Baseline:             2026-02-01 01:04:05Z",
            "",
        ]
    );
    let limited = describe_foreground(&ScanScope::AllAccessible, 60, Some(4), "/state", None);
    assert_eq!(limited[3], "Attempt limit:        4");
    assert_eq!(limited[5], "Baseline:             none");
}

#[test]
fn what_a_daemon_tells_is_described() {
    let mut status = DaemonStatus::starting(on(1, 1));
    let told = describe_daemon_event(&DaemonEvent::StatusChanged { status: status.clone() }).unwrap();
    assert!(!told.is_error);
    assert_eq!(
        told.text,
        "daemon status state=Starting account=<unresolved> scope=<unresolved> last_monitoring=none next_monitoring=none last_account_usage=none next_account_usage=none cleanup=disabled"
    );
    status.account = Some(account());
    status.scope = Some(ScanScope::Repository(PLACE.to_owned()));
    status.next_monitoring_at = Some(on(1, 2));
    let told = describe_daemon_event(&DaemonEvent::StatusChanged { status }).unwrap();
    assert_eq!(
        told.text,
        "daemon status state=Starting account=github:example-user scope=repo:example-user/project-alpha last_monitoring=none next_monitoring=2026-02-01 02:04:05Z last_account_usage=none next_account_usage=none cleanup=disabled"
    );

    let signal = DaemonEvent::MonitoringSignal {
        occurred_at: on(1, 1),
        signal: MonitoringNotificationSignal::RecoveredToHealthy { thresholds_changed: false },
    };
    assert_eq!(
        describe_daemon_event(&signal).unwrap().text,
        "daemon monitoring signal 2026-02-01 01:04:05Z recovered_to_healthy"
    );

    let error = DaemonEvent::Error { occurred_at: on(1, 1), message: "broken".to_owned() };
    let told = describe_daemon_event(&error).unwrap();
    assert!(told.is_error);
    assert_eq!(told.text, "daemon error 2026-02-01 01:04:05Z broken");

    let cycle = AccountUsagePollingCycle {
        period: BillingPeriod { year: 2026, month: 2 },
        evaluated_at: on(1, 1),
        owners: vec![],
    };
    assert_eq!(describe_daemon_event(&DaemonEvent::AccountUsageCycle { cycle }), None);
}

#[test]
fn a_look_at_usage_is_described() {
    let owner = BillingOwner {
        provider: "github".to_owned(),
        kind: BillingOwnerKind::Organization,
        login: "example-org".to_owned(),
    };
    let period = BillingPeriod { year: 2026, month: 2 };
    let key = UsageQuotaAlertKey {
        owner: owner.clone(),
        resource_id: "minutes".to_owned(),
        period,
        threshold: UsageQuotaThreshold::Critical,
    };
    let poll = AccountUsageOwnerPoll {
        owner: owner.clone(),
        observation: AccountUsageObservation::available(
            owner,
            period,
            on(1, 1),
            AccountUsageSource {
                provider: "github".to_owned(),
                endpoint: "/usage".to_owned(),
                api_version: None,
                public_preview: false,
            },
            vec![],
        ),
        persisted: false,
        persistence_error: Some("disk full".to_owned()),
        evaluations: vec![],
        evaluation_errors: vec![],
        notifications: vec![
            UsageQuotaNotificationOutcome::Delivered { key: key.clone() },
            UsageQuotaNotificationOutcome::SuppressedDuplicate { key: key.clone() },
            UsageQuotaNotificationOutcome::FailClosed {
                key: key.clone(),
                issues: vec!["one".to_owned(), "two".to_owned()],
            },
            UsageQuotaNotificationOutcome::DeliveryFailed { key: key.clone(), message: "lost".to_owned() },
            UsageQuotaNotificationOutcome::ReceiptFailed { key, message: "late".to_owned() },
        ],
    };
    let lines = describe_usage(period, &poll, &vec!["odd".to_owned()]);
    let told: Vec<(bool, &str)> =
        lines.iter().map(|line| (line.is_error, line.text.as_str())).collect();
    assert_eq!(
        told,
        vec![
            (false, "account usage 2026-02 github:organization:example-org state=available persisted=no evaluations=0 notifications=5"),
            (true, "  account usage persistence error: disk full"),
            (true, "  account usage evaluation error: odd"),
            (false, "  quota notification delivered: resource=minutes threshold=Critical"),
            (false, "  quota notification suppressed: resource=minutes threshold=Critical"),
            (true, "  quota notification fail-closed: resource=minutes threshold=Critical; one; two"),
            (true, "  quota notification delivery failed: resource=minutes threshold=Critical; lost"),
            (true, "  quota notification receipt failed after delivery: resource=minutes threshold=Critical; late"),
        ]
    );
}

#[test]
fn an_unsafe_purge_is_refused() {
    assert_eq!(check_run_purge(&review(RunPurgeRevalidationState::Ready, None)), Ok(()));
    assert_eq!(check_run_purge(&review(RunPurgeRevalidationState::AlreadyAbsent, None)), Ok(()));
    assert_eq!(
        check_run_purge(&review(RunPurgeRevalidationState::Changed, None)),
        Err("workflow-run purge plan is not safe to apply; no deletion was attempted".to_owned())
    );
}

#[test]
fn a_new_configuration_is_described() {
    assert_eq!(
        describe_initialized_config("config.toml", Some(1), None),
        vec!["Initialized configuration: config.toml"]
    );
    assert_eq!(describe_initialized_config("config.toml", None, None).len(), 2);
}
