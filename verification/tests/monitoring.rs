//! Storage pressure: thresholds, samples, transitions and the schedule of checks.
use chrono::Utc;
use gh_housekeeper::inventory::{repositories_to_scan, InventoryService, RepositoryScan};
use gh_housekeeper::model::{
    Account, Artifact, InventorySnapshot, ProviderError, ProviderTelemetry, Repository,
    RepositoryRef, ScanIssue, ScanOptions, ScanScope, Visibility, WorkflowRunRef,
};
use gh_housekeeper::monitoring::{
    evaluate_pressure_transition, iteration_error_message, monitoring_report_matches_context, normalized_exclusions,
    monitoring_report_matches_scan_options, notification_signal_for_transition, sample_scan,
    MonitoringIteration, MonitoringIterationError, MonitoringNotificationSignal, MonitoringReport,
    MonitoringRunner, MonitoringSampleSink, MonitoringScheduler, MonitoringSchedulerConfigError,
    MonitoringSchedulerEvent, MonitoringSchedulerStep, MonitoringSchedulerStopReason,
    PressureTransition, PressureTransitionEvaluation, StoragePressureLevel, StoragePressureReport,
    StorageThresholdError, StorageThresholds,
};
use gh_housekeeper::time::Timestamp;
use std::cell::RefCell;

const MILLISECOND: u128 = 1_000_000;
const SECOND: u128 = 1_000_000_000;

fn now() -> Timestamp {
    let time = Utc::now();
    Timestamp::from_unix(time.timestamp(), time.timestamp_subsec_nanos()).unwrap()
}

fn example_account() -> Account {
    Account { provider: "example".to_owned(), login: "example-user".to_owned() }
}

fn repository(id: u64, name: &str) -> Repository {
    Repository {
        id,
        owner: "example-user".to_owned(),
        name: name.to_owned(),
        full_name: format!("example-user/{name}"),
        visibility: Visibility::Private,
        default_branch: "main".to_owned(),
        archived: false,
        fork: false,
    }
}

fn artifact(id: u64, repository: &Repository, bytes: u64) -> Artifact {
    Artifact {
        id,
        repository: RepositoryRef::of(repository),
        name: format!("artifact-{id}"),
        size_in_bytes: bytes,
        created_at: now(),
        updated_at: now(),
        expires_at: None,
        expired: false,
        digest: None,
        workflow_run: Some(WorkflowRunRef {
            id: 100 + id,
            head_branch: Some("main".to_owned()),
            head_sha: None,
            workflow_id: Some(50),
            workflow_name: Some("CI".to_owned()),
        }),
    }
}

fn scan(
    scope: ScanScope,
    contents: Vec<(Repository, Result<Vec<Artifact>, ProviderError>)>,
) -> InventorySnapshot {
    let repositories = contents.iter().map(|(repository, _)| repository.clone()).collect();
    let scans = contents
        .into_iter()
        .map(|(repository, result)| RepositoryScan { repository: repository.full_name, result })
        .collect();
    InventoryService::scan(
        example_account(),
        scope,
        repositories_to_scan(&repositories, &Vec::new()),
        &scans,
        now(),
        1,
        ProviderTelemetry::default(),
    )
}

fn thresholds() -> StorageThresholds {
    StorageThresholds::new(Some(300), Some(400)).unwrap()
}

#[test]
fn check_scans_scope_and_classifies_pressure() {
    let repo = repository(1, "project-alpha");
    let scope = ScanScope::Repository(repo.full_name.clone());
    let contents = vec![artifact(1, &repo, 200), artifact(2, &repo, 150)];
    let snapshot = scan(scope, vec![(repo.clone(), Ok(contents))]);

    let report = sample_scan(Vec::new(), snapshot, thresholds());

    assert_eq!(report.account.login, "example-user");
    assert_eq!(report.scope, ScanScope::Repository(repo.full_name));
    assert_eq!(report.repository_count, 1);
    assert_eq!(report.artifact_count, 2);
    assert_eq!(report.total_bytes, 350);
    assert_eq!(report.pressure.level, StoragePressureLevel::Warning);
    assert!(report.issues.is_empty());
}

#[test]
fn scan_issues_are_preserved_in_monitoring_report() {
    let good = repository(1, "project-alpha");
    let bad = repository(2, "project-beta");
    let snapshot = scan(
        ScanScope::AllAccessible,
        vec![
            (good.clone(), Ok(vec![artifact(1, &good, 100)])),
            (bad, Err(ProviderError::Transport("fixture failure".to_owned()))),
        ],
    );

    let report = sample_scan(Vec::new(), snapshot, thresholds());

    assert_eq!(report.repository_count, 2);
    assert_eq!(report.artifact_count, 1);
    assert_eq!(report.total_bytes, 100);
    assert_eq!(report.pressure.level, StoragePressureLevel::Healthy);
    assert_eq!(report.issues.len(), 1);
    assert_eq!(
        report.issues[0].repository.as_deref(),
        Some("example-user/project-beta")
    );
}

struct FakeSink {
    persisted: RefCell<Vec<MonitoringReport>>,
    fail: bool,
}

impl MonitoringSampleSink for FakeSink {
    type Receipt = usize;
    type Error = String;

    fn persist(&self, report: &MonitoringReport) -> Result<usize, String> {
        if self.fail {
            return Err("fixture persistence failure".to_owned());
        }
        self.persisted.borrow_mut().push(report.clone());
        Ok(self.persisted.borrow().len())
    }
}

fn sink(fail: bool) -> FakeSink {
    FakeSink { persisted: RefCell::new(Vec::new()), fail }
}

fn alpha_scan(bytes: u64) -> InventorySnapshot {
    let repo = repository(1, "project-alpha");
    let contents = vec![artifact(1, &repo, bytes)];
    scan(ScanScope::AllAccessible, vec![(repo, Ok(contents))])
}

#[test]
fn runner_performs_one_check_and_persists_the_report() {
    let runner = MonitoringRunner::new(sink(false));

    let iteration = runner.run(Vec::new(), Ok(alpha_scan(350)), thresholds()).unwrap();

    assert_eq!(iteration.receipt, 1);
    assert_eq!(iteration.report.total_bytes, 350);
    assert_eq!(
        iteration.report.pressure.level,
        StoragePressureLevel::Warning
    );
}

#[test]
fn runner_surfaces_persistence_failure_without_retrying_scan() {
    let runner = MonitoringRunner::new(sink(true));

    let error = runner.run(Vec::new(), Ok(alpha_scan(100)), thresholds()).unwrap_err();

    assert!(matches!(error, MonitoringIterationError::Persistence(_)));
    assert!(iteration_error_message(&error).contains("fixture persistence failure"));
}

#[test]
fn a_failed_scan_is_no_sample() {
    let runner = MonitoringRunner::new(sink(false));
    let failure = ProviderError::NotFound("gone".to_owned());
    let error = runner.run(Vec::new(), Err(failure.clone()), thresholds()).unwrap_err();
    assert!(matches!(error, MonitoringIterationError::Provider(found) if found == failure));
}

fn monitoring_report(
    scope: ScanScope,
    level: StoragePressureLevel,
    total_bytes: u64,
) -> MonitoringReport {
    MonitoringReport {
        account: Account { provider: "github".to_owned(), login: "Example-User".to_owned() },
        scope,
        exclude_repositories: Vec::new(),
        scanned_at: now(),
        elapsed_ms: 10,
        repository_count: 1,
        artifact_count: 1,
        total_bytes,
        pressure: StoragePressureReport {
            total_bytes,
            warning_bytes: Some(300),
            critical_bytes: Some(400),
            bytes_until_warning: Some(300_u64.saturating_sub(total_bytes)),
            bytes_until_critical: Some(400_u64.saturating_sub(total_bytes)),
            level,
        },
        issues: Vec::new(),
        telemetry: ProviderTelemetry::default(),
    }
}

#[test]
fn pressure_transition_requires_compatible_account_and_scope() {
    let previous = monitoring_report(
        ScanScope::Repository("Example-User/Project-Alpha".to_owned()),
        StoragePressureLevel::Healthy,
        200,
    );
    let mut current = monitoring_report(
        ScanScope::Repository("example-user/project-alpha".to_owned()),
        StoragePressureLevel::Warning,
        350,
    );

    assert!(matches!(
        evaluate_pressure_transition(Some(&previous), &current),
        PressureTransitionEvaluation::Changed { .. }
    ));

    current.account.login = "another-user".to_owned();
    assert_eq!(
        evaluate_pressure_transition(Some(&previous), &current),
        PressureTransitionEvaluation::IncompatibleAccount
    );

    current.account.login = "example-user".to_owned();
    current.scope = ScanScope::Repository("example-user/project-beta".to_owned());
    assert_eq!(
        evaluate_pressure_transition(Some(&previous), &current),
        PressureTransitionEvaluation::IncompatibleScope
    );
}

#[test]
fn pressure_transition_treats_exclusions_as_part_of_scope_compatibility() {
    let mut previous =
        monitoring_report(ScanScope::AllAccessible, StoragePressureLevel::Healthy, 200);
    previous.exclude_repositories = vec![
        "Example-User/Project-Beta".to_owned(),
        "example-user/project-gamma".to_owned(),
    ];

    let mut current =
        monitoring_report(ScanScope::AllAccessible, StoragePressureLevel::Warning, 350);
    current.exclude_repositories = vec![
        "EXAMPLE-USER/PROJECT-GAMMA".to_owned(),
        "example-user/project-beta".to_owned(),
    ];

    assert!(matches!(
        evaluate_pressure_transition(Some(&previous), &current),
        PressureTransitionEvaluation::Changed { .. }
    ));

    current
        .exclude_repositories
        .push("example-user/project-delta".to_owned());
    assert_eq!(
        evaluate_pressure_transition(Some(&previous), &current),
        PressureTransitionEvaluation::IncompatibleScope
    );
}

#[test]
fn pressure_transition_refuses_partial_scans() {
    let previous =
        monitoring_report(ScanScope::AllAccessible, StoragePressureLevel::Warning, 350);
    let mut current =
        monitoring_report(ScanScope::AllAccessible, StoragePressureLevel::Healthy, 100);
    current.issues.push(ScanIssue {
        repository: Some("example-user/project-beta".to_owned()),
        message: "fixture failure".to_owned(),
    });

    assert_eq!(
        evaluate_pressure_transition(Some(&previous), &current),
        PressureTransitionEvaluation::IncompleteScan {
            previous_issue_count: 0,
            current_issue_count: 1,
        }
    );
}

#[test]
fn pressure_transition_reports_threshold_changes() {
    let previous =
        monitoring_report(ScanScope::AllAccessible, StoragePressureLevel::Healthy, 250);
    let mut current =
        monitoring_report(ScanScope::AllAccessible, StoragePressureLevel::Warning, 250);
    current.pressure.warning_bytes = Some(200);

    let evaluation = evaluate_pressure_transition(Some(&previous), &current);
    let PressureTransitionEvaluation::Changed { transition } = evaluation else {
        panic!("expected changed pressure transition");
    };

    assert!(transition.thresholds_changed);
    assert_eq!(transition.previous_total_bytes, 250);
    assert_eq!(transition.current_total_bytes, 250);
}

#[test]
fn equal_samples_are_stable() {
    let report = monitoring_report(ScanScope::AllAccessible, StoragePressureLevel::Healthy, 250);
    assert_eq!(
        evaluate_pressure_transition(None, &report),
        PressureTransitionEvaluation::FirstSample
    );
    assert_eq!(
        evaluate_pressure_transition(Some(&report), &report.clone()),
        PressureTransitionEvaluation::Stable { level: StoragePressureLevel::Healthy }
    );
    assert!(monitoring_report_matches_scan_options(&report, &ScanOptions::default()));
}

fn scheduler(interval: u128, failure_delay: u128) -> MonitoringScheduler {
    MonitoringScheduler::new(ScanOptions::default(), thresholds(), interval, failure_delay).unwrap()
}

#[test]
fn scheduler_runs_sequential_bounded_iterations() {
    let scheduler = scheduler(MILLISECOND, MILLISECOND);
    let runner = MonitoringRunner::new(sink(false));
    let mut run = scheduler.run(Some(2));
    let mut events = 0usize;
    let mut account_calls = 0;
    let mut step = run.before_attempt(false);
    let summary = loop {
        match step {
            MonitoringSchedulerStep::Attempt => {
                account_calls += 1;
                let result = runner.run(Vec::new(), Ok(alpha_scan(100)), scheduler.thresholds());
                match result {
                    Ok(iteration) => {
                        let _: MonitoringSchedulerEvent<usize, String> = run.succeeded(iteration);
                    }
                    Err(error) => {
                        let _: MonitoringSchedulerEvent<usize, String> = run.failed(error);
                    }
                }
                events += 1;
                step = run.after_attempt();
            }
            MonitoringSchedulerStep::Sleep { delay } => {
                assert_eq!(delay, MILLISECOND);
                step = run.before_attempt(false);
            }
            MonitoringSchedulerStep::Stop { summary } => break summary,
        }
    };

    assert_eq!(summary.attempts, 2);
    assert_eq!(summary.successes, 2);
    assert_eq!(summary.failures, 0);
    assert_eq!(
        summary.stop_reason,
        MonitoringSchedulerStopReason::AttemptLimitReached
    );
    assert_eq!(events, 2);
    assert_eq!(account_calls, 2);
}

#[test]
fn scheduler_can_be_cancelled_before_first_iteration() {
    let run = scheduler(30 * SECOND, 30 * SECOND).run(None);
    let MonitoringSchedulerStep::Stop { summary } = run.before_attempt(true) else {
        panic!("expected a stop");
    };

    assert_eq!(summary.attempts, 0);
    assert_eq!(
        summary.stop_reason,
        MonitoringSchedulerStopReason::Cancelled
    );
}

#[test]
fn failures_wait_for_their_own_delay() {
    let mut run = scheduler(30 * SECOND, 5 * SECOND).run(None);
    for failures in 1..4 {
        assert_eq!(run.before_attempt(false), MonitoringSchedulerStep::Attempt);
        let event: MonitoringSchedulerEvent<usize, String> =
            run.failed(MonitoringIterationError::Persistence("full".to_owned()));
        let MonitoringSchedulerEvent::Failure { consecutive_failures, retry_after, notification, .. } =
            event
        else {
            panic!("expected a failure");
        };
        assert_eq!(consecutive_failures, failures);
        assert_eq!(retry_after, 5 * SECOND);
        assert_eq!(
            notification,
            MonitoringNotificationSignal::MonitoringFailure { consecutive_failures: failures }
        );
        assert_eq!(
            run.after_attempt(),
            MonitoringSchedulerStep::Sleep { delay: 5 * SECOND }
        );
    }
    let iteration = MonitoringIteration {
        report: monitoring_report(ScanScope::AllAccessible, StoragePressureLevel::Healthy, 1),
        receipt: 1usize,
    };
    let _: MonitoringSchedulerEvent<usize, String> = run.succeeded(iteration);
    assert_eq!(
        run.after_attempt(),
        MonitoringSchedulerStep::Sleep { delay: 30 * SECOND }
    );
    assert_eq!(run.cancelled().attempts, 4);
    assert_eq!(run.cancelled().failures, 3);
}

#[test]
fn normalized_exclusions_stay_as_they_are() {
    let names = ["b/B", "A/a", "B/b", "c"].map(str::to_owned).to_vec();
    let once = normalized_exclusions(&names);
    assert_eq!(once, vec!["a/a", "b/b", "c"]);
    assert_eq!(normalized_exclusions(&once), once);
}

#[test]
fn exclusions_count_without_case_order_and_repeats() {
    let mut report = monitoring_report(
        ScanScope::Repository("example-user/project-alpha".to_owned()),
        StoragePressureLevel::Healthy,
        100,
    );
    let account = Account { provider: "github".to_owned(), login: "example-user".to_owned() };
    let options = |excluded: &[&str]| ScanOptions {
        scope: ScanScope::Repository("example-user/project-alpha".to_owned()),
        exclude_repositories: excluded.iter().map(|name| (*name).to_owned()).collect(),
        concurrency: 16,
    };
    report.exclude_repositories = vec!["b/B".to_owned(), "A/a".to_owned(), "B/b".to_owned()];
    for same in [&["a/a", "b/b"][..], &["B/B", "A/A", "a/a"][..]] {
        assert!(monitoring_report_matches_context(&report, &account, &options(same)));
    }
    for other in [&["a/a"][..], &["a/a", "b/b", "c/c"][..], &[][..]] {
        assert!(!monitoring_report_matches_context(&report, &account, &options(other)));
    }
}

#[test]
fn report_context_matching_includes_account_scope_and_exclusions() {
    let mut report = monitoring_report(
        ScanScope::Repository("Example-User/Project-Alpha".to_owned()),
        StoragePressureLevel::Healthy,
        100,
    );
    report.exclude_repositories = vec!["Example-User/Project-Beta".to_owned()];
    let account = Account {
        provider: "GITHUB".to_owned(),
        login: "example-user".to_owned(),
    };
    let options = ScanOptions {
        scope: ScanScope::Repository("example-user/project-alpha".to_owned()),
        exclude_repositories: vec!["example-user/project-beta".to_owned()],
        concurrency: 16,
    };

    assert!(monitoring_report_matches_context(
        &report, &account, &options
    ));

    let wrong_account = Account {
        provider: "github".to_owned(),
        login: "another-user".to_owned(),
    };
    assert!(!monitoring_report_matches_context(
        &report,
        &wrong_account,
        &options
    ));

    let wrong_scope = ScanOptions {
        scope: ScanScope::Repository("example-user/project-gamma".to_owned()),
        ..options.clone()
    };
    assert!(!monitoring_report_matches_context(
        &report,
        &account,
        &wrong_scope
    ));
}

#[test]
fn notification_signals_cover_pressure_entry_recovery_and_incomplete_scan() {
    let entered_warning = PressureTransitionEvaluation::Changed {
        transition: PressureTransition {
            from: StoragePressureLevel::Healthy,
            to: StoragePressureLevel::Warning,
            previous_total_bytes: 200,
            current_total_bytes: 350,
            thresholds_changed: false,
        },
    };
    assert_eq!(
        notification_signal_for_transition(&entered_warning),
        MonitoringNotificationSignal::EnteredWarning {
            thresholds_changed: false,
        }
    );

    let recovered = PressureTransitionEvaluation::Changed {
        transition: PressureTransition {
            from: StoragePressureLevel::Critical,
            to: StoragePressureLevel::Healthy,
            previous_total_bytes: 500,
            current_total_bytes: 100,
            thresholds_changed: true,
        },
    };
    assert_eq!(
        notification_signal_for_transition(&recovered),
        MonitoringNotificationSignal::RecoveredToHealthy {
            thresholds_changed: true,
        }
    );

    assert_eq!(
        notification_signal_for_transition(&PressureTransitionEvaluation::IncompleteScan {
            previous_issue_count: 0,
            current_issue_count: 1,
        }),
        MonitoringNotificationSignal::MonitoringIncomplete {
            previous_issue_count: 0,
            current_issue_count: 1,
        }
    );
}

#[test]
fn scheduler_uses_compatible_restart_baseline() {
    let mut baseline =
        monitoring_report(ScanScope::AllAccessible, StoragePressureLevel::Healthy, 100);
    baseline.account.provider = "example".to_owned();
    baseline.account.login = "example-user".to_owned();
    let scheduler = scheduler(MILLISECOND, MILLISECOND).with_baseline(baseline).unwrap();
    let runner = MonitoringRunner::new(sink(false));
    let mut run = scheduler.run(Some(1));
    let iteration = runner.run(Vec::new(), Ok(alpha_scan(350)), scheduler.thresholds()).unwrap();
    let event: MonitoringSchedulerEvent<usize, String> = run.succeeded(iteration);
    let MonitoringSchedulerEvent::Iteration { transition, notification, .. } = event else {
        panic!("expected an iteration");
    };

    assert!(matches!(
        transition,
        PressureTransitionEvaluation::Changed { .. }
    ));
    assert_eq!(
        notification,
        MonitoringNotificationSignal::EnteredWarning {
            thresholds_changed: false,
        }
    );
}

#[test]
fn scheduler_rejects_baseline_for_different_scope() {
    let scheduler = MonitoringScheduler::new(
        ScanOptions {
            scope: ScanScope::Repository("example-user/project-alpha".to_owned()),
            exclude_repositories: Vec::new(),
            concurrency: 2,
        },
        StorageThresholds::default(),
        30 * SECOND,
        30 * SECOND,
    )
    .unwrap();
    let baseline = monitoring_report(
        ScanScope::Repository("example-user/project-beta".to_owned()),
        StoragePressureLevel::Healthy,
        100,
    );

    assert!(matches!(
        scheduler.with_baseline(baseline),
        Err(MonitoringSchedulerConfigError::IncompatibleBaselineScope)
    ));
}

#[test]
fn a_schedule_needs_time() {
    for (interval, delay, expected) in [
        (0, 1, MonitoringSchedulerConfigError::ZeroInterval),
        (1, 0, MonitoringSchedulerConfigError::ZeroFailureDelay),
    ] {
        let result =
            MonitoringScheduler::new(ScanOptions::default(), thresholds(), interval, delay);
        assert_eq!(result.unwrap_err(), expected);
    }
}

#[test]
fn no_thresholds_are_explicitly_unconfigured() {
    let report = StorageThresholds::default().evaluate(123);
    assert_eq!(report.level, StoragePressureLevel::Unconfigured);
    assert_eq!(report.bytes_until_warning, None);
    assert_eq!(report.bytes_until_critical, None);
}

#[test]
fn thresholds_classify_healthy_warning_and_critical() {
    let thresholds = StorageThresholds::new(Some(300), Some(400)).unwrap();

    assert_eq!(
        thresholds.evaluate(299).level,
        StoragePressureLevel::Healthy
    );
    assert_eq!(
        thresholds.evaluate(300).level,
        StoragePressureLevel::Warning
    );
    assert_eq!(
        thresholds.evaluate(399).level,
        StoragePressureLevel::Warning
    );
    assert_eq!(
        thresholds.evaluate(400).level,
        StoragePressureLevel::Critical
    );
}

#[test]
fn remaining_bytes_saturate_at_zero() {
    let thresholds = StorageThresholds::new(Some(300), Some(400)).unwrap();
    let report = thresholds.evaluate(450);

    assert_eq!(report.bytes_until_warning, Some(0));
    assert_eq!(report.bytes_until_critical, Some(0));
}

#[test]
fn warning_must_be_below_critical() {
    assert!(matches!(
        StorageThresholds::new(Some(400), Some(400)),
        Err(StorageThresholdError::WarningNotBelowCritical { .. })
    ));
    assert!(matches!(
        StorageThresholds::new(Some(500), Some(400)),
        Err(StorageThresholdError::WarningNotBelowCritical { .. })
    ));
}

#[test]
fn zero_thresholds_are_rejected() {
    assert_eq!(
        StorageThresholds::new(Some(0), None),
        Err(StorageThresholdError::ZeroWarning)
    );
    assert_eq!(
        StorageThresholds::new(None, Some(0)),
        Err(StorageThresholdError::ZeroCritical)
    );
}
