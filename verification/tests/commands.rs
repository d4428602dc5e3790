//! What the commands show and what they let pass.
use chrono::{TimeZone, Utc};
use gh_housekeeper::account_usage::{
    AccountUsageAvailability, AccountUsageUnknownReason, BillingOwnerKind,
};
use gh_housekeeper::execution::{
    ExecutionAuthorizationKind, ExecutionItem, ExecutionReport, ExecutionState,
};
use gh_housekeeper::format::format_age;
use gh_housekeeper::labels::{
    account_usage_availability_label, billing_owner_kind_label, decision_label,
    format_authorization, format_optional_time, format_scope, notification_label, pressure_label,
    repository_flags, stop_reason_label, transition_label, visibility_label,
};
use gh_housekeeper::listing::{
    ask_before_apply, ask_before_run_purge, authorize_apply, authorize_run_purge, check_pattern,
    check_purge_request, filter_runs, history_record_matches_repository, limit_to, list_artifacts,
    list_caches, list_runs, newest_first, run_purge_history_matches_repository, scan_options, scope,
    select_runs_to_purge, ArtifactFilter, ArtifactSort, CacheFilter, CacheSort, PurgeRequest,
    RunFilter, RunSort,
};
use gh_housekeeper::model::{
    Account, ActionsCache, Artifact, ProviderTelemetry, Repository, RepositoryRef, ScanScope,
    Visibility, WorkflowRun, WorkflowRunInventorySnapshot,
};
use gh_housekeeper::monitoring::{
    MonitoringNotificationSignal, MonitoringSchedulerStopReason, PressureTransition,
    PressureTransitionEvaluation, StoragePressureLevel,
};
use gh_housekeeper::policy::engine::Decision;
use gh_housekeeper::run_purge::{RunPurgeSelection, RunPurgeSelectionMode};
use gh_housekeeper::run_purge_flow::RunPurgeExecutionReport;
use gh_housekeeper::time::Timestamp;

fn on(day: u32) -> Timestamp {
    let time = Utc.with_ymd_and_hms(2026, 1, day, 0, 0, 0).unwrap();
    Timestamp::from_unix(time.timestamp(), 0).unwrap()
}

fn repository_ref(full_name: &str) -> RepositoryRef {
    RepositoryRef { id: 1, full_name: full_name.to_owned() }
}

fn artifact(id: u64, full_name: &str, name: &str, bytes: u64, day: u32) -> Artifact {
    Artifact {
        id,
        repository: repository_ref(full_name),
        name: name.to_owned(),
        size_in_bytes: bytes,
        created_at: on(day),
        updated_at: on(day),
        expires_at: None,
        expired: false,
        digest: None,
        workflow_run: None,
    }
}

fn cache(id: u64, key: &str, bytes: u64, created: u32, accessed: u32) -> ActionsCache {
    ActionsCache {
        id,
        repository: repository_ref("example-user/project-alpha"),
        key: key.to_owned(),
        version: "v".to_owned(),
        git_ref: "refs/heads/main".to_owned(),
        created_at: on(created),
        last_accessed_at: on(accessed),
        size_in_bytes: bytes,
    }
}

fn run(id: u64, workflow: &str, branch: &str, status: &str, day: u32) -> WorkflowRun {
    WorkflowRun {
        id,
        repository: repository_ref("example-user/project-alpha"),
        workflow_id: 10,
        workflow_name: Some(workflow.to_owned()),
        display_title: "title".to_owned(),
        event: "push".to_owned(),
        status: status.to_owned(),
        conclusion: if status == "completed" { Some("success".to_owned()) } else { None },
        head_branch: Some(branch.to_owned()),
        head_sha: "sha".to_owned(),
        run_number: id,
        run_attempt: 1,
        created_at: on(day),
        updated_at: on(day),
    }
}

fn all_runs() -> RunFilter {
    RunFilter {
        workflow: None,
        branch: None,
        event: None,
        status: None,
        conclusion: None,
        completed_only: false,
        older_than: None,
    }
}

#[test]
fn decision_labels_are_stable() {
    assert_eq!(decision_label(Decision::Keep), "keep");
    assert_eq!(decision_label(Decision::Delete), "delete");
    assert_eq!(decision_label(Decision::Protected), "protected");
    assert_eq!(decision_label(Decision::ManualReview), "manual_review");
}

#[test]
fn formats_age_for_human_cli_output() {
    assert_eq!(format_age(45), "45s");
    assert_eq!(format_age(90), "1m");
    assert_eq!(format_age(7_200), "2h");
    assert_eq!(format_age(172_800), "2d");
}

#[test]
fn yes_creates_explicit_automation_authorization() {
    let authorization = authorize_apply(true, false, None).unwrap();
    assert_eq!(
        authorization.kind(),
        ExecutionAuthorizationKind::AutomationYes
    );
}

#[test]
fn non_interactive_apply_without_yes_is_rejected() {
    let error = authorize_apply(false, false, None).unwrap_err();
    assert!(error.contains("--yes"));
}

#[test]
fn interactive_apply_requires_exact_delete_confirmation() {
    let authorization = authorize_apply(false, true, Some("delete\n")).unwrap();
    assert_eq!(
        authorization.kind(),
        ExecutionAuthorizationKind::InteractiveConfirmation
    );

    assert!(authorize_apply(false, true, Some("yes\n")).is_err());
    assert!(authorize_apply(false, true, Some("DELETE\n")).is_err());
    assert!(authorize_apply(false, true, Some("\n")).is_err());
}

#[test]
fn a_run_purge_asks_for_its_own_word() {
    assert_eq!(
        authorize_run_purge(true, false, None).unwrap().kind(),
        ExecutionAuthorizationKind::AutomationYes
    );
    assert!(authorize_run_purge(false, false, None).is_err());
    assert!(authorize_run_purge(false, true, None).is_err());
    assert!(authorize_run_purge(false, true, Some("yes")).is_err());
}

#[test]
fn history_repository_filter_is_case_insensitive() {
    let record = ExecutionReport {
        started_at: on(1),
        completed_at: on(1),
        account: Account { provider: "github".to_owned(), login: "example-user".to_owned() },
        plan_created_at: on(1),
        plan_scanned_at: on(1),
        policy_hash: "fnv1a64:test".to_owned(),
        authorization: ExecutionAuthorizationKind::InteractiveConfirmation,
        telemetry: ProviderTelemetry::default(),
        items: vec![ExecutionItem {
            artifact_id: 1,
            repository: "Example-User/Project-Alpha".to_owned(),
            artifact_name: "artifact-1".to_owned(),
            planned_size_in_bytes: 100,
            state: ExecutionState::Deleted,
            changed_fields: Vec::new(),
            current: None,
            error: None,
        }],
    };

    assert!(history_record_matches_repository(
        &record,
        Some("example-user/project-alpha")
    ));
    assert!(!history_record_matches_repository(
        &record,
        Some("example-user/project-beta")
    ));
    assert!(history_record_matches_repository(&record, None));
}

#[test]
fn an_empty_purge_matches_no_repository() {
    let record = RunPurgeExecutionReport {
        started_at: on(1),
        completed_at: on(1),
        account: Account { provider: "github".to_owned(), login: "example-user".to_owned() },
        plan_schema_version: 1,
        plan_created_at: on(1),
        plan_scanned_at: on(1),
        scope: ScanScope::AllAccessible,
        selection: RunPurgeSelection {
            mode: RunPurgeSelectionMode::AllCompleted,
            requested_run_ids: Vec::new(),
            older_than_seconds: None,
            workflow: None,
            branch: None,
            event: None,
            conclusion: None,
        },
        authorization: ExecutionAuthorizationKind::AutomationYes,
        telemetry: ProviderTelemetry::default(),
        items: Vec::new(),
    };
    assert!(run_purge_history_matches_repository(&record, None));
    assert!(!run_purge_history_matches_repository(&record, Some("a/b")));
}

#[test]
fn monitoring_pressure_labels_are_stable() {
    assert_eq!(
        pressure_label(StoragePressureLevel::Unconfigured),
        "unconfigured"
    );
    assert_eq!(pressure_label(StoragePressureLevel::Healthy), "healthy");
    assert_eq!(pressure_label(StoragePressureLevel::Warning), "warning");
    assert_eq!(pressure_label(StoragePressureLevel::Critical), "critical");
}

#[test]
fn scope_labels_are_repository_agnostic() {
    assert_eq!(format_scope(&ScanScope::AllAccessible), "all-accessible");
    assert_eq!(
        format_scope(&ScanScope::Owner("example-user".to_owned())),
        "owner:example-user"
    );
    assert_eq!(
        format_scope(&ScanScope::Repository(
            "example-user/project-alpha".to_owned()
        )),
        "repo:example-user/project-alpha"
    );
}

#[test]
fn zero_monitor_history_limit_means_all_samples() {
    let values = vec![1, 2, 3];
    let limit = 0usize;
    assert_eq!(limit_to(values, limit), vec![1, 2, 3]);
    assert_eq!(limit_to(vec![1, 2, 3], 2), vec![1, 2]);
    assert_eq!(newest_first(vec![1, 2, 3], 2), vec![3, 2]);
    assert_eq!(newest_first(vec![1, 2, 3], 0), vec![3, 2, 1]);
}

#[test]
fn transition_labels_are_stable_for_foreground_output() {
    assert_eq!(
        transition_label(&PressureTransitionEvaluation::FirstSample),
        "first_sample"
    );
    assert_eq!(
        transition_label(&PressureTransitionEvaluation::Stable {
            level: StoragePressureLevel::Healthy,
        }),
        "stable:healthy"
    );
    assert_eq!(
        transition_label(&PressureTransitionEvaluation::Changed {
            transition: PressureTransition {
                from: StoragePressureLevel::Healthy,
                to: StoragePressureLevel::Warning,
                previous_total_bytes: 100,
                current_total_bytes: 300,
                thresholds_changed: false,
            },
        }),
        "healthy->warning"
    );
}

#[test]
fn authorization_labels_are_stable_for_history_output() {
    assert_eq!(
        format_authorization(ExecutionAuthorizationKind::InteractiveConfirmation),
        "interactive"
    );
    assert_eq!(
        format_authorization(ExecutionAuthorizationKind::AutomationYes),
        "automation"
    );
}

#[test]
fn other_labels_are_words() {
    assert_eq!(billing_owner_kind_label(BillingOwnerKind::User), "user");
    assert_eq!(billing_owner_kind_label(BillingOwnerKind::Organization), "organization");
    assert_eq!(account_usage_availability_label(&AccountUsageAvailability::Available), "available");
    assert_eq!(
        account_usage_availability_label(&AccountUsageAvailability::Unknown {
            reason: AccountUsageUnknownReason::Transport,
            message: String::new(),
        }),
        "unknown"
    );
    assert_eq!(AccountUsageUnknownReason::RateLimited.as_str(), "RateLimited");
    assert_eq!(visibility_label(Visibility::Internal), "internal");
    assert_eq!(format_optional_time(None), "none");
    assert_eq!(format_optional_time(Some(on(2))), "2026-01-02 00:00:00Z");
    assert_eq!(stop_reason_label(MonitoringSchedulerStopReason::Cancelled), "Cancelled");
    assert_ne!(
        notification_label(MonitoringNotificationSignal::NoNotification),
        notification_label(MonitoringNotificationSignal::EnteredWarning {
            thresholds_changed: false
        })
    );
    let mut repository = Repository {
        id: 1,
        owner: "a".to_owned(),
        name: "b".to_owned(),
        full_name: "a/b".to_owned(),
        visibility: Visibility::Public,
        default_branch: "main".to_owned(),
        archived: false,
        fork: false,
    };
    let plain = repository_flags(&repository);
    repository.archived = true;
    assert_ne!(repository_flags(&repository), plain);
}

#[test]
fn a_repository_is_a_narrower_scope_than_an_owner() {
    assert_eq!(scope(None, None), ScanScope::AllAccessible);
    assert_eq!(scope(Some("o"), None), ScanScope::Owner("o".to_owned()));
    assert_eq!(scope(None, Some("o/r")), ScanScope::Repository("o/r".to_owned()));
    let options = scan_options(None, Some("o/r"), vec!["o/x".to_owned()], 4);
    assert_eq!(options.concurrency, 4);
    assert_eq!(options.exclude_repositories, vec!["o/x".to_owned()]);
}

#[test]
fn artifacts_are_filtered_and_sorted() {
    let artifacts = vec![
        artifact(1, "o/b", "nightly-1", 100, 1),
        artifact(2, "o/a", "nightly-2", 300, 3),
        artifact(3, "o/c", "release", 200, 2),
    ];
    let everything = ArtifactFilter { name: None, older_than: None };
    let ids = |by_what: ArtifactSort, filter: &ArtifactFilter| {
        list_artifacts(&artifacts, filter, by_what, on(5))
            .iter()
            .map(|artifact| artifact.id)
            .collect::<Vec<_>>()
    };
    assert_eq!(ids(ArtifactSort::Size, &everything), vec![2, 3, 1]);
    assert_eq!(ids(ArtifactSort::Age, &everything), vec![1, 3, 2]);
    assert_eq!(ids(ArtifactSort::Name, &everything), vec![1, 2, 3]);
    assert_eq!(ids(ArtifactSort::Repository, &everything), vec![2, 1, 3]);
    let nightly = ArtifactFilter { name: Some("nightly-*".to_owned()), older_than: None };
    assert_eq!(ids(ArtifactSort::Size, &nightly), vec![2, 1]);
    let old = ArtifactFilter { name: None, older_than: Some(3 * 86_400) };
    assert_eq!(ids(ArtifactSort::Size, &old), vec![3, 1]);
}

#[test]
fn caches_are_filtered_and_sorted() {
    let caches = vec![cache(1, "linux-a", 100, 1, 4), cache(2, "mac-b", 300, 2, 3)];
    let everything = CacheFilter { key: None, git_ref: None, older_than: None, unused_for: None };
    let ids = |by_what: CacheSort, filter: &CacheFilter| {
        list_caches(&caches, filter, by_what, on(5))
            .iter()
            .map(|cache| cache.id)
            .collect::<Vec<_>>()
    };
    assert_eq!(ids(CacheSort::Size, &everything), vec![2, 1]);
    assert_eq!(ids(CacheSort::Created, &everything), vec![1, 2]);
    assert_eq!(ids(CacheSort::LastAccessed, &everything), vec![2, 1]);
    assert_eq!(ids(CacheSort::Key, &everything), vec![1, 2]);
    let unused = CacheFilter {
        key: None,
        git_ref: None,
        older_than: None,
        unused_for: Some(2 * 86_400),
    };
    assert_eq!(ids(CacheSort::Size, &unused), vec![2]);
    let linux = CacheFilter {
        key: Some("linux-*".to_owned()),
        git_ref: Some("refs/heads/*".to_owned()),
        older_than: None,
        unused_for: None,
    };
    assert_eq!(ids(CacheSort::Size, &linux), vec![1]);
}

#[test]
fn runs_are_filtered_and_sorted() {
    let runs = vec![
        run(1, "CI", "main", "completed", 1),
        run(2, "Docs", "dev", "in_progress", 2),
        run(3, "CI", "dev", "completed", 3),
    ];
    let mut completed = all_runs();
    completed.completed_only = true;
    completed.workflow = Some("C*".to_owned());
    let listed = list_runs(&runs, &completed, RunSort::Age, on(5));
    assert_eq!(listed.iter().map(|run| run.id).collect::<Vec<_>>(), vec![1, 3]);
    let by_workflow = list_runs(&runs, &all_runs(), RunSort::Workflow, on(5));
    assert_eq!(by_workflow[2].id, 2);
    let mut active = all_runs();
    active.status = Some("IN_PROGRESS".to_owned());
    assert_eq!(filter_runs(&runs, &active, on(5)).len(), 1);
}

#[test]
fn broken_patterns_are_named() {
    assert_eq!(check_pattern(&None, "name"), Ok(()));
    assert_eq!(check_pattern(&Some("a*".to_owned()), "name"), Ok(()));
    assert!(check_pattern(&Some("[".to_owned()), "name").is_err());
}

fn request() -> PurgeRequest {
    PurgeRequest {
        run_ids: Vec::new(),
        all_completed: false,
        older_than: None,
        workflow: None,
        branch: None,
        event: None,
        conclusion: None,
    }
}

fn run_snapshot() -> WorkflowRunInventorySnapshot {
    WorkflowRunInventorySnapshot {
        account: Account { provider: "github".to_owned(), login: "example-user".to_owned() },
        scope: ScanScope::AllAccessible,
        scanned_at: on(5),
        elapsed_ms: 1,
        repositories: Vec::new(),
        runs: vec![
            run(1, "CI", "main", "completed", 1),
            run(2, "CI", "main", "in_progress", 2),
            run(3, "CI", "dev", "completed", 3),
        ],
        issues: Vec::new(),
        telemetry: ProviderTelemetry::default(),
    }
}

#[test]
fn a_purge_names_runs_or_takes_all_completed_ones() {
    assert!(check_purge_request(&request()).is_err());
    let mut both = request();
    both.run_ids = vec![1];
    both.all_completed = true;
    assert!(check_purge_request(&both).is_err());
    let mut all = request();
    all.all_completed = true;
    assert_eq!(check_purge_request(&all), Ok(()));
    let (chosen, selection) = select_runs_to_purge(&all, &run_snapshot(), on(5)).unwrap();
    assert_eq!(chosen.iter().map(|run| run.id).collect::<Vec<_>>(), vec![1, 3]);
    assert_eq!(selection.mode, RunPurgeSelectionMode::AllCompleted);
    all.branch = Some("dev".to_owned());
    let (narrowed, _) = select_runs_to_purge(&all, &run_snapshot(), on(5)).unwrap();
    assert_eq!(narrowed.iter().map(|run| run.id).collect::<Vec<_>>(), vec![3]);
}

#[test]
fn named_runs_must_be_known_and_completed() {
    let mut named = request();
    named.run_ids = vec![3];
    let (chosen, selection) = select_runs_to_purge(&named, &run_snapshot(), on(5)).unwrap();
    assert_eq!(chosen.len(), 1);
    assert_eq!(selection.mode, RunPurgeSelectionMode::ExplicitRunIds);
    assert_eq!(selection.requested_run_ids, vec![3]);
    named.run_ids = vec![9];
    assert!(select_runs_to_purge(&named, &run_snapshot(), on(5)).is_err());
    named.run_ids = vec![2];
    assert!(select_runs_to_purge(&named, &run_snapshot(), on(5)).is_err());
}

#[test]
fn a_question_needs_a_terminal() {
    assert_eq!(ask_before_apply(true, false), Ok(None));
    assert_eq!(
        ask_before_apply(false, true),
        Ok(Some("Type 'delete' to apply this exact cleanup plan: ".to_owned()))
    );
    assert!(ask_before_apply(false, false).unwrap_err().contains("destructive apply"));

    assert_eq!(ask_before_run_purge(true, true), Ok(None));
    assert_eq!(
        ask_before_run_purge(false, true),
        Ok(Some(
            "Type 'purge' to remove the reviewed logs, artifacts, and workflow runs: ".to_owned()
        ))
    );
    assert!(ask_before_run_purge(false, false).unwrap_err().contains("destructive purge"));
}
