//! The lines that are printed.
use chrono::{TimeZone, Utc};
use gh_housekeeper::account_usage::{BillingOwner, BillingOwnerKind, BillingPeriod};
use gh_housekeeper::allowance::{UsageQuotaAlertKey, UsageQuotaThreshold};
use gh_housekeeper::cleanup::{CleanupPlan, CleanupPlanSummary, CleanupTarget, PlanReason};
use gh_housekeeper::execution::{
    ExecutionAuthorizationKind, ExecutionItem, ExecutionReport, ExecutionState,
};
use gh_housekeeper::inventory::CacheStorageBucket;
use gh_housekeeper::listing::{temporary_file_name, TEMPORARY_FILES};
use gh_housekeeper::model::{
    Account, ActionsCache, Artifact, CacheInventorySnapshot, InventorySnapshot, ProviderTelemetry,
    Repository, RepositoryRef, ScanIssue, ScanScope, Visibility, WorkflowRun, WorkflowRunRef,
};
use gh_housekeeper::policy::cache_engine::{CacheClassificationReport, CacheDecision};
use gh_housekeeper::policy::engine::{Decision, DecisionReason, ReasonCode};
use gh_housekeeper::report::cleanup::{
    check_apply, describe_apply, describe_cleanup_plan, describe_empty_plan, describe_execution,
    describe_history, describe_revalidation, ExecutionRecord,
};
use gh_housekeeper::report::inventory::{
    describe_artifacts, describe_buckets, describe_cache_classification, describe_cache_groups,
    describe_caches, describe_repositories, describe_runs, describe_scan, describe_statistics,
};
use gh_housekeeper::report::service::describe_alert;
use gh_housekeeper::report::{describe_read_issues, describe_scan_issues, ReadIssue, Records};
use gh_housekeeper::revalidation::{
    ArtifactField, RevalidationItem, RevalidationReport, RevalidationState,
};
use gh_housekeeper::table::{to_left, to_right};
use gh_housekeeper::text::large_number;
use gh_housekeeper::time::Timestamp;

fn on(month: u32, day: u32, hour: u32) -> Timestamp {
    let at = Utc.with_ymd_and_hms(2026, month, day, hour, 4, 5).unwrap();
    Timestamp::from_unix(at.timestamp(), 0).unwrap()
}

fn account() -> Account {
    Account { provider: "github".to_owned(), login: "example-user".to_owned() }
}

fn place() -> RepositoryRef {
    RepositoryRef { id: 1, full_name: "example-user/project-alpha".to_owned() }
}

fn artifact(id: u64, bytes: u64) -> Artifact {
    Artifact {
        id,
        repository: place(),
        name: "package".to_owned(),
        size_in_bytes: bytes,
        created_at: on(1, 1, 0),
        updated_at: on(1, 1, 0),
        expires_at: None,
        expired: false,
        digest: None,
        workflow_run: None,
    }
}

fn repository() -> Repository {
    Repository {
        id: 1,
        owner: "example-user".to_owned(),
        name: "project-alpha".to_owned(),
        full_name: "example-user/project-alpha".to_owned(),
        visibility: Visibility::Internal,
        default_branch: "main".to_owned(),
        archived: true,
        fork: true,
    }
}

fn cache(id: u64, bytes: u64) -> ActionsCache {
    ActionsCache {
        id,
        repository: place(),
        key: "linux".to_owned(),
        version: "v".to_owned(),
        git_ref: "refs/heads/main".to_owned(),
        created_at: on(1, 1, 0),
        last_accessed_at: on(1, 2, 0),
        size_in_bytes: bytes,
    }
}

fn telemetry(remaining: Option<u64>) -> ProviderTelemetry {
    ProviderTelemetry { api_requests: 7, rate_limit_remaining: remaining }
}

fn snapshot(issues: Vec<ScanIssue>) -> InventorySnapshot {
    InventorySnapshot {
        account: account(),
        scope: ScanScope::AllAccessible,
        scanned_at: on(2, 1, 0),
        elapsed_ms: 1234,
        repositories: vec![repository()],
        artifacts: vec![artifact(11, 1024), artifact(12, 512)],
        issues,
        telemetry: telemetry(None),
    }
}

fn issue(repository: Option<&str>) -> ScanIssue {
    ScanIssue { repository: repository.map(str::to_owned), message: "went wrong".to_owned() }
}

fn reason(code: &str, rule: Option<&str>) -> PlanReason {
    PlanReason::new(code, rule.map(str::to_owned), "because")
}

fn plan(targets: Vec<CleanupTarget>) -> CleanupPlan {
    let count = targets.len();
    let summary = CleanupPlanSummary::new(2, 1536, 2 - count, 0, 0, count, 1024 * count as u64);
    CleanupPlan::new(&snapshot(vec![]), on(2, 1, 1), "hash".to_owned(), summary, targets).unwrap()
}

fn one_target() -> CleanupPlan {
    plan(vec![CleanupTarget::new(
        artifact(11, 1024),
        vec![reason("rule_retention_expired", Some("old")), reason("default_retention_expired", None)],
    )])
}

fn item(state: RevalidationState, fields: Vec<ArtifactField>, error: Option<&str>) -> RevalidationItem {
    RevalidationItem {
        artifact_id: 11,
        repository: "example-user/project-alpha".to_owned(),
        state,
        changed_fields: fields,
        current: None,
        error: error.map(str::to_owned),
    }
}

fn review(items: Vec<RevalidationItem>) -> RevalidationReport {
    RevalidationReport {
        checked_at: on(2, 1, 2),
        plan_created_at: on(2, 1, 1),
        plan_scanned_at: on(2, 1, 0),
        policy_hash: "hash".to_owned(),
        telemetry: telemetry(None),
        items,
    }
}

fn execution(states: Vec<ExecutionState>) -> ExecutionReport {
    ExecutionReport {
        started_at: on(2, 1, 2),
        completed_at: on(2, 1, 3),
        account: account(),
        plan_created_at: on(2, 1, 1),
        plan_scanned_at: on(2, 1, 0),
        policy_hash: "hash".to_owned(),
        authorization: ExecutionAuthorizationKind::AutomationYes,
        telemetry: telemetry(None),
        items: states
            .into_iter()
            .map(|state| ExecutionItem {
                artifact_id: 11,
                repository: "example-user/project-alpha".to_owned(),
                artifact_name: "package".to_owned(),
                planned_size_in_bytes: 1024,
                state,
                changed_fields: vec![],
                current: None,
                error: None,
            })
            .collect(),
    }
}

#[test]
fn cells_are_filled_up_with_spaces() {
    assert_eq!(to_left("ab", 5), format!("{:<5}", "ab"));
    assert_eq!(to_right("ab", 5), format!("{:>5}", "ab"));
    assert_eq!(to_left("abcdef", 5), "abcdef");
    assert_eq!(to_right("äöü", 5), format!("{:>5}", "äöü"));
    assert_eq!(to_left("", 0), "");
}

#[test]
fn large_numbers_are_written_in_full() {
    assert_eq!(large_number(0), "0");
    assert_eq!(large_number(u128::MAX), u128::MAX.to_string());
}

#[test]
fn times_are_written_to_the_second_or_the_minute() {
    let at = on(2, 1, 3);
    assert_eq!(at.describe(), "2026-02-01 03:04:05Z");
    assert_eq!(at.describe_plainly(), "2026-02-01 03:04:05");
    assert_eq!(at.describe_minute(), "2026-02-01 03:04");
}

#[test]
fn temporary_files_are_limited() {
    assert_eq!(temporary_file_name("plan.json", 42, 0).unwrap(), ".plan.json.42.0.tmp");
    assert_eq!(temporary_file_name("plan.json", 42, 999).unwrap(), ".plan.json.42.999.tmp");
    assert_eq!(temporary_file_name("plan.json", 42, TEMPORARY_FILES), None);
}

#[test]
fn issues_are_told_after_an_empty_line() {
    assert!(describe_scan_issues(&vec![]).is_empty());
    assert_eq!(
        describe_scan_issues(&vec![issue(None), issue(Some("a/b"))]),
        vec!["", "Scan completed with 2 issue(s):", "- <account>: went wrong", "- a/b: went wrong"]
    );
}

#[test]
fn unreadable_records_are_told() {
    let issues = vec![ReadIssue { path: "x.json".to_owned(), message: "broken".to_owned() }];
    assert!(describe_read_issues(Records::Samples, &vec![]).is_empty());
    assert_eq!(
        describe_read_issues(Records::Samples, &issues),
        vec!["", "Monitoring history contains 1 unreadable sample(s):", "- x.json: broken"]
    );
    assert_eq!(
        describe_read_issues(Records::Executions, &issues),
        vec!["", "Audit history contains 1 unreadable record(s):", "- x.json: broken"]
    );
    assert_eq!(
        describe_read_issues(Records::Purges, &issues),
        vec!["", "Audit read issues:", "  x.json: broken"]
    );
}

#[test]
fn a_scan_is_described() {
    let snapshot = snapshot(vec![issue(None)]);
    let buckets = snapshot.aggregate_by_repository();
    assert_eq!(
        describe_scan(&snapshot, &buckets, "1.23"),
        vec![
            "Account:          example-user".to_owned(),
            "Repositories:     1".to_owned(),
            "Artifacts:        2".to_owned(),
            "Current storage:  1.50 KiB".to_owned(),
            "API requests:     7".to_owned(),
            "Rate remaining:   unknown".to_owned(),
            "Elapsed:          1.23s".to_owned(),
            "Scan issues:      1".to_owned(),
            String::new(),
            "Largest repositories".to_owned(),
            format!("{:<56} {:>10} {:>14}", "GROUP", "ARTIFACTS", "STORAGE"),
            format!("{:<56} {:>10} {:>14}", "example-user/project-alpha", 2, "1.50 KiB"),
        ]
    );
    assert_eq!(
        describe_statistics(&snapshot, &buckets),
        vec![
            "Artifacts: 2".to_owned(),
            "Storage:   1.50 KiB".to_owned(),
            String::new(),
            format!("{:<56} {:>10} {:>14}", "GROUP", "ARTIFACTS", "STORAGE"),
            format!("{:<56} {:>10} {:>14}", "example-user/project-alpha", 2, "1.50 KiB"),
        ]
    );
    assert_eq!(describe_buckets(&buckets, Some(0)).len(), 1);
}

#[test]
fn repositories_are_described() {
    assert_eq!(
        describe_repositories(&account(), &vec![repository()]),
        vec![
            "Account: example-user".to_owned(),
            String::new(),
            format!("{:<48} {:<10} {:<18} FLAGS", "REPOSITORY", "VISIBILITY", "DEFAULT BRANCH"),
            format!(
                "{:<48} {:<10} {:<18} {}",
                "example-user/project-alpha", "internal", "main", "archived,fork"
            ),
        ]
    );
}

#[test]
fn artifacts_are_described() {
    let mut shown = artifact(11, 1024);
    shown.expires_at = Some(on(3, 1, 7));
    shown.workflow_run = Some(WorkflowRunRef {
        id: 5,
        head_branch: Some("main".to_owned()),
        head_sha: None,
        workflow_id: None,
        workflow_name: None,
    });
    assert_eq!(
        describe_artifacts(&vec![shown, artifact(12, 0)], on(1, 3, 0)),
        vec![
            format!(
                "{:<12} {:<40} {:<34} {:>12} {:>9} {:<20} BRANCH",
                "ID", "REPOSITORY", "ARTIFACT", "SIZE", "AGE", "EXPIRES"
            ),
            format!(
                "{:<12} {:<40} {:<34} {:>12} {:>9} {:<20} {}",
                11, "example-user/project-alpha", "package", "1.00 KiB", "2d", "2026-03-01 07:04", "main"
            ),
            format!(
                "{:<12} {:<40} {:<34} {:>12} {:>9} {:<20} {}",
                12, "example-user/project-alpha", "package", "0 B", "2d", "unknown", "<unknown>"
            ),
        ]
    );
}

#[test]
fn runs_are_described() {
    let run = WorkflowRun {
        id: 7001,
        repository: place(),
        workflow_id: 100,
        workflow_name: None,
        display_title: "run".to_owned(),
        event: "push".to_owned(),
        status: "queued".to_owned(),
        conclusion: None,
        head_branch: Some("main".to_owned()),
        head_sha: "abc".to_owned(),
        run_number: 10,
        run_attempt: 2,
        created_at: on(1, 1, 0),
        updated_at: on(1, 1, 0),
    };
    assert_eq!(
        describe_runs(&vec![run], on(1, 1, 5)),
        vec![
            "Workflow runs: 1".to_owned(),
            String::new(),
            format!(
                "{:<14} {:<40} {:<28} {:>7} {:<16} {:<14} {:>8} BRANCH",
                "ID", "REPOSITORY", "WORKFLOW", "RUN", "STATUS", "CONCLUSION", "AGE"
            ),
            format!(
                "{:<14} {:<40} {:<28} {:>7} {:<16} {:<14} {:>8} {}",
                7001, "example-user/project-alpha", "<unknown>", "#10.2", "queued", "-", "5h", "main"
            ),
        ]
    );
}

#[test]
fn caches_are_described_one_by_one_or_in_groups() {
    let caches = vec![cache(5, 2048)];
    assert_eq!(
        describe_caches(&caches, on(1, 4, 0)),
        vec![
            "Caches:  1".to_owned(),
            "Storage: 2.00 KiB".to_owned(),
            String::new(),
            format!(
                "{:<12} {:<40} {:<30} {:>12} {:>9} {:>9} REF",
                "ID", "REPOSITORY", "KEY", "SIZE", "AGE", "UNUSED"
            ),
            format!(
                "{:<12} {:<40} {:<30} {:>12} {:>9} {:>9} {}",
                5, "example-user/project-alpha", "linux", "2.00 KiB", "3d", "2d", "refs/heads/main"
            ),
        ]
    );
    let groups = vec![CacheStorageBucket { key: "linux".to_owned(), cache_count: 1, bytes: 2048 }];
    assert_eq!(
        describe_cache_groups(&caches, &groups),
        vec![
            "Caches:  1".to_owned(),
            "Storage: 2.00 KiB".to_owned(),
            String::new(),
            format!("{:<48} {:>10} {:>14}", "GROUP", "CACHES", "STORAGE"),
            format!("{:<48} {:>10} {:>14}", "linux", 1, "2.00 KiB"),
        ]
    );
}

#[test]
fn a_cache_classification_is_described() {
    let snapshot = CacheInventorySnapshot {
        account: account(),
        scope: ScanScope::AllAccessible,
        scanned_at: on(2, 1, 0),
        elapsed_ms: 1,
        repositories: vec![repository()],
        caches: vec![cache(5, 2048)],
        issues: vec![],
        telemetry: telemetry(None),
    };
    let report = CacheClassificationReport {
        scanned_at: on(2, 1, 0),
        decisions: vec![CacheDecision {
            cache_id: 5,
            repository: "example-user/project-alpha".to_owned(),
            key: "linux".to_owned(),
            git_ref: "refs/heads/main".to_owned(),
            size_in_bytes: 2048,
            decision: Decision::Delete,
            effective_keep_days: Some(30),
            effective_keep_unused_days: None,
            reasons: vec![DecisionReason {
                code: ReasonCode::DefaultRetentionExpired,
                rule_id: None,
                explanation: "old".to_owned(),
            }],
        }],
    };
    let mut expected = vec![
        "Policy:              policy.toml".to_owned(),
        "Policy hash:         hash".to_owned(),
        "Caches scanned:      1".to_owned(),
        "Current storage:     2.00 KiB".to_owned(),
        "Keep:                0".to_owned(),
        "Protected:           0".to_owned(),
        "Manual review:       0".to_owned(),
        "Delete candidate:    1".to_owned(),
        "Potential recovery:  2.00 KiB".to_owned(),
        String::new(),
        format!(
            "{:<12} {:<40} {:<30} {:>12} {:<15} REF",
            "ID", "REPOSITORY", "KEY", "SIZE", "DECISION"
        ),
        format!(
            "{:<12} {:<40} {:<30} {:>12} {:<15} {}",
            5, "example-user/project-alpha", "linux", "2.00 KiB", "delete", "refs/heads/main"
        ),
    ];
    assert_eq!(
        describe_cache_classification("policy.toml", "hash", &snapshot, &report, false),
        expected
    );
    expected.push("  -> default_retention_expired [rule: <default>]: old".to_owned());
    assert_eq!(
        describe_cache_classification("policy.toml", "hash", &snapshot, &report, true),
        expected
    );
}

#[test]
fn a_cleanup_plan_is_described() {
    let head = |delete: usize, recovery: &str| {
        vec![
            "Policy:              policy.toml".to_owned(),
            "Policy hash:         hash".to_owned(),
            "Plan schema:         1".to_owned(),
            "Artifacts scanned:   2".to_owned(),
            "Current storage:     1.50 KiB".to_owned(),
            format!("Keep:                {}", 2 - delete),
            "Protected:           0".to_owned(),
            "Manual review:       0".to_owned(),
            format!("Delete:              {delete}"),
            format!("Potential recovery:  {recovery}"),
            String::new(),
        ]
    };
    let mut empty = head(0, "0 B");
    empty.push("No artifacts are eligible for deletion under this policy.".to_owned());
    assert_eq!(describe_cleanup_plan("policy.toml", &plan(vec![]), true), empty);

    let mut full = head(1, "1.00 KiB");
    full.push(format!(
        "{:<12} {:<40} {:<34} {:>12} REASON",
        "ID", "REPOSITORY", "ARTIFACT", "SIZE"
    ));
    full.push(format!(
        "{:<12} {:<40} {:<34} {:>12} {}",
        11, "example-user/project-alpha", "package", "1.00 KiB", "rule_retention_expired"
    ));
    assert_eq!(describe_cleanup_plan("policy.toml", &one_target(), false), full);
    full.push("  -> rule_retention_expired [rule: old]: because".to_owned());
    full.push("  -> default_retention_expired [rule: <default>]: because".to_owned());
    assert_eq!(describe_cleanup_plan("policy.toml", &one_target(), true), full);
}

#[test]
fn a_revalidation_is_described() {
    let report = review(vec![
        item(RevalidationState::Unchanged, vec![], None),
        item(RevalidationState::AlreadyAbsent, vec![], None),
        item(
            RevalidationState::Changed,
            vec![ArtifactField::SizeInBytes, ArtifactField::UpdatedAt],
            None,
        ),
        item(RevalidationState::RevalidationFailed, vec![], Some("timeout")),
        item(RevalidationState::RevalidationFailed, vec![], None),
    ]);
    let row = |state: &str, details: &str| {
        format!("{:<12} {:<40} {:<22} {}", 11, "example-user/project-alpha", state, details)
    };
    assert_eq!(
        describe_revalidation("plan.json", &report),
        vec![
            "Plan:                 plan.json".to_owned(),
            "Policy hash:          hash".to_owned(),
            "Targets checked:      5".to_owned(),
            "Unchanged:            1".to_owned(),
            "Already absent:       1".to_owned(),
            "Changed:              1".to_owned(),
            "Revalidation failed:  2".to_owned(),
            "Safe to apply:        no".to_owned(),
            String::new(),
            format!("{:<12} {:<40} {:<22} DETAILS", "ID", "REPOSITORY", "STATE"),
            row("unchanged", "exact snapshot match"),
            row("alreadyabsent", "artifact no longer exists"),
            row("changed", "sizeinbytes,updatedat"),
            row("revalidationfailed", "timeout"),
            row("revalidationfailed", "unknown provider error"),
        ]
    );
    assert_eq!(
        check_apply(&report),
        Err("cleanup plan is not safe to apply: 1 changed target(s), 2 revalidation failure(s); no deletion was attempted".to_owned())
    );
    assert_eq!(check_apply(&review(vec![item(RevalidationState::Unchanged, vec![], None)])), Ok(()));
}

#[test]
fn an_apply_is_described() {
    let report = review(vec![item(RevalidationState::Unchanged, vec![], None)]);
    assert_eq!(
        describe_apply("plan.json", &one_target(), &report),
        vec![
            "Plan:                 plan.json".to_owned(),
            "Account:              example-user".to_owned(),
            "Policy hash:          hash".to_owned(),
            "Targets:              1".to_owned(),
            "Potential recovery:  1.00 KiB".to_owned(),
            String::new(),
            format!("{:<12} {:<40} {:<34} {:>12} STATE", "ID", "REPOSITORY", "ARTIFACT", "SIZE"),
            format!(
                "{:<12} {:<40} {:<34} {:>12} {}",
                11, "example-user/project-alpha", "package", "1.00 KiB", "Unchanged"
            ),
            String::new(),
            "Only exact Unchanged targets may reach DELETE after a final just-in-time check."
                .to_owned(),
        ]
    );
    assert_eq!(
        describe_empty_plan("plan.json"),
        vec![
            "Plan:                 plan.json",
            "Targets:              0",
            "No deletion targets; nothing to apply.",
        ]
    );
}

#[test]
fn an_execution_is_described() {
    let report = execution(vec![ExecutionState::Deleted, ExecutionState::DeleteFailed]);
    assert_eq!(
        describe_execution(&report, "audit.json"),
        vec![
            "",
            "Execution complete",
            "Authorization:        AutomationYes",
            "Targets:              2",
            "Deleted:              1",
            "Already absent:       0",
            "Changed:              0",
            "Revalidation failed:  0",
            "Delete failed:        1",
            "Confirmed reclaimed:  1.00 KiB",
            "Audit record:         audit.json",
            "",
            "Execution completed with blocked or failed target(s); inspect the audit record before retrying anything.",
        ]
    );
    assert_eq!(describe_execution(&execution(vec![ExecutionState::Deleted]), "audit.json").len(), 11);
}

#[test]
fn a_history_is_described_newest_first() {
    let record = |day: u32, states: Vec<ExecutionState>| ExecutionRecord {
        recorded_at: on(2, day, 1),
        execution: execution(states),
    };
    let records = vec![
        record(1, vec![ExecutionState::Deleted]),
        record(2, vec![ExecutionState::RevalidationFailed, ExecutionState::DeleteFailed]),
    ];
    let row = |cells: [&str; 9]| {
        format!(
            "{:<20} {:<26} {:<11} {:>7} {:>7} {:>7} {:>7} {:>7} {:>11}",
            cells[0], cells[1], cells[2], cells[3], cells[4], cells[5], cells[6], cells[7], cells[8]
        )
    };
    assert_eq!(
        describe_history(&records, None),
        vec![
            row([
                "RECORDED", "ACCOUNT", "AUTH", "TARGETS", "DELETED", "ABSENT", "CHANGED", "FAILED",
                "RECLAIMED",
            ]),
            row([
                "2026-02-02 01:04:05Z", "github:example-user", "automation", "2", "0", "0", "0", "2",
                "0 B",
            ]),
            row([
                "2026-02-01 01:04:05Z", "github:example-user", "automation", "1", "1", "0", "0", "0",
                "1.00 KiB",
            ]),
        ]
    );
    assert_eq!(describe_history(&vec![], None), vec!["No audit records found."]);
    assert_eq!(
        describe_history(&vec![], Some("a/b")),
        vec!["No audit records found for repository a/b."]
    );
}

#[test]
fn an_alert_is_described() {
    let mut key = UsageQuotaAlertKey {
        owner: BillingOwner {
            provider: "github".to_owned(),
            kind: BillingOwnerKind::Organization,
            login: "example-org".to_owned(),
        },
        resource_id: "minutes".to_owned(),
        period: BillingPeriod { year: 2026, month: 9 },
        threshold: UsageQuotaThreshold::Warning,
    };
    assert_eq!(
        describe_alert(&key),
        "account usage quota warning: github:example-org resource=minutes period=2026-09"
    );
    key.threshold = UsageQuotaThreshold::Critical;
    key.period = BillingPeriod { year: -7, month: 12 };
    assert_eq!(
        describe_alert(&key),
        format!(
            "account usage quota critical: github:example-org resource=minutes period={:04}-{:02}",
            -7, 12
        )
    );
}
