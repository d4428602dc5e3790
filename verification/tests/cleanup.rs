//! Cleanup plans, the review before an execution, and the execution.
use chrono::{TimeZone, Utc};
use gh_housekeeper::cleanup::{
    CleanupPlan, CleanupPlanError, CleanupPlanSummary, CleanupTarget, PlanReason,
    CLEANUP_PLAN_SCHEMA_VERSION,
};
use gh_housekeeper::execution::{
    ExecutionAuthorization, ExecutionAuthorizationKind, ExecutionError, ExecutionReport,
    ExecutionService, ExecutionState, ExecutionStep,
};
use gh_housekeeper::model::{
    Account, Artifact, DeleteOutcome, InventorySnapshot, ProviderError, ProviderTelemetry,
    RepositoryRef, ScanIssue, ScanScope, WorkflowRunRef,
};
use gh_housekeeper::revalidation::{
    changed_fields, ensure_same_account, ArtifactField, RevalidationError, RevalidationItem,
    RevalidationReport, RevalidationService, RevalidationState, RevalidationStep,
};
use gh_housekeeper::time::Timestamp;
use std::collections::BTreeMap;

fn at(month: u32, day: u32, minute: u32) -> Timestamp {
    let time = Utc.with_ymd_and_hms(2026, month, day, 0, minute, 0).unwrap();
    Timestamp::from_unix(time.timestamp(), 0).unwrap()
}

fn plain_artifact(id: u64, bytes: u64) -> Artifact {
    Artifact {
        id,
        repository: RepositoryRef { id: 10, full_name: "example-user/project-alpha".to_owned() },
        name: format!("artifact-{id}"),
        size_in_bytes: bytes,
        created_at: at(1, 1, 0),
        updated_at: at(1, 1, 0),
        expires_at: None,
        expired: false,
        digest: None,
        workflow_run: None,
    }
}

fn snapshot(artifacts: Vec<Artifact>) -> InventorySnapshot {
    InventorySnapshot {
        account: account("example-user"),
        scope: ScanScope::AllAccessible,
        scanned_at: at(2, 1, 0),
        elapsed_ms: 1,
        repositories: Vec::new(),
        artifacts,
        issues: Vec::new(),
        telemetry: ProviderTelemetry::default(),
    }
}

fn account(login: &str) -> Account {
    Account { provider: "github".to_owned(), login: login.to_owned() }
}

fn artifact(id: u64, repository: &str) -> Artifact {
    Artifact {
        id,
        repository: RepositoryRef { id: id + 10, full_name: repository.to_owned() },
        name: format!("artifact-{id}"),
        size_in_bytes: id * 100,
        created_at: at(1, 1, 0),
        updated_at: at(1, 2, 0),
        expires_at: Some(at(4, 1, 0)),
        expired: false,
        digest: Some(format!("sha256:{id:064x}")),
        workflow_run: Some(WorkflowRunRef {
            id: 100 + id,
            head_branch: Some("main".to_owned()),
            head_sha: Some(format!("{id:040x}")),
            workflow_id: Some(50),
            workflow_name: Some("CI".to_owned()),
        }),
    }
}

fn plan(artifacts: Vec<Artifact>) -> CleanupPlan {
    let total_bytes = artifacts.iter().map(|artifact| artifact.size_in_bytes).sum();
    let snapshot = snapshot(artifacts.clone());
    let targets = artifacts
        .into_iter()
        .map(|artifact| {
            CleanupTarget::new(
                artifact,
                vec![PlanReason::new(
                    "rule_retention_expired",
                    Some("test-rule".to_owned()),
                    "test fixture deletion",
                )],
            )
        })
        .collect::<Vec<_>>();
    let count = targets.len();
    CleanupPlan::new(
        &snapshot,
        at(2, 1, 1),
        "fnv1a64:0123456789abcdef".to_owned(),
        CleanupPlanSummary::new(count, total_bytes, 0, 0, 0, count, total_bytes),
        targets,
    )
    .unwrap()
}

fn reviewed(plan: &CleanupPlan, states: Vec<RevalidationState>) -> RevalidationReport {
    assert_eq!(states.len(), plan.targets().len());
    RevalidationReport {
        checked_at: at(2, 1, 2),
        plan_created_at: plan.created_at(),
        plan_scanned_at: plan.scanned_at(),
        policy_hash: plan.policy_hash().to_owned(),
        telemetry: ProviderTelemetry::default(),
        items: plan
            .targets()
            .iter()
            .zip(states)
            .map(|(target, state)| RevalidationItem {
                artifact_id: target.artifact().id,
                repository: target.artifact().repository.full_name.clone(),
                state,
                changed_fields: Vec::new(),
                current: None,
                error: None,
            })
            .collect(),
    }
}

type Lookup = Result<Option<Artifact>, ProviderError>;
type Removed = Result<DeleteOutcome, ProviderError>;

struct FakeProvider {
    account: Account,
    lookups: BTreeMap<u64, Lookup>,
    deletes: BTreeMap<u64, Removed>,
    account_calls: usize,
    lookup_calls: usize,
    delete_requests: Vec<(String, u64)>,
}

impl FakeProvider {
    fn new(login: &str, lookups: Vec<(u64, Lookup)>, deletes: Vec<(u64, Removed)>) -> Self {
        FakeProvider {
            account: account(login),
            lookups: lookups.into_iter().collect(),
            deletes: deletes.into_iter().collect(),
            account_calls: 0,
            lookup_calls: 0,
            delete_requests: Vec::new(),
        }
    }

    fn account(&mut self) -> Account {
        self.account_calls += 1;
        self.account.clone()
    }

    fn look_up(&mut self, artifact: &Artifact) -> Lookup {
        self.lookup_calls += 1;
        self.lookups.get(&artifact.id).cloned().unwrap_or(Ok(None))
    }

    fn delete(&mut self, artifact: &Artifact) -> Removed {
        self.delete_requests.push((artifact.repository.full_name.clone(), artifact.id));
        self.deletes.get(&artifact.id).cloned().unwrap_or(Ok(DeleteOutcome::Deleted))
    }

    fn telemetry(&self) -> ProviderTelemetry {
        ProviderTelemetry {
            api_requests: (self.account_calls + self.lookup_calls + self.delete_requests.len())
                as u64,
            rate_limit_remaining: Some(4_999),
        }
    }

    fn revalidate(&mut self, plan: &CleanupPlan) -> Result<RevalidationReport, RevalidationError> {
        let mut service = RevalidationService::new(plan);
        loop {
            match service.next() {
                RevalidationStep::Account => service.account_answered(Ok(self.account()))?,
                RevalidationStep::LookUp => {
                    let answer = self.look_up(service.current());
                    service.answered(answer);
                }
                RevalidationStep::Finished => break,
            }
        }
        Ok(service.report(at(2, 1, 2), self.telemetry()))
    }

    fn execute(
        &mut self,
        plan: &CleanupPlan,
        review: &RevalidationReport,
        authorization: ExecutionAuthorization,
    ) -> Result<ExecutionReport, ExecutionError> {
        let mut service = ExecutionService::new(plan, review, authorization)?;
        loop {
            match service.next() {
                ExecutionStep::Account => service.account_answered(Ok(self.account()))?,
                ExecutionStep::LookUp => {
                    let answer = self.look_up(service.current());
                    service.looked_up(answer);
                }
                ExecutionStep::Delete => {
                    let answer = self.delete(service.current());
                    service.removed(answer);
                }
                ExecutionStep::Finished => break,
            }
        }
        let telemetry = self.telemetry();
        Ok(service.report(telemetry, at(2, 1, 3), at(2, 1, 4)))
    }
}

fn transport(message: &str) -> ProviderError {
    ProviderError::Transport(message.to_owned())
}

fn not_found() -> ProviderError {
    ProviderError::NotFound("artifact not found".to_owned())
}

fn confirmed() -> ExecutionAuthorization {
    ExecutionAuthorization::interactive_confirmation()
}

#[test]
fn cleanup_plan_locks_exact_snapshot_targets() {
    let first = plain_artifact(1, 100);
    let second = plain_artifact(2, 200);
    let snapshot = snapshot(vec![first, second.clone()]);
    let summary = CleanupPlanSummary::new(2, 300, 1, 0, 0, 1, 200);
    let target = CleanupTarget::new(
        second,
        vec![PlanReason::new(
            "default_retention_expired",
            None,
            "default retention expired",
        )],
    );
    let plan = CleanupPlan::new(
        &snapshot,
        at(2, 1, 1),
        "fnv1a64:0123456789abcdef".to_owned(),
        summary,
        vec![target],
    )
    .unwrap();

    assert_eq!(plan.schema_version(), CLEANUP_PLAN_SCHEMA_VERSION);
    assert_eq!(plan.targets().len(), 1);
    assert_eq!(plan.targets()[0].artifact().id, 2);
    assert_eq!(plan.summary().reclaimable_bytes(), 200);
}

#[test]
fn cleanup_plan_rejects_partial_inventory() {
    let mut snapshot = snapshot(vec![plain_artifact(1, 100)]);
    snapshot.issues.push(ScanIssue {
        repository: Some("example-user/project-beta".to_owned()),
        message: "provider timeout".to_owned(),
    });
    let summary = CleanupPlanSummary::new(1, 100, 1, 0, 0, 0, 0);
    let error = CleanupPlan::new(
        &snapshot,
        at(2, 1, 1),
        "fnv1a64:0123456789abcdef".to_owned(),
        summary,
        Vec::new(),
    )
    .unwrap_err();

    assert_eq!(error, CleanupPlanError::IncompleteSnapshot { issue_count: 1 });
}

#[test]
fn cleanup_plan_rejects_target_not_in_snapshot() {
    let snapshot = snapshot(vec![plain_artifact(1, 100)]);
    let summary = CleanupPlanSummary::new(1, 100, 0, 0, 0, 1, 200);
    let target = CleanupTarget::new(plain_artifact(2, 200), Vec::new());
    let error = CleanupPlan::new(
        &snapshot,
        at(2, 1, 1),
        "fnv1a64:0123456789abcdef".to_owned(),
        summary,
        vec![target],
    )
    .unwrap_err();

    assert_eq!(
        error,
        CleanupPlanError::TargetNotInSnapshot {
            repository: "example-user/project-alpha".to_owned(),
            artifact_id: 2,
        }
    );
}

#[test]
fn a_plan_needs_a_policy_hash() {
    let error = CleanupPlan::new(
        &snapshot(Vec::new()),
        at(2, 1, 1),
        "  ".to_owned(),
        CleanupPlanSummary::new(0, 0, 0, 0, 0, 0, 0),
        Vec::new(),
    )
    .unwrap_err();
    assert_eq!(error, CleanupPlanError::EmptyPolicyHash);
}

#[test]
fn a_summary_that_does_not_add_up_is_rejected() {
    for summary in [
        CleanupPlanSummary::new(2, 100, 1, 0, 0, 0, 0),
        CleanupPlanSummary::new(1, 101, 1, 0, 0, 0, 0),
        CleanupPlanSummary::new(1, 100, 0, 0, 0, 0, 0),
        CleanupPlanSummary::new(1, 100, 0, 0, 0, 1, 100),
        CleanupPlanSummary::new(1, 100, 1, 0, 0, 0, 1),
    ] {
        let error = CleanupPlan::new(
            &snapshot(vec![plain_artifact(1, 100)]),
            at(2, 1, 1),
            "hash".to_owned(),
            summary,
            Vec::new(),
        )
        .unwrap_err();
        assert!(matches!(error, CleanupPlanError::SummaryMismatch(_)));
    }
}

#[test]
fn a_plan_names_each_artifact_once() {
    let target = CleanupTarget::new(plain_artifact(1, 100), Vec::new());
    let error = CleanupPlan::new(
        &snapshot(vec![plain_artifact(1, 100), plain_artifact(2, 100)]),
        at(2, 1, 1),
        "hash".to_owned(),
        CleanupPlanSummary::new(2, 200, 0, 0, 0, 2, 200),
        vec![target.clone(), target],
    )
    .unwrap_err();
    assert_eq!(
        error,
        CleanupPlanError::DuplicateTarget {
            repository: "example-user/project-alpha".to_owned(),
            artifact_id: 1,
        }
    );
    assert!(error.message().contains("example-user/project-alpha"));
}

#[test]
fn unchanged_artifact_is_eligible_to_proceed() {
    let planned = artifact(1, "example-user/project-alpha");
    let mut provider =
        FakeProvider::new("example-user", vec![(1, Ok(Some(planned.clone())))], Vec::new());

    let report = provider.revalidate(&plan(vec![planned])).unwrap();

    assert_eq!(report.count(RevalidationState::Unchanged), 1);
    assert!(report.is_safe_to_apply());
    assert_eq!(provider.lookup_calls, 1);
    assert_eq!(provider.delete_requests.len(), 0);
}

#[test]
fn missing_artifact_is_reported_as_already_absent() {
    let planned = artifact(1, "example-user/project-alpha");
    let mut provider = FakeProvider::new("example-user", vec![(1, Ok(None))], Vec::new());

    let report = provider.revalidate(&plan(vec![planned])).unwrap();

    assert_eq!(report.count(RevalidationState::AlreadyAbsent), 1);
    assert!(report.is_safe_to_apply());
}

#[test]
fn changed_metadata_is_reported_conservatively() {
    let planned = artifact(1, "example-user/project-alpha");
    let mut current = planned.clone();
    current.size_in_bytes += 1;
    current.updated_at = at(1, 3, 0);
    let mut provider =
        FakeProvider::new("example-user", vec![(1, Ok(Some(current.clone())))], Vec::new());

    let report = provider.revalidate(&plan(vec![planned])).unwrap();

    assert_eq!(report.count(RevalidationState::Changed), 1);
    assert!(!report.is_safe_to_apply());
    assert_eq!(report.items[0].current.as_ref(), Some(&current));
    assert_eq!(
        report.items[0].changed_fields,
        vec![ArtifactField::SizeInBytes, ArtifactField::UpdatedAt]
    );
}

#[test]
fn provider_failure_is_per_target_and_non_destructive() {
    let planned = artifact(1, "example-user/project-alpha");
    let mut provider = FakeProvider::new(
        "example-user",
        vec![(1, Err(transport("temporary network failure")))],
        Vec::new(),
    );

    let report = provider.revalidate(&plan(vec![planned])).unwrap();

    assert_eq!(report.count(RevalidationState::RevalidationFailed), 1);
    assert!(!report.is_safe_to_apply());
    assert!(report.items[0]
        .error
        .as_deref()
        .is_some_and(|error| error.contains("temporary network failure")));
    assert_eq!(provider.delete_requests.len(), 0);
}

#[test]
fn multiple_targets_use_exact_lookups_without_rescan_or_delete() {
    let first = artifact(1, "example-user/project-alpha");
    let second = artifact(2, "example-user/project-alpha");
    let mut provider = FakeProvider::new(
        "example-user",
        vec![(1, Ok(Some(first.clone()))), (2, Ok(None))],
        Vec::new(),
    );

    let report = provider.revalidate(&plan(vec![first, second])).unwrap();

    assert_eq!(report.target_count(), 2);
    assert_eq!(provider.account_calls, 1);
    assert_eq!(provider.lookup_calls, 2);
    assert_eq!(provider.delete_requests.len(), 0);
}

#[test]
fn account_mismatch_aborts_before_target_lookup() {
    let planned = artifact(1, "example-user/project-alpha");
    let mut provider = FakeProvider::new("different-user", Vec::new(), Vec::new());

    let error = provider.revalidate(&plan(vec![planned])).unwrap_err();

    assert!(matches!(error, RevalidationError::AccountMismatch { .. }));
    assert_eq!(provider.lookup_calls, 0);
    assert_eq!(provider.delete_requests.len(), 0);
}

#[test]
fn every_field_of_an_artifact_counts() {
    let planned = artifact(1, "example-user/project-alpha");
    assert!(changed_fields(&planned, &planned.clone()).is_empty());
    let mut current = artifact(2, "example-user/project-beta");
    current.created_at = at(3, 1, 0);
    current.updated_at = at(3, 1, 0);
    current.expires_at = None;
    current.expired = true;
    assert_eq!(
        changed_fields(&planned, &current),
        vec![
            ArtifactField::Repository,
            ArtifactField::Id,
            ArtifactField::Name,
            ArtifactField::SizeInBytes,
            ArtifactField::CreatedAt,
            ArtifactField::UpdatedAt,
            ArtifactField::ExpiresAt,
            ArtifactField::Expired,
            ArtifactField::Digest,
            ArtifactField::WorkflowRun,
        ]
    );
}

#[test]
fn unchanged_target_is_deleted_after_just_in_time_revalidation() {
    let planned = artifact(1, "example-user/project-alpha");
    let plan = plan(vec![planned.clone()]);
    let review = reviewed(&plan, vec![RevalidationState::Unchanged]);
    let mut provider = FakeProvider::new(
        "example-user",
        vec![(1, Ok(Some(planned.clone())))],
        vec![(1, Ok(DeleteOutcome::Deleted))],
    );

    let report = provider.execute(&plan, &review, confirmed()).unwrap();

    assert_eq!(report.count(ExecutionState::Deleted), 1);
    assert_eq!(report.reclaimed_bytes(), planned.size_in_bytes);
    assert!(report.is_complete_success());
    assert_eq!(
        report.authorization,
        ExecutionAuthorizationKind::InteractiveConfirmation
    );
    assert_eq!(provider.lookup_calls, 1);
    assert_eq!(
        provider.delete_requests,
        vec![("example-user/project-alpha".to_owned(), 1)]
    );
}

#[test]
fn already_absent_target_is_skipped_without_delete() {
    let plan = plan(vec![artifact(1, "example-user/project-alpha")]);
    let review = reviewed(&plan, vec![RevalidationState::Unchanged]);
    let mut provider = FakeProvider::new("example-user", vec![(1, Ok(None))], Vec::new());

    let report = provider.execute(&plan, &review, confirmed()).unwrap();

    assert_eq!(report.count(ExecutionState::AlreadyAbsent), 1);
    assert_eq!(provider.delete_requests.len(), 0);
    assert!(report.is_complete_success());
}

#[test]
fn lookup_not_found_is_treated_as_already_absent_without_delete() {
    let plan = plan(vec![artifact(1, "example-user/project-alpha")]);
    let review = reviewed(&plan, vec![RevalidationState::Unchanged]);
    let mut provider =
        FakeProvider::new("example-user", vec![(1, Err(not_found()))], Vec::new());

    let report = provider.execute(&plan, &review, confirmed()).unwrap();

    assert_eq!(report.count(ExecutionState::AlreadyAbsent), 1);
    assert_eq!(provider.delete_requests.len(), 0);
    assert!(report.is_complete_success());
}

#[test]
fn changed_target_is_never_deleted() {
    let planned = artifact(1, "example-user/project-alpha");
    let mut current = planned.clone();
    current.size_in_bytes += 1;
    let plan = plan(vec![planned]);
    let review = reviewed(&plan, vec![RevalidationState::Unchanged]);
    let mut provider =
        FakeProvider::new("example-user", vec![(1, Ok(Some(current)))], Vec::new());

    let report = provider.execute(&plan, &review, confirmed()).unwrap();

    assert_eq!(report.count(ExecutionState::Changed), 1);
    assert_eq!(
        report.items[0].changed_fields,
        vec![ArtifactField::SizeInBytes]
    );
    assert_eq!(provider.delete_requests.len(), 0);
    assert!(!report.is_complete_success());
}

#[test]
fn revalidation_failure_is_never_deleted() {
    let plan = plan(vec![artifact(1, "example-user/project-alpha")]);
    let review = reviewed(&plan, vec![RevalidationState::Unchanged]);
    let mut provider = FakeProvider::new(
        "example-user",
        vec![(1, Err(transport("lookup transport failure")))],
        Vec::new(),
    );

    let report = provider.execute(&plan, &review, confirmed()).unwrap();

    assert_eq!(report.count(ExecutionState::RevalidationFailed), 1);
    assert_eq!(provider.delete_requests.len(), 0);
    assert!(!report.is_complete_success());
}

#[test]
fn provider_already_absent_delete_outcome_is_preserved() {
    let planned = artifact(1, "example-user/project-alpha");
    let plan = plan(vec![planned.clone()]);
    let review = reviewed(&plan, vec![RevalidationState::Unchanged]);
    let mut provider = FakeProvider::new(
        "example-user",
        vec![(1, Ok(Some(planned)))],
        vec![(1, Ok(DeleteOutcome::AlreadyAbsent))],
    );

    let report = provider.execute(&plan, &review, confirmed()).unwrap();

    assert_eq!(report.count(ExecutionState::AlreadyAbsent), 1);
    assert!(report.is_complete_success());
}

#[test]
fn delete_not_found_becomes_already_absent() {
    let planned = artifact(1, "example-user/project-alpha");
    let plan = plan(vec![planned.clone()]);
    let review = reviewed(&plan, vec![RevalidationState::Unchanged]);
    let mut provider = FakeProvider::new(
        "example-user",
        vec![(1, Ok(Some(planned)))],
        vec![(1, Err(not_found()))],
    );

    let report = provider.execute(&plan, &review, confirmed()).unwrap();

    assert_eq!(report.count(ExecutionState::AlreadyAbsent), 1);
    assert!(report.is_complete_success());
}

#[test]
fn destructive_provider_errors_are_structured_delete_failures() {
    let cases = [
        ProviderError::PermissionDenied("forbidden".to_owned()),
        ProviderError::RateLimited {
            retry_after_seconds: Some(60),
            message: ": rate limited".to_owned(),
        },
        ProviderError::HttpStatus { status: 500, message: "server error".to_owned() },
        transport("delete transport failure"),
    ];

    for response in cases {
        let planned = artifact(1, "example-user/project-alpha");
        let plan = plan(vec![planned.clone()]);
        let review = reviewed(&plan, vec![RevalidationState::Unchanged]);
        let mut provider = FakeProvider::new(
            "example-user",
            vec![(1, Ok(Some(planned)))],
            vec![(1, Err(response))],
        );

        let report = provider
            .execute(&plan, &review, ExecutionAuthorization::automation_yes())
            .unwrap();

        assert_eq!(report.count(ExecutionState::DeleteFailed), 1);
        assert!(!report.is_complete_success());
        assert!(report.items[0].error.is_some());
        assert_eq!(
            report.authorization,
            ExecutionAuthorizationKind::AutomationYes
        );
    }
}

#[test]
fn mixed_targets_only_delete_exact_unchanged_ids() {
    let first = artifact(1, "example-user/project-alpha");
    let second = artifact(2, "example-user/project-beta");
    let third = artifact(3, "example-user/project-gamma");
    let mut changed_third = third.clone();
    changed_third.updated_at = at(1, 3, 0);
    let plan = plan(vec![first.clone(), second, third]);
    let review = reviewed(
        &plan,
        vec![
            RevalidationState::Unchanged,
            RevalidationState::Unchanged,
            RevalidationState::Unchanged,
        ],
    );
    let mut provider = FakeProvider::new(
        "example-user",
        vec![(1, Ok(Some(first.clone()))), (2, Ok(None)), (3, Ok(Some(changed_third)))],
        vec![(1, Ok(DeleteOutcome::Deleted))],
    );

    let report = provider.execute(&plan, &review, confirmed()).unwrap();

    assert_eq!(report.count(ExecutionState::Deleted), 1);
    assert_eq!(report.count(ExecutionState::AlreadyAbsent), 1);
    assert_eq!(report.count(ExecutionState::Changed), 1);
    assert_eq!(
        provider.delete_requests,
        vec![("example-user/project-alpha".to_owned(), first.id)]
    );
}

#[test]
fn unsafe_review_is_rejected_before_any_remote_call() {
    let plan = plan(vec![artifact(1, "example-user/project-alpha")]);
    let review = reviewed(&plan, vec![RevalidationState::Changed]);
    let mut provider = FakeProvider::new("example-user", Vec::new(), Vec::new());

    let error = provider.execute(&plan, &review, confirmed()).unwrap_err();

    assert!(matches!(
        error,
        ExecutionError::UnsafeReviewedReport { changed: 1, failed: 0 }
    ));
    assert_eq!(provider.account_calls, 0);
    assert_eq!(provider.lookup_calls, 0);
    assert_eq!(provider.delete_requests.len(), 0);
}

#[test]
fn mismatched_review_is_rejected_before_any_remote_call() {
    let plan = plan(vec![artifact(1, "example-user/project-alpha")]);
    let mut review = reviewed(&plan, vec![RevalidationState::Unchanged]);
    review.policy_hash = "fnv1a64:different".to_owned();
    let mut provider = FakeProvider::new("example-user", Vec::new(), Vec::new());

    let error = provider.execute(&plan, &review, confirmed()).unwrap_err();

    assert!(matches!(error, ExecutionError::ReviewedPlanMismatch(_)));
    assert_eq!(provider.account_calls, 0);
    assert_eq!(provider.delete_requests.len(), 0);
}

#[test]
fn account_mismatch_aborts_before_lookup_or_delete() {
    let plan = plan(vec![artifact(1, "example-user/project-alpha")]);
    let review = reviewed(&plan, vec![RevalidationState::Unchanged]);
    let mut provider = FakeProvider::new("different-user", Vec::new(), Vec::new());

    let error = provider.execute(&plan, &review, confirmed()).unwrap_err();

    assert!(matches!(error, ExecutionError::Revalidation(_)));
    assert_eq!(provider.lookup_calls, 0);
    assert_eq!(provider.delete_requests.len(), 0);
}

#[test]
fn authorization_requires_an_explicit_constructor() {
    assert_eq!(
        ExecutionAuthorization::interactive_confirmation().kind(),
        ExecutionAuthorizationKind::InteractiveConfirmation
    );
    assert_eq!(
        ExecutionAuthorization::automation_yes().kind(),
        ExecutionAuthorizationKind::AutomationYes
    );
}

#[test]
fn nothing_is_asked_before_the_account() {
    let plan = plan(vec![artifact(1, "example-user/project-alpha")]);
    let review = reviewed(&plan, vec![RevalidationState::Unchanged]);
    let limited = ProviderError::RateLimited {
        retry_after_seconds: Some(30),
        message: "slow down".to_owned(),
    };

    let mut execution = ExecutionService::new(&plan, &review, confirmed()).unwrap();
    assert_eq!(execution.next(), ExecutionStep::Account);
    assert_eq!(
        execution.account_answered(Err(limited.clone())),
        Err(ExecutionError::Provider(limited.clone()))
    );
    assert_eq!(execution.next(), ExecutionStep::Account);
    assert!(matches!(
        execution.account_answered(Ok(account("different-user"))),
        Err(ExecutionError::Revalidation(RevalidationError::AccountMismatch { .. }))
    ));
    assert_eq!(execution.next(), ExecutionStep::Account);
    assert_eq!(execution.account_answered(Ok(plan.account().clone())), Ok(()));
    assert_eq!(execution.next(), ExecutionStep::LookUp);

    let mut review = RevalidationService::new(&plan);
    assert_eq!(review.next(), RevalidationStep::Account);
    assert_eq!(
        review.account_answered(Err(limited.clone())),
        Err(RevalidationError::Provider(limited))
    );
    assert_eq!(review.next(), RevalidationStep::Account);
    assert_eq!(review.account_answered(Ok(plan.account().clone())), Ok(()));
    assert_eq!(review.next(), RevalidationStep::LookUp);
    assert_eq!(ensure_same_account(plan.account(), plan.account()), Ok(()));
}

#[test]
fn a_report_is_of_the_plan_and_the_permission_that_it_was_started_with() {
    let plan = plan(vec![
        artifact(1, "example-user/project-alpha"),
        artifact(2, "example-user/project-beta"),
    ]);
    let review =
        reviewed(&plan, vec![RevalidationState::Unchanged, RevalidationState::Unchanged]);
    let lookups = plan.targets().iter().map(|target| {
        (target.artifact().id, Ok(Some(target.artifact().clone())))
    });
    let mut provider = FakeProvider::new("example-user", lookups.collect(), Vec::new());
    let report =
        provider.execute(&plan, &review, ExecutionAuthorization::automation_yes()).unwrap();
    assert_eq!(report.items.len(), plan.targets().len());
    assert_eq!(report.authorization, ExecutionAuthorizationKind::AutomationYes);
    assert_eq!(&report.account, plan.account());
    assert_eq!(report.plan_created_at, plan.created_at());
    assert_eq!(provider.delete_requests.len(), 2);
}
