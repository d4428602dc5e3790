//! Purges of workflow runs and of caches: plans, reviews and executions.
use chrono::{TimeZone, Utc};
use gh_housekeeper::cache_purge::{
    is_provider_rate_limit_error, rate_limit_guard_remaining, CachePurgeError,
    CachePurgeExecutionReport, CachePurgeExecutionService, CachePurgeExecutionState, CachePurgePlan,
    CachePurgePlanningService, CachePurgePlanningStep, CachePurgeRevalidationReport,
    CachePurgeRevalidationService, CachePurgeRevalidationState, CachePurgeRevalidationStep,
    CachePurgeSelection, CachePurgeStage,
};
use gh_housekeeper::execution::{ExecutionAuthorization, ExecutionAuthorizationKind};
use gh_housekeeper::model::{
    Account, ActionsCache, Artifact, CacheInventorySnapshot, DeleteOutcome, ProviderError,
    ProviderTelemetry, Repository, RepositoryRef, ScanIssue, ScanScope, Visibility, WorkflowRun,
    WorkflowRunInventorySnapshot, WorkflowRunRef,
};
use gh_housekeeper::run_purge::{
    ensure_same_account, RunPurgeError, RunPurgePlan, RunPurgeSelection, RunPurgeSelectionMode,
    RunPurgeTarget,
};
use gh_housekeeper::run_purge_execution::{RunPurgeExecutionService, RunPurgeStage, RunPurgeStep};
use gh_housekeeper::run_purge_flow::{
    artifact_drift, RunPurgeExecutionReport, RunPurgeExecutionState, RunPurgePlanningService,
    RunPurgePlanningStep, RunPurgeRevalidationReport, RunPurgeRevalidationService,
    RunPurgeRevalidationState, RunPurgeRevalidationStep,
};
use gh_housekeeper::time::Timestamp;

fn at(month: u32, day: u32, minute: u32) -> Timestamp {
    let time = Utc.with_ymd_and_hms(2026, month, day, 0, minute, 0).unwrap();
    Timestamp::from_unix(time.timestamp(), 0).unwrap()
}

fn repository() -> Repository {
    Repository {
        id: 1,
        owner: "example-user".to_owned(),
        name: "project-alpha".to_owned(),
        full_name: "example-user/project-alpha".to_owned(),
        visibility: Visibility::Public,
        default_branch: "main".to_owned(),
        archived: false,
        fork: false,
    }
}

fn run(id: u64) -> WorkflowRun {
    WorkflowRun {
        id,
        repository: RepositoryRef::of(&repository()),
        workflow_id: 10,
        workflow_name: Some("Rust CI".to_owned()),
        display_title: "CI".to_owned(),
        event: "push".to_owned(),
        status: "completed".to_owned(),
        conclusion: Some("success".to_owned()),
        head_branch: Some("main".to_owned()),
        head_sha: format!("sha-{id}"),
        run_number: id,
        run_attempt: 1,
        created_at: at(1, 1, 0),
        updated_at: at(1, 1, 5),
    }
}

fn artifact(id: u64, run_id: u64) -> Artifact {
    Artifact {
        id,
        repository: RepositoryRef::of(&repository()),
        name: format!("artifact-{id}"),
        size_in_bytes: id * 100,
        created_at: at(1, 1, 1),
        updated_at: at(1, 1, 1),
        expires_at: None,
        expired: false,
        digest: None,
        workflow_run: Some(WorkflowRunRef {
            id: run_id,
            head_branch: Some("main".to_owned()),
            head_sha: Some(format!("sha-{run_id}")),
            workflow_id: None,
            workflow_name: None,
        }),
    }
}

fn example_account() -> Account {
    Account { provider: "example".to_owned(), login: "example-user".to_owned() }
}

fn snapshot(runs: Vec<WorkflowRun>) -> WorkflowRunInventorySnapshot {
    WorkflowRunInventorySnapshot {
        account: example_account(),
        scope: ScanScope::Repository("example-user/project-alpha".to_owned()),
        scanned_at: at(2, 1, 0),
        elapsed_ms: 1,
        repositories: vec![repository()],
        runs,
        issues: Vec::new(),
        telemetry: ProviderTelemetry::default(),
    }
}

fn all_completed() -> RunPurgeSelection {
    RunPurgeSelection {
        mode: RunPurgeSelectionMode::AllCompleted,
        requested_run_ids: Vec::new(),
        older_than_seconds: None,
        workflow: None,
        branch: None,
        event: None,
        conclusion: None,
    }
}

struct FakeRuns {
    account: Account,
    current_run: Option<WorkflowRun>,
    artifacts: Vec<Artifact>,
    calls: Vec<String>,
}

impl FakeRuns {
    fn plan(
        &self,
        snapshot: &WorkflowRunInventorySnapshot,
        chosen: Vec<WorkflowRun>,
    ) -> Result<RunPurgePlan, RunPurgeError> {
        let mut service = RunPurgePlanningService::new(snapshot, chosen, all_completed())?;
        loop {
            match service.next()? {
                RunPurgePlanningStep::Account => {
                    service.account_answered(Ok(self.account.clone()))?
                }
                RunPurgePlanningStep::LookUpRun => {
                    service.run_answered(Ok(self.current_run.clone()))?
                }
                RunPurgePlanningStep::ListArtifacts => {
                    service.artifacts_listed(Ok(self.artifacts.clone()))?
                }
                RunPurgePlanningStep::Finished => break,
            }
        }
        service.build()
    }

    fn revalidate(&self, plan: &RunPurgePlan) -> Result<RunPurgeRevalidationReport, RunPurgeError> {
        let mut service = RunPurgeRevalidationService::new(plan)?;
        loop {
            match service.next() {
                RunPurgeRevalidationStep::Account => {
                    service.account_answered(Ok(self.account.clone()))?
                }
                RunPurgeRevalidationStep::LookUpRun => {
                    service.run_answered(Ok(self.current_run.clone()))
                }
                RunPurgeRevalidationStep::ListArtifacts => {
                    service.artifacts_listed(Ok(self.artifacts.clone()))
                }
                RunPurgeRevalidationStep::Finished => break,
            }
        }
        Ok(service.report(at(2, 1, 1), ProviderTelemetry::default()))
    }

    fn execute(
        &mut self,
        plan: &RunPurgePlan,
        reviewed: &RunPurgeRevalidationReport,
    ) -> Result<RunPurgeExecutionReport, RunPurgeError> {
        let mut service = RunPurgeExecutionService::new(
            plan,
            reviewed,
            ExecutionAuthorization::automation_yes(),
        )?;
        loop {
            let stage = match service.next() {
                RunPurgeStep::Account => {
                    service.account_answered(Ok(self.account.clone()))?;
                    continue;
                }
                RunPurgeStep::Target(stage) => stage,
                RunPurgeStep::Finished => break,
            };
            let run_id = service.current().run().id;
            match stage {
                RunPurgeStage::LookUpRun | RunPurgeStage::RecheckRun | RunPurgeStage::VerifyRun => {
                    service.run_answered(Ok(self.current_run.clone()))
                }
                RunPurgeStage::ListArtifacts | RunPurgeStage::ListResidual => {
                    service.artifacts_listed(Ok(self.artifacts.clone()))
                }
                RunPurgeStage::DeleteLogs => {
                    self.calls.push(format!("logs:{run_id}"));
                    service.removed(Ok(DeleteOutcome::Deleted));
                }
                RunPurgeStage::LookUpArtifact => {
                    let wanted = service.current_artifact().id;
                    let found = self.artifacts.iter().find(|artifact| artifact.id == wanted);
                    service.artifact_answered(Ok(found.cloned()));
                }
                RunPurgeStage::DeleteArtifact => {
                    let wanted = service.current_artifact().id;
                    self.calls.push(format!("artifact:{wanted}"));
                    self.artifacts.retain(|artifact| artifact.id != wanted);
                    service.removed(Ok(DeleteOutcome::Deleted));
                }
                RunPurgeStage::DeleteRun => {
                    self.calls.push(format!("run:{run_id}"));
                    self.current_run = None;
                    service.removed(Ok(DeleteOutcome::Deleted));
                }
                RunPurgeStage::Done => unreachable!(),
            }
        }
        Ok(service.report(ProviderTelemetry::default(), at(2, 1, 2), at(2, 1, 3)))
    }
}

fn fake_runs(artifacts: Vec<Artifact>) -> FakeRuns {
    FakeRuns {
        account: example_account(),
        current_run: Some(run(7)),
        artifacts,
        calls: Vec::new(),
    }
}

#[test]
fn plan_snapshots_run_artifacts_before_any_mutation() {
    let provider = fake_runs(vec![artifact(2, 7), artifact(1, 7)]);
    let plan = provider.plan(&snapshot(vec![run(7)]), vec![run(7)]).unwrap();

    assert_eq!(plan.summary().run_count(), 1);
    assert_eq!(plan.summary().artifact_count(), 2);
    assert_eq!(plan.targets()[0].artifacts()[0].id, 1);
    assert_eq!(plan.targets()[0].artifacts()[1].id, 2);
    assert!(provider.calls.is_empty());
}

#[test]
fn revalidation_rejects_unexpected_artifact_dependencies() {
    let mut provider = fake_runs(vec![artifact(1, 7)]);
    let plan = provider.plan(&snapshot(vec![run(7)]), vec![run(7)]).unwrap();

    provider.artifacts.push(artifact(2, 7));
    let report = provider.revalidate(&plan).unwrap();

    assert_eq!(report.items[0].state, RunPurgeRevalidationState::Changed);
    assert_eq!(report.items[0].unexpected_artifact_ids, vec![2]);
    assert!(!report.is_safe_to_apply());
}

#[test]
fn execution_deletes_logs_then_artifacts_then_run_and_records_order() {
    let mut provider = fake_runs(vec![artifact(1, 7), artifact(2, 7)]);
    let plan = provider.plan(&snapshot(vec![run(7)]), vec![run(7)]).unwrap();
    let reviewed = provider.revalidate(&plan).unwrap();

    let report = provider.execute(&plan, &reviewed).unwrap();

    assert!(report.is_complete_success());
    assert_eq!(report.deleted_run_count(), 1);
    assert_eq!(report.reclaimed_artifact_bytes(), 300);
    assert_eq!(
        provider.calls,
        vec![
            "logs:7".to_owned(),
            "artifact:1".to_owned(),
            "artifact:2".to_owned(),
            "run:7".to_owned(),
        ]
    );
}

#[test]
fn plan_rejects_incomplete_inventory() {
    let mut snapshot = snapshot(vec![run(7)]);
    snapshot.issues.push(ScanIssue {
        repository: Some("example-user/project-alpha".to_owned()),
        message: "fixture failure".to_owned(),
    });

    let result = RunPurgePlan::new(
        &snapshot,
        at(2, 1, 1),
        all_completed(),
        vec![RunPurgeTarget::new(run(7), Vec::new(), true)],
    );

    assert!(matches!(
        result,
        Err(RunPurgeError::IncompleteSnapshot { issue_count: 1 })
    ));
}

fn problem_of(snapshot: &WorkflowRunInventorySnapshot, targets: Vec<RunPurgeTarget>) -> RunPurgeError {
    RunPurgePlan::new(snapshot, at(2, 1, 1), all_completed(), targets).unwrap_err()
}

#[test]
fn plans_hold_only_what_they_may_delete() {
    let known = snapshot(vec![run(7)]);
    assert!(matches!(
        problem_of(&known, vec![RunPurgeTarget::new(run(8), Vec::new(), true)]),
        RunPurgeError::RunNotInSnapshot { run_id: 8, .. }
    ));
    let twice = RunPurgeTarget::new(run(7), Vec::new(), true);
    assert!(matches!(
        problem_of(&known, vec![twice.clone(), twice]),
        RunPurgeError::DuplicateRunTarget { run_id: 7, .. }
    ));
    let mut active = run(7);
    active.status = "in_progress".to_owned();
    assert!(matches!(
        problem_of(&snapshot(vec![active.clone()]), vec![RunPurgeTarget::new(active, Vec::new(), true)]),
        RunPurgeError::RunNotCompleted { run_id: 7, .. }
    ));
    assert!(matches!(
        problem_of(&known, vec![RunPurgeTarget::new(run(7), vec![artifact(1, 9)], true)]),
        RunPurgeError::ArtifactRunMismatch { artifact_id: 1, artifact_run_id: 9, .. }
    ));
    let mut foreign = artifact(1, 7);
    foreign.repository.id = 2;
    assert!(matches!(
        problem_of(&known, vec![RunPurgeTarget::new(run(7), vec![foreign], true)]),
        RunPurgeError::ArtifactRepositoryMismatch { artifact_id: 1, .. }
    ));
    assert!(matches!(
        problem_of(&known, vec![RunPurgeTarget::new(run(7), vec![artifact(1, 7), artifact(1, 7)], true)]),
        RunPurgeError::DuplicateArtifactTarget { artifact_id: 1, .. }
    ));
}

#[test]
fn a_made_plan_passes_its_own_check() {
    let plan = fake_runs(vec![artifact(1, 7)])
        .plan(&snapshot(vec![run(7)]), vec![run(7)])
        .unwrap();
    assert_eq!(plan.validate_integrity(), Ok(()));
    let tampered = RunPurgePlan::restored(
        plan.schema_version(),
        plan.created_at(),
        plan.scanned_at(),
        plan.account().clone(),
        plan.scope().clone(),
        plan.selection().clone(),
        plan.summary().clone(),
        Vec::new(),
    );
    assert_eq!(tampered.validate_integrity(), Err(RunPurgeError::PlanSummaryMismatch));
    let newer = RunPurgePlan::restored(
        9,
        plan.created_at(),
        plan.scanned_at(),
        plan.account().clone(),
        plan.scope().clone(),
        plan.selection().clone(),
        plan.summary().clone(),
        plan.targets().clone(),
    );
    assert_eq!(
        newer.validate_integrity(),
        Err(RunPurgeError::UnsupportedPlanSchema { found: 9, supported: 1 })
    );
}

#[test]
fn runs_that_change_during_planning_end_it() {
    let mut provider = fake_runs(Vec::new());
    provider.current_run = None;
    assert!(matches!(
        provider.plan(&snapshot(vec![run(7)]), vec![run(7)]),
        Err(RunPurgeError::RunDisappearedDuringPlanning { run_id: 7, .. })
    ));
    let mut changed = run(7);
    changed.run_attempt = 2;
    provider.current_run = Some(changed);
    assert!(matches!(
        provider.plan(&snapshot(vec![run(7)]), vec![run(7)]),
        Err(RunPurgeError::RunChangedDuringPlanning { run_id: 7, .. })
    ));
    let scanned = snapshot(vec![run(7)]);
    let mut service =
        RunPurgePlanningService::new(&scanned, vec![run(7)], all_completed()).unwrap();
    service.account_answered(Ok(example_account())).unwrap();
    service.run_answered(Ok(Some(run(7)))).unwrap();
    assert!(matches!(
        service.artifacts_listed(Err(ProviderError::Transport("down".to_owned()))),
        Err(RunPurgeError::DependencySnapshotFailed { run_id: 7, .. })
    ));
    assert_eq!(service.next(), Ok(RunPurgePlanningStep::ListArtifacts));
}

#[test]
fn another_account_ends_a_run_purge_before_anything_is_asked() {
    let other = Account { provider: "example".to_owned(), login: "other".to_owned() };
    let mut provider = fake_runs(vec![artifact(1, 7)]);
    let scanned = snapshot(vec![run(7)]);
    let plan = provider.plan(&scanned, vec![run(7)]).unwrap();
    let reviewed = provider.revalidate(&plan).unwrap();
    provider.account = other;
    let mismatch = RunPurgeError::AccountMismatch {
        expected: "example:example-user".to_owned(),
        current: "example:other".to_owned(),
    };
    assert_eq!(provider.plan(&scanned, vec![run(7)]).unwrap_err(), mismatch);
    assert_eq!(provider.revalidate(&plan).unwrap_err(), mismatch);
    assert_eq!(provider.execute(&plan, &reviewed).unwrap_err(), mismatch);
    assert!(provider.calls.is_empty());

    let limited = ProviderError::RateLimited {
        retry_after_seconds: Some(30),
        message: "slow down".to_owned(),
    };
    let mut service = RunPurgeExecutionService::new(
        &plan,
        &reviewed,
        ExecutionAuthorization::interactive_confirmation(),
    )
    .unwrap();
    assert_eq!(
        service.account_answered(Err(limited.clone())),
        Err(RunPurgeError::Provider(limited))
    );
    assert_eq!(service.next(), RunPurgeStep::Account);
}

#[test]
fn a_run_purge_reports_each_target_under_its_permission() {
    let mut provider = fake_runs(vec![artifact(1, 7)]);
    let plan = provider.plan(&snapshot(vec![run(7)]), vec![run(7)]).unwrap();
    let reviewed = provider.revalidate(&plan).unwrap();
    let report = provider.execute(&plan, &reviewed).unwrap();
    assert_eq!(report.items.len(), plan.targets().len());
    assert_eq!(report.authorization, ExecutionAuthorizationKind::AutomationYes);
    assert_eq!(report.account, example_account());
    assert_eq!(report.plan_created_at, plan.created_at());
    assert_eq!(provider.calls, vec!["logs:7", "artifact:1", "run:7"]);
}

#[test]
fn a_run_summary_adds_up_every_artifact() {
    let provider = fake_runs(vec![artifact(2, 7), artifact(1, 7)]);
    let plan = provider.plan(&snapshot(vec![run(7)]), vec![run(7)]).unwrap();
    assert_eq!(plan.summary().artifact_count(), 2);
    assert_eq!(plan.summary().artifact_bytes(), 300);
    let mut huge = artifact(2, 7);
    huge.size_in_bytes = u64::MAX;
    let provider = fake_runs(vec![artifact(1, 7), huge]);
    let plan = provider.plan(&snapshot(vec![run(7)]), vec![run(7)]).unwrap();
    assert_eq!(plan.summary().artifact_bytes(), u64::MAX);
}

#[test]
fn another_account_cannot_carry_a_plan_out() {
    let other = Account { provider: "example".to_owned(), login: "other".to_owned() };
    assert!(matches!(
        ensure_same_account(&example_account(), &other),
        Err(RunPurgeError::AccountMismatch { .. })
    ));
    let shouted = Account { provider: "example".to_owned(), login: "EXAMPLE-USER".to_owned() };
    assert!(ensure_same_account(&example_account(), &shouted).is_err());
    assert_eq!(ensure_same_account(&example_account(), &example_account()), Ok(()));
}

#[test]
fn an_unsafe_review_starts_no_execution() {
    let mut provider = fake_runs(vec![artifact(1, 7)]);
    let plan = provider.plan(&snapshot(vec![run(7)]), vec![run(7)]).unwrap();
    let mut reviewed = provider.revalidate(&plan).unwrap();
    reviewed.items[0].state = RunPurgeRevalidationState::Changed;
    assert_eq!(
        provider.execute(&plan, &reviewed).unwrap_err(),
        RunPurgeError::UnsafeReviewedReport
    );
    reviewed.items.clear();
    assert_eq!(
        provider.execute(&plan, &reviewed).unwrap_err(),
        RunPurgeError::ReviewedReportMismatch
    );
    assert!(provider.calls.is_empty());
}

#[test]
fn a_run_that_is_gone_is_not_deleted_again() {
    let mut provider = fake_runs(vec![artifact(1, 7)]);
    let plan = provider.plan(&snapshot(vec![run(7)]), vec![run(7)]).unwrap();
    let reviewed = provider.revalidate(&plan).unwrap();
    provider.current_run = None;
    provider.artifacts.clear();
    let report = provider.execute(&plan, &reviewed).unwrap();
    assert_eq!(report.items[0].run.state, RunPurgeExecutionState::AlreadyAbsent);
    assert!(provider.calls.is_empty());
    assert_eq!(report.deleted_run_count(), 0);
    assert_eq!(report.run_count(), 1);
}

#[test]
fn a_new_artifact_stops_the_run_from_going() {
    let mut provider = fake_runs(vec![artifact(1, 7)]);
    let plan = provider.plan(&snapshot(vec![run(7)]), vec![run(7)]).unwrap();
    let reviewed = provider.revalidate(&plan).unwrap();
    provider.artifacts.push(artifact(2, 7));
    let report = provider.execute(&plan, &reviewed).unwrap();
    assert!(!report.is_complete_success());
    assert!(!provider.calls.contains(&"run:7".to_owned()));
    assert!(provider.current_run.is_some());
}

#[test]
fn drift_tells_missing_changed_and_unexpected() {
    let planned = vec![artifact(1, 7), artifact(2, 7), artifact(3, 7)];
    let mut changed = artifact(2, 7);
    changed.size_in_bytes += 1;
    let drift = artifact_drift(&planned, &vec![changed, artifact(3, 7), artifact(4, 7)]);
    assert_eq!(drift.missing, vec![1]);
    assert_eq!(drift.changed, vec![2]);
    assert_eq!(drift.unexpected, vec![4]);
    let none = artifact_drift(&planned, &planned);
    assert!(none.missing.is_empty() && none.changed.is_empty() && none.unexpected.is_empty());
}

fn sample_cache(id: u64) -> ActionsCache {
    ActionsCache {
        id,
        repository: RepositoryRef { id: 1, full_name: "example-user/project-alpha".to_owned() },
        key: "build-cache".to_owned(),
        version: "v1".to_owned(),
        git_ref: "refs/heads/main".to_owned(),
        created_at: at(1, 1, 0),
        last_accessed_at: at(1, 2, 0),
        size_in_bytes: 1024,
    }
}

fn github_account() -> Account {
    Account { provider: "github".to_owned(), login: "example-user".to_owned() }
}

fn cache_snapshot(caches: Vec<ActionsCache>) -> CacheInventorySnapshot {
    CacheInventorySnapshot {
        account: github_account(),
        scope: ScanScope::Repository("example-user/project-alpha".to_owned()),
        scanned_at: at(2, 1, 0),
        elapsed_ms: 1,
        repositories: Vec::new(),
        caches,
        issues: Vec::new(),
        telemetry: ProviderTelemetry::default(),
    }
}

struct FakeCaches {
    account: Account,
    caches: Vec<ActionsCache>,
    deleted: u64,
    telemetry: ProviderTelemetry,
}

impl FakeCaches {
    fn new(caches: Vec<ActionsCache>) -> Self {
        FakeCaches {
            account: github_account(),
            caches,
            deleted: 0,
            telemetry: ProviderTelemetry::default(),
        }
    }

    fn find(&self, id: u64) -> Option<ActionsCache> {
        self.caches.iter().find(|cache| cache.id == id).cloned()
    }

    fn plan(
        &self,
        snapshot: &CacheInventorySnapshot,
        chosen: Vec<ActionsCache>,
    ) -> Result<CachePurgePlan, CachePurgeError> {
        let mut service =
            CachePurgePlanningService::new(snapshot, chosen, CachePurgeSelection::all())?;
        loop {
            match service.next() {
                CachePurgePlanningStep::Account => {
                    service.account_answered(Ok(self.account.clone()))?
                }
                CachePurgePlanningStep::Attempt => service.attempt(&self.telemetry)?,
                CachePurgePlanningStep::LookUp => {
                    let answer = self.find(service.current().id);
                    service.answered(Ok(answer))?
                }
                CachePurgePlanningStep::Finished => break,
            }
        }
        service.build()
    }

    fn try_revalidate(
        &self,
        plan: &CachePurgePlan,
    ) -> Result<CachePurgeRevalidationReport, CachePurgeError> {
        let mut service = CachePurgeRevalidationService::new(plan)?;
        loop {
            match service.next() {
                CachePurgeRevalidationStep::Account => {
                    service.account_answered(Ok(self.account.clone()))?
                }
                CachePurgeRevalidationStep::Attempt => {
                    service.attempt(&self.telemetry);
                }
                CachePurgeRevalidationStep::LookUp => {
                    let answer = self.find(service.current().id);
                    service.answered(Ok(answer));
                }
                CachePurgeRevalidationStep::Finished => break,
            }
        }
        Ok(service.report(at(2, 1, 1), self.telemetry.clone()))
    }

    fn revalidate(&self, plan: &CachePurgePlan) -> CachePurgeRevalidationReport {
        self.try_revalidate(plan).unwrap()
    }

    fn execute(
        &mut self,
        plan: &CachePurgePlan,
        reviewed: &CachePurgeRevalidationReport,
        removal: Result<DeleteOutcome, ProviderError>,
    ) -> Result<CachePurgeExecutionReport, CachePurgeError> {
        let mut service = CachePurgeExecutionService::new(
            plan,
            reviewed,
            ExecutionAuthorization::interactive_confirmation(),
        )?;
        loop {
            match service.next() {
                CachePurgeStage::Account => service.account_answered(Ok(self.account.clone()))?,
                CachePurgeStage::Attempt => {
                    service.attempt(&self.telemetry);
                }
                CachePurgeStage::LookUp => {
                    let answer = self.find(service.current().id);
                    service.looked_up(Ok(answer));
                }
                CachePurgeStage::Verify => {
                    let answer = self.find(service.current().id);
                    service.looked_up(Ok(answer));
                }
                CachePurgeStage::Delete => {
                    let id = service.current().id;
                    if removal.is_ok() {
                        self.deleted += 1;
                        self.caches.retain(|cache| cache.id != id);
                    }
                    service.removed(removal.clone());
                }
                CachePurgeStage::Finished => break,
            }
        }
        Ok(service.report(self.telemetry.clone(), at(2, 1, 2), at(2, 1, 3)))
    }
}

#[test]
fn deletes_exact_cache_then_verifies_absence() {
    let cache = sample_cache(42);
    let mut provider = FakeCaches::new(vec![cache.clone()]);
    let snapshot = cache_snapshot(vec![cache.clone()]);
    let plan = provider.plan(&snapshot, vec![cache]).unwrap();
    let reviewed = provider.revalidate(&plan);
    let report = provider.execute(&plan, &reviewed, Ok(DeleteOutcome::Deleted)).unwrap();

    assert!(report.is_complete_success());
    assert_eq!(report.deleted_cache_count(), 1);
    assert_eq!(provider.deleted, 1);
    assert_eq!(report.reclaimed_bytes(), 1024);
}

#[test]
fn recognizes_nested_rate_limit_errors() {
    assert!(is_provider_rate_limit_error(
        "provider reported successful cache deletion, but post-delete verification failed: provider rate limit reached: API rate limit exceeded"
    ));
    assert!(!is_provider_rate_limit_error("permission denied"));
}

#[test]
fn cache_plans_hold_only_known_caches() {
    let provider = FakeCaches::new(vec![sample_cache(42)]);
    let mut partial = cache_snapshot(vec![sample_cache(42)]);
    partial.issues.push(ScanIssue { repository: None, message: "x".to_owned() });
    assert_eq!(
        provider.plan(&partial, vec![sample_cache(42)]).unwrap_err(),
        CachePurgeError::IncompleteSnapshot { issue_count: 1 }
    );
    let known = cache_snapshot(vec![sample_cache(42)]);
    assert!(matches!(
        provider.plan(&known, vec![sample_cache(43)]),
        Err(CachePurgeError::CacheNotInSnapshot { cache_id: 43, .. })
    ));
    let empty = FakeCaches::new(Vec::new());
    assert!(matches!(
        empty.plan(&known, vec![sample_cache(42)]),
        Err(CachePurgeError::CacheDisappearedDuringPlanning { cache_id: 42, .. })
    ));
    let mut changed = sample_cache(42);
    changed.size_in_bytes = 1;
    assert!(matches!(
        FakeCaches::new(vec![changed]).plan(&known, vec![sample_cache(42)]),
        Err(CachePurgeError::CacheChangedDuringPlanning { cache_id: 42, .. })
    ));
    assert!(matches!(
        CachePurgePlan::new(
            &known,
            at(2, 1, 1),
            CachePurgeSelection::explicit(vec![42]),
            vec![sample_cache(42), sample_cache(42)],
        ),
        Err(CachePurgeError::DuplicateTarget { cache_id: 42, .. })
    ));
}

#[test]
fn a_tampered_cache_plan_is_refused() {
    let provider = FakeCaches::new(vec![sample_cache(42)]);
    let plan = provider
        .plan(&cache_snapshot(vec![sample_cache(42)]), vec![sample_cache(42)])
        .unwrap();
    assert_eq!(plan.validate_integrity(), Ok(()));
    assert_eq!(plan.summary().cache_bytes(), 1024);
    let mut fewer = plan.clone();
    fewer.targets.clear();
    assert_eq!(fewer.validate_integrity(), Err(CachePurgeError::PlanSummaryMismatch));
    let mut newer = plan.clone();
    newer.schema_version = 2;
    assert_eq!(
        newer.validate_integrity(),
        Err(CachePurgeError::UnsupportedPlanSchema { found: 2, supported: 1 })
    );
    let mut other = plan.clone();
    other.resource = "release".to_owned();
    assert_eq!(
        other.validate_integrity(),
        Err(CachePurgeError::WrongResource("release".to_owned()))
    );
}

#[test]
fn a_low_rate_limit_stops_a_purge() {
    let low = ProviderTelemetry { api_requests: 9, rate_limit_remaining: Some(250) };
    let enough = ProviderTelemetry { api_requests: 9, rate_limit_remaining: Some(251) };
    assert_eq!(rate_limit_guard_remaining(&low), Some(250));
    assert_eq!(rate_limit_guard_remaining(&enough), None);
    assert_eq!(rate_limit_guard_remaining(&ProviderTelemetry::default()), None);
    let mut provider = FakeCaches::new(vec![sample_cache(42)]);
    let known = cache_snapshot(vec![sample_cache(42)]);
    let plan = provider.plan(&known, vec![sample_cache(42)]).unwrap();
    let reviewed = provider.revalidate(&plan);
    provider.telemetry = low;
    assert!(matches!(
        provider.plan(&known, vec![sample_cache(42)]),
        Err(CachePurgeError::RateLimitHeadroomGuard { remaining: 250, .. })
    ));
    let late_review = provider.revalidate(&plan);
    assert_eq!(
        late_review.items[0].state,
        CachePurgeRevalidationState::RevalidationFailed
    );
    assert!(!late_review.is_safe_to_apply());
    let report = provider.execute(&plan, &reviewed, Ok(DeleteOutcome::Deleted)).unwrap();
    assert_eq!(report.items[0].state, CachePurgeExecutionState::Blocked);
    assert_eq!(provider.deleted, 0);
}

#[test]
fn a_rate_limit_blocks_the_remaining_caches() {
    let caches = vec![sample_cache(42), sample_cache(43)];
    let mut provider = FakeCaches::new(caches.clone());
    let plan = provider.plan(&cache_snapshot(caches.clone()), caches).unwrap();
    let reviewed = provider.revalidate(&plan);
    let limited = ProviderError::RateLimited {
        retry_after_seconds: None,
        message: "API rate limit exceeded".to_owned(),
    };
    let report = provider.execute(&plan, &reviewed, Err(limited)).unwrap();
    assert_eq!(report.items[0].state, CachePurgeExecutionState::DeleteFailed);
    assert_eq!(report.items[1].state, CachePurgeExecutionState::Blocked);
    assert!(!report.is_complete_success());
}

#[test]
fn changed_caches_stay() {
    let mut provider = FakeCaches::new(vec![sample_cache(42)]);
    let plan = provider
        .plan(&cache_snapshot(vec![sample_cache(42)]), vec![sample_cache(42)])
        .unwrap();
    let reviewed = provider.revalidate(&plan);
    provider.caches[0].version = "v2".to_owned();
    let report = provider.execute(&plan, &reviewed, Ok(DeleteOutcome::Deleted)).unwrap();
    assert_eq!(report.items[0].state, CachePurgeExecutionState::Changed);
    assert_eq!(provider.deleted, 0);
    let mut other = reviewed.clone();
    other.items.clear();
    assert_eq!(
        provider.execute(&plan, &other, Ok(DeleteOutcome::Deleted)).unwrap_err(),
        CachePurgeError::ReviewTargetMismatch
    );
    let mut unsafe_review = reviewed;
    unsafe_review.items[0].state = CachePurgeRevalidationState::Changed;
    assert_eq!(
        provider.execute(&plan, &unsafe_review, Ok(DeleteOutcome::Deleted)).unwrap_err(),
        CachePurgeError::ReviewUnsafe
    );
}

#[test]
fn another_account_ends_a_cache_purge_before_anything_is_asked() {
    let mut provider = FakeCaches::new(vec![sample_cache(42)]);
    let known = cache_snapshot(vec![sample_cache(42)]);
    let plan = provider.plan(&known, vec![sample_cache(42)]).unwrap();
    let reviewed = provider.revalidate(&plan);
    provider.account.login = "other".to_owned();
    let mismatch = CachePurgeError::AccountMismatch {
        expected: "github:example-user".to_owned(),
        current: "github:other".to_owned(),
    };
    assert_eq!(provider.plan(&known, vec![sample_cache(42)]).unwrap_err(), mismatch);
    assert_eq!(provider.try_revalidate(&plan).unwrap_err(), mismatch);
    assert_eq!(
        provider.execute(&plan, &reviewed, Ok(DeleteOutcome::Deleted)).unwrap_err(),
        mismatch
    );
    assert_eq!(provider.deleted, 0);

    let limited = ProviderError::RateLimited {
        retry_after_seconds: Some(30),
        message: "slow down".to_owned(),
    };
    let mut service = CachePurgeRevalidationService::new(&plan).unwrap();
    assert_eq!(
        service.account_answered(Err(limited.clone())),
        Err(CachePurgeError::Provider(limited))
    );
    assert_eq!(service.next(), CachePurgeRevalidationStep::Account);
}

#[test]
fn a_cache_plan_has_the_chosen_caches_in_order() {
    let scanned = vec![sample_cache(41), sample_cache(42), sample_cache(43)];
    let provider = FakeCaches::new(scanned.clone());
    let plan = provider
        .plan(&cache_snapshot(scanned), vec![sample_cache(43), sample_cache(41)])
        .unwrap();
    assert_eq!(plan.targets, vec![sample_cache(41), sample_cache(43)]);
    assert_eq!(plan.account, github_account());
}

#[test]
fn a_halted_cache_purge_reaches_no_lookup() {
    let low = ProviderTelemetry { api_requests: 9, rate_limit_remaining: Some(1) };
    let caches = vec![sample_cache(42), sample_cache(43)];
    let provider = FakeCaches::new(caches.clone());
    let plan = provider.plan(&cache_snapshot(caches.clone()), caches).unwrap();
    let reviewed = provider.revalidate(&plan);
    let mut service = CachePurgeExecutionService::new(
        &plan,
        &reviewed,
        ExecutionAuthorization::automation_yes(),
    )
    .unwrap();
    service.account_answered(Ok(github_account())).unwrap();
    assert_eq!(service.next(), CachePurgeStage::Attempt);
    assert!(!service.attempt(&low));
    assert_eq!(service.next(), CachePurgeStage::Attempt);
    assert!(!service.attempt(&ProviderTelemetry::default()));
    assert_eq!(service.next(), CachePurgeStage::Finished);
    let report = service.report(low, at(2, 1, 2), at(2, 1, 3));
    assert_eq!(report.items.len(), plan.targets.len());
    assert_eq!(report.items[0].state, CachePurgeExecutionState::Blocked);
    assert_eq!(report.items[1].error, report.items[0].error);
    assert_eq!(report.authorization, ExecutionAuthorizationKind::AutomationYes);
    assert_eq!(report.account, github_account());
}
