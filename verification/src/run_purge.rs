//! Plans that purge workflow runs together with their logs and artifacts.
use crate::inventory::artifact_sizes_add_up;
use crate::model::{
    Account, AccountView, Artifact, ArtifactView, ProviderError, ProviderErrorView, ScanScope, ScanScopeView, WorkflowRun,
    WorkflowRunInventorySnapshot, WorkflowRunInventorySnapshotView, WorkflowRunView,
};
use crate::order::{
    le, lemma_one_part, lemma_sorted_contains, lemma_sorted_pairwise, lemma_sorted_pointwise, lemma_two_parts, sort,
    sorted, sorting_is_an_ordered_rearrangement, sum_by, KeyPart, Order, Part,
};
use crate::text::{
    case_is_disregarded, decimal, equal_but_for_case, join3, lemma_text_less_irreflexive, number, text_less,
};
use crate::time::Timestamp;
use crate::totals::{capped, total};
use crate::value::{add_to, nothing, Value};
use vstd::prelude::*;
use vstd::string::StringExecFns;

verus! {

/// The version of the plans that this library writes and reads.
pub const RUN_PURGE_PLAN_SCHEMA_VERSION: u32 = 1;

/// How the runs of a plan were chosen.
#[derive(Clone, Copy, Debug, PartialEq, Eq, Structural)]
pub enum RunPurgeSelectionMode {
    ExplicitRunIds,
    AllCompleted,
}

impl DeepView for RunPurgeSelectionMode {
    type V = RunPurgeSelectionMode;

    open spec fn deep_view(&self) -> RunPurgeSelectionMode {
        *self
    }
}

impl Value for RunPurgeSelectionMode {
    fn copied(&self) -> (result: Self) {
        *self
    }

    fn same(&self, other: &Self) -> (result: bool) {
        *self == *other
    }
}

/// What was asked for when the runs of a plan were chosen.
#[derive(Clone, Debug, PartialEq, Eq)]
pub struct RunPurgeSelection {
    pub mode: RunPurgeSelectionMode,
    pub requested_run_ids: Vec<u64>,
    pub older_than_seconds: Option<u64>,
    pub workflow: Option<String>,
    pub branch: Option<String>,
    pub event: Option<String>,
    pub conclusion: Option<String>,
}

/// The contents of [`RunPurgeSelection`].
#[verifier::ext_equal]
pub struct RunPurgeSelectionView {
    pub mode: RunPurgeSelectionMode,
    pub requested_run_ids: Seq<u64>,
    pub older_than_seconds: Option<u64>,
    pub workflow: Option<Seq<char>>,
    pub branch: Option<Seq<char>>,
    pub event: Option<Seq<char>>,
    pub conclusion: Option<Seq<char>>,
}

impl DeepView for RunPurgeSelection {
    type V = RunPurgeSelectionView;

    open spec fn deep_view(&self) -> RunPurgeSelectionView {
        RunPurgeSelectionView {
            mode: self.mode,
            requested_run_ids: self.requested_run_ids.deep_view(),
            older_than_seconds: self.older_than_seconds,
            workflow: self.workflow.deep_view(),
            branch: self.branch.deep_view(),
            event: self.event.deep_view(),
            conclusion: self.conclusion.deep_view(),
        }
    }
}

impl Value for RunPurgeSelection {
    fn copied(&self) -> (result: Self) {
        RunPurgeSelection {
            mode: self.mode,
            requested_run_ids: self.requested_run_ids.copied(),
            older_than_seconds: self.older_than_seconds,
            workflow: self.workflow.copied(),
            branch: self.branch.copied(),
            event: self.event.copied(),
            conclusion: self.conclusion.copied(),
        }
    }

    fn same(&self, other: &Self) -> (result: bool) {
        self.mode == other.mode
            && self.requested_run_ids.same(&other.requested_run_ids)
            && self.older_than_seconds.same(&other.older_than_seconds)
            && self.workflow.same(&other.workflow)
            && self.branch.same(&other.branch)
            && self.event.same(&other.event)
            && self.conclusion.same(&other.conclusion)
    }
}

/// How much a plan covers.
#[derive(Clone, Debug, PartialEq, Eq)]
pub struct RunPurgePlanSummary {
    run_count: usize,
    artifact_count: usize,
    artifact_bytes: u64,
}

/// The contents of [`RunPurgePlanSummary`].
#[verifier::ext_equal]
pub struct RunPurgePlanSummaryView {
    pub run_count: usize,
    pub artifact_count: usize,
    pub artifact_bytes: u64,
}

impl DeepView for RunPurgePlanSummary {
    type V = RunPurgePlanSummaryView;

    closed spec fn deep_view(&self) -> RunPurgePlanSummaryView {
        RunPurgePlanSummaryView {
            run_count: self.run_count,
            artifact_count: self.artifact_count,
            artifact_bytes: self.artifact_bytes,
        }
    }
}

impl Value for RunPurgePlanSummary {
    fn copied(&self) -> (result: Self) {
        RunPurgePlanSummary {
            run_count: self.run_count,
            artifact_count: self.artifact_count,
            artifact_bytes: self.artifact_bytes,
        }
    }

    fn same(&self, other: &Self) -> (result: bool) {
        self.run_count == other.run_count
            && self.artifact_count == other.artifact_count
            && self.artifact_bytes == other.artifact_bytes
    }
}

impl RunPurgePlanSummary {
    /// A summary as it was stored.
    pub fn restored(run_count: usize, artifact_count: usize, artifact_bytes: u64) -> (result: Self)
        ensures
            result.deep_view() == (RunPurgePlanSummaryView { run_count, artifact_count, artifact_bytes }),
    {
        RunPurgePlanSummary { run_count, artifact_count, artifact_bytes }
    }

    pub fn run_count(&self) -> (result: usize)
        ensures
            result == self.deep_view().run_count,
    {
        self.run_count
    }

    pub fn artifact_count(&self) -> (result: usize)
        ensures
            result == self.deep_view().artifact_count,
    {
        self.artifact_count
    }

    pub fn artifact_bytes(&self) -> (result: u64)
        ensures
            result == self.deep_view().artifact_bytes,
    {
        self.artifact_bytes
    }

}

/// A workflow run to purge, and what is purged with it.
#[derive(Clone, Debug, PartialEq, Eq)]
pub struct RunPurgeTarget {
    run: WorkflowRun,
    artifacts: Vec<Artifact>,
    delete_logs: bool,
}

/// The contents of [`RunPurgeTarget`].
#[verifier::ext_equal]
pub struct RunPurgeTargetView {
    pub run: WorkflowRunView,
    pub artifacts: Seq<ArtifactView>,
    pub delete_logs: bool,
}

impl DeepView for RunPurgeTarget {
    type V = RunPurgeTargetView;

    closed spec fn deep_view(&self) -> RunPurgeTargetView {
        RunPurgeTargetView {
            run: self.run.deep_view(),
            artifacts: self.artifacts.deep_view(),
            delete_logs: self.delete_logs,
        }
    }
}

impl Value for RunPurgeTarget {
    fn copied(&self) -> (result: Self) {
        RunPurgeTarget {
            run: self.run.copied(),
            artifacts: self.artifacts.copied(),
            delete_logs: self.delete_logs,
        }
    }

    fn same(&self, other: &Self) -> (result: bool) {
        self.run.same(&other.run)
            && self.artifacts.same(&other.artifacts)
            && self.delete_logs == other.delete_logs
    }
}

impl RunPurgeTarget {
    pub fn new(run: WorkflowRun, artifacts: Vec<Artifact>, delete_logs: bool) -> (result: Self)
        ensures
            result.deep_view() == (RunPurgeTargetView {
                run: run.deep_view(),
                artifacts: artifacts.deep_view(),
                delete_logs,
            }),
    {
        RunPurgeTarget { run, artifacts, delete_logs }
    }

    pub fn run(&self) -> (result: &WorkflowRun)
        ensures
            result.deep_view() == self.deep_view().run,
    {
        &self.run
    }

    pub fn artifacts(&self) -> (result: &Vec<Artifact>)
        ensures
            result.deep_view() == self.deep_view().artifacts,
    {
        &self.artifacts
    }

    pub fn delete_logs(&self) -> (result: bool)
        ensures
            result == self.deep_view().delete_logs,
    {
        self.delete_logs
    }

}

/// A plan that purges workflow runs. It does not change once it is made.
#[derive(Clone, Debug, PartialEq, Eq)]
pub struct RunPurgePlan {
    schema_version: u32,
    created_at: Timestamp,
    scanned_at: Timestamp,
    account: Account,
    scope: ScanScope,
    selection: RunPurgeSelection,
    summary: RunPurgePlanSummary,
    targets: Vec<RunPurgeTarget>,
}

/// The contents of [`RunPurgePlan`].
#[verifier::ext_equal]
pub struct RunPurgePlanView {
    pub schema_version: u32,
    pub created_at: Timestamp,
    pub scanned_at: Timestamp,
    pub account: AccountView,
    pub scope: ScanScopeView,
    pub selection: RunPurgeSelectionView,
    pub summary: RunPurgePlanSummaryView,
    pub targets: Seq<RunPurgeTargetView>,
}

impl DeepView for RunPurgePlan {
    type V = RunPurgePlanView;

    closed spec fn deep_view(&self) -> RunPurgePlanView {
        RunPurgePlanView {
            schema_version: self.schema_version,
            created_at: self.created_at,
            scanned_at: self.scanned_at,
            account: self.account.deep_view(),
            scope: self.scope.deep_view(),
            selection: self.selection.deep_view(),
            summary: self.summary.deep_view(),
            targets: self.targets.deep_view(),
        }
    }
}

/// Why runs are not purged.
#[derive(Clone, Debug, PartialEq, Eq)]
pub enum RunPurgeError {
    IncompleteSnapshot { issue_count: usize },
    UnsupportedPlanSchema { found: u32, supported: u32 },
    PlanSummaryMismatch,
    RunNotInSnapshot { repository: String, run_id: u64 },
    DuplicateRunTarget { repository: String, run_id: u64 },
    RunNotCompleted { repository: String, run_id: u64, status: String },
    RunDisappearedDuringPlanning { repository: String, run_id: u64 },
    RunChangedDuringPlanning { repository: String, run_id: u64 },
    DependencySnapshotFailed { repository: String, run_id: u64, message: String },
    ArtifactRepositoryMismatch { repository: String, run_id: u64, artifact_id: u64 },
    ArtifactRunMismatch { repository: String, run_id: u64, artifact_id: u64, artifact_run_id: u64 },
    DuplicateArtifactTarget { repository: String, run_id: u64, artifact_id: u64 },
    AccountMismatch { expected: String, current: String },
    ReviewedReportMismatch,
    UnsafeReviewedReport,
    Provider(ProviderError),
}

/// The contents of [`RunPurgeError`].
#[verifier::ext_equal]
pub enum RunPurgeErrorView {
    IncompleteSnapshot { issue_count: usize },
    UnsupportedPlanSchema { found: u32, supported: u32 },
    PlanSummaryMismatch,
    RunNotInSnapshot { repository: Seq<char>, run_id: u64 },
    DuplicateRunTarget { repository: Seq<char>, run_id: u64 },
    RunNotCompleted { repository: Seq<char>, run_id: u64, status: Seq<char> },
    RunDisappearedDuringPlanning { repository: Seq<char>, run_id: u64 },
    RunChangedDuringPlanning { repository: Seq<char>, run_id: u64 },
    DependencySnapshotFailed { repository: Seq<char>, run_id: u64, message: Seq<char> },
    ArtifactRepositoryMismatch { repository: Seq<char>, run_id: u64, artifact_id: u64 },
    ArtifactRunMismatch { repository: Seq<char>, run_id: u64, artifact_id: u64, artifact_run_id: u64 },
    DuplicateArtifactTarget { repository: Seq<char>, run_id: u64, artifact_id: u64 },
    AccountMismatch { expected: Seq<char>, current: Seq<char> },
    ReviewedReportMismatch,
    UnsafeReviewedReport,
    Provider(ProviderErrorView),
}

impl DeepView for RunPurgeError {
    type V = RunPurgeErrorView;

    open spec fn deep_view(&self) -> RunPurgeErrorView {
        match self {
            RunPurgeError::IncompleteSnapshot { issue_count } => RunPurgeErrorView::IncompleteSnapshot { issue_count: *issue_count },
            RunPurgeError::UnsupportedPlanSchema { found, supported } => RunPurgeErrorView::UnsupportedPlanSchema { found: *found, supported: *supported },
            RunPurgeError::PlanSummaryMismatch => RunPurgeErrorView::PlanSummaryMismatch,
            RunPurgeError::RunNotInSnapshot { repository, run_id } => RunPurgeErrorView::RunNotInSnapshot { repository: repository.deep_view(), run_id: *run_id },
            RunPurgeError::DuplicateRunTarget { repository, run_id } => RunPurgeErrorView::DuplicateRunTarget { repository: repository.deep_view(), run_id: *run_id },
            RunPurgeError::RunNotCompleted { repository, run_id, status } => RunPurgeErrorView::RunNotCompleted { repository: repository.deep_view(), run_id: *run_id, status: status.deep_view() },
            RunPurgeError::RunDisappearedDuringPlanning { repository, run_id } => RunPurgeErrorView::RunDisappearedDuringPlanning { repository: repository.deep_view(), run_id: *run_id },
            RunPurgeError::RunChangedDuringPlanning { repository, run_id } => RunPurgeErrorView::RunChangedDuringPlanning { repository: repository.deep_view(), run_id: *run_id },
            RunPurgeError::DependencySnapshotFailed { repository, run_id, message } => RunPurgeErrorView::DependencySnapshotFailed { repository: repository.deep_view(), run_id: *run_id, message: message.deep_view() },
            RunPurgeError::ArtifactRepositoryMismatch { repository, run_id, artifact_id } => RunPurgeErrorView::ArtifactRepositoryMismatch { repository: repository.deep_view(), run_id: *run_id, artifact_id: *artifact_id },
            RunPurgeError::ArtifactRunMismatch { repository, run_id, artifact_id, artifact_run_id } => RunPurgeErrorView::ArtifactRunMismatch { repository: repository.deep_view(), run_id: *run_id, artifact_id: *artifact_id, artifact_run_id: *artifact_run_id },
            RunPurgeError::DuplicateArtifactTarget { repository, run_id, artifact_id } => RunPurgeErrorView::DuplicateArtifactTarget { repository: repository.deep_view(), run_id: *run_id, artifact_id: *artifact_id },
            RunPurgeError::AccountMismatch { expected, current } => RunPurgeErrorView::AccountMismatch { expected: expected.deep_view(), current: current.deep_view() },
            RunPurgeError::ReviewedReportMismatch => RunPurgeErrorView::ReviewedReportMismatch,
            RunPurgeError::UnsafeReviewedReport => RunPurgeErrorView::UnsafeReviewedReport,
            RunPurgeError::Provider(field0) => RunPurgeErrorView::Provider(field0.deep_view()),
        }
    }
}

impl RunPurgeErrorView {
    /// The error in words.
    pub open spec fn text(self) -> Seq<char> {
        match self {
            RunPurgeErrorView::IncompleteSnapshot { issue_count } => "cannot create a workflow-run purge plan from an incomplete snapshot ("@ + decimal(issue_count as nat) + " scan issue(s))"@,
            RunPurgeErrorView::UnsupportedPlanSchema { found, supported } => "workflow-run purge plan schema version "@ + decimal(found as nat) + " is unsupported; supported version is "@ + decimal(supported as nat),
            RunPurgeErrorView::PlanSummaryMismatch => "workflow-run purge plan summary does not match its immutable targets"@,
            RunPurgeErrorView::RunNotInSnapshot { repository, run_id } => "workflow run "@ + repository + "#"@ + decimal(run_id as nat) + " is not part of the source snapshot"@,
            RunPurgeErrorView::DuplicateRunTarget { repository, run_id } => "duplicate workflow-run purge target "@ + repository + "#"@ + decimal(run_id as nat),
            RunPurgeErrorView::RunNotCompleted { repository, run_id, status } => "workflow run "@ + repository + "#"@ + decimal(run_id as nat) + " is not completed (status "@ + status + ")"@,
            RunPurgeErrorView::RunDisappearedDuringPlanning { repository, run_id } => "workflow run "@ + repository + "#"@ + decimal(run_id as nat) + " disappeared while its purge dependencies were being snapshotted"@,
            RunPurgeErrorView::RunChangedDuringPlanning { repository, run_id } => "workflow run "@ + repository + "#"@ + decimal(run_id as nat) + " changed while its purge dependencies were being snapshotted"@,
            RunPurgeErrorView::DependencySnapshotFailed { repository, run_id, message } => "failed to snapshot dependencies for workflow run "@ + repository + "#"@ + decimal(run_id as nat) + ": "@ + message,
            RunPurgeErrorView::ArtifactRepositoryMismatch { repository, run_id, artifact_id } => "artifact "@ + decimal(artifact_id as nat) + " for "@ + repository + "#"@ + decimal(run_id as nat) + " belongs to a different repository"@,
            RunPurgeErrorView::ArtifactRunMismatch { repository, run_id, artifact_id, artifact_run_id } => "artifact "@ + decimal(artifact_id as nat) + " for "@ + repository + "#"@ + decimal(run_id as nat) + " reports workflow run "@ + decimal(artifact_run_id as nat),
            RunPurgeErrorView::DuplicateArtifactTarget { repository, run_id, artifact_id } => "duplicate artifact "@ + decimal(artifact_id as nat) + " in purge target "@ + repository + "#"@ + decimal(run_id as nat),
            RunPurgeErrorView::AccountMismatch { expected, current } => "authenticated account changed from "@ + expected + " to "@ + current,
            RunPurgeErrorView::ReviewedReportMismatch => "reviewed purge revalidation report does not match the immutable plan"@,
            RunPurgeErrorView::UnsafeReviewedReport => "reviewed purge revalidation report contains unsafe targets"@,
            RunPurgeErrorView::Provider(field0) => field0.text(),
        }
    }
}

impl RunPurgeError {
    /// The error in words.
    pub fn message(&self) -> (result: String)
        ensures
            result@ == self.deep_view().text(),
    {
        match self {
            RunPurgeError::IncompleteSnapshot { issue_count } => {
                let mut text = "cannot create a workflow-run purge plan from an incomplete snapshot (".to_owned();
                text.append(number(*issue_count as u64).as_str());
                text.append(" scan issue(s))");
                text
            },
            RunPurgeError::UnsupportedPlanSchema { found, supported } => {
                let mut text = "workflow-run purge plan schema version ".to_owned();
                text.append(number(*found as u64).as_str());
                text.append(" is unsupported; supported version is ");
                text.append(number(*supported as u64).as_str());
                text
            },
            RunPurgeError::PlanSummaryMismatch => "workflow-run purge plan summary does not match its immutable targets".to_owned(),
            RunPurgeError::RunNotInSnapshot { repository, run_id } => {
                let mut text = "workflow run ".to_owned();
                text.append(repository.as_str());
                text.append("#");
                text.append(number(*run_id).as_str());
                text.append(" is not part of the source snapshot");
                text
            },
            RunPurgeError::DuplicateRunTarget { repository, run_id } => {
                let mut text = "duplicate workflow-run purge target ".to_owned();
                text.append(repository.as_str());
                text.append("#");
                text.append(number(*run_id).as_str());
                text
            },
            RunPurgeError::RunNotCompleted { repository, run_id, status } => {
                let mut text = "workflow run ".to_owned();
                text.append(repository.as_str());
                text.append("#");
                text.append(number(*run_id).as_str());
                text.append(" is not completed (status ");
                text.append(status.as_str());
                text.append(")");
                text
            },
            RunPurgeError::RunDisappearedDuringPlanning { repository, run_id } => {
                let mut text = "workflow run ".to_owned();
                text.append(repository.as_str());
                text.append("#");
                text.append(number(*run_id).as_str());
                text.append(" disappeared while its purge dependencies were being snapshotted");
                text
            },
            RunPurgeError::RunChangedDuringPlanning { repository, run_id } => {
                let mut text = "workflow run ".to_owned();
                text.append(repository.as_str());
                text.append("#");
                text.append(number(*run_id).as_str());
                text.append(" changed while its purge dependencies were being snapshotted");
                text
            },
            RunPurgeError::DependencySnapshotFailed { repository, run_id, message } => {
                let mut text = "failed to snapshot dependencies for workflow run ".to_owned();
                text.append(repository.as_str());
                text.append("#");
                text.append(number(*run_id).as_str());
                text.append(": ");
                text.append(message.as_str());
                text
            },
            RunPurgeError::ArtifactRepositoryMismatch { repository, run_id, artifact_id } => {
                let mut text = "artifact ".to_owned();
                text.append(number(*artifact_id).as_str());
                text.append(" for ");
                text.append(repository.as_str());
                text.append("#");
                text.append(number(*run_id).as_str());
                text.append(" belongs to a different repository");
                text
            },
            RunPurgeError::ArtifactRunMismatch { repository, run_id, artifact_id, artifact_run_id } => {
                let mut text = "artifact ".to_owned();
                text.append(number(*artifact_id).as_str());
                text.append(" for ");
                text.append(repository.as_str());
                text.append("#");
                text.append(number(*run_id).as_str());
                text.append(" reports workflow run ");
                text.append(number(*artifact_run_id).as_str());
                text
            },
            RunPurgeError::DuplicateArtifactTarget { repository, run_id, artifact_id } => {
                let mut text = "duplicate artifact ".to_owned();
                text.append(number(*artifact_id).as_str());
                text.append(" in purge target ");
                text.append(repository.as_str());
                text.append("#");
                text.append(number(*run_id).as_str());
                text
            },
            RunPurgeError::AccountMismatch { expected, current } => {
                let mut text = "authenticated account changed from ".to_owned();
                text.append(expected.as_str());
                text.append(" to ");
                text.append(current.as_str());
                text
            },
            RunPurgeError::ReviewedReportMismatch => "reviewed purge revalidation report does not match the immutable plan".to_owned(),
            RunPurgeError::UnsafeReviewedReport => "reviewed purge revalidation report contains unsafe targets".to_owned(),
            RunPurgeError::Provider(field0) => field0.message(),
        }
    }
}

/// An account as it is written in messages.
pub open spec fn account_text(account: AccountView) -> Seq<char> {
    account.provider + ":"@ + account.login
}

/// Why another account than the planned one is refused.
pub open spec fn other_account(expected: AccountView, current: AccountView) -> RunPurgeErrorView {
    RunPurgeErrorView::AccountMismatch { expected: account_text(expected), current: account_text(current) }
}

/// Why the account that a provider answers with is refused.
pub open spec fn account_problem(expected: AccountView, account: Result<Account, ProviderError>) -> Option<
    RunPurgeErrorView,
> {
    match account {
        Err(error) => Some(RunPurgeErrorView::Provider(error.deep_view())),
        Ok(current) => if current.deep_view() == expected {
            None
        } else {
            Some(other_account(expected, current.deep_view()))
        },
    }
}

/// The account that a provider answers with, where it is the planned one.
pub fn planned_account(expected: &Account, account: Result<Account, ProviderError>) -> (result: Result<
    Account,
    RunPurgeError,
>)
    ensures
        match account_problem(expected.deep_view(), account) {
            Some(problem) => result is Err && result->Err_0.deep_view() == problem,
            None => result is Ok && result->Ok_0.deep_view() == expected.deep_view(),
        },
{
    let current = match account {
        Ok(current) => current,
        Err(error) => {
            return Err(RunPurgeError::Provider(error));
        },
    };
    match ensure_same_account(expected, &current) {
        Ok(()) => Ok(current),
        Err(error) => Err(error),
    }
}

/// Refuses to go on with another account.
pub fn ensure_same_account(expected: &Account, current: &Account) -> (result: Result<(), RunPurgeError>)
    ensures
        result is Ok <==> expected.deep_view() == current.deep_view(),
        result matches Err(error) ==> error.deep_view() == other_account(expected.deep_view(), current.deep_view()),
{
    if expected.same(current) {
        Ok(())
    } else {
        Err(
            RunPurgeError::AccountMismatch {
                expected: join3(expected.provider.as_str(), ":", expected.login.as_str()),
                current: join3(current.provider.as_str(), ":", current.login.as_str()),
            },
        )
    }
}

/// Artifacts by their numbers.
pub struct ArtifactIdOrder;

impl Order<Artifact> for ArtifactIdOrder {
    open spec fn key(&self, value: ArtifactView) -> Seq<Part> {
        seq![Part::Number(value.id as int)]
    }

    fn key_of(&self, item: &Artifact) -> (result: Vec<KeyPart>) {
        let result = vec![KeyPart::Number(item.id as i128)];
        assert(result.deep_view() =~= self.key(item.deep_view()));
        result
    }
}

/// Targets by repository and run number.
pub struct RunTargetOrder;

impl Order<RunPurgeTarget> for RunTargetOrder {
    open spec fn key(&self, value: RunPurgeTargetView) -> Seq<Part> {
        seq![Part::Text(value.run.repository.full_name), Part::Number(value.run.id as int)]
    }

    fn key_of(&self, item: &RunPurgeTarget) -> (result: Vec<KeyPart>) {
        let result = vec![
            KeyPart::Text(item.run.repository.full_name.copied()),
            KeyPart::Number(item.run.id as i128),
        ];
        assert(result.deep_view() =~= self.key(item.deep_view()));
        result
    }
}

/// Two targets that name different runs.
pub open spec fn different_runs(a: RunPurgeTargetView, b: RunPurgeTargetView) -> bool {
    a.run.repository.full_name != b.run.repository.full_name || a.run.id != b.run.id
}

/// Whether a target before `i` names the run of the target at `i`.
pub open spec fn run_repeats(targets: Seq<RunPurgeTargetView>, i: int) -> bool {
    exists|j: int| 0 <= j < i && !different_runs(#[trigger] targets[j], targets[i])
}

/// Whether an artifact before `k` has the number of the artifact at `k`.
pub open spec fn artifact_repeats(artifacts: Seq<ArtifactView>, k: int) -> bool {
    exists|j: int| 0 <= j < k && (#[trigger] artifacts[j]).id == artifacts[k].id
}

/// What is wrong with the artifact at `k` of a target.
pub open spec fn artifact_problem(
    run: WorkflowRunView,
    artifacts: Seq<ArtifactView>,
    k: int,
) -> Option<RunPurgeErrorView> {
    let repository = run.repository.full_name;
    let artifact = artifacts[k];
    if artifact.repository != run.repository {
        Some(
            RunPurgeErrorView::ArtifactRepositoryMismatch {
                repository,
                run_id: run.id,
                artifact_id: artifact.id,
            },
        )
    } else if artifact.workflow_run is Some && artifact.workflow_run->0.id != run.id {
        Some(
            RunPurgeErrorView::ArtifactRunMismatch {
                repository,
                run_id: run.id,
                artifact_id: artifact.id,
                artifact_run_id: artifact.workflow_run->0.id,
            },
        )
    } else if artifact_repeats(artifacts, k) {
        Some(
            RunPurgeErrorView::DuplicateArtifactTarget {
                repository,
                run_id: run.id,
                artifact_id: artifact.id,
            },
        )
    } else {
        None
    }
}

/// The first thing that is wrong with the artifacts from `from` on.
pub open spec fn artifacts_problem(
    run: WorkflowRunView,
    artifacts: Seq<ArtifactView>,
    from: int,
) -> Option<RunPurgeErrorView>
    decreases artifacts.len() - from,
{
    if from < 0 || from >= artifacts.len() {
        None
    } else {
        match artifact_problem(run, artifacts, from) {
            Some(problem) => Some(problem),
            None => artifacts_problem(run, artifacts, from + 1),
        }
    }
}

/// What is wrong with the target at `i`; `known` are the runs that it must be one of, if any
/// are given.
pub open spec fn target_problem(
    known: Option<Seq<WorkflowRunView>>,
    targets: Seq<RunPurgeTargetView>,
    i: int,
) -> Option<RunPurgeErrorView> {
    let run = targets[i].run;
    let repository = run.repository.full_name;
    if !run.completed() {
        Some(RunPurgeErrorView::RunNotCompleted { repository, run_id: run.id, status: run.status })
    } else if known is Some && !known->0.contains(run) {
        Some(RunPurgeErrorView::RunNotInSnapshot { repository, run_id: run.id })
    } else if run_repeats(targets, i) {
        Some(RunPurgeErrorView::DuplicateRunTarget { repository, run_id: run.id })
    } else {
        artifacts_problem(run, targets[i].artifacts, 0)
    }
}

/// The first thing that is wrong with the targets from `from` on.
pub open spec fn targets_problem(
    known: Option<Seq<WorkflowRunView>>,
    targets: Seq<RunPurgeTargetView>,
    from: int,
) -> Option<RunPurgeErrorView>
    decreases targets.len() - from,
{
    if from < 0 || from >= targets.len() {
        None
    } else {
        match target_problem(known, targets, from) {
            Some(problem) => Some(problem),
            None => targets_problem(known, targets, from + 1),
        }
    }
}

/// A target with its artifacts by their numbers.
pub open spec fn arranged(target: RunPurgeTargetView) -> RunPurgeTargetView {
    RunPurgeTargetView { artifacts: sorted::<Artifact, ArtifactIdOrder>(target.artifacts, ArtifactIdOrder), ..target }
}

pub open spec fn all_arranged(targets: Seq<RunPurgeTargetView>) -> Seq<RunPurgeTargetView> {
    Seq::new(targets.len(), |i: int| arranged(targets[i]))
}

/// The artifacts of all targets.
pub open spec fn planned_artifacts(targets: Seq<RunPurgeTargetView>) -> nat {
    sum_by(targets, |target: RunPurgeTargetView| target.artifacts.len())
}

/// The storage that the artifacts of all targets take up.
pub open spec fn planned_bytes(targets: Seq<RunPurgeTargetView>) -> nat {
    sum_by(targets, |target: RunPurgeTargetView| total::<Artifact>(target.artifacts))
}

/// Every artifact of every target.
pub open spec fn artifacts_of(targets: Seq<RunPurgeTargetView>) -> Seq<ArtifactView>
    decreases targets.len(),
{
    if targets.len() == 0 {
        Seq::empty()
    } else {
        artifacts_of(targets.drop_last()) + targets.last().artifacts
    }
}

/// A summary counts every artifact of every target, and adds up the storage of each of them, up
/// to the largest number that there is.
pub proof fn a_summary_adds_up_every_artifact(targets: Seq<RunPurgeTargetView>)
    ensures
        summary_of(targets).artifact_count == capped_count(artifacts_of(targets).len()),
        summary_of(targets).artifact_bytes == capped(total::<Artifact>(artifacts_of(targets))),
{
    lemma_artifacts_add_up(targets);
}

proof fn lemma_artifacts_add_up(targets: Seq<RunPurgeTargetView>)
    ensures
        planned_artifacts(targets) == artifacts_of(targets).len(),
        planned_bytes(targets) == total::<Artifact>(artifacts_of(targets)),
    decreases targets.len(),
{
    if targets.len() > 0 {
        lemma_artifacts_add_up(targets.drop_last());
        lemma_total_of_both(artifacts_of(targets.drop_last()), targets.last().artifacts);
    }
}

proof fn lemma_total_of_both(a: Seq<ArtifactView>, b: Seq<ArtifactView>)
    ensures
        total::<Artifact>(a + b) == total::<Artifact>(a) + total::<Artifact>(b),
    decreases b.len(),
{
    if b.len() == 0 {
        assert(a + b =~= a);
    } else {
        assert((a + b).drop_last() =~= a + b.drop_last());
        lemma_total_of_both(a, b.drop_last());
    }
}

/// A number, or the largest `usize` where it is larger.
pub open spec fn capped_count(n: nat) -> usize {
    if n <= usize::MAX {
        n as usize
    } else {
        usize::MAX
    }
}

/// The summary that fits the targets.
pub open spec fn summary_of(targets: Seq<RunPurgeTargetView>) -> RunPurgePlanSummaryView {
    RunPurgePlanSummaryView {
        run_count: targets.len() as usize,
        artifact_count: capped_count(planned_artifacts(targets)),
        artifact_bytes: capped(planned_bytes(targets)),
    }
}

/// The first reason why a plan cannot be made of the targets.
pub open spec fn plan_problem(
    snapshot: WorkflowRunInventorySnapshotView,
    targets: Seq<RunPurgeTargetView>,
) -> Option<RunPurgeErrorView> {
    if snapshot.issues.len() > 0 {
        Some(RunPurgeErrorView::IncompleteSnapshot { issue_count: snapshot.issues.len() as usize })
    } else {
        targets_problem(Some(snapshot.runs), all_arranged(targets), 0)
    }
}

/// The plan of the targets.
pub open spec fn plan_of(
    snapshot: WorkflowRunInventorySnapshotView,
    created_at: Timestamp,
    selection: RunPurgeSelectionView,
    targets: Seq<RunPurgeTargetView>,
) -> RunPurgePlanView {
    let arranged = sorted::<RunPurgeTarget, RunTargetOrder>(all_arranged(targets), RunTargetOrder);
    RunPurgePlanView {
        schema_version: RUN_PURGE_PLAN_SCHEMA_VERSION,
        created_at,
        scanned_at: snapshot.scanned_at,
        account: snapshot.account,
        scope: snapshot.scope,
        selection,
        summary: summary_of(arranged),
        targets: arranged,
    }
}

/// The first reason why a stored plan cannot be trusted.
pub open spec fn integrity_problem(plan: RunPurgePlanView) -> Option<RunPurgeErrorView> {
    if plan.schema_version != RUN_PURGE_PLAN_SCHEMA_VERSION {
        Some(
            RunPurgeErrorView::UnsupportedPlanSchema {
                found: plan.schema_version,
                supported: RUN_PURGE_PLAN_SCHEMA_VERSION,
            },
        )
    } else {
        match targets_problem(None, plan.targets, 0) {
            Some(problem) => Some(problem),
            None => if plan.summary != summary_of(plan.targets) {
                Some(RunPurgeErrorView::PlanSummaryMismatch)
            } else {
                None
            },
        }
    }
}

/// Whether `error` is the problem that `expected` names.
pub open spec fn reports(result: Result<(), RunPurgeError>, expected: Option<RunPurgeErrorView>) -> bool {
    match expected {
        Some(problem) => result is Err && result->Err_0.deep_view() == problem,
        None => result is Ok,
    }
}

fn check_artifacts(run: &WorkflowRun, artifacts: &Vec<Artifact>) -> (result: Result<(), RunPurgeError>)
    ensures
        reports(result, artifacts_problem(run.deep_view(), artifacts.deep_view(), 0)),
{
    let ghost all = artifacts.deep_view();
    let mut k: usize = 0;
    while k < artifacts.len()
        invariant
            k <= artifacts.len(),
            all == artifacts.deep_view(),
            artifacts_problem(run.deep_view(), all, 0) == artifacts_problem(run.deep_view(), all, k as int),
        decreases artifacts.len() - k,
    {
        let artifact = &artifacts[k];
        assert(all[k as int] == artifact.deep_view());
        if !artifact.repository.same(&run.repository) {
            return Err(
                RunPurgeError::ArtifactRepositoryMismatch {
                    repository: run.repository.full_name.copied(),
                    run_id: run.id,
                    artifact_id: artifact.id,
                },
            );
        }
        if let Some(workflow_run) = &artifact.workflow_run {
            if workflow_run.id != run.id {
                return Err(
                    RunPurgeError::ArtifactRunMismatch {
                        repository: run.repository.full_name.copied(),
                        run_id: run.id,
                        artifact_id: artifact.id,
                        artifact_run_id: workflow_run.id,
                    },
                );
            }
        }
        let mut j: usize = 0;
        while j < k && artifacts[j].id != artifact.id
            invariant
                j <= k < artifacts.len(),
                all == artifacts.deep_view(),
                artifact.id == all[k as int].id,
                forall|h: int| 0 <= h < j ==> (#[trigger] all[h]).id != all[k as int].id,
            decreases k - j,
        {
            assert(all[j as int].id != all[k as int].id);
            j = j + 1;
        }
        if j < k {
            assert(all[j as int].id == all[k as int].id);
            return Err(
                RunPurgeError::DuplicateArtifactTarget {
                    repository: run.repository.full_name.copied(),
                    run_id: run.id,
                    artifact_id: artifact.id,
                },
            );
        }
        k = k + 1;
    }
    Ok(())
}

fn knows(runs: &Vec<WorkflowRun>, run: &WorkflowRun) -> (result: bool)
    ensures
        result == runs.deep_view().contains(run.deep_view()),
{
    let ghost all = runs.deep_view();
    let mut i: usize = 0;
    while i < runs.len()
        invariant
            i <= runs.len(),
            all == runs.deep_view(),
            forall|k: int| 0 <= k < i ==> #[trigger] all[k] != run.deep_view(),
        decreases runs.len() - i,
    {
        if runs[i].same(run) {
            assert(all[i as int] == run.deep_view());
            return true;
        }
        i = i + 1;
    }
    false
}

fn check_targets(known: Option<&Vec<WorkflowRun>>, targets: &Vec<RunPurgeTarget>) -> (result: Result<
    (),
    RunPurgeError,
>)
    ensures
        reports(
            result,
            targets_problem(
                match known {
                    Some(runs) => Some(runs.deep_view()),
                    None => None,
                },
                targets.deep_view(),
                0,
            ),
        ),
{
    let ghost all = targets.deep_view();
    let ghost expected: Option<Seq<WorkflowRunView>> = match known {
        Some(runs) => Some(runs.deep_view()),
        None => None,
    };
    let mut i: usize = 0;
    while i < targets.len()
        invariant
            i <= targets.len(),
            all == targets.deep_view(),
            expected == match known {
                Some(runs) => Some(runs.deep_view()),
                None => None,
            },
            targets_problem(expected, all, 0) == targets_problem(expected, all, i as int),
        decreases targets.len() - i,
    {
        let target = &targets[i];
        assert(all[i as int] == target.deep_view());
        if !target.run.is_completed() {
            return Err(
                RunPurgeError::RunNotCompleted {
                    repository: target.run.repository.full_name.copied(),
                    run_id: target.run.id,
                    status: target.run.status.copied(),
                },
            );
        }
        if let Some(runs) = known {
            if !knows(runs, &target.run) {
                return Err(
                    RunPurgeError::RunNotInSnapshot {
                        repository: target.run.repository.full_name.copied(),
                        run_id: target.run.id,
                    },
                );
            }
        }
        let mut j: usize = 0;
        while j < i && !(targets[j].run.id == target.run.id && targets[j].run.repository.full_name.same(
            &target.run.repository.full_name,
        ))
            invariant
                j <= i < targets.len(),
                all == targets.deep_view(),
                target.deep_view() == all[i as int],
                forall|h: int| 0 <= h < j ==> different_runs(#[trigger] all[h], all[i as int]),
            decreases i - j,
        {
            assert(different_runs(all[j as int], all[i as int]));
            j = j + 1;
        }
        if j < i {
            assert(!different_runs(all[j as int], all[i as int]));
            return Err(
                RunPurgeError::DuplicateRunTarget {
                    repository: target.run.repository.full_name.copied(),
                    run_id: target.run.id,
                },
            );
        }
        match check_artifacts(&target.run, &target.artifacts) {
            Ok(()) => {},
            Err(error) => {
                return Err(error);
            },
        }
        i = i + 1;
    }
    Ok(())
}

proof fn lemma_target_sums(targets: Seq<RunPurgeTargetView>, i: int)
    requires
        0 <= i < targets.len(),
    ensures
        planned_artifacts(targets.take(i + 1)) == planned_artifacts(targets.take(i)) + targets[i].artifacts.len(),
        planned_bytes(targets.take(i + 1)) == planned_bytes(targets.take(i)) + total::<Artifact>(
            targets[i].artifacts,
        ),
{
    assert(targets.take(i + 1).drop_last() =~= targets.take(i));
}

fn summarize(targets: &Vec<RunPurgeTarget>) -> (result: RunPurgePlanSummary)
    ensures
        result.deep_view() == summary_of(targets.deep_view()),
{
    let ghost all = targets.deep_view();
    let mut artifact_count: usize = 0;
    let mut artifact_bytes: u64 = 0;
    let mut i: usize = 0;
    assert(all.take(0) =~= Seq::empty());
    while i < targets.len()
        invariant
            i <= targets.len(),
            all == targets.deep_view(),
            artifact_count == capped_count(planned_artifacts(all.take(i as int))),
            artifact_bytes == capped(planned_bytes(all.take(i as int))),
        decreases targets.len() - i,
    {
        let artifacts = &targets[i].artifacts;
        let ghost items = artifacts.deep_view();
        proof {
            assert(all[i as int].artifacts == items);
            lemma_target_sums(all, i as int);
        }
        let ghost count_before = planned_artifacts(all.take(i as int));
        let ghost bytes_before = planned_bytes(all.take(i as int));
        let mut k: usize = 0;
        assert(items.take(0) =~= Seq::empty());
        while k < artifacts.len()
            invariant
                k <= artifacts.len(),
                items == artifacts.deep_view(),
                artifact_count == capped_count(count_before + k as nat),
                artifact_bytes == capped(bytes_before + total::<Artifact>(items.take(k as int))),
            decreases artifacts.len() - k,
        {
            assert(items.take(k + 1).drop_last() =~= items.take(k as int));
            artifact_count = artifact_count.saturating_add(1);
            artifact_bytes = artifact_bytes.saturating_add(artifacts[k].size_in_bytes);
            k = k + 1;
        }
        assert(items.take(k as int) =~= items);
        i = i + 1;
    }
    assert(all.take(i as int) =~= all);
    RunPurgePlanSummary { run_count: targets.len(), artifact_count, artifact_bytes }
}

impl RunPurgePlan {
    /// Makes a plan of runs that are complete, known, and named once each, with artifacts that
    /// are theirs.
    pub fn new(
        snapshot: &WorkflowRunInventorySnapshot,
        created_at: Timestamp,
        selection: RunPurgeSelection,
        targets: Vec<RunPurgeTarget>,
    ) -> (result: Result<Self, RunPurgeError>)
        ensures
            match plan_problem(snapshot.deep_view(), targets.deep_view()) {
                Some(problem) => result is Err && result->Err_0.deep_view() == problem,
                None => result is Ok && result->Ok_0.deep_view() == plan_of(
                    snapshot.deep_view(),
                    created_at,
                    selection.deep_view(),
                    targets.deep_view(),
                ),
            },
    {
        if snapshot.issues.len() > 0 {
            return Err(RunPurgeError::IncompleteSnapshot { issue_count: snapshot.issues.len() });
        }
        let ghost given = targets.deep_view();
        let mut ready: Vec<RunPurgeTarget> = nothing();
        let mut i: usize = 0;
        while i < targets.len()
            invariant
                i <= targets.len(),
                given == targets.deep_view(),
                ready.deep_view() == all_arranged(given).take(i as int),
            decreases targets.len() - i,
        {
            let target = RunPurgeTarget {
                run: targets[i].run.copied(),
                artifacts: sort(targets[i].artifacts.copied(), &ArtifactIdOrder),
                delete_logs: targets[i].delete_logs,
            };
            assert(target.deep_view() == arranged(given[i as int]));
            add_to(&mut ready, target);
            i = i + 1;
            assert(ready.deep_view() =~= all_arranged(given).take(i as int));
        }
        assert(all_arranged(given).take(i as int) =~= all_arranged(given));
        match check_targets(Some(&snapshot.runs), &ready) {
            Ok(()) => {},
            Err(error) => {
                return Err(error);
            },
        }
        let targets = sort(ready, &RunTargetOrder);
        let summary = summarize(&targets);
        Ok(
            RunPurgePlan {
                schema_version: RUN_PURGE_PLAN_SCHEMA_VERSION,
                created_at,
                scanned_at: snapshot.scanned_at,
                account: snapshot.account.copied(),
                scope: snapshot.scope.copied(),
                selection,
                summary,
                targets,
            },
        )
    }

    /// A plan as it was stored, which nothing is promised of.
    pub fn restored(
        schema_version: u32,
        created_at: Timestamp,
        scanned_at: Timestamp,
        account: Account,
        scope: ScanScope,
        selection: RunPurgeSelection,
        summary: RunPurgePlanSummary,
        targets: Vec<RunPurgeTarget>,
    ) -> (result: Self)
        ensures
            result.deep_view() == (RunPurgePlanView {
                schema_version,
                created_at,
                scanned_at,
                account: account.deep_view(),
                scope: scope.deep_view(),
                selection: selection.deep_view(),
                summary: summary.deep_view(),
                targets: targets.deep_view(),
            }),
    {
        RunPurgePlan { schema_version, created_at, scanned_at, account, scope, selection, summary, targets }
    }

    /// Checks a plan that was stored: its version, its targets, and that its summary fits them.
    pub fn validate_integrity(&self) -> (result: Result<(), RunPurgeError>)
        ensures
            reports(result, integrity_problem(self.deep_view())),
    {
        if self.schema_version != RUN_PURGE_PLAN_SCHEMA_VERSION {
            return Err(
                RunPurgeError::UnsupportedPlanSchema {
                    found: self.schema_version,
                    supported: RUN_PURGE_PLAN_SCHEMA_VERSION,
                },
            );
        }
        match check_targets(None, &self.targets) {
            Ok(()) => {},
            Err(error) => {
                return Err(error);
            },
        }
        let summary = summarize(&self.targets);
        if !self.summary.same(&summary) {
            return Err(RunPurgeError::PlanSummaryMismatch);
        }
        Ok(())
    }

    pub fn schema_version(&self) -> (result: u32)
        ensures
            result == self.deep_view().schema_version,
    {
        self.schema_version
    }

    pub fn created_at(&self) -> (result: Timestamp)
        ensures
            result == self.deep_view().created_at,
    {
        self.created_at
    }

    pub fn scanned_at(&self) -> (result: Timestamp)
        ensures
            result == self.deep_view().scanned_at,
    {
        self.scanned_at
    }

    pub fn account(&self) -> (result: &Account)
        ensures
            result.deep_view() == self.deep_view().account,
    {
        &self.account
    }

    pub fn scope(&self) -> (result: &ScanScope)
        ensures
            result.deep_view() == self.deep_view().scope,
    {
        &self.scope
    }

    pub fn selection(&self) -> (result: &RunPurgeSelection)
        ensures
            result.deep_view() == self.deep_view().selection,
    {
        &self.selection
    }

    pub fn summary(&self) -> (result: &RunPurgePlanSummary)
        ensures
            result.deep_view() == self.deep_view().summary,
    {
        &self.summary
    }

    pub fn targets(&self) -> (result: &Vec<RunPurgeTarget>)
        ensures
            result.deep_view() == self.deep_view().targets,
    {
        &self.targets
    }
}

/// What makes a target acceptable by itself.
pub open spec fn sound_target(target: RunPurgeTargetView) -> bool {
    target.run.completed() && artifacts_problem(target.run, target.artifacts, 0) is None
}

proof fn lemma_targets_problem(known: Option<Seq<WorkflowRunView>>, targets: Seq<RunPurgeTargetView>, from: int)
    requires
        0 <= from <= targets.len(),
    ensures
        targets_problem(known, targets, from) is None <==> forall|i: int|
            from <= i < targets.len() ==> #[trigger] target_problem(known, targets, i) is None,
    decreases targets.len() - from,
{
    if from < targets.len() {
        lemma_targets_problem(known, targets, from + 1);
        if target_problem(known, targets, from) is None && targets_problem(known, targets, from + 1) is None {
            assert forall|i: int| from <= i < targets.len() implies #[trigger] target_problem(
                known,
                targets,
                i,
            ) is None by {}
        }
    }
}

/// Targets without a problem are sound, known, and name different runs.
pub proof fn lemma_acceptable_targets(known: Option<Seq<WorkflowRunView>>, targets: Seq<RunPurgeTargetView>)
    ensures
        targets_problem(known, targets, 0) is None <==> {
            &&& forall|i: int| 0 <= i < targets.len() ==> sound_target(#[trigger] targets[i])
            &&& forall|i: int, j: int|
                0 <= i < j < targets.len() ==> different_runs(#[trigger] targets[i], #[trigger] targets[j])
            &&& known is Some ==> forall|i: int|
                0 <= i < targets.len() ==> known->0.contains((#[trigger] targets[i]).run)
        },
{
    lemma_targets_problem(known, targets, 0);
    if targets_problem(known, targets, 0) is None {
        assert forall|i: int| 0 <= i < targets.len() implies sound_target(#[trigger] targets[i]) by {
            assert(target_problem(known, targets, i) is None);
        }
        assert forall|i: int, j: int| 0 <= i < j < targets.len() implies different_runs(
            #[trigger] targets[i],
            #[trigger] targets[j],
        ) by {
            assert(target_problem(known, targets, j) is None);
            assert(!run_repeats(targets, j));
        }
        if known is Some {
            assert forall|i: int| 0 <= i < targets.len() implies known->0.contains((#[trigger] targets[i]).run) by {
                assert(target_problem(known, targets, i) is None);
            }
        }
    } else {
        let i = choose|i: int| 0 <= i < targets.len() && #[trigger] target_problem(known, targets, i) is Some;
        assert(target_problem(known, targets, i) is Some);
        if sound_target(targets[i]) && (known is Some ==> known->0.contains(targets[i].run)) {
            assert(run_repeats(targets, i));
            let j = choose|j: int| 0 <= j < i && !different_runs(#[trigger] targets[j], targets[i]);
            assert(!different_runs(targets[j], targets[i]));
        }
    }
}

/// A plan that was made is one that passes the check of a stored plan.
pub proof fn a_made_plan_is_intact(
    snapshot: WorkflowRunInventorySnapshotView,
    created_at: Timestamp,
    selection: RunPurgeSelectionView,
    targets: Seq<RunPurgeTargetView>,
)
    requires
        plan_problem(snapshot, targets) is None,
    ensures
        integrity_problem(plan_of(snapshot, created_at, selection, targets)) is None,
{
    let given = all_arranged(targets);
    let made = sorted::<RunPurgeTarget, RunTargetOrder>(given, RunTargetOrder);
    lemma_acceptable_targets(Some(snapshot.runs), given);
    lemma_sorted_pointwise::<RunPurgeTarget, RunTargetOrder>(
        given,
        RunTargetOrder,
        |target: RunPurgeTargetView| sound_target(target),
    );
    lemma_sorted_pairwise::<RunPurgeTarget, RunTargetOrder>(
        given,
        RunTargetOrder,
        |a: RunPurgeTargetView, b: RunPurgeTargetView| different_runs(a, b),
    );
    lemma_acceptable_targets(None, made);
}

/// A plan names only runs that the scan found, each of them complete and named once, in the
/// order of their repositories and numbers.
pub proof fn a_made_plan_names_known_completed_runs_once(
    snapshot: WorkflowRunInventorySnapshotView,
    created_at: Timestamp,
    selection: RunPurgeSelectionView,
    targets: Seq<RunPurgeTargetView>,
)
    requires
        plan_problem(snapshot, targets) is None,
    ensures
        ({
            let plan = plan_of(snapshot, created_at, selection, targets);
            &&& snapshot.issues.len() == 0
            &&& plan.targets.len() == targets.len()
            &&& forall|i: int|
                0 <= i < plan.targets.len() ==> snapshot.runs.contains((#[trigger] plan.targets[i]).run)
                    && plan.targets[i].run.completed()
            &&& forall|i: int, j: int|
                0 <= i < j < plan.targets.len() ==> different_runs(
                    #[trigger] plan.targets[i],
                    #[trigger] plan.targets[j],
                )
            &&& crate::order::in_order::<RunPurgeTarget, RunTargetOrder>(plan.targets, RunTargetOrder)
        }),
{
    let given = all_arranged(targets);
    lemma_acceptable_targets(Some(snapshot.runs), given);
    crate::order::sorting_is_an_ordered_rearrangement::<RunPurgeTarget, RunTargetOrder>(given, RunTargetOrder);
    lemma_sorted_pointwise::<RunPurgeTarget, RunTargetOrder>(
        given,
        RunTargetOrder,
        |target: RunPurgeTargetView| sound_target(target) && snapshot.runs.contains(target.run),
    );
    lemma_sorted_pairwise::<RunPurgeTarget, RunTargetOrder>(
        given,
        RunTargetOrder,
        |a: RunPurgeTargetView, b: RunPurgeTargetView| different_runs(a, b),
    );
}

/// Whether the artifacts of a target are of its run: of the same repository, of no other run, and
/// each named once.
pub open spec fn artifacts_belong(run: WorkflowRunView, artifacts: Seq<ArtifactView>) -> bool {
    &&& forall|k: int|
        0 <= k < artifacts.len() ==> (#[trigger] artifacts[k]).repository == run.repository && (
        artifacts[k].workflow_run is Some ==> artifacts[k].workflow_run->0.id == run.id)
    &&& forall|j: int, k: int| 0 <= j < k < artifacts.len() ==> (#[trigger] artifacts[j]).id != (#[trigger] artifacts[k]).id
}

proof fn lemma_artifacts_belong(run: WorkflowRunView, artifacts: Seq<ArtifactView>, from: int)
    requires
        0 <= from <= artifacts.len(),
    ensures
        artifacts_problem(run, artifacts, from) is None <==> {
            &&& forall|k: int|
                from <= k < artifacts.len() ==> (#[trigger] artifacts[k]).repository == run.repository && (
                artifacts[k].workflow_run is Some ==> artifacts[k].workflow_run->0.id == run.id)
            &&& forall|j: int, k: int|
                0 <= j < k < artifacts.len() && from <= k ==> (#[trigger] artifacts[j]).id != (
                #[trigger] artifacts[k]).id
        },
    decreases artifacts.len() - from,
{
    if from < artifacts.len() {
        lemma_artifacts_belong(run, artifacts, from + 1);
        if artifact_problem(run, artifacts, from) is None && artifacts_problem(run, artifacts, from + 1) is None {
            assert forall|j: int, k: int| 0 <= j < k < artifacts.len() && from <= k implies (
            #[trigger] artifacts[j]).id != (#[trigger] artifacts[k]).id by {
                if k == from {
                    assert(!artifact_repeats(artifacts, from));
                }
            }
        }
        if artifact_repeats(artifacts, from) {
            let j = choose|j: int| 0 <= j < from && (#[trigger] artifacts[j]).id == artifacts[from].id;
            assert(artifacts[j].id == artifacts[from].id);
        }
    }
}

/// Whether targets may be purged: each is a completed run, named once, with artifacts of its own.
pub open spec fn purgeable(targets: Seq<RunPurgeTargetView>) -> bool {
    &&& forall|i: int|
        0 <= i < targets.len() ==> equal_but_for_case((#[trigger] targets[i]).run.status, "completed"@)
            && artifacts_belong(targets[i].run, targets[i].artifacts)
    &&& forall|i: int, j: int|
        0 <= i < j < targets.len() ==> (#[trigger] targets[i]).run.repository.full_name != (
        #[trigger] targets[j]).run.repository.full_name || targets[i].run.id != targets[j].run.id
}

proof fn lemma_sound_target(target: RunPurgeTargetView)
    ensures
        sound_target(target) <==> equal_but_for_case(target.run.status, "completed"@) && artifacts_belong(
            target.run,
            target.artifacts,
        ),
{
    case_is_disregarded(target.run.status, "completed"@);
    lemma_artifacts_belong(target.run, target.artifacts, 0);
}

proof fn lemma_purgeable(known: Option<Seq<WorkflowRunView>>, targets: Seq<RunPurgeTargetView>)
    ensures
        targets_problem(known, targets, 0) is None <==> purgeable(targets) && (known is Some ==> forall|i: int|
            0 <= i < targets.len() ==> known->0.contains((#[trigger] targets[i]).run)),
{
    lemma_acceptable_targets(known, targets);
    assert forall|i: int| 0 <= i < targets.len() implies sound_target(#[trigger] targets[i]) == (equal_but_for_case(
        targets[i].run.status,
        "completed"@,
    ) && artifacts_belong(targets[i].run, targets[i].artifacts)) by {
        lemma_sound_target(targets[i]);
    }
    if purgeable(targets) {
        assert forall|i: int, j: int| 0 <= i < j < targets.len() implies different_runs(
            #[trigger] targets[i],
            #[trigger] targets[j],
        ) by {}
    }
}

/// A stored plan is trusted where it is of the version that is known, its targets may be purged,
/// and its summary tells their number, the number of their artifacts and what these take up.
pub proof fn a_trusted_plan_is_sound(plan: RunPurgePlanView)
    requires
        plan.targets.len() <= usize::MAX,
        artifacts_of(plan.targets).len() <= usize::MAX,
        total::<Artifact>(artifacts_of(plan.targets)) <= u64::MAX,
    ensures
        integrity_problem(plan) is None <==> {
            &&& plan.schema_version == 1
            &&& purgeable(plan.targets)
            &&& plan.summary.run_count == plan.targets.len()
            &&& plan.summary.artifact_count == artifacts_of(plan.targets).len()
            &&& plan.summary.artifact_bytes == sum_by(
                artifacts_of(plan.targets),
                |a: ArtifactView| a.size_in_bytes as nat,
            )
        },
{
    lemma_purgeable(None, plan.targets);
    lemma_artifacts_add_up(plan.targets);
    artifact_sizes_add_up(artifacts_of(plan.targets));
    let expected = summary_of(plan.targets);
    if plan.summary.run_count == expected.run_count && plan.summary.artifact_count == expected.artifact_count
        && plan.summary.artifact_bytes == expected.artifact_bytes {
        assert(plan.summary == expected);
    }
}

/// A plan can be made of a complete scan and of targets that may be purged and that the scan found.
/// It records the scan and the selection, and keeps every target with all that belongs to it.
pub proof fn a_plan_keeps_every_target(
    snapshot: WorkflowRunInventorySnapshotView,
    created_at: Timestamp,
    selection: RunPurgeSelectionView,
    targets: Seq<RunPurgeTargetView>,
)
    requires
        snapshot.issues.len() == 0,
        purgeable(targets),
        forall|i: int| 0 <= i < targets.len() ==> snapshot.runs.contains((#[trigger] targets[i]).run),
    ensures
        plan_problem(snapshot, targets) is None,
        ({
            let plan = plan_of(snapshot, created_at, selection, targets);
            &&& plan.schema_version == 1
            &&& plan.created_at == created_at
            &&& plan.scanned_at == snapshot.scanned_at
            &&& plan.account == snapshot.account
            &&& plan.scope == snapshot.scope
            &&& plan.selection == selection
            &&& plan.targets.len() == targets.len()
            &&& forall|k: int| #![trigger targets[k]]
                0 <= k < targets.len() ==> exists|i: int|
                    0 <= i < plan.targets.len() && holds_target(#[trigger] plan.targets[i], targets[k])
        }),
{
    let given = all_arranged(targets);
    let made = sorted::<RunPurgeTarget, RunTargetOrder>(given, RunTargetOrder);
    assert forall|i: int| 0 <= i < given.len() implies artifacts_belong(
        (#[trigger] given[i]).run,
        given[i].artifacts,
    ) by {
        let target = targets[i];
        assert(artifacts_belong(target.run, target.artifacts));
        lemma_sorted_pointwise::<Artifact, ArtifactIdOrder>(
            target.artifacts,
            ArtifactIdOrder,
            |a: ArtifactView|
                a.repository == target.run.repository && (a.workflow_run is Some ==> a.workflow_run->0.id
                    == target.run.id),
        );
        lemma_sorted_pairwise::<Artifact, ArtifactIdOrder>(
            target.artifacts,
            ArtifactIdOrder,
            |a: ArtifactView, b: ArtifactView| a.id != b.id,
        );
    }
    assert forall|i: int| 0 <= i < given.len() implies snapshot.runs.contains((#[trigger] given[i]).run)
        && equal_but_for_case(given[i].run.status, "completed"@) by {
        assert(given[i].run == targets[i].run);
    }
    assert forall|i: int, j: int| 0 <= i < j < given.len() implies (#[trigger] given[i]).run.repository.full_name != (
    #[trigger] given[j]).run.repository.full_name || given[i].run.id != given[j].run.id by {
        assert(given[i].run == targets[i].run && given[j].run == targets[j].run);
    }
    lemma_purgeable(Some(snapshot.runs), given);
    sorting_is_an_ordered_rearrangement::<RunPurgeTarget, RunTargetOrder>(given, RunTargetOrder);
    assert forall|k: int| #![trigger targets[k]] 0 <= k < targets.len() implies exists|i: int|
        0 <= i < made.len() && holds_target(#[trigger] made[i], targets[k]) by {
        assert(given.contains(given[k]));
        lemma_sorted_contains::<RunPurgeTarget, RunTargetOrder>(given, RunTargetOrder, given[k]);
        let i = choose|i: int| 0 <= i < made.len() && made[i] == given[k];
        sorting_is_an_ordered_rearrangement::<Artifact, ArtifactIdOrder>(targets[k].artifacts, ArtifactIdOrder);
        assert(holds_target(made[i], targets[k]));
    }
}

/// Whether a target of a plan is the one that was given, with the same artifacts.
pub open spec fn holds_target(planned: RunPurgeTargetView, given: RunPurgeTargetView) -> bool {
    &&& planned.run == given.run
    &&& planned.delete_logs == given.delete_logs
    &&& planned.artifacts.to_multiset() == given.artifacts.to_multiset()
}

/// The targets of a plan stand by repository, then by number; the artifacts of a target by number.
pub proof fn a_plan_stands_in_order(
    snapshot: WorkflowRunInventorySnapshotView,
    created_at: Timestamp,
    selection: RunPurgeSelectionView,
    targets: Seq<RunPurgeTargetView>,
    i: int,
    j: int,
)
    requires
        0 <= i < j < targets.len(),
    ensures
        ({
            let plan = plan_of(snapshot, created_at, selection, targets);
            let a = plan.targets[i].run;
            let b = plan.targets[j].run;
            &&& !text_less(b.repository.full_name, a.repository.full_name)
            &&& a.repository.full_name == b.repository.full_name ==> a.id <= b.id
        }),
        forall|h: int, k: int|
            0 <= h < k < targets[i].artifacts.len() ==> (#[trigger] arranged(targets[i]).artifacts[h]).id <= (
            #[trigger] arranged(targets[i]).artifacts[k]).id,
{
    let given = all_arranged(targets);
    let list = sorted::<RunPurgeTarget, RunTargetOrder>(given, RunTargetOrder);
    sorting_is_an_ordered_rearrangement::<RunPurgeTarget, RunTargetOrder>(given, RunTargetOrder);
    let s = RunTargetOrder.key(list[j]);
    let t = RunTargetOrder.key(list[i]);
    assert(le::<RunPurgeTarget, RunTargetOrder>(RunTargetOrder, list[i], list[j]));
    lemma_two_parts(s[0], s[1], t[0], t[1]);
    lemma_text_less_irreflexive(list[j].run.repository.full_name);
    let all = sorted::<Artifact, ArtifactIdOrder>(targets[i].artifacts, ArtifactIdOrder);
    sorting_is_an_ordered_rearrangement::<Artifact, ArtifactIdOrder>(targets[i].artifacts, ArtifactIdOrder);
    assert forall|h: int, k: int| 0 <= h < k < all.len() implies (#[trigger] all[h]).id <= (#[trigger] all[k]).id by {
        assert(le::<Artifact, ArtifactIdOrder>(ArtifactIdOrder, all[h], all[k]));
        lemma_one_part(Part::Number(all[k].id as int), Part::Number(all[h].id as int));
    }
}

/// An account is taken for the planned one only where it is the very same.
pub proof fn only_the_planned_account_goes_on(expected: AccountView, account: Result<Account, ProviderError>)
    ensures
        account_problem(expected, account) is None <==> account is Ok && account->Ok_0.deep_view() == expected,
{
}

} // verus!
