//! How a purge of workflow runs is planned, reviewed and carried out, one answer of the
//! provider at a time.
use crate::execution::ExecutionAuthorizationKind;
use crate::model::{
    answer, Account, AccountView, Answer, Artifact, ArtifactView, ProviderError, ProviderTelemetry,
    ProviderTelemetryView, ScanScope, ScanScopeView, WorkflowRun, WorkflowRunInventorySnapshot,
    WorkflowRunInventorySnapshotView, WorkflowRunView,
};
use crate::order::{lemma_sorted_contains, sort, sorted, sorting_is_an_ordered_rearrangement, Ascending};
use crate::run_purge::{
    account_problem, all_arranged, arranged, ensure_same_account, integrity_problem, other_account, plan_of,
    plan_problem, planned_account, reports, RunPurgeError, RunPurgeErrorView, RunPurgePlan, RunPurgePlanView,
    RunPurgeSelection, RunPurgeSelectionView, RunPurgeTarget, RunPurgeTargetView, RunTargetOrder,
};
use crate::text::{case_is_disregarded, equal_but_for_case};
use crate::time::{utc_now, Timestamp};
use crate::value::{add_to, nothing, Value};
use std::collections::HashMap;
use vstd::prelude::*;

verus! {

/// What a review found of a target.
#[derive(Clone, Copy, Debug, PartialEq, Eq, Structural)]
pub enum RunPurgeRevalidationState {
    Ready,
    AlreadyAbsent,
    Changed,
    RevalidationFailed,
}

impl DeepView for RunPurgeRevalidationState {
    type V = RunPurgeRevalidationState;

    open spec fn deep_view(&self) -> RunPurgeRevalidationState {
        *self
    }
}

impl Value for RunPurgeRevalidationState {
    fn copied(&self) -> (result: Self) {
        *self
    }

    fn same(&self, other: &Self) -> (result: bool) {
        *self == *other
    }
}

/// What a review found of one run and its artifacts.
#[derive(Clone, Debug, PartialEq, Eq)]
pub struct RunPurgeRevalidationItem {
    pub repository: String,
    pub run_id: u64,
    pub state: RunPurgeRevalidationState,
    pub missing_artifact_ids: Vec<u64>,
    pub changed_artifact_ids: Vec<u64>,
    pub unexpected_artifact_ids: Vec<u64>,
    pub current_run: Option<WorkflowRun>,
    pub error: Option<String>,
}

/// The contents of [`RunPurgeRevalidationItem`].
#[verifier::ext_equal]
pub struct RunPurgeRevalidationItemView {
    pub repository: Seq<char>,
    pub run_id: u64,
    pub state: RunPurgeRevalidationState,
    pub missing_artifact_ids: Seq<u64>,
    pub changed_artifact_ids: Seq<u64>,
    pub unexpected_artifact_ids: Seq<u64>,
    pub current_run: Option<WorkflowRunView>,
    pub error: Option<Seq<char>>,
}

impl DeepView for RunPurgeRevalidationItem {
    type V = RunPurgeRevalidationItemView;

    open spec fn deep_view(&self) -> RunPurgeRevalidationItemView {
        RunPurgeRevalidationItemView {
            repository: self.repository.deep_view(),
            run_id: self.run_id,
            state: self.state,
            missing_artifact_ids: self.missing_artifact_ids.deep_view(),
            changed_artifact_ids: self.changed_artifact_ids.deep_view(),
            unexpected_artifact_ids: self.unexpected_artifact_ids.deep_view(),
            current_run: self.current_run.deep_view(),
            error: self.error.deep_view(),
        }
    }
}

impl Value for RunPurgeRevalidationItem {
    fn copied(&self) -> (result: Self) {
        RunPurgeRevalidationItem {
            repository: self.repository.copied(),
            run_id: self.run_id,
            state: self.state,
            missing_artifact_ids: self.missing_artifact_ids.copied(),
            changed_artifact_ids: self.changed_artifact_ids.copied(),
            unexpected_artifact_ids: self.unexpected_artifact_ids.copied(),
            current_run: self.current_run.copied(),
            error: self.error.copied(),
        }
    }

    fn same(&self, other: &Self) -> (result: bool) {
        self.repository.same(&other.repository)
            && self.run_id == other.run_id
            && self.state == other.state
            && self.missing_artifact_ids.same(&other.missing_artifact_ids)
            && self.changed_artifact_ids.same(&other.changed_artifact_ids)
            && self.unexpected_artifact_ids.same(&other.unexpected_artifact_ids)
            && self.current_run.same(&other.current_run)
            && self.error.same(&other.error)
    }
}

/// The review of a plan.
#[derive(Clone, Debug, PartialEq, Eq)]
pub struct RunPurgeRevalidationReport {
    pub checked_at: Timestamp,
    pub account: Account,
    pub telemetry: ProviderTelemetry,
    pub items: Vec<RunPurgeRevalidationItem>,
}

/// The contents of [`RunPurgeRevalidationReport`].
#[verifier::ext_equal]
pub struct RunPurgeRevalidationReportView {
    pub checked_at: Timestamp,
    pub account: AccountView,
    pub telemetry: ProviderTelemetryView,
    pub items: Seq<RunPurgeRevalidationItemView>,
}

impl DeepView for RunPurgeRevalidationReport {
    type V = RunPurgeRevalidationReportView;

    open spec fn deep_view(&self) -> RunPurgeRevalidationReportView {
        RunPurgeRevalidationReportView {
            checked_at: self.checked_at,
            account: self.account.deep_view(),
            telemetry: self.telemetry.deep_view(),
            items: self.items.deep_view(),
        }
    }
}

/// What became of one thing that was to be deleted.
#[derive(Clone, Copy, Debug, PartialEq, Eq, Structural)]
pub enum RunPurgeExecutionState {
    Deleted,
    AlreadyAbsent,
    Changed,
    RevalidationFailed,
    DeleteFailed,
    VerificationFailed,
    Blocked,
}

impl DeepView for RunPurgeExecutionState {
    type V = RunPurgeExecutionState;

    open spec fn deep_view(&self) -> RunPurgeExecutionState {
        *self
    }
}

impl Value for RunPurgeExecutionState {
    fn copied(&self) -> (result: Self) {
        *self
    }

    fn same(&self, other: &Self) -> (result: bool) {
        *self == *other
    }
}

/// What became of the logs or of the run.
#[derive(Clone, Debug, PartialEq, Eq)]
pub struct RunPurgeStepResult {
    pub state: RunPurgeExecutionState,
    pub error: Option<String>,
}

/// The contents of [`RunPurgeStepResult`].
#[verifier::ext_equal]
pub struct RunPurgeStepResultView {
    pub state: RunPurgeExecutionState,
    pub error: Option<Seq<char>>,
}

impl DeepView for RunPurgeStepResult {
    type V = RunPurgeStepResultView;

    open spec fn deep_view(&self) -> RunPurgeStepResultView {
        RunPurgeStepResultView {
            state: self.state,
            error: self.error.deep_view(),
        }
    }
}

impl Value for RunPurgeStepResult {
    fn copied(&self) -> (result: Self) {
        RunPurgeStepResult {
            state: self.state,
            error: self.error.copied(),
        }
    }

    fn same(&self, other: &Self) -> (result: bool) {
        self.state == other.state
            && self.error.same(&other.error)
    }
}

/// What became of an artifact.
#[derive(Clone, Debug, PartialEq, Eq)]
pub struct RunPurgeArtifactResult {
    pub planned: Artifact,
    pub state: RunPurgeExecutionState,
    pub current: Option<Artifact>,
    pub error: Option<String>,
}

/// The contents of [`RunPurgeArtifactResult`].
#[verifier::ext_equal]
pub struct RunPurgeArtifactResultView {
    pub planned: ArtifactView,
    pub state: RunPurgeExecutionState,
    pub current: Option<ArtifactView>,
    pub error: Option<Seq<char>>,
}

impl DeepView for RunPurgeArtifactResult {
    type V = RunPurgeArtifactResultView;

    open spec fn deep_view(&self) -> RunPurgeArtifactResultView {
        RunPurgeArtifactResultView {
            planned: self.planned.deep_view(),
            state: self.state,
            current: self.current.deep_view(),
            error: self.error.deep_view(),
        }
    }
}

impl Value for RunPurgeArtifactResult {
    fn copied(&self) -> (result: Self) {
        RunPurgeArtifactResult {
            planned: self.planned.copied(),
            state: self.state,
            current: self.current.copied(),
            error: self.error.copied(),
        }
    }

    fn same(&self, other: &Self) -> (result: bool) {
        self.planned.same(&other.planned)
            && self.state == other.state
            && self.current.same(&other.current)
            && self.error.same(&other.error)
    }
}

/// What became of a target.
#[derive(Clone, Debug, PartialEq, Eq)]
pub struct RunPurgeExecutionItem {
    pub planned_run: WorkflowRun,
    pub logs: RunPurgeStepResult,
    pub artifacts: Vec<RunPurgeArtifactResult>,
    pub residual_artifacts: Vec<Artifact>,
    pub run: RunPurgeStepResult,
}

/// The contents of [`RunPurgeExecutionItem`].
#[verifier::ext_equal]
pub struct RunPurgeExecutionItemView {
    pub planned_run: WorkflowRunView,
    pub logs: RunPurgeStepResultView,
    pub artifacts: Seq<RunPurgeArtifactResultView>,
    pub residual_artifacts: Seq<ArtifactView>,
    pub run: RunPurgeStepResultView,
}

impl DeepView for RunPurgeExecutionItem {
    type V = RunPurgeExecutionItemView;

    open spec fn deep_view(&self) -> RunPurgeExecutionItemView {
        RunPurgeExecutionItemView {
            planned_run: self.planned_run.deep_view(),
            logs: self.logs.deep_view(),
            artifacts: self.artifacts.deep_view(),
            residual_artifacts: self.residual_artifacts.deep_view(),
            run: self.run.deep_view(),
        }
    }
}

impl Value for RunPurgeExecutionItem {
    fn copied(&self) -> (result: Self) {
        RunPurgeExecutionItem {
            planned_run: self.planned_run.copied(),
            logs: self.logs.copied(),
            artifacts: self.artifacts.copied(),
            residual_artifacts: self.residual_artifacts.copied(),
            run: self.run.copied(),
        }
    }

    fn same(&self, other: &Self) -> (result: bool) {
        self.planned_run.same(&other.planned_run)
            && self.logs.same(&other.logs)
            && self.artifacts.same(&other.artifacts)
            && self.residual_artifacts.same(&other.residual_artifacts)
            && self.run.same(&other.run)
    }
}

/// What became of a plan.
#[derive(Clone, Debug, PartialEq, Eq)]
pub struct RunPurgeExecutionReport {
    pub started_at: Timestamp,
    pub completed_at: Timestamp,
    pub account: Account,
    pub plan_schema_version: u32,
    pub plan_created_at: Timestamp,
    pub plan_scanned_at: Timestamp,
    pub scope: ScanScope,
    pub selection: RunPurgeSelection,
    pub authorization: ExecutionAuthorizationKind,
    pub telemetry: ProviderTelemetry,
    pub items: Vec<RunPurgeExecutionItem>,
}

/// The contents of [`RunPurgeExecutionReport`].
#[verifier::ext_equal]
pub struct RunPurgeExecutionReportView {
    pub started_at: Timestamp,
    pub completed_at: Timestamp,
    pub account: AccountView,
    pub plan_schema_version: u32,
    pub plan_created_at: Timestamp,
    pub plan_scanned_at: Timestamp,
    pub scope: ScanScopeView,
    pub selection: RunPurgeSelectionView,
    pub authorization: ExecutionAuthorizationKind,
    pub telemetry: ProviderTelemetryView,
    pub items: Seq<RunPurgeExecutionItemView>,
}

impl DeepView for RunPurgeExecutionReport {
    type V = RunPurgeExecutionReportView;

    open spec fn deep_view(&self) -> RunPurgeExecutionReportView {
        RunPurgeExecutionReportView {
            started_at: self.started_at,
            completed_at: self.completed_at,
            account: self.account.deep_view(),
            plan_schema_version: self.plan_schema_version,
            plan_created_at: self.plan_created_at,
            plan_scanned_at: self.plan_scanned_at,
            scope: self.scope.deep_view(),
            selection: self.selection.deep_view(),
            authorization: self.authorization,
            telemetry: self.telemetry.deep_view(),
            items: self.items.deep_view(),
        }
    }
}

// ---------------------------------------------------------------------------------------------
// Drift: how the artifacts that a run has differ from those that were planned.
// ---------------------------------------------------------------------------------------------

/// The last artifact with the number `id`.
pub open spec fn last_with_id(artifacts: Seq<ArtifactView>, id: u64) -> Option<ArtifactView>
    decreases artifacts.len(),
{
    if artifacts.len() == 0 {
        None
    } else if artifacts.last().id == id {
        Some(artifacts.last())
    } else {
        last_with_id(artifacts.drop_last(), id)
    }
}

/// The planned artifacts that the run no longer has.
pub open spec fn missing_ids(planned: Seq<ArtifactView>, current: Seq<ArtifactView>) -> Seq<u64>
    decreases planned.len(),
{
    if planned.len() == 0 {
        Seq::empty()
    } else {
        let rest = missing_ids(planned.drop_last(), current);
        if last_with_id(current, planned.last().id) is None {
            rest.push(planned.last().id)
        } else {
            rest
        }
    }
}

/// The planned artifacts that the run has in another form.
pub open spec fn changed_ids(planned: Seq<ArtifactView>, current: Seq<ArtifactView>) -> Seq<u64>
    decreases planned.len(),
{
    if planned.len() == 0 {
        Seq::empty()
    } else {
        let rest = changed_ids(planned.drop_last(), current);
        match last_with_id(current, planned.last().id) {
            Some(found) => if found != planned.last() {
                rest.push(planned.last().id)
            } else {
                rest
            },
            None => rest,
        }
    }
}

/// The artifacts of the run that were not planned.
pub open spec fn unexpected_ids(planned: Seq<ArtifactView>, current: Seq<ArtifactView>) -> Seq<u64>
    decreases current.len(),
{
    if current.len() == 0 {
        Seq::empty()
    } else {
        let rest = unexpected_ids(planned, current.drop_last());
        if last_with_id(planned, current.last().id) is None {
            rest.push(current.last().id)
        } else {
            rest
        }
    }
}

/// How the artifacts that a run has differ from those that were planned.
#[derive(Clone, Debug, PartialEq, Eq)]
pub struct ArtifactDrift {
    pub missing: Vec<u64>,
    pub changed: Vec<u64>,
    pub unexpected: Vec<u64>,
}

/// The contents of [`ArtifactDrift`].
#[verifier::ext_equal]
pub struct ArtifactDriftView {
    pub missing: Seq<u64>,
    pub changed: Seq<u64>,
    pub unexpected: Seq<u64>,
}

impl DeepView for ArtifactDrift {
    type V = ArtifactDriftView;

    open spec fn deep_view(&self) -> ArtifactDriftView {
        ArtifactDriftView {
            missing: self.missing.deep_view(),
            changed: self.changed.deep_view(),
            unexpected: self.unexpected.deep_view(),
        }
    }
}

pub open spec fn drift(planned: Seq<ArtifactView>, current: Seq<ArtifactView>) -> ArtifactDriftView {
    ArtifactDriftView {
        missing: sorted::<u64, Ascending>(missing_ids(planned, current), Ascending),
        changed: sorted::<u64, Ascending>(changed_ids(planned, current), Ascending),
        unexpected: sorted::<u64, Ascending>(unexpected_ids(planned, current), Ascending),
    }
}

/// Whether `places` tells of each number where the last artifact with it stands.
spec fn indexes(places: Map<u64, usize>, artifacts: Seq<ArtifactView>) -> bool {
    forall|id: u64|
        match #[trigger] last_with_id(artifacts, id) {
            Some(artifact) => places.contains_key(id) && places[id] < artifacts.len() && artifacts[places[id] as int]
                == artifact,
            None => !places.contains_key(id),
        }
}

/// The places of artifacts by their numbers.
fn index_by_id(artifacts: &Vec<Artifact>) -> (result: HashMap<u64, usize>)
    ensures
        indexes(result@, artifacts.deep_view()),
{
    broadcast use vstd::std_specs::hash::group_hash_axioms;

    let ghost all = artifacts.deep_view();
    let mut places: HashMap<u64, usize> = HashMap::new();
    let mut i: usize = 0;
    while i < artifacts.len()
        invariant
            i <= artifacts.len(),
            all == artifacts.deep_view(),
            indexes(places@, all.take(i as int)),
        decreases artifacts.len() - i,
    {
        let ghost before = all.take(i as int);
        let ghost after = all.take(i + 1);
        let ghost known = places@;
        places.insert(artifacts[i].id, i);
        proof {
            assert(after.drop_last() =~= before);
            assert(after.last() == artifacts@[i as int].deep_view());
            assert(indexes(places@, after)) by {
                assert forall|id: u64|
                    match #[trigger] last_with_id(after, id) {
                        Some(artifact) => places@.contains_key(id) && places@[id] < after.len()
                            && after[places@[id] as int] == artifact,
                        None => !places@.contains_key(id),
                    } by {
                    assert(last_with_id(before, id) is Some ==> known.contains_key(id));
                    assert(last_with_id(before, id) is None ==> !known.contains_key(id));
                }
            }
        }
        i = i + 1;
    }
    assert(all.take(i as int) =~= all);
    places
}

/// How the artifacts that a run has differ from those that were planned.
pub fn artifact_drift(planned: &Vec<Artifact>, current: &Vec<Artifact>) -> (result: ArtifactDrift)
    ensures
        result.deep_view() == drift(planned.deep_view(), current.deep_view()),
{
    broadcast use vstd::std_specs::hash::group_hash_axioms;

    let ghost before = planned.deep_view();
    let ghost after = current.deep_view();
    let mut missing: Vec<u64> = nothing();
    let mut changed: Vec<u64> = nothing();
    let mut unexpected: Vec<u64> = nothing();
    let planned_by_id = index_by_id(planned);
    let current_by_id = index_by_id(current);
    let mut i: usize = 0;
    assert(before.take(0) =~= Seq::empty());
    while i < planned.len()
        invariant
            i <= planned.len(),
            before == planned.deep_view(),
            after == current.deep_view(),
            indexes(current_by_id@, after),
            missing.deep_view() == missing_ids(before.take(i as int), after),
            changed.deep_view() == changed_ids(before.take(i as int), after),
        decreases planned.len() - i,
    {
        assert(before.take(i + 1).drop_last() =~= before.take(i as int));
        assert(before.take(i + 1).last() == planned@[i as int].deep_view());
        assert(last_with_id(after, planned[i as int].id) is Some ==> current_by_id@.contains_key(planned[i as int].id));
        match current_by_id.get(&planned[i].id) {
            None => {
                add_to(&mut missing, planned[i].id);
            },
            Some(at) => {
                if !current[*at].same(&planned[i]) {
                    add_to(&mut changed, planned[i].id);
                }
            },
        }
        i = i + 1;
    }
    assert(before.take(i as int) =~= before);
    let mut j: usize = 0;
    assert(after.take(0) =~= Seq::empty());
    while j < current.len()
        invariant
            j <= current.len(),
            before == planned.deep_view(),
            after == current.deep_view(),
            indexes(planned_by_id@, before),
            unexpected.deep_view() == unexpected_ids(before, after.take(j as int)),
        decreases current.len() - j,
    {
        assert(after.take(j + 1).drop_last() =~= after.take(j as int));
        assert(after.take(j + 1).last() == current@[j as int].deep_view());
        assert(last_with_id(before, current[j as int].id) is Some ==> planned_by_id@.contains_key(current[j as int].id));
        if !planned_by_id.contains_key(&current[j].id) {
            add_to(&mut unexpected, current[j].id);
        }
        j = j + 1;
    }
    assert(after.take(j as int) =~= after);
    ArtifactDrift {
        missing: sort(missing, &Ascending),
        changed: sort(changed, &Ascending),
        unexpected: sort(unexpected, &Ascending),
    }
}

/// The artifacts that were planned do not drift from themselves.
pub proof fn nothing_drifts_from_itself(artifacts: Seq<ArtifactView>)
    requires
        forall|i: int, j: int|
            0 <= i < j < artifacts.len() ==> (#[trigger] artifacts[i]).id != (#[trigger] artifacts[j]).id,
    ensures
        drift(artifacts, artifacts) == (ArtifactDriftView {
            missing: Seq::empty(),
            changed: Seq::empty(),
            unexpected: Seq::empty(),
        }),
{
    lemma_no_drift(artifacts, artifacts, artifacts.len() as int);
    assert(artifacts.take(artifacts.len() as int) =~= artifacts);
}

proof fn lemma_last_with_id(artifacts: Seq<ArtifactView>, i: int)
    requires
        0 <= i < artifacts.len(),
        forall|k: int| i < k < artifacts.len() ==> (#[trigger] artifacts[k]).id != artifacts[i].id,
    ensures
        last_with_id(artifacts, artifacts[i].id) == Some(artifacts[i]),
    decreases artifacts.len(),
{
    if i < artifacts.len() - 1 {
        assert(artifacts[artifacts.len() - 1].id != artifacts[i].id);
        lemma_last_with_id(artifacts.drop_last(), i);
    }
}

proof fn lemma_no_drift(planned: Seq<ArtifactView>, current: Seq<ArtifactView>, n: int)
    requires
        0 <= n <= planned.len(),
        planned == current,
        forall|i: int, j: int|
            0 <= i < j < planned.len() ==> (#[trigger] planned[i]).id != (#[trigger] planned[j]).id,
    ensures
        missing_ids(planned.take(n), current) == Seq::<u64>::empty(),
        changed_ids(planned.take(n), current) == Seq::<u64>::empty(),
        unexpected_ids(planned, current.take(n)) == Seq::<u64>::empty(),
    decreases n,
{
    if n > 0 {
        lemma_no_drift(planned, current, n - 1);
        assert(planned.take(n).drop_last() =~= planned.take(n - 1));
        assert(planned.take(n).last() == planned[n - 1]);
        lemma_last_with_id(planned, n - 1);
    }
}

// ---------------------------------------------------------------------------------------------
// Planning.
// ---------------------------------------------------------------------------------------------

/// What planning asks of the provider next.
#[derive(Clone, Copy, Debug, PartialEq, Eq, Structural)]
pub enum RunPurgePlanningStep {
    Account,
    LookUpRun,
    ListArtifacts,
    Finished,
}

/// The planning of a purge: once the account is known to be the scanned one, each chosen run is
/// looked up, and its artifacts are listed, before the plan is made.
pub struct RunPurgePlanningService<'a> {
    snapshot: &'a WorkflowRunInventorySnapshot,
    selection: RunPurgeSelection,
    account: Option<Account>,
    runs: Vec<WorkflowRun>,
    targets: Vec<RunPurgeTarget>,
    run_confirmed: bool,
}

/// The contents of [`RunPurgePlanningService`].
#[verifier::ext_equal]
pub struct RunPurgePlanningView {
    pub snapshot: WorkflowRunInventorySnapshotView,
    pub selection: RunPurgeSelectionView,
    pub account: Option<AccountView>,
    pub runs: Seq<WorkflowRunView>,
    pub targets: Seq<RunPurgeTargetView>,
    pub run_confirmed: bool,
}

impl<'a> DeepView for RunPurgePlanningService<'a> {
    type V = RunPurgePlanningView;

    closed spec fn deep_view(&self) -> RunPurgePlanningView {
        RunPurgePlanningView {
            snapshot: self.snapshot.deep_view(),
            selection: self.selection.deep_view(),
            account: self.account.deep_view(),
            runs: self.runs.deep_view(),
            targets: self.targets.deep_view(),
            run_confirmed: self.run_confirmed,
        }
    }
}

impl RunPurgePlanningView {
    /// The planning before anything was asked.
    pub open spec fn started(
        snapshot: WorkflowRunInventorySnapshotView,
        runs: Seq<WorkflowRunView>,
        selection: RunPurgeSelectionView,
    ) -> RunPurgePlanningView {
        RunPurgePlanningView {
            snapshot,
            selection,
            account: None,
            runs,
            targets: Seq::empty(),
            run_confirmed: false,
        }
    }

    /// The run that is planned now.
    pub open spec fn current(self) -> WorkflowRunView {
        self.runs[self.targets.len() as int]
    }

    /// What is asked next, or why the current run cannot be planned.
    pub open spec fn step(self) -> Result<RunPurgePlanningStep, RunPurgeErrorView> {
        if self.account is None {
            Ok(RunPurgePlanningStep::Account)
        } else if self.targets.len() >= self.runs.len() {
            Ok(RunPurgePlanningStep::Finished)
        } else if self.run_confirmed {
            Ok(RunPurgePlanningStep::ListArtifacts)
        } else {
            match choice_problem(self.snapshot.runs, self.current()) {
                Some(problem) => Err(problem),
                None => Ok(RunPurgePlanningStep::LookUpRun),
            }
        }
    }

    /// The planning once the artifacts of the current run are known.
    pub open spec fn with_artifacts(self, artifacts: Seq<ArtifactView>) -> RunPurgePlanningView {
        RunPurgePlanningView {
            targets: self.targets.push(RunPurgeTargetView { run: self.current(), artifacts, delete_logs: true }),
            run_confirmed: false,
            ..self
        }
    }

    /// The account is the scanned one, and each target is the chosen run in its place.
    pub open spec fn in_step(self) -> bool {
        &&& self.account is Some ==> self.account == Some(self.snapshot.account)
        &&& self.account is None ==> self.targets.len() == 0
        &&& self.targets.len() <= self.runs.len()
        &&& forall|i: int|
            0 <= i < self.targets.len() ==> (#[trigger] self.targets[i]).run == self.runs[i]
                && self.targets[i].delete_logs
    }
}

/// A plan has one target for each chosen run, and none besides: the run with its logs, and with
/// the artifacts that were listed for it, by their numbers.
pub proof fn a_plan_has_the_chosen_runs(planning: RunPurgePlanningView, created_at: Timestamp)
    requires
        planning.in_step(),
        planning.step() == Ok::<RunPurgePlanningStep, RunPurgeErrorView>(RunPurgePlanningStep::Finished),
    ensures
        planning.account == Some(planning.snapshot.account),
        ({
            let plan = plan_of(planning.snapshot, created_at, planning.selection, planning.targets);
            &&& plan.targets.len() == planning.runs.len()
            &&& forall|i: int|
                0 <= i < plan.targets.len() ==> planning.runs.contains((#[trigger] plan.targets[i]).run)
                    && plan.targets[i].delete_logs
            &&& forall|k: int|
                0 <= k < planning.runs.len() ==> (#[trigger] planning.targets[k]).run == planning.runs[k]
                    && plan.targets.contains(arranged(planning.targets[k]))
        }),
{
    let given = all_arranged(planning.targets);
    let made = sorted::<RunPurgeTarget, RunTargetOrder>(given, RunTargetOrder);
    sorting_is_an_ordered_rearrangement::<RunPurgeTarget, RunTargetOrder>(given, RunTargetOrder);
    assert forall|i: int| 0 <= i < made.len() implies planning.runs.contains((#[trigger] made[i]).run)
        && made[i].delete_logs by {
        lemma_sorted_contains::<RunPurgeTarget, RunTargetOrder>(given, RunTargetOrder, made[i]);
        assert(made.contains(made[i]));
        let k = choose|k: int| 0 <= k < given.len() && given[k] == made[i];
        assert(planning.targets[k].run == planning.runs[k]);
    }
    assert forall|k: int| 0 <= k < planning.runs.len() implies (#[trigger] planning.targets[k]).run
        == planning.runs[k] && made.contains(arranged(planning.targets[k])) by {
        assert(given.contains(given[k]));
        lemma_sorted_contains::<RunPurgeTarget, RunTargetOrder>(given, RunTargetOrder, given[k]);
    }
}

/// Why a run that was chosen cannot be planned, before the provider is asked.
pub open spec fn choice_problem(known: Seq<WorkflowRunView>, run: WorkflowRunView) -> Option<RunPurgeErrorView> {
    if !run.completed() {
        Some(
            RunPurgeErrorView::RunNotCompleted {
                repository: run.repository.full_name,
                run_id: run.id,
                status: run.status,
            },
        )
    } else if !known.contains(run) {
        Some(RunPurgeErrorView::RunNotInSnapshot { repository: run.repository.full_name, run_id: run.id })
    } else {
        None
    }
}

/// Why a run cannot be planned, from what the provider says of it.
pub open spec fn lookup_problem(
    run: WorkflowRunView,
    lookup: Result<Option<WorkflowRun>, ProviderError>,
) -> Option<RunPurgeErrorView> {
    let repository = run.repository.full_name;
    match lookup {
        Err(error) => Some(
            RunPurgeErrorView::DependencySnapshotFailed { repository, run_id: run.id, message: error.text() },
        ),
        Ok(None) => Some(RunPurgeErrorView::RunDisappearedDuringPlanning { repository, run_id: run.id }),
        Ok(Some(current)) => if current.deep_view() != run {
            Some(RunPurgeErrorView::RunChangedDuringPlanning { repository, run_id: run.id })
        } else {
            None
        },
    }
}

impl<'a> RunPurgePlanningService<'a> {
    /// Starts the planning; a scan with issues is no ground for one.
    pub fn new(
        snapshot: &'a WorkflowRunInventorySnapshot,
        selected_runs: Vec<WorkflowRun>,
        selection: RunPurgeSelection,
    ) -> (result: Result<Self, RunPurgeError>)
        ensures
            match result {
                Ok(service) => {
                    &&& snapshot.issues.len() == 0
                    &&& service.deep_view() == RunPurgePlanningView::started(
                        snapshot.deep_view(),
                        selected_runs.deep_view(),
                        selection.deep_view(),
                    )
                    &&& service.deep_view().in_step()
                },
                Err(error) => snapshot.issues.len() > 0 && error.deep_view() == (
                RunPurgeErrorView::IncompleteSnapshot { issue_count: snapshot.issues.len() }),
            },
    {
        if snapshot.issues.len() > 0 {
            return Err(RunPurgeError::IncompleteSnapshot { issue_count: snapshot.issues.len() });
        }
        Ok(
            RunPurgePlanningService {
                snapshot,
                selection,
                account: None,
                runs: selected_runs,
                targets: nothing(),
                run_confirmed: false,
            },
        )
    }

    /// What is asked of the provider next. A run that is not complete, or that the scan did
    /// not find, is refused before it is looked up.
    pub fn next(&self) -> (result: Result<RunPurgePlanningStep, RunPurgeError>)
        ensures
            match result {
                Ok(step) => self.deep_view().step() == Ok::<RunPurgePlanningStep, RunPurgeErrorView>(step),
                Err(error) => self.deep_view().step() == Err::<RunPurgePlanningStep, RunPurgeErrorView>(
                    error.deep_view(),
                ),
            },
    {
        if self.account.is_none() {
            return Ok(RunPurgePlanningStep::Account);
        }
        if self.targets.len() >= self.runs.len() {
            return Ok(RunPurgePlanningStep::Finished);
        }
        if self.run_confirmed {
            return Ok(RunPurgePlanningStep::ListArtifacts);
        }
        let run = &self.runs[self.targets.len()];
        assert(run.deep_view() == self.deep_view().current());
        if !run.is_completed() {
            return Err(
                RunPurgeError::RunNotCompleted {
                    repository: run.repository.full_name.copied(),
                    run_id: run.id,
                    status: run.status.copied(),
                },
            );
        }
        let known = &self.snapshot.runs;
        let ghost all = known.deep_view();
        let mut i: usize = 0;
        while i < known.len() && !known[i].same(run)
            invariant
                i <= known.len(),
                all == known.deep_view(),
                forall|k: int| 0 <= k < i ==> #[trigger] all[k] != run.deep_view(),
            decreases known.len() - i,
        {
            i = i + 1;
        }
        if i == known.len() {
            return Err(
                RunPurgeError::RunNotInSnapshot {
                    repository: run.repository.full_name.copied(),
                    run_id: run.id,
                },
            );
        }
        assert(all[i as int] == run.deep_view());
        Ok(RunPurgePlanningStep::LookUpRun)
    }

    /// Takes the account that the provider answers with; one that is not the scanned one is
    /// refused.
    pub fn account_answered(&mut self, account: Result<Account, ProviderError>) -> (result: Result<(), RunPurgeError>)
        requires
            old(self).deep_view().account is None,
        ensures
            reports(result, account_problem(old(self).deep_view().snapshot.account, account)),
            final(self).deep_view() == if result is Ok {
                RunPurgePlanningView {
                    account: Some(old(self).deep_view().snapshot.account),
                    ..old(self).deep_view()
                }
            } else {
                old(self).deep_view()
            },
            old(self).deep_view().in_step() ==> final(self).deep_view().in_step(),
    {
        match planned_account(&self.snapshot.account, account) {
            Ok(current) => {
                self.account = Some(current);
                Ok(())
            },
            Err(error) => Err(error),
        }
    }

    /// The run that is planned now.
    pub fn current(&self) -> (result: &WorkflowRun)
        requires
            self.deep_view().targets.len() < self.deep_view().runs.len(),
        ensures
            result.deep_view() == self.deep_view().current(),
    {
        &self.runs[self.targets.len()]
    }

    /// Takes what the provider says of the run that is planned now: it has to be what the scan
    /// found.
    pub fn run_answered(&mut self, lookup: Result<Option<WorkflowRun>, ProviderError>) -> (result: Result<
        (),
        RunPurgeError,
    >)
        requires
            old(self).deep_view().step() == Ok::<RunPurgePlanningStep, RunPurgeErrorView>(
                RunPurgePlanningStep::LookUpRun,
            ),
        ensures
            reports(result, lookup_problem(old(self).deep_view().current(), lookup)),
            final(self).deep_view() == (RunPurgePlanningView {
                run_confirmed: result is Ok,
                ..old(self).deep_view()
            }),
            old(self).deep_view().in_step() ==> final(self).deep_view().in_step(),
    {
        let run = &self.runs[self.targets.len()];
        match lookup {
            Err(error) => Err(
                RunPurgeError::DependencySnapshotFailed {
                    repository: run.repository.full_name.copied(),
                    run_id: run.id,
                    message: error.message(),
                },
            ),
            Ok(None) => Err(
                RunPurgeError::RunDisappearedDuringPlanning {
                    repository: run.repository.full_name.copied(),
                    run_id: run.id,
                },
            ),
            Ok(Some(current)) => {
                if !current.same(run) {
                    return Err(
                        RunPurgeError::RunChangedDuringPlanning {
                            repository: run.repository.full_name.copied(),
                            run_id: run.id,
                        },
                    );
                }
                self.run_confirmed = true;
                Ok(())
            },
        }
    }

    /// Takes the artifacts of the run that is planned now: with them and its logs it becomes a
    /// target.
    pub fn artifacts_listed(&mut self, listing: Result<Vec<Artifact>, ProviderError>) -> (result: Result<
        (),
        RunPurgeError,
    >)
        requires
            old(self).deep_view().step() == Ok::<RunPurgePlanningStep, RunPurgeErrorView>(
                RunPurgePlanningStep::ListArtifacts,
            ),
        ensures
            match listing {
                Ok(artifacts) => {
                    &&& result is Ok
                    &&& final(self).deep_view() == old(self).deep_view().with_artifacts(artifacts.deep_view())
                },
                Err(error) => {
                    &&& result is Err
                    &&& result->Err_0.deep_view() == (RunPurgeErrorView::DependencySnapshotFailed {
                        repository: old(self).deep_view().current().repository.full_name,
                        run_id: old(self).deep_view().current().id,
                        message: error.text(),
                    })
                    &&& final(self).deep_view() == old(self).deep_view()
                },
            },
            old(self).deep_view().in_step() ==> final(self).deep_view().in_step(),
    {
        let run = &self.runs[self.targets.len()];
        match listing {
            Err(error) => Err(
                RunPurgeError::DependencySnapshotFailed {
                    repository: run.repository.full_name.copied(),
                    run_id: run.id,
                    message: error.message(),
                },
            ),
            Ok(artifacts) => {
                let target = RunPurgeTarget::new(run.copied(), artifacts, true);
                add_to(&mut self.targets, target);
                self.run_confirmed = false;
                Ok(())
            },
        }
    }

    /// Makes the plan, as of now, once every chosen run has become a target.
    pub fn build(self) -> (result: Result<RunPurgePlan, RunPurgeError>)
        requires
            self.deep_view().step() == Ok::<RunPurgePlanningStep, RunPurgeErrorView>(
                RunPurgePlanningStep::Finished,
            ),
        ensures
            match plan_problem(self.deep_view().snapshot, self.deep_view().targets) {
                Some(problem) => result is Err && result->Err_0.deep_view() == problem,
                None => result is Ok && exists|created_at: Timestamp|
                    result->Ok_0.deep_view() == #[trigger] plan_of(
                        self.deep_view().snapshot,
                        created_at,
                        self.deep_view().selection,
                        self.deep_view().targets,
                    ),
            },
    {
        let created_at = utc_now();
        RunPurgePlan::new(self.snapshot, created_at, self.selection, self.targets)
    }
}

// ---------------------------------------------------------------------------------------------
// Review.
// ---------------------------------------------------------------------------------------------

/// What a provider says of the artifacts of a run.
#[verifier::ext_equal]
pub enum Listing {
    Listed(Seq<ArtifactView>),
    Failed(Seq<char>),
}

pub open spec fn listing(result: Result<Vec<Artifact>, ProviderError>) -> Listing {
    match result {
        Ok(artifacts) => Listing::Listed(artifacts.deep_view()),
        Err(error) => Listing::Failed(error.text()),
    }
}

/// The numbers of artifacts.
pub open spec fn ids(artifacts: Seq<ArtifactView>) -> Seq<u64> {
    Seq::new(artifacts.len(), |i: int| artifacts[i].id)
}

fn ids_of(artifacts: &Vec<Artifact>) -> (result: Vec<u64>)
    ensures
        result.deep_view() == ids(artifacts.deep_view()),
{
    let ghost all = artifacts.deep_view();
    let mut result: Vec<u64> = nothing();
    let mut i: usize = 0;
    while i < artifacts.len()
        invariant
            i <= artifacts.len(),
            all == artifacts.deep_view(),
            result.deep_view() == ids(all).take(i as int),
        decreases artifacts.len() - i,
    {
        add_to(&mut result, artifacts[i].id);
        i = i + 1;
        assert(result.deep_view() =~= ids(all).take(i as int));
    }
    assert(ids(all).take(i as int) =~= ids(all));
    result
}

/// A review's finding that no artifact takes part in.
pub open spec fn plain_finding(
    run: WorkflowRunView,
    state: RunPurgeRevalidationState,
    current_run: Option<WorkflowRunView>,
    error: Option<Seq<char>>,
) -> RunPurgeRevalidationItemView {
    RunPurgeRevalidationItemView {
        repository: run.repository.full_name,
        run_id: run.id,
        state,
        missing_artifact_ids: Seq::empty(),
        changed_artifact_ids: Seq::empty(),
        unexpected_artifact_ids: Seq::empty(),
        current_run,
        error,
    }
}

/// What a lookup of the run finds; nothing yet, where the artifacts have to be listed too.
pub open spec fn run_finding(target: RunPurgeTargetView, found: Answer<WorkflowRunView>) -> Option<
    RunPurgeRevalidationItemView,
> {
    match found {
        Answer::Absent => Some(
            RunPurgeRevalidationItemView {
                missing_artifact_ids: ids(target.artifacts),
                ..plain_finding(target.run, RunPurgeRevalidationState::AlreadyAbsent, None, None)
            },
        ),
        Answer::Found(current) => if current != target.run {
            Some(plain_finding(target.run, RunPurgeRevalidationState::Changed, Some(current), None))
        } else {
            None
        },
        Answer::Failed(message) => Some(
            plain_finding(target.run, RunPurgeRevalidationState::RevalidationFailed, None, Some(message)),
        ),
    }
}

/// What the artifacts of an unchanged run tell.
pub open spec fn artifacts_finding(
    target: RunPurgeTargetView,
    current_run: WorkflowRunView,
    listed: Listing,
) -> RunPurgeRevalidationItemView {
    match listed {
        Listing::Listed(current) => {
            let found = drift(target.artifacts, current);
            RunPurgeRevalidationItemView {
                missing_artifact_ids: found.missing,
                changed_artifact_ids: found.changed,
                unexpected_artifact_ids: found.unexpected,
                ..plain_finding(
                    target.run,
                    if found.changed.len() == 0 && found.unexpected.len() == 0 {
                        RunPurgeRevalidationState::Ready
                    } else {
                        RunPurgeRevalidationState::Changed
                    },
                    Some(current_run),
                    None,
                )
            }
        },
        Listing::Failed(message) => plain_finding(
            target.run,
            RunPurgeRevalidationState::RevalidationFailed,
            Some(current_run),
            Some(message),
        ),
    }
}

fn finding(
    run: &WorkflowRun,
    state: RunPurgeRevalidationState,
    current_run: Option<WorkflowRun>,
    error: Option<String>,
) -> (result: RunPurgeRevalidationItem)
    ensures
        result.deep_view() == plain_finding(run.deep_view(), state, current_run.deep_view(), error.deep_view()),
{
    RunPurgeRevalidationItem {
        repository: run.repository.full_name.copied(),
        run_id: run.id,
        state,
        missing_artifact_ids: nothing(),
        changed_artifact_ids: nothing(),
        unexpected_artifact_ids: nothing(),
        current_run,
        error,
    }
}

/// What a review asks of the provider next.
#[derive(Clone, Copy, Debug, PartialEq, Eq, Structural)]
pub enum RunPurgeRevalidationStep {
    Account,
    LookUpRun,
    ListArtifacts,
    Finished,
}

/// The review of a plan: once the account is known to be the planned one, each run is looked up
/// and, where it is unchanged, its artifacts are listed. Nothing is deleted.
pub struct RunPurgeRevalidationService<'a> {
    plan: &'a RunPurgePlan,
    account: Option<Account>,
    items: Vec<RunPurgeRevalidationItem>,
    unchanged_run: Option<WorkflowRun>,
}

/// The contents of [`RunPurgeRevalidationService`].
#[verifier::ext_equal]
pub struct RunPurgeReviewView {
    pub plan: RunPurgePlanView,
    pub account: Option<AccountView>,
    pub items: Seq<RunPurgeRevalidationItemView>,
    pub unchanged_run: Option<WorkflowRunView>,
}

impl<'a> DeepView for RunPurgeRevalidationService<'a> {
    type V = RunPurgeReviewView;

    closed spec fn deep_view(&self) -> RunPurgeReviewView {
        RunPurgeReviewView {
            plan: self.plan.deep_view(),
            account: self.account.deep_view(),
            items: self.items.deep_view(),
            unchanged_run: self.unchanged_run.deep_view(),
        }
    }
}

impl RunPurgeReviewView {
    /// The review of a plan before anything was asked.
    pub open spec fn started(plan: RunPurgePlanView) -> RunPurgeReviewView {
        RunPurgeReviewView { plan, account: None, items: Seq::empty(), unchanged_run: None }
    }

    /// The target that is reviewed now.
    pub open spec fn current(self) -> RunPurgeTargetView {
        self.plan.targets[self.items.len() as int]
    }

    pub open spec fn step(self) -> RunPurgeRevalidationStep {
        if self.account is None {
            RunPurgeRevalidationStep::Account
        } else if self.items.len() >= self.plan.targets.len() {
            RunPurgeRevalidationStep::Finished
        } else if self.unchanged_run is Some {
            RunPurgeRevalidationStep::ListArtifacts
        } else {
            RunPurgeRevalidationStep::LookUpRun
        }
    }

    /// The review after the provider said what it knows of the current run.
    pub open spec fn after_run(self, found: Answer<WorkflowRunView>) -> RunPurgeReviewView {
        match run_finding(self.current(), found) {
            Some(item) => RunPurgeReviewView { items: self.items.push(item), ..self },
            None => RunPurgeReviewView { unchanged_run: Some(found->Found_0), ..self },
        }
    }

    /// The review after the provider listed the artifacts of the current run.
    pub open spec fn after_artifacts(self, listed: Listing) -> RunPurgeReviewView {
        RunPurgeReviewView {
            items: self.items.push(artifacts_finding(self.current(), self.unchanged_run->0, listed)),
            unchanged_run: None,
            ..self
        }
    }

    /// The account is the planned one, and each finding is about the target in its place.
    pub open spec fn in_step(self) -> bool {
        &&& self.account is Some ==> self.account == Some(self.plan.account)
        &&& self.account is None ==> self.items.len() == 0
        &&& self.items.len() <= self.plan.targets.len()
        &&& forall|i: int|
            0 <= i < self.items.len() ==> (#[trigger] self.items[i]).run_id == self.plan.targets[i].run.id
                && self.items[i].repository == self.plan.targets[i].run.repository.full_name
    }
}

/// A review finds something of every target, in the order of the plan, and looks nothing up
/// before the account is known to be the planned one.
pub proof fn a_review_keeps_step(review: RunPurgeReviewView, found: Answer<WorkflowRunView>, listed: Listing)
    requires
        review.in_step(),
    ensures
        review.step() == RunPurgeRevalidationStep::LookUpRun ==> review.after_run(found).in_step(),
        review.step() == RunPurgeRevalidationStep::ListArtifacts ==> review.after_artifacts(listed).in_step(),
        review.step() != RunPurgeRevalidationStep::Account ==> review.account == Some(review.plan.account),
        review.step() == RunPurgeRevalidationStep::Finished ==> review.items.len() == review.plan.targets.len(),
{
}

impl<'a> RunPurgeRevalidationService<'a> {
    /// Starts the review of a plan that passes its check.
    pub fn new(plan: &'a RunPurgePlan) -> (result: Result<Self, RunPurgeError>)
        ensures
            match integrity_problem(plan.deep_view()) {
                Some(problem) => result is Err && result->Err_0.deep_view() == problem,
                None => {
                    &&& result is Ok
                    &&& result->Ok_0.deep_view() == RunPurgeReviewView::started(plan.deep_view())
                    &&& result->Ok_0.deep_view().in_step()
                },
            },
    {
        match plan.validate_integrity() {
            Ok(()) => {},
            Err(error) => {
                return Err(error);
            },
        }
        Ok(RunPurgeRevalidationService { plan, account: None, items: nothing(), unchanged_run: None })
    }

    pub fn next(&self) -> (result: RunPurgeRevalidationStep)
        ensures
            result == self.deep_view().step(),
    {
        if self.account.is_none() {
            RunPurgeRevalidationStep::Account
        } else if self.items.len() >= self.plan.targets().len() {
            RunPurgeRevalidationStep::Finished
        } else if self.unchanged_run.is_some() {
            RunPurgeRevalidationStep::ListArtifacts
        } else {
            RunPurgeRevalidationStep::LookUpRun
        }
    }

    /// Takes the account that the provider answers with; one that is not the planned one is
    /// refused.
    pub fn account_answered(&mut self, account: Result<Account, ProviderError>) -> (result: Result<(), RunPurgeError>)
        requires
            old(self).deep_view().step() == RunPurgeRevalidationStep::Account,
        ensures
            reports(result, account_problem(old(self).deep_view().plan.account, account)),
            final(self).deep_view() == if result is Ok {
                RunPurgeReviewView { account: Some(old(self).deep_view().plan.account), ..old(self).deep_view() }
            } else {
                old(self).deep_view()
            },
            old(self).deep_view().in_step() ==> final(self).deep_view().in_step(),
    {
        match planned_account(self.plan.account(), account) {
            Ok(current) => {
                self.account = Some(current);
                Ok(())
            },
            Err(error) => Err(error),
        }
    }

    /// The target that is reviewed now.
    pub fn current(&self) -> (result: &RunPurgeTarget)
        requires
            self.deep_view().items.len() < self.deep_view().plan.targets.len(),
        ensures
            result.deep_view() == self.deep_view().current(),
    {
        &self.plan.targets()[self.items.len()]
    }

    pub fn run_answered(&mut self, lookup: Result<Option<WorkflowRun>, ProviderError>)
        requires
            old(self).deep_view().step() == RunPurgeRevalidationStep::LookUpRun,
        ensures
            final(self).deep_view() == old(self).deep_view().after_run(answer(lookup)),
            old(self).deep_view().in_step() ==> final(self).deep_view().in_step(),
    {
        let plan = self.plan;
        let target = &plan.targets()[self.items.len()];
        assert(target.deep_view() == self.deep_view().current());
        let run = target.run();
        let item = match lookup {
            Ok(Some(current)) => {
                if current.same(run) {
                    self.unchanged_run = Some(current);
                    return ;
                }
                finding(run, RunPurgeRevalidationState::Changed, Some(current), None)
            },
            Ok(None) | Err(ProviderError::NotFound(_)) => {
                let mut item = finding(run, RunPurgeRevalidationState::AlreadyAbsent, None, None);
                item.missing_artifact_ids = ids_of(target.artifacts());
                item
            },
            Err(error) => finding(run, RunPurgeRevalidationState::RevalidationFailed, None, Some(error.message())),
        };
        add_to(&mut self.items, item);
    }

    pub fn artifacts_listed(&mut self, result: Result<Vec<Artifact>, ProviderError>)
        requires
            old(self).deep_view().step() == RunPurgeRevalidationStep::ListArtifacts,
        ensures
            final(self).deep_view() == old(self).deep_view().after_artifacts(listing(result)),
            old(self).deep_view().in_step() ==> final(self).deep_view().in_step(),
    {
        let plan = self.plan;
        let target = &plan.targets()[self.items.len()];
        assert(target.deep_view() == self.deep_view().current());
        let run = target.run();
        let current_run = self.unchanged_run.copied();
        let item = match result {
            Ok(current) => {
                let found = artifact_drift(target.artifacts(), &current);
                let state = if found.changed.len() == 0 && found.unexpected.len() == 0 {
                    RunPurgeRevalidationState::Ready
                } else {
                    RunPurgeRevalidationState::Changed
                };
                let mut item = finding(run, state, current_run, None);
                item.missing_artifact_ids = found.missing;
                item.changed_artifact_ids = found.changed;
                item.unexpected_artifact_ids = found.unexpected;
                item
            },
            Err(error) => finding(
                run,
                RunPurgeRevalidationState::RevalidationFailed,
                current_run,
                Some(error.message()),
            ),
        };
        add_to(&mut self.items, item);
        self.unchanged_run = None;
    }

    /// The report of the review, once every target was looked at.
    pub fn report(self, checked_at: Timestamp, telemetry: ProviderTelemetry) -> (result: RunPurgeRevalidationReport)
        requires
            self.deep_view().step() == RunPurgeRevalidationStep::Finished,
        ensures
            result.deep_view() == (RunPurgeRevalidationReportView {
                checked_at,
                account: self.deep_view().account->0,
                telemetry: telemetry.deep_view(),
                items: self.deep_view().items,
            }),
            self.deep_view().in_step() ==> reviews(self.deep_view().plan.targets, result.deep_view().items),
    {
        RunPurgeRevalidationReport { checked_at, account: self.account.unwrap(), telemetry, items: self.items }
    }
}

/// A finding that does not stand in the way of the purge.
pub open spec fn is_safe(state: RunPurgeRevalidationState) -> bool {
    state == RunPurgeRevalidationState::Ready || state == RunPurgeRevalidationState::AlreadyAbsent
}

/// Whether nothing that a review found stands in the way of the purge.
pub open spec fn all_safe(items: Seq<RunPurgeRevalidationItemView>) -> bool {
    forall|i: int| 0 <= i < items.len() ==> is_safe((#[trigger] items[i]).state)
}

impl RunPurgeRevalidationReport {
    /// Whether nothing that the review found stands in the way of the purge.
    pub fn is_safe_to_apply(&self) -> (result: bool)
        ensures
            result == all_safe(self.deep_view().items),
    {
        let ghost all = self.items.deep_view();
        let mut i: usize = 0;
        while i < self.items.len()
            invariant
                i <= self.items.len(),
                all == self.items.deep_view(),
                forall|k: int| 0 <= k < i ==> is_safe((#[trigger] all[k]).state),
            decreases self.items.len() - i,
        {
            assert(all[i as int].state == self.items@[i as int].state);
            match self.items[i].state {
                RunPurgeRevalidationState::Ready | RunPurgeRevalidationState::AlreadyAbsent => {},
                _ => {
                    return false;
                },
            }
            i = i + 1;
        }
        true
    }
}

/// Whether a review is about the targets of a plan, one by one.
pub open spec fn reviews(targets: Seq<RunPurgeTargetView>, items: Seq<RunPurgeRevalidationItemView>) -> bool {
    &&& items.len() == targets.len()
    &&& forall|i: int|
        0 <= i < items.len() ==> (#[trigger] items[i]).repository == targets[i].run.repository.full_name
            && items[i].run_id == targets[i].run.id
}

/// Why a review does not allow a plan to be carried out.
pub open spec fn review_problem(plan: RunPurgePlanView, review: RunPurgeRevalidationReportView) -> Option<
    RunPurgeErrorView,
> {
    if review.account != plan.account {
        Some(other_account(plan.account, review.account))
    } else if !reviews(plan.targets, review.items) {
        Some(RunPurgeErrorView::ReviewedReportMismatch)
    } else if !all_safe(review.items) {
        Some(RunPurgeErrorView::UnsafeReviewedReport)
    } else {
        None
    }
}

/// An execution is started only by a review of the same account that looked at each target of
/// the plan and found nothing in the way.
pub proof fn only_a_safe_review_starts_an_execution(plan: RunPurgePlanView, review: RunPurgeRevalidationReportView)
    requires
        review_problem(plan, review) is None,
    ensures
        review.account == plan.account,
        reviews(plan.targets, review.items),
        all_safe(review.items),
{
}

/// Refuses a review that is not of this plan, or that found something in the way.
pub fn validate_review(plan: &RunPurgePlan, reviewed: &RunPurgeRevalidationReport) -> (result: Result<
    (),
    RunPurgeError,
>)
    ensures
        reports(result, review_problem(plan.deep_view(), reviewed.deep_view())),
{
    match ensure_same_account(plan.account(), &reviewed.account) {
        Ok(()) => {},
        Err(error) => {
            return Err(error);
        },
    }
    let targets = plan.targets();
    let ghost planned = targets.deep_view();
    let ghost found = reviewed.items.deep_view();
    if reviewed.items.len() != targets.len() {
        return Err(RunPurgeError::ReviewedReportMismatch);
    }
    let mut i: usize = 0;
    while i < targets.len()
        invariant
            i <= targets.len(),
            planned == targets.deep_view(),
            found == reviewed.items.deep_view(),
            planned == plan.deep_view().targets,
            found.len() == planned.len(),
            plan.deep_view().account == reviewed.deep_view().account,
            forall|k: int|
                0 <= k < i ==> (#[trigger] found[k]).repository == planned[k].run.repository.full_name
                    && found[k].run_id == planned[k].run.id,
        decreases targets.len() - i,
    {
        let run = targets[i].run();
        let item = &reviewed.items[i];
        assert(found[i as int] == item.deep_view());
        assert(planned[i as int].run == run.deep_view());
        if item.run_id != run.id || !item.repository.same(&run.repository.full_name) {
            return Err(RunPurgeError::ReviewedReportMismatch);
        }
        i = i + 1;
    }
    if !reviewed.is_safe_to_apply() {
        return Err(RunPurgeError::UnsafeReviewedReport);
    }
    Ok(())
}

proof fn lemma_found_by_id(artifacts: Seq<ArtifactView>, id: u64)
    ensures
        last_with_id(artifacts, id) is Some <==> exists|i: int|
            0 <= i < artifacts.len() && (#[trigger] artifacts[i]).id == id,
        last_with_id(artifacts, id) matches Some(found) ==> found.id == id && artifacts.contains(found),
    decreases artifacts.len(),
{
    if artifacts.len() > 0 {
        let rest = artifacts.drop_last();
        lemma_found_by_id(rest, id);
        assert(artifacts[artifacts.len() - 1] == artifacts.last());
        if exists|i: int| 0 <= i < artifacts.len() && (#[trigger] artifacts[i]).id == id {
            let i = choose|i: int| 0 <= i < artifacts.len() && (#[trigger] artifacts[i]).id == id;
            if i < rest.len() {
                assert(rest[i].id == id);
            }
        }
        if last_with_id(rest, id) is Some {
            let i = choose|i: int| 0 <= i < rest.len() && (#[trigger] rest[i]).id == id;
            assert(artifacts[i].id == id);
            let k = choose|k: int| 0 <= k < rest.len() && rest[k] == last_with_id(rest, id)->0;
            assert(artifacts[k] == rest[k]);
        }
    }
}

/// Whether one of the artifacts has a number.
pub open spec fn has_id(artifacts: Seq<ArtifactView>, id: u64) -> bool {
    exists|i: int| 0 <= i < artifacts.len() && (#[trigger] artifacts[i]).id == id
}

/// No two of the artifacts have the same number.
pub open spec fn one_of_each(artifacts: Seq<ArtifactView>) -> bool {
    forall|i: int, j: int| 0 <= i < j < artifacts.len() ==> (#[trigger] artifacts[i]).id != (#[trigger] artifacts[j]).id
}

proof fn lemma_missing_ids(planned: Seq<ArtifactView>, current: Seq<ArtifactView>, id: u64)
    ensures
        missing_ids(planned, current).contains(id) <==> has_id(planned, id) && !has_id(current, id),
    decreases planned.len(),
{
    if planned.len() > 0 {
        let rest = planned.drop_last();
        let before = missing_ids(rest, current);
        let all = missing_ids(planned, current);
        lemma_missing_ids(rest, current, id);
        lemma_found_by_id(current, planned.last().id);
        lemma_pushed_id(before, planned.last().id, id);
        lemma_has_id(planned, id);
    }
}

proof fn lemma_unexpected_ids(planned: Seq<ArtifactView>, current: Seq<ArtifactView>, id: u64)
    ensures
        unexpected_ids(planned, current).contains(id) <==> has_id(current, id) && !has_id(planned, id),
    decreases current.len(),
{
    if current.len() > 0 {
        let rest = current.drop_last();
        lemma_unexpected_ids(planned, rest, id);
        lemma_found_by_id(planned, current.last().id);
        lemma_pushed_id(unexpected_ids(planned, rest), current.last().id, id);
        lemma_has_id(current, id);
    }
}

proof fn lemma_pushed_id(before: Seq<u64>, added: u64, id: u64)
    ensures
        before.push(added).contains(id) <==> before.contains(id) || added == id,
{
    let all = before.push(added);
    if before.contains(id) {
        let k = choose|k: int| 0 <= k < before.len() && before[k] == id;
        assert(all[k] == id);
    }
    if added == id {
        assert(all[before.len() as int] == id);
    }
    if all.contains(id) {
        let k = choose|k: int| 0 <= k < all.len() && all[k] == id;
        if k < before.len() {
            assert(before[k] == id);
        }
    }
}

proof fn lemma_has_id(artifacts: Seq<ArtifactView>, id: u64)
    requires
        artifacts.len() > 0,
    ensures
        has_id(artifacts, id) <==> has_id(artifacts.drop_last(), id) || artifacts.last().id == id,
{
    let rest = artifacts.drop_last();
    if has_id(rest, id) {
        let i = choose|i: int| 0 <= i < rest.len() && (#[trigger] rest[i]).id == id;
        assert(artifacts[i].id == id);
    }
    if artifacts.last().id == id {
        assert(artifacts[artifacts.len() - 1].id == id);
    }
    if has_id(artifacts, id) {
        let i = choose|i: int| 0 <= i < artifacts.len() && (#[trigger] artifacts[i]).id == id;
        if i < rest.len() {
            assert(rest[i].id == id);
        }
    }
}

proof fn lemma_changed_ids(planned: Seq<ArtifactView>, current: Seq<ArtifactView>, id: u64)
    requires
        one_of_each(current),
    ensures
        changed_ids(planned, current).contains(id) <==> exists|i: int, j: int|
            0 <= i < planned.len() && 0 <= j < current.len() && (#[trigger] planned[i]).id == id && (
            #[trigger] current[j]).id == id && planned[i] != current[j],
    decreases planned.len(),
{
    if planned.len() > 0 {
        let rest = planned.drop_last();
        let last = planned.len() - 1;
        lemma_changed_ids(rest, current, id);
        lemma_found_by_id(current, planned.last().id);
        lemma_pushed_id(changed_ids(rest, current), planned.last().id, id);
        assert(planned[last] == planned.last());
        if changed_ids(rest, current).contains(id) {
            let (i, j) = choose|i: int, j: int|
                0 <= i < rest.len() && 0 <= j < current.len() && (#[trigger] rest[i]).id == id && (
                #[trigger] current[j]).id == id && rest[i] != current[j];
            assert(planned[i] == rest[i] && current[j].id == id);
        }
        match last_with_id(current, planned.last().id) {
            Some(found) => {
                let j = choose|j: int| 0 <= j < current.len() && current[j] == found;
                assert(current[j].id == planned[last].id);
            },
            None => {},
        }
        if exists|i: int, j: int|
            0 <= i < planned.len() && 0 <= j < current.len() && (#[trigger] planned[i]).id == id && (
            #[trigger] current[j]).id == id && planned[i] != current[j] {
            let (i, j) = choose|i: int, j: int|
                0 <= i < planned.len() && 0 <= j < current.len() && (#[trigger] planned[i]).id == id && (
                #[trigger] current[j]).id == id && planned[i] != current[j];
            if i < last {
                assert(rest[i] == planned[i]);
                assert(rest[i].id == id && current[j].id == id);
            } else {
                let found = last_with_id(current, id)->0;
                assert(current[j].id == id);
                let k = choose|k: int| 0 <= k < current.len() && current[k] == found;
                assert(current[k].id == current[j].id);
                assert(k == j);
            }
        }
    }
}

/// An artifact is missing where it was planned and the run no longer has it; unexpected where the
/// run has it and it was not planned; and changed where the run has it otherwise than it was
/// planned. The numbers stand in their order.
pub proof fn drift_tells_every_difference(planned: Seq<ArtifactView>, current: Seq<ArtifactView>, id: u64)
    ensures
        drift(planned, current).missing.contains(id) <==> has_id(planned, id) && !has_id(current, id),
        drift(planned, current).unexpected.contains(id) <==> has_id(current, id) && !has_id(planned, id),
        one_of_each(current) ==> (drift(planned, current).changed.contains(id) <==> exists|i: int, j: int|
            0 <= i < planned.len() && 0 <= j < current.len() && (#[trigger] planned[i]).id == id && (
            #[trigger] current[j]).id == id && planned[i] != current[j]),
{
    lemma_sorted_contains::<u64, Ascending>(missing_ids(planned, current), Ascending, id);
    lemma_sorted_contains::<u64, Ascending>(changed_ids(planned, current), Ascending, id);
    lemma_sorted_contains::<u64, Ascending>(unexpected_ids(planned, current), Ascending, id);
    lemma_missing_ids(planned, current, id);
    lemma_unexpected_ids(planned, current, id);
    if one_of_each(current) {
        lemma_changed_ids(planned, current, id);
    }
}

/// A run that the provider shows as planned is ready for the purge where each artifact that it has
/// was planned, exactly as it is; artifacts that are gone do not stand in the way.
pub proof fn a_run_is_ready_with_planned_artifacts_only(
    target: RunPurgeTargetView,
    current_run: WorkflowRunView,
    current: Seq<ArtifactView>,
)
    requires
        one_of_each(target.artifacts),
        one_of_each(current),
    ensures
        ({
            let item = artifacts_finding(target, current_run, Listing::Listed(current));
            &&& item.state == RunPurgeRevalidationState::Ready <==> forall|j: int|
                0 <= j < current.len() ==> target.artifacts.contains(#[trigger] current[j])
            &&& item.state == RunPurgeRevalidationState::Ready || item.state == RunPurgeRevalidationState::Changed
            &&& item.run_id == target.run.id
            &&& item.repository == target.run.repository.full_name
            &&& item.current_run == Some(current_run)
            &&& item.error is None
            &&& item.missing_artifact_ids == drift(target.artifacts, current).missing
            &&& item.changed_artifact_ids == drift(target.artifacts, current).changed
            &&& item.unexpected_artifact_ids == drift(target.artifacts, current).unexpected
        }),
{
    let planned = target.artifacts;
    let found = drift(planned, current);
    if found.changed.len() == 0 && found.unexpected.len() == 0 {
        assert forall|j: int| 0 <= j < current.len() implies planned.contains(#[trigger] current[j]) by {
            let id = current[j].id;
            drift_tells_every_difference(planned, current, id);
            assert(!found.unexpected.contains(id) && !found.changed.contains(id));
            assert(has_id(current, id));
            assert(has_id(planned, id));
            let i = choose|i: int| 0 <= i < planned.len() && (#[trigger] planned[i]).id == id;
            assert(planned[i].id == id && current[j].id == id);
            assert(planned[i] == current[j]);
        }
    } else if forall|j: int| 0 <= j < current.len() ==> planned.contains(#[trigger] current[j]) {
        if found.unexpected.len() > 0 {
            let id = found.unexpected[0];
            assert(found.unexpected.contains(id));
            drift_tells_every_difference(planned, current, id);
            let j = choose|j: int| 0 <= j < current.len() && (#[trigger] current[j]).id == id;
            assert(planned.contains(current[j]));
            let i = choose|i: int| 0 <= i < planned.len() && planned[i] == current[j];
            assert(planned[i].id == id);
        } else {
            let id = found.changed[0];
            assert(found.changed.contains(id));
            drift_tells_every_difference(planned, current, id);
            let (i, j) = choose|i: int, j: int|
                0 <= i < planned.len() && 0 <= j < current.len() && (#[trigger] planned[i]).id == id && (
                #[trigger] current[j]).id == id && planned[i] != current[j];
            assert(planned.contains(current[j]));
            let k = choose|k: int| 0 <= k < planned.len() && planned[k] == current[j];
            assert(planned[k].id == planned[i].id);
            assert(k == i);
        }
    }
}

/// What a lookup of the run tells: a run that the provider does not show is gone with all its
/// artifacts; one that it shows otherwise than planned has changed; where it could not say, the
/// review failed. Only for a run exactly as planned are the artifacts listed.
pub proof fn a_review_of_a_run_is_what_the_provider_shows(target: RunPurgeTargetView, found: Answer<WorkflowRunView>)
    ensures
        run_finding(target, found) is None <==> found == Answer::Found(target.run),
        run_finding(target, found) matches Some(item) ==> {
            &&& item.run_id == target.run.id
            &&& item.repository == target.run.repository.full_name
            &&& item.state == RunPurgeRevalidationState::AlreadyAbsent <==> found is Absent
            &&& item.state == RunPurgeRevalidationState::Changed <==> found is Found
            &&& item.state == RunPurgeRevalidationState::RevalidationFailed <==> found is Failed
            &&& found is Absent ==> item.missing_artifact_ids.len() == target.artifacts.len() && (forall|i: int|
                0 <= i < target.artifacts.len() ==> #[trigger] item.missing_artifact_ids[i] == target.artifacts[i].id)
            &&& found !is Absent ==> item.missing_artifact_ids.len() == 0
            &&& item.changed_artifact_ids.len() == 0 && item.unexpected_artifact_ids.len() == 0
            &&& found is Found ==> item.current_run == Some(found->Found_0)
            &&& found is Failed ==> item.error == Some(found->Failed_0)
            &&& found !is Failed ==> item.error is None
        },
{
}

/// A listing of artifacts that failed makes the review of the run fail.
pub proof fn a_failed_listing_fails_the_review(
    target: RunPurgeTargetView,
    current_run: WorkflowRunView,
    message: Seq<char>,
)
    ensures
        ({
            let item = artifacts_finding(target, current_run, Listing::Failed(message));
            &&& item.state == RunPurgeRevalidationState::RevalidationFailed
            &&& item.error == Some(message)
            &&& item.run_id == target.run.id
            &&& item.repository == target.run.repository.full_name
        }),
{
}

/// A run is planned only where it is completed, was in the scan, and the provider shows it exactly
/// as the scan did. It is planned with its logs and with the artifacts that were listed.
pub proof fn only_confirmed_runs_are_planned(
    planning: RunPurgePlanningView,
    run: WorkflowRunView,
    lookup: Result<Option<WorkflowRun>, ProviderError>,
    artifacts: Seq<ArtifactView>,
)
    requires
        planning.account is Some,
        planning.targets.len() < planning.runs.len(),
    ensures
        choice_problem(planning.snapshot.runs, run) is None <==> equal_but_for_case(run.status, "completed"@)
            && planning.snapshot.runs.contains(run),
        lookup_problem(run, lookup) is None <==> lookup is Ok && lookup->Ok_0 is Some && lookup->Ok_0->0.deep_view()
            == run,
        planning.current() == planning.runs[planning.targets.len() as int],
        planning.step() == Ok::<RunPurgePlanningStep, RunPurgeErrorView>(RunPurgePlanningStep::LookUpRun)
            <==> !planning.run_confirmed && choice_problem(planning.snapshot.runs, planning.current()) is None,
        planning.step() == Ok::<RunPurgePlanningStep, RunPurgeErrorView>(RunPurgePlanningStep::ListArtifacts)
            <==> planning.run_confirmed,
        ({
            let after = planning.with_artifacts(artifacts);
            &&& after.targets.len() == planning.targets.len() + 1
            &&& after.targets.last().run == planning.runs[planning.targets.len() as int]
            &&& after.targets.last().artifacts == artifacts
            &&& after.targets.last().delete_logs
            &&& !after.run_confirmed
            &&& after.runs == planning.runs && after.snapshot == planning.snapshot
            &&& after.selection == planning.selection && after.account == planning.account
        }),
{
    case_is_disregarded(run.status, "completed"@);
}

/// A review lets a plan be carried out exactly where it is of the planned account, looked at each
/// target in turn, and found each ready or gone.
pub proof fn a_safe_review_of_the_plan_is_enough(plan: RunPurgePlanView, review: RunPurgeRevalidationReportView)
    ensures
        review_problem(plan, review) is None <==> {
            &&& review.account == plan.account
            &&& review.items.len() == plan.targets.len()
            &&& forall|i: int|
                0 <= i < review.items.len() ==> (#[trigger] review.items[i]).run_id == plan.targets[i].run.id
                    && review.items[i].repository == plan.targets[i].run.repository.full_name && (
                review.items[i].state == RunPurgeRevalidationState::Ready || review.items[i].state
                    == RunPurgeRevalidationState::AlreadyAbsent)
        },
{
}

/// A review takes up the targets in their order: each run first, then its artifacts where the run
/// is as planned.
pub proof fn a_review_takes_each_run_in_turn(
    review: RunPurgeReviewView,
    found: Answer<WorkflowRunView>,
    listed: Listing,
)
    requires
        review.account is Some,
        review.items.len() < review.plan.targets.len(),
    ensures
        review.step() == RunPurgeRevalidationStep::LookUpRun <==> review.unchanged_run is None,
        review.step() == RunPurgeRevalidationStep::ListArtifacts <==> review.unchanged_run is Some,
        review.current() == review.plan.targets[review.items.len() as int],
        review.unchanged_run is None ==> {
            let after = review.after_run(found);
            &&& found == Answer::Found(review.current().run) ==> after.items == review.items && after.unchanged_run
                == Some(review.current().run)
            &&& found != Answer::Found(review.current().run) ==> after.items.len() == review.items.len() + 1
                && after.unchanged_run is None
            &&& after.plan == review.plan && after.account == review.account
        },
        ({
            let after = review.after_artifacts(listed);
            &&& after.items.len() == review.items.len() + 1
            &&& after.unchanged_run is None
            &&& after.plan == review.plan && after.account == review.account
        }),
{
}

} // verus!
