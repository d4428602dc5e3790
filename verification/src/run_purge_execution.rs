//! Carrying out a purge of workflow runs, one answer of the provider at a time: the run and its
//! artifacts are looked at again, then logs and artifacts go, then the run itself.
use crate::execution::{ExecutionAuthorization, ExecutionAuthorizationKind};
use crate::inventory::only_the_last_update_may_differ;
use crate::model::{
    answer, removal, Account, AccountView, Answer, Artifact, ArtifactView, DeleteOutcome, ProviderError, ProviderTelemetry, Removal,
    WorkflowRun, WorkflowRunView,
};
use crate::order::{sum_by, tally};
use crate::run_purge::{
    account_problem, integrity_problem, planned_account, reports, RunPurgeError, RunPurgePlan, RunPurgePlanView,
    RunPurgeTarget, RunPurgeTargetView,
};
use crate::run_purge_flow::{
    a_run_is_ready_with_planned_artifacts_only, artifact_drift, drift, has_id, ids, listing, one_of_each,
    review_problem, validate_review, Listing, RunPurgeArtifactResult,
    RunPurgeArtifactResultView, RunPurgeExecutionItem, RunPurgeExecutionItemView, RunPurgeExecutionReport,
    RunPurgeExecutionReportView, RunPurgeExecutionState, RunPurgeRevalidationReport, RunPurgeStepResult,
    RunPurgeStepResultView,
};
use crate::text::{decimal, join, join2, join4, joined, number};
use crate::time::Timestamp;
use crate::totals::capped;
use crate::value::{add_to, nothing, Value};
use vstd::prelude::*;

verus! {

/// What the execution of a target asks of the provider next.
#[derive(Clone, Copy, Debug, PartialEq, Eq, Structural)]
pub enum RunPurgeStage {
    /// Look up the run, before anything is deleted.
    LookUpRun,
    /// List the artifacts of the run, before anything is deleted.
    ListArtifacts,
    DeleteLogs,
    /// Look up the artifact that comes next.
    LookUpArtifact,
    /// Delete the artifact that comes next.
    DeleteArtifact,
    /// List the artifacts that are left.
    ListResidual,
    /// Look up the run, once nothing is left of what belongs to it.
    RecheckRun,
    DeleteRun,
    /// Look up the run that the provider said it deleted.
    VerifyRun,
    Done,
}

/// How far the execution of a target has come.
#[verifier::ext_equal]
pub struct ProgressView {
    pub stage: RunPurgeStage,
    pub logs: RunPurgeStepResultView,
    pub artifacts: Seq<RunPurgeArtifactResultView>,
    pub residual_artifacts: Seq<ArtifactView>,
    pub run: RunPurgeStepResultView,
}

pub open spec fn outcome(state: RunPurgeExecutionState, error: Option<Seq<char>>) -> RunPurgeStepResultView {
    RunPurgeStepResultView { state, error }
}

pub open spec fn artifact_outcome(
    planned: ArtifactView,
    state: RunPurgeExecutionState,
    current: Option<ArtifactView>,
    error: Option<Seq<char>>,
) -> RunPurgeArtifactResultView {
    RunPurgeArtifactResultView { planned, state, current, error }
}

/// Whether a thing is gone.
pub open spec fn is_gone(state: RunPurgeExecutionState) -> bool {
    state == RunPurgeExecutionState::Deleted || state == RunPurgeExecutionState::AlreadyAbsent
}

pub open spec fn all_gone(artifacts: Seq<RunPurgeArtifactResultView>) -> bool {
    forall|i: int| 0 <= i < artifacts.len() ==> is_gone((#[trigger] artifacts[i]).state)
}

/// The same outcome for every artifact of a target.
pub open spec fn same_for_all(
    artifacts: Seq<ArtifactView>,
    state: RunPurgeExecutionState,
    error: Option<Seq<char>>,
) -> Seq<RunPurgeArtifactResultView> {
    Seq::new(artifacts.len(), |i: int| artifact_outcome(artifacts[i], state, None, error))
}

/// Numbers as they are written in a message.
pub open spec fn written_ids(ids: Seq<u64>) -> Seq<Seq<char>> {
    Seq::new(ids.len(), |i: int| decimal(ids[i] as nat))
}

pub open spec fn id_list(ids: Seq<u64>) -> Seq<char> {
    "["@ + joined(written_ids(ids), ", "@) + "]"@
}

/// What the provider still lists of a planned artifact, if anything.
pub open spec fn first_with_id(artifacts: Seq<ArtifactView>, id: u64) -> Option<ArtifactView>
    decreases artifacts.len(),
{
    if artifacts.len() == 0 {
        None
    } else if artifacts[0].id == id {
        Some(artifacts[0])
    } else {
        first_with_id(artifacts.drop_first(), id)
    }
}

/// The outcomes, once it is known which artifacts are left.
pub open spec fn marked(
    results: Seq<RunPurgeArtifactResultView>,
    residual: Seq<ArtifactView>,
) -> Seq<RunPurgeArtifactResultView> {
    Seq::new(
        results.len(),
        |i: int|
            match first_with_id(residual, results[i].planned.id) {
                Some(current) => artifact_outcome(
                    results[i].planned,
                    RunPurgeExecutionState::VerificationFailed,
                    Some(current),
                    Some("artifact still exists after reported deletion"@),
                ),
                None => results[i],
            },
    )
}

impl ProgressView {
    /// Where the execution of a target starts.
    pub open spec fn start() -> ProgressView {
        ProgressView {
            stage: RunPurgeStage::LookUpRun,
            logs: outcome(RunPurgeExecutionState::Blocked, None),
            artifacts: Seq::empty(),
            residual_artifacts: Seq::empty(),
            run: outcome(RunPurgeExecutionState::Blocked, None),
        }
    }

    /// The run had gone before anything was done.
    pub open spec fn found_absent(target: RunPurgeTargetView) -> ProgressView {
        ProgressView {
            stage: RunPurgeStage::Done,
            logs: outcome(RunPurgeExecutionState::AlreadyAbsent, None),
            artifacts: same_for_all(target.artifacts, RunPurgeExecutionState::AlreadyAbsent, None),
            residual_artifacts: Seq::empty(),
            run: outcome(RunPurgeExecutionState::AlreadyAbsent, None),
        }
    }

    /// Nothing was done, for the reason that the run's outcome gives.
    pub open spec fn blocked(
        target: RunPurgeTargetView,
        state: RunPurgeExecutionState,
        error: Option<Seq<char>>,
    ) -> ProgressView {
        let reason = Some("dependency cleanup not started"@);
        ProgressView {
            stage: RunPurgeStage::Done,
            logs: outcome(RunPurgeExecutionState::Blocked, reason),
            artifacts: same_for_all(target.artifacts, RunPurgeExecutionState::Blocked, reason),
            residual_artifacts: Seq::empty(),
            run: outcome(state, error),
        }
    }

    /// The run's outcome is settled.
    pub open spec fn settled(self, state: RunPurgeExecutionState, error: Option<Seq<char>>) -> ProgressView {
        ProgressView { stage: RunPurgeStage::Done, run: outcome(state, error), ..self }
    }

    /// On to the next artifact or, where none is left, to what follows them.
    pub open spec fn onward(self, target: RunPurgeTargetView) -> ProgressView {
        if self.artifacts.len() < target.artifacts.len() {
            ProgressView { stage: RunPurgeStage::LookUpArtifact, ..self }
        } else if is_gone(self.logs.state) && all_gone(self.artifacts) {
            ProgressView { stage: RunPurgeStage::ListResidual, ..self }
        } else {
            self.settled(
                RunPurgeExecutionState::Blocked,
                Some("workflow run retained because dependency cleanup was incomplete"@),
            )
        }
    }

    /// The outcome of the artifact that came next.
    pub open spec fn with_artifact(
        self,
        target: RunPurgeTargetView,
        state: RunPurgeExecutionState,
        current: Option<ArtifactView>,
        error: Option<Seq<char>>,
    ) -> ProgressView {
        let planned = target.artifacts[self.artifacts.len() as int];
        ProgressView {
            artifacts: self.artifacts.push(artifact_outcome(planned, state, current, error)),
            ..self
        }.onward(target)
    }

    /// After a lookup of the run.
    pub open spec fn after_run(self, target: RunPurgeTargetView, found: Answer<WorkflowRunView>) -> ProgressView {
        match self.stage {
            RunPurgeStage::LookUpRun => match found {
                Answer::Absent => ProgressView::found_absent(target),
                Answer::Found(current) => if current != target.run {
                    ProgressView::blocked(target, RunPurgeExecutionState::Changed, None)
                } else {
                    ProgressView { stage: RunPurgeStage::ListArtifacts, ..self }
                },
                Answer::Failed(message) => ProgressView::blocked(
                    target,
                    RunPurgeExecutionState::RevalidationFailed,
                    Some(message),
                ),
            },
            RunPurgeStage::RecheckRun => match found {
                Answer::Absent => self.settled(RunPurgeExecutionState::AlreadyAbsent, None),
                Answer::Found(current) => if current.purge_identity() != target.run.purge_identity() {
                    self.settled(
                        RunPurgeExecutionState::Changed,
                        Some("workflow run identity changed after dependency cleanup"@),
                    )
                } else {
                    ProgressView { stage: RunPurgeStage::DeleteRun, ..self }
                },
                Answer::Failed(message) => self.settled(RunPurgeExecutionState::RevalidationFailed, Some(message)),
            },
            RunPurgeStage::VerifyRun => match found {
                Answer::Absent => self.settled(RunPurgeExecutionState::Deleted, None),
                Answer::Found(_) => self.settled(
                    RunPurgeExecutionState::VerificationFailed,
                    Some("workflow run still exists after provider reported successful deletion"@),
                ),
                Answer::Failed(message) => self.settled(
                    RunPurgeExecutionState::VerificationFailed,
                    Some(
                        "provider reported successful workflow-run deletion, but post-delete verification failed: "@
                            + message,
                    ),
                ),
            },
            _ => self,
        }
    }

    /// After a listing of the run's artifacts.
    pub open spec fn after_listing(self, target: RunPurgeTargetView, listed: Listing) -> ProgressView {
        match self.stage {
            RunPurgeStage::ListArtifacts => match listed {
                Listing::Failed(message) => ProgressView::blocked(
                    target,
                    RunPurgeExecutionState::RevalidationFailed,
                    Some(message),
                ),
                Listing::Listed(current) => {
                    let found = drift(target.artifacts, current);
                    if found.changed.len() > 0 || found.unexpected.len() > 0 {
                        ProgressView::blocked(
                            target,
                            RunPurgeExecutionState::Changed,
                            Some(
                                "dependency drift before purge: changed artifacts "@ + id_list(found.changed)
                                    + ", unexpected artifacts "@ + id_list(found.unexpected),
                            ),
                        )
                    } else if target.delete_logs {
                        ProgressView { stage: RunPurgeStage::DeleteLogs, ..self }
                    } else {
                        ProgressView {
                            logs: outcome(
                                RunPurgeExecutionState::Blocked,
                                Some("plan did not authorize log deletion"@),
                            ),
                            ..self
                        }.onward(target)
                    }
                },
            },
            RunPurgeStage::ListResidual => match listed {
                Listing::Failed(message) => self.settled(
                    RunPurgeExecutionState::VerificationFailed,
                    Some("workflow run retained because dependency verification failed: "@ + message),
                ),
                Listing::Listed(residual) => if residual.len() == 0 {
                    ProgressView { stage: RunPurgeStage::RecheckRun, ..self }
                } else {
                    ProgressView {
                        artifacts: marked(self.artifacts, residual),
                        residual_artifacts: residual,
                        ..self
                    }.settled(
                        RunPurgeExecutionState::Blocked,
                        Some(
                            "workflow run retained because artifact dependencies remain after cleanup: "@ + joined(
                                written_ids(ids(residual)),
                                ","@,
                            ),
                        ),
                    )
                },
            },
            _ => self,
        }
    }

    /// After a lookup of the artifact that comes next.
    pub open spec fn after_artifact(self, target: RunPurgeTargetView, found: Answer<ArtifactView>) -> ProgressView {
        match found {
            Answer::Absent => self.with_artifact(target, RunPurgeExecutionState::AlreadyAbsent, None, None),
            Answer::Found(current) => if current != target.artifacts[self.artifacts.len() as int] {
                self.with_artifact(target, RunPurgeExecutionState::Changed, Some(current), None)
            } else {
                ProgressView { stage: RunPurgeStage::DeleteArtifact, ..self }
            },
            Answer::Failed(message) => self.with_artifact(
                target,
                RunPurgeExecutionState::RevalidationFailed,
                None,
                Some(message),
            ),
        }
    }

    /// After a deletion.
    pub open spec fn after_removal(self, target: RunPurgeTargetView, removed: Removal) -> ProgressView {
        let (state, error) = match removed {
            Removal::Deleted => (RunPurgeExecutionState::Deleted, None),
            Removal::Absent => (RunPurgeExecutionState::AlreadyAbsent, None),
            Removal::Failed(message) => (RunPurgeExecutionState::DeleteFailed, Some(message)),
        };
        match self.stage {
            RunPurgeStage::DeleteLogs => ProgressView { logs: outcome(state, error), ..self }.onward(target),
            RunPurgeStage::DeleteArtifact => self.with_artifact(target, state, None, error),
            RunPurgeStage::DeleteRun => if removed is Deleted {
                ProgressView { stage: RunPurgeStage::VerifyRun, ..self }
            } else {
                self.settled(state, error)
            },
            _ => self,
        }
    }

    /// What became of the target.
    pub open spec fn item(self, target: RunPurgeTargetView) -> RunPurgeExecutionItemView {
        RunPurgeExecutionItemView {
            planned_run: target.run,
            logs: self.logs,
            artifacts: self.artifacts,
            residual_artifacts: self.residual_artifacts,
            run: self.run,
        }
    }

    /// What holds at every stage: the artifacts are taken in the order of the plan, and the
    /// stages that touch the run are reached only when all else is gone.
    pub open spec fn sound(self, target: RunPurgeTargetView) -> bool {
        let waiting = self.stage == RunPurgeStage::LookUpRun || self.stage == RunPurgeStage::ListArtifacts
            || self.stage == RunPurgeStage::DeleteLogs;
        let at_artifacts = self.stage == RunPurgeStage::LookUpArtifact || self.stage
            == RunPurgeStage::DeleteArtifact;
        let at_run = self.stage == RunPurgeStage::ListResidual || self.stage == RunPurgeStage::RecheckRun
            || self.stage == RunPurgeStage::DeleteRun || self.stage == RunPurgeStage::VerifyRun;
        &&& forall|i: int|
            0 <= i < self.artifacts.len() && i < target.artifacts.len() ==> (#[trigger] self.artifacts[i]).planned
                == target.artifacts[i]
        &&& waiting ==> self.artifacts.len() == 0
        &&& self.stage == RunPurgeStage::DeleteLogs ==> target.delete_logs
        &&& at_artifacts ==> self.artifacts.len() < target.artifacts.len()
        &&& at_run ==> {
            &&& target.delete_logs
            &&& is_gone(self.logs.state)
            &&& self.artifacts.len() == target.artifacts.len()
            &&& all_gone(self.artifacts)
            &&& self.residual_artifacts.len() == 0
        }
        &&& is_gone(self.logs.state) && self.stage != RunPurgeStage::Done ==> target.delete_logs
        &&& self.stage != RunPurgeStage::Done ==> self.residual_artifacts.len() == 0
        &&& self.stage == RunPurgeStage::Done ==> self.artifacts.len() == target.artifacts.len()
        &&& self.stage == RunPurgeStage::Done && self.run.state == RunPurgeExecutionState::Deleted ==> is_gone(
            self.logs.state,
        ) && all_gone(self.artifacts) && self.residual_artifacts.len() == 0
    }
}

/// An answer of the provider, as a stage takes it.
#[verifier::ext_equal]
pub enum RunPurgeAnswer {
    Run(Answer<WorkflowRunView>),
    Artifacts(Listing),
    Artifact(Answer<ArtifactView>),
    Removed(Removal),
}

/// Whether an answer is one that the stage asked for.
pub open spec fn fits(stage: RunPurgeStage, answer: RunPurgeAnswer) -> bool {
    match answer {
        RunPurgeAnswer::Run(_) => asks_for_run(stage),
        RunPurgeAnswer::Artifacts(_) => asks_for_listing(stage),
        RunPurgeAnswer::Artifact(_) => stage == RunPurgeStage::LookUpArtifact,
        RunPurgeAnswer::Removed(_) => asks_for_removal(stage),
    }
}

pub open spec fn asks_for_run(stage: RunPurgeStage) -> bool {
    stage == RunPurgeStage::LookUpRun || stage == RunPurgeStage::RecheckRun || stage == RunPurgeStage::VerifyRun
}

pub open spec fn asks_for_listing(stage: RunPurgeStage) -> bool {
    stage == RunPurgeStage::ListArtifacts || stage == RunPurgeStage::ListResidual
}

pub open spec fn asks_for_removal(stage: RunPurgeStage) -> bool {
    stage == RunPurgeStage::DeleteLogs || stage == RunPurgeStage::DeleteArtifact || stage
        == RunPurgeStage::DeleteRun
}

/// The progress after an answer.
pub open spec fn after(progress: ProgressView, target: RunPurgeTargetView, answer: RunPurgeAnswer) -> ProgressView {
    match answer {
        RunPurgeAnswer::Run(found) => progress.after_run(target, found),
        RunPurgeAnswer::Artifacts(listed) => progress.after_listing(target, listed),
        RunPurgeAnswer::Artifact(found) => progress.after_artifact(target, found),
        RunPurgeAnswer::Removed(removed) => progress.after_removal(target, removed),
    }
}

proof fn lemma_onward(progress: ProgressView, target: RunPurgeTargetView)
    requires
        forall|i: int|
            0 <= i < progress.artifacts.len() ==> (#[trigger] progress.artifacts[i]).planned == target.artifacts[i],
        progress.artifacts.len() <= target.artifacts.len(),
        progress.residual_artifacts.len() == 0,
        is_gone(progress.logs.state) ==> target.delete_logs,
    ensures
        progress.onward(target).sound(target),
{
}

/// The execution of a target starts sound, and every answer keeps it so.
pub proof fn an_execution_stays_sound(progress: ProgressView, target: RunPurgeTargetView, answer: RunPurgeAnswer)
    requires
        progress.sound(target),
        fits(progress.stage, answer),
    ensures
        ProgressView::start().sound(target),
        after(progress, target, answer).sound(target),
{
    let next = after(progress, target, answer);
    match answer {
        RunPurgeAnswer::Artifact(found) => {
            if !(found is Found && found->Found_0 == target.artifacts[progress.artifacts.len() as int]) {
                let planned = target.artifacts[progress.artifacts.len() as int];
                match found {
                    Answer::Absent => {
                        lemma_with_artifact(progress, target, RunPurgeExecutionState::AlreadyAbsent, None, None);
                    },
                    Answer::Found(current) => {
                        lemma_with_artifact(progress, target, RunPurgeExecutionState::Changed, Some(current), None);
                    },
                    Answer::Failed(message) => {
                        lemma_with_artifact(
                            progress,
                            target,
                            RunPurgeExecutionState::RevalidationFailed,
                            None,
                            Some(message),
                        );
                    },
                }
            }
        },
        RunPurgeAnswer::Removed(removed) => {
            if progress.stage == RunPurgeStage::DeleteArtifact {
                match removed {
                    Removal::Deleted => {
                        lemma_with_artifact(progress, target, RunPurgeExecutionState::Deleted, None, None);
                    },
                    Removal::Absent => {
                        lemma_with_artifact(progress, target, RunPurgeExecutionState::AlreadyAbsent, None, None);
                    },
                    Removal::Failed(message) => {
                        lemma_with_artifact(
                            progress,
                            target,
                            RunPurgeExecutionState::DeleteFailed,
                            None,
                            Some(message),
                        );
                    },
                }
            }
        },
        _ => {},
    }
}

proof fn lemma_with_artifact(
    progress: ProgressView,
    target: RunPurgeTargetView,
    state: RunPurgeExecutionState,
    current: Option<ArtifactView>,
    error: Option<Seq<char>>,
)
    requires
        progress.sound(target),
        progress.stage == RunPurgeStage::LookUpArtifact || progress.stage == RunPurgeStage::DeleteArtifact,
    ensures
        progress.with_artifact(target, state, current, error).sound(target),
{
    let planned = target.artifacts[progress.artifacts.len() as int];
    let more = ProgressView {
        artifacts: progress.artifacts.push(artifact_outcome(planned, state, current, error)),
        ..progress
    };
    lemma_onward(more, target);
}

/// The run is deleted only when its logs and every planned artifact are gone, no artifact is
/// left, and the run itself is still the one that was planned.
pub proof fn the_run_goes_last(progress: ProgressView, target: RunPurgeTargetView, answer: RunPurgeAnswer)
    requires
        progress.sound(target),
        fits(progress.stage, answer),
        after(progress, target, answer).stage == RunPurgeStage::DeleteRun,
    ensures
        target.delete_logs,
        is_gone(progress.logs.state),
        progress.artifacts.len() == target.artifacts.len(),
        all_gone(progress.artifacts),
        progress.residual_artifacts.len() == 0,
        answer matches RunPurgeAnswer::Run(Answer::Found(current)) && current.purge_identity()
            == target.run.purge_identity(),
{
    if progress.stage == RunPurgeStage::DeleteRun {
        assert(answer is Removed);
    }
}

/// An artifact is deleted only right after the provider showed it as it was planned.
pub proof fn only_unchanged_artifacts_go(progress: ProgressView, target: RunPurgeTargetView, answer: RunPurgeAnswer)
    requires
        progress.sound(target),
        fits(progress.stage, answer),
        after(progress, target, answer).stage == RunPurgeStage::DeleteArtifact,
    ensures
        progress.stage == RunPurgeStage::LookUpArtifact,
        answer == RunPurgeAnswer::Artifact(
            Answer::Found(target.artifacts[progress.artifacts.len() as int]),
        ),
        after(progress, target, answer).artifacts == progress.artifacts,
{
}

/// Nothing is deleted before the provider showed the run as it was planned, and no artifact
/// of it that changed or that the plan does not know.
pub proof fn nothing_goes_before_the_second_look(
    progress: ProgressView,
    target: RunPurgeTargetView,
    answer: RunPurgeAnswer,
)
    requires
        fits(progress.stage, answer),
    ensures
        progress.stage == RunPurgeStage::LookUpRun ==> {
            let next = after(progress, target, answer).stage;
            &&& next == RunPurgeStage::ListArtifacts || next == RunPurgeStage::Done
            &&& next == RunPurgeStage::ListArtifacts ==> answer == RunPurgeAnswer::Run(Answer::Found(target.run))
        },
        progress.stage == RunPurgeStage::ListArtifacts && after(progress, target, answer).stage
            != RunPurgeStage::Done ==> (answer matches RunPurgeAnswer::Artifacts(Listing::Listed(current)) && drift(
            target.artifacts,
            current,
        ).changed.len() == 0 && drift(target.artifacts, current).unexpected.len() == 0),
{
}

/// Every answer brings the execution of a target nearer to its end: the number of answers that
/// can still come gets smaller.
pub open spec fn answers_left(progress: ProgressView, target: RunPurgeTargetView) -> int {
    let artifacts_left = 2 * (target.artifacts.len() - progress.artifacts.len());
    match progress.stage {
        RunPurgeStage::LookUpRun => artifacts_left + 7,
        RunPurgeStage::ListArtifacts => artifacts_left + 6,
        RunPurgeStage::DeleteLogs => artifacts_left + 5,
        RunPurgeStage::LookUpArtifact => artifacts_left + 4,
        RunPurgeStage::DeleteArtifact => artifacts_left + 3,
        RunPurgeStage::ListResidual => 4,
        RunPurgeStage::RecheckRun => 3,
        RunPurgeStage::DeleteRun => 2,
        RunPurgeStage::VerifyRun => 1,
        RunPurgeStage::Done => 0,
    }
}

/// The execution of a target ends.
pub proof fn an_execution_ends(progress: ProgressView, target: RunPurgeTargetView, answer: RunPurgeAnswer)
    requires
        progress.sound(target),
        fits(progress.stage, answer),
    ensures
        0 <= answers_left(after(progress, target, answer), target) < answers_left(progress, target),
{
}

/// The execution of one target.
pub struct RunPurgeProgress {
    stage: RunPurgeStage,
    logs: RunPurgeStepResult,
    artifacts: Vec<RunPurgeArtifactResult>,
    residual_artifacts: Vec<Artifact>,
    run: RunPurgeStepResult,
}

impl DeepView for RunPurgeProgress {
    type V = ProgressView;

    closed spec fn deep_view(&self) -> ProgressView {
        ProgressView {
            stage: self.stage,
            logs: self.logs.deep_view(),
            artifacts: self.artifacts.deep_view(),
            residual_artifacts: self.residual_artifacts.deep_view(),
            run: self.run.deep_view(),
        }
    }
}

fn step(state: RunPurgeExecutionState, error: Option<String>) -> (result: RunPurgeStepResult)
    ensures
        result.deep_view() == outcome(state, error.deep_view()),
{
    RunPurgeStepResult { state, error }
}

fn artifact_result(
    planned: &Artifact,
    state: RunPurgeExecutionState,
    current: Option<Artifact>,
    error: Option<String>,
) -> (result: RunPurgeArtifactResult)
    ensures
        result.deep_view() == artifact_outcome(planned.deep_view(), state, current.deep_view(), error.deep_view()),
{
    RunPurgeArtifactResult { planned: planned.copied(), state, current, error }
}

fn results_for_all(artifacts: &Vec<Artifact>, state: RunPurgeExecutionState, error: &Option<String>) -> (result: Vec<
    RunPurgeArtifactResult,
>)
    ensures
        result.deep_view() == same_for_all(artifacts.deep_view(), state, error.deep_view()),
{
    let ghost all = same_for_all(artifacts.deep_view(), state, error.deep_view());
    let mut result: Vec<RunPurgeArtifactResult> = nothing();
    let mut i: usize = 0;
    while i < artifacts.len()
        invariant
            i <= artifacts.len(),
            all == same_for_all(artifacts.deep_view(), state, error.deep_view()),
            result.deep_view() == all.take(i as int),
        decreases artifacts.len() - i,
    {
        add_to(&mut result, artifact_result(&artifacts[i], state, None, error.copied()));
        i = i + 1;
        assert(result.deep_view() =~= all.take(i as int));
    }
    assert(all.take(i as int) =~= all);
    result
}

fn write_ids(ids: &Vec<u64>, separator: &str) -> (result: String)
    ensures
        result@ == joined(written_ids(ids.deep_view()), separator@),
{
    let ghost all = written_ids(ids.deep_view());
    let mut texts: Vec<String> = nothing();
    let mut i: usize = 0;
    while i < ids.len()
        invariant
            i <= ids.len(),
            all == written_ids(ids.deep_view()),
            texts.deep_view() == all.take(i as int),
        decreases ids.len() - i,
    {
        add_to(&mut texts, number(ids[i]));
        i = i + 1;
        assert(texts.deep_view() =~= all.take(i as int));
    }
    assert(all.take(i as int) =~= all);
    join(&texts, separator)
}

fn write_id_list(ids: &Vec<u64>) -> (result: String)
    ensures
        result@ == id_list(ids.deep_view()),
{
    crate::text::join3("[", write_ids(ids, ", ").as_str(), "]")
}

fn residual_ids(artifacts: &Vec<Artifact>) -> (result: Vec<u64>)
    ensures
        result.deep_view() == ids(artifacts.deep_view()),
{
    let ghost all = ids(artifacts.deep_view());
    let mut result: Vec<u64> = nothing();
    let mut i: usize = 0;
    while i < artifacts.len()
        invariant
            i <= artifacts.len(),
            all == ids(artifacts.deep_view()),
            result.deep_view() == all.take(i as int),
        decreases artifacts.len() - i,
    {
        add_to(&mut result, artifacts[i].id);
        i = i + 1;
        assert(result.deep_view() =~= all.take(i as int));
    }
    assert(all.take(i as int) =~= all);
    result
}

fn find_first(artifacts: &Vec<Artifact>, id: u64) -> (result: Option<usize>)
    ensures
        match result {
            Some(i) => i < artifacts.len() && first_with_id(artifacts.deep_view(), id) == Some(
                artifacts.deep_view()[i as int],
            ),
            None => first_with_id(artifacts.deep_view(), id) is None,
        },
{
    let ghost all = artifacts.deep_view();
    let mut i: usize = 0;
    assert(all.skip(0) =~= all);
    while i < artifacts.len()
        invariant
            i <= artifacts.len(),
            all == artifacts.deep_view(),
            first_with_id(all, id) == first_with_id(all.skip(i as int), id),
        decreases artifacts.len() - i,
    {
        assert(all.skip(i as int)[0] == artifacts@[i as int].deep_view());
        assert(all.skip(i as int).drop_first() =~= all.skip(i + 1));
        if artifacts[i].id == id {
            return Some(i);
        }
        i = i + 1;
    }
    None
}

fn mark_residual(results: &Vec<RunPurgeArtifactResult>, residual: &Vec<Artifact>) -> (result: Vec<
    RunPurgeArtifactResult,
>)
    ensures
        result.deep_view() == marked(results.deep_view(), residual.deep_view()),
{
    let ghost before = results.deep_view();
    let ghost all = marked(before, residual.deep_view());
    let mut result: Vec<RunPurgeArtifactResult> = nothing();
    let mut i: usize = 0;
    while i < results.len()
        invariant
            i <= results.len(),
            before == results.deep_view(),
            all == marked(before, residual.deep_view()),
            result.deep_view() == all.take(i as int),
        decreases results.len() - i,
    {
        assert(before[i as int] == results@[i as int].deep_view());
        let marked_result = match find_first(residual, results[i].planned.id) {
            Some(at) => artifact_result(
                &results[i].planned,
                RunPurgeExecutionState::VerificationFailed,
                Some(residual[at].copied()),
                Some("artifact still exists after reported deletion".to_owned()),
            ),
            None => results[i].copied(),
        };
        assert(marked_result.deep_view() == all[i as int]);
        add_to(&mut result, marked_result);
        i = i + 1;
        assert(result.deep_view() =~= all.take(i as int));
    }
    assert(all.take(i as int) =~= all);
    result
}

fn gone(state: RunPurgeExecutionState) -> (result: bool)
    ensures
        result == is_gone(state),
{
    match state {
        RunPurgeExecutionState::Deleted | RunPurgeExecutionState::AlreadyAbsent => true,
        _ => false,
    }
}

fn artifacts_gone(artifacts: &Vec<RunPurgeArtifactResult>) -> (result: bool)
    ensures
        result == all_gone(artifacts.deep_view()),
{
    let ghost all = artifacts.deep_view();
    let mut i: usize = 0;
    while i < artifacts.len()
        invariant
            i <= artifacts.len(),
            all == artifacts.deep_view(),
            forall|k: int| 0 <= k < i ==> is_gone((#[trigger] all[k]).state),
        decreases artifacts.len() - i,
    {
        assert(all[i as int].state == artifacts@[i as int].state);
        if !gone(artifacts[i].state) {
            return false;
        }
        i = i + 1;
    }
    true
}

impl RunPurgeProgress {
    /// Starts the execution of a target.
    pub fn new() -> (result: Self)
        ensures
            result.deep_view() == ProgressView::start(),
    {
        RunPurgeProgress {
            stage: RunPurgeStage::LookUpRun,
            logs: step(RunPurgeExecutionState::Blocked, None),
            artifacts: nothing(),
            residual_artifacts: nothing(),
            run: step(RunPurgeExecutionState::Blocked, None),
        }
    }

    /// What is asked of the provider next.
    pub fn stage(&self) -> (result: RunPurgeStage)
        ensures
            result == self.deep_view().stage,
    {
        self.stage
    }

    /// The place of the artifact that comes next.
    pub fn artifact_index(&self) -> (result: usize)
        ensures
            result == self.deep_view().artifacts.len(),
    {
        self.artifacts.len()
    }

    fn already_absent(target: &RunPurgeTarget) -> (result: Self)
        ensures
            result.deep_view() == ProgressView::found_absent(target.deep_view()),
    {
        RunPurgeProgress {
            stage: RunPurgeStage::Done,
            logs: step(RunPurgeExecutionState::AlreadyAbsent, None),
            artifacts: results_for_all(target.artifacts(), RunPurgeExecutionState::AlreadyAbsent, &None),
            residual_artifacts: nothing(),
            run: step(RunPurgeExecutionState::AlreadyAbsent, None),
        }
    }

    fn blocked(target: &RunPurgeTarget, state: RunPurgeExecutionState, error: Option<String>) -> (result: Self)
        ensures
            result.deep_view() == ProgressView::blocked(target.deep_view(), state, error.deep_view()),
    {
        let reason = "dependency cleanup not started".to_owned();
        RunPurgeProgress {
            stage: RunPurgeStage::Done,
            logs: step(RunPurgeExecutionState::Blocked, Some(reason.copied())),
            artifacts: results_for_all(target.artifacts(), RunPurgeExecutionState::Blocked, &Some(reason)),
            residual_artifacts: nothing(),
            run: step(state, error),
        }
    }

    fn settle(&mut self, state: RunPurgeExecutionState, error: Option<String>)
        ensures
            final(self).deep_view() == old(self).deep_view().settled(state, error.deep_view()),
    {
        self.run = step(state, error);
        self.stage = RunPurgeStage::Done;
    }

    fn go_onward(&mut self, target: &RunPurgeTarget)
        ensures
            final(self).deep_view() == old(self).deep_view().onward(target.deep_view()),
    {
        if self.artifacts.len() < target.artifacts().len() {
            self.stage = RunPurgeStage::LookUpArtifact;
        } else if gone(self.logs.state) && artifacts_gone(&self.artifacts) {
            self.stage = RunPurgeStage::ListResidual;
        } else {
            self.settle(
                RunPurgeExecutionState::Blocked,
                Some("workflow run retained because dependency cleanup was incomplete".to_owned()),
            );
        }
    }

    fn add_artifact(
        &mut self,
        target: &RunPurgeTarget,
        state: RunPurgeExecutionState,
        current: Option<Artifact>,
        error: Option<String>,
    )
        requires
            old(self).deep_view().artifacts.len() < target.deep_view().artifacts.len(),
        ensures
            final(self).deep_view() == old(self).deep_view().with_artifact(
                target.deep_view(),
                state,
                current.deep_view(),
                error.deep_view(),
            ),
    {
        let planned = &target.artifacts()[self.artifacts.len()];
        assert(planned.deep_view() == target.deep_view().artifacts[self.deep_view().artifacts.len() as int]);
        let result = artifact_result(planned, state, current, error);
        add_to(&mut self.artifacts, result);
        self.go_onward(target);
    }

    /// Takes what the provider says of the run.
    pub fn run_answered(&mut self, target: &RunPurgeTarget, lookup: Result<Option<WorkflowRun>, ProviderError>)
        requires
            asks_for_run(old(self).deep_view().stage),
        ensures
            final(self).deep_view() == old(self).deep_view().after_run(target.deep_view(), answer(lookup)),
    {
        let planned = target.run();
        match self.stage {
            RunPurgeStage::LookUpRun => match lookup {
                Ok(None) | Err(ProviderError::NotFound(_)) => {
                    *self = RunPurgeProgress::already_absent(target);
                },
                Ok(Some(current)) => {
                    if !current.same(planned) {
                        *self = RunPurgeProgress::blocked(target, RunPurgeExecutionState::Changed, None);
                    } else {
                        self.stage = RunPurgeStage::ListArtifacts;
                    }
                },
                Err(error) => {
                    *self =
                    RunPurgeProgress::blocked(
                        target,
                        RunPurgeExecutionState::RevalidationFailed,
                        Some(error.message()),
                    );
                },
            },
            RunPurgeStage::RecheckRun => match lookup {
                Ok(None) | Err(ProviderError::NotFound(_)) => {
                    self.settle(RunPurgeExecutionState::AlreadyAbsent, None);
                },
                Ok(Some(current)) => {
                    if !current.has_same_purge_identity(planned) {
                        self.settle(
                            RunPurgeExecutionState::Changed,
                            Some("workflow run identity changed after dependency cleanup".to_owned()),
                        );
                    } else {
                        self.stage = RunPurgeStage::DeleteRun;
                    }
                },
                Err(error) => {
                    self.settle(RunPurgeExecutionState::RevalidationFailed, Some(error.message()));
                },
            },
            _ => match lookup {
                Ok(None) | Err(ProviderError::NotFound(_)) => {
                    self.settle(RunPurgeExecutionState::Deleted, None);
                },
                Ok(Some(_)) => {
                    self.settle(
                        RunPurgeExecutionState::VerificationFailed,
                        Some(
                            "workflow run still exists after provider reported successful deletion".to_owned(),
                        ),
                    );
                },
                Err(error) => {
                    self.settle(
                        RunPurgeExecutionState::VerificationFailed,
                        Some(
                            join2(
                                "provider reported successful workflow-run deletion, but post-delete verification failed: ",
                                error.message().as_str(),
                            ),
                        ),
                    );
                },
            },
        }
    }

    /// Takes the run's artifacts.
    pub fn artifacts_listed(&mut self, target: &RunPurgeTarget, result: Result<Vec<Artifact>, ProviderError>)
        requires
            asks_for_listing(old(self).deep_view().stage),
        ensures
            final(self).deep_view() == old(self).deep_view().after_listing(target.deep_view(), listing(result)),
    {
        match self.stage {
            RunPurgeStage::ListArtifacts => match result {
                Err(error) => {
                    *self =
                    RunPurgeProgress::blocked(
                        target,
                        RunPurgeExecutionState::RevalidationFailed,
                        Some(error.message()),
                    );
                },
                Ok(current) => {
                    let found = artifact_drift(target.artifacts(), &current);
                    if found.changed.len() > 0 || found.unexpected.len() > 0 {
                        let reason = join4(
                            "dependency drift before purge: changed artifacts ",
                            write_id_list(&found.changed).as_str(),
                            ", unexpected artifacts ",
                            write_id_list(&found.unexpected).as_str(),
                        );
                        *self =
                        RunPurgeProgress::blocked(target, RunPurgeExecutionState::Changed, Some(reason));
                    } else if target.delete_logs() {
                        self.stage = RunPurgeStage::DeleteLogs;
                    } else {
                        self.logs =
                        step(
                            RunPurgeExecutionState::Blocked,
                            Some("plan did not authorize log deletion".to_owned()),
                        );
                        self.go_onward(target);
                    }
                },
            },
            _ => match result {
                Err(error) => {
                    self.settle(
                        RunPurgeExecutionState::VerificationFailed,
                        Some(
                            join2(
                                "workflow run retained because dependency verification failed: ",
                                error.message().as_str(),
                            ),
                        ),
                    );
                },
                Ok(residual) => {
                    if residual.len() == 0 {
                        self.stage = RunPurgeStage::RecheckRun;
                    } else {
                        let left = residual_ids(&residual);
                        let reason = join2(
                            "workflow run retained because artifact dependencies remain after cleanup: ",
                            write_ids(&left, ",").as_str(),
                        );
                        self.artifacts = mark_residual(&self.artifacts, &residual);
                        self.residual_artifacts = residual;
                        self.settle(RunPurgeExecutionState::Blocked, Some(reason));
                    }
                },
            },
        }
    }

    /// Takes what the provider says of the artifact that comes next.
    pub fn artifact_answered(&mut self, target: &RunPurgeTarget, lookup: Result<Option<Artifact>, ProviderError>)
        requires
            old(self).deep_view().stage == RunPurgeStage::LookUpArtifact,
            old(self).deep_view().artifacts.len() < target.deep_view().artifacts.len(),
        ensures
            final(self).deep_view() == old(self).deep_view().after_artifact(target.deep_view(), answer(lookup)),
    {
        match lookup {
            Ok(None) | Err(ProviderError::NotFound(_)) => {
                self.add_artifact(target, RunPurgeExecutionState::AlreadyAbsent, None, None);
            },
            Ok(Some(current)) => {
                let planned = &target.artifacts()[self.artifacts.len()];
                assert(planned.deep_view() == target.deep_view().artifacts[self.deep_view().artifacts.len() as int]);
                if !current.same(planned) {
                    self.add_artifact(target, RunPurgeExecutionState::Changed, Some(current), None);
                } else {
                    self.stage = RunPurgeStage::DeleteArtifact;
                }
            },
            Err(error) => {
                self.add_artifact(
                    target,
                    RunPurgeExecutionState::RevalidationFailed,
                    None,
                    Some(error.message()),
                );
            },
        }
    }

    /// Takes what the provider says of the deletion that it was asked for.
    pub fn removed(&mut self, target: &RunPurgeTarget, result: Result<DeleteOutcome, ProviderError>)
        requires
            asks_for_removal(old(self).deep_view().stage),
            old(self).deep_view().stage == RunPurgeStage::DeleteArtifact ==> old(self).deep_view().artifacts.len()
                < target.deep_view().artifacts.len(),
        ensures
            final(self).deep_view() == old(self).deep_view().after_removal(target.deep_view(), removal(result)),
    {
        let (state, error): (RunPurgeExecutionState, Option<String>) = match result {
            Ok(DeleteOutcome::Deleted) => (RunPurgeExecutionState::Deleted, None),
            Ok(DeleteOutcome::AlreadyAbsent) => (RunPurgeExecutionState::AlreadyAbsent, None),
            Err(ProviderError::NotFound(_)) => (RunPurgeExecutionState::AlreadyAbsent, None),
            Err(error) => (RunPurgeExecutionState::DeleteFailed, Some(error.message())),
        };
        match self.stage {
            RunPurgeStage::DeleteLogs => {
                self.logs = step(state, error);
                self.go_onward(target);
            },
            RunPurgeStage::DeleteArtifact => {
                self.add_artifact(target, state, None, error);
            },
            _ => match state {
                RunPurgeExecutionState::Deleted => {
                    self.stage = RunPurgeStage::VerifyRun;
                },
                _ => {
                    self.settle(state, error);
                },
            },
        }
    }

    /// What became of the target.
    pub fn item(self, target: &RunPurgeTarget) -> (result: RunPurgeExecutionItem)
        ensures
            result.deep_view() == self.deep_view().item(target.deep_view()),
    {
        RunPurgeExecutionItem {
            planned_run: target.run().copied(),
            logs: self.logs,
            artifacts: self.artifacts,
            residual_artifacts: self.residual_artifacts,
            run: self.run,
        }
    }
}

/// What is asked of the provider next.
#[derive(Clone, Copy, Debug, PartialEq, Eq, Structural)]
pub enum RunPurgeStep {
    Account,
    Target(RunPurgeStage),
    Finished,
}

/// The execution of a plan, target by target: it holds the permission that it was started with,
/// and asks for the account first.
pub struct RunPurgeExecutionService<'a> {
    plan: &'a RunPurgePlan,
    authorization: ExecutionAuthorization,
    account: Option<Account>,
    items: Vec<RunPurgeExecutionItem>,
    progress: RunPurgeProgress,
}

/// The contents of [`RunPurgeExecutionService`].
#[verifier::ext_equal]
pub struct RunPurgeExecutionView {
    pub plan: RunPurgePlanView,
    pub authorization: ExecutionAuthorizationKind,
    pub account: Option<AccountView>,
    pub items: Seq<RunPurgeExecutionItemView>,
    pub progress: ProgressView,
}

impl<'a> DeepView for RunPurgeExecutionService<'a> {
    type V = RunPurgeExecutionView;

    closed spec fn deep_view(&self) -> RunPurgeExecutionView {
        RunPurgeExecutionView {
            plan: self.plan.deep_view(),
            authorization: self.authorization.granted(),
            account: self.account.deep_view(),
            items: self.items.deep_view(),
            progress: self.progress.deep_view(),
        }
    }
}

impl RunPurgeExecutionView {
    /// The execution of a plan before anything was asked.
    pub open spec fn started(
        plan: RunPurgePlanView,
        authorization: ExecutionAuthorizationKind,
    ) -> RunPurgeExecutionView {
        RunPurgeExecutionView {
            plan,
            authorization,
            account: None,
            items: Seq::empty(),
            progress: ProgressView::start(),
        }
    }

    /// The target that is carried out now.
    pub open spec fn current(self) -> RunPurgeTargetView {
        self.plan.targets[self.items.len() as int]
    }

    /// Whether the account is known, and a target is left.
    pub open spec fn under_way(self) -> bool {
        self.account is Some && self.items.len() < self.plan.targets.len()
    }

    pub open spec fn step(self) -> RunPurgeStep {
        if self.account is None {
            RunPurgeStep::Account
        } else if self.items.len() >= self.plan.targets.len() {
            RunPurgeStep::Finished
        } else {
            RunPurgeStep::Target(self.progress.stage)
        }
    }

    /// The execution after an answer: a target that is done makes room for the next.
    pub open spec fn after(self, answer: RunPurgeAnswer) -> RunPurgeExecutionView {
        let progress = after(self.progress, self.current(), answer);
        if progress.stage == RunPurgeStage::Done {
            RunPurgeExecutionView {
                items: self.items.push(progress.item(self.current())),
                progress: ProgressView::start(),
                ..self
            }
        } else {
            RunPurgeExecutionView { progress, ..self }
        }
    }

    /// What holds throughout: the account is the planned one, each item is what became of the
    /// target in its place, and the current target's execution is sound.
    pub open spec fn sound(self) -> bool {
        &&& self.account is Some ==> self.account == Some(self.plan.account)
        &&& self.account is None ==> self.items.len() == 0 && self.progress == ProgressView::start()
        &&& self.items.len() <= self.plan.targets.len()
        &&& forall|i: int|
            0 <= i < self.items.len() ==> (#[trigger] self.items[i]).planned_run == self.plan.targets[i].run
        &&& forall|i: int|
            0 <= i < self.items.len() && (#[trigger] self.items[i]).run.state == RunPurgeExecutionState::Deleted
                ==> is_gone(self.items[i].logs.state) && all_gone(self.items[i].artifacts)
                && self.items[i].residual_artifacts.len() == 0
        &&& self.progress.stage != RunPurgeStage::Done
        &&& self.items.len() < self.plan.targets.len() ==> self.progress.sound(self.current())
    }
}

/// Whatever the provider answers, the execution of a plan stays sound: every item is about
/// the target in its place, and a run is reported deleted only with all that belonged to it. The
/// plan, the permission and the account stay what they were.
pub proof fn an_execution_of_a_plan_stays_sound(execution: RunPurgeExecutionView, answer: RunPurgeAnswer)
    requires
        execution.sound(),
        execution.under_way(),
        fits(execution.progress.stage, answer),
    ensures
        execution.after(answer).sound(),
        execution.after(answer).plan == execution.plan,
        execution.after(answer).authorization == execution.authorization,
        execution.after(answer).account == execution.account,
{
    let target = execution.current();
    let progress = after(execution.progress, target, answer);
    an_execution_stays_sound(execution.progress, target, answer);
    let next = execution.after(answer);
    if progress.stage == RunPurgeStage::Done {
        assert forall|i: int| 0 <= i < next.items.len() implies (#[trigger] next.items[i]).planned_run
            == next.plan.targets[i].run by {
            if i < execution.items.len() {
                assert(next.items[i] == execution.items[i]);
            }
        }
        assert forall|i: int|
            0 <= i < next.items.len() && (#[trigger] next.items[i]).run.state == RunPurgeExecutionState::Deleted implies is_gone(
        next.items[i].logs.state) && all_gone(next.items[i].artifacts) && next.items[i].residual_artifacts.len()
            == 0 by {
            if i < execution.items.len() {
                assert(next.items[i] == execution.items[i]);
            }
        }
    }
}

/// Nothing is asked about a target before the account is known to be the planned one, and an
/// execution ends with one item for each target.
pub proof fn an_execution_is_of_the_planned_account(execution: RunPurgeExecutionView)
    requires
        execution.sound(),
    ensures
        execution.step() != RunPurgeStep::Account ==> execution.account == Some(execution.plan.account),
        execution.step() == RunPurgeStep::Finished ==> execution.items.len() == execution.plan.targets.len(),
{
}

impl<'a> RunPurgeExecutionService<'a> {
    /// Starts the execution of a plan that passes its check, and that a review of it allows, by
    /// the permission that was given.
    pub fn new(
        plan: &'a RunPurgePlan,
        reviewed: &RunPurgeRevalidationReport,
        authorization: ExecutionAuthorization,
    ) -> (result: Result<Self, RunPurgeError>)
        ensures
            match integrity_problem(plan.deep_view()) {
                Some(problem) => result is Err && result->Err_0.deep_view() == problem,
                None => match review_problem(plan.deep_view(), reviewed.deep_view()) {
                    Some(problem) => result is Err && result->Err_0.deep_view() == problem,
                    None => result is Ok && result->Ok_0.deep_view() == RunPurgeExecutionView::started(
                        plan.deep_view(),
                        authorization.granted(),
                    ),
                },
            },
            result is Ok ==> result->Ok_0.deep_view().sound(),
    {
        match plan.validate_integrity() {
            Ok(()) => {},
            Err(error) => {
                return Err(error);
            },
        }
        match validate_review(plan, reviewed) {
            Ok(()) => {},
            Err(error) => {
                return Err(error);
            },
        }
        Ok(
            RunPurgeExecutionService {
                plan,
                authorization,
                account: None,
                items: nothing(),
                progress: RunPurgeProgress::new(),
            },
        )
    }

    /// What is asked of the provider next.
    pub fn next(&self) -> (result: RunPurgeStep)
        ensures
            result == self.deep_view().step(),
    {
        if self.account.is_none() {
            RunPurgeStep::Account
        } else if self.items.len() >= self.plan.targets().len() {
            RunPurgeStep::Finished
        } else {
            RunPurgeStep::Target(self.progress.stage())
        }
    }

    /// Takes the account that the provider answers with; one that is not the planned one is
    /// refused.
    pub fn account_answered(&mut self, account: Result<Account, ProviderError>) -> (result: Result<(), RunPurgeError>)
        requires
            old(self).deep_view().step() == RunPurgeStep::Account,
        ensures
            reports(result, account_problem(old(self).deep_view().plan.account, account)),
            final(self).deep_view() == if result is Ok {
                RunPurgeExecutionView { account: Some(old(self).deep_view().plan.account), ..old(self).deep_view() }
            } else {
                old(self).deep_view()
            },
            old(self).deep_view().sound() ==> final(self).deep_view().sound(),
    {
        match planned_account(self.plan.account(), account) {
            Ok(current) => {
                self.account = Some(current);
                Ok(())
            },
            Err(error) => Err(error),
        }
    }

    /// The target that is carried out now.
    pub fn current(&self) -> (result: &RunPurgeTarget)
        requires
            self.deep_view().under_way(),
        ensures
            result.deep_view() == self.deep_view().current(),
    {
        &self.plan.targets()[self.items.len()]
    }

    /// The artifact that comes next.
    pub fn current_artifact(&self) -> (result: &Artifact)
        requires
            self.deep_view().under_way(),
            self.deep_view().progress.artifacts.len() < self.deep_view().current().artifacts.len(),
        ensures
            result.deep_view() == self.deep_view().current().artifacts[self.deep_view().progress.artifacts.len() as int],
    {
        let plan = self.plan;
        let target = &plan.targets()[self.items.len()];
        assert(target.deep_view() == self.deep_view().current());
        &target.artifacts()[self.progress.artifact_index()]
    }

    fn conclude(&mut self, progress: RunPurgeProgress)
        requires
            old(self).deep_view().under_way(),
        ensures
            final(self).deep_view() == if progress.deep_view().stage == RunPurgeStage::Done {
                RunPurgeExecutionView {
                    items: old(self).deep_view().items.push(
                        progress.deep_view().item(old(self).deep_view().current()),
                    ),
                    progress: ProgressView::start(),
                    ..old(self).deep_view()
                }
            } else {
                RunPurgeExecutionView { progress: progress.deep_view(), ..old(self).deep_view() }
            },
    {
        let done = match progress.stage() {
            RunPurgeStage::Done => true,
            _ => false,
        };
        if done {
            let plan = self.plan;
            let target = &plan.targets()[self.items.len()];
            assert(target.deep_view() == self.deep_view().current());
            let item = progress.item(target);
            add_to(&mut self.items, item);
            self.progress = RunPurgeProgress::new();
        } else {
            self.progress = progress;
        }
    }

    fn take_progress(&mut self) -> (result: RunPurgeProgress)
        ensures
            result.deep_view() == old(self).deep_view().progress,
            final(self).deep_view() == (RunPurgeExecutionView {
                progress: ProgressView::start(),
                ..old(self).deep_view()
            }),
    {
        let mut progress = RunPurgeProgress::new();
        std::mem::swap(&mut progress, &mut self.progress);
        progress
    }

    /// Takes what the provider says of the current run.
    pub fn run_answered(&mut self, lookup: Result<Option<WorkflowRun>, ProviderError>)
        requires
            old(self).deep_view().under_way(),
            asks_for_run(old(self).deep_view().progress.stage),
        ensures
            final(self).deep_view() == old(self).deep_view().after(RunPurgeAnswer::Run(answer(lookup))),
            old(self).deep_view().sound() ==> final(self).deep_view().sound(),
    {
        proof {
            if self.deep_view().sound() {
                an_execution_of_a_plan_stays_sound(self.deep_view(), RunPurgeAnswer::Run(answer(lookup)));
            }
        }
        let mut progress = self.take_progress();
        let plan = self.plan;
        let target = &plan.targets()[self.items.len()];
        assert(target.deep_view() == old(self).deep_view().current());
        progress.run_answered(target, lookup);
        self.conclude(progress);
    }

    /// Takes the artifacts of the current run.
    pub fn artifacts_listed(&mut self, result: Result<Vec<Artifact>, ProviderError>)
        requires
            old(self).deep_view().under_way(),
            asks_for_listing(old(self).deep_view().progress.stage),
        ensures
            final(self).deep_view() == old(self).deep_view().after(RunPurgeAnswer::Artifacts(listing(result))),
            old(self).deep_view().sound() ==> final(self).deep_view().sound(),
    {
        proof {
            if self.deep_view().sound() {
                an_execution_of_a_plan_stays_sound(self.deep_view(), RunPurgeAnswer::Artifacts(listing(result)));
            }
        }
        let mut progress = self.take_progress();
        let plan = self.plan;
        let target = &plan.targets()[self.items.len()];
        assert(target.deep_view() == old(self).deep_view().current());
        progress.artifacts_listed(target, result);
        self.conclude(progress);
    }

    /// Takes what the provider says of the artifact that comes next.
    pub fn artifact_answered(&mut self, lookup: Result<Option<Artifact>, ProviderError>)
        requires
            old(self).deep_view().sound(),
            old(self).deep_view().under_way(),
            old(self).deep_view().progress.stage == RunPurgeStage::LookUpArtifact,
        ensures
            final(self).deep_view() == old(self).deep_view().after(RunPurgeAnswer::Artifact(answer(lookup))),
            old(self).deep_view().sound() ==> final(self).deep_view().sound(),
    {
        proof {
            if self.deep_view().sound() {
                an_execution_of_a_plan_stays_sound(self.deep_view(), RunPurgeAnswer::Artifact(answer(lookup)));
            }
        }
        let mut progress = self.take_progress();
        let plan = self.plan;
        let target = &plan.targets()[self.items.len()];
        assert(target.deep_view() == old(self).deep_view().current());
        progress.artifact_answered(target, lookup);
        self.conclude(progress);
    }

    /// Takes what the provider says of the deletion that it was asked for.
    pub fn removed(&mut self, result: Result<DeleteOutcome, ProviderError>)
        requires
            old(self).deep_view().sound(),
            old(self).deep_view().under_way(),
            asks_for_removal(old(self).deep_view().progress.stage),
        ensures
            final(self).deep_view() == old(self).deep_view().after(RunPurgeAnswer::Removed(removal(result))),
            old(self).deep_view().sound() ==> final(self).deep_view().sound(),
    {
        proof {
            if self.deep_view().sound() {
                an_execution_of_a_plan_stays_sound(self.deep_view(), RunPurgeAnswer::Removed(removal(result)));
            }
        }
        let mut progress = self.take_progress();
        let plan = self.plan;
        let target = &plan.targets()[self.items.len()];
        assert(target.deep_view() == old(self).deep_view().current());
        progress.removed(target, result);
        self.conclude(progress);
    }

    /// The report of what became of the plan, once every target was carried out.
    pub fn report(self, telemetry: ProviderTelemetry, started_at: Timestamp, completed_at: Timestamp) -> (result:
        RunPurgeExecutionReport)
        requires
            self.deep_view().step() == RunPurgeStep::Finished,
        ensures
            result.deep_view() == (RunPurgeExecutionReportView {
                started_at,
                completed_at,
                account: self.deep_view().account->0,
                plan_schema_version: self.deep_view().plan.schema_version,
                plan_created_at: self.deep_view().plan.created_at,
                plan_scanned_at: self.deep_view().plan.scanned_at,
                scope: self.deep_view().plan.scope,
                selection: self.deep_view().plan.selection,
                authorization: self.deep_view().authorization,
                telemetry: telemetry.deep_view(),
                items: self.deep_view().items,
            }),
            self.deep_view().sound() ==> result.deep_view().items.len() == self.deep_view().plan.targets.len(),
    {
        RunPurgeExecutionReport {
            started_at,
            completed_at,
            account: self.account.unwrap(),
            plan_schema_version: self.plan.schema_version(),
            plan_created_at: self.plan.created_at(),
            plan_scanned_at: self.plan.scanned_at(),
            scope: self.plan.scope().copied(),
            selection: self.plan.selection().copied(),
            authorization: self.authorization.kind(),
            telemetry,
            items: self.items,
        }
    }
}

/// The runs that were deleted.
pub open spec fn deleted_runs(items: Seq<RunPurgeExecutionItemView>) -> nat
    decreases items.len(),
{
    if items.len() == 0 {
        0
    } else {
        deleted_runs(items.drop_last()) + if items.last().run.state == RunPurgeExecutionState::Deleted {
            1nat
        } else {
            0nat
        }
    }
}

/// The storage that the deleted ones among `artifacts` took up.
pub open spec fn deleted_artifact_bytes(artifacts: Seq<RunPurgeArtifactResultView>) -> nat
    decreases artifacts.len(),
{
    if artifacts.len() == 0 {
        0
    } else {
        deleted_artifact_bytes(artifacts.drop_last()) + if artifacts.last().state
            == RunPurgeExecutionState::Deleted {
            artifacts.last().planned.size_in_bytes as nat
        } else {
            0nat
        }
    }
}

/// The storage that the deleted artifacts of all items took up.
pub open spec fn reclaimed(items: Seq<RunPurgeExecutionItemView>) -> nat
    decreases items.len(),
{
    if items.len() == 0 {
        0
    } else {
        reclaimed(items.drop_last()) + deleted_artifact_bytes(items.last().artifacts)
    }
}

/// Whether everything that was to be deleted is gone.
pub open spec fn complete(item: RunPurgeExecutionItemView) -> bool {
    is_gone(item.logs.state) && all_gone(item.artifacts) && is_gone(item.run.state)
}

impl RunPurgeExecutionReport {
    pub fn run_count(&self) -> (result: usize)
        ensures
            result == self.deep_view().items.len(),
    {
        self.items.len()
    }

    /// How many runs were deleted.
    pub fn deleted_run_count(&self) -> (result: usize)
        ensures
            result == deleted_runs(self.deep_view().items),
    {
        let ghost all = self.items.deep_view();
        let mut count: usize = 0;
        let mut i: usize = 0;
        assert(all.take(0) =~= Seq::empty());
        while i < self.items.len()
            invariant
                i <= self.items.len(),
                all == self.items.deep_view(),
                count <= i,
                count == deleted_runs(all.take(i as int)),
            decreases self.items.len() - i,
        {
            assert(all.take(i + 1).drop_last() =~= all.take(i as int));
            assert(all.take(i + 1).last() == self.items@[i as int].deep_view());
            if self.items[i].run.state == RunPurgeExecutionState::Deleted {
                count = count + 1;
            }
            i = i + 1;
        }
        assert(all.take(i as int) =~= all);
        count
    }

    /// The storage that the deleted artifacts took up, or the largest `u64` where it was more.
    pub fn reclaimed_artifact_bytes(&self) -> (result: u64)
        ensures
            result == capped(reclaimed(self.deep_view().items)),
    {
        let ghost all = self.items.deep_view();
        let mut bytes: u64 = 0;
        let mut i: usize = 0;
        assert(all.take(0) =~= Seq::empty());
        while i < self.items.len()
            invariant
                i <= self.items.len(),
                all == self.items.deep_view(),
                bytes == capped(reclaimed(all.take(i as int))),
            decreases self.items.len() - i,
        {
            let artifacts = &self.items[i].artifacts;
            let ghost parts = artifacts.deep_view();
            let ghost before = reclaimed(all.take(i as int));
            let mut k: usize = 0;
            assert(parts.take(0) =~= Seq::empty());
            while k < artifacts.len()
                invariant
                    k <= artifacts.len(),
                    parts == artifacts.deep_view(),
                    bytes == capped(before + deleted_artifact_bytes(parts.take(k as int))),
                decreases artifacts.len() - k,
            {
                assert(parts.take(k + 1).drop_last() =~= parts.take(k as int));
                assert(parts.take(k + 1).last() == artifacts@[k as int].deep_view());
                if artifacts[k].state == RunPurgeExecutionState::Deleted {
                    bytes = bytes.saturating_add(artifacts[k].planned.size_in_bytes);
                }
                k = k + 1;
            }
            proof {
                assert(parts.take(k as int) =~= parts);
                assert(all.take(i + 1).drop_last() =~= all.take(i as int));
                assert(all.take(i + 1).last() == self.items@[i as int].deep_view());
            }
            i = i + 1;
        }
        assert(all.take(i as int) =~= all);
        bytes
    }

    /// Whether everything that was to be deleted is gone.
    pub fn is_complete_success(&self) -> (result: bool)
        ensures
            result == forall|i: int|
                0 <= i < self.deep_view().items.len() ==> complete(#[trigger] self.deep_view().items[i]),
    {
        let ghost all = self.items.deep_view();
        let mut i: usize = 0;
        while i < self.items.len()
            invariant
                i <= self.items.len(),
                all == self.items.deep_view(),
                forall|k: int| 0 <= k < i ==> complete(#[trigger] all[k]),
            decreases self.items.len() - i,
        {
            assert(all[i as int] == self.items@[i as int].deep_view());
            if !(gone(self.items[i].logs.state) && artifacts_gone(&self.items[i].artifacts) && gone(
                self.items[i].run.state,
            )) {
                assert(!complete(self.deep_view().items[i as int]));
                return false;
            }
            i = i + 1;
        }
        true
    }
}

/// Whether a thing was deleted or was gone already.
pub open spec fn went(state: RunPurgeExecutionState) -> bool {
    match state {
        RunPurgeExecutionState::Deleted => true,
        RunPurgeExecutionState::AlreadyAbsent => true,
        _ => false,
    }
}

/// The execution of a target starts with a look at the run. Where the provider does not show it, all
/// of it counts as gone. Where it shows it otherwise than planned, or cannot say, nothing is touched.
pub proof fn the_first_look_is_at_the_run(
    progress: ProgressView,
    target: RunPurgeTargetView,
    found: Answer<WorkflowRunView>,
)
    requires
        progress.stage == RunPurgeStage::LookUpRun,
    ensures
        ProgressView::start().stage == RunPurgeStage::LookUpRun,
        ({
            let next = progress.after_run(target, found);
            &&& next.stage == RunPurgeStage::ListArtifacts <==> found == Answer::Found(target.run)
            &&& next.stage == RunPurgeStage::ListArtifacts || next.stage == RunPurgeStage::Done
            &&& found is Absent ==> next.logs.state == RunPurgeExecutionState::AlreadyAbsent && next.run.state
                == RunPurgeExecutionState::AlreadyAbsent
            &&& found is Found && found->Found_0 != target.run ==> next.run.state == RunPurgeExecutionState::Changed
                && next.logs.state == RunPurgeExecutionState::Blocked
            &&& found is Failed ==> next.run.state == RunPurgeExecutionState::RevalidationFailed && next.run.error
                == Some(found->Failed_0) && next.logs.state == RunPurgeExecutionState::Blocked
            &&& next.stage == RunPurgeStage::Done ==> next.artifacts.len() == target.artifacts.len() && (forall|i: int|
                0 <= i < target.artifacts.len() ==> (#[trigger] next.artifacts[i]).planned == target.artifacts[i]
                    && next.artifacts[i].state == if found is Absent {
                    RunPurgeExecutionState::AlreadyAbsent
                } else {
                    RunPurgeExecutionState::Blocked
                })
        }),
{
}

/// The second look is at the artifacts. The execution goes on only where each artifact that the
/// run has was planned exactly as it is; otherwise nothing is touched.
pub proof fn the_second_look_is_at_the_artifacts(
    progress: ProgressView,
    target: RunPurgeTargetView,
    current: Seq<ArtifactView>,
    message: Seq<char>,
)
    requires
        progress.stage == RunPurgeStage::ListArtifacts,
        progress.artifacts.len() == 0,
        one_of_each(target.artifacts),
        one_of_each(current),
    ensures
        ({
            let next = progress.after_listing(target, Listing::Listed(current));
            let planned = forall|j: int| 0 <= j < current.len() ==> target.artifacts.contains(#[trigger] current[j]);
            &&& planned && target.delete_logs ==> next.stage == RunPurgeStage::DeleteLogs
            &&& !planned ==> next.stage == RunPurgeStage::Done && next.run.state == RunPurgeExecutionState::Changed
                && next.logs.state == RunPurgeExecutionState::Blocked && (forall|i: int|
                0 <= i < target.artifacts.len() ==> (#[trigger] next.artifacts[i]).state
                    == RunPurgeExecutionState::Blocked)
            &&& planned && !target.delete_logs ==> next.logs.state == RunPurgeExecutionState::Blocked
        }),
        ({
            let next = progress.after_listing(target, Listing::Failed(message));
            &&& next.stage == RunPurgeStage::Done
            &&& next.run.state == RunPurgeExecutionState::RevalidationFailed
            &&& next.run.error == Some(message)
            &&& next.logs.state == RunPurgeExecutionState::Blocked
        }),
{
    a_run_is_ready_with_planned_artifacts_only(target, target.run, current);
}

/// After the logs come the artifacts, one after the other, in the order of the plan; then, where
/// the logs and all of them are gone, a look at what is left; and otherwise the run stays.
pub proof fn artifacts_follow_the_logs(progress: ProgressView, target: RunPurgeTargetView, removed: Removal)
    requires
        progress.stage == RunPurgeStage::DeleteLogs,
        progress.artifacts.len() == 0,
    ensures
        ({
            let next = progress.after_removal(target, removed);
            &&& next.logs.state == RunPurgeExecutionState::Deleted <==> removed is Deleted
            &&& next.logs.state == RunPurgeExecutionState::AlreadyAbsent <==> removed is Absent
            &&& next.logs.state == RunPurgeExecutionState::DeleteFailed <==> removed is Failed
            &&& removed is Failed ==> next.logs.error == Some(removed->Failed_0)
            &&& target.artifacts.len() > 0 ==> next.stage == RunPurgeStage::LookUpArtifact
            &&& target.artifacts.len() == 0 && removed !is Failed ==> next.stage == RunPurgeStage::ListResidual
            &&& target.artifacts.len() == 0 && removed is Failed ==> next.stage == RunPurgeStage::Done
                && next.run.state == RunPurgeExecutionState::Blocked
        }),
{
}

/// The artifact that comes next is deleted where the provider shows it exactly as planned. Where it
/// does not show it, shows it otherwise or cannot say, that is what became of the artifact.
pub proof fn each_artifact_is_looked_at_first(
    progress: ProgressView,
    target: RunPurgeTargetView,
    found: Answer<ArtifactView>,
)
    requires
        progress.stage == RunPurgeStage::LookUpArtifact,
        progress.artifacts.len() < target.artifacts.len(),
    ensures
        ({
            let planned = target.artifacts[progress.artifacts.len() as int];
            let next = progress.after_artifact(target, found);
            &&& next.stage == RunPurgeStage::DeleteArtifact <==> found == Answer::Found(planned)
            &&& found == Answer::Found(planned) ==> next.artifacts == progress.artifacts
            &&& found != Answer::Found(planned) ==> {
                let result = next.artifacts.last();
                &&& next.artifacts == progress.artifacts.push(result)
                &&& result.planned == planned
                &&& result.state == RunPurgeExecutionState::AlreadyAbsent <==> found is Absent
                &&& result.state == RunPurgeExecutionState::Changed <==> found is Found
                &&& result.state == RunPurgeExecutionState::RevalidationFailed <==> found is Failed
                &&& found is Found ==> result.current == Some(found->Found_0)
                &&& found is Failed ==> result.error == Some(found->Failed_0)
            }
        }),
{
    let planned = target.artifacts[progress.artifacts.len() as int];
    if found != Answer::Found(planned) {
        let next = progress.after_artifact(target, found);
        assert(next.artifacts =~= progress.artifacts.push(next.artifacts.last()));
    }
}

/// What the provider says of the deletion of an artifact is what became of it. Then comes the next
/// artifact; after the last, where the logs and every artifact are gone, a look at what is left.
pub proof fn each_artifact_is_reported_as_it_went(progress: ProgressView, target: RunPurgeTargetView, removed: Removal)
    requires
        progress.stage == RunPurgeStage::DeleteArtifact,
        progress.artifacts.len() < target.artifacts.len(),
    ensures
        ({
            let planned = target.artifacts[progress.artifacts.len() as int];
            let next = progress.after_removal(target, removed);
            let result = next.artifacts.last();
            &&& next.artifacts == progress.artifacts.push(result)
            &&& result.planned == planned
            &&& result.state == RunPurgeExecutionState::Deleted <==> removed is Deleted
            &&& result.state == RunPurgeExecutionState::AlreadyAbsent <==> removed is Absent
            &&& result.state == RunPurgeExecutionState::DeleteFailed <==> removed is Failed
            &&& removed is Failed ==> result.error == Some(removed->Failed_0)
            &&& next.stage == RunPurgeStage::LookUpArtifact <==> next.artifacts.len() < target.artifacts.len()
            &&& next.artifacts.len() == target.artifacts.len() ==> {
                let everything = went(progress.logs.state) && forall|i: int|
                    0 <= i < next.artifacts.len() ==> went((#[trigger] next.artifacts[i]).state);
                &&& next.stage == RunPurgeStage::ListResidual <==> everything
                &&& !everything ==> next.stage == RunPurgeStage::Done && next.run.state
                    == RunPurgeExecutionState::Blocked
            }
        }),
{
    let next = progress.after_removal(target, removed);
    assert(next.artifacts =~= progress.artifacts.push(next.artifacts.last()));
    assert forall|i: int| 0 <= i < next.artifacts.len() implies is_gone((#[trigger] next.artifacts[i]).state) == went(
        next.artifacts[i].state,
    ) by {}
    if all_gone(next.artifacts) {
        assert forall|i: int| 0 <= i < next.artifacts.len() implies went((#[trigger] next.artifacts[i]).state) by {
            assert(is_gone(next.artifacts[i].state));
        }
    }
    if forall|i: int| 0 <= i < next.artifacts.len() ==> went((#[trigger] next.artifacts[i]).state) {
        assert forall|i: int| 0 <= i < next.artifacts.len() implies is_gone((#[trigger] next.artifacts[i]).state) by {
            assert(went(next.artifacts[i].state));
        }
    }
}

/// The run stays where an artifact of it is left, or where that could not be found out.
pub proof fn what_is_left_keeps_the_run(progress: ProgressView, target: RunPurgeTargetView, listed: Listing)
    requires
        progress.stage == RunPurgeStage::ListResidual,
    ensures
        ({
            let next = progress.after_listing(target, listed);
            &&& next.stage == RunPurgeStage::RecheckRun <==> listed is Listed && listed->Listed_0.len() == 0
            &&& next.stage != RunPurgeStage::RecheckRun ==> next.stage == RunPurgeStage::Done
            &&& listed is Failed ==> next.run.state == RunPurgeExecutionState::VerificationFailed
            &&& listed is Listed && listed->Listed_0.len() > 0 ==> {
                &&& next.run.state == RunPurgeExecutionState::Blocked
                &&& next.residual_artifacts == listed->Listed_0
                &&& next.artifacts.len() == progress.artifacts.len()
                &&& forall|i: int|
                    0 <= i < next.artifacts.len() ==> (#[trigger] next.artifacts[i]).planned
                        == progress.artifacts[i].planned && (has_id(listed->Listed_0, next.artifacts[i].planned.id)
                        ==> next.artifacts[i].state == RunPurgeExecutionState::VerificationFailed) && (!has_id(
                        listed->Listed_0,
                        next.artifacts[i].planned.id,
                    ) ==> next.artifacts[i] == progress.artifacts[i])
            }
        }),
{
    if listed is Listed && listed->Listed_0.len() > 0 {
        let next = progress.after_listing(target, listed);
        assert forall|i: int| 0 <= i < next.artifacts.len() implies (first_with_id(
            listed->Listed_0,
            (#[trigger] next.artifacts[i]).planned.id,
        ) is Some <==> has_id(listed->Listed_0, next.artifacts[i].planned.id)) by {
            lemma_first_with_id(listed->Listed_0, next.artifacts[i].planned.id);
        }
        assert forall|i: int| 0 <= i < next.artifacts.len() implies (#[trigger] next.artifacts[i]).planned
            == progress.artifacts[i].planned by {}
    }
}

proof fn lemma_first_with_id(artifacts: Seq<ArtifactView>, id: u64)
    ensures
        first_with_id(artifacts, id) is Some <==> has_id(artifacts, id),
    decreases artifacts.len(),
{
    if artifacts.len() > 0 {
        let rest = artifacts.drop_first();
        lemma_first_with_id(rest, id);
        if has_id(artifacts, id) && artifacts[0].id != id {
            let i = choose|i: int| 0 <= i < artifacts.len() && (#[trigger] artifacts[i]).id == id;
            assert(rest[i - 1].id == id);
        }
        if has_id(rest, id) {
            let i = choose|i: int| 0 <= i < rest.len() && (#[trigger] rest[i]).id == id;
            assert(artifacts[i + 1].id == id);
        }
    }
}

/// The run is looked at once more before it is deleted: it may differ from the planned one in
/// nothing but the time of its last update. After its deletion it is looked for again, and counts
/// as deleted only where the provider shows it no more.
pub proof fn the_run_is_looked_at_before_and_after(
    progress: ProgressView,
    target: RunPurgeTargetView,
    found: Answer<WorkflowRunView>,
    removed: Removal,
)
    ensures
        progress.stage == RunPurgeStage::RecheckRun ==> {
            let next = progress.after_run(target, found);
            &&& next.stage == RunPurgeStage::DeleteRun <==> found is Found && (WorkflowRunView {
                updated_at: target.run.updated_at,
                ..found->Found_0
            }) == target.run
            &&& next.stage != RunPurgeStage::DeleteRun ==> next.stage == RunPurgeStage::Done
            &&& found is Absent ==> next.run.state == RunPurgeExecutionState::AlreadyAbsent
            &&& next.stage == RunPurgeStage::Done && found is Found ==> next.run.state == RunPurgeExecutionState::Changed
            &&& found is Failed ==> next.run.state == RunPurgeExecutionState::RevalidationFailed
            &&& next.logs == progress.logs && next.artifacts == progress.artifacts
        },
        progress.stage == RunPurgeStage::DeleteRun ==> {
            let next = progress.after_removal(target, removed);
            &&& next.stage == RunPurgeStage::VerifyRun <==> removed is Deleted
            &&& removed is Absent ==> next.stage == RunPurgeStage::Done && next.run.state
                == RunPurgeExecutionState::AlreadyAbsent
            &&& removed is Failed ==> next.stage == RunPurgeStage::Done && next.run.state
                == RunPurgeExecutionState::DeleteFailed && next.run.error == Some(removed->Failed_0)
            &&& next.logs == progress.logs && next.artifacts == progress.artifacts
        },
        progress.stage == RunPurgeStage::VerifyRun ==> {
            let next = progress.after_run(target, found);
            &&& next.stage == RunPurgeStage::Done
            &&& next.run.state == RunPurgeExecutionState::Deleted <==> found is Absent
            &&& next.run.state == RunPurgeExecutionState::VerificationFailed <==> found !is Absent
            &&& next.logs == progress.logs && next.artifacts == progress.artifacts
        },
{
    if progress.stage == RunPurgeStage::RecheckRun && found is Found {
        only_the_last_update_may_differ(found->Found_0, target.run);
        let as_planned = WorkflowRunView { updated_at: target.run.updated_at, ..found->Found_0 };
        if found->Found_0.purge_identity() == target.run.purge_identity() {
            assert(as_planned =~= target.run);
        }
    }
}

/// A target that is done makes room for the next one; what became of it is kept in its place.
pub proof fn targets_are_carried_out_in_turn(execution: RunPurgeExecutionView, answer: RunPurgeAnswer)
    requires
        execution.account is Some,
        execution.items.len() < execution.plan.targets.len(),
    ensures
        ({
            let target = execution.plan.targets[execution.items.len() as int];
            let progress = after(execution.progress, target, answer);
            let next = execution.after(answer);
            &&& execution.step() == RunPurgeStep::Target(execution.progress.stage)
            &&& progress.stage != RunPurgeStage::Done ==> next.items == execution.items && next.progress == progress
            &&& progress.stage == RunPurgeStage::Done ==> {
                let item = next.items.last();
                &&& next.items == execution.items.push(item)
                &&& item.planned_run == target.run
                &&& item.logs == progress.logs
                &&& item.artifacts == progress.artifacts
                &&& item.residual_artifacts == progress.residual_artifacts
                &&& item.run == progress.run
                &&& next.progress.stage == RunPurgeStage::LookUpRun
                &&& next.step() == RunPurgeStep::Finished <==> next.items.len() == execution.plan.targets.len()
            }
        }),
{
    let next = execution.after(answer);
    if next.items.len() > execution.items.len() {
        assert(next.items =~= execution.items.push(next.items.last()));
    }
}

/// A report counts the runs that were deleted and adds up what the deleted artifacts took up. A
/// target is complete where its logs, its artifacts and the run itself went.
pub proof fn a_report_counts_what_went(items: Seq<RunPurgeExecutionItemView>, item: RunPurgeExecutionItemView)
    ensures
        deleted_runs(items) == tally(
            items,
            |i: RunPurgeExecutionItemView| i.run.state == RunPurgeExecutionState::Deleted,
        ),
        reclaimed(items) == sum_by(
            items,
            |i: RunPurgeExecutionItemView|
                sum_by(
                    i.artifacts,
                    |a: RunPurgeArtifactResultView|
                        if a.state == RunPurgeExecutionState::Deleted {
                            a.planned.size_in_bytes as nat
                        } else {
                            0
                        },
                ),
        ),
        complete(item) <==> went(item.logs.state) && went(item.run.state) && forall|k: int|
            0 <= k < item.artifacts.len() ==> went((#[trigger] item.artifacts[k]).state),
    decreases items.len(),
{
    assert(all_gone(item.artifacts) <==> forall|k: int|
        0 <= k < item.artifacts.len() ==> went((#[trigger] item.artifacts[k]).state)) by {
        assert forall|k: int| 0 <= k < item.artifacts.len() implies is_gone((#[trigger] item.artifacts[k]).state)
            == went(item.artifacts[k].state) by {}
    }
    if items.len() > 0 {
        a_report_counts_what_went(items.drop_last(), item);
        lemma_deleted_bytes(items.last().artifacts);
    }
}

proof fn lemma_deleted_bytes(artifacts: Seq<RunPurgeArtifactResultView>)
    ensures
        deleted_artifact_bytes(artifacts) == sum_by(
            artifacts,
            |a: RunPurgeArtifactResultView|
                if a.state == RunPurgeExecutionState::Deleted {
                    a.planned.size_in_bytes as nat
                } else {
                    0
                },
        ),
    decreases artifacts.len(),
{
    if artifacts.len() > 0 {
        lemma_deleted_bytes(artifacts.drop_last());
    }
}

} // verus!
