//! Plans of what a policy deletes.
use crate::cleanup::{
    different_artifacts, plan_of, plan_problem, target_problem, targets_problem, CleanupPlan, CleanupPlanError,
    CleanupPlanErrorView, CleanupPlanSummary, CleanupPlanSummaryView, CleanupTarget, CleanupTargetView, PlanReason,
    PlanReasonView,
};
use crate::inventory::artifact_sizes_add_up;
use crate::model::{Artifact, ArtifactView, InventorySnapshot, InventorySnapshotView};
use crate::order::{sum_by, tally};
use crate::policy::config::PolicyConfigView;
use crate::policy::engine::{
    classified, decisions_cover_everything, reclaimable, verdicts, ArtifactDecision, ArtifactDecisionView, Decision,
    DecisionReason, DecisionReasonView, PolicyEngine,
};
use crate::text::{blank, decimal, is_space, join4, number};
use crate::time::{utc_now, Timestamp};
use crate::totals::{capped, lemma_occurrences_bound, occurrences, total};
use crate::value::{add_to, nothing, Value};
use vstd::prelude::*;

verus! {

/// Why no plan can be made.
#[derive(Clone, Debug, PartialEq, Eq)]
pub enum PlanBuildError {
    ClassificationMismatch(String),
    CleanupPlan(CleanupPlanError),
}

/// The contents of [`PlanBuildError`].
#[verifier::ext_equal]
pub enum PlanBuildErrorView {
    ClassificationMismatch(Seq<char>),
    CleanupPlan(CleanupPlanErrorView),
}

impl DeepView for PlanBuildError {
    type V = PlanBuildErrorView;

    open spec fn deep_view(&self) -> PlanBuildErrorView {
        match self {
            PlanBuildError::ClassificationMismatch(field0) => PlanBuildErrorView::ClassificationMismatch(field0.deep_view()),
            PlanBuildError::CleanupPlan(field0) => PlanBuildErrorView::CleanupPlan(field0.deep_view()),
        }
    }
}

impl PlanBuildErrorView {
    /// The error in words.
    pub open spec fn text(self) -> Seq<char> {
        match self {
            PlanBuildErrorView::ClassificationMismatch(field0) => "cannot build cleanup plan: "@ + field0,
            PlanBuildErrorView::CleanupPlan(field0) => field0.text(),
        }
    }
}

impl PlanBuildError {
    /// The error in words.
    pub fn message(&self) -> (result: String)
        ensures
            result@ == self.deep_view().text(),
    {
        match self {
            PlanBuildError::ClassificationMismatch(field0) => {
                let mut text = "cannot build cleanup plan: ".to_owned();
                text.append(field0.as_str());
                text
            },
            PlanBuildError::CleanupPlan(field0) => field0.message(),
        }
    }
}

/// Why decisions do not belong to the artifacts from `from` on.
pub open spec fn identity_mismatch(
    artifacts: Seq<ArtifactView>,
    decisions: Seq<ArtifactDecisionView>,
    from: int,
) -> Option<Seq<char>>
    decreases artifacts.len() - from,
{
    if from < 0 || from >= artifacts.len() {
        None
    } else {
        let artifact = artifacts[from];
        if artifact.id != decisions[from].artifact_id || artifact.repository.full_name != decisions[from].repository {
            Some(
                "classification identity mismatch for artifact "@ + decimal(artifact.id as nat) + " in "@
                    + artifact.repository.full_name,
            )
        } else {
            identity_mismatch(artifacts, decisions, from + 1)
        }
    }
}

/// Why decisions do not belong to artifacts.
pub open spec fn mismatch(artifacts: Seq<ArtifactView>, decisions: Seq<ArtifactDecisionView>) -> Option<Seq<char>> {
    if decisions.len() != artifacts.len() {
        Some("classification count does not match artifact count"@)
    } else {
        identity_mismatch(artifacts, decisions, 0)
    }
}

/// The reasons of a decision as a plan holds them.
pub open spec fn plan_reasons(reasons: Seq<DecisionReasonView>) -> Seq<PlanReasonView> {
    Seq::new(
        reasons.len(),
        |i: int|
            PlanReasonView {
                code: reasons[i].code.text(),
                rule_id: reasons[i].rule_id,
                explanation: reasons[i].explanation,
            },
    )
}

/// The artifacts that are to be deleted, and why.
pub open spec fn targets_of(
    artifacts: Seq<ArtifactView>,
    decisions: Seq<ArtifactDecisionView>,
) -> Seq<CleanupTargetView>
    decreases artifacts.len(),
{
    if artifacts.len() == 0 {
        Seq::empty()
    } else {
        let last = artifacts.len() - 1;
        let rest = targets_of(artifacts.drop_last(), decisions.take(last));
        if decisions[last].decision == Decision::Delete {
            rest.push(
                CleanupTargetView { artifact: artifacts[last], reasons: plan_reasons(decisions[last].reasons) },
            )
        } else {
            rest
        }
    }
}

fn reasons_for_plan(reasons: &Vec<DecisionReason>) -> (result: Vec<PlanReason>)
    ensures
        result.deep_view() == plan_reasons(reasons.deep_view()),
{
    let ghost all = plan_reasons(reasons.deep_view());
    let mut result: Vec<PlanReason> = nothing();
    let mut i: usize = 0;
    while i < reasons.len()
        invariant
            i <= reasons.len(),
            all == plan_reasons(reasons.deep_view()),
            result.deep_view() == all.take(i as int),
        decreases reasons.len() - i,
    {
        let reason = PlanReason::new(
            reasons[i].code.as_str(),
            reasons[i].rule_id.copied(),
            reasons[i].explanation.as_str(),
        );
        assert(reason.deep_view() == all[i as int]);
        add_to(&mut result, reason);
        i = i + 1;
        assert(result.deep_view() =~= all.take(i as int));
    }
    assert(all.take(i as int) =~= all);
    result
}

/// The artifacts that are to be deleted, by the decisions about them.
pub fn plan_targets(artifacts: &Vec<Artifact>, decisions: &Vec<ArtifactDecision>) -> (result: Result<
    Vec<CleanupTarget>,
    PlanBuildError,
>)
    ensures
        match mismatch(artifacts.deep_view(), decisions.deep_view()) {
            Some(problem) => result matches Err(PlanBuildError::ClassificationMismatch(detail)) && detail@ == problem,
            None => result is Ok && result->Ok_0.deep_view() == targets_of(
                artifacts.deep_view(),
                decisions.deep_view(),
            ),
        },
{
    if decisions.len() != artifacts.len() {
        return Err(
            PlanBuildError::ClassificationMismatch("classification count does not match artifact count".to_string()),
        );
    }
    let ghost all = artifacts.deep_view();
    let ghost about = decisions.deep_view();
    let mut targets: Vec<CleanupTarget> = nothing();
    let mut i: usize = 0;
    assert(all.take(0) =~= Seq::empty());
    while i < artifacts.len()
        invariant
            i <= artifacts.len(),
            artifacts.len() == decisions.len(),
            all == artifacts.deep_view(),
            about == decisions.deep_view(),
            identity_mismatch(all, about, 0) == identity_mismatch(all, about, i as int),
            targets.deep_view() == targets_of(all.take(i as int), about.take(i as int)),
        decreases artifacts.len() - i,
    {
        let artifact = &artifacts[i];
        let decision = &decisions[i];
        assert(all[i as int] == artifact.deep_view());
        assert(about[i as int] == decision.deep_view());
        if artifact.id != decision.artifact_id || !artifact.repository.full_name.same(&decision.repository) {
            return Err(
                PlanBuildError::ClassificationMismatch(
                    join4(
                        "classification identity mismatch for artifact ",
                        number(artifact.id).as_str(),
                        " in ",
                        artifact.repository.full_name.as_str(),
                    ),
                ),
            );
        }
        assert(all.take(i + 1).drop_last() =~= all.take(i as int));
        assert(about.take(i + 1).take(i as int) =~= about.take(i as int));
        if decision.decision == Decision::Delete {
            let reasons = reasons_for_plan(&decision.reasons);
            add_to(&mut targets, CleanupTarget::new(artifact.copied(), reasons));
        }
        i = i + 1;
    }
    assert(all.take(i as int) =~= all);
    assert(about.take(i as int) =~= about);
    Ok(targets)
}

/// The summary of a plan by the decisions about the artifacts of a scan.
pub open spec fn summary_of(
    snapshot: InventorySnapshotView,
    decisions: Seq<ArtifactDecisionView>,
) -> CleanupPlanSummaryView {
    CleanupPlanSummaryView {
        source_artifact_count: snapshot.artifacts.len() as usize,
        source_total_bytes: total::<Artifact>(snapshot.artifacts) as u64,
        keep_count: occurrences(verdicts(decisions), Decision::Keep) as usize,
        protected_count: occurrences(verdicts(decisions), Decision::Protected) as usize,
        manual_review_count: occurrences(verdicts(decisions), Decision::ManualReview) as usize,
        delete_count: occurrences(verdicts(decisions), Decision::Delete) as usize,
        reclaimable_bytes: capped(reclaimable(decisions)),
    }
}

/// Why no plan can be made of what a policy deletes.
pub open spec fn policy_plan_problem(
    config: PolicyConfigView,
    snapshot: InventorySnapshotView,
) -> Option<CleanupPlanErrorView> {
    let decisions = classified(config, snapshot).decisions;
    plan_problem(
        snapshot,
        config.fingerprint(),
        summary_of(snapshot, decisions),
        targets_of(snapshot.artifacts, decisions),
    )
}

impl PolicyEngine {
    /// Makes a plan of what the policy deletes, dated `created_at`.
    pub fn build_cleanup_plan_at(&self, snapshot: &InventorySnapshot, created_at: Timestamp) -> (result: Result<
        CleanupPlan,
        PlanBuildError,
    >)
        requires
            self.policy().compiles(),
            total::<Artifact>(snapshot.deep_view().artifacts) <= u64::MAX,
        ensures
            match policy_plan_problem(self.policy(), snapshot.deep_view()) {
                Some(problem) => result matches Err(PlanBuildError::CleanupPlan(error)) && error.deep_view() == problem,
                None => result is Ok && ({
                    let decisions = classified(self.policy(), snapshot.deep_view()).decisions;
                    result->Ok_0.deep_view() == plan_of(
                        snapshot.deep_view(),
                        created_at,
                        self.policy().fingerprint(),
                        summary_of(snapshot.deep_view(), decisions),
                        targets_of(snapshot.deep_view().artifacts, decisions),
                    )
                }),
            },
    {
        let report = self.classify_snapshot(snapshot);
        proof {
            a_policy_decides_about_each_artifact(self.policy(), snapshot.deep_view());
        }
        let targets = match plan_targets(&snapshot.artifacts, &report.decisions) {
            Ok(targets) => targets,
            Err(error) => {
                return Err(error);
            },
        };
        let summary = CleanupPlanSummary::new(
            snapshot.artifact_count(),
            snapshot.total_bytes(),
            report.count(Decision::Keep),
            report.count(Decision::Protected),
            report.count(Decision::ManualReview),
            report.count(Decision::Delete),
            report.reclaimable_bytes(),
        );
        match CleanupPlan::new(snapshot, created_at, self.config().fingerprint(), summary, targets) {
            Ok(plan) => Ok(plan),
            Err(error) => Err(PlanBuildError::CleanupPlan(error)),
        }
    }

    /// Makes a plan of what the policy deletes, dated now.
    pub fn build_cleanup_plan(&self, snapshot: &InventorySnapshot) -> (result: Result<CleanupPlan, PlanBuildError>)
        requires
            self.policy().compiles(),
            total::<Artifact>(snapshot.deep_view().artifacts) <= u64::MAX,
        ensures
            match policy_plan_problem(self.policy(), snapshot.deep_view()) {
                Some(problem) => result matches Err(PlanBuildError::CleanupPlan(error)) && error.deep_view() == problem,
                None => result is Ok && ({
                    let decisions = classified(self.policy(), snapshot.deep_view()).decisions;
                    result->Ok_0.deep_view() == plan_of(
                        snapshot.deep_view(),
                        result->Ok_0.deep_view().created_at,
                        self.policy().fingerprint(),
                        summary_of(snapshot.deep_view(), decisions),
                        targets_of(snapshot.deep_view().artifacts, decisions),
                    )
                }),
            },
    {
        self.build_cleanup_plan_at(snapshot, utc_now())
    }
}

proof fn lemma_no_identity_mismatch(artifacts: Seq<ArtifactView>, decisions: Seq<ArtifactDecisionView>, from: int)
    requires
        0 <= from <= artifacts.len(),
        forall|i: int|
            0 <= i < artifacts.len() ==> (#[trigger] decisions[i]).artifact_id == artifacts[i].id
                && decisions[i].repository == artifacts[i].repository.full_name,
    ensures
        identity_mismatch(artifacts, decisions, from) is None,
    decreases artifacts.len() - from,
{
    if from < artifacts.len() {
        assert(decisions[from].artifact_id == artifacts[from].id);
        lemma_no_identity_mismatch(artifacts, decisions, from + 1);
    }
}

/// A policy decides about each artifact of a scan, in the order of the scan.
pub proof fn a_policy_decides_about_each_artifact(config: PolicyConfigView, snapshot: InventorySnapshotView)
    ensures
        mismatch(snapshot.artifacts, classified(config, snapshot).decisions) is None,
{
    lemma_no_identity_mismatch(snapshot.artifacts, classified(config, snapshot).decisions, 0);
}

proof fn lemma_targets_of(artifacts: Seq<ArtifactView>, decisions: Seq<ArtifactDecisionView>)
    requires
        artifacts.len() == decisions.len(),
        forall|i: int| 0 <= i < artifacts.len() ==> (#[trigger] decisions[i]).size_in_bytes == artifacts[i].size_in_bytes,
    ensures
        targets_of(artifacts, decisions).len() == occurrences(verdicts(decisions), Decision::Delete),
        total::<CleanupTarget>(targets_of(artifacts, decisions)) == reclaimable(decisions),
        forall|t: int|
            0 <= t < targets_of(artifacts, decisions).len() ==> exists|i: int|
                0 <= i < artifacts.len() && (#[trigger] targets_of(artifacts, decisions)[t]).artifact
                    == #[trigger] artifacts[i],
    decreases artifacts.len(),
{
    if artifacts.len() > 0 {
        let last = artifacts.len() - 1;
        let rest = targets_of(artifacts.drop_last(), decisions.take(last));
        let all = targets_of(artifacts, decisions);
        assert forall|i: int| 0 <= i < last implies (#[trigger] decisions.take(last)[i]).size_in_bytes
            == artifacts.drop_last()[i].size_in_bytes by {
            assert(decisions[i].size_in_bytes == artifacts[i].size_in_bytes);
        }
        lemma_targets_of(artifacts.drop_last(), decisions.take(last));
        assert(decisions.drop_last() =~= decisions.take(last));
        assert(verdicts(decisions).drop_last() =~= verdicts(decisions.take(last)));
        assert(decisions[last].size_in_bytes == artifacts[last].size_in_bytes);
        if decisions[last].decision == Decision::Delete {
            assert(all.drop_last() =~= rest);
        }
        assert forall|t: int| 0 <= t < all.len() implies exists|i: int|
            0 <= i < artifacts.len() && (#[trigger] all[t]).artifact == #[trigger] artifacts[i] by {
            if t < rest.len() {
                let i = choose|i: int|
                    0 <= i < last && rest[t].artifact == #[trigger] artifacts.drop_last()[i];
                assert(all[t] == rest[t]);
                assert(artifacts.drop_last()[i] == artifacts[i]);
            } else {
                assert(all[t].artifact == artifacts[last]);
            }
        }
    } else {
        assert(verdicts(decisions) =~= Seq::empty());
    }
}

/// Different artifacts make different targets.
proof fn lemma_targets_differ(artifacts: Seq<ArtifactView>, decisions: Seq<ArtifactDecisionView>)
    requires
        artifacts.len() == decisions.len(),
        forall|i: int, j: int|
            0 <= i < j < artifacts.len() ==> (#[trigger] artifacts[i]).id != (#[trigger] artifacts[j]).id
                || artifacts[i].repository.full_name != artifacts[j].repository.full_name,
        forall|i: int| 0 <= i < artifacts.len() ==> (#[trigger] decisions[i]).size_in_bytes == artifacts[i].size_in_bytes,
    ensures
        forall|s: int, t: int|
            0 <= s < t < targets_of(artifacts, decisions).len() ==> different_artifacts(
                #[trigger] targets_of(artifacts, decisions)[s],
                #[trigger] targets_of(artifacts, decisions)[t],
            ),
    decreases artifacts.len(),
{
    if artifacts.len() > 0 {
        let last = artifacts.len() - 1;
        let rest = targets_of(artifacts.drop_last(), decisions.take(last));
        let all = targets_of(artifacts, decisions);
        assert forall|i: int, j: int| 0 <= i < j < last implies (#[trigger] artifacts.drop_last()[i]).id != (
        #[trigger] artifacts.drop_last()[j]).id || artifacts.drop_last()[i].repository.full_name
            != artifacts.drop_last()[j].repository.full_name by {
            assert(artifacts[i].id != artifacts[j].id || artifacts[i].repository.full_name
                != artifacts[j].repository.full_name);
        }
        assert forall|i: int| 0 <= i < last implies (#[trigger] decisions.take(last)[i]).size_in_bytes
            == artifacts.drop_last()[i].size_in_bytes by {
            assert(decisions[i].size_in_bytes == artifacts[i].size_in_bytes);
        }
        lemma_targets_differ(artifacts.drop_last(), decisions.take(last));
        lemma_targets_of(artifacts.drop_last(), decisions.take(last));
        assert forall|s: int, t: int| 0 <= s < t < all.len() implies different_artifacts(
            #[trigger] all[s],
            #[trigger] all[t],
        ) by {
            assert(all[s] == rest[s]);
            if t < rest.len() {
                assert(all[t] == rest[t]);
            } else {
                let i = choose|i: int|
                    0 <= i < last && rest[s].artifact == #[trigger] artifacts.drop_last()[i];
                assert(artifacts.drop_last()[i] == artifacts[i]);
                assert(all[t].artifact == artifacts[last]);
            }
        }
    }
}

proof fn lemma_no_target_problem(known: Seq<ArtifactView>, targets: Seq<CleanupTargetView>, from: int)
    requires
        0 <= from <= targets.len(),
        forall|i: int| 0 <= i < targets.len() ==> #[trigger] target_problem(known, targets, i) is None,
    ensures
        targets_problem(known, targets, from) is None,
    decreases targets.len() - from,
{
    if from < targets.len() {
        assert(target_problem(known, targets, from) is None);
        lemma_no_target_problem(known, targets, from + 1);
    }
}

/// A complete scan that names each artifact once always yields a plan: the summary of the
/// decisions fits the targets, and every target is known.
pub proof fn a_complete_scan_yields_a_plan(config: PolicyConfigView, snapshot: InventorySnapshotView)
    requires
        snapshot.issues.len() == 0,
        snapshot.artifacts.len() <= usize::MAX,
        total::<Artifact>(snapshot.artifacts) <= u64::MAX,
        forall|i: int, j: int|
            0 <= i < j < snapshot.artifacts.len() ==> (#[trigger] snapshot.artifacts[i]).id != (
            #[trigger] snapshot.artifacts[j]).id || snapshot.artifacts[i].repository.full_name
                != snapshot.artifacts[j].repository.full_name,
    ensures
        policy_plan_problem(config, snapshot) is None,
{
    let decisions = classified(config, snapshot).decisions;
    let targets = targets_of(snapshot.artifacts, decisions);
    assert(!blank(config.fingerprint())) by {
        reveal_strlit("fnv1a64:");
        assert(config.fingerprint()[0] == 'f');
        assert(!is_space(config.fingerprint()[0]));
    }
    assert forall|i: int| 0 <= i < snapshot.artifacts.len() implies (#[trigger] decisions[i]).size_in_bytes
        == snapshot.artifacts[i].size_in_bytes by {}
    lemma_targets_of(snapshot.artifacts, decisions);
    lemma_targets_differ(snapshot.artifacts, decisions);
    decisions_cover_everything(verdicts(decisions));
    lemma_occurrences_bound(verdicts(decisions), Decision::Keep);
    lemma_occurrences_bound(verdicts(decisions), Decision::Protected);
    lemma_occurrences_bound(verdicts(decisions), Decision::ManualReview);
    lemma_occurrences_bound(verdicts(decisions), Decision::Delete);
    assert forall|i: int| 0 <= i < targets.len() implies #[trigger] target_problem(
        snapshot.artifacts,
        targets,
        i,
    ) is None by {
        let k = choose|k: int|
            0 <= k < snapshot.artifacts.len() && targets[i].artifact == #[trigger] snapshot.artifacts[k];
        assert(snapshot.artifacts.contains(targets[i].artifact));
        assert forall|j: int| 0 <= j < i implies different_artifacts(#[trigger] targets[j], targets[i]) by {}
    }
    lemma_no_target_problem(snapshot.artifacts, targets, 0);
}

/// A plan is for what the policy deletes: each target is an artifact that is decided to be deleted,
/// with the reasons of that decision, and each such artifact is a target.
pub proof fn a_plan_is_for_what_is_to_be_deleted(artifacts: Seq<ArtifactView>, decisions: Seq<ArtifactDecisionView>)
    requires
        artifacts.len() == decisions.len(),
    ensures
        targets_of(artifacts, decisions).len() == tally(
            decisions,
            |d: ArtifactDecisionView| d.decision == Decision::Delete,
        ),
        forall|t: int|
            0 <= t < targets_of(artifacts, decisions).len() ==> is_some_target(
                artifacts,
                decisions,
                #[trigger] targets_of(artifacts, decisions)[t],
            ),
        forall|i: int|
            0 <= i < artifacts.len() && (#[trigger] decisions[i]).decision == Decision::Delete ==> exists|t: int|
                0 <= t < targets_of(artifacts, decisions).len() && is_target(
                    artifacts,
                    decisions,
                    i,
                    #[trigger] targets_of(artifacts, decisions)[t],
                ),
    decreases artifacts.len(),
{
    let all = targets_of(artifacts, decisions);
    if artifacts.len() > 0 {
        let last = artifacts.len() - 1;
        let before = artifacts.drop_last();
        let about = decisions.take(last);
        let rest = targets_of(before, about);
        a_plan_is_for_what_is_to_be_deleted(before, about);
        assert(decisions.drop_last() =~= about);
        assert forall|t: int| 0 <= t < all.len() implies is_some_target(artifacts, decisions, #[trigger] all[t]) by {
            if t < rest.len() {
                assert(all[t] == rest[t]);
                let i = choose|i: int| is_target(before, about, i, rest[t]);
                assert(before[i] == artifacts[i] && about[i] == decisions[i]);
                assert(is_target(artifacts, decisions, i, all[t]));
            } else {
                assert(is_target(artifacts, decisions, last, all[t]));
            }
        }
        assert forall|i: int| 0 <= i < artifacts.len() && (#[trigger] decisions[i]).decision == Decision::Delete implies exists|
            t: int,
        | 0 <= t < all.len() && is_target(artifacts, decisions, i, #[trigger] all[t]) by {
            if i < last {
                assert(before[i] == artifacts[i] && about[i] == decisions[i]);
                let t = choose|t: int| 0 <= t < rest.len() && is_target(before, about, i, #[trigger] rest[t]);
                assert(all[t] == rest[t]);
                assert(is_target(artifacts, decisions, i, all[t]));
            } else {
                assert(is_target(artifacts, decisions, last, all[all.len() - 1]));
            }
        }
    } else {
        assert(decisions =~= Seq::empty());
    }
}

/// Whether a target stands for the artifact at a place, which is decided to be deleted, and gives
/// the reasons of that decision.
pub open spec fn is_target(
    artifacts: Seq<ArtifactView>,
    decisions: Seq<ArtifactDecisionView>,
    i: int,
    target: CleanupTargetView,
) -> bool {
    &&& 0 <= i < artifacts.len()
    &&& decisions[i].decision == Decision::Delete
    &&& target.artifact == artifacts[i]
    &&& target.reasons.len() == decisions[i].reasons.len()
    &&& forall|k: int|
        0 <= k < target.reasons.len() ==> (#[trigger] target.reasons[k]).rule_id == decisions[i].reasons[k].rule_id
            && target.reasons[k].explanation == decisions[i].reasons[k].explanation && target.reasons[k].code
            == decisions[i].reasons[k].code.text()
}

/// Whether a target stands for one of the artifacts.
pub open spec fn is_some_target(
    artifacts: Seq<ArtifactView>,
    decisions: Seq<ArtifactDecisionView>,
    target: CleanupTargetView,
) -> bool {
    exists|i: int| is_target(artifacts, decisions, i, target)
}

proof fn lemma_verdicts(decisions: Seq<ArtifactDecisionView>, decision: Decision)
    ensures
        occurrences(verdicts(decisions), decision) == tally(
            decisions,
            |d: ArtifactDecisionView| d.decision == decision,
        ),
        reclaimable(decisions) == sum_by(
            decisions,
            |d: ArtifactDecisionView|
                if d.decision == Decision::Delete {
                    d.size_in_bytes as nat
                } else {
                    0
                },
        ),
    decreases decisions.len(),
{
    if decisions.len() > 0 {
        lemma_verdicts(decisions.drop_last(), decision);
        assert(verdicts(decisions).drop_last() =~= verdicts(decisions.drop_last()));
    } else {
        assert(verdicts(decisions) =~= Seq::empty());
    }
}

/// The summary of a plan counts the artifacts of the scan and the decisions of each kind, and adds
/// up what the artifacts take up, and what those take up that are to be deleted.
pub proof fn a_summary_counts_the_decisions(snapshot: InventorySnapshotView, decisions: Seq<ArtifactDecisionView>)
    requires
        snapshot.artifacts.len() == decisions.len(),
        snapshot.artifacts.len() <= usize::MAX,
        total::<Artifact>(snapshot.artifacts) <= u64::MAX,
    ensures
        ({
            let summary = summary_of(snapshot, decisions);
            let freed = sum_by(
                decisions,
                |d: ArtifactDecisionView|
                    if d.decision == Decision::Delete {
                        d.size_in_bytes as nat
                    } else {
                        0
                    },
            );
            &&& summary.source_artifact_count == snapshot.artifacts.len()
            &&& summary.source_total_bytes == sum_by(snapshot.artifacts, |a: ArtifactView| a.size_in_bytes as nat)
            &&& summary.keep_count == tally(decisions, |d: ArtifactDecisionView| d.decision == Decision::Keep)
            &&& summary.protected_count == tally(decisions, |d: ArtifactDecisionView| d.decision == Decision::Protected)
            &&& summary.manual_review_count == tally(
                decisions,
                |d: ArtifactDecisionView| d.decision == Decision::ManualReview,
            )
            &&& summary.delete_count == tally(decisions, |d: ArtifactDecisionView| d.decision == Decision::Delete)
            &&& freed <= u64::MAX ==> summary.reclaimable_bytes == freed
        }),
{
    artifact_sizes_add_up(snapshot.artifacts);
    lemma_verdicts(decisions, Decision::Keep);
    lemma_verdicts(decisions, Decision::Protected);
    lemma_verdicts(decisions, Decision::ManualReview);
    lemma_verdicts(decisions, Decision::Delete);
    lemma_occurrences_bound(verdicts(decisions), Decision::Keep);
    lemma_occurrences_bound(verdicts(decisions), Decision::Protected);
    lemma_occurrences_bound(verdicts(decisions), Decision::ManualReview);
    lemma_occurrences_bound(verdicts(decisions), Decision::Delete);
}

} // verus!
