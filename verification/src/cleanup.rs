//! Cleanup plans: which artifacts a policy would delete, and why.
use crate::inventory::artifact_sizes_add_up;
use crate::model::{
    Account, AccountView, Artifact, ArtifactView, InventorySnapshot, InventorySnapshotView, ScanScope, ScanScopeView,
};
use crate::order::{
    le, lemma_sorted_pairwise, lemma_sorted_pointwise, lemma_two_parts, sort, sorted,
    sorting_is_an_ordered_rearrangement, sum_by, KeyPart, Order, Part,
};
use crate::text::{blank, decimal, is_blank, lemma_text_less_irreflexive, number, text_less};
use crate::time::Timestamp;
use crate::totals::{capped, capped_total_of, total, Measured};
use crate::value::Value;
use vstd::prelude::*;
use vstd::string::StringExecFns;

verus! {

/// The version of the plans that this library writes.
pub const CLEANUP_PLAN_SCHEMA_VERSION: u32 = 1;

/// Why an artifact is to be deleted.
#[derive(Clone, Debug, PartialEq, Eq)]
pub struct PlanReason {
    code: String,
    rule_id: Option<String>,
    explanation: String,
}

/// The contents of [`PlanReason`].
#[verifier::ext_equal]
pub struct PlanReasonView {
    pub code: Seq<char>,
    pub rule_id: Option<Seq<char>>,
    pub explanation: Seq<char>,
}

impl DeepView for PlanReason {
    type V = PlanReasonView;

    closed spec fn deep_view(&self) -> PlanReasonView {
        PlanReasonView {
            code: self.code.deep_view(),
            rule_id: self.rule_id.deep_view(),
            explanation: self.explanation.deep_view(),
        }
    }
}

impl Value for PlanReason {
    fn copied(&self) -> (result: Self) {
        PlanReason {
            code: self.code.copied(),
            rule_id: self.rule_id.copied(),
            explanation: self.explanation.copied(),
        }
    }

    fn same(&self, other: &Self) -> (result: bool) {
        self.code.same(&other.code)
            && self.rule_id.same(&other.rule_id)
            && self.explanation.same(&other.explanation)
    }
}

impl PlanReason {
    pub fn new(code: &str, rule_id: Option<String>, explanation: &str) -> (result: Self)
        ensures
            result.deep_view() == (PlanReasonView {
                code: code@,
                rule_id: rule_id.deep_view(),
                explanation: explanation@,
            }),
    {
        PlanReason { code: code.to_owned(), rule_id, explanation: explanation.to_owned() }
    }

    pub fn code(&self) -> (result: &str)
        ensures
            result@ == self.deep_view().code,
    {
        self.code.as_str()
    }

    pub fn rule_id(&self) -> (result: Option<&str>)
        ensures
            crate::inventory::optional_text(result) == self.deep_view().rule_id,
    {
        match &self.rule_id {
            Some(id) => Some(id.as_str()),
            None => None,
        }
    }

    pub fn explanation(&self) -> (result: &str)
        ensures
            result@ == self.deep_view().explanation,
    {
        self.explanation.as_str()
    }
}

/// An artifact to delete, and why.
#[derive(Clone, Debug, PartialEq, Eq)]
pub struct CleanupTarget {
    artifact: Artifact,
    reasons: Vec<PlanReason>,
}

/// The contents of [`CleanupTarget`].
#[verifier::ext_equal]
pub struct CleanupTargetView {
    pub artifact: ArtifactView,
    pub reasons: Seq<PlanReasonView>,
}

impl DeepView for CleanupTarget {
    type V = CleanupTargetView;

    closed spec fn deep_view(&self) -> CleanupTargetView {
        CleanupTargetView {
            artifact: self.artifact.deep_view(),
            reasons: self.reasons.deep_view(),
        }
    }
}

impl Value for CleanupTarget {
    fn copied(&self) -> (result: Self) {
        CleanupTarget {
            artifact: self.artifact.copied(),
            reasons: self.reasons.copied(),
        }
    }

    fn same(&self, other: &Self) -> (result: bool) {
        self.artifact.same(&other.artifact)
            && self.reasons.same(&other.reasons)
    }
}

impl CleanupTarget {
    pub fn new(artifact: Artifact, reasons: Vec<PlanReason>) -> (result: Self)
        ensures
            result.deep_view() == (CleanupTargetView {
                artifact: artifact.deep_view(),
                reasons: reasons.deep_view(),
            }),
    {
        CleanupTarget { artifact, reasons }
    }

    pub fn artifact(&self) -> (result: &Artifact)
        ensures
            result.deep_view() == self.deep_view().artifact,
    {
        &self.artifact
    }

    pub fn reasons(&self) -> (result: &Vec<PlanReason>)
        ensures
            result.deep_view() == self.deep_view().reasons,
    {
        &self.reasons
    }

}

/// How many artifacts a plan keeps, protects, leaves for review and deletes.
#[derive(Clone, Debug, PartialEq, Eq)]
pub struct CleanupPlanSummary {
    source_artifact_count: usize,
    source_total_bytes: u64,
    keep_count: usize,
    protected_count: usize,
    manual_review_count: usize,
    delete_count: usize,
    reclaimable_bytes: u64,
}

/// The contents of [`CleanupPlanSummary`].
#[verifier::ext_equal]
pub struct CleanupPlanSummaryView {
    pub source_artifact_count: usize,
    pub source_total_bytes: u64,
    pub keep_count: usize,
    pub protected_count: usize,
    pub manual_review_count: usize,
    pub delete_count: usize,
    pub reclaimable_bytes: u64,
}

impl DeepView for CleanupPlanSummary {
    type V = CleanupPlanSummaryView;

    closed spec fn deep_view(&self) -> CleanupPlanSummaryView {
        CleanupPlanSummaryView {
            source_artifact_count: self.source_artifact_count,
            source_total_bytes: self.source_total_bytes,
            keep_count: self.keep_count,
            protected_count: self.protected_count,
            manual_review_count: self.manual_review_count,
            delete_count: self.delete_count,
            reclaimable_bytes: self.reclaimable_bytes,
        }
    }
}

impl Value for CleanupPlanSummary {
    fn copied(&self) -> (result: Self) {
        CleanupPlanSummary {
            source_artifact_count: self.source_artifact_count,
            source_total_bytes: self.source_total_bytes,
            keep_count: self.keep_count,
            protected_count: self.protected_count,
            manual_review_count: self.manual_review_count,
            delete_count: self.delete_count,
            reclaimable_bytes: self.reclaimable_bytes,
        }
    }

    fn same(&self, other: &Self) -> (result: bool) {
        self.source_artifact_count == other.source_artifact_count
            && self.source_total_bytes == other.source_total_bytes
            && self.keep_count == other.keep_count
            && self.protected_count == other.protected_count
            && self.manual_review_count == other.manual_review_count
            && self.delete_count == other.delete_count
            && self.reclaimable_bytes == other.reclaimable_bytes
    }
}

impl CleanupPlanSummary {
    pub fn new(
        source_artifact_count: usize,
        source_total_bytes: u64,
        keep_count: usize,
        protected_count: usize,
        manual_review_count: usize,
        delete_count: usize,
        reclaimable_bytes: u64,
    ) -> (result: Self)
        ensures
            result.deep_view() == (CleanupPlanSummaryView {
                source_artifact_count,
                source_total_bytes,
                keep_count,
                protected_count,
                manual_review_count,
                delete_count,
                reclaimable_bytes,
            }),
    {
        CleanupPlanSummary {
            source_artifact_count,
            source_total_bytes,
            keep_count,
            protected_count,
            manual_review_count,
            delete_count,
            reclaimable_bytes,
        }
    }

    pub fn source_artifact_count(&self) -> (result: usize)
        ensures
            result == self.deep_view().source_artifact_count,
    {
        self.source_artifact_count
    }

    pub fn source_total_bytes(&self) -> (result: u64)
        ensures
            result == self.deep_view().source_total_bytes,
    {
        self.source_total_bytes
    }

    pub fn keep_count(&self) -> (result: usize)
        ensures
            result == self.deep_view().keep_count,
    {
        self.keep_count
    }

    pub fn protected_count(&self) -> (result: usize)
        ensures
            result == self.deep_view().protected_count,
    {
        self.protected_count
    }

    pub fn manual_review_count(&self) -> (result: usize)
        ensures
            result == self.deep_view().manual_review_count,
    {
        self.manual_review_count
    }

    pub fn delete_count(&self) -> (result: usize)
        ensures
            result == self.deep_view().delete_count,
    {
        self.delete_count
    }

    pub fn reclaimable_bytes(&self) -> (result: u64)
        ensures
            result == self.deep_view().reclaimable_bytes,
    {
        self.reclaimable_bytes
    }

}

/// A plan that deletes artifacts. It does not change once it is made.
#[derive(Clone, Debug, PartialEq, Eq)]
pub struct CleanupPlan {
    schema_version: u32,
    created_at: Timestamp,
    scanned_at: Timestamp,
    account: Account,
    scope: ScanScope,
    policy_hash: String,
    summary: CleanupPlanSummary,
    targets: Vec<CleanupTarget>,
}

/// The contents of [`CleanupPlan`].
#[verifier::ext_equal]
pub struct CleanupPlanView {
    pub schema_version: u32,
    pub created_at: Timestamp,
    pub scanned_at: Timestamp,
    pub account: AccountView,
    pub scope: ScanScopeView,
    pub policy_hash: Seq<char>,
    pub summary: CleanupPlanSummaryView,
    pub targets: Seq<CleanupTargetView>,
}

impl DeepView for CleanupPlan {
    type V = CleanupPlanView;

    closed spec fn deep_view(&self) -> CleanupPlanView {
        CleanupPlanView {
            schema_version: self.schema_version,
            created_at: self.created_at,
            scanned_at: self.scanned_at,
            account: self.account.deep_view(),
            scope: self.scope.deep_view(),
            policy_hash: self.policy_hash.deep_view(),
            summary: self.summary.deep_view(),
            targets: self.targets.deep_view(),
        }
    }
}

/// Why a plan cannot be made.
#[derive(Clone, Debug, PartialEq, Eq)]
pub enum CleanupPlanError {
    IncompleteSnapshot { issue_count: usize },
    EmptyPolicyHash,
    SummaryMismatch(String),
    DuplicateTarget { repository: String, artifact_id: u64 },
    TargetNotInSnapshot { repository: String, artifact_id: u64 },
}

/// The contents of [`CleanupPlanError`].
#[verifier::ext_equal]
pub enum CleanupPlanErrorView {
    IncompleteSnapshot { issue_count: usize },
    EmptyPolicyHash,
    SummaryMismatch(Seq<char>),
    DuplicateTarget { repository: Seq<char>, artifact_id: u64 },
    TargetNotInSnapshot { repository: Seq<char>, artifact_id: u64 },
}

impl DeepView for CleanupPlanError {
    type V = CleanupPlanErrorView;

    open spec fn deep_view(&self) -> CleanupPlanErrorView {
        match self {
            CleanupPlanError::IncompleteSnapshot { issue_count } => CleanupPlanErrorView::IncompleteSnapshot { issue_count: *issue_count },
            CleanupPlanError::EmptyPolicyHash => CleanupPlanErrorView::EmptyPolicyHash,
            CleanupPlanError::SummaryMismatch(field0) => CleanupPlanErrorView::SummaryMismatch(field0.deep_view()),
            CleanupPlanError::DuplicateTarget { repository, artifact_id } => CleanupPlanErrorView::DuplicateTarget { repository: repository.deep_view(), artifact_id: *artifact_id },
            CleanupPlanError::TargetNotInSnapshot { repository, artifact_id } => CleanupPlanErrorView::TargetNotInSnapshot { repository: repository.deep_view(), artifact_id: *artifact_id },
        }
    }
}

impl CleanupPlanErrorView {
    /// The error in words.
    pub open spec fn text(self) -> Seq<char> {
        match self {
            CleanupPlanErrorView::IncompleteSnapshot { issue_count } => "cannot create a cleanup plan from an incomplete snapshot ("@ + decimal(issue_count as nat) + " scan issue(s))"@,
            CleanupPlanErrorView::EmptyPolicyHash => "cleanup plan policy hash must not be empty"@,
            CleanupPlanErrorView::SummaryMismatch(field0) => "cleanup plan summary mismatch: "@ + field0,
            CleanupPlanErrorView::DuplicateTarget { repository, artifact_id } => "duplicate cleanup target "@ + repository + " artifact "@ + decimal(artifact_id as nat),
            CleanupPlanErrorView::TargetNotInSnapshot { repository, artifact_id } => "cleanup target "@ + repository + " artifact "@ + decimal(artifact_id as nat) + " is not part of the inventory snapshot"@,
        }
    }
}

impl CleanupPlanError {
    /// The error in words.
    pub fn message(&self) -> (result: String)
        ensures
            result@ == self.deep_view().text(),
    {
        match self {
            CleanupPlanError::IncompleteSnapshot { issue_count } => {
                let mut text = "cannot create a cleanup plan from an incomplete snapshot (".to_owned();
                text.append(number(*issue_count as u64).as_str());
                text.append(" scan issue(s))");
                text
            },
            CleanupPlanError::EmptyPolicyHash => "cleanup plan policy hash must not be empty".to_owned(),
            CleanupPlanError::SummaryMismatch(field0) => {
                let mut text = "cleanup plan summary mismatch: ".to_owned();
                text.append(field0.as_str());
                text
            },
            CleanupPlanError::DuplicateTarget { repository, artifact_id } => {
                let mut text = "duplicate cleanup target ".to_owned();
                text.append(repository.as_str());
                text.append(" artifact ");
                text.append(number(*artifact_id).as_str());
                text
            },
            CleanupPlanError::TargetNotInSnapshot { repository, artifact_id } => {
                let mut text = "cleanup target ".to_owned();
                text.append(repository.as_str());
                text.append(" artifact ");
                text.append(number(*artifact_id).as_str());
                text.append(" is not part of the inventory snapshot");
                text
            },
        }
    }
}

/// Targets by repository and artifact number.
pub struct CleanupTargetOrder;

impl Order<CleanupTarget> for CleanupTargetOrder {
    open spec fn key(&self, value: CleanupTargetView) -> Seq<Part> {
        seq![Part::Text(value.artifact.repository.full_name), Part::Number(value.artifact.id as int)]
    }

    fn key_of(&self, item: &CleanupTarget) -> (result: Vec<KeyPart>) {
        let result = vec![
            KeyPart::Text(item.artifact.repository.full_name.copied()),
            KeyPart::Number(item.artifact.id as i128),
        ];
        assert(result.deep_view() =~= self.key(item.deep_view()));
        result
    }
}

impl Measured for CleanupTarget {
    open spec fn size(value: CleanupTargetView) -> u64 {
        value.artifact.size_in_bytes
    }

    fn bytes(&self) -> (result: u64) {
        self.artifact.size_in_bytes
    }
}

/// Two targets that name different artifacts.
pub open spec fn different_artifacts(a: CleanupTargetView, b: CleanupTargetView) -> bool {
    a.artifact.repository.full_name != b.artifact.repository.full_name || a.artifact.id != b.artifact.id
}

/// What is wrong with the target at `i`.
pub open spec fn target_problem(
    known: Seq<ArtifactView>,
    targets: Seq<CleanupTargetView>,
    i: int,
) -> Option<CleanupPlanErrorView> {
    let artifact = targets[i].artifact;
    let repository = artifact.repository.full_name;
    if exists|j: int| 0 <= j < i && !different_artifacts(#[trigger] targets[j], targets[i]) {
        Some(CleanupPlanErrorView::DuplicateTarget { repository, artifact_id: artifact.id })
    } else if !known.contains(artifact) {
        Some(CleanupPlanErrorView::TargetNotInSnapshot { repository, artifact_id: artifact.id })
    } else {
        None
    }
}

/// The first thing that is wrong with the targets from `from` on.
pub open spec fn targets_problem(
    known: Seq<ArtifactView>,
    targets: Seq<CleanupTargetView>,
    from: int,
) -> Option<CleanupPlanErrorView>
    decreases targets.len() - from,
{
    if from < 0 || from >= targets.len() {
        None
    } else {
        match target_problem(known, targets, from) {
            Some(problem) => Some(problem),
            None => targets_problem(known, targets, from + 1),
        }
    }
}

/// Why a summary does not fit the scan and the targets.
pub open spec fn summary_problem(
    snapshot: InventorySnapshotView,
    summary: CleanupPlanSummaryView,
    targets: Seq<CleanupTargetView>,
) -> Option<Seq<char>> {
    let classified = summary.keep_count + summary.protected_count + summary.manual_review_count
        + summary.delete_count;
    if summary.source_artifact_count != snapshot.artifacts.len() {
        Some("source artifact count does not match inventory snapshot"@)
    } else if summary.source_total_bytes != total::<Artifact>(snapshot.artifacts) {
        Some("source byte total does not match inventory snapshot"@)
    } else if summary.source_artifact_count != if classified <= usize::MAX {
        classified
    } else {
        usize::MAX as int
    } {
        Some("decision counts do not cover the complete inventory snapshot"@)
    } else if summary.delete_count != targets.len() {
        Some("delete count does not match cleanup target count"@)
    } else if summary.reclaimable_bytes != capped(total::<CleanupTarget>(targets)) {
        Some("reclaimable byte total does not match cleanup targets"@)
    } else {
        None
    }
}

/// The first reason why a plan cannot be made.
pub open spec fn plan_problem(
    snapshot: InventorySnapshotView,
    policy_hash: Seq<char>,
    summary: CleanupPlanSummaryView,
    targets: Seq<CleanupTargetView>,
) -> Option<CleanupPlanErrorView> {
    if snapshot.issues.len() > 0 {
        Some(CleanupPlanErrorView::IncompleteSnapshot { issue_count: snapshot.issues.len() as usize })
    } else if blank(policy_hash) {
        Some(CleanupPlanErrorView::EmptyPolicyHash)
    } else {
        match summary_problem(snapshot, summary, targets) {
            Some(mismatch) => Some(CleanupPlanErrorView::SummaryMismatch(mismatch)),
            None => targets_problem(snapshot.artifacts, targets, 0),
        }
    }
}

/// The plan of the targets.
pub open spec fn plan_of(
    snapshot: InventorySnapshotView,
    created_at: Timestamp,
    policy_hash: Seq<char>,
    summary: CleanupPlanSummaryView,
    targets: Seq<CleanupTargetView>,
) -> CleanupPlanView {
    CleanupPlanView {
        schema_version: CLEANUP_PLAN_SCHEMA_VERSION,
        created_at,
        scanned_at: snapshot.scanned_at,
        account: snapshot.account,
        scope: snapshot.scope,
        policy_hash,
        summary,
        targets: sorted::<CleanupTarget, CleanupTargetOrder>(targets, CleanupTargetOrder),
    }
}

fn knows(artifacts: &Vec<Artifact>, artifact: &Artifact) -> (result: bool)
    ensures
        result == artifacts.deep_view().contains(artifact.deep_view()),
{
    let ghost all = artifacts.deep_view();
    let mut i: usize = 0;
    while i < artifacts.len()
        invariant
            i <= artifacts.len(),
            all == artifacts.deep_view(),
            forall|k: int| 0 <= k < i ==> #[trigger] all[k] != artifact.deep_view(),
        decreases artifacts.len() - i,
    {
        if artifacts[i].same(artifact) {
            assert(all[i as int] == artifact.deep_view());
            return true;
        }
        i = i + 1;
    }
    false
}

fn check_targets(known: &Vec<Artifact>, targets: &Vec<CleanupTarget>) -> (result: Result<(), CleanupPlanError>)
    ensures
        match targets_problem(known.deep_view(), targets.deep_view(), 0) {
            Some(problem) => result is Err && result->Err_0.deep_view() == problem,
            None => result is Ok,
        },
{
    let ghost all = targets.deep_view();
    let mut i: usize = 0;
    while i < targets.len()
        invariant
            i <= targets.len(),
            all == targets.deep_view(),
            targets_problem(known.deep_view(), all, 0) == targets_problem(known.deep_view(), all, i as int),
        decreases targets.len() - i,
    {
        let artifact = &targets[i].artifact;
        assert(all[i as int].artifact == artifact.deep_view());
        let mut j: usize = 0;
        while j < i && !(targets[j].artifact.id == artifact.id && targets[j].artifact.repository.full_name.same(
            &artifact.repository.full_name,
        ))
            invariant
                j <= i < targets.len(),
                all == targets.deep_view(),
                artifact.deep_view() == all[i as int].artifact,
                forall|h: int| 0 <= h < j ==> different_artifacts(#[trigger] all[h], all[i as int]),
            decreases i - j,
        {
            assert(different_artifacts(all[j as int], all[i as int]));
            j = j + 1;
        }
        if j < i {
            assert(!different_artifacts(all[j as int], all[i as int]));
            return Err(
                CleanupPlanError::DuplicateTarget {
                    repository: artifact.repository.full_name.copied(),
                    artifact_id: artifact.id,
                },
            );
        }
        if !knows(known, artifact) {
            return Err(
                CleanupPlanError::TargetNotInSnapshot {
                    repository: artifact.repository.full_name.copied(),
                    artifact_id: artifact.id,
                },
            );
        }
        i = i + 1;
    }
    Ok(())
}

impl CleanupPlan {
    /// Makes a plan of artifacts that the scan found, each named once, with a summary that
    /// fits them.
    pub fn new(
        snapshot: &InventorySnapshot,
        created_at: Timestamp,
        policy_hash: String,
        summary: CleanupPlanSummary,
        targets: Vec<CleanupTarget>,
    ) -> (result: Result<Self, CleanupPlanError>)
        requires
            total::<Artifact>(snapshot.deep_view().artifacts) <= u64::MAX,
        ensures
            match plan_problem(snapshot.deep_view(), policy_hash@, summary.deep_view(), targets.deep_view()) {
                Some(problem) => result is Err && result->Err_0.deep_view() == problem,
                None => result is Ok && result->Ok_0.deep_view() == plan_of(
                    snapshot.deep_view(),
                    created_at,
                    policy_hash@,
                    summary.deep_view(),
                    targets.deep_view(),
                ),
            },
    {
        if snapshot.issues.len() > 0 {
            return Err(CleanupPlanError::IncompleteSnapshot { issue_count: snapshot.issues.len() });
        }
        if is_blank(policy_hash.as_str()) {
            return Err(CleanupPlanError::EmptyPolicyHash);
        }
        if summary.source_artifact_count != snapshot.artifact_count() {
            return Err(
                CleanupPlanError::SummaryMismatch(
                    "source artifact count does not match inventory snapshot".to_owned(),
                ),
            );
        }
        if summary.source_total_bytes != snapshot.total_bytes() {
            return Err(
                CleanupPlanError::SummaryMismatch(
                    "source byte total does not match inventory snapshot".to_owned(),
                ),
            );
        }
        let classified: usize = summary.keep_count.saturating_add(summary.protected_count).saturating_add(
            summary.manual_review_count,
        ).saturating_add(summary.delete_count);
        if classified != summary.source_artifact_count {
            return Err(
                CleanupPlanError::SummaryMismatch(
                    "decision counts do not cover the complete inventory snapshot".to_owned(),
                ),
            );
        }
        if summary.delete_count != targets.len() {
            return Err(
                CleanupPlanError::SummaryMismatch("delete count does not match cleanup target count".to_owned()),
            );
        }
        if summary.reclaimable_bytes != capped_total_of(&targets) {
            return Err(
                CleanupPlanError::SummaryMismatch(
                    "reclaimable byte total does not match cleanup targets".to_owned(),
                ),
            );
        }
        match check_targets(&snapshot.artifacts, &targets) {
            Ok(()) => {},
            Err(error) => {
                return Err(error);
            },
        }
        Ok(
            CleanupPlan {
                schema_version: CLEANUP_PLAN_SCHEMA_VERSION,
                created_at,
                scanned_at: snapshot.scanned_at,
                account: snapshot.account.copied(),
                scope: snapshot.scope.copied(),
                policy_hash,
                summary,
                targets: sort(targets, &CleanupTargetOrder),
            },
        )
    }

    /// A plan as it was stored.
    pub fn restored(
        schema_version: u32,
        created_at: Timestamp,
        scanned_at: Timestamp,
        account: Account,
        scope: ScanScope,
        policy_hash: String,
        summary: CleanupPlanSummary,
        targets: Vec<CleanupTarget>,
    ) -> (result: Self)
        ensures
            result.deep_view() == (CleanupPlanView {
                schema_version,
                created_at,
                scanned_at,
                account: account.deep_view(),
                scope: scope.deep_view(),
                policy_hash: policy_hash@,
                summary: summary.deep_view(),
                targets: targets.deep_view(),
            }),
    {
        CleanupPlan { schema_version, created_at, scanned_at, account, scope, policy_hash, summary, targets }
    }

    pub fn schema_version(&self) -> (result: u32)
        ensures
            result == self.deep_view().schema_version,
    {
        self.schema_version
    }

    pub fn created_at(&self) -> (result: Timestamp)
        ensures
            result == self.deep_view().created_at,
    {
        self.created_at
    }

    pub fn scanned_at(&self) -> (result: Timestamp)
        ensures
            result == self.deep_view().scanned_at,
    {
        self.scanned_at
    }

    pub fn account(&self) -> (result: &Account)
        ensures
            result.deep_view() == self.deep_view().account,
    {
        &self.account
    }

    pub fn scope(&self) -> (result: &ScanScope)
        ensures
            result.deep_view() == self.deep_view().scope,
    {
        &self.scope
    }

    pub fn policy_hash(&self) -> (result: &str)
        ensures
            result@ == self.deep_view().policy_hash,
    {
        self.policy_hash.as_str()
    }

    pub fn summary(&self) -> (result: &CleanupPlanSummary)
        ensures
            result.deep_view() == self.deep_view().summary,
    {
        &self.summary
    }

    pub fn targets(&self) -> (result: &Vec<CleanupTarget>)
        ensures
            result.deep_view() == self.deep_view().targets,
    {
        &self.targets
    }

}

proof fn lemma_targets_problem(known: Seq<ArtifactView>, targets: Seq<CleanupTargetView>, from: int)
    requires
        0 <= from <= targets.len(),
        targets_problem(known, targets, from) is None,
    ensures
        forall|i: int| from <= i < targets.len() ==> #[trigger] target_problem(known, targets, i) is None,
    decreases targets.len() - from,
{
    if from < targets.len() {
        lemma_targets_problem(known, targets, from + 1);
    }
}

/// A plan deletes only artifacts that a complete scan found, each of them once, in the order
/// of their repositories and numbers; and its summary tells how many they are and how much
/// storage they take up.
pub proof fn a_plan_deletes_known_artifacts_once(
    snapshot: InventorySnapshotView,
    created_at: Timestamp,
    policy_hash: Seq<char>,
    summary: CleanupPlanSummaryView,
    targets: Seq<CleanupTargetView>,
)
    requires
        plan_problem(snapshot, policy_hash, summary, targets) is None,
    ensures
        ({
            let plan = plan_of(snapshot, created_at, policy_hash, summary, targets);
            &&& snapshot.issues.len() == 0
            &&& plan.targets.len() == plan.summary.delete_count
            &&& forall|i: int|
                0 <= i < plan.targets.len() ==> snapshot.artifacts.contains((#[trigger] plan.targets[i]).artifact)
            &&& forall|i: int, j: int|
                0 <= i < j < plan.targets.len() ==> different_artifacts(
                    #[trigger] plan.targets[i],
                    #[trigger] plan.targets[j],
                )
            &&& crate::order::in_order::<CleanupTarget, CleanupTargetOrder>(plan.targets, CleanupTargetOrder)
        }),
{
    lemma_targets_problem(snapshot.artifacts, targets, 0);
    crate::order::sorting_is_an_ordered_rearrangement::<CleanupTarget, CleanupTargetOrder>(
        targets,
        CleanupTargetOrder,
    );
    assert forall|i: int| 0 <= i < targets.len() implies snapshot.artifacts.contains(
        (#[trigger] targets[i]).artifact,
    ) by {
        assert(target_problem(snapshot.artifacts, targets, i) is None);
    }
    assert forall|i: int, j: int| 0 <= i < j < targets.len() implies different_artifacts(
        #[trigger] targets[i],
        #[trigger] targets[j],
    ) by {
        assert(target_problem(snapshot.artifacts, targets, j) is None);
    }
    lemma_sorted_pointwise::<CleanupTarget, CleanupTargetOrder>(
        targets,
        CleanupTargetOrder,
        |target: CleanupTargetView| snapshot.artifacts.contains(target.artifact),
    );
    lemma_sorted_pairwise::<CleanupTarget, CleanupTargetOrder>(
        targets,
        CleanupTargetOrder,
        |a: CleanupTargetView, b: CleanupTargetView| different_artifacts(a, b),
    );
}

/// A plan can be made where the scan was complete, the policy is named, the summary fits, and each
/// target is an artifact of the scan that no other target is.
pub proof fn a_plan_is_made_of_sound_targets(
    snapshot: InventorySnapshotView,
    policy_hash: Seq<char>,
    summary: CleanupPlanSummaryView,
    targets: Seq<CleanupTargetView>,
)
    ensures
        plan_problem(snapshot, policy_hash, summary, targets) is None <==> {
            let decided = summary.keep_count + summary.protected_count + summary.manual_review_count
                + summary.delete_count;
            let freed = sum_by(targets, |t: CleanupTargetView| t.artifact.size_in_bytes as nat);
            &&& snapshot.issues.len() == 0
            &&& !blank(policy_hash)
            &&& summary.source_artifact_count == snapshot.artifacts.len()
            &&& summary.source_total_bytes == sum_by(snapshot.artifacts, |a: ArtifactView| a.size_in_bytes as nat)
            &&& decided == summary.source_artifact_count || (decided > usize::MAX && summary.source_artifact_count
                == usize::MAX)
            &&& summary.delete_count == targets.len()
            &&& freed <= u64::MAX ==> summary.reclaimable_bytes == freed
            &&& freed > u64::MAX ==> summary.reclaimable_bytes == u64::MAX
            &&& forall|i: int| 0 <= i < targets.len() ==> snapshot.artifacts.contains((#[trigger] targets[i]).artifact)
            &&& forall|i: int, j: int|
                0 <= i < j < targets.len() ==> (#[trigger] targets[i]).artifact.repository.full_name != (
                #[trigger] targets[j]).artifact.repository.full_name || targets[i].artifact.id != targets[j].artifact.id
        },
{
    artifact_sizes_add_up(snapshot.artifacts);
    lemma_target_sizes(targets);
    let known = snapshot.artifacts;
    if targets_problem(known, targets, 0) is None {
        lemma_targets_problem(known, targets, 0);
        assert forall|i: int| 0 <= i < targets.len() implies known.contains((#[trigger] targets[i]).artifact) by {
            assert(target_problem(known, targets, i) is None);
        }
        assert forall|i: int, j: int| 0 <= i < j < targets.len() implies different_artifacts(
            #[trigger] targets[i],
            #[trigger] targets[j],
        ) by {
            assert(target_problem(known, targets, j) is None);
        }
    }
    if (forall|i: int| 0 <= i < targets.len() ==> known.contains((#[trigger] targets[i]).artifact)) && (forall|
        i: int,
        j: int,
    |
        0 <= i < j < targets.len() ==> (#[trigger] targets[i]).artifact.repository.full_name != (
        #[trigger] targets[j]).artifact.repository.full_name || targets[i].artifact.id != targets[j].artifact.id) {
        assert forall|i: int| 0 <= i < targets.len() implies #[trigger] target_problem(known, targets, i) is None by {
            assert(known.contains(targets[i].artifact));
            assert forall|j: int| 0 <= j < i implies different_artifacts(#[trigger] targets[j], targets[i]) by {}
        }
        lemma_sound_targets(known, targets, 0);
    }
}

proof fn lemma_target_sizes(targets: Seq<CleanupTargetView>)
    ensures
        total::<CleanupTarget>(targets) == sum_by(targets, |t: CleanupTargetView| t.artifact.size_in_bytes as nat),
    decreases targets.len(),
{
    if targets.len() > 0 {
        lemma_target_sizes(targets.drop_last());
    }
}

proof fn lemma_sound_targets(known: Seq<ArtifactView>, targets: Seq<CleanupTargetView>, from: int)
    requires
        0 <= from <= targets.len(),
        forall|i: int| 0 <= i < targets.len() ==> #[trigger] target_problem(known, targets, i) is None,
    ensures
        targets_problem(known, targets, from) is None,
    decreases targets.len() - from,
{
    if from < targets.len() {
        assert(target_problem(known, targets, from) is None);
        lemma_sound_targets(known, targets, from + 1);
    }
}

/// A plan records the account, the scope and the time of the scan, the policy and the summary, and
/// lists its targets by repository, then by number, with none lost and none added.
pub proof fn a_plan_records_the_scan(
    snapshot: InventorySnapshotView,
    created_at: Timestamp,
    policy_hash: Seq<char>,
    summary: CleanupPlanSummaryView,
    targets: Seq<CleanupTargetView>,
    i: int,
    j: int,
)
    ensures
        ({
            let plan = plan_of(snapshot, created_at, policy_hash, summary, targets);
            &&& plan.schema_version == 1
            &&& plan.created_at == created_at
            &&& plan.scanned_at == snapshot.scanned_at
            &&& plan.account == snapshot.account
            &&& plan.scope == snapshot.scope
            &&& plan.policy_hash == policy_hash
            &&& plan.summary == summary
            &&& plan.targets.to_multiset() == targets.to_multiset()
            &&& 0 <= i < j < plan.targets.len() ==> {
                let a = plan.targets[i].artifact;
                let b = plan.targets[j].artifact;
                &&& !text_less(b.repository.full_name, a.repository.full_name)
                &&& a.repository.full_name == b.repository.full_name ==> a.id <= b.id
            }
        }),
{
    let list = sorted::<CleanupTarget, CleanupTargetOrder>(targets, CleanupTargetOrder);
    sorting_is_an_ordered_rearrangement::<CleanupTarget, CleanupTargetOrder>(targets, CleanupTargetOrder);
    if 0 <= i < j < list.len() {
        let s = CleanupTargetOrder.key(list[j]);
        let t = CleanupTargetOrder.key(list[i]);
        assert(le::<CleanupTarget, CleanupTargetOrder>(CleanupTargetOrder, list[i], list[j]));
        lemma_two_parts(s[0], s[1], t[0], t[1]);
        lemma_text_less_irreflexive(list[j].artifact.repository.full_name);
    }
}

} // verus!
