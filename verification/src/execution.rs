//! Carrying out a cleanup plan: each artifact is looked at again right before it goes.
use crate::cleanup::{CleanupPlan, CleanupPlanView, CleanupTargetView};
use crate::model::{
    answer, removal, Account, AccountView, Answer, Artifact, ArtifactView, DeleteOutcome, ProviderError,
    ProviderErrorView, ProviderTelemetry, ProviderTelemetryView, Removal,
};
use crate::order::{sum_by, tally};
use crate::revalidation::{
    all_safe, changed, changed_fields, ensure_same_account, other_account, states, ArtifactField,
    RevalidationError, RevalidationErrorView,
    RevalidationItemView, RevalidationReport, RevalidationReportView, RevalidationState,
};
use crate::text::{decimal, join4, number};
use crate::time::Timestamp;
use crate::totals::{capped, count_of, lemma_occurrences_bound, occurrences};
use crate::value::{add_to, nothing, Value};
use vstd::prelude::*;
use vstd::string::StringExecFns;

verus! {

/// How a plan's execution was authorised.
#[derive(Clone, Copy, Debug, PartialEq, Eq, Structural)]
pub enum ExecutionAuthorizationKind {
    InteractiveConfirmation,
    AutomationYes,
}

/// A permission to delete, which only an explicit act gives.
#[derive(Clone, Copy, Debug, PartialEq, Eq, Structural)]
pub struct ExecutionAuthorization {
    kind: ExecutionAuthorizationKind,
}

impl ExecutionAuthorization {
    pub closed spec fn granted(self) -> ExecutionAuthorizationKind {
        self.kind
    }

    pub fn interactive_confirmation() -> (result: Self)
        ensures
            result.granted() == ExecutionAuthorizationKind::InteractiveConfirmation,
    {
        ExecutionAuthorization { kind: ExecutionAuthorizationKind::InteractiveConfirmation }
    }

    pub fn automation_yes() -> (result: Self)
        ensures
            result.granted() == ExecutionAuthorizationKind::AutomationYes,
    {
        ExecutionAuthorization { kind: ExecutionAuthorizationKind::AutomationYes }
    }

    pub fn kind(self) -> (result: ExecutionAuthorizationKind)
        ensures
            result == self.granted(),
    {
        self.kind
    }
}

/// What became of an artifact.
#[derive(Clone, Copy, Debug, PartialEq, Eq, Structural)]
pub enum ExecutionState {
    Deleted,
    AlreadyAbsent,
    Changed,
    RevalidationFailed,
    DeleteFailed,
}

impl DeepView for ExecutionState {
    type V = ExecutionState;

    open spec fn deep_view(&self) -> ExecutionState {
        *self
    }
}

impl Value for ExecutionState {
    fn copied(&self) -> (result: Self) {
        *self
    }

    fn same(&self, other: &Self) -> (result: bool) {
        *self == *other
    }
}

/// What became of a target.
#[derive(Clone, Debug, PartialEq, Eq)]
pub struct ExecutionItem {
    pub artifact_id: u64,
    pub repository: String,
    pub artifact_name: String,
    pub planned_size_in_bytes: u64,
    pub state: ExecutionState,
    pub changed_fields: Vec<ArtifactField>,
    pub current: Option<Artifact>,
    pub error: Option<String>,
}

/// The contents of [`ExecutionItem`].
#[verifier::ext_equal]
pub struct ExecutionItemView {
    pub artifact_id: u64,
    pub repository: Seq<char>,
    pub artifact_name: Seq<char>,
    pub planned_size_in_bytes: u64,
    pub state: ExecutionState,
    pub changed_fields: Seq<ArtifactField>,
    pub current: Option<ArtifactView>,
    pub error: Option<Seq<char>>,
}

impl DeepView for ExecutionItem {
    type V = ExecutionItemView;

    open spec fn deep_view(&self) -> ExecutionItemView {
        ExecutionItemView {
            artifact_id: self.artifact_id,
            repository: self.repository.deep_view(),
            artifact_name: self.artifact_name.deep_view(),
            planned_size_in_bytes: self.planned_size_in_bytes,
            state: self.state,
            changed_fields: self.changed_fields.deep_view(),
            current: self.current.deep_view(),
            error: self.error.deep_view(),
        }
    }
}

/// What became of a plan.
#[derive(Clone, Debug, PartialEq, Eq)]
pub struct ExecutionReport {
    pub started_at: Timestamp,
    pub completed_at: Timestamp,
    pub account: Account,
    pub plan_created_at: Timestamp,
    pub plan_scanned_at: Timestamp,
    pub policy_hash: String,
    pub authorization: ExecutionAuthorizationKind,
    pub telemetry: ProviderTelemetry,
    pub items: Vec<ExecutionItem>,
}

/// The contents of [`ExecutionReport`].
#[verifier::ext_equal]
pub struct ExecutionReportView {
    pub started_at: Timestamp,
    pub completed_at: Timestamp,
    pub account: AccountView,
    pub plan_created_at: Timestamp,
    pub plan_scanned_at: Timestamp,
    pub policy_hash: Seq<char>,
    pub authorization: ExecutionAuthorizationKind,
    pub telemetry: ProviderTelemetryView,
    pub items: Seq<ExecutionItemView>,
}

impl DeepView for ExecutionReport {
    type V = ExecutionReportView;

    open spec fn deep_view(&self) -> ExecutionReportView {
        ExecutionReportView {
            started_at: self.started_at,
            completed_at: self.completed_at,
            account: self.account.deep_view(),
            plan_created_at: self.plan_created_at,
            plan_scanned_at: self.plan_scanned_at,
            policy_hash: self.policy_hash.deep_view(),
            authorization: self.authorization,
            telemetry: self.telemetry.deep_view(),
            items: self.items.deep_view(),
        }
    }
}

/// Why a plan is not carried out.
#[derive(Clone, Debug, PartialEq, Eq)]
pub enum ExecutionError {
    ReviewedPlanMismatch(String),
    UnsafeReviewedReport { changed: usize, failed: usize },
    Provider(ProviderError),
    Revalidation(RevalidationError),
}

/// The contents of [`ExecutionError`].
#[verifier::ext_equal]
pub enum ExecutionErrorView {
    ReviewedPlanMismatch(Seq<char>),
    UnsafeReviewedReport { changed: usize, failed: usize },
    Provider(ProviderErrorView),
    Revalidation(RevalidationErrorView),
}

impl DeepView for ExecutionError {
    type V = ExecutionErrorView;

    open spec fn deep_view(&self) -> ExecutionErrorView {
        match self {
            ExecutionError::ReviewedPlanMismatch(field0) => ExecutionErrorView::ReviewedPlanMismatch(field0.deep_view()),
            ExecutionError::UnsafeReviewedReport { changed, failed } => ExecutionErrorView::UnsafeReviewedReport { changed: *changed, failed: *failed },
            ExecutionError::Provider(field0) => ExecutionErrorView::Provider(field0.deep_view()),
            ExecutionError::Revalidation(field0) => ExecutionErrorView::Revalidation(field0.deep_view()),
        }
    }
}

impl ExecutionErrorView {
    /// The error in words.
    pub open spec fn text(self) -> Seq<char> {
        match self {
            ExecutionErrorView::ReviewedPlanMismatch(field0) => "reviewed revalidation report does not match cleanup plan: "@ + field0,
            ExecutionErrorView::UnsafeReviewedReport { changed, failed } => "reviewed revalidation report is unsafe to apply ("@ + decimal(changed as nat) + " changed, "@ + decimal(failed as nat) + " failed)"@,
            ExecutionErrorView::Provider(field0) => field0.text(),
            ExecutionErrorView::Revalidation(field0) => field0.text(),
        }
    }
}

impl ExecutionError {
    /// The error in words.
    pub fn message(&self) -> (result: String)
        ensures
            result@ == self.deep_view().text(),
    {
        match self {
            ExecutionError::ReviewedPlanMismatch(field0) => {
                let mut text = "reviewed revalidation report does not match cleanup plan: ".to_owned();
                text.append(field0.as_str());
                text
            },
            ExecutionError::UnsafeReviewedReport { changed, failed } => {
                let mut text = "reviewed revalidation report is unsafe to apply (".to_owned();
                text.append(number(*changed as u64).as_str());
                text.append(" changed, ");
                text.append(number(*failed as u64).as_str());
                text.append(" failed)");
                text
            },
            ExecutionError::Provider(field0) => field0.message(),
            ExecutionError::Revalidation(field0) => field0.message(),
        }
    }
}

/// Whether a review is about the targets of a plan, one by one.
pub open spec fn same_target(target: CleanupTargetView, item: RevalidationItemView) -> bool {
    item.artifact_id == target.artifact.id && item.repository == target.artifact.repository.full_name
}

/// The first target from `from` on that a review is not about.
pub open spec fn unreviewed(
    targets: Seq<CleanupTargetView>,
    items: Seq<RevalidationItemView>,
    from: int,
) -> Option<Seq<char>>
    decreases targets.len() - from,
{
    if from < 0 || from >= targets.len() {
        None
    } else if !same_target(targets[from], items[from]) {
        Some(
            "reviewed target identity does not match cleanup plan for "@
                + targets[from].artifact.repository.full_name + "#"@ + decimal(targets[from].artifact.id as nat),
        )
    } else {
        unreviewed(targets, items, from + 1)
    }
}

/// Why a review does not allow a plan to be carried out.
pub open spec fn review_problem(plan: CleanupPlanView, review: RevalidationReportView) -> Option<ExecutionErrorView> {
    if review.plan_created_at != plan.created_at {
        Some(
            ExecutionErrorView::ReviewedPlanMismatch("plan creation timestamp does not match reviewed report"@),
        )
    } else if review.plan_scanned_at != plan.scanned_at {
        Some(ExecutionErrorView::ReviewedPlanMismatch("plan scan timestamp does not match reviewed report"@))
    } else if review.policy_hash != plan.policy_hash {
        Some(ExecutionErrorView::ReviewedPlanMismatch("policy fingerprint does not match reviewed report"@))
    } else if review.items.len() != plan.targets.len() {
        Some(ExecutionErrorView::ReviewedPlanMismatch("reviewed target count does not match cleanup plan"@))
    } else {
        match unreviewed(plan.targets, review.items, 0) {
            Some(mismatch) => Some(ExecutionErrorView::ReviewedPlanMismatch(mismatch)),
            None => if !all_safe(review.items) {
                Some(
                    ExecutionErrorView::UnsafeReviewedReport {
                        changed: occurrences(states(review.items), RevalidationState::Changed) as usize,
                        failed: occurrences(states(review.items), RevalidationState::RevalidationFailed) as usize,
                    },
                )
            } else {
                None
            },
        }
    }
}

/// An execution is started only by a review of the same plan that looked at each of its targets
/// and found none changed, and none that could not be looked at.
pub proof fn only_a_safe_review_starts_an_execution(plan: CleanupPlanView, review: RevalidationReportView)
    requires
        review_problem(plan, review) is None,
    ensures
        review.plan_created_at == plan.created_at,
        review.plan_scanned_at == plan.scanned_at,
        review.policy_hash == plan.policy_hash,
        review.items.len() == plan.targets.len(),
        forall|i: int|
            0 <= i < plan.targets.len() ==> same_target(plan.targets[i], #[trigger] review.items[i]) && (
            review.items[i].state == RevalidationState::Unchanged || review.items[i].state
                == RevalidationState::AlreadyAbsent),
{
    lemma_reviewed(plan.targets, review.items, 0);
}

proof fn lemma_reviewed(targets: Seq<CleanupTargetView>, items: Seq<RevalidationItemView>, from: int)
    requires
        0 <= from <= targets.len(),
        unreviewed(targets, items, from) is None,
    ensures
        forall|i: int| from <= i < targets.len() ==> same_target(targets[i], #[trigger] items[i]),
    decreases targets.len() - from,
{
    if from < targets.len() {
        lemma_reviewed(targets, items, from + 1);
    }
}

fn mismatch(text: &str) -> (result: Result<(), ExecutionError>)
    ensures
        result is Err,
        result->Err_0.deep_view() == ExecutionErrorView::ReviewedPlanMismatch(text@),
{
    Err(ExecutionError::ReviewedPlanMismatch(text.to_owned()))
}

/// Refuses a review that is not of this plan, or that found something in the way.
pub fn validate_review(plan: &CleanupPlan, reviewed: &RevalidationReport) -> (result: Result<(), ExecutionError>)
    ensures
        match review_problem(plan.deep_view(), reviewed.deep_view()) {
            Some(problem) => result is Err && result->Err_0.deep_view() == problem,
            None => result is Ok,
        },
{
    if reviewed.plan_created_at != plan.created_at() {
        return mismatch("plan creation timestamp does not match reviewed report");
    }
    if reviewed.plan_scanned_at != plan.scanned_at() {
        return mismatch("plan scan timestamp does not match reviewed report");
    }
    if !crate::text::same_text(reviewed.policy_hash.as_str(), plan.policy_hash()) {
        return mismatch("policy fingerprint does not match reviewed report");
    }
    let targets = plan.targets();
    let ghost planned = targets.deep_view();
    let ghost found = reviewed.items.deep_view();
    if reviewed.items.len() != targets.len() {
        return mismatch("reviewed target count does not match cleanup plan");
    }
    let mut i: usize = 0;
    while i < targets.len()
        invariant
            i <= targets.len(),
            planned == targets.deep_view(),
            planned == plan.deep_view().targets,
            found == reviewed.items.deep_view(),
            found == reviewed.deep_view().items,
            found.len() == planned.len(),
            unreviewed(planned, found, 0) == unreviewed(planned, found, i as int),
            reviewed.deep_view().plan_created_at == plan.deep_view().created_at,
            reviewed.deep_view().plan_scanned_at == plan.deep_view().scanned_at,
            reviewed.deep_view().policy_hash == plan.deep_view().policy_hash,
        decreases targets.len() - i,
    {
        let artifact = targets[i].artifact();
        let item = &reviewed.items[i];
        assert(planned[i as int].artifact == artifact.deep_view());
        assert(found[i as int] == item.deep_view());
        if item.artifact_id != artifact.id || !item.repository.same(&artifact.repository.full_name) {
            let text = join4(
                "reviewed target identity does not match cleanup plan for ",
                artifact.repository.full_name.as_str(),
                "#",
                number(artifact.id).as_str(),
            );
            return mismatch(text.as_str());
        }
        i = i + 1;
    }
    if !reviewed.is_safe_to_apply() {
        return Err(
            ExecutionError::UnsafeReviewedReport {
                changed: reviewed.count(RevalidationState::Changed),
                failed: reviewed.count(RevalidationState::RevalidationFailed),
            },
        );
    }
    Ok(())
}

/// What became of an artifact.
pub open spec fn outcome(
    planned: ArtifactView,
    state: ExecutionState,
    changed_fields: Seq<ArtifactField>,
    current: Option<ArtifactView>,
    error: Option<Seq<char>>,
) -> ExecutionItemView {
    ExecutionItemView {
        artifact_id: planned.id,
        repository: planned.repository.full_name,
        artifact_name: planned.name,
        planned_size_in_bytes: planned.size_in_bytes,
        state,
        changed_fields,
        current,
        error,
    }
}

fn execution_item(
    planned: &Artifact,
    state: ExecutionState,
    changed_fields: Vec<ArtifactField>,
    current: Option<Artifact>,
    error: Option<String>,
) -> (result: ExecutionItem)
    ensures
        result.deep_view() == outcome(
            planned.deep_view(),
            state,
            changed_fields.deep_view(),
            current.deep_view(),
            error.deep_view(),
        ),
{
    ExecutionItem {
        artifact_id: planned.id,
        repository: planned.repository.full_name.copied(),
        artifact_name: planned.name.copied(),
        planned_size_in_bytes: planned.size_in_bytes,
        state,
        changed_fields,
        current,
        error,
    }
}

/// Why the account that a provider answers with is refused.
pub open spec fn account_problem(planned: AccountView, account: Result<Account, ProviderError>) -> Option<
    ExecutionErrorView,
> {
    match account {
        Err(error) => Some(ExecutionErrorView::Provider(error.deep_view())),
        Ok(current) => if current.deep_view() == planned {
            None
        } else {
            Some(ExecutionErrorView::Revalidation(other_account(planned, current.deep_view())))
        },
    }
}

/// What is asked of the provider next.
#[derive(Clone, Copy, Debug, PartialEq, Eq, Structural)]
pub enum ExecutionStep {
    Account,
    LookUp,
    Delete,
    Finished,
}

/// The execution of a plan, artifact by artifact: it holds the permission that it was started
/// with, and asks for the account first.
pub struct ExecutionService<'a> {
    plan: &'a CleanupPlan,
    authorization: ExecutionAuthorization,
    account: Option<Account>,
    items: Vec<ExecutionItem>,
    unchanged: bool,
}

/// The contents of [`ExecutionService`].
#[verifier::ext_equal]
pub struct ExecutionView {
    pub plan: CleanupPlanView,
    pub authorization: ExecutionAuthorizationKind,
    pub account: Option<AccountView>,
    pub items: Seq<ExecutionItemView>,
    pub unchanged: bool,
}

impl<'a> DeepView for ExecutionService<'a> {
    type V = ExecutionView;

    closed spec fn deep_view(&self) -> ExecutionView {
        ExecutionView {
            plan: self.plan.deep_view(),
            authorization: self.authorization.granted(),
            account: self.account.deep_view(),
            items: self.items.deep_view(),
            unchanged: self.unchanged,
        }
    }
}

impl ExecutionView {
    /// The execution of a plan before anything was asked.
    pub open spec fn started(plan: CleanupPlanView, authorization: ExecutionAuthorizationKind) -> ExecutionView {
        ExecutionView { plan, authorization, account: None, items: Seq::empty(), unchanged: false }
    }

    /// The artifact that is carried out now.
    pub open spec fn current(self) -> ArtifactView {
        self.plan.targets[self.items.len() as int].artifact
    }

    pub open spec fn step(self) -> ExecutionStep {
        if self.account is None {
            ExecutionStep::Account
        } else if self.items.len() >= self.plan.targets.len() {
            ExecutionStep::Finished
        } else if self.unchanged {
            ExecutionStep::Delete
        } else {
            ExecutionStep::LookUp
        }
    }

    pub open spec fn with_item(self, item: ExecutionItemView) -> ExecutionView {
        ExecutionView { items: self.items.push(item), unchanged: false, ..self }
    }

    /// After a lookup: only an artifact that is as planned goes on to deletion.
    pub open spec fn after_lookup(self, found: Answer<ArtifactView>) -> ExecutionView {
        let planned = self.current();
        match found {
            Answer::Found(current) => if current == planned {
                ExecutionView { unchanged: true, ..self }
            } else {
                self.with_item(
                    outcome(planned, ExecutionState::Changed, changed(planned, current), Some(current), None),
                )
            },
            Answer::Absent => self.with_item(
                outcome(planned, ExecutionState::AlreadyAbsent, Seq::empty(), None, None),
            ),
            Answer::Failed(message) => self.with_item(
                outcome(planned, ExecutionState::RevalidationFailed, Seq::empty(), None, Some(message)),
            ),
        }
    }

    /// After a deletion.
    pub open spec fn after_removal(self, removed: Removal) -> ExecutionView {
        let planned = self.current();
        self.with_item(
            match removed {
                Removal::Deleted => outcome(planned, ExecutionState::Deleted, Seq::empty(), None, None),
                Removal::Absent => outcome(planned, ExecutionState::AlreadyAbsent, Seq::empty(), None, None),
                Removal::Failed(message) => outcome(
                    planned,
                    ExecutionState::DeleteFailed,
                    Seq::empty(),
                    None,
                    Some(message),
                ),
            },
        )
    }

    /// The account is the planned one, and each item is what became of the target in its place.
    pub open spec fn in_step(self) -> bool {
        &&& self.account is Some ==> self.account == Some(self.plan.account)
        &&& self.account is None ==> self.items.len() == 0 && !self.unchanged
        &&& self.items.len() <= self.plan.targets.len()
        &&& forall|i: int|
            0 <= i < self.items.len() ==> (#[trigger] self.items[i]).artifact_id
                == self.plan.targets[i].artifact.id && self.items[i].repository
                == self.plan.targets[i].artifact.repository.full_name
    }
}

/// An artifact is deleted only right after the provider showed it exactly as it was planned,
/// and is reported deleted only where the provider said so.
pub proof fn only_unchanged_artifacts_are_deleted(execution: ExecutionView, found: Answer<ArtifactView>, removed: Removal)
    requires
        execution.step() == ExecutionStep::LookUp,
    ensures
        execution.after_lookup(found).step() == ExecutionStep::Delete ==> found == Answer::Found(
            execution.current(),
        ),
        found == Answer::Found(execution.current()) ==> execution.after_lookup(found).step()
            == ExecutionStep::Delete,
        execution.after_lookup(found).step() != ExecutionStep::Delete
            ==> execution.after_lookup(found).items.last().state != ExecutionState::Deleted,
{
}

/// Every answer is recorded for the target in its place, and for no other; each target is deleted
/// once at most; the plan, the permission and the account stay what they were.
pub proof fn an_execution_keeps_step(execution: ExecutionView, found: Answer<ArtifactView>, removed: Removal)
    requires
        execution.in_step(),
    ensures
        execution.step() == ExecutionStep::LookUp ==> {
            let after = execution.after_lookup(found);
            &&& after.in_step()
            &&& after.plan == execution.plan
            &&& after.authorization == execution.authorization
            &&& after.account == execution.account
        },
        execution.step() == ExecutionStep::Delete ==> {
            let after = execution.after_removal(removed);
            &&& after.in_step()
            &&& after.plan == execution.plan
            &&& after.authorization == execution.authorization
            &&& after.account == execution.account
            &&& after.items.len() == execution.items.len() + 1
            &&& after.step() != ExecutionStep::Delete
            &&& after.items.last().state == ExecutionState::Deleted <==> removed is Deleted
        },
{
}

/// Nothing is looked up or deleted before the account is known to be the planned one, and an
/// execution ends with one item for each target.
pub proof fn an_execution_is_of_the_planned_account(execution: ExecutionView)
    requires
        execution.in_step(),
    ensures
        execution.step() != ExecutionStep::Account ==> execution.account == Some(execution.plan.account),
        execution.step() == ExecutionStep::Finished ==> execution.items.len() == execution.plan.targets.len(),
{
}

impl<'a> ExecutionService<'a> {
    /// Starts the execution of a plan that a review of it allows, by the permission that was
    /// given.
    pub fn new(plan: &'a CleanupPlan, reviewed: &RevalidationReport, authorization: ExecutionAuthorization) -> (result:
        Result<Self, ExecutionError>)
        ensures
            match review_problem(plan.deep_view(), reviewed.deep_view()) {
                Some(problem) => result is Err && result->Err_0.deep_view() == problem,
                None => {
                    &&& result is Ok
                    &&& result->Ok_0.deep_view() == ExecutionView::started(
                        plan.deep_view(),
                        authorization.granted(),
                    )
                    &&& result->Ok_0.deep_view().in_step()
                },
            },
    {
        match validate_review(plan, reviewed) {
            Ok(()) => {},
            Err(error) => {
                return Err(error);
            },
        }
        Ok(ExecutionService { plan, authorization, account: None, items: nothing(), unchanged: false })
    }

    /// What is asked of the provider next.
    pub fn next(&self) -> (result: ExecutionStep)
        ensures
            result == self.deep_view().step(),
    {
        if self.account.is_none() {
            ExecutionStep::Account
        } else if self.items.len() >= self.plan.targets().len() {
            ExecutionStep::Finished
        } else if self.unchanged {
            ExecutionStep::Delete
        } else {
            ExecutionStep::LookUp
        }
    }

    /// Takes the account that the provider answers with; one that is not the planned one is
    /// refused.
    pub fn account_answered(&mut self, account: Result<Account, ProviderError>) -> (result: Result<(), ExecutionError>)
        requires
            old(self).deep_view().step() == ExecutionStep::Account,
        ensures
            match account_problem(old(self).deep_view().plan.account, account) {
                Some(problem) => {
                    &&& result is Err
                    &&& result->Err_0.deep_view() == problem
                    &&& final(self).deep_view() == old(self).deep_view()
                },
                None => {
                    &&& result is Ok
                    &&& final(self).deep_view() == (ExecutionView {
                        account: Some(old(self).deep_view().plan.account),
                        ..old(self).deep_view()
                    })
                },
            },
            old(self).deep_view().in_step() ==> final(self).deep_view().in_step(),
    {
        let current = match account {
            Ok(current) => current,
            Err(error) => {
                return Err(ExecutionError::Provider(error));
            },
        };
        match ensure_same_account(self.plan.account(), &current) {
            Ok(()) => {
                self.account = Some(current);
                Ok(())
            },
            Err(error) => Err(ExecutionError::Revalidation(error)),
        }
    }

    /// The artifact that is carried out now.
    pub fn current(&self) -> (result: &Artifact)
        requires
            self.deep_view().step() == ExecutionStep::LookUp || self.deep_view().step() == ExecutionStep::Delete,
        ensures
            result.deep_view() == self.deep_view().current(),
    {
        let target = &self.plan.targets()[self.items.len()];
        assert(target.deep_view() == self.deep_view().plan.targets[self.deep_view().items.len() as int]);
        target.artifact()
    }

    /// Takes what the provider says of the artifact.
    pub fn looked_up(&mut self, lookup: Result<Option<Artifact>, ProviderError>)
        requires
            old(self).deep_view().step() == ExecutionStep::LookUp,
        ensures
            final(self).deep_view() == old(self).deep_view().after_lookup(answer(lookup)),
            old(self).deep_view().in_step() ==> final(self).deep_view().in_step(),
    {
        let plan = self.plan;
        let target = &plan.targets()[self.items.len()];
        assert(target.deep_view() == self.deep_view().plan.targets[self.deep_view().items.len() as int]);
        let planned = target.artifact();
        let item = match lookup {
            Ok(Some(current)) => {
                let fields = changed_fields(planned, &current);
                proof {
                    crate::revalidation::no_field_differs_between_equal_artifacts(
                        planned.deep_view(),
                        current.deep_view(),
                    );
                    assert(fields.deep_view().len() == fields.len());
                }
                if fields.len() == 0 {
                    self.unchanged = true;
                    return ;
                }
                execution_item(planned, ExecutionState::Changed, fields, Some(current), None)
            },
            Ok(None) | Err(ProviderError::NotFound(_)) => execution_item(
                planned,
                ExecutionState::AlreadyAbsent,
                nothing(),
                None,
                None,
            ),
            Err(error) => execution_item(
                planned,
                ExecutionState::RevalidationFailed,
                nothing(),
                None,
                Some(error.message()),
            ),
        };
        add_to(&mut self.items, item);
    }

    /// Takes what the provider says of the deletion.
    pub fn removed(&mut self, result: Result<DeleteOutcome, ProviderError>)
        requires
            old(self).deep_view().step() == ExecutionStep::Delete,
        ensures
            final(self).deep_view() == old(self).deep_view().after_removal(removal(result)),
            old(self).deep_view().in_step() ==> final(self).deep_view().in_step(),
    {
        let plan = self.plan;
        let target = &plan.targets()[self.items.len()];
        assert(target.deep_view() == self.deep_view().plan.targets[self.deep_view().items.len() as int]);
        let planned = target.artifact();
        let item = match result {
            Ok(DeleteOutcome::Deleted) => execution_item(planned, ExecutionState::Deleted, nothing(), None, None),
            Ok(DeleteOutcome::AlreadyAbsent) | Err(ProviderError::NotFound(_)) => execution_item(
                planned,
                ExecutionState::AlreadyAbsent,
                nothing(),
                None,
                None,
            ),
            Err(error) => execution_item(
                planned,
                ExecutionState::DeleteFailed,
                nothing(),
                None,
                Some(error.message()),
            ),
        };
        add_to(&mut self.items, item);
        self.unchanged = false;
    }

    /// The report of what became of the plan, once every target was carried out.
    pub fn report(self, telemetry: ProviderTelemetry, started_at: Timestamp, completed_at: Timestamp) -> (result:
        ExecutionReport)
        requires
            self.deep_view().step() == ExecutionStep::Finished,
        ensures
            result.deep_view() == (ExecutionReportView {
                started_at,
                completed_at,
                account: self.deep_view().account->0,
                plan_created_at: self.deep_view().plan.created_at,
                plan_scanned_at: self.deep_view().plan.scanned_at,
                policy_hash: self.deep_view().plan.policy_hash,
                authorization: self.deep_view().authorization,
                telemetry: telemetry.deep_view(),
                items: self.deep_view().items,
            }),
            self.deep_view().in_step() ==> result.deep_view().items.len() == self.deep_view().plan.targets.len(),
    {
        ExecutionReport {
            started_at,
            completed_at,
            account: self.account.unwrap(),
            plan_created_at: self.plan.created_at(),
            plan_scanned_at: self.plan.scanned_at(),
            policy_hash: self.plan.policy_hash().to_owned(),
            authorization: self.authorization.kind(),
            telemetry,
            items: self.items,
        }
    }
}

/// The states of the items.
pub open spec fn outcomes(items: Seq<ExecutionItemView>) -> Seq<ExecutionState> {
    Seq::new(items.len(), |i: int| items[i].state)
}

/// The storage that the deleted artifacts took up.
pub open spec fn reclaimed(items: Seq<ExecutionItemView>) -> nat
    decreases items.len(),
{
    if items.len() == 0 {
        0
    } else {
        reclaimed(items.drop_last()) + if items.last().state == ExecutionState::Deleted {
            items.last().planned_size_in_bytes as nat
        } else {
            0nat
        }
    }
}

impl ExecutionReport {
    /// How many items are in a state.
    pub fn count(&self, state: ExecutionState) -> (result: usize)
        ensures
            result == occurrences(outcomes(self.deep_view().items), state),
    {
        let ghost all = outcomes(self.items.deep_view());
        let mut labels: Vec<ExecutionState> = nothing();
        let mut i: usize = 0;
        while i < self.items.len()
            invariant
                i <= self.items.len(),
                all == outcomes(self.items.deep_view()),
                labels.deep_view() == all.take(i as int),
            decreases self.items.len() - i,
        {
            add_to(&mut labels, self.items[i].state);
            i = i + 1;
            assert(labels.deep_view() =~= all.take(i as int));
        }
        assert(all.take(i as int) =~= all);
        count_of(&labels, &state)
    }

    pub fn target_count(&self) -> (result: usize)
        ensures
            result == self.deep_view().items.len(),
    {
        self.items.len()
    }

    /// The storage that the deleted artifacts took up, or the largest `u64` where it was more.
    pub fn reclaimed_bytes(&self) -> (result: u64)
        ensures
            result == capped(reclaimed(self.deep_view().items)),
    {
        let ghost all = self.items.deep_view();
        let mut bytes: u64 = 0;
        let mut i: usize = 0;
        assert(all.take(0) =~= Seq::empty());
        while i < self.items.len()
            invariant
                i <= self.items.len(),
                all == self.items.deep_view(),
                bytes == capped(reclaimed(all.take(i as int))),
            decreases self.items.len() - i,
        {
            assert(all.take(i + 1).drop_last() =~= all.take(i as int));
            assert(all.take(i + 1).last() == self.items@[i as int].deep_view());
            if self.items[i].state == ExecutionState::Deleted {
                bytes = bytes.saturating_add(self.items[i].planned_size_in_bytes);
            }
            i = i + 1;
        }
        assert(all.take(i as int) =~= all);
        bytes
    }

    /// Whether every artifact is gone.
    pub fn is_complete_success(&self) -> (result: bool)
        ensures
            result == forall|i: int|
                0 <= i < self.deep_view().items.len() ==> (#[trigger] self.deep_view().items[i]).state
                    == ExecutionState::Deleted || self.deep_view().items[i].state == ExecutionState::AlreadyAbsent,
    {
        let ghost all = self.items.deep_view();
        let mut i: usize = 0;
        while i < self.items.len()
            invariant
                i <= self.items.len(),
                all == self.items.deep_view(),
                forall|k: int|
                    0 <= k < i ==> (#[trigger] all[k]).state == ExecutionState::Deleted || all[k].state
                        == ExecutionState::AlreadyAbsent,
            decreases self.items.len() - i,
        {
            assert(all[i as int].state == self.items@[i as int].state);
            match self.items[i].state {
                ExecutionState::Deleted | ExecutionState::AlreadyAbsent => {},
                _ => {
                    assert(self.deep_view().items[i as int].state == all[i as int].state);
                    return false;
                },
            }
            i = i + 1;
        }
        true
    }
}

/// A review lets a plan be carried out exactly where it is of this plan, looked at each of its
/// targets in turn, and found each unchanged or gone.
pub proof fn a_safe_review_of_the_plan_is_enough(plan: CleanupPlanView, review: RevalidationReportView)
    ensures
        review_problem(plan, review) is None <==> {
            &&& review.plan_created_at == plan.created_at
            &&& review.plan_scanned_at == plan.scanned_at
            &&& review.policy_hash == plan.policy_hash
            &&& review.items.len() == plan.targets.len()
            &&& forall|i: int|
                0 <= i < plan.targets.len() ==> (#[trigger] review.items[i]).artifact_id == plan.targets[i].artifact.id
                    && review.items[i].repository == plan.targets[i].artifact.repository.full_name && (
                review.items[i].state == RevalidationState::Unchanged || review.items[i].state
                    == RevalidationState::AlreadyAbsent)
        },
{
    if review_problem(plan, review) is None {
        lemma_reviewed(plan.targets, review.items, 0);
    }
    if review.items.len() == plan.targets.len() && (forall|i: int|
        0 <= i < plan.targets.len() ==> (#[trigger] review.items[i]).artifact_id == plan.targets[i].artifact.id
            && review.items[i].repository == plan.targets[i].artifact.repository.full_name && (review.items[i].state
            == RevalidationState::Unchanged || review.items[i].state == RevalidationState::AlreadyAbsent)) {
        lemma_all_reviewed(plan.targets, review.items, 0);
        assert(all_safe(review.items));
    }
}

proof fn lemma_all_reviewed(targets: Seq<CleanupTargetView>, items: Seq<RevalidationItemView>, from: int)
    requires
        0 <= from <= targets.len(),
        targets.len() == items.len(),
        forall|i: int|
            0 <= i < targets.len() ==> (#[trigger] items[i]).artifact_id == targets[i].artifact.id && items[i].repository
                == targets[i].artifact.repository.full_name,
    ensures
        unreviewed(targets, items, from) is None,
    decreases targets.len() - from,
{
    if from < targets.len() {
        assert(items[from].artifact_id == targets[from].artifact.id);
        lemma_all_reviewed(targets, items, from + 1);
    }
}

/// After a lookup an artifact that the provider shows exactly as planned is deleted next. One that
/// it shows otherwise, does not show, or cannot speak of is left alone and reported so.
pub proof fn what_is_not_as_planned_is_left_alone(execution: ExecutionView, found: Answer<ArtifactView>)
    requires
        execution.step() == ExecutionStep::LookUp,
    ensures
        ({
            let planned = execution.plan.targets[execution.items.len() as int].artifact;
            let after = execution.after_lookup(found);
            &&& found == Answer::Found(planned) ==> after.step() == ExecutionStep::Delete && after.items
                == execution.items && after.current() == planned
            &&& found != Answer::Found(planned) ==> {
                let item = after.items.last();
                &&& after.items.len() == execution.items.len() + 1
                &&& after.items.drop_last() == execution.items
                &&& item.artifact_id == planned.id
                &&& item.repository == planned.repository.full_name
                &&& item.artifact_name == planned.name
                &&& item.planned_size_in_bytes == planned.size_in_bytes
                &&& item.state == ExecutionState::Changed <==> found is Found
                &&& item.state == ExecutionState::AlreadyAbsent <==> found is Absent
                &&& item.state == ExecutionState::RevalidationFailed <==> found is Failed
                &&& found is Found ==> item.current == Some(found->Found_0) && item.changed_fields == changed(
                    planned,
                    found->Found_0,
                )
                &&& found !is Found ==> item.current is None && item.changed_fields.len() == 0
                &&& found is Failed ==> item.error == Some(found->Failed_0)
                &&& found !is Failed ==> item.error is None
            }
        }),
{
    let after = execution.after_lookup(found);
    assert(after.items.len() > execution.items.len() ==> after.items.drop_last() =~= execution.items);
}

/// After a deletion the report says what the provider said of it.
pub proof fn a_deletion_is_reported_as_it_went(execution: ExecutionView, removed: Removal)
    requires
        execution.step() == ExecutionStep::Delete,
    ensures
        ({
            let planned = execution.plan.targets[execution.items.len() as int].artifact;
            let after = execution.after_removal(removed);
            let item = after.items.last();
            &&& after.items.drop_last() == execution.items
            &&& item.artifact_id == planned.id
            &&& item.repository == planned.repository.full_name
            &&& item.artifact_name == planned.name
            &&& item.planned_size_in_bytes == planned.size_in_bytes
            &&& item.state == ExecutionState::Deleted <==> removed is Deleted
            &&& item.state == ExecutionState::AlreadyAbsent <==> removed is Absent
            &&& item.state == ExecutionState::DeleteFailed <==> removed is Failed
            &&& removed is Failed ==> item.error == Some(removed->Failed_0)
            &&& removed !is Failed ==> item.error is None
            &&& after.step() == ExecutionStep::Finished <==> execution.items.len() + 1 == execution.plan.targets.len()
            &&& after.step() == ExecutionStep::LookUp <==> execution.items.len() + 1 < execution.plan.targets.len()
        }),
{
    assert(execution.after_removal(removed).items.drop_last() =~= execution.items);
}

/// An execution starts with the account, and goes on only with the very account that the plan is of.
pub proof fn an_execution_starts_with_the_account(
    plan: CleanupPlanView,
    authorization: ExecutionAuthorizationKind,
    account: Result<Account, ProviderError>,
)
    ensures
        ExecutionView::started(plan, authorization).step() == ExecutionStep::Account,
        ExecutionView::started(plan, authorization).authorization == authorization,
        ExecutionView::started(plan, authorization).items.len() == 0,
        account_problem(plan.account, account) is None <==> account is Ok && account->Ok_0.deep_view() == plan.account,
{
}

/// What an execution freed is what the deleted artifacts took up, and nothing else counts.
pub proof fn only_deletions_free_storage(items: Seq<ExecutionItemView>)
    ensures
        reclaimed(items) == sum_by(
            items,
            |item: ExecutionItemView|
                if item.state == ExecutionState::Deleted {
                    item.planned_size_in_bytes as nat
                } else {
                    0
                },
        ),
    decreases items.len(),
{
    if items.len() > 0 {
        only_deletions_free_storage(items.drop_last());
    }
}

proof fn lemma_state_tally(items: Seq<RevalidationItemView>, state: RevalidationState)
    ensures
        occurrences(states(items), state) == tally(items, |item: RevalidationItemView| item.state == state),
    decreases items.len(),
{
    if items.len() > 0 {
        lemma_state_tally(items.drop_last(), state);
        assert(states(items).drop_last() =~= states(items.drop_last()));
        assert(states(items).last() == items.last().state);
    }
}

/// Where a review of the plan stands in the way of it, the error says how many targets changed and how
/// many could not be reviewed.
pub proof fn an_unsafe_review_is_counted(plan: CleanupPlanView, review: RevalidationReportView)
    requires
        review.items.len() <= usize::MAX,
    ensures
        review_problem(plan, review) matches Some(ExecutionErrorView::UnsafeReviewedReport { changed, failed }) ==> {
            &&& changed == tally(
                review.items,
                |item: RevalidationItemView| item.state == RevalidationState::Changed,
            )
            &&& failed == tally(
                review.items,
                |item: RevalidationItemView| item.state == RevalidationState::RevalidationFailed,
            )
        },
{
    lemma_state_tally(review.items, RevalidationState::Changed);
    lemma_state_tally(review.items, RevalidationState::RevalidationFailed);
    lemma_occurrences_bound(states(review.items), RevalidationState::Changed);
    lemma_occurrences_bound(states(review.items), RevalidationState::RevalidationFailed);
}

/// A review of another plan stands in the way as such.
pub proof fn a_review_of_another_plan_is_refused(plan: CleanupPlanView, review: RevalidationReportView)
    requires
        review.plan_created_at != plan.created_at || review.plan_scanned_at != plan.scanned_at || review.policy_hash
            != plan.policy_hash || review.items.len() != plan.targets.len(),
    ensures
        review_problem(plan, review) matches Some(ExecutionErrorView::ReviewedPlanMismatch(_)),
{
}

} // verus!
