//! The review of a cleanup plan against what the provider shows now.
use crate::cleanup::{CleanupPlan, CleanupPlanView};
use crate::model::{
    Account, AccountView, Artifact, ArtifactView, ProviderError, ProviderErrorView, ProviderTelemetry,
    ProviderTelemetryView,
};
use crate::time::Timestamp;
use crate::totals::{count_of, occurrences};
use crate::value::{add_to, nothing, Value};
use vstd::prelude::*;
use vstd::string::StringExecFns;

verus! {

/// What a review found of a target.
#[derive(Clone, Copy, Debug, PartialEq, Eq, Structural)]
pub enum RevalidationState {
    Unchanged,
    AlreadyAbsent,
    Changed,
    RevalidationFailed,
}

impl DeepView for RevalidationState {
    type V = RevalidationState;

    open spec fn deep_view(&self) -> RevalidationState {
        *self
    }
}

impl Value for RevalidationState {
    fn copied(&self) -> (result: Self) {
        *self
    }

    fn same(&self, other: &Self) -> (result: bool) {
        *self == *other
    }
}

/// A field of an artifact.
#[derive(Clone, Copy, Debug, PartialEq, Eq, Structural)]
pub enum ArtifactField {
    Repository,
    Id,
    Name,
    SizeInBytes,
    CreatedAt,
    UpdatedAt,
    ExpiresAt,
    Expired,
    Digest,
    WorkflowRun,
}

impl DeepView for ArtifactField {
    type V = ArtifactField;

    open spec fn deep_view(&self) -> ArtifactField {
        *self
    }
}

impl Value for ArtifactField {
    fn copied(&self) -> (result: Self) {
        *self
    }

    fn same(&self, other: &Self) -> (result: bool) {
        *self == *other
    }
}

/// What a review found of one artifact.
#[derive(Clone, Debug, PartialEq, Eq)]
pub struct RevalidationItem {
    pub artifact_id: u64,
    pub repository: String,
    pub state: RevalidationState,
    pub changed_fields: Vec<ArtifactField>,
    pub current: Option<Artifact>,
    pub error: Option<String>,
}

/// The contents of [`RevalidationItem`].
#[verifier::ext_equal]
pub struct RevalidationItemView {
    pub artifact_id: u64,
    pub repository: Seq<char>,
    pub state: RevalidationState,
    pub changed_fields: Seq<ArtifactField>,
    pub current: Option<ArtifactView>,
    pub error: Option<Seq<char>>,
}

impl DeepView for RevalidationItem {
    type V = RevalidationItemView;

    open spec fn deep_view(&self) -> RevalidationItemView {
        RevalidationItemView {
            artifact_id: self.artifact_id,
            repository: self.repository.deep_view(),
            state: self.state,
            changed_fields: self.changed_fields.deep_view(),
            current: self.current.deep_view(),
            error: self.error.deep_view(),
        }
    }
}

/// The review of a plan.
#[derive(Clone, Debug, PartialEq, Eq)]
pub struct RevalidationReport {
    pub checked_at: Timestamp,
    pub plan_created_at: Timestamp,
    pub plan_scanned_at: Timestamp,
    pub policy_hash: String,
    pub telemetry: ProviderTelemetry,
    pub items: Vec<RevalidationItem>,
}

/// The contents of [`RevalidationReport`].
#[verifier::ext_equal]
pub struct RevalidationReportView {
    pub checked_at: Timestamp,
    pub plan_created_at: Timestamp,
    pub plan_scanned_at: Timestamp,
    pub policy_hash: Seq<char>,
    pub telemetry: ProviderTelemetryView,
    pub items: Seq<RevalidationItemView>,
}

impl DeepView for RevalidationReport {
    type V = RevalidationReportView;

    open spec fn deep_view(&self) -> RevalidationReportView {
        RevalidationReportView {
            checked_at: self.checked_at,
            plan_created_at: self.plan_created_at,
            plan_scanned_at: self.plan_scanned_at,
            policy_hash: self.policy_hash.deep_view(),
            telemetry: self.telemetry.deep_view(),
            items: self.items.deep_view(),
        }
    }
}

/// Why a plan is not reviewed.
#[derive(Clone, Debug, PartialEq, Eq)]
pub enum RevalidationError {
    Provider(ProviderError),
    AccountMismatch { planned_provider: String, planned_login: String, current_provider: String, current_login: String },
}

/// The contents of [`RevalidationError`].
#[verifier::ext_equal]
pub enum RevalidationErrorView {
    Provider(ProviderErrorView),
    AccountMismatch { planned_provider: Seq<char>, planned_login: Seq<char>, current_provider: Seq<char>, current_login: Seq<char> },
}

impl DeepView for RevalidationError {
    type V = RevalidationErrorView;

    open spec fn deep_view(&self) -> RevalidationErrorView {
        match self {
            RevalidationError::Provider(field0) => RevalidationErrorView::Provider(field0.deep_view()),
            RevalidationError::AccountMismatch { planned_provider, planned_login, current_provider, current_login } => RevalidationErrorView::AccountMismatch { planned_provider: planned_provider.deep_view(), planned_login: planned_login.deep_view(), current_provider: current_provider.deep_view(), current_login: current_login.deep_view() },
        }
    }
}

impl RevalidationErrorView {
    /// The error in words.
    pub open spec fn text(self) -> Seq<char> {
        match self {
            RevalidationErrorView::Provider(field0) => field0.text(),
            RevalidationErrorView::AccountMismatch { planned_provider, planned_login, current_provider, current_login } => "cleanup plan account mismatch: planned "@ + planned_provider + ":"@ + planned_login + ", current "@ + current_provider + ":"@ + current_login,
        }
    }
}

impl RevalidationError {
    /// The error in words.
    pub fn message(&self) -> (result: String)
        ensures
            result@ == self.deep_view().text(),
    {
        match self {
            RevalidationError::Provider(field0) => field0.message(),
            RevalidationError::AccountMismatch { planned_provider, planned_login, current_provider, current_login } => {
                let mut text = "cleanup plan account mismatch: planned ".to_owned();
                text.append(planned_provider.as_str());
                text.append(":");
                text.append(planned_login.as_str());
                text.append(", current ");
                text.append(current_provider.as_str());
                text.append(":");
                text.append(current_login.as_str());
                text
            },
        }
    }
}

/// `field`, where it differs.
pub open spec fn picked(differs: bool, field: ArtifactField) -> Seq<ArtifactField> {
    if differs {
        seq![field]
    } else {
        Seq::empty()
    }
}

/// The fields in which two artifacts differ.
pub open spec fn changed(planned: ArtifactView, current: ArtifactView) -> Seq<ArtifactField> {
    picked(planned.repository != current.repository, ArtifactField::Repository) + picked(
        planned.id != current.id,
        ArtifactField::Id,
    ) + picked(planned.name != current.name, ArtifactField::Name) + picked(
        planned.size_in_bytes != current.size_in_bytes,
        ArtifactField::SizeInBytes,
    ) + picked(planned.created_at != current.created_at, ArtifactField::CreatedAt) + picked(
        planned.updated_at != current.updated_at,
        ArtifactField::UpdatedAt,
    ) + picked(planned.expires_at != current.expires_at, ArtifactField::ExpiresAt) + picked(
        planned.expired != current.expired,
        ArtifactField::Expired,
    ) + picked(planned.digest != current.digest, ArtifactField::Digest) + picked(
        planned.workflow_run != current.workflow_run,
        ArtifactField::WorkflowRun,
    )
}

/// Two artifacts are equal where no field differs.
pub proof fn no_field_differs_between_equal_artifacts(planned: ArtifactView, current: ArtifactView)
    ensures
        changed(planned, current).len() == 0 <==> planned == current,
{
}

fn note(fields: &mut Vec<ArtifactField>, differs: bool, field: ArtifactField)
    ensures
        final(fields).deep_view() == old(fields).deep_view() + picked(differs, field),
{
    if differs {
        add_to(fields, field);
        assert(fields.deep_view() =~= old(fields).deep_view() + picked(differs, field));
    } else {
        assert(fields.deep_view() =~= old(fields).deep_view() + picked(differs, field));
    }
}

/// The fields in which two artifacts differ.
pub fn changed_fields(planned: &Artifact, current: &Artifact) -> (result: Vec<ArtifactField>)
    ensures
        result.deep_view() == changed(planned.deep_view(), current.deep_view()),
{
    let mut fields: Vec<ArtifactField> = nothing();
    note(&mut fields, !planned.repository.same(&current.repository), ArtifactField::Repository);
    note(&mut fields, planned.id != current.id, ArtifactField::Id);
    note(&mut fields, !planned.name.same(&current.name), ArtifactField::Name);
    note(&mut fields, planned.size_in_bytes != current.size_in_bytes, ArtifactField::SizeInBytes);
    note(&mut fields, planned.created_at != current.created_at, ArtifactField::CreatedAt);
    note(&mut fields, planned.updated_at != current.updated_at, ArtifactField::UpdatedAt);
    note(&mut fields, !planned.expires_at.same(&current.expires_at), ArtifactField::ExpiresAt);
    note(&mut fields, planned.expired != current.expired, ArtifactField::Expired);
    note(&mut fields, !planned.digest.same(&current.digest), ArtifactField::Digest);
    note(&mut fields, !planned.workflow_run.same(&current.workflow_run), ArtifactField::WorkflowRun);
    assert(fields.deep_view() =~= changed(planned.deep_view(), current.deep_view()));
    fields
}

/// Why another account than the planned one is refused.
pub open spec fn other_account(planned: AccountView, current: AccountView) -> RevalidationErrorView {
    RevalidationErrorView::AccountMismatch {
        planned_provider: planned.provider,
        planned_login: planned.login,
        current_provider: current.provider,
        current_login: current.login,
    }
}

/// Why the account that a provider answers with is refused.
pub open spec fn account_problem(planned: AccountView, account: Result<Account, ProviderError>) -> Option<
    RevalidationErrorView,
> {
    match account {
        Err(error) => Some(RevalidationErrorView::Provider(error.deep_view())),
        Ok(current) => if current.deep_view() == planned {
            None
        } else {
            Some(other_account(planned, current.deep_view()))
        },
    }
}

/// Refuses to go on with another account.
pub fn ensure_same_account(planned: &Account, current: &Account) -> (result: Result<(), RevalidationError>)
    ensures
        result is Ok <==> planned.deep_view() == current.deep_view(),
        result matches Err(error) ==> error.deep_view() == other_account(planned.deep_view(), current.deep_view()),
{
    if planned.same(current) {
        return Ok(());
    }
    Err(
        RevalidationError::AccountMismatch {
            planned_provider: planned.provider.copied(),
            planned_login: planned.login.copied(),
            current_provider: current.provider.copied(),
            current_login: current.login.copied(),
        },
    )
}

/// What a review finds of an artifact.
pub open spec fn finding(planned: ArtifactView, lookup: Result<Option<Artifact>, ProviderError>) -> RevalidationItemView {
    let plain = RevalidationItemView {
        artifact_id: planned.id,
        repository: planned.repository.full_name,
        state: RevalidationState::Unchanged,
        changed_fields: Seq::empty(),
        current: None,
        error: None,
    };
    match lookup {
        Ok(Some(current)) => if current.deep_view() == planned {
            plain
        } else {
            RevalidationItemView {
                state: RevalidationState::Changed,
                changed_fields: changed(planned, current.deep_view()),
                current: Some(current.deep_view()),
                ..plain
            }
        },
        Ok(None) => RevalidationItemView { state: RevalidationState::AlreadyAbsent, ..plain },
        Err(error) => RevalidationItemView {
            state: RevalidationState::RevalidationFailed,
            error: Some(error.text()),
            ..plain
        },
    }
}

/// What a review finds of an artifact.
pub fn find(planned: &Artifact, lookup: Result<Option<Artifact>, ProviderError>) -> (result: RevalidationItem)
    ensures
        result.deep_view() == finding(planned.deep_view(), lookup),
{
    let mut item = RevalidationItem {
        artifact_id: planned.id,
        repository: planned.repository.full_name.copied(),
        state: RevalidationState::Unchanged,
        changed_fields: nothing(),
        current: None,
        error: None,
    };
    match lookup {
        Ok(Some(current)) => {
            let fields = changed_fields(planned, &current);
            proof {
                no_field_differs_between_equal_artifacts(planned.deep_view(), current.deep_view());
                assert(fields.deep_view().len() == fields.len());
            }
            if fields.len() > 0 {
                item.state = RevalidationState::Changed;
                item.changed_fields = fields;
                item.current = Some(current);
            }
        },
        Ok(None) => {
            item.state = RevalidationState::AlreadyAbsent;
        },
        Err(error) => {
            item.state = RevalidationState::RevalidationFailed;
            item.error = Some(error.message());
        },
    }
    item
}

/// What a review asks of the provider next.
#[derive(Clone, Copy, Debug, PartialEq, Eq, Structural)]
pub enum RevalidationStep {
    Account,
    LookUp,
    Finished,
}

/// The review of a plan: once the account is known to be the planned one, each artifact is
/// looked up. Nothing is deleted.
pub struct RevalidationService<'a> {
    plan: &'a CleanupPlan,
    account: Option<Account>,
    items: Vec<RevalidationItem>,
}

/// The contents of [`RevalidationService`].
#[verifier::ext_equal]
pub struct RevalidationView {
    pub plan: CleanupPlanView,
    pub account: Option<AccountView>,
    pub items: Seq<RevalidationItemView>,
}

impl<'a> DeepView for RevalidationService<'a> {
    type V = RevalidationView;

    closed spec fn deep_view(&self) -> RevalidationView {
        RevalidationView {
            plan: self.plan.deep_view(),
            account: self.account.deep_view(),
            items: self.items.deep_view(),
        }
    }
}

impl RevalidationView {
    /// The review of a plan before anything was asked.
    pub open spec fn started(plan: CleanupPlanView) -> RevalidationView {
        RevalidationView { plan, account: None, items: Seq::empty() }
    }

    pub open spec fn step(self) -> RevalidationStep {
        if self.account is None {
            RevalidationStep::Account
        } else if self.items.len() >= self.plan.targets.len() {
            RevalidationStep::Finished
        } else {
            RevalidationStep::LookUp
        }
    }

    /// The artifact that is reviewed now.
    pub open spec fn current(self) -> ArtifactView {
        self.plan.targets[self.items.len() as int].artifact
    }

    /// After a lookup.
    pub open spec fn after_lookup(self, lookup: Result<Option<Artifact>, ProviderError>) -> RevalidationView {
        RevalidationView { items: self.items.push(finding(self.current(), lookup)), ..self }
    }

    /// The account is the planned one, and each finding is about the target in its place.
    pub open spec fn in_step(self) -> bool {
        &&& self.account is Some ==> self.account == Some(self.plan.account)
        &&& self.account is None ==> self.items.len() == 0
        &&& self.items.len() <= self.plan.targets.len()
        &&& forall|i: int|
            0 <= i < self.items.len() ==> (#[trigger] self.items[i]).artifact_id
                == self.plan.targets[i].artifact.id && self.items[i].repository
                == self.plan.targets[i].artifact.repository.full_name
    }
}

/// A review looks no artifact up before the account is known to be the planned one, and it ends
/// with one finding for each target.
pub proof fn a_review_is_of_the_planned_account(review: RevalidationView)
    requires
        review.in_step(),
    ensures
        review.step() != RevalidationStep::Account ==> review.account == Some(review.plan.account),
        review.step() == RevalidationStep::Finished ==> review.items.len() == review.plan.targets.len(),
{
}

impl<'a> RevalidationService<'a> {
    /// Starts the review of a plan.
    pub fn new(plan: &'a CleanupPlan) -> (result: Self)
        ensures
            result.deep_view() == RevalidationView::started(plan.deep_view()),
            result.deep_view().in_step(),
    {
        RevalidationService { plan, account: None, items: nothing() }
    }

    /// What is asked of the provider next.
    pub fn next(&self) -> (result: RevalidationStep)
        ensures
            result == self.deep_view().step(),
    {
        if self.account.is_none() {
            RevalidationStep::Account
        } else if self.items.len() >= self.plan.targets().len() {
            RevalidationStep::Finished
        } else {
            RevalidationStep::LookUp
        }
    }

    /// Takes the account that the provider answers with; one that is not the planned one is
    /// refused.
    pub fn account_answered(&mut self, account: Result<Account, ProviderError>) -> (result: Result<
        (),
        RevalidationError,
    >)
        requires
            old(self).deep_view().step() == RevalidationStep::Account,
        ensures
            match account_problem(old(self).deep_view().plan.account, account) {
                Some(problem) => {
                    &&& result is Err
                    &&& result->Err_0.deep_view() == problem
                    &&& final(self).deep_view() == old(self).deep_view()
                },
                None => {
                    &&& result is Ok
                    &&& final(self).deep_view() == (RevalidationView {
                        account: Some(old(self).deep_view().plan.account),
                        ..old(self).deep_view()
                    })
                },
            },
            old(self).deep_view().in_step() ==> final(self).deep_view().in_step(),
    {
        let current = match account {
            Ok(current) => current,
            Err(error) => {
                return Err(RevalidationError::Provider(error));
            },
        };
        match ensure_same_account(self.plan.account(), &current) {
            Ok(()) => {
                self.account = Some(current);
                Ok(())
            },
            Err(error) => Err(error),
        }
    }

    /// The artifact to look up now.
    pub fn current(&self) -> (result: &Artifact)
        requires
            self.deep_view().step() == RevalidationStep::LookUp,
        ensures
            result.deep_view() == self.deep_view().current(),
    {
        let target = &self.plan.targets()[self.items.len()];
        assert(target.deep_view() == self.deep_view().plan.targets[self.deep_view().items.len() as int]);
        target.artifact()
    }

    /// Takes what the provider says of the artifact.
    pub fn answered(&mut self, lookup: Result<Option<Artifact>, ProviderError>)
        requires
            old(self).deep_view().step() == RevalidationStep::LookUp,
        ensures
            final(self).deep_view() == old(self).deep_view().after_lookup(lookup),
            old(self).deep_view().in_step() ==> final(self).deep_view().in_step(),
    {
        let plan = self.plan;
        let target = &plan.targets()[self.items.len()];
        assert(target.deep_view() == self.deep_view().plan.targets[self.deep_view().items.len() as int]);
        let item = find(target.artifact(), lookup);
        add_to(&mut self.items, item);
    }

    /// The report of the review, once every target was looked at.
    pub fn report(self, checked_at: Timestamp, telemetry: ProviderTelemetry) -> (result: RevalidationReport)
        requires
            self.deep_view().step() == RevalidationStep::Finished,
        ensures
            result.deep_view() == (RevalidationReportView {
                checked_at,
                plan_created_at: self.deep_view().plan.created_at,
                plan_scanned_at: self.deep_view().plan.scanned_at,
                policy_hash: self.deep_view().plan.policy_hash,
                telemetry: telemetry.deep_view(),
                items: self.deep_view().items,
            }),
            self.deep_view().in_step() ==> result.deep_view().items.len() == self.deep_view().plan.targets.len(),
    {
        RevalidationReport {
            checked_at,
            plan_created_at: self.plan.created_at(),
            plan_scanned_at: self.plan.scanned_at(),
            policy_hash: self.plan.policy_hash().to_owned(),
            telemetry,
            items: self.items,
        }
    }
}

/// The states of the items.
pub open spec fn states(items: Seq<RevalidationItemView>) -> Seq<RevalidationState> {
    Seq::new(items.len(), |i: int| items[i].state)
}

/// Whether nothing that a review found stands in the way of the plan.
pub open spec fn all_safe(items: Seq<RevalidationItemView>) -> bool {
    forall|i: int|
        0 <= i < items.len() ==> (#[trigger] items[i]).state == RevalidationState::Unchanged || items[i].state
            == RevalidationState::AlreadyAbsent
}

impl RevalidationReport {
    /// How many items are in a state.
    pub fn count(&self, state: RevalidationState) -> (result: usize)
        ensures
            result == occurrences(states(self.deep_view().items), state),
    {
        let ghost all = states(self.items.deep_view());
        let mut labels: Vec<RevalidationState> = nothing();
        let mut i: usize = 0;
        while i < self.items.len()
            invariant
                i <= self.items.len(),
                all == states(self.items.deep_view()),
                labels.deep_view() == all.take(i as int),
            decreases self.items.len() - i,
        {
            add_to(&mut labels, self.items[i].state);
            i = i + 1;
            assert(labels.deep_view() =~= all.take(i as int));
        }
        assert(all.take(i as int) =~= all);
        count_of(&labels, &state)
    }

    pub fn target_count(&self) -> (result: usize)
        ensures
            result == self.deep_view().items.len(),
    {
        self.items.len()
    }

    /// Whether nothing that the review found stands in the way of the plan.
    pub fn is_safe_to_apply(&self) -> (result: bool)
        ensures
            result == all_safe(self.deep_view().items),
    {
        let ghost all = self.items.deep_view();
        let mut i: usize = 0;
        while i < self.items.len()
            invariant
                i <= self.items.len(),
                all == self.items.deep_view(),
                forall|k: int|
                    0 <= k < i ==> (#[trigger] all[k]).state == RevalidationState::Unchanged || all[k].state
                        == RevalidationState::AlreadyAbsent,
            decreases self.items.len() - i,
        {
            assert(all[i as int].state == self.items@[i as int].state);
            match self.items[i].state {
                RevalidationState::Unchanged | RevalidationState::AlreadyAbsent => {},
                _ => {
                    return false;
                },
            }
            i = i + 1;
        }
        true
    }
}

/// A field is reported changed exactly where the two artifacts differ in it.
pub proof fn each_changed_field_is_reported(planned: ArtifactView, current: ArtifactView, field: ArtifactField)
    ensures
        changed(planned, current).contains(field) <==> match field {
            ArtifactField::Repository => planned.repository != current.repository,
            ArtifactField::Id => planned.id != current.id,
            ArtifactField::Name => planned.name != current.name,
            ArtifactField::SizeInBytes => planned.size_in_bytes != current.size_in_bytes,
            ArtifactField::CreatedAt => planned.created_at != current.created_at,
            ArtifactField::UpdatedAt => planned.updated_at != current.updated_at,
            ArtifactField::ExpiresAt => planned.expires_at != current.expires_at,
            ArtifactField::Expired => planned.expired != current.expired,
            ArtifactField::Digest => planned.digest != current.digest,
            ArtifactField::WorkflowRun => planned.workflow_run != current.workflow_run,
        },
{
    let a = picked(planned.repository != current.repository, ArtifactField::Repository);
    let b = a + picked(planned.id != current.id, ArtifactField::Id);
    let c = b + picked(planned.name != current.name, ArtifactField::Name);
    let d = c + picked(planned.size_in_bytes != current.size_in_bytes, ArtifactField::SizeInBytes);
    let e = d + picked(planned.created_at != current.created_at, ArtifactField::CreatedAt);
    let f = e + picked(planned.updated_at != current.updated_at, ArtifactField::UpdatedAt);
    let g = f + picked(planned.expires_at != current.expires_at, ArtifactField::ExpiresAt);
    let h = g + picked(planned.expired != current.expired, ArtifactField::Expired);
    let k = h + picked(planned.digest != current.digest, ArtifactField::Digest);
    assert(a =~= Seq::empty() + a);
    lemma_one_more_field(Seq::empty(), planned.repository != current.repository, ArtifactField::Repository, field);
    lemma_one_more_field(a, planned.id != current.id, ArtifactField::Id, field);
    lemma_one_more_field(b, planned.name != current.name, ArtifactField::Name, field);
    lemma_one_more_field(c, planned.size_in_bytes != current.size_in_bytes, ArtifactField::SizeInBytes, field);
    lemma_one_more_field(d, planned.created_at != current.created_at, ArtifactField::CreatedAt, field);
    lemma_one_more_field(e, planned.updated_at != current.updated_at, ArtifactField::UpdatedAt, field);
    lemma_one_more_field(f, planned.expires_at != current.expires_at, ArtifactField::ExpiresAt, field);
    lemma_one_more_field(g, planned.expired != current.expired, ArtifactField::Expired, field);
    lemma_one_more_field(h, planned.digest != current.digest, ArtifactField::Digest, field);
    lemma_one_more_field(k, planned.workflow_run != current.workflow_run, ArtifactField::WorkflowRun, field);
}

proof fn lemma_one_more_field(a: Seq<ArtifactField>, differs: bool, of: ArtifactField, field: ArtifactField)
    ensures
        (a + picked(differs, of)).contains(field) <==> a.contains(field) || (differs && field == of),
{
    lemma_in_either(a, picked(differs, of), field);
    if differs {
        assert(picked(differs, of)[0] == of);
    }
}

proof fn lemma_in_either(a: Seq<ArtifactField>, b: Seq<ArtifactField>, field: ArtifactField)
    ensures
        (a + b).contains(field) <==> a.contains(field) || b.contains(field),
{
    let both = a + b;
    if a.contains(field) {
        let i = choose|i: int| 0 <= i < a.len() && a[i] == field;
        assert(both[i] == field);
    }
    if b.contains(field) {
        let i = choose|i: int| 0 <= i < b.len() && b[i] == field;
        assert(both[a.len() + i] == field);
    }
    if both.contains(field) {
        let i = choose|i: int| 0 <= i < both.len() && both[i] == field;
        if i < a.len() {
            assert(a[i] == field);
        } else {
            assert(b[i - a.len()] == field);
        }
    }
}

/// A review says of a target whether the provider shows it exactly as planned, shows it otherwise,
/// does not show it, or could not say. It shows what the provider shows only where that differs.
pub proof fn a_finding_is_what_the_provider_shows(planned: ArtifactView, lookup: Result<Option<Artifact>, ProviderError>)
    ensures
        ({
            let item = finding(planned, lookup);
            &&& item.artifact_id == planned.id
            &&& item.repository == planned.repository.full_name
            &&& item.state == RevalidationState::Unchanged <==> lookup is Ok && lookup->Ok_0 is Some
                && lookup->Ok_0->0.deep_view() == planned
            &&& item.state == RevalidationState::Changed <==> lookup is Ok && lookup->Ok_0 is Some
                && lookup->Ok_0->0.deep_view() != planned
            &&& item.state == RevalidationState::AlreadyAbsent <==> lookup is Ok && lookup->Ok_0 is None
            &&& item.state == RevalidationState::RevalidationFailed <==> lookup is Err
            &&& item.state == RevalidationState::Changed ==> item.current == Some(lookup->Ok_0->0.deep_view())
                && item.changed_fields.len() > 0
            &&& item.state != RevalidationState::Changed ==> item.current is None && item.changed_fields.len() == 0
            &&& lookup is Err ==> item.error == Some(lookup->Err_0.text())
            &&& lookup is Ok ==> item.error is None
        }),
{
    if lookup is Ok && lookup->Ok_0 is Some {
        no_field_differs_between_equal_artifacts(planned, lookup->Ok_0->0.deep_view());
    }
}

/// A review starts with the account. It goes on only with the very account that the plan is of.
pub proof fn a_review_starts_with_the_account(plan: CleanupPlanView, account: Result<Account, ProviderError>)
    ensures
        RevalidationView::started(plan).step() == RevalidationStep::Account,
        account_problem(plan.account, account) is None <==> account is Ok && account->Ok_0.deep_view() == plan.account,
{
}

/// A review takes up the targets in their order, one after the other, and ends after the last.
pub proof fn a_review_takes_each_target_in_turn(
    review: RevalidationView,
    lookup: Result<Option<Artifact>, ProviderError>,
)
    requires
        review.account is Some,
        review.items.len() < review.plan.targets.len(),
    ensures
        review.step() == RevalidationStep::LookUp,
        review.current() == review.plan.targets[review.items.len() as int].artifact,
        ({
            let after = review.after_lookup(lookup);
            &&& after.plan == review.plan
            &&& after.account == review.account
            &&& after.items == review.items.push(
                finding(review.plan.targets[review.items.len() as int].artifact, lookup),
            )
            &&& after.step() == RevalidationStep::Finished <==> review.items.len() + 1 == review.plan.targets.len()
        }),
{
}

} // verus!
