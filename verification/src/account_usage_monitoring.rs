//! Watching the usage of billed accounts: which account to look at next, and whom to alert of
//! what, once.
use crate::account_usage::{
    AccountUsageObservation, AccountUsageObservationView, BillingOwner, BillingOwnerView, BillingPeriod,
};
use crate::allowance::{
    evaluate_usage_quota, quota_evaluation, quota_problem, UsageAllowance, UsageAllowanceError,
    UsageAllowanceErrorView, UsageAllowanceView, UsagePercentageThresholds, UsageQuotaAlertKey, UsageQuotaAlertKeyView,
    UsageQuotaEvaluation, UsageQuotaEvaluationView, UsageQuotaLevel, UsageQuotaStatus, UsageQuotaStatusView, UsageShare,
};
use crate::text::{case_is_disregarded, eq_ignore_ascii_case, equal_but_for_case, same_ignoring_case};
use crate::time::Timestamp;
use crate::value::{add_to, nothing, single, Value};
use vstd::prelude::*;

verus! {

/// Whether an alert went out before.
#[derive(Clone, Copy, Debug, PartialEq, Eq, Structural)]
pub enum UsageQuotaAlertReceiptState {
    Delivered,
    NotDelivered,
    Unknown,
}

impl DeepView for UsageQuotaAlertReceiptState {
    type V = UsageQuotaAlertReceiptState;

    open spec fn deep_view(&self) -> UsageQuotaAlertReceiptState {
        *self
    }
}

impl Value for UsageQuotaAlertReceiptState {
    fn copied(&self) -> (result: Self) {
        *self
    }

    fn same(&self, other: &Self) -> (result: bool) {
        *self == *other
    }
}

/// What is known of an earlier alert.
#[derive(Clone, Debug, PartialEq, Eq)]
pub struct UsageQuotaAlertReceiptLookup {
    pub state: UsageQuotaAlertReceiptState,
    pub issues: Vec<String>,
}

/// The contents of [`UsageQuotaAlertReceiptLookup`].
#[verifier::ext_equal]
pub struct UsageQuotaAlertReceiptLookupView {
    pub state: UsageQuotaAlertReceiptState,
    pub issues: Seq<Seq<char>>,
}

impl DeepView for UsageQuotaAlertReceiptLookup {
    type V = UsageQuotaAlertReceiptLookupView;

    open spec fn deep_view(&self) -> UsageQuotaAlertReceiptLookupView {
        UsageQuotaAlertReceiptLookupView {
            state: self.state,
            issues: self.issues.deep_view(),
        }
    }
}

impl Value for UsageQuotaAlertReceiptLookup {
    fn copied(&self) -> (result: Self) {
        UsageQuotaAlertReceiptLookup {
            state: self.state,
            issues: self.issues.copied(),
        }
    }

    fn same(&self, other: &Self) -> (result: bool) {
        self.state == other.state
            && self.issues.same(&other.issues)
    }
}

/// An alert that is due, unless it went out before.
#[derive(Clone, Debug, PartialEq)]
pub struct UsageQuotaNotificationCandidate {
    pub key: UsageQuotaAlertKey,
    pub evaluation: UsageQuotaEvaluation,
}

/// The contents of [`UsageQuotaNotificationCandidate`].
#[verifier::ext_equal]
pub struct UsageQuotaNotificationCandidateView {
    pub key: UsageQuotaAlertKeyView,
    pub evaluation: UsageQuotaEvaluationView,
}

impl DeepView for UsageQuotaNotificationCandidate {
    type V = UsageQuotaNotificationCandidateView;

    open spec fn deep_view(&self) -> UsageQuotaNotificationCandidateView {
        UsageQuotaNotificationCandidateView {
            key: self.key.deep_view(),
            evaluation: self.evaluation.deep_view(),
        }
    }
}

impl Value for UsageQuotaNotificationCandidate {
    fn copied(&self) -> (result: Self) {
        UsageQuotaNotificationCandidate {
            key: self.key.copied(),
            evaluation: self.evaluation.copied(),
        }
    }

    fn same(&self, other: &Self) -> (result: bool) {
        self.key.same(&other.key)
            && self.evaluation.same(&other.evaluation)
    }
}

/// What became of an alert.
#[derive(Clone, Debug, PartialEq, Eq)]
pub enum UsageQuotaNotificationOutcome {
    Delivered { key: UsageQuotaAlertKey },
    SuppressedDuplicate { key: UsageQuotaAlertKey },
    FailClosed { key: UsageQuotaAlertKey, issues: Vec<String> },
    DeliveryFailed { key: UsageQuotaAlertKey, message: String },
    ReceiptFailed { key: UsageQuotaAlertKey, message: String },
}

/// The contents of [`UsageQuotaNotificationOutcome`].
#[verifier::ext_equal]
pub enum UsageQuotaNotificationOutcomeView {
    Delivered { key: UsageQuotaAlertKeyView },
    SuppressedDuplicate { key: UsageQuotaAlertKeyView },
    FailClosed { key: UsageQuotaAlertKeyView, issues: Seq<Seq<char>> },
    DeliveryFailed { key: UsageQuotaAlertKeyView, message: Seq<char> },
    ReceiptFailed { key: UsageQuotaAlertKeyView, message: Seq<char> },
}

impl DeepView for UsageQuotaNotificationOutcome {
    type V = UsageQuotaNotificationOutcomeView;

    open spec fn deep_view(&self) -> UsageQuotaNotificationOutcomeView {
        match self {
            UsageQuotaNotificationOutcome::Delivered { key } => UsageQuotaNotificationOutcomeView::Delivered { key: key.deep_view() },
            UsageQuotaNotificationOutcome::SuppressedDuplicate { key } => UsageQuotaNotificationOutcomeView::SuppressedDuplicate { key: key.deep_view() },
            UsageQuotaNotificationOutcome::FailClosed { key, issues } => UsageQuotaNotificationOutcomeView::FailClosed { key: key.deep_view(), issues: issues.deep_view() },
            UsageQuotaNotificationOutcome::DeliveryFailed { key, message } => UsageQuotaNotificationOutcomeView::DeliveryFailed { key: key.deep_view(), message: message.deep_view() },
            UsageQuotaNotificationOutcome::ReceiptFailed { key, message } => UsageQuotaNotificationOutcomeView::ReceiptFailed { key: key.deep_view(), message: message.deep_view() },
        }
    }
}

impl Value for UsageQuotaNotificationOutcome {
    fn copied(&self) -> (result: Self) {
        match self {
            UsageQuotaNotificationOutcome::Delivered { key } => UsageQuotaNotificationOutcome::Delivered { key: key.copied() },
            UsageQuotaNotificationOutcome::SuppressedDuplicate { key } => UsageQuotaNotificationOutcome::SuppressedDuplicate { key: key.copied() },
            UsageQuotaNotificationOutcome::FailClosed { key, issues } => UsageQuotaNotificationOutcome::FailClosed { key: key.copied(), issues: issues.copied() },
            UsageQuotaNotificationOutcome::DeliveryFailed { key, message } => UsageQuotaNotificationOutcome::DeliveryFailed { key: key.copied(), message: message.copied() },
            UsageQuotaNotificationOutcome::ReceiptFailed { key, message } => UsageQuotaNotificationOutcome::ReceiptFailed { key: key.copied(), message: message.copied() },
        }
    }

    fn same(&self, other: &Self) -> (result: bool) {
        match (self, other) {
            (UsageQuotaNotificationOutcome::Delivered { key }, UsageQuotaNotificationOutcome::Delivered { key: key_2 }) => key.same(key_2),
            (UsageQuotaNotificationOutcome::SuppressedDuplicate { key }, UsageQuotaNotificationOutcome::SuppressedDuplicate { key: key_2 }) => key.same(key_2),
            (UsageQuotaNotificationOutcome::FailClosed { key, issues }, UsageQuotaNotificationOutcome::FailClosed { key: key_2, issues: issues_2 }) => key.same(key_2) && issues.same(issues_2),
            (UsageQuotaNotificationOutcome::DeliveryFailed { key, message }, UsageQuotaNotificationOutcome::DeliveryFailed { key: key_2, message: message_2 }) => key.same(key_2) && message.same(message_2),
            (UsageQuotaNotificationOutcome::ReceiptFailed { key, message }, UsageQuotaNotificationOutcome::ReceiptFailed { key: key_2, message: message_2 }) => key.same(key_2) && message.same(message_2),
            _ => false,
        }
    }
}

/// What was learned of an account, and whom it was told.
#[derive(Clone, Debug, PartialEq)]
pub struct AccountUsageOwnerPoll {
    pub owner: BillingOwner,
    pub observation: AccountUsageObservation,
    pub persisted: bool,
    pub persistence_error: Option<String>,
    pub evaluations: Vec<UsageQuotaEvaluation>,
    pub evaluation_errors: Vec<UsageAllowanceError>,
    pub notifications: Vec<UsageQuotaNotificationOutcome>,
}

/// The contents of [`AccountUsageOwnerPoll`].
#[verifier::ext_equal]
pub struct AccountUsageOwnerPollView {
    pub owner: BillingOwnerView,
    pub observation: AccountUsageObservationView,
    pub persisted: bool,
    pub persistence_error: Option<Seq<char>>,
    pub evaluations: Seq<UsageQuotaEvaluationView>,
    pub evaluation_errors: Seq<UsageAllowanceErrorView>,
    pub notifications: Seq<UsageQuotaNotificationOutcomeView>,
}

impl DeepView for AccountUsageOwnerPoll {
    type V = AccountUsageOwnerPollView;

    open spec fn deep_view(&self) -> AccountUsageOwnerPollView {
        AccountUsageOwnerPollView {
            owner: self.owner.deep_view(),
            observation: self.observation.deep_view(),
            persisted: self.persisted,
            persistence_error: self.persistence_error.deep_view(),
            evaluations: self.evaluations.deep_view(),
            evaluation_errors: self.evaluation_errors.deep_view(),
            notifications: self.notifications.deep_view(),
        }
    }
}

/// What was learned of all accounts.
#[derive(Clone, Debug, PartialEq)]
pub struct AccountUsagePollingCycle {
    pub period: BillingPeriod,
    pub evaluated_at: Timestamp,
    pub owners: Vec<AccountUsageOwnerPoll>,
}

/// The contents of [`AccountUsagePollingCycle`].
#[verifier::ext_equal]
pub struct AccountUsagePollingCycleView {
    pub period: BillingPeriod,
    pub evaluated_at: Timestamp,
    pub owners: Seq<AccountUsageOwnerPollView>,
}

impl DeepView for AccountUsagePollingCycle {
    type V = AccountUsagePollingCycleView;

    open spec fn deep_view(&self) -> AccountUsagePollingCycleView {
        AccountUsagePollingCycleView {
            period: self.period,
            evaluated_at: self.evaluated_at,
            owners: self.owners.deep_view(),
        }
    }
}

pub open spec fn same_billing_owner(left: BillingOwnerView, right: BillingOwnerView) -> bool {
    &&& left.kind == right.kind
    &&& same_ignoring_case(left.provider, right.provider)
    &&& same_ignoring_case(left.login, right.login)
}

/// Whether an account is one of `owners`.
pub open spec fn owner_among(owners: Seq<BillingOwnerView>, owner: BillingOwnerView) -> bool {
    exists|i: int| 0 <= i < owners.len() && same_billing_owner(#[trigger] owners[i], owner)
}

/// The accounts that have an allowance, each once, in the order of their first allowance.
pub open spec fn unique_owners(allowances: Seq<(BillingOwnerView, UsageAllowanceView)>) -> Seq<BillingOwnerView>
    decreases allowances.len(),
{
    if allowances.len() == 0 {
        Seq::empty()
    } else {
        let rest = unique_owners(allowances.drop_last());
        if owner_among(rest, allowances.last().0) {
            rest
        } else {
            rest.push(allowances.last().0)
        }
    }
}

/// The allowances of an account.
pub open spec fn allowances_of(
    allowances: Seq<(BillingOwnerView, UsageAllowanceView)>,
    owner: BillingOwnerView,
) -> Seq<UsageAllowanceView>
    decreases allowances.len(),
{
    if allowances.len() == 0 {
        Seq::empty()
    } else {
        let rest = allowances_of(allowances.drop_last(), owner);
        if same_billing_owner(allowances.last().0, owner) {
            rest.push(allowances.last().1)
        } else {
            rest
        }
    }
}

fn is_same_owner(left: &BillingOwner, right: &BillingOwner) -> (result: bool)
    ensures
        result == same_billing_owner(left.deep_view(), right.deep_view()),
{
    left.kind == right.kind && eq_ignore_ascii_case(left.provider.as_str(), right.provider.as_str())
        && eq_ignore_ascii_case(left.login.as_str(), right.login.as_str())
}

fn is_among(owners: &Vec<BillingOwner>, owner: &BillingOwner) -> (result: bool)
    ensures
        result == owner_among(owners.deep_view(), owner.deep_view()),
{
    let ghost all = owners.deep_view();
    let mut i: usize = 0;
    while i < owners.len()
        invariant
            i <= owners.len(),
            all == owners.deep_view(),
            forall|k: int| 0 <= k < i ==> !same_billing_owner(#[trigger] all[k], owner.deep_view()),
        decreases owners.len() - i,
    {
        if is_same_owner(&owners[i], owner) {
            assert(same_billing_owner(all[i as int], owner.deep_view()));
            return true;
        }
        i = i + 1;
    }
    false
}

/// The accounts that have an allowance, each once, in the order of their first allowance.
pub fn unique_billing_owners(allowances: &Vec<(BillingOwner, UsageAllowance)>) -> (result: Vec<BillingOwner>)
    ensures
        result.deep_view() == unique_owners(allowances.deep_view()),
{
    let ghost all = allowances.deep_view();
    let mut owners: Vec<BillingOwner> = nothing();
    let mut i: usize = 0;
    assert(all.take(0) =~= Seq::empty());
    while i < allowances.len()
        invariant
            i <= allowances.len(),
            all == allowances.deep_view(),
            owners.deep_view() == unique_owners(all.take(i as int)),
        decreases allowances.len() - i,
    {
        assert(all.take(i + 1).drop_last() =~= all.take(i as int));
        assert(all.take(i + 1).last() == allowances@[i as int].deep_view());
        if !is_among(&owners, &allowances[i].0) {
            add_to(&mut owners, allowances[i].0.copied());
        }
        i = i + 1;
    }
    assert(all.take(i as int) =~= all);
    owners
}

fn find_allowances(allowances: &Vec<(BillingOwner, UsageAllowance)>, owner: &BillingOwner) -> (result: Vec<
    UsageAllowance,
>)
    ensures
        result.deep_view() == allowances_of(allowances.deep_view(), owner.deep_view()),
{
    let ghost all = allowances.deep_view();
    let mut result: Vec<UsageAllowance> = nothing();
    let mut i: usize = 0;
    assert(all.take(0) =~= Seq::empty());
    while i < allowances.len()
        invariant
            i <= allowances.len(),
            all == allowances.deep_view(),
            result.deep_view() == allowances_of(all.take(i as int), owner.deep_view()),
        decreases allowances.len() - i,
    {
        assert(all.take(i + 1).drop_last() =~= all.take(i as int));
        assert(all.take(i + 1).last() == allowances@[i as int].deep_view());
        if is_same_owner(&allowances[i].0, owner) {
            add_to(&mut result, allowances[i].1.copied());
        }
        i = i + 1;
    }
    assert(all.take(i as int) =~= all);
    result
}

/// Every account that has an allowance is looked at, and none twice.
pub proof fn every_owner_is_looked_at_once(allowances: Seq<(BillingOwnerView, UsageAllowanceView)>)
    ensures
        forall|i: int|
            0 <= i < allowances.len() ==> owner_among(unique_owners(allowances), (#[trigger] allowances[i]).0),
        forall|i: int, j: int|
            0 <= i < j < unique_owners(allowances).len() ==> !same_billing_owner(
                #[trigger] unique_owners(allowances)[i],
                #[trigger] unique_owners(allowances)[j],
            ),
    decreases allowances.len(),
{
    if allowances.len() > 0 {
        let before = allowances.drop_last();
        every_owner_is_looked_at_once(before);
        let rest = unique_owners(before);
        let all = unique_owners(allowances);
        assert forall|i: int| 0 <= i < allowances.len() implies owner_among(all, (#[trigger] allowances[i]).0) by {
            if i < before.len() {
                assert(before[i] == allowances[i]);
                assert(owner_among(rest, before[i].0));
                let k = choose|k: int| 0 <= k < rest.len() && same_billing_owner(#[trigger] rest[k], before[i].0);
                assert(same_billing_owner(all[k], allowances[i].0));
            } else if !owner_among(rest, allowances.last().0) {
                assert(same_billing_owner(all[all.len() - 1], allowances[i].0));
            }
        }
        assert forall|i: int, j: int| 0 <= i < j < all.len() implies !same_billing_owner(
            #[trigger] all[i],
            #[trigger] all[j],
        ) by {
            assert(all[i] == rest[i]);
            if j < rest.len() {
                assert(all[j] == rest[j]);
            }
        }
    }
}

/// The alert that an evaluation calls for.
pub open spec fn candidate_of(evaluation: UsageQuotaEvaluationView) -> Option<UsageQuotaNotificationCandidateView> {
    match (evaluation.status, evaluation.alert_key) {
        (UsageQuotaStatusView::Known { level, .. }, Some(key)) => if level == UsageQuotaLevel::Healthy {
            None
        } else {
            Some(UsageQuotaNotificationCandidateView { key, evaluation })
        },
        _ => None,
    }
}

/// The alert that an evaluation calls for.
pub fn notification_candidate(evaluation: &UsageQuotaEvaluation) -> (result: Option<UsageQuotaNotificationCandidate>)
    ensures
        result.deep_view() == candidate_of(evaluation.deep_view()),
{
    match (&evaluation.status, &evaluation.alert_key) {
        (UsageQuotaStatus::Known { level, .. }, Some(key)) => {
            if *level == UsageQuotaLevel::Healthy {
                None
            } else {
                Some(UsageQuotaNotificationCandidate { key: key.copied(), evaluation: evaluation.copied() })
            }
        },
        _ => None,
    }
}

/// Where observations are stored.
pub trait AccountUsageObservationSink: Sized {
    fn persist(&self, observation: &AccountUsageObservation) -> Result<(), String>;
}

/// Where it is recorded which alerts went out.
pub trait UsageQuotaAlertReceiptStore: Sized {
    fn delivery_lookup(&self, key: &UsageQuotaAlertKey) -> Result<UsageQuotaAlertReceiptLookup, String>;

    fn record_delivered(&self, key: &UsageQuotaAlertKey) -> Result<(), String>;
}

/// Why something failed, if it did.
pub open spec fn failure(result: Result<(), String>) -> Option<Seq<char>> {
    match result {
        Ok(()) => None,
        Err(error) => Some(error@),
    }
}

/// What a cycle waits for.
#[derive(Clone, Copy, Debug, PartialEq, Eq, Structural)]
pub enum PollingStage {
    /// The usage of the next account.
    Observe,
    /// Whether the observation was stored.
    Persist,
    /// What each item makes of the next allowance.
    Measure,
    /// Whether the next alert went out before.
    LookUp,
    /// Whether the alert could be delivered.
    Deliver,
    /// Whether its delivery could be recorded.
    Record,
    /// Nothing.
    Done,
}

/// One look at all accounts, step by step.
pub struct AccountUsagePollingService {
    allowances: Vec<(BillingOwner, UsageAllowance)>,
    owners: Vec<BillingOwner>,
    period: BillingPeriod,
    evaluated_at: Timestamp,
    thresholds: Option<UsagePercentageThresholds>,
    max_age: u128,
    polls: Vec<AccountUsageOwnerPoll>,
    stage: PollingStage,
    observation: Option<AccountUsageObservation>,
    pending: Vec<UsageAllowance>,
    measured: usize,
    evaluations: Vec<UsageQuotaEvaluation>,
    evaluation_errors: Vec<UsageAllowanceError>,
    candidates: Vec<UsageQuotaNotificationCandidate>,
    notifications: Vec<UsageQuotaNotificationOutcome>,
}

/// The contents of [`AccountUsagePollingService`].
#[verifier::ext_equal]
pub struct PollingView {
    pub allowances: Seq<(BillingOwnerView, UsageAllowanceView)>,
    pub owners: Seq<BillingOwnerView>,
    pub period: BillingPeriod,
    pub evaluated_at: Timestamp,
    pub thresholds: Option<UsagePercentageThresholds>,
    pub max_age: u128,
    pub polls: Seq<AccountUsageOwnerPollView>,
    pub stage: PollingStage,
    pub observation: Option<AccountUsageObservationView>,
    pub pending: Seq<UsageAllowanceView>,
    pub measured: int,
    pub evaluations: Seq<UsageQuotaEvaluationView>,
    pub evaluation_errors: Seq<UsageAllowanceErrorView>,
    pub candidates: Seq<UsageQuotaNotificationCandidateView>,
    pub notifications: Seq<UsageQuotaNotificationOutcomeView>,
}

impl DeepView for AccountUsagePollingService {
    type V = PollingView;

    closed spec fn deep_view(&self) -> PollingView {
        PollingView {
            allowances: self.allowances.deep_view(),
            owners: self.owners.deep_view(),
            period: self.period,
            evaluated_at: self.evaluated_at,
            thresholds: self.thresholds,
            max_age: self.max_age,
            polls: self.polls.deep_view(),
            stage: self.stage,
            observation: self.observation.deep_view(),
            pending: self.pending.deep_view(),
            measured: self.measured as int,
            evaluations: self.evaluations.deep_view(),
            evaluation_errors: self.evaluation_errors.deep_view(),
            candidates: self.candidates.deep_view(),
            notifications: self.notifications.deep_view(),
        }
    }
}

/// The evaluations that call for an alert.
pub open spec fn candidates_of(
    evaluations: Seq<UsageQuotaEvaluationView>,
) -> Seq<UsageQuotaNotificationCandidateView>
    decreases evaluations.len(),
{
    if evaluations.len() == 0 {
        Seq::empty()
    } else {
        let rest = candidates_of(evaluations.drop_last());
        match candidate_of(evaluations.last()) {
            Some(candidate) => rest.push(candidate),
            None => rest,
        }
    }
}

impl UsageQuotaNotificationOutcomeView {
    /// The alert that the outcome is of.
    pub open spec fn key(self) -> UsageQuotaAlertKeyView {
        match self {
            UsageQuotaNotificationOutcomeView::Delivered { key } => key,
            UsageQuotaNotificationOutcomeView::SuppressedDuplicate { key } => key,
            UsageQuotaNotificationOutcomeView::FailClosed { key, .. } => key,
            UsageQuotaNotificationOutcomeView::DeliveryFailed { key, .. } => key,
            UsageQuotaNotificationOutcomeView::ReceiptFailed { key, .. } => key,
        }
    }
}

impl PollingView {
    /// A cycle before its first step.
    pub open spec fn started(
        period: BillingPeriod,
        evaluated_at: Timestamp,
        allowances: Seq<(BillingOwnerView, UsageAllowanceView)>,
        thresholds: Option<UsagePercentageThresholds>,
        max_age: u128,
    ) -> PollingView {
        PollingView {
            allowances,
            owners: unique_owners(allowances),
            period,
            evaluated_at,
            thresholds,
            max_age,
            polls: Seq::empty(),
            stage: if unique_owners(allowances).len() == 0 {
                PollingStage::Done
            } else {
                PollingStage::Observe
            },
            observation: None,
            pending: Seq::empty(),
            measured: 0,
            evaluations: Seq::empty(),
            evaluation_errors: Seq::empty(),
            candidates: Seq::empty(),
            notifications: Seq::empty(),
        }
    }

    /// The account that is being looked at.
    pub open spec fn owner(self) -> BillingOwnerView {
        self.owners[self.polls.len() as int]
    }

    /// The alert that is being dealt with.
    pub open spec fn candidate(self) -> UsageQuotaNotificationCandidateView {
        self.candidates[self.notifications.len() as int]
    }

    /// What holds at every step.
    pub open spec fn sound(self) -> bool {
        &&& self.owners == unique_owners(self.allowances)
        &&& self.polls.len() <= self.owners.len()
        &&& self.max_age <= u64::MAX * 1_000_000_000 + 999_999_999
        &&& self.stage is Done <==> self.polls.len() == self.owners.len()
        &&& forall|i: int| 0 <= i < self.polls.len() ==> poll_is_sound(#[trigger] self.polls[i], self.owners[i])
        &&& self.candidates == candidates_of(self.evaluations)
        &&& self.notifications.len() <= self.candidates.len()
        &&& forall|i: int|
            0 <= i < self.notifications.len() ==> (#[trigger] self.notifications[i]).key() == self.candidates[i].key
        &&& self.observation is Some <==> !(self.stage is Observe || self.stage is Done)
        &&& (self.stage is Observe || self.stage is Persist) ==> {
            &&& self.evaluations.len() == 0
            &&& self.evaluation_errors.len() == 0
            &&& self.notifications.len() == 0
        }
        &&& self.stage is Measure ==> {
            &&& self.thresholds is Some
            &&& 0 <= self.measured < self.pending.len()
            &&& self.notifications.len() == 0
            &&& self.evaluations.len() + self.evaluation_errors.len() == self.measured
        }
        &&& (self.stage is LookUp || self.stage is Deliver || self.stage is Record) ==> {
            &&& self.measured >= self.pending.len()
            &&& self.notifications.len() < self.candidates.len()
        }
    }

    /// The cycle with the current account done.
    pub open spec fn next_owner(self, poll: AccountUsageOwnerPollView) -> PollingView {
        PollingView {
            polls: self.polls.push(poll),
            stage: if self.polls.len() + 1 == self.owners.len() {
                PollingStage::Done
            } else {
                PollingStage::Observe
            },
            observation: None,
            pending: Seq::empty(),
            measured: 0,
            evaluations: Seq::empty(),
            evaluation_errors: Seq::empty(),
            candidates: Seq::empty(),
            notifications: Seq::empty(),
            ..self
        }
    }

    /// The cycle with the current account done, all of its alerts dealt with.
    pub open spec fn owner_finished(self) -> PollingView {
        self.next_owner(
            AccountUsageOwnerPollView {
                owner: self.owner(),
                observation: self.observation->0,
                persisted: true,
                persistence_error: None,
                evaluations: self.evaluations,
                evaluation_errors: self.evaluation_errors,
                notifications: self.notifications,
            },
        )
    }

    /// On to the next allowance, the next alert or the next account.
    pub open spec fn advanced(self) -> PollingView {
        if self.measured < self.pending.len() {
            PollingView { stage: PollingStage::Measure, ..self }
        } else if self.notifications.len() < self.candidates.len() {
            PollingView { stage: PollingStage::LookUp, ..self }
        } else {
            self.owner_finished()
        }
    }

    pub open spec fn after_observation(self, observation: AccountUsageObservationView) -> PollingView {
        PollingView { stage: PollingStage::Persist, observation: Some(observation), ..self }
    }

    pub open spec fn after_persistence(self, error: Option<Seq<char>>) -> PollingView {
        match error {
            Some(error) => self.next_owner(
                AccountUsageOwnerPollView {
                    owner: self.owner(),
                    observation: self.observation->0,
                    persisted: false,
                    persistence_error: Some(error),
                    evaluations: Seq::empty(),
                    evaluation_errors: Seq::empty(),
                    notifications: Seq::empty(),
                },
            ),
            None => PollingView {
                pending: match self.thresholds {
                    Some(_) => allowances_of(self.allowances, self.owner()),
                    None => Seq::empty(),
                },
                measured: 0,
                ..self
            }.advanced(),
        }
    }

    pub open spec fn after_measuring(self, shares: Seq<UsageShare>) -> PollingView {
        let allowance = Some(self.pending[self.measured]);
        let thresholds = self.thresholds->0;
        let next = PollingView { measured: self.measured + 1, ..self };
        match quota_problem(allowance, thresholds) {
            Some(problem) => PollingView {
                evaluation_errors: self.evaluation_errors.push(problem),
                ..next
            }.advanced(),
            None => {
                let evaluation = quota_evaluation(
                    self.observation->0,
                    allowance,
                    thresholds,
                    self.evaluated_at,
                    self.max_age,
                    shares,
                );
                PollingView {
                    evaluations: self.evaluations.push(evaluation),
                    candidates: match candidate_of(evaluation) {
                        Some(candidate) => self.candidates.push(candidate),
                        None => self.candidates,
                    },
                    ..next
                }.advanced()
            },
        }
    }

    /// On after an alert was dealt with.
    pub open spec fn settled(self, outcome: UsageQuotaNotificationOutcomeView) -> PollingView {
        PollingView { notifications: self.notifications.push(outcome), ..self }.advanced()
    }

    pub open spec fn after_lookup(
        self,
        lookup: Result<UsageQuotaAlertReceiptLookupView, Seq<char>>,
    ) -> PollingView {
        let key = self.candidate().key;
        match lookup {
            Err(error) => self.settled(
                UsageQuotaNotificationOutcomeView::FailClosed { key, issues: seq![error] },
            ),
            Ok(lookup) => match lookup.state {
                UsageQuotaAlertReceiptState::Delivered => self.settled(
                    UsageQuotaNotificationOutcomeView::SuppressedDuplicate { key },
                ),
                UsageQuotaAlertReceiptState::Unknown => self.settled(
                    UsageQuotaNotificationOutcomeView::FailClosed { key, issues: lookup.issues },
                ),
                UsageQuotaAlertReceiptState::NotDelivered => PollingView { stage: PollingStage::Deliver, ..self },
            },
        }
    }

    pub open spec fn after_delivery(self, error: Option<Seq<char>>) -> PollingView {
        match error {
            Some(message) => self.settled(
                UsageQuotaNotificationOutcomeView::DeliveryFailed { key: self.candidate().key, message },
            ),
            None => PollingView { stage: PollingStage::Record, ..self },
        }
    }

    pub open spec fn after_record(self, error: Option<Seq<char>>) -> PollingView {
        let key = self.candidate().key;
        match error {
            Some(message) => self.settled(UsageQuotaNotificationOutcomeView::ReceiptFailed { key, message }),
            None => self.settled(UsageQuotaNotificationOutcomeView::Delivered { key }),
        }
    }
}

/// A finished look at an account: an observation that was not stored leads to nothing, and of
/// one that was, every alert that it calls for was dealt with.
pub open spec fn poll_is_sound(poll: AccountUsageOwnerPollView, owner: BillingOwnerView) -> bool {
    &&& poll.owner == owner
    &&& poll.persisted <==> poll.persistence_error is None
    &&& !poll.persisted ==> poll.evaluations.len() == 0 && poll.evaluation_errors.len() == 0
        && poll.notifications.len() == 0
    &&& poll.notifications.len() == candidates_of(poll.evaluations).len()
    &&& forall|i: int|
        0 <= i < poll.notifications.len() ==> (#[trigger] poll.notifications[i]).key() == candidates_of(
            poll.evaluations,
        )[i].key
}

/// What a lookup says, as a value.
pub open spec fn lookup_view(lookup: Result<UsageQuotaAlertReceiptLookup, String>) -> Result<
    UsageQuotaAlertReceiptLookupView,
    Seq<char>,
> {
    match lookup {
        Ok(lookup) => Ok(lookup.deep_view()),
        Err(error) => Err(error@),
    }
}

impl AccountUsagePollingService {
    /// Sets out to look at every account that has an allowance. The age is in nanoseconds.
    pub fn new(
        period: BillingPeriod,
        evaluated_at: Timestamp,
        allowances: Vec<(BillingOwner, UsageAllowance)>,
        thresholds: Option<UsagePercentageThresholds>,
        max_age: u128,
    ) -> (result: Self)
        requires
            max_age <= u64::MAX * 1_000_000_000 + 999_999_999,
        ensures
            result.deep_view() == PollingView::started(
                period,
                evaluated_at,
                allowances.deep_view(),
                thresholds,
                max_age,
            ),
            result.deep_view().sound(),
    {
        let owners = unique_billing_owners(&allowances);
        assert(owners.deep_view().len() == owners.len());
        let stage = if owners.len() == 0 {
            PollingStage::Done
        } else {
            PollingStage::Observe
        };
        AccountUsagePollingService {
            allowances,
            owners,
            period,
            evaluated_at,
            thresholds,
            max_age,
            polls: nothing(),
            stage,
            observation: None,
            pending: nothing(),
            measured: 0,
            evaluations: nothing(),
            evaluation_errors: nothing(),
            candidates: nothing(),
            notifications: nothing(),
        }
    }

    /// What the cycle waits for.
    pub fn stage(&self) -> (result: PollingStage)
        ensures
            result == self.deep_view().stage,
    {
        self.stage
    }

    pub fn period(&self) -> (result: BillingPeriod)
        ensures
            result == self.deep_view().period,
    {
        self.period
    }

    /// The account that is being looked at.
    pub fn owner(&self) -> (result: &BillingOwner)
        requires
            self.deep_view().polls.len() < self.deep_view().owners.len(),
        ensures
            result.deep_view() == self.deep_view().owner(),
    {
        assert(self.owners.deep_view()[self.polls.len() as int] == self.owners@[self.polls.len() as int].deep_view());
        &self.owners[self.polls.len()]
    }

    /// What was observed of the account.
    pub fn observation(&self) -> (result: Option<&AccountUsageObservation>)
        ensures
            match result {
                Some(observation) => self.deep_view().observation == Some(observation.deep_view()),
                None => self.deep_view().observation is None,
            },
    {
        match &self.observation {
            Some(observation) => Some(observation),
            None => None,
        }
    }

    /// The allowance that is to be measured.
    pub fn allowance(&self) -> (result: &UsageAllowance)
        requires
            0 <= self.deep_view().measured < self.deep_view().pending.len(),
        ensures
            result.deep_view() == self.deep_view().pending[self.deep_view().measured],
    {
        &self.pending[self.measured]
    }

    /// The alert that is being dealt with.
    pub fn candidate(&self) -> (result: &UsageQuotaNotificationCandidate)
        requires
            self.deep_view().notifications.len() < self.deep_view().candidates.len(),
        ensures
            result.deep_view() == self.deep_view().candidate(),
    {
        &self.candidates[self.notifications.len()]
    }

    fn move_to_next_owner(&mut self, poll: AccountUsageOwnerPoll)
        requires
            old(self).deep_view().polls.len() < old(self).deep_view().owners.len(),
        ensures
            final(self).deep_view() == old(self).deep_view().next_owner(poll.deep_view()),
    {
        let ghost before = self.deep_view();
        add_to(&mut self.polls, poll);
        assert(self.polls.deep_view() == before.polls.push(poll.deep_view()));
        assert(self.polls.deep_view().len() == self.polls.len());
        assert(self.owners.deep_view().len() == self.owners.len());
        self.stage = if self.polls.len() == self.owners.len() {
            PollingStage::Done
        } else {
            PollingStage::Observe
        };
        self.observation = None;
        self.pending = nothing();
        self.measured = 0;
        self.evaluations = nothing();
        self.evaluation_errors = nothing();
        self.candidates = nothing();
        self.notifications = nothing();
    }

    fn advance(&mut self)
        requires
            old(self).deep_view().polls.len() < old(self).deep_view().owners.len(),
            old(self).deep_view().observation is Some,
        ensures
            final(self).deep_view() == old(self).deep_view().advanced(),
    {
        assert(self.pending.deep_view().len() == self.pending.len());
        assert(self.candidates.deep_view().len() == self.candidates.len());
        assert(self.notifications.deep_view().len() == self.notifications.len());
        if self.measured < self.pending.len() {
            self.stage = PollingStage::Measure;
            return;
        }
        if self.notifications.len() < self.candidates.len() {
            self.stage = PollingStage::LookUp;
            return;
        }
        let owner = self.owner().copied();
        if let Some(observation) = &self.observation {
            let observation = observation.copied();
            let mut evaluations: Vec<UsageQuotaEvaluation> = nothing();
            let mut evaluation_errors: Vec<UsageAllowanceError> = nothing();
            let mut notifications: Vec<UsageQuotaNotificationOutcome> = nothing();
            let ghost before = self.deep_view();
            std::mem::swap(&mut evaluations, &mut self.evaluations);
            std::mem::swap(&mut evaluation_errors, &mut self.evaluation_errors);
            std::mem::swap(&mut notifications, &mut self.notifications);
            let poll = AccountUsageOwnerPoll {
                owner,
                observation,
                persisted: true,
                persistence_error: None,
                evaluations,
                evaluation_errors,
                notifications,
            };
            self.move_to_next_owner(poll);
            assert(self.deep_view() =~= before.owner_finished());
        }
    }

    /// Takes what was observed of the account.
    pub fn observed(&mut self, observation: AccountUsageObservation)
        requires
            old(self).deep_view().sound(),
            old(self).deep_view().stage is Observe,
        ensures
            final(self).deep_view() == old(self).deep_view().after_observation(observation.deep_view()),
            final(self).deep_view().sound(),
    {
        self.stage = PollingStage::Persist;
        self.observation = Some(observation);
    }

    /// Takes whether the observation was stored, or why not.
    pub fn persisted(&mut self, error: Option<String>)
        requires
            old(self).deep_view().sound(),
            old(self).deep_view().stage is Persist,
        ensures
            final(self).deep_view() == old(self).deep_view().after_persistence(error.deep_view()),
            final(self).deep_view().sound(),
    {
        proof {
            lemma_sound_after_persistence(self.deep_view(), error.deep_view());
        }
        let owner = self.owner().copied();
        match error {
            Some(error) => {
                if let Some(observation) = &self.observation {
                    let observation = observation.copied();
                    let poll = AccountUsageOwnerPoll {
                        owner,
                        observation,
                        persisted: false,
                        persistence_error: Some(error),
                        evaluations: nothing(),
                        evaluation_errors: nothing(),
                        notifications: nothing(),
                    };
                    self.move_to_next_owner(poll);
                }
            },
            None => {
                self.pending = if self.thresholds.is_some() {
                    find_allowances(&self.allowances, &owner)
                } else {
                    nothing()
                };
                self.measured = 0;
                self.advance();
            },
        }
    }

    /// Takes what each item makes of the allowance.
    pub fn measured(&mut self, shares: &Vec<UsageShare>)
        requires
            old(self).deep_view().sound(),
            old(self).deep_view().stage is Measure,
            shares.len() == old(self).deep_view().observation->0.items.len(),
        ensures
            final(self).deep_view() == old(self).deep_view().after_measuring(shares@),
            final(self).deep_view().sound(),
    {
        proof {
            lemma_sound_after_measuring(self.deep_view(), shares@);
        }
        let ghost before = self.deep_view();
        assert(self.pending.deep_view()[self.measured as int] == self.pending@[self.measured as int].deep_view());
        assert(self.pending.deep_view().len() == self.pending.len());
        if let (Some(observation), Some(thresholds)) = (&self.observation, self.thresholds) {
            assert(observation.items.deep_view().len() == observation.items.len());
            let evaluated = evaluate_usage_quota(
                observation,
                Some(&self.pending[self.measured]),
                thresholds,
                self.evaluated_at,
                self.max_age,
                shares,
            );
            self.measured = self.measured + 1;
            match evaluated {
                Ok(evaluation) => {
                    if let Some(candidate) = notification_candidate(&evaluation) {
                        add_to(&mut self.candidates, candidate);
                    }
                    add_to(&mut self.evaluations, evaluation);
                },
                Err(error) => {
                    add_to(&mut self.evaluation_errors, error);
                },
            }
            self.advance();
        }
    }

    fn settle(&mut self, outcome: UsageQuotaNotificationOutcome)
        requires
            old(self).deep_view().polls.len() < old(self).deep_view().owners.len(),
            old(self).deep_view().observation is Some,
        ensures
            final(self).deep_view() == old(self).deep_view().settled(outcome.deep_view()),
    {
        add_to(&mut self.notifications, outcome);
        self.advance();
    }

    /// Takes whether the alert went out before.
    pub fn looked_up(&mut self, lookup: Result<UsageQuotaAlertReceiptLookup, String>)
        requires
            old(self).deep_view().sound(),
            old(self).deep_view().stage is LookUp,
        ensures
            final(self).deep_view() == old(self).deep_view().after_lookup(lookup_view(lookup)),
            final(self).deep_view().sound(),
    {
        proof {
            lemma_sound_after_lookup(self.deep_view(), lookup_view(lookup));
        }
        let key = self.candidate().key.copied();
        match lookup {
            Err(error) => {
                self.settle(UsageQuotaNotificationOutcome::FailClosed { key, issues: single(error) });
            },
            Ok(lookup) => match lookup.state {
                UsageQuotaAlertReceiptState::Delivered => {
                    self.settle(UsageQuotaNotificationOutcome::SuppressedDuplicate { key });
                },
                UsageQuotaAlertReceiptState::Unknown => {
                    self.settle(UsageQuotaNotificationOutcome::FailClosed { key, issues: lookup.issues });
                },
                UsageQuotaAlertReceiptState::NotDelivered => {
                    self.stage = PollingStage::Deliver;
                },
            },
        }
    }

    /// Takes whether the alert could be delivered, or why not.
    pub fn delivered(&mut self, error: Option<String>)
        requires
            old(self).deep_view().sound(),
            old(self).deep_view().stage is Deliver,
        ensures
            final(self).deep_view() == old(self).deep_view().after_delivery(error.deep_view()),
            final(self).deep_view().sound(),
    {
        proof {
            lemma_sound_after_delivery(self.deep_view(), error.deep_view());
        }
        let key = self.candidate().key.copied();
        match error {
            Some(message) => {
                self.settle(UsageQuotaNotificationOutcome::DeliveryFailed { key, message });
            },
            None => {
                self.stage = PollingStage::Record;
            },
        }
    }

    /// Takes whether the delivery could be recorded, or why not.
    pub fn recorded(&mut self, error: Option<String>)
        requires
            old(self).deep_view().sound(),
            old(self).deep_view().stage is Record,
        ensures
            final(self).deep_view() == old(self).deep_view().after_record(error.deep_view()),
            final(self).deep_view().sound(),
    {
        proof {
            lemma_sound_after_record(self.deep_view(), error.deep_view());
        }
        let key = self.candidate().key.copied();
        match error {
            Some(message) => {
                self.settle(UsageQuotaNotificationOutcome::ReceiptFailed { key, message });
            },
            None => {
                self.settle(UsageQuotaNotificationOutcome::Delivered { key });
            },
        }
    }

    /// Stores the observation, and goes on by whether that went well.
    pub fn persist<S: AccountUsageObservationSink>(&mut self, sink: &S)
        requires
            old(self).deep_view().sound(),
            old(self).deep_view().stage is Persist,
            forall|observation: AccountUsageObservation| #[trigger] call_requires(S::persist, (sink, &observation)),
        ensures
            exists|observation: AccountUsageObservation, result: Result<(), String>|
                {
                    &&& old(self).deep_view().observation == Some(observation.deep_view())
                    &&& #[trigger] call_ensures(S::persist, (sink, &observation), result)
                    &&& final(self).deep_view() == old(self).deep_view().after_persistence(failure(result))
                },
            final(self).deep_view().sound(),
    {
        if let Some(observation) = &self.observation {
            let result = sink.persist(observation);
            let ghost stored = *observation;
            let ghost outcome = result;
            assert(call_ensures(S::persist, (sink, &stored), outcome));
            let error = match result {
                Ok(()) => None,
                Err(error) => Some(error),
            };
            assert(error.deep_view() == failure(outcome));
            self.persisted(error);
            assert(call_ensures(S::persist, (sink, &stored), outcome));
        }
    }

    /// Asks whether the alert went out before, and goes on by the answer.
    pub fn look_up<A: UsageQuotaAlertReceiptStore>(&mut self, store: &A)
        requires
            old(self).deep_view().sound(),
            old(self).deep_view().stage is LookUp,
            forall|key: UsageQuotaAlertKey| #[trigger] call_requires(A::delivery_lookup, (store, &key)),
        ensures
            exists|key: UsageQuotaAlertKey, lookup: Result<UsageQuotaAlertReceiptLookup, String>|
                {
                    &&& old(self).deep_view().candidate().key == key.deep_view()
                    &&& #[trigger] call_ensures(A::delivery_lookup, (store, &key), lookup)
                    &&& final(self).deep_view() == old(self).deep_view().after_lookup(lookup_view(lookup))
                },
            final(self).deep_view().sound(),
    {
        let key = self.candidate().key.copied();
        let lookup = store.delivery_lookup(&key);
        let ghost answer = lookup;
        self.looked_up(lookup);
        assert(call_ensures(A::delivery_lookup, (store, &key), answer));
    }

    /// Records that the alert was delivered, and goes on by whether that went well.
    pub fn record<A: UsageQuotaAlertReceiptStore>(&mut self, store: &A)
        requires
            old(self).deep_view().sound(),
            old(self).deep_view().stage is Record,
            forall|key: UsageQuotaAlertKey| #[trigger] call_requires(A::record_delivered, (store, &key)),
        ensures
            exists|key: UsageQuotaAlertKey, result: Result<(), String>|
                {
                    &&& old(self).deep_view().candidate().key == key.deep_view()
                    &&& #[trigger] call_ensures(A::record_delivered, (store, &key), result)
                    &&& final(self).deep_view() == old(self).deep_view().after_record(failure(result))
                },
            final(self).deep_view().sound(),
    {
        let key = self.candidate().key.copied();
        let result = store.record_delivered(&key);
        let ghost outcome = result;
        let error = match result {
            Ok(()) => None,
            Err(error) => Some(error),
        };
        assert(error.deep_view() == failure(outcome));
        self.recorded(error);
        assert(call_ensures(A::record_delivered, (store, &key), outcome));
    }

    /// What was learned of all accounts.
    pub fn finish(self) -> (result: AccountUsagePollingCycle)
        requires
            self.deep_view().stage is Done,
        ensures
            result.deep_view() == (AccountUsagePollingCycleView {
                period: self.deep_view().period,
                evaluated_at: self.deep_view().evaluated_at,
                owners: self.deep_view().polls,
            }),
    {
        AccountUsagePollingCycle { period: self.period, evaluated_at: self.evaluated_at, owners: self.polls }
    }
}

proof fn lemma_sound_advanced(cycle: PollingView)
    requires
        cycle.owners == unique_owners(cycle.allowances),
        cycle.polls.len() < cycle.owners.len(),
        cycle.max_age <= u64::MAX * 1_000_000_000 + 999_999_999,
        forall|i: int| 0 <= i < cycle.polls.len() ==> poll_is_sound(#[trigger] cycle.polls[i], cycle.owners[i]),
        cycle.candidates == candidates_of(cycle.evaluations),
        cycle.notifications.len() <= cycle.candidates.len(),
        forall|i: int|
            0 <= i < cycle.notifications.len() ==> (#[trigger] cycle.notifications[i]).key() == cycle.candidates[i].key,
        cycle.observation is Some,
        cycle.measured < cycle.pending.len() ==> {
            &&& cycle.thresholds is Some
            &&& 0 <= cycle.measured
            &&& cycle.notifications.len() == 0
            &&& cycle.evaluations.len() + cycle.evaluation_errors.len() == cycle.measured
        },
    ensures
        cycle.advanced().sound(),
{
    let next = cycle.advanced();
    if cycle.measured >= cycle.pending.len() && cycle.notifications.len() >= cycle.candidates.len() {
        assert(candidates_of(Seq::<UsageQuotaEvaluationView>::empty()) =~= Seq::empty());
        let k = cycle.polls.len() as int;
        assert(poll_is_sound(next.polls[k], next.owners[k]));
        assert forall|i: int| 0 <= i < next.polls.len() implies poll_is_sound(
            #[trigger] next.polls[i],
            next.owners[i],
        ) by {
            if i < k {
                assert(next.polls[i] == cycle.polls[i]);
            }
        }
    }
}

proof fn lemma_sound_after_persistence(cycle: PollingView, error: Option<Seq<char>>)
    requires
        cycle.sound(),
        cycle.stage is Persist,
    ensures
        cycle.after_persistence(error).sound(),
{
    match error {
        Some(error) => {
            let next = cycle.after_persistence(Some(error));
            let k = cycle.polls.len() as int;
            assert(candidates_of(Seq::<UsageQuotaEvaluationView>::empty()) =~= Seq::empty());
            assert(poll_is_sound(next.polls[k], next.owners[k]));
            assert forall|i: int| 0 <= i < next.polls.len() implies poll_is_sound(
                #[trigger] next.polls[i],
                next.owners[i],
            ) by {
                if i < k {
                    assert(next.polls[i] == cycle.polls[i]);
                }
            }
        },
        None => {
            lemma_sound_advanced(
                PollingView {
                    pending: match cycle.thresholds {
                        Some(_) => allowances_of(cycle.allowances, cycle.owner()),
                        None => Seq::empty(),
                    },
                    measured: 0,
                    ..cycle
                },
            );
        },
    }
}

proof fn lemma_sound_after_measuring(cycle: PollingView, shares: Seq<UsageShare>)
    requires
        cycle.sound(),
        cycle.stage is Measure,
    ensures
        cycle.after_measuring(shares).sound(),
{
    let allowance = Some(cycle.pending[cycle.measured]);
    let thresholds = cycle.thresholds->0;
    let next = PollingView { measured: cycle.measured + 1, ..cycle };
    match quota_problem(allowance, thresholds) {
        Some(problem) => {
            lemma_sound_advanced(
                PollingView { evaluation_errors: cycle.evaluation_errors.push(problem), ..next },
            );
        },
        None => {
            let evaluation = quota_evaluation(
                cycle.observation->0,
                allowance,
                thresholds,
                cycle.evaluated_at,
                cycle.max_age,
                shares,
            );
            assert(cycle.evaluations.push(evaluation).drop_last() =~= cycle.evaluations);
            lemma_sound_advanced(
                PollingView {
                    evaluations: cycle.evaluations.push(evaluation),
                    candidates: match candidate_of(evaluation) {
                        Some(candidate) => cycle.candidates.push(candidate),
                        None => cycle.candidates,
                    },
                    ..next
                },
            );
        },
    }
}

proof fn lemma_sound_settled(cycle: PollingView, outcome: UsageQuotaNotificationOutcomeView)
    requires
        cycle.sound(),
        cycle.stage is LookUp || cycle.stage is Deliver || cycle.stage is Record,
        outcome.key() == cycle.candidate().key,
    ensures
        cycle.settled(outcome).sound(),
{
    let next = PollingView { notifications: cycle.notifications.push(outcome), ..cycle };
    assert forall|i: int| 0 <= i < next.notifications.len() implies (#[trigger] next.notifications[i]).key()
        == next.candidates[i].key by {
        if i < cycle.notifications.len() {
            assert(next.notifications[i] == cycle.notifications[i]);
        }
    }
    lemma_sound_advanced(next);
}

proof fn lemma_sound_after_lookup(cycle: PollingView, lookup: Result<UsageQuotaAlertReceiptLookupView, Seq<char>>)
    requires
        cycle.sound(),
        cycle.stage is LookUp,
    ensures
        cycle.after_lookup(lookup).sound(),
{
    let key = cycle.candidate().key;
    match lookup {
        Err(error) => {
            lemma_sound_settled(cycle, UsageQuotaNotificationOutcomeView::FailClosed { key, issues: seq![error] });
        },
        Ok(lookup) => match lookup.state {
            UsageQuotaAlertReceiptState::Delivered => {
                lemma_sound_settled(cycle, UsageQuotaNotificationOutcomeView::SuppressedDuplicate { key });
            },
            UsageQuotaAlertReceiptState::Unknown => {
                lemma_sound_settled(
                    cycle,
                    UsageQuotaNotificationOutcomeView::FailClosed { key, issues: lookup.issues },
                );
            },
            UsageQuotaAlertReceiptState::NotDelivered => {},
        },
    }
}

proof fn lemma_sound_after_delivery(cycle: PollingView, error: Option<Seq<char>>)
    requires
        cycle.sound(),
        cycle.stage is Deliver,
    ensures
        cycle.after_delivery(error).sound(),
{
    if let Some(message) = error {
        lemma_sound_settled(
            cycle,
            UsageQuotaNotificationOutcomeView::DeliveryFailed { key: cycle.candidate().key, message },
        );
    }
}

proof fn lemma_sound_after_record(cycle: PollingView, error: Option<Seq<char>>)
    requires
        cycle.sound(),
        cycle.stage is Record,
    ensures
        cycle.after_record(error).sound(),
{
    let key = cycle.candidate().key;
    match error {
        Some(message) => {
            lemma_sound_settled(cycle, UsageQuotaNotificationOutcomeView::ReceiptFailed { key, message });
        },
        None => {
            lemma_sound_settled(cycle, UsageQuotaNotificationOutcomeView::Delivered { key });
        },
    }
}

/// An alert is delivered only after the receipts say that it was not delivered before: no other
/// answer, and no other step, leads there.
pub proof fn only_new_alerts_are_delivered(
    cycle: PollingView,
    lookup: Result<UsageQuotaAlertReceiptLookupView, Seq<char>>,
    observation: AccountUsageObservationView,
    error: Option<Seq<char>>,
    shares: Seq<UsageShare>,
)
    ensures
        cycle.after_lookup(lookup).stage is Deliver <==> (lookup matches Ok(found)
            && found.state is NotDelivered),
        !(cycle.after_observation(observation).stage is Deliver),
        !(cycle.after_persistence(error).stage is Deliver),
        !(cycle.after_measuring(shares).stage is Deliver),
        !(cycle.after_delivery(error).stage is Deliver),
        !(cycle.after_record(error).stage is Deliver),
{
}

/// How far a cycle is from its end: accounts, then what is left of the current one.
pub open spec fn distance(cycle: PollingView) -> (int, int, int, int, int) {
    (
        cycle.owners.len() - cycle.polls.len(),
        match cycle.stage {
            PollingStage::Observe => 2int,
            PollingStage::Persist => 1,
            _ => 0,
        },
        cycle.pending.len() - cycle.measured,
        cycle.candidates.len() - cycle.notifications.len(),
        match cycle.stage {
            PollingStage::LookUp => 2int,
            PollingStage::Deliver => 1,
            _ => 0,
        },
    )
}

/// Whether the first of two distances is the shorter one.
pub open spec fn nearer(a: (int, int, int, int, int), b: (int, int, int, int, int)) -> bool {
    ||| a.0 < b.0
    ||| a.0 == b.0 && a.1 < b.1
    ||| a.0 == b.0 && a.1 == b.1 && a.2 < b.2
    ||| a.0 == b.0 && a.1 == b.1 && a.2 == b.2 && a.3 < b.3
    ||| a.0 == b.0 && a.1 == b.1 && a.2 == b.2 && a.3 == b.3 && a.4 < b.4
}

/// A cycle ends: every answer brings it nearer to its end, where there is nothing left to ask.
pub proof fn a_cycle_ends(
    cycle: PollingView,
    lookup: Result<UsageQuotaAlertReceiptLookupView, Seq<char>>,
    observation: AccountUsageObservationView,
    error: Option<Seq<char>>,
    shares: Seq<UsageShare>,
)
    requires
        cycle.sound(),
    ensures
        cycle.stage is Observe ==> nearer(distance(cycle.after_observation(observation)), distance(cycle)),
        cycle.stage is Persist ==> nearer(distance(cycle.after_persistence(error)), distance(cycle)),
        cycle.stage is Measure ==> nearer(distance(cycle.after_measuring(shares)), distance(cycle)),
        cycle.stage is LookUp ==> nearer(distance(cycle.after_lookup(lookup)), distance(cycle)),
        cycle.stage is Deliver ==> nearer(distance(cycle.after_delivery(error)), distance(cycle)),
        cycle.stage is Record ==> nearer(distance(cycle.after_record(error)), distance(cycle)),
        cycle.stage is Done ==> cycle.polls.len() == cycle.owners.len(),
        cycle.owners.len() - cycle.polls.len() >= 0,
{
}

/// Whether two are one billed account: of one kind, with the same provider and the same login
/// whatever the case of their letters.
pub open spec fn one_owner(a: BillingOwnerView, b: BillingOwnerView) -> bool {
    a.kind == b.kind && equal_but_for_case(a.provider, b.provider) && equal_but_for_case(a.login, b.login)
}

proof fn lemma_one_owner(a: BillingOwnerView, b: BillingOwnerView)
    ensures
        same_billing_owner(a, b) <==> one_owner(a, b),
{
    case_is_disregarded(a.provider, b.provider);
    case_is_disregarded(a.login, b.login);
}

/// The accounts that are looked at are those that have an allowance: each of them is there, none is
/// there twice, and no other is there.
pub proof fn the_owners_are_those_with_an_allowance(allowances: Seq<(BillingOwnerView, UsageAllowanceView)>)
    ensures
        ({
            let owners = unique_owners(allowances);
            &&& forall|a: (BillingOwnerView, UsageAllowanceView)| #[trigger]
                allowances.contains(a) ==> exists|k: int| 0 <= k < owners.len() && one_owner(#[trigger] owners[k], a.0)
            &&& forall|i: int, j: int|
                0 <= i < j < owners.len() ==> !one_owner(#[trigger] owners[i], #[trigger] owners[j])
            &&& forall|k: int| 0 <= k < owners.len() ==> has_allowance(allowances, #[trigger] owners[k])
        }),
{
    let owners = unique_owners(allowances);
    every_owner_is_looked_at_once(allowances);
    assert forall|a: (BillingOwnerView, UsageAllowanceView)| #[trigger] allowances.contains(a) implies exists|k: int|
        0 <= k < owners.len() && one_owner(#[trigger] owners[k], a.0) by {
        let i = choose|i: int| 0 <= i < allowances.len() && allowances[i] == a;
        assert(owner_among(owners, allowances[i].0));
        let k = choose|k: int| 0 <= k < owners.len() && same_billing_owner(#[trigger] owners[k], a.0);
        lemma_one_owner(owners[k], a.0);
    }
    assert forall|i: int, j: int| 0 <= i < j < owners.len() implies !one_owner(
        #[trigger] owners[i],
        #[trigger] owners[j],
    ) by {
        lemma_one_owner(owners[i], owners[j]);
    }
    lemma_owners_have_allowances(allowances);
}

/// Whether an account is that of an allowance.
pub open spec fn has_allowance(allowances: Seq<(BillingOwnerView, UsageAllowanceView)>, owner: BillingOwnerView) -> bool {
    exists|i: int| 0 <= i < allowances.len() && (#[trigger] allowances[i]).0 == owner
}

proof fn lemma_owners_have_allowances(allowances: Seq<(BillingOwnerView, UsageAllowanceView)>)
    ensures
        forall|k: int|
            0 <= k < unique_owners(allowances).len() ==> has_allowance(allowances, #[trigger] unique_owners(allowances)[k]),
    decreases allowances.len(),
{
    if allowances.len() > 0 {
        let rest = allowances.drop_last();
        let before = unique_owners(rest);
        let all = unique_owners(allowances);
        lemma_owners_have_allowances(rest);
        assert forall|k: int| 0 <= k < all.len() implies has_allowance(allowances, #[trigger] all[k]) by {
            if k < before.len() {
                assert(all[k] == before[k]);
                assert(has_allowance(rest, before[k]));
                let i = choose|i: int| 0 <= i < rest.len() && (#[trigger] rest[i]).0 == before[k];
                assert(allowances[i].0 == all[k]);
            } else {
                assert(allowances[allowances.len() - 1].0 == all[k]);
            }
        }
    }
}

/// The allowances of an account are all those that were set for it, in their order, and no others.
pub proof fn an_owner_has_its_own_allowances(
    allowances: Seq<(BillingOwnerView, UsageAllowanceView)>,
    owner: BillingOwnerView,
)
    ensures
        allowances_of(allowances, owner) == allowances.filter(
            |a: (BillingOwnerView, UsageAllowanceView)| one_owner(a.0, owner),
        ).map_values(|a: (BillingOwnerView, UsageAllowanceView)| a.1),
    decreases allowances.len(),
{
    reveal(Seq::filter);
    let p = |a: (BillingOwnerView, UsageAllowanceView)| one_owner(a.0, owner);
    let f = |a: (BillingOwnerView, UsageAllowanceView)| a.1;
    if allowances.len() > 0 {
        an_owner_has_its_own_allowances(allowances.drop_last(), owner);
        lemma_one_owner(allowances.last().0, owner);
        let before = allowances.drop_last().filter(p);
        assert(before.push(allowances.last()).map_values(f) =~= before.map_values(f).push(f(allowances.last())));
    } else {
        assert(allowances.filter(p).map_values(f) =~= Seq::empty());
    }
}

/// An evaluation calls for an alert where the usage is known and not healthy and the evaluation
/// names an alert, and nowhere else; the alert is the one that it names.
pub proof fn alerts_are_called_for_by_evaluations(evaluation: UsageQuotaEvaluationView)
    ensures
        candidate_of(evaluation) is Some <==> evaluation.alert_key is Some && evaluation.status is Known
            && evaluation.status->level != UsageQuotaLevel::Healthy,
        candidate_of(evaluation) matches Some(candidate) ==> candidate.key == evaluation.alert_key->0
            && candidate.evaluation == evaluation,
{
}

/// An observation that could not be stored leads to nothing: the account is reported so, without
/// evaluations and alerts, and the next account comes. One that was stored is held against each
/// allowance of the account, where thresholds are set.
pub proof fn only_stored_observations_count(cycle: PollingView, error: Option<Seq<char>>)
    requires
        cycle.stage == PollingStage::Persist,
        cycle.observation is Some,
        cycle.polls.len() < cycle.owners.len(),
        cycle.notifications.len() == 0,
        cycle.candidates.len() == 0,
    ensures
        ({
            let owner = cycle.owners[cycle.polls.len() as int];
            let next = cycle.after_persistence(error);
            let allowances = allowances_of(cycle.allowances, owner);
            &&& error is Some ==> {
                let poll = next.polls.last();
                &&& next.polls.len() == cycle.polls.len() + 1
                &&& poll.owner == owner
                &&& poll.observation == cycle.observation->0
                &&& !poll.persisted && poll.persistence_error == error
                &&& poll.evaluations.len() == 0 && poll.evaluation_errors.len() == 0 && poll.notifications.len() == 0
            }
            &&& error is None && cycle.thresholds is Some && allowances.len() > 0 ==> next.stage
                == PollingStage::Measure && next.pending == allowances && next.measured == 0 && next.polls == cycle.polls
            &&& error is None && (cycle.thresholds is None || allowances.len() == 0) ==> next.polls.len()
                == cycle.polls.len() + 1 && next.polls.last().persisted && next.polls.last().persistence_error is None
                && next.polls.last().observation == cycle.observation->0
            &&& next.polls.len() == cycle.owners.len() ==> next.stage == PollingStage::Done
        }),
{
}

/// Each allowance of an account is held against the observation; an allowance that makes no sense is
/// reported as such, and the others are evaluated all the same.
pub proof fn each_allowance_is_evaluated(cycle: PollingView, shares: Seq<UsageShare>)
    requires
        cycle.stage == PollingStage::Measure,
        cycle.thresholds is Some,
        cycle.observation is Some,
        0 <= cycle.measured < cycle.pending.len() - 1,
    ensures
        ({
            let allowance = cycle.pending[cycle.measured];
            let problem = quota_problem(Some(allowance), cycle.thresholds->0);
            let evaluation = quota_evaluation(
                cycle.observation->0,
                Some(allowance),
                cycle.thresholds->0,
                cycle.evaluated_at,
                cycle.max_age,
                shares,
            );
            let next = cycle.after_measuring(shares);
            &&& next.measured == cycle.measured + 1
            &&& next.stage == PollingStage::Measure
            &&& problem is Some ==> next.evaluation_errors == cycle.evaluation_errors.push(problem->0)
                && next.evaluations == cycle.evaluations && next.candidates == cycle.candidates
            &&& problem is None ==> next.evaluations == cycle.evaluations.push(evaluation) && next.evaluation_errors
                == cycle.evaluation_errors
            &&& problem is None && candidate_of(evaluation) is Some ==> next.candidates == cycle.candidates.push(
                candidate_of(evaluation)->0,
            )
            &&& problem is None && candidate_of(evaluation) is None ==> next.candidates == cycle.candidates
            &&& next.polls == cycle.polls && next.notifications == cycle.notifications
        }),
{
}

/// What becomes of an alert: one that went out before is suppressed; where that is not known, it is
/// not sent; one that is new is sent, and counts as delivered only where it went out and that was
/// recorded.
pub proof fn an_alert_is_dealt_with_once(
    cycle: PollingView,
    lookup: Result<UsageQuotaAlertReceiptLookupView, Seq<char>>,
    error: Option<Seq<char>>,
)
    requires
        cycle.measured >= cycle.pending.len(),
        cycle.notifications.len() + 1 < cycle.candidates.len(),
    ensures
        ({
            let key = cycle.candidates[cycle.notifications.len() as int].key;
            let looked = cycle.after_lookup(lookup);
            let sent = cycle.after_delivery(error);
            let recorded = cycle.after_record(error);
            &&& lookup is Ok && lookup->Ok_0.state is NotDelivered ==> looked.stage == PollingStage::Deliver
                && looked.notifications == cycle.notifications
            &&& lookup is Ok && lookup->Ok_0.state is Delivered ==> looked.notifications == cycle.notifications.push(
                UsageQuotaNotificationOutcomeView::SuppressedDuplicate { key },
            )
            &&& lookup is Ok && lookup->Ok_0.state is Unknown ==> looked.notifications == cycle.notifications.push(
                UsageQuotaNotificationOutcomeView::FailClosed { key, issues: lookup->Ok_0.issues },
            )
            &&& lookup is Err ==> looked.notifications == cycle.notifications.push(
                UsageQuotaNotificationOutcomeView::FailClosed { key, issues: seq![lookup->Err_0] },
            )
            &&& error is None ==> sent.stage == PollingStage::Record && sent.notifications == cycle.notifications
            &&& error is Some ==> sent.notifications == cycle.notifications.push(
                UsageQuotaNotificationOutcomeView::DeliveryFailed { key, message: error->0 },
            )
            &&& error is None ==> recorded.notifications == cycle.notifications.push(
                UsageQuotaNotificationOutcomeView::Delivered { key },
            )
            &&& error is Some ==> recorded.notifications == cycle.notifications.push(
                UsageQuotaNotificationOutcomeView::ReceiptFailed { key, message: error->0 },
            )
            &&& recorded.stage == PollingStage::LookUp
            &&& looked.polls == cycle.polls && sent.polls == cycle.polls && recorded.polls == cycle.polls
        }),
{
}

/// A cycle starts with the first account and ends at once where there is none. Once all alerts of an
/// account are dealt with, its report holds the observation, the evaluations and what became of the
/// alerts, and the next account comes.
pub proof fn a_cycle_takes_each_account_in_turn(
    period: BillingPeriod,
    evaluated_at: Timestamp,
    allowances: Seq<(BillingOwnerView, UsageAllowanceView)>,
    thresholds: Option<UsagePercentageThresholds>,
    max_age: u128,
    cycle: PollingView,
    observation: AccountUsageObservationView,
)
    ensures
        ({
            let start = PollingView::started(period, evaluated_at, allowances, thresholds, max_age);
            &&& start.stage == PollingStage::Done <==> allowances.len() == 0
            &&& start.stage == PollingStage::Observe <==> allowances.len() > 0
            &&& start.allowances == allowances && start.owners == unique_owners(allowances)
            &&& start.period == period && start.evaluated_at == evaluated_at
            &&& start.thresholds == thresholds && start.max_age == max_age
            &&& start.polls.len() == 0
        }),
        cycle.after_observation(observation).stage == PollingStage::Persist,
        cycle.after_observation(observation).observation == Some(observation),
        ({
            let next = cycle.owner_finished();
            let poll = next.polls.last();
            &&& next.polls.len() == cycle.polls.len() + 1
            &&& poll.owner == cycle.owners[cycle.polls.len() as int]
            &&& poll.observation == cycle.observation->0
            &&& poll.persisted && poll.persistence_error is None
            &&& poll.evaluations == cycle.evaluations
            &&& poll.evaluation_errors == cycle.evaluation_errors
            &&& poll.notifications == cycle.notifications
            &&& next.stage == PollingStage::Done <==> next.polls.len() == cycle.owners.len()
            &&& next.stage == PollingStage::Observe <==> next.polls.len() != cycle.owners.len()
            &&& next.observation is None && next.evaluations.len() == 0 && next.notifications.len() == 0
        }),
{
    if allowances.len() > 0 {
        every_owner_is_looked_at_once(allowances);
        assert(owner_among(unique_owners(allowances), allowances[0].0));
    }
}

} // verus!
