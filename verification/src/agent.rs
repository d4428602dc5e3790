//! What a daemon tells of itself, and how it is asked.
use crate::account_usage::AccountUsageAvailability;
use crate::account_usage_monitoring::{
    AccountUsageOwnerPollView, AccountUsagePollingCycle, AccountUsagePollingCycleView, UsageQuotaNotificationOutcome,
    UsageQuotaNotificationOutcomeView,
};
use crate::model::{Account, AccountView, ScanScope, ScanScopeView};
use crate::monitoring::MonitoringNotificationSignal;
use crate::order::tally;
use crate::text::{decimal, join4, number};
use crate::time::Timestamp;
use crate::value::{nothing, Value};
use vstd::prelude::*;

verus! {

pub const DAEMON_PROTOCOL_SCHEMA_VERSION: u32 = 2;

/// What a daemon is doing.
#[derive(Clone, Copy, Debug, PartialEq, Eq, Structural)]
pub enum DaemonRuntimeState {
    Starting,
    Running,
    Stopping,
}

impl DeepView for DaemonRuntimeState {
    type V = DaemonRuntimeState;

    open spec fn deep_view(&self) -> DaemonRuntimeState {
        *self
    }
}

impl Value for DaemonRuntimeState {
    fn copied(&self) -> (result: Self) {
        *self
    }

    fn same(&self, other: &Self) -> (result: bool) {
        *self == *other
    }
}

/// What a daemon can do.
#[derive(Clone, Copy, Debug, Default, PartialEq, Eq, Structural)]
pub struct DaemonCapabilities {
    pub monitoring: bool,
    pub account_usage_monitoring: bool,
    pub policy_classification: bool,
    pub destructive_cleanup: bool,
    pub event_stream: bool,
}

/// A look at the usage of all accounts, in numbers.
#[derive(Clone, Copy, Debug, Default, PartialEq, Eq, Structural)]
pub struct DaemonAccountUsageSummary {
    pub owner_count: usize,
    pub available_owner_count: usize,
    pub unavailable_owner_count: usize,
    pub persisted_owner_count: usize,
    pub persistence_failure_count: usize,
    pub evaluation_count: usize,
    pub evaluation_error_count: usize,
    pub delivered_notification_count: usize,
    pub suppressed_notification_count: usize,
    pub failed_notification_count: usize,
}

impl DeepView for DaemonCapabilities {
    type V = DaemonCapabilities;

    open spec fn deep_view(&self) -> DaemonCapabilities {
        *self
    }
}

impl DeepView for DaemonAccountUsageSummary {
    type V = DaemonAccountUsageSummary;

    open spec fn deep_view(&self) -> DaemonAccountUsageSummary {
        *self
    }
}

/// What a daemon tells of itself.
#[derive(Clone, Debug, PartialEq, Eq)]
pub struct DaemonStatus {
    pub schema_version: u32,
    pub state: DaemonRuntimeState,
    pub started_at: Timestamp,
    pub account: Option<Account>,
    pub scope: Option<ScanScope>,
    pub exclude_repositories: Vec<String>,
    pub last_monitoring_at: Option<Timestamp>,
    pub next_monitoring_at: Option<Timestamp>,
    pub last_notification: Option<MonitoringNotificationSignal>,
    pub last_account_usage_at: Option<Timestamp>,
    pub next_account_usage_at: Option<Timestamp>,
    pub last_account_usage_summary: Option<DaemonAccountUsageSummary>,
    pub pending_destructive_intents: usize,
    pub automatic_cleanup_enabled: bool,
    pub capabilities: DaemonCapabilities,
}

/// The contents of [`DaemonStatus`].
#[verifier::ext_equal]
pub struct DaemonStatusView {
    pub schema_version: u32,
    pub state: DaemonRuntimeState,
    pub started_at: Timestamp,
    pub account: Option<AccountView>,
    pub scope: Option<ScanScopeView>,
    pub exclude_repositories: Seq<Seq<char>>,
    pub last_monitoring_at: Option<Timestamp>,
    pub next_monitoring_at: Option<Timestamp>,
    pub last_notification: Option<MonitoringNotificationSignal>,
    pub last_account_usage_at: Option<Timestamp>,
    pub next_account_usage_at: Option<Timestamp>,
    pub last_account_usage_summary: Option<DaemonAccountUsageSummary>,
    pub pending_destructive_intents: usize,
    pub automatic_cleanup_enabled: bool,
    pub capabilities: DaemonCapabilities,
}

impl DeepView for DaemonStatus {
    type V = DaemonStatusView;

    open spec fn deep_view(&self) -> DaemonStatusView {
        DaemonStatusView {
            schema_version: self.schema_version,
            state: self.state,
            started_at: self.started_at,
            account: self.account.deep_view(),
            scope: self.scope.deep_view(),
            exclude_repositories: self.exclude_repositories.deep_view(),
            last_monitoring_at: self.last_monitoring_at,
            next_monitoring_at: self.next_monitoring_at,
            last_notification: self.last_notification,
            last_account_usage_at: self.last_account_usage_at,
            next_account_usage_at: self.next_account_usage_at,
            last_account_usage_summary: self.last_account_usage_summary,
            pending_destructive_intents: self.pending_destructive_intents,
            automatic_cleanup_enabled: self.automatic_cleanup_enabled,
            capabilities: self.capabilities,
        }
    }
}

impl DaemonStatus {
    /// The same status once more.
    pub fn copied(&self) -> (result: Self)
        ensures
            result.deep_view() == self.deep_view(),
    {
        DaemonStatus {
            schema_version: self.schema_version,
            state: self.state,
            started_at: self.started_at,
            account: self.account.copied(),
            scope: self.scope.copied(),
            exclude_repositories: self.exclude_repositories.copied(),
            last_monitoring_at: self.last_monitoring_at,
            next_monitoring_at: self.next_monitoring_at,
            last_notification: self.last_notification,
            last_account_usage_at: self.last_account_usage_at,
            next_account_usage_at: self.next_account_usage_at,
            last_account_usage_summary: self.last_account_usage_summary,
            pending_destructive_intents: self.pending_destructive_intents,
            automatic_cleanup_enabled: self.automatic_cleanup_enabled,
            capabilities: self.capabilities,
        }
    }
}

/// What a daemon can be asked for.
#[derive(Clone, Copy, Debug, PartialEq, Eq, Structural)]
pub enum DaemonCommand {
    Status,
    RunMonitoringNow,
    Shutdown,
}

impl DeepView for DaemonCommand {
    type V = DaemonCommand;

    open spec fn deep_view(&self) -> DaemonCommand {
        *self
    }
}

impl Value for DaemonCommand {
    fn copied(&self) -> (result: Self) {
        *self
    }

    fn same(&self, other: &Self) -> (result: bool) {
        *self == *other
    }
}

/// A request to a daemon.
#[derive(Clone, Debug, PartialEq, Eq)]
pub struct DaemonRequest {
    pub schema_version: u32,
    pub request_id: String,
    pub command: DaemonCommand,
}

/// The contents of [`DaemonRequest`].
#[verifier::ext_equal]
pub struct DaemonRequestView {
    pub schema_version: u32,
    pub request_id: Seq<char>,
    pub command: DaemonCommand,
}

impl DeepView for DaemonRequest {
    type V = DaemonRequestView;

    open spec fn deep_view(&self) -> DaemonRequestView {
        DaemonRequestView {
            schema_version: self.schema_version,
            request_id: self.request_id.deep_view(),
            command: self.command,
        }
    }
}

/// Why a daemon refuses a request.
#[derive(Clone, Copy, Debug, PartialEq, Eq, Structural)]
pub enum DaemonControlErrorCode {
    InvalidRequest,
    SchemaMismatch,
    Unsupported,
    Unavailable,
    Internal,
}

impl DeepView for DaemonControlErrorCode {
    type V = DaemonControlErrorCode;

    open spec fn deep_view(&self) -> DaemonControlErrorCode {
        *self
    }
}

impl Value for DaemonControlErrorCode {
    fn copied(&self) -> (result: Self) {
        *self
    }

    fn same(&self, other: &Self) -> (result: bool) {
        *self == *other
    }
}

/// A refusal.
#[derive(Clone, Debug, PartialEq, Eq)]
pub struct DaemonControlError {
    pub code: DaemonControlErrorCode,
    pub message: String,
}

/// The contents of [`DaemonControlError`].
#[verifier::ext_equal]
pub struct DaemonControlErrorView {
    pub code: DaemonControlErrorCode,
    pub message: Seq<char>,
}

impl DeepView for DaemonControlError {
    type V = DaemonControlErrorView;

    open spec fn deep_view(&self) -> DaemonControlErrorView {
        DaemonControlErrorView {
            code: self.code,
            message: self.message.deep_view(),
        }
    }
}

/// An answer.
#[derive(Clone, Debug, PartialEq, Eq)]
pub enum DaemonReply {
    Status { status: DaemonStatus },
    ShutdownAccepted,
}

/// The contents of [`DaemonReply`].
#[verifier::ext_equal]
pub enum DaemonReplyView {
    Status { status: DaemonStatusView },
    ShutdownAccepted,
}

impl DeepView for DaemonReply {
    type V = DaemonReplyView;

    open spec fn deep_view(&self) -> DaemonReplyView {
        match self {
            DaemonReply::Status { status } => DaemonReplyView::Status { status: status.deep_view() },
            DaemonReply::ShutdownAccepted => DaemonReplyView::ShutdownAccepted,
        }
    }
}

/// An answer or a refusal.
#[derive(Clone, Debug, PartialEq, Eq)]
pub enum DaemonResponseOutcome {
    Success { reply: DaemonReply },
    Error { error: DaemonControlError },
}

/// The contents of [`DaemonResponseOutcome`].
#[verifier::ext_equal]
pub enum DaemonResponseOutcomeView {
    Success { reply: DaemonReplyView },
    Error { error: DaemonControlErrorView },
}

impl DeepView for DaemonResponseOutcome {
    type V = DaemonResponseOutcomeView;

    open spec fn deep_view(&self) -> DaemonResponseOutcomeView {
        match self {
            DaemonResponseOutcome::Success { reply } => DaemonResponseOutcomeView::Success { reply: reply.deep_view() },
            DaemonResponseOutcome::Error { error } => DaemonResponseOutcomeView::Error { error: error.deep_view() },
        }
    }
}

/// What a daemon says to a request.
#[derive(Clone, Debug, PartialEq, Eq)]
pub struct DaemonResponse {
    pub schema_version: u32,
    pub request_id: String,
    pub outcome: DaemonResponseOutcome,
}

/// The contents of [`DaemonResponse`].
#[verifier::ext_equal]
pub struct DaemonResponseView {
    pub schema_version: u32,
    pub request_id: Seq<char>,
    pub outcome: DaemonResponseOutcomeView,
}

impl DeepView for DaemonResponse {
    type V = DaemonResponseView;

    open spec fn deep_view(&self) -> DaemonResponseView {
        DaemonResponseView {
            schema_version: self.schema_version,
            request_id: self.request_id.deep_view(),
            outcome: self.outcome.deep_view(),
        }
    }
}

/// A request to be told of events.
#[derive(Clone, Debug, PartialEq, Eq)]
pub struct DaemonEventSubscriptionRequest {
    pub schema_version: u32,
    pub subscription_id: String,
}

/// The contents of [`DaemonEventSubscriptionRequest`].
#[verifier::ext_equal]
pub struct DaemonEventSubscriptionRequestView {
    pub schema_version: u32,
    pub subscription_id: Seq<char>,
}

impl DeepView for DaemonEventSubscriptionRequest {
    type V = DaemonEventSubscriptionRequestView;

    open spec fn deep_view(&self) -> DaemonEventSubscriptionRequestView {
        DaemonEventSubscriptionRequestView {
            schema_version: self.schema_version,
            subscription_id: self.subscription_id.deep_view(),
        }
    }
}

/// Something that happened.
#[derive(Clone, Debug, PartialEq)]
pub enum DaemonEvent {
    StatusChanged { status: DaemonStatus },
    MonitoringSignal { occurred_at: Timestamp, signal: MonitoringNotificationSignal },
    AccountUsageCycle { cycle: AccountUsagePollingCycle },
    Error { occurred_at: Timestamp, message: String },
}

/// The contents of [`DaemonEvent`].
#[verifier::ext_equal]
pub enum DaemonEventView {
    StatusChanged { status: DaemonStatusView },
    MonitoringSignal { occurred_at: Timestamp, signal: MonitoringNotificationSignal },
    AccountUsageCycle { cycle: AccountUsagePollingCycleView },
    Error { occurred_at: Timestamp, message: Seq<char> },
}

impl DeepView for DaemonEvent {
    type V = DaemonEventView;

    open spec fn deep_view(&self) -> DaemonEventView {
        match self {
            DaemonEvent::StatusChanged { status } => DaemonEventView::StatusChanged { status: status.deep_view() },
            DaemonEvent::MonitoringSignal { occurred_at, signal } => DaemonEventView::MonitoringSignal { occurred_at: *occurred_at, signal: *signal },
            DaemonEvent::AccountUsageCycle { cycle } => DaemonEventView::AccountUsageCycle { cycle: cycle.deep_view() },
            DaemonEvent::Error { occurred_at, message } => DaemonEventView::Error { occurred_at: *occurred_at, message: message.deep_view() },
        }
    }
}

/// How often `p` holds of the accounts.
pub open spec fn owners_with(
    owners: Seq<AccountUsageOwnerPollView>,
    p: spec_fn(AccountUsageOwnerPollView) -> bool,
) -> nat
    decreases owners.len(),
{
    if owners.len() == 0 {
        0
    } else {
        owners_with(owners.drop_last(), p) + if p(owners.last()) {
            1nat
        } else {
            0nat
        }
    }
}

/// The sum of `f` over the accounts.
pub open spec fn sum_over(owners: Seq<AccountUsageOwnerPollView>, f: spec_fn(AccountUsageOwnerPollView) -> nat) -> nat
    decreases owners.len(),
{
    if owners.len() == 0 {
        0
    } else {
        sum_over(owners.drop_last(), f) + f(owners.last())
    }
}

/// How many alerts had an outcome of which `p` holds.
pub open spec fn outcomes_with(
    outcomes: Seq<UsageQuotaNotificationOutcomeView>,
    p: spec_fn(UsageQuotaNotificationOutcomeView) -> bool,
) -> nat
    decreases outcomes.len(),
{
    if outcomes.len() == 0 {
        0
    } else {
        outcomes_with(outcomes.drop_last(), p) + if p(outcomes.last()) {
            1nat
        } else {
            0nat
        }
    }
}

pub open spec fn is_delivered() -> spec_fn(UsageQuotaNotificationOutcomeView) -> bool {
    |outcome: UsageQuotaNotificationOutcomeView| outcome is Delivered
}

pub open spec fn is_suppressed() -> spec_fn(UsageQuotaNotificationOutcomeView) -> bool {
    |outcome: UsageQuotaNotificationOutcomeView| outcome is SuppressedDuplicate
}

/// Neither delivered nor suppressed.
pub open spec fn is_failed() -> spec_fn(UsageQuotaNotificationOutcomeView) -> bool {
    |outcome: UsageQuotaNotificationOutcomeView| !(outcome is Delivered) && !(outcome is SuppressedDuplicate)
}

pub open spec fn is_available() -> spec_fn(AccountUsageOwnerPollView) -> bool {
    |poll: AccountUsageOwnerPollView| poll.observation.availability is Available
}

pub open spec fn is_persisted() -> spec_fn(AccountUsageOwnerPollView) -> bool {
    |poll: AccountUsageOwnerPollView| poll.persisted
}

pub open spec fn evaluation_number() -> spec_fn(AccountUsageOwnerPollView) -> nat {
    |poll: AccountUsageOwnerPollView| poll.evaluations.len()
}

pub open spec fn error_number() -> spec_fn(AccountUsageOwnerPollView) -> nat {
    |poll: AccountUsageOwnerPollView| poll.evaluation_errors.len()
}

pub open spec fn notification_number() -> spec_fn(AccountUsageOwnerPollView) -> nat {
    |poll: AccountUsageOwnerPollView| poll.notifications.len()
}

/// How many alerts of an account had an outcome of which `p` holds.
pub open spec fn outcome_number(
    p: spec_fn(UsageQuotaNotificationOutcomeView) -> bool,
) -> spec_fn(AccountUsageOwnerPollView) -> nat {
    |poll: AccountUsageOwnerPollView| outcomes_with(poll.notifications, p)
}

/// Whether the numbers of a cycle can be counted.
pub open spec fn countable(owners: Seq<AccountUsageOwnerPollView>) -> bool {
    &&& sum_over(owners, evaluation_number()) <= usize::MAX
    &&& sum_over(owners, error_number()) <= usize::MAX
    &&& sum_over(owners, notification_number()) <= usize::MAX
}

/// A cycle in numbers.
pub open spec fn summary_of(owners: Seq<AccountUsageOwnerPollView>) -> DaemonAccountUsageSummary {
    DaemonAccountUsageSummary {
        owner_count: owners.len() as usize,
        available_owner_count: owners_with(owners, is_available()) as usize,
        unavailable_owner_count: (owners.len() - owners_with(owners, is_available())) as usize,
        persisted_owner_count: owners_with(owners, is_persisted()) as usize,
        persistence_failure_count: (owners.len() - owners_with(owners, is_persisted())) as usize,
        evaluation_count: sum_over(owners, evaluation_number()) as usize,
        evaluation_error_count: sum_over(owners, error_number()) as usize,
        delivered_notification_count: sum_over(owners, outcome_number(is_delivered())) as usize,
        suppressed_notification_count: sum_over(owners, outcome_number(is_suppressed())) as usize,
        failed_notification_count: sum_over(owners, outcome_number(is_failed())) as usize,
    }
}

proof fn lemma_prefix(owners: Seq<AccountUsageOwnerPollView>, i: int)
    requires
        0 <= i <= owners.len(),
    ensures
        owners_with(owners.take(i), is_available()) <= i,
        owners_with(owners.take(i), is_persisted()) <= i,
        sum_over(owners.take(i), evaluation_number()) <= sum_over(owners, evaluation_number()),
        sum_over(owners.take(i), error_number()) <= sum_over(owners, error_number()),
        sum_over(owners.take(i), notification_number()) <= sum_over(owners, notification_number()),
        sum_over(owners.take(i), outcome_number(is_delivered())) + sum_over(
            owners.take(i),
            outcome_number(is_suppressed()),
        ) + sum_over(owners.take(i), outcome_number(is_failed())) == sum_over(
            owners.take(i),
            notification_number(),
        ),
    decreases owners.len(), i,
{
    if i == owners.len() {
        assert(owners.take(i) =~= owners);
    } else {
        assert(owners.drop_last().take(i) =~= owners.take(i));
        lemma_prefix(owners.drop_last(), i);
    }
    if i > 0 {
        assert(owners.take(i).drop_last() =~= owners.take(i - 1));
        if i == owners.len() {
            lemma_prefix(owners, i - 1);
        } else {
            lemma_prefix(owners.take(i), i - 1);
            assert(owners.take(i).take(i - 1) =~= owners.take(i - 1));
        }
        lemma_outcomes(owners[i - 1].notifications);
        assert(owners.take(i).last() == owners[i - 1]);
    }
}

/// Every outcome is delivered, suppressed or failed.
proof fn lemma_outcomes(outcomes: Seq<UsageQuotaNotificationOutcomeView>)
    ensures
        outcomes_with(outcomes, is_delivered()) + outcomes_with(outcomes, is_suppressed()) + outcomes_with(
            outcomes,
            is_failed(),
        ) == outcomes.len(),
    decreases outcomes.len(),
{
    if outcomes.len() > 0 {
        lemma_outcomes(outcomes.drop_last());
    }
}

/// The numbers of a cycle add up: accounts are available or not, stored or not, and alerts are
/// delivered, suppressed or failed.
pub proof fn the_numbers_of_a_cycle_add_up(owners: Seq<AccountUsageOwnerPollView>)
    requires
        countable(owners),
        owners.len() <= usize::MAX,
    ensures
        ({
            let summary = summary_of(owners);
            &&& summary.available_owner_count + summary.unavailable_owner_count == summary.owner_count
            &&& summary.persisted_owner_count + summary.persistence_failure_count == summary.owner_count
            &&& summary.delivered_notification_count + summary.suppressed_notification_count
                + summary.failed_notification_count == sum_over(owners, notification_number())
        }),
{
    lemma_prefix(owners, owners.len() as int);
    assert(owners.take(owners.len() as int) =~= owners);
}

fn count_outcomes(outcomes: &Vec<UsageQuotaNotificationOutcome>) -> (result: (usize, usize, usize))
    ensures
        result.0 == outcomes_with(outcomes.deep_view(), is_delivered()),
        result.1 == outcomes_with(outcomes.deep_view(), is_suppressed()),
        result.2 == outcomes_with(outcomes.deep_view(), is_failed()),
        result.0 + result.1 + result.2 == outcomes.len(),
{
    let ghost all = outcomes.deep_view();
    let mut delivered: usize = 0;
    let mut suppressed: usize = 0;
    let mut failed: usize = 0;
    let mut i: usize = 0;
    assert(all.take(0) =~= Seq::empty());
    while i < outcomes.len()
        invariant
            i <= outcomes.len(),
            all == outcomes.deep_view(),
            delivered + suppressed + failed == i,
            delivered == outcomes_with(all.take(i as int), is_delivered()),
            suppressed == outcomes_with(all.take(i as int), is_suppressed()),
            failed == outcomes_with(all.take(i as int), is_failed()),
        decreases outcomes.len() - i,
    {
        assert(all.take(i + 1).drop_last() =~= all.take(i as int));
        assert(all.take(i + 1).last() == outcomes@[i as int].deep_view());
        match &outcomes[i] {
            UsageQuotaNotificationOutcome::Delivered { .. } => {
                delivered = delivered + 1;
            },
            UsageQuotaNotificationOutcome::SuppressedDuplicate { .. } => {
                suppressed = suppressed + 1;
            },
            UsageQuotaNotificationOutcome::FailClosed { .. } => {
                failed = failed + 1;
            },
            UsageQuotaNotificationOutcome::DeliveryFailed { .. } => {
                failed = failed + 1;
            },
            UsageQuotaNotificationOutcome::ReceiptFailed { .. } => {
                failed = failed + 1;
            },
        }
        i = i + 1;
    }
    assert(all.take(i as int) =~= all);
    (delivered, suppressed, failed)
}

impl DaemonAccountUsageSummary {
    /// A cycle in numbers.
    pub fn from_cycle(cycle: &AccountUsagePollingCycle) -> (result: Self)
        requires
            countable(cycle.deep_view().owners),
        ensures
            result == summary_of(cycle.deep_view().owners),
    {
        let ghost all = cycle.owners.deep_view();
        let mut summary = DaemonAccountUsageSummary {
            owner_count: 0,
            available_owner_count: 0,
            unavailable_owner_count: 0,
            persisted_owner_count: 0,
            persistence_failure_count: 0,
            evaluation_count: 0,
            evaluation_error_count: 0,
            delivered_notification_count: 0,
            suppressed_notification_count: 0,
            failed_notification_count: 0,
        };
        let mut i: usize = 0;
        assert(all.take(0) =~= Seq::empty());
        while i < cycle.owners.len()
            invariant
                i <= cycle.owners.len(),
                all == cycle.owners.deep_view(),
                countable(all),
                summary.owner_count == i,
                summary.available_owner_count == owners_with(all.take(i as int), is_available()),
                summary.available_owner_count + summary.unavailable_owner_count == i,
                summary.persisted_owner_count == owners_with(all.take(i as int), is_persisted()),
                summary.persisted_owner_count + summary.persistence_failure_count == i,
                summary.evaluation_count == sum_over(all.take(i as int), evaluation_number()),
                summary.evaluation_error_count == sum_over(all.take(i as int), error_number()),
                summary.delivered_notification_count == sum_over(
                    all.take(i as int),
                    outcome_number(is_delivered()),
                ),
                summary.suppressed_notification_count == sum_over(
                    all.take(i as int),
                    outcome_number(is_suppressed()),
                ),
                summary.failed_notification_count == sum_over(all.take(i as int), outcome_number(is_failed())),
            decreases cycle.owners.len() - i,
        {
            let owner = &cycle.owners[i];
            proof {
                lemma_prefix(all, i + 1);
                assert(all.take(i + 1).drop_last() =~= all.take(i as int));
                assert(all.take(i + 1).last() == owner.deep_view());
                assert(owner.evaluations.deep_view().len() == owner.evaluations.len());
                assert(owner.evaluation_errors.deep_view().len() == owner.evaluation_errors.len());
                assert(owner.notifications.deep_view().len() == owner.notifications.len());
            }
            summary.owner_count = summary.owner_count + 1;
            match &owner.observation.availability {
                AccountUsageAvailability::Available => {
                    summary.available_owner_count = summary.available_owner_count + 1;
                },
                AccountUsageAvailability::Unsupported { .. } => {
                    summary.unavailable_owner_count = summary.unavailable_owner_count + 1;
                },
                AccountUsageAvailability::Unknown { .. } => {
                    summary.unavailable_owner_count = summary.unavailable_owner_count + 1;
                },
            }
            if owner.persisted {
                summary.persisted_owner_count = summary.persisted_owner_count + 1;
            } else {
                summary.persistence_failure_count = summary.persistence_failure_count + 1;
            }
            summary.evaluation_count = summary.evaluation_count + owner.evaluations.len();
            summary.evaluation_error_count = summary.evaluation_error_count + owner.evaluation_errors.len();
            let (delivered, suppressed, failed) = count_outcomes(&owner.notifications);
            summary.delivered_notification_count = summary.delivered_notification_count + delivered;
            summary.suppressed_notification_count = summary.suppressed_notification_count + suppressed;
            summary.failed_notification_count = summary.failed_notification_count + failed;
            i = i + 1;
        }
        assert(all.take(i as int) =~= all);
        summary
    }
}

impl DaemonCapabilities {
    /// Nothing.
    pub open spec fn nothing() -> DaemonCapabilities {
        DaemonCapabilities {
            monitoring: false,
            account_usage_monitoring: false,
            policy_classification: false,
            destructive_cleanup: false,
            event_stream: false,
        }
    }
}

impl DaemonStatusView {
    /// The status of a daemon that starts.
    pub open spec fn starting(started_at: Timestamp) -> DaemonStatusView {
        DaemonStatusView {
            schema_version: DAEMON_PROTOCOL_SCHEMA_VERSION,
            state: DaemonRuntimeState::Starting,
            started_at,
            account: None,
            scope: None,
            exclude_repositories: Seq::empty(),
            last_monitoring_at: None,
            next_monitoring_at: None,
            last_notification: None,
            last_account_usage_at: None,
            next_account_usage_at: None,
            last_account_usage_summary: None,
            pending_destructive_intents: 0,
            automatic_cleanup_enabled: false,
            capabilities: DaemonCapabilities::nothing(),
        }
    }

    /// The status after a look at the usage of all accounts.
    pub open spec fn after_cycle(
        self,
        cycle: AccountUsagePollingCycleView,
        next_check_at: Option<Timestamp>,
    ) -> DaemonStatusView {
        DaemonStatusView {
            last_account_usage_at: Some(cycle.evaluated_at),
            next_account_usage_at: next_check_at,
            last_account_usage_summary: Some(summary_of(cycle.owners)),
            ..self
        }
    }

    /// Whether the daemon deletes nothing by itself.
    pub open spec fn harmless(self) -> bool {
        !self.automatic_cleanup_enabled && !self.capabilities.destructive_cleanup && self.pending_destructive_intents
            == 0
    }
}

impl DaemonStatus {
    /// The status of a daemon that starts. It can do nothing yet, and deletes nothing.
    pub fn starting(started_at: Timestamp) -> (result: Self)
        ensures
            result.deep_view() == DaemonStatusView::starting(started_at),
            result.deep_view().harmless(),
    {
        DaemonStatus {
            schema_version: DAEMON_PROTOCOL_SCHEMA_VERSION,
            state: DaemonRuntimeState::Starting,
            started_at,
            account: None,
            scope: None,
            exclude_repositories: nothing(),
            last_monitoring_at: None,
            next_monitoring_at: None,
            last_notification: None,
            last_account_usage_at: None,
            next_account_usage_at: None,
            last_account_usage_summary: None,
            pending_destructive_intents: 0,
            automatic_cleanup_enabled: false,
            capabilities: DaemonCapabilities {
                monitoring: false,
                account_usage_monitoring: false,
                policy_classification: false,
                destructive_cleanup: false,
                event_stream: false,
            },
        }
    }

    /// Takes note of a look at the usage of all accounts.
    pub fn record_account_usage_cycle(&mut self, cycle: &AccountUsagePollingCycle, next_check_at: Option<Timestamp>)
        requires
            countable(cycle.deep_view().owners),
        ensures
            final(self).deep_view() == old(self).deep_view().after_cycle(cycle.deep_view(), next_check_at),
            old(self).deep_view().harmless() ==> final(self).deep_view().harmless(),
    {
        self.last_account_usage_at = Some(cycle.evaluated_at);
        self.next_account_usage_at = next_check_at;
        self.last_account_usage_summary = Some(DaemonAccountUsageSummary::from_cycle(cycle));
    }
}

/// What is said to a request of another version.
pub open spec fn version_refused(received: u32) -> DaemonControlErrorView {
    DaemonControlErrorView {
        code: DaemonControlErrorCode::SchemaMismatch,
        message: "daemon protocol schema mismatch: received "@ + decimal(received as nat) + ", expected "@ + decimal(
            DAEMON_PROTOCOL_SCHEMA_VERSION as nat,
        ),
    }
}

impl DaemonControlError {
    pub fn new(code: DaemonControlErrorCode, message: &str) -> (result: Self)
        ensures
            result.deep_view() == (DaemonControlErrorView { code, message: message@ }),
    {
        DaemonControlError { code, message: message.to_string() }
    }

    /// What is said to a request of another version.
    pub fn schema_mismatch(received: u32) -> (result: Self)
        ensures
            result.deep_view() == version_refused(received),
    {
        let message = join4(
            "daemon protocol schema mismatch: received ",
            number(received as u64).as_str(),
            ", expected ",
            number(DAEMON_PROTOCOL_SCHEMA_VERSION as u64).as_str(),
        );
        DaemonControlError::new(DaemonControlErrorCode::SchemaMismatch, message.as_str())
    }

    pub fn unsupported(message: &str) -> (result: Self)
        ensures
            result.deep_view() == (DaemonControlErrorView {
                code: DaemonControlErrorCode::Unsupported,
                message: message@,
            }),
    {
        DaemonControlError::new(DaemonControlErrorCode::Unsupported, message)
    }

    pub fn invalid_request(message: &str) -> (result: Self)
        ensures
            result.deep_view() == (DaemonControlErrorView {
                code: DaemonControlErrorCode::InvalidRequest,
                message: message@,
            }),
    {
        DaemonControlError::new(DaemonControlErrorCode::InvalidRequest, message)
    }
}

/// Refuses every version but the own one.
fn check_version(received: u32) -> (result: Result<(), DaemonControlError>)
    ensures
        match result {
            Ok(()) => received == DAEMON_PROTOCOL_SCHEMA_VERSION,
            Err(error) => received != DAEMON_PROTOCOL_SCHEMA_VERSION && error.deep_view() == version_refused(received),
        },
{
    if received == DAEMON_PROTOCOL_SCHEMA_VERSION {
        Ok(())
    } else {
        Err(DaemonControlError::schema_mismatch(received))
    }
}

impl DaemonRequest {
    /// A request of the present version.
    pub fn new(request_id: &str, command: DaemonCommand) -> (result: Self)
        ensures
            result.deep_view() == (DaemonRequestView {
                schema_version: DAEMON_PROTOCOL_SCHEMA_VERSION,
                request_id: request_id@,
                command,
            }),
    {
        DaemonRequest { schema_version: DAEMON_PROTOCOL_SCHEMA_VERSION, request_id: request_id.to_string(), command }
    }

    /// Refuses every version but the own one.
    pub fn validate_schema(&self) -> (result: Result<(), DaemonControlError>)
        ensures
            match result {
                Ok(()) => self.schema_version == DAEMON_PROTOCOL_SCHEMA_VERSION,
                Err(error) => self.schema_version != DAEMON_PROTOCOL_SCHEMA_VERSION && error.deep_view()
                    == version_refused(self.schema_version),
            },
    {
        check_version(self.schema_version)
    }
}

impl DaemonResponse {
    /// The answer to a request.
    pub fn ok(request: &DaemonRequest, reply: DaemonReply) -> (result: Self)
        ensures
            result.deep_view() == (DaemonResponseView {
                schema_version: DAEMON_PROTOCOL_SCHEMA_VERSION,
                request_id: request.deep_view().request_id,
                outcome: DaemonResponseOutcomeView::Success { reply: reply.deep_view() },
            }),
    {
        DaemonResponse {
            schema_version: DAEMON_PROTOCOL_SCHEMA_VERSION,
            request_id: request.request_id.copied(),
            outcome: DaemonResponseOutcome::Success { reply },
        }
    }

    /// The refusal of a request.
    pub fn error(request: &DaemonRequest, error: DaemonControlError) -> (result: Self)
        ensures
            result.deep_view() == (DaemonResponseView {
                schema_version: DAEMON_PROTOCOL_SCHEMA_VERSION,
                request_id: request.deep_view().request_id,
                outcome: DaemonResponseOutcomeView::Error { error: error.deep_view() },
            }),
    {
        DaemonResponse::error_for_request_id(request.request_id.as_str(), error)
    }

    /// The refusal of a request of which only the id is known.
    pub fn error_for_request_id(request_id: &str, error: DaemonControlError) -> (result: Self)
        ensures
            result.deep_view() == (DaemonResponseView {
                schema_version: DAEMON_PROTOCOL_SCHEMA_VERSION,
                request_id: request_id@,
                outcome: DaemonResponseOutcomeView::Error { error: error.deep_view() },
            }),
    {
        DaemonResponse {
            schema_version: DAEMON_PROTOCOL_SCHEMA_VERSION,
            request_id: request_id.to_string(),
            outcome: DaemonResponseOutcome::Error { error },
        }
    }
}

impl DaemonEventSubscriptionRequest {
    /// A request of the present version.
    pub fn new(subscription_id: &str) -> (result: Self)
        ensures
            result.deep_view() == (DaemonEventSubscriptionRequestView {
                schema_version: DAEMON_PROTOCOL_SCHEMA_VERSION,
                subscription_id: subscription_id@,
            }),
    {
        DaemonEventSubscriptionRequest {
            schema_version: DAEMON_PROTOCOL_SCHEMA_VERSION,
            subscription_id: subscription_id.to_string(),
        }
    }

    /// Refuses every version but the own one.
    pub fn validate_schema(&self) -> (result: Result<(), DaemonControlError>)
        ensures
            match result {
                Ok(()) => self.schema_version == DAEMON_PROTOCOL_SCHEMA_VERSION,
                Err(error) => self.schema_version != DAEMON_PROTOCOL_SCHEMA_VERSION && error.deep_view()
                    == version_refused(self.schema_version),
            },
    {
        check_version(self.schema_version)
    }
}

/// Every account counts once in the numbers of a cycle: as available or not, as stored or not, and
/// with as many evaluations, errors and outcomes of alerts as it has.
pub proof fn every_account_counts_once(
    owners: Seq<AccountUsageOwnerPollView>,
    poll: AccountUsageOwnerPollView,
)
    requires
        countable(owners.push(poll)),
        owners.len() < usize::MAX,
    ensures
        ({
            let before = summary_of(owners);
            let after = summary_of(owners.push(poll));
            let available = poll.observation.availability is Available;
            &&& after.owner_count == before.owner_count + 1
            &&& after.available_owner_count == before.available_owner_count + if available {
                1int
            } else {
                0
            }
            &&& after.unavailable_owner_count == before.unavailable_owner_count + if available {
                0int
            } else {
                1
            }
            &&& after.persisted_owner_count == before.persisted_owner_count + if poll.persisted {
                1int
            } else {
                0
            }
            &&& after.persistence_failure_count == before.persistence_failure_count + if poll.persisted {
                0int
            } else {
                1
            }
            &&& after.evaluation_count == before.evaluation_count + poll.evaluations.len()
            &&& after.evaluation_error_count == before.evaluation_error_count + poll.evaluation_errors.len()
            &&& after.delivered_notification_count == before.delivered_notification_count + tally(
                poll.notifications,
                |o: UsageQuotaNotificationOutcomeView| o is Delivered,
            )
            &&& after.suppressed_notification_count == before.suppressed_notification_count + tally(
                poll.notifications,
                |o: UsageQuotaNotificationOutcomeView| o is SuppressedDuplicate,
            )
            &&& after.failed_notification_count == before.failed_notification_count + tally(
                poll.notifications,
                |o: UsageQuotaNotificationOutcomeView| o is FailClosed || o is DeliveryFailed || o is ReceiptFailed,
            )
        }),
        summary_of(Seq::empty()) == (DaemonAccountUsageSummary {
            owner_count: 0,
            available_owner_count: 0,
            unavailable_owner_count: 0,
            persisted_owner_count: 0,
            persistence_failure_count: 0,
            evaluation_count: 0,
            evaluation_error_count: 0,
            delivered_notification_count: 0,
            suppressed_notification_count: 0,
            failed_notification_count: 0,
        }),
{
    let more = owners.push(poll);
    assert(more.drop_last() =~= owners);
    assert(more.take(owners.len() as int) =~= owners);
    assert(more.take(more.len() as int) =~= more);
    lemma_prefix(more, owners.len() as int);
    lemma_prefix(more, more.len() as int);
    lemma_tallies(poll.notifications);
}

proof fn lemma_tallies(outcomes: Seq<UsageQuotaNotificationOutcomeView>)
    ensures
        outcomes_with(outcomes, is_delivered()) == tally(
            outcomes,
            |o: UsageQuotaNotificationOutcomeView| o is Delivered,
        ),
        outcomes_with(outcomes, is_suppressed()) == tally(
            outcomes,
            |o: UsageQuotaNotificationOutcomeView| o is SuppressedDuplicate,
        ),
        outcomes_with(outcomes, is_failed()) == tally(
            outcomes,
            |o: UsageQuotaNotificationOutcomeView| o is FailClosed || o is DeliveryFailed || o is ReceiptFailed,
        ),
    decreases outcomes.len(),
{
    if outcomes.len() > 0 {
        lemma_tallies(outcomes.drop_last());
    }
}

/// A look at usage is noted with its instant, its numbers and when the next one is due; nothing else
/// of the status changes.
pub proof fn a_look_at_usage_is_noted(
    status: DaemonStatusView,
    cycle: AccountUsagePollingCycleView,
    next: Option<Timestamp>,
)
    ensures
        ({
            let after = status.after_cycle(cycle, next);
            &&& after.last_account_usage_at == Some(cycle.evaluated_at)
            &&& after.next_account_usage_at == next
            &&& after.last_account_usage_summary is Some
            &&& after.last_account_usage_summary->0.owner_count == cycle.owners.len() as usize
            &&& after == DaemonStatusView {
                last_account_usage_at: after.last_account_usage_at,
                next_account_usage_at: after.next_account_usage_at,
                last_account_usage_summary: after.last_account_usage_summary,
                ..status
            }
        }),
{
}

/// A daemon that starts is of the present version, knows of no account, has looked at nothing, can do
/// nothing and deletes nothing.
pub proof fn a_starting_daemon_can_do_nothing(at: Timestamp)
    ensures
        ({
            let status = DaemonStatusView::starting(at);
            &&& status.schema_version == 2
            &&& status.state is Starting
            &&& status.started_at == at
            &&& status.account is None && status.scope is None && status.exclude_repositories.len() == 0
            &&& status.last_monitoring_at is None && status.next_monitoring_at is None
            &&& status.last_notification is None
            &&& status.last_account_usage_at is None && status.next_account_usage_at is None
            &&& status.last_account_usage_summary is None
            &&& status.pending_destructive_intents == 0
            &&& !status.automatic_cleanup_enabled
            &&& !status.capabilities.monitoring && !status.capabilities.account_usage_monitoring
            &&& !status.capabilities.policy_classification && !status.capabilities.destructive_cleanup
            &&& !status.capabilities.event_stream
        }),
{
}

/// A daemon is harmless where it neither cleans up by itself, nor can delete, nor has deletions
/// pending.
pub proof fn harmless_is_to_delete_nothing(status: DaemonStatusView)
    ensures
        status.harmless() <==> !status.automatic_cleanup_enabled && !status.capabilities.destructive_cleanup
            && status.pending_destructive_intents == 0,
{
}

/// A refusal of a version says which one came and which one is expected.
pub proof fn a_refused_version_is_named(received: u32)
    ensures
        version_refused(received).code is SchemaMismatch,
        version_refused(received).message == "daemon protocol schema mismatch: received "@ + decimal(received as nat)
            + ", expected "@ + decimal(2),
{
}

} // verus!
