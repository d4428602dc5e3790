//! A daemon in the foreground: when it looks at what, what it tells of itself, and how it obeys.
use crate::account_usage::BillingPeriod;
use crate::account_usage_monitoring::{AccountUsagePollingCycle, AccountUsagePollingCycleView};
use crate::agent::{
    countable, version_refused, DaemonCapabilities, DaemonCommand, DaemonControlError, DaemonControlErrorCode,
    DaemonControlErrorView, DaemonEvent, DaemonEventSubscriptionRequest, DaemonEventView, DaemonReply, DaemonReplyView,
    DaemonRequest, DaemonRequestView, DaemonResponse, DaemonResponseOutcomeView, DaemonResponseView,
    DaemonRuntimeState, DaemonStatus, DaemonStatusView, DAEMON_PROTOCOL_SCHEMA_VERSION,
};
use crate::labels::{format_scope, scope_name};
use crate::model::{Account, ScanOptions};
use crate::monitoring::{
    a_schedule_stays_sound, iteration_error_message, notification_for, transition_between, MonitoringIteration,
    MonitoringIterationError, MonitoringNotificationSignal, MonitoringReportView, MonitoringRun, MonitoringRunView,
    MonitoringScheduler, MonitoringSchedulerEvent, MonitoringSchedulerStep, MonitoringSchedulerStopReason,
    MonitoringSchedulerSummary,
};
use crate::text::{decimal, join2, join3, join5, number};
use crate::time::{advanced, lies_in_month, Timestamp, LAST_SECOND, LONGEST_DURATION, LONGEST_SPAN};
use crate::value::{add_to, nothing, single, Value};
use vstd::prelude::*;

verus! {

/// How a daemon writes.
#[derive(Clone, Copy, Debug, PartialEq, Eq, Structural)]
pub enum DaemonOutputFormat {
    Table,
    Json,
}

/// For whom a daemon writes.
#[derive(Clone, Copy, Debug, PartialEq, Eq, Structural)]
pub enum DaemonPresentation {
    MonitorWatch,
    Protocol,
}

/// Why no event came.
#[derive(Clone, Copy, Debug, PartialEq, Eq, Structural)]
pub enum DaemonEventSubscriptionError {
    Closed,
    Lagged(u64),
}

/// What a daemon in the foreground is told. The interval is in whole seconds.
#[derive(Clone, Debug, PartialEq, Eq)]
pub struct ForegroundDaemonOptions {
    pub scan_options: ScanOptions,
    pub monitoring_interval_override: Option<u64>,
    pub max_attempts: Option<u64>,
    pub output: DaemonOutputFormat,
    pub presentation: DaemonPresentation,
}

// ---------------------------------------------------------------------------------------------
// Intervals.
// ---------------------------------------------------------------------------------------------

/// How often a daemon looks at what, and how old usage may be, in seconds.
#[derive(Clone, Copy, Debug, PartialEq, Eq, Structural)]
pub struct DaemonIntervals {
    pub monitoring: u64,
    pub account_usage: u64,
    pub max_age: u64,
}

/// Minutes in seconds.
pub open spec fn in_seconds(minutes: u64) -> Option<u64> {
    if minutes * 60 <= u64::MAX {
        Some((minutes * 60) as u64)
    } else {
        None
    }
}

/// The intervals that are configured, in minutes, or why they cannot be kept.
pub open spec fn intervals_of(
    monitoring_minutes: u64,
    usage_minutes: u64,
    max_age_minutes: u64,
    monitoring_override: Option<u64>,
) -> Result<DaemonIntervals, Seq<char>> {
    match (in_seconds(usage_minutes), in_seconds(max_age_minutes), monitoring_override, in_seconds(monitoring_minutes)) {
        (None, _, _, _) => Err("configured account usage interval is too large"@),
        (_, None, _, _) => Err("configured account usage maximum age is too large"@),
        (_, _, None, None) => Err("configured monitoring interval is too large"@),
        (Some(account_usage), Some(max_age), Some(monitoring), _) => Ok(
            DaemonIntervals { monitoring, account_usage, max_age },
        ),
        (Some(account_usage), Some(max_age), None, Some(monitoring)) => Ok(
            DaemonIntervals { monitoring, account_usage, max_age },
        ),
    }
}

/// The intervals that are configured, in minutes. An override of the one is in seconds.
pub fn plan_intervals(
    monitoring_minutes: u64,
    usage_minutes: u64,
    max_age_minutes: u64,
    monitoring_override: Option<u64>,
) -> (result: Result<DaemonIntervals, String>)
    ensures
        match intervals_of(monitoring_minutes, usage_minutes, max_age_minutes, monitoring_override) {
            Ok(intervals) => result == Ok::<DaemonIntervals, String>(intervals),
            Err(problem) => result is Err && result->Err_0@ == problem,
        },
{
    let account_usage: u64 = match usage_minutes.checked_mul(60) {
        Some(seconds) => seconds,
        None => {
            return Err("configured account usage interval is too large".to_string());
        },
    };
    let max_age: u64 = match max_age_minutes.checked_mul(60) {
        Some(seconds) => seconds,
        None => {
            return Err("configured account usage maximum age is too large".to_string());
        },
    };
    match monitoring_interval(monitoring_minutes, monitoring_override) {
        Ok(monitoring) => Ok(DaemonIntervals { monitoring, account_usage, max_age }),
        Err(error) => Err(error),
    }
}

/// How often storage is looked at, in seconds: as configured, in minutes, unless it is overridden.
pub fn monitoring_interval(minutes: u64, seconds: Option<u64>) -> (result: Result<u64, String>)
    ensures
        match (seconds, in_seconds(minutes)) {
            (Some(seconds), _) => result == Ok::<u64, String>(seconds),
            (None, Some(seconds)) => result == Ok::<u64, String>(seconds),
            (None, None) => result is Err && result->Err_0@ == "configured monitoring interval is too large"@,
        },
{
    match seconds {
        Some(seconds) => Ok(seconds),
        None => match minutes.checked_mul(60) {
            Some(seconds) => Ok(seconds),
            None => Err("configured monitoring interval is too large".to_string()),
        },
    }
}

/// A limit on attempts, of which zero stands for none.
pub open spec fn limit_on_attempts(iterations: u64) -> Option<u64> {
    if iterations > 0 {
        Some(iterations)
    } else {
        None
    }
}

/// A limit on attempts, of which zero stands for none.
pub fn attempt_limit(iterations: u64) -> (result: Option<u64>)
    ensures
        result == limit_on_attempts(iterations),
        result == if iterations > 0 { Some(iterations) } else { None },
{
    if iterations > 0 {
        Some(iterations)
    } else {
        None
    }
}

/// Whether an instant that many nanoseconds after `at` is in range, and which.
pub open spec fn is_next(next: Option<Timestamp>, at: Timestamp, interval: u128) -> bool {
    match next {
        Some(next) => interval <= LONGEST_SPAN && (next.unix_seconds(), next.subsecond()) == advanced(
            at.unix_seconds(),
            at.subsecond(),
            interval as int,
        ),
        None => interval > LONGEST_SPAN || advanced(at.unix_seconds(), at.subsecond(), interval as int).0
            > LAST_SECOND,
    }
}

/// When the next look is due, if that instant is in range.
pub fn next_check_at(at: Timestamp, interval: u128) -> (result: Option<Timestamp>)
    requires
        interval <= LONGEST_DURATION,
    ensures
        is_next(result, at, interval),
{
    at.later_by(interval)
}

/// The month that is billed at an instant.
pub fn billing_period_at(at: Timestamp) -> (result: BillingPeriod)
    ensures
        lies_in_month(at.unix_seconds(), result.year as int, result.month as int),
{
    BillingPeriod::at(at)
}

// ---------------------------------------------------------------------------------------------
// The status.
// ---------------------------------------------------------------------------------------------

/// The status of a daemon that runs. `looks_at_usage` tells whether there are allowances.
pub open spec fn running(
    status: DaemonStatusView,
    account: crate::model::AccountView,
    options: crate::model::ScanOptionsView,
    now: Timestamp,
    looks_at_usage: bool,
    presentation: DaemonPresentation,
) -> DaemonStatusView {
    DaemonStatusView {
        state: DaemonRuntimeState::Running,
        account: Some(account),
        scope: Some(options.scope),
        exclude_repositories: options.exclude_repositories,
        next_monitoring_at: Some(now),
        next_account_usage_at: if looks_at_usage {
            Some(now)
        } else {
            status.next_account_usage_at
        },
        capabilities: DaemonCapabilities {
            monitoring: true,
            account_usage_monitoring: looks_at_usage,
            policy_classification: false,
            destructive_cleanup: false,
            event_stream: presentation is Protocol,
        },
        ..status
    }
}

/// Sets a daemon running. Nothing lets it delete.
pub fn start_running(
    status: &mut DaemonStatus,
    account: &Account,
    options: &ScanOptions,
    now: Timestamp,
    looks_at_usage: bool,
    presentation: DaemonPresentation,
)
    ensures
        final(status).deep_view() == running(
            old(status).deep_view(),
            account.deep_view(),
            options.deep_view(),
            now,
            looks_at_usage,
            presentation,
        ),
        old(status).deep_view().harmless() ==> final(status).deep_view().harmless(),
{
    status.state = DaemonRuntimeState::Running;
    status.account = Some(account.copied());
    status.scope = Some(options.scope.copied());
    status.exclude_repositories = options.exclude_repositories.copied();
    status.next_monitoring_at = Some(now);
    if looks_at_usage {
        status.next_account_usage_at = Some(now);
    }
    status.capabilities = DaemonCapabilities {
        monitoring: true,
        account_usage_monitoring: looks_at_usage,
        policy_classification: false,
        destructive_cleanup: false,
        event_stream: presentation == DaemonPresentation::Protocol,
    };
}

/// The status after a look at storage at `at`, which is due again at `next`.
pub open spec fn noted(
    status: DaemonStatusView,
    last: Option<Timestamp>,
    next: Option<Timestamp>,
    notification: MonitoringNotificationSignal,
) -> DaemonStatusView {
    DaemonStatusView {
        last_monitoring_at: match last {
            Some(at) => Some(at),
            None => status.last_monitoring_at,
        },
        next_monitoring_at: next,
        last_notification: if notification is NoNotification {
            status.last_notification
        } else {
            Some(notification)
        },
        ..status
    }
}

/// What a failed look at storage failed on.
pub open spec fn failure_text(error: MonitoringIterationError<String>) -> Seq<char> {
    match error {
        MonitoringIterationError::Provider(error) => "monitoring provider error: "@ + error.text(),
        MonitoringIterationError::Persistence(error) => "failed to persist monitoring sample: "@ + error@,
    }
}

/// The events that a look at storage brings: a notification where there is one, an error where
/// there was one, and the status.
pub open spec fn monitoring_events(
    status: DaemonStatusView,
    at: Timestamp,
    notification: MonitoringNotificationSignal,
    error: Option<Seq<char>>,
) -> Seq<DaemonEventView> {
    (if notification is NoNotification {
        Seq::empty()
    } else {
        seq![DaemonEventView::MonitoringSignal { occurred_at: at, signal: notification }]
    }) + (match error {
        Some(message) => seq![DaemonEventView::Error { occurred_at: at, message }],
        None => Seq::empty(),
    }) + seq![DaemonEventView::StatusChanged { status }]
}

/// Takes note of what a schedule told. `now` is the present, the interval is in nanoseconds.
pub fn update_status_for_monitoring_event<R>(
    status: &mut DaemonStatus,
    event: &MonitoringSchedulerEvent<R, String>,
    interval: u128,
    now: Timestamp,
) -> (result: Vec<DaemonEvent>)
    requires
        interval <= LONGEST_DURATION,
        event matches MonitoringSchedulerEvent::Failure { retry_after, .. } ==> retry_after <= LONGEST_DURATION,
    ensures
        match event {
            MonitoringSchedulerEvent::Iteration { iteration, notification, .. } => {
                let next = final(status).deep_view().next_monitoring_at;
                &&& is_next(next, iteration.report.scanned_at, interval)
                &&& final(status).deep_view() == noted(
                    old(status).deep_view(),
                    Some(iteration.report.scanned_at),
                    next,
                    *notification,
                )
                &&& result.deep_view() == monitoring_events(
                    final(status).deep_view(),
                    iteration.report.scanned_at,
                    *notification,
                    None,
                )
            },
            MonitoringSchedulerEvent::Failure { error, retry_after, notification, .. } => {
                let next = final(status).deep_view().next_monitoring_at;
                &&& is_next(next, now, *retry_after)
                &&& final(status).deep_view() == noted(old(status).deep_view(), None, next, *notification)
                &&& result.deep_view() == monitoring_events(
                    final(status).deep_view(),
                    now,
                    *notification,
                    Some(failure_text(*error)),
                )
            },
        },
        old(status).deep_view().harmless() ==> final(status).deep_view().harmless(),
{
    let mut emitted: Vec<DaemonEvent> = nothing();
    match event {
        MonitoringSchedulerEvent::Iteration { iteration, notification, .. } => {
            let at = iteration.report.scanned_at;
            status.last_monitoring_at = Some(at);
            status.next_monitoring_at = next_check_at(at, interval);
            if *notification != MonitoringNotificationSignal::NoNotification {
                status.last_notification = Some(*notification);
                add_to(&mut emitted, DaemonEvent::MonitoringSignal { occurred_at: at, signal: *notification });
            }
        },
        MonitoringSchedulerEvent::Failure { error, retry_after, notification, .. } => {
            status.next_monitoring_at = next_check_at(now, *retry_after);
            if *notification != MonitoringNotificationSignal::NoNotification {
                status.last_notification = Some(*notification);
                add_to(&mut emitted, DaemonEvent::MonitoringSignal { occurred_at: now, signal: *notification });
            }
            let message = iteration_error_message(error);
            add_to(&mut emitted, DaemonEvent::Error { occurred_at: now, message });
        },
    }
    let current = status.copied();
    add_to(&mut emitted, DaemonEvent::StatusChanged { status: current });
    assert(emitted.deep_view() =~= match event {
        MonitoringSchedulerEvent::Iteration { iteration, notification, .. } => monitoring_events(
            status.deep_view(),
            iteration.report.scanned_at,
            *notification,
            None,
        ),
        MonitoringSchedulerEvent::Failure { error, notification, .. } => monitoring_events(
            status.deep_view(),
            now,
            *notification,
            Some(failure_text(*error)),
        ),
    });
    emitted
}

// ---------------------------------------------------------------------------------------------
// Control.
// ---------------------------------------------------------------------------------------------

/// The status of a daemon, and whether it is to stop.
pub struct DaemonControlHandle {
    status: DaemonStatus,
    cancelled: bool,
}

/// The contents of [`DaemonControlHandle`].
#[verifier::ext_equal]
pub struct DaemonControlView {
    pub status: DaemonStatusView,
    pub cancelled: bool,
}

impl DeepView for DaemonControlHandle {
    type V = DaemonControlView;

    closed spec fn deep_view(&self) -> DaemonControlView {
        DaemonControlView { status: self.status.deep_view(), cancelled: self.cancelled }
    }
}

impl DaemonControlView {
    /// The daemon told to stop.
    pub open spec fn stopped(self) -> DaemonControlView {
        DaemonControlView {
            status: DaemonStatusView {
                state: DaemonRuntimeState::Stopping,
                next_monitoring_at: None,
                next_account_usage_at: None,
                ..self.status
            },
            cancelled: true,
        }
    }

    /// What is told where the daemon is told to stop: nothing, if it was told so before.
    pub open spec fn stop_events(self) -> Seq<DaemonEventView> {
        if self.status.state == DaemonRuntimeState::Stopping {
            Seq::empty()
        } else {
            seq![DaemonEventView::StatusChanged { status: self.stopped().status }]
        }
    }

    /// The daemon after a request.
    pub open spec fn after_request(self, request: DaemonRequestView) -> DaemonControlView {
        if request.schema_version == DAEMON_PROTOCOL_SCHEMA_VERSION && request.command == DaemonCommand::Shutdown {
            self.stopped()
        } else {
            self
        }
    }

    /// The answer to a request.
    pub open spec fn response(self, request: DaemonRequestView) -> DaemonResponseView {
        DaemonResponseView {
            schema_version: DAEMON_PROTOCOL_SCHEMA_VERSION,
            request_id: request.request_id,
            outcome: if request.schema_version != DAEMON_PROTOCOL_SCHEMA_VERSION {
                DaemonResponseOutcomeView::Error { error: version_refused(request.schema_version) }
            } else {
                match request.command {
                    DaemonCommand::Status => DaemonResponseOutcomeView::Success {
                        reply: DaemonReplyView::Status { status: self.status },
                    },
                    DaemonCommand::Shutdown => DaemonResponseOutcomeView::Success {
                        reply: DaemonReplyView::ShutdownAccepted,
                    },
                    DaemonCommand::RunMonitoringNow => DaemonResponseOutcomeView::Error {
                        error: DaemonControlErrorView {
                            code: DaemonControlErrorCode::Unsupported,
                            message:
                                "run_monitoring_now is unavailable until MonitoringScheduler exposes a safe wake/run-now control"@,
                        },
                    },
                }
            },
        }
    }
}

impl DaemonControlHandle {
    /// Control of a daemon with a status.
    pub fn new(status: DaemonStatus) -> (result: Self)
        ensures
            result.deep_view() == (DaemonControlView { status: status.deep_view(), cancelled: false }),
    {
        DaemonControlHandle { status, cancelled: false }
    }

    /// The present status.
    pub fn status(&self) -> (result: DaemonStatus)
        ensures
            result.deep_view() == self.deep_view().status,
    {
        self.status.copied()
    }

    /// Puts another status in the place of the present one.
    pub fn replace_status(&mut self, status: DaemonStatus)
        ensures
            final(self).deep_view() == (DaemonControlView { status: status.deep_view(), ..old(self).deep_view() }),
    {
        self.status = status;
    }

    /// Whether the daemon is to stop.
    pub fn is_cancelled(&self) -> (result: bool)
        ensures
            result == self.deep_view().cancelled,
    {
        self.cancelled
    }

    /// Tells the daemon to stop, and tells of it what there is to tell.
    pub fn shutdown(&mut self) -> (result: Vec<DaemonEvent>)
        ensures
            final(self).deep_view() == old(self).deep_view().stopped(),
            result.deep_view() == old(self).deep_view().stop_events(),
    {
        let changed = self.status.state != DaemonRuntimeState::Stopping;
        self.status.state = DaemonRuntimeState::Stopping;
        self.status.next_monitoring_at = None;
        self.status.next_account_usage_at = None;
        self.cancelled = true;
        if changed {
            let status = self.status.copied();
            single(DaemonEvent::StatusChanged { status })
        } else {
            nothing()
        }
    }

    /// Answers a request, and tells of it what there is to tell.
    pub fn handle_request(&mut self, request: &DaemonRequest) -> (result: (DaemonResponse, Vec<DaemonEvent>))
        ensures
            result.0.deep_view() == old(self).deep_view().response(request.deep_view()),
            final(self).deep_view() == old(self).deep_view().after_request(request.deep_view()),
            result.1.deep_view() == if request.schema_version == DAEMON_PROTOCOL_SCHEMA_VERSION && request.command
                == DaemonCommand::Shutdown {
                old(self).deep_view().stop_events()
            } else {
                Seq::empty()
            },
    {
        if let Err(error) = request.validate_schema() {
            return (DaemonResponse::error(request, error), nothing());
        }
        match request.command {
            DaemonCommand::Status => {
                let status = self.status();
                (DaemonResponse::ok(request, DaemonReply::Status { status }), nothing())
            },
            DaemonCommand::Shutdown => {
                let events = self.shutdown();
                (DaemonResponse::ok(request, DaemonReply::ShutdownAccepted), events)
            },
            DaemonCommand::RunMonitoringNow => (
                DaemonResponse::error(
                    request,
                    DaemonControlError::unsupported(
                        "run_monitoring_now is unavailable until MonitoringScheduler exposes a safe wake/run-now control",
                    ),
                ),
                nothing(),
            ),
        }
    }

    /// Whether somebody may be told of events.
    pub fn subscribe(&self, request: &DaemonEventSubscriptionRequest) -> (result: Result<(), DaemonControlError>)
        ensures
            match result {
                Ok(()) => request.schema_version == DAEMON_PROTOCOL_SCHEMA_VERSION,
                Err(error) => request.schema_version != DAEMON_PROTOCOL_SCHEMA_VERSION && error.deep_view()
                    == version_refused(request.schema_version),
            },
    {
        request.validate_schema()
    }
}

/// To stop twice is to stop once, and it is told once.
pub proof fn stopping_twice_is_stopping_once(control: DaemonControlView)
    ensures
        control.stopped().stopped() == control.stopped(),
        control.stopped().stop_events().len() == 0,
{
}

/// A request of another version changes nothing, whatever it asks for.
pub proof fn another_version_changes_nothing(control: DaemonControlView, request: DaemonRequestView)
    requires
        request.schema_version != DAEMON_PROTOCOL_SCHEMA_VERSION,
    ensures
        control.after_request(request) == control,
        control.response(request).outcome matches DaemonResponseOutcomeView::Error { error } && error.code
            is SchemaMismatch,
{
}

/// No request makes a daemon delete: what was harmless stays so.
pub proof fn requests_are_harmless(control: DaemonControlView, request: DaemonRequestView)
    requires
        control.status.harmless(),
    ensures
        control.after_request(request).status.harmless(),
{
}

/// Only a request to stop stops a daemon.
pub proof fn only_shutdown_stops(control: DaemonControlView, request: DaemonRequestView)
    requires
        !control.cancelled,
        control.after_request(request).cancelled,
    ensures
        request.command == DaemonCommand::Shutdown,
        request.schema_version == DAEMON_PROTOCOL_SCHEMA_VERSION,
{
}

/// Every answer carries the id of its request, so that it passes for the answer to it.
pub proof fn answers_match_their_requests(control: DaemonControlView, request: DaemonRequestView)
    ensures
        crate::ipc::response_problem(
            control.response(request).schema_version,
            control.response(request).request_id,
            request.request_id,
        ) is None,
{
}

// ---------------------------------------------------------------------------------------------
// The daemon.
// ---------------------------------------------------------------------------------------------

/// A daemon in the foreground: its schedule, its status, and whether it is to stop. The
/// intervals are in nanoseconds.
pub struct ForegroundDaemon {
    control: DaemonControlHandle,
    run: MonitoringRun,
    interval: u128,
    usage_interval: u128,
}

/// The contents of [`ForegroundDaemon`].
#[verifier::ext_equal]
pub struct ForegroundView {
    pub control: DaemonControlView,
    pub run: MonitoringRunView,
    pub interval: u128,
    pub usage_interval: u128,
}

impl DeepView for ForegroundDaemon {
    type V = ForegroundView;

    closed spec fn deep_view(&self) -> ForegroundView {
        ForegroundView {
            control: self.control.deep_view(),
            run: self.run.deep_view(),
            interval: self.interval,
            usage_interval: self.usage_interval,
        }
    }
}

impl ForegroundView {
    /// The schedule adds up, the intervals can be counted, and the daemon deletes nothing.
    pub open spec fn sound(self) -> bool {
        &&& self.run.sound()
        &&& self.control.status.harmless()
        &&& self.interval <= LONGEST_DURATION
        &&& self.usage_interval <= LONGEST_DURATION
        &&& self.run.failure_delay <= LONGEST_DURATION
    }

    /// What is next before a look at storage.
    pub open spec fn before_attempt(self) -> MonitoringSchedulerStep {
        self.run.before_attempt(self.control.cancelled)
    }

    /// The daemon with another status.
    pub open spec fn with_status(self, status: DaemonStatusView) -> ForegroundView {
        ForegroundView { control: DaemonControlView { status, ..self.control }, ..self }
    }

    /// The daemon after a sample was stored. The next look is due at `next`.
    pub open spec fn after_sample(
        self,
        report: MonitoringReportView,
        next: Option<Timestamp>,
    ) -> ForegroundView {
        let notification = notification_for(transition_between(self.run.previous, report));
        ForegroundView {
            run: self.run.after_success(report),
            ..self.with_status(noted(self.control.status, Some(report.scanned_at), next, notification))
        }
    }

    /// The notification of a failed look at storage.
    pub open spec fn failure_signal(self) -> MonitoringNotificationSignal {
        MonitoringNotificationSignal::MonitoringFailure {
            consecutive_failures: self.run.after_failure().consecutive_failures,
        }
    }

    /// The daemon after a look at storage failed.
    pub open spec fn after_failure(self, next: Option<Timestamp>) -> ForegroundView {
        ForegroundView {
            run: self.run.after_failure(),
            ..self.with_status(noted(self.control.status, None, next, self.failure_signal()))
        }
    }

    /// The daemon after a look at usage.
    pub open spec fn after_usage(self, cycle: AccountUsagePollingCycleView, next: Option<Timestamp>) -> ForegroundView {
        self.with_status(self.control.status.after_cycle(cycle, next))
    }

    /// The daemon after a request.
    pub open spec fn after_request(self, request: DaemonRequestView) -> ForegroundView {
        ForegroundView { control: self.control.after_request(request), ..self }
    }

    /// The daemon told to stop.
    pub open spec fn stopped(self) -> ForegroundView {
        ForegroundView { control: self.control.stopped(), ..self }
    }
}

impl ForegroundDaemon {
    /// Starts a daemon that looks at storage by a schedule and, where there is an interval for
    /// it, at usage. It tells that it runs.
    pub fn start(
        scheduler: &MonitoringScheduler,
        max_attempts: Option<u64>,
        account: &Account,
        started_at: Timestamp,
        now: Timestamp,
        usage_interval: Option<u128>,
        presentation: DaemonPresentation,
    ) -> (result: (Self, Vec<DaemonEvent>))
        requires
            scheduler.deep_view().interval <= LONGEST_DURATION,
            scheduler.deep_view().failure_delay <= LONGEST_DURATION,
            usage_interval matches Some(interval) ==> interval <= LONGEST_DURATION,
        ensures
            ({
                let status = running(
                    DaemonStatusView::starting(started_at),
                    account.deep_view(),
                    scheduler.deep_view().options,
                    now,
                    usage_interval is Some,
                    presentation,
                );
                &&& result.0.deep_view() == ForegroundView {
                    control: DaemonControlView { status, cancelled: false },
                    run: scheduler.deep_view().started(max_attempts),
                    interval: scheduler.deep_view().interval,
                    usage_interval: match usage_interval {
                        Some(interval) => interval,
                        None => 0,
                    },
                }
                &&& result.1.deep_view() == seq![DaemonEventView::StatusChanged { status }]
            }),
            result.0.deep_view().sound(),
    {
        let mut status = DaemonStatus::starting(started_at);
        let looks_at_usage = match usage_interval {
            Some(_) => true,
            None => false,
        };
        start_running(&mut status, account, scheduler.options(), now, looks_at_usage, presentation);
        let told = status.copied();
        let daemon = ForegroundDaemon {
            control: DaemonControlHandle::new(status),
            run: scheduler.run(max_attempts),
            interval: scheduler.interval(),
            usage_interval: match usage_interval {
                Some(interval) => interval,
                None => 0,
            },
        };
        (daemon, single(DaemonEvent::StatusChanged { status: told }))
    }

    /// The present status.
    pub fn status(&self) -> (result: DaemonStatus)
        ensures
            result.deep_view() == self.deep_view().control.status,
    {
        self.control.status()
    }

    /// Whether the daemon is to stop.
    pub fn is_cancelled(&self) -> (result: bool)
        ensures
            result == self.deep_view().control.cancelled,
    {
        self.control.is_cancelled()
    }

    /// What is next before a look at storage.
    pub fn before_attempt(&self) -> (result: MonitoringSchedulerStep)
        ensures
            result == self.deep_view().before_attempt(),
    {
        self.run.before_attempt(self.control.is_cancelled())
    }

    /// What is next after a look at storage.
    pub fn after_attempt(&self) -> (result: MonitoringSchedulerStep)
        ensures
            result == self.deep_view().run.after_attempt(),
    {
        self.run.after_attempt()
    }

    /// How the schedule ends where the daemon is told to stop during a look or a delay.
    pub fn cancelled(&self) -> (result: MonitoringSchedulerSummary)
        ensures
            result == self.deep_view().run.summary(MonitoringSchedulerStopReason::Cancelled),
    {
        self.run.cancelled()
    }

    /// Takes note of a sample that was stored. It hands out what the schedule tells, and the
    /// events.
    pub fn sampled<R>(&mut self, iteration: MonitoringIteration<R>, now: Timestamp) -> (result: (
        MonitoringSchedulerEvent<R, String>,
        Vec<DaemonEvent>,
    ))
        requires
            old(self).deep_view().sound(),
            !old(self).deep_view().run.exhausted(),
        ensures
            ({
                let before = old(self).deep_view();
                let after = final(self).deep_view();
                let report = iteration.report.deep_view();
                let transition = transition_between(before.run.previous, report);
                let next = after.control.status.next_monitoring_at;
                &&& is_next(next, report.scanned_at, before.interval)
                &&& after == before.after_sample(report, next)
                &&& result.0 == (MonitoringSchedulerEvent::<R, String>::Iteration {
                    iteration,
                    transition,
                    notification: notification_for(transition),
                })
                &&& result.1.deep_view() == monitoring_events(
                    after.control.status,
                    report.scanned_at,
                    notification_for(transition),
                    None,
                )
            }),
            final(self).deep_view().sound(),
    {
        proof {
            a_schedule_stays_sound(self.run.deep_view(), iteration.report.deep_view());
        }
        let event = self.run.succeeded(iteration);
        let events = update_status_for_monitoring_event(&mut self.control.status, &event, self.interval, now);
        (event, events)
    }

    /// Takes note of a look at storage that failed.
    pub fn failed<R>(&mut self, error: MonitoringIterationError<String>, now: Timestamp) -> (result: (
        MonitoringSchedulerEvent<R, String>,
        Vec<DaemonEvent>,
    ))
        requires
            old(self).deep_view().sound(),
            !old(self).deep_view().run.exhausted(),
        ensures
            ({
                let before = old(self).deep_view();
                let after = final(self).deep_view();
                let next = after.control.status.next_monitoring_at;
                &&& is_next(next, now, before.run.failure_delay)
                &&& after == before.after_failure(next)
                &&& result.0 == (MonitoringSchedulerEvent::<R, String>::Failure {
                    error,
                    consecutive_failures: after.run.consecutive_failures,
                    retry_after: before.run.failure_delay,
                    notification: before.failure_signal(),
                })
                &&& result.1.deep_view() == monitoring_events(
                    after.control.status,
                    now,
                    before.failure_signal(),
                    Some(failure_text(error)),
                )
            }),
            final(self).deep_view().sound(),
    {
        proof {
            a_schedule_stays_sound(self.run.deep_view(), arbitrary());
        }
        let event = self.run.failed(error);
        let events = update_status_for_monitoring_event(&mut self.control.status, &event, self.interval, now);
        (event, events)
    }

    /// Takes note of a look at the usage of all accounts, and tells of it.
    pub fn looked_at_usage(&mut self, cycle: AccountUsagePollingCycle) -> (result: Vec<DaemonEvent>)
        requires
            old(self).deep_view().sound(),
            countable(cycle.deep_view().owners),
        ensures
            ({
                let before = old(self).deep_view();
                let after = final(self).deep_view();
                let next = after.control.status.next_account_usage_at;
                &&& is_next(next, cycle.evaluated_at, before.usage_interval)
                &&& after == before.after_usage(cycle.deep_view(), next)
                &&& result.deep_view() == seq![
                    DaemonEventView::AccountUsageCycle { cycle: cycle.deep_view() },
                    DaemonEventView::StatusChanged { status: after.control.status },
                ]
            }),
            final(self).deep_view().sound(),
    {
        let next = next_check_at(cycle.evaluated_at, self.usage_interval);
        self.control.status.record_account_usage_cycle(&cycle, next);
        let status = self.control.status();
        let mut events: Vec<DaemonEvent> = nothing();
        add_to(&mut events, DaemonEvent::AccountUsageCycle { cycle });
        add_to(&mut events, DaemonEvent::StatusChanged { status });
        events
    }

    /// Answers a request, and tells of it what there is to tell.
    pub fn handle_request(&mut self, request: &DaemonRequest) -> (result: (DaemonResponse, Vec<DaemonEvent>))
        requires
            old(self).deep_view().sound(),
        ensures
            result.0.deep_view() == old(self).deep_view().control.response(request.deep_view()),
            final(self).deep_view() == old(self).deep_view().after_request(request.deep_view()),
            result.1.deep_view() == if request.schema_version == DAEMON_PROTOCOL_SCHEMA_VERSION && request.command
                == DaemonCommand::Shutdown {
                old(self).deep_view().control.stop_events()
            } else {
                Seq::empty()
            },
            final(self).deep_view().sound(),
    {
        self.control.handle_request(request)
    }

    /// Whether somebody may be told of events.
    pub fn subscribe(&self, request: &DaemonEventSubscriptionRequest) -> (result: Result<(), DaemonControlError>)
        ensures
            match result {
                Ok(()) => request.schema_version == DAEMON_PROTOCOL_SCHEMA_VERSION,
                Err(error) => request.schema_version != DAEMON_PROTOCOL_SCHEMA_VERSION && error.deep_view()
                    == version_refused(request.schema_version),
            },
    {
        self.control.subscribe(request)
    }

    /// Tells the daemon to stop, and tells of it what there is to tell.
    pub fn shutdown(&mut self) -> (result: Vec<DaemonEvent>)
        requires
            old(self).deep_view().sound(),
        ensures
            final(self).deep_view() == old(self).deep_view().stopped(),
            result.deep_view() == old(self).deep_view().control.stop_events(),
            final(self).deep_view().sound(),
    {
        self.control.shutdown()
    }
}

/// Whatever a daemon is told, it stays sound: its schedule adds up, and it never deletes.
pub proof fn a_daemon_stays_harmless(
    daemon: ForegroundView,
    report: MonitoringReportView,
    cycle: AccountUsagePollingCycleView,
    request: DaemonRequestView,
    next: Option<Timestamp>,
)
    requires
        daemon.sound(),
    ensures
        !daemon.run.exhausted() ==> daemon.after_sample(report, next).sound() && daemon.after_failure(
            next,
        ).sound(),
        daemon.after_usage(cycle, next).sound(),
        daemon.after_request(request).sound(),
        daemon.stopped().sound(),
{
}

/// A daemon that was told to stop looks at nothing more, whatever it is told after that.
pub proof fn a_stopped_daemon_stays_stopped(
    daemon: ForegroundView,
    report: MonitoringReportView,
    cycle: AccountUsagePollingCycleView,
    request: DaemonRequestView,
    next: Option<Timestamp>,
)
    requires
        daemon.control.cancelled,
    ensures
        daemon.before_attempt() is Stop,
        daemon.after_sample(report, next).before_attempt() is Stop,
        daemon.after_failure(next).before_attempt() is Stop,
        daemon.after_usage(cycle, next).before_attempt() is Stop,
        daemon.after_request(request).before_attempt() is Stop,
        daemon.stopped().before_attempt() is Stop,
{
}

// ---------------------------------------------------------------------------------------------
// What is written at the start.
// ---------------------------------------------------------------------------------------------

/// The lines above what a watch writes.
pub open spec fn watch_heading(
    scope: crate::model::ScanScopeView,
    interval: u64,
    max_attempts: Option<u64>,
    directory: Seq<char>,
    usage: Option<(nat, u64)>,
    baseline: Option<Timestamp>,
) -> Seq<Seq<char>> {
    seq![
        "Foreground monitoring"@,
        "Scope:                "@ + scope_name(scope),
        "Interval:             "@ + decimal(interval as nat) + "s"@,
        "Attempt limit:        "@ + match max_attempts {
            Some(limit) => decimal(limit as nat),
            None => "none (Ctrl-C to stop)"@,
        },
        "Persistence:          "@ + directory,
        "Account usage polling: "@ + match usage {
            Some((resources, minutes)) => "enabled ("@ + decimal(resources) + " configured resource(s), "@ + decimal(
                minutes as nat,
            ) + "m interval)"@,
            None => "disabled (no configured allowances)"@,
        },
        "Baseline:             "@ + crate::labels::time_name(baseline),
        ""@,
    ]
}

/// The lines above what a watch writes. `usage` tells how many resources are looked at, and how
/// often, in minutes.
pub fn describe_watch(
    scope: &crate::model::ScanScope,
    interval: u64,
    max_attempts: Option<u64>,
    directory: &str,
    usage: Option<(usize, u64)>,
    baseline: Option<Timestamp>,
) -> (result: Vec<String>)
    ensures
        result.deep_view() == watch_heading(
            scope.deep_view(),
            interval,
            max_attempts,
            directory@,
            match usage {
                Some((resources, minutes)) => Some((resources as nat, minutes)),
                None => None,
            },
            baseline,
        ),
{
    let mut lines: Vec<String> = nothing();
    add_to(&mut lines, "Foreground monitoring".to_string());
    add_to(&mut lines, join2("Scope:                ", format_scope(scope).as_str()));
    add_to(&mut lines, join3("Interval:             ", number(interval).as_str(), "s"));
    let limit = match max_attempts {
        Some(limit) => number(limit),
        None => "none (Ctrl-C to stop)".to_string(),
    };
    add_to(&mut lines, join2("Attempt limit:        ", limit.as_str()));
    add_to(&mut lines, join2("Persistence:          ", directory));
    let polling = match usage {
        Some((resources, minutes)) => join5(
            "enabled (",
            number(resources as u64).as_str(),
            " configured resource(s), ",
            number(minutes).as_str(),
            "m interval)",
        ),
        None => "disabled (no configured allowances)".to_string(),
    };
    add_to(&mut lines, join2("Account usage polling: ", polling.as_str()));
    add_to(&mut lines, join2("Baseline:             ", crate::labels::format_optional_time(baseline).as_str()));
    add_to(&mut lines, "".to_string());
    assert(lines.deep_view() =~= watch_heading(
        scope.deep_view(),
        interval,
        max_attempts,
        directory@,
        match usage {
            Some((resources, minutes)) => Some((resources as nat, minutes)),
            None => None,
        },
        baseline,
    ));
    lines
}

/// The intervals are the configured minutes in seconds; that between two looks at storage is the
/// overriding one, in seconds, where there is one.
pub proof fn minutes_are_sixty_seconds(
    monitoring_minutes: u64,
    usage_minutes: u64,
    max_age_minutes: u64,
    monitoring_override: Option<u64>,
)
    ensures
        ({
            let result = intervals_of(monitoring_minutes, usage_minutes, max_age_minutes, monitoring_override);
            &&& result is Ok <==> usage_minutes * 60 <= u64::MAX && max_age_minutes * 60 <= u64::MAX && (
            monitoring_override is Some || monitoring_minutes * 60 <= u64::MAX)
            &&& result matches Ok(intervals) ==> {
                &&& intervals.account_usage == usage_minutes * 60
                &&& intervals.max_age == max_age_minutes * 60
                &&& monitoring_override is None ==> intervals.monitoring == monitoring_minutes * 60
                &&& monitoring_override is Some ==> intervals.monitoring == monitoring_override->0
            }
            &&& usage_minutes * 60 > u64::MAX ==> result == Err::<DaemonIntervals, Seq<char>>(
                "configured account usage interval is too large"@,
            )
            &&& usage_minutes * 60 <= u64::MAX && max_age_minutes * 60 > u64::MAX ==> result == Err::<
                DaemonIntervals,
                Seq<char>,
            >("configured account usage maximum age is too large"@)
        }),
{
}

/// A daemon that runs tells of its account and of what it scans, is due at once, and can do what it
/// was set up for: it looks at storage, at usage where there are allowances, and hands out events
/// where it is spoken to. It cannot delete. What it knew before of looks, it still knows.
pub proof fn a_running_daemon_tells_what_it_does(
    status: DaemonStatusView,
    account: crate::model::AccountView,
    options: crate::model::ScanOptionsView,
    now: Timestamp,
    looks_at_usage: bool,
    presentation: DaemonPresentation,
)
    ensures
        ({
            let after = running(status, account, options, now, looks_at_usage, presentation);
            &&& after.state is Running
            &&& after.account == Some(account)
            &&& after.scope == Some(options.scope)
            &&& after.exclude_repositories == options.exclude_repositories
            &&& after.next_monitoring_at == Some(now)
            &&& looks_at_usage ==> after.next_account_usage_at == Some(now)
            &&& !looks_at_usage ==> after.next_account_usage_at == status.next_account_usage_at
            &&& after.capabilities.monitoring
            &&& after.capabilities.account_usage_monitoring == looks_at_usage
            &&& !after.capabilities.policy_classification
            &&& !after.capabilities.destructive_cleanup
            &&& after.capabilities.event_stream <==> presentation is Protocol
            &&& after.schema_version == status.schema_version
            &&& after.started_at == status.started_at
            &&& after.last_monitoring_at == status.last_monitoring_at
            &&& after.last_notification == status.last_notification
            &&& after.last_account_usage_at == status.last_account_usage_at
            &&& after.last_account_usage_summary == status.last_account_usage_summary
            &&& after.pending_destructive_intents == status.pending_destructive_intents
            &&& after.automatic_cleanup_enabled == status.automatic_cleanup_enabled
        }),
{
}

/// A look at storage is noted with its instant, where it succeeded, with when the next one is due,
/// and with its notification, where there is one; the one before stays otherwise.
pub proof fn a_look_at_storage_is_noted(
    status: DaemonStatusView,
    last: Option<Timestamp>,
    next: Option<Timestamp>,
    notification: MonitoringNotificationSignal,
)
    ensures
        ({
            let after = noted(status, last, next, notification);
            &&& last is Some ==> after.last_monitoring_at == last
            &&& last is None ==> after.last_monitoring_at == status.last_monitoring_at
            &&& after.next_monitoring_at == next
            &&& notification is NoNotification ==> after.last_notification == status.last_notification
            &&& !(notification is NoNotification) ==> after.last_notification == Some(notification)
            &&& after == DaemonStatusView {
                last_monitoring_at: after.last_monitoring_at,
                next_monitoring_at: after.next_monitoring_at,
                last_notification: after.last_notification,
                ..status
            }
        }),
{
}

/// Of a look at storage, its notification is told where there is one, its error where there was one,
/// and at last the status; nothing else.
pub proof fn a_look_at_storage_is_told(
    status: DaemonStatusView,
    at: Timestamp,
    notification: MonitoringNotificationSignal,
    error: Option<Seq<char>>,
)
    ensures
        ({
            let events = monitoring_events(status, at, notification, error);
            &&& events.len() >= 1
            &&& events.last() == (DaemonEventView::StatusChanged { status })
            &&& notification is NoNotification && error is None ==> events.len() == 1
            &&& !(notification is NoNotification) ==> events[0] == (DaemonEventView::MonitoringSignal {
                occurred_at: at,
                signal: notification,
            })
            &&& !(notification is NoNotification) && error is None ==> events.len() == 2
            &&& notification is NoNotification && error is Some ==> events.len() == 2 && events[0] == (
            DaemonEventView::Error { occurred_at: at, message: error->0 })
            &&& !(notification is NoNotification) && error is Some ==> events.len() == 3 && events[1] == (
            DaemonEventView::Error { occurred_at: at, message: error->0 })
        }),
{
}

/// The next look is due after the interval: as many nanoseconds later as it has. None is known only
/// where that instant is out of range.
pub proof fn the_next_look_is_an_interval_later(next: Option<Timestamp>, at: Timestamp, interval: u128)
    requires
        is_next(next, at, interval),
        0 <= at.subsecond() < 1_000_000_000,
    ensures
        next is Some ==> next->0.unix_seconds() * 1_000_000_000 + next->0.subsecond() == at.unix_seconds()
            * 1_000_000_000 + at.subsecond() + interval,
        next is None ==> interval > LONGEST_SPAN || at.unix_seconds() * 1_000_000_000 + at.subsecond() + interval >= (
        LAST_SECOND + 1) * 1_000_000_000,
{
}

/// A request to stop is accepted and ends the looks that are due; one for the status is answered with
/// it and changes nothing; one to look at once is refused and changes nothing. Every answer is of the
/// present version and carries the id of its request.
pub proof fn requests_get_what_they_ask_for(control: DaemonControlView, request: DaemonRequestView)
    ensures
        ({
            let after = control.after_request(request);
            let answer = control.response(request);
            let current = request.schema_version == 2;
            &&& answer.schema_version == 2
            &&& answer.request_id == request.request_id
            &&& current && request.command is Status ==> after == control && answer.outcome == (
            DaemonResponseOutcomeView::Success { reply: DaemonReplyView::Status { status: control.status } })
            &&& current && request.command is Shutdown ==> {
                &&& after.cancelled
                &&& after.status.state is Stopping
                &&& after.status.next_monitoring_at is None
                &&& after.status.next_account_usage_at is None
                &&& after.status == DaemonStatusView {
                    state: after.status.state,
                    next_monitoring_at: None,
                    next_account_usage_at: None,
                    ..control.status
                }
                &&& answer.outcome == (DaemonResponseOutcomeView::Success {
                    reply: DaemonReplyView::ShutdownAccepted,
                })
            }
            &&& current && request.command is RunMonitoringNow ==> after == control && (
            answer.outcome matches DaemonResponseOutcomeView::Error { error } && error.code is Unsupported)
            &&& !current ==> after == control && answer.outcome == (DaemonResponseOutcomeView::Error {
                error: version_refused(request.schema_version),
            })
        }),
{
}

/// That a daemon stops is told with its new status, the first time only.
pub proof fn stopping_is_told_with_the_new_status(control: DaemonControlView)
    ensures
        control.status.state is Stopping ==> control.stop_events().len() == 0,
        !(control.status.state is Stopping) ==> control.stop_events().len() == 1 && control.stop_events()[0] == (
        DaemonEventView::StatusChanged { status: control.stopped().status }),
        control.stopped().cancelled,
        control.stopped().status.state is Stopping,
{
}

/// A sample is noted in the schedule and in the status, with the notification that its transition
/// calls for. A failure counts, and is notified with how many there were in a row. Neither changes
/// whether the daemon is to stop, nor the intervals.
pub proof fn looks_are_noted_in_schedule_and_status(
    daemon: ForegroundView,
    report: MonitoringReportView,
    next: Option<Timestamp>,
)
    ensures
        ({
            let sampled = daemon.after_sample(report, next);
            let failed = daemon.after_failure(next);
            let signal = notification_for(transition_between(daemon.run.previous, report));
            &&& sampled.run == daemon.run.after_success(report)
            &&& sampled.control.status.last_monitoring_at == Some(report.scanned_at)
            &&& sampled.control.status.next_monitoring_at == next
            &&& !(signal is NoNotification) ==> sampled.control.status.last_notification == Some(signal)
            &&& signal is NoNotification ==> sampled.control.status.last_notification
                == daemon.control.status.last_notification
            &&& sampled.control.cancelled == daemon.control.cancelled
            &&& sampled.interval == daemon.interval && sampled.usage_interval == daemon.usage_interval
            &&& failed.run == daemon.run.after_failure()
            &&& failed.control.status.last_monitoring_at == daemon.control.status.last_monitoring_at
            &&& failed.control.status.next_monitoring_at == next
            &&& failed.control.status.last_notification matches Some(
                MonitoringNotificationSignal::MonitoringFailure { consecutive_failures },
            ) && consecutive_failures == failed.run.consecutive_failures
            &&& failed.control.cancelled == daemon.control.cancelled
            &&& failed.interval == daemon.interval && failed.usage_interval == daemon.usage_interval
        }),
{
}

/// What failed is said to be the provider or the store, with its own words.
pub proof fn a_failure_says_what_failed(error: MonitoringIterationError<String>)
    ensures
        error matches MonitoringIterationError::Provider(e) ==> failure_text(error) == "monitoring provider error: "@
            + e.text(),
        error matches MonitoringIterationError::Persistence(e) ==> failure_text(error)
            == "failed to persist monitoring sample: "@ + e@,
{
}

/// A watch is told its scope, its interval, its limit, where samples go, whether and how it looks at
/// usage, and what it compares with.
pub proof fn a_watch_is_told_how_it_looks_at_usage(
    scope: crate::model::ScanScopeView,
    interval: u64,
    max_attempts: Option<u64>,
    directory: Seq<char>,
    usage: Option<(nat, u64)>,
    baseline: Option<Timestamp>,
)
    ensures
        ({
            let lines = watch_heading(scope, interval, max_attempts, directory, usage, baseline);
            &&& lines[1] == "Scope:                "@ + scope_name(scope)
            &&& lines[2] == "Interval:             "@ + decimal(interval as nat) + "s"@
            &&& max_attempts is Some ==> lines[3] == "Attempt limit:        "@ + decimal(max_attempts->0 as nat)
            &&& max_attempts is None ==> lines[3] == "Attempt limit:        "@ + "none (Ctrl-C to stop)"@
            &&& lines[4] == "Persistence:          "@ + directory
            &&& usage is None ==> lines[5] == "Account usage polling: "@ + "disabled (no configured allowances)"@
            &&& usage matches Some((resources, minutes)) ==> lines[5] == "Account usage polling: "@ + ("enabled ("@
                + decimal(resources) + " configured resource(s), "@ + decimal(minutes as nat) + "m interval)"@)
            &&& baseline is None ==> lines[6] == "Baseline:             "@ + "none"@
        }),
{
}

/// Any number but zero limits the attempts to itself; zero sets no limit.
pub proof fn zero_sets_no_limit(iterations: u64)
    ensures
        limit_on_attempts(0) is None,
        iterations != 0 ==> limit_on_attempts(iterations) == Some(iterations),
{
}

} // verus!
