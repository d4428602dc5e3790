//! What a daemon tells, and what a look at usage came to.
use crate::account_usage::BillingPeriod;
use crate::account_usage_monitoring::{
    AccountUsageOwnerPoll, AccountUsageOwnerPollView, UsageQuotaNotificationOutcome, UsageQuotaNotificationOutcomeView,
};
use crate::agent::{DaemonEvent, DaemonEventView, DaemonRuntimeState, DaemonStatus, DaemonStatusView};
use crate::allowance::{UsageQuotaAlertKey, UsageQuotaAlertKeyView, UsageQuotaThreshold};
use crate::labels::{
    account_usage_availability_label, availability_name, billing_owner_kind_label, format_optional_time, format_scope,
    notification_label, notification_name, owner_kind_name, scope_name, time_name,
};
use crate::model::{Account, AccountView, ScanScope, ScanScopeView};
use crate::report::monitoring::{Line, LineView};
use crate::report::{account_name, count_text, name_account, say_yes_or_no, second, yes_or_no};
use crate::text::{decimal, join, join2, join3, join4, join5, joined, padded, padded_number};
use crate::value::{add_to, single};
use vstd::string::StringExecFns;
use vstd::prelude::*;

verus! {

/// The state of a daemon.
pub open spec fn runtime_name(state: DaemonRuntimeState) -> Seq<char> {
    match state {
        DaemonRuntimeState::Starting => "Starting"@,
        DaemonRuntimeState::Running => "Running"@,
        DaemonRuntimeState::Stopping => "Stopping"@,
    }
}

fn name_runtime(state: DaemonRuntimeState) -> (result: &'static str)
    ensures
        result@ == runtime_name(state),
{
    match state {
        DaemonRuntimeState::Starting => "Starting",
        DaemonRuntimeState::Running => "Running",
        DaemonRuntimeState::Stopping => "Stopping",
    }
}

/// The threshold of a quota.
pub open spec fn threshold_word(threshold: UsageQuotaThreshold) -> Seq<char> {
    match threshold {
        UsageQuotaThreshold::Warning => "Warning"@,
        UsageQuotaThreshold::Critical => "Critical"@,
    }
}

fn say_threshold(threshold: UsageQuotaThreshold) -> (result: &'static str)
    ensures
        result@ == threshold_word(threshold),
{
    match threshold {
        UsageQuotaThreshold::Warning => "Warning",
        UsageQuotaThreshold::Critical => "Critical",
    }
}

/// An account, if it is known.
pub open spec fn known_account(account: Option<AccountView>) -> Seq<char> {
    match account {
        Some(account) => account_name(account),
        None => "<unresolved>"@,
    }
}

fn name_known_account(account: &Option<Account>) -> (result: String)
    ensures
        result@ == known_account(account.deep_view()),
{
    match account {
        Some(account) => name_account(account),
        None => "<unresolved>".to_string(),
    }
}

/// A scope, if it is known.
pub open spec fn known_scope(scope: Option<ScanScopeView>) -> Seq<char> {
    match scope {
        Some(scope) => scope_name(scope),
        None => "<unresolved>"@,
    }
}

fn name_known_scope(scope: &Option<ScanScope>) -> (result: String)
    ensures
        result@ == known_scope(scope.deep_view()),
{
    match scope {
        Some(scope) => format_scope(scope),
        None => "<unresolved>".to_string(),
    }
}

/// The status of a daemon in a line.
pub open spec fn status_text(status: DaemonStatusView) -> Seq<char> {
    "daemon status state="@ + runtime_name(status.state) + " account="@ + known_account(status.account) + " scope="@
        + known_scope(status.scope) + " last_monitoring="@ + time_name(status.last_monitoring_at)
        + " next_monitoring="@ + time_name(status.next_monitoring_at) + " last_account_usage="@ + time_name(
        status.last_account_usage_at,
    ) + " next_account_usage="@ + time_name(status.next_account_usage_at) + " cleanup="@
        + if status.automatic_cleanup_enabled {
        "enabled"@
    } else {
        "disabled"@
    }
}

fn write_status(status: &DaemonStatus) -> (result: String)
    ensures
        result@ == status_text(status.deep_view()),
{
    let mut text = "daemon status state=".to_string();
    text.append(name_runtime(status.state));
    text.append(" account=");
    text.append(name_known_account(&status.account).as_str());
    text.append(" scope=");
    text.append(name_known_scope(&status.scope).as_str());
    text.append(" last_monitoring=");
    text.append(format_optional_time(status.last_monitoring_at).as_str());
    text.append(" next_monitoring=");
    text.append(format_optional_time(status.next_monitoring_at).as_str());
    text.append(" last_account_usage=");
    text.append(format_optional_time(status.last_account_usage_at).as_str());
    text.append(" next_account_usage=");
    text.append(format_optional_time(status.next_account_usage_at).as_str());
    text.append(" cleanup=");
    text.append(
        if status.automatic_cleanup_enabled {
            "enabled"
        } else {
            "disabled"
        },
    );
    text
}

/// What a daemon tells, in a line. A look at usage is told account by account instead.
pub open spec fn event_line(event: DaemonEventView) -> Option<LineView> {
    match event {
        DaemonEventView::StatusChanged { status } => Some(LineView { is_error: false, text: status_text(status) }),
        DaemonEventView::MonitoringSignal { occurred_at, signal } => Some(
            LineView {
                is_error: false,
                text: "daemon monitoring signal "@ + second(occurred_at) + " "@ + notification_name(signal),
            },
        ),
        DaemonEventView::AccountUsageCycle { cycle } => None,
        DaemonEventView::Error { occurred_at, message } => Some(
            LineView { is_error: true, text: "daemon error "@ + second(occurred_at) + " "@ + message },
        ),
    }
}

/// Describes what a daemon tells.
pub fn describe_daemon_event(event: &DaemonEvent) -> (result: Option<Line>)
    ensures
        result.deep_view() == event_line(event.deep_view()),
{
    match event {
        DaemonEvent::StatusChanged { status } => Some(Line { is_error: false, text: write_status(status) }),
        DaemonEvent::MonitoringSignal { occurred_at, signal } => Some(
            Line {
                is_error: false,
                text: join4(
                    "daemon monitoring signal ",
                    occurred_at.describe().as_str(),
                    " ",
                    notification_label(*signal),
                ),
            },
        ),
        DaemonEvent::AccountUsageCycle { .. } => None,
        DaemonEvent::Error { occurred_at, message } => Some(
            Line {
                is_error: true,
                text: join4("daemon error ", occurred_at.describe().as_str(), " ", message.as_str()),
            },
        ),
    }
}

/// A year with at least four places, of which a sign takes one.
pub open spec fn year_text(year: i32) -> Seq<char> {
    if year >= 0 {
        padded(year as nat, 4)
    } else {
        "-"@ + padded((-year) as nat, 3)
    }
}

fn write_year(year: i32) -> (result: String)
    ensures
        result@ == year_text(year),
{
    if year >= 0 {
        padded_number(year as u64, 4)
    } else {
        let size: i64 = -(year as i64);
        join2("-", padded_number(size as u64, 3).as_str())
    }
}

/// The usage of an account, in a line.
pub open spec fn usage_text(period: BillingPeriod, poll: AccountUsageOwnerPollView) -> Seq<char> {
    "account usage "@ + year_text(period.year) + "-"@ + padded(period.month as nat, 2) + " "@ + poll.owner.provider
        + ":"@ + owner_kind_name(poll.owner.kind) + ":"@ + poll.owner.login + " state="@ + availability_name(
        poll.observation.availability,
    ) + " persisted="@ + yes_or_no(poll.persisted) + " evaluations="@ + decimal(poll.evaluations.len())
        + " notifications="@ + decimal(poll.notifications.len())
}

fn write_usage(period: BillingPeriod, poll: &AccountUsageOwnerPoll) -> (result: String)
    ensures
        result@ == usage_text(period, poll.deep_view()),
{
    let mut text = "account usage ".to_string();
    text.append(write_year(period.year).as_str());
    text.append("-");
    text.append(padded_number(period.month as u64, 2).as_str());
    text.append(" ");
    text.append(poll.owner.provider.as_str());
    text.append(":");
    text.append(billing_owner_kind_label(poll.owner.kind));
    text.append(":");
    text.append(poll.owner.login.as_str());
    text.append(" state=");
    text.append(account_usage_availability_label(&poll.observation.availability));
    text.append(" persisted=");
    text.append(say_yes_or_no(poll.persisted));
    text.append(" evaluations=");
    text.append(count_text(poll.evaluations.len()).as_str());
    text.append(" notifications=");
    text.append(count_text(poll.notifications.len()).as_str());
    text
}

/// What an alert is about.
pub open spec fn alert_text(before: Seq<char>, key: UsageQuotaAlertKeyView) -> Seq<char> {
    before + "resource="@ + key.resource_id + " threshold="@ + threshold_word(key.threshold)
}

fn write_alert(before: &str, key: &UsageQuotaAlertKey) -> (result: String)
    ensures
        result@ == alert_text(before@, key.deep_view()),
{
    join5(before, "resource=", key.resource_id.as_str(), " threshold=", say_threshold(key.threshold))
}

/// An alert that is told.
pub open spec fn told_alert(key: UsageQuotaAlertKeyView) -> Seq<char> {
    let threshold = match key.threshold {
        UsageQuotaThreshold::Warning => "warning"@,
        UsageQuotaThreshold::Critical => "critical"@,
    };
    "account usage quota "@ + threshold + ": "@ + key.owner.provider + ":"@ + key.owner.login + " resource="@
        + key.resource_id + " period="@ + year_text(key.period.year) + "-"@ + padded(key.period.month as nat, 2)
}

/// An alert, in a line.
pub fn describe_alert(key: &UsageQuotaAlertKey) -> (result: String)
    ensures
        result@ == told_alert(key.deep_view()),
{
    let mut text = "account usage quota ".to_string();
    text.append(
        match key.threshold {
            UsageQuotaThreshold::Warning => "warning",
            UsageQuotaThreshold::Critical => "critical",
        },
    );
    text.append(": ");
    text.append(key.owner.provider.as_str());
    text.append(":");
    text.append(key.owner.login.as_str());
    text.append(" resource=");
    text.append(key.resource_id.as_str());
    text.append(" period=");
    text.append(write_year(key.period.year).as_str());
    text.append("-");
    text.append(padded_number(key.period.month as u64, 2).as_str());
    text
}

/// What came of an alert.
pub open spec fn alert_line(outcome: UsageQuotaNotificationOutcomeView) -> LineView {
    match outcome {
        UsageQuotaNotificationOutcomeView::Delivered { key } => LineView {
            is_error: false,
            text: alert_text("  quota notification delivered: "@, key),
        },
        UsageQuotaNotificationOutcomeView::SuppressedDuplicate { key } => LineView {
            is_error: false,
            text: alert_text("  quota notification suppressed: "@, key),
        },
        UsageQuotaNotificationOutcomeView::FailClosed { key, issues } => LineView {
            is_error: true,
            text: alert_text("  quota notification fail-closed: "@, key) + "; "@ + joined(issues, "; "@),
        },
        UsageQuotaNotificationOutcomeView::DeliveryFailed { key, message } => LineView {
            is_error: true,
            text: alert_text("  quota notification delivery failed: "@, key) + "; "@ + message,
        },
        UsageQuotaNotificationOutcomeView::ReceiptFailed { key, message } => LineView {
            is_error: true,
            text: alert_text("  quota notification receipt failed after delivery: "@, key) + "; "@ + message,
        },
    }
}

fn write_alert_outcome(outcome: &UsageQuotaNotificationOutcome) -> (result: Line)
    ensures
        result.deep_view() == alert_line(outcome.deep_view()),
{
    match outcome {
        UsageQuotaNotificationOutcome::Delivered { key } => Line {
            is_error: false,
            text: write_alert("  quota notification delivered: ", key),
        },
        UsageQuotaNotificationOutcome::SuppressedDuplicate { key } => Line {
            is_error: false,
            text: write_alert("  quota notification suppressed: ", key),
        },
        UsageQuotaNotificationOutcome::FailClosed { key, issues } => Line {
            is_error: true,
            text: join3(
                write_alert("  quota notification fail-closed: ", key).as_str(),
                "; ",
                join(issues, "; ").as_str(),
            ),
        },
        UsageQuotaNotificationOutcome::DeliveryFailed { key, message } => Line {
            is_error: true,
            text: join3(
                write_alert("  quota notification delivery failed: ", key).as_str(),
                "; ",
                message.as_str(),
            ),
        },
        UsageQuotaNotificationOutcome::ReceiptFailed { key, message } => Line {
            is_error: true,
            text: join3(
                write_alert("  quota notification receipt failed after delivery: ", key).as_str(),
                "; ",
                message.as_str(),
            ),
        },
    }
}

/// Why usage could not be stored, in a line, if it could not.
pub open spec fn storing_lines(error: Option<Seq<char>>) -> Seq<LineView> {
    match error {
        Some(error) => seq![LineView { is_error: true, text: "  account usage persistence error: "@ + error }],
        None => Seq::empty(),
    }
}

/// An error of an evaluation, in a line.
pub open spec fn evaluation_line(error: Seq<char>) -> LineView {
    LineView { is_error: true, text: "  account usage evaluation error: "@ + error }
}

/// What a look at the usage of one account came to. `errors` are its evaluation errors in
/// words.
pub open spec fn usage_lines(
    period: BillingPeriod,
    poll: AccountUsageOwnerPollView,
    errors: Seq<Seq<char>>,
) -> Seq<LineView> {
    seq![LineView { is_error: false, text: usage_text(period, poll) }] + storing_lines(poll.persistence_error)
        + Seq::new(errors.len(), |k: int| evaluation_line(errors[k])) + Seq::new(
        poll.notifications.len(),
        |k: int| alert_line(poll.notifications[k]),
    )
}

/// Describes what a look at the usage of one account came to.
pub fn describe_usage(period: BillingPeriod, poll: &AccountUsageOwnerPoll, errors: &Vec<String>) -> (result: Vec<Line>)
    ensures
        result.deep_view() == usage_lines(period, poll.deep_view(), errors.deep_view()),
{
    let mut lines = single(Line { is_error: false, text: write_usage(period, poll) });
    match &poll.persistence_error {
        Some(error) => {
            add_to(
                &mut lines,
                Line { is_error: true, text: join2("  account usage persistence error: ", error.as_str()) },
            );
        },
        None => {},
    }
    let ghost head = lines.deep_view();
    assert(head =~= seq![LineView { is_error: false, text: usage_text(period, poll.deep_view()) }] + storing_lines(
        poll.deep_view().persistence_error,
    ));
    let ghost all = errors.deep_view();
    let mut i: usize = 0;
    assert(head + Seq::new(0, |k: int| evaluation_line(all[k])) =~= head);
    while i < errors.len()
        invariant
            all == errors.deep_view(),
            i <= errors.len(),
            lines.deep_view() == head + Seq::new(i as nat, |k: int| evaluation_line(all[k])),
        decreases errors.len() - i,
    {
        assert(all[i as int] == errors@[i as int].deep_view());
        add_to(
            &mut lines,
            Line { is_error: true, text: join2("  account usage evaluation error: ", errors[i].as_str()) },
        );
        i = i + 1;
        assert(lines.deep_view() =~= head + Seq::new(i as nat, |k: int| evaluation_line(all[k])));
    }
    let ghost told = lines.deep_view();
    let outcomes = &poll.notifications;
    let ghost alerts = outcomes.deep_view();
    let mut j: usize = 0;
    assert(told + Seq::new(0, |k: int| alert_line(alerts[k])) =~= told);
    while j < outcomes.len()
        invariant
            alerts == outcomes.deep_view(),
            j <= outcomes.len(),
            lines.deep_view() == told + Seq::new(j as nat, |k: int| alert_line(alerts[k])),
        decreases outcomes.len() - j,
    {
        assert(alerts[j as int] == outcomes@[j as int].deep_view());
        add_to(&mut lines, write_alert_outcome(&outcomes[j]));
        j = j + 1;
        assert(lines.deep_view() =~= told + Seq::new(j as nat, |k: int| alert_line(alerts[k])));
    }
    lines
}

/// Errors go where errors go, and nothing else does; a look at usage has no line of its own.
pub proof fn only_errors_are_told_as_errors(event: DaemonEventView)
    ensures
        event is AccountUsageCycle <==> event_line(event) is None,
        event is Error ==> event_line(event)->0.is_error,
        event is StatusChanged || event is MonitoringSignal ==> !event_line(event)->0.is_error,
        event matches DaemonEventView::StatusChanged { status } ==> event_line(event)->0.text == status_text(status),
        event matches DaemonEventView::Error { occurred_at, message } ==> event_line(event)->0.text == "daemon error "@
            + second(occurred_at) + " "@ + message,
        event matches DaemonEventView::MonitoringSignal { occurred_at, signal } ==> event_line(event)->0.text
            == "daemon monitoring signal "@ + second(occurred_at) + " "@ + notification_name(signal),
{
}

/// An alert that was delivered or suppressed is no error; any other is.
pub proof fn alerts_that_fail_are_errors(outcome: UsageQuotaNotificationOutcomeView)
    ensures
        alert_line(outcome).is_error <==> !(outcome is Delivered) && !(outcome is SuppressedDuplicate),
{
}

/// The usage of an account is written in a line, with its errors and the outcome of each alert below,
/// in their order.
pub proof fn usage_is_written_with_errors_and_alerts(
    period: BillingPeriod,
    poll: AccountUsageOwnerPollView,
    errors: Seq<Seq<char>>,
    k: int,
)
    ensures
        ({
            let lines = usage_lines(period, poll, errors);
            let head: int = if poll.persistence_error is Some {
                2
            } else {
                1
            };
            &&& lines.len() == head + errors.len() + poll.notifications.len()
            &&& lines[0].text == usage_text(period, poll) && !lines[0].is_error
            &&& poll.persistence_error is Some ==> lines[1] == (LineView {
                is_error: true,
                text: "  account usage persistence error: "@ + poll.persistence_error->0,
            })
            &&& 0 <= k < errors.len() ==> lines[head + k] == (LineView {
                is_error: true,
                text: "  account usage evaluation error: "@ + errors[k],
            })
            &&& 0 <= k < poll.notifications.len() ==> lines[head + errors.len() + k] == alert_line(
                poll.notifications[k],
            )
        }),
{
}

/// An account or a scope that is not known is said to be unresolved.
pub proof fn what_is_not_known_is_unresolved(account: Option<AccountView>, scope: Option<ScanScopeView>)
    ensures
        account is None ==> known_account(account) == "<unresolved>"@,
        account is Some ==> known_account(account) == account->0.provider + ":"@ + account->0.login,
        scope is None ==> known_scope(scope) == "<unresolved>"@,
        scope is Some ==> known_scope(scope) == scope_name(scope->0),
{
}

/// An alert is told with its threshold, its account, its resource and its month.
pub proof fn an_alert_names_what_it_is_about(key: UsageQuotaAlertKeyView)
    ensures
        ({
            let tail = ": "@ + key.owner.provider + ":"@ + key.owner.login + " resource="@ + key.resource_id
                + " period="@ + year_text(key.period.year) + "-"@ + padded(key.period.month as nat, 2);
            &&& key.threshold is Warning ==> told_alert(key) == "account usage quota "@ + "warning"@ + tail
            &&& key.threshold is Critical ==> told_alert(key) == "account usage quota "@ + "critical"@ + tail
        }),
{
    let tail = ": "@ + key.owner.provider + ":"@ + key.owner.login + " resource="@ + key.resource_id + " period="@
        + year_text(key.period.year) + "-"@ + padded(key.period.month as nat, 2);
    if key.threshold is Warning {
        assert(told_alert(key) =~= "account usage quota "@ + "warning"@ + tail);
    } else {
        assert(told_alert(key) =~= "account usage quota "@ + "critical"@ + tail);
    }
}

} // verus!
