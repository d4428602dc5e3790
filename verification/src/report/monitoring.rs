//! Samples of storage, and the schedule by which they are taken.
use crate::daemon::failure_text;
use crate::format::{format_bytes, format_optional_bytes, written_size};
use crate::labels::{
    format_optional_time, format_scope, notification_label, notification_name, pressure_label, pressure_name,
    scope_name, stop_reason_label, stop_reason_name, time_name, transition_label, transition_name,
};
use crate::model::{ScanScope, ScanScopeView};
use crate::monitoring::{
    iteration_error_message, MonitoringReport, MonitoringReportView, MonitoringSchedulerEvent,
    MonitoringSchedulerSummary, StoragePressureLevel,
};
use crate::report::{account_name, count_text, name_account, second};
use crate::table::{add_last, add_left, add_right, left, right, to_left};
use crate::text::{decimal, join2, join3, join9, large_number, number};
use crate::time::Timestamp;
use crate::value::{add_to, nothing, single};
use vstd::string::StringExecFns;
use vstd::prelude::*;

verus! {

/// A threshold, if there is one.
pub open spec fn threshold_name(bytes: Option<u64>) -> Seq<char> {
    match bytes {
        Some(bytes) => written_size(bytes),
        None => "unconfigured"@,
    }
}

/// A sample, and the configuration by which it was judged.
pub open spec fn sample_lines(
    report: MonitoringReportView,
    config_path: Seq<char>,
    config_persisted: bool,
    check_interval_minutes: u64,
) -> Seq<Seq<char>> {
    seq![
        "Account:              "@ + report.account.login,
        "Scope:                "@ + scope_name(report.scope),
        "Configuration:        "@ + config_path + if config_persisted {
            ""@
        } else {
            " (built-in defaults; not persisted)"@
        },
        "Check interval:       "@ + decimal(check_interval_minutes as nat) + "m"@,
        "Repositories:         "@ + decimal(report.repository_count as nat),
        "Artifacts:            "@ + decimal(report.artifact_count as nat),
        "Current storage:      "@ + written_size(report.pressure.total_bytes),
        "Pressure:             "@ + pressure_name(report.pressure.level),
        "Warning threshold:    "@ + threshold_name(report.pressure.warning_bytes),
        "Critical threshold:   "@ + threshold_name(report.pressure.critical_bytes),
    ] + if report.pressure.level == StoragePressureLevel::Unconfigured {
        seq![""@, "Monitoring thresholds are unconfigured; this status is observational only."@]
    } else {
        Seq::empty()
    }
}

/// Describes a sample.
pub fn describe_monitoring_report(
    report: &MonitoringReport,
    config_path: &str,
    config_persisted: bool,
    check_interval_minutes: u64,
) -> (result: Vec<String>)
    ensures
        result.deep_view() == sample_lines(report.deep_view(), config_path@, config_persisted, check_interval_minutes),
{
    let mut lines: Vec<String> = nothing();
    add_to(&mut lines, join2("Account:              ", report.account.login.as_str()));
    add_to(&mut lines, join2("Scope:                ", format_scope(&report.scope).as_str()));
    add_to(
        &mut lines,
        join3(
            "Configuration:        ",
            config_path,
            if config_persisted {
                ""
            } else {
                " (built-in defaults; not persisted)"
            },
        ),
    );
    add_to(&mut lines, join3("Check interval:       ", number(check_interval_minutes).as_str(), "m"));
    add_to(&mut lines, join2("Repositories:         ", count_text(report.repository_count).as_str()));
    add_to(&mut lines, join2("Artifacts:            ", count_text(report.artifact_count).as_str()));
    add_to(&mut lines, join2("Current storage:      ", format_bytes(report.pressure.total_bytes).as_str()));
    add_to(&mut lines, join2("Pressure:             ", pressure_label(report.pressure.level)));
    add_to(&mut lines, join2("Warning threshold:    ", format_optional_bytes(report.pressure.warning_bytes).as_str()));
    add_to(&mut lines, join2("Critical threshold:   ", format_optional_bytes(report.pressure.critical_bytes).as_str()));
    if report.pressure.level == StoragePressureLevel::Unconfigured {
        add_to(&mut lines, "".to_string());
        add_to(
            &mut lines,
            "Monitoring thresholds are unconfigured; this status is observational only.".to_string(),
        );
    }
    assert(lines.deep_view() =~= sample_lines(
        report.deep_view(),
        config_path@,
        config_persisted,
        check_interval_minutes,
    ));
    lines
}

/// A sample that was recorded.
#[derive(Clone, Debug, PartialEq, Eq)]
pub struct MonitoringSample {
    pub recorded_at: Timestamp,
    pub report: MonitoringReport,
}

#[verifier::ext_equal]
pub struct MonitoringSampleView {
    pub recorded_at: Timestamp,
    pub report: MonitoringReportView,
}

impl DeepView for MonitoringSample {
    type V = MonitoringSampleView;

    open spec fn deep_view(&self) -> MonitoringSampleView {
        MonitoringSampleView { recorded_at: self.recorded_at, report: self.report.deep_view() }
    }
}

pub open spec fn sample_heading() -> Seq<char> {
    left("RECORDED"@, 20) + " "@ + left("SCOPE"@, 24) + " "@ + left("ACCOUNT"@, 26) + " "@ + left("PRESSURE"@, 12) + " "@ + right("REPOS"@, 6) + " "@ + right("ARTIFACTS"@, 8) + " "@ + right("STORAGE"@, 12) + " "@ + right("ISSUES"@, 6)
}

fn write_sample_heading() -> (result: String)
    ensures
        result@ == sample_heading(),
{
    let mut line = to_left("RECORDED", 20);
    add_left(&mut line, "SCOPE", 24);
    add_left(&mut line, "ACCOUNT", 26);
    add_left(&mut line, "PRESSURE", 12);
    add_right(&mut line, "REPOS", 6);
    add_right(&mut line, "ARTIFACTS", 8);
    add_right(&mut line, "STORAGE", 12);
    add_right(&mut line, "ISSUES", 6);
    line
}

/// A recorded sample.
pub open spec fn sample_row(sample: MonitoringSampleView) -> Seq<char> {
    left(second(sample.recorded_at), 20) + " "@ + left(scope_name(sample.report.scope), 24) + " "@ + left(account_name(sample.report.account), 26) + " "@ + left(pressure_name(sample.report.pressure.level), 12) + " "@ + right(decimal(sample.report.repository_count as nat), 6) + " "@ + right(decimal(sample.report.artifact_count as nat), 8) + " "@ + right(written_size(sample.report.total_bytes), 12) + " "@ + right(decimal(sample.report.issues.len()), 6)
}

fn write_sample_row(sample: &MonitoringSample) -> (result: String)
    ensures
        result@ == sample_row(sample.deep_view()),
{
    let mut line = to_left(sample.recorded_at.describe().as_str(), 20);
    add_left(&mut line, format_scope(&sample.report.scope).as_str(), 24);
    add_left(&mut line, name_account(&sample.report.account).as_str(), 26);
    add_left(&mut line, pressure_label(sample.report.pressure.level), 12);
    add_right(&mut line, count_text(sample.report.repository_count).as_str(), 6);
    add_right(&mut line, count_text(sample.report.artifact_count).as_str(), 8);
    add_right(&mut line, format_bytes(sample.report.total_bytes).as_str(), 12);
    add_right(&mut line, count_text(sample.report.issues.len()).as_str(), 6);
    line
}

/// Recorded samples, one below the other.
pub open spec fn sample_history_lines(samples: Seq<MonitoringSampleView>) -> Seq<Seq<char>> {
    if samples.len() == 0 {
        seq!["No monitoring samples found."@]
    } else {
        seq![sample_heading()] + Seq::new(samples.len(), |k: int| sample_row(samples[k]))
    }
}

/// Describes recorded samples.
pub fn describe_monitoring_history(samples: &Vec<MonitoringSample>) -> (result: Vec<String>)
    ensures
        result.deep_view() == sample_history_lines(samples.deep_view()),
{
    if samples.len() == 0 {
        return single("No monitoring samples found.".to_string());
    }
    let mut lines = single(write_sample_heading());
    let ghost head = lines.deep_view();
    let ghost all = samples.deep_view();
    let mut i: usize = 0;
    assert(head + Seq::new(0, |k: int| sample_row(all[k])) =~= head);
    while i < samples.len()
        invariant
            all == samples.deep_view(),
            i <= samples.len(),
            lines.deep_view() == head + Seq::new(i as nat, |k: int| sample_row(all[k])),
        decreases samples.len() - i,
    {
        assert(all[i as int] == samples@[i as int].deep_view());
        add_to(&mut lines, write_sample_row(&samples[i]));
        i = i + 1;
        assert(lines.deep_view() =~= head + Seq::new(i as nat, |k: int| sample_row(all[k])));
    }
    lines
}

/// A line, and whether it goes where errors go.
#[derive(Clone, Debug, PartialEq, Eq)]
pub struct Line {
    pub is_error: bool,
    pub text: String,
}

#[verifier::ext_equal]
pub struct LineView {
    pub is_error: bool,
    pub text: Seq<char>,
}

impl DeepView for Line {
    type V = LineView;

    open spec fn deep_view(&self) -> LineView {
        LineView { is_error: self.is_error, text: self.text@ }
    }
}

/// What happened at a look at storage. The receipt is the path of the sample.
pub open spec fn scheduler_event_line(event: MonitoringSchedulerEvent<String, String>) -> LineView {
    match event {
        MonitoringSchedulerEvent::Iteration { iteration, transition, notification } => LineView {
            is_error: false,
            text: second(iteration.report.scanned_at) + "  "@ + left(
                pressure_name(iteration.report.pressure.level),
                12,
            ) + " "@ + right(written_size(iteration.report.total_bytes), 12) + "  "@ + left(
                transition_name(transition),
                28,
            ) + " "@ + left(notification_name(notification), 24) + " "@ + iteration.receipt@,
        },
        MonitoringSchedulerEvent::Failure { error, consecutive_failures, retry_after, notification } => LineView {
            is_error: true,
            text: "monitoring failure #"@ + decimal(consecutive_failures as nat) + ": "@ + failure_text(error)
                + "; signal="@ + notification_name(notification) + "; next attempt in "@ + decimal(
                retry_after as nat / 1_000_000_000,
            ) + "s"@,
        },
    }
}

/// Describes what happened at a look at storage.
pub fn describe_scheduler_event(event: &MonitoringSchedulerEvent<String, String>) -> (result: Line)
    ensures
        result.deep_view() == scheduler_event_line(*event),
{
    match event {
        MonitoringSchedulerEvent::Iteration { iteration, transition, notification } => {
            let mut text = iteration.report.scanned_at.describe();
            text.append("  ");
            text.append(to_left(pressure_label(iteration.report.pressure.level), 12).as_str());
            add_right(&mut text, format_bytes(iteration.report.total_bytes).as_str(), 12);
            text.append("  ");
            text.append(to_left(transition_label(transition).as_str(), 28).as_str());
            add_left(&mut text, notification_label(*notification), 24);
            add_last(&mut text, iteration.receipt.as_str());
            Line { is_error: false, text }
        },
        MonitoringSchedulerEvent::Failure { error, consecutive_failures, retry_after, notification } => {
            let text = join9(
                "monitoring failure #",
                number(*consecutive_failures as u64).as_str(),
                ": ",
                iteration_error_message(error).as_str(),
                "; signal=",
                notification_label(*notification),
                "; next attempt in ",
                large_number(*retry_after / 1_000_000_000).as_str(),
                "s",
            );
            Line { is_error: true, text }
        },
    }
}

/// How a schedule ended.
pub open spec fn scheduler_summary_lines(summary: MonitoringSchedulerSummary) -> Seq<Seq<char>> {
    seq![
        ""@,
        "Monitoring stopped"@,
        "Attempts:             "@ + decimal(summary.attempts as nat),
        "Successful samples:   "@ + decimal(summary.successes as nat),
        "Failures:             "@ + decimal(summary.failures as nat),
        "Reason:               "@ + stop_reason_name(summary.stop_reason),
    ]
}

/// Describes how a schedule ended.
pub fn describe_scheduler_summary(summary: MonitoringSchedulerSummary) -> (result: Vec<String>)
    ensures
        result.deep_view() == scheduler_summary_lines(summary),
{
    let mut lines: Vec<String> = nothing();
    add_to(&mut lines, "".to_string());
    add_to(&mut lines, "Monitoring stopped".to_string());
    add_to(&mut lines, join2("Attempts:             ", number(summary.attempts).as_str()));
    add_to(&mut lines, join2("Successful samples:   ", number(summary.successes).as_str()));
    add_to(&mut lines, join2("Failures:             ", number(summary.failures).as_str()));
    add_to(&mut lines, join2("Reason:               ", stop_reason_label(summary.stop_reason)));
    lines
}

/// What a watch in the foreground is told. The interval is in seconds.
pub open spec fn foreground_lines(
    scope: ScanScopeView,
    interval: u64,
    max_attempts: Option<u64>,
    directory: Seq<char>,
    baseline: Option<Timestamp>,
) -> Seq<Seq<char>> {
    seq![
        "Foreground monitoring"@,
        "Scope:                "@ + scope_name(scope),
        "Interval:             "@ + decimal(interval as nat) + "s"@,
        "Attempt limit:        "@ + match max_attempts {
            Some(limit) => decimal(limit as nat),
            None => "none (Ctrl-C to stop)"@,
        },
        "Persistence:          "@ + directory,
        "Baseline:             "@ + time_name(baseline),
        ""@,
    ]
}

/// Describes what a watch in the foreground is told.
pub fn describe_foreground(
    scope: &ScanScope,
    interval: u64,
    max_attempts: Option<u64>,
    directory: &str,
    baseline: Option<Timestamp>,
) -> (result: Vec<String>)
    ensures
        result.deep_view() == foreground_lines(scope.deep_view(), interval, max_attempts, directory@, baseline),
{
    let mut lines: Vec<String> = nothing();
    add_to(&mut lines, "Foreground monitoring".to_string());
    add_to(&mut lines, join2("Scope:                ", format_scope(scope).as_str()));
    add_to(&mut lines, join3("Interval:             ", number(interval).as_str(), "s"));
    let limit = match max_attempts {
        Some(limit) => number(limit),
        None => "none (Ctrl-C to stop)".to_string(),
    };
    add_to(&mut lines, join2("Attempt limit:        ", limit.as_str()));
    add_to(&mut lines, join2("Persistence:          ", directory));
    add_to(&mut lines, join2("Baseline:             ", format_optional_time(baseline).as_str()));
    add_to(&mut lines, "".to_string());
    lines
}

/// What is said of a configuration that was just written.
pub open spec fn initialized_lines(path: Seq<char>, warning_bytes: Option<u64>, critical_bytes: Option<u64>) -> Seq<
    Seq<char>,
> {
    let written = seq!["Initialized configuration: "@ + path];
    if warning_bytes is None && critical_bytes is None {
        written.push(
            "Monitoring thresholds are unconfigured; set warning_bytes and/or critical_bytes before relying on pressure alerts."@,
        )
    } else {
        written
    }
}

/// Describes a configuration that was just written.
pub fn describe_initialized_config(path: &str, warning_bytes: Option<u64>, critical_bytes: Option<u64>) -> (result: Vec<
    String,
>)
    ensures
        result.deep_view() == initialized_lines(path@, warning_bytes, critical_bytes),
{
    let mut lines = single(join2("Initialized configuration: ", path));
    if warning_bytes.is_none() && critical_bytes.is_none() {
        add_to(
            &mut lines,
            "Monitoring thresholds are unconfigured; set warning_bytes and/or critical_bytes before relying on pressure alerts.".to_string(),
        );
    }
    lines
}

/// A look that failed goes where errors go, and one that succeeded does not.
pub proof fn only_failed_looks_are_errors(event: MonitoringSchedulerEvent<String, String>)
    ensures
        scheduler_event_line(event).is_error <==> event is Failure,
{
}

/// That thresholds are missing is said where storage is judged by none, and only there.
pub proof fn missing_thresholds_are_said(report: MonitoringReportView, path: Seq<char>, persisted: bool, minutes: u64)
    ensures
        ({
            let lines = sample_lines(report, path, persisted, minutes);
            &&& report.pressure.level is Unconfigured ==> lines.len() == 12
            &&& !(report.pressure.level is Unconfigured) ==> lines.len() == 10
            &&& lines[6] == "Current storage:      "@ + written_size(report.pressure.total_bytes)
            &&& lines[7] == "Pressure:             "@ + pressure_name(report.pressure.level)
            &&& report.pressure.warning_bytes is Some ==> lines[8] == "Warning threshold:    "@ + written_size(
                report.pressure.warning_bytes->0,
            )
            &&& report.pressure.warning_bytes is None ==> lines[8] == "Warning threshold:    "@ + "unconfigured"@
            &&& report.pressure.critical_bytes is Some ==> lines[9] == "Critical threshold:   "@ + written_size(
                report.pressure.critical_bytes->0,
            )
            &&& report.pressure.critical_bytes is None ==> lines[9] == "Critical threshold:   "@ + "unconfigured"@
        }),
{
}

/// Samples are written below a heading, in their order, each in a row; that there are none is said.
pub proof fn each_sample_is_written_in_its_row(samples: Seq<MonitoringSampleView>, k: int)
    ensures
        samples.len() == 0 ==> sample_history_lines(samples).len() == 1 && sample_history_lines(samples)[0]
            == "No monitoring samples found."@,
        samples.len() > 0 ==> sample_history_lines(samples).len() == 1 + samples.len(),
        0 <= k < samples.len() ==> sample_history_lines(samples)[1 + k] == sample_row(samples[k]),
{
}

/// How a schedule ended is written with its attempts, its samples, its failures and why it ended.
pub proof fn a_schedule_is_summed_up(summary: MonitoringSchedulerSummary)
    ensures
        scheduler_summary_lines(summary)[2] == "Attempts:             "@ + decimal(summary.attempts as nat),
        scheduler_summary_lines(summary)[3] == "Successful samples:   "@ + decimal(summary.successes as nat),
        scheduler_summary_lines(summary)[4] == "Failures:             "@ + decimal(summary.failures as nat),
        scheduler_summary_lines(summary)[5] == "Reason:               "@ + stop_reason_name(summary.stop_reason),
{
}

/// That thresholds are missing is said of a new configuration that has neither.
pub proof fn a_configuration_without_thresholds_is_told(
    path: Seq<char>,
    warning_bytes: Option<u64>,
    critical_bytes: Option<u64>,
)
    ensures
        initialized_lines(path, warning_bytes, critical_bytes)[0] == "Initialized configuration: "@ + path,
        initialized_lines(path, warning_bytes, critical_bytes).len() == 2 <==> warning_bytes is None && critical_bytes
            is None,
        initialized_lines(path, warning_bytes, critical_bytes).len() == 1 <==> warning_bytes is Some || critical_bytes
            is Some,
{
}

/// A watch is told its scope, its interval, its limit, where samples go and what it compares with.
pub proof fn a_watch_is_told_what_it_does(
    scope: ScanScopeView,
    interval: u64,
    max_attempts: Option<u64>,
    directory: Seq<char>,
    baseline: Option<Timestamp>,
)
    ensures
        ({
            let lines = foreground_lines(scope, interval, max_attempts, directory, baseline);
            &&& lines[1] == "Scope:                "@ + scope_name(scope)
            &&& lines[2] == "Interval:             "@ + decimal(interval as nat) + "s"@
            &&& max_attempts is Some ==> lines[3] == "Attempt limit:        "@ + decimal(max_attempts->0 as nat)
            &&& max_attempts is None ==> lines[3] == "Attempt limit:        "@ + "none (Ctrl-C to stop)"@
            &&& lines[4] == "Persistence:          "@ + directory
            &&& baseline is None ==> lines[5] == "Baseline:             "@ + "none"@
        }),
{
}

} // verus!
