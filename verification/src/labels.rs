//! Short names for what is shown.
use crate::account_usage::{AccountUsageAvailability, AccountUsageAvailabilityView, BillingOwnerKind};
use crate::execution::ExecutionAuthorizationKind;
use crate::model::{Repository, ScanScope, ScanScopeView, Visibility};
use crate::monitoring::{
    MonitoringNotificationSignal, MonitoringSchedulerStopReason, PressureTransitionEvaluation, StoragePressureLevel,
};
use crate::policy::engine::Decision;
use crate::text::{decimal, join2, join4, number};
use crate::time::{utc_text, Timestamp, TO_THE_SECOND};
use vstd::prelude::*;

verus! {

pub open spec fn pressure_name(level: StoragePressureLevel) -> Seq<char> {
    match level {
        StoragePressureLevel::Unconfigured => "unconfigured"@,
        StoragePressureLevel::Healthy => "healthy"@,
        StoragePressureLevel::Warning => "warning"@,
        StoragePressureLevel::Critical => "critical"@,
    }
}

pub fn pressure_label(level: StoragePressureLevel) -> (result: &'static str)
    ensures
        result@ == pressure_name(level),
{
    match level {
        StoragePressureLevel::Unconfigured => "unconfigured",
        StoragePressureLevel::Healthy => "healthy",
        StoragePressureLevel::Warning => "warning",
        StoragePressureLevel::Critical => "critical",
    }
}

pub open spec fn notification_name(signal: MonitoringNotificationSignal) -> Seq<char> {
    match signal {
        MonitoringNotificationSignal::NoNotification => "none"@,
        MonitoringNotificationSignal::EnteredWarning { .. } => "entered_warning"@,
        MonitoringNotificationSignal::EnteredCritical { .. } => "entered_critical"@,
        MonitoringNotificationSignal::RecoveredToWarning { .. } => "recovered_to_warning"@,
        MonitoringNotificationSignal::RecoveredToHealthy { .. } => "recovered_to_healthy"@,
        MonitoringNotificationSignal::MonitoringIncomplete { .. } => "monitoring_incomplete"@,
        MonitoringNotificationSignal::MonitoringFailure { .. } => "monitoring_failure"@,
    }
}

pub fn notification_label(signal: MonitoringNotificationSignal) -> (result: &'static str)
    ensures
        result@ == notification_name(signal),
{
    match signal {
        MonitoringNotificationSignal::NoNotification => "none",
        MonitoringNotificationSignal::EnteredWarning { .. } => "entered_warning",
        MonitoringNotificationSignal::EnteredCritical { .. } => "entered_critical",
        MonitoringNotificationSignal::RecoveredToWarning { .. } => "recovered_to_warning",
        MonitoringNotificationSignal::RecoveredToHealthy { .. } => "recovered_to_healthy",
        MonitoringNotificationSignal::MonitoringIncomplete { .. } => "monitoring_incomplete",
        MonitoringNotificationSignal::MonitoringFailure { .. } => "monitoring_failure",
    }
}

pub open spec fn transition_name(evaluation: PressureTransitionEvaluation) -> Seq<char> {
    match evaluation {
        PressureTransitionEvaluation::FirstSample => "first_sample"@,
        PressureTransitionEvaluation::IncompatibleAccount => "incompatible_account"@,
        PressureTransitionEvaluation::IncompatibleScope => "incompatible_scope"@,
        PressureTransitionEvaluation::IncompleteScan { previous_issue_count, current_issue_count } =>
            "incomplete_scan:"@ + decimal(previous_issue_count as nat) + "->"@ + decimal(current_issue_count as nat),
        PressureTransitionEvaluation::Stable { level } => "stable:"@ + pressure_name(level),
        PressureTransitionEvaluation::Changed { transition } => pressure_name(transition.from) + "->"@
            + pressure_name(transition.to) + if transition.thresholds_changed {
            ";thresholds_changed"@
        } else {
            ""@
        },
    }
}

pub fn transition_label(evaluation: &PressureTransitionEvaluation) -> (result: String)
    ensures
        result@ == transition_name(*evaluation),
{
    match evaluation {
        PressureTransitionEvaluation::FirstSample => "first_sample".to_string(),
        PressureTransitionEvaluation::IncompatibleAccount => "incompatible_account".to_string(),
        PressureTransitionEvaluation::IncompatibleScope => "incompatible_scope".to_string(),
        PressureTransitionEvaluation::IncompleteScan { previous_issue_count, current_issue_count } => join4(
            "incomplete_scan:",
            number(*previous_issue_count as u64).as_str(),
            "->",
            number(*current_issue_count as u64).as_str(),
        ),
        PressureTransitionEvaluation::Stable { level } => join2("stable:", pressure_label(*level)),
        PressureTransitionEvaluation::Changed { transition } => {
            let thresholds = if transition.thresholds_changed {
                ";thresholds_changed"
            } else {
                ""
            };
            join4(pressure_label(transition.from), "->", pressure_label(transition.to), thresholds)
        },
    }
}

pub open spec fn owner_kind_name(kind: BillingOwnerKind) -> Seq<char> {
    match kind {
        BillingOwnerKind::User => "user"@,
        BillingOwnerKind::Organization => "organization"@,
    }
}

pub fn billing_owner_kind_label(kind: BillingOwnerKind) -> (result: &'static str)
    ensures
        result@ == owner_kind_name(kind),
{
    match kind {
        BillingOwnerKind::User => "user",
        BillingOwnerKind::Organization => "organization",
    }
}

pub open spec fn availability_name(availability: AccountUsageAvailabilityView) -> Seq<char> {
    match availability {
        AccountUsageAvailabilityView::Available => "available"@,
        AccountUsageAvailabilityView::Unsupported { .. } => "unsupported"@,
        AccountUsageAvailabilityView::Unknown { .. } => "unknown"@,
    }
}

pub fn account_usage_availability_label(availability: &AccountUsageAvailability) -> (result: &'static str)
    ensures
        result@ == availability_name(availability.deep_view()),
{
    match availability {
        AccountUsageAvailability::Available => "available",
        AccountUsageAvailability::Unsupported { .. } => "unsupported",
        AccountUsageAvailability::Unknown { .. } => "unknown",
    }
}

pub open spec fn scope_name(scope: ScanScopeView) -> Seq<char> {
    match scope {
        ScanScopeView::AllAccessible => "all-accessible"@,
        ScanScopeView::Owner(owner) => "owner:"@ + owner,
        ScanScopeView::Repository(repository) => "repo:"@ + repository,
    }
}

pub fn format_scope(scope: &ScanScope) -> (result: String)
    ensures
        result@ == scope_name(scope.deep_view()),
{
    match scope {
        ScanScope::AllAccessible => "all-accessible".to_string(),
        ScanScope::Owner(owner) => join2("owner:", owner.as_str()),
        ScanScope::Repository(repository) => join2("repo:", repository.as_str()),
    }
}

pub open spec fn time_name(value: Option<Timestamp>) -> Seq<char> {
    match value {
        Some(at) => utc_text(at.unix_seconds() as i64, at.subsecond() as u32, TO_THE_SECOND@),
        None => "none"@,
    }
}

pub fn format_optional_time(value: Option<Timestamp>) -> (result: String)
    ensures
        result@ == time_name(value),
{
    match value {
        Some(at) => at.describe(),
        None => "none".to_string(),
    }
}

pub open spec fn decision_name(decision: Decision) -> Seq<char> {
    match decision {
        Decision::Keep => "keep"@,
        Decision::Delete => "delete"@,
        Decision::Protected => "protected"@,
        Decision::ManualReview => "manual_review"@,
    }
}

pub fn decision_label(decision: Decision) -> (result: &'static str)
    ensures
        result@ == decision_name(decision),
{
    match decision {
        Decision::Keep => "keep",
        Decision::Delete => "delete",
        Decision::Protected => "protected",
        Decision::ManualReview => "manual_review",
    }
}

pub open spec fn authorization_name(authorization: ExecutionAuthorizationKind) -> Seq<char> {
    match authorization {
        ExecutionAuthorizationKind::InteractiveConfirmation => "interactive"@,
        ExecutionAuthorizationKind::AutomationYes => "automation"@,
    }
}

pub fn format_authorization(authorization: ExecutionAuthorizationKind) -> (result: &'static str)
    ensures
        result@ == authorization_name(authorization),
{
    match authorization {
        ExecutionAuthorizationKind::InteractiveConfirmation => "interactive",
        ExecutionAuthorizationKind::AutomationYes => "automation",
    }
}

pub open spec fn visibility_name(visibility: Visibility) -> Seq<char> {
    match visibility {
        Visibility::Public => "public"@,
        Visibility::Private => "private"@,
        Visibility::Internal => "internal"@,
        Visibility::Unknown => "unknown"@,
    }
}

pub fn visibility_label(visibility: Visibility) -> (result: &'static str)
    ensures
        result@ == visibility_name(visibility),
{
    match visibility {
        Visibility::Public => "public",
        Visibility::Private => "private",
        Visibility::Internal => "internal",
        Visibility::Unknown => "unknown",
    }
}

/// What is out of the ordinary about a repository.
pub open spec fn flag_names(archived: bool, fork: bool) -> Seq<char> {
    match (archived, fork) {
        (true, true) => "archived,fork"@,
        (true, false) => "archived"@,
        (false, true) => "fork"@,
        (false, false) => ""@,
    }
}

pub fn repository_flags(repository: &Repository) -> (result: &'static str)
    ensures
        result@ == flag_names(repository.archived, repository.fork),
{
    match (repository.archived, repository.fork) {
        (true, true) => "archived,fork",
        (true, false) => "archived",
        (false, true) => "fork",
        (false, false) => "",
    }
}

pub open spec fn stop_reason_name(reason: MonitoringSchedulerStopReason) -> Seq<char> {
    match reason {
        MonitoringSchedulerStopReason::Cancelled => "Cancelled"@,
        MonitoringSchedulerStopReason::AttemptLimitReached => "AttemptLimitReached"@,
    }
}

pub fn stop_reason_label(reason: MonitoringSchedulerStopReason) -> (result: &'static str)
    ensures
        result@ == stop_reason_name(reason),
{
    match reason {
        MonitoringSchedulerStopReason::Cancelled => "Cancelled",
        MonitoringSchedulerStopReason::AttemptLimitReached => "AttemptLimitReached",
    }
}

/// Names tell levels of pressure apart: no two have the same.
pub proof fn names_tell_levels_apart(a: StoragePressureLevel, b: StoragePressureLevel)
    ensures
        pressure_name(a) == pressure_name(b) ==> a == b,
{
    reveal_strlit("unconfigured");
    reveal_strlit("healthy");
    reveal_strlit("warning");
    reveal_strlit("critical");
    assert("healthy"@[0] != "warning"@[0]);
    assert("unconfigured"@.len() == 12 && "healthy"@.len() == 7 && "warning"@.len() == 7 && "critical"@.len() == 8);
}

/// Names tell decisions apart: no two have the same.
pub proof fn names_tell_decisions_apart(a: Decision, b: Decision)
    ensures
        decision_name(a) == decision_name(b) ==> a == b,
{
    reveal_strlit("keep");
    reveal_strlit("delete");
    reveal_strlit("protected");
    reveal_strlit("manual_review");
    assert("keep"@.len() == 4 && "delete"@.len() == 6 && "protected"@.len() == 9 && "manual_review"@.len() == 13);
}

/// Names tell visibilities apart: no two have the same.
pub proof fn names_tell_visibilities_apart(a: Visibility, b: Visibility)
    ensures
        visibility_name(a) == visibility_name(b) ==> a == b,
{
    reveal_strlit("public");
    reveal_strlit("private");
    reveal_strlit("internal");
    reveal_strlit("unknown");
    assert("private"@[0] != "unknown"@[0]);
    assert("public"@.len() == 6 && "private"@.len() == 7 && "internal"@.len() == 8 && "unknown"@.len() == 7);
}

/// What things are called.
pub proof fn things_are_called_by_their_names()
    ensures
        pressure_name(StoragePressureLevel::Unconfigured) == "unconfigured"@,
        pressure_name(StoragePressureLevel::Healthy) == "healthy"@,
        pressure_name(StoragePressureLevel::Warning) == "warning"@,
        pressure_name(StoragePressureLevel::Critical) == "critical"@,
        decision_name(Decision::Keep) == "keep"@,
        decision_name(Decision::Delete) == "delete"@,
        decision_name(Decision::Protected) == "protected"@,
        decision_name(Decision::ManualReview) == "manual_review"@,
        visibility_name(Visibility::Public) == "public"@,
        visibility_name(Visibility::Private) == "private"@,
        visibility_name(Visibility::Internal) == "internal"@,
        visibility_name(Visibility::Unknown) == "unknown"@,
        owner_kind_name(BillingOwnerKind::User) == "user"@,
        owner_kind_name(BillingOwnerKind::Organization) == "organization"@,
        authorization_name(ExecutionAuthorizationKind::InteractiveConfirmation) == "interactive"@,
        authorization_name(ExecutionAuthorizationKind::AutomationYes) == "automation"@,
        stop_reason_name(MonitoringSchedulerStopReason::Cancelled) == "Cancelled"@,
        stop_reason_name(MonitoringSchedulerStopReason::AttemptLimitReached) == "AttemptLimitReached"@,
        scope_name(ScanScopeView::AllAccessible) == "all-accessible"@,
{
}

/// A notification is called by what it tells of.
pub proof fn notifications_are_called_by_what_they_tell(signal: MonitoringNotificationSignal)
    ensures
        signal is NoNotification ==> notification_name(signal) == "none"@,
        signal is EnteredWarning ==> notification_name(signal) == "entered_warning"@,
        signal is EnteredCritical ==> notification_name(signal) == "entered_critical"@,
        signal is RecoveredToWarning ==> notification_name(signal) == "recovered_to_warning"@,
        signal is RecoveredToHealthy ==> notification_name(signal) == "recovered_to_healthy"@,
        signal is MonitoringIncomplete ==> notification_name(signal) == "monitoring_incomplete"@,
        signal is MonitoringFailure ==> notification_name(signal) == "monitoring_failure"@,
{
}

/// A scope of an owner or of a repository is called by its name, so that no two are called the same.
pub proof fn scopes_are_called_by_their_owner_or_repository(a: ScanScopeView, b: ScanScopeView)
    ensures
        a matches ScanScopeView::Owner(owner) ==> scope_name(a) == "owner:"@ + owner,
        a matches ScanScopeView::Repository(repository) ==> scope_name(a) == "repo:"@ + repository,
        scope_name(a) == scope_name(b) ==> a == b,
{
    reveal_strlit("all-accessible");
    reveal_strlit("owner:");
    reveal_strlit("repo:");
    let text = scope_name(a);
    assert("all-accessible"@[0] == 'a' && "owner:"@[0] == 'o' && "repo:"@[0] == 'r');
    assert(a is AllAccessible ==> text[0] == 'a');
    assert(a is Owner ==> text[0] == 'o');
    assert(a is Repository ==> text[0] == 'r');
    assert(b is AllAccessible ==> scope_name(b)[0] == 'a');
    assert(b is Owner ==> scope_name(b)[0] == 'o');
    assert(b is Repository ==> scope_name(b)[0] == 'r');
    if scope_name(a) == scope_name(b) {
        match (a, b) {
            (ScanScopeView::Owner(x), ScanScopeView::Owner(y)) => {
                assert(x =~= text.skip(6));
                assert(y =~= text.skip(6));
            },
            (ScanScopeView::Repository(x), ScanScopeView::Repository(y)) => {
                assert(x =~= text.skip(5));
                assert(y =~= text.skip(5));
            },
            _ => {},
        }
    }
}

/// A change of pressure is written as the level before, an arrow and the level after, and says where
/// the thresholds changed; a level that stays, as what stays; a scan with gaps, as how many there were
/// and are.
pub proof fn transitions_are_written_from_and_to(evaluation: PressureTransitionEvaluation)
    ensures
        evaluation is FirstSample ==> transition_name(evaluation) == "first_sample"@,
        evaluation is IncompatibleAccount ==> transition_name(evaluation) == "incompatible_account"@,
        evaluation is IncompatibleScope ==> transition_name(evaluation) == "incompatible_scope"@,
        evaluation matches PressureTransitionEvaluation::Stable { level } ==> transition_name(evaluation) == "stable:"@
            + pressure_name(level),
        evaluation matches PressureTransitionEvaluation::IncompleteScan { previous_issue_count, current_issue_count }
            ==> transition_name(evaluation) == "incomplete_scan:"@ + decimal(previous_issue_count as nat) + "->"@
            + decimal(current_issue_count as nat),
        evaluation matches PressureTransitionEvaluation::Changed { transition } ==> {
            let levels = pressure_name(transition.from) + "->"@ + pressure_name(transition.to);
            &&& transition.thresholds_changed ==> transition_name(evaluation) == levels + ";thresholds_changed"@
            &&& !transition.thresholds_changed ==> transition_name(evaluation) == levels
        },
{
    reveal_strlit("");
    match evaluation {
        PressureTransitionEvaluation::Changed { transition } => {
            let levels = pressure_name(transition.from) + "->"@ + pressure_name(transition.to);
            assert(levels + ""@ =~= levels);
        },
        _ => {},
    }
}

/// The flags of a repository name what is out of the ordinary about it, and nothing else.
pub proof fn flags_name_what_is_out_of_the_ordinary(archived: bool, fork: bool)
    ensures
        archived && fork ==> flag_names(archived, fork) == "archived"@ + ","@ + "fork"@,
        archived && !fork ==> flag_names(archived, fork) == "archived"@,
        !archived && fork ==> flag_names(archived, fork) == "fork"@,
        !archived && !fork ==> flag_names(archived, fork).len() == 0,
{
    reveal_strlit("archived,fork");
    reveal_strlit("archived");
    reveal_strlit("fork");
    reveal_strlit(",");
    reveal_strlit("");
    assert("archived,fork"@ =~= "archived"@ + ","@ + "fork"@);
}

/// Availability is called by what it is.
pub proof fn availability_is_called_by_what_it_is(availability: AccountUsageAvailabilityView)
    ensures
        availability is Available ==> availability_name(availability) == "available"@,
        availability is Unsupported ==> availability_name(availability) == "unsupported"@,
        availability is Unknown ==> availability_name(availability) == "unknown"@,
{
}

} // verus!
