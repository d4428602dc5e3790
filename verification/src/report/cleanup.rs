//! Plans of cleanups, their reviews, and what came of them.
use crate::cleanup::{CleanupPlan, CleanupPlanView, CleanupTarget, CleanupTargetView, PlanReason, PlanReasonView};
use crate::execution::{
    outcomes, reclaimed, ExecutionAuthorizationKind, ExecutionItemView, ExecutionReport, ExecutionReportView,
    ExecutionState,
};
use crate::format::{format_bytes, written_size};
use crate::inventory::optional_text;
use crate::labels::{authorization_name, format_authorization};
use crate::order::tally;
use crate::report::inventory::reason_line;
use crate::report::{
    account_name, add_all, count_text, least, name_account, or, say_yes_or_no, second, text_or, yes_or_no,
};
use crate::revalidation::{
    all_safe, states, ArtifactField, RevalidationItem, RevalidationItemView, RevalidationReport, RevalidationReportView,
    RevalidationState,
};
use crate::table::{add_last, add_left, add_right, left, right, to_left};
use crate::text::{decimal, join, join2, join3, join5, join6, joined, number};
use crate::time::Timestamp;
use crate::totals::{capped, lemma_two_counts, occurrences};
use crate::value::{add_to, nothing, single};
use vstd::prelude::*;

verus! {

/// The state of an artifact in a review, in lower case.
pub open spec fn state_name(state: RevalidationState) -> Seq<char> {
    match state {
        RevalidationState::Unchanged => "unchanged"@,
        RevalidationState::AlreadyAbsent => "alreadyabsent"@,
        RevalidationState::Changed => "changed"@,
        RevalidationState::RevalidationFailed => "revalidationfailed"@,
    }
}

fn name_state(state: RevalidationState) -> (result: &'static str)
    ensures
        result@ == state_name(state),
{
    match state {
        RevalidationState::Unchanged => "unchanged",
        RevalidationState::AlreadyAbsent => "alreadyabsent",
        RevalidationState::Changed => "changed",
        RevalidationState::RevalidationFailed => "revalidationfailed",
    }
}

/// The state of an artifact in a review.
pub open spec fn state_word(state: RevalidationState) -> Seq<char> {
    match state {
        RevalidationState::Unchanged => "Unchanged"@,
        RevalidationState::AlreadyAbsent => "AlreadyAbsent"@,
        RevalidationState::Changed => "Changed"@,
        RevalidationState::RevalidationFailed => "RevalidationFailed"@,
    }
}

fn say_state(state: RevalidationState) -> (result: &'static str)
    ensures
        result@ == state_word(state),
{
    match state {
        RevalidationState::Unchanged => "Unchanged",
        RevalidationState::AlreadyAbsent => "AlreadyAbsent",
        RevalidationState::Changed => "Changed",
        RevalidationState::RevalidationFailed => "RevalidationFailed",
    }
}

/// A field of an artifact.
pub open spec fn field_name(field: ArtifactField) -> Seq<char> {
    match field {
        ArtifactField::Repository => "repository"@,
        ArtifactField::Id => "id"@,
        ArtifactField::Name => "name"@,
        ArtifactField::SizeInBytes => "sizeinbytes"@,
        ArtifactField::CreatedAt => "createdat"@,
        ArtifactField::UpdatedAt => "updatedat"@,
        ArtifactField::ExpiresAt => "expiresat"@,
        ArtifactField::Expired => "expired"@,
        ArtifactField::Digest => "digest"@,
        ArtifactField::WorkflowRun => "workflowrun"@,
    }
}

fn name_field(field: ArtifactField) -> (result: &'static str)
    ensures
        result@ == field_name(field),
{
    match field {
        ArtifactField::Repository => "repository",
        ArtifactField::Id => "id",
        ArtifactField::Name => "name",
        ArtifactField::SizeInBytes => "sizeinbytes",
        ArtifactField::CreatedAt => "createdat",
        ArtifactField::UpdatedAt => "updatedat",
        ArtifactField::ExpiresAt => "expiresat",
        ArtifactField::Expired => "expired",
        ArtifactField::Digest => "digest",
        ArtifactField::WorkflowRun => "workflowrun",
    }
}

/// How an execution was authorized.
pub open spec fn authorization_word(kind: ExecutionAuthorizationKind) -> Seq<char> {
    match kind {
        ExecutionAuthorizationKind::InteractiveConfirmation => "InteractiveConfirmation"@,
        ExecutionAuthorizationKind::AutomationYes => "AutomationYes"@,
    }
}

fn say_authorization(kind: ExecutionAuthorizationKind) -> (result: &'static str)
    ensures
        result@ == authorization_word(kind),
{
    match kind {
        ExecutionAuthorizationKind::InteractiveConfirmation => "InteractiveConfirmation",
        ExecutionAuthorizationKind::AutomationYes => "AutomationYes",
    }
}

pub open spec fn target_heading() -> Seq<char> {
    left("ID"@, 12) + " "@ + left("REPOSITORY"@, 40) + " "@ + left("ARTIFACT"@, 34) + " "@ + right("SIZE"@, 12) + " "@ + "REASON"@
}

fn write_target_heading() -> (result: String)
    ensures
        result@ == target_heading(),
{
    let mut line = to_left("ID", 12);
    add_left(&mut line, "REPOSITORY", 40);
    add_left(&mut line, "ARTIFACT", 34);
    add_right(&mut line, "SIZE", 12);
    add_last(&mut line, "REASON");
    line
}

/// Why an artifact is to go, in short.
pub open spec fn first_reason(reasons: Seq<PlanReasonView>) -> Seq<char> {
    if reasons.len() == 0 {
        "policy_delete"@
    } else {
        reasons[0].code
    }
}

fn find_first_reason(reasons: &Vec<PlanReason>) -> (result: &str)
    ensures
        result@ == first_reason(reasons.deep_view()),
{
    if reasons.len() == 0 {
        "policy_delete"
    } else {
        assert(reasons.deep_view()[0] == reasons@[0].deep_view());
        reasons[0].code()
    }
}

fn rule_of(reason: &PlanReason) -> (result: &str)
    ensures
        result@ == or(reason.deep_view().rule_id, "<default>"@),
{
    match reason.rule_id() {
        Some(rule) => rule,
        None => "<default>",
    }
}

/// An artifact that is to go.
pub open spec fn target_row(target: CleanupTargetView) -> Seq<char> {
    left(decimal(target.artifact.id as nat), 12) + " "@ + left(target.artifact.repository.full_name, 40) + " "@ + left(target.artifact.name, 34) + " "@ + right(written_size(target.artifact.size_in_bytes), 12) + " "@ + first_reason(target.reasons)
}

fn write_target_row(target: &CleanupTarget) -> (result: String)
    ensures
        result@ == target_row(target.deep_view()),
{
    let mut line = to_left(number(target.artifact().id).as_str(), 12);
    add_left(&mut line, target.artifact().repository.full_name.as_str(), 40);
    add_left(&mut line, target.artifact().name.as_str(), 34);
    add_right(&mut line, format_bytes(target.artifact().size_in_bytes).as_str(), 12);
    add_last(&mut line, find_first_reason(target.reasons()));
    line
}

/// An artifact that is to go and, if that is asked, why.
pub open spec fn target_lines(target: CleanupTargetView, explain: bool) -> Seq<Seq<char>> {
    seq![target_row(target)] + if explain {
        Seq::new(
            target.reasons.len(),
            |k: int| reason_line(target.reasons[k].code, target.reasons[k].rule_id, target.reasons[k].explanation),
        )
    } else {
        Seq::empty()
    }
}

fn write_target(target: &CleanupTarget, explain: bool) -> (result: Vec<String>)
    ensures
        result.deep_view() == target_lines(target.deep_view(), explain),
{
    let mut lines = single(write_target_row(target));
    if !explain {
        assert(lines.deep_view() =~= target_lines(target.deep_view(), explain));
        return lines;
    }
    let reasons = target.reasons();
    let ghost head = lines.deep_view();
    let ghost all = reasons.deep_view();
    let mut i: usize = 0;
    assert(head + Seq::new(0, |k: int| reason_line(all[k].code, all[k].rule_id, all[k].explanation)) =~= head);
    while i < reasons.len()
        invariant
            all == reasons.deep_view(),
            i <= reasons.len(),
            lines.deep_view() == head + Seq::new(i as nat, |k: int| reason_line(all[k].code, all[k].rule_id, all[k].explanation)),
        decreases reasons.len() - i,
    {
        assert(all[i as int] == reasons@[i as int].deep_view());
        add_to(&mut lines, join6(
                "  -> ",
                reasons[i].code(),
                " [rule: ",
                rule_of(&reasons[i]),
                "]: ",
                reasons[i].explanation(),
            ));
        i = i + 1;
        assert(lines.deep_view() =~= head + Seq::new(i as nat, |k: int| reason_line(all[k].code, all[k].rule_id, all[k].explanation)));
    }
    lines
}

/// The artifacts that are to go.
pub open spec fn all_target_lines(targets: Seq<CleanupTargetView>, explain: bool) -> Seq<Seq<char>>
    decreases targets.len(),
{
    if targets.len() == 0 {
        Seq::empty()
    } else {
        all_target_lines(targets.drop_last(), explain) + target_lines(targets.last(), explain)
    }
}

/// What a plan would do.
pub open spec fn plan_lines(policy: Seq<char>, plan: CleanupPlanView, explain: bool) -> Seq<Seq<char>> {
    seq![
        "Policy:              "@ + policy,
        "Policy hash:         "@ + plan.policy_hash,
        "Plan schema:         "@ + decimal(plan.schema_version as nat),
        "Artifacts scanned:   "@ + decimal(plan.summary.source_artifact_count as nat),
        "Current storage:     "@ + written_size(plan.summary.source_total_bytes),
        "Keep:                "@ + decimal(plan.summary.keep_count as nat),
        "Protected:           "@ + decimal(plan.summary.protected_count as nat),
        "Manual review:       "@ + decimal(plan.summary.manual_review_count as nat),
        "Delete:              "@ + decimal(plan.summary.delete_count as nat),
        "Potential recovery:  "@ + written_size(plan.summary.reclaimable_bytes),
        ""@,
    ] + if plan.targets.len() == 0 {
        seq!["No artifacts are eligible for deletion under this policy."@]
    } else {
        seq![target_heading()] + all_target_lines(plan.targets, explain)
    }
}

/// Describes what a plan would do, made by the policy of that name.
pub fn describe_cleanup_plan(policy: &str, plan: &CleanupPlan, explain: bool) -> (result: Vec<String>)
    ensures
        result.deep_view() == plan_lines(policy@, plan.deep_view(), explain),
{
    let summary = plan.summary();
    let mut lines: Vec<String> = nothing();
    add_to(&mut lines, join2("Policy:              ", policy));
    add_to(&mut lines, join2("Policy hash:         ", plan.policy_hash()));
    add_to(&mut lines, join2("Plan schema:         ", number(plan.schema_version() as u64).as_str()));
    add_to(&mut lines, join2("Artifacts scanned:   ", count_text(summary.source_artifact_count()).as_str()));
    add_to(&mut lines, join2("Current storage:     ", format_bytes(summary.source_total_bytes()).as_str()));
    add_to(&mut lines, join2("Keep:                ", count_text(summary.keep_count()).as_str()));
    add_to(&mut lines, join2("Protected:           ", count_text(summary.protected_count()).as_str()));
    add_to(&mut lines, join2("Manual review:       ", count_text(summary.manual_review_count()).as_str()));
    add_to(&mut lines, join2("Delete:              ", count_text(summary.delete_count()).as_str()));
    add_to(&mut lines, join2("Potential recovery:  ", format_bytes(summary.reclaimable_bytes()).as_str()));
    add_to(&mut lines, "".to_string());
    let targets = plan.targets();
    if targets.len() == 0 {
        add_all(&mut lines, single("No artifacts are eligible for deletion under this policy.".to_string()));
        return lines;
    }
    let mut table = single(write_target_heading());
    let ghost all = targets.deep_view();
    let ghost head = table.deep_view();
    let mut i: usize = 0;
    assert(all.take(0) =~= Seq::empty());
    assert(head + all_target_lines(all.take(0), explain) =~= head);
    while i < targets.len()
        invariant
            all == targets.deep_view(),
            i <= targets.len(),
            table.deep_view() == head + all_target_lines(all.take(i as int), explain),
        decreases targets.len() - i,
    {
        add_all(&mut table, write_target(&targets[i], explain));
        i = i + 1;
        assert(all.take(i as int).drop_last() =~= all.take(i - 1));
        assert(all.take(i as int).last() == targets@[i - 1].deep_view());
        assert(table.deep_view() =~= head + all_target_lines(all.take(i as int), explain));
    }
    assert(all.take(i as int) =~= all);
    add_all(&mut lines, table);
    lines
}

/// What a review says of an artifact.
pub open spec fn review_details(item: RevalidationItemView) -> Seq<char> {
    match item.state {
        RevalidationState::Unchanged => "exact snapshot match"@,
        RevalidationState::AlreadyAbsent => "artifact no longer exists"@,
        RevalidationState::Changed => joined(
            Seq::new(item.changed_fields.len(), |k: int| field_name(item.changed_fields[k])),
            ","@,
        ),
        RevalidationState::RevalidationFailed => or(item.error, "unknown provider error"@),
    }
}

fn write_review_details(item: &RevalidationItem) -> (result: String)
    ensures
        result@ == review_details(item.deep_view()),
{
    match item.state {
        RevalidationState::Unchanged => "exact snapshot match".to_string(),
        RevalidationState::AlreadyAbsent => "artifact no longer exists".to_string(),
        RevalidationState::Changed => {
            let fields = &item.changed_fields;
            let mut lines: Vec<String> = nothing();
            let ghost head = lines.deep_view();
            let ghost all = fields.deep_view();
            let mut i: usize = 0;
            assert(head + Seq::new(0, |k: int| field_name(all[k])) =~= head);
            while i < fields.len()
                invariant
                    all == fields.deep_view(),
                    i <= fields.len(),
                    lines.deep_view() == head + Seq::new(i as nat, |k: int| field_name(all[k])),
                decreases fields.len() - i,
            {
                assert(all[i as int] == fields@[i as int].deep_view());
                add_to(&mut lines, name_field(fields[i]).to_string());
                i = i + 1;
                assert(lines.deep_view() =~= head + Seq::new(i as nat, |k: int| field_name(all[k])));
            }
            assert(head =~= Seq::empty());
            assert(lines.deep_view() =~= Seq::new(all.len(), |k: int| field_name(all[k])));
            join(&lines, ",")
        },
        RevalidationState::RevalidationFailed => text_or(&item.error, "unknown provider error").to_string(),
    }
}

pub open spec fn review_heading() -> Seq<char> {
    left("ID"@, 12) + " "@ + left("REPOSITORY"@, 40) + " "@ + left("STATE"@, 22) + " "@ + "DETAILS"@
}

fn write_review_heading() -> (result: String)
    ensures
        result@ == review_heading(),
{
    let mut line = to_left("ID", 12);
    add_left(&mut line, "REPOSITORY", 40);
    add_left(&mut line, "STATE", 22);
    add_last(&mut line, "DETAILS");
    line
}

/// What a review says of an artifact, in a row.
pub open spec fn review_row(item: RevalidationItemView) -> Seq<char> {
    left(decimal(item.artifact_id as nat), 12) + " "@ + left(item.repository, 40) + " "@ + left(state_name(item.state), 22) + " "@ + review_details(item)
}

fn write_review_row(item: &RevalidationItem) -> (result: String)
    ensures
        result@ == review_row(item.deep_view()),
{
    let mut line = to_left(number(item.artifact_id).as_str(), 12);
    add_left(&mut line, item.repository.as_str(), 40);
    add_left(&mut line, name_state(item.state), 22);
    add_last(&mut line, write_review_details(item).as_str());
    line
}

/// What a review found.
pub open spec fn revalidation_lines(path: Seq<char>, report: RevalidationReportView) -> Seq<Seq<char>> {
    seq![
        "Plan:                 "@ + path,
        "Policy hash:          "@ + report.policy_hash,
        "Targets checked:      "@ + decimal(report.items.len()),
        "Unchanged:            "@ + decimal(occurrences(states(report.items), RevalidationState::Unchanged)),
        "Already absent:       "@ + decimal(occurrences(states(report.items), RevalidationState::AlreadyAbsent)),
        "Changed:              "@ + decimal(occurrences(states(report.items), RevalidationState::Changed)),
        "Revalidation failed:  "@ + decimal(occurrences(states(report.items), RevalidationState::RevalidationFailed)),
        "Safe to apply:        "@ + yes_or_no(all_safe(report.items)),
    ] + if report.items.len() == 0 {
        Seq::empty()
    } else {
        seq![""@, review_heading()] + Seq::new(report.items.len(), |k: int| review_row(report.items[k]))
    }
}

/// Describes what a review of the plan at that path found.
pub fn describe_revalidation(path: &str, report: &RevalidationReport) -> (result: Vec<String>)
    ensures
        result.deep_view() == revalidation_lines(path@, report.deep_view()),
{
    let mut lines: Vec<String> = nothing();
    add_to(&mut lines, join2("Plan:                 ", path));
    add_to(&mut lines, join2("Policy hash:          ", report.policy_hash.as_str()));
    add_to(&mut lines, join2("Targets checked:      ", count_text(report.target_count()).as_str()));
    add_to(&mut lines, join2("Unchanged:            ", count_text(report.count(RevalidationState::Unchanged)).as_str()));
    add_to(&mut lines, join2("Already absent:       ", count_text(report.count(RevalidationState::AlreadyAbsent)).as_str()));
    add_to(&mut lines, join2("Changed:              ", count_text(report.count(RevalidationState::Changed)).as_str()));
    add_to(&mut lines, join2("Revalidation failed:  ", count_text(report.count(RevalidationState::RevalidationFailed)).as_str()));
    add_to(&mut lines, join2("Safe to apply:        ", say_yes_or_no(report.is_safe_to_apply())));
    let items = &report.items;
    if items.len() == 0 {
        assert(lines.deep_view() =~= revalidation_lines(path@, report.deep_view()));
        return lines;
    }
    let ghost summary = lines.deep_view();
    add_to(&mut lines, "".to_string());
    add_to(&mut lines, write_review_heading());
    let ghost head = lines.deep_view();
    let ghost all = items.deep_view();
    let mut i: usize = 0;
    assert(head + Seq::new(0, |k: int| review_row(all[k])) =~= head);
    while i < items.len()
        invariant
            all == items.deep_view(),
            i <= items.len(),
            lines.deep_view() == head + Seq::new(i as nat, |k: int| review_row(all[k])),
        decreases items.len() - i,
    {
        assert(all[i as int] == items@[i as int].deep_view());
        add_to(&mut lines, write_review_row(&items[i]));
        i = i + 1;
        assert(lines.deep_view() =~= head + Seq::new(i as nat, |k: int| review_row(all[k])));
    }
    assert(lines.deep_view() =~= summary + (seq![""@, review_heading()] + Seq::new(
        all.len(),
        |k: int| review_row(all[k]),
    )));
    lines
}

pub open spec fn apply_heading() -> Seq<char> {
    left("ID"@, 12) + " "@ + left("REPOSITORY"@, 40) + " "@ + left("ARTIFACT"@, 34) + " "@ + right("SIZE"@, 12) + " "@ + "STATE"@
}

fn write_apply_heading() -> (result: String)
    ensures
        result@ == apply_heading(),
{
    let mut line = to_left("ID", 12);
    add_left(&mut line, "REPOSITORY", 40);
    add_left(&mut line, "ARTIFACT", 34);
    add_right(&mut line, "SIZE", 12);
    add_last(&mut line, "STATE");
    line
}

/// An artifact that is about to go, and its state in the review.
pub open spec fn apply_row(target: CleanupTargetView, item: RevalidationItemView) -> Seq<char> {
    left(decimal(target.artifact.id as nat), 12) + " "@ + left(target.artifact.repository.full_name, 40) + " "@ + left(target.artifact.name, 34) + " "@ + right(written_size(target.artifact.size_in_bytes), 12) + " "@ + state_word(item.state)
}

fn write_apply_row(target: &CleanupTarget, item: &RevalidationItem) -> (result: String)
    ensures
        result@ == apply_row(target.deep_view(), item.deep_view()),
{
    let mut line = to_left(number(target.artifact().id).as_str(), 12);
    add_left(&mut line, target.artifact().repository.full_name.as_str(), 40);
    add_left(&mut line, target.artifact().name.as_str(), 34);
    add_right(&mut line, format_bytes(target.artifact().size_in_bytes).as_str(), 12);
    add_last(&mut line, say_state(item.state));
    line
}

/// What is about to be done.
pub open spec fn apply_lines(path: Seq<char>, plan: CleanupPlanView, report: RevalidationReportView) -> Seq<Seq<char>> {
    seq![
        "Plan:                 "@ + path,
        "Account:              "@ + plan.account.login,
        "Policy hash:          "@ + plan.policy_hash,
        "Targets:              "@ + decimal(plan.targets.len()),
        "Potential recovery:  "@ + written_size(plan.summary.reclaimable_bytes),
        ""@,
        apply_heading(),
    ] + Seq::new(
        least(plan.targets.len(), report.items.len()),
        |k: int| apply_row(plan.targets[k], report.items[k]),
    ) + seq![""@, "Only exact Unchanged targets may reach DELETE after a final just-in-time check."@]
}

/// Describes what is about to be done, by a plan and its review.
pub fn describe_apply(path: &str, plan: &CleanupPlan, report: &RevalidationReport) -> (result: Vec<String>)
    ensures
        result.deep_view() == apply_lines(path@, plan.deep_view(), report.deep_view()),
{
    let targets = plan.targets();
    let items = &report.items;
    let mut lines: Vec<String> = nothing();
    add_to(&mut lines, join2("Plan:                 ", path));
    add_to(&mut lines, join2("Account:              ", plan.account().login.as_str()));
    add_to(&mut lines, join2("Policy hash:          ", plan.policy_hash()));
    add_to(&mut lines, join2("Targets:              ", count_text(plan.targets().len()).as_str()));
    add_to(&mut lines, join2("Potential recovery:  ", format_bytes(plan.summary().reclaimable_bytes()).as_str()));
    add_to(&mut lines, "".to_string());
    add_to(&mut lines, write_apply_heading());
    let ghost head = lines.deep_view();
    let ghost first = targets.deep_view();
    let ghost second = items.deep_view();
    let mut i: usize = 0;
    assert(head + Seq::new(0, |k: int| apply_row(first[k], second[k])) =~= head);
    while i < targets.len() && i < items.len()
        invariant
            first == targets.deep_view(),
            second == items.deep_view(),
            i <= targets.len(),
            i <= items.len(),
            lines.deep_view() == head + Seq::new(i as nat, |k: int| apply_row(first[k], second[k])),
        decreases targets.len() - i,
    {
        assert(first[i as int] == targets@[i as int].deep_view());
        assert(second[i as int] == items@[i as int].deep_view());
        add_to(&mut lines, write_apply_row(&targets[i], &items[i]));
        i = i + 1;
        assert(lines.deep_view() =~= head + Seq::new(i as nat, |k: int| apply_row(first[k], second[k])));
    }
    let ghost table = lines.deep_view();
    add_to(&mut lines, "".to_string());
    add_to(
        &mut lines,
        "Only exact Unchanged targets may reach DELETE after a final just-in-time check.".to_string(),
    );
    assert(lines.deep_view() =~= table + seq![
        ""@,
        "Only exact Unchanged targets may reach DELETE after a final just-in-time check."@,
    ]);
    lines
}

/// Whether nothing of a plan is left.
pub open spec fn succeeded(items: Seq<ExecutionItemView>) -> bool {
    forall|i: int|
        0 <= i < items.len() ==> (#[trigger] items[i]).state == ExecutionState::Deleted || items[i].state
            == ExecutionState::AlreadyAbsent
}

/// What an execution did.
pub open spec fn execution_lines(report: ExecutionReportView, audit: Seq<char>) -> Seq<Seq<char>> {
    seq![
        ""@,
        "Execution complete"@,
        "Authorization:        "@ + authorization_word(report.authorization),
        "Targets:              "@ + decimal(report.items.len()),
        "Deleted:              "@ + decimal(occurrences(outcomes(report.items), ExecutionState::Deleted)),
        "Already absent:       "@ + decimal(occurrences(outcomes(report.items), ExecutionState::AlreadyAbsent)),
        "Changed:              "@ + decimal(occurrences(outcomes(report.items), ExecutionState::Changed)),
        "Revalidation failed:  "@ + decimal(occurrences(outcomes(report.items), ExecutionState::RevalidationFailed)),
        "Delete failed:        "@ + decimal(occurrences(outcomes(report.items), ExecutionState::DeleteFailed)),
        "Confirmed reclaimed:  "@ + written_size(capped(reclaimed(report.items))),
        "Audit record:         "@ + audit,
    ] + if succeeded(report.items) {
        Seq::empty()
    } else {
        seq![
            ""@,
            "Execution completed with blocked or failed target(s); inspect the audit record before retrying anything."@,
        ]
    }
}

/// Describes what an execution did, recorded at `audit`.
pub fn describe_execution(report: &ExecutionReport, audit: &str) -> (result: Vec<String>)
    ensures
        result.deep_view() == execution_lines(report.deep_view(), audit@),
{
    let mut lines: Vec<String> = nothing();
    add_to(&mut lines, "".to_string());
    add_to(&mut lines, "Execution complete".to_string());
    add_to(&mut lines, join2("Authorization:        ", say_authorization(report.authorization)));
    add_to(&mut lines, join2("Targets:              ", count_text(report.target_count()).as_str()));
    add_to(&mut lines, join2("Deleted:              ", count_text(report.count(ExecutionState::Deleted)).as_str()));
    add_to(&mut lines, join2("Already absent:       ", count_text(report.count(ExecutionState::AlreadyAbsent)).as_str()));
    add_to(&mut lines, join2("Changed:              ", count_text(report.count(ExecutionState::Changed)).as_str()));
    add_to(&mut lines, join2("Revalidation failed:  ", count_text(report.count(ExecutionState::RevalidationFailed)).as_str()));
    add_to(&mut lines, join2("Delete failed:        ", count_text(report.count(ExecutionState::DeleteFailed)).as_str()));
    add_to(&mut lines, join2("Confirmed reclaimed:  ", format_bytes(report.reclaimed_bytes()).as_str()));
    add_to(&mut lines, join2("Audit record:         ", audit));
    let ghost summary = lines.deep_view();
    if !report.is_complete_success() {
        add_to(&mut lines, "".to_string());
        add_to(
            &mut lines,
            "Execution completed with blocked or failed target(s); inspect the audit record before retrying anything.".to_string(),
        );
    }
    assert(lines.deep_view() =~= execution_lines(report.deep_view(), audit@));
    lines
}

/// Why a plan is not carried out, if its review found anything amiss.
pub open spec fn apply_problem(report: RevalidationReportView) -> Option<Seq<char>> {
    if all_safe(report.items) {
        None
    } else {
        Some(
            "cleanup plan is not safe to apply: "@ + decimal(
                occurrences(states(report.items), RevalidationState::Changed),
            ) + " changed target(s), "@ + decimal(
                occurrences(states(report.items), RevalidationState::RevalidationFailed),
            ) + " revalidation failure(s); no deletion was attempted"@,
        )
    }
}

/// Refuses to carry a plan out where its review found anything amiss.
pub fn check_apply(report: &RevalidationReport) -> (result: Result<(), String>)
    ensures
        match apply_problem(report.deep_view()) {
            None => result is Ok,
            Some(problem) => result is Err && result->Err_0@ == problem,
        },
{
    if report.is_safe_to_apply() {
        return Ok(());
    }
    Err(
        join5(
            "cleanup plan is not safe to apply: ",
            count_text(report.count(RevalidationState::Changed)).as_str(),
            " changed target(s), ",
            count_text(report.count(RevalidationState::RevalidationFailed)).as_str(),
            " revalidation failure(s); no deletion was attempted",
        ),
    )
}

/// What is said of a plan without targets.
pub open spec fn empty_plan_lines(path: Seq<char>) -> Seq<Seq<char>> {
    seq!["Plan:                 "@ + path, "Targets:              0"@, "No deletion targets; nothing to apply."@]
}

/// Describes a plan without targets.
pub fn describe_empty_plan(path: &str) -> (result: Vec<String>)
    ensures
        result.deep_view() == empty_plan_lines(path@),
{
    let mut lines: Vec<String> = nothing();
    add_to(&mut lines, join2("Plan:                 ", path));
    add_to(&mut lines, "Targets:              0".to_string());
    add_to(&mut lines, "No deletion targets; nothing to apply.".to_string());
    lines
}

/// An execution that was recorded.
#[derive(Clone, Debug, PartialEq, Eq)]
pub struct ExecutionRecord {
    pub recorded_at: Timestamp,
    pub execution: ExecutionReport,
}

#[verifier::ext_equal]
pub struct ExecutionRecordView {
    pub recorded_at: Timestamp,
    pub execution: ExecutionReportView,
}

impl DeepView for ExecutionRecord {
    type V = ExecutionRecordView;

    open spec fn deep_view(&self) -> ExecutionRecordView {
        ExecutionRecordView { recorded_at: self.recorded_at, execution: self.execution.deep_view() }
    }
}

/// How many targets failed.
pub open spec fn failures(items: Seq<ExecutionItemView>) -> nat {
    occurrences(outcomes(items), ExecutionState::RevalidationFailed) + occurrences(
        outcomes(items),
        ExecutionState::DeleteFailed,
    )
}

fn count_failures(report: &ExecutionReport) -> (result: usize)
    ensures
        result == failures(report.deep_view().items),
{
    proof {
        lemma_two_counts(
            outcomes(report.deep_view().items),
            ExecutionState::RevalidationFailed,
            ExecutionState::DeleteFailed,
        );
        assert(outcomes(report.deep_view().items).len() == report.items.len());
    }
    report.count(ExecutionState::RevalidationFailed) + report.count(ExecutionState::DeleteFailed)
}

pub open spec fn history_heading() -> Seq<char> {
    left("RECORDED"@, 20) + " "@ + left("ACCOUNT"@, 26) + " "@ + left("AUTH"@, 11) + " "@ + right("TARGETS"@, 7) + " "@ + right("DELETED"@, 7) + " "@ + right("ABSENT"@, 7) + " "@ + right("CHANGED"@, 7) + " "@ + right("FAILED"@, 7) + " "@ + right("RECLAIMED"@, 11)
}

fn write_history_heading() -> (result: String)
    ensures
        result@ == history_heading(),
{
    let mut line = to_left("RECORDED", 20);
    add_left(&mut line, "ACCOUNT", 26);
    add_left(&mut line, "AUTH", 11);
    add_right(&mut line, "TARGETS", 7);
    add_right(&mut line, "DELETED", 7);
    add_right(&mut line, "ABSENT", 7);
    add_right(&mut line, "CHANGED", 7);
    add_right(&mut line, "FAILED", 7);
    add_right(&mut line, "RECLAIMED", 11);
    line
}

/// A recorded execution.
pub open spec fn history_row(record: ExecutionRecordView) -> Seq<char> {
    left(second(record.recorded_at), 20) + " "@ + left(account_name(record.execution.account), 26) + " "@ + left(authorization_name(record.execution.authorization), 11) + " "@ + right(decimal(record.execution.items.len()), 7) + " "@ + right(decimal(occurrences(outcomes(record.execution.items), ExecutionState::Deleted)), 7) + " "@ + right(decimal(occurrences(outcomes(record.execution.items), ExecutionState::AlreadyAbsent)), 7) + " "@ + right(decimal(occurrences(outcomes(record.execution.items), ExecutionState::Changed)), 7) + " "@ + right(decimal(failures(record.execution.items)), 7) + " "@ + right(written_size(capped(reclaimed(record.execution.items))), 11)
}

fn write_history_row(record: &ExecutionRecord) -> (result: String)
    ensures
        result@ == history_row(record.deep_view()),
{
    let mut line = to_left(record.recorded_at.describe().as_str(), 20);
    add_left(&mut line, name_account(&record.execution.account).as_str(), 26);
    add_left(&mut line, format_authorization(record.execution.authorization), 11);
    add_right(&mut line, count_text(record.execution.target_count()).as_str(), 7);
    add_right(&mut line, count_text(record.execution.count(ExecutionState::Deleted)).as_str(), 7);
    add_right(&mut line, count_text(record.execution.count(ExecutionState::AlreadyAbsent)).as_str(), 7);
    add_right(&mut line, count_text(record.execution.count(ExecutionState::Changed)).as_str(), 7);
    add_right(&mut line, count_text(count_failures(&record.execution)).as_str(), 7);
    add_right(&mut line, format_bytes(record.execution.reclaimed_bytes()).as_str(), 11);
    line
}

/// Recorded executions, the last first. `repository` is the one that was asked for.
pub open spec fn history_lines(records: Seq<ExecutionRecordView>, repository: Option<Seq<char>>) -> Seq<Seq<char>> {
    if records.len() == 0 {
        match repository {
            Some(repository) => seq!["No audit records found for repository "@ + repository + "."@],
            None => seq!["No audit records found."@],
        }
    } else {
        seq![history_heading()] + Seq::new(
            records.len(),
            |k: int| history_row(records[records.len() - 1 - k]),
        )
    }
}

/// Describes recorded executions, the last first.
pub fn describe_history(records: &Vec<ExecutionRecord>, repository: Option<&str>) -> (result: Vec<String>)
    ensures
        result.deep_view() == history_lines(records.deep_view(), optional_text(repository)),
{
    if records.len() == 0 {
        return single(
            match repository {
                Some(repository) => join3("No audit records found for repository ", repository, "."),
                None => "No audit records found.".to_string(),
            },
        );
    }
    let mut lines = single(write_history_heading());
    let ghost head = lines.deep_view();
    let ghost all = records.deep_view();
    let mut i: usize = 0;
    assert(head + Seq::new(0, |k: int| history_row(all[all.len() - 1 - k])) =~= head);
    while i < records.len()
        invariant
            all == records.deep_view(),
            i <= records.len(),
            lines.deep_view() == head + Seq::new(i as nat, |k: int| history_row(all[all.len() - 1 - k])),
        decreases records.len() - i,
    {
        let last: usize = records.len() - 1 - i;
        assert(all[last as int] == records@[last as int].deep_view());
        add_to(&mut lines, write_history_row(&records[last]));
        i = i + 1;
        assert(lines.deep_view() =~= head + Seq::new(i as nat, |k: int| history_row(all[all.len() - 1 - k])));
    }
    lines
}

proof fn lemma_review_tally(items: Seq<RevalidationItemView>, state: RevalidationState)
    ensures
        occurrences(states(items), state) == tally(items, |item: RevalidationItemView| item.state == state),
    decreases items.len(),
{
    if items.len() > 0 {
        lemma_review_tally(items.drop_last(), state);
        assert(states(items).drop_last() =~= states(items.drop_last()));
        assert(states(items).last() == items.last().state);
    }
}

proof fn lemma_outcome_tally(items: Seq<ExecutionItemView>, state: ExecutionState)
    ensures
        occurrences(outcomes(items), state) == tally(items, |item: ExecutionItemView| item.state == state),
    decreases items.len(),
{
    if items.len() > 0 {
        lemma_outcome_tally(items.drop_last(), state);
        assert(outcomes(items).drop_last() =~= outcomes(items.drop_last()));
        assert(outcomes(items).last() == items.last().state);
    }
}

/// A review is written with how many targets are in each state, and whether every one of them may go
/// ahead: because it is unchanged or absent.
pub proof fn a_review_counts_each_state(path: Seq<char>, report: RevalidationReportView)
    ensures
        ({
            let lines = revalidation_lines(path, report);
            let safe = forall|i: int|
                0 <= i < report.items.len() ==> (#[trigger] report.items[i]).state is Unchanged || report.items[i].state
                    is AlreadyAbsent;
            &&& lines[0] == "Plan:                 "@ + path
            &&& lines[2] == "Targets checked:      "@ + decimal(report.items.len())
            &&& lines[3] == "Unchanged:            "@ + decimal(
                tally(report.items, |item: RevalidationItemView| item.state == RevalidationState::Unchanged),
            )
            &&& lines[4] == "Already absent:       "@ + decimal(
                tally(report.items, |item: RevalidationItemView| item.state == RevalidationState::AlreadyAbsent),
            )
            &&& lines[5] == "Changed:              "@ + decimal(
                tally(report.items, |item: RevalidationItemView| item.state == RevalidationState::Changed),
            )
            &&& lines[6] == "Revalidation failed:  "@ + decimal(
                tally(report.items, |item: RevalidationItemView| item.state == RevalidationState::RevalidationFailed),
            )
            &&& safe ==> lines[7] == "Safe to apply:        "@ + "yes"@
            &&& !safe ==> lines[7] == "Safe to apply:        "@ + "no"@
            &&& report.items.len() > 0 ==> lines.len() == 10 + report.items.len()
            &&& forall|k: int|
                0 <= k < report.items.len() ==> lines[10 + k] == #[trigger] review_row(report.items[k])
        }),
{
    lemma_review_tally(report.items, RevalidationState::Unchanged);
    lemma_review_tally(report.items, RevalidationState::AlreadyAbsent);
    lemma_review_tally(report.items, RevalidationState::Changed);
    lemma_review_tally(report.items, RevalidationState::RevalidationFailed);
}

/// A plan may be carried out only where its review found every target unchanged or absent.
pub proof fn only_what_is_safe_is_carried_out(report: RevalidationReportView)
    ensures
        apply_problem(report) is None <==> forall|i: int|
            0 <= i < report.items.len() ==> (#[trigger] report.items[i]).state is Unchanged || report.items[i].state
                is AlreadyAbsent,
{
}

/// An execution is written with how many targets came to each end, what was freed, and a warning
/// where any target is neither deleted nor absent.
pub proof fn an_execution_counts_each_end(report: ExecutionReportView, audit: Seq<char>)
    ensures
        ({
            let lines = execution_lines(report, audit);
            let clean = forall|i: int|
                0 <= i < report.items.len() ==> (#[trigger] report.items[i]).state is Deleted || report.items[i].state
                    is AlreadyAbsent;
            &&& lines[3] == "Targets:              "@ + decimal(report.items.len())
            &&& lines[4] == "Deleted:              "@ + decimal(
                tally(report.items, |item: ExecutionItemView| item.state == ExecutionState::Deleted),
            )
            &&& lines[5] == "Already absent:       "@ + decimal(
                tally(report.items, |item: ExecutionItemView| item.state == ExecutionState::AlreadyAbsent),
            )
            &&& lines[6] == "Changed:              "@ + decimal(
                tally(report.items, |item: ExecutionItemView| item.state == ExecutionState::Changed),
            )
            &&& lines[7] == "Revalidation failed:  "@ + decimal(
                tally(report.items, |item: ExecutionItemView| item.state == ExecutionState::RevalidationFailed),
            )
            &&& lines[8] == "Delete failed:        "@ + decimal(
                tally(report.items, |item: ExecutionItemView| item.state == ExecutionState::DeleteFailed),
            )
            &&& lines[9] == "Confirmed reclaimed:  "@ + written_size(capped(reclaimed(report.items)))
            &&& lines[10] == "Audit record:         "@ + audit
            &&& clean ==> lines.len() == 11
            &&& !clean ==> lines.len() == 13
        }),
{
    lemma_outcome_tally(report.items, ExecutionState::Deleted);
    lemma_outcome_tally(report.items, ExecutionState::AlreadyAbsent);
    lemma_outcome_tally(report.items, ExecutionState::Changed);
    lemma_outcome_tally(report.items, ExecutionState::RevalidationFailed);
    lemma_outcome_tally(report.items, ExecutionState::DeleteFailed);
}

/// What failed is what could not be reviewed again and what could not be deleted.
pub proof fn failures_are_of_two_sorts(items: Seq<ExecutionItemView>)
    ensures
        failures(items) == tally(
            items,
            |item: ExecutionItemView| item.state == ExecutionState::RevalidationFailed,
        ) + tally(items, |item: ExecutionItemView| item.state == ExecutionState::DeleteFailed),
{
    lemma_outcome_tally(items, ExecutionState::RevalidationFailed);
    lemma_outcome_tally(items, ExecutionState::DeleteFailed);
}

/// The history is written below a heading, the last record first, each in a row.
pub proof fn the_last_record_comes_first(records: Seq<ExecutionRecordView>, repository: Option<Seq<char>>, k: int)
    requires
        0 <= k < records.len(),
    ensures
        history_lines(records, repository).len() == records.len() + 1,
        history_lines(records, repository)[records.len() - k] == history_row(records[k]),
{
}

/// A target is written with the code of its first reason; with all of them below, in their order,
/// where that is asked for.
pub proof fn reasons_are_written_where_asked_for(target: CleanupTargetView, k: int)
    ensures
        target.reasons.len() > 0 ==> first_reason(target.reasons) == target.reasons[0].code,
        target.reasons.len() == 0 ==> first_reason(target.reasons) == "policy_delete"@,
        target_lines(target, false).len() == 1,
        target_lines(target, true).len() == 1 + target.reasons.len(),
        target_lines(target, false)[0] == target_row(target),
        target_lines(target, true)[0] == target_row(target),
        0 <= k < target.reasons.len() ==> target_lines(target, true)[1 + k] == "  -> "@ + target.reasons[k].code
            + " [rule: "@ + (if target.reasons[k].rule_id is Some {
            target.reasons[k].rule_id->0
        } else {
            "<default>"@
        }) + "]: "@ + target.reasons[k].explanation,
{
}

/// A review says of a target why it is in its state: the fields that changed, or the error.
pub proof fn a_review_says_why(item: RevalidationItemView)
    ensures
        item.state is Unchanged ==> review_details(item) == "exact snapshot match"@,
        item.state is AlreadyAbsent ==> review_details(item) == "artifact no longer exists"@,
        item.state is Changed && item.changed_fields.len() == 1 ==> review_details(item) == field_name(
            item.changed_fields[0],
        ),
        item.state is RevalidationFailed && item.error is Some ==> review_details(item) == item.error->0,
        item.state is RevalidationFailed && item.error is None ==> review_details(item) == "unknown provider error"@,
{
    reveal_with_fuel(joined, 2);
}

/// How many lines targets take: one each, and one for each reason where they are asked for.
pub open spec fn line_count(targets: Seq<CleanupTargetView>, explain: bool) -> nat
    decreases targets.len(),
{
    if targets.len() == 0 {
        0
    } else {
        line_count(targets.drop_first(), explain) + 1 + if explain {
            targets[0].reasons.len()
        } else {
            0
        }
    }
}

proof fn lemma_front_target(targets: Seq<CleanupTargetView>, explain: bool)
    requires
        targets.len() > 0,
    ensures
        all_target_lines(targets, explain) == target_lines(targets[0], explain) + all_target_lines(
            targets.drop_first(),
            explain,
        ),
    decreases targets.len(),
{
    if targets.len() == 1 {
        assert(targets.drop_last() =~= Seq::empty());
        assert(targets.drop_first() =~= Seq::empty());
        assert(all_target_lines(targets, explain) =~= target_lines(targets[0], explain) + all_target_lines(
            targets.drop_first(),
            explain,
        ));
    } else {
        lemma_front_target(targets.drop_last(), explain);
        assert(targets.drop_last().drop_first() =~= targets.drop_first().drop_last());
        assert(targets.drop_first().last() == targets.last());
        assert(all_target_lines(targets, explain) =~= target_lines(targets[0], explain) + all_target_lines(
            targets.drop_first(),
            explain,
        ));
    }
}

/// All targets are written in their order, each with its reasons below it where they are asked for.
pub proof fn all_targets_are_written_in_order(targets: Seq<CleanupTargetView>, explain: bool)
    ensures
        targets.len() == 0 ==> all_target_lines(targets, explain).len() == 0,
        targets.len() > 0 ==> all_target_lines(targets, explain) == target_lines(targets[0], explain)
            + all_target_lines(targets.drop_first(), explain),
        all_target_lines(targets, explain).len() == line_count(targets, explain),
    decreases targets.len(),
{
    if targets.len() > 0 {
        lemma_front_target(targets, explain);
        all_targets_are_written_in_order(targets.drop_first(), explain);
    }
}

/// A plan is written with its policy, what was scanned, how many artifacts are kept, protected, left
/// to a person and deleted, what that frees, and its targets; that it has none is said.
pub proof fn a_plan_is_written_with_its_numbers(policy: Seq<char>, plan: CleanupPlanView, explain: bool)
    ensures
        ({
            let lines = plan_lines(policy, plan, explain);
            &&& lines[0] == "Policy:              "@ + policy
            &&& lines[1] == "Policy hash:         "@ + plan.policy_hash
            &&& lines[3] == "Artifacts scanned:   "@ + decimal(plan.summary.source_artifact_count as nat)
            &&& lines[4] == "Current storage:     "@ + written_size(plan.summary.source_total_bytes)
            &&& lines[5] == "Keep:                "@ + decimal(plan.summary.keep_count as nat)
            &&& lines[6] == "Protected:           "@ + decimal(plan.summary.protected_count as nat)
            &&& lines[7] == "Manual review:       "@ + decimal(plan.summary.manual_review_count as nat)
            &&& lines[8] == "Delete:              "@ + decimal(plan.summary.delete_count as nat)
            &&& lines[9] == "Potential recovery:  "@ + written_size(plan.summary.reclaimable_bytes)
            &&& plan.targets.len() == 0 ==> lines.len() == 12 && lines[11]
                == "No artifacts are eligible for deletion under this policy."@
            &&& plan.targets.len() > 0 ==> lines.skip(12) == all_target_lines(plan.targets, explain)
        }),
{
    if plan.targets.len() > 0 {
        assert(plan_lines(policy, plan, explain).skip(12) =~= all_target_lines(plan.targets, explain));
    }
}

/// Before a plan is carried out, each target is written beside its state in the review.
pub proof fn each_target_is_written_with_its_state(
    path: Seq<char>,
    plan: CleanupPlanView,
    report: RevalidationReportView,
    k: int,
)
    requires
        plan.targets.len() == report.items.len(),
    ensures
        ({
            let lines = apply_lines(path, plan, report);
            &&& lines.len() == 9 + plan.targets.len()
            &&& lines[1] == "Account:              "@ + plan.account.login
            &&& lines[3] == "Targets:              "@ + decimal(plan.targets.len())
            &&& lines[4] == "Potential recovery:  "@ + written_size(plan.summary.reclaimable_bytes)
            &&& 0 <= k < plan.targets.len() ==> lines[7 + k] == apply_row(plan.targets[k], report.items[k])
        }),
{
}

/// A state is called by its name, in a review in lower case.
pub proof fn states_are_called_by_their_names()
    ensures
        state_name(RevalidationState::Unchanged) == "unchanged"@,
        state_name(RevalidationState::AlreadyAbsent) == "alreadyabsent"@,
        state_name(RevalidationState::Changed) == "changed"@,
        state_name(RevalidationState::RevalidationFailed) == "revalidationfailed"@,
        state_word(RevalidationState::Unchanged) == "Unchanged"@,
        state_word(RevalidationState::AlreadyAbsent) == "AlreadyAbsent"@,
        state_word(RevalidationState::Changed) == "Changed"@,
        state_word(RevalidationState::RevalidationFailed) == "RevalidationFailed"@,
{
}

} // verus!
