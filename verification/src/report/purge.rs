//! Purges of runs: plans, reviews, and what came of them.
use crate::format::{format_bytes, written_size};
use crate::labels::{authorization_name, format_authorization};
use crate::model::Artifact;
use crate::order::tally;
use crate::report::inventory::{attempt_name, name_attempt};
use crate::report::{add_all, count_text, least, or, say_yes_or_no, text_or, yes_or_no};
use crate::run_purge::{RunPurgePlan, RunPurgePlanView, RunPurgeTarget, RunPurgeTargetView};
use crate::run_purge_execution::{complete, deleted_runs, reclaimed};
use crate::run_purge_flow::{
    all_safe, RunPurgeArtifactResult, RunPurgeArtifactResultView, RunPurgeExecutionItem, RunPurgeExecutionItemView,
    RunPurgeExecutionReport, RunPurgeExecutionReportView, RunPurgeExecutionState, RunPurgeRevalidationItem,
    RunPurgeRevalidationItemView, RunPurgeRevalidationReport, RunPurgeRevalidationReportView, RunPurgeRevalidationState,
};
use crate::table::{add_last, add_left, add_right, left, right, to_left};
use crate::text::{decimal, join2, large_number, number};
use crate::time::{utc_text, Timestamp, TO_THE_PLAIN_SECOND};
use crate::totals::{capped, capped_total_of, total};
use crate::value::{add_to, nothing, single};
use vstd::prelude::*;

verus! {

/// The state of a run in a review, in lower case.
pub open spec fn run_state_name(state: RunPurgeRevalidationState) -> Seq<char> {
    match state {
        RunPurgeRevalidationState::Ready => "ready"@,
        RunPurgeRevalidationState::AlreadyAbsent => "alreadyabsent"@,
        RunPurgeRevalidationState::Changed => "changed"@,
        RunPurgeRevalidationState::RevalidationFailed => "revalidationfailed"@,
    }
}

fn name_run_state(state: RunPurgeRevalidationState) -> (result: &'static str)
    ensures
        result@ == run_state_name(state),
{
    match state {
        RunPurgeRevalidationState::Ready => "ready",
        RunPurgeRevalidationState::AlreadyAbsent => "alreadyabsent",
        RunPurgeRevalidationState::Changed => "changed",
        RunPurgeRevalidationState::RevalidationFailed => "revalidationfailed",
    }
}

pub open spec fn purge_plan_heading() -> Seq<char> {
    left("RUN ID"@, 14) + " "@ + left("REPOSITORY"@, 40) + " "@ + left("WORKFLOW"@, 28) + " "@ + right("RUN"@, 7) + " "@ + right("ARTIFACTS"@, 10) + " "@ + right("ARTIFACT BYTES"@, 14) + " "@ + "BRANCH"@
}

fn write_purge_plan_heading() -> (result: String)
    ensures
        result@ == purge_plan_heading(),
{
    let mut line = to_left("RUN ID", 14);
    add_left(&mut line, "REPOSITORY", 40);
    add_left(&mut line, "WORKFLOW", 28);
    add_right(&mut line, "RUN", 7);
    add_right(&mut line, "ARTIFACTS", 10);
    add_right(&mut line, "ARTIFACT BYTES", 14);
    add_last(&mut line, "BRANCH");
    line
}

/// A run that is to go.
pub open spec fn purge_plan_row(target: RunPurgeTargetView) -> Seq<char> {
    left(decimal(target.run.id as nat), 14) + " "@ + left(target.run.repository.full_name, 40) + " "@ + left(or(target.run.workflow_name, "<unknown>"@), 28) + " "@ + right(attempt_name(target.run), 7) + " "@ + right(decimal(target.artifacts.len()), 10) + " "@ + right(written_size(capped(total::<Artifact>(target.artifacts))), 14) + " "@ + or(target.run.head_branch, "<unknown>"@)
}

fn write_purge_plan_row(target: &RunPurgeTarget) -> (result: String)
    ensures
        result@ == purge_plan_row(target.deep_view()),
{
    let mut line = to_left(number(target.run().id).as_str(), 14);
    add_left(&mut line, target.run().repository.full_name.as_str(), 40);
    add_left(&mut line, text_or(&target.run().workflow_name, "<unknown>"), 28);
    add_right(&mut line, name_attempt(target.run()).as_str(), 7);
    add_right(&mut line, count_text(target.artifacts().len()).as_str(), 10);
    add_right(&mut line, format_bytes(capped_total_of(target.artifacts())).as_str(), 14);
    add_last(&mut line, text_or(&target.run().head_branch, "<unknown>"));
    line
}

/// What a purge would do.
pub open spec fn purge_plan_lines(path: Seq<char>, plan: RunPurgePlanView) -> Seq<Seq<char>> {
    seq![
        "Purge plan:           "@ + path,
        "Plan schema:          "@ + decimal(plan.schema_version as nat),
        "Runs:                 "@ + decimal(plan.summary.run_count as nat),
        "Artifacts:            "@ + decimal(plan.summary.artifact_count as nat),
        "Artifact storage:      "@ + written_size(plan.summary.artifact_bytes),
        ""@,
    ] + if plan.targets.len() == 0 {
        seq!["No completed workflow runs matched the explicit purge selection."@]
    } else {
        seq![purge_plan_heading()] + Seq::new(plan.targets.len(), |k: int| purge_plan_row(plan.targets[k]))
    }
}

/// Describes what a purge would do, planned at that path.
pub fn describe_run_purge_plan(path: &str, plan: &RunPurgePlan) -> (result: Vec<String>)
    ensures
        result.deep_view() == purge_plan_lines(path@, plan.deep_view()),
{
    let targets = plan.targets();
    let mut lines: Vec<String> = nothing();
    add_to(&mut lines, join2("Purge plan:           ", path));
    add_to(&mut lines, join2("Plan schema:          ", number(plan.schema_version() as u64).as_str()));
    add_to(&mut lines, join2("Runs:                 ", count_text(plan.summary().run_count()).as_str()));
    add_to(&mut lines, join2("Artifacts:            ", count_text(plan.summary().artifact_count()).as_str()));
    add_to(&mut lines, join2("Artifact storage:      ", format_bytes(plan.summary().artifact_bytes()).as_str()));
    add_to(&mut lines, "".to_string());
    let ghost summary = lines.deep_view();
    if targets.len() == 0 {
        add_all(&mut lines, single("No completed workflow runs matched the explicit purge selection.".to_string()));
        return lines;
    }
    add_to(&mut lines, write_purge_plan_heading());
    let ghost head = lines.deep_view();
    let ghost all = targets.deep_view();
    let mut i: usize = 0;
    assert(head + Seq::new(0, |k: int| purge_plan_row(all[k])) =~= head);
    while i < targets.len()
        invariant
            all == targets.deep_view(),
            i <= targets.len(),
            lines.deep_view() == head + Seq::new(i as nat, |k: int| purge_plan_row(all[k])),
        decreases targets.len() - i,
    {
        assert(all[i as int] == targets@[i as int].deep_view());
        add_to(&mut lines, write_purge_plan_row(&targets[i]));
        i = i + 1;
        assert(lines.deep_view() =~= head + Seq::new(i as nat, |k: int| purge_plan_row(all[k])));
    }
    assert(lines.deep_view() =~= summary + (seq![purge_plan_heading()] + Seq::new(
        all.len(),
        |k: int| purge_plan_row(all[k]),
    )));
    lines
}

pub open spec fn purge_review_heading() -> Seq<char> {
    left("RUN ID"@, 14) + " "@ + left("REPOSITORY"@, 40) + " "@ + left("STATE"@, 22) + " "@ + right("MISSING"@, 9) + " "@ + right("CHANGED"@, 9) + " "@ + right("UNEXPECTED"@, 10)
}

fn write_purge_review_heading() -> (result: String)
    ensures
        result@ == purge_review_heading(),
{
    let mut line = to_left("RUN ID", 14);
    add_left(&mut line, "REPOSITORY", 40);
    add_left(&mut line, "STATE", 22);
    add_right(&mut line, "MISSING", 9);
    add_right(&mut line, "CHANGED", 9);
    add_right(&mut line, "UNEXPECTED", 10);
    line
}

/// What a review says of a run.
pub open spec fn purge_review_row(item: RunPurgeRevalidationItemView) -> Seq<char> {
    left(decimal(item.run_id as nat), 14) + " "@ + left(item.repository, 40) + " "@ + left(run_state_name(item.state), 22) + " "@ + right(decimal(item.missing_artifact_ids.len()), 9) + " "@ + right(decimal(item.changed_artifact_ids.len()), 9) + " "@ + right(decimal(item.unexpected_artifact_ids.len()), 10)
}

fn write_purge_review_row(item: &RunPurgeRevalidationItem) -> (result: String)
    ensures
        result@ == purge_review_row(item.deep_view()),
{
    let mut line = to_left(number(item.run_id).as_str(), 14);
    add_left(&mut line, item.repository.as_str(), 40);
    add_left(&mut line, name_run_state(item.state), 22);
    add_right(&mut line, count_text(item.missing_artifact_ids.len()).as_str(), 9);
    add_right(&mut line, count_text(item.changed_artifact_ids.len()).as_str(), 9);
    add_right(&mut line, count_text(item.unexpected_artifact_ids.len()).as_str(), 10);
    line
}

/// What a review says of a run, and what went wrong.
pub open spec fn purge_review_item_lines(item: RunPurgeRevalidationItemView) -> Seq<Seq<char>> {
    seq![purge_review_row(item)] + match item.error {
        Some(error) => seq!["  -> "@ + error],
        None => Seq::empty(),
    }
}

fn write_purge_review_item(item: &RunPurgeRevalidationItem) -> (result: Vec<String>)
    ensures
        result.deep_view() == purge_review_item_lines(item.deep_view()),
{
    let mut lines = single(write_purge_review_row(item));
    match &item.error {
        Some(error) => {
            add_all(&mut lines, single(join2("  -> ", error.as_str())));
        },
        None => {
            assert(lines.deep_view() =~= purge_review_item_lines(item.deep_view()));
        },
    }
    lines
}

/// What a review says of each run.
pub open spec fn purge_review_items_lines(items: Seq<RunPurgeRevalidationItemView>) -> Seq<Seq<char>>
    decreases items.len(),
{
    if items.len() == 0 {
        Seq::empty()
    } else {
        purge_review_items_lines(items.drop_last()) + purge_review_item_lines(items.last())
    }
}

/// What a review of a purge found.
pub open spec fn purge_review_lines(path: Seq<char>, report: RunPurgeRevalidationReportView) -> Seq<Seq<char>> {
    seq![
        "Plan:                 "@ + path,
        "Targets checked:      "@ + decimal(report.items.len()),
        "Safe to apply:        "@ + yes_or_no(all_safe(report.items)),
    ] + if report.items.len() == 0 {
        Seq::empty()
    } else {
        seq![""@, purge_review_heading()] + purge_review_items_lines(report.items)
    }
}

/// Describes what a review of the plan at that path found.
pub fn describe_run_purge_review(path: &str, report: &RunPurgeRevalidationReport) -> (result: Vec<String>)
    ensures
        result.deep_view() == purge_review_lines(path@, report.deep_view()),
{
    let items = &report.items;
    let mut lines: Vec<String> = nothing();
    add_to(&mut lines, join2("Plan:                 ", path));
    add_to(&mut lines, join2("Targets checked:      ", count_text(report.items.len()).as_str()));
    add_to(&mut lines, join2("Safe to apply:        ", say_yes_or_no(report.is_safe_to_apply())));
    if items.len() == 0 {
        assert(lines.deep_view() =~= purge_review_lines(path@, report.deep_view()));
        return lines;
    }
    let mut table: Vec<String> = nothing();
    add_to(&mut table, "".to_string());
    add_to(&mut table, write_purge_review_heading());
    let ghost head = table.deep_view();
    let ghost all = items.deep_view();
    let mut i: usize = 0;
    assert(all.take(0) =~= Seq::empty());
    assert(head + purge_review_items_lines(all.take(0)) =~= head);
    while i < items.len()
        invariant
            all == items.deep_view(),
            i <= items.len(),
            table.deep_view() == head + purge_review_items_lines(all.take(i as int)),
        decreases items.len() - i,
    {
        add_all(&mut table, write_purge_review_item(&items[i]));
        i = i + 1;
        assert(all.take(i as int).drop_last() =~= all.take(i - 1));
        assert(all.take(i as int).last() == items@[i - 1].deep_view());
        assert(table.deep_view() =~= head + purge_review_items_lines(all.take(i as int)));
    }
    assert(all.take(i as int) =~= all);
    add_all(&mut lines, table);
    lines
}

pub open spec fn purge_heading() -> Seq<char> {
    left("RUN ID"@, 14) + " "@ + left("REPOSITORY"@, 40) + " "@ + left("WORKFLOW"@, 28) + " "@ + right("ARTIFACTS"@, 10) + " "@ + "STATE"@
}

fn write_purge_heading() -> (result: String)
    ensures
        result@ == purge_heading(),
{
    let mut line = to_left("RUN ID", 14);
    add_left(&mut line, "REPOSITORY", 40);
    add_left(&mut line, "WORKFLOW", 28);
    add_right(&mut line, "ARTIFACTS", 10);
    add_last(&mut line, "STATE");
    line
}

/// A run that is about to go, and its state in the review.
pub open spec fn purge_row(target: RunPurgeTargetView, item: RunPurgeRevalidationItemView) -> Seq<char> {
    left(decimal(target.run.id as nat), 14) + " "@ + left(target.run.repository.full_name, 40) + " "@ + left(or(target.run.workflow_name, "<unknown>"@), 28) + " "@ + right(decimal(target.artifacts.len()), 10) + " "@ + run_state_name(item.state)
}

fn write_purge_row(target: &RunPurgeTarget, item: &RunPurgeRevalidationItem) -> (result: String)
    ensures
        result@ == purge_row(target.deep_view(), item.deep_view()),
{
    let mut line = to_left(number(target.run().id).as_str(), 14);
    add_left(&mut line, target.run().repository.full_name.as_str(), 40);
    add_left(&mut line, text_or(&target.run().workflow_name, "<unknown>"), 28);
    add_right(&mut line, count_text(target.artifacts().len()).as_str(), 10);
    add_last(&mut line, name_run_state(item.state));
    line
}

/// What is about to be purged.
pub open spec fn purge_lines(
    path: Seq<char>,
    plan: RunPurgePlanView,
    report: RunPurgeRevalidationReportView,
) -> Seq<Seq<char>> {
    seq![
        "Plan:                 "@ + path,
        "Account:              "@ + plan.account.login,
        "Runs:                 "@ + decimal(plan.summary.run_count as nat),
        "Artifacts:            "@ + decimal(plan.summary.artifact_count as nat),
        "Artifact storage:      "@ + written_size(plan.summary.artifact_bytes),
        ""@,
        purge_heading(),
    ] + Seq::new(
        least(plan.targets.len(), report.items.len()),
        |k: int| purge_row(plan.targets[k], report.items[k]),
    )
}

/// Describes what is about to be purged, by a plan and its review.
pub fn describe_run_purge(path: &str, plan: &RunPurgePlan, report: &RunPurgeRevalidationReport) -> (result: Vec<String>)
    ensures
        result.deep_view() == purge_lines(path@, plan.deep_view(), report.deep_view()),
{
    let targets = plan.targets();
    let items = &report.items;
    let mut lines: Vec<String> = nothing();
    add_to(&mut lines, join2("Plan:                 ", path));
    add_to(&mut lines, join2("Account:              ", plan.account().login.as_str()));
    add_to(&mut lines, join2("Runs:                 ", count_text(plan.summary().run_count()).as_str()));
    add_to(&mut lines, join2("Artifacts:            ", count_text(plan.summary().artifact_count()).as_str()));
    add_to(&mut lines, join2("Artifact storage:      ", format_bytes(plan.summary().artifact_bytes()).as_str()));
    add_to(&mut lines, "".to_string());
    add_to(&mut lines, write_purge_heading());
    let ghost head = lines.deep_view();
    let ghost first = targets.deep_view();
    let ghost second = items.deep_view();
    let mut i: usize = 0;
    assert(head + Seq::new(0, |k: int| purge_row(first[k], second[k])) =~= head);
    while i < targets.len() && i < items.len()
        invariant
            first == targets.deep_view(),
            second == items.deep_view(),
            i <= targets.len(),
            i <= items.len(),
            lines.deep_view() == head + Seq::new(i as nat, |k: int| purge_row(first[k], second[k])),
        decreases targets.len() - i,
    {
        assert(first[i as int] == targets@[i as int].deep_view());
        assert(second[i as int] == items@[i as int].deep_view());
        add_to(&mut lines, write_purge_row(&targets[i], &items[i]));
        i = i + 1;
        assert(lines.deep_view() =~= head + Seq::new(i as nat, |k: int| purge_row(first[k], second[k])));
    }
    lines
}

/// How many runs lost their logs.
pub open spec fn deleted_logs(items: Seq<RunPurgeExecutionItemView>) -> nat
    decreases items.len(),
{
    if items.len() == 0 {
        0
    } else {
        deleted_logs(items.drop_last()) + if items.last().logs.state == RunPurgeExecutionState::Deleted {
            1nat
        } else {
            0nat
        }
    }
}

fn count_deleted_logs(items: &Vec<RunPurgeExecutionItem>) -> (result: usize)
    ensures
        result == deleted_logs(items.deep_view()),
{
    let ghost all = items.deep_view();
    let mut count: usize = 0;
    let mut i: usize = 0;
    assert(all.take(0) =~= Seq::empty());
    while i < items.len()
        invariant
            all == items.deep_view(),
            i <= items.len(),
            count <= i,
            count == deleted_logs(all.take(i as int)),
        decreases items.len() - i,
    {
        assert(all.take(i + 1).drop_last() =~= all.take(i as int));
        assert(all.take(i + 1).last() == items@[i as int].deep_view());
        if items[i].logs.state == RunPurgeExecutionState::Deleted {
            count = count + 1;
        }
        i = i + 1;
    }
    assert(all.take(i as int) =~= all);
    count
}

/// How many artifacts of a run were deleted.
pub open spec fn deleted_of_run(artifacts: Seq<RunPurgeArtifactResultView>) -> nat
    decreases artifacts.len(),
{
    if artifacts.len() == 0 {
        0
    } else {
        deleted_of_run(artifacts.drop_last()) + if artifacts.last().state == RunPurgeExecutionState::Deleted {
            1nat
        } else {
            0nat
        }
    }
}

/// How many artifacts were deleted.
pub open spec fn deleted_artifacts(items: Seq<RunPurgeExecutionItemView>) -> nat
    decreases items.len(),
{
    if items.len() == 0 {
        0
    } else {
        deleted_artifacts(items.drop_last()) + deleted_of_run(items.last().artifacts)
    }
}

fn count_deleted_of_run(artifacts: &Vec<RunPurgeArtifactResult>) -> (result: usize)
    ensures
        result == deleted_of_run(artifacts.deep_view()),
{
    let ghost all = artifacts.deep_view();
    let mut count: usize = 0;
    let mut i: usize = 0;
    assert(all.take(0) =~= Seq::empty());
    while i < artifacts.len()
        invariant
            all == artifacts.deep_view(),
            i <= artifacts.len(),
            count <= i,
            count == deleted_of_run(all.take(i as int)),
        decreases artifacts.len() - i,
    {
        assert(all.take(i + 1).drop_last() =~= all.take(i as int));
        assert(all.take(i + 1).last() == artifacts@[i as int].deep_view());
        if artifacts[i].state == RunPurgeExecutionState::Deleted {
            count = count + 1;
        }
        i = i + 1;
    }
    assert(all.take(i as int) =~= all);
    count
}

fn count_deleted_artifacts(items: &Vec<RunPurgeExecutionItem>) -> (result: u128)
    ensures
        result == deleted_artifacts(items.deep_view()),
{
    let ghost all = items.deep_view();
    let mut count: u128 = 0;
    let mut i: usize = 0;
    assert(all.take(0) =~= Seq::empty());
    while i < items.len()
        invariant
            all == items.deep_view(),
            i <= items.len(),
            count <= i * usize::MAX,
            count == deleted_artifacts(all.take(i as int)),
        decreases items.len() - i,
    {
        assert(all.take(i + 1).drop_last() =~= all.take(i as int));
        assert(all.take(i + 1).last() == items@[i as int].deep_view());
        let deleted: usize = count_deleted_of_run(&items[i].artifacts);
        proof {
            assert(i * usize::MAX + usize::MAX == (i + 1) * usize::MAX) by (nonlinear_arith);
            assert((i + 1) * usize::MAX <= usize::MAX * usize::MAX) by (nonlinear_arith)
                requires
                    i < usize::MAX,
            ;
            assert(usize::MAX * usize::MAX <= u128::MAX) by (nonlinear_arith)
                requires
                    usize::MAX <= 0xffff_ffff_ffff_ffff,
            ;
        }
        count = count + deleted as u128;
        i = i + 1;
    }
    assert(all.take(i as int) =~= all);
    count
}

/// What a purge did.
pub open spec fn purge_execution_lines(report: RunPurgeExecutionReportView, audit: Seq<char>) -> Seq<Seq<char>> {
    seq![
        ""@,
        "Workflow-run purge complete"@,
        "Runs reviewed:         "@ + decimal(report.items.len()),
        "Runs deleted:          "@ + decimal(deleted_runs(report.items)),
        "Run logs deleted:      "@ + decimal(deleted_logs(report.items)),
        "Artifacts deleted:     "@ + decimal(deleted_artifacts(report.items)),
        "Artifact bytes removed: "@ + written_size(capped(reclaimed(report.items))),
        "Audit record:          "@ + audit,
    ] + if forall|i: int| 0 <= i < report.items.len() ==> complete(#[trigger] report.items[i]) {
        Seq::empty()
    } else {
        seq![
            ""@,
            "Purge completed with blocked or failed step(s); inspect the audit record before retrying anything."@,
        ]
    }
}

/// Describes what a purge did, recorded at `audit`.
pub fn describe_run_purge_execution(report: &RunPurgeExecutionReport, audit: &str) -> (result: Vec<String>)
    ensures
        result.deep_view() == purge_execution_lines(report.deep_view(), audit@),
{
    let mut lines: Vec<String> = nothing();
    add_to(&mut lines, "".to_string());
    add_to(&mut lines, "Workflow-run purge complete".to_string());
    add_to(&mut lines, join2("Runs reviewed:         ", count_text(report.run_count()).as_str()));
    add_to(&mut lines, join2("Runs deleted:          ", count_text(report.deleted_run_count()).as_str()));
    add_to(&mut lines, join2("Run logs deleted:      ", count_text(count_deleted_logs(&report.items)).as_str()));
    add_to(&mut lines, join2("Artifacts deleted:     ", large_number(count_deleted_artifacts(&report.items)).as_str()));
    add_to(&mut lines, join2("Artifact bytes removed: ", format_bytes(report.reclaimed_artifact_bytes()).as_str()));
    add_to(&mut lines, join2("Audit record:          ", audit));
    if !report.is_complete_success() {
        add_to(&mut lines, "".to_string());
        add_to(
            &mut lines,
            "Purge completed with blocked or failed step(s); inspect the audit record before retrying anything.".to_string(),
        );
    }
    assert(lines.deep_view() =~= purge_execution_lines(report.deep_view(), audit@));
    lines
}

/// Refuses to carry a purge out where its review found anything amiss.
pub fn check_run_purge(report: &RunPurgeRevalidationReport) -> (result: Result<(), String>)
    ensures
        if all_safe(report.deep_view().items) {
            result is Ok
        } else {
            result is Err && result->Err_0@
                == "workflow-run purge plan is not safe to apply; no deletion was attempted"@
        },
{
    if report.is_safe_to_apply() {
        Ok(())
    } else {
        Err("workflow-run purge plan is not safe to apply; no deletion was attempted".to_string())
    }
}

/// What is said of a purge without targets.
pub open spec fn empty_purge_lines(path: Seq<char>) -> Seq<Seq<char>> {
    seq!["Plan:                 "@ + path, "Runs:                 0"@, "No workflow-run targets; nothing to purge."@]
}

/// Describes a purge without targets.
pub fn describe_empty_purge(path: &str) -> (result: Vec<String>)
    ensures
        result.deep_view() == empty_purge_lines(path@),
{
    let mut lines: Vec<String> = nothing();
    add_to(&mut lines, join2("Plan:                 ", path));
    add_to(&mut lines, "Runs:                 0".to_string());
    add_to(&mut lines, "No workflow-run targets; nothing to purge.".to_string());
    lines
}

/// A purge that was recorded.
#[derive(Clone, Debug, PartialEq, Eq)]
pub struct PurgeRecord {
    pub recorded_at: Timestamp,
    pub execution: RunPurgeExecutionReport,
}

#[verifier::ext_equal]
pub struct PurgeRecordView {
    pub recorded_at: Timestamp,
    pub execution: RunPurgeExecutionReportView,
}

impl DeepView for PurgeRecord {
    type V = PurgeRecordView;

    open spec fn deep_view(&self) -> PurgeRecordView {
        PurgeRecordView { recorded_at: self.recorded_at, execution: self.execution.deep_view() }
    }
}

pub open spec fn purge_history_heading() -> Seq<char> {
    left("RECORDED"@, 20) + " "@ + left("ACCOUNT"@, 18) + " "@ + right("RUNS"@, 8) + " "@ + right("DELETED"@, 10) + " "@ + right("ARTIFACT BYTES"@, 14) + " "@ + "AUTHORIZATION"@
}

fn write_purge_history_heading() -> (result: String)
    ensures
        result@ == purge_history_heading(),
{
    let mut line = to_left("RECORDED", 20);
    add_left(&mut line, "ACCOUNT", 18);
    add_right(&mut line, "RUNS", 8);
    add_right(&mut line, "DELETED", 10);
    add_right(&mut line, "ARTIFACT BYTES", 14);
    add_last(&mut line, "AUTHORIZATION");
    line
}

/// A recorded purge.
pub open spec fn purge_history_row(record: PurgeRecordView) -> Seq<char> {
    left(utc_text(record.recorded_at.unix_seconds() as i64, record.recorded_at.subsecond() as u32, TO_THE_PLAIN_SECOND@), 20) + " "@ + left(record.execution.account.login, 18) + " "@ + right(decimal(record.execution.items.len()), 8) + " "@ + right(decimal(deleted_runs(record.execution.items)), 10) + " "@ + right(written_size(capped(reclaimed(record.execution.items))), 14) + " "@ + authorization_name(record.execution.authorization)
}

fn write_purge_history_row(record: &PurgeRecord) -> (result: String)
    ensures
        result@ == purge_history_row(record.deep_view()),
{
    let mut line = to_left(record.recorded_at.describe_plainly().as_str(), 20);
    add_left(&mut line, record.execution.account.login.as_str(), 18);
    add_right(&mut line, count_text(record.execution.run_count()).as_str(), 8);
    add_right(&mut line, count_text(record.execution.deleted_run_count()).as_str(), 10);
    add_right(&mut line, format_bytes(record.execution.reclaimed_artifact_bytes()).as_str(), 14);
    add_last(&mut line, format_authorization(record.execution.authorization));
    line
}

/// Recorded purges, one below the other.
pub open spec fn purge_history_lines(records: Seq<PurgeRecordView>) -> Seq<Seq<char>> {
    seq![
        "Workflow-run purge history"@,
        "Records:               "@ + decimal(records.len()),
        ""@,
        purge_history_heading(),
    ] + Seq::new(records.len(), |k: int| purge_history_row(records[k]))
}

/// Describes recorded purges.
pub fn describe_run_purge_history(records: &Vec<PurgeRecord>) -> (result: Vec<String>)
    ensures
        result.deep_view() == purge_history_lines(records.deep_view()),
{
    let mut lines: Vec<String> = nothing();
    add_to(&mut lines, "Workflow-run purge history".to_string());
    add_to(&mut lines, join2("Records:               ", count_text(records.len()).as_str()));
    add_to(&mut lines, "".to_string());
    add_to(&mut lines, write_purge_history_heading());
    let ghost head = lines.deep_view();
    let ghost all = records.deep_view();
    let mut i: usize = 0;
    assert(head + Seq::new(0, |k: int| purge_history_row(all[k])) =~= head);
    while i < records.len()
        invariant
            all == records.deep_view(),
            i <= records.len(),
            lines.deep_view() == head + Seq::new(i as nat, |k: int| purge_history_row(all[k])),
        decreases records.len() - i,
    {
        assert(all[i as int] == records@[i as int].deep_view());
        add_to(&mut lines, write_purge_history_row(&records[i]));
        i = i + 1;
        assert(lines.deep_view() =~= head + Seq::new(i as nat, |k: int| purge_history_row(all[k])));
    }
    lines
}

/// A purge is written with how many runs, logs and artifacts were deleted, and with a warning where
/// any run is not gone whole.
pub proof fn a_purge_counts_what_was_deleted(report: RunPurgeExecutionReportView, audit: Seq<char>)
    ensures
        ({
            let lines = purge_execution_lines(report, audit);
            &&& lines[2] == "Runs reviewed:         "@ + decimal(report.items.len())
            &&& lines[3] == "Runs deleted:          "@ + decimal(
                tally(
                    report.items,
                    |item: RunPurgeExecutionItemView| item.run.state == RunPurgeExecutionState::Deleted,
                ),
            )
            &&& lines[4] == "Run logs deleted:      "@ + decimal(
                tally(
                    report.items,
                    |item: RunPurgeExecutionItemView| item.logs.state == RunPurgeExecutionState::Deleted,
                ),
            )
            &&& lines[5] == "Artifacts deleted:     "@ + decimal(deleted_artifacts(report.items))
            &&& lines[6] == "Artifact bytes removed: "@ + written_size(capped(reclaimed(report.items)))
            &&& lines[7] == "Audit record:          "@ + audit
            &&& (forall|i: int| 0 <= i < report.items.len() ==> complete(#[trigger] report.items[i])) ==> lines.len()
                == 8
            &&& !(forall|i: int| 0 <= i < report.items.len() ==> complete(#[trigger] report.items[i])) ==> lines.len()
                == 10
        }),
{
    lemma_deleted_tallies(report.items);
}

proof fn lemma_deleted_tallies(items: Seq<RunPurgeExecutionItemView>)
    ensures
        deleted_runs(items) == tally(
            items,
            |item: RunPurgeExecutionItemView| item.run.state == RunPurgeExecutionState::Deleted,
        ),
        deleted_logs(items) == tally(
            items,
            |item: RunPurgeExecutionItemView| item.logs.state == RunPurgeExecutionState::Deleted,
        ),
    decreases items.len(),
{
    if items.len() > 0 {
        lemma_deleted_tallies(items.drop_last());
    }
}

/// Every deleted artifact of every run counts.
pub proof fn deleted_artifacts_count_over_all_runs(
    items: Seq<RunPurgeExecutionItemView>,
    item: RunPurgeExecutionItemView,
)
    ensures
        deleted_artifacts(Seq::empty()) == 0,
        deleted_artifacts(items.push(item)) == deleted_artifacts(items) + tally(
            item.artifacts,
            |artifact: RunPurgeArtifactResultView| artifact.state == RunPurgeExecutionState::Deleted,
        ),
{
    assert(items.push(item).drop_last() =~= items);
    lemma_deleted_of_run(item.artifacts);
}

proof fn lemma_deleted_of_run(artifacts: Seq<RunPurgeArtifactResultView>)
    ensures
        deleted_of_run(artifacts) == tally(
            artifacts,
            |artifact: RunPurgeArtifactResultView| artifact.state == RunPurgeExecutionState::Deleted,
        ),
    decreases artifacts.len(),
{
    if artifacts.len() > 0 {
        lemma_deleted_of_run(artifacts.drop_last());
    }
}

/// A run in a review is written in a row, with its error below where there is one.
pub proof fn an_error_is_written_below_its_run(item: RunPurgeRevalidationItemView)
    ensures
        purge_review_item_lines(item)[0] == purge_review_row(item),
        item.error is None ==> purge_review_item_lines(item).len() == 1,
        item.error is Some ==> purge_review_item_lines(item).len() == 2 && purge_review_item_lines(item)[1] == "  -> "@
            + item.error->0,
{
}

/// The history is written with the number of records and each of them in a row, in their order.
pub proof fn each_purge_is_written_in_its_row(records: Seq<PurgeRecordView>, k: int)
    ensures
        purge_history_lines(records).len() == 4 + records.len(),
        purge_history_lines(records)[1] == "Records:               "@ + decimal(records.len()),
        0 <= k < records.len() ==> purge_history_lines(records)[4 + k] == purge_history_row(records[k]),
{
}

/// A plan of a purge is written with how many runs and artifacts would go and how much they take, and
/// with each run in a row; that there is none is said.
pub proof fn a_purge_plan_is_written_with_its_numbers(path: Seq<char>, plan: RunPurgePlanView, k: int)
    ensures
        ({
            let lines = purge_plan_lines(path, plan);
            &&& lines[0] == "Purge plan:           "@ + path
            &&& lines[2] == "Runs:                 "@ + decimal(plan.summary.run_count as nat)
            &&& lines[3] == "Artifacts:            "@ + decimal(plan.summary.artifact_count as nat)
            &&& lines[4] == "Artifact storage:      "@ + written_size(plan.summary.artifact_bytes)
            &&& plan.targets.len() == 0 ==> lines.len() == 7
            &&& plan.targets.len() > 0 ==> lines.len() == 7 + plan.targets.len()
            &&& 0 <= k < plan.targets.len() ==> lines[7 + k] == purge_plan_row(plan.targets[k])
        }),
{
}

/// A review of a purge is written with how many runs it looked at and whether each of them is ready or
/// absent, and with each of them below, in their order.
pub proof fn a_purge_review_says_whether_it_is_safe(path: Seq<char>, report: RunPurgeRevalidationReportView)
    ensures
        ({
            let lines = purge_review_lines(path, report);
            let safe = forall|i: int|
                0 <= i < report.items.len() ==> (#[trigger] report.items[i]).state is Ready || report.items[i].state
                    is AlreadyAbsent;
            &&& lines[1] == "Targets checked:      "@ + decimal(report.items.len())
            &&& safe ==> lines[2] == "Safe to apply:        "@ + "yes"@
            &&& !safe ==> lines[2] == "Safe to apply:        "@ + "no"@
            &&& report.items.len() == 0 ==> lines.len() == 3
            &&& report.items.len() > 0 ==> lines.skip(5) == purge_review_items_lines(report.items)
        }),
{
    if report.items.len() > 0 {
        assert(purge_review_lines(path, report).skip(5) =~= purge_review_items_lines(report.items));
    }
    assert(all_safe(report.items) == (forall|i: int|
        0 <= i < report.items.len() ==> (#[trigger] report.items[i]).state is Ready || report.items[i].state
            is AlreadyAbsent));
}

/// The runs of a review are written in their order.
pub proof fn reviewed_runs_are_written_in_order(
    items: Seq<RunPurgeRevalidationItemView>,
    item: RunPurgeRevalidationItemView,
)
    ensures
        purge_review_items_lines(Seq::empty()).len() == 0,
        purge_review_items_lines(items.push(item)) == purge_review_items_lines(items) + purge_review_item_lines(item),
{
    assert(items.push(item).drop_last() =~= items);
}

/// Before a purge is carried out, each run is written beside its state in the review.
pub proof fn each_run_is_written_with_its_state(
    path: Seq<char>,
    plan: RunPurgePlanView,
    report: RunPurgeRevalidationReportView,
    k: int,
)
    requires
        plan.targets.len() == report.items.len(),
    ensures
        ({
            let lines = purge_lines(path, plan, report);
            &&& lines.len() == 7 + plan.targets.len()
            &&& lines[1] == "Account:              "@ + plan.account.login
            &&& lines[2] == "Runs:                 "@ + decimal(plan.summary.run_count as nat)
            &&& lines[3] == "Artifacts:            "@ + decimal(plan.summary.artifact_count as nat)
            &&& lines[4] == "Artifact storage:      "@ + written_size(plan.summary.artifact_bytes)
            &&& 0 <= k < plan.targets.len() ==> lines[7 + k] == purge_row(plan.targets[k], report.items[k])
        }),
{
}

} // verus!
