//! Listings of what was found.
use crate::format::{format_age, format_bytes, written_age, written_size};
use crate::inventory::CacheStorageBucket;
use crate::labels::{
    decision_label, decision_name, flag_names, repository_flags, visibility_label, visibility_name,
};
use crate::model::{
    Account, AccountView, ActionsCache, ActionsCacheView, Artifact, ArtifactView, CacheInventorySnapshot,
    InventorySnapshot, InventorySnapshotView, Repository, RepositoryView, ScanIssue, ScanIssueView, WorkflowRun,
    WorkflowRunView,
};
use crate::order::tally;
use crate::policy::cache_engine::{
    reclaimable, verdicts, CacheClassificationReport, CacheClassificationReportView, CacheDecision, CacheDecisionView,
};
use crate::policy::engine::Decision;
use crate::report::{add_all, count_text, or, text_or};
use crate::table::{add_last, add_left, add_right, left, right, to_left};
use crate::text::{decimal, join2, join3, join4, join6, number};
use crate::time::{utc_text, Timestamp, TO_THE_MINUTE};
use crate::totals::{capped, occurrences, total, total_of, StorageBucket, StorageBucketView};
use crate::value::{add_to, nothing, single};
use vstd::prelude::*;

verus! {

pub open spec fn bucket_heading() -> Seq<char> {
    left("GROUP"@, 56) + " "@ + right("ARTIFACTS"@, 10) + " "@ + right("STORAGE"@, 14)
}

fn write_bucket_heading() -> (result: String)
    ensures
        result@ == bucket_heading(),
{
    let mut line = to_left("GROUP", 56);
    add_right(&mut line, "ARTIFACTS", 10);
    add_right(&mut line, "STORAGE", 14);
    line
}

/// A group of artifacts.
pub open spec fn bucket_row(bucket: StorageBucketView) -> Seq<char> {
    left(bucket.key, 56) + " "@ + right(decimal(bucket.artifact_count as nat), 10) + " "@ + right(written_size(bucket.bytes), 14)
}

fn write_bucket_row(bucket: &StorageBucket) -> (result: String)
    ensures
        result@ == bucket_row(bucket.deep_view()),
{
    let mut line = to_left(bucket.key.as_str(), 56);
    add_right(&mut line, count_text(bucket.artifact_count).as_str(), 10);
    add_right(&mut line, format_bytes(bucket.bytes).as_str(), 14);
    line
}

/// Groups of artifacts, up to a limit.
pub open spec fn bucket_lines(buckets: Seq<StorageBucketView>, limit: Option<usize>) -> Seq<Seq<char>> {
    let shown: nat = match limit {
        Some(limit) => if limit < buckets.len() {
            limit as nat
        } else {
            buckets.len()
        },
        None => buckets.len(),
    };
    seq![bucket_heading()] + Seq::new(shown, |k: int| bucket_row(buckets[k]))
}

/// Describes groups of artifacts.
pub fn describe_buckets(buckets: &Vec<StorageBucket>, limit: Option<usize>) -> (result: Vec<String>)
    ensures
        result.deep_view() == bucket_lines(buckets.deep_view(), limit),
{
    let shown: usize = match limit {
        Some(limit) => if limit < buckets.len() {
            limit
        } else {
            buckets.len()
        },
        None => buckets.len(),
    };
    let mut lines: Vec<String> = nothing();
    add_to(&mut lines, write_bucket_heading());
    let ghost head = lines.deep_view();
    let ghost all = buckets.deep_view();
    let mut i: usize = 0;
    assert(head + Seq::new(0, |k: int| bucket_row(all[k])) =~= head);
    while i < shown
        invariant
            all == buckets.deep_view(),
            i <= shown <= buckets.len(),
            lines.deep_view() == head + Seq::new(i as nat, |k: int| bucket_row(all[k])),
        decreases shown - i,
    {
        assert(all[i as int] == buckets@[i as int].deep_view());
        add_to(&mut lines, write_bucket_row(&buckets[i]));
        i = i + 1;
        assert(lines.deep_view() =~= head + Seq::new(i as nat, |k: int| bucket_row(all[k])));
    }
    lines
}

/// How many requests are left, as far as is known.
pub open spec fn remaining_text(remaining: Option<u64>) -> Seq<char> {
    match remaining {
        Some(count) => decimal(count as nat),
        None => "unknown"@,
    }
}

fn write_remaining(remaining: Option<u64>) -> (result: String)
    ensures
        result@ == remaining_text(remaining),
{
    match remaining {
        Some(count) => number(count),
        None => "unknown".to_string(),
    }
}

/// How many repositories a scan left out, if any.
pub open spec fn issue_count_lines(issues: Seq<ScanIssueView>) -> Seq<Seq<char>> {
    if issues.len() == 0 {
        Seq::empty()
    } else {
        seq!["Scan issues:      "@ + decimal(issues.len())]
    }
}

fn write_issue_count(issues: &Vec<ScanIssue>) -> (result: Vec<String>)
    ensures
        result.deep_view() == issue_count_lines(issues.deep_view()),
{
    let mut lines: Vec<String> = nothing();
    if issues.len() > 0 {
        add_to(&mut lines, join2("Scan issues:      ", count_text(issues.len()).as_str()));
    }
    lines
}

/// What a scan found. `elapsed` is the time that it took, in seconds.
pub open spec fn scan_lines(
    snapshot: InventorySnapshotView,
    buckets: Seq<StorageBucketView>,
    elapsed: Seq<char>,
) -> Seq<Seq<char>> {
    seq![
        "Account:          "@ + snapshot.account.login,
        "Repositories:     "@ + decimal(snapshot.repositories.len()),
        "Artifacts:        "@ + decimal(snapshot.artifacts.len()),
        "Current storage:  "@ + written_size(total::<Artifact>(snapshot.artifacts) as u64),
        "API requests:     "@ + decimal(snapshot.telemetry.api_requests as nat),
        "Rate remaining:   "@ + remaining_text(snapshot.telemetry.rate_limit_remaining),
        "Elapsed:          "@ + elapsed + "s"@,
    ] + issue_count_lines(snapshot.issues) + seq![""@, "Largest repositories"@] + bucket_lines(buckets, Some(20))
}

/// Describes what a scan found, with its groups by repository.
pub fn describe_scan(snapshot: &InventorySnapshot, buckets: &Vec<StorageBucket>, elapsed: &str) -> (result: Vec<String>)
    requires
        total::<Artifact>(snapshot.deep_view().artifacts) <= u64::MAX,
    ensures
        result.deep_view() == scan_lines(snapshot.deep_view(), buckets.deep_view(), elapsed@),
{
    let mut lines: Vec<String> = nothing();
    add_to(&mut lines, join2("Account:          ", snapshot.account.login.as_str()));
    add_to(&mut lines, join2("Repositories:     ", count_text(snapshot.repositories.len()).as_str()));
    add_to(&mut lines, join2("Artifacts:        ", count_text(snapshot.artifact_count()).as_str()));
    add_to(&mut lines, join2("Current storage:  ", format_bytes(snapshot.total_bytes()).as_str()));
    add_to(&mut lines, join2("API requests:     ", number(snapshot.telemetry.api_requests).as_str()));
    add_to(
        &mut lines,
        join2("Rate remaining:   ", write_remaining(snapshot.telemetry.rate_limit_remaining).as_str()),
    );
    add_to(&mut lines, join3("Elapsed:          ", elapsed, "s"));
    add_all(&mut lines, write_issue_count(&snapshot.issues));
    let ghost before = lines.deep_view();
    add_to(&mut lines, "".to_string());
    add_to(&mut lines, "Largest repositories".to_string());
    assert(lines.deep_view() =~= before + seq![""@, "Largest repositories"@]);
    add_all(&mut lines, describe_buckets(buckets, Some(20)));
    lines
}

/// How much is stored, by groups.
pub open spec fn statistic_lines(snapshot: InventorySnapshotView, buckets: Seq<StorageBucketView>) -> Seq<Seq<char>> {
    seq![
        "Artifacts: "@ + decimal(snapshot.artifacts.len()),
        "Storage:   "@ + written_size(total::<Artifact>(snapshot.artifacts) as u64),
        ""@,
    ] + bucket_lines(buckets, None)
}

/// Describes how much is stored, by groups.
pub fn describe_statistics(snapshot: &InventorySnapshot, buckets: &Vec<StorageBucket>) -> (result: Vec<String>)
    requires
        total::<Artifact>(snapshot.deep_view().artifacts) <= u64::MAX,
    ensures
        result.deep_view() == statistic_lines(snapshot.deep_view(), buckets.deep_view()),
{
    let mut lines: Vec<String> = nothing();
    add_to(&mut lines, join2("Artifacts: ", count_text(snapshot.artifact_count()).as_str()));
    add_to(&mut lines, join2("Storage:   ", format_bytes(snapshot.total_bytes()).as_str()));
    add_to(&mut lines, "".to_string());
    add_all(&mut lines, describe_buckets(buckets, None));
    lines
}

pub open spec fn repository_heading() -> Seq<char> {
    left("REPOSITORY"@, 48) + " "@ + left("VISIBILITY"@, 10) + " "@ + left("DEFAULT BRANCH"@, 18) + " "@ + "FLAGS"@
}

fn write_repository_heading() -> (result: String)
    ensures
        result@ == repository_heading(),
{
    let mut line = to_left("REPOSITORY", 48);
    add_left(&mut line, "VISIBILITY", 10);
    add_left(&mut line, "DEFAULT BRANCH", 18);
    add_last(&mut line, "FLAGS");
    line
}

/// A repository.
pub open spec fn repository_row(repository: RepositoryView) -> Seq<char> {
    left(repository.full_name, 48) + " "@ + left(visibility_name(repository.visibility), 10) + " "@ + left(repository.default_branch, 18) + " "@ + flag_names(repository.archived, repository.fork)
}

fn write_repository_row(repository: &Repository) -> (result: String)
    ensures
        result@ == repository_row(repository.deep_view()),
{
    let mut line = to_left(repository.full_name.as_str(), 48);
    add_left(&mut line, visibility_label(repository.visibility), 10);
    add_left(&mut line, repository.default_branch.as_str(), 18);
    add_last(&mut line, repository_flags(repository));
    line
}

/// Repositories, one below the other.
pub open spec fn repository_lines(account: AccountView, repositories: Seq<RepositoryView>) -> Seq<Seq<char>> {
    seq![
        "Account: "@ + account.login,
        ""@,
        repository_heading(),
    ] + Seq::new(repositories.len(), |k: int| repository_row(repositories[k]))
}

/// Describes repositories.
pub fn describe_repositories(account: &Account, repositories: &Vec<Repository>) -> (result: Vec<String>)
    ensures
        result.deep_view() == repository_lines(account.deep_view(), repositories.deep_view()),
{
    let mut lines: Vec<String> = nothing();
    add_to(&mut lines, join2("Account: ", account.login.as_str()));
    add_to(&mut lines, "".to_string());
    add_to(&mut lines, write_repository_heading());
    let ghost head = lines.deep_view();
    let ghost all = repositories.deep_view();
    let mut i: usize = 0;
    assert(head + Seq::new(0, |k: int| repository_row(all[k])) =~= head);
    while i < repositories.len()
        invariant
            all == repositories.deep_view(),
            i <= repositories.len(),
            lines.deep_view() == head + Seq::new(i as nat, |k: int| repository_row(all[k])),
        decreases repositories.len() - i,
    {
        assert(all[i as int] == repositories@[i as int].deep_view());
        add_to(&mut lines, write_repository_row(&repositories[i]));
        i = i + 1;
        assert(lines.deep_view() =~= head + Seq::new(i as nat, |k: int| repository_row(all[k])));
    }
    lines
}

pub open spec fn artifact_heading() -> Seq<char> {
    left("ID"@, 12) + " "@ + left("REPOSITORY"@, 40) + " "@ + left("ARTIFACT"@, 34) + " "@ + right("SIZE"@, 12) + " "@ + right("AGE"@, 9) + " "@ + left("EXPIRES"@, 20) + " "@ + "BRANCH"@
}

fn write_artifact_heading() -> (result: String)
    ensures
        result@ == artifact_heading(),
{
    let mut line = to_left("ID", 12);
    add_left(&mut line, "REPOSITORY", 40);
    add_left(&mut line, "ARTIFACT", 34);
    add_right(&mut line, "SIZE", 12);
    add_right(&mut line, "AGE", 9);
    add_left(&mut line, "EXPIRES", 20);
    add_last(&mut line, "BRANCH");
    line
}

/// When something expires, to the minute.
pub open spec fn expiry(at: Option<Timestamp>) -> Seq<char> {
    match at {
        Some(at) => utc_text(at.unix_seconds() as i64, at.subsecond() as u32, TO_THE_MINUTE@),
        None => "unknown"@,
    }
}

fn write_expiry(at: Option<Timestamp>) -> (result: String)
    ensures
        result@ == expiry(at),
{
    match at {
        Some(at) => at.describe_minute(),
        None => "unknown".to_string(),
    }
}

fn branch_of(artifact: &Artifact) -> (result: &str)
    ensures
        result@ == or(artifact.deep_view().branch(), "<unknown>"@),
{
    match artifact.branch() {
        Some(branch) => branch,
        None => "<unknown>",
    }
}

/// An artifact.
pub open spec fn artifact_row(artifact: ArtifactView, now: Timestamp) -> Seq<char> {
    left(decimal(artifact.id as nat), 12) + " "@ + left(artifact.repository.full_name, 40) + " "@ + left(artifact.name, 34) + " "@ + right(written_size(artifact.size_in_bytes), 12) + " "@ + right(written_age(now.since(artifact.created_at) as u64), 9) + " "@ + left(expiry(artifact.expires_at), 20) + " "@ + or(artifact.branch(), "<unknown>"@)
}

fn write_artifact_row(artifact: &Artifact, now: Timestamp) -> (result: String)
    ensures
        result@ == artifact_row(artifact.deep_view(), now),
{
    let mut line = to_left(number(artifact.id).as_str(), 12);
    add_left(&mut line, artifact.repository.full_name.as_str(), 40);
    add_left(&mut line, artifact.name.as_str(), 34);
    add_right(&mut line, format_bytes(artifact.size_in_bytes).as_str(), 12);
    add_right(&mut line, format_age(artifact.age_seconds(now)).as_str(), 9);
    add_left(&mut line, write_expiry(artifact.expires_at).as_str(), 20);
    add_last(&mut line, branch_of(artifact));
    line
}

/// Artifacts, one below the other.
pub open spec fn artifact_lines(artifacts: Seq<ArtifactView>, now: Timestamp) -> Seq<Seq<char>> {
    seq![
        artifact_heading(),
    ] + Seq::new(artifacts.len(), |k: int| artifact_row(artifacts[k], now))
}

/// Describes artifacts.
pub fn describe_artifacts(artifacts: &Vec<Artifact>, now: Timestamp) -> (result: Vec<String>)
    ensures
        result.deep_view() == artifact_lines(artifacts.deep_view(), now),
{
    let mut lines: Vec<String> = nothing();
    add_to(&mut lines, write_artifact_heading());
    let ghost head = lines.deep_view();
    let ghost all = artifacts.deep_view();
    let mut i: usize = 0;
    assert(head + Seq::new(0, |k: int| artifact_row(all[k], now)) =~= head);
    while i < artifacts.len()
        invariant
            all == artifacts.deep_view(),
            i <= artifacts.len(),
            lines.deep_view() == head + Seq::new(i as nat, |k: int| artifact_row(all[k], now)),
        decreases artifacts.len() - i,
    {
        assert(all[i as int] == artifacts@[i as int].deep_view());
        add_to(&mut lines, write_artifact_row(&artifacts[i], now));
        i = i + 1;
        assert(lines.deep_view() =~= head + Seq::new(i as nat, |k: int| artifact_row(all[k], now)));
    }
    lines
}

pub open spec fn run_heading() -> Seq<char> {
    left("ID"@, 14) + " "@ + left("REPOSITORY"@, 40) + " "@ + left("WORKFLOW"@, 28) + " "@ + right("RUN"@, 7) + " "@ + left("STATUS"@, 16) + " "@ + left("CONCLUSION"@, 14) + " "@ + right("AGE"@, 8) + " "@ + "BRANCH"@
}

fn write_run_heading() -> (result: String)
    ensures
        result@ == run_heading(),
{
    let mut line = to_left("ID", 14);
    add_left(&mut line, "REPOSITORY", 40);
    add_left(&mut line, "WORKFLOW", 28);
    add_right(&mut line, "RUN", 7);
    add_left(&mut line, "STATUS", 16);
    add_left(&mut line, "CONCLUSION", 14);
    add_right(&mut line, "AGE", 8);
    add_last(&mut line, "BRANCH");
    line
}

/// The number of a run and that of its attempt.
pub open spec fn attempt_name(run: WorkflowRunView) -> Seq<char> {
    "#"@ + decimal(run.run_number as nat) + "."@ + decimal(run.run_attempt as nat)
}

pub(crate) fn name_attempt(run: &WorkflowRun) -> (result: String)
    ensures
        result@ == attempt_name(run.deep_view()),
{
    join4("#", number(run.run_number).as_str(), ".", number(run.run_attempt).as_str())
}

/// A run.
pub open spec fn run_row(run: WorkflowRunView, now: Timestamp) -> Seq<char> {
    left(decimal(run.id as nat), 14) + " "@ + left(run.repository.full_name, 40) + " "@ + left(or(run.workflow_name, "<unknown>"@), 28) + " "@ + right(attempt_name(run), 7) + " "@ + left(run.status, 16) + " "@ + left(or(run.conclusion, "-"@), 14) + " "@ + right(written_age(now.since(run.created_at) as u64), 8) + " "@ + or(run.head_branch, "<unknown>"@)
}

fn write_run_row(run: &WorkflowRun, now: Timestamp) -> (result: String)
    ensures
        result@ == run_row(run.deep_view(), now),
{
    let mut line = to_left(number(run.id).as_str(), 14);
    add_left(&mut line, run.repository.full_name.as_str(), 40);
    add_left(&mut line, text_or(&run.workflow_name, "<unknown>"), 28);
    add_right(&mut line, name_attempt(run).as_str(), 7);
    add_left(&mut line, run.status.as_str(), 16);
    add_left(&mut line, text_or(&run.conclusion, "-"), 14);
    add_right(&mut line, format_age(run.age_seconds(now)).as_str(), 8);
    add_last(&mut line, text_or(&run.head_branch, "<unknown>"));
    line
}

/// Runs, one below the other.
pub open spec fn run_lines(runs: Seq<WorkflowRunView>, now: Timestamp) -> Seq<Seq<char>> {
    seq![
        "Workflow runs: "@ + decimal(runs.len()),
        ""@,
        run_heading(),
    ] + Seq::new(runs.len(), |k: int| run_row(runs[k], now))
}

/// Describes runs.
pub fn describe_runs(runs: &Vec<WorkflowRun>, now: Timestamp) -> (result: Vec<String>)
    ensures
        result.deep_view() == run_lines(runs.deep_view(), now),
{
    let mut lines: Vec<String> = nothing();
    add_to(&mut lines, join2("Workflow runs: ", count_text(runs.len()).as_str()));
    add_to(&mut lines, "".to_string());
    add_to(&mut lines, write_run_heading());
    let ghost head = lines.deep_view();
    let ghost all = runs.deep_view();
    let mut i: usize = 0;
    assert(head + Seq::new(0, |k: int| run_row(all[k], now)) =~= head);
    while i < runs.len()
        invariant
            all == runs.deep_view(),
            i <= runs.len(),
            lines.deep_view() == head + Seq::new(i as nat, |k: int| run_row(all[k], now)),
        decreases runs.len() - i,
    {
        assert(all[i as int] == runs@[i as int].deep_view());
        add_to(&mut lines, write_run_row(&runs[i], now));
        i = i + 1;
        assert(lines.deep_view() =~= head + Seq::new(i as nat, |k: int| run_row(all[k], now)));
    }
    lines
}

pub open spec fn cache_heading() -> Seq<char> {
    left("ID"@, 12) + " "@ + left("REPOSITORY"@, 40) + " "@ + left("KEY"@, 30) + " "@ + right("SIZE"@, 12) + " "@ + right("AGE"@, 9) + " "@ + right("UNUSED"@, 9) + " "@ + "REF"@
}

fn write_cache_heading() -> (result: String)
    ensures
        result@ == cache_heading(),
{
    let mut line = to_left("ID", 12);
    add_left(&mut line, "REPOSITORY", 40);
    add_left(&mut line, "KEY", 30);
    add_right(&mut line, "SIZE", 12);
    add_right(&mut line, "AGE", 9);
    add_right(&mut line, "UNUSED", 9);
    add_last(&mut line, "REF");
    line
}

/// A cache.
pub open spec fn cache_row(cache: ActionsCacheView, now: Timestamp) -> Seq<char> {
    left(decimal(cache.id as nat), 12) + " "@ + left(cache.repository.full_name, 40) + " "@ + left(cache.key, 30) + " "@ + right(written_size(cache.size_in_bytes), 12) + " "@ + right(written_age(now.since(cache.created_at) as u64), 9) + " "@ + right(written_age(now.since(cache.last_accessed_at) as u64), 9) + " "@ + cache.git_ref
}

fn write_cache_row(cache: &ActionsCache, now: Timestamp) -> (result: String)
    ensures
        result@ == cache_row(cache.deep_view(), now),
{
    let mut line = to_left(number(cache.id).as_str(), 12);
    add_left(&mut line, cache.repository.full_name.as_str(), 40);
    add_left(&mut line, cache.key.as_str(), 30);
    add_right(&mut line, format_bytes(cache.size_in_bytes).as_str(), 12);
    add_right(&mut line, format_age(cache.age_seconds(now)).as_str(), 9);
    add_right(&mut line, format_age(cache.unused_seconds(now)).as_str(), 9);
    add_last(&mut line, cache.git_ref.as_str());
    line
}

pub open spec fn cache_group_heading() -> Seq<char> {
    left("GROUP"@, 48) + " "@ + right("CACHES"@, 10) + " "@ + right("STORAGE"@, 14)
}

fn write_cache_group_heading() -> (result: String)
    ensures
        result@ == cache_group_heading(),
{
    let mut line = to_left("GROUP", 48);
    add_right(&mut line, "CACHES", 10);
    add_right(&mut line, "STORAGE", 14);
    line
}

/// A group of caches.
pub open spec fn cache_group_row(bucket: StorageBucketView) -> Seq<char> {
    left(bucket.key, 48) + " "@ + right(decimal(bucket.artifact_count as nat), 10) + " "@ + right(written_size(bucket.bytes), 14)
}

fn write_cache_group_row(bucket: &CacheStorageBucket) -> (result: String)
    ensures
        result@ == cache_group_row(bucket.deep_view()),
{
    let mut line = to_left(bucket.key.as_str(), 48);
    add_right(&mut line, count_text(bucket.cache_count).as_str(), 10);
    add_right(&mut line, format_bytes(bucket.bytes).as_str(), 14);
    line
}

/// How many caches there are and how much they hold.
pub open spec fn cache_summary(caches: Seq<ActionsCacheView>) -> Seq<Seq<char>> {
    seq![
        "Caches:  "@ + decimal(caches.len()),
        "Storage: "@ + written_size(total::<ActionsCache>(caches) as u64),
        ""@,
    ]
}

fn write_cache_summary(caches: &Vec<ActionsCache>) -> (result: Vec<String>)
    requires
        total::<ActionsCache>(caches.deep_view()) <= u64::MAX,
    ensures
        result.deep_view() == cache_summary(caches.deep_view()),
{
    let mut lines: Vec<String> = nothing();
    add_to(&mut lines, join2("Caches:  ", count_text(caches.len()).as_str()));
    add_to(&mut lines, join2("Storage: ", format_bytes(total_of(caches)).as_str()));
    add_to(&mut lines, "".to_string());
    lines
}

/// Caches, one below the other.
pub open spec fn cache_lines(caches: Seq<ActionsCacheView>, now: Timestamp) -> Seq<Seq<char>> {
    cache_summary(caches) + seq![cache_heading()] + Seq::new(caches.len(), |k: int| cache_row(caches[k], now))
}

/// Describes caches.
pub fn describe_caches(caches: &Vec<ActionsCache>, now: Timestamp) -> (result: Vec<String>)
    requires
        total::<ActionsCache>(caches.deep_view()) <= u64::MAX,
    ensures
        result.deep_view() == cache_lines(caches.deep_view(), now),
{
    let mut lines = write_cache_summary(caches);
    add_all(&mut lines, single(write_cache_heading()));
    let ghost head = lines.deep_view();
    let ghost all = caches.deep_view();
    let mut i: usize = 0;
    assert(head + Seq::new(0, |k: int| cache_row(all[k], now)) =~= head);
    while i < caches.len()
        invariant
            all == caches.deep_view(),
            i <= caches.len(),
            lines.deep_view() == head + Seq::new(i as nat, |k: int| cache_row(all[k], now)),
        decreases caches.len() - i,
    {
        assert(all[i as int] == caches@[i as int].deep_view());
        add_to(&mut lines, write_cache_row(&caches[i], now));
        i = i + 1;
        assert(lines.deep_view() =~= head + Seq::new(i as nat, |k: int| cache_row(all[k], now)));
    }
    lines
}

/// Caches by groups.
pub open spec fn cache_group_lines(caches: Seq<ActionsCacheView>, groups: Seq<StorageBucketView>) -> Seq<Seq<char>> {
    cache_summary(caches) + seq![cache_group_heading()] + Seq::new(groups.len(), |k: int| cache_group_row(groups[k]))
}

/// Describes caches by their groups.
pub fn describe_cache_groups(caches: &Vec<ActionsCache>, groups: &Vec<CacheStorageBucket>) -> (result: Vec<String>)
    requires
        total::<ActionsCache>(caches.deep_view()) <= u64::MAX,
    ensures
        result.deep_view() == cache_group_lines(caches.deep_view(), groups.deep_view()),
{
    let mut lines = write_cache_summary(caches);
    add_all(&mut lines, single(write_cache_group_heading()));
    let ghost head = lines.deep_view();
    let ghost all = groups.deep_view();
    let mut i: usize = 0;
    assert(head + Seq::new(0, |k: int| cache_group_row(all[k])) =~= head);
    while i < groups.len()
        invariant
            all == groups.deep_view(),
            i <= groups.len(),
            lines.deep_view() == head + Seq::new(i as nat, |k: int| cache_group_row(all[k])),
        decreases groups.len() - i,
    {
        assert(all[i as int] == groups@[i as int].deep_view());
        add_to(&mut lines, write_cache_group_row(&groups[i]));
        i = i + 1;
        assert(lines.deep_view() =~= head + Seq::new(i as nat, |k: int| cache_group_row(all[k])));
    }
    lines
}

/// Why something was decided.
pub open spec fn reason_line(code: Seq<char>, rule_id: Option<Seq<char>>, explanation: Seq<char>) -> Seq<char> {
    "  -> "@ + code + " [rule: "@ + or(rule_id, "<default>"@) + "]: "@ + explanation
}

pub open spec fn cache_decision_heading() -> Seq<char> {
    left("ID"@, 12) + " "@ + left("REPOSITORY"@, 40) + " "@ + left("KEY"@, 30) + " "@ + right("SIZE"@, 12) + " "@ + left("DECISION"@, 15) + " "@ + "REF"@
}

fn write_cache_decision_heading() -> (result: String)
    ensures
        result@ == cache_decision_heading(),
{
    let mut line = to_left("ID", 12);
    add_left(&mut line, "REPOSITORY", 40);
    add_left(&mut line, "KEY", 30);
    add_right(&mut line, "SIZE", 12);
    add_left(&mut line, "DECISION", 15);
    add_last(&mut line, "REF");
    line
}

/// What was decided about a cache.
pub open spec fn cache_decision_row(item: CacheDecisionView) -> Seq<char> {
    left(decimal(item.cache_id as nat), 12) + " "@ + left(item.repository, 40) + " "@ + left(item.key, 30) + " "@ + right(written_size(item.size_in_bytes), 12) + " "@ + left(decision_name(item.decision), 15) + " "@ + item.git_ref
}

fn write_cache_decision_row(item: &CacheDecision) -> (result: String)
    ensures
        result@ == cache_decision_row(item.deep_view()),
{
    let mut line = to_left(number(item.cache_id).as_str(), 12);
    add_left(&mut line, item.repository.as_str(), 40);
    add_left(&mut line, item.key.as_str(), 30);
    add_right(&mut line, format_bytes(item.size_in_bytes).as_str(), 12);
    add_left(&mut line, decision_label(item.decision), 15);
    add_last(&mut line, item.git_ref.as_str());
    line
}

/// What was decided about a cache and, if that is asked, why.
pub open spec fn cache_decision_lines(item: CacheDecisionView, explain: bool) -> Seq<Seq<char>> {
    seq![cache_decision_row(item)] + if explain {
        Seq::new(
            item.reasons.len(),
            |k: int| reason_line(item.reasons[k].code.text(), item.reasons[k].rule_id, item.reasons[k].explanation),
        )
    } else {
        Seq::empty()
    }
}

fn write_cache_decision(item: &CacheDecision, explain: bool) -> (result: Vec<String>)
    ensures
        result.deep_view() == cache_decision_lines(item.deep_view(), explain),
{
    let mut lines = single(write_cache_decision_row(item));
    if !explain {
        assert(lines.deep_view() =~= cache_decision_lines(item.deep_view(), explain));
        return lines;
    }
    let reasons = &item.reasons;
    let ghost head = lines.deep_view();
    let ghost all = reasons.deep_view();
    let mut i: usize = 0;
    assert(head + Seq::new(0, |k: int| reason_line(all[k].code.text(), all[k].rule_id, all[k].explanation)) =~= head);
    while i < reasons.len()
        invariant
            all == reasons.deep_view(),
            i <= reasons.len(),
            lines.deep_view() == head + Seq::new(i as nat, |k: int| reason_line(all[k].code.text(), all[k].rule_id, all[k].explanation)),
        decreases reasons.len() - i,
    {
        assert(all[i as int] == reasons@[i as int].deep_view());
        add_to(&mut lines, join6(
                "  -> ",
                reasons[i].code.as_str(),
                " [rule: ",
                text_or(&reasons[i].rule_id, "<default>"),
                "]: ",
                reasons[i].explanation.as_str(),
            ));
        i = i + 1;
        assert(lines.deep_view() =~= head + Seq::new(i as nat, |k: int| reason_line(all[k].code.text(), all[k].rule_id, all[k].explanation)));
    }
    lines
}

/// What was decided about each cache.
pub open spec fn all_cache_decision_lines(items: Seq<CacheDecisionView>, explain: bool) -> Seq<Seq<char>>
    decreases items.len(),
{
    if items.len() == 0 {
        Seq::empty()
    } else {
        all_cache_decision_lines(items.drop_last(), explain) + cache_decision_lines(items.last(), explain)
    }
}

/// What a policy says of caches.
pub open spec fn cache_classification_lines(
    policy: Seq<char>,
    policy_hash: Seq<char>,
    caches: Seq<ActionsCacheView>,
    report: CacheClassificationReportView,
    explain: bool,
) -> Seq<Seq<char>> {
    let decided = verdicts(report.decisions);
    seq![
        "Policy:              "@ + policy,
        "Policy hash:         "@ + policy_hash,
        "Caches scanned:      "@ + decimal(caches.len()),
        "Current storage:     "@ + written_size(total::<ActionsCache>(caches) as u64),
        "Keep:                "@ + decimal(occurrences(decided, Decision::Keep)),
        "Protected:           "@ + decimal(occurrences(decided, Decision::Protected)),
        "Manual review:       "@ + decimal(occurrences(decided, Decision::ManualReview)),
        "Delete candidate:    "@ + decimal(occurrences(decided, Decision::Delete)),
        "Potential recovery:  "@ + written_size(capped(reclaimable(report.decisions))),
        ""@,
    ] + if report.decisions.len() == 0 {
        seq!["No caches were present in the selected scope."@]
    } else {
        seq![cache_decision_heading()] + all_cache_decision_lines(report.decisions, explain)
    }
}

/// Describes what a policy says of the caches of a snapshot.
pub fn describe_cache_classification(
    policy: &str,
    policy_hash: &str,
    snapshot: &CacheInventorySnapshot,
    report: &CacheClassificationReport,
    explain: bool,
) -> (result: Vec<String>)
    requires
        total::<ActionsCache>(snapshot.deep_view().caches) <= u64::MAX,
    ensures
        result.deep_view() == cache_classification_lines(
            policy@,
            policy_hash@,
            snapshot.deep_view().caches,
            report.deep_view(),
            explain,
        ),
{
    let mut lines: Vec<String> = nothing();
    add_to(&mut lines, join2("Policy:              ", policy));
    add_to(&mut lines, join2("Policy hash:         ", policy_hash));
    add_to(&mut lines, join2("Caches scanned:      ", count_text(snapshot.cache_count()).as_str()));
    add_to(&mut lines, join2("Current storage:     ", format_bytes(snapshot.total_bytes()).as_str()));
    add_to(&mut lines, join2("Keep:                ", count_text(report.count(Decision::Keep)).as_str()));
    add_to(&mut lines, join2("Protected:           ", count_text(report.count(Decision::Protected)).as_str()));
    add_to(&mut lines, join2("Manual review:       ", count_text(report.count(Decision::ManualReview)).as_str()));
    add_to(&mut lines, join2("Delete candidate:    ", count_text(report.count(Decision::Delete)).as_str()));
    add_to(&mut lines, join2("Potential recovery:  ", format_bytes(report.reclaimable_bytes()).as_str()));
    add_to(&mut lines, "".to_string());
    if report.decisions.len() == 0 {
        add_all(&mut lines, single("No caches were present in the selected scope.".to_string()));
        return lines;
    }
    let mut table = single(write_cache_decision_heading());
    let items = &report.decisions;
    let ghost all = items.deep_view();
    let ghost head = table.deep_view();
    let mut i: usize = 0;
    assert(all.take(0) =~= Seq::empty());
    assert(head + all_cache_decision_lines(all.take(0), explain) =~= head);
    while i < items.len()
        invariant
            all == items.deep_view(),
            i <= items.len(),
            table.deep_view() == head + all_cache_decision_lines(all.take(i as int), explain),
        decreases items.len() - i,
    {
        add_all(&mut table, write_cache_decision(&items[i], explain));
        i = i + 1;
        assert(all.take(i as int).drop_last() =~= all.take(i - 1));
        assert(all.take(i as int).last() == items@[i - 1].deep_view());
        assert(table.deep_view() =~= head + all_cache_decision_lines(all.take(i as int), explain));
    }
    assert(all.take(i as int) =~= all);
    add_all(&mut lines, table);
    lines
}

/// The first groups are written below a heading, in their order: all of them, or as many as the limit
/// lets.
pub proof fn groups_are_written_up_to_the_limit(buckets: Seq<StorageBucketView>, limit: Option<usize>, k: int)
    ensures
        ({
            let lines = bucket_lines(buckets, limit);
            &&& limit is None ==> lines.len() == 1 + buckets.len()
            &&& limit is Some && limit->0 >= buckets.len() ==> lines.len() == 1 + buckets.len()
            &&& limit is Some && limit->0 < buckets.len() ==> lines.len() == 1 + limit->0
            &&& 0 <= k < lines.len() - 1 ==> lines[1 + k] == bucket_row(buckets[k])
        }),
{
}

/// Artifacts, runs and caches are written one below the other, in their order, below their headings.
pub proof fn everything_is_written_in_its_order(
    artifacts: Seq<ArtifactView>,
    runs: Seq<WorkflowRunView>,
    caches: Seq<ActionsCacheView>,
    now: Timestamp,
    k: int,
)
    ensures
        artifact_lines(artifacts, now).len() == 1 + artifacts.len(),
        0 <= k < artifacts.len() ==> artifact_lines(artifacts, now)[1 + k] == artifact_row(artifacts[k], now),
        run_lines(runs, now).len() == 3 + runs.len(),
        run_lines(runs, now)[0] == "Workflow runs: "@ + decimal(runs.len()),
        0 <= k < runs.len() ==> run_lines(runs, now)[3 + k] == run_row(runs[k], now),
        cache_lines(caches, now).len() == 4 + caches.len(),
        cache_lines(caches, now)[0] == "Caches:  "@ + decimal(caches.len()),
        0 <= k < caches.len() ==> cache_lines(caches, now)[4 + k] == cache_row(caches[k], now),
{
}

/// A run is written with its number and that of its attempt.
pub proof fn a_run_is_written_with_its_attempt(run: WorkflowRunView)
    ensures
        attempt_name(run) == "#"@ + decimal(run.run_number as nat) + "."@ + decimal(run.run_attempt as nat),
{
}

/// Where the number of requests that are left is not known, that is said.
pub proof fn an_unknown_number_is_said_to_be_unknown(remaining: Option<u64>, at: Option<Timestamp>)
    ensures
        remaining is None ==> remaining_text(remaining) == "unknown"@,
        remaining is Some ==> remaining_text(remaining) == decimal(remaining->0 as nat),
        at is None ==> expiry(at) == "unknown"@,
{
}

/// What was decided about a cache is written in a row; with all reasons below, in their order, where
/// that is asked for.
pub proof fn cache_reasons_are_written_where_asked_for(item: CacheDecisionView, k: int)
    ensures
        cache_decision_lines(item, false).len() == 1,
        cache_decision_lines(item, true).len() == 1 + item.reasons.len(),
        cache_decision_lines(item, true)[0] == cache_decision_row(item),
        cache_decision_lines(item, false)[0] == cache_decision_row(item),
        0 <= k < item.reasons.len() ==> cache_decision_lines(item, true)[1 + k] == "  -> "@
            + item.reasons[k].code.text() + " [rule: "@ + (if item.reasons[k].rule_id is Some {
            item.reasons[k].rule_id->0
        } else {
            "<default>"@
        }) + "]: "@ + item.reasons[k].explanation,
{
}

/// A scan is written with what it found and, where something was left out, how often; the twenty
/// largest repositories follow.
pub proof fn a_scan_is_written_with_its_numbers(
    snapshot: InventorySnapshotView,
    buckets: Seq<StorageBucketView>,
    elapsed: Seq<char>,
)
    ensures
        ({
            let lines = scan_lines(snapshot, buckets, elapsed);
            let shown: int = if buckets.len() < 20 {
                buckets.len() as int
            } else {
                20
            };
            &&& lines[0] == "Account:          "@ + snapshot.account.login
            &&& lines[1] == "Repositories:     "@ + decimal(snapshot.repositories.len())
            &&& lines[2] == "Artifacts:        "@ + decimal(snapshot.artifacts.len())
            &&& lines[4] == "API requests:     "@ + decimal(snapshot.telemetry.api_requests as nat)
            &&& snapshot.issues.len() == 0 ==> lines.len() == 10 + shown
            &&& snapshot.issues.len() > 0 ==> lines.len() == 11 + shown && lines[7] == "Scan issues:      "@ + decimal(
                snapshot.issues.len(),
            )
        }),
{
}

/// Repositories and groups of caches are written one below the other, in their order.
pub proof fn repositories_and_groups_are_written_in_order(
    account: AccountView,
    repositories: Seq<RepositoryView>,
    caches: Seq<ActionsCacheView>,
    groups: Seq<StorageBucketView>,
    k: int,
)
    ensures
        repository_lines(account, repositories).len() == 3 + repositories.len(),
        repository_lines(account, repositories)[0] == "Account: "@ + account.login,
        0 <= k < repositories.len() ==> repository_lines(account, repositories)[3 + k] == repository_row(
            repositories[k],
        ),
        cache_group_lines(caches, groups).len() == 4 + groups.len(),
        cache_group_lines(caches, groups)[0] == "Caches:  "@ + decimal(caches.len()),
        0 <= k < groups.len() ==> cache_group_lines(caches, groups)[4 + k] == cache_group_row(groups[k]),
{
}

/// Statistics are written with how many artifacts there are, and all groups, in their order.
pub proof fn statistics_are_written_with_all_groups(
    snapshot: InventorySnapshotView,
    buckets: Seq<StorageBucketView>,
    k: int,
)
    ensures
        statistic_lines(snapshot, buckets).len() == 4 + buckets.len(),
        statistic_lines(snapshot, buckets)[0] == "Artifacts: "@ + decimal(snapshot.artifacts.len()),
        0 <= k < buckets.len() ==> statistic_lines(snapshot, buckets)[4 + k] == bucket_row(buckets[k]),
{
}

/// What was decided about all caches is written in their order, the reasons of each below it where
/// they are asked for.
pub proof fn all_cache_decisions_are_written_in_order(
    items: Seq<CacheDecisionView>,
    item: CacheDecisionView,
    explain: bool,
)
    ensures
        all_cache_decision_lines(Seq::empty(), explain).len() == 0,
        all_cache_decision_lines(items.push(item), explain) == all_cache_decision_lines(items, explain)
            + cache_decision_lines(item, explain),
{
    assert(items.push(item).drop_last() =~= items);
}

/// What a policy says of caches is written with how many are kept, protected, left to a person and
/// to be deleted; that there are none is said.
pub proof fn a_cache_classification_is_written_with_its_numbers(
    policy: Seq<char>,
    policy_hash: Seq<char>,
    caches: Seq<ActionsCacheView>,
    report: CacheClassificationReportView,
    explain: bool,
)
    ensures
        ({
            let lines = cache_classification_lines(policy, policy_hash, caches, report, explain);
            let decided = report.decisions;
            &&& lines[0] == "Policy:              "@ + policy
            &&& lines[1] == "Policy hash:         "@ + policy_hash
            &&& lines[2] == "Caches scanned:      "@ + decimal(caches.len())
            &&& lines[4] == "Keep:                "@ + decimal(
                tally(decided, |d: CacheDecisionView| d.decision == Decision::Keep),
            )
            &&& lines[5] == "Protected:           "@ + decimal(
                tally(decided, |d: CacheDecisionView| d.decision == Decision::Protected),
            )
            &&& lines[6] == "Manual review:       "@ + decimal(
                tally(decided, |d: CacheDecisionView| d.decision == Decision::ManualReview),
            )
            &&& lines[7] == "Delete candidate:    "@ + decimal(
                tally(decided, |d: CacheDecisionView| d.decision == Decision::Delete),
            )
            &&& decided.len() == 0 ==> lines.len() == 11 && lines[10] == "No caches were present in the selected scope."@
            &&& decided.len() > 0 ==> lines.skip(11) == all_cache_decision_lines(decided, explain)
        }),
{
    lemma_verdict_tally(report.decisions, Decision::Keep);
    lemma_verdict_tally(report.decisions, Decision::Protected);
    lemma_verdict_tally(report.decisions, Decision::ManualReview);
    lemma_verdict_tally(report.decisions, Decision::Delete);
    if report.decisions.len() > 0 {
        assert(cache_classification_lines(policy, policy_hash, caches, report, explain).skip(11)
            =~= all_cache_decision_lines(report.decisions, explain));
    }
}

proof fn lemma_verdict_tally(decisions: Seq<CacheDecisionView>, decision: Decision)
    ensures
        occurrences(verdicts(decisions), decision) == tally(
            decisions,
            |d: CacheDecisionView| d.decision == decision,
        ),
    decreases decisions.len(),
{
    if decisions.len() > 0 {
        lemma_verdict_tally(decisions.drop_last(), decision);
        assert(verdicts(decisions).drop_last() =~= verdicts(decisions.drop_last()));
        assert(verdicts(decisions).last() == decisions.last().decision);
    }
}

} // verus!
