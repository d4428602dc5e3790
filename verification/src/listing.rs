//! What is listed: which repositories, artifacts, caches and runs, and in which order.
use crate::execution::{ExecutionAuthorization, ExecutionAuthorizationKind, ExecutionReport, ExecutionReportView};
use crate::glob::{check_glob, compilable, glob_error, lets_through, matches_optional_glob};
use crate::inventory::{optional_text, scan_concurrency};
use crate::model::{
    ActionsCache, ActionsCacheView, Artifact, ArtifactView, ScanOptions, ScanOptionsView, ScanScope, ScanScopeView,
    WorkflowRun, WorkflowRunInventorySnapshot, WorkflowRunInventorySnapshotView, WorkflowRunView,
};
use crate::order::{
    distinct, distinct_elements_stand_once_in_order, key_less, keys_identify, le, lemma_four_parts,
    lemma_three_parts, lemma_two_parts, sort, sort_distinct, sorted,
    sorting_is_an_ordered_rearrangement, Ascending, KeyPart, Order, Part,
};
use crate::policy::config::{fits, is_glob};
use crate::run_purge::{RunPurgeSelection, RunPurgeSelectionMode, RunPurgeSelectionView};
use crate::run_purge_flow::{RunPurgeExecutionReport, RunPurgeExecutionReportView};
use crate::text::{
    case_is_disregarded, decimal, eq_ignore_ascii_case, equal_but_for_case, join, join2, join3, join7, joined,
    lemma_text_less_irreflexive, number, same_ignoring_case, same_text, text_less, trim, trimmed,
};
use crate::time::Timestamp;
use crate::value::{add_to, nothing, Value};
use vstd::prelude::*;

verus! {

/// How artifacts are ordered.
#[derive(Clone, Copy, Debug, PartialEq, Eq, Structural)]
pub enum ArtifactSort {
    Size,
    Age,
    Name,
    Repository,
}

impl DeepView for ArtifactSort {
    type V = ArtifactSort;

    open spec fn deep_view(&self) -> ArtifactSort {
        *self
    }
}

impl Value for ArtifactSort {
    fn copied(&self) -> (result: Self) {
        *self
    }

    fn same(&self, other: &Self) -> (result: bool) {
        *self == *other
    }
}

/// How workflow runs are ordered.
#[derive(Clone, Copy, Debug, PartialEq, Eq, Structural)]
pub enum RunSort {
    Age,
    Workflow,
    Branch,
    Repository,
}

impl DeepView for RunSort {
    type V = RunSort;

    open spec fn deep_view(&self) -> RunSort {
        *self
    }
}

impl Value for RunSort {
    fn copied(&self) -> (result: Self) {
        *self
    }

    fn same(&self, other: &Self) -> (result: bool) {
        *self == *other
    }
}

/// How caches are ordered.
#[derive(Clone, Copy, Debug, PartialEq, Eq, Structural)]
pub enum CacheSort {
    Size,
    Created,
    LastAccessed,
    Key,
    Repository,
}

impl DeepView for CacheSort {
    type V = CacheSort;

    open spec fn deep_view(&self) -> CacheSort {
        *self
    }
}

impl Value for CacheSort {
    fn copied(&self) -> (result: Self) {
        *self
    }

    fn same(&self, other: &Self) -> (result: bool) {
        *self == *other
    }
}

/// Which artifacts are listed.
#[derive(Clone, Debug, PartialEq, Eq)]
pub struct ArtifactFilter {
    pub name: Option<String>,
    pub older_than: Option<u64>,
}

/// The contents of [`ArtifactFilter`].
#[verifier::ext_equal]
pub struct ArtifactFilterView {
    pub name: Option<Seq<char>>,
    pub older_than: Option<u64>,
}

impl DeepView for ArtifactFilter {
    type V = ArtifactFilterView;

    open spec fn deep_view(&self) -> ArtifactFilterView {
        ArtifactFilterView {
            name: self.name.deep_view(),
            older_than: self.older_than,
        }
    }
}

/// Which workflow runs are listed.
#[derive(Clone, Debug, PartialEq, Eq)]
pub struct RunFilter {
    pub workflow: Option<String>,
    pub branch: Option<String>,
    pub event: Option<String>,
    pub status: Option<String>,
    pub conclusion: Option<String>,
    pub completed_only: bool,
    pub older_than: Option<u64>,
}

/// The contents of [`RunFilter`].
#[verifier::ext_equal]
pub struct RunFilterView {
    pub workflow: Option<Seq<char>>,
    pub branch: Option<Seq<char>>,
    pub event: Option<Seq<char>>,
    pub status: Option<Seq<char>>,
    pub conclusion: Option<Seq<char>>,
    pub completed_only: bool,
    pub older_than: Option<u64>,
}

impl DeepView for RunFilter {
    type V = RunFilterView;

    open spec fn deep_view(&self) -> RunFilterView {
        RunFilterView {
            workflow: self.workflow.deep_view(),
            branch: self.branch.deep_view(),
            event: self.event.deep_view(),
            status: self.status.deep_view(),
            conclusion: self.conclusion.deep_view(),
            completed_only: self.completed_only,
            older_than: self.older_than,
        }
    }
}

/// Which caches are listed.
#[derive(Clone, Debug, PartialEq, Eq)]
pub struct CacheFilter {
    pub key: Option<String>,
    pub git_ref: Option<String>,
    pub older_than: Option<u64>,
    pub unused_for: Option<u64>,
}

/// The contents of [`CacheFilter`].
#[verifier::ext_equal]
pub struct CacheFilterView {
    pub key: Option<Seq<char>>,
    pub git_ref: Option<Seq<char>>,
    pub older_than: Option<u64>,
    pub unused_for: Option<u64>,
}

impl DeepView for CacheFilter {
    type V = CacheFilterView;

    open spec fn deep_view(&self) -> CacheFilterView {
        CacheFilterView {
            key: self.key.deep_view(),
            git_ref: self.git_ref.deep_view(),
            older_than: self.older_than,
            unused_for: self.unused_for,
        }
    }
}

/// A text, or an empty one.
pub open spec fn text_or_nothing(text: Option<Seq<char>>) -> Seq<char> {
    match text {
        Some(text) => text,
        None => ""@,
    }
}

fn or_nothing(text: &Option<String>) -> (result: String)
    ensures
        result@ == text_or_nothing(text.deep_view()),
{
    match text {
        Some(text) => text.copied(),
        None => "".to_string(),
    }
}

/// The order of listed artifacts.
pub struct ArtifactListingOrder {
    pub by_what: ArtifactSort,
}

impl Order<Artifact> for ArtifactListingOrder {
    open spec fn key(&self, value: ArtifactView) -> Seq<Part> {
        match self.by_what {
            ArtifactSort::Size => seq![
                Part::Number(-(value.size_in_bytes as int)),
                Part::Text(value.repository.full_name),
                Part::Text(value.name),
            ],
            ArtifactSort::Age => seq![
                Part::Number(value.created_at.rank()),
                Part::Text(value.repository.full_name),
            ],
            ArtifactSort::Name => seq![
                Part::Text(value.name),
                Part::Text(value.repository.full_name),
            ],
            ArtifactSort::Repository => seq![
                Part::Text(value.repository.full_name),
                Part::Text(value.name),
            ],
        }
    }

    fn key_of(&self, item: &Artifact) -> (result: Vec<KeyPart>) {
        let result = match self.by_what {
            ArtifactSort::Size => {
                let part0: i128 = -(item.size_in_bytes as i128);
                let part1: String = item.repository.full_name.copied();
                let part2: String = item.name.copied();
                vec![KeyPart::Number(part0), KeyPart::Text(part1), KeyPart::Text(part2)]
            },
            ArtifactSort::Age => {
                let part0: i128 = item.created_at.rising();
                let part1: String = item.repository.full_name.copied();
                vec![KeyPart::Number(part0), KeyPart::Text(part1)]
            },
            ArtifactSort::Name => {
                let part0: String = item.name.copied();
                let part1: String = item.repository.full_name.copied();
                vec![KeyPart::Text(part0), KeyPart::Text(part1)]
            },
            ArtifactSort::Repository => {
                let part0: String = item.repository.full_name.copied();
                let part1: String = item.name.copied();
                vec![KeyPart::Text(part0), KeyPart::Text(part1)]
            },
        };
        assert(result.deep_view() =~= self.key(item.deep_view()));
        result
    }
}

/// The order of listed runs.
pub struct RunListingOrder {
    pub by_what: RunSort,
}

impl Order<WorkflowRun> for RunListingOrder {
    open spec fn key(&self, value: WorkflowRunView) -> Seq<Part> {
        match self.by_what {
            RunSort::Age => seq![
                Part::Number(value.created_at.rank()),
                Part::Text(value.repository.full_name),
                Part::Number(value.id as int),
            ],
            RunSort::Workflow => seq![
                Part::Text(text_or_nothing(value.workflow_name)),
                Part::Text(value.repository.full_name),
                Part::Number(-value.created_at.rank()),
            ],
            RunSort::Branch => seq![
                Part::Text(text_or_nothing(value.head_branch)),
                Part::Text(value.repository.full_name),
                Part::Number(-value.created_at.rank()),
            ],
            RunSort::Repository => seq![
                Part::Text(value.repository.full_name),
                Part::Number(-value.created_at.rank()),
                Part::Number(value.id as int),
            ],
        }
    }

    fn key_of(&self, item: &WorkflowRun) -> (result: Vec<KeyPart>) {
        let result = match self.by_what {
            RunSort::Age => {
                let part0: i128 = item.created_at.rising();
                let part1: String = item.repository.full_name.copied();
                let part2: i128 = item.id as i128;
                vec![KeyPart::Number(part0), KeyPart::Text(part1), KeyPart::Number(part2)]
            },
            RunSort::Workflow => {
                let part0: String = or_nothing(&item.workflow_name);
                let part1: String = item.repository.full_name.copied();
                let part2: i128 = item.created_at.falling();
                vec![KeyPart::Text(part0), KeyPart::Text(part1), KeyPart::Number(part2)]
            },
            RunSort::Branch => {
                let part0: String = or_nothing(&item.head_branch);
                let part1: String = item.repository.full_name.copied();
                let part2: i128 = item.created_at.falling();
                vec![KeyPart::Text(part0), KeyPart::Text(part1), KeyPart::Number(part2)]
            },
            RunSort::Repository => {
                let part0: String = item.repository.full_name.copied();
                let part1: i128 = item.created_at.falling();
                let part2: i128 = item.id as i128;
                vec![KeyPart::Text(part0), KeyPart::Number(part1), KeyPart::Number(part2)]
            },
        };
        assert(result.deep_view() =~= self.key(item.deep_view()));
        result
    }
}

/// The order of listed caches.
pub struct CacheListingOrder {
    pub by_what: CacheSort,
}

impl Order<ActionsCache> for CacheListingOrder {
    open spec fn key(&self, value: ActionsCacheView) -> Seq<Part> {
        match self.by_what {
            CacheSort::Size => seq![
                Part::Number(-(value.size_in_bytes as int)),
                Part::Text(value.repository.full_name),
                Part::Text(value.key),
                Part::Number(value.id as int),
            ],
            CacheSort::Created => seq![
                Part::Number(value.created_at.rank()),
                Part::Text(value.repository.full_name),
                Part::Number(value.id as int),
            ],
            CacheSort::LastAccessed => seq![
                Part::Number(value.last_accessed_at.rank()),
                Part::Text(value.repository.full_name),
                Part::Number(value.id as int),
            ],
            CacheSort::Key => seq![
                Part::Text(value.key),
                Part::Text(value.repository.full_name),
                Part::Number(value.id as int),
            ],
            CacheSort::Repository => seq![
                Part::Text(value.repository.full_name),
                Part::Text(value.key),
                Part::Number(value.id as int),
            ],
        }
    }

    fn key_of(&self, item: &ActionsCache) -> (result: Vec<KeyPart>) {
        let result = match self.by_what {
            CacheSort::Size => {
                let part0: i128 = -(item.size_in_bytes as i128);
                let part1: String = item.repository.full_name.copied();
                let part2: String = item.key.copied();
                let part3: i128 = item.id as i128;
                vec![KeyPart::Number(part0), KeyPart::Text(part1), KeyPart::Text(part2), KeyPart::Number(part3)]
            },
            CacheSort::Created => {
                let part0: i128 = item.created_at.rising();
                let part1: String = item.repository.full_name.copied();
                let part2: i128 = item.id as i128;
                vec![KeyPart::Number(part0), KeyPart::Text(part1), KeyPart::Number(part2)]
            },
            CacheSort::LastAccessed => {
                let part0: i128 = item.last_accessed_at.rising();
                let part1: String = item.repository.full_name.copied();
                let part2: i128 = item.id as i128;
                vec![KeyPart::Number(part0), KeyPart::Text(part1), KeyPart::Number(part2)]
            },
            CacheSort::Key => {
                let part0: String = item.key.copied();
                let part1: String = item.repository.full_name.copied();
                let part2: i128 = item.id as i128;
                vec![KeyPart::Text(part0), KeyPart::Text(part1), KeyPart::Number(part2)]
            },
            CacheSort::Repository => {
                let part0: String = item.repository.full_name.copied();
                let part1: String = item.key.copied();
                let part2: i128 = item.id as i128;
                vec![KeyPart::Text(part0), KeyPart::Text(part1), KeyPart::Number(part2)]
            },
        };
        assert(result.deep_view() =~= self.key(item.deep_view()));
        result
    }
}

// ---------------------------------------------------------------------------------------------
// What is scanned.
// ---------------------------------------------------------------------------------------------

/// The scope that is asked for: a repository, else an owner, else all.
pub open spec fn scope_asked(owner: Option<Seq<char>>, repository: Option<Seq<char>>) -> ScanScopeView {
    match (repository, owner) {
        (Some(repository), _) => ScanScopeView::Repository(repository),
        (None, Some(owner)) => ScanScopeView::Owner(owner),
        (None, None) => ScanScopeView::AllAccessible,
    }
}

/// The scope that is asked for: a repository, else an owner, else all.
pub fn scope(owner: Option<&str>, repository: Option<&str>) -> (result: ScanScope)
    ensures
        result.deep_view() == scope_asked(optional_text(owner), optional_text(repository)),
{
    match (repository, owner) {
        (Some(repository), _) => ScanScope::Repository(repository.to_string()),
        (None, Some(owner)) => ScanScope::Owner(owner.to_string()),
        (None, None) => ScanScope::AllAccessible,
    }
}

/// What to scan, with between one and sixteen repositories at a time.
pub fn scan_options(
    owner: Option<&str>,
    repository: Option<&str>,
    exclude_repositories: Vec<String>,
    concurrency: usize,
) -> (result: ScanOptions)
    ensures
        result.deep_view() == (ScanOptionsView {
            scope: scope_asked(optional_text(owner), optional_text(repository)),
            exclude_repositories: exclude_repositories.deep_view(),
            concurrency: if concurrency < 1 {
                1
            } else if concurrency > 16 {
                16
            } else {
                concurrency
            },
        }),
{
    ScanOptions {
        scope: scope(owner, repository),
        exclude_repositories,
        concurrency: scan_concurrency(concurrency),
    }
}

// ---------------------------------------------------------------------------------------------
// Filters.
// ---------------------------------------------------------------------------------------------

pub open spec fn compiles(pattern: Option<Seq<char>>) -> bool {
    match pattern {
        Some(pattern) => compilable(pattern),
        None => true,
    }
}

/// Why a pattern is none, after `before`.
pub open spec fn pattern_problem(pattern: Option<Seq<char>>, before: Seq<char>) -> Option<Seq<char>> {
    match pattern {
        Some(pattern) => if glob_error(pattern) is Some {
            Some(before + pattern)
        } else {
            None
        },
        None => None,
    }
}

/// Checks a pattern, where there is one. `before` leads what is said of one that is none.
pub fn check_pattern(pattern: &Option<String>, before: &str) -> (result: Result<(), String>)
    ensures
        match pattern_problem(pattern.deep_view(), before@) {
            Some(problem) => result is Err && result->Err_0@ == problem,
            None => result is Ok,
        },
{
    if let Some(pattern) = pattern {
        if check_glob(pattern.as_str()).is_some() {
            return Err(join2(before, pattern.as_str()));
        }
    }
    Ok(())
}

/// Whether something is old enough, where an age is asked for.
pub open spec fn old_enough(age: int, asked: Option<u64>) -> bool {
    match asked {
        Some(seconds) => age >= seconds,
        None => true,
    }
}

/// Whether a text is the one that is asked for, whatever its case, where one is.
pub open spec fn as_asked(text: Option<Seq<char>>, asked: Option<Seq<char>>) -> bool {
    match (asked, text) {
        (None, _) => true,
        (Some(_), None) => false,
        (Some(asked), Some(text)) => same_ignoring_case(text, asked),
    }
}

fn is_old_enough(age: u64, asked: Option<u64>) -> (result: bool)
    ensures
        result == old_enough(age as int, asked),
{
    match asked {
        Some(seconds) => age >= seconds,
        None => true,
    }
}

fn is_as_asked(text: Option<&str>, asked: &Option<String>) -> (result: bool)
    ensures
        result == as_asked(optional_text(text), asked.deep_view()),
{
    match (asked, text) {
        (None, _) => true,
        (Some(_), None) => false,
        (Some(asked), Some(text)) => eq_ignore_ascii_case(text, asked.as_str()),
    }
}

fn as_text(text: &Option<String>) -> (result: Option<&str>)
    ensures
        optional_text(result) == text.deep_view(),
{
    match text {
        Some(text) => Some(text.as_str()),
        None => None,
    }
}

impl ArtifactFilterView {
    pub open spec fn compiles(self) -> bool {
        compiles(self.name)
    }

    /// Whether an artifact is let through, by whether its name is.
    pub open spec fn passes(self, artifact: ArtifactView, now: Timestamp, name_matches: bool) -> bool {
        name_matches && old_enough(now.since(artifact.created_at), self.older_than)
    }
}

impl ArtifactFilter {
    /// Whether an artifact is let through, by whether its name is.
    pub fn lets(&self, artifact: &Artifact, now: Timestamp, name_matches: bool) -> (result: bool)
        ensures
            result == self.deep_view().passes(artifact.deep_view(), now, name_matches),
    {
        name_matches && is_old_enough(artifact.age_seconds(now), self.older_than)
    }
}

impl RunFilterView {
    pub open spec fn compiles(self) -> bool {
        compiles(self.workflow) && compiles(self.branch)
    }

    /// Whether a run is let through, by whether its workflow and its branch are.
    pub open spec fn passes(
        self,
        run: WorkflowRunView,
        now: Timestamp,
        workflow_matches: bool,
        branch_matches: bool,
    ) -> bool {
        &&& workflow_matches
        &&& branch_matches
        &&& as_asked(Some(run.event), self.event)
        &&& as_asked(Some(run.status), self.status)
        &&& as_asked(run.conclusion, self.conclusion)
        &&& self.completed_only ==> run.completed()
        &&& old_enough(now.since(run.created_at), self.older_than)
    }
}

impl RunFilter {
    /// Whether a run is let through, by whether its workflow and its branch are.
    pub fn lets(&self, run: &WorkflowRun, now: Timestamp, workflow_matches: bool, branch_matches: bool) -> (result:
        bool)
        ensures
            result == self.deep_view().passes(run.deep_view(), now, workflow_matches, branch_matches),
    {
        workflow_matches && branch_matches && is_as_asked(Some(run.event.as_str()), &self.event) && is_as_asked(
            Some(run.status.as_str()),
            &self.status,
        ) && is_as_asked(as_text(&run.conclusion), &self.conclusion) && (!self.completed_only || run.is_completed())
            && is_old_enough(run.age_seconds(now), self.older_than)
    }
}

impl CacheFilterView {
    pub open spec fn compiles(self) -> bool {
        compiles(self.key) && compiles(self.git_ref)
    }

    /// Whether a cache is let through, by whether its key and its ref are.
    pub open spec fn passes(self, cache: ActionsCacheView, now: Timestamp, key_matches: bool, ref_matches: bool) -> bool {
        &&& key_matches
        &&& ref_matches
        &&& old_enough(now.since(cache.created_at), self.older_than)
        &&& old_enough(now.since(cache.last_accessed_at), self.unused_for)
    }
}

impl CacheFilter {
    /// Whether a cache is let through, by whether its key and its ref are.
    pub fn lets(&self, cache: &ActionsCache, now: Timestamp, key_matches: bool, ref_matches: bool) -> (result: bool)
        ensures
            result == self.deep_view().passes(cache.deep_view(), now, key_matches, ref_matches),
    {
        key_matches && ref_matches && is_old_enough(cache.age_seconds(now), self.older_than) && is_old_enough(
            cache.unused_seconds(now),
            self.unused_for,
        )
    }
}

/// The artifacts that a filter lets through.
pub open spec fn kept_artifacts(filter: ArtifactFilterView, artifacts: Seq<ArtifactView>, now: Timestamp) -> Seq<ArtifactView>
    decreases artifacts.len(),
{
    if artifacts.len() == 0 {
        Seq::empty()
    } else {
        let rest = kept_artifacts(filter, artifacts.drop_last(), now);
        let artifact = artifacts.last();
        if filter.passes(artifact, now, lets_through(filter.name, Some(artifact.name))) {
            rest.push(artifact)
        } else {
            rest
        }
    }
}

/// The artifacts that a filter lets through, in their order.
pub fn filter_artifacts(artifacts: &Vec<Artifact>, filter: &ArtifactFilter, now: Timestamp) -> (result: Vec<Artifact>)
    requires
        filter.deep_view().compiles(),
    ensures
        result.deep_view() == kept_artifacts(filter.deep_view(), artifacts.deep_view(), now),
{
    let ghost all = artifacts.deep_view();
    let mut result: Vec<Artifact> = nothing();
    let mut i: usize = 0;
    assert(all.take(0) =~= Seq::empty());
    while i < artifacts.len()
        invariant
            i <= artifacts.len(),
            all == artifacts.deep_view(),
            filter.deep_view().compiles(),
            result.deep_view() == kept_artifacts(filter.deep_view(), all.take(i as int), now),
        decreases artifacts.len() - i,
    {
        assert(all.take(i + 1).drop_last() =~= all.take(i as int));
        assert(all.take(i + 1).last() == artifacts@[i as int].deep_view());
        let artifact = &artifacts[i];
        if filter.lets(artifact, now, matches_optional_glob(&filter.name, Some(artifact.name.as_str()))) {
            add_to(&mut result, artifact.copied());
        }
        i = i + 1;
    }
    assert(all.take(i as int) =~= all);
    result
}

/// The runs that a filter lets through.
pub open spec fn kept_runs(filter: RunFilterView, runs: Seq<WorkflowRunView>, now: Timestamp) -> Seq<WorkflowRunView>
    decreases runs.len(),
{
    if runs.len() == 0 {
        Seq::empty()
    } else {
        let rest = kept_runs(filter, runs.drop_last(), now);
        let run = runs.last();
        if filter.passes(run, now, lets_through(filter.workflow, run.workflow_name), lets_through(filter.branch, run.head_branch)) {
            rest.push(run)
        } else {
            rest
        }
    }
}

/// The runs that a filter lets through, in their order.
pub fn filter_runs(runs: &Vec<WorkflowRun>, filter: &RunFilter, now: Timestamp) -> (result: Vec<WorkflowRun>)
    requires
        filter.deep_view().compiles(),
    ensures
        result.deep_view() == kept_runs(filter.deep_view(), runs.deep_view(), now),
{
    let ghost all = runs.deep_view();
    let mut result: Vec<WorkflowRun> = nothing();
    let mut i: usize = 0;
    assert(all.take(0) =~= Seq::empty());
    while i < runs.len()
        invariant
            i <= runs.len(),
            all == runs.deep_view(),
            filter.deep_view().compiles(),
            result.deep_view() == kept_runs(filter.deep_view(), all.take(i as int), now),
        decreases runs.len() - i,
    {
        assert(all.take(i + 1).drop_last() =~= all.take(i as int));
        assert(all.take(i + 1).last() == runs@[i as int].deep_view());
        let run = &runs[i];
        if filter.lets(run, now, matches_optional_glob(&filter.workflow, as_text(&run.workflow_name)), matches_optional_glob(&filter.branch, as_text(&run.head_branch))) {
            add_to(&mut result, run.copied());
        }
        i = i + 1;
    }
    assert(all.take(i as int) =~= all);
    result
}

/// The caches that a filter lets through.
pub open spec fn kept_caches(filter: CacheFilterView, caches: Seq<ActionsCacheView>, now: Timestamp) -> Seq<ActionsCacheView>
    decreases caches.len(),
{
    if caches.len() == 0 {
        Seq::empty()
    } else {
        let rest = kept_caches(filter, caches.drop_last(), now);
        let cache = caches.last();
        if filter.passes(cache, now, lets_through(filter.key, Some(cache.key)), lets_through(filter.git_ref, Some(cache.git_ref))) {
            rest.push(cache)
        } else {
            rest
        }
    }
}

/// The caches that a filter lets through, in their order.
pub fn filter_caches(caches: &Vec<ActionsCache>, filter: &CacheFilter, now: Timestamp) -> (result: Vec<ActionsCache>)
    requires
        filter.deep_view().compiles(),
    ensures
        result.deep_view() == kept_caches(filter.deep_view(), caches.deep_view(), now),
{
    let ghost all = caches.deep_view();
    let mut result: Vec<ActionsCache> = nothing();
    let mut i: usize = 0;
    assert(all.take(0) =~= Seq::empty());
    while i < caches.len()
        invariant
            i <= caches.len(),
            all == caches.deep_view(),
            filter.deep_view().compiles(),
            result.deep_view() == kept_caches(filter.deep_view(), all.take(i as int), now),
        decreases caches.len() - i,
    {
        assert(all.take(i + 1).drop_last() =~= all.take(i as int));
        assert(all.take(i + 1).last() == caches@[i as int].deep_view());
        let cache = &caches[i];
        if filter.lets(cache, now, matches_optional_glob(&filter.key, Some(cache.key.as_str())), matches_optional_glob(&filter.git_ref, Some(cache.git_ref.as_str()))) {
            add_to(&mut result, cache.copied());
        }
        i = i + 1;
    }
    assert(all.take(i as int) =~= all);
    result
}

/// The artifacts that a filter lets through, ordered.
pub fn list_artifacts(artifacts: &Vec<Artifact>, filter: &ArtifactFilter, by_what: ArtifactSort, now: Timestamp) -> (result: Vec<Artifact>)
    requires
        filter.deep_view().compiles(),
    ensures
        result.deep_view() == sorted::<Artifact, ArtifactListingOrder>(
            kept_artifacts(filter.deep_view(), artifacts.deep_view(), now),
            ArtifactListingOrder { by_what },
        ),
{
    sort(filter_artifacts(artifacts, filter, now), &ArtifactListingOrder { by_what })
}

/// The runs that a filter lets through, ordered.
pub fn list_runs(runs: &Vec<WorkflowRun>, filter: &RunFilter, by_what: RunSort, now: Timestamp) -> (result: Vec<WorkflowRun>)
    requires
        filter.deep_view().compiles(),
    ensures
        result.deep_view() == sorted::<WorkflowRun, RunListingOrder>(
            kept_runs(filter.deep_view(), runs.deep_view(), now),
            RunListingOrder { by_what },
        ),
{
    sort(filter_runs(runs, filter, now), &RunListingOrder { by_what })
}

/// The caches that a filter lets through, ordered.
pub fn list_caches(caches: &Vec<ActionsCache>, filter: &CacheFilter, by_what: CacheSort, now: Timestamp) -> (result: Vec<ActionsCache>)
    requires
        filter.deep_view().compiles(),
    ensures
        result.deep_view() == sorted::<ActionsCache, CacheListingOrder>(
            kept_caches(filter.deep_view(), caches.deep_view(), now),
            CacheListingOrder { by_what },
        ),
{
    sort(filter_caches(caches, filter, now), &CacheListingOrder { by_what })
}

/// At most `limit` of the values, where zero stands for all.
pub open spec fn limited<V>(values: Seq<V>, limit: usize) -> Seq<V> {
    if limit > 0 && values.len() > limit {
        values.take(limit as int)
    } else {
        values
    }
}

/// At most `limit` of the values, where zero stands for all.
pub fn limit_to<T>(values: Vec<T>, limit: usize) -> (result: Vec<T>)
    ensures
        result@ == limited(values@, limit),
{
    let mut values = values;
    if limit > 0 && values.len() > limit {
        values.truncate(limit);
        assert(values@ =~= values@.take(limit as int));
    }
    values
}

/// The newest of a history, which holds the oldest first: at most `limit`, where zero stands for
/// all.
pub fn newest_first<T>(history: Vec<T>, limit: usize) -> (result: Vec<T>)
    ensures
        result@ == limited(history@.reverse(), limit),
{
    let mut rest = history;
    let ghost all = rest@;
    let mut turned: Vec<T> = Vec::new();
    while rest.len() > 0
        invariant
            rest@.len() <= all.len(),
            rest@ == all.take(rest@.len() as int),
            turned@ == all.reverse().take(all.len() - rest@.len()),
        decreases rest.len(),
    {
        let ghost n = rest@.len() as int;
        if let Some(last) = rest.pop() {
            assert(last == all[n - 1]);
            turned.push(last);
            assert(rest@ =~= all.take(n - 1));
            assert(turned@ =~= all.reverse().take(all.len() - (n - 1)));
        }
    }
    assert(turned@ =~= all.reverse());
    limit_to(turned, limit)
}

/// Whether an execution touched a repository, where one is asked for.
pub open spec fn execution_touches(report: ExecutionReportView, repository: Option<Seq<char>>) -> bool {
    match repository {
        Some(repository) => exists|i: int|
            0 <= i < report.items.len() && same_ignoring_case((#[trigger] report.items[i]).repository, repository),
        None => true,
    }
}

/// Whether an execution touched a repository, where one is asked for.
pub fn history_record_matches_repository(report: &ExecutionReport, repository: Option<&str>) -> (result: bool)
    ensures
        result == execution_touches(report.deep_view(), optional_text(repository)),
{
    let repository = match repository {
        Some(repository) => repository,
        None => {
            return true;
        },
    };
    let ghost all = report.items.deep_view();
    let mut i: usize = 0;
    while i < report.items.len() && !eq_ignore_ascii_case(report.items[i].repository.as_str(), repository)
        invariant
            i <= report.items.len(),
            all == report.items.deep_view(),
            forall|k: int| 0 <= k < i ==> !same_ignoring_case((#[trigger] all[k]).repository, repository@),
        decreases report.items.len() - i,
    {
        i = i + 1;
    }
    if i < report.items.len() {
        assert(same_ignoring_case(all[i as int].repository, repository@));
    }
    i < report.items.len()
}

/// Whether a purge touched a repository, where one is asked for.
pub open spec fn purge_touches(report: RunPurgeExecutionReportView, repository: Option<Seq<char>>) -> bool {
    match repository {
        Some(repository) => exists|i: int|
            0 <= i < report.items.len() && same_ignoring_case(
                (#[trigger] report.items[i]).planned_run.repository.full_name,
                repository,
            ),
        None => true,
    }
}

/// Whether a purge touched a repository, where one is asked for.
pub fn run_purge_history_matches_repository(report: &RunPurgeExecutionReport, repository: Option<&str>) -> (result:
    bool)
    ensures
        result == purge_touches(report.deep_view(), optional_text(repository)),
{
    let repository = match repository {
        Some(repository) => repository,
        None => {
            return true;
        },
    };
    let ghost all = report.items.deep_view();
    let mut i: usize = 0;
    while i < report.items.len() && !eq_ignore_ascii_case(
        report.items[i].planned_run.repository.full_name.as_str(),
        repository,
    )
        invariant
            i <= report.items.len(),
            all == report.items.deep_view(),
            forall|k: int|
                0 <= k < i ==> !same_ignoring_case(
                    (#[trigger] all[k]).planned_run.repository.full_name,
                    repository@,
                ),
        decreases report.items.len() - i,
    {
        i = i + 1;
    }
    if i < report.items.len() {
        assert(same_ignoring_case(all[i as int].planned_run.repository.full_name, repository@));
    }
    i < report.items.len()
}

// ---------------------------------------------------------------------------------------------
// Permission to delete.
// ---------------------------------------------------------------------------------------------

/// What is granted, or why nothing is. A terminal's answer has to be the word itself, but for
/// white space around it.
pub open spec fn permission(
    yes: bool,
    terminal: bool,
    response: Option<Seq<char>>,
    word: Seq<char>,
    no_terminal: Seq<char>,
    not_confirmed: Seq<char>,
) -> Result<ExecutionAuthorizationKind, Seq<char>> {
    if yes {
        Ok(ExecutionAuthorizationKind::AutomationYes)
    } else if !terminal {
        Err(no_terminal)
    } else if response is Some && trimmed(response->0) == word {
        Ok(ExecutionAuthorizationKind::InteractiveConfirmation)
    } else {
        Err(not_confirmed)
    }
}

pub open spec fn permission_view(result: Result<ExecutionAuthorization, String>) -> Result<
    ExecutionAuthorizationKind,
    Seq<char>,
> {
    match result {
        Ok(authorization) => Ok(authorization.granted()),
        Err(error) => Err(error@),
    }
}

fn ask_permission(
    yes: bool,
    terminal: bool,
    response: Option<&str>,
    word: &str,
    no_terminal: &str,
    not_confirmed: &str,
) -> (result: Result<ExecutionAuthorization, String>)
    ensures
        permission_view(result) == permission(
            yes,
            terminal,
            optional_text(response),
            word@,
            no_terminal@,
            not_confirmed@,
        ),
{
    if yes {
        return Ok(ExecutionAuthorization::automation_yes());
    }
    if !terminal {
        return Err(no_terminal.to_string());
    }
    if let Some(response) = response {
        if same_text(trim(response).as_str(), word) {
            return Ok(ExecutionAuthorization::interactive_confirmation());
        }
    }
    Err(not_confirmed.to_string())
}

/// Permission to carry out a cleanup plan: `--yes`, or the word `delete` at a terminal.
pub fn authorize_apply(yes: bool, stdin_is_terminal: bool, response: Option<&str>) -> (result: Result<
    ExecutionAuthorization,
    String,
>)
    ensures
        permission_view(result) == permission(
            yes,
            stdin_is_terminal,
            optional_text(response),
            "delete"@,
            "refusing destructive apply without an interactive terminal; pass --yes explicitly for automation"@,
            "cleanup apply cancelled; confirmation did not exactly match 'delete'"@,
        ),
{
    ask_permission(
        yes,
        stdin_is_terminal,
        response,
        "delete",
        "refusing destructive apply without an interactive terminal; pass --yes explicitly for automation",
        "cleanup apply cancelled; confirmation did not exactly match 'delete'",
    )
}

/// Permission to carry out a purge: `--yes`, or the word `purge` at a terminal.
pub fn authorize_run_purge(yes: bool, stdin_is_terminal: bool, response: Option<&str>) -> (result: Result<
    ExecutionAuthorization,
    String,
>)
    ensures
        permission_view(result) == permission(
            yes,
            stdin_is_terminal,
            optional_text(response),
            "purge"@,
            "interactive purge authorization requires a terminal"@,
            "purge confirmation did not match exact lowercase word 'purge'"@,
        ),
{
    ask_permission(
        yes,
        stdin_is_terminal,
        response,
        "purge",
        "interactive purge authorization requires a terminal",
        "purge confirmation did not match exact lowercase word 'purge'",
    )
}

/// What is asked at a terminal where something is not confirmed by `--yes`, or why it cannot be
/// asked.
pub open spec fn question(yes: bool, terminal: bool, text: Seq<char>, no_terminal: Seq<char>) -> Result<
    Option<Seq<char>>,
    Seq<char>,
> {
    if yes {
        Ok(None)
    } else if terminal {
        Ok(Some(text))
    } else {
        Err(no_terminal)
    }
}

/// What a question is, as plain values.
pub open spec fn question_view(result: Result<Option<String>, String>) -> Result<Option<Seq<char>>, Seq<char>> {
    match result {
        Ok(text) => Ok(text.deep_view()),
        Err(error) => Err(error@),
    }
}

fn pose_question(yes: bool, terminal: bool, text: &str, no_terminal: &str) -> (result: Result<Option<String>, String>)
    ensures
        question_view(result) == question(yes, terminal, text@, no_terminal@),
{
    if yes {
        Ok(None)
    } else if terminal {
        Ok(Some(text.to_string()))
    } else {
        Err(no_terminal.to_string())
    }
}

/// What to ask before a cleanup plan is carried out.
pub fn ask_before_apply(yes: bool, stdin_is_terminal: bool) -> (result: Result<Option<String>, String>)
    ensures
        question_view(result) == question(
            yes,
            stdin_is_terminal,
            "Type 'delete' to apply this exact cleanup plan: "@,
            "refusing destructive apply without an interactive terminal; rerun interactively or pass --yes explicitly"@,
        ),
{
    pose_question(
        yes,
        stdin_is_terminal,
        "Type 'delete' to apply this exact cleanup plan: ",
        "refusing destructive apply without an interactive terminal; rerun interactively or pass --yes explicitly",
    )
}

/// What to ask before a purge is carried out.
pub fn ask_before_run_purge(yes: bool, stdin_is_terminal: bool) -> (result: Result<Option<String>, String>)
    ensures
        question_view(result) == question(
            yes,
            stdin_is_terminal,
            "Type 'purge' to remove the reviewed logs, artifacts, and workflow runs: "@,
            "refusing destructive purge without an interactive terminal; rerun interactively or pass --yes explicitly"@,
        ),
{
    pose_question(
        yes,
        stdin_is_terminal,
        "Type 'purge' to remove the reviewed logs, artifacts, and workflow runs: ",
        "refusing destructive purge without an interactive terminal; rerun interactively or pass --yes explicitly",
    )
}

/// Without `--yes`, and without the word at a terminal, no permission is given. An execution is
/// started only with a permission.
pub proof fn nothing_is_granted_by_accident(
    terminal: bool,
    response: Option<Seq<char>>,
    word: Seq<char>,
    no_terminal: Seq<char>,
    not_confirmed: Seq<char>,
)
    requires
        !terminal || response is None || trimmed(response->0) != word,
    ensures
        permission(false, terminal, response, word, no_terminal, not_confirmed) is Err,
{
}

// ---------------------------------------------------------------------------------------------
// What is purged.
// ---------------------------------------------------------------------------------------------

/// What is asked to be purged: runs by their numbers, or all completed ones that a filter lets
/// through.
#[derive(Clone, Debug, PartialEq, Eq)]
pub struct PurgeRequest {
    pub run_ids: Vec<u64>,
    pub all_completed: bool,
    pub older_than: Option<u64>,
    pub workflow: Option<String>,
    pub branch: Option<String>,
    pub event: Option<String>,
    pub conclusion: Option<String>,
}

/// The contents of [`PurgeRequest`].
#[verifier::ext_equal]
pub struct PurgeRequestView {
    pub run_ids: Seq<u64>,
    pub all_completed: bool,
    pub older_than: Option<u64>,
    pub workflow: Option<Seq<char>>,
    pub branch: Option<Seq<char>>,
    pub event: Option<Seq<char>>,
    pub conclusion: Option<Seq<char>>,
}

impl DeepView for PurgeRequest {
    type V = PurgeRequestView;

    open spec fn deep_view(&self) -> PurgeRequestView {
        PurgeRequestView {
            run_ids: self.run_ids.deep_view(),
            all_completed: self.all_completed,
            older_than: self.older_than,
            workflow: self.workflow.deep_view(),
            branch: self.branch.deep_view(),
            event: self.event.deep_view(),
            conclusion: self.conclusion.deep_view(),
        }
    }
}

impl PurgeRequestView {
    /// The filter for completed runs.
    pub open spec fn filter(self) -> RunFilterView {
        RunFilterView {
            workflow: self.workflow,
            branch: self.branch,
            event: self.event,
            status: None,
            conclusion: self.conclusion,
            completed_only: true,
            older_than: self.older_than,
        }
    }

    /// Why the request cannot be followed.
    pub open spec fn problem(self) -> Option<Seq<char>> {
        if (self.run_ids.len() == 0) == !self.all_completed {
            Some(
                "choose exactly one workflow-run purge selection mode: repeat --run-id ID, or pass --all-completed"@,
            )
        } else {
            match pattern_problem(self.workflow, "invalid workflow name glob: "@) {
                Some(problem) => Some(problem),
                None => pattern_problem(self.branch, "invalid branch glob: "@),
            }
        }
    }
}

/// The place of the first run with a number, from `from` on.
pub open spec fn run_with(runs: Seq<WorkflowRunView>, id: u64, from: int) -> Option<int>
    decreases runs.len() - from,
{
    if from < 0 || from >= runs.len() {
        None
    } else if runs[from].id == id {
        Some(from)
    } else {
        run_with(runs, id, from + 1)
    }
}

/// What is said of a run that is not completed.
pub open spec fn not_completed(run: WorkflowRunView) -> Seq<char> {
    "workflow run "@ + decimal(run.id as nat) + " in "@ + run.repository.full_name + " is not completed (status "@
        + run.status + "); no purge plan was created"@
}

/// The first run among those that are asked for, from `from` on, that is not completed.
pub open spec fn incomplete_run(runs: Seq<WorkflowRunView>, ids: Seq<u64>, from: int) -> Option<int>
    decreases ids.len() - from,
{
    if from < 0 || from >= ids.len() {
        None
    } else {
        match run_with(runs, ids[from], 0) {
            Some(i) => if runs[i].completed() {
                incomplete_run(runs, ids, from + 1)
            } else {
                Some(i)
            },
            None => incomplete_run(runs, ids, from + 1),
        }
    }
}

/// The numbers that no run has.
pub open spec fn missing_ids(runs: Seq<WorkflowRunView>, ids: Seq<u64>) -> Seq<u64>
    decreases ids.len(),
{
    if ids.len() == 0 {
        Seq::empty()
    } else {
        let rest = missing_ids(runs, ids.drop_last());
        if run_with(runs, ids.last(), 0) is None {
            rest.push(ids.last())
        } else {
            rest
        }
    }
}

/// The runs that have the numbers.
pub open spec fn runs_with(runs: Seq<WorkflowRunView>, ids: Seq<u64>) -> Seq<WorkflowRunView>
    decreases ids.len(),
{
    if ids.len() == 0 {
        Seq::empty()
    } else {
        let rest = runs_with(runs, ids.drop_last());
        match run_with(runs, ids.last(), 0) {
            Some(i) => rest.push(runs[i]),
            None => rest,
        }
    }
}

/// Numbers in words.
pub open spec fn decimals(ids: Seq<u64>) -> Seq<Seq<char>> {
    Seq::new(ids.len(), |i: int| decimal(ids[i] as nat))
}

/// The runs to purge and the selection that a plan records, or why there are none.
pub open spec fn purge_selection(
    request: PurgeRequestView,
    snapshot: WorkflowRunInventorySnapshotView,
    now: Timestamp,
) -> Result<(Seq<WorkflowRunView>, RunPurgeSelectionView), Seq<char>> {
    let ids = distinct::<u64, Ascending>(request.run_ids, Ascending);
    if snapshot.issues.len() > 0 {
        Err("refusing to plan workflow-run purge from an incomplete inventory snapshot"@)
    } else if request.all_completed {
        Ok(
            (
                kept_runs(request.filter(), snapshot.runs, now),
                RunPurgeSelectionView {
                    mode: RunPurgeSelectionMode::AllCompleted,
                    requested_run_ids: Seq::empty(),
                    older_than_seconds: request.older_than,
                    workflow: request.workflow,
                    branch: request.branch,
                    event: request.event,
                    conclusion: request.conclusion,
                },
            ),
        )
    } else {
        match incomplete_run(snapshot.runs, ids, 0) {
            Some(i) => Err(not_completed(snapshot.runs[i])),
            None => if missing_ids(snapshot.runs, ids).len() > 0 {
                Err(
                    "workflow-run ID(s) not present in the complete selected scope: ["@ + joined(
                        decimals(missing_ids(snapshot.runs, ids)),
                        ", "@,
                    ) + "]"@,
                )
            } else {
                Ok(
                    (
                        runs_with(snapshot.runs, ids),
                        RunPurgeSelectionView {
                            mode: RunPurgeSelectionMode::ExplicitRunIds,
                            requested_run_ids: ids,
                            older_than_seconds: None,
                            workflow: None,
                            branch: None,
                            event: None,
                            conclusion: None,
                        },
                    ),
                )
            },
        }
    }
}

pub open spec fn selection_view(
    result: Result<(Vec<WorkflowRun>, RunPurgeSelection), String>,
) -> Result<(Seq<WorkflowRunView>, RunPurgeSelectionView), Seq<char>> {
    match result {
        Ok((runs, selection)) => Ok((runs.deep_view(), selection.deep_view())),
        Err(error) => Err(error@),
    }
}

/// Checks that runs are chosen in one way: by their numbers, or all that are complete.
pub fn check_purge_mode(run_ids: &Vec<u64>, all_completed: bool) -> (result: Result<(), String>)
    ensures
        result is Ok <==> (run_ids.len() == 0) == all_completed,
        result matches Err(error) ==> error@
            == "choose exactly one workflow-run purge selection mode: repeat --run-id ID, or pass --all-completed"@,
{
    if (run_ids.len() == 0) == !all_completed {
        return Err(
            "choose exactly one workflow-run purge selection mode: repeat --run-id ID, or pass --all-completed".to_string(),
        );
    }
    Ok(())
}

/// Checks that a request can be followed.
pub fn check_purge_request(request: &PurgeRequest) -> (result: Result<(), String>)
    ensures
        match request.deep_view().problem() {
            Some(problem) => result is Err && result->Err_0@ == problem,
            None => result is Ok,
        },
{
    assert(request.run_ids.deep_view().len() == request.run_ids.len());
    match check_purge_mode(&request.run_ids, request.all_completed) {
        Ok(()) => {},
        Err(error) => {
            return Err(error);
        },
    }
    match check_pattern(&request.workflow, "invalid workflow name glob: ") {
        Ok(()) => check_pattern(&request.branch, "invalid branch glob: "),
        Err(error) => Err(error),
    }
}

fn find_run(runs: &Vec<WorkflowRun>, id: u64) -> (result: Option<usize>)
    ensures
        match run_with(runs.deep_view(), id, 0) {
            Some(i) => result matches Some(k) && k == i && k < runs.len(),
            None => result is None,
        },
{
    let ghost all = runs.deep_view();
    let mut i: usize = 0;
    while i < runs.len()
        invariant
            i <= runs.len(),
            all == runs.deep_view(),
            run_with(all, id, 0) == run_with(all, id, i as int),
        decreases runs.len() - i,
    {
        assert(all[i as int] == runs@[i as int].deep_view());
        if runs[i].id == id {
            return Some(i);
        }
        i = i + 1;
    }
    None
}

fn describe_ids(ids: &Vec<u64>) -> (result: String)
    ensures
        result@ == joined(decimals(ids.deep_view()), ", "@),
{
    let ghost all = decimals(ids.deep_view());
    let mut texts: Vec<String> = nothing();
    let mut i: usize = 0;
    while i < ids.len()
        invariant
            i <= ids.len(),
            all == decimals(ids.deep_view()),
            texts.deep_view() == all.take(i as int),
        decreases ids.len() - i,
    {
        add_to(&mut texts, number(ids[i]));
        i = i + 1;
        assert(texts.deep_view() =~= all.take(i as int));
    }
    assert(all.take(i as int) =~= all);
    join(&texts, ", ")
}

/// The runs with the numbers, or why they cannot be purged.
fn select_by_id(runs: &Vec<WorkflowRun>, ids: &Vec<u64>) -> (result: Result<Vec<WorkflowRun>, String>)
    ensures
        match incomplete_run(runs.deep_view(), ids.deep_view(), 0) {
            Some(i) => result is Err && result->Err_0@ == not_completed(runs.deep_view()[i]),
            None => if missing_ids(runs.deep_view(), ids.deep_view()).len() > 0 {
                result is Err && result->Err_0@ == "workflow-run ID(s) not present in the complete selected scope: ["@
                    + joined(decimals(missing_ids(runs.deep_view(), ids.deep_view())), ", "@) + "]"@
            } else {
                result is Ok && result->Ok_0.deep_view() == runs_with(runs.deep_view(), ids.deep_view())
            },
        },
{
    let ghost all = runs.deep_view();
    let ghost wanted = ids.deep_view();
    let mut selected: Vec<WorkflowRun> = nothing();
    let mut missing: Vec<u64> = nothing();
    let mut j: usize = 0;
    assert(wanted.take(0) =~= Seq::empty());
    while j < ids.len()
        invariant
            j <= ids.len(),
            all == runs.deep_view(),
            wanted == ids.deep_view(),
            incomplete_run(all, wanted, 0) == incomplete_run(all, wanted, j as int),
            missing.deep_view() == missing_ids(all, wanted.take(j as int)),
            selected.deep_view() == runs_with(all, wanted.take(j as int)),
        decreases ids.len() - j,
    {
        assert(wanted.take(j + 1).drop_last() =~= wanted.take(j as int));
        assert(wanted[j as int] == ids@[j as int]);
        match find_run(runs, ids[j]) {
            Some(i) => {
                let run = &runs[i];
                assert(all[i as int] == run.deep_view());
                if !run.is_completed() {
                    return Err(
                        join7(
                            "workflow run ",
                            number(run.id).as_str(),
                            " in ",
                            run.repository.full_name.as_str(),
                            " is not completed (status ",
                            run.status.as_str(),
                            "); no purge plan was created",
                        ),
                    );
                }
                add_to(&mut selected, run.copied());
            },
            None => {
                add_to(&mut missing, ids[j]);
            },
        }
        j = j + 1;
    }
    assert(wanted.take(j as int) =~= wanted);
    assert(missing.deep_view().len() == missing.len());
    if missing.len() > 0 {
        return Err(
            join3(
                "workflow-run ID(s) not present in the complete selected scope: [",
                describe_ids(&missing).as_str(),
                "]",
            ),
        );
    }
    Ok(selected)
}

/// Selects the runs to purge from a complete scan.
pub fn select_runs_to_purge(request: &PurgeRequest, snapshot: &WorkflowRunInventorySnapshot, now: Timestamp) -> (result:
    Result<(Vec<WorkflowRun>, RunPurgeSelection), String>)
    requires
        request.deep_view().filter().compiles(),
    ensures
        selection_view(result) == purge_selection(request.deep_view(), snapshot.deep_view(), now),
{
    assert(snapshot.issues.deep_view().len() == snapshot.issues.len());
    if snapshot.issues.len() > 0 {
        return Err("refusing to plan workflow-run purge from an incomplete inventory snapshot".to_string());
    }
    if request.all_completed {
        let filter = RunFilter {
            workflow: request.workflow.copied(),
            branch: request.branch.copied(),
            event: request.event.copied(),
            status: None,
            conclusion: request.conclusion.copied(),
            completed_only: true,
            older_than: request.older_than,
        };
        assert(filter.deep_view() == request.deep_view().filter());
        let runs = filter_runs(&snapshot.runs, &filter, now);
        return Ok(
            (
                runs,
                RunPurgeSelection {
                    mode: RunPurgeSelectionMode::AllCompleted,
                    requested_run_ids: nothing(),
                    older_than_seconds: request.older_than,
                    workflow: request.workflow.copied(),
                    branch: request.branch.copied(),
                    event: request.event.copied(),
                    conclusion: request.conclusion.copied(),
                },
            ),
        );
    }
    let requested = sort_distinct(request.run_ids.copied(), &Ascending);
    match select_by_id(&snapshot.runs, &requested) {
        Ok(runs) => Ok(
            (
                runs,
                RunPurgeSelection {
                    mode: RunPurgeSelectionMode::ExplicitRunIds,
                    requested_run_ids: requested,
                    older_than_seconds: None,
                    workflow: None,
                    branch: None,
                    event: None,
                    conclusion: None,
                },
            ),
        ),
        Err(error) => Err(error),
    }
}

proof fn lemma_run_with(runs: Seq<WorkflowRunView>, id: u64, from: int)
    requires
        0 <= from <= runs.len(),
    ensures
        run_with(runs, id, from) matches Some(i) ==> from <= i < runs.len() && runs[i].id == id,
    decreases runs.len() - from,
{
    if from < runs.len() {
        lemma_run_with(runs, id, from + 1);
    }
}

proof fn lemma_complete(runs: Seq<WorkflowRunView>, ids: Seq<u64>, from: int, j: int)
    requires
        0 <= from <= j < ids.len(),
        incomplete_run(runs, ids, from) is None,
    ensures
        run_with(runs, ids[j], 0) matches Some(i) ==> runs[i].completed(),
    decreases j - from,
{
    if from < j {
        lemma_complete(runs, ids, from + 1, j);
    }
}

proof fn lemma_runs_with(runs: Seq<WorkflowRunView>, ids: Seq<u64>, all: Seq<u64>, k: int)
    requires
        ids == all.take(ids.len() as int),
        ids.len() <= all.len(),
        incomplete_run(runs, all, 0) is None,
        0 <= k < runs_with(runs, ids).len(),
    ensures
        runs.contains(runs_with(runs, ids)[k]),
        runs_with(runs, ids)[k].completed(),
    decreases ids.len(),
{
    if ids.len() > 0 {
        let last = ids.len() - 1;
        assert(ids.drop_last() =~= all.take(last));
        assert(ids.last() == all[last]);
        let rest = runs_with(runs, ids.drop_last());
        if k < rest.len() {
            lemma_runs_with(runs, ids.drop_last(), all, k);
        } else {
            lemma_run_with(runs, ids.last(), 0);
            lemma_complete(runs, all, 0, last);
        }
    }
}

proof fn lemma_kept_runs(filter: RunFilterView, runs: Seq<WorkflowRunView>, now: Timestamp, k: int)
    requires
        filter.completed_only,
        0 <= k < kept_runs(filter, runs, now).len(),
    ensures
        runs.contains(kept_runs(filter, runs, now)[k]),
        kept_runs(filter, runs, now)[k].completed(),
    decreases runs.len(),
{
    if runs.len() > 0 {
        let before = runs.drop_last();
        let rest = kept_runs(filter, before, now);
        if k < rest.len() {
            lemma_kept_runs(filter, before, now, k);
            let i = choose|i: int| 0 <= i < before.len() && before[i] == rest[k];
            assert(runs[i] == rest[k]);
        } else {
            assert(runs[runs.len() - 1] == runs.last());
        }
    }
}

/// Only completed runs that a complete scan found are selected for a purge.
pub proof fn only_completed_known_runs_are_selected(
    request: PurgeRequestView,
    snapshot: WorkflowRunInventorySnapshotView,
    now: Timestamp,
    k: int,
)
    requires
        purge_selection(request, snapshot, now) matches Ok((runs, _)) && 0 <= k < runs.len(),
    ensures
        snapshot.issues.len() == 0,
        purge_selection(request, snapshot, now) matches Ok((runs, _)) && snapshot.runs.contains(runs[k])
            && runs[k].completed(),
{
    if request.all_completed {
        lemma_kept_runs(request.filter(), snapshot.runs, now, k);
    } else {
        let ids = distinct::<u64, Ascending>(request.run_ids, Ascending);
        assert(ids =~= ids.take(ids.len() as int));
        lemma_runs_with(snapshot.runs, ids, ids, k);
    }
}

/// The most temporary files that are tried for a plan.
pub const TEMPORARY_FILES: u32 = 1000;

/// The name of the temporary file that a plan is first written to.
pub open spec fn temporary_file(name: Seq<char>, process: u32, attempt: u32) -> Seq<char> {
    "."@ + name + "."@ + decimal(process as nat) + "."@ + decimal(attempt as nat) + ".tmp"@
}

/// The temporary file to try for a plan file of that name, as long as there is one left.
pub fn temporary_file_name(name: &str, process: u32, attempt: u32) -> (result: Option<String>)
    ensures
        result.deep_view() == if attempt < TEMPORARY_FILES {
            Some(temporary_file(name@, process, attempt))
        } else {
            None
        },
{
    if attempt < TEMPORARY_FILES {
        let process = number(process as u64);
        let attempt = number(attempt as u64);
        Some(join7(".", name, ".", process.as_str(), ".", attempt.as_str(), ".tmp"))
    } else {
        None
    }
}

/// Whether a text, where one is asked for, is there and the one, but for the case of its letters.
pub open spec fn wanted(text: Option<Seq<char>>, asked: Option<Seq<char>>) -> bool {
    asked is Some ==> text is Some && equal_but_for_case(text->0, asked->0)
}

/// Whether a run meets every criterion: its workflow and its branch fit the patterns; its event,
/// its status and its conclusion are those that are asked for; it is completed, where that is asked
/// for; and as many seconds have gone by since it was made as are asked for.
pub open spec fn run_is_wanted(filter: RunFilterView, run: WorkflowRunView, now: Timestamp) -> bool {
    &&& fits(filter.workflow, run.workflow_name)
    &&& fits(filter.branch, run.head_branch)
    &&& wanted(Some(run.event), filter.event)
    &&& wanted(Some(run.status), filter.status)
    &&& wanted(run.conclusion, filter.conclusion)
    &&& filter.completed_only ==> equal_but_for_case(run.status, "completed"@)
    &&& filter.older_than is Some ==> now.since(run.created_at) >= filter.older_than->0
}

/// Listing runs gives those that meet every criterion, all of them, in the order they came in.
pub proof fn runs_are_listed_by_every_criterion(filter: RunFilterView, runs: Seq<WorkflowRunView>, now: Timestamp)
    ensures
        kept_runs(filter, runs, now) == runs.filter(|run: WorkflowRunView| run_is_wanted(filter, run, now)),
    decreases runs.len(),
{
    reveal(Seq::filter);
    if runs.len() > 0 {
        let run = runs.last();
        runs_are_listed_by_every_criterion(filter, runs.drop_last(), now);
        case_is_disregarded(run.status, "completed"@);
        if filter.event is Some {
            case_is_disregarded(run.event, filter.event->0);
        }
        if filter.status is Some {
            case_is_disregarded(run.status, filter.status->0);
        }
        if filter.conclusion is Some && run.conclusion is Some {
            case_is_disregarded(run.conclusion->0, filter.conclusion->0);
        }
    }
}

/// Listing artifacts gives those whose name fits the pattern and that are as old as is asked for,
/// all of them, in the order they came in.
pub proof fn artifacts_are_listed_by_every_criterion(
    filter: ArtifactFilterView,
    artifacts: Seq<ArtifactView>,
    now: Timestamp,
)
    ensures
        kept_artifacts(filter, artifacts, now) == artifacts.filter(
            |artifact: ArtifactView|
                fits(filter.name, Some(artifact.name)) && (filter.older_than is Some ==> now.since(artifact.created_at)
                    >= filter.older_than->0),
        ),
    decreases artifacts.len(),
{
    reveal(Seq::filter);
    if artifacts.len() > 0 {
        artifacts_are_listed_by_every_criterion(filter, artifacts.drop_last(), now);
    }
}

/// Listing caches gives those whose key and ref fit the patterns, that are as old as is asked for
/// and were not used for as long as is asked for; all of them, in the order they came in.
pub proof fn caches_are_listed_by_every_criterion(
    filter: CacheFilterView,
    caches: Seq<ActionsCacheView>,
    now: Timestamp,
)
    ensures
        kept_caches(filter, caches, now) == caches.filter(
            |cache: ActionsCacheView|
                fits(filter.key, Some(cache.key)) && fits(filter.git_ref, Some(cache.git_ref)) && (
                filter.older_than is Some ==> now.since(cache.created_at) >= filter.older_than->0) && (
                filter.unused_for is Some ==> now.since(cache.last_accessed_at) >= filter.unused_for->0),
        ),
    decreases caches.len(),
{
    reveal(Seq::filter);
    if caches.len() > 0 {
        caches_are_listed_by_every_criterion(filter, caches.drop_last(), now);
    }
}

/// With all completed runs asked for, a run of a complete scan is selected for a purge where it is
/// completed and meets every criterion of the request, and only there: its workflow and its branch
/// fit the patterns, its event and its conclusion are those that are asked for whatever the case of
/// their letters, and it is as old as is asked for. The plan records what was asked for.
pub proof fn completed_runs_are_purged_by_every_criterion(
    request: PurgeRequestView,
    snapshot: WorkflowRunInventorySnapshotView,
    now: Timestamp,
    run: WorkflowRunView,
)
    requires
        request.all_completed,
        snapshot.issues.len() == 0,
    ensures
        purge_selection(request, snapshot, now) is Ok,
        ({
            let selected = purge_selection(request, snapshot, now)->Ok_0.0;
            let selection = purge_selection(request, snapshot, now)->Ok_0.1;
            &&& selected.contains(run) <==> snapshot.runs.contains(run) && equal_but_for_case(
                run.status,
                "completed"@,
            ) && fits(request.workflow, run.workflow_name) && fits(request.branch, run.head_branch) && wanted(
                Some(run.event),
                request.event,
            ) && wanted(run.conclusion, request.conclusion) && (request.older_than is Some ==> now.since(run.created_at)
                >= request.older_than->0)
            &&& selected.contains(run) && request.conclusion is Some ==> run.conclusion is Some && equal_but_for_case(
                run.conclusion->0,
                request.conclusion->0,
            )
            &&& selected.contains(run) && request.event is Some ==> equal_but_for_case(run.event, request.event->0)
            &&& selection.mode == RunPurgeSelectionMode::AllCompleted
            &&& selection.requested_run_ids.len() == 0
            &&& selection.older_than_seconds == request.older_than
            &&& selection.workflow == request.workflow
            &&& selection.branch == request.branch
            &&& selection.event == request.event
            &&& selection.conclusion == request.conclusion
        }),
{
    let filter = request.filter();
    let p = |run: WorkflowRunView| run_is_wanted(filter, run, now);
    runs_are_listed_by_every_criterion(filter, snapshot.runs, now);
    let selected = kept_runs(filter, snapshot.runs, now);
    if selected.contains(run) {
        let k = choose|k: int| 0 <= k < selected.len() && selected[k] == run;
        snapshot.runs.lemma_filter_pred(p, k);
        snapshot.runs.lemma_filter_contains_rev(p, run);
    }
    if snapshot.runs.contains(run) && p(run) {
        let i = choose|i: int| 0 <= i < snapshot.runs.len() && snapshot.runs[i] == run;
        snapshot.runs.lemma_filter_contains(p, i);
    }
}

/// An incomplete scan is never purged from.
pub proof fn nothing_is_purged_from_an_incomplete_scan(
    request: PurgeRequestView,
    snapshot: WorkflowRunInventorySnapshotView,
    now: Timestamp,
)
    requires
        snapshot.issues.len() > 0,
    ensures
        purge_selection(request, snapshot, now) is Err,
{
}

proof fn lemma_run_found(runs: Seq<WorkflowRunView>, id: u64, from: int)
    requires
        0 <= from <= runs.len(),
    ensures
        run_with(runs, id, from) is Some <==> exists|i: int| from <= i < runs.len() && (#[trigger] runs[i]).id == id,
    decreases runs.len() - from,
{
    if from < runs.len() {
        lemma_run_found(runs, id, from + 1);
        if exists|i: int| from <= i < runs.len() && (#[trigger] runs[i]).id == id {
            let i = choose|i: int| from <= i < runs.len() && (#[trigger] runs[i]).id == id;
            if i > from {
                assert(from + 1 <= i && runs[i].id == id);
            }
        }
        if run_with(runs, id, from) is Some && runs[from].id != id {
            let i = choose|i: int| from + 1 <= i < runs.len() && (#[trigger] runs[i]).id == id;
            assert(from <= i && runs[i].id == id);
        }
    }
}

proof fn lemma_asked_runs(runs: Seq<WorkflowRunView>, ids: Seq<u64>)
    requires
        missing_ids(runs, ids).len() == 0,
    ensures
        runs_with(runs, ids).len() == ids.len(),
        forall|k: int|
            0 <= k < ids.len() ==> (#[trigger] runs_with(runs, ids)[k]).id == ids[k] && runs.contains(
                runs_with(runs, ids)[k],
            ),
    decreases ids.len(),
{
    if ids.len() > 0 {
        lemma_asked_runs(runs, ids.drop_last());
        lemma_run_with(runs, ids.last(), 0);
        let rest = runs_with(runs, ids.drop_last());
        let all = runs_with(runs, ids);
        assert forall|k: int| 0 <= k < ids.len() implies (#[trigger] all[k]).id == ids[k] && runs.contains(all[k]) by {
            if k < rest.len() {
                assert(all[k] == rest[k]);
                assert(ids.drop_last()[k] == ids[k]);
            }
        }
    }
}

proof fn lemma_missing(runs: Seq<WorkflowRunView>, ids: Seq<u64>)
    ensures
        missing_ids(runs, ids).len() == 0 <==> forall|k: int|
            0 <= k < ids.len() ==> run_with(runs, #[trigger] ids[k], 0) is Some,
    decreases ids.len(),
{
    if ids.len() > 0 {
        let rest = ids.drop_last();
        lemma_missing(runs, rest);
        if missing_ids(runs, ids).len() == 0 {
            assert forall|k: int| 0 <= k < ids.len() implies run_with(runs, #[trigger] ids[k], 0) is Some by {
                if k < rest.len() {
                    assert(rest[k] == ids[k]);
                }
            }
        }
        if forall|k: int| 0 <= k < ids.len() ==> run_with(runs, #[trigger] ids[k], 0) is Some {
            assert forall|k: int| 0 <= k < rest.len() implies run_with(runs, #[trigger] rest[k], 0) is Some by {
                assert(rest[k] == ids[k]);
            }
            assert(run_with(runs, ids[ids.len() - 1], 0) is Some);
        }
    }
}

proof fn lemma_all_complete(runs: Seq<WorkflowRunView>, ids: Seq<u64>, from: int)
    requires
        0 <= from <= ids.len(),
        forall|k: int, i: int|
            0 <= k < ids.len() && 0 <= i < runs.len() && (#[trigger] runs[i]).id == #[trigger] ids[k]
                ==> runs[i].completed(),
    ensures
        incomplete_run(runs, ids, from) is None,
    decreases ids.len() - from,
{
    if from < ids.len() {
        lemma_run_with(runs, ids[from], 0);
        lemma_all_complete(runs, ids, from + 1);
    }
}

/// With runs asked for by their numbers, a purge takes one completed run for each number, in the
/// order of the numbers, and no other; and it takes none at all where a number is of no run.
pub proof fn runs_are_purged_by_their_numbers(
    request: PurgeRequestView,
    snapshot: WorkflowRunInventorySnapshotView,
    now: Timestamp,
)
    requires
        !request.all_completed,
        snapshot.issues.len() == 0,
    ensures
        purge_selection(request, snapshot, now) matches Ok((selected, selection)) ==> {
            &&& selection.mode == RunPurgeSelectionMode::ExplicitRunIds
            &&& forall|id: u64| #[trigger] selection.requested_run_ids.contains(id) <==> request.run_ids.contains(id)
            &&& forall|i: int, j: int|
                0 <= i < j < selection.requested_run_ids.len() ==> #[trigger] selection.requested_run_ids[i]
                    < #[trigger] selection.requested_run_ids[j]
            &&& selected.len() == selection.requested_run_ids.len()
            &&& forall|k: int|
                0 <= k < selected.len() ==> (#[trigger] selected[k]).id == selection.requested_run_ids[k]
                    && snapshot.runs.contains(selected[k]) && equal_but_for_case(selected[k].status, "completed"@)
            &&& selection.older_than_seconds is None && selection.workflow is None && selection.branch is None
            &&& selection.event is None && selection.conclusion is None
        },
        (exists|id: u64| #[trigger]
            request.run_ids.contains(id) && forall|i: int|
                0 <= i < snapshot.runs.len() ==> (#[trigger] snapshot.runs[i]).id != id) ==> purge_selection(
            request,
            snapshot,
            now,
        ) is Err,
        (forall|id: u64| #[trigger]
            request.run_ids.contains(id) ==> (exists|i: int|
                0 <= i < snapshot.runs.len() && (#[trigger] snapshot.runs[i]).id == id) && (forall|i: int|
                0 <= i < snapshot.runs.len() && (#[trigger] snapshot.runs[i]).id == id ==> equal_but_for_case(
                    snapshot.runs[i].status,
                    "completed"@,
                ))) ==> purge_selection(request, snapshot, now) is Ok,
{
    let runs = snapshot.runs;
    let ids = distinct::<u64, Ascending>(request.run_ids, Ascending);
    assert(keys_identify::<u64, Ascending>(Ascending)) by {
        assert forall|a: u64, b: u64| #[trigger] Ascending.key(a) == #[trigger] Ascending.key(b) implies a == b by {
            assert(Ascending.key(a)[0] == Part::Number(a as int));
            assert(Ascending.key(b)[0] == Part::Number(b as int));
        }
    }
    distinct_elements_stand_once_in_order::<u64, Ascending>(request.run_ids, Ascending);
    assert forall|i: int, j: int| 0 <= i < j < ids.len() implies #[trigger] ids[i] < #[trigger] ids[j] by {
        reveal_with_fuel(key_less, 2);
        assert(key_less(Ascending.key(ids[i]), Ascending.key(ids[j])));
        assert(Ascending.key(ids[i])[0] == Part::Number(ids[i] as int));
        assert(Ascending.key(ids[j])[0] == Part::Number(ids[j] as int));
        assert(Ascending.key(ids[i]).drop_first().len() == 0);
        assert(Ascending.key(ids[j]).drop_first().len() == 0);
    }
    lemma_missing(runs, ids);
    if let Ok((selected, selection)) = purge_selection(request, snapshot, now) {
        lemma_asked_runs(runs, ids);
        assert forall|k: int| 0 <= k < selected.len() implies equal_but_for_case(
            (#[trigger] selected[k]).status,
            "completed"@,
        ) by {
            assert(ids =~= ids.take(ids.len() as int));
            lemma_runs_with(runs, ids, ids, k);
            case_is_disregarded(selected[k].status, "completed"@);
        }
    }
    if exists|id: u64| #[trigger]
        request.run_ids.contains(id) && forall|i: int|
            0 <= i < snapshot.runs.len() ==> (#[trigger] snapshot.runs[i]).id != id {
        let id = choose|id: u64| #[trigger]
            request.run_ids.contains(id) && forall|i: int|
                0 <= i < snapshot.runs.len() ==> (#[trigger] snapshot.runs[i]).id != id;
        assert(ids.contains(id));
        let k = choose|k: int| 0 <= k < ids.len() && ids[k] == id;
        lemma_run_found(runs, ids[k], 0);
        assert(run_with(runs, ids[k], 0) is None);
    }
    if forall|id: u64| #[trigger]
        request.run_ids.contains(id) ==> (exists|i: int|
            0 <= i < snapshot.runs.len() && (#[trigger] snapshot.runs[i]).id == id) && (forall|i: int|
            0 <= i < snapshot.runs.len() && (#[trigger] snapshot.runs[i]).id == id ==> equal_but_for_case(
                snapshot.runs[i].status,
                "completed"@,
            )) {
        assert forall|k: int| 0 <= k < ids.len() implies run_with(runs, #[trigger] ids[k], 0) is Some by {
            assert(ids.contains(ids[k]));
            assert(request.run_ids.contains(ids[k]));
            lemma_run_found(runs, ids[k], 0);
        }
        assert forall|k: int, i: int|
            0 <= k < ids.len() && 0 <= i < runs.len() && (#[trigger] runs[i]).id == #[trigger] ids[k] implies runs[i].completed() by {
            assert(ids.contains(ids[k]));
            assert(request.run_ids.contains(ids[k]));
            case_is_disregarded(runs[i].status, "completed"@);
        }
        lemma_all_complete(runs, ids, 0);
    }
}

/// A purge request can be followed where it asks either for numbers or for all completed runs, not
/// for both and not for neither, and its patterns are globs.
pub proof fn a_purge_asks_for_one_thing(request: PurgeRequestView)
    ensures
        request.problem() is None <==> (request.all_completed <==> request.run_ids.len() == 0) && is_glob(
            request.workflow,
        ) && is_glob(request.branch),
{
}

/// Permission comes from `--yes`, or from the word at a terminal, and from nothing else.
pub proof fn permission_needs_yes_or_the_word(
    yes: bool,
    terminal: bool,
    response: Option<Seq<char>>,
    word: Seq<char>,
    no_terminal: Seq<char>,
    not_confirmed: Seq<char>,
)
    ensures
        ({
            let granted = permission(yes, terminal, response, word, no_terminal, not_confirmed);
            &&& granted is Ok <==> yes || (terminal && response is Some && trimmed(response->0) == word)
            &&& granted == Ok::<ExecutionAuthorizationKind, Seq<char>>(ExecutionAuthorizationKind::AutomationYes) <==> yes
            &&& !yes && !terminal ==> granted == Err::<ExecutionAuthorizationKind, Seq<char>>(no_terminal)
            &&& !yes && terminal && granted is Err ==> granted == Err::<ExecutionAuthorizationKind, Seq<char>>(
                not_confirmed,
            )
        }),
{
}

/// A question is asked exactly where there is no `--yes` and somebody at a terminal to answer.
pub proof fn a_question_is_asked_at_a_terminal(yes: bool, terminal: bool, text: Seq<char>, no_terminal: Seq<char>)
    ensures
        question(yes, terminal, text, no_terminal) is Err <==> !yes && !terminal,
        question(yes, terminal, text, no_terminal) == Ok::<Option<Seq<char>>, Seq<char>>(Some(text)) <==> !yes
            && terminal,
        yes ==> question(yes, terminal, text, no_terminal) == Ok::<Option<Seq<char>>, Seq<char>>(None),
{
}

/// A limit keeps the first values, as many as it says; zero keeps all.
pub proof fn a_limit_keeps_the_first<V>(values: Seq<V>, limit: usize)
    ensures
        limit == 0 ==> limited(values, limit) == values,
        limit > 0 && limit <= values.len() ==> limited(values, limit).len() == limit,
        limit > 0 && limit > values.len() ==> limited(values, limit).len() == values.len(),
        forall|i: int| 0 <= i < limited(values, limit).len() ==> #[trigger] limited(values, limit)[i] == values[i],
{
}

/// A record of a history is shown for a repository where one of its items is of that repository,
/// whatever the case of its letters; without a repository every record is shown.
pub proof fn history_is_shown_by_repository(
    report: ExecutionReportView,
    purge: RunPurgeExecutionReportView,
    repository: Option<Seq<char>>,
)
    ensures
        execution_touches(report, repository) <==> repository is None || exists|i: int|
            0 <= i < report.items.len() && equal_but_for_case((#[trigger] report.items[i]).repository, repository->0),
        purge_touches(purge, repository) <==> repository is None || exists|i: int|
            0 <= i < purge.items.len() && equal_but_for_case(
                (#[trigger] purge.items[i]).planned_run.repository.full_name,
                repository->0,
            ),
{
    if repository is Some {
        assert forall|i: int| 0 <= i < report.items.len() implies same_ignoring_case(
            (#[trigger] report.items[i]).repository,
            repository->0,
        ) == equal_but_for_case(report.items[i].repository, repository->0) by {
            case_is_disregarded(report.items[i].repository, repository->0);
        }
        assert forall|i: int| 0 <= i < purge.items.len() implies same_ignoring_case(
            (#[trigger] purge.items[i]).planned_run.repository.full_name,
            repository->0,
        ) == equal_but_for_case(purge.items[i].planned_run.repository.full_name, repository->0) by {
            case_is_disregarded(purge.items[i].planned_run.repository.full_name, repository->0);
        }
    }
}

/// A repository narrows a scan down more than an owner, and an owner more than nothing.
pub proof fn the_narrowest_scope_counts(owner: Option<Seq<char>>, repository: Option<Seq<char>>)
    ensures
        repository is Some ==> scope_asked(owner, repository) == ScanScopeView::Repository(repository->0),
        repository is None && owner is Some ==> scope_asked(owner, repository) == ScanScopeView::Owner(owner->0),
        repository is None && owner is None ==> scope_asked(owner, repository) == ScanScopeView::AllAccessible,
{
}

/// Whether one text comes before another in a list, or they are the same and something else decides.
pub open spec fn text_first(a: Seq<char>, b: Seq<char>, otherwise: bool) -> bool {
    text_less(a, b) || (a == b && otherwise)
}

/// Whether one number comes before another in a list, or they are the same and something else decides.
pub open spec fn number_first(a: int, b: int, otherwise: bool) -> bool {
    a < b || (a == b && otherwise)
}

/// Whether an artifact is listed before another: by size the largest first, by age the oldest, by
/// name and by repository in the order of texts.
pub open spec fn artifact_first(by_what: ArtifactSort, a: ArtifactView, b: ArtifactView) -> bool {
    let names = text_first(a.name, b.name, false);
    let repositories = text_first(a.repository.full_name, b.repository.full_name, false);
    match by_what {
        ArtifactSort::Size => number_first(
            b.size_in_bytes as int,
            a.size_in_bytes as int,
            text_first(a.repository.full_name, b.repository.full_name, names),
        ),
        ArtifactSort::Age => number_first(a.created_at.rank(), b.created_at.rank(), repositories),
        ArtifactSort::Name => text_first(a.name, b.name, repositories),
        ArtifactSort::Repository => text_first(a.repository.full_name, b.repository.full_name, names),
    }
}

/// The text that a run without a workflow name or a branch is listed by is empty.
pub open spec fn or_empty(text: Option<Seq<char>>) -> Seq<char> {
    if text is Some {
        text->0
    } else {
        Seq::empty()
    }
}

/// Whether a run is listed before another: by age the oldest first; by workflow, by branch and by
/// repository in the order of texts, then the newest.
pub open spec fn run_first(by_what: RunSort, a: WorkflowRunView, b: WorkflowRunView) -> bool {
    let newest = number_first(b.created_at.rank(), a.created_at.rank(), false);
    let ids = number_first(a.id as int, b.id as int, false);
    match by_what {
        RunSort::Age => number_first(
            a.created_at.rank(),
            b.created_at.rank(),
            text_first(a.repository.full_name, b.repository.full_name, ids),
        ),
        RunSort::Workflow => text_first(
            or_empty(a.workflow_name),
            or_empty(b.workflow_name),
            text_first(a.repository.full_name, b.repository.full_name, newest),
        ),
        RunSort::Branch => text_first(
            or_empty(a.head_branch),
            or_empty(b.head_branch),
            text_first(a.repository.full_name, b.repository.full_name, newest),
        ),
        RunSort::Repository => text_first(
            a.repository.full_name,
            b.repository.full_name,
            number_first(b.created_at.rank(), a.created_at.rank(), ids),
        ),
    }
}

/// Whether a cache is listed before another: by size the largest first, by creation and by last use
/// the oldest, by key and by repository in the order of texts; then by number.
pub open spec fn cache_first(by_what: CacheSort, a: ActionsCacheView, b: ActionsCacheView) -> bool {
    let ids = number_first(a.id as int, b.id as int, false);
    let repositories = text_first(a.repository.full_name, b.repository.full_name, ids);
    let keys = text_first(a.key, b.key, ids);
    match by_what {
        CacheSort::Size => number_first(
            b.size_in_bytes as int,
            a.size_in_bytes as int,
            text_first(a.repository.full_name, b.repository.full_name, keys),
        ),
        CacheSort::Created => number_first(a.created_at.rank(), b.created_at.rank(), repositories),
        CacheSort::LastAccessed => number_first(a.last_accessed_at.rank(), b.last_accessed_at.rank(), repositories),
        CacheSort::Key => text_first(a.key, b.key, repositories),
        CacheSort::Repository => text_first(a.repository.full_name, b.repository.full_name, keys),
    }
}

proof fn lemma_artifact_first(by_what: ArtifactSort, a: ArtifactView, b: ArtifactView)
    ensures
        key_less((ArtifactListingOrder { by_what }).key(a), (ArtifactListingOrder { by_what }).key(b)) <==> artifact_first(
            by_what,
            a,
            b,
        ),
{
    lemma_text_less_irreflexive(a.name);
    lemma_text_less_irreflexive(a.repository.full_name);
    let s = (ArtifactListingOrder { by_what }).key(a);
    let t = (ArtifactListingOrder { by_what }).key(b);
    if by_what == ArtifactSort::Size {
        lemma_three_parts(s[0], s[1], s[2], t[0], t[1], t[2]);
        lemma_two_parts(s[1], s[2], t[1], t[2]);
    } else {
        lemma_two_parts(s[0], s[1], t[0], t[1]);
    }
}

proof fn lemma_run_first(by_what: RunSort, a: WorkflowRunView, b: WorkflowRunView)
    ensures
        key_less((RunListingOrder { by_what }).key(a), (RunListingOrder { by_what }).key(b)) <==> run_first(by_what, a, b),
{
    reveal_strlit("");
    assert(""@ =~= Seq::empty());
    lemma_text_less_irreflexive(or_empty(a.workflow_name));
    lemma_text_less_irreflexive(or_empty(a.head_branch));
    lemma_text_less_irreflexive(a.repository.full_name);
    let s = (RunListingOrder { by_what }).key(a);
    let t = (RunListingOrder { by_what }).key(b);
    lemma_three_parts(s[0], s[1], s[2], t[0], t[1], t[2]);
    lemma_two_parts(s[1], s[2], t[1], t[2]);
}

proof fn lemma_cache_first(by_what: CacheSort, a: ActionsCacheView, b: ActionsCacheView)
    ensures
        key_less((CacheListingOrder { by_what }).key(a), (CacheListingOrder { by_what }).key(b)) <==> cache_first(
            by_what,
            a,
            b,
        ),
{
    lemma_text_less_irreflexive(a.key);
    lemma_text_less_irreflexive(a.repository.full_name);
    let s = (CacheListingOrder { by_what }).key(a);
    let t = (CacheListingOrder { by_what }).key(b);
    if by_what == CacheSort::Size {
        lemma_four_parts(s[0], s[1], s[2], s[3], t[0], t[1], t[2], t[3]);
        lemma_three_parts(s[1], s[2], s[3], t[1], t[2], t[3]);
        lemma_two_parts(s[2], s[3], t[2], t[3]);
    } else {
        lemma_three_parts(s[0], s[1], s[2], t[0], t[1], t[2]);
        lemma_two_parts(s[1], s[2], t[1], t[2]);
    }
}

/// Listed artifacts stand in the order that is asked for, and none is lost or added.
pub proof fn artifacts_are_listed_in_order(artifacts: Seq<ArtifactView>, by_what: ArtifactSort)
    ensures
        ({
            let list = sorted::<Artifact, ArtifactListingOrder>(artifacts, ArtifactListingOrder { by_what });
            &&& list.to_multiset() == artifacts.to_multiset()
            &&& forall|i: int, j: int|
                0 <= i < j < list.len() ==> !artifact_first(by_what, #[trigger] list[j], #[trigger] list[i])
        }),
{
    let order = ArtifactListingOrder { by_what };
    let list = sorted::<Artifact, ArtifactListingOrder>(artifacts, order);
    sorting_is_an_ordered_rearrangement::<Artifact, ArtifactListingOrder>(artifacts, order);
    assert forall|i: int, j: int| 0 <= i < j < list.len() implies !artifact_first(
        by_what,
        #[trigger] list[j],
        #[trigger] list[i],
    ) by {
        assert(le::<Artifact, ArtifactListingOrder>(order, list[i], list[j]));
        lemma_artifact_first(by_what, list[j], list[i]);
    }
}

/// Listed runs stand in the order that is asked for, and none is lost or added.
pub proof fn runs_are_listed_in_order(runs: Seq<WorkflowRunView>, by_what: RunSort)
    ensures
        ({
            let list = sorted::<WorkflowRun, RunListingOrder>(runs, RunListingOrder { by_what });
            &&& list.to_multiset() == runs.to_multiset()
            &&& forall|i: int, j: int|
                0 <= i < j < list.len() ==> !run_first(by_what, #[trigger] list[j], #[trigger] list[i])
        }),
{
    let order = RunListingOrder { by_what };
    let list = sorted::<WorkflowRun, RunListingOrder>(runs, order);
    sorting_is_an_ordered_rearrangement::<WorkflowRun, RunListingOrder>(runs, order);
    assert forall|i: int, j: int| 0 <= i < j < list.len() implies !run_first(
        by_what,
        #[trigger] list[j],
        #[trigger] list[i],
    ) by {
        assert(le::<WorkflowRun, RunListingOrder>(order, list[i], list[j]));
        lemma_run_first(by_what, list[j], list[i]);
    }
}

/// Listed caches stand in the order that is asked for, and none is lost or added.
pub proof fn caches_are_listed_in_order(caches: Seq<ActionsCacheView>, by_what: CacheSort)
    ensures
        ({
            let list = sorted::<ActionsCache, CacheListingOrder>(caches, CacheListingOrder { by_what });
            &&& list.to_multiset() == caches.to_multiset()
            &&& forall|i: int, j: int|
                0 <= i < j < list.len() ==> !cache_first(by_what, #[trigger] list[j], #[trigger] list[i])
        }),
{
    let order = CacheListingOrder { by_what };
    let list = sorted::<ActionsCache, CacheListingOrder>(caches, order);
    sorting_is_an_ordered_rearrangement::<ActionsCache, CacheListingOrder>(caches, order);
    assert forall|i: int, j: int| 0 <= i < j < list.len() implies !cache_first(
        by_what,
        #[trigger] list[j],
        #[trigger] list[i],
    ) by {
        assert(le::<ActionsCache, CacheListingOrder>(order, list[i], list[j]));
        lemma_cache_first(by_what, list[j], list[i]);
    }
}

/// No two attempts of a process to write a plan go to the same temporary file, which is hidden and
/// never the plan file itself.
pub proof fn a_temporary_file_is_not_the_plan(name: Seq<char>, process: u32, attempt: u32)
    ensures
        temporary_file(name, process, attempt) == "."@ + name + "."@ + decimal(process as nat) + "."@ + decimal(
            attempt as nat,
        ) + ".tmp"@,
        temporary_file(name, process, attempt) != name,
{
    reveal_strlit(".");
    assert(temporary_file(name, process, attempt).len() > name.len());
}

} // verus!
