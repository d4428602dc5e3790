//! What the inventory tells: ages, totals, groups, and how a scan is put together.
use crate::model::{
    Account, ActionsCache, ActionsCacheView, Artifact, ArtifactView, CacheInventorySnapshot, CacheInventorySnapshotView,
    InventorySnapshot, InventorySnapshotView, WorkflowRunInventorySnapshotView, ProviderError, ProviderTelemetry,
    Repository, RepositoryRef, RepositoryView, ScanIssue, ScanIssueView, ScanScope, WorkflowRun,
    WorkflowRunInventorySnapshot, WorkflowRunView,
};
use crate::order::{
    key_less, le, lemma_three_parts, lemma_two_parts, sort, sorted, sorting_is_an_ordered_rearrangement, sum_by, tally,
    KeyPart, Order, Part,
};
use crate::text::{
    case_is_disregarded, decimal, decimal_writes_the_number, digits_value, eq_ignore_ascii_case, equal_but_for_case,
    lemma_text_less_irreflexive, number, same_ignoring_case, text_less,
};
use crate::time::Timestamp;
use crate::totals::{
    entry_bytes, group_bytes, group_count, grouped, groups, total, total_of, Entry, LargestFirst, Measured,
    StorageBucket, StorageBucketView,
};
use crate::value::{add_to, Value};
use vstd::prelude::*;

verus! {

impl Measured for Artifact {
    open spec fn size(value: ArtifactView) -> u64 {
        value.size_in_bytes
    }

    fn bytes(&self) -> (result: u64) {
        self.size_in_bytes
    }
}

impl Measured for ActionsCache {
    open spec fn size(value: ActionsCacheView) -> u64 {
        value.size_in_bytes
    }

    fn bytes(&self) -> (result: u64) {
        self.size_in_bytes
    }
}

impl ArtifactView {
    /// The branch of the run that made the artifact, where it is known.
    pub open spec fn branch(self) -> Option<Seq<char>> {
        match self.workflow_run {
            Some(run) => run.head_branch,
            None => None,
        }
    }

    /// The name of the workflow that made the artifact, where it is known.
    pub open spec fn workflow(self) -> Option<Seq<char>> {
        match self.workflow_run {
            Some(run) => run.workflow_name,
            None => None,
        }
    }
}

/// A text that may be missing.
pub open spec fn optional_text(value: Option<&str>) -> Option<Seq<char>> {
    match value {
        Some(text) => Some(text@),
        None => None,
    }
}

impl Artifact {
    /// Whole seconds since the artifact was created.
    pub fn age_seconds(&self, now: Timestamp) -> (result: u64)
        ensures
            result == now.since(self.created_at),
    {
        now.seconds_since(&self.created_at)
    }

    /// Whether the artifact is at least `seconds` old.
    pub fn older_than(&self, now: Timestamp, seconds: u64) -> (result: bool)
        ensures
            result == (now.since(self.created_at) >= seconds),
    {
        self.age_seconds(now) >= seconds
    }

    /// The branch of the run that made the artifact, where it is known.
    pub fn branch(&self) -> (result: Option<&str>)
        ensures
            optional_text(result) == self.deep_view().branch(),
    {
        match &self.workflow_run {
            Some(run) => match &run.head_branch {
                Some(branch) => Some(branch.as_str()),
                None => None,
            },
            None => None,
        }
    }

    /// The name of the workflow that made the artifact, where it is known.
    pub fn workflow(&self) -> (result: Option<&str>)
        ensures
            optional_text(result) == self.deep_view().workflow(),
    {
        match &self.workflow_run {
            Some(run) => match &run.workflow_name {
                Some(name) => Some(name.as_str()),
                None => None,
            },
            None => None,
        }
    }
}

impl ActionsCache {
    /// Whole seconds since the cache was created.
    pub fn age_seconds(&self, now: Timestamp) -> (result: u64)
        ensures
            result == now.since(self.created_at),
    {
        now.seconds_since(&self.created_at)
    }

    /// Whole seconds since the cache was last read.
    pub fn unused_seconds(&self, now: Timestamp) -> (result: u64)
        ensures
            result == now.since(self.last_accessed_at),
    {
        now.seconds_since(&self.last_accessed_at)
    }

    /// Whether the cache is at least `seconds` old.
    pub fn older_than(&self, now: Timestamp, seconds: u64) -> (result: bool)
        ensures
            result == (now.since(self.created_at) >= seconds),
    {
        self.age_seconds(now) >= seconds
    }

    /// Whether the cache was not read for at least `seconds`.
    pub fn unused_for(&self, now: Timestamp, seconds: u64) -> (result: bool)
        ensures
            result == (now.since(self.last_accessed_at) >= seconds),
    {
        self.unused_seconds(now) >= seconds
    }
}

impl WorkflowRunView {
    /// Whether the run has ended.
    pub open spec fn completed(self) -> bool {
        same_ignoring_case(self.status, "completed"@)
    }

    /// The run without the time of its last update, which a purge of its logs moves.
    pub open spec fn purge_identity(self) -> WorkflowRunView {
        WorkflowRunView { updated_at: self.created_at, ..self }
    }
}

impl WorkflowRun {
    /// Whole seconds since the run was created.
    pub fn age_seconds(&self, now: Timestamp) -> (result: u64)
        ensures
            result == now.since(self.created_at),
    {
        now.seconds_since(&self.created_at)
    }

    /// Whether the run is at least `seconds` old.
    pub fn older_than(&self, now: Timestamp, seconds: u64) -> (result: bool)
        ensures
            result == (now.since(self.created_at) >= seconds),
    {
        self.age_seconds(now) >= seconds
    }

    /// Whether the run has ended.
    pub fn is_completed(&self) -> (result: bool)
        ensures
            result == self.deep_view().completed(),
    {
        eq_ignore_ascii_case(self.status.as_str(), "completed")
    }

    /// Whether two runs are equal in all but the time of their last update.
    pub fn has_same_purge_identity(&self, other: &Self) -> (result: bool)
        ensures
            result == (self.deep_view().purge_identity() == other.deep_view().purge_identity()),
    {
        self.id == other.id && self.repository.same(&other.repository) && self.workflow_id == other.workflow_id
            && self.workflow_name.same(&other.workflow_name) && self.display_title.same(&other.display_title)
            && self.event.same(&other.event) && self.status.same(&other.status) && self.conclusion.same(
            &other.conclusion,
        ) && self.head_branch.same(&other.head_branch) && self.head_sha.same(&other.head_sha) && self.run_number
            == other.run_number && self.run_attempt == other.run_attempt && self.created_at == other.created_at
    }
}

/// The groups that artifacts fall into.
#[derive(Clone, Copy, Debug, PartialEq, Eq, Structural)]
pub enum ArtifactGrouping {
    Repository,
    Name,
    Branch,
    WorkflowRun,
}

/// The group of an artifact.
pub open spec fn artifact_group(artifact: ArtifactView, grouping: ArtifactGrouping) -> Seq<char> {
    match grouping {
        ArtifactGrouping::Repository => artifact.repository.full_name,
        ArtifactGrouping::Name => artifact.name,
        ArtifactGrouping::Branch => match artifact.branch() {
            Some(branch) => branch,
            None => "<unknown>"@,
        },
        ArtifactGrouping::WorkflowRun => match artifact.workflow_run {
            Some(run) => decimal(run.id as nat),
            None => "<unknown>"@,
        },
    }
}

/// The artifacts' groups and sizes.
pub open spec fn artifact_entries(artifacts: Seq<ArtifactView>, grouping: ArtifactGrouping) -> Seq<Entry> {
    Seq::new(artifacts.len(), |i: int| (artifact_group(artifacts[i], grouping), artifacts[i].size_in_bytes))
}

fn artifact_key(artifact: &Artifact, grouping: ArtifactGrouping) -> (result: String)
    ensures
        result@ == artifact_group(artifact.deep_view(), grouping),
{
    match grouping {
        ArtifactGrouping::Repository => artifact.repository.full_name.copied(),
        ArtifactGrouping::Name => artifact.name.copied(),
        ArtifactGrouping::Branch => match artifact.branch() {
            Some(branch) => branch.to_owned(),
            None => "<unknown>".to_owned(),
        },
        ArtifactGrouping::WorkflowRun => match &artifact.workflow_run {
            Some(run) => number(run.id),
            None => "<unknown>".to_owned(),
        },
    }
}

proof fn lemma_artifact_entry_bytes(artifacts: Seq<ArtifactView>, grouping: ArtifactGrouping)
    ensures
        entry_bytes(artifact_entries(artifacts, grouping)) == total::<Artifact>(artifacts),
    decreases artifacts.len(),
{
    if artifacts.len() > 0 {
        lemma_artifact_entry_bytes(artifacts.drop_last(), grouping);
        assert(artifact_entries(artifacts, grouping).drop_last() =~= artifact_entries(
            artifacts.drop_last(),
            grouping,
        ));
    }
}

fn aggregate(artifacts: &Vec<Artifact>, grouping: ArtifactGrouping) -> (result: Vec<StorageBucket>)
    requires
        total::<Artifact>(artifacts.deep_view()) <= u64::MAX,
    ensures
        groups(artifact_entries(artifacts.deep_view(), grouping), result.deep_view()),
        crate::order::in_order::<StorageBucket, LargestFirst>(result.deep_view(), LargestFirst),
{
    let mut keys: Vec<String> = Vec::new();
    let mut sizes: Vec<u64> = Vec::new();
    let ghost entries = artifact_entries(artifacts.deep_view(), grouping);
    let mut i: usize = 0;
    while i < artifacts.len()
        invariant
            i <= artifacts.len(),
            entries == artifact_entries(artifacts.deep_view(), grouping),
            keys.len() == i,
            sizes.len() == i,
            forall|k: int| 0 <= k < i ==> (keys@[k]@, sizes@[k]) == #[trigger] entries[k],
        decreases artifacts.len() - i,
    {
        keys.push(artifact_key(&artifacts[i], grouping));
        sizes.push(artifacts[i].size_in_bytes);
        i = i + 1;
    }
    proof {
        assert(Seq::new(keys@.len(), |k: int| (keys@[k]@, sizes@[k])) =~= entries);
        lemma_artifact_entry_bytes(artifacts.deep_view(), grouping);
    }
    grouped(keys, sizes)
}

impl InventorySnapshot {
    /// The storage that all artifacts take up.
    pub fn total_bytes(&self) -> (result: u64)
        requires
            total::<Artifact>(self.deep_view().artifacts) <= u64::MAX,
        ensures
            result == total::<Artifact>(self.deep_view().artifacts),
    {
        total_of(&self.artifacts)
    }

    pub fn artifact_count(&self) -> (result: usize)
        ensures
            result == self.deep_view().artifacts.len(),
    {
        self.artifacts.len()
    }

    /// The artifacts of each repository, the largest group first.
    pub fn aggregate_by_repository(&self) -> (result: Vec<StorageBucket>)
        requires
            total::<Artifact>(self.deep_view().artifacts) <= u64::MAX,
        ensures
            groups(
                artifact_entries(self.deep_view().artifacts, ArtifactGrouping::Repository),
                result.deep_view(),
            ),
            crate::order::in_order::<StorageBucket, LargestFirst>(result.deep_view(), LargestFirst),
    {
        aggregate(&self.artifacts, ArtifactGrouping::Repository)
    }

    /// The artifacts of each name, the largest group first.
    pub fn aggregate_by_name(&self) -> (result: Vec<StorageBucket>)
        requires
            total::<Artifact>(self.deep_view().artifacts) <= u64::MAX,
        ensures
            groups(artifact_entries(self.deep_view().artifacts, ArtifactGrouping::Name), result.deep_view()),
            crate::order::in_order::<StorageBucket, LargestFirst>(result.deep_view(), LargestFirst),
    {
        aggregate(&self.artifacts, ArtifactGrouping::Name)
    }

    /// The artifacts of each branch, the largest group first.
    pub fn aggregate_by_branch(&self) -> (result: Vec<StorageBucket>)
        requires
            total::<Artifact>(self.deep_view().artifacts) <= u64::MAX,
        ensures
            groups(artifact_entries(self.deep_view().artifacts, ArtifactGrouping::Branch), result.deep_view()),
            crate::order::in_order::<StorageBucket, LargestFirst>(result.deep_view(), LargestFirst),
    {
        aggregate(&self.artifacts, ArtifactGrouping::Branch)
    }

    /// The artifacts of each workflow run, the largest group first.
    pub fn aggregate_by_workflow_run(&self) -> (result: Vec<StorageBucket>)
        requires
            total::<Artifact>(self.deep_view().artifacts) <= u64::MAX,
        ensures
            groups(
                artifact_entries(self.deep_view().artifacts, ArtifactGrouping::WorkflowRun),
                result.deep_view(),
            ),
            crate::order::in_order::<StorageBucket, LargestFirst>(result.deep_view(), LargestFirst),
    {
        aggregate(&self.artifacts, ArtifactGrouping::WorkflowRun)
    }
}

/// The groups that caches fall into.
#[derive(Clone, Copy, Debug, PartialEq, Eq, Structural)]
pub enum CacheAggregationKey {
    Repository,
    Key,
    Ref,
}

/// The group of a cache.
pub open spec fn cache_group(cache: ActionsCacheView, group_by: CacheAggregationKey) -> Seq<char> {
    match group_by {
        CacheAggregationKey::Repository => cache.repository.full_name,
        CacheAggregationKey::Key => cache.key,
        CacheAggregationKey::Ref => cache.git_ref,
    }
}

/// The caches' groups and sizes.
pub open spec fn cache_entries(caches: Seq<ActionsCacheView>, group_by: CacheAggregationKey) -> Seq<Entry> {
    Seq::new(caches.len(), |i: int| (cache_group(caches[i], group_by), caches[i].size_in_bytes))
}

proof fn lemma_cache_entry_bytes(caches: Seq<ActionsCacheView>, group_by: CacheAggregationKey)
    ensures
        entry_bytes(cache_entries(caches, group_by)) == total::<ActionsCache>(caches),
    decreases caches.len(),
{
    if caches.len() > 0 {
        lemma_cache_entry_bytes(caches.drop_last(), group_by);
        assert(cache_entries(caches, group_by).drop_last() =~= cache_entries(caches.drop_last(), group_by));
    }
}

/// A group of caches.
#[derive(Clone, Debug, PartialEq, Eq)]
pub struct CacheStorageBucket {
    pub key: String,
    pub cache_count: usize,
    pub bytes: u64,
}

impl DeepView for CacheStorageBucket {
    type V = crate::totals::StorageBucketView;

    open spec fn deep_view(&self) -> crate::totals::StorageBucketView {
        crate::totals::StorageBucketView { key: self.key@, artifact_count: self.cache_count, bytes: self.bytes }
    }
}

/// The groups of the caches, the largest first.
pub fn aggregate_caches(caches: &Vec<ActionsCache>, group_by: CacheAggregationKey) -> (result: Vec<
    CacheStorageBucket,
>)
    requires
        total::<ActionsCache>(caches.deep_view()) <= u64::MAX,
    ensures
        groups(cache_entries(caches.deep_view(), group_by), result.deep_view()),
        crate::order::in_order::<StorageBucket, LargestFirst>(result.deep_view(), LargestFirst),
{
    let mut keys: Vec<String> = Vec::new();
    let mut sizes: Vec<u64> = Vec::new();
    let ghost entries = cache_entries(caches.deep_view(), group_by);
    let mut i: usize = 0;
    while i < caches.len()
        invariant
            i <= caches.len(),
            entries == cache_entries(caches.deep_view(), group_by),
            keys.len() == i,
            sizes.len() == i,
            forall|k: int| 0 <= k < i ==> (keys@[k]@, sizes@[k]) == #[trigger] entries[k],
        decreases caches.len() - i,
    {
        let key = match group_by {
            CacheAggregationKey::Repository => caches[i].repository.full_name.copied(),
            CacheAggregationKey::Key => caches[i].key.copied(),
            CacheAggregationKey::Ref => caches[i].git_ref.copied(),
        };
        keys.push(key);
        sizes.push(caches[i].size_in_bytes);
        i = i + 1;
    }
    proof {
        assert(Seq::new(keys@.len(), |k: int| (keys@[k]@, sizes@[k])) =~= entries);
        lemma_cache_entry_bytes(caches.deep_view(), group_by);
    }
    let buckets = grouped(keys, sizes);
    let mut result: Vec<CacheStorageBucket> = Vec::new();
    let mut j: usize = 0;
    while j < buckets.len()
        invariant
            j <= buckets.len(),
            result.len() == j,
            forall|k: int| 0 <= k < j ==> (#[trigger] result@[k]).deep_view() == buckets@[k].deep_view(),
        decreases buckets.len() - j,
    {
        result.push(
            CacheStorageBucket {
                key: buckets[j].key.copied(),
                cache_count: buckets[j].artifact_count,
                bytes: buckets[j].bytes,
            },
        );
        j = j + 1;
    }
    assert(result.deep_view() =~= buckets.deep_view());
    result
}

impl CacheInventorySnapshot {
    /// The storage that all caches take up.
    pub fn total_bytes(&self) -> (result: u64)
        requires
            total::<ActionsCache>(self.deep_view().caches) <= u64::MAX,
        ensures
            result == total::<ActionsCache>(self.deep_view().caches),
    {
        total_of(&self.caches)
    }

    pub fn cache_count(&self) -> (result: usize)
        ensures
            result == self.deep_view().caches.len(),
    {
        self.caches.len()
    }

    /// The caches of each repository, the largest group first.
    pub fn aggregate_by_repository(&self) -> (result: Vec<CacheStorageBucket>)
        requires
            total::<ActionsCache>(self.deep_view().caches) <= u64::MAX,
        ensures
            groups(cache_entries(self.deep_view().caches, CacheAggregationKey::Repository), result.deep_view()),
            crate::order::in_order::<StorageBucket, LargestFirst>(result.deep_view(), LargestFirst),
    {
        aggregate_caches(&self.caches, CacheAggregationKey::Repository)
    }

    /// The caches of each key, the largest group first.
    pub fn aggregate_by_key(&self) -> (result: Vec<CacheStorageBucket>)
        requires
            total::<ActionsCache>(self.deep_view().caches) <= u64::MAX,
        ensures
            groups(cache_entries(self.deep_view().caches, CacheAggregationKey::Key), result.deep_view()),
            crate::order::in_order::<StorageBucket, LargestFirst>(result.deep_view(), LargestFirst),
    {
        aggregate_caches(&self.caches, CacheAggregationKey::Key)
    }

    /// The caches of each ref, the largest group first.
    pub fn aggregate_by_ref(&self) -> (result: Vec<CacheStorageBucket>)
        requires
            total::<ActionsCache>(self.deep_view().caches) <= u64::MAX,
        ensures
            groups(cache_entries(self.deep_view().caches, CacheAggregationKey::Ref), result.deep_view()),
            crate::order::in_order::<StorageBucket, LargestFirst>(result.deep_view(), LargestFirst),
    {
        aggregate_caches(&self.caches, CacheAggregationKey::Ref)
    }
}

/// The completed runs among `runs`.
pub open spec fn completed_runs(runs: Seq<WorkflowRunView>) -> nat
    decreases runs.len(),
{
    if runs.len() == 0 {
        0
    } else {
        completed_runs(runs.drop_last()) + if runs.last().completed() { 1nat } else { 0nat }
    }
}

impl WorkflowRunInventorySnapshot {
    pub fn run_count(&self) -> (result: usize)
        ensures
            result == self.deep_view().runs.len(),
    {
        self.runs.len()
    }

    /// How many of the runs have ended.
    pub fn completed_count(&self) -> (result: usize)
        ensures
            result == completed_runs(self.deep_view().runs),
    {
        let ghost all = self.runs.deep_view();
        let mut count: usize = 0;
        let mut i: usize = 0;
        assert(all.take(0) =~= Seq::empty());
        while i < self.runs.len()
            invariant
                all == self.runs.deep_view(),
                i <= self.runs.len(),
                count <= i,
                count == completed_runs(all.take(i as int)),
            decreases self.runs.len() - i,
        {
            assert(all.take(i + 1).drop_last() =~= all.take(i as int));
            if self.runs[i].is_completed() {
                count = count + 1;
            }
            i = i + 1;
        }
        assert(all.take(i as int) =~= all);
        count
    }
}

/// Artifacts by repository, the newest first.
pub struct ArtifactInventoryOrder;

impl Order<Artifact> for ArtifactInventoryOrder {
    open spec fn key(&self, value: ArtifactView) -> Seq<Part> {
        seq![
            Part::Text(value.repository.full_name),
            Part::Number(-value.created_at.rank()),
            Part::Number(value.id as int),
        ]
    }

    fn key_of(&self, item: &Artifact) -> (result: Vec<KeyPart>) {
        let newest: i128 = item.created_at.falling();
        let result = vec![
            KeyPart::Text(item.repository.full_name.copied()),
            KeyPart::Number(newest),
            KeyPart::Number(item.id as i128),
        ];
        assert(result.deep_view() =~= self.key(item.deep_view()));
        result
    }
}

/// Caches by repository, the last read first.
pub struct CacheInventoryOrder;

impl Order<ActionsCache> for CacheInventoryOrder {
    open spec fn key(&self, value: ActionsCacheView) -> Seq<Part> {
        seq![
            Part::Text(value.repository.full_name),
            Part::Number(-value.last_accessed_at.rank()),
            Part::Number(value.id as int),
        ]
    }

    fn key_of(&self, item: &ActionsCache) -> (result: Vec<KeyPart>) {
        let newest: i128 = item.last_accessed_at.falling();
        let result = vec![
            KeyPart::Text(item.repository.full_name.copied()),
            KeyPart::Number(newest),
            KeyPart::Number(item.id as i128),
        ];
        assert(result.deep_view() =~= self.key(item.deep_view()));
        result
    }
}

/// Runs by repository, the newest first.
pub struct RunInventoryOrder;

impl Order<WorkflowRun> for RunInventoryOrder {
    open spec fn key(&self, value: WorkflowRunView) -> Seq<Part> {
        seq![
            Part::Text(value.repository.full_name),
            Part::Number(-value.created_at.rank()),
            Part::Number(value.id as int),
        ]
    }

    fn key_of(&self, item: &WorkflowRun) -> (result: Vec<KeyPart>) {
        let newest: i128 = item.created_at.falling();
        let result = vec![
            KeyPart::Text(item.repository.full_name.copied()),
            KeyPart::Number(newest),
            KeyPart::Number(item.id as i128),
        ];
        assert(result.deep_view() =~= self.key(item.deep_view()));
        result
    }
}

/// Repositories by their full names.
pub struct RepositoryOrder;

impl Order<Repository> for RepositoryOrder {
    open spec fn key(&self, value: RepositoryView) -> Seq<Part> {
        seq![Part::Text(value.full_name)]
    }

    fn key_of(&self, item: &Repository) -> (result: Vec<KeyPart>) {
        let result = vec![KeyPart::Text(item.full_name.copied())];
        assert(result.deep_view() =~= self.key(item.deep_view()));
        result
    }
}

/// Whether one of `excluded` names the repository, in whatever case.
pub open spec fn is_excluded(excluded: Seq<Seq<char>>, full_name: Seq<char>) -> bool {
    exists|i: int| 0 <= i < excluded.len() && same_ignoring_case(#[trigger] excluded[i], full_name)
}

/// The repositories that are not excluded, in the order in which they come.
pub open spec fn not_excluded(repositories: Seq<RepositoryView>, excluded: Seq<Seq<char>>) -> Seq<RepositoryView>
    decreases repositories.len(),
{
    if repositories.len() == 0 {
        Seq::empty()
    } else {
        let rest = not_excluded(repositories.drop_last(), excluded);
        if is_excluded(excluded, repositories.last().full_name) {
            rest
        } else {
            rest.push(repositories.last())
        }
    }
}

fn excludes(excluded: &Vec<String>, full_name: &str) -> (result: bool)
    ensures
        result == is_excluded(excluded.deep_view(), full_name@),
{
    let mut i: usize = 0;
    while i < excluded.len()
        invariant
            i <= excluded.len(),
            forall|k: int|
                0 <= k < i ==> !same_ignoring_case(#[trigger] excluded.deep_view()[k], full_name@),
        decreases excluded.len() - i,
    {
        if eq_ignore_ascii_case(excluded[i].as_str(), full_name) {
            assert(same_ignoring_case(excluded.deep_view()[i as int], full_name@));
            return true;
        }
        i = i + 1;
    }
    false
}

/// The repositories to scan: those that are not excluded, by their full names.
pub fn repositories_to_scan(repositories: &Vec<Repository>, excluded: &Vec<String>) -> (result: Vec<Repository>)
    ensures
        result.deep_view() == crate::order::sorted::<Repository, RepositoryOrder>(
            not_excluded(repositories.deep_view(), excluded.deep_view()),
            RepositoryOrder,
        ),
{
    let ghost all = repositories.deep_view();
    let mut kept: Vec<Repository> = Vec::new();
    let mut i: usize = 0;
    assert(all.take(0) =~= Seq::empty());
    assert(kept.deep_view() =~= Seq::empty());
    while i < repositories.len()
        invariant
            all == repositories.deep_view(),
            i <= repositories.len(),
            kept.deep_view() == not_excluded(all.take(i as int), excluded.deep_view()),
        decreases repositories.len() - i,
    {
        assert(all.take(i + 1).drop_last() =~= all.take(i as int));
        let ghost before = kept.deep_view();
        if !excludes(excluded, repositories[i].full_name.as_str()) {
            kept.push(repositories[i].copied());
            assert(kept.deep_view() =~= before.push(all[i as int]));
        }
        i = i + 1;
    }
    assert(all.take(i as int) =~= all);
    sort(kept, &RepositoryOrder)
}

/// How many repositories are scanned at a time.
pub open spec fn allowed_concurrency(requested: usize) -> usize {
    if requested < 1 {
        1
    } else if requested > 16 {
        16
    } else {
        requested
    }
}

/// How many repositories are scanned at a time: between one and sixteen.
pub fn scan_concurrency(requested: usize) -> (result: usize)
    ensures
        result == allowed_concurrency(requested),
        result == if requested < 1 { 1 } else if requested > 16 { 16 } else { requested },
{
    if requested < 1 {
        1
    } else if requested > 16 {
        16
    } else {
        requested
    }
}

/// What the scan of one repository gave.
pub struct RepositoryScan<T> {
    pub repository: String,
    pub result: Result<Vec<T>, ProviderError>,
}

/// All that the scans found, in the order in which they ended.
pub open spec fn found<T: DeepView>(scans: Seq<RepositoryScan<T>>) -> Seq<T::V>
    decreases scans.len(),
{
    if scans.len() == 0 {
        Seq::empty()
    } else {
        match scans.last().result {
            Ok(items) => found(scans.drop_last()) + items.deep_view(),
            Err(_) => found(scans.drop_last()),
        }
    }
}

/// An issue for each scan that failed.
pub open spec fn scan_issues<T: DeepView>(scans: Seq<RepositoryScan<T>>) -> Seq<ScanIssueView>
    decreases scans.len(),
{
    if scans.len() == 0 {
        Seq::empty()
    } else {
        match scans.last().result {
            Ok(items) => scan_issues(scans.drop_last()),
            Err(error) => scan_issues(scans.drop_last()).push(
                ScanIssueView { repository: Some(scans.last().repository@), message: error.text() },
            ),
        }
    }
}

/// Puts together what the scans found, in `order`, and an issue for each that failed.
pub fn merge_scans<T: Value, O: Order<T>>(scans: &Vec<RepositoryScan<T>>, order: &O) -> (result: (
    Vec<T>,
    Vec<ScanIssue>,
))
    ensures
        result.0.deep_view() == crate::order::sorted::<T, O>(found(scans@), *order),
        result.1.deep_view() == scan_issues(scans@),
{
    let mut items: Vec<T> = Vec::new();
    let mut issues: Vec<ScanIssue> = Vec::new();
    let mut i: usize = 0;
    assert(scans@.take(0) =~= Seq::empty());
    assert(items.deep_view() =~= found(scans@.take(0)));
    assert(issues.deep_view() =~= scan_issues(scans@.take(0)));
    while i < scans.len()
        invariant
            i <= scans.len(),
            items.deep_view() == found(scans@.take(i as int)),
            issues.deep_view() == scan_issues(scans@.take(i as int)),
        decreases scans.len() - i,
    {
        assert(scans@.take(i + 1).drop_last() =~= scans@.take(i as int));
        assert(scans@.take(i + 1).last() == scans@[i as int]);
        match &scans[i].result {
            Ok(found_items) => {
                let ghost before = items.deep_view();
                let mut j: usize = 0;
                assert(before =~= before + found_items.deep_view().take(0));
                while j < found_items.len()
                    invariant
                        j <= found_items.len(),
                        items.deep_view() == before + found_items.deep_view().take(j as int),
                    decreases found_items.len() - j,
                {
                    add_to(&mut items, found_items[j].copied());
                    j = j + 1;
                    assert(items.deep_view() =~= before + found_items.deep_view().take(j as int));
                }
                assert(found_items.deep_view().take(j as int) =~= found_items.deep_view());
            },
            Err(error) => {
                let issue = ScanIssue {
                    repository: Some(scans[i].repository.copied()),
                    message: error.message(),
                };
                let ghost before = issues.deep_view();
                let ghost added = issue.deep_view();
                issues.push(issue);
                assert(issues.deep_view() =~= before.push(added));
            },
        }
        i = i + 1;
    }
    assert(scans@.take(i as int) =~= scans@);
    (sort(items, order), issues)
}

/// Milliseconds, as far as they fit.
pub open spec fn fitting(ms: u128) -> u64 {
    if ms <= u64::MAX {
        ms as u64
    } else {
        u64::MAX
    }
}

fn fit(ms: u128) -> (result: u64)
    ensures
        result == fitting(ms),
{
    if ms <= u64::MAX as u128 {
        ms as u64
    } else {
        u64::MAX
    }
}

/// Takes stock of artifacts.
pub struct InventoryService;

impl InventoryService {
    /// The stock of artifacts, put together of the scans of the repositories.
    pub fn scan(
        account: Account,
        scope: ScanScope,
        repositories: Vec<Repository>,
        scans: &Vec<RepositoryScan<Artifact>>,
        scanned_at: Timestamp,
        elapsed_ms: u128,
        telemetry: ProviderTelemetry,
    ) -> (result: InventorySnapshot)
        ensures
            result.deep_view() == (InventorySnapshotView {
                account: account.deep_view(),
                scope: scope.deep_view(),
                scanned_at,
                elapsed_ms: fitting(elapsed_ms),
                repositories: repositories.deep_view(),
                artifacts: crate::order::sorted::<Artifact, ArtifactInventoryOrder>(found(scans@), ArtifactInventoryOrder),
                issues: scan_issues(scans@),
                telemetry: telemetry.deep_view(),
            }),
    {
        let (artifacts, issues) = merge_scans(scans, &ArtifactInventoryOrder);
        InventorySnapshot {
            account,
            scope,
            scanned_at,
            elapsed_ms: fit(elapsed_ms),
            repositories,
            artifacts,
            issues,
            telemetry,
        }
    }
}

/// Takes stock of caches.
pub struct CacheInventoryService;

impl CacheInventoryService {
    /// The stock of caches, put together of the scans of the repositories.
    pub fn scan(
        account: Account,
        scope: ScanScope,
        repositories: Vec<Repository>,
        scans: &Vec<RepositoryScan<ActionsCache>>,
        scanned_at: Timestamp,
        elapsed_ms: u128,
        telemetry: ProviderTelemetry,
    ) -> (result: CacheInventorySnapshot)
        ensures
            result.deep_view() == (CacheInventorySnapshotView {
                account: account.deep_view(),
                scope: scope.deep_view(),
                scanned_at,
                elapsed_ms: fitting(elapsed_ms),
                repositories: repositories.deep_view(),
                caches: crate::order::sorted::<ActionsCache, CacheInventoryOrder>(found(scans@), CacheInventoryOrder),
                issues: scan_issues(scans@),
                telemetry: telemetry.deep_view(),
            }),
    {
        let (caches, issues) = merge_scans(scans, &CacheInventoryOrder);
        CacheInventorySnapshot {
            account,
            scope,
            scanned_at,
            elapsed_ms: fit(elapsed_ms),
            repositories,
            caches,
            issues,
            telemetry,
        }
    }
}

/// Takes stock of workflow runs.
pub struct WorkflowRunInventoryService;

impl WorkflowRunInventoryService {
    /// The stock of workflow runs, put together of the scans of the repositories.
    pub fn scan(
        account: Account,
        scope: ScanScope,
        repositories: Vec<Repository>,
        scans: &Vec<RepositoryScan<WorkflowRun>>,
        scanned_at: Timestamp,
        elapsed_ms: u128,
        telemetry: ProviderTelemetry,
    ) -> (result: WorkflowRunInventorySnapshot)
        ensures
            result.deep_view() == (WorkflowRunInventorySnapshotView {
                account: account.deep_view(),
                scope: scope.deep_view(),
                scanned_at,
                elapsed_ms: fitting(elapsed_ms),
                repositories: repositories.deep_view(),
                runs: crate::order::sorted::<WorkflowRun, RunInventoryOrder>(found(scans@), RunInventoryOrder),
                issues: scan_issues(scans@),
                telemetry: telemetry.deep_view(),
            }),
    {
        let (runs, issues) = merge_scans(scans, &RunInventoryOrder);
        WorkflowRunInventorySnapshot {
            account,
            scope,
            scanned_at,
            elapsed_ms: fit(elapsed_ms),
            repositories,
            runs,
            issues,
            telemetry,
        }
    }
}

/// A stock is complete where every repository could be scanned: each scan that failed is an
/// issue, and nothing else is.
pub proof fn issues_are_the_failed_scans<T: DeepView>(scans: Seq<RepositoryScan<T>>)
    ensures
        scan_issues(scans).len() == 0 <==> forall|i: int|
            0 <= i < scans.len() ==> (#[trigger] scans[i]).result is Ok,
        scan_issues(scans).len() <= scans.len(),
    decreases scans.len(),
{
    if scans.len() > 0 {
        let before = scans.drop_last();
        issues_are_the_failed_scans(before);
        assert(forall|i: int| 0 <= i < before.len() ==> before[i] == scans[i]);
        assert(scans[scans.len() - 1] == scans.last());
        if forall|i: int| 0 <= i < before.len() ==> (#[trigger] before[i]).result is Ok {
            if scans.last().result is Ok {
                assert forall|i: int| 0 <= i < scans.len() implies (#[trigger] scans[i]).result is Ok by {
                    if i < before.len() {
                        assert(before[i].result is Ok);
                    }
                }
            }
        } else {
            let k = choose|k: int| 0 <= k < before.len() && !((#[trigger] before[k]).result is Ok);
            assert(!(scans[k].result is Ok));
        }
    }
}

/// The repository that a lookup means: the first that has its number or, in whatever case,
/// its full name.
pub open spec fn is_meant(candidate: RepositoryView, id: u64, full_name: Seq<char>) -> bool {
    candidate.id == id || same_ignoring_case(candidate.full_name, full_name)
}

/// The place of the repository that a lookup means.
pub fn find_repository(repositories: &Vec<Repository>, wanted: &RepositoryRef) -> (result: Option<usize>)
    ensures
        match result {
            Some(i) => {
                &&& i < repositories.len()
                &&& is_meant(repositories.deep_view()[i as int], wanted.id, wanted.full_name@)
                &&& forall|k: int|
                    0 <= k < i ==> !is_meant(
                        #[trigger] repositories.deep_view()[k],
                        wanted.id,
                        wanted.full_name@,
                    )
            },
            None => forall|k: int|
                0 <= k < repositories.len() ==> !is_meant(
                    #[trigger] repositories.deep_view()[k],
                    wanted.id,
                    wanted.full_name@,
                ),
        },
{
    let mut i: usize = 0;
    while i < repositories.len()
        invariant
            i <= repositories.len(),
            forall|k: int|
                0 <= k < i ==> !is_meant(#[trigger] repositories.deep_view()[k], wanted.id, wanted.full_name@),
        decreases repositories.len() - i,
    {
        if repositories[i].id == wanted.id || eq_ignore_ascii_case(
            repositories[i].full_name.as_str(),
            wanted.full_name.as_str(),
        ) {
            return Some(i);
        }
        i = i + 1;
    }
    None
}

/// The place of the first cache with the number `cache_id`.
pub fn find_cache(caches: &Vec<ActionsCache>, cache_id: u64) -> (result: Option<usize>)
    ensures
        match result {
            Some(i) => {
                &&& i < caches.len()
                &&& caches@[i as int].id == cache_id
                &&& forall|k: int| 0 <= k < i ==> (#[trigger] caches@[k]).id != cache_id
            },
            None => forall|k: int| 0 <= k < caches.len() ==> (#[trigger] caches@[k]).id != cache_id,
        },
{
    let mut i: usize = 0;
    while i < caches.len()
        invariant
            i <= caches.len(),
            forall|k: int| 0 <= k < i ==> (#[trigger] caches@[k]).id != cache_id,
        decreases caches.len() - i,
    {
        if caches[i].id == cache_id {
            return Some(i);
        }
        i = i + 1;
    }
    None
}

/// The artifacts take up what their sizes add up to.
pub proof fn artifact_sizes_add_up(artifacts: Seq<ArtifactView>)
    ensures
        total::<Artifact>(artifacts) == sum_by(artifacts, |a: ArtifactView| a.size_in_bytes as nat),
    decreases artifacts.len(),
{
    if artifacts.len() > 0 {
        artifact_sizes_add_up(artifacts.drop_last());
    }
}

/// The caches take up what their sizes add up to.
pub proof fn cache_sizes_add_up(caches: Seq<ActionsCacheView>)
    ensures
        total::<ActionsCache>(caches) == sum_by(caches, |c: ActionsCacheView| c.size_in_bytes as nat),
    decreases caches.len(),
{
    if caches.len() > 0 {
        cache_sizes_add_up(caches.drop_last());
    }
}

/// A run is completed where its status says so, in whatever case, and they are counted one by one.
pub proof fn completed_runs_are_counted(runs: Seq<WorkflowRunView>)
    ensures
        completed_runs(runs) == tally(runs, |r: WorkflowRunView| equal_but_for_case(r.status, "completed"@)),
        forall|r: WorkflowRunView| #[trigger] r.completed() <==> equal_but_for_case(r.status, "completed"@),
    decreases runs.len(),
{
    assert forall|r: WorkflowRunView| #[trigger] r.completed() <==> equal_but_for_case(r.status, "completed"@) by {
        case_is_disregarded(r.status, "completed"@);
    }
    if runs.len() > 0 {
        completed_runs_are_counted(runs.drop_last());
    }
}

/// Two runs are the same to a purge where nothing differs but the time of their last update.
pub proof fn only_the_last_update_may_differ(a: WorkflowRunView, b: WorkflowRunView)
    ensures
        a.purge_identity() == b.purge_identity() <==> a.id == b.id && a.repository == b.repository && a.workflow_id
            == b.workflow_id && a.workflow_name == b.workflow_name && a.display_title == b.display_title && a.event
            == b.event && a.status == b.status && a.conclusion == b.conclusion && a.head_branch == b.head_branch
            && a.head_sha == b.head_sha && a.run_number == b.run_number && a.run_attempt == b.run_attempt
            && a.created_at == b.created_at,
{
    let x = a.purge_identity();
    let y = b.purge_identity();
    if x == y {
        assert(x.id == y.id && x.repository == y.repository && x.workflow_id == y.workflow_id);
        assert(x.workflow_name == y.workflow_name && x.display_title == y.display_title && x.event == y.event);
        assert(x.status == y.status && x.conclusion == y.conclusion && x.head_branch == y.head_branch);
        assert(x.head_sha == y.head_sha && x.run_number == y.run_number && x.run_attempt == y.run_attempt);
        assert(x.created_at == y.created_at);
    }
}

/// Artifacts are grouped by their repository, their name, the branch of their run or the number of
/// their run; without a run or a branch they fall into a group of their own.
pub proof fn artifacts_are_grouped_by_what_is_asked(artifact: ArtifactView)
    ensures
        artifact_group(artifact, ArtifactGrouping::Repository) == artifact.repository.full_name,
        artifact_group(artifact, ArtifactGrouping::Name) == artifact.name,
        artifact.workflow_run is Some && artifact.workflow_run->0.head_branch is Some ==> artifact_group(
            artifact,
            ArtifactGrouping::Branch,
        ) == artifact.workflow_run->0.head_branch->0,
        artifact.workflow_run is None || artifact.workflow_run->0.head_branch is None ==> artifact_group(
            artifact,
            ArtifactGrouping::Branch,
        ) == "<unknown>"@,
        artifact.workflow_run is Some ==> digits_value(artifact_group(artifact, ArtifactGrouping::WorkflowRun))
            == artifact.workflow_run->0.id,
        artifact.workflow_run is None ==> artifact_group(artifact, ArtifactGrouping::WorkflowRun) == "<unknown>"@,
{
    if artifact.workflow_run is Some {
        decimal_writes_the_number(artifact.workflow_run->0.id as nat);
    }
}

/// A group holds the artifacts that fall into it, with all that they take up; every artifact is in
/// one group.
pub proof fn groups_hold_their_artifacts(
    artifacts: Seq<ArtifactView>,
    grouping: ArtifactGrouping,
    buckets: Seq<StorageBucketView>,
)
    requires
        groups(artifact_entries(artifacts, grouping), buckets),
    ensures
        forall|i: int|
            0 <= i < buckets.len() ==> (#[trigger] buckets[i]).artifact_count == tally(
                artifacts,
                |a: ArtifactView| artifact_group(a, grouping) == buckets[i].key,
            ) && buckets[i].bytes == sum_by(
                artifacts,
                |a: ArtifactView|
                    if artifact_group(a, grouping) == buckets[i].key {
                        a.size_in_bytes as nat
                    } else {
                        0
                    },
            ),
        forall|a: ArtifactView| #[trigger]
            artifacts.contains(a) ==> exists|i: int|
                0 <= i < buckets.len() && (#[trigger] buckets[i]).key == artifact_group(a, grouping),
{
    let entries = artifact_entries(artifacts, grouping);
    assert forall|i: int| 0 <= i < buckets.len() implies (#[trigger] buckets[i]).artifact_count == tally(
        artifacts,
        |a: ArtifactView| artifact_group(a, grouping) == buckets[i].key,
    ) && buckets[i].bytes == sum_by(
        artifacts,
        |a: ArtifactView|
            if artifact_group(a, grouping) == buckets[i].key {
                a.size_in_bytes as nat
            } else {
                0
            },
    ) by {
        lemma_artifact_group(artifacts, grouping, buckets[i].key);
    }
    assert forall|a: ArtifactView| #[trigger] artifacts.contains(a) implies exists|i: int|
        0 <= i < buckets.len() && (#[trigger] buckets[i]).key == artifact_group(a, grouping) by {
        let k = choose|k: int| 0 <= k < artifacts.len() && artifacts[k] == a;
        assert(entries[k].0 == artifact_group(a, grouping));
        let i = choose|i: int| 0 <= i < buckets.len() && (#[trigger] buckets[i]).key == entries[k].0;
        assert(buckets[i].key == artifact_group(a, grouping));
    }
}

proof fn lemma_artifact_group(artifacts: Seq<ArtifactView>, grouping: ArtifactGrouping, key: Seq<char>)
    ensures
        group_count(artifact_entries(artifacts, grouping), key) == tally(
            artifacts,
            |a: ArtifactView| artifact_group(a, grouping) == key,
        ),
        group_bytes(artifact_entries(artifacts, grouping), key) == sum_by(
            artifacts,
            |a: ArtifactView|
                if artifact_group(a, grouping) == key {
                    a.size_in_bytes as nat
                } else {
                    0
                },
        ),
    decreases artifacts.len(),
{
    let entries = artifact_entries(artifacts, grouping);
    if artifacts.len() > 0 {
        lemma_artifact_group(artifacts.drop_last(), grouping, key);
        assert(entries.drop_last() =~= artifact_entries(artifacts.drop_last(), grouping));
    }
}

/// Caches are grouped by their repository, their key or their ref; a group holds the caches that
/// fall into it, with all that they take up.
pub proof fn groups_hold_their_caches(
    caches: Seq<ActionsCacheView>,
    group_by: CacheAggregationKey,
    buckets: Seq<StorageBucketView>,
    i: int,
)
    requires
        groups(cache_entries(caches, group_by), buckets),
        0 <= i < buckets.len(),
    ensures
        ({
            let inside = |c: ActionsCacheView|
                {
                    ||| group_by == CacheAggregationKey::Repository && c.repository.full_name == buckets[i].key
                    ||| group_by == CacheAggregationKey::Key && c.key == buckets[i].key
                    ||| group_by == CacheAggregationKey::Ref && c.git_ref == buckets[i].key
                };
            &&& buckets[i].artifact_count == tally(caches, inside)
            &&& buckets[i].bytes == sum_by(
                caches,
                |c: ActionsCacheView|
                    if inside(c) {
                        c.size_in_bytes as nat
                    } else {
                        0
                    },
            )
        }),
{
    lemma_cache_group(caches, group_by, buckets[i].key);
}

proof fn lemma_cache_group(caches: Seq<ActionsCacheView>, group_by: CacheAggregationKey, key: Seq<char>)
    ensures
        ({
            let inside = |c: ActionsCacheView|
                {
                    ||| group_by == CacheAggregationKey::Repository && c.repository.full_name == key
                    ||| group_by == CacheAggregationKey::Key && c.key == key
                    ||| group_by == CacheAggregationKey::Ref && c.git_ref == key
                };
            &&& group_count(cache_entries(caches, group_by), key) == tally(caches, inside)
            &&& group_bytes(cache_entries(caches, group_by), key) == sum_by(
                caches,
                |c: ActionsCacheView|
                    if inside(c) {
                        c.size_in_bytes as nat
                    } else {
                        0
                    },
            )
        }),
    decreases caches.len(),
{
    let entries = cache_entries(caches, group_by);
    if caches.len() > 0 {
        lemma_cache_group(caches.drop_last(), group_by, key);
        assert(entries.drop_last() =~= cache_entries(caches.drop_last(), group_by));
    }
}

/// Groups stand with the largest first; those of one size by their names.
pub proof fn the_largest_group_comes_first(buckets: Seq<StorageBucketView>, i: int, j: int)
    requires
        crate::order::in_order::<StorageBucket, LargestFirst>(buckets, LargestFirst),
        0 <= i < j < buckets.len(),
    ensures
        buckets[i].bytes >= buckets[j].bytes,
        buckets[i].bytes == buckets[j].bytes ==> !text_less(buckets[j].key, buckets[i].key),
{
    let s = LargestFirst.key(buckets[j]);
    let t = LargestFirst.key(buckets[i]);
    assert(le::<StorageBucket, LargestFirst>(LargestFirst, buckets[i], buckets[j]));
    lemma_two_parts(s[0], s[1], t[0], t[1]);
    lemma_text_less_irreflexive(buckets[j].key);
}

/// The repositories that are scanned are those that nothing excludes by name, in whatever case.
pub proof fn excluded_repositories_are_not_scanned(repositories: Seq<RepositoryView>, excluded: Seq<Seq<char>>)
    ensures
        not_excluded(repositories, excluded) == repositories.filter(
            |r: RepositoryView|
                forall|i: int| 0 <= i < excluded.len() ==> !equal_but_for_case(#[trigger] excluded[i], r.full_name),
        ),
    decreases repositories.len(),
{
    reveal(Seq::filter);
    if repositories.len() > 0 {
        let name = repositories.last().full_name;
        excluded_repositories_are_not_scanned(repositories.drop_last(), excluded);
        assert forall|i: int| 0 <= i < excluded.len() implies same_ignoring_case(#[trigger] excluded[i], name)
            == equal_but_for_case(excluded[i], name) by {
            case_is_disregarded(excluded[i], name);
        }
    }
}

/// A stock holds what the scans that succeeded found, all of it and nothing else.
pub proof fn a_stock_holds_what_was_found<T: DeepView>(scans: Seq<RepositoryScan<T>>, x: T::V)
    ensures
        found(scans).contains(x) <==> exists|i: int|
            0 <= i < scans.len() && (#[trigger] scans[i]).result is Ok && scans[i].result->Ok_0.deep_view().contains(x),
        found(scans).len() == sum_by(
            scans,
            |s: RepositoryScan<T>|
                if s.result is Ok {
                    s.result->Ok_0.deep_view().len()
                } else {
                    0
                },
        ),
    decreases scans.len(),
{
    if scans.len() > 0 {
        let rest = scans.drop_last();
        a_stock_holds_what_was_found(rest, x);
        let before = found(rest);
        let all = found(scans);
        let last = scans.len() - 1;
        assert(scans[last] == scans.last());
        if scans.last().result is Ok {
            let items = scans.last().result->Ok_0.deep_view();
            assert(all == before + items);
            if before.contains(x) {
                let k = choose|k: int| 0 <= k < before.len() && before[k] == x;
                assert(all[k] == x);
            }
            if items.contains(x) {
                let k = choose|k: int| 0 <= k < items.len() && items[k] == x;
                assert(all[before.len() + k] == x);
            }
            if all.contains(x) {
                let k = choose|k: int| 0 <= k < all.len() && all[k] == x;
                if k < before.len() {
                    assert(before[k] == x);
                } else {
                    assert(items[k - before.len()] == x);
                }
            }
        }
        if before.contains(x) {
            let i = choose|i: int|
                0 <= i < rest.len() && (#[trigger] rest[i]).result is Ok && rest[i].result->Ok_0.deep_view().contains(x);
            assert(scans[i] == rest[i]);
        }
        if exists|i: int|
            0 <= i < scans.len() && (#[trigger] scans[i]).result is Ok && scans[i].result->Ok_0.deep_view().contains(x) {
            let i = choose|i: int|
                0 <= i < scans.len() && (#[trigger] scans[i]).result is Ok && scans[i].result->Ok_0.deep_view().contains(x);
            if i < last {
                assert(rest[i] == scans[i]);
            }
        }
    }
}

/// Each scan that failed leaves an issue that names its repository and says why; there are as many
/// issues as scans that failed.
pub proof fn a_failed_scan_leaves_its_issue<T: DeepView>(scans: Seq<RepositoryScan<T>>, i: int)
    ensures
        scan_issues(scans).len() == tally(scans, |s: RepositoryScan<T>| s.result is Err),
        0 <= i < scans.len() && scans[i].result is Err ==> scan_issues(scans).contains(
            (ScanIssueView { repository: Some(scans[i].repository@), message: scans[i].result->Err_0.text() }),
        ),
    decreases scans.len(),
{
    if scans.len() > 0 {
        let rest = scans.drop_last();
        a_failed_scan_leaves_its_issue(rest, i);
        let before = scan_issues(rest);
        let all = scan_issues(scans);
        if 0 <= i < scans.len() && scans[i].result is Err {
            let issue = ScanIssueView {
                repository: Some(scans[i].repository@),
                message: scans[i].result->Err_0.text(),
            };
            if i < rest.len() {
                assert(rest[i] == scans[i]);
                let k = choose|k: int| 0 <= k < before.len() && before[k] == issue;
                assert(all[k] == issue);
            } else {
                assert(all[all.len() - 1] == issue);
            }
        }
    }
}

/// A stock stands by repository. Within a repository artifacts and runs stand with the newest
/// first, caches with the last used first; what is of one time, by number.
pub proof fn a_stock_stands_by_repository(
    artifacts: Seq<ArtifactView>,
    caches: Seq<ActionsCacheView>,
    runs: Seq<WorkflowRunView>,
    i: int,
    j: int,
)
    requires
        0 <= i < j,
    ensures
        ({
            let list = sorted::<Artifact, ArtifactInventoryOrder>(artifacts, ArtifactInventoryOrder);
            &&& list.to_multiset() == artifacts.to_multiset()
            &&& j < list.len() ==> !stands_first(
                list[j].repository.full_name,
                list[j].created_at,
                list[j].id,
                list[i].repository.full_name,
                list[i].created_at,
                list[i].id,
            )
        }),
        ({
            let list = sorted::<ActionsCache, CacheInventoryOrder>(caches, CacheInventoryOrder);
            &&& list.to_multiset() == caches.to_multiset()
            &&& j < list.len() ==> !stands_first(
                list[j].repository.full_name,
                list[j].last_accessed_at,
                list[j].id,
                list[i].repository.full_name,
                list[i].last_accessed_at,
                list[i].id,
            )
        }),
        ({
            let list = sorted::<WorkflowRun, RunInventoryOrder>(runs, RunInventoryOrder);
            &&& list.to_multiset() == runs.to_multiset()
            &&& j < list.len() ==> !stands_first(
                list[j].repository.full_name,
                list[j].created_at,
                list[j].id,
                list[i].repository.full_name,
                list[i].created_at,
                list[i].id,
            )
        }),
{
    sorting_is_an_ordered_rearrangement::<Artifact, ArtifactInventoryOrder>(artifacts, ArtifactInventoryOrder);
    sorting_is_an_ordered_rearrangement::<ActionsCache, CacheInventoryOrder>(caches, CacheInventoryOrder);
    sorting_is_an_ordered_rearrangement::<WorkflowRun, RunInventoryOrder>(runs, RunInventoryOrder);
    let list = sorted::<Artifact, ArtifactInventoryOrder>(artifacts, ArtifactInventoryOrder);
    if j < list.len() {
        assert(le::<Artifact, ArtifactInventoryOrder>(ArtifactInventoryOrder, list[i], list[j]));
        lemma_stands_first(
            list[j].repository.full_name,
            list[j].created_at,
            list[j].id,
            list[i].repository.full_name,
            list[i].created_at,
            list[i].id,
        );
    }
    let list = sorted::<ActionsCache, CacheInventoryOrder>(caches, CacheInventoryOrder);
    if j < list.len() {
        assert(le::<ActionsCache, CacheInventoryOrder>(CacheInventoryOrder, list[i], list[j]));
        lemma_stands_first(
            list[j].repository.full_name,
            list[j].last_accessed_at,
            list[j].id,
            list[i].repository.full_name,
            list[i].last_accessed_at,
            list[i].id,
        );
    }
    let list = sorted::<WorkflowRun, RunInventoryOrder>(runs, RunInventoryOrder);
    if j < list.len() {
        assert(le::<WorkflowRun, RunInventoryOrder>(RunInventoryOrder, list[i], list[j]));
        lemma_stands_first(
            list[j].repository.full_name,
            list[j].created_at,
            list[j].id,
            list[i].repository.full_name,
            list[i].created_at,
            list[i].id,
        );
    }
}

/// Whether a thing of a repository, of a time and of a number stands before another.
pub open spec fn stands_first(
    repository: Seq<char>,
    at: Timestamp,
    id: u64,
    other_repository: Seq<char>,
    other_at: Timestamp,
    other_id: u64,
) -> bool {
    if repository != other_repository {
        text_less(repository, other_repository)
    } else if at.rank() != other_at.rank() {
        at.rank() > other_at.rank()
    } else {
        id < other_id
    }
}

proof fn lemma_stands_first(
    repository: Seq<char>,
    at: Timestamp,
    id: u64,
    other_repository: Seq<char>,
    other_at: Timestamp,
    other_id: u64,
)
    ensures
        key_less(
            seq![Part::Text(repository), Part::Number(-at.rank()), Part::Number(id as int)],
            seq![Part::Text(other_repository), Part::Number(-other_at.rank()), Part::Number(other_id as int)],
        ) <==> stands_first(repository, at, id, other_repository, other_at, other_id),
{
    let (a, b, c) = (Part::Text(repository), Part::Number(-at.rank()), Part::Number(id as int));
    let (x, y, z) = (Part::Text(other_repository), Part::Number(-other_at.rank()), Part::Number(other_id as int));
    lemma_three_parts(a, b, c, x, y, z);
    lemma_two_parts(b, c, y, z);
}

/// A lookup means the repository of its number or of its full name, in whatever case.
pub proof fn a_lookup_goes_by_number_or_name(candidate: RepositoryView, id: u64, full_name: Seq<char>)
    ensures
        is_meant(candidate, id, full_name) <==> candidate.id == id || equal_but_for_case(
            candidate.full_name,
            full_name,
        ),
{
    case_is_disregarded(candidate.full_name, full_name);
}

/// Milliseconds are kept as they are as long as they fit.
pub proof fn milliseconds_are_kept_where_they_fit(ms: u128)
    ensures
        ms <= u64::MAX ==> fitting(ms) == ms,
        ms > u64::MAX ==> fitting(ms) == u64::MAX,
{
}

/// As many repositories are scanned at a time as asked for, but at least one and at most sixteen; to
/// ask for more never gives less.
pub proof fn concurrency_is_as_asked_within_bounds(requested: usize, more: usize)
    ensures
        1 <= allowed_concurrency(requested) <= 16,
        1 <= requested <= 16 ==> allowed_concurrency(requested) == requested,
        requested <= more ==> allowed_concurrency(requested) <= allowed_concurrency(more),
{
}

} // verus!
