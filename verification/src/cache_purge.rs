//! Purging Actions caches: plans, their review and their execution, within the provider's
//! rate limit.
use crate::execution::{ExecutionAuthorization, ExecutionAuthorizationKind};
use crate::model::{
    answer, Account, AccountView, ActionsCache, ActionsCacheView, Answer, CacheInventorySnapshot,
    CacheInventorySnapshotView, DeleteOutcome, ProviderError, ProviderErrorView, ProviderTelemetry,
    ProviderTelemetryView, ScanScope, ScanScopeView,
};
use crate::inventory::cache_sizes_add_up;
use crate::order::{
    distinct, le, lemma_sorted_pairwise, lemma_sorted_pointwise, lemma_two_parts, sort, sort_distinct, sorted,
    sorting_is_an_ordered_rearrangement, sum_by, tally, Ascending, KeyPart, Order, Part,
};
use crate::run_purge::account_text;
use crate::text::{
    case_is_disregarded, contains, contains_text, decimal, eq_ignore_ascii_case, equal_but_for_case, join2, join3,
    lemma_text_less_irreflexive, number, occurs_at, same_ignoring_case, same_text, text_less,
};
use crate::time::{utc_now, Timestamp};
use crate::totals::{capped, capped_total_of, total};
use crate::value::{add_to, nothing, Value};
use vstd::prelude::*;
use vstd::string::StringExecFns;

verus! {

/// The version of the plans that this library writes and reads.
pub const CACHE_PURGE_PLAN_SCHEMA_VERSION: u32 = 1;

/// The requests of the provider's rate limit that a purge leaves to others.
pub const CACHE_PURGE_RATE_LIMIT_HEADROOM: u64 = 250;

/// How the caches of a plan were chosen.
#[derive(Clone, Copy, Debug, PartialEq, Eq, Structural)]
pub enum CachePurgeSelectionMode {
    ExplicitCacheIds,
    AllCaches,
}

impl DeepView for CachePurgeSelectionMode {
    type V = CachePurgeSelectionMode;

    open spec fn deep_view(&self) -> CachePurgeSelectionMode {
        *self
    }
}

impl Value for CachePurgeSelectionMode {
    fn copied(&self) -> (result: Self) {
        *self
    }

    fn same(&self, other: &Self) -> (result: bool) {
        *self == *other
    }
}

/// What was asked for when the caches of a plan were chosen.
#[derive(Clone, Debug, PartialEq, Eq)]
pub struct CachePurgeSelection {
    pub mode: CachePurgeSelectionMode,
    pub requested_cache_ids: Vec<u64>,
}

/// The contents of [`CachePurgeSelection`].
#[verifier::ext_equal]
pub struct CachePurgeSelectionView {
    pub mode: CachePurgeSelectionMode,
    pub requested_cache_ids: Seq<u64>,
}

impl DeepView for CachePurgeSelection {
    type V = CachePurgeSelectionView;

    open spec fn deep_view(&self) -> CachePurgeSelectionView {
        CachePurgeSelectionView {
            mode: self.mode,
            requested_cache_ids: self.requested_cache_ids.deep_view(),
        }
    }
}

impl Value for CachePurgeSelection {
    fn copied(&self) -> (result: Self) {
        CachePurgeSelection {
            mode: self.mode,
            requested_cache_ids: self.requested_cache_ids.copied(),
        }
    }

    fn same(&self, other: &Self) -> (result: bool) {
        self.mode == other.mode
            && self.requested_cache_ids.same(&other.requested_cache_ids)
    }
}

impl CachePurgeSelection {
    /// The caches with given numbers, each of them once.
    pub fn explicit(ids: Vec<u64>) -> (result: Self)
        ensures
            result.deep_view() == (CachePurgeSelectionView {
                mode: CachePurgeSelectionMode::ExplicitCacheIds,
                requested_cache_ids: distinct::<u64, Ascending>(ids.deep_view(), Ascending),
            }),
    {
        CachePurgeSelection {
            mode: CachePurgeSelectionMode::ExplicitCacheIds,
            requested_cache_ids: sort_distinct(ids, &Ascending),
        }
    }

    /// All caches.
    pub fn all() -> (result: Self)
        ensures
            result.deep_view() == (CachePurgeSelectionView {
                mode: CachePurgeSelectionMode::AllCaches,
                requested_cache_ids: Seq::empty(),
            }),
    {
        CachePurgeSelection { mode: CachePurgeSelectionMode::AllCaches, requested_cache_ids: nothing() }
    }
}

/// How much a plan covers.
#[derive(Clone, Debug, PartialEq, Eq)]
pub struct CachePurgePlanSummary {
    cache_count: usize,
    cache_bytes: u64,
}

/// The contents of [`CachePurgePlanSummary`].
#[verifier::ext_equal]
pub struct CachePurgePlanSummaryView {
    pub cache_count: usize,
    pub cache_bytes: u64,
}

impl DeepView for CachePurgePlanSummary {
    type V = CachePurgePlanSummaryView;

    closed spec fn deep_view(&self) -> CachePurgePlanSummaryView {
        CachePurgePlanSummaryView {
            cache_count: self.cache_count,
            cache_bytes: self.cache_bytes,
        }
    }
}

impl Value for CachePurgePlanSummary {
    fn copied(&self) -> (result: Self) {
        CachePurgePlanSummary {
            cache_count: self.cache_count,
            cache_bytes: self.cache_bytes,
        }
    }

    fn same(&self, other: &Self) -> (result: bool) {
        self.cache_count == other.cache_count
            && self.cache_bytes == other.cache_bytes
    }
}

impl CachePurgePlanSummary {
    /// A summary as it was stored.
    pub fn restored(cache_count: usize, cache_bytes: u64) -> (result: Self)
        ensures
            result.deep_view() == (CachePurgePlanSummaryView { cache_count, cache_bytes }),
    {
        CachePurgePlanSummary { cache_count, cache_bytes }
    }

    pub fn cache_count(&self) -> (result: usize)
        ensures
            result == self.deep_view().cache_count,
    {
        self.cache_count
    }

    pub fn cache_bytes(&self) -> (result: u64)
        ensures
            result == self.deep_view().cache_bytes,
    {
        self.cache_bytes
    }

}

/// A plan that purges caches.
#[derive(Clone, Debug, PartialEq, Eq)]
pub struct CachePurgePlan {
    pub schema_version: u32,
    pub resource: String,
    pub created_at: Timestamp,
    pub scanned_at: Timestamp,
    pub account: Account,
    pub scope: ScanScope,
    pub selection: CachePurgeSelection,
    pub summary: CachePurgePlanSummary,
    pub targets: Vec<ActionsCache>,
}

/// The contents of [`CachePurgePlan`].
#[verifier::ext_equal]
pub struct CachePurgePlanView {
    pub schema_version: u32,
    pub resource: Seq<char>,
    pub created_at: Timestamp,
    pub scanned_at: Timestamp,
    pub account: AccountView,
    pub scope: ScanScopeView,
    pub selection: CachePurgeSelectionView,
    pub summary: CachePurgePlanSummaryView,
    pub targets: Seq<ActionsCacheView>,
}

impl DeepView for CachePurgePlan {
    type V = CachePurgePlanView;

    open spec fn deep_view(&self) -> CachePurgePlanView {
        CachePurgePlanView {
            schema_version: self.schema_version,
            resource: self.resource.deep_view(),
            created_at: self.created_at,
            scanned_at: self.scanned_at,
            account: self.account.deep_view(),
            scope: self.scope.deep_view(),
            selection: self.selection.deep_view(),
            summary: self.summary.deep_view(),
            targets: self.targets.deep_view(),
        }
    }
}

/// Why caches are not purged.
#[derive(Clone, Debug, PartialEq, Eq)]
pub enum CachePurgeError {
    IncompleteSnapshot { issue_count: usize },
    CacheNotInSnapshot { repository: String, cache_id: u64 },
    CacheDisappearedDuringPlanning { repository: String, cache_id: u64 },
    CacheChangedDuringPlanning { repository: String, cache_id: u64 },
    DuplicateTarget { repository: String, cache_id: u64 },
    PlanSummaryMismatch,
    UnsupportedPlanSchema { found: u32, supported: u32 },
    WrongResource(String),
    RateLimitHeadroomGuard { phase: &'static str, remaining: u64, reserved: u64 },
    ReviewTargetMismatch,
    ReviewUnsafe,
    AccountMismatch { expected: String, current: String },
    Provider(ProviderError),
}

/// The contents of [`CachePurgeError`].
#[verifier::ext_equal]
pub enum CachePurgeErrorView {
    IncompleteSnapshot { issue_count: usize },
    CacheNotInSnapshot { repository: Seq<char>, cache_id: u64 },
    CacheDisappearedDuringPlanning { repository: Seq<char>, cache_id: u64 },
    CacheChangedDuringPlanning { repository: Seq<char>, cache_id: u64 },
    DuplicateTarget { repository: Seq<char>, cache_id: u64 },
    PlanSummaryMismatch,
    UnsupportedPlanSchema { found: u32, supported: u32 },
    WrongResource(Seq<char>),
    RateLimitHeadroomGuard { phase: Seq<char>, remaining: u64, reserved: u64 },
    ReviewTargetMismatch,
    ReviewUnsafe,
    AccountMismatch { expected: Seq<char>, current: Seq<char> },
    Provider(ProviderErrorView),
}

impl DeepView for CachePurgeError {
    type V = CachePurgeErrorView;

    open spec fn deep_view(&self) -> CachePurgeErrorView {
        match self {
            CachePurgeError::IncompleteSnapshot { issue_count } => CachePurgeErrorView::IncompleteSnapshot { issue_count: *issue_count },
            CachePurgeError::CacheNotInSnapshot { repository, cache_id } => CachePurgeErrorView::CacheNotInSnapshot { repository: repository.deep_view(), cache_id: *cache_id },
            CachePurgeError::CacheDisappearedDuringPlanning { repository, cache_id } => CachePurgeErrorView::CacheDisappearedDuringPlanning { repository: repository.deep_view(), cache_id: *cache_id },
            CachePurgeError::CacheChangedDuringPlanning { repository, cache_id } => CachePurgeErrorView::CacheChangedDuringPlanning { repository: repository.deep_view(), cache_id: *cache_id },
            CachePurgeError::DuplicateTarget { repository, cache_id } => CachePurgeErrorView::DuplicateTarget { repository: repository.deep_view(), cache_id: *cache_id },
            CachePurgeError::PlanSummaryMismatch => CachePurgeErrorView::PlanSummaryMismatch,
            CachePurgeError::UnsupportedPlanSchema { found, supported } => CachePurgeErrorView::UnsupportedPlanSchema { found: *found, supported: *supported },
            CachePurgeError::WrongResource(field0) => CachePurgeErrorView::WrongResource(field0.deep_view()),
            CachePurgeError::RateLimitHeadroomGuard { phase, remaining, reserved } => CachePurgeErrorView::RateLimitHeadroomGuard { phase: phase@, remaining: *remaining, reserved: *reserved },
            CachePurgeError::ReviewTargetMismatch => CachePurgeErrorView::ReviewTargetMismatch,
            CachePurgeError::ReviewUnsafe => CachePurgeErrorView::ReviewUnsafe,
            CachePurgeError::AccountMismatch { expected, current } => CachePurgeErrorView::AccountMismatch { expected: expected.deep_view(), current: current.deep_view() },
            CachePurgeError::Provider(field0) => CachePurgeErrorView::Provider(field0.deep_view()),
        }
    }
}

impl CachePurgeErrorView {
    /// The error in words.
    pub open spec fn text(self) -> Seq<char> {
        match self {
            CachePurgeErrorView::IncompleteSnapshot { issue_count } => "refusing cache purge plan from incomplete inventory with "@ + decimal(issue_count as nat) + " scan issue(s)"@,
            CachePurgeErrorView::CacheNotInSnapshot { repository, cache_id } => "cache "@ + repository + "#"@ + decimal(cache_id as nat) + " is not present in the immutable source snapshot"@,
            CachePurgeErrorView::CacheDisappearedDuringPlanning { repository, cache_id } => "cache "@ + repository + "#"@ + decimal(cache_id as nat) + " disappeared while the purge plan was being built"@,
            CachePurgeErrorView::CacheChangedDuringPlanning { repository, cache_id } => "cache "@ + repository + "#"@ + decimal(cache_id as nat) + " changed while the purge plan was being built"@,
            CachePurgeErrorView::DuplicateTarget { repository, cache_id } => "duplicate cache purge target "@ + repository + "#"@ + decimal(cache_id as nat),
            CachePurgeErrorView::PlanSummaryMismatch => "cache purge plan summary does not match its immutable targets"@,
            CachePurgeErrorView::UnsupportedPlanSchema { found, supported } => "unsupported cache purge plan schema version "@ + decimal(found as nat) + "; supported version is "@ + decimal(supported as nat),
            CachePurgeErrorView::WrongResource(field0) => "cache purge plan has unexpected resource discriminator "@ + field0,
            CachePurgeErrorView::RateLimitHeadroomGuard { phase, remaining, reserved } => "cache purge "@ + phase + " halted by GitHub API rate-limit guard: "@ + decimal(remaining as nat) + " requests remaining, reserving "@ + decimal(reserved as nat),
            CachePurgeErrorView::ReviewTargetMismatch => "cache purge review does not match immutable plan targets"@,
            CachePurgeErrorView::ReviewUnsafe => "cache purge review contains unsafe target state"@,
            CachePurgeErrorView::AccountMismatch { expected, current } => "authenticated account changed from "@ + expected + " to "@ + current,
            CachePurgeErrorView::Provider(field0) => field0.text(),
        }
    }
}

impl CachePurgeError {
    /// The error in words.
    pub fn message(&self) -> (result: String)
        ensures
            result@ == self.deep_view().text(),
    {
        match self {
            CachePurgeError::IncompleteSnapshot { issue_count } => {
                let mut text = "refusing cache purge plan from incomplete inventory with ".to_owned();
                text.append(number(*issue_count as u64).as_str());
                text.append(" scan issue(s)");
                text
            },
            CachePurgeError::CacheNotInSnapshot { repository, cache_id } => {
                let mut text = "cache ".to_owned();
                text.append(repository.as_str());
                text.append("#");
                text.append(number(*cache_id).as_str());
                text.append(" is not present in the immutable source snapshot");
                text
            },
            CachePurgeError::CacheDisappearedDuringPlanning { repository, cache_id } => {
                let mut text = "cache ".to_owned();
                text.append(repository.as_str());
                text.append("#");
                text.append(number(*cache_id).as_str());
                text.append(" disappeared while the purge plan was being built");
                text
            },
            CachePurgeError::CacheChangedDuringPlanning { repository, cache_id } => {
                let mut text = "cache ".to_owned();
                text.append(repository.as_str());
                text.append("#");
                text.append(number(*cache_id).as_str());
                text.append(" changed while the purge plan was being built");
                text
            },
            CachePurgeError::DuplicateTarget { repository, cache_id } => {
                let mut text = "duplicate cache purge target ".to_owned();
                text.append(repository.as_str());
                text.append("#");
                text.append(number(*cache_id).as_str());
                text
            },
            CachePurgeError::PlanSummaryMismatch => "cache purge plan summary does not match its immutable targets".to_owned(),
            CachePurgeError::UnsupportedPlanSchema { found, supported } => {
                let mut text = "unsupported cache purge plan schema version ".to_owned();
                text.append(number(*found as u64).as_str());
                text.append("; supported version is ");
                text.append(number(*supported as u64).as_str());
                text
            },
            CachePurgeError::WrongResource(field0) => {
                let mut text = "cache purge plan has unexpected resource discriminator ".to_owned();
                text.append(field0.as_str());
                text
            },
            CachePurgeError::RateLimitHeadroomGuard { phase, remaining, reserved } => {
                let mut text = "cache purge ".to_owned();
                text.append(phase);
                text.append(" halted by GitHub API rate-limit guard: ");
                text.append(number(*remaining).as_str());
                text.append(" requests remaining, reserving ");
                text.append(number(*reserved).as_str());
                text
            },
            CachePurgeError::ReviewTargetMismatch => "cache purge review does not match immutable plan targets".to_owned(),
            CachePurgeError::ReviewUnsafe => "cache purge review contains unsafe target state".to_owned(),
            CachePurgeError::AccountMismatch { expected, current } => {
                let mut text = "authenticated account changed from ".to_owned();
                text.append(expected.as_str());
                text.append(" to ");
                text.append(current.as_str());
                text
            },
            CachePurgeError::Provider(field0) => field0.message(),
        }
    }
}

/// What a review found of a cache.
#[derive(Clone, Copy, Debug, PartialEq, Eq, Structural)]
pub enum CachePurgeRevalidationState {
    Ready,
    AlreadyAbsent,
    Changed,
    RevalidationFailed,
}

impl DeepView for CachePurgeRevalidationState {
    type V = CachePurgeRevalidationState;

    open spec fn deep_view(&self) -> CachePurgeRevalidationState {
        *self
    }
}

impl Value for CachePurgeRevalidationState {
    fn copied(&self) -> (result: Self) {
        *self
    }

    fn same(&self, other: &Self) -> (result: bool) {
        *self == *other
    }
}

/// What a review found of one cache.
#[derive(Clone, Debug, PartialEq, Eq)]
pub struct CachePurgeRevalidationItem {
    pub repository: String,
    pub cache_id: u64,
    pub state: CachePurgeRevalidationState,
    pub current: Option<ActionsCache>,
    pub error: Option<String>,
}

/// The contents of [`CachePurgeRevalidationItem`].
#[verifier::ext_equal]
pub struct CachePurgeRevalidationItemView {
    pub repository: Seq<char>,
    pub cache_id: u64,
    pub state: CachePurgeRevalidationState,
    pub current: Option<ActionsCacheView>,
    pub error: Option<Seq<char>>,
}

impl DeepView for CachePurgeRevalidationItem {
    type V = CachePurgeRevalidationItemView;

    open spec fn deep_view(&self) -> CachePurgeRevalidationItemView {
        CachePurgeRevalidationItemView {
            repository: self.repository.deep_view(),
            cache_id: self.cache_id,
            state: self.state,
            current: self.current.deep_view(),
            error: self.error.deep_view(),
        }
    }
}

/// The review of a plan.
#[derive(Clone, Debug, PartialEq, Eq)]
pub struct CachePurgeRevalidationReport {
    pub checked_at: Timestamp,
    pub account: Account,
    pub telemetry: ProviderTelemetry,
    pub items: Vec<CachePurgeRevalidationItem>,
}

/// The contents of [`CachePurgeRevalidationReport`].
#[verifier::ext_equal]
pub struct CachePurgeRevalidationReportView {
    pub checked_at: Timestamp,
    pub account: AccountView,
    pub telemetry: ProviderTelemetryView,
    pub items: Seq<CachePurgeRevalidationItemView>,
}

impl DeepView for CachePurgeRevalidationReport {
    type V = CachePurgeRevalidationReportView;

    open spec fn deep_view(&self) -> CachePurgeRevalidationReportView {
        CachePurgeRevalidationReportView {
            checked_at: self.checked_at,
            account: self.account.deep_view(),
            telemetry: self.telemetry.deep_view(),
            items: self.items.deep_view(),
        }
    }
}

/// What became of a cache.
#[derive(Clone, Copy, Debug, PartialEq, Eq, Structural)]
pub enum CachePurgeExecutionState {
    Deleted,
    AlreadyAbsent,
    Changed,
    RevalidationFailed,
    DeleteFailed,
    VerificationFailed,
    Blocked,
}

impl DeepView for CachePurgeExecutionState {
    type V = CachePurgeExecutionState;

    open spec fn deep_view(&self) -> CachePurgeExecutionState {
        *self
    }
}

impl Value for CachePurgeExecutionState {
    fn copied(&self) -> (result: Self) {
        *self
    }

    fn same(&self, other: &Self) -> (result: bool) {
        *self == *other
    }
}

/// What became of a target.
#[derive(Clone, Debug, PartialEq, Eq)]
pub struct CachePurgeExecutionItem {
    pub planned: ActionsCache,
    pub state: CachePurgeExecutionState,
    pub current: Option<ActionsCache>,
    pub error: Option<String>,
}

/// The contents of [`CachePurgeExecutionItem`].
#[verifier::ext_equal]
pub struct CachePurgeExecutionItemView {
    pub planned: ActionsCacheView,
    pub state: CachePurgeExecutionState,
    pub current: Option<ActionsCacheView>,
    pub error: Option<Seq<char>>,
}

impl DeepView for CachePurgeExecutionItem {
    type V = CachePurgeExecutionItemView;

    open spec fn deep_view(&self) -> CachePurgeExecutionItemView {
        CachePurgeExecutionItemView {
            planned: self.planned.deep_view(),
            state: self.state,
            current: self.current.deep_view(),
            error: self.error.deep_view(),
        }
    }
}

/// What became of a plan.
#[derive(Clone, Debug, PartialEq, Eq)]
pub struct CachePurgeExecutionReport {
    pub started_at: Timestamp,
    pub completed_at: Timestamp,
    pub account: Account,
    pub plan_schema_version: u32,
    pub plan_created_at: Timestamp,
    pub plan_scanned_at: Timestamp,
    pub scope: ScanScope,
    pub selection: CachePurgeSelection,
    pub authorization: ExecutionAuthorizationKind,
    pub telemetry: ProviderTelemetry,
    pub items: Vec<CachePurgeExecutionItem>,
}

/// The contents of [`CachePurgeExecutionReport`].
#[verifier::ext_equal]
pub struct CachePurgeExecutionReportView {
    pub started_at: Timestamp,
    pub completed_at: Timestamp,
    pub account: AccountView,
    pub plan_schema_version: u32,
    pub plan_created_at: Timestamp,
    pub plan_scanned_at: Timestamp,
    pub scope: ScanScopeView,
    pub selection: CachePurgeSelectionView,
    pub authorization: ExecutionAuthorizationKind,
    pub telemetry: ProviderTelemetryView,
    pub items: Seq<CachePurgeExecutionItemView>,
}

impl DeepView for CachePurgeExecutionReport {
    type V = CachePurgeExecutionReportView;

    open spec fn deep_view(&self) -> CachePurgeExecutionReportView {
        CachePurgeExecutionReportView {
            started_at: self.started_at,
            completed_at: self.completed_at,
            account: self.account.deep_view(),
            plan_schema_version: self.plan_schema_version,
            plan_created_at: self.plan_created_at,
            plan_scanned_at: self.plan_scanned_at,
            scope: self.scope.deep_view(),
            selection: self.selection.deep_view(),
            authorization: self.authorization,
            telemetry: self.telemetry.deep_view(),
            items: self.items.deep_view(),
        }
    }
}

/// Caches by repository and number.
pub struct CacheTargetOrder;

impl Order<ActionsCache> for CacheTargetOrder {
    open spec fn key(&self, value: ActionsCacheView) -> Seq<Part> {
        seq![Part::Text(value.repository.full_name), Part::Number(value.id as int)]
    }

    fn key_of(&self, item: &ActionsCache) -> (result: Vec<KeyPart>) {
        let result = vec![KeyPart::Text(item.repository.full_name.copied()), KeyPart::Number(item.id as i128)];
        assert(result.deep_view() =~= self.key(item.deep_view()));
        result
    }
}

/// Two caches that differ in number or, in whatever case, in repository.
pub open spec fn different_caches(a: ActionsCacheView, b: ActionsCacheView) -> bool {
    !same_ignoring_case(a.repository.full_name, b.repository.full_name) || a.id != b.id
}

/// Whether a target before `i` is the cache at `i`.
pub open spec fn cache_repeats(targets: Seq<ActionsCacheView>, i: int) -> bool {
    exists|j: int| 0 <= j < i && !different_caches(#[trigger] targets[j], targets[i])
}

/// What is wrong with the target at `i`; `known` are the caches that it must be one of, if any
/// are given.
pub open spec fn target_problem(
    known: Option<Seq<ActionsCacheView>>,
    targets: Seq<ActionsCacheView>,
    i: int,
) -> Option<CachePurgeErrorView> {
    let repository = targets[i].repository.full_name;
    if cache_repeats(targets, i) {
        Some(CachePurgeErrorView::DuplicateTarget { repository, cache_id: targets[i].id })
    } else if known is Some && !known->0.contains(targets[i]) {
        Some(CachePurgeErrorView::CacheNotInSnapshot { repository, cache_id: targets[i].id })
    } else {
        None
    }
}

/// The first thing that is wrong with the targets from `from` on.
pub open spec fn targets_problem(
    known: Option<Seq<ActionsCacheView>>,
    targets: Seq<ActionsCacheView>,
    from: int,
) -> Option<CachePurgeErrorView>
    decreases targets.len() - from,
{
    if from < 0 || from >= targets.len() {
        None
    } else {
        match target_problem(known, targets, from) {
            Some(problem) => Some(problem),
            None => targets_problem(known, targets, from + 1),
        }
    }
}

/// The summary that fits the targets.
pub open spec fn summary_of(targets: Seq<ActionsCacheView>) -> CachePurgePlanSummaryView {
    CachePurgePlanSummaryView {
        cache_count: targets.len() as usize,
        cache_bytes: capped(total::<ActionsCache>(targets)),
    }
}

/// The first reason why a plan cannot be made of the targets.
pub open spec fn plan_problem(
    snapshot: CacheInventorySnapshotView,
    targets: Seq<ActionsCacheView>,
) -> Option<CachePurgeErrorView> {
    if snapshot.issues.len() > 0 {
        Some(CachePurgeErrorView::IncompleteSnapshot { issue_count: snapshot.issues.len() as usize })
    } else {
        targets_problem(
            Some(snapshot.caches),
            sorted::<ActionsCache, CacheTargetOrder>(targets, CacheTargetOrder),
            0,
        )
    }
}

/// The plan of the targets.
pub open spec fn plan_of(
    snapshot: CacheInventorySnapshotView,
    created_at: Timestamp,
    selection: CachePurgeSelectionView,
    targets: Seq<ActionsCacheView>,
) -> CachePurgePlanView {
    let ordered = sorted::<ActionsCache, CacheTargetOrder>(targets, CacheTargetOrder);
    CachePurgePlanView {
        schema_version: CACHE_PURGE_PLAN_SCHEMA_VERSION,
        resource: "actions_cache"@,
        created_at,
        scanned_at: snapshot.scanned_at,
        account: snapshot.account,
        scope: snapshot.scope,
        selection,
        summary: summary_of(ordered),
        targets: ordered,
    }
}

/// The first reason why a stored plan cannot be trusted.
pub open spec fn integrity_problem(plan: CachePurgePlanView) -> Option<CachePurgeErrorView> {
    if plan.schema_version != CACHE_PURGE_PLAN_SCHEMA_VERSION {
        Some(
            CachePurgeErrorView::UnsupportedPlanSchema {
                found: plan.schema_version,
                supported: CACHE_PURGE_PLAN_SCHEMA_VERSION,
            },
        )
    } else if plan.resource != "actions_cache"@ {
        Some(CachePurgeErrorView::WrongResource(plan.resource))
    } else {
        match targets_problem(None, plan.targets, 0) {
            Some(problem) => Some(problem),
            None => if plan.summary != summary_of(plan.targets) {
                Some(CachePurgeErrorView::PlanSummaryMismatch)
            } else {
                None
            },
        }
    }
}

/// Whether `result` is the problem that `expected` names.
pub open spec fn reports(result: Result<(), CachePurgeError>, expected: Option<CachePurgeErrorView>) -> bool {
    match expected {
        Some(problem) => result is Err && result->Err_0.deep_view() == problem,
        None => result is Ok,
    }
}

fn knows(caches: &Vec<ActionsCache>, cache: &ActionsCache) -> (result: bool)
    ensures
        result == caches.deep_view().contains(cache.deep_view()),
{
    let ghost all = caches.deep_view();
    let mut i: usize = 0;
    while i < caches.len()
        invariant
            i <= caches.len(),
            all == caches.deep_view(),
            forall|k: int| 0 <= k < i ==> #[trigger] all[k] != cache.deep_view(),
        decreases caches.len() - i,
    {
        if caches[i].same(cache) {
            assert(all[i as int] == cache.deep_view());
            return true;
        }
        i = i + 1;
    }
    false
}

fn check_targets(known: Option<&Vec<ActionsCache>>, targets: &Vec<ActionsCache>) -> (result: Result<
    (),
    CachePurgeError,
>)
    ensures
        reports(
            result,
            targets_problem(
                match known {
                    Some(caches) => Some(caches.deep_view()),
                    None => None,
                },
                targets.deep_view(),
                0,
            ),
        ),
{
    let ghost all = targets.deep_view();
    let ghost expected: Option<Seq<ActionsCacheView>> = match known {
        Some(caches) => Some(caches.deep_view()),
        None => None,
    };
    let mut i: usize = 0;
    while i < targets.len()
        invariant
            i <= targets.len(),
            all == targets.deep_view(),
            expected == match known {
                Some(caches) => Some(caches.deep_view()),
                None => None,
            },
            targets_problem(expected, all, 0) == targets_problem(expected, all, i as int),
        decreases targets.len() - i,
    {
        let cache = &targets[i];
        assert(all[i as int] == cache.deep_view());
        let mut j: usize = 0;
        while j < i && !(targets[j].id == cache.id && eq_ignore_ascii_case(
            targets[j].repository.full_name.as_str(),
            cache.repository.full_name.as_str(),
        ))
            invariant
                j <= i < targets.len(),
                all == targets.deep_view(),
                cache.deep_view() == all[i as int],
                forall|h: int| 0 <= h < j ==> different_caches(#[trigger] all[h], all[i as int]),
            decreases i - j,
        {
            assert(different_caches(all[j as int], all[i as int]));
            j = j + 1;
        }
        if j < i {
            assert(!different_caches(all[j as int], all[i as int]));
            return Err(
                CachePurgeError::DuplicateTarget {
                    repository: cache.repository.full_name.copied(),
                    cache_id: cache.id,
                },
            );
        }
        if let Some(caches) = known {
            if !knows(caches, cache) {
                return Err(
                    CachePurgeError::CacheNotInSnapshot {
                        repository: cache.repository.full_name.copied(),
                        cache_id: cache.id,
                    },
                );
            }
        }
        i = i + 1;
    }
    Ok(())
}

impl CachePurgePlan {
    /// Makes a plan of caches that the scan found, each named once.
    pub fn new(
        snapshot: &CacheInventorySnapshot,
        created_at: Timestamp,
        selection: CachePurgeSelection,
        targets: Vec<ActionsCache>,
    ) -> (result: Result<Self, CachePurgeError>)
        ensures
            match plan_problem(snapshot.deep_view(), targets.deep_view()) {
                Some(problem) => result is Err && result->Err_0.deep_view() == problem,
                None => result is Ok && result->Ok_0.deep_view() == plan_of(
                    snapshot.deep_view(),
                    created_at,
                    selection.deep_view(),
                    targets.deep_view(),
                ),
            },
    {
        if snapshot.issues.len() > 0 {
            return Err(CachePurgeError::IncompleteSnapshot { issue_count: snapshot.issues.len() });
        }
        let ghost given = targets.deep_view();
        let targets = sort(targets, &CacheTargetOrder);
        match check_targets(Some(&snapshot.caches), &targets) {
            Ok(()) => {},
            Err(error) => {
                return Err(error);
            },
        }
        let summary = CachePurgePlanSummary {
            cache_count: targets.len(),
            cache_bytes: capped_total_of(&targets),
        };
        let plan = CachePurgePlan {
            schema_version: CACHE_PURGE_PLAN_SCHEMA_VERSION,
            resource: "actions_cache".to_owned(),
            created_at,
            scanned_at: snapshot.scanned_at,
            account: snapshot.account.copied(),
            scope: snapshot.scope.copied(),
            selection,
            summary,
            targets,
        };
        proof {
            a_made_plan_is_intact(snapshot.deep_view(), created_at, selection.deep_view(), given);
            assert(plan.deep_view() == plan_of(snapshot.deep_view(), created_at, selection.deep_view(), given));
        }
        match plan.validate_integrity() {
            Ok(()) => Ok(plan),
            Err(error) => Err(error),
        }
    }

    /// Checks a plan that was stored: its version, its targets, and that its summary fits them.
    pub fn validate_integrity(&self) -> (result: Result<(), CachePurgeError>)
        ensures
            reports(result, integrity_problem(self.deep_view())),
    {
        if self.schema_version != CACHE_PURGE_PLAN_SCHEMA_VERSION {
            return Err(
                CachePurgeError::UnsupportedPlanSchema {
                    found: self.schema_version,
                    supported: CACHE_PURGE_PLAN_SCHEMA_VERSION,
                },
            );
        }
        if !same_text(self.resource.as_str(), "actions_cache") {
            return Err(CachePurgeError::WrongResource(self.resource.copied()));
        }
        match check_targets(None, &self.targets) {
            Ok(()) => {},
            Err(error) => {
                return Err(error);
            },
        }
        if self.summary.cache_count != self.targets.len() || self.summary.cache_bytes != capped_total_of(
            &self.targets,
        ) {
            return Err(CachePurgeError::PlanSummaryMismatch);
        }
        Ok(())
    }

    pub fn summary(&self) -> (result: &CachePurgePlanSummary)
        ensures
            result.deep_view() == self.deep_view().summary,
    {
        &self.summary
    }

    pub fn targets(&self) -> (result: &Vec<ActionsCache>)
        ensures
            result.deep_view() == self.deep_view().targets,
    {
        &self.targets
    }
}

proof fn lemma_targets_problem(known: Option<Seq<ActionsCacheView>>, targets: Seq<ActionsCacheView>, from: int)
    requires
        0 <= from <= targets.len(),
    ensures
        targets_problem(known, targets, from) is None <==> forall|i: int|
            from <= i < targets.len() ==> #[trigger] target_problem(known, targets, i) is None,
    decreases targets.len() - from,
{
    if from < targets.len() {
        lemma_targets_problem(known, targets, from + 1);
    }
}

/// A plan that was made is one that passes the check of a stored plan.
pub proof fn a_made_plan_is_intact(
    snapshot: CacheInventorySnapshotView,
    created_at: Timestamp,
    selection: CachePurgeSelectionView,
    targets: Seq<ActionsCacheView>,
)
    requires
        plan_problem(snapshot, targets) is None,
    ensures
        integrity_problem(plan_of(snapshot, created_at, selection, targets)) is None,
{
    let ordered = sorted::<ActionsCache, CacheTargetOrder>(targets, CacheTargetOrder);
    lemma_targets_problem(Some(snapshot.caches), ordered, 0);
    lemma_targets_problem(None, ordered, 0);
    assert forall|i: int| 0 <= i < ordered.len() implies #[trigger] target_problem(None, ordered, i) is None by {
        assert(target_problem(Some(snapshot.caches), ordered, i) is None);
    }
}

/// A plan names only caches that a complete scan found, each of them once, in the order of
/// their repositories and numbers.
pub proof fn a_made_plan_names_known_caches_once(
    snapshot: CacheInventorySnapshotView,
    created_at: Timestamp,
    selection: CachePurgeSelectionView,
    targets: Seq<ActionsCacheView>,
)
    requires
        plan_problem(snapshot, targets) is None,
    ensures
        ({
            let plan = plan_of(snapshot, created_at, selection, targets);
            &&& snapshot.issues.len() == 0
            &&& plan.targets.len() == targets.len()
            &&& forall|i: int| 0 <= i < plan.targets.len() ==> snapshot.caches.contains(#[trigger] plan.targets[i])
            &&& forall|i: int, j: int|
                0 <= i < j < plan.targets.len() ==> different_caches(
                    #[trigger] plan.targets[i],
                    #[trigger] plan.targets[j],
                )
            &&& crate::order::in_order::<ActionsCache, CacheTargetOrder>(plan.targets, CacheTargetOrder)
        }),
{
    let ordered = sorted::<ActionsCache, CacheTargetOrder>(targets, CacheTargetOrder);
    crate::order::sorting_is_an_ordered_rearrangement::<ActionsCache, CacheTargetOrder>(targets, CacheTargetOrder);
    lemma_targets_problem(Some(snapshot.caches), ordered, 0);
    assert forall|i: int| 0 <= i < ordered.len() implies snapshot.caches.contains(#[trigger] ordered[i]) by {
        assert(target_problem(Some(snapshot.caches), ordered, i) is None);
    }
    assert forall|i: int, j: int| 0 <= i < j < ordered.len() implies different_caches(
        #[trigger] ordered[i],
        #[trigger] ordered[j],
    ) by {
        assert(target_problem(Some(snapshot.caches), ordered, j) is None);
        assert(!cache_repeats(ordered, j));
    }
}

/// Why another account than the planned one is refused.
pub open spec fn other_account(expected: AccountView, current: AccountView) -> CachePurgeErrorView {
    CachePurgeErrorView::AccountMismatch { expected: account_text(expected), current: account_text(current) }
}

/// Why the account that a provider answers with is refused.
pub open spec fn account_problem(expected: AccountView, account: Result<Account, ProviderError>) -> Option<
    CachePurgeErrorView,
> {
    match account {
        Err(error) => Some(CachePurgeErrorView::Provider(error.deep_view())),
        Ok(current) => if current.deep_view() == expected {
            None
        } else {
            Some(other_account(expected, current.deep_view()))
        },
    }
}

/// Refuses to go on with another account.
pub fn ensure_same_account(expected: &Account, current: &Account) -> (result: Result<(), CachePurgeError>)
    ensures
        result is Ok <==> expected.deep_view() == current.deep_view(),
        result matches Err(error) ==> error.deep_view() == other_account(expected.deep_view(), current.deep_view()),
{
    if expected.same(current) {
        Ok(())
    } else {
        Err(
            CachePurgeError::AccountMismatch {
                expected: join3(expected.provider.as_str(), ":", expected.login.as_str()),
                current: join3(current.provider.as_str(), ":", current.login.as_str()),
            },
        )
    }
}

/// The account that a provider answers with, where it is the planned one.
fn planned_account(expected: &Account, account: Result<Account, ProviderError>) -> (result: Result<
    Account,
    CachePurgeError,
>)
    ensures
        match account_problem(expected.deep_view(), account) {
            Some(problem) => result is Err && result->Err_0.deep_view() == problem,
            None => result is Ok && result->Ok_0.deep_view() == expected.deep_view(),
        },
{
    let current = match account {
        Ok(current) => current,
        Err(error) => {
            return Err(CachePurgeError::Provider(error));
        },
    };
    match ensure_same_account(expected, &current) {
        Ok(()) => Ok(current),
        Err(error) => Err(error),
    }
}

/// The requests that remain, where they are so few that the purge has to halt.
pub open spec fn guarded(telemetry: ProviderTelemetryView) -> Option<u64> {
    match telemetry.rate_limit_remaining {
        Some(remaining) => if remaining <= CACHE_PURGE_RATE_LIMIT_HEADROOM {
            Some(remaining)
        } else {
            None
        },
        None => None,
    }
}

/// The requests that remain, where they are so few that the purge has to halt.
pub fn rate_limit_guard_remaining(telemetry: &ProviderTelemetry) -> (result: Option<u64>)
    ensures
        result == guarded(telemetry.deep_view()),
{
    match telemetry.rate_limit_remaining {
        Some(remaining) => if remaining <= CACHE_PURGE_RATE_LIMIT_HEADROOM {
            Some(remaining)
        } else {
            None
        },
        None => None,
    }
}

/// Whether an error tells that the provider's rate limit was reached.
pub fn is_provider_rate_limit_error(error: &str) -> (result: bool)
    ensures
        result == contains_text(error@, "provider rate limit reached"@),
{
    contains(error, "provider rate limit reached")
}

// ---------------------------------------------------------------------------------------------
// Planning.
// ---------------------------------------------------------------------------------------------

/// What planning does next.
#[derive(Clone, Copy, Debug, PartialEq, Eq, Structural)]
pub enum CachePurgePlanningStep {
    /// Ask the provider for the account.
    Account,
    /// Test whether the current cache may be looked up.
    Attempt,
    /// Look up the current cache.
    LookUp,
    Finished,
}

/// The planning of a purge: once the account is known to be the scanned one, each chosen cache
/// is looked up before the plan is made.
pub struct CachePurgePlanningService<'a> {
    snapshot: &'a CacheInventorySnapshot,
    selection: CachePurgeSelection,
    account: Option<Account>,
    chosen: Vec<ActionsCache>,
    verified: Vec<ActionsCache>,
    admitted: bool,
}

/// The contents of [`CachePurgePlanningService`].
#[verifier::ext_equal]
pub struct CachePlanningView {
    pub snapshot: CacheInventorySnapshotView,
    pub selection: CachePurgeSelectionView,
    pub account: Option<AccountView>,
    pub chosen: Seq<ActionsCacheView>,
    pub verified: Seq<ActionsCacheView>,
    pub admitted: bool,
}

impl<'a> DeepView for CachePurgePlanningService<'a> {
    type V = CachePlanningView;

    closed spec fn deep_view(&self) -> CachePlanningView {
        CachePlanningView {
            snapshot: self.snapshot.deep_view(),
            selection: self.selection.deep_view(),
            account: self.account.deep_view(),
            chosen: self.chosen.deep_view(),
            verified: self.verified.deep_view(),
            admitted: self.admitted,
        }
    }
}

impl CachePlanningView {
    /// The planning before anything was asked.
    pub open spec fn started(
        snapshot: CacheInventorySnapshotView,
        chosen: Seq<ActionsCacheView>,
        selection: CachePurgeSelectionView,
    ) -> CachePlanningView {
        CachePlanningView { snapshot, selection, account: None, chosen, verified: Seq::empty(), admitted: false }
    }

    pub open spec fn step(self) -> CachePurgePlanningStep {
        if self.account is None {
            CachePurgePlanningStep::Account
        } else if self.verified.len() >= self.chosen.len() {
            CachePurgePlanningStep::Finished
        } else if self.admitted {
            CachePurgePlanningStep::LookUp
        } else {
            CachePurgePlanningStep::Attempt
        }
    }

    pub open spec fn current(self) -> ActionsCacheView {
        self.chosen[self.verified.len() as int]
    }

    /// The account is the scanned one, and each verified cache is the chosen one in its place.
    pub open spec fn in_step(self) -> bool {
        &&& self.account is Some ==> self.account == Some(self.snapshot.account)
        &&& self.account is None ==> self.verified.len() == 0 && !self.admitted
        &&& self.verified.len() <= self.chosen.len()
        &&& forall|i: int| 0 <= i < self.verified.len() ==> #[trigger] self.verified[i] == self.chosen[i]
    }
}

/// A plan has each of the chosen caches as its target, and none besides.
pub proof fn a_plan_has_the_chosen_caches(planning: CachePlanningView, created_at: Timestamp)
    requires
        planning.in_step(),
        planning.step() == CachePurgePlanningStep::Finished,
    ensures
        planning.account == Some(planning.snapshot.account),
        ({
            let plan = plan_of(planning.snapshot, created_at, planning.selection, planning.verified);
            &&& plan.targets.len() == planning.chosen.len()
            &&& plan.targets.to_multiset() == planning.chosen.to_multiset()
        }),
{
    assert(planning.verified =~= planning.chosen);
    crate::order::sorting_is_an_ordered_rearrangement::<ActionsCache, CacheTargetOrder>(
        planning.verified,
        CacheTargetOrder,
    );
}

/// Why a cache that was chosen cannot be planned, before it is looked up.
pub open spec fn choice_problem(
    known: Seq<ActionsCacheView>,
    cache: ActionsCacheView,
    telemetry: ProviderTelemetryView,
) -> Option<CachePurgeErrorView> {
    match guarded(telemetry) {
        Some(remaining) => Some(
            CachePurgeErrorView::RateLimitHeadroomGuard {
                phase: "planning"@,
                remaining,
                reserved: CACHE_PURGE_RATE_LIMIT_HEADROOM,
            },
        ),
        None => if !known.contains(cache) {
            Some(
                CachePurgeErrorView::CacheNotInSnapshot {
                    repository: cache.repository.full_name,
                    cache_id: cache.id,
                },
            )
        } else {
            None
        },
    }
}

/// Why a cache cannot be planned, from what the provider says of it.
pub open spec fn lookup_problem(
    cache: ActionsCacheView,
    lookup: Result<Option<ActionsCache>, ProviderError>,
) -> Option<CachePurgeErrorView> {
    let repository = cache.repository.full_name;
    match lookup {
        Err(error) => Some(CachePurgeErrorView::Provider(error.deep_view())),
        Ok(None) => Some(CachePurgeErrorView::CacheDisappearedDuringPlanning { repository, cache_id: cache.id }),
        Ok(Some(current)) => if current.deep_view() != cache {
            Some(CachePurgeErrorView::CacheChangedDuringPlanning { repository, cache_id: cache.id })
        } else {
            None
        },
    }
}

impl<'a> CachePurgePlanningService<'a> {
    /// Starts the planning; a scan with issues is no ground for one.
    pub fn new(
        snapshot: &'a CacheInventorySnapshot,
        selected_caches: Vec<ActionsCache>,
        selection: CachePurgeSelection,
    ) -> (result: Result<Self, CachePurgeError>)
        ensures
            match result {
                Ok(service) => {
                    &&& snapshot.issues.len() == 0
                    &&& service.deep_view() == CachePlanningView::started(
                        snapshot.deep_view(),
                        selected_caches.deep_view(),
                        selection.deep_view(),
                    )
                    &&& service.deep_view().in_step()
                },
                Err(error) => snapshot.issues.len() > 0 && error.deep_view() == (
                CachePurgeErrorView::IncompleteSnapshot { issue_count: snapshot.issues.len() }),
            },
    {
        if snapshot.issues.len() > 0 {
            return Err(CachePurgeError::IncompleteSnapshot { issue_count: snapshot.issues.len() });
        }
        Ok(
            CachePurgePlanningService {
                snapshot,
                selection,
                account: None,
                chosen: selected_caches,
                verified: nothing(),
                admitted: false,
            },
        )
    }

    pub fn next(&self) -> (result: CachePurgePlanningStep)
        ensures
            result == self.deep_view().step(),
    {
        if self.account.is_none() {
            CachePurgePlanningStep::Account
        } else if self.verified.len() >= self.chosen.len() {
            CachePurgePlanningStep::Finished
        } else if self.admitted {
            CachePurgePlanningStep::LookUp
        } else {
            CachePurgePlanningStep::Attempt
        }
    }

    /// Takes the account that the provider answers with; one that is not the scanned one is
    /// refused.
    pub fn account_answered(&mut self, account: Result<Account, ProviderError>) -> (result: Result<
        (),
        CachePurgeError,
    >)
        requires
            old(self).deep_view().step() == CachePurgePlanningStep::Account,
        ensures
            reports(result, account_problem(old(self).deep_view().snapshot.account, account)),
            final(self).deep_view() == if result is Ok {
                CachePlanningView {
                    account: Some(old(self).deep_view().snapshot.account),
                    ..old(self).deep_view()
                }
            } else {
                old(self).deep_view()
            },
            old(self).deep_view().in_step() ==> final(self).deep_view().in_step(),
    {
        match planned_account(&self.snapshot.account, account) {
            Ok(current) => {
                self.account = Some(current);
                Ok(())
            },
            Err(error) => Err(error),
        }
    }

    /// The cache that is planned now.
    pub fn current(&self) -> (result: &ActionsCache)
        requires
            self.deep_view().verified.len() < self.deep_view().chosen.len(),
        ensures
            result.deep_view() == self.deep_view().current(),
    {
        &self.chosen[self.verified.len()]
    }

    /// Admits the current cache to its lookup. Too few requests that remain, or a cache that
    /// the scan did not find, end the planning.
    pub fn attempt(&mut self, telemetry: &ProviderTelemetry) -> (result: Result<(), CachePurgeError>)
        requires
            old(self).deep_view().step() == CachePurgePlanningStep::Attempt,
        ensures
            reports(
                result,
                choice_problem(
                    old(self).deep_view().snapshot.caches,
                    old(self).deep_view().current(),
                    telemetry.deep_view(),
                ),
            ),
            final(self).deep_view() == (CachePlanningView { admitted: result is Ok, ..old(self).deep_view() }),
            old(self).deep_view().in_step() ==> final(self).deep_view().in_step(),
    {
        let cache = &self.chosen[self.verified.len()];
        assert(cache.deep_view() == self.deep_view().current());
        if let Some(remaining) = rate_limit_guard_remaining(telemetry) {
            return Err(
                CachePurgeError::RateLimitHeadroomGuard {
                    phase: "planning",
                    remaining,
                    reserved: CACHE_PURGE_RATE_LIMIT_HEADROOM,
                },
            );
        }
        if !knows(&self.snapshot.caches, cache) {
            return Err(
                CachePurgeError::CacheNotInSnapshot {
                    repository: cache.repository.full_name.copied(),
                    cache_id: cache.id,
                },
            );
        }
        self.admitted = true;
        Ok(())
    }

    /// Takes what the provider says of the cache: it has to be what the scan found.
    pub fn answered(&mut self, lookup: Result<Option<ActionsCache>, ProviderError>) -> (result: Result<
        (),
        CachePurgeError,
    >)
        requires
            old(self).deep_view().step() == CachePurgePlanningStep::LookUp,
        ensures
            reports(result, lookup_problem(old(self).deep_view().current(), lookup)),
            final(self).deep_view() == if result is Ok {
                CachePlanningView {
                    verified: old(self).deep_view().verified.push(old(self).deep_view().current()),
                    admitted: false,
                    ..old(self).deep_view()
                }
            } else {
                old(self).deep_view()
            },
            old(self).deep_view().in_step() ==> final(self).deep_view().in_step(),
    {
        let cache = &self.chosen[self.verified.len()];
        assert(cache.deep_view() == self.deep_view().current());
        match lookup {
            Err(error) => Err(CachePurgeError::Provider(error)),
            Ok(None) => Err(
                CachePurgeError::CacheDisappearedDuringPlanning {
                    repository: cache.repository.full_name.copied(),
                    cache_id: cache.id,
                },
            ),
            Ok(Some(current)) => {
                if !current.same(cache) {
                    return Err(
                        CachePurgeError::CacheChangedDuringPlanning {
                            repository: cache.repository.full_name.copied(),
                            cache_id: cache.id,
                        },
                    );
                }
                let planned = cache.copied();
                add_to(&mut self.verified, planned);
                self.admitted = false;
                Ok(())
            },
        }
    }

    /// Makes the plan, as of now, once every chosen cache was verified.
    pub fn build(self) -> (result: Result<CachePurgePlan, CachePurgeError>)
        requires
            self.deep_view().step() == CachePurgePlanningStep::Finished,
        ensures
            match plan_problem(self.deep_view().snapshot, self.deep_view().verified) {
                Some(problem) => result is Err && result->Err_0.deep_view() == problem,
                None => result is Ok && exists|created_at: Timestamp|
                    result->Ok_0.deep_view() == #[trigger] plan_of(
                        self.deep_view().snapshot,
                        created_at,
                        self.deep_view().selection,
                        self.deep_view().verified,
                    ),
            },
    {
        let created_at = utc_now();
        CachePurgePlan::new(self.snapshot, created_at, self.selection, self.verified)
    }
}

// ---------------------------------------------------------------------------------------------
// Review.
// ---------------------------------------------------------------------------------------------

pub open spec fn finding(
    planned: ActionsCacheView,
    state: CachePurgeRevalidationState,
    current: Option<ActionsCacheView>,
    error: Option<Seq<char>>,
) -> CachePurgeRevalidationItemView {
    CachePurgeRevalidationItemView {
        repository: planned.repository.full_name,
        cache_id: planned.id,
        state,
        current,
        error,
    }
}

/// What a review does next.
#[derive(Clone, Copy, Debug, PartialEq, Eq, Structural)]
pub enum CachePurgeRevalidationStep {
    /// Ask the provider for the account.
    Account,
    /// Test whether the current cache may be looked up.
    Attempt,
    /// Look up the current cache.
    LookUp,
    Finished,
}

/// The review of a plan, as far as it has come; and the reason why it halted, if it did.
#[verifier::ext_equal]
pub struct CacheReviewView {
    pub plan: CachePurgePlanView,
    pub account: Option<AccountView>,
    pub items: Seq<CachePurgeRevalidationItemView>,
    pub admitted: bool,
    pub halt_reason: Option<Seq<char>>,
}

pub open spec fn review_halt_reason(remaining: u64) -> Seq<char> {
    "cache revalidation halted by GitHub API rate-limit guard to preserve 250-request headroom ("@ + decimal(
        remaining as nat,
    ) + " remaining); target was not checked"@
}

impl CacheReviewView {
    /// The review of a plan before anything was asked.
    pub open spec fn started(plan: CachePurgePlanView) -> CacheReviewView {
        CacheReviewView { plan, account: None, items: Seq::empty(), admitted: false, halt_reason: None }
    }

    pub open spec fn step(self) -> CachePurgeRevalidationStep {
        if self.account is None {
            CachePurgeRevalidationStep::Account
        } else if self.items.len() >= self.plan.targets.len() {
            CachePurgeRevalidationStep::Finished
        } else if self.admitted {
            CachePurgeRevalidationStep::LookUp
        } else {
            CachePurgeRevalidationStep::Attempt
        }
    }

    pub open spec fn current(self) -> ActionsCacheView {
        self.plan.targets[self.items.len() as int]
    }

    /// The account is the planned one, each finding is about the target in its place, and a
    /// review that halted admits nothing.
    pub open spec fn in_step(self) -> bool {
        &&& self.account is Some ==> self.account == Some(self.plan.account)
        &&& self.account is None ==> self.items.len() == 0 && !self.admitted
        &&& self.halt_reason is Some ==> !self.admitted
        &&& self.items.len() <= self.plan.targets.len()
        &&& forall|i: int|
            0 <= i < self.items.len() ==> (#[trigger] self.items[i]).cache_id == self.plan.targets[i].id
                && self.items[i].repository == self.plan.targets[i].repository.full_name
    }

    /// Whether the current cache may be looked up.
    pub open spec fn admits(self, telemetry: ProviderTelemetryView) -> bool {
        self.halt_reason is None && guarded(telemetry) is None
    }

    /// The review after a cache that may not be looked up.
    pub open spec fn passed_over(self, telemetry: ProviderTelemetryView) -> CacheReviewView {
        let reason = match self.halt_reason {
            Some(reason) => reason,
            None => review_halt_reason(guarded(telemetry)->0),
        };
        CacheReviewView {
            items: self.items.push(
                finding(
                    self.current(),
                    CachePurgeRevalidationState::RevalidationFailed,
                    None,
                    Some(reason),
                ),
            ),
            halt_reason: Some(reason),
            ..self
        }
    }

    /// The review after a lookup: an answer that the rate limit was reached halts it.
    pub open spec fn after(self, lookup: Result<Option<ActionsCache>, ProviderError>) -> CacheReviewView {
        let planned = self.current();
        let item = match answer(lookup) {
            Answer::Absent => finding(planned, CachePurgeRevalidationState::AlreadyAbsent, None, None),
            Answer::Found(current) => if current != planned {
                finding(planned, CachePurgeRevalidationState::Changed, Some(current), None)
            } else {
                finding(planned, CachePurgeRevalidationState::Ready, Some(current), None)
            },
            Answer::Failed(message) => finding(
                planned,
                CachePurgeRevalidationState::RevalidationFailed,
                None,
                Some(message),
            ),
        };
        CacheReviewView {
            items: self.items.push(item),
            admitted: false,
            halt_reason: if lookup matches Err(ProviderError::RateLimited { .. }) {
                Some(
                    "cache revalidation halted by GitHub API rate-limit guard after provider rate limit; later targets were not checked"@,
                )
            } else {
                self.halt_reason
            },
            ..self
        }
    }
}

/// Once a review has halted, no cache is looked up any more, and each that is left is found
/// unchecked for the same reason.
pub proof fn a_halted_review_stays_halted(review: CacheReviewView, telemetry: ProviderTelemetryView)
    requires
        review.in_step(),
        review.halt_reason is Some,
    ensures
        review.step() != CachePurgeRevalidationStep::LookUp,
        !review.admits(telemetry),
        review.passed_over(telemetry).halt_reason == review.halt_reason,
        review.passed_over(telemetry).items.last() == finding(
            review.current(),
            CachePurgeRevalidationState::RevalidationFailed,
            None,
            review.halt_reason,
        ),
{
}

/// A review finds something of every target, in the order of the plan, and looks nothing up
/// before the account is known to be the planned one.
pub proof fn a_review_keeps_step(
    review: CacheReviewView,
    telemetry: ProviderTelemetryView,
    lookup: Result<Option<ActionsCache>, ProviderError>,
)
    requires
        review.in_step(),
    ensures
        review.step() == CachePurgeRevalidationStep::Attempt ==> review.passed_over(telemetry).in_step(),
        review.step() == CachePurgeRevalidationStep::LookUp ==> review.after(lookup).in_step(),
        review.step() != CachePurgeRevalidationStep::Account ==> review.account == Some(review.plan.account),
        review.step() == CachePurgeRevalidationStep::Finished ==> review.items.len() == review.plan.targets.len(),
{
}

fn find(
    planned: &ActionsCache,
    state: CachePurgeRevalidationState,
    current: Option<ActionsCache>,
    error: Option<String>,
) -> (result: CachePurgeRevalidationItem)
    ensures
        result.deep_view() == finding(planned.deep_view(), state, current.deep_view(), error.deep_view()),
{
    CachePurgeRevalidationItem {
        repository: planned.repository.full_name.copied(),
        cache_id: planned.id,
        state,
        current,
        error,
    }
}

/// The review of a plan: once the account is known to be the planned one, each cache is looked
/// up, as long as enough requests remain. Nothing is deleted.
pub struct CachePurgeRevalidationService<'a> {
    plan: &'a CachePurgePlan,
    account: Option<Account>,
    items: Vec<CachePurgeRevalidationItem>,
    admitted: bool,
    halt_reason: Option<String>,
}

impl<'a> DeepView for CachePurgeRevalidationService<'a> {
    type V = CacheReviewView;

    closed spec fn deep_view(&self) -> CacheReviewView {
        CacheReviewView {
            plan: self.plan.deep_view(),
            account: self.account.deep_view(),
            items: self.items.deep_view(),
            admitted: self.admitted,
            halt_reason: self.halt_reason.deep_view(),
        }
    }
}

impl<'a> CachePurgeRevalidationService<'a> {
    /// Starts the review of a plan that passes its check.
    pub fn new(plan: &'a CachePurgePlan) -> (result: Result<Self, CachePurgeError>)
        ensures
            match integrity_problem(plan.deep_view()) {
                Some(problem) => result is Err && result->Err_0.deep_view() == problem,
                None => {
                    &&& result is Ok
                    &&& result->Ok_0.deep_view() == CacheReviewView::started(plan.deep_view())
                    &&& result->Ok_0.deep_view().in_step()
                },
            },
    {
        match plan.validate_integrity() {
            Ok(()) => {},
            Err(error) => {
                return Err(error);
            },
        }
        Ok(
            CachePurgeRevalidationService {
                plan,
                account: None,
                items: nothing(),
                admitted: false,
                halt_reason: None,
            },
        )
    }

    pub fn next(&self) -> (result: CachePurgeRevalidationStep)
        ensures
            result == self.deep_view().step(),
    {
        if self.account.is_none() {
            CachePurgeRevalidationStep::Account
        } else if self.items.len() >= self.plan.targets.len() {
            CachePurgeRevalidationStep::Finished
        } else if self.admitted {
            CachePurgeRevalidationStep::LookUp
        } else {
            CachePurgeRevalidationStep::Attempt
        }
    }

    /// Takes the account that the provider answers with; one that is not the planned one is
    /// refused.
    pub fn account_answered(&mut self, account: Result<Account, ProviderError>) -> (result: Result<
        (),
        CachePurgeError,
    >)
        requires
            old(self).deep_view().step() == CachePurgeRevalidationStep::Account,
        ensures
            reports(result, account_problem(old(self).deep_view().plan.account, account)),
            final(self).deep_view() == if result is Ok {
                CacheReviewView { account: Some(old(self).deep_view().plan.account), ..old(self).deep_view() }
            } else {
                old(self).deep_view()
            },
            old(self).deep_view().in_step() ==> final(self).deep_view().in_step(),
    {
        match planned_account(&self.plan.account, account) {
            Ok(current) => {
                self.account = Some(current);
                Ok(())
            },
            Err(error) => Err(error),
        }
    }

    /// The cache that is reviewed now.
    pub fn current(&self) -> (result: &ActionsCache)
        requires
            self.deep_view().items.len() < self.deep_view().plan.targets.len(),
        ensures
            result.deep_view() == self.deep_view().current(),
    {
        &self.plan.targets[self.items.len()]
    }

    /// Whether the current cache is to be looked up. One that may not be is recorded as
    /// unchecked.
    pub fn attempt(&mut self, telemetry: &ProviderTelemetry) -> (result: bool)
        requires
            old(self).deep_view().step() == CachePurgeRevalidationStep::Attempt,
        ensures
            result == old(self).deep_view().admits(telemetry.deep_view()),
            final(self).deep_view() == if result {
                CacheReviewView { admitted: true, ..old(self).deep_view() }
            } else {
                old(self).deep_view().passed_over(telemetry.deep_view())
            },
            old(self).deep_view().in_step() ==> final(self).deep_view().in_step(),
    {
        let reason: String = match &self.halt_reason {
            Some(reason) => reason.copied(),
            None => match rate_limit_guard_remaining(telemetry) {
                Some(remaining) => join3(
                    "cache revalidation halted by GitHub API rate-limit guard to preserve 250-request headroom (",
                    number(remaining).as_str(),
                    " remaining); target was not checked",
                ),
                None => {
                    self.admitted = true;
                    return true;
                },
            },
        };
        let item = find(
            &self.plan.targets[self.items.len()],
            CachePurgeRevalidationState::RevalidationFailed,
            None,
            Some(reason.copied()),
        );
        add_to(&mut self.items, item);
        self.halt_reason = Some(reason);
        false
    }

    /// Takes what the provider says of the current cache.
    pub fn answered(&mut self, lookup: Result<Option<ActionsCache>, ProviderError>)
        requires
            old(self).deep_view().step() == CachePurgeRevalidationStep::LookUp,
        ensures
            final(self).deep_view() == old(self).deep_view().after(lookup),
            old(self).deep_view().in_step() ==> final(self).deep_view().in_step(),
    {
        let plan = self.plan;
        let planned = &plan.targets[self.items.len()];
        assert(planned.deep_view() == self.deep_view().current());
        let item = match lookup {
            Ok(None) | Err(ProviderError::NotFound(_)) => find(
                planned,
                CachePurgeRevalidationState::AlreadyAbsent,
                None,
                None,
            ),
            Ok(Some(current)) => {
                if !current.same(planned) {
                    find(planned, CachePurgeRevalidationState::Changed, Some(current), None)
                } else {
                    find(planned, CachePurgeRevalidationState::Ready, Some(current), None)
                }
            },
            Err(error) => {
                if let ProviderError::RateLimited { .. } = &error {
                    self.halt_reason =
                    Some(
                        "cache revalidation halted by GitHub API rate-limit guard after provider rate limit; later targets were not checked".to_owned(),
                    );
                }
                find(
                    planned,
                    CachePurgeRevalidationState::RevalidationFailed,
                    None,
                    Some(error.message()),
                )
            },
        };
        add_to(&mut self.items, item);
        self.admitted = false;
    }

    /// The report of the review, once every target was looked at or passed over.
    pub fn report(self, checked_at: Timestamp, telemetry: ProviderTelemetry) -> (result: CachePurgeRevalidationReport)
        requires
            self.deep_view().step() == CachePurgeRevalidationStep::Finished,
        ensures
            result.deep_view() == (CachePurgeRevalidationReportView {
                checked_at,
                account: self.deep_view().account->0,
                telemetry: telemetry.deep_view(),
                items: self.deep_view().items,
            }),
            self.deep_view().in_step() ==> result.deep_view().items.len() == self.deep_view().plan.targets.len(),
    {
        CachePurgeRevalidationReport { checked_at, account: self.account.unwrap(), telemetry, items: self.items }
    }
}

/// A finding that does not stand in the way of the purge.
pub open spec fn is_safe(state: CachePurgeRevalidationState) -> bool {
    state == CachePurgeRevalidationState::Ready || state == CachePurgeRevalidationState::AlreadyAbsent
}

fn safe(state: CachePurgeRevalidationState) -> (result: bool)
    ensures
        result == is_safe(state),
{
    match state {
        CachePurgeRevalidationState::Ready | CachePurgeRevalidationState::AlreadyAbsent => true,
        _ => false,
    }
}

impl CachePurgeRevalidationReport {
    /// Whether nothing that the review found stands in the way of the purge.
    pub fn is_safe_to_apply(&self) -> (result: bool)
        ensures
            result == forall|i: int|
                0 <= i < self.deep_view().items.len() ==> is_safe((#[trigger] self.deep_view().items[i]).state),
    {
        let ghost all = self.items.deep_view();
        let mut i: usize = 0;
        while i < self.items.len()
            invariant
                i <= self.items.len(),
                all == self.items.deep_view(),
                forall|k: int| 0 <= k < i ==> is_safe((#[trigger] all[k]).state),
            decreases self.items.len() - i,
        {
            assert(all[i as int].state == self.items@[i as int].state);
            if !safe(self.items[i].state) {
                assert(!is_safe(self.deep_view().items[i as int].state));
                return false;
            }
            i = i + 1;
        }
        true
    }
}

/// The first reason from `from` on why a review does not allow the targets to be purged.
pub open spec fn items_problem(
    targets: Seq<ActionsCacheView>,
    items: Seq<CachePurgeRevalidationItemView>,
    from: int,
) -> Option<CachePurgeErrorView>
    decreases targets.len() - from,
{
    if from < 0 || from >= targets.len() {
        None
    } else if items[from].repository != targets[from].repository.full_name || items[from].cache_id
        != targets[from].id {
        Some(CachePurgeErrorView::ReviewTargetMismatch)
    } else if !is_safe(items[from].state) {
        Some(CachePurgeErrorView::ReviewUnsafe)
    } else {
        items_problem(targets, items, from + 1)
    }
}

/// Why a review does not allow a plan to be carried out.
pub open spec fn review_problem(plan: CachePurgePlanView, review: CachePurgeRevalidationReportView) -> Option<
    CachePurgeErrorView,
> {
    if review.account != plan.account {
        Some(other_account(plan.account, review.account))
    } else if review.items.len() != plan.targets.len() {
        Some(CachePurgeErrorView::ReviewTargetMismatch)
    } else {
        items_problem(plan.targets, review.items, 0)
    }
}

/// An execution is started only by a review of the same account that looked at each target of
/// the plan and found nothing in the way.
pub proof fn only_a_safe_review_starts_an_execution(
    plan: CachePurgePlanView,
    review: CachePurgeRevalidationReportView,
)
    requires
        review_problem(plan, review) is None,
    ensures
        review.account == plan.account,
        review.items.len() == plan.targets.len(),
        forall|i: int|
            0 <= i < plan.targets.len() ==> (#[trigger] review.items[i]).repository
                == plan.targets[i].repository.full_name && review.items[i].cache_id == plan.targets[i].id && is_safe(
                review.items[i].state,
            ),
{
    lemma_reviewed(plan.targets, review.items, 0);
}

proof fn lemma_reviewed(targets: Seq<ActionsCacheView>, items: Seq<CachePurgeRevalidationItemView>, from: int)
    requires
        0 <= from <= targets.len(),
        items_problem(targets, items, from) is None,
    ensures
        forall|i: int|
            from <= i < targets.len() ==> (#[trigger] items[i]).repository == targets[i].repository.full_name
                && items[i].cache_id == targets[i].id && is_safe(items[i].state),
    decreases targets.len() - from,
{
    if from < targets.len() {
        lemma_reviewed(targets, items, from + 1);
    }
}

/// Refuses a review that is not of this plan, or that found something in the way.
pub fn validate_review(plan: &CachePurgePlan, reviewed: &CachePurgeRevalidationReport) -> (result: Result<
    (),
    CachePurgeError,
>)
    ensures
        reports(result, review_problem(plan.deep_view(), reviewed.deep_view())),
{
    match ensure_same_account(&plan.account, &reviewed.account) {
        Ok(()) => {},
        Err(error) => {
            return Err(error);
        },
    }
    let ghost planned = plan.targets.deep_view();
    let ghost found = reviewed.items.deep_view();
    if reviewed.items.len() != plan.targets.len() {
        return Err(CachePurgeError::ReviewTargetMismatch);
    }
    let mut i: usize = 0;
    while i < plan.targets.len()
        invariant
            i <= plan.targets.len(),
            planned == plan.deep_view().targets,
            found == reviewed.deep_view().items,
            found.len() == planned.len(),
            plan.targets.len() == planned.len(),
            reviewed.deep_view().account == plan.deep_view().account,
            items_problem(planned, found, 0) == items_problem(planned, found, i as int),
        decreases plan.targets.len() - i,
    {
        let target = &plan.targets[i];
        let item = &reviewed.items[i];
        assert(planned[i as int] == target.deep_view());
        assert(found[i as int] == item.deep_view());
        if item.cache_id != target.id || !item.repository.same(&target.repository.full_name) {
            return Err(CachePurgeError::ReviewTargetMismatch);
        }
        if !safe(item.state) {
            return Err(CachePurgeError::ReviewUnsafe);
        }
        i = i + 1;
    }
    Ok(())
}

// ---------------------------------------------------------------------------------------------
// Execution.
// ---------------------------------------------------------------------------------------------

pub open spec fn outcome(
    planned: ActionsCacheView,
    state: CachePurgeExecutionState,
    current: Option<ActionsCacheView>,
    error: Option<Seq<char>>,
) -> CachePurgeExecutionItemView {
    CachePurgeExecutionItemView { planned, state, current, error }
}

/// What an execution does next.
#[derive(Clone, Copy, Debug, PartialEq, Eq, Structural)]
pub enum CachePurgeStage {
    /// Ask the provider for the account.
    Account,
    /// Test whether the current cache may be attempted.
    Attempt,
    /// Look up the current cache.
    LookUp,
    Delete,
    /// Look up the cache that the provider said it deleted.
    Verify,
    Finished,
}

/// The execution of a plan, as far as it has come; and the reason why it halted, if it did.
#[verifier::ext_equal]
pub struct CacheExecutionView {
    pub plan: CachePurgePlanView,
    pub authorization: ExecutionAuthorizationKind,
    pub account: Option<AccountView>,
    pub items: Seq<CachePurgeExecutionItemView>,
    /// What is done next about the current cache.
    pub stage: CachePurgeStage,
    pub halt_reason: Option<Seq<char>>,
}

pub open spec fn execution_halt_reason(remaining: u64) -> Seq<char> {
    "cache purge halted by GitHub API rate-limit guard to preserve 250-request headroom ("@ + decimal(
        remaining as nat,
    ) + " remaining); target was not attempted"@
}

impl CacheExecutionView {
    /// The execution of a plan before anything was asked.
    pub open spec fn started(
        plan: CachePurgePlanView,
        authorization: ExecutionAuthorizationKind,
    ) -> CacheExecutionView {
        CacheExecutionView {
            plan,
            authorization,
            account: None,
            items: Seq::empty(),
            stage: CachePurgeStage::Attempt,
            halt_reason: None,
        }
    }

    pub open spec fn step(self) -> CachePurgeStage {
        if self.account is None {
            CachePurgeStage::Account
        } else if self.items.len() >= self.plan.targets.len() {
            CachePurgeStage::Finished
        } else {
            self.stage
        }
    }

    pub open spec fn current(self) -> ActionsCacheView {
        self.plan.targets[self.items.len() as int]
    }

    /// Whether the current cache may be attempted.
    pub open spec fn admits(self, telemetry: ProviderTelemetryView) -> bool {
        self.halt_reason is None && guarded(telemetry) is None
    }

    /// The execution after a cache that may not be attempted.
    pub open spec fn passed_over(self, telemetry: ProviderTelemetryView) -> CacheExecutionView {
        let reason = match self.halt_reason {
            Some(reason) => reason,
            None => execution_halt_reason(guarded(telemetry)->0),
        };
        CacheExecutionView {
            items: self.items.push(outcome(self.current(), CachePurgeExecutionState::Blocked, None, Some(reason))),
            halt_reason: Some(reason),
            ..self
        }
    }

    /// The execution once it is known what became of the current cache: an error that tells of
    /// the rate limit halts it.
    pub open spec fn with_item(self, item: CachePurgeExecutionItemView) -> CacheExecutionView {
        CacheExecutionView {
            items: self.items.push(item),
            stage: CachePurgeStage::Attempt,
            halt_reason: if item.error is Some && contains_text(
                item.error->0,
                "provider rate limit reached"@,
            ) {
                Some(
                    "cache purge halted by GitHub API rate-limit guard after provider rate limit; later targets were not attempted"@,
                )
            } else {
                self.halt_reason
            },
            ..self
        }
    }

    /// After a lookup.
    pub open spec fn after_lookup(self, found: Answer<ActionsCacheView>) -> CacheExecutionView {
        let planned = self.current();
        match self.stage {
            CachePurgeStage::Verify => self.with_item(
                match found {
                    Answer::Absent => outcome(planned, CachePurgeExecutionState::Deleted, None, None),
                    Answer::Found(current) => outcome(
                        planned,
                        CachePurgeExecutionState::VerificationFailed,
                        Some(current),
                        Some("GitHub Actions cache still exists after reported deletion"@),
                    ),
                    Answer::Failed(message) => outcome(
                        planned,
                        CachePurgeExecutionState::VerificationFailed,
                        Some(planned),
                        Some(
                            "provider reported successful cache deletion, but post-delete verification failed: "@
                                + message,
                        ),
                    ),
                },
            ),
            _ => match found {
                Answer::Absent => self.with_item(
                    outcome(planned, CachePurgeExecutionState::AlreadyAbsent, None, None),
                ),
                Answer::Found(current) => if current != planned {
                    self.with_item(
                        outcome(
                            planned,
                            CachePurgeExecutionState::Changed,
                            Some(current),
                            Some("cache changed since immutable plan was created"@),
                        ),
                    )
                } else {
                    CacheExecutionView { stage: CachePurgeStage::Delete, ..self }
                },
                Answer::Failed(message) => self.with_item(
                    outcome(planned, CachePurgeExecutionState::RevalidationFailed, None, Some(message)),
                ),
            },
        }
    }

    /// After a deletion.
    pub open spec fn after_removal(self, removed: Result<DeleteOutcome, ProviderError>) -> CacheExecutionView {
        let planned = self.current();
        match removed {
            Ok(DeleteOutcome::Deleted) => CacheExecutionView { stage: CachePurgeStage::Verify, ..self },
            Ok(DeleteOutcome::AlreadyAbsent) => self.with_item(
                outcome(planned, CachePurgeExecutionState::AlreadyAbsent, None, None),
            ),
            Err(error) => self.with_item(
                outcome(planned, CachePurgeExecutionState::DeleteFailed, Some(planned), Some(error.text())),
            ),
        }
    }

    /// The account is the planned one, each item is what became of the target in its place, and
    /// an execution that halted attempts nothing.
    pub open spec fn in_step(self) -> bool {
        &&& self.account is Some ==> self.account == Some(self.plan.account)
        &&& self.account is None ==> self.items.len() == 0 && self.stage == CachePurgeStage::Attempt
        &&& self.stage == CachePurgeStage::Attempt || self.stage == CachePurgeStage::LookUp || self.stage
            == CachePurgeStage::Delete || self.stage == CachePurgeStage::Verify
        &&& self.halt_reason is Some ==> self.stage == CachePurgeStage::Attempt
        &&& self.items.len() <= self.plan.targets.len()
        &&& forall|i: int|
            0 <= i < self.items.len() ==> (#[trigger] self.items[i]).planned == self.plan.targets[i]
    }
}

/// Once an execution has halted, nothing is asked of the provider any more, and each cache
/// that is left is blocked for the same reason.
pub proof fn a_halted_execution_stays_halted(execution: CacheExecutionView, telemetry: ProviderTelemetryView)
    requires
        execution.in_step(),
        execution.halt_reason is Some,
    ensures
        execution.step() == CachePurgeStage::Account || execution.step() == CachePurgeStage::Attempt
            || execution.step() == CachePurgeStage::Finished,
        !execution.admits(telemetry),
        execution.passed_over(telemetry).halt_reason == execution.halt_reason,
        execution.passed_over(telemetry).items.last() == outcome(
            execution.current(),
            CachePurgeExecutionState::Blocked,
            None,
            execution.halt_reason,
        ),
{
}

/// Nothing is asked about a cache before the account is known to be the planned one, and an
/// execution ends with one item for each target.
pub proof fn an_execution_is_of_the_planned_account(execution: CacheExecutionView)
    requires
        execution.in_step(),
    ensures
        execution.step() != CachePurgeStage::Account ==> execution.account == Some(execution.plan.account),
        execution.step() == CachePurgeStage::Finished ==> execution.items.len() == execution.plan.targets.len(),
{
}

/// A cache is deleted only right after the provider showed it as it was planned, and reported
/// deleted only after the provider no longer found it.
pub proof fn only_unchanged_caches_are_deleted(
    execution: CacheExecutionView,
    found: Answer<ActionsCacheView>,
    removed: Result<DeleteOutcome, ProviderError>,
)
    requires
        execution.in_step(),
    ensures
        execution.step() == CachePurgeStage::LookUp || execution.step() == CachePurgeStage::Verify ==> {
            let after = execution.after_lookup(found);
            &&& after.in_step()
            &&& after.plan == execution.plan
            &&& after.authorization == execution.authorization
            &&& after.account == execution.account
            &&& after.stage == CachePurgeStage::Delete <==> execution.step() == CachePurgeStage::LookUp && found
                == Answer::Found(execution.current())
            &&& after.items.len() > execution.items.len() && after.items.last().state
                == CachePurgeExecutionState::Deleted <==> execution.step() == CachePurgeStage::Verify && found
                == Answer::<ActionsCacheView>::Absent
        },
        execution.step() == CachePurgeStage::Delete ==> execution.after_removal(removed).in_step(),
        execution.after_removal(removed).items.len() > execution.items.len() ==> execution.after_removal(
            removed,
        ).items.last().state != CachePurgeExecutionState::Deleted,
{
}

fn execution_item(
    planned: &ActionsCache,
    state: CachePurgeExecutionState,
    current: Option<ActionsCache>,
    error: Option<String>,
) -> (result: CachePurgeExecutionItem)
    ensures
        result.deep_view() == outcome(planned.deep_view(), state, current.deep_view(), error.deep_view()),
{
    CachePurgeExecutionItem { planned: planned.copied(), state, current, error }
}

/// The execution of a plan, cache by cache, as long as enough requests remain: it holds the
/// permission that it was started with, and asks for the account first.
pub struct CachePurgeExecutionService<'a> {
    plan: &'a CachePurgePlan,
    authorization: ExecutionAuthorization,
    account: Option<Account>,
    items: Vec<CachePurgeExecutionItem>,
    stage: CachePurgeStage,
    halt_reason: Option<String>,
}

impl<'a> DeepView for CachePurgeExecutionService<'a> {
    type V = CacheExecutionView;

    closed spec fn deep_view(&self) -> CacheExecutionView {
        CacheExecutionView {
            plan: self.plan.deep_view(),
            authorization: self.authorization.granted(),
            account: self.account.deep_view(),
            items: self.items.deep_view(),
            stage: self.stage,
            halt_reason: self.halt_reason.deep_view(),
        }
    }
}

impl<'a> CachePurgeExecutionService<'a> {
    /// Starts the execution of a plan that passes its check, and that a review of it allows, by
    /// the permission that was given.
    pub fn new(
        plan: &'a CachePurgePlan,
        reviewed: &CachePurgeRevalidationReport,
        authorization: ExecutionAuthorization,
    ) -> (result: Result<Self, CachePurgeError>)
        ensures
            match integrity_problem(plan.deep_view()) {
                Some(problem) => result is Err && result->Err_0.deep_view() == problem,
                None => match review_problem(plan.deep_view(), reviewed.deep_view()) {
                    Some(problem) => result is Err && result->Err_0.deep_view() == problem,
                    None => {
                        &&& result is Ok
                        &&& result->Ok_0.deep_view() == CacheExecutionView::started(
                            plan.deep_view(),
                            authorization.granted(),
                        )
                        &&& result->Ok_0.deep_view().in_step()
                    },
                },
            },
    {
        match plan.validate_integrity() {
            Ok(()) => {},
            Err(error) => {
                return Err(error);
            },
        }
        match validate_review(plan, reviewed) {
            Ok(()) => {},
            Err(error) => {
                return Err(error);
            },
        }
        Ok(
            CachePurgeExecutionService {
                plan,
                authorization,
                account: None,
                items: nothing(),
                stage: CachePurgeStage::Attempt,
                halt_reason: None,
            },
        )
    }

    pub fn next(&self) -> (result: CachePurgeStage)
        ensures
            result == self.deep_view().step(),
    {
        if self.account.is_none() {
            CachePurgeStage::Account
        } else if self.items.len() >= self.plan.targets.len() {
            CachePurgeStage::Finished
        } else {
            self.stage
        }
    }

    /// Takes the account that the provider answers with; one that is not the planned one is
    /// refused.
    pub fn account_answered(&mut self, account: Result<Account, ProviderError>) -> (result: Result<
        (),
        CachePurgeError,
    >)
        requires
            old(self).deep_view().step() == CachePurgeStage::Account,
        ensures
            reports(result, account_problem(old(self).deep_view().plan.account, account)),
            final(self).deep_view() == if result is Ok {
                CacheExecutionView { account: Some(old(self).deep_view().plan.account), ..old(self).deep_view() }
            } else {
                old(self).deep_view()
            },
            old(self).deep_view().in_step() ==> final(self).deep_view().in_step(),
    {
        match planned_account(&self.plan.account, account) {
            Ok(current) => {
                self.account = Some(current);
                Ok(())
            },
            Err(error) => Err(error),
        }
    }

    /// The cache that is carried out now.
    pub fn current(&self) -> (result: &ActionsCache)
        requires
            self.deep_view().items.len() < self.deep_view().plan.targets.len(),
        ensures
            result.deep_view() == self.deep_view().current(),
    {
        &self.plan.targets[self.items.len()]
    }

    /// Whether the current cache is to be attempted. One that may not be is recorded as
    /// blocked.
    pub fn attempt(&mut self, telemetry: &ProviderTelemetry) -> (result: bool)
        requires
            old(self).deep_view().step() == CachePurgeStage::Attempt,
        ensures
            result == old(self).deep_view().admits(telemetry.deep_view()),
            final(self).deep_view() == if result {
                CacheExecutionView { stage: CachePurgeStage::LookUp, ..old(self).deep_view() }
            } else {
                old(self).deep_view().passed_over(telemetry.deep_view())
            },
            old(self).deep_view().in_step() ==> final(self).deep_view().in_step(),
    {
        let reason: String = match &self.halt_reason {
            Some(reason) => reason.copied(),
            None => match rate_limit_guard_remaining(telemetry) {
                Some(remaining) => join3(
                    "cache purge halted by GitHub API rate-limit guard to preserve 250-request headroom (",
                    number(remaining).as_str(),
                    " remaining); target was not attempted",
                ),
                None => {
                    self.stage = CachePurgeStage::LookUp;
                    return true;
                },
            },
        };
        let item = execution_item(
            &self.plan.targets[self.items.len()],
            CachePurgeExecutionState::Blocked,
            None,
            Some(reason.copied()),
        );
        add_to(&mut self.items, item);
        self.halt_reason = Some(reason);
        false
    }

    fn record(&mut self, item: CachePurgeExecutionItem)
        ensures
            final(self).deep_view() == old(self).deep_view().with_item(item.deep_view()),
    {
        let halts = match &item.error {
            Some(error) => is_provider_rate_limit_error(error.as_str()),
            None => false,
        };
        if halts {
            self.halt_reason =
            Some(
                "cache purge halted by GitHub API rate-limit guard after provider rate limit; later targets were not attempted".to_owned(),
            );
        }
        add_to(&mut self.items, item);
        self.stage = CachePurgeStage::Attempt;
    }

    /// Takes what the provider says of the current cache.
    pub fn looked_up(&mut self, lookup: Result<Option<ActionsCache>, ProviderError>)
        requires
            old(self).deep_view().step() == CachePurgeStage::LookUp || old(self).deep_view().step()
                == CachePurgeStage::Verify,
        ensures
            final(self).deep_view() == old(self).deep_view().after_lookup(answer(lookup)),
            old(self).deep_view().in_step() ==> final(self).deep_view().in_step(),
    {
        let plan = self.plan;
        let planned = &plan.targets[self.items.len()];
        assert(planned.deep_view() == self.deep_view().current());
        let item = match self.stage {
            CachePurgeStage::Verify => match lookup {
                Ok(None) | Err(ProviderError::NotFound(_)) => execution_item(
                    planned,
                    CachePurgeExecutionState::Deleted,
                    None,
                    None,
                ),
                Ok(Some(current)) => execution_item(
                    planned,
                    CachePurgeExecutionState::VerificationFailed,
                    Some(current),
                    Some("GitHub Actions cache still exists after reported deletion".to_owned()),
                ),
                Err(error) => execution_item(
                    planned,
                    CachePurgeExecutionState::VerificationFailed,
                    Some(planned.copied()),
                    Some(
                        join2(
                            "provider reported successful cache deletion, but post-delete verification failed: ",
                            error.message().as_str(),
                        ),
                    ),
                ),
            },
            _ => match lookup {
                Ok(None) | Err(ProviderError::NotFound(_)) => execution_item(
                    planned,
                    CachePurgeExecutionState::AlreadyAbsent,
                    None,
                    None,
                ),
                Ok(Some(current)) => {
                    if current.same(planned) {
                        self.stage = CachePurgeStage::Delete;
                        return ;
                    }
                    execution_item(
                        planned,
                        CachePurgeExecutionState::Changed,
                        Some(current),
                        Some("cache changed since immutable plan was created".to_owned()),
                    )
                },
                Err(error) => execution_item(
                    planned,
                    CachePurgeExecutionState::RevalidationFailed,
                    None,
                    Some(error.message()),
                ),
            },
        };
        self.record(item);
    }

    /// Takes what the provider says of the deletion.
    pub fn removed(&mut self, result: Result<DeleteOutcome, ProviderError>)
        requires
            old(self).deep_view().step() == CachePurgeStage::Delete,
        ensures
            final(self).deep_view() == old(self).deep_view().after_removal(result),
            old(self).deep_view().in_step() ==> final(self).deep_view().in_step(),
    {
        let plan = self.plan;
        let planned = &plan.targets[self.items.len()];
        assert(planned.deep_view() == self.deep_view().current());
        let item = match result {
            Ok(DeleteOutcome::Deleted) => {
                self.stage = CachePurgeStage::Verify;
                return ;
            },
            Ok(DeleteOutcome::AlreadyAbsent) => execution_item(
                planned,
                CachePurgeExecutionState::AlreadyAbsent,
                None,
                None,
            ),
            Err(error) => execution_item(
                planned,
                CachePurgeExecutionState::DeleteFailed,
                Some(planned.copied()),
                Some(error.message()),
            ),
        };
        self.record(item);
    }

    /// The report of what became of the plan, once every target was carried out or passed over.
    pub fn report(self, telemetry: ProviderTelemetry, started_at: Timestamp, completed_at: Timestamp) -> (result:
        CachePurgeExecutionReport)
        requires
            self.deep_view().step() == CachePurgeStage::Finished,
        ensures
            result.deep_view() == (CachePurgeExecutionReportView {
                started_at,
                completed_at,
                account: self.deep_view().account->0,
                plan_schema_version: self.deep_view().plan.schema_version,
                plan_created_at: self.deep_view().plan.created_at,
                plan_scanned_at: self.deep_view().plan.scanned_at,
                scope: self.deep_view().plan.scope,
                selection: self.deep_view().plan.selection,
                authorization: self.deep_view().authorization,
                telemetry: telemetry.deep_view(),
                items: self.deep_view().items,
            }),
            self.deep_view().in_step() ==> result.deep_view().items.len() == self.deep_view().plan.targets.len(),
    {
        CachePurgeExecutionReport {
            started_at,
            completed_at,
            account: self.account.unwrap(),
            plan_schema_version: self.plan.schema_version,
            plan_created_at: self.plan.created_at,
            plan_scanned_at: self.plan.scanned_at,
            scope: self.plan.scope.copied(),
            selection: self.plan.selection.copied(),
            authorization: self.authorization.kind(),
            telemetry,
            items: self.items,
        }
    }
}

/// How many caches were deleted.
pub open spec fn deleted_caches(items: Seq<CachePurgeExecutionItemView>) -> nat
    decreases items.len(),
{
    if items.len() == 0 {
        0
    } else {
        deleted_caches(items.drop_last()) + if items.last().state == CachePurgeExecutionState::Deleted {
            1nat
        } else {
            0nat
        }
    }
}

/// The storage that the deleted caches took up.
pub open spec fn reclaimed(items: Seq<CachePurgeExecutionItemView>) -> nat
    decreases items.len(),
{
    if items.len() == 0 {
        0
    } else {
        reclaimed(items.drop_last()) + if items.last().state == CachePurgeExecutionState::Deleted {
            items.last().planned.size_in_bytes as nat
        } else {
            0nat
        }
    }
}

/// Whether a cache is gone.
pub open spec fn is_gone(state: CachePurgeExecutionState) -> bool {
    state == CachePurgeExecutionState::Deleted || state == CachePurgeExecutionState::AlreadyAbsent
}

impl CachePurgeExecutionReport {
    pub fn cache_count(&self) -> (result: usize)
        ensures
            result == self.deep_view().items.len(),
    {
        self.items.len()
    }

    /// How many caches were deleted.
    pub fn deleted_cache_count(&self) -> (result: usize)
        ensures
            result == deleted_caches(self.deep_view().items),
    {
        let ghost all = self.items.deep_view();
        let mut count: usize = 0;
        let mut i: usize = 0;
        assert(all.take(0) =~= Seq::empty());
        while i < self.items.len()
            invariant
                i <= self.items.len(),
                all == self.items.deep_view(),
                count <= i,
                count == deleted_caches(all.take(i as int)),
            decreases self.items.len() - i,
        {
            assert(all.take(i + 1).drop_last() =~= all.take(i as int));
            assert(all.take(i + 1).last() == self.items@[i as int].deep_view());
            if self.items[i].state == CachePurgeExecutionState::Deleted {
                count = count + 1;
            }
            i = i + 1;
        }
        assert(all.take(i as int) =~= all);
        count
    }

    /// The storage that the deleted caches took up, or the largest `u64` where it was more.
    pub fn reclaimed_bytes(&self) -> (result: u64)
        ensures
            result == capped(reclaimed(self.deep_view().items)),
    {
        let ghost all = self.items.deep_view();
        let mut bytes: u64 = 0;
        let mut i: usize = 0;
        assert(all.take(0) =~= Seq::empty());
        while i < self.items.len()
            invariant
                i <= self.items.len(),
                all == self.items.deep_view(),
                bytes == capped(reclaimed(all.take(i as int))),
            decreases self.items.len() - i,
        {
            assert(all.take(i + 1).drop_last() =~= all.take(i as int));
            assert(all.take(i + 1).last() == self.items@[i as int].deep_view());
            if self.items[i].state == CachePurgeExecutionState::Deleted {
                bytes = bytes.saturating_add(self.items[i].planned.size_in_bytes);
            }
            i = i + 1;
        }
        assert(all.take(i as int) =~= all);
        bytes
    }

    /// Whether every cache is gone.
    pub fn is_complete_success(&self) -> (result: bool)
        ensures
            result == forall|i: int|
                0 <= i < self.deep_view().items.len() ==> is_gone((#[trigger] self.deep_view().items[i]).state),
    {
        let ghost all = self.items.deep_view();
        let mut i: usize = 0;
        while i < self.items.len()
            invariant
                i <= self.items.len(),
                all == self.items.deep_view(),
                forall|k: int| 0 <= k < i ==> is_gone((#[trigger] all[k]).state),
            decreases self.items.len() - i,
        {
            assert(all[i as int].state == self.items@[i as int].state);
            match self.items[i].state {
                CachePurgeExecutionState::Deleted | CachePurgeExecutionState::AlreadyAbsent => {},
                _ => {
                    assert(!is_gone(self.deep_view().items[i as int].state));
                    return false;
                },
            }
            i = i + 1;
        }
        true
    }
}

/// No two of the targets are the same cache: they differ in number or, whatever the case of its
/// letters, in repository.
pub open spec fn caches_differ(targets: Seq<ActionsCacheView>) -> bool {
    forall|i: int, j: int|
        0 <= i < j < targets.len() ==> (#[trigger] targets[i]).id != (#[trigger] targets[j]).id || !equal_but_for_case(
            targets[i].repository.full_name,
            targets[j].repository.full_name,
        )
}

proof fn lemma_sound_targets(known: Option<Seq<ActionsCacheView>>, targets: Seq<ActionsCacheView>)
    ensures
        targets_problem(known, targets, 0) is None <==> caches_differ(targets) && (known is Some ==> forall|i: int|
            0 <= i < targets.len() ==> known->0.contains(#[trigger] targets[i])),
{
    lemma_targets_problem(known, targets, 0);
    assert forall|i: int, j: int| 0 <= i < j < targets.len() implies different_caches(
        #[trigger] targets[i],
        #[trigger] targets[j],
    ) == (targets[i].id != targets[j].id || !equal_but_for_case(
        targets[i].repository.full_name,
        targets[j].repository.full_name,
    )) by {
        case_is_disregarded(targets[i].repository.full_name, targets[j].repository.full_name);
    }
    if targets_problem(known, targets, 0) is None {
        assert forall|i: int, j: int| 0 <= i < j < targets.len() implies different_caches(
            #[trigger] targets[i],
            #[trigger] targets[j],
        ) by {
            assert(target_problem(known, targets, j) is None);
            assert(!cache_repeats(targets, j));
        }
        if known is Some {
            assert forall|i: int| 0 <= i < targets.len() implies known->0.contains(#[trigger] targets[i]) by {
                assert(target_problem(known, targets, i) is None);
            }
        }
    } else {
        let i = choose|i: int| 0 <= i < targets.len() && #[trigger] target_problem(known, targets, i) is Some;
        assert(target_problem(known, targets, i) is Some);
        if known is Some ==> known->0.contains(targets[i]) {
            let j = choose|j: int| 0 <= j < i && !different_caches(#[trigger] targets[j], targets[i]);
            assert(!different_caches(targets[j], targets[i]));
        }
    }
}

/// A stored plan is trusted where it is of the version that is known and about caches, names no
/// cache twice, and its summary tells how many caches there are and what they take up.
pub proof fn a_trusted_plan_is_sound(plan: CachePurgePlanView)
    requires
        plan.targets.len() <= usize::MAX,
        total::<ActionsCache>(plan.targets) <= u64::MAX,
    ensures
        integrity_problem(plan) is None <==> {
            &&& plan.schema_version == 1
            &&& plan.resource == "actions_cache"@
            &&& caches_differ(plan.targets)
            &&& plan.summary.cache_count == plan.targets.len()
            &&& plan.summary.cache_bytes == sum_by(plan.targets, |c: ActionsCacheView| c.size_in_bytes as nat)
        },
{
    lemma_sound_targets(None, plan.targets);
    cache_sizes_add_up(plan.targets);
    let expected = summary_of(plan.targets);
    if plan.summary.cache_count == expected.cache_count && plan.summary.cache_bytes == expected.cache_bytes {
        assert(plan.summary == expected);
    }
}

/// A plan can be made of a complete scan and of caches that it found, no one of them twice. It
/// records the scan and the selection, and lists the caches by repository, then by number, with
/// none lost and none added.
pub proof fn a_plan_records_the_scan(
    snapshot: CacheInventorySnapshotView,
    created_at: Timestamp,
    selection: CachePurgeSelectionView,
    targets: Seq<ActionsCacheView>,
    i: int,
    j: int,
)
    requires
        snapshot.issues.len() == 0,
        caches_differ(targets),
        forall|k: int| 0 <= k < targets.len() ==> snapshot.caches.contains(#[trigger] targets[k]),
    ensures
        plan_problem(snapshot, targets) is None,
        ({
            let plan = plan_of(snapshot, created_at, selection, targets);
            &&& plan.schema_version == 1
            &&& plan.resource == "actions_cache"@
            &&& plan.created_at == created_at
            &&& plan.scanned_at == snapshot.scanned_at
            &&& plan.account == snapshot.account
            &&& plan.scope == snapshot.scope
            &&& plan.selection == selection
            &&& plan.targets.to_multiset() == targets.to_multiset()
            &&& 0 <= i < j < plan.targets.len() ==> {
                let a = plan.targets[i];
                let b = plan.targets[j];
                &&& !text_less(b.repository.full_name, a.repository.full_name)
                &&& a.repository.full_name == b.repository.full_name ==> a.id <= b.id
            }
        }),
{
    let list = sorted::<ActionsCache, CacheTargetOrder>(targets, CacheTargetOrder);
    sorting_is_an_ordered_rearrangement::<ActionsCache, CacheTargetOrder>(targets, CacheTargetOrder);
    lemma_sorted_pointwise::<ActionsCache, CacheTargetOrder>(
        targets,
        CacheTargetOrder,
        |c: ActionsCacheView| snapshot.caches.contains(c),
    );
    let apart = |a: ActionsCacheView, b: ActionsCacheView|
        a.id != b.id || !equal_but_for_case(a.repository.full_name, b.repository.full_name);
    assert forall|a: ActionsCacheView, b: ActionsCacheView| #[trigger] apart(a, b) implies apart(b, a) by {
        lemma_case_both_ways(a.repository.full_name, b.repository.full_name);
    }
    lemma_sorted_pairwise::<ActionsCache, CacheTargetOrder>(targets, CacheTargetOrder, apart);
    assert forall|x: int, y: int| 0 <= x < y < list.len() implies (#[trigger] list[x]).id != (#[trigger] list[y]).id
        || !equal_but_for_case(list[x].repository.full_name, list[y].repository.full_name) by {
        assert(apart(list[x], list[y]));
    }
    lemma_sound_targets(Some(snapshot.caches), list);
    if 0 <= i < j < list.len() {
        let s = CacheTargetOrder.key(list[j]);
        let t = CacheTargetOrder.key(list[i]);
        assert(le::<ActionsCache, CacheTargetOrder>(CacheTargetOrder, list[i], list[j]));
        lemma_two_parts(s[0], s[1], t[0], t[1]);
        lemma_text_less_irreflexive(list[j].repository.full_name);
    }
}

proof fn lemma_case_both_ways(a: Seq<char>, b: Seq<char>)
    ensures
        equal_but_for_case(a, b) <==> equal_but_for_case(b, a),
{
    case_is_disregarded(a, b);
    case_is_disregarded(b, a);
}

/// A purge halts where no more than 250 requests remain, as far as the provider says how many do.
pub proof fn requests_are_kept_back(telemetry: ProviderTelemetryView)
    ensures
        guarded(telemetry) is Some <==> telemetry.rate_limit_remaining is Some && telemetry.rate_limit_remaining->0
            <= 250,
        guarded(telemetry) is Some ==> guarded(telemetry) == telemetry.rate_limit_remaining,
{
}

/// A cache is planned only where enough requests remain, the scan found it, and the provider shows
/// it exactly as the scan did.
pub proof fn only_confirmed_caches_are_planned(
    planning: CachePlanningView,
    cache: ActionsCacheView,
    telemetry: ProviderTelemetryView,
    lookup: Result<Option<ActionsCache>, ProviderError>,
    account: Result<Account, ProviderError>,
)
    ensures
        choice_problem(planning.snapshot.caches, cache, telemetry) is None <==> !(telemetry.rate_limit_remaining is Some
            && telemetry.rate_limit_remaining->0 <= 250) && planning.snapshot.caches.contains(cache),
        lookup_problem(cache, lookup) is None <==> lookup is Ok && lookup->Ok_0 is Some && lookup->Ok_0->0.deep_view()
            == cache,
        account_problem(planning.snapshot.account, account) is None <==> account is Ok && account->Ok_0.deep_view()
            == planning.snapshot.account,
        planning.account is None <==> planning.step() == CachePurgePlanningStep::Account,
        planning.account is Some && planning.verified.len() < planning.chosen.len() ==> planning.current()
            == planning.chosen[planning.verified.len() as int] && (planning.step() == CachePurgePlanningStep::LookUp
            <==> planning.admitted) && (planning.step() == CachePurgePlanningStep::Attempt <==> !planning.admitted),
{
}

/// A review says of a cache whether the provider shows it exactly as planned, shows it otherwise,
/// does not show it, or could not say. Where the rate limit was reached, the review halts.
pub proof fn a_finding_is_what_the_provider_shows(
    review: CacheReviewView,
    lookup: Result<Option<ActionsCache>, ProviderError>,
)
    ensures
        ({
            let planned = review.plan.targets[review.items.len() as int];
            let next = review.after(lookup);
            let item = next.items.last();
            let absent = (lookup is Ok && lookup->Ok_0 is None) || (lookup is Err && lookup->Err_0 is NotFound);
            &&& next.items == review.items.push(item)
            &&& item.cache_id == planned.id
            &&& item.repository == planned.repository.full_name
            &&& item.state == CachePurgeRevalidationState::Ready <==> lookup is Ok && lookup->Ok_0 is Some
                && lookup->Ok_0->0.deep_view() == planned
            &&& item.state == CachePurgeRevalidationState::Changed <==> lookup is Ok && lookup->Ok_0 is Some
                && lookup->Ok_0->0.deep_view() != planned
            &&& item.state == CachePurgeRevalidationState::AlreadyAbsent <==> absent
            &&& item.state == CachePurgeRevalidationState::RevalidationFailed <==> lookup is Err && !absent
            &&& lookup is Ok && lookup->Ok_0 is Some ==> item.current == Some(lookup->Ok_0->0.deep_view())
            &&& lookup is Err && !absent ==> item.error == Some(lookup->Err_0.text())
            &&& next.halt_reason is Some <==> review.halt_reason is Some || (lookup is Err
                && lookup->Err_0 is RateLimited)
            &&& !next.admitted
        }),
{
    let next = review.after(lookup);
    assert(next.items =~= review.items.push(next.items.last()));
}

/// A review or an execution goes on with a cache as long as it has not halted and more than 250
/// requests remain. One that is passed over is reported so, and halts what comes after it.
pub proof fn few_requests_halt_a_purge(
    review: CacheReviewView,
    execution: CacheExecutionView,
    telemetry: ProviderTelemetryView,
)
    ensures
        review.admits(telemetry) <==> review.halt_reason is None && !(telemetry.rate_limit_remaining is Some
            && telemetry.rate_limit_remaining->0 <= 250),
        execution.admits(telemetry) <==> execution.halt_reason is None && !(telemetry.rate_limit_remaining is Some
            && telemetry.rate_limit_remaining->0 <= 250),
        ({
            let next = review.passed_over(telemetry);
            &&& next.items.len() == review.items.len() + 1
            &&& next.items.last().cache_id == review.current().id
            &&& next.items.last().repository == review.current().repository.full_name
            &&& next.items.last().state == CachePurgeRevalidationState::RevalidationFailed
            &&& next.halt_reason is Some && next.items.last().error == next.halt_reason
            &&& review.halt_reason is Some ==> next.halt_reason == review.halt_reason
        }),
        ({
            let next = execution.passed_over(telemetry);
            &&& next.items.len() == execution.items.len() + 1
            &&& next.items.last().planned == execution.current()
            &&& next.items.last().state == CachePurgeExecutionState::Blocked
            &&& next.halt_reason is Some && next.items.last().error == next.halt_reason
            &&& execution.halt_reason is Some ==> next.halt_reason == execution.halt_reason
        }),
{
}

/// A review lets a plan be carried out exactly where it is of the planned account, looked at each
/// cache in turn, and found each ready or gone.
pub proof fn a_safe_review_of_the_plan_is_enough(plan: CachePurgePlanView, review: CachePurgeRevalidationReportView)
    ensures
        review_problem(plan, review) is None <==> {
            &&& review.account == plan.account
            &&& review.items.len() == plan.targets.len()
            &&& forall|i: int|
                0 <= i < plan.targets.len() ==> (#[trigger] review.items[i]).cache_id == plan.targets[i].id
                    && review.items[i].repository == plan.targets[i].repository.full_name && (review.items[i].state
                    == CachePurgeRevalidationState::Ready || review.items[i].state
                    == CachePurgeRevalidationState::AlreadyAbsent)
        },
{
    if review_problem(plan, review) is None {
        lemma_reviewed(plan.targets, review.items, 0);
    }
    if review.items.len() == plan.targets.len() && (forall|i: int|
        0 <= i < plan.targets.len() ==> (#[trigger] review.items[i]).cache_id == plan.targets[i].id
            && review.items[i].repository == plan.targets[i].repository.full_name && (review.items[i].state
            == CachePurgeRevalidationState::Ready || review.items[i].state
            == CachePurgeRevalidationState::AlreadyAbsent)) {
        lemma_all_reviewed(plan.targets, review.items, 0);
    }
}

proof fn lemma_all_reviewed(targets: Seq<ActionsCacheView>, items: Seq<CachePurgeRevalidationItemView>, from: int)
    requires
        0 <= from <= targets.len(),
        items.len() == targets.len(),
        forall|i: int|
            0 <= i < targets.len() ==> (#[trigger] items[i]).cache_id == targets[i].id && items[i].repository
                == targets[i].repository.full_name && (items[i].state == CachePurgeRevalidationState::Ready
                || items[i].state == CachePurgeRevalidationState::AlreadyAbsent),
    ensures
        items_problem(targets, items, from) is None,
    decreases targets.len() - from,
{
    if from < targets.len() {
        assert(items[from].cache_id == targets[from].id);
        lemma_all_reviewed(targets, items, from + 1);
    }
}

/// A cache is deleted where the provider shows it exactly as planned, and looked for again after its
/// deletion; it counts as deleted only where the provider shows it no more. Whatever else the
/// provider says is reported as it is.
pub proof fn a_cache_is_reported_as_it_went(
    execution: CacheExecutionView,
    found: Answer<ActionsCacheView>,
    removed: Result<DeleteOutcome, ProviderError>,
)
    ensures
        execution.stage == CachePurgeStage::LookUp ==> {
            let planned = execution.plan.targets[execution.items.len() as int];
            let next = execution.after_lookup(found);
            &&& next.stage == CachePurgeStage::Delete <==> found == Answer::Found(planned)
            &&& found == Answer::Found(planned) ==> next.items == execution.items
            &&& found != Answer::Found(planned) ==> {
                let item = next.items.last();
                &&& next.items == execution.items.push(item)
                &&& next.stage == CachePurgeStage::Attempt
                &&& item.planned == planned
                &&& item.state == CachePurgeExecutionState::AlreadyAbsent <==> found is Absent
                &&& item.state == CachePurgeExecutionState::Changed <==> found is Found
                &&& item.state == CachePurgeExecutionState::RevalidationFailed <==> found is Failed
                &&& found is Failed ==> item.error == Some(found->Failed_0)
            }
        },
        execution.stage == CachePurgeStage::Delete ==> {
            let planned = execution.plan.targets[execution.items.len() as int];
            let next = execution.after_removal(removed);
            &&& next.stage == CachePurgeStage::Verify <==> removed is Ok && removed->Ok_0 is Deleted
            &&& next.stage == CachePurgeStage::Verify ==> next.items == execution.items
            &&& next.stage != CachePurgeStage::Verify ==> {
                let item = next.items.last();
                &&& next.items == execution.items.push(item)
                &&& next.stage == CachePurgeStage::Attempt
                &&& item.planned == planned
                &&& item.state == CachePurgeExecutionState::AlreadyAbsent <==> removed is Ok
                &&& item.state == CachePurgeExecutionState::DeleteFailed <==> removed is Err
                &&& removed is Err ==> item.error == Some(removed->Err_0.text())
            }
        },
        execution.stage == CachePurgeStage::Verify ==> {
            let next = execution.after_lookup(found);
            let item = next.items.last();
            &&& next.items == execution.items.push(item)
            &&& next.stage == CachePurgeStage::Attempt
            &&& item.planned == execution.plan.targets[execution.items.len() as int]
            &&& item.state == CachePurgeExecutionState::Deleted <==> found is Absent
            &&& item.state == CachePurgeExecutionState::VerificationFailed <==> found !is Absent
        },
{
    let looked = execution.after_lookup(found);
    if looked.items.len() > execution.items.len() {
        assert(looked.items =~= execution.items.push(looked.items.last()));
    }
    let deleted = execution.after_removal(removed);
    if deleted.items.len() > execution.items.len() {
        assert(deleted.items =~= execution.items.push(deleted.items.last()));
    }
}

/// An error that tells of the provider's rate limit halts what comes after; nothing else does.
pub proof fn a_rate_limit_halts_an_execution(execution: CacheExecutionView, item: CachePurgeExecutionItemView)
    ensures
        execution.with_item(item).halt_reason is Some <==> execution.halt_reason is Some || (item.error is Some
            && exists|at: int|
            0 <= at && at + "provider rate limit reached"@.len() <= item.error->0.len()
                && #[trigger] item.error->0.subrange(at, at + "provider rate limit reached"@.len())
                == "provider rate limit reached"@),
        execution.with_item(item).items == execution.items.push(item),
{
    let word = "provider rate limit reached"@;
    if item.error is Some {
        let text = item.error->0;
        if contains_text(text, word) {
            let at = choose|at: int| #[trigger] occurs_at(text, word, at);
            assert(text.subrange(at, at + word.len()) == word);
        }
        if exists|at: int|
            0 <= at && at + word.len() <= text.len() && #[trigger] text.subrange(at, at + word.len()) == word {
            let at = choose|at: int|
                0 <= at && at + word.len() <= text.len() && #[trigger] text.subrange(at, at + word.len()) == word;
            assert(occurs_at(text, word, at));
        }
    }
}

/// A report counts the caches that were deleted and adds up what they took up.
pub proof fn a_report_counts_what_went(items: Seq<CachePurgeExecutionItemView>)
    ensures
        deleted_caches(items) == tally(
            items,
            |i: CachePurgeExecutionItemView| i.state == CachePurgeExecutionState::Deleted,
        ),
        reclaimed(items) == sum_by(
            items,
            |i: CachePurgeExecutionItemView|
                if i.state == CachePurgeExecutionState::Deleted {
                    i.planned.size_in_bytes as nat
                } else {
                    0
                },
        ),
    decreases items.len(),
{
    if items.len() > 0 {
        a_report_counts_what_went(items.drop_last());
    }
}

} // verus!
