//! The inventory: accounts, repositories, artifacts, caches and workflow runs.
use crate::text::{decimal, join2, join4, number};
use crate::time::Timestamp;
use crate::value::Value;
use vstd::prelude::*;

verus! {

/// Who can see a repository.
#[derive(Clone, Copy, Debug, PartialEq, Eq, Structural)]
pub enum Visibility {
    Public,
    Private,
    Internal,
    Unknown,
}

impl DeepView for Visibility {
    type V = Visibility;

    open spec fn deep_view(&self) -> Visibility {
        *self
    }
}

impl Value for Visibility {
    fn copied(&self) -> (result: Self) {
        *self
    }

    fn same(&self, other: &Self) -> (result: bool) {
        *self == *other
    }
}

/// The account that a provider authenticated.
#[derive(Clone, Debug, PartialEq, Eq)]
pub struct Account {
    pub provider: String,
    pub login: String,
}

/// The contents of [`Account`].
#[verifier::ext_equal]
pub struct AccountView {
    pub provider: Seq<char>,
    pub login: Seq<char>,
}

impl DeepView for Account {
    type V = AccountView;

    open spec fn deep_view(&self) -> AccountView {
        AccountView {
            provider: self.provider.deep_view(),
            login: self.login.deep_view(),
        }
    }
}

impl Value for Account {
    fn copied(&self) -> (result: Self) {
        Account {
            provider: self.provider.copied(),
            login: self.login.copied(),
        }
    }

    fn same(&self, other: &Self) -> (result: bool) {
        self.provider.same(&other.provider)
            && self.login.same(&other.login)
    }
}

/// A repository.
#[derive(Clone, Debug, PartialEq, Eq)]
pub struct Repository {
    pub id: u64,
    pub owner: String,
    pub name: String,
    pub full_name: String,
    pub visibility: Visibility,
    pub default_branch: String,
    pub archived: bool,
    pub fork: bool,
}

/// The contents of [`Repository`].
#[verifier::ext_equal]
pub struct RepositoryView {
    pub id: u64,
    pub owner: Seq<char>,
    pub name: Seq<char>,
    pub full_name: Seq<char>,
    pub visibility: Visibility,
    pub default_branch: Seq<char>,
    pub archived: bool,
    pub fork: bool,
}

impl DeepView for Repository {
    type V = RepositoryView;

    open spec fn deep_view(&self) -> RepositoryView {
        RepositoryView {
            id: self.id,
            owner: self.owner.deep_view(),
            name: self.name.deep_view(),
            full_name: self.full_name.deep_view(),
            visibility: self.visibility,
            default_branch: self.default_branch.deep_view(),
            archived: self.archived,
            fork: self.fork,
        }
    }
}

impl Value for Repository {
    fn copied(&self) -> (result: Self) {
        Repository {
            id: self.id,
            owner: self.owner.copied(),
            name: self.name.copied(),
            full_name: self.full_name.copied(),
            visibility: self.visibility,
            default_branch: self.default_branch.copied(),
            archived: self.archived,
            fork: self.fork,
        }
    }

    fn same(&self, other: &Self) -> (result: bool) {
        self.id == other.id
            && self.owner.same(&other.owner)
            && self.name.same(&other.name)
            && self.full_name.same(&other.full_name)
            && self.visibility == other.visibility
            && self.default_branch.same(&other.default_branch)
            && self.archived == other.archived
            && self.fork == other.fork
    }
}

/// A repository by its number and its full name.
#[derive(Clone, Debug, PartialEq, Eq)]
pub struct RepositoryRef {
    pub id: u64,
    pub full_name: String,
}

/// The contents of [`RepositoryRef`].
#[verifier::ext_equal]
pub struct RepositoryRefView {
    pub id: u64,
    pub full_name: Seq<char>,
}

impl DeepView for RepositoryRef {
    type V = RepositoryRefView;

    open spec fn deep_view(&self) -> RepositoryRefView {
        RepositoryRefView {
            id: self.id,
            full_name: self.full_name.deep_view(),
        }
    }
}

impl Value for RepositoryRef {
    fn copied(&self) -> (result: Self) {
        RepositoryRef {
            id: self.id,
            full_name: self.full_name.copied(),
        }
    }

    fn same(&self, other: &Self) -> (result: bool) {
        self.id == other.id
            && self.full_name.same(&other.full_name)
    }
}

/// The workflow run that made an artifact, as far as the provider names it.
#[derive(Clone, Debug, PartialEq, Eq)]
pub struct WorkflowRunRef {
    pub id: u64,
    pub head_branch: Option<String>,
    pub head_sha: Option<String>,
    pub workflow_id: Option<u64>,
    pub workflow_name: Option<String>,
}

/// The contents of [`WorkflowRunRef`].
#[verifier::ext_equal]
pub struct WorkflowRunRefView {
    pub id: u64,
    pub head_branch: Option<Seq<char>>,
    pub head_sha: Option<Seq<char>>,
    pub workflow_id: Option<u64>,
    pub workflow_name: Option<Seq<char>>,
}

impl DeepView for WorkflowRunRef {
    type V = WorkflowRunRefView;

    open spec fn deep_view(&self) -> WorkflowRunRefView {
        WorkflowRunRefView {
            id: self.id,
            head_branch: self.head_branch.deep_view(),
            head_sha: self.head_sha.deep_view(),
            workflow_id: self.workflow_id,
            workflow_name: self.workflow_name.deep_view(),
        }
    }
}

impl Value for WorkflowRunRef {
    fn copied(&self) -> (result: Self) {
        WorkflowRunRef {
            id: self.id,
            head_branch: self.head_branch.copied(),
            head_sha: self.head_sha.copied(),
            workflow_id: self.workflow_id,
            workflow_name: self.workflow_name.copied(),
        }
    }

    fn same(&self, other: &Self) -> (result: bool) {
        self.id == other.id
            && self.head_branch.same(&other.head_branch)
            && self.head_sha.same(&other.head_sha)
            && self.workflow_id.same(&other.workflow_id)
            && self.workflow_name.same(&other.workflow_name)
    }
}

/// An artifact that a workflow run left behind.
#[derive(Clone, Debug, PartialEq, Eq)]
pub struct Artifact {
    pub id: u64,
    pub repository: RepositoryRef,
    pub name: String,
    pub size_in_bytes: u64,
    pub created_at: Timestamp,
    pub updated_at: Timestamp,
    pub expires_at: Option<Timestamp>,
    pub expired: bool,
    pub digest: Option<String>,
    pub workflow_run: Option<WorkflowRunRef>,
}

/// The contents of [`Artifact`].
#[verifier::ext_equal]
pub struct ArtifactView {
    pub id: u64,
    pub repository: RepositoryRefView,
    pub name: Seq<char>,
    pub size_in_bytes: u64,
    pub created_at: Timestamp,
    pub updated_at: Timestamp,
    pub expires_at: Option<Timestamp>,
    pub expired: bool,
    pub digest: Option<Seq<char>>,
    pub workflow_run: Option<WorkflowRunRefView>,
}

impl DeepView for Artifact {
    type V = ArtifactView;

    open spec fn deep_view(&self) -> ArtifactView {
        ArtifactView {
            id: self.id,
            repository: self.repository.deep_view(),
            name: self.name.deep_view(),
            size_in_bytes: self.size_in_bytes,
            created_at: self.created_at,
            updated_at: self.updated_at,
            expires_at: self.expires_at,
            expired: self.expired,
            digest: self.digest.deep_view(),
            workflow_run: self.workflow_run.deep_view(),
        }
    }
}

impl Value for Artifact {
    fn copied(&self) -> (result: Self) {
        Artifact {
            id: self.id,
            repository: self.repository.copied(),
            name: self.name.copied(),
            size_in_bytes: self.size_in_bytes,
            created_at: self.created_at,
            updated_at: self.updated_at,
            expires_at: self.expires_at,
            expired: self.expired,
            digest: self.digest.copied(),
            workflow_run: self.workflow_run.copied(),
        }
    }

    fn same(&self, other: &Self) -> (result: bool) {
        self.id == other.id
            && self.repository.same(&other.repository)
            && self.name.same(&other.name)
            && self.size_in_bytes == other.size_in_bytes
            && self.created_at == other.created_at
            && self.updated_at == other.updated_at
            && self.expires_at.same(&other.expires_at)
            && self.expired == other.expired
            && self.digest.same(&other.digest)
            && self.workflow_run.same(&other.workflow_run)
    }
}

/// An Actions cache.
#[derive(Clone, Debug, PartialEq, Eq)]
pub struct ActionsCache {
    pub id: u64,
    pub repository: RepositoryRef,
    pub key: String,
    pub version: String,
    pub git_ref: String,
    pub created_at: Timestamp,
    pub last_accessed_at: Timestamp,
    pub size_in_bytes: u64,
}

/// The contents of [`ActionsCache`].
#[verifier::ext_equal]
pub struct ActionsCacheView {
    pub id: u64,
    pub repository: RepositoryRefView,
    pub key: Seq<char>,
    pub version: Seq<char>,
    pub git_ref: Seq<char>,
    pub created_at: Timestamp,
    pub last_accessed_at: Timestamp,
    pub size_in_bytes: u64,
}

impl DeepView for ActionsCache {
    type V = ActionsCacheView;

    open spec fn deep_view(&self) -> ActionsCacheView {
        ActionsCacheView {
            id: self.id,
            repository: self.repository.deep_view(),
            key: self.key.deep_view(),
            version: self.version.deep_view(),
            git_ref: self.git_ref.deep_view(),
            created_at: self.created_at,
            last_accessed_at: self.last_accessed_at,
            size_in_bytes: self.size_in_bytes,
        }
    }
}

impl Value for ActionsCache {
    fn copied(&self) -> (result: Self) {
        ActionsCache {
            id: self.id,
            repository: self.repository.copied(),
            key: self.key.copied(),
            version: self.version.copied(),
            git_ref: self.git_ref.copied(),
            created_at: self.created_at,
            last_accessed_at: self.last_accessed_at,
            size_in_bytes: self.size_in_bytes,
        }
    }

    fn same(&self, other: &Self) -> (result: bool) {
        self.id == other.id
            && self.repository.same(&other.repository)
            && self.key.same(&other.key)
            && self.version.same(&other.version)
            && self.git_ref.same(&other.git_ref)
            && self.created_at == other.created_at
            && self.last_accessed_at == other.last_accessed_at
            && self.size_in_bytes == other.size_in_bytes
    }
}

/// A workflow run.
#[derive(Clone, Debug, PartialEq, Eq)]
pub struct WorkflowRun {
    pub id: u64,
    pub repository: RepositoryRef,
    pub workflow_id: u64,
    pub workflow_name: Option<String>,
    pub display_title: String,
    pub event: String,
    pub status: String,
    pub conclusion: Option<String>,
    pub head_branch: Option<String>,
    pub head_sha: String,
    pub run_number: u64,
    pub run_attempt: u64,
    pub created_at: Timestamp,
    pub updated_at: Timestamp,
}

/// The contents of [`WorkflowRun`].
#[verifier::ext_equal]
pub struct WorkflowRunView {
    pub id: u64,
    pub repository: RepositoryRefView,
    pub workflow_id: u64,
    pub workflow_name: Option<Seq<char>>,
    pub display_title: Seq<char>,
    pub event: Seq<char>,
    pub status: Seq<char>,
    pub conclusion: Option<Seq<char>>,
    pub head_branch: Option<Seq<char>>,
    pub head_sha: Seq<char>,
    pub run_number: u64,
    pub run_attempt: u64,
    pub created_at: Timestamp,
    pub updated_at: Timestamp,
}

impl DeepView for WorkflowRun {
    type V = WorkflowRunView;

    open spec fn deep_view(&self) -> WorkflowRunView {
        WorkflowRunView {
            id: self.id,
            repository: self.repository.deep_view(),
            workflow_id: self.workflow_id,
            workflow_name: self.workflow_name.deep_view(),
            display_title: self.display_title.deep_view(),
            event: self.event.deep_view(),
            status: self.status.deep_view(),
            conclusion: self.conclusion.deep_view(),
            head_branch: self.head_branch.deep_view(),
            head_sha: self.head_sha.deep_view(),
            run_number: self.run_number,
            run_attempt: self.run_attempt,
            created_at: self.created_at,
            updated_at: self.updated_at,
        }
    }
}

impl Value for WorkflowRun {
    fn copied(&self) -> (result: Self) {
        WorkflowRun {
            id: self.id,
            repository: self.repository.copied(),
            workflow_id: self.workflow_id,
            workflow_name: self.workflow_name.copied(),
            display_title: self.display_title.copied(),
            event: self.event.copied(),
            status: self.status.copied(),
            conclusion: self.conclusion.copied(),
            head_branch: self.head_branch.copied(),
            head_sha: self.head_sha.copied(),
            run_number: self.run_number,
            run_attempt: self.run_attempt,
            created_at: self.created_at,
            updated_at: self.updated_at,
        }
    }

    fn same(&self, other: &Self) -> (result: bool) {
        self.id == other.id
            && self.repository.same(&other.repository)
            && self.workflow_id == other.workflow_id
            && self.workflow_name.same(&other.workflow_name)
            && self.display_title.same(&other.display_title)
            && self.event.same(&other.event)
            && self.status.same(&other.status)
            && self.conclusion.same(&other.conclusion)
            && self.head_branch.same(&other.head_branch)
            && self.head_sha.same(&other.head_sha)
            && self.run_number == other.run_number
            && self.run_attempt == other.run_attempt
            && self.created_at == other.created_at
            && self.updated_at == other.updated_at
    }
}

/// What a scan covers.
#[derive(Clone, Debug, PartialEq, Eq)]
pub enum ScanScope {
    AllAccessible,
    Owner(String),
    Repository(String),
}

/// The contents of [`ScanScope`].
#[verifier::ext_equal]
pub enum ScanScopeView {
    AllAccessible,
    Owner(Seq<char>),
    Repository(Seq<char>),
}

impl DeepView for ScanScope {
    type V = ScanScopeView;

    open spec fn deep_view(&self) -> ScanScopeView {
        match self {
            ScanScope::AllAccessible => ScanScopeView::AllAccessible,
            ScanScope::Owner(owner) => ScanScopeView::Owner(owner@),
            ScanScope::Repository(repository) => ScanScopeView::Repository(repository@),
        }
    }
}

impl Value for ScanScope {
    fn copied(&self) -> (result: Self) {
        match self {
            ScanScope::AllAccessible => ScanScope::AllAccessible,
            ScanScope::Owner(owner) => ScanScope::Owner(owner.copied()),
            ScanScope::Repository(repository) => ScanScope::Repository(repository.copied()),
        }
    }

    fn same(&self, other: &Self) -> (result: bool) {
        match (self, other) {
            (ScanScope::AllAccessible, ScanScope::AllAccessible) => true,
            (ScanScope::Owner(a), ScanScope::Owner(b)) => a.same(b),
            (ScanScope::Repository(a), ScanScope::Repository(b)) => a.same(b),
            _ => false,
        }
    }
}

/// What to scan, and how many repositories at a time.
#[derive(Clone, Debug, PartialEq, Eq)]
pub struct ScanOptions {
    pub scope: ScanScope,
    pub exclude_repositories: Vec<String>,
    pub concurrency: usize,
}

/// The contents of [`ScanOptions`].
#[verifier::ext_equal]
pub struct ScanOptionsView {
    pub scope: ScanScopeView,
    pub exclude_repositories: Seq<Seq<char>>,
    pub concurrency: usize,
}

impl DeepView for ScanOptions {
    type V = ScanOptionsView;

    open spec fn deep_view(&self) -> ScanOptionsView {
        ScanOptionsView {
            scope: self.scope.deep_view(),
            exclude_repositories: self.exclude_repositories.deep_view(),
            concurrency: self.concurrency,
        }
    }
}

impl Value for ScanOptions {
    fn copied(&self) -> (result: Self) {
        ScanOptions {
            scope: self.scope.copied(),
            exclude_repositories: self.exclude_repositories.copied(),
            concurrency: self.concurrency,
        }
    }

    fn same(&self, other: &Self) -> (result: bool) {
        self.scope.same(&other.scope)
            && self.exclude_repositories.same(&other.exclude_repositories)
            && self.concurrency == other.concurrency
    }
}

impl Default for ScanOptions {
    fn default() -> (result: Self)
        ensures
            result.deep_view() == (ScanOptionsView {
                scope: ScanScopeView::AllAccessible,
                exclude_repositories: Seq::empty(),
                concurrency: 2,
            }),
    {
        let result = ScanOptions {
            scope: ScanScope::AllAccessible,
            exclude_repositories: Vec::new(),
            concurrency: 2,
        };
        assert(result.deep_view().exclude_repositories =~= Seq::empty());
        result
    }
}

/// What a provider counted of its requests.
#[derive(Clone, Debug, PartialEq, Eq)]
pub struct ProviderTelemetry {
    pub api_requests: u64,
    pub rate_limit_remaining: Option<u64>,
}

/// The contents of [`ProviderTelemetry`].
#[verifier::ext_equal]
pub struct ProviderTelemetryView {
    pub api_requests: u64,
    pub rate_limit_remaining: Option<u64>,
}

impl DeepView for ProviderTelemetry {
    type V = ProviderTelemetryView;

    open spec fn deep_view(&self) -> ProviderTelemetryView {
        ProviderTelemetryView {
            api_requests: self.api_requests,
            rate_limit_remaining: self.rate_limit_remaining,
        }
    }
}

impl Value for ProviderTelemetry {
    fn copied(&self) -> (result: Self) {
        ProviderTelemetry {
            api_requests: self.api_requests,
            rate_limit_remaining: self.rate_limit_remaining,
        }
    }

    fn same(&self, other: &Self) -> (result: bool) {
        self.api_requests == other.api_requests
            && self.rate_limit_remaining.same(&other.rate_limit_remaining)
    }
}

impl Default for ProviderTelemetry {
    fn default() -> (result: Self)
        ensures
            result.api_requests == 0,
            result.rate_limit_remaining is None,
    {
        ProviderTelemetry { api_requests: 0, rate_limit_remaining: None }
    }
}

/// A repository that could not be scanned, and why.
#[derive(Clone, Debug, PartialEq, Eq)]
pub struct ScanIssue {
    pub repository: Option<String>,
    pub message: String,
}

/// The contents of [`ScanIssue`].
#[verifier::ext_equal]
pub struct ScanIssueView {
    pub repository: Option<Seq<char>>,
    pub message: Seq<char>,
}

impl DeepView for ScanIssue {
    type V = ScanIssueView;

    open spec fn deep_view(&self) -> ScanIssueView {
        ScanIssueView {
            repository: self.repository.deep_view(),
            message: self.message.deep_view(),
        }
    }
}

impl Value for ScanIssue {
    fn copied(&self) -> (result: Self) {
        ScanIssue {
            repository: self.repository.copied(),
            message: self.message.copied(),
        }
    }

    fn same(&self, other: &Self) -> (result: bool) {
        self.repository.same(&other.repository)
            && self.message.same(&other.message)
    }
}

/// The artifacts that a scan found.
#[derive(Clone, Debug, PartialEq, Eq)]
pub struct InventorySnapshot {
    pub account: Account,
    pub scope: ScanScope,
    pub scanned_at: Timestamp,
    pub elapsed_ms: u64,
    pub repositories: Vec<Repository>,
    pub artifacts: Vec<Artifact>,
    pub issues: Vec<ScanIssue>,
    pub telemetry: ProviderTelemetry,
}

/// The contents of [`InventorySnapshot`].
#[verifier::ext_equal]
pub struct InventorySnapshotView {
    pub account: AccountView,
    pub scope: ScanScopeView,
    pub scanned_at: Timestamp,
    pub elapsed_ms: u64,
    pub repositories: Seq<RepositoryView>,
    pub artifacts: Seq<ArtifactView>,
    pub issues: Seq<ScanIssueView>,
    pub telemetry: ProviderTelemetryView,
}

impl DeepView for InventorySnapshot {
    type V = InventorySnapshotView;

    open spec fn deep_view(&self) -> InventorySnapshotView {
        InventorySnapshotView {
            account: self.account.deep_view(),
            scope: self.scope.deep_view(),
            scanned_at: self.scanned_at,
            elapsed_ms: self.elapsed_ms,
            repositories: self.repositories.deep_view(),
            artifacts: self.artifacts.deep_view(),
            issues: self.issues.deep_view(),
            telemetry: self.telemetry.deep_view(),
        }
    }
}

/// The caches that a scan found.
#[derive(Clone, Debug, PartialEq, Eq)]
pub struct CacheInventorySnapshot {
    pub account: Account,
    pub scope: ScanScope,
    pub scanned_at: Timestamp,
    pub elapsed_ms: u64,
    pub repositories: Vec<Repository>,
    pub caches: Vec<ActionsCache>,
    pub issues: Vec<ScanIssue>,
    pub telemetry: ProviderTelemetry,
}

/// The contents of [`CacheInventorySnapshot`].
#[verifier::ext_equal]
pub struct CacheInventorySnapshotView {
    pub account: AccountView,
    pub scope: ScanScopeView,
    pub scanned_at: Timestamp,
    pub elapsed_ms: u64,
    pub repositories: Seq<RepositoryView>,
    pub caches: Seq<ActionsCacheView>,
    pub issues: Seq<ScanIssueView>,
    pub telemetry: ProviderTelemetryView,
}

impl DeepView for CacheInventorySnapshot {
    type V = CacheInventorySnapshotView;

    open spec fn deep_view(&self) -> CacheInventorySnapshotView {
        CacheInventorySnapshotView {
            account: self.account.deep_view(),
            scope: self.scope.deep_view(),
            scanned_at: self.scanned_at,
            elapsed_ms: self.elapsed_ms,
            repositories: self.repositories.deep_view(),
            caches: self.caches.deep_view(),
            issues: self.issues.deep_view(),
            telemetry: self.telemetry.deep_view(),
        }
    }
}

/// The workflow runs that a scan found.
#[derive(Clone, Debug, PartialEq, Eq)]
pub struct WorkflowRunInventorySnapshot {
    pub account: Account,
    pub scope: ScanScope,
    pub scanned_at: Timestamp,
    pub elapsed_ms: u64,
    pub repositories: Vec<Repository>,
    pub runs: Vec<WorkflowRun>,
    pub issues: Vec<ScanIssue>,
    pub telemetry: ProviderTelemetry,
}

/// The contents of [`WorkflowRunInventorySnapshot`].
#[verifier::ext_equal]
pub struct WorkflowRunInventorySnapshotView {
    pub account: AccountView,
    pub scope: ScanScopeView,
    pub scanned_at: Timestamp,
    pub elapsed_ms: u64,
    pub repositories: Seq<RepositoryView>,
    pub runs: Seq<WorkflowRunView>,
    pub issues: Seq<ScanIssueView>,
    pub telemetry: ProviderTelemetryView,
}

impl DeepView for WorkflowRunInventorySnapshot {
    type V = WorkflowRunInventorySnapshotView;

    open spec fn deep_view(&self) -> WorkflowRunInventorySnapshotView {
        WorkflowRunInventorySnapshotView {
            account: self.account.deep_view(),
            scope: self.scope.deep_view(),
            scanned_at: self.scanned_at,
            elapsed_ms: self.elapsed_ms,
            repositories: self.repositories.deep_view(),
            runs: self.runs.deep_view(),
            issues: self.issues.deep_view(),
            telemetry: self.telemetry.deep_view(),
        }
    }
}

/// What a provider reports of a deletion.
#[derive(Clone, Copy, Debug, PartialEq, Eq, Structural)]
pub enum DeleteOutcome {
    Deleted,
    AlreadyAbsent,
}

impl DeepView for DeleteOutcome {
    type V = DeleteOutcome;

    open spec fn deep_view(&self) -> DeleteOutcome {
        *self
    }
}

impl Value for DeleteOutcome {
    fn copied(&self) -> (result: Self) {
        *self
    }

    fn same(&self, other: &Self) -> (result: bool) {
        *self == *other
    }
}

impl RepositoryView {
    pub open spec fn reference(self) -> RepositoryRefView {
        RepositoryRefView { id: self.id, full_name: self.full_name }
    }
}

impl RepositoryRef {
    /// The repository by its number and its full name.
    pub fn of(repository: &Repository) -> (result: Self)
        ensures
            result.deep_view() == repository.deep_view().reference(),
    {
        RepositoryRef { id: repository.id, full_name: repository.full_name.copied() }
    }
}

/// Why a provider could not answer.
#[derive(Clone, Debug, PartialEq, Eq)]
pub enum ProviderError {
    Authentication(String),
    NotFound(String),
    PermissionDenied(String),
    RateLimited { retry_after_seconds: Option<u64>, message: String },
    Transport(String),
    InvalidResponse(String),
    HttpStatus { status: u16, message: String },
}

impl ProviderError {
    /// The error in words.
    pub open spec fn text(&self) -> Seq<char> {
        self.deep_view().text()
    }

    /// The error in words.
    pub fn message(&self) -> (result: String)
        ensures
            result@ == self.text(),
    {
        match self {
            ProviderError::Authentication(detail) => join2("authentication failed: ", detail.as_str()),
            ProviderError::NotFound(detail) => join2("resource not found: ", detail.as_str()),
            ProviderError::PermissionDenied(detail) => join2("permission denied: ", detail.as_str()),
            ProviderError::RateLimited { retry_after_seconds, message } => join2(
                "provider rate limit reached",
                message.as_str(),
            ),
            ProviderError::Transport(detail) => join2("provider transport error: ", detail.as_str()),
            ProviderError::InvalidResponse(detail) => join2("invalid provider response: ", detail.as_str()),
            ProviderError::HttpStatus { status, message } => join4(
                "provider request failed with HTTP ",
                number(*status as u64).as_str(),
                ": ",
                message.as_str(),
            ),
        }
    }
}

/// The contents of [`ProviderError`].
#[verifier::ext_equal]
pub enum ProviderErrorView {
    Authentication(Seq<char>),
    NotFound(Seq<char>),
    PermissionDenied(Seq<char>),
    RateLimited { retry_after_seconds: Option<u64>, message: Seq<char> },
    Transport(Seq<char>),
    InvalidResponse(Seq<char>),
    HttpStatus { status: u16, message: Seq<char> },
}

impl ProviderErrorView {
    /// The error in words.
    pub open spec fn text(self) -> Seq<char> {
        match self {
            ProviderErrorView::Authentication(detail) => "authentication failed: "@ + detail,
            ProviderErrorView::NotFound(detail) => "resource not found: "@ + detail,
            ProviderErrorView::PermissionDenied(detail) => "permission denied: "@ + detail,
            ProviderErrorView::RateLimited { retry_after_seconds, message } => "provider rate limit reached"@
                + message,
            ProviderErrorView::Transport(detail) => "provider transport error: "@ + detail,
            ProviderErrorView::InvalidResponse(detail) => "invalid provider response: "@ + detail,
            ProviderErrorView::HttpStatus { status, message } => "provider request failed with HTTP "@
                + decimal(status as nat) + ": "@ + message,
        }
    }
}

impl DeepView for ProviderError {
    type V = ProviderErrorView;

    open spec fn deep_view(&self) -> ProviderErrorView {
        match self {
            ProviderError::Authentication(detail) => ProviderErrorView::Authentication(detail@),
            ProviderError::NotFound(detail) => ProviderErrorView::NotFound(detail@),
            ProviderError::PermissionDenied(detail) => ProviderErrorView::PermissionDenied(detail@),
            ProviderError::RateLimited { retry_after_seconds, message } => ProviderErrorView::RateLimited {
                retry_after_seconds: *retry_after_seconds,
                message: message@,
            },
            ProviderError::Transport(detail) => ProviderErrorView::Transport(detail@),
            ProviderError::InvalidResponse(detail) => ProviderErrorView::InvalidResponse(detail@),
            ProviderError::HttpStatus { status, message } => ProviderErrorView::HttpStatus {
                status: *status,
                message: message@,
            },
        }
    }
}

/// What a provider says of one resource.
#[verifier::ext_equal]
pub enum Answer<V> {
    Absent,
    Found(V),
    Failed(Seq<char>),
}

/// A lookup's result: a resource that the provider does not find is absent.
pub open spec fn answer<T: DeepView>(result: Result<Option<T>, ProviderError>) -> Answer<T::V> {
    match result {
        Ok(Some(value)) => Answer::Found(value.deep_view()),
        Ok(None) => Answer::Absent,
        Err(ProviderError::NotFound(_)) => Answer::Absent,
        Err(error) => Answer::Failed(error.text()),
    }
}

/// What a provider says of one deletion.
#[verifier::ext_equal]
pub enum Removal {
    Deleted,
    Absent,
    Failed(Seq<char>),
}

/// A deletion's result: a resource that the provider does not find is absent.
pub open spec fn removal(result: Result<DeleteOutcome, ProviderError>) -> Removal {
    match result {
        Ok(DeleteOutcome::Deleted) => Removal::Deleted,
        Ok(DeleteOutcome::AlreadyAbsent) => Removal::Absent,
        Err(ProviderError::NotFound(_)) => Removal::Absent,
        Err(error) => Removal::Failed(error.text()),
    }
}

/// What a provider does not find is absent, to a lookup and to a deletion; every other error is a
/// failure that says why.
pub proof fn what_is_not_found_is_absent<T: DeepView>(
    lookup: Result<Option<T>, ProviderError>,
    deletion: Result<DeleteOutcome, ProviderError>,
)
    ensures
        answer(lookup) is Found <==> lookup is Ok && lookup->Ok_0 is Some,
        answer(lookup) is Found ==> answer(lookup)->Found_0 == lookup->Ok_0->0.deep_view(),
        answer(lookup) is Absent <==> (lookup is Ok && lookup->Ok_0 is None) || (lookup is Err
            && lookup->Err_0 is NotFound),
        answer(lookup) is Failed ==> lookup is Err && answer(lookup)->Failed_0 == lookup->Err_0.text(),
        removal(deletion) is Deleted <==> deletion is Ok && deletion->Ok_0 is Deleted,
        removal(deletion) is Absent <==> (deletion is Ok && deletion->Ok_0 is AlreadyAbsent) || (deletion is Err
            && deletion->Err_0 is NotFound),
        removal(deletion) is Failed ==> deletion is Err && removal(deletion)->Failed_0 == deletion->Err_0.text(),
{
}

/// A repository is referred to by its number and its full name.
pub proof fn a_repository_is_referred_to_by_number_and_name(repository: RepositoryView)
    ensures
        repository.reference().id == repository.id,
        repository.reference().full_name == repository.full_name,
{
}

} // verus!
