//! Watching how much storage artifacts take up: thresholds, how one sample follows another, what
//! is worth a notification, and when the next sample is due.
use crate::model::{
    Account, AccountView, InventorySnapshot, InventorySnapshotView, ProviderError, ProviderTelemetry,
    ProviderTelemetryView, ScanIssue, ScanIssueView, ScanOptions, ScanOptionsView, ScanScope, ScanScopeView, Artifact,
    ArtifactView,
};
use crate::order::{
    distinct, distinct_elements_stand_once_in_order, distinct_elements_tell_the_members, lemma_texts_identify,
    sort_distinct, strictly_in_order, sum_by, Alphabetical,
};
use crate::inventory::artifact_sizes_add_up;
use crate::text::{
    case_is_disregarded, decimal, eq_ignore_ascii_case, equal_but_for_case, join2, lowered, number, same_ignoring_case,
    to_ascii_lowercase,
};
use crate::time::Timestamp;
use crate::totals::total;
use crate::value::{add_to, nothing, Value};
use vstd::prelude::*;

verus! {

/// How full the storage is.
#[derive(Clone, Copy, Debug, PartialEq, Eq, Structural)]
pub enum StoragePressureLevel {
    Unconfigured,
    Healthy,
    Warning,
    Critical,
}

impl DeepView for StoragePressureLevel {
    type V = StoragePressureLevel;

    open spec fn deep_view(&self) -> StoragePressureLevel {
        *self
    }
}

impl Value for StoragePressureLevel {
    fn copied(&self) -> (result: Self) {
        *self
    }

    fn same(&self, other: &Self) -> (result: bool) {
        *self == *other
    }
}

/// Why thresholds make no sense.
#[derive(Clone, Debug, PartialEq, Eq)]
pub enum StorageThresholdError {
    ZeroWarning,
    ZeroCritical,
    WarningNotBelowCritical { warning: u64, critical: u64 },
}

/// The contents of [`StorageThresholdError`].
#[verifier::ext_equal]
pub enum StorageThresholdErrorView {
    ZeroWarning,
    ZeroCritical,
    WarningNotBelowCritical { warning: u64, critical: u64 },
}

impl DeepView for StorageThresholdError {
    type V = StorageThresholdErrorView;

    open spec fn deep_view(&self) -> StorageThresholdErrorView {
        match self {
            StorageThresholdError::ZeroWarning => StorageThresholdErrorView::ZeroWarning,
            StorageThresholdError::ZeroCritical => StorageThresholdErrorView::ZeroCritical,
            StorageThresholdError::WarningNotBelowCritical { warning, critical } => StorageThresholdErrorView::WarningNotBelowCritical { warning: *warning, critical: *critical },
        }
    }
}

impl StorageThresholdErrorView {
    /// The error in words.
    pub open spec fn text(self) -> Seq<char> {
        match self {
            StorageThresholdErrorView::ZeroWarning => "warning threshold must be greater than zero"@,
            StorageThresholdErrorView::ZeroCritical => "critical threshold must be greater than zero"@,
            StorageThresholdErrorView::WarningNotBelowCritical { warning, critical } => "warning threshold ("@ + decimal(warning as nat) + " bytes) must be below critical threshold ("@ + decimal(critical as nat) + " bytes)"@,
        }
    }
}

impl StorageThresholdError {
    /// The error in words.
    pub fn message(&self) -> (result: String)
        ensures
            result@ == self.deep_view().text(),
    {
        match self {
            StorageThresholdError::ZeroWarning => "warning threshold must be greater than zero".to_owned(),
            StorageThresholdError::ZeroCritical => "critical threshold must be greater than zero".to_owned(),
            StorageThresholdError::WarningNotBelowCritical { warning, critical } => {
                let mut text = "warning threshold (".to_owned();
                text.append(number(*warning).as_str());
                text.append(" bytes) must be below critical threshold (");
                text.append(number(*critical).as_str());
                text.append(" bytes)");
                text
            },
        }
    }
}

/// The storage from which on a warning is due, and that from which on matters are critical.
#[derive(Clone, Copy, Debug, Default, PartialEq, Eq, Structural)]
pub struct StorageThresholds {
    pub warning_bytes: Option<u64>,
    pub critical_bytes: Option<u64>,
}

/// How much storage is taken up, held against the thresholds.
#[derive(Clone, Copy, Debug, PartialEq, Eq, Structural)]
pub struct StoragePressureReport {
    pub total_bytes: u64,
    pub warning_bytes: Option<u64>,
    pub critical_bytes: Option<u64>,
    pub bytes_until_warning: Option<u64>,
    pub bytes_until_critical: Option<u64>,
    pub level: StoragePressureLevel,
}

/// A sample of how much storage artifacts take up.
#[derive(Clone, Debug, PartialEq, Eq)]
pub struct MonitoringReport {
    pub account: Account,
    pub scope: ScanScope,
    pub exclude_repositories: Vec<String>,
    pub scanned_at: Timestamp,
    pub elapsed_ms: u64,
    pub repository_count: usize,
    pub artifact_count: usize,
    pub total_bytes: u64,
    pub pressure: StoragePressureReport,
    pub issues: Vec<ScanIssue>,
    pub telemetry: ProviderTelemetry,
}

/// The contents of [`MonitoringReport`].
#[verifier::ext_equal]
pub struct MonitoringReportView {
    pub account: AccountView,
    pub scope: ScanScopeView,
    pub exclude_repositories: Seq<Seq<char>>,
    pub scanned_at: Timestamp,
    pub elapsed_ms: u64,
    pub repository_count: usize,
    pub artifact_count: usize,
    pub total_bytes: u64,
    pub pressure: StoragePressureReport,
    pub issues: Seq<ScanIssueView>,
    pub telemetry: ProviderTelemetryView,
}

impl DeepView for MonitoringReport {
    type V = MonitoringReportView;

    open spec fn deep_view(&self) -> MonitoringReportView {
        MonitoringReportView {
            account: self.account.deep_view(),
            scope: self.scope.deep_view(),
            exclude_repositories: self.exclude_repositories.deep_view(),
            scanned_at: self.scanned_at,
            elapsed_ms: self.elapsed_ms,
            repository_count: self.repository_count,
            artifact_count: self.artifact_count,
            total_bytes: self.total_bytes,
            pressure: self.pressure,
            issues: self.issues.deep_view(),
            telemetry: self.telemetry.deep_view(),
        }
    }
}

impl Value for MonitoringReport {
    fn copied(&self) -> (result: Self) {
        MonitoringReport {
            account: self.account.copied(),
            scope: self.scope.copied(),
            exclude_repositories: self.exclude_repositories.copied(),
            scanned_at: self.scanned_at,
            elapsed_ms: self.elapsed_ms,
            repository_count: self.repository_count,
            artifact_count: self.artifact_count,
            total_bytes: self.total_bytes,
            pressure: self.pressure,
            issues: self.issues.copied(),
            telemetry: self.telemetry.copied(),
        }
    }

    fn same(&self, other: &Self) -> (result: bool) {
        self.account.same(&other.account)
            && self.scope.same(&other.scope)
            && self.exclude_repositories.same(&other.exclude_repositories)
            && self.scanned_at == other.scanned_at
            && self.elapsed_ms == other.elapsed_ms
            && self.repository_count == other.repository_count
            && self.artifact_count == other.artifact_count
            && self.total_bytes == other.total_bytes
            && self.pressure == other.pressure
            && self.issues.same(&other.issues)
            && self.telemetry.same(&other.telemetry)
    }
}

/// Why a schedule makes no sense.
#[derive(Clone, Copy, Debug, PartialEq, Eq)]
pub enum MonitoringSchedulerConfigError {
    ZeroInterval,
    ZeroFailureDelay,
    IncompatibleBaselineScope,
}

/// The contents of [`MonitoringSchedulerConfigError`].
#[verifier::ext_equal]
pub enum MonitoringSchedulerConfigErrorView {
    ZeroInterval,
    ZeroFailureDelay,
    IncompatibleBaselineScope,
}

impl DeepView for MonitoringSchedulerConfigError {
    type V = MonitoringSchedulerConfigErrorView;

    open spec fn deep_view(&self) -> MonitoringSchedulerConfigErrorView {
        match self {
            MonitoringSchedulerConfigError::ZeroInterval => MonitoringSchedulerConfigErrorView::ZeroInterval,
            MonitoringSchedulerConfigError::ZeroFailureDelay => MonitoringSchedulerConfigErrorView::ZeroFailureDelay,
            MonitoringSchedulerConfigError::IncompatibleBaselineScope => MonitoringSchedulerConfigErrorView::IncompatibleBaselineScope,
        }
    }
}

impl MonitoringSchedulerConfigErrorView {
    /// The error in words.
    pub open spec fn text(self) -> Seq<char> {
        match self {
            MonitoringSchedulerConfigErrorView::ZeroInterval => "monitoring scheduler interval must be greater than zero"@,
            MonitoringSchedulerConfigErrorView::ZeroFailureDelay => "monitoring scheduler failure delay must be greater than zero"@,
            MonitoringSchedulerConfigErrorView::IncompatibleBaselineScope => "monitoring scheduler baseline does not match the configured scan scope"@,
        }
    }
}

impl MonitoringSchedulerConfigError {
    /// The error in words.
    pub fn message(&self) -> (result: String)
        ensures
            result@ == self.deep_view().text(),
    {
        match self {
            MonitoringSchedulerConfigError::ZeroInterval => "monitoring scheduler interval must be greater than zero".to_owned(),
            MonitoringSchedulerConfigError::ZeroFailureDelay => "monitoring scheduler failure delay must be greater than zero".to_owned(),
            MonitoringSchedulerConfigError::IncompatibleBaselineScope => "monitoring scheduler baseline does not match the configured scan scope".to_owned(),
        }
    }
}

/// Why a schedule ended.
#[derive(Clone, Copy, Debug, PartialEq, Eq, Structural)]
pub enum MonitoringSchedulerStopReason {
    Cancelled,
    AttemptLimitReached,
}

impl DeepView for MonitoringSchedulerStopReason {
    type V = MonitoringSchedulerStopReason;

    open spec fn deep_view(&self) -> MonitoringSchedulerStopReason {
        *self
    }
}

impl Value for MonitoringSchedulerStopReason {
    fn copied(&self) -> (result: Self) {
        *self
    }

    fn same(&self, other: &Self) -> (result: bool) {
        *self == *other
    }
}

impl StorageThresholds {
    /// Why thresholds make no sense.
    pub open spec fn problem(warning_bytes: Option<u64>, critical_bytes: Option<u64>) -> Option<StorageThresholdErrorView> {
        if warning_bytes == Some(0u64) {
            Some(StorageThresholdErrorView::ZeroWarning)
        } else if critical_bytes == Some(0u64) {
            Some(StorageThresholdErrorView::ZeroCritical)
        } else {
            match (warning_bytes, critical_bytes) {
                (Some(warning), Some(critical)) => if warning >= critical {
                    Some(StorageThresholdErrorView::WarningNotBelowCritical { warning, critical })
                } else {
                    None
                },
                _ => None,
            }
        }
    }

    /// How full the storage is.
    pub open spec fn level(self, total_bytes: u64) -> StoragePressureLevel {
        if self.warning_bytes is None && self.critical_bytes is None {
            StoragePressureLevel::Unconfigured
        } else if reaches(total_bytes, self.critical_bytes) {
            StoragePressureLevel::Critical
        } else if reaches(total_bytes, self.warning_bytes) {
            StoragePressureLevel::Warning
        } else {
            StoragePressureLevel::Healthy
        }
    }

    /// How much storage is taken up, held against the thresholds.
    pub open spec fn evaluated(self, total_bytes: u64) -> StoragePressureReport {
        StoragePressureReport {
            total_bytes,
            warning_bytes: self.warning_bytes,
            critical_bytes: self.critical_bytes,
            bytes_until_warning: left_until(total_bytes, self.warning_bytes),
            bytes_until_critical: left_until(total_bytes, self.critical_bytes),
            level: self.level(total_bytes),
        }
    }

    /// Thresholds, of which neither is zero and the first is below the second.
    pub fn new(warning_bytes: Option<u64>, critical_bytes: Option<u64>) -> (result: Result<
        Self,
        StorageThresholdError,
    >)
        ensures
            match StorageThresholds::problem(warning_bytes, critical_bytes) {
                Some(problem) => result is Err && result->Err_0.deep_view() == problem,
                None => result == Ok::<StorageThresholds, StorageThresholdError>(
                    StorageThresholds { warning_bytes, critical_bytes },
                ),
            },
    {
        if let Some(0) = warning_bytes {
            return Err(StorageThresholdError::ZeroWarning);
        }
        if let Some(0) = critical_bytes {
            return Err(StorageThresholdError::ZeroCritical);
        }
        if let (Some(warning), Some(critical)) = (warning_bytes, critical_bytes) {
            if warning >= critical {
                return Err(StorageThresholdError::WarningNotBelowCritical { warning, critical });
            }
        }
        Ok(StorageThresholds { warning_bytes, critical_bytes })
    }

    /// Holds the storage that is taken up against the thresholds.
    pub fn evaluate(self, total_bytes: u64) -> (result: StoragePressureReport)
        ensures
            result == self.evaluated(total_bytes),
    {
        let level = if self.warning_bytes.is_none() && self.critical_bytes.is_none() {
            StoragePressureLevel::Unconfigured
        } else if has_reached(total_bytes, self.critical_bytes) {
            StoragePressureLevel::Critical
        } else if has_reached(total_bytes, self.warning_bytes) {
            StoragePressureLevel::Warning
        } else {
            StoragePressureLevel::Healthy
        };
        StoragePressureReport {
            total_bytes,
            warning_bytes: self.warning_bytes,
            critical_bytes: self.critical_bytes,
            bytes_until_warning: find_left_until(total_bytes, self.warning_bytes),
            bytes_until_critical: find_left_until(total_bytes, self.critical_bytes),
            level,
        }
    }
}

/// Whether a threshold is set and reached.
pub open spec fn reaches(total_bytes: u64, threshold: Option<u64>) -> bool {
    match threshold {
        Some(threshold) => total_bytes >= threshold,
        None => false,
    }
}

/// What is left until a threshold.
pub open spec fn left_until(total_bytes: u64, threshold: Option<u64>) -> Option<u64> {
    match threshold {
        Some(threshold) => Some(
            if threshold > total_bytes {
                (threshold - total_bytes) as u64
            } else {
                0
            },
        ),
        None => None,
    }
}

fn has_reached(total_bytes: u64, threshold: Option<u64>) -> (result: bool)
    ensures
        result == reaches(total_bytes, threshold),
{
    match threshold {
        Some(threshold) => total_bytes >= threshold,
        None => false,
    }
}

fn find_left_until(total_bytes: u64, threshold: Option<u64>) -> (result: Option<u64>)
    ensures
        result == left_until(total_bytes, threshold),
{
    match threshold {
        Some(threshold) => Some(
            if threshold > total_bytes {
                threshold - total_bytes
            } else {
                0
            },
        ),
        None => None,
    }
}

/// More storage never lowers the pressure: what warned still warns or is critical, what was
/// critical stays so.
pub proof fn pressure_grows_with_storage(thresholds: StorageThresholds, fewer: u64, more: u64)
    requires
        fewer <= more,
    ensures
        thresholds.level(fewer) is Critical ==> thresholds.level(more) is Critical,
        thresholds.level(fewer) is Warning ==> thresholds.level(more) is Warning || thresholds.level(more) is Critical,
        thresholds.level(fewer) is Unconfigured <==> thresholds.level(more) is Unconfigured,
{
}

/// Where both thresholds are set, storage runs through every level in turn: healthy below the
/// warning, a warning below the critical threshold, critical from there on.
pub proof fn accepted_thresholds_leave_room_for_each_level(warning: u64, critical: u64, total_bytes: u64)
    requires
        StorageThresholds::problem(Some(warning), Some(critical)) is None,
    ensures
        ({
            let level = StorageThresholds {
                warning_bytes: Some(warning),
                critical_bytes: Some(critical),
            }.level(total_bytes);
            &&& level is Healthy <==> total_bytes < warning
            &&& level is Warning <==> warning <= total_bytes < critical
            &&& level is Critical <==> critical <= total_bytes
        }),
{
}

// ---------------------------------------------------------------------------------------------
// Samples.
// ---------------------------------------------------------------------------------------------

/// The sample that a scan yields.
pub open spec fn sample_of(
    exclude_repositories: Seq<Seq<char>>,
    snapshot: InventorySnapshotView,
    thresholds: StorageThresholds,
) -> MonitoringReportView {
    let total_bytes = total::<Artifact>(snapshot.artifacts) as u64;
    MonitoringReportView {
        account: snapshot.account,
        scope: snapshot.scope,
        exclude_repositories,
        scanned_at: snapshot.scanned_at,
        elapsed_ms: snapshot.elapsed_ms,
        repository_count: snapshot.repositories.len() as usize,
        artifact_count: snapshot.artifacts.len() as usize,
        total_bytes,
        pressure: thresholds.evaluated(total_bytes),
        issues: snapshot.issues,
        telemetry: snapshot.telemetry,
    }
}

/// Takes a sample of a scan.
pub fn sample_scan(
    exclude_repositories: Vec<String>,
    snapshot: InventorySnapshot,
    thresholds: StorageThresholds,
) -> (result: MonitoringReport)
    requires
        total::<Artifact>(snapshot.deep_view().artifacts) <= u64::MAX,
    ensures
        result.deep_view() == sample_of(exclude_repositories.deep_view(), snapshot.deep_view(), thresholds),
{
    let total_bytes: u64 = snapshot.total_bytes();
    let repository_count: usize = snapshot.repositories.len();
    let artifact_count: usize = snapshot.artifact_count();
    MonitoringReport {
        account: snapshot.account,
        scope: snapshot.scope,
        exclude_repositories,
        scanned_at: snapshot.scanned_at,
        elapsed_ms: snapshot.elapsed_ms,
        repository_count,
        artifact_count,
        total_bytes,
        pressure: thresholds.evaluate(total_bytes),
        issues: snapshot.issues,
        telemetry: snapshot.telemetry,
    }
}

/// Where samples are stored.
pub trait MonitoringSampleSink: Sized {
    type Error;

    type Receipt;

    fn persist(&self, report: &MonitoringReport) -> Result<Self::Receipt, Self::Error>;
}

/// A stored sample, and what the store says of it.
#[derive(Clone, Debug, PartialEq, Eq)]
pub struct MonitoringIteration<R> {
    pub report: MonitoringReport,
    pub receipt: R,
}

/// Why no sample was stored.
#[derive(Debug)]
pub enum MonitoringIterationError<E> {
    Provider(ProviderError),
    Persistence(E),
}

/// The error in words, with those of the store that failed.
pub fn iteration_error_message(error: &MonitoringIterationError<String>) -> (result: String)
    ensures
        result@ == match error {
            MonitoringIterationError::Provider(error) => "monitoring provider error: "@ + error.text(),
            MonitoringIterationError::Persistence(error) => "failed to persist monitoring sample: "@ + error@,
        },
{
    match error {
        MonitoringIterationError::Provider(error) => join2("monitoring provider error: ", error.message().as_str()),
        MonitoringIterationError::Persistence(error) => join2("failed to persist monitoring sample: ", error.as_str()),
    }
}

/// Takes samples and stores them.
pub struct MonitoringRunner<S> {
    sink: S,
}

impl<S: MonitoringSampleSink> MonitoringRunner<S> {
    pub closed spec fn store(self) -> S {
        self.sink
    }

    pub fn new(sink: S) -> (result: Self)
        ensures
            result.store() == sink,
    {
        MonitoringRunner { sink }
    }

    /// Takes a sample of a scan and stores it. A scan that failed stores nothing.
    pub fn run(
        &self,
        exclude_repositories: Vec<String>,
        scan: Result<InventorySnapshot, ProviderError>,
        thresholds: StorageThresholds,
    ) -> (result: Result<MonitoringIteration<S::Receipt>, MonitoringIterationError<S::Error>>)
        requires
            scan matches Ok(snapshot) ==> total::<Artifact>(snapshot.deep_view().artifacts) <= u64::MAX,
            forall|report: MonitoringReport| #[trigger] call_requires(S::persist, (&self.store(), &report)),
        ensures
            match scan {
                Err(error) => result == Err::<
                    MonitoringIteration<S::Receipt>,
                    MonitoringIterationError<S::Error>,
                >(MonitoringIterationError::Provider(error)),
                Ok(snapshot) => exists|report: MonitoringReport|
                    #![trigger report.deep_view()]
                    {
                        &&& report.deep_view() == sample_of(
                            exclude_repositories.deep_view(),
                            snapshot.deep_view(),
                            thresholds,
                        )
                        &&& match result {
                            Ok(iteration) => iteration.report == report && call_ensures(
                                S::persist,
                                (&self.store(), &report),
                                Ok(iteration.receipt),
                            ),
                            Err(MonitoringIterationError::Persistence(error)) => call_ensures(
                                S::persist,
                                (&self.store(), &report),
                                Err(error),
                            ),
                            Err(_) => false,
                        }
                    },
            },
    {
        let snapshot = match scan {
            Ok(snapshot) => snapshot,
            Err(error) => {
                return Err(MonitoringIterationError::Provider(error));
            },
        };
        let report = sample_scan(exclude_repositories, snapshot, thresholds);
        match self.sink.persist(&report) {
            Ok(receipt) => Ok(MonitoringIteration { report, receipt }),
            Err(error) => Err(MonitoringIterationError::Persistence(error)),
        }
    }
}

// ---------------------------------------------------------------------------------------------
// How one sample follows another.
// ---------------------------------------------------------------------------------------------

pub open spec fn same_account(left: AccountView, right: AccountView) -> bool {
    same_ignoring_case(left.provider, right.provider) && same_ignoring_case(left.login, right.login)
}

pub open spec fn scopes_equal(left: ScanScopeView, right: ScanScopeView) -> bool {
    match (left, right) {
        (ScanScopeView::AllAccessible, ScanScopeView::AllAccessible) => true,
        (ScanScopeView::Owner(left), ScanScopeView::Owner(right)) => same_ignoring_case(left, right),
        (ScanScopeView::Repository(left), ScanScopeView::Repository(right)) => same_ignoring_case(left, right),
        _ => false,
    }
}

pub open spec fn all_lowered(names: Seq<Seq<char>>) -> Seq<Seq<char>> {
    Seq::new(names.len(), |i: int| lowered(names[i]))
}

/// Names without case, order and repeats.
pub open spec fn normalized(names: Seq<Seq<char>>) -> Seq<Seq<char>> {
    distinct::<String, Alphabetical>(all_lowered(names), Alphabetical)
}

/// Whether a sample is of what the options ask for.
pub open spec fn matches_options(report: MonitoringReportView, scope: ScanScopeView, excluded: Seq<Seq<char>>) -> bool {
    scopes_equal(report.scope, scope) && normalized(report.exclude_repositories) == normalized(excluded)
}

/// Whether a name is one of `names`, whatever its case.
pub open spec fn names_it(names: Seq<Seq<char>>, name: Seq<char>) -> bool {
    exists|i: int| 0 <= i < names.len() && same_ignoring_case(#[trigger] names[i], name)
}

/// Exclusions are the same where they name the same repositories: neither case nor order nor
/// repeats count.
pub proof fn exclusions_are_compared_by_name(a: Seq<Seq<char>>, b: Seq<Seq<char>>)
    ensures
        normalized(a) == normalized(b) <==> forall|name: Seq<char>| #[trigger] names_it(a, name) <==> names_it(b, name),
{
    lemma_texts_identify();
    distinct_elements_tell_the_members::<String, Alphabetical>(all_lowered(a), all_lowered(b), Alphabetical);
    lemma_names(a);
    lemma_names(b);
    if forall|x: Seq<char>| #[trigger] all_lowered(a).contains(x) <==> all_lowered(b).contains(x) {
        assert forall|name: Seq<char>| #[trigger] names_it(a, name) <==> names_it(b, name) by {
            assert(all_lowered(a).contains(lowered(name)) <==> all_lowered(b).contains(lowered(name)));
        }
    }
    if forall|name: Seq<char>| #[trigger] names_it(a, name) <==> names_it(b, name) {
        assert forall|x: Seq<char>| #[trigger] all_lowered(a).contains(x) <==> all_lowered(b).contains(x) by {
            if all_lowered(a).contains(x) {
                let i = choose|i: int| 0 <= i < a.len() && all_lowered(a)[i] == x;
                assert(names_it(a, a[i]));
                assert(names_it(b, a[i]));
                assert(all_lowered(b).contains(lowered(a[i])));
            }
            if all_lowered(b).contains(x) {
                let i = choose|i: int| 0 <= i < b.len() && all_lowered(b)[i] == x;
                assert(names_it(b, b[i]));
                assert(names_it(a, b[i]));
                assert(all_lowered(a).contains(lowered(b[i])));
            }
        }
    }
}

/// Normalized names stand in alphabetical order, each once; they are the given ones in lower case
/// and no others, so they name what the given ones do; to normalize them again changes nothing.
pub proof fn normalizing_twice_is_normalizing_once(names: Seq<Seq<char>>)
    ensures
        forall|name: Seq<char>| #[trigger]
            normalized(names).contains(name) <==> exists|i: int|
                0 <= i < names.len() && lowered(#[trigger] names[i]) == name,
        strictly_in_order::<String, Alphabetical>(normalized(names), Alphabetical),
        forall|name: Seq<char>| #[trigger] names_it(normalized(names), name) <==> names_it(names, name),
        normalized(normalized(names)) == normalized(names),
{
    let once = normalized(names);
    lemma_texts_identify();
    assert forall|name: Seq<char>| #[trigger] once.contains(name) <==> exists|i: int|
        0 <= i < names.len() && lowered(#[trigger] names[i]) == name by {
        distinct_elements_stand_once_in_order::<String, Alphabetical>(all_lowered(names), Alphabetical);
        if all_lowered(names).contains(name) {
            let i = choose|i: int| 0 <= i < names.len() && all_lowered(names)[i] == name;
            assert(lowered(names[i]) == name);
        }
        if exists|i: int| 0 <= i < names.len() && lowered(#[trigger] names[i]) == name {
            let i = choose|i: int| 0 <= i < names.len() && lowered(#[trigger] names[i]) == name;
            assert(all_lowered(names)[i] == name);
        }
    }
    distinct_elements_stand_once_in_order::<String, Alphabetical>(all_lowered(names), Alphabetical);
    assert(all_lowered(once) =~= once) by {
        assert forall|i: int| 0 <= i < once.len() implies lowered(#[trigger] once[i]) == once[i] by {
            assert(once.contains(once[i]));
            let k = choose|k: int| 0 <= k < names.len() && all_lowered(names)[k] == once[i];
            assert(lowered(lowered(names[k])) =~= lowered(names[k]));
        }
    }
    distinct_elements_tell_the_members::<String, Alphabetical>(once, all_lowered(names), Alphabetical);
    lemma_names(names);
    lemma_names(once);
}

proof fn lemma_names(names: Seq<Seq<char>>)
    ensures
        forall|name: Seq<char>| #[trigger] names_it(names, name) <==> all_lowered(names).contains(lowered(name)),
{
    assert forall|name: Seq<char>| #[trigger] names_it(names, name) <==> all_lowered(names).contains(
        lowered(name),
    ) by {
        if names_it(names, name) {
            let i = choose|i: int| 0 <= i < names.len() && same_ignoring_case(#[trigger] names[i], name);
            assert(all_lowered(names)[i] == lowered(name));
        }
        if all_lowered(names).contains(lowered(name)) {
            let i = choose|i: int| 0 <= i < names.len() && all_lowered(names)[i] == lowered(name);
            assert(same_ignoring_case(names[i], name));
        }
    }
}

fn is_same_account(left: &Account, right: &Account) -> (result: bool)
    ensures
        result == same_account(left.deep_view(), right.deep_view()),
{
    eq_ignore_ascii_case(left.provider.as_str(), right.provider.as_str()) && eq_ignore_ascii_case(
        left.login.as_str(),
        right.login.as_str(),
    )
}

fn is_same_scope(left: &ScanScope, right: &ScanScope) -> (result: bool)
    ensures
        result == scopes_equal(left.deep_view(), right.deep_view()),
{
    match (left, right) {
        (ScanScope::AllAccessible, ScanScope::AllAccessible) => true,
        (ScanScope::Owner(left), ScanScope::Owner(right)) => eq_ignore_ascii_case(left.as_str(), right.as_str()),
        (ScanScope::Repository(left), ScanScope::Repository(right)) => eq_ignore_ascii_case(
            left.as_str(),
            right.as_str(),
        ),
        _ => false,
    }
}

/// The names without case, order and repeats.
pub fn normalized_exclusions(values: &Vec<String>) -> (result: Vec<String>)
    ensures
        result.deep_view() == normalized(values.deep_view()),
{
    let ghost all = all_lowered(values.deep_view());
    let mut result: Vec<String> = nothing();
    let mut i: usize = 0;
    while i < values.len()
        invariant
            i <= values.len(),
            all == all_lowered(values.deep_view()),
            result.deep_view() == all.take(i as int),
        decreases values.len() - i,
    {
        add_to(&mut result, to_ascii_lowercase(values[i].as_str()));
        i = i + 1;
        assert(result.deep_view() =~= all.take(i as int));
    }
    assert(all.take(i as int) =~= all);
    sort_distinct(result, &Alphabetical)
}

fn matches_scan(report: &MonitoringReport, scope: &ScanScope, excluded: &Vec<String>) -> (result: bool)
    ensures
        result == matches_options(report.deep_view(), scope.deep_view(), excluded.deep_view()),
{
    is_same_scope(&report.scope, scope) && normalized_exclusions(&report.exclude_repositories).same(
        &normalized_exclusions(excluded),
    )
}

/// Whether a sample is of what the options ask for.
pub fn monitoring_report_matches_scan_options(report: &MonitoringReport, options: &ScanOptions) -> (result: bool)
    ensures
        result == matches_options(
            report.deep_view(),
            options.deep_view().scope,
            options.deep_view().exclude_repositories,
        ),
{
    matches_scan(report, &options.scope, &options.exclude_repositories)
}

/// Whether a sample is of what the options ask for, of the same account.
pub fn monitoring_report_matches_context(report: &MonitoringReport, account: &Account, options: &ScanOptions) -> (result:
    bool)
    ensures
        result == (same_account(report.deep_view().account, account.deep_view()) && matches_options(
            report.deep_view(),
            options.deep_view().scope,
            options.deep_view().exclude_repositories,
        )),
{
    is_same_account(&report.account, account) && monitoring_report_matches_scan_options(report, options)
}

/// A change of pressure between two samples.
#[derive(Clone, Copy, Debug, PartialEq, Eq, Structural)]
pub struct PressureTransition {
    pub from: StoragePressureLevel,
    pub to: StoragePressureLevel,
    pub previous_total_bytes: u64,
    pub current_total_bytes: u64,
    pub thresholds_changed: bool,
}

/// How one sample follows another.
#[derive(Clone, Copy, Debug, PartialEq, Eq, Structural)]
pub enum PressureTransitionEvaluation {
    FirstSample,
    IncompatibleAccount,
    IncompatibleScope,
    IncompleteScan { previous_issue_count: usize, current_issue_count: usize },
    Stable { level: StoragePressureLevel },
    Changed { transition: PressureTransition },
}

/// How one sample follows another.
pub open spec fn transition_between(
    previous: Option<MonitoringReportView>,
    current: MonitoringReportView,
) -> PressureTransitionEvaluation {
    match previous {
        None => PressureTransitionEvaluation::FirstSample,
        Some(previous) => if !same_account(previous.account, current.account) {
            PressureTransitionEvaluation::IncompatibleAccount
        } else if !matches_options(previous, current.scope, current.exclude_repositories) {
            PressureTransitionEvaluation::IncompatibleScope
        } else if previous.issues.len() > 0 || current.issues.len() > 0 {
            PressureTransitionEvaluation::IncompleteScan {
                previous_issue_count: previous.issues.len() as usize,
                current_issue_count: current.issues.len() as usize,
            }
        } else if previous.pressure.level == current.pressure.level {
            PressureTransitionEvaluation::Stable { level: current.pressure.level }
        } else {
            PressureTransitionEvaluation::Changed {
                transition: PressureTransition {
                    from: previous.pressure.level,
                    to: current.pressure.level,
                    previous_total_bytes: previous.total_bytes,
                    current_total_bytes: current.total_bytes,
                    thresholds_changed: previous.pressure.warning_bytes != current.pressure.warning_bytes
                        || previous.pressure.critical_bytes != current.pressure.critical_bytes,
                },
            }
        },
    }
}

fn differs(a: Option<u64>, b: Option<u64>) -> (result: bool)
    ensures
        result == (a != b),
{
    match (a, b) {
        (Some(x), Some(y)) => x != y,
        (None, None) => false,
        _ => true,
    }
}

/// How one sample follows another.
pub fn evaluate_pressure_transition(previous: Option<&MonitoringReport>, current: &MonitoringReport) -> (result:
    PressureTransitionEvaluation)
    ensures
        result == transition_between(
            match previous {
                Some(previous) => Some(previous.deep_view()),
                None => None,
            },
            current.deep_view(),
        ),
{
    let previous = match previous {
        Some(previous) => previous,
        None => {
            return PressureTransitionEvaluation::FirstSample;
        },
    };
    if !is_same_account(&previous.account, &current.account) {
        return PressureTransitionEvaluation::IncompatibleAccount;
    }
    if !matches_scan(previous, &current.scope, &current.exclude_repositories) {
        return PressureTransitionEvaluation::IncompatibleScope;
    }
    assert(previous.issues.deep_view().len() == previous.issues.len());
    assert(current.issues.deep_view().len() == current.issues.len());
    if previous.issues.len() > 0 || current.issues.len() > 0 {
        return PressureTransitionEvaluation::IncompleteScan {
            previous_issue_count: previous.issues.len(),
            current_issue_count: current.issues.len(),
        };
    }
    if previous.pressure.level == current.pressure.level {
        return PressureTransitionEvaluation::Stable { level: current.pressure.level };
    }
    PressureTransitionEvaluation::Changed {
        transition: PressureTransition {
            from: previous.pressure.level,
            to: current.pressure.level,
            previous_total_bytes: previous.total_bytes,
            current_total_bytes: current.total_bytes,
            thresholds_changed: differs(previous.pressure.warning_bytes, current.pressure.warning_bytes) || differs(
                previous.pressure.critical_bytes,
                current.pressure.critical_bytes,
            ),
        },
    }
}

/// What is worth a notification.
#[derive(Clone, Copy, Debug, PartialEq, Eq, Structural)]
pub enum MonitoringNotificationSignal {
    NoNotification,
    EnteredWarning { thresholds_changed: bool },
    EnteredCritical { thresholds_changed: bool },
    RecoveredToWarning { thresholds_changed: bool },
    RecoveredToHealthy { thresholds_changed: bool },
    MonitoringIncomplete { previous_issue_count: usize, current_issue_count: usize },
    MonitoringFailure { consecutive_failures: u32 },
}

/// The notification that a transition is worth.
pub open spec fn notification_for(evaluation: PressureTransitionEvaluation) -> MonitoringNotificationSignal {
    match evaluation {
        PressureTransitionEvaluation::IncompleteScan { previous_issue_count, current_issue_count } =>
            MonitoringNotificationSignal::MonitoringIncomplete { previous_issue_count, current_issue_count },
        PressureTransitionEvaluation::Changed { transition } => {
            let thresholds_changed = transition.thresholds_changed;
            if transition.to is Critical {
                MonitoringNotificationSignal::EnteredCritical { thresholds_changed }
            } else if transition.to is Warning && transition.from is Critical {
                MonitoringNotificationSignal::RecoveredToWarning { thresholds_changed }
            } else if transition.to is Warning {
                MonitoringNotificationSignal::EnteredWarning { thresholds_changed }
            } else if transition.to is Healthy && (transition.from is Warning || transition.from is Critical) {
                MonitoringNotificationSignal::RecoveredToHealthy { thresholds_changed }
            } else {
                MonitoringNotificationSignal::NoNotification
            }
        },
        _ => MonitoringNotificationSignal::NoNotification,
    }
}

/// The notification that a transition is worth.
pub fn notification_signal_for_transition(evaluation: &PressureTransitionEvaluation) -> (result:
    MonitoringNotificationSignal)
    ensures
        result == notification_for(*evaluation),
{
    match evaluation {
        PressureTransitionEvaluation::IncompleteScan { previous_issue_count, current_issue_count } =>
            MonitoringNotificationSignal::MonitoringIncomplete {
                previous_issue_count: *previous_issue_count,
                current_issue_count: *current_issue_count,
            },
        PressureTransitionEvaluation::Changed { transition } => match (transition.from, transition.to) {
            (_, StoragePressureLevel::Critical) => MonitoringNotificationSignal::EnteredCritical {
                thresholds_changed: transition.thresholds_changed,
            },
            (StoragePressureLevel::Critical, StoragePressureLevel::Warning) =>
                MonitoringNotificationSignal::RecoveredToWarning {
                    thresholds_changed: transition.thresholds_changed,
                },
            (StoragePressureLevel::Warning, StoragePressureLevel::Healthy) | (
                StoragePressureLevel::Critical,
                StoragePressureLevel::Healthy,
            ) => MonitoringNotificationSignal::RecoveredToHealthy {
                thresholds_changed: transition.thresholds_changed,
            },
            (_, StoragePressureLevel::Warning) => MonitoringNotificationSignal::EnteredWarning {
                thresholds_changed: transition.thresholds_changed,
            },
            _ => MonitoringNotificationSignal::NoNotification,
        },
        _ => MonitoringNotificationSignal::NoNotification,
    }
}

/// A sample that follows itself changes nothing, and nobody is notified, if its scan was
/// complete.
pub proof fn nothing_changes_between_equal_samples(report: MonitoringReportView)
    requires
        report.issues.len() == 0,
    ensures
        transition_between(Some(report), report) == (PressureTransitionEvaluation::Stable {
            level: report.pressure.level,
        }),
        notification_for(transition_between(Some(report), report)) is NoNotification,
{
}

/// An incomplete scan is never taken for a change of pressure.
pub proof fn incomplete_scans_change_nothing(previous: MonitoringReportView, current: MonitoringReportView)
    requires
        previous.issues.len() > 0 || current.issues.len() > 0,
    ensures
        !(transition_between(Some(previous), current) is Changed),
        !(transition_between(Some(previous), current) is Stable),
{
}

// ---------------------------------------------------------------------------------------------
// The schedule.
// ---------------------------------------------------------------------------------------------

/// How a schedule went.
#[derive(Clone, Copy, Debug, PartialEq, Eq, Structural)]
pub struct MonitoringSchedulerSummary {
    pub attempts: u64,
    pub successes: u64,
    pub failures: u64,
    pub stop_reason: MonitoringSchedulerStopReason,
}

/// What happened at an attempt. `retry_after` is in nanoseconds.
pub enum MonitoringSchedulerEvent<R, E> {
    Iteration {
        iteration: MonitoringIteration<R>,
        transition: PressureTransitionEvaluation,
        notification: MonitoringNotificationSignal,
    },
    Failure {
        error: MonitoringIterationError<E>,
        consecutive_failures: u32,
        retry_after: u128,
        notification: MonitoringNotificationSignal,
    },
}

/// Samples at an interval. The interval, and the delay after a failure, are in nanoseconds.
#[derive(Clone, Debug, PartialEq, Eq)]
pub struct MonitoringScheduler {
    options: ScanOptions,
    thresholds: StorageThresholds,
    interval: u128,
    failure_delay: u128,
    baseline: Option<MonitoringReport>,
}

/// The contents of [`MonitoringScheduler`].
#[verifier::ext_equal]
pub struct MonitoringSchedulerView {
    pub options: ScanOptionsView,
    pub thresholds: StorageThresholds,
    pub interval: u128,
    pub failure_delay: u128,
    pub baseline: Option<MonitoringReportView>,
}

impl DeepView for MonitoringScheduler {
    type V = MonitoringSchedulerView;

    closed spec fn deep_view(&self) -> MonitoringSchedulerView {
        MonitoringSchedulerView {
            options: self.options.deep_view(),
            thresholds: self.thresholds,
            interval: self.interval,
            failure_delay: self.failure_delay,
            baseline: self.baseline.deep_view(),
        }
    }
}

/// A schedule under way.
#[derive(Clone, Debug, PartialEq, Eq)]
pub struct MonitoringRun {
    attempts: u64,
    successes: u64,
    failures: u64,
    consecutive_failures: u32,
    previous: Option<MonitoringReport>,
    max_attempts: Option<u64>,
    interval: u128,
    failure_delay: u128,
    delay: u128,
}

/// The contents of [`MonitoringRun`].
#[verifier::ext_equal]
pub struct MonitoringRunView {
    pub attempts: u64,
    pub successes: u64,
    pub failures: u64,
    pub consecutive_failures: u32,
    pub previous: Option<MonitoringReportView>,
    pub max_attempts: Option<u64>,
    pub interval: u128,
    pub failure_delay: u128,
    pub delay: u128,
}

impl DeepView for MonitoringRun {
    type V = MonitoringRunView;

    closed spec fn deep_view(&self) -> MonitoringRunView {
        MonitoringRunView {
            attempts: self.attempts,
            successes: self.successes,
            failures: self.failures,
            consecutive_failures: self.consecutive_failures,
            previous: self.previous.deep_view(),
            max_attempts: self.max_attempts,
            interval: self.interval,
            failure_delay: self.failure_delay,
            delay: self.delay,
        }
    }
}

/// What a schedule asks for next. A delay is in nanoseconds.
#[derive(Clone, Copy, Debug, PartialEq, Eq, Structural)]
pub enum MonitoringSchedulerStep {
    Attempt,
    Sleep { delay: u128 },
    Stop { summary: MonitoringSchedulerSummary },
}

/// `n + 1`, as far as a counter goes.
pub open spec fn counted(n: int, limit: int) -> int {
    if n < limit {
        n + 1
    } else {
        limit
    }
}

impl MonitoringSchedulerView {
    /// A schedule before its first attempt.
    pub open spec fn started(self, max_attempts: Option<u64>) -> MonitoringRunView {
        MonitoringRunView {
            attempts: 0,
            successes: 0,
            failures: 0,
            consecutive_failures: 0,
            previous: self.baseline,
            max_attempts,
            interval: self.interval,
            failure_delay: self.failure_delay,
            delay: self.interval,
        }
    }
}

impl MonitoringRunView {
    pub open spec fn summary(self, stop_reason: MonitoringSchedulerStopReason) -> MonitoringSchedulerSummary {
        MonitoringSchedulerSummary {
            attempts: self.attempts,
            successes: self.successes,
            failures: self.failures,
            stop_reason,
        }
    }

    /// Whether no attempt is left.
    pub open spec fn exhausted(self) -> bool {
        match self.max_attempts {
            Some(limit) => self.attempts >= limit,
            None => false,
        }
    }

    /// What is next before an attempt.
    pub open spec fn before_attempt(self, cancelled: bool) -> MonitoringSchedulerStep {
        if cancelled {
            MonitoringSchedulerStep::Stop { summary: self.summary(MonitoringSchedulerStopReason::Cancelled) }
        } else if self.exhausted() {
            MonitoringSchedulerStep::Stop { summary: self.summary(MonitoringSchedulerStopReason::AttemptLimitReached) }
        } else {
            MonitoringSchedulerStep::Attempt
        }
    }

    /// What is next after an attempt.
    pub open spec fn after_attempt(self) -> MonitoringSchedulerStep {
        if self.exhausted() {
            MonitoringSchedulerStep::Stop { summary: self.summary(MonitoringSchedulerStopReason::AttemptLimitReached) }
        } else {
            MonitoringSchedulerStep::Sleep { delay: self.delay }
        }
    }

    pub open spec fn after_success(self, report: MonitoringReportView) -> MonitoringRunView {
        MonitoringRunView {
            attempts: counted(self.attempts as int, u64::MAX as int) as u64,
            successes: counted(self.successes as int, u64::MAX as int) as u64,
            consecutive_failures: 0,
            previous: Some(report),
            delay: self.interval,
            ..self
        }
    }

    pub open spec fn after_failure(self) -> MonitoringRunView {
        MonitoringRunView {
            attempts: counted(self.attempts as int, u64::MAX as int) as u64,
            failures: counted(self.failures as int, u64::MAX as int) as u64,
            consecutive_failures: counted(self.consecutive_failures as int, u32::MAX as int) as u32,
            delay: self.failure_delay,
            ..self
        }
    }

    /// Every attempt that was counted either succeeded or failed, and no more were made than
    /// allowed.
    pub open spec fn sound(self) -> bool {
        &&& self.attempts < u64::MAX ==> self.successes + self.failures == self.attempts
        &&& self.consecutive_failures <= self.failures || self.failures == u64::MAX
        &&& match self.max_attempts {
            Some(limit) => self.attempts <= limit,
            None => true,
        }
    }
}

impl MonitoringScheduler {
    /// Samples at an interval, with another delay after a failure. Neither can be zero.
    pub fn new(options: ScanOptions, thresholds: StorageThresholds, interval: u128, failure_delay: u128) -> (result:
        Result<Self, MonitoringSchedulerConfigError>)
        ensures
            if interval == 0 {
                result == Err::<Self, MonitoringSchedulerConfigError>(MonitoringSchedulerConfigError::ZeroInterval)
            } else if failure_delay == 0 {
                result == Err::<Self, MonitoringSchedulerConfigError>(MonitoringSchedulerConfigError::ZeroFailureDelay)
            } else {
                result is Ok && result->Ok_0.deep_view() == (MonitoringSchedulerView {
                    options: options.deep_view(),
                    thresholds,
                    interval,
                    failure_delay,
                    baseline: None,
                })
            },
    {
        if interval == 0 {
            return Err(MonitoringSchedulerConfigError::ZeroInterval);
        }
        if failure_delay == 0 {
            return Err(MonitoringSchedulerConfigError::ZeroFailureDelay);
        }
        Ok(MonitoringScheduler { options, thresholds, interval, failure_delay, baseline: None })
    }

    /// Takes up where an earlier schedule of the same scope left off.
    pub fn with_baseline(self, baseline: MonitoringReport) -> (result: Result<Self, MonitoringSchedulerConfigError>)
        ensures
            if matches_options(
                baseline.deep_view(),
                self.deep_view().options.scope,
                self.deep_view().options.exclude_repositories,
            ) {
                result is Ok && result->Ok_0.deep_view() == (MonitoringSchedulerView {
                    baseline: Some(baseline.deep_view()),
                    ..self.deep_view()
                })
            } else {
                result == Err::<Self, MonitoringSchedulerConfigError>(
                    MonitoringSchedulerConfigError::IncompatibleBaselineScope,
                )
            },
    {
        if !monitoring_report_matches_scan_options(&baseline, &self.options) {
            return Err(MonitoringSchedulerConfigError::IncompatibleBaselineScope);
        }
        Ok(
            MonitoringScheduler {
                options: self.options,
                thresholds: self.thresholds,
                interval: self.interval,
                failure_delay: self.failure_delay,
                baseline: Some(baseline),
            },
        )
    }

    pub fn options(&self) -> (result: &ScanOptions)
        ensures
            result.deep_view() == self.deep_view().options,
    {
        &self.options
    }

    pub fn thresholds(&self) -> (result: StorageThresholds)
        ensures
            result == self.deep_view().thresholds,
    {
        self.thresholds
    }

    pub fn interval(&self) -> (result: u128)
        ensures
            result == self.deep_view().interval,
    {
        self.interval
    }

    /// Sets out on at most `max_attempts` attempts.
    pub fn run(&self, max_attempts: Option<u64>) -> (result: MonitoringRun)
        ensures
            result.deep_view() == self.deep_view().started(max_attempts),
            result.deep_view().sound(),
    {
        MonitoringRun {
            attempts: 0,
            successes: 0,
            failures: 0,
            consecutive_failures: 0,
            previous: self.baseline.copied(),
            max_attempts,
            interval: self.interval,
            failure_delay: self.failure_delay,
            delay: self.interval,
        }
    }
}

impl MonitoringRun {
    fn is_exhausted(&self) -> (result: bool)
        ensures
            result == self.deep_view().exhausted(),
    {
        match self.max_attempts {
            Some(limit) => self.attempts >= limit,
            None => false,
        }
    }

    fn summarize(&self, stop_reason: MonitoringSchedulerStopReason) -> (result: MonitoringSchedulerSummary)
        ensures
            result == self.deep_view().summary(stop_reason),
    {
        MonitoringSchedulerSummary {
            attempts: self.attempts,
            successes: self.successes,
            failures: self.failures,
            stop_reason,
        }
    }

    /// What is next before an attempt, by whether the schedule was cancelled.
    pub fn before_attempt(&self, cancelled: bool) -> (result: MonitoringSchedulerStep)
        ensures
            result == self.deep_view().before_attempt(cancelled),
    {
        if cancelled {
            return MonitoringSchedulerStep::Stop { summary: self.summarize(MonitoringSchedulerStopReason::Cancelled) };
        }
        if self.is_exhausted() {
            return MonitoringSchedulerStep::Stop {
                summary: self.summarize(MonitoringSchedulerStopReason::AttemptLimitReached),
            };
        }
        MonitoringSchedulerStep::Attempt
    }

    /// Ends a schedule that was cancelled during an attempt or a delay. The attempt does not
    /// count.
    pub fn cancelled(&self) -> (result: MonitoringSchedulerSummary)
        ensures
            result == self.deep_view().summary(MonitoringSchedulerStopReason::Cancelled),
    {
        self.summarize(MonitoringSchedulerStopReason::Cancelled)
    }

    /// Takes note of a sample that was stored.
    pub fn succeeded<R, E>(&mut self, iteration: MonitoringIteration<R>) -> (result: MonitoringSchedulerEvent<R, E>)
        requires
            !old(self).deep_view().exhausted(),
        ensures
            final(self).deep_view() == old(self).deep_view().after_success(iteration.report.deep_view()),
            ({
                let transition = transition_between(old(self).deep_view().previous, iteration.report.deep_view());
                result == (MonitoringSchedulerEvent::<R, E>::Iteration {
                    iteration,
                    transition,
                    notification: notification_for(transition),
                })
            }),
    {
        self.attempts = self.attempts.saturating_add(1);
        self.successes = self.successes.saturating_add(1);
        self.consecutive_failures = 0;
        let transition = evaluate_pressure_transition(
            match &self.previous {
                Some(report) => Some(report),
                None => None,
            },
            &iteration.report,
        );
        self.previous = Some(iteration.report.copied());
        self.delay = self.interval;
        let notification = notification_signal_for_transition(&transition);
        MonitoringSchedulerEvent::Iteration { iteration, transition, notification }
    }

    /// Takes note of an attempt that failed.
    pub fn failed<R, E>(&mut self, error: MonitoringIterationError<E>) -> (result: MonitoringSchedulerEvent<R, E>)
        requires
            !old(self).deep_view().exhausted(),
        ensures
            final(self).deep_view() == old(self).deep_view().after_failure(),
            result == (MonitoringSchedulerEvent::<R, E>::Failure {
                error,
                consecutive_failures: final(self).deep_view().consecutive_failures,
                retry_after: old(self).deep_view().failure_delay,
                notification: MonitoringNotificationSignal::MonitoringFailure {
                    consecutive_failures: final(self).deep_view().consecutive_failures,
                },
            }),
    {
        self.attempts = self.attempts.saturating_add(1);
        self.failures = self.failures.saturating_add(1);
        self.consecutive_failures = self.consecutive_failures.saturating_add(1);
        self.delay = self.failure_delay;
        let consecutive_failures: u32 = self.consecutive_failures;
        MonitoringSchedulerEvent::Failure {
            error,
            consecutive_failures,
            retry_after: self.failure_delay,
            notification: MonitoringNotificationSignal::MonitoringFailure { consecutive_failures },
        }
    }

    /// What is next after an attempt.
    pub fn after_attempt(&self) -> (result: MonitoringSchedulerStep)
        ensures
            result == self.deep_view().after_attempt(),
    {
        if self.is_exhausted() {
            return MonitoringSchedulerStep::Stop {
                summary: self.summarize(MonitoringSchedulerStopReason::AttemptLimitReached),
            };
        }
        MonitoringSchedulerStep::Sleep { delay: self.delay }
    }
}

/// A schedule stays sound at every attempt that it asks for: attempts are the successes and the
/// failures, and there are no more than allowed.
pub proof fn a_schedule_stays_sound(run: MonitoringRunView, report: MonitoringReportView)
    requires
        run.sound(),
        run.before_attempt(false) is Attempt,
    ensures
        run.after_success(report).sound(),
        run.after_failure().sound(),
{
}

/// A schedule with a limit ends: each attempt brings it nearer, and at the limit it asks for no
/// more.
pub proof fn a_bounded_schedule_ends(run: MonitoringRunView, report: MonitoringReportView, limit: u64)
    requires
        run.max_attempts == Some(limit),
        run.before_attempt(false) is Attempt,
    ensures
        limit - run.after_success(report).attempts < limit - run.attempts,
        limit - run.after_failure().attempts < limit - run.attempts,
        run.after_success(report).attempts == limit ==> run.after_success(report).after_attempt() is Stop,
        run.after_failure().attempts == limit ==> run.after_failure().after_attempt() is Stop,
{
}

/// A cancelled schedule asks for no attempt.
pub proof fn a_cancelled_schedule_stops(run: MonitoringRunView)
    ensures
        run.before_attempt(true) == (MonitoringSchedulerStep::Stop {
            summary: run.summary(MonitoringSchedulerStopReason::Cancelled),
        }),
{
}

/// The pressure is unconfigured exactly where neither threshold is set. It is critical exactly where
/// a critical threshold is set and reached, whether or not there is a warning threshold; and a
/// warning exactly where it is not critical and a warning threshold is set and reached.
pub proof fn each_threshold_counts_by_itself(thresholds: StorageThresholds, total_bytes: u64)
    ensures
        ({
            let report = thresholds.evaluated(total_bytes);
            &&& report.level == StoragePressureLevel::Unconfigured <==> thresholds.warning_bytes is None
                && thresholds.critical_bytes is None
            &&& report.level == StoragePressureLevel::Critical <==> thresholds.critical_bytes is Some && total_bytes
                >= thresholds.critical_bytes->0
            &&& report.level == StoragePressureLevel::Warning <==> !(thresholds.critical_bytes is Some && total_bytes
                >= thresholds.critical_bytes->0) && thresholds.warning_bytes is Some && total_bytes
                >= thresholds.warning_bytes->0
        }),
{
}

/// A pressure report says how much is taken up, repeats the thresholds, and says how much is left
/// until each of them that is set: nothing where it is reached.
pub proof fn a_pressure_report_says_what_is_left(thresholds: StorageThresholds, total_bytes: u64)
    ensures
        ({
            let report = thresholds.evaluated(total_bytes);
            &&& report.total_bytes == total_bytes
            &&& report.warning_bytes == thresholds.warning_bytes
            &&& report.critical_bytes == thresholds.critical_bytes
            &&& report.bytes_until_warning is Some <==> thresholds.warning_bytes is Some
            &&& report.bytes_until_critical is Some <==> thresholds.critical_bytes is Some
            &&& thresholds.warning_bytes is Some && total_bytes >= thresholds.warning_bytes->0
                ==> report.bytes_until_warning == Some(0u64)
            &&& thresholds.warning_bytes is Some && total_bytes < thresholds.warning_bytes->0
                ==> report.bytes_until_warning->0 + total_bytes == thresholds.warning_bytes->0
            &&& thresholds.critical_bytes is Some && total_bytes >= thresholds.critical_bytes->0
                ==> report.bytes_until_critical == Some(0u64)
            &&& thresholds.critical_bytes is Some && total_bytes < thresholds.critical_bytes->0
                ==> report.bytes_until_critical->0 + total_bytes == thresholds.critical_bytes->0
        }),
{
}

/// Thresholds are accepted where none that is set is zero and, where both are set, the warning lies
/// below the critical one.
pub proof fn sound_thresholds_are_accepted(warning_bytes: Option<u64>, critical_bytes: Option<u64>)
    ensures
        StorageThresholds::problem(warning_bytes, critical_bytes) is None <==> (warning_bytes is Some ==> warning_bytes->0
            > 0) && (critical_bytes is Some ==> critical_bytes->0 > 0) && (warning_bytes is Some
            && critical_bytes is Some ==> warning_bytes->0 < critical_bytes->0),
        StorageThresholds::problem(warning_bytes, critical_bytes) == Some(StorageThresholdErrorView::ZeroWarning)
            <==> warning_bytes == Some(0u64),
        StorageThresholds::problem(warning_bytes, critical_bytes) == Some(StorageThresholdErrorView::ZeroCritical)
            <==> warning_bytes != Some(0u64) && critical_bytes == Some(0u64),
{
}

/// A sample says what the scan found: how many repositories and artifacts, how much they take up,
/// what went wrong; and holds what they take up against the thresholds.
pub proof fn a_sample_says_what_the_scan_found(
    exclude_repositories: Seq<Seq<char>>,
    snapshot: InventorySnapshotView,
    thresholds: StorageThresholds,
)
    requires
        total::<Artifact>(snapshot.artifacts) <= u64::MAX,
        snapshot.repositories.len() <= usize::MAX,
        snapshot.artifacts.len() <= usize::MAX,
    ensures
        ({
            let sample = sample_of(exclude_repositories, snapshot, thresholds);
            &&& sample.account == snapshot.account
            &&& sample.scope == snapshot.scope
            &&& sample.exclude_repositories == exclude_repositories
            &&& sample.scanned_at == snapshot.scanned_at
            &&& sample.elapsed_ms == snapshot.elapsed_ms
            &&& sample.repository_count == snapshot.repositories.len()
            &&& sample.artifact_count == snapshot.artifacts.len()
            &&& sample.total_bytes == sum_by(snapshot.artifacts, |a: ArtifactView| a.size_in_bytes as nat)
            &&& sample.pressure.total_bytes == sample.total_bytes
            &&& sample.pressure.warning_bytes == thresholds.warning_bytes
            &&& sample.pressure.critical_bytes == thresholds.critical_bytes
            &&& sample.issues == snapshot.issues
            &&& sample.telemetry == snapshot.telemetry
        }),
{
    artifact_sizes_add_up(snapshot.artifacts);
}

/// Whether two scopes are the same, whatever the case of their names.
pub open spec fn one_scope(a: ScanScopeView, b: ScanScopeView) -> bool {
    ||| a is AllAccessible && b is AllAccessible
    ||| a is Owner && b is Owner && equal_but_for_case(a->Owner_0, b->Owner_0)
    ||| a is Repository && b is Repository && equal_but_for_case(a->Repository_0, b->Repository_0)
}

/// Whether two lists name the same repositories, whatever the case of the names.
pub open spec fn name_the_same(a: Seq<Seq<char>>, b: Seq<Seq<char>>) -> bool {
    &&& forall|i: int|
        0 <= i < a.len() ==> exists|j: int| 0 <= j < b.len() && equal_but_for_case(#[trigger] a[i], #[trigger] b[j])
    &&& forall|j: int|
        0 <= j < b.len() ==> exists|i: int| 0 <= i < a.len() && equal_but_for_case(#[trigger] a[i], #[trigger] b[j])
}

proof fn lemma_one_name(names: Seq<Seq<char>>, name: Seq<char>)
    ensures
        names_it(names, name) <==> exists|i: int| 0 <= i < names.len() && equal_but_for_case(#[trigger] names[i], name),
{
    assert forall|i: int| 0 <= i < names.len() implies same_ignoring_case(#[trigger] names[i], name)
        == equal_but_for_case(names[i], name) by {
        case_is_disregarded(names[i], name);
    }
}

proof fn lemma_name_the_same(a: Seq<Seq<char>>, b: Seq<Seq<char>>)
    ensures
        normalized(a) == normalized(b) <==> name_the_same(a, b),
{
    exclusions_are_compared_by_name(a, b);
    if normalized(a) == normalized(b) {
        assert forall|i: int| 0 <= i < a.len() implies exists|j: int|
            0 <= j < b.len() && equal_but_for_case(#[trigger] a[i], #[trigger] b[j]) by {
            assert(same_ignoring_case(a[i], a[i]));
            assert(names_it(a, a[i]));
            assert(names_it(b, a[i]));
            let j = choose|j: int| 0 <= j < b.len() && same_ignoring_case(#[trigger] b[j], a[i]);
            case_is_disregarded(a[i], b[j]);
        }
        assert forall|j: int| 0 <= j < b.len() implies exists|i: int|
            0 <= i < a.len() && equal_but_for_case(#[trigger] a[i], #[trigger] b[j]) by {
            assert(same_ignoring_case(b[j], b[j]));
            assert(names_it(b, b[j]));
            assert(names_it(a, b[j]));
            lemma_one_name(a, b[j]);
        }
    }
    if name_the_same(a, b) {
        assert forall|name: Seq<char>| #[trigger] names_it(a, name) <==> names_it(b, name) by {
            if names_it(a, name) {
                let i = choose|i: int| 0 <= i < a.len() && same_ignoring_case(#[trigger] a[i], name);
                let j = choose|j: int| 0 <= j < b.len() && equal_but_for_case(#[trigger] a[i], #[trigger] b[j]);
                case_is_disregarded(a[i], b[j]);
                assert(same_ignoring_case(b[j], name));
            }
            if names_it(b, name) {
                let j = choose|j: int| 0 <= j < b.len() && same_ignoring_case(#[trigger] b[j], name);
                let i = choose|i: int| 0 <= i < a.len() && equal_but_for_case(#[trigger] a[i], #[trigger] b[j]);
                case_is_disregarded(a[i], b[j]);
                assert(same_ignoring_case(a[i], name));
            }
        }
    }
}

/// A sample is of what is asked for where the scope is the same and the same repositories are left
/// out, whatever the case of the names, and of the same account where provider and login are the
/// same in that way.
pub proof fn samples_are_compared_within_one_scope(
    report: MonitoringReportView,
    scope: ScanScopeView,
    excluded: Seq<Seq<char>>,
    account: AccountView,
)
    ensures
        matches_options(report, scope, excluded) <==> one_scope(report.scope, scope) && name_the_same(
            report.exclude_repositories,
            excluded,
        ),
        same_account(report.account, account) <==> equal_but_for_case(report.account.provider, account.provider)
            && equal_but_for_case(report.account.login, account.login),
{
    lemma_name_the_same(report.exclude_repositories, excluded);
    case_is_disregarded(report.account.provider, account.provider);
    case_is_disregarded(report.account.login, account.login);
    match (report.scope, scope) {
        (ScanScopeView::Owner(a), ScanScopeView::Owner(b)) => {
            case_is_disregarded(a, b);
        },
        (ScanScopeView::Repository(a), ScanScopeView::Repository(b)) => {
            case_is_disregarded(a, b);
        },
        _ => {},
    }
}

/// Two samples are compared only where they are of one account and one scope and both scans were
/// complete. Then the pressure is stable where the levels are the same, and otherwise changed from
/// the one to the other.
pub proof fn transitions_compare_like_with_like(previous: Option<MonitoringReportView>, current: MonitoringReportView)
    ensures
        ({
            let comparison = transition_between(previous, current);
            &&& comparison is FirstSample <==> previous is None
            &&& previous is Some ==> {
                let before = previous->0;
                let account = equal_but_for_case(before.account.provider, current.account.provider)
                    && equal_but_for_case(before.account.login, current.account.login);
                let scope = one_scope(before.scope, current.scope) && name_the_same(
                    before.exclude_repositories,
                    current.exclude_repositories,
                );
                let complete = before.issues.len() == 0 && current.issues.len() == 0;
                &&& comparison is IncompatibleAccount <==> !account
                &&& comparison is IncompatibleScope <==> account && !scope
                &&& comparison is IncompleteScan <==> account && scope && !complete
                &&& comparison == (PressureTransitionEvaluation::Stable { level: current.pressure.level }) <==> account
                    && scope && complete && before.pressure.level == current.pressure.level
                &&& comparison is Changed <==> account && scope && complete && before.pressure.level
                    != current.pressure.level
                &&& comparison matches PressureTransitionEvaluation::Changed { transition } ==> {
                    &&& transition.from == before.pressure.level
                    &&& transition.to == current.pressure.level
                    &&& transition.previous_total_bytes == before.total_bytes
                    &&& transition.current_total_bytes == current.total_bytes
                    &&& transition.thresholds_changed <==> before.pressure.warning_bytes
                        != current.pressure.warning_bytes || before.pressure.critical_bytes
                        != current.pressure.critical_bytes
                }
                &&& comparison matches PressureTransitionEvaluation::IncompleteScan {
                    previous_issue_count,
                    current_issue_count,
                } ==> (before.issues.len() <= usize::MAX && current.issues.len() <= usize::MAX ==> previous_issue_count
                    == before.issues.len() && current_issue_count == current.issues.len())
            }
        }),
{
    if previous is Some {
        samples_are_compared_within_one_scope(
            previous->0,
            current.scope,
            current.exclude_repositories,
            current.account,
        );
    }
}

/// Somebody is told where the pressure rises to a warning or becomes critical, where it falls to a
/// warning, and where it becomes healthy after it was not; and where a scan was incomplete. Nobody
/// is told of anything else.
pub proof fn notifications_follow_the_pressure(transition: PressureTransition)
    requires
        transition.from != transition.to,
    ensures
        ({
            let signal = notification_for(PressureTransitionEvaluation::Changed { transition });
            let thresholds_changed = transition.thresholds_changed;
            &&& signal == (MonitoringNotificationSignal::EnteredCritical { thresholds_changed }) <==> transition.to
                == StoragePressureLevel::Critical
            &&& signal == (MonitoringNotificationSignal::RecoveredToWarning { thresholds_changed }) <==> transition.to
                == StoragePressureLevel::Warning && transition.from == StoragePressureLevel::Critical
            &&& signal == (MonitoringNotificationSignal::EnteredWarning { thresholds_changed }) <==> transition.to
                == StoragePressureLevel::Warning && transition.from != StoragePressureLevel::Critical
            &&& signal == (MonitoringNotificationSignal::RecoveredToHealthy { thresholds_changed }) <==> transition.to
                == StoragePressureLevel::Healthy && transition.from != StoragePressureLevel::Unconfigured
            &&& signal == MonitoringNotificationSignal::NoNotification <==> transition.to
                == StoragePressureLevel::Unconfigured || (transition.to == StoragePressureLevel::Healthy
                && transition.from == StoragePressureLevel::Unconfigured)
        }),
        forall|previous_issue_count: usize, current_issue_count: usize| #[trigger]
            notification_for(
                PressureTransitionEvaluation::IncompleteScan { previous_issue_count, current_issue_count },
            ) == (MonitoringNotificationSignal::MonitoringIncomplete { previous_issue_count, current_issue_count }),
        notification_for(PressureTransitionEvaluation::FirstSample) is NoNotification,
        notification_for(PressureTransitionEvaluation::IncompatibleAccount) is NoNotification,
        notification_for(PressureTransitionEvaluation::IncompatibleScope) is NoNotification,
        notification_for(PressureTransitionEvaluation::Stable { level: transition.to }) is NoNotification,
{
}

/// A schedule counts its attempts, its successes and its failures, remembers the last sample that
/// was stored, and waits for the interval after a success and for the other delay after a failure.
pub proof fn a_schedule_counts_and_waits(
    scheduler: MonitoringSchedulerView,
    run: MonitoringRunView,
    report: MonitoringReportView,
    max_attempts: Option<u64>,
)
    requires
        run.attempts < u64::MAX,
        run.successes < u64::MAX,
        run.failures < u64::MAX,
        run.consecutive_failures < u32::MAX,
    ensures
        ({
            let start = scheduler.started(max_attempts);
            &&& start.attempts == 0 && start.successes == 0 && start.failures == 0 && start.consecutive_failures == 0
            &&& start.previous == scheduler.baseline
            &&& start.max_attempts == max_attempts
            &&& start.interval == scheduler.interval && start.failure_delay == scheduler.failure_delay
        }),
        ({
            let next = run.after_success(report);
            &&& next.attempts == run.attempts + 1 && next.successes == run.successes + 1
            &&& next.failures == run.failures && next.consecutive_failures == 0
            &&& next.previous == Some(report)
            &&& next.after_attempt() == (MonitoringSchedulerStep::Sleep { delay: run.interval }) || next.after_attempt() is Stop
        }),
        ({
            let next = run.after_failure();
            &&& next.attempts == run.attempts + 1 && next.successes == run.successes
            &&& next.failures == run.failures + 1 && next.consecutive_failures == run.consecutive_failures + 1
            &&& next.previous == run.previous
            &&& next.after_attempt() == (MonitoringSchedulerStep::Sleep { delay: run.failure_delay })
                || next.after_attempt() is Stop
        }),
        ({
            let over = run.max_attempts is Some && run.attempts >= run.max_attempts->0;
            &&& run.before_attempt(false) == MonitoringSchedulerStep::Attempt <==> !over
            &&& run.after_attempt() is Stop <==> over
            &&& over ==> run.before_attempt(false) == run.after_attempt()
            &&& run.after_attempt() matches MonitoringSchedulerStep::Stop { summary } ==> summary.attempts == run.attempts
                && summary.successes == run.successes && summary.failures == run.failures && summary.stop_reason
                == MonitoringSchedulerStopReason::AttemptLimitReached
        }),
{
}

} // verus!
