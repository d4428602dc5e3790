//! How much of an allowance was used up.
use crate::account_usage::{
    AccountUsageAvailability, AccountUsageAvailabilityView, AccountUsageItem, AccountUsageItemView,
    AccountUsageObservation, AccountUsageObservationView, BillingOwner, BillingOwnerView, BillingPeriod,
};
use crate::quantity::Quantity;
use crate::text::{
    blank, case_is_disregarded, decimal, eq_ignore_ascii_case, equal_but_for_case, is_blank, join2, join3,
    join4, join5, join6, number, quoted, quoted_text, same_ignoring_case,
};
use crate::time::{utc_display, Timestamp};
use crate::value::Value;
use vstd::prelude::*;

verus! {

/// Which of the quantities of an item counts.
#[derive(Clone, Copy, Debug, PartialEq, Eq, Structural)]
pub enum UsageQuantityBasis {
    Gross,
    Discount,
    Net,
}

impl DeepView for UsageQuantityBasis {
    type V = UsageQuantityBasis;

    open spec fn deep_view(&self) -> UsageQuantityBasis {
        *self
    }
}

impl Value for UsageQuantityBasis {
    fn copied(&self) -> (result: Self) {
        *self
    }

    fn same(&self, other: &Self) -> (result: bool) {
        *self == *other
    }
}

/// Where an allowance comes from.
#[derive(Clone, Debug, PartialEq, Eq)]
pub enum UsageAllowanceProvenance {
    ProviderReported { source: String },
    UserConfigured { label: String },
}

/// The contents of [`UsageAllowanceProvenance`].
#[verifier::ext_equal]
pub enum UsageAllowanceProvenanceView {
    ProviderReported { source: Seq<char> },
    UserConfigured { label: Seq<char> },
}

impl DeepView for UsageAllowanceProvenance {
    type V = UsageAllowanceProvenanceView;

    open spec fn deep_view(&self) -> UsageAllowanceProvenanceView {
        match self {
            UsageAllowanceProvenance::ProviderReported { source } => UsageAllowanceProvenanceView::ProviderReported { source: source.deep_view() },
            UsageAllowanceProvenance::UserConfigured { label } => UsageAllowanceProvenanceView::UserConfigured { label: label.deep_view() },
        }
    }
}

impl Value for UsageAllowanceProvenance {
    fn copied(&self) -> (result: Self) {
        match self {
            UsageAllowanceProvenance::ProviderReported { source } => UsageAllowanceProvenance::ProviderReported { source: source.copied() },
            UsageAllowanceProvenance::UserConfigured { label } => UsageAllowanceProvenance::UserConfigured { label: label.copied() },
        }
    }

    fn same(&self, other: &Self) -> (result: bool) {
        match (self, other) {
            (UsageAllowanceProvenance::ProviderReported { source }, UsageAllowanceProvenance::ProviderReported { source: source_2 }) => source.same(source_2),
            (UsageAllowanceProvenance::UserConfigured { label }, UsageAllowanceProvenance::UserConfigured { label: label_2 }) => label.same(label_2),
            _ => false,
        }
    }
}

/// How much of something may be used.
#[derive(Clone, Debug, PartialEq)]
pub struct UsageAllowance {
    pub resource_id: String,
    pub product: String,
    pub sku: String,
    pub unit_type: String,
    pub quantity: Quantity,
    pub quantity_basis: UsageQuantityBasis,
    pub provenance: UsageAllowanceProvenance,
}

/// The contents of [`UsageAllowance`].
#[verifier::ext_equal]
pub struct UsageAllowanceView {
    pub resource_id: Seq<char>,
    pub product: Seq<char>,
    pub sku: Seq<char>,
    pub unit_type: Seq<char>,
    pub quantity: Quantity,
    pub quantity_basis: UsageQuantityBasis,
    pub provenance: UsageAllowanceProvenanceView,
}

impl DeepView for UsageAllowance {
    type V = UsageAllowanceView;

    open spec fn deep_view(&self) -> UsageAllowanceView {
        UsageAllowanceView {
            resource_id: self.resource_id.deep_view(),
            product: self.product.deep_view(),
            sku: self.sku.deep_view(),
            unit_type: self.unit_type.deep_view(),
            quantity: self.quantity,
            quantity_basis: self.quantity_basis,
            provenance: self.provenance.deep_view(),
        }
    }
}

impl Value for UsageAllowance {
    fn copied(&self) -> (result: Self) {
        UsageAllowance {
            resource_id: self.resource_id.copied(),
            product: self.product.copied(),
            sku: self.sku.copied(),
            unit_type: self.unit_type.copied(),
            quantity: self.quantity,
            quantity_basis: self.quantity_basis,
            provenance: self.provenance.copied(),
        }
    }

    fn same(&self, other: &Self) -> (result: bool) {
        self.resource_id.same(&other.resource_id)
            && self.product.same(&other.product)
            && self.sku.same(&other.sku)
            && self.unit_type.same(&other.unit_type)
            && self.quantity.same(&other.quantity)
            && self.quantity_basis == other.quantity_basis
            && self.provenance.same(&other.provenance)
    }
}

/// The shares of an allowance from which on a warning is due, and from which on matters are
/// critical, in percent.
#[derive(Clone, Copy, Debug, PartialEq)]
pub struct UsagePercentageThresholds {
    pub warning_percent: Quantity,
    pub critical_percent: Quantity,
}

/// How much of an allowance was used up.
#[derive(Clone, Copy, Debug, PartialEq, Eq, Structural)]
pub enum UsageQuotaLevel {
    Healthy,
    Warning,
    Critical,
}

impl DeepView for UsageQuotaLevel {
    type V = UsageQuotaLevel;

    open spec fn deep_view(&self) -> UsageQuotaLevel {
        *self
    }
}

impl Value for UsageQuotaLevel {
    fn copied(&self) -> (result: Self) {
        *self
    }

    fn same(&self, other: &Self) -> (result: bool) {
        *self == *other
    }
}

/// A threshold that was reached.
#[derive(Clone, Copy, Debug, PartialEq, Eq, Structural, Hash)]
pub enum UsageQuotaThreshold {
    Warning,
    Critical,
}

impl DeepView for UsageQuotaThreshold {
    type V = UsageQuotaThreshold;

    open spec fn deep_view(&self) -> UsageQuotaThreshold {
        *self
    }
}

impl Value for UsageQuotaThreshold {
    fn copied(&self) -> (result: Self) {
        *self
    }

    fn same(&self, other: &Self) -> (result: bool) {
        *self == *other
    }
}

/// What tells one alert from another.
#[derive(Clone, Debug, PartialEq, Eq, Hash)]
pub struct UsageQuotaAlertKey {
    pub owner: BillingOwner,
    pub resource_id: String,
    pub period: BillingPeriod,
    pub threshold: UsageQuotaThreshold,
}

/// The contents of [`UsageQuotaAlertKey`].
#[verifier::ext_equal]
pub struct UsageQuotaAlertKeyView {
    pub owner: BillingOwnerView,
    pub resource_id: Seq<char>,
    pub period: BillingPeriod,
    pub threshold: UsageQuotaThreshold,
}

impl DeepView for UsageQuotaAlertKey {
    type V = UsageQuotaAlertKeyView;

    open spec fn deep_view(&self) -> UsageQuotaAlertKeyView {
        UsageQuotaAlertKeyView {
            owner: self.owner.deep_view(),
            resource_id: self.resource_id.deep_view(),
            period: self.period,
            threshold: self.threshold,
        }
    }
}

impl Value for UsageQuotaAlertKey {
    fn copied(&self) -> (result: Self) {
        UsageQuotaAlertKey {
            owner: self.owner.copied(),
            resource_id: self.resource_id.copied(),
            period: self.period,
            threshold: self.threshold,
        }
    }

    fn same(&self, other: &Self) -> (result: bool) {
        self.owner.same(&other.owner)
            && self.resource_id.same(&other.resource_id)
            && self.period == other.period
            && self.threshold == other.threshold
    }
}

/// Why it is not known how much of an allowance was used up.
#[derive(Clone, Copy, Debug, PartialEq, Eq, Structural)]
pub enum UsageQuotaUnknownReason {
    UpstreamUnknown,
    UpstreamUnsupported,
    StaleObservation,
    NoMatchingUsageItem,
    AmbiguousUsageItems,
    InvalidUsageValue,
}

impl DeepView for UsageQuotaUnknownReason {
    type V = UsageQuotaUnknownReason;

    open spec fn deep_view(&self) -> UsageQuotaUnknownReason {
        *self
    }
}

impl Value for UsageQuotaUnknownReason {
    fn copied(&self) -> (result: Self) {
        *self
    }

    fn same(&self, other: &Self) -> (result: bool) {
        *self == *other
    }
}

/// How much of an allowance was used up, as far as that is known.
#[derive(Clone, Debug, PartialEq)]
pub enum UsageQuotaStatus {
    Unconfigured,
    Unknown { reason: UsageQuotaUnknownReason, message: String },
    Known { level: UsageQuotaLevel, usage_quantity: Quantity, allowance_quantity: Quantity, percent_used: Quantity, remaining_quantity: Quantity, quantity_basis: UsageQuantityBasis, provenance: UsageAllowanceProvenance },
}

/// The contents of [`UsageQuotaStatus`].
#[verifier::ext_equal]
pub enum UsageQuotaStatusView {
    Unconfigured,
    Unknown { reason: UsageQuotaUnknownReason, message: Seq<char> },
    Known { level: UsageQuotaLevel, usage_quantity: Quantity, allowance_quantity: Quantity, percent_used: Quantity, remaining_quantity: Quantity, quantity_basis: UsageQuantityBasis, provenance: UsageAllowanceProvenanceView },
}

impl DeepView for UsageQuotaStatus {
    type V = UsageQuotaStatusView;

    open spec fn deep_view(&self) -> UsageQuotaStatusView {
        match self {
            UsageQuotaStatus::Unconfigured => UsageQuotaStatusView::Unconfigured,
            UsageQuotaStatus::Unknown { reason, message } => UsageQuotaStatusView::Unknown { reason: *reason, message: message.deep_view() },
            UsageQuotaStatus::Known { level, usage_quantity, allowance_quantity, percent_used, remaining_quantity, quantity_basis, provenance } => UsageQuotaStatusView::Known { level: *level, usage_quantity: *usage_quantity, allowance_quantity: *allowance_quantity, percent_used: *percent_used, remaining_quantity: *remaining_quantity, quantity_basis: *quantity_basis, provenance: provenance.deep_view() },
        }
    }
}

impl Value for UsageQuotaStatus {
    fn copied(&self) -> (result: Self) {
        match self {
            UsageQuotaStatus::Unconfigured => UsageQuotaStatus::Unconfigured,
            UsageQuotaStatus::Unknown { reason, message } => UsageQuotaStatus::Unknown { reason: *reason, message: message.copied() },
            UsageQuotaStatus::Known { level, usage_quantity, allowance_quantity, percent_used, remaining_quantity, quantity_basis, provenance } => UsageQuotaStatus::Known { level: *level, usage_quantity: *usage_quantity, allowance_quantity: *allowance_quantity, percent_used: *percent_used, remaining_quantity: *remaining_quantity, quantity_basis: *quantity_basis, provenance: provenance.copied() },
        }
    }

    fn same(&self, other: &Self) -> (result: bool) {
        match (self, other) {
            (UsageQuotaStatus::Unconfigured, UsageQuotaStatus::Unconfigured) => true,
            (UsageQuotaStatus::Unknown { reason, message }, UsageQuotaStatus::Unknown { reason: reason_2, message: message_2 }) => *reason == *reason_2 && message.same(message_2),
            (UsageQuotaStatus::Known { level, usage_quantity, allowance_quantity, percent_used, remaining_quantity, quantity_basis, provenance }, UsageQuotaStatus::Known { level: level_2, usage_quantity: usage_quantity_2, allowance_quantity: allowance_quantity_2, percent_used: percent_used_2, remaining_quantity: remaining_quantity_2, quantity_basis: quantity_basis_2, provenance: provenance_2 }) => *level == *level_2 && usage_quantity.same(usage_quantity_2) && allowance_quantity.same(allowance_quantity_2) && percent_used.same(percent_used_2) && remaining_quantity.same(remaining_quantity_2) && *quantity_basis == *quantity_basis_2 && provenance.same(provenance_2),
            _ => false,
        }
    }
}

/// An allowance held against the usage of a month.
#[derive(Clone, Debug, PartialEq)]
pub struct UsageQuotaEvaluation {
    pub owner: BillingOwner,
    pub period: BillingPeriod,
    pub resource_id: Option<String>,
    pub observed_at: Timestamp,
    pub evaluated_at: Timestamp,
    pub status: UsageQuotaStatus,
    pub alert_key: Option<UsageQuotaAlertKey>,
}

/// The contents of [`UsageQuotaEvaluation`].
#[verifier::ext_equal]
pub struct UsageQuotaEvaluationView {
    pub owner: BillingOwnerView,
    pub period: BillingPeriod,
    pub resource_id: Option<Seq<char>>,
    pub observed_at: Timestamp,
    pub evaluated_at: Timestamp,
    pub status: UsageQuotaStatusView,
    pub alert_key: Option<UsageQuotaAlertKeyView>,
}

impl DeepView for UsageQuotaEvaluation {
    type V = UsageQuotaEvaluationView;

    open spec fn deep_view(&self) -> UsageQuotaEvaluationView {
        UsageQuotaEvaluationView {
            owner: self.owner.deep_view(),
            period: self.period,
            resource_id: self.resource_id.deep_view(),
            observed_at: self.observed_at,
            evaluated_at: self.evaluated_at,
            status: self.status.deep_view(),
            alert_key: self.alert_key.deep_view(),
        }
    }
}

impl Value for UsageQuotaEvaluation {
    fn copied(&self) -> (result: Self) {
        UsageQuotaEvaluation {
            owner: self.owner.copied(),
            period: self.period,
            resource_id: self.resource_id.copied(),
            observed_at: self.observed_at,
            evaluated_at: self.evaluated_at,
            status: self.status.copied(),
            alert_key: self.alert_key.copied(),
        }
    }

    fn same(&self, other: &Self) -> (result: bool) {
        self.owner.same(&other.owner)
            && self.period == other.period
            && self.resource_id.same(&other.resource_id)
            && self.observed_at == other.observed_at
            && self.evaluated_at == other.evaluated_at
            && self.status.same(&other.status)
            && self.alert_key.same(&other.alert_key)
    }
}

/// Why an allowance or thresholds make no sense.
#[derive(Clone, Copy, Debug, PartialEq)]
pub enum UsageAllowanceError {
    EmptyField(&'static str),
    InvalidQuantity(Quantity),
    InvalidWarningPercent(Quantity),
    InvalidCriticalPercent(Quantity),
    ThresholdOrder { warning_percent: Quantity, critical_percent: Quantity },
}

/// The contents of [`UsageAllowanceError`].
#[verifier::ext_equal]
pub enum UsageAllowanceErrorView {
    EmptyField(Seq<char>),
    InvalidQuantity(Quantity),
    InvalidWarningPercent(Quantity),
    InvalidCriticalPercent(Quantity),
    ThresholdOrder { warning_percent: Quantity, critical_percent: Quantity },
}

impl DeepView for UsageAllowanceError {
    type V = UsageAllowanceErrorView;

    open spec fn deep_view(&self) -> UsageAllowanceErrorView {
        match self {
            UsageAllowanceError::EmptyField(field) => UsageAllowanceErrorView::EmptyField(field@),
            UsageAllowanceError::InvalidQuantity(quantity) => UsageAllowanceErrorView::InvalidQuantity(*quantity),
            UsageAllowanceError::InvalidWarningPercent(percent) => UsageAllowanceErrorView::InvalidWarningPercent(
                *percent,
            ),
            UsageAllowanceError::InvalidCriticalPercent(percent) => UsageAllowanceErrorView::InvalidCriticalPercent(
                *percent,
            ),
            UsageAllowanceError::ThresholdOrder { warning_percent, critical_percent } =>
                UsageAllowanceErrorView::ThresholdOrder {
                    warning_percent: *warning_percent,
                    critical_percent: *critical_percent,
                },
        }
    }
}

impl UsageAllowanceErrorView {
    /// The numbers that the error speaks of.
    pub open spec fn quantities(self) -> (Option<Quantity>, Option<Quantity>) {
        match self {
            UsageAllowanceErrorView::EmptyField(_) => (None, None),
            UsageAllowanceErrorView::InvalidQuantity(quantity) => (Some(quantity), None),
            UsageAllowanceErrorView::InvalidWarningPercent(percent) => (Some(percent), None),
            UsageAllowanceErrorView::InvalidCriticalPercent(percent) => (Some(percent), None),
            UsageAllowanceErrorView::ThresholdOrder { warning_percent, critical_percent } => (
                Some(warning_percent),
                Some(critical_percent),
            ),
        }
    }

    /// The error in words, with its numbers written as `first` and `second`.
    pub open spec fn text(self, first: Seq<char>, second: Seq<char>) -> Seq<char> {
        match self {
            UsageAllowanceErrorView::EmptyField(field) => "usage allowance field "@ + field + " must not be empty"@,
            UsageAllowanceErrorView::InvalidQuantity(_) =>
                "usage allowance quantity must be finite and greater than zero, got "@ + first,
            UsageAllowanceErrorView::InvalidWarningPercent(_) =>
                "warning percentage must be finite and in (0, 100], got "@ + first,
            UsageAllowanceErrorView::InvalidCriticalPercent(_) =>
                "critical percentage must be finite and in (0, 100], got "@ + first,
            UsageAllowanceErrorView::ThresholdOrder { .. } => "warning percentage "@ + first
                + " must not exceed critical percentage "@ + second,
        }
    }
}

impl UsageAllowanceError {
    /// The numbers that the error speaks of.
    pub fn quantities(&self) -> (result: (Option<Quantity>, Option<Quantity>))
        ensures
            result == self.deep_view().quantities(),
    {
        match self {
            UsageAllowanceError::EmptyField(_) => (None, None),
            UsageAllowanceError::InvalidQuantity(quantity) => (Some(*quantity), None),
            UsageAllowanceError::InvalidWarningPercent(percent) => (Some(*percent), None),
            UsageAllowanceError::InvalidCriticalPercent(percent) => (Some(*percent), None),
            UsageAllowanceError::ThresholdOrder { warning_percent, critical_percent } => (
                Some(*warning_percent),
                Some(*critical_percent),
            ),
        }
    }

    /// The error in words, with its numbers written as `first` and `second`.
    pub fn message(&self, first: &str, second: &str) -> (result: String)
        ensures
            result@ == self.deep_view().text(first@, second@),
    {
        match self {
            UsageAllowanceError::EmptyField(field) => join3("usage allowance field ", field, " must not be empty"),
            UsageAllowanceError::InvalidQuantity(_) => join2(
                "usage allowance quantity must be finite and greater than zero, got ",
                first,
            ),
            UsageAllowanceError::InvalidWarningPercent(_) => join2(
                "warning percentage must be finite and in (0, 100], got ",
                first,
            ),
            UsageAllowanceError::InvalidCriticalPercent(_) => join2(
                "critical percentage must be finite and in (0, 100], got ",
                first,
            ),
            UsageAllowanceError::ThresholdOrder { .. } => join4(
                "warning percentage ",
                first,
                " must not exceed critical percentage ",
                second,
            ),
        }
    }
}

impl UsageQuantityBasis {
    /// The basis by its name.
    pub open spec fn text(self) -> Seq<char> {
        match self {
            UsageQuantityBasis::Gross => "Gross"@,
            UsageQuantityBasis::Discount => "Discount"@,
            UsageQuantityBasis::Net => "Net"@,
        }
    }

    /// The quantity that counts.
    pub open spec fn of(self, item: AccountUsageItemView) -> Quantity {
        match self {
            UsageQuantityBasis::Gross => item.gross_quantity,
            UsageQuantityBasis::Discount => item.discount_quantity,
            UsageQuantityBasis::Net => item.net_quantity,
        }
    }

    fn as_str(self) -> (result: &'static str)
        ensures
            result@ == self.text(),
    {
        match self {
            UsageQuantityBasis::Gross => "Gross",
            UsageQuantityBasis::Discount => "Discount",
            UsageQuantityBasis::Net => "Net",
        }
    }

    /// The quantity that counts.
    pub fn quantity(self, item: &AccountUsageItem) -> (result: Quantity)
        ensures
            result == self.of(item.deep_view()),
    {
        match self {
            UsageQuantityBasis::Gross => item.gross_quantity,
            UsageQuantityBasis::Discount => item.discount_quantity,
            UsageQuantityBasis::Net => item.net_quantity,
        }
    }
}

impl UsageAllowanceView {
    /// Why the allowance makes no sense.
    pub open spec fn problem(self) -> Option<UsageAllowanceErrorView> {
        if blank(self.resource_id) {
            Some(UsageAllowanceErrorView::EmptyField("resource_id"@))
        } else if blank(self.product) {
            Some(UsageAllowanceErrorView::EmptyField("product"@))
        } else if blank(self.sku) {
            Some(UsageAllowanceErrorView::EmptyField("sku"@))
        } else if blank(self.unit_type) {
            Some(UsageAllowanceErrorView::EmptyField("unit_type"@))
        } else if !self.quantity.positive() {
            Some(UsageAllowanceErrorView::InvalidQuantity(self.quantity))
        } else {
            match self.provenance {
                UsageAllowanceProvenanceView::ProviderReported { source } => if blank(source) {
                    Some(UsageAllowanceErrorView::EmptyField("provenance.source"@))
                } else {
                    None
                },
                UsageAllowanceProvenanceView::UserConfigured { label } => if blank(label) {
                    Some(UsageAllowanceErrorView::EmptyField("provenance.label"@))
                } else {
                    None
                },
            }
        }
    }

    /// Whether an item is of what the allowance is for.
    pub open spec fn covers(self, item: AccountUsageItemView) -> bool {
        &&& same_ignoring_case(item.product, self.product)
        &&& same_ignoring_case(item.sku, self.sku)
        &&& same_ignoring_case(item.unit_type, self.unit_type)
    }
}

impl UsageAllowance {
    /// Checks that every field says something, and that the quantity is finite and above zero.
    pub fn validate(&self) -> (result: Result<(), UsageAllowanceError>)
        ensures
            match self.deep_view().problem() {
                Some(problem) => result is Err && result->Err_0.deep_view() == problem,
                None => result is Ok,
            },
    {
        if is_blank(self.resource_id.as_str()) {
            return Err(UsageAllowanceError::EmptyField("resource_id"));
        }
        if is_blank(self.product.as_str()) {
            return Err(UsageAllowanceError::EmptyField("product"));
        }
        if is_blank(self.sku.as_str()) {
            return Err(UsageAllowanceError::EmptyField("sku"));
        }
        if is_blank(self.unit_type.as_str()) {
            return Err(UsageAllowanceError::EmptyField("unit_type"));
        }
        if !self.quantity.is_positive() {
            return Err(UsageAllowanceError::InvalidQuantity(self.quantity));
        }
        match &self.provenance {
            UsageAllowanceProvenance::ProviderReported { source } => {
                if is_blank(source.as_str()) {
                    return Err(UsageAllowanceError::EmptyField("provenance.source"));
                }
            },
            UsageAllowanceProvenance::UserConfigured { label } => {
                if is_blank(label.as_str()) {
                    return Err(UsageAllowanceError::EmptyField("provenance.label"));
                }
            },
        }
        Ok(())
    }

    fn is_for(&self, item: &AccountUsageItem) -> (result: bool)
        ensures
            result == self.deep_view().covers(item.deep_view()),
    {
        eq_ignore_ascii_case(item.product.as_str(), self.product.as_str()) && eq_ignore_ascii_case(
            item.sku.as_str(),
            self.sku.as_str(),
        ) && eq_ignore_ascii_case(item.unit_type.as_str(), self.unit_type.as_str())
    }
}

impl UsagePercentageThresholds {
    /// Why the thresholds make no sense.
    pub open spec fn problem(self) -> Option<UsageAllowanceErrorView> {
        if !self.warning_percent.percentage() {
            Some(UsageAllowanceErrorView::InvalidWarningPercent(self.warning_percent))
        } else if !self.critical_percent.percentage() {
            Some(UsageAllowanceErrorView::InvalidCriticalPercent(self.critical_percent))
        } else if !self.critical_percent.at_least(self.warning_percent) {
            Some(
                UsageAllowanceErrorView::ThresholdOrder {
                    warning_percent: self.warning_percent,
                    critical_percent: self.critical_percent,
                },
            )
        } else {
            None
        }
    }

    /// How much was used up, by the share in percent.
    pub open spec fn level(self, percent_used: Quantity) -> UsageQuotaLevel {
        if percent_used.at_least(self.critical_percent) {
            UsageQuotaLevel::Critical
        } else if percent_used.at_least(self.warning_percent) {
            UsageQuotaLevel::Warning
        } else {
            UsageQuotaLevel::Healthy
        }
    }

    /// Thresholds that pass their check.
    pub fn new(warning_percent: Quantity, critical_percent: Quantity) -> (result: Result<Self, UsageAllowanceError>)
        ensures
            ({
                let thresholds = UsagePercentageThresholds { warning_percent, critical_percent };
                match thresholds.problem() {
                    Some(problem) => result is Err && result->Err_0.deep_view() == problem,
                    None => result == Ok::<UsagePercentageThresholds, UsageAllowanceError>(thresholds),
                }
            }),
    {
        let thresholds = UsagePercentageThresholds { warning_percent, critical_percent };
        match thresholds.validate() {
            Ok(()) => Ok(thresholds),
            Err(error) => Err(error),
        }
    }

    /// Checks that both are percentages and that the first does not exceed the second.
    pub fn validate(self) -> (result: Result<(), UsageAllowanceError>)
        ensures
            match self.problem() {
                Some(problem) => result is Err && result->Err_0.deep_view() == problem,
                None => result is Ok,
            },
    {
        if !self.warning_percent.is_percentage() {
            return Err(UsageAllowanceError::InvalidWarningPercent(self.warning_percent));
        }
        if !self.critical_percent.is_percentage() {
            return Err(UsageAllowanceError::InvalidCriticalPercent(self.critical_percent));
        }
        if !self.critical_percent.is_at_least(self.warning_percent) {
            return Err(
                UsageAllowanceError::ThresholdOrder {
                    warning_percent: self.warning_percent,
                    critical_percent: self.critical_percent,
                },
            );
        }
        Ok(())
    }

    fn grade(self, percent_used: Quantity) -> (result: UsageQuotaLevel)
        ensures
            result == self.level(percent_used),
    {
        if percent_used.is_at_least(self.critical_percent) {
            UsageQuotaLevel::Critical
        } else if percent_used.is_at_least(self.warning_percent) {
            UsageQuotaLevel::Warning
        } else {
            UsageQuotaLevel::Healthy
        }
    }
}

/// What an item makes of an allowance: the share that it used up, in percent, and what is left.
#[derive(Clone, Copy, Debug, PartialEq)]
pub struct UsageShare {
    pub percent_used: Quantity,
    pub remaining_quantity: Quantity,
}

/// The places of the items that an allowance covers.
pub open spec fn covered(allowance: UsageAllowanceView, items: Seq<AccountUsageItemView>) -> Seq<int>
    decreases items.len(),
{
    if items.len() == 0 {
        Seq::empty()
    } else {
        let rest = covered(allowance, items.drop_last());
        if allowance.covers(items.last()) {
            rest.push(items.len() - 1)
        } else {
            rest
        }
    }
}

/// Whether an observation is older than it may be, in nanoseconds.
pub open spec fn stale(observed_at: Timestamp, evaluated_at: Timestamp, max_age: u128) -> bool {
    evaluated_at.elapsed(observed_at) > max_age
}

/// What an allowance is for, in words.
pub open spec fn subject(allowance: UsageAllowanceView) -> Seq<char> {
    " matched product="@ + quoted_text(allowance.product) + ", sku="@ + quoted_text(allowance.sku) + ", unit="@
        + quoted_text(allowance.unit_type)
}

/// Why it is not known how much of an allowance was used up.
pub open spec fn unknown_usage(
    observation: AccountUsageObservationView,
    allowance: UsageAllowanceView,
    evaluated_at: Timestamp,
    max_age: u128,
) -> Option<(UsageQuotaUnknownReason, Seq<char>)> {
    let places = covered(allowance, observation.items);
    match observation.availability {
        AccountUsageAvailabilityView::Unsupported { reason } => Some(
            (UsageQuotaUnknownReason::UpstreamUnsupported, reason),
        ),
        AccountUsageAvailabilityView::Unknown { reason, message } => Some(
            (UsageQuotaUnknownReason::UpstreamUnknown, reason.text() + ": "@ + message),
        ),
        AccountUsageAvailabilityView::Available => if stale(observation.observed_at, evaluated_at, max_age) {
            Some(
                (
                    UsageQuotaUnknownReason::StaleObservation,
                    "observation at "@ + utc_display(
                        observation.observed_at.unix_seconds() as i64,
                        observation.observed_at.subsecond() as u32,
                    ) + " is older than the configured maximum age of "@ + decimal(
                        max_age as nat / 1_000_000_000,
                    ) + " seconds"@,
                ),
            )
        } else if places.len() == 0 {
            Some((UsageQuotaUnknownReason::NoMatchingUsageItem, "no usage item"@ + subject(allowance)))
        } else if places.len() > 1 {
            Some(
                (
                    UsageQuotaUnknownReason::AmbiguousUsageItems,
                    decimal(places.len()) + " usage items"@ + subject(allowance) + "; refusing to aggregate"@,
                ),
            )
        } else if !allowance.quantity_basis.of(observation.items[places[0]]).not_negative() {
            Some(
                (
                    UsageQuotaUnknownReason::InvalidUsageValue,
                    "usage quantity for basis "@ + allowance.quantity_basis.text()
                        + " is not a finite non-negative number"@,
                ),
            )
        } else {
            None
        },
    }
}

/// The threshold that a level stands for.
pub open spec fn threshold_of(level: UsageQuotaLevel) -> Option<UsageQuotaThreshold> {
    match level {
        UsageQuotaLevel::Healthy => None,
        UsageQuotaLevel::Warning => Some(UsageQuotaThreshold::Warning),
        UsageQuotaLevel::Critical => Some(UsageQuotaThreshold::Critical),
    }
}

/// An allowance held against the usage of a month. `shares` tells of each item what it makes of
/// the allowance.
pub open spec fn quota_evaluation(
    observation: AccountUsageObservationView,
    allowance: Option<UsageAllowanceView>,
    thresholds: UsagePercentageThresholds,
    evaluated_at: Timestamp,
    max_age: u128,
    shares: Seq<UsageShare>,
) -> UsageQuotaEvaluationView {
    let blank_evaluation = UsageQuotaEvaluationView {
        owner: observation.owner,
        period: observation.period,
        resource_id: match allowance {
            Some(allowance) => Some(allowance.resource_id),
            None => None,
        },
        observed_at: observation.observed_at,
        evaluated_at,
        status: UsageQuotaStatusView::Unconfigured,
        alert_key: None,
    };
    match allowance {
        None => blank_evaluation,
        Some(allowance) => match unknown_usage(observation, allowance, evaluated_at, max_age) {
            Some((reason, message)) => UsageQuotaEvaluationView {
                status: UsageQuotaStatusView::Unknown { reason, message },
                ..blank_evaluation
            },
            None => {
                let place = covered(allowance, observation.items)[0];
                let level = thresholds.level(shares[place].percent_used);
                UsageQuotaEvaluationView {
                    status: UsageQuotaStatusView::Known {
                        level,
                        usage_quantity: allowance.quantity_basis.of(observation.items[place]),
                        allowance_quantity: allowance.quantity,
                        percent_used: shares[place].percent_used,
                        remaining_quantity: shares[place].remaining_quantity,
                        quantity_basis: allowance.quantity_basis,
                        provenance: allowance.provenance,
                    },
                    alert_key: match threshold_of(level) {
                        Some(threshold) => Some(
                            UsageQuotaAlertKeyView {
                                owner: observation.owner,
                                resource_id: allowance.resource_id,
                                period: observation.period,
                                threshold,
                            },
                        ),
                        None => None,
                    },
                    ..blank_evaluation
                }
            },
        },
    }
}

/// Why an allowance cannot be held against usage.
pub open spec fn quota_problem(
    allowance: Option<UsageAllowanceView>,
    thresholds: UsagePercentageThresholds,
) -> Option<UsageAllowanceErrorView> {
    match (thresholds.problem(), allowance) {
        (Some(problem), _) => Some(problem),
        (None, Some(allowance)) => allowance.problem(),
        (None, None) => None,
    }
}

/// How many items an allowance covers, and the place of the first.
fn find_covered(allowance: &UsageAllowance, items: &Vec<AccountUsageItem>) -> (result: (usize, usize))
    ensures
        result.0 == covered(allowance.deep_view(), items.deep_view()).len(),
        result.0 > 0 ==> result.1 == covered(allowance.deep_view(), items.deep_view())[0] && result.1 < items.len(),
{
    let ghost all = items.deep_view();
    let ghost of = allowance.deep_view();
    let mut count: usize = 0;
    let mut first: usize = 0;
    let mut i: usize = 0;
    assert(all.take(0) =~= Seq::empty());
    while i < items.len()
        invariant
            i <= items.len(),
            all == items.deep_view(),
            of == allowance.deep_view(),
            count <= i,
            count == covered(of, all.take(i as int)).len(),
            count > 0 ==> first == covered(of, all.take(i as int))[0] && first < items.len(),
        decreases items.len() - i,
    {
        assert(all.take(i + 1).drop_last() =~= all.take(i as int));
        assert(all.take(i + 1).last() == items@[i as int].deep_view());
        if allowance.is_for(&items[i]) {
            if count == 0 {
                first = i;
            }
            count = count + 1;
        }
        i = i + 1;
    }
    assert(all.take(i as int) =~= all);
    (count, first)
}

fn describe_subject(allowance: &UsageAllowance) -> (result: String)
    ensures
        result@ == subject(allowance.deep_view()),
{
    join6(
        " matched product=",
        quoted(allowance.product.as_str()).as_str(),
        ", sku=",
        quoted(allowance.sku.as_str()).as_str(),
        ", unit=",
        quoted(allowance.unit_type.as_str()).as_str(),
    )
}

/// Why it is not known how much of an allowance was used up.
fn find_unknown(
    observation: &AccountUsageObservation,
    allowance: &UsageAllowance,
    evaluated_at: Timestamp,
    max_age: u128,
) -> (result: Option<(UsageQuotaUnknownReason, String)>)
    requires
        max_age <= u64::MAX * 1_000_000_000 + 999_999_999,
    ensures
        result.deep_view() == unknown_usage(
            observation.deep_view(),
            allowance.deep_view(),
            evaluated_at,
            max_age,
        ),
{
    match &observation.availability {
        AccountUsageAvailability::Unsupported { reason } => {
            return Some((UsageQuotaUnknownReason::UpstreamUnsupported, reason.copied()));
        },
        AccountUsageAvailability::Unknown { reason, message } => {
            return Some(
                (UsageQuotaUnknownReason::UpstreamUnknown, join3(reason.as_str(), ": ", message.as_str())),
            );
        },
        AccountUsageAvailability::Available => {},
    }
    let age: i128 = evaluated_at.elapsed_since(&observation.observed_at);
    if age > 0 && age as u128 > max_age {
        let seconds: u64 = (max_age / 1_000_000_000) as u64;
        return Some(
            (
                UsageQuotaUnknownReason::StaleObservation,
                join5(
                    "observation at ",
                    observation.observed_at.display().as_str(),
                    " is older than the configured maximum age of ",
                    number(seconds).as_str(),
                    " seconds",
                ),
            ),
        );
    }
    let (count, first) = find_covered(allowance, &observation.items);
    if count == 0 {
        return Some(
            (
                UsageQuotaUnknownReason::NoMatchingUsageItem,
                join2("no usage item", describe_subject(allowance).as_str()),
            ),
        );
    }
    if count > 1 {
        return Some(
            (
                UsageQuotaUnknownReason::AmbiguousUsageItems,
                join4(
                    number(count as u64).as_str(),
                    " usage items",
                    describe_subject(allowance).as_str(),
                    "; refusing to aggregate",
                ),
            ),
        );
    }
    assert(observation.items.deep_view()[first as int] == observation.items@[first as int].deep_view());
    if !allowance.quantity_basis.quantity(&observation.items[first]).is_not_negative() {
        return Some(
            (
                UsageQuotaUnknownReason::InvalidUsageValue,
                join3(
                    "usage quantity for basis ",
                    allowance.quantity_basis.as_str(),
                    " is not a finite non-negative number",
                ),
            ),
        );
    }
    None
}

/// Holds an allowance against the usage of a month. `shares` tells of each item what it makes of
/// the allowance; the age is in nanoseconds.
pub fn evaluate_usage_quota(
    observation: &AccountUsageObservation,
    allowance: Option<&UsageAllowance>,
    thresholds: UsagePercentageThresholds,
    evaluated_at: Timestamp,
    max_age: u128,
    shares: &Vec<UsageShare>,
) -> (result: Result<UsageQuotaEvaluation, UsageAllowanceError>)
    requires
        max_age <= u64::MAX * 1_000_000_000 + 999_999_999,
        allowance is Some ==> shares.len() == observation.items.len(),
    ensures
        ({
            let allowance = match allowance {
                Some(allowance) => Some(allowance.deep_view()),
                None => None,
            };
            match quota_problem(allowance, thresholds) {
                Some(problem) => result is Err && result->Err_0.deep_view() == problem,
                None => result is Ok && result->Ok_0.deep_view() == quota_evaluation(
                    observation.deep_view(),
                    allowance,
                    thresholds,
                    evaluated_at,
                    max_age,
                    shares@,
                ),
            }
        }),
{
    match thresholds.validate() {
        Ok(()) => {},
        Err(error) => {
            return Err(error);
        },
    }
    let allowance = match allowance {
        Some(allowance) => allowance,
        None => {
            return Ok(
                UsageQuotaEvaluation {
                    owner: observation.owner.copied(),
                    period: observation.period,
                    resource_id: None,
                    observed_at: observation.observed_at,
                    evaluated_at,
                    status: UsageQuotaStatus::Unconfigured,
                    alert_key: None,
                },
            );
        },
    };
    match allowance.validate() {
        Ok(()) => {},
        Err(error) => {
            return Err(error);
        },
    }
    let (status, alert_key) = match find_unknown(observation, allowance, evaluated_at, max_age) {
        Some((reason, message)) => (UsageQuotaStatus::Unknown { reason, message }, None),
        None => {
            let (_, place) = find_covered(allowance, &observation.items);
            assert(observation.items.deep_view()[place as int] == observation.items@[place as int].deep_view());
            let share = shares[place];
            let level = thresholds.grade(share.percent_used);
            let threshold = match level {
                UsageQuotaLevel::Healthy => None,
                UsageQuotaLevel::Warning => Some(UsageQuotaThreshold::Warning),
                UsageQuotaLevel::Critical => Some(UsageQuotaThreshold::Critical),
            };
            let alert_key = match threshold {
                Some(threshold) => Some(
                    UsageQuotaAlertKey {
                        owner: observation.owner.copied(),
                        resource_id: allowance.resource_id.copied(),
                        period: observation.period,
                        threshold,
                    },
                ),
                None => None,
            };
            (
                UsageQuotaStatus::Known {
                    level,
                    usage_quantity: allowance.quantity_basis.quantity(&observation.items[place]),
                    allowance_quantity: allowance.quantity,
                    percent_used: share.percent_used,
                    remaining_quantity: share.remaining_quantity,
                    quantity_basis: allowance.quantity_basis,
                    provenance: allowance.provenance.copied(),
                },
                alert_key,
            )
        },
    };
    Ok(
        UsageQuotaEvaluation {
            owner: observation.owner.copied(),
            period: observation.period,
            resource_id: Some(allowance.resource_id.copied()),
            observed_at: observation.observed_at,
            evaluated_at,
            status,
            alert_key,
        },
    )
}

/// An alert goes with a known level of warning or worse, and with nothing else: neither with
/// usage that is not known nor with an allowance that was not set.
pub proof fn alerts_go_with_known_levels(
    observation: AccountUsageObservationView,
    allowance: Option<UsageAllowanceView>,
    thresholds: UsagePercentageThresholds,
    evaluated_at: Timestamp,
    max_age: u128,
    shares: Seq<UsageShare>,
)
    ensures
        ({
            let evaluation = quota_evaluation(observation, allowance, thresholds, evaluated_at, max_age, shares);
            evaluation.alert_key is Some <==> (evaluation.status matches UsageQuotaStatusView::Known { level, .. }
                && level != UsageQuotaLevel::Healthy)
        }),
{
}

/// Usage is known only of an available and fresh observation with one item that the allowance
/// covers: items are never added up.
pub proof fn known_usage_is_of_one_item(
    observation: AccountUsageObservationView,
    allowance: UsageAllowanceView,
    thresholds: UsagePercentageThresholds,
    evaluated_at: Timestamp,
    max_age: u128,
    shares: Seq<UsageShare>,
)
    requires
        quota_evaluation(
            observation,
            Some(allowance),
            thresholds,
            evaluated_at,
            max_age,
            shares,
        ).status is Known,
    ensures
        observation.availability is Available,
        !stale(observation.observed_at, evaluated_at, max_age),
        covered(allowance, observation.items).len() == 1,
{
}

/// Alerts of different months differ, and so do those of different thresholds.
pub proof fn alerts_are_told_apart_by_month_and_threshold(a: UsageQuotaAlertKeyView, b: UsageQuotaAlertKeyView)
    requires
        a.period != b.period || a.threshold != b.threshold,
    ensures
        a != b,
{
}

/// Whether an item is of the product, the SKU and the unit of an allowance, whatever the case of
/// their letters.
pub open spec fn is_of(allowance: UsageAllowanceView, item: AccountUsageItemView) -> bool {
    &&& equal_but_for_case(item.product, allowance.product)
    &&& equal_but_for_case(item.sku, allowance.sku)
    &&& equal_but_for_case(item.unit_type, allowance.unit_type)
}

/// Whether the item at a place is the one item of an allowance.
pub open spec fn is_the_only_one(
    allowance: UsageAllowanceView,
    items: Seq<AccountUsageItemView>,
    place: int,
) -> bool {
    &&& 0 <= place < items.len()
    &&& is_of(allowance, items[place])
    &&& forall|i: int| 0 <= i < items.len() && i != place ==> !is_of(allowance, #[trigger] items[i])
}

proof fn lemma_covers(allowance: UsageAllowanceView, item: AccountUsageItemView)
    ensures
        allowance.covers(item) <==> is_of(allowance, item),
{
    case_is_disregarded(item.product, allowance.product);
    case_is_disregarded(item.sku, allowance.sku);
    case_is_disregarded(item.unit_type, allowance.unit_type);
}

proof fn lemma_covered(allowance: UsageAllowanceView, items: Seq<AccountUsageItemView>)
    ensures
        ({
            let places = covered(allowance, items);
            &&& forall|k: int| 0 <= k < places.len() ==> 0 <= #[trigger] places[k] < items.len() && is_of(
                allowance,
                items[places[k]],
            )
            &&& forall|j: int, k: int| 0 <= j < k < places.len() ==> #[trigger] places[j] < #[trigger] places[k]
            &&& forall|i: int| 0 <= i < items.len() && is_of(allowance, #[trigger] items[i]) ==> places.contains(i)
        }),
    decreases items.len(),
{
    if items.len() > 0 {
        let rest = items.drop_last();
        let before = covered(allowance, rest);
        let places = covered(allowance, items);
        lemma_covered(allowance, rest);
        lemma_covers(allowance, items.last());
        assert forall|k: int| 0 <= k < places.len() implies 0 <= #[trigger] places[k] < items.len() && is_of(
            allowance,
            items[places[k]],
        ) by {
            if k < before.len() {
                assert(places[k] == before[k]);
                assert(rest[before[k]] == items[before[k]]);
            }
        }
        assert forall|j: int, k: int| 0 <= j < k < places.len() implies #[trigger] places[j] < #[trigger] places[k] by {
            assert(places[j] == before[j]);
            if k < before.len() {
                assert(places[k] == before[k]);
            }
        }
        assert forall|i: int| 0 <= i < items.len() && is_of(allowance, #[trigger] items[i]) implies places.contains(i) by {
            if i < rest.len() {
                assert(rest[i] == items[i]);
                let k = choose|k: int| 0 <= k < before.len() && before[k] == i;
                assert(places[k] == i);
            } else {
                assert(places[places.len() - 1] == i);
            }
        }
    }
}

proof fn lemma_only_one(allowance: UsageAllowanceView, items: Seq<AccountUsageItemView>)
    ensures
        covered(allowance, items).len() == 1 ==> is_the_only_one(allowance, items, covered(allowance, items)[0]),
        forall|place: int| #[trigger]
            is_the_only_one(allowance, items, place) ==> covered(allowance, items) == seq![place],
        covered(allowance, items).len() == 0 <==> forall|i: int|
            0 <= i < items.len() ==> !is_of(allowance, #[trigger] items[i]),
{
    let places = covered(allowance, items);
    lemma_covered(allowance, items);
    if places.len() == 1 {
        assert forall|i: int| 0 <= i < items.len() && i != places[0] implies !is_of(allowance, #[trigger] items[i]) by {
            if is_of(allowance, items[i]) {
                assert(places.contains(i));
            }
        }
    }
    assert forall|place: int| #[trigger] is_the_only_one(allowance, items, place) implies places == seq![place] by {
        assert(is_of(allowance, items[place]));
        assert(places.contains(place));
        assert forall|k: int| 0 <= k < places.len() implies places[k] == place by {
            assert(is_of(allowance, items[places[k]]));
        }
        if places.len() > 1 {
            assert(places[0] < places[1]);
        }
        assert(places =~= seq![place]);
    }
    if places.len() == 0 {
        assert forall|i: int| 0 <= i < items.len() implies !is_of(allowance, #[trigger] items[i]) by {
            if is_of(allowance, items[i]) {
                assert(places.contains(i));
            }
        }
    } else {
        assert(is_of(allowance, items[places[0]]));
    }
}

/// Where the usage of an allowance is known, it is that of the one item of its product, SKU and
/// unit, and the quantity is the item's gross quantity, its discount or its net quantity, as the
/// allowance says. The share and what is left are those of that item.
pub proof fn known_usage_is_the_quantity_asked_for(
    observation: AccountUsageObservationView,
    allowance: UsageAllowanceView,
    thresholds: UsagePercentageThresholds,
    evaluated_at: Timestamp,
    max_age: u128,
    shares: Seq<UsageShare>,
    place: int,
)
    requires
        quota_evaluation(
            observation,
            Some(allowance),
            thresholds,
            evaluated_at,
            max_age,
            shares,
        ).status is Known,
        0 <= place < observation.items.len(),
        equal_but_for_case(observation.items[place].product, allowance.product),
        equal_but_for_case(observation.items[place].sku, allowance.sku),
        equal_but_for_case(observation.items[place].unit_type, allowance.unit_type),
    ensures
        quota_evaluation(
            observation,
            Some(allowance),
            thresholds,
            evaluated_at,
            max_age,
            shares,
        ).status matches UsageQuotaStatusView::Known {
            level,
            usage_quantity,
            allowance_quantity,
            percent_used,
            remaining_quantity,
            quantity_basis,
            provenance,
        } && {
            let item = observation.items[place];
            &&& allowance.quantity_basis == UsageQuantityBasis::Net ==> usage_quantity == item.net_quantity
            &&& allowance.quantity_basis == UsageQuantityBasis::Gross ==> usage_quantity == item.gross_quantity
            &&& allowance.quantity_basis == UsageQuantityBasis::Discount ==> usage_quantity == item.discount_quantity
            &&& allowance_quantity == allowance.quantity
            &&& percent_used == shares[place].percent_used
            &&& remaining_quantity == shares[place].remaining_quantity
            &&& quantity_basis == allowance.quantity_basis
            &&& provenance == allowance.provenance
            &&& level == UsageQuotaLevel::Critical <==> percent_used.at_least(thresholds.critical_percent)
            &&& level == UsageQuotaLevel::Healthy <==> !percent_used.at_least(thresholds.critical_percent)
                && !percent_used.at_least(thresholds.warning_percent)
            &&& forall|i: int|
                0 <= i < observation.items.len() && i != place ==> !is_of(allowance, #[trigger] observation.items[i])
        },
{
    lemma_only_one(allowance, observation.items);
    let places = covered(allowance, observation.items);
    assert(is_the_only_one(allowance, observation.items, places[0]));
    assert(is_of(allowance, observation.items[place]));
}

/// The quantity of an item that counts for an allowance, by the fields.
pub open spec fn counted(allowance: UsageAllowanceView, item: AccountUsageItemView) -> Quantity {
    if allowance.quantity_basis == UsageQuantityBasis::Net {
        item.net_quantity
    } else if allowance.quantity_basis == UsageQuantityBasis::Gross {
        item.gross_quantity
    } else {
        item.discount_quantity
    }
}

/// Usage is known exactly where the observation is available and no older than it may be, and has
/// one item of the allowance, with a quantity that is finite and not below zero. Otherwise the
/// reason says which of these is missing.
pub proof fn usage_is_known_of_one_sound_item(
    observation: AccountUsageObservationView,
    allowance: UsageAllowanceView,
    thresholds: UsagePercentageThresholds,
    evaluated_at: Timestamp,
    max_age: u128,
    shares: Seq<UsageShare>,
)
    ensures
        ({
            let status = quota_evaluation(
                observation,
                Some(allowance),
                thresholds,
                evaluated_at,
                max_age,
                shares,
            ).status;
            let fresh = observation.availability is Available && evaluated_at.elapsed(observation.observed_at)
                <= max_age;
            &&& status is Known <==> fresh && exists|place: int| #[trigger]
                is_the_only_one(allowance, observation.items, place) && counted(
                    allowance,
                    observation.items[place],
                ).not_negative()
            &&& status !is Unconfigured
            &&& status matches UsageQuotaStatusView::Unknown { reason, .. } ==> {
                &&& reason == UsageQuotaUnknownReason::UpstreamUnsupported
                    <==> observation.availability is Unsupported
                &&& reason == UsageQuotaUnknownReason::UpstreamUnknown <==> observation.availability is Unknown
                &&& reason == UsageQuotaUnknownReason::StaleObservation <==> observation.availability is Available
                    && evaluated_at.elapsed(observation.observed_at) > max_age
                &&& reason == UsageQuotaUnknownReason::NoMatchingUsageItem <==> fresh && forall|i: int|
                    0 <= i < observation.items.len() ==> !is_of(allowance, #[trigger] observation.items[i])
                &&& reason == UsageQuotaUnknownReason::InvalidUsageValue <==> fresh && exists|place: int| #[trigger]
                    is_the_only_one(allowance, observation.items, place) && !counted(
                        allowance,
                        observation.items[place],
                    ).not_negative()
            }
        }),
{
    lemma_only_one(allowance, observation.items);
    let places = covered(allowance, observation.items);
    if places.len() == 1 {
        assert(is_the_only_one(allowance, observation.items, places[0]));
    }
    assert forall|place: int| #[trigger] is_the_only_one(allowance, observation.items, place) implies places.len() == 1
        && places[0] == place by {
        assert(places == seq![place]);
    }
}

/// Without an allowance nothing is evaluated; the evaluation still says of whom and of when it is.
/// An alert names the owner, the resource, the month and the threshold that was reached.
pub proof fn evaluations_say_what_they_are_of(
    observation: AccountUsageObservationView,
    allowance: Option<UsageAllowanceView>,
    thresholds: UsagePercentageThresholds,
    evaluated_at: Timestamp,
    max_age: u128,
    shares: Seq<UsageShare>,
)
    ensures
        ({
            let evaluation = quota_evaluation(observation, allowance, thresholds, evaluated_at, max_age, shares);
            &&& evaluation.status is Unconfigured <==> allowance is None
            &&& evaluation.owner == observation.owner
            &&& evaluation.period == observation.period
            &&& evaluation.observed_at == observation.observed_at
            &&& evaluation.evaluated_at == evaluated_at
            &&& allowance is None ==> evaluation.resource_id is None
            &&& allowance is Some ==> evaluation.resource_id == Some(allowance->0.resource_id)
            &&& evaluation.alert_key matches Some(key) ==> {
                &&& key.owner == observation.owner
                &&& key.period == observation.period
                &&& allowance is Some && key.resource_id == allowance->0.resource_id
                &&& evaluation.status matches UsageQuotaStatusView::Known { percent_used, .. } && (key.threshold
                    == UsageQuotaThreshold::Critical <==> percent_used.at_least(thresholds.critical_percent)) && (
                key.threshold == UsageQuotaThreshold::Warning ==> percent_used.at_least(thresholds.warning_percent))
            }
        }),
{
}

/// Thresholds are accepted where both are percentages and the warning does not come after the
/// critical one. An allowance is accepted where all its texts say something and its quantity is
/// finite and above zero.
pub proof fn sound_allowances_are_accepted(allowance: UsageAllowanceView, thresholds: UsagePercentageThresholds)
    ensures
        thresholds.problem() is None <==> thresholds.warning_percent.percentage()
            && thresholds.critical_percent.percentage() && thresholds.critical_percent.at_least(
            thresholds.warning_percent,
        ),
        allowance.problem() is None <==> !blank(allowance.resource_id) && !blank(allowance.product) && !blank(
            allowance.sku,
        ) && !blank(allowance.unit_type) && allowance.quantity.positive() && (
        allowance.provenance is ProviderReported ==> !blank(allowance.provenance->source)) && (
        allowance.provenance is UserConfigured ==> !blank(allowance.provenance->label)),
        quota_problem(Some(allowance), thresholds) is None <==> thresholds.problem() is None && allowance.problem() is None,
        quota_problem(None, thresholds) is None <==> thresholds.problem() is None,
{
}

} // verus!
