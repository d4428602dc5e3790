//! What an account used of what it is billed for.
use crate::quantity::Quantity;
use crate::text::{decimal, number};
use crate::time::{lies_in_month, Timestamp};
use crate::value::{nothing, Value};
use vstd::prelude::*;

verus! {

/// Who is billed.
#[derive(Clone, Copy, Debug, PartialEq, Eq, Structural, Hash)]
pub enum BillingOwnerKind {
    User,
    Organization,
}

impl DeepView for BillingOwnerKind {
    type V = BillingOwnerKind;

    open spec fn deep_view(&self) -> BillingOwnerKind {
        *self
    }
}

impl Value for BillingOwnerKind {
    fn copied(&self) -> (result: Self) {
        *self
    }

    fn same(&self, other: &Self) -> (result: bool) {
        *self == *other
    }
}

/// An account that is billed.
#[derive(Clone, Debug, PartialEq, Eq, Hash)]
pub struct BillingOwner {
    pub provider: String,
    pub kind: BillingOwnerKind,
    pub login: String,
}

/// The contents of [`BillingOwner`].
#[verifier::ext_equal]
pub struct BillingOwnerView {
    pub provider: Seq<char>,
    pub kind: BillingOwnerKind,
    pub login: Seq<char>,
}

impl DeepView for BillingOwner {
    type V = BillingOwnerView;

    open spec fn deep_view(&self) -> BillingOwnerView {
        BillingOwnerView {
            provider: self.provider.deep_view(),
            kind: self.kind,
            login: self.login.deep_view(),
        }
    }
}

impl Value for BillingOwner {
    fn copied(&self) -> (result: Self) {
        BillingOwner {
            provider: self.provider.copied(),
            kind: self.kind,
            login: self.login.copied(),
        }
    }

    fn same(&self, other: &Self) -> (result: bool) {
        self.provider.same(&other.provider)
            && self.kind == other.kind
            && self.login.same(&other.login)
    }
}

/// A month that is billed.
#[derive(Clone, Copy, Debug, PartialEq, Eq, Hash, Structural)]
pub struct BillingPeriod {
    pub year: i32,
    pub month: u8,
}

/// Why there is no such month.
#[derive(Clone, Copy, Debug, PartialEq, Eq)]
pub enum BillingPeriodError {
    InvalidMonth(u8),
}

/// The contents of [`BillingPeriodError`].
#[verifier::ext_equal]
pub enum BillingPeriodErrorView {
    InvalidMonth(u8),
}

impl DeepView for BillingPeriodError {
    type V = BillingPeriodErrorView;

    open spec fn deep_view(&self) -> BillingPeriodErrorView {
        match self {
            BillingPeriodError::InvalidMonth(field0) => BillingPeriodErrorView::InvalidMonth(*field0),
        }
    }
}

impl BillingPeriodErrorView {
    /// The error in words.
    pub open spec fn text(self) -> Seq<char> {
        match self {
            BillingPeriodErrorView::InvalidMonth(field0) => "billing month must be between 1 and 12, got "@ + decimal(field0 as nat),
        }
    }
}

impl BillingPeriodError {
    /// The error in words.
    pub fn message(&self) -> (result: String)
        ensures
            result@ == self.deep_view().text(),
    {
        match self {
            BillingPeriodError::InvalidMonth(field0) => {
                let mut text = "billing month must be between 1 and 12, got ".to_owned();
                text.append(number(*field0 as u64).as_str());
                text
            },
        }
    }
}

/// Where an account of usage comes from.
#[derive(Clone, Debug, PartialEq, Eq)]
pub struct AccountUsageSource {
    pub provider: String,
    pub endpoint: String,
    pub api_version: Option<String>,
    pub public_preview: bool,
}

/// The contents of [`AccountUsageSource`].
#[verifier::ext_equal]
pub struct AccountUsageSourceView {
    pub provider: Seq<char>,
    pub endpoint: Seq<char>,
    pub api_version: Option<Seq<char>>,
    pub public_preview: bool,
}

impl DeepView for AccountUsageSource {
    type V = AccountUsageSourceView;

    open spec fn deep_view(&self) -> AccountUsageSourceView {
        AccountUsageSourceView {
            provider: self.provider.deep_view(),
            endpoint: self.endpoint.deep_view(),
            api_version: self.api_version.deep_view(),
            public_preview: self.public_preview,
        }
    }
}

impl Value for AccountUsageSource {
    fn copied(&self) -> (result: Self) {
        AccountUsageSource {
            provider: self.provider.copied(),
            endpoint: self.endpoint.copied(),
            api_version: self.api_version.copied(),
            public_preview: self.public_preview,
        }
    }

    fn same(&self, other: &Self) -> (result: bool) {
        self.provider.same(&other.provider)
            && self.endpoint.same(&other.endpoint)
            && self.api_version.same(&other.api_version)
            && self.public_preview == other.public_preview
    }
}

/// What was used of one thing.
#[derive(Clone, Debug, PartialEq)]
pub struct AccountUsageItem {
    pub product: String,
    pub sku: String,
    pub unit_type: String,
    pub price_per_unit: Option<Quantity>,
    pub gross_quantity: Quantity,
    pub gross_amount: Option<Quantity>,
    pub discount_quantity: Quantity,
    pub discount_amount: Option<Quantity>,
    pub net_quantity: Quantity,
    pub net_amount: Option<Quantity>,
}

/// The contents of [`AccountUsageItem`].
#[verifier::ext_equal]
pub struct AccountUsageItemView {
    pub product: Seq<char>,
    pub sku: Seq<char>,
    pub unit_type: Seq<char>,
    pub price_per_unit: Option<Quantity>,
    pub gross_quantity: Quantity,
    pub gross_amount: Option<Quantity>,
    pub discount_quantity: Quantity,
    pub discount_amount: Option<Quantity>,
    pub net_quantity: Quantity,
    pub net_amount: Option<Quantity>,
}

impl DeepView for AccountUsageItem {
    type V = AccountUsageItemView;

    open spec fn deep_view(&self) -> AccountUsageItemView {
        AccountUsageItemView {
            product: self.product.deep_view(),
            sku: self.sku.deep_view(),
            unit_type: self.unit_type.deep_view(),
            price_per_unit: self.price_per_unit,
            gross_quantity: self.gross_quantity,
            gross_amount: self.gross_amount,
            discount_quantity: self.discount_quantity,
            discount_amount: self.discount_amount,
            net_quantity: self.net_quantity,
            net_amount: self.net_amount,
        }
    }
}

impl Value for AccountUsageItem {
    fn copied(&self) -> (result: Self) {
        AccountUsageItem {
            product: self.product.copied(),
            sku: self.sku.copied(),
            unit_type: self.unit_type.copied(),
            price_per_unit: self.price_per_unit,
            gross_quantity: self.gross_quantity,
            gross_amount: self.gross_amount,
            discount_quantity: self.discount_quantity,
            discount_amount: self.discount_amount,
            net_quantity: self.net_quantity,
            net_amount: self.net_amount,
        }
    }

    fn same(&self, other: &Self) -> (result: bool) {
        self.product.same(&other.product)
            && self.sku.same(&other.sku)
            && self.unit_type.same(&other.unit_type)
            && self.price_per_unit.same(&other.price_per_unit)
            && self.gross_quantity.same(&other.gross_quantity)
            && self.gross_amount.same(&other.gross_amount)
            && self.discount_quantity.same(&other.discount_quantity)
            && self.discount_amount.same(&other.discount_amount)
            && self.net_quantity.same(&other.net_quantity)
            && self.net_amount.same(&other.net_amount)
    }
}

/// Why usage is not known.
#[derive(Clone, Copy, Debug, PartialEq, Eq, Structural)]
pub enum AccountUsageUnknownReason {
    Authentication,
    PermissionDenied,
    NotFound,
    RateLimited,
    Transport,
    InvalidResponse,
    ProviderError,
}

impl DeepView for AccountUsageUnknownReason {
    type V = AccountUsageUnknownReason;

    open spec fn deep_view(&self) -> AccountUsageUnknownReason {
        *self
    }
}

impl Value for AccountUsageUnknownReason {
    fn copied(&self) -> (result: Self) {
        *self
    }

    fn same(&self, other: &Self) -> (result: bool) {
        *self == *other
    }
}

/// Whether usage is known.
#[derive(Clone, Debug, PartialEq, Eq)]
pub enum AccountUsageAvailability {
    Available,
    Unsupported { reason: String },
    Unknown { reason: AccountUsageUnknownReason, message: String },
}

/// The contents of [`AccountUsageAvailability`].
#[verifier::ext_equal]
pub enum AccountUsageAvailabilityView {
    Available,
    Unsupported { reason: Seq<char> },
    Unknown { reason: AccountUsageUnknownReason, message: Seq<char> },
}

impl DeepView for AccountUsageAvailability {
    type V = AccountUsageAvailabilityView;

    open spec fn deep_view(&self) -> AccountUsageAvailabilityView {
        match self {
            AccountUsageAvailability::Available => AccountUsageAvailabilityView::Available,
            AccountUsageAvailability::Unsupported { reason } => AccountUsageAvailabilityView::Unsupported { reason: reason.deep_view() },
            AccountUsageAvailability::Unknown { reason, message } => AccountUsageAvailabilityView::Unknown { reason: *reason, message: message.deep_view() },
        }
    }
}

impl Value for AccountUsageAvailability {
    fn copied(&self) -> (result: Self) {
        match self {
            AccountUsageAvailability::Available => AccountUsageAvailability::Available,
            AccountUsageAvailability::Unsupported { reason } => AccountUsageAvailability::Unsupported { reason: reason.copied() },
            AccountUsageAvailability::Unknown { reason, message } => AccountUsageAvailability::Unknown { reason: *reason, message: message.copied() },
        }
    }

    fn same(&self, other: &Self) -> (result: bool) {
        match (self, other) {
            (AccountUsageAvailability::Available, AccountUsageAvailability::Available) => true,
            (AccountUsageAvailability::Unsupported { reason }, AccountUsageAvailability::Unsupported { reason: reason_2 }) => reason.same(reason_2),
            (AccountUsageAvailability::Unknown { reason, message }, AccountUsageAvailability::Unknown { reason: reason_2, message: message_2 }) => *reason == *reason_2 && message.same(message_2),
            _ => false,
        }
    }
}

/// What is known of the usage of a month.
#[derive(Clone, Debug, PartialEq)]
pub struct AccountUsageObservation {
    pub owner: BillingOwner,
    pub period: BillingPeriod,
    pub observed_at: Timestamp,
    pub source: AccountUsageSource,
    pub availability: AccountUsageAvailability,
    pub items: Vec<AccountUsageItem>,
}

/// The contents of [`AccountUsageObservation`].
#[verifier::ext_equal]
pub struct AccountUsageObservationView {
    pub owner: BillingOwnerView,
    pub period: BillingPeriod,
    pub observed_at: Timestamp,
    pub source: AccountUsageSourceView,
    pub availability: AccountUsageAvailabilityView,
    pub items: Seq<AccountUsageItemView>,
}

impl DeepView for AccountUsageObservation {
    type V = AccountUsageObservationView;

    open spec fn deep_view(&self) -> AccountUsageObservationView {
        AccountUsageObservationView {
            owner: self.owner.deep_view(),
            period: self.period,
            observed_at: self.observed_at,
            source: self.source.deep_view(),
            availability: self.availability.deep_view(),
            items: self.items.deep_view(),
        }
    }
}

impl Value for AccountUsageObservation {
    fn copied(&self) -> (result: Self) {
        AccountUsageObservation {
            owner: self.owner.copied(),
            period: self.period,
            observed_at: self.observed_at,
            source: self.source.copied(),
            availability: self.availability.copied(),
            items: self.items.copied(),
        }
    }

    fn same(&self, other: &Self) -> (result: bool) {
        self.owner.same(&other.owner)
            && self.period == other.period
            && self.observed_at == other.observed_at
            && self.source.same(&other.source)
            && self.availability.same(&other.availability)
            && self.items.same(&other.items)
    }
}

/// Whether there is a month of that number.
pub open spec fn is_month(month: u8) -> bool {
    1 <= month <= 12
}

/// The months are those of the calendar: an instant lies in one of them in every year.
pub proof fn months_are_those_of_the_calendar(month: u8, year: int)
    ensures
        is_month(month) <==> exists|seconds: int| #[trigger] lies_in_month(seconds, year, month as int),
{
    if is_month(month) {
        let seconds = crate::time::first_day(year, month as int) * 86_400;
        assert(lies_in_month(seconds, year, month as int));
    }
}

impl BillingPeriod {
    /// The month, where there is one of that number.
    pub fn monthly(year: i32, month: u8) -> (result: Result<Self, BillingPeriodError>)
        ensures
            result is Ok <==> is_month(month),
            result == if 1 <= month <= 12 {
                Ok::<BillingPeriod, BillingPeriodError>(BillingPeriod { year, month })
            } else {
                Err(BillingPeriodError::InvalidMonth(month))
            },
    {
        if !(1 <= month && month <= 12) {
            return Err(BillingPeriodError::InvalidMonth(month));
        }
        Ok(BillingPeriod { year, month })
    }

    /// The month in which an instant lies.
    pub fn at(at: Timestamp) -> (result: BillingPeriod)
        ensures
            lies_in_month(at.unix_seconds(), result.year as int, result.month as int),
    {
        let (year, month) = at.year_and_month();
        BillingPeriod { year, month: month as u8 }
    }
}

impl AccountUsageUnknownReason {
    /// The reason by its name.
    pub open spec fn text(self) -> Seq<char> {
        match self {
            AccountUsageUnknownReason::Authentication => "Authentication"@,
            AccountUsageUnknownReason::PermissionDenied => "PermissionDenied"@,
            AccountUsageUnknownReason::NotFound => "NotFound"@,
            AccountUsageUnknownReason::RateLimited => "RateLimited"@,
            AccountUsageUnknownReason::Transport => "Transport"@,
            AccountUsageUnknownReason::InvalidResponse => "InvalidResponse"@,
            AccountUsageUnknownReason::ProviderError => "ProviderError"@,
        }
    }

    /// The reason by its name.
    pub fn as_str(self) -> (result: &'static str)
        ensures
            result@ == self.text(),
    {
        match self {
            AccountUsageUnknownReason::Authentication => "Authentication",
            AccountUsageUnknownReason::PermissionDenied => "PermissionDenied",
            AccountUsageUnknownReason::NotFound => "NotFound",
            AccountUsageUnknownReason::RateLimited => "RateLimited",
            AccountUsageUnknownReason::Transport => "Transport",
            AccountUsageUnknownReason::InvalidResponse => "InvalidResponse",
            AccountUsageUnknownReason::ProviderError => "ProviderError",
        }
    }
}

impl AccountUsageObservation {
    /// Usage that is known.
    pub fn available(
        owner: BillingOwner,
        period: BillingPeriod,
        observed_at: Timestamp,
        source: AccountUsageSource,
        items: Vec<AccountUsageItem>,
    ) -> (result: Self)
        ensures
            result.deep_view() == (AccountUsageObservationView {
                owner: owner.deep_view(),
                period,
                observed_at,
                source: source.deep_view(),
                availability: AccountUsageAvailabilityView::Available,
                items: items.deep_view(),
            }),
    {
        AccountUsageObservation {
            owner,
            period,
            observed_at,
            source,
            availability: AccountUsageAvailability::Available,
            items,
        }
    }

    /// Usage that the provider does not tell. No items are made up.
    pub fn unsupported(
        owner: BillingOwner,
        period: BillingPeriod,
        observed_at: Timestamp,
        source: AccountUsageSource,
        reason: &str,
    ) -> (result: Self)
        ensures
            result.deep_view() == (AccountUsageObservationView {
                owner: owner.deep_view(),
                period,
                observed_at,
                source: source.deep_view(),
                availability: AccountUsageAvailabilityView::Unsupported { reason: reason@ },
                items: Seq::empty(),
            }),
    {
        AccountUsageObservation {
            owner,
            period,
            observed_at,
            source,
            availability: AccountUsageAvailability::Unsupported { reason: reason.to_string() },
            items: nothing(),
        }
    }

    /// Usage that could not be learned. No items are made up.
    pub fn unknown(
        owner: BillingOwner,
        period: BillingPeriod,
        observed_at: Timestamp,
        source: AccountUsageSource,
        reason: AccountUsageUnknownReason,
        message: &str,
    ) -> (result: Self)
        ensures
            result.deep_view() == (AccountUsageObservationView {
                owner: owner.deep_view(),
                period,
                observed_at,
                source: source.deep_view(),
                availability: AccountUsageAvailabilityView::Unknown { reason, message: message@ },
                items: Seq::empty(),
            }),
    {
        AccountUsageObservation {
            owner,
            period,
            observed_at,
            source,
            availability: AccountUsageAvailability::Unknown { reason, message: message.to_string() },
            items: nothing(),
        }
    }

    /// Whether the usage is known.
    pub fn is_available(&self) -> (result: bool)
        ensures
            result == (self.deep_view().availability is Available),
    {
        matches!(&self.availability, AccountUsageAvailability::Available)
    }
}

} // verus!
