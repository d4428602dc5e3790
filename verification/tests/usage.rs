//! Billed usage: observations, quotas, alerts and the polling of owners.
use chrono::{TimeZone, Utc};
use gh_housekeeper::account_usage::{
    AccountUsageAvailability, AccountUsageItem, AccountUsageObservation, AccountUsageSource,
    AccountUsageUnknownReason, BillingOwner, BillingOwnerKind, BillingPeriod, BillingPeriodError,
};
use gh_housekeeper::account_usage_monitoring::{
    notification_candidate, unique_billing_owners, AccountUsageObservationSink,
    AccountUsagePollingCycle, AccountUsagePollingService, PollingStage,
    UsageQuotaAlertReceiptLookup, UsageQuotaAlertReceiptState, UsageQuotaAlertReceiptStore,
    UsageQuotaNotificationOutcome,
};
use gh_housekeeper::agent::DaemonAccountUsageSummary;
use gh_housekeeper::allowance::{
    UsageAllowance, UsageAllowanceError, UsageAllowanceProvenance, UsagePercentageThresholds,
    UsageQuantityBasis, UsageQuotaAlertKey, UsageQuotaEvaluation, UsageQuotaLevel,
    UsageQuotaStatus, UsageQuotaThreshold, UsageQuotaUnknownReason, UsageShare,
};
use gh_housekeeper::quantity::Quantity;
use gh_housekeeper::time::Timestamp;
use std::cell::{Cell, RefCell};
use std::collections::HashSet;

const HOUR: u128 = 3_600_000_000_000;

fn amount(value: f64) -> Quantity {
    Quantity { bits: value.to_bits() }
}

fn value(amount: Quantity) -> f64 {
    f64::from_bits(amount.bits)
}

fn on(month: u32, day: u32, hour: u32) -> Timestamp {
    let time = Utc.with_ymd_and_hms(2026, month, day, hour, 0, 0).unwrap();
    Timestamp::from_unix(time.timestamp(), 0).unwrap()
}

fn example_owner() -> BillingOwner {
    BillingOwner {
        provider: "github".to_owned(),
        kind: BillingOwnerKind::User,
        login: "example-user".to_owned(),
    }
}

fn summary_source() -> AccountUsageSource {
    AccountUsageSource {
        provider: "github".to_owned(),
        endpoint: "/users/example-user/settings/billing/usage/summary".to_owned(),
        api_version: Some("2026-03-10".to_owned()),
        public_preview: true,
    }
}

fn observed(month: u8, items: Vec<AccountUsageItem>) -> AccountUsageObservation {
    AccountUsageObservation::available(
        example_owner(),
        BillingPeriod::monthly(2026, month).unwrap(),
        on(month as u32, 20, 12),
        summary_source(),
        items,
    )
}

fn item(sku: &str, unit_type: &str, gross: f64, discount: f64, net: f64) -> AccountUsageItem {
    AccountUsageItem {
        product: "Actions".to_owned(),
        sku: sku.to_owned(),
        unit_type: unit_type.to_owned(),
        price_per_unit: Some(amount(0.006)),
        gross_quantity: amount(gross),
        gross_amount: None,
        discount_quantity: amount(discount),
        discount_amount: None,
        net_quantity: amount(net),
        net_amount: None,
    }
}

fn allowance(basis: UsageQuantityBasis) -> UsageAllowance {
    UsageAllowance {
        resource_id: "actions-linux-minutes".to_owned(),
        product: "Actions".to_owned(),
        sku: "actions_linux".to_owned(),
        unit_type: "minutes".to_owned(),
        quantity: amount(100.0),
        quantity_basis: basis,
        provenance: UsageAllowanceProvenance::UserConfigured {
            label: "explicit test allowance".to_owned(),
        },
    }
}

fn thresholds() -> UsagePercentageThresholds {
    UsagePercentageThresholds::new(amount(75.0), amount(90.0)).unwrap()
}

fn shares_of(items: &Vec<AccountUsageItem>, allowance: &UsageAllowance) -> Vec<UsageShare> {
    items
        .iter()
        .map(|item| {
            let used = value(allowance.quantity_basis.quantity(item));
            let allowed = value(allowance.quantity);
            UsageShare {
                percent_used: amount((used / allowed) * 100.0),
                remaining_quantity: amount((allowed - used).max(0.0)),
            }
        })
        .collect()
}

fn evaluate_usage_quota(
    observation: &AccountUsageObservation,
    allowance: Option<&UsageAllowance>,
    thresholds: UsagePercentageThresholds,
    evaluated_at: Timestamp,
    max_age: u128,
) -> Result<UsageQuotaEvaluation, UsageAllowanceError> {
    let shares = match allowance {
        Some(allowance) => shares_of(&observation.items, allowance),
        None => Vec::new(),
    };
    gh_housekeeper::allowance::evaluate_usage_quota(
        observation,
        allowance,
        thresholds,
        evaluated_at,
        max_age,
        &shares,
    )
}

#[test]
fn billing_period_rejects_invalid_months() {
    assert_eq!(
        BillingPeriod::monthly(2026, 0),
        Err(BillingPeriodError::InvalidMonth(0))
    );
    assert_eq!(
        BillingPeriod::monthly(2026, 13),
        Err(BillingPeriodError::InvalidMonth(13))
    );
    assert_eq!(
        BillingPeriod::monthly(2026, 9).unwrap(),
        BillingPeriod {
            year: 2026,
            month: 9
        }
    );
}

#[test]
fn unknown_usage_never_fabricates_zero_items() {
    let observation = AccountUsageObservation::unknown(
        example_owner(),
        BillingPeriod::monthly(2026, 9).unwrap(),
        on(9, 20, 12),
        summary_source(),
        AccountUsageUnknownReason::PermissionDenied,
        "Plan: read permission is required",
    );

    assert!(!observation.is_available());
    assert!(observation.items.is_empty());
    assert!(matches!(
        observation.availability,
        AccountUsageAvailability::Unknown {
            reason: AccountUsageUnknownReason::PermissionDenied,
            ..
        }
    ));
}

#[test]
fn usage_items_keep_skus_and_units_separate() {
    let observation = AccountUsageObservation::available(
        example_owner(),
        BillingPeriod::monthly(2026, 9).unwrap(),
        on(9, 20, 12),
        summary_source(),
        vec![
            AccountUsageItem {
                product: "Actions".to_owned(),
                sku: "actions_linux".to_owned(),
                unit_type: "minutes".to_owned(),
                price_per_unit: Some(amount(0.006)),
                gross_quantity: amount(10.0),
                gross_amount: Some(amount(0.06)),
                discount_quantity: amount(10.0),
                discount_amount: Some(amount(0.06)),
                net_quantity: amount(0.0),
                net_amount: Some(amount(0.0)),
            },
            AccountUsageItem {
                product: "Actions".to_owned(),
                sku: "actions_storage".to_owned(),
                unit_type: "gb_hours".to_owned(),
                price_per_unit: Some(amount(0.000008)),
                gross_quantity: amount(25.0),
                gross_amount: Some(amount(0.0002)),
                discount_quantity: amount(25.0),
                discount_amount: Some(amount(0.0002)),
                net_quantity: amount(0.0),
                net_amount: Some(amount(0.0)),
            },
        ],
    );

    assert_eq!(observation.items.len(), 2);
    assert_eq!(observation.items[0].unit_type, "minutes");
    assert_eq!(observation.items[1].unit_type, "gb_hours");
    assert_ne!(observation.items[0].sku, observation.items[1].sku);
}

#[test]
fn unconfigured_allowance_never_invents_percentage_or_alert() {
    let observation = observed(9, vec![item("actions_linux", "minutes", 80.0, 80.0, 0.0)]);
    let evaluation = evaluate_usage_quota(
        &observation,
        None,
        thresholds(),
        observation.observed_at,
        HOUR,
    )
    .unwrap();

    assert_eq!(evaluation.status, UsageQuotaStatus::Unconfigured);
    assert!(evaluation.resource_id.is_none());
    assert!(evaluation.alert_key.is_none());
}

#[test]
fn exact_sku_warning_uses_explicit_quantity_basis() {
    let observation = observed(9, vec![item("actions_linux", "minutes", 80.0, 25.0, 55.0)]);
    let evaluation = evaluate_usage_quota(
        &observation,
        Some(&allowance(UsageQuantityBasis::Gross)),
        thresholds(),
        observation.observed_at,
        HOUR,
    )
    .unwrap();

    assert!(matches!(
        evaluation.status,
        UsageQuotaStatus::Known {
            level: UsageQuotaLevel::Warning,
            usage_quantity,
            allowance_quantity,
            percent_used,
            remaining_quantity,
            quantity_basis: UsageQuantityBasis::Gross,
            ..
        } if usage_quantity == amount(80.0) && allowance_quantity == amount(100.0) && percent_used == amount(80.0) && remaining_quantity == amount(20.0)
    ));
    assert_eq!(
        evaluation.alert_key.unwrap().threshold,
        UsageQuotaThreshold::Warning
    );
}

#[test]
fn quantity_basis_is_not_inferred_from_discount_or_net_fields() {
    let observation = observed(9, vec![item("actions_linux", "minutes", 80.0, 25.0, 55.0)]);
    let evaluation = evaluate_usage_quota(
        &observation,
        Some(&allowance(UsageQuantityBasis::Discount)),
        thresholds(),
        observation.observed_at,
        HOUR,
    )
    .unwrap();

    assert!(matches!(
        evaluation.status,
        UsageQuotaStatus::Known {
            level: UsageQuotaLevel::Healthy,
            usage_quantity,
            percent_used,
            quantity_basis: UsageQuantityBasis::Discount,
            ..
        } if usage_quantity == amount(25.0) && percent_used == amount(25.0)
    ));
}

#[test]
fn different_skus_are_never_silently_aggregated() {
    let observation = observed(
        9,
        vec![
            item("actions_linux", "minutes", 60.0, 0.0, 60.0),
            item("actions_windows", "minutes", 60.0, 0.0, 60.0),
        ],
    );
    let evaluation = evaluate_usage_quota(
        &observation,
        Some(&allowance(UsageQuantityBasis::Gross)),
        thresholds(),
        observation.observed_at,
        HOUR,
    )
    .unwrap();

    assert!(matches!(
        evaluation.status,
        UsageQuotaStatus::Known {
            usage_quantity,
            level: UsageQuotaLevel::Healthy,
            ..
        } if usage_quantity == amount(60.0)
    ));
}

#[test]
fn unit_mismatch_is_unknown_instead_of_zero() {
    let observation = observed(9, vec![item("actions_linux", "gb_hours", 80.0, 0.0, 80.0)]);
    let evaluation = evaluate_usage_quota(
        &observation,
        Some(&allowance(UsageQuantityBasis::Gross)),
        thresholds(),
        observation.observed_at,
        HOUR,
    )
    .unwrap();

    assert!(matches!(
        evaluation.status,
        UsageQuotaStatus::Unknown {
            reason: UsageQuotaUnknownReason::NoMatchingUsageItem,
            ..
        }
    ));
    assert!(evaluation.alert_key.is_none());
}

#[test]
fn duplicate_exact_usage_rows_are_ambiguous_not_summed() {
    let observation = observed(
        9,
        vec![
            item("actions_linux", "minutes", 40.0, 0.0, 40.0),
            item("actions_linux", "minutes", 41.0, 0.0, 41.0),
        ],
    );
    let evaluation = evaluate_usage_quota(
        &observation,
        Some(&allowance(UsageQuantityBasis::Gross)),
        thresholds(),
        observation.observed_at,
        HOUR,
    )
    .unwrap();

    assert!(matches!(
        evaluation.status,
        UsageQuotaStatus::Unknown {
            reason: UsageQuotaUnknownReason::AmbiguousUsageItems,
            ..
        }
    ));
}

#[test]
fn stale_observation_is_explicit_and_does_not_alert() {
    let observation = observed(9, vec![item("actions_linux", "minutes", 95.0, 0.0, 95.0)]);
    let evaluated_at = on(9, 20, 14);
    let evaluation = evaluate_usage_quota(
        &observation,
        Some(&allowance(UsageQuantityBasis::Gross)),
        thresholds(),
        evaluated_at,
        HOUR,
    )
    .unwrap();

    assert!(matches!(
        evaluation.status,
        UsageQuotaStatus::Unknown {
            reason: UsageQuotaUnknownReason::StaleObservation,
            ..
        }
    ));
    assert!(evaluation.alert_key.is_none());
}

#[test]
fn upstream_unknown_remains_unknown_and_does_not_alert() {
    let mut observation = observed(9, Vec::new());
    observation.availability = AccountUsageAvailability::Unknown {
        reason: AccountUsageUnknownReason::PermissionDenied,
        message: "fixture permission denial".to_owned(),
    };
    let evaluation = evaluate_usage_quota(
        &observation,
        Some(&allowance(UsageQuantityBasis::Gross)),
        thresholds(),
        observation.observed_at,
        HOUR,
    )
    .unwrap();

    assert!(matches!(
        evaluation.status,
        UsageQuotaStatus::Unknown {
            reason: UsageQuotaUnknownReason::UpstreamUnknown,
            ..
        }
    ));
    assert!(evaluation.alert_key.is_none());
}

#[test]
fn alert_key_dedup_scope_includes_period_and_threshold() {
    let september = observed(9, vec![item("actions_linux", "minutes", 95.0, 0.0, 95.0)]);
    let october = observed(10, vec![item("actions_linux", "minutes", 95.0, 0.0, 95.0)]);

    let september_key = evaluate_usage_quota(
        &september,
        Some(&allowance(UsageQuantityBasis::Gross)),
        thresholds(),
        september.observed_at,
        HOUR,
    )
    .unwrap()
    .alert_key
    .unwrap();
    let october_key = evaluate_usage_quota(
        &october,
        Some(&allowance(UsageQuantityBasis::Gross)),
        thresholds(),
        october.observed_at,
        HOUR,
    )
    .unwrap()
    .alert_key
    .unwrap();

    assert_ne!(september_key, october_key);
    assert_eq!(september_key.threshold, UsageQuotaThreshold::Critical);
    assert_eq!(october_key.threshold, UsageQuotaThreshold::Critical);
}

#[test]
fn invalid_threshold_order_is_rejected() {
    assert!(matches!(
        UsagePercentageThresholds::new(amount(95.0), amount(90.0)),
        Err(UsageAllowanceError::ThresholdOrder { .. })
    ));
}

#[test]
fn levels_begin_at_their_percentages() {
    for (used, level) in [
        (74.9, UsageQuotaLevel::Healthy),
        (75.0, UsageQuotaLevel::Warning),
        (89.9, UsageQuotaLevel::Warning),
        (90.0, UsageQuotaLevel::Critical),
        (250.0, UsageQuotaLevel::Critical),
    ] {
        let observation = observed(9, vec![item("actions_linux", "minutes", used, 0.0, used)]);
        let evaluation = evaluate_usage_quota(
            &observation,
            Some(&allowance(UsageQuantityBasis::Net)),
            thresholds(),
            observation.observed_at,
            HOUR,
        )
        .unwrap();
        let UsageQuotaStatus::Known { level: found, remaining_quantity, .. } = evaluation.status
        else {
            panic!("expected a known status");
        };
        assert_eq!(found, level);
        assert_eq!(value(remaining_quantity), (100.0 - used).max(0.0));
    }
}

#[test]
fn unusable_values_are_unknown() {
    for used in [-1.0, f64::NAN, f64::INFINITY] {
        let observation = observed(9, vec![item("actions_linux", "minutes", used, 0.0, used)]);
        let evaluation = evaluate_usage_quota(
            &observation,
            Some(&allowance(UsageQuantityBasis::Gross)),
            thresholds(),
            observation.observed_at,
            HOUR,
        )
        .unwrap();
        assert!(matches!(
            evaluation.status,
            UsageQuotaStatus::Unknown { reason: UsageQuotaUnknownReason::InvalidUsageValue, .. }
        ));
    }
}

#[test]
fn an_unsupported_owner_has_no_quota() {
    let observation = AccountUsageObservation::unsupported(
        example_owner(),
        BillingPeriod::monthly(2026, 9).unwrap(),
        on(9, 20, 12),
        summary_source(),
        "enterprise billing",
    );
    let evaluation = evaluate_usage_quota(
        &observation,
        Some(&allowance(UsageQuantityBasis::Gross)),
        thresholds(),
        on(9, 20, 12),
        HOUR,
    )
    .unwrap();
    assert!(matches!(
        evaluation.status,
        UsageQuotaStatus::Unknown { reason: UsageQuotaUnknownReason::UpstreamUnsupported, .. }
    ));
}

#[test]
fn an_observation_ages_to_the_last_nanosecond() {
    let observation = observed(9, vec![item("actions_linux", "minutes", 95.0, 0.0, 95.0)]);
    let stale_at = |max_age: u128| {
        let evaluation = evaluate_usage_quota(
            &observation,
            Some(&allowance(UsageQuantityBasis::Gross)),
            thresholds(),
            on(9, 20, 13),
            max_age,
        )
        .unwrap();
        matches!(
            evaluation.status,
            UsageQuotaStatus::Unknown { reason: UsageQuotaUnknownReason::StaleObservation, .. }
        )
    };
    assert!(!stale_at(HOUR));
    assert!(stale_at(HOUR - 1));
}

#[test]
fn allowances_are_checked() {
    let mut blank = allowance(UsageQuantityBasis::Gross);
    blank.sku = "  ".to_owned();
    let error = blank.validate().unwrap_err();
    assert!(matches!(error, UsageAllowanceError::EmptyField(_)));
    assert!(error.message("", "").contains("sku"));
    for quantity in [0.0, -0.0, -1.0, f64::NAN, f64::INFINITY] {
        let mut odd = allowance(UsageQuantityBasis::Gross);
        odd.quantity = amount(quantity);
        match odd.validate() {
            Err(UsageAllowanceError::InvalidQuantity(refused)) => {
                assert_eq!(refused.bits, quantity.to_bits());
            }
            other => panic!("{other:?}"),
        }
    }
    assert!(matches!(
        UsagePercentageThresholds::new(amount(0.0), amount(90.0)),
        Err(UsageAllowanceError::InvalidWarningPercent(_))
    ));
    assert!(matches!(
        UsagePercentageThresholds::new(amount(75.0), amount(100.5)),
        Err(UsageAllowanceError::InvalidCriticalPercent(_))
    ));
    let order = UsagePercentageThresholds::new(amount(95.0), amount(90.0)).unwrap_err();
    let (first, second) = order.quantities();
    assert_eq!((first.map(value), second.map(value)), (Some(95.0), Some(90.0)));
}

#[test]
fn quantities_compare_as_floating_point_numbers_do() {
    let samples = [
        0.0, -0.0, 1.0, -1.0, 100.0, 100.00000000000001, 99.99999999999999, 5e-324, -5e-324,
        f64::MAX, f64::MIN, f64::INFINITY, f64::NEG_INFINITY, f64::NAN, -f64::NAN, 1e-300, 42.5,
    ];
    for a in samples {
        assert_eq!(amount(a).is_finite(), a.is_finite(), "{a}");
        assert_eq!(amount(a).is_undefined(), a.is_nan(), "{a}");
        assert_eq!(amount(a).is_positive(), a.is_finite() && a > 0.0, "{a}");
        assert_eq!(amount(a).is_not_negative(), a.is_finite() && a >= 0.0, "{a}");
        assert_eq!(amount(a).is_percentage(), a.is_finite() && a > 0.0 && a <= 100.0, "{a}");
        for b in samples {
            assert_eq!(amount(a).is_at_least(amount(b)), a >= b, "{a} {b}");
        }
    }
}

#[test]
fn a_month_is_that_of_the_instant() {
    assert_eq!(
        BillingPeriod::at(on(12, 31, 23)),
        BillingPeriod { year: 2026, month: 12 }
    );
    assert!(BillingPeriodError::InvalidMonth(13).message().contains("13"));
}

struct FakeProvider {
    calls: Vec<(BillingOwner, BillingPeriod)>,
    quantity: f64,
    observed_at: Timestamp,
    unavailable: bool,
    sink: FakeObservationSink,
    store: FakeAlertStore,
    delivered: Vec<UsageQuotaAlertKey>,
    delivery_fails: bool,
}

#[derive(Default)]
struct FakeObservationSink {
    observations: RefCell<Vec<AccountUsageObservation>>,
}

impl AccountUsageObservationSink for FakeObservationSink {
    fn persist(&self, observation: &AccountUsageObservation) -> Result<(), String> {
        self.observations.borrow_mut().push(observation.clone());
        Ok(())
    }
}

#[derive(Default)]
struct FakeAlertStore {
    receipts: RefCell<HashSet<String>>,
    unknown: Cell<bool>,
}

fn alert_name(key: &UsageQuotaAlertKey) -> String {
    format!("{key:?}")
}

impl UsageQuotaAlertReceiptStore for FakeAlertStore {
    fn delivery_lookup(
        &self,
        key: &UsageQuotaAlertKey,
    ) -> Result<UsageQuotaAlertReceiptLookup, String> {
        if self.receipts.borrow().contains(&alert_name(key)) {
            return Ok(UsageQuotaAlertReceiptLookup {
                state: UsageQuotaAlertReceiptState::Delivered,
                issues: Vec::new(),
            });
        }
        if self.unknown.get() {
            return Ok(UsageQuotaAlertReceiptLookup {
                state: UsageQuotaAlertReceiptState::Unknown,
                issues: vec!["fixture corrupt receipt history".to_owned()],
            });
        }
        Ok(UsageQuotaAlertReceiptLookup {
            state: UsageQuotaAlertReceiptState::NotDelivered,
            issues: Vec::new(),
        })
    }

    fn record_delivered(&self, key: &UsageQuotaAlertKey) -> Result<(), String> {
        self.receipts.borrow_mut().insert(alert_name(key));
        Ok(())
    }
}

fn owner(login: &str) -> BillingOwner {
    BillingOwner {
        provider: "github".to_owned(),
        kind: BillingOwnerKind::User,
        login: login.to_owned(),
    }
}

fn used_item(sku: &str, quantity: f64) -> AccountUsageItem {
    let mut used = item(sku, "minutes", quantity, 0.0, quantity);
    used.price_per_unit = None;
    used
}

fn configured_allowance(resource_id: &str, sku: &str) -> UsageAllowance {
    let mut configured = allowance(UsageQuantityBasis::Gross);
    configured.resource_id = resource_id.to_owned();
    configured.sku = sku.to_owned();
    configured.provenance =
        UsageAllowanceProvenance::UserConfigured { label: "fixture allowance".to_owned() };
    configured
}

fn now() -> Timestamp {
    on(9, 25, 12)
}

fn period(month: u8) -> BillingPeriod {
    BillingPeriod::monthly(2026, month).unwrap()
}

impl FakeProvider {
    fn new(observed_at: Timestamp, quantity: f64) -> Self {
        FakeProvider {
            calls: Vec::new(),
            quantity,
            observed_at,
            unavailable: false,
            sink: FakeObservationSink::default(),
            store: FakeAlertStore::default(),
            delivered: Vec::new(),
            delivery_fails: false,
        }
    }

    fn billing_usage_summary(
        &mut self,
        owner: &BillingOwner,
        period: BillingPeriod,
    ) -> AccountUsageObservation {
        self.calls.push((owner.clone(), period));
        let source = AccountUsageSource {
            provider: "github".to_owned(),
            endpoint: format!("/billing/{}", owner.login),
            api_version: Some("test".to_owned()),
            public_preview: true,
        };
        if self.unavailable {
            return AccountUsageObservation::unknown(
                owner.clone(),
                period,
                self.observed_at,
                source,
                AccountUsageUnknownReason::PermissionDenied,
                "fixture permission denial",
            );
        }
        AccountUsageObservation::available(
            owner.clone(),
            period,
            self.observed_at,
            source,
            vec![
                used_item("actions_linux", self.quantity),
                used_item("actions_windows", self.quantity),
            ],
        )
    }

    fn run_cycle(
        &mut self,
        period: BillingPeriod,
        configured: &Vec<(BillingOwner, UsageAllowance)>,
    ) -> AccountUsagePollingCycle {
        let mut service = AccountUsagePollingService::new(
            period,
            now(),
            configured.clone(),
            Some(thresholds()),
            HOUR,
        );
        loop {
            match service.stage() {
                PollingStage::Observe => {
                    let owner = service.owner().clone();
                    let observation = self.billing_usage_summary(&owner, service.period());
                    service.observed(observation);
                }
                PollingStage::Persist => service.persist(&self.sink),
                PollingStage::Measure => {
                    let items = service.observation().unwrap().items.clone();
                    let shares = shares_of(&items, service.allowance());
                    service.measured(&shares);
                }
                PollingStage::LookUp => service.look_up(&self.store),
                PollingStage::Deliver => {
                    if self.delivery_fails {
                        service.delivered(Some("fixture delivery failure".to_owned()));
                    } else {
                        self.delivered.push(service.candidate().key.clone());
                        service.delivered(None);
                    }
                }
                PollingStage::Record => service.record(&self.store),
                PollingStage::Done => break,
            }
        }
        service.finish()
    }
}

fn linux_only() -> Vec<(BillingOwner, UsageAllowance)> {
    vec![(owner("example-user"), configured_allowance("linux", "actions_linux"))]
}

#[test]
fn multiple_resources_for_one_owner_make_one_provider_request() {
    let mut provider = FakeProvider::new(now(), 80.0);
    let configured = vec![
        (owner("example-user"), configured_allowance("linux", "actions_linux")),
        (owner("example-user"), configured_allowance("windows", "actions_windows")),
    ];
    assert_eq!(unique_billing_owners(&configured).len(), 1);

    let cycle = provider.run_cycle(period(9), &configured);

    assert_eq!(provider.calls.len(), 1);
    assert_eq!(provider.sink.observations.borrow().len(), 1);
    assert_eq!(cycle.owners.len(), 1);
    assert_eq!(cycle.owners[0].evaluations.len(), 2);
}

#[test]
fn different_billing_owners_are_polled_independently() {
    let mut provider = FakeProvider::new(now(), 80.0);
    let configured = vec![
        (owner("user-one"), configured_allowance("linux", "actions_linux")),
        (owner("user-two"), configured_allowance("linux", "actions_linux")),
    ];

    provider.run_cycle(period(9), &configured);

    assert_eq!(provider.calls.len(), 2);
    assert_eq!(provider.sink.observations.borrow().len(), 2);
}

#[test]
fn duplicate_candidate_is_delivered_once_and_then_suppressed() {
    let mut provider = FakeProvider::new(now(), 80.0);

    let first = provider.run_cycle(period(9), &linux_only());
    let second = provider.run_cycle(period(9), &linux_only());

    assert_eq!(provider.delivered.len(), 1);
    assert!(matches!(
        first.owners[0].notifications.as_slice(),
        [UsageQuotaNotificationOutcome::Delivered { .. }]
    ));
    assert!(matches!(
        second.owners[0].notifications.as_slice(),
        [UsageQuotaNotificationOutcome::SuppressedDuplicate { .. }]
    ));
}

#[test]
fn warning_then_critical_are_distinct_alerts() {
    let mut provider = FakeProvider::new(now(), 80.0);

    provider.run_cycle(period(9), &linux_only());
    provider.quantity = 95.0;
    provider.run_cycle(period(9), &linux_only());

    assert_eq!(provider.delivered.len(), 2);
    assert_eq!(provider.delivered[0].threshold, UsageQuotaThreshold::Warning);
    assert_eq!(provider.delivered[1].threshold, UsageQuotaThreshold::Critical);
}

#[test]
fn billing_period_rollover_allows_a_new_alert() {
    let mut provider = FakeProvider::new(now(), 80.0);

    provider.run_cycle(period(9), &linux_only());
    provider.run_cycle(period(10), &linux_only());

    assert_eq!(provider.delivered.len(), 2);
}

#[test]
fn delivery_failure_records_no_receipt_and_allows_retry() {
    let mut provider = FakeProvider::new(now(), 80.0);
    provider.delivery_fails = true;

    let first = provider.run_cycle(period(9), &linux_only());
    assert!(provider.store.receipts.borrow().is_empty());
    assert!(matches!(
        first.owners[0].notifications.as_slice(),
        [UsageQuotaNotificationOutcome::DeliveryFailed { .. }]
    ));

    provider.delivery_fails = false;
    provider.run_cycle(period(9), &linux_only());

    assert_eq!(provider.delivered.len(), 1);
    assert_eq!(provider.store.receipts.borrow().len(), 1);
}

#[test]
fn corrupt_receipt_history_fails_closed_without_delivery() {
    let mut provider = FakeProvider::new(now(), 80.0);
    provider.store.unknown.set(true);

    let cycle = provider.run_cycle(period(9), &linux_only());

    assert!(provider.delivered.is_empty());
    assert!(matches!(
        cycle.owners[0].notifications.as_slice(),
        [UsageQuotaNotificationOutcome::FailClosed { .. }]
    ));
}

#[test]
fn provider_unknown_is_persisted_and_never_alerts() {
    let mut provider = FakeProvider::new(now(), 95.0);
    provider.unavailable = true;

    let cycle = provider.run_cycle(period(9), &linux_only());

    assert_eq!(provider.sink.observations.borrow().len(), 1);
    assert!(matches!(
        cycle.owners[0].observation.availability,
        AccountUsageAvailability::Unknown { .. }
    ));
    assert!(matches!(
        cycle.owners[0].evaluations[0].status,
        UsageQuotaStatus::Unknown {
            reason: UsageQuotaUnknownReason::UpstreamUnknown,
            ..
        }
    ));
    assert!(provider.delivered.is_empty());
}

#[test]
fn stale_observation_never_generates_a_quota_notification() {
    let mut provider = FakeProvider::new(on(9, 25, 10), 95.0);

    let cycle = provider.run_cycle(period(9), &linux_only());

    assert!(matches!(
        cycle.owners[0].evaluations[0].status,
        UsageQuotaStatus::Unknown {
            reason: UsageQuotaUnknownReason::StaleObservation,
            ..
        }
    ));
    assert!(provider.delivered.is_empty());
}

#[test]
fn a_failed_receipt_is_told() {
    let mut service = AccountUsagePollingService::new(
        period(9),
        now(),
        linux_only(),
        Some(thresholds()),
        HOUR,
    );
    let mut provider = FakeProvider::new(now(), 80.0);
    let observation = provider.billing_usage_summary(&owner("example-user"), period(9));
    let shares = shares_of(&observation.items, &linux_only()[0].1);
    service.observed(observation);
    service.persisted(None);
    service.measured(&shares);
    service.looked_up(Ok(UsageQuotaAlertReceiptLookup {
        state: UsageQuotaAlertReceiptState::NotDelivered,
        issues: Vec::new(),
    }));
    service.delivered(None);
    service.recorded(Some("disk full".to_owned()));
    assert_eq!(service.stage(), PollingStage::Done);
    let cycle = service.finish();
    assert!(matches!(
        cycle.owners[0].notifications.as_slice(),
        [UsageQuotaNotificationOutcome::ReceiptFailed { .. }]
    ));
    assert!(cycle.owners[0].persisted);
    assert!(notification_candidate(&cycle.owners[0].evaluations[0]).is_some());
    let summary = DaemonAccountUsageSummary::from_cycle(&cycle);
    assert_eq!(summary.owner_count, 1);
    assert_eq!(summary.available_owner_count, 1);
    assert_eq!(summary.persisted_owner_count, 1);
    assert_eq!(summary.failed_notification_count, 1);
}

#[test]
fn an_observation_that_is_not_stored_is_not_evaluated() {
    let mut service = AccountUsagePollingService::new(
        period(9),
        now(),
        linux_only(),
        Some(thresholds()),
        HOUR,
    );
    let mut provider = FakeProvider::new(now(), 95.0);
    service.observed(provider.billing_usage_summary(&owner("example-user"), period(9)));
    service.persisted(Some("disk full".to_owned()));
    assert_eq!(service.stage(), PollingStage::Done);
    let cycle = service.finish();
    assert_eq!(cycle.owners[0].persistence_error.as_deref(), Some("disk full"));
    assert!(cycle.owners[0].evaluations.is_empty());
    assert_eq!(DaemonAccountUsageSummary::from_cycle(&cycle).persistence_failure_count, 1);
}

#[test]
fn quantities_are_equal_as_numbers() {
    let values = [0.0, -0.0, 1.0, -1.0, f64::MIN_POSITIVE, 5e-324, f64::INFINITY, f64::NEG_INFINITY, f64::NAN];
    for a in values {
        for b in values {
            assert_eq!(amount(a) == amount(b), a == b, "{a} {b}");
            assert_eq!(amount(a) != amount(b), a != b, "{a} {b}");
        }
    }
    let mut signed = allowance(UsageQuantityBasis::Net);
    signed.quantity = amount(-0.0);
    let mut unsigned = allowance(UsageQuantityBasis::Net);
    unsigned.quantity = amount(0.0);
    assert_eq!(signed, unsigned);
}
