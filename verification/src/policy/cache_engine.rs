//! What a policy decides about Actions caches.
use crate::model::{ActionsCache, ActionsCacheView, CacheInventorySnapshot, CacheInventorySnapshotView};
use crate::order::{
    key_less, lemma_key_less, lemma_place_in_order, lemma_sorted_contains, sort, sorted, tally, KeyPart, Order, Part,
};
use crate::policy::config::{CachePolicyDefaults, PolicyConfig, PolicyConfigView, PolicyRule, PolicyRuleView};
use crate::policy::engine::{
    days_are_over, expired, explain, explained, find_kept_by, give_verdict, has_expired, ids_of, kept_by, leads,
    lemma_kept_by, lemma_picked, lemma_picked_tally, lemma_ruled, lemma_settled, lemma_three_numbers, pick, picked,
    protection_comes_first, rule_ids, sets_retention, settle, settlement, some_rule_protects, the_latest_are_kept,
    verdict, Decision, DecisionReason, DecisionReasonView, PolicyEngine, ReasonCode, Settlement, SettlementView,
};
use crate::text::{decimal, join2, join3, join6, number};
use crate::time::Timestamp;
use crate::totals::{capped, count_of, occurrences};
use crate::value::{add_to, nothing, single, Value};
use vstd::prelude::*;

verus! {

/// What a policy decides about a cache.
#[derive(Clone, Debug, PartialEq, Eq)]
pub struct CacheDecision {
    pub cache_id: u64,
    pub repository: String,
    pub key: String,
    pub git_ref: String,
    pub size_in_bytes: u64,
    pub decision: Decision,
    pub effective_keep_days: Option<u64>,
    pub effective_keep_unused_days: Option<u64>,
    pub reasons: Vec<DecisionReason>,
}

/// The contents of [`CacheDecision`].
#[verifier::ext_equal]
pub struct CacheDecisionView {
    pub cache_id: u64,
    pub repository: Seq<char>,
    pub key: Seq<char>,
    pub git_ref: Seq<char>,
    pub size_in_bytes: u64,
    pub decision: Decision,
    pub effective_keep_days: Option<u64>,
    pub effective_keep_unused_days: Option<u64>,
    pub reasons: Seq<DecisionReasonView>,
}

impl DeepView for CacheDecision {
    type V = CacheDecisionView;

    open spec fn deep_view(&self) -> CacheDecisionView {
        CacheDecisionView {
            cache_id: self.cache_id,
            repository: self.repository.deep_view(),
            key: self.key.deep_view(),
            git_ref: self.git_ref.deep_view(),
            size_in_bytes: self.size_in_bytes,
            decision: self.decision,
            effective_keep_days: self.effective_keep_days,
            effective_keep_unused_days: self.effective_keep_unused_days,
            reasons: self.reasons.deep_view(),
        }
    }
}

/// What a policy decides about the caches of a scan.
#[derive(Clone, Debug, PartialEq, Eq)]
pub struct CacheClassificationReport {
    pub scanned_at: Timestamp,
    pub decisions: Vec<CacheDecision>,
}

/// The contents of [`CacheClassificationReport`].
#[verifier::ext_equal]
pub struct CacheClassificationReportView {
    pub scanned_at: Timestamp,
    pub decisions: Seq<CacheDecisionView>,
}

impl DeepView for CacheClassificationReport {
    type V = CacheClassificationReportView;

    open spec fn deep_view(&self) -> CacheClassificationReportView {
        CacheClassificationReportView {
            scanned_at: self.scanned_at,
            decisions: self.decisions.deep_view(),
        }
    }
}

/// Caches, the newest first.
pub struct NewestCache;

impl Order<ActionsCache> for NewestCache {
    open spec fn key(&self, value: ActionsCacheView) -> Seq<Part> {
        seq![
            Part::Number(-value.created_at.rank()),
            Part::Number(-value.last_accessed_at.rank()),
            Part::Number(-(value.id as int)),
        ]
    }

    fn key_of(&self, item: &ActionsCache) -> (result: Vec<KeyPart>) {
        let created: i128 = item.created_at.falling();
        let accessed: i128 = item.last_accessed_at.falling();
        let id: i128 = -(item.id as i128);
        let result = vec![KeyPart::Number(created), KeyPart::Number(accessed), KeyPart::Number(id)];
        assert(result.deep_view() =~= self.key(item.deep_view()));
        result
    }
}

/// Which rules match a cache.
pub open spec fn cache_row(rules: Seq<PolicyRuleView>, cache: ActionsCacheView) -> Seq<bool> {
    Seq::new(rules.len(), |j: int| rules[j].matches_cache(cache))
}

/// Which caches a rule matches.
pub open spec fn cache_column(rule: PolicyRuleView, caches: Seq<ActionsCacheView>) -> Seq<bool> {
    Seq::new(caches.len(), |i: int| rule.matches_cache(caches[i]))
}

/// The numbers of the first `n` caches.
pub open spec fn first_ids(caches: Seq<ActionsCacheView>, n: usize) -> Seq<u64> {
    Seq::new(
        if n < caches.len() {
            n as nat
        } else {
            caches.len()
        },
        |i: int| caches[i].id,
    )
}

/// The caches that a rule keeps as the latest of those that it matches.
pub open spec fn latest_caches(rule: PolicyRuleView, caches: Seq<ActionsCacheView>) -> Seq<u64> {
    match rule.keep_latest {
        Some(n) => first_ids(
            sorted::<ActionsCache, NewestCache>(picked(caches, cache_column(rule, caches)), NewestCache),
            n,
        ),
        None => Seq::empty(),
    }
}

/// For each rule, the caches that it keeps as the latest.
pub open spec fn cache_picks(rules: Seq<PolicyRuleView>, caches: Seq<ActionsCacheView>) -> Seq<Seq<u64>> {
    Seq::new(rules.len(), |j: int| latest_caches(rules[j], caches))
}

pub open spec fn cache_decision(
    cache: ActionsCacheView,
    decision: Decision,
    effective_keep_days: Option<u64>,
    effective_keep_unused_days: Option<u64>,
    reasons: Seq<DecisionReasonView>,
) -> CacheDecisionView {
    CacheDecisionView {
        cache_id: cache.id,
        repository: cache.repository.full_name,
        key: cache.key,
        git_ref: cache.git_ref,
        size_in_bytes: cache.size_in_bytes,
        decision,
        effective_keep_days,
        effective_keep_unused_days,
        reasons,
    }
}

/// A number of days as rules that do not agree are reported.
pub open spec fn days_text(days: Option<u64>) -> Seq<char> {
    match days {
        Some(days) => "Some("@ + decimal(days as nat) + ")"@,
        None => "None"@,
    }
}

fn describe_days(days: Option<u64>) -> (result: String)
    ensures
        result@ == days_text(days),
{
    match days {
        Some(days) => join3("Some(", number(days).as_str(), ")"),
        None => "None".to_string(),
    }
}

/// One reason for each rule that asks for other days than another.
pub open spec fn term_conflicts(rules: Seq<PolicyRuleView>) -> Seq<DecisionReasonView> {
    Seq::new(
        rules.len(),
        |i: int|
            DecisionReasonView {
                code: ReasonCode::ConflictingRetentionRules,
                rule_id: Some(rules[i].id),
                explanation: "equally specific cache rule "@ + rules[i].id + " requests keep_days = "@ + days_text(
                    rules[i].keep_days,
                ) + ", keep_unused_days = "@ + days_text(rules[i].keep_unused_days),
            },
    )
}

fn explain_term_conflicts(rules: &Vec<&PolicyRule>) -> (result: Vec<DecisionReason>)
    ensures
        result.deep_view() == term_conflicts(rules.deep_view()),
{
    let ghost all = term_conflicts(rules.deep_view());
    let mut result: Vec<DecisionReason> = nothing();
    let mut i: usize = 0;
    while i < rules.len()
        invariant
            i <= rules.len(),
            all == term_conflicts(rules.deep_view()),
            result.deep_view() == all.take(i as int),
        decreases rules.len() - i,
    {
        let keep_days = describe_days(rules[i].keep_days);
        let keep_unused_days = describe_days(rules[i].keep_unused_days);
        let reason = DecisionReason {
            code: ReasonCode::ConflictingRetentionRules,
            rule_id: Some(rules[i].id.copied()),
            explanation: join6(
                "equally specific cache rule ",
                rules[i].id.as_str(),
                " requests keep_days = ",
                keep_days.as_str(),
                ", keep_unused_days = ",
                keep_unused_days.as_str(),
            ),
        };
        assert(reason.deep_view() == all[i as int]);
        add_to(&mut result, reason);
        i = i + 1;
        assert(result.deep_view() =~= all.take(i as int));
    }
    assert(all.take(i as int) =~= all);
    result
}

/// Whether a time limit does not stand in the way of deletion.
pub open spec fn passed(age: int, days: Option<u64>) -> bool {
    match days {
        Some(days) => expired(age, days),
        None => true,
    }
}

fn has_passed(age: u64, days: Option<u64>) -> (result: bool)
    ensures
        result == passed(age as int, days),
{
    match days {
        Some(days) => has_expired(age, days),
        None => true,
    }
}

/// The reasons that stand for a time limit, which the rules in `ids` set or, without them, the
/// defaults.
pub open spec fn limit_reasons(
    code: ReasonCode,
    ids: Option<Seq<Seq<char>>>,
    explanation: Seq<char>,
) -> Seq<DecisionReasonView> {
    match ids {
        Some(ids) => explained(ids, code, explanation + " because of policy rule "@, ""@),
        None => seq![DecisionReasonView { code, rule_id: None, explanation: "default "@ + explanation }],
    }
}

fn push_reasons(reasons: &mut Vec<DecisionReason>, code: ReasonCode, ids: &Option<Vec<String>>, explanation: String)
    ensures
        final(reasons).deep_view() == old(reasons).deep_view() + limit_reasons(code, ids.deep_view(), explanation@),
{
    let more: Vec<DecisionReason> = match ids {
        Some(ids) => explain(ids, code, join2(explanation.as_str(), " because of policy rule ").as_str(), ""),
        None => single(
            DecisionReason { code, rule_id: None, explanation: join2("default ", explanation.as_str()) },
        ),
    };
    let ghost before = reasons.deep_view();
    let ghost added = more.deep_view();
    let mut more = more;
    reasons.append(&mut more);
    assert(reasons.deep_view() =~= before + added);
}

/// The reasons for deleting or keeping a cache, by how long it is kept since it was made and
/// since it was used.
pub open spec fn retention_reasons(
    age: int,
    unused: int,
    keep_days: Option<u64>,
    keep_unused_days: Option<u64>,
    ids: Option<Seq<Seq<char>>>,
) -> Seq<DecisionReasonView> {
    (match keep_days {
        Some(days) => limit_reasons(
            match (ids, expired(age, days)) {
                (None, true) => ReasonCode::DefaultRetentionExpired,
                (None, false) => ReasonCode::DefaultRetentionActive,
                (Some(_), true) => ReasonCode::RuleRetentionExpired,
                (Some(_), false) => ReasonCode::RuleRetentionActive,
            },
            ids,
            "cache creation retention is "@ + decimal(days as nat) + " day(s)"@,
        ),
        None => Seq::empty(),
    }) + (match keep_unused_days {
        Some(days) => limit_reasons(
            match (ids, expired(unused, days)) {
                (None, true) => ReasonCode::DefaultUnusedRetentionExpired,
                (None, false) => ReasonCode::DefaultUnusedRetentionActive,
                (Some(_), true) => ReasonCode::RuleUnusedRetentionExpired,
                (Some(_), false) => ReasonCode::RuleUnusedRetentionActive,
            },
            ids,
            "cache unused retention is "@ + decimal(days as nat) + " day(s)"@,
        ),
        None => Seq::empty(),
    })
}

fn evaluate_cache_retention(
    age: u64,
    unused: u64,
    keep_days: Option<u64>,
    keep_unused_days: Option<u64>,
    ids: Option<Vec<String>>,
) -> (result: (bool, Vec<DecisionReason>))
    ensures
        result.0 == (passed(age as int, keep_days) && passed(unused as int, keep_unused_days)),
        result.1.deep_view() == retention_reasons(
            age as int,
            unused as int,
            keep_days,
            keep_unused_days,
            ids.deep_view(),
        ),
{
    let created_expired = has_passed(age, keep_days);
    let unused_expired = has_passed(unused, keep_unused_days);
    let mut reasons: Vec<DecisionReason> = nothing();
    if let Some(days) = keep_days {
        let code = match (&ids, created_expired) {
            (None, true) => ReasonCode::DefaultRetentionExpired,
            (None, false) => ReasonCode::DefaultRetentionActive,
            (Some(_), true) => ReasonCode::RuleRetentionExpired,
            (Some(_), false) => ReasonCode::RuleRetentionActive,
        };
        let text = join3("cache creation retention is ", number(days).as_str(), " day(s)");
        push_reasons(&mut reasons, code, &ids, text);
    }
    let ghost first = reasons.deep_view();
    if let Some(days) = keep_unused_days {
        let code = match (&ids, unused_expired) {
            (None, true) => ReasonCode::DefaultUnusedRetentionExpired,
            (None, false) => ReasonCode::DefaultUnusedRetentionActive,
            (Some(_), true) => ReasonCode::RuleUnusedRetentionExpired,
            (Some(_), false) => ReasonCode::RuleUnusedRetentionActive,
        };
        let text = join3("cache unused retention is ", number(days).as_str(), " day(s)");
        push_reasons(&mut reasons, code, &ids, text);
    }
    assert(reasons.deep_view() =~= retention_reasons(
        age as int,
        unused as int,
        keep_days,
        keep_unused_days,
        ids.deep_view(),
    ));
    (created_expired && unused_expired, reasons)
}

/// What is decided about a cache, by what settles the matter.
pub open spec fn decide_cache(
    cache: ActionsCacheView,
    scanned_at: Timestamp,
    defaults: CachePolicyDefaults,
    settled: SettlementView,
) -> CacheDecisionView {
    let age = scanned_at.since(cache.created_at);
    let unused = scanned_at.since(cache.last_accessed_at);
    match settled {
        SettlementView::Protected(rules) => cache_decision(
            cache,
            Decision::Protected,
            None,
            None,
            explained(
                rule_ids(rules),
                ReasonCode::ExplicitProtection,
                "cache is explicitly protected by policy rule "@,
                ""@,
            ),
        ),
        SettlementView::Latest(ids) => cache_decision(
            cache,
            Decision::Keep,
            None,
            None,
            explained(
                ids,
                ReasonCode::KeepLatest,
                "cache is among the latest items retained by policy rule "@,
                ""@,
            ),
        ),
        SettlementView::Conflict(rules) => cache_decision(
            cache,
            Decision::ManualReview,
            None,
            None,
            term_conflicts(rules),
        ),
        SettlementView::Ruled(rules) => cache_decision(
            cache,
            verdict(passed(age, rules[0].keep_days) && passed(unused, rules[0].keep_unused_days)),
            rules[0].keep_days,
            rules[0].keep_unused_days,
            retention_reasons(age, unused, rules[0].keep_days, rules[0].keep_unused_days, Some(rule_ids(rules))),
        ),
        SettlementView::Default => cache_decision(
            cache,
            verdict(expired(age, defaults.keep_days) && passed(unused, defaults.keep_unused_days)),
            Some(defaults.keep_days),
            defaults.keep_unused_days,
            retention_reasons(age, unused, Some(defaults.keep_days), defaults.keep_unused_days, None),
        ),
    }
}

/// What a policy decides about a cache of a scan.
pub open spec fn classified_cache(
    config: PolicyConfigView,
    caches: Seq<ActionsCacheView>,
    cache: ActionsCacheView,
    scanned_at: Timestamp,
) -> CacheDecisionView {
    decide_cache(
        cache,
        scanned_at,
        config.defaults.caches,
        settlement(
            config.rules,
            cache_row(config.rules, cache),
            kept_by(config.rules, cache_picks(config.rules, caches), cache.id),
            true,
        ),
    )
}

/// What a policy decides about the caches of a scan.
pub open spec fn classified_caches(config: PolicyConfigView, snapshot: CacheInventorySnapshotView) -> CacheClassificationReportView {
    CacheClassificationReportView {
        scanned_at: snapshot.scanned_at,
        decisions: Seq::new(
            snapshot.caches.len(),
            |i: int|
                classified_cache(config, snapshot.caches, snapshot.caches[i], snapshot.scanned_at),
        ),
    }
}

fn decision(
    cache: &ActionsCache,
    value: Decision,
    effective_keep_days: Option<u64>,
    effective_keep_unused_days: Option<u64>,
    reasons: Vec<DecisionReason>,
) -> (result: CacheDecision)
    ensures
        result.deep_view() == cache_decision(
            cache.deep_view(),
            value,
            effective_keep_days,
            effective_keep_unused_days,
            reasons.deep_view(),
        ),
{
    CacheDecision {
        cache_id: cache.id,
        repository: cache.repository.full_name.copied(),
        key: cache.key.copied(),
        git_ref: cache.git_ref.copied(),
        size_in_bytes: cache.size_in_bytes,
        decision: value,
        effective_keep_days,
        effective_keep_unused_days,
        reasons,
    }
}

/// What is decided about a cache, by the rules that match it and the rules that keep it as one
/// of the latest.
pub fn classify_matched_cache(
    cache: &ActionsCache,
    scanned_at: Timestamp,
    config: &PolicyConfig,
    matched: &Vec<bool>,
    kept: Vec<String>,
) -> (result: CacheDecision)
    requires
        matched.len() == config.rules.len(),
    ensures
        result.deep_view() == decide_cache(
            cache.deep_view(),
            scanned_at,
            config.defaults.caches,
            settlement(config.deep_view().rules, matched@, kept.deep_view(), true),
        ),
{
    proof {
        lemma_ruled(config.deep_view().rules, matched@, kept.deep_view(), true);
    }
    let age: u64 = cache.age_seconds(scanned_at);
    let unused: u64 = cache.unused_seconds(scanned_at);
    match settle(&config.rules, matched, kept, true) {
        Settlement::Protected(rules) => {
            let reasons = explain(
                &ids_of(&rules),
                ReasonCode::ExplicitProtection,
                "cache is explicitly protected by policy rule ",
                "",
            );
            decision(cache, Decision::Protected, None, None, reasons)
        },
        Settlement::Latest(ids) => {
            let reasons = explain(
                &ids,
                ReasonCode::KeepLatest,
                "cache is among the latest items retained by policy rule ",
                "",
            );
            decision(cache, Decision::Keep, None, None, reasons)
        },
        Settlement::Conflict(rules) => {
            let reasons = explain_term_conflicts(&rules);
            decision(cache, Decision::ManualReview, None, None, reasons)
        },
        Settlement::Ruled(rules) => {
            assert(rules.deep_view()[0] == rules@[0].deep_view());
            let keep_days = rules[0].keep_days;
            let keep_unused_days = rules[0].keep_unused_days;
            let (delete, reasons) = evaluate_cache_retention(
                age,
                unused,
                keep_days,
                keep_unused_days,
                Some(ids_of(&rules)),
            );
            decision(cache, give_verdict(delete), keep_days, keep_unused_days, reasons)
        },
        Settlement::Default => {
            let defaults = config.defaults.caches;
            let (delete, reasons) = evaluate_cache_retention(
                age,
                unused,
                Some(defaults.keep_days),
                defaults.keep_unused_days,
                None,
            );
            decision(cache, give_verdict(delete), Some(defaults.keep_days), defaults.keep_unused_days, reasons)
        },
    }
}

impl PolicyEngine {
    /// Which rules match a cache.
    fn match_cache(&self, cache: &ActionsCache) -> (result: Vec<bool>)
        requires
            self.policy().compiles(),
        ensures
            result@ == cache_row(self.policy().rules, cache.deep_view()),
    {
        let config = self.config();
        let ghost rules = self.policy().rules;
        let mut result: Vec<bool> = Vec::new();
        let mut j: usize = 0;
        while j < config.rules.len()
            invariant
                j <= config.rules.len(),
                rules == config.rules.deep_view(),
                self.policy().rules == rules,
                self.policy() == config.deep_view(),
                self.policy().compiles(),
                result.len() == j,
                forall|k: int| 0 <= k < j ==> result@[k] == (#[trigger] rules[k]).matches_cache(cache.deep_view()),
            decreases config.rules.len() - j,
        {
            assert(rules[j as int] == config.rules@[j as int].deep_view());
            result.push(config.rules[j].matches_cache(cache));
            j = j + 1;
        }
        assert(result@ =~= cache_row(rules, cache.deep_view()));
        result
    }

    /// For each rule, the caches that it keeps as the latest.
    fn cache_keep_latest_selections(&self, caches: &Vec<ActionsCache>) -> (result: Vec<Vec<u64>>)
        requires
            self.policy().compiles(),
        ensures
            result.deep_view() == cache_picks(self.policy().rules, caches.deep_view()),
            result.len() == self.policy().rules.len(),
    {
        let config = self.config();
        let ghost rules = self.policy().rules;
        let ghost all = cache_picks(rules, caches.deep_view());
        let mut result: Vec<Vec<u64>> = nothing();
        let mut j: usize = 0;
        while j < config.rules.len()
            invariant
                j <= config.rules.len(),
                rules == config.rules.deep_view(),
                self.policy().rules == rules,
                self.policy() == config.deep_view(),
                self.policy().compiles(),
                all == cache_picks(rules, caches.deep_view()),
                result.len() == j,
                result.deep_view() == all.take(j as int),
            decreases config.rules.len() - j,
        {
            assert(rules[j as int] == config.rules@[j as int].deep_view());
            let picks = select_latest_caches(&config.rules[j], caches);
            add_to(&mut result, picks);
            j = j + 1;
            assert(result.deep_view() =~= all.take(j as int));
        }
        assert(all.take(j as int) =~= all);
        result
    }

    /// What the policy decides about the caches of a scan.
    pub fn classify_cache_snapshot(&self, snapshot: &CacheInventorySnapshot) -> (result: CacheClassificationReport)
        requires
            self.policy().compiles(),
        ensures
            result.deep_view() == classified_caches(self.policy(), snapshot.deep_view()),
    {
        let config = self.config();
        let picks = self.cache_keep_latest_selections(&snapshot.caches);
        let ghost all = classified_caches(self.policy(), snapshot.deep_view()).decisions;
        let ghost caches = snapshot.caches.deep_view();
        let mut decisions: Vec<CacheDecision> = nothing();
        let mut i: usize = 0;
        while i < snapshot.caches.len()
            invariant
                i <= snapshot.caches.len(),
                self.policy().compiles(),
                caches == snapshot.caches.deep_view(),
                all == classified_caches(self.policy(), snapshot.deep_view()).decisions,
                picks.deep_view() == cache_picks(self.policy().rules, caches),
                picks.len() == config.rules.len(),
                self.policy() == config.deep_view(),
                decisions.deep_view() == all.take(i as int),
            decreases snapshot.caches.len() - i,
        {
            let cache = &snapshot.caches[i];
            assert(caches[i as int] == cache.deep_view());
            let matched = self.match_cache(cache);
            let kept = find_kept_by(&config.rules, &picks, &cache.id);
            let decided = classify_matched_cache(cache, snapshot.scanned_at, config, &matched, kept);
            assert(decided.deep_view() == all[i as int]);
            add_to(&mut decisions, decided);
            i = i + 1;
            assert(decisions.deep_view() =~= all.take(i as int));
        }
        assert(all.take(i as int) =~= all);
        CacheClassificationReport { scanned_at: snapshot.scanned_at, decisions }
    }
}

/// The caches that a rule keeps as the latest of those that it matches.
fn select_latest_caches(rule: &PolicyRule, caches: &Vec<ActionsCache>) -> (result: Vec<u64>)
    requires
        rule.deep_view().compiles(),
    ensures
        result.deep_view() == latest_caches(rule.deep_view(), caches.deep_view()),
{
    let keep: usize = match rule.keep_latest {
        Some(n) => n,
        None => {
            return nothing();
        },
    };
    let ghost all = caches.deep_view();
    let mut matched: Vec<bool> = Vec::new();
    let mut i: usize = 0;
    while i < caches.len()
        invariant
            i <= caches.len(),
            rule.deep_view().compiles(),
            all == caches.deep_view(),
            matched.len() == i,
            forall|k: int| 0 <= k < i ==> matched@[k] == rule.deep_view().matches_cache(#[trigger] all[k]),
        decreases caches.len() - i,
    {
        assert(all[i as int] == caches@[i as int].deep_view());
        matched.push(rule.matches_cache(&caches[i]));
        i = i + 1;
    }
    assert(matched@ =~= cache_column(rule.deep_view(), all));
    let newest = sort(pick(caches, &matched), &NewestCache);
    let ghost ordered = newest.deep_view();
    let ghost wanted = first_ids(ordered, keep);
    let mut result: Vec<u64> = nothing();
    let mut k: usize = 0;
    while k < keep && k < newest.len()
        invariant
            k <= keep,
            k <= newest.len(),
            ordered == newest.deep_view(),
            wanted == first_ids(ordered, keep),
            result.deep_view() == wanted.take(k as int),
        decreases newest.len() - k,
    {
        assert(ordered[k as int] == newest@[k as int].deep_view());
        add_to(&mut result, newest[k].id);
        k = k + 1;
        assert(result.deep_view() =~= wanted.take(k as int));
    }
    assert(wanted.take(k as int) =~= wanted);
    result
}

/// What was decided, item by item.
pub open spec fn verdicts(decisions: Seq<CacheDecisionView>) -> Seq<Decision> {
    Seq::new(decisions.len(), |i: int| decisions[i].decision)
}

/// The storage that the deletions would free.
pub open spec fn reclaimable(decisions: Seq<CacheDecisionView>) -> nat
    decreases decisions.len(),
{
    if decisions.len() == 0 {
        0
    } else {
        reclaimable(decisions.drop_last()) + if decisions.last().decision == Decision::Delete {
            decisions.last().size_in_bytes as nat
        } else {
            0nat
        }
    }
}

impl CacheClassificationReport {
    /// How often a decision was taken.
    pub fn count(&self, decision: Decision) -> (result: usize)
        ensures
            result == occurrences(verdicts(self.deep_view().decisions), decision),
    {
        let ghost all = verdicts(self.decisions.deep_view());
        let mut labels: Vec<Decision> = nothing();
        let mut i: usize = 0;
        while i < self.decisions.len()
            invariant
                i <= self.decisions.len(),
                all == verdicts(self.decisions.deep_view()),
                labels.deep_view() == all.take(i as int),
            decreases self.decisions.len() - i,
        {
            add_to(&mut labels, self.decisions[i].decision);
            i = i + 1;
            assert(labels.deep_view() =~= all.take(i as int));
        }
        assert(all.take(i as int) =~= all);
        count_of(&labels, &decision)
    }

    /// The storage that the deletions would free, or the largest `u64` where it is more.
    pub fn reclaimable_bytes(&self) -> (result: u64)
        ensures
            result == capped(reclaimable(self.deep_view().decisions)),
    {
        let ghost all = self.decisions.deep_view();
        let mut bytes: u64 = 0;
        let mut i: usize = 0;
        assert(all.take(0) =~= Seq::empty());
        while i < self.decisions.len()
            invariant
                i <= self.decisions.len(),
                all == self.decisions.deep_view(),
                bytes == capped(reclaimable(all.take(i as int))),
            decreases self.decisions.len() - i,
        {
            assert(all.take(i + 1).drop_last() =~= all.take(i as int));
            assert(all.take(i + 1).last() == self.decisions@[i as int].deep_view());
            if self.decisions[i].decision == Decision::Delete {
                bytes = bytes.saturating_add(self.decisions[i].size_in_bytes);
            }
            i = i + 1;
        }
        assert(all.take(i as int) =~= all);
        bytes
    }
}

/// A cache is deleted only if nothing protects it, no rule keeps it as one of the latest, and
/// every limit that was found for it, since it was made and since it was used, has passed.
pub proof fn only_expired_caches_are_deleted(
    config: PolicyConfigView,
    caches: Seq<ActionsCacheView>,
    cache: ActionsCacheView,
    scanned_at: Timestamp,
)
    requires
        classified_cache(config, caches, cache, scanned_at).decision == Decision::Delete,
    ensures
        forall|j: int|
            0 <= j < config.rules.len() && (#[trigger] config.rules[j]).matches_cache(cache)
                ==> config.rules[j].protect != Some(true),
        kept_by(config.rules, cache_picks(config.rules, caches), cache.id).len() == 0,
        ({
            let decided = classified_cache(config, caches, cache, scanned_at);
            &&& decided.effective_keep_days is Some || decided.effective_keep_unused_days is Some
            &&& passed(scanned_at.since(cache.created_at), decided.effective_keep_days)
            &&& passed(scanned_at.since(cache.last_accessed_at), decided.effective_keep_unused_days)
        }),
{
    let row = cache_row(config.rules, cache);
    let kept = kept_by(config.rules, cache_picks(config.rules, caches), cache.id);
    lemma_ruled(config.rules, row, kept, true);
    assert forall|j: int|
        0 <= j < config.rules.len() && (#[trigger] config.rules[j]).matches_cache(cache) implies config.rules[j].protect
        != Some(true) by {
        if config.rules[j].protect == Some(true) {
            assert(row[j]);
            protection_comes_first(config.rules, row, kept, true, j);
        }
    }
    if kept.len() > 0 {
        the_latest_are_kept(config.rules, row, kept, true);
    }
}

/// Whether one cache is newer than another: made later or, if at the same time, used later or, if
/// that at the same time too, of a higher number.
pub open spec fn newer_cache(a: ActionsCacheView, b: ActionsCacheView) -> bool {
    ||| a.created_at.rank() > b.created_at.rank()
    ||| a.created_at.rank() == b.created_at.rank() && a.last_accessed_at.rank() > b.last_accessed_at.rank()
    ||| a.created_at.rank() == b.created_at.rank() && a.last_accessed_at.rank() == b.last_accessed_at.rank() && a.id
        > b.id
}

/// Whether a rule matches a cache and keeps more of the latest than there are newer ones.
pub open spec fn keeps_cache(rule: PolicyRuleView, caches: Seq<ActionsCacheView>, cache: ActionsCacheView) -> bool {
    rule.matches_cache(cache) && rule.keep_latest is Some && tally(
        caches,
        |c: ActionsCacheView| rule.matches_cache(c) && newer_cache(c, cache),
    ) < rule.keep_latest->0
}

/// No two of the caches have the same number.
pub open spec fn numbered_apart(caches: Seq<ActionsCacheView>) -> bool {
    forall|i: int, j: int| 0 <= i < j < caches.len() ==> (#[trigger] caches[i]).id != (#[trigger] caches[j]).id
}

proof fn lemma_latest_caches(rule: PolicyRuleView, caches: Seq<ActionsCacheView>, cache: ActionsCacheView)
    requires
        caches.contains(cache),
    ensures
        keeps_cache(rule, caches, cache) ==> latest_caches(rule, caches).contains(cache.id),
        numbered_apart(caches) && latest_caches(rule, caches).contains(cache.id) ==> keeps_cache(rule, caches, cache),
{
    let column = cache_column(rule, caches);
    let matching = picked(caches, column);
    let order = NewestCache;
    let ordered = sorted::<ActionsCache, NewestCache>(matching, order);
    lemma_picked(caches, column);
    let at = choose|i: int| 0 <= i < caches.len() && caches[i] == cache;
    let less = |y: ActionsCacheView| key_less(order.key(y), order.key(cache));
    let newer = |c: ActionsCacheView| rule.matches_cache(c) && newer_cache(c, cache);
    assert forall|i: int| 0 <= i < caches.len() implies newer(#[trigger] caches[i]) == (column[i] && less(caches[i])) by {
        let c = caches[i];
        lemma_three_numbers(
            -c.created_at.rank(),
            -c.last_accessed_at.rank(),
            -(c.id as int),
            -cache.created_at.rank(),
            -cache.last_accessed_at.rank(),
            -(cache.id as int),
        );
    }
    lemma_picked_tally(caches, column, less, newer);
    let place = tally(matching, less) as int;
    let ids = latest_caches(rule, caches);
    if rule.matches_cache(cache) {
        assert(caches[at] == cache && column[at]);
        assert(matching.contains(cache));
        lemma_place_in_order::<ActionsCache, NewestCache>(matching, order, cache);
    }
    if keeps_cache(rule, caches, cache) {
        assert(order.key(ordered[place])[2] == Part::Number(-(ordered[place].id as int)));
        assert(order.key(cache)[2] == Part::Number(-(cache.id as int)));
        assert(ids[place] == cache.id);
    }
    if numbered_apart(caches) && ids.contains(cache.id) {
        let k = choose|k: int| 0 <= k < ids.len() && ids[k] == cache.id;
        assert(ordered.contains(ordered[k]));
        lemma_sorted_contains::<ActionsCache, NewestCache>(matching, order, ordered[k]);
        assert(matching.contains(ordered[k]));
        let i = choose|i: int| 0 <= i < caches.len() && column[i] && #[trigger] caches[i] == ordered[k];
        assert(caches[i].id == caches[at].id);
        assert(i == at);
        lemma_key_less(order.key(cache), order.key(cache));
        assert(k >= place);
    }
}

/// A rule keeps the latest of the caches that it matches: one than which fewer are newer than the
/// rule keeps is never deleted, and needs no person.
pub proof fn the_newest_caches_stay(
    config: PolicyConfigView,
    caches: Seq<ActionsCacheView>,
    cache: ActionsCacheView,
    scanned_at: Timestamp,
    j: int,
)
    requires
        caches.contains(cache),
        0 <= j < config.rules.len(),
        keeps_cache(config.rules[j], caches, cache),
    ensures
        ({
            let decided = classified_cache(config, caches, cache, scanned_at);
            &&& decided.decision == Decision::Keep || decided.decision == Decision::Protected
            &&& decided.effective_keep_days is None
            &&& decided.effective_keep_unused_days is None
        }),
{
    let picks = cache_picks(config.rules, caches);
    lemma_latest_caches(config.rules[j], caches, cache);
    assert(picks[j].contains(cache.id));
    lemma_kept_by(config.rules, picks, cache.id);
    lemma_settled(config.rules, cache_row(config.rules, cache), kept_by(config.rules, picks, cache.id), true);
}

/// What a rule protects is never deleted, whatever else the rules say.
pub proof fn protected_caches_stay(
    config: PolicyConfigView,
    caches: Seq<ActionsCacheView>,
    cache: ActionsCacheView,
    scanned_at: Timestamp,
    j: int,
)
    requires
        0 <= j < config.rules.len(),
        config.rules[j].matches_cache(cache),
        config.rules[j].protect == Some(true),
    ensures
        classified_cache(config, caches, cache, scanned_at).decision == Decision::Protected,
{
    let picks = cache_picks(config.rules, caches);
    let row = cache_row(config.rules, cache);
    assert(row[j]);
    lemma_settled(config.rules, row, kept_by(config.rules, picks, cache.id), true);
}

/// Whether the days since something, where days are set at all, are over.
pub open spec fn none_or_over(age: int, days: Option<u64>) -> bool {
    days is Some ==> days_are_over(age, days->0)
}

/// A cache that no rule protects and none keeps as one of the latest is decided about by its age
/// and by how long it was not used. It is deleted where both the days since it was made and the
/// days since it was used are over, as far as they are set. They are set by the most specific
/// rules that match it and set any days; only without such a rule the defaults count.
pub proof fn age_and_use_decide_about_other_caches(
    config: PolicyConfigView,
    caches: Seq<ActionsCacheView>,
    cache: ActionsCacheView,
    scanned_at: Timestamp,
)
    requires
        caches.contains(cache),
        numbered_apart(caches),
        forall|j: int|
            0 <= j < config.rules.len() ==> !((#[trigger] config.rules[j]).matches_cache(cache)
                && config.rules[j].protect == Some(true)) && !keeps_cache(config.rules[j], caches, cache),
    ensures
        ({
            let decided = classified_cache(config, caches, cache, scanned_at);
            let matched = Seq::new(config.rules.len(), |j: int| config.rules[j].matches_cache(cache));
            let disagree = exists|j: int, k: int| #[trigger]
                leads(config.rules, matched, true, j) && #[trigger] leads(config.rules, matched, true, k) && (
                config.rules[j].keep_days != config.rules[k].keep_days || config.rules[j].keep_unused_days
                    != config.rules[k].keep_unused_days);
            &&& decided.decision == Decision::ManualReview <==> disagree
            &&& !disagree ==> (decided.decision == Decision::Delete <==> none_or_over(
                scanned_at.since(cache.created_at),
                decided.effective_keep_days,
            ) && none_or_over(scanned_at.since(cache.last_accessed_at), decided.effective_keep_unused_days))
            &&& !disagree ==> decided.decision == Decision::Delete || decided.decision == Decision::Keep
            &&& forall|j: int| #[trigger]
                leads(config.rules, matched, true, j) && !disagree ==> decided.effective_keep_days
                    == config.rules[j].keep_days && decided.effective_keep_unused_days
                    == config.rules[j].keep_unused_days
            &&& (forall|j: int| !#[trigger] sets_retention(config.rules, matched, true, j))
                ==> decided.effective_keep_days == Some(config.defaults.caches.keep_days)
                && decided.effective_keep_unused_days == config.defaults.caches.keep_unused_days
        }),
{
    let rules = config.rules;
    let picks = cache_picks(rules, caches);
    let row = cache_row(rules, cache);
    let matched = Seq::new(rules.len(), |j: int| rules[j].matches_cache(cache));
    assert(row =~= matched);
    let kept = kept_by(rules, picks, cache.id);
    lemma_kept_by(rules, picks, cache.id);
    if kept.len() > 0 {
        let j = choose|j: int| 0 <= j < picks.len() && (#[trigger] picks[j]).contains(cache.id);
        lemma_latest_caches(rules[j], caches, cache);
        assert(keeps_cache(rules[j], caches, cache));
    }
    if some_rule_protects(rules, matched) {
        let j = choose|j: int| 0 <= j < rules.len() && matched[j] && (#[trigger] rules[j]).protect == Some(true);
        assert(rules[j].matches_cache(cache));
    }
    lemma_settled(rules, row, kept, true);
}

/// Every cache of a scan is decided about, in its place.
pub proof fn every_cache_gets_its_decision(config: PolicyConfigView, snapshot: CacheInventorySnapshotView)
    ensures
        ({
            let report = classified_caches(config, snapshot);
            &&& report.scanned_at == snapshot.scanned_at
            &&& report.decisions.len() == snapshot.caches.len()
            &&& forall|i: int|
                0 <= i < snapshot.caches.len() ==> ({
                    let decided = #[trigger] report.decisions[i];
                    let cache = snapshot.caches[i];
                    &&& decided == classified_cache(config, snapshot.caches, cache, snapshot.scanned_at)
                    &&& decided.cache_id == cache.id
                    &&& decided.repository == cache.repository.full_name
                    &&& decided.key == cache.key
                    &&& decided.git_ref == cache.git_ref
                    &&& decided.size_in_bytes == cache.size_in_bytes
                })
        }),
{
}

/// The reasons for what happens to a cache name the rules, each by its id, or the defaults; there is one
/// for the days since it was made and one for the days since it was used, as far as they are set, and
/// each says whether those days are over.
pub proof fn reasons_say_which_days_are_over(
    age: int,
    unused: int,
    keep_days: Option<u64>,
    keep_unused_days: Option<u64>,
    ids: Seq<Seq<char>>,
    i: int,
)
    ensures
        ({
            let by_rules = retention_reasons(age, unused, keep_days, keep_unused_days, Some(ids));
            let by_default = retention_reasons(age, unused, keep_days, keep_unused_days, None);
            let of_age: int = if keep_days is Some {
                1
            } else {
                0
            };
            let of_use: int = if keep_unused_days is Some {
                1
            } else {
                0
            };
            let first = by_rules[i];
            let second = by_rules[of_age * ids.len() + i];
            &&& by_rules.len() == of_age * ids.len() + of_use * ids.len()
            &&& by_default.len() == of_age + of_use
            &&& keep_days is Some && 0 <= i < ids.len() ==> first.rule_id == Some(ids[i]) && (days_are_over(
                age,
                keep_days->0,
            ) ==> first.code is RuleRetentionExpired) && (!days_are_over(age, keep_days->0) ==> first.code
                is RuleRetentionActive)
            &&& keep_unused_days is Some && 0 <= i < ids.len() ==> second.rule_id == Some(ids[i]) && (days_are_over(
                unused,
                keep_unused_days->0,
            ) ==> second.code is RuleUnusedRetentionExpired) && (!days_are_over(unused, keep_unused_days->0)
                ==> second.code is RuleUnusedRetentionActive)
            &&& keep_days is Some ==> by_default[0].rule_id is None && (days_are_over(age, keep_days->0)
                ==> by_default[0].code is DefaultRetentionExpired) && (!days_are_over(age, keep_days->0)
                ==> by_default[0].code is DefaultRetentionActive)
            &&& keep_unused_days is Some ==> by_default[of_age].rule_id is None && (days_are_over(
                unused,
                keep_unused_days->0,
            ) ==> by_default[of_age].code is DefaultUnusedRetentionExpired) && (!days_are_over(
                unused,
                keep_unused_days->0,
            ) ==> by_default[of_age].code is DefaultUnusedRetentionActive)
        }),
{
}

/// Every decision about a cache that does not rest on days says which rules it rests on: those that
/// protect it, that keep it as one of the latest, or that disagree.
pub proof fn a_decision_about_a_cache_says_why(
    cache: ActionsCacheView,
    scanned_at: Timestamp,
    defaults: CachePolicyDefaults,
    settled: SettlementView,
    i: int,
)
    ensures
        ({
            let decided = decide_cache(cache, scanned_at, defaults, settled);
            let reason = decided.reasons[i];
            &&& settled matches SettlementView::Protected(rules) ==> decided.reasons.len() == rules.len() && (0 <= i
                < rules.len() ==> reason.code is ExplicitProtection && reason.rule_id == Some(rules[i].id))
            &&& settled matches SettlementView::Latest(ids) ==> decided.reasons.len() == ids.len() && (0 <= i < ids.len()
                ==> reason.code is KeepLatest && reason.rule_id == Some(ids[i]))
            &&& settled matches SettlementView::Conflict(rules) ==> decided.reasons.len() == rules.len() && (0 <= i
                < rules.len() ==> reason.code is ConflictingRetentionRules && reason.rule_id == Some(rules[i].id))
        }),
{
}

} // verus!
