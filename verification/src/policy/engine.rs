//! What a policy decides about artifacts; and, for everything that it decides about, which of
//! its rules settle the matter.
use crate::model::{Artifact, ArtifactView, InventorySnapshot, InventorySnapshotView};
use crate::order::{
    key_less, lemma_place_in_order, lemma_sorted_contains, sort, sorted, tally, KeyPart, Order, Part,
};
use crate::policy::config::{
    rules_problem, PolicyConfig, PolicyConfigView, PolicyDefaults, PolicyError, PolicyRule, PolicyRuleView,
};
use crate::text::{decimal, join3, join4, number};
use crate::time::Timestamp;
use crate::totals::{capped, count_of, occurrences};
use crate::value::{add_to, nothing, single, Value};
use vstd::prelude::*;

verus! {

pub const SECONDS_PER_DAY: u64 = 86_400;

/// What is to become of something.
#[derive(Clone, Copy, Debug, PartialEq, Eq, Structural)]
pub enum Decision {
    Keep,
    Delete,
    Protected,
    ManualReview,
}

impl DeepView for Decision {
    type V = Decision;

    open spec fn deep_view(&self) -> Decision {
        *self
    }
}

impl Value for Decision {
    fn copied(&self) -> (result: Self) {
        *self
    }

    fn same(&self, other: &Self) -> (result: bool) {
        *self == *other
    }
}

/// The kind of a reason.
#[derive(Clone, Copy, Debug, PartialEq, Eq, Structural)]
pub enum ReasonCode {
    DefaultRetentionActive,
    DefaultRetentionExpired,
    DefaultUnusedRetentionActive,
    DefaultUnusedRetentionExpired,
    RuleRetentionActive,
    RuleRetentionExpired,
    RuleUnusedRetentionActive,
    RuleUnusedRetentionExpired,
    ExplicitProtection,
    KeepLatest,
    ConflictingRetentionRules,
    RunNotCompleted,
}

impl DeepView for ReasonCode {
    type V = ReasonCode;

    open spec fn deep_view(&self) -> ReasonCode {
        *self
    }
}

impl Value for ReasonCode {
    fn copied(&self) -> (result: Self) {
        *self
    }

    fn same(&self, other: &Self) -> (result: bool) {
        *self == *other
    }
}

impl ReasonCode {
    pub open spec fn text(self) -> Seq<char> {
        match self {
            ReasonCode::DefaultRetentionActive => "default_retention_active"@,
            ReasonCode::DefaultRetentionExpired => "default_retention_expired"@,
            ReasonCode::DefaultUnusedRetentionActive => "default_unused_retention_active"@,
            ReasonCode::DefaultUnusedRetentionExpired => "default_unused_retention_expired"@,
            ReasonCode::RuleRetentionActive => "rule_retention_active"@,
            ReasonCode::RuleRetentionExpired => "rule_retention_expired"@,
            ReasonCode::RuleUnusedRetentionActive => "rule_unused_retention_active"@,
            ReasonCode::RuleUnusedRetentionExpired => "rule_unused_retention_expired"@,
            ReasonCode::ExplicitProtection => "explicit_protection"@,
            ReasonCode::KeepLatest => "keep_latest"@,
            ReasonCode::ConflictingRetentionRules => "conflicting_retention_rules"@,
            ReasonCode::RunNotCompleted => "run_not_completed"@,
        }
    }

    /// The code as it is stored and shown.
    pub fn as_str(self) -> (result: &'static str)
        ensures
            result@ == self.text(),
    {
        match self {
            ReasonCode::DefaultRetentionActive => "default_retention_active",
            ReasonCode::DefaultRetentionExpired => "default_retention_expired",
            ReasonCode::DefaultUnusedRetentionActive => "default_unused_retention_active",
            ReasonCode::DefaultUnusedRetentionExpired => "default_unused_retention_expired",
            ReasonCode::RuleRetentionActive => "rule_retention_active",
            ReasonCode::RuleRetentionExpired => "rule_retention_expired",
            ReasonCode::RuleUnusedRetentionActive => "rule_unused_retention_active",
            ReasonCode::RuleUnusedRetentionExpired => "rule_unused_retention_expired",
            ReasonCode::ExplicitProtection => "explicit_protection",
            ReasonCode::KeepLatest => "keep_latest",
            ReasonCode::ConflictingRetentionRules => "conflicting_retention_rules",
            ReasonCode::RunNotCompleted => "run_not_completed",
        }
    }
}

/// A reason for a decision.
#[derive(Clone, Debug, PartialEq, Eq)]
pub struct DecisionReason {
    pub code: ReasonCode,
    pub rule_id: Option<String>,
    pub explanation: String,
}

/// The contents of [`DecisionReason`].
#[verifier::ext_equal]
pub struct DecisionReasonView {
    pub code: ReasonCode,
    pub rule_id: Option<Seq<char>>,
    pub explanation: Seq<char>,
}

impl DeepView for DecisionReason {
    type V = DecisionReasonView;

    open spec fn deep_view(&self) -> DecisionReasonView {
        DecisionReasonView {
            code: self.code,
            rule_id: self.rule_id.deep_view(),
            explanation: self.explanation.deep_view(),
        }
    }
}

/// What a policy decides about an artifact.
#[derive(Clone, Debug, PartialEq, Eq)]
pub struct ArtifactDecision {
    pub artifact_id: u64,
    pub repository: String,
    pub artifact_name: String,
    pub size_in_bytes: u64,
    pub decision: Decision,
    pub effective_keep_days: Option<u64>,
    pub reasons: Vec<DecisionReason>,
}

/// The contents of [`ArtifactDecision`].
#[verifier::ext_equal]
pub struct ArtifactDecisionView {
    pub artifact_id: u64,
    pub repository: Seq<char>,
    pub artifact_name: Seq<char>,
    pub size_in_bytes: u64,
    pub decision: Decision,
    pub effective_keep_days: Option<u64>,
    pub reasons: Seq<DecisionReasonView>,
}

impl DeepView for ArtifactDecision {
    type V = ArtifactDecisionView;

    open spec fn deep_view(&self) -> ArtifactDecisionView {
        ArtifactDecisionView {
            artifact_id: self.artifact_id,
            repository: self.repository.deep_view(),
            artifact_name: self.artifact_name.deep_view(),
            size_in_bytes: self.size_in_bytes,
            decision: self.decision,
            effective_keep_days: self.effective_keep_days,
            reasons: self.reasons.deep_view(),
        }
    }
}

/// What a policy decides about the artifacts of a scan.
#[derive(Clone, Debug, PartialEq, Eq)]
pub struct ClassificationReport {
    pub scanned_at: Timestamp,
    pub decisions: Vec<ArtifactDecision>,
}

/// The contents of [`ClassificationReport`].
#[verifier::ext_equal]
pub struct ClassificationReportView {
    pub scanned_at: Timestamp,
    pub decisions: Seq<ArtifactDecisionView>,
}

impl DeepView for ClassificationReport {
    type V = ClassificationReportView;

    open spec fn deep_view(&self) -> ClassificationReportView {
        ClassificationReportView {
            scanned_at: self.scanned_at,
            decisions: self.decisions.deep_view(),
        }
    }
}

// ---------------------------------------------------------------------------------------------
// Which rules settle the matter.
// ---------------------------------------------------------------------------------------------

/// The elements of `items` that are matched.
pub open spec fn picked<V>(items: Seq<V>, matched: Seq<bool>) -> Seq<V>
    decreases items.len(),
{
    if items.len() == 0 {
        Seq::empty()
    } else {
        let rest = picked(items.drop_last(), matched.take(items.len() - 1));
        if matched[items.len() - 1] {
            rest.push(items.last())
        } else {
            rest
        }
    }
}

/// The rules that protect.
pub open spec fn protecting(rules: Seq<PolicyRuleView>) -> Seq<PolicyRuleView>
    decreases rules.len(),
{
    if rules.len() == 0 {
        Seq::empty()
    } else if rules.last().protect == Some(true) {
        protecting(rules.drop_last()).push(rules.last())
    } else {
        protecting(rules.drop_last())
    }
}

/// How long a rule keeps something: since it was made and, where that counts, since it was
/// used.
pub open spec fn terms(rule: PolicyRuleView, unused: bool) -> (Option<u64>, Option<u64>) {
    (
        rule.keep_days,
        if unused {
            rule.keep_unused_days
        } else {
            None
        },
    )
}

/// The rules that say how long something is kept.
pub open spec fn retaining(rules: Seq<PolicyRuleView>, unused: bool) -> Seq<PolicyRuleView>
    decreases rules.len(),
{
    if rules.len() == 0 {
        Seq::empty()
    } else if terms(rules.last(), unused) != (None::<u64>, None::<u64>) {
        retaining(rules.drop_last(), unused).push(rules.last())
    } else {
        retaining(rules.drop_last(), unused)
    }
}

/// The highest specificity among the rules.
pub open spec fn top_specificity(rules: Seq<PolicyRuleView>) -> nat
    decreases rules.len(),
{
    if rules.len() == 0 {
        0
    } else {
        let rest = top_specificity(rules.drop_last());
        if rules.last().specificity() > rest {
            rules.last().specificity()
        } else {
            rest
        }
    }
}

/// The rules of a given specificity.
pub open spec fn as_specific(rules: Seq<PolicyRuleView>, specificity: nat) -> Seq<PolicyRuleView>
    decreases rules.len(),
{
    if rules.len() == 0 {
        Seq::empty()
    } else if rules.last().specificity() == specificity {
        as_specific(rules.drop_last(), specificity).push(rules.last())
    } else {
        as_specific(rules.drop_last(), specificity)
    }
}

/// The most specific of the rules.
pub open spec fn most_specific(rules: Seq<PolicyRuleView>) -> Seq<PolicyRuleView> {
    as_specific(rules, top_specificity(rules))
}

/// Whether the rules say the same.
pub open spec fn agree(rules: Seq<PolicyRuleView>, unused: bool) -> bool {
    forall|i: int| 0 <= i < rules.len() ==> terms(#[trigger] rules[i], unused) == terms(rules[0], unused)
}

/// What settles the matter.
#[verifier::ext_equal]
pub enum SettlementView {
    /// Rules that protect.
    Protected(Seq<PolicyRuleView>),
    /// Rules that keep the latest, by their ids.
    Latest(Seq<Seq<char>>),
    /// The most specific rules, which do not agree.
    Conflict(Seq<PolicyRuleView>),
    /// The most specific rules, which agree.
    Ruled(Seq<PolicyRuleView>),
    /// No rule.
    Default,
}

/// What settles the matter, by the rules that match and the rules that keep it as one of the
/// latest. `unused` tells whether the time since the last use counts.
pub open spec fn settlement(
    rules: Seq<PolicyRuleView>,
    matched: Seq<bool>,
    kept_by: Seq<Seq<char>>,
    unused: bool,
) -> SettlementView {
    let matching = picked(rules, matched);
    if protecting(matching).len() > 0 {
        SettlementView::Protected(protecting(matching))
    } else if kept_by.len() > 0 {
        SettlementView::Latest(kept_by)
    } else if retaining(matching, unused).len() == 0 {
        SettlementView::Default
    } else {
        let best = most_specific(retaining(matching, unused));
        if agree(best, unused) {
            SettlementView::Ruled(best)
        } else {
            SettlementView::Conflict(best)
        }
    }
}

/// What settles the matter.
pub enum Settlement<'a> {
    Protected(Vec<&'a PolicyRule>),
    Latest(Vec<String>),
    Conflict(Vec<&'a PolicyRule>),
    Ruled(Vec<&'a PolicyRule>),
    Default,
}

impl<'a> DeepView for Settlement<'a> {
    type V = SettlementView;

    open spec fn deep_view(&self) -> SettlementView {
        match self {
            Settlement::Protected(rules) => SettlementView::Protected(rules.deep_view()),
            Settlement::Latest(ids) => SettlementView::Latest(ids.deep_view()),
            Settlement::Conflict(rules) => SettlementView::Conflict(rules.deep_view()),
            Settlement::Ruled(rules) => SettlementView::Ruled(rules.deep_view()),
            Settlement::Default => SettlementView::Default,
        }
    }
}

fn pick_rules<'a>(rules: &'a Vec<PolicyRule>, matched: &Vec<bool>) -> (result: Vec<&'a PolicyRule>)
    requires
        rules.len() == matched.len(),
    ensures
        result.deep_view() == picked(rules.deep_view(), matched@),
{
    let ghost all = rules.deep_view();
    let mut result: Vec<&'a PolicyRule> = nothing();
    let mut i: usize = 0;
    assert(all.take(0) =~= Seq::empty());
    while i < rules.len()
        invariant
            i <= rules.len(),
            rules.len() == matched.len(),
            all == rules.deep_view(),
            result.deep_view() == picked(all.take(i as int), matched@.take(i as int)),
        decreases rules.len() - i,
    {
        assert(all.take(i + 1).drop_last() =~= all.take(i as int));
        assert(matched@.take(i + 1).take(i as int) =~= matched@.take(i as int));
        assert(all.take(i + 1).last() == rules@[i as int].deep_view());
        if matched[i] {
            add_to(&mut result, &rules[i]);
        }
        i = i + 1;
    }
    assert(all.take(i as int) =~= all);
    assert(matched@.take(i as int) =~= matched@);
    result
}

fn pick_protecting<'a>(rules: &Vec<&'a PolicyRule>) -> (result: Vec<&'a PolicyRule>)
    ensures
        result.deep_view() == protecting(rules.deep_view()),
{
    let ghost all = rules.deep_view();
    let mut result: Vec<&'a PolicyRule> = nothing();
    let mut i: usize = 0;
    assert(all.take(0) =~= Seq::empty());
    while i < rules.len()
        invariant
            i <= rules.len(),
            all == rules.deep_view(),
            result.deep_view() == protecting(all.take(i as int)),
        decreases rules.len() - i,
    {
        assert(all.take(i + 1).drop_last() =~= all.take(i as int));
        assert(all.take(i + 1).last() == rules@[i as int].deep_view());
        if let Some(true) = rules[i].protect {
            add_to(&mut result, rules[i]);
        }
        i = i + 1;
    }
    assert(all.take(i as int) =~= all);
    result
}

fn terms_of(rule: &PolicyRule, unused: bool) -> (result: (Option<u64>, Option<u64>))
    ensures
        result == terms(rule.deep_view(), unused),
{
    (
        rule.keep_days,
        if unused {
            rule.keep_unused_days
        } else {
            None
        },
    )
}

fn pick_retaining<'a>(rules: &Vec<&'a PolicyRule>, unused: bool) -> (result: Vec<&'a PolicyRule>)
    ensures
        result.deep_view() == retaining(rules.deep_view(), unused),
{
    let ghost all = rules.deep_view();
    let mut result: Vec<&'a PolicyRule> = nothing();
    let mut i: usize = 0;
    assert(all.take(0) =~= Seq::empty());
    while i < rules.len()
        invariant
            i <= rules.len(),
            all == rules.deep_view(),
            result.deep_view() == retaining(all.take(i as int), unused),
        decreases rules.len() - i,
    {
        assert(all.take(i + 1).drop_last() =~= all.take(i as int));
        assert(all.take(i + 1).last() == rules@[i as int].deep_view());
        let (keep_days, keep_unused_days) = terms_of(rules[i], unused);
        if keep_days.is_some() || keep_unused_days.is_some() {
            add_to(&mut result, rules[i]);
        }
        i = i + 1;
    }
    assert(all.take(i as int) =~= all);
    result
}

fn pick_most_specific<'a>(rules: &Vec<&'a PolicyRule>) -> (result: Vec<&'a PolicyRule>)
    ensures
        result.deep_view() == most_specific(rules.deep_view()),
{
    let ghost all = rules.deep_view();
    let mut top: usize = 0;
    let mut i: usize = 0;
    assert(all.take(0) =~= Seq::empty());
    while i < rules.len()
        invariant
            i <= rules.len(),
            all == rules.deep_view(),
            top == top_specificity(all.take(i as int)),
        decreases rules.len() - i,
    {
        assert(all.take(i + 1).drop_last() =~= all.take(i as int));
        assert(all.take(i + 1).last() == rules@[i as int].deep_view());
        let specificity: usize = rules[i].specificity();
        if specificity > top {
            top = specificity;
        }
        i = i + 1;
    }
    assert(all.take(i as int) =~= all);
    let mut result: Vec<&'a PolicyRule> = nothing();
    let mut j: usize = 0;
    while j < rules.len()
        invariant
            j <= rules.len(),
            all == rules.deep_view(),
            result.deep_view() == as_specific(all.take(j as int), top as nat),
        decreases rules.len() - j,
    {
        assert(all.take(j + 1).drop_last() =~= all.take(j as int));
        assert(all.take(j + 1).last() == rules@[j as int].deep_view());
        if rules[j].specificity() == top {
            add_to(&mut result, rules[j]);
        }
        j = j + 1;
    }
    assert(all.take(j as int) =~= all);
    result
}

fn same_number(a: Option<u64>, b: Option<u64>) -> (result: bool)
    ensures
        result == (a == b),
{
    match (a, b) {
        (Some(x), Some(y)) => x == y,
        (None, None) => true,
        _ => false,
    }
}

fn rules_agree(rules: &Vec<&PolicyRule>, unused: bool) -> (result: bool)
    ensures
        result == agree(rules.deep_view(), unused),
{
    let ghost all = rules.deep_view();
    let mut i: usize = 0;
    while i < rules.len()
        invariant
            i <= rules.len(),
            all == rules.deep_view(),
            forall|k: int| 0 <= k < i ==> terms(#[trigger] all[k], unused) == terms(all[0], unused),
        decreases rules.len() - i,
    {
        assert(all[i as int] == rules@[i as int].deep_view());
        assert(all[0] == rules@[0].deep_view());
        let (a, b) = terms_of(rules[i], unused);
        let (c, d) = terms_of(rules[0], unused);
        if !(same_number(a, c) && same_number(b, d)) {
            assert(terms(all[i as int], unused) != terms(all[0], unused));
            return false;
        }
        i = i + 1;
    }
    true
}

/// What settles the matter, by the rules that match and the rules that keep it as one of the
/// latest.
pub fn settle<'a>(rules: &'a Vec<PolicyRule>, matched: &Vec<bool>, kept_by: Vec<String>, unused: bool) -> (result:
    Settlement<'a>)
    requires
        rules.len() == matched.len(),
    ensures
        result.deep_view() == settlement(rules.deep_view(), matched@, kept_by.deep_view(), unused),
{
    let matching = pick_rules(rules, matched);
    let protection = pick_protecting(&matching);
    assert(protection.deep_view().len() == protection.len());
    assert(kept_by.deep_view().len() == kept_by.len());
    if protection.len() > 0 {
        return Settlement::Protected(protection);
    }
    if kept_by.len() > 0 {
        return Settlement::Latest(kept_by);
    }
    let retention = pick_retaining(&matching, unused);
    assert(retention.deep_view().len() == retention.len());
    if retention.len() == 0 {
        return Settlement::Default;
    }
    let best = pick_most_specific(&retention);
    if rules_agree(&best, unused) {
        Settlement::Ruled(best)
    } else {
        Settlement::Conflict(best)
    }
}

proof fn lemma_most_specific_nonempty(rules: Seq<PolicyRuleView>, n: nat)
    requires
        rules.len() > 0,
        n == top_specificity(rules),
    ensures
        as_specific(rules, n).len() > 0,
    decreases rules.len(),
{
    let rest = rules.drop_last();
    if rules.last().specificity() != n {
        if rest.len() == 0 {
            assert(top_specificity(rest) == 0);
            assert(false);
        } else {
            lemma_most_specific_nonempty(rest, n);
        }
    }
}

proof fn lemma_as_specific_members(rules: Seq<PolicyRuleView>, n: nat, p: spec_fn(PolicyRuleView) -> bool)
    requires
        forall|i: int| 0 <= i < rules.len() ==> p(#[trigger] rules[i]),
    ensures
        forall|i: int| 0 <= i < as_specific(rules, n).len() ==> p(#[trigger] as_specific(rules, n)[i]),
    decreases rules.len(),
{
    if rules.len() > 0 {
        assert(p(rules[rules.len() - 1]));
        assert forall|i: int| 0 <= i < rules.drop_last().len() implies p(#[trigger] rules.drop_last()[i]) by {
            assert(rules.drop_last()[i] == rules[i]);
        }
        lemma_as_specific_members(rules.drop_last(), n, p);
        let rest = as_specific(rules.drop_last(), n);
        assert forall|i: int| 0 <= i < as_specific(rules, n).len() implies p(#[trigger] as_specific(rules, n)[i]) by {
            if i < rest.len() {
                assert(p(rest[i]));
            }
        }
    }
}

proof fn lemma_retaining_terms(rules: Seq<PolicyRuleView>, unused: bool)
    ensures
        forall|i: int|
            0 <= i < retaining(rules, unused).len() ==> terms(#[trigger] retaining(rules, unused)[i], unused) != (
                None::<u64>,
                None::<u64>,
            ),
    decreases rules.len(),
{
    if rules.len() > 0 {
        lemma_retaining_terms(rules.drop_last(), unused);
        let rest = retaining(rules.drop_last(), unused);
        assert forall|i: int| 0 <= i < retaining(rules, unused).len() implies terms(
            #[trigger] retaining(rules, unused)[i],
            unused,
        ) != (None::<u64>, None::<u64>) by {
            if i < rest.len() {
                assert(terms(rest[i], unused) != (None::<u64>, None::<u64>));
            }
        }
    }
}

/// Rules that settle the matter say how long something is kept.
pub proof fn lemma_ruled(rules: Seq<PolicyRuleView>, matched: Seq<bool>, kept_by: Seq<Seq<char>>, unused: bool)
    ensures
        settlement(rules, matched, kept_by, unused) matches SettlementView::Ruled(best) ==> best.len() > 0 && terms(
            best[0],
            unused,
        ) != (None::<u64>, None::<u64>),
        settlement(rules, matched, kept_by, unused) matches SettlementView::Conflict(best) ==> forall|i: int|
            0 <= i < best.len() ==> terms(#[trigger] best[i], unused) != (None::<u64>, None::<u64>),
{
    let retained = retaining(picked(rules, matched), unused);
    if retained.len() > 0 {
        lemma_most_specific_nonempty(retained, top_specificity(retained));
        lemma_retaining_terms(picked(rules, matched), unused);
        lemma_as_specific_members(
            retained,
            top_specificity(retained),
            |rule: PolicyRuleView| terms(rule, unused) != (None::<u64>, None::<u64>),
        );
        let best = most_specific(retained);
        assert(terms(best[0], unused) != (None::<u64>, None::<u64>));
    }
}

proof fn lemma_protecting_found(rules: Seq<PolicyRuleView>, matched: Seq<bool>, i: int)
    requires
        rules.len() == matched.len(),
        0 <= i < rules.len(),
        matched[i],
        rules[i].protect == Some(true),
    ensures
        protecting(picked(rules, matched)).len() > 0,
    decreases rules.len(),
{
    let n = rules.len() - 1;
    let rest = picked(rules.drop_last(), matched.take(n));
    if matched[n] {
        assert(rest.push(rules.last()).drop_last() =~= rest);
    }
    if i < n {
        lemma_protecting_found(rules.drop_last(), matched.take(n), i);
    }
}

/// Protection comes before everything else: where a rule that protects matches, it settles the
/// matter, whatever other rules say.
pub proof fn protection_comes_first(
    rules: Seq<PolicyRuleView>,
    matched: Seq<bool>,
    kept_by: Seq<Seq<char>>,
    unused: bool,
    i: int,
)
    requires
        rules.len() == matched.len(),
        0 <= i < rules.len(),
        matched[i],
        rules[i].protect == Some(true),
    ensures
        settlement(rules, matched, kept_by, unused) is Protected,
{
    lemma_protecting_found(rules, matched, i);
}

/// What a rule keeps as one of the latest is kept or protected.
pub proof fn the_latest_are_kept(
    rules: Seq<PolicyRuleView>,
    matched: Seq<bool>,
    kept_by: Seq<Seq<char>>,
    unused: bool,
)
    requires
        kept_by.len() > 0,
    ensures
        settlement(rules, matched, kept_by, unused) is Protected || settlement(rules, matched, kept_by, unused)
            is Latest,
{
}

// ---------------------------------------------------------------------------------------------
// The latest that rules keep.
// ---------------------------------------------------------------------------------------------

/// The ids of the rules that keep `x` as one of the latest; `picks` are, for each rule, those
/// that it keeps.
pub open spec fn kept_by<L>(rules: Seq<PolicyRuleView>, picks: Seq<Seq<L>>, x: L) -> Seq<Seq<char>>
    decreases rules.len(),
{
    if rules.len() == 0 {
        Seq::empty()
    } else {
        let last = rules.len() - 1;
        kept_by(rules.drop_last(), picks.take(last), x) + Seq::new(
            occurrences(picks[last], x),
            |i: int| rules[last].id,
        )
    }
}

/// The ids of the rules that keep `x` as one of the latest.
pub fn find_kept_by<L: Value>(rules: &Vec<PolicyRule>, picks: &Vec<Vec<L>>, x: &L) -> (result: Vec<String>)
    requires
        rules.len() == picks.len(),
    ensures
        result.deep_view() == kept_by(rules.deep_view(), picks.deep_view(), x.deep_view()),
{
    let ghost all = rules.deep_view();
    let ghost chosen = picks.deep_view();
    let mut result: Vec<String> = nothing();
    let mut i: usize = 0;
    assert(all.take(0) =~= Seq::empty());
    while i < rules.len()
        invariant
            i <= rules.len(),
            rules.len() == picks.len(),
            all == rules.deep_view(),
            chosen == picks.deep_view(),
            result.deep_view() == kept_by(all.take(i as int), chosen.take(i as int), x.deep_view()),
        decreases rules.len() - i,
    {
        let times: usize = count_of(&picks[i], x);
        let ghost before = result.deep_view();
        let ghost id = rules@[i as int].id@;
        let mut k: usize = 0;
        assert(before + Seq::new(0, |h: int| id) =~= before);
        while k < times
            invariant
                k <= times,
                i < rules.len(),
                id == rules@[i as int].id@,
                result.deep_view() == before + Seq::new(k as nat, |h: int| id),
            decreases times - k,
        {
            add_to(&mut result, rules[i].id.copied());
            k = k + 1;
            assert(result.deep_view() =~= before + Seq::new(k as nat, |h: int| id));
        }
        proof {
            assert(all.take(i + 1).drop_last() =~= all.take(i as int));
            assert(chosen.take(i + 1).take(i as int) =~= chosen.take(i as int));
            assert(chosen.take(i + 1)[i as int] == picks@[i as int].deep_view());
            assert(all.take(i + 1)[i as int].id == id);
            assert(Seq::new(times as nat, |h: int| id) =~= Seq::new(
                occurrences(chosen[i as int], x.deep_view()),
                |h: int| all.take(i + 1)[i as int].id,
            ));
        }
        i = i + 1;
    }
    assert(all.take(i as int) =~= all);
    assert(chosen.take(i as int) =~= chosen);
    result
}

/// The elements of `items` that are matched.
pub fn pick<T: Value>(items: &Vec<T>, matched: &Vec<bool>) -> (result: Vec<T>)
    requires
        items.len() == matched.len(),
    ensures
        result.deep_view() == picked(items.deep_view(), matched@),
{
    let ghost all = items.deep_view();
    let mut result: Vec<T> = nothing();
    let mut i: usize = 0;
    assert(all.take(0) =~= Seq::empty());
    while i < items.len()
        invariant
            i <= items.len(),
            items.len() == matched.len(),
            all == items.deep_view(),
            result.deep_view() == picked(all.take(i as int), matched@.take(i as int)),
        decreases items.len() - i,
    {
        assert(all.take(i + 1).drop_last() =~= all.take(i as int));
        assert(matched@.take(i + 1).take(i as int) =~= matched@.take(i as int));
        assert(all.take(i + 1).last() == items@[i as int].deep_view());
        if matched[i] {
            add_to(&mut result, items[i].copied());
        }
        i = i + 1;
    }
    assert(all.take(i as int) =~= all);
    assert(matched@.take(i as int) =~= matched@);
    result
}

// ---------------------------------------------------------------------------------------------
// Reasons.
// ---------------------------------------------------------------------------------------------

/// The same reason, once for each rule.
pub open spec fn explained(
    ids: Seq<Seq<char>>,
    code: ReasonCode,
    before: Seq<char>,
    after: Seq<char>,
) -> Seq<DecisionReasonView> {
    Seq::new(
        ids.len(),
        |i: int| DecisionReasonView { code, rule_id: Some(ids[i]), explanation: before + ids[i] + after },
    )
}

pub open spec fn rule_ids(rules: Seq<PolicyRuleView>) -> Seq<Seq<char>> {
    Seq::new(rules.len(), |i: int| rules[i].id)
}

/// The same reason, once for each rule.
pub fn explain(ids: &Vec<String>, code: ReasonCode, before: &str, after: &str) -> (result: Vec<DecisionReason>)
    ensures
        result.deep_view() == explained(ids.deep_view(), code, before@, after@),
{
    let ghost all = explained(ids.deep_view(), code, before@, after@);
    let mut result: Vec<DecisionReason> = nothing();
    let mut i: usize = 0;
    while i < ids.len()
        invariant
            i <= ids.len(),
            all == explained(ids.deep_view(), code, before@, after@),
            result.deep_view() == all.take(i as int),
        decreases ids.len() - i,
    {
        let reason = DecisionReason {
            code,
            rule_id: Some(ids[i].copied()),
            explanation: join3(before, ids[i].as_str(), after),
        };
        assert(reason.deep_view() == all[i as int]);
        add_to(&mut result, reason);
        i = i + 1;
        assert(result.deep_view() =~= all.take(i as int));
    }
    assert(all.take(i as int) =~= all);
    result
}

pub fn ids_of(rules: &Vec<&PolicyRule>) -> (result: Vec<String>)
    ensures
        result.deep_view() == rule_ids(rules.deep_view()),
{
    let ghost all = rule_ids(rules.deep_view());
    let mut result: Vec<String> = nothing();
    let mut i: usize = 0;
    while i < rules.len()
        invariant
            i <= rules.len(),
            all == rule_ids(rules.deep_view()),
            result.deep_view() == all.take(i as int),
        decreases rules.len() - i,
    {
        add_to(&mut result, rules[i].id.copied());
        i = i + 1;
        assert(result.deep_view() =~= all.take(i as int));
    }
    assert(all.take(i as int) =~= all);
    result
}

/// One reason for each rule that asks for other days than another.
pub open spec fn day_conflicts(rules: Seq<PolicyRuleView>, before: Seq<char>) -> Seq<DecisionReasonView> {
    Seq::new(
        rules.len(),
        |i: int|
            DecisionReasonView {
                code: ReasonCode::ConflictingRetentionRules,
                rule_id: Some(rules[i].id),
                explanation: before + rules[i].id + " requests keep_days = "@ + decimal(
                    match rules[i].keep_days {
                        Some(days) => days as nat,
                        None => 0,
                    },
                ),
            },
    )
}

/// One reason for each rule that asks for other days than another.
pub fn explain_day_conflicts(rules: &Vec<&PolicyRule>, before: &str) -> (result: Vec<DecisionReason>)
    ensures
        result.deep_view() == day_conflicts(rules.deep_view(), before@),
{
    let ghost all = day_conflicts(rules.deep_view(), before@);
    let mut result: Vec<DecisionReason> = nothing();
    let mut i: usize = 0;
    while i < rules.len()
        invariant
            i <= rules.len(),
            all == day_conflicts(rules.deep_view(), before@),
            result.deep_view() == all.take(i as int),
        decreases rules.len() - i,
    {
        let days: u64 = match rules[i].keep_days {
            Some(days) => days,
            None => 0,
        };
        let reason = DecisionReason {
            code: ReasonCode::ConflictingRetentionRules,
            rule_id: Some(rules[i].id.copied()),
            explanation: join4(before, rules[i].id.as_str(), " requests keep_days = ", number(days).as_str()),
        };
        assert(reason.deep_view() == all[i as int]);
        add_to(&mut result, reason);
        i = i + 1;
        assert(result.deep_view() =~= all.take(i as int));
    }
    assert(all.take(i as int) =~= all);
    result
}

/// Whether something that is `age` seconds old was to be kept for no longer than `days`.
pub open spec fn expired(age: int, days: u64) -> bool {
    age >= capped(days as nat * SECONDS_PER_DAY as nat)
}

/// Whether something that is `age` seconds old was to be kept for no longer than `days`.
pub fn has_expired(age: u64, days: u64) -> (result: bool)
    ensures
        result == expired(age as int, days),
{
    let limit: u64 = match days.checked_mul(SECONDS_PER_DAY) {
        Some(seconds) => seconds,
        None => u64::MAX,
    };
    age >= limit
}

/// Delete what has expired, keep the rest.
pub open spec fn verdict(expired: bool) -> Decision {
    if expired {
        Decision::Delete
    } else {
        Decision::Keep
    }
}

pub fn give_verdict(expired: bool) -> (result: Decision)
    ensures
        result == verdict(expired),
{
    if expired {
        Decision::Delete
    } else {
        Decision::Keep
    }
}

// ---------------------------------------------------------------------------------------------
// Artifacts.
// ---------------------------------------------------------------------------------------------

/// Artifacts, the newest first.
pub struct NewestArtifact;

impl Order<Artifact> for NewestArtifact {
    open spec fn key(&self, value: ArtifactView) -> Seq<Part> {
        seq![
            Part::Number(-value.created_at.rank()),
            Part::Number(-value.updated_at.rank()),
            Part::Number(-(value.id as int)),
        ]
    }

    fn key_of(&self, item: &Artifact) -> (result: Vec<KeyPart>) {
        let created: i128 = item.created_at.falling();
        let updated: i128 = item.updated_at.falling();
        let id: i128 = -(item.id as i128);
        let result = vec![KeyPart::Number(created), KeyPart::Number(updated), KeyPart::Number(id)];
        assert(result.deep_view() =~= self.key(item.deep_view()));
        result
    }
}

/// Which rules match an artifact.
pub open spec fn artifact_row(rules: Seq<PolicyRuleView>, artifact: ArtifactView) -> Seq<bool> {
    Seq::new(rules.len(), |j: int| rules[j].matches_artifact(artifact))
}

/// Which artifacts a rule matches.
pub open spec fn artifact_column(rule: PolicyRuleView, artifacts: Seq<ArtifactView>) -> Seq<bool> {
    Seq::new(artifacts.len(), |i: int| rule.matches_artifact(artifacts[i]))
}

/// The numbers of the first `n` artifacts.
pub open spec fn first_ids(artifacts: Seq<ArtifactView>, n: usize) -> Seq<u64> {
    Seq::new(
        if n < artifacts.len() {
            n as nat
        } else {
            artifacts.len()
        },
        |i: int| artifacts[i].id,
    )
}

/// The artifacts that a rule keeps as the latest of those that it matches.
pub open spec fn latest_artifacts(rule: PolicyRuleView, artifacts: Seq<ArtifactView>) -> Seq<u64> {
    match rule.keep_latest {
        Some(n) => first_ids(
            sorted::<Artifact, NewestArtifact>(picked(artifacts, artifact_column(rule, artifacts)), NewestArtifact),
            n,
        ),
        None => Seq::empty(),
    }
}

/// For each rule, the artifacts that it keeps as the latest.
pub open spec fn artifact_picks(rules: Seq<PolicyRuleView>, artifacts: Seq<ArtifactView>) -> Seq<Seq<u64>> {
    Seq::new(rules.len(), |j: int| latest_artifacts(rules[j], artifacts))
}

pub open spec fn artifact_decision(
    artifact: ArtifactView,
    decision: Decision,
    effective_keep_days: Option<u64>,
    reasons: Seq<DecisionReasonView>,
) -> ArtifactDecisionView {
    ArtifactDecisionView {
        artifact_id: artifact.id,
        repository: artifact.repository.full_name,
        artifact_name: artifact.name,
        size_in_bytes: artifact.size_in_bytes,
        decision,
        effective_keep_days,
        reasons,
    }
}

/// What is decided about an artifact, by what settles the matter.
pub open spec fn decide_artifact(
    artifact: ArtifactView,
    scanned_at: Timestamp,
    defaults: PolicyDefaults,
    settled: SettlementView,
) -> ArtifactDecisionView {
    let age = scanned_at.since(artifact.created_at);
    match settled {
        SettlementView::Protected(rules) => artifact_decision(
            artifact,
            Decision::Protected,
            None,
            explained(
                rule_ids(rules),
                ReasonCode::ExplicitProtection,
                "artifact is explicitly protected by policy rule "@,
                ""@,
            ),
        ),
        SettlementView::Latest(ids) => artifact_decision(
            artifact,
            Decision::Keep,
            None,
            explained(
                ids,
                ReasonCode::KeepLatest,
                "artifact is among the latest items retained by policy rule "@,
                ""@,
            ),
        ),
        SettlementView::Conflict(rules) => artifact_decision(
            artifact,
            Decision::ManualReview,
            None,
            day_conflicts(rules, "equally specific rule "@),
        ),
        SettlementView::Ruled(rules) => {
            let days = rules[0].keep_days->0;
            artifact_decision(
                artifact,
                verdict(expired(age, days)),
                Some(days),
                explained(
                    rule_ids(rules),
                    if expired(age, days) {
                        ReasonCode::RuleRetentionExpired
                    } else {
                        ReasonCode::RuleRetentionActive
                    },
                    "effective retention is "@ + decimal(days as nat) + " day(s) because of policy rule "@,
                    ""@,
                ),
            )
        },
        SettlementView::Default => {
            let days = defaults.keep_days;
            artifact_decision(
                artifact,
                verdict(expired(age, days)),
                Some(days),
                seq![
                    DecisionReasonView {
                        code: if expired(age, days) {
                            ReasonCode::DefaultRetentionExpired
                        } else {
                            ReasonCode::DefaultRetentionActive
                        },
                        rule_id: None,
                        explanation: "default retention is "@ + decimal(days as nat) + " day(s)"@,
                    },
                ],
            )
        },
    }
}

/// What a policy decides about an artifact of a scan.
pub open spec fn classified_artifact(
    config: PolicyConfigView,
    artifacts: Seq<ArtifactView>,
    artifact: ArtifactView,
    scanned_at: Timestamp,
) -> ArtifactDecisionView {
    decide_artifact(
        artifact,
        scanned_at,
        config.defaults,
        settlement(
            config.rules,
            artifact_row(config.rules, artifact),
            kept_by(config.rules, artifact_picks(config.rules, artifacts), artifact.id),
            false,
        ),
    )
}

/// What a policy decides about the artifacts of a scan.
pub open spec fn classified(config: PolicyConfigView, snapshot: InventorySnapshotView) -> ClassificationReportView {
    ClassificationReportView {
        scanned_at: snapshot.scanned_at,
        decisions: Seq::new(
            snapshot.artifacts.len(),
            |i: int|
                classified_artifact(config, snapshot.artifacts, snapshot.artifacts[i], snapshot.scanned_at),
        ),
    }
}

fn decision(
    artifact: &Artifact,
    value: Decision,
    effective_keep_days: Option<u64>,
    reasons: Vec<DecisionReason>,
) -> (result: ArtifactDecision)
    ensures
        result.deep_view() == artifact_decision(
            artifact.deep_view(),
            value,
            effective_keep_days,
            reasons.deep_view(),
        ),
{
    ArtifactDecision {
        artifact_id: artifact.id,
        repository: artifact.repository.full_name.copied(),
        artifact_name: artifact.name.copied(),
        size_in_bytes: artifact.size_in_bytes,
        decision: value,
        effective_keep_days,
        reasons,
    }
}

/// What is decided about an artifact, by the rules that match it and the rules that keep it as
/// one of the latest.
pub fn classify_matched_artifact(
    artifact: &Artifact,
    scanned_at: Timestamp,
    config: &PolicyConfig,
    matched: &Vec<bool>,
    kept: Vec<String>,
) -> (result: ArtifactDecision)
    requires
        matched.len() == config.rules.len(),
    ensures
        result.deep_view() == decide_artifact(
            artifact.deep_view(),
            scanned_at,
            config.defaults,
            settlement(config.deep_view().rules, matched@, kept.deep_view(), false),
        ),
{
    proof {
        lemma_ruled(config.deep_view().rules, matched@, kept.deep_view(), false);
    }
    let age: u64 = artifact.age_seconds(scanned_at);
    match settle(&config.rules, matched, kept, false) {
        Settlement::Protected(rules) => {
            let reasons = explain(
                &ids_of(&rules),
                ReasonCode::ExplicitProtection,
                "artifact is explicitly protected by policy rule ",
                "",
            );
            decision(artifact, Decision::Protected, None, reasons)
        },
        Settlement::Latest(ids) => {
            let reasons = explain(
                &ids,
                ReasonCode::KeepLatest,
                "artifact is among the latest items retained by policy rule ",
                "",
            );
            decision(artifact, Decision::Keep, None, reasons)
        },
        Settlement::Conflict(rules) => {
            let reasons = explain_day_conflicts(&rules, "equally specific rule ");
            decision(artifact, Decision::ManualReview, None, reasons)
        },
        Settlement::Ruled(rules) => {
            assert(rules.deep_view()[0] == rules@[0].deep_view());
            let days: u64 = match rules[0].keep_days {
                Some(days) => days,
                None => config.defaults.keep_days,
            };
            let has_expired = has_expired(age, days);
            let code = if has_expired {
                ReasonCode::RuleRetentionExpired
            } else {
                ReasonCode::RuleRetentionActive
            };
            let before = join3("effective retention is ", number(days).as_str(), " day(s) because of policy rule ");
            let reasons = explain(&ids_of(&rules), code, before.as_str(), "");
            decision(artifact, give_verdict(has_expired), Some(days), reasons)
        },
        Settlement::Default => {
            let days: u64 = config.defaults.keep_days;
            let has_expired = has_expired(age, days);
            let reason = DecisionReason {
                code: if has_expired {
                    ReasonCode::DefaultRetentionExpired
                } else {
                    ReasonCode::DefaultRetentionActive
                },
                rule_id: None,
                explanation: join3("default retention is ", number(days).as_str(), " day(s)"),
            };
            decision(artifact, give_verdict(has_expired), Some(days), single(reason))
        },
    }
}

/// A policy at work.
#[derive(Clone, Debug, PartialEq, Eq)]
pub struct PolicyEngine {
    config: PolicyConfig,
}

impl PolicyEngine {
    pub closed spec fn policy(&self) -> PolicyConfigView {
        self.config.deep_view()
    }

    /// Takes a policy that passes its check.
    pub fn new(config: PolicyConfig) -> (result: Result<Self, PolicyError>)
        ensures
            match rules_problem(config.deep_view().rules, 0) {
                Some(problem) => result matches Err(PolicyError::Validation(detail)) && detail@ == problem,
                None => result is Ok && result->Ok_0.policy() == config.deep_view(),
            },
    {
        match config.validate() {
            Ok(()) => Ok(PolicyEngine { config }),
            Err(error) => Err(error),
        }
    }

    pub fn config(&self) -> (result: &PolicyConfig)
        ensures
            result.deep_view() == self.policy(),
    {
        &self.config
    }

    /// Which rules match an artifact.
    fn match_artifact(&self, artifact: &Artifact) -> (result: Vec<bool>)
        requires
            self.policy().compiles(),
        ensures
            result@ == artifact_row(self.policy().rules, artifact.deep_view()),
    {
        let ghost rules = self.policy().rules;
        let mut result: Vec<bool> = Vec::new();
        let mut j: usize = 0;
        while j < self.config.rules.len()
            invariant
                j <= self.config.rules.len(),
                rules == self.config.rules.deep_view(),
                self.policy().rules == rules,
                self.policy().compiles(),
                result.len() == j,
                forall|k: int| 0 <= k < j ==> result@[k] == (#[trigger] rules[k]).matches_artifact(artifact.deep_view()),
            decreases self.config.rules.len() - j,
        {
            assert(rules[j as int] == self.config.rules@[j as int].deep_view());
            result.push(self.config.rules[j].matches_artifact(artifact));
            j = j + 1;
        }
        assert(result@ =~= artifact_row(rules, artifact.deep_view()));
        result
    }

    /// For each rule, the artifacts that it keeps as the latest.
    fn keep_latest_selections(&self, artifacts: &Vec<Artifact>) -> (result: Vec<Vec<u64>>)
        requires
            self.policy().compiles(),
        ensures
            result.deep_view() == artifact_picks(self.policy().rules, artifacts.deep_view()),
            result.len() == self.policy().rules.len(),
    {
        let ghost rules = self.policy().rules;
        let ghost all = artifact_picks(rules, artifacts.deep_view());
        let mut result: Vec<Vec<u64>> = nothing();
        let mut j: usize = 0;
        while j < self.config.rules.len()
            invariant
                j <= self.config.rules.len(),
                rules == self.config.rules.deep_view(),
                self.policy().rules == rules,
                self.policy().compiles(),
                all == artifact_picks(rules, artifacts.deep_view()),
                result.len() == j,
                result.deep_view() == all.take(j as int),
            decreases self.config.rules.len() - j,
        {
            assert(rules[j as int] == self.config.rules@[j as int].deep_view());
            let picks = select_latest_artifacts(&self.config.rules[j], artifacts);
            add_to(&mut result, picks);
            j = j + 1;
            assert(result.deep_view() =~= all.take(j as int));
        }
        assert(all.take(j as int) =~= all);
        result
    }

    /// What the policy decides about the artifacts of a scan.
    pub fn classify_snapshot(&self, snapshot: &InventorySnapshot) -> (result: ClassificationReport)
        requires
            self.policy().compiles(),
        ensures
            result.deep_view() == classified(self.policy(), snapshot.deep_view()),
    {
        let picks = self.keep_latest_selections(&snapshot.artifacts);
        let ghost all = classified(self.policy(), snapshot.deep_view()).decisions;
        let ghost artifacts = snapshot.artifacts.deep_view();
        let mut decisions: Vec<ArtifactDecision> = nothing();
        let mut i: usize = 0;
        while i < snapshot.artifacts.len()
            invariant
                i <= snapshot.artifacts.len(),
                self.policy().compiles(),
                artifacts == snapshot.artifacts.deep_view(),
                all == classified(self.policy(), snapshot.deep_view()).decisions,
                picks.deep_view() == artifact_picks(self.policy().rules, artifacts),
                picks.len() == self.config.rules.len(),
                decisions.deep_view() == all.take(i as int),
            decreases snapshot.artifacts.len() - i,
        {
            let artifact = &snapshot.artifacts[i];
            assert(artifacts[i as int] == artifact.deep_view());
            let matched = self.match_artifact(artifact);
            let kept = find_kept_by(&self.config.rules, &picks, &artifact.id);
            let decided = classify_matched_artifact(artifact, snapshot.scanned_at, &self.config, &matched, kept);
            assert(decided.deep_view() == all[i as int]);
            add_to(&mut decisions, decided);
            i = i + 1;
            assert(decisions.deep_view() =~= all.take(i as int));
        }
        assert(all.take(i as int) =~= all);
        ClassificationReport { scanned_at: snapshot.scanned_at, decisions }
    }
}

/// The artifacts that a rule keeps as the latest of those that it matches.
fn select_latest_artifacts(rule: &PolicyRule, artifacts: &Vec<Artifact>) -> (result: Vec<u64>)
    requires
        rule.deep_view().compiles(),
    ensures
        result.deep_view() == latest_artifacts(rule.deep_view(), artifacts.deep_view()),
{
    let keep: usize = match rule.keep_latest {
        Some(n) => n,
        None => {
            return nothing();
        },
    };
    let ghost all = artifacts.deep_view();
    let mut matched: Vec<bool> = Vec::new();
    let mut i: usize = 0;
    while i < artifacts.len()
        invariant
            i <= artifacts.len(),
            rule.deep_view().compiles(),
            all == artifacts.deep_view(),
            matched.len() == i,
            forall|k: int| 0 <= k < i ==> matched@[k] == rule.deep_view().matches_artifact(#[trigger] all[k]),
        decreases artifacts.len() - i,
    {
        assert(all[i as int] == artifacts@[i as int].deep_view());
        matched.push(rule.matches_artifact(&artifacts[i]));
        i = i + 1;
    }
    assert(matched@ =~= artifact_column(rule.deep_view(), all));
    let newest = sort(pick(artifacts, &matched), &NewestArtifact);
    let ghost ordered = newest.deep_view();
    let ghost wanted = first_ids(ordered, keep);
    let mut result: Vec<u64> = nothing();
    let mut k: usize = 0;
    while k < keep && k < newest.len()
        invariant
            k <= keep,
            k <= newest.len(),
            ordered == newest.deep_view(),
            wanted == first_ids(ordered, keep),
            result.deep_view() == wanted.take(k as int),
        decreases newest.len() - k,
    {
        assert(ordered[k as int] == newest@[k as int].deep_view());
        add_to(&mut result, newest[k].id);
        k = k + 1;
        assert(result.deep_view() =~= wanted.take(k as int));
    }
    assert(wanted.take(k as int) =~= wanted);
    result
}

/// What was decided, item by item.
pub open spec fn verdicts(decisions: Seq<ArtifactDecisionView>) -> Seq<Decision> {
    Seq::new(decisions.len(), |i: int| decisions[i].decision)
}

/// The storage that the deletions would free.
pub open spec fn reclaimable(decisions: Seq<ArtifactDecisionView>) -> nat
    decreases decisions.len(),
{
    if decisions.len() == 0 {
        0
    } else {
        reclaimable(decisions.drop_last()) + if decisions.last().decision == Decision::Delete {
            decisions.last().size_in_bytes as nat
        } else {
            0nat
        }
    }
}

impl ClassificationReport {
    /// How often a decision was taken.
    pub fn count(&self, decision: Decision) -> (result: usize)
        ensures
            result == occurrences(verdicts(self.deep_view().decisions), decision),
    {
        let ghost all = verdicts(self.decisions.deep_view());
        let mut labels: Vec<Decision> = nothing();
        let mut i: usize = 0;
        while i < self.decisions.len()
            invariant
                i <= self.decisions.len(),
                all == verdicts(self.decisions.deep_view()),
                labels.deep_view() == all.take(i as int),
            decreases self.decisions.len() - i,
        {
            add_to(&mut labels, self.decisions[i].decision);
            i = i + 1;
            assert(labels.deep_view() =~= all.take(i as int));
        }
        assert(all.take(i as int) =~= all);
        count_of(&labels, &decision)
    }

    /// The storage that the deletions would free, or the largest `u64` where it is more.
    pub fn reclaimable_bytes(&self) -> (result: u64)
        ensures
            result == capped(reclaimable(self.deep_view().decisions)),
    {
        let ghost all = self.decisions.deep_view();
        let mut bytes: u64 = 0;
        let mut i: usize = 0;
        assert(all.take(0) =~= Seq::empty());
        while i < self.decisions.len()
            invariant
                i <= self.decisions.len(),
                all == self.decisions.deep_view(),
                bytes == capped(reclaimable(all.take(i as int))),
            decreases self.decisions.len() - i,
        {
            assert(all.take(i + 1).drop_last() =~= all.take(i as int));
            assert(all.take(i + 1).last() == self.decisions@[i as int].deep_view());
            if self.decisions[i].decision == Decision::Delete {
                bytes = bytes.saturating_add(self.decisions[i].size_in_bytes);
            }
            i = i + 1;
        }
        assert(all.take(i as int) =~= all);
        bytes
    }
}

/// Every item is decided about in one way: the four counts add up to the number of items.
pub proof fn decisions_cover_everything(decisions: Seq<Decision>)
    ensures
        occurrences(decisions, Decision::Keep) + occurrences(decisions, Decision::Protected) + occurrences(
            decisions,
            Decision::ManualReview,
        ) + occurrences(decisions, Decision::Delete) == decisions.len(),
    decreases decisions.len(),
{
    if decisions.len() > 0 {
        decisions_cover_everything(decisions.drop_last());
    }
}

/// An artifact is deleted only if nothing protects it, no rule keeps it as one of the latest,
/// and it is as old as the agreed days or, without a rule, the default days.
pub proof fn only_expired_artifacts_are_deleted(
    config: PolicyConfigView,
    artifacts: Seq<ArtifactView>,
    artifact: ArtifactView,
    scanned_at: Timestamp,
)
    requires
        classified_artifact(config, artifacts, artifact, scanned_at).decision == Decision::Delete,
    ensures
        forall|j: int|
            0 <= j < config.rules.len() && (#[trigger] config.rules[j]).matches_artifact(artifact)
                ==> config.rules[j].protect != Some(true),
        kept_by(config.rules, artifact_picks(config.rules, artifacts), artifact.id).len() == 0,
        classified_artifact(config, artifacts, artifact, scanned_at).effective_keep_days is Some,
        expired(
            scanned_at.since(artifact.created_at),
            classified_artifact(config, artifacts, artifact, scanned_at).effective_keep_days->0,
        ),
{
    let row = artifact_row(config.rules, artifact);
    let kept = kept_by(config.rules, artifact_picks(config.rules, artifacts), artifact.id);
    assert forall|j: int|
        0 <= j < config.rules.len() && (#[trigger] config.rules[j]).matches_artifact(artifact) implies config.rules[j].protect
        != Some(true) by {
        if config.rules[j].protect == Some(true) {
            assert(row[j]);
            protection_comes_first(config.rules, row, kept, false, j);
        }
    }
    if kept.len() > 0 {
        the_latest_are_kept(config.rules, row, kept, false);
    }
}

// ---------------------------------------------------------------------------------------------
// What a policy promises, rule by rule.
// ---------------------------------------------------------------------------------------------

/// How many of the eight patterns of a rule are set.
pub open spec fn patterns_set(rule: PolicyRuleView) -> int {
    one_if(rule.repository is Some) + one_if(rule.workflow is Some) + one_if(rule.artifact is Some) + one_if(
        rule.branch is Some,
    ) + one_if(rule.key is Some) + one_if(rule.git_ref is Some) + one_if(rule.event is Some) + one_if(
        rule.conclusion is Some,
    )
}

pub open spec fn one_if(set: bool) -> int {
    if set {
        1
    } else {
        0
    }
}

/// Whether the rule at `j` matches and sets a retention: days since something was made or, where
/// `unused` says that they count, days since it was used.
pub open spec fn sets_retention(rules: Seq<PolicyRuleView>, matched: Seq<bool>, unused: bool, j: int) -> bool {
    &&& 0 <= j < rules.len()
    &&& matched[j]
    &&& rules[j].keep_days is Some || (unused && rules[j].keep_unused_days is Some)
}

/// Whether no matching rule that sets a retention has more patterns than the rule at `j`, which
/// matches and sets one itself.
pub open spec fn leads(rules: Seq<PolicyRuleView>, matched: Seq<bool>, unused: bool, j: int) -> bool {
    &&& sets_retention(rules, matched, unused, j)
    &&& forall|k: int| #[trigger]
        sets_retention(rules, matched, unused, k) ==> patterns_set(rules[k]) <= patterns_set(rules[j])
}

/// Whether a rule that matches protects.
pub open spec fn some_rule_protects(rules: Seq<PolicyRuleView>, matched: Seq<bool>) -> bool {
    exists|j: int| 0 <= j < rules.len() && matched[j] && (#[trigger] rules[j]).protect == Some(true)
}

/// Whether something that is `age` seconds old has been there for `days` days; an age beyond every
/// number of seconds counts as any number of days.
pub open spec fn days_are_over(age: int, days: u64) -> bool {
    age >= days * 86_400 || age >= u64::MAX
}

pub proof fn lemma_picked<V>(items: Seq<V>, matched: Seq<bool>)
    requires
        items.len() == matched.len(),
    ensures
        forall|x: V| #[trigger]
            picked(items, matched).contains(x) <==> exists|j: int|
                0 <= j < items.len() && matched[j] && #[trigger] items[j] == x,
    decreases items.len(),
{
    if items.len() > 0 {
        let n = items.len() - 1;
        let rest = picked(items.drop_last(), matched.take(n));
        lemma_picked(items.drop_last(), matched.take(n));
        let all = picked(items, matched);
        assert forall|x: V| #[trigger] all.contains(x) <==> exists|j: int|
            0 <= j < items.len() && matched[j] && #[trigger] items[j] == x by {
            if all.contains(x) {
                let k = choose|k: int| 0 <= k < all.len() && all[k] == x;
                if k < rest.len() {
                    assert(rest[k] == x);
                    assert(rest.contains(x));
                    let j = choose|j: int|
                        0 <= j < items.drop_last().len() && matched.take(n)[j] && #[trigger] items.drop_last()[j] == x;
                    assert(items[j] == x && matched[j]);
                } else {
                    assert(items[n] == x && matched[n]);
                }
            }
            if exists|j: int| 0 <= j < items.len() && matched[j] && #[trigger] items[j] == x {
                let j = choose|j: int| 0 <= j < items.len() && matched[j] && #[trigger] items[j] == x;
                if j < n {
                    assert(items.drop_last()[j] == x && matched.take(n)[j]);
                    assert(rest.contains(x));
                    let k = choose|k: int| 0 <= k < rest.len() && rest[k] == x;
                    assert(all[k] == x);
                } else {
                    assert(all[all.len() - 1] == x);
                }
            }
        }
    }
}

proof fn lemma_pushed<V>(s: Seq<V>, y: V)
    ensures
        forall|x: V| #[trigger] s.push(y).contains(x) <==> s.contains(x) || x == y,
{
    assert forall|x: V| #[trigger] s.push(y).contains(x) <==> s.contains(x) || x == y by {
        if s.push(y).contains(x) && x != y {
            let k = choose|k: int| 0 <= k < s.push(y).len() && s.push(y)[k] == x;
            assert(s[k] == x);
        }
        if s.contains(x) {
            let k = choose|k: int| 0 <= k < s.len() && s[k] == x;
            assert(s.push(y)[k] == x);
        }
        if x == y {
            assert(s.push(y)[s.len() as int] == x);
        }
    }
}

proof fn lemma_sifted(rules: Seq<PolicyRuleView>, unused: bool, n: nat)
    ensures
        forall|r: PolicyRuleView| #[trigger]
            protecting(rules).contains(r) <==> rules.contains(r) && r.protect == Some(true),
        forall|r: PolicyRuleView| #[trigger]
            retaining(rules, unused).contains(r) <==> rules.contains(r) && (r.keep_days is Some || (unused
                && r.keep_unused_days is Some)),
        forall|r: PolicyRuleView| #[trigger]
            as_specific(rules, n).contains(r) <==> rules.contains(r) && r.specificity() == n,
        forall|r: PolicyRuleView| #[trigger] rules.contains(r) ==> r.specificity() <= top_specificity(rules),
    decreases rules.len(),
{
    if rules.len() > 0 {
        let rest = rules.drop_last();
        lemma_sifted(rest, unused, n);
        assert(rules =~= rest.push(rules.last()));
        lemma_pushed(rest, rules.last());
        lemma_pushed(protecting(rest), rules.last());
        lemma_pushed(retaining(rest, unused), rules.last());
        lemma_pushed(as_specific(rest, n), rules.last());
    }
}

proof fn lemma_patterns_set(rule: PolicyRuleView)
    ensures
        rule.specificity() == patterns_set(rule),
{
}

/// Of a rule the number of its patterns counts, whatever they are.
pub proof fn specificity_is_the_number_of_patterns(rule: PolicyRuleView)
    ensures
        rule.specificity() == patterns_set(rule),
{
    lemma_patterns_set(rule);
}

pub proof fn lemma_settled(rules: Seq<PolicyRuleView>, matched: Seq<bool>, kept: Seq<Seq<char>>, unused: bool)
    requires
        rules.len() == matched.len(),
    ensures
        ({
            let settled = settlement(rules, matched, kept, unused);
            &&& settled is Protected <==> some_rule_protects(rules, matched)
            &&& settled matches SettlementView::Protected(best) ==> best.len() > 0 && forall|i: int|
                0 <= i < best.len() ==> exists|j: int|
                    0 <= j < rules.len() && matched[j] && rules[j].protect == Some(true) && #[trigger] rules[j]
                        == #[trigger] best[i]
            &&& settled is Latest <==> !some_rule_protects(rules, matched) && kept.len() > 0
            &&& settled matches SettlementView::Latest(ids) ==> ids == kept
            &&& settled is Default <==> !some_rule_protects(rules, matched) && kept.len() == 0 && forall|j: int|
                !#[trigger] sets_retention(rules, matched, unused, j)
            &&& settled matches SettlementView::Ruled(best) ==> best.len() > 0 && (forall|i: int|
                0 <= i < best.len() ==> exists|j: int|
                    #[trigger] leads(rules, matched, unused, j) && rules[j] == #[trigger] best[i]) && (forall|j: int|
                #[trigger] leads(rules, matched, unused, j) ==> terms(rules[j], unused) == terms(best[0], unused))
            &&& settled matches SettlementView::Conflict(best) ==> (forall|i: int|
                0 <= i < best.len() ==> exists|j: int|
                    #[trigger] leads(rules, matched, unused, j) && rules[j] == #[trigger] best[i]) && (exists|
                j: int,
                k: int,
            |
                #[trigger] leads(rules, matched, unused, j) && #[trigger] leads(rules, matched, unused, k) && terms(
                    rules[j],
                    unused,
                ) != terms(rules[k], unused))
        }),
{
    let matching = picked(rules, matched);
    let retained = retaining(matching, unused);
    let top = top_specificity(retained);
    let best = most_specific(retained);
    lemma_picked(rules, matched);
    lemma_sifted(matching, unused, 0);
    lemma_sifted(retained, unused, top);
    let protectors = protecting(matching);
    if protectors.len() > 0 {
        assert(protectors.contains(protectors[0]));
        assert(matching.contains(protectors[0]));
    }
    if some_rule_protects(rules, matched) {
        let j = choose|j: int| 0 <= j < rules.len() && matched[j] && (#[trigger] rules[j]).protect == Some(true);
        assert(matching.contains(rules[j]));
        assert(protectors.contains(rules[j]));
    }
    assert forall|i: int| 0 <= i < protectors.len() implies exists|j: int|
        0 <= j < rules.len() && matched[j] && rules[j].protect == Some(true) && #[trigger] rules[j]
            == #[trigger] protectors[i] by {
        assert(protectors.contains(protectors[i]));
        assert(matching.contains(protectors[i]));
    }
    assert forall|j: int| #[trigger] sets_retention(rules, matched, unused, j) implies retained.contains(rules[j]) by {
        assert(matching.contains(rules[j]));
    }
    if retained.len() > 0 {
        assert(retained.contains(retained[0]));
        assert(matching.contains(retained[0]));
        let j = choose|j: int| 0 <= j < rules.len() && matched[j] && #[trigger] rules[j] == retained[0];
        assert(sets_retention(rules, matched, unused, j));
        lemma_most_specific_nonempty(retained, top);
    }
    assert forall|j: int| #[trigger] leads(rules, matched, unused, j) <==> sets_retention(rules, matched, unused, j)
        && rules[j].specificity() == top by {
        if sets_retention(rules, matched, unused, j) {
            assert(retained.contains(rules[j]));
            lemma_patterns_set(rules[j]);
            assert(best.contains(best[0]));
            assert(retained.contains(best[0]));
            assert(matching.contains(best[0]));
            let k = choose|k: int| 0 <= k < rules.len() && matched[k] && #[trigger] rules[k] == best[0];
            assert(sets_retention(rules, matched, unused, k));
            lemma_patterns_set(rules[k]);
            if rules[j].specificity() == top {
                assert forall|m: int| #[trigger] sets_retention(rules, matched, unused, m) implies patterns_set(rules[m])
                    <= patterns_set(rules[j]) by {
                    assert(retained.contains(rules[m]));
                    lemma_patterns_set(rules[m]);
                }
            }
        }
    }
    assert forall|i: int| 0 <= i < best.len() implies exists|j: int|
        #[trigger] leads(rules, matched, unused, j) && rules[j] == #[trigger] best[i] by {
        assert(best.contains(best[i]));
        assert(retained.contains(best[i]));
        assert(matching.contains(best[i]));
        let j = choose|j: int| 0 <= j < rules.len() && matched[j] && #[trigger] rules[j] == best[i];
        assert(sets_retention(rules, matched, unused, j));
        assert(leads(rules, matched, unused, j));
    }
    assert forall|j: int| #[trigger] leads(rules, matched, unused, j) implies best.contains(rules[j]) by {
        assert(retained.contains(rules[j]));
    }
    if retained.len() > 0 {
        if agree(best, unused) {
            assert forall|j: int| #[trigger] leads(rules, matched, unused, j) implies terms(rules[j], unused) == terms(
                best[0],
                unused,
            ) by {
                assert(best.contains(rules[j]));
                let i = choose|i: int| 0 <= i < best.len() && best[i] == rules[j];
                assert(terms(best[i], unused) == terms(best[0], unused));
            }
        } else {
            let i = choose|i: int| 0 <= i < best.len() && terms(#[trigger] best[i], unused) != terms(best[0], unused);
            let j = choose|j: int| #[trigger] leads(rules, matched, unused, j) && rules[j] == best[i];
            let k = choose|k: int| #[trigger] leads(rules, matched, unused, k) && rules[k] == best[0];
            assert(leads(rules, matched, unused, j) && leads(rules, matched, unused, k));
        }
    }
}

/// Where the most specific of the matching rules that set a retention ask for the same days, the
/// artifact is kept for those days, whatever the default is, and deleted when they are over.
pub proof fn the_most_specific_rule_sets_the_days(
    artifact: ArtifactView,
    scanned_at: Timestamp,
    defaults: PolicyDefaults,
    rules: Seq<PolicyRuleView>,
    matched: Seq<bool>,
    kept: Seq<Seq<char>>,
    j: int,
)
    requires
        rules.len() == matched.len(),
        !some_rule_protects(rules, matched),
        kept.len() == 0,
        leads(rules, matched, false, j),
        forall|k: int| #[trigger] leads(rules, matched, false, k) ==> rules[k].keep_days == rules[j].keep_days,
    ensures
        ({
            let decided = decide_artifact(artifact, scanned_at, defaults, settlement(rules, matched, kept, false));
            let days = rules[j].keep_days->0;
            let over = days_are_over(scanned_at.since(artifact.created_at), days);
            &&& decided.effective_keep_days == Some(days)
            &&& decided.decision == if over {
                Decision::Delete
            } else {
                Decision::Keep
            }
            &&& decided.reasons.len() > 0
            &&& forall|i: int|
                0 <= i < decided.reasons.len() ==> (#[trigger] decided.reasons[i]).code == if over {
                    ReasonCode::RuleRetentionExpired
                } else {
                    ReasonCode::RuleRetentionActive
                }
            &&& forall|i: int|
                0 <= i < decided.reasons.len() ==> exists|k: int|
                    #[trigger] leads(rules, matched, false, k) && (#[trigger] decided.reasons[i]).rule_id == Some(
                        rules[k].id,
                    )
        }),
{
    lemma_settled(rules, matched, kept, false);
}

/// Where the most specific of the matching rules that set a retention ask for different days, a
/// person has to look.
pub proof fn rules_that_disagree_need_a_person(
    artifact: ArtifactView,
    scanned_at: Timestamp,
    defaults: PolicyDefaults,
    rules: Seq<PolicyRuleView>,
    matched: Seq<bool>,
    kept: Seq<Seq<char>>,
    j: int,
    k: int,
)
    requires
        rules.len() == matched.len(),
        !some_rule_protects(rules, matched),
        kept.len() == 0,
        leads(rules, matched, false, j),
        leads(rules, matched, false, k),
        rules[j].keep_days != rules[k].keep_days,
    ensures
        ({
            let decided = decide_artifact(artifact, scanned_at, defaults, settlement(rules, matched, kept, false));
            &&& decided.decision == Decision::ManualReview
            &&& decided.effective_keep_days is None
            &&& forall|i: int|
                0 <= i < decided.reasons.len() ==> (#[trigger] decided.reasons[i]).code
                    == ReasonCode::ConflictingRetentionRules
        }),
{
    lemma_settled(rules, matched, kept, false);
}

/// The default days count only where no matching rule sets days of its own.
pub proof fn defaults_count_without_a_rule(
    artifact: ArtifactView,
    scanned_at: Timestamp,
    defaults: PolicyDefaults,
    rules: Seq<PolicyRuleView>,
    matched: Seq<bool>,
    kept: Seq<Seq<char>>,
)
    requires
        rules.len() == matched.len(),
        !some_rule_protects(rules, matched),
        kept.len() == 0,
        forall|j: int| 0 <= j < rules.len() && matched[j] ==> (#[trigger] rules[j]).keep_days is None,
    ensures
        ({
            let decided = decide_artifact(artifact, scanned_at, defaults, settlement(rules, matched, kept, false));
            let over = days_are_over(scanned_at.since(artifact.created_at), defaults.keep_days);
            &&& decided.effective_keep_days == Some(defaults.keep_days)
            &&& decided.decision == if over {
                Decision::Delete
            } else {
                Decision::Keep
            }
            &&& decided.reasons.len() == 1
            &&& decided.reasons[0].rule_id is None
            &&& decided.reasons[0].code == if over {
                ReasonCode::DefaultRetentionExpired
            } else {
                ReasonCode::DefaultRetentionActive
            }
        }),
{
    lemma_settled(rules, matched, kept, false);
    assert forall|j: int| !#[trigger] sets_retention(rules, matched, false, j) by {
        if sets_retention(rules, matched, false, j) {
            assert(rules[j].keep_days is None);
        }
    }
}

/// Protection comes before all else, then what rules keep as one of the latest: neither is deleted
/// at any age. The decision names the artifact that it is about.
pub proof fn protection_and_the_latest_outweigh_age(
    artifact: ArtifactView,
    scanned_at: Timestamp,
    defaults: PolicyDefaults,
    rules: Seq<PolicyRuleView>,
    matched: Seq<bool>,
    kept: Seq<Seq<char>>,
)
    requires
        rules.len() == matched.len(),
    ensures
        ({
            let decided = decide_artifact(artifact, scanned_at, defaults, settlement(rules, matched, kept, false));
            &&& decided.decision == Decision::Protected <==> some_rule_protects(rules, matched)
            &&& !some_rule_protects(rules, matched) && kept.len() > 0 ==> {
                &&& decided.decision == Decision::Keep
                &&& decided.effective_keep_days is None
                &&& decided.reasons.len() == kept.len()
                &&& forall|i: int|
                    0 <= i < kept.len() ==> (#[trigger] decided.reasons[i]).code == ReasonCode::KeepLatest
                        && decided.reasons[i].rule_id == Some(kept[i])
            }
            &&& some_rule_protects(rules, matched) ==> {
                &&& decided.effective_keep_days is None
                &&& decided.reasons.len() > 0
                &&& forall|i: int|
                    0 <= i < decided.reasons.len() ==> (#[trigger] decided.reasons[i]).code
                        == ReasonCode::ExplicitProtection
            }
            &&& decided.artifact_id == artifact.id
            &&& decided.repository == artifact.repository.full_name
            &&& decided.artifact_name == artifact.name
            &&& decided.size_in_bytes == artifact.size_in_bytes
        }),
{
    lemma_settled(rules, matched, kept, false);
}

/// What is picked and has a property is what matches and has it.
pub proof fn lemma_picked_tally<V>(items: Seq<V>, matched: Seq<bool>, p: spec_fn(V) -> bool, q: spec_fn(V) -> bool)
    requires
        items.len() == matched.len(),
        forall|i: int| 0 <= i < items.len() ==> q(#[trigger] items[i]) == (matched[i] && p(items[i])),
    ensures
        tally(picked(items, matched), p) == tally(items, q),
    decreases items.len(),
{
    if items.len() > 0 {
        let n = items.len() - 1;
        let rest = items.drop_last();
        assert forall|i: int| 0 <= i < rest.len() implies q(#[trigger] rest[i]) == (matched.take(n)[i] && p(rest[i])) by {
            assert(rest[i] == items[i]);
        }
        lemma_picked_tally(rest, matched.take(n), p, q);
        assert(items.last() == items[n]);
        if matched[n] {
            assert(picked(rest, matched.take(n)).push(items.last()).drop_last() =~= picked(rest, matched.take(n)));
        }
    }
}

/// Something is kept as one of the latest where a rule picked it.
pub proof fn lemma_kept_by<L>(rules: Seq<PolicyRuleView>, picks: Seq<Seq<L>>, x: L)
    requires
        rules.len() == picks.len(),
    ensures
        kept_by(rules, picks, x).len() > 0 <==> exists|j: int| 0 <= j < picks.len() && (#[trigger] picks[j]).contains(x),
    decreases rules.len(),
{
    if rules.len() > 0 {
        let last = rules.len() - 1;
        lemma_kept_by(rules.drop_last(), picks.take(last), x);
        crate::totals::lemma_occurs(picks[last], x);
        if exists|j: int| 0 <= j < picks.len() && (#[trigger] picks[j]).contains(x) {
            let j = choose|j: int| 0 <= j < picks.len() && (#[trigger] picks[j]).contains(x);
            if j < last {
                assert(picks.take(last)[j].contains(x));
            }
        }
        if exists|j: int| 0 <= j < picks.take(last).len() && (#[trigger] picks.take(last)[j]).contains(x) {
            let j = choose|j: int| 0 <= j < picks.take(last).len() && (#[trigger] picks.take(last)[j]).contains(x);
            assert(picks[j].contains(x));
        }
    }
}

/// Three numbers are compared one after the other.
pub proof fn lemma_three_numbers(a: int, b: int, c: int, x: int, y: int, z: int)
    ensures
        key_less(
            seq![Part::Number(a), Part::Number(b), Part::Number(c)],
            seq![Part::Number(x), Part::Number(y), Part::Number(z)],
        ) <==> a < x || (a == x && (b < y || (b == y && c < z))),
{
    reveal_with_fuel(key_less, 4);
    let s = seq![Part::Number(a), Part::Number(b), Part::Number(c)];
    let t = seq![Part::Number(x), Part::Number(y), Part::Number(z)];
    assert(s.drop_first() =~= seq![Part::Number(b), Part::Number(c)]);
    assert(t.drop_first() =~= seq![Part::Number(y), Part::Number(z)]);
    assert(s.drop_first().drop_first() =~= seq![Part::Number(c)]);
    assert(t.drop_first().drop_first() =~= seq![Part::Number(z)]);
    assert(s.drop_first().drop_first().drop_first() =~= Seq::<Part>::empty());
    assert(t.drop_first().drop_first().drop_first() =~= Seq::<Part>::empty());
}

/// Whether one artifact is newer than another: made later or, if at the same time, changed later
/// or, if that at the same time too, of a higher number.
pub open spec fn newer_artifact(a: ArtifactView, b: ArtifactView) -> bool {
    ||| a.created_at.rank() > b.created_at.rank()
    ||| a.created_at.rank() == b.created_at.rank() && a.updated_at.rank() > b.updated_at.rank()
    ||| a.created_at.rank() == b.created_at.rank() && a.updated_at.rank() == b.updated_at.rank() && a.id > b.id
}

/// How many artifacts that a rule matches are newer than another.
pub open spec fn newer_matches(rule: PolicyRuleView, artifacts: Seq<ArtifactView>, artifact: ArtifactView) -> nat {
    tally(artifacts, |a: ArtifactView| rule.matches_artifact(a) && newer_artifact(a, artifact))
}

/// Whether a rule matches an artifact and keeps more of the latest than there are newer ones.
pub open spec fn keeps_artifact(rule: PolicyRuleView, artifacts: Seq<ArtifactView>, artifact: ArtifactView) -> bool {
    rule.matches_artifact(artifact) && rule.keep_latest is Some && newer_matches(rule, artifacts, artifact)
        < rule.keep_latest->0
}

proof fn lemma_latest_artifacts(rule: PolicyRuleView, artifacts: Seq<ArtifactView>, artifact: ArtifactView)
    requires
        artifacts.contains(artifact),
        rule.matches_artifact(artifact),
        rule.keep_latest is Some,
    ensures
        newer_matches(rule, artifacts, artifact) < rule.keep_latest->0 ==> latest_artifacts(rule, artifacts).contains(
            artifact.id,
        ),
        (forall|i: int, j: int|
            0 <= i < j < artifacts.len() ==> (#[trigger] artifacts[i]).id != (#[trigger] artifacts[j]).id)
            && latest_artifacts(rule, artifacts).contains(artifact.id) ==> newer_matches(rule, artifacts, artifact)
            < rule.keep_latest->0,
{
    let column = artifact_column(rule, artifacts);
    let matching = picked(artifacts, column);
    let order = NewestArtifact;
    let ordered = sorted::<Artifact, NewestArtifact>(matching, order);
    lemma_picked(artifacts, column);
    let at = choose|i: int| 0 <= i < artifacts.len() && artifacts[i] == artifact;
    assert(artifacts[at] == artifact && column[at]);
    assert(matching.contains(artifact));
    lemma_place_in_order::<Artifact, NewestArtifact>(matching, order, artifact);
    let less = |y: ArtifactView| key_less(order.key(y), order.key(artifact));
    let newer = |a: ArtifactView| rule.matches_artifact(a) && newer_artifact(a, artifact);
    assert forall|i: int| 0 <= i < artifacts.len() implies newer(#[trigger] artifacts[i]) == (column[i] && less(
        artifacts[i],
    )) by {
        let a = artifacts[i];
        lemma_three_numbers(
            -a.created_at.rank(),
            -a.updated_at.rank(),
            -(a.id as int),
            -artifact.created_at.rank(),
            -artifact.updated_at.rank(),
            -(artifact.id as int),
        );
    }
    lemma_picked_tally(artifacts, column, less, newer);
    let place = tally(matching, less) as int;
    let n = rule.keep_latest->0;
    let ids = latest_artifacts(rule, artifacts);
    assert(order.key(ordered[place])[2] == Part::Number(-(ordered[place].id as int)));
    assert(order.key(artifact)[2] == Part::Number(-(artifact.id as int)));
    assert(ordered[place].id == artifact.id);
    if place < n {
        assert(ids[place] == artifact.id);
    }
    if (forall|i: int, j: int|
        0 <= i < j < artifacts.len() ==> (#[trigger] artifacts[i]).id != (#[trigger] artifacts[j]).id) && ids.contains(
        artifact.id,
    ) {
        let k = choose|k: int| 0 <= k < ids.len() && ids[k] == artifact.id;
        assert(ordered.contains(ordered[k]));
        lemma_sorted_contains::<Artifact, NewestArtifact>(matching, order, ordered[k]);
        assert(matching.contains(ordered[k]));
        let i = choose|i: int| 0 <= i < artifacts.len() && column[i] && #[trigger] artifacts[i] == ordered[k];
        assert(artifacts[i].id == artifacts[at].id);
        assert(i == at);
        assert(ordered[k] == artifact);
        crate::order::lemma_key_less(order.key(artifact), order.key(artifact));
        assert(k >= place);
    }
}

/// A rule keeps the latest of the artifacts that it matches: one than which fewer are newer than
/// the rule keeps is never deleted, and needs no person.
pub proof fn the_newest_artifacts_stay(
    config: PolicyConfigView,
    artifacts: Seq<ArtifactView>,
    artifact: ArtifactView,
    scanned_at: Timestamp,
    j: int,
)
    requires
        artifacts.contains(artifact),
        0 <= j < config.rules.len(),
        keeps_artifact(config.rules[j], artifacts, artifact),
    ensures
        classified_artifact(config, artifacts, artifact, scanned_at).decision == Decision::Keep
            || classified_artifact(config, artifacts, artifact, scanned_at).decision == Decision::Protected,
        classified_artifact(config, artifacts, artifact, scanned_at).effective_keep_days is None,
{
    let picks = artifact_picks(config.rules, artifacts);
    lemma_latest_artifacts(config.rules[j], artifacts, artifact);
    assert(picks[j].contains(artifact.id));
    lemma_kept_by(config.rules, picks, artifact.id);
    lemma_settled(
        config.rules,
        artifact_row(config.rules, artifact),
        kept_by(config.rules, picks, artifact.id),
        false,
    );
}

/// Whether no rule protects an artifact, and none keeps it as one of the latest.
pub open spec fn left_to_age(rules: Seq<PolicyRuleView>, artifacts: Seq<ArtifactView>, artifact: ArtifactView) -> bool {
    forall|j: int|
        0 <= j < rules.len() ==> !((#[trigger] rules[j]).matches_artifact(artifact) && rules[j].protect == Some(true))
            && !keeps_artifact(rules[j], artifacts, artifact)
}

/// What no rule protects and none keeps as one of the latest is decided about by its age alone,
/// against the days of the most specific rule that matches it, or the default days.
pub proof fn age_decides_about_the_rest(
    config: PolicyConfigView,
    artifacts: Seq<ArtifactView>,
    artifact: ArtifactView,
    scanned_at: Timestamp,
)
    requires
        artifacts.contains(artifact),
        forall|i: int, j: int|
            0 <= i < j < artifacts.len() ==> (#[trigger] artifacts[i]).id != (#[trigger] artifacts[j]).id,
        left_to_age(config.rules, artifacts, artifact),
    ensures
        ({
            let decided = classified_artifact(config, artifacts, artifact, scanned_at);
            let age = scanned_at.since(artifact.created_at);
            let matched = Seq::new(config.rules.len(), |j: int| config.rules[j].matches_artifact(artifact));
            &&& decided.decision != Decision::Protected
            &&& decided.decision == Decision::Delete <==> decided.effective_keep_days is Some && days_are_over(
                age,
                decided.effective_keep_days->0,
            )
            &&& decided.decision == Decision::ManualReview <==> decided.effective_keep_days is None
            &&& decided.effective_keep_days is Some && decided.effective_keep_days->0 != config.defaults.keep_days
                ==> exists|j: int| #[trigger]
                leads(config.rules, matched, false, j) && config.rules[j].keep_days == decided.effective_keep_days
            &&& forall|j: int| #[trigger]
                leads(config.rules, matched, false, j) && decided.effective_keep_days is Some
                    ==> decided.effective_keep_days == config.rules[j].keep_days
            &&& (forall|j: int|
                0 <= j < config.rules.len() && (#[trigger] config.rules[j]).matches_artifact(artifact)
                    ==> config.rules[j].keep_days is None) ==> decided.effective_keep_days == Some(
                config.defaults.keep_days,
            )
        }),
{
    let rules = config.rules;
    let picks = artifact_picks(rules, artifacts);
    let row = artifact_row(rules, artifact);
    let matched = Seq::new(rules.len(), |j: int| rules[j].matches_artifact(artifact));
    assert(row =~= matched);
    let kept = kept_by(rules, picks, artifact.id);
    lemma_kept_by(rules, picks, artifact.id);
    if kept.len() > 0 {
        let j = choose|j: int| 0 <= j < picks.len() && (#[trigger] picks[j]).contains(artifact.id);
        let rule = rules[j];
        assert(rule.keep_latest is Some);
        if rule.matches_artifact(artifact) {
            lemma_latest_artifacts(rule, artifacts, artifact);
            assert(keeps_artifact(rules[j], artifacts, artifact));
        } else {
            lemma_latest_match(rule, artifacts, artifact);
        }
    }
    if some_rule_protects(rules, matched) {
        let j = choose|j: int| 0 <= j < rules.len() && matched[j] && (#[trigger] rules[j]).protect == Some(true);
        assert(rules[j].matches_artifact(artifact));
    }
    lemma_settled(rules, row, kept, false);
    if forall|j: int|
        0 <= j < rules.len() && (#[trigger] rules[j]).matches_artifact(artifact) ==> rules[j].keep_days is None {
        assert forall|j: int| !#[trigger] sets_retention(rules, matched, false, j) by {
            if sets_retention(rules, matched, false, j) {
                assert(rules[j].matches_artifact(artifact));
            }
        }
    }
}

/// A rule keeps nothing that it does not match.
proof fn lemma_latest_match(rule: PolicyRuleView, artifacts: Seq<ArtifactView>, artifact: ArtifactView)
    requires
        artifacts.contains(artifact),
        forall|i: int, j: int|
            0 <= i < j < artifacts.len() ==> (#[trigger] artifacts[i]).id != (#[trigger] artifacts[j]).id,
        !rule.matches_artifact(artifact),
    ensures
        !latest_artifacts(rule, artifacts).contains(artifact.id),
{
    let column = artifact_column(rule, artifacts);
    let matching = picked(artifacts, column);
    let ids = latest_artifacts(rule, artifacts);
    let at = choose|i: int| 0 <= i < artifacts.len() && artifacts[i] == artifact;
    if ids.contains(artifact.id) {
        let ordered = sorted::<Artifact, NewestArtifact>(matching, NewestArtifact);
        let k = choose|k: int| 0 <= k < ids.len() && ids[k] == artifact.id;
        assert(ordered.contains(ordered[k]));
        lemma_sorted_contains::<Artifact, NewestArtifact>(matching, NewestArtifact, ordered[k]);
        lemma_picked(artifacts, column);
        assert(matching.contains(ordered[k]));
        let i = choose|i: int| 0 <= i < artifacts.len() && column[i] && #[trigger] artifacts[i] == ordered[k];
        assert(artifacts[i].id == artifacts[at].id);
        assert(i == at);
    }
}

/// Every artifact of a scan is decided about, in its place.
pub proof fn every_artifact_gets_its_decision(config: PolicyConfigView, snapshot: InventorySnapshotView)
    ensures
        ({
            let report = classified(config, snapshot);
            &&& report.scanned_at == snapshot.scanned_at
            &&& report.decisions.len() == snapshot.artifacts.len()
            &&& forall|i: int|
                0 <= i < snapshot.artifacts.len() ==> (#[trigger] report.decisions[i]).artifact_id
                    == snapshot.artifacts[i].id && report.decisions[i].repository
                    == snapshot.artifacts[i].repository.full_name && report.decisions[i].artifact_name
                    == snapshot.artifacts[i].name && report.decisions[i].size_in_bytes
                    == snapshot.artifacts[i].size_in_bytes && report.decisions[i] == classified_artifact(
                    config,
                    snapshot.artifacts,
                    snapshot.artifacts[i],
                    snapshot.scanned_at,
                )
        }),
{
}

} // verus!
