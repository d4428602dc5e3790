//! What a policy decides about workflow runs.
use crate::model::{WorkflowRun, WorkflowRunInventorySnapshot, WorkflowRunInventorySnapshotView, WorkflowRunView};
use crate::order::{
    distinct, key_less, le, lemma_first, lemma_key_less, lemma_sorted_contains, lemma_sorted_tally, lemma_tally_before,
    lemma_tally_grows, sort, sort_distinct, sorted, sorting_is_an_ordered_rearrangement, tally, KeyPart, Order, Part,
};
use crate::policy::config::{PolicyConfig, PolicyConfigView, PolicyRule, PolicyRuleView, WorkflowRunPolicyDefaults};
use crate::policy::engine::{
    day_conflicts, days_are_over, expired, explain, explain_day_conflicts, explained, find_kept_by, give_verdict,
    has_expired, ids_of, kept_by, leads, lemma_kept_by, lemma_picked, lemma_picked_tally, lemma_ruled, lemma_settled,
    pick, picked, protection_comes_first, rule_ids, settle, settlement, the_latest_are_kept,
    sets_retention, some_rule_protects, verdict, Decision, DecisionReason, DecisionReasonView, PolicyEngine, ReasonCode, Settlement, SettlementView,
};
use crate::text::{case_is_disregarded, decimal, equal_but_for_case, join3, number};
use crate::time::Timestamp;
use crate::totals::{count_of, occurrences};
use crate::value::{add_to, nothing, single, Value};
use vstd::prelude::*;

verus! {

/// What a policy decides about a workflow run.
#[derive(Clone, Debug, PartialEq, Eq)]
pub struct WorkflowRunDecision {
    pub run_id: u64,
    pub repository: String,
    pub workflow_id: u64,
    pub workflow_name: Option<String>,
    pub branch: Option<String>,
    pub event: String,
    pub conclusion: Option<String>,
    pub decision: Decision,
    pub effective_keep_days: Option<u64>,
    pub reasons: Vec<DecisionReason>,
}

/// The contents of [`WorkflowRunDecision`].
#[verifier::ext_equal]
pub struct WorkflowRunDecisionView {
    pub run_id: u64,
    pub repository: Seq<char>,
    pub workflow_id: u64,
    pub workflow_name: Option<Seq<char>>,
    pub branch: Option<Seq<char>>,
    pub event: Seq<char>,
    pub conclusion: Option<Seq<char>>,
    pub decision: Decision,
    pub effective_keep_days: Option<u64>,
    pub reasons: Seq<DecisionReasonView>,
}

impl DeepView for WorkflowRunDecision {
    type V = WorkflowRunDecisionView;

    open spec fn deep_view(&self) -> WorkflowRunDecisionView {
        WorkflowRunDecisionView {
            run_id: self.run_id,
            repository: self.repository.deep_view(),
            workflow_id: self.workflow_id,
            workflow_name: self.workflow_name.deep_view(),
            branch: self.branch.deep_view(),
            event: self.event.deep_view(),
            conclusion: self.conclusion.deep_view(),
            decision: self.decision,
            effective_keep_days: self.effective_keep_days,
            reasons: self.reasons.deep_view(),
        }
    }
}

/// What a policy decides about the workflow runs of a scan.
#[derive(Clone, Debug, PartialEq, Eq)]
pub struct WorkflowRunClassificationReport {
    pub scanned_at: Timestamp,
    pub decisions: Vec<WorkflowRunDecision>,
}

/// The contents of [`WorkflowRunClassificationReport`].
#[verifier::ext_equal]
pub struct WorkflowRunClassificationReportView {
    pub scanned_at: Timestamp,
    pub decisions: Seq<WorkflowRunDecisionView>,
}

impl DeepView for WorkflowRunClassificationReport {
    type V = WorkflowRunClassificationReportView;

    open spec fn deep_view(&self) -> WorkflowRunClassificationReportView {
        WorkflowRunClassificationReportView {
            scanned_at: self.scanned_at,
            decisions: self.decisions.deep_view(),
        }
    }
}

/// Workflow runs, the newest first.
pub struct NewestRun;

impl Order<WorkflowRun> for NewestRun {
    open spec fn key(&self, value: WorkflowRunView) -> Seq<Part> {
        seq![
            Part::Number(-value.created_at.rank()),
            Part::Number(-value.updated_at.rank()),
            Part::Number(-(value.run_number as int)),
            Part::Number(-(value.run_attempt as int)),
            Part::Number(-(value.id as int)),
        ]
    }

    fn key_of(&self, item: &WorkflowRun) -> (result: Vec<KeyPart>) {
        let created: i128 = item.created_at.falling();
        let updated: i128 = item.updated_at.falling();
        let run_number: i128 = -(item.run_number as i128);
        let run_attempt: i128 = -(item.run_attempt as i128);
        let id: i128 = -(item.id as i128);
        let result = vec![
            KeyPart::Number(created),
            KeyPart::Number(updated),
            KeyPart::Number(run_number),
            KeyPart::Number(run_attempt),
            KeyPart::Number(id),
        ];
        assert(result.deep_view() =~= self.key(item.deep_view()));
        result
    }
}

/// By repository, then by number.
pub struct RunIdentityOrder;

impl Order<(String, u64)> for RunIdentityOrder {
    open spec fn key(&self, value: (Seq<char>, u64)) -> Seq<Part> {
        seq![Part::Text(value.0), Part::Number(value.1 as int)]
    }

    fn key_of(&self, item: &(String, u64)) -> (result: Vec<KeyPart>) {
        let id: i128 = item.1 as i128;
        let result = vec![KeyPart::Text(item.0.copied()), KeyPart::Number(id)];
        assert(result.deep_view() =~= self.key(item.deep_view()));
        result
    }
}

/// Which rules match a workflow run.
pub open spec fn run_row(rules: Seq<PolicyRuleView>, run: WorkflowRunView) -> Seq<bool> {
    Seq::new(rules.len(), |j: int| rules[j].matches_workflow_run(run))
}

/// Which runs a rule matches that are completed.
pub open spec fn run_column(rule: PolicyRuleView, runs: Seq<WorkflowRunView>) -> Seq<bool> {
    Seq::new(runs.len(), |i: int| runs[i].completed() && rule.matches_workflow_run(runs[i]))
}

/// What identifies a run.
pub open spec fn run_identity(run: WorkflowRunView) -> (Seq<char>, u64) {
    (run.repository.full_name, run.id)
}

/// Whether two runs are of the same workflow, on the same branch of the same repository.
pub open spec fn same_family(a: WorkflowRunView, b: WorkflowRunView) -> bool {
    &&& a.repository.full_name == b.repository.full_name
    &&& a.workflow_id == b.workflow_id
    &&& a.head_branch == b.head_branch
}

/// How many of the runs are of the family of `run`.
pub open spec fn siblings(runs: Seq<WorkflowRunView>, run: WorkflowRunView) -> nat
    decreases runs.len(),
{
    if runs.len() == 0 {
        0
    } else {
        siblings(runs.drop_last(), run) + if same_family(runs.last(), run) {
            1nat
        } else {
            0nat
        }
    }
}

/// The first `n` runs of every family.
pub open spec fn family_firsts(runs: Seq<WorkflowRunView>, n: usize) -> Seq<(Seq<char>, u64)>
    decreases runs.len(),
{
    if runs.len() == 0 {
        Seq::empty()
    } else {
        let rest = family_firsts(runs.drop_last(), n);
        if siblings(runs.drop_last(), runs.last()) < n {
            rest.push(run_identity(runs.last()))
        } else {
            rest
        }
    }
}

/// The runs that a rule keeps: of those that it matches and that are completed, the latest of
/// every family.
pub open spec fn latest_runs(rule: PolicyRuleView, runs: Seq<WorkflowRunView>) -> Seq<(Seq<char>, u64)> {
    match rule.keep_latest {
        Some(n) => family_firsts(
            sorted::<WorkflowRun, NewestRun>(picked(runs, run_column(rule, runs)), NewestRun),
            n,
        ),
        None => Seq::empty(),
    }
}

/// For each rule, the runs that it keeps as the latest.
pub open spec fn run_picks(rules: Seq<PolicyRuleView>, runs: Seq<WorkflowRunView>) -> Seq<Seq<(Seq<char>, u64)>> {
    Seq::new(rules.len(), |j: int| latest_runs(rules[j], runs))
}

pub open spec fn run_decision(
    run: WorkflowRunView,
    decision: Decision,
    effective_keep_days: Option<u64>,
    reasons: Seq<DecisionReasonView>,
) -> WorkflowRunDecisionView {
    WorkflowRunDecisionView {
        run_id: run.id,
        repository: run.repository.full_name,
        workflow_id: run.workflow_id,
        workflow_name: run.workflow_name,
        branch: run.head_branch,
        event: run.event,
        conclusion: run.conclusion,
        decision,
        effective_keep_days,
        reasons,
    }
}

/// What is decided about a workflow run, by what settles the matter.
pub open spec fn decide_run(
    run: WorkflowRunView,
    scanned_at: Timestamp,
    defaults: WorkflowRunPolicyDefaults,
    settled: SettlementView,
) -> WorkflowRunDecisionView {
    let age = scanned_at.since(run.created_at);
    if !run.completed() {
        run_decision(
            run,
            Decision::Keep,
            None,
            seq![
                DecisionReasonView {
                    code: ReasonCode::RunNotCompleted,
                    rule_id: None,
                    explanation: "workflow run is not completed (status "@ + run.status
                        + "); destructive run retention never selects active runs"@,
                },
            ],
        )
    } else {
        decide_completed_run(run, age, defaults, settled)
    }
}

/// What is decided about a completed run of a given age, by what settles the matter.
pub open spec fn decide_completed_run(
    run: WorkflowRunView,
    age: int,
    defaults: WorkflowRunPolicyDefaults,
    settled: SettlementView,
) -> WorkflowRunDecisionView {
    match settled {
        SettlementView::Protected(rules) => run_decision(
            run,
            Decision::Protected,
            None,
            explained(
                rule_ids(rules),
                ReasonCode::ExplicitProtection,
                "workflow run is explicitly protected by policy rule "@,
                ""@,
            ),
        ),
        SettlementView::Latest(ids) => run_decision(
            run,
            Decision::Keep,
            None,
            explained(
                ids,
                ReasonCode::KeepLatest,
                "workflow run is among the latest completed runs retained by policy rule "@,
                " for its repository/workflow/branch family"@,
            ),
        ),
        SettlementView::Conflict(rules) => run_decision(
            run,
            Decision::ManualReview,
            None,
            day_conflicts(rules, "equally specific workflow-run rule "@),
        ),
        SettlementView::Ruled(rules) => {
            let days = rules[0].keep_days->0;
            run_decision(
                run,
                verdict(expired(age, days)),
                Some(days),
                explained(
                    rule_ids(rules),
                    if expired(age, days) {
                        ReasonCode::RuleRetentionExpired
                    } else {
                        ReasonCode::RuleRetentionActive
                    },
                    "effective workflow-run retention is "@ + decimal(days as nat) + " day(s) because of policy rule "@,
                    ""@,
                ),
            )
        },
        SettlementView::Default => {
            let days = defaults.keep_days;
            run_decision(
                run,
                verdict(expired(age, days)),
                Some(days),
                seq![
                    DecisionReasonView {
                        code: if expired(age, days) {
                            ReasonCode::DefaultRetentionExpired
                        } else {
                            ReasonCode::DefaultRetentionActive
                        },
                        rule_id: None,
                        explanation: "default workflow-run retention is "@ + decimal(days as nat) + " day(s)"@,
                    },
                ],
            )
        },
    }
}

/// What a policy decides about a workflow run of a scan.
pub open spec fn classified_run(
    config: PolicyConfigView,
    runs: Seq<WorkflowRunView>,
    run: WorkflowRunView,
    scanned_at: Timestamp,
) -> WorkflowRunDecisionView {
    decide_run(
        run,
        scanned_at,
        config.defaults.runs,
        settlement(
            config.rules,
            run_row(config.rules, run),
            kept_by(config.rules, run_picks(config.rules, runs), run_identity(run)),
            false,
        ),
    )
}

/// What a policy decides about the runs of a scan.
pub open spec fn classified_runs(config: PolicyConfigView, snapshot: WorkflowRunInventorySnapshotView) -> WorkflowRunClassificationReportView {
    WorkflowRunClassificationReportView {
        scanned_at: snapshot.scanned_at,
        decisions: Seq::new(
            snapshot.runs.len(),
            |i: int|
                classified_run(config, snapshot.runs, snapshot.runs[i], snapshot.scanned_at),
        ),
    }
}

fn decision(
    run: &WorkflowRun,
    value: Decision,
    effective_keep_days: Option<u64>,
    reasons: Vec<DecisionReason>,
) -> (result: WorkflowRunDecision)
    ensures
        result.deep_view() == run_decision(
            run.deep_view(),
            value,
            effective_keep_days,
            reasons.deep_view(),
        ),
{
    WorkflowRunDecision {
        run_id: run.id,
        repository: run.repository.full_name.copied(),
        workflow_id: run.workflow_id,
        workflow_name: run.workflow_name.copied(),
        branch: run.head_branch.copied(),
        event: run.event.copied(),
        conclusion: run.conclusion.copied(),
        decision: value,
        effective_keep_days,
        reasons,
    }
}

/// What is decided about a workflow run, by the rules that match it and the rules that keep it as
/// one of the latest.
pub fn classify_matched_run(
    run: &WorkflowRun,
    scanned_at: Timestamp,
    config: &PolicyConfig,
    matched: &Vec<bool>,
    kept: Vec<String>,
) -> (result: WorkflowRunDecision)
    requires
        matched.len() == config.rules.len(),
    ensures
        result.deep_view() == decide_run(
            run.deep_view(),
            scanned_at,
            config.defaults.runs,
            settlement(config.deep_view().rules, matched@, kept.deep_view(), false),
        ),
{
    proof {
        lemma_ruled(config.deep_view().rules, matched@, kept.deep_view(), false);
    }
    let age: u64 = run.age_seconds(scanned_at);
    if !run.is_completed() {
        let reason = DecisionReason {
            code: ReasonCode::RunNotCompleted,
            rule_id: None,
            explanation: join3(
                "workflow run is not completed (status ",
                run.status.as_str(),
                "); destructive run retention never selects active runs",
            ),
        };
        return decision(run, Decision::Keep, None, single(reason));
    }
    match settle(&config.rules, matched, kept, false) {
        Settlement::Protected(rules) => {
            let reasons = explain(
                &ids_of(&rules),
                ReasonCode::ExplicitProtection,
                "workflow run is explicitly protected by policy rule ",
                "",
            );
            decision(run, Decision::Protected, None, reasons)
        },
        Settlement::Latest(ids) => {
            let reasons = explain(
                &ids,
                ReasonCode::KeepLatest,
                "workflow run is among the latest completed runs retained by policy rule ",
                " for its repository/workflow/branch family",
            );
            decision(run, Decision::Keep, None, reasons)
        },
        Settlement::Conflict(rules) => {
            let reasons = explain_day_conflicts(&rules, "equally specific workflow-run rule ");
            decision(run, Decision::ManualReview, None, reasons)
        },
        Settlement::Ruled(rules) => {
            assert(rules.deep_view()[0] == rules@[0].deep_view());
            let days: u64 = match rules[0].keep_days {
                Some(days) => days,
                None => config.defaults.runs.keep_days,
            };
            let has_expired = has_expired(age, days);
            let code = if has_expired {
                ReasonCode::RuleRetentionExpired
            } else {
                ReasonCode::RuleRetentionActive
            };
            let before = join3("effective workflow-run retention is ", number(days).as_str(), " day(s) because of policy rule ");
            let reasons = explain(&ids_of(&rules), code, before.as_str(), "");
            decision(run, give_verdict(has_expired), Some(days), reasons)
        },
        Settlement::Default => {
            let days: u64 = config.defaults.runs.keep_days;
            let has_expired = has_expired(age, days);
            let reason = DecisionReason {
                code: if has_expired {
                    ReasonCode::DefaultRetentionExpired
                } else {
                    ReasonCode::DefaultRetentionActive
                },
                rule_id: None,
                explanation: join3("default workflow-run retention is ", number(days).as_str(), " day(s)"),
            };
            decision(run, give_verdict(has_expired), Some(days), single(reason))
        },
    }
}

impl PolicyEngine {
    /// Which rules match a workflow run.
    fn match_run(&self, run: &WorkflowRun) -> (result: Vec<bool>)
        requires
            self.policy().compiles(),
        ensures
            result@ == run_row(self.policy().rules, run.deep_view()),
    {
        let config = self.config();
        let ghost rules = self.policy().rules;
        let mut result: Vec<bool> = Vec::new();
        let mut j: usize = 0;
        while j < config.rules.len()
            invariant
                j <= config.rules.len(),
                rules == config.rules.deep_view(),
                self.policy().rules == rules,
                self.policy() == config.deep_view(),
                self.policy().compiles(),
                result.len() == j,
                forall|k: int| 0 <= k < j ==> result@[k] == (#[trigger] rules[k]).matches_workflow_run(run.deep_view()),
            decreases config.rules.len() - j,
        {
            assert(rules[j as int] == config.rules@[j as int].deep_view());
            result.push(config.rules[j].matches_workflow_run(run));
            j = j + 1;
        }
        assert(result@ =~= run_row(rules, run.deep_view()));
        result
    }

    /// For each rule, the runs that it keeps as the latest.
    fn workflow_run_keep_latest_selections(&self, runs: &Vec<WorkflowRun>) -> (result: Vec<Vec<(String, u64)>>)
        requires
            self.policy().compiles(),
        ensures
            result.deep_view() == run_picks(self.policy().rules, runs.deep_view()),
            result.len() == self.policy().rules.len(),
    {
        let config = self.config();
        let ghost rules = self.policy().rules;
        let ghost all = run_picks(rules, runs.deep_view());
        let mut result: Vec<Vec<(String, u64)>> = nothing();
        let mut j: usize = 0;
        while j < config.rules.len()
            invariant
                j <= config.rules.len(),
                rules == config.rules.deep_view(),
                self.policy().rules == rules,
                self.policy() == config.deep_view(),
                self.policy().compiles(),
                all == run_picks(rules, runs.deep_view()),
                result.len() == j,
                result.deep_view() == all.take(j as int),
            decreases config.rules.len() - j,
        {
            assert(rules[j as int] == config.rules@[j as int].deep_view());
            let picks = select_latest_runs(&config.rules[j], runs);
            add_to(&mut result, picks);
            j = j + 1;
            assert(result.deep_view() =~= all.take(j as int));
        }
        assert(all.take(j as int) =~= all);
        result
    }

    /// What the policy decides about the runs of a scan.
    pub fn classify_workflow_run_snapshot(&self, snapshot: &WorkflowRunInventorySnapshot) -> (result: WorkflowRunClassificationReport)
        requires
            self.policy().compiles(),
        ensures
            result.deep_view() == classified_runs(self.policy(), snapshot.deep_view()),
    {
        let config = self.config();
        let picks = self.workflow_run_keep_latest_selections(&snapshot.runs);
        let ghost all = classified_runs(self.policy(), snapshot.deep_view()).decisions;
        let ghost runs = snapshot.runs.deep_view();
        let mut decisions: Vec<WorkflowRunDecision> = nothing();
        let mut i: usize = 0;
        while i < snapshot.runs.len()
            invariant
                i <= snapshot.runs.len(),
                self.policy().compiles(),
                runs == snapshot.runs.deep_view(),
                all == classified_runs(self.policy(), snapshot.deep_view()).decisions,
                picks.deep_view() == run_picks(self.policy().rules, runs),
                picks.len() == config.rules.len(),
                self.policy() == config.deep_view(),
                decisions.deep_view() == all.take(i as int),
            decreases snapshot.runs.len() - i,
        {
            let run = &snapshot.runs[i];
            assert(runs[i as int] == run.deep_view());
            let matched = self.match_run(run);
            let identity = (run.repository.full_name.copied(), run.id);
            let kept = find_kept_by(&config.rules, &picks, &identity);
            let decided = classify_matched_run(run, snapshot.scanned_at, config, &matched, kept);
            assert(decided.deep_view() == all[i as int]);
            add_to(&mut decisions, decided);
            i = i + 1;
            assert(decisions.deep_view() =~= all.take(i as int));
        }
        assert(all.take(i as int) =~= all);
        WorkflowRunClassificationReport { scanned_at: snapshot.scanned_at, decisions }
    }
}

fn is_same_family(a: &WorkflowRun, b: &WorkflowRun) -> (result: bool)
    ensures
        result == same_family(a.deep_view(), b.deep_view()),
{
    a.repository.full_name.same(&b.repository.full_name) && a.workflow_id == b.workflow_id && a.head_branch.same(
        &b.head_branch,
    )
}

/// How many of the first `end` runs are of the family of the run at `end`.
fn count_siblings(runs: &Vec<WorkflowRun>, end: usize) -> (result: usize)
    requires
        end < runs.len(),
    ensures
        result == siblings(runs.deep_view().take(end as int), runs.deep_view()[end as int]),
{
    let ghost all = runs.deep_view();
    let mut count: usize = 0;
    let mut i: usize = 0;
    assert(all.take(0) =~= Seq::empty());
    while i < end
        invariant
            i <= end < runs.len(),
            all == runs.deep_view(),
            count <= i,
            count == siblings(all.take(i as int), all[end as int]),
        decreases end - i,
    {
        assert(all.take(i + 1).drop_last() =~= all.take(i as int));
        assert(all[i as int] == runs@[i as int].deep_view());
        assert(all[end as int] == runs@[end as int].deep_view());
        if is_same_family(&runs[i], &runs[end]) {
            count = count + 1;
        }
        i = i + 1;
    }
    count
}

/// The runs that a rule keeps: of those that it matches and that are completed, the latest of
/// every family.
fn select_latest_runs(rule: &PolicyRule, runs: &Vec<WorkflowRun>) -> (result: Vec<(String, u64)>)
    requires
        rule.deep_view().compiles(),
    ensures
        result.deep_view() == latest_runs(rule.deep_view(), runs.deep_view()),
{
    let keep: usize = match rule.keep_latest {
        Some(n) => n,
        None => {
            return nothing();
        },
    };
    let ghost all = runs.deep_view();
    let mut matched: Vec<bool> = Vec::new();
    let mut i: usize = 0;
    while i < runs.len()
        invariant
            i <= runs.len(),
            rule.deep_view().compiles(),
            all == runs.deep_view(),
            matched.len() == i,
            forall|k: int|
                0 <= k < i ==> matched@[k] == ((#[trigger] all[k]).completed()
                    && rule.deep_view().matches_workflow_run(all[k])),
        decreases runs.len() - i,
    {
        assert(all[i as int] == runs@[i as int].deep_view());
        matched.push(runs[i].is_completed() && rule.matches_workflow_run(&runs[i]));
        i = i + 1;
    }
    assert(matched@ =~= run_column(rule.deep_view(), all));
    let newest = sort(pick(runs, &matched), &NewestRun);
    let ghost ordered = newest.deep_view();
    let mut result: Vec<(String, u64)> = nothing();
    let mut k: usize = 0;
    assert(ordered.take(0) =~= Seq::empty());
    while k < newest.len()
        invariant
            k <= newest.len(),
            ordered == newest.deep_view(),
            result.deep_view() == family_firsts(ordered.take(k as int), keep),
        decreases newest.len() - k,
    {
        assert(ordered.take(k + 1).drop_last() =~= ordered.take(k as int));
        assert(ordered[k as int] == newest@[k as int].deep_view());
        if count_siblings(&newest, k) < keep {
            add_to(&mut result, (newest[k].repository.full_name.copied(), newest[k].id));
        }
        k = k + 1;
    }
    assert(ordered.take(k as int) =~= ordered);
    result
}

/// What was decided, item by item.
pub open spec fn verdicts(decisions: Seq<WorkflowRunDecisionView>) -> Seq<Decision> {
    Seq::new(decisions.len(), |i: int| decisions[i].decision)
}

/// The runs that are to be deleted.
pub open spec fn deletions(decisions: Seq<WorkflowRunDecisionView>) -> Seq<(Seq<char>, u64)>
    decreases decisions.len(),
{
    if decisions.len() == 0 {
        Seq::empty()
    } else {
        let rest = deletions(decisions.drop_last());
        if decisions.last().decision == Decision::Delete {
            rest.push((decisions.last().repository, decisions.last().run_id))
        } else {
            rest
        }
    }
}

impl WorkflowRunClassificationReport {
    /// How often a decision was taken.
    pub fn count(&self, decision: Decision) -> (result: usize)
        ensures
            result == occurrences(verdicts(self.deep_view().decisions), decision),
    {
        let ghost all = verdicts(self.decisions.deep_view());
        let mut labels: Vec<Decision> = nothing();
        let mut i: usize = 0;
        while i < self.decisions.len()
            invariant
                i <= self.decisions.len(),
                all == verdicts(self.decisions.deep_view()),
                labels.deep_view() == all.take(i as int),
            decreases self.decisions.len() - i,
        {
            add_to(&mut labels, self.decisions[i].decision);
            i = i + 1;
            assert(labels.deep_view() =~= all.take(i as int));
        }
        assert(all.take(i as int) =~= all);
        count_of(&labels, &decision)
    }

    /// How many runs are to be deleted.
    pub fn delete_count(&self) -> (result: usize)
        ensures
            result == occurrences(verdicts(self.deep_view().decisions), Decision::Delete),
    {
        self.count(Decision::Delete)
    }

    /// The runs that are to be deleted, each once, by repository and number.
    pub fn delete_identities(&self) -> (result: Vec<(String, u64)>)
        ensures
            result.deep_view() == distinct::<(String, u64), RunIdentityOrder>(
                deletions(self.deep_view().decisions),
                RunIdentityOrder,
            ),
    {
        let ghost all = self.decisions.deep_view();
        let mut found: Vec<(String, u64)> = nothing();
        let mut i: usize = 0;
        assert(all.take(0) =~= Seq::empty());
        while i < self.decisions.len()
            invariant
                i <= self.decisions.len(),
                all == self.decisions.deep_view(),
                found.deep_view() == deletions(all.take(i as int)),
            decreases self.decisions.len() - i,
        {
            assert(all.take(i + 1).drop_last() =~= all.take(i as int));
            assert(all.take(i + 1).last() == self.decisions@[i as int].deep_view());
            if self.decisions[i].decision == Decision::Delete {
                add_to(&mut found, (self.decisions[i].repository.copied(), self.decisions[i].run_id));
            }
            i = i + 1;
        }
        assert(all.take(i as int) =~= all);
        sort_distinct(found, &RunIdentityOrder)
    }
}

/// A workflow run is deleted only if it is completed, nothing protects it, no rule keeps it as
/// one of the latest of its family, and it is as old as the agreed days or, without a rule, the
/// default days.
pub proof fn only_expired_completed_runs_are_deleted(
    config: PolicyConfigView,
    runs: Seq<WorkflowRunView>,
    run: WorkflowRunView,
    scanned_at: Timestamp,
)
    requires
        classified_run(config, runs, run, scanned_at).decision == Decision::Delete,
    ensures
        run.completed(),
        forall|j: int|
            0 <= j < config.rules.len() && (#[trigger] config.rules[j]).matches_workflow_run(run)
                ==> config.rules[j].protect != Some(true),
        kept_by(config.rules, run_picks(config.rules, runs), run_identity(run)).len() == 0,
        classified_run(config, runs, run, scanned_at).effective_keep_days is Some,
        expired(
            scanned_at.since(run.created_at),
            classified_run(config, runs, run, scanned_at).effective_keep_days->0,
        ),
{
    let row = run_row(config.rules, run);
    let kept = kept_by(config.rules, run_picks(config.rules, runs), run_identity(run));
    assert forall|j: int|
        0 <= j < config.rules.len() && (#[trigger] config.rules[j]).matches_workflow_run(
            run,
        ) implies config.rules[j].protect != Some(true) by {
        if config.rules[j].protect == Some(true) {
            assert(row[j]);
            protection_comes_first(config.rules, row, kept, false, j);
        }
    }
    if kept.len() > 0 {
        the_latest_are_kept(config.rules, row, kept, false);
    }
}

/// Of every family the first `n` runs are chosen: a run that fewer than `n` of its family stand
/// before is among them.
pub proof fn every_family_keeps_its_first(runs: Seq<WorkflowRunView>, n: usize, i: int)
    requires
        0 <= i < runs.len(),
        siblings(runs.take(i), runs[i]) < n,
    ensures
        family_firsts(runs, n).contains(run_identity(runs[i])),
    decreases runs.len(),
{
    let rest = family_firsts(runs.drop_last(), n);
    let all = family_firsts(runs, n);
    if i == runs.len() - 1 {
        assert(runs.take(i) =~= runs.drop_last());
        assert(all[all.len() - 1] == run_identity(runs[i]));
    } else {
        assert(runs.drop_last().take(i) =~= runs.take(i));
        every_family_keeps_its_first(runs.drop_last(), n, i);
        let k = choose|k: int| 0 <= k < rest.len() && rest[k] == run_identity(runs[i]);
        assert(all[k] == run_identity(runs[i]));
    }
}

/// Whether two runs are of one workflow, on one branch, in one repository.
pub open spec fn of_one_branch(a: WorkflowRunView, b: WorkflowRunView) -> bool {
    &&& a.repository.full_name == b.repository.full_name
    &&& a.workflow_id == b.workflow_id
    &&& a.head_branch == b.head_branch
}

/// Whether one run is newer than another: made later; if at the same time, changed later; if that
/// at the same time too, of a higher number, then of a later attempt, then of a higher id.
pub open spec fn newer_run(a: WorkflowRunView, b: WorkflowRunView) -> bool {
    if a.created_at.rank() != b.created_at.rank() {
        a.created_at.rank() > b.created_at.rank()
    } else if a.updated_at.rank() != b.updated_at.rank() {
        a.updated_at.rank() > b.updated_at.rank()
    } else if a.run_number != b.run_number {
        a.run_number > b.run_number
    } else if a.run_attempt != b.run_attempt {
        a.run_attempt > b.run_attempt
    } else {
        a.id > b.id
    }
}

/// How many completed runs that a rule matches are newer than a run, of its repository, its
/// workflow and its branch.
pub open spec fn newer_on_branch(rule: PolicyRuleView, runs: Seq<WorkflowRunView>, run: WorkflowRunView) -> nat {
    tally(
        runs,
        |r: WorkflowRunView|
            equal_but_for_case(r.status, "completed"@) && rule.matches_workflow_run(r) && r.repository.full_name
                == run.repository.full_name && r.workflow_id == run.workflow_id && r.head_branch == run.head_branch
                && newer_run(r, run),
    )
}

/// Whether a rule keeps a run as one of the latest of its branch.
pub open spec fn keeps_run(rule: PolicyRuleView, runs: Seq<WorkflowRunView>, run: WorkflowRunView) -> bool {
    equal_but_for_case(run.status, "completed"@) && rule.matches_workflow_run(run) && rule.keep_latest is Some && newer_on_branch(
        rule,
        runs,
        run,
    ) < rule.keep_latest->0
}

/// No two of the runs have the same repository and id.
pub open spec fn told_apart(runs: Seq<WorkflowRunView>) -> bool {
    forall|i: int, j: int|
        0 <= i < j < runs.len() ==> (#[trigger] runs[i]).repository.full_name != (
        #[trigger] runs[j]).repository.full_name || runs[i].id != runs[j].id
}

proof fn lemma_newest_run(a: WorkflowRunView, b: WorkflowRunView)
    ensures
        key_less(NewestRun.key(a), NewestRun.key(b)) <==> newer_run(a, b),
{
    reveal_with_fuel(key_less, 6);
    let s = NewestRun.key(a);
    let t = NewestRun.key(b);
    let s1 = s.drop_first();
    let t1 = t.drop_first();
    let s2 = s1.drop_first();
    let t2 = t1.drop_first();
    let s3 = s2.drop_first();
    let t3 = t2.drop_first();
    let s4 = s3.drop_first();
    let t4 = t3.drop_first();
    assert(s[0] == Part::Number(-a.created_at.rank()) && t[0] == Part::Number(-b.created_at.rank()));
    assert(s1[0] == Part::Number(-a.updated_at.rank()) && t1[0] == Part::Number(-b.updated_at.rank()));
    assert(s2[0] == Part::Number(-(a.run_number as int)) && t2[0] == Part::Number(-(b.run_number as int)));
    assert(s3[0] == Part::Number(-(a.run_attempt as int)) && t3[0] == Part::Number(-(b.run_attempt as int)));
    assert(s4[0] == Part::Number(-(a.id as int)) && t4[0] == Part::Number(-(b.id as int)));
    assert(s4.drop_first().len() == 0 && t4.drop_first().len() == 0);
}

proof fn lemma_siblings(runs: Seq<WorkflowRunView>, run: WorkflowRunView)
    ensures
        siblings(runs, run) == tally(runs, |r: WorkflowRunView| of_one_branch(r, run)),
    decreases runs.len(),
{
    if runs.len() > 0 {
        lemma_siblings(runs.drop_last(), run);
    }
}

proof fn lemma_family_firsts(runs: Seq<WorkflowRunView>, n: usize, identity: (Seq<char>, u64)) -> (i: int)
    requires
        family_firsts(runs, n).contains(identity),
    ensures
        0 <= i < runs.len(),
        run_identity(runs[i]) == identity,
        siblings(runs.take(i), runs[i]) < n,
    decreases runs.len(),
{
    let all = family_firsts(runs, n);
    let rest = family_firsts(runs.drop_last(), n);
    let last = runs.len() - 1;
    if rest.contains(identity) {
        let i = lemma_family_firsts(runs.drop_last(), n, identity);
        assert(runs.drop_last().take(i) =~= runs.take(i));
        i
    } else {
        let k = choose|k: int| 0 <= k < all.len() && all[k] == identity;
        if k < rest.len() {
            assert(rest[k] == identity);
        }
        assert(runs.take(last) =~= runs.drop_last());
        last
    }
}

proof fn lemma_latest_runs(rule: PolicyRuleView, runs: Seq<WorkflowRunView>, run: WorkflowRunView)
    requires
        runs.contains(run),
    ensures
        keeps_run(rule, runs, run) ==> latest_runs(rule, runs).contains(run_identity(run)),
        told_apart(runs) && latest_runs(rule, runs).contains(run_identity(run)) ==> keeps_run(rule, runs, run),
{
    let column = run_column(rule, runs);
    let matching = picked(runs, column);
    let order = NewestRun;
    let ordered = sorted::<WorkflowRun, NewestRun>(matching, order);
    let counted = |r: WorkflowRunView| of_one_branch(r, run) && newer_run(r, run);
    let newer = |r: WorkflowRunView|
        equal_but_for_case(r.status, "completed"@) && rule.matches_workflow_run(r) && r.repository.full_name == run.repository.full_name
            && r.workflow_id == run.workflow_id && r.head_branch == run.head_branch && newer_run(r, run);
    lemma_picked(runs, column);
    assert forall|i: int| 0 <= i < runs.len() implies newer(#[trigger] runs[i]) == (column[i] && counted(runs[i])) by {
        case_is_disregarded(runs[i].status, "completed"@);
    }
    lemma_picked_tally(runs, column, counted, newer);
    lemma_sorted_tally::<WorkflowRun, NewestRun>(matching, order, counted);
    sorting_is_an_ordered_rearrangement::<WorkflowRun, NewestRun>(matching, order);
    assert(newer_on_branch(rule, runs, run) == tally(ordered, counted));
    case_is_disregarded(run.status, "completed"@);
    let at = choose|i: int| 0 <= i < runs.len() && runs[i] == run;
    if keeps_run(rule, runs, run) {
        let n = rule.keep_latest->0;
        assert(runs[at] == run && column[at]);
        assert(matching.contains(run));
        lemma_sorted_contains::<WorkflowRun, NewestRun>(matching, order, run);
        let k = choose|k: int| 0 <= k < ordered.len() && ordered[k] == run;
        let alike = |r: WorkflowRunView| order.key(r) == order.key(run) && of_one_branch(r, run);
        let i = lemma_first(ordered, alike, k);
        let family = |r: WorkflowRunView| of_one_branch(r, ordered[i]);
        assert forall|j: int| 0 <= j < i && family(#[trigger] ordered[j]) implies counted(ordered[j]) by {
            assert(!alike(ordered[j]));
            assert(le::<WorkflowRun, NewestRun>(order, ordered[j], ordered[i]));
            lemma_key_less(order.key(ordered[j]), order.key(run));
            lemma_newest_run(ordered[j], run);
        }
        lemma_tally_grows(ordered, i, family, counted);
        lemma_siblings(ordered.take(i), ordered[i]);
        every_family_keeps_its_first(ordered, n, i);
        assert(order.key(ordered[i])[4] == Part::Number(-(ordered[i].id as int)));
        assert(order.key(run)[4] == Part::Number(-(run.id as int)));
        assert(run_identity(ordered[i]) == run_identity(run));
    }
    if told_apart(runs) && latest_runs(rule, runs).contains(run_identity(run)) {
        let n = rule.keep_latest->0;
        let i = lemma_family_firsts(ordered, n, run_identity(run));
        assert(ordered.contains(ordered[i]));
        lemma_sorted_contains::<WorkflowRun, NewestRun>(matching, order, ordered[i]);
        assert(matching.contains(ordered[i]));
        let k = choose|k: int| 0 <= k < runs.len() && column[k] && #[trigger] runs[k] == ordered[i];
        assert(runs[k].id == runs[at].id && runs[k].repository.full_name == runs[at].repository.full_name);
        assert(k == at);
        let family = |r: WorkflowRunView| of_one_branch(r, run);
        assert forall|j: int| 0 <= j < ordered.len() && counted(#[trigger] ordered[j]) implies j < i && family(
            ordered[j],
        ) by {
            lemma_newest_run(ordered[j], run);
            lemma_key_less(order.key(run), order.key(run));
            if j >= i {
                assert(le::<WorkflowRun, NewestRun>(order, ordered[i], ordered[j]));
            }
        }
        lemma_tally_before(ordered, i, counted, family);
        lemma_siblings(ordered.take(i), run);
    }
}

/// A rule keeps the latest runs of every workflow on every branch of every repository: a completed
/// run that it matches is kept whenever fewer completed runs that it matches are newer, of the
/// same repository, the same workflow and the same branch, than the rule keeps.
pub proof fn the_newest_runs_of_a_branch_stay(
    config: PolicyConfigView,
    runs: Seq<WorkflowRunView>,
    run: WorkflowRunView,
    scanned_at: Timestamp,
    j: int,
)
    requires
        runs.contains(run),
        0 <= j < config.rules.len(),
        equal_but_for_case(run.status, "completed"@),
        config.rules[j].matches_workflow_run(run),
        config.rules[j].keep_latest is Some,
        newer_on_branch(config.rules[j], runs, run) < config.rules[j].keep_latest->0,
    ensures
        classified_run(config, runs, run, scanned_at).decision == Decision::Keep || classified_run(
            config,
            runs,
            run,
            scanned_at,
        ).decision == Decision::Protected,
        classified_run(config, runs, run, scanned_at).effective_keep_days is None,
{
    let rules = config.rules;
    let picks = run_picks(rules, runs);
    case_is_disregarded(run.status, "completed"@);
    lemma_latest_runs(rules[j], runs, run);
    assert(picks[j].contains(run_identity(run)));
    lemma_kept_by(rules, picks, run_identity(run));
    lemma_settled(rules, run_row(rules, run), kept_by(rules, picks, run_identity(run)), false);
}

/// Where a rule keeps any at all, the newest completed run that it matches, of every workflow on
/// every branch of every repository, is never deleted.
pub proof fn the_newest_run_of_a_branch_is_never_deleted(
    config: PolicyConfigView,
    runs: Seq<WorkflowRunView>,
    run: WorkflowRunView,
    scanned_at: Timestamp,
    j: int,
)
    requires
        runs.contains(run),
        0 <= j < config.rules.len(),
        equal_but_for_case(run.status, "completed"@),
        config.rules[j].matches_workflow_run(run),
        config.rules[j].keep_latest is Some && config.rules[j].keep_latest->0 >= 1,
        forall|i: int|
            0 <= i < runs.len() && equal_but_for_case((#[trigger] runs[i]).status, "completed"@) && config.rules[j].matches_workflow_run(
                runs[i],
            ) && runs[i].repository.full_name == run.repository.full_name && runs[i].workflow_id == run.workflow_id
                && runs[i].head_branch == run.head_branch ==> !newer_run(runs[i], run),
    ensures
        classified_run(config, runs, run, scanned_at).decision != Decision::Delete,
{
    let rule = config.rules[j];
    let newer = |r: WorkflowRunView|
        equal_but_for_case(r.status, "completed"@) && rule.matches_workflow_run(r) && r.repository.full_name == run.repository.full_name
            && r.workflow_id == run.workflow_id && r.head_branch == run.head_branch && newer_run(r, run);
    lemma_tally_before(runs, 0, newer, newer);
    assert(runs.take(0).len() == 0);
    the_newest_runs_of_a_branch_stay(config, runs, run, scanned_at, j);
}

/// A run that is not completed is kept, whatever the rules say.
pub proof fn what_still_runs_is_kept(
    config: PolicyConfigView,
    runs: Seq<WorkflowRunView>,
    run: WorkflowRunView,
    scanned_at: Timestamp,
)
    requires
        !equal_but_for_case(run.status, "completed"@),
    ensures
        ({
            let decided = classified_run(config, runs, run, scanned_at);
            &&& decided.decision == Decision::Keep
            &&& decided.effective_keep_days is None
            &&& decided.reasons.len() == 1
            &&& decided.reasons[0].code == ReasonCode::RunNotCompleted
        }),
{
    case_is_disregarded(run.status, "completed"@);
}

/// A completed run that no rule protects and none keeps as one of the latest is decided about by
/// its age alone, against the days of the most specific rule that matches it, or the default days.
pub proof fn age_decides_about_other_runs(
    config: PolicyConfigView,
    runs: Seq<WorkflowRunView>,
    run: WorkflowRunView,
    scanned_at: Timestamp,
)
    requires
        runs.contains(run),
        told_apart(runs),
        equal_but_for_case(run.status, "completed"@),
        forall|j: int|
            0 <= j < config.rules.len() ==> !((#[trigger] config.rules[j]).matches_workflow_run(run)
                && config.rules[j].protect == Some(true)) && !keeps_run(config.rules[j], runs, run),
    ensures
        ({
            let decided = classified_run(config, runs, run, scanned_at);
            let age = scanned_at.since(run.created_at);
            let matched = Seq::new(config.rules.len(), |j: int| config.rules[j].matches_workflow_run(run));
            &&& decided.decision != Decision::Protected
            &&& decided.decision == Decision::Delete <==> decided.effective_keep_days is Some && days_are_over(
                age,
                decided.effective_keep_days->0,
            )
            &&& decided.decision == Decision::ManualReview <==> decided.effective_keep_days is None
            &&& decided.decision == Decision::ManualReview <==> exists|j: int, k: int| #[trigger]
                leads(config.rules, matched, false, j) && #[trigger] leads(config.rules, matched, false, k)
                    && config.rules[j].keep_days != config.rules[k].keep_days
            &&& forall|j: int| #[trigger]
                leads(config.rules, matched, false, j) && decided.effective_keep_days is Some
                    ==> decided.effective_keep_days == config.rules[j].keep_days
            &&& (forall|j: int| !#[trigger] sets_retention(config.rules, matched, false, j))
                ==> decided.effective_keep_days == Some(config.defaults.runs.keep_days)
        }),
{
    let rules = config.rules;
    let picks = run_picks(rules, runs);
    let row = run_row(rules, run);
    let matched = Seq::new(rules.len(), |j: int| rules[j].matches_workflow_run(run));
    assert(row =~= matched);
    case_is_disregarded(run.status, "completed"@);
    let kept = kept_by(rules, picks, run_identity(run));
    lemma_kept_by(rules, picks, run_identity(run));
    if kept.len() > 0 {
        let j = choose|j: int| 0 <= j < picks.len() && (#[trigger] picks[j]).contains(run_identity(run));
        lemma_latest_runs(rules[j], runs, run);
        assert(keeps_run(rules[j], runs, run));
    }
    if some_rule_protects(rules, matched) {
        let j = choose|j: int| 0 <= j < rules.len() && matched[j] && (#[trigger] rules[j]).protect == Some(true);
        assert(rules[j].matches_workflow_run(run));
    }
    lemma_settled(rules, row, kept, false);
}

/// Every run of a scan is decided about, in its place.
pub proof fn every_run_gets_its_decision(config: PolicyConfigView, snapshot: WorkflowRunInventorySnapshotView)
    ensures
        ({
            let report = classified_runs(config, snapshot);
            &&& report.scanned_at == snapshot.scanned_at
            &&& report.decisions.len() == snapshot.runs.len()
            &&& forall|i: int|
                0 <= i < snapshot.runs.len() ==> ({
                    let decided = #[trigger] report.decisions[i];
                    let run = snapshot.runs[i];
                    &&& decided == classified_run(config, snapshot.runs, run, snapshot.scanned_at)
                    &&& decided.run_id == run.id
                    &&& decided.repository == run.repository.full_name
                    &&& decided.workflow_id == run.workflow_id
                    &&& decided.workflow_name == run.workflow_name
                    &&& decided.branch == run.head_branch
                    &&& decided.event == run.event
                    &&& decided.conclusion == run.conclusion
                })
        }),
{
}

/// The runs to be deleted are those decided to be, each by its repository and its number, in their
/// order.
pub proof fn deletions_are_what_is_decided(decisions: Seq<WorkflowRunDecisionView>)
    ensures
        deletions(decisions) == decisions.filter(|d: WorkflowRunDecisionView| d.decision is Delete).map_values(
            |d: WorkflowRunDecisionView| (d.repository, d.run_id),
        ),
    decreases decisions.len(),
{
    reveal(Seq::filter);
    let p = |d: WorkflowRunDecisionView| d.decision is Delete;
    let f = |d: WorkflowRunDecisionView| (d.repository, d.run_id);
    if decisions.len() > 0 {
        let rest = decisions.drop_last();
        deletions_are_what_is_decided(rest);
        if p(decisions.last()) {
            assert(rest.filter(p).push(decisions.last()).map_values(f) =~= rest.filter(p).map_values(f).push(
                f(decisions.last()),
            ));
        }
    } else {
        assert(deletions(decisions) =~= decisions.filter(p).map_values(f));
    }
}

/// Every decision about a completed run says what it rests on: the rules that protect it, that keep it
/// as one of the latest, that disagree or that set its days, each by its id; or the default days. With
/// days, the reason also says whether they are over.
pub proof fn a_decision_about_a_run_says_why(
    run: WorkflowRunView,
    age: int,
    defaults: WorkflowRunPolicyDefaults,
    settled: SettlementView,
    i: int,
)
    ensures
        ({
            let decided = decide_completed_run(run, age, defaults, settled);
            let reason = decided.reasons[i];
            &&& settled matches SettlementView::Protected(rules) ==> decided.reasons.len() == rules.len() && (0 <= i
                < rules.len() ==> reason.code is ExplicitProtection && reason.rule_id == Some(rules[i].id))
            &&& settled matches SettlementView::Latest(ids) ==> decided.reasons.len() == ids.len() && (0 <= i < ids.len()
                ==> reason.code is KeepLatest && reason.rule_id == Some(ids[i]))
            &&& settled matches SettlementView::Conflict(rules) ==> decided.reasons.len() == rules.len() && (0 <= i
                < rules.len() ==> reason.code is ConflictingRetentionRules && reason.rule_id == Some(rules[i].id))
            &&& settled matches SettlementView::Ruled(rules) ==> decided.reasons.len() == rules.len() && (0 <= i
                < rules.len() ==> reason.rule_id == Some(rules[i].id) && (decided.decision is Delete ==> reason.code
                is RuleRetentionExpired) && (decided.decision is Keep ==> reason.code is RuleRetentionActive))
            &&& settled is Default ==> decided.reasons.len() == 1 && (i == 0 ==> reason.rule_id is None && (
            decided.decision is Delete ==> reason.code is DefaultRetentionExpired) && (decided.decision is Keep
                ==> reason.code is DefaultRetentionActive))
        }),
{
}

} // verus!
