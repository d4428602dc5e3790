//! Retention policies: defaults, rules, their check and their fingerprint.
use crate::glob::{
    check_glob, compilable, glob_error, glob_match, is_compilable, lets_through, matches_optional_glob,
};
use crate::inventory::optional_text;
use crate::model::{ActionsCache, ActionsCacheView, Artifact, ArtifactView, WorkflowRun, WorkflowRunView};
use crate::text::{blank, hex, hexadecimal, is_blank, join2, join3, join6};
use crate::value::{add_to, nothing, Value};
use vstd::prelude::*;
use vstd::utf8::encode_utf8;
use vstd::string::StringSliceAdditionalSpecFns;

verus! {

pub const DEFAULT_KEEP_DAYS: u64 = 30;

/// What a rule is about.
#[derive(Clone, Copy, Debug, PartialEq, Eq, Structural)]
pub enum PolicyResource {
    Artifact,
    Cache,
    WorkflowRun,
}

impl DeepView for PolicyResource {
    type V = PolicyResource;

    open spec fn deep_view(&self) -> PolicyResource {
        *self
    }
}

impl Value for PolicyResource {
    fn copied(&self) -> (result: Self) {
        *self
    }

    fn same(&self, other: &Self) -> (result: bool) {
        *self == *other
    }
}

impl Default for PolicyResource {
    fn default() -> (result: Self)
        ensures
            result == PolicyResource::Artifact,
    {
        PolicyResource::Artifact
    }
}

/// How long caches are kept that no rule speaks of.
#[derive(Clone, Copy, Debug, PartialEq, Eq, Structural)]
pub struct CachePolicyDefaults {
    pub keep_days: u64,
    pub keep_unused_days: Option<u64>,
}

impl CachePolicyDefaults {
    pub open spec fn built_in() -> CachePolicyDefaults {
        CachePolicyDefaults { keep_days: DEFAULT_KEEP_DAYS, keep_unused_days: None }
    }
}

impl Default for CachePolicyDefaults {
    fn default() -> (result: Self)
        ensures
            result == CachePolicyDefaults::built_in(),
    {
        CachePolicyDefaults { keep_days: DEFAULT_KEEP_DAYS, keep_unused_days: None }
    }
}

/// How long workflow runs are kept that no rule speaks of.
#[derive(Clone, Copy, Debug, PartialEq, Eq, Structural)]
pub struct WorkflowRunPolicyDefaults {
    pub keep_days: u64,
}

impl WorkflowRunPolicyDefaults {
    pub open spec fn built_in() -> WorkflowRunPolicyDefaults {
        WorkflowRunPolicyDefaults { keep_days: DEFAULT_KEEP_DAYS }
    }
}

impl Default for WorkflowRunPolicyDefaults {
    fn default() -> (result: Self)
        ensures
            result == WorkflowRunPolicyDefaults::built_in(),
    {
        WorkflowRunPolicyDefaults { keep_days: DEFAULT_KEEP_DAYS }
    }
}

/// How long things are kept that no rule speaks of.
#[derive(Clone, Copy, Debug, PartialEq, Eq, Structural)]
pub struct PolicyDefaults {
    pub keep_days: u64,
    pub caches: CachePolicyDefaults,
    pub runs: WorkflowRunPolicyDefaults,
}

impl PolicyDefaults {
    pub open spec fn built_in() -> PolicyDefaults {
        PolicyDefaults {
            keep_days: DEFAULT_KEEP_DAYS,
            caches: CachePolicyDefaults::built_in(),
            runs: WorkflowRunPolicyDefaults::built_in(),
        }
    }
}

impl Default for PolicyDefaults {
    fn default() -> (result: Self)
        ensures
            result == PolicyDefaults::built_in(),
    {
        PolicyDefaults {
            keep_days: DEFAULT_KEEP_DAYS,
            caches: CachePolicyDefaults::default(),
            runs: WorkflowRunPolicyDefaults::default(),
        }
    }
}

/// A rule: what it applies to, and what it asks for.
#[derive(Clone, Debug, PartialEq, Eq)]
pub struct PolicyRule {
    pub id: String,
    pub resource: PolicyResource,
    pub repository: Option<String>,
    pub workflow: Option<String>,
    pub artifact: Option<String>,
    pub branch: Option<String>,
    pub key: Option<String>,
    pub git_ref: Option<String>,
    pub keep_days: Option<u64>,
    pub keep_unused_days: Option<u64>,
    pub event: Option<String>,
    pub conclusion: Option<String>,
    pub keep_latest: Option<usize>,
    pub protect: Option<bool>,
}

/// The contents of [`PolicyRule`].
#[verifier::ext_equal]
pub struct PolicyRuleView {
    pub id: Seq<char>,
    pub resource: PolicyResource,
    pub repository: Option<Seq<char>>,
    pub workflow: Option<Seq<char>>,
    pub artifact: Option<Seq<char>>,
    pub branch: Option<Seq<char>>,
    pub key: Option<Seq<char>>,
    pub git_ref: Option<Seq<char>>,
    pub keep_days: Option<u64>,
    pub keep_unused_days: Option<u64>,
    pub event: Option<Seq<char>>,
    pub conclusion: Option<Seq<char>>,
    pub keep_latest: Option<usize>,
    pub protect: Option<bool>,
}

impl DeepView for PolicyRule {
    type V = PolicyRuleView;

    open spec fn deep_view(&self) -> PolicyRuleView {
        PolicyRuleView {
            id: self.id.deep_view(),
            resource: self.resource,
            repository: self.repository.deep_view(),
            workflow: self.workflow.deep_view(),
            artifact: self.artifact.deep_view(),
            branch: self.branch.deep_view(),
            key: self.key.deep_view(),
            git_ref: self.git_ref.deep_view(),
            keep_days: self.keep_days,
            keep_unused_days: self.keep_unused_days,
            event: self.event.deep_view(),
            conclusion: self.conclusion.deep_view(),
            keep_latest: self.keep_latest,
            protect: self.protect,
        }
    }
}

/// A policy.
#[derive(Clone, Debug, PartialEq, Eq)]
pub struct PolicyConfig {
    pub defaults: PolicyDefaults,
    pub rules: Vec<PolicyRule>,
}

/// The contents of [`PolicyConfig`].
#[verifier::ext_equal]
pub struct PolicyConfigView {
    pub defaults: PolicyDefaults,
    pub rules: Seq<PolicyRuleView>,
}

impl DeepView for PolicyConfig {
    type V = PolicyConfigView;

    open spec fn deep_view(&self) -> PolicyConfigView {
        PolicyConfigView {
            defaults: self.defaults,
            rules: self.rules.deep_view(),
        }
    }
}

impl Default for PolicyConfig {
    fn default() -> (result: Self)
        ensures
            result.deep_view() == (PolicyConfigView { defaults: PolicyDefaults::built_in(), rules: Seq::empty() }),
    {
        PolicyConfig { defaults: PolicyDefaults::default(), rules: nothing() }
    }
}

/// A policy that cannot be used.
#[derive(Clone, Debug, PartialEq, Eq)]
pub enum PolicyError {
    Toml(String),
    Validation(String),
}

impl PolicyError {
    pub open spec fn text(&self) -> Seq<char> {
        match self {
            PolicyError::Toml(detail) => "invalid TOML policy: "@ + detail@,
            PolicyError::Validation(detail) => "invalid policy: "@ + detail@,
        }
    }

    /// The error in words.
    pub fn message(&self) -> (result: String)
        ensures
            result@ == self.text(),
    {
        match self {
            PolicyError::Toml(detail) => join2("invalid TOML policy: ", detail.as_str()),
            PolicyError::Validation(detail) => join2("invalid policy: ", detail.as_str()),
        }
    }
}

// ---------------------------------------------------------------------------------------------
// What a rule applies to.
// ---------------------------------------------------------------------------------------------

/// A pattern and what it is matched with.
pub type PatternView = (Seq<char>, Seq<char>);

pub open spec fn listed(dimension: Seq<char>, pattern: Option<Seq<char>>) -> Seq<PatternView> {
    match pattern {
        Some(glob) => seq![(dimension, glob)],
        None => Seq::empty(),
    }
}

impl PolicyRuleView {
    /// The patterns of the rule.
    pub open spec fn patterns(self) -> Seq<PatternView> {
        listed("repository"@, self.repository) + listed("workflow"@, self.workflow) + listed(
            "artifact"@,
            self.artifact,
        ) + listed("branch"@, self.branch) + listed("key"@, self.key) + listed("ref"@, self.git_ref) + listed(
            "event"@,
            self.event,
        ) + listed("conclusion"@, self.conclusion)
    }

    /// How many patterns narrow the rule down.
    pub open spec fn specificity(self) -> nat {
        self.patterns().len()
    }

    /// Whether every pattern of the rule surely compiles.
    pub open spec fn compiles(self) -> bool {
        forall|i: int| 0 <= i < self.patterns().len() ==> compilable((#[trigger] self.patterns()[i]).1)
    }

    pub open spec fn matches_artifact(self, artifact: ArtifactView) -> bool {
        &&& self.resource == PolicyResource::Artifact
        &&& lets_through(self.repository, Some(artifact.repository.full_name))
        &&& lets_through(self.workflow, artifact.workflow())
        &&& lets_through(self.artifact, Some(artifact.name))
        &&& lets_through(self.branch, artifact.branch())
    }

    pub open spec fn matches_cache(self, cache: ActionsCacheView) -> bool {
        &&& self.resource == PolicyResource::Cache
        &&& lets_through(self.repository, Some(cache.repository.full_name))
        &&& lets_through(self.key, Some(cache.key))
        &&& lets_through(self.git_ref, Some(cache.git_ref))
    }

    pub open spec fn matches_workflow_run(self, run: WorkflowRunView) -> bool {
        &&& self.resource == PolicyResource::WorkflowRun
        &&& lets_through(self.repository, Some(run.repository.full_name))
        &&& lets_through(self.workflow, run.workflow_name)
        &&& lets_through(self.branch, run.head_branch)
        &&& lets_through(self.event, Some(run.event))
        &&& lets_through(self.conclusion, run.conclusion)
    }
}

proof fn lemma_compiles(rule: PolicyRuleView)
    requires
        rule.compiles(),
    ensures
        rule.repository is Some ==> compilable(rule.repository->0),
        rule.workflow is Some ==> compilable(rule.workflow->0),
        rule.artifact is Some ==> compilable(rule.artifact->0),
        rule.branch is Some ==> compilable(rule.branch->0),
        rule.key is Some ==> compilable(rule.key->0),
        rule.git_ref is Some ==> compilable(rule.git_ref->0),
        rule.event is Some ==> compilable(rule.event->0),
        rule.conclusion is Some ==> compilable(rule.conclusion->0),
{
    let all = rule.patterns();
    let a = listed("repository"@, rule.repository);
    let b = a + listed("workflow"@, rule.workflow);
    let c = b + listed("artifact"@, rule.artifact);
    let d = c + listed("branch"@, rule.branch);
    let e = d + listed("key"@, rule.key);
    let f = e + listed("ref"@, rule.git_ref);
    let g = f + listed("event"@, rule.event);
    if rule.repository is Some {
        assert(all[0].1 == rule.repository->0);
    }
    if rule.workflow is Some {
        assert(all[a.len() as int].1 == rule.workflow->0);
    }
    if rule.artifact is Some {
        assert(all[b.len() as int].1 == rule.artifact->0);
    }
    if rule.branch is Some {
        assert(all[c.len() as int].1 == rule.branch->0);
    }
    if rule.key is Some {
        assert(all[d.len() as int].1 == rule.key->0);
    }
    if rule.git_ref is Some {
        assert(all[e.len() as int].1 == rule.git_ref->0);
    }
    if rule.event is Some {
        assert(all[f.len() as int].1 == rule.event->0);
    }
    if rule.conclusion is Some {
        assert(all[g.len() as int].1 == rule.conclusion->0);
    }
}

fn optional_str(value: &Option<String>) -> (result: Option<&str>)
    ensures
        optional_text(result) == value.deep_view(),
{
    match value {
        Some(text) => Some(text.as_str()),
        None => None,
    }
}

/// A pattern of a rule, and what it is matched with.
#[derive(Clone, Debug, PartialEq, Eq)]
pub struct RulePattern {
    pub dimension: &'static str,
    pub glob: String,
}

impl DeepView for RulePattern {
    type V = PatternView;

    open spec fn deep_view(&self) -> PatternView {
        (self.dimension@, self.glob@)
    }
}

fn list(patterns: &mut Vec<RulePattern>, dimension: &'static str, pattern: &Option<String>)
    ensures
        final(patterns).deep_view() == old(patterns).deep_view() + listed(dimension@, pattern.deep_view()),
{
    let ghost before = patterns.deep_view();
    if let Some(glob) = pattern {
        add_to(patterns, RulePattern { dimension, glob: glob.copied() });
        assert(patterns.deep_view() =~= before + listed(dimension@, pattern.deep_view()));
    } else {
        assert(patterns.deep_view() =~= before + listed(dimension@, pattern.deep_view()));
    }
}

fn all_compilable(patterns: &Vec<RulePattern>) -> (result: bool)
    ensures
        result == forall|i: int|
            0 <= i < patterns.deep_view().len() ==> compilable((#[trigger] patterns.deep_view()[i]).1),
{
    let ghost all = patterns.deep_view();
    let mut i: usize = 0;
    while i < patterns.len()
        invariant
            i <= patterns.len(),
            all == patterns.deep_view(),
            forall|k: int| 0 <= k < i ==> compilable((#[trigger] all[k]).1),
        decreases patterns.len() - i,
    {
        assert(all[i as int].1 == patterns@[i as int].glob@);
        if !is_compilable(patterns[i].glob.as_str()) {
            assert(!compilable(patterns.deep_view()[i as int].1));
            return false;
        }
        i = i + 1;
    }
    true
}

impl PolicyRule {
    /// The patterns of the rule.
    pub fn patterns(&self) -> (result: Vec<RulePattern>)
        ensures
            result.deep_view() == self.deep_view().patterns(),
    {
        let mut patterns: Vec<RulePattern> = nothing();
        list(&mut patterns, "repository", &self.repository);
        list(&mut patterns, "workflow", &self.workflow);
        list(&mut patterns, "artifact", &self.artifact);
        list(&mut patterns, "branch", &self.branch);
        list(&mut patterns, "key", &self.key);
        list(&mut patterns, "ref", &self.git_ref);
        list(&mut patterns, "event", &self.event);
        list(&mut patterns, "conclusion", &self.conclusion);
        assert(patterns.deep_view() =~= self.deep_view().patterns());
        patterns
    }

    /// How many patterns narrow the rule down.
    pub fn specificity(&self) -> (result: usize)
        ensures
            result == self.deep_view().specificity(),
    {
        let patterns = self.patterns();
        assert(patterns.deep_view().len() == patterns.len());
        patterns.len()
    }

    /// Whether every pattern of the rule surely compiles.
    pub fn compiles(&self) -> (result: bool)
        ensures
            result == self.deep_view().compiles(),
    {
        let patterns = self.patterns();
        all_compilable(&patterns)
    }

    /// Whether the rule applies to an artifact.
    pub fn matches_artifact(&self, artifact: &Artifact) -> (result: bool)
        requires
            self.deep_view().compiles(),
        ensures
            result == self.deep_view().matches_artifact(artifact.deep_view()),
    {
        proof {
            lemma_compiles(self.deep_view());
        }
        self.resource == PolicyResource::Artifact && matches_optional_glob(
            &self.repository,
            Some(artifact.repository.full_name.as_str()),
        ) && matches_optional_glob(&self.workflow, artifact.workflow()) && matches_optional_glob(
            &self.artifact,
            Some(artifact.name.as_str()),
        ) && matches_optional_glob(&self.branch, artifact.branch())
    }

    /// Whether the rule applies to a cache.
    pub fn matches_cache(&self, cache: &ActionsCache) -> (result: bool)
        requires
            self.deep_view().compiles(),
        ensures
            result == self.deep_view().matches_cache(cache.deep_view()),
    {
        proof {
            lemma_compiles(self.deep_view());
        }
        self.resource == PolicyResource::Cache && matches_optional_glob(
            &self.repository,
            Some(cache.repository.full_name.as_str()),
        ) && matches_optional_glob(&self.key, Some(cache.key.as_str())) && matches_optional_glob(
            &self.git_ref,
            Some(cache.git_ref.as_str()),
        )
    }

    /// Whether the rule applies to a workflow run.
    pub fn matches_workflow_run(&self, run: &WorkflowRun) -> (result: bool)
        requires
            self.deep_view().compiles(),
        ensures
            result == self.deep_view().matches_workflow_run(run.deep_view()),
    {
        proof {
            lemma_compiles(self.deep_view());
        }
        self.resource == PolicyResource::WorkflowRun && matches_optional_glob(
            &self.repository,
            Some(run.repository.full_name.as_str()),
        ) && matches_optional_glob(&self.workflow, optional_str(&run.workflow_name)) && matches_optional_glob(
            &self.branch,
            optional_str(&run.head_branch),
        ) && matches_optional_glob(&self.event, Some(run.event.as_str())) && matches_optional_glob(
            &self.conclusion,
            optional_str(&run.conclusion),
        )
    }
}

// ---------------------------------------------------------------------------------------------
// The check of a policy.
// ---------------------------------------------------------------------------------------------

/// What is wrong with the patterns from `from` on.
pub open spec fn pattern_problem(id: Seq<char>, patterns: Seq<PatternView>, from: int) -> Option<Seq<char>>
    decreases patterns.len() - from,
{
    if from < 0 || from >= patterns.len() {
        None
    } else {
        match glob_error(patterns[from].1) {
            Some(error) => Some(
                "invalid "@ + patterns[from].0 + " glob in rule "@ + id + ": "@ + error,
            ),
            None => pattern_problem(id, patterns, from + 1),
        }
    }
}

/// Whether a rule before `i` has the id of the rule at `i`.
pub open spec fn id_repeats(rules: Seq<PolicyRuleView>, i: int) -> bool {
    exists|j: int| 0 <= j < i && (#[trigger] rules[j]).id == rules[i].id
}

impl PolicyRuleView {
    /// Whether the rule asks for anything.
    pub open spec fn acts(self) -> bool {
        self.keep_days is Some || self.keep_unused_days is Some || self.keep_latest is Some || self.protect == Some(
            true,
        )
    }

    /// Why the fields of the rule do not fit what it is about.
    pub open spec fn field_problem(self) -> Option<Seq<char>> {
        match self.resource {
            PolicyResource::Artifact => if self.key is Some || self.git_ref is Some || self.keep_unused_days is Some
                || self.event is Some || self.conclusion is Some {
                Some(
                    "artifact policy rule "@ + self.id
                        + " cannot use cache-only or run-only key, ref, keep_unused_days, event, or conclusion fields"@,
                )
            } else {
                None
            },
            PolicyResource::Cache => if self.workflow is Some || self.artifact is Some || self.branch is Some
                || self.event is Some || self.conclusion is Some {
                Some(
                    "cache policy rule "@ + self.id
                        + " cannot use artifact-only or run-only workflow, artifact, branch, event, or conclusion fields"@,
                )
            } else {
                None
            },
            PolicyResource::WorkflowRun => if self.artifact is Some || self.key is Some || self.git_ref is Some
                || self.keep_unused_days is Some {
                Some(
                    "workflow-run policy rule "@ + self.id
                        + " cannot use artifact/cache-only artifact, key, ref, or keep_unused_days fields"@,
                )
            } else {
                None
            },
        }
    }
}

/// What is wrong with the rule at `i`.
pub open spec fn rule_problem(rules: Seq<PolicyRuleView>, i: int) -> Option<Seq<char>> {
    let rule = rules[i];
    if blank(rule.id) {
        Some("policy rule id must not be empty"@)
    } else if id_repeats(rules, i) {
        Some("duplicate policy rule id: "@ + rule.id)
    } else if !rule.acts() {
        Some(
            "policy rule "@ + rule.id
                + " has no action; set keep_days, keep_unused_days, keep_latest, or protect = true"@,
        )
    } else {
        match rule.field_problem() {
            Some(problem) => Some(problem),
            None => pattern_problem(rule.id, rule.patterns(), 0),
        }
    }
}

/// The first thing that is wrong with the rules from `from` on.
pub open spec fn rules_problem(rules: Seq<PolicyRuleView>, from: int) -> Option<Seq<char>>
    decreases rules.len() - from,
{
    if from < 0 || from >= rules.len() {
        None
    } else {
        match rule_problem(rules, from) {
            Some(problem) => Some(problem),
            None => rules_problem(rules, from + 1),
        }
    }
}

fn check_patterns(rule: &PolicyRule) -> (result: Option<String>)
    ensures
        result.deep_view() == pattern_problem(rule.deep_view().id, rule.deep_view().patterns(), 0),
{
    let patterns = rule.patterns();
    let ghost all = patterns.deep_view();
    let mut i: usize = 0;
    while i < patterns.len()
        invariant
            i <= patterns.len(),
            all == patterns.deep_view(),
            all == rule.deep_view().patterns(),
            pattern_problem(rule.id@, all, 0) == pattern_problem(rule.id@, all, i as int),
        decreases patterns.len() - i,
    {
        assert(all[i as int] == patterns@[i as int].deep_view());
        if let Some(error) = check_glob(patterns[i].glob.as_str()) {
            return Some(
                join6(
                    "invalid ",
                    patterns[i].dimension,
                    " glob in rule ",
                    rule.id.as_str(),
                    ": ",
                    error.as_str(),
                ),
            );
        }
        i = i + 1;
    }
    None
}

fn check_fields(rule: &PolicyRule) -> (result: Option<String>)
    ensures
        result.deep_view() == rule.deep_view().field_problem(),
{
    match rule.resource {
        PolicyResource::Artifact => if rule.key.is_some() || rule.git_ref.is_some() || rule.keep_unused_days.is_some()
            || rule.event.is_some() || rule.conclusion.is_some() {
            Some(
                join3(
                    "artifact policy rule ",
                    rule.id.as_str(),
                    " cannot use cache-only or run-only key, ref, keep_unused_days, event, or conclusion fields",
                ),
            )
        } else {
            None
        },
        PolicyResource::Cache => if rule.workflow.is_some() || rule.artifact.is_some() || rule.branch.is_some()
            || rule.event.is_some() || rule.conclusion.is_some() {
            Some(
                join3(
                    "cache policy rule ",
                    rule.id.as_str(),
                    " cannot use artifact-only or run-only workflow, artifact, branch, event, or conclusion fields",
                ),
            )
        } else {
            None
        },
        PolicyResource::WorkflowRun => if rule.artifact.is_some() || rule.key.is_some() || rule.git_ref.is_some()
            || rule.keep_unused_days.is_some() {
            Some(
                join3(
                    "workflow-run policy rule ",
                    rule.id.as_str(),
                    " cannot use artifact/cache-only artifact, key, ref, or keep_unused_days fields",
                ),
            )
        } else {
            None
        },
    }
}

impl PolicyConfig {
    /// Checks the rules: each has an id of its own and asks for something, its fields fit what
    /// it is about, and its patterns are globs.
    pub fn validate(&self) -> (result: Result<(), PolicyError>)
        ensures
            match rules_problem(self.deep_view().rules, 0) {
                Some(problem) => result matches Err(PolicyError::Validation(detail)) && detail@ == problem,
                None => result is Ok,
            },
    {
        let ghost all = self.rules.deep_view();
        let mut i: usize = 0;
        while i < self.rules.len()
            invariant
                i <= self.rules.len(),
                all == self.rules.deep_view(),
                rules_problem(all, 0) == rules_problem(all, i as int),
            decreases self.rules.len() - i,
        {
            let rule = &self.rules[i];
            assert(all[i as int] == rule.deep_view());
            if is_blank(rule.id.as_str()) {
                return Err(PolicyError::Validation("policy rule id must not be empty".to_owned()));
            }
            let mut j: usize = 0;
            while j < i && !self.rules[j].id.same(&rule.id)
                invariant
                    j <= i < self.rules.len(),
                    all == self.rules.deep_view(),
                    rule.deep_view() == all[i as int],
                    forall|h: int| 0 <= h < j ==> (#[trigger] all[h]).id != all[i as int].id,
                decreases i - j,
            {
                assert(all[j as int].id != all[i as int].id);
                j = j + 1;
            }
            if j < i {
                assert(all[j as int].id == all[i as int].id);
                return Err(PolicyError::Validation(join2("duplicate policy rule id: ", rule.id.as_str())));
            }
            let protects = match rule.protect {
                Some(protect) => protect,
                None => false,
            };
            if rule.keep_days.is_none() && rule.keep_unused_days.is_none() && rule.keep_latest.is_none()
                && !protects {
                return Err(
                    PolicyError::Validation(
                        join3(
                            "policy rule ",
                            rule.id.as_str(),
                            " has no action; set keep_days, keep_unused_days, keep_latest, or protect = true",
                        ),
                    ),
                );
            }
            if let Some(problem) = check_fields(rule) {
                return Err(PolicyError::Validation(problem));
            }
            if let Some(problem) = check_patterns(rule) {
                return Err(PolicyError::Validation(problem));
            }
            i = i + 1;
        }
        Ok(())
    }

    /// Whether every pattern of every rule surely compiles.
    pub fn compiles(&self) -> (result: bool)
        ensures
            result == self.deep_view().compiles(),
    {
        let ghost all = self.rules.deep_view();
        let mut i: usize = 0;
        while i < self.rules.len()
            invariant
                i <= self.rules.len(),
                all == self.rules.deep_view(),
                forall|k: int| 0 <= k < i ==> (#[trigger] all[k]).compiles(),
            decreases self.rules.len() - i,
        {
            assert(all[i as int] == self.rules@[i as int].deep_view());
            if !self.rules[i].compiles() {
                assert(!self.deep_view().rules[i as int].compiles());
                return false;
            }
            i = i + 1;
        }
        true
    }
}

impl PolicyConfigView {
    pub open spec fn compiles(self) -> bool {
        forall|i: int| 0 <= i < self.rules.len() ==> (#[trigger] self.rules[i]).compiles()
    }
}

// ---------------------------------------------------------------------------------------------
// The fingerprint of a policy.
// ---------------------------------------------------------------------------------------------

pub const FNV_OFFSET_BASIS: u64 = 0xcbf29ce484222325;

pub const FNV_PRIME: u64 = 0x100000001b3;

/// One step of the 64-bit FNV-1a hash.
pub open spec fn fnv_step(hash: u64, byte: u8) -> u64 {
    (hash ^ (byte as u64)).wrapping_mul(FNV_PRIME)
}

/// The 64-bit FNV-1a hash of `bytes`, from `hash` on.
pub open spec fn fnv(hash: u64, bytes: Seq<u8>) -> u64
    decreases bytes.len(),
{
    if bytes.len() == 0 {
        hash
    } else {
        fnv_step(fnv(hash, bytes.drop_last()), bytes.last())
    }
}

/// The hash of two byte strings in a row.
pub broadcast proof fn lemma_fnv_in_a_row(hash: u64, a: Seq<u8>, b: Seq<u8>)
    ensures
        #[trigger] fnv(hash, a + b) == fnv(fnv(hash, a), b),
    decreases b.len(),
{
    if b.len() == 0 {
        assert(a + b =~= a);
    } else {
        lemma_fnv_in_a_row(hash, a, b.drop_last());
        assert((a + b).drop_last() =~= a + b.drop_last());
    }
}

/// The `count` lowest bytes of `n`, the lowest first.
pub open spec fn little_endian(n: nat, count: nat) -> Seq<u8>
    decreases count,
{
    if count == 0 {
        Seq::empty()
    } else {
        seq![(n % 256) as u8] + little_endian(n / 256, (count - 1) as nat)
    }
}

/// A text that may be missing: its place, whether it is there, its length and its bytes.
pub open spec fn text_field(tag: u8, value: Option<Seq<char>>) -> Seq<u8> {
    match value {
        Some(text) => seq![tag] + seq![1u8] + little_endian(encode_utf8(text).len(), 8) + encode_utf8(text),
        None => seq![tag] + seq![0u8],
    }
}

/// A number that may be missing.
pub open spec fn number_field(tag: u8, value: Option<u64>) -> Seq<u8> {
    match value {
        Some(n) => seq![tag] + seq![1u8] + little_endian(n as nat, 8),
        None => seq![tag] + seq![0u8],
    }
}

/// A flag that may be missing.
pub open spec fn flag_field(tag: u8, value: Option<bool>) -> Seq<u8> {
    match value {
        Some(flag) => seq![tag] + seq![1u8, if flag { 1u8 } else { 0u8 }],
        None => seq![tag] + seq![0u8],
    }
}

impl PolicyRuleView {
    /// The bytes that stand for the rule in a fingerprint.
    pub open spec fn encoded(self) -> Seq<u8> {
        let common = encode_utf8("rule"@) + text_field(1, Some(self.id)) + text_field(2, self.repository) + text_field(
            3,
            self.workflow,
        ) + text_field(4, self.artifact) + text_field(5, self.branch) + number_field(6, self.keep_days)
            + number_field(
            7,
            match self.keep_latest {
                Some(n) => Some(n as u64),
                None => None,
            },
        ) + flag_field(8, self.protect);
        match self.resource {
            PolicyResource::Artifact => common,
            PolicyResource::Cache => common + encode_utf8("cache-rule"@) + text_field(9, self.key) + text_field(
                10,
                self.git_ref,
            ) + number_field(11, self.keep_unused_days),
            PolicyResource::WorkflowRun => common + encode_utf8("workflow-run-rule"@) + text_field(12, self.event)
                + text_field(13, self.conclusion),
        }
    }
}

pub open spec fn encoded_rules(rules: Seq<PolicyRuleView>) -> Seq<u8>
    decreases rules.len(),
{
    if rules.len() == 0 {
        Seq::empty()
    } else {
        encoded_rules(rules.drop_last()) + rules.last().encoded()
    }
}

/// The bytes that stand for the defaults in a fingerprint: built-in defaults for caches and
/// runs leave no trace.
pub open spec fn encoded_defaults(defaults: PolicyDefaults) -> Seq<u8> {
    encode_utf8("gh-housekeeper-policy-v1"@) + little_endian(defaults.keep_days as nat, 8) + (if defaults.caches
        != CachePolicyDefaults::built_in() {
        encode_utf8("cache-defaults"@) + little_endian(defaults.caches.keep_days as nat, 8) + number_field(
            9,
            defaults.caches.keep_unused_days,
        )
    } else {
        Seq::empty()
    }) + (if defaults.runs != WorkflowRunPolicyDefaults::built_in() {
        encode_utf8("workflow-run-defaults"@) + little_endian(defaults.runs.keep_days as nat, 8)
    } else {
        Seq::empty()
    })
}

impl PolicyConfigView {
    /// The bytes that stand for the policy in its fingerprint.
    pub open spec fn encoded(self) -> Seq<u8> {
        encoded_defaults(self.defaults) + encoded_rules(self.rules)
    }

    /// The fingerprint: the hash of those bytes, in hexadecimal.
    pub open spec fn fingerprint(self) -> Seq<char> {
        "fnv1a64:"@ + hexadecimal(fnv(FNV_OFFSET_BASIS, self.encoded()) as nat, 16)
    }
}

/// Hashes a run of bytes.
pub fn hash_bytes(hash: &mut u64, bytes: &[u8])
    ensures
        *final(hash) == fnv(*old(hash), bytes@),
{
    let ghost start = *hash;
    let mut i: usize = 0;
    assert(bytes@.take(0) =~= Seq::empty());
    while i < bytes.len()
        invariant
            i <= bytes.len(),
            *hash == fnv(start, bytes@.take(i as int)),
        decreases bytes.len() - i,
    {
        assert(bytes@.take(i + 1).drop_last() =~= bytes@.take(i as int));
        let mixed: u64 = *hash ^ (bytes[i] as u64);
        *hash = mixed.wrapping_mul(FNV_PRIME);
        i = i + 1;
    }
    assert(bytes@.take(i as int) =~= bytes@);
}

fn hash_byte(hash: &mut u64, byte: u8)
    ensures
        *final(hash) == fnv(*old(hash), seq![byte]),
{
    let bytes = vec![byte];
    assert(bytes@ =~= seq![byte]);
    hash_bytes(hash, bytes.as_slice());
}

/// Hashes the bytes of a number, the lowest first.
pub fn hash_u64(hash: &mut u64, value: u64)
    ensures
        *final(hash) == fnv(*old(hash), little_endian(value as nat, 8)),
{
    broadcast use lemma_fnv_in_a_row;

    let ghost start = *hash;
    let mut rest: u64 = value;
    let mut left: usize = 8;
    while left > 0
        invariant
            left <= 8,
            fnv(start, little_endian(value as nat, 8)) == fnv(*hash, little_endian(rest as nat, left as nat)),
        decreases left,
    {
        broadcast use lemma_fnv_in_a_row;

        hash_byte(hash, (rest % 256) as u8);
        rest = rest / 256;
        left = left - 1;
    }
}

/// Hashes a text that may be missing.
pub fn hash_optional_str(hash: &mut u64, tag: u8, value: Option<&str>)
    ensures
        *final(hash) == fnv(*old(hash), text_field(tag, optional_text(value))),
{
    broadcast use lemma_fnv_in_a_row;

    hash_byte(hash, tag);
    match value {
        Some(text) => {
            hash_byte(hash, 1);
            let bytes = text.as_bytes();
            hash_u64(hash, bytes.len() as u64);
            hash_bytes(hash, bytes);
        },
        None => {
            hash_byte(hash, 0);
        },
    }
}

/// Hashes a number that may be missing.
pub fn hash_optional_u64(hash: &mut u64, tag: u8, value: Option<u64>)
    ensures
        *final(hash) == fnv(*old(hash), number_field(tag, value)),
{
    broadcast use lemma_fnv_in_a_row;

    hash_byte(hash, tag);
    match value {
        Some(n) => {
            hash_byte(hash, 1);
            hash_u64(hash, n);
        },
        None => {
            hash_byte(hash, 0);
        },
    }
}

/// Hashes a flag that may be missing.
pub fn hash_optional_bool(hash: &mut u64, tag: u8, value: Option<bool>)
    ensures
        *final(hash) == fnv(*old(hash), flag_field(tag, value)),
{
    broadcast use lemma_fnv_in_a_row;

    hash_byte(hash, tag);
    match value {
        Some(flag) => {
            let byte: u8 = if flag {
                1
            } else {
                0
            };
            let bytes = vec![1u8, byte];
            assert(bytes@ =~= seq![1u8, byte]);
            hash_bytes(hash, bytes.as_slice());
        },
        None => {
            hash_byte(hash, 0);
        },
    }
}

fn hash_word(hash: &mut u64, word: &str)
    ensures
        *final(hash) == fnv(*old(hash), encode_utf8(word@)),
{
    hash_bytes(hash, word.as_bytes());
}

fn hash_rule(hash: &mut u64, rule: &PolicyRule)
    ensures
        *final(hash) == fnv(*old(hash), rule.deep_view().encoded()),
{
    broadcast use lemma_fnv_in_a_row;

    hash_word(hash, "rule");
    hash_optional_str(hash, 1, Some(rule.id.as_str()));
    hash_optional_str(hash, 2, optional_str(&rule.repository));
    hash_optional_str(hash, 3, optional_str(&rule.workflow));
    hash_optional_str(hash, 4, optional_str(&rule.artifact));
    hash_optional_str(hash, 5, optional_str(&rule.branch));
    hash_optional_u64(hash, 6, rule.keep_days);
    let keep_latest: Option<u64> = match rule.keep_latest {
        Some(n) => Some(n as u64),
        None => None,
    };
    hash_optional_u64(hash, 7, keep_latest);
    hash_optional_bool(hash, 8, rule.protect);
    match rule.resource {
        PolicyResource::Artifact => {},
        PolicyResource::Cache => {
            hash_word(hash, "cache-rule");
            hash_optional_str(hash, 9, optional_str(&rule.key));
            hash_optional_str(hash, 10, optional_str(&rule.git_ref));
            hash_optional_u64(hash, 11, rule.keep_unused_days);
        },
        PolicyResource::WorkflowRun => {
            hash_word(hash, "workflow-run-rule");
            hash_optional_str(hash, 12, optional_str(&rule.event));
            hash_optional_str(hash, 13, optional_str(&rule.conclusion));
        },
    }
}

impl PolicyConfig {
    /// A text that tells policies apart by what they do.
    pub fn fingerprint(&self) -> (result: String)
        ensures
            result@ == self.deep_view().fingerprint(),
    {
        broadcast use lemma_fnv_in_a_row;

        let mut hash: u64 = FNV_OFFSET_BASIS;
        hash_word(&mut hash, "gh-housekeeper-policy-v1");
        hash_u64(&mut hash, self.defaults.keep_days);
        if self.defaults.caches != CachePolicyDefaults::default() {
            hash_word(&mut hash, "cache-defaults");
            hash_u64(&mut hash, self.defaults.caches.keep_days);
            hash_optional_u64(&mut hash, 9, self.defaults.caches.keep_unused_days);
        }
        if self.defaults.runs != WorkflowRunPolicyDefaults::default() {
            hash_word(&mut hash, "workflow-run-defaults");
            hash_u64(&mut hash, self.defaults.runs.keep_days);
        }
        let ghost start = encoded_defaults(self.defaults);
        assert(hash == fnv(FNV_OFFSET_BASIS, start));
        let ghost all = self.rules.deep_view();
        let mut i: usize = 0;
        assert(all.take(0) =~= Seq::empty());
        assert(start + Seq::<u8>::empty() =~= start);
        while i < self.rules.len()
            invariant
                i <= self.rules.len(),
                all == self.rules.deep_view(),
                hash == fnv(FNV_OFFSET_BASIS, start + encoded_rules(all.take(i as int))),
            decreases self.rules.len() - i,
        {
            broadcast use lemma_fnv_in_a_row;

            let ghost done = encoded_rules(all.take(i as int));
            hash_rule(&mut hash, &self.rules[i]);
            proof {
                assert(all.take(i + 1).drop_last() =~= all.take(i as int));
                assert(all.take(i + 1).last() == self.rules@[i as int].deep_view());
                let rule = self.rules@[i as int].deep_view().encoded();
                assert((start + done) + rule =~= start + (done + rule));
            }
            i = i + 1;
        }
        assert(all.take(i as int) =~= all);
        join2("fnv1a64:", hex(hash, 16).as_str())
    }
}

/// Built-in defaults for caches and runs leave no trace in a fingerprint: with them it depends
/// on the days that artifacts are kept, and on the rules.
pub proof fn built_in_defaults_leave_no_trace(config: PolicyConfigView)
    requires
        config.defaults.caches == CachePolicyDefaults::built_in(),
        config.defaults.runs == WorkflowRunPolicyDefaults::built_in(),
    ensures
        config.fingerprint() == "fnv1a64:"@ + hexadecimal(
            fnv(
                FNV_OFFSET_BASIS,
                encode_utf8("gh-housekeeper-policy-v1"@) + little_endian(config.defaults.keep_days as nat, 8)
                    + encoded_rules(config.rules),
            ) as nat,
            16,
        ),
{
    let start = encode_utf8("gh-housekeeper-policy-v1"@) + little_endian(config.defaults.keep_days as nat, 8);
    assert(encoded_defaults(config.defaults) =~= start);
}

/// Policies whose rules stand for the same bytes have the same fingerprint: what the resource
/// of a rule does not use does not count.
pub proof fn a_fingerprint_sees_only_what_acts(a: PolicyConfigView, b: PolicyConfigView)
    requires
        a.defaults == b.defaults,
        a.rules.len() == b.rules.len(),
        forall|i: int| 0 <= i < a.rules.len() ==> (#[trigger] a.rules[i]).encoded() == b.rules[i].encoded(),
    ensures
        a.fingerprint() == b.fingerprint(),
    decreases a.rules.len(),
{
    lemma_encoded_rules(a.rules, b.rules);
}

proof fn lemma_encoded_rules(a: Seq<PolicyRuleView>, b: Seq<PolicyRuleView>)
    requires
        a.len() == b.len(),
        forall|i: int| 0 <= i < a.len() ==> (#[trigger] a[i]).encoded() == b[i].encoded(),
    ensures
        encoded_rules(a) == encoded_rules(b),
    decreases a.len(),
{
    if a.len() > 0 {
        assert(a[a.len() - 1].encoded() == b[b.len() - 1].encoded());
        lemma_encoded_rules(a.drop_last(), b.drop_last());
    }
}

/// Whether a value fits a pattern: every value fits where there is no pattern; a pattern has to be
/// a glob that matches the value, which has to be there.
pub open spec fn fits(pattern: Option<Seq<char>>, value: Option<Seq<char>>) -> bool {
    pattern is Some ==> value is Some && glob_error(pattern->0) is None && glob_match(pattern->0, value->0)
}

/// A rule matches an artifact if it is about artifacts, and the repository, the workflow, the name
/// and the branch of the artifact each fit the pattern that the rule has for it.
pub proof fn an_artifact_fits_every_pattern_of_its_rules(rule: PolicyRuleView, artifact: ArtifactView)
    ensures
        rule.matches_artifact(artifact) ==> rule.resource == PolicyResource::Artifact,
        rule.matches_artifact(artifact) ==> fits(rule.repository, Some(artifact.repository.full_name)),
        rule.matches_artifact(artifact) ==> fits(rule.artifact, Some(artifact.name)),
        rule.matches_artifact(artifact) && rule.workflow is Some ==> artifact.workflow_run is Some && fits(
            rule.workflow,
            artifact.workflow_run->0.workflow_name,
        ),
        rule.matches_artifact(artifact) && rule.branch is Some ==> artifact.workflow_run is Some && fits(
            rule.branch,
            artifact.workflow_run->0.head_branch,
        ),
        rule.resource == PolicyResource::Artifact && fits(rule.repository, Some(artifact.repository.full_name)) && fits(
            rule.artifact,
            Some(artifact.name),
        ) && (rule.workflow is Some ==> artifact.workflow_run is Some && fits(
            rule.workflow,
            artifact.workflow_run->0.workflow_name,
        )) && (rule.branch is Some ==> artifact.workflow_run is Some && fits(
            rule.branch,
            artifact.workflow_run->0.head_branch,
        )) ==> rule.matches_artifact(artifact),
{
}

/// A rule matches a cache if it is about caches, and the repository, the key and the ref of the
/// cache each fit the pattern that the rule has for it.
pub proof fn a_cache_fits_every_pattern_of_its_rules(rule: PolicyRuleView, cache: ActionsCacheView)
    ensures
        rule.matches_cache(cache) <==> rule.resource == PolicyResource::Cache && fits(
            rule.repository,
            Some(cache.repository.full_name),
        ) && fits(rule.key, Some(cache.key)) && fits(rule.git_ref, Some(cache.git_ref)),
{
}

/// A rule matches a workflow run if it is about runs, and the repository, the workflow, the branch,
/// the event and the conclusion of the run each fit the pattern that the rule has for it.
pub proof fn a_run_fits_every_pattern_of_its_rules(rule: PolicyRuleView, run: WorkflowRunView)
    ensures
        rule.matches_workflow_run(run) <==> rule.resource == PolicyResource::WorkflowRun && fits(
            rule.repository,
            Some(run.repository.full_name),
        ) && fits(rule.workflow, run.workflow_name) && fits(rule.branch, run.head_branch) && fits(
            rule.event,
            Some(run.event),
        ) && fits(rule.conclusion, run.conclusion),
{
}

/// Whether a pattern, where there is one, is a glob.
pub open spec fn is_glob(pattern: Option<Seq<char>>) -> bool {
    pattern is Some ==> glob_error(pattern->0) is None
}

/// Whether a rule may stand in a policy: it has an id that is not blank, asks for something, has no
/// field that is for other things than it is about, and its patterns are globs.
pub open spec fn sound(rule: PolicyRuleView) -> bool {
    &&& !blank(rule.id)
    &&& rule.keep_days is Some || rule.keep_unused_days is Some || rule.keep_latest is Some || rule.protect == Some(true)
    &&& rule.resource != PolicyResource::Artifact ==> rule.artifact is None
    &&& rule.resource != PolicyResource::Cache ==> rule.key is None && rule.git_ref is None && rule.keep_unused_days is None
    &&& rule.resource != PolicyResource::WorkflowRun ==> rule.event is None && rule.conclusion is None
    &&& rule.resource == PolicyResource::Cache ==> rule.workflow is None && rule.branch is None
    &&& is_glob(rule.repository) && is_glob(rule.workflow) && is_glob(rule.artifact) && is_glob(rule.branch)
    &&& is_glob(rule.key) && is_glob(rule.git_ref) && is_glob(rule.event) && is_glob(rule.conclusion)
}

proof fn lemma_globs(id: Seq<char>, patterns: Seq<PatternView>, from: int)
    requires
        0 <= from <= patterns.len(),
    ensures
        pattern_problem(id, patterns, from) is None <==> forall|i: int|
            from <= i < patterns.len() ==> glob_error((#[trigger] patterns[i]).1) is None,
    decreases patterns.len() - from,
{
    if from < patterns.len() {
        lemma_globs(id, patterns, from + 1);
        if glob_error(patterns[from].1) is None && (forall|i: int|
            from + 1 <= i < patterns.len() ==> glob_error((#[trigger] patterns[i]).1) is None) {
            assert forall|i: int| from <= i < patterns.len() implies glob_error((#[trigger] patterns[i]).1) is None by {
            }
        }
    }
}

spec fn all_globs(patterns: Seq<PatternView>) -> bool {
    forall|i: int| 0 <= i < patterns.len() ==> glob_error((#[trigger] patterns[i]).1) is None
}

proof fn lemma_all_globs(a: Seq<PatternView>, b: Seq<PatternView>)
    ensures
        all_globs(a + b) <==> all_globs(a) && all_globs(b),
{
    if all_globs(a + b) {
        assert forall|i: int| 0 <= i < a.len() implies glob_error((#[trigger] a[i]).1) is None by {
            assert((a + b)[i] == a[i]);
        }
        assert forall|i: int| 0 <= i < b.len() implies glob_error((#[trigger] b[i]).1) is None by {
            assert((a + b)[a.len() + i] == b[i]);
        }
    }
}

proof fn lemma_listed(dimension: Seq<char>, pattern: Option<Seq<char>>)
    ensures
        all_globs(listed(dimension, pattern)) <==> is_glob(pattern),
{
    if pattern is Some {
        assert(listed(dimension, pattern)[0].1 == pattern->0);
    }
}

proof fn lemma_sound(rules: Seq<PolicyRuleView>, i: int)
    requires
        0 <= i < rules.len(),
    ensures
        rule_problem(rules, i) is None <==> sound(rules[i]) && forall|j: int|
            0 <= j < i ==> (#[trigger] rules[j]).id != rules[i].id,
{
    let rule = rules[i];
    let a = listed("repository"@, rule.repository);
    let b = listed("workflow"@, rule.workflow);
    let c = listed("artifact"@, rule.artifact);
    let d = listed("branch"@, rule.branch);
    let e = listed("key"@, rule.key);
    let f = listed("ref"@, rule.git_ref);
    let g = listed("event"@, rule.event);
    let h = listed("conclusion"@, rule.conclusion);
    lemma_listed("repository"@, rule.repository);
    lemma_listed("workflow"@, rule.workflow);
    lemma_listed("artifact"@, rule.artifact);
    lemma_listed("branch"@, rule.branch);
    lemma_listed("key"@, rule.key);
    lemma_listed("ref"@, rule.git_ref);
    lemma_listed("event"@, rule.event);
    lemma_listed("conclusion"@, rule.conclusion);
    lemma_all_globs(a, b);
    lemma_all_globs(a + b, c);
    lemma_all_globs(a + b + c, d);
    lemma_all_globs(a + b + c + d, e);
    lemma_all_globs(a + b + c + d + e, f);
    lemma_all_globs(a + b + c + d + e + f, g);
    lemma_all_globs(a + b + c + d + e + f + g, h);
    lemma_globs(rule.id, rule.patterns(), 0);
    assert(all_globs(rule.patterns()) <==> pattern_problem(rule.id, rule.patterns(), 0) is None);
}

/// A policy is valid if every rule is sound and no two rules have the same id; and only so.
pub proof fn a_policy_is_valid_where_its_rules_are_sound(rules: Seq<PolicyRuleView>)
    ensures
        rules_problem(rules, 0) is None <==> (forall|i: int| 0 <= i < rules.len() ==> sound(#[trigger] rules[i])) && (
        forall|i: int, j: int| 0 <= i < j < rules.len() ==> (#[trigger] rules[i]).id != (#[trigger] rules[j]).id),
{
    lemma_rules_sound(rules, 0);
}

proof fn lemma_rules_sound(rules: Seq<PolicyRuleView>, from: int)
    requires
        0 <= from <= rules.len(),
    ensures
        rules_problem(rules, from) is None <==> (forall|i: int| from <= i < rules.len() ==> sound(#[trigger] rules[i]))
            && (forall|i: int, j: int|
            0 <= i < j < rules.len() && from <= j ==> (#[trigger] rules[i]).id != (#[trigger] rules[j]).id),
    decreases rules.len() - from,
{
    if from < rules.len() {
        lemma_sound(rules, from);
        lemma_rules_sound(rules, from + 1);
        if rules_problem(rules, from) is None {
            assert forall|i: int| from <= i < rules.len() implies sound(#[trigger] rules[i]) by {
                if i > from {
                    assert(from + 1 <= i);
                }
            }
            assert forall|i: int, j: int| 0 <= i < j < rules.len() && from <= j implies (#[trigger] rules[i]).id != (
            #[trigger] rules[j]).id by {
                if j > from {
                    assert(from + 1 <= j);
                }
            }
        }
    }
}

/// The parts in a row.
spec fn in_a_row(parts: Seq<Seq<u8>>) -> Seq<u8>
    decreases parts.len(),
{
    if parts.len() == 0 {
        Seq::empty()
    } else {
        in_a_row(parts.drop_last()) + parts.last()
    }
}

proof fn lemma_first_part_of_a_row(parts: Seq<Seq<u8>>)
    requires
        parts.len() > 0,
    ensures
        in_a_row(parts) == parts[0] + in_a_row(parts.drop_first()),
    decreases parts.len(),
{
    if parts.len() == 1 {
        assert(parts.drop_last() =~= Seq::empty());
        assert(parts.drop_first() =~= Seq::empty());
        assert(in_a_row(parts) =~= parts[0] + in_a_row(parts.drop_first()));
    } else {
        lemma_first_part_of_a_row(parts.drop_last());
        assert(parts.drop_last().drop_first() =~= parts.drop_first().drop_last());
        assert(parts.drop_first().last() == parts.last());
        assert(in_a_row(parts) =~= parts[0] + in_a_row(parts.drop_first()));
    }
}

/// Whether two parts are told apart, whatever follows them.
spec fn told_apart(x: Seq<u8>, y: Seq<u8>) -> bool {
    forall|r: Seq<u8>, s: Seq<u8>| #[trigger] (x + r) == #[trigger] (y + s) ==> x == y
}

proof fn lemma_rows_are_told_apart(xs: Seq<Seq<u8>>, ys: Seq<Seq<u8>>)
    requires
        xs.len() == ys.len(),
        forall|i: int| 0 <= i < xs.len() ==> told_apart(#[trigger] xs[i], ys[i]),
        in_a_row(xs) == in_a_row(ys),
    ensures
        xs == ys,
    decreases xs.len(),
{
    if xs.len() > 0 {
        lemma_first_part_of_a_row(xs);
        lemma_first_part_of_a_row(ys);
        let r = in_a_row(xs.drop_first());
        let s = in_a_row(ys.drop_first());
        assert(told_apart(xs[0], ys[0]));
        assert(xs[0] + r == ys[0] + s);
        assert(r =~= (xs[0] + r).skip(xs[0].len() as int));
        assert(s =~= (ys[0] + s).skip(ys[0].len() as int));
        assert forall|i: int| 0 <= i < xs.drop_first().len() implies told_apart(
            #[trigger] xs.drop_first()[i],
            ys.drop_first()[i],
        ) by {
            assert(told_apart(xs[i + 1], ys[i + 1]));
        }
        lemma_rows_are_told_apart(xs.drop_first(), ys.drop_first());
        assert(xs =~= seq![xs[0]] + xs.drop_first());
        assert(ys =~= seq![ys[0]] + ys.drop_first());
    }
}

/// How many numbers that many bytes can hold.
spec fn capacity(count: nat) -> nat
    decreases count,
{
    if count == 0 {
        1
    } else {
        256 * capacity((count - 1) as nat)
    }
}

proof fn lemma_little_endian(n: nat, m: nat, count: nat)
    requires
        n < capacity(count),
        m < capacity(count),
    ensures
        little_endian(n, count).len() == count,
        little_endian(n, count) == little_endian(m, count) ==> n == m,
    decreases count,
{
    if count > 0 {
        let less = (count - 1) as nat;
        lemma_little_endian(n / 256, m / 256, less);
        let x = little_endian(n, count);
        let y = little_endian(m, count);
        assert(x.drop_first() =~= little_endian(n / 256, less));
        assert(y.drop_first() =~= little_endian(m / 256, less));
        if x == y {
            assert(x[0] == y[0]);
            assert((n % 256) as u8 == (m % 256) as u8);
        }
    }
}

proof fn lemma_eight_bytes(n: nat, m: nat)
    requires
        n <= u64::MAX,
        m <= u64::MAX,
    ensures
        little_endian(n, 8).len() == 8,
        little_endian(n, 8) == little_endian(m, 8) ==> n == m,
{
    reveal_with_fuel(capacity, 9);
    lemma_little_endian(n, m, 8);
}

proof fn lemma_utf8(a: Seq<char>, b: Seq<char>)
    requires
        encode_utf8(a) == encode_utf8(b),
    ensures
        a == b,
{
    vstd::utf8::encode_utf8_decode_utf8(a);
    vstd::utf8::encode_utf8_decode_utf8(b);
}

/// Whether the bytes of a text can be counted.
pub open spec fn countable_text(value: Option<Seq<char>>) -> bool {
    value is Some ==> encode_utf8(value->0).len() <= u64::MAX
}

proof fn lemma_text_field(tag: u8, a: Option<Seq<char>>, b: Option<Seq<char>>)
    requires
        countable_text(a),
        countable_text(b),
    ensures
        told_apart(text_field(tag, a), text_field(tag, b)),
        text_field(tag, a) == text_field(tag, b) ==> a == b,
{
    let x = text_field(tag, a);
    let y = text_field(tag, b);
    assert(a is Some ==> x[1] == 1);
    assert(a is None ==> x[1] == 0);
    assert(b is Some ==> y[1] == 1);
    assert(b is None ==> y[1] == 0);
    if a is Some && b is Some {
        let p = encode_utf8(a->0);
        let q = encode_utf8(b->0);
        lemma_eight_bytes(p.len(), q.len());
        lemma_eight_bytes(q.len(), p.len());
        let m = little_endian(p.len(), 8);
        let n = little_endian(q.len(), 8);
        assert forall|r: Seq<u8>, s: Seq<u8>| #[trigger] (x + r) == #[trigger] (y + s) implies x == y by {
            assert((x + r).subrange(2, 10) =~= m);
            assert((y + s).subrange(2, 10) =~= n);
            assert(x =~= (x + r).take(x.len() as int));
            assert(y =~= (y + s).take(y.len() as int));
        }
        if x == y {
            assert(x.subrange(2, 10) =~= m);
            assert(y.subrange(2, 10) =~= n);
            assert(x.skip(10) =~= p);
            assert(y.skip(10) =~= q);
            lemma_utf8(a->0, b->0);
        }
    } else {
        assert forall|r: Seq<u8>, s: Seq<u8>| #[trigger] (x + r) == #[trigger] (y + s) implies x == y by {
            assert((x + r)[1] == x[1]);
            assert((y + s)[1] == y[1]);
        }
    }
}

proof fn lemma_number_field(tag: u8, a: Option<u64>, b: Option<u64>)
    ensures
        told_apart(number_field(tag, a), number_field(tag, b)),
        number_field(tag, a) == number_field(tag, b) ==> a == b,
{
    let x = number_field(tag, a);
    let y = number_field(tag, b);
    assert(a is Some ==> x[1] == 1);
    assert(a is None ==> x[1] == 0);
    assert(b is Some ==> y[1] == 1);
    assert(b is None ==> y[1] == 0);
    if a is Some && b is Some {
        lemma_eight_bytes(a->0 as nat, b->0 as nat);
        lemma_eight_bytes(b->0 as nat, a->0 as nat);
        assert forall|r: Seq<u8>, s: Seq<u8>| #[trigger] (x + r) == #[trigger] (y + s) implies x == y by {
            assert(x =~= (x + r).take(10));
            assert(y =~= (y + s).take(10));
        }
        if x == y {
            assert(x.skip(2) =~= little_endian(a->0 as nat, 8));
            assert(y.skip(2) =~= little_endian(b->0 as nat, 8));
        }
    } else {
        assert forall|r: Seq<u8>, s: Seq<u8>| #[trigger] (x + r) == #[trigger] (y + s) implies x == y by {
            assert((x + r)[1] == x[1]);
            assert((y + s)[1] == y[1]);
        }
    }
}

proof fn lemma_flag_field(tag: u8, a: Option<bool>, b: Option<bool>)
    ensures
        told_apart(flag_field(tag, a), flag_field(tag, b)),
        flag_field(tag, a) == flag_field(tag, b) ==> a == b,
{
    let x = flag_field(tag, a);
    let y = flag_field(tag, b);
    assert(a is Some ==> x[1] == 1 && x[2] == if a->0 { 1u8 } else { 0u8 });
    assert(a is None ==> x[1] == 0);
    assert(b is Some ==> y[1] == 1 && y[2] == if b->0 { 1u8 } else { 0u8 });
    assert(b is None ==> y[1] == 0);
    assert forall|r: Seq<u8>, s: Seq<u8>| #[trigger] (x + r) == #[trigger] (y + s) implies x == y by {
        assert((x + r)[1] == x[1]);
        assert((y + s)[1] == y[1]);
        if a is Some && b is Some {
            assert((x + r)[2] == x[2]);
            assert((y + s)[2] == y[2]);
        }
        assert(x =~= y);
    }
}

proof fn lemma_same_part(x: Seq<u8>)
    ensures
        told_apart(x, x),
{
}

/// The limit of a rule as it is encoded.
spec fn limit_of(keep_latest: Option<usize>) -> Option<u64> {
    match keep_latest {
        Some(n) => Some(n as u64),
        None => None,
    }
}

/// The parts that every rule is encoded in.
spec fn common_parts(rule: PolicyRuleView) -> Seq<Seq<u8>> {
    seq![
        encode_utf8("rule"@),
        text_field(1, Some(rule.id)),
        text_field(2, rule.repository),
        text_field(3, rule.workflow),
        text_field(4, rule.artifact),
        text_field(5, rule.branch),
        number_field(6, rule.keep_days),
        number_field(7, limit_of(rule.keep_latest)),
        flag_field(8, rule.protect),
    ]
}

/// The parts that a rule is encoded in for its resource.
spec fn own_parts(rule: PolicyRuleView) -> Seq<Seq<u8>> {
    match rule.resource {
        PolicyResource::Artifact => Seq::empty(),
        PolicyResource::Cache => seq![
            encode_utf8("cache-rule"@),
            text_field(9, rule.key),
            text_field(10, rule.git_ref),
            number_field(11, rule.keep_unused_days),
        ],
        PolicyResource::WorkflowRun => seq![
            encode_utf8("workflow-run-rule"@),
            text_field(12, rule.event),
            text_field(13, rule.conclusion),
        ],
    }
}

proof fn lemma_row_with(parts: Seq<Seq<u8>>, part: Seq<u8>)
    ensures
        in_a_row(parts.push(part)) == in_a_row(parts) + part,
{
    assert(parts.push(part).drop_last() =~= parts);
}

proof fn lemma_common_parts(rule: PolicyRuleView)
    ensures
        in_a_row(common_parts(rule)) == encode_utf8("rule"@) + text_field(1, Some(rule.id)) + text_field(
            2,
            rule.repository,
        ) + text_field(3, rule.workflow) + text_field(4, rule.artifact) + text_field(5, rule.branch) + number_field(
            6,
            rule.keep_days,
        ) + number_field(7, limit_of(rule.keep_latest)) + flag_field(8, rule.protect),
{
    let parts = common_parts(rule);
    let none = Seq::<Seq<u8>>::empty();
    lemma_row_with(none, parts[0]);
    assert(in_a_row(none) + parts[0] =~= parts[0]);
    assert(parts.take(1) =~= none.push(parts[0]));
    lemma_row_with(parts.take(1), parts[1]);
    assert(parts.take(2) =~= parts.take(1).push(parts[1]));
    lemma_row_with(parts.take(2), parts[2]);
    assert(parts.take(3) =~= parts.take(2).push(parts[2]));
    lemma_row_with(parts.take(3), parts[3]);
    assert(parts.take(4) =~= parts.take(3).push(parts[3]));
    lemma_row_with(parts.take(4), parts[4]);
    assert(parts.take(5) =~= parts.take(4).push(parts[4]));
    lemma_row_with(parts.take(5), parts[5]);
    assert(parts.take(6) =~= parts.take(5).push(parts[5]));
    lemma_row_with(parts.take(6), parts[6]);
    assert(parts.take(7) =~= parts.take(6).push(parts[6]));
    lemma_row_with(parts.take(7), parts[7]);
    assert(parts.take(8) =~= parts.take(7).push(parts[7]));
    lemma_row_with(parts.take(8), parts[8]);
    assert(parts =~= parts.take(8).push(parts[8]));
}

proof fn lemma_encoded_parts(rule: PolicyRuleView)
    ensures
        rule.encoded() == in_a_row(common_parts(rule) + own_parts(rule)),
{
    let common = common_parts(rule);
    let own = own_parts(rule);
    lemma_common_parts(rule);
    if rule.resource is Artifact {
        assert(common + own =~= common);
    } else {
        assert((common + own).take(9) =~= common);
        lemma_row_with(common, own[0]);
        assert((common + own).take(10) =~= common.push(own[0]));
        lemma_row_with(common.push(own[0]), own[1]);
        assert((common + own).take(11) =~= common.push(own[0]).push(own[1]));
        lemma_row_with(common.push(own[0]).push(own[1]), own[2]);
        if rule.resource is Cache {
            lemma_row_with(common.push(own[0]).push(own[1]).push(own[2]), own[3]);
            assert(common + own =~= common.push(own[0]).push(own[1]).push(own[2]).push(own[3]));
        } else {
            assert(common + own =~= common.push(own[0]).push(own[1]).push(own[2]));
        }
    }
}

/// Whether every text of a rule can be counted.
pub open spec fn countable_texts(rule: PolicyRuleView) -> bool {
    &&& countable_text(Some(rule.id)) && countable_text(rule.repository) && countable_text(rule.workflow)
    &&& countable_text(rule.artifact) && countable_text(rule.branch) && countable_text(rule.key)
    &&& countable_text(rule.git_ref) && countable_text(rule.event) && countable_text(rule.conclusion)
}

/// What acts in a rule is seen in its bytes: two rules of a resource that are encoded alike have the
/// same id, the same patterns and the same limits.
pub proof fn what_acts_is_encoded(a: PolicyRuleView, b: PolicyRuleView)
    requires
        a.resource == b.resource,
        countable_texts(a),
        countable_texts(b),
        a.encoded() == b.encoded(),
    ensures
        a.id == b.id,
        a.repository == b.repository,
        a.workflow == b.workflow,
        a.artifact == b.artifact,
        a.branch == b.branch,
        a.keep_days == b.keep_days,
        a.keep_latest == b.keep_latest,
        a.protect == b.protect,
        a.resource is Cache ==> a.key == b.key && a.git_ref == b.git_ref && a.keep_unused_days == b.keep_unused_days,
        a.resource is WorkflowRun ==> a.event == b.event && a.conclusion == b.conclusion,
{
    lemma_encoded_parts(a);
    lemma_encoded_parts(b);
    lemma_text_field(1, Some(a.id), Some(b.id));
    lemma_text_field(2, a.repository, b.repository);
    lemma_text_field(3, a.workflow, b.workflow);
    lemma_text_field(4, a.artifact, b.artifact);
    lemma_text_field(5, a.branch, b.branch);
    lemma_number_field(6, a.keep_days, b.keep_days);
    lemma_number_field(7, limit_of(a.keep_latest), limit_of(b.keep_latest));
    lemma_flag_field(8, a.protect, b.protect);
    lemma_text_field(9, a.key, b.key);
    lemma_text_field(10, a.git_ref, b.git_ref);
    lemma_number_field(11, a.keep_unused_days, b.keep_unused_days);
    lemma_text_field(12, a.event, b.event);
    lemma_text_field(13, a.conclusion, b.conclusion);
    lemma_same_part(encode_utf8("rule"@));
    lemma_same_part(encode_utf8("cache-rule"@));
    lemma_same_part(encode_utf8("workflow-run-rule"@));
    let xs = common_parts(a) + own_parts(a);
    let ys = common_parts(b) + own_parts(b);
    assert forall|i: int| 0 <= i < xs.len() implies told_apart(#[trigger] xs[i], ys[i]) by {
        if i < 9 {
            assert(xs[i] == common_parts(a)[i]);
            assert(ys[i] == common_parts(b)[i]);
        } else {
            assert(xs[i] == own_parts(a)[i - 9]);
            assert(ys[i] == own_parts(b)[i - 9]);
        }
    }
    lemma_rows_are_told_apart(xs, ys);
    assert(xs.take(9) =~= common_parts(a));
    assert(ys.take(9) =~= common_parts(b));
    assert(xs.skip(9) =~= own_parts(a));
    assert(ys.skip(9) =~= own_parts(b));
    assert(common_parts(a)[1] == common_parts(b)[1]);
    assert(common_parts(a)[2] == common_parts(b)[2]);
    assert(common_parts(a)[3] == common_parts(b)[3]);
    assert(common_parts(a)[4] == common_parts(b)[4]);
    assert(common_parts(a)[5] == common_parts(b)[5]);
    assert(common_parts(a)[6] == common_parts(b)[6]);
    assert(common_parts(a)[7] == common_parts(b)[7]);
    assert(common_parts(a)[8] == common_parts(b)[8]);
    if !(a.resource is Artifact) {
        assert(own_parts(a)[1] == own_parts(b)[1]);
        assert(own_parts(a)[2] == own_parts(b)[2]);
        if a.resource is Cache {
            assert(own_parts(a)[3] == own_parts(b)[3]);
        }
    }
}

/// What a rule does not use for its resource is not seen in its bytes.
pub proof fn what_does_not_act_is_not_encoded(a: PolicyRuleView, b: PolicyRuleView)
    requires
        a.resource == b.resource,
        a.id == b.id,
        a.repository == b.repository,
        a.workflow == b.workflow,
        a.artifact == b.artifact,
        a.branch == b.branch,
        a.keep_days == b.keep_days,
        a.keep_latest == b.keep_latest,
        a.protect == b.protect,
        a.resource is Cache ==> a.key == b.key && a.git_ref == b.git_ref && a.keep_unused_days == b.keep_unused_days,
        a.resource is WorkflowRun ==> a.event == b.event && a.conclusion == b.conclusion,
    ensures
        a.encoded() == b.encoded(),
{
}

/// The defaults are seen in their bytes: no two defaults are encoded alike.
pub proof fn defaults_are_encoded(a: PolicyDefaults, b: PolicyDefaults)
    requires
        encoded_defaults(a) == encoded_defaults(b),
    ensures
        a == b,
{
    let head = encode_utf8("gh-housekeeper-policy-v1"@);
    let cache = encode_utf8("cache-defaults"@);
    let run = encode_utf8("workflow-run-defaults"@);
    lemma_literal_lengths();
    lemma_eight_bytes(a.keep_days as nat, b.keep_days as nat);
    lemma_eight_bytes(b.keep_days as nat, a.keep_days as nat);
    lemma_eight_bytes(a.caches.keep_days as nat, b.caches.keep_days as nat);
    lemma_eight_bytes(b.caches.keep_days as nat, a.caches.keep_days as nat);
    lemma_eight_bytes(a.runs.keep_days as nat, b.runs.keep_days as nat);
    lemma_eight_bytes(b.runs.keep_days as nat, a.runs.keep_days as nat);
    lemma_number_field_length(9, a.caches.keep_unused_days);
    lemma_number_field_length(9, b.caches.keep_unused_days);
    let x = encoded_defaults(a);
    let y = encoded_defaults(b);
    assert(x.subrange(24, 32) =~= little_endian(a.keep_days as nat, 8));
    assert(y.subrange(24, 32) =~= little_endian(b.keep_days as nat, 8));
    let caches = a.caches != CachePolicyDefaults::built_in();
    let runs = a.runs != WorkflowRunPolicyDefaults::built_in();
    if caches {
        assert(x.subrange(46, 54) =~= little_endian(a.caches.keep_days as nat, 8));
        assert(y.subrange(46, 54) =~= little_endian(b.caches.keep_days as nat, 8));
        let size: int = number_field(9, a.caches.keep_unused_days).len() as int;
        assert(x.subrange(54, 54 + size) =~= number_field(9, a.caches.keep_unused_days));
        assert(y.subrange(54, 54 + size) =~= number_field(9, b.caches.keep_unused_days));
        lemma_number_field(9, a.caches.keep_unused_days, b.caches.keep_unused_days);
        if runs {
            assert(x.subrange(75 + size, 83 + size) =~= little_endian(a.runs.keep_days as nat, 8));
            assert(y.subrange(75 + size, 83 + size) =~= little_endian(b.runs.keep_days as nat, 8));
        }
    } else if runs {
        assert(x.subrange(53, 61) =~= little_endian(a.runs.keep_days as nat, 8));
        assert(y.subrange(53, 61) =~= little_endian(b.runs.keep_days as nat, 8));
    }
}

proof fn lemma_literal_lengths()
    ensures
        encode_utf8("gh-housekeeper-policy-v1"@).len() == 24,
        encode_utf8("cache-defaults"@).len() == 14,
        encode_utf8("workflow-run-defaults"@).len() == 21,
{
    reveal_strlit("gh-housekeeper-policy-v1");
    reveal_strlit("cache-defaults");
    reveal_strlit("workflow-run-defaults");
    vstd::utf8::is_ascii_chars_encode_utf8("gh-housekeeper-policy-v1"@);
    vstd::utf8::is_ascii_chars_encode_utf8("cache-defaults"@);
    vstd::utf8::is_ascii_chars_encode_utf8("workflow-run-defaults"@);
}

proof fn lemma_number_field_length(tag: u8, value: Option<u64>)
    ensures
        value is Some ==> number_field(tag, value).len() == 10,
        value is None ==> number_field(tag, value).len() == 2,
{
    if value is Some {
        lemma_eight_bytes(value->0 as nat, value->0 as nat);
    }
}

/// The hash takes every byte in: it is mixed into the hash of those before it, which is multiplied by
/// the prime of FNV-1a and cut to 64 bits. It starts from the offset of FNV-1a.
pub proof fn every_byte_is_hashed(config: PolicyConfigView, hash: u64, bytes: Seq<u8>, byte: u8)
    ensures
        fnv(hash, Seq::empty()) == hash,
        fnv(hash, bytes.push(byte)) == ((fnv(hash, bytes) ^ (byte as u64)) * 0x100000001b3) % 0x1_0000_0000_0000_0000,
        config.fingerprint() == "fnv1a64:"@ + hexadecimal(fnv(0xcbf29ce484222325, config.encoded()) as nat, 16),
{
    assert(bytes.push(byte).drop_last() =~= bytes);
}

/// Without a configuration, artifacts, caches and runs are kept for thirty days, and caches also
/// where they are not used.
pub proof fn built_in_defaults_keep_thirty_days()
    ensures
        PolicyDefaults::built_in().keep_days == 30,
        PolicyDefaults::built_in().caches.keep_days == 30,
        PolicyDefaults::built_in().caches.keep_unused_days is None,
        PolicyDefaults::built_in().runs.keep_days == 30,
{
}

} // verus!
