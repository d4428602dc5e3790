//! Policies: defaults, rules, validation, fingerprints, classification and plans.
use chrono::{TimeZone, Utc};
use gh_housekeeper::cleanup::CleanupPlanError;
use gh_housekeeper::model::{
    Account, ActionsCache, Artifact, CacheInventorySnapshot, InventorySnapshot, ProviderTelemetry,
    RepositoryRef, ScanIssue, ScanScope, WorkflowRun, WorkflowRunInventorySnapshot, WorkflowRunRef,
};
use gh_housekeeper::policy::cache_engine::classify_matched_cache;
use gh_housekeeper::policy::config::{
    hash_bytes, hash_optional_bool, hash_optional_str, hash_optional_u64, hash_u64,
    CachePolicyDefaults, PolicyConfig, PolicyDefaults, PolicyError, PolicyResource, PolicyRule,
    WorkflowRunPolicyDefaults, DEFAULT_KEEP_DAYS, FNV_OFFSET_BASIS,
};
use gh_housekeeper::policy::engine::{
    classify_matched_artifact, has_expired, Decision, PolicyEngine, ReasonCode,
};
use gh_housekeeper::policy::planner::{plan_targets, PlanBuildError};
use gh_housekeeper::policy::run_engine::classify_matched_run;
use gh_housekeeper::time::Timestamp;

fn on(month: u32, day: u32, hour: u32) -> Timestamp {
    let at = Utc.with_ymd_and_hms(2026, month, day, hour, 0, 0).unwrap();
    Timestamp::from_unix(at.timestamp(), at.timestamp_subsec_nanos()).unwrap()
}

fn text_in(table: &toml::Table, name: &str) -> Option<String> {
    table.get(name).map(|value| value.as_str().unwrap().to_owned())
}

fn number_in(table: &toml::Table, name: &str) -> Option<u64> {
    table.get(name).map(|value| value.as_integer().unwrap() as u64)
}

fn part_of<'a>(table: &'a toml::Table, name: &str) -> Option<&'a toml::Table> {
    table.get(name).map(|value| value.as_table().unwrap())
}

fn read_rule(table: &toml::Table) -> PolicyRule {
    PolicyRule {
        id: text_in(table, "id").unwrap(),
        resource: match text_in(table, "resource").as_deref() {
            None | Some("artifact") => PolicyResource::Artifact,
            Some("cache") => PolicyResource::Cache,
            Some("workflow_run") => PolicyResource::WorkflowRun,
            Some(other) => panic!("unknown resource {other}"),
        },
        repository: text_in(table, "repository"),
        workflow: text_in(table, "workflow"),
        artifact: text_in(table, "artifact"),
        branch: text_in(table, "branch"),
        key: text_in(table, "key"),
        git_ref: text_in(table, "ref"),
        keep_days: number_in(table, "keep_days"),
        keep_unused_days: number_in(table, "keep_unused_days"),
        event: text_in(table, "event"),
        conclusion: text_in(table, "conclusion"),
        keep_latest: number_in(table, "keep_latest").map(|count| count as usize),
        protect: table.get("protect").map(|value| value.as_bool().unwrap()),
    }
}

fn from_toml(text: &str) -> Result<PolicyConfig, PolicyError> {
    let table: toml::Table = text.parse().unwrap();
    let mut defaults = PolicyDefaults::default();
    if let Some(part) = part_of(&table, "defaults") {
        if let Some(days) = number_in(part, "keep_days") {
            defaults.keep_days = days;
        }
        if let Some(caches) = part_of(part, "caches") {
            if let Some(days) = number_in(caches, "keep_days") {
                defaults.caches.keep_days = days;
            }
            defaults.caches.keep_unused_days = number_in(caches, "keep_unused_days");
        }
        if let Some(runs) = part_of(part, "runs") {
            if let Some(days) = number_in(runs, "keep_days") {
                defaults.runs.keep_days = days;
            }
        }
    }
    let rules = match table.get("rules") {
        None => Vec::new(),
        Some(list) => list
            .as_array()
            .unwrap()
            .iter()
            .map(|rule| read_rule(rule.as_table().unwrap()))
            .collect(),
    };
    let config = PolicyConfig { defaults, rules };
    config.validate()?;
    Ok(config)
}

#[test]
fn ordinary_retention_defaults_to_thirty_days() {
    assert_eq!(PolicyDefaults::default().keep_days, 30);
    assert_eq!(PolicyDefaults::default().caches.keep_days, 30);
    assert_eq!(PolicyDefaults::default().caches.keep_unused_days, None);
    assert_eq!(PolicyDefaults::default().runs.keep_days, 30);
}

#[test]
fn parses_toml_policy() {
    let config = from_toml(
        r#"
[defaults]
keep_days = 21

[[rules]]
id = "nightly-short-retention"
repository = "example-user/*"
artifact = "nightly-*"
keep_days = 7
"#,
    )
    .unwrap();

    assert_eq!(config.defaults.keep_days, 21);
    assert_eq!(config.rules.len(), 1);
    assert_eq!(config.rules[0].id, "nightly-short-retention");
    assert_eq!(config.rules[0].keep_days, Some(7));
}

#[test]
fn parses_cache_defaults_and_resource_specific_rule() {
    let config = from_toml(
        r#"
[defaults.caches]
keep_days = 14
keep_unused_days = 7

[[rules]]
id = "cache-main"
resource = "cache"
repository = "example-user/*"
key = "linux-*"
ref = "refs/heads/main"
keep_unused_days = 3
"#,
    )
    .unwrap();

    assert_eq!(config.defaults.keep_days, 30);
    assert_eq!(config.defaults.caches.keep_days, 14);
    assert_eq!(config.defaults.caches.keep_unused_days, Some(7));
    assert_eq!(config.rules[0].resource, PolicyResource::Cache);
    assert_eq!(config.rules[0].key.as_deref(), Some("linux-*"));
    assert_eq!(config.rules[0].git_ref.as_deref(), Some("refs/heads/main"));
}

#[test]
fn parses_workflow_run_defaults_and_rule() {
    let config = from_toml(
        r#"
[defaults.runs]
keep_days = 2

[[rules]]
id = "ci-main"
resource = "workflow_run"
repository = "example-user/*"
workflow = "CI"
branch = "main"
event = "push"
conclusion = "success"
keep_days = 2
keep_latest = 3
"#,
    )
    .unwrap();

    assert_eq!(config.defaults.runs.keep_days, 2);
    assert_eq!(config.rules[0].resource, PolicyResource::WorkflowRun);
    assert_eq!(config.rules[0].event.as_deref(), Some("push"));
    assert_eq!(config.rules[0].conclusion.as_deref(), Some("success"));
    assert_eq!(config.rules[0].keep_latest, Some(3));
}

#[test]
fn legacy_rules_remain_artifact_rules() {
    let config = from_toml(
        r#"
[[rules]]
id = "legacy"
artifact = "nightly-*"
keep_days = 7
"#,
    )
    .unwrap();

    assert_eq!(config.rules[0].resource, PolicyResource::Artifact);
    assert_eq!(config.rules[0].resource, PolicyResource::default());
}

#[test]
fn resource_specific_fields_cannot_cross_resource_boundaries() {
    let artifact_error = from_toml(
        r#"
[[rules]]
id = "bad-artifact"
key = "cache-*"
keep_days = 7
"#,
    )
    .unwrap_err();
    assert!(artifact_error.message().contains("cache-only"));

    let cache_error = from_toml(
        r#"
[[rules]]
id = "bad-cache"
resource = "cache"
artifact = "nightly-*"
keep_days = 7
"#,
    )
    .unwrap_err();
    assert!(cache_error.message().contains("artifact-only"));
}

#[test]
fn invalid_glob_is_rejected_before_classification() {
    let error = from_toml(
        r#"
[[rules]]
id = "broken"
artifact = "["
keep_days = 7
"#,
    )
    .unwrap_err();

    assert!(error.message().contains("invalid artifact glob"));
}

#[test]
fn duplicate_rule_ids_are_rejected() {
    let error = from_toml(
        r#"
[[rules]]
id = "duplicate"
keep_days = 7

[[rules]]
id = "duplicate"
keep_days = 14
"#,
    )
    .unwrap_err();

    assert!(error.message().contains("duplicate policy rule id"));
}

#[test]
fn fingerprint_is_stable_and_sensitive_to_policy_changes() {
    let first = from_toml(
        r#"
[defaults]
keep_days = 30

[[rules]]
id = "nightly"
artifact = "nightly-*"
keep_days = 7
"#,
    )
    .unwrap();
    let same = from_toml(
        r#"
[defaults]
keep_days = 30

[[rules]]
id = "nightly"
artifact = "nightly-*"
keep_days = 7
"#,
    )
    .unwrap();
    let changed = from_toml(
        r#"
[defaults]
keep_days = 30

[[rules]]
id = "nightly"
artifact = "nightly-*"
keep_days = 8
"#,
    )
    .unwrap();

    let explicit_default_cache = from_toml(
        r#"
[defaults]
keep_days = 30

[defaults.caches]
keep_days = 30

[[rules]]
id = "nightly"
artifact = "nightly-*"
keep_days = 7
"#,
    )
    .unwrap();

    assert_eq!(first.fingerprint(), same.fingerprint());
    assert_eq!(first.fingerprint(), explicit_default_cache.fingerprint());
    assert_ne!(first.fingerprint(), changed.fingerprint());
    assert!(first.fingerprint().starts_with("fnv1a64:"));
}

#[test]
fn actionless_rule_is_rejected() {
    let error = from_toml(
        r#"
[[rules]]
id = "no-action"
artifact = "nightly-*"
"#,
    )
    .unwrap_err();

    assert!(error.message().contains("has no action"));
}

fn plain_rule(id: &str) -> PolicyRule {
    PolicyRule {
        id: id.to_owned(),
        resource: PolicyResource::Artifact,
        repository: None,
        workflow: None,
        artifact: None,
        branch: None,
        key: None,
        git_ref: None,
        keep_days: Some(7),
        keep_unused_days: None,
        event: None,
        conclusion: None,
        keep_latest: None,
        protect: None,
    }
}

fn problem_with(rule: PolicyRule) -> String {
    let config = PolicyConfig { defaults: PolicyDefaults::default(), rules: vec![rule] };
    config.validate().unwrap_err().message()
}

#[test]
fn blank_rule_ids_are_rejected() {
    assert!(problem_with(plain_rule("  ")).contains("id"));
}

#[test]
fn cache_ages_belong_to_caches() {
    let mut rule = plain_rule("unused-artifact");
    rule.keep_unused_days = Some(3);
    assert!(problem_with(rule).contains("cache-only"));
}

#[test]
fn fields_that_do_not_fit_a_rule_are_named() {
    let mut rule = plain_rule("old-runs");
    rule.resource = PolicyResource::WorkflowRun;
    rule.key = Some("*".to_owned());
    assert!(problem_with(rule).ends_with(
        "workflow-run policy rule old-runs cannot use artifact/cache-only artifact, key, ref, or keep_unused_days fields"
    ));
}

#[test]
fn every_glob_passes() {
    let mut deep = plain_rule("deep");
    deep.repository = Some(format!("{}a{}", "{".repeat(81), "}".repeat(81)));
    let mut wide = plain_rule("wide");
    wide.repository = Some("{a,b}".repeat(81));
    let config = PolicyConfig { defaults: PolicyDefaults::default(), rules: vec![deep, wide] };
    assert_eq!(config.validate(), Ok(()));
    assert!(config.compiles());
    let engine = PolicyEngine::new(config.clone()).unwrap();
    assert_eq!(engine.config(), &config);
    let mut none = plain_rule("none");
    none.repository = Some("{a".to_owned());
    assert!(problem_with(none).contains("invalid repository glob in rule none: "));
}

#[test]
fn a_default_policy_is_valid() {
    let config = PolicyConfig::default();
    assert_eq!(config.validate(), Ok(()));
    assert!(config.compiles());
    assert_eq!(config.defaults.keep_days, DEFAULT_KEEP_DAYS);
    assert_eq!(config.defaults.caches, CachePolicyDefaults::default());
    assert_eq!(config.defaults.runs, WorkflowRunPolicyDefaults::default());
    assert!(config.rules.is_empty());
}

#[test]
fn hashing_follows_the_published_vectors() {
    let mut empty = FNV_OFFSET_BASIS;
    hash_bytes(&mut empty, b"");
    assert_eq!(empty, 0xcbf29ce484222325);
    let mut letter = FNV_OFFSET_BASIS;
    hash_bytes(&mut letter, b"a");
    assert_eq!(letter, 0xaf63dc4c8601ec8c);
    let mut word = FNV_OFFSET_BASIS;
    hash_bytes(&mut word, b"foobar");
    assert_eq!(word, 0x85944171f73967e8);
}

#[test]
fn hashing_in_parts_is_hashing_in_a_row() {
    let mut parts = FNV_OFFSET_BASIS;
    hash_bytes(&mut parts, b"foo");
    hash_bytes(&mut parts, b"bar");
    let mut whole = FNV_OFFSET_BASIS;
    hash_bytes(&mut whole, b"foobar");
    assert_eq!(parts, whole);
}

#[test]
fn numbers_are_hashed_by_their_little_end_first() {
    let mut number = FNV_OFFSET_BASIS;
    hash_u64(&mut number, 0x0807060504030201);
    let mut bytes = FNV_OFFSET_BASIS;
    hash_bytes(&mut bytes, &[1, 2, 3, 4, 5, 6, 7, 8]);
    assert_eq!(number, bytes);
}

#[test]
fn absent_values_leave_their_own_trace() {
    let mut absent = FNV_OFFSET_BASIS;
    hash_optional_u64(&mut absent, 1, None);
    let mut present = FNV_OFFSET_BASIS;
    hash_optional_u64(&mut present, 1, Some(0));
    assert_ne!(absent, present);
    let mut no_text = FNV_OFFSET_BASIS;
    hash_optional_str(&mut no_text, 1, None);
    let mut empty_text = FNV_OFFSET_BASIS;
    hash_optional_str(&mut empty_text, 1, Some(""));
    assert_ne!(no_text, empty_text);
    let mut refused = FNV_OFFSET_BASIS;
    hash_optional_bool(&mut refused, 1, Some(false));
    let mut granted = FNV_OFFSET_BASIS;
    hash_optional_bool(&mut granted, 1, Some(true));
    assert_ne!(refused, granted);
}

#[test]
fn known_policies_have_known_fingerprints() {
    assert_eq!(PolicyConfig::default().fingerprint(), "fnv1a64:847ae6cbbf5b3a26");
    let mut rule = plain_rule("nightly");
    rule.artifact = Some("nightly-*".to_owned());
    let config = PolicyConfig { defaults: PolicyDefaults::default(), rules: vec![rule] };
    assert_eq!(config.fingerprint(), "fnv1a64:996c26130e4e72d5");
}

#[test]
fn a_fingerprint_passes_over_fields_of_other_resources() {
    let plain = PolicyConfig { defaults: PolicyDefaults::default(), rules: vec![plain_rule("r")] };
    let mut rule = plain_rule("r");
    rule.key = Some("linux-*".to_owned());
    let keyed = PolicyConfig { defaults: PolicyDefaults::default(), rules: vec![rule] };
    assert_eq!(plain.fingerprint(), keyed.fingerprint());
}


fn example_account() -> Account {
    Account { provider: "example".to_owned(), login: "example-user".to_owned() }
}

fn artifact(id: u64, name: &str, created_day: u32) -> Artifact {
    Artifact {
        id,
        repository: RepositoryRef { id: 10, full_name: "example-user/project-alpha".to_owned() },
        name: name.to_owned(),
        size_in_bytes: id * 100,
        created_at: on(1, created_day, 0),
        updated_at: on(1, created_day, 0),
        expires_at: None,
        expired: false,
        digest: None,
        workflow_run: Some(WorkflowRunRef {
            id: id + 100,
            head_branch: Some("main".to_owned()),
            head_sha: None,
            workflow_id: Some(50),
            workflow_name: Some("CI".to_owned()),
        }),
    }
}

fn snapshot(artifacts: Vec<Artifact>) -> InventorySnapshot {
    InventorySnapshot {
        account: example_account(),
        scope: ScanScope::AllAccessible,
        scanned_at: on(2, 15, 0),
        elapsed_ms: 1,
        repositories: Vec::new(),
        artifacts,
        issues: Vec::new(),
        telemetry: ProviderTelemetry::default(),
    }
}

fn cache(id: u64, created_day: u32, accessed_day: u32, key: &str) -> ActionsCache {
    ActionsCache {
        id,
        repository: RepositoryRef { id: 10, full_name: "example-user/project-alpha".to_owned() },
        key: key.to_owned(),
        version: format!("version-{id}"),
        git_ref: "refs/heads/main".to_owned(),
        created_at: on(1, created_day, 0),
        last_accessed_at: on(2, accessed_day, 0),
        size_in_bytes: id * 100,
    }
}

fn cache_snapshot(caches: Vec<ActionsCache>) -> CacheInventorySnapshot {
    CacheInventorySnapshot {
        account: example_account(),
        scope: ScanScope::AllAccessible,
        scanned_at: on(2, 15, 0),
        elapsed_ms: 1,
        repositories: Vec::new(),
        caches,
        issues: Vec::new(),
        telemetry: ProviderTelemetry::default(),
    }
}

fn run(
    id: u64,
    repository: &str,
    workflow_id: u64,
    branch: &str,
    status: &str,
    created_day: u32,
) -> WorkflowRun {
    WorkflowRun {
        id,
        repository: RepositoryRef {
            id: if repository.ends_with("alpha") { 1 } else { 2 },
            full_name: repository.to_owned(),
        },
        workflow_id,
        workflow_name: Some("CI".to_owned()),
        display_title: format!("run {id}"),
        event: "push".to_owned(),
        status: status.to_owned(),
        conclusion: if status == "completed" { Some("success".to_owned()) } else { None },
        head_branch: Some(branch.to_owned()),
        head_sha: format!("sha-{id}"),
        run_number: id,
        run_attempt: 1,
        created_at: on(1, created_day, 0),
        updated_at: on(1, created_day, 1),
    }
}

fn run_snapshot(runs: Vec<WorkflowRun>) -> WorkflowRunInventorySnapshot {
    WorkflowRunInventorySnapshot {
        account: example_account(),
        scope: ScanScope::AllAccessible,
        scanned_at: on(2, 15, 0),
        elapsed_ms: 1,
        repositories: Vec::new(),
        runs,
        issues: Vec::new(),
        telemetry: ProviderTelemetry::default(),
    }
}

fn planned_artifact(id: u64, created_day: u32) -> Artifact {
    let mut planned = artifact(id, &format!("nightly-{id}"), created_day);
    planned.workflow_run = None;
    planned
}

fn planned_snapshot() -> InventorySnapshot {
    snapshot(vec![planned_artifact(1, 1), planned_artifact(2, 20)])
}

#[test]
fn specific_retention_rule_overrides_default() {
    let config = from_toml(
        r#"
[defaults]
keep_days = 30

[[rules]]
id = "nightly-short-retention"
repository = "example-user/*"
artifact = "nightly-*"
keep_days = 7
"#,
    )
    .unwrap();
    let report = PolicyEngine::new(config)
        .unwrap()
        .classify_snapshot(&snapshot(vec![artifact(1, "nightly-1", 30)]));

    assert_eq!(report.decisions[0].decision, Decision::Delete);
    assert_eq!(report.decisions[0].effective_keep_days, Some(7));
    assert_eq!(
        report.decisions[0].reasons[0].rule_id.as_deref(),
        Some("nightly-short-retention")
    );
}

#[test]
fn explicit_protection_outranks_destructive_retention() {
    let config = from_toml(
        r#"
[defaults]
keep_days = 1

[[rules]]
id = "protect-release"
artifact = "release-*"
protect = true
"#,
    )
    .unwrap();
    let report = PolicyEngine::new(config)
        .unwrap()
        .classify_snapshot(&snapshot(vec![artifact(1, "release-1", 1)]));

    assert_eq!(report.decisions[0].decision, Decision::Protected);
    assert_eq!(
        report.decisions[0].reasons[0].code,
        ReasonCode::ExplicitProtection
    );
}

#[test]
fn equally_specific_conflicts_require_manual_review() {
    let config = from_toml(
        r#"
[[rules]]
id = "seven-days"
artifact = "nightly-*"
keep_days = 7

[[rules]]
id = "fourteen-days"
artifact = "nightly-*"
keep_days = 14
"#,
    )
    .unwrap();
    let report = PolicyEngine::new(config)
        .unwrap()
        .classify_snapshot(&snapshot(vec![artifact(1, "nightly-1", 1)]));

    assert_eq!(report.decisions[0].decision, Decision::ManualReview);
    assert_eq!(report.decisions[0].reasons.len(), 2);
}

#[test]
fn keep_latest_uses_the_explicit_rule_match_set() {
    let config = from_toml(
        r#"
[defaults]
keep_days = 1

[[rules]]
id = "latest-nightlies"
repository = "example-user/project-alpha"
artifact = "nightly-*"
keep_latest = 2
"#,
    )
    .unwrap();
    let report = PolicyEngine::new(config)
        .unwrap()
        .classify_snapshot(&snapshot(vec![
            artifact(1, "nightly-1", 1),
            artifact(2, "nightly-2", 2),
            artifact(3, "nightly-3", 3),
        ]));

    assert_eq!(report.count(Decision::Keep), 2);
    assert_eq!(report.count(Decision::Delete), 1);
    assert_eq!(report.reclaimable_bytes(), 100);
    assert_eq!(report.decisions[1].reasons[0].code, ReasonCode::KeepLatest);
    assert_eq!(report.decisions[2].reasons[0].code, ReasonCode::KeepLatest);
}

#[test]
fn more_specific_retention_rule_wins_without_conflict() {
    let config = from_toml(
        r#"
[[rules]]
id = "all-nightlies"
artifact = "nightly-*"
keep_days = 7

[[rules]]
id = "main-nightlies"
artifact = "nightly-*"
branch = "main"
keep_days = 14
"#,
    )
    .unwrap();
    let report = PolicyEngine::new(config)
        .unwrap()
        .classify_snapshot(&snapshot(vec![artifact(1, "nightly-1", 5)]));

    assert_eq!(report.decisions[0].effective_keep_days, Some(14));
    assert_eq!(
        report.decisions[0].reasons[0].rule_id.as_deref(),
        Some("main-nightlies")
    );
}

#[test]
fn cache_delete_requires_all_configured_retention_criteria_to_expire() {
    let config = from_toml(
        r#"
[defaults.caches]
keep_days = 14
keep_unused_days = 7
"#,
    )
    .unwrap();
    let report = PolicyEngine::new(config)
        .unwrap()
        .classify_cache_snapshot(&cache_snapshot(vec![
            cache(1, 1, 12, "recently-used"),
            cache(2, 1, 1, "stale"),
        ]));

    assert_eq!(report.decisions[0].decision, Decision::Keep);
    assert_eq!(report.decisions[1].decision, Decision::Delete);
    assert_eq!(report.reclaimable_bytes(), 200);
    assert!(
        report.decisions[0]
            .reasons
            .iter()
            .any(|reason| reason.code == ReasonCode::DefaultUnusedRetentionActive)
    );
}

#[test]
fn cache_rules_match_only_cache_dimensions() {
    let config = from_toml(
        r#"
[defaults.caches]
keep_days = 30

[[rules]]
id = "short-linux-main"
resource = "cache"
repository = "example-user/*"
key = "linux-*"
ref = "refs/heads/main"
keep_unused_days = 3
"#,
    )
    .unwrap();
    let report = PolicyEngine::new(config)
        .unwrap()
        .classify_cache_snapshot(&cache_snapshot(vec![cache(1, 1, 1, "linux-build")]));

    assert_eq!(report.decisions[0].decision, Decision::Delete);
    assert_eq!(report.decisions[0].effective_keep_days, None);
    assert_eq!(report.decisions[0].effective_keep_unused_days, Some(3));
    assert_eq!(
        report.decisions[0].reasons[0].rule_id.as_deref(),
        Some("short-linux-main")
    );
}

#[test]
fn cache_protection_and_keep_latest_override_retention() {
    let config = from_toml(
        r#"
[defaults.caches]
keep_days = 1

[[rules]]
id = "protect-release-cache"
resource = "cache"
key = "release-*"
protect = true

[[rules]]
id = "latest-build"
resource = "cache"
key = "build-*"
keep_latest = 1
"#,
    )
    .unwrap();
    let report = PolicyEngine::new(config)
        .unwrap()
        .classify_cache_snapshot(&cache_snapshot(vec![
            cache(1, 1, 1, "release-main"),
            cache(2, 2, 1, "build-old"),
            cache(3, 3, 1, "build-new"),
        ]));

    assert_eq!(report.decisions[0].decision, Decision::Protected);
    assert_eq!(report.decisions[1].decision, Decision::Delete);
    assert_eq!(report.decisions[2].decision, Decision::Keep);
    assert_eq!(report.decisions[2].reasons[0].code, ReasonCode::KeepLatest);
}

#[test]
fn conflicting_cache_retention_rules_require_manual_review() {
    let config = from_toml(
        r#"
[[rules]]
id = "unused-seven"
resource = "cache"
key = "build-*"
keep_unused_days = 7

[[rules]]
id = "unused-fourteen"
resource = "cache"
key = "build-*"
keep_unused_days = 14
"#,
    )
    .unwrap();
    let report = PolicyEngine::new(config)
        .unwrap()
        .classify_cache_snapshot(&cache_snapshot(vec![cache(1, 1, 1, "build-main")]));

    assert_eq!(report.decisions[0].decision, Decision::ManualReview);
    assert_eq!(report.decisions[0].reasons.len(), 2);
}

#[test]
fn active_runs_are_never_delete_candidates() {
    let report = PolicyEngine::new(PolicyConfig::default())
        .unwrap()
        .classify_workflow_run_snapshot(&run_snapshot(vec![run(
            1,
            "example-user/project-alpha",
            10,
            "main",
            "in_progress",
            1,
        )]));

    assert_eq!(report.decisions[0].decision, Decision::Keep);
    assert_eq!(
        report.decisions[0].reasons[0].code,
        ReasonCode::RunNotCompleted
    );
}

#[test]
fn run_specific_retention_overrides_default() {
    let config = from_toml(
        r#"
[defaults.runs]
keep_days = 30

[[rules]]
id = "short-main"
resource = "workflow_run"
repository = "example-user/project-alpha"
workflow = "CI"
branch = "main"
keep_days = 7
"#,
    )
    .unwrap();
    let report = PolicyEngine::new(config)
        .unwrap()
        .classify_workflow_run_snapshot(&run_snapshot(vec![run(
            1,
            "example-user/project-alpha",
            10,
            "main",
            "completed",
            20,
        )]));

    assert_eq!(report.decisions[0].decision, Decision::Delete);
    assert_eq!(report.decisions[0].effective_keep_days, Some(7));
}

#[test]
fn keep_latest_is_applied_per_repository_workflow_branch_family() {
    let config = from_toml(
        r#"
[defaults.runs]
keep_days = 1

[[rules]]
id = "keep-two"
resource = "workflow_run"
repository = "example-user/*"
workflow = "CI"
branch = "main"
keep_latest = 2
"#,
    )
    .unwrap();

    let report = PolicyEngine::new(config)
        .unwrap()
        .classify_workflow_run_snapshot(&run_snapshot(vec![
            run(1, "example-user/project-alpha", 10, "main", "completed", 1),
            run(2, "example-user/project-alpha", 10, "main", "completed", 2),
            run(3, "example-user/project-alpha", 10, "main", "completed", 3),
            run(4, "example-user/project-beta", 10, "main", "completed", 1),
            run(5, "example-user/project-beta", 10, "main", "completed", 2),
            run(6, "example-user/project-beta", 10, "main", "completed", 3),
        ]));

    let kept = report.count(Decision::Keep);
    let deleted = report.count(Decision::Delete);
    assert_eq!(kept, 4);
    assert_eq!(deleted, 2);
    assert_eq!(
        report.delete_identities(),
        vec![
            ("example-user/project-alpha".to_owned(), 1),
            ("example-user/project-beta".to_owned(), 4),
        ]
    );
}

#[test]
fn protection_outranks_retention() {
    let config = from_toml(
        r#"
[defaults.runs]
keep_days = 1

[[rules]]
id = "protect-release"
resource = "workflow_run"
branch = "release-*"
protect = true
"#,
    )
    .unwrap();
    let report = PolicyEngine::new(config)
        .unwrap()
        .classify_workflow_run_snapshot(&run_snapshot(vec![run(
            1,
            "example-user/project-alpha",
            10,
            "release-1",
            "completed",
            1,
        )]));

    assert_eq!(report.decisions[0].decision, Decision::Protected);
}

#[test]
fn planner_contains_only_delete_decisions() {
    let config = from_toml(
        r#"
[defaults]
keep_days = 30
"#,
    )
    .unwrap();
    let plan = PolicyEngine::new(config)
        .unwrap()
        .build_cleanup_plan(&planned_snapshot())
        .unwrap();

    assert_eq!(plan.summary().source_artifact_count(), 2);
    assert_eq!(plan.summary().keep_count(), 1);
    assert_eq!(plan.summary().delete_count(), 1);
    assert_eq!(plan.targets().len(), 1);
    assert_eq!(plan.targets()[0].artifact().id, 1);
    assert!(plan.policy_hash().starts_with("fnv1a64:"));
}

#[test]
fn planner_refuses_incomplete_snapshot() {
    let mut snapshot = planned_snapshot();
    snapshot.issues.push(ScanIssue {
        repository: Some("example-user/project-beta".to_owned()),
        message: "timeout".to_owned(),
    });

    let error = PolicyEngine::new(PolicyConfig::default())
        .unwrap()
        .build_cleanup_plan(&snapshot)
        .unwrap_err();

    assert!(matches!(
        error,
        PlanBuildError::CleanupPlan(CleanupPlanError::IncompleteSnapshot { issue_count: 1 })
    ));
}

#[test]
fn retention_ends_on_the_last_day() {
    assert!(!has_expired(86_399, 1));
    assert!(has_expired(86_400, 1));
    assert!(has_expired(0, 0));
    assert!(!has_expired(u64::MAX - 1, u64::MAX));
}

#[test]
fn protection_is_named_before_the_latest() {
    let mut protect = plain_rule("protect");
    protect.protect = Some(true);
    let config = PolicyConfig { defaults: PolicyDefaults::default(), rules: vec![protect] };
    let decision = classify_matched_artifact(
        &artifact(1, "a", 1),
        on(2, 15, 0),
        &config,
        &vec![true],
        vec!["latest".to_owned()],
    );
    assert_eq!(decision.decision, Decision::Protected);
    assert_eq!(decision.effective_keep_days, None);
    assert_eq!(decision.reasons.len(), 1);
    assert_eq!(decision.reasons[0].rule_id.as_deref(), Some("protect"));
}

#[test]
fn rules_that_do_not_match_leave_the_default() {
    let config = PolicyConfig {
        defaults: PolicyDefaults::default(),
        rules: vec![plain_rule("short")],
    };
    let kept = classify_matched_artifact(
        &artifact(1, "a", 20),
        on(2, 15, 0),
        &config,
        &vec![false],
        Vec::new(),
    );
    assert_eq!(kept.decision, Decision::Keep);
    assert_eq!(kept.effective_keep_days, Some(30));
    assert_eq!(kept.reasons[0].code, ReasonCode::DefaultRetentionActive);
    assert_eq!(kept.reasons[0].code.as_str(), "default_retention_active");
    let expired = classify_matched_artifact(
        &artifact(1, "a", 20),
        on(2, 15, 0),
        &config,
        &vec![true],
        Vec::new(),
    );
    assert_eq!(expired.decision, Decision::Delete);
    assert_eq!(expired.effective_keep_days, Some(7));
    assert_eq!(expired.reasons[0].code, ReasonCode::RuleRetentionExpired);
}

#[test]
fn the_latest_caches_and_runs_stay() {
    let config = PolicyConfig::default();
    let cached = classify_matched_cache(
        &cache(1, 1, 1, "k"),
        on(2, 15, 0),
        &config,
        &Vec::new(),
        vec!["latest".to_owned()],
    );
    assert_eq!(cached.decision, Decision::Keep);
    assert_eq!(cached.reasons[0].code, ReasonCode::KeepLatest);
    let ran = classify_matched_run(
        &run(1, "example-user/project-alpha", 10, "main", "completed", 1),
        on(2, 15, 0),
        &config,
        &Vec::new(),
        vec!["latest".to_owned()],
    );
    assert_eq!(ran.decision, Decision::Keep);
    assert_eq!(ran.reasons[0].code, ReasonCode::KeepLatest);
}

#[test]
fn targets_need_a_decision_each() {
    let error = plan_targets(&vec![artifact(1, "a", 1)], &Vec::new()).unwrap_err();
    assert!(matches!(error, PlanBuildError::ClassificationMismatch(_)));
    assert!(error.message().contains("classification"));
}

#[test]
fn a_plan_carries_the_fingerprint_of_its_policy() {
    let engine = PolicyEngine::new(PolicyConfig::default()).unwrap();
    let plan = engine.build_cleanup_plan_at(&planned_snapshot(), on(2, 16, 0)).unwrap();
    assert_eq!(plan.policy_hash(), "fnv1a64:847ae6cbbf5b3a26");
    assert_eq!(plan.created_at(), on(2, 16, 0));
    assert_eq!(plan.scanned_at(), on(2, 15, 0));
    assert_eq!(plan.summary().reclaimable_bytes(), 100);
    assert_eq!(plan.targets()[0].reasons()[0].code(), "default_retention_expired");
}

#[test]
fn an_invalid_policy_makes_no_engine() {
    let config = PolicyConfig {
        defaults: PolicyDefaults::default(),
        rules: vec![plain_rule("a"), plain_rule("a")],
    };
    assert_eq!(
        PolicyEngine::new(config).unwrap_err(),
        PolicyError::Validation("duplicate policy rule id: a".to_owned())
    );
}
