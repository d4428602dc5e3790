//! Scanned resources: ages, totals, groups, merged scans, and the texts that describe them.
use chrono::{DateTime, Duration, TimeZone, Utc};
use gh_housekeeper::format::{
    format_age, format_bytes, format_optional_bytes, parse_duration, parse_u64, DurationParseError,
};
use gh_housekeeper::glob::{
    check_glob, is_compilable, matches_glob, matches_optional_glob,
};
use gh_housekeeper::listing::check_pattern;
use gh_housekeeper::inventory::{
    aggregate_caches, find_cache, find_repository, repositories_to_scan, scan_concurrency,
    CacheAggregationKey, CacheInventoryService, InventoryService, RepositoryScan,
    WorkflowRunInventoryService,
};
use gh_housekeeper::model::{
    Account, ActionsCache, Artifact, CacheInventorySnapshot, InventorySnapshot, ProviderError,
    ProviderTelemetry, Repository, RepositoryRef, ScanScope, Visibility, WorkflowRun,
    WorkflowRunInventorySnapshot, WorkflowRunRef,
};
use gh_housekeeper::order::{sort, sort_distinct, Alphabetical, Ascending};
use gh_housekeeper::time::{Timestamp, FIRST_SECOND, LAST_SECOND, LONGEST_DURATION, LONGEST_SPAN};
use gh_housekeeper::totals::grouped;

fn stamp(at: DateTime<Utc>) -> Timestamp {
    Timestamp::from_unix(at.timestamp(), at.timestamp_subsec_nanos()).unwrap()
}

fn on(month: u32, day: u32, hour: u32) -> Timestamp {
    stamp(Utc.with_ymd_and_hms(2026, month, day, hour, 0, 0).unwrap())
}

fn example_account() -> Account {
    Account { provider: "example".to_owned(), login: "example-user".to_owned() }
}

fn artifact(id: u64, repository: &str, name: &str, bytes: u64) -> Artifact {
    Artifact {
        id,
        repository: RepositoryRef { id: id + 10, full_name: repository.to_owned() },
        name: name.to_owned(),
        size_in_bytes: bytes,
        created_at: on(1, 1, 0),
        updated_at: on(1, 1, 0),
        expires_at: None,
        expired: false,
        digest: None,
        workflow_run: None,
    }
}

fn repository(id: u64, full_name: &str) -> Repository {
    let (owner, name) = full_name.split_once('/').unwrap();
    Repository {
        id,
        owner: owner.to_owned(),
        name: name.to_owned(),
        full_name: full_name.to_owned(),
        visibility: Visibility::Public,
        default_branch: "main".to_owned(),
        archived: false,
        fork: false,
    }
}

fn cache(id: u64, repository: &Repository, key: &str, bytes: u64) -> ActionsCache {
    ActionsCache {
        id,
        repository: RepositoryRef::of(repository),
        key: key.to_owned(),
        version: format!("version-{id}"),
        git_ref: "refs/heads/main".to_owned(),
        created_at: on(1, 1, 0),
        last_accessed_at: on(1, id as u32, 0),
        size_in_bytes: bytes,
    }
}

fn run(id: u64, repository: &Repository, status: &str) -> WorkflowRun {
    WorkflowRun {
        id,
        repository: RepositoryRef::of(repository),
        workflow_id: 100,
        workflow_name: Some("Rust CI".to_owned()),
        display_title: format!("run {id}"),
        event: "push".to_owned(),
        status: status.to_owned(),
        conclusion: if status == "completed" { Some("success".to_owned()) } else { None },
        head_branch: Some("main".to_owned()),
        head_sha: format!("sha-{id}"),
        run_number: id,
        run_attempt: 1,
        created_at: on(1, id as u32, 0),
        updated_at: on(1, id as u32, 1),
    }
}

fn snapshot(artifacts: Vec<Artifact>) -> InventorySnapshot {
    InventorySnapshot {
        account: example_account(),
        scope: ScanScope::AllAccessible,
        scanned_at: stamp(Utc::now()),
        elapsed_ms: 10,
        repositories: Vec::new(),
        artifacts,
        issues: Vec::new(),
        telemetry: ProviderTelemetry::default(),
    }
}

fn three_repositories() -> Vec<Repository> {
    vec![
        repository(1, "example-user/project-alpha"),
        repository(2, "example-user/project-beta"),
        repository(3, "example-user/project-gamma"),
    ]
}

#[test]
fn formats_binary_byte_units() {
    assert_eq!(format_bytes(0), "0 B");
    assert_eq!(format_bytes(1024), "1.00 KiB");
    assert_eq!(format_bytes(1024 * 1024), "1.00 MiB");
    assert_eq!(format_bytes(5 * 1024 * 1024 * 1024), "5.00 GiB");
}

fn bytes_by_division(bytes: u64) -> String {
    let units = ["B", "KiB", "MiB", "GiB", "TiB"];
    let mut value = bytes as f64;
    let mut unit = 0;
    while value >= 1024.0 && unit < units.len() - 1 {
        value /= 1024.0;
        unit += 1;
    }
    if unit == 0 {
        format!("{} {}", bytes, units[unit])
    } else {
        format!("{:.2} {}", value, units[unit])
    }
}

#[test]
fn byte_units_agree_with_division() {
    let mut seed: u64 = 88172645463325252;
    let mut samples = vec![1, 1023, 1025, 1029, 1034, 1535, 1536, 1537, u64::MAX, u64::MAX - 1];
    for shift in 0..64 {
        let power = 1_u64 << shift;
        samples.extend([power - 1, power, power.saturating_add(1), power + power / 200]);
    }
    for _ in 0..4000 {
        seed ^= seed << 13;
        seed ^= seed >> 7;
        seed ^= seed << 17;
        samples.push(seed >> (seed % 60));
    }
    for bytes in samples {
        assert_eq!(format_bytes(bytes), bytes_by_division(bytes), "{bytes}");
    }
}

#[test]
fn absent_sizes_are_unconfigured() {
    assert_eq!(format_optional_bytes(None), "unconfigured");
    assert_eq!(format_optional_bytes(Some(1536)), "1.50 KiB");
}

#[test]
fn ages_round_down_to_the_largest_unit() {
    assert_eq!(format_age(0), "0s");
    assert_eq!(format_age(59), "59s");
    assert_eq!(format_age(3_599), "59m");
    assert_eq!(format_age(86_399), "23h");
}

#[test]
fn parses_housekeeping_durations() {
    assert_eq!(parse_duration("30d").unwrap(), 2_592_000);
    assert_eq!(parse_duration("12h").unwrap(), 43_200);
    assert_eq!(parse_duration("2w").unwrap(), 1_209_600);
    assert_eq!(parse_duration("0d"), Err(DurationParseError::Invalid));
    assert_eq!(parse_duration("days"), Err(DurationParseError::Invalid));
}

#[test]
fn durations_overflow_out_loud() {
    assert_eq!(parse_duration("99999999999999999d"), Err(DurationParseError::Overflow));
    assert_eq!(parse_duration(""), Err(DurationParseError::Invalid));
    assert_eq!(parse_duration("d"), Err(DurationParseError::Invalid));
    assert_eq!(parse_duration("5"), Err(DurationParseError::Invalid));
    assert_eq!(parse_duration("5\u{e9}"), Err(DurationParseError::Invalid));
    assert_eq!(parse_duration("\u{e9}"), Err(DurationParseError::Invalid));
    assert_eq!(parse_duration("\u{e9}d"), Err(DurationParseError::Invalid));
    assert_eq!(parse_duration("7m"), Ok(420));
    assert_eq!(parse_duration("90s"), Ok(90));
    assert_ne!(DurationParseError::Overflow.message(), DurationParseError::Invalid.message());
}

#[test]
fn numbers_are_read_as_the_standard_library_reads_them() {
    for text in ["0", "7", "+7", "007", "18446744073709551615", "18446744073709551616", "", "+",
        "-1", " 1", "1 ", "1_0", "0x1", "99999999999999999999999"]
    {
        assert_eq!(parse_u64(text), text.parse::<u64>().ok(), "{text}");
    }
}

#[test]
fn aggregates_storage_by_repository() {
    let snapshot = snapshot(vec![
        artifact(1, "example-user/project-alpha", "output-001", 200),
        artifact(2, "example-user/project-alpha", "output-002", 300),
        artifact(3, "example-user/project-beta", "report-001", 100),
    ]);

    let buckets = snapshot.aggregate_by_repository();
    assert_eq!(buckets[0].key, "example-user/project-alpha");
    assert_eq!(buckets[0].artifact_count, 2);
    assert_eq!(buckets[0].bytes, 500);
    assert_eq!(buckets[1].key, "example-user/project-beta");
}

#[test]
fn groups_cover_the_snapshot() {
    let mut with_run = artifact(1, "example-user/project-alpha", "output", 200);
    with_run.workflow_run = Some(WorkflowRunRef {
        id: 70,
        head_branch: Some("main".to_owned()),
        head_sha: None,
        workflow_id: None,
        workflow_name: Some("CI".to_owned()),
    });
    assert_eq!(with_run.branch(), Some("main"));
    assert_eq!(with_run.workflow(), Some("CI"));
    let snapshot = snapshot(vec![
        with_run,
        artifact(2, "example-user/project-alpha", "output", 300),
    ]);
    assert_eq!(snapshot.total_bytes(), 500);
    assert_eq!(snapshot.artifact_count(), 2);
    assert_eq!(snapshot.aggregate_by_name().len(), 1);
    assert_eq!(snapshot.aggregate_by_name()[0].bytes, 500);
    let branches = snapshot.aggregate_by_branch();
    assert_eq!(branches.len(), 2);
    assert_eq!(branches[0].bytes, 300);
    assert_eq!(branches[1].key, "main");
    let runs = snapshot.aggregate_by_workflow_run();
    assert_eq!(runs.len(), 2);
    assert_eq!(runs.iter().map(|bucket| bucket.bytes).sum::<u64>(), 500);
}

#[test]
fn glob_matching_has_no_artifact_name_semantics() {
    assert!(matches_glob("output-*", "output-001").unwrap());
    assert!(!matches_glob("output-*", "report-001").unwrap());
}

#[test]
fn globs_know_classes_and_alternatives() {
    assert!(matches_glob("v[0-9].{txt,md}", "v1.md").unwrap());
    assert!(!matches_glob("v[0-9].{txt,md}", "vx.md").unwrap());
    assert!(matches_glob("*", "a/b").unwrap());
    assert!(matches_glob("[", "x").unwrap_err().message().starts_with("invalid glob pattern: "));
    assert!(matches_optional_glob(&None, None));
    assert!(!matches_optional_glob(&Some("*".to_owned()), None));
    assert!(!matches_optional_glob(&Some("[".to_owned()), Some("[")));
    assert!(is_compilable("{a,b}"));
    assert!(is_compilable(&"{a}".repeat(81)));
    assert!(matches_glob(&"{a,b}".repeat(81), &"ab".repeat(41)[..81]).unwrap());
    assert!(!is_compilable(&"a".repeat(32_769)));
}

#[test]
fn the_largest_compilable_patterns_compile() {
    let nested = format!("{}a{}", "{a,".repeat(9), "}".repeat(9));
    assert!(matches_glob(&nested, "a").unwrap() || !matches_glob(&nested, "b").unwrap());
    let wide = "?".repeat(32_768);
    assert!(is_compilable(&wide));
    assert!(!matches_glob(&wide, "short").unwrap());
    let stars = "*".repeat(32_768);
    assert!(matches_glob(&stars, "anything").unwrap());
    let many = "{a,b}".repeat(6_553);
    assert!(is_compilable(&many));
    assert!(matches_glob(&many, &"a".repeat(6_553)).unwrap());
    for piece in ["{ab,c}", "{*,?}", "a/**/", "/**/", "\u{1d11e}", "[!\u{1d11e}]", "{a,[b-d],{e*,?f}}"] {
        let repeated = piece.repeat(32_768 / piece.chars().count());
        assert!(is_compilable(&repeated), "{piece}");
        assert!(matches_glob(&repeated, "x").is_ok(), "{piece}");
    }
    let deep = format!("{}{{a/**/[a-z]*}}{}", "{b/,c?".repeat(81), "d*}".repeat(81));
    assert!(is_compilable(&deep));
    assert!(matches_glob(&deep, "b/").unwrap());
    assert!(!matches_glob(&deep, "z").unwrap());
    let plain = format!("{}a{}", "{".repeat(245), "}".repeat(245));
    assert!(is_compilable(&plain));
    assert!(matches_glob(&plain, "a").unwrap());
    for leaf in ["**/", "/**", "/**/", "[!a-z\u{e9}]", "\u{1d11e}", "*", "a**b"] {
        let nested = format!("{}{{{leaf}}}{}", "{".repeat(243), "}".repeat(243));
        assert!(is_compilable(&nested), "{leaf}");
        assert!(matches_glob(&nested, "x").is_ok(), "{leaf}");
    }
    let classes = "[!a-z]".repeat(5_461);
    assert!(is_compilable(&classes));
    assert!(!matches_glob(&classes, "a").unwrap());
}

#[test]
fn nesting_counts_what_the_regex_engine_sees() {
    let nested = |open: &str, levels: usize, close: &str| {
        is_compilable(&format!("{}a{}", open.repeat(levels), close.repeat(levels)))
    };
    assert!(nested("{", 245, "}"));
    assert!(!nested("{", 246, "}"));
    assert!(nested("{b", 122, "}"));
    assert!(!nested("{b", 123, "}"));
    assert!(nested("{b,", 122, "}"));
    assert!(!nested("{b,", 123, "}"));
    assert!(nested("{b,c", 81, "}"));
    assert!(!nested("{b,c", 82, "}"));
    assert!(is_compilable(&"\\{".repeat(300)));
    assert!(is_compilable(&"[{]".repeat(300)));
    assert!(!nested("{[}]", 123, "}"));
    assert!(!nested("{[]}]", 123, "}"));
    assert!(!nested("{[!]}]", 123, "}"));
    assert!(!nested("{\\}", 123, "}"));
}

#[test]
fn deeply_nested_patterns_are_globs() {
    let deeper = format!("{}a{}", "{".repeat(81), "}".repeat(81));
    assert_eq!(check_glob(&deeper), None);
    assert!(matches_glob(&deeper, "a").unwrap());
    assert_eq!(check_pattern(&Some(deeper), "no: "), Ok(()));
    let deepest = format!("{}a{}", "{a,b".repeat(500), "}".repeat(500));
    assert_eq!(check_glob(&deepest), None);
    assert!(!is_compilable(&deepest));
    assert_eq!(check_glob("{a,b}"), None);
    assert!(check_glob("{a").unwrap().contains("alternate"));
    assert_eq!(check_pattern(&Some("{a".to_owned()), "no: "), Err("no: {a".to_owned()));
}

#[test]
fn groups_add_up_to_what_was_grouped() {
    let keys = ["a", "b", "a", "c"].map(str::to_owned).to_vec();
    let groups = grouped(keys, vec![1, 20, 300, 4_000]);
    assert_eq!(groups.iter().map(|group| group.artifact_count).sum::<usize>(), 4);
    assert_eq!(groups.iter().map(|group| group.bytes).sum::<u64>(), 4_321);
    assert_eq!(groups.len(), 3);
}

#[test]
fn scans_cache_resources_with_shared_repository_safety_boundary() {
    let excluded = vec!["example-user/project-gamma".to_owned()];
    let repositories = repositories_to_scan(&three_repositories(), &excluded);
    let mut requests: u64 = 2;
    let mut scans = Vec::new();
    for repository in &repositories {
        requests += 1;
        let result = match repository.name.as_str() {
            "project-alpha" => Ok(vec![
                cache(11, repository, "linux-build", 300),
                cache(10, repository, "linux-build", 200),
            ]),
            "project-beta" => Err(ProviderError::Transport("fixture failure".to_owned())),
            "project-gamma" => Ok(vec![cache(30, repository, "docs", 100)]),
            _ => Ok(Vec::new()),
        };
        scans.push(RepositoryScan { repository: repository.full_name.clone(), result });
    }
    let snapshot = CacheInventoryService::scan(
        example_account(),
        ScanScope::AllAccessible,
        repositories,
        &scans,
        stamp(Utc::now()),
        3,
        ProviderTelemetry { api_requests: requests, rate_limit_remaining: Some(4_999) },
    );

    assert_eq!(snapshot.repositories.len(), 2);
    assert_eq!(snapshot.cache_count(), 2);
    assert_eq!(snapshot.total_bytes(), 500);
    assert_eq!(snapshot.caches[0].id, 11);
    assert_eq!(snapshot.caches[1].id, 10);
    assert_eq!(snapshot.issues.len(), 1);
    assert_eq!(snapshot.issues[0].repository.as_deref(), Some("example-user/project-beta"));
    assert_eq!(snapshot.telemetry.api_requests, 4);
}

#[test]
fn tracks_cache_age_and_last_access_independently() {
    let repository = repository(1, "example-user/project-alpha");
    let cache = ActionsCache {
        id: 1,
        repository: RepositoryRef::of(&repository),
        key: "build".to_owned(),
        version: "v1".to_owned(),
        git_ref: "refs/heads/main".to_owned(),
        created_at: on(1, 1, 0),
        last_accessed_at: on(1, 9, 0),
        size_in_bytes: 100,
    };
    let now = on(1, 11, 0);

    assert!(cache.older_than(now, 9 * 86_400));
    assert!(!cache.unused_for(now, 3 * 86_400));
}

#[test]
fn aggregates_cache_storage_without_artifact_semantics() {
    let repo_a = repository(1, "example-user/project-alpha");
    let repo_b = repository(2, "example-user/project-beta");
    let snapshot = CacheInventorySnapshot {
        account: example_account(),
        scope: ScanScope::AllAccessible,
        scanned_at: stamp(Utc::now()),
        elapsed_ms: 1,
        repositories: vec![repo_a.clone(), repo_b.clone()],
        caches: vec![
            cache(1, &repo_a, "build", 300),
            cache(2, &repo_a, "build", 200),
            cache(3, &repo_b, "docs", 100),
        ],
        issues: Vec::new(),
        telemetry: ProviderTelemetry::default(),
    };

    let buckets = snapshot.aggregate_by_repository();
    assert_eq!(buckets[0].key, "example-user/project-alpha");
    assert_eq!(buckets[0].cache_count, 2);
    assert_eq!(buckets[0].bytes, 500);

    let filtered = snapshot
        .caches
        .iter()
        .filter(|cache| cache.key == "build")
        .cloned()
        .collect::<Vec<_>>();
    let key_buckets = aggregate_caches(&filtered, CacheAggregationKey::Key);
    assert_eq!(key_buckets.len(), 1);
    assert_eq!(key_buckets[0].key, "build");
    assert_eq!(key_buckets[0].cache_count, 2);
    assert_eq!(key_buckets[0].bytes, 500);
    assert_eq!(snapshot.aggregate_by_key().len(), 2);
    assert_eq!(snapshot.aggregate_by_ref()[0].bytes, 600);
}

#[test]
fn scans_workflow_runs_with_shared_repository_safety_boundary() {
    let excluded = vec!["example-user/project-gamma".to_owned()];
    let repositories = repositories_to_scan(&three_repositories(), &excluded);
    let mut requests: u64 = 2;
    let mut scans = Vec::new();
    for repository in &repositories {
        requests += 1;
        let result = match repository.name.as_str() {
            "project-alpha" => Ok(vec![
                run(2, repository, "completed"),
                run(1, repository, "in_progress"),
            ]),
            "project-beta" => Err(ProviderError::Transport("fixture failure".to_owned())),
            "project-gamma" => Ok(vec![run(3, repository, "completed")]),
            _ => Ok(Vec::new()),
        };
        scans.push(RepositoryScan { repository: repository.full_name.clone(), result });
    }
    let snapshot = WorkflowRunInventoryService::scan(
        example_account(),
        ScanScope::AllAccessible,
        repositories,
        &scans,
        stamp(Utc::now()),
        3,
        ProviderTelemetry { api_requests: requests, rate_limit_remaining: Some(4_999) },
    );

    assert_eq!(snapshot.repositories.len(), 2);
    assert_eq!(snapshot.run_count(), 2);
    assert_eq!(snapshot.completed_count(), 1);
    assert_eq!(snapshot.runs[0].id, 2);
    assert_eq!(snapshot.runs[1].id, 1);
    assert_eq!(snapshot.issues.len(), 1);
    assert_eq!(snapshot.issues[0].repository.as_deref(), Some("example-user/project-beta"));
    assert_eq!(snapshot.telemetry.api_requests, 4);
}

#[test]
fn tracks_run_age_and_completion_without_guessing_conclusions() {
    let repository = repository(1, "example-user/project-alpha");
    let completed = run(2, &repository, "completed");
    let active = run(1, &repository, "in_progress");
    let now = on(1, 12, 0);

    assert!(completed.older_than(now, 9 * 86_400));
    assert!(completed.is_completed());
    assert!(!active.is_completed());
}

#[test]
fn issues_name_the_failed_repositories() {
    let scans = vec![
        RepositoryScan::<Artifact> {
            repository: "example-user/project-beta".to_owned(),
            result: Err(ProviderError::NotFound("gone".to_owned())),
        },
        RepositoryScan {
            repository: "example-user/project-alpha".to_owned(),
            result: Ok(vec![artifact(1, "example-user/project-alpha", "a", 1)]),
        },
    ];
    let snapshot = InventoryService::scan(
        example_account(),
        ScanScope::AllAccessible,
        Vec::new(),
        &scans,
        on(1, 1, 0),
        u128::MAX,
        ProviderTelemetry::default(),
    );
    assert_eq!(snapshot.issues.len(), 1);
    assert_eq!(
        snapshot.issues[0].message,
        ProviderError::NotFound("gone".to_owned()).message()
    );
    assert_eq!(snapshot.artifacts.len(), 1);
    assert_eq!(snapshot.elapsed_ms, u64::MAX);
}

#[test]
fn repositories_are_scanned_in_order_of_their_names() {
    let shuffled = vec![
        repository(3, "example-user/project-gamma"),
        repository(1, "example-user/project-alpha"),
        repository(2, "example-user/project-beta"),
    ];
    let chosen = repositories_to_scan(&shuffled, &vec!["EXAMPLE-USER/project-beta".to_owned()]);
    let names = chosen.iter().map(|repository| repository.id).collect::<Vec<_>>();
    assert_eq!(names, vec![1, 3]);
    assert_eq!(scan_concurrency(0), 1);
    assert_eq!(scan_concurrency(8), 8);
}

#[test]
fn resources_are_found_by_identity() {
    let repositories = three_repositories();
    let wanted = RepositoryRef { id: 2, full_name: "example-user/project-beta".to_owned() };
    assert_eq!(find_repository(&repositories, &wanted), Some(1));
    let caches = vec![
        cache(4, &repositories[0], "k", 1),
        cache(5, &repositories[0], "k", 1),
    ];
    assert_eq!(find_cache(&caches, 5), Some(1));
    assert_eq!(find_cache(&caches, 6), None);
}

#[test]
fn a_purge_identity_is_more_than_an_id() {
    let repository = repository(1, "example-user/project-alpha");
    let planned = run(2, &repository, "completed");
    let mut other = planned.clone();
    assert!(planned.has_same_purge_identity(&other));
    other.head_sha = "different".to_owned();
    assert!(!planned.has_same_purge_identity(&other));
}

#[test]
fn an_empty_snapshot_of_runs_counts_none() {
    let snapshot = WorkflowRunInventorySnapshot {
        account: example_account(),
        scope: ScanScope::AllAccessible,
        scanned_at: on(1, 1, 0),
        elapsed_ms: 0,
        repositories: Vec::new(),
        runs: Vec::new(),
        issues: Vec::new(),
        telemetry: ProviderTelemetry::default(),
    };
    assert_eq!(snapshot.run_count(), 0);
    assert_eq!(snapshot.completed_count(), 0);
}

#[test]
fn provider_errors_speak_plainly() {
    assert_eq!(
        ProviderError::Authentication("x".to_owned()).message(),
        "authentication failed: x"
    );
    assert!(ProviderError::HttpStatus { status: 500, message: "broken".to_owned() }
        .message()
        .contains("500"));
    assert!(ProviderError::RateLimited { retry_after_seconds: None, message: "slow".to_owned() }
        .message()
        .contains("rate limit"));
}

#[test]
fn sorting_orders_and_keeps_everything() {
    assert_eq!(sort(vec![3, 1, 2, 1], &Ascending), vec![1, 1, 2, 3]);
    assert_eq!(sort_distinct(vec![3, 1, 2, 1], &Ascending), vec![1, 2, 3]);
    let mut words = vec!["b", "é", "a", "ab", "Z", "", "日本", "\u{10000}", "\u{ffff}"]
        .into_iter()
        .map(str::to_owned)
        .collect::<Vec<_>>();
    let sorted = sort(words.clone(), &Alphabetical);
    words.sort();
    assert_eq!(sorted, words);
}

#[test]
fn the_first_and_last_instants_are_those_of_the_calendar() {
    let first = DateTime::<Utc>::MIN_UTC;
    let last = DateTime::<Utc>::MAX_UTC;
    assert_eq!(first.timestamp(), FIRST_SECOND);
    assert_eq!(last.timestamp(), LAST_SECOND);
    assert!(Timestamp::from_unix(FIRST_SECOND, 0).is_some());
    assert!(Timestamp::from_unix(LAST_SECOND, 999_999_999).is_some());
    assert!(Timestamp::from_unix(FIRST_SECOND - 1, 0).is_none());
    assert!(Timestamp::from_unix(LAST_SECOND + 1, 0).is_none());
    assert!(DateTime::from_timestamp(FIRST_SECOND - 1, 0).is_none());
    assert!(DateTime::from_timestamp(LAST_SECOND + 1, 0).is_none());
}

#[test]
fn a_second_has_a_thousand_million_nanoseconds() {
    assert!(Timestamp::from_unix(0, 999_999_999).is_some());
    assert!(Timestamp::from_unix(0, 1_000_000_000).is_none());
    for (seconds, nanos) in [
        (59, 1_000_000_000),
        (59, 1_999_999_999),
        (59, 2_000_000_000),
        (58, 1_000_000_000),
        (-1, 1_500_000_000),
        (-2, 1_500_000_000),
        (LAST_SECOND, 1_999_999_999),
    ] {
        assert_eq!(
            Timestamp::from_unix(seconds, nanos).is_some(),
            DateTime::from_timestamp(seconds, nanos).is_some(),
            "{seconds} {nanos}"
        );
    }
}

#[test]
fn leap_seconds_come_after_the_second_before_them() {
    let leap = "2016-12-31T23:59:60.25Z".parse::<DateTime<Utc>>().unwrap();
    let before = "2016-12-31T23:59:59.5Z".parse::<DateTime<Utc>>().unwrap();
    let after = "2017-01-01T00:00:00Z".parse::<DateTime<Utc>>().unwrap();
    assert_eq!(stamp(leap).nanos(), 1_250_000_000);
    assert!(stamp(before).is_before(&stamp(leap)));
    assert!(stamp(leap).is_before(&stamp(after)));
    assert!(stamp(leap).rising() > stamp(before).rising());
    assert!(stamp(leap).falling() > stamp(after).falling());
    assert_eq!(stamp(leap).describe(), "2016-12-31 23:59:60Z");
    assert_eq!(stamp(leap).display(), leap.to_string());
}

#[test]
fn instants_shift_as_the_calendar_shifts_them() {
    let starts = [
        Utc.with_ymd_and_hms(2026, 9, 25, 12, 0, 0).unwrap(),
        DateTime::from_timestamp(59, 500_000_000).unwrap(),
        DateTime::from_timestamp(59, 1_000_000_000).unwrap(),
        DateTime::from_timestamp(86_399, 1_500_000_000).unwrap(),
        DateTime::from_timestamp(-1, 1_999_999_999).unwrap(),
        DateTime::from_timestamp(LAST_SECOND, 1_500_000_000).unwrap(),
        DateTime::from_timestamp(-60, 999_999_999).unwrap(),
        DateTime::from_timestamp(LAST_SECOND, 0).unwrap(),
        DateTime::from_timestamp(FIRST_SECOND, 0).unwrap(),
    ];
    let spans: [u128; 9] = [
        0,
        1,
        499_999_999,
        500_000_000,
        999_999_999,
        1_000_000_000,
        86_400_000_000_000,
        3_600_000_000_007,
        400_000_000_000_000_000_000,
    ];
    for start in starts {
        for span in spans {
            let expected = Duration::from_std(std::time::Duration::new(
                (span / 1_000_000_000) as u64,
                (span % 1_000_000_000) as u32,
            ))
            .ok()
            .and_then(|span| start.checked_add_signed(span));
            assert_eq!(stamp(start).later_by(span), expected.map(stamp), "{start} {span}");
        }
    }
}

#[test]
fn spans_that_no_clock_holds_lead_nowhere() {
    let start = on(1, 1, 0);
    assert_eq!(start.later_by(LONGEST_DURATION), None);
    assert_eq!(start.later_by(LONGEST_SPAN), None);
    let longest = Duration::MAX.to_std().unwrap();
    assert_eq!(longest.as_nanos(), LONGEST_SPAN);
}

#[test]
fn seconds_between_instants_are_whole_and_never_negative() {
    let early = Utc.with_ymd_and_hms(2026, 1, 1, 0, 0, 0).unwrap();
    let pairs = [
        (early, early + Duration::milliseconds(1_999)),
        (early + Duration::milliseconds(999), early + Duration::milliseconds(1_998)),
        (early, early),
        (
            DateTime::from_timestamp(-60, 500_000_000).unwrap(),
            DateTime::from_timestamp(60, 400_000_000).unwrap(),
        ),
        (
            DateTime::from_timestamp(59, 1_500_000_000).unwrap(),
            DateTime::from_timestamp(60, 400_000_000).unwrap(),
        ),
        (
            DateTime::from_timestamp(59, 1_500_000_000).unwrap(),
            DateTime::from_timestamp(86_400, 0).unwrap(),
        ),
        (
            DateTime::from_timestamp(10, 0).unwrap(),
            DateTime::from_timestamp(59, 1_500_000_000).unwrap(),
        ),
        (
            DateTime::from_timestamp(-30, 0).unwrap(),
            DateTime::from_timestamp(119, 1_999_999_999).unwrap(),
        ),
        (
            DateTime::from_timestamp(59, 1_500_000_000).unwrap(),
            DateTime::from_timestamp(59, 1_600_000_000).unwrap(),
        ),
    ];
    for (from, to) in pairs {
        let elapsed = to.signed_duration_since(from).to_std().unwrap().as_nanos();
        assert_eq!(stamp(to).elapsed_since(&stamp(from)), elapsed as i128, "{from} {to}");
        let expected = to.signed_duration_since(from).num_seconds().max(0) as u64;
        assert_eq!(stamp(to).seconds_since(&stamp(from)), expected, "{from} {to}");
        let back = from.signed_duration_since(to).num_seconds().max(0) as u64;
        assert_eq!(stamp(from).seconds_since(&stamp(to)), back, "{to} {from}");
        assert_eq!(stamp(from).is_before(&stamp(to)), from < to);
    }
}

#[test]
fn instants_are_written_as_the_calendar_writes_them() {
    for at in [
        Utc.with_ymd_and_hms(2026, 9, 25, 12, 0, 0).unwrap(),
        DateTime::from_timestamp(1_700_000_000, 120_000_000).unwrap(),
        DateTime::from_timestamp(-1, 5).unwrap(),
    ] {
        assert_eq!(stamp(at).describe(), at.format("%Y-%m-%d %H:%M:%SZ").to_string());
        assert_eq!(stamp(at).display(), at.to_string());
        assert_eq!(stamp(at).seconds(), at.timestamp());
        assert_eq!(stamp(at).nanos(), at.timestamp_subsec_nanos());
    }
    assert_eq!(on(9, 25, 12).year_and_month(), (2026, 9));
}

#[test]
fn months_begin_and_end_with_their_days() {
    for (date, expected) in [
        ("1970-01-01T00:00:00Z", (1970, 1)),
        ("1969-12-31T23:59:59Z", (1969, 12)),
        ("2024-02-29T23:59:59Z", (2024, 2)),
        ("2024-03-01T00:00:00Z", (2024, 3)),
        ("1900-02-28T23:59:59Z", (1900, 2)),
        ("1900-03-01T00:00:00Z", (1900, 3)),
        ("2000-02-29T00:00:00Z", (2000, 2)),
        ("2026-12-31T23:59:60Z", (2026, 12)),
    ] {
        let at = date.parse::<DateTime<Utc>>().unwrap();
        assert_eq!(stamp(at).year_and_month(), expected, "{date}");
    }
    assert_eq!(Timestamp::from_unix(FIRST_SECOND, 0).unwrap().year_and_month(), (-262_143, 1));
    assert_eq!(Timestamp::from_unix(LAST_SECOND, 0).unwrap().year_and_month(), (262_142, 12));
}
