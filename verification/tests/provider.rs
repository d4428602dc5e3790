//! Talking to GitHub: credentials, addresses, pages, retries and pacing.
use gh_housekeeper::github::{
    check_looked_up_repository, check_run_repository, github_error_message, header_u64,
    is_rate_limited, keep_owned, normalize_parsed_url, path_of_artifact, path_of_cache,
    path_of_repository, path_of_run, path_of_run_logs, rate_limit_delay, validate_full_name,
    visibility_of, CacheSearch, CacheSearchStep, GithubClient, GithubRepository, Listing, Pages, RateLimitHeaders, RequestPolicy, RequestStep,
    SecretToken, MUTATION_PACING,
};
use gh_housekeeper::model::{ActionsCache, ProviderError, Repository, RepositoryRef, Visibility};
use gh_housekeeper::time::Timestamp;

fn token() -> SecretToken {
    SecretToken::discover(Some("fictional-token"), None).unwrap()
}

fn no_headers() -> RateLimitHeaders {
    RateLimitHeaders { remaining: None, reset: None, retry_after: None }
}

#[test]
fn token_debug_output_is_redacted() {
    let token = SecretToken::discover(Some("fictional-secret-token"), None).unwrap();
    let debug = token.describe();
    assert_eq!(debug, "SecretToken(<redacted>)");
    assert!(!debug.contains("fictional-secret-token"));
}

#[test]
fn credentials_come_from_the_tool_before_the_environment() {
    let found = SecretToken::discover(Some(" cli \n"), Some("env")).unwrap();
    assert_eq!(found.expose(), "cli");
    let fallback = SecretToken::discover(Some("  "), Some(" env ")).unwrap();
    assert_eq!(fallback.expose(), "env");
    assert!(matches!(
        SecretToken::discover(None, Some("")),
        Err(ProviderError::Authentication(_))
    ));
}

#[test]
fn validates_repository_full_names_without_repo_specific_knowledge() {
    assert!(validate_full_name("example-user/project-alpha").is_ok());
    assert!(validate_full_name("project-alpha").is_err());
}

#[test]
fn names_need_an_owner_and_a_repository() {
    for name in ["", "/", "a/", "/b", "ab"] {
        assert!(validate_full_name(name).is_err(), "{name}");
    }
    for name in ["a/b", "a/b/c"] {
        assert!(validate_full_name(name).is_ok(), "{name}");
    }
}

fn message_in(body: &str) -> Option<String> {
    let value: serde_json::Value = serde_json::from_str(body).ok()?;
    value.get("message")?.as_str().map(str::to_owned)
}

#[test]
fn extracts_github_error_message_without_echoing_arbitrary_json() {
    let body = r#"{"message":"rate limit exceeded","extra":"ignored"}"#;
    let message = github_error_message(message_in(body).as_deref(), body);
    assert_eq!(message, "rate limit exceeded");
}

#[test]
fn long_errors_are_cut_off() {
    let body = "é".repeat(600);
    assert_eq!(github_error_message(None, &body), "é".repeat(512));
    assert_eq!(github_error_message(None, "short"), "short");
}

#[test]
fn mutation_slots_are_paced_without_delaying_reads() {
    let mut client = GithubClient::with_base_url(token(), "http://127.0.0.1:9").unwrap();

    assert_eq!(client.reserve_mutation_delay(false, 5_000), 0);
    assert_eq!(client.reserve_mutation_delay(true, 6_000), 0);

    let second_delete = client.reserve_mutation_delay(true, 7_000);
    assert!(
        second_delete >= 1_900_000_000,
        "second mutation should be reserved about two seconds later, got {second_delete:?}"
    );
    let third_delete = client.reserve_mutation_delay(true, 7_000);
    assert_eq!(third_delete, second_delete + MUTATION_PACING);
    assert_eq!(client.reserve_mutation_delay(false, 7_000), 0);
}

#[test]
fn distinguishes_plain_forbidden_from_rate_limit_responses() {
    let headers = no_headers();
    assert!(!is_rate_limited(
        403,
        &headers,
        "Resource not accessible by integration"
    ));
    assert!(is_rate_limited(
        403,
        &headers,
        "You have exceeded a secondary rate limit"
    ));
    assert!(is_rate_limited(429, &headers, ""));
}

#[test]
fn headers_tell_of_limits_too() {
    let mut headers = no_headers();
    headers.remaining = Some("0".to_owned());
    assert!(is_rate_limited(403, &headers, ""));
    assert!(is_rate_limited(404, &headers, ""));
    headers.remaining = Some("5".to_owned());
    assert!(!is_rate_limited(403, &headers, ""));
    headers.retry_after = Some("30".to_owned());
    assert!(is_rate_limited(403, &headers, ""));
    assert_eq!(header_u64(&headers.retry_after), Some(30));
    assert_eq!(header_u64(&Some("soon".to_owned())), None);
    assert_eq!(header_u64(&None), None);
}

#[test]
fn delays_follow_the_headers() {
    let mut headers = no_headers();
    assert_eq!(rate_limit_delay(&headers, 0, Some(1_000)), Some(60));
    assert_eq!(rate_limit_delay(&headers, 1, Some(1_000)), Some(120));
    assert_eq!(rate_limit_delay(&headers, 3, Some(1_000)), Some(300));
    headers.remaining = Some("0".to_owned());
    assert_eq!(rate_limit_delay(&headers, 0, Some(1_000)), None);
    headers.reset = Some("1060".to_owned());
    assert_eq!(rate_limit_delay(&headers, 0, Some(1_000)), Some(60));
    assert_eq!(rate_limit_delay(&headers, 0, Some(2_000)), Some(1));
    assert_eq!(rate_limit_delay(&headers, 0, None), None);
    headers.retry_after = Some("7".to_owned());
    assert_eq!(rate_limit_delay(&headers, 0, None), Some(7));
}

#[test]
fn addresses_are_written_as_the_standard_has_them() {
    assert_eq!(
        GithubClient::normalized_api_url(None).unwrap(),
        "https://api.github.com"
    );
    assert_eq!(
        GithubClient::normalized_api_url(Some("HTTPS://Example.COM:443/api/v3/")).unwrap(),
        "https://example.com/api/v3"
    );
    assert!(matches!(
        GithubClient::normalized_api_url(Some("not an address")),
        Err(ProviderError::InvalidResponse(_))
    ));
    assert_eq!(
        normalize_parsed_url(Ok("https://example.com///".to_owned())).unwrap(),
        "https://example.com"
    );
    let client = GithubClient::new(token()).unwrap();
    assert_eq!(client.provider_instance(), "https://api.github.com");
    assert_eq!(client.url("/user"), "https://api.github.com/user");
    assert_eq!(client.token().expose(), "fictional-token");
}

#[test]
fn lists_caches_with_pagination_and_maps_metadata() {
    let full_name = "example-user/project-alpha".to_owned();
    let mut pages = Pages::of(Listing::Caches { full_name });
    let mut requests = vec![pages.path()];
    assert!(pages.received(1, 2));
    requests.push(pages.path());
    assert!(!pages.received(1, 2));
    assert_eq!(
        requests,
        vec![
            "/repos/example-user/project-alpha/actions/caches?per_page=100&page=1",
            "/repos/example-user/project-alpha/actions/caches?per_page=100&page=2",
        ]
    );
}

#[test]
fn lists_workflow_runs_with_pagination_and_maps_metadata() {
    let full_name = "example-user/project-alpha".to_owned();
    let mut pages = Pages::of(Listing::WorkflowRuns { full_name });
    let mut requests = vec![pages.path()];
    assert!(pages.received(1, 2));
    requests.push(pages.path());
    assert!(!pages.received(1, 2));
    assert_eq!(
        requests,
        vec![
            "/repos/example-user/project-alpha/actions/runs?per_page=100&page=1",
            "/repos/example-user/project-alpha/actions/runs?per_page=100&page=2",
        ]
    );
}

#[test]
fn a_list_ends_with_an_empty_page() {
    let mut pages = Pages::of(Listing::Artifacts { full_name: "a/b".to_owned() });
    assert!(!pages.received(0, 500));
    let mut repositories = Pages::of(Listing::Repositories);
    assert!(repositories.received(100, 0));
    assert!(!repositories.received(99, 0));
}

#[test]
fn deletes_exact_actions_cache_id_through_cache_endpoint_only() {
    let path = path_of_cache("example-user/project-alpha", 4242);
    assert_eq!(path, "/repos/example-user/project-alpha/actions/caches/4242");
    assert!(!path.contains("/releases"));
}

#[test]
fn resolves_exact_run_and_snapshots_its_artifacts_without_mutation() {
    let full_name = "example-user/project-alpha".to_owned();
    assert_eq!(
        path_of_run(&full_name, 7001),
        "/repos/example-user/project-alpha/actions/runs/7001"
    );
    assert_eq!(
        Pages::of(Listing::RunArtifacts { full_name, run_id: 7001 }).path(),
        "/repos/example-user/project-alpha/actions/runs/7001/artifacts?per_page=100&page=1"
    );
}

#[test]
fn rejects_a_run_returned_with_another_repository_identity() {
    let asked = RepositoryRef { id: 1, full_name: "example-user/project-alpha".to_owned() };
    let remote = RepositoryRef { id: 2, full_name: "other/project".to_owned() };
    assert!(matches!(
        check_looked_up_repository(7001, &remote, &asked),
        Err(ProviderError::InvalidResponse(_))
    ));
    assert!(matches!(
        check_run_repository(7001, &remote, &asked),
        Err(ProviderError::InvalidResponse(_))
    ));
    assert_eq!(check_looked_up_repository(7001, &asked.clone(), &asked), Ok(()));
}

#[test]
fn deletes_run_logs_before_the_run_through_distinct_endpoints() {
    assert_eq!(
        path_of_run_logs("example-user/project-alpha", 7001),
        "/repos/example-user/project-alpha/actions/runs/7001/logs"
    );
    assert_eq!(
        path_of_run("example-user/project-alpha", 7001),
        "/repos/example-user/project-alpha/actions/runs/7001"
    );
    assert_eq!(
        path_of_artifact("example-user/project-alpha", 9),
        "/repos/example-user/project-alpha/actions/artifacts/9"
    );
    assert_eq!(
        path_of_repository("example-user/project-alpha"),
        "/repos/example-user/project-alpha"
    );
}

#[test]
fn reads_are_repeated_and_changes_are_not() {
    let mut read = RequestPolicy::new(true, false);
    let mut waits = Vec::new();
    let error = loop {
        match read.unanswered("connection reset") {
            RequestStep::Retry { seconds } => waits.push(seconds),
            RequestStep::Fail { error } => break error,
            other => panic!("unexpected step {other:?}"),
        }
    };
    assert_eq!(waits.len(), 3);
    assert!(matches!(error, ProviderError::Transport(_)));
    let mut change = RequestPolicy::new(false, false);
    assert!(matches!(
        change.unanswered("connection reset"),
        RequestStep::Fail { error: ProviderError::Transport(_) }
    ));
    let mut refused_change = RequestPolicy::new(false, false);
    assert!(matches!(
        refused_change.refused(503, &no_headers(), "busy", None),
        RequestStep::Fail { .. }
    ));
}

#[test]
fn refusals_become_errors_of_their_own() {
    let fail = |status: u16| {
        match RequestPolicy::new(false, false).refused(status, &no_headers(), "words", Some(0)) {
            RequestStep::Fail { error } => error,
            other => panic!("unexpected step {other:?}"),
        }
    };
    assert!(matches!(fail(401), ProviderError::Authentication(_)));
    assert!(matches!(fail(403), ProviderError::PermissionDenied(_)));
    assert!(matches!(fail(404), ProviderError::NotFound(_)));
    assert!(matches!(fail(429), ProviderError::RateLimited { .. }));
    assert!(matches!(fail(500), ProviderError::HttpStatus { status: 500, .. }));
}

#[test]
fn success_is_used_and_absence_told() {
    assert_eq!(RequestPolicy::new(true, false).accepted(200), Some(RequestStep::Use));
    assert_eq!(RequestPolicy::new(true, true).accepted(404), Some(RequestStep::Absent));
    assert_eq!(RequestPolicy::new(true, false).accepted(404), None);
}

#[test]
fn requests_are_counted() {
    let mut client = GithubClient::new(token()).unwrap();
    assert_eq!(client.telemetry().api_requests, 0);
    assert_eq!(client.telemetry().rate_limit_remaining, None);
    client.sent();
    client.sent();
    let mut headers = no_headers();
    headers.remaining = Some("4999".to_owned());
    client.capture_rate_limit(&headers);
    client.capture_rate_limit(&no_headers());
    assert_eq!(client.telemetry().api_requests, 2);
    assert_eq!(client.telemetry().rate_limit_remaining, Some(4_999));
}

#[test]
fn owners_are_told_apart_without_regard_to_case() {
    let repository = |owner: &str| Repository {
        id: 1,
        owner: owner.to_owned(),
        name: "r".to_owned(),
        full_name: format!("{owner}/r"),
        visibility: Visibility::Public,
        default_branch: "main".to_owned(),
        archived: false,
        fork: false,
    };
    let kept = keep_owned(vec![repository("Alice"), repository("bob")], "alice");
    assert_eq!(kept.len(), 1);
    assert_eq!(kept[0].owner, "Alice");
}

#[test]
fn visibility_falls_back_on_privacy() {
    assert_eq!(visibility_of(Some("public"), true), Visibility::Public);
    assert_eq!(visibility_of(Some("private"), false), Visibility::Private);
    assert_eq!(visibility_of(Some("internal"), false), Visibility::Internal);
    assert_eq!(visibility_of(None, true), Visibility::Private);
}

fn stored(id: u64, key: &str, repository: &RepositoryRef) -> ActionsCache {
    ActionsCache {
        id,
        repository: repository.clone(),
        key: key.to_owned(),
        version: "version".to_owned(),
        git_ref: "refs/heads/main".to_owned(),
        created_at: Timestamp::from_unix(0, 0).unwrap(),
        last_accessed_at: Timestamp::from_unix(0, 0).unwrap(),
        size_in_bytes: 1024,
    }
}

#[test]
fn finds_one_cache_by_exact_id_without_mutation() {
    let mut client = GithubClient::new(token()).unwrap();
    let repository =
        RepositoryRef { id: 1, full_name: "example-user/project-alpha".to_owned() };
    let pages = vec![
        vec![stored(505, "linux-build", &repository)],
        vec![stored(506, "linux-build-extra", &repository)],
    ];
    let mut search = CacheSearch::of(repository.full_name.clone(), 506);
    let mut requests = Vec::new();
    let mut found = None;
    for page in &pages {
        requests.push(search.path());
        client.sent();
        match search.received(page, 2) {
            CacheSearchStep::Found(cache) => {
                found = Some(cache);
                break;
            }
            CacheSearchStep::Absent => break,
            CacheSearchStep::NextPage => {}
        }
    }

    let cache = found.unwrap();
    assert_eq!(cache.id, 506);
    assert_eq!(cache.key, "linux-build-extra");
    assert_eq!(cache.repository, repository);
    assert_eq!(client.telemetry().api_requests, 2);
    assert_eq!(
        requests,
        vec![
            "/repos/example-user/project-alpha/actions/caches?per_page=100&page=1",
            "/repos/example-user/project-alpha/actions/caches?per_page=100&page=2",
        ]
    );
}

#[test]
fn a_search_ends_with_the_last_page() {
    let repository = RepositoryRef { id: 1, full_name: "a/b".to_owned() };
    let mut search = CacheSearch::of("a/b".to_owned(), 9);
    let page = vec![stored(1, "x", &repository), stored(2, "y", &repository)];
    assert_eq!(search.received(&page, 3), CacheSearchStep::NextPage);
    assert_eq!(search.received(&vec![stored(3, "z", &repository)], 3), CacheSearchStep::Absent);

    let mut empty = CacheSearch::of("a/b".to_owned(), 9);
    assert_eq!(empty.received(&vec![], 3), CacheSearchStep::Absent);
}

#[test]
fn a_described_repository_keeps_its_fields() {
    let described = GithubRepository {
        id: 7,
        owner: "example-user".to_owned(),
        name: "project-alpha".to_owned(),
        full_name: "example-user/project-alpha".to_owned(),
        private: true,
        visibility: None,
        default_branch: "main".to_owned(),
        archived: true,
        fork: false,
    };
    assert_eq!(
        described.into_repository(),
        Repository {
            id: 7,
            owner: "example-user".to_owned(),
            name: "project-alpha".to_owned(),
            full_name: "example-user/project-alpha".to_owned(),
            visibility: Visibility::Private,
            default_branch: "main".to_owned(),
            archived: true,
            fork: false,
        }
    );
}
