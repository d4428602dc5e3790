//! How GitHub's API is asked: addresses, pages, retries, pacing, and what its answers mean.
use crate::format::{parse_u64, parsed_number};
use crate::inventory::{find_cache, optional_text};
use crate::model::{
    ActionsCache, ActionsCacheView, ProviderError, ProviderErrorView, ProviderTelemetry, ProviderTelemetryView, Repository, RepositoryRef,
    RepositoryRefView, RepositoryView, Visibility,
};
use crate::text::{
    blank, case_is_disregarded, chars_of, contains, contains_text, decimal, eq_ignore_ascii_case, equal_but_for_case,
    join2, join3, join4, join5, join6, join7, lowered, number, occurs_at, same_ignoring_case, same_text, text_of,
    to_ascii_lowercase, trim, trimmed, trimming_takes_white_space_from_both_ends,
};
use crate::value::{add_to, nothing, Value};
use vstd::prelude::*;

verus! {

pub const GITHUB_API_VERSION: &'static str = "2026-03-10";

pub const DEFAULT_API_URL: &'static str = "https://api.github.com";

/// How many items a page holds.
pub const PER_PAGE: usize = 100;

/// How far apart changes are made, in nanoseconds.
pub const MUTATION_PACING: u128 = 2_000_000_000;

/// The number of requests left that stands for an unknown one.
pub const RATE_UNKNOWN: u64 = 0xffff_ffff_ffff_ffff;

/// How often a request that changes nothing is tried.
pub const MAX_ATTEMPTS: u64 = 4;

/// A list that comes in pages.
#[derive(Clone, Debug, PartialEq, Eq)]
pub enum Listing {
    Repositories,
    Artifacts { full_name: String },
    Caches { full_name: String },
    WorkflowRuns { full_name: String },
    RunArtifacts { full_name: String, run_id: u64 },
}

/// The contents of [`Listing`].
#[verifier::ext_equal]
pub enum ListingView {
    Repositories,
    Artifacts { full_name: Seq<char> },
    Caches { full_name: Seq<char> },
    WorkflowRuns { full_name: Seq<char> },
    RunArtifacts { full_name: Seq<char>, run_id: u64 },
}

impl DeepView for Listing {
    type V = ListingView;

    open spec fn deep_view(&self) -> ListingView {
        match self {
            Listing::Repositories => ListingView::Repositories,
            Listing::Artifacts { full_name } => ListingView::Artifacts { full_name: full_name.deep_view() },
            Listing::Caches { full_name } => ListingView::Caches { full_name: full_name.deep_view() },
            Listing::WorkflowRuns { full_name } => ListingView::WorkflowRuns { full_name: full_name.deep_view() },
            Listing::RunArtifacts { full_name, run_id } => ListingView::RunArtifacts { full_name: full_name.deep_view(), run_id: *run_id },
        }
    }
}

/// What an answer says of the rate limit, as far as it says so.
#[derive(Clone, Debug, PartialEq, Eq)]
pub struct RateLimitHeaders {
    pub remaining: Option<String>,
    pub reset: Option<String>,
    pub retry_after: Option<String>,
}

/// The contents of [`RateLimitHeaders`].
#[verifier::ext_equal]
pub struct RateLimitHeadersView {
    pub remaining: Option<Seq<char>>,
    pub reset: Option<Seq<char>>,
    pub retry_after: Option<Seq<char>>,
}

impl DeepView for RateLimitHeaders {
    type V = RateLimitHeadersView;

    open spec fn deep_view(&self) -> RateLimitHeadersView {
        RateLimitHeadersView {
            remaining: self.remaining.deep_view(),
            reset: self.reset.deep_view(),
            retry_after: self.retry_after.deep_view(),
        }
    }
}

// ---------------------------------------------------------------------------------------------
// The token and the address.
// ---------------------------------------------------------------------------------------------

/// A credential, which is never shown.
pub struct SecretToken {
    secret: String,
}

impl DeepView for SecretToken {
    type V = Seq<char>;

    closed spec fn deep_view(&self) -> Seq<char> {
        self.secret@
    }
}

/// What is said where there is no credential.
pub open spec fn no_credential() -> ProviderErrorView {
    ProviderErrorView::Authentication(
        "no GitHub credential found; authenticate with GitHub CLI or set GITHUB_TOKEN"@,
    )
}

/// A credential in a text, if there is one.
pub open spec fn credential_in(source: Option<Seq<char>>) -> Option<Seq<char>> {
    match source {
        Some(text) => if trimmed(text).len() > 0 {
            Some(trimmed(text))
        } else {
            None
        },
        None => None,
    }
}

/// The first credential that the GitHub CLI or, failing that, the environment gives.
pub open spec fn credential(cli: Option<Seq<char>>, environment: Option<Seq<char>>) -> Option<Seq<char>> {
    match credential_in(cli) {
        Some(token) => Some(token),
        None => credential_in(environment),
    }
}

fn find_credential(source: Option<&str>) -> (result: Option<String>)
    ensures
        result.deep_view() == credential_in(optional_text(source)),
{
    match source {
        Some(text) => {
            let token = trim(text);
            if chars_of(token.as_str()).len() > 0 {
                Some(token)
            } else {
                None
            }
        },
        None => None,
    }
}

impl SecretToken {
    /// Takes the credential that the GitHub CLI printed or, failing that, that of the
    /// environment.
    pub fn discover(cli: Option<&str>, environment: Option<&str>) -> (result: Result<Self, ProviderError>)
        ensures
            match credential(optional_text(cli), optional_text(environment)) {
                Some(token) => result is Ok && result->Ok_0.deep_view() == token,
                None => result is Err && result->Err_0.deep_view() == no_credential(),
            },
    {
        if let Some(secret) = find_credential(cli) {
            return Ok(SecretToken { secret });
        }
        if let Some(secret) = find_credential(environment) {
            return Ok(SecretToken { secret });
        }
        Err(
            ProviderError::Authentication(
                "no GitHub credential found; authenticate with GitHub CLI or set GITHUB_TOKEN".to_string(),
            ),
        )
    }

    /// The credential itself.
    pub fn expose(&self) -> (result: &str)
        ensures
            result@ == self.deep_view(),
    {
        self.secret.as_str()
    }

    /// The token as it may be shown, which is the same for every token.
    pub fn describe(&self) -> (result: &'static str)
        ensures
            result@ == "SecretToken(<redacted>)"@,
    {
        "SecretToken(<redacted>)"
    }
}

/// An address as the URL standard writes it, or why it is none.
pub uninterp spec fn standard_url(address: Seq<char>) -> Result<Seq<char>, Seq<char>>;

/// What a parsed address is, as plain values.
pub open spec fn parsed_view(parsed: Result<String, String>) -> Result<Seq<char>, Seq<char>> {
    match parsed {
        Ok(address) => Ok(address@),
        Err(detail) => Err(detail@),
    }
}

/// `reqwest::Url::parse`: the address as the parsed URL writes it, or its error's words.
#[verifier::external_body]
fn parse_url(address: &str) -> (result: Result<String, String>)
    ensures
        parsed_view(result) == standard_url(address@),
{
    match reqwest::Url::parse(address) {
        Ok(url) => Ok(url.to_string()),
        Err(error) => Err(error.to_string()),
    }
}

/// A text without the slashes at its end.
pub open spec fn without_end_slashes(s: Seq<char>) -> Seq<char>
    decreases s.len(),
{
    if s.len() > 0 && s.last() == '/' {
        without_end_slashes(s.drop_last())
    } else {
        s
    }
}

/// The address that a parsed one stands for, or why there is none.
pub open spec fn base_address(parsed: Result<Seq<char>, Seq<char>>) -> Result<Seq<char>, ProviderErrorView> {
    match parsed {
        Ok(address) => Ok(without_end_slashes(address)),
        Err(detail) => Err(ProviderErrorView::InvalidResponse("invalid API URL: "@ + detail)),
    }
}

pub open spec fn address_view(result: Result<String, ProviderError>) -> Result<Seq<char>, ProviderErrorView> {
    match result {
        Ok(address) => Ok(address@),
        Err(error) => Err(error.deep_view()),
    }
}

/// The address that a parsed one stands for: without slashes at its end.
pub fn normalize_parsed_url(parsed: Result<String, String>) -> (result: Result<String, ProviderError>)
    ensures
        address_view(result) == base_address(parsed_view(parsed)),
{
    let address = match parsed {
        Ok(address) => address,
        Err(detail) => {
            return Err(ProviderError::InvalidResponse(join2("invalid API URL: ", detail.as_str())));
        },
    };
    let chars = chars_of(address.as_str());
    let mut end: usize = chars.len();
    assert(address@.take(end as int) =~= address@);
    while end > 0 && chars[end - 1] == '/'
        invariant
            end <= chars.len(),
            chars@ == address@,
            without_end_slashes(address@.take(end as int)) == without_end_slashes(address@),
        decreases end,
    {
        assert(address@.take(end as int).drop_last() =~= address@.take(end - 1));
        end = end - 1;
    }
    assert(address@.subrange(0, end as int) =~= address@.take(end as int));
    Ok(text_of(&chars, 0, end))
}

/// A normalized address does not end in a slash.
pub proof fn normalized_addresses_end_without_a_slash(parsed: Seq<char>)
    ensures
        base_address(Ok(parsed)) matches Ok(address) && (address.len() > 0 ==> address.last() != '/'),
    decreases parsed.len(),
{
    if parsed.len() > 0 && parsed.last() == '/' {
        normalized_addresses_end_without_a_slash(parsed.drop_last());
    }
}

// ---------------------------------------------------------------------------------------------
// Paths and pages.
// ---------------------------------------------------------------------------------------------

/// Something on both sides of the first slash.
pub open spec fn owner_and_name(s: Seq<char>) -> bool {
    exists|k: int| 0 < k < s.len() - 1 && first_slash(s, k)
}

/// The first slash is the one at `k`.
pub open spec fn first_slash(s: Seq<char>, k: int) -> bool {
    s[k] == '/' && forall|i: int| 0 <= i < k ==> #[trigger] s[i] != '/'
}

/// Checks that a repository is named by its owner and its name.
pub fn validate_full_name(full_name: &str) -> (result: Result<(), ProviderError>)
    ensures
        result is Ok <==> owner_and_name(full_name@),
        result matches Err(error) ==> error.deep_view() == ProviderErrorView::InvalidResponse(
            "repository must be in owner/name form: "@ + full_name@,
        ),
{
    let x = chars_of(full_name);
    let mut i: usize = 0;
    while i < x.len() && x[i] != '/'
        invariant
            x@ == full_name@,
            i <= x.len(),
            forall|k: int| 0 <= k < i ==> #[trigger] full_name@[k] != '/',
        decreases x.len() - i,
    {
        i = i + 1;
    }
    if 0 < i && i < x.len() && i + 1 < x.len() {
        assert(first_slash(full_name@, i as int));
        return Ok(());
    }
    proof {
        if owner_and_name(full_name@) {
            let k = choose|k: int| 0 < k < full_name@.len() - 1 && first_slash(full_name@, k);
            assert(full_name@[k] == '/');
            if i < k {
                assert(full_name@[i as int] == '/');
            }
        }
    }
    Err(ProviderError::InvalidResponse(join2("repository must be in owner/name form: ", full_name)))
}

/// The path under which a repository is found.
pub open spec fn repository_path(full_name: Seq<char>) -> Seq<char> {
    "/repos/"@ + full_name
}

/// The path of an artifact.
pub open spec fn artifact_path(full_name: Seq<char>, id: u64) -> Seq<char> {
    "/repos/"@ + full_name + "/actions/artifacts/"@ + decimal(id as nat)
}

/// The path of a cache.
pub open spec fn cache_path(full_name: Seq<char>, id: u64) -> Seq<char> {
    "/repos/"@ + full_name + "/actions/caches/"@ + decimal(id as nat)
}

/// The path of a workflow run.
pub open spec fn run_path(full_name: Seq<char>, id: u64) -> Seq<char> {
    "/repos/"@ + full_name + "/actions/runs/"@ + decimal(id as nat)
}

/// The path of the logs of a workflow run.
pub open spec fn run_logs_path(full_name: Seq<char>, id: u64) -> Seq<char> {
    "/repos/"@ + full_name + "/actions/runs/"@ + decimal(id as nat) + "/logs"@
}

pub fn path_of_repository(full_name: &str) -> (result: String)
    ensures
        result@ == repository_path(full_name@),
{
    join2("/repos/", full_name)
}

pub fn path_of_artifact(full_name: &str, id: u64) -> (result: String)
    ensures
        result@ == artifact_path(full_name@, id),
{
    join4("/repos/", full_name, "/actions/artifacts/", number(id).as_str())
}

pub fn path_of_cache(full_name: &str, id: u64) -> (result: String)
    ensures
        result@ == cache_path(full_name@, id),
{
    join4("/repos/", full_name, "/actions/caches/", number(id).as_str())
}

pub fn path_of_run(full_name: &str, id: u64) -> (result: String)
    ensures
        result@ == run_path(full_name@, id),
{
    join4("/repos/", full_name, "/actions/runs/", number(id).as_str())
}

pub fn path_of_run_logs(full_name: &str, id: u64) -> (result: String)
    ensures
        result@ == run_logs_path(full_name@, id),
{
    join5("/repos/", full_name, "/actions/runs/", number(id).as_str(), "/logs")
}

impl ListingView {
    /// The path of a page.
    pub open spec fn path(self, page: nat) -> Seq<char> {
        let paging = "per_page="@ + decimal(PER_PAGE as nat) + "&page="@ + decimal(page);
        match self {
            ListingView::Repositories =>
                "/user/repos?visibility=all&affiliation=owner%2Ccollaborator%2Corganization_member&sort=full_name&direction=asc&"@
                + paging,
            ListingView::Artifacts { full_name } => "/repos/"@ + full_name + "/actions/artifacts?"@ + paging,
            ListingView::Caches { full_name } => "/repos/"@ + full_name + "/actions/caches?"@ + paging,
            ListingView::WorkflowRuns { full_name } => "/repos/"@ + full_name + "/actions/runs?"@ + paging,
            ListingView::RunArtifacts { full_name, run_id } => "/repos/"@ + full_name + "/actions/runs/"@ + decimal(
                run_id as nat,
            ) + "/artifacts?"@ + paging,
        }
    }

    /// Whether there is a page after one with `count` items, the first `seen` of `total`.
    pub open spec fn goes_on(self, count: nat, seen: u64, total: u64) -> bool {
        match self {
            ListingView::Repositories => count >= PER_PAGE,
            _ => count != 0 && seen < total,
        }
    }
}

/// The pages of a list, one after the other.
pub struct Pages {
    listing: Listing,
    page: usize,
    seen: u64,
}

/// The contents of [`Pages`].
#[verifier::ext_equal]
pub struct PagesView {
    pub listing: ListingView,
    pub page: usize,
    pub seen: u64,
}

impl DeepView for Pages {
    type V = PagesView;

    closed spec fn deep_view(&self) -> PagesView {
        PagesView { listing: self.listing.deep_view(), page: self.page, seen: self.seen }
    }
}

impl PagesView {
    /// How many items were seen with `count` more.
    pub open spec fn seen_with(self, count: nat) -> u64 {
        if self.seen + count <= u64::MAX {
            (self.seen + count) as u64
        } else {
            u64::MAX
        }
    }

    /// Whether there is another page.
    pub open spec fn goes_on(self, count: nat, total: u64) -> bool {
        self.listing.goes_on(count, self.seen_with(count), total)
    }
}

impl Pages {
    /// Before the first page.
    pub fn of(listing: Listing) -> (result: Self)
        ensures
            result.deep_view() == (PagesView { listing: listing.deep_view(), page: 1, seen: 0 }),
    {
        Pages { listing, page: 1, seen: 0 }
    }

    /// The path of the page that is next.
    pub fn path(&self) -> (result: String)
        ensures
            result@ == self.deep_view().listing.path(self.deep_view().page as nat),
    {
        let paging = join4(
            "per_page=",
            number(PER_PAGE as u64).as_str(),
            "&page=",
            number(self.page as u64).as_str(),
        );
        match &self.listing {
            Listing::Repositories => join2(
                "/user/repos?visibility=all&affiliation=owner%2Ccollaborator%2Corganization_member&sort=full_name&direction=asc&",
                paging.as_str(),
            ),
            Listing::Artifacts { full_name } => join4(
                "/repos/",
                full_name.as_str(),
                "/actions/artifacts?",
                paging.as_str(),
            ),
            Listing::Caches { full_name } => join4("/repos/", full_name.as_str(), "/actions/caches?", paging.as_str()),
            Listing::WorkflowRuns { full_name } => join4(
                "/repos/",
                full_name.as_str(),
                "/actions/runs?",
                paging.as_str(),
            ),
            Listing::RunArtifacts { full_name, run_id } => join6(
                "/repos/",
                full_name.as_str(),
                "/actions/runs/",
                number(*run_id).as_str(),
                "/artifacts?",
                paging.as_str(),
            ),
        }
    }

    /// Takes a page with `count` items, of a list with `total`, and tells whether there is
    /// another.
    pub fn received(&mut self, count: usize, total: u64) -> (result: bool)
        requires
            old(self).deep_view().page < usize::MAX,
        ensures
            result == old(self).deep_view().goes_on(count as nat, total),
            final(self).deep_view() == (PagesView {
                page: if result {
                    (old(self).deep_view().page + 1) as usize
                } else {
                    old(self).deep_view().page
                },
                seen: old(self).deep_view().seen_with(count as nat),
                ..old(self).deep_view()
            }),
    {
        self.seen = self.seen.saturating_add(count as u64);
        let more = match &self.listing {
            Listing::Repositories => count >= PER_PAGE,
            _ => count != 0 && self.seen < total,
        };
        if more {
            self.page = self.page + 1;
        }
        more
    }
}

/// A list ends: where it goes on, fewer items are left than before, of those that it says it
/// has.
pub proof fn a_list_ends(pages: PagesView, count: nat, total: u64)
    requires
        !(pages.listing is Repositories),
        pages.goes_on(count, total),
    ensures
        total - pages.seen_with(count) < total - pages.seen,
        total - pages.seen_with(count) > 0,
{
}

/// What a page says of a cache that is looked for.
#[derive(Clone, Debug, PartialEq, Eq)]
pub enum CacheSearchStep {
    Found(ActionsCache),
    Absent,
    NextPage,
}

/// The first cache with a number, if there is one.
pub open spec fn first_with_id(caches: Seq<ActionsCacheView>, id: u64) -> Option<ActionsCacheView>
    decreases caches.len(),
{
    if caches.len() == 0 {
        None
    } else {
        match first_with_id(caches.drop_last(), id) {
            Some(cache) => Some(cache),
            None => if caches.last().id == id {
                Some(caches.last())
            } else {
                None
            },
        }
    }
}

proof fn lemma_first_with_id(caches: Seq<ActionsCacheView>, id: u64)
    ensures
        match first_with_id(caches, id) {
            Some(cache) => exists|i: int|
                0 <= i < caches.len() && caches[i] == cache && cache.id == id && (forall|k: int|
                    0 <= k < i ==> (#[trigger] caches[k]).id != id),
            None => forall|k: int| 0 <= k < caches.len() ==> (#[trigger] caches[k]).id != id,
        },
    decreases caches.len(),
{
    if caches.len() > 0 {
        let rest = caches.drop_last();
        lemma_first_with_id(rest, id);
        assert(forall|k: int| 0 <= k < rest.len() ==> rest[k] == #[trigger] caches[k]);
        if first_with_id(rest, id) is None {
            assert forall|k: int| 0 <= k < rest.len() implies (#[trigger] caches[k]).id != id by {
                assert(rest[k].id != id);
            }
            assert(caches[caches.len() - 1] == caches.last());
        } else {
            let i = choose|i: int|
                0 <= i < rest.len() && rest[i] == first_with_id(rest, id)->0 && rest[i].id == id && (forall|k: int|
                    0 <= k < i ==> (#[trigger] rest[k]).id != id);
            assert forall|k: int| 0 <= k < i implies (#[trigger] caches[k]).id != id by {
                assert(rest[k].id != id);
            }
            assert(caches[i] == rest[i]);
        }
    }
}

/// Looks for a cache, page by page.
pub struct CacheSearch {
    pages: Pages,
    cache_id: u64,
}

/// The contents of [`CacheSearch`].
#[verifier::ext_equal]
pub struct CacheSearchView {
    pub pages: PagesView,
    pub cache_id: u64,
}

impl DeepView for CacheSearch {
    type V = CacheSearchView;

    closed spec fn deep_view(&self) -> CacheSearchView {
        CacheSearchView { pages: self.pages.deep_view(), cache_id: self.cache_id }
    }
}

impl CacheSearch {
    /// Before the first page.
    pub fn of(full_name: String, cache_id: u64) -> (result: Self)
        ensures
            result.deep_view() == (CacheSearchView {
                pages: PagesView { listing: ListingView::Caches { full_name: full_name@ }, page: 1, seen: 0 },
                cache_id,
            }),
    {
        CacheSearch { pages: Pages::of(Listing::Caches { full_name }), cache_id }
    }

    /// The path of the page that is next.
    pub fn path(&self) -> (result: String)
        ensures
            result@ == self.deep_view().pages.listing.path(self.deep_view().pages.page as nat),
    {
        self.pages.path()
    }

    /// Takes a page of a list with `total` caches.
    pub fn received(&mut self, caches: &Vec<ActionsCache>, total: u64) -> (result: CacheSearchStep)
        requires
            old(self).deep_view().pages.page < usize::MAX,
        ensures
            ({
                let before = old(self).deep_view();
                let count = caches.len() as nat;
                let goes_on = before.pages.goes_on(count, total);
                &&& match first_with_id(caches.deep_view(), before.cache_id) {
                    Some(cache) => result matches CacheSearchStep::Found(found) && found.deep_view() == cache,
                    None => if goes_on {
                        result is NextPage
                    } else {
                        result is Absent
                    },
                }
                &&& final(self).deep_view() == (CacheSearchView {
                    pages: PagesView {
                        page: if goes_on {
                            (before.pages.page + 1) as usize
                        } else {
                            before.pages.page
                        },
                        seen: before.pages.seen_with(count),
                        ..before.pages
                    },
                    ..before
                })
            }),
    {
        let goes_on = self.pages.received(caches.len(), total);
        proof {
            lemma_first_with_id(caches.deep_view(), self.cache_id);
            assert(forall|k: int| 0 <= k < caches.len() ==> (#[trigger] caches.deep_view()[k]).id == caches@[k].id);
        }
        match find_cache(caches, self.cache_id) {
            Some(i) => {
                let cache = caches[i].copied();
                proof {
                    assert(caches.deep_view()[i as int].id == self.cache_id);
                    let first = choose|j: int|
                        0 <= j < caches.len() && caches.deep_view()[j] == first_with_id(
                            caches.deep_view(),
                            self.cache_id,
                        )->0 && caches.deep_view()[j].id == self.cache_id && (forall|k: int|
                            0 <= k < j ==> (#[trigger] caches.deep_view()[k]).id != self.cache_id);
                    if first < i {
                        assert(caches@[first].id != self.cache_id);
                    }
                    assert(first == i);
                }
                CacheSearchStep::Found(cache)
            },
            None => {
                proof {
                    assert forall|k: int| 0 <= k < caches.len() implies (#[trigger] caches.deep_view()[k]).id
                        != self.cache_id by {
                        assert(caches@[k].id != self.cache_id);
                    }
                }
                if goes_on {
                    CacheSearchStep::NextPage
                } else {
                    CacheSearchStep::Absent
                }
            },
        }
    }
}

/// A cache that is found is one of the page, and has the number that was looked for.
pub proof fn a_found_cache_is_the_one(caches: Seq<ActionsCacheView>, id: u64)
    requires
        first_with_id(caches, id) is Some,
    ensures
        first_with_id(caches, id)->0.id == id,
        caches.contains(first_with_id(caches, id)->0),
{
    lemma_first_with_id(caches, id);
}

/// A repository as the API describes it.
#[derive(Clone, Debug, PartialEq, Eq)]
pub struct GithubRepository {
    pub id: u64,
    pub owner: String,
    pub name: String,
    pub full_name: String,
    pub private: bool,
    pub visibility: Option<String>,
    pub default_branch: String,
    pub archived: bool,
    pub fork: bool,
}

impl GithubRepository {
    /// The repository that is described.
    pub fn into_repository(self) -> (result: Repository)
        ensures
            result.deep_view() == (RepositoryView {
                id: self.id,
                owner: self.owner@,
                name: self.name@,
                full_name: self.full_name@,
                visibility: visibility_by(self.visibility.deep_view(), self.private),
                default_branch: self.default_branch@,
                archived: self.archived,
                fork: self.fork,
            }),
    {
        let visibility = visibility_of(
            match &self.visibility {
                Some(text) => Some(text.as_str()),
                None => None,
            },
            self.private,
        );
        Repository {
            id: self.id,
            owner: self.owner,
            name: self.name,
            full_name: self.full_name,
            visibility,
            default_branch: self.default_branch,
            archived: self.archived,
            fork: self.fork,
        }
    }
}

/// The repositories of an owner.
pub open spec fn owned(repositories: Seq<RepositoryView>, owner: Seq<char>) -> Seq<RepositoryView>
    decreases repositories.len(),
{
    if repositories.len() == 0 {
        Seq::empty()
    } else {
        let rest = owned(repositories.drop_last(), owner);
        if same_ignoring_case(repositories.last().owner, owner) {
            rest.push(repositories.last())
        } else {
            rest
        }
    }
}

/// Keeps the repositories of an owner.
pub fn keep_owned(repositories: Vec<Repository>, owner: &str) -> (result: Vec<Repository>)
    ensures
        result.deep_view() == owned(repositories.deep_view(), owner@),
{
    let ghost all = repositories.deep_view();
    let mut result: Vec<Repository> = nothing();
    let mut i: usize = 0;
    assert(all.take(0) =~= Seq::empty());
    while i < repositories.len()
        invariant
            i <= repositories.len(),
            all == repositories.deep_view(),
            result.deep_view() == owned(all.take(i as int), owner@),
        decreases repositories.len() - i,
    {
        assert(all.take(i + 1).drop_last() =~= all.take(i as int));
        assert(all.take(i + 1).last() == repositories@[i as int].deep_view());
        if eq_ignore_ascii_case(repositories[i].owner.as_str(), owner) {
            add_to(&mut result, repositories[i].copied());
        }
        i = i + 1;
    }
    assert(all.take(i as int) =~= all);
    result
}

/// Who can see a repository, by what the API says of it.
pub open spec fn visibility_by(visibility: Option<Seq<char>>, private: bool) -> Visibility {
    if visibility == Some("public"@) {
        Visibility::Public
    } else if visibility == Some("private"@) {
        Visibility::Private
    } else if visibility == Some("internal"@) {
        Visibility::Internal
    } else if private {
        Visibility::Private
    } else {
        Visibility::Unknown
    }
}

/// Who can see a repository, by what the API says of it.
pub fn visibility_of(visibility: Option<&str>, private: bool) -> (result: Visibility)
    ensures
        result == visibility_by(optional_text(visibility), private),
{
    proof {
        reveal_strlit("public");
        reveal_strlit("private");
        reveal_strlit("internal");
        assert("public"@.len() != "private"@.len() && "public"@.len() != "internal"@.len() && "private"@.len()
            != "internal"@.len());
    }
    if let Some(text) = visibility {
        if same_text(text, "public") {
            return Visibility::Public;
        }
        if same_text(text, "private") {
            return Visibility::Private;
        }
        if same_text(text, "internal") {
            return Visibility::Internal;
        }
    }
    if private {
        Visibility::Private
    } else {
        Visibility::Unknown
    }
}

// ---------------------------------------------------------------------------------------------
// Whether a run is of the repository that was asked.
// ---------------------------------------------------------------------------------------------

/// What is said where a run is of another repository.
pub open spec fn foreign_run(run_id: u64, remote: RepositoryRefView, asked: RepositoryRefView) -> ProviderErrorView {
    ProviderErrorView::InvalidResponse(
        "workflow run "@ + decimal(run_id as nat) + " belongs to "@ + remote.full_name + " (repository ID "@ + decimal(
            remote.id as nat,
        ) + "), not "@ + asked.full_name + " (ID "@ + decimal(asked.id as nat) + ")"@,
    )
}

/// Checks that a run is of the repository that was asked, by the repository that it came with.
pub fn check_run_repository(run_id: u64, remote: &RepositoryRef, asked: &RepositoryRef) -> (result: Result<
    (),
    ProviderError,
>)
    ensures
        result is Ok <==> remote.deep_view() == asked.deep_view(),
        result matches Err(error) ==> error.deep_view() == foreign_run(
            run_id,
            remote.deep_view(),
            asked.deep_view(),
        ),
{
    if remote.id != asked.id || !remote.full_name.same(&asked.full_name) {
        let first = join7(
            "workflow run ",
            number(run_id).as_str(),
            " belongs to ",
            remote.full_name.as_str(),
            " (repository ID ",
            number(remote.id).as_str(),
            "), not ",
        );
        return Err(
            ProviderError::InvalidResponse(
                join5(first.as_str(), asked.full_name.as_str(), " (ID ", number(asked.id).as_str(), ")"),
            ),
        );
    }
    Ok(())
}

/// Checks that the repository that was asked is still the same, for a run that came without
/// one.
pub fn check_looked_up_repository(run_id: u64, remote: &RepositoryRef, asked: &RepositoryRef) -> (result: Result<
    (),
    ProviderError,
>)
    ensures
        result is Ok <==> remote.deep_view() == asked.deep_view(),
        result matches Err(error) ==> error.deep_view() == ProviderErrorView::InvalidResponse(
            "workflow run "@ + decimal(run_id as nat) + " repository lookup changed identity"@,
        ),
{
    if remote.id != asked.id || !remote.full_name.same(&asked.full_name) {
        return Err(
            ProviderError::InvalidResponse(
                join3("workflow run ", number(run_id).as_str(), " repository lookup changed identity"),
            ),
        );
    }
    Ok(())
}

// ---------------------------------------------------------------------------------------------
// Retries.
// ---------------------------------------------------------------------------------------------

/// How long an error's words are at most.
pub const MAX_ERROR_LENGTH: usize = 512;

/// What an answer says of an error: the message that it holds or else its body, cut off.
pub open spec fn error_words(message: Option<Seq<char>>, body: Seq<char>) -> Seq<char> {
    let words = match message {
        Some(message) => message,
        None => body,
    };
    if words.len() > MAX_ERROR_LENGTH {
        words.take(MAX_ERROR_LENGTH as int)
    } else {
        words
    }
}

/// What an answer says of an error: the message that it holds or else its body, cut off.
pub fn github_error_message(message: Option<&str>, body: &str) -> (result: String)
    ensures
        result@ == error_words(optional_text(message), body@),
{
    let words = match message {
        Some(message) => message,
        None => body,
    };
    let chars = chars_of(words);
    let end: usize = if chars.len() > MAX_ERROR_LENGTH {
        MAX_ERROR_LENGTH
    } else {
        chars.len()
    };
    assert(words@.subrange(0, end as int) =~= words@.take(end as int));
    assert(words@.take(words@.len() as int) =~= words@);
    text_of(&chars, 0, end)
}

/// The number in a header.
pub open spec fn header_number(header: Option<Seq<char>>) -> Option<nat> {
    match header {
        Some(text) => parsed_number(text),
        None => None,
    }
}

/// The number in a header, if there is one.
pub fn header_u64(header: &Option<String>) -> (result: Option<u64>)
    ensures
        match header_number(header.deep_view()) {
            Some(n) => result == Some(n as u64) && n <= u64::MAX,
            None => result is None,
        },
{
    match header {
        Some(text) => parse_u64(text.as_str()),
        None => None,
    }
}

/// Whether an answer refuses because of the rate limit.
pub open spec fn rate_limited(status: u16, headers: RateLimitHeadersView, message: Seq<char>) -> bool {
    ||| status == 429
    ||| header_number(headers.remaining) == Some(0nat)
    ||| headers.retry_after is Some
    ||| status == 403 && contains_text(lowered(message), "rate limit"@)
}

/// Whether an answer refuses because of the rate limit.
pub fn is_rate_limited(status: u16, headers: &RateLimitHeaders, message: &str) -> (result: bool)
    ensures
        result == rate_limited(status, headers.deep_view(), message@),
{
    let none_left = match header_u64(&headers.remaining) {
        Some(remaining) => remaining == 0,
        None => false,
    };
    status == 429 || none_left || headers.retry_after.is_some() || (status == 403 && contains(
        to_ascii_lowercase(message).as_str(),
        "rate limit",
    ))
}

/// Two to the power of `n`.
pub open spec fn doubled(n: nat) -> nat
    decreases n,
{
    if n == 0 {
        1
    } else {
        2 * doubled((n - 1) as nat)
    }
}

fn power(n: u64) -> (result: u64)
    requires
        n < MAX_ATTEMPTS,
    ensures
        result == doubled(n as nat),
        result <= 8,
{
    reveal_with_fuel(doubled, 5);
    if n == 0 {
        1
    } else if n == 1 {
        2
    } else if n == 2 {
        4
    } else {
        8
    }
}

/// How long to wait before another attempt, in seconds, as far as that is known. `now` is the
/// present second since the Unix epoch.
pub open spec fn limit_delay(headers: RateLimitHeadersView, attempt: nat, now: Option<u64>) -> Option<u64> {
    match header_number(headers.retry_after) {
        Some(delay) => Some(delay as u64),
        None => if header_number(headers.remaining) == Some(0nat) {
            match (header_number(headers.reset), now) {
                (Some(reset), Some(now)) => Some(
                    if reset > now + 1 {
                        (reset - now) as u64
                    } else {
                        1
                    },
                ),
                _ => None,
            }
        } else if 60 * doubled(attempt) < 300 {
            Some((60 * doubled(attempt)) as u64)
        } else {
            Some(300)
        },
    }
}

/// How long to wait before another attempt, in seconds, as far as that is known.
pub fn rate_limit_delay(headers: &RateLimitHeaders, attempt: u64, now: Option<u64>) -> (result: Option<u64>)
    requires
        attempt < MAX_ATTEMPTS,
    ensures
        result == limit_delay(headers.deep_view(), attempt as nat, now),
{
    if let Some(delay) = header_u64(&headers.retry_after) {
        return Some(delay);
    }
    if let Some(0) = header_u64(&headers.remaining) {
        return match (header_u64(&headers.reset), now) {
            (Some(reset), Some(now)) => Some(
                if reset > now && reset - now > 1 {
                    reset - now
                } else {
                    1
                },
            ),
            _ => None,
        };
    }
    let delay: u64 = 60 * power(attempt);
    Some(
        if delay < 300 {
            delay
        } else {
            300
        },
    )
}

/// What to do next about a request.
#[derive(Clone, Debug, PartialEq, Eq)]
pub enum RequestStep {
    /// Use the answer.
    Use,
    /// There is no such resource.
    Absent,
    /// Wait, then try again.
    Retry { seconds: u64 },
    /// Give up.
    Fail { error: ProviderError },
}

/// The contents of [`RequestStep`].
#[verifier::ext_equal]
pub enum RequestStepView {
    Use,
    Absent,
    Retry { seconds: u64 },
    Fail { error: ProviderErrorView },
}

impl DeepView for RequestStep {
    type V = RequestStepView;

    open spec fn deep_view(&self) -> RequestStepView {
        match self {
            RequestStep::Use => RequestStepView::Use,
            RequestStep::Absent => RequestStepView::Absent,
            RequestStep::Retry { seconds } => RequestStepView::Retry { seconds: *seconds },
            RequestStep::Fail { error } => RequestStepView::Fail { error: error.deep_view() },
        }
    }
}

/// A request and how often it was tried.
pub struct RequestPolicy {
    reads: bool,
    allow_not_found: bool,
    attempt: u64,
}

/// The contents of [`RequestPolicy`].
#[verifier::ext_equal]
pub struct RequestPolicyView {
    pub reads: bool,
    pub allow_not_found: bool,
    pub attempt: u64,
}

impl DeepView for RequestPolicy {
    type V = RequestPolicyView;

    closed spec fn deep_view(&self) -> RequestPolicyView {
        RequestPolicyView { reads: self.reads, allow_not_found: self.allow_not_found, attempt: self.attempt }
    }
}

impl RequestPolicyView {
    /// How often the request may be tried: only what changes nothing is tried again.
    pub open spec fn max_attempts(self) -> u64 {
        if self.reads {
            MAX_ATTEMPTS
        } else {
            1
        }
    }

    pub open spec fn sound(self) -> bool {
        self.attempt < self.max_attempts()
    }

    /// Whether another attempt is left.
    pub open spec fn may_retry(self) -> bool {
        self.attempt + 1 < self.max_attempts()
    }

    /// The request after what was decided about it.
    pub open spec fn after(self, step: RequestStepView) -> RequestPolicyView {
        match step {
            RequestStepView::Retry { .. } => RequestPolicyView { attempt: (self.attempt + 1) as u64, ..self },
            _ => self,
        }
    }

    /// What to do where there was no answer.
    pub open spec fn unanswered(self, error: Seq<char>) -> RequestStepView {
        if self.may_retry() {
            RequestStepView::Retry { seconds: doubled(self.attempt as nat) as u64 }
        } else {
            RequestStepView::Fail { error: ProviderErrorView::Transport(error) }
        }
    }

    /// What to do about an answer by its status alone, where that is enough.
    pub open spec fn accepted(self, status: u16) -> Option<RequestStepView> {
        if 200 <= status <= 299 {
            Some(RequestStepView::Use)
        } else if status == 404 && self.allow_not_found {
            Some(RequestStepView::Absent)
        } else {
            None
        }
    }

    /// What to do about an answer that refuses.
    pub open spec fn refused(
        self,
        status: u16,
        headers: RateLimitHeadersView,
        message: Seq<char>,
        now: Option<u64>,
    ) -> RequestStepView {
        if status == 401 {
            RequestStepView::Fail { error: ProviderErrorView::Authentication(message) }
        } else if status == 404 {
            RequestStepView::Fail { error: ProviderErrorView::NotFound(message) }
        } else if rate_limited(status, headers, message) {
            let delay = limit_delay(headers, self.attempt as nat, now);
            match delay {
                Some(seconds) if self.may_retry() && seconds <= 60 => RequestStepView::Retry {
                    seconds: if seconds == 0 {
                        1
                    } else {
                        seconds
                    },
                },
                _ => RequestStepView::Fail {
                    error: ProviderErrorView::RateLimited {
                        retry_after_seconds: delay,
                        message: if message.len() == 0 {
                            Seq::empty()
                        } else {
                            ": "@ + message
                        },
                    },
                },
            }
        } else if 500 <= status <= 599 && self.may_retry() {
            RequestStepView::Retry { seconds: doubled(self.attempt as nat) as u64 }
        } else if status == 403 {
            RequestStepView::Fail { error: ProviderErrorView::PermissionDenied(message) }
        } else {
            RequestStepView::Fail { error: ProviderErrorView::HttpStatus { status, message } }
        }
    }
}

impl RequestPolicy {
    /// A request that was not tried yet. `reads` tells that it changes nothing.
    pub fn new(reads: bool, allow_not_found: bool) -> (result: Self)
        ensures
            result.deep_view() == (RequestPolicyView { reads, allow_not_found, attempt: 0 }),
            result.deep_view().sound(),
    {
        RequestPolicy { reads, allow_not_found, attempt: 0 }
    }

    fn may_retry(&self) -> (result: bool)
        requires
            self.deep_view().sound(),
        ensures
            result == self.deep_view().may_retry(),
    {
        self.reads && self.attempt + 1 < MAX_ATTEMPTS
    }

    /// Decides where there was no answer.
    pub fn unanswered(&mut self, error: &str) -> (result: RequestStep)
        requires
            old(self).deep_view().sound(),
        ensures
            result.deep_view() == old(self).deep_view().unanswered(error@),
            final(self).deep_view() == old(self).deep_view().after(result.deep_view()),
            final(self).deep_view().sound(),
    {
        if self.may_retry() {
            let seconds: u64 = power(self.attempt);
            self.attempt = self.attempt + 1;
            return RequestStep::Retry { seconds };
        }
        RequestStep::Fail { error: ProviderError::Transport(error.to_string()) }
    }

    /// Decides about an answer by its status alone, where that is enough.
    pub fn accepted(&self, status: u16) -> (result: Option<RequestStep>)
        ensures
            result.deep_view() == self.deep_view().accepted(status),
    {
        if 200 <= status && status <= 299 {
            return Some(RequestStep::Use);
        }
        if status == 404 && self.allow_not_found {
            return Some(RequestStep::Absent);
        }
        None
    }

    /// Decides about an answer that refuses. `now` is the present second since the Unix epoch.
    pub fn refused(&mut self, status: u16, headers: &RateLimitHeaders, message: &str, now: Option<u64>) -> (result:
        RequestStep)
        requires
            old(self).deep_view().sound(),
        ensures
            result.deep_view() == old(self).deep_view().refused(status, headers.deep_view(), message@, now),
            final(self).deep_view() == old(self).deep_view().after(result.deep_view()),
            final(self).deep_view().sound(),
    {
        if status == 401 {
            return RequestStep::Fail { error: ProviderError::Authentication(message.to_string()) };
        }
        if status == 404 {
            return RequestStep::Fail { error: ProviderError::NotFound(message.to_string()) };
        }
        let may_retry = self.may_retry();
        if is_rate_limited(status, headers, message) {
            let retry_after_seconds = rate_limit_delay(headers, self.attempt, now);
            if may_retry {
                if let Some(delay) = retry_after_seconds {
                    if delay <= 60 {
                        self.attempt = self.attempt + 1;
                        return RequestStep::Retry {
                            seconds: if delay == 0 {
                                1
                            } else {
                                delay
                            },
                        };
                    }
                }
            }
            let words = if chars_of(message).len() == 0 {
                proof {
                    reveal_strlit("");
                    assert(""@ =~= Seq::<char>::empty());
                }
                "".to_string()
            } else {
                join2(": ", message)
            };
            return RequestStep::Fail { error: ProviderError::RateLimited { retry_after_seconds, message: words } };
        }
        if 500 <= status && status <= 599 && may_retry {
            let seconds: u64 = power(self.attempt);
            self.attempt = self.attempt + 1;
            return RequestStep::Retry { seconds };
        }
        if status == 403 {
            return RequestStep::Fail { error: ProviderError::PermissionDenied(message.to_string()) };
        }
        RequestStep::Fail { error: ProviderError::HttpStatus { status, message: message.to_string() } }
    }
}

/// What changes something is sent once: no answer, and no lack of one, makes it be sent again.
pub proof fn changes_are_never_repeated(
    request: RequestPolicyView,
    error: Seq<char>,
    status: u16,
    headers: RateLimitHeadersView,
    message: Seq<char>,
    now: Option<u64>,
)
    requires
        request.sound(),
        !request.reads,
    ensures
        !(request.unanswered(error) is Retry),
        !(request.refused(status, headers, message, now) is Retry),
{
}

/// A request is tried again at most three times, each time after a wait of at most a minute.
pub proof fn retries_come_to_an_end(
    request: RequestPolicyView,
    error: Seq<char>,
    status: u16,
    headers: RateLimitHeadersView,
    message: Seq<char>,
    now: Option<u64>,
)
    requires
        request.sound(),
    ensures
        request.unanswered(error) matches RequestStepView::Retry { seconds } ==> 1 <= seconds <= 60
            && request.after(request.unanswered(error)).sound() && request.after(request.unanswered(error)).attempt
            == request.attempt + 1,
        request.refused(status, headers, message, now) matches RequestStepView::Retry { seconds } ==> 1 <= seconds <= 60
            && request.after(request.refused(status, headers, message, now)).attempt == request.attempt + 1,
        request.attempt + 1 == MAX_ATTEMPTS ==> !(request.unanswered(error) is Retry) && !(request.refused(
            status,
            headers,
            message,
            now,
        ) is Retry),
{
    reveal_with_fuel(doubled, 5);
}

/// Without the words or the headers of a rate limit, a refusal for lack of permission is told as
/// such.
pub proof fn a_plain_refusal_is_no_rate_limit(
    request: RequestPolicyView,
    headers: RateLimitHeadersView,
    message: Seq<char>,
    now: Option<u64>,
)
    requires
        headers.retry_after is None,
        headers.remaining is None,
        !contains_text(lowered(message), "rate limit"@),
    ensures
        request.refused(403, headers, message, now) == (RequestStepView::Fail {
            error: ProviderErrorView::PermissionDenied(message),
        }),
{
}

// ---------------------------------------------------------------------------------------------
// Pacing and telemetry.
// ---------------------------------------------------------------------------------------------

/// When the last change was due, in nanoseconds of a clock that never runs backwards.
pub struct MutationPacing {
    last: Option<u128>,
}

impl DeepView for MutationPacing {
    type V = Option<u128>;

    closed spec fn deep_view(&self) -> Option<u128> {
        self.last
    }
}

/// When a change is due that is asked for at `now`.
pub open spec fn due(last: Option<u128>, now: u128) -> int {
    match last {
        Some(last) => if last + MUTATION_PACING > now {
            last + MUTATION_PACING
        } else {
            now as int
        },
        None => now as int,
    }
}

impl MutationPacing {
    /// Before the first change.
    pub fn new() -> (result: Self)
        ensures
            result.deep_view() is None,
    {
        MutationPacing { last: None }
    }

    /// Reserves a time for a request, and tells how long to wait for it. Only a change has to
    /// wait.
    pub fn reserve(&mut self, changes: bool, now: u128) -> (result: u128)
        requires
            old(self).deep_view() matches Some(last) ==> last + MUTATION_PACING <= u128::MAX,
        ensures
            if changes {
                &&& final(self).deep_view() == Some(due(old(self).deep_view(), now) as u128)
                &&& result == due(old(self).deep_view(), now) - now
            } else {
                result == 0 && final(self).deep_view() == old(self).deep_view()
            },
    {
        if !changes {
            return 0;
        }
        let at: u128 = match self.last {
            Some(last) => if last + MUTATION_PACING > now {
                last + MUTATION_PACING
            } else {
                now
            },
            None => now,
        };
        self.last = Some(at);
        at - now
    }
}

/// Changes are made at least as far apart as they have to be.
pub proof fn changes_are_paced(last: u128, now: u128)
    ensures
        due(Some(last), now) >= last + MUTATION_PACING,
        due(Some(last), now) >= now,
{
}

/// How many requests were sent, and how many are left.
pub struct RequestCounter {
    requests: u64,
    remaining: u64,
}

/// The contents of [`RequestCounter`].
#[verifier::ext_equal]
pub struct RequestCounterView {
    pub requests: u64,
    pub remaining: u64,
}

impl DeepView for RequestCounter {
    type V = RequestCounterView;

    closed spec fn deep_view(&self) -> RequestCounterView {
        RequestCounterView { requests: self.requests, remaining: self.remaining }
    }
}

impl RequestCounterView {
    /// After another request. The count starts again where it can go no further.
    pub open spec fn counted(self) -> RequestCounterView {
        RequestCounterView {
            requests: if self.requests == u64::MAX {
                0
            } else {
                (self.requests + 1) as u64
            },
            ..self
        }
    }

    /// After an answer that tells how many requests are left, or does not.
    pub open spec fn informed(self, remaining: Option<nat>) -> RequestCounterView {
        match remaining {
            Some(remaining) => RequestCounterView { remaining: remaining as u64, ..self },
            None => self,
        }
    }

    /// What is told of the requests.
    pub open spec fn told(self) -> ProviderTelemetryView {
        ProviderTelemetryView {
            api_requests: self.requests,
            rate_limit_remaining: if self.remaining == RATE_UNKNOWN {
                None
            } else {
                Some(self.remaining)
            },
        }
    }
}

impl RequestCounter {
    /// Before the first request.
    pub fn new() -> (result: Self)
        ensures
            result.deep_view() == (RequestCounterView { requests: 0, remaining: RATE_UNKNOWN }),
    {
        RequestCounter { requests: 0, remaining: RATE_UNKNOWN }
    }

    /// Counts a request.
    pub fn sent(&mut self)
        ensures
            final(self).deep_view() == old(self).deep_view().counted(),
            final(self).deep_view() == (RequestCounterView {
                requests: if old(self).deep_view().requests == u64::MAX {
                    0
                } else {
                    (old(self).deep_view().requests + 1) as u64
                },
                ..old(self).deep_view()
            }),
    {
        self.requests = self.requests.wrapping_add(1);
    }

    /// Takes note of how many requests are left, where an answer tells.
    pub fn capture_rate_limit(&mut self, headers: &RateLimitHeaders)
        ensures
            final(self).deep_view() == old(self).deep_view().informed(header_number(headers.deep_view().remaining)),
            final(self).deep_view() == match header_number(headers.deep_view().remaining) {
                Some(remaining) => RequestCounterView { remaining: remaining as u64, ..old(self).deep_view() },
                None => old(self).deep_view(),
            },
    {
        if let Some(remaining) = header_u64(&headers.remaining) {
            self.remaining = remaining;
        }
    }

    /// How many requests were sent, and how many are left, if that is known.
    pub fn telemetry(&self) -> (result: ProviderTelemetry)
        ensures
            result.deep_view() == self.deep_view().told(),
            result.deep_view() == (ProviderTelemetryView {
                api_requests: self.deep_view().requests,
                rate_limit_remaining: if self.deep_view().remaining == RATE_UNKNOWN {
                    None
                } else {
                    Some(self.deep_view().remaining)
                },
            }),
    {
        ProviderTelemetry {
            api_requests: self.requests,
            rate_limit_remaining: if self.remaining == RATE_UNKNOWN {
                None
            } else {
                Some(self.remaining)
            },
        }
    }
}

// ---------------------------------------------------------------------------------------------
// The client.
// ---------------------------------------------------------------------------------------------

/// What a client of the API knows: its credential, the API's address, and what it sent.
pub struct GithubClient {
    token: SecretToken,
    base_url: String,
    counter: RequestCounter,
    pacing: MutationPacing,
}

/// The contents of [`GithubClient`].
#[verifier::ext_equal]
pub struct GithubClientView {
    pub token: Seq<char>,
    pub base_url: Seq<char>,
    pub counter: RequestCounterView,
    pub last_change: Option<u128>,
}

impl DeepView for GithubClient {
    type V = GithubClientView;

    closed spec fn deep_view(&self) -> GithubClientView {
        GithubClientView {
            token: self.token.deep_view(),
            base_url: self.base_url@,
            counter: self.counter.deep_view(),
            last_change: self.pacing.deep_view(),
        }
    }
}

/// A client that sent nothing yet.
pub open spec fn fresh_client(token: Seq<char>, base_url: Seq<char>) -> GithubClientView {
    GithubClientView {
        token,
        base_url,
        counter: RequestCounterView { requests: 0, remaining: RATE_UNKNOWN },
        last_change: None,
    }
}

impl GithubClient {
    /// The address of the API, by default GitHub's own.
    pub fn normalized_api_url(base_url: Option<&str>) -> (result: Result<String, ProviderError>)
        ensures
            address_view(result) == base_address(
                standard_url(
                    match optional_text(base_url) {
                        Some(address) => address,
                        None => DEFAULT_API_URL@,
                    },
                ),
            ),
    {
        let address = match base_url {
            Some(address) => address,
            None => DEFAULT_API_URL,
        };
        normalize_parsed_url(parse_url(address))
    }

    /// A client of GitHub's own API.
    pub fn new(token: SecretToken) -> (result: Result<Self, ProviderError>)
        ensures
            match base_address(standard_url(DEFAULT_API_URL@)) {
                Ok(address) => result is Ok && result->Ok_0.deep_view() == fresh_client(token.deep_view(), address),
                Err(error) => result is Err && result->Err_0.deep_view() == error,
            },
    {
        GithubClient::with_base_url(token, DEFAULT_API_URL)
    }

    /// A client of the API at an address.
    pub fn with_base_url(token: SecretToken, base_url: &str) -> (result: Result<Self, ProviderError>)
        ensures
            match base_address(standard_url(base_url@)) {
                Ok(address) => result is Ok && result->Ok_0.deep_view() == fresh_client(token.deep_view(), address),
                Err(error) => result is Err && result->Err_0.deep_view() == error,
            },
    {
        match GithubClient::normalized_api_url(Some(base_url)) {
            Ok(base_url) => Ok(
                GithubClient { token, base_url, counter: RequestCounter::new(), pacing: MutationPacing::new() },
            ),
            Err(error) => Err(error),
        }
    }

    pub fn token(&self) -> (result: &SecretToken)
        ensures
            result.deep_view() == self.deep_view().token,
    {
        &self.token
    }

    /// The address of a path.
    pub fn url(&self, path: &str) -> (result: String)
        ensures
            result@ == self.deep_view().base_url + path@,
    {
        join2(self.base_url.as_str(), path)
    }

    /// The API that the client speaks to.
    pub fn provider_instance(&self) -> (result: String)
        ensures
            result@ == self.deep_view().base_url,
    {
        self.base_url.copied()
    }

    /// Reserves a time for a request, and tells how long to wait for it, in nanoseconds.
    pub fn reserve_mutation_delay(&mut self, changes: bool, now: u128) -> (result: u128)
        requires
            old(self).deep_view().last_change matches Some(last) ==> last + MUTATION_PACING <= u128::MAX,
        ensures
            if changes {
                &&& final(self).deep_view() == (GithubClientView {
                    last_change: Some(due(old(self).deep_view().last_change, now) as u128),
                    ..old(self).deep_view()
                })
                &&& result == due(old(self).deep_view().last_change, now) - now
            } else {
                result == 0 && final(self).deep_view() == old(self).deep_view()
            },
    {
        self.pacing.reserve(changes, now)
    }

    /// Counts a request.
    pub fn sent(&mut self)
        ensures
            final(self).deep_view().counter == old(self).deep_view().counter.counted(),
            final(self).deep_view() == (GithubClientView {
                counter: RequestCounterView {
                    requests: if old(self).deep_view().counter.requests == u64::MAX {
                        0
                    } else {
                        (old(self).deep_view().counter.requests + 1) as u64
                    },
                    ..old(self).deep_view().counter
                },
                ..old(self).deep_view()
            }),
    {
        self.counter.sent();
    }

    /// Takes note of how many requests are left, where an answer tells.
    pub fn capture_rate_limit(&mut self, headers: &RateLimitHeaders)
        ensures
            final(self).deep_view().counter == old(self).deep_view().counter.informed(
                header_number(headers.deep_view().remaining),
            ),
            final(self).deep_view() == match header_number(headers.deep_view().remaining) {
                Some(remaining) => GithubClientView {
                    counter: RequestCounterView { remaining: remaining as u64, ..old(self).deep_view().counter },
                    ..old(self).deep_view()
                },
                None => old(self).deep_view(),
            },
    {
        self.counter.capture_rate_limit(headers);
    }

    /// How many requests were sent, and how many are left, if that is known.
    pub fn telemetry(&self) -> (result: ProviderTelemetry)
        ensures
            result.deep_view() == self.deep_view().counter.told(),
            result.deep_view() == (ProviderTelemetryView {
                api_requests: self.deep_view().counter.requests,
                rate_limit_remaining: if self.deep_view().counter.remaining == RATE_UNKNOWN {
                    None
                } else {
                    Some(self.deep_view().counter.remaining)
                },
            }),
    {
        self.counter.telemetry()
    }
}

/// The credential is that of the GitHub CLI, without the white space around it, unless that is
/// blank or missing; then it is that of the environment, in the same way; else there is none.
pub proof fn the_cli_comes_before_the_environment(cli: Option<Seq<char>>, environment: Option<Seq<char>>)
    ensures
        cli is Some && !blank(cli->0) ==> credential(cli, environment) == Some(trimmed(cli->0)),
        (cli is None || blank(cli->0)) && environment is Some && !blank(environment->0) ==> credential(cli, environment)
            == Some(trimmed(environment->0)),
        credential(cli, environment) is None <==> (cli is None || blank(cli->0)) && (environment is None || blank(
            environment->0,
        )),
{
    if cli is Some {
        trimming_takes_white_space_from_both_ends(cli->0);
    }
    if environment is Some {
        trimming_takes_white_space_from_both_ends(environment->0);
    }
}

/// A normalized address is the parsed one without the slashes at its end, and nothing else is taken
/// away.
pub proof fn only_end_slashes_are_taken_away(parsed: Seq<char>)
    ensures
        base_address(Ok(parsed)) is Ok,
        ({
            let address = base_address(Ok(parsed))->Ok_0;
            &&& address.len() <= parsed.len()
            &&& address == parsed.take(address.len() as int)
            &&& forall|i: int| address.len() <= i < parsed.len() ==> #[trigger] parsed[i] == '/'
            &&& address.len() > 0 ==> address.last() != '/'
        }),
    decreases parsed.len(),
{
    if parsed.len() > 0 && parsed.last() == '/' {
        let rest = parsed.drop_last();
        only_end_slashes_are_taken_away(rest);
        let address = without_end_slashes(rest);
        assert(rest.take(address.len() as int) =~= parsed.take(address.len() as int));
        assert forall|i: int| address.len() <= i < parsed.len() implies #[trigger] parsed[i] == '/' by {
            if i < rest.len() {
                assert(rest[i] == parsed[i]);
            }
        }
    } else {
        assert(parsed.take(parsed.len() as int) =~= parsed);
    }
}

/// A list of repositories goes on after a full page of a hundred. Every other list goes on where the
/// page held something and fewer items were seen than there are.
pub proof fn a_list_goes_on_while_items_are_left(pages: PagesView, count: nat, total: u64)
    ensures
        pages.listing is Repositories ==> (pages.goes_on(count, total) <==> count >= 100),
        !(pages.listing is Repositories) && pages.seen + count <= u64::MAX ==> (pages.goes_on(count, total) <==> count
            > 0 && pages.seen + count < total),
        pages.seen + count <= u64::MAX ==> pages.seen_with(count) == pages.seen + count,
{
}

/// The repositories of an owner are those whose owner has that name, in whatever case; all of them,
/// in their order.
pub proof fn repositories_are_kept_by_owner(repositories: Seq<RepositoryView>, owner: Seq<char>)
    ensures
        owned(repositories, owner) == repositories.filter(|r: RepositoryView| equal_but_for_case(r.owner, owner)),
    decreases repositories.len(),
{
    reveal(Seq::filter);
    if repositories.len() > 0 {
        repositories_are_kept_by_owner(repositories.drop_last(), owner);
        case_is_disregarded(repositories.last().owner, owner);
    }
}

/// A repository is as visible as the API says; where it does not say, a private one is private, and
/// of any other it is not known.
pub proof fn visibility_is_what_the_api_says(private: bool, other: Option<Seq<char>>)
    requires
        other is None || (other->0 != "public"@ && other->0 != "private"@ && other->0 != "internal"@),
    ensures
        visibility_by(Some("public"@), private) == Visibility::Public,
        visibility_by(Some("private"@), private) == Visibility::Private,
        visibility_by(Some("internal"@), private) == Visibility::Internal,
        visibility_by(other, private) == if private {
            Visibility::Private
        } else {
            Visibility::Unknown
        },
{
    reveal_strlit("public");
    reveal_strlit("private");
    reveal_strlit("internal");
    assert("public"@.len() != "private"@.len() && "public"@.len() != "internal"@.len() && "private"@.len()
        != "internal"@.len());
}

/// The words of an error are its message or, without one, the body: the first 512 characters.
pub proof fn error_words_are_cut_off(message: Option<Seq<char>>, body: Seq<char>)
    ensures
        ({
            let all = if message is Some {
                message->0
            } else {
                body
            };
            let words = error_words(message, body);
            &&& all.len() <= 512 ==> words == all
            &&& all.len() > 512 ==> words.len() == 512 && words == all.take(512)
        }),
{
}

/// Whether a text speaks of a rate limit, in whatever case.
pub open spec fn speaks_of_a_rate_limit(message: Seq<char>) -> bool {
    exists|at: int|
        0 <= at <= message.len() - 10 && equal_but_for_case(#[trigger] message.subrange(at, at + 10), "rate limit"@)
}

proof fn lemma_speaks(message: Seq<char>)
    ensures
        contains_text(lowered(message), "rate limit"@) <==> speaks_of_a_rate_limit(message),
{
    let word = "rate limit"@;
    reveal_strlit("rate limit");
    assert(word.len() == 10);
    let low = lowered(message);
    assert(lowered(word) =~= word);
    assert forall|at: int| 0 <= at <= message.len() - 10 implies (#[trigger] low.subrange(at, at + 10) == word
        <==> equal_but_for_case(message.subrange(at, at + 10), word)) by {
        case_is_disregarded(message.subrange(at, at + 10), word);
        assert(low.subrange(at, at + 10) =~= lowered(message.subrange(at, at + 10)));
    }
    if contains_text(low, word) {
        let at = choose|at: int| #[trigger] occurs_at(low, word, at);
        assert(low.subrange(at, at + 10) == word);
        assert(equal_but_for_case(message.subrange(at, at + 10), word));
    }
    if speaks_of_a_rate_limit(message) {
        let at = choose|at: int|
            0 <= at <= message.len() - 10 && equal_but_for_case(#[trigger] message.subrange(at, at + 10), word);
        assert(low.subrange(at, at + 10) == word);
        assert(occurs_at(low, word, at));
    }
}

/// A refusal is one for the rate limit where its status is 429, where no request is left, where it
/// says when to try again, or where it forbids with words that speak of a rate limit.
pub proof fn a_rate_limit_is_told_by_status_headers_or_words(
    status: u16,
    headers: RateLimitHeadersView,
    message: Seq<char>,
)
    ensures
        rate_limited(status, headers, message) <==> status == 429 || (headers.remaining is Some && parsed_number(
            headers.remaining->0,
        ) == Some(0nat)) || headers.retry_after is Some || (status == 403 && speaks_of_a_rate_limit(message)),
{
    lemma_speaks(message);
}

/// How long to wait: as long as the answer asks; where no request is left, until the limit is set
/// back, but at least a second; else a minute, then two, then four, and five at most.
pub proof fn the_wait_is_what_the_answer_asks(headers: RateLimitHeadersView, attempt: nat, now: Option<u64>)
    ensures
        ({
            let delay = limit_delay(headers, attempt, now);
            let asked = headers.retry_after is Some && parsed_number(headers.retry_after->0) is Some;
            let none_left = headers.remaining is Some && parsed_number(headers.remaining->0) == Some(0nat);
            let reset = headers.reset is Some && parsed_number(headers.reset->0) is Some && now is Some;
            &&& asked ==> delay is Some && delay->0 == parsed_number(headers.retry_after->0)->0
            &&& !asked && none_left && !reset ==> delay is None
            &&& !asked && none_left && reset && parsed_number(headers.reset->0)->0 > now->0 ==> delay is Some && delay->0
                == parsed_number(headers.reset->0)->0 - now->0
            &&& !asked && none_left && reset && parsed_number(headers.reset->0)->0 <= now->0 ==> delay == Some(1u64)
            &&& !asked && !none_left && attempt == 0 ==> delay == Some(60u64)
            &&& !asked && !none_left && attempt == 1 ==> delay == Some(120u64)
            &&& !asked && !none_left && attempt == 2 ==> delay == Some(240u64)
            &&& !asked && !none_left && attempt >= 3 ==> delay == Some(300u64)
        }),
{
    reveal_with_fuel(doubled, 4);
    if attempt >= 3 {
        lemma_doubled(attempt);
    }
}

proof fn lemma_doubled(n: nat)
    requires
        n >= 3,
    ensures
        doubled(n) >= 8,
    decreases n,
{
    reveal_with_fuel(doubled, 4);
    if n > 3 {
        lemma_doubled((n - 1) as nat);
    }
}

/// What is made of an answer: success is used; a missing resource is absent where that is allowed;
/// the other refusals are told apart by their status.
pub proof fn answers_are_told_apart_by_status(
    request: RequestPolicyView,
    status: u16,
    headers: RateLimitHeadersView,
    message: Seq<char>,
    now: Option<u64>,
)
    ensures
        request.accepted(status) == Some(RequestStepView::Use) <==> 200 <= status < 300,
        request.accepted(status) == Some(RequestStepView::Absent) <==> status == 404 && request.allow_not_found,
        request.accepted(status) is None <==> !(200 <= status < 300) && !(status == 404 && request.allow_not_found),
        status == 401 ==> request.refused(status, headers, message, now) == (RequestStepView::Fail {
            error: ProviderErrorView::Authentication(message),
        }),
        status == 404 ==> request.refused(status, headers, message, now) == (RequestStepView::Fail {
            error: ProviderErrorView::NotFound(message),
        }),
        status == 403 && !rate_limited(status, headers, message) ==> request.refused(status, headers, message, now) == (
        RequestStepView::Fail { error: ProviderErrorView::PermissionDenied(message) }),
        status != 401 && status != 403 && status != 404 && !(500 <= status < 600) && !rate_limited(
            status,
            headers,
            message,
        ) ==> request.refused(status, headers, message, now) == (RequestStepView::Fail {
            error: ProviderErrorView::HttpStatus { status, message },
        }),
        500 <= status < 600 && !rate_limited(status, headers, message) && !(request.reads && request.attempt + 1 < 4)
            ==> request.refused(status, headers, message, now) == (RequestStepView::Fail {
            error: ProviderErrorView::HttpStatus { status, message },
        }),
{
}

/// What changes nothing is tried four times at most, after a failure of the server or of the
/// connection with waits of one, two and four seconds. After a rate limit it is tried again where
/// the wait is a minute at most, and otherwise the failure says how long the wait would be.
pub proof fn reads_are_tried_again(
    request: RequestPolicyView,
    error: Seq<char>,
    status: u16,
    headers: RateLimitHeadersView,
    message: Seq<char>,
    now: Option<u64>,
)
    requires
        request.attempt < 4,
    ensures
        ({
            let again = request.reads && request.attempt < 3;
            let wait: u64 = if request.attempt == 0 {
                1
            } else if request.attempt == 1 {
                2
            } else {
                4
            };
            let delay = limit_delay(headers, request.attempt as nat, now);
            let step = request.refused(status, headers, message, now);
            &&& again ==> request.unanswered(error) == (RequestStepView::Retry { seconds: wait })
            &&& !again ==> request.unanswered(error) == (RequestStepView::Fail {
                error: ProviderErrorView::Transport(error),
            })
            &&& again && 500 <= status < 600 && !rate_limited(status, headers, message) ==> step == (
            RequestStepView::Retry { seconds: wait })
            &&& status != 401 && status != 404 && rate_limited(status, headers, message) ==> {
                let soon = again && delay is Some && delay->0 <= 60;
                &&& soon && delay->0 > 0 ==> step == (RequestStepView::Retry { seconds: delay->0 })
                &&& soon && delay->0 == 0 ==> step == (RequestStepView::Retry { seconds: 1 })
                &&& !soon ==> (step matches RequestStepView::Fail {
                    error: ProviderErrorView::RateLimited { retry_after_seconds, .. },
                } && retry_after_seconds == delay)
            }
        }),
{
    reveal_with_fuel(doubled, 4);
}

/// A change waits until two seconds have passed since the one before, and no longer than that.
pub proof fn changes_wait_two_seconds(last: Option<u128>, now: u128)
    ensures
        last is None ==> due(last, now) == now,
        last is Some && now >= last->0 + 2_000_000_000 ==> due(last, now) == now,
        last is Some && now < last->0 + 2_000_000_000 ==> due(last, now) == last->0 + 2_000_000_000,
{
}

/// A repository is named by an owner and a name, with a slash after at least one character and
/// before at least one.
pub proof fn a_full_name_has_an_owner_and_a_name(s: Seq<char>, k: int)
    requires
        0 <= k < s.len(),
        s[k] == '/',
        forall|i: int| 0 <= i < k ==> #[trigger] s[i] != '/',
    ensures
        owner_and_name(s) <==> 0 < k && k + 1 < s.len(),
{
    if owner_and_name(s) {
        let j = choose|j: int| 0 < j < s.len() - 1 && first_slash(s, j);
        if j < k {
            assert(s[j] != '/');
        } else if k < j {
            assert(s[k] != '/');
        }
    }
    if 0 < k && k + 1 < s.len() {
        assert(first_slash(s, k));
    }
}

/// A text without a slash names no repository.
pub proof fn without_a_slash_there_is_no_repository(s: Seq<char>)
    requires
        forall|i: int| 0 <= i < s.len() ==> #[trigger] s[i] != '/',
    ensures
        !owner_and_name(s),
{
}

/// A path names its repository and, behind what it is of, its number: so no two things of a
/// repository have the same path.
pub proof fn paths_name_repository_and_number(full_name: Seq<char>, id: u64)
    ensures
        repository_path(full_name) == "/repos/"@ + full_name,
        artifact_path(full_name, id) == repository_path(full_name) + "/actions/artifacts/"@ + decimal(id as nat),
        cache_path(full_name, id) == repository_path(full_name) + "/actions/caches/"@ + decimal(id as nat),
        run_path(full_name, id) == repository_path(full_name) + "/actions/runs/"@ + decimal(id as nat),
        run_logs_path(full_name, id) == run_path(full_name, id) + "/logs"@,
{
}

/// A new client holds the credential and the address it was given, has sent nothing, knows of no
/// limit, and has changed nothing that it would have to wait after.
pub proof fn a_new_client_has_sent_nothing(token: Seq<char>, address: Seq<char>, now: u128)
    ensures
        fresh_client(token, address).token == token,
        fresh_client(token, address).base_url == address,
        fresh_client(token, address).counter.requests == 0,
        fresh_client(token, address).counter.remaining == RATE_UNKNOWN,
        due(fresh_client(token, address).last_change, now) == now,
{
}

/// A missing credential is a failure of authentication, and a foreign run a wrong answer.
pub proof fn refusals_are_of_their_sort(id: u64, remote: RepositoryRefView, asked: RepositoryRefView)
    ensures
        no_credential() is Authentication,
        foreign_run(id, remote, asked) is InvalidResponse,
{
}

/// Every request counts once, and what was last told of the limit stays known until another answer
/// tells something else; before the first one it is not known.
pub proof fn requests_are_counted_and_limits_remembered(counter: RequestCounterView, remaining: u64)
    ensures
        counter.requests < u64::MAX ==> counter.counted().requests == counter.requests + 1,
        counter.counted().remaining == counter.remaining,
        counter.informed(Some(remaining as nat)).requests == counter.requests,
        counter.informed(Some(remaining as nat)).remaining == remaining,
        counter.informed(None) == counter,
        counter.told().api_requests == counter.requests,
        remaining != u64::MAX ==> counter.informed(Some(remaining as nat)).told().rate_limit_remaining == Some(
            remaining,
        ),
        (RequestCounterView { requests: counter.requests, remaining: RATE_UNKNOWN }).told().rate_limit_remaining
            is None,
        RATE_UNKNOWN == u64::MAX,
{
}

} // verus!
