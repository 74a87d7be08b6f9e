//! One lookup of sponsor data, as a state machine.
//!
//! The caller sends the requests, sleeps and reads the bodies; after each of
//! these it reports what happened and is told what to do next.

use crate::text::{decimal_digits, decimal_u64, parse_u64, u64_to_string};
use vstd::arithmetic::power2::{lemma2_to64, lemma_pow2_strictly_increases, lemma_pow2_unfold, pow2};
use vstd::prelude::*;
use vstd::string::StringExecFns;

verus! {

/// The address that the requests are posted to.
pub const GITHUB_GRAPHQL_URL: &'static str = "https://api.github.com/graphql";

/// The value of the `User-Agent` header of every request.
pub const USER_AGENT: &'static str = "cargo-sponsor";

/// The seconds after which a single request is given up.
pub const REQUEST_TIMEOUT_SECS: u64 = 30;

/// The GraphQL document of every request; its variables are `owner` and
/// `repo`.
pub const SPONSOR_QUERY: &'static str = "
        query($owner: String!, $repo: String!) {
            repository(owner: $owner, name: $repo) {
                fundingLinks { url }
                owner {
                    ... on User {
                        hasSponsorsListing
                        sponsors { totalCount }
                    }
                    ... on Organization {
                        hasSponsorsListing
                        sponsors { totalCount }
                    }
                }
            }
        }
    ";

/// How often a throttled request is sent again before the lookup gives up.
pub const MAX_RETRIES: u32 = 3;

/// The status with which the API says that too many requests were made.
pub const TOO_MANY_REQUESTS: u16 = 429;

/// The status with which the API refuses a request; it uses it for
/// throttling too.
pub const FORBIDDEN: u16 = 403;

/// What a lookup found out about a repository.
#[derive(Debug, Clone, PartialEq, Eq)]
pub struct RepoInfo {
    /// The funding links of the repository, as the API gave them.
    pub funding_links: Vec<String>,
    /// The number of sponsors of the owner, where the owner lists them in
    /// public.
    pub sponsor_count: Option<u32>,
}

/// The mathematical value of a [`RepoInfo`].
pub struct RepoInfoView {
    pub funding_links: Seq<Seq<char>>,
    pub sponsor_count: Option<u32>,
}

impl View for RepoInfo {
    type V = RepoInfoView;

    open spec fn view(&self) -> RepoInfoView {
        RepoInfoView {
            funding_links: self.funding_links.deep_view(),
            sponsor_count: self.sponsor_count,
        }
    }
}

impl DeepView for RepoInfo {
    type V = RepoInfoView;

    open spec fn deep_view(&self) -> RepoInfoView {
        self@
    }
}

/// A funding link in the body of an answer.
#[derive(Debug, Clone, PartialEq, Eq)]
pub struct FundingLink {
    pub url: String,
}

/// The sponsors of an owner in the body of an answer.
#[derive(Debug, Clone, PartialEq, Eq)]
pub struct SponsorConnection {
    pub total_count: u32,
}

/// The owner of a repository in the body of an answer.
#[derive(Debug, Clone, PartialEq, Eq)]
pub struct OwnerData {
    pub has_sponsors_listing: bool,
    pub sponsors: Option<SponsorConnection>,
}

/// A repository in the body of an answer.
#[derive(Debug, Clone, PartialEq, Eq)]
pub struct RepositoryData {
    pub funding_links: Vec<FundingLink>,
    pub owner: OwnerData,
}

/// The data in the body of an answer.
#[derive(Debug, Clone, PartialEq, Eq)]
pub struct GitHubData {
    pub repository: Option<RepositoryData>,
}

/// The decoded body of an answer.
#[derive(Debug, Clone, PartialEq, Eq)]
pub struct GitHubResponse {
    pub data: Option<GitHubData>,
}

/// Why a lookup failed.
#[derive(Debug, Clone, PartialEq, Eq)]
pub enum FetchError {
    /// The API still throttled the request after `retries` repetitions.
    RateLimited { owner: String, repo: String, retries: u32 },
    /// The API answered with a status that is neither a success nor
    /// throttling.
    ApiError { owner: String, repo: String, status: u16 },
    /// The request could not be sent, or its answer could not be read.
    TransportError { message: String },
}

/// The mathematical value of a [`FetchError`].
pub enum FetchErrorView {
    RateLimited { owner: Seq<char>, repo: Seq<char>, retries: u32 },
    ApiError { owner: Seq<char>, repo: Seq<char>, status: u16 },
    TransportError { message: Seq<char> },
}

impl View for FetchError {
    type V = FetchErrorView;

    open spec fn view(&self) -> FetchErrorView {
        match self {
            FetchError::RateLimited { owner, repo, retries } => FetchErrorView::RateLimited {
                owner: owner@,
                repo: repo@,
                retries: *retries,
            },
            FetchError::ApiError { owner, repo, status } => FetchErrorView::ApiError {
                owner: owner@,
                repo: repo@,
                status: *status,
            },
            FetchError::TransportError { message } => FetchErrorView::TransportError {
                message: message@,
            },
        }
    }
}

impl DeepView for FetchError {
    type V = FetchErrorView;

    open spec fn deep_view(&self) -> FetchErrorView {
        self@
    }
}

/// The sentence that describes an error.
pub open spec fn error_message(e: FetchErrorView) -> Seq<char> {
    match e {
        FetchErrorView::RateLimited { owner, repo, retries } => "Rate limited after "@
            + decimal_digits(retries as nat) + " retries for "@ + owner + "/"@ + repo,
        FetchErrorView::ApiError { owner, repo, status } => "GitHub API error for "@ + owner + "/"@
            + repo + ": "@ + decimal_digits(status as nat),
        FetchErrorView::TransportError { message } => message,
    }
}

impl FetchError {
    /// Describes the error in a sentence that names the repository.
    pub fn message(&self) -> (r: String)
        ensures
            r@ == error_message(self@),
    {
        match self {
            FetchError::RateLimited { owner, repo, retries } => {
                let mut m = "Rate limited after ".to_owned();
                let count = u64_to_string(*retries as u64);
                m.append(count.as_str());
                m.append(" retries for ");
                m.append(owner.as_str());
                m.append("/");
                m.append(repo.as_str());
                m
            },
            FetchError::ApiError { owner, repo, status } => {
                let mut m = "GitHub API error for ".to_owned();
                m.append(owner.as_str());
                m.append("/");
                m.append(repo.as_str());
                m.append(": ");
                let code = u64_to_string(*status as u64);
                m.append(code.as_str());
                m
            },
            FetchError::TransportError { message } => message.clone(),
        }
    }
}

/// The URLs of funding links, in their order.
pub open spec fn link_urls(links: Seq<FundingLink>) -> Seq<Seq<char>> {
    Seq::new(links.len(), |i: int| links[i].url@)
}

/// What a decoded body says about the repository: nothing where it holds no
/// repository; else the URLs of its funding links and, where the owner has a
/// sponsors listing, the number of sponsors that the body gives.
pub open spec fn repo_info_of(response: GitHubResponse) -> Option<RepoInfoView> {
    match response.data {
        Some(data) => match data.repository {
            Some(repository) => Some(
                RepoInfoView {
                    funding_links: link_urls(repository.funding_links@),
                    sponsor_count: if repository.owner.has_sponsors_listing {
                        match repository.owner.sponsors {
                            Some(sponsors) => Some(sponsors.total_count),
                            None => None,
                        }
                    } else {
                        None
                    },
                },
            ),
            None => None,
        },
        None => None,
    }
}

/// Reads the information about the repository out of a decoded body. A
/// body without data or without a repository gives nothing: the repository
/// does not exist, which is no error.
pub fn repo_info_from_response(response: &GitHubResponse) -> (r: Option<RepoInfo>)
    ensures
        r.deep_view() == repo_info_of(*response),
        r is None <==> (response.data is None || response.data->0.repository is None),
{
    let data = match &response.data {
        Some(d) => d,
        None => {
            return None;
        },
    };
    let repository = match &data.repository {
        Some(r) => r,
        None => {
            return None;
        },
    };
    let mut links: Vec<String> = Vec::new();
    let mut i: usize = 0;
    while i < repository.funding_links.len()
        invariant
            i <= repository.funding_links.len(),
            links.deep_view() == link_urls(repository.funding_links@).take(i as int),
        decreases repository.funding_links.len() - i,
    {
        let ghost before = links.deep_view();
        links.push(repository.funding_links[i].url.clone());
        assert(links.deep_view() =~= before.push(repository.funding_links@[i as int].url@));
        i += 1;
    }
    assert(link_urls(repository.funding_links@).take(i as int) =~= link_urls(
        repository.funding_links@,
    ));
    let sponsor_count = if repository.owner.has_sponsors_listing {
        match &repository.owner.sponsors {
            Some(s) => Some(s.total_count),
            None => None,
        }
    } else {
        None
    };
    Some(RepoInfo { funding_links: links, sponsor_count })
}

/// Whether a status tells the caller to slow down.
pub open spec fn is_throttling(status: u16) -> bool {
    status == TOO_MANY_REQUESTS || status == FORBIDDEN
}

/// Whether a status is one of the successes, 200 to 299.
pub open spec fn is_success(status: u16) -> bool {
    200 <= status < 300
}

/// Whether a status tells the caller to slow down: 429, or 403.
pub fn status_is_throttling(status: u16) -> (r: bool)
    ensures
        r == is_throttling(status),
{
    status == TOO_MANY_REQUESTS || status == FORBIDDEN
}

/// Whether a status is one of the successes, 200 to 299.
pub fn status_is_success(status: u16) -> (r: bool)
    ensures
        r == is_success(status),
{
    200 <= status && status < 300
}

/// The seconds to wait before a throttled request is sent again: what the
/// answer's `retry-after` says where that is a number, else two to the
/// power of the repetitions made so far.
pub open spec fn retry_delay(retries: u32, retry_after: Option<Seq<char>>) -> u64 {
    match retry_after {
        Some(text) => match decimal_u64(text) {
            Some(secs) => secs,
            None => pow2(retries as nat) as u64,
        },
        None => pow2(retries as nat) as u64,
    }
}

/// Two to the power of `retries`, in seconds.
pub fn backoff_secs(retries: u32) -> (secs: u64)
    requires
        retries < 64,
    ensures
        secs == pow2(retries as nat),
{
    let mut secs: u64 = 1;
    let mut i: u32 = 0;
    proof {
        lemma2_to64();
    }
    while i < retries
        invariant
            i <= retries,
            retries < 64,
            secs == pow2(i as nat),
        decreases retries - i,
    {
        proof {
            lemma2_to64();
            lemma_pow2_unfold((i + 1) as nat);
            lemma_pow2_strictly_increases((i + 1) as nat, 64);
        }
        secs = secs * 2;
        i += 1;
    }
    secs
}

/// The seconds to wait before a throttled request is sent again.
pub fn wait_secs(retries: u32, retry_after: Option<&str>) -> (secs: u64)
    requires
        retries < 64,
    ensures
        secs == retry_delay(
            retries,
            match retry_after {
                Some(text) => Some(text@),
                None => None,
            },
        ),
{
    let advertised = match retry_after {
        Some(text) => parse_u64(text),
        None => None,
    };
    match advertised {
        Some(secs) => secs,
        None => backoff_secs(retries),
    }
}

/// Where a lookup stands.
#[derive(Debug, Clone, PartialEq, Eq)]
pub enum FetchState {
    /// The request is out, or about to be sent, after this many repetitions.
    Attempt(u32),
    /// The lookup ended with what it found.
    Done(Option<RepoInfo>),
    /// The lookup failed.
    Fatal(FetchError),
}

/// The mathematical value of a [`FetchState`].
pub enum FetchStateView {
    Attempt(u32),
    Done(Option<RepoInfoView>),
    Fatal(FetchErrorView),
}

impl View for FetchState {
    type V = FetchStateView;

    open spec fn view(&self) -> FetchStateView {
        match self {
            FetchState::Attempt(n) => FetchStateView::Attempt(*n),
            FetchState::Done(info) => FetchStateView::Done(info.deep_view()),
            FetchState::Fatal(e) => FetchStateView::Fatal(e@),
        }
    }
}

/// What happened to a request.
#[derive(Debug, Clone, PartialEq, Eq)]
pub enum FetchEvent {
    /// An answer arrived, with this status and this `retry-after` header.
    Status { status: u16, retry_after: Option<String> },
    /// The body of the answer was read and decoded.
    Body(GitHubResponse),
    /// The request could not be sent, or the body could not be read.
    TransportFailure(String),
}

/// The mathematical value of a [`FetchEvent`]; a body counts as what it
/// says about the repository.
pub enum FetchEventView {
    Status { status: u16, retry_after: Option<Seq<char>> },
    Body(Option<RepoInfoView>),
    TransportFailure(Seq<char>),
}

impl View for FetchEvent {
    type V = FetchEventView;

    open spec fn view(&self) -> FetchEventView {
        match self {
            FetchEvent::Status { status, retry_after } => FetchEventView::Status {
                status: *status,
                retry_after: retry_after.deep_view(),
            },
            FetchEvent::Body(response) => FetchEventView::Body(repo_info_of(*response)),
            FetchEvent::TransportFailure(message) => FetchEventView::TransportFailure(message@),
        }
    }
}

/// What the caller does next.
#[derive(Debug, Clone, Copy, PartialEq, Eq)]
pub enum FetchAction {
    /// Send the request, and report its status or its failure.
    Send,
    /// Sleep for so many seconds, then send the request again.
    WaitThenSend { secs: u64 },
    /// Read and decode the body of the answer, and report it.
    ReadBody,
    /// Nothing: the lookup is over.
    Stop,
}

/// The state after an event. While an attempt is under way, throttling
/// leads to the next attempt or, once the repetitions are used up, to
/// failure; any other status but a success fails at once; a success leaves
/// the state as it is until the body is in; a body ends the lookup; a
/// transport failure fails it. A lookup that is over stays as it is.
pub open spec fn next_state(
    state: FetchStateView,
    event: FetchEventView,
    owner: Seq<char>,
    repo: Seq<char>,
) -> FetchStateView {
    match state {
        FetchStateView::Attempt(n) => match event {
            FetchEventView::Status { status, retry_after } => if is_throttling(status) {
                if n >= MAX_RETRIES {
                    FetchStateView::Fatal(FetchErrorView::RateLimited { owner, repo, retries: n })
                } else {
                    FetchStateView::Attempt((n + 1) as u32)
                }
            } else if !is_success(status) {
                FetchStateView::Fatal(FetchErrorView::ApiError { owner, repo, status })
            } else {
                state
            },
            FetchEventView::Body(info) => FetchStateView::Done(info),
            FetchEventView::TransportFailure(message) => FetchStateView::Fatal(
                FetchErrorView::TransportError { message },
            ),
        },
        _ => state,
    }
}

/// What the caller does after an event.
pub open spec fn next_action(state: FetchStateView, event: FetchEventView) -> FetchAction {
    match state {
        FetchStateView::Attempt(n) => match event {
            FetchEventView::Status { status, retry_after } => if is_throttling(status) {
                if n >= MAX_RETRIES {
                    FetchAction::Stop
                } else {
                    FetchAction::WaitThenSend { secs: retry_delay(n, retry_after) }
                }
            } else if !is_success(status) {
                FetchAction::Stop
            } else {
                FetchAction::ReadBody
            },
            _ => FetchAction::Stop,
        },
        _ => FetchAction::Stop,
    }
}

/// Takes in what happened to the request for `owner`/`repo`, and gives the
/// new state and what to do next.
pub fn step(state: FetchState, event: FetchEvent, owner: &str, repo: &str) -> (r: (
    FetchState,
    FetchAction,
))
    ensures
        r.0@ == next_state(state@, event@, owner@, repo@),
        r.1 == next_action(state@, event@),
{
    let n = match state {
        FetchState::Attempt(n) => n,
        FetchState::Done(info) => {
            return (FetchState::Done(info), FetchAction::Stop);
        },
        FetchState::Fatal(e) => {
            return (FetchState::Fatal(e), FetchAction::Stop);
        },
    };
    match event {
        FetchEvent::Status { status, retry_after } => {
            if status_is_throttling(status) {
                if n >= MAX_RETRIES {
                    let e = FetchError::RateLimited {
                        owner: owner.to_owned(),
                        repo: repo.to_owned(),
                        retries: n,
                    };
                    (FetchState::Fatal(e), FetchAction::Stop)
                } else {
                    let header = match &retry_after {
                        Some(text) => Some(text.as_str()),
                        None => None,
                    };
                    let secs = wait_secs(n, header);
                    (FetchState::Attempt(n + 1), FetchAction::WaitThenSend { secs })
                }
            } else if !status_is_success(status) {
                let e = FetchError::ApiError {
                    owner: owner.to_owned(),
                    repo: repo.to_owned(),
                    status,
                };
                (FetchState::Fatal(e), FetchAction::Stop)
            } else {
                (FetchState::Attempt(n), FetchAction::ReadBody)
            }
        },
        FetchEvent::Body(response) => {
            let info = repo_info_from_response(&response);
            (FetchState::Done(info), FetchAction::Stop)
        },
        FetchEvent::TransportFailure(message) => {
            (FetchState::Fatal(FetchError::TransportError { message }), FetchAction::Stop)
        },
    }
}

/// The value of the `Authorization` header that carries `token`.
pub fn authorization_header(token: &str) -> (r: String)
    ensures
        r@ == "Bearer "@ + token@,
{
    let mut header = "Bearer ".to_owned();
    header.append(token);
    header
}

/// One request to the API, as plain values.
#[derive(Debug, Clone, PartialEq, Eq)]
pub struct ApiRequest {
    /// The address that the request is posted to.
    pub url: String,
    /// The value of the `Authorization` header.
    pub authorization: String,
    /// The value of the `User-Agent` header.
    pub user_agent: String,
    /// The GraphQL document in the body.
    pub query: String,
    /// The variable `owner` in the body.
    pub owner: String,
    /// The variable `repo` in the body.
    pub repo: String,
}

/// The mathematical value of an [`ApiRequest`].
pub struct ApiRequestView {
    pub url: Seq<char>,
    pub authorization: Seq<char>,
    pub user_agent: Seq<char>,
    pub query: Seq<char>,
    pub owner: Seq<char>,
    pub repo: Seq<char>,
}

impl View for ApiRequest {
    type V = ApiRequestView;

    open spec fn view(&self) -> ApiRequestView {
        ApiRequestView {
            url: self.url@,
            authorization: self.authorization@,
            user_agent: self.user_agent@,
            query: self.query@,
            owner: self.owner@,
            repo: self.repo@,
        }
    }
}

/// The request that asks about `owner`/`repo` with `token`.
pub open spec fn request_of(token: Seq<char>, owner: Seq<char>, repo: Seq<char>) -> ApiRequestView {
    ApiRequestView {
        url: GITHUB_GRAPHQL_URL@,
        authorization: "Bearer "@ + token,
        user_agent: USER_AGENT@,
        query: SPONSOR_QUERY@,
        owner,
        repo,
    }
}

/// Makes up the request that asks about `owner`/`repo`: a post to the
/// fixed address, with the token as a bearer credential, the fixed client
/// name, the fixed document, and the repository as its variables.
pub fn request_for(token: &str, owner: &str, repo: &str) -> (r: ApiRequest)
    ensures
        r@ == request_of(token@, owner@, repo@),
{
    ApiRequest {
        url: GITHUB_GRAPHQL_URL.to_owned(),
        authorization: authorization_header(token),
        user_agent: USER_AGENT.to_owned(),
        query: SPONSOR_QUERY.to_owned(),
        owner: owner.to_owned(),
        repo: repo.to_owned(),
    }
}

/// Begins a lookup of `owner`/`repo`. Without a token nothing is sent and
/// the lookup is over at once, with nothing found; with one, the request
/// that carries it comes back, to be sent now and again after each wait.
pub fn start(token: Option<&str>, owner: &str, repo: &str) -> (r: (
    FetchState,
    FetchAction,
    Option<ApiRequest>,
))
    ensures
        token is None ==> r.0@ == FetchStateView::Done(None) && r.1 == FetchAction::Stop && r.2
            is None,
        token matches Some(t) ==> {
            &&& r.0@ == FetchStateView::Attempt(0)
            &&& r.1 == FetchAction::Send
            &&& r.2 is Some
            &&& r.2->0@ == request_of(t@, owner@, repo@)
        },
{
    match token {
        Some(t) => (FetchState::Attempt(0), FetchAction::Send, Some(request_for(t, owner, repo))),
        None => (FetchState::Done(None), FetchAction::Stop, None),
    }
}

/// The state after a run of events.
pub open spec fn run(
    state: FetchStateView,
    events: Seq<FetchEventView>,
    owner: Seq<char>,
    repo: Seq<char>,
) -> FetchStateView
    decreases events.len(),
{
    if events.len() == 0 {
        state
    } else {
        run(next_state(state, events.first(), owner, repo), events.drop_first(), owner, repo)
    }
}

/// How often the request is sent again over a run of events.
pub open spec fn resends(
    state: FetchStateView,
    events: Seq<FetchEventView>,
    owner: Seq<char>,
    repo: Seq<char>,
) -> nat
    decreases events.len(),
{
    if events.len() == 0 {
        0
    } else {
        let again: nat = if next_action(state, events.first()) is WaitThenSend {
            1
        } else {
            0
        };
        again + resends(
            next_state(state, events.first(), owner, repo),
            events.drop_first(),
            owner,
            repo,
        )
    }
}

/// Whether an event is an answer that tells the caller to slow down.
pub open spec fn is_throttled(event: FetchEventView) -> bool {
    event matches FetchEventView::Status { status, .. } && is_throttling(status)
}

/// Whether every event of a run is an answer that tells the caller to slow
/// down.
pub open spec fn all_throttled(events: Seq<FetchEventView>) -> bool {
    forall|i: int| 0 <= i < events.len() ==> is_throttled(#[trigger] events[i])
}

/// A lookup that is over stays as it is, and sends nothing more.
pub proof fn lemma_finished_stays(
    state: FetchStateView,
    events: Seq<FetchEventView>,
    owner: Seq<char>,
    repo: Seq<char>,
)
    requires
        !(state is Attempt),
    ensures
        run(state, events, owner, repo) == state,
        resends(state, events, owner, repo) == 0,
    decreases events.len(),
{
    if events.len() > 0 {
        lemma_finished_stays(state, events.drop_first(), owner, repo);
    }
}

/// Whatever happens, a request is sent again at most `MAX_RETRIES` times:
/// after `n` repetitions at most `MAX_RETRIES - n` more follow.
pub proof fn lemma_retry_budget(
    n: u32,
    events: Seq<FetchEventView>,
    owner: Seq<char>,
    repo: Seq<char>,
)
    requires
        n <= MAX_RETRIES,
    ensures
        n + resends(FetchStateView::Attempt(n), events, owner, repo) <= MAX_RETRIES,
    decreases events.len(),
{
    if events.len() > 0 {
        let state = FetchStateView::Attempt(n);
        let next = next_state(state, events.first(), owner, repo);
        match next {
            FetchStateView::Attempt(m) => {
                lemma_retry_budget(m, events.drop_first(), owner, repo);
            },
            _ => {
                lemma_finished_stays(next, events.drop_first(), owner, repo);
            },
        }
    }
}

/// After `n` repetitions, answers that throttle without end use up the
/// repetitions that are left and then fail the lookup as rate limited.
pub proof fn lemma_throttled_from(
    n: u32,
    events: Seq<FetchEventView>,
    owner: Seq<char>,
    repo: Seq<char>,
)
    requires
        n <= MAX_RETRIES,
        all_throttled(events),
        events.len() > MAX_RETRIES - n,
    ensures
        run(FetchStateView::Attempt(n), events, owner, repo) == FetchStateView::Fatal(
            FetchErrorView::RateLimited { owner, repo, retries: MAX_RETRIES },
        ),
        resends(FetchStateView::Attempt(n), events, owner, repo) == MAX_RETRIES - n,
    decreases events.len(),
{
    let state = FetchStateView::Attempt(n);
    let rest = events.drop_first();
    if n >= MAX_RETRIES {
        lemma_finished_stays(next_state(state, events.first(), owner, repo), rest, owner, repo);
    } else {
        lemma_throttled_from((n + 1) as u32, rest, owner, repo);
    }
}

/// Against a service that always throttles, the request goes out
/// `MAX_RETRIES + 1` times, the first time included, and the lookup fails as
/// rate limited.
pub proof fn lemma_always_throttled(events: Seq<FetchEventView>, owner: Seq<char>, repo: Seq<char>)
    requires
        all_throttled(events),
        events.len() > MAX_RETRIES,
    ensures
        run(FetchStateView::Attempt(0), events, owner, repo) == FetchStateView::Fatal(
            FetchErrorView::RateLimited { owner, repo, retries: MAX_RETRIES },
        ),
        1 + resends(FetchStateView::Attempt(0), events, owner, repo) == MAX_RETRIES + 1,
{
    lemma_throttled_from(0, events, owner, repo);
}

/// After `n` repetitions, a service that throttles a few times and then
/// answers makes the request go out once more for each throttling answer,
/// and the lookup ends with what the body says.
pub proof fn lemma_success_after_throttling(
    n: u32,
    throttled: Seq<FetchEventView>,
    status: u16,
    retry_after: Option<Seq<char>>,
    info: Option<RepoInfoView>,
    owner: Seq<char>,
    repo: Seq<char>,
)
    requires
        n + throttled.len() <= MAX_RETRIES,
        all_throttled(throttled),
        is_success(status),
    ensures
        run(
            FetchStateView::Attempt(n),
            throttled + seq![
                FetchEventView::Status { status, retry_after },
                FetchEventView::Body(info),
            ],
            owner,
            repo,
        ) == FetchStateView::Done(info),
        resends(
            FetchStateView::Attempt(n),
            throttled + seq![
                FetchEventView::Status { status, retry_after },
                FetchEventView::Body(info),
            ],
            owner,
            repo,
        ) == throttled.len(),
    decreases throttled.len(),
{
    let state = FetchStateView::Attempt(n);
    let tail = seq![FetchEventView::Status { status, retry_after }, FetchEventView::Body(info)];
    let events = throttled + tail;
    if throttled.len() == 0 {
        let after = tail.drop_first();
        assert(run(FetchStateView::Done(info), after.drop_first(), owner, repo)
            == FetchStateView::Done(info));
        assert(run(state, after, owner, repo) == FetchStateView::Done(info));
        assert(resends(FetchStateView::Done(info), after.drop_first(), owner, repo) == 0);
        assert(resends(state, after, owner, repo) == 0);
    } else {
        let rest = throttled.drop_first();
        assert(events.drop_first() =~= rest + tail);
        lemma_success_after_throttling(
            (n + 1) as u32,
            rest,
            status,
            retry_after,
            info,
            owner,
            repo,
        );
    }
}

} // verus!
