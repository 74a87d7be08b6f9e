use cargo_sponsor::client::{
    authorization_header, backoff_secs, repo_info_from_response, request_for, start,
    status_is_success,
    status_is_throttling, step, wait_secs, FetchAction, FetchError, FetchEvent, FetchState,
    FundingLink, GitHubData, GitHubResponse, OwnerData, RepoInfo, RepositoryData,
    SponsorConnection, FORBIDDEN, GITHUB_GRAPHQL_URL, MAX_RETRIES, REQUEST_TIMEOUT_SECS,
    SPONSOR_QUERY, TOO_MANY_REQUESTS, USER_AGENT,
};

fn body(links: &[&str], has_listing: bool, sponsors: Option<u32>) -> GitHubResponse {
    GitHubResponse {
        data: Some(GitHubData {
            repository: Some(RepositoryData {
                funding_links: links.iter().map(|u| FundingLink { url: u.to_string() }).collect(),
                owner: OwnerData {
                    has_sponsors_listing: has_listing,
                    sponsors: sponsors.map(|n| SponsorConnection { total_count: n }),
                },
            }),
        }),
    }
}

fn status(code: u16, retry_after: Option<&str>) -> FetchEvent {
    FetchEvent::Status { status: code, retry_after: retry_after.map(|r| r.to_string()) }
}

/// A service that answers the n-th request with the n-th status of the script and, where the
/// status is a success, with the given body. The last entry answers every further request.
fn run_against(
    has_token: bool,
    script: &[(u16, Option<&str>)],
    answer: &GitHubResponse,
) -> (FetchState, usize, Vec<u64>) {
    let token = if has_token { Some("ghp_token") } else { None };
    let (mut state, mut action, request) = start(token, "foo", "bar");
    assert_eq!(request.is_some(), has_token);
    let mut calls = 0usize;
    let mut waits = Vec::new();
    for _ in 0..100 {
        let event = match action {
            FetchAction::Stop => return (state, calls, waits),
            FetchAction::Send => {
                calls += 1;
                let (code, header) = script[(calls - 1).min(script.len() - 1)];
                status(code, header)
            }
            FetchAction::WaitThenSend { secs } => {
                waits.push(secs);
                calls += 1;
                let (code, header) = script[(calls - 1).min(script.len() - 1)];
                status(code, header)
            }
            FetchAction::ReadBody => FetchEvent::Body(answer.clone()),
        };
        let next = step(state, event, "foo", "bar");
        state = next.0;
        action = next.1;
    }
    panic!("the lookup did not end");
}

#[test]
fn constants_are_those_of_the_api() {
    assert_eq!(MAX_RETRIES, 3);
    assert_eq!(TOO_MANY_REQUESTS, 429);
    assert_eq!(FORBIDDEN, 403);
    assert_eq!(REQUEST_TIMEOUT_SECS, 30);
    assert_eq!(GITHUB_GRAPHQL_URL, "https://api.github.com/graphql");
    assert_eq!(USER_AGENT, "cargo-sponsor");
    assert!(SPONSOR_QUERY.contains("repository(owner: $owner, name: $repo)"));
    assert!(SPONSOR_QUERY.contains("fundingLinks { url }"));
    assert!(SPONSOR_QUERY.contains("sponsors { totalCount }"));
}

#[test]
fn without_token_nothing_is_sent() {
    assert_eq!(start(None, "foo", "bar"), (FetchState::Done(None), FetchAction::Stop, None));
    let (state, calls, waits) = run_against(false, &[(200, None)], &body(&["https://x"], true, Some(1)));
    assert_eq!(state, FetchState::Done(None));
    assert_eq!(calls, 0);
    assert!(waits.is_empty());
}

#[test]
fn with_token_the_first_request_goes_out() {
    let (state, action, request) = start(Some("ghp_abc"), "foo", "bar");
    assert_eq!(state, FetchState::Attempt(0));
    assert_eq!(action, FetchAction::Send);
    assert_eq!(request, Some(request_for("ghp_abc", "foo", "bar")));
}

#[test]
fn two_throttled_answers_then_success_make_three_calls() {
    let answer = body(&["https://opencollective.com/bar"], true, Some(5));
    let (state, calls, waits) = run_against(true, &[(429, None), (429, None), (200, None)], &answer);
    assert_eq!(calls, 3);
    assert_eq!(waits, vec![1, 2]);
    assert_eq!(
        state,
        FetchState::Done(Some(RepoInfo {
            funding_links: vec!["https://opencollective.com/bar".to_string()],
            sponsor_count: Some(5),
        }))
    );
}

#[test]
fn endless_throttling_makes_max_retries_plus_one_calls() {
    let (state, calls, waits) = run_against(true, &[(429, None)], &body(&[], false, None));
    assert_eq!(calls, MAX_RETRIES as usize + 1);
    assert_eq!(waits, vec![1, 2, 4]);
    assert_eq!(
        state,
        FetchState::Fatal(FetchError::RateLimited {
            owner: "foo".to_string(),
            repo: "bar".to_string(),
            retries: 3,
        })
    );
}

#[test]
fn forbidden_counts_as_throttling() {
    let (state, calls, _) = run_against(true, &[(403, None)], &body(&[], false, None));
    assert_eq!(calls, 4);
    assert!(matches!(state, FetchState::Fatal(FetchError::RateLimited { retries: 3, .. })));
    assert!(status_is_throttling(403));
    assert!(status_is_throttling(429));
    assert!(!status_is_throttling(401));
    assert!(!status_is_throttling(500));
    assert!(!status_is_throttling(200));
}

#[test]
fn success_is_two_hundred_to_two_ninety_nine() {
    assert!(!status_is_success(199));
    assert!(status_is_success(200));
    assert!(status_is_success(204));
    assert!(status_is_success(299));
    assert!(!status_is_success(300));
    assert!(!status_is_success(0));
    assert!(!status_is_success(u16::MAX));
}

#[test]
fn backoff_doubles_with_each_retry() {
    assert_eq!(backoff_secs(0), 1);
    assert_eq!(backoff_secs(1), 2);
    assert_eq!(backoff_secs(2), 4);
    assert_eq!(backoff_secs(3), 8);
    assert_eq!(backoff_secs(10), 1024);
    assert_eq!(backoff_secs(63), 1u64 << 63);
}

#[test]
fn advertised_wait_wins_over_backoff() {
    assert_eq!(wait_secs(0, Some("7")), 7);
    assert_eq!(wait_secs(2, Some("0")), 0);
    assert_eq!(wait_secs(1, Some("120")), 120);
    assert_eq!(wait_secs(1, Some("+9")), 9);
    assert_eq!(wait_secs(1, Some("007")), 7);
    assert_eq!(wait_secs(1, Some("18446744073709551615")), u64::MAX);
}

#[test]
fn unreadable_wait_falls_back_to_backoff() {
    assert_eq!(wait_secs(0, None), 1);
    assert_eq!(wait_secs(2, None), 4);
    assert_eq!(wait_secs(2, Some("")), 4);
    assert_eq!(wait_secs(2, Some("soon")), 4);
    assert_eq!(wait_secs(2, Some(" 7")), 4);
    assert_eq!(wait_secs(2, Some("7 ")), 4);
    assert_eq!(wait_secs(2, Some("-7")), 4);
    assert_eq!(wait_secs(2, Some("+")), 4);
    assert_eq!(wait_secs(2, Some("7.5")), 4);
    assert_eq!(wait_secs(2, Some("1_000")), 4);
    assert_eq!(wait_secs(2, Some("18446744073709551616")), 4);
    assert_eq!(wait_secs(2, Some("Wed, 21 Oct 2015 07:28:00 GMT")), 4);
}

#[test]
fn throttled_attempt_waits_and_moves_on() {
    assert_eq!(
        step(FetchState::Attempt(0), status(429, Some("30")), "o", "r"),
        (FetchState::Attempt(1), FetchAction::WaitThenSend { secs: 30 })
    );
    assert_eq!(
        step(FetchState::Attempt(1), status(403, None), "o", "r"),
        (FetchState::Attempt(2), FetchAction::WaitThenSend { secs: 2 })
    );
    assert_eq!(
        step(FetchState::Attempt(2), status(429, Some("x")), "o", "r"),
        (FetchState::Attempt(3), FetchAction::WaitThenSend { secs: 4 })
    );
}

#[test]
fn throttled_last_attempt_is_rate_limited() {
    let (state, action) = step(FetchState::Attempt(3), status(429, Some("1")), "o", "r");
    assert_eq!(action, FetchAction::Stop);
    assert_eq!(
        state,
        FetchState::Fatal(FetchError::RateLimited {
            owner: "o".to_string(),
            repo: "r".to_string(),
            retries: 3
        })
    );
}

#[test]
fn other_failure_status_is_an_api_error_at_once() {
    for code in [500u16, 404, 401, 302, 199, 502] {
        let (state, calls, waits) = run_against(true, &[(code, Some("5"))], &body(&[], false, None));
        assert_eq!(calls, 1);
        assert!(waits.is_empty());
        assert_eq!(
            state,
            FetchState::Fatal(FetchError::ApiError {
                owner: "foo".to_string(),
                repo: "bar".to_string(),
                status: code,
            })
        );
    }
}

#[test]
fn success_status_asks_for_the_body() {
    assert_eq!(
        step(FetchState::Attempt(2), status(200, Some("9")), "o", "r"),
        (FetchState::Attempt(2), FetchAction::ReadBody)
    );
}

#[test]
fn transport_failure_ends_the_lookup() {
    let (state, action) = step(
        FetchState::Attempt(1),
        FetchEvent::TransportFailure("connection reset".to_string()),
        "o",
        "r",
    );
    assert_eq!(action, FetchAction::Stop);
    assert_eq!(
        state,
        FetchState::Fatal(FetchError::TransportError { message: "connection reset".to_string() })
    );
}

#[test]
fn finished_lookup_ignores_further_events() {
    let done = FetchState::Done(None);
    assert_eq!(step(done.clone(), status(429, None), "o", "r"), (done, FetchAction::Stop));
    let failed = FetchState::Fatal(FetchError::TransportError { message: "m".to_string() });
    assert_eq!(
        step(failed.clone(), FetchEvent::Body(body(&["l"], false, None)), "o", "r"),
        (failed, FetchAction::Stop)
    );
}

#[test]
fn body_without_repository_is_no_info() {
    assert_eq!(repo_info_from_response(&GitHubResponse { data: None }), None);
    assert_eq!(
        repo_info_from_response(&GitHubResponse { data: Some(GitHubData { repository: None }) }),
        None
    );
    assert_eq!(
        step(FetchState::Attempt(0), FetchEvent::Body(GitHubResponse { data: None }), "o", "r"),
        (FetchState::Done(None), FetchAction::Stop)
    );
}

#[test]
fn body_gives_links_in_order() {
    let info = repo_info_from_response(&body(&["https://a", "https://b", "https://a"], true, Some(12)));
    assert_eq!(
        info,
        Some(RepoInfo {
            funding_links: vec![
                "https://a".to_string(),
                "https://b".to_string(),
                "https://a".to_string()
            ],
            sponsor_count: Some(12),
        })
    );
}

#[test]
fn sponsor_count_needs_a_listing() {
    let info = repo_info_from_response(&body(&["https://a"], false, Some(12))).unwrap();
    assert_eq!(info.sponsor_count, None);
    let info = repo_info_from_response(&body(&["https://a"], true, None)).unwrap();
    assert_eq!(info.sponsor_count, None);
    let info = repo_info_from_response(&body(&[], true, Some(0))).unwrap();
    assert_eq!(info.sponsor_count, Some(0));
    assert!(info.funding_links.is_empty());
}

#[test]
fn error_messages_name_the_repository() {
    let e = FetchError::RateLimited { owner: "foo".to_string(), repo: "bar".to_string(), retries: 3 };
    assert_eq!(e.message(), "Rate limited after 3 retries for foo/bar");
    let e = FetchError::ApiError { owner: "foo".to_string(), repo: "bar".to_string(), status: 502 };
    assert_eq!(e.message(), "GitHub API error for foo/bar: 502");
    let e = FetchError::TransportError { message: "timed out".to_string() };
    assert_eq!(e.message(), "timed out");
    let e = FetchError::RateLimited { owner: "o".to_string(), repo: "r".to_string(), retries: 0 };
    assert_eq!(e.message(), "Rate limited after 0 retries for o/r");
    let e = FetchError::RateLimited {
        owner: "o".to_string(),
        repo: "r".to_string(),
        retries: u32::MAX,
    };
    assert_eq!(e.message(), "Rate limited after 4294967295 retries for o/r");
}

#[test]
fn authorization_header_is_a_bearer_token() {
    assert_eq!(authorization_header("ghp_abc"), "Bearer ghp_abc");
    assert_eq!(authorization_header(""), "Bearer ");
}

#[test]
fn request_carries_token_client_name_and_repository() {
    let request = request_for("ghp_abc", "foo", "bar");
    assert_eq!(request.url, "https://api.github.com/graphql");
    assert_eq!(request.authorization, "Bearer ghp_abc");
    assert_eq!(request.user_agent, "cargo-sponsor");
    assert_eq!(request.query, SPONSOR_QUERY);
    assert_eq!(request.owner, "foo");
    assert_eq!(request.repo, "bar");
}
