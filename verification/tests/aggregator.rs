use cargo_sponsor::aggregator::{aggregate, process_result, Completion, SponsorInfo};
use cargo_sponsor::client::{FetchError, RepoInfo};
use cargo_sponsor::collector::FetchTarget;

fn info(links: &[&str], count: Option<u32>) -> RepoInfo {
    RepoInfo { funding_links: links.iter().map(|l| l.to_string()).collect(), sponsor_count: count }
}

fn record(name: &str, url: &str, links: &[&str], count: Option<u32>) -> SponsorInfo {
    SponsorInfo {
        name: name.to_string(),
        repository: url.to_string(),
        sponsor_links: links.iter().map(|l| l.to_string()).collect(),
        sponsor_count: count,
    }
}

fn completion(name: &str, result: Result<Option<RepoInfo>, FetchError>) -> Completion {
    Completion {
        target: FetchTarget {
            package_name: name.to_string(),
            repository_url: format!("https://github.com/o/{name}"),
            owner: "o".to_string(),
            repo_name: name.to_string(),
        },
        result,
    }
}

fn sorted(mut records: Vec<SponsorInfo>) -> Vec<SponsorInfo> {
    records.sort_by(|a, b| a.name.cmp(&b.name));
    records
}

#[test]
fn links_give_a_record() {
    let mut results = Vec::new();
    let warning = process_result(
        &mut results,
        "a".to_string(),
        "https://github.com/foo/bar".to_string(),
        "foo",
        "bar",
        Ok(Some(info(&["https://opencollective.com/bar"], Some(5)))),
    );
    assert_eq!(warning, None);
    assert_eq!(
        results,
        vec![record("a", "https://github.com/foo/bar", &["https://opencollective.com/bar"], Some(5))]
    );
}

#[test]
fn record_goes_to_the_end() {
    let mut results = vec![record("x", "ux", &["lx"], None)];
    process_result(&mut results, "y".to_string(), "uy".to_string(), "o", "y", Ok(Some(info(&["l1", "l2"], None))));
    assert_eq!(results, vec![record("x", "ux", &["lx"], None), record("y", "uy", &["l1", "l2"], None)]);
}

#[test]
fn empty_funding_links_give_no_record() {
    let mut results = vec![record("x", "ux", &["lx"], None)];
    let warning =
        process_result(&mut results, "y".to_string(), "uy".to_string(), "o", "y", Ok(Some(info(&[], Some(9)))));
    assert_eq!(warning, None);
    assert_eq!(results, vec![record("x", "ux", &["lx"], None)]);
}

#[test]
fn no_info_gives_no_record() {
    let mut results = Vec::new();
    let warning = process_result(&mut results, "y".to_string(), "uy".to_string(), "o", "y", Ok(None));
    assert_eq!(warning, None);
    assert!(results.is_empty());
}

#[test]
fn failure_gives_a_warning_and_no_record() {
    let mut results = vec![record("x", "ux", &["lx"], None)];
    let warning = process_result(
        &mut results,
        "y".to_string(),
        "uy".to_string(),
        "foo",
        "bar",
        Err(FetchError::ApiError { owner: "foo".to_string(), repo: "bar".to_string(), status: 500 }),
    );
    assert_eq!(
        warning,
        Some("Failed to fetch sponsor info for foo/bar: GitHub API error for foo/bar: 500".to_string())
    );
    assert_eq!(results, vec![record("x", "ux", &["lx"], None)]);
}

#[test]
fn each_kind_of_failure_is_warned_about() {
    let mut results = Vec::new();
    let warning = process_result(
        &mut results,
        "p".to_string(),
        "u".to_string(),
        "o",
        "r",
        Err(FetchError::RateLimited { owner: "o".to_string(), repo: "r".to_string(), retries: 3 }),
    );
    assert_eq!(
        warning,
        Some("Failed to fetch sponsor info for o/r: Rate limited after 3 retries for o/r".to_string())
    );
    let warning = process_result(
        &mut results,
        "p".to_string(),
        "u".to_string(),
        "o",
        "r",
        Err(FetchError::TransportError { message: "dns error".to_string() }),
    );
    assert_eq!(warning, Some("Failed to fetch sponsor info for o/r: dns error".to_string()));
    assert!(results.is_empty());
}

#[test]
fn aggregate_keeps_completion_order_and_drops_the_rest() {
    let completions = vec![
        completion("c", Ok(Some(info(&["lc"], Some(1))))),
        completion("e", Err(FetchError::TransportError { message: "reset".to_string() })),
        completion("a", Ok(Some(info(&["la1", "la2"], None)))),
        completion("n", Ok(None)),
        completion("z", Ok(Some(info(&[], Some(3))))),
        completion("b", Ok(Some(info(&["lb"], Some(0))))),
    ];
    let (records, warnings) = aggregate(completions);
    assert_eq!(
        records,
        vec![
            record("c", "https://github.com/o/c", &["lc"], Some(1)),
            record("a", "https://github.com/o/a", &["la1", "la2"], None),
            record("b", "https://github.com/o/b", &["lb"], Some(0)),
        ]
    );
    assert_eq!(warnings, vec!["Failed to fetch sponsor info for o/e: reset".to_string()]);
    assert!(records.iter().all(|r| !r.sponsor_links.is_empty()));
}

#[test]
fn aggregate_of_nothing_is_nothing() {
    let (records, warnings) = aggregate(Vec::new());
    assert!(records.is_empty());
    assert!(warnings.is_empty());
}

#[test]
fn aggregate_without_findings_is_empty() {
    let (records, warnings) = aggregate(vec![completion("a", Ok(None)), completion("b", Ok(None))]);
    assert!(records.is_empty());
    assert!(warnings.is_empty());
}

#[test]
fn order_of_completions_does_not_change_what_is_reported() {
    let make = |order: &[usize]| -> Vec<Completion> {
        order
            .iter()
            .map(|i| match i {
                0 => completion("a", Ok(Some(info(&["la"], Some(1))))),
                1 => completion("b", Ok(None)),
                2 => completion("c", Ok(Some(info(&["lc"], None)))),
                3 => completion("d", Err(FetchError::TransportError { message: "m".to_string() })),
                _ => completion("e", Ok(Some(info(&["le"], Some(7))))),
            })
            .collect()
    };
    let (first, _) = aggregate(make(&[0, 1, 2, 3, 4]));
    for order in [[4, 3, 2, 1, 0], [2, 0, 4, 1, 3], [1, 3, 0, 4, 2]] {
        let (other, _) = aggregate(make(&order));
        assert_eq!(sorted(other), sorted(first.clone()));
    }
    assert_eq!(first.len(), 3);
}
