//! From a repository URL to the owner and name of a GitHub repository.

use crate::text::{same_text, trim_end_matches, without_trailing};
use vstd::prelude::*;

verus! {

/// What the resolver reads of a parsed URL.
#[derive(Debug, Clone, PartialEq, Eq)]
pub struct UrlParts {
    /// The host, where the URL has one.
    pub host: Option<String>,
    /// The segments of the path between its slashes, where the URL can be a
    /// base.
    pub path_segments: Option<Vec<String>>,
}

/// The mathematical value of a [`UrlParts`].
pub struct UrlPartsView {
    pub host: Option<Seq<char>>,
    pub path_segments: Option<Seq<Seq<char>>>,
}

impl View for UrlParts {
    type V = UrlPartsView;

    open spec fn view(&self) -> UrlPartsView {
        UrlPartsView {
            host: self.host.deep_view(),
            path_segments: self.path_segments.deep_view(),
        }
    }
}

/// The owner and name of a repository, as characters.
pub type RepoRef = (Seq<char>, Seq<char>);

/// The view of an optional pair of texts.
pub open spec fn repo_ref_view(r: Option<(String, String)>) -> Option<RepoRef> {
    match r {
        Some((owner, name)) => Some((owner@, name@)),
        None => None,
    }
}

/// The view of optional URL parts.
pub open spec fn parts_view(p: Option<UrlParts>) -> Option<UrlPartsView> {
    match p {
        Some(parts) => Some(parts@),
        None => None,
    }
}

/// The host and path segments that the `url` crate finds in a text, or
/// nothing where it rejects the text.
pub uninterp spec fn url_parts(url: Seq<char>) -> Option<UrlPartsView>;

/// `url::Url::parse`, read through `Url::host_str` and `Url::path_segments`.
/// The result is held to be a function of the text alone.
#[verifier::external_body]
fn split_url(repo_url: &str) -> (r: Option<UrlParts>)
    ensures
        parts_view(r) == url_parts(repo_url@),
{
    match url::Url::parse(repo_url) {
        Ok(parsed) => Some(UrlParts {
            host: parsed.host_str().map(|h| h.to_string()),
            path_segments: parsed.path_segments().map(|s| s.map(|p| p.to_string()).collect()),
        }),
        Err(_) => None,
    }
}

/// The repository that URL parts point at: the host is `github.com`, the
/// path has at least two segments, the first is the owner, and the second,
/// without any trailing `.git`, is the name.
pub open spec fn github_repo(parts: UrlPartsView) -> Option<RepoRef> {
    if parts.host == Some("github.com"@) && parts.path_segments is Some
        && parts.path_segments->0.len() >= 2 {
        Some(
            (
                parts.path_segments->0[0],
                without_trailing(parts.path_segments->0[1], ".git"@),
            ),
        )
    } else {
        None
    }
}

/// The repository that a URL points at, if it is one on GitHub.
pub open spec fn resolve(url: Seq<char>) -> Option<RepoRef> {
    match url_parts(url) {
        Some(parts) => github_repo(parts),
        None => None,
    }
}

/// Reads the owner and the name of a GitHub repository off the parts of a
/// URL. Any other host, a missing host and a path of fewer than two
/// segments give nothing.
pub fn repo_from_parts(parts: &UrlParts) -> (r: Option<(String, String)>)
    ensures
        repo_ref_view(r) == github_repo(parts@),
        parts@.host != Some("github.com"@) ==> r is None,
        parts@.path_segments is None ==> r is None,
        parts@.path_segments is Some && parts@.path_segments->0.len() < 2 ==> r is None,
{
    let host = match &parts.host {
        Some(h) => h,
        None => {
            return None;
        },
    };
    if !same_text(host.as_str(), "github.com") {
        return None;
    }
    let segments = match &parts.path_segments {
        Some(s) => s,
        None => {
            return None;
        },
    };
    if segments.len() < 2 {
        return None;
    }
    proof {
        reveal_strlit(".git");
    }
    let owner = segments[0].clone();
    let name = trim_end_matches(segments[1].as_str(), ".git").to_owned();
    Some((owner, name))
}

/// Resolves a repository URL to the owner and name of a GitHub repository.
/// A text that is no URL, a URL on another host and a path of fewer than two
/// segments give nothing; nothing is ever an error.
pub fn extract_github_repo(repo_url: &str) -> (r: Option<(String, String)>)
    ensures
        repo_ref_view(r) == resolve(repo_url@),
        url_parts(repo_url@) is None ==> r is None,
{
    match split_url(repo_url) {
        Some(parts) => repo_from_parts(&parts),
        None => None,
    }
}

/// A trailing `.git` on the repository's segment changes nothing: with and
/// without it the same owner and name come out. Where the name itself does
/// not end in `.git`, they are the first segment and that name.
pub proof fn lemma_git_suffix_ignored(
    owner: Seq<char>,
    name: Seq<char>,
    rest: Seq<Seq<char>>,
)
    ensures
        github_repo(
            UrlPartsView {
                host: Some("github.com"@),
                path_segments: Some(seq![owner, name + ".git"@] + rest),
            },
        ) == github_repo(
            UrlPartsView {
                host: Some("github.com"@),
                path_segments: Some(seq![owner, name] + rest),
            },
        ),
        !crate::text::ends_with(name, ".git"@) ==> github_repo(
            UrlPartsView {
                host: Some("github.com"@),
                path_segments: Some(seq![owner, name] + rest),
            },
        ) == Some((owner, name)),
{
    reveal_strlit(".git");
    let git = ".git"@;
    let long = name + git;
    assert(long.subrange(long.len() - git.len(), long.len() as int) =~= git);
    assert(long.subrange(0, long.len() - git.len()) =~= name);
}

} // verus!
