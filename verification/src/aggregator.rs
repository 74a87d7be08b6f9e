//! From the outcomes of the lookups to the report.

use crate::client::{error_message, FetchError, FetchErrorView, RepoInfo, RepoInfoView};
use crate::collector::{FetchTarget, FetchTargetView};
use vstd::prelude::*;
use vstd::seq_lib::{lemma_multiset_commutative, to_multiset_build};
use vstd::string::StringExecFns;

verus! {

/// A dependency that can be sponsored. It has at least one link.
#[derive(Debug, Clone, PartialEq, Eq)]
pub struct SponsorInfo {
    /// The name of the package.
    pub name: String,
    /// The repository URL that the package declares.
    pub repository: String,
    /// The funding links of the repository.
    pub sponsor_links: Vec<String>,
    /// The number of sponsors of the owner, where the owner lists them.
    pub sponsor_count: Option<u32>,
}

/// The mathematical value of a [`SponsorInfo`].
pub struct SponsorInfoView {
    pub name: Seq<char>,
    pub repository: Seq<char>,
    pub sponsor_links: Seq<Seq<char>>,
    pub sponsor_count: Option<u32>,
}

impl View for SponsorInfo {
    type V = SponsorInfoView;

    open spec fn view(&self) -> SponsorInfoView {
        SponsorInfoView {
            name: self.name@,
            repository: self.repository@,
            sponsor_links: self.sponsor_links.deep_view(),
            sponsor_count: self.sponsor_count,
        }
    }
}

impl DeepView for SponsorInfo {
    type V = SponsorInfoView;

    open spec fn deep_view(&self) -> SponsorInfoView {
        self@
    }
}

/// How a lookup ended, as a mathematical value.
pub type OutcomeView = Result<Option<RepoInfoView>, FetchErrorView>;

/// The mathematical value of the way a lookup ended.
pub open spec fn outcome_view(result: Result<Option<RepoInfo>, FetchError>) -> OutcomeView {
    match result {
        Ok(info) => Ok(info.deep_view()),
        Err(e) => Err(e@),
    }
}

/// A target together with the way its lookup ended.
#[derive(Debug, PartialEq, Eq)]
pub struct Completion {
    pub target: FetchTarget,
    pub result: Result<Option<RepoInfo>, FetchError>,
}

/// The mathematical value of a [`Completion`].
pub struct CompletionView {
    pub target: FetchTargetView,
    pub result: OutcomeView,
}

impl View for Completion {
    type V = CompletionView;

    open spec fn view(&self) -> CompletionView {
        CompletionView { target: self.target@, result: outcome_view(self.result) }
    }
}

impl DeepView for Completion {
    type V = CompletionView;

    open spec fn deep_view(&self) -> CompletionView {
        self@
    }
}

/// The record that a lookup is reported as: one only where it found at
/// least one funding link.
pub open spec fn record_of(name: Seq<char>, repository: Seq<char>, result: OutcomeView) -> Option<
    SponsorInfoView,
> {
    match result {
        Ok(Some(info)) => if info.funding_links.len() > 0 {
            Some(
                SponsorInfoView {
                    name,
                    repository,
                    sponsor_links: info.funding_links,
                    sponsor_count: info.sponsor_count,
                },
            )
        } else {
            None
        },
        _ => None,
    }
}

/// The warning that a lookup leaves behind: one only where it failed.
pub open spec fn warning_of(owner: Seq<char>, repo: Seq<char>, result: OutcomeView) -> Option<
    Seq<char>,
> {
    match result {
        Err(e) => Some(
            "Failed to fetch sponsor info for "@ + owner + "/"@ + repo + ": "@ + error_message(e),
        ),
        Ok(_) => None,
    }
}

/// `records` with `record` at its end, where there is one.
pub open spec fn with_record(records: Seq<SponsorInfoView>, record: Option<SponsorInfoView>) -> Seq<
    SponsorInfoView,
> {
    match record {
        Some(r) => records.push(r),
        None => records,
    }
}

/// Every record has at least one link.
pub open spec fn all_have_links(records: Seq<SponsorInfoView>) -> bool {
    forall|i: int| 0 <= i < records.len() ==> (#[trigger] records[i]).sponsor_links.len() > 0
}

/// Takes in the way one lookup ended. Where it found funding links, a
/// record for the package goes to the end of `results`; a lookup that found
/// nothing, or no link, leaves no trace; a failed one leaves `results` alone
/// too, and the warning to log comes back.
pub fn process_result(
    results: &mut Vec<SponsorInfo>,
    pkg_name: String,
    repo_url: String,
    owner: &str,
    repo: &str,
    result: Result<Option<RepoInfo>, FetchError>,
) -> (warning: Option<String>)
    ensures
        final(results).deep_view() == with_record(
            old(results).deep_view(),
            record_of(pkg_name@, repo_url@, outcome_view(result)),
        ),
        warning.deep_view() == warning_of(owner@, repo@, outcome_view(result)),
        result matches Ok(Some(info)) && info@.funding_links.len() == 0
            ==> final(results).deep_view() == old(results).deep_view(),
        all_have_links(old(results).deep_view()) ==> all_have_links(final(results).deep_view()),
{
    match result {
        Ok(Some(info)) => {
            if info.funding_links.len() > 0 {
                let ghost before = results.deep_view();
                let record = SponsorInfo {
                    name: pkg_name,
                    repository: repo_url,
                    sponsor_links: info.funding_links,
                    sponsor_count: info.sponsor_count,
                };
                results.push(record);
                assert(results.deep_view() =~= before.push(record@));
            }
            None
        },
        Ok(None) => None,
        Err(e) => {
            let mut warning = "Failed to fetch sponsor info for ".to_owned();
            warning.append(owner);
            warning.append("/");
            warning.append(repo);
            warning.append(": ");
            warning.append(e.message().as_str());
            Some(warning)
        },
    }
}

/// The record that a completion is reported as.
pub open spec fn completion_record(c: CompletionView) -> Option<SponsorInfoView> {
    record_of(c.target.package_name, c.target.repository_url, c.result)
}

/// The warning that a completion leaves behind.
pub open spec fn completion_warning(c: CompletionView) -> Option<Seq<char>> {
    warning_of(c.target.owner, c.target.repo_name, c.result)
}

/// [`completion_record`] as a function.
pub open spec fn record_fn() -> spec_fn(CompletionView) -> Option<SponsorInfoView> {
    |c: CompletionView| completion_record(c)
}

/// [`completion_warning`] as a function.
pub open spec fn warning_fn() -> spec_fn(CompletionView) -> Option<Seq<char>> {
    |c: CompletionView| completion_warning(c)
}

/// The report of a run: the records of the completions that have one, in
/// the order in which the lookups ended.
pub open spec fn report(completions: Seq<CompletionView>) -> Seq<SponsorInfoView> {
    completions.filter_map(record_fn())
}

/// The warnings of a run, in the order in which the lookups ended.
pub open spec fn warnings(completions: Seq<CompletionView>) -> Seq<Seq<char>> {
    completions.filter_map(warning_fn())
}

/// Shapes the outcomes of a run into its report, and collects the warnings
/// of the lookups that failed. A failed lookup never ends the run.
pub fn aggregate(completions: Vec<Completion>) -> (r: (Vec<SponsorInfo>, Vec<String>))
    ensures
        r.0.deep_view() == report(completions.deep_view()),
        r.1.deep_view() == warnings(completions.deep_view()),
        all_have_links(r.0.deep_view()),
{
    let mut results: Vec<SponsorInfo> = Vec::new();
    let mut warned: Vec<String> = Vec::new();
    let ghost all = completions.deep_view();
    let ghost raw = completions@;
    for completion in it: completions
        invariant
            it.seq() == raw,
            all.len() == raw.len(),
            forall|k: int| 0 <= k < raw.len() ==> all[k] == raw[k]@,
            results.deep_view() == report(all.take(it.index() as int)),
            warned.deep_view() == warnings(all.take(it.index() as int)),
            all_have_links(results.deep_view()),
    {
        let ghost i = it.index() as int;
        proof {
            assert(all.take(i + 1).drop_last() =~= all.take(i));
        }
        let Completion { target, result } = completion;
        let warning = process_result(
            &mut results,
            target.package_name,
            target.repository_url,
            target.owner.as_str(),
            target.repo_name.as_str(),
            result,
        );
        if let Some(w) = warning {
            warned.push(w);
        }
    }
    assert(all.take(all.len() as int) =~= all);
    (results, warned)
}

/// What a function keeps of a concatenation is what it keeps of the first
/// part, followed by what it keeps of the second.
proof fn lemma_filter_map_concat<A, B>(a: Seq<A>, b: Seq<A>, f: spec_fn(A) -> Option<B>)
    ensures
        (a + b).filter_map(f) == a.filter_map(f) + b.filter_map(f),
    decreases b.len(),
{
    if b.len() > 0 {
        assert((a + b).drop_last() =~= a + b.drop_last());
        lemma_filter_map_concat(a, b.drop_last(), f);
    }
}

/// The report with the completion at `j` is the report without it together
/// with the record of that completion, order aside.
proof fn lemma_report_without(completions: Seq<CompletionView>, j: int)
    requires
        0 <= j < completions.len(),
    ensures
        report(completions).to_multiset() == with_record(
            report(completions.remove(j)),
            completion_record(completions[j]),
        ).to_multiset(),
{
    broadcast use vstd::multiset::group_multiset_axioms;

    let f = record_fn();
    let head = completions.take(j);
    let one = seq![completions[j]];
    let tail = completions.skip(j + 1);
    assert(completions =~= (head + one) + tail);
    lemma_filter_map_concat(head, one, f);
    lemma_filter_map_concat(head + one, tail, f);
    lemma_filter_map_concat(head, tail, f);
    assert(one.drop_last().filter_map(f) =~= Seq::<SponsorInfoView>::empty());
    let kept = report(head);
    let rest = report(tail);
    match completion_record(completions[j]) {
        Some(r) => {
            assert(kept + seq![r] =~= kept.push(r));
            lemma_multiset_commutative(kept.push(r), rest);
            lemma_multiset_commutative(kept, rest);
            to_multiset_build(kept, r);
            to_multiset_build(kept + rest, r);
        },
        None => {},
    }
}

/// The order in which the lookups end does not change what is reported: two
/// runs whose completions are the same, in whatever order, report the same
/// records, each as often in one as in the other.
pub proof fn lemma_report_ignores_order(a: Seq<CompletionView>, b: Seq<CompletionView>)
    requires
        a.to_multiset() == b.to_multiset(),
    ensures
        report(a).to_multiset() == report(b).to_multiset(),
    decreases a.len(),
{
    a.to_multiset_ensures();
    b.to_multiset_ensures();
    if a.len() > 0 {
        let x = a.last();
        let earlier = a.drop_last();
        assert(a =~= earlier.push(x));
        assert(a.to_multiset().count(x) > 0);
        let j = choose|j: int| 0 <= j < b.len() && b[j] == x;
        let others = b.remove(j);
        earlier.to_multiset_ensures();
        assert(earlier.to_multiset() =~= a.to_multiset().remove(x));
        lemma_report_ignores_order(earlier, others);
        lemma_report_without(b, j);
        assert(report(a) == with_record(report(earlier), completion_record(x)));
        match completion_record(x) {
            Some(r) => {
                to_multiset_build(report(earlier), r);
                to_multiset_build(report(others), r);
            },
            None => {},
        }
    }
}

/// Where no lookup found anything, the report is empty.
pub proof fn lemma_nothing_found_gives_empty_report(completions: Seq<CompletionView>)
    requires
        forall|i: int| 0 <= i < completions.len() ==> (#[trigger] completions[i]).result == Ok::<
            Option<RepoInfoView>,
            FetchErrorView,
        >(None),
    ensures
        report(completions).len() == 0,
        warnings(completions).len() == 0,
    decreases completions.len(),
{
    if completions.len() > 0 {
        let earlier = completions.drop_last();
        lemma_nothing_found_gives_empty_report(earlier);
    }
}

} // verus!
