//! From the packages of a dependency graph to the repositories to ask about.

use crate::resolver::{extract_github_repo, resolve};
use crate::text::same_text;
use vstd::prelude::*;

verus! {

/// A package of the dependency graph, as far as the lookup reads it.
#[derive(Debug, Clone, PartialEq, Eq)]
pub struct Package {
    pub name: String,
    /// The repository URL that the package declares, if it declares one.
    pub repository: Option<String>,
    /// Whether the package is a member of the workspace itself.
    pub is_workspace_root: bool,
    /// The names of the packages that this one depends on directly.
    pub direct_dependencies: Vec<String>,
}

/// The mathematical value of a [`Package`].
pub struct PackageView {
    pub name: Seq<char>,
    pub repository: Option<Seq<char>>,
    pub is_workspace_root: bool,
    pub direct_dependencies: Seq<Seq<char>>,
}

impl View for Package {
    type V = PackageView;

    open spec fn view(&self) -> PackageView {
        PackageView {
            name: self.name@,
            repository: self.repository.deep_view(),
            is_workspace_root: self.is_workspace_root,
            direct_dependencies: self.direct_dependencies.deep_view(),
        }
    }
}

impl DeepView for Package {
    type V = PackageView;

    open spec fn deep_view(&self) -> PackageView {
        self@
    }
}

/// One repository to ask about, and the package it is reported under.
#[derive(Debug, Clone, PartialEq, Eq)]
pub struct FetchTarget {
    pub package_name: String,
    pub repository_url: String,
    pub owner: String,
    pub repo_name: String,
}

/// The mathematical value of a [`FetchTarget`].
pub struct FetchTargetView {
    pub package_name: Seq<char>,
    pub repository_url: Seq<char>,
    pub owner: Seq<char>,
    pub repo_name: Seq<char>,
}

impl View for FetchTarget {
    type V = FetchTargetView;

    open spec fn view(&self) -> FetchTargetView {
        FetchTargetView {
            package_name: self.package_name@,
            repository_url: self.repository_url@,
            owner: self.owner@,
            repo_name: self.repo_name@,
        }
    }
}

impl DeepView for FetchTarget {
    type V = FetchTargetView;

    open spec fn deep_view(&self) -> FetchTargetView {
        self@
    }
}

/// Whether a workspace root among `packages` bears `name`.
pub open spec fn names_a_root(packages: Seq<PackageView>, name: Seq<char>) -> bool {
    exists|i: int|
        0 <= i < packages.len() && (#[trigger] packages[i]).is_workspace_root && packages[i].name
            == name
}

/// Whether a workspace root among `packages` depends directly on `name`.
pub open spec fn is_direct_dependency(packages: Seq<PackageView>, name: Seq<char>) -> bool {
    exists|i: int|
        0 <= i < packages.len() && (#[trigger] packages[i]).is_workspace_root
            && packages[i].direct_dependencies.contains(name)
}

/// Whether `p` is a dependency to look up: it does not bear the name of a
/// workspace root and, where only the top level is wanted, a workspace root
/// depends on it directly.
pub open spec fn is_selected(packages: Seq<PackageView>, top_level_only: bool, p: PackageView) -> bool {
    !names_a_root(packages, p.name) && (top_level_only ==> is_direct_dependency(packages, p.name))
}

/// [`is_selected`] as a predicate on packages.
pub open spec fn selection(packages: Seq<PackageView>, top_level_only: bool) -> spec_fn(
    PackageView,
) -> bool {
    |p: PackageView| is_selected(packages, top_level_only, p)
}

/// The dependencies to look up, in the order of `packages`.
pub open spec fn selected(packages: Seq<PackageView>, top_level_only: bool) -> Seq<PackageView> {
    packages.filter(selection(packages, top_level_only))
}

/// Whether `name` stands in `list`.
pub fn contains_text(list: &Vec<String>, name: &str) -> (r: bool)
    ensures
        r == list.deep_view().contains(name@),
{
    let mut i: usize = 0;
    while i < list.len()
        invariant
            i <= list.len(),
            forall|k: int| 0 <= k < i ==> list.deep_view()[k] != name@,
        decreases list.len() - i,
    {
        if same_text(list[i].as_str(), name) {
            assert(list.deep_view()[i as int] == name@);
            return true;
        }
        i += 1;
    }
    false
}

/// Whether a workspace root among `packages` bears `name`.
pub fn is_root_name(packages: &Vec<Package>, name: &str) -> (r: bool)
    ensures
        r == names_a_root(packages.deep_view(), name@),
{
    let mut i: usize = 0;
    while i < packages.len()
        invariant
            i <= packages.len(),
            forall|k: int|
                0 <= k < i ==> !((#[trigger] packages.deep_view()[k]).is_workspace_root
                    && packages.deep_view()[k].name == name@),
        decreases packages.len() - i,
    {
        if packages[i].is_workspace_root && same_text(packages[i].name.as_str(), name) {
            assert(packages.deep_view()[i as int].is_workspace_root);
            return true;
        }
        i += 1;
    }
    false
}

/// Whether a workspace root among `packages` depends directly on `name`.
pub fn is_direct_dependency_name(packages: &Vec<Package>, name: &str) -> (r: bool)
    ensures
        r == is_direct_dependency(packages.deep_view(), name@),
{
    let mut i: usize = 0;
    while i < packages.len()
        invariant
            i <= packages.len(),
            forall|k: int|
                0 <= k < i ==> !((#[trigger] packages.deep_view()[k]).is_workspace_root
                    && packages.deep_view()[k].direct_dependencies.contains(name@)),
        decreases packages.len() - i,
    {
        if packages[i].is_workspace_root && contains_text(&packages[i].direct_dependencies, name) {
            assert(packages.deep_view()[i as int].is_workspace_root);
            return true;
        }
        i += 1;
    }
    false
}

/// Picks the dependencies to look up: every package but those that bear the
/// name of a workspace root and, with `top_level_only`, but those that no
/// workspace root depends on directly. The order of `packages` is kept.
pub fn select_dependencies<'a>(packages: &'a Vec<Package>, top_level_only: bool) -> (r: Vec<
    &'a Package,
>)
    ensures
        r.deep_view() == selected(packages.deep_view(), top_level_only),
{
    let mut out: Vec<&'a Package> = Vec::new();
    let ghost all = packages.deep_view();
    let ghost pred = selection(all, top_level_only);
    let mut i: usize = 0;
    proof {
        reveal(Seq::filter);
    }
    while i < packages.len()
        invariant
            i <= packages.len(),
            all == packages.deep_view(),
            pred == selection(all, top_level_only),
            out.deep_view() == all.take(i as int).filter(pred),
        decreases packages.len() - i,
    {
        let package = &packages[i];
        let keep = !is_root_name(packages, package.name.as_str()) && (!top_level_only
            || is_direct_dependency_name(packages, package.name.as_str()));
        proof {
            reveal(Seq::filter);
            assert(all.take(i + 1).drop_last() =~= all.take(i as int));
        }
        if keep {
            out.push(package);
        }
        i += 1;
    }
    assert(all.take(packages.len() as int) =~= all);
    out
}

/// Whether two targets stand for the same repository.
pub open spec fn same_repo(a: FetchTargetView, b: FetchTargetView) -> bool {
    a.owner == b.owner && a.repo_name == b.repo_name
}

/// Whether one of `targets` stands for the repository of `t`.
pub open spec fn has_repo(targets: Seq<FetchTargetView>, t: FetchTargetView) -> bool {
    exists|k: int| 0 <= k < targets.len() && same_repo(#[trigger] targets[k], t)
}

/// No two of `targets` stand for the same repository.
pub open spec fn distinct_repos(targets: Seq<FetchTargetView>) -> bool {
    forall|i: int, j: int|
        0 <= i < j < targets.len() ==> !same_repo(#[trigger] targets[i], #[trigger] targets[j])
}

/// `targets` with `t` at its end, unless its repository is there already.
pub open spec fn add_target(targets: Seq<FetchTargetView>, t: FetchTargetView) -> Seq<
    FetchTargetView,
> {
    if has_repo(targets, t) {
        targets
    } else {
        targets.push(t)
    }
}

/// The target that a package stands for on its own: it declares a
/// repository URL, and the URL points at a GitHub repository.
pub open spec fn candidate(p: PackageView) -> Option<FetchTargetView> {
    match p.repository {
        Some(url) => match resolve(url) {
            Some((owner, repo_name)) => Some(
                FetchTargetView { package_name: p.name, repository_url: url, owner, repo_name },
            ),
            None => None,
        },
        None => None,
    }
}

/// The targets of a list of dependencies: each repository once, under the
/// first package that points at it, in the order of those packages.
pub open spec fn collect_targets(deps: Seq<PackageView>) -> Seq<FetchTargetView>
    decreases deps.len(),
{
    if deps.len() == 0 {
        Seq::empty()
    } else {
        let earlier = collect_targets(deps.drop_last());
        match candidate(deps.last()) {
            Some(t) => add_target(earlier, t),
            None => earlier,
        }
    }
}

/// Whether one of `targets` stands for the repository `owner`/`repo_name`.
pub fn contains_repo(targets: &Vec<FetchTarget>, candidate: &FetchTarget) -> (r: bool)
    ensures
        r == has_repo(targets.deep_view(), candidate@),
{
    let mut k: usize = 0;
    while k < targets.len()
        invariant
            k <= targets.len(),
            forall|h: int| 0 <= h < k ==> !same_repo(#[trigger] targets.deep_view()[h], candidate@),
        decreases targets.len() - k,
    {
        if same_text(targets[k].owner.as_str(), candidate.owner.as_str()) && same_text(
            targets[k].repo_name.as_str(),
            candidate.repo_name.as_str(),
        ) {
            assert(same_repo(targets.deep_view()[k as int], candidate@));
            return true;
        }
        k += 1;
    }
    false
}

/// Puts `candidate` at the end of `targets` unless a target for its
/// repository is there already, and says whether it did.
pub fn push_if_new(targets: &mut Vec<FetchTarget>, candidate: FetchTarget) -> (added: bool)
    ensures
        final(targets).deep_view() == add_target(old(targets).deep_view(), candidate@),
        added == !has_repo(old(targets).deep_view(), candidate@),
        distinct_repos(old(targets).deep_view()) ==> distinct_repos(final(targets).deep_view()),
{
    if contains_repo(targets, &candidate) {
        false
    } else {
        targets.push(candidate);
        true
    }
}

/// Lists the repositories to ask about. A dependency without a repository
/// URL, or with one that points at no GitHub repository, is passed over, and
/// so is one whose repository an earlier dependency pointed at already: each
/// repository stands once, under the first package that named it, and the
/// targets keep the order of those packages.
pub fn collect_repos_to_fetch(deps: &[&Package]) -> (r: Vec<FetchTarget>)
    ensures
        r.deep_view() == collect_targets(deps.deep_view()),
        distinct_repos(r.deep_view()),
{
    let mut to_fetch: Vec<FetchTarget> = Vec::new();
    let ghost all = deps.deep_view();
    let mut i: usize = 0;
    while i < deps.len()
        invariant
            i <= deps.len(),
            all == deps.deep_view(),
            to_fetch.deep_view() == collect_targets(all.take(i as int)),
            distinct_repos(to_fetch.deep_view()),
        decreases deps.len() - i,
    {
        let package = deps[i];
        proof {
            assert(all.take(i + 1).drop_last() =~= all.take(i as int));
        }
        match &package.repository {
            Some(repo_url) => {
                match extract_github_repo(repo_url.as_str()) {
                    Some((owner, repo_name)) => {
                        let target = FetchTarget {
                            package_name: package.name.clone(),
                            repository_url: repo_url.clone(),
                            owner,
                            repo_name,
                        };
                        push_if_new(&mut to_fetch, target);
                    },
                    None => {},
                }
            },
            None => {},
        }
        i += 1;
    }
    assert(all.take(deps.len() as int) =~= all);
    to_fetch
}

/// Whether `p` points at the repository of `t`.
pub open spec fn points_at(p: PackageView, t: FetchTargetView) -> bool {
    candidate(p) matches Some(e) && same_repo(e, t)
}

/// Whether one of `deps` points at the repository of `t`.
pub open spec fn pointed_at(deps: Seq<PackageView>, t: FetchTargetView) -> bool {
    exists|i: int| 0 <= i < deps.len() && points_at(#[trigger] deps[i], t)
}

/// Whether the package at `i` stands for `t` and is the first of `deps` to
/// point at its repository.
pub open spec fn is_first_reference(deps: Seq<PackageView>, i: int, t: FetchTargetView) -> bool {
    &&& 0 <= i < deps.len()
    &&& candidate(deps[i]) == Some(t)
    &&& forall|h: int| 0 <= h < i ==> !points_at(#[trigger] deps[h], t)
}

/// Whether `t` is what the first of `deps` to point at its repository
/// stands for.
pub open spec fn has_first_reference(deps: Seq<PackageView>, t: FetchTargetView) -> bool {
    exists|i: int| #[trigger] is_first_reference(deps, i, t)
}

/// What the collected targets are: no repository stands twice; a repository
/// is among them exactly if a dependency points at it; each target is what
/// the first dependency pointing at its repository stands for, and each such
/// first dependency has its target; and the targets stand in the order of
/// those dependencies.
pub proof fn lemma_collect_targets(deps: Seq<PackageView>)
    ensures
        distinct_repos(collect_targets(deps)),
        forall|t: FetchTargetView| #[trigger]
            has_repo(collect_targets(deps), t) <==> pointed_at(deps, t),
        forall|k: int|
            0 <= k < collect_targets(deps).len() ==> has_first_reference(
                deps,
                #[trigger] collect_targets(deps)[k],
            ),
        forall|i: int, t: FetchTargetView| #[trigger]
            is_first_reference(deps, i, t) ==> collect_targets(deps).contains(t),
        forall|k1: int, k2: int, i1: int, i2: int|
            0 <= k1 < k2 < collect_targets(deps).len() && #[trigger] is_first_reference(
                deps,
                i1,
                collect_targets(deps)[k1],
            ) && #[trigger] is_first_reference(deps, i2, collect_targets(deps)[k2]) ==> i1 < i2,
    decreases deps.len(),
{
    let out = collect_targets(deps);
    if deps.len() > 0 {
        let prev = deps.drop_last();
        let n = prev.len() as int;
        let out_prev = collect_targets(prev);
        lemma_collect_targets(prev);
        assert forall|h: int| 0 <= h < n implies #[trigger] deps[h] == prev[h] by {}
        assert forall|i: int, t: FetchTargetView| 0 <= i < n implies (is_first_reference(deps, i, t)
            <==> is_first_reference(prev, i, t)) by {}
        match candidate(deps.last()) {
            None => {},
            Some(t0) => {
                if !has_repo(out_prev, t0) {
                    assert(is_first_reference(deps, n, t0));
                    assert(distinct_repos(out));
                    assert forall|t: FetchTargetView| #[trigger]
                        has_repo(out, t) <==> pointed_at(deps, t) by {
                        assert(has_repo(out_prev, t) <==> pointed_at(prev, t));
                        if pointed_at(deps, t) {
                            if pointed_at(prev, t) {
                                let k = choose|k: int|
                                    0 <= k < out_prev.len() && same_repo(#[trigger] out_prev[k], t);
                                assert(same_repo(out[k], t));
                            } else {
                                assert(same_repo(out[out_prev.len() as int], t));
                            }
                        }
                    }
                    assert forall|i: int, t: FetchTargetView| #[trigger]
                        is_first_reference(deps, i, t) implies out.contains(t) by {
                        if i == n {
                            assert(out[out_prev.len() as int] == t);
                        } else {
                            let k = choose|k: int| 0 <= k < out_prev.len() && out_prev[k] == t;
                            assert(out[k] == t);
                        }
                    }
                }
            },
        }
    }
}

/// Two dependencies that point at one repository give a single target, and
/// it is what the first dependency pointing there stands for: its package
/// name and its URL are those of that dependency.
pub proof fn lemma_shared_repository_gives_one_target(deps: Seq<PackageView>, i: int, j: int)
    requires
        0 <= i < j < deps.len(),
        candidate(deps[i]) is Some,
        candidate(deps[j]) is Some,
        same_repo(candidate(deps[i])->0, candidate(deps[j])->0),
    ensures
        exists|k: int, f: int|
            {
                &&& 0 <= k < collect_targets(deps).len()
                &&& same_repo(collect_targets(deps)[k], candidate(deps[i])->0)
                &&& 0 <= f <= i
                &&& #[trigger] is_first_reference(deps, f, collect_targets(deps)[k])
                &&& forall|k2: int|
                    0 <= k2 < collect_targets(deps).len() && same_repo(
                        #[trigger] collect_targets(deps)[k2],
                        candidate(deps[i])->0,
                    ) ==> k2 == k
            },
{
    let out = collect_targets(deps);
    let a = candidate(deps[i])->0;
    lemma_collect_targets(deps);
    assert(has_repo(out, a));
    let k = choose|k: int| 0 <= k < out.len() && same_repo(#[trigger] out[k], a);
    assert(has_first_reference(deps, out[k]));
}

} // verus!
