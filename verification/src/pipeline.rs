//! One run over all targets: the scheduler together with the report that
//! grows as the lookups end.

use crate::aggregator::{
    completion_record, lemma_report_ignores_order, outcome_view, process_result, record_of,
    report, warning_of, with_record, CompletionView, OutcomeView, SponsorInfo, SponsorInfoView,
};
use crate::client::{FetchError, RepoInfo};
use crate::collector::{FetchTarget, FetchTargetView};
use crate::scheduler::{
    lemma_completion, lemma_count_all, lemma_counts_add_up, lemma_decision, lemma_initial,
    Scheduler, SchedulerAction, SchedulerView, TaskState,
};
use vstd::prelude::*;
use vstd::seq_lib::{to_multiset_build, to_multiset_remove};

verus! {

/// The mathematical value of a [`Run`].
pub struct RunView {
    /// The limit, and where each target stands.
    pub scheduler: SchedulerView,
    /// The targets, in the order in which they are launched.
    pub targets: Seq<FetchTargetView>,
    /// The lookups that have ended, in the order in which they ended: the
    /// index of the target, and how the lookup ended.
    pub ended: Seq<(int, OutcomeView)>,
    /// The report so far.
    pub results: Seq<SponsorInfoView>,
}

impl RunView {
    /// The state before anything is launched.
    pub open spec fn initial(targets: Seq<FetchTargetView>, concurrency: nat) -> RunView {
        RunView {
            scheduler: SchedulerView::initial(targets.len(), concurrency),
            targets,
            ended: Seq::empty(),
            results: Seq::empty(),
        }
    }

    /// The lookups that have ended, each with its target.
    pub open spec fn completions(self) -> Seq<CompletionView> {
        Seq::new(
            self.ended.len(),
            |k: int| CompletionView { target: self.targets[self.ended[k].0], result: self.ended[k].1 },
        )
    }

    /// The scheduler is well formed and has a task for each target; the
    /// lookups that have ended are those of the targets that are done, each
    /// once; and the report is the report of exactly these lookups.
    pub open spec fn wf(self) -> bool {
        &&& self.scheduler.wf()
        &&& self.scheduler.tasks.len() == self.targets.len()
        &&& forall|k: int|
            0 <= k < self.ended.len() ==> 0 <= (#[trigger] self.ended[k]).0 < self.targets.len()
                && self.scheduler.tasks[self.ended[k].0] == TaskState::Done
        &&& forall|k1: int, k2: int|
            0 <= k1 < k2 < self.ended.len() ==> (#[trigger] self.ended[k1]).0
                != (#[trigger] self.ended[k2]).0
        &&& forall|i: int|
            0 <= i < self.targets.len() && #[trigger] self.scheduler.tasks[i] == TaskState::Done
                ==> self.has_ended(i)
        &&& self.results == report(self.completions())
    }

    /// Whether the lookup of the target at `index` is among those that
    /// have ended.
    pub open spec fn has_ended(self, index: int) -> bool {
        exists|k: int| 0 <= k < self.ended.len() && (#[trigger] self.ended[k]).0 == index
    }

    /// The state after the caller has been told what to do.
    pub open spec fn after_decision(self) -> RunView {
        RunView { scheduler: self.scheduler.after_decision(), ..self }
    }

    /// The state after the report that the lookup at `index` has ended
    /// with `outcome`. A report for a lookup that is not in flight changes
    /// nothing.
    pub open spec fn after_completion(self, index: int, outcome: OutcomeView) -> RunView {
        if self.scheduler.accepts(index) {
            RunView {
                scheduler: self.scheduler.after_completion(index),
                targets: self.targets,
                ended: self.ended.push((index, outcome)),
                results: with_record(
                    self.results,
                    record_of(
                        self.targets[index].package_name,
                        self.targets[index].repository_url,
                        outcome,
                    ),
                ),
            }
        } else {
            self
        }
    }

    /// The warning that the report of an ended lookup leaves behind.
    pub open spec fn warning_for(self, index: int, outcome: OutcomeView) -> Option<Seq<char>> {
        if self.scheduler.accepts(index) {
            warning_of(self.targets[index].owner, self.targets[index].repo_name, outcome)
        } else {
            None
        }
    }

    /// Whether every target has been looked up.
    pub open spec fn finished(self) -> bool {
        self.scheduler.decide() is Finish
    }

    /// Whether each lookup that has ended did so as `answers` says of its
    /// target.
    pub open spec fn answered_by(self, answers: spec_fn(int) -> OutcomeView) -> bool {
        forall|k: int| 0 <= k < self.ended.len() ==> (#[trigger] self.ended[k]).1 == answers(
            self.ended[k].0,
        )
    }
}

/// The lookups of all targets, in the order of the targets, where each
/// ends as `answers` says.
pub open spec fn answered(targets: Seq<FetchTargetView>, answers: spec_fn(int) -> OutcomeView) -> Seq<
    CompletionView,
> {
    Seq::new(targets.len(), |i: int| CompletionView { target: targets[i], result: answers(i) })
}

/// A run of all the targets, at most so many at a time.
pub struct Run {
    scheduler: Scheduler,
    targets: Vec<FetchTarget>,
    results: Vec<SponsorInfo>,
    ended: Ghost<Seq<(int, OutcomeView)>>,
}

impl View for Run {
    type V = RunView;

    closed spec fn view(&self) -> RunView {
        RunView {
            scheduler: self.scheduler@,
            targets: self.targets.deep_view(),
            ended: self.ended@,
            results: self.results.deep_view(),
        }
    }
}

/// Before anything is launched a run is well formed.
pub proof fn lemma_initial_run(targets: Seq<FetchTargetView>, concurrency: nat)
    requires
        targets.len() <= usize::MAX,
    ensures
        RunView::initial(targets, concurrency).wf(),
{
    let v = RunView::initial(targets, concurrency);
    lemma_initial(targets.len(), concurrency);
    lemma_counts_add_up(v.scheduler.tasks);
}

/// A decision keeps a run well formed, and leaves the report as it is.
pub proof fn lemma_run_decision(v: RunView)
    requires
        v.wf(),
    ensures
        v.after_decision().wf(),
        v.after_decision().results == v.results,
        v.after_decision().ended == v.ended,
{
    lemma_decision(v.scheduler);
}

/// The report of an ended lookup keeps a run well formed: the lookup
/// joins those that have ended, and its record, if it has one, the report.
pub proof fn lemma_run_completion(v: RunView, index: int, outcome: OutcomeView)
    requires
        v.wf(),
    ensures
        v.after_completion(index, outcome).wf(),
{
    lemma_completion(v.scheduler, index);
    if v.scheduler.accepts(index) {
        let after = v.after_completion(index, outcome);
        let added = CompletionView { target: v.targets[index], result: outcome };
        assert(after.completions().drop_last() =~= v.completions());
        assert(report(after.completions()) == with_record(
            report(v.completions()),
            completion_record(added),
        ));
        assert forall|i: int|
            0 <= i < after.targets.len() && #[trigger] after.scheduler.tasks[i]
                == TaskState::Done implies after.has_ended(i) by {
            if i != index {
                let k = choose|k: int| 0 <= k < v.ended.len() && (#[trigger] v.ended[k]).0 == i;
                assert(after.ended[k] == v.ended[k]);
            }
        }
    }
}

/// The values of `f` at the indices `idx`, in their order.
pub open spec fn picked<T>(idx: Seq<int>, f: spec_fn(int) -> T) -> Seq<T> {
    Seq::new(idx.len(), |k: int| f(idx[k]))
}

/// The values of `f` at the first `n` indices, in their order.
pub open spec fn listed<T>(n: nat, f: spec_fn(int) -> T) -> Seq<T> {
    Seq::new(n, |i: int| f(i))
}

/// Indices that name each of the first `n` numbers once pick the same
/// values as the numbers in their order, each as often.
proof fn lemma_picked_once<T>(idx: Seq<int>, n: nat, f: spec_fn(int) -> T)
    requires
        forall|k: int| 0 <= k < idx.len() ==> 0 <= #[trigger] idx[k] < n,
        forall|k1: int, k2: int|
            0 <= k1 < k2 < idx.len() ==> #[trigger] idx[k1] != #[trigger] idx[k2],
        forall|i: int| 0 <= i < n ==> #[trigger] idx.contains(i),
    ensures
        picked(idx, f).to_multiset() == listed(n, f).to_multiset(),
    decreases n,
{
    broadcast use vstd::multiset::group_multiset_axioms;

    if n == 0 {
        if idx.len() > 0 {
            assert(0 <= idx[0] < n);
        }
        assert(picked(idx, f) =~= listed(n, f));
    } else {
        let top = n - 1;
        assert(idx.contains(top));
        let k0 = choose|k: int| 0 <= k < idx.len() && idx[k] == top;
        let others = idx.remove(k0);
        assert forall|k1: int, k2: int| 0 <= k1 < k2 < others.len() implies #[trigger] others[k1]
            != #[trigger] others[k2] by {}
        assert forall|i: int| 0 <= i < top implies #[trigger] others.contains(i) by {
            assert(idx.contains(i));
            let k = choose|k: int| 0 <= k < idx.len() && idx[k] == i;
            if k < k0 {
                assert(others[k] == i);
            } else {
                assert(others[k - 1] == i);
            }
        }
        lemma_picked_once(others, top as nat, f);
        assert(picked(idx, f).remove(k0) =~= picked(others, f));
        to_multiset_remove(picked(idx, f), k0);
        assert(listed(n, f) =~= listed(top as nat, f).push(f(top)));
        to_multiset_build(listed(top as nat, f), f(top));
        picked(idx, f).to_multiset_ensures();
    }
}

/// When a run has finished, every target has been looked up once, and the
/// report holds the records of all these lookups: where each lookup ended
/// as `answers` says of its target, the report is, order aside, the report
/// of the targets taken in their own order.
pub proof fn lemma_finished_run(v: RunView, answers: spec_fn(int) -> OutcomeView)
    requires
        v.wf(),
        v.finished(),
        v.answered_by(answers),
    ensures
        forall|i: int| 0 <= i < v.targets.len() ==> v.has_ended(i),
        v.ended.len() == v.targets.len(),
        v.completions().to_multiset() == answered(v.targets, answers).to_multiset(),
        v.results.to_multiset() == report(answered(v.targets, answers)).to_multiset(),
{
    lemma_decision(v.scheduler);
    lemma_count_all(v.scheduler.tasks, TaskState::Done);
    let idx = Seq::new(v.ended.len(), |k: int| v.ended[k].0);
    let f = |i: int| CompletionView { target: v.targets[i], result: answers(i) };
    assert forall|i: int| 0 <= i < v.targets.len() implies v.has_ended(i) by {
        assert(v.scheduler.tasks[i] == TaskState::Done);
    }
    assert forall|i: int| 0 <= i < v.targets.len() implies #[trigger] idx.contains(i) by {
        assert(v.has_ended(i));
        let k = choose|k: int| 0 <= k < v.ended.len() && (#[trigger] v.ended[k]).0 == i;
        assert(idx[k] == i);
    }
    lemma_picked_once(idx, v.targets.len(), f);
    assert(picked(idx, f) =~= v.completions());
    assert(listed(v.targets.len(), f) =~= answered(v.targets, answers));
    v.completions().to_multiset_ensures();
    answered(v.targets, answers).to_multiset_ensures();
    lemma_report_ignores_order(v.completions(), answered(v.targets, answers));
}

/// Two runs over the same targets, against a service that answers the same
/// for each target, end with the same records, each as often in one report
/// as in the other; the order in which the lookups ended, and the limit,
/// make no difference.
pub proof fn lemma_runs_agree(a: RunView, b: RunView, answers: spec_fn(int) -> OutcomeView)
    requires
        a.wf(),
        b.wf(),
        a.finished(),
        b.finished(),
        a.targets == b.targets,
        a.answered_by(answers),
        b.answered_by(answers),
    ensures
        a.results.to_multiset() == b.results.to_multiset(),
{
    lemma_finished_run(a, answers);
    lemma_finished_run(b, answers);
}

impl Run {
    #[verifier::type_invariant]
    spec fn consistent(self) -> bool {
        self@.wf()
    }

    /// A run over `targets` with at most `concurrency` lookups at a time.
    /// A limit of zero counts as one.
    pub fn new(targets: Vec<FetchTarget>, concurrency: usize) -> (run: Run)
        ensures
            run@ == RunView::initial(targets.deep_view(), concurrency as nat),
            run@.wf(),
    {
        let scheduler = Scheduler::new(targets.len(), concurrency);
        let results: Vec<SponsorInfo> = Vec::new();
        proof {
            lemma_initial_run(targets.deep_view(), concurrency as nat);
            assert(results.deep_view() =~= Seq::<SponsorInfoView>::empty());
        }
        Run { scheduler, targets, results, ended: Ghost(Seq::empty()) }
    }

    /// Says what to do next. Where that is a launch, the target counts as
    /// in flight from now on.
    pub fn next(self) -> (r: (Run, SchedulerAction))
        ensures
            r.1 == self@.scheduler.decide(),
            r.0@ == self@.after_decision(),
            r.0@.wf(),
            r.1 matches SchedulerAction::Launch(index) ==> index < self@.targets.len(),
    {
        proof {
            use_type_invariant(&self);
            lemma_run_decision(self@);
            lemma_decision(self@.scheduler);
        }
        let Run { scheduler, targets, results, ended } = self;
        let (scheduler, action) = scheduler.next();
        (Run { scheduler, targets, results, ended }, action)
    }

    /// The target at `index`.
    pub fn target(&self, index: usize) -> (r: Option<&FetchTarget>)
        ensures
            r.deep_view() == if index < self@.targets.len() {
                Some(self@.targets[index as int])
            } else {
                None
            },
    {
        if index < self.targets.len() {
            Some(&self.targets[index])
        } else {
            None
        }
    }

    /// Takes in how the lookup of the target at `index` ended. Where that
    /// lookup was in flight, its record, if it has one, goes to the end of
    /// the report, and the warning to log, if there is one, comes back. A
    /// report for a lookup that is not in flight is passed over.
    pub fn complete(self, index: usize, result: Result<Option<RepoInfo>, FetchError>) -> (r: (
        Run,
        Option<String>,
    ))
        ensures
            r.0@ == self@.after_completion(index as int, outcome_view(result)),
            r.1.deep_view() == self@.warning_for(index as int, outcome_view(result)),
            r.0@.wf(),
    {
        proof {
            use_type_invariant(&self);
            lemma_run_completion(self@, index as int, outcome_view(result));
        }
        let ghost outcome = outcome_view(result);
        let Run { scheduler, targets, results, ended } = self;
        let (scheduler, accepted) = scheduler.complete(index);
        if !accepted {
            return (Run { scheduler, targets, results, ended }, None);
        }
        let mut results = results;
        let warning = process_result(
            &mut results,
            targets[index].package_name.clone(),
            targets[index].repository_url.clone(),
            targets[index].owner.as_str(),
            targets[index].repo_name.as_str(),
            result,
        );
        let ended = Ghost(ended@.push((index as int, outcome)));
        (Run { scheduler, targets, results, ended }, warning)
    }

    /// The number of targets.
    pub fn total(&self) -> (r: usize)
        ensures
            r == self@.targets.len(),
    {
        self.targets.len()
    }

    /// The number of lookups that have ended.
    pub fn completed(&self) -> (r: usize)
        ensures
            r == self@.scheduler.completed(),
    {
        self.scheduler.completed()
    }

    /// The number of lookups that are outstanding.
    pub fn in_flight(&self) -> (r: usize)
        ensures
            r == self@.scheduler.in_flight(),
            r <= self@.scheduler.limit,
    {
        self.scheduler.in_flight()
    }

    /// Whether every target has been looked up.
    pub fn is_finished(&self) -> (r: bool)
        ensures
            r == self@.finished(),
    {
        self.scheduler.is_finished()
    }

    /// The report: the records of the lookups that have ended, in the
    /// order in which they ended.
    pub fn into_results(self) -> (r: Vec<SponsorInfo>)
        ensures
            r.deep_view() == self@.results,
            r.deep_view() == report(self@.completions()),
    {
        proof {
            use_type_invariant(&self);
        }
        self.results
    }
}

} // verus!
