//! How many lookups are outstanding at a time, and which one goes out next.
//!
//! The scheduler launches nothing itself. It tells the caller to launch the
//! next target, to wait for one of the outstanding lookups, or to finish, and
//! the caller reports each lookup that has ended.

use vstd::prelude::*;

verus! {

/// The limit that is used where none is given.
pub const DEFAULT_CONCURRENCY: usize = 10;

/// Where the lookup of one target stands.
#[derive(Debug, Clone, Copy, PartialEq, Eq)]
pub enum TaskState {
    /// Not launched yet.
    Waiting,
    /// Launched, and not yet reported as ended.
    InFlight,
    /// Reported as ended.
    Done,
}

/// What the caller does next.
#[derive(Debug, Clone, Copy, PartialEq, Eq)]
pub enum SchedulerAction {
    /// Launch the lookup of the target at this index.
    Launch(usize),
    /// Wait until one of the outstanding lookups has ended, and report it.
    AwaitOne,
    /// Nothing: every target has been looked up.
    Finish,
}

/// How many of `tasks` are in `state`.
pub open spec fn count(tasks: Seq<TaskState>, state: TaskState) -> nat
    decreases tasks.len(),
{
    if tasks.len() == 0 {
        0
    } else {
        count(tasks.drop_last(), state) + if tasks.last() == state {
            1nat
        } else {
            0nat
        }
    }
}

/// The mathematical value of a [`Scheduler`]: the limit, and where each
/// target stands.
pub struct SchedulerView {
    pub limit: nat,
    pub tasks: Seq<TaskState>,
}

impl SchedulerView {
    /// The state before anything is launched. A limit of zero counts as
    /// one.
    pub open spec fn initial(total: nat, concurrency: nat) -> SchedulerView {
        SchedulerView {
            limit: if concurrency == 0 {
                1
            } else {
                concurrency
            },
            tasks: Seq::new(total, |i: int| TaskState::Waiting),
        }
    }

    /// How many lookups are outstanding.
    pub open spec fn in_flight(self) -> nat {
        count(self.tasks, TaskState::InFlight)
    }

    /// How many lookups have ended.
    pub open spec fn completed(self) -> nat {
        count(self.tasks, TaskState::Done)
    }

    /// How many targets have been launched.
    pub open spec fn dispatched(self) -> nat {
        (self.tasks.len() - count(self.tasks, TaskState::Waiting)) as nat
    }

    /// The limit is at least one, no more lookups are outstanding than it
    /// allows, and the targets were launched in their order: none
    /// waits before one that was launched. The targets can be counted in a
    /// `usize`.
    pub open spec fn wf(self) -> bool {
        &&& self.limit >= 1
        &&& self.tasks.len() <= usize::MAX
        &&& self.in_flight() <= self.limit
        &&& forall|i: int, j: int|
            0 <= i < j < self.tasks.len() && self.tasks[i] == TaskState::Waiting
                ==> self.tasks[j] == TaskState::Waiting
    }

    /// What the caller does next: launch the first waiting target while
    /// fewer lookups are outstanding than the limit allows; else wait for
    /// one of them; and finish when nothing waits and nothing is
    /// outstanding.
    pub open spec fn decide(self) -> SchedulerAction {
        if self.dispatched() < self.tasks.len() && self.in_flight() < self.limit {
            SchedulerAction::Launch(self.dispatched() as usize)
        } else if self.in_flight() > 0 {
            SchedulerAction::AwaitOne
        } else {
            SchedulerAction::Finish
        }
    }

    /// The state after the target at `index` went over to `state`.
    pub open spec fn with_task(self, index: int, state: TaskState) -> SchedulerView {
        SchedulerView { limit: self.limit, tasks: self.tasks.update(index, state) }
    }

    /// The state after the caller has been told what to do: a launched
    /// target is in flight, and nothing else changes.
    pub open spec fn after_decision(self) -> SchedulerView {
        match self.decide() {
            SchedulerAction::Launch(index) => self.with_task(index as int, TaskState::InFlight),
            _ => self,
        }
    }

    /// Whether a report that the lookup at `index` has ended is taken:
    /// only a lookup in flight can end.
    pub open spec fn accepts(self, index: int) -> bool {
        0 <= index < self.tasks.len() && self.tasks[index] == TaskState::InFlight
    }

    /// The state after the report that the lookup at `index` has ended.
    pub open spec fn after_completion(self, index: int) -> SchedulerView {
        if self.accepts(index) {
            self.with_task(index, TaskState::Done)
        } else {
            self
        }
    }

    /// The steps that are left at most: two for a waiting target, one for a
    /// lookup in flight.
    pub open spec fn steps_left(self) -> nat {
        2 * count(self.tasks, TaskState::Waiting) + count(self.tasks, TaskState::InFlight)
    }
}

/// Changing one task moves one from the count of its old state to the count
/// of its new state.
pub proof fn lemma_count_update(
    tasks: Seq<TaskState>,
    index: int,
    new_state: TaskState,
    state: TaskState,
)
    requires
        0 <= index < tasks.len(),
    ensures
        count(tasks.update(index, new_state), state) + (if tasks[index] == state {
            1nat
        } else {
            0nat
        }) == count(tasks, state) + (if new_state == state {
            1nat
        } else {
            0nat
        }),
    decreases tasks.len(),
{
    let updated = tasks.update(index, new_state);
    if index == tasks.len() - 1 {
        assert(updated.drop_last() =~= tasks.drop_last());
    } else {
        assert(updated.drop_last() =~= tasks.drop_last().update(index, new_state));
        lemma_count_update(tasks.drop_last(), index, new_state, state);
    }
}

/// Where the count of a state is not zero, a task is in that state.
pub proof fn lemma_counted_task(tasks: Seq<TaskState>, state: TaskState) -> (i: int)
    requires
        count(tasks, state) > 0,
    ensures
        0 <= i < tasks.len(),
        tasks[i] == state,
    decreases tasks.len(),
{
    if tasks.last() == state {
        tasks.len() - 1
    } else {
        lemma_counted_task(tasks.drop_last(), state)
    }
}

/// Every task is in exactly one of the three states.
pub proof fn lemma_counts_add_up(tasks: Seq<TaskState>)
    ensures
        count(tasks, TaskState::Waiting) + count(tasks, TaskState::InFlight) + count(
            tasks,
            TaskState::Done,
        ) == tasks.len(),
    decreases tasks.len(),
{
    if tasks.len() > 0 {
        lemma_counts_add_up(tasks.drop_last());
    }
}

/// Where as many tasks are in a state as there are tasks, each is in it.
pub proof fn lemma_count_all(tasks: Seq<TaskState>, state: TaskState)
    requires
        count(tasks, state) == tasks.len(),
    ensures
        forall|i: int| 0 <= i < tasks.len() ==> #[trigger] tasks[i] == state,
    decreases tasks.len(),
{
    if tasks.len() > 0 {
        lemma_counts_add_up(tasks.drop_last());
        assert(count(tasks.drop_last(), state) <= tasks.drop_last().len());
        lemma_count_all(tasks.drop_last(), state);
        assert forall|i: int| 0 <= i < tasks.len() implies #[trigger] tasks[i] == state by {
            if i < tasks.len() - 1 {
                assert(tasks.drop_last()[i] == tasks[i]);
            }
        }
    }
}

/// Where the targets were launched in their order, the number of launched
/// targets is the index of the first that waits.
pub proof fn lemma_first_waiting(v: SchedulerView)
    requires
        v.wf(),
    ensures
        v.dispatched() <= v.tasks.len(),
        forall|i: int| 0 <= i < v.tasks.len() ==> (#[trigger] v.tasks[i] == TaskState::Waiting <==> i
            >= v.dispatched()),
    decreases v.tasks.len(),
{
    lemma_counts_add_up(v.tasks);
    if v.tasks.len() > 0 {
        let earlier = SchedulerView { limit: v.limit + 1, tasks: v.tasks.drop_last() };
        lemma_first_waiting(earlier);
        lemma_counts_add_up(earlier.tasks);
        let last = v.tasks.len() - 1;
        assert forall|i: int| 0 <= i < v.tasks.len() implies (#[trigger] v.tasks[i]
            == TaskState::Waiting <==> i >= v.dispatched()) by {
            if i < last {
                assert(earlier.tasks[i] == v.tasks[i]);
            }
        }
    }
}

/// A decision keeps the state well formed. A launch takes the first target
/// that waits, puts it in flight, and still no more lookups are outstanding
/// than the limit allows; the caller is told to wait only while a lookup is
/// outstanding, so it never waits in vain; and it is told to finish exactly
/// when every target has ended.
pub proof fn lemma_decision(v: SchedulerView)
    requires
        v.wf(),
    ensures
        v.after_decision().wf(),
        v.after_decision().in_flight() <= v.limit,
        v.decide() matches SchedulerAction::Launch(index) ==> {
            &&& index == v.dispatched()
            &&& index < v.tasks.len()
            &&& v.tasks[index as int] == TaskState::Waiting
            &&& v.after_decision().in_flight() == v.in_flight() + 1
            &&& v.after_decision().dispatched() == v.dispatched() + 1
            &&& v.after_decision().steps_left() + 1 == v.steps_left()
        },
        v.decide() is AwaitOne ==> v.in_flight() > 0 && exists|i: int| v.accepts(i),
        v.decide() is Finish <==> v.completed() == v.tasks.len(),
        v.decide() is Finish <==> v.steps_left() == 0,
{
    lemma_first_waiting(v);
    lemma_counts_add_up(v.tasks);
    if v.in_flight() > 0 {
        let i = lemma_counted_task(v.tasks, TaskState::InFlight);
        assert(v.accepts(i));
    }
    match v.decide() {
        SchedulerAction::Launch(index) => {
            let d = v.dispatched() as int;
            lemma_count_update(v.tasks, d, TaskState::InFlight, TaskState::InFlight);
            lemma_count_update(v.tasks, d, TaskState::InFlight, TaskState::Waiting);
            lemma_count_update(v.tasks, d, TaskState::InFlight, TaskState::Done);
        },
        _ => {},
    }
}

/// A report that a lookup has ended keeps the state well formed. It is
/// taken only for a lookup in flight, so no target ends twice and none ends
/// that was not launched; a report that is taken frees one place and
/// brings the run one step closer to its end.
pub proof fn lemma_completion(v: SchedulerView, index: int)
    requires
        v.wf(),
    ensures
        v.after_completion(index).wf(),
        v.accepts(index) ==> {
            &&& v.after_completion(index).in_flight() + 1 == v.in_flight()
            &&& v.after_completion(index).completed() == v.completed() + 1
            &&& v.after_completion(index).dispatched() == v.dispatched()
            &&& v.after_completion(index).steps_left() + 1 == v.steps_left()
        },
        !v.accepts(index) ==> v.after_completion(index) == v,
{
    if v.accepts(index) {
        lemma_count_update(v.tasks, index, TaskState::Done, TaskState::InFlight);
        lemma_count_update(v.tasks, index, TaskState::Done, TaskState::Waiting);
        lemma_count_update(v.tasks, index, TaskState::Done, TaskState::Done);
    }
}

/// Before anything is launched the state is well formed, every target
/// waits, and two steps are left for each.
pub proof fn lemma_initial(total: nat, concurrency: nat)
    requires
        total <= usize::MAX,
    ensures
        SchedulerView::initial(total, concurrency).wf(),
        SchedulerView::initial(total, concurrency).in_flight() == 0,
        SchedulerView::initial(total, concurrency).completed() == 0,
        SchedulerView::initial(total, concurrency).dispatched() == 0,
        SchedulerView::initial(total, concurrency).steps_left() == 2 * total,
    decreases total,
{
    let v = SchedulerView::initial(total, concurrency);
    if total > 0 {
        let earlier = SchedulerView::initial((total - 1) as nat, concurrency);
        assert(v.tasks.drop_last() =~= earlier.tasks);
        lemma_initial((total - 1) as nat, concurrency);
    }
}

/// One thing that happens to a scheduler.
pub enum SchedulerStep {
    /// The caller asks what to do next.
    Decide,
    /// The caller reports that the lookup at this index has ended.
    Report(int),
}

/// The state after one step.
pub open spec fn after_step(v: SchedulerView, step: SchedulerStep) -> SchedulerView {
    match step {
        SchedulerStep::Decide => v.after_decision(),
        SchedulerStep::Report(index) => v.after_completion(index),
    }
}

/// The state after a run of steps.
pub open spec fn after_steps(v: SchedulerView, steps: Seq<SchedulerStep>) -> SchedulerView
    decreases steps.len(),
{
    if steps.len() == 0 {
        v
    } else {
        after_step(after_steps(v, steps.drop_last()), steps.last())
    }
}

/// Whether a task is where it was or one stage further: a waiting one in
/// flight, one in flight done.
pub open spec fn advanced(before: TaskState, after: TaskState) -> bool {
    ||| after == before
    ||| before == TaskState::Waiting && after == TaskState::InFlight
    ||| before == TaskState::InFlight && after == TaskState::Done
}

/// A step keeps the state well formed, keeps the limit and the number of
/// targets, and moves no task but forward by one stage.
pub proof fn lemma_step(v: SchedulerView, step: SchedulerStep)
    requires
        v.wf(),
    ensures
        after_step(v, step).wf(),
        after_step(v, step).limit == v.limit,
        after_step(v, step).tasks.len() == v.tasks.len(),
        after_step(v, step).steps_left() <= v.steps_left(),
        forall|i: int|
            0 <= i < v.tasks.len() ==> advanced(v.tasks[i], #[trigger] after_step(v, step).tasks[i]),
{
    lemma_decision(v);
    match step {
        SchedulerStep::Decide => {},
        SchedulerStep::Report(index) => {
            lemma_completion(v, index);
        },
    }
}

/// Whatever the caller asks and reports, in whatever order: at no time are
/// more lookups outstanding than the limit allows.
pub proof fn lemma_never_over_the_limit(total: nat, concurrency: nat, steps: Seq<SchedulerStep>)
    requires
        total <= usize::MAX,
    ensures
        after_steps(SchedulerView::initial(total, concurrency), steps).wf(),
        after_steps(SchedulerView::initial(total, concurrency), steps).in_flight()
            <= SchedulerView::initial(total, concurrency).limit,
        after_steps(SchedulerView::initial(total, concurrency), steps).tasks.len() == total,
        after_steps(SchedulerView::initial(total, concurrency), steps).limit
            == SchedulerView::initial(total, concurrency).limit,
    decreases steps.len(),
{
    lemma_initial(total, concurrency);
    if steps.len() > 0 {
        lemma_never_over_the_limit(total, concurrency, steps.drop_last());
        lemma_step(
            after_steps(SchedulerView::initial(total, concurrency), steps.drop_last()),
            steps.last(),
        );
    }
}

/// How many of the steps of a run changed the state.
pub open spec fn effective_steps(v: SchedulerView, steps: Seq<SchedulerStep>) -> nat
    decreases steps.len(),
{
    if steps.len() == 0 {
        0
    } else {
        let before = after_steps(v, steps.drop_last());
        effective_steps(v, steps.drop_last()) + if after_step(before, steps.last()) != before {
            1nat
        } else {
            0nat
        }
    }
}

/// Each step that changes anything brings the run one step closer to its
/// end: the steps that changed the state and the steps that are left add up
/// to two for each target. So a run ends: after a launch and one report for
/// each target nothing is left to do.
pub proof fn lemma_run_ends(total: nat, concurrency: nat, steps: Seq<SchedulerStep>)
    requires
        total <= usize::MAX,
    ensures
        effective_steps(SchedulerView::initial(total, concurrency), steps) + after_steps(
            SchedulerView::initial(total, concurrency),
            steps,
        ).steps_left() == 2 * total,
        effective_steps(SchedulerView::initial(total, concurrency), steps) == 2 * total
            <==> after_steps(SchedulerView::initial(total, concurrency), steps).decide() is Finish,
    decreases steps.len(),
{
    let start = SchedulerView::initial(total, concurrency);
    lemma_initial(total, concurrency);
    lemma_never_over_the_limit(total, concurrency, steps);
    lemma_decision(after_steps(start, steps));
    if steps.len() > 0 {
        let before = after_steps(start, steps.drop_last());
        lemma_run_ends(total, concurrency, steps.drop_last());
        lemma_never_over_the_limit(total, concurrency, steps.drop_last());
        lemma_decision(before);
        match steps.last() {
            SchedulerStep::Decide => {},
            SchedulerStep::Report(index) => {
                lemma_completion(before, index);
            },
        }
    }
}

/// The scheduler of one run: it knows the limit and where each target
/// stands.
#[derive(Debug)]
pub struct Scheduler {
    limit: usize,
    tasks: Vec<TaskState>,
    dispatched: usize,
    in_flight: usize,
}

impl View for Scheduler {
    type V = SchedulerView;

    closed spec fn view(&self) -> SchedulerView {
        SchedulerView { limit: self.limit as nat, tasks: self.tasks@ }
    }
}

impl Scheduler {
    #[verifier::type_invariant]
    spec fn consistent(self) -> bool {
        &&& self@.wf()
        &&& self.dispatched == self@.dispatched()
        &&& self.in_flight == self@.in_flight()
    }

    /// A scheduler for `total` targets of which at most `concurrency` are
    /// looked up at a time. A limit of zero counts as one.
    pub fn new(total: usize, concurrency: usize) -> (s: Scheduler)
        ensures
            s@ == SchedulerView::initial(total as nat, concurrency as nat),
            s@.wf(),
    {
        let limit = if concurrency == 0 {
            1
        } else {
            concurrency
        };
        let mut tasks: Vec<TaskState> = Vec::new();
        let mut i: usize = 0;
        while i < total
            invariant
                i <= total,
                tasks@ == Seq::new(i as nat, |k: int| TaskState::Waiting),
            decreases total - i,
        {
            tasks.push(TaskState::Waiting);
            i += 1;
        }
        proof {
            lemma_initial(total as nat, concurrency as nat);
        }
        Scheduler { limit, tasks, dispatched: 0, in_flight: 0 }
    }

    /// Says what to do next. Where that is a launch, the target counts as
    /// in flight from now on.
    pub fn next(self) -> (r: (Scheduler, SchedulerAction))
        ensures
            r.1 == self@.decide(),
            r.0@ == self@.after_decision(),
            r.0@.wf(),
            r.0@.in_flight() <= r.0@.limit,
    {
        proof {
            use_type_invariant(&self);
            lemma_decision(self@);
        }
        if self.dispatched < self.tasks.len() && self.in_flight < self.limit {
            let index = self.dispatched;
            let Scheduler { limit, tasks, dispatched, in_flight } = self;
            let mut tasks = tasks;
            tasks.set(index, TaskState::InFlight);
            (
                Scheduler { limit, tasks, dispatched: dispatched + 1, in_flight: in_flight + 1 },
                SchedulerAction::Launch(index),
            )
        } else if self.in_flight > 0 {
            (self, SchedulerAction::AwaitOne)
        } else {
            (self, SchedulerAction::Finish)
        }
    }

    /// Takes the report that the lookup at `index` has ended, and says
    /// whether it was taken: only a lookup in flight can end, and it ends
    /// once.
    pub fn complete(self, index: usize) -> (r: (Scheduler, bool))
        ensures
            r.1 == self@.accepts(index as int),
            r.0@ == self@.after_completion(index as int),
            r.0@.wf(),
            r.0@.in_flight() <= r.0@.limit,
    {
        proof {
            use_type_invariant(&self);
            lemma_completion(self@, index as int);
        }
        if index >= self.tasks.len() {
            return (self, false);
        }
        match self.tasks[index] {
            TaskState::InFlight => {
                let Scheduler { limit, tasks, dispatched, in_flight } = self;
                let mut tasks = tasks;
                tasks.set(index, TaskState::Done);
                (Scheduler { limit, tasks, dispatched, in_flight: in_flight - 1 }, true)
            },
            _ => (self, false),
        }
    }

    /// The number of lookups that may be outstanding at a time.
    pub fn limit(&self) -> (r: usize)
        ensures
            r == self@.limit,
            r >= 1,
    {
        proof {
            use_type_invariant(self);
        }
        self.limit
    }

    /// The number of targets.
    pub fn total(&self) -> (r: usize)
        ensures
            r == self@.tasks.len(),
    {
        self.tasks.len()
    }

    /// The number of lookups that are outstanding.
    pub fn in_flight(&self) -> (r: usize)
        ensures
            r == self@.in_flight(),
            r <= self@.limit,
    {
        proof {
            use_type_invariant(self);
        }
        self.in_flight
    }

    /// The number of targets that have been launched.
    pub fn dispatched(&self) -> (r: usize)
        ensures
            r == self@.dispatched(),
    {
        proof {
            use_type_invariant(self);
        }
        self.dispatched
    }

    /// The number of lookups that have ended.
    pub fn completed(&self) -> (r: usize)
        ensures
            r == self@.completed(),
    {
        proof {
            use_type_invariant(self);
            lemma_counts_add_up(self@.tasks);
        }
        self.dispatched - self.in_flight
    }

    /// Where the lookup of the target at `index` stands.
    pub fn task(&self, index: usize) -> (r: Option<TaskState>)
        ensures
            r == if index < self@.tasks.len() {
                Some(self@.tasks[index as int])
            } else {
                None
            },
    {
        if index < self.tasks.len() {
            Some(self.tasks[index])
        } else {
            None
        }
    }

    /// Whether every target has been looked up.
    pub fn is_finished(&self) -> (r: bool)
        ensures
            r == (self@.completed() == self@.tasks.len()),
            r == (self@.decide() is Finish),
    {
        proof {
            use_type_invariant(self);
            lemma_decision(self@);
            lemma_counts_add_up(self@.tasks);
        }
        self.dispatched == self.tasks.len() && self.in_flight == 0
    }
}

} // verus!
