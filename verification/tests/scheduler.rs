use cargo_sponsor::scheduler::{Scheduler, SchedulerAction, TaskState, DEFAULT_CONCURRENCY};

/// Runs a scheduler to its end. When told to wait, the lookup that ends is picked among those in
/// flight by `pick`. Returns the order of the launches, the order of the completions and the
/// largest number of lookups that were in flight at once.
fn simulate(
    total: usize,
    concurrency: usize,
    pick: fn(&[usize]) -> usize,
) -> (Vec<usize>, Vec<usize>, usize) {
    let mut scheduler = Scheduler::new(total, concurrency);
    let mut flying: Vec<usize> = Vec::new();
    let mut launched = Vec::new();
    let mut ended = Vec::new();
    let mut most = 0;
    for _ in 0..(2 * total + 1) {
        let (next, action) = scheduler.next();
        scheduler = next;
        match action {
            SchedulerAction::Launch(index) => {
                launched.push(index);
                flying.push(index);
            }
            SchedulerAction::AwaitOne => {
                assert!(!flying.is_empty());
                let index = flying.remove(pick(&flying));
                let (next, accepted) = scheduler.complete(index);
                scheduler = next;
                assert!(accepted);
                ended.push(index);
            }
            SchedulerAction::Finish => {
                assert!(scheduler.is_finished());
                assert_eq!(scheduler.completed(), total);
                assert_eq!(scheduler.in_flight(), 0);
                return (launched, ended, most);
            }
        }
        assert_eq!(scheduler.in_flight(), flying.len());
        assert!(scheduler.in_flight() <= scheduler.limit());
        assert_eq!(scheduler.dispatched(), launched.len());
        assert_eq!(scheduler.completed(), ended.len());
        most = most.max(flying.len());
    }
    panic!("the run did not end");
}

fn oldest(_flying: &[usize]) -> usize {
    0
}

fn newest(flying: &[usize]) -> usize {
    flying.len() - 1
}

fn middle(flying: &[usize]) -> usize {
    flying.len() / 2
}

#[test]
fn default_limit_is_ten() {
    assert_eq!(DEFAULT_CONCURRENCY, 10);
}

#[test]
fn never_more_in_flight_than_the_limit() {
    for concurrency in 1..6usize {
        for total in 0..13usize {
            for pick in [oldest as fn(&[usize]) -> usize, newest, middle] {
                let (launched, ended, most) = simulate(total, concurrency, pick);
                assert_eq!(most, concurrency.min(total));
                assert_eq!(launched, (0..total).collect::<Vec<usize>>());
                let mut sorted = ended.clone();
                sorted.sort();
                assert_eq!(sorted, (0..total).collect::<Vec<usize>>());
            }
        }
    }
}

#[test]
fn limit_of_zero_counts_as_one() {
    let scheduler = Scheduler::new(3, 0);
    assert_eq!(scheduler.limit(), 1);
    let (launched, ended, most) = simulate(3, 0, oldest);
    assert_eq!(most, 1);
    assert_eq!(launched, vec![0, 1, 2]);
    assert_eq!(ended, vec![0, 1, 2]);
}

#[test]
fn nothing_to_do_finishes_at_once() {
    let scheduler = Scheduler::new(0, 10);
    assert!(scheduler.is_finished());
    let (scheduler, action) = scheduler.next();
    assert_eq!(action, SchedulerAction::Finish);
    assert_eq!(scheduler.total(), 0);
}

#[test]
fn launches_up_to_the_limit_then_waits() {
    let scheduler = Scheduler::new(5, 2);
    let (scheduler, action) = scheduler.next();
    assert_eq!(action, SchedulerAction::Launch(0));
    let (scheduler, action) = scheduler.next();
    assert_eq!(action, SchedulerAction::Launch(1));
    let (scheduler, action) = scheduler.next();
    assert_eq!(action, SchedulerAction::AwaitOne);
    let (scheduler, action) = scheduler.next();
    assert_eq!(action, SchedulerAction::AwaitOne);
    assert_eq!(scheduler.in_flight(), 2);
    assert_eq!(scheduler.dispatched(), 2);
    let (scheduler, accepted) = scheduler.complete(1);
    assert!(accepted);
    let (scheduler, action) = scheduler.next();
    assert_eq!(action, SchedulerAction::Launch(2));
    assert_eq!(scheduler.task(0), Some(TaskState::InFlight));
    assert_eq!(scheduler.task(1), Some(TaskState::Done));
    assert_eq!(scheduler.task(2), Some(TaskState::InFlight));
    assert_eq!(scheduler.task(3), Some(TaskState::Waiting));
    assert_eq!(scheduler.task(5), None);
}

#[test]
fn a_lookup_ends_only_once() {
    let scheduler = Scheduler::new(2, 2);
    let (scheduler, _) = scheduler.next();
    let (scheduler, accepted) = scheduler.complete(0);
    assert!(accepted);
    let (scheduler, accepted) = scheduler.complete(0);
    assert!(!accepted);
    assert_eq!(scheduler.completed(), 1);
    assert_eq!(scheduler.in_flight(), 0);
}

#[test]
fn a_lookup_that_was_not_launched_cannot_end() {
    let scheduler = Scheduler::new(2, 1);
    let (scheduler, accepted) = scheduler.complete(0);
    assert!(!accepted);
    let (scheduler, _) = scheduler.next();
    let (scheduler, accepted) = scheduler.complete(1);
    assert!(!accepted);
    let (scheduler, accepted) = scheduler.complete(2);
    assert!(!accepted);
    let (scheduler, accepted) = scheduler.complete(usize::MAX);
    assert!(!accepted);
    assert_eq!(scheduler.in_flight(), 1);
    assert_eq!(scheduler.completed(), 0);
    assert!(!scheduler.is_finished());
}

#[test]
fn wide_limit_launches_everything_before_waiting() {
    let (launched, ended, most) = simulate(4, 100, newest);
    assert_eq!(launched, vec![0, 1, 2, 3]);
    assert_eq!(ended, vec![3, 2, 1, 0]);
    assert_eq!(most, 4);
}
