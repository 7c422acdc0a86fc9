use ib_registration::error::Error;
use ib_registration::error::EBUSY;
use ib_registration::error::EINVAL;
use ib_registration::error::ENOMEM;
use ib_registration::resource_set::Held;
use ib_registration::resource_set::Outcome;
use ib_registration::resource_set::ResourceSet;
use ib_registration::resource_set::Stage;
use ib_registration::resource_set::Step;

fn refused() -> Step {
    Step::Done(Err(Error { errno: EINVAL }))
}

/// Runs `set.acquire()` against a host that answers slot `i` with `script[i]`,
/// and returns every step the set asked for.
fn acquire_with(set: &mut ResourceSet, script: &[Outcome]) -> Vec<Step> {
    let mut steps = vec![set.acquire()];
    loop {
        let next = match steps[steps.len() - 1] {
            Step::Acquire(slot) => set.settle(script[slot]),
            Step::Release(_) => set.proceed(),
            Step::Done(_) => return steps,
        };
        steps.push(next);
    }
}

/// Runs `set.release()` to its end and returns every step the set asked for.
fn release_all(set: &mut ResourceSet) -> Vec<Step> {
    let mut steps = vec![set.release()];
    loop {
        let next = match steps[steps.len() - 1] {
            Step::Release(_) => set.proceed(),
            _ => return steps,
        };
        steps.push(next);
    }
}

#[test]
fn a_new_set_is_idle_and_empty() {
    let set = ResourceSet::new(4);
    assert_eq!(set.slots(), 4);
    assert_eq!(set.len(), 0);
    assert_eq!(set.stage(), Stage::Idle);
    assert_eq!(set.get(0), None);
}

#[test]
fn slots_are_attempted_in_order_and_logged() {
    let mut set = ResourceSet::new(3);
    assert_eq!(set.acquire(), Step::Acquire(0));
    assert_eq!(set.stage(), Stage::Acquiring(0));
    assert_eq!(set.settle(Outcome::Present(10)), Step::Acquire(1));
    assert_eq!(set.settle(Outcome::Present(11)), Step::Acquire(2));
    assert_eq!(set.stage(), Stage::Acquiring(2));
    assert_eq!(set.len(), 2);
    assert_eq!(set.settle(Outcome::Present(12)), Step::Done(Ok(())));
    assert_eq!(set.stage(), Stage::Idle);
    assert_eq!(set.len(), 3);
    assert_eq!(set.get(0), Some(Held { slot: 0, handle: 10 }));
    assert_eq!(set.get(1), Some(Held { slot: 1, handle: 11 }));
    assert_eq!(set.get(2), Some(Held { slot: 2, handle: 12 }));
    assert_eq!(set.get(3), None);
}

#[test]
fn a_set_without_slots_is_acquired_at_once() {
    let mut set = ResourceSet::new(0);
    assert_eq!(set.acquire(), Step::Done(Ok(())));
    assert_eq!(set.stage(), Stage::Idle);
    assert_eq!(set.release(), Step::Done(Ok(())));
}

#[test]
fn an_absent_sub_resource_is_passed_over() {
    let mut set = ResourceSet::new(3);
    let steps = acquire_with(
        &mut set,
        &[Outcome::Present(10), Outcome::Absent, Outcome::Present(12)],
    );
    assert_eq!(
        steps,
        vec![Step::Acquire(0), Step::Acquire(1), Step::Acquire(2), Step::Done(Ok(()))]
    );
    assert_eq!(set.len(), 2);
    assert_eq!(set.get(1), None);
    assert_eq!(
        release_all(&mut set),
        vec![
            Step::Release(Held { slot: 2, handle: 12 }),
            Step::Release(Held { slot: 0, handle: 10 }),
            Step::Done(Ok(())),
        ]
    );
}

#[test]
fn a_failure_releases_what_came_before_in_reverse() {
    let busy = Error { errno: EBUSY };
    let mut set = ResourceSet::new(4);
    let steps = acquire_with(
        &mut set,
        &[Outcome::Present(10), Outcome::Present(11), Outcome::Failed(busy), Outcome::Present(13)],
    );
    assert_eq!(
        steps,
        vec![
            Step::Acquire(0),
            Step::Acquire(1),
            Step::Acquire(2),
            Step::Release(Held { slot: 1, handle: 11 }),
            Step::Release(Held { slot: 0, handle: 10 }),
            Step::Done(Err(busy)),
        ]
    );
    assert_eq!(set.len(), 0);
    assert_eq!(set.stage(), Stage::Idle);
}

#[test]
fn a_failure_at_every_slot_in_turn() {
    let slots = 5;
    for k in 0..slots {
        let e = Error { errno: -(k as i32) - 1 };
        let mut script: Vec<Outcome> = (0..slots).map(|i| Outcome::Present(100 + i)).collect();
        script[k] = Outcome::Failed(e);
        let mut set = ResourceSet::new(slots);
        let steps = acquire_with(&mut set, &script);
        let mut expected: Vec<Step> = (0..=k).map(Step::Acquire).collect();
        for i in (0..k).rev() {
            expected.push(Step::Release(Held { slot: i, handle: 100 + i }));
        }
        expected.push(Step::Done(Err(e)));
        assert_eq!(steps, expected);
        assert_eq!(set.len(), 0);
        assert_eq!(set.stage(), Stage::Idle);
    }
}

#[test]
fn the_first_slot_failing_leaves_nothing_to_release() {
    let e = Error { errno: ENOMEM };
    let mut set = ResourceSet::new(2);
    assert_eq!(set.acquire(), Step::Acquire(0));
    assert_eq!(set.settle(Outcome::Failed(e)), Step::Done(Err(e)));
    assert_eq!(set.stage(), Stage::Idle);
    assert_eq!(set.len(), 0);
}

#[test]
fn an_absent_slot_is_not_released_when_a_later_one_fails() {
    let busy = Error { errno: EBUSY };
    let mut set = ResourceSet::new(3);
    let steps = acquire_with(
        &mut set,
        &[Outcome::Present(10), Outcome::Absent, Outcome::Failed(busy)],
    );
    assert_eq!(
        steps,
        vec![
            Step::Acquire(0),
            Step::Acquire(1),
            Step::Acquire(2),
            Step::Release(Held { slot: 0, handle: 10 }),
            Step::Done(Err(busy)),
        ]
    );
}

#[test]
fn the_set_is_in_the_unwinding_stage_while_it_rolls_back() {
    let busy = Error { errno: EBUSY };
    let mut set = ResourceSet::new(3);
    set.acquire();
    set.settle(Outcome::Present(1));
    set.settle(Outcome::Present(2));
    assert_eq!(set.settle(Outcome::Failed(busy)), Step::Release(Held { slot: 1, handle: 2 }));
    assert_eq!(set.stage(), Stage::Unwinding(busy));
    assert_eq!(set.len(), 1);
    assert_eq!(set.proceed(), Step::Release(Held { slot: 0, handle: 1 }));
    assert_eq!(set.stage(), Stage::Unwinding(busy));
    assert_eq!(set.proceed(), Step::Done(Err(busy)));
    assert_eq!(set.stage(), Stage::Idle);
}

#[test]
fn acquire_then_release_leaves_nothing_present() {
    let mut set = ResourceSet::new(4);
    let up = acquire_with(
        &mut set,
        &[Outcome::Present(1), Outcome::Present(2), Outcome::Absent, Outcome::Present(4)],
    );
    let down = release_all(&mut set);
    let acquired = set_aside(&up, false);
    let released = set_aside(&down, true);
    assert_eq!(acquired, 4);
    assert_eq!(released, 3);
    assert_eq!(set.len(), 0);
    assert_eq!(set.stage(), Stage::Idle);
    assert_eq!(
        down,
        vec![
            Step::Release(Held { slot: 3, handle: 4 }),
            Step::Release(Held { slot: 1, handle: 2 }),
            Step::Release(Held { slot: 0, handle: 1 }),
            Step::Done(Ok(())),
        ]
    );
}

fn set_aside(steps: &[Step], releases: bool) -> usize {
    steps
        .iter()
        .filter(|s| match s {
            Step::Release(_) => releases,
            Step::Acquire(_) => !releases,
            Step::Done(_) => false,
        })
        .count()
}

#[test]
fn release_after_a_failed_acquisition_finds_nothing() {
    let mut set = ResourceSet::new(2);
    acquire_with(&mut set, &[Outcome::Present(1), Outcome::Failed(Error { errno: EBUSY })]);
    assert_eq!(release_all(&mut set), vec![Step::Done(Ok(()))]);
}

#[test]
fn release_of_an_empty_set_ends_at_once() {
    let mut set = ResourceSet::new(3);
    assert_eq!(set.release(), Step::Done(Ok(())));
    assert_eq!(set.release(), Step::Done(Ok(())));
    assert_eq!(set.stage(), Stage::Idle);
}

#[test]
fn the_set_is_in_the_releasing_stage_while_it_is_torn_down() {
    let mut set = ResourceSet::new(2);
    acquire_with(&mut set, &[Outcome::Present(1), Outcome::Present(2)]);
    assert_eq!(set.release(), Step::Release(Held { slot: 1, handle: 2 }));
    assert_eq!(set.stage(), Stage::Releasing);
    assert_eq!(set.get(1), None);
    assert_eq!(set.get(0), Some(Held { slot: 0, handle: 1 }));
    assert_eq!(set.proceed(), Step::Release(Held { slot: 0, handle: 1 }));
    assert_eq!(set.proceed(), Step::Done(Ok(())));
    assert_eq!(set.stage(), Stage::Idle);
}

#[test]
fn a_set_that_holds_something_refuses_to_acquire() {
    let mut set = ResourceSet::new(2);
    acquire_with(&mut set, &[Outcome::Present(1), Outcome::Present(2)]);
    assert_eq!(set.acquire(), refused());
    assert_eq!(set.acquire(), refused());
    assert_eq!(set.len(), 2);
    assert_eq!(set.stage(), Stage::Idle);
    assert_eq!(set.get(0), Some(Held { slot: 0, handle: 1 }));
    assert_eq!(set.get(1), Some(Held { slot: 1, handle: 2 }));
}

#[test]
fn a_set_that_is_busy_refuses_to_acquire() {
    let mut set = ResourceSet::new(2);
    assert_eq!(set.acquire(), Step::Acquire(0));
    assert_eq!(set.acquire(), refused());
    assert_eq!(set.stage(), Stage::Acquiring(0));
    assert_eq!(set.settle(Outcome::Present(1)), Step::Acquire(1));
}

#[test]
fn an_outcome_that_was_not_asked_for_is_refused() {
    let mut set = ResourceSet::new(2);
    assert_eq!(set.settle(Outcome::Present(9)), refused());
    assert_eq!(set.settle(Outcome::Failed(Error { errno: EBUSY })), refused());
    assert_eq!(set.len(), 0);
    assert_eq!(set.stage(), Stage::Idle);
}

#[test]
fn going_on_without_a_release_under_way_is_refused() {
    let mut set = ResourceSet::new(2);
    assert_eq!(set.proceed(), refused());
    assert_eq!(set.acquire(), Step::Acquire(0));
    assert_eq!(set.proceed(), refused());
    assert_eq!(set.stage(), Stage::Acquiring(0));
}

#[test]
fn release_cuts_an_acquisition_short() {
    let mut set = ResourceSet::new(3);
    assert_eq!(set.acquire(), Step::Acquire(0));
    assert_eq!(set.settle(Outcome::Present(1)), Step::Acquire(1));
    assert_eq!(set.release(), Step::Release(Held { slot: 0, handle: 1 }));
    assert_eq!(set.proceed(), Step::Done(Ok(())));
    assert_eq!(set.len(), 0);
}

#[test]
fn a_set_can_be_acquired_again_after_a_rollback() {
    let mut set = ResourceSet::new(2);
    acquire_with(&mut set, &[Outcome::Present(1), Outcome::Failed(Error { errno: EBUSY })]);
    let steps = acquire_with(&mut set, &[Outcome::Present(3), Outcome::Present(4)]);
    assert_eq!(steps, vec![Step::Acquire(0), Step::Acquire(1), Step::Done(Ok(()))]);
    assert_eq!(set.get(0), Some(Held { slot: 0, handle: 3 }));
    assert_eq!(set.get(1), Some(Held { slot: 1, handle: 4 }));
}
