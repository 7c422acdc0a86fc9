//! What a resource set asks of its host over a whole operation.
//!
//! The contracts of [`ResourceSet`](crate::resource_set::ResourceSet) say what
//! one step does. The lemmas here say what follows for a run of steps: which
//! requests a host sees, in which order, when it answers the attempts with a
//! given script of outcomes.

use vstd::prelude::*;
use crate::error::Error;
use crate::error::EINVAL;
use crate::resource_set::Event;
use crate::resource_set::Held;
use crate::resource_set::Outcome;
use crate::resource_set::SetState;
use crate::resource_set::Stage;
use crate::resource_set::Step;

verus! {

/// The reports of the outcomes in `script`, in order.
pub open spec fn reports(script: Seq<Outcome>) -> Seq<Event> {
    Seq::new(script.len(), |i: int| Event::Settled(script[i]))
}

/// `n` reports of a release carried out.
pub open spec fn acks(n: nat) -> Seq<Event> {
    Seq::new(n, |i: int| Event::Released)
}

/// The requests to attempt the slots below `k`, in slot order.
pub open spec fn attempts(k: nat) -> Seq<Step> {
    Seq::new(k, |i: int| Step::Acquire(i as usize))
}

/// The requests to release `held`, last acquired first.
pub open spec fn releases(held: Seq<Held>) -> Seq<Step> {
    Seq::new(held.len(), |i: int| Step::Release(held[held.len() - 1 - i]))
}

/// None of the first `k` outcomes of `script` is a failure.
pub open spec fn unfailing(script: Seq<Outcome>, k: nat) -> bool {
    forall|i: int| 0 <= i < k ==> !((#[trigger] script[i]) is Failed)
}

/// The sub-resources that the first `k` outcomes of `script` bring, slot `i`
/// being answered by `script[i]`: those reported present, in slot order.
pub open spec fn gained(script: Seq<Outcome>, k: nat) -> Seq<Held>
    decreases k,
{
    if k == 0 {
        Seq::empty()
    } else {
        let before = gained(script, (k - 1) as nat);
        match script[k - 1] {
            Outcome::Present(handle) => before.push(Held { slot: (k - 1) as usize, handle }),
            _ => before,
        }
    }
}

/// `gained` holds exactly the slots that were reported present, each once and
/// with the handle reported for it, in slot order.
pub proof fn lemma_gained(script: Seq<Outcome>, k: nat)
    requires
        k <= script.len(),
        k <= usize::MAX,
    ensures
        gained(script, k).len() <= k,
        forall|i: int|
            0 <= i < gained(script, k).len() ==> {
                let held = #[trigger] gained(script, k)[i];
                held.slot < k && script[held.slot as int] == Outcome::Present(held.handle)
            },
        forall|i: int, j: int|
            0 <= i < j < gained(script, k).len() ==> (#[trigger] gained(script, k)[i]).slot < (
            #[trigger] gained(script, k)[j]).slot,
        forall|slot: int|
            0 <= slot < k && (#[trigger] script[slot]) is Present ==> exists|i: int|
                0 <= i < gained(script, k).len() && (#[trigger] gained(script, k)[i]).slot == slot,
    decreases k,
{
    if k > 0 {
        let before = gained(script, (k - 1) as nat);
        lemma_gained(script, (k - 1) as nat);
        let now = gained(script, k);
        assert forall|slot: int| 0 <= slot < k && (#[trigger] script[slot]) is Present implies exists|
            i: int,
        | 0 <= i < now.len() && (#[trigger] now[i]).slot == slot by {
            if slot < k - 1 {
                let i = choose|i: int| 0 <= i < before.len() && (#[trigger] before[i]).slot == slot;
                assert(now[i].slot == slot);
            } else {
                assert(now[now.len() - 1].slot == slot);
            }
        }
    }
}

/// Running a sequence of events is running its first part and then the rest.
pub proof fn lemma_run_append(s: SetState, first: Seq<Event>, rest: Seq<Event>)
    ensures
        s.run(first + rest) == ({
            let (mid, steps) = s.run(first);
            let (end, more) = mid.run(rest);
            (end, steps + more)
        }),
    decreases rest.len(),
{
    if rest.len() == 0 {
        assert(first + rest =~= first);
    } else {
        assert((first + rest).drop_last() =~= first + rest.drop_last());
        lemma_run_append(s, first, rest.drop_last());
    }
}

/// Running a single event is taking one step.
pub proof fn lemma_run_one(s: SetState, event: Event)
    ensures
        s.run(seq![event]) == (s.step(event).0, seq![s.step(event).1]),
{
    let events = seq![event];
    assert(s.run(events.drop_last()) == (s, Seq::<Step>::empty()));
}

/// Every step keeps the log in order: no slot is ever logged twice.
pub proof fn lemma_step_keeps_order(s: SetState, event: Event)
    requires
        s.wf(),
    ensures
        s.step(event).0.wf(),
        s.step(event).0.slots == s.slots,
{
}

/// Whatever a set is told, its log stays in order: no sub-resource that is
/// present is acquired again, and none is handed out for release twice.
pub proof fn lemma_run_keeps_order(s: SetState, events: Seq<Event>)
    requires
        s.wf(),
    ensures
        s.run(events).0.wf(),
        s.run(events).0.slots == s.slots,
    decreases events.len(),
{
    if events.len() > 0 {
        lemma_run_keeps_order(s, events.drop_last());
        lemma_step_keeps_order(s.run(events.drop_last()).0, events.last());
    }
}

/// A set that holds something, or is busy, refuses to acquire: it stays as it is and asks
/// nothing of the host, however often it is told.
pub proof fn lemma_acquire_refused(s: SetState)
    requires
        !s.vacant(),
    ensures
        s.step(Event::Acquire) == (s, Step::Done(Err(Error { errno: EINVAL }))),
        s.run(seq![Event::Acquire, Event::Acquire]) == (
            s,
            seq![Step::Done(Err(Error { errno: EINVAL })), Step::Done(Err(Error { errno: EINVAL }))],
        ),
{
    let twice = seq![Event::Acquire, Event::Acquire];
    assert(twice.drop_last() =~= seq![Event::Acquire]);
    lemma_run_one(s, Event::Acquire);
}

/// While no attempt fails, the slots are attempted one by one in slot order, and
/// what was reported present is logged.
pub proof fn lemma_acquiring(slots: usize, script: Seq<Outcome>, k: nat)
    requires
        k < slots,
        k <= script.len(),
        unfailing(script, k),
    ensures
        SetState::fresh(slots).run(seq![Event::Acquire] + reports(script.take(k as int))) == (
            SetState { slots, held: gained(script, k), stage: Stage::Acquiring(k as usize) },
            attempts(k + 1),
        ),
    decreases k,
{
    let fresh = SetState::fresh(slots);
    let events = seq![Event::Acquire] + reports(script.take(k as int));
    if k == 0 {
        lemma_run_one(fresh, Event::Acquire);
    } else {
        let j = (k - 1) as nat;
        lemma_acquiring(slots, script, j);
        let shorter = seq![Event::Acquire] + reports(script.take(j as int));
        assert(events.drop_last() =~= shorter);
    }
}

/// When no attempt fails, every slot is attempted once, in slot order, and the
/// operation succeeds. An absent sub-resource is no failure.
pub proof fn lemma_acquire_succeeds(slots: usize, script: Seq<Outcome>)
    requires
        script.len() == slots,
        unfailing(script, slots as nat),
    ensures
        SetState::fresh(slots).run(seq![Event::Acquire] + reports(script)) == (
            SetState { slots, held: gained(script, slots as nat), stage: Stage::Idle },
            attempts(slots as nat).push(Step::Done(Ok(()))),
        ),
{
    let fresh = SetState::fresh(slots);
    let events = seq![Event::Acquire] + reports(script);
    if slots == 0 {
        lemma_run_one(fresh, Event::Acquire);
    } else {
        let j = (slots - 1) as nat;
        lemma_acquiring(slots, script, j);
        let shorter = seq![Event::Acquire] + reports(script.take(j as int));
        assert(events.drop_last() =~= shorter);
    }
}

/// Once a set hands out its log, it hands out all of it, last acquired first,
/// and then ends with the verdict of the operation.
///
/// `first` is the step that started it, `s` the state it left.
proof fn lemma_draining(s: SetState, held: Seq<Held>, first: Step, verdict: Result<(), Error>)
    requires
        match verdict {
            Ok(()) => s.stage is Releasing || held.len() == 0,
            Err(e) => s.stage == Stage::Unwinding(e) || held.len() == 0,
        },
        held.len() == 0 ==> s.held.len() == 0 && s.stage is Idle && first == Step::Done(verdict),
        held.len() > 0 ==> s.held == held.drop_last() && first == Step::Release(held.last()),
    ensures
        s.run(acks(held.len())).0 == SetState::fresh(s.slots),
        seq![first] + s.run(acks(held.len())).1 == releases(held).push(Step::Done(verdict)),
    decreases held.len(),
{
    if held.len() > 0 {
        let rest = held.drop_last();
        let (next, second) = s.step(Event::Released);
        assert((next, second) == s.drain(s.stage, verdict)) by {
            match verdict {
                Ok(unit) => {
                    assert(unit == ());
                    assert(s.stage == Stage::Releasing);
                },
                Err(e) => {
                    assert(s.stage == Stage::Unwinding(e));
                },
            }
        }
        lemma_draining(next, rest, second, verdict);
        assert(acks(held.len()) =~= seq![Event::Released] + acks(rest.len()));
        lemma_run_append(s, seq![Event::Released], acks(rest.len()));
        lemma_run_one(s, Event::Released);
        assert(seq![first] + releases(rest).push(Step::Done(verdict)) =~= releases(held).push(
            Step::Done(verdict),
        ));
    }
}

/// Teardown releases everything that is present, last acquired first and each
/// sub-resource once, whatever the set was doing; it does not fail, and
/// nothing is left.
pub proof fn lemma_release_reverses(s: SetState)
    ensures
        s.run(seq![Event::Release] + acks(s.held.len())) == (
            SetState::fresh(s.slots),
            releases(s.held).push(Step::Done(Ok(()))),
        ),
{
    let (next, first) = s.step(Event::Release);
    lemma_draining(next, s.held, first, Ok(()));
    lemma_run_one(s, Event::Release);
    lemma_run_append(s, seq![Event::Release], acks(s.held.len()));
}

/// When the attempt for slot `k` fails, the slots up to `k` have been attempted in
/// slot order and no other; what the earlier attempts brought is released, last
/// acquired first; the operation ends with the error as it was reported; and the
/// set is as it was before.
pub proof fn lemma_rollback(slots: usize, script: Seq<Outcome>, k: nat, e: Error)
    requires
        k < slots,
        script.len() == k + 1,
        unfailing(script, k),
        script[k as int] == Outcome::Failed(e),
    ensures
        SetState::fresh(slots).run(
            seq![Event::Acquire] + reports(script) + acks(gained(script, k).len()),
        ) == (
            SetState::fresh(slots),
            attempts(k + 1) + releases(gained(script, k)).push(Step::Done(Err(e))),
        ),
{
    let fresh = SetState::fresh(slots);
    let got = gained(script, k);
    let asked = seq![Event::Acquire] + reports(script);
    lemma_acquiring(slots, script, k);
    assert(asked.drop_last() =~= seq![Event::Acquire] + reports(script.take(k as int)));
    let (failed, steps) = fresh.run(asked);
    let first = steps.last();
    lemma_draining(failed, got, first, Err(e));
    lemma_run_append(fresh, asked, acks(got.len()));
}

/// Acquiring and then releasing leaves nothing present, and the host is asked
/// for as many releases as it reported sub-resources present.
pub proof fn lemma_acquire_then_release(slots: usize, script: Seq<Outcome>)
    requires
        script.len() == slots,
        unfailing(script, slots as nat),
    ensures
        SetState::fresh(slots).run(
            seq![Event::Acquire] + reports(script) + seq![Event::Release] + acks(
                gained(script, slots as nat).len(),
            ),
        ) == (
            SetState::fresh(slots),
            attempts(slots as nat).push(Step::Done(Ok(()))) + releases(
                gained(script, slots as nat),
            ).push(Step::Done(Ok(()))),
        ),
{
    let fresh = SetState::fresh(slots);
    let got = gained(script, slots as nat);
    let up = seq![Event::Acquire] + reports(script);
    let down = seq![Event::Release] + acks(got.len());
    lemma_acquire_succeeds(slots, script);
    lemma_release_reverses(fresh.run(up).0);
    lemma_run_append(fresh, up, down);
    assert(up + down =~= up + seq![Event::Release] + acks(got.len()));
}

/// After a failed acquisition there is nothing for a release to do.
pub proof fn lemma_rollback_then_release(slots: usize, script: Seq<Outcome>, k: nat, e: Error)
    requires
        k < slots,
        script.len() == k + 1,
        unfailing(script, k),
        script[k as int] == Outcome::Failed(e),
    ensures
        SetState::fresh(slots).run(
            seq![Event::Acquire] + reports(script) + acks(gained(script, k).len()) + seq![
                Event::Release,
            ],
        ) == (
            SetState::fresh(slots),
            (attempts(k + 1) + releases(gained(script, k)).push(Step::Done(Err(e)))).push(
                Step::Done(Ok(())),
            ),
        ),
{
    let fresh = SetState::fresh(slots);
    let up = seq![Event::Acquire] + reports(script) + acks(gained(script, k).len());
    lemma_rollback(slots, script, k, e);
    lemma_run_one(fresh, Event::Release);
    lemma_run_append(fresh, up, seq![Event::Release]);
}

/// A sub-resource that was reported absent is never handed out for release:
/// not by a rollback after a later failure, and not by teardown.
pub proof fn lemma_absent_never_released(script: Seq<Outcome>, k: nat, slot: usize)
    requires
        k <= script.len(),
        k <= usize::MAX,
        slot < k,
        script[slot as int] is Absent,
    ensures
        forall|i: int|
            0 <= i < releases(gained(script, k)).len() ==> ((#[trigger] releases(
                gained(script, k),
            )[i]) matches Step::Release(held) && held.slot != slot),
{
    lemma_gained(script, k);
}

/// In a log that is in order, the entry at index `i` fills slot `i` or a later one.
pub proof fn lemma_ordered_from_below(s: SetState, i: int)
    requires
        s.wf(),
        0 <= i < s.held.len(),
    ensures
        s.held[i].slot >= i,
    decreases i,
{
    if i > 0 {
        lemma_ordered_from_below(s, i - 1);
    }
}

/// In a log that is in order, the entry at index `i` leaves room below the
/// number of slots for the entries after it.
pub proof fn lemma_ordered_from_above(s: SetState, i: int)
    requires
        s.wf(),
        s.stage is Idle,
        0 <= i < s.held.len(),
    ensures
        s.held[i].slot + (s.held.len() - i) <= s.slots,
    decreases s.held.len() - i,
{
    if i < s.held.len() - 1 {
        lemma_ordered_from_above(s, i + 1);
    }
}

/// Where every slot is filled, the entry of `slot` stands at index `slot` or later.
proof fn lemma_slot_index(s: SetState, slot: usize) -> (i: int)
    requires
        s.wf(),
        forall|slot: usize| slot < s.slots ==> #[trigger] s.holds(slot),
        slot < s.slots,
    ensures
        slot <= i < s.held.len(),
        s.held[i].slot == slot,
    decreases slot,
{
    assert(s.holds(slot));
    let i = choose|i: int| 0 <= i < s.held.len() && (#[trigger] s.held[i]).slot == slot;
    if slot > 0 {
        let below = lemma_slot_index(s, (slot - 1) as usize);
    }
    i
}

/// A set whose slots are all filled holds them in slot order, one entry for each.
pub proof fn lemma_filled_log(s: SetState)
    requires
        s.wf(),
        s.stage is Idle,
        forall|slot: usize| slot < s.slots ==> #[trigger] s.holds(slot),
    ensures
        s.held.len() == s.slots,
        forall|i: int| 0 <= i < s.held.len() ==> (#[trigger] s.held[i]).slot == i,
{
    if s.slots > 0 {
        let top = lemma_slot_index(s, (s.slots - 1) as usize);
        lemma_ordered_from_above(s, 0);
    } else if s.held.len() > 0 {
        assert(s.held[0].slot < s.slots);
    }
    assert forall|i: int| 0 <= i < s.held.len() implies (#[trigger] s.held[i]).slot == i by {
        lemma_ordered_from_below(s, i);
        lemma_ordered_from_above(s, i);
    }
}

} // verus!
