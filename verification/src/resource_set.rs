//! Ordered acquisition and release of a set of sub-resources.
//!
//! A [`ResourceSet`] has a fixed number of slots, acquired in slot order. It
//! performs no acquisition itself: each method returns the [`Step`] that the
//! host is to carry out, and the host reports back with the next call. What
//! the set holds is a log of the sub-resources that are present, in the order
//! in which they were acquired; release hands them out from the end of the log.
//!
//! [`SetState`] is the mathematical model of the set, and [`SetState::step`] is
//! its transition function. Every method of [`ResourceSet`] is one transition.

use vstd::prelude::*;
use crate::error::Error;
use crate::error::EINVAL;

verus! {

/// A sub-resource that is present.
#[derive(Clone, Copy, Debug, PartialEq, Eq)]
pub struct Held {
    /// The slot it fills.
    pub slot: usize,
    /// The handle under which the host knows it.
    pub handle: usize,
}

/// What the host reports of one acquisition attempt.
#[derive(Clone, Copy, Debug, PartialEq, Eq)]
pub enum Outcome {
    /// The sub-resource was acquired, under this handle.
    Present(usize),
    /// The platform lacks the capability. The slot stays empty; this is no failure.
    Absent,
    /// The acquisition failed.
    Failed(Error),
}

/// What the host is to do next.
#[derive(Clone, Copy, Debug, PartialEq, Eq)]
pub enum Step {
    /// Try to acquire the sub-resource of this slot, and report the outcome.
    Acquire(usize),
    /// Release this sub-resource, and report when done.
    Release(Held),
    /// Nothing more: the operation has ended with this result.
    Done(Result<(), Error>),
}

/// Where a set stands between two steps.
#[derive(Clone, Copy, Debug, PartialEq, Eq)]
pub enum Stage {
    /// No operation is under way.
    Idle,
    /// The outcome for this slot is awaited.
    Acquiring(usize),
    /// An acquisition failed with this error; what was acquired is being released.
    Unwinding(Error),
    /// The set is being torn down.
    Releasing,
}

/// What a set can be told.
pub enum Event {
    /// Acquire all sub-resources.
    Acquire,
    /// The attempt that was asked for ended with this outcome.
    Settled(Outcome),
    /// The release that was asked for has been carried out.
    Released,
    /// Release all sub-resources.
    Release,
}

/// The model of a [`ResourceSet`].
#[verifier::ext_equal]
pub struct SetState {
    /// The number of slots.
    pub slots: usize,
    /// The sub-resources that are present, in the order of their acquisition.
    pub held: Seq<Held>,
    /// The operation under way.
    pub stage: Stage,
}

impl SetState {
    /// A set of `slots` empty slots.
    pub open spec fn fresh(slots: usize) -> SetState {
        SetState { slots, held: Seq::empty(), stage: Stage::Idle }
    }

    /// Nothing is present and nothing is under way.
    pub open spec fn vacant(self) -> bool {
        self.stage is Idle && self.held.len() == 0
    }

    /// The slot `slot` is filled.
    pub open spec fn holds(self, slot: usize) -> bool {
        exists|i: int| 0 <= i < self.held.len() && (#[trigger] self.held[i]).slot == slot
    }

    /// The index of the first entry of the log that fills `slot`, from `from` on;
    /// the length of the log if there is none.
    pub open spec fn position(self, slot: usize, from: int) -> int
        decreases self.held.len() - from,
    {
        if from < 0 || from >= self.held.len() {
            self.held.len() as int
        } else if self.held[from].slot == slot {
            from
        } else {
            self.position(slot, from + 1)
        }
    }

    /// The first entry of the log that fills `slot`.
    pub open spec fn lookup(self, slot: usize) -> Option<Held> {
        if self.holds(slot) {
            Some(self.held[self.position(slot, 0)])
        } else {
            None
        }
    }

    /// The entry at `at` is the first that fills `slot` if no entry before it does.
    pub proof fn lemma_lookup(self, slot: usize, at: int)
        requires
            0 <= at < self.held.len(),
            self.held[at].slot == slot,
            forall|j: int| 0 <= j < at ==> (#[trigger] self.held[j]).slot != slot,
        ensures
            self.lookup(slot) == Some(self.held[at]),
    {
        self.lemma_position(slot, 0, at);
    }

    proof fn lemma_position(self, slot: usize, from: int, at: int)
        requires
            0 <= from <= at < self.held.len(),
            self.held[at].slot == slot,
            forall|j: int| from <= j < at ==> (#[trigger] self.held[j]).slot != slot,
        ensures
            self.position(slot, from) == at,
        decreases at - from,
    {
        if from < at {
            self.lemma_position(slot, from + 1, at);
        }
    }

    /// The log is in slot order and within the slots that have been settled:
    /// no slot occurs twice, and none that is still to be attempted.
    pub open spec fn wf(self) -> bool {
        &&& forall|i: int, j: int|
            0 <= i < j < self.held.len() ==> (#[trigger] self.held[i]).slot < (
            #[trigger] self.held[j]).slot
        &&& forall|i: int| 0 <= i < self.held.len() ==> (#[trigger] self.held[i]).slot < self.settled()
        &&& self.settled() <= self.slots
        &&& self.stage matches Stage::Acquiring(slot) ==> slot < self.slots
    }

    /// The number of leading slots whose attempt has been settled.
    pub open spec fn settled(self) -> int {
        match self.stage {
            Stage::Acquiring(slot) => slot as int,
            _ => self.slots as int,
        }
    }

    /// The answer to an event that does not fit the stage: nothing changes.
    pub open spec fn refuse(self) -> (SetState, Step) {
        (self, Step::Done(Err(Error { errno: EINVAL })))
    }

    /// Goes on with slot `next`, or ends successfully if there is no such slot.
    pub open spec fn advance(self, next: int) -> (SetState, Step) {
        if next < self.slots {
            (SetState { stage: Stage::Acquiring(next as usize), ..self }, Step::Acquire(next as usize))
        } else {
            (SetState { stage: Stage::Idle, ..self }, Step::Done(Ok(())))
        }
    }

    /// Hands out the sub-resource that was acquired last and stays in `busy`; with
    /// nothing left, ends with `verdict`.
    pub open spec fn drain(self, busy: Stage, verdict: Result<(), Error>) -> (SetState, Step) {
        if self.held.len() == 0 {
            (SetState { stage: Stage::Idle, ..self }, Step::Done(verdict))
        } else {
            (
                SetState { stage: busy, held: self.held.drop_last(), ..self },
                Step::Release(self.held.last()),
            )
        }
    }

    /// The transition function: the state after `event`, and what to do next.
    pub open spec fn step(self, event: Event) -> (SetState, Step) {
        match event {
            Event::Acquire => if self.vacant() {
                self.advance(0)
            } else {
                self.refuse()
            },
            Event::Settled(outcome) => match self.stage {
                Stage::Acquiring(slot) => match outcome {
                    Outcome::Present(handle) => SetState {
                        held: self.held.push(Held { slot, handle }),
                        ..self
                    }.advance(slot + 1),
                    Outcome::Absent => self.advance(slot + 1),
                    Outcome::Failed(e) => self.drain(Stage::Unwinding(e), Err(e)),
                },
                _ => self.refuse(),
            },
            Event::Released => match self.stage {
                Stage::Unwinding(e) => self.drain(Stage::Unwinding(e), Err(e)),
                Stage::Releasing => self.drain(Stage::Releasing, Ok(())),
                _ => self.refuse(),
            },
            Event::Release => self.drain(Stage::Releasing, Ok(())),
        }
    }

    /// The state after `events`, one after the other, and the steps they were
    /// answered with.
    pub open spec fn run(self, events: Seq<Event>) -> (SetState, Seq<Step>)
        decreases events.len(),
    {
        if events.len() == 0 {
            (self, Seq::empty())
        } else {
            let (before, steps) = self.run(events.drop_last());
            let (after, step) = before.step(events.last());
            (after, steps.push(step))
        }
    }
}

/// An ordered set of sub-resources, each present or absent.
pub struct ResourceSet {
    slots: usize,
    held: Vec<Held>,
    stage: Stage,
}

impl View for ResourceSet {
    type V = SetState;

    closed spec fn view(&self) -> SetState {
        SetState { slots: self.slots, held: self.held@, stage: self.stage }
    }
}

impl ResourceSet {
    /// A set of `slots` slots, all empty.
    pub fn new(slots: usize) -> (set: Self)
        ensures
            set@ == SetState::fresh(slots),
    {
        ResourceSet { slots, held: Vec::new(), stage: Stage::Idle }
    }

    fn advance(&mut self, next: usize) -> (step: Step)
        ensures
            (final(self)@, step) == old(self)@.advance(next as int),
    {
        if next < self.slots {
            self.stage = Stage::Acquiring(next);
            Step::Acquire(next)
        } else {
            self.stage = Stage::Idle;
            Step::Done(Ok(()))
        }
    }

    fn drain(&mut self, busy: Stage, verdict: Result<(), Error>) -> (step: Step)
        ensures
            (final(self)@, step) == old(self)@.drain(busy, verdict),
    {
        match self.held.pop() {
            Some(held) => {
                self.stage = busy;
                Step::Release(held)
            },
            None => {
                self.stage = Stage::Idle;
                Step::Done(verdict)
            },
        }
    }

    /// Starts acquiring all sub-resources, in slot order.
    ///
    /// A set that holds something, or is in the middle of an operation, refuses
    /// with `EINVAL` and stays as it is: nothing present is acquired again.
    pub fn acquire(&mut self) -> (step: Step)
        ensures
            (final(self)@, step) == old(self)@.step(Event::Acquire),
    {
        let idle = match self.stage {
            Stage::Idle => true,
            _ => false,
        };
        if idle && self.held.len() == 0 {
            self.advance(0)
        } else {
            Step::Done(Err(Error { errno: EINVAL }))
        }
    }

    /// Takes the outcome of the attempt that the last step asked for.
    ///
    /// A sub-resource that is present is logged and the next slot is attempted;
    /// one that is absent is passed over. After a failure nothing more is
    /// attempted: what had been acquired is handed out for release, last first,
    /// and the operation ends with the error as it was reported.
    pub fn settle(&mut self, outcome: Outcome) -> (step: Step)
        ensures
            (final(self)@, step) == old(self)@.step(Event::Settled(outcome)),
    {
        match self.stage {
            Stage::Acquiring(slot) => {
                match outcome {
                    Outcome::Present(handle) => {
                        self.held.push(Held { slot, handle });
                    },
                    Outcome::Absent => {},
                    Outcome::Failed(e) => {
                        return self.drain(Stage::Unwinding(e), Err(e));
                    },
                }
                if slot < usize::MAX {
                    self.advance(slot + 1)
                } else {
                    self.stage = Stage::Idle;
                    Step::Done(Ok(()))
                }
            },
            _ => Step::Done(Err(Error { errno: EINVAL })),
        }
    }

    /// Goes on after the release that the last step asked for has been carried
    /// out: hands out the next sub-resource, or ends the operation.
    pub fn proceed(&mut self) -> (step: Step)
        ensures
            (final(self)@, step) == old(self)@.step(Event::Released),
    {
        match self.stage {
            Stage::Unwinding(e) => self.drain(Stage::Unwinding(e), Err(e)),
            Stage::Releasing => self.drain(Stage::Releasing, Ok(())),
            _ => Step::Done(Err(Error { errno: EINVAL })),
        }
    }

    /// Starts releasing all sub-resources that are present, last acquired first.
    ///
    /// This never fails, and on a set that holds nothing it ends at once.
    pub fn release(&mut self) -> (step: Step)
        ensures
            (final(self)@, step) == old(self)@.step(Event::Release),
    {
        self.drain(Stage::Releasing, Ok(()))
    }

    /// The number of slots.
    pub fn slots(&self) -> (slots: usize)
        ensures
            slots == self@.slots,
    {
        self.slots
    }

    /// The operation under way.
    pub fn stage(&self) -> (stage: Stage)
        ensures
            stage == self@.stage,
    {
        self.stage
    }

    /// The number of sub-resources that are present.
    pub fn len(&self) -> (len: usize)
        ensures
            len == self@.held.len(),
    {
        self.held.len()
    }

    /// The sub-resource that fills `slot`, if the slot is filled: the first
    /// entry of the log for that slot, which in a log in order is the only one.
    pub fn get(&self, slot: usize) -> (found: Option<Held>)
        ensures
            found == self@.lookup(slot),
    {
        let mut i: usize = 0;
        while i < self.held.len()
            invariant
                i <= self.held.len(),
                forall|j: int| 0 <= j < i ==> (#[trigger] self.held[j]).slot != slot,
            decreases self.held.len() - i,
        {
            let held = self.held[i];
            if held.slot == slot {
                proof {
                    self@.lemma_lookup(slot, i as int);
                }
                return Some(held);
            }
            i += 1;
        }
        None
    }

}

} // verus!
