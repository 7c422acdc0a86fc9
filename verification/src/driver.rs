//! Driving a resource set against a host.
//!
//! A [`Plan`] says, for one integration point, what each step of a resource
//! set means in requests to the host: which request attempts a slot, how the
//! host's reply is read, which request completes an acquisition, and which
//! requests release a sub-resource. A [`Host`] carries requests out, and a
//! [`Channel`] is the only way to it: the channel keeps the history of what
//! was asked and what was answered. [`bring_up`] and [`take_down`] run a set
//! to the end of an operation; their contracts say which exchanges that adds
//! to the history.

use vstd::prelude::*;
use crate::error::Error;
use crate::error::EINVAL;
use crate::resource_set::Event;
use crate::resource_set::Held;
use crate::resource_set::Outcome;
use crate::resource_set::ResourceSet;
use crate::resource_set::SetState;
use crate::resource_set::Stage;
use crate::resource_set::Step;
use crate::trace::gained;
use crate::trace::lemma_gained;
use crate::trace::lemma_step_keeps_order;
use crate::trace::unfailing;

verus! {

/// What the host answers to a request: the status of the call and, where the
/// call made something, its handle.
#[derive(Clone, Copy, Debug, PartialEq, Eq)]
pub struct Reply {
    pub status: i32,
    pub handle: usize,
}

impl Reply {
    /// The usual reading of a reply.
    pub open spec fn reading(self) -> Outcome {
        if self.status < 0 {
            Outcome::Failed(Error { errno: self.status })
        } else {
            Outcome::Present(self.handle)
        }
    }

    /// Reads a reply in the usual way: a negative status is a failure, with
    /// the status as its error; any other status means that the sub-resource
    /// is present under the handle of the reply.
    pub fn read(self) -> (outcome: Outcome)
        ensures
            outcome == self.reading(),
    {
        if self.status < 0 {
            Outcome::Failed(Error::from_kernel_errno(self.status))
        } else {
            Outcome::Present(self.handle)
        }
    }
}

/// The outside: whatever carries out requests of type `R`.
pub trait Host<R> {
    /// Carries out `request`.
    fn perform(&mut self, request: &R) -> Reply;
}

/// A request that went to the host, with the reply if the reply was read.
pub struct Exchange<R> {
    pub request: R,
    pub reply: Option<Reply>,
}

/// A request that was answered with `reply`.
pub open spec fn asked<R>(request: R, reply: Reply) -> Exchange<R> {
    Exchange { request, reply: Some(reply) }
}

/// A request whose reply was not read.
pub open spec fn told<R>(request: R) -> Exchange<R> {
    Exchange { request, reply: None }
}

/// A series of requests whose replies were not read.
pub open spec fn all_told<R>(requests: Seq<R>) -> Seq<Exchange<R>> {
    Seq::new(requests.len(), |i: int| told(requests[i]))
}

/// The way to a host. Every request that reaches the host goes through
/// [`Channel::ask`] or [`Channel::tell`], and is added to the history.
pub struct Channel<R, H: Host<R>> {
    host: H,
    history: Ghost<Seq<Exchange<R>>>,
}

impl<R, H: Host<R>> Channel<R, H> {
    /// Everything that went to the host through this channel, in order.
    pub closed spec fn history(&self) -> Seq<Exchange<R>> {
        self.history@
    }

    /// The host at the end of the channel.
    pub closed spec fn target(&self) -> H {
        self.host
    }

    /// Opens a channel to `host`. Nothing has been asked yet.
    pub fn new(host: H) -> (channel: Self)
        ensures
            channel.history() == Seq::<Exchange<R>>::empty(),
            channel.target() == host,
    {
        Channel { host, history: Ghost(Seq::empty()) }
    }

    /// Has the host carry out `request` and hands back its reply.
    pub fn ask(&mut self, request: &R) -> (reply: Reply)
        ensures
            final(self).history() == old(self).history().push(asked(*request, reply)),
    {
        let reply = self.host.perform(request);
        proof {
            self.history@ = self.history@.push(asked(*request, reply));
        }
        reply
    }

    /// Has the host carry out `request`. Whatever the host answers is dropped.
    pub fn tell(&mut self, request: &R)
        ensures
            final(self).history() == old(self).history().push(told(*request)),
    {
        let _ = self.host.perform(request);
        proof {
            self.history@ = self.history@.push(told(*request));
        }
    }

    /// The host, to look at.
    pub fn host(&self) -> (host: &H)
        ensures
            *host == self.target(),
    {
        &self.host
    }

    /// Closes the channel and hands the host back.
    pub fn into_host(self) -> (host: H)
        ensures
            host == self.target(),
    {
        self.host
    }
}

/// What the steps of a resource set mean at one integration point.
pub trait Plan {
    /// The requests that the host of this integration point understands.
    type Request;

    /// The slot may stay empty without the acquisition failing.
    spec fn optional(slot: usize) -> bool;

    /// The request that attempts `slot`; none for a slot that the plan does not know.
    spec fn acquisition_of(slot: usize) -> Option<Self::Request>;

    /// How the reply to the attempt of `slot` is read.
    spec fn outcome_of(slot: usize, reply: Reply) -> Outcome;

    /// The request that completes the acquisition of `slot`, if it needs one.
    spec fn completion_of(slot: usize, outcome: Outcome) -> Option<Self::Request>;

    /// The requests that release `held`, in order.
    spec fn disposal_of(held: Held) -> Seq<Self::Request>;

    /// Only an optional slot is ever read as absent.
    proof fn lemma_absent_is_optional(slot: usize, reply: Reply)
        ensures
            Self::outcome_of(slot, reply) is Absent ==> Self::optional(slot),
    ;

    /// The request that attempts `slot`.
    fn acquisition(slot: usize) -> (request: Option<Self::Request>)
        ensures
            request == Self::acquisition_of(slot),
    ;

    /// Reads the reply to the attempt of `slot`.
    fn outcome(slot: usize, reply: Reply) -> (outcome: Outcome)
        ensures
            outcome == Self::outcome_of(slot, reply),
    ;

    /// The request that completes the acquisition of `slot`, if it needs one.
    fn completion(slot: usize, outcome: Outcome) -> (request: Option<Self::Request>)
        ensures
            request == Self::completion_of(slot, outcome),
    ;

    /// The requests that release `held`, in order.
    fn disposal(held: Held) -> (requests: Vec<Self::Request>)
        ensures
            requests@ == Self::disposal_of(held),
    ;
}

/// What the attempt of `slot` comes to when the host answers `reply`. A slot
/// that the plan does not know fails with `EINVAL`.
pub open spec fn attempt_outcome<P: Plan>(slot: usize, reply: Reply) -> Outcome {
    if P::acquisition_of(slot) is Some {
        P::outcome_of(slot, reply)
    } else {
        Outcome::Failed(Error { errno: EINVAL })
    }
}

/// The exchanges of the attempt of `slot` when the host answers `reply`: the
/// plan's request for the slot, and then the request that completes the
/// acquisition if the plan has one for what the reply comes to. For a slot
/// that the plan does not know, the host is not asked.
pub open spec fn attempt_exchanges<P: Plan>(slot: usize, reply: Reply) -> Seq<Exchange<P::Request>> {
    match P::acquisition_of(slot) {
        Some(request) => match P::completion_of(slot, P::outcome_of(slot, reply)) {
            Some(completion) => seq![asked(request, reply), told(completion)],
            None => seq![asked(request, reply)],
        },
        None => Seq::empty(),
    }
}

/// What the attempts come to when the attempt of slot `i` is answered with `replies[i]`.
pub open spec fn outcomes<P: Plan>(replies: Seq<Reply>) -> Seq<Outcome> {
    Seq::new(replies.len(), |i: int| attempt_outcome::<P>(i as usize, replies[i]))
}

/// The exchanges of the attempts of the slots below `k`, in slot order.
pub open spec fn acquiring_exchanges<P: Plan>(replies: Seq<Reply>, k: nat) -> Seq<Exchange<P::Request>>
    decreases k,
{
    if k == 0 {
        Seq::empty()
    } else {
        acquiring_exchanges::<P>(replies, (k - 1) as nat) + attempt_exchanges::<P>(
            (k - 1) as usize,
            replies[k - 1],
        )
    }
}

/// The exchanges by which the sub-resources `held` are released, the one
/// acquired last first. No reply is read.
pub open spec fn teardown_exchanges<P: Plan>(held: Seq<Held>) -> Seq<Exchange<P::Request>>
    decreases held.len(),
{
    if held.len() == 0 {
        Seq::empty()
    } else {
        all_told(P::disposal_of(held.last())) + teardown_exchanges::<P>(held.drop_last())
    }
}

/// The replies are those of a whole acquisition of `slots` slots: one for
/// every slot with none of them read as a failure, or one for every slot up
/// to the first that is read as a failure.
pub open spec fn conclusive<P: Plan>(slots: usize, replies: Seq<Reply>) -> bool {
    let k = replies.len();
    ||| k == slots && unfailing(outcomes::<P>(replies), k)
    ||| 1 <= k <= slots && unfailing(outcomes::<P>(replies), (k - 1) as nat) && outcomes::<P>(
        replies,
    ).last() is Failed
}

/// The exchanges of a whole acquisition that is answered with `replies`.
///
/// The slots are attempted in slot order. If none fails, that is all. If the
/// last attempt fails, what the earlier ones brought is released, last
/// acquired first; no slot after the failing one is touched.
pub open spec fn bring_up_exchanges<P: Plan>(replies: Seq<Reply>) -> Seq<Exchange<P::Request>> {
    let k = replies.len();
    let reached = acquiring_exchanges::<P>(replies, k);
    if k > 0 && outcomes::<P>(replies).last() is Failed {
        reached + teardown_exchanges::<P>(gained(outcomes::<P>(replies), (k - 1) as nat))
    } else {
        reached
    }
}

/// The result of a whole acquisition that is answered with `replies`: the
/// error of the failing attempt, as the plan read it, if there is one.
pub open spec fn bring_up_result<P: Plan>(replies: Seq<Reply>) -> Result<(), Error> {
    if replies.len() > 0 && outcomes::<P>(replies).last() is Failed {
        Err(outcomes::<P>(replies).last()->Failed_0)
    } else {
        Ok(())
    }
}

/// What is present after a whole acquisition that is answered with
/// `replies`: all that was reported present, or nothing after a failure.
pub open spec fn bring_up_held<P: Plan>(replies: Seq<Reply>) -> Seq<Held> {
    if replies.len() > 0 && outcomes::<P>(replies).last() is Failed {
        Seq::empty()
    } else {
        gained(outcomes::<P>(replies), replies.len())
    }
}

/// A set of `slots` slots was brought up from nothing against a host that
/// answered the attempts with `replies`: `after` is the history `before` with
/// the exchanges of the acquisition added, `result` is its result, and `s` is
/// the set it left.
pub open spec fn brought_up<P: Plan>(
    slots: usize,
    replies: Seq<Reply>,
    before: Seq<Exchange<P::Request>>,
    after: Seq<Exchange<P::Request>>,
    result: Result<(), Error>,
    s: SetState,
) -> bool {
    &&& conclusive::<P>(slots, replies)
    &&& after == before + bring_up_exchanges::<P>(replies)
    &&& result == bring_up_result::<P>(replies)
    &&& s == (SetState { slots, held: bring_up_held::<P>(replies), stage: Stage::Idle })
}

/// Every slot below `k` is filled, unless it is optional.
pub open spec fn filled_below<P: Plan>(s: SetState, k: int) -> bool {
    forall|slot: usize| slot < k && !P::optional(slot) ==> #[trigger] s.holds(slot)
}

/// Nothing is under way, the log is in order, and every slot is filled, unless
/// it is optional.
pub open spec fn complete<P: Plan>(s: SetState) -> bool {
    &&& s.wf()
    &&& s.stage is Idle
    &&& filled_below::<P>(s, s.slots as int)
}

/// What the first `k` outcomes bring does not depend on the later ones.
proof fn lemma_gained_agrees(a: Seq<Outcome>, b: Seq<Outcome>, k: nat)
    requires
        k <= a.len(),
        k <= b.len(),
        forall|i: int| 0 <= i < k ==> a[i] == b[i],
    ensures
        gained(a, k) == gained(b, k),
    decreases k,
{
    if k > 0 {
        lemma_gained_agrees(a, b, (k - 1) as nat);
    }
}

/// The exchanges of the first `k` attempts do not depend on the later replies.
proof fn lemma_acquiring_agrees<P: Plan>(a: Seq<Reply>, b: Seq<Reply>, k: nat)
    requires
        k <= a.len(),
        k <= b.len(),
        forall|i: int| 0 <= i < k ==> a[i] == b[i],
    ensures
        acquiring_exchanges::<P>(a, k) == acquiring_exchanges::<P>(b, k),
    decreases k,
{
    if k > 0 {
        lemma_acquiring_agrees::<P>(a, b, (k - 1) as nat);
    }
}

/// Releasing a log is releasing its last entry and then the rest.
proof fn lemma_teardown_push<P: Plan>(held: Seq<Held>, last: Held)
    ensures
        teardown_exchanges::<P>(held.push(last)) == all_told(P::disposal_of(last))
            + teardown_exchanges::<P>(held),
{
    assert(held.push(last).drop_last() =~= held);
}

/// When the attempt of slot `k` fails, the host has seen the attempts of the
/// slots up to `k`, in slot order, and then the release of what the attempts
/// before `k` brought, last acquired first: each of those sub-resources once,
/// and none of a later slot. The result is the error as the plan read it, and
/// nothing is left present.
pub proof fn lemma_rollback_exchanges<P: Plan>(slots: usize, replies: Seq<Reply>, k: nat, e: Error)
    requires
        k < slots,
        replies.len() == k + 1,
        unfailing(outcomes::<P>(replies), k),
        outcomes::<P>(replies)[k as int] == Outcome::Failed(e),
    ensures
        conclusive::<P>(slots, replies),
        bring_up_result::<P>(replies) == Err::<(), Error>(e),
        bring_up_held::<P>(replies) == Seq::<Held>::empty(),
        bring_up_exchanges::<P>(replies) == acquiring_exchanges::<P>(replies, k + 1)
            + teardown_exchanges::<P>(gained(outcomes::<P>(replies), k)),
        forall|i: int|
            0 <= i < gained(outcomes::<P>(replies), k).len() ==> (#[trigger] gained(
                outcomes::<P>(replies),
                k,
            )[i]).slot < k,
        forall|i: int, j: int|
            0 <= i < j < gained(outcomes::<P>(replies), k).len() ==> (#[trigger] gained(
                outcomes::<P>(replies),
                k,
            )[i]).slot < (#[trigger] gained(outcomes::<P>(replies), k)[j]).slot,
{
    lemma_gained(outcomes::<P>(replies), k);
}

/// After a whole acquisition without a failure, every slot is filled unless it
/// is optional.
pub proof fn lemma_brought_up_complete<P: Plan>(slots: usize, replies: Seq<Reply>, s: SetState)
    requires
        conclusive::<P>(slots, replies),
        bring_up_result::<P>(replies) is Ok,
        s == (SetState { slots, held: bring_up_held::<P>(replies), stage: Stage::Idle }),
    ensures
        complete::<P>(s),
{
    let o = outcomes::<P>(replies);
    lemma_gained(o, slots as nat);
    let got = gained(o, slots as nat);
    assert forall|slot: usize| slot < slots && !P::optional(slot) implies #[trigger] s.holds(slot) by {
        P::lemma_absent_is_optional(slot, replies[slot as int]);
        assert(o[slot as int] is Present);
        let i = choose|i: int| 0 <= i < got.len() && (#[trigger] got[i]).slot == slot;
        assert(s.held[i].slot == slot);
    }
}

/// What holds between two steps of bringing a set up, when the attempts so far
/// have been answered with `replies` and `exchanged` has gone to the host.
spec fn bringing_up<P: Plan>(
    s: SetState,
    step: Step,
    replies: Seq<Reply>,
    exchanged: Seq<Exchange<P::Request>>,
) -> bool {
    let o = outcomes::<P>(replies);
    &&& s.wf()
    &&& match step {
        Step::Acquire(slot) => {
            &&& s.stage == Stage::Acquiring(slot)
            &&& replies.len() == slot
            &&& unfailing(o, slot as nat)
            &&& s.held == gained(o, slot as nat)
            &&& exchanged == acquiring_exchanges::<P>(replies, slot as nat)
        },
        Step::Release(held) => {
            &&& conclusive::<P>(s.slots, replies)
            &&& replies.len() > 0
            &&& o.last() is Failed
            &&& s.stage == Stage::Unwinding(o.last()->Failed_0)
            &&& exchanged + teardown_exchanges::<P>(s.held.push(held)) == bring_up_exchanges::<P>(
                replies,
            )
        },
        Step::Done(result) => {
            &&& conclusive::<P>(s.slots, replies)
            &&& exchanged == bring_up_exchanges::<P>(replies)
            &&& result == bring_up_result::<P>(replies)
            &&& s.held == bring_up_held::<P>(replies)
            &&& s.stage is Idle
        },
    }
}

/// A bound on the steps that are left.
spec fn remaining(s: SetState, step: Step) -> int {
    match step {
        Step::Acquire(slot) => 2 * (s.slots - slot) + s.held.len() + 2,
        Step::Release(_) => s.held.len() as int + 1,
        Step::Done(_) => 0,
    }
}

/// Settling the attempt of `slot`, answered with `reply`, keeps the run on course.
proof fn lemma_settled<P: Plan>(
    s: SetState,
    slot: usize,
    replies: Seq<Reply>,
    reply: Reply,
    exchanged: Seq<Exchange<P::Request>>,
)
    requires
        bringing_up::<P>(s, Step::Acquire(slot), replies, exchanged),
    ensures
        ({
            let (after, step) = s.step(Event::Settled(attempt_outcome::<P>(slot, reply)));
            bringing_up::<P>(
                after,
                step,
                replies.push(reply),
                exchanged + attempt_exchanges::<P>(slot, reply),
            )
        }),
{
    let outcome = attempt_outcome::<P>(slot, reply);
    let (after, step) = s.step(Event::Settled(outcome));
    let longer = replies.push(reply);
    let o = outcomes::<P>(replies);
    let ol = outcomes::<P>(longer);
    lemma_step_keeps_order(s, Event::Settled(outcome));
    lemma_gained_agrees(o, ol, slot as nat);
    lemma_acquiring_agrees::<P>(replies, longer, slot as nat);
    assert forall|i: int| 0 <= i < slot implies !((#[trigger] ol[i]) is Failed) by {
        assert(ol[i] == o[i]);
    }
    if outcome is Failed {
        if s.held.len() == 0 {
            assert(after.held =~= Seq::empty());
        } else {
            assert(after.held.push(s.held.last()) =~= s.held);
        }
    }
}

/// Going on after a release keeps the run on course.
proof fn lemma_proceeded<P: Plan>(
    s: SetState,
    held: Held,
    replies: Seq<Reply>,
    exchanged: Seq<Exchange<P::Request>>,
)
    requires
        bringing_up::<P>(s, Step::Release(held), replies, exchanged),
    ensures
        ({
            let (after, step) = s.step(Event::Released);
            bringing_up::<P>(after, step, replies, exchanged + all_told(P::disposal_of(held)))
        }),
{
    let (after, step) = s.step(Event::Released);
    let told = all_told(P::disposal_of(held));
    lemma_step_keeps_order(s, Event::Released);
    lemma_teardown_push::<P>(s.held, held);
    let rest = teardown_exchanges::<P>(s.held);
    assert(exchanged + (told + rest) =~= (exchanged + told) + rest);
    if s.held.len() == 0 {
        assert(after.held =~= Seq::empty());
    } else {
        assert(after.held.push(s.held.last()) =~= s.held);
    }
}

/// Carries out the attempt for one slot.
fn attempt<P: Plan, H: Host<P::Request>>(channel: &mut Channel<P::Request, H>, slot: usize) -> (r: (
    Outcome,
    Ghost<Reply>,
))
    ensures
        r.0 == attempt_outcome::<P>(slot, r.1@),
        final(channel).history() == old(channel).history() + attempt_exchanges::<P>(slot, r.1@),
{
    match P::acquisition(slot) {
        Some(request) => {
            let reply = channel.ask(&request);
            let outcome = P::outcome(slot, reply);
            match P::completion(slot, outcome) {
                Some(completion) => {
                    channel.tell(&completion);
                    assert(channel.history() =~= old(channel).history() + seq![
                        asked(request, reply),
                        told(completion),
                    ]);
                },
                None => {
                    assert(channel.history() =~= old(channel).history() + seq![
                        asked(request, reply),
                    ]);
                },
            }
            (outcome, Ghost(reply))
        },
        None => {
            (Outcome::Failed(Error { errno: EINVAL }), Ghost(Reply { status: 0, handle: 0 }))
        },
    }
}

/// Carries out the release of one sub-resource.
fn dispose<P: Plan, H: Host<P::Request>>(channel: &mut Channel<P::Request, H>, held: Held)
    ensures
        final(channel).history() == old(channel).history() + all_told(P::disposal_of(held)),
{
    let requests = P::disposal(held);
    let mut i: usize = 0;
    while i < requests.len()
        invariant
            i <= requests.len(),
            channel.history() == old(channel).history() + all_told(requests@.take(i as int)),
        decreases requests.len() - i,
    {
        channel.tell(&requests[i]);
        i += 1;
    }
}

/// Acquires all sub-resources of `set`, in slot order, or none.
///
/// For each slot the host gets the plan's request for it and, where the plan
/// has one, the request that completes the acquisition. After a failure the
/// host gets the plan's requests to release what had been acquired, last
/// acquired first, and the error is handed on as the plan read it. A set that
/// holds something, or is busy, is refused with `EINVAL`, and the host is not
/// asked for anything.
pub fn bring_up<P: Plan, H: Host<P::Request>>(
    set: &mut ResourceSet,
    channel: &mut Channel<P::Request, H>,
) -> (r: Result<(), Error>)
    ensures
        !old(set)@.vacant() ==> r == Err::<(), Error>(Error { errno: EINVAL }) && final(set)@ == old(
            set,
        )@ && *final(channel) == *old(channel),
        old(set)@.vacant() ==> exists|replies: Seq<Reply>| #[trigger]
            brought_up::<P>(
                old(set)@.slots,
                replies,
                old(channel).history(),
                final(channel).history(),
                r,
                final(set)@,
            ),
        old(set)@.vacant() && r is Ok ==> complete::<P>(final(set)@),
{
    let idle = match set.stage() {
        Stage::Idle => true,
        _ => false,
    };
    if !idle || set.len() != 0 {
        return Err(Error { errno: EINVAL });
    }
    let ghost mut replies: Seq<Reply> = Seq::empty();
    let ghost mut exchanged: Seq<Exchange<P::Request>> = Seq::empty();
    let mut step = set.acquire();
    proof {
        assert(set@.held =~= gained(outcomes::<P>(replies), 0));
    }
    loop
        invariant
            old(set)@.vacant(),
            set@.slots == old(set)@.slots,
            channel.history() == old(channel).history() + exchanged,
            bringing_up::<P>(set@, step, replies, exchanged),
        decreases remaining(set@, step),
    {
        match step {
            Step::Acquire(slot) => {
                let (outcome, Ghost(reply)) = attempt::<P, H>(channel, slot);
                proof {
                    lemma_settled::<P>(set@, slot, replies, reply, exchanged);
                    let more = attempt_exchanges::<P>(slot, reply);
                    assert(old(channel).history() + exchanged + more =~= old(channel).history() + (
                    exchanged + more));
                    replies = replies.push(reply);
                    exchanged = exchanged + more;
                }
                step = set.settle(outcome);
            },
            Step::Release(held) => {
                dispose::<P, H>(channel, held);
                proof {
                    lemma_proceeded::<P>(set@, held, replies, exchanged);
                    let more = all_told(P::disposal_of(held));
                    assert(old(channel).history() + exchanged + more =~= old(channel).history() + (
                    exchanged + more));
                    exchanged = exchanged + more;
                }
                step = set.proceed();
            },
            Step::Done(result) => {
                proof {
                    assert(set@ =~= (SetState {
                        slots: old(set)@.slots,
                        held: bring_up_held::<P>(replies),
                        stage: Stage::Idle,
                    }));
                    assert(brought_up::<P>(
                        old(set)@.slots,
                        replies,
                        old(channel).history(),
                        channel.history(),
                        result,
                        set@,
                    ));
                    if result is Ok {
                        lemma_brought_up_complete::<P>(old(set)@.slots, replies, set@);
                    }
                }
                return result;
            },
        }
    }
}

/// Releases all sub-resources of `set`, last acquired first.
///
/// For each sub-resource the host gets the plan's requests to release it.
/// Nothing is left present.
pub fn take_down<P: Plan, H: Host<P::Request>>(
    set: &mut ResourceSet,
    channel: &mut Channel<P::Request, H>,
)
    ensures
        final(set)@ == SetState::fresh(old(set)@.slots),
        final(channel).history() == old(channel).history() + teardown_exchanges::<P>(old(set)@.held),
{
    let ghost mut exchanged: Seq<Exchange<P::Request>> = Seq::empty();
    let mut step = set.release();
    proof {
        if old(set)@.held.len() > 0 {
            assert(set@.held.push(old(set)@.held.last()) =~= old(set)@.held);
            assert(exchanged + teardown_exchanges::<P>(old(set)@.held) =~= teardown_exchanges::<P>(
                old(set)@.held,
            ));
        }
    }
    loop
        invariant
            set@.slots == old(set)@.slots,
            channel.history() == old(channel).history() + exchanged,
            match step {
                Step::Release(held) => set@.stage is Releasing && exchanged + teardown_exchanges::<P>(
                    set@.held.push(held),
                ) == teardown_exchanges::<P>(old(set)@.held),
                Step::Done(_) => set@ == SetState::fresh(set@.slots) && exchanged
                    == teardown_exchanges::<P>(old(set)@.held),
                Step::Acquire(_) => false,
            },
        decreases remaining(set@, step),
    {
        match step {
            Step::Release(held) => {
                dispose::<P, H>(channel, held);
                proof {
                    let more = all_told(P::disposal_of(held));
                    lemma_teardown_push::<P>(set@.held, held);
                    assert(old(channel).history() + exchanged + more =~= old(channel).history() + (
                    exchanged + more));
                    if set@.held.len() > 0 {
                        assert(set@.held.drop_last().push(set@.held.last()) =~= set@.held);
                    }
                    exchanged = exchanged + more;
                }
                step = set.proceed();
            },
            _ => {
                return ;
            },
        }
    }
}

} // verus!
