//! InfiniBand mlx4 devices.
//!
//! A [`Registration`] brings up the four work queues of an mlx4 device and then
//! publishes the driver's operation table to the mlx4 core. What the kernel is
//! asked for is a [`Request`]; the registration's [`Plan`] says which request
//! belongs to which step.

use vstd::prelude::*;
use std::marker::PhantomData;
use crate::driver::bring_up;
use crate::driver::bring_up_exchanges;
use crate::driver::bring_up_held;
use crate::driver::bring_up_result;
use crate::driver::brought_up;
use crate::driver::take_down;
use crate::driver::teardown_exchanges;
use crate::driver::told;
use crate::driver::conclusive;
use crate::driver::Channel;
use crate::driver::Host;
use crate::driver::Plan;
use crate::driver::Reply;
use crate::error::Error;
use crate::error::EINVAL;
use crate::list::ListHead;
use crate::resource_set::Held;
use crate::resource_set::Outcome;
use crate::resource_set::ResourceSet;
use crate::resource_set::SetState;
use crate::resource_set::Stage;
use crate::trace::lemma_filled_log;

verus! {

/// The slot that stands for the publication of the operation table. It comes
/// after the work queues: the table is published last and retracted first.
pub const INTERFACE: usize = 4;

/// The number of slots of a registration: the work queues and the publication.
pub const SLOTS: usize = 5;

/// The operations of an mlx4 driver.
///
/// Every operation succeeds without doing anything unless the driver says
/// otherwise.
pub trait Mlx4Operation {
    /// A device was added.
    fn add() -> (r: Result<(), Error>)
        default_ensures
            r is Ok,
    {
        Ok(())
    }

    /// A device was removed.
    fn remove() -> (r: Result<(), Error>)
        default_ensures
            r is Ok,
    {
        Ok(())
    }

    /// A device reported an event.
    fn event() -> (r: Result<(), Error>)
        default_ensures
            r is Ok,
    {
        Ok(())
    }
}

/// The work queues of a device, in the order in which they are allocated.
#[derive(Clone, Copy, Debug, PartialEq, Eq)]
pub enum WorkQueue {
    /// The device's own queue.
    Device,
    /// Queue-pair events.
    QpEvent,
    /// Connection management.
    Cm,
    /// Multicast groups.
    Mcg,
}

/// The arguments with which a work queue is allocated.
#[derive(Clone, Copy, Debug, PartialEq, Eq)]
pub struct QueueParams {
    pub name: &'static str,
    pub flags: u32,
    pub max_active: i32,
}

impl WorkQueue {
    /// The slot of this queue.
    pub open spec fn slot_of(self) -> usize {
        match self {
            WorkQueue::Device => 0,
            WorkQueue::QpEvent => 1,
            WorkQueue::Cm => 2,
            WorkQueue::Mcg => 3,
        }
    }

    /// The queue of a slot.
    pub open spec fn of_slot(slot: usize) -> Option<WorkQueue> {
        if slot == 0 {
            Some(WorkQueue::Device)
        } else if slot == 1 {
            Some(WorkQueue::QpEvent)
        } else if slot == 2 {
            Some(WorkQueue::Cm)
        } else if slot == 3 {
            Some(WorkQueue::Mcg)
        } else {
            None
        }
    }

    /// The arguments with which this queue is allocated.
    pub open spec fn params_of(self) -> QueueParams {
        match self {
            WorkQueue::Device => QueueParams { name: "mlx4_ib", flags: 655369, max_active: 1 },
            WorkQueue::QpEvent => QueueParams {
                name: "mlx4_ib_qp_event_wq",
                flags: 655361,
                max_active: 1,
            },
            WorkQueue::Cm => QueueParams { name: "mlx4_ib_cm", flags: 0, max_active: 0 },
            WorkQueue::Mcg => QueueParams { name: "mlx4_ib_mcg", flags: 655369, max_active: 1 },
        }
    }

    /// The slot of this queue.
    pub fn slot(self) -> (slot: usize)
        ensures
            slot == self.slot_of(),
    {
        match self {
            WorkQueue::Device => 0,
            WorkQueue::QpEvent => 1,
            WorkQueue::Cm => 2,
            WorkQueue::Mcg => 3,
        }
    }

    /// The queue of a slot.
    pub fn at(slot: usize) -> (queue: Option<WorkQueue>)
        ensures
            queue == WorkQueue::of_slot(slot),
    {
        if slot == 0 {
            Some(WorkQueue::Device)
        } else if slot == 1 {
            Some(WorkQueue::QpEvent)
        } else if slot == 2 {
            Some(WorkQueue::Cm)
        } else if slot == 3 {
            Some(WorkQueue::Mcg)
        } else {
            None
        }
    }

    /// The arguments with which this queue is allocated.
    pub fn params(self) -> (params: QueueParams)
        ensures
            params == self.params_of(),
    {
        match self {
            WorkQueue::Device => QueueParams { name: "mlx4_ib", flags: 655369, max_active: 1 },
            WorkQueue::QpEvent => QueueParams {
                name: "mlx4_ib_qp_event_wq",
                flags: 655361,
                max_active: 1,
            },
            WorkQueue::Cm => QueueParams { name: "mlx4_ib_cm", flags: 0, max_active: 0 },
            WorkQueue::Mcg => QueueParams { name: "mlx4_ib_mcg", flags: 655369, max_active: 1 },
        }
    }
}

/// An entry point of the adapter, as it stands in an operation table.
#[derive(Clone, Copy, Debug, PartialEq, Eq)]
pub enum Mlx4Callback {
    /// [`Mlx4OperationTable::add_callback`].
    Add,
    /// [`Mlx4OperationTable::remove_callback`].
    Remove,
    /// [`Mlx4OperationTable::event_callback`].
    Event,
}

/// The operation table of an mlx4 interface.
#[derive(Clone, Copy, Debug, PartialEq, Eq)]
pub struct Mlx4Interface {
    pub add: Option<Mlx4Callback>,
    pub remove: Option<Mlx4Callback>,
    pub event: Option<Mlx4Callback>,
    pub get_dev: Option<Mlx4Callback>,
    pub activate: Option<Mlx4Callback>,
    pub list: ListHead,
    pub protocol: u32,
    pub flags: i32,
}

/// The table that stands for a driver: its three operations bound, the
/// protocol InfiniBand over IPv6 (0), bonding supported (flag 1), not linked.
pub open spec fn interface_table() -> Mlx4Interface {
    Mlx4Interface {
        add: Some(Mlx4Callback::Add),
        remove: Some(Mlx4Callback::Remove),
        event: Some(Mlx4Callback::Event),
        get_dev: None,
        activate: None,
        list: ListHead { next: 0, prev: 0 },
        protocol: 0,
        flags: 1,
    }
}

/// The bridge from the raw entry points that the mlx4 core calls to the
/// operations of the driver `T`. It has no state.
pub struct Mlx4OperationTable<T>(PhantomData<T>);

impl<T: Mlx4Operation> Mlx4OperationTable<T> {
    /// Builds the operation table of the driver.
    pub fn build() -> (table: Mlx4Interface)
        ensures
            table == interface_table(),
    {
        Mlx4Interface {
            add: Some(Mlx4Callback::Add),
            remove: Some(Mlx4Callback::Remove),
            event: Some(Mlx4Callback::Event),
            get_dev: None,
            activate: None,
            list: ListHead::unlinked(),
            protocol: 0,
            flags: 1,
        }
    }

    /// Entry point for a new device: runs the driver's `add`, whatever the
    /// device. The core gets what the raw convention makes of the result: no
    /// context, that is the null pointer.
    pub fn add_callback(_dev: usize) -> (context: usize)
        ensures
            exists|result: Result<(), Error>| #[trigger] call_ensures(T::add, (), result) && context == context_of(result),
            context == 0,
    {
        let _ = T::add();
        0
    }

    /// Entry point for a device that goes away: runs the driver's `remove` and
    /// drops its result.
    pub fn remove_callback(_dev: usize, _context: usize) {
        let _ = T::remove();
    }

    /// Entry point for a device event: runs the driver's `event` and drops its
    /// result.
    pub fn event_callback(_dev: usize, _context: usize, _event: u32, _param: u64) {
        let _ = T::event();
    }
}

/// The context that the core gets for a result of the driver's `add`. The
/// raw convention has no room for an error: success and failure both come to
/// no context, the null pointer.
pub open spec fn context_of(result: Result<(), Error>) -> usize {
    match result {
        Ok(_) => 0,
        Err(_) => 0,
    }
}

/// What the kernel is asked for.
#[derive(Clone, Copy, Debug, PartialEq, Eq)]
pub enum Request {
    /// Allocate a work queue. The reply carries its handle.
    AllocWorkqueue(QueueParams),
    /// Destroy the work queue of this handle.
    DestroyWorkqueue(usize),
    /// Register this interface with the mlx4 core.
    RegisterInterface(Mlx4Interface),
    /// Take this interface back from the mlx4 core.
    UnregisterInterface(Mlx4Interface),
}

/// The request that attempts a slot: the allocation of its work queue, or,
/// for the last slot, the registration of the operation table.
pub open spec fn acquisition_of(slot: usize) -> Option<Request> {
    match WorkQueue::of_slot(slot) {
        Some(queue) => Some(Request::AllocWorkqueue(queue.params_of())),
        None => if slot == INTERFACE {
            Some(Request::RegisterInterface(interface_table()))
        } else {
            None
        },
    }
}

/// The requests that release a sub-resource: a work queue is destroyed, the
/// operation table is taken back.
pub open spec fn disposal_of(held: Held) -> Seq<Request> {
    match WorkQueue::of_slot(held.slot) {
        Some(_) => seq![Request::DestroyWorkqueue(held.handle)],
        None => if held.slot == INTERFACE {
            seq![Request::UnregisterInterface(interface_table())]
        } else {
            Seq::empty()
        },
    }
}

/// The registration of an mlx4 driver.
pub struct Registration<T: Mlx4Operation> {
    registered: bool,
    name: &'static str,
    resources: ResourceSet,
    phantom: PhantomData<T>,
}

impl<T: Mlx4Operation> Plan for Registration<T> {
    type Request = Request;

    /// Every work queue is needed, and so is the publication.
    open spec fn optional(slot: usize) -> bool {
        false
    }

    open spec fn acquisition_of(slot: usize) -> Option<Request> {
        acquisition_of(slot)
    }

    /// Every reply is read in the usual way.
    open spec fn outcome_of(slot: usize, reply: Reply) -> Outcome {
        reply.reading()
    }

    /// No acquisition needs a second request.
    open spec fn completion_of(slot: usize, outcome: Outcome) -> Option<Request> {
        None
    }

    open spec fn disposal_of(held: Held) -> Seq<Request> {
        disposal_of(held)
    }

    proof fn lemma_absent_is_optional(slot: usize, reply: Reply) {
    }

    fn acquisition(slot: usize) -> (request: Option<Request>) {
        match WorkQueue::at(slot) {
            Some(queue) => Some(Request::AllocWorkqueue(queue.params())),
            None => {
                if slot == INTERFACE {
                    Some(Request::RegisterInterface(Mlx4OperationTable::<T>::build()))
                } else {
                    None
                }
            },
        }
    }

    fn outcome(slot: usize, reply: Reply) -> (outcome: Outcome) {
        reply.read()
    }

    fn completion(slot: usize, outcome: Outcome) -> (request: Option<Request>) {
        None
    }

    fn disposal(held: Held) -> (requests: Vec<Request>) {
        let mut requests = Vec::new();
        match WorkQueue::at(held.slot) {
            Some(_) => {
                requests.push(Request::DestroyWorkqueue(held.handle));
            },
            None => {
                if held.slot == INTERFACE {
                    requests.push(Request::UnregisterInterface(Mlx4OperationTable::<T>::build()));
                }
            },
        }
        requests
    }
}

/// The model of a [`Registration`].
pub struct RegistrationView {
    /// The driver is published to the mlx4 core.
    pub registered: bool,
    /// The name the registration was made with.
    pub name: Seq<char>,
    /// The work queues and the publication.
    pub resources: SetState,
}

impl RegistrationView {
    /// All work queues are present and the table is published: the log holds
    /// the five slots in their order.
    pub open spec fn complete(self) -> bool {
        &&& self.resources.held.len() == SLOTS
        &&& forall|i: int| 0 <= i < SLOTS ==> (#[trigger] self.resources.held[i]).slot == i
    }

    /// A registration is either registered, with everything present, or not,
    /// with nothing present; and it is never left in the middle of an operation.
    pub open spec fn wf(self) -> bool {
        &&& self.resources.slots == SLOTS
        &&& self.resources.stage is Idle
        &&& if self.registered {
            self.complete()
        } else {
            self.resources.held.len() == 0
        }
    }
}

impl<T: Mlx4Operation> View for Registration<T> {
    type V = RegistrationView;

    closed spec fn view(&self) -> RegistrationView {
        RegistrationView {
            registered: self.registered,
            name: self.name@,
            resources: self.resources@,
        }
    }
}

impl<T: Mlx4Operation> Registration<T> {
    /// Creates a registration that is not registered yet.
    pub fn new(name: &'static str) -> (registration: Self)
        ensures
            registration@ == (RegistrationView {
                registered: false,
                name: name@,
                resources: SetState::fresh(SLOTS),
            }),
            registration@.wf(),
    {
        Registration { registered: false, name, resources: ResourceSet::new(SLOTS), phantom: PhantomData }
    }

    /// Creates a registration on the heap and registers it there, as
    /// [`Registration::register`] does. If that fails, the error is handed on
    /// and the registration is given up; nothing of it is left with the host.
    pub fn new_pinned<H: Host<Request>>(
        name: &'static str,
        channel: &mut Channel<Request, H>,
    ) -> (r: Result<Box<Self>, Error>)
        ensures
            exists|replies: Seq<Reply>|
                {
                    &&& #[trigger] conclusive::<Self>(SLOTS, replies)
                    &&& final(channel).history() == old(channel).history() + bring_up_exchanges::<
                        Self,
                    >(replies)
                    &&& match r {
                        Ok(registration) => bring_up_result::<Self>(replies) is Ok && registration@
                            == (RegistrationView {
                            registered: true,
                            name: name@,
                            resources: SetState {
                                slots: SLOTS,
                                held: bring_up_held::<Self>(replies),
                                stage: Stage::Idle,
                            },
                        }),
                        Err(e) => bring_up_result::<Self>(replies) == Err::<(), Error>(e),
                    }
                },
            r matches Ok(registration) ==> registration@.wf(),
    {
        let mut registration = Box::new(Self::new(name));
        match registration.register(channel) {
            Ok(()) => Ok(registration),
            Err(e) => Err(e),
        }
    }

    /// Whether the driver is registered.
    pub fn registered(&self) -> (registered: bool)
        ensures
            registered == self@.registered,
    {
        self.registered
    }

    /// The name the registration was made with.
    pub fn name(&self) -> (name: &'static str)
        ensures
            name@ == self@.name,
    {
        self.name
    }

    /// The handle of a work queue, if the queue is present.
    pub fn queue(&self, queue: WorkQueue) -> (handle: Option<usize>)
        ensures
            handle == match self@.resources.lookup(queue.slot_of()) {
                Some(held) => Some(held.handle),
                None => None,
            },
    {
        match self.resources.get(queue.slot()) {
            Some(held) => Some(held.handle),
            None => None,
        }
    }

    /// Registers the driver with the mlx4 core.
    ///
    /// The work queues are allocated in their order, and then the operation
    /// table is published. If any of this fails, what had been allocated is
    /// destroyed again, last first, and the error is handed on as it came.
    /// A registration that is registered already refuses with `EINVAL`, and the
    /// host is not asked for anything.
    pub fn register<H: Host<Request>>(&mut self, channel: &mut Channel<Request, H>) -> (r: Result<
        (),
        Error,
    >)
        requires
            old(self)@.wf(),
        ensures
            final(self)@.wf(),
            final(self)@.name == old(self)@.name,
            old(self)@.registered ==> r == Err::<(), Error>(Error { errno: EINVAL }) && final(self)@
                == old(self)@ && *final(channel) == *old(channel),
            !old(self)@.registered ==> final(self)@.registered == (r is Ok) && exists|
                replies: Seq<Reply>,
            | #[trigger]
                brought_up::<Self>(
                    SLOTS,
                    replies,
                    old(channel).history(),
                    final(channel).history(),
                    r,
                    final(self)@.resources,
                ),
    {
        if self.registered {
            return Err(Error { errno: EINVAL });
        }
        let result = bring_up::<Self, H>(&mut self.resources, channel);
        proof {
            if result is Ok {
                assert forall|slot: usize| slot < SLOTS implies #[trigger] self.resources@.holds(
                    slot,
                ) by {
                    assert(!Self::optional(slot));
                }
                lemma_filled_log(self.resources@);
            }
        }
        self.registered = result.is_ok();
        result
    }

    /// Takes the registration down: the operation table is retracted first, and
    /// then the work queues are destroyed, last allocated first.
    ///
    /// On a registration that is not registered this does nothing.
    pub fn unregister<H: Host<Request>>(&mut self, channel: &mut Channel<Request, H>)
        requires
            old(self)@.wf(),
        ensures
            final(self)@ == (RegistrationView {
                registered: false,
                name: old(self)@.name,
                resources: SetState::fresh(SLOTS),
            }),
            old(self)@.registered ==> final(channel).history() == old(channel).history()
                + teardown_exchanges::<Self>(old(self)@.resources.held),
            !old(self)@.registered ==> *final(channel) == *old(channel),
    {
        if self.registered {
            take_down::<Self, H>(&mut self.resources, channel);
            self.registered = false;
        }
        assert(self.resources@ =~= SetState::fresh(SLOTS));
    }
}

/// Taking down a registered driver asks the host to take back the operation
/// table, first and once only, and then to destroy the four work queues, last
/// allocated first.
pub proof fn lemma_unpublish_first<T: Mlx4Operation>(v: RegistrationView)
    requires
        v.wf(),
        v.registered,
    ensures
        teardown_exchanges::<Registration<T>>(v.resources.held) == seq![
            told(Request::UnregisterInterface(interface_table())),
            told(Request::DestroyWorkqueue(v.resources.held[3].handle)),
            told(Request::DestroyWorkqueue(v.resources.held[2].handle)),
            told(Request::DestroyWorkqueue(v.resources.held[1].handle)),
            told(Request::DestroyWorkqueue(v.resources.held[0].handle)),
        ],
{
    let held = v.resources.held;
    reveal_with_fuel(teardown_exchanges, 6);
    assert(teardown_exchanges::<Registration<T>>(held) =~= seq![
        told(Request::UnregisterInterface(interface_table())),
        told(Request::DestroyWorkqueue(v.resources.held[3].handle)),
        told(Request::DestroyWorkqueue(v.resources.held[2].handle)),
        told(Request::DestroyWorkqueue(v.resources.held[1].handle)),
        told(Request::DestroyWorkqueue(v.resources.held[0].handle)),
    ]);
}

} // verus!
