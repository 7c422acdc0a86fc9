//! InfiniBand soft-RoCE devices.
//!
//! A [`Registration`] opens the UDP tunnel sockets that carry RoCE traffic,
//! subscribes to changes of the network devices, and then publishes the
//! driver's link operations to the RDMA core. The IPv6 socket is optional: on
//! a platform without IPv6 the registration goes on without it. What the
//! kernel is asked for is a [`Request`]; the [`Plan`] of [`RxeRecvSockets`]
//! says which request belongs to which step.

use vstd::prelude::*;
use std::marker::PhantomData;
use crate::driver::asked;
use crate::driver::attempt_exchanges;
use crate::driver::attempt_outcome;
use crate::driver::bring_up;
use crate::driver::bring_up_exchanges;
use crate::driver::bring_up_held;
use crate::driver::bring_up_result;
use crate::driver::brought_up;
use crate::driver::complete;
use crate::driver::take_down;
use crate::driver::teardown_exchanges;
use crate::driver::told;
use crate::driver::conclusive;
use crate::driver::Channel;
use crate::driver::Host;
use crate::driver::Plan;
use crate::driver::Reply;
use crate::error::Error;
use crate::error::EAFNOSUPPORT;
use crate::error::EINVAL;
use crate::list::ListHead;
use crate::resource_set::Held;
use crate::resource_set::Outcome;
use crate::resource_set::ResourceSet;
use crate::resource_set::SetState;
use crate::resource_set::Stage;
use crate::trace::lemma_ordered_from_above;
use crate::trace::lemma_ordered_from_below;

verus! {

/// The slot of the IPv4 tunnel socket.
pub const SK4: usize = 0;

/// The slot of the IPv6 tunnel socket.
pub const SK6: usize = 1;

/// The slot of the subscription to network device changes.
pub const NOTIFIER: usize = 2;

/// The slot that stands for the publication of the link operations. It comes
/// last: the operations are published last and retracted first.
pub const LINK: usize = 3;

/// The number of slots of the receive sockets alone.
pub const SOCKET_SLOTS: usize = 3;

/// The number of slots of a registration.
pub const SLOTS: usize = 4;

/// The local UDP port of the tunnel sockets, as the socket configuration takes it.
pub const UDP_PORT: u16 = 46866;

/// The encapsulation type of the tunnel sockets.
pub const ENCAP_TYPE: u8 = 1;

/// The operations of a soft-RoCE driver.
///
/// Every operation succeeds without doing anything unless the driver says
/// otherwise.
pub trait RxeOperation {
    /// A network device changed.
    fn notify() -> (r: Result<(), Error>)
        default_ensures
            r is Ok,
    {
        Ok(())
    }

    /// A link is to be added.
    fn newlink() -> (r: Result<(), Error>)
        default_ensures
            r is Ok,
    {
        Ok(())
    }

    /// A packet arrived on a tunnel socket.
    fn udp_recv() -> (r: Result<(), Error>)
        default_ensures
            r is Ok,
    {
        Ok(())
    }
}

/// An entry point of the adapters, as it stands in a table.
#[derive(Clone, Copy, Debug, PartialEq, Eq)]
pub enum RxeCallback {
    /// [`RxeNotifyFuncTable::rxe_notify`].
    Notify,
    /// [`RxeRdmaLinkTable::rxe_newlink`].
    Newlink,
    /// [`RxeUdpEncapRecvFuncTable::rxe_udp_encap_recv`].
    UdpEncapRecv,
}

/// An address family.
#[derive(Clone, Copy, Debug, PartialEq, Eq)]
pub enum AddressFamily {
    Inet,
    Inet6,
}

/// How a UDP socket is to be created.
#[derive(Clone, Copy, Debug, PartialEq, Eq)]
pub struct UdpPortCfg {
    pub family: AddressFamily,
    pub local_udp_port: u16,
    pub ipv6_v6only: bool,
}

/// How a UDP socket is to be turned into a tunnel socket.
#[derive(Clone, Copy, Debug, PartialEq, Eq)]
pub struct UdpTunnelSockCfg {
    pub encap_type: u8,
    pub encap_rcv: Option<RxeCallback>,
}

/// A subscription to changes of the network devices.
#[derive(Clone, Copy, Debug, PartialEq, Eq)]
pub struct NotifierBlock {
    pub notifier_call: Option<RxeCallback>,
    pub next: usize,
    pub priority: i32,
}

/// The link operations of an RDMA driver.
#[derive(Clone, Copy, Debug, PartialEq, Eq)]
pub struct RdmaLinkOps {
    pub type_: &'static str,
    pub newlink: Option<RxeCallback>,
    pub list: ListHead,
}

/// The notifier block of a driver: its `notify` bound, not chained, of
/// priority 0.
pub open spec fn notifier_block() -> NotifierBlock {
    NotifierBlock { notifier_call: Some(RxeCallback::Notify), next: 0, priority: 0 }
}

/// The link operations of a driver: of type `rxe`, its `newlink` bound, not
/// linked.
pub open spec fn link_ops() -> RdmaLinkOps {
    RdmaLinkOps {
        type_: "rxe",
        newlink: Some(RxeCallback::Newlink),
        list: ListHead { next: 0, prev: 0 },
    }
}

/// The configuration of the IPv4 tunnel socket.
pub open spec fn ipv4_port_cfg() -> UdpPortCfg {
    UdpPortCfg { family: AddressFamily::Inet, local_udp_port: UDP_PORT, ipv6_v6only: false }
}

/// The configuration of the IPv6 tunnel socket: it takes IPv6 traffic only.
pub open spec fn ipv6_port_cfg() -> UdpPortCfg {
    UdpPortCfg { family: AddressFamily::Inet6, local_udp_port: UDP_PORT, ipv6_v6only: true }
}

/// The configuration that makes a socket a tunnel socket of the driver: its
/// `udp_recv` receives what arrives.
pub open spec fn tunnel_cfg() -> UdpTunnelSockCfg {
    UdpTunnelSockCfg { encap_type: ENCAP_TYPE, encap_rcv: Some(RxeCallback::UdpEncapRecv) }
}

/// The bridge from the notifier entry point to the driver `T`.
pub struct RxeNotifyFuncTable<T>(PhantomData<T>);

impl<T: RxeOperation> RxeNotifyFuncTable<T> {
    /// Builds the notifier block of the driver.
    pub fn build() -> (block: NotifierBlock)
        ensures
            block == notifier_block(),
    {
        NotifierBlock { notifier_call: Some(RxeCallback::Notify), next: 0, priority: 0 }
    }

    /// Entry point for a change of a network device: runs the driver's
    /// `notify`, whatever the arguments. The status is what the raw convention
    /// makes of the result: always 0.
    pub fn rxe_notify(_block: usize, _event: u64, _arg: usize) -> (status: i32)
        ensures
            exists|result: Result<(), Error>| #[trigger] call_ensures(T::notify, (), result) && status == status_of(result),
            status == 0,
    {
        let _ = T::notify();
        0
    }
}

/// The bridge from the link entry point to the driver `T`.
pub struct RxeRdmaLinkTable<T>(PhantomData<T>);

impl<T: RxeOperation> RxeRdmaLinkTable<T> {
    /// Builds the link operations of the driver.
    pub fn build() -> (ops: RdmaLinkOps)
        ensures
            ops == link_ops(),
    {
        RdmaLinkOps { type_: "rxe", newlink: Some(RxeCallback::Newlink), list: ListHead::unlinked() }
    }

    /// Entry point for a new link: runs the driver's `newlink`, whatever the arguments.
    /// The status is what the raw convention makes of the result: always 0.
    pub fn rxe_newlink(_ibdev_name: usize, _ndev: usize) -> (status: i32)
        ensures
            exists|result: Result<(), Error>| #[trigger] call_ensures(T::newlink, (), result) && status == status_of(result),
            status == 0,
    {
        let _ = T::newlink();
        0
    }
}

/// The bridge from the receive entry point of a tunnel socket to the driver `T`.
pub struct RxeUdpEncapRecvFuncTable<T>(PhantomData<T>);

impl<T: RxeOperation> RxeUdpEncapRecvFuncTable<T> {
    /// The receive entry point, as it stands in a tunnel configuration.
    pub fn build_func() -> (entry: Option<RxeCallback>)
        ensures
            entry == Some(RxeCallback::UdpEncapRecv),
    {
        Some(RxeCallback::UdpEncapRecv)
    }

    /// Entry point for a packet: runs the driver's `udp_recv`, whatever the arguments.
    /// The status is what the raw convention makes of the result: always 0.
    pub fn rxe_udp_encap_recv(_sk: usize, _skb: usize) -> (status: i32)
        ensures
            exists|result: Result<(), Error>| #[trigger] call_ensures(T::udp_recv, (), result) && status == status_of(result),
            status == 0,
    {
        let _ = T::udp_recv();
        0
    }
}

/// The status that the kernel gets for a result of one of the driver's
/// operations. The raw convention has no room for an error: success and
/// failure both come to 0.
pub open spec fn status_of(result: Result<(), Error>) -> i32 {
    match result {
        Ok(_) => 0,
        Err(_) => 0,
    }
}

/// What the kernel is asked for.
#[derive(Clone, Copy, Debug, PartialEq, Eq)]
pub enum Request {
    /// Create an IPv4 UDP socket. The reply carries the status and the socket.
    UdpSockCreate4(UdpPortCfg),
    /// Create an IPv6 UDP socket. The reply carries the status and the socket.
    UdpSockCreate6(UdpPortCfg),
    /// Turn this socket into a tunnel socket.
    SetupUdpTunnelSock(usize, UdpTunnelSockCfg),
    /// Release this tunnel socket.
    UdpTunnelSockRelease(usize),
    /// Subscribe to changes of the network devices. The reply carries the status.
    RegisterNetdeviceNotifier(NotifierBlock),
    /// End the subscription.
    UnregisterNetdeviceNotifier(NotifierBlock),
    /// Register these link operations with the RDMA core.
    RdmaLinkRegister(RdmaLinkOps),
    /// Take these link operations back from the RDMA core.
    RdmaLinkUnregister(RdmaLinkOps),
    /// Take the soft-RoCE driver's devices from the InfiniBand core.
    IbUnregisterDriver,
}

/// What the creation of a tunnel socket amounts to.
///
/// A negative status is a failure, with one exception: where the socket is
/// optional and the platform does not support its address family, the socket
/// is absent and nothing has failed.
pub open spec fn socket_outcome(optional: bool, reply: Reply) -> Outcome {
    if optional && reply.status == EAFNOSUPPORT {
        Outcome::Absent
    } else {
        reply.reading()
    }
}

/// What the subscription to network device changes amounts to: any status
/// but 0 is a failure. The subscription has no handle of its own.
pub open spec fn notifier_outcome(reply: Reply) -> Outcome {
    if reply.status != 0 {
        Outcome::Failed(Error { errno: reply.status })
    } else {
        Outcome::Present(0)
    }
}

/// The request that attempts a slot.
pub open spec fn acquisition_of(slot: usize) -> Option<Request> {
    if slot == SK4 {
        Some(Request::UdpSockCreate4(ipv4_port_cfg()))
    } else if slot == SK6 {
        Some(Request::UdpSockCreate6(ipv6_port_cfg()))
    } else if slot == NOTIFIER {
        Some(Request::RegisterNetdeviceNotifier(notifier_block()))
    } else if slot == LINK {
        Some(Request::RdmaLinkRegister(link_ops()))
    } else {
        None
    }
}

/// How the reply to the attempt of a slot is read. The reply to the
/// registration of the link operations is read in the usual way.
pub open spec fn outcome_of(slot: usize, reply: Reply) -> Outcome {
    if slot == SK4 {
        socket_outcome(false, reply)
    } else if slot == SK6 {
        socket_outcome(true, reply)
    } else if slot == NOTIFIER {
        notifier_outcome(reply)
    } else if slot == LINK {
        reply.reading()
    } else {
        Outcome::Failed(Error { errno: EINVAL })
    }
}

/// The request that completes an acquisition: a socket that was created is
/// set up as a tunnel socket. Nothing else needs a second request.
pub open spec fn completion_of(slot: usize, outcome: Outcome) -> Option<Request> {
    match outcome {
        Outcome::Present(sock) if slot == SK4 || slot == SK6 => Some(
            Request::SetupUdpTunnelSock(sock, tunnel_cfg()),
        ),
        _ => None,
    }
}

/// The requests that release a sub-resource. The link operations are taken
/// back from the RDMA core before the driver's devices are taken from the
/// InfiniBand core.
pub open spec fn disposal_of(held: Held) -> Seq<Request> {
    if held.slot == SK4 || held.slot == SK6 {
        seq![Request::UdpTunnelSockRelease(held.handle)]
    } else if held.slot == NOTIFIER {
        seq![Request::UnregisterNetdeviceNotifier(notifier_block())]
    } else if held.slot == LINK {
        seq![Request::RdmaLinkUnregister(link_ops()), Request::IbUnregisterDriver]
    } else {
        Seq::empty()
    }
}

/// The configuration of the IPv4 tunnel socket.
pub fn ipv4_cfg() -> (cfg: UdpPortCfg)
    ensures
        cfg == ipv4_port_cfg(),
{
    UdpPortCfg { family: AddressFamily::Inet, local_udp_port: UDP_PORT, ipv6_v6only: false }
}

/// The configuration of the IPv6 tunnel socket.
pub fn ipv6_cfg() -> (cfg: UdpPortCfg)
    ensures
        cfg == ipv6_port_cfg(),
{
    UdpPortCfg { family: AddressFamily::Inet6, local_udp_port: UDP_PORT, ipv6_v6only: true }
}

/// Reads the reply to the creation of the IPv4 tunnel socket, which is mandatory.
pub fn ipv4_init(reply: Reply) -> (outcome: Outcome)
    ensures
        outcome == socket_outcome(false, reply),
{
    reply.read()
}

/// Reads the reply to the creation of the IPv6 tunnel socket, which is optional.
pub fn ipv6_init(reply: Reply) -> (outcome: Outcome)
    ensures
        outcome == socket_outcome(true, reply),
{
    if reply.status == EAFNOSUPPORT {
        Outcome::Absent
    } else {
        reply.read()
    }
}

/// Reads the reply to the subscription to network device changes.
pub fn net_notifier_register(reply: Reply) -> (outcome: Outcome)
    ensures
        outcome == notifier_outcome(reply),
{
    if reply.status != 0 {
        Outcome::Failed(Error::from_kernel_errno(reply.status))
    } else {
        Outcome::Present(0)
    }
}

/// The receive side of a soft-RoCE device: the two tunnel sockets and the
/// subscription to network device changes.
pub struct RxeRecvSockets<T: RxeOperation> {
    resources: ResourceSet,
    phantom: PhantomData<T>,
}

impl<T: RxeOperation> Plan for RxeRecvSockets<T> {
    type Request = Request;

    /// Only the IPv6 socket may be missing.
    open spec fn optional(slot: usize) -> bool {
        slot == SK6
    }

    open spec fn acquisition_of(slot: usize) -> Option<Request> {
        acquisition_of(slot)
    }

    open spec fn outcome_of(slot: usize, reply: Reply) -> Outcome {
        outcome_of(slot, reply)
    }

    open spec fn completion_of(slot: usize, outcome: Outcome) -> Option<Request> {
        completion_of(slot, outcome)
    }

    open spec fn disposal_of(held: Held) -> Seq<Request> {
        disposal_of(held)
    }

    proof fn lemma_absent_is_optional(slot: usize, reply: Reply) {
    }

    fn acquisition(slot: usize) -> (request: Option<Request>) {
        if slot == SK4 {
            Some(Request::UdpSockCreate4(ipv4_cfg()))
        } else if slot == SK6 {
            Some(Request::UdpSockCreate6(ipv6_cfg()))
        } else if slot == NOTIFIER {
            Some(Request::RegisterNetdeviceNotifier(RxeNotifyFuncTable::<T>::build()))
        } else if slot == LINK {
            Some(Request::RdmaLinkRegister(RxeRdmaLinkTable::<T>::build()))
        } else {
            None
        }
    }

    fn outcome(slot: usize, reply: Reply) -> (outcome: Outcome) {
        if slot == SK4 {
            ipv4_init(reply)
        } else if slot == SK6 {
            ipv6_init(reply)
        } else if slot == NOTIFIER {
            net_notifier_register(reply)
        } else if slot == LINK {
            reply.read()
        } else {
            Outcome::Failed(Error { errno: EINVAL })
        }
    }

    fn completion(slot: usize, outcome: Outcome) -> (request: Option<Request>) {
        match outcome {
            Outcome::Present(sock) => {
                if slot == SK4 || slot == SK6 {
                    Some(
                        Request::SetupUdpTunnelSock(
                            sock,
                            UdpTunnelSockCfg {
                                encap_type: ENCAP_TYPE,
                                encap_rcv: RxeUdpEncapRecvFuncTable::<T>::build_func(),
                            },
                        ),
                    )
                } else {
                    None
                }
            },
            _ => None,
        }
    }

    fn disposal(held: Held) -> (requests: Vec<Request>) {
        let mut requests = Vec::new();
        if held.slot == SK4 || held.slot == SK6 {
            requests.push(Request::UdpTunnelSockRelease(held.handle));
        } else if held.slot == NOTIFIER {
            requests.push(Request::UnregisterNetdeviceNotifier(RxeNotifyFuncTable::<T>::build()));
        } else if held.slot == LINK {
            requests.push(Request::RdmaLinkUnregister(RxeRdmaLinkTable::<T>::build()));
            requests.push(Request::IbUnregisterDriver);
        }
        requests
    }
}

/// Nothing is under way, the log is in order, and every slot but that of the
/// IPv6 socket is filled.
pub open spec fn filled(s: SetState) -> bool {
    &&& s.wf()
    &&& s.stage is Idle
    &&& forall|slot: usize| slot < s.slots && slot != SK6 ==> #[trigger] s.holds(slot)
}

impl<T: RxeOperation> View for RxeRecvSockets<T> {
    type V = SetState;

    closed spec fn view(&self) -> SetState {
        self.resources@
    }
}

impl<T: RxeOperation> RxeRecvSockets<T> {
    /// The sockets and the subscription are either all there, but perhaps
    /// for the IPv6 socket, or none is; and they are never left in the middle
    /// of an operation.
    pub open spec fn wf(&self) -> bool {
        &&& self@.slots == SOCKET_SLOTS
        &&& self@.vacant() || filled(self@)
    }

    /// Creates the receive side with nothing allocated yet.
    pub fn new() -> (sockets: Self)
        ensures
            sockets@ == SetState::fresh(SOCKET_SLOTS),
            sockets.wf(),
    {
        RxeRecvSockets { resources: ResourceSet::new(SOCKET_SLOTS), phantom: PhantomData }
    }

    /// Opens the IPv4 socket, then the IPv6 socket, then subscribes to network
    /// device changes.
    ///
    /// If the platform does not support IPv6, the IPv6 socket is left out and
    /// the rest goes on. If anything else fails, what had been opened is
    /// released again, last first, nothing is left allocated, and the error is
    /// handed on as it came. If the sockets are allocated already, this
    /// refuses with `EINVAL` and the host is not asked for anything.
    pub fn allocate<H: Host<Request>>(&mut self, channel: &mut Channel<Request, H>) -> (r: Result<
        (),
        Error,
    >)
        requires
            old(self).wf(),
        ensures
            final(self).wf(),
            !old(self)@.vacant() ==> r == Err::<(), Error>(Error { errno: EINVAL }) && final(self)@
                == old(self)@ && *final(channel) == *old(channel),
            old(self)@.vacant() ==> exists|replies: Seq<Reply>| #[trigger]
                brought_up::<Self>(
                    SOCKET_SLOTS,
                    replies,
                    old(channel).history(),
                    final(channel).history(),
                    r,
                    final(self)@,
                ),
    {
        let result = bring_up::<Self, H>(&mut self.resources, channel);
        proof {
            if old(self)@.vacant() && result is Ok {
                lemma_complete_is_filled::<T>(self.resources@);
            }
        }
        result
    }

    /// Ends the subscription and releases the sockets, in this order. Nothing
    /// is left allocated; where nothing was, the host is not asked for anything.
    pub fn release<H: Host<Request>>(&mut self, channel: &mut Channel<Request, H>)
        requires
            old(self).wf(),
        ensures
            final(self)@ == SetState::fresh(SOCKET_SLOTS),
            final(channel).history() == old(channel).history() + teardown_exchanges::<Self>(
                old(self)@.held,
            ),
    {
        take_down::<Self, H>(&mut self.resources, channel)
    }

    /// The IPv4 socket, if it is open.
    pub fn sk4(&self) -> (sock: Option<usize>)
        ensures
            sock == match self@.lookup(SK4) {
                Some(held) => Some(held.handle),
                None => None,
            },
    {
        match self.resources.get(SK4) {
            Some(held) => Some(held.handle),
            None => None,
        }
    }

    /// The IPv6 socket, if it is open.
    pub fn sk6(&self) -> (sock: Option<usize>)
        ensures
            sock == match self@.lookup(SK6) {
                Some(held) => Some(held.handle),
                None => None,
            },
    {
        match self.resources.get(SK6) {
            Some(held) => Some(held.handle),
            None => None,
        }
    }

    /// Whether the subscription to network device changes is in place.
    pub fn subscribed(&self) -> (subscribed: bool)
        ensures
            subscribed == self@.holds(NOTIFIER),
    {
        self.resources.get(NOTIFIER).is_some()
    }
}

/// A set that was brought up by the plan is filled.
proof fn lemma_complete_is_filled<T: RxeOperation>(s: SetState)
    requires
        complete::<RxeRecvSockets<T>>(s),
    ensures
        filled(s),
{
    assert forall|slot: usize| slot < s.slots && slot != SK6 implies #[trigger] s.holds(slot) by {
        assert(!RxeRecvSockets::<T>::optional(slot));
    }
}

/// The registration of a soft-RoCE driver.
pub struct Registration<T: RxeOperation> {
    registered: bool,
    name: &'static str,
    resources: ResourceSet,
    phantom: PhantomData<T>,
}

/// The model of a [`Registration`].
pub struct RegistrationView {
    /// The driver is published to the RDMA core.
    pub registered: bool,
    /// The name the registration was made with.
    pub name: Seq<char>,
    /// The receive side and the publication.
    pub resources: SetState,
}

impl RegistrationView {
    /// A registration is either registered, with everything present but
    /// perhaps the IPv6 socket, or not, with nothing present; and it is never
    /// left in the middle of an operation.
    pub open spec fn wf(self) -> bool {
        &&& self.resources.slots == SLOTS
        &&& if self.registered {
            filled(self.resources)
        } else {
            self.resources.vacant()
        }
    }
}

impl<T: RxeOperation> View for Registration<T> {
    type V = RegistrationView;

    closed spec fn view(&self) -> RegistrationView {
        RegistrationView {
            registered: self.registered,
            name: self.name@,
            resources: self.resources@,
        }
    }
}

impl<T: RxeOperation> Registration<T> {
    /// Creates a registration that is not registered yet.
    pub fn new(name: &'static str) -> (registration: Self)
        ensures
            registration@ == (RegistrationView {
                registered: false,
                name: name@,
                resources: SetState::fresh(SLOTS),
            }),
            registration@.wf(),
    {
        Registration { registered: false, name, resources: ResourceSet::new(SLOTS), phantom: PhantomData }
    }

    /// Creates a registration on the heap and registers it there, as
    /// [`Registration::register`] does. If that fails, the error is handed on
    /// and the registration is given up; nothing of it is left with the host.
    pub fn new_pinned<H: Host<Request>>(
        name: &'static str,
        channel: &mut Channel<Request, H>,
    ) -> (r: Result<Box<Self>, Error>)
        ensures
            exists|replies: Seq<Reply>|
                {
                    &&& #[trigger] conclusive::<RxeRecvSockets<T>>(SLOTS, replies)
                    &&& final(channel).history() == old(channel).history() + bring_up_exchanges::<
                        RxeRecvSockets<T>,
                    >(replies)
                    &&& match r {
                        Ok(registration) => bring_up_result::<RxeRecvSockets<T>>(replies) is Ok
                            && registration@ == (RegistrationView {
                            registered: true,
                            name: name@,
                            resources: SetState {
                                slots: SLOTS,
                                held: bring_up_held::<RxeRecvSockets<T>>(replies),
                                stage: Stage::Idle,
                            },
                        }),
                        Err(e) => bring_up_result::<RxeRecvSockets<T>>(replies) == Err::<(), Error>(
                            e,
                        ),
                    }
                },
            r matches Ok(registration) ==> registration@.wf(),
    {
        let mut registration = Box::new(Self::new(name));
        match registration.register(channel) {
            Ok(()) => Ok(registration),
            Err(e) => Err(e),
        }
    }

    /// Whether the driver is registered.
    pub fn registered(&self) -> (registered: bool)
        ensures
            registered == self@.registered,
    {
        self.registered
    }

    /// The name the registration was made with.
    pub fn name(&self) -> (name: &'static str)
        ensures
            name@ == self@.name,
    {
        self.name
    }

    /// The IPv4 socket, if it is open.
    pub fn sk4(&self) -> (sock: Option<usize>)
        ensures
            sock == match self@.resources.lookup(SK4) {
                Some(held) => Some(held.handle),
                None => None,
            },
    {
        match self.resources.get(SK4) {
            Some(held) => Some(held.handle),
            None => None,
        }
    }

    /// The IPv6 socket, if it is open.
    pub fn sk6(&self) -> (sock: Option<usize>)
        ensures
            sock == match self@.resources.lookup(SK6) {
                Some(held) => Some(held.handle),
                None => None,
            },
    {
        match self.resources.get(SK6) {
            Some(held) => Some(held.handle),
            None => None,
        }
    }

    /// Registers the driver with the RDMA core.
    ///
    /// The receive side is brought up as [`RxeRecvSockets::allocate`] does, and
    /// then the link operations are published. If anything fails, what had
    /// been brought up is released again, last first, and the error is handed
    /// on as it came. A registration that is registered already refuses with
    /// `EINVAL`, and the host is not asked for anything.
    pub fn register<H: Host<Request>>(&mut self, channel: &mut Channel<Request, H>) -> (r: Result<
        (),
        Error,
    >)
        requires
            old(self)@.wf(),
        ensures
            final(self)@.wf(),
            final(self)@.name == old(self)@.name,
            old(self)@.registered ==> r == Err::<(), Error>(Error { errno: EINVAL }) && final(self)@
                == old(self)@ && *final(channel) == *old(channel),
            !old(self)@.registered ==> final(self)@.registered == (r is Ok) && exists|
                replies: Seq<Reply>,
            | #[trigger]
                brought_up::<RxeRecvSockets<T>>(
                    SLOTS,
                    replies,
                    old(channel).history(),
                    final(channel).history(),
                    r,
                    final(self)@.resources,
                ),
    {
        if self.registered {
            return Err(Error { errno: EINVAL });
        }
        let result = bring_up::<RxeRecvSockets<T>, H>(&mut self.resources, channel);
        proof {
            if result is Ok {
                lemma_complete_is_filled::<T>(self.resources@);
            }
        }
        self.registered = result.is_ok();
        result
    }

    /// Takes the registration down: the link operations are retracted first,
    /// then the subscription is ended and the sockets are released.
    ///
    /// On a registration that is not registered this does nothing.
    pub fn unregister<H: Host<Request>>(&mut self, channel: &mut Channel<Request, H>)
        requires
            old(self)@.wf(),
        ensures
            final(self)@ == (RegistrationView {
                registered: false,
                name: old(self)@.name,
                resources: SetState::fresh(SLOTS),
            }),
            old(self)@.registered ==> final(channel).history() == old(channel).history()
                + teardown_exchanges::<RxeRecvSockets<T>>(old(self)@.resources.held),
            !old(self)@.registered ==> *final(channel) == *old(channel),
    {
        if self.registered {
            take_down::<RxeRecvSockets<T>, H>(&mut self.resources, channel);
            self.registered = false;
        }
        assert(self.resources@ =~= SetState::fresh(SLOTS));
    }
}

/// Where the platform does not support IPv6, the attempt of the IPv6 socket
/// ends with the socket absent: nothing has failed, and the socket is not set
/// up.
pub proof fn lemma_unsupported_ipv6<T: RxeOperation>(reply: Reply)
    requires
        reply.status == EAFNOSUPPORT,
    ensures
        attempt_outcome::<RxeRecvSockets<T>>(SK6, reply) == Outcome::Absent,
        attempt_exchanges::<RxeRecvSockets<T>>(SK6, reply) == seq![
            asked(Request::UdpSockCreate6(ipv6_port_cfg()), reply),
        ],
{
}

/// A registered driver holds the IPv4 socket, perhaps the IPv6 socket, the
/// subscription and the publication, in this order.
pub proof fn lemma_registered_log(v: RegistrationView)
    requires
        v.wf(),
        v.registered,
    ensures
        ({
            let held = v.resources.held;
            ||| held.len() == 3 && held[0].slot == SK4 && held[1].slot == NOTIFIER && held[2].slot
                == LINK
            ||| held.len() == 4 && held[0].slot == SK4 && held[1].slot == SK6 && held[2].slot
                == NOTIFIER && held[3].slot == LINK
        }),
{
    let s = v.resources;
    let held = s.held;
    assert(s.holds(SK4));
    assert(s.holds(NOTIFIER));
    assert(s.holds(LINK));
    let a = choose|i: int| 0 <= i < held.len() && (#[trigger] held[i]).slot == SK4;
    let b = choose|i: int| 0 <= i < held.len() && (#[trigger] held[i]).slot == NOTIFIER;
    let c = choose|i: int| 0 <= i < held.len() && (#[trigger] held[i]).slot == LINK;
    lemma_ordered_from_below(s, a);
    lemma_ordered_from_above(s, c);
    lemma_ordered_from_above(s, b);
    lemma_ordered_from_below(s, b);
    lemma_ordered_from_above(s, 0);
    if held.len() == 4 {
        lemma_ordered_from_below(s, 1);
        lemma_ordered_from_above(s, 1);
    }
}

/// Taking down a registered driver asks the host to take back the link
/// operations, first and once only; then to end the subscription; then to
/// release the sockets, the IPv6 socket first if there is one.
pub proof fn lemma_unpublish_first<T: RxeOperation>(v: RegistrationView)
    requires
        v.wf(),
        v.registered,
    ensures
        ({
            let held = v.resources.held;
            let exchanges = teardown_exchanges::<RxeRecvSockets<T>>(held);
            &&& held.len() == 3 ==> exchanges == seq![
                told(Request::RdmaLinkUnregister(link_ops())),
                told(Request::IbUnregisterDriver),
                told(Request::UnregisterNetdeviceNotifier(notifier_block())),
                told(Request::UdpTunnelSockRelease(held[0].handle)),
            ]
            &&& held.len() != 3 ==> exchanges == seq![
                told(Request::RdmaLinkUnregister(link_ops())),
                told(Request::IbUnregisterDriver),
                told(Request::UnregisterNetdeviceNotifier(notifier_block())),
                told(Request::UdpTunnelSockRelease(held[1].handle)),
                told(Request::UdpTunnelSockRelease(held[0].handle)),
            ]
        }),
{
    let held = v.resources.held;
    lemma_registered_log(v);
    reveal_with_fuel(teardown_exchanges, 5);
    let exchanges = teardown_exchanges::<RxeRecvSockets<T>>(held);
    if held.len() == 3 {
        assert(exchanges =~= seq![
            told(Request::RdmaLinkUnregister(link_ops())),
            told(Request::IbUnregisterDriver),
            told(Request::UnregisterNetdeviceNotifier(notifier_block())),
            told(Request::UdpTunnelSockRelease(held[0].handle)),
        ]);
    } else {
        assert(exchanges =~= seq![
            told(Request::RdmaLinkUnregister(link_ops())),
            told(Request::IbUnregisterDriver),
            told(Request::UnregisterNetdeviceNotifier(notifier_block())),
            told(Request::UdpTunnelSockRelease(held[1].handle)),
            told(Request::UdpTunnelSockRelease(held[0].handle)),
        ]);
    }
}

} // verus!
