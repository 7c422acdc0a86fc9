use ib_registration::driver::Channel;
use ib_registration::driver::Host;
use ib_registration::driver::Plan;
use ib_registration::driver::Reply;
use ib_registration::error::Error;
use ib_registration::error::EBUSY;
use ib_registration::error::EINVAL;
use ib_registration::error::ENOMEM;
use ib_registration::list::ListHead;
use ib_registration::mlx4::Mlx4Callback;
use ib_registration::mlx4::Mlx4Interface;
use ib_registration::mlx4::Mlx4Operation;
use ib_registration::mlx4::Mlx4OperationTable;
use ib_registration::mlx4::QueueParams;
use ib_registration::mlx4::Registration;
use ib_registration::mlx4::Request;
use ib_registration::mlx4::WorkQueue;
use ib_registration::mlx4::INTERFACE;
use ib_registration::mlx4::SLOTS;
use ib_registration::resource_set::Held;
use ib_registration::resource_set::Outcome;
use std::sync::atomic::AtomicUsize;
use std::sync::atomic::Ordering;

/// A host that records what it is asked, hands out the handles 100, 101, ...
/// and fails where it is told to. Where no reply is expected it answers with
/// a failure, which must go unnoticed.
struct Stub {
    log: Vec<Request>,
    allocated: usize,
    fail_alloc: Option<(usize, i32)>,
    fail_register: Option<i32>,
}

impl Stub {
    fn new() -> Stub {
        Stub { log: Vec::new(), allocated: 0, fail_alloc: None, fail_register: None }
    }

    fn failing_alloc(nth: usize, errno: i32) -> Stub {
        Stub { fail_alloc: Some((nth, errno)), ..Stub::new() }
    }

    fn failing_register(errno: i32) -> Stub {
        Stub { fail_register: Some(errno), ..Stub::new() }
    }
}

impl Host<Request> for Stub {
    fn perform(&mut self, request: &Request) -> Reply {
        self.log.push(*request);
        match request {
            Request::AllocWorkqueue(_) => {
                let nth = self.allocated;
                self.allocated += 1;
                match self.fail_alloc {
                    Some((k, errno)) if k == nth => Reply { status: errno, handle: 0 },
                    _ => Reply { status: 0, handle: 100 + nth },
                }
            }
            Request::RegisterInterface(_) => match self.fail_register {
                Some(errno) => Reply { status: errno, handle: 0 },
                None => Reply { status: 0, handle: 0 },
            },
            Request::DestroyWorkqueue(_) | Request::UnregisterInterface(_) => {
                Reply { status: -1, handle: 0 }
            }
        }
    }
}

struct Plain;

impl Mlx4Operation for Plain {}

fn table() -> Mlx4Interface {
    Mlx4Interface {
        add: Some(Mlx4Callback::Add),
        remove: Some(Mlx4Callback::Remove),
        event: Some(Mlx4Callback::Event),
        get_dev: None,
        activate: None,
        list: ListHead { next: 0, prev: 0 },
        protocol: 0,
        flags: 1,
    }
}

fn allocations() -> Vec<Request> {
    vec![
        Request::AllocWorkqueue(QueueParams { name: "mlx4_ib", flags: 655369, max_active: 1 }),
        Request::AllocWorkqueue(QueueParams {
            name: "mlx4_ib_qp_event_wq",
            flags: 655361,
            max_active: 1,
        }),
        Request::AllocWorkqueue(QueueParams { name: "mlx4_ib_cm", flags: 0, max_active: 0 }),
        Request::AllocWorkqueue(QueueParams { name: "mlx4_ib_mcg", flags: 655369, max_active: 1 }),
    ]
}

fn teardown() -> Vec<Request> {
    vec![
        Request::UnregisterInterface(table()),
        Request::DestroyWorkqueue(103),
        Request::DestroyWorkqueue(102),
        Request::DestroyWorkqueue(101),
        Request::DestroyWorkqueue(100),
    ]
}

#[test]
fn mlx4_new_is_not_registered_and_holds_nothing() {
    let reg = Registration::<Plain>::new("drv0");
    assert!(!reg.registered());
    assert_eq!(reg.name(), "drv0");
    assert_eq!(reg.queue(WorkQueue::Device), None);
    assert_eq!(reg.queue(WorkQueue::QpEvent), None);
    assert_eq!(reg.queue(WorkQueue::Cm), None);
    assert_eq!(reg.queue(WorkQueue::Mcg), None);
}

#[test]
fn mlx4_register_allocates_the_queues_in_order_and_publishes_last() {
    let mut channel = Channel::new(Stub::new());
    let mut reg = Registration::<Plain>::new("drv0");
    assert_eq!(reg.register(&mut channel), Ok(()));
    assert!(reg.registered());
    assert_eq!(reg.name(), "drv0");
    let mut expected = allocations();
    expected.push(Request::RegisterInterface(table()));
    assert_eq!(channel.host().log, expected);
    assert_eq!(reg.queue(WorkQueue::Device), Some(100));
    assert_eq!(reg.queue(WorkQueue::QpEvent), Some(101));
    assert_eq!(reg.queue(WorkQueue::Cm), Some(102));
    assert_eq!(reg.queue(WorkQueue::Mcg), Some(103));
}

#[test]
fn mlx4_teardown_unpublishes_once_and_then_releases_in_reverse() {
    let mut channel = Channel::new(Stub::new());
    let mut reg = Registration::<Plain>::new("drv0");
    assert_eq!(reg.register(&mut channel), Ok(()));
    reg.unregister(&mut channel);
    let log = &channel.host().log;
    assert_eq!(log.len(), 10);
    assert_eq!(log[5..], teardown()[..]);
    let unpublished = log.iter().filter(|r| matches!(r, Request::UnregisterInterface(_))).count();
    assert_eq!(unpublished, 1);
    assert!(!reg.registered());
    assert_eq!(reg.queue(WorkQueue::Device), None);
    assert_eq!(reg.queue(WorkQueue::Mcg), None);
}

#[test]
fn mlx4_second_queue_busy_releases_the_first_and_hands_on_the_error() {
    let mut channel = Channel::new(Stub::failing_alloc(1, EBUSY));
    let mut reg = Registration::<Plain>::new("drv0");
    assert_eq!(reg.register(&mut channel), Err(Error { errno: EBUSY }));
    assert!(!reg.registered());
    let mut expected = allocations();
    expected.truncate(2);
    expected.push(Request::DestroyWorkqueue(100));
    let log = &channel.host().log;
    assert_eq!(*log, expected);
    let releases = log.iter().filter(|r| matches!(r, Request::DestroyWorkqueue(_))).count();
    assert_eq!(releases, 1);
    assert_eq!(reg.queue(WorkQueue::Device), None);
}

#[test]
fn mlx4_a_failure_at_any_queue_releases_the_earlier_ones_in_reverse() {
    for k in 0..4 {
        let errno = -(k as i32) - 100;
        let mut channel = Channel::new(Stub::failing_alloc(k, errno));
        let mut reg = Registration::<Plain>::new("drv0");
        assert_eq!(reg.register(&mut channel), Err(Error { errno }));
        assert!(!reg.registered());
        let mut expected = allocations();
        expected.truncate(k + 1);
        for i in (0..k).rev() {
            expected.push(Request::DestroyWorkqueue(100 + i));
        }
        assert_eq!(channel.host().log, expected);
    }
}

#[test]
fn mlx4_a_failed_publication_releases_all_queues() {
    let mut channel = Channel::new(Stub::failing_register(ENOMEM));
    let mut reg = Registration::<Plain>::new("drv0");
    assert_eq!(reg.register(&mut channel), Err(Error { errno: ENOMEM }));
    assert!(!reg.registered());
    let mut expected = allocations();
    expected.push(Request::RegisterInterface(table()));
    expected.extend([
        Request::DestroyWorkqueue(103),
        Request::DestroyWorkqueue(102),
        Request::DestroyWorkqueue(101),
        Request::DestroyWorkqueue(100),
    ]);
    assert_eq!(channel.host().log, expected);
    assert_eq!(reg.queue(WorkQueue::Mcg), None);
}

#[test]
fn mlx4_register_twice_is_refused_and_the_host_is_left_alone() {
    let mut channel = Channel::new(Stub::new());
    let mut reg = Registration::<Plain>::new("drv0");
    assert_eq!(reg.register(&mut channel), Ok(()));
    assert_eq!(channel.host().log.len(), 5);
    assert_eq!(reg.register(&mut channel), Err(Error { errno: EINVAL }));
    assert!(reg.registered());
    assert_eq!(reg.register(&mut channel), Err(Error { errno: EINVAL }));
    assert!(reg.registered());
    assert_eq!(channel.host().log.len(), 5);
    assert_eq!(channel.host().allocated, 4);
    assert_eq!(reg.queue(WorkQueue::Device), Some(100));
    assert_eq!(reg.queue(WorkQueue::Mcg), Some(103));
}

#[test]
fn mlx4_unregister_of_an_unregistered_driver_does_nothing() {
    let mut channel = Channel::new(Stub::new());
    let mut reg = Registration::<Plain>::new("drv0");
    reg.unregister(&mut channel);
    assert!(channel.host().log.is_empty());
    assert!(!reg.registered());
    let mut failing = Channel::new(Stub::failing_alloc(2, EBUSY));
    assert!(reg.register(&mut failing).is_err());
    let asked = failing.host().log.len();
    reg.unregister(&mut failing);
    assert_eq!(failing.host().log.len(), asked);
}

#[test]
fn mlx4_unregister_twice_releases_once() {
    let mut channel = Channel::new(Stub::new());
    let mut reg = Registration::<Plain>::new("drv0");
    assert_eq!(reg.register(&mut channel), Ok(()));
    reg.unregister(&mut channel);
    assert_eq!(channel.host().log.len(), 10);
    reg.unregister(&mut channel);
    assert_eq!(channel.host().log.len(), 10);
}

#[test]
fn mlx4_acquisitions_and_releases_match() {
    let mut channel = Channel::new(Stub::new());
    let mut reg = Registration::<Plain>::new("drv0");
    assert_eq!(reg.register(&mut channel), Ok(()));
    reg.unregister(&mut channel);
    let host = channel.into_host();
    let count = |f: fn(&Request) -> bool| host.log.iter().filter(|r| f(r)).count();
    assert_eq!(count(|r| matches!(r, Request::AllocWorkqueue(_))), 4);
    assert_eq!(count(|r| matches!(r, Request::DestroyWorkqueue(_))), 4);
    assert_eq!(count(|r| matches!(r, Request::RegisterInterface(_))), 1);
    assert_eq!(count(|r| matches!(r, Request::UnregisterInterface(_))), 1);
}

#[test]
fn mlx4_a_registration_can_be_retried_after_a_failure() {
    let mut reg = Registration::<Plain>::new("drv0");
    let mut failing = Channel::new(Stub::failing_alloc(3, EBUSY));
    assert_eq!(reg.register(&mut failing), Err(Error { errno: EBUSY }));
    let mut channel = Channel::new(Stub::new());
    assert_eq!(reg.register(&mut channel), Ok(()));
    assert!(reg.registered());
    assert_eq!(channel.host().log.len(), 5);
}

#[test]
fn mlx4_a_registration_can_be_registered_again_after_teardown() {
    let mut channel = Channel::new(Stub::new());
    let mut reg = Registration::<Plain>::new("drv0");
    assert_eq!(reg.register(&mut channel), Ok(()));
    reg.unregister(&mut channel);
    assert_eq!(reg.register(&mut channel), Ok(()));
    assert!(reg.registered());
    assert_eq!(reg.queue(WorkQueue::Device), Some(104));
    assert_eq!(reg.queue(WorkQueue::Mcg), Some(107));
}

#[test]
fn mlx4_a_status_that_is_not_negative_is_no_failure() {
    let mut channel = Channel::new(Stub::failing_alloc(0, 5));
    let mut reg = Registration::<Plain>::new("drv0");
    assert_eq!(reg.register(&mut channel), Ok(()));
    assert_eq!(reg.queue(WorkQueue::Device), Some(0));
    assert_eq!(reg.queue(WorkQueue::QpEvent), Some(101));
}

#[test]
fn mlx4_new_pinned_registers_on_the_heap() {
    let mut channel = Channel::new(Stub::new());
    let mut reg = match Registration::<Plain>::new_pinned("drv0", &mut channel) {
        Ok(reg) => reg,
        Err(e) => panic!("registration failed: {:?}", e),
    };
    assert!(reg.registered());
    assert_eq!(reg.name(), "drv0");
    assert_eq!(channel.host().log.len(), 5);
    reg.unregister(&mut channel);
    assert_eq!(channel.host().log[5..], teardown()[..]);
}

#[test]
fn mlx4_new_pinned_hands_on_the_error_and_leaves_nothing_allocated() {
    let mut channel = Channel::new(Stub::failing_alloc(2, EBUSY));
    match Registration::<Plain>::new_pinned("drv0", &mut channel) {
        Ok(_) => panic!("registration succeeded"),
        Err(e) => assert_eq!(e, Error { errno: EBUSY }),
    }
    let mut expected = allocations();
    expected.truncate(3);
    expected.extend([Request::DestroyWorkqueue(101), Request::DestroyWorkqueue(100)]);
    assert_eq!(channel.host().log, expected);
}

#[test]
fn mlx4_the_operation_table_binds_the_three_operations() {
    let table = Mlx4OperationTable::<Plain>::build();
    assert_eq!(table.add, Some(Mlx4Callback::Add));
    assert_eq!(table.remove, Some(Mlx4Callback::Remove));
    assert_eq!(table.event, Some(Mlx4Callback::Event));
    assert_eq!(table.get_dev, None);
    assert_eq!(table.activate, None);
    assert_eq!(table.list, ListHead { next: 0, prev: 0 });
    assert_eq!(table.protocol, 0);
    assert_eq!(table.flags, 1);
}

#[test]
fn mlx4_default_operations_succeed() {
    assert_eq!(Plain::add(), Ok(()));
    assert_eq!(Plain::remove(), Ok(()));
    assert_eq!(Plain::event(), Ok(()));
}

static ADDED: AtomicUsize = AtomicUsize::new(0);
static REMOVED: AtomicUsize = AtomicUsize::new(0);
static EVENTS: AtomicUsize = AtomicUsize::new(0);

struct Counting;

impl Mlx4Operation for Counting {
    fn add() -> Result<(), Error> {
        ADDED.fetch_add(1, Ordering::SeqCst);
        Err(Error { errno: EBUSY })
    }

    fn remove() -> Result<(), Error> {
        REMOVED.fetch_add(1, Ordering::SeqCst);
        Err(Error { errno: EBUSY })
    }

    fn event() -> Result<(), Error> {
        EVENTS.fetch_add(1, Ordering::SeqCst);
        Ok(())
    }
}

#[test]
fn mlx4_entry_points_run_the_driver_and_drop_its_result() {
    assert_eq!(Mlx4OperationTable::<Counting>::add_callback(0xdead), 0);
    assert_eq!(Mlx4OperationTable::<Counting>::add_callback(0), 0);
    Mlx4OperationTable::<Counting>::remove_callback(0xdead, 0);
    Mlx4OperationTable::<Counting>::event_callback(0xdead, 0, 3, 77);
    Mlx4OperationTable::<Counting>::event_callback(0xdead, 0, 4, 78);
    Mlx4OperationTable::<Counting>::event_callback(0xdead, 0, 5, 79);
    assert_eq!(ADDED.load(Ordering::SeqCst), 2);
    assert_eq!(REMOVED.load(Ordering::SeqCst), 1);
    assert_eq!(EVENTS.load(Ordering::SeqCst), 3);
}

struct Sparse;

impl Mlx4Operation for Sparse {
    fn remove() -> Result<(), Error> {
        Err(Error { errno: EINVAL })
    }
}

#[test]
fn mlx4_a_driver_overrides_only_what_it_needs() {
    assert_eq!(Sparse::add(), Ok(()));
    assert_eq!(Sparse::remove(), Err(Error { errno: EINVAL }));
    assert_eq!(Sparse::event(), Ok(()));
    assert_eq!(Mlx4OperationTable::<Sparse>::add_callback(1), 0);
    assert_eq!(Mlx4OperationTable::<Sparse>::build(), Mlx4OperationTable::<Plain>::build());
}

#[test]
fn mlx4_work_queues_have_their_slots_and_arguments() {
    assert_eq!(WorkQueue::Device.slot(), 0);
    assert_eq!(WorkQueue::QpEvent.slot(), 1);
    assert_eq!(WorkQueue::Cm.slot(), 2);
    assert_eq!(WorkQueue::Mcg.slot(), 3);
    assert_eq!(INTERFACE, 4);
    assert_eq!(SLOTS, 5);
    assert_eq!(WorkQueue::at(0), Some(WorkQueue::Device));
    assert_eq!(WorkQueue::at(1), Some(WorkQueue::QpEvent));
    assert_eq!(WorkQueue::at(2), Some(WorkQueue::Cm));
    assert_eq!(WorkQueue::at(3), Some(WorkQueue::Mcg));
    assert_eq!(WorkQueue::at(4), None);
    assert_eq!(WorkQueue::at(usize::MAX), None);
    assert_eq!(
        WorkQueue::Device.params(),
        QueueParams { name: "mlx4_ib", flags: 655369, max_active: 1 }
    );
    assert_eq!(
        WorkQueue::QpEvent.params(),
        QueueParams { name: "mlx4_ib_qp_event_wq", flags: 655361, max_active: 1 }
    );
    assert_eq!(WorkQueue::Cm.params(), QueueParams { name: "mlx4_ib_cm", flags: 0, max_active: 0 });
    assert_eq!(
        WorkQueue::Mcg.params(),
        QueueParams { name: "mlx4_ib_mcg", flags: 655369, max_active: 1 }
    );
}

#[test]
fn mlx4_the_plan_names_a_request_for_every_slot() {
    let requests: Vec<Option<Request>> =
        (0..6).map(|slot| <Registration<Plain> as Plan>::acquisition(slot)).collect();
    let mut expected: Vec<Option<Request>> = allocations().into_iter().map(Some).collect();
    expected.push(Some(Request::RegisterInterface(table())));
    expected.push(None);
    assert_eq!(requests, expected);
}

#[test]
fn mlx4_the_plan_reads_every_reply_in_the_usual_way() {
    for slot in 0..SLOTS {
        assert_eq!(
            <Registration<Plain> as Plan>::outcome(slot, Reply { status: 0, handle: 7 }),
            Outcome::Present(7)
        );
        assert_eq!(
            <Registration<Plain> as Plan>::outcome(slot, Reply { status: -12, handle: 7 }),
            Outcome::Failed(Error { errno: ENOMEM })
        );
        assert_eq!(
            <Registration<Plain> as Plan>::outcome(slot, Reply { status: -97, handle: 7 }),
            Outcome::Failed(Error { errno: -97 })
        );
        assert_eq!(<Registration<Plain> as Plan>::completion(slot, Outcome::Present(7)), None);
    }
}

#[test]
fn mlx4_the_plan_releases_a_queue_by_its_handle_and_the_table_by_itself() {
    for slot in 0..4 {
        assert_eq!(
            <Registration<Plain> as Plan>::disposal(Held { slot, handle: 55 }),
            vec![Request::DestroyWorkqueue(55)]
        );
    }
    assert_eq!(
        <Registration<Plain> as Plan>::disposal(Held { slot: INTERFACE, handle: 55 }),
        vec![Request::UnregisterInterface(table())]
    );
    assert_eq!(<Registration<Plain> as Plan>::disposal(Held { slot: 5, handle: 55 }), vec![]);
}
