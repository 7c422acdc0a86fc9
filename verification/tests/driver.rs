use ib_registration::driver::Channel;
use ib_registration::driver::Host;
use ib_registration::driver::Reply;
use ib_registration::error::Error;
use ib_registration::resource_set::Outcome;

struct Echo {
    seen: Vec<u32>,
}

impl Host<u32> for Echo {
    fn perform(&mut self, request: &u32) -> Reply {
        self.seen.push(*request);
        Reply { status: -(*request as i32), handle: *request as usize * 2 }
    }
}

#[test]
fn a_reply_with_a_negative_status_is_a_failure() {
    assert_eq!(Reply { status: -1, handle: 9 }.read(), Outcome::Failed(Error { errno: -1 }));
    assert_eq!(Reply { status: -22, handle: 0 }.read(), Outcome::Failed(Error { errno: -22 }));
    assert_eq!(
        Reply { status: i32::MIN, handle: 9 }.read(),
        Outcome::Failed(Error { errno: i32::MIN })
    );
}

#[test]
fn a_reply_with_any_other_status_carries_a_handle() {
    assert_eq!(Reply { status: 0, handle: 9 }.read(), Outcome::Present(9));
    assert_eq!(Reply { status: 1, handle: 0 }.read(), Outcome::Present(0));
    assert_eq!(Reply { status: i32::MAX, handle: usize::MAX }.read(), Outcome::Present(usize::MAX));
}

#[test]
fn a_channel_hands_requests_on_in_order_and_replies_back() {
    let mut channel = Channel::new(Echo { seen: Vec::new() });
    assert!(channel.host().seen.is_empty());
    assert_eq!(channel.ask(&3), Reply { status: -3, handle: 6 });
    channel.tell(&4);
    assert_eq!(channel.ask(&5), Reply { status: -5, handle: 10 });
    assert_eq!(channel.host().seen, vec![3, 4, 5]);
    let host = channel.into_host();
    assert_eq!(host.seen, vec![3, 4, 5]);
}
