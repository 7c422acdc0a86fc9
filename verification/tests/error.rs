use ib_registration::error::Error;
use ib_registration::error::EAFNOSUPPORT;
use ib_registration::error::EBUSY;
use ib_registration::error::EINVAL;
use ib_registration::error::ENOMEM;

#[test]
fn error_keeps_the_status_it_was_made_from() {
    let e = Error::from_kernel_errno(-16);
    assert_eq!(e, Error { errno: EBUSY });
    assert_eq!(e.to_kernel_errno(), -16);
    assert_ne!(e, Error { errno: EINVAL });
}

#[test]
fn error_does_not_touch_a_status_outside_the_usual_range() {
    assert_eq!(Error::from_kernel_errno(-5000).to_kernel_errno(), -5000);
    assert_eq!(Error::from_kernel_errno(7).to_kernel_errno(), 7);
    assert_eq!(Error::from_kernel_errno(i32::MIN).to_kernel_errno(), i32::MIN);
}

#[test]
fn error_codes_are_the_negative_error_numbers() {
    assert_eq!(EINVAL, -22);
    assert_eq!(ENOMEM, -12);
    assert_eq!(EBUSY, -16);
    assert_eq!(EAFNOSUPPORT, -97);
}
