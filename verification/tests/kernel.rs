use art::kernel::{
    counter_bytes, descriptor, is_wakeup, settle, token, watch, watch_wakeup, CtlOp, KernelRequest, Verdict,
    COUNTER_BYTES, EBADF, EEXIST, ENOENT, EPERM, MAX_EVENTS,
};
use art::mask::{EventMask, Interest};
use nix::errno::Errno;

#[test]
fn token_of_a_descriptor_is_its_number() {
    assert_eq!(token(0), 0);
    assert_eq!(token(7), 7);
    assert_eq!(token(i32::MAX), 0x7fff_ffff);
}

#[test]
fn token_of_a_negative_number_is_sign_extended() {
    assert_eq!(token(-1), u64::MAX);
    assert_eq!(token(i32::MIN), 0xffff_ffff_8000_0000);
}

#[test]
fn descriptor_takes_the_low_half_of_the_word() {
    assert_eq!(descriptor(0), 0);
    assert_eq!(descriptor(12), 12);
    assert_eq!(descriptor(0x1_0000_0005), 5);
    assert_eq!(descriptor(u64::MAX), -1);
}

#[test]
fn descriptor_undoes_token() {
    for fd in [0, 1, 2, 3, 1023, 65_536, i32::MAX, -1, -77, i32::MIN] {
        assert_eq!(descriptor(token(fd)), fd);
    }
}

#[test]
fn wakeup_word_is_told_from_the_others() {
    assert!(is_wakeup(4, 4));
    assert!(!is_wakeup(5, 4));
    assert!(!is_wakeup(0x1_0000_0004, 4));
    assert!(is_wakeup(u64::MAX, -1));
}

#[test]
fn watch_arms_a_one_shot_watch_with_the_descriptor_as_word() {
    assert_eq!(
        watch(Interest::Input.mask(), 9),
        KernelRequest::Watch { fd: 9, events: EventMask { bits: 0x4000_0001 }, data: 9 }
    );
    assert_eq!(
        watch(Interest::Output.mask(), 11),
        KernelRequest::Watch { fd: 11, events: EventMask { bits: 0x4000_0004 }, data: 11 }
    );
}

#[test]
fn wakeup_watch_is_for_input_and_not_one_shot() {
    assert_eq!(
        watch_wakeup(3),
        KernelRequest::Watch { fd: 3, events: EventMask { bits: 0x001 }, data: 3 }
    );
}

#[test]
fn reactor_limits() {
    assert_eq!(MAX_EVENTS, 1024);
    assert_eq!(COUNTER_BYTES, 8);
    assert_eq!(COUNTER_BYTES, 1u64.to_ne_bytes().len());
}

#[test]
fn error_numbers_are_those_of_the_platform() {
    assert_eq!(EEXIST, Errno::EEXIST as i32);
    assert_eq!(ENOENT, Errno::ENOENT as i32);
    assert_eq!(EBADF, Errno::EBADF as i32);
    assert_eq!(EPERM, Errno::EPERM as i32);
}

#[test]
fn an_accepted_request_is_done() {
    assert_eq!(settle(CtlOp::AddWakeup, Ok(())), Verdict::Done);
    assert_eq!(settle(CtlOp::Add, Ok(())), Verdict::Done);
    assert_eq!(settle(CtlOp::Modify, Ok(())), Verdict::Done);
    assert_eq!(settle(CtlOp::Delete, Ok(())), Verdict::Done);
}

#[test]
fn add_of_a_watched_descriptor_turns_into_modify() {
    assert_eq!(settle(CtlOp::Add, Err(Errno::EEXIST as i32)), Verdict::Modify);
    assert_eq!(settle(CtlOp::Add, Err(17)), Verdict::Modify);
}

#[test]
fn add_fails_for_good_on_any_other_error() {
    assert_eq!(settle(CtlOp::Add, Err(Errno::ENOENT as i32)), Verdict::Fatal(2));
    assert_eq!(settle(CtlOp::Add, Err(Errno::EBADF as i32)), Verdict::Fatal(9));
    assert_eq!(settle(CtlOp::Add, Err(Errno::EPERM as i32)), Verdict::Fatal(1));
    assert_eq!(settle(CtlOp::Add, Err(Errno::ENOMEM as i32)), Verdict::Fatal(12));
    assert_eq!(settle(CtlOp::Add, Err(0)), Verdict::Fatal(0));
    assert_eq!(settle(CtlOp::Add, Err(-5)), Verdict::Fatal(-5));
}

#[test]
fn wakeup_watch_fails_for_good_on_every_error() {
    assert_eq!(settle(CtlOp::AddWakeup, Err(Errno::EEXIST as i32)), Verdict::Fatal(17));
    assert_eq!(settle(CtlOp::AddWakeup, Err(Errno::EBADF as i32)), Verdict::Fatal(9));
    assert_eq!(settle(CtlOp::AddWakeup, Err(Errno::EINVAL as i32)), Verdict::Fatal(22));
}

#[test]
fn modify_fails_for_good_on_every_error() {
    assert_eq!(settle(CtlOp::Modify, Err(Errno::EEXIST as i32)), Verdict::Fatal(17));
    assert_eq!(settle(CtlOp::Modify, Err(Errno::ENOENT as i32)), Verdict::Fatal(2));
    assert_eq!(settle(CtlOp::Modify, Err(Errno::EBADF as i32)), Verdict::Fatal(9));
}

#[test]
fn delete_of_a_watch_that_is_gone_is_done() {
    assert_eq!(settle(CtlOp::Delete, Err(Errno::ENOENT as i32)), Verdict::Done);
    assert_eq!(settle(CtlOp::Delete, Err(Errno::EBADF as i32)), Verdict::Done);
    assert_eq!(settle(CtlOp::Delete, Err(Errno::EPERM as i32)), Verdict::Done);
}

#[test]
fn delete_fails_for_good_on_any_other_error() {
    assert_eq!(settle(CtlOp::Delete, Err(Errno::EEXIST as i32)), Verdict::Fatal(17));
    assert_eq!(settle(CtlOp::Delete, Err(Errno::EINVAL as i32)), Verdict::Fatal(22));
    assert_eq!(settle(CtlOp::Delete, Err(Errno::ENOMEM as i32)), Verdict::Fatal(12));
    assert_eq!(settle(CtlOp::Delete, Err(0)), Verdict::Fatal(0));
}

#[test]
fn doorbell_is_written_as_eight_bytes_in_the_order_of_the_machine() {
    let bytes = counter_bytes(1);
    assert_eq!(bytes.len(), 8);
    assert_eq!(u64::from_ne_bytes(bytes), 1);
    assert!(bytes == [1, 0, 0, 0, 0, 0, 0, 0] || bytes == [0, 0, 0, 0, 0, 0, 0, 1]);
}

#[test]
fn counter_bytes_hold_the_whole_number() {
    let n: u64 = 0x0102_0304_0506_0708;
    let bytes = counter_bytes(n);
    assert_ne!(bytes, [0u8; 8]);
    assert!(
        bytes == [8, 7, 6, 5, 4, 3, 2, 1] || bytes == [1, 2, 3, 4, 5, 6, 7, 8],
        "neither order"
    );
    assert_eq!(u64::from_ne_bytes(bytes), n);
}
