use art::mask::{EventMask, Interest, INPUT, ONE_SHOT, OUTPUT};
use nix::sys::epoll::EpollFlags;

#[test]
fn input_interest_asks_for_epollin() {
    assert_eq!(Interest::Input.mask(), EventMask { bits: 0x001 });
    assert_eq!(Interest::Input.mask().bits, EpollFlags::EPOLLIN.bits());
    assert_eq!(INPUT, 0x001);
}

#[test]
fn output_interest_asks_for_epollout() {
    assert_eq!(Interest::Output.mask(), EventMask { bits: 0x004 });
    assert_eq!(Interest::Output.mask().bits, EpollFlags::EPOLLOUT.bits());
    assert_eq!(OUTPUT, 0x004);
}

#[test]
fn one_shot_sets_the_one_shot_bit() {
    let armed = EventMask { bits: 0x001 }.one_shot();
    assert_eq!(armed.bits, 0x4000_0001);
    assert_ne!(armed.bits, 0x001);
    assert_eq!(armed.bits, (EpollFlags::EPOLLIN | EpollFlags::EPOLLONESHOT).bits());
    assert_eq!(ONE_SHOT, EpollFlags::EPOLLONESHOT.bits());
}

#[test]
fn one_shot_keeps_every_other_bit() {
    let armed = EventMask { bits: 0x005 }.one_shot();
    assert_eq!(armed.bits, 0x4000_0005);
    let unknown = EventMask { bits: 0x0080_0000 }.one_shot();
    assert_eq!(unknown.bits, 0x4080_0000);
    let empty = EventMask { bits: 0 }.one_shot();
    assert_eq!(empty.bits, 0x4000_0000);
}

#[test]
fn one_shot_twice_is_one_shot_once() {
    let once = EventMask { bits: 0x004 }.one_shot();
    assert_eq!(once.one_shot(), once);
}
