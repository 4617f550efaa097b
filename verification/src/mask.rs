//! Event masks of the readiness object.

use nix::sys::epoll::EpollFlags;
use vstd::prelude::*;

verus! {

/// A file descriptor, as the kernel numbers it.
pub type RawFd = i32;

/// The bit that asks for input readiness.
pub const INPUT: i32 = 0x001;

/// The bit that asks for output readiness.
pub const OUTPUT: i32 = 0x004;

/// The bit that disarms a watch once it has fired.
pub const ONE_SHOT: i32 = 0x4000_0000;

/// A set of readiness classes, held as the bits the kernel reads.
#[derive(Clone, Copy, Debug, PartialEq, Eq, Structural)]
pub struct EventMask {
    pub bits: i32,
}

/// The readiness class an adapter waits for.
#[derive(Clone, Copy, Debug, PartialEq, Eq, Structural)]
pub enum Interest {
    /// The descriptor can be read from, or has a connection to accept.
    Input,
    /// The descriptor can be written to.
    Output,
}

/// Calls `EpollFlags::EPOLLIN` of nix and hands out its bits: the value of
/// `EPOLLIN` in libc, which is `0x001` on Linux.
#[verifier::external_body]
fn input_bits() -> (bits: i32)
    ensures
        bits == INPUT,
{
    EpollFlags::EPOLLIN.bits()
}

/// Calls `EpollFlags::EPOLLOUT` of nix and hands out its bits: the value of
/// `EPOLLOUT` in libc, which is `0x004` on Linux.
#[verifier::external_body]
fn output_bits() -> (bits: i32)
    ensures
        bits == OUTPUT,
{
    EpollFlags::EPOLLOUT.bits()
}

/// Calls the `|` of nix's `EpollFlags` with `EpollFlags::EPOLLONESHOT` on the
/// right. The flags are built with `from_bits_retain`, which keeps every bit,
/// so the result is the bitwise or of `bits` with `EPOLLONESHOT` of libc,
/// which is `0x4000_0000` on Linux.
#[verifier::external_body]
fn one_shot_bits(bits: i32) -> (armed: i32)
    ensures
        armed == bits | ONE_SHOT,
{
    (EpollFlags::from_bits_retain(bits) | EpollFlags::EPOLLONESHOT).bits()
}

impl Interest {
    /// The mask that asks for this class alone.
    pub open spec fn spec_mask(self) -> EventMask {
        match self {
            Interest::Input => EventMask { bits: INPUT },
            Interest::Output => EventMask { bits: OUTPUT },
        }
    }

    /// The mask that asks for this class alone.
    pub fn mask(self) -> (mask: EventMask)
        ensures
            mask == self.spec_mask(),
    {
        match self {
            Interest::Input => EventMask { bits: input_bits() },
            Interest::Output => EventMask { bits: output_bits() },
        }
    }
}

impl EventMask {
    /// This mask with the one-shot bit set.
    pub open spec fn spec_one_shot(self) -> EventMask {
        EventMask { bits: self.bits | ONE_SHOT }
    }

    /// This mask with the one-shot bit set: a watch armed with the result
    /// fires once and then stays silent until it is armed again.
    pub fn one_shot(self) -> (armed: EventMask)
        ensures
            armed == self.spec_one_shot(),
    {
        EventMask { bits: one_shot_bits(self.bits) }
    }
}

/// Arming a mask twice is arming it once, and an armed mask still asks for
/// every class it asked for before.
pub proof fn lemma_one_shot_idempotent(mask: EventMask)
    ensures
        mask.spec_one_shot().spec_one_shot() == mask.spec_one_shot(),
        mask.spec_one_shot().bits & mask.bits == mask.bits,
        mask.spec_one_shot().bits & ONE_SHOT == ONE_SHOT,
{
    let b = mask.bits;
    assert((b | 0x4000_0000i32) | 0x4000_0000i32 == b | 0x4000_0000i32) by (bit_vector);
    assert((b | 0x4000_0000i32) & b == b) by (bit_vector);
    assert((b | 0x4000_0000i32) & 0x4000_0000i32 == 0x4000_0000i32) by (bit_vector);
}

} // verus!
