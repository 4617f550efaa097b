//! The protocol between the reactor and the kernel's readiness object:
//! the requests the reactor makes, the word that names a descriptor in a
//! readiness event, and what follows from the kernel's answer to a request.

use crate::mask::{EventMask, Interest, RawFd};
use nix::errno::Errno;
use vstd::prelude::*;

verus! {

/// What the reactor asks of the readiness object.
#[derive(Clone, Copy, Debug, PartialEq, Eq, Structural)]
pub enum KernelRequest {
    /// Add a watch on `fd` for `events`, with `data` as the word to report.
    /// What follows from the answer is for `settle` to say.
    Watch { fd: RawFd, events: EventMask, data: u64 },
    /// Delete the watch on `fd`.
    Unwatch { fd: RawFd },
}

/// The word the readiness object reports for a watch on `fd`.
pub open spec fn token_of(fd: RawFd) -> u64 {
    fd as u64
}

/// The descriptor that a reported word stands for.
pub open spec fn fd_of(data: u64) -> RawFd {
    data as i32
}

/// The request that arms a one-shot watch on `fd` for `flag`.
pub open spec fn watch_request(flag: EventMask, fd: RawFd) -> KernelRequest {
    KernelRequest::Watch { fd, events: flag.spec_one_shot(), data: token_of(fd) }
}

/// The word of a descriptor leads back to that descriptor, so a readiness
/// event finds the waker that was installed with the watch.
pub proof fn lemma_token_round_trip(fd: RawFd)
    ensures
        fd_of(token_of(fd)) == fd,
{
    assert((fd as u64) as i32 == fd) by (bit_vector);
}

/// The word the readiness object reports for a watch on `fd`.
pub fn token(fd: RawFd) -> (data: u64)
    ensures
        data == token_of(fd),
{
    #[verifier::truncate]
    (fd as u64)
}

/// The descriptor that a reported word stands for.
pub fn descriptor(data: u64) -> (fd: RawFd)
    ensures
        fd == fd_of(data),
{
    #[verifier::truncate]
    (data as i32)
}

/// Whether a reported word is the wakeup descriptor's.
pub fn is_wakeup(data: u64, wakeup: RawFd) -> (yes: bool)
    ensures
        yes == (data == token_of(wakeup)),
{
    data == token(wakeup)
}

/// The request that arms a one-shot watch on `fd` for `flag`.
pub fn watch(flag: EventMask, fd: RawFd) -> (request: KernelRequest)
    ensures
        request == watch_request(flag, fd),
{
    KernelRequest::Watch { fd, events: flag.one_shot(), data: token(fd) }
}

/// The number of readiness events that the reactor takes from one wait.
pub const MAX_EVENTS: usize = 1024;

/// The number of bytes that one read or write of the wakeup counter moves.
pub const COUNTER_BYTES: usize = 8;

/// The byte of `n` at place `i`, counted from the lowest.
pub open spec fn counter_byte(n: u64, i: int) -> u8 {
    ((n >> ((8 * i) as u64)) & 0xff) as u8
}

/// The eight bytes of `n`, lowest first.
pub open spec fn low_first(n: u64) -> Seq<u8> {
    Seq::new(8, |i: int| counter_byte(n, i))
}

/// The eight bytes of `n`, highest first.
pub open spec fn high_first(n: u64) -> Seq<u8> {
    Seq::new(8, |i: int| counter_byte(n, 7 - i))
}

/// Calls `u64::to_ne_bytes` of std, which gives the bytes of the number as
/// they lie in memory: lowest first on one kind of machine and highest
/// first on the other.
#[verifier::external_body]
fn native_bytes(n: u64) -> (bytes: [u8; 8])
    ensures
        bytes@ == low_first(n) || bytes@ == high_first(n),
{
    n.to_ne_bytes()
}

/// The bytes to write to the wakeup descriptor for an increment of `ring`:
/// the eight bytes of the number in the order of the machine.
pub fn counter_bytes(ring: u64) -> (bytes: [u8; 8])
    ensures
        bytes@.len() == COUNTER_BYTES,
        bytes@ == low_first(ring) || bytes@ == high_first(ring),
{
    native_bytes(ring)
}

/// The watch on the wakeup descriptor: for input, and not one-shot, so that
/// it reports for as long as the counter is not cleared.
pub open spec fn wakeup_request(wakeup: RawFd) -> KernelRequest {
    KernelRequest::Watch {
        fd: wakeup,
        events: Interest::Input.spec_mask(),
        data: token_of(wakeup),
    }
}

/// The first request of a reactor: the watch on its wakeup descriptor.
pub fn watch_wakeup(wakeup: RawFd) -> (request: KernelRequest)
    ensures
        request == wakeup_request(wakeup),
{
    KernelRequest::Watch { fd: wakeup, events: Interest::Input.mask(), data: token(wakeup) }
}

/// The error number for a watch that exists already.
pub const EEXIST: i32 = 17;

/// The error number for a watch that does not exist.
pub const ENOENT: i32 = 2;

/// The error number for a descriptor that is not open.
pub const EBADF: i32 = 9;

/// The error number for a descriptor of a file that cannot be watched.
pub const EPERM: i32 = 1;

/// Why the readiness object refused a request.
#[derive(Clone, Copy, Debug, PartialEq, Eq, Structural)]
pub enum CtlError {
    /// The descriptor is watched already.
    AlreadyWatched,
    /// The descriptor is not watched.
    NotWatched,
    /// The descriptor is closed, and its watch went with it.
    Stale,
    /// The descriptor is of a file that cannot be watched.
    Unwatchable,
    /// Any other error, by its number.
    Other(i32),
}

/// The kind of request that the readiness object answered.
#[derive(Clone, Copy, Debug, PartialEq, Eq, Structural)]
pub enum CtlOp {
    /// The watch on the wakeup descriptor, which is the first request that a
    /// readiness object gets.
    AddWakeup,
    /// A new watch.
    Add,
    /// A change to a watch.
    Modify,
    /// The end of a watch.
    Delete,
}

/// What the reactor does with the answer to a request.
#[derive(Clone, Copy, Debug, PartialEq, Eq, Structural)]
pub enum Verdict {
    /// The request is settled.
    Done,
    /// The watch is there already: the same request is made again, as a
    /// change to it.
    Modify,
    /// The runtime is at fault and cannot go on; the error number is kept.
    Fatal(i32),
}

/// The class of an error number.
pub open spec fn ctl_error_of(errno: i32) -> CtlError {
    if errno == EEXIST {
        CtlError::AlreadyWatched
    } else if errno == ENOENT {
        CtlError::NotWatched
    } else if errno == EBADF {
        CtlError::Stale
    } else if errno == EPERM {
        CtlError::Unwatchable
    } else {
        CtlError::Other(errno)
    }
}

/// Calls `Errno::from_raw` of nix and tells four of its variants apart.
/// nix maps each error number of libc to the variant of the same name and
/// no other number to it; on Linux `EEXIST` is 17, `ENOENT` is 2, `EBADF`
/// is 9 and `EPERM` is 1.
#[verifier::external_body]
fn classify(errno: i32) -> (class: CtlError)
    ensures
        class == ctl_error_of(errno),
{
    match Errno::from_raw(errno) {
        Errno::EEXIST => CtlError::AlreadyWatched,
        Errno::ENOENT => CtlError::NotWatched,
        Errno::EBADF => CtlError::Stale,
        Errno::EPERM => CtlError::Unwatchable,
        _ => CtlError::Other(errno),
    }
}

/// What follows from the answer `outcome` to a request of kind `op`, where
/// an error is given by its number. A new watch that exists already is
/// changed in place, unless it is the wakeup descriptor's. A watch to delete
/// that is not there needs no deleting: the reactor may come to it after
/// the descriptor was closed, when the number is watched no more, names
/// nothing, or names a file that cannot be watched. Every other error is
/// fatal.
pub open spec fn verdict_of(op: CtlOp, outcome: Result<(), i32>) -> Verdict {
    match outcome {
        Ok(_) => Verdict::Done,
        Err(errno) => match (op, ctl_error_of(errno)) {
            (CtlOp::Add, CtlError::AlreadyWatched) => Verdict::Modify,
            (CtlOp::Delete, CtlError::NotWatched) => Verdict::Done,
            (CtlOp::Delete, CtlError::Stale) => Verdict::Done,
            (CtlOp::Delete, CtlError::Unwatchable) => Verdict::Done,
            _ => Verdict::Fatal(errno),
        },
    }
}

/// Decides what follows from the answer `outcome` to a request of kind
/// `op`, where an error is given by its number.
pub fn settle(op: CtlOp, outcome: Result<(), i32>) -> (verdict: Verdict)
    ensures
        verdict == verdict_of(op, outcome),
{
    match outcome {
        Ok(_) => Verdict::Done,
        Err(errno) => {
            let class = classify(errno);
            match op {
                CtlOp::AddWakeup => Verdict::Fatal(errno),
                CtlOp::Add => match class {
                    CtlError::AlreadyWatched => Verdict::Modify,
                    _ => Verdict::Fatal(errno),
                },
                CtlOp::Modify => Verdict::Fatal(errno),
                CtlOp::Delete => match class {
                    CtlError::NotWatched => Verdict::Done,
                    CtlError::Stale => Verdict::Done,
                    CtlError::Unwatchable => Verdict::Done,
                    _ => Verdict::Fatal(errno),
                },
            }
        },
    }
}

} // verus!
