//! The step rule of the non-blocking socket adapters.
//!
//! An adapter attempts its system call and hands the outcome to `poll`. A
//! finished call ends the step with its result. A call that would block
//! queues one registration of the caller's waker for the adapter's
//! descriptor and suspends the step until the reactor wakes it.

use crate::mask::{EventMask, Interest, RawFd};
use crate::selector::{ControlQueue, IOOps, DOORBELL};
use vstd::prelude::*;

verus! {

/// How one attempt at a non-blocking system call ended.
#[derive(Debug, PartialEq, Eq)]
pub enum Attempt<T, E> {
    /// The call succeeded with this value.
    Done(T),
    /// The call could not go on without blocking.
    WouldBlock,
    /// The call failed for good with this error.
    Failed(E),
}

/// How one step of an adapter ended.
#[derive(Debug, PartialEq, Eq)]
pub enum Step<T> {
    /// The step is complete, with this result.
    Ready(T),
    /// The step is suspended. A registration was queued, and the reactor is
    /// owed one ring of the doorbell: the increment `ring`, written to the
    /// wakeup descriptor.
    Pending { ring: u64 },
}

/// `after` is `before` with one more operation at its end: the registration
/// of a clone of `waker` for `fd` and `flags`.
pub open spec fn registered<W: Clone>(
    before: Seq<IOOps<W>>,
    after: Seq<IOOps<W>>,
    flags: EventMask,
    fd: RawFd,
    waker: W,
) -> bool {
    &&& after.len() == before.len() + 1
    &&& after.drop_last() == before
    &&& after.last() matches IOOps::ADD(m, f, w) && m == flags && f == fd && cloned(waker, w)
}

/// What one step comes to, for an adapter on `fd` that waits for
/// `interest`: a finished attempt completes the step and leaves the queue
/// alone, with the value or with the error; an attempt that would block
/// suspends it behind exactly one registration.
pub open spec fn stepped<T, E, W: Clone>(
    interest: Interest,
    fd: RawFd,
    attempt: Attempt<T, E>,
    waker: W,
    before: Seq<IOOps<W>>,
    after: Seq<IOOps<W>>,
    step: Step<Result<T, E>>,
) -> bool {
    match attempt {
        Attempt::Done(value) => step == Step::Ready(Ok::<T, E>(value)) && after == before,
        Attempt::Failed(error) => step == Step::Ready(Err::<T, E>(error)) && after == before,
        Attempt::WouldBlock => {
            &&& step == Step::<Result<T, E>>::Pending { ring: DOORBELL }
            &&& registered(before, after, interest.spec_mask(), fd, waker)
        },
    }
}

/// Ends one step of an adapter on `fd` that waits for `interest`.
pub fn poll_io<T, E, W: Clone>(
    interest: Interest,
    fd: RawFd,
    attempt: Attempt<T, E>,
    waker: &W,
    queue: &mut ControlQueue<W>,
) -> (step: Step<Result<T, E>>)
    ensures
        stepped(interest, fd, attempt, *waker, old(queue)@, final(queue)@, step),
{
    match attempt {
        Attempt::Done(value) => Step::Ready(Ok(value)),
        Attempt::Failed(error) => Step::Ready(Err(error)),
        Attempt::WouldBlock => {
            let ring = queue.register(interest.mask(), fd, waker.clone());
            assert(queue@.drop_last() =~= old(queue)@);
            Step::Pending { ring }
        },
    }
}

/// A listening socket, known by its descriptor.
#[derive(Debug)]
pub struct TcpListener {
    fd: RawFd,
}

/// One attempt to accept a connection.
#[derive(Debug)]
pub struct Accept {
    fd: RawFd,
}

/// A connected socket, known by its descriptor.
#[derive(Debug)]
pub struct TcpStream {
    fd: RawFd,
}

/// One attempt to read bytes.
#[derive(Debug)]
pub struct ReadFuture {
    fd: RawFd,
}

/// One attempt to write bytes.
#[derive(Debug)]
pub struct WriteFuture {
    fd: RawFd,
}

/// One attempt to read a line.
#[derive(Debug)]
pub struct ReadLine {
    fd: RawFd,
}

impl TcpListener {
    /// The listener on the non-blocking socket `fd`.
    pub fn new(fd: RawFd) -> (listener: Self)
        ensures
            listener.fd() == fd,
    {
        TcpListener { fd }
    }

    /// The listener's descriptor.
    pub closed spec fn fd(&self) -> RawFd {
        self.fd
    }

    /// The listener's descriptor.
    pub fn as_raw_fd(&self) -> (fd: RawFd)
        ensures
            fd == self.fd(),
    {
        self.fd
    }

    /// An attempt to accept a connection on this listener.
    pub fn accept(&self) -> (accept: Accept)
        ensures
            accept.fd() == self.fd(),
    {
        Accept { fd: self.fd }
    }

    /// Queues the request to stop watching the listener, which is about to
    /// be closed. The reactor is owed one ring of the doorbell.
    #[must_use]
    pub fn unregister<W>(&self, queue: &mut ControlQueue<W>) -> (ring: u64)
        ensures
            final(queue)@ == old(queue)@.push(IOOps::REMOVE(self.fd())),
            ring == DOORBELL,
    {
        queue.unregister(self.fd)
    }
}

impl Accept {
    /// The descriptor of the listener.
    pub closed spec fn fd(&self) -> RawFd {
        self.fd
    }

    /// Ends one step: the accepted connection, the error, or a suspension
    /// until the listener has a connection to accept.
    pub fn poll<S, E, W: Clone>(
        &self,
        attempt: Attempt<S, E>,
        waker: &W,
        queue: &mut ControlQueue<W>,
    ) -> (step: Step<Result<S, E>>)
        ensures
            stepped(Interest::Input, self.fd(), attempt, *waker, old(queue)@, final(queue)@, step),
    {
        poll_io(Interest::Input, self.fd, attempt, waker, queue)
    }
}

impl TcpStream {
    /// The stream on the non-blocking socket `fd`.
    pub fn new(fd: RawFd) -> (stream: Self)
        ensures
            stream.fd() == fd,
    {
        TcpStream { fd }
    }

    /// The stream's descriptor.
    pub closed spec fn fd(&self) -> RawFd {
        self.fd
    }

    /// The stream's descriptor.
    pub fn as_raw_fd(&self) -> (fd: RawFd)
        ensures
            fd == self.fd(),
    {
        self.fd
    }

    /// An attempt to read bytes from this stream.
    pub fn read(&self) -> (future: ReadFuture)
        ensures
            future.fd() == self.fd(),
    {
        ReadFuture { fd: self.fd }
    }

    /// An attempt to write bytes to this stream.
    pub fn write(&self) -> (future: WriteFuture)
        ensures
            future.fd() == self.fd(),
    {
        WriteFuture { fd: self.fd }
    }

    /// An attempt to read a line from this stream.
    pub fn read_line(&self) -> (future: ReadLine)
        ensures
            future.fd() == self.fd(),
    {
        ReadLine { fd: self.fd }
    }

    /// Queues the request to stop watching the stream, which is about to be
    /// closed. The reactor is owed one ring of the doorbell.
    #[must_use]
    pub fn unregister<W>(&self, queue: &mut ControlQueue<W>) -> (ring: u64)
        ensures
            final(queue)@ == old(queue)@.push(IOOps::REMOVE(self.fd())),
            ring == DOORBELL,
    {
        queue.unregister(self.fd)
    }
}

impl ReadFuture {
    /// The descriptor of the stream.
    pub closed spec fn fd(&self) -> RawFd {
        self.fd
    }

    /// Ends one step: the number of bytes read, the error, or a suspension
    /// until the stream has input.
    pub fn poll<E, W: Clone>(
        &self,
        attempt: Attempt<usize, E>,
        waker: &W,
        queue: &mut ControlQueue<W>,
    ) -> (step: Step<Result<usize, E>>)
        ensures
            stepped(Interest::Input, self.fd(), attempt, *waker, old(queue)@, final(queue)@, step),
    {
        poll_io(Interest::Input, self.fd, attempt, waker, queue)
    }
}

impl WriteFuture {
    /// The descriptor of the stream.
    pub closed spec fn fd(&self) -> RawFd {
        self.fd
    }

    /// Ends one step: the number of bytes written, the error, or a
    /// suspension until the stream takes output.
    pub fn poll<E, W: Clone>(
        &self,
        attempt: Attempt<usize, E>,
        waker: &W,
        queue: &mut ControlQueue<W>,
    ) -> (step: Step<Result<usize, E>>)
        ensures
            stepped(Interest::Output, self.fd(), attempt, *waker, old(queue)@, final(queue)@, step),
    {
        poll_io(Interest::Output, self.fd, attempt, waker, queue)
    }
}

/// What one step of a line reader comes to, where `line` is what the
/// attempt has read: a line if the attempt read any bytes, the end of the
/// stream if it read none or failed, and a suspension behind exactly one
/// registration if it would block.
pub open spec fn line_stepped<E, W: Clone>(
    fd: RawFd,
    attempt: Attempt<usize, E>,
    line: String,
    waker: W,
    before: Seq<IOOps<W>>,
    after: Seq<IOOps<W>>,
    step: Step<Option<String>>,
) -> bool {
    match attempt {
        Attempt::Done(n) => after == before && step == Step::Ready(
            if n == 0 {
                None
            } else {
                Some(line)
            },
        ),
        Attempt::Failed(_) => after == before && step == Step::Ready(None::<String>),
        Attempt::WouldBlock => {
            &&& step == Step::<Option<String>>::Pending { ring: DOORBELL }
            &&& registered(before, after, Interest::Input.spec_mask(), fd, waker)
        },
    }
}

impl ReadLine {
    /// The descriptor of the stream.
    pub closed spec fn fd(&self) -> RawFd {
        self.fd
    }

    /// Ends one step of the line reader: `attempt` says how many bytes the
    /// read brought, and `line` holds them. An error other than would-block
    /// ends the stream, as a read of no bytes does.
    pub fn poll<E, W: Clone>(
        &self,
        attempt: Attempt<usize, E>,
        line: String,
        waker: &W,
        queue: &mut ControlQueue<W>,
    ) -> (step: Step<Option<String>>)
        ensures
            line_stepped(self.fd(), attempt, line, *waker, old(queue)@, final(queue)@, step),
    {
        match attempt {
            Attempt::Done(n) => {
                if n == 0 {
                    Step::Ready(None)
                } else {
                    Step::Ready(Some(line))
                }
            },
            Attempt::Failed(_) => Step::Ready(None),
            Attempt::WouldBlock => {
                let ring = queue.register(Interest::Input.mask(), self.fd, waker.clone());
                assert(queue@.drop_last() =~= old(queue)@);
                Step::Pending { ring }
            },
        }
    }
}

} // verus!
