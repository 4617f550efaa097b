//! The reactor's bookkeeping: the queue of control operations, the table of
//! wakers by descriptor, and what one readiness event asks of the reactor.

use crate::kernel::{descriptor, fd_of, is_wakeup, token_of, watch, watch_request, KernelRequest};
use crate::mask::{EventMask, RawFd};
use std::collections::HashMap;
use std::collections::VecDeque;
use vstd::prelude::*;

verus! {

broadcast use vstd::std_specs::hash::group_hash_axioms;

/// The increment that one doorbell ring adds to the wakeup counter.
pub const DOORBELL: u64 = 1;

/// A control operation, queued by any thread and applied by the reactor.
#[allow(clippy::upper_case_acronyms)]
#[derive(Debug, PartialEq, Eq)]
pub enum IOOps<W> {
    /// Watch the descriptor for the mask, and keep the waker until it fires.
    ADD(EventMask, RawFd, W),
    /// Stop watching the descriptor, and forget its waker.
    REMOVE(RawFd),
}

/// The queue of control operations, in the order in which they were made.
#[derive(Debug)]
pub struct ControlQueue<W> {
    ops: VecDeque<IOOps<W>>,
}

impl<W> View for ControlQueue<W> {
    type V = Seq<IOOps<W>>;

    closed spec fn view(&self) -> Seq<IOOps<W>> {
        self.ops@
    }
}

impl<W> ControlQueue<W> {
    /// An empty queue.
    pub fn new() -> (queue: Self)
        ensures
            queue@ == Seq::<IOOps<W>>::empty(),
    {
        ControlQueue { ops: VecDeque::new() }
    }

    /// Queues the request to watch `fd` for `flags` on behalf of `waker`.
    /// The caller owes the reactor one ring of the doorbell: the returned
    /// increment, written to the wakeup descriptor.
    #[must_use]
    pub fn register(&mut self, flags: EventMask, fd: RawFd, waker: W) -> (ring: u64)
        ensures
            final(self)@ == old(self)@.push(IOOps::ADD(flags, fd, waker)),
            ring == DOORBELL,
    {
        self.ops.push_back(IOOps::ADD(flags, fd, waker));
        DOORBELL
    }

    /// Queues the request to stop watching `fd`. The caller owes the reactor
    /// one ring of the doorbell: the returned increment, written to the
    /// wakeup descriptor.
    #[must_use]
    pub fn unregister(&mut self, fd: RawFd) -> (ring: u64)
        ensures
            final(self)@ == old(self)@.push(IOOps::REMOVE(fd)),
            ring == DOORBELL,
    {
        self.ops.push_back(IOOps::REMOVE(fd));
        DOORBELL
    }

    /// The number of operations that wait to be applied.
    pub fn len(&self) -> (n: usize)
        ensures
            n == self@.len(),
    {
        self.ops.len()
    }
}

/// The wakers that wait for a readiness event, by descriptor.
#[derive(Debug)]
pub struct WakerTable<W> {
    wakers: HashMap<RawFd, W>,
}

impl<W> View for WakerTable<W> {
    type V = Map<RawFd, W>;

    closed spec fn view(&self) -> Map<RawFd, W> {
        self.wakers@
    }
}

impl<W> WakerTable<W> {
    /// An empty table.
    pub fn new() -> (table: Self)
        ensures
            table@ == Map::<RawFd, W>::empty(),
    {
        WakerTable { wakers: HashMap::new() }
    }

    /// The number of wakers installed.
    pub fn len(&self) -> (n: usize)
        ensures
            n == self@.len(),
            self@.dom().finite(),
    {
        self.wakers.len()
    }

    /// Whether a waker is installed for `fd`.
    pub fn contains(&self, fd: RawFd) -> (yes: bool)
        ensures
            yes == self@.contains_key(fd),
    {
        self.wakers.contains_key(&fd)
    }

    /// Installs `waker` for `fd` and returns the request that arms the
    /// one-shot watch. A waker is installed only where none is: a second
    /// registration has to wait until the first was consumed.
    pub fn add_event(&mut self, flag: EventMask, fd: RawFd, waker: W) -> (request: KernelRequest)
        requires
            !old(self)@.contains_key(fd),
        ensures
            final(self)@ == old(self)@.insert(fd, waker),
            request == watch_request(flag, fd),
    {
        let request = watch(flag, fd);
        self.wakers.insert(fd, waker);
        request
    }

    /// Forgets the waker of `fd`, if there is one, and returns the request
    /// that deletes the watch.
    pub fn rm_event(&mut self, fd: RawFd) -> (request: KernelRequest)
        ensures
            final(self)@ == old(self)@.remove(fd),
            request == (KernelRequest::Unwatch { fd }),
    {
        self.wakers.remove(&fd);
        KernelRequest::Unwatch { fd }
    }

    /// Consumes the readiness event that reported `data`: takes the waker of
    /// that descriptor out of the table and hands it over to be woken. The
    /// watch was one-shot, so the kernel has disarmed it already. `None`
    /// says that no waker was installed and nothing changed.
    pub fn dispatch(&mut self, data: u64) -> (waker: Option<W>)
        ensures
            match waker {
                Some(w) => {
                    &&& old(self)@.contains_key(fd_of(data))
                    &&& w == old(self)@[fd_of(data)]
                    &&& final(self)@ == old(self)@.remove(fd_of(data))
                },
                None => {
                    &&& !old(self)@.contains_key(fd_of(data))
                    &&& final(self)@ == old(self)@
                },
            },
    {
        let fd = descriptor(data);
        let waker = self.wakers.remove(&fd);
        proof {
            if waker is None {
                assert(self@ =~= old(self)@);
            }
        }
        waker
    }
}

/// What one reported word asks of the reactor.
#[derive(Debug, PartialEq, Eq)]
pub enum Selected<W> {
    /// The doorbell rang: the control queue is to be drained.
    Control,
    /// A watched descriptor is ready: its waker, which is no longer in the
    /// table, is to be woken.
    Wake(W),
    /// A descriptor is reported for which no waker is installed.
    Missing(RawFd),
}

/// What the word `data` asks of a reactor with the wakeup descriptor
/// `wakeup`, and the table after it.
pub open spec fn selected<W>(table: Map<RawFd, W>, wakeup: RawFd, data: u64) -> (
    Selected<W>,
    Map<RawFd, W>,
) {
    if data == token_of(wakeup) {
        (Selected::Control, table)
    } else if table.contains_key(fd_of(data)) {
        (Selected::Wake(table[fd_of(data)]), table.remove(fd_of(data)))
    } else {
        (Selected::Missing(fd_of(data)), table)
    }
}

/// Handles one word that the readiness object reported. The wakeup
/// descriptor's word asks for a drain of the control queue and leaves the
/// table alone. Every other word is a readiness event for a descriptor,
/// and is consumed.
pub fn select<W>(table: &mut WakerTable<W>, wakeup: RawFd, data: u64) -> (what: Selected<W>)
    ensures
        (what, final(table)@) == selected(old(table)@, wakeup, data),
{
    if is_wakeup(data, wakeup) {
        Selected::Control
    } else {
        match table.dispatch(data) {
            Some(waker) => Selected::Wake(waker),
            None => Selected::Missing(descriptor(data)),
        }
    }
}

/// What applying a run of control operations comes to.
pub struct Drained<W> {
    /// The table after the operations that were applied.
    pub table: Map<RawFd, W>,
    /// The operations that were not reached.
    pub rest: Seq<IOOps<W>>,
    /// The requests to the readiness object, in the order of the operations.
    pub requests: Seq<KernelRequest>,
    /// The descriptor of the registration that found a waker in its place.
    pub fault: Option<RawFd>,
}

/// Applies the operations `ops` to `table`, first to last. A registration
/// for a descriptor whose waker is still installed is a fault: its watch
/// request is the last one made, the table keeps the waker it had, and the
/// operations behind it stay where they are.
pub open spec fn drained<W>(table: Map<RawFd, W>, ops: Seq<IOOps<W>>) -> Drained<W>
    decreases ops.len(),
{
    if ops.len() == 0 {
        Drained { table, rest: ops, requests: Seq::empty(), fault: None }
    } else {
        match ops[0] {
            IOOps::ADD(flag, fd, waker) => {
                if table.contains_key(fd) {
                    Drained {
                        table,
                        rest: ops.drop_first(),
                        requests: seq![watch_request(flag, fd)],
                        fault: Some(fd),
                    }
                } else {
                    let then = drained(table.insert(fd, waker), ops.drop_first());
                    Drained { requests: seq![watch_request(flag, fd)] + then.requests, ..then }
                }
            },
            IOOps::REMOVE(fd) => {
                let then = drained(table.remove(fd), ops.drop_first());
                Drained { requests: seq![KernelRequest::Unwatch { fd }] + then.requests, ..then }
            },
        }
    }
}

/// What the reactor has to do after it drained the control queue.
#[derive(Debug, PartialEq, Eq)]
pub struct DrainReport {
    /// The requests to make of the readiness object, first to last.
    pub requests: Vec<KernelRequest>,
    /// The descriptor of a registration that found a waker in its place. The
    /// reactor cannot go on after it has made the requests.
    pub fault: Option<RawFd>,
}

/// Handles the wakeup descriptor's readiness: applies the queued control
/// operations to the table in the order in which they were queued, and
/// returns the requests that the readiness object is owed. When they are
/// made, the wakeup counter is cleared by a read of eight bytes.
pub fn drain<W>(table: &mut WakerTable<W>, queue: &mut ControlQueue<W>) -> (report: DrainReport)
    ensures
        final(table)@ == drained(old(table)@, old(queue)@).table,
        final(queue)@ == drained(old(table)@, old(queue)@).rest,
        report.requests@ == drained(old(table)@, old(queue)@).requests,
        report.fault == drained(old(table)@, old(queue)@).fault,
{
    let mut requests: Vec<KernelRequest> = Vec::new();
    let mut fault: Option<RawFd> = None;
    let ghost goal = drained(table@, queue@);
    loop
        invariant_except_break
            fault is None,
            goal.table == drained(table@, queue@).table,
            goal.rest == drained(table@, queue@).rest,
            goal.requests == requests@ + drained(table@, queue@).requests,
            goal.fault == drained(table@, queue@).fault,
        ensures
            goal.table == table@,
            goal.rest == queue@,
            goal.requests == requests@,
            goal.fault == fault,
        decreases queue@.len(),
    {
        let ghost before = requests@;
        let ghost then = drained(table@, queue@);
        match queue.ops.pop_front() {
            None => {
                assert(requests@ + then.requests =~= requests@);
                break ;
            },
            Some(IOOps::ADD(flag, fd, waker)) => {
                if table.contains(fd) {
                    requests.push(watch(flag, fd));
                    fault = Some(fd);
                    assert(before + then.requests =~= requests@);
                    break ;
                }
                let request = table.add_event(flag, fd, waker);
                requests.push(request);
                assert(before + then.requests =~= requests@ + drained(table@, queue@).requests);
            },
            Some(IOOps::REMOVE(fd)) => {
                let request = table.rm_event(fd);
                requests.push(request);
                assert(before + then.requests =~= requests@ + drained(table@, queue@).requests);
            },
        }
    }
    DrainReport { requests, fault }
}

} // verus!
