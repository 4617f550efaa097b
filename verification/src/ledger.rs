//! The waker table over time: every waker that was handed to the reactor is
//! either still installed, or was handed back to be woken, or was dropped by
//! an unregistration. Nothing else happens to a waker.

use crate::kernel::{fd_of, watch_request, KernelRequest};
use crate::mask::{EventMask, RawFd};
use crate::selector::{drained, selected, IOOps, Selected};
use vstd::prelude::*;

verus! {

/// One change that the reactor makes to the waker table.
pub enum Change<W> {
    /// A control operation, taken from the queue and applied.
    Applied(IOOps<W>),
    /// A readiness event for a descriptor, consumed.
    Fired(RawFd),
}

impl<W> Change<W> {
    /// The descriptor that the change is about.
    pub open spec fn fd(self) -> RawFd {
        match self {
            Change::Applied(IOOps::ADD(_, fd, _)) => fd,
            Change::Applied(IOOps::REMOVE(fd)) => fd,
            Change::Fired(fd) => fd,
        }
    }

    /// The change installs a waker.
    pub open spec fn is_add(self) -> bool {
        self matches Change::Applied(IOOps::ADD(_, _, _))
    }

    /// The change is an unregistration.
    pub open spec fn is_remove(self) -> bool {
        self matches Change::Applied(IOOps::REMOVE(_))
    }

    /// The change consumes a readiness event.
    pub open spec fn is_fired(self) -> bool {
        self is Fired
    }

    /// Whether the change counts for `only`: for every descriptor where
    /// `only` is `None`, and else for that one descriptor.
    pub open spec fn concerns(self, only: Option<RawFd>) -> bool {
        only matches Some(fd) ==> self.fd() == fd
    }
}

/// Whether the reactor can make the change to `table` and go on: a waker is
/// installed only where none is, and a readiness event finds the waker it
/// was armed for.
pub open spec fn admits<W>(table: Map<RawFd, W>, change: Change<W>) -> bool {
    match change {
        Change::Applied(IOOps::ADD(_, fd, _)) => !table.contains_key(fd),
        Change::Applied(IOOps::REMOVE(_)) => true,
        Change::Fired(fd) => table.contains_key(fd),
    }
}

/// The table after the change.
pub open spec fn apply<W>(table: Map<RawFd, W>, change: Change<W>) -> Map<RawFd, W> {
    match change {
        Change::Applied(IOOps::ADD(_, fd, waker)) => table.insert(fd, waker),
        Change::Applied(IOOps::REMOVE(fd)) => table.remove(fd),
        Change::Fired(fd) => table.remove(fd),
    }
}

/// Whether the reactor can make every change of `trace` in turn, starting
/// from `table`.
pub open spec fn admissible<W>(table: Map<RawFd, W>, trace: Seq<Change<W>>) -> bool
    decreases trace.len(),
{
    trace.len() == 0 || (admits(table, trace[0]) && admissible(
        apply(table, trace[0]),
        trace.drop_first(),
    ))
}

/// The table after every change of `trace` in turn, starting from `table`.
pub open spec fn replay<W>(table: Map<RawFd, W>, trace: Seq<Change<W>>) -> Map<RawFd, W>
    decreases trace.len(),
{
    if trace.len() == 0 {
        table
    } else {
        replay(apply(table, trace[0]), trace.drop_first())
    }
}

/// One if the condition holds, zero if not.
pub open spec fn one_if(condition: bool) -> nat {
    if condition {
        1
    } else {
        0
    }
}

/// The number of registrations in `trace` that count for `only`.
pub open spec fn adds<W>(trace: Seq<Change<W>>, only: Option<RawFd>) -> nat
    decreases trace.len(),
{
    if trace.len() == 0 {
        0
    } else {
        one_if(trace[0].is_add() && trace[0].concerns(only)) + adds(trace.drop_first(), only)
    }
}

/// The number of unregistrations in `trace` that count for `only`.
pub open spec fn removes<W>(trace: Seq<Change<W>>, only: Option<RawFd>) -> nat
    decreases trace.len(),
{
    if trace.len() == 0 {
        0
    } else {
        one_if(trace[0].is_remove() && trace[0].concerns(only)) + removes(
            trace.drop_first(),
            only,
        )
    }
}

/// The number of readiness events consumed in `trace` that count for `only`.
pub open spec fn dispatches<W>(trace: Seq<Change<W>>, only: Option<RawFd>) -> nat
    decreases trace.len(),
{
    if trace.len() == 0 {
        0
    } else {
        one_if(trace[0].is_fired() && trace[0].concerns(only)) + dispatches(
            trace.drop_first(),
            only,
        )
    }
}

/// The number of unregistrations in `trace` that count for `only` and found
/// no waker to drop, when the changes are made in turn starting from
/// `table`.
pub open spec fn stale_removes<W>(
    table: Map<RawFd, W>,
    trace: Seq<Change<W>>,
    only: Option<RawFd>,
) -> nat
    decreases trace.len(),
{
    if trace.len() == 0 {
        0
    } else {
        one_if(
            trace[0].is_remove() && trace[0].concerns(only) && !table.contains_key(trace[0].fd()),
        ) + stale_removes(apply(table, trace[0]), trace.drop_first(), only)
    }
}

/// The number of wakers in `table` that count for `only`.
pub open spec fn held<W>(table: Map<RawFd, W>, only: Option<RawFd>) -> nat {
    match only {
        None => table.len(),
        Some(fd) => one_if(table.contains_key(fd)),
    }
}

/// A whole number, or zero in place of a negative one.
pub open spec fn clamp(x: int) -> nat {
    if x < 0 {
        0
    } else {
        x as nat
    }
}

/// The control operations `ops` as changes to the table.
pub open spec fn applied<W>(ops: Seq<IOOps<W>>) -> Seq<Change<W>> {
    Seq::new(ops.len(), |i: int| Change::Applied(ops[i]))
}

/// Changes made in two runs, one after the other, are the changes of the
/// two runs put together.
pub proof fn lemma_replay_concat<W>(
    table: Map<RawFd, W>,
    first: Seq<Change<W>>,
    second: Seq<Change<W>>,
)
    ensures
        replay(table, first + second) == replay(replay(table, first), second),
        admissible(table, first + second) == (admissible(table, first) && admissible(
            replay(table, first),
            second,
        )),
    decreases first.len(),
{
    if first.len() == 0 {
        assert(first + second =~= second);
    } else {
        assert((first + second).drop_first() =~= first.drop_first() + second);
        lemma_replay_concat(apply(table, first[0]), first.drop_first(), second);
    }
}

/// The ledger of wakers. Over any run of changes that the reactor can make,
/// the wakers that are installed at the end and those that were taken out,
/// by a readiness event or by an unregistration that found one, are the
/// wakers that were installed at the start and those that were put in.
/// This holds of the whole table and of each descriptor by itself.
pub proof fn lemma_ledger<W>(table: Map<RawFd, W>, trace: Seq<Change<W>>, only: Option<RawFd>)
    requires
        table.dom().finite(),
        admissible(table, trace),
    ensures
        held(replay(table, trace), only) + dispatches(trace, only) + removes(trace, only) == held(
            table,
            only,
        ) + adds(trace, only) + stale_removes(table, trace, only),
    decreases trace.len(),
{
    if trace.len() > 0 {
        let change = trace[0];
        let next = apply(table, change);
        lemma_ledger(next, trace.drop_first(), only);
        match change {
            Change::Applied(IOOps::ADD(_, fd, waker)) => {
                assert(next.dom() =~= table.dom().insert(fd));
            },
            Change::Applied(IOOps::REMOVE(fd)) => {
                assert(next.dom() =~= table.dom().remove(fd));
            },
            Change::Fired(fd) => {
                assert(next.dom() =~= table.dom().remove(fd));
            },
        }
    }
}

/// The size of the waker table. Start from an empty table and let the
/// reactor make any run of changes that it can make. If every
/// unregistration found a waker to drop, or if the table is empty at the
/// end, then the table holds as many wakers as were registered and neither
/// dispatched nor unregistered since: registrations less dispatches less
/// unregistrations, or none where that number is negative.
pub proof fn lemma_table_size<W>(trace: Seq<Change<W>>)
    requires
        admissible(Map::<RawFd, W>::empty(), trace),
        stale_removes(Map::<RawFd, W>::empty(), trace, None) == 0 || replay(
            Map::<RawFd, W>::empty(),
            trace,
        ).len() == 0,
    ensures
        replay(Map::<RawFd, W>::empty(), trace).len() == clamp(
            adds(trace, None) - dispatches(trace, None) - removes(trace, None),
        ),
{
    lemma_ledger(Map::<RawFd, W>::empty(), trace, None);
}

/// The size of the waker table, whatever the unregistrations found: the
/// unregistrations that found no waker do not count.
pub proof fn lemma_table_size_exact<W>(trace: Seq<Change<W>>)
    requires
        admissible(Map::<RawFd, W>::empty(), trace),
    ensures
        replay(Map::<RawFd, W>::empty(), trace).len() == adds(trace, None) - dispatches(
            trace,
            None,
        ) - (removes(trace, None) - stale_removes(Map::<RawFd, W>::empty(), trace, None)),
        stale_removes(Map::<RawFd, W>::empty(), trace, None) <= removes(trace, None),
{
    lemma_ledger(Map::<RawFd, W>::empty(), trace, None);
    lemma_stale_are_removes(Map::<RawFd, W>::empty(), trace, None);
}

/// An unregistration that found no waker is an unregistration.
pub proof fn lemma_stale_are_removes<W>(
    table: Map<RawFd, W>,
    trace: Seq<Change<W>>,
    only: Option<RawFd>,
)
    ensures
        stale_removes(table, trace, only) <= removes(trace, only),
    decreases trace.len(),
{
    if trace.len() > 0 {
        lemma_stale_are_removes(apply(table, trace[0]), trace.drop_first(), only);
    }
}

/// At most one waker per descriptor. Start from an empty table and let the
/// reactor make any run of changes that it can make. Then for each
/// descriptor, the wakers registered for it and not yet dispatched or
/// dropped number one if the table holds a waker for it and none if not:
/// never two.
pub proof fn lemma_one_waker_per_fd<W>(trace: Seq<Change<W>>, fd: RawFd)
    requires
        admissible(Map::<RawFd, W>::empty(), trace),
    ensures
        adds(trace, Some(fd)) + stale_removes(Map::<RawFd, W>::empty(), trace, Some(fd))
            - dispatches(trace, Some(fd)) - removes(trace, Some(fd)) == one_if(
            replay(Map::<RawFd, W>::empty(), trace).contains_key(fd),
        ),
        adds(trace, Some(fd)) + stale_removes(Map::<RawFd, W>::empty(), trace, Some(fd))
            - dispatches(trace, Some(fd)) - removes(trace, Some(fd)) <= 1,
{
    lemma_ledger(Map::<RawFd, W>::empty(), trace, Some(fd));
}

/// A drain that ends without a fault has made the queued operations, as
/// changes to the table, in the order of the queue: the reactor could make
/// each of them, the table is the one they lead to, the queue is empty, and
/// each operation has made one request.
pub proof fn lemma_drain_is_replay<W>(table: Map<RawFd, W>, ops: Seq<IOOps<W>>)
    requires
        drained(table, ops).fault is None,
    ensures
        admissible(table, applied(ops)),
        drained(table, ops).table == replay(table, applied(ops)),
        drained(table, ops).rest.len() == 0,
        drained(table, ops).requests.len() == ops.len(),
    decreases ops.len(),
{
    if ops.len() > 0 {
        let change = applied(ops)[0];
        assert(applied(ops).drop_first() =~= applied(ops.drop_first()));
        lemma_drain_is_replay(apply(table, change), ops.drop_first());
    }
}

/// A drain with a fault stopped at a registration for a descriptor whose
/// waker was still installed: the reactor could not make the queued
/// operations in turn.
pub proof fn lemma_fault_is_inadmissible<W>(table: Map<RawFd, W>, ops: Seq<IOOps<W>>)
    requires
        drained(table, ops).fault is Some,
    ensures
        !admissible(table, applied(ops)),
        drained(table, ops).table.contains_key(drained(table, ops).fault->Some_0),
        drained(table, ops).requests.len() + drained(table, ops).rest.len() == ops.len(),
    decreases ops.len(),
{
    if ops.len() > 0 {
        let change = applied(ops)[0];
        assert(applied(ops).drop_first() =~= applied(ops.drop_first()));
        if admits(table, change) {
            lemma_fault_is_inadmissible(apply(table, change), ops.drop_first());
        }
    }
}

/// Draining a queue with one more operation at its end is draining the
/// queue and then applying that operation, as long as the drain of the
/// queue ends without a fault.
pub proof fn lemma_drain_push<W>(table: Map<RawFd, W>, ops: Seq<IOOps<W>>, op: IOOps<W>)
    requires
        drained(table, ops).fault is None,
    ensures
        drained(table, ops.push(op)).requests == drained(table, ops).requests + drained(
            drained(table, ops).table,
            seq![op],
        ).requests,
        drained(table, ops.push(op)).table == drained(drained(table, ops).table, seq![op]).table,
        drained(table, ops.push(op)).fault == drained(drained(table, ops).table, seq![op]).fault,
        drained(table, ops.push(op)).rest.len() == 0,
    decreases ops.len(),
{
    reveal_with_fuel(drained, 2);
    if ops.len() == 0 {
        assert(ops.push(op) =~= seq![op]);
        assert(seq![op].drop_first() =~= Seq::<IOOps<W>>::empty());
        assert(drained(table, ops).requests + drained(table, seq![op]).requests =~= drained(
            table,
            seq![op],
        ).requests);
    } else {
        let next = apply(table, Change::Applied(ops[0]));
        assert(ops.push(op).drop_first() =~= ops.drop_first().push(op));
        assert(ops.push(op)[0] == ops[0]);
        lemma_drain_push(next, ops.drop_first(), op);
        let head = drained(table, ops).requests.first();
        assert(drained(table, ops).requests =~= seq![head] + drained(
            next,
            ops.drop_first(),
        ).requests);
        assert(drained(table, ops.push(op)).requests =~= seq![head] + drained(
            next,
            ops.drop_first().push(op),
        ).requests);
        assert(drained(table, ops.push(op)).requests =~= drained(table, ops).requests + drained(
            drained(table, ops).table,
            seq![op],
        ).requests);
    }
}

/// An unregistration is seen by the reactor in the first drain after it.
/// If the reactor reaches the end of the queue, the drain that follows the
/// unregistration of `fd` deletes the watch on `fd` as its last request,
/// leaves no waker for `fd` in the table and no operation in the queue, and
/// differs in nothing else from the drain without the unregistration.
pub proof fn lemma_unregister_seen<W>(table: Map<RawFd, W>, ops: Seq<IOOps<W>>, fd: RawFd)
    requires
        drained(table, ops).fault is None,
    ensures
        drained(table, ops.push(IOOps::REMOVE(fd))).fault is None,
        drained(table, ops.push(IOOps::REMOVE(fd))).rest.len() == 0,
        drained(table, ops.push(IOOps::REMOVE(fd))).requests == drained(table, ops).requests.push(
            KernelRequest::Unwatch { fd },
        ),
        drained(table, ops.push(IOOps::REMOVE(fd))).table == drained(table, ops).table.remove(fd),
        !drained(table, ops.push(IOOps::REMOVE(fd))).table.contains_key(fd),
{
    reveal_with_fuel(drained, 2);
    let op = IOOps::<W>::REMOVE(fd);
    lemma_drain_push(table, ops, op);
    assert(seq![op].drop_first() =~= Seq::<IOOps<W>>::empty());
    let last = drained(drained(table, ops).table, seq![op]);
    assert(last.requests =~= seq![KernelRequest::Unwatch { fd }]);
    assert(drained(table, ops).requests + seq![KernelRequest::Unwatch { fd }] =~= drained(
        table,
        ops,
    ).requests.push(KernelRequest::Unwatch { fd }));
}

/// A registration is seen by the reactor in the first drain after it. If
/// the reactor reaches the end of the queue and no waker is installed for
/// `fd` by then, the drain that follows the registration arms the one-shot
/// watch on `fd` as its last request and installs the waker; if a waker is
/// installed, the drain ends with the watch request and a fault.
pub proof fn lemma_register_seen<W>(
    table: Map<RawFd, W>,
    ops: Seq<IOOps<W>>,
    flags: EventMask,
    fd: RawFd,
    waker: W,
)
    requires
        drained(table, ops).fault is None,
    ensures
        drained(table, ops.push(IOOps::ADD(flags, fd, waker))).rest.len() == 0,
        drained(table, ops.push(IOOps::ADD(flags, fd, waker))).requests == drained(
            table,
            ops,
        ).requests.push(watch_request(flags, fd)),
        drained(table, ops).table.contains_key(fd) ==> {
            &&& drained(table, ops.push(IOOps::ADD(flags, fd, waker))).fault == Some(fd)
            &&& drained(table, ops.push(IOOps::ADD(flags, fd, waker))).table == drained(
                table,
                ops,
            ).table
        },
        !drained(table, ops).table.contains_key(fd) ==> {
            &&& drained(table, ops.push(IOOps::ADD(flags, fd, waker))).fault is None
            &&& drained(table, ops.push(IOOps::ADD(flags, fd, waker))).table == drained(
                table,
                ops,
            ).table.insert(fd, waker)
        },
{
    reveal_with_fuel(drained, 2);
    let op = IOOps::ADD(flags, fd, waker);
    lemma_drain_push(table, ops, op);
    assert(seq![op].drop_first() =~= Seq::<IOOps<W>>::empty());
    let last = drained(drained(table, ops).table, seq![op]);
    assert(last.requests =~= seq![watch_request(flags, fd)]);
    assert(drained(table, ops).requests + seq![watch_request(flags, fd)]
        =~= drained(table, ops).requests.push(watch_request(flags, fd)));
}

/// A waker that the reactor hands over to be woken is a readiness event
/// consumed: the reactor could make that change, and the table is the one
/// after it. A word that finds no waker, and the doorbell's word, change
/// nothing.
pub proof fn lemma_select_is_change<W>(table: Map<RawFd, W>, wakeup: RawFd, data: u64)
    ensures
        selected(table, wakeup, data).0 is Wake ==> {
            &&& admits(table, Change::Fired(fd_of(data)))
            &&& selected(table, wakeup, data).1 == apply(table, Change::Fired(fd_of(data)))
            &&& selected(table, wakeup, data).0 == Selected::Wake(table[fd_of(data)])
        },
        !(selected(table, wakeup, data).0 is Wake) ==> selected(table, wakeup, data).1 == table,
{
}

/// The request that a control operation makes of the readiness object.
pub open spec fn request_of<W>(op: IOOps<W>) -> KernelRequest {
    match op {
        IOOps::ADD(flags, fd, _) => watch_request(flags, fd),
        IOOps::REMOVE(fd) => KernelRequest::Unwatch { fd },
    }
}

/// A drain makes one request for each operation that it reaches, in the
/// order of the queue: a one-shot watch for a registration, and the end of
/// the watch for an unregistration.
pub proof fn lemma_drain_requests<W>(table: Map<RawFd, W>, ops: Seq<IOOps<W>>, i: int)
    requires
        0 <= i < drained(table, ops).requests.len(),
    ensures
        i < ops.len(),
        drained(table, ops).requests[i] == request_of(ops[i]),
    decreases ops.len(),
{
    if ops.len() > 0 && i > 0 {
        let next = apply(table, Change::Applied(ops[0]));
        if admits(table, Change::Applied(ops[0])) {
            lemma_drain_requests(next, ops.drop_first(), i - 1);
        }
    }
}

/// Whether the reactor waits for a readiness event on `fd` after the
/// changes of `trace`, where `before` says whether it did at the start: it
/// does if the last change about `fd` was a registration.
pub open spec fn waiting<W>(before: bool, trace: Seq<Change<W>>, fd: RawFd) -> bool
    decreases trace.len(),
{
    if trace.len() == 0 {
        before
    } else {
        waiting(
            if trace[0].fd() == fd {
                trace[0].is_add()
            } else {
                before
            },
            trace.drop_first(),
            fd,
        )
    }
}

/// The table holds a waker for a descriptor exactly while the reactor waits
/// for it: from the registration that armed its watch until the readiness
/// event is consumed or the descriptor is unregistered.
pub proof fn lemma_entry_while_waiting<W>(table: Map<RawFd, W>, trace: Seq<Change<W>>, fd: RawFd)
    ensures
        replay(table, trace).contains_key(fd) == waiting(table.contains_key(fd), trace, fd),
    decreases trace.len(),
{
    if trace.len() > 0 {
        lemma_entry_while_waiting(apply(table, trace[0]), trace.drop_first(), fd);
    }
}

/// One-shot: once the readiness event of a descriptor is consumed, no
/// second one finds a waker, whatever else is unregistered or consumed
/// meanwhile, until a registration for the descriptor is applied.
pub proof fn lemma_fires_once<W>(table: Map<RawFd, W>, trace: Seq<Change<W>>, fd: RawFd)
    requires
        forall|i: int| 0 <= i < trace.len() ==> !(#[trigger] trace[i]).is_add(),
    ensures
        !replay(apply(table, Change::Fired(fd)), trace).contains_key(fd),
        !admits(replay(apply(table, Change::Fired(fd)), trace), Change::Fired(fd)),
{
    lemma_no_add_shrinks(apply(table, Change::Fired(fd)), trace, fd);
}

/// Changes that register nothing install no waker.
pub proof fn lemma_no_add_shrinks<W>(table: Map<RawFd, W>, trace: Seq<Change<W>>, fd: RawFd)
    requires
        forall|i: int| 0 <= i < trace.len() ==> !(#[trigger] trace[i]).is_add(),
        !table.contains_key(fd),
    ensures
        !replay(table, trace).contains_key(fd),
    decreases trace.len(),
{
    if trace.len() > 0 {
        let rest = trace.drop_first();
        assert forall|i: int| 0 <= i < rest.len() implies !(#[trigger] rest[i]).is_add() by {
            assert(rest[i] == trace[i + 1]);
        }
        assert(!trace[0].is_add());
        lemma_no_add_shrinks(apply(table, trace[0]), rest, fd);
    }
}

} // verus!
