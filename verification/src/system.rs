//! The runtime as a whole: the run queue, the control queue and the waker
//! table, and the moves that the executor, the reactor and the adapters make
//! on them.
//!
//! A task is its own waker. Where every descriptor is used by the one task
//! that owns it, and a task is woken by the reactor alone, two things hold
//! of every state that the runtime reaches. A task is held in at most one
//! place: one slot of the run queue, or one queued registration, or one
//! entry of the waker table. And no registration ever finds a waker in its
//! place: the reactor is never at fault.

use crate::executor::{occurrences, QueueState};
use crate::ledger::{lemma_drain_is_replay, lemma_register_seen, lemma_unregister_seen};
use crate::mask::{EventMask, RawFd};
use crate::selector::{drained, IOOps};
use vstd::prelude::*;

verus! {

/// The state of the runtime.
pub struct System<T> {
    /// The run queue.
    pub run: QueueState<T>,
    /// The control operations that wait for the reactor.
    pub control: Seq<IOOps<T>>,
    /// The wakers that wait for a readiness event.
    pub table: Map<RawFd, T>,
    /// The task that owns each open descriptor.
    pub owner: Map<RawFd, T>,
}

/// One move of the runtime.
pub enum Move<T> {
    /// A new task is sent to the run queue.
    Spawn(T),
    /// A task comes to own a descriptor that nobody owned: it opened a
    /// socket, or accepted a connection for it.
    Own(T, RawFd),
    /// The executor steps the oldest task, and the step ends the task.
    Finish,
    /// The executor steps the oldest task, and the step ends where a call
    /// on a descriptor of the task would block: the task is registered for
    /// the descriptor.
    Suspend(EventMask, RawFd),
    /// The executor steps the oldest task, and the step wakes the task
    /// before it ends.
    Yield,
    /// The adapter of a descriptor is dropped: the descriptor is
    /// unregistered, and nobody owns it any more.
    Close(RawFd),
    /// The reactor handles the doorbell and drains the control queue.
    Drain,
    /// The reactor consumes a readiness event for a descriptor and wakes
    /// the task that waited for it.
    Fire(RawFd),
}

/// The operation registers the task `t`.
pub open spec fn registers<T>(op: IOOps<T>, t: T) -> bool {
    &&& op matches IOOps::ADD(_, _, w)
    &&& w == t
}

/// The operation at place `i` of `ops` registers the task `t`.
pub open spec fn adds_waker<T>(ops: Seq<IOOps<T>>, i: int, t: T) -> bool {
    0 <= i < ops.len() && registers(ops[i], t)
}

/// A queued registration holds the task `t`.
pub open spec fn in_control<T>(ops: Seq<IOOps<T>>, t: T) -> bool {
    exists|i: int| adds_waker(ops, i, t)
}

/// The table holds the task `t` for the descriptor `fd`.
pub open spec fn holds<T>(table: Map<RawFd, T>, fd: RawFd, t: T) -> bool {
    table.contains_key(fd) && table[fd] == t
}

/// The table holds the task `t`.
pub open spec fn in_table<T>(table: Map<RawFd, T>, t: T) -> bool {
    exists|fd: RawFd| holds(table, fd, t)
}

impl<T> System<T> {
    /// The runtime before anything has happened.
    pub open spec fn init() -> System<T> {
        System {
            run: QueueState { tasks: Seq::empty(), senders: 1, receiving: true },
            control: Seq::empty(),
            table: Map::empty(),
            owner: Map::empty(),
        }
    }

    /// Some place of the runtime holds the task `t`.
    pub open spec fn referenced(self, t: T) -> bool {
        self.run.tasks.contains(t) || in_control(self.control, t) || in_table(self.table, t)
    }

    /// Whether the runtime can make the move.
    pub open spec fn enabled(self, m: Move<T>) -> bool {
        match m {
            Move::Spawn(t) => !self.referenced(t) && self.run.send(t) is Ok,
            Move::Own(_, fd) => !self.owner.contains_key(fd),
            Move::Finish => self.run.recv() is Ok,
            Move::Suspend(_, fd) => {
                &&& self.run.recv() is Ok
                &&& self.owner.contains_key(fd)
                &&& self.owner[fd] == self.run.tasks[0]
            },
            Move::Yield => {
                &&& self.run.recv() is Ok
                &&& self.run.recv()->Ok_0.1.send(self.run.tasks[0]) is Ok
            },
            Move::Close(fd) => self.owner.contains_key(fd),
            Move::Drain => true,
            Move::Fire(fd) => self.table.contains_key(fd) && self.run.send(self.table[fd]) is Ok,
        }
    }

    /// The runtime after the move.
    pub open spec fn next(self, m: Move<T>) -> System<T> {
        match m {
            Move::Spawn(t) => System { run: self.run.send(t)->Ok_0, ..self },
            Move::Own(t, fd) => System { owner: self.owner.insert(fd, t), ..self },
            Move::Finish => System { run: self.run.recv()->Ok_0.1, ..self },
            Move::Suspend(flags, fd) => System {
                run: self.run.recv()->Ok_0.1,
                control: self.control.push(IOOps::ADD(flags, fd, self.run.recv()->Ok_0.0)),
                ..self
            },
            Move::Yield => System {
                run: self.run.recv()->Ok_0.1.send(self.run.tasks[0])->Ok_0,
                ..self
            },
            Move::Close(fd) => System {
                control: self.control.push(IOOps::REMOVE(fd)),
                owner: self.owner.remove(fd),
                ..self
            },
            Move::Drain => System {
                control: drained(self.table, self.control).rest,
                table: drained(self.table, self.control).table,
                ..self
            },
            Move::Fire(fd) => System {
                run: self.run.send(self.table[fd])->Ok_0,
                table: self.table.remove(fd),
                ..self
            },
        }
    }

    /// Whether the runtime can make the moves in turn.
    pub open spec fn enabled_all(self, moves: Seq<Move<T>>) -> bool
        decreases moves.len(),
    {
        moves.len() == 0 || (self.enabled(moves[0]) && self.next(moves[0]).enabled_all(
            moves.drop_first(),
        ))
    }

    /// The runtime after the moves.
    pub open spec fn after(self, moves: Seq<Move<T>>) -> System<T>
        decreases moves.len(),
    {
        if moves.len() == 0 {
            self
        } else {
            self.next(moves[0]).after(moves.drop_first())
        }
    }

    /// The waker table as it will be when the reactor has drained the
    /// control queue.
    pub open spec fn settled(self) -> Map<RawFd, T> {
        drained(self.table, self.control).table
    }

    /// Every task is held in at most one place.
    pub open spec fn single(self) -> bool {
        &&& self.run.tasks.no_duplicates()
        &&& forall|i: int, j: int, t: T|
            #![trigger adds_waker(self.control, i, t), adds_waker(self.control, j, t)]
            adds_waker(self.control, i, t) && adds_waker(self.control, j, t) ==> i == j
        &&& forall|a: RawFd, b: RawFd, t: T|
            #![trigger holds(self.table, a, t), holds(self.table, b, t)]
            holds(self.table, a, t) && holds(self.table, b, t) ==> a == b
        &&& forall|t: T|
            #![trigger self.run.tasks.contains(t)]
            self.run.tasks.contains(t) ==> !in_control(self.control, t) && !in_table(
                self.table,
                t,
            )
        &&& forall|t: T|
            #![trigger in_control(self.control, t)]
            in_control(self.control, t) ==> !in_table(self.table, t)
    }

    /// The reactor can drain the control queue without a fault, and every
    /// waker that is installed then waits for a descriptor of its task.
    pub open spec fn sound(self) -> bool {
        &&& drained(self.table, self.control).fault is None
        &&& forall|fd: RawFd|
            #![trigger self.settled().contains_key(fd)]
            self.settled().contains_key(fd) ==> self.owner.contains_key(fd) && self.owner[fd]
                == self.settled()[fd]
    }

    /// What holds of every state that the runtime reaches.
    pub open spec fn inv(self) -> bool {
        &&& self.run.wf()
        &&& self.single()
        &&& self.sound()
    }
}

/// A waker that is installed after a drain was installed before it or was
/// registered by an operation of the queue.
pub proof fn lemma_drained_sources<T>(table: Map<RawFd, T>, ops: Seq<IOOps<T>>, fd: RawFd)
    requires
        drained(table, ops).table.contains_key(fd),
    ensures
        holds(table, fd, drained(table, ops).table[fd]) || in_control(
            ops,
            drained(table, ops).table[fd],
        ),
    decreases ops.len(),
{
    let t = drained(table, ops).table[fd];
    if ops.len() > 0 {
        let rest = ops.drop_first();
        match ops[0] {
            IOOps::ADD(_, f, w) => {
                if !table.contains_key(f) {
                    lemma_drained_sources(table.insert(f, w), rest, fd);
                    if holds(table.insert(f, w), fd, t) {
                        if fd == f {
                            assert(adds_waker(ops, 0, t));
                        }
                    } else {
                        let i = choose|i: int| adds_waker(rest, i, t);
                        assert(adds_waker(ops, i + 1, t));
                    }
                }
            },
            IOOps::REMOVE(f) => {
                lemma_drained_sources(table.remove(f), rest, fd);
                if !holds(table.remove(f), fd, t) {
                    let i = choose|i: int| adds_waker(rest, i, t);
                    assert(adds_waker(ops, i + 1, t));
                }
            },
        }
    }
}

/// Two descriptors for which one and the same waker is installed after a
/// drain were both in the table with it before, or the queue registered it
/// twice, or it was both in the table and in the queue.
pub proof fn lemma_drained_pairs<T>(
    table: Map<RawFd, T>,
    ops: Seq<IOOps<T>>,
    a: RawFd,
    b: RawFd,
    t: T,
)
    requires
        holds(drained(table, ops).table, a, t),
        holds(drained(table, ops).table, b, t),
        a != b,
    ensures
        (holds(table, a, t) && holds(table, b, t)) || (in_table(table, t) && in_control(ops, t))
            || (exists|i: int, j: int| i != j && adds_waker(ops, i, t) && adds_waker(ops, j, t)),
    decreases ops.len(),
{
    if ops.len() > 0 {
        let rest = ops.drop_first();
        match ops[0] {
            IOOps::ADD(_, f, w) => {
                if !table.contains_key(f) {
                    let grown = table.insert(f, w);
                    lemma_drained_pairs(grown, rest, a, b, t);
                    if holds(grown, a, t) && holds(grown, b, t) {
                        if a == f || b == f {
                            assert(adds_waker(ops, 0, t));
                            let other = if a == f {
                                b
                            } else {
                                a
                            };
                            assert(holds(table, other, t));
                        }
                    } else if in_table(grown, t) && in_control(rest, t) {
                        let i = choose|i: int| adds_waker(rest, i, t);
                        assert(adds_waker(ops, i + 1, t));
                        let g = choose|g: RawFd| holds(grown, g, t);
                        if g == f {
                            assert(adds_waker(ops, 0, t));
                        } else {
                            assert(holds(table, g, t));
                        }
                    } else {
                        let (i, j) = choose|i: int, j: int|
                            i != j && adds_waker(rest, i, t) && adds_waker(rest, j, t);
                        assert(adds_waker(ops, i + 1, t));
                        assert(adds_waker(ops, j + 1, t));
                    }
                }
            },
            IOOps::REMOVE(f) => {
                let shrunk = table.remove(f);
                lemma_drained_pairs(shrunk, rest, a, b, t);
                if holds(shrunk, a, t) && holds(shrunk, b, t) {
                } else if in_table(shrunk, t) && in_control(rest, t) {
                    let i = choose|i: int| adds_waker(rest, i, t);
                    assert(adds_waker(ops, i + 1, t));
                    let g = choose|g: RawFd| holds(shrunk, g, t);
                    assert(holds(table, g, t));
                } else {
                    let (i, j) = choose|i: int, j: int|
                        i != j && adds_waker(rest, i, t) && adds_waker(rest, j, t);
                    assert(adds_waker(ops, i + 1, t));
                    assert(adds_waker(ops, j + 1, t));
                }
            },
        }
    }
}

/// A drain that ends without a fault from a table ends without a fault from
/// every part of that table, and installs no waker that it would not have
/// installed from the whole.
pub proof fn lemma_drained_part<T>(part: Map<RawFd, T>, whole: Map<RawFd, T>, ops: Seq<IOOps<T>>)
    requires
        part.submap_of(whole),
        drained(whole, ops).fault is None,
    ensures
        drained(part, ops).fault is None,
        drained(part, ops).table.submap_of(drained(whole, ops).table),
    decreases ops.len(),
{
    if ops.len() > 0 {
        match ops[0] {
            IOOps::ADD(_, f, w) => {
                lemma_drained_part(part.insert(f, w), whole.insert(f, w), ops.drop_first());
            },
            IOOps::REMOVE(f) => {
                lemma_drained_part(part.remove(f), whole.remove(f), ops.drop_first());
            },
        }
    }
}

/// A registration at the end of the queue is held by the queue, and every
/// other task is held by the queue as it was before.
pub proof fn lemma_in_control_push<T>(ops: Seq<IOOps<T>>, op: IOOps<T>, t: T)
    ensures
        in_control(ops.push(op), t) <==> in_control(ops, t) || registers(op, t),
{
    let pushed = ops.push(op);
    if in_control(pushed, t) {
        let i = choose|i: int| adds_waker(pushed, i, t);
        if i < ops.len() {
            assert(adds_waker(ops, i, t));
        }
    }
    if in_control(ops, t) {
        let i = choose|i: int| adds_waker(ops, i, t);
        assert(adds_waker(pushed, i, t));
    }
    if registers(op, t) {
        assert(adds_waker(pushed, ops.len() as int, t));
    }
}

/// A sequence without duplicates has none after its first element is
/// taken away, and what is left does not hold that element.
pub proof fn lemma_drop_first_single<T>(tasks: Seq<T>)
    requires
        tasks.len() > 0,
        tasks.no_duplicates(),
    ensures
        tasks.drop_first().no_duplicates(),
        !tasks.drop_first().contains(tasks[0]),
        forall|t: T| #[trigger] tasks.drop_first().contains(t) ==> tasks.contains(t),
{
    let rest = tasks.drop_first();
    assert forall|i: int, j: int| 0 <= i < rest.len() && 0 <= j < rest.len() && i != j implies rest[i]
        != rest[j] by {
        assert(rest[i] == tasks[i + 1]);
        assert(rest[j] == tasks[j + 1]);
    }
    if rest.contains(tasks[0]) {
        let i = choose|i: int| 0 <= i < rest.len() && rest[i] == tasks[0];
        assert(rest[i] == tasks[i + 1]);
    }
    assert forall|t: T| #[trigger] rest.contains(t) implies tasks.contains(t) by {
        let i = choose|i: int| 0 <= i < rest.len() && rest[i] == t;
        assert(tasks[i + 1] == t);
    }
}

/// A sequence without duplicates has none after an element that it does
/// not hold is put at its end, and holds that element and what it held.
pub proof fn lemma_push_single<T>(tasks: Seq<T>, task: T)
    requires
        tasks.no_duplicates(),
        !tasks.contains(task),
    ensures
        tasks.push(task).no_duplicates(),
        forall|t: T| #[trigger] tasks.push(task).contains(t) ==> t == task || tasks.contains(t),
{
    let more = tasks.push(task);
    assert forall|i: int, j: int| 0 <= i < more.len() && 0 <= j < more.len() && i != j implies more[i]
        != more[j] by {
        if i < tasks.len() {
            assert(tasks[i] == more[i]);
        }
        if j < tasks.len() {
            assert(tasks[j] == more[j]);
        }
    }
    assert forall|t: T| #[trigger] more.contains(t) implies t == task || tasks.contains(t) by {
        let i = choose|i: int| 0 <= i < more.len() && more[i] == t;
        if i < tasks.len() {
            assert(tasks[i] == t);
        }
    }
}

/// The start keeps the invariant.
pub proof fn lemma_init_inv<T>()
    ensures
        System::<T>::init().inv(),
{
    let s = System::<T>::init();
    assert(s.settled() =~= Map::<RawFd, T>::empty());
}

/// A spawn keeps the invariant.
pub proof fn lemma_spawn_inv<T>(s: System<T>, t: T)
    requires
        s.inv(),
        s.enabled(Move::Spawn(t)),
    ensures
        s.next(Move::Spawn(t)).inv(),
{
    let n = s.next(Move::Spawn(t));
    lemma_push_single(s.run.tasks, t);
    assert forall|f: RawFd| #[trigger] n.settled().contains_key(f) implies n.owner.contains_key(f)
        && n.owner[f] == n.settled()[f] by {
        assert(s.settled().contains_key(f));
    }
    assert forall|u: T| #[trigger] n.run.tasks.contains(u) implies !in_control(n.control, u)
        && !in_table(n.table, u) by {
        if u != t {
            assert(s.run.tasks.contains(u));
        }
    }
}

/// A descriptor that comes to be owned keeps the invariant.
pub proof fn lemma_own_inv<T>(s: System<T>, t: T, fd: RawFd)
    requires
        s.inv(),
        s.enabled(Move::Own(t, fd)),
    ensures
        s.next(Move::Own(t, fd)).inv(),
{
    let n = s.next(Move::Own(t, fd));
    assert forall|f: RawFd| #[trigger] n.settled().contains_key(f) implies n.owner.contains_key(f)
        && n.owner[f] == n.settled()[f] by {
        assert(s.settled().contains_key(f));
    }
}

/// A step that ends its task keeps the invariant.
pub proof fn lemma_finish_inv<T>(s: System<T>)
    requires
        s.inv(),
        s.enabled(Move::Finish),
    ensures
        s.next(Move::Finish).inv(),
{
    let n = s.next(Move::Finish);
    lemma_drop_first_single(s.run.tasks);
    assert forall|f: RawFd| #[trigger] n.settled().contains_key(f) implies n.owner.contains_key(f)
        && n.owner[f] == n.settled()[f] by {
        assert(s.settled().contains_key(f));
    }
    assert forall|u: T| #[trigger] n.run.tasks.contains(u) implies !in_control(n.control, u)
        && !in_table(n.table, u) by {
        assert(s.run.tasks.contains(u));
    }
}

/// A step that wakes its own task keeps the invariant.
pub proof fn lemma_yield_inv<T>(s: System<T>)
    requires
        s.inv(),
        s.enabled(Move::Yield),
    ensures
        s.next(Move::Yield).inv(),
{
    let n = s.next(Move::Yield);
    let t = s.run.tasks[0];
    lemma_drop_first_single(s.run.tasks);
    lemma_push_single(s.run.tasks.drop_first(), t);
    assert(s.run.tasks.contains(t));
    assert forall|f: RawFd| #[trigger] n.settled().contains_key(f) implies n.owner.contains_key(f)
        && n.owner[f] == n.settled()[f] by {
        assert(s.settled().contains_key(f));
    }
    assert forall|u: T| #[trigger] n.run.tasks.contains(u) implies !in_control(n.control, u)
        && !in_table(n.table, u) by {
        if u != t {
            assert(s.run.tasks.drop_first().contains(u));
            assert(s.run.tasks.contains(u));
        }
    }
}

/// A descriptor that is closed keeps the invariant.
pub proof fn lemma_close_inv<T>(s: System<T>, fd: RawFd)
    requires
        s.inv(),
        s.enabled(Move::Close(fd)),
    ensures
        s.next(Move::Close(fd)).inv(),
{
    let n = s.next(Move::Close(fd));
    let op = IOOps::<T>::REMOVE(fd);
    lemma_unregister_seen(s.table, s.control, fd);
    assert forall|i: int, j: int, t: T|
        adds_waker(n.control, i, t) && adds_waker(n.control, j, t) implies i == j by {
        assert(adds_waker(s.control, i, t));
        assert(adds_waker(s.control, j, t));
    }
    assert forall|t: T| #[trigger] in_control(n.control, t) implies in_control(s.control, t) by {
        lemma_in_control_push(s.control, op, t);
    }
    assert forall|t: T| #[trigger] n.run.tasks.contains(t) implies !in_control(n.control, t)
        && !in_table(n.table, t) by {
        lemma_in_control_push(s.control, op, t);
    }
    assert forall|f: RawFd| #[trigger] n.settled().contains_key(f) implies n.owner.contains_key(f)
        && n.owner[f] == n.settled()[f] by {
        assert(s.settled().contains_key(f));
    }
}

/// A step that suspends its task keeps the invariant: the registration
/// will find no waker in its place.
pub proof fn lemma_suspend_inv<T>(s: System<T>, flags: EventMask, fd: RawFd)
    requires
        s.inv(),
        s.enabled(Move::Suspend(flags, fd)),
    ensures
        s.next(Move::Suspend(flags, fd)).inv(),
{
    let n = s.next(Move::Suspend(flags, fd));
    let t = s.run.tasks[0];
    let op = IOOps::ADD(flags, fd, t);
    lemma_drop_first_single(s.run.tasks);
    assert(s.run.tasks.contains(t));
    // The task is held by the run queue alone, so no waker of it is or will
    // be installed.
    if s.settled().contains_key(fd) {
        lemma_drained_sources(s.table, s.control, fd);
        assert(s.settled()[fd] == t);
        if holds(s.table, fd, t) {
            assert(in_table(s.table, t));
        }
    }
    lemma_register_seen(s.table, s.control, flags, fd, t);
    assert forall|i: int, j: int, u: T|
        adds_waker(n.control, i, u) && adds_waker(n.control, j, u) implies i == j by {
        if i < s.control.len() {
            assert(adds_waker(s.control, i, u));
        }
        if j < s.control.len() {
            assert(adds_waker(s.control, j, u));
        }
        if i != j {
            assert(in_control(s.control, u));
            assert(u == t);
        }
    }
    assert forall|u: T| #[trigger] n.run.tasks.contains(u) implies !in_control(n.control, u)
        && !in_table(n.table, u) by {
        assert(s.run.tasks.contains(u));
        lemma_in_control_push(s.control, op, u);
    }
    assert forall|u: T| #[trigger] in_control(n.control, u) implies !in_table(n.table, u) by {
        lemma_in_control_push(s.control, op, u);
    }
    assert forall|f: RawFd| #[trigger] n.settled().contains_key(f) implies n.owner.contains_key(f)
        && n.owner[f] == n.settled()[f] by {
        if f != fd {
            assert(s.settled().contains_key(f));
        }
    }
}

/// A readiness event that is consumed keeps the invariant.
pub proof fn lemma_fire_inv<T>(s: System<T>, fd: RawFd)
    requires
        s.inv(),
        s.enabled(Move::Fire(fd)),
    ensures
        s.next(Move::Fire(fd)).inv(),
{
    let n = s.next(Move::Fire(fd));
    let t = s.table[fd];
    assert(holds(s.table, fd, t));
    assert(in_table(s.table, t));
    lemma_push_single(s.run.tasks, t);
    lemma_drained_part(n.table, s.table, s.control);
    assert forall|a: RawFd, b: RawFd, u: T| holds(n.table, a, u) && holds(n.table, b, u) implies a
        == b by {
        assert(holds(s.table, a, u));
        assert(holds(s.table, b, u));
    }
    assert forall|u: T| in_table(n.table, u) implies in_table(s.table, u) && u != t by {
        let f = choose|f: RawFd| holds(n.table, f, u);
        assert(holds(s.table, f, u));
    }
    assert forall|u: T| #[trigger] n.run.tasks.contains(u) implies !in_control(n.control, u)
        && !in_table(n.table, u) by {
        if u != t {
            assert(s.run.tasks.contains(u));
        }
    }
    assert forall|f: RawFd| #[trigger] n.settled().contains_key(f) implies n.owner.contains_key(f)
        && n.owner[f] == n.settled()[f] by {
        assert(s.settled().contains_key(f));
    }
}

/// A drain keeps the invariant: it ends without a fault, and the wakers it
/// installs are held by the table alone.
pub proof fn lemma_drain_inv<T>(s: System<T>)
    requires
        s.inv(),
    ensures
        s.next(Move::Drain).inv(),
        drained(s.table, s.control).fault is None,
        s.next(Move::Drain).control.len() == 0,
{
    let n = s.next(Move::Drain);
    lemma_drain_is_replay(s.table, s.control);
    assert(n.control =~= Seq::<IOOps<T>>::empty());
    assert(n.settled() == s.settled());
    assert forall|f: RawFd| #[trigger] n.settled().contains_key(f) implies n.owner.contains_key(f)
        && n.owner[f] == n.settled()[f] by {
        assert(s.settled().contains_key(f));
    }
    assert forall|a: RawFd, b: RawFd, u: T| holds(n.table, a, u) && holds(n.table, b, u) implies a
        == b by {
        if a != b {
            lemma_drained_pairs(s.table, s.control, a, b, u);
        }
    }
    assert forall|u: T| #[trigger] n.run.tasks.contains(u) implies !in_control(n.control, u)
        && !in_table(n.table, u) by {
        if in_table(n.table, u) {
            let f = choose|f: RawFd| holds(n.table, f, u);
            lemma_drained_sources(s.table, s.control, f);
            if holds(s.table, f, u) {
                assert(in_table(s.table, u));
            }
        }
    }
}

/// Every move that the runtime can make keeps the invariant.
pub proof fn lemma_next_inv<T>(s: System<T>, m: Move<T>)
    requires
        s.inv(),
        s.enabled(m),
    ensures
        s.next(m).inv(),
{
    match m {
        Move::Spawn(t) => lemma_spawn_inv(s, t),
        Move::Own(t, fd) => lemma_own_inv(s, t, fd),
        Move::Finish => lemma_finish_inv(s),
        Move::Suspend(flags, fd) => lemma_suspend_inv(s, flags, fd),
        Move::Yield => lemma_yield_inv(s),
        Move::Close(fd) => lemma_close_inv(s, fd),
        Move::Drain => lemma_drain_inv(s),
        Move::Fire(fd) => lemma_fire_inv(s, fd),
    }
}

/// The invariant holds of every state that the runtime reaches.
pub proof fn lemma_reachable_inv<T>(s: System<T>, moves: Seq<Move<T>>)
    requires
        s.inv(),
        s.enabled_all(moves),
    ensures
        s.after(moves).inv(),
    decreases moves.len(),
{
    if moves.len() > 0 {
        lemma_next_inv(s, moves[0]);
        lemma_reachable_inv(s.next(moves[0]), moves.drop_first());
    }
}

/// The reactor is never at fault. Whatever moves the runtime has made from
/// its start, the next drain applies every queued operation: no
/// registration finds a waker in its place.
pub proof fn lemma_never_at_fault<T>(moves: Seq<Move<T>>)
    requires
        System::<T>::init().enabled_all(moves),
    ensures
        drained(
            System::<T>::init().after(moves).table,
            System::<T>::init().after(moves).control,
        ).fault is None,
        drained(
            System::<T>::init().after(moves).table,
            System::<T>::init().after(moves).control,
        ).rest.len() == 0,
{
    lemma_init_inv::<T>();
    lemma_reachable_inv(System::<T>::init(), moves);
    let s = System::<T>::init().after(moves);
    lemma_drain_is_replay(s.table, s.control);
}

/// A task is held in at most one place. Whatever moves the runtime has made
/// from its start, a task has at most one slot of the run queue, at most
/// one queued registration and at most one entry of the waker table, and
/// it has no two of these at once.
pub proof fn lemma_single_place<T>(moves: Seq<Move<T>>, t: T)
    requires
        System::<T>::init().enabled_all(moves),
    ensures
        ({
            let s = System::<T>::init().after(moves);
            &&& occurrences(s.run.tasks, t) <= 1
            &&& forall|i: int, j: int|
                adds_waker(s.control, i, t) && adds_waker(s.control, j, t) ==> i == j
            &&& forall|a: RawFd, b: RawFd| holds(s.table, a, t) && holds(s.table, b, t) ==> a == b
            &&& !(s.run.tasks.contains(t) && in_control(s.control, t))
            &&& !(s.run.tasks.contains(t) && in_table(s.table, t))
            &&& !(in_control(s.control, t) && in_table(s.table, t))
        }),
{
    lemma_init_inv::<T>();
    lemma_reachable_inv(System::<T>::init(), moves);
    let s = System::<T>::init().after(moves);
    lemma_occurs_once(s.run.tasks, t);
}

/// In a sequence without duplicates every element occurs once or not at
/// all.
pub proof fn lemma_occurs_once<T>(tasks: Seq<T>, t: T)
    requires
        tasks.no_duplicates(),
    ensures
        occurrences(tasks, t) == if tasks.contains(t) {
            1nat
        } else {
            0nat
        },
    decreases tasks.len(),
{
    if tasks.len() > 0 {
        let rest = tasks.drop_first();
        lemma_drop_first_single(tasks);
        lemma_occurs_once(rest, t);
        if tasks[0] == t {
            assert(tasks.contains(t));
        } else if tasks.contains(t) {
            let i = choose|i: int| 0 <= i < tasks.len() && tasks[i] == t;
            assert(rest[i - 1] == t);
        }
    }
}

/// The round trip of a suspension. A task that suspends on a descriptor is
/// held by the waker table, and by nothing else, once the reactor has
/// drained the control queue; the readiness event of the descriptor then
/// puts the task at the end of the run queue and leaves no waker behind.
pub proof fn lemma_round_trip<T>(s: System<T>, flags: EventMask, fd: RawFd)
    requires
        s.inv(),
        s.run.receiving,
        s.enabled(Move::Suspend(flags, fd)),
    ensures
        ({
            let t = s.run.tasks[0];
            let parked = s.next(Move::Suspend(flags, fd)).next(Move::Drain);
            let woken = parked.next(Move::Fire(fd));
            &&& holds(parked.table, fd, t)
            &&& parked.control.len() == 0
            &&& !parked.run.tasks.contains(t)
            &&& parked.enabled(Move::Fire(fd))
            &&& woken.run.tasks == s.run.tasks.drop_first().push(t)
            &&& !woken.table.contains_key(fd)
            &&& woken.inv()
        }),
{
    let t = s.run.tasks[0];
    let suspended = s.next(Move::Suspend(flags, fd));
    lemma_suspend_inv(s, flags, fd);
    lemma_drop_first_single(s.run.tasks);
    assert(s.run.tasks.contains(t));
    if s.settled().contains_key(fd) {
        lemma_drained_sources(s.table, s.control, fd);
        if holds(s.table, fd, t) {
            assert(in_table(s.table, t));
        }
    }
    lemma_register_seen(s.table, s.control, flags, fd, t);
    lemma_drain_inv(suspended);
    let parked = suspended.next(Move::Drain);
    lemma_fire_inv(parked, fd);
}

/// The end of a watch. Once the adapter of a descriptor is dropped, the
/// next drain leaves no waker for the descriptor in the table and nothing
/// in the control queue: no readiness event for it is consumed until a new
/// owner registers it.
pub proof fn lemma_close_then_drain<T>(s: System<T>, fd: RawFd)
    requires
        s.inv(),
        s.enabled(Move::Close(fd)),
    ensures
        !s.next(Move::Close(fd)).next(Move::Drain).table.contains_key(fd),
        s.next(Move::Close(fd)).next(Move::Drain).control.len() == 0,
        !s.next(Move::Close(fd)).next(Move::Drain).enabled(Move::Fire(fd)),
        s.next(Move::Close(fd)).next(Move::Drain).inv(),
{
    lemma_close_inv(s, fd);
    lemma_unregister_seen(s.table, s.control, fd);
    lemma_drain_inv(s.next(Move::Close(fd)));
}

/// Where a task is in its life.
pub enum TaskState {
    /// In the run queue: the executor will step it.
    Runnable,
    /// Registered with the reactor, in the control queue or in the waker
    /// table: a readiness event will wake it.
    Pending,
    /// Held nowhere: not yet spawned, ended, or dropped with its adapter.
    Gone,
}

impl<T> System<T> {
    /// Where the task `t` is in its life.
    pub open spec fn state_of(self, t: T) -> TaskState {
        if self.run.tasks.contains(t) {
            TaskState::Runnable
        } else if in_control(self.control, t) || in_table(self.table, t) {
            TaskState::Pending
        } else {
            TaskState::Gone
        }
    }

    /// Whether the move `m` may take the task `t` from `before` to `after`.
    /// A task becomes runnable by a spawn or by the readiness event it
    /// waited for. A runnable task stays runnable until the executor steps
    /// it; the step leaves it runnable, suspends it or ends it. A pending
    /// task stays pending until its event is consumed, or until a drain
    /// drops it with the descriptor it waited for.
    pub open spec fn may_change(self, m: Move<T>, t: T, before: TaskState, after: TaskState) -> bool {
        match (before, after) {
            (TaskState::Gone, TaskState::Runnable) => m == Move::Spawn(t),
            (TaskState::Gone, TaskState::Pending) => false,
            (TaskState::Runnable, TaskState::Pending) => m is Suspend && self.run.tasks[0] == t,
            (TaskState::Runnable, TaskState::Gone) => m is Finish && self.run.tasks[0] == t,
            (TaskState::Pending, TaskState::Runnable) => m is Fire && self.table[m->Fire_0] == t,
            (TaskState::Pending, TaskState::Gone) => m is Drain,
            _ => true,
        }
    }
}

/// The life of a task. Every move takes every task along one of the ways
/// that `may_change` allows.
pub proof fn lemma_lifecycle<T>(s: System<T>, m: Move<T>, t: T)
    requires
        s.inv(),
        s.enabled(m),
    ensures
        s.may_change(m, t, s.state_of(t), s.next(m).state_of(t)),
{
    let n = s.next(m);
    match m {
        Move::Spawn(t0) => {
            lemma_push_single(s.run.tasks, t0);
            assert(n.run.tasks[s.run.tasks.len() as int] == t0);
            if s.run.tasks.contains(t) {
                let i = choose|i: int| 0 <= i < s.run.tasks.len() && s.run.tasks[i] == t;
                assert(n.run.tasks[i] == t);
            }
        },
        Move::Own(_, _) => {},
        Move::Finish => {
            lemma_drop_first_single(s.run.tasks);
            if s.run.tasks.contains(t) && t != s.run.tasks[0] {
                let i = choose|i: int| 0 <= i < s.run.tasks.len() && s.run.tasks[i] == t;
                assert(n.run.tasks[i - 1] == t);
            }
            assert(s.run.tasks.contains(s.run.tasks[0]));
        },
        Move::Suspend(flags, fd) => {
            let t0 = s.run.tasks[0];
            lemma_drop_first_single(s.run.tasks);
            lemma_in_control_push(s.control, IOOps::ADD(flags, fd, t0), t);
            if s.run.tasks.contains(t) && t != t0 {
                let i = choose|i: int| 0 <= i < s.run.tasks.len() && s.run.tasks[i] == t;
                assert(n.run.tasks[i - 1] == t);
            }
            assert(s.run.tasks.contains(t0));
        },
        Move::Yield => {
            let t0 = s.run.tasks[0];
            let rest = s.run.tasks.drop_first();
            lemma_drop_first_single(s.run.tasks);
            lemma_push_single(rest, t0);
            assert(n.run.tasks[rest.len() as int] == t0);
            assert(s.run.tasks.contains(t0));
            if s.run.tasks.contains(t) && t != t0 {
                let i = choose|i: int| 0 <= i < s.run.tasks.len() && s.run.tasks[i] == t;
                assert(n.run.tasks[i - 1] == t);
            }
            if n.run.tasks.contains(t) && t != t0 {
                assert(rest.contains(t));
            }
        },
        Move::Close(fd) => {
            lemma_in_control_push(s.control, IOOps::REMOVE(fd), t);
        },
        Move::Drain => {
            lemma_drain_inv(s);
            if in_table(n.table, t) {
                let f = choose|f: RawFd| holds(n.table, f, t);
                lemma_drained_sources(s.table, s.control, f);
                if holds(s.table, f, t) {
                    assert(in_table(s.table, t));
                }
            }
        },
        Move::Fire(fd) => {
            let t0 = s.table[fd];
            assert(holds(s.table, fd, t0));
            assert(in_table(s.table, t0));
            lemma_push_single(s.run.tasks, t0);
            assert(n.run.tasks[s.run.tasks.len() as int] == t0);
            if s.run.tasks.contains(t) {
                let i = choose|i: int| 0 <= i < s.run.tasks.len() && s.run.tasks[i] == t;
                assert(n.run.tasks[i] == t);
            }
            if in_table(n.table, t) {
                let f = choose|f: RawFd| holds(n.table, f, t);
                assert(holds(s.table, f, t));
            }
            if in_table(s.table, t) && t != t0 {
                let f = choose|f: RawFd| holds(s.table, f, t);
                assert(holds(n.table, f, t));
            }
        },
    }
}

} // verus!
