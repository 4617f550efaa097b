//! The run queue between the wakers and the executor: a bounded queue of
//! ready tasks with many producers and one consumer.
//!
//! The queue never blocks. It says whether a task was taken or has to wait,
//! and whether the consumer gets a task, has to wait, or is done; waiting is
//! the caller's part.

use std::collections::VecDeque;
use vstd::prelude::*;

verus! {

/// The number of tasks the run queue holds at most.
pub const CAPACITY: usize = 1024;

/// Why the run queue did not take a task. The task comes back with it.
#[derive(Debug, PartialEq, Eq)]
pub enum TrySendError<T> {
    /// The queue is at capacity: the producer waits until the executor has
    /// taken a task out.
    Full(T),
    /// The executor is gone: nobody will ever run the task.
    Disconnected(T),
}

/// Why the run queue gave the executor no task.
#[derive(Clone, Copy, Debug, PartialEq, Eq, Structural)]
pub enum TryRecvError {
    /// The queue is empty, and a producer may still send: the executor waits.
    Empty,
    /// The queue is empty and every producer is gone: the executor returns.
    Disconnected,
}

/// The run queue as a value: the tasks that wait, oldest first, the number
/// of producers that hold the queue, and whether the executor still does.
pub struct QueueState<T> {
    pub tasks: Seq<T>,
    pub senders: nat,
    pub receiving: bool,
}

/// One operation on the run queue.
pub enum QueueOp<T> {
    /// A producer offers a task: a spawn, or a wake.
    Send(T),
    /// The executor asks for the oldest task, and steps it if it gets one.
    Recv,
}

/// What a run of operations on the run queue came to.
pub struct Progress<T> {
    /// The queue at the end.
    pub queue: QueueState<T>,
    /// The tasks that the queue took, in order.
    pub accepted: Seq<T>,
    /// The tasks that the executor stepped, in order.
    pub stepped: Seq<T>,
}

impl<T> QueueState<T> {
    /// The queue holds no more than it may.
    pub open spec fn wf(self) -> bool {
        self.tasks.len() <= CAPACITY
    }

    /// The queue is at capacity.
    pub open spec fn full(self) -> bool {
        self.tasks.len() >= CAPACITY
    }

    /// What becomes of the queue and of `task` when a producer offers it.
    pub open spec fn send(self, task: T) -> Result<QueueState<T>, TrySendError<T>> {
        if !self.receiving {
            Err(TrySendError::Disconnected(task))
        } else if self.full() {
            Err(TrySendError::Full(task))
        } else {
            Ok(QueueState { tasks: self.tasks.push(task), ..self })
        }
    }

    /// What the executor gets when it asks for the next task, and what
    /// becomes of the queue.
    pub open spec fn recv(self) -> Result<(T, QueueState<T>), TryRecvError> {
        if self.tasks.len() > 0 {
            Ok((self.tasks[0], QueueState { tasks: self.tasks.drop_first(), ..self }))
        } else if self.senders > 0 {
            Err(TryRecvError::Empty)
        } else {
            Err(TryRecvError::Disconnected)
        }
    }

    /// What comes of the operations `ops`, made in turn on this queue. A
    /// send that is handed back and a receive that gets nothing change
    /// nothing: the caller waits and tries again.
    pub open spec fn perform(self, ops: Seq<QueueOp<T>>) -> Progress<T>
        decreases ops.len(),
    {
        if ops.len() == 0 {
            Progress { queue: self, accepted: Seq::empty(), stepped: Seq::empty() }
        } else {
            match ops[0] {
                QueueOp::Send(task) => match self.send(task) {
                    Ok(next) => {
                        let then = next.perform(ops.drop_first());
                        Progress { accepted: seq![task] + then.accepted, ..then }
                    },
                    Err(_) => self.perform(ops.drop_first()),
                },
                QueueOp::Recv => match self.recv() {
                    Ok((task, next)) => {
                        let then = next.perform(ops.drop_first());
                        Progress { stepped: seq![task] + then.stepped, ..then }
                    },
                    Err(_) => self.perform(ops.drop_first()),
                },
            }
        }
    }

    /// The tasks the executor steps, in order, when it takes tasks out until
    /// the queue has none left and nobody sends meanwhile.
    pub open spec fn steps(self) -> Seq<T>
        decreases self.tasks.len(),
    {
        match self.recv() {
            Ok((task, next)) => seq![task] + next.steps(),
            Err(_) => Seq::empty(),
        }
    }
}

/// The number of times `task` occurs in `tasks`.
pub open spec fn occurrences<T>(tasks: Seq<T>, task: T) -> nat
    decreases tasks.len(),
{
    if tasks.len() == 0 {
        0
    } else {
        occurrences(tasks.drop_first(), task) + if tasks[0] == task {
            1nat
        } else {
            0nat
        }
    }
}

/// The bounded run queue.
#[derive(Debug)]
pub struct RunQueue<T> {
    tasks: VecDeque<T>,
    senders: u64,
    receiving: bool,
}

impl<T> View for RunQueue<T> {
    type V = QueueState<T>;

    closed spec fn view(&self) -> QueueState<T> {
        QueueState { tasks: self.tasks@, senders: self.senders as nat, receiving: self.receiving }
    }
}

impl<T> RunQueue<T> {
    /// An empty queue, held by the executor and by one producer.
    pub fn new() -> (queue: Self)
        ensures
            queue@.tasks == Seq::<T>::empty(),
            queue@.senders == 1,
            queue@.receiving,
            queue@.wf(),
    {
        RunQueue { tasks: VecDeque::new(), senders: 1, receiving: true }
    }

    /// The number of tasks that wait.
    pub fn len(&self) -> (n: usize)
        ensures
            n == self@.tasks.len(),
    {
        self.tasks.len()
    }

    /// The number of producers that hold the queue.
    pub fn senders(&self) -> (n: u64)
        ensures
            n == self@.senders,
    {
        self.senders
    }

    /// Whether the executor still holds the queue.
    pub fn receiving(&self) -> (yes: bool)
        ensures
            yes == self@.receiving,
    {
        self.receiving
    }

    /// Counts one more producer.
    pub fn clone_sender(&mut self)
        requires
            old(self)@.senders < u64::MAX,
        ensures
            final(self)@ == (QueueState { senders: old(self)@.senders + 1, ..old(self)@ }),
    {
        self.senders = self.senders + 1;
    }

    /// Counts one producer less. With none left to count, nothing changes.
    pub fn drop_sender(&mut self)
        ensures
            final(self)@ == (QueueState {
                senders: if old(self)@.senders > 0 {
                    (old(self)@.senders - 1) as nat
                } else {
                    0
                },
                ..old(self)@
            }),
    {
        if self.senders > 0 {
            self.senders = self.senders - 1;
        }
    }

    /// Records that the executor let go of the queue.
    pub fn drop_receiver(&mut self)
        ensures
            final(self)@ == (QueueState { receiving: false, ..old(self)@ }),
    {
        self.receiving = false;
    }

    /// Offers `task` to the queue. The queue takes it at its end, or hands
    /// it back: with `Full` while it is at capacity, with `Disconnected`
    /// once the executor is gone. A task handed back left the queue as it
    /// was.
    pub fn try_send(&mut self, task: T) -> (outcome: Result<(), TrySendError<T>>)
        ensures
            old(self)@.wf() ==> final(self)@.wf(),
            match old(self)@.send(task) {
                Ok(next) => outcome is Ok && final(self)@ == next,
                Err(refusal) => outcome == Err::<(), TrySendError<T>>(refusal) && final(self)@
                    == old(self)@,
            },
    {
        if !self.receiving {
            Err(TrySendError::Disconnected(task))
        } else if self.tasks.len() >= CAPACITY {
            Err(TrySendError::Full(task))
        } else {
            self.tasks.push_back(task);
            Ok(())
        }
    }

    /// Asks for the oldest task. The queue hands it out, or says why not:
    /// `Empty` while a producer is left that may still send, `Disconnected`
    /// once none is.
    pub fn try_recv(&mut self) -> (outcome: Result<T, TryRecvError>)
        ensures
            old(self)@.wf() ==> final(self)@.wf(),
            match old(self)@.recv() {
                Ok((task, next)) => outcome == Ok::<T, TryRecvError>(task) && final(self)@ == next,
                Err(why) => outcome == Err::<T, TryRecvError>(why) && final(self)@ == old(self)@,
            },
    {
        match self.tasks.pop_front() {
            Some(task) => Ok(task),
            None => {
                if self.senders > 0 {
                    Err(TryRecvError::Empty)
                } else {
                    Err(TryRecvError::Disconnected)
                }
            },
        }
    }
}

/// The executor steps the tasks of the queue in the order in which they were
/// sent, each entry once.
pub proof fn lemma_steps_in_order<T>(queue: QueueState<T>)
    ensures
        queue.steps() == queue.tasks,
    decreases queue.tasks.len(),
{
    if queue.tasks.len() > 0 {
        let next = QueueState { tasks: queue.tasks.drop_first(), ..queue };
        lemma_steps_in_order(next);
        assert(seq![queue.tasks[0]] + queue.tasks.drop_first() =~= queue.tasks);
    } else {
        assert(queue.tasks =~= Seq::<T>::empty());
    }
}

/// A task at the end of a sequence occurs once more than it did, and every
/// other task as often as it did.
pub proof fn lemma_occurrences_push<T>(tasks: Seq<T>, last: T, task: T)
    ensures
        occurrences(tasks.push(last), task) == occurrences(tasks, task) + if last == task {
            1nat
        } else {
            0nat
        },
    decreases tasks.len(),
{
    if tasks.len() == 0 {
        assert(tasks.push(last).drop_first() =~= tasks);
    } else {
        assert(tasks.push(last).drop_first() =~= tasks.drop_first().push(last));
        lemma_occurrences_push(tasks.drop_first(), last, task);
    }
}

/// A task occurs in two sequences put together as often as in the one and
/// in the other.
pub proof fn lemma_occurrences_concat<T>(first: Seq<T>, second: Seq<T>, task: T)
    ensures
        occurrences(first + second, task) == occurrences(first, task) + occurrences(second, task),
    decreases first.len(),
{
    if first.len() == 0 {
        assert(first + second =~= second);
    } else {
        assert((first + second).drop_first() =~= first.drop_first() + second);
        lemma_occurrences_concat(first.drop_first(), second, task);
    }
}

/// No task is lost and none is made up. Over any run of sends and receives,
/// a task was stepped or still waits as often as it waited at the start or
/// was taken by the queue since.
pub proof fn lemma_conservation<T>(queue: QueueState<T>, ops: Seq<QueueOp<T>>, task: T)
    ensures
        occurrences(queue.perform(ops).stepped, task) + occurrences(
            queue.perform(ops).queue.tasks,
            task,
        ) == occurrences(queue.tasks, task) + occurrences(queue.perform(ops).accepted, task),
    decreases ops.len(),
{
    if ops.len() > 0 {
        let rest = ops.drop_first();
        match ops[0] {
            QueueOp::Send(sent) => match queue.send(sent) {
                Ok(next) => {
                    let then = next.perform(rest);
                    lemma_conservation(next, rest, task);
                    lemma_occurrences_push(queue.tasks, sent, task);
                    assert((seq![sent] + then.accepted).drop_first() =~= then.accepted);
                },
                Err(_) => {
                    lemma_conservation(queue, rest, task);
                },
            },
            QueueOp::Recv => match queue.recv() {
                Ok((got, next)) => {
                    let then = next.perform(rest);
                    lemma_conservation(next, rest, task);
                    assert((seq![got] + then.stepped).drop_first() =~= then.stepped);
                },
                Err(_) => {
                    lemma_conservation(queue, rest, task);
                },
            },
        }
    }
}

/// A task that is woken `n` times is stepped once for each wake, and once
/// more if it was in the queue already: at least once and at most `n + 1`
/// times. The wakes may come at any time between the steps of the
/// executor; a wake counts when the queue takes it, and the steps are
/// those that the executor has made when the queue is empty again. (A task
/// that is neither in the queue nor woken is not stepped at all, which is
/// why one of the two is asked for.)
pub proof fn lemma_wakes_are_steps<T>(queue: QueueState<T>, ops: Seq<QueueOp<T>>, task: T)
    requires
        occurrences(queue.tasks, task) <= 1,
        occurrences(queue.perform(ops).accepted, task) >= 1 || occurrences(queue.tasks, task) == 1,
    ensures
        occurrences(queue.perform(ops).stepped + queue.perform(ops).queue.steps(), task)
            == occurrences(queue.tasks, task) + occurrences(queue.perform(ops).accepted, task),
        1 <= occurrences(queue.perform(ops).stepped + queue.perform(ops).queue.steps(), task)
            <= occurrences(queue.perform(ops).accepted, task) + 1,
{
    let end = queue.perform(ops);
    lemma_conservation(queue, ops, task);
    lemma_steps_in_order(end.queue);
    lemma_occurrences_concat(end.stepped, end.queue.steps(), task);
}

/// Backpressure: a queue at capacity hands every task back and stays as it
/// is, however often the producer tries; once the executor has taken one
/// task out, the next try is taken, behind everything that waited before.
pub proof fn lemma_backpressure<T>(queue: QueueState<T>, task: T)
    requires
        queue.wf(),
        queue.full(),
        queue.receiving,
    ensures
        queue.send(task) == Err::<QueueState<T>, TrySendError<T>>(TrySendError::Full(task)),
        queue.recv() is Ok,
        queue.recv()->Ok_0.0 == queue.tasks[0],
        queue.recv()->Ok_0.1.send(task) is Ok,
        queue.recv()->Ok_0.1.send(task)->Ok_0.tasks == queue.tasks.drop_first().push(task),
        queue.recv()->Ok_0.1.send(task)->Ok_0.wf(),
{
}

/// A queue at capacity takes nothing, however often the producers try.
pub proof fn lemma_full_takes_nothing<T>(queue: QueueState<T>, ops: Seq<QueueOp<T>>)
    requires
        queue.full(),
        forall|i: int| 0 <= i < ops.len() ==> (#[trigger] ops[i]) is Send,
    ensures
        queue.perform(ops).queue == queue,
        queue.perform(ops).accepted.len() == 0,
        queue.perform(ops).stepped.len() == 0,
    decreases ops.len(),
{
    if ops.len() > 0 {
        let rest = ops.drop_first();
        assert(ops[0] is Send);
        assert forall|i: int| 0 <= i < rest.len() implies (#[trigger] rest[i]) is Send by {
            assert(rest[i] == ops[i + 1]);
        }
        lemma_full_takes_nothing(queue, rest);
    }
}

/// No task is lost or stepped twice: what the executor steps after a send
/// that was taken is what it would have stepped before, and then the task.
pub proof fn lemma_send_then_steps<T>(queue: QueueState<T>, task: T)
    requires
        queue.send(task) is Ok,
    ensures
        queue.send(task)->Ok_0.steps() == queue.steps().push(task),
{
    lemma_steps_in_order(queue);
    lemma_steps_in_order(queue.send(task)->Ok_0);
}

} // verus!
