use crate::channel::{
    lemma_without_after_change, pending, with_queue, without, Channel, Consumer,
};
use crate::message::Message;
use crate::payload::Payload;
use crate::queue::{QueueView, Waker};
use vstd::prelude::*;

verus! {

/// Where a worker stands in its loop.
#[derive(Debug, Clone, Copy, PartialEq, Eq, Structural)]
pub enum WorkerState {
    /// In the blocking pull, or about to enter it.
    Waiting,
    /// In the callback, with a batch.
    Processing,
    /// Out of the loop, for good.
    Stopped,
}

/// The steps of a shutdown, in the order in which they are taken.
#[derive(Debug, Clone, Copy, PartialEq, Eq, Structural)]
pub enum ShutdownStep {
    /// Raise the stop flag.
    RaiseFlag,
    /// Release a worker that may be parked in the blocking pull.
    Wake,
    /// Wait until the worker has left its loop.
    Join,
}

impl ShutdownStep {
    /// The step that opens a shutdown.
    pub fn first() -> (step: ShutdownStep)
        ensures
            step == ShutdownStep::RaiseFlag,
    {
        ShutdownStep::RaiseFlag
    }

    /// The step that follows this one; none follows the join.
    pub fn next(self) -> (step: Option<ShutdownStep>)
        ensures
            step == match self {
                ShutdownStep::RaiseFlag => Some(ShutdownStep::Wake),
                ShutdownStep::Wake => Some(ShutdownStep::Join),
                ShutdownStep::Join => None,
            },
    {
        match self {
            ShutdownStep::RaiseFlag => Some(ShutdownStep::Wake),
            ShutdownStep::Wake => Some(ShutdownStep::Join),
            ShutdownStep::Join => None,
        }
    }
}

/// What the worker does with a batch once it has read the stop flag: it
/// leaves if the flag is raised, and has left if it was already out;
/// otherwise it processes the batch.
pub open spec fn state_after_wake(state: WorkerState, stop: bool) -> WorkerState {
    if stop || state == WorkerState::Stopped {
        WorkerState::Stopped
    } else {
        WorkerState::Processing
    }
}

/// Where the worker goes when the callback has returned and it has read the
/// stop flag again.
pub open spec fn state_after_processing(state: WorkerState, stop: bool) -> WorkerState {
    if stop || state == WorkerState::Stopped {
        WorkerState::Stopped
    } else {
        WorkerState::Waiting
    }
}

/// The decisions of a background worker that drains one consumer and hands
/// each batch to a callback. The thread that runs the worker blocks, calls
/// the callback and reads the stop flag; what to do next is decided here.
pub struct ThreadedConsumer<T: Payload> {
    consumer: Consumer<T>,
    state: WorkerState,
}

impl<T: Payload> ThreadedConsumer<T> {
    /// Where the worker stands.
    pub closed spec fn state(&self) -> WorkerState {
        self.state
    }

    /// The identity of the mailbox that the worker drains.
    pub closed spec fn queue_id(&self) -> u64 {
        self.consumer.queue_id()
    }

    /// A worker for `consumer`, about to enter its first blocking pull.
    pub fn new(consumer: Consumer<T>) -> (worker: Self)
        ensures
            worker.state() == WorkerState::Waiting,
            worker.queue_id() == consumer.queue_id(),
    {
        Self { consumer, state: WorkerState::Waiting }
    }

    /// The worker has come out of its blocking pull with `batch` and has
    /// then read `stop` from the stop flag. `Some` holds the batch to hand
    /// to the callback. `None` means that the worker leaves its loop: the
    /// batch is dropped, and the callback is not called again.
    pub fn on_wake(&mut self, batch: Vec<Message<T>>, stop: bool) -> (work: Option<Vec<Message<T>>>)
        ensures
            final(self).queue_id() == old(self).queue_id(),
            final(self).state() == state_after_wake(old(self).state(), stop),
            work == if final(self).state() == WorkerState::Stopped {
                None
            } else {
                Some(batch)
            },
    {
        if stop || self.is_stopped() {
            self.state = WorkerState::Stopped;
            None
        } else {
            self.state = WorkerState::Processing;
            Some(batch)
        }
    }

    /// The callback has returned, and the worker has read `stop` from the
    /// stop flag. Tells whether the worker goes back into its blocking pull.
    pub fn on_processed(&mut self, stop: bool) -> (again: bool)
        ensures
            final(self).queue_id() == old(self).queue_id(),
            final(self).state() == state_after_processing(old(self).state(), stop),
            again == (final(self).state() == WorkerState::Waiting),
    {
        if stop || self.is_stopped() {
            self.state = WorkerState::Stopped;
            false
        } else {
            self.state = WorkerState::Waiting;
            true
        }
    }

    /// One turn of the worker against `channel`, up to the point where it
    /// would block. `stop` is what the worker has just read from the stop
    /// flag. A worker that is not waiting does nothing. A worker that has
    /// read a raised flag takes what its mailbox holds, drops it and leaves
    /// its loop; it never parks. Otherwise the blocking pull is tried: a
    /// batch that it gives goes to the callback, and `None` with the state
    /// `Waiting` means that the worker is parked.
    pub fn poll(&mut self, channel: &mut Channel<T>, stop: bool) -> (work: Option<Vec<Message<T>>>)
        ensures
            final(self).queue_id() == old(self).queue_id(),
            final(channel).issued() == old(channel).issued(),
            old(channel).wf() ==> final(channel).wf(),
            old(self).state() != WorkerState::Waiting ==> {
                &&& work is None
                &&& final(self).state() == old(self).state()
                &&& final(channel)@ == old(channel)@
            },
            old(self).state() == WorkerState::Waiting && stop ==> {
                &&& work is None
                &&& final(self).state() == WorkerState::Stopped
                &&& final(channel)@ == with_queue(
                    old(channel)@,
                    old(self).queue_id(),
                    |queue: QueueView<T>| queue.pull(),
                )
            },
            old(self).state() == WorkerState::Waiting && !stop ==> {
                let waiting = pending(old(channel)@, old(self).queue_id());
                &&& final(channel)@ == with_queue(
                    old(channel)@,
                    old(self).queue_id(),
                    |queue: QueueView<T>| queue.wait_pull(),
                )
                &&& final(self).state() == if waiting.len() == 0 {
                    WorkerState::Waiting
                } else {
                    WorkerState::Processing
                }
                &&& work is Some <==> waiting.len() > 0
                &&& work matches Some(batch) ==> batch@ == waiting
            },
    {
        if !self.is_waiting() {
            return None;
        }
        if stop {
            let batch = self.consumer.pull(channel);
            return self.on_wake(batch, true);
        }
        match self.consumer.wait_pull(channel) {
            Some(batch) => self.on_wake(batch, false),
            None => None,
        }
    }

    /// The worker was parked and has been released by a push or a wake-up:
    /// it takes what its mailbox holds, which may be nothing, and puts it to
    /// `on_wake`.
    pub fn resume(&mut self, channel: &mut Channel<T>, stop: bool) -> (work: Option<
        Vec<Message<T>>,
    >)
        ensures
            final(self).queue_id() == old(self).queue_id(),
            final(channel).issued() == old(channel).issued(),
            old(channel).wf() ==> final(channel).wf(),
            final(channel)@ == with_queue(
                old(channel)@,
                old(self).queue_id(),
                |queue: QueueView<T>| queue.pull(),
            ),
            final(self).state() == state_after_wake(old(self).state(), stop),
            work is Some <==> final(self).state() != WorkerState::Stopped,
            work matches Some(batch) ==> batch@ == pending(old(channel)@, old(self).queue_id()),
    {
        let batch = self.consumer.pull(channel);
        self.on_wake(batch, stop)
    }

    /// The handle that releases the worker from its blocking pull.
    pub fn waker(&self) -> (waker: Waker<T>)
        ensures
            waker.queue_id() == self.queue_id(),
    {
        self.consumer.wait_pull_waker()
    }

    pub fn is_stopped(&self) -> (stopped: bool)
        ensures
            stopped == (self.state() == WorkerState::Stopped),
    {
        match self.state {
            WorkerState::Stopped => true,
            _ => false,
        }
    }

    pub fn is_waiting(&self) -> (waiting: bool)
        ensures
            waiting == (self.state() == WorkerState::Waiting),
    {
        match self.state {
            WorkerState::Waiting => true,
            _ => false,
        }
    }

    /// The end of the worker, as seen from its owner once the stop flag is
    /// raised: the worker is released from its blocking pull, leaves its
    /// loop without another call of the callback, and its consumer is taken
    /// out of the registry with whatever its mailbox still holds.
    pub fn shutdown(self, channel: &mut Channel<T>)
        ensures
            final(channel).issued() == old(channel).issued(),
            final(channel)@ == without(old(channel)@, self.queue_id()),
            old(channel).wf() ==> final(channel).wf(),
    {
        let mut worker = self;
        let ghost id = worker.queue_id();
        let waker = worker.waker();
        channel.wake_up(&waker);
        worker.on_wake(Vec::new(), true);
        proof {
            lemma_without_after_change(
                old(channel)@,
                id,
                |queue: QueueView<T>| queue.wake_up(),
            );
        }
        worker.consumer.release(channel);
    }
}

} // verus!
