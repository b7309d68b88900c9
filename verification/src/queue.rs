use crate::message::Message;
use crate::payload::Payload;
use std::collections::VecDeque;
use std::marker::PhantomData;
use vstd::prelude::*;
use vstd::std_specs::cmp::PartialEqSpecImpl;

verus! {

/// The mathematical model of a mailbox: who it is, what waits in it, and
/// whether its reader is parked in a blocking pull.
pub struct QueueView<T: Payload> {
    /// The token that tells this mailbox from every other one.
    pub id: u64,
    /// The queued messages, oldest first.
    pub messages: Seq<Message<T>>,
    /// Whether the reader found the mailbox empty and now waits for a push
    /// or a wake-up.
    pub parked: bool,
}

impl<T: Payload> QueueView<T> {
    /// A parked reader has seen an empty mailbox, and nothing arrived since.
    pub open spec fn wf(self) -> bool {
        self.parked ==> self.messages.len() == 0
    }

    /// The mailbox after `message` was appended: any parked reader is released.
    pub open spec fn push(self, message: Message<T>) -> Self {
        QueueView { id: self.id, messages: self.messages.push(message), parked: false }
    }

    /// The mailbox after everything queued was taken out.
    pub open spec fn pull(self) -> Self {
        QueueView { id: self.id, messages: Seq::empty(), parked: self.parked }
    }

    /// The mailbox after a blocking pull was attempted: it is drained if it
    /// held anything, and its reader is parked if it held nothing.
    pub open spec fn wait_pull(self) -> Self {
        QueueView { id: self.id, messages: Seq::empty(), parked: self.messages.len() == 0 }
    }

    /// The mailbox after a wake-up: the reader is released, nothing is queued.
    pub open spec fn wake_up(self) -> Self {
        QueueView { id: self.id, messages: self.messages, parked: false }
    }
}

/// Blocking: a blocking pull on an empty mailbox hands out nothing and
/// parks the reader; a pull that does not block leaves the reader parked;
/// a push or a wake-up, and nothing less, releases it.
pub proof fn lemma_parked_until_signal<T: Payload>(queue: QueueView<T>, message: Message<T>)
    requires
        queue.messages.len() == 0,
    ensures
        queue.wait_pull().parked,
        queue.wait_pull().messages.len() == 0,
        queue.wait_pull().pull().parked,
        queue.wait_pull().wait_pull().parked,
        !queue.wait_pull().push(message).parked,
        !queue.wait_pull().wake_up().parked,
        queue.wait_pull().push(message).messages == seq![message],
        queue.wait_pull().wake_up().messages.len() == 0,
{
    assert(Seq::<Message<T>>::empty().push(message) =~= seq![message]);
}

/// Waking: a wake-up queues nothing, a second wake-up changes nothing, and
/// a wake-up of a mailbox whose reader is not parked changes nothing at
/// all, so that the next pull gives exactly what it would have given.
pub proof fn lemma_wake_up_idempotent<T: Payload>(queue: QueueView<T>)
    ensures
        queue.wake_up().messages == queue.messages,
        queue.wake_up().wake_up() == queue.wake_up(),
        !queue.parked ==> queue.wake_up() == queue,
        queue.wake_up().pull().messages == queue.pull().messages,
{
}

/// Every operation keeps a mailbox well formed.
pub proof fn lemma_operations_keep_wf<T: Payload>(queue: QueueView<T>, message: Message<T>)
    requires
        queue.wf(),
    ensures
        queue.push(message).wf(),
        queue.pull().wf(),
        queue.wait_pull().wf(),
        queue.wake_up().wf(),
{
}

/// The state of a mailbox: a FIFO of messages and the parked mark.
pub struct QueueData<T: Payload> {
    messages: VecDeque<Message<T>>,
    parked: bool,
}

impl<T: Payload> QueueData<T> {
    /// The queued messages, oldest first.
    pub closed spec fn messages(self) -> Seq<Message<T>> {
        self.messages@
    }

    /// Whether the reader is parked.
    pub closed spec fn parked(self) -> bool {
        self.parked
    }

    /// The model of this state under the identity `id`.
    pub open spec fn as_view(self, id: u64) -> QueueView<T> {
        QueueView { id, messages: self.messages(), parked: self.parked() }
    }

    pub fn new() -> (data: Self)
        ensures
            data.messages() == Seq::<Message<T>>::empty(),
            !data.parked(),
    {
        Self { messages: VecDeque::new(), parked: false }
    }

    /// Releases a parked reader without queueing anything.
    pub fn wake_up(&mut self)
        ensures
            final(self).messages() == old(self).messages(),
            !final(self).parked(),
    {
        self.parked = false;
    }

    /// Appends `message` and releases a parked reader.
    pub fn push(&mut self, message: Message<T>)
        ensures
            final(self).messages() == old(self).messages().push(message),
            !final(self).parked(),
    {
        self.parked = false;
        self.messages.push_back(message);
    }

    /// Takes out everything queued, oldest first, without parking.
    pub fn pull(&mut self) -> (batch: Vec<Message<T>>)
        ensures
            batch@ == old(self).messages(),
            final(self).messages().len() == 0,
            final(self).parked() == old(self).parked(),
    {
        let mut v = Vec::<Message<T>>::new();
        Self::do_pull(&mut self.messages, &mut v);
        v
    }

    /// The blocking pull, up to the point where it would block: a mailbox
    /// that holds something is drained; an empty one parks its reader and
    /// hands out nothing.
    pub fn wait_pull(&mut self) -> (batch: Option<Vec<Message<T>>>)
        ensures
            final(self).messages().len() == 0,
            old(self).messages().len() > 0 ==> batch is Some && batch->0@ == old(self).messages()
                && !final(self).parked(),
            old(self).messages().len() == 0 ==> batch is None && final(self).parked(),
    {
        if self.messages.len() == 0 {
            self.parked = true;
            None
        } else {
            let mut v = Vec::<Message<T>>::new();
            Self::do_pull(&mut self.messages, &mut v);
            self.parked = false;
            Some(v)
        }
    }

    /// Moves every message of `lock` to the end of `output`, in order.
    pub fn do_pull(lock: &mut VecDeque<Message<T>>, output: &mut Vec<Message<T>>)
        ensures
            final(lock)@.len() == 0,
            final(output)@ == old(output)@ + old(lock)@,
    {
        loop
            invariant
                output@ + lock@ == old(output)@ + old(lock)@,
            ensures
                lock@.len() == 0,
            decreases lock@.len(),
        {
            let ghost before_lock = lock@;
            let ghost before_output = output@;
            match lock.pop_front() {
                Some(msg) => {
                    output.push(msg);
                    assert(output@ + lock@ =~= before_output + before_lock);
                },
                None => {
                    break ;
                },
            }
        }
        assert(output@ =~= output@ + lock@);
    }

    pub fn len(&self) -> (n: usize)
        ensures
            n == self.messages().len(),
    {
        self.messages.len()
    }

    /// Whether the reader is parked.
    pub fn is_parked(&self) -> (parked: bool)
        ensures
            parked == self.parked(),
    {
        self.parked
    }

    /// A copy that holds the same messages and the same mark.
    pub fn duplicate(&self) -> (copy: Self)
        ensures
            copy.messages() == self.messages(),
            copy.parked() == self.parked(),
    {
        let mut messages = VecDeque::<Message<T>>::new();
        let n = self.messages.len();
        let mut i: usize = 0;
        while i < n
            invariant
                n == self.messages@.len(),
                i <= n,
                messages@ == self.messages@.subrange(0, i as int),
            decreases n - i,
        {
            messages.push_back(self.messages[i].clone());
            i += 1;
            assert(messages@ =~= self.messages@.subrange(0, i as int));
        }
        assert(messages@ =~= self.messages@);
        Self { messages, parked: self.parked }
    }
}

/// A consumer's mailbox: an identity and the state behind it. Two mailboxes
/// are equal when they have the same identity, whatever they hold.
pub struct Queue<T: Payload> {
    id: u64,
    queue_data: QueueData<T>,
}

impl<T: Payload> View for Queue<T> {
    type V = QueueView<T>;

    closed spec fn view(&self) -> QueueView<T> {
        self.queue_data.as_view(self.id)
    }
}

impl<T: Payload> Queue<T> {
    /// An empty mailbox with the identity `id`.
    pub fn new(id: u64) -> (queue: Self)
        ensures
            queue@ == (QueueView::<T> { id, messages: Seq::empty(), parked: false }),
    {
        Self { id, queue_data: QueueData::new() }
    }

    /// Appends `message` and releases a parked reader.
    pub fn push(&mut self, message: Message<T>)
        ensures
            final(self)@ == old(self)@.push(message),
    {
        self.queue_data.push(message);
    }

    /// Takes out everything queued, oldest first; never blocks.
    pub fn pull(&mut self) -> (batch: Vec<Message<T>>)
        ensures
            batch@ == old(self)@.messages,
            final(self)@ == old(self)@.pull(),
    {
        let batch = self.queue_data.pull();
        assert(self@.messages =~= Seq::empty());
        batch
    }

    /// The blocking pull, up to the point where it would block. `Some` holds
    /// the whole content of a mailbox that was not empty. `None` says that
    /// the mailbox was empty: its reader is now parked until a push or a
    /// wake-up releases it, and then takes what is there with `pull`.
    pub fn wait_pull(&mut self) -> (batch: Option<Vec<Message<T>>>)
        ensures
            final(self)@ == old(self)@.wait_pull(),
            batch is None <==> old(self)@.messages.len() == 0,
            batch matches Some(b) ==> b@ == old(self)@.messages,
    {
        let batch = self.queue_data.wait_pull();
        assert(self@.messages =~= Seq::empty());
        batch
    }

    /// A handle that can release this mailbox's parked reader.
    pub fn waker(&self) -> (waker: Waker<T>)
        ensures
            waker.queue_id() == self@.id,
    {
        Waker { queue_id: self.id, _phantom: PhantomData }
    }

    pub fn len(&self) -> (n: usize)
        ensures
            n == self@.messages.len(),
    {
        self.queue_data.len()
    }

    /// The identity of this mailbox.
    pub fn id(&self) -> (id: u64)
        ensures
            id == self@.id,
    {
        self.id
    }

    /// Whether the reader is parked.
    pub fn is_parked(&self) -> (parked: bool)
        ensures
            parked == self@.parked,
    {
        self.queue_data.is_parked()
    }

    /// Releases a parked reader without queueing anything.
    pub fn wake_up(&mut self)
        ensures
            final(self)@ == old(self)@.wake_up(),
    {
        self.queue_data.wake_up();
    }
}

impl<T: Payload> Clone for Queue<T> {
    fn clone(&self) -> (copy: Self)
        ensures
            copy@ == self@,
    {
        Self { id: self.id, queue_data: self.queue_data.duplicate() }
    }
}

impl<T: Payload> PartialEq for Queue<T> {
    fn eq(&self, other: &Self) -> (equal: bool) {
        self.id == other.id
    }
}

impl<T: Payload> PartialEqSpecImpl for Queue<T> {
    open spec fn obeys_eq_spec() -> bool {
        true
    }

    open spec fn eq_spec(&self, other: &Self) -> bool {
        self@.id == other@.id
    }
}

/// A handle that releases the parked reader of one mailbox and can do
/// nothing else to it.
pub struct Waker<T: Payload> {
    queue_id: u64,
    _phantom: PhantomData<T>,
}

impl<T: Payload> Waker<T> {
    /// The identity of the mailbox that this handle wakes.
    pub closed spec fn queue_id(&self) -> u64 {
        self.queue_id
    }

    /// Wakes `queue` if it is the mailbox that this handle was made for, and
    /// leaves any other mailbox as it is.
    pub fn wake_up(&self, queue: &mut Queue<T>)
        ensures
            final(queue)@ == if old(queue)@.id == self.queue_id() {
                old(queue)@.wake_up()
            } else {
                old(queue)@
            },
    {
        if queue.id() == self.queue_id {
            queue.wake_up();
        }
    }

    /// The identity of the mailbox that this handle wakes.
    pub fn target(&self) -> (id: u64)
        ensures
            id == self.queue_id(),
    {
        self.queue_id
    }
}

impl<T: Payload> Clone for Waker<T> {
    fn clone(&self) -> (copy: Self)
        ensures
            copy.queue_id() == self.queue_id(),
    {
        Self { queue_id: self.queue_id, _phantom: PhantomData }
    }
}

} // verus!
