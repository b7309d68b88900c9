use crate::bytes::{ByteSink, ByteSource};
use crate::clock::Clock;
use crate::error::{Error, IoErrorKind};
use crate::io::parse_opening;
use crate::message::Message;
use crate::payload::Payload;
use crate::player::Player;
use crate::queue::{Queue, QueueView, Waker};
use crate::recorder::Recorder;
use crate::threaded_consumer::{ThreadedConsumer, WorkerState};
use crate::wire::stream_prefix;
use std::marker::PhantomData;
use vstd::prelude::*;

verus! {

/// Whether a mailbox with the identity `id` stands in `registry`.
pub open spec fn registered<T: Payload>(registry: Seq<QueueView<T>>, id: u64) -> bool {
    exists|i: int| 0 <= i < registry.len() && #[trigger] registry[i].id == id
}

/// Whether `i` is the first place in `registry` that holds the identity `id`.
pub open spec fn first_at<T: Payload>(registry: Seq<QueueView<T>>, id: u64, i: int) -> bool {
    &&& 0 <= i < registry.len()
    &&& registry[i].id == id
    &&& forall|j: int| 0 <= j < i ==> #[trigger] registry[j].id != id
}

/// The first place in `registry` that holds the identity `id`, if any does.
pub open spec fn position<T: Payload>(registry: Seq<QueueView<T>>, id: u64) -> Option<int> {
    if exists|i: int| first_at(registry, id, i) {
        Some(choose|i: int| first_at(registry, id, i))
    } else {
        None
    }
}

/// No two mailboxes of `registry` share an identity.
pub open spec fn distinct_ids<T: Payload>(registry: Seq<QueueView<T>>) -> bool {
    forall|i: int, j: int|
        0 <= i < registry.len() && 0 <= j < registry.len() && i != j ==> #[trigger] registry[i].id
            != #[trigger] registry[j].id
}

/// The registry after `message` was delivered to every mailbox in it.
pub open spec fn delivered<T: Payload>(registry: Seq<QueueView<T>>, message: Message<T>) -> Seq<
    QueueView<T>,
> {
    Seq::new(registry.len(), |i: int| registry[i].push(message))
}

/// The registry after each of `messages` was delivered in turn.
pub open spec fn delivered_all<T: Payload>(
    registry: Seq<QueueView<T>>,
    messages: Seq<Message<T>>,
) -> Seq<QueueView<T>>
    decreases messages.len(),
{
    if messages.len() == 0 {
        registry
    } else {
        delivered(delivered_all(registry, messages.drop_last()), messages.last())
    }
}

/// The registry without the mailboxes that have the identity `id`.
pub open spec fn without<T: Payload>(registry: Seq<QueueView<T>>, id: u64) -> Seq<QueueView<T>> {
    registry.filter(|queue: QueueView<T>| queue.id != id)
}

/// The registry with the mailbox at `position(registry, id)` replaced by
/// `change` of it, or unchanged where `id` is not registered.
pub open spec fn with_queue<T: Payload>(
    registry: Seq<QueueView<T>>,
    id: u64,
    change: spec_fn(QueueView<T>) -> QueueView<T>,
) -> Seq<QueueView<T>> {
    match position(registry, id) {
        Some(i) => registry.update(i, change(registry[i])),
        None => registry,
    }
}

/// The messages queued for `id` in `registry`; none where `id` is not
/// registered.
pub open spec fn pending<T: Payload>(registry: Seq<QueueView<T>>, id: u64) -> Seq<Message<T>> {
    match position(registry, id) {
        Some(i) => registry[i].messages,
        None => Seq::empty(),
    }
}

/// `i` is the only answer that `position` can give once `first_at` holds of it.
pub proof fn lemma_position_is_first<T: Payload>(registry: Seq<QueueView<T>>, id: u64, i: int)
    requires
        first_at(registry, id, i),
    ensures
        position(registry, id) == Some(i),
{
    let k = choose|k: int| first_at(registry, id, k);
    assert(first_at(registry, id, k));
    if k < i {
        assert(registry[k].id != id);
    }
    if i < k {
        assert(registry[i].id != id);
    }
}

/// An identity that no mailbox holds has no position.
pub proof fn lemma_position_none<T: Payload>(registry: Seq<QueueView<T>>, id: u64)
    requires
        forall|j: int| 0 <= j < registry.len() ==> #[trigger] registry[j].id != id,
    ensures
        position(registry, id) is None,
        !registered(registry, id),
{
}

/// The broadcast hub. It owns the mailbox of every registered consumer, in
/// the order of registration, and issues their identities.
pub struct Channel<T: Payload> {
    queues: Vec<Queue<T>>,
    next_id: u64,
    clock: Clock,
}

impl<T: Payload> View for Channel<T> {
    type V = Seq<QueueView<T>>;

    closed spec fn view(&self) -> Seq<QueueView<T>> {
        Seq::new(self.queues@.len(), |i: int| self.queues@[i]@)
    }
}

impl<T: Payload> Channel<T> {
    /// How many identities this channel has issued so far. The next consumer
    /// gets this number as its identity.
    pub closed spec fn issued(&self) -> u64 {
        self.next_id
    }

    /// Every registered mailbox has an identity that this channel issued, and
    /// no two have the same.
    pub open spec fn wf(&self) -> bool {
        &&& distinct_ids(self@)
        &&& forall|i: int| 0 <= i < self@.len() ==> #[trigger] self@[i].id < self.issued()
    }

    /// A channel without consumers.
    pub fn new() -> (channel: Self)
        ensures
            channel@ == Seq::<QueueView<T>>::empty(),
            channel.issued() == 0,
            channel.wf(),
    {
        let channel = Self { queues: Vec::new(), next_id: 0, clock: Clock::new() };
        assert(channel@ =~= Seq::<QueueView<T>>::empty());
        channel
    }

    /// A handle for pushing onto a channel.
    pub fn new_producer(&self) -> (producer: Producer<T>) {
        Producer::new()
    }

    /// Registers a new consumer: an empty mailbox with a fresh identity is
    /// appended to the registry.
    pub fn new_consumer(&mut self) -> (consumer: Consumer<T>)
        requires
            old(self).wf(),
            old(self).issued() < u64::MAX,
        ensures
            final(self).wf(),
            final(self).issued() == old(self).issued() + 1,
            consumer.queue_id() == old(self).issued(),
            final(self)@ == old(self)@.push(
                QueueView { id: old(self).issued(), messages: Seq::empty(), parked: false },
            ),
    {
        Consumer::new(self)
    }

    /// Registers a new consumer and puts a background worker on it.
    pub fn new_threaded_consumer(&mut self) -> (worker: ThreadedConsumer<T>)
        requires
            old(self).wf(),
            old(self).issued() < u64::MAX,
        ensures
            final(self).wf(),
            final(self).issued() == old(self).issued() + 1,
            worker.queue_id() == old(self).issued(),
            worker.state() == WorkerState::Waiting,
            final(self)@ == old(self)@.push(
                QueueView { id: old(self).issued(), messages: Seq::empty(), parked: false },
            ),
    {
        let consumer = self.new_consumer();
        ThreadedConsumer::new(consumer)
    }

    /// Opens an output stream over `write` and registers a recorder that
    /// writes this channel's traffic to it. Where the stream cannot be
    /// opened nothing is registered.
    pub fn new_recorder(&mut self, write: ByteSink) -> (result: Result<Recorder<T>, Error>)
        requires
            old(self).wf(),
            old(self).issued() < u64::MAX,
        ensures
            final(self).wf(),
            result is Ok <==> stream_prefix(T::spec_format_name()).len() <= write.room(),
            result matches Ok(recorder) ==> {
                &&& recorder.bytes() == write.bytes() + stream_prefix(T::spec_format_name())
                &&& recorder.capacity() == write.capacity()
                &&& recorder.queue_id() == old(self).issued()
                &&& recorder.state() == WorkerState::Waiting
                &&& final(self).issued() == old(self).issued() + 1
                &&& final(self)@ == old(self)@.push(
                    QueueView { id: old(self).issued(), messages: Seq::empty(), parked: false },
                )
            },
            result matches Err(error) ==> {
                &&& error == Error::StdIo(IoErrorKind::WriteZero)
                &&& final(self)@ == old(self)@
                &&& final(self).issued() == old(self).issued()
            },
    {
        Recorder::<T>::new(self, write)
    }

    /// Opens an input stream over `read` for replaying onto this channel.
    pub fn new_player(&self, read: ByteSource) -> (result: Result<Player<T>, Error>)
        ensures
            match parse_opening(read.unread(), read.closed(), T::spec_format_name()) {
                Ok(rest) => result matches Ok(player) && player.unread() == rest
                    && player.closed() == read.closed(),
                Err(error) => result matches Err(e) && e@ == error,
            },
    {
        Player::<T>::new(read)
    }

    /// Reads the clock and delivers `payload`, stamped with that reading, to
    /// every registered mailbox.
    pub fn push(&mut self, payload: T)
        ensures
            final(self).issued() == old(self).issued(),
            old(self).wf() ==> final(self).wf(),
            exists|time_stamp: u64|
                final(self)@ == delivered(old(self)@, #[trigger] Message::of(time_stamp, payload)),
    {
        let message = Message::new(self.clock.now(), payload);
        self.push_message(message);
    }

    /// Delivers `message` to every registered mailbox.
    pub fn push_message(&mut self, message: Message<T>)
        ensures
            final(self).issued() == old(self).issued(),
            old(self).wf() ==> final(self).wf(),
            final(self)@ == delivered(old(self)@, message),
    {
        self.broadcast(message);
    }

    /// Appends a copy of `message` to every mailbox of the registry, in the
    /// order of registration.
    pub(crate) fn broadcast(&mut self, message: Message<T>)
        ensures
            final(self).issued() == old(self).issued(),
            old(self).wf() ==> final(self).wf(),
            final(self)@ == delivered(old(self)@, message),
    {
        let n = self.queues.len();
        let mut i: usize = 0;
        while i < n
            invariant
                i <= n,
                n == self.queues@.len(),
                n == old(self).queues@.len(),
                self.next_id == old(self).next_id,
                forall|j: int| 0 <= j < i ==> #[trigger] self.queues@[j]@ == old(self).queues@[j]@.push(message),
                forall|j: int| i <= j < n ==> #[trigger] self.queues@[j]@ == old(self).queues@[j]@,
            decreases n - i,
        {
            self.queues[i].push(message.clone());
            i += 1;
        }
        assert(self@ =~= delivered(old(self)@, message));
    }

    /// A reading of this channel's clock: the nanoseconds since the channel
    /// was made. Messages pushed by payload carry such a reading.
    pub fn now(&self) -> u64 {
        self.clock.now()
    }

    /// Appends an empty mailbox with a fresh identity to the registry and
    /// returns the identity.
    pub(crate) fn add_queue(&mut self) -> (id: u64)
        requires
            old(self).wf(),
            old(self).issued() < u64::MAX,
        ensures
            final(self).wf(),
            id == old(self).issued(),
            final(self).issued() == old(self).issued() + 1,
            final(self)@ == old(self)@.push(QueueView { id, messages: Seq::empty(), parked: false }),
    {
        let id = self.next_id;
        self.next_id = id + 1;
        self.queues.push(Queue::new(id));
        assert(self@ =~= old(self)@.push(QueueView { id, messages: Seq::empty(), parked: false }));
        id
    }

    /// Takes the mailboxes with the identity `id` out of the registry. The
    /// others keep their order and their content.
    pub(crate) fn remove_queue(&mut self, id: u64)
        ensures
            final(self).issued() == old(self).issued(),
            final(self)@ == without(old(self)@, id),
            old(self).wf() ==> final(self).wf(),
    {
        let ghost keep = |queue: QueueView<T>| queue.id != id;
        let ghost before = self@;
        let mut i: usize = 0;
        let ghost mut k: int = 0;
        while i < self.queues.len()
            invariant
                self.next_id == old(self).next_id,
                before == old(self)@,
                keep == (|queue: QueueView<T>| queue.id != id),
                0 <= i <= self.queues@.len(),
                i <= k <= before.len(),
                self.queues@.len() - i == before.len() - k,
                self@.take(i as int) == before.take(k).filter(keep),
                self@.skip(i as int) == before.skip(k),
            decreases self.queues@.len() - i,
        {
            let ghost current = self@;
            proof {
                assert(current[i as int] == current.skip(i as int)[0]);
                lemma_filter_step(before, keep, k);
            }
            if self.queues[i].id() == id {
                self.queues.remove(i);
                proof {
                    assert(self@.take(i as int) =~= current.take(i as int));
                    assert forall|j: int| 0 <= j < self@.skip(i as int).len() implies self@.skip(
                        i as int,
                    )[j] == before.skip(k + 1)[j] by {
                        assert(current.skip(i as int)[j + 1] == before.skip(k)[j + 1]);
                    }
                    assert(self@.skip(i as int) =~= before.skip(k + 1));
                }
            } else {
                i += 1;
                proof {
                    assert(self@.take(i as int) =~= current.take(i as int - 1).push(before[k]));
                    assert forall|j: int| 0 <= j < self@.skip(i as int).len() implies self@.skip(
                        i as int,
                    )[j] == before.skip(k + 1)[j] by {
                        assert(current.skip(i as int - 1)[j + 1] == before.skip(k)[j + 1]);
                    }
                    assert(self@.skip(i as int) =~= before.skip(k + 1));
                }
            }
            proof {
                k = k + 1;
            }
        }
        proof {
            assert(self@.take(i as int) =~= self@);
            assert(before.take(k) =~= before);
            lemma_without_keeps_wf(before, id);
            if old(self).wf() {
                assert forall|a: int| 0 <= a < self@.len() implies #[trigger] self@[a].id
                    < self.issued() by {
                    assert(self@.contains(self@[a]));
                    before.lemma_filter_contains_rev(keep, self@[a]);
                }
            }
        }
    }

    /// How many identities this channel has issued so far.
    pub fn issued_so_far(&self) -> (issued: u64)
        ensures
            issued == self.issued(),
    {
        self.next_id
    }

    /// How many mailboxes are registered.
    pub fn queues_len(&self) -> (n: usize)
        ensures
            n == self@.len(),
    {
        self.queues.len()
    }

    /// The registered mailboxes, in the order of registration.
    pub fn queues_read(&self) -> (queues: &Vec<Queue<T>>)
        ensures
            queues@.len() == self@.len(),
            forall|i: int| 0 <= i < queues@.len() ==> #[trigger] queues@[i]@ == self@[i],
    {
        &self.queues
    }

    /// The place of the first mailbox with the identity `id`.
    pub fn find_queue(&self, id: u64) -> (place: Option<usize>)
        ensures
            position(self@, id) == match place {
                Some(i) => Some(i as int),
                None => None,
            },
            place is Some <==> registered(self@, id),
    {
        let mut i: usize = 0;
        while i < self.queues.len()
            invariant
                i <= self.queues@.len(),
                forall|j: int| 0 <= j < i ==> #[trigger] self@[j].id != id,
            decreases self.queues@.len() - i,
        {
            if self.queues[i].id() == id {
                proof {
                    lemma_position_is_first(self@, id, i as int);
                }
                return Some(i);
            }
            i += 1;
        }
        proof {
            lemma_position_none(self@, id);
        }
        None
    }

    /// Takes out what is queued for the mailbox `id`; nothing where `id` is
    /// not registered.
    pub(crate) fn pull_queue(&mut self, id: u64) -> (batch: Vec<Message<T>>)
        ensures
            final(self).issued() == old(self).issued(),
            old(self).wf() ==> final(self).wf(),
            batch@ == pending(old(self)@, id),
            final(self)@ == with_queue(old(self)@, id, |queue: QueueView<T>| queue.pull()),
    {
        match self.find_queue(id) {
            Some(i) => {
                let batch = self.queues[i].pull();
                assert(self@ =~= old(self)@.update(i as int, old(self)@[i as int].pull()));
                batch
            },
            None => {
                let batch = Vec::new();
                assert(batch@ =~= Seq::<Message<T>>::empty());
                batch
            },
        }
    }

    /// The blocking pull on the mailbox `id`, up to the point where it would
    /// block. `None` says that the caller has to wait: the mailbox is empty
    /// and its reader parked, or `id` is not registered and nothing will
    /// ever arrive.
    pub(crate) fn wait_pull_queue(&mut self, id: u64) -> (batch: Option<Vec<Message<T>>>)
        ensures
            final(self).issued() == old(self).issued(),
            old(self).wf() ==> final(self).wf(),
            batch is Some <==> pending(old(self)@, id).len() > 0,
            batch matches Some(b) ==> b@ == pending(old(self)@, id),
            final(self)@ == with_queue(old(self)@, id, |queue: QueueView<T>| queue.wait_pull()),
    {
        match self.find_queue(id) {
            Some(i) => {
                let batch = self.queues[i].wait_pull();
                assert(self@ =~= old(self)@.update(i as int, old(self)@[i as int].wait_pull()));
                batch
            },
            None => None,
        }
    }

    /// Releases the parked reader of the mailbox that `waker` was made for.
    /// Nothing is queued, and a waker of an unregistered mailbox changes
    /// nothing.
    pub fn wake_up(&mut self, waker: &Waker<T>)
        ensures
            final(self).issued() == old(self).issued(),
            old(self).wf() ==> final(self).wf(),
            final(self)@ == with_queue(
                old(self)@,
                waker.queue_id(),
                |queue: QueueView<T>| queue.wake_up(),
            ),
    {
        match self.find_queue(waker.target()) {
            Some(i) => {
                self.queues[i].wake_up();
                assert(self@ =~= old(self)@.update(i as int, old(self)@[i as int].wake_up()));
            },
            None => {},
        }
    }

    /// Whether the reader of the mailbox `id` is parked.
    pub fn is_parked(&self, id: u64) -> (parked: bool)
        ensures
            parked == match position(self@, id) {
                Some(i) => self@[i].parked,
                None => false,
            },
    {
        match self.find_queue(id) {
            Some(i) => self.queues[i].is_parked(),
            None => false,
        }
    }
}

/// How a filter grows when the sequence it reads grows by one element.
proof fn lemma_filter_step<A>(s: Seq<A>, pred: spec_fn(A) -> bool, k: int)
    requires
        0 <= k < s.len(),
    ensures
        s.take(k + 1).filter(pred) == if pred(s[k]) {
            s.take(k).filter(pred).push(s[k])
        } else {
            s.take(k).filter(pred)
        },
{
    reveal(Seq::filter);
    assert(s.take(k + 1).drop_last() =~= s.take(k));
    assert(s.take(k + 1).last() == s[k]);
}

/// Taking an identity out keeps the rest distinct and takes nothing else.
pub proof fn lemma_without_keeps_wf<T: Payload>(registry: Seq<QueueView<T>>, id: u64)
    ensures
        !registered(without(registry, id), id),
        distinct_ids(registry) ==> distinct_ids(without(registry, id)),
    decreases registry.len(),
{
    reveal(Seq::filter);
    let keep = |queue: QueueView<T>| queue.id != id;
    let rest = without(registry, id);
    assert forall|i: int| 0 <= i < rest.len() implies #[trigger] rest[i].id != id by {
        assert(rest.contains(rest[i]));
        registry.lemma_filter_contains_rev(keep, rest[i]);
    }
    if registry.len() > 0 {
        let shorter = registry.drop_last();
        lemma_without_keeps_wf(shorter, id);
        if distinct_ids(registry) {
            assert forall|i: int, j: int|
                0 <= i < shorter.len() && 0 <= j < shorter.len() && i != j implies #[trigger] shorter[i].id
                != #[trigger] shorter[j].id by {
                assert(shorter[i] == registry[i]);
                assert(shorter[j] == registry[j]);
            }
            let kept = without(shorter, id);
            if keep(registry.last()) {
                assert(rest =~= kept.push(registry.last()));
                assert forall|i: int, j: int|
                    0 <= i < rest.len() && 0 <= j < rest.len() && i != j implies #[trigger] rest[i].id
                    != #[trigger] rest[j].id by {
                    if i < kept.len() && j < kept.len() {
                        assert(rest[i] == kept[i]);
                        assert(rest[j] == kept[j]);
                    } else {
                        let inner = if i < kept.len() {
                            i
                        } else {
                            j
                        };
                        assert(kept.contains(kept[inner]));
                        shorter.lemma_filter_contains_rev(keep, kept[inner]);
                        let at = choose|at: int| 0 <= at < shorter.len() && shorter[at] == kept[inner];
                        assert(registry[at] == shorter[at]);
                        assert(registry[at].id != registry[registry.len() - 1].id);
                    }
                }
            } else {
                assert(rest =~= kept);
            }
        }
    }
}

/// Fan-out: after any sequence of pushes every mailbox that was registered
/// before them holds what it held, followed by every pushed message, in the
/// order of the pushes. No mailbox is added, removed or moved.
pub proof fn lemma_fan_out<T: Payload>(registry: Seq<QueueView<T>>, messages: Seq<Message<T>>)
    ensures
        delivered_all(registry, messages).len() == registry.len(),
        forall|i: int|
            0 <= i < registry.len() ==> {
                &&& (#[trigger] delivered_all(registry, messages)[i]).id == registry[i].id
                &&& delivered_all(registry, messages)[i].messages == registry[i].messages + messages
                &&& messages.len() > 0 ==> !delivered_all(registry, messages)[i].parked
            },
    decreases messages.len(),
{
    if messages.len() == 0 {
        assert forall|i: int| 0 <= i < registry.len() implies registry[i].messages
            == #[trigger] registry[i].messages + messages by {
            assert(registry[i].messages + messages =~= registry[i].messages);
        }
    } else {
        let before = delivered_all(registry, messages.drop_last());
        lemma_fan_out(registry, messages.drop_last());
        assert forall|i: int| 0 <= i < registry.len() implies (#[trigger] delivered_all(
            registry,
            messages,
        )[i]).messages == registry[i].messages + messages by {
            assert(before[i].messages == registry[i].messages + messages.drop_last());
            assert((registry[i].messages + messages.drop_last()).push(messages.last())
                =~= registry[i].messages + messages);
        }
    }
}

/// Deregistration: in a registry without double identities, taking the
/// consumer at place `k` out leaves one mailbox less, the others as they
/// were and in their order; and a push reaches the others whether it comes
/// before or after.
pub proof fn lemma_deregistration<T: Payload>(
    registry: Seq<QueueView<T>>,
    k: int,
    message: Message<T>,
)
    requires
        distinct_ids(registry),
        0 <= k < registry.len(),
    ensures
        without(registry, registry[k].id) == registry.remove(k),
        without(registry, registry[k].id).len() == registry.len() - 1,
        delivered(without(registry, registry[k].id), message) == without(
            delivered(registry, message),
            registry[k].id,
        ),
{
    let id = registry[k].id;
    lemma_without_is_remove(registry, k);
    let pushed = delivered(registry, message);
    assert(distinct_ids(pushed));
    assert(pushed[k].id == id);
    lemma_without_is_remove(pushed, k);
    assert(delivered(registry.remove(k), message) =~= pushed.remove(k));
}

/// In a registry without double identities the mailbox at place `k` is the
/// only one that leaves with its identity.
pub proof fn lemma_without_is_remove<T: Payload>(registry: Seq<QueueView<T>>, k: int)
    requires
        distinct_ids(registry),
        0 <= k < registry.len(),
    ensures
        without(registry, registry[k].id) == registry.remove(k),
    decreases registry.len(),
{
    reveal(Seq::filter);
    let id = registry[k].id;
    let keep = |queue: QueueView<T>| queue.id != id;
    let shorter = registry.drop_last();
    let last = registry.len() - 1;
    if k == last {
        assert forall|i: int| 0 <= i < shorter.len() implies keep(#[trigger] shorter[i]) by {
            assert(shorter[i] == registry[i]);
            assert(registry[i].id != registry[k].id);
        }
        lemma_filter_all(shorter, keep);
        assert(registry.remove(k) =~= shorter);
    } else {
        assert(distinct_ids(shorter)) by {
            assert forall|i: int, j: int|
                0 <= i < shorter.len() && 0 <= j < shorter.len() && i != j implies #[trigger] shorter[i].id
                != #[trigger] shorter[j].id by {
                assert(shorter[i] == registry[i]);
                assert(shorter[j] == registry[j]);
            }
        }
        assert(shorter[k] == registry[k]);
        lemma_without_is_remove(shorter, k);
        assert(registry[last].id != registry[k].id);
        assert(registry.remove(k) =~= shorter.remove(k).push(registry[last]));
    }
}

/// A filter that keeps every element changes nothing.
proof fn lemma_filter_all<A>(s: Seq<A>, keep: spec_fn(A) -> bool)
    requires
        forall|i: int| 0 <= i < s.len() ==> keep(#[trigger] s[i]),
    ensures
        s.filter(keep) == s,
    decreases s.len(),
{
    reveal(Seq::filter);
    if s.len() > 0 {
        let shorter = s.drop_last();
        assert forall|i: int| 0 <= i < shorter.len() implies keep(#[trigger] shorter[i]) by {
            assert(shorter[i] == s[i]);
        }
        lemma_filter_all(shorter, keep);
        assert(shorter.push(s.last()) =~= s);
    }
}

/// Taking a mailbox out gives the same registry whether or not the mailbox
/// was changed before, as long as the change kept its identity.
pub proof fn lemma_without_after_change<T: Payload>(
    registry: Seq<QueueView<T>>,
    id: u64,
    change: spec_fn(QueueView<T>) -> QueueView<T>,
)
    requires
        forall|queue: QueueView<T>| #[trigger] change(queue).id == queue.id,
    ensures
        without(with_queue(registry, id, change), id) == without(registry, id),
    decreases registry.len(),
{
    reveal(Seq::filter);
    let keep = |queue: QueueView<T>| queue.id != id;
    let changed = with_queue(registry, id, change);
    match position(registry, id) {
        None => {},
        Some(i) => {
            assert(first_at(registry, id, i));
            assert(changed.len() == registry.len());
            lemma_filter_same(registry, changed, keep);
        },
    }
}

/// Two sequences that agree wherever the filter keeps an element, and drop
/// elements at the same places, have the same filtered sequence.
proof fn lemma_filter_same<A>(a: Seq<A>, b: Seq<A>, keep: spec_fn(A) -> bool)
    requires
        a.len() == b.len(),
        forall|i: int| 0 <= i < a.len() ==> keep(#[trigger] a[i]) == keep(b[i]),
        forall|i: int| 0 <= i < a.len() && keep(a[i]) ==> #[trigger] a[i] == b[i],
    ensures
        a.filter(keep) == b.filter(keep),
    decreases a.len(),
{
    reveal(Seq::filter);
    if a.len() > 0 {
        let shorter_a = a.drop_last();
        let shorter_b = b.drop_last();
        assert forall|i: int| 0 <= i < shorter_a.len() implies keep(#[trigger] shorter_a[i])
            == keep(shorter_b[i]) by {
            assert(shorter_a[i] == a[i]);
            assert(shorter_b[i] == b[i]);
        }
        assert forall|i: int| 0 <= i < shorter_a.len() && keep(shorter_a[i]) implies #[trigger] shorter_a[i]
            == shorter_b[i] by {
            assert(shorter_a[i] == a[i]);
            assert(shorter_b[i] == b[i]);
        }
        lemma_filter_same(shorter_a, shorter_b, keep);
        assert(keep(a[a.len() - 1]) == keep(b[a.len() - 1]));
    }
}

/// A handle for pushing payloads onto a channel.
pub struct Producer<T: Payload> {
    _phantom: PhantomData<T>,
}

impl<T: Payload> Producer<T> {
    pub fn new() -> (producer: Self) {
        Self { _phantom: PhantomData }
    }

    /// Stamps `payload` with a reading of the channel's clock and delivers
    /// it to every mailbox registered with `channel`.
    pub fn push(&self, channel: &mut Channel<T>, payload: T)
        ensures
            final(channel).issued() == old(channel).issued(),
            old(channel).wf() ==> final(channel).wf(),
            exists|time_stamp: u64|
                final(channel)@ == delivered(
                    old(channel)@,
                    #[trigger] Message::of(time_stamp, payload),
                ),
    {
        channel.push(payload);
    }

    /// Delivers `message` to every mailbox registered with `channel`.
    pub fn push_message(&self, channel: &mut Channel<T>, message: Message<T>)
        ensures
            final(channel).issued() == old(channel).issued(),
            old(channel).wf() ==> final(channel).wf(),
            final(channel)@ == delivered(old(channel)@, message),
    {
        channel.push_message(message);
    }
}

/// The reading end of one registration: the token of a mailbox that a
/// channel holds.
pub struct Consumer<T: Payload> {
    queue_id: u64,
    _phantom: PhantomData<T>,
}

impl<T: Payload> Consumer<T> {
    /// The identity of this consumer's mailbox.
    pub closed spec fn queue_id(&self) -> u64 {
        self.queue_id
    }

    /// Registers a new mailbox with `channel` and returns its reading end.
    pub fn new(channel: &mut Channel<T>) -> (consumer: Self)
        requires
            old(channel).wf(),
            old(channel).issued() < u64::MAX,
        ensures
            final(channel).wf(),
            final(channel).issued() == old(channel).issued() + 1,
            consumer.queue_id() == old(channel).issued(),
            final(channel)@ == old(channel)@.push(
                QueueView { id: old(channel).issued(), messages: Seq::empty(), parked: false },
            ),
    {
        let queue_id = channel.add_queue();
        Self { queue_id, _phantom: PhantomData }
    }

    /// A handle that can release this consumer while it waits in a blocking
    /// pull.
    pub fn wait_pull_waker(&self) -> (waker: Waker<T>)
        ensures
            waker.queue_id() == self.queue_id(),
    {
        Queue::<T>::new(self.queue_id).waker()
    }

    /// The blocking pull, up to the point where it would block: `Some` with
    /// everything queued, oldest first, if anything is; `None` if the
    /// caller has to wait for a push or a wake-up, after which `pull` takes
    /// what is there.
    pub fn wait_pull(&self, channel: &mut Channel<T>) -> (batch: Option<Vec<Message<T>>>)
        ensures
            final(channel).issued() == old(channel).issued(),
            old(channel).wf() ==> final(channel).wf(),
            batch is Some <==> pending(old(channel)@, self.queue_id()).len() > 0,
            batch matches Some(b) ==> b@ == pending(old(channel)@, self.queue_id()),
            final(channel)@ == with_queue(
                old(channel)@,
                self.queue_id(),
                |queue: QueueView<T>| queue.wait_pull(),
            ),
    {
        channel.wait_pull_queue(self.queue_id)
    }

    /// Takes out everything queued for this consumer, oldest first; never
    /// blocks.
    pub fn pull(&self, channel: &mut Channel<T>) -> (batch: Vec<Message<T>>)
        ensures
            final(channel).issued() == old(channel).issued(),
            old(channel).wf() ==> final(channel).wf(),
            batch@ == pending(old(channel)@, self.queue_id()),
            final(channel)@ == with_queue(
                old(channel)@,
                self.queue_id(),
                |queue: QueueView<T>| queue.pull(),
            ),
    {
        channel.pull_queue(self.queue_id)
    }

    /// The identity of this consumer's mailbox.
    pub fn id(&self) -> (id: u64)
        ensures
            id == self.queue_id(),
    {
        self.queue_id
    }

    /// Ends the registration: the consumer's mailbox leaves the registry of
    /// `channel`, with whatever it still holds.
    pub fn release(self, channel: &mut Channel<T>)
        ensures
            final(channel).issued() == old(channel).issued(),
            final(channel)@ == without(old(channel)@, self.queue_id()),
            old(channel).wf() ==> final(channel).wf(),
    {
        channel.remove_queue(self.queue_id);
    }
}

} // verus!
