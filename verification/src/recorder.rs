use crate::bytes::ByteSink;
use crate::channel::{pending, with_queue, without, Channel};
use crate::error::{Error, IoErrorKind};
use crate::io::{recorded, OutputStream};
use crate::message::Message;
use crate::payload::Payload;
use crate::queue::QueueView;
use crate::threaded_consumer::{ThreadedConsumer, WorkerState};
use crate::wire::stream_prefix;
use vstd::prelude::*;

verus! {

/// Writes the traffic of a channel to a byte sink: a worker on a consumer
/// of its own, whose callback appends every message to an output stream.
pub struct Recorder<T: Payload> {
    _tc: ThreadedConsumer<T>,
    stream: OutputStream<T>,
}

impl<T: Payload> Recorder<T> {
    /// What the sink holds: the bytes written and not yet taken.
    pub closed spec fn bytes(&self) -> Seq<u8> {
        self.stream.bytes()
    }

    /// How many bytes the sink can hold at a time.
    pub closed spec fn capacity(&self) -> nat {
        self.stream.capacity()
    }

    /// The identity of the mailbox that the recorder drains.
    pub closed spec fn queue_id(&self) -> u64 {
        self._tc.queue_id()
    }

    /// Where the recorder's worker stands.
    pub closed spec fn state(&self) -> WorkerState {
        self._tc.state()
    }

    /// Opens an output stream over `write`, then registers a consumer with
    /// `channel`. Where the stream cannot be opened nothing is registered.
    pub fn new(channel: &mut Channel<T>, write: ByteSink) -> (result: Result<Self, Error>)
        requires
            old(channel).wf(),
            old(channel).issued() < u64::MAX,
        ensures
            final(channel).wf(),
            result is Ok <==> stream_prefix(T::spec_format_name()).len() <= write.room(),
            result matches Ok(recorder) ==> {
                &&& recorder.bytes() == write.bytes() + stream_prefix(T::spec_format_name())
                &&& recorder.capacity() == write.capacity()
                &&& recorder.queue_id() == old(channel).issued()
                &&& recorder.state() == WorkerState::Waiting
                &&& final(channel).issued() == old(channel).issued() + 1
                &&& final(channel)@ == old(channel)@.push(
                    QueueView { id: old(channel).issued(), messages: Seq::empty(), parked: false },
                )
            },
            result matches Err(error) ==> {
                &&& error == Error::StdIo(IoErrorKind::WriteZero)
                &&& final(channel)@ == old(channel)@
                &&& final(channel).issued() == old(channel).issued()
            },
    {
        let ostream = match OutputStream::<T>::new(write) {
            Ok(ostream) => ostream,
            Err(error) => {
                return Err(error);
            },
        };
        let tc = ThreadedConsumer::new(channel.new_consumer());
        Ok(Self { _tc: tc, stream: ostream })
    }

    /// Appends every message of `messages` to the stream, in order, and
    /// stops at the first one that fails.
    pub fn process(&mut self, messages: &Vec<Message<T>>) -> (result: Result<(), Error>)
        ensures
            final(self).capacity() == old(self).capacity(),
            final(self).queue_id() == old(self).queue_id(),
            final(self).state() == old(self).state(),
            final(self).bytes() == recorded(old(self).bytes(), old(self).capacity(), messages@).0,
            match recorded(old(self).bytes(), old(self).capacity(), messages@).1 {
                None => result is Ok,
                Some(error) => result matches Err(e) && e@ == error,
            },
    {
        self.stream.append_all(messages)
    }

    /// One turn of the recorder's worker, up to the point where it would
    /// block: what waits in its mailbox is taken out and appended to the
    /// stream. Where `stop` says that the stop flag is raised, what waits
    /// is dropped and the recorder has stopped. Tells how many messages
    /// were appended.
    pub fn record(&mut self, channel: &mut Channel<T>, stop: bool) -> (result: Result<usize, Error>)
        ensures
            final(self).capacity() == old(self).capacity(),
            final(self).queue_id() == old(self).queue_id(),
            final(channel).issued() == old(channel).issued(),
            old(channel).wf() ==> final(channel).wf(),
            old(self).state() != WorkerState::Waiting ==> {
                &&& result == Ok::<usize, Error>(0)
                &&& final(channel)@ == old(channel)@
                &&& final(self).bytes() == old(self).bytes()
                &&& final(self).state() == old(self).state()
            },
            old(self).state() == WorkerState::Waiting && stop ==> {
                &&& result == Ok::<usize, Error>(0)
                &&& final(self).bytes() == old(self).bytes()
                &&& final(self).state() == WorkerState::Stopped
                &&& final(channel)@ == with_queue(
                    old(channel)@,
                    old(self).queue_id(),
                    |queue: QueueView<T>| queue.pull(),
                )
            },
            old(self).state() == WorkerState::Waiting && !stop ==> {
                let waiting = pending(old(channel)@, old(self).queue_id());
                let outcome = recorded(old(self).bytes(), old(self).capacity(), waiting);
                &&& final(channel)@ == with_queue(
                    old(channel)@,
                    old(self).queue_id(),
                    |queue: QueueView<T>| queue.wait_pull(),
                )
                &&& final(self).state() == WorkerState::Waiting
                &&& final(self).bytes() == outcome.0
                &&& match outcome.1 {
                    None => result == Ok::<usize, Error>(waiting.len() as usize),
                    Some(error) => result matches Err(e) && e@ == error,
                }
            },
    {
        match self._tc.poll(channel, stop) {
            None => Ok(0),
            Some(batch) => {
                let result = self.process(&batch);
                self._tc.on_processed(false);
                match result {
                    Ok(()) => Ok(batch.len()),
                    Err(error) => Err(error),
                }
            },
        }
    }

    /// Hands out what was written since the last call, for sending on.
    pub fn take_bytes(&mut self) -> (bytes: Vec<u8>)
        ensures
            bytes@ == old(self).bytes(),
            final(self).bytes() == Seq::<u8>::empty(),
            final(self).capacity() == old(self).capacity(),
            final(self).queue_id() == old(self).queue_id(),
            final(self).state() == old(self).state(),
    {
        self.stream.take_bytes()
    }

    /// Ends the recording: the recorder's consumer leaves the registry of
    /// `channel`, and what was written and not yet taken is handed out.
    pub fn finish(self, channel: &mut Channel<T>) -> (bytes: Vec<u8>)
        ensures
            bytes@ == self.bytes(),
            final(channel).issued() == old(channel).issued(),
            final(channel)@ == without(old(channel)@, self.queue_id()),
            old(channel).wf() ==> final(channel).wf(),
    {
        let mut recorder = self;
        let bytes = recorder.stream.take_bytes();
        recorder._tc.shutdown(channel);
        bytes
    }
}

} // verus!
