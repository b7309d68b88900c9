use crate::bytes::ByteSource;
use crate::channel::{delivered_all, Channel};
use crate::error::{Error, ErrorView};
use crate::io::{after_read, parse_message, parse_opening, InputStream};
use crate::message::Message;
use crate::payload::Payload;
use crate::wire::{missing, parse_chunk};
use vstd::prelude::*;

verus! {

/// What replaying a byte sequence gives: the messages read, in order, the
/// bytes left unread, and the failure that ended the reading.
pub struct Replay<T: Payload> {
    pub messages: Seq<Message<T>>,
    pub rest: Seq<u8>,
    pub end: ErrorView,
}

/// Reading messages from `unread` until a read fails. The clean end of a
/// closed source is such a failure too, and so is an open source that has
/// not delivered the next chunk yet.
pub open spec fn replay<T: Payload>(unread: Seq<u8>, closed: bool) -> Replay<T>
    decreases unread.len(),
{
    match parse_message::<T>(unread, closed) {
        Err(error) => Replay {
            messages: Seq::empty(),
            rest: after_read(unread, closed),
            end: error,
        },
        Ok(message) => {
            let next = replay::<T>(after_read(unread, closed), closed);
            Replay { messages: seq![message] + next.messages, rest: next.rest, end: next.end }
        },
    }
}

/// A chunk that was read took at least the sixteen bytes of its header out
/// of what was unread.
pub proof fn lemma_read_consumes(unread: Seq<u8>, closed: bool)
    requires
        parse_chunk(unread, closed) is Ok,
    ensures
        after_read(unread, closed).len() + 16 <= unread.len(),
{
}

/// Replays a recorded stream onto a channel: every message read from the
/// stream is pushed with the time stamp that the stream holds for it.
pub struct Player<T: Payload> {
    stream: InputStream<T>,
}

impl<T: Payload> Player<T> {
    /// The bytes that have arrived and were not read yet.
    pub closed spec fn unread(&self) -> Seq<u8> {
        self.stream.unread()
    }

    /// Whether the source has closed.
    pub closed spec fn closed(&self) -> bool {
        self.stream.closed()
    }

    /// Opens an input stream over `read`.
    pub fn new(read: ByteSource) -> (result: Result<Self, Error>)
        ensures
            match parse_opening(read.unread(), read.closed(), T::spec_format_name()) {
                Ok(rest) => result matches Ok(player) && player.unread() == rest
                    && player.closed() == read.closed(),
                Err(error) => result matches Err(e) && e@ == error,
            },
    {
        match InputStream::<T>::new(read) {
            Ok(stream) => Ok(Self { stream }),
            Err(error) => Err(error),
        }
    }

    /// Reads messages from the stream and pushes each onto `channel` until
    /// a read fails, and returns that failure: `RegularEof` at the clean
    /// end of the stream, `StdIo(WouldBlock)` where more bytes have to
    /// arrive first.
    pub fn play(&mut self, channel: &mut Channel<T>) -> (end: Error)
        ensures
            final(self).closed() == old(self).closed(),
            final(self).unread() == replay::<T>(old(self).unread(), old(self).closed()).rest,
            end@ == replay::<T>(old(self).unread(), old(self).closed()).end,
            final(channel).issued() == old(channel).issued(),
            old(channel).wf() ==> final(channel).wf(),
            final(channel)@ == delivered_all(
                old(channel)@,
                replay::<T>(old(self).unread(), old(self).closed()).messages,
            ),
    {
        let ghost whole = replay::<T>(old(self).unread(), old(self).closed());
        let ghost mut done: Seq<Message<T>> = Seq::empty();
        assert(done + whole.messages =~= whole.messages);
        loop
            invariant
                self.closed() == old(self).closed(),
                channel.issued() == old(channel).issued(),
                old(channel).wf() ==> channel.wf(),
                channel@ == delivered_all(old(channel)@, done),
                whole == replay::<T>(old(self).unread(), old(self).closed()),
                whole.messages == done + replay::<T>(self.unread(), self.closed()).messages,
                whole.rest == replay::<T>(self.unread(), self.closed()).rest,
                whole.end == replay::<T>(self.unread(), self.closed()).end,
            decreases self.unread().len(),
        {
            let ghost before = self.unread();
            let ghost closed = self.closed();
            match self.stream.get() {
                Ok(message) => {
                    proof {
                        lemma_read_consumes(before, closed);
                        let next = replay::<T>(self.unread(), closed);
                        assert(done.push(message) + next.messages =~= done + (seq![message]
                            + next.messages));
                        assert(done.push(message).drop_last() =~= done);
                        done = done.push(message);
                    }
                    channel.push_message(message);
                },
                Err(error) => {
                    proof {
                        assert(done + Seq::<Message<T>>::empty() =~= done);
                    }
                    return error;
                },
            }
        }
    }

    /// How many more bytes have to arrive before the next message can be
    /// read.
    pub fn demand(&self) -> (more: u64)
        ensures
            more == missing(self.unread()),
            more == 0 <==> parse_chunk(self.unread(), self.closed()) is Ok,
    {
        self.stream.demand()
    }

    /// Hands bytes that have arrived to the stream.
    pub fn feed(&mut self, bytes: &[u8])
        ensures
            final(self).closed() == old(self).closed(),
            final(self).unread() == if old(self).closed() {
                old(self).unread()
            } else {
                old(self).unread() + bytes@
            },
    {
        self.stream.feed(bytes);
    }

    /// Tells the player that its source has closed.
    pub fn close(&mut self)
        ensures
            final(self).closed(),
            final(self).unread() == old(self).unread(),
    {
        self.stream.close();
    }
}

} // verus!
