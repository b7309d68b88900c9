use crate::error::{Error, IoErrorKind};
use crate::wire::shortfall;
use vstd::prelude::*;
use vstd::slice::slice_subrange;

verus! {

/// How much room is left in a sink of `capacity` bytes that holds `bytes`.
pub open spec fn room_left(bytes: Seq<u8>, capacity: nat) -> int {
    if bytes.len() >= capacity {
        0
    } else {
        capacity - bytes.len()
    }
}

/// What a sink holds after `data` was written to it with `room` bytes left:
/// as much of `data` as fits is appended to `before`.
pub open spec fn written(before: Seq<u8>, room: int, data: Seq<u8>) -> Seq<u8> {
    if data.len() <= room {
        before + data
    } else if room <= 0 {
        before
    } else {
        before + data.take(room)
    }
}

/// Appends the bytes of `data` from `from` up to `to` to `target`.
pub fn append_range(target: &mut Vec<u8>, data: &[u8], from: usize, to: usize)
    requires
        from <= to <= data@.len(),
    ensures
        final(target)@ == old(target)@ + data@.subrange(from as int, to as int),
{
    let mut i: usize = from;
    while i < to
        invariant
            from <= i <= to <= data@.len(),
            target@ == old(target)@ + data@.subrange(from as int, i as int),
        decreases to - i,
    {
        target.push(data[i]);
        i += 1;
        assert(target@ =~= old(target)@ + data@.subrange(from as int, i as int));
    }
    assert(target@ =~= old(target)@ + data@.subrange(from as int, to as int));
}

/// An in-memory byte sink with a fixed amount of room. What is written
/// stays in it until `take` hands it out.
pub struct ByteSink {
    data: Vec<u8>,
    capacity: usize,
}

impl ByteSink {
    /// The bytes written and not yet taken.
    pub closed spec fn bytes(&self) -> Seq<u8> {
        self.data@
    }

    /// How many bytes the sink can hold at a time.
    pub closed spec fn capacity(&self) -> nat {
        self.capacity as nat
    }

    /// How many more bytes the sink takes before it is full.
    pub open spec fn room(&self) -> int {
        room_left(self.bytes(), self.capacity())
    }

    /// An empty sink that takes as much as memory holds.
    pub fn new() -> (sink: Self)
        ensures
            sink.bytes() == Seq::<u8>::empty(),
            sink.capacity() == usize::MAX,
    {
        Self { data: Vec::new(), capacity: usize::MAX }
    }

    /// An empty sink that holds at most `capacity` bytes.
    pub fn with_capacity(capacity: usize) -> (sink: Self)
        ensures
            sink.bytes() == Seq::<u8>::empty(),
            sink.capacity() == capacity,
    {
        Self { data: Vec::new(), capacity }
    }

    /// Writes all of `data`, or fails with `WriteZero` after writing the part
    /// of it that fits. A partial write is not taken back.
    pub fn write_all(&mut self, data: &[u8]) -> (result: Result<(), Error>)
        ensures
            final(self).capacity() == old(self).capacity(),
            final(self).bytes() == written(old(self).bytes(), old(self).room(), data@),
            result is Ok <==> data@.len() <= old(self).room(),
            result matches Err(error) ==> error == Error::StdIo(IoErrorKind::WriteZero),
    {
        let room = if self.data.len() >= self.capacity {
            0
        } else {
            self.capacity - self.data.len()
        };
        if data.len() <= room {
            append_range(&mut self.data, data, 0, data.len());
            assert(data@.subrange(0, data@.len() as int) =~= data@);
            Ok(())
        } else {
            append_range(&mut self.data, data, 0, room);
            assert(data@.subrange(0, room as int) =~= data@.take(room as int));
            assert(room == 0 ==> self.data@ =~= old(self).data@);
            Err(Error::StdIo(IoErrorKind::WriteZero))
        }
    }

    /// Hands out what was written and leaves the sink empty.
    pub fn take(&mut self) -> (bytes: Vec<u8>)
        ensures
            bytes@ == old(self).bytes(),
            final(self).bytes() == Seq::<u8>::empty(),
            final(self).capacity() == old(self).capacity(),
    {
        let mut bytes: Vec<u8> = Vec::new();
        std::mem::swap(&mut self.data, &mut bytes);
        bytes
    }

    /// How many bytes are written and not yet taken.
    pub fn len(&self) -> (n: usize)
        ensures
            n == self.bytes().len(),
    {
        self.data.len()
    }

    /// What was written and not yet taken.
    pub fn as_slice(&self) -> (bytes: &[u8])
        ensures
            bytes@ == self.bytes(),
    {
        self.data.as_slice()
    }
}

/// An in-memory byte source: the bytes that have arrived and were not read
/// yet, and whether the other end has closed.
pub struct ByteSource {
    data: Vec<u8>,
    closed: bool,
}

impl ByteSource {
    /// The bytes that have arrived and were not read yet.
    pub closed spec fn unread(&self) -> Seq<u8> {
        self.data@
    }

    /// Whether the other end has closed: nothing more will arrive.
    pub closed spec fn closed(&self) -> bool {
        self.closed
    }

    /// An open source into which nothing has arrived yet.
    pub fn new() -> (source: Self)
        ensures
            source.unread() == Seq::<u8>::empty(),
            !source.closed(),
    {
        Self { data: Vec::new(), closed: false }
    }

    /// A closed source that holds `bytes`: a finished file.
    pub fn from_bytes(bytes: Vec<u8>) -> (source: Self)
        ensures
            source.unread() == bytes@,
            source.closed(),
    {
        Self { data: bytes, closed: true }
    }

    /// Lets `bytes` arrive. A closed source takes nothing more.
    pub fn feed(&mut self, bytes: &[u8])
        ensures
            final(self).closed() == old(self).closed(),
            final(self).unread() == if old(self).closed() {
                old(self).unread()
            } else {
                old(self).unread() + bytes@
            },
    {
        if !self.closed {
            append_range(&mut self.data, bytes, 0, bytes.len());
            assert(bytes@.subrange(0, bytes@.len() as int) =~= bytes@);
        }
    }

    /// Closes the source: what has arrived can still be read.
    pub fn close(&mut self)
        ensures
            final(self).closed(),
            final(self).unread() == old(self).unread(),
    {
        self.closed = true;
    }

    /// How many bytes can be read now.
    pub fn available(&self) -> (n: usize)
        ensures
            n == self.unread().len(),
    {
        self.data.len()
    }

    pub fn is_closed(&self) -> (closed: bool)
        ensures
            closed == self.closed(),
    {
        self.closed
    }

    /// The first `n` unread bytes, which stay unread; `None` if fewer have
    /// arrived.
    pub fn peek(&self, n: usize) -> (front: Option<&[u8]>)
        ensures
            front is Some <==> n <= self.unread().len(),
            front matches Some(bytes) ==> bytes@ == self.unread().subrange(0, n as int),
    {
        if n <= self.data.len() {
            Some(slice_subrange(self.data.as_slice(), 0, n))
        } else {
            None
        }
    }

    /// Reads exactly `n` bytes. Where fewer have arrived nothing is read: a
    /// closed source fails with `UnexpectedEof`, an open one with
    /// `WouldBlock`.
    pub fn read_exact(&mut self, n: usize) -> (result: Result<Vec<u8>, Error>)
        ensures
            final(self).closed() == old(self).closed(),
            result is Ok <==> n <= old(self).unread().len(),
            result matches Ok(bytes) ==> bytes@ == old(self).unread().subrange(0, n as int)
                && final(self).unread() == old(self).unread().skip(n as int),
            result matches Err(error) ==> error == Error::StdIo(shortfall(old(self).closed()))
                && final(self).unread() == old(self).unread(),
    {
        if n > self.data.len() {
            if self.closed {
                Err(Error::StdIo(IoErrorKind::UnexpectedEof))
            } else {
                Err(Error::StdIo(IoErrorKind::WouldBlock))
            }
        } else {
            let mut front = self.data.split_off(n);
            std::mem::swap(&mut self.data, &mut front);
            assert(self.data@ =~= old(self).data@.skip(n as int));
            Ok(front)
        }
    }
}

} // verus!
