use crate::bytes::{room_left, written, ByteSink, ByteSource};
use crate::error::{Error, ErrorView, IoErrorKind};
use crate::message::Message;
use crate::payload::Payload;
use crate::wire::{
    announced_size, announced_stamp, announced_version, chunk_bytes, chunk_header_bytes, magic,
    missing, parse_chunk, parse_stream_header, shortfall, stream_header_bytes, stream_prefix,
    ChunkData, ChunkHeader, StreamHeader, WireRecord, CURRENT_VERSION,
};
use std::marker::PhantomData;
use vstd::prelude::*;
use vstd::utf8::{decode_utf8, encode_utf8, valid_utf8};

verus! {

/// The text that a lossy UTF-8 conversion makes of bytes that are not
/// valid UTF-8.
pub uninterp spec fn lossy_text(bytes: Seq<u8>) -> Seq<char>;

/// The text of `bytes`: valid UTF-8 is decoded as it stands, and anything
/// else goes through the lossy conversion.
pub open spec fn text_of(bytes: Seq<u8>) -> Seq<char> {
    if valid_utf8(bytes) {
        decode_utf8(bytes)
    } else {
        lossy_text(bytes)
    }
}

/// `String::from_utf8_lossy`: the text of `bytes`, with each invalid
/// sequence replaced by U+FFFD. Valid UTF-8 is decoded as it stands.
#[verifier::external_body]
fn utf8_lossy(bytes: &[u8]) -> (text: String)
    ensures
        text@ == text_of(bytes@),
        !valid_utf8(bytes@) ==> text@ == lossy_text(bytes@),
{
    String::from_utf8_lossy(bytes).into_owned()
}

/// What a sink of `capacity` bytes holds after `messages` were appended to
/// `bytes` in turn, one chunk for each, and the error that ended the
/// appending early, if one did. The first message that cannot be encoded
/// ends it with nothing written for it; the first chunk that does not fit
/// ends it with as much of the chunk written as fitted.
pub open spec fn recorded<T: Payload>(
    bytes: Seq<u8>,
    capacity: nat,
    messages: Seq<Message<T>>,
) -> (Seq<u8>, Option<ErrorView>)
    decreases messages.len(),
{
    if messages.len() == 0 {
        (bytes, None)
    } else {
        match messages[0].payload().spec_encode() {
            None => (bytes, Some(ErrorView::BincodeEncode)),
            Some(encoded) => {
                let chunk = chunk_bytes(messages[0].time_stamp(), encoded);
                if chunk.len() <= room_left(bytes, capacity) {
                    recorded(bytes + chunk, capacity, messages.skip(1))
                } else {
                    (
                        written(bytes, room_left(bytes, capacity), chunk),
                        Some(ErrorView::StdIo(IoErrorKind::WriteZero)),
                    )
                }
            },
        }
    }
}

/// The writing end of the wire protocol, over a byte sink.
pub struct OutputStream<T: Payload> {
    write: ByteSink,
    _phantom: PhantomData<T>,
}

impl<T: Payload> OutputStream<T> {
    /// What the sink holds: the bytes written and not yet taken.
    pub closed spec fn bytes(&self) -> Seq<u8> {
        self.write.bytes()
    }

    /// How many bytes the sink can hold at a time.
    pub closed spec fn capacity(&self) -> nat {
        self.write.capacity()
    }

    /// How many more bytes the sink takes before it is full.
    pub open spec fn room(&self) -> int {
        room_left(self.bytes(), self.capacity())
    }

    /// Opens a stream over `write`: the stream header and a chunk with the
    /// payload's format name are written before it returns. Fails with
    /// `WriteZero` if the sink has no room for them.
    pub fn new(write: ByteSink) -> (result: Result<Self, Error>)
        ensures
            result is Ok <==> stream_prefix(T::spec_format_name()).len() <= write.room(),
            result matches Ok(stream) ==> stream.bytes() == write.bytes() + stream_prefix(
                T::spec_format_name(),
            ) && stream.capacity() == write.capacity(),
            result matches Err(error) ==> error == Error::StdIo(IoErrorKind::WriteZero),
    {
        let mut stream = Self { write, _phantom: PhantomData };
        let ghost header_bytes = stream_header_bytes(magic(), CURRENT_VERSION);
        let ghost name_chunk = chunk_bytes(0, encode_utf8(T::spec_format_name()));
        match stream.write_any(&StreamHeader::default()) {
            Ok(()) => {},
            Err(error) => {
                return Err(error);
            },
        }
        match stream.append_string(T::format_name()) {
            Ok(()) => {},
            Err(error) => {
                return Err(error);
            },
        }
        assert(stream.bytes() =~= write.bytes() + (header_bytes + name_chunk));
        Ok(stream)
    }

    /// Encodes the payload of `message` and writes it as one chunk with the
    /// message's time stamp. Fails with `BincodeEncode`, writing nothing, if
    /// the payload cannot be encoded, and with `WriteZero` if the sink has
    /// not enough room: it then holds as much of the chunk as fitted.
    pub fn append(&mut self, message: &Message<T>) -> (result: Result<(), Error>)
        ensures
            final(self).capacity() == old(self).capacity(),
            message.payload().spec_encode() is None ==> {
                &&& result matches Err(error) && error == Error::BincodeEncode
                &&& final(self).bytes() == old(self).bytes()
            },
            message.payload().spec_encode() matches Some(encoded) ==> {
                let chunk = chunk_bytes(message.time_stamp(), encoded);
                &&& final(self).bytes() == written(old(self).bytes(), old(self).room(), chunk)
                &&& result is Ok <==> chunk.len() <= old(self).room()
                &&& result matches Err(error) ==> error == Error::StdIo(IoErrorKind::WriteZero)
            },
    {
        match message.get_payload().encode() {
            None => Err(Error::BincodeEncode),
            Some(encoded) => {
                let chunk_data = ChunkData(encoded, message.get_type_stamp());
                self.append_bytes(chunk_data)
            },
        }
    }

    /// Appends every message of `messages`, in order, and stops at the first
    /// one that fails.
    pub fn append_all(&mut self, messages: &Vec<Message<T>>) -> (result: Result<(), Error>)
        ensures
            final(self).capacity() == old(self).capacity(),
            final(self).bytes() == recorded(old(self).bytes(), old(self).capacity(), messages@).0,
            match recorded(old(self).bytes(), old(self).capacity(), messages@).1 {
                None => result is Ok,
                Some(error) => result matches Err(e) && e@ == error,
            },
    {
        let n = messages.len();
        let mut i: usize = 0;
        assert(messages@.skip(0) =~= messages@);
        while i < n
            invariant
                i <= n,
                n == messages@.len(),
                self.capacity() == old(self).capacity(),
                recorded(old(self).bytes(), old(self).capacity(), messages@) == recorded(
                    self.bytes(),
                    self.capacity(),
                    messages@.skip(i as int),
                ),
            decreases n - i,
        {
            let ghost rest = messages@.skip(i as int);
            assert(rest[0] == messages@[i as int]);
            assert(rest.skip(1) =~= messages@.skip(i + 1));
            match self.append(&messages[i]) {
                Ok(()) => {},
                Err(error) => {
                    return Err(error);
                },
            }
            i += 1;
        }
        assert(messages@.skip(n as int).len() == 0);
        Ok(())
    }

    /// Writes `string` as one chunk with the time stamp zero.
    pub fn append_string(&mut self, string: &str) -> (result: Result<(), Error>)
        ensures
            final(self).bytes() == written(
                old(self).bytes(),
                old(self).room(),
                chunk_bytes(0, encode_utf8(string@)),
            ),
            result is Ok <==> chunk_bytes(0, encode_utf8(string@)).len() <= old(self).room(),
            final(self).capacity() == old(self).capacity(),
            result matches Err(error) ==> error == Error::StdIo(IoErrorKind::WriteZero),
    {
        let bytes = vstd::slice::slice_to_vec(string.as_bytes());
        self.append_bytes(ChunkData(bytes, 0))
    }

    /// Writes one chunk: the header with the length and the time stamp,
    /// then the payload.
    pub fn append_bytes(&mut self, chunk_data: ChunkData) -> (result: Result<(), Error>)
        ensures
            final(self).bytes() == written(
                old(self).bytes(),
                old(self).room(),
                chunk_bytes(chunk_data.1, chunk_data.0@),
            ),
            result is Ok <==> chunk_bytes(chunk_data.1, chunk_data.0@).len() <= old(self).room(),
            final(self).capacity() == old(self).capacity(),
            result matches Err(error) ==> error == Error::StdIo(IoErrorKind::WriteZero),
    {
        let header = ChunkHeader::new(chunk_data.0.len(), chunk_data.1);
        let ghost head = chunk_header_bytes(chunk_data.0@.len() as u64, chunk_data.1);
        let ghost chunk = chunk_bytes(chunk_data.1, chunk_data.0@);
        proof {
            vstd::bytes::lemma_auto_spec_u64_to_from_le_bytes();
            assert(head.len() == 16);
            assert(chunk.take(16) =~= head);
        }
        match self.write_any(&header) {
            Ok(()) => {},
            Err(error) => {
                proof {
                    let room = old(self).room();
                    if room > 0 {
                        assert(head.take(room) =~= chunk.take(room));
                    }
                }
                return Err(error);
            },
        }
        let result = self.write_bytes(chunk_data.0.as_slice());
        proof {
            let room = old(self).room();
            if chunk.len() <= room {
                assert(self.bytes() =~= old(self).bytes() + chunk);
            } else if room - 16 > 0 {
                assert(self.bytes() =~= old(self).bytes() + chunk.take(room));
            } else {
                assert(self.bytes() =~= old(self).bytes() + chunk.take(room));
            }
        }
        result
    }

    /// Writes the wire form of a record.
    pub fn write_any<U: WireRecord>(&mut self, data: &U) -> (result: Result<(), Error>)
        ensures
            final(self).bytes() == written(old(self).bytes(), old(self).room(), data.wire()),
            result is Ok <==> data.wire().len() <= old(self).room(),
            final(self).capacity() == old(self).capacity(),
            result matches Err(error) ==> error == Error::StdIo(IoErrorKind::WriteZero),
    {
        let bytes = data.to_bytes();
        self.write_bytes(bytes.as_slice())
    }

    /// Writes `data` to the sink, all of it or as much as fits.
    pub fn write_bytes(&mut self, data: &[u8]) -> (result: Result<(), Error>)
        ensures
            final(self).bytes() == written(old(self).bytes(), old(self).room(), data@),
            result is Ok <==> data@.len() <= old(self).room(),
            final(self).capacity() == old(self).capacity(),
            result matches Err(error) ==> error == Error::StdIo(IoErrorKind::WriteZero),
    {
        self.write.write_all(data)
    }

    /// Hands out what was written since the last call, for sending on.
    pub fn take_bytes(&mut self) -> (bytes: Vec<u8>)
        ensures
            bytes@ == old(self).bytes(),
            final(self).bytes() == Seq::<u8>::empty(),
            final(self).capacity() == old(self).capacity(),
    {
        self.write.take()
    }
}

/// Opening a stream for the payload format `name`: the stream header is
/// checked, then the chunk with the writer's format name is read and
/// compared. `Ok` holds what follows that chunk.
pub open spec fn parse_opening(unread: Seq<u8>, closed: bool, name: Seq<char>) -> Result<
    Seq<u8>,
    ErrorView,
> {
    match parse_stream_header(unread, closed) {
        Err(error) => Err(error),
        Ok(after_header) => match parse_chunk(after_header, closed) {
            Err(error) => Err(error),
            Ok(chunk) => if text_of(chunk.payload) == name {
                Ok(chunk.rest)
            } else {
                Err(ErrorView::BadFormat(text_of(chunk.payload)))
            },
        },
    }
}

/// How many more bytes have to arrive before a stream can be opened over
/// `unread`, or refused: the stream header first, then, behind a header
/// that is accepted, the chunk with the format name.
pub open spec fn missing_to_open(unread: Seq<u8>) -> int {
    if unread.len() < 6 {
        6 - unread.len()
    } else if parse_stream_header(unread, false) is Err {
        0
    } else {
        missing(unread.skip(6))
    }
}

/// Reading one message: the next chunk is read, and its payload decoded.
/// The message carries the time stamp that the chunk holds.
pub open spec fn parse_message<T: Payload>(unread: Seq<u8>, closed: bool) -> Result<
    Message<T>,
    ErrorView,
> {
    match parse_chunk(unread, closed) {
        Err(error) => Err(error),
        Ok(chunk) => match T::spec_decode(chunk.payload) {
            None => Err(ErrorView::BincodeDecode),
            Some(payload) => Ok(Message::of(chunk.time_stamp, payload)),
        },
    }
}

/// What is left unread after an attempt to read a chunk: a chunk that is
/// there in full is consumed, whether or not its payload can be used;
/// otherwise nothing is.
pub open spec fn after_read(unread: Seq<u8>, closed: bool) -> Seq<u8> {
    match parse_chunk(unread, closed) {
        Ok(chunk) => chunk.rest,
        Err(_) => unread,
    }
}

/// The reading end of the wire protocol, over a byte source.
pub struct InputStream<T: Payload> {
    read: ByteSource,
    _phantom: PhantomData<T>,
}

impl<T: Payload> InputStream<T> {
    /// The bytes that have arrived and were not read yet.
    pub closed spec fn unread(&self) -> Seq<u8> {
        self.read.unread()
    }

    /// Whether the source has closed.
    pub closed spec fn closed(&self) -> bool {
        self.read.closed()
    }

    /// Opens a stream over `read`: checks the stream header, then the format
    /// name that the writer left against the payload's own.
    pub fn new(read: ByteSource) -> (result: Result<Self, Error>)
        ensures
            match parse_opening(read.unread(), read.closed(), T::spec_format_name()) {
                Ok(rest) => result matches Ok(stream) && stream.unread() == rest
                    && stream.closed() == read.closed(),
                Err(error) => result matches Err(e) && e@ == error,
            },
    {
        let mut stream = Self { read, _phantom: PhantomData };
        match stream.get_and_check_header() {
            Ok(()) => {},
            Err(error) => {
                return Err(error);
            },
        }
        let format = match stream.get_string() {
            Ok(format) => format,
            Err(error) => {
                return Err(error);
            },
        };
        let expected = T::format_name().to_owned();
        if format != expected {
            return Err(Error::BadFormat(format));
        }
        Ok(stream)
    }

    /// How many more bytes have to arrive in `read` before `new` can open a
    /// stream over it or refuse it for what it holds. Zero says that `new`
    /// will not have to wait.
    pub fn opening_demand(read: &ByteSource) -> (more: u64)
        ensures
            more == missing_to_open(read.unread()),
            more == 0 ==> parse_opening(read.unread(), false, T::spec_format_name()) != Err::<
                Seq<u8>,
                ErrorView,
            >(ErrorView::StdIo(IoErrorKind::WouldBlock)),
    {
        let available = read.available();
        let front = match read.peek(available) {
            Some(front) => front,
            None => {
                return 0;
            },
        };
        assert(front@ =~= read.unread());
        if available < 6 {
            return (6 - available) as u64;
        }
        let header = StreamHeader::from_bytes(vstd::slice::slice_subrange(front, 0, 6));
        proof {
            let unread = read.unread();
            assert(unread.subrange(0, 6).subrange(0, 4) =~= unread.subrange(0, 4));
            assert(unread.subrange(0, 6).subrange(4, 6) =~= unread.subrange(4, 6));
        }
        let default = StreamHeader::default();
        let same_magic = header.magic[0] == default.magic[0] && header.magic[1] == default.magic[1]
            && header.magic[2] == default.magic[2] && header.magic[3] == default.magic[3];
        proof {
            if same_magic {
                assert(header.magic@ =~= magic());
            } else {
                assert(header.magic@ != magic());
            }
        }
        if !same_magic || header.version != CURRENT_VERSION {
            return 0;
        }
        let payload_start: usize = 6 + 16;
        if available < payload_start {
            proof {
                assert(read.unread().skip(6).len() == available - 6);
            }
            return (payload_start - available) as u64;
        }
        let chunk_header = ChunkHeader::from_bytes(vstd::slice::slice_subrange(front, 6, 22));
        proof {
            let unread = read.unread();
            assert(unread.subrange(6, 22) =~= unread.skip(6).subrange(0, 16));
            assert(unread.skip(6).subrange(0, 16).subrange(0, 8) =~= unread.skip(6).subrange(0, 8));
        }
        let payload = (available - payload_start) as u64;
        if chunk_header.size > payload {
            chunk_header.size - payload
        } else {
            0
        }
    }

    /// Reads the next message. At the clean end of a closed source the
    /// result is `RegularEof`. While the chunk has not arrived in full
    /// nothing is consumed: the result is `StdIo(WouldBlock)` on an open
    /// source and `StdIo(UnexpectedEof)` on a closed one. A chunk whose
    /// payload cannot be decoded is consumed and gives `BincodeDecode`.
    pub fn get(&mut self) -> (result: Result<Message<T>, Error>)
        ensures
            final(self).closed() == old(self).closed(),
            final(self).unread() == after_read(old(self).unread(), old(self).closed()),
            match parse_message::<T>(old(self).unread(), old(self).closed()) {
                Ok(expected) => result matches Ok(message) && message == expected,
                Err(error) => result matches Err(e) && e@ == error,
            },
    {
        let chunk_data = match self.read_chunk() {
            Ok(chunk_data) => chunk_data,
            Err(error) => {
                return Err(error);
            },
        };
        match T::decode(chunk_data.0.as_slice()) {
            Some(decoded) => Ok(Message::new(chunk_data.1, decoded)),
            None => Err(Error::BincodeDecode),
        }
    }

    /// Reads the stream header and checks the magic bytes and the version.
    pub fn get_and_check_header(&mut self) -> (result: Result<(), Error>)
        ensures
            final(self).closed() == old(self).closed(),
            match parse_stream_header(old(self).unread(), old(self).closed()) {
                Ok(rest) => result is Ok && final(self).unread() == rest,
                Err(error) => result matches Err(e) && e@ == error,
            },
    {
        let header = match self.read_stream_header() {
            Ok(header) => header,
            Err(error) => {
                return Err(error);
            },
        };
        let default = StreamHeader::default();
        let same_magic = header.magic[0] == default.magic[0] && header.magic[1] == default.magic[1]
            && header.magic[2] == default.magic[2] && header.magic[3] == default.magic[3];
        proof {
            if same_magic {
                assert(header.magic@ =~= magic());
            } else {
                assert(header.magic@ != magic());
            }
        }
        if !same_magic {
            return Err(Error::BadHeader);
        }
        if header.version != CURRENT_VERSION {
            return Err(Error::BadVersion(header.version));
        }
        Ok(())
    }

    /// Reads one chunk and takes its payload as text.
    pub fn get_string(&mut self) -> (result: Result<String, Error>)
        ensures
            final(self).closed() == old(self).closed(),
            final(self).unread() == after_read(old(self).unread(), old(self).closed()),
            match parse_chunk(old(self).unread(), old(self).closed()) {
                Ok(chunk) => result matches Ok(text) && text@ == text_of(chunk.payload),
                Err(error) => result matches Err(e) && e@ == error,
            },
    {
        match self.read_chunk() {
            Ok(chunk_data) => Ok(utf8_lossy(chunk_data.0.as_slice())),
            Err(error) => Err(error),
        }
    }

    /// Reads the six bytes of the stream header.
    pub fn read_stream_header(&mut self) -> (result: Result<StreamHeader, Error>)
        ensures
            final(self).closed() == old(self).closed(),
            result is Ok <==> old(self).unread().len() >= 6,
            result matches Ok(header) ==> header.wire() == old(self).unread().subrange(0, 6)
                && header.magic@ == old(self).unread().subrange(0, 4) && header.version
                == announced_version(old(self).unread()) && final(self).unread()
                == old(self).unread().skip(6),
            result matches Err(error) ==> error == Error::StdIo(shortfall(old(self).closed()))
                && final(self).unread() == old(self).unread(),
    {
        match self.read.read_exact(6) {
            Ok(bytes) => {
                let header = StreamHeader::from_bytes(bytes.as_slice());
                proof {
                    let unread = old(self).unread();
                    assert(unread.subrange(0, 6).subrange(0, 4) =~= unread.subrange(0, 4));
                    assert(unread.subrange(0, 6).subrange(4, 6) =~= unread.subrange(4, 6));
                }
                Ok(header)
            },
            Err(error) => Err(error),
        }
    }

    /// Reads one chunk, header and payload, or nothing at all.
    pub fn read_chunk(&mut self) -> (result: Result<ChunkData, Error>)
        ensures
            final(self).closed() == old(self).closed(),
            final(self).unread() == after_read(old(self).unread(), old(self).closed()),
            match parse_chunk(old(self).unread(), old(self).closed()) {
                Ok(chunk) => result matches Ok(data) && data.0@ == chunk.payload && data.1
                    == chunk.time_stamp,
                Err(error) => result matches Err(e) && e@ == error,
            },
    {
        let header = match self.read_chunk_header() {
            Ok(header) => header,
            Err(error) => {
                return Err(error);
            },
        };
        self.read_chunk_data(&header)
    }

    /// Looks at the header of the next chunk without consuming it. A closed
    /// source that holds nothing has ended cleanly; one that holds a part of
    /// a header has ended too early; an open one has to deliver the rest.
    pub fn read_chunk_header(&self) -> (result: Result<ChunkHeader, Error>)
        ensures
            result is Ok <==> self.unread().len() >= 16,
            result matches Ok(header) ==> header.size == announced_size(
                self.unread(),
            ) && header.time_stamp == announced_stamp(self.unread()),
            result matches Err(error) ==> error == if self.unread().len() == 0 && self.closed() {
                Error::RegularEof
            } else {
                Error::StdIo(shortfall(self.closed()))
            },
    {
        if self.read.available() == 0 && self.read.is_closed() {
            return Err(Error::RegularEof);
        }
        match self.read.peek(16) {
            Some(bytes) => {
                let header = ChunkHeader::from_bytes(bytes);
                proof {
                    let unread = self.unread();
                    assert(unread.subrange(0, 16).subrange(0, 8) =~= unread.subrange(0, 8));
                    assert(unread.subrange(0, 16).subrange(8, 16) =~= unread.subrange(8, 16));
                }
                Ok(header)
            },
            None => if self.read.is_closed() {
                Err(Error::StdIo(IoErrorKind::UnexpectedEof))
            } else {
                Err(Error::StdIo(IoErrorKind::WouldBlock))
            },
        }
    }

    /// Consumes a chunk as `header` describes it: the sixteen bytes of the
    /// header and as many bytes of payload as it announces. Nothing is
    /// consumed unless all of that has arrived.
    pub fn read_chunk_data(&mut self, header: &ChunkHeader) -> (result: Result<ChunkData, Error>)
        ensures
            final(self).closed() == old(self).closed(),
            result is Ok <==> 16 + header.size <= old(self).unread().len(),
            result matches Ok(data) ==> {
                &&& data.0@ == old(self).unread().subrange(16, 16 + header.size)
                &&& data.1 == header.time_stamp
                &&& final(self).unread() == old(self).unread().skip(16 + header.size)
            },
            result matches Err(error) ==> {
                &&& error == Error::StdIo(shortfall(old(self).closed()))
                &&& final(self).unread() == old(self).unread()
            },
    {
        let available = self.read.available();
        if available < 16 || header.size > (available - 16) as u64 {
            return if self.read.is_closed() {
                Err(Error::StdIo(IoErrorKind::UnexpectedEof))
            } else {
                Err(Error::StdIo(IoErrorKind::WouldBlock))
            };
        }
        let size: usize = header.size as usize;
        let ghost unread = old(self).unread();
        match self.read.read_exact(16) {
            Ok(_) => {},
            Err(error) => {
                return Err(error);
            },
        }
        match self.read.read_exact(size) {
            Ok(buffer) => {
                proof {
                    assert(unread.skip(16).subrange(0, size as int) =~= unread.subrange(
                        16,
                        16 + size,
                    ));
                    assert(unread.skip(16).skip(size as int) =~= unread.skip(16 + size));
                }
                Ok(ChunkData(buffer, header.time_stamp))
            },
            Err(error) => Err(error),
        }
    }

    /// How many more bytes have to arrive before `get` can read a chunk.
    /// Zero says that the next chunk is there in full.
    pub fn demand(&self) -> (more: u64)
        ensures
            more == missing(self.unread()),
            more == 0 <==> parse_chunk(self.unread(), self.closed()) is Ok,
    {
        let available = self.read.available();
        match self.read.peek(16) {
            None => (16 - available) as u64,
            Some(bytes) => {
                let header = ChunkHeader::from_bytes(bytes);
                proof {
                    let unread = self.unread();
                    assert(unread.subrange(0, 16).subrange(0, 8) =~= unread.subrange(0, 8));
                }
                let payload = (available - 16) as u64;
                if header.size > payload {
                    header.size - payload
                } else {
                    0
                }
            },
        }
    }

    /// Hands bytes that have arrived to the stream's source.
    pub fn feed(&mut self, bytes: &[u8])
        ensures
            final(self).closed() == old(self).closed(),
            final(self).unread() == if old(self).closed() {
                old(self).unread()
            } else {
                old(self).unread() + bytes@
            },
    {
        self.read.feed(bytes);
    }

    /// Tells the stream that its source has closed.
    pub fn close(&mut self)
        ensures
            final(self).closed(),
            final(self).unread() == old(self).unread(),
    {
        self.read.close();
    }
}

} // verus!
