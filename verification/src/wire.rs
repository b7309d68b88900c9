use crate::error::{ErrorView, IoErrorKind};
use vstd::bytes::{
    lemma_auto_spec_u16_to_from_le_bytes, lemma_auto_spec_u64_to_from_le_bytes,
    spec_u16_from_le_bytes, spec_u16_to_le_bytes, spec_u64_from_le_bytes, spec_u64_to_le_bytes,
    u16_from_le_bytes, u16_to_le_bytes, u64_from_le_bytes, u64_to_le_bytes,
};
use vstd::prelude::*;
use vstd::slice::slice_subrange;
use vstd::utf8::encode_utf8;

verus! {

/// The four bytes that open every stream: the letters V, B, U, S.
pub const MAGIC: [u8; 4] = [0x56, 0x42, 0x55, 0x53];

/// The format version that this library writes and accepts.
pub const CURRENT_VERSION: u16 = 1;

/// The length of a stream header on the wire.
pub const STREAM_HEADER_SIZE: usize = 6;

/// The length of a chunk header on the wire.
pub const CHUNK_HEADER_SIZE: usize = 16;

/// The magic bytes as a sequence.
pub open spec fn magic() -> Seq<u8> {
    seq![0x56u8, 0x42u8, 0x55u8, 0x53u8]
}

/// The wire form of a stream header: the magic bytes, then the version in
/// little-endian order.
pub open spec fn stream_header_bytes(magic: Seq<u8>, version: u16) -> Seq<u8> {
    magic + spec_u16_to_le_bytes(version)
}

/// The wire form of a chunk header: the payload length and the time stamp,
/// eight little-endian bytes each.
pub open spec fn chunk_header_bytes(size: u64, time_stamp: u64) -> Seq<u8> {
    spec_u64_to_le_bytes(size) + spec_u64_to_le_bytes(time_stamp)
}

/// The wire form of a chunk: its header, then the payload.
pub open spec fn chunk_bytes(time_stamp: u64, payload: Seq<u8>) -> Seq<u8> {
    chunk_header_bytes(payload.len() as u64, time_stamp) + payload
}

/// What every stream for the payload format `name` begins with: the stream
/// header, then a chunk that holds the name.
pub open spec fn stream_prefix(name: Seq<char>) -> Seq<u8> {
    stream_header_bytes(magic(), CURRENT_VERSION) + chunk_bytes(0, encode_utf8(name))
}

/// The payload length that the first sixteen bytes of `unread` announce.
pub open spec fn announced_size(unread: Seq<u8>) -> u64 {
    spec_u64_from_le_bytes(unread.subrange(0, 8))
}

/// The time stamp that the first sixteen bytes of `unread` carry.
pub open spec fn announced_stamp(unread: Seq<u8>) -> u64 {
    spec_u64_from_le_bytes(unread.subrange(8, 16))
}

/// The version that the first six bytes of `unread` carry.
pub open spec fn announced_version(unread: Seq<u8>) -> u16 {
    spec_u16_from_le_bytes(unread.subrange(4, 6))
}

/// The failure of a read that needs more bytes than are there: the end came
/// too early if the source is closed, and the caller has to wait if it is
/// still open.
pub open spec fn shortfall(closed: bool) -> IoErrorKind {
    if closed {
        IoErrorKind::UnexpectedEof
    } else {
        IoErrorKind::WouldBlock
    }
}

/// One chunk read from the front of a byte sequence, and what follows it.
pub struct ChunkView {
    pub time_stamp: u64,
    pub payload: Seq<u8>,
    pub rest: Seq<u8>,
}

/// How many more bytes have to arrive before the chunk at the front of
/// `unread` is complete.
pub open spec fn missing(unread: Seq<u8>) -> int {
    if unread.len() < 16 {
        16 - unread.len()
    } else if announced_size(unread) > unread.len() - 16 {
        announced_size(unread) - (unread.len() - 16)
    } else {
        0
    }
}

/// Reading one chunk from `unread`. A closed source with nothing left has
/// ended cleanly. Otherwise the chunk must be there in full, header and
/// payload; it is then split off, and exactly its bytes are consumed.
pub open spec fn parse_chunk(unread: Seq<u8>, closed: bool) -> Result<ChunkView, ErrorView> {
    if unread.len() == 0 && closed {
        Err(ErrorView::RegularEof)
    } else if missing(unread) > 0 {
        Err(ErrorView::StdIo(shortfall(closed)))
    } else {
        let end = 16 + announced_size(unread);
        Ok(
            ChunkView {
                time_stamp: announced_stamp(unread),
                payload: unread.subrange(16, end),
                rest: unread.skip(end),
            },
        )
    }
}

/// Checking the stream header at the front of `unread`: `Ok` holds what
/// follows the header.
pub open spec fn parse_stream_header(unread: Seq<u8>, closed: bool) -> Result<Seq<u8>, ErrorView> {
    if unread.len() < 6 {
        Err(ErrorView::StdIo(shortfall(closed)))
    } else if unread.subrange(0, 4) != magic() {
        Err(ErrorView::BadHeader)
    } else if announced_version(unread) != CURRENT_VERSION {
        Err(ErrorView::BadVersion(announced_version(unread)))
    } else {
        Ok(unread.skip(6))
    }
}

/// A record with a fixed layout on the wire.
pub trait WireRecord {
    /// The bytes of the record.
    spec fn wire(&self) -> Seq<u8>;

    /// Lays the record out, field by field.
    fn to_bytes(&self) -> (bytes: Vec<u8>)
        ensures
            bytes@ == self.wire(),
    ;
}

/// The record at the start of a stream.
pub struct StreamHeader {
    pub magic: [u8; 4],
    pub version: u16,
}

impl Default for StreamHeader {
    fn default() -> (header: Self)
        ensures
            header.magic@ == magic(),
            header.version == CURRENT_VERSION,
    {
        let header = Self { magic: MAGIC, version: CURRENT_VERSION };
        assert(header.magic@ =~= magic());
        header
    }
}

impl WireRecord for StreamHeader {
    open spec fn wire(&self) -> Seq<u8> {
        stream_header_bytes(self.magic@, self.version)
    }

    fn to_bytes(&self) -> (bytes: Vec<u8>) {
        let mut bytes: Vec<u8> = Vec::new();
        bytes.push(self.magic[0]);
        bytes.push(self.magic[1]);
        bytes.push(self.magic[2]);
        bytes.push(self.magic[3]);
        assert(bytes@ =~= self.magic@);
        let mut version = u16_to_le_bytes(self.version);
        bytes.append(&mut version);
        bytes
    }
}

impl StreamHeader {
    /// Reads a header back from its six bytes.
    pub fn from_bytes(bytes: &[u8]) -> (header: Self)
        requires
            bytes@.len() == 6,
        ensures
            header.magic@ == bytes@.subrange(0, 4),
            header.version == announced_version(bytes@),
            header.wire() == bytes@,
    {
        let magic: [u8; 4] = [bytes[0], bytes[1], bytes[2], bytes[3]];
        let version = u16_from_le_bytes(slice_subrange(bytes, 4, 6));
        let header = Self { magic, version };
        proof {
            lemma_auto_spec_u16_to_from_le_bytes();
            assert(header.magic@ =~= bytes@.subrange(0, 4));
            assert(header.wire() =~= bytes@.subrange(0, 4) + bytes@.subrange(4, 6));
            assert(bytes@.subrange(0, 4) + bytes@.subrange(4, 6) =~= bytes@);
        }
        header
    }
}

/// The record in front of every payload.
pub struct ChunkHeader {
    pub size: u64,
    pub time_stamp: u64,
}

impl WireRecord for ChunkHeader {
    open spec fn wire(&self) -> Seq<u8> {
        chunk_header_bytes(self.size, self.time_stamp)
    }

    fn to_bytes(&self) -> (bytes: Vec<u8>) {
        let mut bytes = u64_to_le_bytes(self.size);
        let mut time_stamp = u64_to_le_bytes(self.time_stamp);
        bytes.append(&mut time_stamp);
        bytes
    }
}

impl ChunkHeader {
    pub fn new(size: usize, time_stamp: u64) -> (header: Self)
        ensures
            header.size == size,
            header.time_stamp == time_stamp,
    {
        Self { size: size as u64, time_stamp }
    }

    /// Reads a header back from its sixteen bytes.
    pub fn from_bytes(bytes: &[u8]) -> (header: Self)
        requires
            bytes@.len() == 16,
        ensures
            header.size == announced_size(bytes@),
            header.time_stamp == announced_stamp(bytes@),
            header.wire() == bytes@,
    {
        let size = u64_from_le_bytes(slice_subrange(bytes, 0, 8));
        let time_stamp = u64_from_le_bytes(slice_subrange(bytes, 8, 16));
        let header = Self { size, time_stamp };
        proof {
            lemma_auto_spec_u64_to_from_le_bytes();
            assert(header.wire() =~= bytes@.subrange(0, 8) + bytes@.subrange(8, 16));
            assert(bytes@.subrange(0, 8) + bytes@.subrange(8, 16) =~= bytes@);
        }
        header
    }
}

/// The payload of a chunk and the time stamp that goes with it.
pub struct ChunkData(pub Vec<u8>, pub u64);

/// A chunk that was written is read back as it was, and exactly its bytes
/// are consumed, whatever follows it and whether or not the source is closed.
pub proof fn lemma_chunk_round_trip(time_stamp: u64, payload: Seq<u8>, rest: Seq<u8>, closed: bool)
    requires
        payload.len() <= u64::MAX,
    ensures
        parse_chunk(chunk_bytes(time_stamp, payload) + rest, closed) == Ok::<ChunkView, ErrorView>(
            ChunkView { time_stamp, payload, rest },
        ),
        missing(chunk_bytes(time_stamp, payload) + rest) == 0,
{
    lemma_auto_spec_u64_to_from_le_bytes();
    let size = payload.len() as u64;
    let unread = chunk_bytes(time_stamp, payload) + rest;
    assert(spec_u64_to_le_bytes(size).len() == 8);
    assert(spec_u64_to_le_bytes(time_stamp).len() == 8);
    assert(unread.subrange(0, 8) =~= spec_u64_to_le_bytes(size));
    assert(unread.subrange(8, 16) =~= spec_u64_to_le_bytes(time_stamp));
    assert(unread.subrange(16, 16 + size) =~= payload);
    assert(unread.skip(16 + size) =~= rest);
}

/// A source that has ended at the boundary of a chunk reports a clean end.
pub proof fn lemma_clean_end()
    ensures
        parse_chunk(Seq::<u8>::empty(), true) == Err::<ChunkView, ErrorView>(ErrorView::RegularEof),
{
}

/// A stream header that was written is accepted, and exactly its bytes are
/// consumed.
pub proof fn lemma_stream_header_round_trip(rest: Seq<u8>, closed: bool)
    ensures
        parse_stream_header(stream_header_bytes(magic(), CURRENT_VERSION) + rest, closed) == Ok::<
            Seq<u8>,
            ErrorView,
        >(rest),
{
    lemma_auto_spec_u16_to_from_le_bytes();
    let unread = stream_header_bytes(magic(), CURRENT_VERSION) + rest;
    assert(spec_u16_to_le_bytes(CURRENT_VERSION).len() == 2);
    assert(unread.subrange(0, 4) =~= magic());
    assert(unread.subrange(4, 6) =~= spec_u16_to_le_bytes(CURRENT_VERSION));
    assert(unread.skip(6) =~= rest);
}

/// A stream whose first four bytes are not the magic bytes is refused with
/// `BadHeader`, whatever follows.
pub proof fn lemma_bad_magic(unread: Seq<u8>, closed: bool)
    requires
        unread.len() >= 6,
        unread.subrange(0, 4) != magic(),
    ensures
        parse_stream_header(unread, closed) == Err::<Seq<u8>, ErrorView>(ErrorView::BadHeader),
{
}

/// A stream header with another version than the current one is refused
/// with `BadVersion`, which carries that version.
pub proof fn lemma_bad_version(version: u16, rest: Seq<u8>, closed: bool)
    requires
        version != CURRENT_VERSION,
    ensures
        parse_stream_header(stream_header_bytes(magic(), version) + rest, closed) == Err::<
            Seq<u8>,
            ErrorView,
        >(ErrorView::BadVersion(version)),
{
    lemma_auto_spec_u16_to_from_le_bytes();
    let unread = stream_header_bytes(magic(), version) + rest;
    assert(spec_u16_to_le_bytes(version).len() == 2);
    assert(unread.subrange(0, 4) =~= magic());
    assert(unread.subrange(4, 6) =~= spec_u16_to_le_bytes(version));
}

} // verus!
