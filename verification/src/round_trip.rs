use crate::error::ErrorView;
use crate::bytes::room_left;
use crate::io::{after_read, parse_message, parse_opening, recorded, text_of};
use crate::message::Message;
use crate::payload::{round_trips, Payload};
use crate::player::{replay, Replay};

use crate::wire::{
    chunk_bytes, lemma_chunk_round_trip, lemma_stream_header_round_trip, magic,
    stream_header_bytes, stream_prefix, CURRENT_VERSION,
};
use vstd::prelude::*;
use vstd::utf8::encode_utf8;

verus! {

/// The chunks of `messages`, one after the other: what an output stream
/// writes for them when each can be encoded and the sink has room.
pub open spec fn chunks<T: Payload>(messages: Seq<Message<T>>) -> Seq<u8>
    decreases messages.len(),
{
    if messages.len() == 0 {
        Seq::empty()
    } else {
        match messages[0].payload().spec_encode() {
            Some(encoded) => chunk_bytes(messages[0].time_stamp(), encoded) + chunks(
                messages.skip(1),
            ),
            None => Seq::empty(),
        }
    }
}

/// The text of a name survives the way through its bytes.
pub proof fn lemma_name_round_trip(name: Seq<char>)
    ensures
        text_of(encode_utf8(name)) == name,
{
    vstd::utf8::encode_utf8_valid_utf8(name);
    vstd::utf8::encode_utf8_decode_utf8(name);
}

/// What a stream begins with is accepted by a reader for the same payload
/// format, and exactly those bytes are consumed.
pub proof fn lemma_opening_round_trip(name: Seq<char>, rest: Seq<u8>, closed: bool)
    requires
        encode_utf8(name).len() <= u64::MAX,
    ensures
        parse_opening(stream_prefix(name) + rest, closed, name) == Ok::<Seq<u8>, ErrorView>(rest),
{
    let header = stream_header_bytes(magic(), CURRENT_VERSION);
    let chunk = chunk_bytes(0, encode_utf8(name));
    assert(stream_prefix(name) + rest =~= header + (chunk + rest));
    lemma_stream_header_round_trip(chunk + rest, closed);
    lemma_chunk_round_trip(0, encode_utf8(name), rest, closed);
    lemma_name_round_trip(name);
}

/// Header validation, the format name: a stream that was written for one
/// payload format is refused by a reader for a format with another name,
/// with `BadFormat`, which carries the writer's format name.
pub proof fn lemma_bad_format(written_for: Seq<char>, read_as: Seq<char>, rest: Seq<u8>, closed: bool)
    requires
        written_for != read_as,
        encode_utf8(written_for).len() <= u64::MAX,
    ensures
        parse_opening(stream_prefix(written_for) + rest, closed, read_as) == Err::<
            Seq<u8>,
            ErrorView,
        >(ErrorView::BadFormat(written_for)),
{
    let header = stream_header_bytes(magic(), CURRENT_VERSION);
    let chunk = chunk_bytes(0, encode_utf8(written_for));
    assert(stream_prefix(written_for) + rest =~= header + (chunk + rest));
    lemma_stream_header_round_trip(chunk + rest, closed);
    lemma_chunk_round_trip(0, encode_utf8(written_for), rest, closed);
    lemma_name_round_trip(written_for);
}

/// Appending messages that can all be encoded to a sink with room for them
/// writes their chunks, one after the other, behind what the sink held.
pub proof fn lemma_recorded_is_chunks<T: Payload>(
    bytes: Seq<u8>,
    capacity: nat,
    messages: Seq<Message<T>>,
)
    requires
        recorded(bytes, capacity, messages).1 is None,
    ensures
        recorded(bytes, capacity, messages).0 == bytes + chunks(messages),
        forall|i: int|
            0 <= i < messages.len() ==> (#[trigger] messages[i]).payload().spec_encode() is Some,
        bytes.len() + chunks(messages).len() <= capacity || messages.len() == 0,
    decreases messages.len(),
{
    if messages.len() == 0 {
        assert(bytes + chunks(messages) =~= bytes);
    } else {
        let encoded = messages[0].payload().spec_encode()->0;
        let chunk = chunk_bytes(messages[0].time_stamp(), encoded);
        vstd::bytes::lemma_auto_spec_u64_to_from_le_bytes();
        assert(chunk.len() >= 16);
        assert(chunk.len() <= room_left(bytes, capacity));
        lemma_recorded_is_chunks(bytes + chunk, capacity, messages.skip(1));
        if messages.skip(1).len() == 0 {
            assert(chunks(messages.skip(1)).len() == 0);
        }
        assert((bytes + chunk) + chunks(messages.skip(1)) =~= bytes + chunks(messages));
        assert forall|i: int| 0 <= i < messages.len() implies (#[trigger] messages[i]).payload().spec_encode() is Some by {
            if i > 0 {
                assert(messages.skip(1)[i - 1] == messages[i]);
            }
        }
    }
}

/// Reading the chunks of `messages` back from a closed source gives the
/// same messages, payload and time stamp, in the same order, and then the
/// clean end of the stream.
pub proof fn lemma_chunks_replay<T: Payload>(messages: Seq<Message<T>>)
    requires
        round_trips::<T>(),
        forall|i: int|
            0 <= i < messages.len() ==> {
                &&& (#[trigger] messages[i]).payload().spec_encode() is Some
                &&& messages[i].payload().spec_encode()->0.len() <= u64::MAX
            },
    ensures
        replay::<T>(chunks(messages), true) == (Replay::<T> {
            messages,
            rest: Seq::empty(),
            end: ErrorView::RegularEof,
        }),
    decreases messages.len(),
{
    if messages.len() == 0 {
        assert(replay::<T>(chunks(messages), true).messages =~= messages);
    } else {
        let first = messages[0];
        let encoded = first.payload().spec_encode()->0;
        let tail = chunks(messages.skip(1));
        assert forall|i: int| 0 <= i < messages.skip(1).len() implies {
            &&& (#[trigger] messages.skip(1)[i]).payload().spec_encode() is Some
            &&& messages.skip(1)[i].payload().spec_encode()->0.len() <= u64::MAX
        } by {
            assert(messages.skip(1)[i] == messages[i + 1]);
        }
        lemma_chunks_replay::<T>(messages.skip(1));
        lemma_chunk_round_trip(first.time_stamp(), encoded, tail, true);
        assert(T::spec_decode(encoded) == Some(first.payload()));
        Message::<T>::lemma_of(first.time_stamp(), first.payload());
        first.lemma_equal_by_parts(Message::of(first.time_stamp(), first.payload()));
        assert(parse_message::<T>(chunks(messages), true) == Ok::<Message<T>, ErrorView>(first));
        assert(after_read(chunks(messages), true) == tail);
        assert(seq![first] + messages.skip(1) =~= messages);
    }
}

/// The wire round trip: where a stream was opened over an empty sink and
/// `messages` were appended to it without failure, a reader for the same
/// payload format that gets the sink's bytes as a finished source opens
/// the stream, reads the same messages back, payload and time stamp, in
/// the same order, and then meets the clean end of the stream. The
/// payload's codec has to be faithful.
pub proof fn lemma_stream_round_trip<T: Payload>(capacity: nat, messages: Seq<Message<T>>)
    requires
        round_trips::<T>(),
        capacity <= usize::MAX,
        stream_prefix(T::spec_format_name()).len() <= capacity,
        recorded(stream_prefix(T::spec_format_name()), capacity, messages).1 is None,
    ensures
        ({
            let sink = recorded(stream_prefix(T::spec_format_name()), capacity, messages).0;
            &&& parse_opening(sink, true, T::spec_format_name()) == Ok::<Seq<u8>, ErrorView>(
                chunks(messages),
            )
            &&& replay::<T>(chunks(messages), true) == (Replay::<T> {
                messages,
                rest: Seq::empty(),
                end: ErrorView::RegularEof,
            })
        }),
{
    let name = T::spec_format_name();
    let prefix = stream_prefix(name);
    lemma_recorded_is_chunks(prefix, capacity, messages);
    lemma_prefix_holds_name(name);
    lemma_opening_round_trip(name, chunks(messages), true);
    lemma_chunk_sizes(messages);
    lemma_chunks_replay::<T>(messages);
}

/// The name chunk is part of the prefix, so the name's bytes are no longer
/// than the prefix.
proof fn lemma_prefix_holds_name(name: Seq<char>)
    ensures
        encode_utf8(name).len() <= stream_prefix(name).len(),
{
}

/// Every payload is part of its chunk, so no payload is longer than all
/// the chunks together.
proof fn lemma_chunk_sizes<T: Payload>(messages: Seq<Message<T>>)
    requires
        forall|i: int|
            0 <= i < messages.len() ==> (#[trigger] messages[i]).payload().spec_encode() is Some,
    ensures
        forall|i: int|
            0 <= i < messages.len() ==> (#[trigger] messages[i]).payload().spec_encode()->0.len()
                <= chunks(messages).len(),
    decreases messages.len(),
{
    if messages.len() > 0 {
        assert forall|i: int| 0 <= i < messages.skip(1).len() implies (#[trigger] messages.skip(
            1,
        )[i]).payload().spec_encode() is Some by {
            assert(messages.skip(1)[i] == messages[i + 1]);
        }
        lemma_chunk_sizes(messages.skip(1));
        assert forall|i: int| 0 <= i < messages.len() implies (#[trigger] messages[i]).payload().spec_encode()->0.len()
            <= chunks(messages).len() by {
            if i > 0 {
                assert(messages.skip(1)[i - 1] == messages[i]);
            }
        }
    }
}

} // verus!
