use crate::codec::{
    bincode_decode_u64, bincode_encode_u64, lemma_varint_round_trip, varint_bytes, varint_value,
};
use crate::payload::{round_trips, Payload};
use vstd::prelude::*;

verus! {

/// A payload that carries one number.
#[derive(Debug, PartialEq, Eq, Structural)]
pub struct TestPayload {
    pub data: usize,
}

impl TestPayload {
    /// The number carried.
    pub open spec fn spec_value(&self) -> usize {
        self.data
    }

    pub fn new(data: usize) -> (payload: Self)
        ensures
            payload.spec_value() == data,
    {
        Self { data }
    }

    /// Whether the payload carries `value`.
    pub fn check(&self, value: usize) -> (same: bool)
        ensures
            same == (self.spec_value() == value),
    {
        self.data == value
    }

    pub fn value(&self) -> (value: usize)
        ensures
            value == self.spec_value(),
    {
        self.data
    }
}

impl Default for TestPayload {
    fn default() -> (payload: Self)
        ensures
            payload.spec_value() == 0,
    {
        Self::new(0)
    }
}

impl Payload for TestPayload {
    open spec fn spec_format_name() -> Seq<char> {
        "vbus_core::test_payload::TestPayload"@
    }

    /// The number as a 64-bit integer in the variable-length encoding.
    open spec fn spec_encode(&self) -> Option<Seq<u8>> {
        Some(varint_bytes(self.spec_value() as u64))
    }

    /// The integer at the front of `bytes`, if it fits a `usize`.
    open spec fn spec_decode(bytes: Seq<u8>) -> Option<Self> {
        match varint_value(bytes) {
            Some((value, _)) => if value <= usize::MAX {
                Some(TestPayload { data: value as usize })
            } else {
                None
            },
            None => None,
        }
    }

    fn format_name() -> (name: &'static str) {
        "vbus_core::test_payload::TestPayload"
    }

    fn encode(&self) -> (bytes: Option<Vec<u8>>) {
        match bincode_encode_u64(self.data as u64) {
            Ok(bytes) => Some(bytes),
            Err(_) => None,
        }
    }

    fn decode(bytes: &[u8]) -> (value: Option<Self>) {
        match bincode_decode_u64(bytes) {
            Ok((value, _)) => if value <= usize::MAX as u64 {
                Some(TestPayload { data: value as usize })
            } else {
                None
            },
            Err(_) => None,
        }
    }
}

/// The codec of `TestPayload` is faithful.
pub proof fn lemma_test_payload_round_trips()
    ensures
        round_trips::<TestPayload>(),
{
    assert forall|value: TestPayload|
        (#[trigger] value.spec_encode()) matches Some(bytes) ==> TestPayload::spec_decode(bytes)
            == Some(value) by {
        lemma_varint_round_trip(value.data as u64, Seq::empty());
        assert(varint_bytes(value.data as u64) + Seq::<u8>::empty() =~= varint_bytes(
            value.data as u64,
        ));
    }
}

/// The codec of `EmptyPayload` is faithful.
pub proof fn lemma_empty_payload_round_trips()
    ensures
        round_trips::<EmptyPayload>(),
{
}

/// A payload that carries nothing: it is encoded as no bytes at all.
#[derive(Debug, PartialEq, Eq, Structural)]
pub struct EmptyPayload {}

impl Default for EmptyPayload {
    fn default() -> (payload: Self) {
        EmptyPayload {  }
    }
}

impl Payload for EmptyPayload {
    open spec fn spec_format_name() -> Seq<char> {
        "vbus_core::test_payload::EmptyPayload"@
    }

    open spec fn spec_encode(&self) -> Option<Seq<u8>> {
        Some(Seq::empty())
    }

    open spec fn spec_decode(bytes: Seq<u8>) -> Option<Self> {
        Some(EmptyPayload {  })
    }

    fn format_name() -> (name: &'static str) {
        "vbus_core::test_payload::EmptyPayload"
    }

    fn encode(&self) -> (bytes: Option<Vec<u8>>) {
        Some(Vec::new())
    }

    fn decode(bytes: &[u8]) -> (value: Option<Self>) {
        Some(EmptyPayload {  })
    }
}

} // verus!
