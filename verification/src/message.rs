use crate::payload::Payload;
use std::sync::Arc;
use vstd::prelude::*;

verus! {

/// The contents of a message: when it was created and what it carries.
pub struct MessageData<T: Payload> {
    pub time_stamp: u64,
    pub payload: T,
}

impl<T: Payload> MessageData<T> {
    pub fn new(time_stamp: u64, payload: T) -> (data: Self)
        ensures
            data.time_stamp == time_stamp,
            data.payload == payload,
    {
        Self { time_stamp, payload }
    }
}

/// An immutable envelope around a payload. Cloning shares the contents.
pub struct Message<T: Payload> {
    message_data: Arc<MessageData<T>>,
}

/// `Arc::clone`: the new handle points at the same value.
#[verifier::external_body]
pub(crate) fn share<V>(handle: &Arc<V>) -> (shared: Arc<V>)
    ensures
        shared == *handle,
{
    Arc::clone(handle)
}

impl<T: Payload> Message<T> {
    /// The creation time, in nanoseconds of the monotonic clock.
    pub closed spec fn time_stamp(&self) -> u64 {
        self.message_data.time_stamp
    }

    /// The payload carried.
    pub closed spec fn payload(&self) -> T {
        self.message_data.payload
    }

    /// The message with the given time stamp and payload.
    pub closed spec fn of(time_stamp: u64, payload: T) -> Self {
        Message { message_data: Arc::new(MessageData { time_stamp, payload }) }
    }

    pub fn new(time_stamp: u64, payload: T) -> (message: Self)
        ensures
            message == Self::of(time_stamp, payload),
            message.time_stamp() == time_stamp,
            message.payload() == payload,
    {
        Self { message_data: Arc::new(MessageData::new(time_stamp, payload)) }
    }

    pub fn get_type_stamp(&self) -> (time_stamp: u64)
        ensures
            time_stamp == self.time_stamp(),
    {
        self.message_data.time_stamp
    }

    pub fn get_payload(&self) -> (payload: &T)
        ensures
            *payload == self.payload(),
    {
        &self.message_data.payload
    }

    /// A message is made of its time stamp and its payload, and of nothing
    /// else.
    pub proof fn lemma_of(time_stamp: u64, payload: T)
        ensures
            Self::of(time_stamp, payload).time_stamp() == time_stamp,
            Self::of(time_stamp, payload).payload() == payload,
    {
    }

    /// Two messages with the same time stamp and payload are the same value.
    pub proof fn lemma_equal_by_parts(self, other: Self)
        requires
            self.time_stamp() == other.time_stamp(),
            self.payload() == other.payload(),
        ensures
            self == other,
    {
    }
}

impl<T: Payload> std::ops::Deref for Message<T> {
    type Target = T;

    fn deref(&self) -> (payload: &T)
        ensures
            *payload == self.payload(),
    {
        self.get_payload()
    }
}

impl<T: Payload> Clone for Message<T> {
    fn clone(&self) -> (copy: Self)
        ensures
            copy == *self,
    {
        Self { message_data: share(&self.message_data) }
    }
}

} // verus!
