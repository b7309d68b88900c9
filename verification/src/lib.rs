//! An in-process publish/subscribe message bus with a binary wire format,
//! verified with Verus.
//!
//! Producers push timestamped messages onto a [`Channel`], which delivers a
//! copy to the mailbox of every registered [`Consumer`]. An
//! [`OutputStream`] frames messages for a byte sink, and an [`InputStream`]
//! reads them back from a byte source.
//!
//! The library decides and computes; it neither blocks nor touches a file.
//! A channel is an ordinary value with one owner, and its mailboxes live in
//! it. Where a reader would have to wait, the library says so and returns:
//! a blocking pull on an empty mailbox parks the reader and gives `None`,
//! and a read from a source that has not delivered enough gives
//! `WouldBlock`. The caller that owns the threads and the files does the
//! waiting and comes back.
//!
//! Every contract is stated over a mathematical model: a mailbox is a
//! `QueueView`, a channel the sequence of its mailboxes, a stream the
//! sequence of its bytes.

pub mod bytes;
pub mod channel;
pub mod clock;
pub mod codec;
pub mod error;
pub mod flag;
pub mod io;
pub mod keyboard;
pub mod message;
pub mod payload;
pub mod player;
pub mod queue;
pub mod recorder;
pub mod round_trip;
pub mod test_payload;
pub mod threaded_consumer;
pub mod wire;

pub use bytes::{ByteSink, ByteSource};
pub use channel::{Channel, Consumer, Producer};
pub use clock::Clock;
pub use error::{Error, ErrorView, IoErrorKind};
pub use flag::{atomic_flag, AtomicFlagReader, AtomicFlagWriter};
pub use io::{InputStream, OutputStream};
pub use message::Message;
pub use payload::Payload;
pub use player::Player;
pub use queue::{Queue, QueueData, QueueView, Waker};
pub use recorder::Recorder;
pub use test_payload::{EmptyPayload, TestPayload};
pub use threaded_consumer::{ShutdownStep, ThreadedConsumer, WorkerState};
