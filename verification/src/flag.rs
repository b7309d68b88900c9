use crate::message::share;
use std::sync::atomic::AtomicBool;
use std::sync::atomic::Ordering;
use std::sync::Arc;
use vstd::prelude::*;

verus! {

/// A stop flag in its two halves: one that reads it and one that raises it.
/// The flag starts lowered.
///
/// The two halves share one atomic cell. Verified code learns nothing of
/// what such a cell holds, so no contract here speaks of the value read:
/// it depends on what every holder of the writing half has done so far.
pub fn atomic_flag() -> (halves: (AtomicFlagReader, AtomicFlagWriter))
    ensures
        halves.0.cell() == halves.1.cell(),
{
    let flag = Arc::new(AtomicBool::new(false));
    (AtomicFlagReader::new(share(&flag)), AtomicFlagWriter::new(flag))
}

/// The half of a stop flag that reads it.
pub struct AtomicFlagReader {
    flag: Arc<AtomicBool>,
}

impl AtomicFlagReader {
    /// The cell that this half reads.
    pub closed spec fn cell(&self) -> Arc<AtomicBool> {
        self.flag
    }

    /// A reading half on the cell `flag`.
    pub fn new(flag: Arc<AtomicBool>) -> (reader: Self)
        ensures
            reader.cell() == flag,
    {
        Self { flag }
    }

    /// Whether the flag was raised, as far as this thread can see.
    pub fn check(&self) -> (raised: bool) {
        self.flag.load(Ordering::Relaxed)
    }
}

impl Clone for AtomicFlagReader {
    fn clone(&self) -> (copy: Self) {
        Self { flag: share(&self.flag) }
    }
}

/// The half of a stop flag that raises it.
pub struct AtomicFlagWriter {
    flag: Arc<AtomicBool>,
}

impl AtomicFlagWriter {
    /// The cell that this half writes.
    pub closed spec fn cell(&self) -> Arc<AtomicBool> {
        self.flag
    }

    /// A writing half on the cell `flag`.
    pub fn new(flag: Arc<AtomicBool>) -> (writer: Self)
        ensures
            writer.cell() == flag,
    {
        Self { flag }
    }

    /// Raises the flag. It is never lowered again.
    pub fn raise(&mut self) {
        self.flag.store(true, Ordering::Relaxed);
    }
}

impl Clone for AtomicFlagWriter {
    fn clone(&self) -> (copy: Self) {
        Self { flag: share(&self.flag) }
    }
}

} // verus!
