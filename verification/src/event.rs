//! The records of access that the mount hands to its observer.
use std::sync::Arc;
use vstd::prelude::*;

verus! {

/// One read: the file's name and the range that was asked for.
#[derive(Eq, PartialEq, Debug, Clone)]
pub struct ReadEvent {
    pub file: Arc<String>,
    pub offset: usize,
    pub size: usize,
}

#[derive(Eq, PartialEq, Debug, Clone)]
pub enum EventType {
    Read(ReadEvent),
}

/// A moment in UTC: whole seconds since the epoch, and the nanoseconds
/// within the second.
#[derive(Eq, PartialEq, Debug, Clone, Copy)]
pub struct Timestamp {
    pub secs: i64,
    pub nanos: u32,
}

#[derive(Eq, PartialEq, Debug, Clone)]
pub struct Event {
    pub time: Timestamp,
    pub event: EventType,
}

/// Reads the clock through `chrono::Utc::now`, and takes the moment apart
/// with `DateTime::timestamp` and `DateTime::timestamp_subsec_nanos`.
/// Nothing is claimed of the moment. chrono stops the program where the
/// system clock stands before the epoch.
#[verifier::external_body]
pub(crate) fn now() -> (time: Timestamp) {
    let moment = chrono::Utc::now();
    Timestamp { secs: moment.timestamp(), nanos: moment.timestamp_subsec_nanos() }
}

impl Event {
    /// Whether this is the record of a read of `size` bytes at `offset` from
    /// the file `file`.
    pub open spec fn is_read_of(self, file: Seq<char>, offset: usize, size: usize) -> bool {
        match self.event {
            EventType::Read(read) => read.file@ == file && read.offset == offset && read.size
                == size,
        }
    }

    /// The record of a read that was asked for at `time`.
    pub fn read_at(time: Timestamp, file: Arc<String>, offset: usize, size: usize) -> (event: Event)
        ensures
            event.time == time,
            event.is_read_of(file@, offset, size),
    {
        Event { time, event: EventType::Read(ReadEvent { file, offset, size }) }
    }

    /// The record of a read that is asked for now. Which moment the clock
    /// gives is not known beforehand.
    pub fn read_now(file: Arc<String>, offset: usize, size: usize) -> (event: Event)
        ensures
            event.is_read_of(file@, offset, size),
    {
        Self::read_at(now(), file, offset, size)
    }
}

} // verus!
