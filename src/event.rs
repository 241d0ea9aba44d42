//! The event vocabulary shared by every encoding.
use vstd::prelude::*;

verus! {

/// A point in time, as nanoseconds since 1970-01-01T00:00:00Z.
#[derive(Clone, Copy, Debug, PartialEq, Eq, Structural)]
pub struct Date {
    pub nanos: i128,
}

/// The errors that decoders and encoders report.
#[derive(Clone, Debug, PartialEq)]
pub enum Error {
    /// The input is not a well-formed property list.
    InvalidData,
    /// The input ended before a complete item could be read.
    UnexpectedEof,
    /// The underlying stream failed; the text describes how.
    Io(String),
}

/// An encoding of a property list as a flat structure.
///
/// Dictionary keys and values come as pairs of events: the key as a
/// `StringValue`, then the event or events of its value.
///
/// The length carried by `StartArray` and `StartDictionary`, when present, is
/// the number of direct children (elements, or key/value pairs). It is a hint
/// for preallocation only: a consumer ends a container at its `End` event.
#[derive(Clone, Debug, PartialEq)]
pub enum Event {
    StartArray(Option<u64>),
    EndArray,
    StartDictionary(Option<u64>),
    EndDictionary,
    BooleanValue(bool),
    DataValue(Vec<u8>),
    DateValue(Date),
    IntegerValue(i64),
    /// A real number, as the bit pattern of an IEEE 754 binary64 value.
    RealValue(u64),
    StringValue(String),
}

/// A sink for event streams, implemented by each encoder.
///
/// A writer takes one event at a time and keeps its own record of nesting
/// and of pending dictionary keys between calls.
pub trait Writer {
    fn write(&mut self, event: &Event) -> Result<(), Error>;
}

} // verus!
