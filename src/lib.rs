//! Property lists as flat streams of events.
//!
//! A property-list value is a tree of arrays and dictionaries over scalar
//! leaves. This crate turns such a tree into a flat, stack-balanced sequence
//! of [`Event`]s, and selects the decoder for an encoded stream by its
//! leading signature.

pub mod event;
pub mod value;
pub mod events;
pub mod reader;
pub mod replay;

pub use event::{Date, Error, Event, Writer};
pub use events::IntoEvents;
pub use reader::{Encoding, Probe, ProbeAction, Reader};
pub use value::{Tree, Value};
