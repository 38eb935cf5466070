//! Busy-only views of iCalendar documents.
//!
//! A calendar text is decoded into a [`model::CalendarDocument`], the events
//! that are marked as not blocking time are removed, and the rest is encoded
//! again. Decoding and encoding are done by the `icalendar` crate; what is
//! kept and what is dropped is decided, and proved, here. So is what is
//! handed to `icalendar` at all: texts that it reads line by line as their
//! frame is, and components of bounded depth of which every line can be
//! folded.

pub mod filter;
pub mod folding;
pub mod framing;
pub mod ical;
pub mod model;
pub mod nesting;
pub mod parser;
pub mod relay;
pub mod serializer;
pub mod text;
pub mod white;
