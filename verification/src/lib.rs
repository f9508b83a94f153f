//! Relays change notifications from a publish/subscribe channel to a dynamic
//! set of client sinks, and maps stored planet records to their wire form.

pub mod broadcaster;
pub mod calendar;
pub mod conversion;
pub mod error;
pub mod fanout;
pub mod framing;
pub mod rds;
pub mod text;
