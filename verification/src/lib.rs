//! A persistent walk-up office-hours queue and the lifecycle of the
//! listener that serves it.
//!
//! The library holds the verified core: the ordered, file-backed queue of
//! student requests ([`queue`]), the document codec that gives the queue
//! its durability guarantee ([`codec`]), the start/stop state machine with
//! its bounded port negotiation ([`lifecycle`]), and the plain-text
//! formatting the core owes its callers ([`textfmt`]).

pub mod codec;
pub mod lifecycle;
pub mod queue;
pub mod textfmt;
