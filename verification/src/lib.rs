//! Graceful shutdown of a single network listener.
//!
//! A process that serves requests has to stop cleanly when the operating
//! system asks it to: tell the listener to stop accepting, let the requests
//! that are already in flight finish, and only then exit.  This crate holds
//! the decisions of that lifecycle as small state machines.  None of them
//! performs any input or output: each takes what happened and says what has
//! to be done next, and the program around them does it.

pub mod coordinator;
pub mod http;
pub mod lifecycle;
pub mod logging;
pub mod signal;
pub mod trigger;
