//! A shared request counter: a count that only grows, a service that hands
//! out its increments to concurrent callers under a lock, and the text of the
//! reply that reports a count.

pub mod counter;
pub mod message;
pub mod service;
