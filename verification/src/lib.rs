//! A replicated queue: nodes keep a log of queue operations, a leader
//! replicates client requests to its followers and commits them once a
//! majority has accepted, and followers elect a new leader when the
//! leader falls silent.
//!
//! Everything in this crate is plain state and decisions; the network,
//! the clock and JSON live in the program around it.

pub mod operation;
pub mod text;
pub mod random;
pub mod node;
pub mod routes;
pub mod repair;
pub mod client;
pub mod dashboard;
pub mod laws;
pub mod args;
