//! Session coordination and time-series queries for a profiling relay.
//!
//! The relay serves two kinds of profiling sessions to a dashboard: live
//! ones, fed by a remote agent, and ones backed by a sample file. This crate
//! holds what the relay decides and computes, and leaves sockets, files and
//! threads to its caller:
//!
//! - `timeseries`: the sample file's header and records, and downsampled
//!   range queries over them;
//! - `session`: the two kinds of session and what they know of their samples;
//! - `profiler`: the coordinator, which owns the sessions under their
//!   identifiers and holds the server's liveness flag;
//! - `protocol`: requests, responses, failures, and the outside work that a
//!   command may wait for;
//! - `json` and `decode`: from the text of a frame to a request;
//! - `handlers`: how each command is answered;
//! - `connection`: what a connection does on each frame, and whether a
//!   client is taken at all.

pub mod connection;
pub mod decode;
pub mod handlers;
pub mod json;
pub mod profiler;
pub mod protocol;
pub mod session;
pub mod timeseries;

pub use crate::profiler::Profiler;
pub use crate::protocol::FlareResponse;
