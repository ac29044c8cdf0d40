//! Control plane of a VPN tunnel client.
//!
//! The crate holds the decisions of the client: which locations have a live
//! tunnel, what is asked of the privileged interface daemon and what its
//! answers mean, how interface statistics are sampled and aggregated, and
//! which log watcher serves which interface. Reading the database, talking to
//! the daemon and publishing events is left to the program around it: where a
//! command has to wait for the world outside, it comes as a step that decides
//! what to ask and a step that takes the answer.
//!
//! Instants are counted in microseconds since the Unix epoch, in UTC.

pub mod error;
pub mod clock;
pub mod host;
pub mod cancel;
pub mod events;
pub mod naming;
pub mod location;
pub mod instance;
pub mod connection;
pub mod daemon;
pub mod registry;
pub mod stats;
pub mod log_watcher;
pub mod provisioning;
pub mod commands;
