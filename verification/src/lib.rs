//! Verified core of a fleet-provisioning client: a device exchanges a
//! pre-installed claim identity for a unique certificate over a
//! publish/subscribe transport and registers itself with the backend.
//!
//! The crate holds the protocol state machine — subscription sequencing,
//! the certificate-creation and registration exchanges, and the codec of
//! their payloads — together with the state container that serializes
//! its transitions.  All transport and file I/O stays with the driver,
//! which interprets the command values the handler returns.

pub mod state;
pub mod store;
pub mod util;
pub mod codec;
pub mod handler;
pub mod laws;
