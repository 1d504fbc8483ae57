//! Client-side implementation of the ISCP receiver-control protocol:
//! binary message framing, broadcast discovery reply parsing, the
//! command builder that maps named actions to wire command/parameter
//! pairs, and the registry of known devices with a textual snapshot
//! format.
//!
//! All network and file I/O lives outside this crate; the functions
//! here compute frames, parse datagrams and snapshots, and maintain
//! the device registry, each under a verified contract.

pub mod application;
pub mod commands;
pub mod device;
pub mod discover;
pub mod message;
pub mod remote;
