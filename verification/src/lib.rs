//! Verified core of a camera-fleet indexer.
//!
//! The library models the logic of managing a fleet of network video
//! recorders that speak a JSON-RPC-style protocol over HTTP: deriving login
//! credentials from a server challenge, the per-device session state machine,
//! the cursor-based media-file enumeration protocol, splitting long time
//! windows into bounded scan chunks, and the pending/active/completed scan
//! lifecycle with its one-active-scan-per-camera and monotone-cursor
//! invariants. All I/O (HTTP, clock, persistence technology) stays outside;
//! the functions here turn plain values into plain values and carry contracts
//! for every step.

pub mod strutil;
pub mod auth;
pub mod rpc;
pub mod mediafile;
pub mod session;
pub mod scan;
pub mod scanstore;
pub mod query;
pub mod filestore;
pub mod devinfo;
pub mod page;
pub mod registry;
