//! A local peer-discovery service: hosts announce themselves by UDP
//! broadcast, record the peers they hear from in a shared registry, and
//! connect to them over TCP, exchanging framed file-transfer messages.
//! A small chat-session layer rides along: conversations kept as ordered
//! message lists, addressed by session identifier.
use vstd::prelude::*;

pub mod ip;
pub mod llm;
pub mod registry;
pub mod tcp;
pub mod udp;
pub mod utils;
pub mod web;

verus! {

/// The fixed UDP port on which presence announcements are broadcast.
pub const BROADCAST_PORT: u16 = 5000;

/// The fixed TCP port on which peer sessions are accepted.
pub const SESSION_PORT: u16 = 7878;

} // verus!
