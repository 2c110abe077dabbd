//! A verified client-side model of a network-management service's object
//! tree: connection records, their IPv4 settings, optional wireless
//! settings, and the enumeration protocol that assembles them from remote
//! property reads.
//!
//! The bus transport itself is not part of this crate; callers perform the
//! remote reads and feed each outcome into [`client::Enumeration`], which
//! makes every decision (which path to query next, which failures abort the
//! enumeration, which are swallowed) in verified code.

pub mod address;
pub mod client;
pub mod model;
