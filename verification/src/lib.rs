//! Translation core of a header-directed HTTP forwarding proxy.
//!
//! An inbound request names its destination in the `Salt-Host` header. The
//! library turns such a request into the outbound request for that destination,
//! turns the destination's response into the response for the caller, and parses
//! the configuration string of an optional upstream proxy. Every function is
//! pure: the listening socket, the outbound client and the logging live outside.

pub mod error;
pub mod header;
pub mod proxy;
pub mod relay;
pub mod request;
pub mod response;
pub mod text;
pub mod wire;
