//! An HTTP-to-UDP relay gateway: requests carry an opaque payload that is
//! forwarded verbatim as a single UDP datagram to a caller-chosen
//! destination, subject to an optional destination allowlist.
//!
//! This crate holds the verified core: the allowlist matcher, the request
//! router, destination-header extraction, and the exact JSON response
//! bodies. The surrounding process (HTTP connection handling, the body
//! read, the UDP send itself) lives outside and consumes plain values.

pub mod allowlist;
pub mod http;
pub mod json;
pub mod respond;
pub mod router;
pub mod text;
