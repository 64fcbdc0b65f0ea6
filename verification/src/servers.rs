//! What the proxy keeps per upstream while it serves connections.

pub mod upstream_address;
