//! Configuration validation and upstream address resolution for a TLS-aware
//! reverse proxy.
//!
//! The crate turns a declarative description of listeners and upstream targets
//! into a routing table that has been checked for structural consistency, and
//! keeps, per upstream, a time-bounded cache of resolved socket addresses.

pub mod clock;
pub mod config;
pub mod consistency;
pub mod loader;
pub mod routing;
pub mod search;
pub mod servers;
pub mod text;
pub mod upstream_url;
pub mod validate;

pub use crate::config::{
    BaseConfig, ConfigError, ParsedConfig, ProxyToUpstream, ServerConfig, Upstream,
};
pub use crate::loader::{load_config, Config};
pub use crate::servers::upstream_address::{
    ResolutionMode, ResolveAction, ResolveEvent, SocketAddress, UpstreamAddress,
};
pub use crate::validate::verify_config;
