//! The configuration of the proxy: the document as it is read, the routing
//! table that is built from it, and the reasons for which a document is
//! rejected.
//!
//! Servers and upstreams are kept as lists of named entries in the order of
//! the document. A list can hold a name twice, which a validated
//! configuration never does.

use crate::servers::upstream_address::{
    AddressCache, ResolutionMode, ResolveAction, ResolveEvent, UpstreamAddress,
};
use crate::text::{join, text_of, text_pairs, texts};
use vstd::prelude::*;

pub use crate::loader::{load_config, Config};
pub use crate::validate::verify_config;

verus! {

/// One listener group: the addresses it binds and where it routes.
#[derive(Clone, Debug, Default)]
pub struct ServerConfig {
    /// The addresses to listen on, each `host:port`.
    pub listen: Vec<String>,
    pub protocol: Option<String>,
    pub tls: Option<bool>,
    /// SNI hostname and the name of the upstream it selects. Read only where
    /// TLS is enabled.
    pub sni: Option<Vec<(String, String)>>,
    /// The upstream for connections that no SNI entry selects.
    pub default: Option<String>,
}

/// A listener group as a mathematical value.
pub struct ServerConfigView {
    pub listen: Seq<Seq<char>>,
    pub protocol: Option<Seq<char>>,
    pub tls: Option<bool>,
    pub sni: Option<Seq<(Seq<char>, Seq<char>)>>,
    pub default: Option<Seq<char>>,
}

impl View for ServerConfig {
    type V = ServerConfigView;

    open spec fn view(&self) -> ServerConfigView {
        ServerConfigView {
            listen: texts(self.listen@),
            protocol: text_of(self.protocol),
            tls: self.tls,
            sni: match self.sni {
                Some(routes) => Some(text_pairs(routes@)),
                None => None,
            },
            default: text_of(self.default),
        }
    }
}

/// The named listener groups of a document, as mathematical values.
pub open spec fn server_views(servers: Seq<(String, ServerConfig)>) -> Seq<
    (Seq<char>, ServerConfigView),
> {
    servers.map_values(|e: (String, ServerConfig)| (e.0@, e.1@))
}

/// The document as it is read: every upstream is still a URL.
#[derive(Clone, Debug, Default)]
pub struct BaseConfig {
    pub version: i32,
    pub log: Option<String>,
    pub servers: Vec<(String, ServerConfig)>,
    /// Upstream name and URL.
    pub upstream: Vec<(String, String)>,
}

/// A document as a mathematical value.
pub struct BaseConfigView {
    pub version: i32,
    pub log: Option<Seq<char>>,
    pub servers: Seq<(Seq<char>, ServerConfigView)>,
    pub upstream: Seq<(Seq<char>, Seq<char>)>,
}

impl View for BaseConfig {
    type V = BaseConfigView;

    open spec fn view(&self) -> BaseConfigView {
        BaseConfigView {
            version: self.version,
            log: text_of(self.log),
            servers: server_views(self.servers@),
            upstream: text_pairs(self.upstream@),
        }
    }
}

/// An upstream that forwards to a backend.
#[derive(Clone, Debug, Default)]
pub struct ProxyToUpstream {
    pub name: String,
    /// The backend as `host:port`.
    pub addr: String,
    /// One of `tcp`, `tcp4` and `tcp6`.
    pub protocol: String,
    addresses: UpstreamAddress,
}

/// A forwarding upstream as a mathematical value.
pub struct ProxyView {
    pub name: Seq<char>,
    pub addr: Seq<char>,
    pub protocol: Seq<char>,
    pub addresses: AddressCache,
}

impl ProxyView {
    /// The upstream `name` for the backend `addr`, never resolved.
    pub open spec fn fresh(name: Seq<char>, addr: Seq<char>, protocol: Seq<char>) -> ProxyView {
        ProxyView { name, addr, protocol, addresses: AddressCache::fresh(addr) }
    }

    /// An upstream is well formed when its protocol is one of the three tags
    /// and its cache resolves the backend's address. The loader builds no
    /// other, and resolving keeps it so.
    pub open spec fn well_formed(self) -> bool {
        ResolutionMode::recognizes(self.protocol) && self.addresses.address == self.addr
    }
}

impl View for ProxyToUpstream {
    type V = ProxyView;

    closed spec fn view(&self) -> ProxyView {
        ProxyView {
            name: self.name@,
            addr: self.addr@,
            protocol: self.protocol@,
            addresses: self.addresses@,
        }
    }
}

impl ProxyToUpstream {
    /// An upstream for the backend `addr`, with a cache that was never
    /// resolved.
    pub fn new(name: String, addr: String, protocol: String) -> (proxy: ProxyToUpstream)
        ensures
            proxy@ == ProxyView::fresh(name@, addr@, protocol@),
    {
        let addresses = UpstreamAddress::new(addr.clone());
        ProxyToUpstream { name, addr, protocol, addresses }
    }

    /// The name of the upstream.
    pub fn name(&self) -> (name: &String)
        ensures
            name@ == self@.name,
    {
        &self.name
    }

    /// The backend as `host:port`.
    pub fn addr(&self) -> (addr: &String)
        ensures
            addr@ == self@.addr,
    {
        &self.addr
    }

    /// The protocol tag.
    pub fn protocol(&self) -> (protocol: &String)
        ensures
            protocol@ == self@.protocol,
    {
        &self.protocol
    }

    /// How many nanoseconds the address cache stays valid after `now`.
    pub fn time_remaining(&self, now: u64) -> (left: u64)
        ensures
            left == self@.addresses.time_remaining(now),
    {
        self.addresses.time_remaining(now)
    }

    /// Takes one step of resolving this upstream, in the mode that its
    /// protocol tag stands for.
    pub fn resolve_addresses(&mut self, event: ResolveEvent) -> (action: ResolveAction)
        requires
            ResolutionMode::recognizes(old(self)@.protocol),
        ensures
            final(self)@.name == old(self)@.name,
            final(self)@.addr == old(self)@.addr,
            final(self)@.protocol == old(self)@.protocol,
            (final(self)@.addresses, action@) == old(self)@.addresses.step(
                ResolutionMode::of_tag(old(self)@.protocol),
                event@,
            ),
    {
        let mode = ResolutionMode::from(self.protocol.as_str());
        self.addresses.resolve(mode, event)
    }

    /// Takes one step of resolving this upstream if its protocol is one of
    /// the three tags, and does nothing if it is not.
    pub fn checked_resolve_addresses(&mut self, event: ResolveEvent) -> (action: Option<
        ResolveAction,
    >)
        ensures
            final(self)@.name == old(self)@.name,
            final(self)@.addr == old(self)@.addr,
            final(self)@.protocol == old(self)@.protocol,
            action is Some <==> ResolutionMode::recognizes(old(self)@.protocol),
            action is None ==> final(self)@ == old(self)@,
            action matches Some(taken) ==> (final(self)@.addresses, taken@) == old(
                self,
            )@.addresses.step(ResolutionMode::of_tag(old(self)@.protocol), event@),
    {
        if ResolutionMode::recognizes_tag(self.protocol.as_str()) {
            Some(self.resolve_addresses(event))
        } else {
            None
        }
    }
}

/// Whether `name` is one of the reserved names `ban` and `echo`.
pub open spec fn is_builtin(name: Seq<char>) -> bool {
    name == "ban"@ || name == "echo"@
}

/// Whether `name` is one of the reserved names.
pub fn is_builtin_name(name: &String) -> (b: bool)
    ensures
        b == is_builtin(name@),
{
    *name == String::from_str("ban") || *name == String::from_str("echo")
}

/// A routing target.
#[derive(Clone, Debug)]
pub enum Upstream {
    /// Terminates the connection.
    Ban,
    /// Reflects what it receives.
    Echo,
    /// Forwards to a backend.
    Proxy(ProxyToUpstream),
}

/// A routing target as a mathematical value.
pub enum UpstreamView {
    Ban,
    Echo,
    Proxy(ProxyView),
}

impl View for Upstream {
    type V = UpstreamView;

    open spec fn view(&self) -> UpstreamView {
        match *self {
            Upstream::Ban => UpstreamView::Ban,
            Upstream::Echo => UpstreamView::Echo,
            Upstream::Proxy(proxy) => UpstreamView::Proxy(proxy@),
        }
    }
}

/// The named upstreams of a configuration, as mathematical values.
pub open spec fn upstream_views(table: Seq<(String, Upstream)>) -> Seq<(Seq<char>, UpstreamView)> {
    table.map_values(|e: (String, Upstream)| (e.0@, e.1@))
}

/// The routing table: the document with every upstream classified and the
/// two builtin upstreams added.
#[derive(Clone, Debug, Default)]
pub struct ParsedConfig {
    pub version: i32,
    pub log: Option<String>,
    pub servers: Vec<(String, ServerConfig)>,
    pub upstream: Vec<(String, Upstream)>,
}

/// A routing table as a mathematical value.
pub struct ParsedConfigView {
    pub version: i32,
    pub log: Option<Seq<char>>,
    pub servers: Seq<(Seq<char>, ServerConfigView)>,
    pub upstream: Seq<(Seq<char>, UpstreamView)>,
}

impl View for ParsedConfig {
    type V = ParsedConfigView;

    open spec fn view(&self) -> ParsedConfigView {
        ParsedConfigView {
            version: self.version,
            log: text_of(self.log),
            servers: server_views(self.servers@),
            upstream: upstream_views(self.upstream@),
        }
    }
}

/// Why a document is rejected.
pub enum Rejection {
    /// The version is not 1.
    UnsupportedVersion,
    /// The URL does not parse, or has no host or no port.
    InvalidUrl(Seq<char>),
    /// The URL's scheme is none of `tcp`, `tcp4` and `tcp6`.
    InvalidScheme(Seq<char>),
    /// The upstream name stands twice in the table.
    DuplicateUpstream(Seq<char>),
    /// The listen address is declared twice.
    DuplicateListen(Seq<char>),
    /// A server refers to an upstream that the table does not hold.
    UpstreamNotFound(Seq<char>),
}

impl Rejection {
    /// The message that reports the rejection.
    pub open spec fn message(self) -> Seq<char> {
        match self {
            Rejection::UnsupportedVersion => "Unsupported config version"@,
            Rejection::InvalidUrl(url) => "Invalid upstream url "@ + url,
            Rejection::InvalidScheme(url) => "Invalid upstream scheme "@ + url,
            Rejection::DuplicateUpstream(name) => "Duplicate upstream name "@ + name,
            Rejection::DuplicateListen(address) => "Duplicate listen address "@ + address,
            Rejection::UpstreamNotFound(name) => "Upstream "@ + name + " not found"@,
        }
    }
}

/// Why no configuration could be had.
#[derive(Clone, Debug, PartialEq, Eq)]
pub enum ConfigError {
    /// The document could not be read; the message of the failure.
    IO(String),
    /// The document is malformed; the message of the parser.
    Yaml(String),
    /// The document was rejected; the message says why.
    Custom(String),
}

impl ConfigError {
    /// Whether this error reports the rejection `reason`.
    pub open spec fn reports(self, reason: Rejection) -> bool {
        self matches ConfigError::Custom(message) && message@ == reason.message()
    }
}

impl ConfigError {
    /// The error for a version other than 1.
    pub(crate) fn unsupported_version() -> (e: ConfigError)
        ensures
            e.reports(Rejection::UnsupportedVersion),
    {
        ConfigError::Custom(String::from_str("Unsupported config version"))
    }

    /// The error for a URL that cannot be used.
    pub(crate) fn invalid_url(url: &str) -> (e: ConfigError)
        ensures
            e.reports(Rejection::InvalidUrl(url@)),
    {
        ConfigError::Custom(join("Invalid upstream url ", url))
    }

    /// The error for a URL with a scheme that is not supported.
    pub(crate) fn invalid_scheme(url: &str) -> (e: ConfigError)
        ensures
            e.reports(Rejection::InvalidScheme(url@)),
    {
        ConfigError::Custom(join("Invalid upstream scheme ", url))
    }

    /// The error for an upstream name that stands twice.
    pub(crate) fn duplicate_upstream(name: &str) -> (e: ConfigError)
        ensures
            e.reports(Rejection::DuplicateUpstream(name@)),
    {
        ConfigError::Custom(join("Duplicate upstream name ", name))
    }

    /// The error for a listen address that is declared twice.
    pub(crate) fn duplicate_listen(address: &str) -> (e: ConfigError)
        ensures
            e.reports(Rejection::DuplicateListen(address@)),
    {
        ConfigError::Custom(join("Duplicate listen address ", address))
    }

    /// The error for a reference to an upstream that does not exist.
    pub(crate) fn upstream_not_found(name: &str) -> (e: ConfigError)
        ensures
            e.reports(Rejection::UpstreamNotFound(name@)),
    {
        ConfigError::Custom(join("Upstream ", name).concat(" not found"))
    }
}

} // verus!
