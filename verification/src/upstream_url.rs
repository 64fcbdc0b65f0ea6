//! From an upstream's URL to a forwarding upstream.
//!
//! The URL is parsed by the `url` crate. What that parser makes of a text is
//! not restated here: `url_parts` names it, and `classify` says what the
//! loader makes of the parts.

use crate::config::{ConfigError, ProxyToUpstream, ProxyView, Rejection};
use crate::servers::upstream_address::ResolutionMode;
use crate::text::{decimal, decimal_string, join, text_of};
use vstd::prelude::*;

verus! {

/// What the loader reads of a parsed URL.
#[derive(Clone, Debug, PartialEq, Eq)]
pub struct UrlParts {
    /// The scheme, without the colon.
    pub scheme: String,
    /// The host, if the URL has one.
    pub host: Option<String>,
    /// The port that the URL gives or that its scheme implies, if any.
    pub port: Option<u16>,
}

/// The parts of a URL as mathematical values.
pub struct UrlPartsView {
    pub scheme: Seq<char>,
    pub host: Option<Seq<char>>,
    pub port: Option<u16>,
}

impl View for UrlParts {
    type V = UrlPartsView;

    open spec fn view(&self) -> UrlPartsView {
        UrlPartsView { scheme: self.scheme@, host: text_of(self.host), port: self.port }
    }
}

/// The parts of a URL that may have failed to parse, as mathematical values.
pub open spec fn parts_view(parts: Option<UrlParts>) -> Option<UrlPartsView> {
    match parts {
        Some(p) => Some(p@),
        None => None,
    }
}

/// What the `url` crate makes of `input`: nothing where it does not parse as
/// an absolute URL, else its scheme, its host and its port or the default
/// port of its scheme.
pub uninterp spec fn url_parts(input: Seq<char>) -> Option<UrlPartsView>;

/// Parses `input` with `url::Url::parse` and reads the result with
/// `Url::scheme`, `Url::host_str` and `Url::port_or_known_default`.
///
/// Not proved: that the result is determined by the text of `input`. The
/// contract gives that result the name `url_parts(input@)` and claims nothing
/// else of it.
#[verifier::external_body]
fn parse_url(input: &str) -> (parts: Option<UrlParts>)
    ensures
        parts_view(parts) == url_parts(input@),
{
    match url::Url::parse(input) {
        Ok(parsed) => Some(
            UrlParts {
                scheme: String::from(parsed.scheme()),
                host: parsed.host_str().map(String::from),
                port: parsed.port_or_known_default(),
            },
        ),
        Err(_) => None,
    }
}

/// The address `host:port` of a backend.
pub open spec fn backend_address(host: Seq<char>, port: u16) -> Seq<char> {
    host + ":"@ + decimal(port as nat)
}

/// What the loader makes of the upstream `name` declared with `url`, given
/// what the URL parsed to.
///
/// A URL that does not parse, or has no host, or has neither a port nor a
/// scheme with a default port, is an invalid URL. One that has all of these
/// and a scheme other than `tcp`, `tcp4` and `tcp6` has an invalid scheme.
/// Any other gives an upstream for `host:port` with the scheme as protocol.
pub open spec fn classify(name: Seq<char>, url: Seq<char>, parts: Option<UrlPartsView>) -> Result<
    ProxyView,
    Rejection,
> {
    match parts {
        None => Err(Rejection::InvalidUrl(url)),
        Some(p) => if p.host is None || p.port is None {
            Err(Rejection::InvalidUrl(url))
        } else if !ResolutionMode::recognizes(p.scheme) {
            Err(Rejection::InvalidScheme(url))
        } else {
            Ok(ProxyView::fresh(name, backend_address(p.host->0, p.port->0), p.scheme))
        },
    }
}

/// Builds the upstream `name` from the parts of its URL, or says why the URL
/// cannot be used.
pub fn classify_upstream(name: &str, url: &str, parts: Option<UrlParts>) -> (res: Result<
    ProxyToUpstream,
    ConfigError,
>)
    ensures
        match res {
            Ok(proxy) => classify(name@, url@, parts_view(parts)) == Ok::<ProxyView, Rejection>(
                proxy@,
            ),
            Err(e) => classify(name@, url@, parts_view(parts)) is Err && e.reports(
                classify(name@, url@, parts_view(parts))->Err_0,
            ),
        },
{
    let parts = match parts {
        Some(parts) => parts,
        None => {
            return Err(ConfigError::invalid_url(url));
        },
    };
    let host = match &parts.host {
        Some(host) => host,
        None => {
            return Err(ConfigError::invalid_url(url));
        },
    };
    let port = match parts.port {
        Some(port) => port,
        None => {
            return Err(ConfigError::invalid_url(url));
        },
    };
    if !ResolutionMode::recognizes_tag(parts.scheme.as_str()) {
        return Err(ConfigError::invalid_scheme(url));
    }
    let addr = join(host.as_str(), ":").concat(decimal_string(port).as_str());
    Ok(ProxyToUpstream::new(String::from_str(name), addr, parts.scheme.clone()))
}

/// Builds the upstream `name` from its URL, or says why the URL cannot be
/// used.
pub fn parse_upstream(name: &str, url: &str) -> (res: Result<ProxyToUpstream, ConfigError>)
    ensures
        match res {
            Ok(proxy) => classify(name@, url@, url_parts(url@)) == Ok::<ProxyView, Rejection>(
                proxy@,
            ),
            Err(e) => classify(name@, url@, url_parts(url@)) is Err && e.reports(
                classify(name@, url@, url_parts(url@))->Err_0,
            ),
        },
{
    classify_upstream(name, url, parse_url(url))
}

} // verus!
