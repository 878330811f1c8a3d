//! Decide which proxy, if any, applies to a target URL, going by the
//! environment-variable convention of the curl family of tools.
//!
//! The caller hands over a snapshot of the relevant environment variables
//! ([`env::Env`]) and a target, either as parsed scheme and host
//! ([`TargetUrl`]) or as raw text. [`for_url`] first consults the exclusion
//! list (`no_proxy`/`NO_PROXY`); when it does not forbid proxying, the
//! scheme's variables are probed in order, lowercase before uppercase, with
//! `all_proxy`/`ALL_PROXY` as the fallback. The chosen raw value is wrapped
//! in a lazy [`ProxyUrl`] candidate; normalization into scheme, host and
//! port, under a configurable default port, happens only on demand.

pub mod env;
pub mod exclusion;
pub mod normalize;
pub mod resolve;
mod text;

pub use crate::env::Env;
pub use crate::exclusion::matches_exclusion;
pub use crate::normalize::{finish_normalize, render, NormalizedUrl, UrlParts};

use crate::env::pair_in;
use crate::exclusion::{disables_all, disables_all_exec, exclusion_matches, matches_exclusion as exclusion_check};
use crate::normalize::{
    normalize_spec, parse_url_parts, parsed_url, prep_raw, rendered, NormalizedUrlView,
};
use crate::resolve::{resolve_in, resolve_raw};
use crate::text::chars_of;
use vstd::prelude::*;

verus! {

/// The relevant parts of the already-parsed target URL: its scheme, and its
/// host if it has one.
pub struct TargetUrl {
    pub scheme: String,
    pub host: Option<String>,
}

/// The mathematical shadow of [`TargetUrl`].
pub ghost struct TargetUrlView {
    pub scheme: Seq<char>,
    pub host: Option<Seq<char>>,
}

impl View for TargetUrl {
    type V = TargetUrlView;

    open spec fn view(&self) -> TargetUrlView {
        TargetUrlView { scheme: self.scheme@, host: self.host.deep_view() }
    }
}

/// A wrapper for the proxy URL retrieved from the environment: the raw value
/// of the chosen variable, if any, together with the default port applied
/// when the value names none.
pub struct ProxyUrl(Option<String>, Option<u16>);

/// The mathematical shadow of [`ProxyUrl`].
pub ghost struct ProxyUrlView {
    pub raw: Option<Seq<char>>,
    pub default_port: Option<u16>,
}

impl View for ProxyUrl {
    type V = ProxyUrlView;

    closed spec fn view(&self) -> ProxyUrlView {
        ProxyUrlView { raw: self.0.deep_view(), default_port: self.1 }
    }
}

/// Whether the exclusion variable pair forbids proxying for this target: its
/// value, when set, either disables proxying everywhere, or the target has a
/// host that the exclusion list matches.
pub open spec fn no_proxy_applies(t: TargetUrlView, vars: Seq<(Seq<char>, Seq<char>)>) -> bool {
    match pair_in(vars, "no_proxy"@, "NO_PROXY"@) {
        None => false,
        Some(raw) => match t.host {
            Some(h) => exclusion_matches(h, raw),
            None => disables_all(raw),
        },
    }
}

/// The decision for one target against one snapshot: the inert candidate when
/// the exclusion variable forbids proxying, otherwise the resolved raw value
/// with the default port preset to 8080.
pub open spec fn for_url_spec(t: TargetUrlView, vars: Seq<(Seq<char>, Seq<char>)>) -> ProxyUrlView {
    if no_proxy_applies(t, vars) {
        ProxyUrlView { raw: None, default_port: None }
    } else {
        ProxyUrlView { raw: resolve_in(vars, t.scheme), default_port: Some(8080u16) }
    }
}

/// The decision when the target is given as raw text: text that does not
/// parse as a URL yields the inert candidate.
pub open spec fn for_url_str_spec(s: Seq<char>, vars: Seq<(Seq<char>, Seq<char>)>) -> ProxyUrlView {
    match parsed_url(s) {
        None => ProxyUrlView { raw: None, default_port: None },
        Some(p) => for_url_spec(TargetUrlView { scheme: p.scheme, host: p.host }, vars),
    }
}

/// What [`ProxyUrl::to_url`] yields for a candidate.
pub open spec fn to_url_spec(p: ProxyUrlView) -> Option<NormalizedUrlView> {
    match p.raw {
        None => None,
        Some(raw) => normalize_spec(raw, p.default_port),
    }
}

/// What [`ProxyUrl::host_port`] yields for a candidate.
pub open spec fn host_port_spec(p: ProxyUrlView) -> Option<(Seq<char>, u16)> {
    match to_url_spec(p) {
        None => None,
        Some(n) => Some((n.host, n.port)),
    }
}

/// What [`ProxyUrl::to_string`] yields for a candidate.
pub open spec fn to_string_spec(p: ProxyUrlView) -> Option<Seq<char>> {
    match to_url_spec(p) {
        None => None,
        Some(n) => Some(rendered(n)),
    }
}

impl ProxyUrl {
    /// Return the raw value of the proxy URL.
    pub fn raw_value(self) -> (r: Option<String>)
        ensures
            r.deep_view() == self@.raw,
    {
        self.0
    }

    /// Return `true` if the `None` value is wrapped.
    pub fn is_none(self) -> (r: bool)
        ensures
            r == (self@.raw is None),
    {
        self.0.is_none()
    }

    /// Set the default port to use when transforming the raw URL value if the
    /// port isn't specified in the URL.
    ///
    /// A `ProxyUrl` instance returned by the library has the default port set
    /// to 8080, which corresponds to http-alt in the IANA port registry.
    pub fn with_default_port(self, port: u16) -> (r: Self)
        ensures
            r@.raw == self@.raw,
            r@.default_port == Some(port),
    {
        ProxyUrl(self.0, Some(port))
    }

    /// Don't use a default port value when transforming the raw URL.
    pub fn with_no_default_port(self) -> (r: Self)
        ensures
            r@.raw == self@.raw,
            r@.default_port is None,
    {
        ProxyUrl(self.0, None)
    }

    /// Transform the raw proxy URL into a normalized endpoint.
    ///
    /// The transformation parses the raw value (prefixing `http://` when it
    /// carries no scheme), requires a nonempty host, keeps an explicit port,
    /// and otherwise applies the configured default port; when any step
    /// fails, `None` is returned.
    pub fn to_url(self) -> (r: Option<NormalizedUrl>)
        ensures
            r.deep_view() == to_url_spec(self@),
    {
        match self.0 {
            None => None,
            Some(raw) => {
                let (prepared, orig) = prep_raw(raw.as_str());
                match parse_url_parts(prepared.as_str()) {
                    None => None,
                    Some(parts) => finish_normalize(parts, orig, self.1),
                }
            },
        }
    }

    /// Return the (host, port) tuple of the proxy, after normalizing the raw
    /// value; any error in the normalization produces `None`.
    pub fn host_port(self) -> (r: Option<(String, u16)>)
        ensures
            r.deep_view() == host_port_spec(self@),
    {
        match self.to_url() {
            None => None,
            Some(u) => Some((u.host, u.port)),
        }
    }

    /// Return the canonical string form of the proxy URL, after normalizing
    /// the raw value; any error in the normalization produces `None`.
    pub fn to_string(self) -> (r: Option<String>)
        ensures
            r.deep_view() == to_string_spec(self@),
    {
        match self.to_url() {
            None => None,
            Some(u) => Some(render(&u)),
        }
    }
}

/// Determine proxy parameters for a target URL from the snapshot.
///
/// When the exclusion variable pair (`no_proxy`, with `NO_PROXY` as the
/// fallback) forbids proxying for the target, the inert candidate is
/// returned; an excluded target is deliberately indistinguishable from one
/// for which nothing is configured. Otherwise the scheme's variables are
/// probed in order — the
/// scheme-specific pair first (for http, the lowercase name alone), then
/// `all_proxy`/`ALL_PROXY` — and the first value found is wrapped with a
/// default port of 8080.
pub fn for_url(url: &TargetUrl, env: &Env) -> (r: ProxyUrl)
    ensures
        r@ == for_url_spec(url@, env@),
{
    let excluded: bool = match env.lookup_pair("no_proxy", "NO_PROXY") {
        None => false,
        Some(raw) => match &url.host {
            Some(h) => exclusion_check(h.as_str(), raw.as_str()),
            None => {
                let rv = chars_of(raw.as_str());
                disables_all_exec(&rv)
            },
        },
    };
    if excluded {
        ProxyUrl(None, None)
    } else {
        let raw = resolve_raw(url.scheme.as_str(), env);
        ProxyUrl(raw, Some(8080))
    }
}

/// Determine proxy parameters for a target URL given as text.
///
/// The text is parsed as a URL first; text that does not parse yields the
/// inert candidate, exactly as a target for which nothing is configured.
pub fn for_url_str(s: &str, env: &Env) -> (r: ProxyUrl)
    ensures
        r@ == for_url_str_spec(s@, env@),
{
    match parse_url_parts(s) {
        None => ProxyUrl(None, None),
        Some(parts) => {
            let target = TargetUrl { scheme: parts.scheme, host: parts.host };
            for_url(&target, env)
        },
    }
}

/// Law: a candidate without a raw value is inert — every accessor on it
/// yields nothing, whatever the default port is set to.
pub proof fn lemma_inert_candidate(p: ProxyUrlView)
    requires
        p.raw is None,
    ensures
        to_url_spec(p) is None,
        host_port_spec(p) is None,
        to_string_spec(p) is None,
{
}

/// Law: an exclusion value that trims to a single asterisk disables proxying
/// for every target, whatever other proxy variables are set.
pub proof fn lemma_star_disables_everything(t: TargetUrlView, vars: Seq<(Seq<char>, Seq<char>)>)
    requires
        pair_in(vars, "no_proxy"@, "NO_PROXY"@) matches Some(raw) && disables_all(raw),
    ensures
        for_url_spec(t, vars).raw is None,
        for_url_spec(t, vars).default_port is None,
{
}

} // verus!
