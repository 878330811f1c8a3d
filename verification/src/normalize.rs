//! Normalization of a raw proxy specification into a fully qualified
//! endpoint: scheme defaulting, the parse through the URL library, host
//! validation, port defaulting, and the canonical string form.
//!
//! A raw value without a scheme separator is given an `http://` prefix. When
//! the raw value's scheme is known to be `http` or `https`, the text handed
//! to the parser has that scheme disguised (first letter replaced by `x`), so
//! that the parser treats it as unknown and keeps an explicit port that
//! happens to equal the scheme's default; the remembered scheme is restored
//! on the result afterwards.

use crate::text::{chars_of, str_eq};
use vstd::prelude::*;

verus! {

/// The parts of a parsed URL that normalization reads, as plain values.
pub struct UrlParts {
    /// The scheme, as the parser reports it: lowercased ASCII.
    pub scheme: String,
    /// The host, absent for URLs that carry none.
    pub host: Option<String>,
    /// The explicit port; a port equal to the scheme's well-known default is
    /// reported as absent.
    pub port: Option<u16>,
}

/// The mathematical shadow of [`UrlParts`].
pub ghost struct UrlPartsView {
    pub scheme: Seq<char>,
    pub host: Option<Seq<char>>,
    pub port: Option<u16>,
}

impl View for UrlParts {
    type V = UrlPartsView;

    open spec fn view(&self) -> UrlPartsView {
        UrlPartsView { scheme: self.scheme@, host: self.host.deep_view(), port: self.port }
    }
}

/// What the URL parser makes of a text: its scheme, host and explicit port
/// when the text parses as an absolute URL, nothing when it does not. The
/// outcome is a fixed function of the text alone.
pub uninterp spec fn parsed_url(s: Seq<char>) -> Option<UrlPartsView>;

/// Relies on url::Url::parse together with the accessors Url::scheme,
/// Url::host_str and Url::port: parsing either rejects the text or yields a
/// URL whose scheme, host and explicit port these accessors report, all of it
/// a function of the input text alone.
#[verifier::external_body]
pub(crate) fn parse_url_parts(s: &str) -> (r: Option<UrlParts>)
    ensures
        r is Some <==> parsed_url(s@) is Some,
        r matches Some(p) ==> Some(p@) == parsed_url(s@),
{
    match url::Url::parse(s) {
        Ok(u) => {
            let scheme = u.scheme().to_string();
            let host = u.host_str().map(|h| h.to_string());
            let port = u.port();
            Some(UrlParts { scheme, host, port })
        },
        Err(_) => None,
    }
}

/// Whether the text contains the scheme separator `://` anywhere.
pub open spec fn has_scheme_sep(s: Seq<char>) -> bool {
    exists|i: int|
        0 <= i && i + 3 <= s.len() && s[i] == ':' && #[trigger] s[i + 1] == '/' && s[i + 2] == '/'
}

/// Whether `p` is a prefix of `s`.
pub open spec fn starts_with(s: Seq<char>, p: Seq<char>) -> bool {
    s.len() >= p.len() && s.take(p.len() as int) == p
}

/// The scheme restored onto the parsed result: `http` when the raw text
/// carries an explicit `http://` prefix or no scheme separator at all,
/// `https` for an explicit `https://` prefix, and nothing for any other
/// explicit scheme.
pub open spec fn raw_scheme(s: Seq<char>) -> Option<Seq<char>> {
    if starts_with(s, "http://"@) {
        Some("http"@)
    } else if starts_with(s, "https://"@) {
        Some("https"@)
    } else if !has_scheme_sep(s) {
        Some("http"@)
    } else {
        None
    }
}

/// The text handed to the URL parser: the raw text, prefixed with `http://`
/// when it has no scheme separator, and with a remembered scheme disguised by
/// replacing its first letter with `x`.
pub open spec fn prepped(s: Seq<char>) -> Seq<char> {
    let t = if has_scheme_sep(s) {
        s
    } else {
        "http://"@ + s
    };
    if raw_scheme(s) is Some {
        seq!['x'] + t.skip(1)
    } else {
        t
    }
}

fn has_sep_exec(v: &Vec<char>) -> (r: bool)
    ensures
        r == has_scheme_sep(v@),
{
    let n = v.len();
    if n < 3 {
        return false;
    }
    let mut i: usize = 0;
    while i < n - 2
        invariant
            3 <= n,
            n == v@.len(),
            i <= n - 2,
            forall|k: int|
                0 <= k < i ==> !(v@[k] == ':' && #[trigger] v@[k + 1] == '/' && v@[k + 2] == '/'),
        decreases n - i,
    {
        if v[i] == ':' && v[i + 1] == '/' && v[i + 2] == '/' {
            proof {
                assert(v@[i as int] == ':' && v@[i as int + 1] == '/' && v@[i as int + 2] == '/');
            }
            return true;
        }
        i = i + 1;
    }
    proof {
        assert forall|k: int| 0 <= k && k + 3 <= n implies !(v@[k] == ':' && #[trigger] v@[k + 1]
            == '/' && v@[k + 2] == '/') by {
            assert(k < i);
        }
    }
    false
}

fn starts_with_http(v: &Vec<char>) -> (r: bool)
    ensures
        r == starts_with(v@, "http://"@),
{
    proof {
        reveal_strlit("http://");
    }
    if v.len() < 7 {
        return false;
    }
    let r = v[0] == 'h' && v[1] == 't' && v[2] == 't' && v[3] == 'p' && v[4] == ':' && v[5] == '/'
        && v[6] == '/';
    proof {
        if r {
            assert(v@.take(7) =~= "http://"@);
        } else {
            if starts_with(v@, "http://"@) {
                assert(v@.take(7) == "http://"@);
                assert(v@.take(7)[0] == v@[0]);
                assert(v@.take(7)[1] == v@[1]);
                assert(v@.take(7)[2] == v@[2]);
                assert(v@.take(7)[3] == v@[3]);
                assert(v@.take(7)[4] == v@[4]);
                assert(v@.take(7)[5] == v@[5]);
                assert(v@.take(7)[6] == v@[6]);
                assert(false);
            }
        }
    }
    r
}

fn starts_with_https(v: &Vec<char>) -> (r: bool)
    ensures
        r == starts_with(v@, "https://"@),
{
    proof {
        reveal_strlit("https://");
    }
    if v.len() < 8 {
        return false;
    }
    let r = v[0] == 'h' && v[1] == 't' && v[2] == 't' && v[3] == 'p' && v[4] == 's' && v[5] == ':'
        && v[6] == '/' && v[7] == '/';
    proof {
        if r {
            assert(v@.take(8) =~= "https://"@);
        } else {
            if starts_with(v@, "https://"@) {
                assert(v@.take(8) == "https://"@);
                assert(v@.take(8)[0] == v@[0]);
                assert(v@.take(8)[1] == v@[1]);
                assert(v@.take(8)[2] == v@[2]);
                assert(v@.take(8)[3] == v@[3]);
                assert(v@.take(8)[4] == v@[4]);
                assert(v@.take(8)[5] == v@[5]);
                assert(v@.take(8)[6] == v@[6]);
                assert(v@.take(8)[7] == v@[7]);
                assert(false);
            }
        }
    }
    r
}

/// Split off the remembered original scheme and build the text handed to the
/// parser.
pub(crate) fn prep_raw(s: &str) -> (r: (String, Option<String>))
    ensures
        r.0@ == prepped(s@),
        r.1.deep_view() == raw_scheme(s@),
{
    let v = chars_of(s);
    let has_sep = has_sep_exec(&v);
    let is_http = starts_with_http(&v);
    let is_https = starts_with_https(&v);
    let t: String = if has_sep {
        s.to_owned()
    } else {
        String::from_str("http://").concat(s)
    };
    let orig: Option<String> = if is_http {
        Some(String::from_str("http"))
    } else if is_https {
        Some(String::from_str("https"))
    } else if !has_sep {
        Some(String::from_str("http"))
    } else {
        None
    };
    let p: String = if orig.is_some() {
        proof {
            reveal_strlit("http://");
            reveal_strlit("https://");
            assert(t@.len() >= 7);
        }
        let tn = t.as_str().unicode_len();
        let rest = t.as_str().substring_char(1, tn);
        String::from_str("x").concat(rest)
    } else {
        t
    };
    proof {
        reveal_strlit("x");
        if raw_scheme(s@) is Some {
            assert(p@ =~= prepped(s@));
        } else {
            assert(p@ == prepped(s@));
        }
    }
    (p, orig)
}

/// A fully normalized proxy endpoint: scheme, host and port all present.
pub struct NormalizedUrl {
    pub scheme: String,
    pub host: String,
    pub port: u16,
}

/// The mathematical shadow of [`NormalizedUrl`].
pub ghost struct NormalizedUrlView {
    pub scheme: Seq<char>,
    pub host: Seq<char>,
    pub port: u16,
}

impl View for NormalizedUrl {
    type V = NormalizedUrlView;

    open spec fn view(&self) -> NormalizedUrlView {
        NormalizedUrlView { scheme: self.scheme@, host: self.host@, port: self.port }
    }
}

impl DeepView for NormalizedUrl {
    type V = NormalizedUrlView;

    open spec fn deep_view(&self) -> NormalizedUrlView {
        self.view()
    }
}

/// What normalization makes of parsed parts: the host must be present and
/// nonempty, the remembered original scheme (when there is one) replaces the
/// parsed scheme, an explicit port is kept, and otherwise the configured
/// default port is applied — or, when none is configured, normalization
/// fails.
pub open spec fn finish_spec(
    p: UrlPartsView,
    orig: Option<Seq<char>>,
    dport: Option<u16>,
) -> Option<NormalizedUrlView> {
    match p.host {
        None => None,
        Some(h) => {
            if h.len() == 0 {
                None
            } else {
                let scheme = match orig {
                    Some(sc) => sc,
                    None => p.scheme,
                };
                match p.port {
                    Some(pt) => Some(NormalizedUrlView { scheme, host: h, port: pt }),
                    None => match dport {
                        Some(d) => Some(NormalizedUrlView { scheme, host: h, port: d }),
                        None => None,
                    },
                }
            }
        },
    }
}

/// The full normalization of one raw proxy value under a default port.
pub open spec fn normalize_spec(raw: Seq<char>, dport: Option<u16>) -> Option<NormalizedUrlView> {
    match parsed_url(prepped(raw)) {
        None => None,
        Some(p) => finish_spec(p, raw_scheme(raw), dport),
    }
}

/// Combine parsed parts, the remembered original scheme and the configured
/// default port into the normalized endpoint.
pub fn finish_normalize(
    parts: UrlParts,
    orig_scheme: Option<String>,
    default_port: Option<u16>,
) -> (r: Option<NormalizedUrl>)
    ensures
        r.deep_view() == finish_spec(parts@, orig_scheme.deep_view(), default_port),
{
    let scheme_src = parts.scheme;
    match parts.host {
        None => None,
        Some(h) => {
            if h.as_str().is_empty() {
                return None;
            }
            let scheme = match orig_scheme {
                Some(sc) => sc,
                None => scheme_src,
            };
            match parts.port {
                Some(pt) => Some(NormalizedUrl { scheme, host: h, port: pt }),
                None => match default_port {
                    Some(d) => Some(NormalizedUrl { scheme, host: h, port: d }),
                    None => None,
                },
            }
        },
    }
}

/// The well-known default port a rendered URL omits, per scheme.
pub open spec fn known_default_port(scheme: Seq<char>) -> Option<u16> {
    if scheme == "http"@ || scheme == "ws"@ {
        Some(80u16)
    } else if scheme == "https"@ || scheme == "wss"@ {
        Some(443u16)
    } else if scheme == "ftp"@ {
        Some(21u16)
    } else {
        None
    }
}

/// One decimal digit as a character.
pub open spec fn digit_char(d: nat) -> char {
    if d == 0 {
        '0'
    } else if d == 1 {
        '1'
    } else if d == 2 {
        '2'
    } else if d == 3 {
        '3'
    } else if d == 4 {
        '4'
    } else if d == 5 {
        '5'
    } else if d == 6 {
        '6'
    } else if d == 7 {
        '7'
    } else if d == 8 {
        '8'
    } else {
        '9'
    }
}

/// The decimal digits of a number, most significant first.
pub open spec fn dec_digits(n: nat) -> Seq<char>
    decreases n,
{
    if n < 10 {
        seq![digit_char(n)]
    } else {
        dec_digits(n / 10).push(digit_char(n % 10))
    }
}

fn digit_str(d: u16) -> (s: String)
    requires
        d < 10,
    ensures
        s@ == seq![digit_char(d as nat)],
{
    let lit: &str = if d == 0 {
        proof {
            reveal_strlit("0");
        }
        "0"
    } else if d == 1 {
        proof {
            reveal_strlit("1");
        }
        "1"
    } else if d == 2 {
        proof {
            reveal_strlit("2");
        }
        "2"
    } else if d == 3 {
        proof {
            reveal_strlit("3");
        }
        "3"
    } else if d == 4 {
        proof {
            reveal_strlit("4");
        }
        "4"
    } else if d == 5 {
        proof {
            reveal_strlit("5");
        }
        "5"
    } else if d == 6 {
        proof {
            reveal_strlit("6");
        }
        "6"
    } else if d == 7 {
        proof {
            reveal_strlit("7");
        }
        "7"
    } else if d == 8 {
        proof {
            reveal_strlit("8");
        }
        "8"
    } else {
        proof {
            reveal_strlit("9");
        }
        "9"
    };
    proof {
        assert(lit@ =~= seq![digit_char(d as nat)]);
    }
    lit.to_owned()
}

fn u16_dec(n: u16) -> (s: String)
    ensures
        s@ == dec_digits(n as nat),
    decreases n,
{
    if n < 10 {
        digit_str(n)
    } else {
        let front = u16_dec(n / 10);
        let last = digit_str(n % 10);
        let s = front.concat(last.as_str());
        proof {
            assert(s@ =~= dec_digits(n as nat));
        }
        s
    }
}

fn known_default_port_exec(scheme: &str) -> (r: Option<u16>)
    ensures
        r == known_default_port(scheme@),
{
    if str_eq(scheme, "http") || str_eq(scheme, "ws") {
        Some(80)
    } else if str_eq(scheme, "https") || str_eq(scheme, "wss") {
        Some(443)
    } else if str_eq(scheme, "ftp") {
        Some(21)
    } else {
        None
    }
}

/// The canonical string form of a normalized endpoint:
/// `scheme://host:port/`, with the port omitted when it is the scheme's
/// well-known default.
pub open spec fn rendered(n: NormalizedUrlView) -> Seq<char> {
    let port_part = if known_default_port(n.scheme) == Some(n.port) {
        Seq::<char>::empty()
    } else {
        seq![':'] + dec_digits(n.port as nat)
    };
    n.scheme + "://"@ + n.host + port_part + seq!['/']
}

/// Render the canonical string form of a normalized endpoint.
pub fn render(n: &NormalizedUrl) -> (s: String)
    ensures
        s@ == rendered(n@),
{
    let mut s = n.scheme.clone();
    s.append("://");
    s.append(n.host.as_str());
    let omit = match known_default_port_exec(n.scheme.as_str()) {
        Some(d) => d == n.port,
        None => false,
    };
    if !omit {
        s.append(":");
        let digits = u16_dec(n.port);
        s.append(digits.as_str());
    }
    s.append("/");
    proof {
        reveal_strlit(":");
        reveal_strlit("/");
        assert(s@ =~= rendered(n@));
    }
    s
}

} // verus!
