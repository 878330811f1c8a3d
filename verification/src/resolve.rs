//! Per-scheme selection of the proxy variable: which names are probed for a
//! target scheme, and in which order.

use crate::env::{lookup_in, pair_in, Env};
use crate::text::str_eq;
use vstd::prelude::*;

verus! {

/// The first of two optional values.
pub open spec fn or_else(a: Option<Seq<char>>, b: Option<Seq<char>>) -> Option<Seq<char>> {
    match a {
        Some(v) => Some(v),
        None => b,
    }
}

/// The scheme-specific probe: the https and ftp schemes have a
/// lowercase/uppercase variable pair, the http scheme has the lowercase
/// variable alone (a deliberate asymmetry), and any other scheme has none.
pub open spec fn specific_in(vars: Seq<(Seq<char>, Seq<char>)>, scheme: Seq<char>) -> Option<
    Seq<char>,
> {
    if scheme == "https"@ {
        pair_in(vars, "https_proxy"@, "HTTPS_PROXY"@)
    } else if scheme == "http"@ {
        lookup_in(vars, "http_proxy"@)
    } else if scheme == "ftp"@ {
        pair_in(vars, "ftp_proxy"@, "FTP_PROXY"@)
    } else {
        None
    }
}

/// The raw proxy value chosen for a scheme: the scheme-specific probe first,
/// then the all-proxy pair as the fallback for every scheme.
pub open spec fn resolve_in(vars: Seq<(Seq<char>, Seq<char>)>, scheme: Seq<char>) -> Option<
    Seq<char>,
> {
    or_else(specific_in(vars, scheme), pair_in(vars, "all_proxy"@, "ALL_PROXY"@))
}

/// Choose the raw proxy value for a scheme from the snapshot.
pub fn resolve_raw(scheme: &str, env: &Env) -> (r: Option<String>)
    ensures
        r.deep_view() == resolve_in(env@, scheme@),
{
    let specific: Option<String> = if str_eq(scheme, "https") {
        env.lookup_pair("https_proxy", "HTTPS_PROXY")
    } else if str_eq(scheme, "http") {
        env.lookup("http_proxy")
    } else if str_eq(scheme, "ftp") {
        env.lookup_pair("ftp_proxy", "FTP_PROXY")
    } else {
        None
    };
    match specific {
        Some(v) => Some(v),
        None => env.lookup_pair("all_proxy", "ALL_PROXY"),
    }
}

/// Law: for a scheme with a specific variable, that variable wins over the
/// all-proxy pair whenever it is set, and the all-proxy pair is consulted
/// exactly when it is not.
pub proof fn lemma_scheme_specific_priority(vars: Seq<(Seq<char>, Seq<char>)>, scheme: Seq<char>)
    ensures
        specific_in(vars, scheme) is Some ==> resolve_in(vars, scheme) == specific_in(
            vars,
            scheme,
        ),
        specific_in(vars, scheme) is None ==> resolve_in(vars, scheme) == pair_in(
            vars,
            "all_proxy"@,
            "ALL_PROXY"@,
        ),
{
}

/// Law: the base http variable has no uppercase fallback — when its lowercase
/// name is unbound, resolution for the http scheme falls through to the
/// all-proxy pair, whatever binding may exist under the uppercase spelling.
pub proof fn lemma_http_no_uppercase_fallback(vars: Seq<(Seq<char>, Seq<char>)>)
    requires
        lookup_in(vars, "http_proxy"@) is None,
    ensures
        resolve_in(vars, "http"@) == pair_in(vars, "all_proxy"@, "ALL_PROXY"@),
{
    reveal_strlit("http");
    reveal_strlit("https");
    assert("http"@.len() == 4);
    assert("https"@.len() == 5);
    assert("http"@ != "https"@);
    assert(specific_in(vars, "http"@) == lookup_in(vars, "http_proxy"@));
}

} // verus!
