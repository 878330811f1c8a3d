//! Edge cases of the exclusion matcher, the variable precedence rules, and
//! the normalization and rendering of raw proxy values.

use env_proxy::{finish_normalize, for_url, for_url_str, matches_exclusion, Env, TargetUrl, UrlParts};

fn pairs_env(pairs: &[(&str, &str)]) -> Env {
    let vars: Vec<(String, String)> =
        pairs.iter().map(|(k, v)| (k.to_string(), v.to_string())).collect();
    Env::from_pairs(vars)
}

fn http_target(host: &str) -> TargetUrl {
    TargetUrl { scheme: "http".to_string(), host: Some(host.to_string()) }
}

#[test]
fn exclusion_exact_and_label_suffix() {
    assert!(matches_exclusion("example.org", "example.org"));
    assert!(matches_exclusion("a.example.org", "example.org"));
    assert!(!matches_exclusion("xample.org", "example.org"));
    assert!(!matches_exclusion("org", "example.org"));
    assert!(matches_exclusion("example.org", ".example.org"));
    assert!(matches_exclusion("a.example.org", ".example.org"));
    assert!(!matches_exclusion("xample.org", ".example.org"));
    assert!(!matches_exclusion("org", ".example.org"));
}

#[test]
fn exclusion_no_bare_substring_suffix() {
    assert!(!matches_exclusion("example.org", "xample.org"));
    assert!(!matches_exclusion("example.org", "ample.org"));
    assert!(matches_exclusion("example.org", "org"));
    assert!(!matches_exclusion("example.org", "rg"));
}

#[test]
fn exclusion_star_trimmed() {
    assert!(matches_exclusion("example.org", "*"));
    assert!(matches_exclusion("anything.at.all", "*"));
    assert!(matches_exclusion("example.org", " * "));
    assert!(!matches_exclusion("example.org", "*, example.com"));
}

#[test]
fn exclusion_trivial_entries() {
    assert!(!matches_exclusion("example.org", ""));
    assert!(!matches_exclusion("example.org", "."));
    assert!(!matches_exclusion("example.org", ", ."));
    assert!(!matches_exclusion("example.org", ",, , ."));
}

#[test]
fn exclusion_ascii_case_folding() {
    assert!(matches_exclusion("example.org", "EXAMPLE.ORG"));
    assert!(matches_exclusion("www.example.org", ".Example.Org"));
    assert!(matches_exclusion("example.org", "eXaMpLe.OrG"));
    assert!(!matches_exclusion("example.org", "EXAMPLE.COM"));
    // Folding is applied to the entry only: a host carrying ASCII uppercase
    // is matched literally (parsed hosts are already lowercased).
    assert!(!matches_exclusion("EXAMPLE.ORG", "example.org"));
}

#[test]
fn star_beats_configured_proxies() {
    let env = pairs_env(&[
        ("no_proxy", "*"),
        ("http_proxy", "http://proxy.example.com:8080"),
        ("all_proxy", "http://proxy.example.org:8081"),
    ]);
    let p = for_url(&http_target("unrelated.example.net"), &env);
    assert!(p.is_none());
}

#[test]
fn lowercase_no_proxy_wins_over_uppercase() {
    let env = pairs_env(&[
        ("no_proxy", "other.example.net"),
        ("NO_PROXY", "example.org"),
        ("http_proxy", "http://proxy.example.com:8080"),
    ]);
    // The uppercase value would exclude the host; the lowercase one wins and
    // does not.
    let p = for_url(&http_target("example.org"), &env);
    assert_eq!(p.host_port(), Some(("proxy.example.com".to_string(), 8080)));
    let p = for_url(&http_target("other.example.net"), &env);
    assert!(p.is_none());
}

#[test]
fn uppercase_http_proxy_is_ignored() {
    let env = pairs_env(&[("HTTP_PROXY", "http://proxy.example.com:8080")]);
    let p = for_url(&http_target("www.example.org"), &env);
    assert!(p.is_none());
}

#[test]
fn other_scheme_uses_all_proxy_only() {
    let env = pairs_env(&[
        ("http_proxy", "http://proxy.example.com:8080"),
        ("https_proxy", "http://proxy.example.com:8081"),
        ("ftp_proxy", "http://proxy.example.com:8082"),
        ("all_proxy", "http://proxy.example.org:9999"),
    ]);
    let u = TargetUrl { scheme: "gopher".to_string(), host: Some("www.example.org".to_string()) };
    assert_eq!(for_url(&u, &env).host_port(), Some(("proxy.example.org".to_string(), 9999)));
}

#[test]
fn raw_value_returns_chosen_text() {
    let env = pairs_env(&[("http_proxy", "proxy.example.com:8080")]);
    let p = for_url(&http_target("www.example.org"), &env);
    assert_eq!(p.raw_value(), Some("proxy.example.com:8080".to_string()));
}

#[test]
fn schemeless_value_normalizes_to_http() {
    let env = pairs_env(&[("http_proxy", "proxy.example.com:8080")]);
    let u = for_url(&http_target("www.example.org"), &env).to_url().unwrap();
    assert_eq!(u.scheme, "http");
    assert_eq!(u.host, "proxy.example.com");
    assert_eq!(u.port, 8080);
}

#[test]
fn explicit_https_scheme_and_port_survive() {
    let env = pairs_env(&[("http_proxy", "https://proxy.example.com:443")]);
    let u = for_url(&http_target("www.example.org"), &env).to_url().unwrap();
    assert_eq!(u.scheme, "https");
    assert_eq!(u.host, "proxy.example.com");
    assert_eq!(u.port, 443);
}

#[test]
fn default_port_applied_and_cleared() {
    let env = pairs_env(&[("http_proxy", "http://proxy.example.com")]);
    let p = for_url(&http_target("www.example.org"), &env);
    assert_eq!(p.host_port(), Some(("proxy.example.com".to_string(), 8080)));
    let p = for_url(&http_target("www.example.org"), &env).with_no_default_port();
    assert_eq!(p.host_port(), None);
    let p = for_url(&http_target("www.example.org"), &env).with_default_port(3128);
    assert_eq!(p.host_port(), Some(("proxy.example.com".to_string(), 3128)));
}

#[test]
fn unparsable_proxy_value_yields_none() {
    let env = pairs_env(&[("http_proxy", "http://exa mple.org:8080")]);
    let p = for_url(&http_target("www.example.org"), &env);
    assert_eq!(p.host_port(), None);
}

#[test]
fn empty_host_yields_none() {
    let env = pairs_env(&[("http_proxy", "http://:8080")]);
    let p = for_url(&http_target("www.example.org"), &env);
    assert_eq!(p.host_port(), None);
}

#[test]
fn unparsable_target_yields_none() {
    let env = pairs_env(&[("all_proxy", "http://proxy.example.org:8081")]);
    assert!(for_url_str("not a url at all", &env).is_none());
}

#[test]
fn rendering_keeps_unusual_port_digits() {
    let env = pairs_env(&[("http_proxy", "http://proxy.example.com:65535")]);
    let p = for_url(&http_target("www.example.org"), &env);
    assert_eq!(p.to_string(), Some("http://proxy.example.com:65535/".to_string()));
}

#[test]
fn finish_normalize_combines_parts() {
    let parts = UrlParts {
        scheme: "xttp".to_string(),
        host: Some("proxy.example.com".to_string()),
        port: None,
    };
    let n = finish_normalize(parts, Some("http".to_string()), Some(8080)).unwrap();
    assert_eq!(n.scheme, "http");
    assert_eq!(n.host, "proxy.example.com");
    assert_eq!(n.port, 8080);

    let parts = UrlParts {
        scheme: "socks5".to_string(),
        host: Some("proxy.example.com".to_string()),
        port: Some(1080),
    };
    let n = finish_normalize(parts, None, None).unwrap();
    assert_eq!(n.scheme, "socks5");
    assert_eq!(n.port, 1080);

    let parts = UrlParts { scheme: "http".to_string(), host: None, port: Some(80) };
    assert!(finish_normalize(parts, None, Some(8080)).is_none());

    let parts =
        UrlParts { scheme: "http".to_string(), host: Some(String::new()), port: Some(80) };
    assert!(finish_normalize(parts, None, Some(8080)).is_none());
}

#[test]
fn no_proxy_unset_means_no_exclusion() {
    let env = pairs_env(&[("http_proxy", "http://proxy.example.com:8080")]);
    let p = for_url(&http_target("example.org"), &env);
    assert_eq!(p.host_port(), Some(("proxy.example.com".to_string(), 8080)));
}
