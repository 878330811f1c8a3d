//! The behavior suite: exclusion matching, per-scheme resolution with its
//! fallbacks, and normalization, each exercised through the public entry
//! points on explicit environment snapshots.

use env_proxy::{for_url, for_url_str, Env, TargetUrl};

fn env_of(pairs: &[(&str, &str)]) -> Env {
    let vars: Vec<(String, String)> =
        pairs.iter().map(|(k, v)| (k.to_string(), v.to_string())).collect();
    Env::from_pairs(vars)
}

fn target(scheme: &str, host: &str) -> TargetUrl {
    TargetUrl { scheme: scheme.to_string(), host: Some(host.to_string()) }
}

#[test]
fn no_proxy_simple_name() {
    let env = env_of(&[("no_proxy", "example.org"), ("http_proxy", "http://proxy.example.com:8080")]);
    let u = target("http", "example.org");
    assert!(for_url(&u, &env).is_none());
    assert!(for_url_str("http://example.org", &env).is_none());
}

#[test]
fn no_proxy_global() {
    let env = env_of(&[("no_proxy", "*"), ("http_proxy", "http://proxy.example.com:8080")]);
    let u = target("http", "example.org");
    assert!(for_url(&u, &env).is_none());
    assert!(for_url_str("http://example.org", &env).is_none());
}

#[test]
fn no_proxy_subdomain() {
    let env = env_of(&[("no_proxy", "example.org"), ("http_proxy", "http://proxy.example.com:8080")]);
    let u = target("http", "www.example.org");
    assert!(for_url(&u, &env).is_none());
}

#[test]
fn no_proxy_subdomain_dot() {
    let env = env_of(&[("no_proxy", ".example.org"), ("http_proxy", "http://proxy.example.com:8080")]);
    let u = target("http", "www.example.org");
    assert!(for_url(&u, &env).is_none());
    assert!(for_url_str("http://www.example.org", &env).is_none());
}

#[test]
fn no_proxy_multiple_list() {
    let env = env_of(&[
        ("no_proxy", "com, .example.org, net"),
        ("http_proxy", "http://proxy.example.com:8080"),
    ]);
    let u = target("http", "www.example.org");
    assert!(for_url(&u, &env).is_none());
    assert!(for_url_str("http://www.example.org", &env).is_none());
}

#[test]
fn http_proxy_specific() {
    let env = env_of(&[
        ("http_proxy", "http://proxy.example.com:8080"),
        ("all_proxy", "http://proxy.example.org:8081"),
    ]);
    let u = target("http", "www.example.org");
    assert_eq!(for_url(&u, &env).host_port(), Some(("proxy.example.com".to_string(), 8080)));
    assert_eq!(
        for_url_str("http://www.example.org", &env).to_string(),
        Some("http://proxy.example.com:8080/".to_string())
    );
}

#[test]
fn default_proxy_url_scheme() {
    let env = env_of(&[("http_proxy", "proxy.example.com:8080")]);
    let u = target("http", "www.example.org");
    assert_eq!(for_url(&u, &env).host_port(), Some(("proxy.example.com".to_string(), 8080)));
    assert_eq!(
        for_url_str("http://www.example.org", &env).to_string(),
        Some("http://proxy.example.com:8080/".to_string())
    );
}

#[test]
fn proxy_url_with_explicit_scheme_port() {
    let env = env_of(&[("http_proxy", "http://proxy.example.com:80")]);
    let u = target("http", "www.example.org");
    assert_eq!(for_url(&u, &env).host_port(), Some(("proxy.example.com".to_string(), 80)));
    assert_eq!(
        for_url_str("http://www.example.org", &env).to_string(),
        Some("http://proxy.example.com/".to_string())
    );
    let env = env_of(&[("http_proxy", "https://proxy.example.com:443")]);
    assert_eq!(for_url(&u, &env).host_port(), Some(("proxy.example.com".to_string(), 443)));
    assert_eq!(
        for_url_str("http://www.example.org", &env).to_string(),
        Some("https://proxy.example.com/".to_string())
    );
}

#[test]
fn proxy_url_without_port() {
    let env = env_of(&[("http_proxy", "http://proxy.example.com")]);
    let u = target("http", "www.example.org");
    assert_eq!(for_url(&u, &env).host_port(), Some(("proxy.example.com".to_string(), 8080)));
}

#[test]
fn http_proxy_fallback() {
    let env = env_of(&[("ALL_PROXY", "http://proxy.example.com:8080")]);
    let u = target("http", "www.example.org");
    assert_eq!(for_url(&u, &env).host_port(), Some(("proxy.example.com".to_string(), 8080)));
    assert_eq!(
        for_url_str("http://www.example.org", &env).to_string(),
        Some("http://proxy.example.com:8080/".to_string())
    );
    let env = env_of(&[
        ("ALL_PROXY", "http://proxy.example.com:8080"),
        ("all_proxy", "http://proxy.example.org:8081"),
    ]);
    assert_eq!(for_url(&u, &env).host_port(), Some(("proxy.example.org".to_string(), 8081)));
    assert_eq!(
        for_url_str("http://www.example.org", &env).to_string(),
        Some("http://proxy.example.org:8081/".to_string())
    );
}

#[test]
fn https_proxy_specific() {
    let env = env_of(&[
        ("HTTPS_PROXY", "http://proxy.example.com:8080"),
        ("all_proxy", "http://proxy.example.org:8081"),
    ]);
    let u = target("https", "www.example.org");
    assert_eq!(for_url(&u, &env).host_port(), Some(("proxy.example.com".to_string(), 8080)));
    assert_eq!(
        for_url_str("https://www.example.org", &env).to_string(),
        Some("http://proxy.example.com:8080/".to_string())
    );
    let env = env_of(&[
        ("HTTPS_PROXY", "http://proxy.example.com:8080"),
        ("all_proxy", "http://proxy.example.org:8081"),
        ("https_proxy", "http://proxy.example.com:8082"),
    ]);
    assert_eq!(for_url(&u, &env).host_port(), Some(("proxy.example.com".to_string(), 8082)));
    assert_eq!(
        for_url_str("https://www.example.org", &env).to_string(),
        Some("http://proxy.example.com:8082/".to_string())
    );
}

#[test]
fn https_proxy_fallback() {
    let env = env_of(&[("ALL_PROXY", "http://proxy.example.org:8081")]);
    let u = target("ftp", "www.example.org");
    assert_eq!(for_url(&u, &env).host_port(), Some(("proxy.example.org".to_string(), 8081)));
    assert_eq!(
        for_url_str("https://www.example.org", &env).to_string(),
        Some("http://proxy.example.org:8081/".to_string())
    );
    let env = env_of(&[
        ("ALL_PROXY", "http://proxy.example.org:8081"),
        ("all_proxy", "http://proxy.example.org:8082"),
    ]);
    assert_eq!(for_url(&u, &env).host_port(), Some(("proxy.example.org".to_string(), 8082)));
    assert_eq!(
        for_url_str("https://www.example.org", &env).to_string(),
        Some("http://proxy.example.org:8082/".to_string())
    );
}

#[test]
fn ftp_proxy_specific() {
    let env = env_of(&[
        ("FTP_PROXY", "http://proxy.example.com:8080"),
        ("all_proxy", "http://proxy.example.org:8081"),
    ]);
    let u = target("ftp", "www.example.org");
    assert_eq!(for_url(&u, &env).host_port(), Some(("proxy.example.com".to_string(), 8080)));
    assert_eq!(
        for_url_str("ftp://www.example.org", &env).to_string(),
        Some("http://proxy.example.com:8080/".to_string())
    );
    let env = env_of(&[
        ("FTP_PROXY", "http://proxy.example.com:8080"),
        ("all_proxy", "http://proxy.example.org:8081"),
        ("ftp_proxy", "http://proxy.example.com:8082"),
    ]);
    assert_eq!(for_url(&u, &env).host_port(), Some(("proxy.example.com".to_string(), 8082)));
    assert_eq!(
        for_url_str("ftp://www.example.org", &env).to_string(),
        Some("http://proxy.example.com:8082/".to_string())
    );
}

#[test]
fn ftp_proxy_fallback() {
    let env = env_of(&[("ALL_PROXY", "http://proxy.example.org:8081")]);
    let u = target("ftp", "www.example.org");
    assert_eq!(for_url(&u, &env).host_port(), Some(("proxy.example.org".to_string(), 8081)));
    assert_eq!(
        for_url_str("ftp://www.example.org", &env).to_string(),
        Some("http://proxy.example.org:8081/".to_string())
    );
    let env = env_of(&[
        ("ALL_PROXY", "http://proxy.example.org:8081"),
        ("all_proxy", "http://proxy.example.org:8082"),
    ]);
    assert_eq!(for_url(&u, &env).host_port(), Some(("proxy.example.org".to_string(), 8082)));
    assert_eq!(
        for_url_str("ftp://www.example.org", &env).to_string(),
        Some("http://proxy.example.org:8082/".to_string())
    );
}
