//! Tests of the HTTP transport helpers.

use vikunja_rust_mcp::http::{allowed_hosts, constant_time_eq};

#[test]
fn constant_time_eq_compares_correctly() {
    assert!(constant_time_eq(b"secret", b"secret"));
    assert!(!constant_time_eq(b"secret", b"secreT"));
    assert!(!constant_time_eq(b"secret", b"secre"));
    assert!(!constant_time_eq(b"", b"x"));
    assert!(constant_time_eq(b"", b""));
}

#[test]
fn allowed_hosts_include_defaults_and_trimmed_extras() {
    let hosts = allowed_hosts("10.0.0.5", vec!["  mcp.example.com  ".to_string(), "   ".to_string()]);
    assert_eq!(hosts, vec!["localhost", "127.0.0.1", "::1", "10.0.0.5", "mcp.example.com"]);
}

#[test]
fn allowed_hosts_always_include_loopback_and_bind_ip() {
    let hosts = allowed_hosts("192.168.1.10", vec![" mcp.example.com ".to_string(), String::new()]);
    for needle in ["localhost", "127.0.0.1", "::1", "192.168.1.10", "mcp.example.com"] {
        assert!(hosts.iter().any(|h| h == needle), "missing {needle} in {hosts:?}");
    }
    assert!(!hosts.iter().any(|h| h.is_empty()));
}
