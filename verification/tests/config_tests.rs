//! Tests of configuration validation.

use vikunja_rust_mcp::config::{validate_metrics_transport, ApiToken, ConfigError, Transport};

#[test]
fn metrics_with_http_transport_is_valid() {
    for enabled in [true, false] {
        assert!(validate_metrics_transport(Transport::Http, enabled).is_ok());
    }
}

#[test]
fn metrics_without_metrics_flag_is_valid_on_stdio() {
    assert!(validate_metrics_transport(Transport::Stdio, false).is_ok());
}

#[test]
fn metrics_with_stdio_transport_is_rejected() {
    let err = validate_metrics_transport(Transport::Stdio, true).unwrap_err();
    assert!(matches!(err, ConfigError::MetricsRequireHttp));
}

#[test]
fn api_token_reveals_exactly_what_it_was_given() {
    let token = ApiToken::new("tk_secret");
    assert_eq!(token.reveal_token(), "tk_secret");
}

use vikunja_rust_mcp::config::{config_error_message, Config, ConfigArgs};
use vikunja_rust_mcp::dates::{DateConfig, TimeOfDay};

/// The settings as the command line gives them by default, with a URL and
/// a token.
fn args(url: Option<&str>, token: Option<&str>) -> ConfigArgs {
    ConfigArgs {
        vikunja_url: url.map(str::to_string),
        api_token: token.map(str::to_string),
        timeout_secs: 30,
        default_page_size: 50,
        date_default_time: "09:00".to_string(),
        date_end_of_day_time: "23:59".to_string(),
        attachment_upload_roots: Vec::new(),
        attachment_download_roots: Vec::new(),
    }
}

#[test]
fn valid_config_parses() {
    let config = Config::from_cli(&args(Some("https://try.vikunja.io"), Some("tk_secret"))).ok().unwrap();
    assert_eq!(config.vikunja_url, "https://try.vikunja.io/");
    assert_eq!(config.api_token.reveal_token(), "tk_secret");
    assert_eq!(config.timeout_secs, 30);
    assert_eq!(config.default_page_size, 50);
}

#[test]
fn trailing_slash_and_api_suffix_are_stripped() {
    for raw in [
        "https://vikunja.example.com/",
        "https://vikunja.example.com/api/v1",
        "https://vikunja.example.com/api/v1/",
    ] {
        let config = Config::from_cli(&args(Some(raw), Some("t"))).ok().unwrap();
        assert_eq!(config.vikunja_url, "https://vikunja.example.com/", "raw: {raw}");
    }
}

#[test]
fn subpath_installations_are_preserved() {
    let config = Config::from_cli(&args(Some("https://example.com/vikunja/"), Some("t"))).ok().unwrap();
    assert_eq!(config.vikunja_url, "https://example.com/vikunja");
}

#[test]
fn missing_url_is_an_error() {
    assert!(matches!(Config::from_cli(&args(None, Some("t"))), Err(ConfigError::MissingUrl)));
    assert!(matches!(Config::from_cli(&args(Some("  "), Some("t"))), Err(ConfigError::MissingUrl)));
}

#[test]
fn invalid_url_is_an_error() {
    assert!(matches!(Config::from_cli(&args(Some("not a url"), Some("t"))), Err(ConfigError::InvalidUrl { .. })));
}

#[test]
fn invalid_url_is_reported_before_a_missing_token() {
    assert!(matches!(Config::from_cli(&args(Some("not a url"), None)), Err(ConfigError::InvalidUrl { .. })));
}

#[test]
fn non_http_scheme_is_an_error() {
    assert!(matches!(
        Config::from_cli(&args(Some("ftp://example.com"), Some("t"))),
        Err(ConfigError::UnsupportedScheme { .. })
    ));
}

#[test]
fn missing_token_is_an_error() {
    assert!(matches!(Config::from_cli(&args(Some("https://example.com"), None)), Err(ConfigError::MissingToken)));
}

#[test]
fn blank_token_is_an_error() {
    assert!(matches!(Config::from_cli(&args(Some("https://example.com"), Some("  "))), Err(ConfigError::EmptyToken)));
}

#[test]
fn zero_timeout_is_an_error() {
    let mut a = args(Some("https://example.com"), Some("t"));
    a.timeout_secs = 0;
    assert!(matches!(Config::from_cli(&a), Err(ConfigError::InvalidTimeout)));
}

#[test]
fn out_of_range_page_size_is_an_error() {
    for size in [0u32, 251] {
        let mut a = args(Some("https://example.com"), Some("t"));
        a.default_page_size = size;
        assert!(matches!(Config::from_cli(&a), Err(ConfigError::InvalidPageSize)));
    }
}

#[test]
fn date_times_default_to_nine_and_end_of_day() {
    let config = Config::from_cli(&args(Some("https://example.com"), Some("t"))).ok().unwrap();
    assert_eq!(config.dates, DateConfig::default());
}

#[test]
fn custom_date_times_are_parsed() {
    let mut a = args(Some("https://example.com"), Some("t"));
    a.date_default_time = "08:30".to_string();
    a.date_end_of_day_time = "22:00".to_string();
    let config = Config::from_cli(&a).ok().unwrap();
    assert_eq!(config.dates.default_time, TimeOfDay { hour: 8, minute: 30 });
    assert_eq!(config.dates.end_of_day_time, TimeOfDay { hour: 22, minute: 0 });
}

#[test]
fn invalid_date_times_are_rejected() {
    for (default, end) in [("9am", "23:59"), ("25:00", "23:59"), ("09:00", "12:60"), ("09:00", "midnight")] {
        let mut a = args(Some("https://example.com"), Some("t"));
        a.date_default_time = default.to_string();
        a.date_end_of_day_time = end.to_string();
        let err = Config::from_cli(&a).err().unwrap();
        assert!(matches!(err, ConfigError::InvalidTimeOfDay { .. }), "{err:?}");
        assert!(config_error_message(&err).contains("HH:MM"));
    }
}

#[test]
fn attachment_roots_default_to_permissive_sandbox() {
    let a = args(Some("https://example.com"), Some("t"));
    assert!(a.attachment_upload_roots.is_empty());
    assert!(a.attachment_download_roots.is_empty());
    let config = Config::from_cli(&a).ok().unwrap();
    assert!(config.attachment_sandbox.is_permissive());
}

#[test]
fn attachment_roots_are_parsed_and_validated() {
    let upload = tempfile::tempdir().unwrap();
    let download = tempfile::tempdir().unwrap();
    let mut a = args(Some("https://example.com"), Some("t"));
    a.attachment_upload_roots = vec![upload.path().to_str().unwrap().to_string()];
    a.attachment_download_roots = vec![download.path().to_str().unwrap().to_string()];
    let config = Config::from_cli(&a).ok().unwrap();
    assert!(!config.attachment_sandbox.is_permissive());
}

#[test]
fn nonexistent_attachment_root_is_an_error() {
    let mut a = args(Some("https://example.com"), Some("t"));
    a.attachment_upload_roots = vec!["/definitely/not/a/real/directory".to_string()];
    let err = Config::from_cli(&a).err().unwrap();
    assert!(matches!(err, ConfigError::InvalidAttachmentRoot(_)), "{err:?}");
    assert!(config_error_message(&err).contains("attachment root"));
}

use vikunja_rust_mcp::config::validate_http_auth;

#[test]
fn http_auth_token_is_accepted_and_trimmed() {
    let token = validate_http_auth("0.0.0.0:8077", false, Some("  tk_http  "), false)
        .ok()
        .unwrap()
        .expect("token should be present");
    assert_eq!(token.reveal_token(), "tk_http");
}

#[test]
fn blank_http_auth_token_is_an_error() {
    assert!(matches!(
        validate_http_auth("127.0.0.1:8077", true, Some("   "), false),
        Err(ConfigError::EmptyHttpAuthToken)
    ));
}

#[test]
fn loopback_bind_may_skip_authentication() {
    for bind in ["127.0.0.1:8077", "[::1]:8077"] {
        assert!(validate_http_auth(bind, true, None, false).ok().unwrap().is_none());
    }
}

#[test]
fn non_loopback_bind_without_token_is_refused() {
    for bind in ["0.0.0.0:8077", "192.168.1.10:8077", "[::]:8077"] {
        match validate_http_auth(bind, false, None, false) {
            Err(ConfigError::UnauthenticatedNonLoopback { bind: shown }) => assert_eq!(shown, bind),
            _ => panic!("bind {bind} should be refused"),
        }
    }
}

#[test]
fn non_loopback_bind_allowed_with_explicit_opt_out() {
    assert!(validate_http_auth("0.0.0.0:8077", false, None, true).ok().unwrap().is_none());
}
