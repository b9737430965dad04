//! Configuration validation. The API token is wrapped in [`ApiToken`] so
//! that only an explicit `reveal_token` exposes it.

use vstd::prelude::*;

use crate::dates::{DateConfig, TimeOfDay, hh_mm_reading, parse_time_of_day};
use crate::sandbox::{sandbox_built, AttachmentSandbox, InvalidRoot, RootReport};
use crate::text::{chars_of, owned, string_of, trim, trim_chars, push_str};

verus! {

/// Transport over which the MCP server is exposed.
#[derive(Debug, Clone, Copy, PartialEq, Eq)]
pub enum Transport {
    /// MCP over stdin/stdout for local clients.
    Stdio,
    /// MCP over streamable HTTP for remote or hosted use.
    Http,
}

/// A Vikunja API token. It has no `Debug` or `Display`, so it is never
/// formatted; only `reveal_token` hands out its text.
#[derive(Clone)]
pub struct ApiToken(String);

impl View for ApiToken {
    type V = Seq<char>;

    closed spec fn view(&self) -> Seq<char> {
        self.0@
    }
}

impl ApiToken {
    pub fn new(token: &str) -> (t: Self)
        ensures
            t@ == token@,
    {
        ApiToken(owned(token))
    }

    /// The raw token, for the `Authorization` header only.
    pub fn reveal_token(&self) -> (s: &str)
        ensures
            s@ == self@,
    {
        self.0.as_str()
    }
}

/// Errors produced while validating configuration.
#[derive(Debug, Clone, PartialEq)]
pub enum ConfigError {
    MissingUrl,
    InvalidUrl { url: String, reason: String },
    UnsupportedScheme { url: String },
    MissingToken,
    EmptyToken,
    InvalidTimeout,
    InvalidPageSize,
    InvalidTimeOfDay { flag: &'static str, reason: String },
    EmptyHttpAuthToken,
    InvalidAttachmentRoot(InvalidRoot),
    UnauthenticatedNonLoopback { bind: String },
    MetricsRequireHttp,
}

/// Metrics may only be enabled together with the HTTP transport: the stdio
/// transport has no endpoint to serve them from.
pub fn validate_metrics_transport(transport: Transport, enable_metrics: bool) -> (r: Result<
    (),
    ConfigError,
>)
    ensures
        r is Err <==> (enable_metrics && transport == Transport::Stdio),
        r is Err ==> r == Err::<(), ConfigError>(ConfigError::MetricsRequireHttp),
{
    match transport {
        Transport::Http => Ok(()),
        Transport::Stdio => if enable_metrics {
            Err(ConfigError::MetricsRequireHttp)
        } else {
            Ok(())
        },
    }
}

/// What the HTTP authentication settings validate to: the trimmed bearer
/// token when one is set (it must not be blank); otherwise no token, which
/// is refused on a non-loopback bind unless explicitly allowed.
pub open spec fn http_auth_outcome(
    bind_is_loopback: bool,
    auth_token: Option<Seq<char>>,
    allow_unauthenticated: bool,
) -> Result<Option<Seq<char>>, ()> {
    match auth_token {
        Some(t) => if trim(t).len() == 0 {
            Err(())
        } else {
            Ok(Some(trim(t)))
        },
        None => if !bind_is_loopback && !allow_unauthenticated {
            Err(())
        } else {
            Ok(None)
        },
    }
}

/// Validates the HTTP transport's authentication configuration and returns
/// the trimmed bearer token, if any. `bind` is the bind address as shown in
/// the error message.
pub fn validate_http_auth(
    bind: &str,
    bind_is_loopback: bool,
    auth_token: Option<&str>,
    allow_unauthenticated: bool,
) -> (r: Result<Option<ApiToken>, ConfigError>)
    ensures
        match (r, http_auth_outcome(
            bind_is_loopback,
            match auth_token {
                Some(t) => Some(t@),
                None => None,
            },
            allow_unauthenticated,
        )) {
            (Ok(Some(t)), Ok(Some(v))) => t@ == v,
            (Ok(None), Ok(None)) => true,
            (Err(e), Err(_)) => match auth_token {
                Some(_) => e == ConfigError::EmptyHttpAuthToken,
                None => e matches ConfigError::UnauthenticatedNonLoopback { bind: b } && b@
                    == bind@,
            },
            _ => false,
        },
{
    match auth_token {
        Some(token) => {
            let trimmed = trim_chars(&chars_of(token));
            if trimmed.len() == 0 {
                return Err(ConfigError::EmptyHttpAuthToken);
            }
            Ok(Some(ApiToken(string_of(&trimmed))))
        },
        None => {
            if !bind_is_loopback && !allow_unauthenticated {
                return Err(ConfigError::UnauthenticatedNonLoopback { bind: owned(bind) });
            }
            Ok(None)
        },
    }
}

/// `s` with every trailing occurrence of `suffix` removed, as
/// `str::trim_end_matches` does.
pub open spec fn trim_end_matches(s: Seq<char>, suffix: Seq<char>) -> Seq<char>
    decreases s.len(),
{
    if suffix.len() > 0 && suffix.len() <= s.len() && s.subrange(
        s.len() - suffix.len(),
        s.len() as int,
    ) == suffix {
        trim_end_matches(s.subrange(0, s.len() - suffix.len()), suffix)
    } else {
        s
    }
}

/// The instance base path: trailing slashes and an accidentally included
/// `/api/v1` suffix are removed.
pub open spec fn base_path_of(path: Seq<char>) -> Seq<char> {
    trim_end_matches(trim_end_matches(trim_end_matches(path, "/"@), "/api/v1"@), "/"@)
}

pub fn trim_end_matches_exec(s: &Vec<char>, suffix: &str) -> (r: Vec<char>)
    ensures
        r@ == trim_end_matches(s@, suffix@),
{
    let suf = chars_of(suffix);
    let mut end: usize = s.len();
    assert(s@.subrange(0, end as int) =~= s@);
    while suf.len() > 0 && suf.len() <= end && crate::text::starts_with_at(
        s,
        &suf,
        end - suf.len(),
    )
        invariant
            end <= s.len(),
            suf@ == suffix@,
            trim_end_matches(s@, suffix@) == trim_end_matches(s@.subrange(0, end as int), suffix@),
        decreases end,
    {
        proof {
            let t = s@.subrange(0, end as int);
            assert(t.subrange(end - suf.len(), end as int) =~= s@.subrange(
                end - suf.len(),
                end as int,
            ));
            assert(t.subrange(0, end - suf.len()) =~= s@.subrange(0, end - suf.len()));
        }
        end = end - suf.len();
    }
    proof {
        let t = s@.subrange(0, end as int);
        if suf.len() > 0 && suf.len() <= end {
            assert(t.subrange(end - suf.len(), end as int) =~= s@.subrange(
                end - suf.len(),
                end as int,
            ));
        }
    }
    crate::text::copy_range(s, 0, end)
}

/// The `Display` text of a configuration error.
pub open spec fn config_error_text(e: ConfigError) -> Seq<char> {
    match e {
        ConfigError::MissingUrl => "VIKUNJA_URL is not set: pass --vikunja-url or set the VIKUNJA_URL environment variable (e.g. https://try.vikunja.io)"@,
        ConfigError::InvalidUrl { url, reason } => "VIKUNJA_URL `"@ + url@ + "` is not a valid URL: "@ + reason@,
        ConfigError::UnsupportedScheme { url } => "VIKUNJA_URL `"@ + url@ + "` must use http or https"@,
        ConfigError::MissingToken => "VIKUNJA_API_TOKEN is not set: pass --api-token or set the VIKUNJA_API_TOKEN environment variable"@,
        ConfigError::EmptyToken => "VIKUNJA_API_TOKEN is empty"@,
        ConfigError::InvalidTimeout => "timeout must be at least 1 second"@,
        ConfigError::InvalidPageSize => "default page size must be between 1 and 250"@,
        ConfigError::InvalidTimeOfDay { flag, reason } => flag@ + ": "@ + reason@,
        ConfigError::EmptyHttpAuthToken => "MCP_HTTP_AUTH_TOKEN is set but empty"@,
        ConfigError::InvalidAttachmentRoot(root) => "attachment root `"@ + root.path@ + "` is not usable: "@
            + root.reason@
            + ": pass an existing directory for --attachment-upload-root/--attachment-download-root"@,
        ConfigError::UnauthenticatedNonLoopback { bind } => "refusing to serve unauthenticated HTTP on non-loopback address "@
            + bind@
            + ": set MCP_HTTP_AUTH_TOKEN (recommended), or pass --http-allow-unauthenticated if an authenticating reverse proxy fronts this server"@,
        ConfigError::MetricsRequireHttp => "MCP_HTTP_ENABLE_METRICS/--http-enable-metrics requires --transport http: the stdio transport has no HTTP endpoint to serve /metrics from"@,
    }
}

/// The `Display` text of a configuration error.
pub fn config_error_message(e: &ConfigError) -> (s: String)
    ensures
        s@ == config_error_text(*e),
{
    match e {
        ConfigError::MissingUrl => owned(
            "VIKUNJA_URL is not set: pass --vikunja-url or set the VIKUNJA_URL environment variable (e.g. https://try.vikunja.io)",
        ),
        ConfigError::InvalidUrl { url, reason } => {
            let mut s = owned("VIKUNJA_URL `");
            push_str(&mut s, url.as_str());
            push_str(&mut s, "` is not a valid URL: ");
            push_str(&mut s, reason.as_str());
            s
        },
        ConfigError::UnsupportedScheme { url } => {
            let mut s = owned("VIKUNJA_URL `");
            push_str(&mut s, url.as_str());
            push_str(&mut s, "` must use http or https");
            s
        },
        ConfigError::MissingToken => owned(
            "VIKUNJA_API_TOKEN is not set: pass --api-token or set the VIKUNJA_API_TOKEN environment variable",
        ),
        ConfigError::EmptyToken => owned("VIKUNJA_API_TOKEN is empty"),
        ConfigError::InvalidTimeout => owned("timeout must be at least 1 second"),
        ConfigError::InvalidPageSize => owned("default page size must be between 1 and 250"),
        ConfigError::InvalidTimeOfDay { flag, reason } => {
            let mut s = owned(flag);
            push_str(&mut s, ": ");
            push_str(&mut s, reason.as_str());
            s
        },
        ConfigError::EmptyHttpAuthToken => owned("MCP_HTTP_AUTH_TOKEN is set but empty"),
        ConfigError::InvalidAttachmentRoot(root) => {
            let mut s = root.message();
            push_str(
                &mut s,
                ": pass an existing directory for --attachment-upload-root/--attachment-download-root",
            );
            s
        },
        ConfigError::UnauthenticatedNonLoopback { bind } => {
            let mut s = owned("refusing to serve unauthenticated HTTP on non-loopback address ");
            push_str(&mut s, bind.as_str());
            push_str(
                &mut s,
                ": set MCP_HTTP_AUTH_TOKEN (recommended), or pass --http-allow-unauthenticated if an authenticating reverse proxy fronts this server",
            );
            s
        },
        ConfigError::MetricsRequireHttp => owned(
            "MCP_HTTP_ENABLE_METRICS/--http-enable-metrics requires --transport http: the stdio transport has no HTTP endpoint to serve /metrics from",
        ),
    }
}

// ----- Building the configuration --------------------------------------------

/// The parts of a URL the configuration checks: its scheme, host (if any)
/// and path, as the `url` crate parses them, or the parse error's text.
pub uninterp spec fn url_reading(raw: Seq<char>) -> Result<(Seq<char>, Option<Seq<char>>, Seq<char>), Seq<char>>;

/// The URL `raw` with its path replaced by `path` and its query and
/// fragment removed, serialized by the `url` crate.
pub uninterp spec fn url_with_path(raw: Seq<char>, path: Seq<char>) -> Seq<char>;

/// `url::Url::parse`, taken apart into scheme, host and path. The result
/// is named, not stated.
#[verifier::external_body]
fn parse_url(raw: &str) -> (r: Result<(String, Option<String>, String), String>)
    ensures
        match r {
            Ok((scheme, host, path)) => url_reading(raw@) == Ok::<
                (Seq<char>, Option<Seq<char>>, Seq<char>),
                Seq<char>,
            >((scheme@, match host {
                Some(h) => Some(h@),
                None => None,
            }, path@)),
            Err(e) => url_reading(raw@) == Err::<(Seq<char>, Option<Seq<char>>, Seq<char>), Seq<char>>(e@),
        },
{
    match url::Url::parse(raw) {
        Ok(u) => {
            let host = match u.host_str() {
                Some(h) => Some(h.to_string()),
                None => None,
            };
            Ok((u.scheme().to_string(), host, u.path().to_string()))
        },
        Err(e) => Err(e.to_string()),
    }
}

/// `Url::set_path`, `set_query(None)` and `set_fragment(None)` on the
/// parsed URL, serialized. Only called on text that parses.
#[verifier::external_body]
fn rebuild_url(raw: &str, path: &str) -> (r: String)
    requires
        url_reading(raw@) is Ok,
    ensures
        r@ == url_with_path(raw@, path@),
{
    let mut u = url::Url::parse(raw).expect("checked by the caller");
    u.set_path(path);
    u.set_query(None);
    u.set_fragment(None);
    u.to_string()
}

/// What can be wrong with the instance URL and the other scalar settings,
/// checked in the order the configuration is built.
pub enum SettingProblem {
    MissingUrl,
    InvalidUrl { reason: Seq<char> },
    UnsupportedScheme,
    MissingToken,
    EmptyToken,
    InvalidTimeout,
    InvalidPageSize,
    InvalidTimeOfDay { flag: Seq<char>, reason: Seq<char> },
}

/// Why a base URL is not acceptable, if it is not: it must parse, use
/// http or https and name a host.
pub open spec fn url_problem(raw: Seq<char>) -> Option<SettingProblem> {
    match url_reading(raw) {
        Err(e) => Some(SettingProblem::InvalidUrl { reason: e }),
        Ok((scheme, host, _)) => if scheme != "http"@ && scheme != "https"@ {
            Some(SettingProblem::UnsupportedScheme)
        } else if host is None {
            Some(SettingProblem::InvalidUrl { reason: "missing host"@ })
        } else {
            None
        },
    }
}

/// The normalized base URL: the path without trailing slashes or an
/// `/api/v1` suffix, no query, no fragment.
pub open spec fn normalized_url(raw: Seq<char>) -> Seq<char> {
    url_with_path(raw, base_path_of(url_reading(raw)->Ok_0.2))
}

/// Parses the instance base URL, tolerating a trailing slash or an
/// accidentally included `/api/v1` suffix.
pub fn parse_base_url(raw: &str) -> (r: Result<String, ConfigError>)
    ensures
        match url_problem(raw@) {
            Some(p) => r matches Err(e) && is_setting_error(e, p, raw@),
            None => r matches Ok(u) && u@ == normalized_url(raw@),
        },
{
    let (scheme, host, path) = match parse_url(raw) {
        Ok(parts) => parts,
        Err(e) => {
            return Err(ConfigError::InvalidUrl { url: owned(raw), reason: e });
        },
    };
    if !crate::text::str_eq(scheme.as_str(), "http") && !crate::text::str_eq(scheme.as_str(), "https") {
        return Err(ConfigError::UnsupportedScheme { url: owned(raw) });
    }
    if host.is_none() {
        return Err(ConfigError::InvalidUrl { url: owned(raw), reason: owned("missing host") });
    }
    let p = chars_of(path.as_str());
    let a = trim_end_matches_exec(&p, "/");
    let b = trim_end_matches_exec(&a, "/api/v1");
    let c = trim_end_matches_exec(&b, "/");
    let trimmed = string_of(&c);
    Ok(rebuild_url(raw, trimmed.as_str()))
}

/// Whether `e` is the configuration error for problem `p` with the raw
/// URL `url`.
pub open spec fn is_setting_error(e: ConfigError, p: SettingProblem, url: Seq<char>) -> bool {
    match p {
        SettingProblem::MissingUrl => e is MissingUrl,
        SettingProblem::InvalidUrl { reason } => e matches ConfigError::InvalidUrl { url: u, reason: r }
            && u@ == url && r@ == reason,
        SettingProblem::UnsupportedScheme => e matches ConfigError::UnsupportedScheme { url: u } && u@
            == url,
        SettingProblem::MissingToken => e is MissingToken,
        SettingProblem::EmptyToken => e is EmptyToken,
        SettingProblem::InvalidTimeout => e is InvalidTimeout,
        SettingProblem::InvalidPageSize => e is InvalidPageSize,
        SettingProblem::InvalidTimeOfDay { flag, reason } => e matches ConfigError::InvalidTimeOfDay {
            flag: f,
            reason: r,
        } && f@ == flag && r@ == reason,
    }
}

/// The settings the configuration is built from.
#[derive(Debug, Clone)]
pub struct ConfigArgs {
    pub vikunja_url: Option<String>,
    pub api_token: Option<String>,
    pub timeout_secs: u64,
    pub default_page_size: u32,
    pub date_default_time: String,
    pub date_end_of_day_time: String,
    pub attachment_upload_roots: Vec<String>,
    pub attachment_download_roots: Vec<String>,
}

/// Validated configuration. It has no `Debug`: the token must never be
/// formatted.
#[derive(Clone)]
pub struct Config {
    /// Base URL of the Vikunja instance, without the `/api/v1` suffix.
    pub vikunja_url: String,
    pub api_token: ApiToken,
    pub timeout_secs: u64,
    pub default_page_size: u32,
    /// Times of day applied by date shortcuts.
    pub dates: DateConfig,
    /// Path restrictions for the attachment tools' file operations.
    pub attachment_sandbox: AttachmentSandbox,
}

pub open spec fn time_problem(flag: Seq<char>, raw: Seq<char>) -> Option<SettingProblem> {
    match hh_mm_reading(trim(raw)) {
        Some(_) => None,
        None => Some(
            SettingProblem::InvalidTimeOfDay {
                flag,
                reason: "`"@ + raw + "` is not a valid time of day: use HH:MM, e.g. 09:00"@,
            },
        ),
    }
}

/// The first problem with the scalar settings, in the order they are
/// checked: the URL must be set and valid, the token set and not blank,
/// the timeout at least one second, the page size between 1 and 250, and
/// both times of day `HH:MM`.
pub open spec fn setting_problem(a: ConfigArgs) -> Option<SettingProblem> {
    if a.vikunja_url is None || trim(a.vikunja_url->Some_0@).len() == 0 {
        Some(SettingProblem::MissingUrl)
    } else if url_problem(trim(a.vikunja_url->Some_0@)) is Some {
        url_problem(trim(a.vikunja_url->Some_0@))
    } else if a.api_token is None {
        Some(SettingProblem::MissingToken)
    } else if trim(a.api_token->Some_0@).len() == 0 {
        Some(SettingProblem::EmptyToken)
    } else if a.timeout_secs == 0 {
        Some(SettingProblem::InvalidTimeout)
    } else if a.default_page_size == 0 || a.default_page_size > 250 {
        Some(SettingProblem::InvalidPageSize)
    } else if time_problem("VIKUNJA_DATE_DEFAULT_TIME"@, a.date_default_time@) is Some {
        time_problem("VIKUNJA_DATE_DEFAULT_TIME"@, a.date_default_time@)
    } else {
        time_problem("VIKUNJA_DATE_END_OF_DAY_TIME"@, a.date_end_of_day_time@)
    }
}

pub open spec fn time_reading(raw: Seq<char>) -> TimeOfDay {
    let (h, m) = hh_mm_reading(trim(raw))->Some_0;
    TimeOfDay { hour: h, minute: m }
}

/// The configuration's sandbox is the one built from checked roots, given
/// what the file system reported for each configured root (`ur` for the
/// upload roots, `dr` for the download roots): on success the sandbox holds
/// their canonical paths, and the only failure is the first unusable root,
/// upload roots first.
pub open spec fn roots_built(
    args: ConfigArgs,
    ur: Seq<RootReport>,
    dr: Seq<RootReport>,
    r: Result<Config, ConfigError>,
) -> bool {
    &&& ur.len() == args.attachment_upload_roots@.len()
    &&& dr.len() == args.attachment_download_roots@.len()
    &&& match r {
        Ok(c) => sandbox_built(
            args.attachment_upload_roots@,
            ur,
            args.attachment_download_roots@,
            dr,
            Ok(c.attachment_sandbox),
        ),
        Err(ConfigError::InvalidAttachmentRoot(x)) => sandbox_built(
            args.attachment_upload_roots@,
            ur,
            args.attachment_download_roots@,
            dr,
            Err(x),
        ),
        Err(_) => false,
    }
}

impl Config {
    /// Builds and validates the configuration. The scalar settings are
    /// checked first, in order; then the attachment roots are checked on
    /// disk, failing closed when one is unusable.
    pub fn from_cli(args: &ConfigArgs) -> (r: Result<Config, ConfigError>)
        ensures
            match setting_problem(*args) {
                Some(p) => r matches Err(e) && is_setting_error(e, p, trim(args.vikunja_url->Some_0@)),
                None => match r {
                    Ok(c) => {
                        &&& c.vikunja_url@ == normalized_url(trim(args.vikunja_url->Some_0@))
                        &&& c.api_token@ == trim(args.api_token->Some_0@)
                        &&& c.timeout_secs == args.timeout_secs
                        &&& c.default_page_size == args.default_page_size
                        &&& c.dates.default_time == time_reading(args.date_default_time@)
                        &&& c.dates.end_of_day_time == time_reading(args.date_end_of_day_time@)
                    },
                    Err(e) => e is InvalidAttachmentRoot,
                },
            },
            setting_problem(*args) is None ==> exists|ur: Seq<RootReport>, dr: Seq<RootReport>|
                #[trigger] roots_built(*args, ur, dr, r),
    {
        let raw_url = match &args.vikunja_url {
            None => {
                return Err(ConfigError::MissingUrl);
            },
            Some(u) => string_of(&trim_chars(&chars_of(u.as_str()))),
        };
        if chars_of(raw_url.as_str()).len() == 0 {
            return Err(ConfigError::MissingUrl);
        }
        let vikunja_url = parse_base_url(raw_url.as_str())?;
        let token = match &args.api_token {
            None => {
                return Err(ConfigError::MissingToken);
            },
            Some(t) => trim_chars(&chars_of(t.as_str())),
        };
        if token.len() == 0 {
            return Err(ConfigError::EmptyToken);
        }
        if args.timeout_secs == 0 {
            return Err(ConfigError::InvalidTimeout);
        }
        if args.default_page_size == 0 || args.default_page_size > 250 {
            return Err(ConfigError::InvalidPageSize);
        }
        let default_time = match parse_time_of_day(args.date_default_time.as_str()) {
            Ok(t) => t,
            Err(reason) => {
                return Err(ConfigError::InvalidTimeOfDay { flag: "VIKUNJA_DATE_DEFAULT_TIME", reason });
            },
        };
        let end_of_day_time = match parse_time_of_day(args.date_end_of_day_time.as_str()) {
            Ok(t) => t,
            Err(reason) => {
                return Err(
                    ConfigError::InvalidTimeOfDay { flag: "VIKUNJA_DATE_END_OF_DAY_TIME", reason },
                );
            },
        };
        let built = AttachmentSandbox::new(
            args.attachment_upload_roots.as_slice(),
            args.attachment_download_roots.as_slice(),
        );
        let ghost (ur, dr) = choose|ur: Seq<RootReport>, dr: Seq<RootReport>|
            ur.len() == args.attachment_upload_roots@.len() && dr.len()
                == args.attachment_download_roots@.len() && sandbox_built(
                args.attachment_upload_roots@,
                ur,
                args.attachment_download_roots@,
                dr,
                built,
            );
        let r = match built {
            Ok(attachment_sandbox) => Ok(
                Config {
                    vikunja_url,
                    api_token: ApiToken(string_of(&token)),
                    timeout_secs: args.timeout_secs,
                    default_page_size: args.default_page_size,
                    dates: DateConfig { default_time, end_of_day_time },
                    attachment_sandbox,
                },
            ),
            Err(root) => Err(ConfigError::InvalidAttachmentRoot(root)),
        };
        assert(roots_built(*args, ur, dr, r));
        r
    }
}

} // verus!
