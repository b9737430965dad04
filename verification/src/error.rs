//! Errors shared by the Vikunja client and the MCP tool layer: what failed
//! (endpoint category), why (HTTP status and the Vikunja error code and
//! message when available), and how each error maps onto an MCP error.
//! Authorization headers and tokens are never part of an error.

use vstd::prelude::*;

use crate::text::{
    chars_of, decimal, snake_case, int_decimal, owned, push_decimal, push_int, push_str, string_of, trim, trim_chars,
};

verus! {

/// Failure category derived from the HTTP status code.
#[derive(Debug, Clone, Copy, PartialEq, Eq)]
pub enum ApiErrorKind {
    /// 401: the API token is missing, expired or invalid.
    Auth,
    /// 403: the token lacks permission or scope for this operation.
    Forbidden,
    /// 404: the requested entity does not exist.
    NotFound,
    /// 400/412/422: Vikunja rejected the request payload.
    Validation,
    /// 409: the request conflicts with existing state.
    Conflict,
    /// 429: too many requests.
    RateLimited,
    /// 5xx: Vikunja-side failure.
    Server,
    /// Anything else.
    Other,
}

/// The failure category of an HTTP status.
pub open spec fn kind_of(status: u16) -> ApiErrorKind {
    if status == 401 {
        ApiErrorKind::Auth
    } else if status == 403 {
        ApiErrorKind::Forbidden
    } else if status == 404 {
        ApiErrorKind::NotFound
    } else if status == 400 || status == 412 || status == 422 {
        ApiErrorKind::Validation
    } else if status == 409 {
        ApiErrorKind::Conflict
    } else if status == 429 {
        ApiErrorKind::RateLimited
    } else if 500 <= status <= 599 {
        ApiErrorKind::Server
    } else {
        ApiErrorKind::Other
    }
}

/// Name of a kind as `{:?}` prints it.
pub open spec fn kind_name(kind: ApiErrorKind) -> Seq<char> {
    match kind {
        ApiErrorKind::Auth => "Auth"@,
        ApiErrorKind::Forbidden => "Forbidden"@,
        ApiErrorKind::NotFound => "NotFound"@,
        ApiErrorKind::Validation => "Validation"@,
        ApiErrorKind::Conflict => "Conflict"@,
        ApiErrorKind::RateLimited => "RateLimited"@,
        ApiErrorKind::Server => "Server"@,
        ApiErrorKind::Other => "Other"@,
    }
}

/// The snake_case label of a kind, used in structured error data.
pub open spec fn kind_label(kind: ApiErrorKind) -> Seq<char> {
    match kind {
        ApiErrorKind::Auth => "auth"@,
        ApiErrorKind::Forbidden => "forbidden"@,
        ApiErrorKind::NotFound => "not_found"@,
        ApiErrorKind::Validation => "validation"@,
        ApiErrorKind::Conflict => "conflict"@,
        ApiErrorKind::RateLimited => "rate_limited"@,
        ApiErrorKind::Server => "server"@,
        ApiErrorKind::Other => "other"@,
    }
}

/// The label of each kind is the snake_case form of its name: `NotFound`
/// is labelled `not_found`, `RateLimited` `rate_limited`.
pub proof fn lemma_kind_labels_are_snake_case(kind: ApiErrorKind)
    ensures
        kind_label(kind) == snake_case(kind_name(kind)),
{
    reveal_strlit("Auth");
    reveal_strlit("auth");
    reveal_strlit("Forbidden");
    reveal_strlit("forbidden");
    reveal_strlit("NotFound");
    reveal_strlit("not_found");
    reveal_strlit("Validation");
    reveal_strlit("validation");
    reveal_strlit("Conflict");
    reveal_strlit("conflict");
    reveal_strlit("RateLimited");
    reveal_strlit("rate_limited");
    reveal_strlit("Server");
    reveal_strlit("server");
    reveal_strlit("Other");
    reveal_strlit("other");
    reveal_with_fuel(snake_case, 12);
    assert(snake_case("Auth"@) =~= "auth"@);
    assert(snake_case("Forbidden"@) =~= "forbidden"@);
    assert(snake_case("NotFound"@) =~= "not_found"@);
    assert(snake_case("Validation"@) =~= "validation"@);
    assert(snake_case("Conflict"@) =~= "conflict"@);
    assert(snake_case("RateLimited"@) =~= "rate_limited"@);
    assert(snake_case("Server"@) =~= "server"@);
    assert(snake_case("Other"@) =~= "other"@);
}

impl ApiErrorKind {
    pub fn from_status(status: u16) -> (k: Self)
        ensures
            k == kind_of(status),
    {
        if status == 401 {
            ApiErrorKind::Auth
        } else if status == 403 {
            ApiErrorKind::Forbidden
        } else if status == 404 {
            ApiErrorKind::NotFound
        } else if status == 400 || status == 412 || status == 422 {
            ApiErrorKind::Validation
        } else if status == 409 {
            ApiErrorKind::Conflict
        } else if status == 429 {
            ApiErrorKind::RateLimited
        } else if 500 <= status && status <= 599 {
            ApiErrorKind::Server
        } else {
            ApiErrorKind::Other
        }
    }

    /// The `{:?}` name of this kind.
    pub fn name(self) -> (s: &'static str)
        ensures
            s@ == kind_name(self),
    {
        match self {
            ApiErrorKind::Auth => "Auth",
            ApiErrorKind::Forbidden => "Forbidden",
            ApiErrorKind::NotFound => "NotFound",
            ApiErrorKind::Validation => "Validation",
            ApiErrorKind::Conflict => "Conflict",
            ApiErrorKind::RateLimited => "RateLimited",
            ApiErrorKind::Server => "Server",
            ApiErrorKind::Other => "Other",
        }
    }

    /// The snake_case label of this kind.
    pub fn label(self) -> (s: &'static str)
        ensures
            s@ == kind_label(self),
    {
        match self {
            ApiErrorKind::Auth => "auth",
            ApiErrorKind::Forbidden => "forbidden",
            ApiErrorKind::NotFound => "not_found",
            ApiErrorKind::Validation => "validation",
            ApiErrorKind::Conflict => "conflict",
            ApiErrorKind::RateLimited => "rate_limited",
            ApiErrorKind::Server => "server",
            ApiErrorKind::Other => "other",
        }
    }
}

/// Errors returned by the Vikunja API client and the tool layer.
#[derive(Debug)]
pub enum Error {
    /// Vikunja answered with a non-success HTTP status.
    Api {
        /// Endpoint category, e.g. `tasks.update`.
        endpoint: &'static str,
        status: u16,
        kind: ApiErrorKind,
        /// Vikunja-specific error code from the response body, if present.
        code: Option<i64>,
        message: String,
    },
    /// The request never produced an HTTP response (DNS, TLS, connect, ...).
    Network { endpoint: &'static str, detail: String },
    /// The request exceeded the configured timeout.
    Timeout { endpoint: &'static str },
    /// Vikunja answered 2xx but the body could not be decoded.
    InvalidResponse { endpoint: &'static str, detail: String },
    /// Local file I/O failed while handling an attachment.
    Io { detail: String },
    /// A response body exceeded the caller-imposed size limit.
    TooLarge {
        endpoint: &'static str,
        /// Size announced via `Content-Length`, when the server sent it.
        size: Option<u64>,
        limit: u64,
    },
    /// A tool argument was rejected before any request was made.
    InvalidArgument(String),
}

/// The decoded `{"code": .., "message": ..}` body of a Vikunja error.
#[derive(Debug, Clone, PartialEq)]
pub struct ErrorBody {
    pub code: Option<i64>,
    pub message: String,
}

/// Fallback message when a failed response has no usable body.
pub open spec fn default_status_message(status: u16) -> Seq<char> {
    if status == 401 {
        "unauthorized"@
    } else if status == 403 {
        "forbidden"@
    } else if status == 404 {
        "not found"@
    } else if status == 429 {
        "too many requests"@
    } else if 500 <= status <= 599 {
        "server error"@
    } else {
        "request failed"@
    }
}

fn default_status_message_exec(status: u16) -> (s: &'static str)
    ensures
        s@ == default_status_message(status),
{
    if status == 401 {
        "unauthorized"
    } else if status == 403 {
        "forbidden"
    } else if status == 404 {
        "not found"
    } else if status == 429 {
        "too many requests"
    } else if 500 <= status && status <= 599 {
        "server error"
    } else {
        "request failed"
    }
}

// ----- Truncation by UTF-8 length --------------------------------------------

/// Number of bytes the UTF-8 encoding of `c` takes.
pub open spec fn utf8_width(c: char) -> nat {
    let u = c as u32;
    if u < 0x80 {
        1
    } else if u < 0x800 {
        2
    } else if u < 0x10000 {
        3
    } else {
        4
    }
}

/// Number of bytes the UTF-8 encoding of `s` takes.
pub open spec fn utf8_len(s: Seq<char>) -> nat
    decreases s.len(),
{
    if s.len() == 0 {
        0
    } else {
        utf8_len(s.drop_last()) + utf8_width(s.last())
    }
}

/// Number of leading characters of `s` whose encoding fits in `max` bytes.
pub open spec fn fitting_chars(s: Seq<char>, max: nat) -> nat
    decreases s.len(),
{
    if s.len() == 0 || utf8_width(s[0]) > max {
        0
    } else {
        1 + fitting_chars(s.drop_first(), (max - utf8_width(s[0])) as nat)
    }
}

/// `s` cut to at most `max` bytes on a character boundary, with `...`
/// appended when anything was cut.
pub open spec fn truncated(s: Seq<char>, max: nat) -> Seq<char> {
    if utf8_len(s) <= max {
        s
    } else {
        s.take(fitting_chars(s, max) as int) + "..."@
    }
}

fn char_width(c: char) -> (w: usize)
    ensures
        w == utf8_width(c),
{
    let u = c as u32;
    if u < 0x80 {
        1
    } else if u < 0x800 {
        2
    } else if u < 0x10000 {
        3
    } else {
        4
    }
}

proof fn lemma_utf8_len_first(s: Seq<char>)
    requires
        s.len() > 0,
    ensures
        utf8_len(s) == utf8_width(s[0]) + utf8_len(s.drop_first()),
    decreases s.len(),
{
    if s.len() > 1 {
        let a = s.drop_last();
        let b = s.drop_first();
        lemma_utf8_len_first(a);
        assert(a.drop_first() =~= b.drop_last());
        assert(a[0] == s[0]);
        assert(b.last() == s.last());
        assert(utf8_len(s) == utf8_len(a) + utf8_width(s.last()));
        assert(utf8_len(b) == utf8_len(b.drop_last()) + utf8_width(b.last()));
    } else {
        assert(s.drop_first().len() == 0);
        assert(s.drop_last().len() == 0);
        assert(s.last() == s[0]);
        assert(utf8_len(s) == utf8_len(s.drop_last()) + utf8_width(s.last()));
        assert(utf8_len(s.drop_first()) == 0);
        assert(utf8_len(s.drop_last()) == 0);
    }
}

proof fn lemma_utf8_len_take_step(s: Seq<char>, k: int)
    requires
        0 <= k < s.len(),
    ensures
        utf8_len(s.take(k + 1)) == utf8_len(s.take(k)) + utf8_width(s[k]),
{
    assert(s.take(k + 1).drop_last() =~= s.take(k));
}

proof fn lemma_fitting_chars_step(s: Seq<char>, max: nat, k: int, used: nat)
    requires
        0 <= k <= s.len(),
        used == utf8_len(s.take(k)),
        used <= max,
        fitting_chars(s, max) == k + fitting_chars(s.skip(k), (max - used) as nat),
    ensures
        k < s.len() && utf8_width(s[k]) <= max - used ==> fitting_chars(s, max) == k + 1
            + fitting_chars(s.skip(k + 1), (max - used - utf8_width(s[k])) as nat),
        k == s.len() || utf8_width(s[k]) > max - used ==> fitting_chars(s, max) == k,
{
    if k < s.len() {
        assert(s.skip(k)[0] == s[k]);
        assert(s.skip(k).drop_first() =~= s.skip(k + 1));
    } else {
        assert(s.skip(k).len() == 0);
    }
}

proof fn lemma_fitting_prefix(s: Seq<char>, max: nat)
    ensures
        fitting_chars(s, max) <= s.len(),
        utf8_len(s.take(fitting_chars(s, max) as int)) <= max,
        fitting_chars(s, max) < s.len() ==> utf8_len(s.take(fitting_chars(s, max) as int + 1)) > max,
    decreases s.len(),
{
    if s.len() == 0 || utf8_width(s[0]) > max {
        assert(s.take(0).len() == 0);
        if s.len() > 0 {
            lemma_utf8_len_take_step(s, 0);
        }
    } else {
        let t = s.drop_first();
        let m = (max - utf8_width(s[0])) as nat;
        lemma_fitting_prefix(t, m);
        let j = fitting_chars(t, m) as int;
        lemma_utf8_len_first(s.take(j + 1));
        assert(s.take(j + 1).drop_first() =~= t.take(j));
        assert(s.take(j + 1)[0] == s[0]);
        if j < t.len() {
            lemma_utf8_len_first(s.take(j + 2));
            assert(s.take(j + 2).drop_first() =~= t.take(j + 1));
            assert(s.take(j + 2)[0] == s[0]);
        }
    }
}

proof fn lemma_utf8_len_concat(a: Seq<char>, b: Seq<char>)
    ensures
        utf8_len(a + b) == utf8_len(a) + utf8_len(b),
    decreases b.len(),
{
    if b.len() == 0 {
        assert(a + b =~= a);
    } else {
        lemma_utf8_len_concat(a, b.drop_last());
        assert((a + b).drop_last() =~= a + b.drop_last());
        assert((a + b).last() == b.last());
    }
}

/// `truncate` keeps the longest prefix of whole characters whose encoding
/// fits in `max` bytes: text that fits is kept whole; otherwise the kept
/// prefix fits and one character more would not, and `...` follows it. The
/// result never takes more than `max + 3` bytes.
pub proof fn lemma_truncation_keeps_longest_fit(s: Seq<char>, max: nat)
    ensures
        utf8_len(s) <= max ==> truncated(s, max) == s,
        utf8_len(s) > max ==> {
            let k = fitting_chars(s, max) as int;
            &&& k < s.len()
            &&& truncated(s, max) == s.take(k) + "..."@
            &&& utf8_len(s.take(k)) <= max
            &&& utf8_len(s.take(k + 1)) > max
        },
        utf8_len(truncated(s, max)) <= max + 3,
{
    lemma_fitting_prefix(s, max);
    if utf8_len(s) > max {
        let k = fitting_chars(s, max) as int;
        if k == s.len() {
            assert(s.take(k) =~= s);
        }
        reveal_strlit("...");
        lemma_utf8_len_concat(s.take(k), "..."@);
        let d = "..."@;
        assert(d.drop_last().drop_last().drop_last().len() == 0);
        assert(utf8_len(d) == 3) by {
            reveal_with_fuel(utf8_len, 4);
        }
    }
}

/// Cuts `s` to at most `max` bytes on a character boundary, appending
/// `...` when anything was cut.
pub fn truncate(s: &str, max: usize) -> (r: String)
    ensures
        r@ == truncated(s@, max as nat),
{
    truncate_chars(&chars_of(s), max)
}

fn truncate_chars(s: &Vec<char>, max: usize) -> (r: String)
    ensures
        r@ == truncated(s@, max as nat),
{
    let ghost sv = s@;
    let mut used: usize = 0;
    let mut k: usize = 0;
    assert(sv.skip(0) =~= sv);
    // Find how many characters fit in `max` bytes.
    while k < s.len() && char_width(s[k]) <= max - used
        invariant
            k <= s.len(),
            sv == s@,
            used == utf8_len(sv.take(k as int)),
            used <= max,
            fitting_chars(sv, max as nat) == k + fitting_chars(sv.skip(k as int), (max - used) as nat),
        decreases s.len() - k,
    {
        proof {
            lemma_fitting_chars_step(sv, max as nat, k as int, used as nat);
            lemma_utf8_len_take_step(sv, k as int);
        }
        used = used + char_width(s[k]);
        k = k + 1;
    }
    proof {
        lemma_fitting_chars_step(sv, max as nat, k as int, used as nat);
    }
    if k == s.len() {
        assert(sv.take(k as int) =~= sv);
        string_of(s)
    } else {
        proof {
            // The next character does not fit, so neither does the whole.
            lemma_utf8_len_take_step(sv, k as int);
            lemma_utf8_len_prefix_le(sv, k + 1);
        }
        let prefix = crate::text::copy_range(s, 0, k);
        let mut r = string_of(&prefix);
        push_str(&mut r, "...");
        assert(prefix@ =~= sv.take(k as int));
        r
    }
}

proof fn lemma_utf8_len_prefix_le(s: Seq<char>, k: int)
    requires
        0 <= k <= s.len(),
    ensures
        utf8_len(s.take(k)) <= utf8_len(s),
    decreases s.len() - k,
{
    if k < s.len() {
        lemma_utf8_len_take_step(s, k);
        lemma_utf8_len_prefix_le(s, k + 1);
    } else {
        assert(s.take(k) =~= s);
    }
}

/// Truncation keeps the UTF-8 length within `max` plus the three bytes
/// of the `...` marker, and keeps a prefix of the input.
pub proof fn lemma_truncated_bounds(s: Seq<char>, max: nat)
    ensures
        utf8_len(s) <= max ==> truncated(s, max) == s,
        utf8_len(s) > max ==> fitting_chars(s, max) <= s.len() && utf8_len(
            s.take(fitting_chars(s, max) as int),
        ) <= max,
    decreases s.len(),
{
    lemma_fitting_chars_bounds(s, max);
}

proof fn lemma_fitting_chars_bounds(s: Seq<char>, max: nat)
    ensures
        fitting_chars(s, max) <= s.len(),
        utf8_len(s.take(fitting_chars(s, max) as int)) <= max,
    decreases s.len(),
{
    if s.len() == 0 || utf8_width(s[0]) > max {
        assert(s.take(0).len() == 0);
    } else {
        let rest = s.drop_first();
        let m2 = (max - utf8_width(s[0])) as nat;
        lemma_fitting_chars_bounds(rest, m2);
        let k = fitting_chars(s, max) as int;
        let t = s.take(k);
        assert(t.len() > 0);
        lemma_utf8_len_first(t);
        assert(t.drop_first() =~= rest.take(k - 1));
        assert(t[0] == s[0]);
    }
}

// ----- Construction ----------------------------------------------------------

/// `String::from_utf8_lossy`: the bytes decoded as UTF-8, with invalid
/// sequences replaced by U+FFFD.
pub uninterp spec fn lossy_utf8(bytes: Seq<u8>) -> Seq<char>;

/// Decodes bytes as UTF-8 the way `String::from_utf8_lossy` does. Of the
/// result the contract states that it is `lossy_utf8` of the input and,
/// when the input is valid UTF-8, its exact decoding.
#[verifier::external_body]
fn utf8_lossy(bytes: &[u8]) -> (s: String)
    ensures
        s@ == lossy_utf8(bytes@),
        vstd::utf8::valid_utf8(bytes@) ==> s@ == vstd::utf8::decode_utf8(bytes@),
{
    String::from_utf8_lossy(bytes).into_owned()
}

/// The message an API error carries: the decoded Vikunja message, else
/// the trimmed (and truncated) response text, else a default for the
/// status.
pub open spec fn api_message(status: u16, decoded: Option<ErrorBody>, body: Seq<u8>) -> Seq<char> {
    match decoded {
        Some(b) => b.message@,
        None => {
            let text = trim(lossy_utf8(body));
            if text.len() == 0 {
                default_status_message(status)
            } else {
                truncated(text, 300)
            }
        },
    }
}

/// The error an API failure becomes.
pub open spec fn is_api_error(
    e: Error,
    endpoint: &'static str,
    status: u16,
    code: Option<i64>,
    message: Seq<char>,
) -> bool {
    e matches Error::Api { endpoint: ep, status: st, kind, code: c, message: m } && ep == endpoint
        && st == status && kind == kind_of(status) && c == code && m@ == message
}

impl Error {
    /// Builds an API error from a status code, the response body decoded as
    /// Vikunja's `{"code": .., "message": ..}` shape when that succeeded,
    /// and the raw body for the fallback message.
    pub fn from_status(
        endpoint: &'static str,
        status: u16,
        decoded: Option<ErrorBody>,
        body: &[u8],
    ) -> (e: Error)
        ensures
            is_api_error(
                e,
                endpoint,
                status,
                match decoded {
                    Some(b) => b.code,
                    None => None,
                },
                api_message(status, decoded, body@),
            ),
    {
        let ghost d = decoded;
        let (code, message) = match decoded {
            Some(b) => (b.code, b.message),
            None => {
                let text = utf8_lossy(body);
                let trimmed = trim_chars(&crate::text::chars_of(text.as_str()));
                let message = if trimmed.len() == 0 {
                    owned(default_status_message_exec(status))
                } else {
                    truncate_chars(&trimmed, 300)
                };
                (None, message)
            },
        };
        Error::Api { endpoint, status, kind: ApiErrorKind::from_status(status), code, message }
    }

    /// The human-readable description of this error (its `Display` text).
    pub fn message(&self) -> (s: String)
        ensures
            s@ == error_text(*self),
    {
        match self {
            Error::Api { endpoint, status, kind, code: _, message } => {
                let mut s = owned("Vikunja API error in ");
                push_str(&mut s, endpoint);
                push_str(&mut s, ": HTTP ");
                push_decimal(&mut s, *status as u64);
                push_str(&mut s, " (");
                push_str(&mut s, kind.name());
                push_str(&mut s, "): ");
                push_str(&mut s, message.as_str());
                s
            },
            Error::Network { endpoint, detail } => {
                let mut s = owned("network error calling Vikunja (");
                push_str(&mut s, endpoint);
                push_str(&mut s, "): ");
                push_str(&mut s, detail.as_str());
                s
            },
            Error::Timeout { endpoint } => {
                let mut s = owned("timed out calling Vikunja (");
                push_str(&mut s, endpoint);
                push_str(&mut s, ")");
                s
            },
            Error::InvalidResponse { endpoint, detail } => {
                let mut s = owned("invalid response from Vikunja (");
                push_str(&mut s, endpoint);
                push_str(&mut s, "): ");
                push_str(&mut s, detail.as_str());
                s
            },
            Error::Io { detail } => {
                let mut s = owned("attachment file error: ");
                push_str(&mut s, detail.as_str());
                s
            },
            Error::TooLarge { endpoint, size: _, limit } => {
                let mut s = owned("response from Vikunja (");
                push_str(&mut s, endpoint);
                push_str(&mut s, ") exceeds the ");
                push_decimal(&mut s, *limit);
                push_str(&mut s, "-byte limit");
                s
            },
            Error::InvalidArgument(message) => {
                let mut s = owned("invalid argument: ");
                push_str(&mut s, message.as_str());
                s
            },
        }
    }
}

/// The `Display` text of an error.
pub open spec fn error_text(e: Error) -> Seq<char> {
    match e {
        Error::Api { endpoint, status, kind, code: _, message } => "Vikunja API error in "@
            + endpoint@ + ": HTTP "@ + decimal(status as nat) + " ("@ + kind_name(kind) + "): "@
            + message@,
        Error::Network { endpoint, detail } => "network error calling Vikunja ("@ + endpoint@
            + "): "@ + detail@,
        Error::Timeout { endpoint } => "timed out calling Vikunja ("@ + endpoint@ + ")"@,
        Error::InvalidResponse { endpoint, detail } => "invalid response from Vikunja ("@
            + endpoint@ + "): "@ + detail@,
        Error::Io { detail } => "attachment file error: "@ + detail@,
        Error::TooLarge { endpoint, size: _, limit } => "response from Vikunja ("@ + endpoint@
            + ") exceeds the "@ + decimal(limit as nat) + "-byte limit"@,
        Error::InvalidArgument(message) => "invalid argument: "@ + message@,
    }
}

/// An `InvalidArgument` error with the given message.
pub open spec fn is_invalid_argument(e: Error, message: Seq<char>) -> bool {
    e matches Error::InvalidArgument(m) && m@ == message
}

// ----- Mapping onto MCP errors -----------------------------------------------

/// The two JSON-RPC error codes tool errors use.
#[derive(Debug, Clone, Copy, PartialEq, Eq)]
pub enum McpErrorCode {
    /// The caller's request was wrong (bad argument, missing entity, ...).
    InvalidParams,
    /// The server or Vikunja failed.
    InternalError,
}

/// Structured, secret-free details attached to an MCP error.
#[derive(Debug, Clone, PartialEq)]
pub enum McpErrorData {
    /// `{"endpoint", "http_status", "kind", "vikunja_error_code"}`.
    Api {
        endpoint: &'static str,
        http_status: u16,
        kind: ApiErrorKind,
        vikunja_error_code: Option<i64>,
    },
    /// `{"endpoint", "kind"}` with kind `network` or `invalid_response`.
    Transport { endpoint: &'static str, category: &'static str },
    /// `{"endpoint", "kind": "too_large", "size", "limit"}`.
    TooLarge { endpoint: &'static str, size: Option<u64>, limit: u64 },
}

/// An MCP error: code, human-readable message and optional details.
#[derive(Debug, Clone, PartialEq)]
pub struct McpErrorInfo {
    pub code: McpErrorCode,
    pub message: String,
    pub data: Option<McpErrorData>,
}

/// Which MCP code an error maps to: caller mistakes (missing entities,
/// rejected payloads, conflicts, bad arguments, oversized bodies) are
/// invalid params; everything else is an internal error.
pub open spec fn mcp_code(e: Error) -> McpErrorCode {
    match e {
        Error::Api { kind, .. } => match kind {
            ApiErrorKind::NotFound | ApiErrorKind::Validation | ApiErrorKind::Conflict =>
                McpErrorCode::InvalidParams,
            _ => McpErrorCode::InternalError,
        },
        Error::InvalidArgument(_) | Error::TooLarge { .. } => McpErrorCode::InvalidParams,
        _ => McpErrorCode::InternalError,
    }
}

/// The message of the MCP error an error maps to.
pub open spec fn mcp_text(e: Error) -> Seq<char> {
    match e {
        Error::Api { endpoint, status, kind, code: _, message } => match kind {
            ApiErrorKind::Auth => "Vikunja rejected the API token (HTTP 401) while calling "@
                + endpoint@ + ": "@ + message@ + ". Check VIKUNJA_API_TOKEN."@,
            ApiErrorKind::Forbidden => "Vikunja denied access (HTTP 403) while calling "@
                + endpoint@ + ": "@ + message@
                + ". The API token may be missing a scope for this operation."@,
            ApiErrorKind::NotFound => "Not found (HTTP 404) while calling "@ + endpoint@ + ": "@
                + message@,
            ApiErrorKind::Validation => "Vikunja rejected the request (HTTP "@ + decimal(
                status as nat,
            ) + ") in "@ + endpoint@ + ": "@ + message@,
            ApiErrorKind::Conflict => "Vikunja reported a conflict (HTTP 409) in "@ + endpoint@
                + ": "@ + message@,
            ApiErrorKind::RateLimited => "Vikunja rate limit hit (HTTP 429) while calling "@
                + endpoint@ + ": "@ + message@ + ". Retry later."@,
            _ => "Vikunja returned HTTP "@ + decimal(status as nat) + " while calling "@
                + endpoint@ + ": "@ + message@,
        },
        Error::InvalidArgument(message) => message@,
        _ => error_text(e),
    }
}

/// The structured details of the MCP error an error maps to.
pub open spec fn mcp_data(e: Error) -> Option<McpErrorData> {
    match e {
        Error::Api { endpoint, status, kind, code, .. } => Some(
            McpErrorData::Api { endpoint, http_status: status, kind, vikunja_error_code: code },
        ),
        Error::Network { endpoint, .. } | Error::Timeout { endpoint } => Some(
            McpErrorData::Transport { endpoint, category: "network" },
        ),
        Error::InvalidResponse { endpoint, .. } => Some(
            McpErrorData::Transport { endpoint, category: "invalid_response" },
        ),
        Error::TooLarge { endpoint, size, limit } => Some(
            McpErrorData::TooLarge { endpoint, size, limit },
        ),
        _ => None,
    }
}

impl Error {
    /// Converts this error into an MCP error with safe, structured details.
    pub fn to_mcp(&self) -> (m: McpErrorInfo)
        ensures
            m.code == mcp_code(*self),
            m.message@ == mcp_text(*self),
            m.data == mcp_data(*self),
    {
        match self {
            Error::Api { endpoint, status, kind, code, message } => {
                let data = Some(
                    McpErrorData::Api {
                        endpoint: *endpoint,
                        http_status: *status,
                        kind: *kind,
                        vikunja_error_code: *code,
                    },
                );
                let mut text;
                let code;
                match kind {
                    ApiErrorKind::Auth => {
                        text = owned("Vikunja rejected the API token (HTTP 401) while calling ");
                        push_str(&mut text, endpoint);
                        push_str(&mut text, ": ");
                        push_str(&mut text, message.as_str());
                        push_str(&mut text, ". Check VIKUNJA_API_TOKEN.");
                        code = McpErrorCode::InternalError;
                    },
                    ApiErrorKind::Forbidden => {
                        text = owned("Vikunja denied access (HTTP 403) while calling ");
                        push_str(&mut text, endpoint);
                        push_str(&mut text, ": ");
                        push_str(&mut text, message.as_str());
                        push_str(
                            &mut text,
                            ". The API token may be missing a scope for this operation.",
                        );
                        code = McpErrorCode::InternalError;
                    },
                    ApiErrorKind::NotFound => {
                        text = owned("Not found (HTTP 404) while calling ");
                        push_str(&mut text, endpoint);
                        push_str(&mut text, ": ");
                        push_str(&mut text, message.as_str());
                        code = McpErrorCode::InvalidParams;
                    },
                    ApiErrorKind::Validation => {
                        text = owned("Vikunja rejected the request (HTTP ");
                        push_decimal(&mut text, *status as u64);
                        push_str(&mut text, ") in ");
                        push_str(&mut text, endpoint);
                        push_str(&mut text, ": ");
                        push_str(&mut text, message.as_str());
                        code = McpErrorCode::InvalidParams;
                    },
                    ApiErrorKind::Conflict => {
                        text = owned("Vikunja reported a conflict (HTTP 409) in ");
                        push_str(&mut text, endpoint);
                        push_str(&mut text, ": ");
                        push_str(&mut text, message.as_str());
                        code = McpErrorCode::InvalidParams;
                    },
                    ApiErrorKind::RateLimited => {
                        text = owned("Vikunja rate limit hit (HTTP 429) while calling ");
                        push_str(&mut text, endpoint);
                        push_str(&mut text, ": ");
                        push_str(&mut text, message.as_str());
                        push_str(&mut text, ". Retry later.");
                        code = McpErrorCode::InternalError;
                    },
                    _ => {
                        text = owned("Vikunja returned HTTP ");
                        push_decimal(&mut text, *status as u64);
                        push_str(&mut text, " while calling ");
                        push_str(&mut text, endpoint);
                        push_str(&mut text, ": ");
                        push_str(&mut text, message.as_str());
                        code = McpErrorCode::InternalError;
                    },
                }
                McpErrorInfo { code, message: text, data }
            },
            Error::InvalidArgument(message) => McpErrorInfo {
                code: McpErrorCode::InvalidParams,
                message: owned(message.as_str()),
                data: None,
            },
            Error::Network { endpoint, .. } => McpErrorInfo {
                code: McpErrorCode::InternalError,
                message: self.message(),
                data: Some(McpErrorData::Transport { endpoint: *endpoint, category: "network" }),
            },
            Error::Timeout { endpoint } => McpErrorInfo {
                code: McpErrorCode::InternalError,
                message: self.message(),
                data: Some(McpErrorData::Transport { endpoint: *endpoint, category: "network" }),
            },
            Error::InvalidResponse { endpoint, .. } => McpErrorInfo {
                code: McpErrorCode::InternalError,
                message: self.message(),
                data: Some(
                    McpErrorData::Transport { endpoint: *endpoint, category: "invalid_response" },
                ),
            },
            Error::TooLarge { endpoint, size, limit } => McpErrorInfo {
                code: McpErrorCode::InvalidParams,
                message: self.message(),
                data: Some(McpErrorData::TooLarge { endpoint: *endpoint, size: *size, limit: *limit }),
            },
            Error::Io { .. } => McpErrorInfo {
                code: McpErrorCode::InternalError,
                message: self.message(),
                data: None,
            },
        }
    }
}

/// `r` is a rejection of an argument with the given message.
pub open spec fn rejects<T>(r: Result<T, Error>, message: Seq<char>) -> bool {
    match r {
        Err(e) => is_invalid_argument(e, message),
        Ok(_) => false,
    }
}

// ----- Transport failures and metric labels ---------------------------------

/// How a request failed before any HTTP response arrived, as the HTTP
/// client reports it.
#[derive(Debug, Clone, Copy, PartialEq, Eq, Structural)]
pub enum TransportFailure {
    /// The request exceeded the configured timeout.
    Timeout,
    /// The connection could not be established.
    Connect,
    /// The request could not be built or sent.
    Request,
    /// The response body could not be read or decoded.
    Body,
    /// Any other transport failure.
    Other,
}

/// The detail text of a network error.
pub open spec fn transport_detail(f: TransportFailure) -> Seq<char> {
    match f {
        TransportFailure::Connect => "connection failed (is VIKUNJA_URL reachable?)"@,
        TransportFailure::Request => "request could not be sent"@,
        TransportFailure::Body => "response body could not be read"@,
        _ => "transport error"@,
    }
}

/// The low-cardinality category of an error, used as the outcome label of
/// request metrics and as the kind of a failed bulk item.
pub open spec fn category(e: Error) -> Seq<char> {
    match e {
        Error::Api { kind, .. } => kind_label(kind),
        Error::Network { .. } => "network"@,
        Error::Timeout { .. } => "timeout"@,
        Error::InvalidResponse { .. } => "invalid_response"@,
        Error::Io { .. } => "io"@,
        Error::TooLarge { .. } => "too_large"@,
        Error::InvalidArgument(_) => "invalid_argument"@,
    }
}

impl Error {
    /// The error for a request that produced no HTTP response. The detail
    /// is fixed text: it never carries headers, so never the token.
    pub fn from_transport(endpoint: &'static str, failure: TransportFailure) -> (e: Error)
        ensures
            failure == TransportFailure::Timeout ==> e == (Error::Timeout { endpoint }),
            failure != TransportFailure::Timeout ==> (e matches Error::Network { endpoint: ep, detail }
                && ep == endpoint && detail@ == transport_detail(failure)),
    {
        match failure {
            TransportFailure::Timeout => Error::Timeout { endpoint },
            TransportFailure::Connect => Error::Network {
                endpoint,
                detail: owned("connection failed (is VIKUNJA_URL reachable?)"),
            },
            TransportFailure::Request => Error::Network {
                endpoint,
                detail: owned("request could not be sent"),
            },
            TransportFailure::Body => Error::Network {
                endpoint,
                detail: owned("response body could not be read"),
            },
            TransportFailure::Other => Error::Network { endpoint, detail: owned("transport error") },
        }
    }

    /// The category of this error (see [`category`]).
    pub fn metric_label(&self) -> (s: &'static str)
        ensures
            s@ == category(*self),
    {
        match self {
            Error::Api { kind, .. } => kind.label(),
            Error::Network { .. } => "network",
            Error::Timeout { .. } => "timeout",
            Error::InvalidResponse { .. } => "invalid_response",
            Error::Io { .. } => "io",
            Error::TooLarge { .. } => "too_large",
            Error::InvalidArgument(_) => "invalid_argument",
        }
    }
}

} // verus!
