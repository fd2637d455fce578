//! Shared classification vocabulary for errors and logs.
//!
//! Both the structured error and the structured log event draw their
//! `phase` / `category` / `code` fields from the enums here, so the UI can
//! filter and badge by stable machine values instead of parsing prose. The
//! classifiers map protocol-native status (HTTP status, S3 error code, FTP
//! reply, SFTP message) onto one connector-agnostic [`ErrorCategory`].
use crate::text::{has_substring, lowercase, lowercase_of, str_contains, str_eq};
use vstd::prelude::*;

verus! {

/// Severity. Mirrors the frontend `LogLevel`.
#[derive(Debug, Clone, Copy, PartialEq, Eq, Structural)]
pub enum Level {
    Debug,
    Info,
    Warn,
    Error,
}

/// The wire name of a level.
pub open spec fn level_name(l: Level) -> Seq<char> {
    match l {
        Level::Debug => "debug"@,
        Level::Info => "info"@,
        Level::Warn => "warn"@,
        Level::Error => "error"@,
    }
}

impl Level {
    /// The lowercase wire name of the level.
    pub fn as_str(self) -> (r: &'static str)
        ensures
            r@ == level_name(self),
    {
        match self {
            Level::Debug => "debug",
            Level::Info => "info",
            Level::Warn => "warn",
            Level::Error => "error",
        }
    }
}

/// Coarse, connector-agnostic failure class. This is what the UI badges and what
/// "retry"-style affordances key off.
#[derive(Debug, Clone, Copy, PartialEq, Eq, Structural)]
pub enum ErrorCategory {
    /// Bad / missing / expired credentials.
    Auth,
    /// Authenticated, but the principal is not allowed to do this.
    Permission,
    /// Target object / path / bucket does not exist.
    NotFound,
    /// DNS, TCP, timeout, connection reset: the bytes never made it.
    Network,
    /// TLS handshake / certificate problems.
    Tls,
    /// A well-formed connection but a malformed protocol exchange.
    Protocol,
    /// Throttled; back off and retry.
    RateLimited,
    /// 3xx: usually a wrong region or endpoint.
    Redirect,
    /// 4xx miscellaneous: the request itself is bad.
    Client,
    /// 5xx: the remote is at fault; usually retryable.
    Server,
    /// Local misconfiguration (missing host, malformed endpoint, ...).
    Config,
    /// Local filesystem / IO error.
    Io,
    Unknown,
}

/// The categories for which a fresh attempt could plausibly succeed.
pub open spec fn category_retryable(c: ErrorCategory) -> bool {
    c is Network || c is RateLimited || c is Server
}

/// The category-level remediation hint; `Unknown` has none.
pub open spec fn category_hint(c: ErrorCategory) -> Option<Seq<char>> {
    match c {
        ErrorCategory::Auth => Some(
            "Check the credentials for this connection (key / password / token)."@,
        ),
        ErrorCategory::Permission => Some(
            "Authenticated, but not permitted. Check the account's access policy for this path."@,
        ),
        ErrorCategory::NotFound => Some("Verify the path, bucket, or object name still exists."@),
        ErrorCategory::Network => Some(
            "Check your network and the host/port. The server may be unreachable; retrying may help."@,
        ),
        ErrorCategory::Tls => Some(
            "TLS negotiation failed. Check the certificate, the host name, and that the port speaks TLS."@,
        ),
        ErrorCategory::Protocol => Some(
            "The server replied unexpectedly. Check protocol/mode settings."@,
        ),
        ErrorCategory::RateLimited => Some(
            "The server is throttling requests. Retry after a short backoff."@,
        ),
        ErrorCategory::Redirect => Some(
            "The endpoint redirected the request \u{2014} usually a wrong region or endpoint URL."@,
        ),
        ErrorCategory::Client => Some(
            "The request was rejected as invalid. Check the path and parameters."@,
        ),
        ErrorCategory::Server => Some("The server reported an internal error. Retrying may help."@),
        ErrorCategory::Config => Some(
            "This connection is misconfigured. Check host, endpoint, and region."@,
        ),
        ErrorCategory::Io => Some(
            "A local file error occurred. Check the file path, permissions, and disk space."@,
        ),
        ErrorCategory::Unknown => None,
    }
}

impl ErrorCategory {
    /// Whether a fresh attempt could plausibly succeed without user action.
    pub fn retryable(self) -> (r: bool)
        ensures
            r == category_retryable(self),
    {
        match self {
            ErrorCategory::Network | ErrorCategory::RateLimited | ErrorCategory::Server => true,
            _ => false,
        }
    }

    /// A generic, category-level hint. Connectors may override with something
    /// more specific at the call site.
    pub fn remediation(self) -> (r: Option<&'static str>)
        ensures
            r is Some <==> category_hint(self) is Some,
            r matches Some(s) ==> Some(s@) == category_hint(self),
    {
        match self {
            ErrorCategory::Auth => Some(
                "Check the credentials for this connection (key / password / token).",
            ),
            ErrorCategory::Permission => Some(
                "Authenticated, but not permitted. Check the account's access policy for this path.",
            ),
            ErrorCategory::NotFound => Some("Verify the path, bucket, or object name still exists."),
            ErrorCategory::Network => Some(
                "Check your network and the host/port. The server may be unreachable; retrying may help.",
            ),
            ErrorCategory::Tls => Some(
                "TLS negotiation failed. Check the certificate, the host name, and that the port speaks TLS.",
            ),
            ErrorCategory::Protocol => Some(
                "The server replied unexpectedly. Check protocol/mode settings.",
            ),
            ErrorCategory::RateLimited => Some(
                "The server is throttling requests. Retry after a short backoff.",
            ),
            ErrorCategory::Redirect => Some(
                "The endpoint redirected the request \u{2014} usually a wrong region or endpoint URL.",
            ),
            ErrorCategory::Client => Some(
                "The request was rejected as invalid. Check the path and parameters.",
            ),
            ErrorCategory::Server => Some(
                "The server reported an internal error. Retrying may help.",
            ),
            ErrorCategory::Config => Some(
                "This connection is misconfigured. Check host, endpoint, and region.",
            ),
            ErrorCategory::Io => Some(
                "A local file error occurred. Check the file path, permissions, and disk space.",
            ),
            ErrorCategory::Unknown => None,
        }
    }
}

/// Where in an operation's lifecycle an event happened.
#[derive(Debug, Clone, Copy, PartialEq, Eq, Structural)]
pub enum Phase {
    Connect,
    Dns,
    Tcp,
    Tls,
    Handshake,
    Auth,
    Passive,
    List,
    Search,
    Stat,
    Transfer,
    Multipart,
    Delete,
    Mkdir,
    Config,
    /// Raw protocol traffic forwarded from the protocol libraries.
    Protocol,
}

/// The variant name of a phase, as `{:?}` prints it.
pub open spec fn phase_name(p: Phase) -> Seq<char> {
    match p {
        Phase::Connect => "Connect"@,
        Phase::Dns => "Dns"@,
        Phase::Tcp => "Tcp"@,
        Phase::Tls => "Tls"@,
        Phase::Handshake => "Handshake"@,
        Phase::Auth => "Auth"@,
        Phase::Passive => "Passive"@,
        Phase::List => "List"@,
        Phase::Search => "Search"@,
        Phase::Stat => "Stat"@,
        Phase::Transfer => "Transfer"@,
        Phase::Multipart => "Multipart"@,
        Phase::Delete => "Delete"@,
        Phase::Mkdir => "Mkdir"@,
        Phase::Config => "Config"@,
        Phase::Protocol => "Protocol"@,
    }
}

impl Phase {
    /// The variant name of the phase (what `{:?}` prints).
    pub fn name(self) -> (r: &'static str)
        ensures
            r@ == phase_name(self),
    {
        match self {
            Phase::Connect => "Connect",
            Phase::Dns => "Dns",
            Phase::Tcp => "Tcp",
            Phase::Tls => "Tls",
            Phase::Handshake => "Handshake",
            Phase::Auth => "Auth",
            Phase::Passive => "Passive",
            Phase::List => "List",
            Phase::Search => "Search",
            Phase::Stat => "Stat",
            Phase::Transfer => "Transfer",
            Phase::Multipart => "Multipart",
            Phase::Delete => "Delete",
            Phase::Mkdir => "Mkdir",
            Phase::Config => "Config",
            Phase::Protocol => "Protocol",
        }
    }
}

/// A protocol-native status code, tagged by which protocol it came from so the
/// UI can render "HTTP 403" vs "FTP 530" vs "SFTP 3" without guessing.
#[derive(Debug, Clone, Copy, PartialEq, Eq, Structural)]
pub enum StatusCode {
    Http(u16),
    Ftp(u16),
    Sftp(u32),
    Os(i32),
}

// --- Classifiers: protocol code -> category. One place per protocol. ---

/// The HTTP status families: 3xx redirect, the specific 4xx codes, other 4xx
/// client, 5xx server, anything else unknown.
pub open spec fn http_category(status: u16) -> ErrorCategory {
    if 300 <= status <= 399 {
        ErrorCategory::Redirect
    } else if status == 401 {
        ErrorCategory::Auth
    } else if status == 403 {
        ErrorCategory::Permission
    } else if status == 404 || status == 410 {
        ErrorCategory::NotFound
    } else if status == 408 {
        ErrorCategory::Network
    } else if status == 429 {
        ErrorCategory::RateLimited
    } else if 400 <= status <= 499 {
        ErrorCategory::Client
    } else if 500 <= status <= 599 {
        ErrorCategory::Server
    } else {
        ErrorCategory::Unknown
    }
}

/// HTTP/S3 status to category: the 3xx/4xx/5xx split.
pub fn category_for_http(status: u16) -> (r: ErrorCategory)
    ensures
        r == http_category(status),
{
    if 300 <= status && status <= 399 {
        ErrorCategory::Redirect
    } else if status == 401 {
        ErrorCategory::Auth
    } else if status == 403 {
        ErrorCategory::Permission
    } else if status == 404 || status == 410 {
        ErrorCategory::NotFound
    } else if status == 408 {
        ErrorCategory::Network
    } else if status == 429 {
        ErrorCategory::RateLimited
    } else if 400 <= status && status <= 499 {
        ErrorCategory::Client
    } else if 500 <= status && status <= 599 {
        ErrorCategory::Server
    } else {
        ErrorCategory::Unknown
    }
}

/// The S3 error codes this classifier knows, with their category.
pub open spec fn s3_code_category(c: Seq<char>) -> Option<ErrorCategory> {
    if c == "AccessDenied"@ || c == "AllAccessDisabled"@ {
        Some(ErrorCategory::Permission)
    } else if c == "InvalidAccessKeyId"@ || c == "SignatureDoesNotMatch"@ || c == "InvalidToken"@
        || c == "ExpiredToken"@ || c == "TokenRefreshRequired"@ || c == "InvalidSecurity"@ {
        Some(ErrorCategory::Auth)
    } else if c == "NoSuchBucket"@ || c == "NoSuchKey"@ || c == "NoSuchUpload"@ || c
        == "NotFound"@ {
        Some(ErrorCategory::NotFound)
    } else if c == "SlowDown"@ || c == "RequestLimitExceeded"@ || c == "Throttling"@ || c
        == "ThrottlingException"@ {
        Some(ErrorCategory::RateLimited)
    } else if c == "PermanentRedirect"@ || c == "TemporaryRedirect"@ || c
        == "AuthorizationHeaderMalformed"@ {
        Some(ErrorCategory::Redirect)
    } else if c == "InternalError"@ || c == "ServiceUnavailable"@ {
        Some(ErrorCategory::Server)
    } else if c == "InvalidBucketName"@ || c == "InvalidRequest"@ || c == "InvalidArgument"@ || c
        == "MalformedXML"@ || c == "EntityTooLarge"@ || c == "MissingContentLength"@ {
        Some(ErrorCategory::Client)
    } else {
        None
    }
}

/// Whether `code` is one of the given names.
fn is_one_of(code: &str, names: &[&str]) -> (r: bool)
    ensures
        r == exists|i: int| 0 <= i < names@.len() && code@ == names@[i]@,
{
    let mut i: usize = 0;
    while i < names.len()
        invariant
            i <= names.len(),
            forall|k: int| 0 <= k < i ==> code@ != names@[k]@,
        decreases names.len() - i,
    {
        if str_eq(code, names[i]) {
            return true;
        }
        i = i + 1;
    }
    false
}

/// Map an S3 / S3-compatible error code string (e.g. "AccessDenied") to a
/// category. Returns `None` when the code is unknown so the caller can fall back
/// to the HTTP status.
pub fn category_for_s3_code(code: &str) -> (r: Option<ErrorCategory>)
    ensures
        r == s3_code_category(code@),
{
    let permission = ["AccessDenied", "AllAccessDisabled"];
    let auth = [
        "InvalidAccessKeyId",
        "SignatureDoesNotMatch",
        "InvalidToken",
        "ExpiredToken",
        "TokenRefreshRequired",
        "InvalidSecurity",
    ];
    let not_found = ["NoSuchBucket", "NoSuchKey", "NoSuchUpload", "NotFound"];
    let throttled = ["SlowDown", "RequestLimitExceeded", "Throttling", "ThrottlingException"];
    // region / endpoint mismatch
    let redirect = ["PermanentRedirect", "TemporaryRedirect", "AuthorizationHeaderMalformed"];
    let server = ["InternalError", "ServiceUnavailable"];
    let client = [
        "InvalidBucketName",
        "InvalidRequest",
        "InvalidArgument",
        "MalformedXML",
        "EntityTooLarge",
        "MissingContentLength",
    ];
    let c = code;
    let r = if is_one_of(c, &permission) {
        Some(ErrorCategory::Permission)
    } else if is_one_of(c, &auth) {
        Some(ErrorCategory::Auth)
    } else if is_one_of(c, &not_found) {
        Some(ErrorCategory::NotFound)
    } else if is_one_of(c, &throttled) {
        Some(ErrorCategory::RateLimited)
    } else if is_one_of(c, &redirect) {
        Some(ErrorCategory::Redirect)
    } else if is_one_of(c, &server) {
        Some(ErrorCategory::Server)
    } else if is_one_of(c, &client) {
        Some(ErrorCategory::Client)
    } else {
        None
    };
    proof {
        assert(permission@.len() == 2 && auth@.len() == 6 && not_found@.len() == 4);
        assert(throttled@.len() == 4 && redirect@.len() == 3 && server@.len() == 2);
        assert(client@.len() == 6);
        assert(permission@[0]@ == "AccessDenied"@ && permission@[1]@ == "AllAccessDisabled"@);
        assert(auth@[0]@ == "InvalidAccessKeyId"@ && auth@[1]@ == "SignatureDoesNotMatch"@);
        assert(auth@[2]@ == "InvalidToken"@ && auth@[3]@ == "ExpiredToken"@);
        assert(auth@[4]@ == "TokenRefreshRequired"@ && auth@[5]@ == "InvalidSecurity"@);
        assert(not_found@[0]@ == "NoSuchBucket"@ && not_found@[1]@ == "NoSuchKey"@);
        assert(not_found@[2]@ == "NoSuchUpload"@ && not_found@[3]@ == "NotFound"@);
        assert(throttled@[0]@ == "SlowDown"@ && throttled@[1]@ == "RequestLimitExceeded"@);
        assert(throttled@[2]@ == "Throttling"@ && throttled@[3]@ == "ThrottlingException"@);
        assert(redirect@[0]@ == "PermanentRedirect"@ && redirect@[1]@ == "TemporaryRedirect"@);
        assert(redirect@[2]@ == "AuthorizationHeaderMalformed"@);
        assert(server@[0]@ == "InternalError"@ && server@[1]@ == "ServiceUnavailable"@);
        assert(client@[0]@ == "InvalidBucketName"@ && client@[1]@ == "InvalidRequest"@);
        assert(client@[2]@ == "InvalidArgument"@ && client@[3]@ == "MalformedXML"@);
        assert(client@[4]@ == "EntityTooLarge"@ && client@[5]@ == "MissingContentLength"@);
    }
    r
}

/// FTP reply families (RFC 959): the data-connection and auth codes first, then
/// 4xx transient, 5xx permanent.
pub open spec fn ftp_category(code: u16) -> ErrorCategory {
    if code == 421 || code == 425 || code == 426 || code == 434 {
        ErrorCategory::Network
    } else if code == 430 || code == 530 || code == 532 {
        ErrorCategory::Auth
    } else if code == 550 || code == 551 || code == 553 {
        ErrorCategory::NotFound
    } else if code == 552 {
        ErrorCategory::Permission
    } else if code == 450 || code == 451 || code == 452 {
        ErrorCategory::Server
    } else if 500 <= code <= 504 {
        ErrorCategory::Protocol
    } else if 400 <= code <= 499 {
        ErrorCategory::Server
    } else if 500 <= code <= 599 {
        ErrorCategory::Client
    } else {
        ErrorCategory::Unknown
    }
}

/// FTP reply code to category (RFC 959 families: 4xx transient, 5xx permanent).
pub fn category_for_ftp(code: u16) -> (r: ErrorCategory)
    ensures
        r == ftp_category(code),
{
    if code == 421 || code == 425 || code == 426 || code == 434 {
        ErrorCategory::Network  // service/data-connection problems
    } else if code == 430 || code == 530 || code == 532 {
        ErrorCategory::Auth
    } else if code == 550 || code == 551 || code == 553 {
        ErrorCategory::NotFound
    } else if code == 552 {
        ErrorCategory::Permission  // exceeded storage / not allowed
    } else if code == 450 || code == 451 || code == 452 {
        ErrorCategory::Server  // transient action failures
    } else if 500 <= code && code <= 504 {
        ErrorCategory::Protocol  // syntax / not implemented
    } else if 400 <= code && code <= 499 {
        ErrorCategory::Server
    } else if 500 <= code && code <= 599 {
        ErrorCategory::Client
    } else {
        ErrorCategory::Unknown
    }
}

/// The FTP replies worth retrying automatically.
pub open spec fn ftp_code_retryable(code: u16) -> bool {
    code == 421 || code == 425 || code == 426 || code == 450 || code == 451
}

/// Whether an FTP reply code is worth auto-retrying (4xx transient family).
pub fn ftp_retryable(code: u16) -> (r: bool)
    ensures
        r == ftp_code_retryable(code),
{
    code == 421 || code == 425 || code == 426 || code == 450 || code == 451
}

/// SFTP failures classified from the lowercased message text, with the phase
/// as the fallback when the text says nothing recognizable.
pub open spec fn sftp_category(phase: Phase, m: Seq<char>) -> ErrorCategory {
    if has_substring(m, "permission denied"@) {
        ErrorCategory::Permission
    } else if has_substring(m, "no such file"@) || has_substring(m, "not found"@) {
        ErrorCategory::NotFound
    } else if has_substring(m, "no connection"@) || has_substring(m, "connection lost"@)
        || has_substring(m, "eof"@) {
        ErrorCategory::Network
    } else if has_substring(m, "bad message"@) || has_substring(m, "unsupported"@) {
        ErrorCategory::Protocol
    } else {
        match phase {
            Phase::Auth => ErrorCategory::Auth,
            Phase::Connect | Phase::Tcp | Phase::Dns => ErrorCategory::Network,
            Phase::Handshake | Phase::Tls => ErrorCategory::Tls,
            _ => ErrorCategory::Unknown,
        }
    }
}

/// SFTP status surfaces as a message rather than a numeric code, so the
/// failure is classified from the message text; `phase` gives the fallback
/// when the message is opaque.
pub fn category_for_sftp(phase: Phase, msg: &str) -> (r: ErrorCategory)
    ensures
        r == sftp_category(phase, lowercase_of(msg@)),
{
    let m = lowercase(msg);
    let m = m.as_str();
    if str_contains(m, "permission denied") {
        ErrorCategory::Permission
    } else if str_contains(m, "no such file") || str_contains(m, "not found") {
        ErrorCategory::NotFound
    } else if str_contains(m, "no connection") || str_contains(m, "connection lost")
        || str_contains(m, "eof") {
        ErrorCategory::Network
    } else if str_contains(m, "bad message") || str_contains(m, "unsupported") {
        ErrorCategory::Protocol
    } else {
        match phase {
            Phase::Auth => ErrorCategory::Auth,
            Phase::Connect | Phase::Tcp | Phase::Dns => ErrorCategory::Network,
            Phase::Handshake | Phase::Tls => ErrorCategory::Tls,
            _ => ErrorCategory::Unknown,
        }
    }
}

// --- Laws of the classifiers ---

/// Every category except `Unknown` carries a remediation hint, and the retryable
/// categories are exactly network, throttling and server failures.
pub proof fn category_hint_law(c: ErrorCategory)
    ensures
        category_hint(c) is None <==> c is Unknown,
        category_retryable(c) <==> (c is Network || c is RateLimited || c is Server),
{
}

/// HTTP status families: every 3xx is a redirect, every 5xx a server failure,
/// every 4xx a known non-redirect category, and anything outside 300..=599 is
/// unknown.
pub proof fn http_family_law(status: u16)
    ensures
        300 <= status <= 399 ==> http_category(status) is Redirect,
        500 <= status <= 599 ==> http_category(status) is Server,
        400 <= status <= 499 ==> !(http_category(status) is Unknown) && !(http_category(
            status,
        ) is Redirect) && !(http_category(status) is Server),
        (status < 300 || status > 599) ==> http_category(status) is Unknown,
{
}

/// Only transient (4xx) FTP replies are retryable, and each retryable reply is
/// classified as a network or server failure.
pub proof fn ftp_retryable_law(code: u16)
    ensures
        ftp_code_retryable(code) ==> 400 <= code <= 499,
        ftp_code_retryable(code) ==> (ftp_category(code) is Network || ftp_category(code) is Server),
        (500 <= code <= 599) ==> !ftp_code_retryable(code),
{
}

/// FTP reply families: every 4xx and 5xx reply gets a known category, anything
/// else is unknown.
pub proof fn ftp_family_law(code: u16)
    ensures
        (400 <= code <= 599) ==> !(ftp_category(code) is Unknown),
        (code < 400 || code > 599) ==> ftp_category(code) is Unknown,
{
}

/// When the message names no known failure, the SFTP category is decided by the
/// phase alone.
pub proof fn sftp_phase_fallback_law(phase: Phase, m: Seq<char>)
    requires
        !has_substring(m, "permission denied"@),
        !has_substring(m, "no such file"@),
        !has_substring(m, "not found"@),
        !has_substring(m, "no connection"@),
        !has_substring(m, "connection lost"@),
        !has_substring(m, "eof"@),
        !has_substring(m, "bad message"@),
        !has_substring(m, "unsupported"@),
    ensures
        sftp_category(phase, m) == (match phase {
            Phase::Auth => ErrorCategory::Auth,
            Phase::Connect | Phase::Tcp | Phase::Dns => ErrorCategory::Network,
            Phase::Handshake | Phase::Tls => ErrorCategory::Tls,
            _ => ErrorCategory::Unknown,
        }),
{
}


/// The FTP replies about the service or the data connection (421 service not
/// available, 425 cannot open data connection, 426 connection closed with the
/// transfer aborted, 434 host unavailable) are network failures, and no other
/// reply is.
pub proof fn ftp_network_law(code: u16)
    ensures
        ftp_category(code) is Network <==> (code == 421 || code == 425 || code == 426 || code
            == 434),
{
}

/// The FTP reply table: 430, 530 and 532 are authentication failures; 550, 551
/// and 553 name a missing file or directory; 552 is a storage or permission
/// refusal; 500 to 504 are protocol errors; every other 4xx reply is a server
/// failure and every other 5xx reply a client failure; anything outside
/// 400..=599 is unknown.
pub proof fn ftp_reply_table_law(code: u16)
    ensures
        ftp_category(code) is Auth <==> (code == 430 || code == 530 || code == 532),
        ftp_category(code) is NotFound <==> (code == 550 || code == 551 || code == 553),
        ftp_category(code) is Permission <==> code == 552,
        ftp_category(code) is Protocol <==> 500 <= code <= 504,
        ftp_category(code) is Server <==> (400 <= code <= 499 && code != 421 && code != 425
            && code != 426 && code != 434 && code != 430),
        ftp_category(code) is Client <==> (505 <= code <= 599 && code != 530 && code != 532
            && code != 550 && code != 551 && code != 552 && code != 553),
        ftp_category(code) is Unknown <==> (code < 400 || code > 599),
        ftp_code_retryable(code) <==> (code == 421 || code == 425 || code == 426 || code == 450
            || code == 451),
{
}

/// The HTTP status table: 401 is an authentication failure, 403 a permission
/// refusal, 404 and 410 a missing object, 408 a network timeout, 429 throttling,
/// every other 4xx a client error, every 3xx a redirect, every 5xx a server
/// failure, and anything else unknown.
pub proof fn http_status_table_law(status: u16)
    ensures
        http_category(status) is Auth <==> status == 401,
        http_category(status) is Permission <==> status == 403,
        http_category(status) is NotFound <==> (status == 404 || status == 410),
        http_category(status) is Network <==> status == 408,
        http_category(status) is RateLimited <==> status == 429,
        http_category(status) is Client <==> (400 <= status <= 499 && status != 401 && status
            != 403 && status != 404 && status != 410 && status != 408 && status != 429),
        http_category(status) is Redirect <==> 300 <= status <= 399,
        http_category(status) is Server <==> 500 <= status <= 599,
        http_category(status) is Unknown <==> (status < 300 || status > 599),
{
}

/// SFTP messages decide before the phase does: a message that says "permission
/// denied" is a permission refusal; otherwise one that says "no such file" or
/// "not found" names a missing path; otherwise "no connection", "connection
/// lost" or "eof" is a network failure; otherwise "bad message" or
/// "unsupported" is a protocol error.
pub proof fn sftp_message_law(phase: Phase, m: Seq<char>)
    ensures
        has_substring(m, "permission denied"@) ==> sftp_category(phase, m) is Permission,
        !has_substring(m, "permission denied"@) && (has_substring(m, "no such file"@)
            || has_substring(m, "not found"@)) ==> sftp_category(phase, m) is NotFound,
        !has_substring(m, "permission denied"@) && !has_substring(m, "no such file"@)
            && !has_substring(m, "not found"@) && (has_substring(m, "no connection"@)
            || has_substring(m, "connection lost"@) || has_substring(m, "eof"@)) ==> sftp_category(
            phase,
            m,
        ) is Network,
        !has_substring(m, "permission denied"@) && !has_substring(m, "no such file"@)
            && !has_substring(m, "not found"@) && !has_substring(m, "no connection"@)
            && !has_substring(m, "connection lost"@) && !has_substring(m, "eof"@) && (
        has_substring(m, "bad message"@) || has_substring(m, "unsupported"@)) ==> sftp_category(
            phase,
            m,
        ) is Protocol,
{
}

/// The S3 error-code table: each known code has its category, and every other
/// code is unknown (the HTTP status decides).
pub proof fn s3_code_table_law(c: Seq<char>)
    ensures
        s3_code_category("AccessDenied"@) == Some(ErrorCategory::Permission),
        s3_code_category("AllAccessDisabled"@) == Some(ErrorCategory::Permission),
        s3_code_category("InvalidAccessKeyId"@) == Some(ErrorCategory::Auth),
        s3_code_category("SignatureDoesNotMatch"@) == Some(ErrorCategory::Auth),
        s3_code_category("InvalidToken"@) == Some(ErrorCategory::Auth),
        s3_code_category("ExpiredToken"@) == Some(ErrorCategory::Auth),
        s3_code_category("TokenRefreshRequired"@) == Some(ErrorCategory::Auth),
        s3_code_category("InvalidSecurity"@) == Some(ErrorCategory::Auth),
        s3_code_category("NoSuchBucket"@) == Some(ErrorCategory::NotFound),
        s3_code_category("NoSuchKey"@) == Some(ErrorCategory::NotFound),
        s3_code_category("NoSuchUpload"@) == Some(ErrorCategory::NotFound),
        s3_code_category("NotFound"@) == Some(ErrorCategory::NotFound),
        s3_code_category("SlowDown"@) == Some(ErrorCategory::RateLimited),
        s3_code_category("RequestLimitExceeded"@) == Some(ErrorCategory::RateLimited),
        s3_code_category("Throttling"@) == Some(ErrorCategory::RateLimited),
        s3_code_category("ThrottlingException"@) == Some(ErrorCategory::RateLimited),
        s3_code_category("PermanentRedirect"@) == Some(ErrorCategory::Redirect),
        s3_code_category("TemporaryRedirect"@) == Some(ErrorCategory::Redirect),
        s3_code_category("AuthorizationHeaderMalformed"@) == Some(ErrorCategory::Redirect),
        s3_code_category("InternalError"@) == Some(ErrorCategory::Server),
        s3_code_category("ServiceUnavailable"@) == Some(ErrorCategory::Server),
        s3_code_category("InvalidBucketName"@) == Some(ErrorCategory::Client),
        s3_code_category("InvalidRequest"@) == Some(ErrorCategory::Client),
        s3_code_category("InvalidArgument"@) == Some(ErrorCategory::Client),
        s3_code_category("MalformedXML"@) == Some(ErrorCategory::Client),
        s3_code_category("EntityTooLarge"@) == Some(ErrorCategory::Client),
        s3_code_category("MissingContentLength"@) == Some(ErrorCategory::Client),
        s3_code_category(c) is Some ==> (c == "AccessDenied"@ || c == "AllAccessDisabled"@
            || c == "InvalidAccessKeyId"@ || c == "SignatureDoesNotMatch"@ || c
            == "InvalidToken"@ || c == "ExpiredToken"@ || c == "TokenRefreshRequired"@ || c
            == "InvalidSecurity"@ || c == "NoSuchBucket"@ || c == "NoSuchKey"@ || c
            == "NoSuchUpload"@ || c == "NotFound"@ || c == "SlowDown"@ || c
            == "RequestLimitExceeded"@ || c == "Throttling"@ || c == "ThrottlingException"@ || c
            == "PermanentRedirect"@ || c == "TemporaryRedirect"@ || c
            == "AuthorizationHeaderMalformed"@ || c == "InternalError"@ || c
            == "ServiceUnavailable"@ || c == "InvalidBucketName"@ || c == "InvalidRequest"@ || c
            == "InvalidArgument"@ || c == "MalformedXML"@ || c == "EntityTooLarge"@ || c
            == "MissingContentLength"@),
{
    reveal_strlit("AccessDenied");
    reveal_strlit("AllAccessDisabled");
    reveal_strlit("InvalidAccessKeyId");
    reveal_strlit("SignatureDoesNotMatch");
    reveal_strlit("InvalidToken");
    reveal_strlit("ExpiredToken");
    reveal_strlit("TokenRefreshRequired");
    reveal_strlit("InvalidSecurity");
    reveal_strlit("NoSuchBucket");
    reveal_strlit("NoSuchKey");
    reveal_strlit("NoSuchUpload");
    reveal_strlit("NotFound");
    reveal_strlit("SlowDown");
    reveal_strlit("RequestLimitExceeded");
    reveal_strlit("Throttling");
    reveal_strlit("ThrottlingException");
    reveal_strlit("PermanentRedirect");
    reveal_strlit("TemporaryRedirect");
    reveal_strlit("AuthorizationHeaderMalformed");
    reveal_strlit("InternalError");
    reveal_strlit("ServiceUnavailable");
    reveal_strlit("InvalidBucketName");
    reveal_strlit("InvalidRequest");
    reveal_strlit("InvalidArgument");
    reveal_strlit("MalformedXML");
    reveal_strlit("EntityTooLarge");
    reveal_strlit("MissingContentLength");
    // Length, first and eighth letter tell every two codes of the table apart.
    assert("AccessDenied"@.len() == 12 && "AccessDenied"@[0] == 'A'
        && "AccessDenied"@[7] == 'e');
    assert("AllAccessDisabled"@.len() == 17 && "AllAccessDisabled"@[0] == 'A'
        && "AllAccessDisabled"@[7] == 's');
    assert("InvalidAccessKeyId"@.len() == 18 && "InvalidAccessKeyId"@[0] == 'I'
        && "InvalidAccessKeyId"@[7] == 'A');
    assert("SignatureDoesNotMatch"@.len() == 21 && "SignatureDoesNotMatch"@[0] == 'S'
        && "SignatureDoesNotMatch"@[7] == 'r');
    assert("InvalidToken"@.len() == 12 && "InvalidToken"@[0] == 'I'
        && "InvalidToken"@[7] == 'T');
    assert("ExpiredToken"@.len() == 12 && "ExpiredToken"@[0] == 'E'
        && "ExpiredToken"@[7] == 'T');
    assert("TokenRefreshRequired"@.len() == 20 && "TokenRefreshRequired"@[0] == 'T'
        && "TokenRefreshRequired"@[7] == 'f');
    assert("InvalidSecurity"@.len() == 15 && "InvalidSecurity"@[0] == 'I'
        && "InvalidSecurity"@[7] == 'S');
    assert("NoSuchBucket"@.len() == 12 && "NoSuchBucket"@[0] == 'N'
        && "NoSuchBucket"@[7] == 'u');
    assert("NoSuchKey"@.len() == 9 && "NoSuchKey"@[0] == 'N'
        && "NoSuchKey"@[7] == 'e');
    assert("NoSuchUpload"@.len() == 12 && "NoSuchUpload"@[0] == 'N'
        && "NoSuchUpload"@[7] == 'p');
    assert("NotFound"@.len() == 8 && "NotFound"@[0] == 'N'
        && "NotFound"@[7] == 'd');
    assert("SlowDown"@.len() == 8 && "SlowDown"@[0] == 'S'
        && "SlowDown"@[7] == 'n');
    assert("RequestLimitExceeded"@.len() == 20 && "RequestLimitExceeded"@[0] == 'R'
        && "RequestLimitExceeded"@[7] == 'L');
    assert("Throttling"@.len() == 10 && "Throttling"@[0] == 'T'
        && "Throttling"@[7] == 'i');
    assert("ThrottlingException"@.len() == 19 && "ThrottlingException"@[0] == 'T'
        && "ThrottlingException"@[7] == 'i');
    assert("PermanentRedirect"@.len() == 17 && "PermanentRedirect"@[0] == 'P'
        && "PermanentRedirect"@[7] == 'n');
    assert("TemporaryRedirect"@.len() == 17 && "TemporaryRedirect"@[0] == 'T'
        && "TemporaryRedirect"@[7] == 'r');
    assert("AuthorizationHeaderMalformed"@.len() == 28 && "AuthorizationHeaderMalformed"@[0] == 'A'
        && "AuthorizationHeaderMalformed"@[7] == 'z');
    assert("InternalError"@.len() == 13 && "InternalError"@[0] == 'I'
        && "InternalError"@[7] == 'l');
    assert("ServiceUnavailable"@.len() == 18 && "ServiceUnavailable"@[0] == 'S'
        && "ServiceUnavailable"@[7] == 'U');
    assert("InvalidBucketName"@.len() == 17 && "InvalidBucketName"@[0] == 'I'
        && "InvalidBucketName"@[7] == 'B');
    assert("InvalidRequest"@.len() == 14 && "InvalidRequest"@[0] == 'I'
        && "InvalidRequest"@[7] == 'R');
    assert("InvalidArgument"@.len() == 15 && "InvalidArgument"@[0] == 'I'
        && "InvalidArgument"@[7] == 'A');
    assert("MalformedXML"@.len() == 12 && "MalformedXML"@[0] == 'M'
        && "MalformedXML"@[7] == 'e');
    assert("EntityTooLarge"@.len() == 14 && "EntityTooLarge"@[0] == 'E'
        && "EntityTooLarge"@[7] == 'o');
    assert("MissingContentLength"@.len() == 20 && "MissingContentLength"@[0] == 'M'
        && "MissingContentLength"@[7] == 'C');
}

} // verus!
