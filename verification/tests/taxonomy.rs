use novacirrus::taxonomy::{
    category_for_ftp, category_for_http, category_for_s3_code, category_for_sftp, ftp_retryable,
    ErrorCategory, Level, Phase,
};

#[test]
fn http_status_families() {
    // 3xx redirect
    assert_eq!(category_for_http(301), ErrorCategory::Redirect);
    assert_eq!(category_for_http(307), ErrorCategory::Redirect);
    // auth / permission split
    assert_eq!(category_for_http(401), ErrorCategory::Auth);
    assert_eq!(category_for_http(403), ErrorCategory::Permission);
    assert_eq!(category_for_http(404), ErrorCategory::NotFound);
    assert_eq!(category_for_http(410), ErrorCategory::NotFound);
    assert_eq!(category_for_http(408), ErrorCategory::Network);
    assert_eq!(category_for_http(429), ErrorCategory::RateLimited);
    // generic 4xx -> client
    assert_eq!(category_for_http(400), ErrorCategory::Client);
    assert_eq!(category_for_http(422), ErrorCategory::Client);
    // 5xx -> server
    assert_eq!(category_for_http(500), ErrorCategory::Server);
    assert_eq!(category_for_http(503), ErrorCategory::Server);
    // out of range
    assert_eq!(category_for_http(200), ErrorCategory::Unknown);
}

#[test]
fn s3_error_codes() {
    assert_eq!(category_for_s3_code("AccessDenied"), Some(ErrorCategory::Permission));
    assert_eq!(category_for_s3_code("InvalidAccessKeyId"), Some(ErrorCategory::Auth));
    assert_eq!(category_for_s3_code("SignatureDoesNotMatch"), Some(ErrorCategory::Auth));
    assert_eq!(category_for_s3_code("NoSuchBucket"), Some(ErrorCategory::NotFound));
    assert_eq!(category_for_s3_code("NoSuchKey"), Some(ErrorCategory::NotFound));
    assert_eq!(category_for_s3_code("SlowDown"), Some(ErrorCategory::RateLimited));
    assert_eq!(category_for_s3_code("PermanentRedirect"), Some(ErrorCategory::Redirect));
    assert_eq!(category_for_s3_code("InternalError"), Some(ErrorCategory::Server));
    // unknown code -> caller falls back to HTTP status
    assert_eq!(category_for_s3_code("SomeNewCode"), None);
}

#[test]
fn ftp_reply_codes() {
    assert_eq!(category_for_ftp(530), ErrorCategory::Auth); // not logged in
    assert_eq!(category_for_ftp(550), ErrorCategory::NotFound); // file unavailable
    assert_eq!(category_for_ftp(552), ErrorCategory::Permission); // over quota
    assert_eq!(category_for_ftp(421), ErrorCategory::Network); // service not available
    assert_eq!(category_for_ftp(425), ErrorCategory::Network); // can't open data conn
    assert_eq!(category_for_ftp(451), ErrorCategory::Server); // transient action failure
    assert_eq!(category_for_ftp(500), ErrorCategory::Protocol); // syntax error
    assert_eq!(category_for_ftp(505), ErrorCategory::Client); // other permanent 5xx
}

#[test]
fn ftp_retryable_only_transient() {
    assert!(ftp_retryable(421));
    assert!(ftp_retryable(425));
    assert!(ftp_retryable(450));
    assert!(!ftp_retryable(530)); // auth is not retryable
    assert!(!ftp_retryable(550)); // not-found is not retryable
}

#[test]
fn sftp_message_and_phase_fallback() {
    // message-driven
    assert_eq!(
        category_for_sftp(Phase::Transfer, "Permission denied"),
        ErrorCategory::Permission
    );
    assert_eq!(category_for_sftp(Phase::Transfer, "No such file"), ErrorCategory::NotFound);
    assert_eq!(category_for_sftp(Phase::Transfer, "connection lost"), ErrorCategory::Network);
    // opaque message -> phase fallback
    assert_eq!(category_for_sftp(Phase::Auth, "whatever"), ErrorCategory::Auth);
    assert_eq!(category_for_sftp(Phase::Connect, "whatever"), ErrorCategory::Network);
    assert_eq!(category_for_sftp(Phase::Tls, "whatever"), ErrorCategory::Tls);
}

#[test]
fn category_retryability() {
    assert!(ErrorCategory::Network.retryable());
    assert!(ErrorCategory::RateLimited.retryable());
    assert!(ErrorCategory::Server.retryable());
    assert!(!ErrorCategory::Auth.retryable());
    assert!(!ErrorCategory::Permission.retryable());
    assert!(!ErrorCategory::NotFound.retryable());
}

#[test]
fn sftp_message_match_ignores_case() {
    // The message is lowercased before matching.
    assert_eq!(
        category_for_sftp(Phase::Transfer, "PERMISSION DENIED"),
        ErrorCategory::Permission
    );
    assert_eq!(category_for_sftp(Phase::List, "No Such File or directory"), ErrorCategory::NotFound);
}

#[test]
fn every_http_code_in_a_family_classifies_alike() {
    for code in 500u16..600 {
        assert_eq!(category_for_http(code), ErrorCategory::Server);
    }
    for code in 300u16..400 {
        assert_eq!(category_for_http(code), ErrorCategory::Redirect);
    }
}

#[test]
fn ftp_retryable_codes_have_retryable_categories() {
    for code in 0u16..1000 {
        if ftp_retryable(code) {
            assert!(category_for_ftp(code).retryable(), "code {code}");
        }
    }
    // A transient code can still be one that is not auto-retried.
    assert!(!ftp_retryable(452));
    assert!(category_for_ftp(452).retryable());
}

#[test]
fn level_names() {
    assert_eq!(Level::Debug.as_str(), "debug");
    assert_eq!(Level::Info.as_str(), "info");
    assert_eq!(Level::Warn.as_str(), "warn");
    assert_eq!(Level::Error.as_str(), "error");
}

#[test]
fn remediation_hints_by_category() {
    assert!(ErrorCategory::Auth.remediation().is_some());
    assert!(ErrorCategory::Network.remediation().is_some());
    assert_eq!(ErrorCategory::Unknown.remediation(), None);
}
