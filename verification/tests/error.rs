use novacirrus::connections::ConnectionKind;
use novacirrus::error::{AppError, Error};
use novacirrus::taxonomy::{ErrorCategory, Phase, StatusCode};

#[test]
fn app_errors_pass_through_with_default_hint() {
    let a = AppError::new(ErrorCategory::Auth, "nope".into())
        .connector(ConnectionKind::Sftp)
        .phase(Phase::Auth)
        .code(StatusCode::Sftp(3))
        .detail("raw".into());
    assert!(!a.retryable);
    let p = Error::App(a).to_app();
    assert_eq!(p.category, ErrorCategory::Auth);
    assert_eq!(p.connector, Some(ConnectionKind::Sftp));
    assert_eq!(p.phase, Some(Phase::Auth));
    assert_eq!(p.code, Some(StatusCode::Sftp(3)));
    assert_eq!(p.summary, "nope");
    assert_eq!(p.detail.as_deref(), Some("raw"));
    assert_eq!(p.remediation.as_deref(), ErrorCategory::Auth.remediation());
}

#[test]
fn remediation_set_at_the_failure_site_wins() {
    let a = AppError::new(ErrorCategory::Network, "down".into()).remediation("try later".into());
    assert!(a.retryable);
    let p = Error::App(a).to_app();
    assert_eq!(p.remediation.as_deref(), Some("try later"));
    let r = AppError::new(ErrorCategory::Network, "x".into()).retryable(false);
    assert!(!r.retryable);
}

#[test]
fn plain_errors_are_classified() {
    let p = Error::Io("disk".into()).to_app();
    assert_eq!((p.category, p.summary.as_str()), (ErrorCategory::Io, "disk"));
    let p = Error::Json("bad".into()).to_app();
    assert_eq!((p.category, p.summary.as_str()), (ErrorCategory::Protocol, "Malformed data: bad"));
    let p = Error::Keyring("locked".into()).to_app();
    assert_eq!(p.category, ErrorCategory::Config);
    assert_eq!(p.summary, "Secret store error: locked");
    assert_eq!(
        p.remediation.as_deref(),
        Some("Could not read the OS keychain. Re-save the connection's credentials.")
    );
    let p = Error::S3("boom".into()).to_app();
    assert_eq!(p.connector, Some(ConnectionKind::S3));
    assert_eq!(p.category, ErrorCategory::Unknown);
    assert_eq!(p.remediation, None);
    let p = Error::NotFound("id1".into()).to_app();
    assert_eq!((p.category, p.summary.as_str()), (ErrorCategory::NotFound, "Not found: id1"));
    let p = Error::Unsupported("nope".into()).to_app();
    assert_eq!(p.category, ErrorCategory::Client);
    let p = Error::Msg("m".into()).to_app();
    assert_eq!(p.category, ErrorCategory::Unknown);
    let p = Error::Tauri("w".into()).to_app();
    assert_eq!(p.category, ErrorCategory::Unknown);
}

#[test]
fn error_messages() {
    assert_eq!(Error::Io("x".into()).message(), "io: x");
    assert_eq!(Error::NotFound("y".into()).message(), "not found: y");
    assert_eq!(Error::Msg("plain".into()).message(), "plain");
    assert_eq!(Error::App(AppError::new(ErrorCategory::Tls, "tls".into())).message(), "tls");
    let e: Error = AppError::new(ErrorCategory::Tls, "t".into()).into();
    assert!(matches!(e, Error::App(_)));
}
