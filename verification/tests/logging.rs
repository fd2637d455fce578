use novacirrus::connections::ConnectionKind;
use novacirrus::error::{AppError, Error};
use novacirrus::logging::{
    bridge_event, bridge_level, bridge_target, emit_global, log, log_error, FieldValue,
    LogBuilder, RecordLevel,
};
use novacirrus::taxonomy::{ErrorCategory, Level, Phase, StatusCode};

#[test]
fn builder_sets_each_axis() {
    let ev = LogBuilder::new(Level::Info, "transfer".into())
        .connector(ConnectionKind::Ftp)
        .phase(Phase::Transfer)
        .code(StatusCode::Ftp(226))
        .category(ErrorCategory::Server)
        .connection(Some("box"))
        .message("done".into())
        .event();
    assert_eq!(ev.id.len(), 36);
    assert_eq!(ev.level, Level::Info);
    assert_eq!(ev.scope, "transfer");
    assert_eq!(ev.connector, Some(ConnectionKind::Ftp));
    assert_eq!(ev.phase, Some(Phase::Transfer));
    assert_eq!(ev.code, Some(StatusCode::Ftp(226)));
    assert_eq!(ev.category, Some(ErrorCategory::Server));
    assert_eq!(ev.connection.as_deref(), Some("box"));
    assert_eq!(ev.message, "done");
    assert!(ev.fields.is_empty());
    let fresh = LogBuilder::new(Level::Debug, "x".into()).event();
    assert_ne!(fresh.id, ev.id);
    assert_eq!(fresh.message, "");
}

#[test]
fn a_field_reads_back_as_last_set() {
    let ev = LogBuilder::new(Level::Debug, "connection".into())
        .field("count", FieldValue::Int(3))
        .field("target", FieldValue::Text("russh".into()))
        .field("count", FieldValue::Int(7))
        .event();
    assert_eq!(ev.fields.len(), 2);
    assert_eq!(ev.fields[0].0, "count");
    assert!(matches!(ev.fields[0].1, FieldValue::Int(7)));
    assert_eq!(ev.fields[1].0, "target");
    assert!(matches!(&ev.fields[1].1, FieldValue::Text(t) if t == "russh"));
}

#[test]
fn lifecycle_and_plain_lines() {
    let ev = emit_global(Level::Warn, ConnectionKind::Sftp, Phase::Connect, Some("srv"), "dropped".into());
    assert_eq!(ev.scope, "connection");
    assert_eq!(ev.level, Level::Warn);
    assert_eq!(ev.connector, Some(ConnectionKind::Sftp));
    assert_eq!(ev.phase, Some(Phase::Connect));
    assert_eq!(ev.connection.as_deref(), Some("srv"));
    assert_eq!(ev.message, "dropped");
    let ev = log(Level::Info, "transfer", None, "hello".into());
    assert_eq!((ev.scope.as_str(), ev.message.as_str()), ("transfer", "hello"));
    assert_eq!(ev.connector, None);
    assert_eq!(ev.connection, None);
}

#[test]
fn error_lines_carry_the_classification() {
    let e = Error::App(
        AppError::new(ErrorCategory::Permission, "denied".into())
            .connector(ConnectionKind::S3)
            .phase(Phase::Delete)
            .code(StatusCode::Http(403)),
    );
    let ev = log_error("connection", Some("b"), "Delete failed", &e);
    assert_eq!(ev.level, Level::Error);
    assert_eq!(ev.category, Some(ErrorCategory::Permission));
    assert_eq!(ev.connector, Some(ConnectionKind::S3));
    assert_eq!(ev.phase, Some(Phase::Delete));
    assert_eq!(ev.code, Some(StatusCode::Http(403)));
    assert_eq!(ev.message, "Delete failed: denied");
    let ev = log_error("transfer", None, "Upload failed", &Error::Io("disk full".into()));
    assert_eq!(ev.category, Some(ErrorCategory::Io));
    assert_eq!(ev.connector, None);
    assert_eq!(ev.message, "Upload failed: disk full");
}

#[test]
fn library_records_are_forwarded_by_target() {
    assert_eq!(bridge_target("russh::client"), Some(Some(ConnectionKind::Sftp)));
    assert_eq!(bridge_target("suppaftp::async"), Some(Some(ConnectionKind::Ftp)));
    assert_eq!(bridge_target("rustls::client::hs"), Some(None));
    assert_eq!(bridge_target("hyper::proto"), None);
    assert_eq!(bridge_level(RecordLevel::Trace), Level::Debug);
    assert_eq!(bridge_level(RecordLevel::Warn), Level::Warn);
    let ev = bridge_event("suppaftp::sync", RecordLevel::Info, "227 Entering Passive Mode".into()).unwrap();
    assert_eq!(ev.scope, "protocol");
    assert_eq!(ev.phase, Some(Phase::Protocol));
    assert_eq!(ev.connector, Some(ConnectionKind::Ftp));
    assert_eq!(ev.level, Level::Info);
    assert_eq!(ev.message, "227 Entering Passive Mode");
    assert_eq!(ev.fields.len(), 1);
    assert!(matches!(&ev.fields[0].1, FieldValue::Text(t) if t == "suppaftp::sync"));
    let tls = bridge_event("rustls::conn", RecordLevel::Debug, "hs".into()).unwrap();
    assert_eq!(tls.connector, None);
    assert!(bridge_event("tokio::runtime", RecordLevel::Error, "x".into()).is_none());
}
