use novacirrus::error::{AppError, Error};
use novacirrus::session::SessionPool;
use novacirrus::taxonomy::ErrorCategory;

#[test]
fn connect_then_connected_and_first_session_kept() {
    let mut pool: SessionPool<u32> = SessionPool::new();
    assert!(!pool.is_connected("a"));
    assert_eq!(pool.insert_if_absent("a".into(), 1), None);
    assert!(pool.is_connected("a"));
    assert_eq!(pool.get("a"), Some(&1));
    // A second session opened for the same id is handed back, the first stays.
    assert_eq!(pool.insert_if_absent("a".into(), 2), Some(2));
    assert_eq!(pool.get("a"), Some(&1));
    assert_eq!(pool.insert_if_absent("b".into(), 3), None);
    assert_eq!(pool.get("b"), Some(&3));
}

#[test]
fn disconnect_and_evict() {
    let mut pool: SessionPool<&str> = SessionPool::new();
    pool.insert_if_absent("a".into(), "sa");
    pool.insert_if_absent("b".into(), "sb");
    assert_eq!(pool.disconnect("a"), Some("sa"));
    assert!(!pool.is_connected("a"));
    assert_eq!(pool.get("b"), Some(&"sb"));
    assert_eq!(pool.disconnect("a"), None);
    pool.evict("b");
    assert!(!pool.is_connected("b"));
    pool.evict("b");
}

#[test]
fn only_dead_connections_are_dropped() {
    let mut pool: SessionPool<u8> = SessionPool::new();
    pool.insert_if_absent("a".into(), 1);
    let auth = Error::App(AppError::new(ErrorCategory::Auth, "bad password".into()));
    assert!(pool.note_op_error("a", &auth).is_none());
    assert!(pool.is_connected("a"));
    let net = Error::App(AppError::new(ErrorCategory::Network, "connection reset".into()));
    let ev = pool.note_op_error("a", &net).expect("a notice for the dropped session");
    assert_eq!(ev.id, "a");
    assert_eq!(ev.reason, "connection reset");
    assert!(!pool.is_connected("a"));
    // Nothing pooled: nothing to report.
    let tls = Error::App(AppError::new(ErrorCategory::Tls, "handshake".into()));
    assert!(pool.note_op_error("a", &tls).is_none());
}
