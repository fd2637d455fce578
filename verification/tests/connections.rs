use novacirrus::commands::{display_path, find_connection};
use novacirrus::connections::{Connection, ConnectionKind, ConnectionSecret, FtpMode, Store};
use novacirrus::error::Error;

fn conn(id: &str, name: &str) -> Connection {
    Connection {
        id: id.into(),
        name: name.into(),
        kind: ConnectionKind::S3,
        host: None,
        port: None,
        region: None,
        endpoint: None,
        bucket: None,
        default_path: None,
        username: None,
        use_path_style: false,
        ftp_mode: None,
        ftps_implicit: false,
        color: "#fff".into(),
        created_at: Some(5),
    }
}

#[test]
fn save_then_get_returns_what_was_saved() {
    let mut store = Store::new(vec![conn("a", "first")]);
    store.save(conn("b", "second"));
    assert_eq!(store.list().len(), 2);
    assert_eq!(store.get("b").unwrap().name, "second");
    // Saving an existing id replaces it in place.
    store.save(conn("a", "renamed"));
    let all = store.list();
    assert_eq!(all.len(), 2);
    assert_eq!(all[0].id, "a");
    assert_eq!(all[0].name, "renamed");
    assert!(store.get("zzz").is_none());
}

#[test]
fn upsert_fills_id_and_creation_time() {
    let mut store = Store::new(Vec::new());
    let mut c = conn("", "new");
    c.created_at = None;
    let saved = store.upsert(c, None);
    assert_eq!(saved.id.len(), 36);
    assert!(saved.created_at.is_some());
    assert_eq!(store.get(&saved.id).unwrap().name, "new");
    // A given id and creation time are kept.
    let kept = store.upsert(conn("x", "keep"), None);
    assert_eq!((kept.id.as_str(), kept.created_at), ("x", Some(5)));
}

#[test]
fn delete_removes_every_match() {
    let mut store = Store::new(vec![conn("a", "1"), conn("b", "2"), conn("a", "3")]);
    store.delete("a");
    let all = store.list();
    assert_eq!(all.len(), 1);
    assert_eq!(all[0].id, "b");
    store.delete("missing");
    assert_eq!(store.list().len(), 1);
}

#[test]
fn secret_cache() {
    let mut store = Store::new(Vec::new());
    assert!(store.cached_secret("a").is_none());
    let s = ConnectionSecret { password: Some("pw".into()), ..Default::default() };
    store.remember_secret("a", s);
    assert_eq!(store.cached_secret("a").unwrap().password.as_deref(), Some("pw"));
    let s2 = ConnectionSecret { password: Some("pw2".into()), ..Default::default() };
    store.remember_secret("a", s2);
    assert_eq!(store.cached_secret("a").unwrap().password.as_deref(), Some("pw2"));
    store.forget_secret("a");
    assert!(store.cached_secret("a").is_none());
}

#[test]
fn defaults() {
    assert_eq!(FtpMode::default(), FtpMode::Passive);
    let s = ConnectionSecret::default();
    assert!(s.password.is_none() && s.access_key_id.is_none() && s.private_key_pem.is_none());
}

#[test]
fn commands_find_their_connection() {
    let store = Store::new(vec![conn("a", "first")]);
    assert_eq!(find_connection(&store, "a").ok().unwrap().name, "first");
    match find_connection(&store, "nope") {
        Err(Error::NotFound(id)) => assert_eq!(id, "nope"),
        _ => panic!("expected not found"),
    }
}

#[test]
fn display_paths() {
    assert_eq!(display_path("/a/b/c.txt"), "c.txt");
    assert_eq!(display_path("/a/b/"), "b");
    assert_eq!(display_path("///"), "/");
    assert_eq!(display_path(""), "/");
    assert_eq!(display_path("name"), "name");
}

#[test]
fn upsert_with_secret_reads_back_and_delete_forgets_it() {
    let mut store = Store::new(vec![conn("a", "old")]);
    let s = ConnectionSecret { password: Some("pw".into()), ..Default::default() };
    let saved = store.upsert(conn("a", "new"), Some(s));
    assert_eq!(store.get(&saved.id).unwrap().name, "new");
    assert_eq!(store.list().len(), 1);
    assert_eq!(store.cached_secret("a").unwrap().password.as_deref(), Some("pw"));
    store.remember_secret("b", ConnectionSecret::default());
    store.delete("a");
    assert!(store.get("a").is_none());
    assert!(store.cached_secret("a").is_none());
    assert!(store.cached_secret("b").is_some());
}
