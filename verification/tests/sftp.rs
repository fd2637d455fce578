use novacirrus::connections::{Connection, ConnectionKind, ConnectionSecret};
use novacirrus::error::Error;
use novacirrus::logging::FieldValue;
use novacirrus::sftp::{
    auth_failed, check_known_host, host_key_changed, host_key_event, host_pattern, key_accepted,
    key_decode_failed, session_plan, sftp_err, words_of, HostKeyStatus, SftpAuth,
};
use novacirrus::taxonomy::{ErrorCategory, Level, Phase};

fn conn() -> Connection {
    Connection {
        id: "t".into(),
        name: "rebex".into(),
        kind: ConnectionKind::Sftp,
        host: Some("test.rebex.net".into()),
        port: None,
        region: None,
        endpoint: None,
        bucket: None,
        default_path: None,
        username: Some("demo".into()),
        use_path_style: false,
        ftp_mode: None,
        ftps_implicit: false,
        color: "#fff".into(),
        created_at: None,
    }
}

#[test]
fn sftp_errors_are_classified_from_the_message() {
    match sftp_err(Phase::List, "No such file") {
        Error::App(a) => {
            assert_eq!(a.category, ErrorCategory::NotFound);
            assert_eq!(a.summary, "SFTP List failed: No such file");
            assert_eq!(a.connector, Some(ConnectionKind::Sftp));
            assert_eq!(a.detail.as_deref(), Some("No such file"));
        }
        _ => panic!("expected an app error"),
    }
    match sftp_err(Phase::Auth, "whatever") {
        Error::App(a) => assert_eq!(a.category, ErrorCategory::Auth),
        _ => panic!("expected an app error"),
    }
    match host_key_changed("h", "d".into()) {
        Error::App(a) => {
            assert_eq!(a.summary, "SFTP host key for h has changed");
            assert_eq!(a.phase, Some(Phase::Handshake));
            assert!(a.remediation.unwrap().contains("known_hosts"));
        }
        _ => panic!("expected an app error"),
    }
    match key_decode_failed("bad", "dbg".into()) {
        Error::App(a) => assert_eq!(a.summary, "SFTP key decode failed: bad"),
        _ => panic!("expected an app error"),
    }
    match auth_failed() {
        Error::App(a) => {
            assert_eq!(a.category, ErrorCategory::Auth);
            assert!(!a.retryable);
        }
        _ => panic!("expected an app error"),
    }
}

#[test]
fn session_plans() {
    let s = ConnectionSecret { password: Some("password".into()), ..Default::default() };
    let p = session_plan(&conn(), &s).ok().unwrap();
    assert_eq!((p.host.as_str(), p.port, p.user.as_str()), ("test.rebex.net", 22, "demo"));
    assert!(matches!(&p.auth, SftpAuth::Password(pw) if pw == "password"));
    assert_eq!(p.method(), "password");

    let k = ConnectionSecret {
        private_key_pem: Some("PEM".into()),
        passphrase: Some("pp".into()),
        ..Default::default()
    };
    let p = session_plan(&conn(), &k).ok().unwrap();
    assert_eq!(p.method(), "publickey");

    let mut c = conn();
    c.username = None;
    match session_plan(&c, &s) {
        Err(Error::App(a)) => assert_eq!(a.summary, "SFTP: missing username"),
        _ => panic!("a missing user must be refused"),
    }
    let mut c = conn();
    c.host = Some(String::new());
    match session_plan(&c, &s) {
        Err(Error::App(a)) => assert_eq!(a.summary, "SFTP: missing host"),
        _ => panic!("a missing host must be refused"),
    }
}

#[test]
fn known_hosts_patterns() {
    assert_eq!(host_pattern("example.com", 22), "example.com");
    assert_eq!(host_pattern("example.com", 2222), "[example.com]:2222");
}

#[test]
fn known_hosts_lines_decide() {
    let data = "other ssh-ed25519 AAAA\r\nhost ssh-rsa BBBB\nhost ssh-ed25519 CCCC comment\n";
    assert_eq!(check_known_host(data, "host", "ssh-ed25519", "CCCC"), (HostKeyStatus::Known, None));
    assert_eq!(check_known_host(data, "host", "ssh-ed25519", "DDDD"), (HostKeyStatus::Mismatch, None));
    // The first line naming host and algorithm decides.
    let dup = "h a K1\nh a K2\n";
    assert_eq!(check_known_host(dup, "h", "a", "K2").0, HostKeyStatus::Mismatch);
}

#[test]
fn trust_on_first_use_records_and_then_recognises_the_key() {
    let data = "other ssh-rsa AAAA";
    let (status, written) = check_known_host(data, "[h]:2222", "ssh-ed25519", "KEY1");
    assert_eq!(status, HostKeyStatus::FirstUse);
    let written = written.expect("a first-use key is recorded");
    assert_eq!(written, "other ssh-rsa AAAA\n[h]:2222 ssh-ed25519 KEY1\n");
    assert_eq!(check_known_host(&written, "[h]:2222", "ssh-ed25519", "KEY1"), (HostKeyStatus::Known, None));
    assert_eq!(check_known_host(&written, "[h]:2222", "ssh-ed25519", "KEY2").0, HostKeyStatus::Mismatch);
    // An empty file just gets the line.
    assert_eq!(check_known_host("", "h", "a", "k").1.as_deref(), Some("h a k\n"));
}

#[test]
fn words_split_on_whitespace() {
    assert_eq!(words_of("  a\tbb  c \u{2003}d "), vec!["a", "bb", "c", "d"]);
    assert!(words_of(" \n ").is_empty());
}

#[test]
fn host_key_decisions_are_logged() {
    assert!(key_accepted(HostKeyStatus::Known));
    assert!(key_accepted(HostKeyStatus::FirstUse));
    assert!(!key_accepted(HostKeyStatus::Mismatch));
    let ev = host_key_event(HostKeyStatus::FirstUse, "srv", "ssh-ed25519", "SHA256:abc");
    assert_eq!(ev.level, Level::Info);
    assert_eq!(ev.scope, "connection");
    assert_eq!(ev.connector, Some(ConnectionKind::Sftp));
    assert_eq!(ev.phase, Some(Phase::Handshake));
    assert_eq!(ev.connection.as_deref(), Some("srv"));
    assert_eq!(
        ev.message,
        "Server host key ssh-ed25519 SHA256:abc: host key accepted on first use (TOFU)"
    );
    assert_eq!(ev.fields.len(), 2);
    assert_eq!(ev.fields[0].0, "algorithm");
    assert!(matches!(&ev.fields[1].1, FieldValue::Text(t) if t == "SHA256:abc"));
    assert_eq!(ev.id.len(), 36);
    let ev = host_key_event(HostKeyStatus::Mismatch, "srv", "a", "f");
    assert_eq!(ev.level, Level::Warn);
    assert!(ev.message.ends_with("host key MISMATCH \u{2014} rejecting connection"));
}
