use novacirrus::ftp::keep_parsed;
use novacirrus::remote::ListedFile;
use novacirrus::connections::{Connection, ConnectionKind, ConnectionSecret, FtpMode};
use novacirrus::error::Error;
use novacirrus::ftp::{
    connect_plan, data_mode_message, data_mode_name, ftp_err, list, parse_listing, FtpFailure,
    FtpFailureKind, FtpTls,
};
use novacirrus::taxonomy::{ErrorCategory, Phase, StatusCode};

fn conn(kind: ConnectionKind) -> Connection {
    Connection {
        id: "t".into(),
        name: "rebex".into(),
        kind,
        host: Some("test.rebex.net".into()),
        port: None,
        region: None,
        endpoint: None,
        bucket: None,
        default_path: None,
        username: Some("demo".into()),
        use_path_style: false,
        ftp_mode: None,
        ftps_implicit: false,
        color: "#fff".into(),
        created_at: None,
    }
}

#[test]
fn reply_code_drives_the_error() {
    let f = FtpFailure {
        kind: FtpFailureKind::UnexpectedResponse(530),
        text: "530 Login incorrect".into(),
        debug: "dbg".into(),
    };
    match ftp_err(ConnectionKind::Ftps, Phase::Auth, &f) {
        Error::App(a) => {
            assert_eq!(a.category, ErrorCategory::Auth);
            assert_eq!(a.code, Some(StatusCode::Ftp(530)));
            assert!(!a.retryable);
            assert_eq!(a.summary, "FTP Auth failed: 530 Login incorrect");
            assert_eq!(a.connector, Some(ConnectionKind::Ftps));
            assert_eq!(a.detail.as_deref(), Some("dbg"));
        }
        _ => panic!("expected an app error"),
    }
    let f = FtpFailure { kind: FtpFailureKind::UnexpectedResponse(425), text: "x".into(), debug: String::new() };
    match ftp_err(ConnectionKind::Ftp, Phase::Passive, &f) {
        Error::App(a) => {
            assert_eq!(a.category, ErrorCategory::Network);
            assert!(a.retryable);
        }
        _ => panic!("expected an app error"),
    }
    let f = FtpFailure { kind: FtpFailureKind::SecureError, text: "x".into(), debug: String::new() };
    match ftp_err(ConnectionKind::Ftps, Phase::Tls, &f) {
        Error::App(a) => {
            assert_eq!(a.category, ErrorCategory::Tls);
            assert_eq!(a.code, None);
        }
        _ => panic!("expected an app error"),
    }
}

#[test]
fn connect_plans() {
    let s = ConnectionSecret { password: Some("password".into()), ..Default::default() };
    let p = connect_plan(&conn(ConnectionKind::Ftp), &s).ok().unwrap();
    assert_eq!((p.host.as_str(), p.port, p.user.as_str()), ("test.rebex.net", 21, "demo"));
    assert_eq!(p.tls, FtpTls::Plain);
    assert_eq!(p.mode, FtpMode::Passive);
    assert_eq!(p.address(), "test.rebex.net:21");
    assert_eq!(p.connecting_message(), "Connecting to test.rebex.net:21 (plain FTP)");

    let mut c = conn(ConnectionKind::Ftps);
    c.ftps_implicit = true;
    c.username = Some(String::new());
    let p = connect_plan(&c, &ConnectionSecret::default()).ok().unwrap();
    assert_eq!((p.port, p.user.as_str(), p.password.as_str()), (990, "anonymous", ""));
    assert_eq!(p.tls, FtpTls::Implicit);
    assert_eq!(p.tls_description(), "implicit TLS");

    let mut c = conn(ConnectionKind::Ftps);
    c.port = Some(2121);
    let p = connect_plan(&c, &s).ok().unwrap();
    assert_eq!((p.port, p.tls), (2121, FtpTls::Explicit));

    let mut c = conn(ConnectionKind::Ftp);
    c.host = Some(String::new());
    match connect_plan(&c, &s) {
        Err(Error::App(a)) => {
            assert_eq!(a.category, ErrorCategory::Config);
            assert_eq!(a.summary, "FTP: missing host");
        }
        _ => panic!("a missing host must be refused"),
    }
}

#[test]
fn data_mode_lines() {
    assert_eq!(data_mode_name(None), "passive");
    assert_eq!(data_mode_name(Some(FtpMode::Active)), "active");
    assert_eq!(
        data_mode_message(Some(FtpMode::ExtendedPassive)),
        "Using extended passive mode for data connection"
    );
}

#[test]
fn list_reply_lines_are_parsed_and_sorted() {
    let lines = vec![
        "-rw-r--r-- 1 user group 1234 Jan 01  2020 readme.txt".to_string(),
        "this is not a listing line".to_string(),
        "drwxr-xr-x 2 user group 4096 Jan 01  2020 pub".to_string(),
    ];
    let files = parse_listing(&lines);
    assert_eq!(files.len(), 2);
    assert_eq!(files[0].name, "readme.txt");
    assert!(!files[0].is_dir);
    assert_eq!(files[0].size, 1234);
    assert!(files[1].is_dir);
    let rows = list("/", &lines);
    let names: Vec<&str> = rows.iter().map(|e| e.name.as_str()).collect();
    assert_eq!(names, vec!["pub", "readme.txt"]);
    assert_eq!(rows[1].key, "readme.txt");
    assert_eq!(rows[1].size, Some(1234));
}

#[test]
fn parsed_outcomes_keep_present_entries_in_order() {
    let f = |n: &str| ListedFile { name: n.into(), is_dir: false, size: 1, modified: None };
    let kept = keep_parsed(&vec![Some(f("a")), None, Some(f("b")), None]);
    let names: Vec<&str> = kept.iter().map(|x| x.name.as_str()).collect();
    assert_eq!(names, vec!["a", "b"]);
    assert!(keep_parsed(&vec![None, None]).is_empty());
}

#[test]
fn symlink_lines_keep_the_link_name() {
    let lines = vec!["lrwxrwxrwx 1 user group 7 Jan 01  2020 latest -> v1.2.3".to_string()];
    let files = parse_listing(&lines);
    assert_eq!(files.len(), 1);
    assert_eq!(files[0].name, "latest");
    assert_eq!(files[0].size, 7);
    assert!(!files[0].is_dir);
}

#[test]
fn every_dated_posix_line_gives_a_row() {
    let lines = vec![
        "-rw-rw-r-- 1 0 1 8192 Nov 5 2018 omar.txt".to_string(),
        "drwxr-xr-x 2 0 1 4096 Mar 1 2019 pub".to_string(),
        "total 2".to_string(),
    ];
    let rows = list("/srv", &lines);
    let keys: Vec<&str> = rows.iter().map(|e| e.key.as_str()).collect();
    assert_eq!(keys, vec!["/srv/pub", "/srv/omar.txt"]);
    assert_eq!(rows[1].size, Some(8192));
}
