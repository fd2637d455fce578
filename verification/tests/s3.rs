use novacirrus::s3::{endpoint_message, multipart_next, MultipartAction, MultipartOutcome};
use novacirrus::connections::{Connection, ConnectionKind, ConnectionSecret};
use novacirrus::error::Error;
use novacirrus::s3::{
    absorb_listing, absorb_search, announced_size, bucket_and_key, bucket_entries,
    classify_s3, client_settings, missing_upload_id, normalize_prefix, part_size_for,
    split_s3_path, transfer_error_event, transfer_name, upload_key, uses_multipart, BucketInfo,
    Direction, ListPage, ListedObject, ObjectEntry, PartCursor, S3Backend, S3Failure,
    SdkFailureKind, SearchStep, TransferEvent, TransferMeter, MAX_PARTS, MIB, MIN_PART_SIZE,
    MULTIPART_THRESHOLD,
};
use novacirrus::taxonomy::{ErrorCategory, Phase, StatusCode};

#[test]
fn split_path_variants() {
    assert_eq!(split_s3_path("bucket/key"), ("bucket".into(), "key".into()));
    assert_eq!(split_s3_path("bucket/a/b/c.txt"), ("bucket".into(), "a/b/c.txt".into()));
    assert_eq!(split_s3_path("bucket"), ("bucket".into(), String::new()));
    // leading slash is tolerated
    assert_eq!(split_s3_path("/bucket/key"), ("bucket".into(), "key".into()));
    // empty / root => no bucket (caller treats as "list buckets")
    assert_eq!(split_s3_path(""), (String::new(), String::new()));
    assert_eq!(split_s3_path("/"), (String::new(), String::new()));
}

#[test]
fn part_size_invariants() {
    // A range of sizes from just over the threshold up to the 5 TiB S3 max.
    let sizes = [
        MULTIPART_THRESHOLD,
        20 * MIB,
        100 * MIB,
        1024 * MIB,            // 1 GiB
        100 * 1024 * MIB,      // 100 GiB
        5 * 1024 * 1024 * MIB, // 5 TiB (S3 max object size)
    ];
    for total in sizes {
        let ps = part_size_for(total);
        assert_eq!(ps % MIB, 0, "part size must be a whole MiB for {total}");
        assert!(ps >= MIN_PART_SIZE, "part size below S3 minimum for {total}");
        let parts = total.div_ceil(ps);
        assert!(
            parts <= MAX_PARTS,
            "size {total} needs {parts} parts (> {MAX_PARTS}) at part size {ps}"
        );
    }
}

#[test]
fn part_size_small_files_use_minimum() {
    // Anything that reaches multipart but is comfortably under 8 MiB*10000
    // should land on the 8 MiB minimum part size.
    assert_eq!(part_size_for(MULTIPART_THRESHOLD), MIN_PART_SIZE);
    assert_eq!(part_size_for(50 * MIB), MIN_PART_SIZE);
}

#[test]
fn part_size_grows_past_the_part_limit() {
    // 10000 parts of 8 MiB hold 80000 MiB; one byte more needs 9 MiB parts.
    assert_eq!(part_size_for(80_000 * MIB), 8 * MIB);
    assert_eq!(part_size_for(80_000 * MIB + 1), 9 * MIB);
    assert!(!uses_multipart(MULTIPART_THRESHOLD - 1));
    assert!(uses_multipart(MULTIPART_THRESHOLD));
}

#[test]
fn part_cursor_counts_parts_and_bytes() {
    let mut c = PartCursor::new(8 * MIB);
    assert_eq!(c.part_for(0), None);
    assert_eq!(c.part_for(5), Some(1));
    assert_eq!(c.accepted(8 * MIB), (8 * MIB, true));
    assert_eq!(c.part_for(3), Some(2));
    assert_eq!(c.accepted(3), (8 * MIB + 3, false));
    assert_eq!(c.next_part, 3);
}

#[test]
fn bucket_and_key_refuses_a_path_without_bucket() {
    match bucket_and_key("/", "S3 delete") {
        Err(Error::App(a)) => {
            assert_eq!(a.category, ErrorCategory::Client);
            assert_eq!(a.phase, Some(Phase::Config));
            assert_eq!(a.summary, "S3 delete requires a bucket in the path");
        }
        _ => panic!("expected a bucket error"),
    }
    match bucket_and_key("b/x/y", "S3 delete") {
        Ok((b, k)) => {
            assert_eq!(b, "b");
            assert_eq!(k, "x/y");
        }
        Err(_) => panic!("expected a bucket and key"),
    }
}

#[test]
fn prefixes_and_upload_keys() {
    assert_eq!(normalize_prefix(""), "");
    assert_eq!(normalize_prefix("a/b"), "a/b/");
    assert_eq!(normalize_prefix("a/b/"), "a/b/");
    assert_eq!(upload_key("", "x/y.txt"), "x/y.txt");
    assert_eq!(upload_key("photos//", "x.txt"), "photos/x.txt");
    assert_eq!(transfer_name("a/b/c.bin"), "c.bin");
    assert_eq!(transfer_name("c.bin"), "c.bin");
}

#[test]
fn announced_size_of_content_length() {
    assert_eq!(announced_size(Some(1234)), 1234);
    assert_eq!(announced_size(Some(-5)), 0);
    assert_eq!(announced_size(None), 0);
}

#[test]
fn transfer_meter_reports_progress() {
    let (mut m, start) =
        TransferMeter::start("t1".to_string(), "f.bin".to_string(), 0, Direction::Down, true);
    match start {
        TransferEvent::Start { id, name, total, direction } => {
            assert_eq!(id, "t1");
            assert_eq!(name, "f.bin");
            assert_eq!(total, 0);
            assert_eq!(direction, "down");
        }
        _ => panic!("expected a start event"),
    }
    // An unknown size is reported as the bytes moved so far.
    match m.progress(10) {
        TransferEvent::Progress { id, transferred, total } => {
            assert_eq!((id.as_str(), transferred, total), ("t1", 10, 10));
        }
        _ => panic!("expected progress"),
    }
    match m.progress(5) {
        TransferEvent::Progress { transferred, total, .. } => assert_eq!((transferred, total), (15, 15)),
        _ => panic!("expected progress"),
    }
    assert!(matches!(m.done(), TransferEvent::Done { id } if id == "t1"));

    let (mut up, _) = TransferMeter::start("t2".into(), "u".into(), 100, Direction::Up, false);
    match up.progress(40) {
        TransferEvent::Progress { transferred, total, .. } => assert_eq!((transferred, total), (40, 100)),
        _ => panic!("expected progress"),
    }
}

#[test]
fn transfer_error_carries_classification() {
    let e = Error::NotFound("x".into());
    match transfer_error_event("t9", &e) {
        TransferEvent::Error { id, error } => {
            assert_eq!(id, "t9");
            assert_eq!(error.category, ErrorCategory::NotFound);
            assert_eq!(error.summary, "Not found: x");
        }
        _ => panic!("expected an error event"),
    }
}

fn s3_conn(kind: ConnectionKind) -> Connection {
    Connection {
        id: "c".into(),
        name: "n".into(),
        kind,
        host: None,
        port: None,
        region: None,
        endpoint: None,
        bucket: None,
        default_path: None,
        username: None,
        use_path_style: false,
        ftp_mode: None,
        ftps_implicit: false,
        color: "#fff".into(),
        created_at: None,
    }
}

#[test]
fn client_settings_regions_and_r2_endpoint() {
    let s = ConnectionSecret {
        access_key_id: Some("AK".into()),
        ..Default::default()
    };
    let cs = client_settings(&s3_conn(ConnectionKind::S3), &s).ok().unwrap();
    assert_eq!(cs.region, "us-east-1");
    assert_eq!(cs.endpoint, None);
    assert_eq!(cs.access_key_id, "AK");
    assert_eq!(cs.secret_access_key, "");

    let mut compat = s3_conn(ConnectionKind::S3Compat);
    compat.endpoint = Some("https://minio.local".into());
    compat.use_path_style = true;
    let cs = client_settings(&compat, &s).ok().unwrap();
    assert_eq!(cs.region, "auto");
    assert_eq!(cs.endpoint.as_deref(), Some("https://minio.local"));
    assert!(cs.force_path_style);

    match client_settings(&s3_conn(ConnectionKind::R2), &s) {
        Err(Error::App(a)) => {
            assert_eq!(a.category, ErrorCategory::Config);
            assert_eq!(a.connector, Some(ConnectionKind::R2));
        }
        _ => panic!("R2 without endpoint must be refused"),
    }
}

#[test]
fn sdk_failures_are_classified() {
    let f = S3Failure {
        kind: SdkFailureKind::Response,
        http: Some(403),
        code: Some("NoSuchKey".into()),
        message: Some("gone".into()),
        debug: "raw".into(),
    };
    match classify_s3(ConnectionKind::S3, Phase::Stat, &f) {
        Error::App(a) => {
            // The S3 code wins over the HTTP status.
            assert_eq!(a.category, ErrorCategory::NotFound);
            assert_eq!(a.summary, "NoSuchKey: gone");
            assert_eq!(a.code, Some(StatusCode::Http(403)));
            assert_eq!(a.detail.as_deref(), Some("raw"));
        }
        _ => panic!("expected an app error"),
    }
    let f = S3Failure { kind: SdkFailureKind::Response, http: Some(503), code: None, message: None, debug: String::new() };
    match classify_s3(ConnectionKind::R2, Phase::List, &f) {
        Error::App(a) => {
            assert_eq!(a.category, ErrorCategory::Server);
            assert_eq!(a.summary, "S3 request failed (HTTP 503)");
            assert!(a.retryable);
        }
        _ => panic!("expected an app error"),
    }
    let f = S3Failure { kind: SdkFailureKind::Timeout, http: None, code: None, message: None, debug: String::new() };
    match classify_s3(ConnectionKind::S3, Phase::Connect, &f) {
        Error::App(a) => assert_eq!(a.category, ErrorCategory::Network),
        _ => panic!("expected an app error"),
    }
    match missing_upload_id(ConnectionKind::S3) {
        Error::App(a) => assert_eq!(a.phase, Some(Phase::Multipart)),
        _ => panic!("expected an app error"),
    }
}

fn obj(key: &str, size: i64) -> ListedObject {
    ListedObject { key: Some(key.into()), size: Some(size), modified: None, etag: Some("\"abc\"".into()) }
}

#[test]
fn listing_pages_become_rows() {
    let mut out: Vec<ObjectEntry> = Vec::new();
    let page = ListPage {
        prefixes: vec![Some("docs/sub/".into()), None],
        objects: vec![obj("docs/", 0), obj("docs/a.txt", 3)],
        next_token: Some("tok".into()),
        truncated: Some(true),
    };
    let next = absorb_listing(&mut out, "docs/", &page);
    assert_eq!(next.as_deref(), Some("tok"));
    assert_eq!(out.len(), 2);
    assert_eq!((out[0].key.as_str(), out[0].name.as_str(), out[0].kind.as_str()), ("docs/sub/", "sub", "folder"));
    assert_eq!((out[1].key.as_str(), out[1].name.as_str(), out[1].kind.as_str()), ("docs/a.txt", "a.txt", "file"));
    assert_eq!(out[1].etag.as_deref(), Some("abc"));

    let last = ListPage { prefixes: vec![], objects: vec![], next_token: Some("x".into()), truncated: Some(false) };
    assert_eq!(absorb_listing(&mut out, "docs/", &last), None);
}

#[test]
fn search_pages_stop_at_the_limit() {
    let mut out: Vec<ObjectEntry> = Vec::new();
    let page = ListPage {
        prefixes: vec![],
        objects: vec![obj("p/Report.txt", 1), obj("p/x/report2.txt", 2), obj("p/other", 3), obj("p/dir/", 0)],
        next_token: Some("n".into()),
        truncated: Some(true),
    };
    match absorb_search(&mut out, "p/", "report", 10, &page) {
        SearchStep::More(t) => assert_eq!(t, "n"),
        _ => panic!("expected to continue"),
    }
    assert_eq!(out.len(), 2);
    assert_eq!(out[0].name, "Report.txt");
    assert_eq!(out[1].name, "x/report2.txt");

    let mut few: Vec<ObjectEntry> = Vec::new();
    assert!(matches!(absorb_search(&mut few, "p/", "report", 1, &page), SearchStep::Full));
    assert_eq!(few.len(), 1);
}

#[test]
fn bucket_root_and_list() {
    let mut c = s3_conn(ConnectionKind::S3);
    c.bucket = Some("  media ".into());
    let b = S3Backend::new(c, ConnectionSecret::default());
    assert_eq!(b.configured_bucket().as_deref(), Some("media"));
    let rows = b.root_listing().unwrap();
    assert_eq!(rows.len(), 1);
    assert_eq!((rows[0].key.as_str(), rows[0].kind.as_str()), ("media", "folder"));
    let none = S3Backend::new(s3_conn(ConnectionKind::S3), ConnectionSecret::default());
    assert!(none.root_listing().is_none());
    assert_eq!(S3Backend::buckets_message(3), "OK \u{2014} 3 bucket(s)");
    assert_eq!(S3Backend::bucket_reachable_message("m"), "OK \u{2014} bucket \"m\" reachable");
    let rows = bucket_entries(&vec![BucketInfo { name: "a".into(), created_at: Some(7) }]);
    assert_eq!((rows[0].name.as_str(), rows[0].modified), ("a", Some(7)));
}

#[test]
fn multipart_parts_cover_the_file() {
    // 20 MiB at 8 MiB parts: two full parts and a short last one.
    let total = 20 * MIB;
    let ps = part_size_for(total);
    assert_eq!(ps, 8 * MIB);
    let mut c = PartCursor::new(ps);
    let mut left = total;
    let mut parts = Vec::new();
    loop {
        let filled = left.min(ps);
        let Some(n) = c.part_for(filled) else { break };
        let (sent, more) = c.accepted(filled);
        parts.push((n, filled, sent));
        left -= filled;
        if !more {
            break;
        }
    }
    assert_eq!(parts, vec![(1, 8 * MIB, 8 * MIB), (2, 8 * MIB, 16 * MIB), (3, 4 * MIB, 20 * MIB)]);
    assert_eq!(total.div_ceil(ps), 3);
}

#[test]
fn search_page_with_limit_zero_keeps_nothing() {
    let mut out: Vec<ObjectEntry> = Vec::new();
    let page = ListPage {
        prefixes: vec![],
        objects: vec![obj("p/report.txt", 1)],
        next_token: None,
        truncated: None,
    };
    assert!(matches!(absorb_search(&mut out, "p/", "report", 0, &page), SearchStep::Full));
    assert!(out.is_empty());
}

#[test]
fn multipart_steps_abort_on_any_failure() {
    assert!(matches!(multipart_next(MultipartOutcome::PartsUploaded), MultipartAction::Complete));
    assert!(matches!(multipart_next(MultipartOutcome::Completed), MultipartAction::Done));
    match multipart_next(MultipartOutcome::PartFailed(Error::Io("disk".into()))) {
        MultipartAction::AbortThenFail(Error::Io(m)) => assert_eq!(m, "disk"),
        _ => panic!("a failed part aborts"),
    }
    match multipart_next(MultipartOutcome::CompleteFailed(Error::Msg("500".into()))) {
        MultipartAction::AbortThenFail(Error::Msg(m)) => assert_eq!(m, "500"),
        _ => panic!("a failed completion aborts"),
    }
}

#[test]
fn endpoint_log_lines() {
    assert_eq!(
        endpoint_message(&s3_conn(ConnectionKind::S3)),
        "Endpoint aws default, region us-east-1, path-style=false"
    );
    let mut r2 = s3_conn(ConnectionKind::R2);
    r2.use_path_style = true;
    // Logged before the missing endpoint is refused.
    assert_eq!(endpoint_message(&r2), "Endpoint aws default, region auto, path-style=true");
    let mut compat = s3_conn(ConnectionKind::S3Compat);
    compat.endpoint = Some("https://minio.local".into());
    compat.region = Some("eu-1".into());
    assert_eq!(endpoint_message(&compat), "Endpoint https://minio.local, region eu-1, path-style=false");
}
