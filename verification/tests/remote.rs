use novacirrus::connections::ConnectionKind;
use novacirrus::remote::{
    backend_family, caps_for, child_abs, child_rel, connected_message, join_remote, list_rows,
    listed_child, mkdir_plan, parent_dir, search_runs, Family, ListedFile, TreeSearch, TreeStyle,
    SEARCH_LIMIT, SEARCH_MAX_DEPTH,
};

fn file(name: &str, is_dir: bool, size: u64) -> ListedFile {
    ListedFile { name: name.into(), is_dir, size, modified: Some(100) }
}

#[test]
fn families_and_caps() {
    assert_eq!(backend_family(ConnectionKind::R2), Family::S3);
    assert_eq!(backend_family(ConnectionKind::Sftp), Family::Sftp);
    assert_eq!(backend_family(ConnectionKind::Ftps), Family::Ftp);
    let s3 = caps_for(Family::S3);
    assert!(s3.multipart && s3.virtual_buckets && !s3.resume);
    let ftp = caps_for(Family::Ftp);
    assert!(!ftp.multipart && !ftp.virtual_buckets && !ftp.resume);
}

#[test]
fn search_needs_a_query() {
    assert!(!search_runs(""));
    assert!(!search_runs("   "));
    assert!(search_runs(" a "));
    assert_eq!(SEARCH_LIMIT, 1000);
    assert_eq!(SEARCH_MAX_DEPTH, 12);
}

#[test]
fn remote_path_joining() {
    assert_eq!(join_remote("", "a/b.txt"), "/a/b.txt");
    assert_eq!(join_remote("/", "a"), "/a");
    assert_eq!(join_remote("/up/", "a"), "/up/a");
    assert_eq!(join_remote("up", "a"), "up/a");
    assert_eq!(child_rel("", "x"), "x");
    assert_eq!(child_rel("a/b", "x"), "a/b/x");
    assert_eq!(child_abs(TreeStyle::Ftp, "/", "x"), "/x");
    assert_eq!(child_abs(TreeStyle::Sftp, ".", "x"), "x");
    assert_eq!(child_abs(TreeStyle::Ftp, ".", "x"), "./x");
    assert_eq!(child_abs(TreeStyle::Sftp, "/home/u/", "x"), "/home/u/x");
    assert_eq!(listed_child(TreeStyle::Sftp, "", "x"), "x");
    assert_eq!(listed_child(TreeStyle::Ftp, "/pub", "x"), "/pub/x");
    assert_eq!(connected_message("/home"), "OK \u{2014} connected, cwd=/home");
}

#[test]
fn listing_rows_are_sorted_folders_first() {
    let files = vec![
        file("b.txt", false, 2),
        file(".", true, 0),
        file("Zdir", true, 0),
        file("A.txt", false, 1),
        file("..", true, 0),
        file("adir", true, 0),
    ];
    let rows = list_rows(TreeStyle::Sftp, "/data", &files);
    let names: Vec<&str> = rows.iter().map(|e| e.name.as_str()).collect();
    assert_eq!(names, vec!["adir", "Zdir", "A.txt", "b.txt"]);
    assert_eq!(rows[0].key, "/data/adir");
    assert_eq!(rows[0].size, None);
    assert_eq!(rows[2].size, Some(1));
    assert_eq!(rows[2].kind, "file");
}

#[test]
fn listing_sort_keeps_ties_in_order() {
    let files = vec![file("Same", false, 1), file("same", false, 2)];
    let rows = list_rows(TreeStyle::Ftp, "/", &files);
    assert_eq!(rows[0].size, Some(1));
    assert_eq!(rows[1].size, Some(2));
}

#[test]
fn tree_search_walks_depth_first_and_stops_at_limit() {
    let mut s = TreeSearch::new(TreeStyle::Ftp, "", "REP", 2, 12);
    let root = s.next_dir().expect("the root is pending");
    assert_eq!(root.abs, "/");
    assert_eq!(root.depth, 0);
    s.visit(&root, &vec![file("report1.txt", false, 1), file("sub", true, 0), file("x", false, 1)]);
    let sub = s.next_dir().expect("sub is pending");
    assert_eq!((sub.abs.as_str(), sub.rel.as_str(), sub.depth), ("/sub", "sub", 1));
    s.visit(&sub, &vec![file("Report2.TXT", false, 1), file("report3", false, 1)]);
    // The limit of two results was reached: nothing more is visited.
    assert!(s.next_dir().is_none());
    let found = s.results();
    let names: Vec<&str> = found.iter().map(|e| e.name.as_str()).collect();
    assert_eq!(names, vec!["report1.txt", "sub/Report2.TXT"]);
    assert_eq!(found[1].key, "/sub/Report2.TXT");
}

#[test]
fn tree_search_respects_max_depth() {
    let mut s = TreeSearch::new(TreeStyle::Sftp, "", "q", 100, 1);
    let root = s.next_dir().unwrap();
    assert_eq!(root.abs, ".");
    s.visit(&root, &vec![file("deep", true, 0)]);
    assert!(s.next_dir().is_none());
}

#[test]
fn mkdir_plans_each_directory_once() {
    let mut made: Vec<String> = Vec::new();
    assert_eq!(mkdir_plan(&mut made, "/up/a/b"), vec!["/up", "/up/a", "/up/a/b"]);
    assert_eq!(mkdir_plan(&mut made, "/up/a/c"), vec!["/up/a/c"]);
    assert_eq!(mkdir_plan(&mut made, "rel//x/"), vec!["rel", "rel/x"]);
    assert_eq!(made.len(), 6);
    assert!(mkdir_plan(&mut made, "/up/a").is_empty());
}

#[test]
fn parent_of_uploaded_file() {
    assert_eq!(parent_dir("/up/a/f.txt").as_deref(), Some("/up/a"));
    assert_eq!(parent_dir("/f.txt"), None);
    assert_eq!(parent_dir("f.txt"), None);
}

#[test]
fn tree_search_with_limit_zero_finds_nothing() {
    let mut s = TreeSearch::new(TreeStyle::Sftp, "/data", "a", 0, 12);
    // A search bounded by zero results is full from the start.
    assert!(s.next_dir().is_none());
    let dir = novacirrus::remote::PendingDir { abs: "/data".into(), rel: String::new(), depth: 0 };
    s.visit(&dir, &vec![file("a.txt", false, 1)]);
    assert!(s.results().is_empty());
}
