use novacirrus::localfs::{home_dir, list, parent, parent_or_self, DirItem};

fn item(name: &str, is_dir: bool, len: u64) -> DirItem {
    DirItem { name: name.into(), path: format!("/home/u/{name}"), is_dir, len, modified: Some(1_700_000_000) }
}

#[test]
fn rows_folders_first_hidden_on_request() {
    let items = vec![
        item("b.txt", false, 2),
        item(".hidden", false, 1),
        item("Docs", true, 4096),
        item("a.txt", false, 3),
        item(".config", true, 0),
    ];
    let rows = list(&items, false);
    let names: Vec<&str> = rows.iter().map(|e| e.name.as_str()).collect();
    assert_eq!(names, vec!["Docs", "a.txt", "b.txt"]);
    assert_eq!(rows[0].kind, "folder");
    assert_eq!(rows[0].size, None);
    assert_eq!(rows[1].size, Some(3));
    assert_eq!(rows[1].path, "/home/u/a.txt");
    assert!(!rows[1].hidden);
    let all = list(&items, true);
    let names: Vec<&str> = all.iter().map(|e| e.name.as_str()).collect();
    assert_eq!(names, vec![".config", "Docs", ".hidden", "a.txt", "b.txt"]);
    assert!(all[0].hidden);
}

#[test]
fn home_folder_choice() {
    assert_eq!(home_dir(Some("/home/u".into()), Some("/tmp".into())).ok().unwrap(), "/home/u");
    assert_eq!(home_dir(None, Some("/tmp".into())).ok().unwrap(), "/tmp");
    assert_eq!(home_dir(None, None).ok().unwrap(), "/");
}

#[test]
fn parents() {
    assert_eq!(parent("/home/u/file.txt").ok().unwrap(), "/home/u");
    assert_eq!(parent("/home").ok().unwrap(), "/");
    assert_eq!(parent("/").ok().unwrap(), "/");
    assert_eq!(parent("").ok().unwrap(), "");
    assert_eq!(parent_or_self("/x", None), "/x");
    assert_eq!(parent_or_self("/x/y", Some("/x".into())), "/x");
}
