//! The local file pane: the home folder to start in, a folder's rows in
//! display order, and a path's parent.
//!
//! Reading the directory and the environment is the caller's part; this module
//! takes what was read as plain values.
use crate::error::{opt_view, Error};
use crate::order::{key_views, sort_by_keys, stably_sorted, KeyView, SortKey};
use crate::text::{chars_of, has_prefix, lowercase, lowercase_of, owned, str_eq, str_starts_with};
use vstd::prelude::*;

verus! {

/// One entry of a directory as read from disk: its file name, its full path,
/// whether it is a folder, its length in bytes and its modification time in
/// seconds since the Unix epoch (when the system reports one).
pub struct DirItem {
    pub name: String,
    pub path: String,
    pub is_dir: bool,
    pub len: u64,
    pub modified: Option<i64>,
}

/// A row of the local file pane.
#[derive(Debug, Clone)]
pub struct LocalEntry {
    pub name: String,
    pub path: String,
    /// "folder" or "file".
    pub kind: String,
    pub size: Option<u64>,
    /// Seconds since the Unix epoch.
    pub modified: Option<i64>,
    pub hidden: bool,
}

/// The value of a [`LocalEntry`], with its texts as character sequences.
pub struct LocalView {
    pub name: Seq<char>,
    pub path: Seq<char>,
    pub kind: Seq<char>,
    pub size: Option<u64>,
    pub modified: Option<i64>,
    pub hidden: bool,
}

impl View for LocalEntry {
    type V = LocalView;

    open spec fn view(&self) -> LocalView {
        LocalView {
            name: self.name@,
            path: self.path@,
            kind: self.kind@,
            size: self.size,
            modified: self.modified,
            hidden: self.hidden,
        }
    }
}

/// A name is hidden when it starts with a dot.
pub open spec fn is_hidden(name: Seq<char>) -> bool {
    has_prefix(name, "."@)
}

/// The row shown for a directory item.
pub open spec fn local_row(d: DirItem) -> LocalView {
    LocalView {
        name: d.name@,
        path: d.path@,
        kind: if d.is_dir {
            "folder"@
        } else {
            "file"@
        },
        size: if d.is_dir {
            None
        } else {
            Some(d.len)
        },
        modified: d.modified,
        hidden: is_hidden(d.name@),
    }
}

/// The rows of a folder in the order the system gave them, without hidden
/// items unless they are asked for.
pub open spec fn local_rows(items: Seq<DirItem>, show_hidden: bool) -> Seq<LocalView>
    decreases items.len(),
{
    if items.len() == 0 {
        Seq::empty()
    } else {
        let rest = local_rows(items.drop_last(), show_hidden);
        let d = items.last();
        if is_hidden(d.name@) && !show_hidden {
            rest
        } else {
            rest.push(local_row(d))
        }
    }
}

/// The sort key of a row: files after folders, then the lowercased name.
pub open spec fn local_key(e: LocalView) -> KeyView {
    (e.kind != "folder"@, lowercase_of(e.name))
}

/// The sort keys of a list of rows.
pub open spec fn local_keys(v: Seq<LocalView>) -> Seq<KeyView> {
    v.map_values(|e: LocalView| local_key(e))
}

/// The views of a list of rows.
pub open spec fn local_views(v: Seq<LocalEntry>) -> Seq<LocalView> {
    v.map_values(|e: LocalEntry| e@)
}

fn row_of(d: &DirItem) -> (r: LocalEntry)
    ensures
        r@ == local_row(*d),
{
    LocalEntry {
        name: d.name.clone(),
        path: d.path.clone(),
        kind: if d.is_dir {
            owned("folder")
        } else {
            owned("file")
        },
        size: if d.is_dir {
            None
        } else {
            Some(d.len)
        },
        modified: d.modified,
        hidden: str_starts_with(d.name.as_str(), "."),
    }
}

/// The rows of a folder as the pane shows them: hidden items (names starting
/// with a dot) only when `show_hidden`, folders before files, then by
/// case-insensitive name, ties in the order the system listed them.
pub fn list(items: &Vec<DirItem>, show_hidden: bool) -> (r: Vec<LocalEntry>)
    ensures
        exists|p: Seq<int>|
            #![trigger stably_sorted(local_keys(local_rows(items@, show_hidden)), local_keys(local_views(r@)), p)]
            stably_sorted(local_keys(local_rows(items@, show_hidden)), local_keys(local_views(r@)), p)
                && (forall|k: int|
                0 <= k < r@.len() ==> #[trigger] r@[k]@ == local_rows(items@, show_hidden)[p[k]]),
{
    let mut out: Vec<LocalEntry> = Vec::new();
    let mut keys: Vec<SortKey> = Vec::new();
    let mut i: usize = 0;
    while i < items.len()
        invariant
            i <= items.len(),
            local_views(out@) == local_rows(items@.take(i as int), show_hidden),
            key_views(keys@) == local_keys(local_views(out@)),
        decreases items.len() - i,
    {
        proof {
            assert(items@.take(i + 1).drop_last() == items@.take(i as int));
        }
        let d = &items[i];
        let hidden = str_starts_with(d.name.as_str(), ".");
        if !hidden || show_hidden {
            let e = row_of(d);
            let low = lowercase(e.name.as_str());
            let k = SortKey {
                is_file: !str_eq(e.kind.as_str(), "folder"),
                name: chars_of(low.as_str()),
            };
            proof {
                assert(local_views(out@.push(e)) =~= local_views(out@).push(e@));
                assert(key_views(keys@.push(k)) =~= key_views(keys@).push((k.is_file, k.name@)));
                assert(local_keys(local_views(out@).push(e@)) =~= local_keys(local_views(out@)).push(
                    local_key(e@),
                ));
                assert(local_key(e@) == (k.is_file, k.name@));
            }
            out.push(e);
            keys.push(k);
        }
        i = i + 1;
    }
    assert(items@.take(items@.len() as int) == items@);
    let ghost before = out@;
    let ghost before_keys = key_views(keys@);
    sort_by_keys(&mut out, &mut keys);
    proof {
        let p = choose|p: Seq<int>|
            #![trigger stably_sorted(before_keys, key_views(keys@), p)]
            stably_sorted(before_keys, key_views(keys@), p) && (forall|k: int|
                0 <= k < before.len() ==> #[trigger] out@[k] == before[p[k]]);
        assert(local_keys(local_views(out@)) =~= key_views(keys@)) by {
            assert forall|k: int| 0 <= k < out@.len() implies local_keys(local_views(out@))[k]
                == key_views(keys@)[k] by {
                assert(out@[k] == before[p[k]]);
                assert(key_views(keys@)[k] == before_keys[p[k]]);
                assert(local_views(before)[p[k]] == before[p[k]]@);
            }
        }
        assert forall|k: int| 0 <= k < out@.len() implies #[trigger] out@[k]@ == local_rows(
            items@,
            show_hidden,
        )[p[k]] by {
            assert(out@[k] == before[p[k]]);
            assert(local_views(before)[p[k]] == before[p[k]]@);
        }
        assert(stably_sorted(local_keys(local_rows(items@, show_hidden)), local_keys(local_views(out@)), p));
    }
    out
}

/// The folder the pane opens in: the user's home folder when the environment
/// names one, else the working directory when it can be read, else "/".
pub fn home_dir(home: Option<String>, cwd: Option<String>) -> (r: Result<String, Error>)
    ensures
        r matches Ok(s) && s@ == (match (home, cwd) {
            (Some(h), _) => h@,
            (None, Some(c)) => c@,
            (None, None) => "/"@,
        }),
{
    match home {
        Some(h) => Ok(h),
        None => match cwd {
            Some(c) => Ok(c),
            None => Ok(owned("/")),
        },
    }
}

/// What `std::path::Path::parent` gives for a path written as `path`: the
/// path without its final component, or nothing for a root or the empty path.
/// Its value on other paths is not written out here.
pub uninterp spec fn path_parent_of(path: Seq<char>) -> Option<Seq<char>>;

/// `std::path::Path::new(path).parent()`, rendered back to a string. Its
/// documentation gives nothing for the empty path and for a path that is only
/// the root, which is stated; the rest is named by [`path_parent_of`].
#[verifier::external_body]
fn path_parent(path: &str) -> (r: Option<String>)
    ensures
        opt_view(r) == path_parent_of(path@),
        path@ == ""@ ==> r is None,
        path@ == "/"@ ==> r is None,
{
    match std::path::Path::new(path).parent() {
        Some(p) => Some(p.to_string_lossy().into_owned()),
        None => None,
    }
}

/// The parent shown for `path`, given what the system reported as its parent:
/// that parent, or `path` itself when it has none.
pub open spec fn parent_or_self_of(path: Seq<char>, found: Option<Seq<char>>) -> Seq<char> {
    match found {
        Some(p) => p,
        None => path,
    }
}

/// The parent of `path` given the parent the system reported (`found`): that
/// parent, or `path` itself at a root.
pub fn parent_or_self(path: &str, found: Option<String>) -> (r: String)
    ensures
        r@ == parent_or_self_of(path@, opt_view(found)),
{
    match found {
        Some(p) => p,
        None => owned(path),
    }
}

/// The folder above `path`, or `path` itself when it has none (a root or the
/// empty path). Never fails.
pub fn parent(path: &str) -> (r: Result<String, Error>)
    ensures
        r matches Ok(s) && s@ == parent_or_self_of(path@, path_parent_of(path@)),
        (path@ == ""@ || path@ == "/"@) ==> (r matches Ok(s) && s@ == path@),
{
    Ok(parent_or_self(path, path_parent(path)))
}

} // verus!
