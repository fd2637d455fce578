//! What every backend shares: its capability surface, the dispatch from a
//! connection kind to a backend family, the remote path conventions of the
//! file-tree protocols (SFTP / FTP), the listing rows they produce and the
//! bounded recursive name search over their directory trees.
//!
//! Path convention: the S3 family uses "<bucket>/<key prefix...>"; SFTP / FTP
//! use a regular absolute path, or "" for the connection's default location.
use crate::connections::ConnectionKind;
use crate::order::{sort_entries, stably_sorted, entry_keys};
use crate::s3::{entry_views, EntryView, ObjectEntry};
use crate::s3::kept_matches;
use crate::text::{
    first_index, chars_of, concat, concat3, has_substring, lowercase, lowercase_of, owned, str_contains, str_eq,
    trim_end, trim_end_char, trim_spaces, trim_str,
};
use vstd::prelude::*;

verus! {

/// What a backend can do, so the dispatcher / UI can adapt instead of
/// hard-coding "is this the S3 family?".
#[derive(Debug, Clone, Copy, PartialEq, Eq, Structural)]
pub struct Caps {
    /// Supports chunked/multipart uploads.
    pub multipart: bool,
    /// Supports resuming an interrupted transfer from an offset.
    pub resume: bool,
    /// Top level is a set of buckets shown as virtual folders.
    pub virtual_buckets: bool,
}

/// The protocol family a connection is served by.
#[derive(Debug, Clone, Copy, PartialEq, Eq, Structural)]
pub enum Family {
    S3,
    Sftp,
    Ftp,
}

/// The family serving each connection kind.
pub open spec fn family_of(kind: ConnectionKind) -> Family {
    match kind {
        ConnectionKind::S3 | ConnectionKind::R2 | ConnectionKind::S3Compat => Family::S3,
        ConnectionKind::Sftp => Family::Sftp,
        ConnectionKind::Ftp | ConnectionKind::Ftps => Family::Ftp,
    }
}

/// The backend family for a connection kind: the S3 family shares one
/// backend, SFTP has its own, FTP and FTPS share one.
pub fn backend_family(kind: ConnectionKind) -> (r: Family)
    ensures
        r == family_of(kind),
{
    match kind {
        ConnectionKind::S3 | ConnectionKind::R2 | ConnectionKind::S3Compat => Family::S3,
        ConnectionKind::Sftp => Family::Sftp,
        ConnectionKind::Ftp | ConnectionKind::Ftps => Family::Ftp,
    }
}

/// What each family can do: only S3 has multipart uploads and virtual buckets.
pub fn caps_for(family: Family) -> (r: Caps)
    ensures
        r.multipart == (family is S3),
        r.virtual_buckets == (family is S3),
        !r.resume,
{
    match family {
        Family::S3 => Caps { multipart: true, resume: false, virtual_buckets: true },
        _ => Caps { multipart: false, resume: false, virtual_buckets: false },
    }
}

/// The app's bound on search results.
pub const SEARCH_LIMIT: usize = 1000;

/// The app's bound on search depth.
pub const SEARCH_MAX_DEPTH: usize = 12;

/// Whether a search for `query` runs at all: a blank query returns no result
/// without touching the remote.
pub fn search_runs(query: &str) -> (r: bool)
    ensures
        r == (trim_spaces(query@).len() > 0),
{
    let t = trim_str(query);
    !t.as_str().is_empty()
}

/// The status line of a successful probe of a file-tree connection.
pub fn connected_message(cwd: &str) -> (r: String)
    ensures
        r@ == "OK \u{2014} connected, cwd="@ + cwd@,
{
    concat("OK \u{2014} connected, cwd=", cwd)
}

// ---------------------------------------------------------------------------
// Paths of the file-tree protocols
// ---------------------------------------------------------------------------

/// Which file-tree protocol a path belongs to: they differ in how the default
/// location is written ("/" for FTP, "." for SFTP).
#[derive(Debug, Clone, Copy, PartialEq, Eq, Structural)]
pub enum TreeStyle {
    Ftp,
    Sftp,
}

/// `rel/name`, or `name` at the root of the walk.
pub open spec fn rel_child(rel: Seq<char>, name: Seq<char>) -> Seq<char> {
    if rel.len() == 0 {
        name
    } else {
        rel + "/"@ + name
    }
}

/// The path of a child of a walked directory relative to the walk's root.
pub fn child_rel(rel: &str, name: &str) -> (r: String)
    ensures
        r@ == rel_child(rel@, name@),
{
    if rel.is_empty() {
        owned(name)
    } else {
        concat3(rel, "/", name)
    }
}

/// The absolute path of `name` inside directory `dir` as the search walks it:
/// directly under "/" is "/name", directly under SFTP's "." is just the
/// name, otherwise the directory (trailing slashes dropped), '/', the name.
pub open spec fn abs_child(style: TreeStyle, dir: Seq<char>, name: Seq<char>) -> Seq<char> {
    if dir == "/"@ {
        "/"@ + name
    } else if style is Sftp && dir == "."@ {
        name
    } else {
        trim_end(dir, '/') + "/"@ + name
    }
}

/// The absolute path of a child of a walked directory.
pub fn child_abs(style: TreeStyle, dir: &str, name: &str) -> (r: String)
    ensures
        r@ == abs_child(style, dir@, name@),
{
    if str_eq(dir, "/") {
        concat("/", name)
    } else if style == TreeStyle::Sftp && str_eq(dir, ".") {
        owned(name)
    } else {
        let t = trim_end_char(dir, '/');
        concat3(t.as_str(), "/", name)
    }
}

/// The key of `name` in a listing of `path`: the bare name at the default
/// location or the root, otherwise the path (trailing slashes dropped), '/',
/// the name.
pub open spec fn listed_key(style: TreeStyle, path: Seq<char>, name: Seq<char>) -> Seq<char> {
    if path.len() == 0 || path == "/"@ || (style is Sftp && path == "."@) {
        name
    } else {
        trim_end(path, '/') + "/"@ + name
    }
}

/// The key of a listed child.
pub fn listed_child(style: TreeStyle, path: &str, name: &str) -> (r: String)
    ensures
        r@ == listed_key(style, path@, name@),
{
    if path.is_empty() || str_eq(path, "/") || (style == TreeStyle::Sftp && str_eq(path, ".")) {
        owned(name)
    } else {
        let t = trim_end_char(path, '/');
        concat3(t.as_str(), "/", name)
    }
}

/// Where an upload of `rel` lands under `base`: directly under the root when
/// the base is empty or "/", otherwise under the base (trailing slashes
/// dropped).
pub open spec fn joined_remote(base: Seq<char>, rel: Seq<char>) -> Seq<char> {
    if base.len() == 0 || base == "/"@ {
        "/"@ + rel
    } else {
        trim_end(base, '/') + "/"@ + rel
    }
}

/// The remote path of a file of a folder upload.
pub fn join_remote(base: &str, rel: &str) -> (r: String)
    ensures
        r@ == joined_remote(base@, rel@),
{
    if base.is_empty() || str_eq(base, "/") {
        concat("/", rel)
    } else {
        let t = trim_end_char(base, '/');
        concat3(t.as_str(), "/", rel)
    }
}

// ---------------------------------------------------------------------------
// Listing rows
// ---------------------------------------------------------------------------

/// One directory entry as a file-tree protocol reports it. `modified` is in
/// seconds since the Unix epoch.
#[derive(Debug, Clone)]
pub struct ListedFile {
    pub name: String,
    pub is_dir: bool,
    pub size: u64,
    pub modified: Option<i64>,
}

impl ListedFile {
    /// A field-for-field copy.
    pub fn duplicate(&self) -> (r: ListedFile)
        ensures
            r == *self,
    {
        ListedFile { name: self.name.clone(), is_dir: self.is_dir, size: self.size, modified: self.modified }
    }
}

/// Whether a name is one of the self / parent links that listings skip.
pub open spec fn is_dot_link(name: Seq<char>) -> bool {
    name == "."@ || name == ".."@
}

/// The row of a directory entry under key `key`, named `name`.
pub open spec fn file_row(f: ListedFile, key: Seq<char>, name: Seq<char>) -> EntryView {
    EntryView {
        key,
        name,
        kind: if f.is_dir {
            "folder"@
        } else {
            "file"@
        },
        size: if f.is_dir {
            None
        } else {
            Some(f.size as i64)
        },
        modified: f.modified,
        etag: None,
    }
}

/// The rows of a directory listing of `path`, in the order the server gave
/// them, without the "." and ".." links.
pub open spec fn listing_rows(style: TreeStyle, path: Seq<char>, fs: Seq<ListedFile>) -> Seq<
    EntryView,
>
    decreases fs.len(),
{
    if fs.len() == 0 {
        Seq::empty()
    } else {
        let rest = listing_rows(style, path, fs.drop_last());
        let f = fs.last();
        if is_dot_link(f.name@) {
            rest
        } else {
            rest.push(file_row(f, listed_key(style, path, f.name@), f.name@))
        }
    }
}

fn is_dot(name: &str) -> (r: bool)
    ensures
        r == is_dot_link(name@),
{
    str_eq(name, ".") || str_eq(name, "..")
}

fn make_row(f: &ListedFile, key: String, name: String) -> (r: ObjectEntry)
    ensures
        r@ == file_row(*f, key@, name@),
{
    ObjectEntry {
        key,
        name,
        kind: if f.is_dir {
            owned("folder")
        } else {
            owned("file")
        },
        size: if f.is_dir {
            None
        } else {
            Some(f.size as i64)
        },
        modified: f.modified,
        etag: None,
    }
}

proof fn lemma_views_push(s: Seq<ObjectEntry>, e: ObjectEntry)
    ensures
        entry_views(s.push(e)) == entry_views(s).push(e@),
{
    assert(entry_views(s.push(e)) =~= entry_views(s).push(e@));
}

/// The rows of a listing of `path`, in display order: the entries the server
/// reported (without "." and ".."), sorted folders first, then by
/// case-insensitive name, ties in server order.
pub fn list_rows(style: TreeStyle, path: &str, files: &Vec<ListedFile>) -> (r: Vec<ObjectEntry>)
    ensures
        exists|p: Seq<int>|
            #![trigger stably_sorted(entry_keys_of(listing_rows(style, path@, files@)), entry_keys(r@), p)]
            stably_sorted(entry_keys_of(listing_rows(style, path@, files@)), entry_keys(r@), p)
                && (forall|k: int|
                0 <= k < r@.len() ==> #[trigger] r@[k]@ == listing_rows(style, path@, files@)[p[k]]),
{
    let mut out: Vec<ObjectEntry> = Vec::new();
    let mut i: usize = 0;
    while i < files.len()
        invariant
            i <= files.len(),
            entry_views(out@) == listing_rows(style, path@, files@.take(i as int)),
            forall|k: int|
                0 <= k < out@.len() ==> (#[trigger] out@[k]).kind@ == "folder"@ || out@[k].kind@
                    == "file"@,
        decreases files.len() - i,
    {
        proof {
            assert(files@.take(i + 1).drop_last() == files@.take(i as int));
        }
        let f = &files[i];
        if !is_dot(f.name.as_str()) {
            let key = listed_child(style, path, f.name.as_str());
            let e = make_row(f, key, f.name.clone());
            proof {
                lemma_views_push(out@, e);
            }
            out.push(e);
        }
        i = i + 1;
    }
    assert(files@.take(files@.len() as int) == files@);
    let ghost before = out@;
    sort_entries(&mut out);
    proof {
        assert(entry_keys(before) =~= entry_keys_of(entry_views(before)));
        let p = choose|p: Seq<int>|
            #![trigger stably_sorted(entry_keys(before), entry_keys(out@), p)]
            stably_sorted(entry_keys(before), entry_keys(out@), p) && (forall|k: int|
                0 <= k < before.len() ==> #[trigger] out@[k] == before[p[k]]);
        assert forall|k: int| 0 <= k < out@.len() implies #[trigger] out@[k]@ == listing_rows(
            style,
            path@,
            files@,
        )[p[k]] by {
            assert(out@[k] == before[p[k]]);
            assert(entry_views(before)[p[k]] == before[p[k]]@);
        }
    }
    out
}

/// The sort keys of a list of row views.
pub open spec fn entry_keys_of(v: Seq<EntryView>) -> Seq<crate::order::KeyView> {
    v.map_values(|e: EntryView| crate::order::entry_key(e))
}

// ---------------------------------------------------------------------------
// Bounded recursive search
// ---------------------------------------------------------------------------

/// A directory still to be walked: its absolute path, its path relative to
/// the search root, and its depth below the root.
pub struct PendingDir {
    pub abs: String,
    pub rel: String,
    pub depth: usize,
}

/// The value of a [`PendingDir`].
pub type PendingView = (Seq<char>, Seq<char>, nat);

/// The matches of one walked directory's entries, in order: entries whose
/// lowercased name contains the needle, keyed by absolute path and named by
/// the path relative to the root.
pub open spec fn match_rows(
    style: TreeStyle,
    abs: Seq<char>,
    rel: Seq<char>,
    needle: Seq<char>,
    fs: Seq<ListedFile>,
) -> Seq<EntryView>
    decreases fs.len(),
{
    if fs.len() == 0 {
        Seq::empty()
    } else {
        let rest = match_rows(style, abs, rel, needle, fs.drop_last());
        let f = fs.last();
        if !is_dot_link(f.name@) && has_substring(lowercase_of(f.name@), needle) {
            rest.push(
                file_row(f, abs_child(style, abs, f.name@), rel_child(rel, f.name@)),
            )
        } else {
            rest
        }
    }
}

/// The subdirectories of one walked directory still within the depth bound,
/// in order.
pub open spec fn sub_dirs(
    style: TreeStyle,
    abs: Seq<char>,
    rel: Seq<char>,
    depth: nat,
    max_depth: nat,
    fs: Seq<ListedFile>,
) -> Seq<PendingView>
    decreases fs.len(),
{
    if fs.len() == 0 {
        Seq::empty()
    } else {
        let rest = sub_dirs(style, abs, rel, depth, max_depth, fs.drop_last());
        let f = fs.last();
        if !is_dot_link(f.name@) && f.is_dir && depth + 1 < max_depth {
            rest.push((abs_child(style, abs, f.name@), rel_child(rel, f.name@), depth + 1))
        } else {
            rest
        }
    }
}

/// A bounded, depth-first name search over a directory tree, driven one
/// directory listing at a time: [`TreeSearch::next_dir`] says which directory
/// to list next, [`TreeSearch::visit`] takes its entries.
pub struct TreeSearch {
    style: TreeStyle,
    needle: String,
    limit: usize,
    max_depth: usize,
    stack: Vec<PendingDir>,
    found: Vec<ObjectEntry>,
    full: bool,
}

/// The views of the pending directories.
pub open spec fn pending_views(s: Seq<PendingDir>) -> Seq<PendingView> {
    s.map_values(|d: PendingDir| (d.abs@, d.rel@, d.depth as nat))
}

impl TreeSearch {
    pub closed spec fn style(&self) -> TreeStyle {
        self.style
    }

    /// The lowercased query.
    pub closed spec fn needle(&self) -> Seq<char> {
        self.needle@
    }

    pub closed spec fn limit(&self) -> nat {
        self.limit as nat
    }

    pub closed spec fn max_depth(&self) -> nat {
        self.max_depth as nat
    }

    /// The directories still to walk; the last one is walked next.
    pub closed spec fn pending(&self) -> Seq<PendingView> {
        pending_views(self.stack@)
    }

    /// The matches found so far, in order.
    pub closed spec fn found(&self) -> Seq<EntryView> {
        entry_views(self.found@)
    }

    /// Whether the result limit was reached.
    pub closed spec fn is_full(&self) -> bool {
        self.full
    }

    /// A search for `query` (case-insensitive) under `root`, bounded by
    /// `limit` results and `max_depth` levels. An empty root is the
    /// connection's default location. A search bounded by zero results is
    /// full from the start.
    pub fn new(style: TreeStyle, root: &str, query: &str, limit: usize, max_depth: usize) -> (r:
        TreeSearch)
        ensures
            r.style() == style,
            r.needle() == lowercase_of(query@),
            r.limit() == limit,
            r.max_depth() == max_depth,
            r.pending() == seq![
                (
                    if root@.len() == 0 {
                        if style is Ftp {
                            "/"@
                        } else {
                            "."@
                        }
                    } else {
                        root@
                    },
                    Seq::<char>::empty(),
                    0nat,
                ),
            ],
            r.found() == Seq::<EntryView>::empty(),
            r.is_full() == (limit == 0),
    {
        let start = if root.is_empty() {
            match style {
                TreeStyle::Ftp => owned("/"),
                TreeStyle::Sftp => owned("."),
            }
        } else {
            owned(root)
        };
        let mut stack: Vec<PendingDir> = Vec::new();
        stack.push(PendingDir { abs: start, rel: String::new(), depth: 0 });
        let r = TreeSearch {
            style,
            needle: lowercase(query),
            limit,
            max_depth,
            stack,
            found: Vec::new(),
            full: limit == 0,
        };
        assert(r.pending() =~= seq![(r.stack@[0].abs@, Seq::<char>::empty(), 0nat)]);
        assert(r.found() =~= Seq::<EntryView>::empty());
        r
    }

    /// The next directory to list: the most recently found pending one. `None`
    /// once the tree is exhausted or the limit was reached.
    pub fn next_dir(&mut self) -> (r: Option<PendingDir>)
        ensures
            final(self).style() == old(self).style(),
            final(self).needle() == old(self).needle(),
            final(self).limit() == old(self).limit(),
            final(self).max_depth() == old(self).max_depth(),
            final(self).found() == old(self).found(),
            final(self).is_full() == old(self).is_full(),
            (old(self).is_full() || old(self).pending().len() == 0) ==> (r is None
                && final(self).pending() == old(self).pending()),
            !(old(self).is_full() || old(self).pending().len() == 0) ==> (r matches Some(d) && (
            d.abs@, d.rel@, d.depth as nat) == old(self).pending().last() && final(self).pending()
                == old(self).pending().drop_last()),
    {
        if self.full {
            return None;
        }
        let ghost before = self.stack@;
        let r = self.stack.pop();
        proof {
            if before.len() > 0 {
                assert(pending_views(self.stack@) =~= pending_views(before).drop_last());
            }
        }
        r
    }

    /// Take the entries of the walked directory `dir`: record the matches (stop
    /// as soon as `limit` results are held) and queue its subdirectories within
    /// the depth bound.
    pub fn visit(&mut self, dir: &PendingDir, files: &Vec<ListedFile>)
        ensures
            final(self).style() == old(self).style(),
            final(self).needle() == old(self).needle(),
            final(self).limit() == old(self).limit(),
            final(self).max_depth() == old(self).max_depth(),
            ({
                let m = match_rows(old(self).style(), dir.abs@, dir.rel@, old(self).needle(), files@);
                let n = old(self).found().len();
                let full = n + m.len() >= old(self).limit();
                &&& final(self).found() == old(self).found() + m.take(
                    kept_matches(n, m.len(), old(self).limit()) as int,
                )
                &&& final(self).is_full() == (old(self).is_full() || full)
                &&& !full ==> final(self).pending() == old(self).pending() + sub_dirs(
                    old(self).style(),
                    dir.abs@,
                    dir.rel@,
                    dir.depth as nat,
                    old(self).max_depth(),
                    files@,
                )
            }),
    {
        let ghost found0 = self.found();
        let ghost pending0 = self.pending();
        let ghost n = found0.len();
        let ghost style = self.style;
        let ghost needle = self.needle@;
        let ghost all = match_rows(style, dir.abs@, dir.rel@, needle, files@);
        if self.found.len() >= self.limit {
            self.full = true;
            proof {
                assert(entry_views(self.found@).len() == self.found@.len());
            }
            return ;
        }
        let mut j: usize = 0;
        while j < files.len()
            invariant
                j <= files.len(),
                self.style == style,
                self.needle@ == needle,
                style == old(self).style,
                needle == old(self).needle@,
                self.limit == old(self).limit,
                self.max_depth == old(self).max_depth,
                self.full == old(self).full,
                n == found0.len(),
                found0 == old(self).found(),
                pending0 == old(self).pending(),
                all == match_rows(style, dir.abs@, dir.rel@, needle, files@),
                entry_views(self.found@) == found0 + match_rows(
                    style,
                    dir.abs@,
                    dir.rel@,
                    needle,
                    files@.take(j as int),
                ),
                pending_views(self.stack@) == pending0 + sub_dirs(
                    style,
                    dir.abs@,
                    dir.rel@,
                    dir.depth as nat,
                    self.max_depth as nat,
                    files@.take(j as int),
                ),
                n + match_rows(style, dir.abs@, dir.rel@, needle, files@.take(j as int)).len()
                    < self.limit,
            decreases files.len() - j,
        {
            proof {
                assert(files@.take(j + 1).drop_last() == files@.take(j as int));
                assert(files@.take(j + 1).last() == files@[j as int]);
                lemma_match_rows_prefix(style, dir.abs@, dir.rel@, needle, files@, j + 1);
            }
            let f = &files[j];
            if !is_dot(f.name.as_str()) {
                let abs = child_abs(self.style, dir.abs.as_str(), f.name.as_str());
                let rel = child_rel(dir.rel.as_str(), f.name.as_str());
                let low = lowercase(f.name.as_str());
                if str_contains(low.as_str(), self.needle.as_str()) {
                    let e = make_row(f, abs.clone(), rel.clone());
                    proof {
                        lemma_views_push(self.found@, e);
                    }
                    self.found.push(e);
                    proof {
                        assert(entry_views(self.found@).len() == self.found@.len());
                    }
                    if self.found.len() >= self.limit {
                        self.full = true;
                        proof {
                            let taken = match_rows(
                                style,
                                dir.abs@,
                                dir.rel@,
                                needle,
                                files@.take(j + 1),
                            );
                            assert(taken == all.take(taken.len() as int));
                            assert(found0.len() == n);
                            assert(taken.len() <= all.len());
                            assert(kept_matches(n, all.len(), self.limit as nat) == taken.len());
                        }
                        return ;
                    }
                }
                if f.is_dir && dir.depth < usize::MAX && dir.depth + 1 < self.max_depth {
                    let d = PendingDir { abs, rel, depth: dir.depth + 1 };
                    proof {
                        assert(pending_views(self.stack@.push(d)) =~= pending_views(
                            self.stack@,
                        ).push((d.abs@, d.rel@, d.depth as nat)));
                    }
                    self.stack.push(d);
                }
            }
            j = j + 1;
        }
        proof {
            assert(files@.take(files@.len() as int) == files@);
            assert(all.take(all.len() as int) == all);
        }
    }

    /// The matches found, in the order they were found.
    pub fn results(self) -> (r: Vec<ObjectEntry>)
        ensures
            entry_views(r@) == self.found(),
    {
        self.found
    }
}

proof fn lemma_match_rows_prefix(
    style: TreeStyle,
    abs: Seq<char>,
    rel: Seq<char>,
    needle: Seq<char>,
    fs: Seq<ListedFile>,
    j: int,
)
    requires
        0 <= j <= fs.len(),
    ensures
        match_rows(style, abs, rel, needle, fs.take(j)).len() <= match_rows(
            style,
            abs,
            rel,
            needle,
            fs,
        ).len(),
        match_rows(style, abs, rel, needle, fs.take(j)) == match_rows(
            style,
            abs,
            rel,
            needle,
            fs,
        ).take(match_rows(style, abs, rel, needle, fs.take(j)).len() as int),
    decreases fs.len() - j,
{
    let all = match_rows(style, abs, rel, needle, fs);
    if j < fs.len() {
        lemma_match_rows_prefix(style, abs, rel, needle, fs, j + 1);
        assert(fs.take(j + 1).drop_last() == fs.take(j));
        let a = match_rows(style, abs, rel, needle, fs.take(j));
        let b = match_rows(style, abs, rel, needle, fs.take(j + 1));
        assert(a == b.take(a.len() as int)) by {
            if b.len() > a.len() {
                assert(b == a.push(b.last()));
                assert(b.take(a.len() as int) =~= a);
            } else {
                assert(b.take(a.len() as int) =~= a);
            }
        }
        assert(all.take(b.len() as int).take(a.len() as int) =~= all.take(a.len() as int));
    } else {
        assert(fs.take(j) == fs);
        assert(all.take(all.len() as int) =~= all);
    }
}

// --- Laws of the search ---

/// A search never holds more results than its limit: a step from a state
/// within the limit stays within it, filling it exactly when the matches reach
/// it and keeping every match otherwise; a step from a full state keeps none.
pub proof fn search_limit_law(n: nat, m: nat, limit: nat)
    ensures
        n <= limit ==> n + kept_matches(n, m, limit) <= limit,
        (n <= limit && n + m >= limit) ==> n + kept_matches(n, m, limit) == limit,
        n + m < limit ==> kept_matches(n, m, limit) == m,
        n >= limit ==> kept_matches(n, m, limit) == 0,
{
}

/// A search misses no match: every listed entry other than "." and ".."
/// whose lowercased name holds the needle, folder or file alike, yields a row
/// keyed by its absolute path and named by its path relative to the search
/// root, a folder row exactly for a folder.
pub proof fn search_complete_law(
    style: TreeStyle,
    abs: Seq<char>,
    rel: Seq<char>,
    needle: Seq<char>,
    fs: Seq<ListedFile>,
    k: int,
)
    requires
        0 <= k < fs.len(),
        fs[k].name@ != "."@,
        fs[k].name@ != ".."@,
        has_substring(lowercase_of(fs[k].name@), needle),
    ensures
        exists|j: int|
            0 <= j < match_rows(style, abs, rel, needle, fs).len() && {
                let e = #[trigger] match_rows(style, abs, rel, needle, fs)[j];
                &&& e.key == abs_child(style, abs, fs[k].name@)
                &&& e.name == rel_child(rel, fs[k].name@)
                &&& e.kind == (if fs[k].is_dir {
                    "folder"@
                } else {
                    "file"@
                })
                &&& e.size == (if fs[k].is_dir {
                    None
                } else {
                    Some(fs[k].size as i64)
                })
            },
    decreases fs.len(),
{
    let rest = match_rows(style, abs, rel, needle, fs.drop_last());
    let all = match_rows(style, abs, rel, needle, fs);
    if k == fs.len() - 1 {
        assert(fs.last() == fs[k]);
        let j = rest.len() as int;
        assert(all == rest.push(all[j]));
        let e = all[j];
        assert(e.key == abs_child(style, abs, fs[k].name@));
    } else {
        assert(fs.drop_last()[k] == fs[k]);
        search_complete_law(style, abs, rel, needle, fs.drop_last(), k);
        let j = choose|j: int|
            0 <= j < rest.len() && {
                let e = #[trigger] rest[j];
                &&& e.key == abs_child(style, abs, fs[k].name@)
                &&& e.name == rel_child(rel, fs[k].name@)
                &&& e.kind == (if fs[k].is_dir {
                    "folder"@
                } else {
                    "file"@
                })
                &&& e.size == (if fs[k].is_dir {
                    None
                } else {
                    Some(fs[k].size as i64)
                })
            };
        assert(all[j] == rest[j]);
    }
}

/// Every queued subdirectory lies strictly within the depth bound and one
/// level below the directory it was found in.
pub proof fn search_depth_law(
    style: TreeStyle,
    abs: Seq<char>,
    rel: Seq<char>,
    depth: nat,
    max_depth: nat,
    fs: Seq<ListedFile>,
)
    ensures
        forall|k: int|
            0 <= k < sub_dirs(style, abs, rel, depth, max_depth, fs).len() ==> (#[trigger] sub_dirs(
                style,
                abs,
                rel,
                depth,
                max_depth,
                fs,
            )[k]).2 == depth + 1 && sub_dirs(style, abs, rel, depth, max_depth, fs)[k].2
                < max_depth,
    decreases fs.len(),
{
    if fs.len() > 0 {
        search_depth_law(style, abs, rel, depth, max_depth, fs.drop_last());
        let rest = sub_dirs(style, abs, rel, depth, max_depth, fs.drop_last());
        let all = sub_dirs(style, abs, rel, depth, max_depth, fs);
        assert forall|k: int| 0 <= k < all.len() implies (#[trigger] all[k]).2 == depth + 1
            && all[k].2 < max_depth by {
            if k < rest.len() {
                assert(all[k] == rest[k]);
            }
        }
    }
}

/// Every match's name contains the (lowercased) query.
pub proof fn search_match_law(
    style: TreeStyle,
    abs: Seq<char>,
    rel: Seq<char>,
    needle: Seq<char>,
    fs: Seq<ListedFile>,
)
    ensures
        forall|k: int|
            0 <= k < match_rows(style, abs, rel, needle, fs).len() ==> exists|i: int|
                0 <= i < fs.len() && !is_dot_link(fs[i].name@) && has_substring(
                    lowercase_of(fs[i].name@),
                    needle,
                ) && (#[trigger] match_rows(style, abs, rel, needle, fs)[k]).key == abs_child(
                    style,
                    abs,
                    fs[i].name@,
                ),
    decreases fs.len(),
{
    if fs.len() > 0 {
        search_match_law(style, abs, rel, needle, fs.drop_last());
        let rest = match_rows(style, abs, rel, needle, fs.drop_last());
        let all = match_rows(style, abs, rel, needle, fs);
        assert forall|k: int| 0 <= k < all.len() implies exists|i: int|
            0 <= i < fs.len() && !is_dot_link(fs[i].name@) && has_substring(
                lowercase_of(fs[i].name@),
                needle,
            ) && (#[trigger] all[k]).key == abs_child(style, abs, fs[i].name@) by {
            if k < rest.len() {
                assert(all[k] == rest[k]);
                let i = choose|i: int|
                    0 <= i < fs.drop_last().len() && !is_dot_link(fs.drop_last()[i].name@)
                        && has_substring(lowercase_of(fs.drop_last()[i].name@), needle) && rest[k].key
                        == abs_child(style, abs, fs.drop_last()[i].name@);
                assert(fs[i] == fs.drop_last()[i]);
            } else {
                assert(all[k].key == abs_child(style, abs, fs[fs.len() - 1].name@));
            }
        }
    }
}

// ---------------------------------------------------------------------------
// Creating remote directories (mkdir -p)
// ---------------------------------------------------------------------------

/// The non-empty '/'-separated components of a path, in order.
pub open spec fn path_parts(s: Seq<char>) -> Seq<Seq<char>>
    decreases s.len(),
{
    match first_index(s, '/') {
        Some(i) => {
            if 0 <= i < s.len() {
                (if i == 0 {
                    Seq::empty()
                } else {
                    seq![s.take(i)]
                }) + path_parts(s.skip(i + 1))
            } else {
                Seq::empty()
            }
        },
        None => if s.len() == 0 {
            Seq::empty()
        } else {
            seq![s]
        },
    }
}

/// The directories from the top of a path down to the path itself, built from
/// its components: "/a", "/a/b", ... for an absolute path, "a", "a/b", ...
/// otherwise.
pub open spec fn ancestor_paths(parts: Seq<Seq<char>>, absolute: bool) -> Seq<Seq<char>>
    decreases parts.len(),
{
    if parts.len() == 0 {
        Seq::empty()
    } else {
        let prev = ancestor_paths(parts.drop_last(), absolute);
        let cur = if prev.len() == 0 {
            if absolute {
                "/"@ + parts.last()
            } else {
                parts.last()
            }
        } else {
            prev.last() + "/"@ + parts.last()
        };
        prev.push(cur)
    }
}

/// The directories to create for `dir` (every ancestor, top first) that are
/// not in `made` yet.
pub open spec fn dirs_to_make(made: Seq<Seq<char>>, paths: Seq<Seq<char>>) -> Seq<Seq<char>>
    decreases paths.len(),
{
    if paths.len() == 0 {
        Seq::empty()
    } else {
        let rest = dirs_to_make(made, paths.drop_last());
        if made.contains(paths.last()) || rest.contains(paths.last()) {
            rest
        } else {
            rest.push(paths.last())
        }
    }
}

/// The views of a list of strings.
pub open spec fn string_views(v: Seq<String>) -> Seq<Seq<char>> {
    v.map_values(|s: String| s@)
}

proof fn lemma_path_parts_step(s: Seq<char>)
    ensures
        first_index(s, '/') matches Some(i) ==> 0 <= i < s.len() && path_parts(s) == (if i == 0 {
            Seq::empty()
        } else {
            seq![s.take(i)]
        }) + path_parts(s.skip(i + 1)),
{
    crate::text::lemma_first_index_bound(s, '/');
}

fn contains_str(v: &Vec<String>, x: &str) -> (r: bool)
    ensures
        r == string_views(v@).contains(x@),
{
    let mut i: usize = 0;
    while i < v.len()
        invariant
            i <= v.len(),
            forall|k: int| 0 <= k < i ==> v@[k]@ != x@,
        decreases v.len() - i,
    {
        if str_eq(v[i].as_str(), x) {
            assert(string_views(v@)[i as int] == x@);
            return true;
        }
        i = i + 1;
    }
    proof {
        if string_views(v@).contains(x@) {
            let k = choose|k: int| 0 <= k < string_views(v@).len() && string_views(v@)[k] == x@;
            assert(v@[k]@ == x@);
        }
    }
    false
}

/// The directories to create (top first) so that `dir` and all its ancestors
/// exist, skipping those already in `made`; they are added to `made`.
pub fn mkdir_plan(made: &mut Vec<String>, dir: &str) -> (r: Vec<String>)
    ensures
        string_views(r@) == dirs_to_make(
            string_views(old(made)@),
            ancestor_paths(path_parts(dir@), crate::text::has_prefix(dir@, "/"@)),
        ),
        string_views(final(made)@) == string_views(old(made)@) + string_views(r@),
{
    let absolute = crate::text::str_starts_with(dir, "/");
    let ghost made0 = string_views(made@);
    let ghost all_parts = path_parts(dir@);
    let mut rest = owned(dir);
    let mut cur = String::new();
    let mut out: Vec<String> = Vec::new();
    let ghost mut parts: Seq<Seq<char>> = Seq::empty();
    let mut done = false;
    while !done
        invariant
            done ==> rest@.len() == 0,
            ancestor_paths(parts, absolute).len() > 0 ==> cur@.len() > 0,
            made0 == string_views(old(made)@),
            all_parts == path_parts(dir@),
            all_parts == parts + path_parts(rest@),
            absolute == crate::text::has_prefix(dir@, "/"@),
            ancestor_paths(parts, absolute).len() == 0 ==> cur@.len() == 0,
            ancestor_paths(parts, absolute).len() > 0 ==> cur@ == ancestor_paths(
                parts,
                absolute,
            ).last(),
            string_views(out@) == dirs_to_make(made0, ancestor_paths(parts, absolute)),
            string_views(made@) == made0 + string_views(out@),
        decreases rest@.len() + (if done {
            0int
        } else {
            1int
        }),
    {
        proof {
            lemma_path_parts_step(rest@);
        }
        let (part, next, last) = match crate::text::split_once_char(rest.as_str(), '/') {
            Some((a, b)) => (a, b, false),
            None => (rest.clone(), String::new(), true),
        };
        proof {
            crate::text::lemma_first_index_bound(rest@, '/');
        }
        if !part.as_str().is_empty() {
            let ghost prev = ancestor_paths(parts, absolute);
            let newcur = if cur.as_str().is_empty() {
                if absolute {
                    concat("/", part.as_str())
                } else {
                    part.clone()
                }
            } else {
                concat3(cur.as_str(), "/", part.as_str())
            };
            proof {
                let np = parts.push(part@);
                assert(np.drop_last() == parts);
                assert(ancestor_paths(np, absolute) == prev.push(newcur@));
                if prev.len() > 0 {
                    lemma_ancestor_nonempty(parts, absolute);
                }
            }
            let seen_before = contains_str(made, newcur.as_str());
            proof {
                let np = parts.push(part@);
                assert(string_views(made@) == made0 + string_views(out@));
                if !(made0.contains(newcur@)) && string_views(out@).contains(newcur@) {
                    assert(string_views(made@).contains(newcur@)) by {
                        let k = choose|k: int|
                            0 <= k < string_views(out@).len() && string_views(out@)[k] == newcur@;
                        assert(string_views(made@)[made0.len() + k] == newcur@);
                    }
                }
                if made0.contains(newcur@) {
                    let k = choose|k: int| 0 <= k < made0.len() && made0[k] == newcur@;
                    assert(string_views(made@)[k] == newcur@);
                }
                if string_views(made@).contains(newcur@) && !made0.contains(newcur@) {
                    let k = choose|k: int|
                        0 <= k < string_views(made@).len() && string_views(made@)[k] == newcur@;
                    if k < made0.len() {
                        assert(made0[k] == newcur@);
                    }
                    assert(k >= made0.len());
                    assert(string_views(out@)[k - made0.len()] == newcur@);
                }
                assert(seen_before == (made0.contains(newcur@) || string_views(out@).contains(
                    newcur@,
                )));
                let paths = prev.push(newcur@);
                assert(paths.drop_last() == prev);
                assert(paths.last() == newcur@);
                assert(dirs_to_make(made0, paths) == (if made0.contains(newcur@) || dirs_to_make(
                    made0,
                    prev,
                ).contains(newcur@) {
                    dirs_to_make(made0, prev)
                } else {
                    dirs_to_make(made0, prev).push(newcur@)
                }));
            }
            if !seen_before {
                let c1 = newcur.clone();
                let c2 = newcur.clone();
                proof {
                    assert(string_views(out@.push(c1)) =~= string_views(out@).push(newcur@));
                    assert(string_views(made@.push(c2)) =~= string_views(made@).push(newcur@));
                }
                out.push(c1);
                made.push(c2);
            }
            cur = newcur;
            proof {
                parts = parts.push(part@);
            }
        }
        proof {
            if !last {
                assert(rest@.len() > 0);
            }
        }
        proof {
            if last {
                if rest@.len() == 0 {
                    assert(path_parts(rest@) == Seq::<Seq<char>>::empty());
                } else {
                    assert(path_parts(rest@) == seq![rest@]);
                }
                assert(path_parts(next@) == Seq::<Seq<char>>::empty());
            } else {
                assert(path_parts(rest@) == (if part@.len() == 0 {
                    Seq::<Seq<char>>::empty()
                } else {
                    seq![part@]
                }) + path_parts(next@));
            }
        }
        rest = next;
        done = last;
    }
    proof {
        assert(path_parts(rest@) == Seq::<Seq<char>>::empty());
        assert(all_parts == parts);
    }
    out
}

proof fn lemma_ancestor_nonempty(parts: Seq<Seq<char>>, absolute: bool)
    ensures
        ancestor_paths(parts, absolute).len() == parts.len(),
    decreases parts.len(),
{
    if parts.len() > 0 {
        lemma_ancestor_nonempty(parts.drop_last(), absolute);
    }
}

/// The parent of an uploaded file's remote path: everything before its last
/// '/', when that is not empty.
pub open spec fn remote_parent(remote: Seq<char>) -> Option<Seq<char>> {
    match crate::text::last_index(remote, '/') {
        Some(i) => if i > 0 {
            Some(remote.take(i))
        } else {
            None
        },
        None => None,
    }
}

/// The remote directory a file of a folder upload goes into, if it has one
/// besides the root.
pub fn parent_dir(remote: &str) -> (r: Option<String>)
    ensures
        opt_string_view(r) == remote_parent(remote@),
{
    proof {
        crate::text::lemma_last_index_bound(remote@, '/');
    }
    match crate::text::rsplit_once_char(remote, '/') {
        Some((parent, _)) => if parent.as_str().is_empty() {
            None
        } else {
            Some(parent)
        },
        None => None,
    }
}

/// The view of an optional string.
pub open spec fn opt_string_view(o: Option<String>) -> Option<Seq<char>> {
    match o {
        Some(s) => Some(s@),
        None => None,
    }
}

} // verus!
