//! S3 / R2 / S3-compatible logic: the bucket / key path convention, listing
//! and search over result pages, the multipart upload plan, client settings
//! and the classification of SDK failures.
//!
//! Paths are "<bucket>/<key prefix...>"; the empty path is the top of the
//! connection, where buckets are shown as virtual folders.
use crate::connections::{copy_opt, Connection, ConnectionKind, ConnectionSecret};
use crate::error::{opt_view, AppError, AppErrorView, Error};
use crate::taxonomy::{
    category_for_http, category_for_s3_code, http_category, s3_code_category, ErrorCategory,
    Phase, StatusCode,
};
use crate::text::{
    chars_of, concat, concat3, decimal, decimal_string, first_index, has_substring, last_segment,
    last_segment_of, lowercase, lowercase_of, owned, split_once_char, str_contains, str_eq,
    strip_prefix_str, trim_both, trim_both_char, trim_end, trim_end_char, trim_spaces, trim_start,
    trim_start_char, trim_str, ends_with_char,
};
use vstd::prelude::*;

verus! {

// ---------------------------------------------------------------------------
// Entries
// ---------------------------------------------------------------------------

/// A bucket as listed at the top of a connection. `created_at` is in seconds
/// since the Unix epoch.
#[derive(Debug, Clone)]
pub struct BucketInfo {
    pub name: String,
    pub created_at: Option<i64>,
}

/// One row of a remote listing. `kind` is "folder" or "file"; `modified` is in
/// seconds since the Unix epoch.
#[derive(Debug, Clone)]
pub struct ObjectEntry {
    /// Full key inside the bucket (or full remote path).
    pub key: String,
    /// What is displayed: the last path segment, or the path relative to the
    /// search root for search results.
    pub name: String,
    pub kind: String,
    pub size: Option<i64>,
    pub modified: Option<i64>,
    pub etag: Option<String>,
}

/// The value of an [`ObjectEntry`], with its texts as character sequences.
pub struct EntryView {
    pub key: Seq<char>,
    pub name: Seq<char>,
    pub kind: Seq<char>,
    pub size: Option<i64>,
    pub modified: Option<i64>,
    pub etag: Option<Seq<char>>,
}

impl View for ObjectEntry {
    type V = EntryView;

    open spec fn view(&self) -> EntryView {
        EntryView {
            key: self.key@,
            name: self.name@,
            kind: self.kind@,
            size: self.size,
            modified: self.modified,
            etag: opt_view(self.etag),
        }
    }
}

/// The views of a list of entries.
pub open spec fn entry_views(v: Seq<ObjectEntry>) -> Seq<EntryView> {
    v.map_values(|e: ObjectEntry| e@)
}

/// A folder row named `name` at `key`.
pub open spec fn folder_view(key: Seq<char>, name: Seq<char>, modified: Option<i64>) -> EntryView {
    EntryView { key, name, kind: "folder"@, size: None, modified, etag: None }
}

/// A folder row at `key`, displayed as `name`.
pub fn folder_entry(key: String, name: String, modified: Option<i64>) -> (r: ObjectEntry)
    ensures
        r@ == folder_view(key@, name@, modified),
{
    ObjectEntry { key, name, kind: owned("folder"), size: None, modified, etag: None }
}

/// A transfer's progress, reported on the `transfer` channel.
#[derive(Debug, Clone)]
pub enum TransferEvent {
    Start { id: String, name: String, total: u64, direction: String },
    Progress { id: String, transferred: u64, total: u64 },
    Done { id: String },
    Error { id: String, error: AppError },
}

/// The event that resolves a failed transfer's row to "error".
pub fn transfer_error_event(id: &str, e: &Error) -> (r: TransferEvent)
    ensures
        r matches TransferEvent::Error { id: i, error } && i@ == id@ && error@
            == crate::error::with_default_hint(crate::error::classified(*e)),
{
    TransferEvent::Error { id: owned(id), error: e.to_app() }
}

/// The name a transfer shows for a remote path or key: its last segment.
pub fn transfer_name(path: &str) -> (r: String)
    ensures
        r@ == last_segment(path@, '/'),
{
    last_segment_of(path, '/')
}

/// The size announced for an object whose reported content length is `len`:
/// that length, or 0 when it is missing or negative.
pub fn announced_size(len: Option<i64>) -> (r: u64)
    ensures
        r == (match len {
            Some(n) => if n > 0 {
                n as u64
            } else {
                0u64
            },
            None => 0u64,
        }),
{
    match len {
        Some(n) => if n > 0 {
            n as u64
        } else {
            0
        },
        None => 0,
    }
}

/// Which way a transfer goes.
#[derive(Debug, Clone, Copy, PartialEq, Eq, Structural)]
pub enum Direction {
    Down,
    Up,
}

/// The wire name of a direction.
pub open spec fn direction_name(d: Direction) -> Seq<char> {
    match d {
        Direction::Down => "down"@,
        Direction::Up => "up"@,
    }
}

/// A transfer in flight: its id, the size announced when it started, the
/// bytes moved so far, and whether an unknown size (announced as 0) is
/// reported as the bytes moved so far.
pub struct TransferMeter {
    pub id: String,
    pub total: u64,
    pub transferred: u64,
    pub fill_unknown_total: bool,
}

/// The size a progress event reports.
pub open spec fn reported_total(total: u64, transferred: u64, fill_unknown_total: bool) -> u64 {
    if fill_unknown_total && total == 0 {
        transferred
    } else {
        total
    }
}

impl TransferMeter {
    /// Start transfer `id` of `name` (`total` bytes, 0 when unknown) in
    /// direction `dir`: the meter, with nothing moved yet, and the event that
    /// announces the transfer.
    pub fn start(id: String, name: String, total: u64, dir: Direction, fill_unknown_total: bool) -> (r: (
        TransferMeter,
        TransferEvent,
    ))
        ensures
            r.0.id@ == id@,
            r.0.total == total,
            r.0.transferred == 0,
            r.0.fill_unknown_total == fill_unknown_total,
            r.1 matches TransferEvent::Start { id: i, name: n, total: t, direction: d } && i@ == id@
                && n@ == name@ && t == total && d@ == direction_name(dir),
    {
        let direction = match dir {
            Direction::Down => owned("down"),
            Direction::Up => owned("up"),
        };
        let ev = TransferEvent::Start { id: id.clone(), name, total, direction };
        (TransferMeter { id, total, transferred: 0, fill_unknown_total }, ev)
    }

    /// Record `n` more bytes moved, and give the progress event to report.
    pub fn progress(&mut self, n: u64) -> (r: TransferEvent)
        requires
            old(self).transferred + n <= u64::MAX,
        ensures
            final(self).id == old(self).id,
            final(self).total == old(self).total,
            final(self).fill_unknown_total == old(self).fill_unknown_total,
            final(self).transferred == old(self).transferred + n,
            r matches TransferEvent::Progress { id: i, transferred: t, total: s } && i@ == old(
                self,
            ).id@ && t == final(self).transferred && s == reported_total(
                old(self).total,
                final(self).transferred,
                old(self).fill_unknown_total,
            ),
    {
        self.transferred = self.transferred + n;
        let shown = if self.fill_unknown_total && self.total == 0 {
            self.transferred
        } else {
            self.total
        };
        TransferEvent::Progress { id: self.id.clone(), transferred: self.transferred, total: shown }
    }

    /// The event that marks the transfer complete.
    pub fn done(&self) -> (r: TransferEvent)
        ensures
            r matches TransferEvent::Done { id: i } && i@ == self.id@,
    {
        TransferEvent::Done { id: self.id.clone() }
    }
}

// ---------------------------------------------------------------------------
// Paths
// ---------------------------------------------------------------------------

/// The bucket and key of an S3 path: leading slashes are dropped, the bucket is
/// everything before the first remaining '/', the key everything after it.
pub open spec fn s3_split(path: Seq<char>) -> (Seq<char>, Seq<char>) {
    let t = trim_start(path, '/');
    match first_index(t, '/') {
        Some(i) => (t.take(i), t.skip(i + 1)),
        None => (t, Seq::empty()),
    }
}

/// Returns (bucket, key_or_prefix). The path is "bucket/key..."; a leading slash
/// is tolerated, and the empty path or "/" has no bucket.
pub fn split_s3_path(path: &str) -> (r: (String, String))
    ensures
        r.0@ == s3_split(path@).0,
        r.1@ == s3_split(path@).1,
{
    let trimmed = trim_start_char(path, '/');
    match split_once_char(trimmed.as_str(), '/') {
        Some((b, k)) => (b, k),
        None => (trimmed, String::new()),
    }
}

/// The summary given when an operation needs a bucket and the path has none.
pub open spec fn needs_bucket_view(op: Seq<char>) -> AppErrorView {
    AppErrorView {
        phase: Some(Phase::Config),
        remediation: Some(
            "Open the bucket first, then retry \u{2014} the path must start with a bucket name."@,
        ),
        ..crate::error::fresh_error(ErrorCategory::Client, op + " requires a bucket in the path"@)
    }
}

/// Validation error for an S3 path missing its bucket segment.
pub fn needs_bucket(op: &str) -> (r: Error)
    ensures
        r matches Error::App(a) && a@ == needs_bucket_view(op@),
{
    Error::App(
        AppError::new(ErrorCategory::Client, concat(op, " requires a bucket in the path")).phase(
            Phase::Config,
        ).remediation(
            owned(
                "Open the bucket first, then retry \u{2014} the path must start with a bucket name.",
            ),
        ),
    )
}

/// The bucket and key an operation `op` works on; a path without a bucket is
/// refused with [`needs_bucket`].
pub fn bucket_and_key(path: &str, op: &str) -> (r: Result<(String, String), Error>)
    ensures
        s3_split(path@).0.len() == 0 ==> (r matches Err(Error::App(a)) && a@ == needs_bucket_view(
            op@,
        )),
        s3_split(path@).0.len() > 0 ==> (r matches Ok((b, k)) && b@ == s3_split(path@).0 && k@
            == s3_split(path@).1),
{
    let (bucket, key) = split_s3_path(path);
    if bucket.as_str().is_empty() {
        Err(needs_bucket(op))
    } else {
        Ok((bucket, key))
    }
}

/// A listing prefix as sent to S3: empty or already ending in '/' stays as is,
/// anything else gets a trailing '/'.
pub open spec fn normalized_prefix(p: Seq<char>) -> Seq<char> {
    if p.len() == 0 || p.last() == '/' {
        p
    } else {
        p.push('/')
    }
}

/// The prefix to list under, ending in '/' unless it is empty.
pub fn normalize_prefix(prefix: &str) -> (r: String)
    ensures
        r@ == normalized_prefix(prefix@),
{
    if prefix.is_empty() || ends_with_char(prefix, '/') {
        owned(prefix)
    } else {
        let r = concat(prefix, "/");
        proof {
            reveal_strlit("/");
            assert(prefix@ + "/"@ == prefix@.push('/'));
        }
        r
    }
}

/// The key a file of a folder upload lands at: the relative path under the
/// prefix (trailing slashes of the prefix dropped).
pub open spec fn upload_key_of(prefix: Seq<char>, rel: Seq<char>) -> Seq<char> {
    let base = trim_end(prefix, '/');
    if base.len() == 0 {
        rel
    } else {
        base + "/"@ + rel
    }
}

/// Where a file of a folder upload goes, given the upload prefix and its path
/// relative to the upload root.
pub fn upload_key(prefix: &str, rel: &str) -> (r: String)
    ensures
        r@ == upload_key_of(prefix@, rel@),
{
    let base = trim_end_char(prefix, '/');
    if base.as_str().is_empty() {
        owned(rel)
    } else {
        concat3(base.as_str(), "/", rel)
    }
}

// ---------------------------------------------------------------------------
// Multipart upload plan
// ---------------------------------------------------------------------------

pub const MIB: u64 = 1024 * 1024;

/// Files at or above this use multipart upload; smaller ones a single PUT.
pub const MULTIPART_THRESHOLD: u64 = 16 * 1024 * 1024;

/// S3 minimum part size (except the final part).
pub const MIN_PART_SIZE: u64 = 8 * 1024 * 1024;

/// S3 hard cap on parts per upload.
pub const MAX_PARTS: u64 = 10000;

/// `a / b` rounded up.
pub open spec fn ceil_div(a: nat, b: nat) -> nat
    recommends
        b > 0,
{
    ((a + b - 1) as nat) / b
}

/// The part size for a file of `total` bytes: enough that at most
/// `MAX_PARTS` parts are needed, at least `MIN_PART_SIZE`, rounded up to a
/// whole MiB.
pub open spec fn part_size_spec(total: nat) -> nat {
    let q = ceil_div(total, MAX_PARTS as nat);
    let needed = if q > MIN_PART_SIZE as nat {
        q
    } else {
        MIN_PART_SIZE as nat
    };
    ceil_div(needed, MIB as nat) * (MIB as nat)
}

/// Whether a file of `total` bytes goes up in parts.
pub fn uses_multipart(total: u64) -> (r: bool)
    ensures
        r == (total >= MULTIPART_THRESHOLD),
{
    total >= MULTIPART_THRESHOLD
}

/// Pick a part size that keeps the count at most `MAX_PARTS` and each part at
/// or above `MIN_PART_SIZE`, rounded up to a whole MiB.
pub fn part_size_for(total: u64) -> (r: u64)
    ensures
        r == part_size_spec(total as nat),
{
    let q = total / MAX_PARTS + if total % MAX_PARTS != 0 {
        1
    } else {
        0
    };
    proof {
        lemma_ceil_div_exec(total as nat, MAX_PARTS as nat);
    }
    let needed = if q > MIN_PART_SIZE {
        q
    } else {
        MIN_PART_SIZE
    };
    assert(needed <= 0xFFFF_FFFF_FFFF_FFFFint / 10000 + 1 + MIN_PART_SIZE) by (nonlinear_arith)
        requires
            q == total / 10000 + (if total % 10000 != 0 {
                1u64
            } else {
                0u64
            }),
            needed == q || needed == MIN_PART_SIZE,
            MIN_PART_SIZE == 8388608,
    ;
    let m = needed / MIB + if needed % MIB != 0 {
        1
    } else {
        0
    };
    proof {
        lemma_ceil_div_exec(needed as nat, MIB as nat);
        assert(m * MIB <= needed + MIB) by (nonlinear_arith)
            requires
                m == needed / 1048576 + (if needed % 1048576 != 0 {
                    1u64
                } else {
                    0u64
                }),
                MIB == 1048576,
        ;
    }
    m * MIB
}

proof fn lemma_ceil_div_exec(a: nat, b: nat)
    requires
        b > 0,
    ensures
        ceil_div(a, b) == a / b + (if a % b != 0 {
            1nat
        } else {
            0nat
        }),
{
    assert(ceil_div(a, b) == a / b + (if a % b != 0 {
        1nat
    } else {
        0nat
    })) by (nonlinear_arith)
        requires
            b > 0,
            ceil_div(a, b) == ((a + b - 1) as nat) / b,
    ;
}

/// Part sizes are whole MiB, never below the S3 minimum, and keep every file
/// (of any size a `u64` can give) within `MAX_PARTS` parts.
pub proof fn part_size_law(total: nat)
    ensures
        part_size_spec(total) % (MIB as nat) == 0,
        part_size_spec(total) >= MIN_PART_SIZE,
        ceil_div(total, part_size_spec(total)) <= MAX_PARTS,
{
    let q = ceil_div(total, 10000);
    let needed = if q > 8388608 {
        q
    } else {
        8388608nat
    };
    let ps = ceil_div(needed, 1048576) * 1048576;
    assert(ps % 1048576 == 0 && ps >= needed) by (nonlinear_arith)
        requires
            ps == ceil_div(needed, 1048576) * 1048576,
            ceil_div(needed, 1048576) == ((needed + 1048576 - 1) as nat) / 1048576,
    ;
    assert(q * 10000 >= total) by (nonlinear_arith)
        requires
            q == ((total + 10000 - 1) as nat) / 10000,
    ;
    assert(ceil_div(total, ps) <= 10000) by (nonlinear_arith)
        requires
            ps >= q,
            q * 10000 >= total,
            ps > 0,
            ceil_div(total, ps) == ((total + ps - 1) as nat) / ps,
    ;
}

/// Files up to `MIN_PART_SIZE * MAX_PARTS` bytes use the minimum part size.
pub proof fn part_size_minimum_law(total: nat)
    requires
        total <= MIN_PART_SIZE * MAX_PARTS,
    ensures
        part_size_spec(total) == MIN_PART_SIZE,
{
    let q = ceil_div(total, 10000);
    assert(q <= 8388608) by (nonlinear_arith)
        requires
            q == ((total + 10000 - 1) as nat) / 10000,
            total <= 8388608 * 10000,
    ;
    assert(((8388608nat + 1048576 - 1) as nat) / 1048576 == 8) by (nonlinear_arith);
}

/// The lengths of the parts a file of `total` bytes is read into with parts
/// of `ps` bytes: full parts, then a short one when `total` is not a multiple.
pub open spec fn part_lengths(total: nat, ps: nat) -> Seq<nat>
    decreases total,
{
    if ps == 0 || total == 0 {
        Seq::empty()
    } else if total < ps {
        seq![total]
    } else {
        seq![ps] + part_lengths((total - ps) as nat, ps)
    }
}

/// The sum of a sequence of lengths.
pub open spec fn total_of(s: Seq<nat>) -> nat
    decreases s.len(),
{
    if s.len() == 0 {
        0
    } else {
        s[0] + total_of(s.drop_first())
    }
}

/// Reading a file of `total` bytes part by part gives `ceil(total / ps)` parts,
/// each non-empty and at most `ps` bytes, all full but the last, adding up to
/// `total`. So the progress reported after each part rises strictly and ends
/// at `total`, one report per part.
pub proof fn multipart_parts_law(total: nat, ps: nat)
    requires
        ps > 0,
    ensures
        part_lengths(total, ps).len() == ceil_div(total, ps),
        total_of(part_lengths(total, ps)) == total,
        forall|i: int|
            0 <= i < part_lengths(total, ps).len() ==> 0 < #[trigger] part_lengths(total, ps)[i]
                <= ps,
        forall|i: int|
            0 <= i < part_lengths(total, ps).len() - 1 ==> #[trigger] part_lengths(total, ps)[i]
                == ps,
    decreases total,
{
    if total == 0 {
        assert(ceil_div(0, ps) == 0) by (nonlinear_arith)
            requires
                ps > 0,
                ceil_div(0, ps) == ((0 + ps - 1) as nat) / ps,
        ;
    } else if total < ps {
        assert(ceil_div(total, ps) == 1) by (nonlinear_arith)
            requires
                0 < total < ps,
                ceil_div(total, ps) == ((total + ps - 1) as nat) / ps,
        ;
        assert(total_of(seq![total]) == total + total_of(seq![total].drop_first()));
        assert(seq![total].drop_first() == Seq::<nat>::empty());
    } else {
        let rest = part_lengths((total - ps) as nat, ps);
        multipart_parts_law((total - ps) as nat, ps);
        assert(ceil_div(total, ps) == ceil_div((total - ps) as nat, ps) + 1) by (nonlinear_arith)
            requires
                total >= ps > 0,
                ceil_div(total, ps) == ((total + ps - 1) as nat) / ps,
                ceil_div((total - ps) as nat, ps) == ((((total - ps) as nat) + ps - 1) as nat)
                    / ps,
        ;
        let s = seq![ps] + rest;
        assert(s.drop_first() == rest);
        assert forall|i: int| 0 <= i < s.len() implies 0 < #[trigger] s[i] <= ps by {
            if i > 0 {
                assert(s[i] == rest[i - 1]);
            }
        }
        assert forall|i: int| 0 <= i < s.len() - 1 implies #[trigger] s[i] == ps by {
            if i > 0 {
                assert(s[i] == rest[i - 1]);
            }
        }
    }
}

/// Where a multipart upload stands: the size of its parts, the number of the
/// next part and the bytes S3 has accepted so far.
pub struct PartCursor {
    pub part_size: u64,
    pub next_part: i32,
    pub transferred: u64,
}

impl PartCursor {
    /// The cursor before the first part.
    pub fn new(part_size: u64) -> (r: PartCursor)
        ensures
            r.part_size == part_size,
            r.next_part == 1,
            r.transferred == 0,
    {
        PartCursor { part_size, next_part: 1, transferred: 0 }
    }

    /// The part number to upload `filled` freshly read bytes as, or `None` on a
    /// clean end of file (nothing read).
    pub fn part_for(&self, filled: u64) -> (r: Option<i32>)
        ensures
            filled == 0 ==> r is None,
            filled > 0 ==> r == Some(self.next_part),
    {
        if filled == 0 {
            None
        } else {
            Some(self.next_part)
        }
    }

    /// Record that S3 accepted a part of `filled` bytes. Returns the progress
    /// to report and whether more parts may follow: a short part is the last.
    pub fn accepted(&mut self, filled: u64) -> (r: (u64, bool))
        requires
            old(self).transferred + filled <= u64::MAX,
            old(self).next_part < i32::MAX,
        ensures
            final(self).part_size == old(self).part_size,
            final(self).transferred == old(self).transferred + filled,
            final(self).next_part == old(self).next_part + 1,
            r.0 == final(self).transferred,
            r.1 == (filled >= old(self).part_size),
    {
        self.transferred = self.transferred + filled;
        self.next_part = self.next_part + 1;
        (self.transferred, filled >= self.part_size)
    }
}

// ---------------------------------------------------------------------------
// Client settings
// ---------------------------------------------------------------------------

/// What the S3 client is built from.
pub struct ClientSettings {
    pub region: String,
    pub endpoint: Option<String>,
    pub force_path_style: bool,
    pub access_key_id: String,
    pub secret_access_key: String,
    pub session_token: Option<String>,
}

/// An optional string that is present and not empty.
pub open spec fn filled(o: Option<String>) -> Option<Seq<char>> {
    match o {
        Some(s) => if s@.len() > 0 {
            Some(s@)
        } else {
            None
        },
        None => None,
    }
}

/// The signing region: the configured one, else "auto"; plain AWS S3 without
/// an endpoint override bootstraps through "us-east-1" instead of "auto".
pub open spec fn region_for(c: Connection) -> Seq<char> {
    let region = match filled(c.region) {
        Some(r) => r,
        None => "auto"@,
    };
    if region == "auto"@ && c.kind is S3 && filled(c.endpoint) is None {
        "us-east-1"@
    } else {
        region
    }
}

/// The error for an R2 connection without an endpoint.
pub open spec fn r2_endpoint_view(kind: ConnectionKind) -> AppErrorView {
    AppErrorView {
        connector: Some(kind),
        phase: Some(Phase::Config),
        ..crate::error::fresh_error(
            ErrorCategory::Config,
            "R2 connections require an endpoint URL (https://<account>.r2.cloudflarestorage.com)"@,
        )
    }
}

fn filled_copy(o: &Option<String>) -> (r: Option<String>)
    ensures
        opt_view(r) == filled(*o),
{
    match o {
        Some(s) => if s.as_str().is_empty() {
            None
        } else {
            Some(s.clone())
        },
        None => None,
    }
}

fn or_empty(o: &Option<String>) -> (r: String)
    ensures
        o matches Some(s) ==> r@ == s@,
        o is None ==> r@ == Seq::<char>::empty(),
{
    match o {
        Some(s) => s.clone(),
        None => String::new(),
    }
}

/// The connection log line announcing the S3 client's endpoint (or "aws
/// default"), signing region and addressing style.
pub open spec fn endpoint_line(c: Connection) -> Seq<char> {
    "Endpoint "@ + (match filled(c.endpoint) {
        Some(e) => e,
        None => "aws default"@,
    }) + ", region "@ + region_for(c) + ", path-style="@ + (if c.use_path_style {
        "true"@
    } else {
        "false"@
    })
}

/// The log line announcing the S3 client for `c`; it is logged before the
/// settings are checked, so an R2 connection without an endpoint gets it too.
pub fn endpoint_message(c: &Connection) -> (r: String)
    ensures
        r@ == endpoint_line(*c),
{
    let region = match filled_copy(&c.region) {
        Some(r) => r,
        None => owned("auto"),
    };
    let endpoint = filled_copy(&c.endpoint);
    let is_s3 = match c.kind {
        ConnectionKind::S3 => true,
        _ => false,
    };
    let region = if str_eq(region.as_str(), "auto") && is_s3 && endpoint.is_none() {
        owned("us-east-1")
    } else {
        region
    };
    let ep = match endpoint {
        Some(e) => e,
        None => owned("aws default"),
    };
    let style = if c.use_path_style {
        "true"
    } else {
        "false"
    };
    let head = concat3("Endpoint ", ep.as_str(), ", region ");
    let mid = concat3(head.as_str(), region.as_str(), ", path-style=");
    concat(mid.as_str(), style)
}

/// The settings the S3 client for `c` is built from: region, endpoint override,
/// addressing style and credentials (missing keys become empty strings). An R2
/// connection without an endpoint is refused.
pub fn client_settings(c: &Connection, s: &ConnectionSecret) -> (r: Result<ClientSettings, Error>)
    ensures
        (c.kind is R2 && filled(c.endpoint) is None) ==> (r matches Err(Error::App(a)) && a@
            == r2_endpoint_view(c.kind)),
        !(c.kind is R2 && filled(c.endpoint) is None) ==> (r matches Ok(cs) && cs.region@
            == region_for(*c) && opt_view(cs.endpoint) == filled(c.endpoint)
            && cs.force_path_style == c.use_path_style && (s.access_key_id matches Some(k)
            ==> cs.access_key_id == k) && (s.access_key_id is None ==> cs.access_key_id@
            == Seq::<char>::empty()) && (s.secret_access_key matches Some(k)
            ==> cs.secret_access_key == k) && (s.secret_access_key is None
            ==> cs.secret_access_key@ == Seq::<char>::empty()) && cs.session_token
            == s.session_token),
{
    let region = match filled_copy(&c.region) {
        Some(r) => r,
        None => owned("auto"),
    };
    let endpoint = filled_copy(&c.endpoint);
    let is_s3 = match c.kind {
        ConnectionKind::S3 => true,
        _ => false,
    };
    let region = if str_eq(region.as_str(), "auto") && is_s3 && endpoint.is_none() {
        owned("us-east-1")
    } else {
        region
    };
    if endpoint.is_none() {
        if let ConnectionKind::R2 = c.kind {
            return Err(
                Error::App(
                    AppError::new(
                        ErrorCategory::Config,
                        owned(
                            "R2 connections require an endpoint URL (https://<account>.r2.cloudflarestorage.com)",
                        ),
                    ).connector(c.kind).phase(Phase::Config),
                ),
            );
        }
    }
    let key = match &s.access_key_id {
        Some(k) => k.clone(),
        None => String::new(),
    };
    let secret = match &s.secret_access_key {
        Some(k) => k.clone(),
        None => String::new(),
    };
    Ok(
        ClientSettings {
            region,
            endpoint,
            force_path_style: c.use_path_style,
            access_key_id: key,
            secret_access_key: secret,
            session_token: copy_opt(&s.session_token),
        },
    )
}

// ---------------------------------------------------------------------------
// SDK failures
// ---------------------------------------------------------------------------

/// How an SDK call failed, as far as classification cares.
#[derive(Debug, Clone, Copy, PartialEq, Eq, Structural)]
pub enum SdkFailureKind {
    Timeout,
    Dispatch,
    Construction,
    Response,
    Other,
}

/// What the classifier reads off an SDK error: its kind, the HTTP status of
/// the raw response, the S3 error code and message, and its debug text.
#[derive(Debug, Clone)]
pub struct S3Failure {
    pub kind: SdkFailureKind,
    pub http: Option<u16>,
    pub code: Option<String>,
    pub message: Option<String>,
    pub debug: String,
}

/// The category of an SDK failure: transport failures are network, a request
/// that could not be built is configuration, otherwise the S3 code decides,
/// then the HTTP status.
pub open spec fn s3_failure_category(f: S3Failure) -> ErrorCategory {
    match f.kind {
        SdkFailureKind::Timeout | SdkFailureKind::Dispatch => ErrorCategory::Network,
        SdkFailureKind::Construction => ErrorCategory::Config,
        _ => {
            let by_code = match f.code {
                Some(c) => s3_code_category(c@),
                None => None,
            };
            match by_code {
                Some(cat) => cat,
                None => match f.http {
                    Some(h) => http_category(h),
                    None => ErrorCategory::Unknown,
                },
            }
        },
    }
}

/// The one-line summary of an SDK failure.
pub open spec fn s3_failure_summary(f: S3Failure) -> Seq<char> {
    match (f.code, f.message) {
        (Some(c), Some(m)) => c@ + ": "@ + m@,
        (Some(c), None) => c@,
        (None, _) => match f.http {
            Some(h) => "S3 request failed (HTTP "@ + decimal(h as nat) + ")"@,
            None => "S3 request failed"@,
        },
    }
}

/// The classified error for an SDK failure.
pub open spec fn s3_failure_view(connector: ConnectionKind, phase: Phase, f: S3Failure) -> AppErrorView {
    AppErrorView {
        connector: Some(connector),
        phase: Some(phase),
        detail: Some(f.debug@),
        code: match f.http {
            Some(h) => Some(StatusCode::Http(h)),
            None => None,
        },
        ..crate::error::fresh_error(s3_failure_category(f), s3_failure_summary(f))
    }
}

/// Project an SDK failure onto the error IR: classify from the S3 code and the
/// HTTP status, and keep the raw debug text as detail.
pub fn classify_s3(connector: ConnectionKind, phase: Phase, f: &S3Failure) -> (r: Error)
    ensures
        r matches Error::App(a) && a@ == s3_failure_view(connector, phase, *f),
{
    let category = match f.kind {
        SdkFailureKind::Timeout | SdkFailureKind::Dispatch => ErrorCategory::Network,
        SdkFailureKind::Construction => ErrorCategory::Config,
        _ => {
            let by_code = match &f.code {
                Some(c) => category_for_s3_code(c.as_str()),
                None => None,
            };
            match by_code {
                Some(cat) => cat,
                None => match f.http {
                    Some(h) => category_for_http(h),
                    None => ErrorCategory::Unknown,
                },
            }
        },
    };
    let summary = match (&f.code, &f.message) {
        (Some(c), Some(m)) => concat3(c.as_str(), ": ", m.as_str()),
        (Some(c), None) => c.clone(),
        (None, _) => match f.http {
            Some(h) => {
                let n = decimal_string(h as u64);
                concat3("S3 request failed (HTTP ", n.as_str(), ")")
            },
            None => owned("S3 request failed"),
        },
    };
    let mut err = AppError::new(category, summary).connector(connector).phase(phase).detail(
        f.debug.clone(),
    );
    if let Some(h) = f.http {
        err = err.code(StatusCode::Http(h));
    }
    Error::App(err)
}

/// The error for a body stream that failed mid-download.
pub fn read_failure(connector: ConnectionKind, text: &str, debug: String) -> (r: Error)
    ensures
        r matches Error::App(a) && a@ == (AppErrorView {
            connector: Some(connector),
            phase: Some(Phase::Transfer),
            detail: Some(debug@),
            ..crate::error::fresh_error(ErrorCategory::Network, "S3 read failed: "@ + text@)
        }),
{
    Error::App(
        AppError::new(ErrorCategory::Network, concat("S3 read failed: ", text)).connector(
            connector,
        ).phase(Phase::Transfer).detail(debug),
    )
}

/// The error for a local file that could not be opened for upload.
pub fn file_read_failure(connector: ConnectionKind, text: &str, debug: String) -> (r: Error)
    ensures
        r matches Error::App(a) && a@ == (AppErrorView {
            connector: Some(connector),
            phase: Some(Phase::Transfer),
            detail: Some(debug@),
            ..crate::error::fresh_error(ErrorCategory::Io, "Could not read file: "@ + text@)
        }),
{
    Error::App(
        AppError::new(ErrorCategory::Io, concat("Could not read file: ", text)).connector(
            connector,
        ).phase(Phase::Transfer).detail(debug),
    )
}

/// The error for a multipart upload that S3 created without an upload id.
pub fn missing_upload_id(connector: ConnectionKind) -> (r: Error)
    ensures
        r matches Error::App(a) && a@ == (AppErrorView {
            connector: Some(connector),
            phase: Some(Phase::Multipart),
            ..crate::error::fresh_error(ErrorCategory::Protocol, "S3 did not return an upload id"@)
        }),
{
    Error::App(
        AppError::new(ErrorCategory::Protocol, owned("S3 did not return an upload id")).connector(
            connector,
        ).phase(Phase::Multipart),
    )
}

// ---------------------------------------------------------------------------
// Listing and search over result pages
// ---------------------------------------------------------------------------

/// One object of a `ListObjectsV2` page. `modified` is in seconds since the
/// Unix epoch.
#[derive(Debug, Clone)]
pub struct ListedObject {
    pub key: Option<String>,
    pub size: Option<i64>,
    pub modified: Option<i64>,
    pub etag: Option<String>,
}

/// One `ListObjectsV2` response page: the common prefixes (virtual folders),
/// the objects, and the continuation.
#[derive(Debug, Clone)]
pub struct ListPage {
    pub prefixes: Vec<Option<String>>,
    pub objects: Vec<ListedObject>,
    pub next_token: Option<String>,
    pub truncated: Option<bool>,
}

/// An entity tag without its surrounding quotes.
pub open spec fn etag_view(e: Option<String>) -> Option<Seq<char>> {
    match e {
        Some(t) => Some(trim_both(t@, '"')),
        None => None,
    }
}

/// The folder row for a common prefix: keyed by the prefix, named by its last
/// segment (trailing slashes ignored).
pub open spec fn prefix_row(p: Seq<char>) -> EntryView {
    folder_view(p, last_segment(trim_end(p, '/'), '/'), None)
}

/// The folder rows of a page's common prefixes, in order.
pub open spec fn prefix_rows(ps: Seq<Option<String>>) -> Seq<EntryView>
    decreases ps.len(),
{
    if ps.len() == 0 {
        Seq::empty()
    } else {
        let rest = prefix_rows(ps.drop_last());
        match ps.last() {
            Some(p) => rest.push(prefix_row(p@)),
            None => rest,
        }
    }
}

/// The file row of a listed object: none for an object without key or for the
/// prefix marker itself.
pub open spec fn object_row(o: ListedObject, norm: Seq<char>) -> Option<EntryView> {
    match o.key {
        Some(k) => if k@ == norm {
            None
        } else {
            Some(
                EntryView {
                    key: k@,
                    name: last_segment(k@, '/'),
                    kind: "file"@,
                    size: o.size,
                    modified: o.modified,
                    etag: etag_view(o.etag),
                },
            )
        },
        None => None,
    }
}

/// The file rows of a page's objects, in order.
pub open spec fn object_rows(os: Seq<ListedObject>, norm: Seq<char>) -> Seq<EntryView>
    decreases os.len(),
{
    if os.len() == 0 {
        Seq::empty()
    } else {
        let rest = object_rows(os.drop_last(), norm);
        match object_row(os.last(), norm) {
            Some(e) => rest.push(e),
            None => rest,
        }
    }
}

/// The continuation token to follow after a page, if the page was truncated.
pub open spec fn continuation_of(page: ListPage) -> Option<Seq<char>> {
    match (page.next_token, page.truncated) {
        (Some(t), Some(true)) => Some(t@),
        _ => None,
    }
}

proof fn lemma_views_push(s: Seq<ObjectEntry>, e: ObjectEntry)
    ensures
        entry_views(s.push(e)) == entry_views(s).push(e@),
{
    assert(entry_views(s.push(e)) =~= entry_views(s).push(e@));
}

fn etag_copy(e: &Option<String>) -> (r: Option<String>)
    ensures
        opt_view(r) == etag_view(*e),
{
    match e {
        Some(t) => Some(trim_both_char(t.as_str(), '"')),
        None => None,
    }
}

fn continuation(page: &ListPage) -> (r: Option<String>)
    ensures
        opt_view(r) == continuation_of(*page),
{
    match (&page.next_token, page.truncated) {
        (Some(t), Some(true)) => Some(t.clone()),
        _ => None,
    }
}

/// Append the rows of one delimited listing page (folders first, then files)
/// to `out`, and return the continuation token to follow, if any.
pub fn absorb_listing(out: &mut Vec<ObjectEntry>, norm_prefix: &str, page: &ListPage) -> (r:
    Option<String>)
    ensures
        entry_views(final(out)@) == entry_views(old(out)@) + prefix_rows(page.prefixes@)
            + object_rows(page.objects@, norm_prefix@),
        opt_view(r) == continuation_of(*page),
{
    let ghost start = entry_views(out@);
    let mut i: usize = 0;
    while i < page.prefixes.len()
        invariant
            i <= page.prefixes.len(),
            entry_views(out@) == start + prefix_rows(page.prefixes@.take(i as int)),
        decreases page.prefixes.len() - i,
    {
        proof {
            assert(page.prefixes@.take(i + 1).drop_last() == page.prefixes@.take(i as int));
        }
        if let Some(p) = &page.prefixes[i] {
            let trimmed = trim_end_char(p.as_str(), '/');
            let name = last_segment_of(trimmed.as_str(), '/');
            let e = folder_entry(p.clone(), name, None);
            proof {
                lemma_views_push(out@, e);
            }
            out.push(e);
        }
        i = i + 1;
    }
    assert(page.prefixes@.take(page.prefixes@.len() as int) == page.prefixes@);
    let ghost mid = entry_views(out@);
    let mut j: usize = 0;
    while j < page.objects.len()
        invariant
            j <= page.objects.len(),
            entry_views(out@) == mid + object_rows(page.objects@.take(j as int), norm_prefix@),
        decreases page.objects.len() - j,
    {
        proof {
            assert(page.objects@.take(j + 1).drop_last() == page.objects@.take(j as int));
        }
        let o = &page.objects[j];
        if let Some(k) = &o.key {
            if !str_eq(k.as_str(), norm_prefix) {
                let e = ObjectEntry {
                    key: k.clone(),
                    name: last_segment_of(k.as_str(), '/'),
                    kind: owned("file"),
                    size: o.size,
                    modified: o.modified,
                    etag: etag_copy(&o.etag),
                };
                proof {
                    lemma_views_push(out@, e);
                }
                out.push(e);
            }
        }
        j = j + 1;
    }
    assert(page.objects@.take(page.objects@.len() as int) == page.objects@);
    continuation(page)
}

/// The row a search takes from a listed object, if the object matches: objects
/// without key, the prefix marker and folder placeholders are skipped; the
/// row is named by its key relative to the search prefix, and matches when the
/// lowercased last segment contains `needle`.
pub open spec fn search_row(o: ListedObject, norm: Seq<char>, needle: Seq<char>) -> Option<
    EntryView,
> {
    match o.key {
        Some(k) => if k@ == norm || (k@.len() > 0 && k@.last() == '/') {
            None
        } else {
            let rel = if crate::text::has_prefix(k@, norm) {
                k@.skip(norm.len() as int)
            } else {
                k@
            };
            if has_substring(lowercase_of(last_segment(rel, '/')), needle) {
                Some(
                    EntryView {
                        key: k@,
                        name: rel,
                        kind: "file"@,
                        size: o.size,
                        modified: o.modified,
                        etag: etag_view(o.etag),
                    },
                )
            } else {
                None
            }
        },
        None => None,
    }
}

/// The matching rows of a page's objects, in order.
pub open spec fn search_rows(os: Seq<ListedObject>, norm: Seq<char>, needle: Seq<char>) -> Seq<
    EntryView,
>
    decreases os.len(),
{
    if os.len() == 0 {
        Seq::empty()
    } else {
        let rest = search_rows(os.drop_last(), norm, needle);
        match search_row(os.last(), norm, needle) {
            Some(e) => rest.push(e),
            None => rest,
        }
    }
}

/// What a search matches on: an object is found exactly when it has a key
/// that is neither the prefix marker nor a folder placeholder and the
/// lowercased last '/'-segment of its name (the key relative to the prefix)
/// holds the needle. Folder components of the path never make a match. A found
/// row is the file itself, keyed by the full key and named by the relative key,
/// with the object's size, time and unquoted entity tag.
pub proof fn search_row_law(o: ListedObject, norm: Seq<char>, needle: Seq<char>)
    ensures
        search_row(o, norm, needle) matches Some(e) ==> (o.key matches Some(k) && e.key == k@
            && e.kind == "file"@ && k@ != norm && !(k@.len() > 0 && k@.last() == '/') && e.name
            == (if crate::text::has_prefix(k@, norm) {
            k@.skip(norm.len() as int)
        } else {
            k@
        }) && has_substring(lowercase_of(last_segment(e.name, '/')), needle)),
        (o.key matches Some(k) && k@ != norm && !(k@.len() > 0 && k@.last() == '/')
            && has_substring(
            lowercase_of(
                last_segment(
                    if crate::text::has_prefix(k@, norm) {
                        k@.skip(norm.len() as int)
                    } else {
                        k@
                    },
                    '/',
                ),
            ),
            needle,
        )) ==> search_row(o, norm, needle) is Some,
        o.key is None ==> search_row(o, norm, needle) is None,
        search_row(o, norm, needle) matches Some(e) ==> (e.size == o.size && e.modified
            == o.modified && e.etag == etag_view(o.etag)),
{
}

/// Every row a search page yields is a match: its name's last segment,
/// lowercased, holds the needle.
pub proof fn search_rows_match_law(os: Seq<ListedObject>, norm: Seq<char>, needle: Seq<char>)
    ensures
        forall|j: int|
            0 <= j < search_rows(os, norm, needle).len() ==> has_substring(
                lowercase_of(last_segment(#[trigger] search_rows(os, norm, needle)[j].name, '/')),
                needle,
            ),
    decreases os.len(),
{
    if os.len() > 0 {
        search_rows_match_law(os.drop_last(), norm, needle);
        search_row_law(os.last(), norm, needle);
        let rest = search_rows(os.drop_last(), norm, needle);
        let all = search_rows(os, norm, needle);
        assert forall|j: int| 0 <= j < all.len() implies has_substring(
            lowercase_of(last_segment(#[trigger] all[j].name, '/')),
            needle,
        ) by {
            if j < rest.len() {
                assert(all[j] == rest[j]);
            }
        }
    }
}

/// What a search does after a page.
#[derive(Debug, Clone)]
pub enum SearchStep {
    /// The result limit was reached; stop.
    Full,
    /// Follow the continuation token.
    More(String),
    /// The prefix is exhausted.
    Done,
}

/// How many of a page's `m` matches a search keeps when it already holds `n`
/// results and holds at most `limit`: all of them while they fit, else as many
/// as fill the limit, and none once it is reached.
pub open spec fn kept_matches(n: nat, m: nat, limit: nat) -> nat {
    if n >= limit {
        0
    } else if n + m <= limit {
        m
    } else {
        (limit - n) as nat
    }
}

proof fn lemma_search_rows_prefix(os: Seq<ListedObject>, norm: Seq<char>, needle: Seq<char>, j: int)
    requires
        0 <= j <= os.len(),
    ensures
        search_rows(os.take(j), norm, needle).len() <= search_rows(os, norm, needle).len(),
        search_rows(os.take(j), norm, needle) == search_rows(os, norm, needle).take(
            search_rows(os.take(j), norm, needle).len() as int,
        ),
    decreases os.len() - j,
{
    if j < os.len() {
        lemma_search_rows_prefix(os, norm, needle, j + 1);
        assert(os.take(j + 1).drop_last() == os.take(j));
        let a = search_rows(os.take(j), norm, needle);
        let b = search_rows(os.take(j + 1), norm, needle);
        let all = search_rows(os, norm, needle);
        assert(a == b.take(a.len() as int)) by {
            if search_row(os.take(j + 1).last(), norm, needle) is Some {
                assert(b == a.push(b.last()));
                assert(b.take(a.len() as int) =~= a);
            }
        }
        assert(b.take(a.len() as int) == all.take(b.len() as int).take(a.len() as int));
        assert(all.take(b.len() as int).take(a.len() as int) =~= all.take(a.len() as int));
    } else {
        assert(os.take(j) == os);
        assert(search_rows(os, norm, needle).take(search_rows(os, norm, needle).len() as int)
            =~= search_rows(os, norm, needle));
    }
}

/// Append the matches of one search page to `out`, stopping once `out` holds
/// `limit` results, and say what to do next.
pub fn absorb_search(
    out: &mut Vec<ObjectEntry>,
    norm_prefix: &str,
    needle: &str,
    limit: usize,
    page: &ListPage,
) -> (r: SearchStep)
    ensures
        ({
            let m = search_rows(page.objects@, norm_prefix@, needle@);
            let k = kept_matches(old(out)@.len(), m.len(), limit as nat);
            &&& entry_views(final(out)@) == entry_views(old(out)@) + m.take(k as int)
            &&& old(out)@.len() + m.len() >= limit ==> r is Full
            &&& old(out)@.len() + m.len() < limit ==> match continuation_of(
                *page,
            ) {
                Some(t) => r matches SearchStep::More(x) && x@ == t,
                None => r is Done,
            }
        }),
{
    let ghost start = entry_views(out@);
    let ghost n0 = out@.len();
    let ghost all = search_rows(page.objects@, norm_prefix@, needle@);
    if out.len() >= limit {
        return SearchStep::Full;
    }
    let mut j: usize = 0;
    while j < page.objects.len()
        invariant
            j <= page.objects.len(),
            all == search_rows(page.objects@, norm_prefix@, needle@),
            n0 == old(out)@.len(),
            start == entry_views(old(out)@),
            entry_views(out@) == start + search_rows(page.objects@.take(j as int), norm_prefix@, needle@),
            n0 + search_rows(page.objects@.take(j as int), norm_prefix@, needle@).len() < limit,
        decreases page.objects.len() - j,
    {
        proof {
            assert(page.objects@.take(j + 1).drop_last() == page.objects@.take(j as int));
            lemma_search_rows_prefix(page.objects@, norm_prefix@, needle@, j + 1);
            lemma_search_rows_prefix(page.objects@, norm_prefix@, needle@, j as int);
        }
        let o = &page.objects[j];
        if let Some(k) = &o.key {
            if !(str_eq(k.as_str(), norm_prefix) || ends_with_char(k.as_str(), '/')) {
                let rel = match strip_prefix_str(k.as_str(), norm_prefix) {
                    Some(t) => t,
                    None => k.clone(),
                };
                let leaf = last_segment_of(rel.as_str(), '/');
                let low = lowercase(leaf.as_str());
                if str_contains(low.as_str(), needle) {
                    let e = ObjectEntry {
                        key: k.clone(),
                        name: rel,
                        kind: owned("file"),
                        size: o.size,
                        modified: o.modified,
                        etag: etag_copy(&o.etag),
                    };
                    proof {
                        lemma_views_push(out@, e);
                        assert(page.objects@.take(j + 1).last() == page.objects@[j as int]);
                        assert(search_row(page.objects@[j as int], norm_prefix@, needle@) == Some(
                            e@,
                        ));
                        assert(search_rows(page.objects@.take(j + 1), norm_prefix@, needle@)
                            == search_rows(page.objects@.take(j as int), norm_prefix@, needle@).push(
                            e@,
                        ));
                    }
                    out.push(e);
                    proof {
                        assert(entry_views(out@).len() == out@.len());
                    }
                    if out.len() >= limit {
                        proof {
                            let taken = search_rows(page.objects@.take(j + 1), norm_prefix@, needle@);
                            assert(taken == all.take(taken.len() as int));
                            assert(entry_views(out@).len() == out@.len());
                            assert(start.len() == n0);
                            assert(out@.len() == n0 + taken.len());
                            assert(taken.len() <= all.len());
                            assert(kept_matches(n0, all.len(), limit as nat) == taken.len());
                        }
                        return SearchStep::Full;
                    }
                }
            }
        }
        j = j + 1;
    }
    proof {
        assert(page.objects@.take(page.objects@.len() as int) == page.objects@);
        assert(all.take(all.len() as int) == all);
    }
    match continuation(page) {
        Some(t) => SearchStep::More(t),
        None => SearchStep::Done,
    }
}

/// How the last step of a multipart upload went.
pub enum MultipartOutcome {
    /// Every part was uploaded.
    PartsUploaded,
    /// Uploading a part failed.
    PartFailed(Error),
    /// Completing the upload failed.
    CompleteFailed(Error),
    /// The upload was completed.
    Completed,
}

/// What a multipart upload does next.
pub enum MultipartAction {
    /// Ask S3 to assemble the uploaded parts.
    Complete,
    /// Abort the upload (so that no orphaned parts are left behind, which would
    /// accrue storage cost), then fail with this error.
    AbortThenFail(Error),
    /// The upload is finished.
    Done,
}

/// The next step of a multipart upload: complete it once every part is
/// uploaded; on any failure abort it and report that failure; stop once it is
/// completed.
pub fn multipart_next(outcome: MultipartOutcome) -> (r: MultipartAction)
    ensures
        match outcome {
            MultipartOutcome::PartsUploaded => r is Complete,
            MultipartOutcome::PartFailed(e) => r == MultipartAction::AbortThenFail(e),
            MultipartOutcome::CompleteFailed(e) => r == MultipartAction::AbortThenFail(e),
            MultipartOutcome::Completed => r is Done,
        },
{
    match outcome {
        MultipartOutcome::PartsUploaded => MultipartAction::Complete,
        MultipartOutcome::PartFailed(e) => MultipartAction::AbortThenFail(e),
        MultipartOutcome::CompleteFailed(e) => MultipartAction::AbortThenFail(e),
        MultipartOutcome::Completed => MultipartAction::Done,
    }
}

// ---------------------------------------------------------------------------
// The S3 backend
// ---------------------------------------------------------------------------

/// An S3 / R2 / S3-compatible connection with its credentials. Owns the
/// bucket-vs-key path handling so the dispatcher stays protocol-agnostic.
pub struct S3Backend {
    pub c: Connection,
    pub s: ConnectionSecret,
}

impl S3Backend {
    /// A backend for `c`; S3 is stateless, so this only keeps the settings.
    pub fn new(c: Connection, s: ConnectionSecret) -> (r: S3Backend)
        ensures
            r.c == c,
            r.s == s,
    {
        S3Backend { c, s }
    }

    /// The connection's default bucket, if set to a value that is not blank.
    pub fn configured_bucket(&self) -> (r: Option<String>)
        ensures
            match self.c.bucket {
                Some(b) => if trim_spaces(b@).len() > 0 {
                    r matches Some(x) && x@ == trim_spaces(b@)
                } else {
                    r is None
                },
                None => r is None,
            },
    {
        match &self.c.bucket {
            Some(b) => {
                let t = trim_str(b.as_str());
                if t.as_str().is_empty() {
                    None
                } else {
                    Some(t)
                }
            },
            None => None,
        }
    }

    /// The top of the connection when a default bucket is configured: that
    /// bucket as the sole virtual folder. `None` means the buckets are listed.
    pub fn root_listing(&self) -> (r: Option<Vec<ObjectEntry>>)
        ensures
            match self.c.bucket {
                Some(b) => if trim_spaces(b@).len() > 0 {
                    r matches Some(v) && entry_views(v@) == seq![
                        folder_view(trim_spaces(b@), trim_spaces(b@), None),
                    ]
                } else {
                    r is None
                },
                None => r is None,
            },
    {
        match self.configured_bucket() {
            Some(b) => {
                let mut v: Vec<ObjectEntry> = Vec::new();
                let e = folder_entry(b.clone(), b, None);
                v.push(e);
                assert(entry_views(v@) =~= seq![e@]);
                Some(v)
            },
            None => None,
        }
    }

    /// The status line of a successful connection test against the default
    /// bucket.
    pub fn bucket_reachable_message(bucket: &str) -> (r: String)
        ensures
            r@ == "OK \u{2014} bucket \""@ + bucket@ + "\" reachable"@,
    {
        concat3("OK \u{2014} bucket \"", bucket, "\" reachable")
    }

    /// The status line of a successful connection test that listed buckets.
    pub fn buckets_message(count: usize) -> (r: String)
        ensures
            r@ == "OK \u{2014} "@ + decimal(count as nat) + " bucket(s)"@,
    {
        let n = decimal_string(count as u64);
        concat3("OK \u{2014} ", n.as_str(), " bucket(s)")
    }
}

/// The folder rows of the bucket list, in order.
pub open spec fn bucket_rows(bs: Seq<BucketInfo>) -> Seq<EntryView> {
    bs.map_values(|b: BucketInfo| folder_view(b.name@, b.name@, b.created_at))
}

/// The buckets of an account as virtual folders.
pub fn bucket_entries(buckets: &Vec<BucketInfo>) -> (r: Vec<ObjectEntry>)
    ensures
        entry_views(r@) == bucket_rows(buckets@),
{
    let mut out: Vec<ObjectEntry> = Vec::new();
    let mut i: usize = 0;
    while i < buckets.len()
        invariant
            i <= buckets.len(),
            entry_views(out@) == bucket_rows(buckets@.take(i as int)),
        decreases buckets.len() - i,
    {
        let b = &buckets[i];
        let e = folder_entry(b.name.clone(), b.name.clone(), b.created_at);
        proof {
            lemma_views_push(out@, e);
            assert(bucket_rows(buckets@.take(i + 1)) =~= bucket_rows(buckets@.take(i as int)).push(
                e@,
            ));
        }
        out.push(e);
        i = i + 1;
    }
    assert(buckets@.take(buckets@.len() as int) == buckets@);
    out
}

} // verus!
