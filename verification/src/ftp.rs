//! FTP / FTPS logic: how a connection is opened (host, port, TLS mode, login,
//! data-channel mode), how `LIST` output becomes listing rows, and how an
//! FTP failure is classified.
use crate::connections::{copy_opt, Connection, ConnectionKind, ConnectionSecret, FtpMode};
use crate::error::{AppError, AppErrorView, Error};
use crate::remote::{list_rows, ListedFile, TreeStyle};
use crate::s3::ObjectEntry;
use crate::taxonomy::{
    category_for_ftp, category_retryable, ftp_category, ftp_code_retryable, ftp_retryable,
    phase_name, ErrorCategory, Phase, StatusCode,
};
use crate::text::{concat, concat3, decimal, decimal_string, owned};
use vstd::prelude::*;

verus! {

// ---------------------------------------------------------------------------
// Failures
// ---------------------------------------------------------------------------

/// How an FTP operation failed (the variants of the FTP library's error).
#[derive(Debug, Clone, Copy, PartialEq, Eq, Structural)]
pub enum FtpFailureKind {
    ConnectionError,
    SecureError,
    /// The server answered with an unexpected reply code.
    UnexpectedResponse(u16),
    BadResponse,
    InvalidAddress,
    DataConnectionAlreadyOpen,
}

/// An FTP failure: its kind, the text it displays and its debug text.
#[derive(Debug, Clone)]
pub struct FtpFailure {
    pub kind: FtpFailureKind,
    pub text: String,
    pub debug: String,
}

/// The category of an FTP failure and the reply code it carries, if any.
pub open spec fn ftp_failure_class(k: FtpFailureKind) -> (ErrorCategory, Option<u16>) {
    match k {
        FtpFailureKind::ConnectionError => (ErrorCategory::Network, None),
        FtpFailureKind::SecureError => (ErrorCategory::Tls, None),
        FtpFailureKind::UnexpectedResponse(c) => (ftp_category(c), Some(c)),
        FtpFailureKind::BadResponse => (ErrorCategory::Protocol, None),
        FtpFailureKind::InvalidAddress => (ErrorCategory::Config, None),
        FtpFailureKind::DataConnectionAlreadyOpen => (ErrorCategory::Protocol, None),
    }
}

/// The classified error of an FTP failure during `phase`: the reply code
/// drives the category and the retry decision.
pub open spec fn ftp_failure_view(connector: ConnectionKind, phase: Phase, f: FtpFailure) -> AppErrorView {
    let (category, code) = ftp_failure_class(f.kind);
    AppErrorView {
        connector: Some(connector),
        phase: Some(phase),
        retryable: match code {
            Some(c) => ftp_code_retryable(c),
            None => category_retryable(category),
        },
        detail: Some(f.debug@),
        code: match code {
            Some(c) => Some(StatusCode::Ftp(c)),
            None => None,
        },
        ..crate::error::fresh_error(category, "FTP "@ + phase_name(phase) + " failed: "@ + f.text@)
    }
}

/// Project an FTP failure onto the error IR. The reply code (e.g. 530, 550)
/// drives the category; `phase` says where the operation was.
pub fn ftp_err(connector: ConnectionKind, phase: Phase, f: &FtpFailure) -> (r: Error)
    ensures
        r matches Error::App(a) && a@ == ftp_failure_view(connector, phase, *f),
{
    let (category, code) = match f.kind {
        FtpFailureKind::ConnectionError => (ErrorCategory::Network, None),
        FtpFailureKind::SecureError => (ErrorCategory::Tls, None),
        FtpFailureKind::UnexpectedResponse(c) => (category_for_ftp(c), Some(c)),
        FtpFailureKind::BadResponse => (ErrorCategory::Protocol, None),
        FtpFailureKind::InvalidAddress => (ErrorCategory::Config, None),
        FtpFailureKind::DataConnectionAlreadyOpen => (ErrorCategory::Protocol, None),
    };
    let retryable = match code {
        Some(c) => ftp_retryable(c),
        None => category.retryable(),
    };
    let head = concat3("FTP ", phase.name(), " failed: ");
    let summary = concat(head.as_str(), f.text.as_str());
    let mut err = AppError::new(category, summary).connector(connector).phase(phase).retryable(
        retryable,
    ).detail(f.debug.clone());
    if let Some(c) = code {
        err = err.code(StatusCode::Ftp(c));
    }
    Error::App(err)
}

// ---------------------------------------------------------------------------
// Opening a connection
// ---------------------------------------------------------------------------

/// How the control channel is secured.
#[derive(Debug, Clone, Copy, PartialEq, Eq, Structural)]
pub enum FtpTls {
    /// TLS from the first byte (conventionally port 990).
    Implicit,
    /// Plaintext, upgraded with AUTH TLS.
    Explicit,
    /// No TLS.
    Plain,
}

/// Everything needed to open and log in to an FTP / FTPS server.
pub struct ConnectPlan {
    pub host: String,
    pub port: u16,
    pub user: String,
    pub password: String,
    pub tls: FtpTls,
    pub mode: FtpMode,
}

/// The TLS mode of a connection: implicit only for FTPS with the implicit
/// flag, explicit for other FTPS, plain for FTP.
pub open spec fn tls_of(c: Connection) -> FtpTls {
    if c.kind is Ftps && c.ftps_implicit {
        FtpTls::Implicit
    } else if c.kind is Ftps {
        FtpTls::Explicit
    } else {
        FtpTls::Plain
    }
}

/// The error for a connection without a host.
pub open spec fn missing_host_view(kind: ConnectionKind) -> AppErrorView {
    AppErrorView {
        connector: Some(kind),
        phase: Some(Phase::Config),
        ..crate::error::fresh_error(ErrorCategory::Config, "FTP: missing host"@)
    }
}

/// How to open `c`: its host (required), its port (990 for implicit TLS, 21
/// otherwise, unless set), the login (empty or missing user is "anonymous",
/// missing password is empty), the TLS mode and the data-channel mode
/// (passive unless set).
pub fn connect_plan(c: &Connection, s: &ConnectionSecret) -> (r: Result<ConnectPlan, Error>)
    ensures
        crate::s3::filled(c.host) is None ==> (r matches Err(Error::App(a)) && a@
            == missing_host_view(c.kind)),
        crate::s3::filled(c.host) matches Some(h) ==> (r matches Ok(p) && p.host@ == h && p.tls
            == tls_of(*c) && p.port == (match c.port {
            Some(x) => x,
            None => if tls_of(*c) is Implicit {
                990u16
            } else {
                21u16
            },
        }) && p.user@ == (match crate::s3::filled(c.username) {
            Some(u) => u,
            None => "anonymous"@,
        }) && p.password@ == (match s.password {
            Some(pw) => pw@,
            None => Seq::<char>::empty(),
        }) && p.mode == (match c.ftp_mode {
            Some(m) => m,
            None => FtpMode::Passive,
        })),
{
    let host = match &c.host {
        Some(h) => if h.as_str().is_empty() {
            None
        } else {
            Some(h.clone())
        },
        None => None,
    };
    let host = match host {
        Some(h) => h,
        None => {
            return Err(
                Error::App(
                    AppError::new(ErrorCategory::Config, owned("FTP: missing host")).connector(
                        c.kind,
                    ).phase(Phase::Config),
                ),
            );
        },
    };
    let is_ftps = match c.kind {
        ConnectionKind::Ftps => true,
        _ => false,
    };
    let tls = if is_ftps && c.ftps_implicit {
        FtpTls::Implicit
    } else if is_ftps {
        FtpTls::Explicit
    } else {
        FtpTls::Plain
    };
    let port = match c.port {
        Some(p) => p,
        None => if tls == FtpTls::Implicit {
            990
        } else {
            21
        },
    };
    let user = match &c.username {
        Some(u) => if u.as_str().is_empty() {
            owned("anonymous")
        } else {
            u.clone()
        },
        None => owned("anonymous"),
    };
    let password = match &s.password {
        Some(p) => p.clone(),
        None => String::new(),
    };
    let mode = match c.ftp_mode {
        Some(m) => m,
        None => FtpMode::Passive,
    };
    Ok(ConnectPlan { host, port, user, password, tls, mode })
}

/// The description of a TLS mode used in the connection log.
pub open spec fn tls_text(t: FtpTls) -> Seq<char> {
    match t {
        FtpTls::Implicit => "implicit TLS"@,
        FtpTls::Explicit => "explicit TLS"@,
        FtpTls::Plain => "plain FTP"@,
    }
}

impl ConnectPlan {
    /// The `host:port` address to dial.
    pub fn address(&self) -> (r: String)
        ensures
            r@ == self.host@ + ":"@ + decimal(self.port as nat),
    {
        let p = decimal_string(self.port as u64);
        concat3(self.host.as_str(), ":", p.as_str())
    }

    /// How the control channel is secured, as logged.
    pub fn tls_description(&self) -> (r: &'static str)
        ensures
            r@ == tls_text(self.tls),
    {
        match self.tls {
            FtpTls::Implicit => "implicit TLS",
            FtpTls::Explicit => "explicit TLS",
            FtpTls::Plain => "plain FTP",
        }
    }

    /// The log line announcing the connection attempt.
    pub fn connecting_message(&self) -> (r: String)
        ensures
            r@ == "Connecting to "@ + self.host@ + ":"@ + decimal(self.port as nat) + " ("@
                + tls_text(self.tls) + ")"@,
    {
        let addr = self.address();
        let head = concat("Connecting to ", addr.as_str());
        let body = concat3(head.as_str(), " (", self.tls_description());
        concat(body.as_str(), ")")
    }
}

/// The name of a data-channel mode as logged.
pub open spec fn mode_text(m: FtpMode) -> Seq<char> {
    match m {
        FtpMode::Active => "active"@,
        FtpMode::Passive => "passive"@,
        FtpMode::ExtendedPassive => "extended passive"@,
    }
}

/// The data-channel mode a connection uses (passive unless set), as logged.
pub fn data_mode_name(mode: Option<FtpMode>) -> (r: &'static str)
    ensures
        r@ == mode_text(
            match mode {
                Some(m) => m,
                None => FtpMode::Passive,
            },
        ),
{
    match mode {
        Some(FtpMode::Active) => "active",
        Some(FtpMode::ExtendedPassive) => "extended passive",
        _ => "passive",
    }
}

/// The log line saying which data-connection mode the next transfer or
/// listing uses.
pub fn data_mode_message(mode: Option<FtpMode>) -> (r: String)
    ensures
        r@ == "Using "@ + mode_text(
            match mode {
                Some(m) => m,
                None => FtpMode::Passive,
            },
        ) + " mode for data connection"@,
{
    concat3("Using ", data_mode_name(mode), " mode for data connection")
}

// ---------------------------------------------------------------------------
// LIST output
// ---------------------------------------------------------------------------

/// The file name `suppaftp::list::ListParser::parse_posix` reads off a POSIX
/// `LIST` line (for a symlink, the part before " -> "): a function of the line.
pub uninterp spec fn posix_name(line: Seq<char>) -> Seq<char>;

/// The size field `suppaftp::list::ListParser::parse_posix` reads off a POSIX
/// `LIST` line: a function of the line.
pub uninterp spec fn posix_size(line: Seq<char>) -> u64;

/// Whether `suppaftp::list::ListParser::parse_posix` accepts a line whatever
/// the clock reads: the line has the POSIX `ls -l` form the crate's pattern
/// describes, its size fits a `usize`, and its date is valid in every year (it
/// carries a year, or it is not 29 February). A function of the line.
pub uninterp spec fn posix_parses(line: Seq<char>) -> bool;

/// Whether a line starts with a POSIX file-type character ('-', 'd' or 'l').
pub open spec fn listing_line(l: Seq<char>) -> bool {
    l.len() > 0 && (l[0] == '-' || l[0] == 'd' || l[0] == 'l')
}

/// What parsing `line` may give: nothing, or an entry of a listing line that
/// is a directory exactly when the line starts with 'd', with the name and size
/// the line holds.
pub open spec fn parse_allowed(line: Seq<char>, o: Option<ListedFile>) -> bool {
    o matches Some(f) ==> listing_line(line) && f.is_dir == (line[0] == 'd') && f.name@
        == posix_name(line) && f.size == posix_size(line)
}

/// `o` holds one parse outcome for each line, in order, each allowed for its
/// line, and present for every line the parser accepts whatever the clock.
pub open spec fn outcomes_allowed(lines: Seq<String>, o: Seq<Option<ListedFile>>) -> bool {
    &&& o.len() == lines.len()
    &&& forall|i: int| 0 <= i < o.len() ==> parse_allowed(lines[i]@, #[trigger] o[i])
    &&& forall|i: int| 0 <= i < o.len() && posix_parses(lines[i]@) ==> (#[trigger] o[i]) is Some
}

/// The entries of the outcomes that are present, in order.
pub open spec fn somes(o: Seq<Option<ListedFile>>) -> Seq<ListedFile>
    decreases o.len(),
{
    if o.len() == 0 {
        Seq::empty()
    } else {
        let rest = somes(o.drop_last());
        match o.last() {
            Some(f) => rest.push(f),
            None => rest,
        }
    }
}

/// `suppaftp::list::ListParser::parse_posix`: parses one POSIX `LIST` line
/// into name, kind, size and modification time (seconds since the epoch), or
/// `None` when the line is not in that format. The crate accepts only lines
/// that start with the file-type character '-', 'd' or 'l', reports a
/// directory exactly for 'd', and reads the name and size off the line (named
/// [`posix_name`] and [`posix_size`]); a line it accepts whatever the clock
/// (named [`posix_parses`]) gives an entry. That is stated. A date without a
/// year is read against the current year, so the modification time, and
/// whether a year-less line dated 29 February parses, depend on the clock and
/// are not stated.
#[verifier::external_body]
fn parse_posix_line(line: &str) -> (r: Option<ListedFile>)
    ensures
        parse_allowed(line@, r),
        r matches Some(f) ==> f.name@ == posix_name(line@) && f.size == posix_size(line@),
        posix_parses(line@) ==> r is Some,
{
    match suppaftp::list::ListParser::parse_posix(line) {
        Ok(f) => {
            let modified = match f.modified().duration_since(std::time::UNIX_EPOCH) {
                Ok(d) => Some(d.as_secs() as i64),
                Err(_) => None,
            };
            let size = f.size() as u64;
            Some(ListedFile { name: f.name().to_string(), is_dir: f.is_directory(), size, modified })
        },
        Err(_) => None,
    }
}

/// The entries of the present outcomes, in order.
pub fn keep_parsed(results: &Vec<Option<ListedFile>>) -> (r: Vec<ListedFile>)
    ensures
        r@ == somes(results@),
{
    let mut out: Vec<ListedFile> = Vec::new();
    let mut i: usize = 0;
    while i < results.len()
        invariant
            i <= results.len(),
            out@ == somes(results@.take(i as int)),
        decreases results.len() - i,
    {
        proof {
            assert(results@.take(i + 1).drop_last() == results@.take(i as int));
            assert(results@.take(i + 1).last() == results@[i as int]);
        }
        match &results[i] {
            Some(f) => {
                out.push(f.duplicate());
            },
            None => {},
        }
        i = i + 1;
    }
    assert(results@.take(results@.len() as int) == results@);
    out
}

/// The entries of a `LIST` reply: every line is handed to the parser, in
/// order, and the entries of the lines that parse are kept, in order; every
/// line the parser accepts whatever the clock gives an entry.
pub fn parse_listing(lines: &Vec<String>) -> (r: Vec<ListedFile>)
    ensures
        exists|o: Seq<Option<ListedFile>>| #[trigger] outcomes_allowed(lines@, o) && r@ == somes(o),
{
    let mut outcomes: Vec<Option<ListedFile>> = Vec::new();
    let mut i: usize = 0;
    while i < lines.len()
        invariant
            i <= lines.len(),
            outcomes@.len() == i,
            forall|k: int| 0 <= k < i ==> parse_allowed(lines@[k]@, #[trigger] outcomes@[k]),
            forall|k: int| 0 <= k < i && posix_parses(lines@[k]@) ==> (#[trigger] outcomes@[k]) is Some,
        decreases lines.len() - i,
    {
        let o = parse_posix_line(lines[i].as_str());
        outcomes.push(o);
        i = i + 1;
    }
    let r = keep_parsed(&outcomes);
    assert(outcomes_allowed(lines@, outcomes@));
    r
}

/// The rows of a `LIST` reply for `path`, in display order (see
/// [`list_rows`]): the entries of the lines that parse, sorted.
pub fn list(path: &str, lines: &Vec<String>) -> (r: Vec<ObjectEntry>)
    ensures
        exists|o: Seq<Option<ListedFile>>, p: Seq<int>|
            #![trigger outcomes_allowed(lines@, o), crate::order::stably_sorted(crate::remote::entry_keys_of(crate::remote::listing_rows(TreeStyle::Ftp, path@, somes(o))), crate::order::entry_keys(r@), p)]
            outcomes_allowed(lines@, o) && crate::order::stably_sorted(
                crate::remote::entry_keys_of(
                    crate::remote::listing_rows(TreeStyle::Ftp, path@, somes(o)),
                ),
                crate::order::entry_keys(r@),
                p,
            ) && (forall|k: int|
                0 <= k < r@.len() ==> #[trigger] r@[k]@ == crate::remote::listing_rows(
                    TreeStyle::Ftp,
                    path@,
                    somes(o),
                )[p[k]]),
{
    let files = parse_listing(lines);
    list_rows(TreeStyle::Ftp, path, &files)
}

} // verus!
