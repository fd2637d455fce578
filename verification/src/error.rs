//! The error IR.
//!
//! [`AppError`] is the structured, connector-agnostic error that crosses the
//! UI boundary: a category to badge, an optional connector / phase / protocol
//! code, whether a retry makes sense, a one-line summary, raw detail and an
//! actionable remediation hint. [`Error`] is what the operations return; every
//! variant is projected onto an [`AppError`] by [`Error::to_app`], which also
//! fills in the category-level remediation when none was set.
use crate::connections::ConnectionKind;
use crate::taxonomy::{category_hint, category_retryable, ErrorCategory, Phase, StatusCode};
use crate::text::{concat, owned};
use vstd::prelude::*;

verus! {

/// The structured error surfaced to the UI.
#[derive(Debug, Clone)]
pub struct AppError {
    pub category: ErrorCategory,
    pub connector: Option<ConnectionKind>,
    pub phase: Option<Phase>,
    pub code: Option<StatusCode>,
    pub retryable: bool,
    /// One-line, human-readable summary.
    pub summary: String,
    /// Raw protocol/library text for power users.
    pub detail: Option<String>,
    /// Actionable hint. Falls back to a category-level default when unset.
    pub remediation: Option<String>,
}

/// The value of an [`AppError`], with its texts as character sequences.
pub struct AppErrorView {
    pub category: ErrorCategory,
    pub connector: Option<ConnectionKind>,
    pub phase: Option<Phase>,
    pub code: Option<StatusCode>,
    pub retryable: bool,
    pub summary: Seq<char>,
    pub detail: Option<Seq<char>>,
    pub remediation: Option<Seq<char>>,
}

/// The character view of an optional string.
pub open spec fn opt_view(o: Option<String>) -> Option<Seq<char>> {
    match o {
        Some(s) => Some(s@),
        None => None,
    }
}

impl View for AppError {
    type V = AppErrorView;

    open spec fn view(&self) -> AppErrorView {
        AppErrorView {
            category: self.category,
            connector: self.connector,
            phase: self.phase,
            code: self.code,
            retryable: self.retryable,
            summary: self.summary@,
            detail: opt_view(self.detail),
            remediation: opt_view(self.remediation),
        }
    }
}

/// A fresh error of `category`: retryable exactly when the category is, and
/// with nothing but the summary set.
pub open spec fn fresh_error(category: ErrorCategory, summary: Seq<char>) -> AppErrorView {
    AppErrorView {
        category,
        connector: None,
        phase: None,
        code: None,
        retryable: category_retryable(category),
        summary,
        detail: None,
        remediation: None,
    }
}

/// `a` with the category-level remediation filled in when it has none.
pub open spec fn with_default_hint(a: AppErrorView) -> AppErrorView {
    if a.remediation is None {
        AppErrorView { remediation: category_hint(a.category), ..a }
    } else {
        a
    }
}

impl AppError {
    /// A new error of `category` with the given summary; it is retryable
    /// exactly when the category is.
    pub fn new(category: ErrorCategory, summary: String) -> (r: AppError)
        ensures
            r@ == fresh_error(category, summary@),
    {
        AppError {
            category,
            connector: None,
            phase: None,
            code: None,
            retryable: category.retryable(),
            summary,
            detail: None,
            remediation: None,
        }
    }

    /// Tag the error with the connector it came from.
    pub fn connector(self, c: ConnectionKind) -> (r: AppError)
        ensures
            r@ == (AppErrorView { connector: Some(c), ..self@ }),
    {
        let mut s = self;
        s.connector = Some(c);
        s
    }

    /// Tag the error with the lifecycle phase it happened in.
    pub fn phase(self, p: Phase) -> (r: AppError)
        ensures
            r@ == (AppErrorView { phase: Some(p), ..self@ }),
    {
        let mut s = self;
        s.phase = Some(p);
        s
    }

    /// Attach the protocol-native status code.
    pub fn code(self, c: StatusCode) -> (r: AppError)
        ensures
            r@ == (AppErrorView { code: Some(c), ..self@ }),
    {
        let mut s = self;
        s.code = Some(c);
        s
    }

    /// Override whether a retry makes sense.
    pub fn retryable(self, r: bool) -> (out: AppError)
        ensures
            out@ == (AppErrorView { retryable: r, ..self@ }),
    {
        let mut s = self;
        s.retryable = r;
        s
    }

    /// Attach raw detail text.
    pub fn detail(self, d: String) -> (r: AppError)
        ensures
            r@ == (AppErrorView { detail: Some(d@), ..self@ }),
    {
        let mut s = self;
        s.detail = Some(d);
        s
    }

    /// Attach a specific remediation hint.
    pub fn remediation(self, r: String) -> (out: AppError)
        ensures
            out@ == (AppErrorView { remediation: Some(r@), ..self@ }),
    {
        let mut s = self;
        s.remediation = Some(r);
        s
    }

    /// Fill in the category-level remediation when the call site didn't set one.
    pub fn with_default_remediation(self) -> (r: AppError)
        ensures
            r@ == with_default_hint(self@),
    {
        let mut s = self;
        if s.remediation.is_none() {
            s.remediation = match s.category.remediation() {
                Some(t) => Some(owned(t)),
                None => None,
            };
        }
        s
    }

    /// A field-for-field copy.
    pub fn duplicate(&self) -> (r: AppError)
        ensures
            r == *self,
    {
        AppError {
            category: self.category,
            connector: self.connector,
            phase: self.phase,
            code: self.code,
            retryable: self.retryable,
            summary: self.summary.clone(),
            detail: crate::connections::copy_opt(&self.detail),
            remediation: crate::connections::copy_opt(&self.remediation),
        }
    }

    /// The text the error displays as: its summary.
    pub fn display(&self) -> (r: String)
        ensures
            r@ == self.summary@,
    {
        self.summary.clone()
    }
}

/// The failures an operation can return. The variants that came from a
/// library error (I/O, JSON, keychain, window system) carry its message.
#[derive(Debug)]
pub enum Error {
    Io(String),
    Json(String),
    Keyring(String),
    Tauri(String),
    S3(String),
    NotFound(String),
    Unsupported(String),
    Msg(String),
    /// Fully classified error from a connector.
    App(AppError),
}

/// The remediation given for a keychain failure.
pub open spec fn keychain_hint() -> Seq<char> {
    "Could not read the OS keychain. Re-save the connection's credentials."@
}

/// The projection of `e` onto the error IR, before the default remediation.
pub open spec fn classified(e: Error) -> AppErrorView {
    match e {
        Error::App(a) => a@,
        Error::Io(m) => fresh_error(ErrorCategory::Io, m@),
        Error::Json(m) => fresh_error(ErrorCategory::Protocol, "Malformed data: "@ + m@),
        Error::Keyring(m) => AppErrorView {
            remediation: Some(keychain_hint()),
            ..fresh_error(ErrorCategory::Config, "Secret store error: "@ + m@)
        },
        Error::Tauri(m) => fresh_error(ErrorCategory::Unknown, m@),
        Error::S3(s) => AppErrorView {
            connector: Some(ConnectionKind::S3),
            ..fresh_error(ErrorCategory::Unknown, s@)
        },
        Error::NotFound(s) => fresh_error(ErrorCategory::NotFound, "Not found: "@ + s@),
        Error::Unsupported(s) => fresh_error(ErrorCategory::Client, s@),
        Error::Msg(s) => fresh_error(ErrorCategory::Unknown, s@),
    }
}

/// The message an error displays.
pub open spec fn error_message(e: Error) -> Seq<char> {
    match e {
        Error::Io(m) => "io: "@ + m@,
        Error::Json(m) => "json: "@ + m@,
        Error::Keyring(m) => "keyring: "@ + m@,
        Error::Tauri(m) => "tauri: "@ + m@,
        Error::S3(s) => "s3: "@ + s@,
        Error::NotFound(s) => "not found: "@ + s@,
        Error::Unsupported(s) => "unsupported: "@ + s@,
        Error::Msg(s) => s@,
        Error::App(a) => a.summary@,
    }
}

impl Error {
    /// Project any `Error` onto the `AppError` IR. Rich connector errors pass
    /// through; the other variants get a best-effort classification. Either way
    /// the category-level remediation is filled in when none was set.
    pub fn to_app(&self) -> (r: AppError)
        ensures
            r@ == with_default_hint(classified(*self)),
    {
        let app = match self {
            Error::App(a) => a.duplicate(),
            Error::Io(e) => AppError::new(ErrorCategory::Io, e.clone()),
            Error::Json(e) => AppError::new(
                ErrorCategory::Protocol,
                concat("Malformed data: ", e.as_str()),
            ),
            Error::Keyring(e) => AppError::new(
                ErrorCategory::Config,
                concat("Secret store error: ", e.as_str()),
            ).remediation(
                owned("Could not read the OS keychain. Re-save the connection's credentials."),
            ),
            Error::Tauri(e) => AppError::new(ErrorCategory::Unknown, e.clone()),
            Error::S3(s) => AppError::new(ErrorCategory::Unknown, s.clone()).connector(
                ConnectionKind::S3,
            ),
            Error::NotFound(s) => AppError::new(
                ErrorCategory::NotFound,
                concat("Not found: ", s.as_str()),
            ),
            Error::Unsupported(s) => AppError::new(ErrorCategory::Client, s.clone()),
            Error::Msg(s) => AppError::new(ErrorCategory::Unknown, s.clone()),
        };
        app.with_default_remediation()
    }

    /// The text the error displays as.
    pub fn message(&self) -> (r: String)
        ensures
            r@ == error_message(*self),
    {
        match self {
            Error::Io(m) => concat("io: ", m.as_str()),
            Error::Json(m) => concat("json: ", m.as_str()),
            Error::Keyring(m) => concat("keyring: ", m.as_str()),
            Error::Tauri(m) => concat("tauri: ", m.as_str()),
            Error::S3(s) => concat("s3: ", s.as_str()),
            Error::NotFound(s) => concat("not found: ", s.as_str()),
            Error::Unsupported(s) => concat("unsupported: ", s.as_str()),
            Error::Msg(s) => s.clone(),
            Error::App(a) => a.display(),
        }
    }
}

impl From<AppError> for Error {
    fn from(a: AppError) -> (r: Error) {
        Error::App(a)
    }
}

impl vstd::std_specs::convert::FromSpecImpl<AppError> for Error {
    open spec fn obeys_from_spec() -> bool {
        true
    }

    open spec fn from_spec(a: AppError) -> Error {
        Error::App(a)
    }
}

// --- Laws of the projection ---

/// A classified connector error passes through the projection unchanged, except
/// that a missing remediation is filled from its category.
pub proof fn to_app_passthrough_law(a: AppError)
    ensures
        with_default_hint(classified(Error::App(a))).category == a.category,
        with_default_hint(classified(Error::App(a))).connector == a.connector,
        with_default_hint(classified(Error::App(a))).phase == a.phase,
        with_default_hint(classified(Error::App(a))).code == a.code,
        with_default_hint(classified(Error::App(a))).retryable == a.retryable,
        with_default_hint(classified(Error::App(a))).summary == a.summary@,
        with_default_hint(classified(Error::App(a))).detail == opt_view(a.detail),
        a.remediation is Some ==> with_default_hint(classified(Error::App(a))).remediation
            == opt_view(a.remediation),
        a.remediation is None ==> with_default_hint(classified(Error::App(a))).remediation
            == category_hint(a.category),
{
}

/// Every projected error carries a remediation hint unless its category is
/// `Unknown` and no hint was set at the failure site.
pub proof fn to_app_hint_law(e: Error)
    ensures
        with_default_hint(classified(e)).remediation is None <==> (classified(e).category
            is Unknown && classified(e).remediation is None),
{
}

/// The projection of an error that did not come from a connector is retryable
/// exactly when its category is.
pub proof fn to_app_retry_law(e: Error)
    requires
        !(e is App),
    ensures
        with_default_hint(classified(e)).retryable == category_retryable(
            classified(e).category,
        ),
{
}

/// A fresh error is retryable exactly when its category is, and setting the
/// remediation hint at the failure site keeps it through the projection.
pub proof fn remediation_override_law(category: ErrorCategory, summary: Seq<char>, hint: Seq<char>)
    ensures
        fresh_error(category, summary).retryable == category_retryable(category),
        with_default_hint(AppErrorView { remediation: Some(hint), ..fresh_error(category, summary) }).remediation
            == Some(hint),
{
}

} // verus!
