//! Structured log lines for the Debug Log panel.
//!
//! A log line is a record, not a sentence: besides its level and rendered
//! message it carries the same axes as the error IR (connector, phase, code,
//! category) and a bag of named fields, so that the panel can filter on them.
//! Sending a line to the UI is the caller's part; this module builds the lines.
use crate::connections::{fresh_id, now_millis, ConnectionKind};
use crate::error::{classified, opt_view, with_default_hint, Error};
use crate::taxonomy::{ErrorCategory, Level, Phase, StatusCode};
use crate::text::{concat3, has_prefix, owned, str_eq, str_starts_with};
use vstd::prelude::*;

verus! {

/// The value of a structured field.
pub enum FieldValue {
    Text(String),
    Int(i64),
}

/// The value of a [`FieldValue`], with its text as a character sequence.
pub enum FieldView {
    Text(Seq<char>),
    Int(i64),
}

impl View for FieldValue {
    type V = FieldView;

    open spec fn view(&self) -> FieldView {
        match self {
            FieldValue::Text(s) => FieldView::Text(s@),
            FieldValue::Int(n) => FieldView::Int(*n),
        }
    }
}

/// A structured log line.
pub struct LogEvent {
    pub id: String,
    /// Milliseconds since the Unix epoch.
    pub ts: i64,
    pub level: Level,
    /// Coarse domain: "connection", "transfer", "protocol", ...
    pub scope: String,
    pub connector: Option<ConnectionKind>,
    pub phase: Option<Phase>,
    pub code: Option<StatusCode>,
    /// Set on error lines so that the panel can badge the failure class.
    pub category: Option<ErrorCategory>,
    pub message: String,
    pub connection: Option<String>,
    /// Named detail (a count, the emitting library, ...), each name once.
    pub fields: Vec<(String, FieldValue)>,
}

/// Named fields as character sequences.
pub type FieldsView = Seq<(Seq<char>, FieldView)>;

/// The value of a [`LogEvent`], with its texts as character sequences.
pub struct LogView {
    pub id: Seq<char>,
    pub ts: i64,
    pub level: Level,
    pub scope: Seq<char>,
    pub connector: Option<ConnectionKind>,
    pub phase: Option<Phase>,
    pub code: Option<StatusCode>,
    pub category: Option<ErrorCategory>,
    pub message: Seq<char>,
    pub connection: Option<Seq<char>>,
    pub fields: FieldsView,
}

/// The view of a list of named fields.
pub open spec fn field_views(v: Seq<(String, FieldValue)>) -> FieldsView {
    v.map_values(|p: (String, FieldValue)| (p.0@, p.1@))
}

impl View for LogEvent {
    type V = LogView;

    open spec fn view(&self) -> LogView {
        LogView {
            id: self.id@,
            ts: self.ts,
            level: self.level,
            scope: self.scope@,
            connector: self.connector,
            phase: self.phase,
            code: self.code,
            category: self.category,
            message: self.message@,
            connection: opt_view(self.connection),
            fields: field_views(self.fields@),
        }
    }
}

/// `s[i]` is the first field named `k`.
pub open spec fn first_key_at(s: FieldsView, k: Seq<char>, i: int) -> bool {
    &&& 0 <= i < s.len()
    &&& s[i].0 == k
    &&& forall|j: int| 0 <= j < i ==> (#[trigger] s[j]).0 != k
}

/// The fields after setting `k` to `v`: the first field of that name takes the
/// new value, or the field is added at the end.
pub open spec fn put_field(s: FieldsView, k: Seq<char>, v: FieldView) -> FieldsView {
    if exists|i: int| first_key_at(s, k, i) {
        s.update(choose|i: int| first_key_at(s, k, i), (k, v))
    } else {
        s.push((k, v))
    }
}

/// The value of the field named `k`.
pub open spec fn field_of(s: FieldsView, k: Seq<char>) -> Option<FieldView> {
    if exists|i: int| first_key_at(s, k, i) {
        Some(s[choose|i: int| first_key_at(s, k, i)].1)
    } else {
        None
    }
}

/// No name occurs twice.
pub open spec fn distinct_keys(s: FieldsView) -> bool {
    forall|i: int, j: int| 0 <= i < j < s.len() ==> (#[trigger] s[i]).0 != (#[trigger] s[j]).0
}

/// The character view of an optional borrowed string.
pub open spec fn opt_str_view(o: Option<&str>) -> Option<Seq<char>> {
    match o {
        Some(s) => Some(s@),
        None => None,
    }
}

/// A log line under construction. [`LogBuilder::event`] gives the line to send.
pub struct LogBuilder {
    ev: LogEvent,
}

impl View for LogBuilder {
    type V = LogView;

    closed spec fn view(&self) -> LogView {
        self.ev@
    }
}

fn copy_str_opt(o: Option<&str>) -> (r: Option<String>)
    ensures
        opt_view(r) == opt_str_view(o),
{
    match o {
        Some(s) => Some(owned(s)),
        None => None,
    }
}

impl LogBuilder {
    /// A new line of `level` in `scope`, with a fresh 36-character id and the
    /// current time, an empty message and nothing else set.
    pub fn new(level: Level, scope: String) -> (r: LogBuilder)
        ensures
            r@ == (LogView {
                id: r@.id,
                ts: r@.ts,
                level,
                scope: scope@,
                connector: None,
                phase: None,
                code: None,
                category: None,
                message: Seq::empty(),
                connection: None,
                fields: Seq::empty(),
            }),
            r@.id.len() == 36,
    {
        let ev = LogEvent {
            id: fresh_id(),
            ts: now_millis(),
            level,
            scope,
            connector: None,
            phase: None,
            code: None,
            category: None,
            message: String::new(),
            connection: None,
            fields: Vec::new(),
        };
        assert(field_views(ev.fields@) =~= Seq::empty());
        LogBuilder { ev }
    }

    /// Set the connector.
    pub fn connector(self, c: ConnectionKind) -> (r: LogBuilder)
        ensures
            r@ == (LogView { connector: Some(c), ..self@ }),
    {
        let mut b = self;
        b.ev.connector = Some(c);
        b
    }

    /// Set the phase.
    pub fn phase(self, p: Phase) -> (r: LogBuilder)
        ensures
            r@ == (LogView { phase: Some(p), ..self@ }),
    {
        let mut b = self;
        b.ev.phase = Some(p);
        b
    }

    /// Set the protocol status code.
    pub fn code(self, c: StatusCode) -> (r: LogBuilder)
        ensures
            r@ == (LogView { code: Some(c), ..self@ }),
    {
        let mut b = self;
        b.ev.code = Some(c);
        b
    }

    /// Set the failure category.
    pub fn category(self, c: ErrorCategory) -> (r: LogBuilder)
        ensures
            r@ == (LogView { category: Some(c), ..self@ }),
    {
        let mut b = self;
        b.ev.category = Some(c);
        b
    }

    /// Set (or clear) the name of the connection the line is about.
    pub fn connection(self, name: Option<&str>) -> (r: LogBuilder)
        ensures
            r@ == (LogView { connection: opt_str_view(name), ..self@ }),
    {
        let mut b = self;
        b.ev.connection = copy_str_opt(name);
        b
    }

    /// Set the field named `key` to `value`, replacing an earlier value.
    pub fn field(self, key: &str, value: FieldValue) -> (r: LogBuilder)
        ensures
            r@ == (LogView { fields: put_field(self@.fields, key@, value@), ..self@ }),
    {
        let mut b = self;
        let ghost s = field_views(b.ev.fields@);
        let mut i: usize = 0;
        let mut found: Option<usize> = None;
        while i < b.ev.fields.len()
            invariant_except_break
                found is None,
            invariant
                i <= b.ev.fields@.len(),
                s == field_views(b.ev.fields@),
                forall|j: int| 0 <= j < i ==> (#[trigger] s[j]).0 != key@,
            ensures
                match found {
                    Some(f) => first_key_at(s, key@, f as int),
                    None => forall|j: int| 0 <= j < s.len() ==> (#[trigger] s[j]).0 != key@,
                },
            decreases b.ev.fields@.len() - i,
        {
            if str_eq(b.ev.fields[i].0.as_str(), key) {
                found = Some(i);
                break;
            }
            i = i + 1;
        }
        match found {
            Some(f) => {
                proof {
                    let c = choose|c: int| first_key_at(s, key@, c);
                    if c < f {
                        assert(s[c].0 != key@);
                    } else if f < c {
                        assert(s[f as int].0 != key@);
                    }
                }
                b.ev.fields.set(f, (owned(key), value));
                assert(field_views(b.ev.fields@) =~= s.update(f as int, (key@, value@)));
            },
            None => {
                b.ev.fields.push((owned(key), value));
                assert(field_views(b.ev.fields@) =~= s.push((key@, value@)));
            },
        }
        b
    }

    /// Set the message.
    pub fn message(self, m: String) -> (r: LogBuilder)
        ensures
            r@ == (LogView { message: m@, ..self@ }),
    {
        let mut b = self;
        b.ev.message = m;
        b
    }

    /// The finished line.
    pub fn event(self) -> (r: LogEvent)
        ensures
            r@ == self@,
    {
        self.ev
    }
}

/// The line sent for a connection lifecycle event through the app-wide
/// emitter: scope "connection", with the given level, connector, phase,
/// connection name and message.
pub fn emit_global(
    level: Level,
    connector: ConnectionKind,
    phase: Phase,
    connection: Option<&str>,
    message: String,
) -> (r: LogEvent)
    ensures
        r@ == (LogView {
            id: r@.id,
            ts: r@.ts,
            level,
            scope: "connection"@,
            connector: Some(connector),
            phase: Some(phase),
            code: None,
            category: None,
            message: message@,
            connection: opt_str_view(connection),
            fields: Seq::empty(),
        }),
        r@.id.len() == 36,
{
    LogBuilder::new(level, owned("connection")).connector(connector).phase(phase).connection(
        connection,
    ).message(message).event()
}

/// A plain line: level, scope, connection name and message, nothing else.
pub fn log(level: Level, scope: &str, connection: Option<&str>, message: String) -> (r: LogEvent)
    ensures
        r@ == (LogView {
            id: r@.id,
            ts: r@.ts,
            level,
            scope: scope@,
            connector: None,
            phase: None,
            code: None,
            category: None,
            message: message@,
            connection: opt_str_view(connection),
            fields: Seq::empty(),
        }),
        r@.id.len() == 36,
{
    LogBuilder::new(level, owned(scope)).connection(connection).message(message).event()
}

/// The line for a failure: an error line carrying the classification of `e`
/// (its category and, where known, its connector, phase and code), with the
/// message "`prefix`: summary".
pub fn log_error(scope: &str, connection: Option<&str>, prefix: &str, e: &Error) -> (r: LogEvent)
    ensures
        ({
            let a = with_default_hint(classified(*e));
            r@ == (LogView {
                id: r@.id,
                ts: r@.ts,
                level: Level::Error,
                scope: scope@,
                connector: a.connector,
                phase: a.phase,
                code: a.code,
                category: Some(a.category),
                message: prefix@ + ": "@ + a.summary,
                connection: opt_str_view(connection),
                fields: Seq::empty(),
            })
        }),
        r@.id.len() == 36,
{
    let a = e.to_app();
    let mut b = LogBuilder::new(Level::Error, owned(scope)).category(a.category).connection(
        connection,
    ).message(concat3(prefix, ": ", a.summary.as_str()));
    match a.connector {
        Some(c) => {
            b = b.connector(c);
        },
        None => {},
    }
    match a.phase {
        Some(p) => {
            b = b.phase(p);
        },
        None => {},
    }
    match a.code {
        Some(c) => {
            b = b.code(c);
        },
        None => {},
    }
    b.event()
}

// --- Lines forwarded from the protocol libraries ---

/// Which connector the log records of a library target belong to: `None` for
/// a target that is not forwarded, `Some(None)` for TLS lines, which FTPS and
/// S3 share.
pub open spec fn bridged(target: Seq<char>) -> Option<Option<ConnectionKind>> {
    if has_prefix(target, "russh"@) {
        Some(Some(ConnectionKind::Sftp))
    } else if has_prefix(target, "suppaftp"@) {
        Some(Some(ConnectionKind::Ftp))
    } else if has_prefix(target, "rustls"@) {
        Some(None)
    } else {
        None
    }
}

/// The connector of a forwarded library target (see [`bridged`]).
pub fn bridge_target(target: &str) -> (r: Option<Option<ConnectionKind>>)
    ensures
        r == bridged(target@),
{
    if str_starts_with(target, "russh") {
        Some(Some(ConnectionKind::Sftp))
    } else if str_starts_with(target, "suppaftp") {
        Some(Some(ConnectionKind::Ftp))
    } else if str_starts_with(target, "rustls") {
        Some(None)
    } else {
        None
    }
}

/// The level of a library log record.
#[derive(Debug, Clone, Copy, PartialEq, Eq, Structural)]
pub enum RecordLevel {
    Error,
    Warn,
    Info,
    Debug,
    Trace,
}

/// The panel level of a record level: trace lines show as debug.
pub open spec fn panel_level(l: RecordLevel) -> Level {
    match l {
        RecordLevel::Error => Level::Error,
        RecordLevel::Warn => Level::Warn,
        RecordLevel::Info => Level::Info,
        RecordLevel::Debug => Level::Debug,
        RecordLevel::Trace => Level::Debug,
    }
}

/// The panel level of a record level (see [`panel_level`]).
pub fn bridge_level(l: RecordLevel) -> (r: Level)
    ensures
        r == panel_level(l),
{
    match l {
        RecordLevel::Error => Level::Error,
        RecordLevel::Warn => Level::Warn,
        RecordLevel::Info => Level::Info,
        RecordLevel::Debug => Level::Debug,
        RecordLevel::Trace => Level::Debug,
    }
}

/// The line for a library log record with target `target`, level `level` and
/// text `text`: none for a target that is not forwarded; otherwise a
/// "protocol" line in the protocol phase, with the target as a field, and the
/// connector of the target when it has one.
pub fn bridge_event(target: &str, level: RecordLevel, text: String) -> (r: Option<LogEvent>)
    ensures
        bridged(target@) is None <==> r is None,
        r matches Some(ev) ==> ev@ == (LogView {
            id: ev@.id,
            ts: ev@.ts,
            level: panel_level(level),
            scope: "protocol"@,
            connector: bridged(target@)->0,
            phase: Some(Phase::Protocol),
            code: None,
            category: None,
            message: text@,
            connection: None,
            fields: seq![("target"@, FieldView::Text(target@))],
        }) && ev@.id.len() == 36,
{
    let connector = match bridge_target(target) {
        Some(c) => c,
        None => {
            return None;
        },
    };
    let b = LogBuilder::new(bridge_level(level), owned("protocol")).phase(Phase::Protocol).field(
        "target",
        FieldValue::Text(owned(target)),
    ).message(text);
    proof {
        reveal_strlit("target");
        assert(put_field(Seq::empty(), "target"@, FieldView::Text(target@)) =~= seq![
            ("target"@, FieldView::Text(target@)),
        ]);
    }
    let b = match connector {
        Some(c) => b.connector(c),
        None => b,
    };
    Some(b.event())
}

// --- Laws of the named fields ---

proof fn lemma_first_unique(s: FieldsView, k: Seq<char>, i: int, j: int)
    requires
        first_key_at(s, k, i),
        first_key_at(s, k, j),
    ensures
        i == j,
{
    if i < j {
        assert(s[i].0 != k);
    } else if j < i {
        assert(s[j].0 != k);
    }
}

proof fn lemma_first_exists(s: FieldsView, k: Seq<char>, j: int)
    requires
        0 <= j < s.len(),
        s[j].0 == k,
    ensures
        exists|i: int| first_key_at(s, k, i),
    decreases j,
{
    if exists|m: int| 0 <= m < j && (#[trigger] s[m]).0 == k {
        let m = choose|m: int| 0 <= m < j && (#[trigger] s[m]).0 == k;
        lemma_first_exists(s, k, m);
    } else {
        assert(first_key_at(s, k, j));
    }
}

/// A field reads back as the value it was last set to.
pub proof fn field_read_back_law(s: FieldsView, k: Seq<char>, v: FieldView)
    ensures
        field_of(put_field(s, k, v), k) == Some(v),
{
    let t = put_field(s, k, v);
    if exists|i: int| first_key_at(s, k, i) {
        let i = choose|i: int| first_key_at(s, k, i);
        assert(first_key_at(t, k, i)) by {
            assert forall|j: int| 0 <= j < i implies (#[trigger] t[j]).0 != k by {
                assert(t[j] == s[j]);
            }
        }
        let c = choose|c: int| first_key_at(t, k, c);
        lemma_first_unique(t, k, i, c);
    } else {
        let n = s.len() as int;
        assert(first_key_at(t, k, n)) by {
            assert forall|j: int| 0 <= j < n implies (#[trigger] t[j]).0 != k by {
                assert(t[j] == s[j]);
                if s[j].0 == k {
                    lemma_first_exists(s, k, j);
                }
            }
        }
        let c = choose|c: int| first_key_at(t, k, c);
        lemma_first_unique(t, k, n, c);
    }
}

/// Setting one field leaves every other field as it was.
pub proof fn field_independence_law(s: FieldsView, k: Seq<char>, v: FieldView, other: Seq<char>)
    requires
        other != k,
    ensures
        field_of(put_field(s, k, v), other) == field_of(s, other),
{
    let t = put_field(s, k, v);
    // The entries named `other` sit at the same places in `s` and `t`.
    assert forall|j: int| 0 <= j < s.len() implies ((#[trigger] t[j]).0 == other) == (s[j].0
        == other) by {
        if exists|i: int| first_key_at(s, k, i) {
            let i = choose|i: int| first_key_at(s, k, i);
            if j == i {
                assert(t[j].0 == k);
            } else {
                assert(t[j] == s[j]);
            }
        } else {
            assert(t[j] == s[j]);
        }
    }
    if exists|i: int| first_key_at(s, other, i) {
        let i = choose|i: int| first_key_at(s, other, i);
        assert(first_key_at(t, other, i)) by {
            assert(t[i].0 == other);
            assert forall|j: int| 0 <= j < i implies (#[trigger] t[j]).0 != other by {
                assert(s[j].0 != other);
            }
        }
        let c = choose|c: int| first_key_at(t, other, c);
        lemma_first_unique(t, other, i, c);
        if exists|ki: int| first_key_at(s, k, ki) {
            let ki = choose|ki: int| first_key_at(s, k, ki);
            assert(ki != i);
            assert(t[i] == s[i]);
        } else {
            assert(t[i] == s[i]);
        }
    } else {
        if exists|c: int| first_key_at(t, other, c) {
            let c = choose|c: int| first_key_at(t, other, c);
            if c < s.len() {
                lemma_first_exists(s, other, c);
            } else {
                assert(t[c].0 == k);
            }
        }
    }
}

/// Setting a field keeps the names distinct.
pub proof fn field_names_distinct_law(s: FieldsView, k: Seq<char>, v: FieldView)
    requires
        distinct_keys(s),
    ensures
        distinct_keys(put_field(s, k, v)),
{
    let t = put_field(s, k, v);
    if exists|i: int| first_key_at(s, k, i) {
        let i = choose|i: int| first_key_at(s, k, i);
        assert forall|a: int, b: int| 0 <= a < b < t.len() implies (#[trigger] t[a]).0 != (
        #[trigger] t[b]).0 by {
            if a == i {
                assert(s[a].0 != s[b].0);
            } else if b == i {
                assert(s[a].0 != s[b].0);
            } else {
                assert(s[a].0 != s[b].0);
            }
        }
    } else {
        assert forall|a: int, b: int| 0 <= a < b < t.len() implies (#[trigger] t[a]).0 != (
        #[trigger] t[b]).0 by {
            if b == s.len() {
                if s[a].0 == k {
                    lemma_first_exists(s, k, a);
                }
            } else {
                assert(s[a].0 != s[b].0);
            }
        }
    }
}

} // verus!
