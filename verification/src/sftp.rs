//! SFTP logic: how a session is opened (host, port, user, authentication
//! method), trust-on-first-use host-key checking against a known_hosts file,
//! and how SFTP failures are classified.
use crate::connections::{Connection, ConnectionKind, ConnectionSecret};
use crate::error::{AppError, AppErrorView, Error};
use crate::logging::{FieldValue, FieldView, LogBuilder, LogEvent, LogView};
use crate::taxonomy::{category_for_sftp, phase_name, sftp_category, ErrorCategory, Level, Phase};
use crate::text::{
    concat, concat3, decimal, decimal_string, first_index, is_space, is_space_char, lowercase_of,
    owned, str_eq,
};
use vstd::prelude::*;

verus! {

// ---------------------------------------------------------------------------
// Failures
// ---------------------------------------------------------------------------

/// The classified error of an SFTP failure with message `msg` during `phase`.
pub open spec fn sftp_failure_view(phase: Phase, msg: Seq<char>) -> AppErrorView {
    AppErrorView {
        connector: Some(ConnectionKind::Sftp),
        phase: Some(phase),
        detail: Some(msg),
        ..crate::error::fresh_error(
            sftp_category(phase, lowercase_of(msg)),
            "SFTP "@ + phase_name(phase) + " failed: "@ + msg,
        )
    }
}

/// Build a classified SFTP error. The SFTP library exposes status only as a
/// message, so the category comes from the text with `phase` as the fallback.
pub fn sftp_err(phase: Phase, msg: &str) -> (r: Error)
    ensures
        r matches Error::App(a) && a@ == sftp_failure_view(phase, msg@),
{
    let category = category_for_sftp(phase, msg);
    let head = concat3("SFTP ", phase.name(), " failed: ");
    Error::App(
        AppError::new(category, concat(head.as_str(), msg)).connector(ConnectionKind::Sftp).phase(
            phase,
        ).detail(owned(msg)),
    )
}

/// The remediation given when the server's host key changed.
pub open spec fn key_changed_hint() -> Seq<char> {
    "The server presented a different host key than the one previously trusted. This can indicate a man-in-the-middle attack. If the server's key was legitimately rotated, remove its entry from the known_hosts file in the app's config directory and reconnect."@
}

/// The error for a server whose host key differs from the trusted one.
pub fn host_key_changed(host: &str, detail: String) -> (r: Error)
    ensures
        r matches Error::App(a) && a@ == (AppErrorView {
            connector: Some(ConnectionKind::Sftp),
            phase: Some(Phase::Handshake),
            remediation: Some(key_changed_hint()),
            detail: Some(detail@),
            ..crate::error::fresh_error(
                ErrorCategory::Auth,
                "SFTP host key for "@ + host@ + " has changed"@,
            )
        }),
{
    Error::App(
        AppError::new(ErrorCategory::Auth, concat3("SFTP host key for ", host, " has changed")).connector(
            ConnectionKind::Sftp,
        ).phase(Phase::Handshake).remediation(
            owned(
                "The server presented a different host key than the one previously trusted. This can indicate a man-in-the-middle attack. If the server's key was legitimately rotated, remove its entry from the known_hosts file in the app's config directory and reconnect.",
            ),
        ).detail(detail),
    )
}

/// The error for a private key that could not be decoded.
pub fn key_decode_failed(text: &str, debug: String) -> (r: Error)
    ensures
        r matches Error::App(a) && a@ == (AppErrorView {
            connector: Some(ConnectionKind::Sftp),
            phase: Some(Phase::Auth),
            remediation: Some(
                "The private key could not be decoded. Check the key format and passphrase."@,
            ),
            detail: Some(debug@),
            ..crate::error::fresh_error(ErrorCategory::Auth, "SFTP key decode failed: "@ + text@)
        }),
{
    Error::App(
        AppError::new(ErrorCategory::Auth, concat("SFTP key decode failed: ", text)).connector(
            ConnectionKind::Sftp,
        ).phase(Phase::Auth).remediation(
            owned("The private key could not be decoded. Check the key format and passphrase."),
        ).detail(debug),
    )
}

/// The error for credentials the server refused.
pub fn auth_failed() -> (r: Error)
    ensures
        r matches Error::App(a) && a@ == (AppErrorView {
            connector: Some(ConnectionKind::Sftp),
            phase: Some(Phase::Auth),
            remediation: Some(
                "Check the username and password / private key for this connection."@,
            ),
            ..crate::error::fresh_error(ErrorCategory::Auth, "SFTP authentication failed"@)
        }),
{
    Error::App(
        AppError::new(ErrorCategory::Auth, owned("SFTP authentication failed")).connector(
            ConnectionKind::Sftp,
        ).phase(Phase::Auth).remediation(
            owned("Check the username and password / private key for this connection."),
        ),
    )
}

// ---------------------------------------------------------------------------
// Opening a session
// ---------------------------------------------------------------------------

/// How the session authenticates.
#[derive(Debug, Clone)]
pub enum SftpAuth {
    /// With a private key (PEM) and its optional passphrase.
    PublicKey { key_pem: String, passphrase: Option<String> },
    /// With a password (empty when none was saved).
    Password(String),
}

/// Everything needed to open an SFTP session.
pub struct SessionPlan {
    pub host: String,
    pub port: u16,
    pub user: String,
    pub auth: SftpAuth,
}

/// The error for a connection missing a required field.
pub open spec fn missing_field_view(what: Seq<char>) -> AppErrorView {
    AppErrorView {
        connector: Some(ConnectionKind::Sftp),
        phase: Some(Phase::Config),
        ..crate::error::fresh_error(ErrorCategory::Config, what)
    }
}

/// How to open `c`: host and user are required (empty counts as missing),
/// the port defaults to 22, and a non-empty saved private key selects
/// public-key authentication, otherwise the password is used.
pub fn session_plan(c: &Connection, s: &ConnectionSecret) -> (r: Result<SessionPlan, Error>)
    ensures
        crate::s3::filled(c.host) is None ==> (r matches Err(Error::App(a)) && a@
            == missing_field_view("SFTP: missing host"@)),
        crate::s3::filled(c.host) is Some && crate::s3::filled(c.username) is None ==> (r matches Err(
            Error::App(a),
        ) && a@ == missing_field_view("SFTP: missing username"@)),
        crate::s3::filled(c.host) matches Some(h) ==> (crate::s3::filled(c.username) matches Some(u)
            ==> (r matches Ok(p) && p.host@ == h && p.user@ == u && p.port == (match c.port {
            Some(x) => x,
            None => 22u16,
        }) && (match crate::s3::filled(s.private_key_pem) {
            Some(k) => p.auth matches SftpAuth::PublicKey { key_pem, passphrase } && key_pem@ == k
                && passphrase == s.passphrase,
            None => p.auth matches SftpAuth::Password(pw) && pw@ == (match s.password {
                Some(x) => x@,
                None => Seq::<char>::empty(),
            }),
        }))),
{
    let host = match &c.host {
        Some(h) => if h.as_str().is_empty() {
            None
        } else {
            Some(h.clone())
        },
        None => None,
    };
    let host = match host {
        Some(h) => h,
        None => {
            return Err(
                Error::App(
                    AppError::new(ErrorCategory::Config, owned("SFTP: missing host")).connector(
                        ConnectionKind::Sftp,
                    ).phase(Phase::Config),
                ),
            );
        },
    };
    let user = match &c.username {
        Some(u) => if u.as_str().is_empty() {
            None
        } else {
            Some(u.clone())
        },
        None => None,
    };
    let user = match user {
        Some(u) => u,
        None => {
            return Err(
                Error::App(
                    AppError::new(ErrorCategory::Config, owned("SFTP: missing username")).connector(
                        ConnectionKind::Sftp,
                    ).phase(Phase::Config),
                ),
            );
        },
    };
    let port = match c.port {
        Some(p) => p,
        None => 22,
    };
    let key = match &s.private_key_pem {
        Some(k) => if k.as_str().is_empty() {
            None
        } else {
            Some(k.clone())
        },
        None => None,
    };
    let auth = match key {
        Some(k) => SftpAuth::PublicKey {
            key_pem: k,
            passphrase: crate::connections::copy_opt(&s.passphrase),
        },
        None => SftpAuth::Password(
            match &s.password {
                Some(p) => p.clone(),
                None => String::new(),
            },
        ),
    };
    Ok(SessionPlan { host, port, user, auth })
}

impl SessionPlan {
    /// The authentication method as logged.
    pub fn method(&self) -> (r: &'static str)
        ensures
            self.auth is PublicKey ==> r@ == "publickey"@,
            self.auth is Password ==> r@ == "password"@,
    {
        match &self.auth {
            SftpAuth::PublicKey { .. } => "publickey",
            SftpAuth::Password(_) => "password",
        }
    }
}

// ---------------------------------------------------------------------------
// Known hosts (trust on first use)
// ---------------------------------------------------------------------------

/// The host field of a known_hosts line, OpenSSH style: the bare host for
/// port 22, `[host]:port` otherwise.
pub open spec fn host_pattern_of(host: Seq<char>, port: u16) -> Seq<char> {
    if port == 22 {
        host
    } else {
        "["@ + host + "]:"@ + decimal(port as nat)
    }
}

/// The known_hosts host field for `host` and `port`.
pub fn host_pattern(host: &str, port: u16) -> (r: String)
    ensures
        r@ == host_pattern_of(host@, port),
{
    if port == 22 {
        owned(host)
    } else {
        let p = decimal_string(port as u64);
        let head = concat3("[", host, "]:");
        concat(head.as_str(), p.as_str())
    }
}

/// The outcome of checking a presented host key against known_hosts.
#[derive(Debug, Clone, Copy, PartialEq, Eq, Structural)]
pub enum HostKeyStatus {
    /// The key matches the one stored for this host and algorithm.
    Known,
    /// Nothing was stored for this host and algorithm; the key is accepted
    /// and recorded now.
    FirstUse,
    /// A different key is stored for this host and algorithm.
    Mismatch,
}

/// The pieces of `s` between the occurrences of `c` (there is always one more
/// piece than there are occurrences).
pub open spec fn pieces(s: Seq<char>, c: char) -> Seq<Seq<char>>
    decreases s.len(),
{
    match first_index(s, c) {
        Some(i) => if 0 <= i < s.len() {
            seq![s.take(i)] + pieces(s.skip(i + 1), c)
        } else {
            seq![s]
        },
        None => seq![s],
    }
}

/// A line without one trailing carriage return.
pub open spec fn without_cr(l: Seq<char>) -> Seq<char> {
    if l.len() > 0 && l.last() == '\r' {
        l.drop_last()
    } else {
        l
    }
}

/// The lines of a text as `str::lines` yields them: split at '\n', a '\r'
/// before a '\n' dropped, and no empty line after a final '\n'.
pub open spec fn text_lines(s: Seq<char>) -> Seq<Seq<char>> {
    let ps = pieces(s, '\n');
    let body = ps.drop_last().map_values(|l: Seq<char>| without_cr(l));
    if ps.last().len() == 0 {
        body
    } else {
        body.push(ps.last())
    }
}

/// How many non-whitespace characters `s` starts with.
pub open spec fn word_len(s: Seq<char>) -> nat
    decreases s.len(),
{
    if s.len() == 0 || is_space(s[0]) {
        0
    } else {
        1 + word_len(s.drop_first())
    }
}

/// The whitespace-separated words of `s` (what `split_whitespace` yields).
pub open spec fn words(s: Seq<char>) -> Seq<Seq<char>>
    decreases s.len(),
{
    if s.len() == 0 {
        Seq::empty()
    } else if is_space(s[0]) {
        words(s.drop_first())
    } else {
        proof {
            lemma_word_len_bound(s);
        }
        seq![s.take(word_len(s) as int)] + words(s.skip(word_len(s) as int))
    }
}

pub proof fn lemma_word_len_bound(s: Seq<char>)
    ensures
        word_len(s) <= s.len(),
        s.len() > 0 && !is_space(s[0]) ==> word_len(s) >= 1,
        forall|k: int| 0 <= k < word_len(s) ==> !is_space(#[trigger] s[k]),
        word_len(s) < s.len() ==> is_space(s[word_len(s) as int]),
    decreases s.len(),
{
    if s.len() > 0 && !is_space(s[0]) {
        lemma_word_len_bound(s.drop_first());
        assert forall|k: int| 0 <= k < word_len(s) implies !is_space(#[trigger] s[k]) by {
            if k > 0 {
                assert(s[k] == s.drop_first()[k - 1]);
            }
        }
    }
}

/// What the first known_hosts line for the host and algorithm says about the
/// presented key; `None` when no line names them. A line counts when it has
/// at least three words and its first two are the host field and algorithm.
pub open spec fn verdict(
    lines: Seq<Seq<char>>,
    pattern: Seq<char>,
    algo: Seq<char>,
    presented: Seq<char>,
) -> Option<HostKeyStatus>
    decreases lines.len(),
{
    if lines.len() == 0 {
        None
    } else {
        let w = words(lines[0]);
        if w.len() >= 3 && w[0] == pattern && w[1] == algo {
            Some(
                if w[2] == presented {
                    HostKeyStatus::Known
                } else {
                    HostKeyStatus::Mismatch
                },
            )
        } else {
            verdict(lines.drop_first(), pattern, algo, presented)
        }
    }
}

/// The known_hosts content after recording a key: the old content, a line
/// break if it lacks a final one, then "host algo key" and a line break.
pub open spec fn recorded(data: Seq<char>, pattern: Seq<char>, algo: Seq<char>, presented: Seq<char>) -> Seq<
    char,
> {
    let base = if data.len() > 0 && data.last() != '\n' {
        data.push('\n')
    } else {
        data
    };
    base + pattern + " "@ + algo + " "@ + presented + "\n"@
}

proof fn lemma_word_len_skip(s: Seq<char>, i: int, j: int)
    requires
        0 <= i <= j <= s.len(),
        forall|k: int| i <= k < j ==> !is_space(#[trigger] s[k]),
        j == s.len() || is_space(s[j]),
    ensures
        word_len(s.skip(i)) == j - i,
    decreases j - i,
{
    if i < j {
        assert(s.skip(i)[0] == s[i]);
        assert(s.skip(i).drop_first() == s.skip(i + 1));
        lemma_word_len_skip(s, i + 1, j);
    } else {
        if j < s.len() {
            assert(s.skip(i)[0] == s[j]);
        }
    }
}

/// The whitespace-separated words of `s`.
pub fn words_of(s: &str) -> (r: Vec<String>)
    ensures
        crate::remote::string_views(r@) == words(s@),
{
    let a = crate::text::chars_of(s);
    let mut out: Vec<String> = Vec::new();
    let mut i: usize = 0;
    proof {
        assert(s@.skip(0) == s@);
        assert(crate::remote::string_views(out@) =~= Seq::<Seq<char>>::empty());
        assert(Seq::<Seq<char>>::empty() + words(s@) =~= words(s@));
    }
    while i < a.len()
        invariant
            i <= a.len(),
            a@ == s@,
            crate::remote::string_views(out@) + words(s@.skip(i as int)) == words(s@),
        decreases a.len() - i,
    {
        if is_space_char(a[i]) {
            proof {
                assert(s@.skip(i as int)[0] == s@[i as int]);
                assert(s@.skip(i as int).drop_first() == s@.skip(i + 1));
            }
            i = i + 1;
        } else {
            let mut j: usize = i;
            while j < a.len() && !is_space_char(a[j])
                invariant
                    i <= j <= a.len(),
                    a@ == s@,
                    forall|k: int| i <= k < j ==> !is_space(#[trigger] s@[k]),
                decreases a.len() - j,
            {
                j = j + 1;
            }
            let w = crate::text::from_range(&a, i, j);
            proof {
                lemma_word_len_skip(s@, i as int, j as int);
                let t = s@.skip(i as int);
                assert(t[0] == s@[i as int]);
                assert(t.take((j - i) as int) == s@.subrange(i as int, j as int));
                assert(t.skip((j - i) as int) == s@.skip(j as int));
                assert(words(t) == seq![t.take(word_len(t) as int)] + words(t.skip(word_len(t) as int)));
                assert(crate::remote::string_views(out@.push(w)) =~= crate::remote::string_views(
                    out@,
                ).push(w@));
                assert(crate::remote::string_views(out@).push(w@) + words(s@.skip(j as int))
                    =~= crate::remote::string_views(out@) + words(t));
            }
            out.push(w);
            i = j;
        }
    }
    proof {
        assert(s@.skip(a.len() as int) == Seq::<char>::empty());
        assert(crate::remote::string_views(out@) + Seq::<Seq<char>>::empty() =~= crate::remote::string_views(out@));
    }
    out
}

/// Whether a known_hosts line names `pattern` and `algo`, and if so whether
/// its key is `presented`.
fn line_verdict(line: &str, pattern: &str, algo: &str, presented: &str) -> (r: Option<
    HostKeyStatus,
>)
    ensures
        ({
            let w = words(line@);
            if w.len() >= 3 && w[0] == pattern@ && w[1] == algo@ {
                r == Some(
                    if w[2] == presented@ {
                        HostKeyStatus::Known
                    } else {
                        HostKeyStatus::Mismatch
                    },
                )
            } else {
                r is None
            }
        }),
{
    let w = words_of(line);
    proof {
        if w@.len() >= 3 {
            assert(crate::remote::string_views(w@)[0] == w@[0]@);
            assert(crate::remote::string_views(w@)[1] == w@[1]@);
            assert(crate::remote::string_views(w@)[2] == w@[2]@);
        }
    }
    if w.len() >= 3 && str_eq(w[0].as_str(), pattern) && str_eq(w[1].as_str(), algo) {
        if str_eq(w[2].as_str(), presented) {
            Some(HostKeyStatus::Known)
        } else {
            Some(HostKeyStatus::Mismatch)
        }
    } else {
        None
    }
}

/// Check `presented` (an `algo` key, base64) for the host field `pattern`
/// against known_hosts content `data`. The first line naming the host and
/// algorithm decides: same key is known, a different one a mismatch. With no
/// such line the key is accepted on first use, and the content to write back
/// (with the new line recorded) is returned alongside.
pub fn check_known_host(data: &str, pattern: &str, algo: &str, presented: &str) -> (r: (
    HostKeyStatus,
    Option<String>,
))
    ensures
        match verdict(text_lines(data@), pattern@, algo@, presented@) {
            Some(v) => r.0 == v && r.1 is None,
            None => r.0 == HostKeyStatus::FirstUse && (r.1 matches Some(t) && t@ == recorded(
                data@,
                pattern@,
                algo@,
                presented@,
            )),
        },
{
    let ghost all = text_lines(data@);
    let mut rest = owned(data);
    let ghost mut seen: Seq<Seq<char>> = Seq::empty();
    let mut done = false;
    while !done
        invariant
            all == text_lines(data@),
            verdict(seen, pattern@, algo@, presented@) is None,
            done ==> verdict(all, pattern@, algo@, presented@) is None,
            !done ==> all == seen + text_lines(rest@),
        decreases rest@.len() + (if done {
            0int
        } else {
            1int
        }),
    {
        proof {
            crate::text::lemma_first_index_bound(rest@, '\n');
        }
        match crate::text::split_once_char(rest.as_str(), '\n') {
            Some((line, next)) => {
                let stripped = if crate::text::ends_with_char(line.as_str(), '\r') {
                    let v = crate::text::chars_of(line.as_str());
                    crate::text::from_range(&v, 0, v.len() - 1)
                } else {
                    line.clone()
                };
                proof {
                    lemma_text_lines_step(rest@);
                    assert(stripped@ == without_cr(line@));
                }
                match line_verdict(stripped.as_str(), pattern, algo, presented) {
                    Some(v) => {
                        proof {
                            lemma_verdict_append(seen, text_lines(rest@), pattern@, algo@, presented@);
                            let tl = text_lines(rest@);
                            assert(tl[0] == stripped@);
                        }
                        return (v, None);
                    },
                    None => {
                        proof {
                            lemma_verdict_single(stripped@, pattern@, algo@, presented@);
                            lemma_verdict_append(seen, seq![stripped@], pattern@, algo@, presented@);
                            assert(seen + seq![stripped@] == seen.push(stripped@));
                            assert(seen + text_lines(rest@) == seen.push(stripped@) + text_lines(
                                next@,
                            ));
                            seen = seen.push(stripped@);
                        }
                        rest = next;
                    },
                }
            },
            None => {
                proof {
                    lemma_text_lines_last(rest@);
                }
                if !rest.as_str().is_empty() {
                    match line_verdict(rest.as_str(), pattern, algo, presented) {
                        Some(v) => {
                            proof {
                                lemma_verdict_single(rest@, pattern@, algo@, presented@);
                                lemma_verdict_append(
                                    seen,
                                    text_lines(rest@),
                                    pattern@,
                                    algo@,
                                    presented@,
                                );
                            }
                            return (v, None);
                        },
                        None => {
                            proof {
                                lemma_verdict_single(rest@, pattern@, algo@, presented@);
                                lemma_verdict_append(
                                    seen,
                                    text_lines(rest@),
                                    pattern@,
                                    algo@,
                                    presented@,
                                );
                            }
                        },
                    }
                } else {
                    proof {
                        assert(all == seen + Seq::<Seq<char>>::empty());
                        assert(all =~= seen);
                    }
                }
                done = true;
            },
        }
    }
    let needs_break = !data.is_empty() && !crate::text::ends_with_char(data, '\n');
    let base = if needs_break {
        concat(data, "\n")
    } else {
        owned(data)
    };
    let l1 = concat3(base.as_str(), pattern, " ");
    let l2 = concat3(l1.as_str(), algo, " ");
    let out = concat3(l2.as_str(), presented, "\n");
    proof {
        reveal_strlit("\n");
        if needs_break {
            assert(data@ + "\n"@ == data@.push('\n'));
        }
    }
    (HostKeyStatus::FirstUse, Some(out))
}

proof fn lemma_verdict_single(
    l: Seq<char>,
    pattern: Seq<char>,
    algo: Seq<char>,
    presented: Seq<char>,
)
    ensures
        ({
            let w = words(l);
            verdict(seq![l], pattern, algo, presented) == if w.len() >= 3 && w[0] == pattern && w[1]
                == algo {
                Some(
                    if w[2] == presented {
                        HostKeyStatus::Known
                    } else {
                        HostKeyStatus::Mismatch
                    },
                )
            } else {
                None
            }
        }),
{
    assert(seq![l][0] == l);
    assert(seq![l].drop_first() =~= Seq::<Seq<char>>::empty());
    assert(verdict(Seq::<Seq<char>>::empty(), pattern, algo, presented) is None);
}

proof fn lemma_verdict_append(
    a: Seq<Seq<char>>,
    b: Seq<Seq<char>>,
    pattern: Seq<char>,
    algo: Seq<char>,
    presented: Seq<char>,
)
    requires
        verdict(a, pattern, algo, presented) is None,
    ensures
        verdict(a + b, pattern, algo, presented) == verdict(b, pattern, algo, presented),
    decreases a.len(),
{
    if a.len() > 0 {
        assert((a + b)[0] == a[0]);
        assert((a + b).drop_first() == a.drop_first() + b);
        lemma_verdict_append(a.drop_first(), b, pattern, algo, presented);
    } else {
        assert(a + b == b);
    }
}

proof fn lemma_text_lines_step(s: Seq<char>)
    requires
        first_index(s, '\n') is Some,
    ensures
        ({
            let i = first_index(s, '\n')->0;
            text_lines(s) == seq![without_cr(s.take(i))] + text_lines(s.skip(i + 1))
        }),
{
    crate::text::lemma_first_index_bound(s, '\n');
    let i = first_index(s, '\n')->0;
    let rest = pieces(s.skip(i + 1), '\n');
    lemma_pieces_nonempty(s.skip(i + 1));
    let ps = pieces(s, '\n');
    assert(ps == seq![s.take(i)] + rest);
    assert(ps.last() == rest.last());
    assert(ps.drop_last() == seq![s.take(i)] + rest.drop_last());
    assert(ps.drop_last().map_values(|l: Seq<char>| without_cr(l)) =~= seq![without_cr(s.take(i))]
        + rest.drop_last().map_values(|l: Seq<char>| without_cr(l)));
    if rest.last().len() == 0 {
    } else {
        assert(seq![without_cr(s.take(i))] + rest.drop_last().map_values(
            |l: Seq<char>| without_cr(l),
        ).push(rest.last()) =~= (seq![without_cr(s.take(i))] + rest.drop_last().map_values(
            |l: Seq<char>| without_cr(l),
        )).push(rest.last()));
    }
}

proof fn lemma_text_lines_last(s: Seq<char>)
    requires
        first_index(s, '\n') is None,
    ensures
        s.len() == 0 ==> text_lines(s) == Seq::<Seq<char>>::empty(),
        s.len() > 0 ==> text_lines(s) == seq![s],
{
    let ps = pieces(s, '\n');
    assert(ps == seq![s]);
    assert(ps.drop_last() =~= Seq::<Seq<char>>::empty());
    assert(ps.drop_last().map_values(|l: Seq<char>| without_cr(l)) =~= Seq::<Seq<char>>::empty());
    if s.len() > 0 {
        assert(Seq::<Seq<char>>::empty().push(s) =~= seq![s]);
    }
}

proof fn lemma_pieces_nonempty(s: Seq<char>)
    ensures
        pieces(s, '\n').len() >= 1,
    decreases s.len(),
{
    crate::text::lemma_first_index_bound(s, '\n');
    match first_index(s, '\n') {
        Some(i) => {
            lemma_pieces_nonempty(s.skip(i + 1));
        },
        None => {},
    }
}


// ---------------------------------------------------------------------------
// The host-key decision as logged
// ---------------------------------------------------------------------------

/// The level and wording of the log line for a host-key decision.
pub open spec fn host_key_verdict(status: HostKeyStatus) -> (Level, Seq<char>) {
    match status {
        HostKeyStatus::Known => (Level::Debug, "known host key verified"@),
        HostKeyStatus::FirstUse => (Level::Info, "host key accepted on first use (TOFU)"@),
        HostKeyStatus::Mismatch => (Level::Warn, "host key MISMATCH \u{2014} rejecting connection"@),
    }
}

/// Whether the connection goes on after the host-key check: every outcome
/// but a mismatch.
pub fn key_accepted(status: HostKeyStatus) -> (r: bool)
    ensures
        r == !(status is Mismatch),
{
    match status {
        HostKeyStatus::Mismatch => false,
        _ => true,
    }
}

/// The Debug Log line that reports the server's host key (its algorithm and
/// SHA-256 fingerprint, both public) and the trust decision for it, for the
/// connection named `name`.
pub fn host_key_event(status: HostKeyStatus, name: &str, algo: &str, fingerprint: &str) -> (r:
    LogEvent)
    ensures
        r@ == (LogView {
            id: r@.id,
            ts: r@.ts,
            level: host_key_verdict(status).0,
            scope: "connection"@,
            connector: Some(ConnectionKind::Sftp),
            phase: Some(Phase::Handshake),
            code: None,
            category: None,
            message: "Server host key "@ + algo@ + " "@ + fingerprint@ + ": "@ + host_key_verdict(
                status,
            ).1,
            connection: Some(name@),
            fields: seq![
                ("algorithm"@, FieldView::Text(algo@)),
                ("fingerprint"@, FieldView::Text(fingerprint@)),
            ],
        }),
        r@.id.len() == 36,
{
    let (level, verdict) = match status {
        HostKeyStatus::Known => (Level::Debug, "known host key verified"),
        HostKeyStatus::FirstUse => (Level::Info, "host key accepted on first use (TOFU)"),
        HostKeyStatus::Mismatch => (Level::Warn, "host key MISMATCH \u{2014} rejecting connection"),
    };
    let head = concat3("Server host key ", algo, " ");
    let body = concat3(head.as_str(), fingerprint, ": ");
    let message = concat(body.as_str(), verdict);
    let b = LogBuilder::new(level, owned("connection")).connector(ConnectionKind::Sftp).phase(
        Phase::Handshake,
    ).connection(Some(name)).field("algorithm", FieldValue::Text(owned(algo)));
    proof {
        reveal_strlit("algorithm");
        reveal_strlit("fingerprint");
        assert(crate::logging::put_field(Seq::empty(), "algorithm"@, FieldView::Text(algo@))
            =~= seq![("algorithm"@, FieldView::Text(algo@))]);
        let s1 = seq![("algorithm"@, FieldView::Text(algo@))];
        assert(s1[0].0[0] != "fingerprint"@[0]);
        assert(!exists|i: int| crate::logging::first_key_at(s1, "fingerprint"@, i));
        assert(crate::logging::put_field(s1, "fingerprint"@, FieldView::Text(fingerprint@))
            =~= s1.push(("fingerprint"@, FieldView::Text(fingerprint@))));
    }
    let r = b.field("fingerprint", FieldValue::Text(owned(fingerprint))).message(message).event();
    assert(r@.message == "Server host key "@ + algo@ + " "@ + fingerprint@ + ": "@ + host_key_verdict(status).1);
    assert(r@.fields == seq![
                ("algorithm"@, FieldView::Text(algo@)),
                ("fingerprint"@, FieldView::Text(fingerprint@)),
            ]);
    r
}


// ---------------------------------------------------------------------------
// Trust on first use
// ---------------------------------------------------------------------------

/// A single known_hosts field: nonempty, with no whitespace in it.
pub open spec fn is_word(w: Seq<char>) -> bool {
    w.len() > 0 && forall|k: int| 0 <= k < w.len() ==> !is_space(#[trigger] w[k])
}

proof fn lemma_first_index_concat(u: Seq<char>, v: Seq<char>, c: char)
    requires
        first_index(u, c) is Some,
    ensures
        first_index(u + v, c) == first_index(u, c),
    decreases u.len(),
{
    assert((u + v)[0] == u[0]);
    if u[0] != c {
        assert((u + v).drop_first() == u.drop_first() + v);
        lemma_first_index_concat(u.drop_first(), v, c);
    }
}

proof fn lemma_first_index_after(u: Seq<char>, v: Seq<char>, c: char)
    requires
        first_index(u, c) is None,
    ensures
        first_index(u + v, c) == (match first_index(v, c) {
            Some(j) => Some(j + u.len()),
            None => None::<int>,
        }),
    decreases u.len(),
{
    if u.len() == 0 {
        assert(u + v == v);
    } else {
        assert((u + v)[0] == u[0]);
        assert((u + v).drop_first() == u.drop_first() + v);
        lemma_first_index_after(u.drop_first(), v, c);
    }
}

proof fn lemma_pieces_concat(u: Seq<char>, v: Seq<char>)
    ensures
        pieces(u + v, '\n') == pieces(u, '\n').drop_last() + pieces(pieces(u, '\n').last() + v, '\n'),
    decreases u.len(),
{
    crate::text::lemma_first_index_bound(u, '\n');
    match first_index(u, '\n') {
        Some(i) => {
            lemma_first_index_concat(u, v, '\n');
            let u2 = u.skip(i + 1);
            assert((u + v).take(i) == u.take(i));
            assert((u + v).skip(i + 1) == u2 + v);
            lemma_pieces_concat(u2, v);
            lemma_pieces_nonempty(u2);
            let p2 = pieces(u2, '\n');
            assert(pieces(u, '\n') == seq![u.take(i)] + p2);
            assert((seq![u.take(i)] + p2).drop_last() == seq![u.take(i)] + p2.drop_last());
            assert((seq![u.take(i)] + p2).last() == p2.last());
            assert(pieces(u + v, '\n') == seq![u.take(i)] + pieces(u2 + v, '\n'));
            assert(seq![u.take(i)] + (p2.drop_last() + pieces(p2.last() + v, '\n')) == (seq![
                u.take(i),
            ] + p2.drop_last()) + pieces(p2.last() + v, '\n'));
        },
        None => {
            assert(pieces(u, '\n') == seq![u]);
            assert(seq![u].drop_last() + pieces(u + v, '\n') == pieces(u + v, '\n'));
        },
    }
}

proof fn lemma_pieces_last(s: Seq<char>)
    ensures
        first_index(pieces(s, '\n').last(), '\n') is None,
    decreases s.len(),
{
    crate::text::lemma_first_index_bound(s, '\n');
    match first_index(s, '\n') {
        Some(i) => {
            lemma_pieces_nonempty(s.skip(i + 1));
            lemma_pieces_last(s.skip(i + 1));
            assert((seq![s.take(i)] + pieces(s.skip(i + 1), '\n')).last() == pieces(
                s.skip(i + 1),
                '\n',
            ).last());
        },
        None => {},
    }
}

proof fn lemma_pieces_line(l: Seq<char>)
    requires
        first_index(l, '\n') is None,
    ensures
        pieces(l.push('\n'), '\n') == seq![l, Seq::<char>::empty()],
{
    lemma_first_index_after(l, seq!['\n'], '\n');
    assert(l + seq!['\n'] == l.push('\n'));
    let s = l.push('\n');
    let n = l.len() as int;
    assert(s.take(n) == l);
    assert(s.skip(n + 1) =~= Seq::<char>::empty());
    assert(first_index(Seq::<char>::empty(), '\n') is None);
    assert(pieces(Seq::<char>::empty(), '\n') == seq![Seq::<char>::empty()]);
}

proof fn lemma_word_len_drop_space(s: Seq<char>)
    requires
        s.len() > 0,
        is_space(s.last()),
    ensures
        word_len(s.drop_last()) == word_len(s),
    decreases s.len(),
{
    let t = s.drop_last();
    if !is_space(s[0]) {
        assert(s.len() >= 2);
        assert(t[0] == s[0]);
        assert(t.drop_first() == s.drop_first().drop_last());
        assert(s.drop_first().last() == s.last());
        lemma_word_len_drop_space(s.drop_first());
    } else if t.len() > 0 {
        assert(t[0] == s[0]);
    }
}

proof fn lemma_words_drop_space(s: Seq<char>)
    requires
        s.len() > 0,
        is_space(s.last()),
    ensures
        words(s.drop_last()) == words(s),
    decreases s.len(),
{
    let t = s.drop_last();
    if s.len() == 1 {
        assert(s.drop_first().len() == 0);
        assert(words(s.drop_first()) == Seq::<Seq<char>>::empty());
        assert(t.len() == 0);
    } else if is_space(s[0]) {
        assert(t[0] == s[0]);
        assert(t.drop_first() == s.drop_first().drop_last());
        assert(s.drop_first().last() == s.last());
        lemma_words_drop_space(s.drop_first());
        assert(words(t) == words(t.drop_first()));
    } else {
        lemma_word_len_drop_space(s);
        lemma_word_len_bound(s);
        let w = word_len(s) as int;
        assert(w < s.len()) by {
            if w == s.len() {
                assert(!is_space(s[w - 1]));
            }
        }
        assert(t[0] == s[0]);
        assert(t.take(w) == s.take(w));
        assert(t.skip(w) == s.skip(w).drop_last());
        assert(s.skip(w).last() == s.last());
        lemma_words_drop_space(s.skip(w));
        assert(!is_space(t[0]));
        assert(words(t) == seq![t.take(w)] + words(t.skip(w)));
    }
}

proof fn lemma_words_word_then(w: Seq<char>, rest: Seq<char>)
    requires
        is_word(w),
        rest.len() == 0 || is_space(rest[0]),
    ensures
        words(w + rest) == seq![w] + words(rest),
{
    let s = w + rest;
    let n = w.len() as int;
    assert forall|k: int| 0 <= k < n implies !is_space(#[trigger] s[k]) by {
        assert(s[k] == w[k]);
    }
    if n < s.len() {
        assert(s[n] == rest[0]);
    }
    lemma_word_len_skip(s, 0, n);
    assert(s.skip(0) == s);
    assert(s.take(n) == w);
    assert(s.skip(n) == rest);
    assert(s[0] == w[0]);
}

proof fn lemma_words_space_then(x: Seq<char>)
    ensures
        words(seq![' '] + x) == words(x),
{
    let s = seq![' '] + x;
    assert(s[0] == ' ');
    assert(s.drop_first() == x);
}

proof fn lemma_line_words(p: Seq<char>, a: Seq<char>, k: Seq<char>)
    requires
        is_word(p),
        is_word(a),
        is_word(k),
    ensures
        words(p + " "@ + a + " "@ + k) == seq![p, a, k],
{
    reveal_strlit(" ");
    let sp = seq![' '];
    lemma_words_word_then(k, Seq::empty());
    assert(k + Seq::<char>::empty() == k);
    assert(words(Seq::<char>::empty()) == Seq::<Seq<char>>::empty());
    let r3 = sp + k;
    lemma_words_space_then(k);
    let r2 = a + r3;
    assert(r3[0] == ' ');
    lemma_words_word_then(a, r3);
    let r1 = sp + r2;
    lemma_words_space_then(r2);
    let r0 = p + r1;
    assert(r1[0] == ' ');
    lemma_words_word_then(p, r1);
    assert(p + " "@ + a + " "@ + k == r0);
    assert(seq![p] + (seq![a] + (seq![k] + Seq::<Seq<char>>::empty())) == seq![p, a, k]);
}

proof fn lemma_verdict_prefix(
    a: Seq<Seq<char>>,
    b: Seq<Seq<char>>,
    pattern: Seq<char>,
    algo: Seq<char>,
    presented: Seq<char>,
)
    requires
        verdict(a + b, pattern, algo, presented) is None,
    ensures
        verdict(a, pattern, algo, presented) is None,
        verdict(b, pattern, algo, presented) is None,
    decreases a.len(),
{
    if a.len() == 0 {
        assert(a + b == b);
    } else {
        assert((a + b)[0] == a[0]);
        assert((a + b).drop_first() == a.drop_first() + b);
        lemma_verdict_prefix(a.drop_first(), b, pattern, algo, presented);
    }
}

proof fn lemma_verdict_any_key(
    lines: Seq<Seq<char>>,
    pattern: Seq<char>,
    algo: Seq<char>,
    presented: Seq<char>,
    other: Seq<char>,
)
    requires
        verdict(lines, pattern, algo, presented) is None,
    ensures
        verdict(lines, pattern, algo, other) is None,
    decreases lines.len(),
{
    if lines.len() > 0 {
        lemma_verdict_any_key(lines.drop_first(), pattern, algo, presented, other);
    }
}

/// Breaking the last line of a text that does not end in a line break leaves
/// its verdict as it was.
proof fn lemma_verdict_line_break(data: Seq<char>, pattern: Seq<char>, algo: Seq<char>, key: Seq<char>)
    requires
        data.len() > 0,
        data.last() != '\n',
        verdict(text_lines(data), pattern, algo, key) is None,
    ensures
        verdict(text_lines(data.push('\n')), pattern, algo, key) is None,
{
    let ps = pieces(data, '\n');
    let last = ps.last();
    lemma_pieces_nonempty(data);
    lemma_pieces_last(data);
    lemma_pieces_concat(data, seq!['\n']);
    assert(data + seq!['\n'] == data.push('\n'));
    assert(last + seq!['\n'] == last.push('\n'));
    lemma_pieces_line(last);
    let d = ps.drop_last();
    let ps2 = pieces(data.push('\n'), '\n');
    assert(ps2 == d + seq![last, Seq::<char>::empty()]);
    assert(ps2.last().len() == 0);
    assert(ps2.drop_last() == d.push(last));
    let dm = d.map_values(|l: Seq<char>| without_cr(l));
    assert(text_lines(data.push('\n')) == dm + seq![without_cr(last)]) by {
        assert(d.push(last).map_values(|l: Seq<char>| without_cr(l)) =~= dm + seq![without_cr(last)]);
    }
    // The old last line says nothing about the host.
    let w = words(last);
    if last.len() > 0 {
        assert(text_lines(data) == dm + seq![last]) by {
            assert(dm.push(last) =~= dm + seq![last]);
        }
        lemma_verdict_prefix(dm, seq![last], pattern, algo, key);
        lemma_verdict_single(last, pattern, algo, key);
        if last.last() == '\r' {
            lemma_words_drop_space(last);
        }
        lemma_verdict_single(without_cr(last), pattern, algo, key);
    } else {
        assert(text_lines(data) == dm);
        assert(without_cr(last) == last);
        assert(words(last) == Seq::<Seq<char>>::empty());
        lemma_verdict_single(last, pattern, algo, key);
    }
    lemma_verdict_append(dm, seq![without_cr(last)], pattern, algo, key);
}

/// Trust on first use: when known_hosts says nothing about a host and
/// algorithm, recording the presented key makes the next check of the same key
/// find it known, and of any other key find a mismatch. The host field,
/// algorithm and key are single words (no whitespace), as written to the file.
pub proof fn tofu_law(
    data: Seq<char>,
    pattern: Seq<char>,
    algo: Seq<char>,
    presented: Seq<char>,
    other: Seq<char>,
)
    requires
        verdict(text_lines(data), pattern, algo, presented) is None,
        is_word(pattern),
        is_word(algo),
        is_word(presented),
    ensures
        verdict(text_lines(recorded(data, pattern, algo, presented)), pattern, algo, presented)
            == Some(HostKeyStatus::Known),
        other != presented ==> verdict(
            text_lines(recorded(data, pattern, algo, presented)),
            pattern,
            algo,
            other,
        ) == Some(HostKeyStatus::Mismatch),
{
    reveal_strlit(" ");
    reveal_strlit("\n");
    let line = pattern + " "@ + algo + " "@ + presented;
    let base = if data.len() > 0 && data.last() != '\n' {
        data.push('\n')
    } else {
        data
    };
    // The new line holds no line break and does not end in whitespace.
    assert forall|i: int| 0 <= i < line.len() implies #[trigger] line[i] != '\n' by {
        let n1 = pattern.len() as int;
        let n2 = n1 + 1 + algo.len();
        if i < n1 {
            assert(line[i] == pattern[i]);
        } else if i == n1 {
            assert(line[i] == ' ');
        } else if i < n2 {
            assert(line[i] == algo[i - n1 - 1]);
        } else if i == n2 {
            assert(line[i] == ' ');
        } else {
            assert(line[i] == presented[i - n2 - 1]);
        }
    }
    crate::text::lemma_first_index_bound(line, '\n');
    assert(line.last() == presented.last());
    assert(without_cr(line) == line);
    // The content before the new line ends at a line break (or is empty).
    lemma_pieces_nonempty(base);
    let pb = pieces(base, '\n');
    assert(pb.last().len() == 0) by {
        if base.len() == 0 {
            assert(first_index(base, '\n') is None);
        } else {
            let b0 = base.drop_last();
            assert(base == b0 + seq!['\n']);
            lemma_pieces_concat(b0, seq!['\n']);
            lemma_pieces_last(b0);
            lemma_pieces_nonempty(b0);
            let l0 = pieces(b0, '\n').last();
            assert(l0 + seq!['\n'] == l0.push('\n'));
            lemma_pieces_line(l0);
        }
    }
    // So the recorded text's lines are the old ones and the new line.
    let rec = recorded(data, pattern, algo, presented);
    assert(rec == base + line.push('\n'));
    lemma_pieces_concat(base, line.push('\n'));
    assert(Seq::<char>::empty() + line.push('\n') == line.push('\n'));
    lemma_pieces_line(line);
    let d = pb.drop_last();
    let dm = d.map_values(|l: Seq<char>| without_cr(l));
    assert(pieces(rec, '\n') == d + seq![line, Seq::<char>::empty()]);
    assert(text_lines(base) == dm);
    assert(text_lines(rec) == dm + seq![line]) by {
        let pr = pieces(rec, '\n');
        assert(pr.drop_last() == d.push(line));
        assert(d.push(line).map_values(|l: Seq<char>| without_cr(l)) =~= dm + seq![line]);
    }
    // The old lines say nothing about the host.
    if data.len() > 0 && data.last() != '\n' {
        lemma_verdict_line_break(data, pattern, algo, presented);
    }
    assert(verdict(dm, pattern, algo, presented) is None);
    lemma_line_words(pattern, algo, presented);
    lemma_verdict_append(dm, seq![line], pattern, algo, presented);
    lemma_verdict_single(line, pattern, algo, presented);
    lemma_verdict_any_key(dm, pattern, algo, presented, other);
    lemma_verdict_append(dm, seq![line], pattern, algo, other);
    lemma_verdict_single(line, pattern, algo, other);
}

} // verus!
