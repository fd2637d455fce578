//! The live session pool: at most one open session per connection id, reused
//! by every operation until the user disconnects or the connection dies.
//!
//! Opening and closing the sessions is the caller's part (it is network I/O);
//! this module owns the id → session map and decides what each lifecycle event
//! does to it.
use crate::error::{classified, with_default_hint, Error};
use crate::taxonomy::ErrorCategory;
use crate::text::{owned, str_eq};
use vstd::prelude::*;

verus! {

/// `s[i]` is the entry for id `k`.
pub open spec fn has_id<B>(s: Seq<(String, B)>, k: Seq<char>, i: int) -> bool {
    0 <= i < s.len() && s[i].0@ == k
}

/// No id occurs twice in `s`.
pub open spec fn distinct_ids<B>(s: Seq<(String, B)>) -> bool {
    forall|i: int, j: int| 0 <= i < j < s.len() ==> (#[trigger] s[i].0)@ != (#[trigger] s[j].0)@
}

/// The map from ids to sessions that the entries hold.
pub open spec fn pool_map<B>(s: Seq<(String, B)>) -> Map<Seq<char>, B> {
    Map::new(
        |k: Seq<char>| exists|i: int| has_id(s, k, i),
        |k: Seq<char>| s[choose|i: int| has_id(s, k, i)].1,
    )
}

/// The pool after a session `b` was opened for `id`: a session already there
/// is kept and the new one is not pooled.
pub open spec fn with_session<B>(m: Map<Seq<char>, B>, id: Seq<char>, b: B) -> Map<Seq<char>, B> {
    if m.contains_key(id) {
        m
    } else {
        m.insert(id, b)
    }
}

/// The pooled sessions, keyed by connection id.
pub struct SessionPool<B> {
    entries: Vec<(String, B)>,
}

/// The notice given when a pooled session went away on its own, so the UI can
/// drop its "connected" state.
pub struct DisconnectedEvent {
    pub id: String,
    pub reason: String,
}

/// Whether an error of this category means the connection itself died.
pub open spec fn drops_session(c: ErrorCategory) -> bool {
    c is Network || c is Tls
}

impl<B> View for SessionPool<B> {
    type V = Map<Seq<char>, B>;

    closed spec fn view(&self) -> Map<Seq<char>, B> {
        pool_map(self.entries@)
    }
}

proof fn lemma_map_at<B>(s: Seq<(String, B)>, i: int)
    requires
        distinct_ids(s),
        0 <= i < s.len(),
    ensures
        pool_map(s).contains_key(s[i].0@),
        pool_map(s)[s[i].0@] == s[i].1,
{
    assert(has_id(s, s[i].0@, i));
    let j = choose|j: int| has_id(s, s[i].0@, j);
    if j != i {
        if j < i {
            assert(s[j].0@ != s[i].0@);
        } else {
            assert(s[i].0@ != s[j].0@);
        }
    }
}

proof fn lemma_map_push<B>(s: Seq<(String, B)>, id: String, b: B)
    requires
        distinct_ids(s),
        !pool_map(s).contains_key(id@),
    ensures
        distinct_ids(s.push((id, b))),
        pool_map(s.push((id, b))) == pool_map(s).insert(id@, b),
{
    let t = s.push((id, b));
    assert forall|i: int, j: int| 0 <= i < j < t.len() implies (#[trigger] t[i].0)@ != (
    #[trigger] t[j].0)@ by {
        if j == s.len() {
            if t[i].0@ == id@ {
                assert(has_id(s, id@, i));
            }
        } else {
            assert(s[i].0@ != s[j].0@);
        }
    }
    assert forall|k: Seq<char>| #[trigger] pool_map(t).contains_key(k) == pool_map(s).insert(
        id@,
        b,
    ).contains_key(k) by {
        if exists|i: int| has_id(s, k, i) {
            let i = choose|i: int| has_id(s, k, i);
            assert(has_id(t, k, i));
        }
        if k == id@ {
            assert(has_id(t, k, s.len() as int));
        }
        if exists|i: int| has_id(t, k, i) {
            let i = choose|i: int| has_id(t, k, i);
            if i < s.len() {
                assert(has_id(s, k, i));
            }
        }
    }
    assert forall|k: Seq<char>| #[trigger] pool_map(t).contains_key(k) implies pool_map(t)[k]
        == pool_map(s).insert(id@, b)[k] by {
        let i = choose|i: int| has_id(t, k, i);
        lemma_map_at(t, i);
        if i < s.len() {
            assert(t[i] == s[i]);
            lemma_map_at(s, i);
        }
    }
    assert(pool_map(t) =~= pool_map(s).insert(id@, b));
}

proof fn lemma_map_remove<B>(s: Seq<(String, B)>, i: int)
    requires
        distinct_ids(s),
        0 <= i < s.len(),
    ensures
        distinct_ids(s.remove(i)),
        pool_map(s.remove(i)) == pool_map(s).remove(s[i].0@),
{
    let t = s.remove(i);
    let id = s[i].0@;
    assert forall|a: int, b: int| 0 <= a < b < t.len() implies (#[trigger] t[a].0)@ != (
    #[trigger] t[b].0)@ by {
        let oa = if a < i { a } else { a + 1 };
        let ob = if b < i { b } else { b + 1 };
        assert(t[a] == s[oa] && t[b] == s[ob]);
        assert(s[oa].0@ != s[ob].0@);
    }
    assert forall|k: Seq<char>| #[trigger] pool_map(t).contains_key(k) == pool_map(s).remove(
        id,
    ).contains_key(k) by {
        if exists|j: int| has_id(t, k, j) {
            let j = choose|j: int| has_id(t, k, j);
            let oj = if j < i { j } else { j + 1 };
            assert(t[j] == s[oj]);
            assert(has_id(s, k, oj));
            if k == id {
                if oj < i {
                    assert(s[oj].0@ != s[i].0@);
                } else {
                    assert(s[i].0@ != s[oj].0@);
                }
            }
        }
        if k != id && exists|j: int| has_id(s, k, j) {
            let j = choose|j: int| has_id(s, k, j);
            assert(j != i);
            let tj = if j < i { j } else { j - 1 };
            assert(t[tj] == s[j]);
            assert(has_id(t, k, tj));
        }
    }
    assert forall|k: Seq<char>| #[trigger] pool_map(t).contains_key(k) implies pool_map(t)[k]
        == pool_map(s).remove(id)[k] by {
        let j = choose|j: int| has_id(t, k, j);
        let oj = if j < i { j } else { j + 1 };
        assert(t[j] == s[oj]);
        lemma_map_at(t, j);
        lemma_map_at(s, oj);
    }
    assert(pool_map(t) =~= pool_map(s).remove(id));
}

impl<B> SessionPool<B> {
    #[verifier::type_invariant]
    spec fn well_formed(self) -> bool {
        distinct_ids(self.entries@)
    }

    /// An empty pool.
    pub fn new() -> (r: SessionPool<B>)
        ensures
            r@ == Map::<Seq<char>, B>::empty(),
    {
        let r = SessionPool { entries: Vec::new() };
        assert(pool_map(r.entries@) =~= Map::<Seq<char>, B>::empty());
        r
    }

    /// The position of the entry for `id`.
    fn find(&self, id: &str) -> (r: Option<usize>)
        ensures
            match r {
                Some(i) => i < self.entries@.len() && self.entries@[i as int].0@ == id@
                    && self@.contains_key(id@),
                None => !self@.contains_key(id@),
            },
    {
        let mut i: usize = 0;
        while i < self.entries.len()
            invariant
                i <= self.entries@.len(),
                forall|j: int| 0 <= j < i ==> !has_id(self.entries@, id@, j),
            decreases self.entries@.len() - i,
        {
            if str_eq(self.entries[i].0.as_str(), id) {
                assert(has_id(self.entries@, id@, i as int));
                return Some(i);
            }
            i = i + 1;
        }
        None
    }

    /// The live session for `id`, if one is pooled.
    pub fn get(&self, id: &str) -> (r: Option<&B>)
        ensures
            r == (if self@.contains_key(id@) {
                Some(&self@[id@])
            } else {
                None
            }),
    {
        proof {
            use_type_invariant(self);
        }
        match self.find(id) {
            Some(i) => {
                proof {
                    lemma_map_at(self.entries@, i as int);
                }
                Some(&self.entries[i].1)
            },
            None => None,
        }
    }

    /// Pool `backend` as the session for `id` unless one is already there; a
    /// session opened concurrently by another caller wins, and the one handed
    /// in is given back so that it can be closed.
    pub fn insert_if_absent(&mut self, id: String, backend: B) -> (r: Option<B>)
        ensures
            final(self)@ == with_session(old(self)@, id@, backend),
            r == (if old(self)@.contains_key(id@) {
                Some(backend)
            } else {
                None
            }),
    {
        proof {
            use_type_invariant(&*self);
        }
        match self.find(id.as_str()) {
            Some(_) => Some(backend),
            None => {
                proof {
                    lemma_map_push(self.entries@, id, backend);
                }
                let mut entries: Vec<(String, B)> = Vec::new();
                std::mem::swap(&mut entries, &mut self.entries);
                entries.push((id, backend));
                self.entries = entries;
                None
            },
        }
    }

    /// Take the session for `id` out of the pool (the "Disconnect" action), so
    /// that the caller can close it. Nothing happens when none is pooled.
    pub fn disconnect(&mut self, id: &str) -> (r: Option<B>)
        ensures
            final(self)@ == old(self)@.remove(id@),
            r == (if old(self)@.contains_key(id@) {
                Some(old(self)@[id@])
            } else {
                None
            }),
    {
        proof {
            use_type_invariant(&*self);
        }
        match self.find(id) {
            Some(i) => {
                proof {
                    lemma_map_at(self.entries@, i as int);
                    lemma_map_remove(self.entries@, i as int);
                }
                let mut entries: Vec<(String, B)> = Vec::new();
                std::mem::swap(&mut entries, &mut self.entries);
                let (_, b) = entries.remove(i);
                self.entries = entries;
                Some(b)
            },
            None => {
                assert(old(self)@.remove(id@) =~= old(self)@);
                None
            },
        }
    }

    /// Forget the session for `id` without closing it, so that the next
    /// operation opens a new one with fresh settings.
    pub fn evict(&mut self, id: &str)
        ensures
            final(self)@ == old(self)@.remove(id@),
    {
        let _ = self.disconnect(id);
    }

    /// Whether a session for `id` is pooled.
    pub fn is_connected(&self, id: &str) -> (r: bool)
        ensures
            r == self@.contains_key(id@),
    {
        self.find(id).is_some()
    }

    /// Look at an operation's error: when it shows that the connection itself
    /// died (a network or TLS failure), drop the session for `id` so that the
    /// next call reconnects, and give the notice to send when one was pooled.
    /// Any other error leaves the pool as it was.
    pub fn note_op_error(&mut self, id: &str, e: &Error) -> (r: Option<DisconnectedEvent>)
        ensures
            drops_session(with_default_hint(classified(*e)).category) ==> {
                &&& final(self)@ == old(self)@.remove(id@)
                &&& (r is Some <==> old(self)@.contains_key(id@))
                &&& (r matches Some(ev) ==> ev.id@ == id@ && ev.reason@ == with_default_hint(
                    classified(*e),
                ).summary)
            },
            !drops_session(with_default_hint(classified(*e)).category) ==> final(self)@ == old(
                self,
            )@ && r is None,
            (with_default_hint(classified(*e)).category is Network || with_default_hint(
                classified(*e),
            ).category is Tls) ==> final(self)@ == old(self)@.remove(id@) && (r is Some <==> old(
                self,
            )@.contains_key(id@)),
    {
        let a = e.to_app();
        let dies = match a.category {
            ErrorCategory::Network => true,
            ErrorCategory::Tls => true,
            _ => false,
        };
        if !dies {
            return None;
        }
        match self.disconnect(id) {
            Some(_) => Some(DisconnectedEvent { id: owned(id), reason: a.summary }),
            None => None,
        }
    }
}

// --- Laws of the pool ---

/// Opening a session pools it: afterwards a session for that id is pooled, and
/// it is the one that was already there, if any, else the new one.
pub proof fn connect_then_connected_law<B>(m: Map<Seq<char>, B>, id: Seq<char>, b: B)
    ensures
        with_session(m, id, b).contains_key(id),
        with_session(m, id, b)[id] == (if m.contains_key(id) {
            m[id]
        } else {
            b
        }),
        forall|k: Seq<char>|
            k != id ==> #[trigger] with_session(m, id, b).contains_key(k) == m.contains_key(k),
{
}

/// After a disconnect no session for that id is pooled, and the sessions of
/// the other connections are untouched.
pub proof fn disconnect_law<B>(m: Map<Seq<char>, B>, id: Seq<char>)
    ensures
        !m.remove(id).contains_key(id),
        forall|k: Seq<char>|
            k != id && m.contains_key(k) ==> #[trigger] m.remove(id).contains_key(k)
                && m.remove(id)[k] == m[k],
{
}


/// A session is dropped exactly when the failure shows that the connection
/// itself died: a network failure or a TLS failure, whatever error carried it.
pub proof fn dead_connection_law(e: Error)
    ensures
        drops_session(with_default_hint(classified(e)).category) <==> (with_default_hint(
            classified(e),
        ).category is Network || with_default_hint(classified(e)).category is Tls),
{
}

/// Transport failures end the pooled session: an FTP connection or TLS
/// failure, and an S3 request that timed out or could not be sent, in any
/// phase.
pub proof fn transport_failure_drops_law(
    connector: crate::connections::ConnectionKind,
    phase: crate::taxonomy::Phase,
    f: crate::ftp::FtpFailure,
    g: crate::s3::S3Failure,
)
    ensures
        (f.kind is ConnectionError || f.kind is SecureError) ==> drops_session(
            with_default_hint(
                crate::ftp::ftp_failure_view(connector, phase, f),
            ).category,
        ),
        (g.kind is Timeout || g.kind is Dispatch) ==> drops_session(
            with_default_hint(
                crate::s3::s3_failure_view(connector, phase, g),
            ).category,
        ),
{
}

} // verus!
