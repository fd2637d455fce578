//! Saved connections and the in-memory connection store.
//!
//! The store keeps the list of saved connections (what `connections.json`
//! holds) and a cache of decrypted secrets keyed by connection id, so the OS
//! keychain is consulted at most once per connection per run. Reading and
//! writing the file and the keychain happen around the store, not inside it.
use vstd::prelude::*;

verus! {

/// What kind of remote this connection talks to.
/// S3, R2, and S3-compatible all use the AWS S3 protocol; they differ only
/// in the endpoint URL and the conventional region string.
#[derive(Debug, Clone, Copy, PartialEq, Eq, Structural)]
pub enum ConnectionKind {
    S3,
    R2,
    S3Compat,
    Sftp,
    Ftp,
    Ftps,
}

/// FTP/FTPS data-channel mode. `Passive` (PASV) is the most widely compatible
/// default; `ExtendedPassive` (EPSV) is required by some IPv6 servers; `Active`
/// (PORT) has the server connect back to the client.
#[derive(Debug, Clone, Copy, PartialEq, Eq, Structural)]
pub enum FtpMode {
    Active,
    Passive,
    ExtendedPassive,
}

impl Default for FtpMode {
    fn default() -> (r: FtpMode)
        ensures
            r == FtpMode::Passive,
    {
        FtpMode::Passive
    }
}

/// A saved connection. `created_at` is the creation time in milliseconds since
/// the Unix epoch.
#[derive(Debug, Clone)]
pub struct Connection {
    pub id: String,
    pub name: String,
    pub kind: ConnectionKind,
    pub host: Option<String>,
    pub port: Option<u16>,
    pub region: Option<String>,
    pub endpoint: Option<String>,
    pub bucket: Option<String>,
    pub default_path: Option<String>,
    pub username: Option<String>,
    pub use_path_style: bool,
    pub ftp_mode: Option<FtpMode>,
    pub ftps_implicit: bool,
    pub color: String,
    pub created_at: Option<i64>,
}

/// Secret payload kept out of the saved connection list.
#[derive(Debug, Clone)]
pub struct ConnectionSecret {
    pub access_key_id: Option<String>,
    pub secret_access_key: Option<String>,
    pub session_token: Option<String>,
    pub password: Option<String>,
    pub private_key_pem: Option<String>,
    pub passphrase: Option<String>,
}

impl Default for ConnectionSecret {
    fn default() -> (r: ConnectionSecret)
        ensures
            r.access_key_id is None,
            r.secret_access_key is None,
            r.session_token is None,
            r.password is None,
            r.private_key_pem is None,
            r.passphrase is None,
    {
        ConnectionSecret {
            access_key_id: None,
            secret_access_key: None,
            session_token: None,
            password: None,
            private_key_pem: None,
            passphrase: None,
        }
    }
}

/// A copy of an optional string.
pub fn copy_opt(o: &Option<String>) -> (r: Option<String>)
    ensures
        r == *o,
{
    match o {
        Some(s) => Some(s.clone()),
        None => None,
    }
}

impl Connection {
    /// A field-for-field copy.
    pub fn duplicate(&self) -> (r: Connection)
        ensures
            r == *self,
    {
        Connection {
            id: self.id.clone(),
            name: self.name.clone(),
            kind: self.kind,
            host: copy_opt(&self.host),
            port: self.port,
            region: copy_opt(&self.region),
            endpoint: copy_opt(&self.endpoint),
            bucket: copy_opt(&self.bucket),
            default_path: copy_opt(&self.default_path),
            username: copy_opt(&self.username),
            use_path_style: self.use_path_style,
            ftp_mode: self.ftp_mode,
            ftps_implicit: self.ftps_implicit,
            color: self.color.clone(),
            created_at: self.created_at,
        }
    }
}

impl ConnectionSecret {
    /// A field-for-field copy.
    pub fn duplicate(&self) -> (r: ConnectionSecret)
        ensures
            r == *self,
    {
        ConnectionSecret {
            access_key_id: copy_opt(&self.access_key_id),
            secret_access_key: copy_opt(&self.secret_access_key),
            session_token: copy_opt(&self.session_token),
            password: copy_opt(&self.password),
            private_key_pem: copy_opt(&self.private_key_pem),
            passphrase: copy_opt(&self.passphrase),
        }
    }
}

// ---------------------------------------------------------------------------
// Trusted calls for fresh ids and the clock
// ---------------------------------------------------------------------------

/// `uuid::Uuid::new_v4().to_string()`: a random version-4 UUID in its
/// hyphenated form, which the crate always renders as 36 characters. Which
/// UUID comes back is left open.
#[verifier::external_body]
pub fn fresh_id() -> (r: String)
    ensures
        r@.len() == 36,
{
    uuid::Uuid::new_v4().to_string()
}

/// `chrono::Utc::now().timestamp_millis()`: the current time in milliseconds
/// since the Unix epoch. Nothing is claimed about its value.
#[verifier::external_body]
pub fn now_millis() -> (r: i64) {
    chrono::Utc::now().timestamp_millis()
}

// ---------------------------------------------------------------------------
// The store
// ---------------------------------------------------------------------------

/// `i` is the first position in `s` whose connection has id `id`.
pub open spec fn first_with_id(s: Seq<Connection>, id: Seq<char>, i: int) -> bool {
    0 <= i < s.len() && s[i].id@ == id && forall|k: int| 0 <= k < i ==> s[k].id@ != id
}

/// The position of the first connection with id `id`, if any.
pub open spec fn position_of(s: Seq<Connection>, id: Seq<char>) -> Option<int> {
    if exists|i: int| first_with_id(s, id, i) {
        Some(choose|i: int| first_with_id(s, id, i))
    } else {
        None
    }
}

/// The connection a lookup by `id` finds: the first one with that id.
pub open spec fn lookup(s: Seq<Connection>, id: Seq<char>) -> Option<Connection> {
    match position_of(s, id) {
        Some(i) => Some(s[i]),
        None => None,
    }
}

/// `s` after saving `c`: it replaces the first connection with the same id,
/// or is appended when there is none.
pub open spec fn placed(s: Seq<Connection>, c: Connection) -> Seq<Connection> {
    match position_of(s, c.id@) {
        Some(i) => s.update(i, c),
        None => s.push(c),
    }
}

/// `s` without the connections whose id is `id`, order kept.
pub open spec fn without_id(s: Seq<Connection>, id: Seq<char>) -> Seq<Connection>
    decreases s.len(),
{
    if s.len() == 0 {
        s
    } else {
        let r = without_id(s.drop_last(), id);
        if s.last().id@ == id {
            r
        } else {
            r.push(s.last())
        }
    }
}

/// The secret cached for `id`: the first entry with that key.
pub open spec fn cached(s: Seq<(Seq<char>, ConnectionSecret)>, id: Seq<char>) -> Option<
    ConnectionSecret,
>
    decreases s.len(),
{
    if s.len() == 0 {
        None
    } else if s[0].0 == id {
        Some(s[0].1)
    } else {
        cached(s.drop_first(), id)
    }
}

/// The saved connections and the cache of secrets read for them.
pub struct Store {
    conns: Vec<Connection>,
    secrets: Vec<(String, ConnectionSecret)>,
}

impl Store {
    /// The saved connections, in order.
    pub closed spec fn connections(&self) -> Seq<Connection> {
        self.conns@
    }

    /// The cached secrets as (id, secret) pairs.
    pub closed spec fn secret_cache(&self) -> Seq<(Seq<char>, ConnectionSecret)> {
        self.secrets@.map_values(|p: (String, ConnectionSecret)| (p.0@, p.1))
    }

    /// A store holding `connections` (as loaded from disk) and no cached secret.
    pub fn new(connections: Vec<Connection>) -> (r: Store)
        ensures
            r.connections() == connections@,
            r.secret_cache() == Seq::<(Seq<char>, ConnectionSecret)>::empty(),
    {
        let r = Store { conns: connections, secrets: Vec::new() };
        assert(r.secret_cache() =~= Seq::<(Seq<char>, ConnectionSecret)>::empty());
        r
    }

    /// All saved connections, in order.
    pub fn list(&self) -> (r: Vec<Connection>)
        ensures
            r@ == self.connections(),
    {
        let mut out: Vec<Connection> = Vec::new();
        let mut i: usize = 0;
        while i < self.conns.len()
            invariant
                i <= self.conns.len(),
                out@ == self.conns@.take(i as int),
            decreases self.conns.len() - i,
        {
            out.push(self.conns[i].duplicate());
            i = i + 1;
            assert(out@ == self.conns@.take(i as int));
        }
        assert(self.conns@.take(self.conns.len() as int) == self.conns@);
        out
    }

    fn find(&self, id: &str) -> (r: Option<usize>)
        ensures
            match r {
                Some(i) => position_of(self.connections(), id@) == Some(i as int),
                None => position_of(self.connections(), id@) is None,
            },
    {
        let mut i: usize = 0;
        while i < self.conns.len()
            invariant
                i <= self.conns.len(),
                forall|k: int| 0 <= k < i ==> self.conns@[k].id@ != id@,
            decreases self.conns.len() - i,
        {
            if crate::text::str_eq(self.conns[i].id.as_str(), id) {
                proof {
                    assert(first_with_id(self.conns@, id@, i as int));
                    let j = choose|j: int| first_with_id(self.conns@, id@, j);
                    assert(j == i);
                }
                return Some(i);
            }
            i = i + 1;
        }
        None
    }

    /// The first connection whose id is `id`.
    pub fn get(&self, id: &str) -> (r: Option<Connection>)
        ensures
            r == lookup(self.connections(), id@),
    {
        match self.find(id) {
            Some(i) => Some(self.conns[i].duplicate()),
            None => None,
        }
    }

    /// Save `c`: it replaces the connection with the same id, or is appended.
    /// An empty id is replaced by a fresh UUID and a missing creation time by
    /// the current time. A given secret is cached for the saved id (the caller
    /// stores it in the keychain). Returns the connection as saved.
    pub fn upsert(&mut self, c: Connection, secret: Option<ConnectionSecret>) -> (r: Connection)
        ensures
            c.id@.len() > 0 ==> r.id == c.id,
            c.id@.len() == 0 ==> r.id@.len() == 36,
            c.created_at is Some ==> r.created_at == c.created_at,
            r.created_at is Some,
            r == (Connection { id: r.id, created_at: r.created_at, ..c }),
            final(self).connections() == placed(old(self).connections(), r),
            secret is None ==> final(self).secret_cache() == old(self).secret_cache(),
            secret matches Some(s) ==> cached(final(self).secret_cache(), r.id@) == Some(s),
            forall|other: Seq<char>|
                other != r.id@ ==> cached(final(self).secret_cache(), other) == cached(
                    old(self).secret_cache(),
                    other,
                ),
    {
        let mut c = c;
        if c.id.as_str().is_empty() {
            c.id = fresh_id();
        }
        if c.created_at.is_none() {
            c.created_at = Some(now_millis());
        }
        self.save(c.duplicate());
        match secret {
            Some(sec) => self.remember_secret(c.id.as_str(), sec),
            None => {},
        }
        c
    }

    /// Save a connection whose id and creation time are already set: it
    /// replaces the first connection with the same id, or is appended.
    pub fn save(&mut self, c: Connection)
        ensures
            final(self).connections() == placed(old(self).connections(), c),
            final(self).secret_cache() == old(self).secret_cache(),
    {
        match self.find(c.id.as_str()) {
            Some(i) => {
                self.conns.set(i, c);
            },
            None => {
                self.conns.push(c);
            },
        }
    }

    /// Remove every connection whose id is `id`, keeping the others in order,
    /// and drop the secret cached for it (the caller clears the keychain).
    pub fn delete(&mut self, id: &str)
        ensures
            final(self).connections() == without_id(old(self).connections(), id@),
            cached(final(self).secret_cache(), id@) is None,
            forall|other: Seq<char>|
                other != id@ ==> cached(final(self).secret_cache(), other) == cached(
                    old(self).secret_cache(),
                    other,
                ),
    {
        let mut kept: Vec<Connection> = Vec::new();
        let mut i: usize = 0;
        let ghost before = self.conns@;
        while i < self.conns.len()
            invariant
                i <= self.conns.len(),
                self.conns@ == before,
                kept@ == without_id(before.take(i as int), id@),
            decreases self.conns.len() - i,
        {
            let c = self.conns[i].duplicate();
            proof {
                assert(before.take(i + 1).drop_last() == before.take(i as int));
            }
            if !crate::text::str_eq(c.id.as_str(), id) {
                kept.push(c);
            }
            i = i + 1;
        }
        assert(before.take(before.len() as int) == before);
        self.conns = kept;
        self.forget_secret(id);
    }

    fn find_secret(&self, id: &str) -> (r: Option<usize>)
        ensures
            match r {
                Some(i) => i < self.secrets@.len() && self.secrets@[i as int].0@ == id@ && (forall|
                    k: int,
                | 0 <= k < i ==> self.secrets@[k].0@ != id@) && cached(self.secret_cache(), id@)
                    == Some(self.secrets@[i as int].1),
                None => cached(self.secret_cache(), id@) is None,
            },
    {
        let mut i: usize = 0;
        while i < self.secrets.len()
            invariant
                i <= self.secrets.len(),
                forall|k: int| 0 <= k < i ==> self.secrets@[k].0@ != id@,
            decreases self.secrets.len() - i,
        {
            if crate::text::str_eq(self.secrets[i].0.as_str(), id) {
                proof {
                    lemma_cached_at(self.secret_cache(), id@, i as int);
                }
                return Some(i);
            }
            i = i + 1;
        }
        proof {
            lemma_cached_absent(self.secret_cache(), id@);
        }
        None
    }

    /// The secret cached for `id`, if it was read or saved before.
    pub fn cached_secret(&self, id: &str) -> (r: Option<ConnectionSecret>)
        ensures
            r == cached(self.secret_cache(), id@),
    {
        match self.find_secret(id) {
            Some(i) => Some(self.secrets[i].1.duplicate()),
            None => None,
        }
    }

    /// Cache `secret` for `id`, replacing any secret cached for it before.
    pub fn remember_secret(&mut self, id: &str, secret: ConnectionSecret)
        ensures
            final(self).connections() == old(self).connections(),
            cached(final(self).secret_cache(), id@) == Some(secret),
            forall|other: Seq<char>|
                other != id@ ==> cached(final(self).secret_cache(), other) == cached(
                    old(self).secret_cache(),
                    other,
                ),
    {
        let ghost before = self.secret_cache();
        match self.find_secret(id) {
            Some(i) => {
                self.secrets.set(i, (crate::text::owned(id), secret));
                proof {
                    assert(self.secret_cache() == before.update(i as int, (id@, secret)));
                    lemma_cached_update(before, id@, i as int, secret);
                }
            },
            None => {
                self.secrets.push((crate::text::owned(id), secret));
                proof {
                    assert(self.secret_cache() == before.push((id@, secret)));
                    lemma_cached_push(before, id@, secret);
                }
            },
        }
    }

    /// Drop the secret cached for `id`, if any.
    pub fn forget_secret(&mut self, id: &str)
        ensures
            final(self).connections() == old(self).connections(),
            cached(final(self).secret_cache(), id@) is None,
            forall|other: Seq<char>|
                other != id@ ==> cached(final(self).secret_cache(), other) == cached(
                    old(self).secret_cache(),
                    other,
                ),
    {
        let ghost before = self.secret_cache();
        loop
            invariant
                self.conns@ == old(self).conns@,
                forall|other: Seq<char>|
                    other != id@ ==> cached(self.secret_cache(), other) == cached(before, other),
            ensures
                self.conns@ == old(self).conns@,
                cached(self.secret_cache(), id@) is None,
                forall|other: Seq<char>|
                    other != id@ ==> cached(self.secret_cache(), other) == cached(before, other),
            decreases self.secrets@.len(),
        {
            match self.find_secret(id) {
                Some(i) => {
                    let ghost prev = self.secret_cache();
                    self.secrets.remove(i);
                    proof {
                        assert(self.secret_cache() == prev.remove(i as int));
                        assert forall|other: Seq<char>| other != id@ implies cached(
                            prev.remove(i as int),
                            other,
                        ) == cached(prev, other) by {
                            lemma_cached_remove(prev, id@, i as int, other);
                        }
                    }
                },
                None => {
                    break;
                },
            }
        }
    }
}

// ---------------------------------------------------------------------------
// Lemmas about the secret cache
// ---------------------------------------------------------------------------

proof fn lemma_cached_at(s: Seq<(Seq<char>, ConnectionSecret)>, id: Seq<char>, i: int)
    requires
        0 <= i < s.len(),
        s[i].0 == id,
        forall|k: int| 0 <= k < i ==> s[k].0 != id,
    ensures
        cached(s, id) == Some(s[i].1),
    decreases i,
{
    if i > 0 {
        lemma_cached_at(s.drop_first(), id, i - 1);
    }
}

proof fn lemma_cached_absent(s: Seq<(Seq<char>, ConnectionSecret)>, id: Seq<char>)
    requires
        forall|k: int| 0 <= k < s.len() ==> s[k].0 != id,
    ensures
        cached(s, id) is None,
    decreases s.len(),
{
    if s.len() > 0 {
        lemma_cached_absent(s.drop_first(), id);
    }
}

proof fn lemma_cached_push_any(
    s: Seq<(Seq<char>, ConnectionSecret)>,
    e: (Seq<char>, ConnectionSecret),
    id: Seq<char>,
)
    ensures
        cached(s.push(e), id) == (if cached(s, id) is Some {
            cached(s, id)
        } else if e.0 == id {
            Some(e.1)
        } else {
            None
        }),
    decreases s.len(),
{
    if s.len() > 0 {
        assert(s.push(e)[0] == s[0]);
        assert(s.push(e).drop_first() == s.drop_first().push(e));
        lemma_cached_push_any(s.drop_first(), e, id);
    } else {
        assert(s.push(e)[0] == e);
        assert(s.push(e).drop_first() == Seq::<(Seq<char>, ConnectionSecret)>::empty());
        assert(cached(s.push(e).drop_first(), id) is None);
        assert(cached(s, id) is None);
    }
}

proof fn lemma_cached_remove(
    s: Seq<(Seq<char>, ConnectionSecret)>,
    id: Seq<char>,
    i: int,
    other: Seq<char>,
)
    requires
        0 <= i < s.len(),
        s[i].0 == id,
        other != id,
    ensures
        cached(s.remove(i), other) == cached(s, other),
    decreases i,
{
    if i > 0 {
        assert(s.remove(i)[0] == s[0]);
        assert(s.remove(i).drop_first() == s.drop_first().remove(i - 1));
        lemma_cached_remove(s.drop_first(), id, i - 1, other);
    } else {
        assert(s.remove(0) == s.drop_first());
    }
}

proof fn lemma_cached_push(
    s: Seq<(Seq<char>, ConnectionSecret)>,
    id: Seq<char>,
    v: ConnectionSecret,
)
    requires
        cached(s, id) is None,
    ensures
        cached(s.push((id, v)), id) == Some(v),
        forall|other: Seq<char>| other != id ==> cached(s.push((id, v)), other) == cached(s, other),
{
    lemma_cached_push_any(s, (id, v), id);
    assert forall|other: Seq<char>| other != id implies cached(s.push((id, v)), other) == cached(
        s,
        other,
    ) by {
        lemma_cached_push_any(s, (id, v), other);
    }
}

proof fn lemma_cached_update(
    s: Seq<(Seq<char>, ConnectionSecret)>,
    id: Seq<char>,
    i: int,
    v: ConnectionSecret,
)
    requires
        0 <= i < s.len(),
        s[i].0 == id,
        forall|k: int| 0 <= k < i ==> s[k].0 != id,
    ensures
        cached(s.update(i, (id, v)), id) == Some(v),
        forall|other: Seq<char>|
            other != id ==> cached(s.update(i, (id, v)), other) == cached(s, other),
    decreases i,
{
    let u = s.update(i, (id, v));
    if i > 0 {
        assert(u[0] == s[0]);
        assert(u.drop_first() == s.drop_first().update(i - 1, (id, v)));
        lemma_cached_update(s.drop_first(), id, i - 1, v);
        assert forall|other: Seq<char>| other != id implies cached(u, other) == cached(
            s,
            other,
        ) by {
            if s[0].0 != other {
                assert(cached(u.drop_first(), other) == cached(s.drop_first(), other));
            }
        }
    } else {
        assert(u[0] == (id, v));
        assert(u.drop_first() == s.drop_first());
    }
}

// ---------------------------------------------------------------------------
// Laws of the store
// ---------------------------------------------------------------------------

proof fn lemma_first_exists(s: Seq<Connection>, id: Seq<char>, k: int)
    requires
        0 <= k < s.len(),
        s[k].id@ == id,
    ensures
        exists|i: int| first_with_id(s, id, i),
    decreases k,
{
    if forall|m: int| 0 <= m < k ==> s[m].id@ != id {
        assert(first_with_id(s, id, k));
    } else {
        let m = choose|m: int| 0 <= m < k && s[m].id@ == id;
        lemma_first_exists(s, id, m);
    }
}

/// A lookup right after saving `c` finds `c`.
pub proof fn save_then_get_law(s: Seq<Connection>, c: Connection)
    ensures
        lookup(placed(s, c), c.id@) == Some(c),
{
    match position_of(s, c.id@) {
        Some(i) => {
            let p = s.update(i, c);
            assert(first_with_id(s, c.id@, i));
            assert(first_with_id(p, c.id@, i));
            let j = choose|j: int| first_with_id(p, c.id@, j);
            assert(j == i);
        },
        None => {
            let p = s.push(c);
            let n = s.len() as int;
            assert forall|k: int| 0 <= k < n implies p[k].id@ != c.id@ by {
                if p[k].id@ == c.id@ {
                    assert(s[k] == p[k]);
                    lemma_first_exists(s, c.id@, k);
                }
            }
            assert(first_with_id(p, c.id@, n));
            let j = choose|j: int| first_with_id(p, c.id@, j);
            assert(j == n);
        },
    }
}

/// Saving a connection with a new id adds exactly one entry; saving one whose
/// id is present keeps the count.
pub proof fn save_count_law(s: Seq<Connection>, c: Connection)
    ensures
        lookup(s, c.id@) is None ==> placed(s, c).len() == s.len() + 1,
        lookup(s, c.id@) is Some ==> placed(s, c).len() == s.len(),
{
}

/// After a delete, no connection with that id remains, and every connection
/// with another id is still there.
pub proof fn delete_law(s: Seq<Connection>, id: Seq<char>)
    ensures
        forall|k: int| 0 <= k < without_id(s, id).len() ==> without_id(s, id)[k].id@ != id,
        forall|k: int|
            0 <= k < s.len() && s[k].id@ != id ==> without_id(s, id).contains(s[k]),
        lookup(without_id(s, id), id) is None,
    decreases s.len(),
{
    if s.len() > 0 {
        delete_law(s.drop_last(), id);
        let r = without_id(s.drop_last(), id);
        assert forall|k: int| 0 <= k < s.len() && s[k].id@ != id implies without_id(
            s,
            id,
        ).contains(s[k]) by {
            if k < s.len() - 1 {
                assert(s.drop_last()[k] == s[k]);
                let j = choose|j: int| 0 <= j < r.len() && r[j] == s[k];
                if s.last().id@ != id {
                    assert(r.push(s.last())[j] == s[k]);
                }
            } else {
                assert(r.push(s.last())[r.len() as int] == s[k]);
            }
        }
    }
    if exists|i: int| first_with_id(without_id(s, id), id, i) {
        let i = choose|i: int| first_with_id(without_id(s, id), id, i);
        assert(without_id(s, id)[i].id@ != id);
    }
}

} // verus!
