//! The order listings are shown in: folders before files, then by
//! case-insensitive name, with rows that tie keeping the order they came in
//! (what a stable sort with that comparator gives).
use vstd::prelude::*;

verus! {

/// Strict lexicographic order on character sequences, comparing code points
/// (the order of `str`'s `Ord`).
pub open spec fn seq_less(a: Seq<char>, b: Seq<char>) -> bool
    decreases a.len(),
{
    if a.len() == 0 {
        b.len() > 0
    } else if b.len() == 0 {
        false
    } else if a[0] != b[0] {
        a[0] < b[0]
    } else {
        seq_less(a.drop_first(), b.drop_first())
    }
}

/// A sort key: whether the row is a file (files come after folders) and its
/// lowercased name.
pub type KeyView = (bool, Seq<char>);

/// Strict order on sort keys: folders first, then by name.
pub open spec fn key_less(a: KeyView, b: KeyView) -> bool {
    (!a.0 && b.0) || (a.0 == b.0 && seq_less(a.1, b.1))
}

/// `(a, i)` comes before `(b, j)`: by key, then by position in the input.
pub open spec fn ranked_before(a: KeyView, i: int, b: KeyView, j: int) -> bool {
    key_less(a, b) || (a == b && i < j)
}

/// `p` lists each of `0..n` exactly once.
pub open spec fn is_permutation(p: Seq<int>, n: nat) -> bool {
    &&& p.len() == n
    &&& forall|k: int| 0 <= k < n ==> 0 <= #[trigger] p[k] < n
    &&& forall|a: int, b: int| 0 <= a < b < n ==> p[a] != p[b]
}

/// `after` is `before` put in stable order: the rows of `before`, each once,
/// arranged by key with ties in the order they came in.
pub open spec fn stably_sorted(before: Seq<KeyView>, after: Seq<KeyView>, p: Seq<int>) -> bool {
    &&& is_permutation(p, before.len())
    &&& after.len() == before.len()
    &&& forall|k: int| 0 <= k < after.len() ==> #[trigger] after[k] == before[p[k]]
    &&& forall|a: int, b: int|
        0 <= a < b < after.len() ==> ranked_before(after[a], p[a], after[b], p[b])
}

/// A sort key as computed at run time.
pub struct SortKey {
    pub is_file: bool,
    pub name: Vec<char>,
}

/// The view of a list of sort keys.
pub open spec fn key_views(v: Seq<SortKey>) -> Seq<KeyView> {
    v.map_values(|k: SortKey| (k.is_file, k.name@))
}

// --- Lemmas on the name order ---

proof fn lemma_seq_less_transitive(a: Seq<char>, b: Seq<char>, c: Seq<char>)
    requires
        seq_less(a, b),
        seq_less(b, c),
    ensures
        seq_less(a, c),
    decreases a.len(),
{
    if a.len() > 0 && b.len() > 0 && c.len() > 0 && a[0] == b[0] && b[0] == c[0] {
        lemma_seq_less_transitive(a.drop_first(), b.drop_first(), c.drop_first());
    }
}

proof fn lemma_seq_less_total(a: Seq<char>, b: Seq<char>)
    ensures
        a == b || seq_less(a, b) || seq_less(b, a),
    decreases a.len(),
{
    if a.len() > 0 && b.len() > 0 {
        if a[0] == b[0] {
            lemma_seq_less_total(a.drop_first(), b.drop_first());
            if a.drop_first() == b.drop_first() {
                assert(a == seq![a[0]] + a.drop_first());
                assert(b == seq![b[0]] + b.drop_first());
            }
        }
    } else if a.len() == 0 && b.len() == 0 {
        assert(a == b);
    }
}

proof fn lemma_ranked_transitive(a: KeyView, i: int, b: KeyView, j: int, c: KeyView, k: int)
    requires
        ranked_before(a, i, b, j),
        ranked_before(b, j, c, k),
    ensures
        ranked_before(a, i, c, k),
{
    if a.0 == b.0 && b.0 == c.0 && seq_less(a.1, b.1) && seq_less(b.1, c.1) {
        lemma_seq_less_transitive(a.1, b.1, c.1);
    }
}

proof fn lemma_key_total(a: KeyView, b: KeyView)
    ensures
        a == b || key_less(a, b) || key_less(b, a),
{
    lemma_seq_less_total(a.1, b.1);
}

// --- Exec comparison ---

proof fn lemma_seq_less_common_prefix(a: Seq<char>, b: Seq<char>, i: int)
    requires
        0 <= i <= a.len(),
        i <= b.len(),
        forall|k: int| 0 <= k < i ==> a[k] == b[k],
    ensures
        seq_less(a, b) == seq_less(a.skip(i), b.skip(i)),
    decreases i,
{
    if i > 0 {
        assert(a.drop_first().skip(i - 1) == a.skip(i));
        assert(b.drop_first().skip(i - 1) == b.skip(i));
        lemma_seq_less_common_prefix(a.drop_first(), b.drop_first(), i - 1);
    } else {
        assert(a.skip(0) == a);
        assert(b.skip(0) == b);
    }
}

/// Whether `a` comes strictly before `b` in code-point order.
pub fn chars_less(a: &Vec<char>, b: &Vec<char>) -> (r: bool)
    ensures
        r == seq_less(a@, b@),
{
    let mut i: usize = 0;
    while i < a.len() && i < b.len() && a[i] == b[i]
        invariant
            i <= a.len(),
            i <= b.len(),
            forall|k: int| 0 <= k < i ==> a@[k] == b@[k],
        decreases a.len() - i,
    {
        i = i + 1;
    }
    proof {
        lemma_seq_less_common_prefix(a@, b@, i as int);
        if i < a.len() {
            assert(a@.skip(i as int)[0] == a@[i as int]);
        }
        if i < b.len() {
            assert(b@.skip(i as int)[0] == b@[i as int]);
        }
    }
    if i == a.len() {
        i < b.len()
    } else if i == b.len() {
        false
    } else {
        a[i] < b[i]
    }
}

/// Whether key `a` comes strictly before key `b`.
pub fn key_before(a: &SortKey, b: &SortKey) -> (r: bool)
    ensures
        r == key_less((a.is_file, a.name@), (b.is_file, b.name@)),
{
    (!a.is_file && b.is_file) || (a.is_file == b.is_file && chars_less(&a.name, &b.name))
}

// --- The sort ---

proof fn lemma_key_views_remove(v: Seq<SortKey>, i: int)
    requires
        0 <= i < v.len(),
    ensures
        key_views(v.remove(i)) == key_views(v).remove(i),
{
    assert(key_views(v.remove(i)) =~= key_views(v).remove(i));
}

proof fn lemma_key_views_insert(v: Seq<SortKey>, i: int, k: SortKey)
    requires
        0 <= i <= v.len(),
    ensures
        key_views(v.insert(i, k)) == key_views(v).insert(i, (k.is_file, k.name@)),
{
    assert(key_views(v.insert(i, k)) =~= key_views(v).insert(i, (k.is_file, k.name@)));
}

proof fn lemma_insert_keeps_order(kv: Seq<KeyView>, pp: Seq<int>, i: int, m: int, kx: KeyView)
    requires
        0 <= m <= i < kv.len(),
        pp.len() == kv.len(),
        pp[i] == i,
        kv[i] == kx,
        forall|k: int| 0 <= k < i ==> #[trigger] pp[k] < i,
        forall|a: int, b: int| 0 <= a < b < i ==> ranked_before(kv[a], pp[a], kv[b], pp[b]),
        forall|k: int| m <= k < i ==> key_less(kx, #[trigger] kv[k]),
        m > 0 ==> (kv[m - 1] == kx || key_less(kv[m - 1], kx)),
    ensures
        ({
            let kv2 = kv.remove(i).insert(m, kx);
            let p2 = pp.remove(i).insert(m, i);
            forall|a: int, b: int|
                0 <= a < b < i + 1 ==> ranked_before(kv2[a], p2[a], kv2[b], p2[b])
        }),
{
    let kv2 = kv.remove(i).insert(m, kx);
    let p2 = pp.remove(i).insert(m, i);
    assert forall|a: int, b: int| 0 <= a < b < i + 1 implies ranked_before(
        kv2[a],
        p2[a],
        kv2[b],
        p2[b],
    ) by {
        let oa = if a < m { a } else { a - 1 };
        let ob = if b < m { b } else { b - 1 };
        if a != m && b != m {
            assert(kv2[a] == kv[oa] && p2[a] == pp[oa]);
            assert(kv2[b] == kv[ob] && p2[b] == pp[ob]);
        } else if a == m {
            assert(kv2[b] == kv[ob] && p2[b] == pp[ob]);
            assert(kv2[a] == kx);
            assert(key_less(kx, kv[ob]));
        } else {
            assert(kv2[a] == kv[a] && p2[a] == pp[a]);
            assert(kv2[b] == kx && p2[b] == i);
            assert(ranked_before(kv[m - 1], pp[m - 1], kx, i));
            if a < m - 1 {
                assert(ranked_before(kv[a], pp[a], kv[m - 1], pp[m - 1]));
                lemma_ranked_transitive(kv[a], pp[a], kv[m - 1], pp[m - 1], kx, i);
            }
        }
    }
}

/// Put `items` (with their sort keys alongside) in stable key order: folders
/// before files, then by name, ties kept in the order they came in.
pub fn sort_by_keys<T>(items: &mut Vec<T>, keys: &mut Vec<SortKey>)
    requires
        old(items)@.len() == old(keys)@.len(),
    ensures
        final(items)@.len() == old(items)@.len(),
        exists|p: Seq<int>|
            #![trigger stably_sorted(key_views(old(keys)@), key_views(final(keys)@), p)]
            stably_sorted(key_views(old(keys)@), key_views(final(keys)@), p) && (forall|k: int|
                0 <= k < old(items)@.len() ==> #[trigger] final(items)@[k] == old(items)@[p[k]]),
{
    let n = items.len();
    let ghost items0 = items@;
    let ghost keys0 = key_views(keys@);
    let ghost mut p: Seq<int> = Seq::new(n as nat, |k: int| k);
    let mut i: usize = 0;
    while i < n
        invariant
            i <= n,
            items@.len() == n,
            keys@.len() == n,
            items0.len() == n,
            keys0.len() == n,
            p.len() == n,
            forall|k: int| 0 <= k < i ==> 0 <= #[trigger] p[k] < i,
            forall|k: int| i <= k < n ==> #[trigger] p[k] == k,
            forall|a: int, b: int| 0 <= a < b < i ==> p[a] != p[b],
            forall|k: int| 0 <= k < n ==> #[trigger] items@[k] == items0[p[k]],
            forall|k: int| 0 <= k < n ==> #[trigger] key_views(keys@)[k] == keys0[p[k]],
            forall|a: int, b: int|
                0 <= a < b < i ==> ranked_before(
                    key_views(keys@)[a],
                    p[a],
                    key_views(keys@)[b],
                    p[b],
                ),
        decreases n - i,
    {
        let ghost kv = key_views(keys@);
        let ghost pp = p;
        proof {
            lemma_key_views_remove(keys@, i as int);
        }
        let ghost before_keys = keys@;
        let x = items.remove(i);
        let kx = keys.remove(i);
        let ghost kxv: KeyView = (kx.is_file, kx.name@);
        proof {
            assert(kx == before_keys[i as int]);
            assert(kxv == kv[i as int]);
        }
        let mut m: usize = i;
        while m > 0 && key_before(&kx, &keys[m - 1])
            invariant
                m <= i,
                i < n,
                keys@.len() == n - 1,
                kv.len() == n,
                key_views(keys@) == kv.remove(i as int),
                kxv == (kx.is_file, kx.name@),
                forall|k: int| m <= k < i ==> key_less(kxv, #[trigger] kv[k]),
            decreases m,
        {
            proof {
                assert(key_views(keys@)[m - 1] == kv[m - 1]);
            }
            m = m - 1;
        }
        proof {
            if m > 0 {
                assert(key_views(keys@)[m - 1] == kv[m - 1]);
                assert(!key_less(kxv, kv[m - 1]));
                lemma_key_total(kxv, kv[m - 1]);
            }
        }
        let ghost removed_keys = keys@;
        let ghost removed_items = items@;
        items.insert(m, x);
        keys.insert(m, kx);
        proof {
            lemma_key_views_insert(removed_keys, m as int, kx);
            lemma_insert_keeps_order(kv, pp, i as int, m as int, kxv);
            p = pp.remove(i as int).insert(m as int, i as int);
            assert forall|k: int| 0 <= k < n implies #[trigger] items@[k] == items0[p[k]] by {
                if k < m {
                    assert(items@[k] == removed_items[k]);
                } else if k > m {
                    assert(items@[k] == removed_items[k - 1]);
                }
            }
            assert forall|k: int| 0 <= k < n implies #[trigger] key_views(keys@)[k] == keys0[p[k]] by {
                if k < m {
                    assert(key_views(keys@)[k] == kv.remove(i as int)[k]);
                } else if k > m {
                    assert(key_views(keys@)[k] == kv.remove(i as int)[k - 1]);
                }
            }
            assert forall|k: int| 0 <= k < i + 1 implies 0 <= #[trigger] p[k] < i + 1 by {
                if k < m {
                    assert(p[k] == pp[k]);
                } else if k > m {
                    assert(p[k] == pp[k - 1]);
                }
            }
            assert forall|k: int| i + 1 <= k < n implies #[trigger] p[k] == k by {
                assert(p[k] == pp[k]);
            }
            assert forall|a: int, b: int| 0 <= a < b < i + 1 implies p[a] != p[b] by {
                let oa = if a < m { a } else { a - 1 };
                let ob = if b < m { b } else { b - 1 };
                if a != m && b != m {
                    assert(p[a] == pp[oa]);
                    assert(p[b] == pp[ob]);
                } else if a == m {
                    assert(p[b] == pp[ob]);
                } else {
                    assert(p[a] == pp[oa]);
                }
            }
        }
        i = i + 1;
    }
    proof {
        assert(stably_sorted(keys0, key_views(keys@), p));
    }
}

/// The sort key of a listing row: files after folders, then the lowercased
/// name.
pub open spec fn entry_key(e: crate::s3::EntryView) -> KeyView {
    (e.kind != "folder"@, crate::text::lowercase_of(e.name))
}

/// The sort keys of a list of rows.
pub open spec fn entry_keys(v: Seq<crate::s3::ObjectEntry>) -> Seq<KeyView> {
    v.map_values(|e: crate::s3::ObjectEntry| entry_key(e@))
}

/// Put listing rows in display order: folders before files, then by
/// case-insensitive name, ties in the order they came in. Every row is a folder
/// or a file (the comparison is a total order only then).
pub fn sort_entries(v: &mut Vec<crate::s3::ObjectEntry>)
    requires
        forall|k: int|
            0 <= k < old(v)@.len() ==> (#[trigger] old(v)@[k]).kind@ == "folder"@ || old(
                v,
            )@[k].kind@ == "file"@,
    ensures
        final(v)@.len() == old(v)@.len(),
        exists|p: Seq<int>|
            #![trigger stably_sorted(entry_keys(old(v)@), entry_keys(final(v)@), p)]
            stably_sorted(entry_keys(old(v)@), entry_keys(final(v)@), p) && (forall|k: int|
                0 <= k < old(v)@.len() ==> #[trigger] final(v)@[k] == old(v)@[p[k]]),
{
    let mut keys: Vec<SortKey> = Vec::new();
    let mut i: usize = 0;
    while i < v.len()
        invariant
            i <= v.len(),
            key_views(keys@) == entry_keys(v@.take(i as int)),
        decreases v.len() - i,
    {
        let is_folder = crate::text::str_eq(v[i].kind.as_str(), "folder");
        let low = crate::text::lowercase(v[i].name.as_str());
        let k = SortKey { is_file: !is_folder, name: crate::text::chars_of(low.as_str()) };
        proof {
            assert(key_views(keys@.push(k)) =~= key_views(keys@).push((k.is_file, k.name@)));
            assert(entry_keys(v@.take(i + 1)) =~= entry_keys(v@.take(i as int)).push(
                entry_key(v@[i as int]@),
            ));
        }
        keys.push(k);
        i = i + 1;
    }
    assert(v@.take(v@.len() as int) == v@);
    let ghost before = v@;
    let ghost before_keys = key_views(keys@);
    sort_by_keys(v, &mut keys);
    proof {
        let p = choose|p: Seq<int>|
            #![trigger stably_sorted(before_keys, key_views(keys@), p)]
            stably_sorted(before_keys, key_views(keys@), p) && (forall|k: int|
                0 <= k < before.len() ==> #[trigger] v@[k] == before[p[k]]);
        assert(entry_keys(v@) =~= key_views(keys@)) by {
            assert forall|k: int| 0 <= k < v@.len() implies entry_keys(v@)[k] == key_views(
                keys@,
            )[k] by {
                assert(v@[k] == before[p[k]]);
                assert(key_views(keys@)[k] == before_keys[p[k]]);
            }
        }
        assert(stably_sorted(entry_keys(before), entry_keys(v@), p));
    }
}

} // verus!
