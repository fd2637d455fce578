//! Character-level string helpers shared by the classifiers, the path logic
//! and the message formatting. Every operation here is stated over the `Seq<char>`
//! view of the strings involved.
use vstd::prelude::*;

verus! {

// ---------------------------------------------------------------------------
// Specifications
// ---------------------------------------------------------------------------

/// `needle` occurs in `hay` starting at position `i`.
pub open spec fn occurs_at(hay: Seq<char>, needle: Seq<char>, i: int) -> bool {
    0 <= i && i + needle.len() <= hay.len() && hay.subrange(i, i + needle.len()) == needle
}

/// `needle` is a contiguous substring of `hay` (what `str::contains` tests).
pub open spec fn has_substring(hay: Seq<char>, needle: Seq<char>) -> bool {
    exists|i: int| occurs_at(hay, needle, i)
}

/// `s` begins with `p`.
pub open spec fn has_prefix(s: Seq<char>, p: Seq<char>) -> bool {
    p.len() <= s.len() && s.subrange(0, p.len() as int) == p
}

/// `s` ends with `p`.
pub open spec fn has_suffix(s: Seq<char>, p: Seq<char>) -> bool {
    p.len() <= s.len() && s.subrange(s.len() - p.len(), s.len() as int) == p
}

/// `s` with every trailing `c` removed (what `trim_end_matches(c)` gives).
pub open spec fn trim_end(s: Seq<char>, c: char) -> Seq<char>
    decreases s.len(),
{
    if s.len() > 0 && s.last() == c {
        trim_end(s.drop_last(), c)
    } else {
        s
    }
}

/// `s` with every leading `c` removed (what `trim_start_matches(c)` gives).
pub open spec fn trim_start(s: Seq<char>, c: char) -> Seq<char>
    decreases s.len(),
{
    if s.len() > 0 && s[0] == c {
        trim_start(s.drop_first(), c)
    } else {
        s
    }
}

/// The part of `s` after the last `c`, or all of `s` when it holds no `c`
/// (what `rsplit(c).next()` yields).
pub open spec fn last_segment(s: Seq<char>, c: char) -> Seq<char>
    decreases s.len(),
{
    if s.len() == 0 {
        s
    } else if s.last() == c {
        Seq::empty()
    } else {
        last_segment(s.drop_last(), c).push(s.last())
    }
}

/// Index of the first `c` in `s`, if any.
pub open spec fn first_index(s: Seq<char>, c: char) -> Option<int>
    decreases s.len(),
{
    if s.len() == 0 {
        None
    } else if s[0] == c {
        Some(0)
    } else {
        match first_index(s.drop_first(), c) {
            Some(i) => Some(i + 1),
            None => None,
        }
    }
}

/// Index of the last `c` in `s`, if any.
pub open spec fn last_index(s: Seq<char>, c: char) -> Option<int>
    decreases s.len(),
{
    if s.len() == 0 {
        None
    } else if s.last() == c {
        Some(s.len() - 1)
    } else {
        last_index(s.drop_last(), c)
    }
}

/// The characters that carry the Unicode `White_Space` property, which is what
/// `char::is_whitespace` (and so `str::trim` and `split_whitespace`) tests.
pub open spec fn is_space(c: char) -> bool {
    let u = c as u32;
    (0x9 <= u <= 0xD) || u == 0x20 || u == 0x85 || u == 0xA0 || u == 0x1680 || (0x2000 <= u
        <= 0x200A) || u == 0x2028 || u == 0x2029 || u == 0x202F || u == 0x205F || u == 0x3000
}

/// `s` with leading and trailing whitespace removed (what `str::trim` gives).
pub open spec fn trim_spaces(s: Seq<char>) -> Seq<char>
    decreases s.len(),
{
    if s.len() > 0 && is_space(s[0]) {
        trim_spaces(s.drop_first())
    } else if s.len() > 0 && is_space(s.last()) {
        trim_spaces(s.drop_last())
    } else {
        s
    }
}

/// `s` with every leading and trailing `c` removed (what `trim_matches(c)` gives).
pub open spec fn trim_both(s: Seq<char>, c: char) -> Seq<char> {
    trim_end(trim_start(s, c), c)
}

/// The decimal digit character for `d < 10`.
pub open spec fn digit_char(d: nat) -> char {
    if d == 0 {
        '0'
    } else if d == 1 {
        '1'
    } else if d == 2 {
        '2'
    } else if d == 3 {
        '3'
    } else if d == 4 {
        '4'
    } else if d == 5 {
        '5'
    } else if d == 6 {
        '6'
    } else if d == 7 {
        '7'
    } else if d == 8 {
        '8'
    } else {
        '9'
    }
}

/// The decimal rendering of `n`, as `to_string` / `{}` prints an unsigned integer.
pub open spec fn decimal(n: nat) -> Seq<char>
    decreases n,
{
    if n < 10 {
        seq![digit_char(n)]
    } else {
        decimal(n / 10).push(digit_char(n % 10))
    }
}

/// What `str::to_lowercase` returns for a string. Unicode case mapping takes
/// tables to state, so the result is named here and produced by `lowercase`.
pub uninterp spec fn lowercase_of(s: Seq<char>) -> Seq<char>;

// ---------------------------------------------------------------------------
// Trusted std calls
// ---------------------------------------------------------------------------

/// Appends one character with `String::push`, whose documentation says it
/// appends the given `char` to the end of the string.
#[verifier::external_body]
fn push_char(s: &mut String, c: char)
    ensures
        final(s)@ == old(s)@.push(c),
{
    s.push(c);
}

/// `str::to_lowercase`: the result is `lowercase_of` the argument (a function
/// of the characters alone); nothing more about Unicode case mapping is claimed.
#[verifier::external_body]
pub fn lowercase(s: &str) -> (r: String)
    ensures
        r@ == lowercase_of(s@),
{
    s.to_lowercase()
}

// ---------------------------------------------------------------------------
// Conversions
// ---------------------------------------------------------------------------

/// The characters of `s`, in order.
pub fn chars_of(s: &str) -> (r: Vec<char>)
    ensures
        r@ == s@,
{
    let mut out: Vec<char> = Vec::new();
    for c in iter: s.chars()
        invariant
            out@ == iter.seq().take(iter.index() as int),
    {
        out.push(c);
    }
    out
}

/// A `String` holding the characters `cs[lo..hi]`.
pub fn from_range(cs: &[char], lo: usize, hi: usize) -> (r: String)
    requires
        lo <= hi <= cs.len(),
    ensures
        r@ == cs@.subrange(lo as int, hi as int),
{
    let mut s = String::new();
    let mut i: usize = lo;
    while i < hi
        invariant
            lo <= i <= hi <= cs.len(),
            s@ == cs@.subrange(lo as int, i as int),
        decreases hi - i,
    {
        push_char(&mut s, cs[i]);
        i = i + 1;
        assert(cs@.subrange(lo as int, i as int) == cs@.subrange(lo as int, i - 1).push(
            cs@[i - 1],
        ));
    }
    s
}

/// A `String` holding exactly the characters `cs`.
pub fn from_chars(cs: &[char]) -> (r: String)
    ensures
        r@ == cs@,
{
    let r = from_range(cs, 0, cs.len());
    assert(cs@.subrange(0, cs@.len() as int) == cs@);
    r
}

/// An owned copy of `s`.
pub fn owned(s: &str) -> (r: String)
    ensures
        r@ == s@,
{
    s.to_owned()
}

/// `a` followed by `b`.
pub fn concat(a: &str, b: &str) -> (r: String)
    ensures
        r@ == a@ + b@,
{
    let mut v = chars_of(a);
    let w = chars_of(b);
    let mut i: usize = 0;
    while i < w.len()
        invariant
            i <= w.len(),
            w@ == b@,
            v@ == a@ + b@.take(i as int),
        decreases w.len() - i,
    {
        v.push(w[i]);
        i = i + 1;
        assert(b@.take(i as int) == b@.take(i - 1).push(b@[i - 1]));
    }
    assert(b@.take(b@.len() as int) == b@);
    from_chars(&v)
}

/// `a`, `b` and `c` one after another.
pub fn concat3(a: &str, b: &str, c: &str) -> (r: String)
    ensures
        r@ == a@ + b@ + c@,
{
    let ab = concat(a, b);
    concat(ab.as_str(), c)
}

/// Whether two character sequences are equal.
pub fn chars_equal(a: &[char], b: &[char]) -> (r: bool)
    ensures
        r == (a@ == b@),
{
    if a.len() != b.len() {
        return false;
    }
    let mut i: usize = 0;
    while i < a.len()
        invariant
            i <= a.len(),
            a.len() == b.len(),
            forall|j: int| 0 <= j < i ==> a@[j] == b@[j],
        decreases a.len() - i,
    {
        if a[i] != b[i] {
            return false;
        }
        i = i + 1;
    }
    assert(a@ == b@);
    true
}

/// Whether two strings hold the same characters.
pub fn str_eq(a: &str, b: &str) -> (r: bool)
    ensures
        r == (a@ == b@),
{
    let x = chars_of(a);
    let y = chars_of(b);
    chars_equal(&x, &y)
}

// ---------------------------------------------------------------------------
// Searching
// ---------------------------------------------------------------------------

/// Whether `needle` occurs in `hay` at position `i`.
pub fn chars_occur_at(hay: &[char], needle: &[char], i: usize) -> (r: bool)
    ensures
        r == occurs_at(hay@, needle@, i as int),
{
    if i > hay.len() || needle.len() > hay.len() - i {
        return false;
    }
    let mut j: usize = 0;
    while j < needle.len()
        invariant
            j <= needle.len(),
            i + needle.len() <= hay.len(),
            forall|k: int| 0 <= k < j ==> hay@[i + k] == needle@[k],
        decreases needle.len() - j,
    {
        if hay[i + j] != needle[j] {
            assert(hay@.subrange(i as int, i + needle.len())[j as int] != needle@[j as int]);
            return false;
        }
        j = j + 1;
    }
    assert(hay@.subrange(i as int, i + needle.len()) == needle@);
    true
}

/// Whether `needle` occurs anywhere in `hay`.
pub fn chars_contain(hay: &[char], needle: &[char]) -> (r: bool)
    ensures
        r == has_substring(hay@, needle@),
{
    if needle.len() > hay.len() {
        assert forall|i: int| !occurs_at(hay@, needle@, i) by {}
        return false;
    }
    let last = hay.len() - needle.len();
    let mut i: usize = 0;
    while i < last
        invariant
            i <= last,
            last == hay.len() - needle.len(),
            forall|k: int| 0 <= k < i ==> !occurs_at(hay@, needle@, k),
        decreases last - i,
    {
        if chars_occur_at(hay, needle, i) {
            return true;
        }
        i = i + 1;
    }
    if chars_occur_at(hay, needle, last) {
        return true;
    }
    assert forall|k: int| !occurs_at(hay@, needle@, k) by {}
    false
}

/// Whether `needle` occurs anywhere in `hay` (`str::contains`).
pub fn str_contains(hay: &str, needle: &str) -> (r: bool)
    ensures
        r == has_substring(hay@, needle@),
{
    let h = chars_of(hay);
    let n = chars_of(needle);
    chars_contain(&h, &n)
}

/// Whether `s` begins with `p` (`str::starts_with`).
pub fn str_starts_with(s: &str, p: &str) -> (r: bool)
    ensures
        r == has_prefix(s@, p@),
{
    let a = chars_of(s);
    let b = chars_of(p);
    let r = chars_occur_at(&a, &b, 0);
    assert(r == has_prefix(s@, p@));
    r
}

/// Whether `s` ends with `p` (`str::ends_with`).
pub fn str_ends_with(s: &str, p: &str) -> (r: bool)
    ensures
        r == has_suffix(s@, p@),
{
    let a = chars_of(s);
    let b = chars_of(p);
    if b.len() > a.len() {
        return false;
    }
    chars_occur_at(&a, &b, a.len() - b.len())
}

/// Whether `s` is non-empty and its last character is `c`.
pub fn ends_with_char(s: &str, c: char) -> (r: bool)
    ensures
        r == (s@.len() > 0 && s@.last() == c),
{
    let a = chars_of(s);
    a.len() > 0 && a[a.len() - 1] == c
}

// ---------------------------------------------------------------------------
// Trimming and splitting
// ---------------------------------------------------------------------------

proof fn lemma_trim_end_take(s: Seq<char>, c: char, n: int)
    requires
        0 <= n <= s.len(),
        forall|k: int| n <= k < s.len() ==> s[k] == c,
    ensures
        trim_end(s, c) == trim_end(s.take(n), c),
    decreases s.len() - n,
{
    if n < s.len() {
        assert(s.drop_last() == s.take(s.len() - 1));
        assert(s.take(s.len() - 1).take(n) == s.take(n));
        lemma_trim_end_take(s.drop_last(), c, n);
    } else {
        assert(s.take(n) == s);
    }
}

/// `s` without its trailing `c` characters (`trim_end_matches(c)`).
pub fn trim_end_char(s: &str, c: char) -> (r: String)
    ensures
        r@ == trim_end(s@, c),
{
    let a = chars_of(s);
    let mut n: usize = a.len();
    while n > 0 && a[n - 1] == c
        invariant
            n <= a.len(),
            a@ == s@,
            forall|k: int| n <= k < a.len() ==> a@[k] == c,
        decreases n,
    {
        n = n - 1;
    }
    proof {
        lemma_trim_end_take(s@, c, n as int);
        assert(trim_end(s@.take(n as int), c) == s@.take(n as int));
    }
    from_range(&a, 0, n)
}

proof fn lemma_trim_start_skip(s: Seq<char>, c: char, n: int)
    requires
        0 <= n <= s.len(),
        forall|k: int| 0 <= k < n ==> s[k] == c,
    ensures
        trim_start(s, c) == trim_start(s.skip(n), c),
    decreases n,
{
    if n > 0 {
        assert(s.drop_first().skip(n - 1) == s.skip(n));
        lemma_trim_start_skip(s.drop_first(), c, n - 1);
    } else {
        assert(s.skip(0) == s);
    }
}

/// `s` without its leading `c` characters (`trim_start_matches(c)`).
pub fn trim_start_char(s: &str, c: char) -> (r: String)
    ensures
        r@ == trim_start(s@, c),
{
    let a = chars_of(s);
    let mut n: usize = 0;
    while n < a.len() && a[n] == c
        invariant
            n <= a.len(),
            a@ == s@,
            forall|k: int| 0 <= k < n ==> a@[k] == c,
        decreases a.len() - n,
    {
        n = n + 1;
    }
    proof {
        lemma_trim_start_skip(s@, c, n as int);
        assert(trim_start(s@.skip(n as int), c) == s@.skip(n as int));
        assert(a@.subrange(n as int, a@.len() as int) == s@.skip(n as int));
    }
    from_range(&a, n, a.len())
}

/// `s` without leading or trailing `c` characters (`trim_matches(c)`).
pub fn trim_both_char(s: &str, c: char) -> (r: String)
    ensures
        r@ == trim_both(s@, c),
{
    let t = trim_start_char(s, c);
    trim_end_char(t.as_str(), c)
}

/// Whether `c` is a whitespace character (`char::is_whitespace`).
pub fn is_space_char(c: char) -> (r: bool)
    ensures
        r == is_space(c),
{
    let u = c as u32;
    (0x9 <= u && u <= 0xD) || u == 0x20 || u == 0x85 || u == 0xA0 || u == 0x1680 || (0x2000 <= u
        && u <= 0x200A) || u == 0x2028 || u == 0x2029 || u == 0x202F || u == 0x205F || u == 0x3000
}

proof fn lemma_trim_spaces_range(s: Seq<char>, lo: int, hi: int)
    requires
        0 <= lo <= hi <= s.len(),
        forall|k: int| 0 <= k < lo ==> is_space(s[k]),
        forall|k: int| hi <= k < s.len() ==> is_space(s[k]),
    ensures
        trim_spaces(s) == trim_spaces(s.subrange(lo, hi)),
    decreases s.len(),
{
    if lo > 0 {
        assert(s.drop_first().subrange(lo - 1, hi - 1) == s.subrange(lo, hi));
        lemma_trim_spaces_range(s.drop_first(), lo - 1, hi - 1);
    } else if hi < s.len() {
        if s.len() > 0 && is_space(s[0]) {
            // lo == 0 and the first character is a space: then the whole prefix
            // up to `hi` is treated by the recursion on `drop_first`.
            if hi == 0 {
                assert(s.subrange(0, 0) == Seq::<char>::empty());
                lemma_trim_spaces_all(s);
            } else {
                assert(s.drop_first().subrange(0, hi - 1) == s.subrange(1, hi));
                lemma_trim_spaces_range(s.drop_first(), 0, hi - 1);
                lemma_trim_spaces_range(s.subrange(0, hi), 1, hi);
                assert(s.subrange(0, hi).subrange(1, hi) == s.subrange(1, hi));
            }
        } else {
            assert(s.drop_last().subrange(lo, hi) == s.subrange(lo, hi));
            lemma_trim_spaces_range(s.drop_last(), lo, hi);
        }
    } else {
        assert(s.subrange(0, s.len() as int) == s);
    }
}

proof fn lemma_trim_spaces_all(s: Seq<char>)
    requires
        forall|k: int| 0 <= k < s.len() ==> is_space(s[k]),
    ensures
        trim_spaces(s) == Seq::<char>::empty(),
    decreases s.len(),
{
    if s.len() > 0 {
        lemma_trim_spaces_all(s.drop_first());
    }
}

/// `s` without leading and trailing whitespace (`str::trim`).
pub fn trim_str(s: &str) -> (r: String)
    ensures
        r@ == trim_spaces(s@),
{
    let a = chars_of(s);
    let mut lo: usize = 0;
    while lo < a.len() && is_space_char(a[lo])
        invariant
            lo <= a.len(),
            a@ == s@,
            forall|k: int| 0 <= k < lo ==> is_space(a@[k]),
        decreases a.len() - lo,
    {
        lo = lo + 1;
    }
    let mut hi: usize = a.len();
    while hi > lo && is_space_char(a[hi - 1])
        invariant
            lo <= hi <= a.len(),
            a@ == s@,
            forall|k: int| hi <= k < a.len() ==> is_space(a@[k]),
        decreases hi,
    {
        hi = hi - 1;
    }
    proof {
        lemma_trim_spaces_range(s@, lo as int, hi as int);
        let t = s@.subrange(lo as int, hi as int);
        if t.len() > 0 {
            assert(!is_space(t[0]));
            assert(!is_space(t.last()));
        }
        assert(trim_spaces(t) == t);
    }
    from_range(&a, lo, hi)
}

proof fn lemma_last_segment_split(s: Seq<char>, c: char, n: int)
    requires
        0 <= n <= s.len(),
        n == 0 || s[n - 1] == c,
        forall|k: int| n <= k < s.len() ==> s[k] != c,
    ensures
        last_segment(s, c) == s.skip(n),
    decreases s.len(),
{
    if s.len() == 0 {
    } else if s.last() == c {
        assert(n == s.len());
    } else {
        assert(n < s.len());
        lemma_last_segment_split(s.drop_last(), c, n);
        assert(s.drop_last().skip(n).push(s.last()) == s.skip(n));
    }
}

/// The part of `s` after its last `c` (`rsplit(c).next()`).
pub fn last_segment_of(s: &str, c: char) -> (r: String)
    ensures
        r@ == last_segment(s@, c),
{
    let a = chars_of(s);
    let mut n: usize = a.len();
    while n > 0 && a[n - 1] != c
        invariant
            n <= a.len(),
            a@ == s@,
            forall|k: int| n <= k < a.len() ==> a@[k] != c,
        decreases n,
    {
        n = n - 1;
    }
    proof {
        lemma_last_segment_split(s@, c, n as int);
        assert(a@.subrange(n as int, a@.len() as int) == s@.skip(n as int));
    }
    from_range(&a, n, a.len())
}

proof fn lemma_first_index_found(s: Seq<char>, c: char, n: int)
    requires
        0 <= n < s.len(),
        s[n] == c,
        forall|k: int| 0 <= k < n ==> s[k] != c,
    ensures
        first_index(s, c) == Some(n),
    decreases n,
{
    if n > 0 {
        lemma_first_index_found(s.drop_first(), c, n - 1);
    }
}

proof fn lemma_first_index_absent(s: Seq<char>, c: char)
    requires
        forall|k: int| 0 <= k < s.len() ==> s[k] != c,
    ensures
        first_index(s, c) == None::<int>,
    decreases s.len(),
{
    if s.len() > 0 {
        lemma_first_index_absent(s.drop_first(), c);
    }
}

/// Position of the first `c` in `s`, counted in characters.
pub fn find_char(s: &[char], c: char) -> (r: Option<usize>)
    ensures
        match r {
            Some(i) => first_index(s@, c) == Some(i as int),
            None => first_index(s@, c) == None::<int>,
        },
{
    let mut i: usize = 0;
    while i < s.len()
        invariant
            i <= s.len(),
            forall|k: int| 0 <= k < i ==> s@[k] != c,
        decreases s.len() - i,
    {
        if s[i] == c {
            proof {
                lemma_first_index_found(s@, c, i as int);
            }
            return Some(i);
        }
        i = i + 1;
    }
    proof {
        lemma_first_index_absent(s@, c);
    }
    None
}

proof fn lemma_last_index_found(s: Seq<char>, c: char, n: int)
    requires
        0 <= n < s.len(),
        s[n] == c,
        forall|k: int| n < k < s.len() ==> s[k] != c,
    ensures
        last_index(s, c) == Some(n),
    decreases s.len(),
{
    if n < s.len() - 1 {
        lemma_last_index_found(s.drop_last(), c, n);
    }
}

proof fn lemma_last_index_absent(s: Seq<char>, c: char)
    requires
        forall|k: int| 0 <= k < s.len() ==> s[k] != c,
    ensures
        last_index(s, c) == None::<int>,
    decreases s.len(),
{
    if s.len() > 0 {
        lemma_last_index_absent(s.drop_last(), c);
    }
}

/// Position of the last `c` in `s`, counted in characters.
pub fn rfind_char(s: &[char], c: char) -> (r: Option<usize>)
    ensures
        match r {
            Some(i) => last_index(s@, c) == Some(i as int),
            None => last_index(s@, c) == None::<int>,
        },
{
    let mut n: usize = s.len();
    while n > 0
        invariant
            n <= s.len(),
            forall|k: int| n <= k < s.len() ==> s@[k] != c,
        decreases n,
    {
        if s[n - 1] == c {
            proof {
                lemma_last_index_found(s@, c, n - 1);
            }
            return Some(n - 1);
        }
        n = n - 1;
    }
    proof {
        lemma_last_index_absent(s@, c);
    }
    None
}

/// `(before, after)` around the first `c` in `s` (`split_once(c)`).
pub fn split_once_char(s: &str, c: char) -> (r: Option<(String, String)>)
    ensures
        match first_index(s@, c) {
            Some(i) => r matches Some((a, b)) && a@ == s@.take(i) && b@ == s@.skip(i + 1),
            None => r is None,
        },
{
    let a = chars_of(s);
    match find_char(&a, c) {
        Some(i) => {
            proof {
                lemma_first_index_bound(s@, c);
            }
            let before = from_range(&a, 0, i);
            let after = from_range(&a, i + 1, a.len());
            Some((before, after))
        },
        None => None,
    }
}

/// `(before, after)` around the last `c` in `s` (`rsplit_once(c)`).
pub fn rsplit_once_char(s: &str, c: char) -> (r: Option<(String, String)>)
    ensures
        match last_index(s@, c) {
            Some(i) => r matches Some((a, b)) && a@ == s@.take(i) && b@ == s@.skip(i + 1),
            None => r is None,
        },
{
    let a = chars_of(s);
    match rfind_char(&a, c) {
        Some(i) => {
            proof {
                lemma_last_index_bound(s@, c);
            }
            let before = from_range(&a, 0, i);
            let after = from_range(&a, i + 1, a.len());
            Some((before, after))
        },
        None => None,
    }
}

/// A found index lies inside the sequence and points at `c`.
pub proof fn lemma_first_index_bound(s: Seq<char>, c: char)
    ensures
        first_index(s, c) matches Some(i) ==> 0 <= i < s.len() && s[i] == c && forall|k: int|
            0 <= k < i ==> s[k] != c,
        first_index(s, c) is None ==> forall|k: int| 0 <= k < s.len() ==> s[k] != c,
    decreases s.len(),
{
    if s.len() > 0 {
        lemma_first_index_bound(s.drop_first(), c);
        if s[0] != c {
            assert forall|k: int| 1 <= k < s.len() implies s[k] == s.drop_first()[k - 1] by {}
        }
    }
}

/// A found index lies inside the sequence and points at `c`.
pub proof fn lemma_last_index_bound(s: Seq<char>, c: char)
    ensures
        last_index(s, c) matches Some(i) ==> 0 <= i < s.len() && s[i] == c && forall|k: int|
            i < k < s.len() ==> s[k] != c,
        last_index(s, c) is None ==> forall|k: int| 0 <= k < s.len() ==> s[k] != c,
    decreases s.len(),
{
    if s.len() > 0 {
        lemma_last_index_bound(s.drop_last(), c);
        assert forall|k: int| 0 <= k < s.len() - 1 implies s[k] == s.drop_last()[k] by {}
    }
}

/// The last segment of `s` is the longest end of `s` free of `c`: it is a
/// suffix of `s`, holds no `c`, and either is all of `s` or follows a `c`.
pub proof fn last_segment_law(s: Seq<char>, c: char)
    ensures
        last_segment(s, c).len() <= s.len(),
        last_segment(s, c) == s.subrange(s.len() - last_segment(s, c).len(), s.len() as int),
        forall|k: int| 0 <= k < last_segment(s, c).len() ==> last_segment(s, c)[k] != c,
        last_segment(s, c).len() < s.len() ==> s[s.len() - last_segment(s, c).len() - 1] == c,
    decreases s.len(),
{
    if s.len() > 0 && s.last() != c {
        let t = s.drop_last();
        last_segment_law(t, c);
        let r = last_segment(t, c);
        assert(last_segment(s, c) == r.push(s.last()));
        assert(r.push(s.last()) =~= s.subrange(s.len() - r.len() - 1, s.len() as int));
        if r.len() < t.len() {
            assert(s[s.len() - r.len() - 2] == t[t.len() - r.len() - 1]);
        }
    } else if s.len() > 0 {
        assert(last_segment(s, c) =~= s.subrange(s.len() as int, s.len() as int));
    } else {
        assert(s =~= s.subrange(0, 0));
    }
}

/// `s` without the prefix `p`, when it has it (`strip_prefix`).
pub fn strip_prefix_str(s: &str, p: &str) -> (r: Option<String>)
    ensures
        has_prefix(s@, p@) ==> (r matches Some(t) && t@ == s@.skip(p@.len() as int)),
        !has_prefix(s@, p@) ==> r is None,
{
    let a = chars_of(s);
    let b = chars_of(p);
    if chars_occur_at(&a, &b, 0) {
        assert(a@.subrange(b.len() as int, a@.len() as int) == s@.skip(p@.len() as int));
        Some(from_range(&a, b.len(), a.len()))
    } else {
        None
    }
}

// ---------------------------------------------------------------------------
// Numbers
// ---------------------------------------------------------------------------

fn digit(d: u64) -> (c: char)
    requires
        d < 10,
    ensures
        c == digit_char(d as nat),
{
    if d == 0 {
        '0'
    } else if d == 1 {
        '1'
    } else if d == 2 {
        '2'
    } else if d == 3 {
        '3'
    } else if d == 4 {
        '4'
    } else if d == 5 {
        '5'
    } else if d == 6 {
        '6'
    } else if d == 7 {
        '7'
    } else if d == 8 {
        '8'
    } else {
        '9'
    }
}

fn push_decimal(n: u64, out: &mut Vec<char>)
    ensures
        final(out)@ == old(out)@ + decimal(n as nat),
    decreases n,
{
    if n < 10 {
        out.push(digit(n));
    } else {
        push_decimal(n / 10, out);
        out.push(digit(n % 10));
    }
}

/// The decimal rendering of `n` (`n.to_string()`).
pub fn decimal_string(n: u64) -> (r: String)
    ensures
        r@ == decimal(n as nat),
{
    let mut v: Vec<char> = Vec::new();
    push_decimal(n, &mut v);
    assert(v@ == decimal(n as nat));
    from_chars(&v)
}

} // verus!
