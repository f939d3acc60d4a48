use vstd::prelude::*;

verus! {

/// The lines of a text as `str::lines` yields them.
pub uninterp spec fn lines_of(s: Seq<char>) -> Seq<Seq<char>>;

/// Whether `char::is_whitespace` holds of a character.
pub uninterp spec fn is_space(c: char) -> bool;

/// A text as `str::to_lowercase` yields it.
pub uninterp spec fn lower_of(s: Seq<char>) -> Seq<char>;

/// Relies on std's `str::lines`: the lines of `s`, in order, each without
/// its terminator.
#[verifier::external_body]
pub(crate) fn split_lines(s: &str) -> (r: Vec<String>)
    ensures
        r.deep_view() == lines_of(s@),
{
    let mut r = Vec::new();
    for line in s.lines() {
        r.push(line.to_string());
    }
    r
}

/// Relies on std's `char::is_whitespace`.
#[verifier::external_body]
pub(crate) fn char_is_space(c: char) -> (r: bool)
    ensures
        r == is_space(c),
{
    c.is_whitespace()
}

/// Relies on std's `str::to_lowercase`.
#[verifier::external_body]
pub(crate) fn lowercase(s: &str) -> (r: String)
    ensures
        r@ == lower_of(s@),
{
    s.to_lowercase()
}

pub open spec fn has_prefix(s: Seq<char>, p: Seq<char>) -> bool {
    p.len() <= s.len() && s.subrange(0, p.len() as int) == p
}

pub open spec fn has_suffix(s: Seq<char>, p: Seq<char>) -> bool {
    p.len() <= s.len() && s.subrange(s.len() - p.len(), s.len() as int) == p
}

pub open spec fn occurs_at(s: Seq<char>, p: Seq<char>, i: int) -> bool {
    0 <= i && i + p.len() <= s.len() && s.subrange(i, i + p.len()) == p
}

pub open spec fn has_infix(s: Seq<char>, p: Seq<char>) -> bool {
    exists|i: int| occurs_at(s, p, i)
}

/// `s[a..b]` is the first whitespace-delimited word of `s`.
pub open spec fn word_span(s: Seq<char>, a: int, b: int) -> bool {
    &&& 0 <= a < b <= s.len()
    &&& forall|k: int| 0 <= k < a ==> is_space(#[trigger] s[k])
    &&& forall|k: int| a <= k < b ==> !is_space(#[trigger] s[k])
    &&& b == s.len() || is_space(s[b])
}

/// The first whitespace-delimited word of a text, if it has one.
pub open spec fn first_word_of(s: Seq<char>) -> Option<Seq<char>> {
    if exists|a: int, b: int| word_span(s, a, b) {
        let (a, b) = choose|a: int, b: int| word_span(s, a, b);
        Some(s.subrange(a, b))
    } else {
        None
    }
}

/// `s[i..]` is the part of `s` after its last `/` (all of it where there is none).
pub open spec fn segment_start(s: Seq<char>, i: int) -> bool {
    &&& 0 <= i <= s.len()
    &&& i == 0 || s[i - 1] == '/'
    &&& forall|k: int| i <= k < s.len() ==> #[trigger] s[k] != '/'
}

/// The part of `s` after its last `/`, or all of `s` where it has none.
pub open spec fn last_segment_of(s: Seq<char>) -> Seq<char> {
    let i = choose|i: int| segment_start(s, i);
    s.subrange(i, s.len() as int)
}

proof fn lemma_segment_start_unique(s: Seq<char>, i: int, j: int)
    requires
        segment_start(s, i),
        segment_start(s, j),
    ensures
        i == j,
{
    if i < j {
        assert(s[j - 1] != '/');
    }
    if j < i {
        assert(s[i - 1] != '/');
    }
}

pub open spec fn trim_start(s: Seq<char>) -> Seq<char>
    decreases s.len(),
{
    if s.len() > 0 && is_space(s[0]) {
        trim_start(s.drop_first())
    } else {
        s
    }
}

pub open spec fn trim_end(s: Seq<char>) -> Seq<char>
    decreases s.len(),
{
    if s.len() > 0 && is_space(s.last()) {
        trim_end(s.drop_last())
    } else {
        s
    }
}

/// A text without its leading and trailing whitespace.
pub open spec fn trimmed(s: Seq<char>) -> Seq<char> {
    trim_end(trim_start(s))
}

proof fn lemma_word_span_unique(s: Seq<char>, a: int, b: int, c: int, d: int)
    requires
        word_span(s, a, b),
        word_span(s, c, d),
    ensures
        a == c && b == d,
{
    if a < c {
        assert(is_space(s[a]));
    }
    if c < a {
        assert(is_space(s[c]));
    }
    if b < d {
        assert(!is_space(s[b]));
    }
    if d < b {
        assert(!is_space(s[d]));
    }
}

/// Whether `p` occurs in `s` at position `i`.
pub fn matches_at(s: &str, p: &str, i: usize) -> (r: bool)
    requires
        i + p@.len() <= s@.len(),
    ensures
        r == (s@.subrange(i as int, i + p@.len()) == p@),
{
    let m = s.unicode_len();
    let n = p.unicode_len();
    let mut k: usize = 0;
    while k < n
        invariant
            m == s@.len(),
            n == p@.len(),
            i + n <= s@.len(),
            k <= n,
            forall|j: int| 0 <= j < k ==> s@[i + j] == p@[j],
        decreases n - k,
    {
        if s.get_char(i + k) != p.get_char(k) {
            assert(s@.subrange(i as int, i + n)[k as int] != p@[k as int]);
            return false;
        }
        k += 1;
    }
    assert(s@.subrange(i as int, i + n) =~= p@);
    true
}

/// Whether two texts are equal.
pub fn same_text(a: &str, b: &str) -> (r: bool)
    ensures
        r == (a@ == b@),
{
    let n = a.unicode_len();
    if n != b.unicode_len() {
        return false;
    }
    let r = matches_at(a, b, 0);
    assert(a@.subrange(0, n as int) =~= a@);
    r
}

/// Whether `s` begins with `p`.
pub fn text_starts_with(s: &str, p: &str) -> (r: bool)
    ensures
        r == has_prefix(s@, p@),
{
    if p.unicode_len() > s.unicode_len() {
        return false;
    }
    matches_at(s, p, 0)
}

/// Whether `s` ends with `p`.
pub fn text_ends_with(s: &str, p: &str) -> (r: bool)
    ensures
        r == has_suffix(s@, p@),
{
    let m = s.unicode_len();
    let n = p.unicode_len();
    if n > m {
        return false;
    }
    matches_at(s, p, m - n)
}

/// Whether `p` occurs anywhere in `s`.
pub fn text_contains(s: &str, p: &str) -> (r: bool)
    ensures
        r == has_infix(s@, p@),
{
    let m = s.unicode_len();
    let n = p.unicode_len();
    if n > m {
        return false;
    }
    if n == 0 {
        assert(s@.subrange(0, 0) =~= p@);
        assert(occurs_at(s@, p@, 0));
        return true;
    }
    let mut i: usize = 0;
    while i <= m - n
        invariant
            m == s@.len(),
            n == p@.len(),
            0 < n <= m,
            i <= m - n + 1,
            forall|j: int| 0 <= j < i ==> !occurs_at(s@, p@, j),
        decreases m - n + 1 - i,
    {
        if matches_at(s, p, i) {
            assert(occurs_at(s@, p@, i as int));
            return true;
        }
        i += 1;
    }
    assert forall|j: int| !occurs_at(s@, p@, j) by {
        if 0 <= j && j + n <= m {
            assert(j < i);
        }
    }
    false
}

/// The first whitespace-delimited word of `s`.
pub fn first_word(s: &str) -> (r: Option<String>)
    ensures
        r.deep_view() == first_word_of(s@),
{
    let n = s.unicode_len();
    let mut a: usize = 0;
    while a < n && char_is_space(s.get_char(a))
        invariant
            n == s@.len(),
            a <= n,
            forall|k: int| 0 <= k < a ==> is_space(#[trigger] s@[k]),
        decreases n - a,
    {
        a += 1;
    }
    if a == n {
        assert forall|x: int, y: int| !word_span(s@, x, y) by {
            if word_span(s@, x, y) {
                assert(is_space(s@[x]));
            }
        }
        return None;
    }
    let mut b: usize = a + 1;
    while b < n && !char_is_space(s.get_char(b))
        invariant
            n == s@.len(),
            a < b <= n,
            !is_space(s@[a as int]),
            forall|k: int| 0 <= k < a ==> is_space(#[trigger] s@[k]),
            forall|k: int| a <= k < b ==> !is_space(#[trigger] s@[k]),
        decreases n - b,
    {
        b += 1;
    }
    assert(word_span(s@, a as int, b as int));
    proof {
        let (x, y) = choose|x: int, y: int| word_span(s@, x, y);
        lemma_word_span_unique(s@, a as int, b as int, x, y);
    }
    Some(s.substring_char(a, b).to_owned())
}

/// The part of `s` after its last `/`, or all of `s` where it has none.
pub fn last_segment(s: &str) -> (r: String)
    ensures
        r@ == last_segment_of(s@),
{
    let n = s.unicode_len();
    let mut i: usize = n;
    while i > 0 && s.get_char(i - 1) != '/'
        invariant
            n == s@.len(),
            i <= n,
            forall|k: int| i <= k < n ==> #[trigger] s@[k] != '/',
        decreases i,
    {
        i -= 1;
    }
    assert(segment_start(s@, i as int));
    proof {
        let j = choose|j: int| segment_start(s@, j);
        lemma_segment_start_unique(s@, i as int, j);
    }
    s.substring_char(i, n).to_owned()
}

proof fn lemma_trim_start_step(s: Seq<char>, a: int)
    requires
        0 <= a < s.len(),
        is_space(s[a]),
    ensures
        trim_start(s.subrange(a, s.len() as int)) == trim_start(s.subrange(a + 1, s.len() as int)),
{
    assert(s.subrange(a, s.len() as int).drop_first() =~= s.subrange(a + 1, s.len() as int));
}

proof fn lemma_trim_end_step(s: Seq<char>, b: int)
    requires
        0 < b <= s.len(),
        is_space(s[b - 1]),
    ensures
        trim_end(s.subrange(0, b)) == trim_end(s.subrange(0, b - 1)),
{
    assert(s.subrange(0, b).drop_last() =~= s.subrange(0, b - 1));
}

/// `s` without its leading and trailing whitespace.
pub fn trim(s: &str) -> (r: String)
    ensures
        r@ == trimmed(s@),
{
    let n = s.unicode_len();
    let mut a: usize = 0;
    assert(s@.subrange(0, n as int) =~= s@);
    while a < n && char_is_space(s.get_char(a))
        invariant
            n == s@.len(),
            a <= n,
            trim_start(s@) == trim_start(s@.subrange(a as int, n as int)),
        decreases n - a,
    {
        proof {
            lemma_trim_start_step(s@, a as int);
        }
        a += 1;
    }
    let ghost t = s@.subrange(a as int, n as int);
    assert(trim_start(t) == t);
    let tail = s.substring_char(a, n);
    let m = tail.unicode_len();
    let mut b: usize = m;
    assert(tail@.subrange(0, m as int) =~= tail@);
    while b > 0 && char_is_space(tail.get_char(b - 1))
        invariant
            m == tail@.len(),
            tail@ == t,
            b <= m,
            trim_end(t) == trim_end(t.subrange(0, b as int)),
        decreases b,
    {
        proof {
            lemma_trim_end_step(t, b as int);
        }
        b -= 1;
    }
    assert(trim_end(t.subrange(0, b as int)) == t.subrange(0, b as int));
    tail.substring_char(0, b).to_owned()
}

/// The first position at or after `k` where `p` occurs in `s`, or `s.len()`
/// where there is none.
pub open spec fn find_from(s: Seq<char>, p: Seq<char>, k: int) -> int
    decreases s.len() - k,
{
    if k < 0 || k >= s.len() || k + p.len() > s.len() {
        s.len() as int
    } else if s.subrange(k, k + p.len()) == p {
        k
    } else {
        find_from(s, p, k + 1)
    }
}

/// The part of `s` between the first and the second `sep` (or the end),
/// where `sep` occurs in `s` at all.
pub open spec fn second_field(s: Seq<char>, sep: Seq<char>) -> Option<Seq<char>> {
    let a = find_from(s, sep, 0);
    if sep.len() == 0 || a >= s.len() {
        None
    } else {
        Some(s.subrange(a + sep.len(), find_from(s, sep, a + sep.len())))
    }
}

pub proof fn lemma_find_from_bounds(s: Seq<char>, p: Seq<char>, k: int)
    requires
        0 <= k <= s.len(),
    ensures
        k <= find_from(s, p, k) <= s.len(),
        find_from(s, p, k) < s.len() ==> find_from(s, p, k) + p.len() <= s.len(),
    decreases s.len() - k,
{
    if k < s.len() && k + p.len() <= s.len() && s.subrange(k, k + p.len()) != p {
        lemma_find_from_bounds(s, p, k + 1);
    }
}

/// `s` with every leading repetition of `p` removed.
pub open spec fn strip_prefixes(s: Seq<char>, p: Seq<char>) -> Seq<char>
    decreases s.len(),
{
    if p.len() > 0 && has_prefix(s, p) {
        strip_prefixes(s.subrange(p.len() as int, s.len() as int), p)
    } else {
        s
    }
}

/// The first position at or after `k` where `p` occurs in `s`, or the
/// length of `s` where there is none.
pub fn find(s: &str, p: &str, k: usize) -> (r: usize)
    requires
        k <= s@.len(),
    ensures
        r == find_from(s@, p@, k as int),
{
    let n = s.unicode_len();
    let m = p.unicode_len();
    let mut i: usize = k;
    while i < n
        invariant
            n == s@.len(),
            m == p@.len(),
            k <= i <= n,
            find_from(s@, p@, k as int) == find_from(s@, p@, i as int),
        decreases n - i,
    {
        if m > n - i {
            return n;
        }
        if matches_at(s, p, i) {
            return i;
        }
        i += 1;
    }
    n
}

/// The part of `s` between the first and the second `sep` (or the end),
/// where `sep` occurs in `s` at all.
pub fn second_field_of(s: &str, sep: &str) -> (r: Option<String>)
    ensures
        r.deep_view() == second_field(s@, sep@),
{
    let n = s.unicode_len();
    let m = sep.unicode_len();
    if m == 0 {
        return None;
    }
    let a = find(s, sep, 0);
    proof {
        lemma_find_from_bounds(s@, sep@, 0);
    }
    if a >= n {
        return None;
    }
    let b = find(s, sep, a + m);
    proof {
        lemma_find_from_bounds(s@, sep@, a + m);
    }
    Some(s.substring_char(a + m, b).to_owned())
}

/// `s` with every leading repetition of `p` removed.
pub fn strip_all_prefixes(s: &str, p: &str) -> (r: String)
    ensures
        r@ == strip_prefixes(s@, p@),
{
    let n = s.unicode_len();
    let m = p.unicode_len();
    let mut i: usize = 0;
    assert(s@.subrange(0, n as int) =~= s@);
    if m == 0 {
        return s.to_owned();
    }
    while m <= n - i && matches_at(s, p, i)
        invariant
            n == s@.len(),
            m == p@.len(),
            m > 0,
            i <= n,
            strip_prefixes(s@, p@) == strip_prefixes(s@.subrange(i as int, n as int), p@),
        decreases n - i,
    {
        let ghost t = s@.subrange(i as int, n as int);
        assert(t.subrange(0, m as int) =~= s@.subrange(i as int, i + m));
        assert(t.subrange(m as int, t.len() as int) =~= s@.subrange(i + m, n as int));
        i += m;
    }
    let ghost t = s@.subrange(i as int, n as int);
    if m <= n - i {
        assert(t.subrange(0, m as int) =~= s@.subrange(i as int, i + m));
    }
    s.substring_char(i, n).to_owned()
}

} // verus!
