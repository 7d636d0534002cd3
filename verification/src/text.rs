//! Character-level string helpers with specifications over `Seq<char>`.
//!
//! The executable functions work on `Vec<char>`/`&[char]` and on `&str`;
//! the spec functions say what std's string methods compute, in terms of
//! character sequences.

use vstd::prelude::*;

verus! {

// ---------------------------------------------------------------------------
// Spec vocabulary
// ---------------------------------------------------------------------------

/// `p` occurs in `s` starting at position `i`.
pub open spec fn match_at(s: Seq<char>, p: Seq<char>, i: int) -> bool {
    0 <= i && i + p.len() <= s.len() && s.subrange(i, i + p.len()) == p
}

/// `s` starts with `p`.
pub open spec fn has_prefix(s: Seq<char>, p: Seq<char>) -> bool {
    match_at(s, p, 0)
}

/// `s` ends with `p`.
pub open spec fn has_suffix(s: Seq<char>, p: Seq<char>) -> bool {
    p.len() <= s.len() && match_at(s, p, s.len() - p.len())
}

/// `p` occurs somewhere in `s`.
pub open spec fn contains_seq(s: Seq<char>, p: Seq<char>) -> bool {
    exists|i: int| match_at(s, p, i)
}

/// The first position `>= i` at which `p` occurs in `s`.
pub open spec fn find_from(s: Seq<char>, p: Seq<char>, i: int) -> Option<int>
    decreases s.len() - i,
{
    if i < 0 || i + p.len() > s.len() {
        None
    } else if match_at(s, p, i) {
        Some(i)
    } else {
        proof {
            if p.len() == 0 {
                assert(s.subrange(i, i) =~= p);
            }
        }
        find_from(s, p, i + 1)
    }
}

/// The first position at which `p` occurs in `s` (std's `str::find`).
pub open spec fn find_seq(s: Seq<char>, p: Seq<char>) -> Option<int> {
    find_from(s, p, 0)
}

/// The first position of `c` in `s`.
pub open spec fn find_char(s: Seq<char>, c: char) -> Option<int> {
    find_seq(s, seq![c])
}

/// The pieces of `s` between occurrences of the non-empty pattern `p`
/// (std's `str::split` with a string or char pattern).
pub open spec fn split_seq(s: Seq<char>, p: Seq<char>) -> Seq<Seq<char>>
    decreases s.len(),
{
    if p.len() == 0 {
        seq![s]
    } else {
        proof {
            lemma_find_from(s, p, 0);
        }
        match find_seq(s, p) {
            None => seq![s],
            Some(k) => seq![s.subrange(0, k)] + split_seq(
                s.subrange(k + p.len(), s.len() as int),
                p,
            ),
        }
    }
}

/// `split_seq` with a one-character pattern.
pub open spec fn split_char(s: Seq<char>, c: char) -> Seq<Seq<char>> {
    split_seq(s, seq![c])
}

/// The parts joined with `sep` between consecutive parts.
pub open spec fn join_seq(parts: Seq<Seq<char>>, sep: Seq<char>) -> Seq<char>
    decreases parts.len(),
{
    if parts.len() == 0 {
        Seq::empty()
    } else if parts.len() == 1 {
        parts[0]
    } else {
        join_seq(parts.drop_last(), sep) + sep + parts.last()
    }
}

/// std's `char::is_whitespace`: the Unicode `White_Space` property.
pub open spec fn is_ws(c: char) -> bool {
    ||| ('\u{9}' <= c && c <= '\u{d}')
    ||| c == ' '
    ||| c == '\u{85}'
    ||| c == '\u{a0}'
    ||| c == '\u{1680}'
    ||| ('\u{2000}' <= c && c <= '\u{200a}')
    ||| c == '\u{2028}'
    ||| c == '\u{2029}'
    ||| c == '\u{202f}'
    ||| c == '\u{205f}'
    ||| c == '\u{3000}'
}

/// std's `str::trim_start`.
pub open spec fn trim_start(s: Seq<char>) -> Seq<char>
    decreases s.len(),
{
    if s.len() > 0 && is_ws(s[0]) {
        trim_start(s.drop_first())
    } else {
        s
    }
}

/// std's `str::trim_end`.
pub open spec fn trim_end(s: Seq<char>) -> Seq<char>
    decreases s.len(),
{
    if s.len() > 0 && is_ws(s.last()) {
        trim_end(s.drop_last())
    } else {
        s
    }
}

/// std's `str::trim`.
pub open spec fn trim(s: Seq<char>) -> Seq<char> {
    trim_end(trim_start(s))
}

/// std's `str::trim_end_matches` with a character pattern.
pub open spec fn trim_end_char(s: Seq<char>, c: char) -> Seq<char>
    decreases s.len(),
{
    if s.len() > 0 && s.last() == c {
        trim_end_char(s.drop_last(), c)
    } else {
        s
    }
}

/// std's `str::trim_start_matches` with a non-empty string pattern.
pub open spec fn trim_start_seq(s: Seq<char>, p: Seq<char>) -> Seq<char>
    decreases s.len(),
{
    if p.len() > 0 && has_prefix(s, p) {
        trim_start_seq(s.subrange(p.len() as int, s.len() as int), p)
    } else {
        s
    }
}

/// std's `str::trim_end_matches` with a non-empty string pattern.
pub open spec fn trim_end_seq(s: Seq<char>, p: Seq<char>) -> Seq<char>
    decreases s.len(),
{
    if p.len() > 0 && has_suffix(s, p) {
        trim_end_seq(s.subrange(0, s.len() - p.len()), p)
    } else {
        s
    }
}

/// std's `str::strip_prefix`.
pub open spec fn strip_prefix(s: Seq<char>, p: Seq<char>) -> Option<Seq<char>> {
    if has_prefix(s, p) {
        Some(s.subrange(p.len() as int, s.len() as int))
    } else {
        None
    }
}

/// std's `str::split_once` with a character pattern.
pub open spec fn split_once_char(s: Seq<char>, c: char) -> Option<(Seq<char>, Seq<char>)> {
    match find_char(s, c) {
        None => None,
        Some(k) => Some((s.subrange(0, k), s.subrange(k + 1, s.len() as int))),
    }
}

/// The last position of `c` in `s`.
pub open spec fn rfind_char(s: Seq<char>, c: char) -> Option<int>
    decreases s.len(),
{
    if s.len() == 0 {
        None
    } else if s.last() == c {
        Some(s.len() - 1)
    } else {
        rfind_char(s.drop_last(), c)
    }
}

/// std's `str::rsplit_once` with a character pattern.
pub open spec fn rsplit_once_char(s: Seq<char>, c: char) -> Option<(Seq<char>, Seq<char>)> {
    match rfind_char(s, c) {
        None => None,
        Some(k) => Some((s.subrange(0, k), s.subrange(k + 1, s.len() as int))),
    }
}

/// Drops one trailing `'\r'`.
pub open spec fn strip_cr(l: Seq<char>) -> Seq<char> {
    if l.len() > 0 && l.last() == '\r' {
        l.drop_last()
    } else {
        l
    }
}

/// std's `str::lines`: pieces ended by `'\n'` (a final piece needs none),
/// each with a `'\r'` before its `'\n'` removed.
pub open spec fn lines(s: Seq<char>) -> Seq<Seq<char>>
    decreases s.len(),
{
    if s.len() == 0 {
        Seq::empty()
    } else {
        proof {
            lemma_find_from(s, seq!['\n'], 0);
        }
        match find_char(s, '\n') {
            None => seq![s],
            Some(k) => seq![strip_cr(s.subrange(0, k))] + lines(
                s.subrange(k + 1, s.len() as int),
            ),
        }
    }
}

/// std's `str::replace`: every non-overlapping occurrence of the non-empty
/// pattern `p`, found left to right, replaced by `r`.
pub open spec fn replace_seq(s: Seq<char>, p: Seq<char>, r: Seq<char>) -> Seq<char> {
    join_seq(split_seq(s, p), r)
}

/// The view of each string in a sequence.
pub open spec fn views(v: Seq<String>) -> Seq<Seq<char>> {
    v.map_values(|s: String| s@)
}

/// The Unicode lower-case mapping of `s`, as std's `str::to_lowercase` computes it.
pub uninterp spec fn lowercase(s: Seq<char>) -> Seq<char>;

// ---------------------------------------------------------------------------
// Lemmas
// ---------------------------------------------------------------------------

/// What `find_from` returns.
pub proof fn lemma_find_from(s: Seq<char>, p: Seq<char>, i: int)
    requires
        0 <= i,
    ensures
        match find_from(s, p, i) {
            Some(k) => i <= k && match_at(s, p, k) && forall|j: int|
                i <= j < k ==> !match_at(s, p, j),
            None => forall|j: int| i <= j ==> !match_at(s, p, j),
        },
    decreases s.len() - i,
{
    if i + p.len() > s.len() {
    } else if match_at(s, p, i) {
    } else {
        if p.len() == 0 {
            assert(s.subrange(i, i) =~= p);
        }
        lemma_find_from(s, p, i + 1);
    }
}

/// A position that matches, with no earlier match at or after `i`, is what `find_from` returns.
pub proof fn lemma_find_from_exact(s: Seq<char>, p: Seq<char>, i: int, k: int)
    requires
        0 <= i <= k,
        match_at(s, p, k),
        forall|j: int| i <= j < k ==> !match_at(s, p, j),
    ensures
        find_from(s, p, i) == Some(k),
    decreases k - i,
{
    if i < k {
        lemma_find_from_exact(s, p, i + 1, k);
    }
}

/// No match at or after `i` means `find_from` finds none.
pub proof fn lemma_find_from_none(s: Seq<char>, p: Seq<char>, i: int)
    requires
        0 <= i,
        forall|j: int| i <= j ==> !match_at(s, p, j),
    ensures
        find_from(s, p, i) is None,
    decreases s.len() - i,
{
    if i + p.len() <= s.len() {
        if p.len() == 0 {
            assert(s.subrange(i, i) =~= p);
        }
        lemma_find_from_none(s, p, i + 1);
    }
}

/// `contains_seq` is decided by `find_seq`.
pub proof fn lemma_contains_find(s: Seq<char>, p: Seq<char>)
    ensures
        contains_seq(s, p) <==> find_seq(s, p) is Some,
{
    lemma_find_from(s, p, 0);
    if contains_seq(s, p) {
        let i = choose|i: int| match_at(s, p, i);
        assert(0 <= i);
    }
}

/// Matching in a suffix of `s` is matching in `s`, shifted.
pub proof fn lemma_match_shift(s: Seq<char>, p: Seq<char>, a: int, j: int)
    requires
        0 <= a <= s.len(),
        0 <= j,
    ensures
        match_at(s.subrange(a, s.len() as int), p, j) <==> match_at(s, p, a + j),
{
    if a + j + p.len() <= s.len() {
        assert(s.subrange(a, s.len() as int).subrange(j, j + p.len()) =~= s.subrange(
            a + j,
            a + j + p.len(),
        ));
    }
}

/// Searching a suffix of `s` is searching `s` from the suffix's start.
pub proof fn lemma_find_shift(s: Seq<char>, p: Seq<char>, a: int)
    requires
        0 <= a <= s.len(),
    ensures
        find_seq(s.subrange(a, s.len() as int), p) == (match find_from(s, p, a) {
            Some(k) => Some(k - a),
            None => None,
        }),
{
    let t = s.subrange(a, s.len() as int);
    lemma_find_from(s, p, a);
    lemma_find_from(t, p, 0);
    assert forall|j: int| 0 <= j implies (match_at(t, p, j) <==> match_at(s, p, a + j)) by {
        lemma_match_shift(s, p, a, j);
    }
    match find_from(s, p, a) {
        Some(k) => {
            assert forall|j: int| 0 <= j < k - a implies !match_at(t, p, j) by {
                assert(!match_at(s, p, a + j));
            }
            lemma_find_from_exact(t, p, 0, k - a);
        },
        None => {
            assert forall|j: int| 0 <= j implies !match_at(t, p, j) by {
                assert(!match_at(s, p, a + j));
            }
            lemma_find_from_none(t, p, 0);
        },
    }
}

/// Skipping leading whitespace does not change `trim_start`.
pub proof fn lemma_trim_start_skip(s: Seq<char>, i: int)
    requires
        0 <= i <= s.len(),
        forall|k: int| 0 <= k < i ==> is_ws(#[trigger] s[k]),
    ensures
        trim_start(s) == trim_start(s.subrange(i, s.len() as int)),
    decreases i,
{
    if i == 0 {
        assert(s.subrange(0, s.len() as int) =~= s);
    } else {
        let t = s.drop_first();
        assert forall|k: int| 0 <= k < i - 1 implies is_ws(#[trigger] t[k]) by {
            assert(t[k] == s[k + 1]);
        }
        lemma_trim_start_skip(t, i - 1);
        assert(t.subrange(i - 1, t.len() as int) =~= s.subrange(i, s.len() as int));
    }
}

/// Cutting trailing whitespace does not change `trim_end`.
pub proof fn lemma_trim_end_cut(s: Seq<char>, j: int)
    requires
        0 <= j <= s.len(),
        forall|k: int| j <= k < s.len() ==> is_ws(#[trigger] s[k]),
    ensures
        trim_end(s) == trim_end(s.subrange(0, j)),
    decreases s.len() - j,
{
    if j == s.len() {
        assert(s.subrange(0, j) =~= s);
    } else {
        let t = s.drop_last();
        assert forall|k: int| j <= k < t.len() implies is_ws(#[trigger] t[k]) by {
            assert(t[k] == s[k]);
        }
        lemma_trim_end_cut(t, j);
        assert(t.subrange(0, j) =~= s.subrange(0, j));
    }
}

/// Cutting trailing `c`s does not change `trim_end_char`.
pub proof fn lemma_trim_end_char_cut(s: Seq<char>, c: char, j: int)
    requires
        0 <= j <= s.len(),
        forall|k: int| j <= k < s.len() ==> #[trigger] s[k] == c,
    ensures
        trim_end_char(s, c) == trim_end_char(s.subrange(0, j), c),
    decreases s.len() - j,
{
    if j == s.len() {
        assert(s.subrange(0, j) =~= s);
    } else {
        let t = s.drop_last();
        assert forall|k: int| j <= k < t.len() implies #[trigger] t[k] == c by {
            assert(t[k] == s[k]);
        }
        lemma_trim_end_char_cut(t, c, j);
        assert(t.subrange(0, j) =~= s.subrange(0, j));
    }
}

/// `split_seq` always yields at least one piece.
pub proof fn lemma_split_nonempty(s: Seq<char>, p: Seq<char>)
    ensures
        split_seq(s, p).len() >= 1,
{
    if p.len() > 0 {
        lemma_find_from(s, p, 0);
    }
}

// ---------------------------------------------------------------------------
// Conversions
// ---------------------------------------------------------------------------

/// The characters of `s`, in order.
pub fn chars_of(s: &str) -> (v: Vec<char>)
    ensures
        v@ == s@,
{
    let mut v: Vec<char> = Vec::new();
    for c in it: s.chars()
        invariant
            v@ == it.seq().take(it.index()),
    {
        v.push(c);
    }
    v
}

/// Builds a `String` from characters; calls std's `FromIterator<&char> for String`,
/// which appends the characters in order.
#[verifier::external_body]
pub(crate) fn string_of(v: &[char]) -> (s: String)
    ensures
        s@ == v@,
{
    v.iter().collect()
}

/// An ASCII character lower-cased: `A`..`Z` become `a`..`z`, others stay.
pub open spec fn ascii_lower(c: char) -> char {
    if 'A' <= c && c <= 'Z' {
        ((c as u32) + 32) as char
    } else {
        c
    }
}

/// Whether every character of `s` is ASCII.
pub open spec fn all_ascii(s: Seq<char>) -> bool {
    forall|i: int| 0 <= i < s.len() ==> (#[trigger] s[i] as u32) < 128
}

/// Lower-cases `s`; calls std's `str::to_lowercase`, whose result is named
/// `lowercase`. For ASCII text std's Unicode mapping lower-cases `A`..`Z`
/// and leaves every other character, which the contract states.
#[verifier::external_body]
pub(crate) fn to_lowercase(s: &str) -> (r: String)
    ensures
        r@ == lowercase(s@),
        all_ascii(s@) ==> r@ == s@.map_values(|c: char| ascii_lower(c)),
{
    s.to_lowercase()
}

/// An owned copy of `s`.
pub fn owned(s: &str) -> (r: String)
    ensures
        r@ == s@,
{
    s.to_owned()
}

/// Concatenation of two strings.
pub fn concat(a: &str, b: &str) -> (r: String)
    ensures
        r@ == a@ + b@,
{
    let mut v = chars_of(a);
    let w = chars_of(b);
    let mut i: usize = 0;
    while i < w.len()
        invariant
            i <= w.len(),
            v@ == a@ + w@.take(i as int),
        decreases w.len() - i,
    {
        v.push(w[i]);
        i = i + 1;
        assert(w@.take(i as int) == w@.take((i - 1) as int).push(w@[i - 1]));
    }
    assert(w@.take(w.len() as int) == w@);
    string_of(&v)
}

/// Character-sequence equality.
pub fn chars_eq(a: &[char], b: &[char]) -> (r: bool)
    ensures
        r == (a@ == b@),
{
    if a.len() != b.len() {
        return false;
    }
    let mut i: usize = 0;
    while i < a.len()
        invariant
            a.len() == b.len(),
            i <= a.len(),
            forall|j: int| 0 <= j < i ==> a@[j] == b@[j],
        decreases a.len() - i,
    {
        if a[i] != b[i] {
            return false;
        }
        i = i + 1;
    }
    assert(a@ =~= b@);
    true
}

/// String equality.
pub fn str_eq(a: &str, b: &str) -> (r: bool)
    ensures
        r == (a@ == b@),
{
    let va = chars_of(a);
    let vb = chars_of(b);
    chars_eq(&va, &vb)
}

// ---------------------------------------------------------------------------
// Searching
// ---------------------------------------------------------------------------

/// Whether `p` occurs in `s` at position `i`.
pub fn chars_match_at(s: &[char], p: &[char], i: usize) -> (r: bool)
    ensures
        r == match_at(s@, p@, i as int),
{
    if i > s.len() || p.len() > s.len() - i {
        return false;
    }
    let mut j: usize = 0;
    while j < p.len()
        invariant
            i + p.len() <= s.len(),
            j <= p.len(),
            forall|k: int| 0 <= k < j ==> s@[i + k] == p@[k],
        decreases p.len() - j,
    {
        if s[i + j] != p[j] {
            assert(s@.subrange(i as int, i + p.len())[j as int] != p@[j as int]);
            return false;
        }
        j = j + 1;
    }
    assert(s@.subrange(i as int, i + p.len()) =~= p@);
    true
}

/// std's `str::find` on characters.
pub fn chars_find(s: &[char], p: &[char]) -> (r: Option<usize>)
    ensures
        match r {
            Some(k) => find_seq(s@, p@) == Some(k as int),
            None => find_seq(s@, p@) is None,
        },
{
    let mut i: usize = 0;
    loop
        invariant
            i <= s.len(),
            forall|j: int| 0 <= j < i ==> !match_at(s@, p@, j),
        decreases s.len() - i,
    {
        if chars_match_at(s, p, i) {
            proof {
                lemma_find_from_exact(s@, p@, 0, i as int);
            }
            return Some(i);
        }
        if i == s.len() {
            proof {
                assert forall|j: int| 0 <= j implies !match_at(s@, p@, j) by {
                    if j > s.len() {
                    }
                }
                lemma_find_from_none(s@, p@, 0);
            }
            return None;
        }
        i = i + 1;
    }
}

/// The first occurrence of `p` in `s` at or after `start`.
pub fn chars_find_from(s: &[char], p: &[char], start: usize) -> (r: Option<usize>)
    requires
        start <= s.len(),
    ensures
        match r {
            Some(k) => find_from(s@, p@, start as int) == Some(k as int),
            None => find_from(s@, p@, start as int) is None,
        },
{
    let mut i: usize = start;
    loop
        invariant
            start <= i <= s.len(),
            forall|j: int| start <= j < i ==> !match_at(s@, p@, j),
        decreases s.len() - i,
    {
        if chars_match_at(s, p, i) {
            proof {
                lemma_find_from_exact(s@, p@, start as int, i as int);
            }
            return Some(i);
        }
        if i == s.len() {
            proof {
                assert forall|j: int| start <= j implies !match_at(s@, p@, j) by {
                    if j > s.len() {
                    }
                }
                lemma_find_from_none(s@, p@, start as int);
            }
            return None;
        }
        i = i + 1;
    }
}

/// The characters `s[a..b]`.
pub fn chars_sub(s: &[char], a: usize, b: usize) -> (r: Vec<char>)
    requires
        a <= b <= s.len(),
    ensures
        r@ == s@.subrange(a as int, b as int),
{
    let mut r: Vec<char> = Vec::new();
    let mut i: usize = a;
    while i < b
        invariant
            a <= i <= b <= s.len(),
            r@ == s@.subrange(a as int, i as int),
        decreases b - i,
    {
        r.push(s[i]);
        i = i + 1;
        assert(r@ =~= s@.subrange(a as int, i as int));
    }
    r
}

/// std's `str::split` on characters, with a non-empty pattern.
pub fn chars_split(s: &[char], p: &[char]) -> (r: Vec<Vec<char>>)
    requires
        p.len() > 0,
    ensures
        r@.map_values(|v: Vec<char>| v@) == split_seq(s@, p@),
{
    let mut r: Vec<Vec<char>> = Vec::new();
    let mut start: usize = 0;
    assert(s@.subrange(0, s.len() as int) =~= s@);
    assert(r@.map_values(|v: Vec<char>| v@) + split_seq(s@, p@) =~= split_seq(s@, p@));
    loop
        invariant
            p.len() > 0,
            start <= s.len(),
            r@.map_values(|v: Vec<char>| v@) + split_seq(s@.subrange(start as int, s.len() as int), p@)
                == split_seq(s@, p@),
        decreases s.len() - start,
    {
        let ghost rest = s@.subrange(start as int, s.len() as int);
        proof {
            lemma_find_shift(s@, p@, start as int);
            lemma_find_from(s@, p@, start as int);
        }
        match chars_find_from(s, p, start) {
            Some(k) => {
                let piece = chars_sub(s, start, k);
                let ghost old_r = r@.map_values(|v: Vec<char>| v@);
                r.push(piece);
                proof {
                    assert(rest.subrange(0, k - start) =~= s@.subrange(start as int, k as int));
                    assert(rest.subrange(k - start + p.len(), rest.len() as int) =~= s@.subrange(
                        k + p.len(),
                        s.len() as int,
                    ));
                    assert(r@.map_values(|v: Vec<char>| v@) =~= old_r.push(piece@));
                    assert(split_seq(rest, p@) == seq![rest.subrange(0, k - start)] + split_seq(
                        s@.subrange(k + p.len(), s.len() as int),
                        p@,
                    ));
                    assert(old_r + split_seq(rest, p@) =~= old_r.push(piece@) + split_seq(
                        s@.subrange(k + p.len(), s.len() as int),
                        p@,
                    ));
                }
                start = k + p.len();
            },
            None => {
                let piece = chars_sub(s, start, s.len());
                let ghost old_r = r@.map_values(|v: Vec<char>| v@);
                r.push(piece);
                proof {
                    assert(split_seq(rest, p@) == seq![rest]);
                    assert(r@.map_values(|v: Vec<char>| v@) =~= old_r.push(piece@));
                    assert(old_r + split_seq(rest, p@) =~= old_r.push(piece@));
                }
                return r;
            },
        }
    }
}

/// std's `str::split`, with a non-empty pattern.
pub fn str_split(s: &str, p: &str) -> (r: Vec<Vec<char>>)
    requires
        p@.len() > 0,
    ensures
        r@.map_values(|v: Vec<char>| v@) == split_seq(s@, p@),
{
    let vs = chars_of(s);
    let vp = chars_of(p);
    chars_split(&vs, &vp)
}

/// `parts` joined with `sep`.
pub fn chars_join(parts: &[Vec<char>], sep: &[char]) -> (r: Vec<char>)
    ensures
        r@ == join_seq(parts@.map_values(|v: Vec<char>| v@), sep@),
{
    let ghost pv = parts@.map_values(|v: Vec<char>| v@);
    let mut r: Vec<char> = Vec::new();
    let mut i: usize = 0;
    while i < parts.len()
        invariant
            i <= parts.len(),
            pv == parts@.map_values(|v: Vec<char>| v@),
            r@ == join_seq(pv.take(i as int), sep@),
        decreases parts.len() - i,
    {
        let ghost before = r@;
        if i > 0 {
            let mut j: usize = 0;
            while j < sep.len()
                invariant
                    j <= sep.len(),
                    r@ == before + sep@.take(j as int),
                decreases sep.len() - j,
            {
                r.push(sep[j]);
                j = j + 1;
                assert(r@ =~= before + sep@.take(j as int));
            }
        }
        let ghost mid = r@;
        let w = &parts[i];
        let mut j: usize = 0;
        while j < w.len()
            invariant
                j <= w.len(),
                r@ == mid + w@.take(j as int),
            decreases w.len() - j,
        {
            r.push(w[j]);
            j = j + 1;
            assert(r@ =~= mid + w@.take(j as int));
        }
        proof {
            assert(w@.take(w.len() as int) =~= w@);
            assert(sep@.take(sep.len() as int) =~= sep@);
            assert(pv.take(i + 1).drop_last() =~= pv.take(i as int));
            assert(pv.take(i + 1).last() == w@);
            if i == 0 {
                assert(pv.take(1) =~= seq![w@]);
                assert(r@ =~= w@);
            }
        }
        i = i + 1;
    }
    assert(pv.take(parts.len() as int) =~= pv);
    r
}

/// std's `char::is_whitespace`.
pub fn char_is_ws(c: char) -> (r: bool)
    ensures
        r == is_ws(c),
{
    ('\u{9}' <= c && c <= '\u{d}') || c == ' ' || c == '\u{85}' || c == '\u{a0}' || c
        == '\u{1680}' || ('\u{2000}' <= c && c <= '\u{200a}') || c == '\u{2028}' || c
        == '\u{2029}' || c == '\u{202f}' || c == '\u{205f}' || c == '\u{3000}'
}

/// std's `str::trim` on characters.
pub fn chars_trim(s: &[char]) -> (r: Vec<char>)
    ensures
        r@ == trim(s@),
{
    let mut i: usize = 0;
    while i < s.len() && char_is_ws(s[i])
        invariant
            i <= s.len(),
            forall|k: int| 0 <= k < i ==> is_ws(#[trigger] s@[k]),
        decreases s.len() - i,
    {
        i = i + 1;
    }
    proof {
        lemma_trim_start_skip(s@, i as int);
    }
    let ghost mid = s@.subrange(i as int, s.len() as int);
    assert(trim_start(mid) == mid);
    let mut j: usize = s.len();
    while j > i && char_is_ws(s[j - 1])
        invariant
            i <= j <= s.len(),
            forall|k: int| j <= k < s.len() ==> is_ws(#[trigger] s@[k]),
        decreases j,
    {
        j = j - 1;
    }
    proof {
        assert forall|k: int| j - i <= k < mid.len() implies is_ws(#[trigger] mid[k]) by {
            assert(mid[k] == s@[i + k]);
        }
        lemma_trim_end_cut(mid, j - i);
        assert(mid.subrange(0, j - i) =~= s@.subrange(i as int, j as int));
    }
    chars_sub(s, i, j)
}

/// std's `str::trim`.
pub fn str_trim(s: &str) -> (r: String)
    ensures
        r@ == trim(s@),
{
    let v = chars_of(s);
    let t = chars_trim(&v);
    string_of(&t)
}

/// std's `str::trim_end_matches` with a character pattern, on characters.
pub fn chars_trim_end_char(s: &[char], c: char) -> (r: Vec<char>)
    ensures
        r@ == trim_end_char(s@, c),
{
    let mut j: usize = s.len();
    while j > 0 && s[j - 1] == c
        invariant
            j <= s.len(),
            forall|k: int| j <= k < s.len() ==> #[trigger] s@[k] == c,
        decreases j,
    {
        j = j - 1;
    }
    proof {
        lemma_trim_end_char_cut(s@, c, j as int);
    }
    chars_sub(s, 0, j)
}

/// std's `str::trim_start_matches` with a non-empty string pattern, on characters.
pub fn chars_trim_start_seq(s: &[char], p: &[char]) -> (r: Vec<char>)
    requires
        p.len() > 0,
    ensures
        r@ == trim_start_seq(s@, p@),
{
    let mut i: usize = 0;
    assert(s@.subrange(0, s.len() as int) =~= s@);
    while chars_match_at(s, p, i)
        invariant
            p.len() > 0,
            i <= s.len(),
            trim_start_seq(s@, p@) == trim_start_seq(s@.subrange(i as int, s.len() as int), p@),
        decreases s.len() - i,
    {
        proof {
            lemma_match_shift(s@, p@, i as int, 0);
            assert(s@.subrange(i as int, s.len() as int).subrange(
                p.len() as int,
                s.len() - i,
            ) =~= s@.subrange(i + p.len(), s.len() as int));
        }
        i = i + p.len();
    }
    proof {
        lemma_match_shift(s@, p@, i as int, 0);
    }
    chars_sub(s, i, s.len())
}

/// std's `str::strip_prefix`, on characters.
pub fn chars_strip_prefix(s: &[char], p: &[char]) -> (r: Option<Vec<char>>)
    ensures
        match r {
            Some(v) => strip_prefix(s@, p@) == Some(v@),
            None => strip_prefix(s@, p@) is None,
        },
{
    if chars_match_at(s, p, 0) {
        Some(chars_sub(s, p.len(), s.len()))
    } else {
        None
    }
}

/// std's `str::split_once` with a character pattern, on characters.
pub fn chars_split_once(s: &[char], c: char) -> (r: Option<(Vec<char>, Vec<char>)>)
    ensures
        match r {
            Some((a, b)) => split_once_char(s@, c) == Some((a@, b@)),
            None => split_once_char(s@, c) is None,
        },
{
    let pat = vec![c];
    assert(pat@ =~= seq![c]);
    proof {
        lemma_find_from(s@, seq![c], 0);
    }
    match chars_find(s, &pat) {
        Some(k) => {
            proof {
                lemma_find_from(s@, pat@, 0);
            }
            assert(k + 1 <= s.len());
            let a = chars_sub(s, 0, k);
            let b = chars_sub(s, k + 1, s.len());
            Some((a, b))
        },
        None => None,
    }
}

/// std's `str::rsplit_once` with a character pattern, on characters.
pub fn chars_rsplit_once(s: &[char], c: char) -> (r: Option<(Vec<char>, Vec<char>)>)
    ensures
        match r {
            Some((a, b)) => rsplit_once_char(s@, c) == Some((a@, b@)),
            None => rsplit_once_char(s@, c) is None,
        },
{
    let mut j: usize = s.len();
    assert(s@.subrange(0, s.len() as int) =~= s@);
    while j > 0 && s[j - 1] != c
        invariant
            j <= s.len(),
            rfind_char(s@, c) == rfind_char(s@.subrange(0, j as int), c),
        decreases j,
    {
        assert(s@.subrange(0, j as int).drop_last() =~= s@.subrange(0, j - 1));
        j = j - 1;
    }
    if j == 0 {
        None
    } else {
        let a = chars_sub(s, 0, j - 1);
        let b = chars_sub(s, j, s.len());
        Some((a, b))
    }
}

/// std's `str::lines`, on characters.
pub fn chars_lines(s: &[char]) -> (r: Vec<Vec<char>>)
    ensures
        r@.map_values(|v: Vec<char>| v@) == lines(s@),
{
    let mut r: Vec<Vec<char>> = Vec::new();
    let mut start: usize = 0;
    let pat = vec!['\n'];
    assert(pat@ =~= seq!['\n']);
    assert(s@.subrange(0, s.len() as int) =~= s@);
    assert(r@.map_values(|v: Vec<char>| v@) + lines(s@) =~= lines(s@));
    loop
        invariant
            pat@ == seq!['\n'],
            start <= s.len(),
            r@.map_values(|v: Vec<char>| v@) + lines(s@.subrange(start as int, s.len() as int))
                == lines(s@),
        decreases s.len() - start,
    {
        let ghost rest = s@.subrange(start as int, s.len() as int);
        let ghost old_r = r@.map_values(|v: Vec<char>| v@);
        if start == s.len() {
            assert(lines(rest) =~= Seq::<Seq<char>>::empty());
            assert(old_r + lines(rest) =~= old_r);
            return r;
        }
        proof {
            lemma_find_shift(s@, pat@, start as int);
            lemma_find_from(s@, pat@, start as int);
        }
        match chars_find_from(s, &pat, start) {
            Some(k) => {
                let mut piece = chars_sub(s, start, k);
                let ghost raw = piece@;
                if piece.len() > 0 && piece[piece.len() - 1] == '\r' {
                    piece.pop();
                }
                assert(piece@ == strip_cr(raw));
                r.push(piece);
                proof {
                    assert(rest.subrange(0, k - start) =~= raw);
                    assert(rest.subrange(k - start + 1, rest.len() as int) =~= s@.subrange(
                        k + 1,
                        s.len() as int,
                    ));
                    assert(r@.map_values(|v: Vec<char>| v@) =~= old_r.push(piece@));
                    assert(old_r + lines(rest) =~= old_r.push(piece@) + lines(
                        s@.subrange(k + 1, s.len() as int),
                    ));
                }
                start = k + 1;
            },
            None => {
                let piece = chars_sub(s, start, s.len());
                r.push(piece);
                proof {
                    assert(lines(rest) == seq![rest]);
                    assert(r@.map_values(|v: Vec<char>| v@) =~= old_r.push(piece@));
                    assert(old_r + lines(rest) =~= old_r.push(piece@));
                }
                return r;
            },
        }
    }
}

/// std's `str::replace` with a non-empty pattern.
pub fn str_replace(s: &str, p: &str, r: &str) -> (out: String)
    requires
        p@.len() > 0,
    ensures
        out@ == replace_seq(s@, p@, r@),
{
    let parts = str_split(s, p);
    let rv = chars_of(r);
    let j = chars_join(&parts, &rv);
    string_of(&j)
}

/// std's `str::contains` on characters.
pub fn chars_contains(s: &[char], p: &[char]) -> (r: bool)
    ensures
        r == contains_seq(s@, p@),
{
    proof {
        lemma_contains_find(s@, p@);
    }
    chars_find(s, p).is_some()
}

/// std's `str::contains`.
pub fn str_contains(s: &str, p: &str) -> (r: bool)
    ensures
        r == contains_seq(s@, p@),
{
    let vs = chars_of(s);
    let vp = chars_of(p);
    chars_contains(&vs, &vp)
}

/// std's `str::starts_with`.
pub fn str_starts_with(s: &str, p: &str) -> (r: bool)
    ensures
        r == has_prefix(s@, p@),
{
    let vs = chars_of(s);
    let vp = chars_of(p);
    chars_match_at(&vs, &vp, 0)
}

/// std's `str::ends_with`.
pub fn str_ends_with(s: &str, p: &str) -> (r: bool)
    ensures
        r == has_suffix(s@, p@),
{
    let vs = chars_of(s);
    let vp = chars_of(p);
    if vp.len() > vs.len() {
        return false;
    }
    chars_match_at(&vs, &vp, vs.len() - vp.len())
}


/// std's `str::trim_end_matches` on characters, with a string pattern.
pub fn chars_trim_end_seq(s: &[char], p: &[char]) -> (r: Vec<char>)
    ensures
        r@ == trim_end_seq(s@, p@),
{
    let mut end: usize = s.len();
    assert(s@.subrange(0, s.len() as int) =~= s@);
    loop
        invariant
            end <= s.len(),
            trim_end_seq(s@.subrange(0, end as int), p@) == trim_end_seq(s@, p@),
        ensures
            end <= s.len(),
            trim_end_seq(s@, p@) == s@.subrange(0, end as int),
        decreases end,
    {
        let ghost t = s@.subrange(0, end as int);
        if p.len() > 0 && p.len() <= end && chars_match_at(s, p, end - p.len()) {
            proof {
                assert(t.subrange(end - p.len(), end as int) =~= s@.subrange(end - p.len(), end as int));
                assert(t.subrange(0, end - p.len()) =~= s@.subrange(0, end - p.len()));
            }
            end = end - p.len();
        } else {
            proof {
                if p.len() > 0 && has_suffix(t, p@) {
                    assert(t.subrange(end - p.len(), end as int) =~= s@.subrange(end - p.len(), end as int));
                    assert(match_at(s@, p@, end - p.len()));
                }
                assert(trim_end_seq(t, p@) == t);
            }
            break;
        }
    }
    chars_sub(s, 0, end)
}


/// The decimal digits of `n`, without leading zeros (`"0"` for zero), as
/// std's `Display` for integers writes them.
pub open spec fn decimal(n: nat) -> Seq<char>
    decreases n,
{
    if n < 10 {
        seq![digit_char(n)]
    } else {
        decimal(n / 10) + seq![digit_char(n % 10)]
    }
}

/// The character of a decimal digit.
pub open spec fn digit_char(d: nat) -> char {
    if d < 10 {
        (('0' as u32) + (d as u32)) as char
    } else {
        '0'
    }
}

fn digit_char_exec(d: u128) -> (c: char)
    requires
        d < 10,
    ensures
        c == digit_char(d as nat),
{
    let b: u8 = 48u8 + (d as u8);
    b as char
}

/// The decimal text of `n`.
pub fn u128_to_string(n: u128) -> (r: String)
    ensures
        r@ == decimal(n as nat),
{
    let mut digits: Vec<char> = Vec::new();
    let mut m: u128 = n;
    let ghost mut suffix: Seq<char> = Seq::empty();
    loop
        invariant_except_break
            decimal(n as nat) == decimal(m as nat) + suffix,
        invariant
            digits@ == suffix.reverse(),
        ensures
            decimal(n as nat) == suffix,
            digits@ == suffix.reverse(),
        decreases m,
    {
        if m < 10 {
            digits.push(digit_char_exec(m));
            proof {
                assert(decimal(m as nat) == seq![digit_char(m as nat)]);
                assert(digits@ =~= (seq![digit_char(m as nat)] + suffix).reverse());
                suffix = seq![digit_char(m as nat)] + suffix;
                assert(decimal(n as nat) =~= suffix);
            }
            break;
        }
        let d = m % 10;
        digits.push(digit_char_exec(d));
        proof {
            assert(decimal(m as nat) == decimal((m / 10) as nat) + seq![digit_char((m % 10) as nat)]);
            assert(digits@ =~= (seq![digit_char(d as nat)] + suffix).reverse());
            suffix = seq![digit_char(d as nat)] + suffix;
            assert(decimal(n as nat) =~= decimal((m / 10) as nat) + suffix);
        }
        m = m / 10;
    }
    let mut out: Vec<char> = Vec::new();
    let mut i: usize = digits.len();
    while i > 0
        invariant
            i <= digits@.len(),
            digits@ == suffix.reverse(),
            out@ == suffix.subrange(0, digits@.len() - i),
        decreases i,
    {
        i = i - 1;
        out.push(digits[i]);
        proof {
            assert(out@ =~= suffix.subrange(0, digits@.len() - i));
        }
    }
    assert(out@ =~= suffix);
    string_of(&out)
}


/// The decimal text of `n`.
pub fn u64_to_string(n: u64) -> (r: String)
    ensures
        r@ == decimal(n as nat),
{
    u128_to_string(n as u128)
}

/// `s` is one or more ASCII digits.
pub open spec fn all_digits(s: Seq<char>) -> bool {
    s.len() > 0 && forall|i: int| 0 <= i < s.len() ==> '0' <= #[trigger] s[i] && s[i] <= '9'
}

/// The value of a string of decimal digits.
pub open spec fn digits_value(s: Seq<char>) -> nat
    decreases s.len(),
{
    if s.len() == 0 {
        0
    } else {
        digits_value(s.drop_last()) * 10 + ((s.last() as int - '0' as int) as nat)
    }
}

/// std's `from_str` for an unsigned integer type whose largest value is
/// `max`: an optional `+`, then decimal digits whose value is at most `max`.
pub open spec fn parsed_decimal(s: Seq<char>, max: nat) -> Option<nat> {
    let d = if s.len() > 0 && s[0] == '+' {
        s.subrange(1, s.len() as int)
    } else {
        s
    };
    if all_digits(d) && digits_value(d) <= max {
        Some(digits_value(d))
    } else {
        None
    }
}

proof fn lemma_digits_value_grows(s: Seq<char>, i: int, j: int)
    requires
        0 <= i <= j <= s.len(),
        forall|k: int| 0 <= k < s.len() ==> '0' <= #[trigger] s[k] && s[k] <= '9',
    ensures
        digits_value(s.subrange(0, i)) <= digits_value(s.subrange(0, j)),
    decreases j - i,
{
    if i < j {
        lemma_digits_value_grows(s, i, j - 1);
        assert(s.subrange(0, j).drop_last() =~= s.subrange(0, j - 1));
    }
}

/// Parses an unsigned decimal number no greater than `max`, as std's
/// `str::parse` does for the unsigned type whose largest value is `max`.
pub fn parse_decimal(s: &[char], max: u64) -> (r: Option<u64>)
    ensures
        match parsed_decimal(s@, max as nat) {
            Some(v) => r == Some(v as u64),
            None => r is None,
        },
{
    let start: usize = if s.len() > 0 && s[0] == '+' { 1 } else { 0 };
    let ghost d = if s@.len() > 0 && s@[0] == '+' {
        s@.subrange(1, s@.len() as int)
    } else {
        s@
    };
    assert(d =~= s@.subrange(start as int, s@.len() as int));
    if start >= s.len() {
        return None;
    }
    let mut acc: u64 = 0;
    let mut i: usize = start;
    while i < s.len()
        invariant
            start <= i <= s.len(),
            d == s@.subrange(start as int, s@.len() as int),
            d == (if s@.len() > 0 && s@[0] == '+' { s@.subrange(1, s@.len() as int) } else { s@ }),
            forall|k: int| start <= k < i ==> '0' <= #[trigger] s@[k] && s@[k] <= '9',
            acc as int == digits_value(d.subrange(0, i - start)),
            acc <= max,
        decreases s.len() - i,
    {
        let c = s[i];
        if !('0' <= c && c <= '9') {
            proof {
                assert(d[i - start] == c);
                assert(!all_digits(d));
            }
            return None;
        }
        let digit: u64 = ((c as u32) - ('0' as u32)) as u64;
        proof {
            assert(d.subrange(0, i + 1 - start).drop_last() =~= d.subrange(0, i - start));
        }
        let next: u128 = (acc as u128) * 10 + (digit as u128);
        if next > max as u128 {
            proof {
                assert(d.subrange(0, i + 1 - start).last() == c);
                assert(digits_value(d.subrange(0, i + 1 - start)) == next);
                if all_digits(d) {
                    lemma_digits_value_grows(d, i + 1 - start, d.len() as int);
                    assert(d.subrange(0, d.len() as int) =~= d);
                }
            }
            return None;
        }
        proof {
            assert(d.subrange(0, i + 1 - start).last() == c);
        }
        acc = next as u64;
        i = i + 1;
    }
    assert(d.subrange(0, s.len() - start) =~= d);
    Some(acc)
}


/// The number of UTF-8 bytes of a character.
pub open spec fn char_width(c: char) -> nat {
    if (c as u32) < 0x80 {
        1
    } else if (c as u32) < 0x800 {
        2
    } else if (c as u32) < 0x10000 {
        3
    } else {
        4
    }
}

/// The number of UTF-8 bytes of a text.
pub open spec fn utf8_len(s: Seq<char>) -> nat
    decreases s.len(),
{
    if s.len() == 0 {
        0
    } else {
        utf8_len(s.drop_last()) + char_width(s.last())
    }
}

proof fn lemma_utf8_len_bound(s: Seq<char>)
    ensures
        utf8_len(s) <= 4 * s.len(),
    decreases s.len(),
{
    if s.len() > 0 {
        lemma_utf8_len_bound(s.drop_last());
    }
}

/// The number of UTF-8 bytes of a text, counted character by character.
pub fn utf8_len_of(s: &str) -> (n: u128)
    ensures
        n == utf8_len(s@),
{
    let cs = chars_of(s);
    let mut n: u128 = 0;
    let mut i: usize = 0;
    while i < cs.len()
        invariant
            i <= cs@.len(),
            n == utf8_len(cs@.take(i as int)),
            n <= 4 * i,
        decreases cs.len() - i,
    {
        assert(cs@.take(i + 1).drop_last() =~= cs@.take(i as int));
        let c = cs[i];
        let w: u128 = if (c as u32) < 0x80 {
            1
        } else if (c as u32) < 0x800 {
            2
        } else if (c as u32) < 0x10000 {
            3
        } else {
            4
        };
        n = n + w;
        i = i + 1;
    }
    assert(cs@.take(cs.len() as int) =~= cs@);
    n
}


/// `a` comes no later than `b` in the order std gives strings (character
/// by character, a prefix first).
pub open spec fn str_le(a: Seq<char>, b: Seq<char>) -> bool
    decreases a.len(),
{
    if a.len() == 0 {
        true
    } else if b.len() == 0 {
        false
    } else if a[0] != b[0] {
        a[0] < b[0]
    } else {
        str_le(a.drop_first(), b.drop_first())
    }
}

/// Any two strings are ordered one way or the other.
pub proof fn lemma_str_le_total(a: Seq<char>, b: Seq<char>)
    ensures
        str_le(a, b) || str_le(b, a),
    decreases a.len(),
{
    if a.len() > 0 && b.len() > 0 && a[0] == b[0] {
        lemma_str_le_total(a.drop_first(), b.drop_first());
    }
}

/// The order is transitive.
pub proof fn lemma_str_le_transitive(a: Seq<char>, b: Seq<char>, c: Seq<char>)
    requires
        str_le(a, b),
        str_le(b, c),
    ensures
        str_le(a, c),
    decreases a.len(),
{
    if a.len() > 0 && b.len() > 0 && c.len() > 0 && a[0] == b[0] && b[0] == c[0] {
        lemma_str_le_transitive(a.drop_first(), b.drop_first(), c.drop_first());
    }
}

/// Whether `a` comes no later than `b`.
pub fn chars_le(a: &[char], b: &[char]) -> (r: bool)
    ensures
        r == str_le(a@, b@),
{
    let mut i: usize = 0;
    assert(a@.subrange(0, a@.len() as int) =~= a@);
    assert(b@.subrange(0, b@.len() as int) =~= b@);
    while i < a.len() && i < b.len() && a[i] == b[i]
        invariant
            i <= a.len(),
            i <= b.len(),
            str_le(a@, b@) == str_le(a@.subrange(i as int, a@.len() as int), b@.subrange(i as int, b@.len() as int)),
        decreases a.len() - i,
    {
        proof {
            let sa = a@.subrange(i as int, a@.len() as int);
            let sb = b@.subrange(i as int, b@.len() as int);
            assert(sa.drop_first() =~= a@.subrange(i + 1, a@.len() as int));
            assert(sb.drop_first() =~= b@.subrange(i + 1, b@.len() as int));
        }
        i = i + 1;
    }
    proof {
        let sa = a@.subrange(i as int, a@.len() as int);
        let sb = b@.subrange(i as int, b@.len() as int);
        if i < a.len() && i < b.len() {
            assert(sa[0] == a@[i as int]);
            assert(sb[0] == b@[i as int]);
        }
    }
    if i == a.len() {
        true
    } else if i == b.len() {
        false
    } else {
        a[i] < b[i]
    }
}

/// The strings in the order std's `sort` gives them.
pub fn sort_strings(v: Vec<String>) -> (r: Vec<String>)
    ensures
        views(r@).to_multiset() == views(v@).to_multiset(),
        forall|i: int, j: int| 0 <= i < j < r@.len() ==> str_le(#[trigger] views(r@)[i], #[trigger] views(r@)[j]),
{
    let ghost vv = views(v@);
    let mut rest = v;
    let mut out: Vec<String> = Vec::new();
    let ghost mut taken: Seq<Seq<char>> = Seq::empty();
    assert(vv =~= taken + views(rest@));
    assert(views(out@) =~= taken);
    while rest.len() > 0
        invariant
            vv == taken + views(rest@),
            views(out@).to_multiset() == taken.to_multiset(),
            forall|i: int, j: int| 0 <= i < j < out@.len() ==> str_le(#[trigger] views(out@)[i], #[trigger] views(out@)[j]),
        decreases rest.len(),
    {
        let ghost r0 = views(rest@);
        let x = rest.remove(0);
        let xc = chars_of(x.as_str());
        let ghost ov = views(out@);
        let mut p: usize = 0;
        while p < out.len() && chars_le(&chars_of(out[p].as_str()), &xc)
            invariant
                p <= out@.len(),
                ov == views(out@),
                xc@ == x@,
                forall|k: int| 0 <= k < p ==> str_le(#[trigger] ov[k], x@),
            decreases out.len() - p,
        {
            p = p + 1;
        }
        proof {
            if p < out@.len() {
                lemma_str_le_total(ov[p as int], x@);
            }
            vstd::seq_lib::to_multiset_insert(ov, p as int, x@);
            vstd::seq_lib::to_multiset_build(taken, x@);
            assert(r0 =~= seq![x@] + views(rest@));
            assert(vv =~= taken.push(x@) + views(rest@));
        }
        out.insert(p, x);
        proof {
            assert(views(out@) =~= ov.insert(p as int, x@));
            let nv = views(out@);
            assert forall|i: int, j: int| 0 <= i < j < nv.len() implies str_le(#[trigger] nv[i], #[trigger] nv[j]) by {
                if j < p {
                    assert(nv[i] == ov[i] && nv[j] == ov[j]);
                } else if j == p {
                    assert(nv[i] == ov[i]);
                } else if i == p {
                    assert(nv[j] == ov[j - 1]);
                    assert(str_le(x@, ov[p as int]));
                    if j - 1 > p {
                        lemma_str_le_transitive(x@, ov[p as int], ov[j - 1]);
                    }
                } else if i < p {
                    assert(nv[i] == ov[i] && nv[j] == ov[j - 1]);
                    if j - 1 >= p {
                        assert(i < j - 1);
                    }
                } else {
                    assert(nv[i] == ov[i - 1] && nv[j] == ov[j - 1]);
                }
            }
            taken = taken.push(x@);
        }
    }
    assert(taken =~= vv);
    out
}

} // verus!
