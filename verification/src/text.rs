//! Character-level text handling: Unicode whitespace trimming, ASCII case
//! folding, substring search and splitting on a separator character.
//!
//! Every operation works on the `Seq<char>` view of a string, which is how
//! the rest of the crate states its contracts.
use vstd::prelude::*;

verus! {

/// The Unicode `White_Space` property, which is what `char::is_whitespace`
/// and `str::trim` use.
pub open spec fn is_white_space(c: char) -> bool {
    ||| ('\t' <= c && c <= '\r')
    ||| c == ' '
    ||| c == '\u{85}'
    ||| c == '\u{a0}'
    ||| c == '\u{1680}'
    ||| ('\u{2000}' <= c && c <= '\u{200a}')
    ||| c == '\u{2028}'
    ||| c == '\u{2029}'
    ||| c == '\u{202f}'
    ||| c == '\u{205f}'
    ||| c == '\u{3000}'
}

/// `s` without its leading whitespace.
pub open spec fn trim_start(s: Seq<char>) -> Seq<char>
    decreases s.len(),
{
    if s.len() > 0 && is_white_space(s[0]) {
        trim_start(s.drop_first())
    } else {
        s
    }
}

/// `s` without its trailing whitespace.
pub open spec fn trim_end(s: Seq<char>) -> Seq<char>
    decreases s.len(),
{
    if s.len() > 0 && is_white_space(s.last()) {
        trim_end(s.drop_last())
    } else {
        s
    }
}

/// `s` without leading and trailing whitespace, as `str::trim` gives it.
pub open spec fn trim(s: Seq<char>) -> Seq<char> {
    trim_end(trim_start(s))
}

/// A string that is empty once trimmed: it holds whitespace only.
pub open spec fn is_blank(s: Seq<char>) -> bool {
    trim(s).len() == 0
}

pub open spec fn is_ascii_upper(c: char) -> bool {
    'A' <= c && c <= 'Z'
}

/// ASCII lowercase of one character; every other character is kept.
pub open spec fn ascii_lower(c: char) -> char {
    if is_ascii_upper(c) {
        ((c as u32) + 32) as char
    } else {
        c
    }
}

/// `str::to_ascii_lowercase`, on the character view.
pub open spec fn lower(s: Seq<char>) -> Seq<char> {
    s.map_values(|c: char| ascii_lower(c))
}

/// `needle` occurs in `hay` at position `i`.
pub open spec fn occurs_at(hay: Seq<char>, needle: Seq<char>, i: int) -> bool {
    0 <= i && i + needle.len() <= hay.len() && hay.subrange(i, i + needle.len()) == needle
}

/// `str::contains` with a string pattern: `needle` occurs somewhere in `hay`
/// (the empty needle occurs everywhere).
pub open spec fn contains(hay: Seq<char>, needle: Seq<char>) -> bool {
    exists|i: int| occurs_at(hay, needle, i)
}

/// `hay` begins with `prefix`.
pub open spec fn starts_with(hay: Seq<char>, prefix: Seq<char>) -> bool {
    prefix.len() <= hay.len() && hay.take(prefix.len() as int) == prefix
}

/// The position of the first `sep` in `s`, or `s.len()` where there is none.
pub open spec fn index_of(s: Seq<char>, sep: char) -> nat
    decreases s.len(),
{
    if s.len() == 0 {
        0
    } else if s[0] == sep {
        0
    } else {
        1 + index_of(s.drop_first(), sep)
    }
}

/// What `s.split(sep).next()` yields: the text before the first `sep`
/// (all of `s` where there is none).
pub open spec fn first_field(s: Seq<char>, sep: char) -> Seq<char> {
    s.take(index_of(s, sep) as int)
}

/// What `s.split(sep).nth(1)` yields: the text between the first and the
/// second `sep` (up to the end where there is no second one), or `None` where
/// `s` holds no `sep` at all.
pub open spec fn second_field(s: Seq<char>, sep: char) -> Option<Seq<char>> {
    let i = index_of(s, sep);
    if i == s.len() {
        None
    } else {
        Some(first_field(s.skip(i + 1int), sep))
    }
}

pub proof fn lemma_index_of(s: Seq<char>, sep: char, i: int)
    requires
        0 <= i <= s.len(),
        forall|j: int| 0 <= j < i ==> s[j] != sep,
        i == s.len() || s[i] == sep,
    ensures
        index_of(s, sep) == i,
    decreases s.len(),
{
    if s.len() > 0 && s[0] != sep {
        lemma_index_of(s.drop_first(), sep, i - 1);
    }
}

pub proof fn lemma_index_of_bounds(s: Seq<char>, sep: char)
    ensures
        index_of(s, sep) <= s.len(),
        index_of(s, sep) < s.len() ==> s[index_of(s, sep) as int] == sep,
        forall|j: int| 0 <= j < index_of(s, sep) ==> s[j] != sep,
    decreases s.len(),
{
    if s.len() > 0 && s[0] != sep {
        lemma_index_of_bounds(s.drop_first(), sep);
        assert forall|j: int| 0 <= j < index_of(s, sep) implies s[j] != sep by {
            if j > 0 {
                assert(s[j] == s.drop_first()[j - 1]);
            }
        }
    }
}

/// ASCII lowercasing twice is lowercasing once.
pub proof fn lemma_lower_idempotent(s: Seq<char>)
    ensures
        lower(lower(s)) == lower(s),
{
    assert(lower(lower(s)) =~= lower(s));
}

/// Lowercasing neither makes nor unmakes whitespace.
pub proof fn lemma_white_space_lower(c: char)
    ensures
        is_white_space(ascii_lower(c)) == is_white_space(c),
{
}

pub proof fn lemma_trim_start_lower(s: Seq<char>)
    ensures
        trim_start(lower(s)) == lower(trim_start(s)),
    decreases s.len(),
{
    if s.len() > 0 {
        lemma_white_space_lower(s[0]);
        assert(lower(s)[0] == ascii_lower(s[0]));
        if is_white_space(s[0]) {
            assert(lower(s).drop_first() =~= lower(s.drop_first()));
            lemma_trim_start_lower(s.drop_first());
        }
    } else {
        assert(lower(s) =~= s);
    }
}

pub proof fn lemma_trim_end_lower(s: Seq<char>)
    ensures
        trim_end(lower(s)) == lower(trim_end(s)),
    decreases s.len(),
{
    if s.len() > 0 {
        lemma_white_space_lower(s.last());
        assert(lower(s).last() == ascii_lower(s.last()));
        if is_white_space(s.last()) {
            assert(lower(s).drop_last() =~= lower(s.drop_last()));
            lemma_trim_end_lower(s.drop_last());
        }
    } else {
        assert(lower(s) =~= s);
    }
}

/// Trimming and ASCII lowercasing can be done in either order.
pub proof fn lemma_trim_lower(s: Seq<char>)
    ensures
        trim(lower(s)) == lower(trim(s)),
{
    lemma_trim_start_lower(s);
    lemma_trim_end_lower(trim_start(s));
}

/// The characters of `s`, one by one.
pub fn chars_of(s: &str) -> (v: Vec<char>)
    ensures
        v@ == s@,
{
    let mut v: Vec<char> = Vec::new();
    let it = s.chars();
    for c in iter: it
        invariant
            v@ == iter.seq().take(iter.index() as int),
    {
        v.push(c);
    }
    v
}

pub fn is_white_space_char(c: char) -> (r: bool)
    ensures
        r == is_white_space(c),
{
    ('\t' <= c && c <= '\r') || c == ' ' || c == '\u{85}' || c == '\u{a0}' || c == '\u{1680}'
        || ('\u{2000}' <= c && c <= '\u{200a}') || c == '\u{2028}' || c == '\u{2029}' || c
        == '\u{202f}' || c == '\u{205f}' || c == '\u{3000}'
}

pub fn ascii_lower_char(c: char) -> (r: char)
    ensures
        r == ascii_lower(c),
{
    if 'A' <= c && c <= 'Z' {
        ((c as u8) + 32) as char
    } else {
        c
    }
}

/// The bounds of the trimmed part of `v`: `v[start..end]` is `trim(v)`.
pub fn trim_bounds(v: &Vec<char>) -> (r: (usize, usize))
    ensures
        r.0 <= r.1 <= v.len(),
        v@.subrange(r.0 as int, r.1 as int) == trim(v@),
{
    let n = v.len();
    let mut i: usize = 0;
    assert(v@.subrange(0, n as int) == v@);
    while i < n && is_white_space_char(v[i])
        invariant
            i <= n == v.len(),
            trim_start(v@) == trim_start(v@.subrange(i as int, n as int)),
        decreases n - i,
    {
        assert(v@.subrange(i as int, n as int).drop_first() == v@.subrange(i + 1, n as int));
        i = i + 1;
    }
    let ghost rest = v@.subrange(i as int, n as int);
    assert(trim_start(rest) == rest);
    let mut j: usize = n;
    while j > i && is_white_space_char(v[j - 1])
        invariant
            i <= j <= n == v.len(),
            rest == v@.subrange(i as int, n as int),
            trim_end(rest) == trim_end(v@.subrange(i as int, j as int)),
        decreases j,
    {
        assert(v@.subrange(i as int, j as int).drop_last() == v@.subrange(i as int, j - 1));
        j = j - 1;
    }
    (i, j)
}

/// `trim(s)` as characters.
pub fn trimmed_chars(s: &str) -> (r: Vec<char>)
    ensures
        r@ == trim(s@),
{
    let v = chars_of(s);
    let (start, end) = trim_bounds(&v);
    let mut r: Vec<char> = Vec::new();
    let mut k = start;
    while k < end
        invariant
            start <= k <= end <= v.len(),
            r@ == v@.subrange(start as int, k as int),
        decreases end - k,
    {
        r.push(v[k]);
        k = k + 1;
    }
    r
}

/// `s.trim()` as an owned string.
pub fn trimmed(s: &str) -> (r: String)
    ensures
        r@ == trim(s@),
{
    let v = chars_of(s);
    let (start, end) = trim_bounds(&v);
    String::from_str(s.substring_char(start, end))
}

/// `s.trim().is_empty()`.
pub fn blank(s: &str) -> (r: bool)
    ensures
        r == is_blank(s@),
{
    let v = chars_of(s);
    let (start, end) = trim_bounds(&v);
    start == end
}

/// The ASCII lowercase of a character sequence.
pub fn lower_chars(v: &Vec<char>) -> (r: Vec<char>)
    ensures
        r@ == lower(v@),
{
    let mut r: Vec<char> = Vec::new();
    let mut k: usize = 0;
    while k < v.len()
        invariant
            k <= v.len(),
            r@ == lower(v@.take(k as int)),
        decreases v.len() - k,
    {
        r.push(ascii_lower_char(v[k]));
        assert(v@.take(k + 1) == v@.take(k as int).push(v@[k as int]));
        k = k + 1;
    }
    assert(v@.take(v.len() as int) == v@);
    r
}

/// Whether `needle` occurs in `hay`.
pub fn contains_chars(hay: &Vec<char>, needle: &Vec<char>) -> (r: bool)
    ensures
        r == contains(hay@, needle@),
{
    let n = hay.len();
    let m = needle.len();
    if m > n {
        assert forall|i: int| !occurs_at(hay@, needle@, i) by {}
        return false;
    }
    let mut i: usize = 0;
    while i <= n - m
        invariant
            m <= n == hay.len(),
            m == needle.len(),
            forall|k: int| 0 <= k < i ==> !occurs_at(hay@, needle@, k),
        decreases n - m + 1 - i,
    {
        let mut j: usize = 0;
        let mut same = true;
        while j < m && same
            invariant
                j <= m == needle.len(),
                i + m <= n == hay.len(),
                same ==> forall|t: int| 0 <= t < j ==> hay@[i + t] == needle@[t],
                !same ==> exists|t: int| 0 <= t < m && hay@[i + t] != needle@[t],
            decreases m - j + (if same { 1int } else { 0 }),
        {
            if hay[i + j] != needle[j] {
                same = false;
            } else {
                j = j + 1;
            }
        }
        if same {
            assert(hay@.subrange(i as int, i + m) == needle@);
            assert(occurs_at(hay@, needle@, i as int));
            return true;
        }
        assert(!occurs_at(hay@, needle@, i as int)) by {
            let t = choose|t: int| 0 <= t < m && hay@[i + t] != needle@[t];
            if hay@.subrange(i as int, i + m) == needle@ {
                assert(hay@.subrange(i as int, i + m)[t] == hay@[i + t]);
            }
        }
        i = i + 1;
    }
    assert forall|k: int| !occurs_at(hay@, needle@, k) by {
        if 0 <= k && k + m <= n {
            assert(k < i);
        }
    }
    false
}

/// Whether two character sequences are equal.
pub fn equal_chars(a: &Vec<char>, b: &Vec<char>) -> (r: bool)
    ensures
        r == (a@ == b@),
{
    if a.len() != b.len() {
        return false;
    }
    let mut k: usize = 0;
    while k < a.len()
        invariant
            k <= a.len() == b.len(),
            forall|t: int| 0 <= t < k ==> a@[t] == b@[t],
        decreases a.len() - k,
    {
        if a[k] != b[k] {
            assert(a@[k as int] != b@[k as int]);
            return false;
        }
        k = k + 1;
    }
    assert(a@ =~= b@);
    true
}

/// Whether `hay` begins with `prefix`.
pub fn starts_with_chars(hay: &Vec<char>, prefix: &Vec<char>) -> (r: bool)
    ensures
        r == starts_with(hay@, prefix@),
{
    if prefix.len() > hay.len() {
        return false;
    }
    let mut k: usize = 0;
    while k < prefix.len()
        invariant
            k <= prefix.len() <= hay.len(),
            forall|t: int| 0 <= t < k ==> hay@[t] == prefix@[t],
        decreases prefix.len() - k,
    {
        if hay[k] != prefix[k] {
            assert(hay@.take(prefix.len() as int)[k as int] != prefix@[k as int]);
            return false;
        }
        k = k + 1;
    }
    assert(hay@.take(prefix.len() as int) =~= prefix@);
    true
}

/// The position of the first `sep` in `v`, or `v.len()` where there is none.
pub fn find_char(v: &Vec<char>, sep: char) -> (r: usize)
    ensures
        r == index_of(v@, sep),
{
    let mut i: usize = 0;
    while i < v.len() && v[i] != sep
        invariant
            i <= v.len(),
            forall|j: int| 0 <= j < i ==> v@[j] != sep,
        decreases v.len() - i,
    {
        i = i + 1;
    }
    proof {
        lemma_index_of(v@, sep, i as int);
    }
    i
}

} // verus!
