//! Character classes, trimming, prefix tests and string building over `Seq<char>`.
//!
//! Every exec helper here is stated over the character view of its input, so the
//! callers' contracts can speak about `s@` directly.

use vstd::prelude::*;

verus! {

// ---------------------------------------------------------------------------
// Character classes
// ---------------------------------------------------------------------------

/// The Unicode `White_Space` property, which `char::is_whitespace`, `str::trim`
/// and `str::split_whitespace` use.
pub open spec fn is_ws(c: char) -> bool {
    ('\u{9}' <= c && c <= '\u{d}') || c == ' ' || c == '\u{85}' || c == '\u{a0}'
        || c == '\u{1680}' || ('\u{2000}' <= c && c <= '\u{200a}') || c == '\u{2028}'
        || c == '\u{2029}' || c == '\u{202f}' || c == '\u{205f}' || c == '\u{3000}'
}

/// The Unicode general category `Cc`, which `char::is_control` tests.
pub open spec fn is_ctrl(c: char) -> bool {
    c <= '\u{1f}' || ('\u{7f}' <= c && c <= '\u{9f}')
}

pub open spec fn is_digit(c: char) -> bool {
    '0' <= c && c <= '9'
}

pub open spec fn is_lower(c: char) -> bool {
    'a' <= c && c <= 'z'
}

pub open spec fn is_upper(c: char) -> bool {
    'A' <= c && c <= 'Z'
}

/// `char::to_ascii_uppercase`.
pub open spec fn upper(c: char) -> char {
    if is_lower(c) {
        ((c as u8) - 32) as char
    } else {
        c
    }
}

/// `char::to_ascii_lowercase`.
pub open spec fn lower(c: char) -> char {
    if is_upper(c) {
        ((c as u8) + 32) as char
    } else {
        c
    }
}

/// `str::to_ascii_lowercase`, character by character.
pub open spec fn lower_seq(s: Seq<char>) -> Seq<char> {
    s.map_values(|c: char| lower(c))
}

pub fn char_is_ws(c: char) -> (r: bool)
    ensures
        r == is_ws(c),
{
    ('\u{9}' <= c && c <= '\u{d}') || c == ' ' || c == '\u{85}' || c == '\u{a0}' || c
        == '\u{1680}' || ('\u{2000}' <= c && c <= '\u{200a}') || c == '\u{2028}' || c
        == '\u{2029}' || c == '\u{202f}' || c == '\u{205f}' || c == '\u{3000}'
}

pub fn char_is_ctrl(c: char) -> (r: bool)
    ensures
        r == is_ctrl(c),
{
    c <= '\u{1f}' || ('\u{7f}' <= c && c <= '\u{9f}')
}

pub fn char_upper(c: char) -> (r: char)
    ensures
        r == upper(c),
{
    if 'a' <= c && c <= 'z' {
        ((c as u8) - 32) as char
    } else {
        c
    }
}

pub fn char_lower(c: char) -> (r: char)
    ensures
        r == lower(c),
{
    if 'A' <= c && c <= 'Z' {
        ((c as u8) + 32) as char
    } else {
        c
    }
}

/// Holds for `char::is_alphanumeric`: the Unicode `Alphabetic` or `Numeric` property.
pub uninterp spec fn unicode_alphanumeric(c: char) -> bool;

/// Calls `char::is_alphanumeric`. The contract names the result; it also states
/// the fact the std documentation gives for ASCII: letters and digits are
/// alphanumeric, other ASCII characters are not.
#[verifier::external_body]
pub(crate) fn char_is_alphanumeric(c: char) -> (r: bool)
    ensures
        r == unicode_alphanumeric(c),
        c <= '\u{7f}' ==> (r <==> (is_digit(c) || is_lower(c) || is_upper(c))),
{
    c.is_alphanumeric()
}

/// An optional text that is present and reads `m`.
pub open spec fn opt_is(o: Option<String>, m: Seq<char>) -> bool {
    o matches Some(c) && c@ == m
}

/// The text of an optional string.
pub open spec fn opt_text(o: Option<String>) -> Option<Seq<char>> {
    match o {
        Some(s) => Some(s@),
        None => None,
    }
}

// ---------------------------------------------------------------------------
// Sequence shapes
// ---------------------------------------------------------------------------

pub open spec fn starts_with(s: Seq<char>, p: Seq<char>) -> bool {
    p.len() <= s.len() && s.subrange(0, p.len() as int) == p
}

pub open spec fn occurs_at(s: Seq<char>, p: Seq<char>, i: int) -> bool {
    0 <= i && i + p.len() <= s.len() && s.subrange(i, i + p.len()) == p
}

/// `str::contains` with a string pattern.
pub open spec fn contains_seq(s: Seq<char>, p: Seq<char>) -> bool {
    exists|i: int| occurs_at(s, p, i)
}

/// `str::trim_start`.
pub open spec fn trim_start(s: Seq<char>) -> Seq<char>
    decreases s.len(),
{
    if s.len() > 0 && is_ws(s[0]) {
        trim_start(s.drop_first())
    } else {
        s
    }
}

/// `str::trim_end`.
pub open spec fn trim_end(s: Seq<char>) -> Seq<char>
    decreases s.len(),
{
    if s.len() > 0 && is_ws(s.last()) {
        trim_end(s.drop_last())
    } else {
        s
    }
}

/// `str::trim`.
pub open spec fn trim(s: Seq<char>) -> Seq<char> {
    trim_end(trim_start(s))
}

/// `str::trim_end_matches` with a single character.
pub open spec fn trim_end_char(s: Seq<char>, c: char) -> Seq<char>
    decreases s.len(),
{
    if s.len() > 0 && s.last() == c {
        trim_end_char(s.drop_last(), c)
    } else {
        s
    }
}

/// `str::trim_start_matches` with a single character.
pub open spec fn trim_start_char(s: Seq<char>, c: char) -> Seq<char>
    decreases s.len(),
{
    if s.len() > 0 && s[0] == c {
        trim_start_char(s.drop_first(), c)
    } else {
        s
    }
}

pub proof fn lemma_trim_start_skip(s: Seq<char>, i: int)
    requires
        0 <= i <= s.len(),
        forall|k: int| 0 <= k < i ==> is_ws(#[trigger] s[k]),
    ensures
        trim_start(s) == trim_start(s.subrange(i, s.len() as int)),
    decreases i,
{
    if i > 0 {
        assert(s.drop_first() == s.subrange(1, s.len() as int));
        let t = s.drop_first();
        assert forall|k: int| 0 <= k < i - 1 implies is_ws(#[trigger] t[k]) by {
            assert(t[k] == s[k + 1]);
        }
        lemma_trim_start_skip(t, i - 1);
        assert(t.subrange(i - 1, t.len() as int) == s.subrange(i, s.len() as int));
    } else {
        assert(s.subrange(0, s.len() as int) == s);
    }
}

pub proof fn lemma_trim_end_skip(s: Seq<char>, j: int)
    requires
        0 <= j <= s.len(),
        forall|k: int| j <= k < s.len() ==> is_ws(#[trigger] s[k]),
    ensures
        trim_end(s) == trim_end(s.subrange(0, j)),
    decreases s.len() - j,
{
    if j < s.len() {
        let t = s.drop_last();
        assert forall|k: int| j <= k < t.len() implies is_ws(#[trigger] t[k]) by {
            assert(t[k] == s[k]);
        }
        lemma_trim_end_skip(t, j);
        assert(t.subrange(0, j) == s.subrange(0, j));
    } else {
        assert(s.subrange(0, j) == s);
    }
}

pub proof fn lemma_trim_end_char_skip(s: Seq<char>, c: char, j: int)
    requires
        0 <= j <= s.len(),
        forall|k: int| j <= k < s.len() ==> #[trigger] s[k] == c,
    ensures
        trim_end_char(s, c) == trim_end_char(s.subrange(0, j), c),
    decreases s.len() - j,
{
    if j < s.len() {
        let t = s.drop_last();
        assert forall|k: int| j <= k < t.len() implies #[trigger] t[k] == c by {
            assert(t[k] == s[k]);
        }
        lemma_trim_end_char_skip(t, c, j);
        assert(t.subrange(0, j) == s.subrange(0, j));
    } else {
        assert(s.subrange(0, j) == s);
    }
}

pub proof fn lemma_trim_start_char_skip(s: Seq<char>, c: char, i: int)
    requires
        0 <= i <= s.len(),
        forall|k: int| 0 <= k < i ==> #[trigger] s[k] == c,
    ensures
        trim_start_char(s, c) == trim_start_char(s.subrange(i, s.len() as int), c),
    decreases i,
{
    if i > 0 {
        let t = s.drop_first();
        assert forall|k: int| 0 <= k < i - 1 implies #[trigger] t[k] == c by {
            assert(t[k] == s[k + 1]);
        }
        lemma_trim_start_char_skip(t, c, i - 1);
        assert(t.subrange(i - 1, t.len() as int) == s.subrange(i, s.len() as int));
    } else {
        assert(s.subrange(0, s.len() as int) == s);
    }
}

/// The trimmed text never starts or ends with whitespace and is a slice of its input.
pub proof fn lemma_trim_shape(s: Seq<char>)
    ensures
        trim_start(s).len() > 0 ==> !is_ws(trim_start(s)[0]),
        trim_end(s).len() > 0 ==> !is_ws(trim_end(s).last()),
        trim_start(s).len() <= s.len(),
        trim_start(s) == s.subrange(s.len() - trim_start(s).len(), s.len() as int),
        trim_end(s).len() <= s.len(),
        trim_end(s) == s.subrange(0, trim_end(s).len() as int),
    decreases s.len(),
{
    if s.len() > 0 && is_ws(s[0]) {
        lemma_trim_shape(s.drop_first());
        assert(s.drop_first() == s.subrange(1, s.len() as int));
    } else {
        assert(s == s.subrange(0, s.len() as int));
    }
    if s.len() > 0 && is_ws(s.last()) {
        lemma_trim_shape(s.drop_last());
    }
    if !(s.len() > 0 && is_ws(s.last())) {
        assert(s == s.subrange(0, s.len() as int));
    }
}

// ---------------------------------------------------------------------------
// Exec helpers over character vectors
// ---------------------------------------------------------------------------

/// The characters of a string slice, in order.
pub fn chars_of(s: &str) -> (v: Vec<char>)
    ensures
        v@ == s@,
{
    let mut v: Vec<char> = Vec::new();
    for c in it: s.chars()
        invariant
            v@ == it.seq().take(it.index() as int),
            it.seq() == s@,
    {
        v.push(c);
    }
    v
}

/// Calls `String::push`.
#[verifier::external_body]
pub(crate) fn push_char(s: &mut String, c: char)
    ensures
        final(s)@ == old(s)@.push(c),
{
    s.push(c);
}

/// Appends a string slice to a `String`.
pub fn push_str(s: &mut String, t: &str)
    ensures
        final(s)@ == old(s)@ + t@,
{
    let v = chars_of(t);
    push_range(s, &v, 0, v.len());
}

/// Appends `v[from..to]` to a `String`.
pub fn push_range(s: &mut String, v: &Vec<char>, from: usize, to: usize)
    requires
        from <= to <= v@.len(),
    ensures
        final(s)@ == old(s)@ + v@.subrange(from as int, to as int),
{
    let ghost start = s@;
    let mut i = from;
    while i < to
        invariant
            from <= i <= to <= v@.len(),
            s@ == start + v@.subrange(from as int, i as int),
        decreases to - i,
    {
        push_char(s, v[i]);
        assert(v@.subrange(from as int, i + 1) == v@.subrange(from as int, i as int).push(v@[i as int]));
        i += 1;
    }
}

/// A `String` holding `v[from..to]`.
pub fn string_of_range(v: &Vec<char>, from: usize, to: usize) -> (s: String)
    requires
        from <= to <= v@.len(),
    ensures
        s@ == v@.subrange(from as int, to as int),
{
    let mut s = String::new();
    push_range(&mut s, v, from, to);
    s
}

/// A `String` holding all of `v`.
pub fn string_of(v: &Vec<char>) -> (s: String)
    ensures
        s@ == v@,
{
    let s = string_of_range(v, 0, v.len());
    assert(v@.subrange(0, v@.len() as int) == v@);
    s
}

/// An owned copy of a string slice.
pub fn owned(t: &str) -> (s: String)
    ensures
        s@ == t@,
{
    let mut s = String::new();
    push_str(&mut s, t);
    s
}

/// Character-wise equality of two ranges.
pub fn range_eq(a: &Vec<char>, a_from: usize, a_to: usize, b: &Vec<char>) -> (r: bool)
    requires
        a_from <= a_to <= a@.len(),
    ensures
        r == (a@.subrange(a_from as int, a_to as int) == b@),
{
    if a_to - a_from != b.len() {
        return false;
    }
    let mut i: usize = 0;
    while i < b.len()
        invariant
            a_from <= a_to <= a@.len(),
            a_to - a_from == b@.len(),
            i <= b@.len(),
            forall|k: int| 0 <= k < i ==> a@[a_from + k] == b@[k],
        decreases b@.len() - i,
    {
        if a[a_from + i] != b[i] {
            assert(a@.subrange(a_from as int, a_to as int)[i as int] != b@[i as int]);
            return false;
        }
        i += 1;
    }
    assert(a@.subrange(a_from as int, a_to as int) =~= b@);
    true
}

/// Whether `s[from..to]` equals the string slice `lit`.
pub fn range_is(s: &Vec<char>, from: usize, to: usize, lit: &str) -> (r: bool)
    requires
        from <= to <= s@.len(),
    ensures
        r == (s@.subrange(from as int, to as int) == lit@),
{
    let p = chars_of(lit);
    range_eq(s, from, to, &p)
}

/// Character-wise equality of two string slices.
pub fn str_eq(a: &str, b: &str) -> (r: bool)
    ensures
        r == (a@ == b@),
{
    let v = chars_of(a);
    let l = v.len();
    proof {
        assert(v@.subrange(0, l as int) == v@);
    }
    range_is(&v, 0, l, b)
}

/// Whether `s[from..to]` starts with the string slice `lit`.
pub fn range_starts_with(s: &Vec<char>, from: usize, to: usize, lit: &str) -> (r: bool)
    requires
        from <= to <= s@.len(),
    ensures
        r == starts_with(s@.subrange(from as int, to as int), lit@),
{
    let p = chars_of(lit);
    if p.len() > to - from {
        return false;
    }
    let r = range_eq(s, from, from + p.len(), &p);
    assert(s@.subrange(from as int, to as int).subrange(0, p@.len() as int) == s@.subrange(
        from as int,
        from + p@.len(),
    ));
    r
}

/// Whether the string slice `lit` occurs somewhere in `s[from..to]`.
pub fn range_contains(s: &Vec<char>, from: usize, to: usize, lit: &str) -> (r: bool)
    requires
        from <= to <= s@.len(),
    ensures
        r == contains_seq(s@.subrange(from as int, to as int), lit@),
{
    let p = chars_of(lit);
    let ghost t = s@.subrange(from as int, to as int);
    if p.len() > to - from {
        assert forall|i: int| !occurs_at(t, p@, i) by {}
        return false;
    }
    if p.len() == 0 {
        assert(t.subrange(0, 0) =~= p@);
        assert(occurs_at(t, p@, 0));
        return true;
    }
    let mut i: usize = from;
    while i <= to - p.len()
        invariant
            from <= i <= to - p@.len() + 1,
            1 <= p@.len() <= to - from,
            from <= to <= s@.len(),
            p@ == lit@,
            t == s@.subrange(from as int, to as int),
            forall|k: int| 0 <= k < i - from ==> !occurs_at(t, p@, k),
        decreases to - p@.len() + 1 - i,
    {
        if range_eq(s, i, i + p.len(), &p) {
            assert(t.subrange(i - from, i - from + p@.len()) == s@.subrange(
                i as int,
                i + p@.len(),
            ));
            assert(occurs_at(t, p@, i - from));
            return true;
        }
        assert(t.subrange(i - from, i - from + p@.len()) == s@.subrange(i as int, i + p@.len()));
        i += 1;
    }
    assert forall|k: int| !occurs_at(t, p@, k) by {
        if 0 <= k < i - from {
        }
    }
    false
}


/// Position of the first occurrence of `p` in `s` at or after `i`.
pub open spec fn find_seq_from(s: Seq<char>, p: Seq<char>, i: int) -> Option<int>
    decreases s.len() + 1 - i,
{
    if i < 0 || i + p.len() > s.len() {
        None
    } else if occurs_at(s, p, i) {
        Some(i)
    } else {
        find_seq_from(s, p, i + 1)
    }
}

/// Position of the first occurrence of `p` in `s`, as `str::find` and `str::split_once` use it.
pub open spec fn find_seq(s: Seq<char>, p: Seq<char>) -> Option<int> {
    find_seq_from(s, p, 0)
}

pub proof fn lemma_find_seq_from(s: Seq<char>, p: Seq<char>, i: int)
    requires
        0 <= i,
    ensures
        match find_seq_from(s, p, i) {
            Some(k) => i <= k && occurs_at(s, p, k) && forall|j: int| i <= j < k ==> !occurs_at(s, p, j),
            None => forall|j: int| i <= j ==> !occurs_at(s, p, j),
        },
    decreases s.len() + 1 - i,
{
    if i + p.len() > s.len() {
    } else if occurs_at(s, p, i) {
    } else {
        lemma_find_seq_from(s, p, i + 1);
    }
}

pub proof fn lemma_find_seq_unique(s: Seq<char>, p: Seq<char>, i: int, k: int)
    requires
        0 <= i <= k,
        occurs_at(s, p, k),
        forall|j: int| i <= j < k ==> !occurs_at(s, p, j),
    ensures
        find_seq_from(s, p, i) == Some(k),
    decreases k - i,
{
    if i < k {
        lemma_find_seq_unique(s, p, i + 1, k);
    }
}

/// `find_seq(s[from..to], lit)`, as an index relative to `from`.
pub fn range_find(s: &Vec<char>, from: usize, to: usize, lit: &str) -> (r: Option<usize>)
    requires
        from <= to <= s@.len(),
    ensures
        match r {
            Some(k) => find_seq(s@.subrange(from as int, to as int), lit@) == Some(k as int)
                && from + k + lit@.len() <= to,
            None => find_seq(s@.subrange(from as int, to as int), lit@) is None,
        },
{
    let p = chars_of(lit);
    let ghost t = s@.subrange(from as int, to as int);
    proof {
        lemma_find_seq_from(t, p@, 0);
    }
    if p.len() > to - from {
        return None;
    }
    if p.len() == 0 {
        proof {
            assert(t.subrange(0, 0) =~= p@);
            lemma_find_seq_unique(t, p@, 0, 0);
        }
        return Some(0);
    }
    let last = to - p.len() + 1;
    let mut i: usize = from;
    while i < last
        invariant
            from <= i <= last,
            last == to - p@.len() + 1,
            1 <= p@.len() <= to - from,
            from <= to <= s@.len(),
            p@ == lit@,
            t == s@.subrange(from as int, to as int),
            forall|k: int| 0 <= k < i - from ==> !occurs_at(t, p@, k),
        decreases last - i,
    {
        if range_eq(s, i, i + p.len(), &p) {
            proof {
                assert(t.subrange(i - from, i - from + p@.len()) == s@.subrange(
                    i as int,
                    i + p@.len(),
                ));
                lemma_find_seq_unique(t, p@, 0, i - from);
            }
            return Some(i - from);
        }
        assert(t.subrange(i - from, i - from + p@.len()) == s@.subrange(i as int, i + p@.len()));
        i += 1;
    }
    proof {
        assert forall|k: int| 0 <= k implies !occurs_at(t, p@, k) by {}
        lemma_find_seq_from(t, p@, 0);
    }
    None
}

/// Whether the character `c` occurs in `s[from..to]`.
pub fn range_has_char(s: &Vec<char>, from: usize, to: usize, c: char) -> (r: bool)
    requires
        from <= to <= s@.len(),
    ensures
        r == s@.subrange(from as int, to as int).contains(c),
{
    let ghost t = s@.subrange(from as int, to as int);
    let mut i = from;
    while i < to
        invariant
            from <= i <= to <= s@.len(),
            t == s@.subrange(from as int, to as int),
            forall|k: int| from <= k < i ==> s@[k] != c,
        decreases to - i,
    {
        if s[i] == c {
            assert(t[i - from] == c);
            return true;
        }
        i += 1;
    }
    assert forall|k: int| 0 <= k < t.len() implies t[k] != c by {
        assert(t[k] == s@[from + k]);
    }
    false
}

/// Bounds `(a, b)` such that `s[a..b]` is `trim(s[from..to])`.
pub fn trim_range(s: &Vec<char>, from: usize, to: usize) -> (r: (usize, usize))
    requires
        from <= to <= s@.len(),
    ensures
        from <= r.0 <= r.1 <= to,
        s@.subrange(r.0 as int, r.1 as int) == trim(s@.subrange(from as int, to as int)),
{
    let ghost t = s@.subrange(from as int, to as int);
    let mut a = from;
    while a < to && char_is_ws(s[a])
        invariant
            from <= a <= to <= s@.len(),
            t == s@.subrange(from as int, to as int),
            forall|k: int| 0 <= k < a - from ==> is_ws(#[trigger] t[k]),
        decreases to - a,
    {
        a += 1;
    }
    proof {
        lemma_trim_start_skip(t, a - from);
        assert(t.subrange(a - from, t.len() as int) == s@.subrange(a as int, to as int));
    }
    let ghost u = s@.subrange(a as int, to as int);
    let mut b = to;
    while b > a && char_is_ws(s[b - 1])
        invariant
            from <= a <= b <= to <= s@.len(),
            u == s@.subrange(a as int, to as int),
            forall|k: int| b - a <= k < u.len() ==> is_ws(#[trigger] u[k]),
        decreases b - a,
    {
        b -= 1;
    }
    proof {
        lemma_trim_end_skip(u, b - a);
        assert(u.subrange(0, b - a) == s@.subrange(a as int, b as int));
        if a < to && !is_ws(s@[a as int]) {
            assert(trim_start(u) == u) by {
                assert(u[0] == s@[a as int]);
            }
        }
        if a == to {
            assert(u.len() == 0);
        }
        assert(trim_start(u) == u);
    }
    (a, b)
}

/// Bounds `(from, b)` such that `s[from..b]` is `trim_end_char(s[from..to], c)`.
pub fn trim_end_char_range(s: &Vec<char>, from: usize, to: usize, c: char) -> (b: usize)
    requires
        from <= to <= s@.len(),
    ensures
        from <= b <= to,
        s@.subrange(from as int, b as int) == trim_end_char(
            s@.subrange(from as int, to as int),
            c,
        ),
{
    let ghost u = s@.subrange(from as int, to as int);
    let mut b = to;
    while b > from && s[b - 1] == c
        invariant
            from <= b <= to <= s@.len(),
            u == s@.subrange(from as int, to as int),
            forall|k: int| b - from <= k < u.len() ==> #[trigger] u[k] == c,
        decreases b - from,
    {
        b -= 1;
    }
    proof {
        lemma_trim_end_char_skip(u, c, b - from);
        assert(u.subrange(0, b - from) == s@.subrange(from as int, b as int));
    }
    b
}

/// Start `a` such that `s[a..to]` is `trim_start_char(s[from..to], c)`.
pub fn trim_start_char_range(s: &Vec<char>, from: usize, to: usize, c: char) -> (a: usize)
    requires
        from <= to <= s@.len(),
    ensures
        from <= a <= to,
        s@.subrange(a as int, to as int) == trim_start_char(
            s@.subrange(from as int, to as int),
            c,
        ),
{
    let ghost t = s@.subrange(from as int, to as int);
    let mut a = from;
    while a < to && s[a] == c
        invariant
            from <= a <= to <= s@.len(),
            t == s@.subrange(from as int, to as int),
            forall|k: int| 0 <= k < a - from ==> #[trigger] t[k] == c,
        decreases to - a,
    {
        a += 1;
    }
    proof {
        lemma_trim_start_char_skip(t, c, a - from);
        assert(t.subrange(a - from, t.len() as int) == s@.subrange(a as int, to as int));
        let w = s@.subrange(a as int, to as int);
        if w.len() > 0 {
            assert(w[0] == s@[a as int]);
        }
    }
    a
}

/// The trimmed characters of a string slice.
pub fn trimmed_chars(s: &str) -> (v: Vec<char>)
    ensures
        v@ == trim(s@),
{
    let all = chars_of(s);
    let (a, b) = trim_range(&all, 0, all.len());
    assert(all@.subrange(0, all@.len() as int) == all@);
    let mut v: Vec<char> = Vec::new();
    let mut i = a;
    while i < b
        invariant
            a <= i <= b <= all@.len(),
            v@ == all@.subrange(a as int, i as int),
        decreases b - i,
    {
        v.push(all[i]);
        assert(all@.subrange(a as int, i + 1) == all@.subrange(a as int, i as int).push(
            all@[i as int],
        ));
        i += 1;
    }
    v
}

/// `str::trim` as an owned `String`.
pub fn trimmed_string(s: &str) -> (r: String)
    ensures
        r@ == trim(s@),
{
    let v = trimmed_chars(s);
    string_of(&v)
}

/// `str::to_ascii_lowercase` of `s[from..to]`.
pub fn lowercase_range(s: &Vec<char>, from: usize, to: usize) -> (v: Vec<char>)
    requires
        from <= to <= s@.len(),
    ensures
        v@ == lower_seq(s@.subrange(from as int, to as int)),
{
    let mut v: Vec<char> = Vec::new();
    let mut i = from;
    while i < to
        invariant
            from <= i <= to <= s@.len(),
            v@ == lower_seq(s@.subrange(from as int, i as int)),
        decreases to - i,
    {
        v.push(char_lower(s[i]));
        assert(lower_seq(s@.subrange(from as int, i + 1)) =~= lower_seq(
            s@.subrange(from as int, i as int),
        ).push(lower(s@[i as int])));
        i += 1;
    }
    v
}

// ---------------------------------------------------------------------------
// Decimal and hexadecimal digits
// ---------------------------------------------------------------------------

pub open spec fn digit_char(d: nat) -> char {
    if d == 0 {
        '0'
    } else if d == 1 {
        '1'
    } else if d == 2 {
        '2'
    } else if d == 3 {
        '3'
    } else if d == 4 {
        '4'
    } else if d == 5 {
        '5'
    } else if d == 6 {
        '6'
    } else if d == 7 {
        '7'
    } else if d == 8 {
        '8'
    } else {
        '9'
    }
}

/// Uppercase hexadecimal digit for `0 <= d < 16`.
pub open spec fn hex_char(d: nat) -> char {
    if d < 10 {
        digit_char(d)
    } else if d == 10 {
        'A'
    } else if d == 11 {
        'B'
    } else if d == 12 {
        'C'
    } else if d == 13 {
        'D'
    } else if d == 14 {
        'E'
    } else {
        'F'
    }
}

/// Decimal rendering of a natural number, as `Display` prints it.
pub open spec fn decimal(n: nat) -> Seq<char>
    decreases n,
{
    if n < 10 {
        seq![digit_char(n)]
    } else {
        decimal(n / 10).push(digit_char(n % 10))
    }
}

pub fn digit_to_char(d: u64) -> (c: char)
    requires
        d < 10,
    ensures
        c == digit_char(d as nat),
{
    if d == 0 {
        '0'
    } else if d == 1 {
        '1'
    } else if d == 2 {
        '2'
    } else if d == 3 {
        '3'
    } else if d == 4 {
        '4'
    } else if d == 5 {
        '5'
    } else if d == 6 {
        '6'
    } else if d == 7 {
        '7'
    } else if d == 8 {
        '8'
    } else {
        '9'
    }
}

pub fn hex_to_char(d: u8) -> (c: char)
    requires
        d < 16,
    ensures
        c == hex_char(d as nat),
{
    if d < 10 {
        digit_to_char(d as u64)
    } else if d == 10 {
        'A'
    } else if d == 11 {
        'B'
    } else if d == 12 {
        'C'
    } else if d == 13 {
        'D'
    } else if d == 14 {
        'E'
    } else {
        'F'
    }
}

/// Appends the decimal rendering of `n`.
pub fn push_decimal(s: &mut String, n: u64)
    ensures
        final(s)@ == old(s)@ + decimal(n as nat),
    decreases n,
{
    if n < 10 {
        push_char(s, digit_to_char(n));
        assert(old(s)@.push(digit_char(n as nat)) == old(s)@ + seq![digit_char(n as nat)]);
    } else {
        push_decimal(s, n / 10);
        push_char(s, digit_to_char(n % 10));
        assert(old(s)@ + decimal(n as nat) == old(s)@ + decimal((n / 10) as nat) + seq![
            digit_char((n % 10) as nat),
        ]);
    }
}


/// A decimal rendering is never empty, and has two digits or more from ten on.
pub proof fn lemma_decimal_len(n: nat)
    ensures
        decimal(n).len() >= 1,
        n >= 10 ==> decimal(n).len() >= 2,
    decreases n,
{
    if n >= 10 {
        lemma_decimal_len(n / 10);
    }
}

/// Distinct numbers have distinct decimal renderings.
pub proof fn lemma_decimal_injective(a: nat, b: nat)
    requires
        decimal(a) == decimal(b),
    ensures
        a == b,
    decreases a,
{
    lemma_decimal_len(a);
    lemma_decimal_len(b);
    if a >= 10 && b >= 10 {
        let da = decimal(a / 10);
        let db = decimal(b / 10);
        assert(decimal(a).drop_last() == da);
        assert(decimal(b).drop_last() == db);
        assert(decimal(a).last() == digit_char(a % 10));
        assert(decimal(b).last() == digit_char(b % 10));
        lemma_decimal_injective(a / 10, b / 10);
    } else if a < 10 && b < 10 {
        assert(decimal(a)[0] == digit_char(a));
        assert(decimal(b)[0] == digit_char(b));
    }
}


// ---------------------------------------------------------------------------
// First occurrence of a character
// ---------------------------------------------------------------------------

/// Position of the first `c` in `s`, or `s.len()` when there is none.
pub open spec fn index_of(s: Seq<char>, c: char) -> nat
    decreases s.len(),
{
    if s.len() == 0 {
        0
    } else if s[0] == c {
        0
    } else {
        1 + index_of(s.drop_first(), c)
    }
}

pub proof fn lemma_index_of(s: Seq<char>, c: char)
    ensures
        index_of(s, c) <= s.len(),
        forall|k: int| 0 <= k < index_of(s, c) ==> s[k] != c,
        index_of(s, c) < s.len() ==> s[index_of(s, c) as int] == c,
    decreases s.len(),
{
    if s.len() > 0 && s[0] != c {
        lemma_index_of(s.drop_first(), c);
        assert forall|k: int| 0 <= k < index_of(s, c) implies s[k] != c by {
            if k > 0 {
                assert(s[k] == s.drop_first()[k - 1]);
            }
        }
    }
}

pub proof fn lemma_index_of_unique(s: Seq<char>, c: char, i: int)
    requires
        0 <= i <= s.len(),
        forall|k: int| 0 <= k < i ==> s[k] != c,
        i < s.len() ==> s[i] == c,
    ensures
        index_of(s, c) == i,
{
    lemma_index_of(s, c);
}

/// Index of the first `c` in `s[from..to]`, relative to `from`, as `index_of` states it.
pub fn find_char(s: &Vec<char>, from: usize, to: usize, c: char) -> (r: usize)
    requires
        from <= to <= s@.len(),
    ensures
        r == index_of(s@.subrange(from as int, to as int), c),
        from + r <= to,
{
    let ghost t = s@.subrange(from as int, to as int);
    let mut i = from;
    while i < to && s[i] != c
        invariant
            from <= i <= to <= s@.len(),
            t == s@.subrange(from as int, to as int),
            forall|k: int| 0 <= k < i - from ==> t[k] != c,
        decreases to - i,
    {
        i += 1;
    }
    proof {
        lemma_index_of_unique(t, c, i - from);
    }
    i - from
}

} // verus!
