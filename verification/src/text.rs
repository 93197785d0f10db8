//! Character-level text helpers: conversions between strings and character
//! vectors, and the trimming, splitting and case rules that the rest of the
//! library uses. Every rule here is stated as a spec function over `Seq<char>`
//! and the executable versions are proved to compute it.

use vstd::prelude::*;

verus! {

/// `String::push` appends one character at the end (std documentation).
pub assume_specification[ String::push ](s: &mut String, ch: char)
    ensures
        final(s)@ == old(s)@.push(ch),
;

/// The characters of a string slice, in order.
pub fn chars_of(s: &str) -> (v: Vec<char>)
    ensures
        v@ == s@,
{
    let mut v: Vec<char> = Vec::new();
    for c in it: s.chars()
        invariant
            v@ == it.seq().take(it.index() as int),
    {
        v.push(c);
    }
    v
}

/// A string holding exactly the given characters.
pub fn string_of(v: &[char]) -> (s: String)
    ensures
        s@ == v@,
{
    let mut s = String::new();
    let mut i: usize = 0;
    while i < v.len()
        invariant
            i <= v@.len(),
            s@ == v@.take(i as int),
        decreases v@.len() - i,
    {
        s.push(v[i]);
        i = i + 1;
        assert(v@.take(i as int) == v@.take((i - 1) as int).push(v@[i - 1]));
    }
    assert(v@.take(v@.len() as int) == v@);
    s
}

/// A fresh copy of an optional string.
pub fn copy_opt_string(s: &Option<String>) -> (r: Option<String>)
    ensures
        r == *s,
{
    match s {
        Some(x) => Some(x.clone()),
        None => None,
    }
}

/// Equality of two character sequences.
pub fn chars_equal(a: &[char], b: &[char]) -> (r: bool)
    ensures
        r == (a@ == b@),
{
    if a.len() != b.len() {
        return false;
    }
    let mut i: usize = 0;
    while i < a.len()
        invariant
            a@.len() == b@.len(),
            i <= a@.len(),
            forall|k: int| 0 <= k < i ==> a@[k] == b@[k],
        decreases a@.len() - i,
    {
        if a[i] != b[i] {
            return false;
        }
        i = i + 1;
    }
    assert(a@ =~= b@);
    true
}

/// Equality of the texts of two string slices.
pub fn str_eq(a: &str, b: &str) -> (r: bool)
    ensures
        r == (a@ == b@),
{
    let va = chars_of(a);
    let vb = chars_of(b);
    chars_equal(va.as_slice(), vb.as_slice())
}

/// Whether a character sequence spells out the given string slice.
pub fn chars_eq_str(a: &[char], b: &str) -> (r: bool)
    ensures
        r == (a@ == b@),
{
    let vb = chars_of(b);
    chars_equal(a, vb.as_slice())
}

/// The Unicode `White_Space` property, which `char::is_whitespace` and
/// `str::trim` go by.
pub open spec fn is_ws(c: char) -> bool {
    let u = c as u32;
    (0x09 <= u <= 0x0d) || u == 0x20 || u == 0x85 || u == 0xa0 || u == 0x1680 || (0x2000 <= u
        <= 0x200a) || u == 0x2028 || u == 0x2029 || u == 0x202f || u == 0x205f || u == 0x3000
}

/// Whether a character is white space (see `is_ws`).
pub fn is_whitespace(c: char) -> (r: bool)
    ensures
        r == is_ws(c),
{
    let u = c as u32;
    (0x09 <= u && u <= 0x0d) || u == 0x20 || u == 0x85 || u == 0xa0 || u == 0x1680 || (0x2000
        <= u && u <= 0x200a) || u == 0x2028 || u == 0x2029 || u == 0x202f || u == 0x205f || u
        == 0x3000
}

/// `s` with every leading character satisfying `is_ws` removed.
pub open spec fn trim_start(s: Seq<char>) -> Seq<char>
    decreases s.len(),
{
    if s.len() > 0 && is_ws(s[0]) {
        trim_start(s.drop_first())
    } else {
        s
    }
}

/// `s` with every trailing character satisfying `is_ws` removed.
pub open spec fn trim_end(s: Seq<char>) -> Seq<char>
    decreases s.len(),
{
    if s.len() > 0 && is_ws(s.last()) {
        trim_end(s.drop_last())
    } else {
        s
    }
}

/// `str::trim`: whitespace removed at both ends.
pub open spec fn trim(s: Seq<char>) -> Seq<char> {
    trim_end(trim_start(s))
}

/// `s` with every leading `c` removed (`str::trim_start_matches(c)`).
pub open spec fn trim_char_start(s: Seq<char>, c: char) -> Seq<char>
    decreases s.len(),
{
    if s.len() > 0 && s[0] == c {
        trim_char_start(s.drop_first(), c)
    } else {
        s
    }
}

/// `s` with every trailing `c` removed (`str::trim_end_matches(c)`).
pub open spec fn trim_char_end(s: Seq<char>, c: char) -> Seq<char>
    decreases s.len(),
{
    if s.len() > 0 && s.last() == c {
        trim_char_end(s.drop_last(), c)
    } else {
        s
    }
}

/// `s` with every leading and trailing `c` removed (`str::trim_matches(c)`).
pub open spec fn trim_char(s: Seq<char>, c: char) -> Seq<char> {
    trim_char_end(trim_char_start(s, c), c)
}

/// `s` with repeated leading copies of a non-empty `pat` removed
/// (`str::trim_start_matches(pat)`).
pub open spec fn trim_prefix_start(s: Seq<char>, pat: Seq<char>) -> Seq<char>
    decreases s.len(),
{
    if pat.len() > 0 && pat.len() <= s.len() && s.take(pat.len() as int) == pat {
        trim_prefix_start(s.skip(pat.len() as int), pat)
    } else {
        s
    }
}

/// Whether `s` holds the character `c`.
pub open spec fn has_char(s: Seq<char>, c: char) -> bool {
    exists|i: int| 0 <= i < s.len() && s[i] == c
}

proof fn lemma_trim_start_step(s: Seq<char>, i: int)
    requires
        0 <= i < s.len(),
        is_ws(s[i]),
    ensures
        trim_start(s.subrange(i, s.len() as int)) == trim_start(s.subrange(i + 1, s.len() as int)),
{
    assert(s.subrange(i, s.len() as int).drop_first() =~= s.subrange(i + 1, s.len() as int));
}

proof fn lemma_trim_end_step(s: Seq<char>, j: int)
    requires
        0 < j <= s.len(),
        is_ws(s[j - 1]),
    ensures
        trim_end(s.subrange(0, j)) == trim_end(s.subrange(0, j - 1)),
{
    assert(s.subrange(0, j).drop_last() =~= s.subrange(0, j - 1));
}

/// `str::trim` over characters.
pub fn trim_chars(s: &[char]) -> (r: Vec<char>)
    ensures
        r@ == trim(s@),
{
    let n = s.len();
    let mut i: usize = 0;
    assert(s@.subrange(0, n as int) =~= s@);
    while i < n && is_whitespace(s[i])
        invariant
            n == s@.len(),
            i <= n,
            trim_start(s@) == trim_start(s@.subrange(i as int, n as int)),
        decreases n - i,
    {
        proof {
            lemma_trim_start_step(s@, i as int);
        }
        i = i + 1;
    }
    assert(trim_start(s@.subrange(i as int, n as int)) == s@.subrange(i as int, n as int));
    let ghost t = s@.subrange(i as int, n as int);
    assert(t.subrange(0, n - i) =~= t);
    let mut j: usize = n;
    while j > i && is_whitespace(s[j - 1])
        invariant
            n == s@.len(),
            i <= j <= n,
            t == s@.subrange(i as int, n as int),
            trim_end(t) == trim_end(t.subrange(0, j - i)),
        decreases j,
    {
        proof {
            lemma_trim_end_step(t, (j - i) as int);
        }
        j = j - 1;
    }
    let mut r: Vec<char> = Vec::new();
    let mut k: usize = i;
    while k < j
        invariant
            n == s@.len(),
            i <= k <= j <= n,
            r@ == s@.subrange(i as int, k as int),
        decreases j - k,
    {
        r.push(s[k]);
        k = k + 1;
        assert(r@ =~= s@.subrange(i as int, k as int));
    }
    assert(t.subrange(0, j - i) =~= s@.subrange(i as int, j as int));
    r
}

/// `str::trim_start_matches(c)` followed by `str::trim_end_matches(c)`,
/// either of which may be skipped.
pub fn trim_char_chars(s: &[char], c: char, front: bool, back: bool) -> (r: Vec<char>)
    ensures
        r@ == {
            let a = if front {
                trim_char_start(s@, c)
            } else {
                s@
            };
            if back {
                trim_char_end(a, c)
            } else {
                a
            }
        },
{
    let n = s.len();
    let mut i: usize = 0;
    assert(s@.subrange(0, n as int) =~= s@);
    if front {
        while i < n && s[i] == c
            invariant
                n == s@.len(),
                i <= n,
                trim_char_start(s@, c) == trim_char_start(s@.subrange(i as int, n as int), c),
            decreases n - i,
        {
            assert(s@.subrange(i as int, n as int).drop_first() =~= s@.subrange(
                i + 1,
                n as int,
            ));
            i = i + 1;
        }
    }
    let ghost t = s@.subrange(i as int, n as int);
    assert(t == (if front {
        trim_char_start(s@, c)
    } else {
        s@
    })) by {
        if !front {
            assert(s@.subrange(0, n as int) =~= s@);
        }
    }
    let mut j: usize = n;
    assert(t.subrange(0, n - i) =~= t);
    if back {
        while j > i && s[j - 1] == c
            invariant
                n == s@.len(),
                i <= j <= n,
                t == s@.subrange(i as int, n as int),
                trim_char_end(t, c) == trim_char_end(t.subrange(0, j - i), c),
            decreases j,
        {
            assert(t.subrange(0, j - i).drop_last() =~= t.subrange(0, j - i - 1));
            j = j - 1;
        }
    }
    let mut r: Vec<char> = Vec::new();
    let mut k: usize = i;
    while k < j
        invariant
            n == s@.len(),
            i <= k <= j <= n,
            r@ == s@.subrange(i as int, k as int),
        decreases j - k,
    {
        r.push(s[k]);
        k = k + 1;
        assert(r@ =~= s@.subrange(i as int, k as int));
    }
    assert(t.subrange(0, j - i) =~= s@.subrange(i as int, j as int));
    if !back {
        assert(t =~= s@.subrange(i as int, j as int));
    }
    r
}

/// Whether `pat` occurs in `s` at position `i`.
pub open spec fn occurs_at(s: Seq<char>, pat: Seq<char>, i: int) -> bool {
    0 <= i && i + pat.len() <= s.len() && s.subrange(i, i + pat.len()) == pat
}

/// Whether `v[i..]` starts with `pat`.
pub fn occurs_at_exec(v: &[char], pat: &[char], i: usize) -> (r: bool)
    requires
        i <= v@.len(),
    ensures
        r == occurs_at(v@, pat@, i as int),
{
    if pat.len() > v.len() - i {
        return false;
    }
    let mut k: usize = 0;
    while k < pat.len()
        invariant
            i <= v@.len(),
            i + pat@.len() <= v@.len(),
            i + pat.len() <= v.len(),
            k <= pat@.len(),
            forall|m: int| 0 <= m < k ==> v@[i + m] == pat@[m],
        decreases pat@.len() - k,
    {
        if v[i + k] != pat[k] {
            assert(v@.subrange(i as int, i + pat@.len())[k as int] != pat@[k as int]);
            return false;
        }
        k = k + 1;
    }
    assert(v@.subrange(i as int, i + pat@.len()) =~= pat@);
    true
}

/// `str::trim_start_matches(pat)` for a non-empty pattern.
pub fn trim_prefix_chars(s: &[char], pat: &[char]) -> (r: Vec<char>)
    requires
        pat@.len() > 0,
    ensures
        r@ == trim_prefix_start(s@, pat@),
{
    let n = s.len();
    let mut i: usize = 0;
    assert(s@.subrange(0, n as int) =~= s@);
    while occurs_at_exec(s, pat, i)
        invariant
            n == s@.len(),
            i <= n,
            pat@.len() > 0,
            trim_prefix_start(s@, pat@) == trim_prefix_start(s@.subrange(i as int, n as int), pat@),
        decreases n - i,
    {
        let ghost t = s@.subrange(i as int, n as int);
        assert(t.take(pat@.len() as int) =~= pat@);
        assert(t.skip(pat@.len() as int) =~= s@.subrange(i + pat@.len(), n as int));
        i = i + pat.len();
    }
    let ghost t = s@.subrange(i as int, n as int);
    assert(!(pat@.len() <= t.len() && t.take(pat@.len() as int) == pat@)) by {
        if pat@.len() <= t.len() && t.take(pat@.len() as int) == pat@ {
            assert(s@.subrange(i as int, i + pat@.len()) =~= t.take(pat@.len() as int));
        }
    }
    let mut r: Vec<char> = Vec::new();
    let mut k: usize = i;
    while k < n
        invariant
            n == s@.len(),
            i <= k <= n,
            r@ == s@.subrange(i as int, k as int),
        decreases n - k,
    {
        r.push(s[k]);
        k = k + 1;
        assert(r@ =~= s@.subrange(i as int, k as int));
    }
    r
}

/// The index of the first `sep` at or after `from`, or `s.len()` if none.
pub open spec fn sep_index(s: Seq<char>, sep: char, from: int) -> int
    decreases s.len() - from,
{
    if from >= s.len() || from < 0 {
        s.len() as int
    } else if s[from] == sep {
        from
    } else {
        sep_index(s, sep, from + 1)
    }
}

/// The pieces of `s[from..]` between occurrences of `sep`
/// (`str::split(sep)`).
pub open spec fn split_from(s: Seq<char>, sep: char, from: int) -> Seq<Seq<char>>
    decreases s.len() - from,
{
    if from < 0 || from > s.len() {
        seq![]
    } else {
        let k = sep_index(s, sep, from);
        if k >= s.len() {
            seq![s.subrange(from, s.len() as int)]
        } else if k < from {
            seq![]
        } else {
            seq![s.subrange(from, k)] + split_from(s, sep, k + 1)
        }
    }
}

/// `str::split(sep)`: the pieces of `s` between occurrences of `sep`.
pub open spec fn split(s: Seq<char>, sep: char) -> Seq<Seq<char>> {
    split_from(s, sep, 0)
}

proof fn lemma_sep_index_found(s: Seq<char>, sep: char, from: int, i: int)
    requires
        0 <= from <= i < s.len(),
        s[i] == sep,
        forall|k: int| from <= k < i ==> s[k] != sep,
    ensures
        sep_index(s, sep, from) == i,
    decreases i - from,
{
    if from < i {
        lemma_sep_index_found(s, sep, from + 1, i);
    }
}

proof fn lemma_sep_index_none(s: Seq<char>, sep: char, from: int)
    requires
        0 <= from <= s.len(),
        forall|k: int| from <= k < s.len() ==> s[k] != sep,
    ensures
        sep_index(s, sep, from) == s.len(),
    decreases s.len() - from,
{
    if from < s.len() {
        lemma_sep_index_none(s, sep, from + 1);
    }
}

proof fn lemma_sep_index_bounds(s: Seq<char>, sep: char, from: int)
    requires
        0 <= from <= s.len(),
    ensures
        from <= sep_index(s, sep, from) <= s.len(),
    decreases s.len() - from,
{
    if from < s.len() && s[from] != sep {
        lemma_sep_index_bounds(s, sep, from + 1);
    }
}

/// `str::split(sep)` over characters.
pub fn split_chars(s: &[char], sep: char) -> (r: Vec<Vec<char>>)
    ensures
        r@.len() == split(s@, sep).len(),
        forall|i: int| 0 <= i < r@.len() ==> #[trigger] r@[i]@ == split(s@, sep)[i],
{
    let n = s.len();
    let mut r: Vec<Vec<char>> = Vec::new();
    let mut cur: Vec<char> = Vec::new();
    let mut start: usize = 0;
    let mut i: usize = 0;
    let ghost mut done: Seq<Seq<char>> = seq![];
    while i < n
        invariant
            n == s@.len(),
            start <= i <= n,
            r@.len() == done.len(),
            forall|k: int| 0 <= k < r@.len() ==> #[trigger] r@[k]@ == done[k],
            cur@ == s@.subrange(start as int, i as int),
            forall|k: int| start <= k < i ==> s@[k] != sep,
            split(s@, sep) == done + split_from(s@, sep, start as int),
        decreases n - i,
    {
        if s[i] == sep {
            proof {
                lemma_sep_index_found(s@, sep, start as int, i as int);
                assert(split_from(s@, sep, start as int) == seq![s@.subrange(start as int, i as int)]
                    + split_from(s@, sep, i + 1));
                assert(done + split_from(s@, sep, start as int) =~= done.push(
                    s@.subrange(start as int, i as int),
                ) + split_from(s@, sep, i + 1));
                done = done.push(s@.subrange(start as int, i as int));
            }
            r.push(cur);
            cur = Vec::new();
            start = i + 1;
        } else {
            cur.push(s[i]);
        }
        i = i + 1;
        assert(cur@ =~= s@.subrange(start as int, i as int));
    }
    proof {
        lemma_sep_index_none(s@, sep, start as int);
        assert(split_from(s@, sep, start as int) == seq![s@.subrange(start as int, n as int)]);
        done = done.push(s@.subrange(start as int, n as int));
    }
    r.push(cur);
    assert(split(s@, sep) =~= done);
    r
}

/// ASCII case folding as SQLite's `LIKE` applies it: `A`..`Z` become
/// `a`..`z`, every other character is left alone.
pub open spec fn fold_ascii(c: char) -> char {
    if 'A' <= c && c <= 'Z' {
        ((c as u32) + 32) as char
    } else {
        c
    }
}

/// ASCII case folding of one character (see `fold_ascii`).
pub fn fold_ascii_exec(c: char) -> (r: char)
    ensures
        r == fold_ascii(c),
{
    if 'A' <= c && c <= 'Z' {
        ((c as u8) + 32) as char
    } else {
        c
    }
}

/// Whether `pat` occurs in `s` at `i` once both are ASCII-case-folded.
pub open spec fn occurs_ci_at(s: Seq<char>, pat: Seq<char>, i: int) -> bool {
    0 <= i && i + pat.len() <= s.len() && forall|k: int|
        0 <= k < pat.len() ==> fold_ascii(#[trigger] s[i + k]) == fold_ascii(pat[k])
}

/// Whether `pat` occurs somewhere in `s`, ASCII letters compared without
/// regard to case.
pub open spec fn contains_ci(s: Seq<char>, pat: Seq<char>) -> bool {
    exists|i: int| occurs_ci_at(s, pat, i)
}

fn occurs_ci_at_exec(s: &[char], pat: &[char], i: usize) -> (r: bool)
    requires
        i <= s@.len(),
    ensures
        r == occurs_ci_at(s@, pat@, i as int),
{
    if pat.len() > s.len() - i {
        return false;
    }
    let mut k: usize = 0;
    while k < pat.len()
        invariant
            i <= s@.len(),
            i + pat@.len() <= s@.len(),
            i + pat.len() <= s.len(),
            k <= pat@.len(),
            forall|m: int| 0 <= m < k ==> fold_ascii(#[trigger] s@[i + m]) == fold_ascii(pat@[m]),
        decreases pat@.len() - k,
    {
        if fold_ascii_exec(s[i + k]) != fold_ascii_exec(pat[k]) {
            return false;
        }
        k = k + 1;
    }
    true
}

/// Substring search with ASCII case folding.
pub fn contains_ci_exec(s: &[char], pat: &[char]) -> (r: bool)
    ensures
        r == contains_ci(s@, pat@),
{
    let mut i: usize = 0;
    while i < s.len()
        invariant
            i <= s@.len(),
            forall|j: int| 0 <= j < i ==> !occurs_ci_at(s@, pat@, j),
        decreases s@.len() - i,
    {
        if occurs_ci_at_exec(s, pat, i) {
            return true;
        }
        i = i + 1;
    }
    if occurs_ci_at_exec(s, pat, i) {
        return true;
    }
    assert forall|j: int| !occurs_ci_at(s@, pat@, j) by {
        if occurs_ci_at(s@, pat@, j) {
            assert(j <= s@.len());
        }
    }
    false
}

/// What `str::to_lowercase` returns for a text: its Unicode lower-case
/// mapping.
pub uninterp spec fn lowercase(s: Seq<char>) -> Seq<char>;

/// ASCII lower-casing of a character sequence.
pub open spec fn ascii_lower(s: Seq<char>) -> Seq<char> {
    s.map_values(|c: char| fold_ascii(c))
}

/// Calls `str::to_lowercase`. Its result is the name `lowercase` applied to
/// the input; for an all-ASCII input the documentation says only `A`..`Z`
/// change, to `a`..`z`, and that is stated too. Nothing else about the
/// Unicode mapping is stated.
#[verifier::external_body]
pub(crate) fn to_lowercase(s: &str) -> (r: String)
    ensures
        r@ == lowercase(s@),
        vstd::utf8::is_ascii_chars(s@) ==> r@ == ascii_lower(s@),
{
    s.to_lowercase()
}

} // verus!

verus! {

/// Whether `pat` occurs somewhere in `s` (`str::contains`).
pub open spec fn contains_seq(s: Seq<char>, pat: Seq<char>) -> bool {
    exists|i: int| occurs_at(s, pat, i)
}

/// Exact substring search.
pub fn contains_exec(s: &[char], pat: &[char]) -> (r: bool)
    ensures
        r == contains_seq(s@, pat@),
{
    let mut i: usize = 0;
    while i < s.len()
        invariant
            i <= s@.len(),
            forall|j: int| 0 <= j < i ==> !occurs_at(s@, pat@, j),
        decreases s@.len() - i,
    {
        if occurs_at_exec(s, pat, i) {
            return true;
        }
        i = i + 1;
    }
    if occurs_at_exec(s, pat, i) {
        return true;
    }
    assert forall|j: int| !occurs_at(s@, pat@, j) by {
        if occurs_at(s@, pat@, j) {
            assert(j <= s@.len());
        }
    }
    false
}

/// Whether the trimmed text is empty.
pub fn trim_is_empty(s: &str) -> (r: bool)
    ensures
        r == (trim(s@).len() == 0),
{
    let c = chars_of(s);
    let t = trim_chars(c.as_slice());
    t.len() == 0
}

} // verus!
