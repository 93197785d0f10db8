//! "Is there a newer release?": dotted-version comparison and the reading of
//! the GitHub "latest release" answer. The HTTPS request itself is made by
//! the caller; this module decides what its answer means.

use vstd::prelude::*;
use crate::models::UpdateCheck;
use crate::text::{
    chars_of, split, split_chars, string_of, trim, trim_char_chars, trim_char_start, trim_chars,
};

verus! {

/// `owner/repo` for the GitHub Releases API + release page URLs.
pub const REPO: &'static str = "datluong2409/linux-clipboard";

/// The "latest release" page URL.
pub open spec fn spec_releases_page() -> Seq<char> {
    "https://github.com/"@ + REPO@ + "/releases/latest"@
}

/// The "latest release" page, used as the download target (and as a
/// fallback when the API answer has no `html_url`).
pub fn releases_page() -> (r: String)
    ensures
        r@ == spec_releases_page(),
{
    "https://github.com/".to_owned().concat(REPO).concat("/releases/latest")
}

/// The API URL of the latest release.
pub fn latest_release_api_url() -> (r: String)
    ensures
        r@ == "https://api.github.com/repos/"@ + REPO@ + "/releases/latest"@,
{
    "https://api.github.com/repos/".to_owned().concat(REPO).concat("/releases/latest")
}

/// Whether `c` is an ASCII digit.
pub open spec fn is_digit(c: char) -> bool {
    '0' <= c <= '9'
}

/// The number a sequence of decimal digits spells.
pub open spec fn digits_value(s: Seq<char>) -> int
    decreases s.len(),
{
    if s.len() == 0 {
        0
    } else {
        digits_value(s.drop_last()) * 10 + (s.last() as int - '0' as int)
    }
}

/// `s` without one leading `+`.
pub open spec fn strip_plus(s: Seq<char>) -> Seq<char> {
    if s.len() > 0 && s[0] == '+' {
        s.drop_first()
    } else {
        s
    }
}

/// Whether every character is a decimal digit.
pub open spec fn all_digits(d: Seq<char>) -> bool {
    forall|i: int| 0 <= i < d.len() ==> is_digit(#[trigger] d[i])
}

/// What `str::parse::<u64>` accepts: an optional `+`, then one or more
/// decimal digits whose value fits in a `u64`.
pub open spec fn parse_u64_spec(s: Seq<char>) -> Option<u64> {
    let d = strip_plus(s);
    if d.len() > 0 && all_digits(d) && digits_value(d) <= u64::MAX {
        Some(digits_value(d) as u64)
    } else {
        None
    }
}

/// One dotted component as a number: trimmed, parsed, 0 when it does not
/// parse.
pub open spec fn part_value(p: Seq<char>) -> u64 {
    match parse_u64_spec(trim(p)) {
        Some(v) => v,
        None => 0,
    }
}

/// The numeric components of a dotted version.
pub open spec fn version_parts(v: Seq<char>) -> Seq<u64> {
    split(v, '.').map_values(|p: Seq<char>| part_value(p))
}

/// Component `i`, zero-padded past the end.
pub open spec fn part_at(parts: Seq<u64>, i: int) -> u64 {
    if 0 <= i < parts.len() {
        parts[i]
    } else {
        0
    }
}

/// `latest` is a higher version than `current`: at the first component
/// where the zero-padded versions differ, `latest`'s is larger.
pub open spec fn is_newer_spec(latest: Seq<char>, current: Seq<char>) -> bool {
    let l = version_parts(latest);
    let c = version_parts(current);
    exists|i: int|
        0 <= i && (forall|j: int| 0 <= j < i ==> part_at(l, j) == part_at(c, j)) && part_at(l, i)
            > part_at(c, i)
}

proof fn lemma_digits_prefix(s: Seq<char>, k: int)
    requires
        0 <= k <= s.len(),
        forall|i: int| 0 <= i < s.len() ==> is_digit(#[trigger] s[i]),
    ensures
        0 <= digits_value(s.take(k)) <= digits_value(s),
    decreases s.len(),
{
    if k == s.len() {
        assert(s.take(k) =~= s);
        lemma_digits_nonneg(s);
    } else {
        let t = s.drop_last();
        assert(s.take(k) =~= t.take(k));
        assert forall|i: int| 0 <= i < t.len() implies is_digit(#[trigger] t[i]) by {
            assert(t[i] == s[i]);
        }
        lemma_digits_prefix(t, k);
        lemma_digits_nonneg(t);
        assert(is_digit(s[s.len() - 1]));
    }
}

proof fn lemma_digits_nonneg(s: Seq<char>)
    requires
        forall|i: int| 0 <= i < s.len() ==> is_digit(#[trigger] s[i]),
    ensures
        digits_value(s) >= 0,
    decreases s.len(),
{
    if s.len() > 0 {
        let t = s.drop_last();
        assert forall|i: int| 0 <= i < t.len() implies is_digit(#[trigger] t[i]) by {
            assert(t[i] == s[i]);
        }
        lemma_digits_nonneg(t);
        assert(is_digit(s[s.len() - 1]));
    }
}

/// `str::parse::<u64>`.
pub fn parse_u64(s: &[char]) -> (r: Option<u64>)
    ensures
        r == parse_u64_spec(s@),
{
    let start: usize = if s.len() > 0 && s[0] == '+' {
        1
    } else {
        0
    };
    let ghost d = strip_plus(s@);
    assert(d =~= s@.subrange(start as int, s@.len() as int));
    if start >= s.len() {
        return None;
    }
    let mut value: u64 = 0;
    let mut i: usize = start;
    while i < s.len()
        invariant
            start <= i <= s@.len(),
            d == s@.subrange(start as int, s@.len() as int),
            d == strip_plus(s@),
            forall|k: int| 0 <= k < i - start ==> is_digit(#[trigger] d[k]),
            value == digits_value(d.take(i - start)),
        decreases s@.len() - i,
    {
        let c = s[i];
        assert(d[i - start] == s@[i as int]);
        if !('0' <= c && c <= '9') {
            assert(!is_digit(d[i - start]));
            assert(!all_digits(d));
            return None;
        }
        let digit: u64 = (c as u32 - '0' as u32) as u64;
        proof {
            assert(d.take(i - start + 1).drop_last() =~= d.take(i - start));
            assert(d.take(i - start + 1).last() == c);
            assert(digits_value(d.take(i - start + 1)) == value * 10 + digit);
        }
        match value.checked_mul(10) {
            Some(m) => match m.checked_add(digit) {
                Some(v) => {
                    value = v;
                },
                None => {
                    proof {
                        self::lemma_overflow_rest(s@, start as int, i as int, d);
                    }
                    return None;
                },
            },
            None => {
                proof {
                    self::lemma_overflow_rest(s@, start as int, i as int, d);
                }
                return None;
            },
        }
        i = i + 1;
    }
    assert(d.take(d.len() as int) =~= d);
    Some(value)
}

proof fn lemma_overflow_rest(s: Seq<char>, start: int, i: int, d: Seq<char>)
    requires
        0 <= start <= i < s.len(),
        d == s.subrange(start, s.len() as int),
        forall|k: int| 0 <= k <= i - start ==> is_digit(#[trigger] d[k]),
        digits_value(d.take(i - start + 1)) > u64::MAX,
    ensures
        all_digits(d) ==> digits_value(d) > u64::MAX,
{
    if all_digits(d) {
        lemma_digits_prefix(d, i - start + 1);
    }
}

/// The numeric components of a dotted version string.
pub fn parts(v: &str) -> (r: Vec<u64>)
    ensures
        r@ == version_parts(v@),
{
    let c = chars_of(v);
    let pieces = split_chars(c.as_slice(), '.');
    let ghost ps = split(v@, '.');
    let mut r: Vec<u64> = Vec::new();
    let mut i: usize = 0;
    while i < pieces.len()
        invariant
            pieces@.len() == ps.len(),
            forall|k: int| 0 <= k < pieces@.len() ==> #[trigger] pieces@[k]@ == ps[k],
            i <= pieces@.len(),
            r@ == ps.take(i as int).map_values(|p: Seq<char>| part_value(p)),
        decreases pieces@.len() - i,
    {
        let t = trim_chars(pieces[i].as_slice());
        let val = match parse_u64(t.as_slice()) {
            Some(x) => x,
            None => 0,
        };
        r.push(val);
        assert(ps.take(i + 1).map_values(|p: Seq<char>| part_value(p)) =~= ps.take(
            i as int,
        ).map_values(|p: Seq<char>| part_value(p)).push(part_value(ps[i as int])));
        i = i + 1;
    }
    assert(ps.take(ps.len() as int) =~= ps);
    r
}

/// True if dotted-numeric `latest` is a higher version than `current`
/// ("0.2.0" > "0.1.9"). Non-numeric components count as 0; differing lengths
/// are zero-padded, so "1.0" and "1.0.0" compare equal.
pub fn is_newer(latest: &str, current: &str) -> (r: bool)
    ensures
        r == is_newer_spec(latest@, current@),
{
    let l = parts(latest);
    let c = parts(current);
    let n = if l.len() > c.len() {
        l.len()
    } else {
        c.len()
    };
    let mut i: usize = 0;
    while i < n
        invariant
            l@ == version_parts(latest@),
            c@ == version_parts(current@),
            n == (if l@.len() > c@.len() {
                l@.len()
            } else {
                c@.len()
            }),
            i <= n,
            forall|j: int| 0 <= j < i ==> part_at(l@, j) == part_at(c@, j),
        decreases n - i,
    {
        let a = if i < l.len() {
            l[i]
        } else {
            0
        };
        let b = if i < c.len() {
            c[i]
        } else {
            0
        };
        if a != b {
            assert(part_at(l@, i as int) == a && part_at(c@, i as int) == b);
            if a > b {
                return true;
            } else {
                assert forall|k: int|
                    0 <= k && (forall|j: int| 0 <= j < k ==> part_at(l@, j) == part_at(c@, j))
                        implies !(part_at(l@, k) > part_at(c@, k)) by {
                    if k > i {
                        assert(part_at(l@, i as int) == part_at(c@, i as int));
                    }
                }
                return false;
            }
        }
        i = i + 1;
    }
    assert forall|k: int|
        0 <= k && (forall|j: int| 0 <= j < k ==> part_at(l@, j) == part_at(c@, j)) implies !(
        part_at(l@, k) > part_at(c@, k)) by {}
    false
}

/// The version a release tag names: leading `v`s removed, then trimmed.
pub open spec fn tag_version(tag: Seq<char>) -> Seq<char> {
    trim(trim_char_start(tag, 'v'))
}

/// What the latest-release answer means, given the running version and the
/// answer's `tag_name` and `html_url` fields (absent when missing or not
/// strings): a version is known when the tag names one, an update is
/// available when that version is newer, and the release page is the
/// answer's URL or, failing that, the latest-release page.
pub fn release_check(current: &str, tag: Option<&str>, html_url: Option<&str>) -> (r: UpdateCheck)
    ensures
        r.current_version@ == current@,
        ({
            let latest = tag_version(
                match tag {
                    Some(t) => t@,
                    None => Seq::<char>::empty(),
                },
            );
            &&& r.update_available == (latest.len() > 0 && is_newer_spec(latest, current@))
            &&& (latest.len() > 0 ==> (r.latest_version matches Some(v) && v@ == latest))
            &&& (latest.len() == 0 ==> r.latest_version is None)
        }),
        r.release_url matches Some(u) && u@ == match html_url {
            Some(h) => h@,
            None => spec_releases_page(),
        },
        r.error is None,
{
    let tc = match tag {
        Some(t) => chars_of(t),
        None => Vec::new(),
    };
    let stripped = trim_char_chars(tc.as_slice(), 'v', true, false);
    let lv = trim_chars(stripped.as_slice());
    let latest = string_of(lv.as_slice());
    let page = match html_url {
        Some(h) => h.to_owned(),
        None => releases_page(),
    };
    let available = lv.len() > 0 && is_newer(latest.as_str(), current);
    UpdateCheck {
        current_version: current.to_owned(),
        latest_version: if lv.len() > 0 {
            Some(latest)
        } else {
            None
        },
        update_available: available,
        release_url: Some(page),
        error: None,
    }
}

/// The answer when no release has been published yet (HTTP 404): nothing
/// newer exists, so the app is up to date.
pub fn no_release_check(current: &str) -> (r: UpdateCheck)
    ensures
        r.current_version@ == current@,
        r.latest_version is None,
        !r.update_available,
        r.release_url is None,
        r.error is None,
{
    UpdateCheck {
        current_version: current.to_owned(),
        latest_version: None,
        update_available: false,
        release_url: None,
        error: None,
    }
}

/// How the latest-release request was answered.
pub enum ReleaseAnswer<'a> {
    /// A JSON answer, with its `tag_name` and `html_url` string fields
    /// (absent when missing or not strings).
    Release { tag: Option<&'a str>, html_url: Option<&'a str> },
    /// An answer that is not JSON.
    Unreadable,
    /// HTTP 404: no release has been published yet.
    NotFound,
    /// Any other failure of the request.
    Unreachable,
}

/// The update check from the answer: never a panic, every failure mapped
/// to an error code (`"parse"` for an unreadable answer, `"network"` for a
/// failed request); no release yet means up to date.
pub fn check_outcome(current: &str, answer: ReleaseAnswer) -> (r: UpdateCheck)
    ensures
        r.current_version@ == current@,
        match answer {
            ReleaseAnswer::Release { tag, html_url } => {
                let latest = tag_version(
                    match tag {
                        Some(t) => t@,
                        None => Seq::<char>::empty(),
                    },
                );
                &&& r.update_available == (latest.len() > 0 && is_newer_spec(latest, current@))
                &&& (latest.len() > 0 ==> (r.latest_version matches Some(v) && v@ == latest))
                &&& (latest.len() == 0 ==> r.latest_version is None)
                &&& (r.release_url matches Some(u) && u@ == match html_url {
                    Some(h) => h@,
                    None => spec_releases_page(),
                })
                &&& r.error is None
            },
            ReleaseAnswer::Unreadable => {
                &&& r.latest_version is None
                &&& !r.update_available
                &&& r.release_url is None
                &&& (r.error matches Some(e) && e@ == "parse"@)
            },
            ReleaseAnswer::NotFound => {
                &&& r.latest_version is None
                &&& !r.update_available
                &&& r.release_url is None
                &&& r.error is None
            },
            ReleaseAnswer::Unreachable => {
                &&& r.latest_version is None
                &&& !r.update_available
                &&& r.release_url is None
                &&& (r.error matches Some(e) && e@ == "network"@)
            },
        },
{
    match answer {
        ReleaseAnswer::Release { tag, html_url } => release_check(current, tag, html_url),
        ReleaseAnswer::Unreadable => UpdateCheck::failed(current.to_owned(), "parse"),
        ReleaseAnswer::NotFound => no_release_check(current),
        ReleaseAnswer::Unreachable => UpdateCheck::failed(current.to_owned(), "network"),
    }
}

/// The page to open: the given release URL, or the latest-release page.
pub fn release_target(url: Option<String>) -> (r: String)
    ensures
        r@ == match url {
            Some(u) => u@,
            None => spec_releases_page(),
        },
{
    match url {
        Some(u) => u,
        None => releases_page(),
    }
}

/// No version is newer than itself.
pub proof fn law_not_newer_than_self(v: Seq<char>)
    ensures
        !is_newer_spec(v, v),
{
}

/// At most one of two versions is newer than the other.
pub proof fn law_newer_asymmetric(a: Seq<char>, b: Seq<char>)
    ensures
        !(is_newer_spec(a, b) && is_newer_spec(b, a)),
{
    if is_newer_spec(a, b) && is_newer_spec(b, a) {
        let la = version_parts(a);
        let lb = version_parts(b);
        let i = choose|i: int|
            0 <= i && (forall|j: int| 0 <= j < i ==> part_at(la, j) == part_at(lb, j))
                && part_at(la, i) > part_at(lb, i);
        let k = choose|k: int|
            0 <= k && (forall|j: int| 0 <= j < k ==> part_at(lb, j) == part_at(la, j))
                && part_at(lb, k) > part_at(la, k);
        if i < k {
            assert(part_at(lb, i) == part_at(la, i));
        } else if k < i {
            assert(part_at(la, k) == part_at(lb, k));
        }
    }
}


/// Versions equal once zero-padded ("1.0" and "1.0.0") compare equal:
/// neither is newer than the other.
pub proof fn law_padded_equal_not_newer(a: Seq<char>, b: Seq<char>)
    requires
        forall|i: int| part_at(version_parts(a), i) == part_at(version_parts(b), i),
    ensures
        !is_newer_spec(a, b),
        !is_newer_spec(b, a),
{
}

/// "Newer" is an order: newer than something newer is newer still.
pub proof fn law_newer_transitive(a: Seq<char>, b: Seq<char>, c: Seq<char>)
    requires
        is_newer_spec(a, b),
        is_newer_spec(b, c),
    ensures
        is_newer_spec(a, c),
{
    let la = version_parts(a);
    let lb = version_parts(b);
    let lc = version_parts(c);
    let i = choose|i: int|
        0 <= i && (forall|j: int| 0 <= j < i ==> part_at(la, j) == part_at(lb, j))
            && part_at(la, i) > part_at(lb, i);
    let k = choose|k: int|
        0 <= k && (forall|j: int| 0 <= j < k ==> part_at(lb, j) == part_at(lc, j))
            && part_at(lb, k) > part_at(lc, k);
    let m = if i <= k {
        i
    } else {
        k
    };
    assert forall|j: int| 0 <= j < m implies part_at(la, j) == part_at(lc, j) by {
        assert(part_at(la, j) == part_at(lb, j));
        assert(part_at(lb, j) == part_at(lc, j));
    }
    if i < k {
        assert(part_at(lb, i) == part_at(lc, i));
    } else if k < i {
        assert(part_at(la, k) == part_at(lb, k));
    }
    assert(part_at(la, m) > part_at(lc, m));
}

} // verus!
