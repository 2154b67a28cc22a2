//! Release version strings: parsing `v1.2.3-45-gabc` style versions,
//! ordering them, and the label under which an available update is shown.
use vstd::prelude::*;
use crate::text::{
    chars_of, decimal, decimal_parses_back, find, find_char, head, is_digit, is_white, lemma_decimal_digits,
    parse_u64_range, parse_u64_spec, push_char, string_of, tail, trim, trim_bounds, trim_end, trim_start,
};

verus! {

/// A release version: `major.minor.patch`, and the number of commits after
/// the release tag for development builds (`v1.2.3-45-g0abc`).
#[derive(Debug, Clone, Copy, PartialEq, Eq, Structural)]
pub struct Version {
    pub major: u64,
    pub minor: u64,
    pub patch: u64,
    pub commits: u64,
}

/// The text that the version numbers are read from: the trimmed text with a
/// leading `v` taken off, or, when the trimmed text has no leading `v`, the
/// text as it was given (untrimmed).
pub open spec fn version_body(s: Seq<char>) -> Seq<char> {
    let t = trim(s);
    if t.len() > 0 && t[0] == 'v' {
        t.subrange(1, t.len() as int)
    } else {
        s
    }
}

/// The commit count: the first `-`-separated field after the first `-`,
/// read as a number, or 0 when there is none or it is not a number.
pub open spec fn commits_of(t: Seq<char>) -> u64 {
    match tail(t, '-') {
        Some(rest) => match parse_u64_spec(head(rest, '-')) {
            Some(n) => n,
            None => 0,
        },
        None => 0,
    }
}

/// The minor number of the dotted part `main`: 0 when `main` has no second
/// field, `None` when that field is not a number.
pub open spec fn minor_of(main: Seq<char>) -> Option<u64> {
    match tail(main, '.') {
        None => Some(0u64),
        Some(r1) => parse_u64_spec(head(r1, '.')),
    }
}

/// The patch number of the dotted part `main`: 0 when `main` has no third
/// field, `None` when that field is not a number.
pub open spec fn patch_of(main: Seq<char>) -> Option<u64> {
    match tail(main, '.') {
        None => Some(0u64),
        Some(r1) => match tail(r1, '.') {
            None => Some(0u64),
            Some(r2) => parse_u64_spec(head(r2, '.')),
        },
    }
}

/// The version that a version string denotes, if it denotes one.
pub open spec fn version_of(s: Seq<char>) -> Option<Version> {
    let t = version_body(s);
    let main = head(t, '-');
    let major = parse_u64_spec(head(main, '.'));
    let minor = minor_of(main);
    let patch = patch_of(main);
    if major is Some && minor is Some && patch is Some {
        Some(Version { major: major->0, minor: minor->0, patch: patch->0, commits: commits_of(t) })
    } else {
        None
    }
}

/// `a` comes after `b`: (major, minor, patch, commits) compared in that order.
pub open spec fn newer(a: Version, b: Version) -> bool {
    ||| a.major > b.major
    ||| (a.major == b.major && a.minor > b.minor)
    ||| (a.major == b.major && a.minor == b.minor && a.patch > b.patch)
    ||| (a.major == b.major && a.minor == b.minor && a.patch == b.patch && a.commits > b.commits)
}

/// The trimmed text without one leading `v`.
pub open spec fn label_body(s: Seq<char>) -> Seq<char> {
    let t = trim(s);
    if t.len() > 0 && t[0] == 'v' {
        t.subrange(1, t.len() as int)
    } else {
        t
    }
}

/// The label under which a release version is shown: `v` followed by the
/// trimmed text without its own leading `v`.
pub open spec fn version_label(s: Seq<char>) -> Seq<char> {
    seq!['v'] + label_body(s)
}

/// The bounds of the version body within the characters `cs` of a version
/// string.
fn version_body_bounds(cs: &Vec<char>) -> (r: (usize, usize))
    ensures
        r.0 <= r.1 <= cs.len(),
        cs@.subrange(r.0 as int, r.1 as int) == version_body(cs@),
{
    let n = cs.len();
    assert(cs@.subrange(0, n as int) =~= cs@);
    let (a, b) = trim_bounds(cs, 0, n);
    if a < b && cs[a] == 'v' {
        assert(cs@.subrange(a + 1, b as int) =~= version_body(cs@));
        (a + 1, b)
    } else {
        (0, n)
    }
}

/// The commit count of the version body `cs[lo..hi]`, whose first `-` is at
/// `dash` (or `dash == hi`).
fn commits_in(cs: &Vec<char>, lo: usize, hi: usize, dash: usize) -> (r: u64)
    requires
        lo <= dash <= hi <= cs.len(),
        dash == lo + find(cs@.subrange(lo as int, hi as int), '-'),
    ensures
        r == commits_of(cs@.subrange(lo as int, hi as int)),
{
    let ghost t = cs@.subrange(lo as int, hi as int);
    if dash < hi {
        let e = find_char(cs, dash + 1, hi, '-');
        assert(t.subrange(find(t, '-') + 1, t.len() as int) =~= cs@.subrange(dash + 1, hi as int));
        assert(tail(t, '-') == Some(cs@.subrange(dash + 1, hi as int)));
        assert(cs@.subrange(dash + 1, e as int) =~= head(cs@.subrange(dash + 1, hi as int), '-'));
        match parse_u64_range(cs, dash + 1, e) {
            Some(c) => c,
            None => 0,
        }
    } else {
        0
    }
}

/// The minor and patch numbers of the dotted part `cs[d1..dash]`, which
/// starts at the first `.` of the dotted part (or `d1 == dash`).
fn minor_patch_in(cs: &Vec<char>, d1: usize, dash: usize, Ghost(main): Ghost<Seq<char>>) -> (r: Option<(u64, u64)>)
    requires
        d1 <= dash <= cs.len(),
        d1 == dash ==> tail(main, '.') is None,
        d1 < dash ==> tail(main, '.') == Some(cs@.subrange(d1 + 1, dash as int)),
    ensures
        r matches Some(mp) ==> minor_of(main) == Some(mp.0) && patch_of(main) == Some(mp.1),
        r is None ==> minor_of(main) is None || patch_of(main) is None,
{
    if d1 < dash {
        let ghost r1 = cs@.subrange(d1 + 1, dash as int);
        let d2 = find_char(cs, d1 + 1, dash, '.');
        assert(cs@.subrange(d1 + 1, d2 as int) =~= head(r1, '.'));
        let minor = match parse_u64_range(cs, d1 + 1, d2) {
            Some(m) => m,
            None => {
                return None;
            },
        };
        if d2 < dash {
            let ghost r2 = cs@.subrange(d2 + 1, dash as int);
            assert(r1.subrange(find(r1, '.') + 1, r1.len() as int) =~= r2);
            let d3 = find_char(cs, d2 + 1, dash, '.');
            assert(cs@.subrange(d2 + 1, d3 as int) =~= head(r2, '.'));
            match parse_u64_range(cs, d2 + 1, d3) {
                Some(p) => Some((minor, p)),
                None => None,
            }
        } else {
            Some((minor, 0))
        }
    } else {
        Some((0, 0))
    }
}

/// Parses a version string such as `v1.2.3`, `1.2` or `v1.2.3-45-gabc`.
/// Missing minor and patch numbers count as 0; a missing or malformed commit
/// count counts as 0.
pub fn parse_version(s: &str) -> (r: Option<Version>)
    ensures
        r == version_of(s@),
{
    let cs = chars_of(s);
    let (lo, hi) = version_body_bounds(&cs);
    let ghost t = version_body(s@);
    let dash = find_char(&cs, lo, hi, '-');
    let ghost main = head(t, '-');
    assert(cs@.subrange(lo as int, dash as int) =~= main);
    let commits = commits_in(&cs, lo, hi, dash);
    let d1 = find_char(&cs, lo, dash, '.');
    assert(cs@.subrange(lo as int, d1 as int) =~= head(main, '.'));
    if d1 < dash {
        assert(main.subrange(find(main, '.') + 1, main.len() as int) =~= cs@.subrange(d1 + 1, dash as int));
    }
    let major = match parse_u64_range(&cs, lo, d1) {
        Some(m) => m,
        None => {
            return None;
        },
    };
    match minor_patch_in(&cs, d1, dash, Ghost(main)) {
        Some((minor, patch)) => Some(Version { major, minor, patch, commits }),
        None => None,
    }
}

impl Version {
    /// Whether `self` is a later version than `other`.
    pub fn is_newer_than(&self, other: &Version) -> (r: bool)
        ensures
            r == newer(*self, *other),
    {
        if self.major != other.major {
            self.major > other.major
        } else if self.minor != other.minor {
            self.minor > other.minor
        } else if self.patch != other.patch {
            self.patch > other.patch
        } else {
            self.commits > other.commits
        }
    }
}

/// Being newer is a strict total order on versions: no version is newer
/// than itself, it is transitive, and of two different versions one is newer.
pub proof fn newer_is_strict_total_order(a: Version, b: Version, c: Version)
    ensures
        !newer(a, a),
        newer(a, b) ==> !newer(b, a),
        newer(a, b) && newer(b, c) ==> newer(a, c),
        a != b ==> newer(a, b) || newer(b, a),
{
}

/// A version is newer exactly when, at the first of major, minor, patch and
/// commit count in which the two differ, its number is the larger one; when
/// all four are equal it is not newer.
pub proof fn newer_compares_numbers_in_order(a: Version, b: Version)
    ensures
        a.major > b.major ==> newer(a, b),
        a.major < b.major ==> !newer(a, b),
        a.major == b.major && a.minor > b.minor ==> newer(a, b),
        a.major == b.major && a.minor < b.minor ==> !newer(a, b),
        a.major == b.major && a.minor == b.minor && a.patch > b.patch ==> newer(a, b),
        a.major == b.major && a.minor == b.minor && a.patch < b.patch ==> !newer(a, b),
        a.major == b.major && a.minor == b.minor && a.patch == b.patch && a.commits > b.commits ==> newer(
            a,
            b,
        ),
        a.major == b.major && a.minor == b.minor && a.patch == b.patch && a.commits <= b.commits
            ==> !newer(a, b),
{
}

/// `s` holds no `c`.
pub open spec fn lacks(s: Seq<char>, c: char) -> bool {
    forall|i: int| 0 <= i < s.len() ==> s[i] != c
}

/// A text with no `c` in front of `rest` finds `c` where it found it in `rest`.
proof fn lemma_find_skips(a: Seq<char>, rest: Seq<char>, c: char)
    requires
        lacks(a, c),
    ensures
        find(a + rest, c) == a.len() + find(rest, c),
    decreases a.len(),
{
    if a.len() > 0 {
        let t = a.subrange(1, a.len() as int);
        assert((a + rest).subrange(1, (a + rest).len() as int) =~= t + rest);
        assert((a + rest)[0] == a[0]);
        lemma_find_skips(t, rest, c);
    } else {
        assert(a + rest =~= rest);
    }
}

/// Decimal text is made of digits only, so it holds no other character.
proof fn lemma_decimal_lacks(n: nat, c: char)
    requires
        !is_digit(c),
    ensures
        lacks(decimal(n), c),
        decimal(n).len() > 0,
        is_digit(decimal(n)[0]),
        is_digit(decimal(n)[decimal(n).len() - 1]),
{
    lemma_decimal_digits(n);
}

proof fn lemma_lacks_concat(a: Seq<char>, b: Seq<char>, c: char)
    requires
        lacks(a, c),
        lacks(b, c),
    ensures
        lacks(a + b, c),
{
    assert forall|i: int| 0 <= i < (a + b).len() implies (a + b)[i] != c by {
        if i < a.len() {
            assert((a + b)[i] == a[i]);
        } else {
            assert((a + b)[i] == b[i - a.len()]);
        }
    }
}

/// A text without `c`, then `c`, then more: the first `c` separates the two.
proof fn lemma_split_at(a: Seq<char>, c: char, rest: Seq<char>)
    requires
        lacks(a, c),
    ensures
        head(a + seq![c] + rest, c) == a,
        tail(a + seq![c] + rest, c) == Some(rest),
        head(a, c) == a,
        tail(a, c) is None,
{
    let s = a + seq![c] + rest;
    assert(s =~= a + (seq![c] + rest));
    lemma_find_skips(a, seq![c] + rest, c);
    assert((seq![c] + rest)[0] == c);
    assert(find(seq![c] + rest, c) == 0);
    assert(s.subrange(0, a.len() as int) =~= a);
    assert(s.subrange(a.len() as int + 1, s.len() as int) =~= rest);
    lemma_find_skips(a, Seq::<char>::empty(), c);
    assert(a + Seq::<char>::empty() =~= a);
    assert(a.subrange(0, a.len() as int) =~= a);
}

/// A text that starts and ends with a character that is not whitespace is
/// its own trim.
proof fn lemma_trim_unchanged(s: Seq<char>)
    requires
        s.len() > 0,
        !is_white(s[0]),
        !is_white(s[s.len() - 1]),
    ensures
        trim(s) == s,
{
}

/// The dotted part `<major>.<minor>.<patch>` of a written version.
pub open spec fn dotted_text(v: Version) -> Seq<char> {
    decimal(v.major as nat) + seq!['.'] + decimal(v.minor as nat) + seq!['.'] + decimal(v.patch as nat)
}

/// The text `v<major>.<minor>.<patch>`, followed by `-<commits>` when
/// `with_commits` holds, as release tags and development builds write it.
pub open spec fn version_text(v: Version, with_commits: bool) -> Seq<char> {
    if with_commits {
        seq!['v'] + dotted_text(v) + seq!['-'] + decimal(v.commits as nat)
    } else {
        seq!['v'] + dotted_text(v)
    }
}

/// The dotted part reads back as major, minor and patch, and holds no `-`.
proof fn lemma_dotted_reads_back(v: Version)
    ensures
        lacks(dotted_text(v), '-'),
        dotted_text(v).len() > 0,
        is_digit(dotted_text(v)[dotted_text(v).len() - 1]),
        parse_u64_spec(head(dotted_text(v), '.')) == Some(v.major),
        minor_of(dotted_text(v)) == Some(v.minor),
        patch_of(dotted_text(v)) == Some(v.patch),
{
    let dm = decimal(v.major as nat);
    let dn = decimal(v.minor as nat);
    let dp = decimal(v.patch as nat);
    let main = dotted_text(v);
    lemma_decimal_lacks(v.major as nat, '.');
    lemma_decimal_lacks(v.minor as nat, '.');
    lemma_decimal_lacks(v.patch as nat, '.');
    lemma_decimal_lacks(v.major as nat, '-');
    lemma_decimal_lacks(v.minor as nat, '-');
    lemma_decimal_lacks(v.patch as nat, '-');
    decimal_parses_back(v.major as nat, u64::MAX as nat);
    decimal_parses_back(v.minor as nat, u64::MAX as nat);
    decimal_parses_back(v.patch as nat, u64::MAX as nat);
    assert(main =~= dm + seq!['.'] + (dn + seq!['.'] + dp));
    lemma_split_at(dm, '.', dn + seq!['.'] + dp);
    lemma_split_at(dn, '.', dp);
    lemma_split_at(dp, '.', Seq::<char>::empty());
    assert(lacks(seq!['.'], '-'));
    lemma_lacks_concat(dm, seq!['.'], '-');
    lemma_lacks_concat(dm + seq!['.'], dn, '-');
    lemma_lacks_concat(dm + seq!['.'] + dn, seq!['.'], '-');
    lemma_lacks_concat(dm + seq!['.'] + dn + seq!['.'], dp, '-');
    assert(main[main.len() - 1] == dp[dp.len() - 1]);
}

/// A version written out as `v<major>.<minor>.<patch>-<commits>` reads back
/// as that version, and without `-<commits>` as that version with no
/// commits: reading a version undoes writing it.
pub proof fn written_version_reads_back(v: Version)
    ensures
        version_of(version_text(v, true)) == Some(v),
        version_of(version_text(v, false)) == Some(Version { commits: 0, ..v }),
{
    let main = dotted_text(v);
    let dc = decimal(v.commits as nat);
    lemma_dotted_reads_back(v);
    lemma_decimal_lacks(v.commits as nat, '-');
    decimal_parses_back(v.commits as nat, u64::MAX as nat);
    // with commits
    let t1 = version_text(v, true);
    let b1 = main + seq!['-'] + dc;
    assert(t1[t1.len() - 1] == dc[dc.len() - 1]);
    lemma_trim_unchanged(t1);
    assert(t1.subrange(1, t1.len() as int) =~= b1);
    assert(version_body(t1) == b1);
    lemma_split_at(main, '-', dc);
    lemma_split_at(dc, '-', Seq::<char>::empty());
    assert(commits_of(b1) == v.commits);
    // without commits
    let t0 = version_text(v, false);
    assert(t0[t0.len() - 1] == main[main.len() - 1]);
    lemma_trim_unchanged(t0);
    assert(t0.subrange(1, t0.len() as int) =~= main);
    assert(version_body(t0) == main);
    lemma_split_at(main, '-', Seq::<char>::empty());
    assert(commits_of(main) == 0);
}

proof fn lemma_trim_start_suffix(s: Seq<char>)
    ensures
        exists|k: int| 0 <= k <= s.len() && trim_start(s) == #[trigger] s.subrange(k, s.len() as int),
        trim_start(s).len() > 0 ==> !is_white(trim_start(s)[0]),
    decreases s.len(),
{
    if s.len() > 0 && is_white(s[0]) {
        let t = s.subrange(1, s.len() as int);
        lemma_trim_start_suffix(t);
        let k = choose|k: int| 0 <= k <= t.len() && trim_start(t) == #[trigger] t.subrange(k, t.len() as int);
        assert(t.subrange(k, t.len() as int) =~= s.subrange(k + 1, s.len() as int));
    } else {
        assert(s.subrange(0, s.len() as int) =~= s);
    }
}

proof fn lemma_trim_end_prefix(s: Seq<char>)
    ensures
        exists|k: int| 0 <= k <= s.len() && trim_end(s) == #[trigger] s.subrange(0, k),
        trim_end(s).len() > 0 ==> !is_white(trim_end(s)[trim_end(s).len() - 1]),
    decreases s.len(),
{
    if s.len() > 0 && is_white(s[s.len() - 1]) {
        let t = s.subrange(0, s.len() - 1);
        lemma_trim_end_prefix(t);
        let k = choose|k: int| 0 <= k <= t.len() && trim_end(t) == #[trigger] t.subrange(0, k);
        assert(t.subrange(0, k) =~= s.subrange(0, k));
    } else {
        assert(s.subrange(0, s.len() as int) =~= s);
    }
}

/// A trimmed text is empty or starts and ends with a character that is not
/// whitespace.
proof fn lemma_trim_ends(s: Seq<char>)
    ensures
        trim(s).len() > 0 ==> !is_white(trim(s)[0]) && !is_white(trim(s)[trim(s).len() - 1]),
{
    let u = trim_start(s);
    lemma_trim_start_suffix(s);
    lemma_trim_end_prefix(u);
    if trim(s).len() > 0 {
        let k = choose|k: int| 0 <= k <= u.len() && trim_end(u) == #[trigger] u.subrange(0, k);
        assert(trim(s)[0] == u[0]);
    }
}

/// A text that starts with a non-whitespace character and is empty or ends
/// with one is its own trim.
proof fn lemma_trim_fixed(s: Seq<char>)
    requires
        s.len() > 0,
        !is_white(s[0]),
        !is_white(s[s.len() - 1]),
    ensures
        trim(s) == s,
{
}

/// The label of an available update, computed from the version text of a
/// release.
pub fn release_version_label(source: &str) -> (r: String)
    ensures
        r@ == version_label(source@),
{
    let cs = chars_of(source);
    let n = cs.len();
    assert(cs@.subrange(0, n as int) =~= source@);
    let (a, b) = trim_bounds(&cs, 0, n);
    let lo = if a < b && cs[a] == 'v' {
        a + 1
    } else {
        a
    };
    assert(cs@.subrange(lo as int, b as int) =~= label_body(source@));
    let mut r = String::new();
    push_char(&mut r, 'v');
    let body = string_of(&cs, lo, b);
    r.append(body.as_str());
    assert(r@ =~= version_label(source@));
    r
}

/// A version label is its own label: labelling twice changes nothing.
pub proof fn version_label_idempotent(s: Seq<char>)
    ensures
        version_label(version_label(s)) == version_label(s),
{
    let y = version_label(s);
    let u = label_body(s);
    let t = trim(s);
    lemma_trim_ends(s);
    if u.len() > 0 {
        assert(y[y.len() - 1] == t[t.len() - 1]);
    }
    lemma_trim_fixed(y);
    assert(y.subrange(1, y.len() as int) =~= u);
}

/// The version text of a label parses to what the label's body parses to:
/// a label re-read gives the version it was made from when that text had
/// no surrounding whitespace.
pub proof fn version_label_parses_as_source(s: Seq<char>)
    requires
        trim(s) == s,
    ensures
        version_of(version_label(s)) == version_of(s),
{
    let y = version_label(s);
    let u = label_body(s);
    lemma_trim_ends(s);
    if u.len() > 0 {
        assert(y[y.len() - 1] == s[s.len() - 1]);
    }
    lemma_trim_fixed(y);
    assert(y.subrange(1, y.len() as int) =~= u);
    assert(version_body(y) == u);
    if s.len() > 0 && s[0] == 'v' {
        assert(version_body(s) == u);
    } else {
        assert(u == s);
        assert(version_body(s) == s);
    }
}

/// A version label has no surrounding whitespace: trimming it changes
/// nothing.
pub proof fn version_label_is_trimmed(s: Seq<char>)
    ensures
        trim(version_label(s)) == version_label(s),
{
    let y = version_label(s);
    let u = label_body(s);
    let t = trim(s);
    lemma_trim_ends(s);
    if u.len() > 0 {
        assert(y[y.len() - 1] == t[t.len() - 1]);
    }
    lemma_trim_fixed(y);
}

} // verus!
