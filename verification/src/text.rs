//! Character-level text helpers: whitespace trimming, searching, decimal
//! parsing and formatting, each with a specification over `Seq<char>`.
use vstd::prelude::*;

verus! {

/// The Unicode `White_Space` property, which `char::is_whitespace` and
/// `str::trim` use.
pub open spec fn is_white(c: char) -> bool {
    ||| ('\u{9}' <= c && c <= '\u{d}')
    ||| c == ' '
    ||| c == '\u{85}'
    ||| c == '\u{a0}'
    ||| c == '\u{1680}'
    ||| ('\u{2000}' <= c && c <= '\u{200a}')
    ||| c == '\u{2028}'
    ||| c == '\u{2029}'
    ||| c == '\u{202f}'
    ||| c == '\u{205f}'
    ||| c == '\u{3000}'
}

/// `s` without its leading whitespace.
pub open spec fn trim_start(s: Seq<char>) -> Seq<char>
    decreases s.len(),
{
    if s.len() > 0 && is_white(s[0]) {
        trim_start(s.subrange(1, s.len() as int))
    } else {
        s
    }
}

/// `s` without its trailing whitespace.
pub open spec fn trim_end(s: Seq<char>) -> Seq<char>
    decreases s.len(),
{
    if s.len() > 0 && is_white(s[s.len() - 1]) {
        trim_end(s.subrange(0, s.len() - 1))
    } else {
        s
    }
}

/// What `str::trim` returns.
pub open spec fn trim(s: Seq<char>) -> Seq<char> {
    trim_end(trim_start(s))
}

/// Index of the first `c` in `s`, or `s.len()` when there is none.
pub open spec fn find(s: Seq<char>, c: char) -> int
    decreases s.len(),
{
    if s.len() == 0 {
        0
    } else if s[0] == c {
        0
    } else {
        1 + find(s.subrange(1, s.len() as int), c)
    }
}

/// The part of `s` before its first `c` (the first item of `s.split(c)`).
pub open spec fn head(s: Seq<char>, c: char) -> Seq<char> {
    s.subrange(0, find(s, c))
}

/// The part of `s` after its first `c`, if `s` holds a `c`.
pub open spec fn tail(s: Seq<char>, c: char) -> Option<Seq<char>> {
    if find(s, c) < s.len() {
        Some(s.subrange(find(s, c) + 1, s.len() as int))
    } else {
        None
    }
}

pub open spec fn is_digit(c: char) -> bool {
    '0' <= c && c <= '9'
}

pub open spec fn digit_value(c: char) -> nat {
    (c as int - '0' as int) as nat
}

pub open spec fn digit_char(d: nat) -> char {
    ('0' as int + d) as char
}

/// The number that a sequence of decimal digits denotes.
pub open spec fn digits_value(s: Seq<char>) -> nat
    decreases s.len(),
{
    if s.len() == 0 {
        0
    } else {
        digits_value(s.subrange(0, s.len() - 1)) * 10 + digit_value(s[s.len() - 1])
    }
}

/// The digits of `s` once an optional leading `+` is taken off.
pub open spec fn unsigned_digits(s: Seq<char>) -> Seq<char> {
    if s.len() > 0 && s[0] == '+' {
        s.subrange(1, s.len() as int)
    } else {
        s
    }
}

/// What `str::parse` returns for an unsigned integer type whose largest value
/// is `max`: an optional `+`, then at least one decimal digit and nothing else,
/// denoting a number no larger than `max`.
pub open spec fn parse_unsigned(s: Seq<char>, max: nat) -> Option<nat> {
    let d = unsigned_digits(s);
    if d.len() > 0 && (forall|i: int| 0 <= i < d.len() ==> #[trigger] is_digit(d[i]))
        && digits_value(d) <= max {
        Some(digits_value(d))
    } else {
        None
    }
}

/// What `s.parse::<u64>()` returns, `Err` taken as `None`.
pub open spec fn parse_u64_spec(s: Seq<char>) -> Option<u64> {
    match parse_unsigned(s, u64::MAX as nat) {
        Some(n) => Some(n as u64),
        None => None,
    }
}

/// What `s.parse::<u32>()` returns, `Err` taken as `None`.
pub open spec fn parse_u32_spec(s: Seq<char>) -> Option<u32> {
    match parse_unsigned(s, u32::MAX as nat) {
        Some(n) => Some(n as u32),
        None => None,
    }
}

/// The decimal representation of `n`, as `n.to_string()` writes it.
pub open spec fn decimal(n: nat) -> Seq<char>
    decreases n,
{
    if n < 10 {
        seq![digit_char(n)]
    } else {
        decimal(n / 10).push(digit_char(n % 10))
    }
}

/// The text of an optional string.
pub open spec fn opt_text(s: Option<&str>) -> Option<Seq<char>> {
    match s {
        Some(t) => Some(t@),
        None => None,
    }
}

/// Pushes one character onto a `String` (`String::push`).
#[verifier::external_body]
pub fn push_char(s: &mut String, c: char)
    ensures
        final(s)@ == old(s)@.push(c),
{
    s.push(c);
}

/// The characters of `s`, in order.
pub fn chars_of(s: &str) -> (v: Vec<char>)
    ensures
        v@ == s@,
{
    let mut v: Vec<char> = Vec::new();
    for c in it: s.chars()
        invariant
            it.seq() == s@,
            v@ == it.seq().subrange(0, it.index() as int),
    {
        v.push(c);
    }
    v
}

/// A `String` holding the characters `cs[lo..hi]`.
pub fn string_of(cs: &Vec<char>, lo: usize, hi: usize) -> (s: String)
    requires
        lo <= hi <= cs.len(),
    ensures
        s@ == cs@.subrange(lo as int, hi as int),
{
    let mut s = String::new();
    let mut i = lo;
    while i < hi
        invariant
            lo <= i <= hi <= cs.len(),
            s@ == cs@.subrange(lo as int, i as int),
        decreases hi - i,
    {
        push_char(&mut s, cs[i]);
        assert(cs@.subrange(lo as int, i + 1) == cs@.subrange(lo as int, i as int).push(cs@[i as int]));
        i = i + 1;
    }
    s
}

/// Whether `c` is Unicode whitespace (`char::is_whitespace`).
pub fn is_whitespace(c: char) -> (b: bool)
    ensures
        b == is_white(c),
{
    ('\u{9}' <= c && c <= '\u{d}') || c == ' ' || c == '\u{85}' || c == '\u{a0}' || c == '\u{1680}'
        || ('\u{2000}' <= c && c <= '\u{200a}') || c == '\u{2028}' || c == '\u{2029}' || c
        == '\u{202f}' || c == '\u{205f}' || c == '\u{3000}'
}

proof fn lemma_trim_start_step(s: Seq<char>, i: int)
    requires
        0 <= i < s.len(),
        is_white(s[i]),
    ensures
        trim_start(s.subrange(i, s.len() as int)) == trim_start(s.subrange(i + 1, s.len() as int)),
{
    let t = s.subrange(i, s.len() as int);
    assert(t.subrange(1, t.len() as int) =~= s.subrange(i + 1, s.len() as int));
}

proof fn lemma_trim_end_step(s: Seq<char>, j: int)
    requires
        0 < j <= s.len(),
        is_white(s[j - 1]),
    ensures
        trim_end(s.subrange(0, j)) == trim_end(s.subrange(0, j - 1)),
{
    let t = s.subrange(0, j);
    assert(t.subrange(0, t.len() - 1) =~= s.subrange(0, j - 1));
}

/// The bounds `(a, b)` such that `cs[a..b]` is `cs[lo..hi]` trimmed of
/// whitespace at both ends.
pub fn trim_bounds(cs: &Vec<char>, lo: usize, hi: usize) -> (r: (usize, usize))
    requires
        lo <= hi <= cs.len(),
    ensures
        lo <= r.0 <= r.1 <= hi,
        cs@.subrange(r.0 as int, r.1 as int) == trim(cs@.subrange(lo as int, hi as int)),
{
    let ghost s = cs@.subrange(lo as int, hi as int);
    let mut a = lo;
    while a < hi && is_whitespace(cs[a])
        invariant
            lo <= a <= hi <= cs.len(),
            s == cs@.subrange(lo as int, hi as int),
            trim_start(s) == trim_start(cs@.subrange(a as int, hi as int)),
        decreases hi - a,
    {
        proof {
            lemma_trim_start_step(cs@.subrange(0, hi as int), a as int);
            assert(cs@.subrange(0, hi as int).subrange(a as int, hi as int) =~= cs@.subrange(a as int, hi as int));
            assert(cs@.subrange(0, hi as int).subrange(a + 1, hi as int) =~= cs@.subrange(a + 1, hi as int));
        }
        a = a + 1;
    }
    let ghost ts = cs@.subrange(a as int, hi as int);
    assert(trim_start(ts) == ts) by {
        if ts.len() > 0 {
            assert(ts[0] == cs@[a as int]);
        }
    }
    let mut b = hi;
    while b > a && is_whitespace(cs[b - 1])
        invariant
            lo <= a <= b <= hi <= cs.len(),
            ts == cs@.subrange(a as int, hi as int),
            trim_end(ts) == trim_end(cs@.subrange(a as int, b as int)),
        decreases b - a,
    {
        proof {
            let u = cs@.subrange(a as int, hi as int);
            lemma_trim_end_step(u, (b - a) as int);
            assert(u.subrange(0, (b - a) as int) =~= cs@.subrange(a as int, b as int));
            assert(u.subrange(0, b - a - 1) =~= cs@.subrange(a as int, b - 1));
        }
        b = b - 1;
    }
    let ghost tb = cs@.subrange(a as int, b as int);
    assert(trim_end(tb) == tb) by {
        if tb.len() > 0 {
            assert(tb[tb.len() - 1] == cs@[b - 1]);
        }
    }
    (a, b)
}

proof fn lemma_find_step(s: Seq<char>, i: int, c: char)
    requires
        0 <= i < s.len(),
        s[i] != c,
    ensures
        find(s.subrange(i, s.len() as int), c) == 1 + find(s.subrange(i + 1, s.len() as int), c),
{
    let t = s.subrange(i, s.len() as int);
    assert(t.subrange(1, t.len() as int) =~= s.subrange(i + 1, s.len() as int));
}

/// The index of the first `c` in `cs[lo..hi]`, counted from the start of `cs`,
/// or `hi` when there is none.
pub fn find_char(cs: &Vec<char>, lo: usize, hi: usize, c: char) -> (r: usize)
    requires
        lo <= hi <= cs.len(),
    ensures
        lo <= r <= hi,
        r == lo + find(cs@.subrange(lo as int, hi as int), c),
{
    let mut i = lo;
    while i < hi && cs[i] != c
        invariant
            lo <= i <= hi <= cs.len(),
            find(cs@.subrange(lo as int, hi as int), c) == (i - lo) + find(
                cs@.subrange(i as int, hi as int),
                c,
            ),
        decreases hi - i,
    {
        proof {
            let u = cs@.subrange(0, hi as int);
            lemma_find_step(u, i as int, c);
            assert(u.subrange(i as int, hi as int) =~= cs@.subrange(i as int, hi as int));
            assert(u.subrange(i + 1, hi as int) =~= cs@.subrange(i + 1, hi as int));
        }
        i = i + 1;
    }
    i
}

proof fn lemma_digits_value_prefix_mono(s: Seq<char>, k: int)
    requires
        0 <= k <= s.len(),
    ensures
        digits_value(s.subrange(0, k)) <= digits_value(s),
    decreases s.len() - k,
{
    if k < s.len() {
        lemma_digits_value_prefix_mono(s, k + 1);
        let p = s.subrange(0, k + 1);
        assert(p.subrange(0, p.len() - 1) =~= s.subrange(0, k));
        assert(digits_value(p) >= digits_value(s.subrange(0, k)));
    } else {
        assert(s.subrange(0, k) =~= s);
    }
}

/// Parses `cs[lo..hi]` as `str::parse` parses an unsigned integer no larger
/// than `max`.
pub fn parse_unsigned_range(cs: &Vec<char>, lo: usize, hi: usize, max: u64) -> (r: Option<u64>)
    requires
        lo <= hi <= cs.len(),
    ensures
        r matches Some(n) ==> parse_unsigned(cs@.subrange(lo as int, hi as int), max as nat) == Some(
            n as nat,
        ),
        r is None ==> parse_unsigned(cs@.subrange(lo as int, hi as int), max as nat) is None,
{
    let ghost s = cs@.subrange(lo as int, hi as int);
    let mut start = lo;
    if lo < hi && cs[lo] == '+' {
        start = lo + 1;
    }
    assert(unsigned_digits(s) =~= cs@.subrange(start as int, hi as int));
    let ghost d = cs@.subrange(start as int, hi as int);
    if start == hi {
        return None;
    }
    let mut acc: u64 = 0;
    let mut i = start;
    while i < hi
        invariant
            start <= i <= hi <= cs.len(),
            d == cs@.subrange(start as int, hi as int),
            unsigned_digits(cs@.subrange(lo as int, hi as int)) == d,
            d.len() > 0,
            forall|j: int| start <= j < i ==> is_digit(cs@[j]),
            acc as nat == digits_value(cs@.subrange(start as int, i as int)),
            acc <= max,
        decreases hi - i,
    {
        let c = cs[i];
        if !('0' <= c && c <= '9') {
            assert(!is_digit(d[i - start]));
            return None;
        }
        let dv: u64 = (c as u32 - '0' as u32) as u64;
        let ghost p = cs@.subrange(start as int, i + 1);
        assert(p.subrange(0, p.len() - 1) =~= cs@.subrange(start as int, i as int));
        assert(digits_value(p) == acc * 10 + dv);
        proof {
            lemma_digits_value_prefix_mono(d, i + 1 - start);
            assert(d.subrange(0, i + 1 - start) =~= p);
        }
        let next = match acc.checked_mul(10) {
            None => {
                return None;
            },
            Some(m) => match m.checked_add(dv) {
                None => {
                    return None;
                },
                Some(v) => v,
            },
        };
        if next > max {
            return None;
        }
        acc = next;
        i = i + 1;
    }
    assert(cs@.subrange(start as int, i as int) =~= d);
    Some(acc)
}

/// Parses `cs[lo..hi]` as `str::parse::<u64>` does.
pub fn parse_u64_range(cs: &Vec<char>, lo: usize, hi: usize) -> (r: Option<u64>)
    requires
        lo <= hi <= cs.len(),
    ensures
        r == parse_u64_spec(cs@.subrange(lo as int, hi as int)),
{
    parse_unsigned_range(cs, lo, hi, u64::MAX)
}

/// Parses `cs[lo..hi]` as `str::parse::<u32>` does.
pub fn parse_u32_range(cs: &Vec<char>, lo: usize, hi: usize) -> (r: Option<u32>)
    requires
        lo <= hi <= cs.len(),
    ensures
        r == parse_u32_spec(cs@.subrange(lo as int, hi as int)),
{
    match parse_unsigned_range(cs, lo, hi, u32::MAX as u64) {
        Some(n) => Some(n as u32),
        None => None,
    }
}

pub(crate) proof fn lemma_decimal_digits(n: nat)
    ensures
        decimal(n).len() > 0,
        forall|i: int| 0 <= i < decimal(n).len() ==> #[trigger] is_digit(decimal(n)[i]),
        digits_value(decimal(n)) == n,
    decreases n,
{
    if n < 10 {
        let d = decimal(n);
        assert(d.subrange(0, 0) =~= Seq::<char>::empty());
        assert(digit_value(digit_char(n)) == n);
        assert(digits_value(Seq::<char>::empty()) == 0);
        assert(digits_value(d) == digits_value(d.subrange(0, 0)) * 10 + digit_value(d[0]));
    } else {
        lemma_decimal_digits(n / 10);
        let d = decimal(n);
        assert(d.subrange(0, d.len() - 1) =~= decimal(n / 10));
        assert(digit_value(digit_char(n % 10)) == n % 10);
        assert(digits_value(d) == digits_value(decimal(n / 10)) * 10 + digit_value(digit_char(n % 10)));
        assert((n / 10) * 10 + n % 10 == n);
        assert forall|i: int| 0 <= i < d.len() implies #[trigger] is_digit(d[i]) by {
            if i < d.len() - 1 {
                assert(d[i] == decimal(n / 10)[i]);
            }
        }
    }
}

/// Decimal text reads back as the number it was written from: `str::parse`
/// of `n.to_string()` gives `n` back.
pub proof fn decimal_parses_back(n: nat, max: nat)
    requires
        n <= max,
    ensures
        parse_unsigned(decimal(n), max) == Some(n),
{
    lemma_decimal_digits(n);
    let d = decimal(n);
    assert(is_digit(d[0]));
    assert(unsigned_digits(d) == d);
}

/// Appends the decimal representation of `n` to `s`.
pub fn push_decimal(s: &mut String, n: u64)
    ensures
        final(s)@ == old(s)@ + decimal(n as nat),
    decreases n,
{
    if n < 10 {
        push_char(s, ((n as u8) + 48u8) as char);
    } else {
        push_decimal(s, n / 10);
        push_char(s, (((n % 10) as u8) + 48u8) as char);
    }
}

/// The decimal representation of `n` (`n.to_string()`).
pub fn decimal_string(n: u64) -> (s: String)
    ensures
        s@ == decimal(n as nat),
{
    let mut s = String::new();
    push_decimal(&mut s, n);
    s
}

} // verus!
