//! Choosing the X11 display for the webview in a Wayland session: the
//! display numbers of the X11 sockets, and the order in which displays are
//! tried.
use vstd::prelude::*;
use crate::text::chars_of;
use crate::updater::texts;

verus! {

/// `a` sorts before or equal to `b`, comparing character by character (the
/// order of `String`).
pub open spec fn text_le(a: Seq<char>, b: Seq<char>) -> bool
    decreases a.len(),
{
    if a.len() == 0 {
        true
    } else if b.len() == 0 {
        false
    } else if a[0] != b[0] {
        a[0] < b[0]
    } else {
        text_le(a.subrange(1, a.len() as int), b.subrange(1, b.len() as int))
    }
}

/// Each text sorts after or equal to the ones that follow it.
pub open spec fn descending(s: Seq<Seq<char>>) -> bool {
    forall|i: int, j: int| 0 <= i < j < s.len() ==> text_le(#[trigger] s[j], #[trigger] s[i])
}

pub open spec fn is_ascii_digit(c: char) -> bool {
    '0' <= c && c <= '9'
}

/// The display that an X11 socket name denotes: `X` followed by at least one
/// digit and nothing else gives `:` and those digits.
pub open spec fn socket_display_spec(name: Seq<char>) -> Option<Seq<char>> {
    if name.len() > 1 && name[0] == 'X' && (forall|i: int|
        1 <= i < name.len() ==> #[trigger] is_ascii_digit(name[i])) {
        Some(seq![':'] + name.subrange(1, name.len() as int))
    } else {
        None
    }
}

proof fn lemma_text_le_total(a: Seq<char>, b: Seq<char>)
    ensures
        text_le(a, b) || text_le(b, a),
        text_le(a, b) && text_le(b, a) ==> a == b,
    decreases a.len(),
{
    if a.len() > 0 && b.len() > 0 && a[0] == b[0] {
        let a1 = a.subrange(1, a.len() as int);
        let b1 = b.subrange(1, b.len() as int);
        lemma_text_le_total(a1, b1);
        if text_le(a, b) && text_le(b, a) {
            assert(a =~= seq![a[0]] + a1);
            assert(b =~= seq![b[0]] + b1);
        }
    } else if a.len() == 0 && b.len() == 0 {
        assert(a =~= b);
    }
}

proof fn lemma_text_le_trans(a: Seq<char>, b: Seq<char>, c: Seq<char>)
    requires
        text_le(a, b),
        text_le(b, c),
    ensures
        text_le(a, c),
    decreases a.len(),
{
    if a.len() > 0 && b.len() > 0 && c.len() > 0 && a[0] == b[0] && b[0] == c[0] {
        lemma_text_le_trans(
            a.subrange(1, a.len() as int),
            b.subrange(1, b.len() as int),
            c.subrange(1, c.len() as int),
        );
    }
}

/// Compares two texts character by character.
fn text_le_exec(a: &str, b: &str) -> (r: bool)
    ensures
        r == text_le(a@, b@),
{
    let ca = chars_of(a);
    let cb = chars_of(b);
    assert(ca@.subrange(0, ca.len() as int) =~= a@);
    assert(cb@.subrange(0, cb.len() as int) =~= b@);
    let mut i: usize = 0;
    while i < ca.len() && i < cb.len() && ca[i] == cb[i]
        invariant
            i <= ca.len(),
            i <= cb.len(),
            ca@ == a@,
            cb@ == b@,
            text_le(a@, b@) == text_le(
                ca@.subrange(i as int, ca.len() as int),
                cb@.subrange(i as int, cb.len() as int),
            ),
        decreases ca.len() - i,
    {
        proof {
            let sa = ca@.subrange(i as int, ca.len() as int);
            let sb = cb@.subrange(i as int, cb.len() as int);
            assert(sa.subrange(1, sa.len() as int) =~= ca@.subrange(i + 1, ca.len() as int));
            assert(sb.subrange(1, sb.len() as int) =~= cb@.subrange(i + 1, cb.len() as int));
        }
        i = i + 1;
    }
    if i == ca.len() {
        true
    } else if i == cb.len() {
        false
    } else {
        ca[i] < cb[i]
    }
}

/// The display that an X11 socket name (an entry of `/tmp/.X11-unix`)
/// denotes, if it denotes one.
pub fn socket_display(name: &str) -> (r: Option<String>)
    ensures
        match socket_display_spec(name@) {
            Some(d) => r matches Some(s) && s@ == d,
            None => r is None,
        },
{
    let cs = chars_of(name);
    if cs.len() < 2 || cs[0] != 'X' {
        return None;
    }
    let mut i: usize = 1;
    while i < cs.len()
        invariant
            1 <= i <= cs.len(),
            cs@ == name@,
            forall|j: int| 1 <= j < i ==> #[trigger] is_ascii_digit(cs@[j]),
        decreases cs.len() - i,
    {
        let c = cs[i];
        if !('0' <= c && c <= '9') {
            assert(!is_ascii_digit(name@[i as int]));
            return None;
        }
        i = i + 1;
    }
    let mut r = String::new();
    crate::text::push_char(&mut r, ':');
    let rest = crate::text::string_of(&cs, 1, cs.len());
    r.append(rest.as_str());
    assert(r@ =~= seq![':'] + name@.subrange(1, name@.len() as int));
    Some(r)
}

/// Sorts the display names in descending order (`sort` then `reverse`).
pub fn sort_descending(v: Vec<String>) -> (r: Vec<String>)
    ensures
        r@.to_multiset() == v@.to_multiset(),
        descending(texts(r@)),
{
    broadcast use vstd::seq_lib::group_to_multiset_ensures;
    broadcast use vstd::multiset::group_multiset_axioms;
    let mut r: Vec<String> = Vec::new();
    let mut rest = v;
    let ghost orig = rest@;
    while rest.len() > 0
        invariant
            r@.to_multiset().add(rest@.to_multiset()) == orig.to_multiset(),
            descending(texts(r@)),
        decreases rest.len(),
    {
        let ghost rest0 = rest@;
        let x = rest.remove(0);
        proof {
            vstd::seq_lib::to_multiset_remove(rest0, 0);
        }
        let mut p: usize = 0;
        while p < r.len() && !text_le_exec(r[p].as_str(), x.as_str())
            invariant
                p <= r.len(),
                forall|k: int| 0 <= k < p ==> !text_le(#[trigger] r@[k]@, x@),
            decreases r.len() - p,
        {
            p = p + 1;
        }
        let ghost r0 = r@;
        r.insert(p, x);
        proof {
            vstd::seq_lib::to_multiset_insert(r0, p as int, x);
            assert(rest@ == rest0.remove(0));
            assert(rest0.contains(x)) by {
                assert(rest0[0] == x);
            }
            vstd::seq_lib::to_multiset_contains(rest0, x);
            assert(r@.to_multiset().add(rest@.to_multiset()) =~= r0.to_multiset().add(rest0.to_multiset()));
            let t = texts(r@);
            let t0 = texts(r0);
            assert forall|i: int, j: int| 0 <= i < j < t.len() implies text_le(#[trigger] t[j], #[trigger] t[i]) by {
                if i < p && j == p {
                    lemma_text_le_total(r0[i]@, x@);
                } else if i == p && j > p {
                    if p < r0.len() {
                        assert(text_le(r0[p as int]@, x@));
                        if j - 1 > p {
                            assert(text_le(t0[j - 1], t0[p as int]));
                            lemma_text_le_trans(t0[j - 1], t0[p as int], x@);
                        }
                    }
                } else if i < p && j > p {
                    assert(text_le(t0[j - 1], t0[i]));
                } else if j < p {
                    assert(text_le(t0[j], t0[i]));
                } else {
                    assert(text_le(t0[j - 1], t0[i - 1]));
                }
            }
        }
    }
    proof {
        assert(rest@.to_multiset() =~= vstd::multiset::Multiset::empty());
    }
    r
}

/// Whether `v` holds a string equal to `s`.
fn contains_text(v: &Vec<String>, s: &String) -> (r: bool)
    ensures
        r == texts(v@).contains(s@),
{
    let mut i: usize = 0;
    while i < v.len()
        invariant
            i <= v.len(),
            forall|j: int| 0 <= j < i ==> #[trigger] v@[j]@ != s@,
        decreases v.len() - i,
    {
        if v[i] == *s {
            assert(texts(v@)[i as int] == s@);
            return true;
        }
        i = i + 1;
    }
    assert forall|j: int| 0 <= j < texts(v@).len() implies texts(v@)[j] != s@ by {
        assert(texts(v@)[j] == v@[j]@);
    }
    false
}

/// `s` with each of `items` appended that it does not hold yet, in order.
pub open spec fn append_new(s: Seq<Seq<char>>, items: Seq<Seq<char>>) -> Seq<Seq<char>>
    decreases items.len(),
{
    if items.len() == 0 {
        s
    } else {
        let s1 = if s.contains(items[0]) {
            s
        } else {
            s.push(items[0])
        };
        append_new(s1, items.subrange(1, items.len() as int))
    }
}

pub open spec fn opt_seq(o: Option<String>) -> Seq<Seq<char>> {
    match o {
        Some(s) => seq![s@],
        None => Seq::empty(),
    }
}

/// The X11 displays to try, in order: `DISPLAY`, then `XWAYLAND_DISPLAY`,
/// then the displays of the X11 sockets (as `sockets` lists them), each
/// only the first time it comes up.
pub fn display_candidates(display: Option<String>, xwayland_display: Option<String>, sockets: Vec<String>) -> (r: Vec<String>)
    ensures
        texts(r@) == append_new(append_new(opt_seq(display), opt_seq(xwayland_display)), texts(sockets@)),
{
    let mut out: Vec<String> = Vec::new();
    let ghost d = opt_seq(display);
    match display {
        Some(s) => out.push(s),
        None => {},
    }
    assert(texts(out@) =~= d);
    let ghost x = opt_seq(xwayland_display);
    match xwayland_display {
        Some(s) => {
            assert(x.subrange(1, 1) =~= Seq::<Seq<char>>::empty());
            if !contains_text(&out, &s) {
                out.push(s);
                assert(texts(out@) =~= d.push(x[0]));
            }
            reveal_with_fuel(append_new, 2);
            assert(texts(out@) == append_new(d, x));
        },
        None => {
            assert(texts(out@) == append_new(d, x));
        },
    }
    assert(texts(out@) == append_new(d, x));
    let ghost all = texts(sockets@);
    let ghost base = texts(out@);
    let mut rest = sockets;
    let ghost n = rest.len();
    while rest.len() > 0
        invariant
            rest.len() <= n,
            all.len() == n,
            texts(rest@) == all.subrange(n - rest.len(), n as int),
            append_new(texts(out@), texts(rest@)) == append_new(base, all),
        decreases rest.len(),
    {
        let ghost before = texts(rest@);
        let ghost out0 = texts(out@);
        let c = rest.remove(0);
        assert(texts(rest@) =~= before.subrange(1, before.len() as int));
        assert(before[0] == c@);
        if !contains_text(&out, &c) {
            out.push(c);
            assert(texts(out@) =~= out0.push(before[0]));
        }
        assert(texts(rest@) =~= all.subrange(n - rest.len(), n as int));
    }
    assert(texts(rest@) =~= Seq::<Seq<char>>::empty());
    assert(all.subrange(0, n as int) =~= all);
    out
}

/// No text occurs twice in `s`.
pub open spec fn distinct(s: Seq<Seq<char>>) -> bool {
    forall|i: int, j: int| 0 <= i < j < s.len() ==> s[i] != s[j]
}

/// Each display is tried at most once, every display that comes up is
/// tried, and nothing else is: appending the new items of `items` to a list
/// without repeats gives a list without repeats that holds exactly the
/// texts of both.
pub proof fn candidates_are_distinct_and_complete(s: Seq<Seq<char>>, items: Seq<Seq<char>>)
    requires
        distinct(s),
    ensures
        distinct(append_new(s, items)),
        forall|t: Seq<char>| append_new(s, items).contains(t) <==> (s.contains(t) || items.contains(t)),
    decreases items.len(),
{
    if items.len() > 0 {
        let x = items[0];
        let rest = items.subrange(1, items.len() as int);
        let s1 = if s.contains(x) {
            s
        } else {
            s.push(x)
        };
        assert(distinct(s1)) by {
            if !s.contains(x) {
                assert forall|i: int, j: int| 0 <= i < j < s1.len() implies s1[i] != s1[j] by {
                    if j == s.len() {
                        assert(s1[i] == s[i]);
                    }
                }
            }
        }
        candidates_are_distinct_and_complete(s1, rest);
        assert forall|t: Seq<char>| append_new(s, items).contains(t) <==> (s.contains(t) || items.contains(t)) by {
            if items.contains(t) && t != x {
                let k = choose|k: int| 0 <= k < items.len() && items[k] == t;
                assert(rest[k - 1] == t);
            }
            if rest.contains(t) {
                let k = choose|k: int| 0 <= k < rest.len() && rest[k] == t;
                assert(items[k + 1] == t);
            }
            if s1.contains(t) && !s.contains(t) {
                assert(t == x);
                assert(items[0] == t);
            }
            if t == x {
                if !s.contains(x) {
                    assert(s1[s.len() as int] == x);
                }
            }
            if s.contains(t) && !s.contains(x) {
                let k = choose|k: int| 0 <= k < s.len() && s[k] == t;
                assert(s1[k] == t);
            }
        }
    }
}

} // verus!
