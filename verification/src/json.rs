//! The JSON documents behind the config file: a JSON value model, the merge
//! that writes a partial config into the file's document, the update that
//! records the selected Steam Input profile, and the serde_json calls that
//! read and write the file's text.
use vstd::prelude::*;
use crate::text::{decimal, decimal_string, opt_text, parse_unsigned};

verus! {

/// A JSON value. Numbers are kept as their JSON text.
pub enum Json {
    Null,
    Bool(bool),
    Number(String),
    Str(String),
    Array(Vec<Json>),
    Object(Vec<(String, Json)>),
}

/// The mathematical value of a `Json`.
pub enum JsonView {
    Null,
    Bool(bool),
    Number(Seq<char>),
    Str(Seq<char>),
    Array(Seq<JsonView>),
    Object(Seq<(Seq<char>, JsonView)>),
}

/// The members of a JSON object, in order.
pub type Entries = Seq<(Seq<char>, JsonView)>;

pub open spec fn json_view(j: Json) -> JsonView
    decreases j,
{
    match j {
        Json::Null => JsonView::Null,
        Json::Bool(b) => JsonView::Bool(b),
        Json::Number(t) => JsonView::Number(t@),
        Json::Str(s) => JsonView::Str(s@),
        Json::Array(v) => JsonView::Array(array_view(v@)),
        Json::Object(v) => JsonView::Object(entries_view(v@)),
    }
}

pub open spec fn array_view(s: Seq<Json>) -> Seq<JsonView>
    decreases s,
{
    if s.len() == 0 {
        Seq::empty()
    } else {
        array_view(s.subrange(0, s.len() - 1)).push(json_view(s[s.len() - 1]))
    }
}

pub open spec fn entries_view(s: Seq<(String, Json)>) -> Entries
    decreases s,
{
    if s.len() == 0 {
        Seq::empty()
    } else {
        entries_view(s.subrange(0, s.len() - 1)).push((s[s.len() - 1].0@, json_view(s[s.len() - 1].1)))
    }
}

impl View for Json {
    type V = JsonView;

    open spec fn view(&self) -> JsonView {
        json_view(*self)
    }
}

/// Index of the first member named `k`, or `es.len()` when there is none.
pub open spec fn find_key(es: Entries, k: Seq<char>) -> int
    decreases es.len(),
{
    if es.len() == 0 {
        0
    } else if es[0].0 == k {
        0
    } else {
        1 + find_key(es.subrange(1, es.len() as int), k)
    }
}

/// The value of member `k`, if there is one.
pub open spec fn get_key(es: Entries, k: Seq<char>) -> Option<JsonView> {
    if find_key(es, k) < es.len() {
        Some(es[find_key(es, k)].1)
    } else {
        None
    }
}

/// The value of member `k`, or `null` when there is none.
pub open spec fn lookup(es: Entries, k: Seq<char>) -> JsonView {
    match get_key(es, k) {
        Some(v) => v,
        None => JsonView::Null,
    }
}

/// Sets member `k` to `v`: in place when it is there, at the end otherwise.
pub open spec fn upsert(es: Entries, k: Seq<char>, v: JsonView) -> Entries {
    if find_key(es, k) < es.len() {
        es.update(find_key(es, k), (k, v))
    } else {
        es.push((k, v))
    }
}

/// `patch` merged into `base`: when `patch` is an object, each member of
/// `patch` that is not `null` is merged into the member of `base` of that
/// name (`null` when `base` has none, or is not an object), and the other
/// members of `base` stay; a `base` that is not an object counts as the
/// empty object, so `null` members are left out at every depth. Any other
/// `patch` replaces `base`.
pub open spec fn merged(base: JsonView, patch: JsonView) -> JsonView
    decreases patch, 0int,
{
    match patch {
        JsonView::Object(ps) => match base {
            JsonView::Object(bs) => JsonView::Object(merged_entries(bs, ps)),
            _ => JsonView::Object(merged_entries(Seq::empty(), ps)),
        },
        _ => patch,
    }
}

/// The members of patch object `ps` merged, in order, into the members `bs`.
pub open spec fn merged_entries(bs: Entries, ps: Entries) -> Entries
    decreases ps, 0int,
{
    if ps.len() == 0 {
        bs
    } else {
        merged_entries(merge_member(bs, ps[0].0, ps[0].1), ps.subrange(1, ps.len() as int))
    }
}

/// One member `k: v` of a patch merged into the members `bs`.
pub open spec fn merge_member(bs: Entries, k: Seq<char>, v: JsonView) -> Entries
    decreases v, 1int,
{
    if v is Null {
        bs
    } else {
        upsert(bs, k, merged(lookup(bs, k), v))
    }
}

/// No two members of `es` have the same name.
pub open spec fn unique_keys(es: Entries) -> bool {
    forall|i: int, j: int| 0 <= i < j < es.len() ==> es[i].0 != es[j].0
}

/// `ps` has a member named `k` whose value is not `null`.
pub open spec fn writes_key(ps: Entries, k: Seq<char>) -> bool {
    get_key(ps, k) matches Some(v) && !(v is Null)
}

/// The empty object.
pub open spec fn empty_object() -> JsonView {
    JsonView::Object(Seq::empty())
}

/// The name under which the value of a JSON text is known: what
/// `serde_json::from_str::<serde_json::Value>` reads from it, or `None` when
/// serde_json refuses the text: when it is not JSON, and also when it nests
/// deeper than serde_json's recursion limit.
pub uninterp spec fn json_text_value(text: Seq<char>) -> Option<JsonView>;

/// The name under which the pretty-printed text of a JSON value is known:
/// what `serde_json::to_string_pretty` writes for it.
pub uninterp spec fn json_pretty_text(doc: JsonView) -> Seq<char>;

/// The document that a config file with text `existing` holds: its JSON
/// value, or the empty object when there is no file or serde_json refuses
/// its text.
pub open spec fn file_document(existing: Option<Seq<char>>) -> JsonView {
    match existing {
        Some(raw) => match json_text_value(raw) {
            Some(v) => v,
            None => empty_object(),
        },
        None => empty_object(),
    }
}

/// The document with `steam_input_profile_app_id` set to `app_id` inside
/// its `controller_emulation` object. A document that is not an object is
/// replaced by an empty one first, and so is a `controller_emulation`
/// member that is not an object.
pub open spec fn with_selected_app_id(doc: JsonView, app_id: u32) -> JsonView {
    let root = match doc {
        JsonView::Object(es) => es,
        _ => Seq::empty(),
    };
    let ce = match get_key(root, "controller_emulation"@) {
        Some(JsonView::Object(c)) => c,
        _ => Seq::empty(),
    };
    JsonView::Object(
        upsert(
            root,
            "controller_emulation"@,
            JsonView::Object(
                upsert(ce, "steam_input_profile_app_id"@, JsonView::Number(decimal(app_id as nat))),
            ),
        ),
    )
}

#[verifier::external_type_specification]
#[verifier::external_body]
pub struct ExJsonValue(serde_json::Value);

/// Converts a `serde_json::Value` to a `Json`, node for node (a number
/// becomes its text).
#[verifier::external_body]
fn json_from_value(v: serde_json::Value) -> Json {
    match v {
        serde_json::Value::Null => Json::Null,
        serde_json::Value::Bool(b) => Json::Bool(b),
        serde_json::Value::Number(n) => Json::Number(n.to_string()),
        serde_json::Value::String(s) => Json::Str(s),
        serde_json::Value::Array(a) => Json::Array(a.into_iter().map(json_from_value).collect()),
        serde_json::Value::Object(m) => Json::Object(
            m.into_iter().map(|(k, x)| (k, json_from_value(x))).collect(),
        ),
    }
}

/// Converts a `Json` to a `serde_json::Value`, node for node (a number is
/// read back from its text).
#[verifier::external_body]
fn value_from_json(j: &Json) -> serde_json::Value {
    match j {
        Json::Null => serde_json::Value::Null,
        Json::Bool(b) => serde_json::Value::Bool(*b),
        Json::Number(t) => t.parse::<serde_json::Number>().map(serde_json::Value::Number).unwrap_or(
            serde_json::Value::Null,
        ),
        Json::Str(s) => serde_json::Value::String(s.clone()),
        Json::Array(a) => serde_json::Value::Array(a.iter().map(value_from_json).collect()),
        Json::Object(es) => serde_json::Value::Object(
            es.iter().map(|(k, x)| (k.clone(), value_from_json(x))).collect(),
        ),
    }
}

/// Reads JSON text with `serde_json::from_str::<serde_json::Value>`. The
/// contract claims that the result is the value named `json_text_value` of
/// the text, and `None` exactly when that name gives `None` (the text is not
/// JSON), and that no object in the result has a member name twice (a
/// `serde_json::Map` holds each key once); what JSON text denotes is not
/// stated here.
#[verifier::external_body]
fn parse_json(text: &str) -> (r: Option<Json>)
    ensures
        match json_text_value(text@) {
            Some(v) => r matches Some(j) && j@ == v,
            None => r is None,
        },
        r matches Some(j) ==> well_keyed(j@),
{
    serde_json::from_str::<serde_json::Value>(text).ok().map(json_from_value)
}

/// Writes a JSON value as indented text with `serde_json::to_string_pretty`.
/// The contract claims that the text is the one named `json_pretty_text`
/// of the value; its layout is not stated here.
#[verifier::external_body]
fn render_json_pretty(doc: &Json) -> (r: String)
    ensures
        r@ == json_pretty_text(doc@),
{
    serde_json::to_string_pretty(&value_from_json(doc)).unwrap_or_default()
}

proof fn lemma_entries_view(s: Seq<(String, Json)>)
    ensures
        entries_view(s).len() == s.len(),
        forall|i: int|
            0 <= i < s.len() ==> #[trigger] entries_view(s)[i] == (s[i].0@, json_view(s[i].1)),
    decreases s.len(),
{
    if s.len() > 0 {
        lemma_entries_view(s.subrange(0, s.len() - 1));
    }
}

proof fn lemma_entries_view_update(s: Seq<(String, Json)>, i: int, x: (String, Json))
    requires
        0 <= i < s.len(),
    ensures
        entries_view(s.update(i, x)) == entries_view(s).update(i, (x.0@, json_view(x.1))),
{
    lemma_entries_view(s);
    lemma_entries_view(s.update(i, x));
    assert(entries_view(s.update(i, x)) =~= entries_view(s).update(i, (x.0@, json_view(x.1))));
}

proof fn lemma_entries_view_push(s: Seq<(String, Json)>, x: (String, Json))
    ensures
        entries_view(s.push(x)) == entries_view(s).push((x.0@, json_view(x.1))),
{
    assert(s.push(x).subrange(0, s.len() as int) =~= s);
}

/// `find_key` is the first index whose member is named `k`.
proof fn lemma_find_key(es: Entries, k: Seq<char>)
    ensures
        0 <= find_key(es, k) <= es.len(),
        forall|j: int| 0 <= j < find_key(es, k) ==> #[trigger] es[j].0 != k,
        find_key(es, k) < es.len() ==> es[find_key(es, k)].0 == k,
    decreases es.len(),
{
    if es.len() > 0 && es[0].0 != k {
        let t = es.subrange(1, es.len() as int);
        lemma_find_key(t, k);
        assert forall|j: int| 0 <= j < find_key(es, k) implies #[trigger] es[j].0 != k by {
            if j > 0 {
                assert(es[j] == t[j - 1]);
            }
        }
    }
}

/// An index with the two properties of `lemma_find_key` is `find_key`.
proof fn lemma_find_key_is(es: Entries, k: Seq<char>, i: int)
    requires
        0 <= i <= es.len(),
        forall|j: int| 0 <= j < i ==> #[trigger] es[j].0 != k,
        i < es.len() ==> es[i].0 == k,
    ensures
        find_key(es, k) == i,
{
    lemma_find_key(es, k);
    let f = find_key(es, k);
    if f < i {
        assert(es[f].0 != k);
    } else if i < f {
        assert(es[i].0 != k);
    }
}

/// Setting member `k` leaves every other member as it was and makes `k`'s
/// value `v`.
proof fn lemma_upsert_get(es: Entries, k: Seq<char>, v: JsonView, q: Seq<char>)
    ensures
        get_key(upsert(es, k, v), q) == if q == k {
            Some(v)
        } else {
            get_key(es, q)
        },
        unique_keys(es) ==> unique_keys(upsert(es, k, v)),
{
    lemma_find_key(es, k);
    lemma_find_key(es, q);
    let u = upsert(es, k, v);
    let fk = find_key(es, k);
    let fq = find_key(es, q);
    if fk < es.len() {
        if q == k {
            lemma_find_key_is(u, q, fk);
        } else {
            if fq < es.len() {
                assert forall|j: int| 0 <= j < fq implies #[trigger] u[j].0 != q by {
                    if j != fk {
                        assert(u[j] == es[j]);
                    }
                }
                lemma_find_key_is(u, q, fq);
            } else {
                lemma_find_key_is(u, q, u.len() as int);
            }
        }
    } else {
        if q == k {
            lemma_find_key_is(u, q, es.len() as int);
        } else {
            assert forall|j: int| 0 <= j < fq implies #[trigger] u[j].0 != q by {
                assert(u[j] == es[j]);
            }
            if fq < es.len() {
                lemma_find_key_is(u, q, fq);
            } else {
                lemma_find_key_is(u, q, u.len() as int);
            }
        }
    }
    if unique_keys(es) {
        assert forall|i: int, j: int| 0 <= i < j < u.len() implies u[i].0 != u[j].0 by {
            if fk >= es.len() && j == es.len() {
                assert(es[i].0 != k);
            }
        }
    }
}

/// The index of the member named `k` in the members `es`, or `es.len()`.
fn find_entry(es: &Vec<(String, Json)>, k: &String) -> (r: usize)
    ensures
        r as int == find_key(entries_view(es@), k@),
{
    proof {
        lemma_entries_view(es@);
    }
    let mut i: usize = 0;
    while i < es.len()
        invariant
            i <= es.len(),
            entries_view(es@).len() == es.len(),
            forall|j: int|
                0 <= j < es.len() ==> #[trigger] entries_view(es@)[j] == (es@[j].0@, json_view(
                    es@[j].1,
                )),
            forall|j: int| 0 <= j < i ==> #[trigger] entries_view(es@)[j].0 != k@,
        decreases es.len() - i,
    {
        assert(entries_view(es@)[i as int].0 == es@[i as int].0@);
        if es[i].0 == *k {
            proof {
                lemma_find_key_is(entries_view(es@), k@, i as int);
            }
            return i;
        }
        i = i + 1;
    }
    proof {
        lemma_find_key_is(entries_view(es@), k@, i as int);
    }
    i
}

/// Merges one member `k: v` of a patch into the members `bs`.
fn merge_member_into(bs: &mut Vec<(String, Json)>, k: String, v: Json)
    ensures
        entries_view(final(bs)@) == merge_member(entries_view(old(bs)@), k@, v@),
    decreases v@, 1int,
{
    if let Json::Null = v {
        return;
    }
    proof {
        lemma_entries_view(bs@);
    }
    let i = find_entry(bs, &k);
    let ghost es = entries_view(bs@);
    let ghost old_bs = bs@;
    proof {
        lemma_find_key(es, k@);
    }
    if i < bs.len() {
        let (k0, old_v) = bs.remove(i);
        assert(es[i as int] == (k0@, old_v@));
        assert(old_v@ == lookup(es, k@));
        let nv = merge_values(old_v, v);
        bs.insert(i, (k0, nv));
        assert(bs@ =~= old_bs.update(i as int, (k0, nv)));
        proof {
            lemma_entries_view_update(old_bs, i as int, (k0, nv));
        }
        assert(entries_view(bs@) =~= upsert(es, k@, merged(lookup(es, k@), v@)));
    } else {
        let nv = merge_values(Json::Null, v);
        bs.push((k, nv));
        proof {
            lemma_entries_view_push(old_bs, (k, nv));
        }
        assert(entries_view(bs@) =~= upsert(es, k@, merged(lookup(es, k@), v@)));
    }
}

/// Merges the members of a patch object into the members `bs`, in order.
fn merge_entries(bs: Vec<(String, Json)>, ps: Vec<(String, Json)>) -> (r: Vec<(String, Json)>)
    ensures
        entries_view(r@) == merged_entries(entries_view(bs@), entries_view(ps@)),
    decreases entries_view(ps@), 0int,
{
    let mut out = bs;
    let mut rest = ps;
    let ghost all = entries_view(ps@);
    proof {
        lemma_entries_view(ps@);
    }
    let ghost n = rest.len();
    while rest.len() > 0
        invariant
            rest.len() <= n,
            all.len() == n,
            all == entries_view(ps@),
            entries_view(rest@) == all.subrange(n - rest.len(), n as int),
            merged_entries(entries_view(out@), entries_view(rest@)) == merged_entries(
                entries_view(bs@),
                all,
            ),
        decreases rest.len(),
    {
        proof {
            lemma_entries_view(rest@);
        }
        let ghost before = entries_view(rest@);
        let (k, v) = rest.remove(0);
        proof {
            lemma_entries_view(rest@);
            assert(entries_view(rest@) =~= before.subrange(1, before.len() as int));
            assert(before[0] == (k@, v@));
            assert(entries_view(rest@) =~= all.subrange(n - rest.len(), n as int));
            assert(all[n - rest.len() - 1] == (k@, v@));
            assert(decreases_to!(all => all[n - rest.len() - 1]));
            assert(decreases_to!(all[n - rest.len() - 1] => v@));
            assert(decreases_to!(all => v@));
        }
        merge_member_into(&mut out, k, v);
    }
    proof {
        lemma_entries_view(rest@);
    }
    out
}

/// `patch` merged into `base`, by value.
fn merge_values(base: Json, patch: Json) -> (r: Json)
    ensures
        r@ == merged(base@, patch@),
    decreases patch@, 0int,
{
    match patch {
        Json::Object(ps) => match base {
            Json::Object(bs) => Json::Object(merge_entries(bs, ps)),
            _ => {
                let empty: Vec<(String, Json)> = Vec::new();
                assert(entries_view(empty@) =~= Seq::<(Seq<char>, JsonView)>::empty());
                Json::Object(merge_entries(empty, ps))
            },
        },
        p => p,
    }
}

/// A new empty object.
fn empty_object_json() -> (r: Json)
    ensures
        r@ == empty_object(),
{
    let r = Json::Object(Vec::new());
    assert(r@ =~= empty_object());
    r
}

/// Merges `patch` into `base`: members of `patch` that are `null` are left
/// out at every depth, objects are merged member by member (into an empty
/// object where `base` holds no object), and any other value replaces what
/// `base` holds.
pub fn merge_json(base: &mut Json, patch: Json)
    ensures
        final(base)@ == merged(old(base)@, patch@),
{
    let mut b = Json::Null;
    std::mem::swap(&mut b, base);
    *base = merge_values(b, patch);
}

/// The text to write to the config file when a partial config (the JSON
/// text `patch_text`) is merged into it: the file's document (`existing` is
/// its text, `None` when there is no file or it cannot be read; text that
/// serde_json refuses counts as an empty object) with the partial config
/// merged in, pretty-printed. `None` when serde_json refuses the partial
/// config.
pub fn update_config_text(existing: Option<&str>, patch_text: &str) -> (r: Option<String>)
    ensures
        match json_text_value(patch_text@) {
            None => r is None,
            Some(p) => well_keyed(p) && (r matches Some(t) && t@ == json_pretty_text(
                merged(file_document(opt_text(existing)), p),
            )),
        },
{
    let patch = match parse_json(patch_text) {
        Some(p) => p,
        None => {
            return None;
        },
    };
    let mut current = match existing {
        Some(raw) => match parse_json(raw) {
            Some(v) => v,
            None => empty_object_json(),
        },
        None => empty_object_json(),
    };
    merge_json(&mut current, patch);
    Some(render_json_pretty(&current))
}

/// Sets `steam_input_profile_app_id` inside the `controller_emulation`
/// object of `doc`, as `with_selected_app_id` describes.
pub fn set_selected_app_id(doc: Json, app_id: u32) -> (r: Json)
    ensures
        r@ == with_selected_app_id(doc@, app_id),
{
    let mut root: Vec<(String, Json)> = match doc {
        Json::Object(es) => es,
        _ => Vec::new(),
    };
    proof {
        lemma_entries_view(root@);
    }
    let ghost root0 = entries_view(root@);
    let ghost old_root = root@;
    assert(root0 =~= match doc@ {
        JsonView::Object(es) => es,
        _ => Seq::empty(),
    });
    let ce_key = String::from_str("controller_emulation");
    let i = find_entry(&root, &ce_key);
    proof {
        lemma_find_key(root0, ce_key@);
    }
    let mut ce: Vec<(String, Json)> = Vec::new();
    let mut found_key: Option<String> = None;
    if i < root.len() {
        let (k0, v0) = root.remove(i);
        assert(root0[i as int] == (k0@, v0@));
        ce = match v0 {
            Json::Object(c) => c,
            _ => Vec::new(),
        };
        found_key = Some(k0);
    }
    proof {
        lemma_entries_view(ce@);
    }
    assert(entries_view(ce@) =~= match get_key(root0, "controller_emulation"@) {
        Some(JsonView::Object(c)) => c,
        _ => Seq::<(Seq<char>, JsonView)>::empty(),
    });
    let ghost ce0 = entries_view(ce@);
    let ghost old_ce = ce@;
    let id_key = String::from_str("steam_input_profile_app_id");
    let j = find_entry(&ce, &id_key);
    proof {
        lemma_find_key(ce0, id_key@);
    }
    let num = Json::Number(decimal_string(app_id as u64));
    if j < ce.len() {
        ce.remove(j);
        ce.insert(j, (id_key, num));
        assert(ce@ =~= old_ce.update(j as int, (id_key, num)));
        proof {
            lemma_entries_view_update(old_ce, j as int, (id_key, num));
        }
    } else {
        ce.push((id_key, num));
        proof {
            lemma_entries_view_push(old_ce, (id_key, num));
        }
    }
    let ghost new_ce = upsert(ce0, "steam_input_profile_app_id"@, JsonView::Number(decimal(app_id as nat)));
    assert(entries_view(ce@) =~= new_ce);
    let ce_val = Json::Object(ce);
    assert(ce_val@ == JsonView::Object(new_ce));
    match found_key {
        Some(k0) => {
            root.insert(i, (k0, ce_val));
            assert(root@ =~= old_root.update(i as int, (k0, ce_val)));
            proof {
                lemma_entries_view_update(old_root, i as int, (k0, ce_val));
            }
        },
        None => {
            root.push((ce_key, ce_val));
            proof {
                lemma_entries_view_push(old_root, (ce_key, ce_val));
            }
        },
    }
    assert(entries_view(root@) =~= upsert(root0, "controller_emulation"@, JsonView::Object(new_ce)));
    Json::Object(root)
}

/// The text to write to the config file when the selected Steam Input
/// profile is persisted: the file's document (`existing` is its text, `None`
/// when there is no file or it cannot be read) with the app id recorded,
/// pretty-printed.
pub fn selected_app_id_text(existing: Option<&str>, app_id: u32) -> (r: String)
    ensures
        r@ == json_pretty_text(with_selected_app_id(file_document(opt_text(existing)), app_id)),
{
    let doc = match existing {
        Some(raw) => match parse_json(raw) {
            Some(v) => v,
            None => empty_object_json(),
        },
        None => empty_object_json(),
    };
    let updated = set_selected_app_id(doc, app_id);
    render_json_pretty(&updated)
}

proof fn lemma_get_key_rest(ps: Entries, k: Seq<char>)
    requires
        ps.len() > 0,
        ps[0].0 != k,
    ensures
        get_key(ps, k) == get_key(ps.subrange(1, ps.len() as int), k),
{
    let rest = ps.subrange(1, ps.len() as int);
    lemma_find_key(rest, k);
}

proof fn lemma_unique_rest(ps: Entries)
    requires
        ps.len() > 0,
        unique_keys(ps),
    ensures
        unique_keys(ps.subrange(1, ps.len() as int)),
        get_key(ps.subrange(1, ps.len() as int), ps[0].0) is None,
{
    let rest = ps.subrange(1, ps.len() as int);
    lemma_find_key(rest, ps[0].0);
    let f = find_key(rest, ps[0].0);
    if f < rest.len() {
        assert(rest[f] == ps[f + 1]);
    }
    assert forall|i: int, j: int| 0 <= i < j < rest.len() implies rest[i].0 != rest[j].0 by {
        assert(rest[i] == ps[i + 1] && rest[j] == ps[j + 1]);
    }
}

proof fn lemma_merged_entries_get(bs: Entries, ps: Entries, k: Seq<char>)
    requires
        unique_keys(ps),
    ensures
        get_key(merged_entries(bs, ps), k) == if writes_key(ps, k) {
            Some(merged(lookup(bs, k), lookup(ps, k)))
        } else {
            get_key(bs, k)
        },
    decreases ps.len(),
{
    if ps.len() > 0 {
        let rest = ps.subrange(1, ps.len() as int);
        let (k0, v0) = ps[0];
        let bs1 = merge_member(bs, k0, v0);
        lemma_unique_rest(ps);
        lemma_merged_entries_get(bs1, rest, k);
        if !(v0 is Null) {
            lemma_upsert_get(bs, k0, merged(lookup(bs, k0), v0), k);
        }
        if k == k0 {
            assert(find_key(ps, k) == 0);
        } else {
            lemma_get_key_rest(ps, k);
        }
    }
}

/// Merging a partial config into the config file's document writes the
/// fields the partial config sets and leaves every other field as it was:
/// a member of the patch that is not `null` is merged into the document's
/// member of that name, and a member that is absent or `null` in the patch
/// keeps its value.
pub proof fn merge_writes_set_fields_and_keeps_others(bs: Entries, ps: Entries, k: Seq<char>)
    requires
        unique_keys(ps),
    ensures
        merged(JsonView::Object(bs), JsonView::Object(ps)) == JsonView::Object(merged_entries(bs, ps)),
        get_key(merged_entries(bs, ps), k) == if writes_key(ps, k) {
            Some(merged(lookup(bs, k), lookup(ps, k)))
        } else {
            get_key(bs, k)
        },
{
    lemma_merged_entries_get(bs, ps, k);
}

/// A value that is not an object replaces whatever it is merged into.
pub proof fn merge_with_non_object_replaces(base: JsonView, patch: JsonView)
    requires
        !(patch is Object),
    ensures
        merged(base, patch) == patch,
{
}

/// Persisting the selected Steam Input profile records it where the config
/// reader looks for it: `controller_emulation.steam_input_profile_app_id`
/// holds the app id as decimal text that reads back as the same id, and
/// every other top-level member of an object document keeps its value.
pub proof fn selected_app_id_reads_back(doc: JsonView, app_id: u32, q: Seq<char>)
    ensures
        with_selected_app_id(doc, app_id) matches JsonView::Object(root) && get_key(
            root,
            "controller_emulation"@,
        ) matches Some(JsonView::Object(ce)) && get_key(ce, "steam_input_profile_app_id"@)
            == Some(JsonView::Number(decimal(app_id as nat))),
        parse_unsigned(decimal(app_id as nat), u32::MAX as nat) == Some(app_id as nat),
        doc matches JsonView::Object(es) ==> (q != "controller_emulation"@ ==> (with_selected_app_id(
            doc,
            app_id,
        ) matches JsonView::Object(root) && get_key(root, q) == get_key(es, q))),
{
    let root = match doc {
        JsonView::Object(es) => es,
        _ => Seq::empty(),
    };
    let ce = match get_key(root, "controller_emulation"@) {
        Some(JsonView::Object(c)) => c,
        _ => Seq::empty(),
    };
    let num = JsonView::Number(decimal(app_id as nat));
    let new_ce = upsert(ce, "steam_input_profile_app_id"@, num);
    lemma_upsert_get(ce, "steam_input_profile_app_id"@, num, "steam_input_profile_app_id"@);
    lemma_upsert_get(root, "controller_emulation"@, JsonView::Object(new_ce), "controller_emulation"@);
    lemma_upsert_get(root, "controller_emulation"@, JsonView::Object(new_ce), q);
    crate::text::decimal_parses_back(app_id as nat, u32::MAX as nat);
}

/// The members of the document's `controller_emulation` object, when the
/// document is an object with such a member.
pub open spec fn profile_members(doc: JsonView) -> Option<Entries> {
    match doc {
        JsonView::Object(es) => match get_key(es, "controller_emulation"@) {
            Some(JsonView::Object(ce)) => Some(ce),
            _ => None,
        },
        _ => None,
    }
}

/// Recording the selected profile changes nothing else in an existing
/// `controller_emulation` object: every other member of it keeps its value,
/// so only the app id is replaced.
pub proof fn selected_app_id_keeps_other_profile_settings(doc: JsonView, app_id: u32, q: Seq<char>)
    ensures
        profile_members(with_selected_app_id(doc, app_id)) is Some,
        profile_members(doc) is Some && q != "steam_input_profile_app_id"@ ==> get_key(
            profile_members(with_selected_app_id(doc, app_id)).unwrap(),
            q,
        ) == get_key(profile_members(doc).unwrap(), q),
{
    let root = match doc {
        JsonView::Object(es) => es,
        _ => Seq::empty(),
    };
    let ce = match get_key(root, "controller_emulation"@) {
        Some(JsonView::Object(c)) => c,
        _ => Seq::empty(),
    };
    let num = JsonView::Number(decimal(app_id as nat));
    let new_ce = upsert(ce, "steam_input_profile_app_id"@, num);
    lemma_upsert_get(ce, "steam_input_profile_app_id"@, num, q);
    lemma_upsert_get(root, "controller_emulation"@, JsonView::Object(new_ce), "controller_emulation"@);
}

/// No object in `j`, outside arrays, has a member name twice, as in what a
/// JSON parser yields.
pub open spec fn well_keyed(j: JsonView) -> bool
    decreases j, 0int,
{
    match j {
        JsonView::Object(es) => unique_keys(es) && members_well_keyed(es),
        _ => true,
    }
}

/// Every member value of `es` is well keyed.
pub open spec fn members_well_keyed(es: Entries) -> bool
    decreases es, 1int,
{
    if es.len() == 0 {
        true
    } else {
        members_well_keyed(es.subrange(0, es.len() - 1)) && well_keyed(es[es.len() - 1].1)
    }
}

/// The values that the members of `ps` named `k` write, in order; `null`
/// members write nothing.
pub open spec fn written_values(ps: Entries, k: Seq<char>) -> Seq<JsonView>
    decreases ps.len(),
{
    if ps.len() == 0 {
        Seq::empty()
    } else {
        let rest = written_values(ps.subrange(1, ps.len() as int), k);
        if ps[0].0 == k && !(ps[0].1 is Null) {
            seq![ps[0].1] + rest
        } else {
            rest
        }
    }
}

/// `z` with each patch of `vs` merged in, in order.
pub open spec fn merged_all(z: JsonView, vs: Seq<JsonView>) -> JsonView
    decreases vs.len(),
{
    if vs.len() == 0 {
        z
    } else {
        merged_all(merged(z, vs[0]), vs.subrange(1, vs.len() as int))
    }
}

/// The members of an object, or none for any other value.
pub open spec fn object_members(z: JsonView) -> Entries {
    match z {
        JsonView::Object(es) => es,
        _ => Seq::empty(),
    }
}

/// The members of the objects `vs`, one object after the other.
pub open spec fn concat_members(vs: Seq<JsonView>) -> Entries
    decreases vs.len(),
{
    if vs.len() == 0 {
        Seq::empty()
    } else {
        object_members(vs[0]) + concat_members(vs.subrange(1, vs.len() as int))
    }
}

/// How many object nodes and members a value holds.
pub open spec fn object_size(j: JsonView) -> nat
    decreases j, 0int,
{
    match j {
        JsonView::Object(es) => 1 + members_size(es),
        _ => 1,
    }
}

pub open spec fn members_size(es: Entries) -> nat
    decreases es, 1int,
{
    if es.len() == 0 {
        0
    } else {
        1 + object_size(es[0].1) + members_size(es.subrange(1, es.len() as int))
    }
}

pub open spec fn values_size(vs: Seq<JsonView>) -> nat
    decreases vs.len(),
{
    if vs.len() == 0 {
        0
    } else {
        object_size(vs[0]) + values_size(vs.subrange(1, vs.len() as int))
    }
}

proof fn lemma_members_size_concat(a: Entries, b: Entries)
    ensures
        members_size(a + b) == members_size(a) + members_size(b),
    decreases a.len(),
{
    if a.len() > 0 {
        assert((a + b)[0] == a[0]);
        assert((a + b).subrange(1, (a + b).len() as int) =~= a.subrange(1, a.len() as int) + b);
        lemma_members_size_concat(a.subrange(1, a.len() as int), b);
    } else {
        assert(a + b =~= b);
    }
}

proof fn lemma_written_values_size(ps: Entries, k: Seq<char>)
    ensures
        values_size(written_values(ps, k)) + written_values(ps, k).len() <= members_size(ps),
    decreases ps.len(),
{
    if ps.len() > 0 {
        let rest = ps.subrange(1, ps.len() as int);
        lemma_written_values_size(rest, k);
        if ps[0].0 == k && !(ps[0].1 is Null) {
            let w = seq![ps[0].1] + written_values(rest, k);
            assert(w[0] == ps[0].1);
            assert(w.subrange(1, w.len() as int) =~= written_values(rest, k));
        }
    }
}

proof fn lemma_written_values_nonempty(ps: Entries, j: int)
    requires
        0 <= j < ps.len(),
        !(ps[j].1 is Null),
    ensures
        written_values(ps, ps[j].0).len() > 0,
    decreases ps.len(),
{
    if j > 0 {
        let rest = ps.subrange(1, ps.len() as int);
        assert(rest[j - 1] == ps[j]);
        lemma_written_values_nonempty(rest, j - 1);
    }
}

proof fn lemma_concat_members_size(vs: Seq<JsonView>)
    requires
        forall|i: int| 0 <= i < vs.len() ==> #[trigger] vs[i] is Object,
    ensures
        members_size(concat_members(vs)) + vs.len() == values_size(vs),
    decreases vs.len(),
{
    if vs.len() > 0 {
        let rest = vs.subrange(1, vs.len() as int);
        assert forall|i: int| 0 <= i < rest.len() implies #[trigger] rest[i] is Object by {
            assert(rest[i] == vs[i + 1]);
        }
        lemma_concat_members_size(rest);
        assert(vs[0] is Object);
        lemma_members_size_concat(object_members(vs[0]), concat_members(rest));
    }
}

proof fn lemma_merged_entries_concat(bs: Entries, a: Entries, b: Entries)
    ensures
        merged_entries(bs, a + b) == merged_entries(merged_entries(bs, a), b),
    decreases a.len(),
{
    if a.len() == 0 {
        assert(a + b =~= b);
    } else {
        assert((a + b)[0] == a[0]);
        assert((a + b).subrange(1, (a + b).len() as int) =~= a.subrange(1, a.len() as int) + b);
        lemma_merged_entries_concat(merge_member(bs, a[0].0, a[0].1), a.subrange(1, a.len() as int), b);
    }
}

/// Merging the objects `vs` one after the other merges their members, one
/// object after the other, into the members of `z`.
proof fn lemma_merged_all_objects(z: JsonView, vs: Seq<JsonView>)
    requires
        vs.len() > 0,
        forall|i: int| 0 <= i < vs.len() ==> #[trigger] vs[i] is Object,
    ensures
        merged_all(z, vs) == JsonView::Object(merged_entries(object_members(z), concat_members(vs))),
    decreases vs.len(),
{
    let rest = vs.subrange(1, vs.len() as int);
    assert(vs[0] is Object);
    let first = merged(z, vs[0]);
    assert(first == JsonView::Object(merged_entries(object_members(z), object_members(vs[0]))));
    assert(merged_all(z, vs) == merged_all(first, rest));
    assert(concat_members(vs) == object_members(vs[0]) + concat_members(rest));
    if rest.len() == 0 {
        assert(concat_members(rest) =~= Seq::<(Seq<char>, JsonView)>::empty());
        assert(concat_members(vs) =~= object_members(vs[0]));
    } else {
        assert forall|i: int| 0 <= i < rest.len() implies #[trigger] rest[i] is Object by {
            assert(rest[i] == vs[i + 1]);
        }
        lemma_merged_all_objects(first, rest);
        lemma_merged_entries_concat(object_members(z), object_members(vs[0]), concat_members(rest));
    }
}

/// After a patch that is not an object, the earlier ones no longer count.
proof fn lemma_merged_all_from(z: JsonView, vs: Seq<JsonView>, j: int)
    requires
        0 <= j < vs.len(),
        !(vs[j] is Object),
    ensures
        merged_all(z, vs) == merged_all(vs[j], vs.subrange(j + 1, vs.len() as int)),
    decreases vs.len(),
{
    let rest = vs.subrange(1, vs.len() as int);
    if j > 0 {
        assert(rest[j - 1] == vs[j]);
        lemma_merged_all_from(merged(z, vs[0]), rest, j - 1);
        assert(rest.subrange(j, rest.len() as int) =~= vs.subrange(j + 1, vs.len() as int));
    }
}

/// What merging the members `ps` leaves under name `k`: the values they
/// write there merged, in order, into what was there.
proof fn lemma_merged_entries_written(bs: Entries, ps: Entries, k: Seq<char>)
    ensures
        get_key(merged_entries(bs, ps), k) == if written_values(ps, k).len() > 0 {
            Some(merged_all(lookup(bs, k), written_values(ps, k)))
        } else {
            get_key(bs, k)
        },
    decreases ps.len(),
{
    if ps.len() > 0 {
        let rest = ps.subrange(1, ps.len() as int);
        let (k0, v0) = ps[0];
        let bs1 = merge_member(bs, k0, v0);
        lemma_merged_entries_written(bs1, rest, k);
        if !(v0 is Null) {
            lemma_upsert_get(bs, k0, merged(lookup(bs, k0), v0), k);
        }
        if k0 == k && !(v0 is Null) {
            let w = seq![v0] + written_values(rest, k);
            assert(w[0] == v0);
            assert(w.subrange(1, w.len() as int) =~= written_values(rest, k));
        }
    }
}

/// Two member lists with the same names at each place find each name at
/// the same place.
proof fn lemma_same_names_find(x: Entries, y: Entries, q: Seq<char>)
    requires
        x.len() == y.len(),
        forall|i: int| 0 <= i < x.len() ==> #[trigger] x[i].0 == y[i].0,
    ensures
        find_key(x, q) == find_key(y, q),
{
    lemma_find_key(x, q);
    let f = find_key(x, q);
    assert forall|j: int| 0 <= j < f implies #[trigger] y[j].0 != q by {
        assert(x[j].0 == y[j].0);
    }
    if f < x.len() {
        assert(x[f].0 == y[f].0);
    }
    lemma_find_key_is(y, q, f);
}

/// Merging members whose names are all there already changes values in
/// place: the names stay at their places, and only the first member of each
/// name can change.
proof fn lemma_merged_entries_in_place(x: Entries, ps: Entries)
    requires
        forall|j: int| 0 <= j < ps.len() && !(ps[j].1 is Null) ==> find_key(x, #[trigger] ps[j].0) < x.len(),
    ensures
        merged_entries(x, ps).len() == x.len(),
        forall|i: int| 0 <= i < x.len() ==> #[trigger] merged_entries(x, ps)[i].0 == x[i].0,
        forall|i: int|
            0 <= i < x.len() && i != find_key(x, x[i].0) ==> #[trigger] merged_entries(x, ps)[i] == x[i],
    decreases ps.len(),
{
    if ps.len() > 0 {
        let rest = ps.subrange(1, ps.len() as int);
        let (k0, v0) = ps[0];
        let x1 = merge_member(x, k0, v0);
        if !(v0 is Null) {
            lemma_find_key(x, k0);
            let f = find_key(x, k0);
            assert(x1 == x.update(f, (k0, merged(lookup(x, k0), v0))));
            assert(x1[f].0 == x[f].0);
        }
        assert(x1.len() == x.len());
        assert forall|i: int| 0 <= i < x.len() implies #[trigger] x1[i].0 == x[i].0 by {}
        assert forall|i: int|
            0 <= i < x.len() && i != find_key(x, x[i].0) implies #[trigger] x1[i] == x[i] by {
            if !(v0 is Null) {
                lemma_find_key(x, k0);
            }
        }
        assert forall|j: int| 0 <= j < rest.len() && !(rest[j].1 is Null) implies find_key(
            x1,
            #[trigger] rest[j].0,
        ) < x1.len() by {
            assert(rest[j] == ps[j + 1]);
            lemma_same_names_find(x, x1, rest[j].0);
        }
        lemma_merged_entries_in_place(x1, rest);
        let r = merged_entries(x, ps);
        assert(r == merged_entries(x1, rest));
        assert forall|i: int| 0 <= i < x.len() && i != find_key(x, x[i].0) implies #[trigger] r[i] == x[i] by {
            lemma_same_names_find(x, x1, x[i].0);
            assert(x1[i].0 == x[i].0);
        }
    }
}

/// Merging the same members twice gives what merging them once gives.
proof fn lemma_merged_entries_again(bs: Entries, ps: Entries)
    ensures
        merged_entries(merged_entries(bs, ps), ps) == merged_entries(bs, ps),
    decreases 2 * members_size(ps) + 1,
{
    let x = merged_entries(bs, ps);
    let y = merged_entries(x, ps);
    assert forall|j: int| 0 <= j < ps.len() && !(ps[j].1 is Null) implies find_key(x, #[trigger] ps[j].0) < x.len() by {
        lemma_written_values_nonempty(ps, j);
        lemma_merged_entries_written(bs, ps, ps[j].0);
        lemma_find_key(x, ps[j].0);
    }
    lemma_merged_entries_in_place(x, ps);
    assert forall|i: int| 0 <= i < x.len() implies #[trigger] y[i] == x[i] by {
        let k = x[i].0;
        lemma_find_key(x, k);
        if i == find_key(x, k) {
            let vs = written_values(ps, k);
            lemma_merged_entries_written(bs, ps, k);
            lemma_merged_entries_written(x, ps, k);
            lemma_written_values_size(ps, k);
            lemma_merged_all_again(lookup(bs, k), vs);
            lemma_same_names_find(x, y, k);
            lemma_find_key(y, k);
            assert(y[i].0 == x[i].0);
        }
    }
    assert(y =~= x);
}

/// Merging the same patches twice, in order, gives what merging them once
/// gives.
proof fn lemma_merged_all_again(z: JsonView, vs: Seq<JsonView>)
    ensures
        merged_all(merged_all(z, vs), vs) == merged_all(z, vs),
    decreases 2 * values_size(vs),
{
    if exists|j: int| 0 <= j < vs.len() && !(#[trigger] vs[j] is Object) {
        let j = choose|j: int| 0 <= j < vs.len() && !(#[trigger] vs[j] is Object);
        lemma_merged_all_from(z, vs, j);
        lemma_merged_all_from(merged_all(z, vs), vs, j);
    } else if vs.len() > 0 {
        let w = merged_all(z, vs);
        lemma_merged_all_objects(z, vs);
        lemma_merged_all_objects(w, vs);
        lemma_concat_members_size(vs);
        lemma_merged_entries_again(object_members(z), concat_members(vs));
    }
}

/// Applying the same partial config twice gives the same document as
/// applying it once: merging is idempotent.
pub proof fn merge_is_idempotent(base: JsonView, patch: JsonView)
    ensures
        merged(merged(base, patch), patch) == merged(base, patch),
{
    if let JsonView::Object(ps) = patch {
        lemma_merged_entries_again(object_members(base), ps);
    }
}

/// No object in `j` has a member whose value is `null`.
pub open spec fn null_free(j: JsonView) -> bool
    decreases j, 0int,
{
    match j {
        JsonView::Object(es) => members_null_free(es),
        _ => true,
    }
}

/// No member of `es` is `null`, and each member value is null free.
pub open spec fn members_null_free(es: Entries) -> bool
    decreases es, 1int,
{
    if es.len() == 0 {
        true
    } else {
        members_null_free(es.subrange(0, es.len() - 1)) && !(es[es.len() - 1].1 is Null) && null_free(
            es[es.len() - 1].1,
        )
    }
}

proof fn lemma_members_null_free(es: Entries)
    ensures
        members_null_free(es) <==> forall|j: int|
            #![trigger es[j]]
            0 <= j < es.len() ==> !(es[j].1 is Null) && null_free(es[j].1),
    decreases es.len(),
{
    if es.len() > 0 {
        let init = es.subrange(0, es.len() - 1);
        lemma_members_null_free(init);
        assert(members_null_free(es) == (members_null_free(init) && !(es[es.len() - 1].1 is Null)
            && null_free(es[es.len() - 1].1)));
        if members_null_free(es) {
            assert forall|j: int| #![trigger es[j]] 0 <= j < es.len() implies !(es[j].1 is Null) && null_free(
                es[j].1,
            ) by {
                if j < es.len() - 1 {
                    assert(init[j] == es[j]);
                }
            }
        }
        if forall|j: int| #![trigger es[j]] 0 <= j < es.len() ==> !(es[j].1 is Null) && null_free(es[j].1) {
            assert forall|j: int| #![trigger init[j]] 0 <= j < init.len() implies !(init[j].1 is Null) && null_free(
                init[j].1,
            ) by {
                assert(init[j] == es[j]);
                assert(null_free(es[j].1));
            }
        }
    }
}

proof fn lemma_merged_null_free(base: JsonView, patch: JsonView)
    requires
        null_free(base),
    ensures
        null_free(merged(base, patch)),
    decreases patch, 0int,
{
    if let JsonView::Object(ps) = patch {
        let bs = match base {
            JsonView::Object(bs) => bs,
            _ => Seq::empty(),
        };
        lemma_members_null_free(bs);
        lemma_merged_entries_null_free(bs, ps);
    }
}

proof fn lemma_merged_entries_null_free(bs: Entries, ps: Entries)
    requires
        members_null_free(bs),
    ensures
        members_null_free(merged_entries(bs, ps)),
    decreases ps, 1int,
{
    if ps.len() > 0 {
        let (k, v) = ps[0];
        let rest = ps.subrange(1, ps.len() as int);
        if !(v is Null) {
            lemma_members_null_free(bs);
            lemma_find_key(bs, k);
            let old = lookup(bs, k);
            assert(null_free(old)) by {
                if find_key(bs, k) < bs.len() {
                    assert(bs[find_key(bs, k)] == bs[find_key(bs, k)]);
                }
            }
            lemma_merged_null_free(old, v);
            let m = merged(old, v);
            assert(!(m is Null));
            let u = upsert(bs, k, m);
            assert forall|j: int| #![trigger u[j]] 0 <= j < u.len() implies !(u[j].1 is Null) && null_free(u[j].1) by {
                if find_key(bs, k) < bs.len() {
                    if j != find_key(bs, k) {
                        assert(u[j] == bs[j]);
                    }
                } else if j < bs.len() {
                    assert(u[j] == bs[j]);
                }
            }
            lemma_members_null_free(u);
        }
        lemma_merged_entries_null_free(merge_member(bs, k, v), rest);
    }
}

/// A merge never writes `null`: merging any patch into a document whose
/// objects have no `null` members gives such a document again (a partial
/// config writes only the fields it sets).
pub proof fn merge_writes_no_nulls(base: JsonView, patch: JsonView)
    requires
        null_free(base),
    ensures
        null_free(merged(base, patch)),
{
    lemma_merged_null_free(base, patch);
}

} // verus!
