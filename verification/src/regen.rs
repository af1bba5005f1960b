//! Regeneration of the field catalog from Python field-definition sources:
//! the parsing of their field, default-list and enum declarations, the
//! default-column choice, and the generated Rust constant modules.
//!
//! The declarations are matched with `regex`; what the matches mean is
//! decided here.
use vstd::prelude::*;
use crate::field::FieldDef;
use crate::json::{
    JsonV, JsonValue, entries_view as json_entries_view, first_key, json_clone, lemma_array_view,
    lemma_object_view,
};
use crate::sort::{lemma_lt_irrefl, lemma_lt_trans, lemma_lt_trichotomy, seq_lt, str_lt};
use crate::text::{
    cat, cat3, chars_of, contains_seq, find_char, find_chars, first_occurrence, first_pos, own,
    push_char, str_eq, string_of_range, to_upper, upper_seq,
};
use crate::format::{join_spec, join_strings};
use crate::screener::get_member;

verus! {

/// The capture groups of every match of `pattern` in `text`, in match order
/// (`Regex::captures_iter`; in each, group 0 is the whole match and a group
/// that did not participate is absent).
pub uninterp spec fn regex_captures(pattern: Seq<char>, text: Seq<char>) -> Seq<Seq<Option<Seq<char>>>>;

/// Whether `pattern` compiles (`Regex::new` succeeds).
pub uninterp spec fn regex_compiles(pattern: Seq<char>) -> bool;

/// The view of an optional string.
pub open spec fn opt_text(o: Option<String>) -> Option<Seq<char>> {
    match o {
        Some(s) => Some(s@),
        None => None,
    }
}

/// The view of captured groups.
pub open spec fn caps_view(c: Seq<Vec<Option<String>>>) -> Seq<Seq<Option<Seq<char>>>> {
    c.map_values(|g: Vec<Option<String>>| g@.map_values(|o: Option<String>| opt_text(o)))
}

/// Compiles `pattern` and lists the capture groups of every match in `text`.
///
/// Calls `Regex::new` and `Regex::captures_iter`. The contract claims that
/// the result is present exactly when the pattern compiles (the named
/// [`regex_compiles`]), and that the groups are the named result
/// [`regex_captures`].
#[verifier::external_body]
fn captures_all(pattern: &str, text: &str) -> (r: Option<Vec<Vec<Option<String>>>>)
    ensures
        r is Some <==> regex_compiles(pattern@),
        r matches Some(c) ==> caps_view(c@) == regex_captures(pattern@, text@),
{
    let re = regex::Regex::new(pattern).ok()?;
    Some(
        re.captures_iter(text).map(
            |c| c.iter().map(|m| m.map(|m| m.as_str().to_string())).collect(),
        ).collect(),
    )
}

/// Group `i` of a match, absent when the match has no such group.
pub open spec fn group(c: Seq<Option<Seq<char>>>, i: int) -> Option<Seq<char>> {
    if 0 <= i < c.len() {
        c[i]
    } else {
        None
    }
}

/// Group `i` of a match, or group `j` when `i` is absent.
pub open spec fn group_or(c: Seq<Option<Seq<char>>>, i: int, j: int) -> Option<Seq<char>> {
    match group(c, i) {
        Some(x) => Some(x),
        None => group(c, j),
    }
}

/// The text of a group, empty when absent.
pub open spec fn text_of(o: Option<Seq<char>>) -> Seq<char> {
    match o {
        Some(x) => x,
        None => Seq::empty(),
    }
}

/// Group `i` of a match.
fn get_group(c: &Vec<Option<String>>, i: usize) -> (r: Option<String>)
    ensures
        opt_text(r) == group(c@.map_values(|o: Option<String>| opt_text(o)), i as int),
{
    if i < c.len() {
        match &c[i] {
            Some(s) => Some(s.clone()),
            None => None,
        }
    } else {
        None
    }
}

/// Group `i`, or group `j` when `i` is absent.
fn get_group_or(c: &Vec<Option<String>>, i: usize, j: usize) -> (r: Option<String>)
    ensures
        opt_text(r) == group_or(c@.map_values(|o: Option<String>| opt_text(o)), i as int, j as int),
{
    match get_group(c, i) {
        Some(s) => Some(s),
        None => get_group(c, j),
    }
}

/// The text of an optional group, empty when absent.
fn text_or_empty(o: Option<String>) -> (r: String)
    ensures
        r@ == text_of(opt_text(o)),
{
    match o {
        Some(s) => s,
        None => String::new(),
    }
}

/// A field declaration, as the contracts see it.
pub struct EntryV {
    pub label: Seq<char>,
    pub field_name: Seq<char>,
    pub format: Option<Seq<char>>,
    pub interval: bool,
    pub historical: bool,
}

/// The view of a field definition.
pub open spec fn entry_view(f: FieldDef) -> EntryV {
    EntryV {
        label: f.label@,
        field_name: f.field_name@,
        format: opt_text(f.format),
        interval: f.interval,
        historical: f.historical,
    }
}

/// The views of named field definitions.
pub open spec fn entries_view(m: Seq<(String, FieldDef)>) -> Seq<(Seq<char>, EntryV)> {
    m.map_values(|p: (String, FieldDef)| (p.0@, entry_view(p.1)))
}

/// The field a field-declaration match declares: name (group 1), label
/// (group 2 or 3), technical name (group 4 or 5), format (group 6 or 7,
/// unless `None`), and the interval / historical flags (groups 8 and 9,
/// when `True`).
pub open spec fn field_of_caps(c: Seq<Option<Seq<char>>>) -> (Seq<char>, EntryV) {
    (
        text_of(group(c, 1)),
        EntryV {
            label: text_of(group_or(c, 2, 3)),
            field_name: text_of(group_or(c, 4, 5)),
            format: match group_or(c, 6, 7) {
                Some(f) => if f == "None"@ {
                    None
                } else {
                    Some(f)
                },
                None => None,
            },
            interval: group(c, 8) == Some("True"@),
            historical: group(c, 9) == Some("True"@),
        },
    )
}

/// Inserting into a map kept as entries sorted by key: a present key gets
/// the new value, a new key goes in key order.
pub open spec fn sorted_insert<V>(m: Seq<(Seq<char>, V)>, k: Seq<char>, v: V) -> Seq<(Seq<char>, V)>
    decreases m.len(),
{
    if m.len() == 0 {
        seq![(k, v)]
    } else if m[0].0 == k {
        seq![(k, v)] + m.drop_first()
    } else if seq_lt(k, m[0].0) {
        seq![(k, v)] + m
    } else {
        seq![m[0]] + sorted_insert(m.drop_first(), k, v)
    }
}

/// The field map of declaration matches: each declared name with the last
/// field declared under it, in key order (a `BTreeMap`'s iteration order).
pub open spec fn fields_of_caps(caps: Seq<Seq<Option<Seq<char>>>>) -> Seq<(Seq<char>, EntryV)>
    decreases caps.len(),
{
    if caps.len() == 0 {
        Seq::empty()
    } else {
        let (k, v) = field_of_caps(caps.last());
        sorted_insert(fields_of_caps(caps.drop_last()), k, v)
    }
}

/// Whether the keys of entries are strictly increasing.
pub open spec fn keys_increasing<V>(m: Seq<(Seq<char>, V)>) -> bool {
    forall|i: int, j: int| 0 <= i < j < m.len() ==> seq_lt(#[trigger] m[i].0, #[trigger] m[j].0)
}

/// Inserting at the position of the first key not below `k` is [`sorted_insert`].
proof fn lemma_sorted_insert_at<V>(m: Seq<(Seq<char>, V)>, k: Seq<char>, v: V, p: int)
    requires
        keys_increasing(m),
        0 <= p <= m.len(),
        forall|i: int| 0 <= i < p ==> seq_lt(#[trigger] m[i].0, k),
        p < m.len() ==> !seq_lt(m[p].0, k),
    ensures
        sorted_insert(m, k, v) == if p < m.len() && m[p].0 == k {
            m.update(p, (k, v))
        } else {
            m.insert(p, (k, v))
        },
    decreases p,
{
    if p == 0 {
        if m.len() > 0 {
            if m[0].0 != k {
                lemma_lt_trichotomy(k, m[0].0);
                assert(seq_lt(k, m[0].0));
                assert(seq![(k, v)] + m =~= m.insert(0, (k, v)));
            } else {
                assert(seq![(k, v)] + m.drop_first() =~= m.update(0, (k, v)));
            }
        } else {
            assert(seq![(k, v)] =~= m.insert(0, (k, v)));
        }
    } else {
        let t = m.drop_first();
        assert(seq_lt(m[0].0, k));
        lemma_lt_irrefl(k);
        assert(m[0].0 != k);
        lemma_lt_no_cycle(m[0].0, k);
        assert forall|i: int, j: int| 0 <= i < j < t.len() implies seq_lt(#[trigger] t[i].0, #[trigger] t[j].0) by {
            assert(t[i] == m[i + 1] && t[j] == m[j + 1]);
        }
        assert forall|i: int| 0 <= i < p - 1 implies seq_lt(#[trigger] t[i].0, k) by {
            assert(t[i] == m[i + 1]);
        }
        lemma_sorted_insert_at(t, k, v, p - 1);
        if p < m.len() && m[p].0 == k {
            assert(seq![m[0]] + t.update(p - 1, (k, v)) =~= m.update(p, (k, v)));
        } else {
            assert(seq![m[0]] + t.insert(p - 1, (k, v)) =~= m.insert(p, (k, v)));
        }
    }
}

/// `a < b` and `b < a` never hold together.
proof fn lemma_lt_no_cycle(a: Seq<char>, b: Seq<char>)
    ensures
        !(seq_lt(a, b) && seq_lt(b, a)),
{
    if seq_lt(a, b) && seq_lt(b, a) {
        lemma_lt_trans(a, b, a);
        lemma_lt_irrefl(a);
    }
}

/// Inserting keeps the keys strictly increasing.
pub proof fn lemma_sorted_insert_increasing<V>(m: Seq<(Seq<char>, V)>, k: Seq<char>, v: V)
    requires
        keys_increasing(m),
    ensures
        keys_increasing(sorted_insert(m, k, v)),
    decreases m.len(),
{
    if m.len() > 0 && m[0].0 != k && !seq_lt(k, m[0].0) {
        let t = m.drop_first();
        assert forall|i: int, j: int| 0 <= i < j < t.len() implies seq_lt(#[trigger] t[i].0, #[trigger] t[j].0) by {
            assert(t[i] == m[i + 1] && t[j] == m[j + 1]);
        }
        lemma_sorted_insert_increasing(t, k, v);
        lemma_lt_trichotomy(k, m[0].0);
        let r = sorted_insert(t, k, v);
        lemma_sorted_insert_keys(t, k, v);
        assert forall|i: int, j: int| 0 <= i < j < (seq![m[0]] + r).len() implies seq_lt(
            #[trigger] (seq![m[0]] + r)[i].0,
            #[trigger] (seq![m[0]] + r)[j].0,
        ) by {
            if i == 0 {
                let x = r[j - 1].0;
                if x != k {
                    let q = choose|q: int| 0 <= q < t.len() && t[q].0 == x;
                    assert(t[q] == m[q + 1]);
                }
            } else {
                assert((seq![m[0]] + r)[i] == r[i - 1]);
                assert((seq![m[0]] + r)[j] == r[j - 1]);
            }
        }
    } else if m.len() > 0 && m[0].0 == k {
        let r = seq![(k, v)] + m.drop_first();
        assert forall|i: int, j: int| 0 <= i < j < r.len() implies seq_lt(#[trigger] r[i].0, #[trigger] r[j].0) by {
            assert(r[j] == m[j]);
            if i > 0 {
                assert(r[i] == m[i]);
            }
        }
    } else if m.len() > 0 {
        let r = seq![(k, v)] + m;
        assert forall|i: int, j: int| 0 <= i < j < r.len() implies seq_lt(#[trigger] r[i].0, #[trigger] r[j].0) by {
            assert(r[j] == m[j - 1]);
            if i > 0 {
                assert(r[i] == m[i - 1]);
            } else if j > 1 {
                lemma_lt_trans(k, m[0].0, m[j - 1].0);
            }
        }
    }
}

/// The keys after inserting are the old keys and `k`.
proof fn lemma_sorted_insert_keys<V>(m: Seq<(Seq<char>, V)>, k: Seq<char>, v: V)
    ensures
        forall|i: int|
            0 <= i < sorted_insert(m, k, v).len() ==> (#[trigger] sorted_insert(m, k, v)[i].0 == k
                || exists|q: int| 0 <= q < m.len() && m[q].0 == sorted_insert(m, k, v)[i].0),
    decreases m.len(),
{
    let r = sorted_insert(m, k, v);
    if m.len() == 0 {
    } else if m[0].0 == k {
        assert forall|i: int| 0 <= i < r.len() implies (#[trigger] r[i].0 == k || exists|q: int|
            0 <= q < m.len() && m[q].0 == r[i].0) by {
            if i > 0 {
                assert(r[i] == m[i]);
            }
        }
    } else if seq_lt(k, m[0].0) {
        assert forall|i: int| 0 <= i < r.len() implies (#[trigger] r[i].0 == k || exists|q: int|
            0 <= q < m.len() && m[q].0 == r[i].0) by {
            if i > 0 {
                assert(r[i] == m[i - 1]);
            }
        }
    } else {
        let t = m.drop_first();
        lemma_sorted_insert_keys(t, k, v);
        let rt = sorted_insert(t, k, v);
        assert forall|i: int| 0 <= i < r.len() implies (#[trigger] r[i].0 == k || exists|q: int|
            0 <= q < m.len() && m[q].0 == r[i].0) by {
            if i == 0 {
                assert(m[0].0 == r[0].0);
            } else {
                assert(r[i] == rt[i - 1]);
                if rt[i - 1].0 != k {
                    let q = choose|q: int| 0 <= q < t.len() && t[q].0 == rt[i - 1].0;
                    assert(m[q + 1] == t[q]);
                }
            }
        }
    }
}

/// The field map of declaration matches has strictly increasing keys.
pub proof fn lemma_fields_of_caps_increasing(caps: Seq<Seq<Option<Seq<char>>>>)
    ensures
        keys_increasing(fields_of_caps(caps)),
    decreases caps.len(),
{
    if caps.len() > 0 {
        lemma_fields_of_caps_increasing(caps.drop_last());
        let (k, v) = field_of_caps(caps.last());
        lemma_sorted_insert_increasing(fields_of_caps(caps.drop_last()), k, v);
    }
}

/// Inserts into a map kept as entries sorted by key.
fn map_insert(m: &mut Vec<(String, FieldDef)>, k: String, v: FieldDef)
    requires
        keys_increasing(entries_view(old(m)@)),
    ensures
        entries_view(final(m)@) == sorted_insert(entries_view(old(m)@), k@, entry_view(v)),
        keys_increasing(entries_view(final(m)@)),
{
    let ghost mv = entries_view(m@);
    let mut p: usize = 0;
    while p < m.len() && str_lt(m[p].0.as_str(), k.as_str())
        invariant
            mv == entries_view(m@),
            p <= m.len(),
            forall|i: int| 0 <= i < p ==> seq_lt(#[trigger] mv[i].0, k@),
        decreases m.len() - p,
    {
        p = p + 1;
    }
    proof {
        lemma_sorted_insert_at(mv, k@, entry_view(v), p as int);
        lemma_sorted_insert_increasing(mv, k@, entry_view(v));
    }
    let ghost kv = (k@, entry_view(v));
    if p < m.len() && str_eq(m[p].0.as_str(), k.as_str()) {
        m.set(p, (k, v));
        assert(entries_view(m@) =~= mv.update(p as int, kv));
    } else {
        m.insert(p, (k, v));
        assert(entries_view(m@) =~= mv.insert(p as int, kv));
    }
}

/// The field-declaration pattern of the Python field modules.
pub open spec fn field_line_pattern() -> Seq<char> {
    "(?m)^\\s+([A-Z][A-Z0-9_]*)\\s*=\\s*(?:'([^']*)'|\"([^\"]*)\")\\s*,\\s*(?:'([^']*)'|\"([^\"]*)\")(?:\\s*,\\s*(?:'([^']*)'|\"([^\"]*)\"|None))?(?:\\s*,\\s*(True|False))?(?:\\s*,\\s*(True|False))?"@
}

/// The field map of declaration matches.
pub fn fields_from_captures(caps: &Vec<Vec<Option<String>>>) -> (r: Vec<(String, FieldDef)>)
    ensures
        entries_view(r@) == fields_of_caps(caps_view(caps@)),
{
    let ghost cv = caps_view(caps@);
    let mut out: Vec<(String, FieldDef)> = Vec::new();
    let mut i: usize = 0;
    assert(cv.take(0) =~= Seq::<Seq<Option<Seq<char>>>>::empty());
    assert(entries_view(out@) =~= Seq::<(Seq<char>, EntryV)>::empty());
    while i < caps.len()
        invariant
            cv == caps_view(caps@),
            i <= caps.len(),
            entries_view(out@) == fields_of_caps(cv.take(i as int)),
            keys_increasing(entries_view(out@)),
        decreases caps.len() - i,
    {
        let c = &caps[i];
        assert(cv.take(i + 1).drop_last() =~= cv.take(i as int));
        assert(cv.take(i + 1).last() == cv[i as int]);
        assert(cv[i as int] == c@.map_values(|o: Option<String>| opt_text(o)));
        let name = text_or_empty(get_group(c, 1));
        let label = text_or_empty(get_group_or(c, 2, 3));
        let field_name = text_or_empty(get_group_or(c, 4, 5));
        let format = match get_group_or(c, 6, 7) {
            Some(f) => if str_eq(f.as_str(), "None") {
                None
            } else {
                Some(f)
            },
            None => None,
        };
        let interval = match get_group(c, 8) {
            Some(t) => str_eq(t.as_str(), "True"),
            None => false,
        };
        let historical = match get_group(c, 9) {
            Some(t) => str_eq(t.as_str(), "True"),
            None => false,
        };
        let def = FieldDef { label, field_name, format, interval, historical };
        assert((name@, entry_view(def)) == field_of_caps(cv[i as int]));
        map_insert(&mut out, name, def);
        i = i + 1;
    }
    assert(cv.take(caps@.len() as int) =~= cv);
    out
}

/// Parses the field declarations of a Python field module into the field
/// map (each name with its last declaration, in name order).
///
/// Nothing is parsed when the declaration pattern does not compile.
pub fn parse_fields(text: &str) -> (r: Vec<(String, FieldDef)>)
    ensures
        entries_view(r@) == if regex_compiles(field_line_pattern()) {
            fields_of_caps(regex_captures(field_line_pattern(), text@))
        } else {
            Seq::empty()
        },
{
    let pattern = "(?m)^\\s+([A-Z][A-Z0-9_]*)\\s*=\\s*(?:'([^']*)'|\"([^\"]*)\")\\s*,\\s*(?:'([^']*)'|\"([^\"]*)\")(?:\\s*,\\s*(?:'([^']*)'|\"([^\"]*)\"|None))?(?:\\s*,\\s*(True|False))?(?:\\s*,\\s*(True|False))?";
    assert(pattern@ == field_line_pattern());
    match captures_all(pattern, text) {
        Some(caps) => fields_from_captures(&caps),
        None => {
            let v: Vec<(String, FieldDef)> = Vec::new();
            assert(entries_view(v@) =~= Seq::<(Seq<char>, EntryV)>::empty());
            v
        },
    }
}

/// The Python field class of an asset segment.
pub open spec fn class_of_asset(a: Seq<char>) -> Option<Seq<char>> {
    if a == "crypto"@ {
        Some("CryptoField"@)
    } else if a == "stock"@ {
        Some("StockField"@)
    } else if a == "forex"@ {
        Some("ForexField"@)
    } else if a == "bond"@ {
        Some("BondField"@)
    } else if a == "futures"@ {
        Some("FuturesField"@)
    } else if a == "coin"@ {
        Some("CoinField"@)
    } else {
        None
    }
}

/// The pattern of a default-column list declaration (`DEFAULT_<ASSET>_FIELDS = [...]`).
pub open spec fn default_list_pattern() -> Seq<char> {
    "(?s)DEFAULT_([A-Z]+)_FIELDS\\s*=\\s*\\[(.*?)\\]"@
}

/// The pattern of a class member reference (`<Class>.<NAME>`).
pub open spec fn member_pattern(class: Seq<char>) -> Seq<char> {
    class + "\\.([A-Z][A-Z0-9_]*)"@
}

/// The body (group 2) of the first match whose group 1 is `key`.
pub open spec fn first_body(caps: Seq<Seq<Option<Seq<char>>>>, key: Seq<char>) -> Option<Seq<char>>
    decreases caps.len(),
{
    if caps.len() == 0 {
        None
    } else if group(caps[0], 1) == Some(key) {
        Some(text_of(group(caps[0], 2)))
    } else {
        first_body(caps.drop_first(), key)
    }
}

/// Group 1 of each match that has one, in order.
pub open spec fn group1_values(caps: Seq<Seq<Option<Seq<char>>>>) -> Seq<Seq<char>>
    decreases caps.len(),
{
    if caps.len() == 0 {
        Seq::empty()
    } else {
        let p = group1_values(caps.drop_last());
        match group(caps.last(), 1) {
            Some(x) => p.push(x),
            None => p,
        }
    }
}

/// The default columns a Python field module declares for an asset: the
/// members of the asset's field class listed in its `DEFAULT_<ASSET>_FIELDS`.
pub open spec fn parse_defaults_spec(text: Seq<char>, asset: Seq<char>) -> Seq<Seq<char>> {
    match class_of_asset(asset) {
        None => Seq::empty(),
        Some(cls) => if !regex_compiles(default_list_pattern()) {
            Seq::empty()
        } else {
            match first_body(regex_captures(default_list_pattern(), text), upper_seq(asset)) {
                None => Seq::empty(),
                Some(body) => if regex_compiles(member_pattern(cls)) {
                    group1_values(regex_captures(member_pattern(cls), body))
                } else {
                    Seq::empty()
                },
            }
        },
    }
}

/// The views of a list of strings.
pub open spec fn texts(v: Seq<String>) -> Seq<Seq<char>> {
    v.map_values(|s: String| s@)
}

/// Group 1 of each match that has one (the member names of a default list).
pub fn group1_of(caps: &Vec<Vec<Option<String>>>) -> (r: Vec<String>)
    ensures
        texts(r@) == group1_values(caps_view(caps@)),
{
    let ghost cv = caps_view(caps@);
    let mut out: Vec<String> = Vec::new();
    let mut i: usize = 0;
    assert(cv.take(0) =~= Seq::<Seq<Option<Seq<char>>>>::empty());
    assert(texts(out@) =~= Seq::<Seq<char>>::empty());
    while i < caps.len()
        invariant
            cv == caps_view(caps@),
            i <= caps.len(),
            texts(out@) == group1_values(cv.take(i as int)),
        decreases caps.len() - i,
    {
        assert(cv.take(i + 1).drop_last() =~= cv.take(i as int));
        assert(cv[i as int] == caps@[i as int]@.map_values(|o: Option<String>| opt_text(o)));
        match get_group(&caps[i], 1) {
            Some(x) => {
                let ghost prev = out@;
                out.push(x);
                assert(texts(out@) =~= texts(prev).push(out@.last()@));
            },
            None => {},
        }
        i = i + 1;
    }
    assert(cv.take(caps@.len() as int) =~= cv);
    out
}

/// The list body of the first default-list match whose group 1 is `key`
/// (group 2 of that match).
pub fn default_body_from_captures(caps: &Vec<Vec<Option<String>>>, key: &str) -> (r: Option<String>)
    ensures
        match first_body(caps_view(caps@), key@) {
            Some(b) => r is Some && r.unwrap()@ == b,
            None => r is None,
        },
{
    let ghost cv = caps_view(caps@);
    let mut i: usize = 0;
    let mut body: Option<String> = None;
    assert(cv.skip(0) =~= cv);
    while i < caps.len() && body.is_none()
        invariant
            cv == caps_view(caps@),
            i <= caps.len(),
            body.is_none() ==> first_body(cv, key@) == first_body(cv.skip(i as int), key@),
            body matches Some(b) ==> first_body(cv, key@) == Some(b@),
        decreases caps.len() - i,
    {
        let ghost rest = cv.skip(i as int);
        assert(rest[0] == cv[i as int]);
        assert(rest.drop_first() =~= cv.skip(i + 1));
        assert(cv[i as int] == caps@[i as int]@.map_values(|o: Option<String>| opt_text(o)));
        match get_group(&caps[i], 1) {
            Some(g) => if str_eq(g.as_str(), key) {
                body = Some(text_or_empty(get_group(&caps[i], 2)));
            },
            None => {},
        }
        i = i + 1;
    }
    if body.is_none() {
        assert(cv.skip(i as int).len() == 0);
    }
    body
}

/// Parses the default-column names an asset's field module declares.
pub fn parse_defaults(text: &str, asset: &str) -> (r: Vec<String>)
    ensures
        texts(r@) == parse_defaults_spec(text@, asset@),
{
    let class_name: &str = if str_eq(asset, "crypto") {
        "CryptoField"
    } else if str_eq(asset, "stock") {
        "StockField"
    } else if str_eq(asset, "forex") {
        "ForexField"
    } else if str_eq(asset, "bond") {
        "BondField"
    } else if str_eq(asset, "futures") {
        "FuturesField"
    } else if str_eq(asset, "coin") {
        "CoinField"
    } else {
        let v: Vec<String> = Vec::new();
        assert(texts(v@) =~= Seq::<Seq<char>>::empty());
        return v;
    };
    assert(class_of_asset(asset@) == Some(class_name@));
    let empty: Vec<String> = Vec::new();
    assert(texts(empty@) =~= Seq::<Seq<char>>::empty());
    let key = to_upper(asset);
    let pattern = "(?s)DEFAULT_([A-Z]+)_FIELDS\\s*=\\s*\\[(.*?)\\]";
    assert(pattern@ == default_list_pattern());
    let caps = match captures_all(pattern, text) {
        Some(c) => c,
        None => {
            return empty;
        },
    };
    let body = match default_body_from_captures(&caps, key.as_str()) {
        Some(b) => b,
        None => {
            return empty;
        },
    };
    let member = cat(class_name, "\\.([A-Z][A-Z0-9_]*)");
    assert(member@ == member_pattern(class_name@));
    match captures_all(member.as_str(), body.as_str()) {
        Some(c) => group1_of(&c),
        None => empty,
    }
}

/// The body of a Python enum class: the lines after the `class <Name>` line,
/// up to the next top-level `class` line; empty when there is no such class.
pub open spec fn enum_body_spec(t: Seq<char>, cls: Seq<char>) -> Seq<char> {
    let m = "class "@ + cls;
    if exists|s: int| first_occurrence(t, m, s) {
        let after = t.skip(choose|s: int| first_occurrence(t, m, s));
        if after.contains('\n') {
            let rest = after.skip((choose|n: int| first_pos(after, '\n', n)) + 1);
            let stop = "\nclass "@;
            if exists|x: int| first_occurrence(rest, stop, x) {
                rest.take(choose|x: int| first_occurrence(rest, stop, x))
            } else {
                rest
            }
        } else {
            Seq::empty()
        }
    } else {
        Seq::empty()
    }
}

/// The first occurrence is unique.
proof fn lemma_first_occurrence_unique(h: Seq<char>, n: Seq<char>, i: int, j: int)
    requires
        first_occurrence(h, n, i),
        first_occurrence(h, n, j),
    ensures
        i == j,
{
}

/// The first position is unique.
proof fn lemma_first_pos_unique(s: Seq<char>, c: char, i: int, j: int)
    requires
        first_pos(s, c, i),
        first_pos(s, c, j),
    ensures
        i == j,
{
    if i < j {
        assert(s[i] == c);
    } else if j < i {
        assert(s[j] == c);
    }
}

/// The characters from `from` on.
fn tail_chars(v: &Vec<char>, from: usize) -> (r: Vec<char>)
    requires
        from <= v.len(),
    ensures
        r@ == v@.skip(from as int),
{
    let mut r: Vec<char> = Vec::new();
    let mut i = from;
    while i < v.len()
        invariant
            from <= i <= v.len(),
            r@ == v@.subrange(from as int, i as int),
        decreases v.len() - i,
    {
        r.push(v[i]);
        i = i + 1;
        assert(r@ =~= v@.subrange(from as int, i as int));
    }
    assert(r@ =~= v@.skip(from as int));
    r
}

/// The body of a Python enum class (see [`enum_body_spec`]).
pub fn enum_class_body(init_text: &str, class_name: &str) -> (r: String)
    ensures
        r@ == enum_body_spec(init_text@, class_name@),
{
    let marker = cat("class ", class_name);
    let t = chars_of(init_text);
    let m = chars_of(marker.as_str());
    let start = match find_chars(&t, &m) {
        Some(s) => s,
        None => {
            return String::new();
        },
    };
    proof {
        let c = choose|s: int| first_occurrence(t@, m@, s);
        lemma_first_occurrence_unique(t@, m@, start as int, c);
    }
    let after = tail_chars(&t, start);
    let nl = match find_char(&after, '\n') {
        Some(n) => n,
        None => {
            return String::new();
        },
    };
    proof {
        let c = choose|n: int| first_pos(after@, '\n', n);
        lemma_first_pos_unique(after@, '\n', nl as int, c);
    }
    let rest = tail_chars(&after, nl + 1);
    let stop = chars_of("\nclass ");
    match find_chars(&rest, &stop) {
        Some(x) => {
            proof {
                let c = choose|y: int| first_occurrence(rest@, stop@, y);
                lemma_first_occurrence_unique(rest@, stop@, x as int, c);
            }
            let r = string_of_range(&rest, 0, x);
            assert(r@ =~= rest@.take(x as int));
            r
        },
        None => {
            let r = string_of_range(&rest, 0, rest.len());
            assert(r@ =~= rest@);
            r
        },
    }
}

/// A JSON object of string members, keys in the given (sorted) order.
pub open spec fn str_object(entries: Seq<(Seq<char>, Seq<char>)>) -> JsonV {
    JsonV::Object(entries.map_values(|e: (Seq<char>, Seq<char>)| (e.0, JsonV::Str(e.1))))
}

/// The pattern of a string enum member (`NAME = 'value'`).
pub open spec fn string_member_pattern() -> Seq<char> {
    "(?m)^\\s+([A-Z][A-Z0-9_]*)\\s*=\\s*(?:'([^']*)'|\"([^\"]*)\")\\s*(?:#.*)?$"@
}

/// The pattern of an index member (`NAME = ("catalog", "label")`).
pub open spec fn index_line_pattern() -> Seq<char> {
    "(?m)^\\s+([A-Z][A-Z0-9_]*)\\s*=\\s*\\(\"([^\"]+)\",\\s*\"([^\"]+)\"\\)"@
}

/// The `{"const", "value"}` objects of string enum member matches.
pub open spec fn string_members(caps: Seq<Seq<Option<Seq<char>>>>) -> Seq<JsonV> {
    caps.map_values(
        |c: Seq<Option<Seq<char>>>|
            str_object(seq![("const"@, text_of(group(c, 1))), ("value"@, text_of(group_or(c, 2, 3)))]),
    )
}

/// The `{"const", "label", "value"}` objects of index member matches.
pub open spec fn index_members(caps: Seq<Seq<Option<Seq<char>>>>) -> Seq<JsonV> {
    caps.map_values(
        |c: Seq<Option<Seq<char>>>|
            str_object(
                seq![
                    ("const"@, text_of(group(c, 1))),
                    ("label"@, text_of(group(c, 3))),
                    ("value"@, text_of(group(c, 2))),
                ],
            ),
    )
}

/// The views of JSON values.
pub open spec fn jsons(v: Seq<JsonValue>) -> Seq<JsonV> {
    crate::json::jvs(v)
}

/// A JSON object of string members.
fn make_str_object(keys: &Vec<&str>, values: Vec<String>) -> (r: JsonValue)
    requires
        keys.len() == values.len(),
    ensures
        r@ == str_object(Seq::new(keys@.len(), |i: int| (keys@[i]@, values@[i]@))),
{
    let mut o: Vec<(String, JsonValue)> = Vec::new();
    let mut i: usize = 0;
    while i < keys.len()
        invariant
            keys.len() == values.len(),
            i <= keys.len(),
            json_entries_view(o@) == Seq::new(i as nat, |j: int| (keys@[j]@, JsonV::Str(values@[j]@))),
        decreases keys.len() - i,
    {
        let ghost prev = o@;
        let v = JsonValue::Str(values[i].clone());
        assert(v@ == JsonV::Str(values@[i as int]@));
        o.push((own(keys[i]), v));
        assert(json_entries_view(o@) =~= json_entries_view(prev).push((keys@[i as int]@, JsonV::Str(values@[i as int]@))));
        i = i + 1;
        assert(json_entries_view(o@) =~= Seq::new(i as nat, |j: int| (keys@[j]@, JsonV::Str(values@[j]@))));
    }
    proof {
        lemma_object_view(o);
    }
    let r = JsonValue::Object(o);
    assert(r@ == JsonV::Object(json_entries_view(o@)));
    assert(json_entries_view(o@) =~= Seq::new(keys@.len(), |i: int| (keys@[i]@, values@[i]@)).map_values(
        |e: (Seq<char>, Seq<char>)| (e.0, JsonV::Str(e.1)),
    ));
    r
}

/// The `{"const", "value"}` objects of string-enum member matches (group 1
/// the name, group 2 or 3 the quoted value).
pub fn string_members_from_captures(caps: &Vec<Vec<Option<String>>>) -> (r: Vec<JsonValue>)
    ensures
        jsons(r@) == string_members(caps_view(caps@)),
{
    let mut out: Vec<JsonValue> = Vec::new();
    assert(jsons(out@) =~= Seq::<JsonV>::empty());
    let ghost cv = caps_view(caps@);
    let mut keys: Vec<&str> = Vec::new();
    keys.push("const");
    keys.push("value");
    let mut i: usize = 0;
    while i < caps.len()
        invariant
            cv == caps_view(caps@),
            i <= caps.len(),
            keys@.len() == 2,
            keys@[0]@ == "const"@,
            keys@[1]@ == "value"@,
            jsons(out@) == string_members(cv).take(i as int),
        decreases caps.len() - i,
    {
        assert(cv[i as int] == caps@[i as int]@.map_values(|o: Option<String>| opt_text(o)));
        let mut values: Vec<String> = Vec::new();
        values.push(text_or_empty(get_group(&caps[i], 1)));
        values.push(text_or_empty(get_group_or(&caps[i], 2, 3)));
        let obj = make_str_object(&keys, values);
        assert(Seq::new(keys@.len(), |k: int| (keys@[k]@, values@[k]@)) =~= seq![
            ("const"@, text_of(group(cv[i as int], 1))),
            ("value"@, text_of(group_or(cv[i as int], 2, 3))),
        ]);
        let ghost prev = out@;
        out.push(obj);
        assert(jsons(out@) =~= jsons(prev).push(string_members(cv)[i as int]));
        i = i + 1;
        assert(jsons(out@) =~= string_members(cv).take(i as int));
    }
    assert(string_members(cv).take(caps@.len() as int) =~= string_members(cv));
    out
}

/// Parses the members of a Python string enum class into `{"const", "value"}` objects.
pub fn parse_string_enum(init_text: &str, class_name: &str) -> (r: Vec<JsonValue>)
    ensures
        jsons(r@) == if regex_compiles(string_member_pattern()) {
            string_members(regex_captures(string_member_pattern(), enum_body_spec(init_text@, class_name@)))
        } else {
            Seq::empty()
        },
{
    let body = enum_class_body(init_text, class_name);
    let pattern = "(?m)^\\s+([A-Z][A-Z0-9_]*)\\s*=\\s*(?:'([^']*)'|\"([^\"]*)\")\\s*(?:#.*)?$";
    assert(pattern@ == string_member_pattern());
    match captures_all(pattern, body.as_str()) {
        Some(caps) => string_members_from_captures(&caps),
        None => {
            let out: Vec<JsonValue> = Vec::new();
            assert(jsons(out@) =~= Seq::<JsonV>::empty());
            out
        },
    }
}

/// The `{"const", "label", "value"}` objects of `IndexSymbol` member matches
/// (group 1 the name, group 2 the symbol, group 3 the label).
pub fn index_members_from_captures(caps: &Vec<Vec<Option<String>>>) -> (r: Vec<JsonValue>)
    ensures
        jsons(r@) == index_members(caps_view(caps@)),
{
    let mut out: Vec<JsonValue> = Vec::new();
    assert(jsons(out@) =~= Seq::<JsonV>::empty());
    let ghost cv = caps_view(caps@);
    let mut keys: Vec<&str> = Vec::new();
    keys.push("const");
    keys.push("label");
    keys.push("value");
    let mut i: usize = 0;
    while i < caps.len()
        invariant
            cv == caps_view(caps@),
            i <= caps.len(),
            keys@.len() == 3,
            keys@[0]@ == "const"@,
            keys@[1]@ == "label"@,
            keys@[2]@ == "value"@,
            jsons(out@) == index_members(cv).take(i as int),
        decreases caps.len() - i,
    {
        assert(cv[i as int] == caps@[i as int]@.map_values(|o: Option<String>| opt_text(o)));
        let mut values: Vec<String> = Vec::new();
        values.push(text_or_empty(get_group(&caps[i], 1)));
        values.push(text_or_empty(get_group(&caps[i], 3)));
        values.push(text_or_empty(get_group(&caps[i], 2)));
        let obj = make_str_object(&keys, values);
        assert(Seq::new(keys@.len(), |k: int| (keys@[k]@, values@[k]@)) =~= seq![
            ("const"@, text_of(group(cv[i as int], 1))),
            ("label"@, text_of(group(cv[i as int], 3))),
            ("value"@, text_of(group(cv[i as int], 2))),
        ]);
        let ghost prev = out@;
        out.push(obj);
        assert(jsons(out@) =~= jsons(prev).push(index_members(cv)[i as int]));
        i = i + 1;
        assert(jsons(out@) =~= index_members(cv).take(i as int));
    }
    assert(index_members(cv).take(caps@.len() as int) =~= index_members(cv));
    out
}

/// Parses the members of the Python `IndexSymbol` class into
/// `{"const", "label", "value"}` objects.
pub fn parse_index_symbols(init_text: &str) -> (r: Vec<JsonValue>)
    ensures
        jsons(r@) == if regex_compiles(index_line_pattern()) {
            index_members(regex_captures(index_line_pattern(), enum_body_spec(init_text@, "IndexSymbol"@)))
        } else {
            Seq::empty()
        },
{
    let body = enum_class_body(init_text, "IndexSymbol");
    let pattern = "(?m)^\\s+([A-Z][A-Z0-9_]*)\\s*=\\s*\\(\"([^\"]+)\",\\s*\"([^\"]+)\"\\)";
    assert(pattern@ == index_line_pattern());
    match captures_all(pattern, body.as_str()) {
        Some(caps) => index_members_from_captures(&caps),
        None => {
            let out: Vec<JsonValue> = Vec::new();
            assert(jsons(out@) =~= Seq::<JsonV>::empty());
            out
        },
    }
}

/// The first lines of every regenerated constant module.
pub open spec fn header_lines() -> Seq<Seq<char>> {
    seq![
        "// Copyright 2026 tvscreener-rs contributors"@,
        "// SPDX-License-Identifier: Apache-2.0"@,
        ""@,
        "// Generated by `tvscreener regen-fields`. Do not edit by hand."@,
        ""@,
    ]
}

/// The first lines of every regenerated constant module.
pub fn write_header() -> (r: Vec<String>)
    ensures
        texts(r@) == header_lines(),
{
    let mut v: Vec<String> = Vec::new();
    v.push(own("// Copyright 2026 tvscreener-rs contributors"));
    v.push(own("// SPDX-License-Identifier: Apache-2.0"));
    v.push(own(""));
    v.push(own("// Generated by `tvscreener regen-fields`. Do not edit by hand."));
    v.push(own(""));
    assert(texts(v@) =~= header_lines());
    v
}

/// The Rust string-literal escape of one character (`\` and `"`).
pub open spec fn escape_char(c: char) -> Seq<char> {
    if c == '\\' {
        seq!['\\', '\\']
    } else if c == '"' {
        seq!['\\', '"']
    } else {
        seq![c]
    }
}

/// A text escaped for a Rust string literal: `\` doubled, `"` preceded by `\`.
pub open spec fn rust_escape_spec(s: Seq<char>) -> Seq<char>
    decreases s.len(),
{
    if s.len() == 0 {
        Seq::empty()
    } else {
        rust_escape_spec(s.drop_last()) + escape_char(s.last())
    }
}

/// Escapes a text for a Rust string literal.
pub fn rust_escape(s: &str) -> (r: String)
    ensures
        r@ == rust_escape_spec(s@),
{
    let v = chars_of(s);
    let mut r = String::new();
    let mut i: usize = 0;
    while i < v.len()
        invariant
            v@ == s@,
            i <= v.len(),
            r@ == rust_escape_spec(v@.take(i as int)),
        decreases v.len() - i,
    {
        assert(v@.take(i + 1).drop_last() =~= v@.take(i as int));
        let c = v[i];
        if c == '\\' {
            push_char(&mut r, '\\');
            push_char(&mut r, '\\');
        } else if c == '"' {
            push_char(&mut r, '\\');
            push_char(&mut r, '"');
        } else {
            push_char(&mut r, c);
        }
        i = i + 1;
        assert(r@ =~= rust_escape_spec(v@.take(i as int)));
    }
    assert(v@.take(v@.len() as int) =~= v@);
    r
}

/// A text with each `*/` turned into `* /`, left to right.
pub open spec fn close_comment_fixed(s: Seq<char>) -> Seq<char>
    decreases s.len(),
{
    if s.len() < 2 {
        s
    } else if s[0] == '*' && s[1] == '/' {
        seq!['*', ' ', '/'] + close_comment_fixed(s.skip(2))
    } else {
        seq![s[0]] + close_comment_fixed(s.drop_first())
    }
}

/// Turns each `*/` into `* /` so a text can stand in a doc comment.
fn fix_comment_close(s: &str) -> (r: String)
    ensures
        r@ == close_comment_fixed(s@),
{
    let v = chars_of(s);
    let mut r = String::new();
    let mut i: usize = 0;
    assert(v@.skip(0) =~= v@);
    while i < v.len()
        invariant
            v@ == s@,
            i <= v.len(),
            close_comment_fixed(v@) == r@ + close_comment_fixed(v@.skip(i as int)),
        decreases v.len() - i,
    {
        let ghost t = v@.skip(i as int);
        if i + 1 < v.len() && v[i] == '*' && v[i + 1] == '/' {
            assert(t.skip(2) =~= v@.skip(i + 2));
            push_char(&mut r, '*');
            push_char(&mut r, ' ');
            push_char(&mut r, '/');
            i = i + 2;
        } else {
            proof {
                if t.len() >= 2 {
                    assert(t.drop_first() =~= v@.skip(i + 1));
                } else {
                    assert(v@.skip(i + 1) =~= Seq::<char>::empty());
                    assert(t =~= seq![v@[i as int]]);
                }
            }
            push_char(&mut r, v[i]);
            i = i + 1;
        }
    }
    assert(v@.skip(v@.len() as int) =~= Seq::<char>::empty());
    assert(r@ =~= r@ + Seq::<char>::empty());
    r
}

/// The text `replace_all` gives for `pattern`, `text` and `rep` (`Regex::replace_all`).
pub uninterp spec fn regex_replaced(pattern: Seq<char>, text: Seq<char>, rep: Seq<char>) -> Seq<char>;

/// Compiles `pattern` and replaces its matches in `text` with `rep`.
///
/// Calls `Regex::new` and `Regex::replace_all`. The contract claims that the
/// result is present exactly when the pattern compiles ([`regex_compiles`]),
/// and is then the named result [`regex_replaced`].
#[verifier::external_body]
fn replace_matches(pattern: &str, text: &str, rep: &str) -> (r: Option<String>)
    ensures
        r is Some <==> regex_compiles(pattern@),
        r matches Some(x) ==> x@ == regex_replaced(pattern@, text@, rep@),
{
    let re = regex::Regex::new(pattern).ok()?;
    Some(re.replace_all(text, rep).into_owned())
}

/// The pattern of a CamelCase word.
pub open spec fn camel_pattern() -> Seq<char> {
    "\\b([A-Z][a-z]+[A-Z][A-Za-z]*)\\b"@
}

/// A label as it stands in a generated doc comment: `*/` broken up and
/// CamelCase words in backquotes.
pub open spec fn doc_label_spec(label: Seq<char>) -> Seq<char> {
    let c = close_comment_fixed(label);
    if regex_compiles(camel_pattern()) {
        regex_replaced(camel_pattern(), c, "`$1`"@)
    } else {
        c
    }
}

/// A label as it stands in a generated doc comment.
pub fn doc_label(label: &str) -> (r: String)
    ensures
        r@ == doc_label_spec(label@),
{
    let cleaned = fix_comment_close(label);
    let pattern = "\\b([A-Z][a-z]+[A-Z][A-Za-z]*)\\b";
    assert(pattern@ == camel_pattern());
    match replace_matches(pattern, cleaned.as_str(), "`$1`") {
        Some(x) => x,
        None => cleaned,
    }
}

/// The text of an `f64` literal from the float's display text: `f64::NAN`
/// for no value; the text itself when it has a `.` or exponent, else with `.0`.
pub open spec fn f64_literal_spec(shown: Option<Seq<char>>) -> Seq<char> {
    match shown {
        None => "f64::NAN"@,
        Some(s) => if s.contains('.') || s.contains('e') || s.contains('E') {
            s
        } else {
            s + ".0"@
        },
    }
}

/// The text of an `f64` literal from the float's display text.
pub fn f64_literal_text(shown: Option<&str>) -> (r: String)
    ensures
        r@ == f64_literal_spec(match shown {
            Some(s) => Some(s@),
            None => None,
        }),
{
    match shown {
        None => own("f64::NAN"),
        Some(s) => {
            if crate::text::contains_char(s, '.') || crate::text::contains_char(s, 'e')
                || crate::text::contains_char(s, 'E') {
                own(s)
            } else {
                cat(s, ".0")
            }
        },
    }
}

/// A rating member declaration: name, the raw lower and upper bound texts, label.
pub struct RatingMember {
    /// Constant name.
    pub const_name: String,
    /// Lower bound as written.
    pub min_raw: String,
    /// Upper bound as written.
    pub max_raw: String,
    /// Label.
    pub label: String,
}

/// The pattern of a rating member (`NAME = lo, hi, 'label'`).
pub open spec fn rating_member_pattern() -> Seq<char> {
    "(?m)^\\s+([A-Z][A-Z0-9_]*)\\s*=\\s*([^,]+)\\s*,\\s*([^,]+)\\s*,\\s*(?:'([^']*)'|\"([^\"]*)\")"@
}

/// A rating member as the contracts see it: name, bound texts, label.
pub open spec fn rating_view(m: RatingMember) -> (Seq<char>, Seq<char>, Seq<char>, Seq<char>) {
    (m.const_name@, m.min_raw@, m.max_raw@, m.label@)
}

/// The rating members of rating member matches: groups 1, 2, 3, and 4 or 5.
pub open spec fn rating_members(caps: Seq<Seq<Option<Seq<char>>>>) -> Seq<
    (Seq<char>, Seq<char>, Seq<char>, Seq<char>),
> {
    caps.map_values(
        |c: Seq<Option<Seq<char>>>|
            (
                text_of(group(c, 1)),
                text_of(group(c, 2)),
                text_of(group(c, 3)),
                text_of(group_or(c, 4, 5)),
            ),
    )
}

/// The rating members of `Rating` member matches: groups 1, 2, 3, and 4 or 5.
pub fn rating_members_from_captures(caps: &Vec<Vec<Option<String>>>) -> (r: Vec<RatingMember>)
    ensures
        r@.map_values(|m: RatingMember| rating_view(m)) == rating_members(caps_view(caps@)),
{
    let mut out: Vec<RatingMember> = Vec::new();
    assert(out@.map_values(|m: RatingMember| rating_view(m)) =~= Seq::empty());
    let ghost cv = caps_view(caps@);
    let mut i: usize = 0;
    while i < caps.len()
        invariant
            cv == caps_view(caps@),
            i <= caps.len(),
            out@.map_values(|m: RatingMember| rating_view(m)) == rating_members(cv).take(i as int),
        decreases caps.len() - i,
    {
        assert(cv[i as int] == caps@[i as int]@.map_values(|o: Option<String>| opt_text(o)));
        let m = RatingMember {
            const_name: text_or_empty(get_group(&caps[i], 1)),
            min_raw: text_or_empty(get_group(&caps[i], 2)),
            max_raw: text_or_empty(get_group(&caps[i], 3)),
            label: text_or_empty(get_group_or(&caps[i], 4, 5)),
        };
        let ghost prev = out@;
        out.push(m);
        assert(out@.map_values(|m: RatingMember| rating_view(m)) =~= prev.map_values(
            |m: RatingMember| rating_view(m),
        ).push(rating_members(cv)[i as int]));
        i = i + 1;
        assert(out@.map_values(|m: RatingMember| rating_view(m)) =~= rating_members(cv).take(i as int));
    }
    assert(rating_members(cv).take(caps@.len() as int) =~= rating_members(cv));
    out
}

/// Parses the members of the Python `Rating` class.
pub fn parse_rating_members(init_text: &str) -> (r: Vec<RatingMember>)
    ensures
        r@.map_values(|m: RatingMember| rating_view(m)) == if regex_compiles(rating_member_pattern()) {
            rating_members(regex_captures(rating_member_pattern(), enum_body_spec(init_text@, "Rating"@)))
        } else {
            Seq::empty()
        },
{
    let body = enum_class_body(init_text, "Rating");
    let pattern = "(?m)^\\s+([A-Z][A-Z0-9_]*)\\s*=\\s*([^,]+)\\s*,\\s*([^,]+)\\s*,\\s*(?:'([^']*)'|\"([^\"]*)\")";
    assert(pattern@ == rating_member_pattern());
    match captures_all(pattern, body.as_str()) {
        Some(caps) => rating_members_from_captures(&caps),
        None => {
            let out: Vec<RatingMember> = Vec::new();
            assert(out@.map_values(|m: RatingMember| rating_view(m)) =~= Seq::empty());
            out
        },
    }
}

/// Lists of lines, one after the other.
pub open spec fn flatten_lines(ls: Seq<Seq<Seq<char>>>) -> Seq<Seq<char>>
    decreases ls.len(),
{
    if ls.len() == 0 {
        Seq::empty()
    } else {
        flatten_lines(ls.drop_last()) + ls.last()
    }
}

/// Appends lines.
fn push_lines(out: &mut Vec<String>, more: Vec<String>)
    ensures
        texts(final(out)@) == texts(old(out)@) + texts(more@),
{
    let ghost start = texts(out@);
    let mut i: usize = 0;
    while i < more.len()
        invariant
            i <= more.len(),
            texts(out@) == start + texts(more@).take(i as int),
        decreases more.len() - i,
    {
        let ghost prev = texts(out@);
        let x = more[i].clone();
        assert(x@ == texts(more@)[i as int]);
        out.push(x);
        assert(texts(out@) =~= prev.push(texts(more@)[i as int]));
        i = i + 1;
        assert(texts(out@) =~= start + texts(more@).take(i as int));
    }
    assert(texts(more@).take(more@.len() as int) =~= texts(more@));
}

/// Member `k` of an object when it is a string.
pub open spec fn str_member(e: JsonV, k: Seq<char>) -> Option<Seq<char>> {
    match get_member(e, k) {
        Some(JsonV::Str(s)) => Some(s),
        _ => None,
    }
}

/// Member `k` of an object when it is a string, else `d`.
pub open spec fn member_or(e: JsonV, k: Seq<char>, d: Seq<char>) -> Seq<char> {
    match str_member(e, k) {
        Some(s) => s,
        None => d,
    }
}

/// Member `k` of an object when it is a string.
fn member_text(e: &JsonValue, k: &str) -> (r: Option<String>)
    ensures
        opt_text(r) == str_member(e@, k@),
{
    match e.get(k) {
        Some(v) => match v.as_str() {
            Some(s) => Some(own(s)),
            None => None,
        },
        None => None,
    }
}

/// Member `k` of an object when it is a string, else `d`.
fn member_text_or(e: &JsonValue, k: &str, d: &str) -> (r: String)
    ensures
        r@ == member_or(e@, k@, d@),
{
    match member_text(e, k) {
        Some(s) => s,
        None => own(d),
    }
}

/// The name line of a constant-name list: `    "NAME",`.
pub open spec fn name_line(n: Seq<char>) -> Seq<char> {
    "    \""@ + n + "\","@
}

/// The closing block of a constant module: the list of constant names.
pub open spec fn const_names_block(doc: Seq<char>, names: Seq<Seq<char>>) -> Seq<Seq<char>> {
    seq![""@, doc, "pub const ALL_CONST_NAMES: &[&str] = &["@] + names.map_values(
        |n: Seq<char>| name_line(n),
    ) + seq!["];"@, ""@]
}

/// The source text of lines: joined with newlines, with a final newline.
pub open spec fn source_text(lines: Seq<Seq<char>>) -> Seq<char> {
    join_spec(lines, "\n"@) + "\n"@
}

/// The two lines of a string constant: its doc comment and its declaration.
pub open spec fn str_const_lines(name: Seq<char>, value: Seq<char>, label: Seq<char>) -> Seq<Seq<char>> {
    seq![
        "/// "@ + doc_label_spec(label) + " (`"@ + value + "`)."@,
        "pub const "@ + name + ": &str = \""@ + rust_escape_spec(value) + "\";"@,
    ]
}

/// The lines of a `{"const", "value", "label"?}` entry (the label defaults to the value).
pub open spec fn named_entry_lines(e: JsonV) -> Seq<Seq<char>> {
    let value = member_or(e, "value"@, ""@);
    str_const_lines(member_or(e, "const"@, ""@), value, member_or(e, "label"@, value))
}

/// The lines of an index entry (the label defaults to the constant name).
pub open spec fn index_entry_lines(e: JsonV) -> Seq<Seq<char>> {
    let name = member_or(e, "const"@, ""@);
    str_const_lines(name, member_or(e, "value"@, ""@), member_or(e, "label"@, name))
}

/// The lines of an entry: an index entry, or a named-constant entry.
pub open spec fn entry_lines(e: JsonV, index: bool) -> Seq<Seq<char>> {
    if index {
        index_entry_lines(e)
    } else {
        named_entry_lines(e)
    }
}

/// The constant names of entries.
pub open spec fn entry_names(es: Seq<JsonV>) -> Seq<Seq<char>> {
    es.map_values(|e: JsonV| member_or(e, "const"@, ""@))
}

/// The two lines of a string constant.
fn str_const(name: &str, value: &str, label: &str) -> (r: Vec<String>)
    ensures
        texts(r@) == str_const_lines(name@, value@, label@),
{
    let mut doc = cat("/// ", doc_label(label).as_str());
    doc.append(" (`");
    doc.append(value);
    doc.append("`).");
    let mut decl = cat3("pub const ", name, ": &str = \"");
    decl.append(rust_escape(value).as_str());
    decl.append("\";");
    let mut v: Vec<String> = Vec::new();
    v.push(doc);
    v.push(decl);
    assert(texts(v@) =~= str_const_lines(name@, value@, label@));
    v
}

/// The closing block of a constant module.
fn const_names(doc: &str, names: &Vec<String>) -> (r: Vec<String>)
    ensures
        texts(r@) == const_names_block(doc@, texts(names@)),
{
    let mut v: Vec<String> = Vec::new();
    v.push(own(""));
    v.push(own(doc));
    v.push(own("pub const ALL_CONST_NAMES: &[&str] = &["));
    let ghost start = texts(v@);
    let mut i: usize = 0;
    while i < names.len()
        invariant
            i <= names.len(),
            texts(v@) == start + texts(names@).map_values(|n: Seq<char>| name_line(n)).take(i as int),
        decreases names.len() - i,
    {
        let ghost prev = texts(v@);
        let line = cat3("    \"", names[i].as_str(), "\",");
        assert(line@ == name_line(texts(names@)[i as int]));
        v.push(line);
        assert(texts(v@) =~= prev.push(name_line(texts(names@)[i as int])));
        i = i + 1;
        assert(texts(v@) =~= start + texts(names@).map_values(|n: Seq<char>| name_line(n)).take(i as int));
    }
    assert(texts(names@).map_values(|n: Seq<char>| name_line(n)).take(names@.len() as int)
        =~= texts(names@).map_values(|n: Seq<char>| name_line(n)));
    let ghost mid = texts(v@);
    v.push(own("];"));
    v.push(own(""));
    assert(texts(v@) =~= mid + seq!["];"@, ""@]);
    assert(texts(v@) =~= const_names_block(doc@, texts(names@)));
    v
}

/// Joins lines into a source text with a final newline.
fn source_of(lines: &Vec<String>) -> (r: String)
    ensures
        r@ == source_text(texts(lines@)),
{
    let mut s = join_strings(lines, "\n");
    assert(texts(lines@) == crate::sort::strs_view(lines@));
    s.append("\n");
    s
}

/// The source of a named-constant module (sectors, countries, …).
pub open spec fn named_source_spec(es: Seq<JsonV>, kind: Seq<char>) -> Seq<char> {
    source_text(
        header_lines() + flatten_lines(es.map_values(|e: JsonV| entry_lines(e, false)))
            + const_names_block("/// All known "@ + kind + " constant names."@, entry_names(es)),
    )
}

/// The source of the index-symbol module.
pub open spec fn index_source_spec(es: Seq<JsonV>) -> Seq<char> {
    source_text(
        header_lines() + flatten_lines(es.map_values(|e: JsonV| entry_lines(e, true)))
            + const_names_block("/// All known index constant names."@, entry_names(es)),
    )
}

/// The entry lines and the names of `{"const", …}` entries.
fn entry_blocks(entries: &Vec<JsonValue>, index: bool) -> (r: (Vec<String>, Vec<String>))
    ensures
        texts(r.0@) == flatten_lines(
            jsons(entries@).map_values(|e: JsonV| entry_lines(e, index)),
        ),
        texts(r.1@) == entry_names(jsons(entries@)),
{
    let ghost es = jsons(entries@);
    let ghost ls = es.map_values(|e: JsonV| entry_lines(e, index));
    let mut lines: Vec<String> = Vec::new();
    let mut names: Vec<String> = Vec::new();
    let mut i: usize = 0;
    assert(ls.take(0) =~= Seq::<Seq<Seq<char>>>::empty());
    assert(texts(lines@) =~= Seq::<Seq<char>>::empty());
    while i < entries.len()
        invariant
            es == jsons(entries@),
            ls == es.map_values(|e: JsonV| entry_lines(e, index)),
            i <= entries.len(),
            texts(lines@) == flatten_lines(ls.take(i as int)),
            texts(names@) == entry_names(es).take(i as int),
        decreases entries.len() - i,
    {
        assert(ls.take(i + 1).drop_last() =~= ls.take(i as int));
        let e = &entries[i];
        let name = member_text_or(e, "const", "");
        let value = member_text_or(e, "value", "");
        let label = if index {
            member_text_or(e, "label", name.as_str())
        } else {
            member_text_or(e, "label", value.as_str())
        };
        let block = str_const(name.as_str(), value.as_str(), label.as_str());
        push_lines(&mut lines, block);
        let ghost prev = texts(names@);
        assert(es[i as int] == entries@[i as int]@);
        assert(name@ == entry_names(es)[i as int]);
        let ghost nv = name@;
        names.push(name);
        assert(texts(names@) =~= prev.push(nv));
        i = i + 1;
        assert(texts(names@) =~= entry_names(es).take(i as int));
    }
    assert(ls.take(entries@.len() as int) =~= ls);
    assert(entry_names(es).take(entries@.len() as int) =~= entry_names(es));
    (lines, names)
}

/// The source of a named-constant module (sectors, countries, …) for
/// `{"const", "value", "label"?}` entries.
pub fn named_str_source(entries: &Vec<JsonValue>, kind: &str) -> (r: String)
    ensures
        r@ == named_source_spec(jsons(entries@), kind@),
{
    let mut lines = write_header();
    let (body, names) = entry_blocks(entries, false);
    let ghost es = jsons(entries@);
    let ghost hv = texts(lines@);
    let ghost bv = texts(body@);
    assert(hv == header_lines());
    assert(bv == flatten_lines(es.map_values(|e: JsonV| entry_lines(e, false))));
    assert(texts(names@) == entry_names(es));
    push_lines(&mut lines, body);
    let mut doc = cat("/// All known ", kind);
    doc.append(" constant names.");
    let tail = const_names(doc.as_str(), &names);
    assert(doc@ == "/// All known "@ + kind@ + " constant names."@);
    let ghost tv = texts(tail@);
    assert(tv == const_names_block("/// All known "@ + kind@ + " constant names."@, entry_names(es)));
    push_lines(&mut lines, tail);
    assert(texts(lines@) == hv + bv + tv);
    assert(texts(lines@) =~= header_lines() + flatten_lines(es.map_values(|e: JsonV| entry_lines(e, false)))
        + const_names_block("/// All known "@ + kind@ + " constant names."@, entry_names(es)));
    source_of(&lines)
}

/// The source of the index-symbol module for `{"const", "value", "label"?}` entries.
pub fn index_symbol_source(entries: &Vec<JsonValue>) -> (r: String)
    ensures
        r@ == index_source_spec(jsons(entries@)),
{
    let mut lines = write_header();
    let (body, names) = entry_blocks(entries, true);
    let ghost es = jsons(entries@);
    let ghost hv = texts(lines@);
    let ghost bv = texts(body@);
    assert(bv == flatten_lines(es.map_values(|e: JsonV| entry_lines(e, true))));
    push_lines(&mut lines, body);
    let tail = const_names("/// All known index constant names.", &names);
    let ghost tv = texts(tail@);
    push_lines(&mut lines, tail);
    assert(texts(lines@) == hv + bv + tv);
    assert(texts(lines@) =~= header_lines() + flatten_lines(es.map_values(|e: JsonV| entry_lines(e, true)))
        + const_names_block("/// All known index constant names."@, entry_names(es)));
    source_of(&lines)
}

/// The seven lines of a rating band constant.
pub open spec fn rating_entry_lines(e: JsonV, lo: Seq<char>, hi: Seq<char>) -> Seq<Seq<char>> {
    let name = member_or(e, "const"@, ""@);
    let label = member_or(e, "label"@, ""@);
    seq![
        "/// "@ + doc_label_spec(label) + "."@,
        "pub const "@ + name + ": RatingBand = RatingBand {"@,
        "    const_name: \""@ + name + "\","@,
        "    min: "@ + lo + ","@,
        "    max: "@ + hi + ","@,
        "    label: \""@ + rust_escape_spec(label) + "\","@,
        "};"@,
    ]
}

/// The line of a rating band in the list of all bands: `    NAME,`.
pub open spec fn band_line(n: Seq<char>) -> Seq<char> {
    "    "@ + n + ","@
}

/// The source of the rating module for `{"const", "label", …}` entries and the
/// `f64` literal texts of their bounds.
pub open spec fn rating_source_spec(es: Seq<JsonV>, bounds: Seq<(Seq<char>, Seq<char>)>) -> Seq<char> {
    let names = entry_names(es);
    source_text(
        header_lines() + flatten_lines(
            Seq::new(es.len(), |i: int| rating_entry_lines(es[i], bounds[i].0, bounds[i].1)),
        ) + seq![""@, "/// All rating bands in declaration order."@, "pub const ALL: &[RatingBand] = &["@]
            + names.map_values(|n: Seq<char>| band_line(n)) + seq!["];"@] + const_names_block(
            "/// All known rating constant names."@,
            names,
        ),
    )
}

/// The views of bound literal pairs.
pub open spec fn bounds_view(b: Seq<(String, String)>) -> Seq<(Seq<char>, Seq<char>)> {
    b.map_values(|p: (String, String)| (p.0@, p.1@))
}

/// The source of the rating module; `bounds` holds the `f64` literal texts of
/// each entry's lower and upper bound.
pub fn rating_source(entries: &Vec<JsonValue>, bounds: &Vec<(String, String)>) -> (r: String)
    requires
        entries.len() == bounds.len(),
    ensures
        r@ == rating_source_spec(jsons(entries@), bounds_view(bounds@)),
{
    let ghost es = jsons(entries@);
    let ghost bv = bounds_view(bounds@);
    let ghost ls = Seq::new(es.len(), |i: int| rating_entry_lines(es[i], bv[i].0, bv[i].1));
    let mut lines = write_header();
    let ghost head = texts(lines@);
    let mut names: Vec<String> = Vec::new();
    let mut i: usize = 0;
    assert(ls.take(0) =~= Seq::<Seq<Seq<char>>>::empty());
    assert(head + flatten_lines(ls.take(0)) =~= head);
    while i < entries.len()
        invariant
            entries.len() == bounds.len(),
            es == jsons(entries@),
            bv == bounds_view(bounds@),
            ls == Seq::new(es.len(), |i: int| rating_entry_lines(es[i], bv[i].0, bv[i].1)),
            i <= entries.len(),
            texts(lines@) == head + flatten_lines(ls.take(i as int)),
            texts(names@) == entry_names(es).take(i as int),
        decreases entries.len() - i,
    {
        assert(ls.take(i + 1).drop_last() =~= ls.take(i as int));
        assert(es[i as int] == entries@[i as int]@);
        let e = &entries[i];
        let name = member_text_or(e, "const", "");
        let label = member_text_or(e, "label", "");
        let mut block: Vec<String> = Vec::new();
        let mut doc = cat("/// ", doc_label(label.as_str()).as_str());
        doc.append(".");
        block.push(doc);
        block.push(cat3("pub const ", name.as_str(), ": RatingBand = RatingBand {"));
        block.push(cat3("    const_name: \"", name.as_str(), "\","));
        block.push(cat3("    min: ", bounds[i].0.as_str(), ","));
        block.push(cat3("    max: ", bounds[i].1.as_str(), ","));
        block.push(cat3("    label: \"", rust_escape(label.as_str()).as_str(), "\","));
        block.push(own("};"));
        assert(texts(block@) =~= ls[i as int]);
        let ghost before = texts(lines@);
        push_lines(&mut lines, block);
        assert(texts(lines@) =~= head + flatten_lines(ls.take(i + 1)));
        let ghost prev = texts(names@);
        let ghost nv = name@;
        names.push(name);
        assert(texts(names@) =~= prev.push(nv));
        i = i + 1;
        assert(texts(names@) =~= entry_names(es).take(i as int));
    }
    assert(ls.take(entries@.len() as int) =~= ls);
    assert(entry_names(es).take(entries@.len() as int) =~= entry_names(es));
    let ghost nv = texts(names@);
    let mut mid: Vec<String> = Vec::new();
    mid.push(own(""));
    mid.push(own("/// All rating bands in declaration order."));
    mid.push(own("pub const ALL: &[RatingBand] = &["));
    let ghost mid0 = texts(mid@);
    let mut j: usize = 0;
    while j < names.len()
        invariant
            j <= names.len(),
            nv == texts(names@),
            texts(mid@) == mid0 + nv.map_values(|n: Seq<char>| band_line(n)).take(j as int),
        decreases names.len() - j,
    {
        let ghost prev = texts(mid@);
        let line = cat3("    ", names[j].as_str(), ",");
        assert(line@ == band_line(nv[j as int]));
        mid.push(line);
        assert(texts(mid@) =~= prev.push(band_line(nv[j as int])));
        j = j + 1;
        assert(texts(mid@) =~= mid0 + nv.map_values(|n: Seq<char>| band_line(n)).take(j as int));
    }
    assert(nv.map_values(|n: Seq<char>| band_line(n)).take(names@.len() as int) =~= nv.map_values(
        |n: Seq<char>| band_line(n),
    ));
    let ghost mid1 = texts(mid@);
    mid.push(own("];"));
    assert(texts(mid@) =~= mid1.push("];"@));
    let ghost body = texts(lines@);
    let ghost mv = texts(mid@);
    push_lines(&mut lines, mid);
    let tail = const_names("/// All known rating constant names.", &names);
    let ghost tv = texts(tail@);
    push_lines(&mut lines, tail);
    assert(texts(lines@) =~= header_lines() + flatten_lines(ls) + seq![
        ""@,
        "/// All rating bands in declaration order."@,
        "pub const ALL: &[RatingBand] = &["@,
    ] + entry_names(es).map_values(|n: Seq<char>| band_line(n)) + seq!["];"@]
        + const_names_block("/// All known rating constant names."@, entry_names(es)));
    source_of(&lines)
}

/// Whether `n` is a key of the field map.
pub open spec fn is_field_key(fields: Seq<(Seq<char>, EntryV)>, n: Seq<char>) -> bool {
    exists|i: int| 0 <= i < fields.len() && #[trigger] fields[i].0 == n
}

/// The names that are keys of the field map, in order.
pub open spec fn kept_names(names: Seq<Seq<char>>, fields: Seq<(Seq<char>, EntryV)>) -> Seq<Seq<char>>
    decreases names.len(),
{
    if names.len() == 0 {
        Seq::empty()
    } else {
        let p = kept_names(names.drop_last(), fields);
        if is_field_key(fields, names.last()) {
            p.push(names.last())
        } else {
            p
        }
    }
}

/// The string items of a JSON array, in order.
pub open spec fn str_items(items: Seq<JsonV>) -> Seq<Seq<char>>
    decreases items.len(),
{
    if items.len() == 0 {
        Seq::empty()
    } else {
        let p = str_items(items.drop_last());
        match items.last() {
            JsonV::Str(s) => p.push(s),
            _ => p,
        }
    }
}

/// The previous default names of an asset in an earlier catalog document
/// (`/defaults/<asset>` when it is an array).
pub open spec fn previous_defaults(existing: JsonV, asset: Seq<char>) -> Option<Seq<Seq<char>>> {
    match get_member(existing, "defaults"@) {
        Some(d) => match get_member(d, asset) {
            Some(JsonV::Array(items)) => Some(str_items(items)),
            _ => None,
        },
        None => None,
    }
}

/// The default columns of an asset: the declared defaults that are fields;
/// else the earlier document's defaults that are fields; else the first 50
/// fields in name order.
pub open spec fn pick_defaults_spec(
    parsed: Seq<Seq<char>>,
    fields: Seq<(Seq<char>, EntryV)>,
    existing: JsonV,
    asset: Seq<char>,
) -> Seq<Seq<char>> {
    let d1 = kept_names(parsed, fields);
    if d1.len() > 0 {
        d1
    } else {
        let d2 = match previous_defaults(existing, asset) {
            Some(prev) => kept_names(prev, fields),
            None => Seq::empty(),
        };
        if d2.len() > 0 {
            d2
        } else {
            let keys = fields.map_values(|e: (Seq<char>, EntryV)| e.0);
            keys.take(if keys.len() < 50 {
                keys.len() as int
            } else {
                50
            })
        }
    }
}

/// Whether `n` is a key of the field map.
fn has_field_key(fields: &Vec<(String, FieldDef)>, n: &str) -> (r: bool)
    ensures
        r == is_field_key(entries_view(fields@), n@),
{
    let ghost fv = entries_view(fields@);
    let mut i: usize = 0;
    while i < fields.len()
        invariant
            fv == entries_view(fields@),
            i <= fields.len(),
            forall|j: int| 0 <= j < i ==> fv[j].0 != n@,
        decreases fields.len() - i,
    {
        if str_eq(fields[i].0.as_str(), n) {
            assert(fv[i as int].0 == n@);
            return true;
        }
        i = i + 1;
    }
    false
}

/// The names that are keys of the field map.
fn keep_field_names(names: &Vec<String>, fields: &Vec<(String, FieldDef)>) -> (r: Vec<String>)
    ensures
        texts(r@) == kept_names(texts(names@), entries_view(fields@)),
{
    let ghost nv = texts(names@);
    let mut out: Vec<String> = Vec::new();
    let mut i: usize = 0;
    assert(nv.take(0) =~= Seq::<Seq<char>>::empty());
    assert(texts(out@) =~= Seq::<Seq<char>>::empty());
    while i < names.len()
        invariant
            nv == texts(names@),
            i <= names.len(),
            texts(out@) == kept_names(nv.take(i as int), entries_view(fields@)),
        decreases names.len() - i,
    {
        assert(nv.take(i + 1).drop_last() =~= nv.take(i as int));
        assert(nv.take(i + 1).last() == names@[i as int]@);
        if has_field_key(fields, names[i].as_str()) {
            let ghost prev = texts(out@);
            out.push(names[i].clone());
            assert(texts(out@) =~= prev.push(names@[i as int]@));
        }
        i = i + 1;
    }
    assert(nv.take(names@.len() as int) =~= nv);
    out
}

/// The string items of a JSON array.
fn string_items(items: &Vec<JsonValue>) -> (r: Vec<String>)
    ensures
        texts(r@) == str_items(jsons(items@)),
{
    let ghost iv = jsons(items@);
    let mut out: Vec<String> = Vec::new();
    let mut i: usize = 0;
    assert(iv.take(0) =~= Seq::<JsonV>::empty());
    assert(texts(out@) =~= Seq::<Seq<char>>::empty());
    while i < items.len()
        invariant
            iv == jsons(items@),
            i <= items.len(),
            texts(out@) == str_items(iv.take(i as int)),
        decreases items.len() - i,
    {
        assert(iv.take(i + 1).drop_last() =~= iv.take(i as int));
        assert(iv.take(i + 1).last() == items@[i as int]@);
        match items[i].as_str() {
            Some(x) => {
                let ghost prev = texts(out@);
                out.push(own(x));
                assert(texts(out@) =~= prev.push(x@));
            },
            None => {},
        }
        i = i + 1;
    }
    assert(iv.take(items@.len() as int) =~= iv);
    out
}

/// Chooses the default columns of an asset when regenerating the catalog.
pub fn pick_defaults(
    parsed: &Vec<String>,
    fields: &Vec<(String, FieldDef)>,
    existing: &JsonValue,
    asset: &str,
) -> (r: Vec<String>)
    ensures
        texts(r@) == pick_defaults_spec(texts(parsed@), entries_view(fields@), existing@, asset@),
{
    let d1 = keep_field_names(parsed, fields);
    if d1.len() > 0 {
        return d1;
    }
    let mut d2: Vec<String> = Vec::new();
    assert(texts(d2@) =~= Seq::<Seq<char>>::empty());
    match existing.get("defaults") {
        Some(d) => match d.get(asset) {
            Some(v) => match v.as_array() {
                Some(items) => {
                    let prev = string_items(items);
                    d2 = keep_field_names(&prev, fields);
                },
                None => {},
            },
            None => {},
        },
        None => {},
    }
    assert(texts(d2@) == match previous_defaults(existing@, asset@) {
        Some(prev) => kept_names(prev, entries_view(fields@)),
        None => Seq::empty(),
    });
    if d2.len() > 0 {
        return d2;
    }
    let ghost keys = entries_view(fields@).map_values(|e: (Seq<char>, EntryV)| e.0);
    let n: usize = if fields.len() < 50 {
        fields.len()
    } else {
        50
    };
    let mut out: Vec<String> = Vec::new();
    let mut i: usize = 0;
    while i < n
        invariant
            n <= fields.len(),
            keys == entries_view(fields@).map_values(|e: (Seq<char>, EntryV)| e.0),
            i <= n,
            texts(out@) == keys.take(i as int),
        decreases n - i,
    {
        let ghost prev = texts(out@);
        out.push(fields[i].0.clone());
        assert(texts(out@) =~= prev.push(keys[i as int]));
        i = i + 1;
        assert(texts(out@) =~= keys.take(i as int));
    }
    out
}

/// The catalog JSON of one field: `field_name`, `format` (when set),
/// `historical`, `interval`, `label`.
pub open spec fn field_json(f: EntryV) -> JsonV {
    JsonV::Object(
        seq![("field_name"@, JsonV::Str(f.field_name))] + match f.format {
            Some(x) => seq![("format"@, JsonV::Str(x))],
            None => Seq::empty(),
        } + seq![
            ("historical"@, JsonV::Bool(f.historical)),
            ("interval"@, JsonV::Bool(f.interval)),
            ("label"@, JsonV::Str(f.label)),
        ],
    )
}

/// The catalog JSON of a field map: name → field object.
pub open spec fn fields_json_spec(m: Seq<(Seq<char>, EntryV)>) -> JsonV {
    JsonV::Object(m.map_values(|e: (Seq<char>, EntryV)| (e.0, field_json(e.1))))
}

/// The catalog JSON of one field.
fn field_to_json(f: &FieldDef) -> (r: JsonValue)
    ensures
        r@ == field_json(entry_view(*f)),
{
    let mut o: Vec<(String, JsonValue)> = Vec::new();
    o.push((own("field_name"), JsonValue::Str(f.field_name.clone())));
    match &f.format {
        Some(x) => {
            o.push((own("format"), JsonValue::Str(x.clone())));
        },
        None => {},
    }
    o.push((own("historical"), JsonValue::Bool(f.historical)));
    o.push((own("interval"), JsonValue::Bool(f.interval)));
    o.push((own("label"), JsonValue::Str(f.label.clone())));
    proof {
        lemma_object_view(o);
    }
    let r = JsonValue::Object(o);
    assert(json_entries_view(o@) =~= seq![("field_name"@, JsonV::Str(f.field_name@))] + match opt_text(f.format) {
        Some(x) => seq![("format"@, JsonV::Str(x))],
        None => Seq::empty(),
    } + seq![
        ("historical"@, JsonV::Bool(f.historical)),
        ("interval"@, JsonV::Bool(f.interval)),
        ("label"@, JsonV::Str(f.label@)),
    ]);
    r
}

/// The catalog JSON of a field map.
pub fn fields_to_json(fields: &Vec<(String, FieldDef)>) -> (r: JsonValue)
    ensures
        r@ == fields_json_spec(entries_view(fields@)),
{
    let ghost mv = entries_view(fields@).map_values(|e: (Seq<char>, EntryV)| (e.0, field_json(e.1)));
    let mut o: Vec<(String, JsonValue)> = Vec::new();
    let mut i: usize = 0;
    while i < fields.len()
        invariant
            mv == entries_view(fields@).map_values(|e: (Seq<char>, EntryV)| (e.0, field_json(e.1))),
            i <= fields.len(),
            json_entries_view(o@) == mv.take(i as int),
        decreases fields.len() - i,
    {
        let ghost prev = json_entries_view(o@);
        let j = field_to_json(&fields[i].1);
        o.push((fields[i].0.clone(), j));
        assert(json_entries_view(o@) =~= prev.push(mv[i as int]));
        i = i + 1;
        assert(json_entries_view(o@) =~= mv.take(i as int));
    }
    assert(mv.take(fields@.len() as int) =~= mv);
    proof {
        lemma_object_view(o);
    }
    JsonValue::Object(o)
}

/// One asset's regenerated catalog part: its segment, field map and default names.
pub struct AssetCatalog {
    /// Catalog segment (`crypto`, `stock`, …).
    pub asset: String,
    /// Constant name → field, in name order.
    pub fields: Vec<(String, FieldDef)>,
    /// Default column constant names.
    pub defaults: Vec<String>,
}

/// The named constants parsed from the Python package's `__init__`.
pub struct ParsedConstants {
    /// Index symbols (`{"const", "label", "value"}`).
    pub index_symbols: Vec<JsonValue>,
    /// Markets (`{"const", "value"}`); empty when none were parsed.
    pub markets: Vec<JsonValue>,
    /// Sectors.
    pub sectors: Vec<JsonValue>,
    /// Countries.
    pub countries: Vec<JsonValue>,
    /// Industries.
    pub industries: Vec<JsonValue>,
    /// Exchanges.
    pub exchanges: Vec<JsonValue>,
    /// Rating bands (`{"const", "label", "max", "min"}`).
    pub ratings: Vec<JsonValue>,
}

/// A JSON array of strings.
pub open spec fn str_array_spec(s: Seq<Seq<char>>) -> JsonV {
    JsonV::Array(s.map_values(|x: Seq<char>| JsonV::Str(x)))
}

/// Member `k` of the earlier document, or `d`.
pub open spec fn kept_member(existing: JsonV, k: Seq<char>, d: JsonV) -> JsonV {
    match get_member(existing, k) {
        Some(v) => v,
        None => d,
    }
}

/// The regenerated catalog document: the per-asset field maps and defaults,
/// the parsed constants, and what only an earlier document holds (presets,
/// types, symbol types, and markets when none were parsed).
pub open spec fn catalog_document_spec(
    assets: Seq<(Seq<char>, Seq<(Seq<char>, EntryV)>, Seq<Seq<char>>)>,
    existing: JsonV,
    c: (Seq<JsonV>, Seq<JsonV>, Seq<JsonV>, Seq<JsonV>, Seq<JsonV>, Seq<JsonV>, Seq<JsonV>),
) -> JsonV {
    let (index_symbols, markets, sectors, countries, industries, exchanges, ratings) = c;
    JsonV::Object(
        seq![
            ("catalog"@, JsonV::Object(assets.map_values(
                |a: (Seq<char>, Seq<(Seq<char>, EntryV)>, Seq<Seq<char>>)| (a.0, fields_json_spec(a.1)),
            ))),
            ("countries"@, JsonV::Array(countries)),
            ("defaults"@, JsonV::Object(assets.map_values(
                |a: (Seq<char>, Seq<(Seq<char>, EntryV)>, Seq<Seq<char>>)| (a.0, str_array_spec(a.2)),
            ))),
            ("exchanges"@, JsonV::Array(exchanges)),
            ("index_symbols"@, JsonV::Array(index_symbols)),
            ("industries"@, JsonV::Array(industries)),
            ("markets"@, if markets.len() == 0 {
                kept_member(existing, "markets"@, JsonV::Array(Seq::empty()))
            } else {
                JsonV::Array(markets)
            }),
            ("presets"@, kept_member(existing, "presets"@, JsonV::Object(Seq::empty()))),
            ("ratings"@, JsonV::Array(ratings)),
            ("sectors"@, JsonV::Array(sectors)),
            ("symbol_types"@, kept_member(existing, "symbol_types"@, JsonV::Array(Seq::empty()))),
            ("types"@, kept_member(existing, "types"@, JsonV::Array(Seq::empty()))),
        ],
    )
}

/// The view of an asset catalog part.
pub open spec fn asset_catalog_view(a: AssetCatalog) -> (Seq<char>, Seq<(Seq<char>, EntryV)>, Seq<Seq<char>>) {
    (a.asset@, entries_view(a.fields@), texts(a.defaults@))
}

/// The view of parsed constants.
pub open spec fn constants_view(c: ParsedConstants) -> (
    Seq<JsonV>,
    Seq<JsonV>,
    Seq<JsonV>,
    Seq<JsonV>,
    Seq<JsonV>,
    Seq<JsonV>,
    Seq<JsonV>,
) {
    (
        jsons(c.index_symbols@),
        jsons(c.markets@),
        jsons(c.sectors@),
        jsons(c.countries@),
        jsons(c.industries@),
        jsons(c.exchanges@),
        jsons(c.ratings@),
    )
}

/// A copy of a list of JSON values, as an array.
fn json_array(v: &Vec<JsonValue>) -> (r: JsonValue)
    ensures
        r@ == JsonV::Array(jsons(v@)),
{
    let mut a: Vec<JsonValue> = Vec::new();
    let mut i: usize = 0;
    while i < v.len()
        invariant
            i <= v.len(),
            jsons(a@) == jsons(v@).take(i as int),
        decreases v.len() - i,
    {
        let ghost prev = jsons(a@);
        a.push(json_clone(&v[i]));
        assert(jsons(a@) =~= prev.push(v@[i as int]@));
        i = i + 1;
        assert(jsons(a@) =~= jsons(v@).take(i as int));
    }
    assert(jsons(v@).take(v@.len() as int) =~= jsons(v@));
    proof {
        lemma_array_view(a);
    }
    JsonValue::Array(a)
}

/// A JSON array of strings.
fn string_array(v: &Vec<String>) -> (r: JsonValue)
    ensures
        r@ == str_array_spec(texts(v@)),
{
    let mut a: Vec<JsonValue> = Vec::new();
    let mut i: usize = 0;
    while i < v.len()
        invariant
            i <= v.len(),
            jsons(a@) == texts(v@).map_values(|x: Seq<char>| JsonV::Str(x)).take(i as int),
        decreases v.len() - i,
    {
        let ghost prev = jsons(a@);
        a.push(JsonValue::Str(v[i].clone()));
        assert(jsons(a@) =~= prev.push(JsonV::Str(v@[i as int]@)));
        i = i + 1;
        assert(jsons(a@) =~= texts(v@).map_values(|x: Seq<char>| JsonV::Str(x)).take(i as int));
    }
    assert(texts(v@).map_values(|x: Seq<char>| JsonV::Str(x)).take(v@.len() as int) =~= texts(v@).map_values(
        |x: Seq<char>| JsonV::Str(x),
    ));
    proof {
        lemma_array_view(a);
    }
    JsonValue::Array(a)
}

/// Member `k` of the earlier document, or `d`.
fn kept(existing: &JsonValue, k: &str, d: JsonValue) -> (r: JsonValue)
    ensures
        r@ == kept_member(existing@, k@, d@),
{
    match existing.get(k) {
        Some(v) => json_clone(v),
        None => d,
    }
}

/// Builds the regenerated catalog document.
pub fn catalog_document(assets: &Vec<AssetCatalog>, existing: &JsonValue, constants: &ParsedConstants) -> (r:
    JsonValue)
    ensures
        r@ == catalog_document_spec(
            assets@.map_values(|a: AssetCatalog| asset_catalog_view(a)),
            existing@,
            constants_view(*constants),
        ),
{
    let ghost av = assets@.map_values(|a: AssetCatalog| asset_catalog_view(a));
    let mut catalog: Vec<(String, JsonValue)> = Vec::new();
    let mut defaults: Vec<(String, JsonValue)> = Vec::new();
    let mut i: usize = 0;
    while i < assets.len()
        invariant
            av == assets@.map_values(|a: AssetCatalog| asset_catalog_view(a)),
            i <= assets.len(),
            json_entries_view(catalog@) == av.map_values(
                |a: (Seq<char>, Seq<(Seq<char>, EntryV)>, Seq<Seq<char>>)| (a.0, fields_json_spec(a.1)),
            ).take(i as int),
            json_entries_view(defaults@) == av.map_values(
                |a: (Seq<char>, Seq<(Seq<char>, EntryV)>, Seq<Seq<char>>)| (a.0, str_array_spec(a.2)),
            ).take(i as int),
        decreases assets.len() - i,
    {
        let ghost pc = json_entries_view(catalog@);
        let ghost pd = json_entries_view(defaults@);
        let a = &assets[i];
        catalog.push((a.asset.clone(), fields_to_json(&a.fields)));
        defaults.push((a.asset.clone(), string_array(&a.defaults)));
        assert(json_entries_view(catalog@) =~= pc.push((av[i as int].0, fields_json_spec(av[i as int].1))));
        assert(json_entries_view(defaults@) =~= pd.push((av[i as int].0, str_array_spec(av[i as int].2))));
        i = i + 1;
        assert(json_entries_view(catalog@) =~= av.map_values(
            |a: (Seq<char>, Seq<(Seq<char>, EntryV)>, Seq<Seq<char>>)| (a.0, fields_json_spec(a.1)),
        ).take(i as int));
        assert(json_entries_view(defaults@) =~= av.map_values(
            |a: (Seq<char>, Seq<(Seq<char>, EntryV)>, Seq<Seq<char>>)| (a.0, str_array_spec(a.2)),
        ).take(i as int));
    }
    assert(av.map_values(
        |a: (Seq<char>, Seq<(Seq<char>, EntryV)>, Seq<Seq<char>>)| (a.0, fields_json_spec(a.1)),
    ).take(assets@.len() as int) =~= av.map_values(
        |a: (Seq<char>, Seq<(Seq<char>, EntryV)>, Seq<Seq<char>>)| (a.0, fields_json_spec(a.1)),
    ));
    assert(av.map_values(
        |a: (Seq<char>, Seq<(Seq<char>, EntryV)>, Seq<Seq<char>>)| (a.0, str_array_spec(a.2)),
    ).take(assets@.len() as int) =~= av.map_values(
        |a: (Seq<char>, Seq<(Seq<char>, EntryV)>, Seq<Seq<char>>)| (a.0, str_array_spec(a.2)),
    ));
    proof {
        lemma_object_view(catalog);
        lemma_object_view(defaults);
    }
    let markets = if constants.markets.len() == 0 {
        let empty: Vec<JsonValue> = Vec::new();
        proof {
            lemma_array_view(empty);
        }
        assert(jsons(empty@) =~= Seq::<JsonV>::empty());
        kept(existing, "markets", JsonValue::Array(empty))
    } else {
        json_array(&constants.markets)
    };
    let presets = kept(existing, "presets", JsonValue::empty_object());
    let e1: Vec<JsonValue> = Vec::new();
    let e2: Vec<JsonValue> = Vec::new();
    proof {
        lemma_array_view(e1);
        lemma_array_view(e2);
    }
    assert(jsons(e1@) =~= Seq::<JsonV>::empty());
    assert(jsons(e2@) =~= Seq::<JsonV>::empty());
    let symbol_types = kept(existing, "symbol_types", JsonValue::Array(e1));
    let types = kept(existing, "types", JsonValue::Array(e2));
    let mut out: Vec<(String, JsonValue)> = Vec::new();
    out.push((own("catalog"), JsonValue::Object(catalog)));
    out.push((own("countries"), json_array(&constants.countries)));
    out.push((own("defaults"), JsonValue::Object(defaults)));
    out.push((own("exchanges"), json_array(&constants.exchanges)));
    out.push((own("index_symbols"), json_array(&constants.index_symbols)));
    out.push((own("industries"), json_array(&constants.industries)));
    out.push((own("markets"), markets));
    out.push((own("presets"), presets));
    out.push((own("ratings"), json_array(&constants.ratings)));
    out.push((own("sectors"), json_array(&constants.sectors)));
    out.push((own("symbol_types"), symbol_types));
    out.push((own("types"), types));
    proof {
        lemma_object_view(out);
    }
    let r = JsonValue::Object(out);
    assert(json_entries_view(out@) =~= match catalog_document_spec(av, existing@, constants_view(*constants)) {
        JsonV::Object(es) => es,
        _ => Seq::empty(),
    });
    r
}


/// The field map parsed from a field module's text.
pub open spec fn parsed_fields_spec(text: Seq<char>) -> Seq<(Seq<char>, EntryV)> {
    if regex_compiles(field_line_pattern()) {
        fields_of_caps(regex_captures(field_line_pattern(), text))
    } else {
        Seq::empty()
    }
}

/// One asset's regenerated part from its field module's text: its segment,
/// the parsed field map, and the picked default names.
pub open spec fn asset_part_spec(asset: Seq<char>, text: Seq<char>, existing: JsonV) -> (
    Seq<char>,
    Seq<(Seq<char>, EntryV)>,
    Seq<Seq<char>>,
) {
    let fields = parsed_fields_spec(text);
    (asset, fields, pick_defaults_spec(parse_defaults_spec(text, asset), fields, existing, asset))
}

/// Parses one asset's field module and picks its defaults.
pub fn asset_part(asset: &str, text: &str, existing: &JsonValue) -> (r: AssetCatalog)
    ensures
        asset_catalog_view(r) == asset_part_spec(asset@, text@, existing@),
{
    let fields = parse_fields(text);
    let parsed = parse_defaults(text, asset);
    let defaults = pick_defaults(&parsed, &fields, existing, asset);
    AssetCatalog { asset: own(asset), fields, defaults }
}

/// The regenerated catalog document of `(asset, field module text)` sources.
pub open spec fn regen_document_spec(
    sources: Seq<(Seq<char>, Seq<char>)>,
    existing: JsonV,
    c: (Seq<JsonV>, Seq<JsonV>, Seq<JsonV>, Seq<JsonV>, Seq<JsonV>, Seq<JsonV>, Seq<JsonV>),
) -> JsonV {
    catalog_document_spec(
        sources.map_values(|s: (Seq<char>, Seq<char>)| asset_part_spec(s.0, s.1, existing)),
        existing,
        c,
    )
}

/// The regenerated document as a whole is fixed by the parsed inputs: for
/// each source asset, in order, `catalog` holds its parsed field map and
/// `defaults` its picked defaults (the module's declared defaults that are
/// fields; else the earlier document's that are; else the first 50 field
/// names in order); `presets`, `types` and `symbol_types` are the earlier
/// document's (else `{}`, `[]`, `[]`); the parsed constant lists are written
/// as they are.
pub proof fn lemma_regenerated_document(
    sources: Seq<(Seq<char>, Seq<char>)>,
    existing: JsonV,
    c: (Seq<JsonV>, Seq<JsonV>, Seq<JsonV>, Seq<JsonV>, Seq<JsonV>, Seq<JsonV>, Seq<JsonV>),
)
    ensures
        ({
            let doc = regen_document_spec(sources, existing, c);
            let parts = sources.map_values(|s: (Seq<char>, Seq<char>)| asset_part_spec(s.0, s.1, existing));
            &&& get_member(doc, "catalog"@) matches Some(JsonV::Object(cat))
            &&& cat.len() == sources.len()
            &&& forall|i: int| 0 <= i < sources.len() ==> #[trigger] cat[i] == (sources[i].0, fields_json_spec(parsed_fields_spec(sources[i].1)))
            &&& get_member(doc, "defaults"@) matches Some(JsonV::Object(defs))
            &&& defs.len() == sources.len()
            &&& forall|i: int| 0 <= i < sources.len() ==> #[trigger] defs[i] == (
                sources[i].0,
                str_array_spec(pick_defaults_spec(
                    parse_defaults_spec(sources[i].1, sources[i].0),
                    parsed_fields_spec(sources[i].1),
                    existing,
                    sources[i].0,
                )),
            )
            &&& get_member(doc, "presets"@) == Some(kept_member(existing, "presets"@, JsonV::Object(Seq::empty())))
            &&& get_member(doc, "types"@) == Some(kept_member(existing, "types"@, JsonV::Array(Seq::empty())))
            &&& get_member(doc, "symbol_types"@) == Some(kept_member(existing, "symbol_types"@, JsonV::Array(Seq::empty())))
            &&& get_member(doc, "index_symbols"@) == Some(JsonV::Array(c.0))
            &&& get_member(doc, "ratings"@) == Some(JsonV::Array(c.6))
        }),
{
    reveal_strlit("catalog");
    reveal_strlit("countries");
    reveal_strlit("defaults");
    reveal_strlit("exchanges");
    reveal_strlit("index_symbols");
    reveal_strlit("industries");
    reveal_strlit("markets");
    reveal_strlit("presets");
    reveal_strlit("ratings");
    reveal_strlit("sectors");
    reveal_strlit("symbol_types");
    reveal_strlit("types");
    let doc = regen_document_spec(sources, existing, c);
    let es = doc->Object_0;
    let keys = seq![
        "catalog"@, "countries"@, "defaults"@, "exchanges"@, "index_symbols"@, "industries"@,
        "markets"@, "presets"@, "ratings"@, "sectors"@, "symbol_types"@, "types"@,
    ];
    assert(es.len() == 12);
    assert forall|a: int, b: int| 0 <= a < b < 12 implies #[trigger] es[a].0 != #[trigger] es[b].0 by {
        assert(es[a].0 == keys[a] && es[b].0 == keys[b]);
        assert(keys[a][0] != keys[b][0] || keys[a].len() != keys[b].len() || keys[a][1] != keys[b][1] || keys[a][2] != keys[b][2] || keys[a][3] != keys[b][3] || keys[a][5] != keys[b][5]);
    }
    assert forall|x: int| 0 <= x < 12 implies #[trigger] get_member(doc, es[x].0) == Some(es[x].1) by {
        assert(first_key(es, es[x].0, x));
        let y = choose|y: int| first_key(es, es[x].0, y);
        crate::json::lemma_first_key_unique(es, es[x].0, x, y);
    }
    assert(get_member(doc, es[0].0) == Some(es[0].1));
    assert(get_member(doc, es[2].0) == Some(es[2].1));
    assert(get_member(doc, es[4].0) == Some(es[4].1));
    assert(get_member(doc, es[7].0) == Some(es[7].1));
    assert(get_member(doc, es[8].0) == Some(es[8].1));
    assert(get_member(doc, es[10].0) == Some(es[10].1));
    assert(get_member(doc, es[11].0) == Some(es[11].1));
}

} // verus!
