//! A JSON value the library owns, with a mathematical view.
//!
//! Filter right-hand sides, payload options, symbol blocks and scan responses
//! are JSON. The library keeps them as [`JsonValue`]: numbers are held as the
//! decimal text that a JSON encoder prints for them, objects as their entries
//! in order.
use vstd::prelude::*;
use crate::text::{dec_seq, dec_string, own, str_eq};

verus! {

/// A JSON document.
#[derive(Debug)]
pub enum JsonValue {
    /// `null`.
    Null,
    /// `true` / `false`.
    Bool(bool),
    /// A number, held as its JSON text (e.g. `"100"`, `"42000.5"`).
    Number(String),
    /// A string.
    Str(String),
    /// An array.
    Array(Vec<JsonValue>),
    /// An object: key/value entries, each key once.
    Object(Vec<(String, JsonValue)>),
}

/// The mathematical value of a [`JsonValue`].
pub enum JsonV {
    Null,
    Bool(bool),
    Number(Seq<char>),
    Str(Seq<char>),
    Array(Seq<JsonV>),
    Object(Seq<(Seq<char>, JsonV)>),
}

impl JsonValue {
    /// The mathematical value of this document.
    pub open spec fn jv(self) -> JsonV
        decreases self,
    {
        match self {
            JsonValue::Null => JsonV::Null,
            JsonValue::Bool(b) => JsonV::Bool(b),
            JsonValue::Number(n) => JsonV::Number(n@),
            JsonValue::Str(s) => JsonV::Str(s@),
            JsonValue::Array(a) => JsonV::Array(
                Seq::new(
                    a@.len(),
                    |i: int|
                        if 0 <= i < a@.len() {
                            a@[i].jv()
                        } else {
                            JsonV::Null
                        },
                ),
            ),
            JsonValue::Object(o) => JsonV::Object(
                Seq::new(
                    o@.len(),
                    |i: int|
                        if 0 <= i < o@.len() {
                            (o@[i].0@, o@[i].1.jv())
                        } else {
                            (Seq::<char>::empty(), JsonV::Null)
                        },
                ),
            ),
        }
    }
}

impl View for JsonValue {
    type V = JsonV;

    open spec fn view(&self) -> JsonV {
        self.jv()
    }
}

/// The views of a sequence of documents.
pub open spec fn jvs(s: Seq<JsonValue>) -> Seq<JsonV> {
    s.map_values(|v: JsonValue| v.jv())
}

/// The view of an object's entries.
pub open spec fn entries_view(s: Seq<(String, JsonValue)>) -> Seq<(Seq<char>, JsonV)> {
    s.map_values(|e: (String, JsonValue)| (e.0@, e.1.jv()))
}

/// `i` is the first entry whose key is `k`.
pub open spec fn first_key(s: Seq<(Seq<char>, JsonV)>, k: Seq<char>, i: int) -> bool {
    &&& 0 <= i < s.len()
    &&& s[i].0 == k
    &&& forall|j: int| 0 <= j < i ==> s[j].0 != k
}

/// Whether some entry has key `k`.
pub open spec fn has_key(s: Seq<(Seq<char>, JsonV)>, k: Seq<char>) -> bool {
    exists|i: int| 0 <= i < s.len() && s[i].0 == k
}

/// The value under key `k` (the first entry with that key).
pub open spec fn lookup_key(s: Seq<(Seq<char>, JsonV)>, k: Seq<char>) -> Option<JsonV> {
    if has_key(s, k) {
        Some(s[choose|i: int| first_key(s, k, i)].1)
    } else {
        None
    }
}

/// Map insertion on entries: replaces the value of the first entry with key
/// `k`, or appends a new entry.
pub open spec fn insert_key(s: Seq<(Seq<char>, JsonV)>, k: Seq<char>, v: JsonV) -> Seq<
    (Seq<char>, JsonV),
> {
    if has_key(s, k) {
        s.update(choose|i: int| first_key(s, k, i), (k, v))
    } else {
        s.push((k, v))
    }
}

/// A JSON number written as the decimal text of `n`.
pub open spec fn num_v(n: nat) -> JsonV {
    JsonV::Number(dec_seq(n))
}

pub proof fn lemma_first_key_unique(s: Seq<(Seq<char>, JsonV)>, k: Seq<char>, i: int, j: int)
    requires
        first_key(s, k, i),
        first_key(s, k, j),
    ensures
        i == j,
{
}

/// Reading a key right after inserting it gives the inserted value.
pub proof fn lemma_lookup_insert_same(es: Seq<(Seq<char>, JsonV)>, k: Seq<char>, v: JsonV)
    ensures
        lookup_key(insert_key(es, k, v), k) == Some(v),
{
    let r = insert_key(es, k, v);
    if has_key(es, k) {
        let i = choose|i: int| first_key(es, k, i);
        assert(first_key(es, k, i)) by {
            let w = choose|w: int| 0 <= w < es.len() && es[w].0 == k;
            lemma_first_key_exists(es, k, w);
        }
        assert(first_key(r, k, i));
        let j = choose|j: int| first_key(r, k, j);
        lemma_first_key_unique(r, k, i, j);
    } else {
        let n = es.len() as int;
        assert(first_key(r, k, n));
        let j = choose|j: int| first_key(r, k, j);
        lemma_first_key_unique(r, k, n, j);
    }
}

/// Inserting a key leaves every other key's value as it was.
pub proof fn lemma_lookup_insert_other(es: Seq<(Seq<char>, JsonV)>, k: Seq<char>, v: JsonV, k2: Seq<char>)
    requires
        k2 != k,
    ensures
        lookup_key(insert_key(es, k, v), k2) == lookup_key(es, k2),
{
    let r = insert_key(es, k, v);
    let mut iw: int = 0;
    if has_key(es, k) {
        let w = choose|w: int| 0 <= w < es.len() && es[w].0 == k;
        lemma_first_key_exists(es, k, w);
        iw = choose|i: int| first_key(es, k, i);
    }
    assert(has_key(r, k2) <==> has_key(es, k2)) by {
        if has_key(es, k2) {
            let w = choose|w: int| 0 <= w < es.len() && es[w].0 == k2;
            assert(r[w].0 == k2);
        }
        if has_key(r, k2) {
            let w = choose|w: int| 0 <= w < r.len() && r[w].0 == k2;
            assert(es[w].0 == k2);
        }
    }
    if has_key(es, k2) {
        let w = choose|w: int| 0 <= w < es.len() && es[w].0 == k2;
        lemma_first_key_exists(es, k2, w);
        let i = choose|i: int| first_key(es, k2, i);
        assert(first_key(r, k2, i));
        let j = choose|j: int| first_key(r, k2, j);
        lemma_first_key_unique(r, k2, i, j);
        assert(r[i] == es[i]);
    }
}

/// A key that occurs has a first occurrence.
pub proof fn lemma_first_key_exists(es: Seq<(Seq<char>, JsonV)>, k: Seq<char>, w: int)
    requires
        0 <= w < es.len(),
        es[w].0 == k,
    ensures
        exists|i: int| first_key(es, k, i),
    decreases w,
{
    if exists|j: int| 0 <= j < w && es[j].0 == k {
        let j = choose|j: int| 0 <= j < w && es[j].0 == k;
        lemma_first_key_exists(es, k, j);
    } else {
        assert(first_key(es, k, w));
    }
}

/// Element-wise view of an array.
pub proof fn lemma_array_view(a: Vec<JsonValue>)
    ensures
        JsonValue::Array(a).jv() == JsonV::Array(jvs(a@)),
{
    let s = JsonValue::Array(a).jv()->Array_0;
    assert(s =~= jvs(a@));
}

/// Entry-wise view of an object.
pub proof fn lemma_object_view(o: Vec<(String, JsonValue)>)
    ensures
        JsonValue::Object(o).jv() == JsonV::Object(entries_view(o@)),
{
    let s = JsonValue::Object(o).jv()->Object_0;
    assert(s =~= entries_view(o@));
}

impl JsonValue {
    /// A JSON string holding `s`.
    pub fn string(s: &str) -> (r: JsonValue)
        ensures
            r@ == JsonV::Str(s@),
    {
        JsonValue::Str(own(s))
    }

    /// A JSON number holding `n`.
    pub fn number(n: u64) -> (r: JsonValue)
        ensures
            r@ == num_v(n as nat),
    {
        JsonValue::Number(dec_string(n))
    }

    /// An empty JSON object.
    pub fn empty_object() -> (r: JsonValue)
        ensures
            r@ == JsonV::Object(Seq::empty()),
    {
        let v: Vec<(String, JsonValue)> = Vec::new();
        proof {
            lemma_object_view(v);
            assert(entries_view(v@) =~= Seq::empty());
        }
        JsonValue::Object(v)
    }

    /// The value under `key` when this is an object holding it (`Value::get`).
    pub fn get(&self, key: &str) -> (r: Option<&JsonValue>)
        ensures
            match self@ {
                JsonV::Object(es) => match lookup_key(es, key@) {
                    Some(v) => r.is_some() && r.unwrap()@ == v,
                    None => r.is_none(),
                },
                _ => r.is_none(),
            },
    {
        match self {
            JsonValue::Object(o) => {
                proof {
                    lemma_object_view(*o);
                }
                match find_entry(o, key) {
                    Some(i) => {
                        proof {
                            let es = entries_view(o@);
                            assert(first_key(es, key@, i as int));
                            let c = choose|c: int| first_key(es, key@, c);
                            lemma_first_key_unique(es, key@, i as int, c);
                        }
                        Some(&o[i].1)
                    },
                    None => None,
                }
            },
            _ => None,
        }
    }

    /// The elements when this is an array (`Value::as_array`).
    pub fn as_array(&self) -> (r: Option<&Vec<JsonValue>>)
        ensures
            match self@ {
                JsonV::Array(items) => r.is_some() && jvs(r.unwrap()@) == items,
                _ => r.is_none(),
            },
    {
        match self {
            JsonValue::Array(a) => {
                proof {
                    lemma_array_view(*a);
                }
                Some(a)
            },
            _ => None,
        }
    }

    /// The text when this is a string (`Value::as_str`).
    pub fn as_str(&self) -> (r: Option<&str>)
        ensures
            match self@ {
                JsonV::Str(s) => r.is_some() && r.unwrap()@ == s,
                _ => r.is_none(),
            },
    {
        match self {
            JsonValue::Str(s) => Some(s.as_str()),
            _ => None,
        }
    }
}

/// The first entry of `o` whose key is `key`.
pub fn find_entry(o: &Vec<(String, JsonValue)>, key: &str) -> (r: Option<usize>)
    ensures
        match r {
            Some(i) => first_key(entries_view(o@), key@, i as int),
            None => !has_key(entries_view(o@), key@),
        },
{
    let ghost es = entries_view(o@);
    let mut i: usize = 0;
    while i < o.len()
        invariant
            es == entries_view(o@),
            i <= o.len(),
            forall|j: int| 0 <= j < i ==> es[j].0 != key@,
        decreases o.len() - i,
    {
        if str_eq(o[i].0.as_str(), key) {
            return Some(i);
        }
        i = i + 1;
    }
    None
}

/// Map insertion into object entries (`Map::insert`): replaces the value of an
/// existing key in place, or appends the entry.
pub fn insert_entry(o: &mut Vec<(String, JsonValue)>, key: String, value: JsonValue)
    ensures
        entries_view(final(o)@) == insert_key(entries_view(old(o)@), key@, value@),
{
    let ghost es = entries_view(o@);
    match find_entry(o, key.as_str()) {
        Some(i) => {
            proof {
                let c = choose|c: int| first_key(es, key@, c);
                lemma_first_key_unique(es, key@, i as int, c);
            }
            let ghost kv = key@;
            let ghost vv = value@;
            o.set(i, (key, value));
            assert(entries_view(o@) =~= es.update(i as int, (kv, vv)));
        },
        None => {
            let ghost kv = key@;
            let ghost vv = value@;
            o.push((key, value));
            assert(entries_view(o@) =~= es.push((kv, vv)));
        },
    }
}

/// A deep copy of a document.
#[verifier::loop_isolation(false)]
pub fn json_clone(v: &JsonValue) -> (r: JsonValue)
    ensures
        r@ == v@,
    decreases v,
{
    match v {
        JsonValue::Null => JsonValue::Null,
        JsonValue::Bool(b) => JsonValue::Bool(*b),
        JsonValue::Number(n) => JsonValue::Number(n.clone()),
        JsonValue::Str(s) => JsonValue::Str(s.clone()),
        JsonValue::Array(a) => {
            let mut out: Vec<JsonValue> = Vec::new();
            let mut i: usize = 0;
            while i < a.len()
                invariant
                    i <= a.len(),
                    out@.len() == i,
                    forall|j: int| 0 <= j < i ==> #[trigger] out@[j].jv() == a@[j].jv(),
                decreases a.len() - i,
            {
                assert(decreases_to!(*v => *a));
                assert(decreases_to!(*a => a@));
                assert(decreases_to!(a@ => a@[i as int]));
                let c = json_clone(&a[i]);
                out.push(c);
                i = i + 1;
            }
            proof {
                lemma_array_view(*a);
                lemma_array_view(out);
                assert(jvs(out@) =~= jvs(a@));
            }
            JsonValue::Array(out)
        },
        JsonValue::Object(o) => {
            let mut out: Vec<(String, JsonValue)> = Vec::new();
            let mut i: usize = 0;
            while i < o.len()
                invariant
                    i <= o.len(),
                    out@.len() == i,
                    forall|j: int|
                        #![trigger out@[j]]
                        0 <= j < i ==> out@[j].0@ == o@[j].0@ && out@[j].1.jv() == o@[j].1.jv(),
                decreases o.len() - i,
            {
                assert(decreases_to!(*v => *o));
                assert(decreases_to!(*o => o@));
                assert(decreases_to!(o@ => o@[i as int]));
                assert(decreases_to!(o@[i as int] => o@[i as int].1));
                let c = json_clone(&o[i].1);
                out.push((o[i].0.clone(), c));
                i = i + 1;
            }
            proof {
                lemma_object_view(*o);
                lemma_object_view(out);
                assert(entries_view(out@) =~= entries_view(o@));
            }
            JsonValue::Object(out)
        },
    }
}

impl Clone for JsonValue {
    fn clone(&self) -> (r: Self)
        ensures
            r@ == self@,
    {
        json_clone(self)
    }
}

/// JSON equality as `serde_json::Value` has it: same kind and equal
/// contents, where two objects are equal when they have the same keys and
/// equal values under each key, whatever the order of their entries (the
/// first entry of a key is its value).
pub open spec fn json_same(a: JsonV, b: JsonV) -> bool
    decreases a, 1nat, 0nat,
{
    match a {
        JsonV::Array(x) => match b {
            JsonV::Array(y) => x.len() == y.len() && items_same(a, b, x.len()),
            _ => false,
        },
        JsonV::Object(x) => match b {
            JsonV::Object(y) => (forall|k: Seq<char>| #[trigger] has_key(x, k) <==> has_key(y, k))
                && members_same(a, b, x.len()),
            _ => false,
        },
        _ => a == b,
    }
}

/// The first `n` items of two arrays are pairwise equal.
pub open spec fn items_same(a: JsonV, b: JsonV, n: nat) -> bool
    decreases a, 0nat, n,
{
    match a {
        JsonV::Array(x) => match b {
            JsonV::Array(y) => if n == 0 || n > x.len() || n > y.len() {
                n == 0
            } else {
                items_same(a, b, (n - 1) as nat) && json_same(x[n - 1], y[n - 1])
            },
            _ => false,
        },
        _ => false,
    }
}

/// The value under key `k` in entries `y` (its first entry).
pub open spec fn value_of(y: Seq<(Seq<char>, JsonV)>, k: Seq<char>) -> JsonV {
    y[choose|j: int| first_key(y, k, j)].1
}

/// Each of the first `n` entries of object `a` that is its key's first entry
/// has a value equal to that key's value in object `b`.
pub open spec fn members_same(a: JsonV, b: JsonV, n: nat) -> bool
    decreases a, 0nat, n,
{
    match a {
        JsonV::Object(x) => match b {
            JsonV::Object(y) => if n == 0 || n > x.len() {
                n == 0
            } else {
                let i = n - 1;
                members_same(a, b, (n - 1) as nat) && (first_key(x, x[i].0, i) && has_key(y, x[i].0)
                    ==> json_same(x[i].1, value_of(y, x[i].0)))
            },
            _ => false,
        },
        _ => false,
    }
}

/// Objects whose key sets differ are not equal.
proof fn lemma_same_keys_neg(x: Seq<(Seq<char>, JsonV)>, y: Seq<(Seq<char>, JsonV)>, k: Seq<char>)
    requires
        has_key(x, k) != has_key(y, k),
    ensures
        !json_same(JsonV::Object(x), JsonV::Object(y)),
{
}

/// `items_same` is item-wise equality of the first `n` items.
proof fn lemma_items_same(x: Seq<JsonV>, y: Seq<JsonV>, n: nat)
    requires
        n <= x.len(),
        n <= y.len(),
    ensures
        items_same(JsonV::Array(x), JsonV::Array(y), n) <==> forall|i: int| 0 <= i < n ==> json_same(#[trigger] x[i], y[i]),
    decreases n,
{
    if n > 0 {
        lemma_items_same(x, y, (n - 1) as nat);
    }
}

/// `members_same` is member-wise equality over the first `n` entries.
proof fn lemma_members_same(x: Seq<(Seq<char>, JsonV)>, y: Seq<(Seq<char>, JsonV)>, n: nat)
    requires
        n <= x.len(),
    ensures
        members_same(JsonV::Object(x), JsonV::Object(y), n) <==> forall|i: int|
            0 <= i < n && first_key(x, #[trigger] x[i].0, i) && has_key(y, x[i].0) ==> json_same(x[i].1, value_of(y, x[i].0)),
    decreases n,
{
    if n > 0 {
        lemma_members_same(x, y, (n - 1) as nat);
    }
}

/// The value under a key is the value of its first entry.
proof fn lemma_value_of(y: Seq<(Seq<char>, JsonV)>, k: Seq<char>, j: int)
    requires
        first_key(y, k, j),
    ensures
        value_of(y, k) == y[j].1,
{
    let c = choose|c: int| first_key(y, k, c);
    lemma_first_key_unique(y, k, j, c);
}

/// Every document is equal to itself.
pub proof fn lemma_json_same_refl(a: JsonV)
    ensures
        json_same(a, a),
    decreases a,
{
    match a {
        JsonV::Array(x) => {
            assert forall|i: int| 0 <= i < x.len() implies json_same(#[trigger] x[i], x[i]) by {
                lemma_json_same_refl(x[i]);
            }
            lemma_items_same(x, x, x.len());
        },
        JsonV::Object(x) => {
            assert forall|i: int|
                0 <= i < x.len() && first_key(x, #[trigger] x[i].0, i) && has_key(x, x[i].0) implies json_same(
                x[i].1,
                value_of(x, x[i].0),
            ) by {
                lemma_value_of(x, x[i].0, i);
                lemma_json_same_refl(x[i].1);
            }
            lemma_members_same(x, x, x.len());
        },
        _ => {},
    }
}

/// JSON equality (`Value == Value`), see [`json_same`].
#[verifier::loop_isolation(false)]
pub fn json_eq(a: &JsonValue, b: &JsonValue) -> (r: bool)
    ensures
        r == json_same(a@, b@),
    decreases a,
{
    match (a, b) {
        (JsonValue::Null, JsonValue::Null) => true,
        (JsonValue::Bool(x), JsonValue::Bool(y)) => *x == *y,
        (JsonValue::Number(x), JsonValue::Number(y)) => str_eq(x.as_str(), y.as_str()),
        (JsonValue::Str(x), JsonValue::Str(y)) => str_eq(x.as_str(), y.as_str()),
        (JsonValue::Array(x), JsonValue::Array(y)) => {
            proof {
                lemma_array_view(*x);
                lemma_array_view(*y);
            }
            let ghost xs = jvs(x@);
            let ghost ys = jvs(y@);
            assert(a@ == JsonV::Array(xs) && b@ == JsonV::Array(ys));
            if x.len() != y.len() {
                assert(xs.len() != ys.len());
                return false;
            }
            let mut i: usize = 0;
            while i < x.len()
                invariant
                    x.len() == y.len(),
                    xs == jvs(x@),
                    ys == jvs(y@),
                    i <= x.len(),
                    forall|j: int| 0 <= j < i ==> json_same(#[trigger] xs[j], ys[j]),
                decreases x.len() - i,
            {
                assert(decreases_to!(*a => *x));
                assert(decreases_to!(*x => x@));
                assert(decreases_to!(x@ => x@[i as int]));
                if !json_eq(&x[i], &y[i]) {
                    proof {
                        lemma_items_same(xs, ys, xs.len());
                        assert(!json_same(xs[i as int], ys[i as int]));
                    }
                    return false;
                }
                i = i + 1;
            }
            proof {
                lemma_items_same(xs, ys, xs.len());
            }
            true
        },
        (JsonValue::Object(x), JsonValue::Object(y)) => {
            proof {
                lemma_object_view(*x);
                lemma_object_view(*y);
            }
            let ghost xs = entries_view(x@);
            let ghost ys = entries_view(y@);
            assert(a@ == JsonV::Object(xs) && b@ == JsonV::Object(ys));
            let mut i: usize = 0;
            while i < x.len()
                invariant
                    xs == entries_view(x@),
                    ys == entries_view(y@),
                    i <= x.len(),
                    forall|p: int| 0 <= p < i ==> has_key(ys, #[trigger] xs[p].0),
                    forall|p: int|
                        0 <= p < i && first_key(xs, #[trigger] xs[p].0, p) && has_key(ys, xs[p].0) ==> json_same(
                            xs[p].1,
                            value_of(ys, xs[p].0),
                        ),
                decreases x.len() - i,
            {
                let first = find_entry(x, x[i].0.as_str());
                match find_entry(y, x[i].0.as_str()) {
                    None => {
                        proof {
                            assert(has_key(xs, xs[i as int].0));
                            lemma_same_keys_neg(xs, ys, xs[i as int].0);
                        }
                        return false;
                    },
                    Some(j) => {
                        proof {
                            lemma_value_of(ys, xs[i as int].0, j as int);
                        }
                        if first == Some(i) {
                            assert(decreases_to!(*a => *x));
                            assert(decreases_to!(*x => x@));
                            assert(decreases_to!(x@ => x@[i as int]));
                            assert(decreases_to!(x@[i as int] => x@[i as int].1));
                            if !json_eq(&x[i].1, &y[j].1) {
                                proof {
                                    assert(first_key(xs, xs[i as int].0, i as int));
                                    lemma_members_same(xs, ys, xs.len());
                                }
                                return false;
                            }
                        } else {
                            proof {
                                if first_key(xs, xs[i as int].0, i as int) {
                                    let f = first->Some_0;
                                    lemma_first_key_unique(xs, xs[i as int].0, f as int, i as int);
                                }
                            }
                        }
                    },
                }
                i = i + 1;
            }
            let mut j: usize = 0;
            while j < y.len()
                invariant
                    xs == entries_view(x@),
                    ys == entries_view(y@),
                    j <= y.len(),
                    forall|p: int| 0 <= p < j ==> has_key(xs, #[trigger] ys[p].0),
                decreases y.len() - j,
            {
                if find_entry(x, y[j].0.as_str()).is_none() {
                    proof {
                        assert(has_key(ys, ys[j as int].0));
                        lemma_same_keys_neg(xs, ys, ys[j as int].0);
                    }
                    return false;
                }
                j = j + 1;
            }
            proof {
                assert forall|k: Seq<char>| #[trigger] has_key(xs, k) <==> has_key(ys, k) by {
                    if has_key(xs, k) {
                        let p = choose|p: int| 0 <= p < xs.len() && xs[p].0 == k;
                        assert(has_key(ys, xs[p].0));
                    }
                    if has_key(ys, k) {
                        let p = choose|p: int| 0 <= p < ys.len() && ys[p].0 == k;
                        assert(has_key(xs, ys[p].0));
                    }
                }
                lemma_members_same(xs, ys, xs.len());
            }
            true
        },
        _ => false,
    }
}

/// `serde_json`'s document type, carried through the conversions below.
#[verifier::external_type_specification]
#[verifier::external_body]
pub struct ExSerdeJsonValue(serde_json::Value);

/// Moves a `serde_json` document into a [`JsonValue`], variant by variant;
/// a number becomes the text `serde_json` prints for it, an object its
/// entries in the order `serde_json::Map` holds them.
///
/// It states nothing: it only converts inside [`parse_json_text`], whose
/// result is named.
#[verifier::external_body]
fn json_from_serde(v: serde_json::Value) -> JsonValue {
    match v {
        serde_json::Value::Null => JsonValue::Null,
        serde_json::Value::Bool(b) => JsonValue::Bool(b),
        serde_json::Value::Number(n) => JsonValue::Number(n.to_string()),
        serde_json::Value::String(s) => JsonValue::Str(s),
        serde_json::Value::Array(a) => JsonValue::Array(a.into_iter().map(json_from_serde).collect()),
        serde_json::Value::Object(o) => JsonValue::Object(
            o.into_iter().map(|(k, x)| (k, json_from_serde(x))).collect(),
        ),
    }
}

/// Copies a [`JsonValue`] into a `serde_json` document, variant by variant;
/// a number text that `serde_json` does not read as a number becomes `null`.
///
/// It states nothing: it only converts inside [`pretty_json`] and
/// [`compact_json`], whose results are named.
#[verifier::external_body]
fn json_to_serde(v: &JsonValue) -> serde_json::Value {
    match v {
        JsonValue::Null => serde_json::Value::Null,
        JsonValue::Bool(b) => serde_json::Value::Bool(*b),
        JsonValue::Number(n) => serde_json::from_str::<serde_json::Number>(n)
            .map_or(serde_json::Value::Null, serde_json::Value::Number),
        JsonValue::Str(s) => serde_json::Value::String(s.clone()),
        JsonValue::Array(a) => serde_json::Value::Array(a.iter().map(json_to_serde).collect()),
        JsonValue::Object(o) => serde_json::Value::Object(
            o.iter().map(|(k, x)| (k.clone(), json_to_serde(x))).collect(),
        ),
    }
}

/// What `serde_json::from_str::<serde_json::Value>` makes of a text: the
/// document, or the message of its error.
pub uninterp spec fn json_text_parse(text: Seq<char>) -> Result<JsonV, Seq<char>>;

/// Reads a JSON text with `serde_json::from_str::<serde_json::Value>`.
///
/// The result is named, not described: it is [`json_text_parse`] of the text
/// (the document in the library's form, or the `Display` text of the
/// `serde_json::Error`).
#[verifier::external_body]
pub(crate) fn parse_json_text(text: &str) -> (r: Result<JsonValue, String>)
    ensures
        match r {
            Ok(v) => json_text_parse(text@) == Ok::<JsonV, Seq<char>>(v@),
            Err(m) => json_text_parse(text@) == Err::<JsonV, Seq<char>>(m@),
        },
{
    match serde_json::from_str::<serde_json::Value>(text) {
        Ok(v) => Ok(json_from_serde(v)),
        Err(e) => Err(e.to_string()),
    }
}

/// What `serde_json::to_string_pretty` prints for a document (or the message
/// of its error).
pub uninterp spec fn json_pretty_text(v: JsonV) -> Result<Seq<char>, Seq<char>>;

/// Prints a document with `serde_json::to_string_pretty`.
///
/// The result is named, not described: it is [`json_pretty_text`] of the
/// document.
#[verifier::external_body]
pub(crate) fn pretty_json(v: &JsonValue) -> (r: Result<String, String>)
    ensures
        match r {
            Ok(t) => json_pretty_text(v@) == Ok::<Seq<char>, Seq<char>>(t@),
            Err(m) => json_pretty_text(v@) == Err::<Seq<char>, Seq<char>>(m@),
        },
{
    serde_json::to_string_pretty(&json_to_serde(v)).map_err(|e| e.to_string())
}

/// What `serde_json::Value`'s `Display` prints for a document (compact JSON).
pub uninterp spec fn json_compact_text(v: JsonV) -> Seq<char>;

/// Prints a document compactly, as `serde_json::Value`'s `Display` does.
///
/// The result is named, not described: it is [`json_compact_text`] of the
/// document.
#[verifier::external_body]
pub(crate) fn compact_json(v: &JsonValue) -> (r: String)
    ensures
        r@ == json_compact_text(v@),
{
    json_to_serde(v).to_string()
}

} // verus!
