//! Field definitions, presets and catalog metadata.
//!
//! Each requestable column is a [`FieldDef`]. The catalog of fields, defaults,
//! presets and named constants (markets, sectors, …) is a [`FieldsCatalog`]
//! value; the lookups below are functions of it.
use vstd::prelude::*;
use crate::error::TvscreenerError;
use crate::sort::{lemma_lt_trichotomy, seq_lt, sort_strings, sorted, strs_view};
use crate::text::{
    cat, cat3, chars_of, const_form, contains_chars, contains_seq, eq_ignore_case, first_pos,
    lower_seq, own, split_once_char, starts_with, str_eq, to_const_form, to_lower, trim, trim_seq,
};

verus! {

/// Asset class key in the catalog (`crypto`, `stock`, …).
#[derive(Debug, Clone, Copy, PartialEq, Eq, Hash, Structural)]
pub enum Asset {
    /// Cryptocurrency screener fields.
    Crypto,
    /// Global stock screener fields.
    Stock,
    /// Forex pair fields.
    Forex,
    /// Bond fields.
    Bond,
    /// Futures contract fields.
    Futures,
    /// CEX/DEX coin fields.
    Coin,
}

/// The catalog segment of an asset class.
pub open spec fn asset_str(a: Asset) -> Seq<char> {
    match a {
        Asset::Crypto => "crypto"@,
        Asset::Stock => "stock"@,
        Asset::Forex => "forex"@,
        Asset::Bond => "bond"@,
        Asset::Futures => "futures"@,
        Asset::Coin => "coin"@,
    }
}

/// The asset class whose catalog segment is `s`, if any.
pub open spec fn asset_parse(s: Seq<char>) -> Option<Asset> {
    if s == "crypto"@ {
        Some(Asset::Crypto)
    } else if s == "stock"@ {
        Some(Asset::Stock)
    } else if s == "forex"@ {
        Some(Asset::Forex)
    } else if s == "bond"@ {
        Some(Asset::Bond)
    } else if s == "futures"@ {
        Some(Asset::Futures)
    } else if s == "coin"@ {
        Some(Asset::Coin)
    } else {
        None
    }
}

impl Asset {
    /// Wire/catalog segment for this asset class.
    pub fn as_str(self) -> (r: &'static str)
        ensures
            r@ == asset_str(self),
    {
        match self {
            Asset::Crypto => "crypto",
            Asset::Stock => "stock",
            Asset::Forex => "forex",
            Asset::Bond => "bond",
            Asset::Futures => "futures",
            Asset::Coin => "coin",
        }
    }

    /// Parses an asset segment from catalog or preset references.
    pub fn parse(s: &str) -> (r: Option<Asset>)
        ensures
            r == asset_parse(s@),
    {
        if str_eq(s, "crypto") {
            Some(Asset::Crypto)
        } else if str_eq(s, "stock") {
            Some(Asset::Stock)
        } else if str_eq(s, "forex") {
            Some(Asset::Forex)
        } else if str_eq(s, "bond") {
            Some(Asset::Bond)
        } else if str_eq(s, "futures") {
            Some(Asset::Futures)
        } else if str_eq(s, "coin") {
            Some(Asset::Coin)
        } else {
            None
        }
    }
}

/// Parsing the segment of an asset gives the asset back, and a segment
/// parses only when it is the segment of the asset it gives.
pub proof fn lemma_asset_roundtrip(a: Asset, s: Seq<char>)
    ensures
        asset_parse(asset_str(a)) == Some(a),
        asset_parse(s) matches Some(b) ==> s == asset_str(b),
{
    reveal_strlit("crypto");
    reveal_strlit("stock");
    reveal_strlit("forex");
    reveal_strlit("bond");
    reveal_strlit("futures");
    reveal_strlit("coin");
    assert("crypto"@.len() == 6);
    assert("stock"@.len() == 5);
    assert("forex"@.len() == 5);
    assert("bond"@.len() == 4);
    assert("futures"@.len() == 7);
    assert("coin"@.len() == 4);
    assert("crypto"@ != "stock"@);
    assert("crypto"@ != "forex"@);
    assert("crypto"@ != "bond"@);
    assert("crypto"@ != "futures"@);
    assert("crypto"@ != "coin"@);
    assert("stock"@[0] != "forex"@[0]);
    assert("stock"@ != "forex"@);
    assert("stock"@ != "bond"@);
    assert("stock"@ != "futures"@);
    assert("stock"@ != "coin"@);
    assert("forex"@ != "bond"@);
    assert("forex"@ != "futures"@);
    assert("forex"@ != "coin"@);
    assert("bond"@ != "futures"@);
    assert("bond"@[0] != "coin"@[0]);
    assert("bond"@ != "coin"@);
    assert("futures"@ != "coin"@);
}

/// `TradingView` market filter.
#[derive(Debug, PartialEq, Eq)]
pub struct Market {
    /// Catalog constant name (e.g. `"AMERICA"`).
    pub const_name: String,
    /// Wire value sent in scan payloads (e.g. `"america"`).
    pub value: String,
}

/// Named catalog constant with a single wire/display string (sector, country, …).
#[derive(Debug, PartialEq, Eq)]
pub struct NamedValue {
    /// Catalog constant name (e.g. `"TECHNOLOGY_SERVICES"`).
    pub const_name: String,
    /// Wire / display value (e.g. `"Technology Services"`).
    pub value: String,
}

/// Stock `type` filter value.
#[derive(Debug, PartialEq, Eq)]
pub struct TypeFilter {
    /// Catalog constant name (e.g. `"STOCK"`).
    pub const_name: String,
    /// Wire value (e.g. `"stock"`).
    pub value: String,
}

/// Stock `subtype` filter value.
#[derive(Debug, PartialEq, Eq)]
pub struct SymbolType {
    /// Catalog constant name (e.g. `"COMMON_STOCK"`).
    pub const_name: String,
    /// Wire values merged into `in_range` filters.
    pub values: Vec<String>,
}

/// One index filter entry.
#[derive(Debug, PartialEq, Eq)]
pub struct IndexSymbolDef {
    /// Catalog constant name (e.g. `"SP500"`).
    pub const_name: String,
    /// Catalog symbol (e.g. `"SP;SPX"`); payload uses [`to_symbolset_wire`].
    pub value: String,
    /// Human label (e.g. `"S&P 500"`).
    pub label: String,
}

/// One requestable scanner column: `(label, field_name, format, interval, historical)`.
#[derive(Debug, PartialEq, Eq)]
pub struct FieldDef {
    /// Human-readable column title.
    pub label: String,
    /// `TradingView` technical name used in payloads and filters.
    pub field_name: String,
    /// Optional display/format hint.
    pub format: Option<String>,
    /// When true, the field supports time-interval variants.
    pub interval: bool,
    /// When true, historical lookback columns may be requested.
    pub historical: bool,
}

/// Copies an optional string.
pub fn clone_opt_string(o: &Option<String>) -> (r: Option<String>)
    ensures
        r == *o,
{
    match o {
        Some(s) => Some(s.clone()),
        None => None,
    }
}

/// Copies a vector of strings.
pub fn clone_strings(v: &Vec<String>) -> (r: Vec<String>)
    ensures
        r@ == v@,
{
    let mut r: Vec<String> = Vec::new();
    let mut i: usize = 0;
    while i < v.len()
        invariant
            i <= v.len(),
            r@ == v@.take(i as int),
        decreases v.len() - i,
    {
        r.push(v[i].clone());
        i = i + 1;
        assert(r@ =~= v@.take(i as int));
    }
    assert(v@.take(v@.len() as int) =~= v@);
    r
}

impl Clone for Market {
    fn clone(&self) -> (r: Self)
        ensures
            r == *self,
    {
        Market { const_name: self.const_name.clone(), value: self.value.clone() }
    }
}

impl Clone for NamedValue {
    fn clone(&self) -> (r: Self)
        ensures
            r == *self,
    {
        NamedValue { const_name: self.const_name.clone(), value: self.value.clone() }
    }
}

impl Clone for TypeFilter {
    fn clone(&self) -> (r: Self)
        ensures
            r == *self,
    {
        TypeFilter { const_name: self.const_name.clone(), value: self.value.clone() }
    }
}

impl Clone for SymbolType {
    fn clone(&self) -> (r: Self)
        ensures
            r.const_name == self.const_name,
            r.values@ == self.values@,
    {
        SymbolType { const_name: self.const_name.clone(), values: clone_strings(&self.values) }
    }
}

impl Clone for IndexSymbolDef {
    fn clone(&self) -> (r: Self)
        ensures
            r == *self,
    {
        IndexSymbolDef {
            const_name: self.const_name.clone(),
            value: self.value.clone(),
            label: self.label.clone(),
        }
    }
}

impl Clone for FieldDef {
    fn clone(&self) -> (r: Self)
        ensures
            r == *self,
    {
        FieldDef {
            label: self.label.clone(),
            field_name: self.field_name.clone(),
            format: clone_opt_string(&self.format),
            interval: self.interval,
            historical: self.historical,
        }
    }
}

/// Whether a field uses the recommendation format.
pub open spec fn has_rec_spec(f: FieldDef) -> bool {
    f.format matches Some(s) && s@ == "recommendation"@
}

impl FieldDef {
    /// Creates a field with `format` unset and `interval` / `historical` false.
    pub fn new(label: &str, field_name: &str) -> (r: FieldDef)
        ensures
            r.label@ == label@,
            r.field_name@ == field_name@,
            r.format.is_none(),
            !r.interval,
            !r.historical,
    {
        FieldDef {
            label: own(label),
            field_name: own(field_name),
            format: None,
            interval: false,
            historical: false,
        }
    }

    /// Whether this field uses recommendation format (`format == "recommendation"`).
    pub fn has_recommendation(&self) -> (r: bool)
        ensures
            r == has_rec_spec(*self),
    {
        match &self.format {
            Some(f) => str_eq(f.as_str(), "recommendation"),
            None => false,
        }
    }
}

/// Items that carry a catalog key (a constant name, or the first element of a pair).
pub trait Keyed {
    /// The key.
    spec fn key_of(&self) -> Seq<char>;

    /// The key, executable.
    fn key(&self) -> (r: &str)
        ensures
            r@ == self.key_of();
}

impl Keyed for Market {
    open spec fn key_of(&self) -> Seq<char> {
        self.const_name@
    }

    fn key(&self) -> (r: &str) {
        self.const_name.as_str()
    }
}

impl Keyed for NamedValue {
    open spec fn key_of(&self) -> Seq<char> {
        self.const_name@
    }

    fn key(&self) -> (r: &str) {
        self.const_name.as_str()
    }
}

impl Keyed for TypeFilter {
    open spec fn key_of(&self) -> Seq<char> {
        self.const_name@
    }

    fn key(&self) -> (r: &str) {
        self.const_name.as_str()
    }
}

impl Keyed for SymbolType {
    open spec fn key_of(&self) -> Seq<char> {
        self.const_name@
    }

    fn key(&self) -> (r: &str) {
        self.const_name.as_str()
    }
}

impl Keyed for IndexSymbolDef {
    open spec fn key_of(&self) -> Seq<char> {
        self.const_name@
    }

    fn key(&self) -> (r: &str) {
        self.const_name.as_str()
    }
}

impl<V> Keyed for (String, V) {
    open spec fn key_of(&self) -> Seq<char> {
        self.0@
    }

    fn key(&self) -> (r: &str) {
        self.0.as_str()
    }
}

/// `i` is the first item whose key is `k`.
pub open spec fn first_keyed<T: Keyed>(s: Seq<T>, k: Seq<char>, i: int) -> bool {
    &&& 0 <= i < s.len()
    &&& s[i].key_of() == k
    &&& forall|j: int| 0 <= j < i ==> s[j].key_of() != k
}

/// Whether some item has key `k`.
pub open spec fn has_keyed<T: Keyed>(s: Seq<T>, k: Seq<char>) -> bool {
    exists|i: int| 0 <= i < s.len() && s[i].key_of() == k
}

/// The first item whose key is `k`, if any.
pub open spec fn find_keyed<T: Keyed>(s: Seq<T>, k: Seq<char>) -> Option<T> {
    if has_keyed(s, k) {
        Some(s[choose|i: int| first_keyed(s, k, i)])
    } else {
        None
    }
}

/// No two items share a key.
pub open spec fn keys_unique<T: Keyed>(s: Seq<T>) -> bool {
    forall|i: int, j: int| 0 <= i < j < s.len() ==> #[trigger] s[i].key_of() != #[trigger] s[j].key_of()
}

/// With unique keys, the item at `i` is the one found by its key.
pub proof fn lemma_unique_keyed<T: Keyed>(s: Seq<T>, i: int)
    requires
        keys_unique(s),
        0 <= i < s.len(),
    ensures
        first_keyed(s, s[i].key_of(), i),
        find_keyed(s, s[i].key_of()) == Some(s[i]),
{
    assert forall|j: int| 0 <= j < i implies s[j].key_of() != s[i].key_of() by {
        assert(s[j].key_of() != s[i].key_of());
    }
    lemma_first_keyed(s, s[i].key_of(), i);
}

/// The first index of an item with key `k`, under `has_keyed`, is the chosen one.
pub proof fn lemma_first_keyed<T: Keyed>(s: Seq<T>, k: Seq<char>, i: int)
    requires
        first_keyed(s, k, i),
    ensures
        has_keyed(s, k),
        find_keyed(s, k) == Some(s[i]),
{
    let c = choose|c: int| first_keyed(s, k, c);
    assert(first_keyed(s, k, c));
    if c < i {
        assert(s[c].key_of() != k);
    } else if i < c {
        assert(s[i].key_of() != k);
    }
}

/// Index of the first item with key `k`.
pub fn find_index<T: Keyed>(items: &Vec<T>, k: &str) -> (r: Option<usize>)
    ensures
        match r {
            Some(i) => first_keyed(items@, k@, i as int) && find_keyed(items@, k@) == Some(
                items@[i as int],
            ),
            None => !has_keyed(items@, k@) && find_keyed(items@, k@).is_none(),
        },
{
    let mut i: usize = 0;
    while i < items.len()
        invariant
            i <= items.len(),
            forall|j: int| 0 <= j < i ==> items@[j].key_of() != k@,
        decreases items.len() - i,
    {
        if str_eq(items[i].key(), k) {
            proof {
                lemma_first_keyed(items@, k@, i as int);
            }
            return Some(i);
        }
        i = i + 1;
    }
    None
}

/// The item with key `k` (first match), borrowed.
pub fn find_ref<'a, T: Keyed>(items: &'a Vec<T>, k: &str) -> (r: Option<&'a T>)
    ensures
        match r {
            Some(x) => find_keyed(items@, k@) == Some(*x),
            None => find_keyed(items@, k@).is_none(),
        },
{
    match find_index(items, k) {
        Some(i) => Some(&items[i]),
        None => None,
    }
}


/// The embedded field catalog: per-asset fields, default column lists, presets,
/// and the named constants (markets, types, symbol types, indices, sectors,
/// countries, industries, exchanges).
///
/// Keys are looked up first-match, in the order the entries were loaded.
pub struct FieldsCatalog {
    /// Asset segment → default field constant names.
    pub defaults: Vec<(String, Vec<String>)>,
    /// Asset segment → `(constant name, field)` entries.
    pub catalog: Vec<(String, Vec<(String, FieldDef)>)>,
    /// Preset name → `asset.CONST` references.
    pub presets: Vec<(String, Vec<String>)>,
    /// Stock markets.
    pub markets: Vec<Market>,
    /// Stock `type` filter values.
    pub types: Vec<TypeFilter>,
    /// Stock `subtype` filter values.
    pub symbol_types: Vec<SymbolType>,
    /// Index symbol sets.
    pub index_symbols: Vec<IndexSymbolDef>,
    /// Sectors.
    pub sectors: Vec<NamedValue>,
    /// Countries.
    pub countries: Vec<NamedValue>,
    /// Industries.
    pub industries: Vec<NamedValue>,
    /// Exchanges.
    pub exchanges: Vec<NamedValue>,
}

/// The definitions of a sequence of catalog entries.
pub open spec fn entry_defs(es: Seq<(String, FieldDef)>) -> Seq<FieldDef> {
    es.map_values(|e: (String, FieldDef)| e.1)
}

/// Whether a catalog entry matches a lower-cased search query.
pub open spec fn entry_matches(e: (String, FieldDef), lq: Seq<char>) -> bool {
    ||| contains_seq(lower_seq(e.0@), lq)
    ||| contains_seq(lower_seq(e.1.label@), lq)
    ||| contains_seq(lower_seq(e.1.field_name@), lq)
}

/// The definitions of the entries that match `lq`, in catalog order.
pub open spec fn search_entries(es: Seq<(String, FieldDef)>, lq: Seq<char>) -> Seq<FieldDef>
    decreases es.len(),
{
    if es.len() == 0 {
        Seq::empty()
    } else {
        let p = search_entries(es.drop_last(), lq);
        if entry_matches(es.last(), lq) {
            p.push(es.last().1)
        } else {
            p
        }
    }
}

/// How `resolve_field` matches an entry once the exact constant-name lookup
/// misses, by priority `k`: `0` technical name equal to the token, `1` label
/// equal to the token, `2` constant name equal to the token's constant form
/// (all ignoring ASCII case).
pub open spec fn resolve_pred(e: (String, FieldDef), t: Seq<char>, u: Seq<char>, k: int) -> bool {
    if k == 0 {
        lower_seq(e.1.field_name@) == lower_seq(t)
    } else if k == 1 {
        lower_seq(e.1.label@) == lower_seq(t)
    } else {
        lower_seq(e.0@) == lower_seq(u)
    }
}

/// `i` is the first entry matched at priority `k`.
pub open spec fn first_resolved(es: Seq<(String, FieldDef)>, t: Seq<char>, u: Seq<char>, k: int, i: int) -> bool {
    &&& 0 <= i < es.len()
    &&& resolve_pred(es[i], t, u, k)
    &&& forall|j: int| 0 <= j < i ==> !resolve_pred(es[j], t, u, k)
}

/// The first entry matched at priority `k`, if any.
pub open spec fn resolve_at(es: Seq<(String, FieldDef)>, t: Seq<char>, u: Seq<char>, k: int) -> Option<(Seq<char>, FieldDef)> {
    if exists|i: int| first_resolved(es, t, u, k, i) {
        let i = choose|i: int| first_resolved(es, t, u, k, i);
        Some((es[i].0@, es[i].1))
    } else {
        None
    }
}

/// `i` is the position of the first `.` in a preset reference.
pub open spec fn dot_at(r: Seq<char>, i: int) -> bool {
    first_pos(r, '.', i)
}

impl FieldsCatalog {
    /// The catalog's keys are unique, as in the map it is read from: asset
    /// segments, the constant names within each asset, preset names, and
    /// default-list assets.
    pub open spec fn well_formed(self) -> bool {
        &&& keys_unique(self.catalog@)
        &&& forall|i: int| 0 <= i < self.catalog@.len() ==> keys_unique(#[trigger] self.catalog@[i].1@)
        &&& keys_unique(self.presets@)
        &&& keys_unique(self.defaults@)
    }

    /// The catalog entries of an asset, if the asset has a catalog.
    pub open spec fn entries_of(self, a: Asset) -> Option<Seq<(String, FieldDef)>> {
        match find_keyed(self.catalog@, asset_str(a)) {
            Some(p) => Some(p.1@),
            None => None,
        }
    }

    /// The field with constant name `k` for asset `a`.
    pub open spec fn field_spec(self, a: Asset, k: Seq<char>) -> Option<FieldDef> {
        match self.entries_of(a) {
            Some(es) => match find_keyed(es, k) {
                Some(e) => Some(e.1),
                None => None,
            },
            None => None,
        }
    }

    /// The fields named by `names` for asset `a`, skipping unknown names.
    pub open spec fn resolve_names(self, a: Asset, names: Seq<String>) -> Seq<FieldDef>
        decreases names.len(),
    {
        if names.len() == 0 {
            Seq::empty()
        } else {
            let p = self.resolve_names(a, names.drop_last());
            match self.field_spec(a, names.last()@) {
                Some(f) => p.push(f),
                None => p,
            }
        }
    }

    /// The default columns of asset `a`.
    pub open spec fn defaults_spec(self, a: Asset) -> Seq<FieldDef> {
        match find_keyed(self.defaults@, asset_str(a)) {
            Some(p) => self.resolve_names(a, p.1@),
            None => Seq::empty(),
        }
    }

    /// The field a preset reference `asset.CONST` names, if any.
    pub open spec fn preset_ref_spec(self, r: Seq<char>) -> Option<FieldDef> {
        if r.contains('.') {
            let i = choose|i: int| dot_at(r, i);
            match asset_parse(r.take(i)) {
                Some(a) => self.field_spec(a, r.skip(i + 1)),
                None => None,
            }
        } else {
            None
        }
    }

    /// The fields named by preset references, skipping those that resolve to nothing.
    pub open spec fn resolve_refs(self, refs: Seq<String>) -> Seq<FieldDef>
        decreases refs.len(),
    {
        if refs.len() == 0 {
            Seq::empty()
        } else {
            let p = self.resolve_refs(refs.drop_last());
            match self.preset_ref_spec(refs.last()@) {
                Some(f) => p.push(f),
                None => p,
            }
        }
    }

    /// The references of preset `name`, if the preset exists.
    pub open spec fn preset_refs(self, name: Seq<char>) -> Option<Seq<String>> {
        match find_keyed(self.presets@, name) {
            Some(p) => Some(p.1@),
            None => None,
        }
    }

    /// The fields of asset `a` matching query `q` (ASCII case-insensitive
    /// substring of constant name, label or technical name).
    pub open spec fn search_spec(self, a: Asset, q: Seq<char>) -> Seq<FieldDef> {
        match self.entries_of(a) {
            Some(es) => search_entries(es, lower_seq(q)),
            None => Seq::empty(),
        }
    }

    /// What `resolve_field` finds for `name`.
    pub open spec fn resolve_field_spec(self, a: Asset, name: Seq<char>) -> Option<(Seq<char>, FieldDef)> {
        let t = trim_seq(name);
        let u = const_form(t);
        if t.len() == 0 {
            None
        } else {
            match self.field_spec(a, u) {
                Some(d) => Some((u, d)),
                None => match self.entries_of(a) {
                    Some(es) => match resolve_at(es, t, u, 0) {
                        Some(x) => Some(x),
                        None => match resolve_at(es, t, u, 1) {
                            Some(x) => Some(x),
                            None => resolve_at(es, t, u, 2),
                        },
                    },
                    None => None,
                },
            }
        }
    }

    /// The entries of an asset, borrowed.
    fn entries(&self, asset: Asset) -> (r: Option<&Vec<(String, FieldDef)>>)
        ensures
            match self.entries_of(asset) {
                Some(es) => r.is_some() && r.unwrap()@ == es,
                None => r.is_none(),
            },
    {
        match find_ref(&self.catalog, asset.as_str()) {
            Some(p) => Some(&p.1),
            None => None,
        }
    }

    /// Looks up one field by asset and constant name.
    pub fn field(&self, asset: Asset, const_name: &str) -> (r: Option<FieldDef>)
        ensures
            r == self.field_spec(asset, const_name@),
    {
        match self.entries(asset) {
            Some(es) => match find_ref(es, const_name) {
                Some(e) => Some(e.1.clone()),
                None => None,
            },
            None => None,
        }
    }

    /// The fields named by `names` (skipping unknown names).
    fn fields_named(&self, asset: Asset, names: &Vec<String>) -> (r: Vec<FieldDef>)
        ensures
            r@ == self.resolve_names(asset, names@),
    {
        let mut r: Vec<FieldDef> = Vec::new();
        let mut i: usize = 0;
        while i < names.len()
            invariant
                i <= names.len(),
                r@ == self.resolve_names(asset, names@.take(i as int)),
            decreases names.len() - i,
        {
            proof {
                assert(names@.take(i + 1).drop_last() =~= names@.take(i as int));
            }
            match self.field(asset, names[i].as_str()) {
                Some(f) => r.push(f),
                None => {},
            }
            i = i + 1;
        }
        assert(names@.take(names@.len() as int) =~= names@);
        r
    }

    /// The default columns of an asset (names that are not in the catalog are skipped).
    pub fn defaults_for(&self, asset: Asset) -> (r: Vec<FieldDef>)
        ensures
            r@ == self.defaults_spec(asset),
    {
        match find_ref(&self.defaults, asset.as_str()) {
            Some(p) => self.fields_named(asset, &p.1),
            None => Vec::new(),
        }
    }

    /// Resolves a preset reference `asset.CONST` to its field.
    pub fn resolve_preset_ref(&self, reference: &str) -> (r: Option<FieldDef>)
        ensures
            r == self.preset_ref_spec(reference@),
    {
        match split_once_char(reference, '.') {
            Some((asset_str_part, const_name)) => {
                let ghost i = choose|i: int|
                    first_pos(reference@, '.', i) && asset_str_part@ == reference@.take(i)
                        && const_name@ == reference@.skip(i + 1);
                proof {
                    let c = choose|c: int| dot_at(reference@, c);
                    assert(dot_at(reference@, i));
                    if c < i {
                        assert(reference@[c] != '.');
                    } else if i < c {
                        assert(reference@[i] != '.');
                    }
                }
                match Asset::parse(asset_str_part.as_str()) {
                    Some(asset) => self.field(asset, const_name.as_str()),
                    None => None,
                }
            },
            None => None,
        }
    }

    /// The fields of preset `name`.
    ///
    /// Fails with `InvalidRequest` when the preset is unknown or when none of
    /// its references resolves to a field.
    pub fn preset(&self, name: &str) -> (r: Result<Vec<FieldDef>, TvscreenerError>)
        ensures
            match self.preset_refs(name@) {
                None => r matches Err(TvscreenerError::InvalidRequest(m)) && m@ == "unknown preset: "@
                    + name@,
                Some(refs) => {
                    let fs = self.resolve_refs(refs);
                    if fs.len() == 0 {
                        r matches Err(TvscreenerError::InvalidRequest(m)) && m@ == "preset `"@ + name@
                            + "` resolved to no fields"@
                    } else {
                        r matches Ok(v) && v@ == fs
                    }
                },
            },
    {
        let refs = match find_ref(&self.presets, name) {
            Some(p) => &p.1,
            None => {
                return Err(TvscreenerError::InvalidRequest(cat("unknown preset: ", name)));
            },
        };
        let mut fields: Vec<FieldDef> = Vec::new();
        let mut i: usize = 0;
        while i < refs.len()
            invariant
                i <= refs.len(),
                fields@ == self.resolve_refs(refs@.take(i as int)),
            decreases refs.len() - i,
        {
            proof {
                assert(refs@.take(i + 1).drop_last() =~= refs@.take(i as int));
            }
            match self.resolve_preset_ref(refs[i].as_str()) {
                Some(f) => fields.push(f),
                None => {},
            }
            i = i + 1;
        }
        assert(refs@.take(refs@.len() as int) =~= refs@);
        if fields.len() == 0 {
            return Err(
                TvscreenerError::InvalidRequest(cat3("preset `", name, "` resolved to no fields")),
            );
        }
        Ok(fields)
    }

    /// Searches the fields of an asset by constant name, label or technical
    /// name (ASCII case-insensitive substring), in catalog order.
    pub fn search(&self, asset: Asset, query: &str) -> (r: Vec<FieldDef>)
        ensures
            r@ == self.search_spec(asset, query@),
    {
        let q = to_lower(query);
        let qv = chars_of(q.as_str());
        let es = match self.entries(asset) {
            Some(es) => es,
            None => {
                return Vec::new();
            },
        };
        let mut r: Vec<FieldDef> = Vec::new();
        let mut i: usize = 0;
        while i < es.len()
            invariant
                qv@ == lower_seq(query@),
                i <= es.len(),
                r@ == search_entries(es@.take(i as int), qv@),
            decreases es.len() - i,
        {
            proof {
                assert(es@.take(i + 1).drop_last() =~= es@.take(i as int));
            }
            let n = chars_of(to_lower(es[i].0.as_str()).as_str());
            let l = chars_of(to_lower(es[i].1.label.as_str()).as_str());
            let f = chars_of(to_lower(es[i].1.field_name.as_str()).as_str());
            if contains_chars(&n, &qv) || contains_chars(&l, &qv) || contains_chars(&f, &qv) {
                r.push(es[i].1.clone());
            }
            i = i + 1;
        }
        assert(es@.take(es@.len() as int) =~= es@);
        r
    }

    /// The first entry of `es` matched at priority `k` (see [`resolve_pred`]).
    fn find_resolved(es: &Vec<(String, FieldDef)>, trimmed: &str, lower: &str, upper: &str, k: u8) -> (r: Option<usize>)
        requires
            lower@ == lower_seq(trimmed@),
            k <= 2,
        ensures
            match r {
                Some(i) => first_resolved(es@, trimmed@, upper@, k as int, i as int),
                None => !exists|i: int| first_resolved(es@, trimmed@, upper@, k as int, i),
            },
    {
        let ghost t = trimmed@;
        let ghost u = upper@;
        let mut i: usize = 0;
        while i < es.len()
            invariant
                t == trimmed@,
                u == upper@,
                lower@ == lower_seq(t),
                k <= 2,
                i <= es.len(),
                forall|j: int| 0 <= j < i ==> !resolve_pred(es@[j], t, u, k as int),
            decreases es.len() - i,
        {
            let hit = if k == 0 {
                eq_ignore_case(es[i].1.field_name.as_str(), trimmed)
            } else if k == 1 {
                let label_lower = to_lower(es[i].1.label.as_str());
                str_eq(label_lower.as_str(), lower)
            } else {
                eq_ignore_case(es[i].0.as_str(), upper)
            };
            if hit {
                assert(first_resolved(es@, t, u, k as int, i as int));
                return Some(i);
            }
            i = i + 1;
        }
        proof {
            assert forall|c: int| !first_resolved(es@, t, u, k as int, c) by {
                if 0 <= c < es@.len() {
                    assert(!resolve_pred(es@[c], t, u, k as int));
                }
            }
        }
        None
    }

    /// Resolves a field by constant name, technical name, or label.
    ///
    /// The token is trimmed; an exact constant-name match of its constant form
    /// (`"price"` → `"PRICE"`) wins; else the first entry whose technical name
    /// equals the token ignoring ASCII case; else the first whose label does;
    /// else the first whose constant name equals the constant form ignoring
    /// ASCII case.
    pub fn resolve_field(&self, asset: Asset, name: &str) -> (r: Option<(String, FieldDef)>)
        ensures
            match self.resolve_field_spec(asset, name@) {
                Some((k, d)) => r matches Some((k2, d2)) && k2@ == k && d2 == d,
                None => r.is_none(),
            },
    {
        let trimmed = trim(name);
        if trimmed.unicode_len() == 0 {
            return None;
        }
        let upper = to_const_form(trimmed.as_str());
        match self.field(asset, upper.as_str()) {
            Some(def) => {
                return Some((upper, def));
            },
            None => {},
        }
        let es = match self.entries(asset) {
            Some(es) => es,
            None => {
                return None;
            },
        };
        let lower = to_lower(trimmed.as_str());
        let ghost t = trimmed@;
        let ghost u = upper@;
        let mut k: u8 = 0;
        while k < 3
            invariant
                t == trimmed@,
                u == upper@,
                lower@ == lower_seq(t),
                t == trim_seq(name@),
                u == const_form(t),
                t.len() > 0,
                self.field_spec(asset, u).is_none(),
                self.entries_of(asset) == Some(es@),
                k <= 3,
                forall|j: int| 0 <= j < k ==> resolve_at(es@, t, u, j).is_none(),
            decreases 3 - k,
        {
            match Self::find_resolved(es, trimmed.as_str(), lower.as_str(), upper.as_str(), k) {
                Some(i) => {
                    proof {
                        let c = choose|c: int| first_resolved(es@, t, u, k as int, c);
                        if c < i {
                            assert(!resolve_pred(es@[c], t, u, k as int));
                        } else if i < c {
                            assert(!resolve_pred(es@[i as int], t, u, k as int));
                        }
                        assert(resolve_at(es@, t, u, k as int) == Some((es@[i as int].0@, es@[i as int].1)));
                    }
                    return Some((es[i].0.clone(), es[i].1.clone()));
                },
                None => {
                    assert(resolve_at(es@, t, u, k as int).is_none());
                },
            }
            k = k + 1;
        }
        assert(resolve_at(es@, t, u, 0).is_none());
        assert(resolve_at(es@, t, u, 1).is_none());
        assert(resolve_at(es@, t, u, 2).is_none());
        None
    }
}


/// Named constants built from `(const, value)` pairs, in order.
pub fn map_named(items: Vec<(String, String)>) -> (r: Vec<NamedValue>)
    ensures
        r@.len() == items@.len(),
        forall|i: int|
            0 <= i < items@.len() ==> (#[trigger] r@[i]).const_name == items@[i].0 && r@[i].value
                == items@[i].1,
{
    let mut out: Vec<NamedValue> = Vec::new();
    let mut rest = items;
    let ghost orig = rest@;
    let n = rest.len();
    let mut done: usize = 0;
    while done < n
        invariant
            n == orig.len(),
            done + rest@.len() == n,
            out@.len() == done,
            forall|j: int| 0 <= j < rest@.len() ==> #[trigger] rest@[j] == orig[j + done],
            forall|j: int|
                0 <= j < out@.len() ==> (#[trigger] out@[j]).const_name == orig[j].0 && out@[j].value
                    == orig[j].1,
        decreases n - done,
    {
        let (c, v) = rest.remove(0);
        out.push(NamedValue { const_name: c, value: v });
        done = done + 1;
    }
    out
}

/// The named constant with constant name `const_name`, if any (first match).
pub fn find_named<'a>(items: &'a Vec<NamedValue>, const_name: &str) -> (r: Option<&'a NamedValue>)
    ensures
        match r {
            Some(x) => find_keyed(items@, const_name@) == Some(*x),
            None => find_keyed(items@, const_name@).is_none(),
        },
{
    find_ref(items, const_name)
}

/// The value of the named constant `k`, if any.
pub open spec fn named_value_spec(items: Seq<NamedValue>, k: Seq<char>) -> Option<Seq<char>> {
    match find_keyed(items, k) {
        Some(n) => Some(n.value@),
        None => None,
    }
}

/// The wire value of the named constant with constant name `const_name`.
pub fn named_value_str<'a>(items: &'a Vec<NamedValue>, const_name: &str) -> (r: Option<&'a str>)
    ensures
        match named_value_spec(items@, const_name@) {
            Some(v) => r.is_some() && r.unwrap()@ == v,
            None => r.is_none(),
        },
{
    match find_named(items, const_name) {
        Some(n) => Some(n.value.as_str()),
        None => None,
    }
}

/// `i` is the first item whose value equals `t` ignoring ASCII case.
pub open spec fn first_value_match(items: Seq<NamedValue>, t: Seq<char>, i: int) -> bool {
    &&& 0 <= i < items.len()
    &&& lower_seq(items[i].value@) == lower_seq(t)
    &&& forall|j: int| 0 <= j < i ==> lower_seq(items[j].value@) != lower_seq(t)
}

/// What a token resolves to: the value of the constant named by its constant
/// form, else the first value equal to the token ignoring ASCII case.
pub open spec fn named_wire_spec(items: Seq<NamedValue>, t: Seq<char>) -> Option<Seq<char>> {
    match named_value_spec(items, const_form(t)) {
        Some(v) => Some(v),
        None => if exists|i: int| first_value_match(items, t, i) {
            Some(items[choose|i: int| first_value_match(items, t, i)].value@)
        } else {
            None
        },
    }
}

/// Resolves a token (constant name or wire value) to a wire value.
pub fn resolve_named_wire<'a>(items: &'a Vec<NamedValue>, token: &str) -> (r: Option<&'a str>)
    ensures
        match named_wire_spec(items@, token@) {
            Some(v) => r.is_some() && r.unwrap()@ == v,
            None => r.is_none(),
        },
{
    let upper = to_const_form(token);
    match named_value_str(items, upper.as_str()) {
        Some(v) => {
            return Some(v);
        },
        None => {},
    }
    let mut i: usize = 0;
    while i < items.len()
        invariant
            i <= items.len(),
            upper@ == const_form(token@),
            named_value_spec(items@, const_form(token@)).is_none(),
            forall|j: int| 0 <= j < i ==> lower_seq(items@[j].value@) != lower_seq(token@),
        decreases items.len() - i,
    {
        if eq_ignore_case(items[i].value.as_str(), token) {
            proof {
                assert(first_value_match(items@, token@, i as int));
                let c = choose|c: int| first_value_match(items@, token@, c);
                if c < i {
                    assert(lower_seq(items@[c].value@) != lower_seq(token@));
                } else if i < c {
                    assert(lower_seq(items@[i as int].value@) != lower_seq(token@));
                }
            }
            return Some(items[i].value.as_str());
        }
        i = i + 1;
    }
    proof {
        assert forall|c: int| !first_value_match(items@, token@, c) by {
            if 0 <= c < items@.len() {
                assert(lower_seq(items@[c].value@) != lower_seq(token@));
            }
        }
    }
    None
}

/// Looks up one catalog field by asset and constant name.
pub fn field(cat: &FieldsCatalog, asset: Asset, const_name: &str) -> (r: Option<FieldDef>)
    ensures
        r == cat.field_spec(asset, const_name@),
{
    cat.field(asset, const_name)
}

/// Resolves a field by constant name, technical name, or label (ASCII case-insensitive).
pub fn resolve_field(cat: &FieldsCatalog, asset: Asset, name: &str) -> (r: Option<(String, FieldDef)>)
    ensures
        match cat.resolve_field_spec(asset, name@) {
            Some((k, d)) => r matches Some((k2, d2)) && k2@ == k && d2 == d,
            None => r.is_none(),
        },
{
    cat.resolve_field(asset, name)
}

/// Returns a catalog field, or `InvalidRequest` when the constant name is absent.
pub fn require_field(cat: &FieldsCatalog, asset: Asset, const_name: &str) -> (r: Result<FieldDef, TvscreenerError>)
    ensures
        match cat.field_spec(asset, const_name@) {
            Some(f) => r == Ok::<FieldDef, TvscreenerError>(f),
            None => r matches Err(TvscreenerError::InvalidRequest(m)) && m@ == "unknown field `"@
                + const_name@ + "` for asset `"@ + asset_str(asset) + "`"@,
        },
{
    match field(cat, asset, const_name) {
        Some(f) => Ok(f),
        None => {
            let mut m = cat3("unknown field `", const_name, "` for asset `");
            m.append(asset.as_str());
            m.append("`");
            Err(TvscreenerError::InvalidRequest(m))
        },
    }
}

/// Returns the fields of a preset by name.
pub fn get_preset(cat: &FieldsCatalog, name: &str) -> (r: Result<Vec<FieldDef>, TvscreenerError>)
    ensures
        match cat.preset_refs(name@) {
            None => r matches Err(TvscreenerError::InvalidRequest(m)) && m@ == "unknown preset: "@
                + name@,
            Some(refs) => {
                let fs = cat.resolve_refs(refs);
                if fs.len() == 0 {
                    r matches Err(TvscreenerError::InvalidRequest(m)) && m@ == "preset `"@ + name@
                        + "` resolved to no fields"@
                } else {
                    r matches Ok(v) && v@ == fs
                }
            },
        },
{
    cat.preset(name)
}

/// The names of the presets, as listed in the catalog.
pub open spec fn preset_names(cat: FieldsCatalog) -> Seq<Seq<char>> {
    cat.presets@.map_values(|p: (String, Vec<String>)| p.0@)
}

/// Lists the preset names sorted alphabetically.
pub fn list_presets(cat: &FieldsCatalog) -> (r: Vec<String>)
    ensures
        sorted(strs_view(r@)),
        strs_view(r@).to_multiset() == preset_names(*cat).to_multiset(),
        keys_unique(cat.presets@) ==> forall|i: int, j: int|
            0 <= i < j < r@.len() ==> seq_lt(#[trigger] r@[i]@, #[trigger] r@[j]@),
{
    let mut names: Vec<String> = Vec::new();
    let mut i: usize = 0;
    while i < cat.presets.len()
        invariant
            i <= cat.presets.len(),
            strs_view(names@) == preset_names(*cat).take(i as int),
        decreases cat.presets.len() - i,
    {
        let n = cat.presets[i].0.clone();
        assert(n@ == preset_names(*cat)[i as int]);
        let ghost prev = names@;
        names.push(n);
        assert(names@ =~= prev.push(n));
        assert(strs_view(names@) =~= strs_view(prev).push(n@));
        i = i + 1;
        assert(strs_view(names@) =~= preset_names(*cat).take(i as int));
    }
    assert(preset_names(*cat).take(cat.presets@.len() as int) =~= preset_names(*cat));
    let r = sort_strings(names);
    proof {
        if keys_unique(cat.presets@) {
            let s = preset_names(*cat);
            let v = strs_view(r@);
            assert(s.no_duplicates()) by {
                assert forall|i: int, j: int| 0 <= i < s.len() && 0 <= j < s.len() && i != j implies s[i] != s[j] by {
                    if i < j {
                        assert(cat.presets@[i].key_of() != cat.presets@[j].key_of());
                    } else {
                        assert(cat.presets@[j].key_of() != cat.presets@[i].key_of());
                    }
                }
            }
            s.lemma_multiset_has_no_duplicates();
            v.lemma_multiset_has_no_duplicates_conv();
            assert forall|i: int, j: int| 0 <= i < j < r@.len() implies seq_lt(#[trigger] r@[i]@, #[trigger] r@[j]@) by {
                assert(v[i] == r@[i]@ && v[j] == r@[j]@);
                assert(!seq_lt(v[j], v[i]));
                assert(v[i] != v[j]);
                lemma_lt_trichotomy(v[i], v[j]);
            }
        }
    }
    r
}

/// Searches the fields of an asset by label, constant name, or technical name.
pub fn search_fields(cat: &FieldsCatalog, asset: Asset, query: &str) -> (r: Vec<FieldDef>)
    ensures
        r@ == cat.search_spec(asset, query@),
{
    cat.search(asset, query)
}

/// Every field definition of an asset (the full catalog, in catalog order).
pub fn list_fields(cat: &FieldsCatalog, asset: Asset) -> (r: Vec<FieldDef>)
    ensures
        match cat.entries_of(asset) {
            Some(es) => r@ == entry_defs(es),
            None => r@.len() == 0,
        },
{
    match cat.entries(asset) {
        Some(es) => {
            let mut r: Vec<FieldDef> = Vec::new();
            let mut i: usize = 0;
            while i < es.len()
                invariant
                    i <= es.len(),
                    r@ == entry_defs(es@).take(i as int),
                decreases es.len() - i,
            {
                r.push(es[i].1.clone());
                i = i + 1;
                assert(r@ =~= entry_defs(es@).take(i as int));
            }
            assert(entry_defs(es@).take(es@.len() as int) =~= entry_defs(es@));
            r
        },
        None => Vec::new(),
    }
}

/// How many fields are registered for an asset.
pub fn catalog_len(cat: &FieldsCatalog, asset: Asset) -> (r: usize)
    ensures
        match cat.entries_of(asset) {
            Some(es) => r == es.len(),
            None => r == 0,
        },
{
    match cat.entries(asset) {
        Some(es) => es.len(),
        None => 0,
    }
}

/// Under a well-formed catalog, listing an asset's fields gives the field of
/// each of its constant names exactly once: one entry per constant name (as
/// many as `catalog_len` counts), each the field that name looks up.
pub proof fn lemma_list_fields_each_once(cat: FieldsCatalog, a: Asset)
    requires
        cat.well_formed(),
        cat.entries_of(a) is Some,
    ensures
        ({
            let es = cat.entries_of(a).unwrap();
            &&& entry_defs(es).len() == es.len()
            &&& forall|i: int| 0 <= i < es.len() ==> cat.field_spec(a, #[trigger] es[i].0@) == Some(entry_defs(es)[i])
            &&& forall|i: int, j: int| 0 <= i < j < es.len() ==> #[trigger] es[i].0@ != #[trigger] es[j].0@
            &&& forall|k: Seq<char>| cat.field_spec(a, k) is Some ==> exists|i: int| 0 <= i < es.len() && #[trigger] es[i].0@ == k
        }),
{
    assert(has_keyed(cat.catalog@, asset_str(a)));
    let c = choose|c: int| 0 <= c < cat.catalog@.len() && cat.catalog@[c].key_of() == asset_str(a);
    lemma_unique_keyed(cat.catalog@, c);
    let es = cat.entries_of(a).unwrap();
    assert(es == cat.catalog@[c].1@);
    assert(keys_unique(es));
    assert forall|i: int| 0 <= i < es.len() implies cat.field_spec(a, #[trigger] es[i].0@) == Some(entry_defs(es)[i]) by {
        lemma_unique_keyed(es, i);
    }
    assert forall|i: int, j: int| 0 <= i < j < es.len() implies #[trigger] es[i].0@ != #[trigger] es[j].0@ by {
        assert(es[i].key_of() != es[j].key_of());
    }
    assert forall|k: Seq<char>| cat.field_spec(a, k) is Some implies exists|i: int| 0 <= i < es.len() && #[trigger] es[i].0@ == k by {
        assert(has_keyed(es, k));
        let i = choose|i: int| 0 <= i < es.len() && es[i].key_of() == k;
        assert(es[i].0@ == k);
    }
}

/// Some entry matches the token at priority `k` (see [`resolve_pred`]).
pub open spec fn any_resolved(es: Seq<(String, FieldDef)>, t: Seq<char>, u: Seq<char>, k: int) -> bool {
    exists|i: int| 0 <= i < es.len() && resolve_pred(es[i], t, u, k)
}

/// The entry found at priority `k` is a first match there.
pub open spec fn found_at(es: Seq<(String, FieldDef)>, t: Seq<char>, u: Seq<char>, k: int) -> bool {
    match resolve_at(es, t, u, k) {
        Some((c, d)) => exists|i: int| #[trigger] first_resolved(es, t, u, k, i) && c == es[i].0@ && d == es[i].1,
        None => false,
    }
}

/// The first entry matched at priority `k` is found whenever any entry matches.
proof fn lemma_resolve_at_found(es: Seq<(String, FieldDef)>, t: Seq<char>, u: Seq<char>, k: int, w: int)
    requires
        0 <= w < es.len(),
        resolve_pred(es[w], t, u, k),
    ensures
        found_at(es, t, u, k),
    decreases w,
{
    if exists|j: int| 0 <= j < w && resolve_pred(es[j], t, u, k) {
        let j = choose|j: int| 0 <= j < w && resolve_pred(es[j], t, u, k);
        lemma_resolve_at_found(es, t, u, k, j);
    } else {
        assert(first_resolved(es, t, u, k, w));
        let i = choose|i: int| first_resolved(es, t, u, k, i);
        assert(first_resolved(es, t, u, k, i));
    }
}

/// At priority `k`, the first match is found exactly when some entry matches.
proof fn lemma_level(es: Seq<(String, FieldDef)>, t: Seq<char>, u: Seq<char>, k: int)
    ensures
        any_resolved(es, t, u, k) ==> found_at(es, t, u, k),
        !any_resolved(es, t, u, k) ==> resolve_at(es, t, u, k) is None,
{
    if any_resolved(es, t, u, k) {
        let w = choose|w: int| 0 <= w < es.len() && resolve_pred(es[w], t, u, k);
        lemma_resolve_at_found(es, t, u, k, w);
    } else {
        assert forall|i: int| !first_resolved(es, t, u, k, i) by {
            if first_resolved(es, t, u, k, i) {
                assert(resolve_pred(es[i], t, u, k));
            }
        }
    }
}

/// Resolving a field name, under a well-formed catalog: a blank name
/// resolves to nothing; a name whose constant form is a constant name
/// resolves to that field; otherwise a technical-name match wins over a
/// label match, which wins over a constant name matching ignoring case; a
/// result `(c, d)` is always the field `d` of constant name `c`; and the name
/// resolves to nothing exactly when it is blank or nothing matches it.
pub proof fn lemma_resolve_field_order(cat: FieldsCatalog, a: Asset, name: Seq<char>)
    requires
        cat.well_formed(),
    ensures
        ({
            let t = trim_seq(name);
            let u = const_form(t);
            let r = cat.resolve_field_spec(a, name);
            &&& t.len() == 0 ==> r is None
            &&& (t.len() > 0 && cat.field_spec(a, u) is Some) ==> r == Some((u, cat.field_spec(a, u).unwrap()))
            &&& r matches Some((c, d)) ==> cat.field_spec(a, c) == Some(d)
            &&& (t.len() > 0 && cat.field_spec(a, u) is None && cat.entries_of(a) is Some
                && any_resolved(cat.entries_of(a).unwrap(), t, u, 0)) ==> (r is Some
                && lower_seq(r.unwrap().1.field_name@) == lower_seq(t))
            &&& (t.len() > 0 && cat.field_spec(a, u) is None && cat.entries_of(a) is Some
                && !any_resolved(cat.entries_of(a).unwrap(), t, u, 0)
                && any_resolved(cat.entries_of(a).unwrap(), t, u, 1)) ==> (r is Some
                && lower_seq(r.unwrap().1.label@) == lower_seq(t))
            &&& r is None <==> (t.len() == 0 || (cat.field_spec(a, u) is None && match cat.entries_of(a) {
                Some(es) => !any_resolved(es, t, u, 0) && !any_resolved(es, t, u, 1) && !any_resolved(es, t, u, 2),
                None => true,
            }))
        }),
{
    let t = trim_seq(name);
    let u = const_form(t);
    if t.len() > 0 && cat.field_spec(a, u) is None {
        if let Some(es) = cat.entries_of(a) {
            lemma_list_fields_each_once(cat, a);
            lemma_level(es, t, u, 0);
            lemma_level(es, t, u, 1);
            lemma_level(es, t, u, 2);
            let r = cat.resolve_field_spec(a, name);
            if let Some((c, d)) = r {
                let j: int = if resolve_at(es, t, u, 0) is Some { 0 } else if resolve_at(es, t, u, 1) is Some { 1 } else { 2 };
                assert(any_resolved(es, t, u, j));
                assert(found_at(es, t, u, j));
                let i = choose|i: int| #[trigger] first_resolved(es, t, u, j, i) && c == es[i].0@ && d == es[i].1;
                assert(cat.field_spec(a, es[i].0@) == Some(entry_defs(es)[i]));
            }
        }
    }
}

/// Whether no two items share a key.
pub fn keys_distinct<T: Keyed>(items: &Vec<T>) -> (b: bool)
    ensures
        b == keys_unique(items@),
{
    let mut j: usize = 0;
    while j < items.len()
        invariant
            j <= items.len(),
            forall|a: int, c: int| 0 <= a < c < j ==> #[trigger] items@[a].key_of() != #[trigger] items@[c].key_of(),
        decreases items.len() - j,
    {
        let mut i: usize = 0;
        while i < j
            invariant
                i <= j < items.len(),
                forall|a: int, c: int| 0 <= a < c < j ==> #[trigger] items@[a].key_of() != #[trigger] items@[c].key_of(),
                forall|a: int| 0 <= a < i ==> #[trigger] items@[a].key_of() != items@[j as int].key_of(),
            decreases j - i,
        {
            if str_eq(items[i].key(), items[j].key()) {
                assert(items@[i as int].key_of() == items@[j as int].key_of());
                return false;
            }
            i = i + 1;
        }
        j = j + 1;
    }
    true
}

impl FieldsCatalog {
    /// Whether the catalog's keys are unique (see [`FieldsCatalog::well_formed`]);
    /// a loaded catalog is checked with it.
    pub fn is_well_formed(&self) -> (b: bool)
        ensures
            b == self.well_formed(),
    {
        if !keys_distinct(&self.catalog) || !keys_distinct(&self.presets) || !keys_distinct(&self.defaults) {
            return false;
        }
        let mut i: usize = 0;
        while i < self.catalog.len()
            invariant
                i <= self.catalog.len(),
                keys_unique(self.catalog@),
                keys_unique(self.presets@),
                keys_unique(self.defaults@),
                forall|x: int| 0 <= x < i ==> keys_unique(#[trigger] self.catalog@[x].1@),
            decreases self.catalog.len() - i,
        {
            if !keys_distinct(&self.catalog[i].1) {
                return false;
            }
            i = i + 1;
        }
        true
    }
}

/// `d` is the field of an entry whose constant name, label or technical name
/// contains `lq` (already lower-cased), ignoring ASCII case.
pub open spec fn field_of_match(es: Seq<(String, FieldDef)>, lq: Seq<char>, d: FieldDef) -> bool {
    exists|i: int| #![trigger es[i]] 0 <= i < es.len() && d == es[i].1 && (contains_seq(lower_seq(es[i].0@), lq)
        || contains_seq(lower_seq(es[i].1.label@), lq) || contains_seq(lower_seq(es[i].1.field_name@), lq))
}

proof fn lemma_search_entries(es: Seq<(String, FieldDef)>, lq: Seq<char>)
    ensures
        forall|i: int| 0 <= i < es.len() && (contains_seq(lower_seq(#[trigger] es[i].0@), lq)
            || contains_seq(lower_seq(es[i].1.label@), lq) || contains_seq(lower_seq(es[i].1.field_name@), lq))
            ==> search_entries(es, lq).contains(es[i].1),
        forall|k: int| 0 <= k < search_entries(es, lq).len() ==> field_of_match(es, lq, #[trigger] search_entries(es, lq)[k]),
    decreases es.len(),
{
    if es.len() > 0 {
        let p = es.drop_last();
        lemma_search_entries(p, lq);
        let r = search_entries(es, lq);
        let pr = search_entries(p, lq);
        assert forall|i: int| 0 <= i < es.len() && (contains_seq(lower_seq(#[trigger] es[i].0@), lq)
            || contains_seq(lower_seq(es[i].1.label@), lq) || contains_seq(lower_seq(es[i].1.field_name@), lq))
            implies r.contains(es[i].1) by {
            if i < p.len() {
                assert(p[i] == es[i]);
                assert(pr.contains(p[i].1));
                let k = choose|k: int| 0 <= k < pr.len() && pr[k] == p[i].1;
                assert(r[k] == pr[k]);
            } else {
                assert(entry_matches(es.last(), lq));
                assert(r[r.len() - 1] == es[i].1);
            }
        }
        assert forall|k: int| 0 <= k < r.len() implies field_of_match(es, lq, #[trigger] r[k]) by {
            if k < pr.len() {
                assert(r[k] == pr[k]);
                assert(field_of_match(p, lq, pr[k]));
                let i = choose|i: int| #![trigger p[i]] 0 <= i < p.len() && pr[k] == p[i].1 && (contains_seq(lower_seq(p[i].0@), lq)
                    || contains_seq(lower_seq(p[i].1.label@), lq) || contains_seq(lower_seq(p[i].1.field_name@), lq));
                assert(p[i] == es[i]);
            } else {
                let i = es.len() - 1;
                assert(r[k] == es[i].1);
                assert(entry_matches(es.last(), lq));
            }
        }
    } else {
        assert(search_entries(es, lq).len() == 0);
    }
}

/// Searching an asset's fields finds every field whose constant name, label
/// or technical name contains the query, ignoring ASCII case, and nothing
/// else: each result is the field of such an entry.
pub proof fn lemma_search_finds_matches(cat: FieldsCatalog, a: Asset, q: Seq<char>)
    ensures
        match cat.entries_of(a) {
            Some(es) => {
                &&& forall|i: int| 0 <= i < es.len() && (contains_seq(lower_seq(#[trigger] es[i].0@), lower_seq(q))
                    || contains_seq(lower_seq(es[i].1.label@), lower_seq(q))
                    || contains_seq(lower_seq(es[i].1.field_name@), lower_seq(q)))
                    ==> cat.search_spec(a, q).contains(es[i].1)
                &&& forall|k: int| 0 <= k < cat.search_spec(a, q).len()
                    ==> field_of_match(es, lower_seq(q), #[trigger] cat.search_spec(a, q)[k])
            },
            None => cat.search_spec(a, q).len() == 0,
        },
{
    match cat.entries_of(a) {
        Some(es) => {
            lemma_search_entries(es, lower_seq(q));
            assert(cat.search_spec(a, q) == search_entries(es, lower_seq(q)));
            assert forall|i: int| 0 <= i < es.len() && (contains_seq(lower_seq(#[trigger] es[i].0@), lower_seq(q))
                    || contains_seq(lower_seq(es[i].1.label@), lower_seq(q))
                    || contains_seq(lower_seq(es[i].1.field_name@), lower_seq(q)))
                    implies cat.search_spec(a, q).contains(es[i].1) by {
                lemma_search_entries(es, lower_seq(q));
                let lq = lower_seq(q);
                assert(contains_seq(lower_seq(es[i].0@), lq) || contains_seq(lower_seq(es[i].1.label@), lq)
                    || contains_seq(lower_seq(es[i].1.field_name@), lq));
                assert(search_entries(es, lq).contains(es[i].1));
            }
            assert(forall|k: int| 0 <= k < cat.search_spec(a, q).len()
                    ==> field_of_match(es, lower_seq(q), #[trigger] cat.search_spec(a, q)[k]));
        },
        None => {
            assert(cat.search_spec(a, q) == Seq::<FieldDef>::empty());
        },
    }
}

/// All index symbol definitions.
pub fn all_index_symbols(cat: &FieldsCatalog) -> (r: &Vec<IndexSymbolDef>)
    ensures
        r@ == cat.index_symbols@,
{
    &cat.index_symbols
}

/// The catalog symbol of an index constant (e.g. `"SP500"` → `"SP;SPX"`).
pub fn index_symbol_value<'a>(cat: &'a FieldsCatalog, const_name: &str) -> (r: Option<&'a str>)
    ensures
        match find_keyed(cat.index_symbols@, const_name@) {
            Some(d) => r.is_some() && r.unwrap()@ == d.value@,
            None => r.is_none(),
        },
{
    match find_ref(&cat.index_symbols, const_name) {
        Some(d) => Some(d.value.as_str()),
        None => None,
    }
}

/// The index symbolset wire value: `SYML:` + catalog symbol, unless already prefixed.
pub open spec fn symbolset_wire_spec(symbol: Seq<char>) -> Seq<char> {
    if "SYML:"@.is_prefix_of(symbol) {
        symbol
    } else {
        "SYML:"@ + symbol
    }
}

/// Formats a catalog index symbol for the scan `symbols.symbolset` array.
pub fn to_symbolset_wire(symbol: &str) -> (r: String)
    ensures
        r@ == symbolset_wire_spec(symbol@),
{
    if starts_with(symbol, "SYML:") {
        own(symbol)
    } else {
        cat("SYML:", symbol)
    }
}

/// Prefixing is idempotent: a wire value maps to itself.
pub proof fn lemma_symbolset_wire_idempotent(symbol: Seq<char>)
    ensures
        symbolset_wire_spec(symbolset_wire_spec(symbol)) == symbolset_wire_spec(symbol),
        "SYML:"@.is_prefix_of(symbolset_wire_spec(symbol)),
{
    let p = "SYML:"@;
    if !p.is_prefix_of(symbol) {
        let w = p + symbol;
        assert(w.subrange(0, p.len() as int) =~= p);
    }
}

/// All configured markets.
pub fn all_markets(cat: &FieldsCatalog) -> (r: &Vec<Market>)
    ensures
        r@ == cat.markets@,
{
    &cat.markets
}

/// Finds a market by constant name.
pub fn market(cat: &FieldsCatalog, const_name: &str) -> (r: Option<Market>)
    ensures
        r == find_keyed(cat.markets@, const_name@),
{
    match find_ref(&cat.markets, const_name) {
        Some(m) => Some(m.clone()),
        None => None,
    }
}

impl Market {
    /// The US market (`AMERICA`).
    pub fn america(cat: &FieldsCatalog) -> (r: Market)
        requires
            has_keyed(cat.markets@, "AMERICA"@),
        ensures
            Some(r) == find_keyed(cat.markets@, "AMERICA"@),
    {
        match market(cat, "AMERICA") {
            Some(m) => m,
            None => {
                proof {
                    assert(false);
                }
                Market { const_name: String::new(), value: String::new() }
            },
        }
    }

    /// All markets (`ALL`).
    pub fn all(cat: &FieldsCatalog) -> (r: Market)
        requires
            has_keyed(cat.markets@, "ALL"@),
        ensures
            Some(r) == find_keyed(cat.markets@, "ALL"@),
    {
        match market(cat, "ALL") {
            Some(m) => m,
            None => {
                proof {
                    assert(false);
                }
                Market { const_name: String::new(), value: String::new() }
            },
        }
    }
}

/// All sector entries.
pub fn all_sectors(cat: &FieldsCatalog) -> (r: &Vec<NamedValue>)
    ensures
        r@ == cat.sectors@,
{
    &cat.sectors
}

/// Sector wire value by constant name.
pub fn sector_value<'a>(cat: &'a FieldsCatalog, const_name: &str) -> (r: Option<&'a str>)
    ensures
        match named_value_spec(cat.sectors@, const_name@) {
            Some(v) => r.is_some() && r.unwrap()@ == v,
            None => r.is_none(),
        },
{
    named_value_str(&cat.sectors, const_name)
}

/// Resolves a sector token (constant name or wire value).
pub fn resolve_sector<'a>(cat: &'a FieldsCatalog, token: &str) -> (r: Option<&'a str>)
    ensures
        match named_wire_spec(cat.sectors@, token@) {
            Some(v) => r.is_some() && r.unwrap()@ == v,
            None => r.is_none(),
        },
{
    resolve_named_wire(&cat.sectors, token)
}

/// All country entries.
pub fn all_countries(cat: &FieldsCatalog) -> (r: &Vec<NamedValue>)
    ensures
        r@ == cat.countries@,
{
    &cat.countries
}

/// Country wire value by constant name.
pub fn country_value<'a>(cat: &'a FieldsCatalog, const_name: &str) -> (r: Option<&'a str>)
    ensures
        match named_value_spec(cat.countries@, const_name@) {
            Some(v) => r.is_some() && r.unwrap()@ == v,
            None => r.is_none(),
        },
{
    named_value_str(&cat.countries, const_name)
}

/// Resolves a country token (constant name or wire value).
pub fn resolve_country<'a>(cat: &'a FieldsCatalog, token: &str) -> (r: Option<&'a str>)
    ensures
        match named_wire_spec(cat.countries@, token@) {
            Some(v) => r.is_some() && r.unwrap()@ == v,
            None => r.is_none(),
        },
{
    resolve_named_wire(&cat.countries, token)
}

/// All industry entries.
pub fn all_industries(cat: &FieldsCatalog) -> (r: &Vec<NamedValue>)
    ensures
        r@ == cat.industries@,
{
    &cat.industries
}

/// Industry wire value by constant name.
pub fn industry_value<'a>(cat: &'a FieldsCatalog, const_name: &str) -> (r: Option<&'a str>)
    ensures
        match named_value_spec(cat.industries@, const_name@) {
            Some(v) => r.is_some() && r.unwrap()@ == v,
            None => r.is_none(),
        },
{
    named_value_str(&cat.industries, const_name)
}

/// Resolves an industry token (constant name or wire value).
pub fn resolve_industry<'a>(cat: &'a FieldsCatalog, token: &str) -> (r: Option<&'a str>)
    ensures
        match named_wire_spec(cat.industries@, token@) {
            Some(v) => r.is_some() && r.unwrap()@ == v,
            None => r.is_none(),
        },
{
    resolve_named_wire(&cat.industries, token)
}

/// All exchange entries.
pub fn all_exchanges(cat: &FieldsCatalog) -> (r: &Vec<NamedValue>)
    ensures
        r@ == cat.exchanges@,
{
    &cat.exchanges
}

/// Exchange wire value by constant name.
pub fn exchange_value<'a>(cat: &'a FieldsCatalog, const_name: &str) -> (r: Option<&'a str>)
    ensures
        match named_value_spec(cat.exchanges@, const_name@) {
            Some(v) => r.is_some() && r.unwrap()@ == v,
            None => r.is_none(),
        },
{
    named_value_str(&cat.exchanges, const_name)
}

/// Resolves an exchange token (constant name or wire value).
pub fn resolve_exchange<'a>(cat: &'a FieldsCatalog, token: &str) -> (r: Option<&'a str>)
    ensures
        match named_wire_spec(cat.exchanges@, token@) {
            Some(v) => r.is_some() && r.unwrap()@ == v,
            None => r.is_none(),
        },
{
    resolve_named_wire(&cat.exchanges, token)
}

/// Finds a stock `type` filter by constant name.
pub fn type_filter(cat: &FieldsCatalog, const_name: &str) -> (r: Option<TypeFilter>)
    ensures
        r == find_keyed(cat.types@, const_name@),
{
    match find_ref(&cat.types, const_name) {
        Some(t) => Some(t.clone()),
        None => None,
    }
}

/// Finds a stock symbol subtype by constant name.
pub fn symbol_type(cat: &FieldsCatalog, const_name: &str) -> (r: Option<SymbolType>)
    ensures
        match find_keyed(cat.symbol_types@, const_name@) {
            Some(st) => r matches Some(x) && x.const_name == st.const_name && x.values@
                == st.values@,
            None => r.is_none(),
        },
{
    match find_ref(&cat.symbol_types, const_name) {
        Some(st) => Some(st.clone()),
        None => None,
    }
}

/// Default crypto columns.
pub fn default_crypto_fields(cat: &FieldsCatalog) -> (r: Vec<FieldDef>)
    ensures
        r@ == cat.defaults_spec(Asset::Crypto),
{
    cat.defaults_for(Asset::Crypto)
}

/// Default stock columns.
pub fn default_stock_fields(cat: &FieldsCatalog) -> (r: Vec<FieldDef>)
    ensures
        r@ == cat.defaults_spec(Asset::Stock),
{
    cat.defaults_for(Asset::Stock)
}

/// Default forex columns.
pub fn default_forex_fields(cat: &FieldsCatalog) -> (r: Vec<FieldDef>)
    ensures
        r@ == cat.defaults_spec(Asset::Forex),
{
    cat.defaults_for(Asset::Forex)
}

/// The default bond columns: the catalog default list, or the `bond_basic`
/// preset (empty when that preset does not resolve) when the list is empty.
pub open spec fn bond_defaults_spec(cat: FieldsCatalog) -> Seq<FieldDef> {
    let d = cat.defaults_spec(Asset::Bond);
    if d.len() > 0 {
        d
    } else {
        match cat.preset_refs("bond_basic"@) {
            Some(refs) => cat.resolve_refs(refs),
            None => Seq::empty(),
        }
    }
}

/// Default bond columns; falls back to the `bond_basic` preset when the
/// catalog default list is empty.
pub fn default_bond_fields(cat: &FieldsCatalog) -> (r: Vec<FieldDef>)
    ensures
        r@ == bond_defaults_spec(*cat),
{
    let fields = cat.defaults_for(Asset::Bond);
    if fields.len() == 0 {
        match get_preset(cat, "bond_basic") {
            Ok(v) => v,
            Err(_) => Vec::new(),
        }
    } else {
        fields
    }
}

/// Default futures columns.
pub fn default_futures_fields(cat: &FieldsCatalog) -> (r: Vec<FieldDef>)
    ensures
        r@ == cat.defaults_spec(Asset::Futures),
{
    cat.defaults_for(Asset::Futures)
}

/// Default coin columns.
pub fn default_coin_fields(cat: &FieldsCatalog) -> (r: Vec<FieldDef>)
    ensures
        r@ == cat.defaults_spec(Asset::Coin),
{
    cat.defaults_for(Asset::Coin)
}

/// The catalog field `const_name` of `asset`, which the caller knows to exist.
fn known_field(cat: &FieldsCatalog, asset: Asset, const_name: &str) -> (r: FieldDef)
    requires
        cat.field_spec(asset, const_name@).is_some(),
    ensures
        Some(r) == cat.field_spec(asset, const_name@),
{
    match field(cat, asset, const_name) {
        Some(f) => f,
        None => {
            proof {
                assert(false);
            }
            FieldDef::new("", "")
        },
    }
}

/// Crypto sort field: 24h volume in USD.
pub fn crypto_volume_24h_in_usd(cat: &FieldsCatalog) -> (r: FieldDef)
    requires
        cat.field_spec(Asset::Crypto, "VOLUME_24H_IN_USD"@).is_some(),
    ensures
        Some(r) == cat.field_spec(Asset::Crypto, "VOLUME_24H_IN_USD"@),
{
    known_field(cat, Asset::Crypto, "VOLUME_24H_IN_USD")
}

/// Stock sort field: market capitalization.
pub fn stock_market_capitalization(cat: &FieldsCatalog) -> (r: FieldDef)
    requires
        cat.field_spec(Asset::Stock, "MARKET_CAPITALIZATION"@).is_some(),
    ensures
        Some(r) == cat.field_spec(Asset::Stock, "MARKET_CAPITALIZATION"@),
{
    known_field(cat, Asset::Stock, "MARKET_CAPITALIZATION")
}

/// Forex sort field: name.
pub fn forex_name(cat: &FieldsCatalog) -> (r: FieldDef)
    requires
        cat.field_spec(Asset::Forex, "NAME"@).is_some(),
    ensures
        Some(r) == cat.field_spec(Asset::Forex, "NAME"@),
{
    known_field(cat, Asset::Forex, "NAME")
}

/// Bond sort field: volume.
pub fn bond_volume(cat: &FieldsCatalog) -> (r: FieldDef)
    requires
        cat.field_spec(Asset::Bond, "VOLUME"@).is_some(),
    ensures
        Some(r) == cat.field_spec(Asset::Bond, "VOLUME"@),
{
    known_field(cat, Asset::Bond, "VOLUME")
}

/// Futures sort field: volume.
pub fn futures_volume(cat: &FieldsCatalog) -> (r: FieldDef)
    requires
        cat.field_spec(Asset::Futures, "VOLUME"@).is_some(),
    ensures
        Some(r) == cat.field_spec(Asset::Futures, "VOLUME"@),
{
    known_field(cat, Asset::Futures, "VOLUME")
}

/// Coin sort field: market cap.
pub fn coin_market_cap(cat: &FieldsCatalog) -> (r: FieldDef)
    requires
        cat.field_spec(Asset::Coin, "MARKET_CAP"@).is_some(),
    ensures
        Some(r) == cat.field_spec(Asset::Coin, "MARKET_CAP"@),
{
    known_field(cat, Asset::Coin, "MARKET_CAP")
}

/// Crypto RSI(14) field.
pub fn crypto_rsi_14(cat: &FieldsCatalog) -> (r: FieldDef)
    requires
        cat.field_spec(Asset::Crypto, "RELATIVE_STRENGTH_INDEX_14"@).is_some(),
    ensures
        Some(r) == cat.field_spec(Asset::Crypto, "RELATIVE_STRENGTH_INDEX_14"@),
{
    known_field(cat, Asset::Crypto, "RELATIVE_STRENGTH_INDEX_14")
}

/// Crypto price (`close`) field.
pub fn crypto_price(cat: &FieldsCatalog) -> (r: FieldDef)
    requires
        cat.field_spec(Asset::Crypto, "PRICE"@).is_some(),
    ensures
        Some(r) == cat.field_spec(Asset::Crypto, "PRICE"@),
{
    known_field(cat, Asset::Crypto, "PRICE")
}

} // verus!
