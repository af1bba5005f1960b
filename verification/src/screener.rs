//! The [`Screener`] request builder: columns, filters, range, sort, markets and
//! symbols, and the scan payload built from them.
//!
//! Filters with the same `left` key merge: new values append and the operator
//! promotes to [`FilterOperator::InRange`] when the new values are not already
//! all present.
use vstd::prelude::*;
use core::time::Duration;
use crate::error::TvscreenerError;
use crate::field::{FieldDef, symbolset_wire_spec, to_symbolset_wire};
use crate::filter::{
    ExtraFilter, FieldCondition, Filter, FilterOperator, FilterV, extra_str, filter_json,
};
use crate::json::{
    JsonV, JsonValue, entries_view, find_entry, first_key, has_key, insert_entry, insert_key,
    json_clone, json_eq, json_same, json_text_parse, jvs, lemma_array_view,
    lemma_first_key_unique, lemma_json_same_refl, lemma_object_view, lookup_key, num_v,
    parse_json_text,
};
use crate::text::{own, str_eq};
use vstd::string::StringSliceAdditionalSpecFns;
use crate::util::{Column, DEFAULT_TIMEOUT_SECS, cols_view, get_url, is_status_code_ok, techs, url_spec};

verus! {

/// Default result window start.
pub const DEFAULT_MIN_RANGE: u32 = 0;

/// Default result window end.
pub const DEFAULT_MAX_RANGE: u32 = 150;

/// Longest HTTP error body kept in an error, in bytes.
pub const HTTP_ERROR_BODY_MAX: usize = 4096;

/// The `Duration` that `Duration::from_secs(secs)` returns.
pub uninterp spec fn secs_duration(secs: u64) -> Duration;

/// A `Duration` of `secs` seconds.
///
/// Calls `Duration::from_secs`; the contract only claims that the result is a
/// function of `secs` (the same seconds give the same duration). The library
/// stores it and hands it back.
#[verifier::external_body]
fn duration_from_secs(secs: u64) -> (r: Duration)
    ensures
        r == secs_duration(secs),
{
    Duration::from_secs(secs)
}

/// The state of a new screener for `subtype`: no URL override, no filters,
/// `options = {"lang": "en"}`, no misc or symbols, no columns, range
/// `[0, 150)`, no sort, validation and debug off, no markets, the default
/// timeout.
pub open spec fn fresh_state(subtype: Seq<char>) -> ScreenerState {
    ScreenerState {
        subtype,
        url: None,
        filters: Seq::empty(),
        options: seq![("lang"@, JsonV::Str("en"@))],
        misc: Seq::empty(),
        symbols: None,
        selected: Seq::empty(),
        select_all: false,
        all_fields: None,
        range_from: DEFAULT_MIN_RANGE,
        range_to: DEFAULT_MAX_RANGE,
        sort_by: None,
        print_request: false,
        validate: false,
        markets: None,
        timeout: secs_duration(DEFAULT_TIMEOUT_SECS),
    }
}

/// The mathematical state of a [`Screener`].
pub struct ScreenerState {
    pub subtype: Seq<char>,
    pub url: Option<Seq<char>>,
    pub filters: Seq<FilterV>,
    pub options: Seq<(Seq<char>, JsonV)>,
    pub misc: Seq<(Seq<char>, JsonV)>,
    pub symbols: Option<JsonV>,
    pub selected: Seq<FieldDef>,
    pub select_all: bool,
    pub all_fields: Option<Seq<FieldDef>>,
    pub range_from: u32,
    pub range_to: u32,
    pub sort_by: Option<(Seq<char>, bool)>,
    pub print_request: bool,
    pub validate: bool,
    pub markets: Option<Seq<Seq<char>>>,
    pub timeout: Duration,
}

/// Request builder for one scanner POST.
///
/// Holds columns, filters, range, sort, markets/symbols and the HTTP timeout;
/// [`Screener::build_payload`] builds the JSON body.
#[derive(Debug)]
pub struct Screener {
    /// Path segment in `https://scanner.tradingview.com/{subtype}/scan`.
    pub subtype: String,
    url: Option<String>,
    filters: Vec<Filter>,
    options: Vec<(String, JsonValue)>,
    misc: Vec<(String, JsonValue)>,
    symbols: Option<JsonValue>,
    selected_fields: Vec<FieldDef>,
    select_all_fields: bool,
    all_fields: Option<Vec<FieldDef>>,
    range_from: u32,
    range_to: u32,
    sort_by: Option<(String, bool)>,
    print_request: bool,
    validate_filter_fields: bool,
    markets: Option<Vec<String>>,
    timeout: Duration,
}

/// The views of a list of filters.
pub open spec fn filters_view(fs: Seq<Filter>) -> Seq<FilterV> {
    fs.map_values(|f: Filter| f@)
}

/// The views of a list of strings.
pub open spec fn str_views(s: Seq<String>) -> Seq<Seq<char>> {
    s.map_values(|x: String| x@)
}

impl View for Screener {
    type V = ScreenerState;

    closed spec fn view(&self) -> ScreenerState {
        ScreenerState {
            subtype: self.subtype@,
            url: match self.url {
                Some(u) => Some(u@),
                None => None,
            },
            filters: filters_view(self.filters@),
            options: entries_view(self.options@),
            misc: entries_view(self.misc@),
            symbols: match self.symbols {
                Some(s) => Some(s@),
                None => None,
            },
            selected: self.selected_fields@,
            select_all: self.select_all_fields,
            all_fields: match self.all_fields {
                Some(f) => Some(f@),
                None => None,
            },
            range_from: self.range_from,
            range_to: self.range_to,
            sort_by: match self.sort_by {
                Some((f, a)) => Some((f@, a)),
                None => None,
            },
            print_request: self.print_request,
            validate: self.validate_filter_fields,
            markets: match self.markets {
                Some(m) => Some(str_views(m@)),
                None => None,
            },
            timeout: self.timeout,
        }
    }
}

/// Some value of `vs` equals `v` (JSON equality, [`json_same`]).
pub open spec fn holds_value(vs: Seq<JsonV>, v: JsonV) -> bool {
    exists|k: int| 0 <= k < vs.len() && json_same(#[trigger] vs[k], v)
}

/// Every value of `candidate` occurs in `current`.
pub open spec fn values_subset(candidate: Seq<JsonV>, current: Seq<JsonV>) -> bool {
    forall|i: int| 0 <= i < candidate.len() ==> holds_value(current, #[trigger] candidate[i])
}

/// Appends each value of `new` that is not yet present, in order.
pub open spec fn append_new(current: Seq<JsonV>, new: Seq<JsonV>) -> Seq<JsonV>
    decreases new.len(),
{
    if new.len() == 0 {
        current
    } else {
        let p = append_new(current, new.drop_last());
        if holds_value(p, new.last()) {
            p
        } else {
            p.push(new.last())
        }
    }
}

/// Merging a filter into an existing one with the same `left`: unchanged when
/// every new value is already present, else promoted to `in_range` with the
/// missing values appended.
pub open spec fn merge_spec(current: FilterV, new: FilterV) -> FilterV {
    if values_subset(new.values, current.values) {
        current
    } else {
        FilterV {
            left: current.left,
            operation: FilterOperator::InRange,
            values: append_new(current.values, new.values),
        }
    }
}

/// A new filter is added as is, except that a one-value `in_range` becomes `equal`.
pub open spec fn fresh_spec(f: FilterV) -> FilterV {
    if f.values.len() == 1 && f.operation == FilterOperator::InRange {
        FilterV { left: f.left, operation: FilterOperator::Equal, values: f.values }
    } else {
        f
    }
}

/// `i` is the first filter whose `left` is `left`.
pub open spec fn first_left(fs: Seq<FilterV>, left: Seq<char>, i: int) -> bool {
    &&& 0 <= i < fs.len()
    &&& fs[i].left == left
    &&& forall|j: int| 0 <= j < i ==> fs[j].left != left
}

/// Whether some filter has `left` as its left key.
pub open spec fn has_left(fs: Seq<FilterV>, left: Seq<char>) -> bool {
    exists|i: int| 0 <= i < fs.len() && fs[i].left == left
}

/// The filter list after adding `f`: merged into the first filter with the
/// same `left`, or appended.
pub open spec fn add_filter_spec(fs: Seq<FilterV>, f: FilterV) -> Seq<FilterV> {
    if has_left(fs, f.left) {
        let i = choose|i: int| first_left(fs, f.left, i);
        fs.update(i, merge_spec(fs[i], f))
    } else {
        fs.push(fresh_spec(f))
    }
}

/// The filter list after removing the first filter with key `left`.
pub open spec fn remove_filter_spec(fs: Seq<FilterV>, left: Seq<char>) -> Seq<FilterV> {
    if has_left(fs, left) {
        fs.remove(choose|i: int| first_left(fs, left, i))
    } else {
        fs
    }
}

/// The technical names of a field list.
pub open spec fn field_names(fs: Seq<FieldDef>) -> Seq<Seq<char>> {
    fs.map_values(|f: FieldDef| f.field_name@)
}

/// Whether a filter key is allowed when validation is enabled: the structural
/// keys `type` / `subtype` and the extra-filter keys always; otherwise a
/// technical name of the registered all-fields set when there is one, else of
/// the selected columns.
pub open spec fn allowed_spec(s: ScreenerState, left: Seq<char>) -> bool {
    ||| left == "type"@
    ||| left == "subtype"@
    ||| left == extra_str(ExtraFilter::CurrentTradingDay)
    ||| left == extra_str(ExtraFilter::Search)
    ||| left == extra_str(ExtraFilter::Primary)
    ||| match s.all_fields {
        Some(fs) => field_names(fs).contains(left),
        None => field_names(s.selected).contains(left),
    }
}

/// The state after adding filter `f` (assuming it passed validation).
pub open spec fn with_filter(s: ScreenerState, f: FilterV) -> ScreenerState {
    ScreenerState { filters: add_filter_spec(s.filters, f), ..s }
}

/// Whether adding a filter with key `left` is rejected.
pub open spec fn rejects(s: ScreenerState, left: Seq<char>) -> bool {
    s.validate && !allowed_spec(s, left)
}

/// The `symbols` block after `set_index` with wire values `wires` (non-empty).
pub open spec fn index_symbols_spec(symbols: Option<JsonV>, wires: Seq<Seq<char>>) -> JsonV {
    let arr = JsonV::Array(str_jsons(wires));
    match symbols {
        Some(JsonV::Object(es)) => JsonV::Object(insert_key(es, "symbolset"@, arr)),
        _ => JsonV::Object(seq![("symbolset"@, arr)]),
    }
}

/// A JSON array of strings.
pub open spec fn str_jsons(s: Seq<Seq<char>>) -> Seq<JsonV> {
    s.map_values(|t: Seq<char>| JsonV::Str(t))
}

/// The filter objects of a filter list.
pub open spec fn filters_json(fs: Seq<FilterV>) -> Seq<JsonV> {
    fs.map_values(|f: FilterV| filter_json(f))
}

/// The index wire values of a list of symbols.
pub open spec fn wires_spec(s: Seq<Seq<char>>) -> Seq<Seq<char>> {
    s.map_values(|x: Seq<char>| symbolset_wire_spec(x))
}

/// The default `symbols` block: `{"query": {"types": []}, "tickers": []}`.
pub open spec fn default_symbols() -> JsonV {
    JsonV::Object(
        seq![
            ("query"@, JsonV::Object(seq![("types"@, JsonV::Array(Seq::empty()))])),
            ("tickers"@, JsonV::Array(Seq::empty())),
        ],
    )
}

/// The `sort` member: `null`, or `{"sortBy": field, "sortOrder": "asc" | "desc"}`.
pub open spec fn sort_json(sort_by: Option<(Seq<char>, bool)>) -> JsonV {
    match sort_by {
        Some((f, asc)) => JsonV::Object(
            seq![
                ("sortBy"@, JsonV::Str(f)),
                ("sortOrder"@, JsonV::Str(
                    if asc {
                        "asc"@
                    } else {
                        "desc"@
                    },
                )),
            ],
        ),
        None => JsonV::Null,
    }
}

/// Inserts each entry of `more` in order.
pub open spec fn insert_all(base: Seq<(Seq<char>, JsonV)>, more: Seq<(Seq<char>, JsonV)>) -> Seq<
    (Seq<char>, JsonV),
>
    decreases more.len(),
{
    if more.len() == 0 {
        base
    } else {
        let p = insert_all(base, more.drop_last());
        insert_key(p, more.last().0, more.last().1)
    }
}

/// The fixed members of the payload: `columns`, `filter`, `options`,
/// `range`, `sort`, `symbols`.
pub open spec fn payload_base(s: ScreenerState, cols: Seq<Column>) -> Seq<(Seq<char>, JsonV)> {
    seq![
        ("columns"@, JsonV::Array(str_jsons(techs(cols)))),
        ("filter"@, JsonV::Array(filters_json(s.filters))),
        ("options"@, JsonV::Object(s.options)),
        ("range"@, JsonV::Array(seq![num_v(s.range_from as nat), num_v(s.range_to as nat)])),
        ("sort"@, sort_json(s.sort_by)),
        ("symbols"@, symbols_or_default(s.symbols)),
    ]
}

/// The `symbols` member: the configured block, or the default one.
pub open spec fn symbols_or_default(symbols: Option<JsonV>) -> JsonV {
    match symbols {
        Some(v) => v,
        None => default_symbols(),
    }
}

/// Adds the `markets` member when markets are set.
pub open spec fn with_markets(es: Seq<(Seq<char>, JsonV)>, markets: Option<Seq<Seq<char>>>) -> Seq<
    (Seq<char>, JsonV),
> {
    match markets {
        Some(m) => insert_key(es, "markets"@, JsonV::Array(str_jsons(m))),
        None => es,
    }
}

/// The scan payload for state `s` requesting columns `cols`: `columns`,
/// `filter`, `options`, `range`, `sort`, `symbols`, then each `misc` entry,
/// then `markets` when set.
pub open spec fn payload_spec(s: ScreenerState, cols: Seq<Column>) -> JsonV {
    JsonV::Object(with_markets(insert_all(payload_base(s, cols), s.misc), s.markets))
}

/// Whether every candidate value occurs among the current values.
fn values_are_subset(candidate: &Vec<JsonValue>, current: &Vec<JsonValue>) -> (r: bool)
    ensures
        r == values_subset(jvs(candidate@), jvs(current@)),
{
    let ghost cur = jvs(current@);
    let ghost cand = jvs(candidate@);
    let mut i: usize = 0;
    while i < candidate.len()
        invariant
            cur == jvs(current@),
            cand == jvs(candidate@),
            i <= candidate.len(),
            forall|k: int| 0 <= k < i ==> holds_value(cur, #[trigger] cand[k]),
        decreases candidate.len() - i,
    {
        if !contains_value(current, &candidate[i]) {
            assert(!holds_value(cur, cand[i as int]));
            return false;
        }
        i = i + 1;
    }
    true
}

/// Whether `v` occurs among `values` (JSON equality).
fn contains_value(values: &Vec<JsonValue>, v: &JsonValue) -> (r: bool)
    ensures
        r == holds_value(jvs(values@), v@),
{
    let ghost vs = jvs(values@);
    let mut i: usize = 0;
    while i < values.len()
        invariant
            vs == jvs(values@),
            i <= values.len(),
            forall|k: int| 0 <= k < i ==> !json_same(#[trigger] vs[k], v@),
        decreases values.len() - i,
    {
        if json_eq(&values[i], v) {
            assert(json_same(vs[i as int], v@));
            return true;
        }
        i = i + 1;
    }
    false
}

/// Merges `new_filter` into `current` (same `left`).
fn merge_filters(current: &Filter, new_filter: &Filter) -> (r: Filter)
    ensures
        r@ == merge_spec(current@, new_filter@),
{
    if values_are_subset(&new_filter.values, &current.values) {
        return current.clone();
    }
    let mut values = crate::filter::clone_values(&current.values);
    let mut i: usize = 0;
    assert(new_filter@.values.take(0) =~= Seq::<JsonV>::empty());
    while i < new_filter.values.len()
        invariant
            i <= new_filter.values.len(),
            jvs(values@) == append_new(current@.values, new_filter@.values.take(i as int)),
        decreases new_filter.values.len() - i,
    {
        proof {
            assert(new_filter@.values.take(i + 1).drop_last() =~= new_filter@.values.take(
                i as int,
            ));
        }
        if !contains_value(&values, &new_filter.values[i]) {
            let c = json_clone(&new_filter.values[i]);
            let ghost prev = values@;
            values.push(c);
            assert(jvs(values@) =~= jvs(prev).push(c@));
        }
        i = i + 1;
    }
    assert(new_filter@.values.take(new_filter@.values.len() as int) =~= new_filter@.values);
    Filter { left: current.left.clone(), operation: FilterOperator::InRange, values }
}

/// Index of the first filter with key `left`.
fn find_filter_index(filters: &Vec<Filter>, left: &str) -> (r: Option<usize>)
    ensures
        match r {
            Some(i) => first_left(filters_view(filters@), left@, i as int),
            None => !has_left(filters_view(filters@), left@),
        },
{
    let ghost fs = filters_view(filters@);
    let mut i: usize = 0;
    while i < filters.len()
        invariant
            fs == filters_view(filters@),
            i <= filters.len(),
            forall|k: int| 0 <= k < i ==> fs[k].left != left@,
        decreases filters.len() - i,
    {
        if str_eq(filters[i].left.as_str(), left) {
            return Some(i);
        }
        i = i + 1;
    }
    None
}

proof fn lemma_first_left_unique(fs: Seq<FilterV>, left: Seq<char>, i: int, j: int)
    requires
        first_left(fs, left, i),
        first_left(fs, left, j),
    ensures
        i == j,
{
    if i < j {
        assert(fs[i].left != left);
    } else if j < i {
        assert(fs[j].left != left);
    }
}

/// The scan response rows, or the message of the first decoding failure.
pub struct RowV {
    pub symbol: Seq<char>,
    pub data: Seq<(Seq<char>, JsonV)>,
}

/// One row from a screener scan response: a symbol plus column label → value.
#[derive(Debug)]
pub struct ScreenerRow {
    /// `TradingView` symbol (e.g. `"BINANCE:BTCUSDT"`).
    pub symbol: String,
    /// Column label → value for the selected fields (each label once).
    pub data: Vec<(String, JsonValue)>,
}

impl View for ScreenerRow {
    type V = RowV;

    open spec fn view(&self) -> RowV {
        RowV { symbol: self.symbol@, data: entries_view(self.data@) }
    }
}

/// The views of a list of rows.
pub open spec fn rows_view(rows: Seq<ScreenerRow>) -> Seq<RowV> {
    rows.map_values(|r: ScreenerRow| r@)
}

/// Member `k` of a JSON object (`Value::get`); `None` for non-objects.
pub open spec fn get_member(v: JsonV, k: Seq<char>) -> Option<JsonV> {
    match v {
        JsonV::Object(es) => lookup_key(es, k),
        _ => None,
    }
}

/// Pairs the first `n` column labels with the first `n` values, inserting each in order.
pub open spec fn zip_labels(cols: Seq<Column>, values: Seq<JsonV>, n: int) -> Seq<(Seq<char>, JsonV)>
    decreases n,
{
    if n <= 0 {
        Seq::empty()
    } else {
        insert_key(zip_labels(cols, values, n - 1), cols[n - 1].1, values[n - 1])
    }
}

/// The shorter of two lengths.
pub open spec fn min_len(a: int, b: int) -> int {
    if a <= b {
        a
    } else {
        b
    }
}

/// Decoding one response entry: `{"s": symbol, "d": [values…]}`.
pub open spec fn parse_entry(e: JsonV, cols: Seq<Column>) -> Result<RowV, Seq<char>> {
    match get_member(e, "s"@) {
        Some(JsonV::Str(sym)) => match get_member(e, "d"@) {
            Some(JsonV::Array(vs)) => Ok(
                RowV {
                    symbol: sym,
                    data: zip_labels(cols, vs, min_len(cols.len() as int, vs.len() as int)),
                },
            ),
            _ => Err("row missing data array"@),
        },
        _ => Err("row missing symbol"@),
    }
}

/// Decoding a list of response entries; the first failing entry decides the error.
pub open spec fn parse_entries(es: Seq<JsonV>, cols: Seq<Column>) -> Result<Seq<RowV>, Seq<char>>
    decreases es.len(),
{
    if es.len() == 0 {
        Ok(Seq::empty())
    } else {
        match parse_entries(es.drop_last(), cols) {
            Err(m) => Err(m),
            Ok(rows) => match parse_entry(es.last(), cols) {
                Err(m) => Err(m),
                Ok(r) => Ok(rows.push(r)),
            },
        }
    }
}

/// Decoding a scan response body.
pub open spec fn parse_rows_spec(body: JsonV, cols: Seq<Column>) -> Result<Seq<RowV>, Seq<char>> {
    match get_member(body, "data"@) {
        Some(JsonV::Array(es)) => parse_entries(es, cols),
        _ => Err("response missing data array"@),
    }
}

/// Decodes one response entry.
fn parse_entry_exec(entry: &JsonValue, columns: &Vec<(String, String)>) -> (r: Result<
    ScreenerRow,
    TvscreenerError,
>)
    ensures
        match parse_entry(entry@, cols_view(columns@)) {
            Ok(row) => r matches Ok(x) && x@ == row,
            Err(m) => r matches Err(TvscreenerError::Json(e)) && e@ == m,
        },
{
    let symbol = match entry.get("s") {
        Some(v) => match v.as_str() {
            Some(s) => own(s),
            None => {
                return Err(TvscreenerError::Json(own("row missing symbol")));
            },
        },
        None => {
            return Err(TvscreenerError::Json(own("row missing symbol")));
        },
    };
    let values = match entry.get("d") {
        Some(v) => match v.as_array() {
            Some(a) => a,
            None => {
                return Err(TvscreenerError::Json(own("row missing data array")));
            },
        },
        None => {
            return Err(TvscreenerError::Json(own("row missing data array")));
        },
    };
    let ghost cv = cols_view(columns@);
    let ghost vv = jvs(values@);
    let n = if columns.len() <= values.len() {
        columns.len()
    } else {
        values.len()
    };
    let mut map: Vec<(String, JsonValue)> = Vec::new();
    let mut i: usize = 0;
    assert(entries_view(map@) =~= Seq::<(Seq<char>, JsonV)>::empty());
    while i < n
        invariant
            cv == cols_view(columns@),
            vv == jvs(values@),
            n <= columns.len(),
            n <= values.len(),
            i <= n,
            entries_view(map@) == zip_labels(cv, vv, i as int),
        decreases n - i,
    {
        insert_entry(&mut map, columns[i].1.clone(), json_clone(&values[i]));
        i = i + 1;
    }
    Ok(ScreenerRow { symbol, data: map })
}

/// Copies a list of strings.
fn clone_str_vec(v: &Vec<String>) -> (r: Vec<String>)
    ensures
        r@ == v@,
{
    crate::field::clone_strings(v)
}

/// Copies a list of field definitions.
pub fn clone_fields(v: &Vec<FieldDef>) -> (r: Vec<FieldDef>)
    ensures
        r@ == v@,
{
    let mut r: Vec<FieldDef> = Vec::new();
    let mut i: usize = 0;
    while i < v.len()
        invariant
            i <= v.len(),
            r@ == v@.take(i as int),
        decreases v.len() - i,
    {
        r.push(v[i].clone());
        i = i + 1;
        assert(r@ =~= v@.take(i as int));
    }
    assert(v@.take(v@.len() as int) =~= v@);
    r
}

/// A JSON array of strings.
fn str_array(v: &Vec<String>) -> (r: JsonValue)
    ensures
        r@ == JsonV::Array(str_jsons(str_views(v@))),
{
    let mut a: Vec<JsonValue> = Vec::new();
    let mut i: usize = 0;
    while i < v.len()
        invariant
            i <= v.len(),
            jvs(a@) == str_jsons(str_views(v@).take(i as int)),
        decreases v.len() - i,
    {
        let ghost prev = a@;
        let s = JsonValue::Str(v[i].clone());
        a.push(s);
        assert(jvs(a@) =~= jvs(prev).push(JsonV::Str(v@[i as int]@)));
        i = i + 1;
        assert(jvs(a@) =~= str_jsons(str_views(v@).take(i as int)));
    }
    assert(str_views(v@).take(v@.len() as int) =~= str_views(v@));
    proof {
        lemma_array_view(a);
    }
    JsonValue::Array(a)
}

/// Decodes a scan response body into rows keyed by column labels.
///
/// Fails with `Json` when `data`, a row's symbol `s`, or a row's value array
/// `d` is missing or of the wrong kind; values pair with column labels in
/// order, up to the shorter of the two lists.
pub fn parse_rows(body: &JsonValue, columns: &Vec<(String, String)>) -> (r: Result<
    Vec<ScreenerRow>,
    TvscreenerError,
>)
    ensures
        match parse_rows_spec(body@, cols_view(columns@)) {
            Ok(rows) => r matches Ok(v) && rows_view(v@) == rows,
            Err(m) => r matches Err(TvscreenerError::Json(e)) && e@ == m,
        },
{
    let data = match body.get("data") {
        Some(v) => match v.as_array() {
            Some(a) => a,
            None => {
                return Err(TvscreenerError::Json(own("response missing data array")));
            },
        },
        None => {
            return Err(TvscreenerError::Json(own("response missing data array")));
        },
    };
    let ghost cv = cols_view(columns@);
    let ghost es = jvs(data@);
    let mut rows: Vec<ScreenerRow> = Vec::new();
    let mut i: usize = 0;
    assert(rows_view(rows@) =~= Seq::<RowV>::empty());
    assert(es.take(0) =~= Seq::<JsonV>::empty());
    assert(parse_rows_spec(body@, cv) == parse_entries(es, cv));
    while i < data.len()
        invariant
            parse_rows_spec(body@, cv) == parse_entries(es, cv),
            cv == cols_view(columns@),
            es == jvs(data@),
            i <= data.len(),
            parse_entries(es.take(i as int), cv) == Ok::<Seq<RowV>, Seq<char>>(rows_view(rows@)),
        decreases data.len() - i,
    {
        proof {
            assert(es.take(i + 1).drop_last() =~= es.take(i as int));
            assert(es.take(i + 1).last() == data@[i as int]@);
        }
        match parse_entry_exec(&data[i], columns) {
            Ok(row) => {
                let ghost prev = rows@;
                rows.push(row);
                assert(rows_view(rows@) =~= rows_view(prev).push(rows@.last()@));
            },
            Err(e) => {
                proof {
                    let t = es.take(i + 1);
                    assert(t.drop_last() =~= es.take(i as int));
                    assert(parse_entries(t.drop_last(), cv) == Ok::<Seq<RowV>, Seq<char>>(
                        rows_view(rows@),
                    ));
                    assert(parse_entry(t.last(), cv) is Err);
                    assert(parse_entries(t, cv) == Err::<Seq<RowV>, Seq<char>>(
                        parse_entry(t.last(), cv)->Err_0,
                    ));
                    lemma_parse_entries_err(es, cv, (i + 1) as int);
                }
                return Err(e);
            },
        }
        i = i + 1;
    }
    assert(es.take(data@.len() as int) =~= es);
    Ok(rows)
}

/// Once a prefix of the entries fails to decode, the whole list fails with the same message.
proof fn lemma_parse_entries_err(es: Seq<JsonV>, cols: Seq<Column>, k: int)
    requires
        0 <= k <= es.len(),
        parse_entries(es.take(k), cols) is Err,
    ensures
        parse_entries(es, cols) == parse_entries(es.take(k), cols),
    decreases es.len() - k,
{
    if k < es.len() {
        let t = es.take(k + 1);
        assert(t.drop_last() =~= es.take(k));
        lemma_parse_entries_err(es, cols, k + 1);
    } else {
        assert(es.take(k) =~= es);
    }
}

/// What a scan sends: the URL, the payload, and the columns its rows are
/// decoded with.
pub struct ScanRequest {
    /// The scan URL.
    pub url: String,
    /// The POST body.
    pub payload: JsonValue,
    /// The `(technical name, label)` columns requested.
    pub columns: Vec<(String, String)>,
}

/// Whether a polling loop that has made `iteration` polls polls again (and,
/// after a poll, sleeps before it): always without a bound, else while under it.
pub fn stream_should_poll(iteration: usize, max_iterations: Option<usize>) -> (r: bool)
    ensures
        r == match max_iterations {
            Some(m) => iteration < m,
            None => true,
        },
{
    match max_iterations {
        Some(m) => iteration < m,
        None => true,
    }
}

/// `n` is where a long body is cut: the last character boundary at or
/// below 4096 bytes.
pub open spec fn body_cut_at(bytes: Seq<u8>, n: int) -> bool {
    &&& 0 <= n <= HTTP_ERROR_BODY_MAX
    &&& vstd::utf8::is_char_boundary(bytes, n)
    &&& forall|j: int| n < j <= HTTP_ERROR_BODY_MAX ==> !vstd::utf8::is_char_boundary(bytes, j)
}

/// An HTTP error body as kept in the error: the body itself up to 4 KiB,
/// else its characters up to the last character boundary at or below 4096
/// bytes, followed by `…`.
pub open spec fn http_body_cut(body: Seq<char>, kept: Seq<char>) -> bool {
    if vstd::utf8::encode_utf8(body).len() <= HTTP_ERROR_BODY_MAX {
        kept == body
    } else {
        exists|p: Seq<char>, n: int|
            body_cut_at(vstd::utf8::encode_utf8(body), n)
                && vstd::utf8::encode_utf8(p) == vstd::utf8::encode_utf8(body).take(n)
                && kept == p.push('…')
    }
}

/// Keeps the first 4 KiB of an HTTP error body, marking a cut with `…`.
///
/// A body longer than 4096 bytes is cut at the last character boundary at or
/// below 4096 bytes, so the kept part is whole characters. (The `requires`
/// is the machine limit: a string's byte length fits in `usize`.)
pub fn truncate_http_body(body: String) -> (r: String)
    requires
        vstd::utf8::encode_utf8(body@).len() <= usize::MAX,
    ensures
        http_body_cut(body@, r@),
{
    let bstr = body.as_str();
    let blen = bstr.len();
    assert(bstr.spec_bytes() == vstd::utf8::encode_utf8(body@));
    if blen <= HTTP_ERROR_BODY_MAX {
        body
    } else {
        let bs = body.as_str();
        let ghost bytes = bs.spec_bytes();
        assert(bytes == vstd::utf8::encode_utf8(body@));
        proof {
            vstd::utf8::encode_utf8_valid_utf8(body@);
            vstd::utf8::is_char_boundary_start_end_of_seq(bytes);
        }
        let mut n: usize = HTTP_ERROR_BODY_MAX;
        while !bs.is_char_boundary(n)
            invariant
                bytes == bs.spec_bytes(),
                vstd::utf8::valid_utf8(bytes),
                vstd::utf8::is_char_boundary(bytes, 0),
                n <= HTTP_ERROR_BODY_MAX,
                forall|j: int| n < j <= HTTP_ERROR_BODY_MAX ==> !vstd::utf8::is_char_boundary(bytes, j),
            decreases n,
        {
            n = n - 1;
        }
        let (head, _) = bs.split_at(n);
        let mut t = own(head);
        crate::text::push_char(&mut t, '…');
        proof {
            assert(head.spec_bytes() == vstd::utf8::encode_utf8(head@));
            assert(vstd::utf8::encode_utf8(head@) =~= bytes.take(n as int));
            assert(body_cut_at(bytes, n as int));
            let p = head@;
            let m = n as int;
            assert(body_cut_at(vstd::utf8::encode_utf8(body@), m)
                && vstd::utf8::encode_utf8(p) == vstd::utf8::encode_utf8(body@).take(m) && t@ == p.push('…'));
        }
        t
    }
}

/// What a scan answers for the HTTP response it got: a non-2xx status is an
/// `HttpStatus` error carrying the (cut) body; otherwise the body is read as
/// JSON (`Json` error when it is not JSON) and decoded into rows.
pub fn decode_response(status: u16, body_text: String, columns: &Vec<(String, String)>) -> (r: Result<
    Vec<ScreenerRow>,
    TvscreenerError,
>)
    requires
        vstd::utf8::encode_utf8(body_text@).len() <= usize::MAX,
    ensures
        !(200 <= status < 300) ==> (r matches Err(TvscreenerError::HttpStatus { status: s, body: b })
            && s == status && http_body_cut(body_text@, b@)),
        200 <= status < 300 ==> match json_text_parse(body_text@) {
            Err(m) => r matches Err(TvscreenerError::Json(e)) && e@ == m,
            Ok(v) => match parse_rows_spec(v, cols_view(columns@)) {
                Ok(rows) => r matches Ok(x) && rows_view(x@) == rows,
                Err(m) => r matches Err(TvscreenerError::Json(e)) && e@ == m,
            },
        },
{
    if !is_status_code_ok(status) {
        let ghost b = body_text@;
        let body = truncate_http_body(body_text);
        assert(http_body_cut(b, body@));
        return Err(TvscreenerError::HttpStatus { status, body });
    }
    match parse_json_text(body_text.as_str()) {
        Ok(v) => parse_rows(&v, columns),
        Err(m) => Err(TvscreenerError::Json(m)),
    }
}

impl Screener {
    /// Creates a screener targeting `subtype` (e.g. `"crypto"`, `"global"` for
    /// stocks): no URL override, no filters, `options = {"lang": "en"}`, no
    /// misc or symbols, no columns, range `[0, 150)`, no sort, validation off.
    pub fn new(subtype: String) -> (r: Screener)
        ensures
            r@.subtype == subtype@,
            r@.url.is_none(),
            r@.filters.len() == 0,
            r@.options == seq![("lang"@, JsonV::Str("en"@))],
            r@.misc.len() == 0,
            r@.symbols.is_none(),
            r@.selected.len() == 0,
            !r@.select_all,
            r@.all_fields.is_none(),
            r@.range_from == DEFAULT_MIN_RANGE,
            r@.range_to == DEFAULT_MAX_RANGE,
            r@.sort_by.is_none(),
            !r@.print_request,
            !r@.validate,
            r@.markets.is_none(),
            r@ == fresh_state(subtype@),
    {
        let mut options: Vec<(String, JsonValue)> = Vec::new();
        options.push((own("lang"), JsonValue::Str(own("en"))));
        let s = Screener {
            subtype,
            url: None,
            filters: Vec::new(),
            options,
            misc: Vec::new(),
            symbols: None,
            selected_fields: Vec::new(),
            select_all_fields: false,
            all_fields: None,
            range_from: DEFAULT_MIN_RANGE,
            range_to: DEFAULT_MAX_RANGE,
            sort_by: None,
            print_request: false,
            validate_filter_fields: false,
            markets: None,
            timeout: duration_from_secs(DEFAULT_TIMEOUT_SECS),
        };
        assert(entries_view(s.options@) =~= seq![("lang"@, JsonV::Str("en"@))]);
        assert(filters_view(s.filters@) =~= Seq::<FilterV>::empty());
        assert(entries_view(s.misc@) =~= Seq::<(Seq<char>, JsonV)>::empty());
        s
    }

    /// Overrides the HTTP request timeout.
    pub fn set_timeout(&mut self, timeout: Duration) -> (r: &mut Self)
        ensures
            r@ == (ScreenerState { timeout, ..old(self)@ }),
            final(self)@ == final(r)@,
    {
        self.timeout = timeout;
        self
    }

    /// The configured HTTP timeout.
    pub fn timeout(&self) -> (r: Duration)
        ensures
            r == self@.timeout,
    {
        self.timeout
    }

    /// Overrides the POST URL (defaults to [`get_url`] of the subtype).
    pub fn set_url(&mut self, url: String) -> (r: &mut Self)
        ensures
            r@ == (ScreenerState { url: Some(url@), ..old(self)@ }),
            final(self)@ == final(r)@,
    {
        self.url = Some(url);
        self
    }

    /// Registers the field set that [`Screener::select_all`] selects and that
    /// filter validation allows.
    pub fn set_all_fields_fn(&mut self, fields: Vec<FieldDef>) -> (r: &mut Self)
        ensures
            r@ == (ScreenerState { all_fields: Some(fields@), ..old(self)@ }),
            final(self)@ == final(r)@,
    {
        self.all_fields = Some(fields);
        self
    }

    /// Restricts requested columns, replacing any prior selection.
    pub fn select(&mut self, fields: Vec<FieldDef>) -> (r: &mut Self)
        ensures
            r@ == (ScreenerState { selected: fields@, select_all: false, ..old(self)@ }),
            final(self)@ == final(r)@,
    {
        self.selected_fields = fields;
        self.select_all_fields = false;
        self
    }

    /// Selects the registered all-fields set; `InvalidRequest` when none was registered.
    pub fn select_all(&mut self) -> (r: Result<&mut Self, TvscreenerError>)
        ensures
            match old(self)@.all_fields {
                Some(fs) => r matches Ok(m) && m@ == (ScreenerState {
                    selected: fs,
                    select_all: true,
                    ..old(self)@
                }) && final(self)@ == final(m)@,
                None => r matches Err(TvscreenerError::InvalidRequest(e)) && e@
                    == "select_all requires set_all_fields_fn on this screener"@ && final(self)@
                    == old(self)@,
            },
    {
        match &self.all_fields {
            Some(fs) => {
                let sel = clone_fields(fs);
                self.selected_fields = sel;
                self.select_all_fields = true;
                Ok(self)
            },
            None => Err(
                TvscreenerError::InvalidRequest(
                    own("select_all requires set_all_fields_fn on this screener"),
                ),
            ),
        }
    }

    /// Whether `left` is allowed when filter validation is enabled.
    pub fn filter_left_allowed(&self, left: &str) -> (r: bool)
        ensures
            r == allowed_spec(self@, left@),
    {
        if str_eq(left, "type") || str_eq(left, "subtype") || str_eq(
            left,
            ExtraFilter::CurrentTradingDay.field_name(),
        ) || str_eq(left, ExtraFilter::Search.field_name()) || str_eq(
            left,
            ExtraFilter::Primary.field_name(),
        ) {
            return true;
        }
        let fs = match &self.all_fields {
            Some(fs) => fs,
            None => &self.selected_fields,
        };
        let ghost names = field_names(fs@);
        let mut i: usize = 0;
        while i < fs.len()
            invariant
                names == field_names(fs@),
                fs@ == match self@.all_fields {
                    Some(a) => a,
                    None => self@.selected,
                },
                i <= fs.len(),
                forall|k: int| 0 <= k < i ==> names[k] != left@,
            decreases fs.len() - i,
        {
            if str_eq(fs[i].field_name.as_str(), left) {
                assert(names[i as int] == left@);
                return true;
            }
            i = i + 1;
        }
        false
    }

    /// Enables or disables filter-field validation (default: off).
    pub fn set_validate_filter_fields(&mut self, enable: bool) -> (r: &mut Self)
        ensures
            r@ == (ScreenerState { validate: enable, ..old(self)@ }),
            final(self)@ == final(r)@,
    {
        self.validate_filter_fields = enable;
        self
    }

    /// Whether filter keys are validated against the allowed field set.
    pub fn validate_filter_fields(&self) -> (r: bool)
        ensures
            r == self@.validate,
    {
        self.validate_filter_fields
    }

    /// Appends or merges a filter clause.
    ///
    /// With validation on and `left` not allowed, fails with
    /// `InvalidFieldName(left)` and leaves the screener unchanged; otherwise
    /// merges into the first filter with the same `left`, or appends.
    pub fn add_filter(&mut self, left: String, operation: FilterOperator, values: Vec<JsonValue>) -> (r:
        Result<&mut Self, TvscreenerError>)
        ensures
            ({
                let f = FilterV { left: left@, operation, values: jvs(values@) };
                if rejects(old(self)@, left@) {
                    r matches Err(TvscreenerError::InvalidFieldName(e)) && e@ == left@ && final(self)@ == old(self)@
                } else {
                    r matches Ok(m) && m@ == with_filter(old(self)@, f) && final(self)@ == final(m)@
                }
            }),
    {
        if self.validate_filter_fields && !self.filter_left_allowed(left.as_str()) {
            return Err(TvscreenerError::InvalidFieldName(left));
        }
        let ghost fs = filters_view(self.filters@);
        let new_filter = Filter::new(left, operation, values);
        match find_filter_index(&self.filters, new_filter.left.as_str()) {
            Some(i) => {
                let merged = merge_filters(&self.filters[i], &new_filter);
                self.filters.set(i, merged);
                proof {
                    let c = choose|c: int| first_left(fs, new_filter@.left, c);
                    lemma_first_left_unique(fs, new_filter@.left, i as int, c);
                    assert(filters_view(self.filters@) =~= fs.update(
                        i as int,
                        merge_spec(fs[i as int], new_filter@),
                    ));
                }
            },
            None => {
                let mut f = new_filter;
                if f.values.len() == 1 && f.operation == FilterOperator::InRange {
                    f.operation = FilterOperator::Equal;
                }
                let ghost fv = f@;
                self.filters.push(f);
                assert(filters_view(self.filters@) =~= fs.push(fv));
            },
        }
        Ok(self)
    }

    /// Appends or merges a filter on an [`ExtraFilter`] key (always allowed).
    pub fn add_extra_filter(&mut self, extra: ExtraFilter, operation: FilterOperator, values: Vec<
        JsonValue,
    >) -> (r: Result<&mut Self, TvscreenerError>)
        ensures
            r matches Ok(m) && m@ == with_filter(
                old(self)@,
                FilterV { left: extra_str(extra), operation, values: jvs(values@) },
            ) && final(self)@ == final(m)@,
    {
        let filter = Filter::on_extra(extra, operation, values);
        self.add_filter(filter.left, filter.operation, filter.values)
    }

    /// Appends or merges a filter from a [`FieldCondition`].
    pub fn where_condition(&mut self, condition: FieldCondition) -> (r: Result<
        &mut Self,
        TvscreenerError,
    >)
        ensures
            ({
                let f = FilterV {
                    left: condition.left@,
                    operation: condition.operation,
                    values: seq![condition.value@],
                };
                if rejects(old(self)@, condition.left@) {
                    r matches Err(TvscreenerError::InvalidFieldName(e)) && e@ == condition.left@
                        && final(self)@ == old(self)@
                } else {
                    r matches Ok(m) && m@ == with_filter(old(self)@, f) && final(self)@ == final(m)@
                }
            }),
    {
        let filter = condition.into_filter();
        self.add_filter(filter.left, filter.operation, filter.values)
    }

    /// Adds a name/description `match` search filter.
    pub fn search(&mut self, value: String) -> (r: Result<&mut Self, TvscreenerError>)
        ensures
            r matches Ok(m) && m@ == with_filter(
                old(self)@,
                FilterV {
                    left: extra_str(ExtraFilter::Search),
                    operation: FilterOperator::Match,
                    values: seq![JsonV::Str(value@)],
                },
            ) && final(self)@ == final(m)@,
    {
        let ghost vv = value@;
        let mut values: Vec<JsonValue> = Vec::new();
        values.push(JsonValue::Str(value));
        assert(jvs(values@) =~= seq![JsonV::Str(vv)]);
        self.add_extra_filter(ExtraFilter::Search, FilterOperator::Match, values)
    }

    /// Removes the first filter whose `left` matches.
    pub fn remove_filter(&mut self, left: &str) -> (r: &mut Self)
        ensures
            r@ == (ScreenerState {
                filters: remove_filter_spec(old(self)@.filters, left@),
                ..old(self)@
            }),
            final(self)@ == final(r)@,
    {
        let ghost fs = filters_view(self.filters@);
        match find_filter_index(&self.filters, left) {
            Some(i) => {
                self.filters.remove(i);
                proof {
                    let c = choose|c: int| first_left(fs, left@, c);
                    lemma_first_left_unique(fs, left@, i as int, c);
                    assert(filters_view(self.filters@) =~= fs.remove(i as int));
                }
            },
            None => {},
        }
        self
    }

    /// Sets the `[from, to)` result window.
    pub fn set_range(&mut self, from_range: u32, to_range: u32) -> (r: &mut Self)
        ensures
            r@ == (ScreenerState { range_from: from_range, range_to: to_range, ..old(self)@ }),
            final(self)@ == final(r)@,
    {
        self.range_from = from_range;
        self.range_to = to_range;
        self
    }

    /// Sets the sort column (technical name) and direction.
    pub fn sort_by(&mut self, field_name: String, ascending: bool) -> (r: &mut Self)
        ensures
            r@ == (ScreenerState { sort_by: Some((field_name@, ascending)), ..old(self)@ }),
            final(self)@ == final(r)@,
    {
        self.sort_by = Some((field_name, ascending));
        self
    }

    /// Sets the sort column from a [`FieldDef`] (its technical name).
    pub fn sort_by_field(&mut self, field: &FieldDef, ascending: bool) -> (r: &mut Self)
        ensures
            r@ == (ScreenerState { sort_by: Some((field.field_name@, ascending)), ..old(self)@ }),
            final(self)@ == final(r)@,
    {
        self.sort_by(field.field_name.clone(), ascending)
    }

    /// Enables debug logging of the scan URL and payload.
    pub fn set_debug(&mut self, enable: bool) -> (r: &mut Self)
        ensures
            r@ == (ScreenerState { print_request: enable, ..old(self)@ }),
            final(self)@ == final(r)@,
    {
        self.print_request = enable;
        self
    }

    /// Alias for [`Screener::set_debug`].
    pub fn set_print_request(&mut self, enable: bool) -> (r: &mut Self)
        ensures
            r@ == (ScreenerState { print_request: enable, ..old(self)@ }),
            final(self)@ == final(r)@,
    {
        self.set_debug(enable)
    }

    /// Whether debug logging of the request is on.
    pub fn print_request(&self) -> (r: bool)
        ensures
            r == self@.print_request,
    {
        self.print_request
    }

    /// Adds one scan `options` entry (replacing a previous value of the key).
    pub fn add_option(&mut self, key: String, value: JsonValue) -> (r: &mut Self)
        ensures
            r@ == (ScreenerState {
                options: insert_key(old(self)@.options, key@, value@),
                ..old(self)@
            }),
            final(self)@ == final(r)@,
    {
        insert_entry(&mut self.options, key, value);
        self
    }

    /// Adds one top-level payload key outside `filter` / `columns`.
    pub fn add_misc(&mut self, key: String, value: JsonValue) -> (r: &mut Self)
        ensures
            r@ == (ScreenerState { misc: insert_key(old(self)@.misc, key@, value@), ..old(self)@ }),
            final(self)@ == final(r)@,
    {
        insert_entry(&mut self.misc, key, value);
        self
    }

    /// Restricts results to index symbol sets.
    ///
    /// Catalog values like `"SP;SPX"` are sent as `"SYML:SP;SPX"`; values
    /// already prefixed are left unchanged. An empty list changes nothing;
    /// otherwise `symbolset` is set in the existing `symbols` object, or
    /// `symbols` becomes `{"symbolset": [...]}`.
    pub fn set_index(&mut self, symbolsets: Vec<String>) -> (r: &mut Self)
        ensures
            ({
                let wires = wires_spec(str_views(symbolsets@));
                if symbolsets@.len() == 0 {
                    r@ == old(self)@
                } else {
                    r@ == (ScreenerState {
                        symbols: Some(index_symbols_spec(old(self)@.symbols, wires)),
                        ..old(self)@
                    })
                }
            }),
            final(self)@ == final(r)@,
    {
        let ghost wires = wires_spec(str_views(symbolsets@));
        let mut symbolset: Vec<String> = Vec::new();
        let mut i: usize = 0;
        while i < symbolsets.len()
            invariant
                i <= symbolsets.len(),
                wires == wires_spec(str_views(symbolsets@)),
                str_views(symbolset@) == wires.take(i as int),
            decreases symbolsets.len() - i,
        {
            let w = to_symbolset_wire(symbolsets[i].as_str());
            let ghost prev = symbolset@;
            symbolset.push(w);
            assert(str_views(symbolset@) =~= str_views(prev).push(w@));
            i = i + 1;
            assert(str_views(symbolset@) =~= wires.take(i as int));
        }
        if symbolset.len() == 0 {
            return self;
        }
        assert(wires.take(symbolsets@.len() as int) =~= wires);
        let arr = str_array(&symbolset);
        let ghost arrv = arr@;
        let taken = self.symbols.take();
        match taken {
            Some(JsonValue::Object(mut map)) => {
                proof {
                    lemma_object_view(map);
                }
                insert_entry(&mut map, own("symbolset"), arr);
                proof {
                    lemma_object_view(map);
                }
                self.symbols = Some(JsonValue::Object(map));
            },
            other => {
                let mut o: Vec<(String, JsonValue)> = Vec::new();
                o.push((own("symbolset"), arr));
                proof {
                    lemma_object_view(o);
                    assert(entries_view(o@) =~= seq![("symbolset"@, arrv)]);
                }
                self.symbols = Some(JsonValue::Object(o));
            },
        }
        self
    }

    /// Sets the `symbols` block of the payload.
    pub fn set_symbols(&mut self, symbols: JsonValue) -> (r: &mut Self)
        ensures
            r@ == (ScreenerState { symbols: Some(symbols@), ..old(self)@ }),
            final(self)@ == final(r)@,
    {
        self.symbols = Some(symbols);
        self
    }

    /// Sets the market filters sent as top-level `"markets"`.
    pub fn set_markets(&mut self, markets: Vec<String>) -> (r: &mut Self)
        ensures
            r@ == (ScreenerState { markets: Some(str_views(markets@)), ..old(self)@ }),
            final(self)@ == final(r)@,
    {
        self.markets = Some(markets);
        self
    }

    /// The configured filters.
    pub fn filters(&self) -> (r: &Vec<Filter>)
        ensures
            filters_view(r@) == self@.filters,
    {
        &self.filters
    }

    /// Whether `select_all` was used for the current selection.
    pub fn is_select_all(&self) -> (r: bool)
        ensures
            r == self@.select_all,
    {
        self.select_all_fields
    }

    /// The configured result range `(from, to)`.
    pub fn range(&self) -> (r: (u32, u32))
        ensures
            r == (self@.range_from, self@.range_to),
    {
        (self.range_from, self.range_to)
    }

    /// The selected field definitions.
    pub fn selected_fields(&self) -> (r: &Vec<FieldDef>)
        ensures
            r@ == self@.selected,
    {
        &self.selected_fields
    }

    /// The URL the scan is POSTed to: the override, or [`get_url`] of the subtype.
    pub fn request_url(&self) -> (r: String)
        ensures
            r@ == match self@.url {
                Some(u) => u,
                None => url_spec(self@.subtype),
            },
    {
        match &self.url {
            Some(u) => u.clone(),
            None => get_url(self.subtype.as_str()),
        }
    }

    /// The selected fields; `InvalidRequest` when none are selected.
    /// What a scan of this screener sends: nothing when no field is selected
    /// (`InvalidRequest`), else the request URL, the payload and the columns
    /// its rows are decoded with. The reply then goes to [`decode_response`]
    /// with these columns.
    pub fn scan_request(&self) -> (r: Result<ScanRequest, TvscreenerError>)
        ensures
            if self@.selected.len() == 0 {
                r matches Err(TvscreenerError::InvalidRequest(m)) && m@
                    == "no fields selected; call select() or select_all()"@
            } else {
                r matches Ok(q) && q.url@ == match self@.url {
                    Some(u) => u,
                    None => url_spec(self@.subtype),
                } && q.payload@ == payload_spec(self@, crate::util::columns_spec(self@.selected))
                    && cols_view(q.columns@) == crate::util::columns_spec(self@.selected)
            },
    {
        let fields = match self.resolved_fields() {
            Ok(f) => f,
            Err(e) => {
                return Err(e);
            },
        };
        let columns = crate::util::get_columns_to_request(&fields);
        let payload = match self.build_payload() {
            Ok(p) => p,
            Err(e) => {
                return Err(e);
            },
        };
        Ok(ScanRequest { url: self.request_url(), payload, columns })
    }

    pub fn resolved_fields(&self) -> (r: Result<Vec<FieldDef>, TvscreenerError>)
        ensures
            if self@.selected.len() == 0 {
                r matches Err(TvscreenerError::InvalidRequest(m)) && m@
                    == "no fields selected; call select() or select_all()"@
            } else {
                r matches Ok(v) && v@ == self@.selected
            },
    {
        if self.selected_fields.len() == 0 {
            return Err(
                TvscreenerError::InvalidRequest(own("no fields selected; call select() or select_all()")),
            );
        }
        Ok(clone_fields(&self.selected_fields))
    }

    /// The `sort` member of the payload, when a sort is set.
    fn build_sort(&self) -> (r: JsonValue)
        ensures
            r@ == sort_json(self@.sort_by),
    {
        match &self.sort_by {
            Some((field, ascending)) => {
                let mut o: Vec<(String, JsonValue)> = Vec::new();
                o.push((own("sortBy"), JsonValue::Str(field.clone())));
                let order = if *ascending {
                    own("asc")
                } else {
                    own("desc")
                };
                let ghost ov = order@;
                o.push((own("sortOrder"), JsonValue::Str(order)));
                proof {
                    lemma_object_view(o);
                    assert(entries_view(o@) =~= seq![
                        ("sortBy"@, JsonV::Str(field@)),
                        ("sortOrder"@, JsonV::Str(ov)),
                    ]);
                }
                JsonValue::Object(o)
            },
            None => JsonValue::Null,
        }
    }

    /// Builds the JSON POST body.
    ///
    /// Fails with `InvalidRequest` when no fields were selected.
    pub fn build_payload(&self) -> (r: Result<JsonValue, TvscreenerError>)
        ensures
            if self@.selected.len() == 0 {
                r matches Err(TvscreenerError::InvalidRequest(m)) && m@
                    == "no fields selected; call select() or select_all()"@
            } else {
                r matches Ok(p) && p@ == payload_spec(self@, crate::util::columns_spec(self@.selected))
            },
    {
        let fields = match self.resolved_fields() {
            Ok(f) => f,
            Err(e) => {
                return Err(e);
            },
        };
        let columns = crate::util::get_columns_to_request(&fields);
        let ghost cv = cols_view(columns@);
        let mut cols_json: Vec<JsonValue> = Vec::new();
        let mut i: usize = 0;
        while i < columns.len()
            invariant
                cv == cols_view(columns@),
                i <= columns.len(),
                jvs(cols_json@) == str_jsons(techs(cv).take(i as int)),
            decreases columns.len() - i,
        {
            let ghost prev = cols_json@;
            cols_json.push(JsonValue::Str(columns[i].0.clone()));
            assert(jvs(cols_json@) =~= jvs(prev).push(JsonV::Str(cv[i as int].0)));
            i = i + 1;
            assert(jvs(cols_json@) =~= str_jsons(techs(cv).take(i as int)));
        }
        assert(techs(cv).take(columns@.len() as int) =~= techs(cv));
        proof {
            lemma_array_view(cols_json);
        }
        let mut filter_json_list: Vec<JsonValue> = Vec::new();
        let ghost fs = filters_view(self.filters@);
        i = 0;
        while i < self.filters.len()
            invariant
                fs == filters_view(self.filters@),
                i <= self.filters.len(),
                jvs(filter_json_list@) == filters_json(fs.take(i as int)),
            decreases self.filters.len() - i,
        {
            let ghost prev = filter_json_list@;
            let j = self.filters[i].to_json();
            filter_json_list.push(j);
            assert(jvs(filter_json_list@) =~= jvs(prev).push(filter_json(fs[i as int])));
            i = i + 1;
            assert(jvs(filter_json_list@) =~= filters_json(fs.take(i as int)));
        }
        assert(fs.take(self.filters@.len() as int) =~= fs);
        proof {
            lemma_array_view(filter_json_list);
        }
        let options = clone_entries(&self.options);
        proof {
            lemma_object_view(options);
        }
        let symbols = match &self.symbols {
            Some(s) => json_clone(s),
            None => default_symbols_value(),
        };
        let sort = self.build_sort();
        let mut range: Vec<JsonValue> = Vec::new();
        range.push(JsonValue::number(self.range_from as u64));
        range.push(JsonValue::number(self.range_to as u64));
        proof {
            lemma_array_view(range);
            assert(jvs(range@) =~= seq![
                num_v(self.range_from as nat),
                num_v(self.range_to as nat),
            ]);
        }
        let ghost colsv = JsonValue::Array(cols_json)@;
        let ghost filv = JsonValue::Array(filter_json_list)@;
        let ghost optv = JsonValue::Object(options)@;
        let ghost rangev = JsonValue::Array(range)@;
        let ghost sortv = sort@;
        let ghost symv = symbols@;
        let mut payload: Vec<(String, JsonValue)> = Vec::new();
        payload.push((own("columns"), JsonValue::Array(cols_json)));
        payload.push((own("filter"), JsonValue::Array(filter_json_list)));
        payload.push((own("options"), JsonValue::Object(options)));
        payload.push((own("range"), JsonValue::Array(range)));
        payload.push((own("sort"), sort));
        payload.push((own("symbols"), symbols));
        let ghost base = entries_view(payload@);
        assert(base =~= seq![
            ("columns"@, colsv),
            ("filter"@, filv),
            ("options"@, optv),
            ("range"@, rangev),
            ("sort"@, sortv),
            ("symbols"@, symv),
        ]);
        let ghost mv = entries_view(self.misc@);
        i = 0;
        assert(mv.take(0) =~= Seq::<(Seq<char>, JsonV)>::empty());
        while i < self.misc.len()
            invariant
                mv == entries_view(self.misc@),
                i <= self.misc.len(),
                entries_view(payload@) == insert_all(base, mv.take(i as int)),
            decreases self.misc.len() - i,
        {
            proof {
                assert(mv.take(i + 1).drop_last() =~= mv.take(i as int));
            }
            let k = self.misc[i].0.clone();
            let v = json_clone(&self.misc[i].1);
            insert_entry(&mut payload, k, v);
            i = i + 1;
        }
        assert(mv.take(self.misc@.len() as int) =~= mv);
        let ghost wm = entries_view(payload@);
        proof {
            assert(cv == crate::util::columns_spec(self@.selected));
            assert(colsv == JsonV::Array(str_jsons(techs(cv))));
            assert(filv == JsonV::Array(filters_json(self@.filters)));
            assert(optv == JsonV::Object(self@.options));
            assert(rangev == JsonV::Array(
                seq![num_v(self@.range_from as nat), num_v(self@.range_to as nat)],
            ));
            assert(sortv == sort_json(self@.sort_by));
            assert(symv == match self@.symbols {
                Some(v) => v,
                None => default_symbols(),
            });
            assert(wm == insert_all(base, self@.misc));
            assert(symv == symbols_or_default(self@.symbols));
            assert(base =~= payload_base(self@, cv));
        }
        match &self.markets {
            Some(m) => {
                let arr = str_array(m);
                insert_entry(&mut payload, own("markets"), arr);
                assert(self@.markets == Some(str_views(m@)));
                assert(entries_view(payload@) == insert_key(
                    wm,
                    "markets"@,
                    JsonV::Array(str_jsons(str_views(m@))),
                ));
                assert(JsonV::Object(entries_view(payload@)) == payload_spec(self@, cv));
            },
            None => {
                assert(self@.markets.is_none());
                assert(JsonV::Object(entries_view(payload@)) == payload_spec(self@, cv));
            },
        }
        proof {
            lemma_object_view(payload);
            assert(JsonValue::Object(payload)@ == payload_spec(self@, cv));
        }
        Ok(JsonValue::Object(payload))
    }
}

/// Copies object entries.
fn clone_entries(o: &Vec<(String, JsonValue)>) -> (r: Vec<(String, JsonValue)>)
    ensures
        entries_view(r@) == entries_view(o@),
{
    let mut r: Vec<(String, JsonValue)> = Vec::new();
    let mut i: usize = 0;
    while i < o.len()
        invariant
            i <= o.len(),
            entries_view(r@) == entries_view(o@).take(i as int),
        decreases o.len() - i,
    {
        let ghost prev = r@;
        let e = (o[i].0.clone(), json_clone(&o[i].1));
        r.push(e);
        assert(entries_view(r@) =~= entries_view(prev).push((o@[i as int].0@, o@[i as int].1@)));
        i = i + 1;
        assert(entries_view(r@) =~= entries_view(o@).take(i as int));
    }
    assert(entries_view(o@).take(o@.len() as int) =~= entries_view(o@));
    r
}

/// The default `symbols` block value.
fn default_symbols_value() -> (r: JsonValue)
    ensures
        r@ == default_symbols(),
{
    let types: Vec<JsonValue> = Vec::new();
    let tickers: Vec<JsonValue> = Vec::new();
    proof {
        lemma_array_view(types);
        lemma_array_view(tickers);
        assert(jvs(types@) =~= Seq::<JsonV>::empty());
    }
    let mut query: Vec<(String, JsonValue)> = Vec::new();
    query.push((own("types"), JsonValue::Array(types)));
    proof {
        lemma_object_view(query);
        assert(entries_view(query@) =~= seq![("types"@, JsonV::Array(Seq::empty()))]);
    }
    let ghost qv = JsonValue::Object(query)@;
    let mut o: Vec<(String, JsonValue)> = Vec::new();
    o.push((own("query"), JsonValue::Object(query)));
    o.push((own("tickers"), JsonValue::Array(tickers)));
    proof {
        lemma_object_view(o);
        assert(entries_view(o@) =~= seq![
            ("query"@, qv),
            ("tickers"@, JsonV::Array(Seq::empty())),
        ]);
    }
    JsonValue::Object(o)
}


/// Every filter key occurs once.
pub open spec fn lefts_unique(fs: Seq<FilterV>) -> bool {
    forall|i: int, j: int| 0 <= i < j < fs.len() ==> fs[i].left != fs[j].left
}

/// A key that occurs has a first occurrence.
pub proof fn lemma_has_left_first(fs: Seq<FilterV>, left: Seq<char>)
    requires
        has_left(fs, left),
    ensures
        exists|i: int| first_left(fs, left, i),
    decreases fs.len(),
{
    let p = fs.drop_last();
    if has_left(p, left) {
        lemma_has_left_first(p, left);
        let i = choose|i: int| first_left(p, left, i);
        assert forall|j: int| 0 <= j < i implies fs[j].left != left by {
            assert(p[j] == fs[j]);
        }
        assert(p[i] == fs[i]);
        assert(first_left(fs, left, i));
    } else {
        let n = fs.len() - 1;
        assert forall|j: int| 0 <= j < n implies fs[j].left != left by {
            assert(p[j] == fs[j]);
        }
        assert(fs[n].left == left);
        assert(first_left(fs, left, n));
    }
}

/// `append_new` keeps the current values in place and ends up holding every new value.
pub proof fn lemma_append_new(current: Seq<JsonV>, new: Seq<JsonV>)
    ensures
        current.is_prefix_of(append_new(current, new)),
        values_subset(new, append_new(current, new)),
    decreases new.len(),
{
    if new.len() > 0 {
        let p = append_new(current, new.drop_last());
        lemma_append_new(current, new.drop_last());
        let r = append_new(current, new);
        assert forall|i: int| 0 <= i < new.len() implies holds_value(r, #[trigger] new[i]) by {
            if i < new.len() - 1 {
                assert(new.drop_last()[i] == new[i]);
                assert(holds_value(p, new[i]));
                let k = choose|k: int| 0 <= k < p.len() && json_same(#[trigger] p[k], new[i]);
                if !holds_value(p, new.last()) {
                    assert(r[k] == p[k]);
                }
            } else if !holds_value(p, new.last()) {
                assert(r[p.len() as int] == new.last());
                lemma_json_same_refl(new.last());
            }
        }
    }
}

/// Merging keeps the filter's key, and the merged filter holds every new value.
pub proof fn lemma_merge_holds_new(current: FilterV, new: FilterV)
    ensures
        merge_spec(current, new).left == current.left,
        values_subset(new.values, merge_spec(current, new).values),
{
    lemma_append_new(current.values, new.values);
}

proof fn lemma_first_left_after_update(fs: Seq<FilterV>, left: Seq<char>, i: int, g: FilterV)
    requires
        first_left(fs, left, i),
        g.left == left,
    ensures
        first_left(fs.update(i, g), left, i),
{
}

/// Adding the same filter twice is the same as adding it once: after the
/// first addition every value of the filter is already present under its key.
pub proof fn lemma_add_filter_idempotent(fs: Seq<FilterV>, f: FilterV)
    ensures
        add_filter_spec(add_filter_spec(fs, f), f) == add_filter_spec(fs, f),
{
    let fs1 = add_filter_spec(fs, f);
    if has_left(fs, f.left) {
        lemma_has_left_first(fs, f.left);
        let i = choose|i: int| first_left(fs, f.left, i);
        let m = merge_spec(fs[i], f);
        lemma_merge_holds_new(fs[i], f);
        lemma_first_left_after_update(fs, f.left, i, m);
        assert(has_left(fs1, f.left));
        let j = choose|j: int| first_left(fs1, f.left, j);
        lemma_first_left_unique(fs1, f.left, i, j);
        assert(merge_spec(fs1[i], f) == fs1[i]);
        assert(fs1.update(i, fs1[i]) =~= fs1);
    } else {
        let n = fs.len() as int;
        assert(fs1[n] == fresh_spec(f));
        assert(first_left(fs1, f.left, n));
        let j = choose|j: int| first_left(fs1, f.left, j);
        lemma_first_left_unique(fs1, f.left, n, j);
        assert forall|k: int| 0 <= k < f.values.len() implies holds_value(
            fs1[n].values,
            #[trigger] f.values[k],
        ) by {
            assert(fs1[n].values[k] == f.values[k]);
            lemma_json_same_refl(f.values[k]);
        }
        assert(merge_spec(fs1[n], f) == fs1[n]);
        assert(fs1.update(n, fs1[n]) =~= fs1);
    }
}

/// Adding a filter keeps every key once: a filter whose key is already
/// present is merged into that filter instead of being appended.
pub proof fn lemma_add_filter_keeps_keys_unique(fs: Seq<FilterV>, f: FilterV)
    requires
        lefts_unique(fs),
    ensures
        lefts_unique(add_filter_spec(fs, f)),
        has_left(add_filter_spec(fs, f), f.left),
{
    let fs1 = add_filter_spec(fs, f);
    if has_left(fs, f.left) {
        lemma_has_left_first(fs, f.left);
        let i = choose|i: int| first_left(fs, f.left, i);
        lemma_merge_holds_new(fs[i], f);
        assert(fs1[i].left == f.left);
        assert forall|a: int, b: int| 0 <= a < b < fs1.len() implies fs1[a].left != fs1[b].left by {
            if a != i && b != i {
                assert(fs1[a] == fs[a] && fs1[b] == fs[b]);
            } else if a == i {
                assert(fs1[b] == fs[b]);
            } else {
                assert(fs1[a] == fs[a]);
            }
        }
    } else {
        assert(fs1[fs.len() as int].left == f.left);
        assert forall|a: int, b: int| 0 <= a < b < fs1.len() implies fs1[a].left != fs1[b].left by {
            if b < fs.len() {
                assert(fs1[a] == fs[a] && fs1[b] == fs[b]);
            } else {
                assert(fs1[a] == fs[a]);
            }
        }
    }
}

/// Removing the key of a filter that was just added under a fresh key gives
/// back the filters from before the addition.
pub proof fn lemma_remove_undoes_fresh_add(fs: Seq<FilterV>, f: FilterV)
    requires
        !has_left(fs, f.left),
    ensures
        remove_filter_spec(add_filter_spec(fs, f), f.left) == fs,
{
    let fs1 = add_filter_spec(fs, f);
    let n = fs.len() as int;
    assert(fs1[n] == fresh_spec(f));
    assert(first_left(fs1, f.left, n));
    let j = choose|j: int| first_left(fs1, f.left, j);
    lemma_first_left_unique(fs1, f.left, n, j);
    assert(fs1.remove(n) =~= fs);
}

/// A decoded response has one row per entry, in order.
pub proof fn lemma_parse_entries_len(es: Seq<JsonV>, cols: Seq<Column>)
    ensures
        parse_entries(es, cols) matches Ok(rows) ==> rows.len() == es.len(),
    decreases es.len(),
{
    if es.len() > 0 {
        lemma_parse_entries_len(es.drop_last(), cols);
    }
}


/// `row` is what entry `e` decodes to: its symbol `s`, and the labels paired
/// with its values `d`.
pub open spec fn row_of(e: JsonV, cols: Seq<Column>, row: RowV) -> bool {
    &&& get_member(e, "s"@) == Some(JsonV::Str(row.symbol))
    &&& get_member(e, "d"@) matches Some(JsonV::Array(d))
    &&& row.data == zip_labels(cols, d, min_len(cols.len() as int, d.len() as int))
}

/// With distinct column labels, a decoded row's data is exactly the pairs
/// `(label j, value j)` for `j` below `n`, in order (each label once).
pub proof fn lemma_zip_distinct(cols: Seq<Column>, vs: Seq<JsonV>, n: int)
    requires
        0 <= n <= cols.len(),
        n <= vs.len(),
        forall|a: int, b: int| 0 <= a < b < cols.len() ==> #[trigger] cols[a].1 != #[trigger] cols[b].1,
    ensures
        zip_labels(cols, vs, n).len() == n,
        forall|j: int| 0 <= j < n ==> #[trigger] zip_labels(cols, vs, n)[j] == (cols[j].1, vs[j]),
    decreases n,
{
    if n > 0 {
        lemma_zip_distinct(cols, vs, n - 1);
        let p = zip_labels(cols, vs, n - 1);
        if has_key(p, cols[n - 1].1) {
            let i = choose|i: int| 0 <= i < p.len() && p[i].0 == cols[n - 1].1;
            assert(p[i] == (cols[i].1, vs[i]));
            assert(cols[i].1 != cols[n - 1].1);
        }
    }
}

/// Decoding a response: it fails exactly when `data` is not an array or some
/// entry lacks a string `s` or an array `d`; otherwise there is one row per
/// entry, in order, with the entry's symbol and its values `d` paired with the
/// column labels up to the shorter of the two lists (keyed by label, not
/// technical name; see [`lemma_zip_distinct`] for distinct labels).
pub proof fn lemma_parse_rows_law(body: JsonV, cols: Seq<Column>)
    ensures
        parse_rows_spec(body, cols) is Err <==> match get_member(body, "data"@) {
            Some(JsonV::Array(es)) => exists|i: int| 0 <= i < es.len() && #[trigger] parse_entry(es[i], cols) is Err,
            _ => true,
        },
        parse_rows_spec(body, cols) matches Ok(rows) ==> (get_member(body, "data"@) matches Some(JsonV::Array(es))
            && rows.len() == es.len()
            && forall|i: int| 0 <= i < es.len() ==> row_of(#[trigger] es[i], cols, rows[i])),
{
    if let Some(JsonV::Array(es)) = get_member(body, "data"@) {
        lemma_parse_entries_law(es, cols);
    }
}

proof fn lemma_parse_entries_law(es: Seq<JsonV>, cols: Seq<Column>)
    ensures
        parse_entries(es, cols) is Err <==> exists|i: int| 0 <= i < es.len() && #[trigger] parse_entry(es[i], cols) is Err,
        parse_entries(es, cols) matches Ok(rows) ==> (rows.len() == es.len()
            && forall|i: int| 0 <= i < es.len() ==> row_of(#[trigger] es[i], cols, rows[i])),
    decreases es.len(),
{
    if es.len() > 0 {
        let p = es.drop_last();
        lemma_parse_entries_law(p, cols);
        if parse_entries(p, cols) is Err {
            let i = choose|i: int| 0 <= i < p.len() && #[trigger] parse_entry(p[i], cols) is Err;
            assert(es[i] == p[i]);
        } else if parse_entry(es.last(), cols) is Err {
            assert(parse_entry(es[es.len() - 1], cols) is Err);
        } else {
            assert forall|i: int| 0 <= i < es.len() implies !(#[trigger] parse_entry(es[i], cols) is Err) by {
                if i < p.len() {
                    assert(es[i] == p[i]);
                    if parse_entry(p[i], cols) is Err {
                        assert(exists|x: int| 0 <= x < p.len() && #[trigger] parse_entry(p[x], cols) is Err);
                    }
                }
            }
            let rows = parse_entries(es, cols)->Ok_0;
            let prows = parse_entries(p, cols)->Ok_0;
            assert forall|i: int| 0 <= i < es.len() implies row_of(#[trigger] es[i], cols, rows[i]) by {
                if i < p.len() {
                    assert(es[i] == p[i]);
                    assert(rows[i] == prows[i]);
                }
            }
        }
    }
}


/// No two entries share a key.
pub open spec fn entry_keys_unique(es: Seq<(Seq<char>, JsonV)>) -> bool {
    forall|i: int, j: int| 0 <= i < j < es.len() ==> #[trigger] es[i].0 != #[trigger] es[j].0
}

/// With unique keys, an entry's key reads back its value.
proof fn lemma_lookup_unique(es: Seq<(Seq<char>, JsonV)>, i: int)
    requires
        entry_keys_unique(es),
        0 <= i < es.len(),
    ensures
        lookup_key(es, es[i].0) == Some(es[i].1),
{
    assert(first_key(es, es[i].0, i)) by {
        assert forall|j: int| 0 <= j < i implies es[j].0 != es[i].0 by {
            assert(es[j].0 != es[i].0);
        }
    }
    let c = choose|c: int| first_key(es, es[i].0, c);
    lemma_first_key_unique(es, es[i].0, i, c);
}

/// Inserting entries with keys other than `k` leaves `k`'s value as it was.
proof fn lemma_insert_all_other(base: Seq<(Seq<char>, JsonV)>, more: Seq<(Seq<char>, JsonV)>, k: Seq<char>)
    requires
        !has_key(more, k),
    ensures
        lookup_key(insert_all(base, more), k) == lookup_key(base, k),
    decreases more.len(),
{
    if more.len() > 0 {
        let p = more.drop_last();
        assert(!has_key(p, k)) by {
            if has_key(p, k) {
                let w = choose|w: int| 0 <= w < p.len() && p[w].0 == k;
                assert(more[w].0 == k);
            }
        }
        lemma_insert_all_other(base, p, k);
        assert(more.last().0 != k);
        crate::json::lemma_lookup_insert_other(insert_all(base, p), more.last().0, more.last().1, k);
    }
}

/// `i` is the last entry of `es` with its key.
pub open spec fn last_of_key(es: Seq<(Seq<char>, JsonV)>, i: int) -> bool {
    &&& 0 <= i < es.len()
    &&& forall|j: int| i < j < es.len() ==> es[j].0 != es[i].0
}

/// After inserting entries, each key reads back the value of its last entry.
proof fn lemma_insert_all_in(base: Seq<(Seq<char>, JsonV)>, more: Seq<(Seq<char>, JsonV)>, i: int)
    requires
        last_of_key(more, i),
    ensures
        lookup_key(insert_all(base, more), more[i].0) == Some(more[i].1),
    decreases more.len(),
{
    let n = more.len() - 1;
    let p = more.drop_last();
    if i == n {
        crate::json::lemma_lookup_insert_same(insert_all(base, p), more[n].0, more[n].1);
    } else {
        assert(last_of_key(p, i)) by {
            assert forall|j: int| i < j < p.len() implies p[j].0 != p[i].0 by {
                assert(p[j] == more[j]);
            }
        }
        lemma_insert_all_in(base, p, i);
        assert(more[n].0 != more[i].0);
        crate::json::lemma_lookup_insert_other(insert_all(base, p), more[n].0, more[n].1, more[i].0);
    }
}

/// The payload's members: `markets` holds the set markets (else whatever a
/// `misc` entry of that name holds, else nothing); each `misc` entry is the
/// value of its key (except `markets` when markets are set); and `columns`,
/// `filter`, `options`, `range`, `sort` and `symbols` hold the requested
/// technical names, the filter objects in order, the options, `[from, to]`,
/// the sort, and the configured symbols block (else the default one), unless
/// a `misc` entry of that name overrides them (the last `misc` entry of a
/// key wins).
pub proof fn lemma_payload_members(s: ScreenerState, cols: Seq<Column>)
    ensures
        ({
            let p = payload_spec(s, cols);
            &&& s.markets matches Some(m) ==> get_member(p, "markets"@) == Some(JsonV::Array(str_jsons(m)))
            &&& s.markets is None && !has_key(s.misc, "markets"@) ==> get_member(p, "markets"@) is None
            &&& forall|i: int| #[trigger] last_of_key(s.misc, i) && !(s.misc[i].0 == "markets"@ && s.markets is Some)
                ==> get_member(p, s.misc[i].0) == Some(s.misc[i].1)
            &&& !has_key(s.misc, "columns"@) ==> get_member(p, "columns"@) == Some(JsonV::Array(str_jsons(techs(cols))))
            &&& !has_key(s.misc, "filter"@) ==> get_member(p, "filter"@) == Some(JsonV::Array(filters_json(s.filters)))
            &&& !has_key(s.misc, "options"@) ==> get_member(p, "options"@) == Some(JsonV::Object(s.options))
            &&& !has_key(s.misc, "range"@) ==> get_member(p, "range"@) == Some(JsonV::Array(
                seq![num_v(s.range_from as nat), num_v(s.range_to as nat)],
            ))
            &&& !has_key(s.misc, "sort"@) ==> get_member(p, "sort"@) == Some(sort_json(s.sort_by))
            &&& !has_key(s.misc, "symbols"@) ==> get_member(p, "symbols"@) == Some(symbols_or_default(s.symbols))
        }),
{
    reveal_strlit("columns");
    reveal_strlit("filter");
    reveal_strlit("options");
    reveal_strlit("range");
    reveal_strlit("sort");
    reveal_strlit("symbols");
    reveal_strlit("markets");
    let base = payload_base(s, cols);
    let all = insert_all(base, s.misc);
    assert(entry_keys_unique(base)) by {
        assert forall|a: int, b: int| 0 <= a < b < base.len() implies #[trigger] base[a].0 != #[trigger] base[b].0 by {
            assert(base[a].0[0] != base[b].0[0] || base[a].0[1] != base[b].0[1] || base[a].0.len() != base[b].0.len());
        }
    }
    assert(!has_key(base, "markets"@)) by {
        if has_key(base, "markets"@) {
            let w = choose|w: int| 0 <= w < base.len() && base[w].0 == "markets"@;
            assert(base[w].0[0] != 'm' || base[w].0[1] != 'a');
        }
    }
    // base members, when misc does not override them
    assert forall|x: int| 0 <= x < base.len() && !has_key(s.misc, base[x].0) implies lookup_key(all, #[trigger] base[x].0) == Some(base[x].1) by {
        lemma_insert_all_other(base, s.misc, base[x].0);
        lemma_lookup_unique(base, x);
    }
    assert(lookup_key(all, base[0].0) == Some(base[0].1) || has_key(s.misc, base[0].0));
    assert(lookup_key(all, base[1].0) == Some(base[1].1) || has_key(s.misc, base[1].0));
    assert(lookup_key(all, base[2].0) == Some(base[2].1) || has_key(s.misc, base[2].0));
    assert(lookup_key(all, base[3].0) == Some(base[3].1) || has_key(s.misc, base[3].0));
    assert(lookup_key(all, base[4].0) == Some(base[4].1) || has_key(s.misc, base[4].0));
    assert(lookup_key(all, base[5].0) == Some(base[5].1) || has_key(s.misc, base[5].0));
    // misc members
    assert forall|i: int| #[trigger] last_of_key(s.misc, i) implies lookup_key(all, s.misc[i].0) == Some(s.misc[i].1) by {
        lemma_insert_all_in(base, s.misc, i);
    }
    // markets
    if !has_key(s.misc, "markets"@) {
        lemma_insert_all_other(base, s.misc, "markets"@);
        assert(lookup_key(base, "markets"@).is_none());
    }
    match s.markets {
        Some(m) => {
            crate::json::lemma_lookup_insert_same(all, "markets"@, JsonV::Array(str_jsons(m)));
            assert forall|i: int| #[trigger] last_of_key(s.misc, i) && s.misc[i].0 != "markets"@ implies lookup_key(
                with_markets(all, s.markets),
                s.misc[i].0,
            ) == Some(s.misc[i].1) by {
                crate::json::lemma_lookup_insert_other(all, "markets"@, JsonV::Array(str_jsons(m)), s.misc[i].0);
            }
            assert forall|x: int| 0 <= x < base.len() implies lookup_key(with_markets(all, s.markets), #[trigger] base[x].0)
                == lookup_key(all, base[x].0) by {
                crate::json::lemma_lookup_insert_other(all, "markets"@, JsonV::Array(str_jsons(m)), base[x].0);
            }
        },
        None => {},
    }
}

} // verus!
