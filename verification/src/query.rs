//! Query building for the MCP tools: fields CSV, `{field, op, value}` filter
//! objects and a sort field, resolved against the catalog and applied to a
//! [`Screener`]; dry-run payload previews.
use vstd::prelude::*;
use crate::error::TvscreenerError;
use crate::field::{asset_parse, asset_str, resolve_field, Asset, FieldDef, FieldsCatalog};
use crate::filter::{FieldCondition, FilterOperator, FilterV};
use crate::json::{
    compact_json, json_clone, json_compact_text, json_pretty_text, json_text_parse, jvs,
    lemma_array_view, parse_json_text, pretty_json, JsonV, JsonValue,
};
use crate::resolve::{
    apply_stock_index_markets, csv_spec, filter_op_spec, index_applied, markets_applied, opt_view,
    parse_asset, parse_csv, parse_filter_op, resolve_all, unknown_token_msg, TokenKind,
};
use crate::screener::{
    fresh_state, get_member, payload_spec, rejects, str_views, with_filter, Screener,
    ScreenerState,
};
use crate::text::{cat, cat3, own, trim, trim_seq};
use crate::util::columns_spec;

verus! {

/// An error, as the contracts see it: an invalid request or an invalid filter
/// field name, with its message.
pub enum ErrV {
    Request(Seq<char>),
    FieldName(Seq<char>),
}

/// Whether an error is the one described.
pub open spec fn err_is(e: TvscreenerError, v: ErrV) -> bool {
    match v {
        ErrV::Request(m) => e matches TvscreenerError::InvalidRequest(x) && x@ == m,
        ErrV::FieldName(m) => e matches TvscreenerError::InvalidFieldName(x) && x@ == m,
    }
}

/// The message for a field name that resolves to nothing.
pub open spec fn unknown_field_msg(name: Seq<char>, a: Asset) -> Seq<char> {
    "unknown field `"@ + name + "` for asset `"@ + asset_str(a) + "`"@
}

/// The field a name resolves to (constant name, technical name or label).
pub open spec fn resolved_def(cat: FieldsCatalog, a: Asset, name: Seq<char>) -> Option<FieldDef> {
    match cat.resolve_field_spec(a, name) {
        Some((_, d)) => Some(d),
        None => None,
    }
}

/// Resolves a field name, or fails with `InvalidRequest`.
pub fn require_resolved(cat: &FieldsCatalog, asset: Asset, name: &str) -> (r: Result<
    FieldDef,
    TvscreenerError,
>)
    ensures
        match resolved_def(*cat, asset, name@) {
            Some(d) => r == Ok::<FieldDef, TvscreenerError>(d),
            None => r matches Err(e) && err_is(e, ErrV::Request(unknown_field_msg(name@, asset))),
        },
{
    match resolve_field(cat, asset, name) {
        Some((_, d)) => Ok(d),
        None => {
            let mut m = cat3("unknown field `", name, "` for asset `");
            m.append(asset.as_str());
            m.append("`");
            Err(TvscreenerError::InvalidRequest(m))
        },
    }
}

/// Resolving names in order: all fields, or the first name that resolves to nothing.
pub open spec fn resolve_defs(cat: FieldsCatalog, a: Asset, names: Seq<Seq<char>>) -> Result<
    Seq<FieldDef>,
    Seq<char>,
>
    decreases names.len(),
{
    if names.len() == 0 {
        Ok(Seq::empty())
    } else {
        match resolve_defs(cat, a, names.drop_last()) {
            Err(n) => Err(n),
            Ok(ds) => match resolved_def(cat, a, names.last()) {
                Some(d) => Ok(ds.push(d)),
                None => Err(names.last()),
            },
        }
    }
}

/// Once a prefix fails to resolve, every longer prefix fails with the same name.
proof fn lemma_resolve_defs_err_extends(cat: FieldsCatalog, a: Asset, ns: Seq<Seq<char>>, n: int)
    requires
        0 <= n <= ns.len(),
        resolve_defs(cat, a, ns.take(n)) is Err,
    ensures
        resolve_defs(cat, a, ns) == resolve_defs(cat, a, ns.take(n)),
    decreases ns.len() - n,
{
    if n < ns.len() {
        assert(ns.take(n + 1).drop_last() =~= ns.take(n));
        lemma_resolve_defs_err_extends(cat, a, ns, n + 1);
    } else {
        assert(ns.take(n) =~= ns);
    }
}

/// The state after selecting `ds`, when there are any.
pub open spec fn select_applied(s: ScreenerState, ds: Seq<FieldDef>) -> ScreenerState {
    if ds.len() > 0 {
        ScreenerState { selected: ds, select_all: false, ..s }
    } else {
        s
    }
}

/// Selecting fields by name: the state reached, or the error.
pub open spec fn select_step(cat: FieldsCatalog, a: Asset, s: ScreenerState, names: Seq<Seq<char>>) -> Result<
    ScreenerState,
    ErrV,
> {
    match resolve_defs(cat, a, names) {
        Err(n) => Err(ErrV::Request(unknown_field_msg(n, a))),
        Ok(ds) => Ok(select_applied(s, ds)),
    }
}

/// Resolves field names in order; the first unknown name fails with `InvalidRequest`.
pub fn require_fields(cat: &FieldsCatalog, asset: Asset, names: &Vec<String>) -> (r: Result<
    Vec<FieldDef>,
    TvscreenerError,
>)
    ensures
        match resolve_defs(*cat, asset, str_views(names@)) {
            Ok(ds) => r matches Ok(v) && v@ == ds,
            Err(n) => r matches Err(e) && err_is(e, ErrV::Request(unknown_field_msg(n, asset))),
        },
{
    let ghost ns = str_views(names@);
    let mut defs: Vec<FieldDef> = Vec::new();
    let mut i: usize = 0;
    assert(ns.take(0) =~= Seq::<Seq<char>>::empty());
    while i < names.len()
        invariant
            ns == str_views(names@),
            i <= names.len(),
            resolve_defs(*cat, asset, ns.take(i as int)) == Ok::<Seq<FieldDef>, Seq<char>>(defs@),
        decreases names.len() - i,
    {
        assert(ns.take(i + 1).drop_last() =~= ns.take(i as int));
        assert(ns.take(i + 1).last() == names@[i as int]@);
        match require_resolved(cat, asset, names[i].as_str()) {
            Ok(d) => {
                defs.push(d);
            },
            Err(e) => {
                proof {
                    lemma_resolve_defs_err_extends(*cat, asset, ns, i as int + 1);
                }
                return Err(e);
            },
        }
        i = i + 1;
    }
    assert(ns.take(names@.len() as int) =~= ns);
    Ok(defs)
}

/// Resolves field names and selects them (when there are any); an unknown
/// name fails with `InvalidRequest` and changes nothing.
pub fn apply_select(cat: &FieldsCatalog, screener: &mut Screener, asset: Asset, fields: &Vec<String>) -> (r:
    Result<(), TvscreenerError>)
    ensures
        match select_step(*cat, asset, old(screener)@, str_views(fields@)) {
            Ok(s) => r is Ok && final(screener)@ == s,
            Err(v) => r matches Err(e) && err_is(e, v) && final(screener)@ == old(screener)@,
        },
{
    let selected = match require_fields(cat, asset, fields) {
        Ok(v) => v,
        Err(e) => {
            return Err(e);
        },
    };
    if selected.len() > 0 {
        screener.select(selected);
    }
    Ok(())
}

/// Applying one `{field, op, value}` filter object.
///
/// `field` must be a string, `op` defaults to `>=` when absent or not a
/// string, `value` must be present; the field resolves through the catalog and
/// the filter goes on its technical name.
pub open spec fn filter_step(cat: FieldsCatalog, a: Asset, s: ScreenerState, e: JsonV) -> Result<
    ScreenerState,
    ErrV,
> {
    match get_member(e, "field"@) {
        Some(JsonV::Str(f)) => {
            let o = match get_member(e, "op"@) {
                Some(JsonV::Str(o)) => o,
                _ => ">="@,
            };
            match filter_op_spec(o) {
                None => Err(ErrV::Request("unknown filter op `"@ + o + "`"@)),
                Some(op) => match get_member(e, "value"@) {
                    None => Err(ErrV::Request("filter missing value"@)),
                    Some(v) => match resolved_def(cat, a, f) {
                        None => Err(ErrV::Request(unknown_field_msg(f, a))),
                        Some(d) => if rejects(s, d.field_name@) {
                            Err(ErrV::FieldName(d.field_name@))
                        } else {
                            Ok(
                                with_filter(
                                    s,
                                    FilterV {
                                        left: d.field_name@,
                                        operation: op,
                                        values: seq![v],
                                    },
                                ),
                            )
                        },
                    },
                },
            }
        },
        _ => Err(ErrV::Request("filter missing field"@)),
    }
}

/// Applying filter objects in order: the state reached, and the first error
/// (the filters before it stay applied).
pub open spec fn filters_fold(cat: FieldsCatalog, a: Asset, s: ScreenerState, es: Seq<JsonV>) -> (
    ScreenerState,
    Option<ErrV>,
)
    decreases es.len(),
{
    if es.len() == 0 {
        (s, None)
    } else {
        let (p, err) = filters_fold(cat, a, s, es.drop_last());
        match err {
            Some(x) => (p, Some(x)),
            None => match filter_step(cat, a, p, es.last()) {
                Ok(q) => (q, None),
                Err(x) => (p, Some(x)),
            },
        }
    }
}

/// Once a prefix of filter objects fails, longer prefixes fail the same way.
proof fn lemma_filters_fold_err_extends(
    cat: FieldsCatalog,
    a: Asset,
    s: ScreenerState,
    es: Seq<JsonV>,
    n: int,
)
    requires
        0 <= n <= es.len(),
        filters_fold(cat, a, s, es.take(n)).1 is Some,
    ensures
        filters_fold(cat, a, s, es) == filters_fold(cat, a, s, es.take(n)),
    decreases es.len() - n,
{
    if n < es.len() {
        assert(es.take(n + 1).drop_last() =~= es.take(n));
        lemma_filters_fold_err_extends(cat, a, s, es, n + 1);
    } else {
        assert(es.take(n) =~= es);
    }
}

/// Applying filter objects changes nothing but the filter list.
proof fn lemma_filters_fold_frame(cat: FieldsCatalog, a: Asset, s: ScreenerState, es: Seq<JsonV>)
    ensures
        filters_fold(cat, a, s, es).0 == (ScreenerState { filters: filters_fold(cat, a, s, es).0.filters, ..s }),
    decreases es.len(),
{
    if es.len() > 0 {
        lemma_filters_fold_frame(cat, a, s, es.drop_last());
    }
}

/// The view of a list of JSON values.
pub open spec fn json_views(v: Seq<JsonValue>) -> Seq<JsonV> {
    v.map_values(|x: JsonValue| x@)
}

/// Applies one filter object.
fn apply_filter_entry(cat: &FieldsCatalog, screener: &mut Screener, asset: Asset, entry: &JsonValue) -> (r:
    Result<(), TvscreenerError>)
    ensures
        match filter_step(*cat, asset, old(screener)@, entry@) {
            Ok(s) => r is Ok && final(screener)@ == s,
            Err(v) => r matches Err(e) && err_is(e, v) && final(screener)@ == old(screener)@,
        },
{
    let field_name = match entry.get("field") {
        Some(f) => match f.as_str() {
            Some(s) => s,
            None => {
                return Err(TvscreenerError::InvalidRequest(own("filter missing field")));
            },
        },
        None => {
            return Err(TvscreenerError::InvalidRequest(own("filter missing field")));
        },
    };
    let op_str: &str = match entry.get("op") {
        Some(o) => match o.as_str() {
            Some(s) => s,
            None => ">=",
        },
        None => ">=",
    };
    let op = match parse_filter_op(op_str) {
        Some(op) => op,
        None => {
            return Err(TvscreenerError::InvalidRequest(cat3("unknown filter op `", op_str, "`")));
        },
    };
    let value = match entry.get("value") {
        Some(v) => json_clone(v),
        None => {
            return Err(TvscreenerError::InvalidRequest(own("filter missing value")));
        },
    };
    let def = match require_resolved(cat, asset, field_name) {
        Ok(d) => d,
        Err(e) => {
            return Err(e);
        },
    };
    match screener.where_condition(FieldCondition::new(def.field_name, op, value)) {
        Ok(_) => Ok(()),
        Err(e) => Err(e),
    }
}

/// Applies `{field, op, value}` filter objects in order; the first failing
/// object stops, with the filters before it applied.
pub fn apply_filters(cat: &FieldsCatalog, screener: &mut Screener, asset: Asset, filters: &Vec<JsonValue>) -> (r:
    Result<(), TvscreenerError>)
    ensures
        ({
            let (s, err) = filters_fold(*cat, asset, old(screener)@, json_views(filters@));
            &&& final(screener)@ == s
            &&& match err {
                None => r is Ok,
                Some(v) => r matches Err(e) && err_is(e, v),
            }
        }),
{
    let ghost es = json_views(filters@);
    let ghost s0 = screener@;
    let mut i: usize = 0;
    let mut failure: Option<TvscreenerError> = None;
    assert(es.take(0) =~= Seq::<JsonV>::empty());
    while i < filters.len() && failure.is_none()
        invariant
            es == json_views(filters@),
            i <= filters.len(),
            failure.is_none() ==> filters_fold(*cat, asset, s0, es.take(i as int)) == (
                screener@,
                None::<ErrV>,
            ),
            failure matches Some(e) ==> (filters_fold(*cat, asset, s0, es).0 == screener@
                && (filters_fold(*cat, asset, s0, es).1 matches Some(v) && err_is(e, v))),
        decreases filters.len() - i,
    {
        assert(es.take(i + 1).drop_last() =~= es.take(i as int));
        assert(es.take(i + 1).last() == filters@[i as int]@);
        let ghost before = screener@;
        match apply_filter_entry(cat, screener, asset, &filters[i]) {
            Ok(()) => {},
            Err(e) => {
                proof {
                    let x = filter_step(*cat, asset, before, es[i as int]);
                    assert(filters_fold(*cat, asset, s0, es.take(i + 1)) == (before, Some(x->Err_0)));
                    lemma_filters_fold_err_extends(*cat, asset, s0, es, i as int + 1);
                }
                failure = Some(e);
            },
        }
        i = i + 1;
    }
    match failure {
        Some(e) => Err(e),
        None => {
            assert(es.take(filters@.len() as int) =~= es);
            Ok(())
        },
    }
}

/// Sorting by a named field: the state reached, or the error.
pub open spec fn sort_step(cat: FieldsCatalog, a: Asset, s: ScreenerState, sort_by: Option<Seq<char>>, ascending: bool) -> Result<
    ScreenerState,
    ErrV,
> {
    match sort_by {
        None => Ok(s),
        Some(n) => match resolved_def(cat, a, n) {
            None => Err(ErrV::Request(unknown_field_msg(n, a))),
            Some(d) => Ok(ScreenerState { sort_by: Some((d.field_name@, ascending)), ..s }),
        },
    }
}

/// Sorts by a named field, when one is given.
pub fn apply_sort(
    cat: &FieldsCatalog,
    screener: &mut Screener,
    asset: Asset,
    sort_by: Option<&str>,
    ascending: bool,
) -> (r: Result<(), TvscreenerError>)
    ensures
        match sort_step(*cat, asset, old(screener)@, opt_view(sort_by), ascending) {
            Ok(s) => r is Ok && final(screener)@ == s,
            Err(v) => r matches Err(e) && err_is(e, v) && final(screener)@ == old(screener)@,
        },
{
    match sort_by {
        Some(name) => {
            let def = match require_resolved(cat, asset, name) {
                Ok(d) => d,
                Err(e) => {
                    return Err(e);
                },
            };
            screener.sort_by_field(&def, ascending);
            Ok(())
        },
        None => Ok(()),
    }
}

/// A sort argument: trimmed, and absent when empty.
pub open spec fn sort_key_spec(raw: Option<Seq<char>>) -> Option<Seq<char>> {
    match raw {
        Some(s) => if trim_seq(s).len() > 0 {
            Some(trim_seq(s))
        } else {
            None
        },
        None => None,
    }
}

/// Trims a sort argument; an empty one is absent.
pub fn sort_key(raw: Option<&str>) -> (r: Option<String>)
    ensures
        match sort_key_spec(opt_view(raw)) {
            Some(k) => r matches Some(s) && s@ == k,
            None => r.is_none(),
        },
{
    match raw {
        Some(s) => {
            let t = trim(s);
            if t.as_str().is_empty() {
                None
            } else {
                Some(t)
            }
        },
        None => None,
    }
}

/// `v` clamped to `[lo, hi]`.
pub open spec fn clamp_spec(v: u32, lo: u32, hi: u32) -> u32 {
    if v < lo {
        lo
    } else if v > hi {
        hi
    } else {
        v
    }
}

/// Clamps a row limit (`u32::clamp`).
pub fn clamp_u32(v: u32, lo: u32, hi: u32) -> (r: u32)
    requires
        lo <= hi,
    ensures
        r == clamp_spec(v, lo, hi),
{
    if v < lo {
        lo
    } else if v > hi {
        hi
    } else {
        v
    }
}

/// Whether `sel` is the single `Name` column (`FieldDef::new("Name", "name")`).
pub open spec fn name_only(sel: Seq<FieldDef>) -> bool {
    &&& sel.len() == 1
    &&& sel[0].label@ == "Name"@
    &&& sel[0].field_name@ == "name"@
    &&& sel[0].format.is_none()
    &&& !sel[0].interval
    &&& !sel[0].historical
}

/// The scanner subtype a preview starts from: `global` for stocks, else the asset segment.
pub open spec fn base_subtype(a: Asset) -> Seq<char> {
    if a == Asset::Stock {
        "global"@
    } else {
        asset_str(a)
    }
}

/// The starting state of a preview: a fresh screener with the named fields
/// selected, or the single `Name` column `name_sel` when no field is named.
pub open spec fn preview_start(cat: FieldsCatalog, a: Asset, fields: Option<Seq<char>>, name_sel: Seq<FieldDef>) -> Result<
    ScreenerState,
    ErrV,
> {
    let s0 = fresh_state(base_subtype(a));
    let names = csv_spec(fields);
    if names.len() == 0 {
        Ok(ScreenerState { selected: name_sel, select_all: false, ..s0 })
    } else {
        select_step(cat, a, s0, names)
    }
}

/// Applying stock indices / markets CSVs; other assets accept neither.
pub open spec fn index_markets_step(
    cat: FieldsCatalog,
    a: Asset,
    s: ScreenerState,
    indices: Option<Seq<char>>,
    markets: Option<Seq<char>>,
) -> Result<ScreenerState, ErrV> {
    if a == Asset::Stock {
        match resolve_all(cat, TokenKind::Market, csv_spec(markets)) {
            Err(t) => Err(ErrV::Request(unknown_token_msg(TokenKind::Market, t))),
            Ok(ms) => match resolve_all(cat, TokenKind::Index, csv_spec(indices)) {
                Err(t) => Err(ErrV::Request(unknown_token_msg(TokenKind::Index, t))),
                Ok(is) => Ok(index_applied(markets_applied(s, ms), is)),
            },
        }
    } else if indices.is_some() || markets.is_some() {
        Err(ErrV::Request("indices/markets only apply to asset_type=stock"@))
    } else {
        Ok(s)
    }
}

/// A parse result as the contracts see it.
pub open spec fn parsed_view(p: Result<JsonValue, String>) -> Result<JsonV, Seq<char>> {
    match p {
        Ok(v) => Ok(v@),
        Err(m) => Err(m@),
    }
}

/// The filter objects of a parsed filters argument: an array's items, an
/// object itself; else the reason.
pub open spec fn filters_shape(parsed: Result<JsonV, Seq<char>>) -> Result<Seq<JsonV>, Seq<char>> {
    match parsed {
        Err(m) => Err("filters JSON: "@ + m),
        Ok(JsonV::Array(items)) => Ok(items),
        Ok(JsonV::Object(es)) => Ok(seq![JsonV::Object(es)]),
        Ok(other) => Err("filters must be a JSON array or object, got "@ + json_compact_text(other)),
    }
}

/// The filter objects of a filters argument (JSON text; absent or blank
/// means none), or the reason they cannot be read.
pub open spec fn filters_arg_spec(raw: Option<Seq<char>>) -> Result<Seq<JsonV>, Seq<char>> {
    match raw {
        None => Ok(Seq::empty()),
        Some(t) => if trim_seq(t).len() == 0 {
            Ok(Seq::empty())
        } else {
            filters_shape(json_text_parse(trim_seq(t)))
        },
    }
}

/// Reads a parsed filters argument: an array gives its items, an object
/// itself; a parse error or any other document is an `InvalidRequest`.
pub fn filters_from_parsed(parsed: Result<JsonValue, String>) -> (r: Result<Vec<JsonValue>, TvscreenerError>)
    ensures
        match filters_shape(parsed_view(parsed)) {
            Ok(es) => r matches Ok(v) && json_views(v@) == es,
            Err(m) => r matches Err(e) && err_is(e, ErrV::Request(m)),
        },
{
    match parsed {
        Err(m) => Err(TvscreenerError::InvalidRequest(cat("filters JSON: ", m.as_str()))),
        Ok(JsonValue::Array(items)) => {
            proof {
                lemma_array_view(items);
                assert(json_views(items@) =~= jvs(items@));
            }
            Ok(items)
        },
        Ok(JsonValue::Object(es)) => {
            let mut out: Vec<JsonValue> = Vec::new();
            out.push(JsonValue::Object(es));
            assert(json_views(out@) =~= seq![out@[0]@]);
            Ok(out)
        },
        Ok(other) => {
            let t = compact_json(&other);
            Err(TvscreenerError::InvalidRequest(cat("filters must be a JSON array or object, got ", t.as_str())))
        },
    }
}

/// Reads the filters argument of a query: a JSON array of `{field, op, value}`
/// objects, or a single object; absent or blank means none.
pub fn parse_filters_arg(filters: Option<&str>) -> (r: Result<Vec<JsonValue>, TvscreenerError>)
    ensures
        match filters_arg_spec(opt_view(filters)) {
            Ok(es) => r matches Ok(v) && json_views(v@) == es,
            Err(m) => r matches Err(e) && err_is(e, ErrV::Request(m)),
        },
{
    match filters {
        None => {
            let v: Vec<JsonValue> = Vec::new();
            assert(json_views(v@) =~= Seq::<JsonV>::empty());
            Ok(v)
        },
        Some(raw) => {
            let t = trim(raw);
            if t.as_str().is_empty() {
                let v: Vec<JsonValue> = Vec::new();
                assert(json_views(v@) =~= Seq::<JsonV>::empty());
                Ok(v)
            } else {
                let parsed = parse_json_text(t.as_str());
                filters_from_parsed(parsed)
            }
        },
    }
}

/// Filters, then sort: the state reached, or the first error.
pub open spec fn filter_sort_steps(
    cat: FieldsCatalog,
    a: Asset,
    s: ScreenerState,
    filters: Result<Seq<JsonV>, Seq<char>>,
    sort: Option<Seq<char>>,
    ascending: bool,
) -> Result<ScreenerState, ErrV> {
    match filters {
        Err(m) => Err(ErrV::Request(m)),
        Ok(es) => {
            let (s2, err) = filters_fold(cat, a, s, es);
            match err {
                Some(v) => Err(v),
                None => sort_step(cat, a, s2, sort, ascending),
            }
        },
    }
}

/// The state a preview reaches from its starting state, or the first error.
pub open spec fn preview_steps(
    cat: FieldsCatalog,
    a: Asset,
    s1: ScreenerState,
    opts: PreviewV,
) -> Result<ScreenerState, ErrV> {
    match filter_sort_steps(cat, a, s1, opts.filters, sort_key_spec(opts.sort_by), opts.ascending) {
        Err(v) => Err(v),
        Ok(s3) => match index_markets_step(cat, a, s3, opts.indices, opts.markets) {
            Err(v) => Err(v),
            Ok(s4) => Ok(
                ScreenerState { range_from: 0, range_to: clamp_spec(opts.limit, 1, 100), ..s4 },
            ),
        },
    }
}

/// The arguments of a preview, as the contracts see them.
pub struct PreviewV {
    pub asset_type: Seq<char>,
    pub fields: Option<Seq<char>>,
    pub filters: Result<Seq<JsonV>, Seq<char>>,
    pub sort_by: Option<Seq<char>>,
    pub ascending: bool,
    pub limit: u32,
    pub indices: Option<Seq<char>>,
    pub markets: Option<Seq<char>>,
}

/// The payload a preview builds for asset `a`, or the first error.
pub open spec fn preview_spec(cat: FieldsCatalog, a: Asset, opts: PreviewV, name_sel: Seq<FieldDef>) -> Result<
    JsonV,
    ErrV,
> {
    match preview_start(cat, a, opts.fields, name_sel) {
        Err(v) => Err(v),
        Ok(s1) => match preview_steps(cat, a, s1, opts) {
            Err(v) => Err(v),
            Ok(s) => Ok(payload_spec(s, columns_spec(s.selected))),
        },
    }
}

/// Whether a result is the described payload or error.
pub open spec fn json_outcome(r: Result<JsonValue, TvscreenerError>, x: Result<JsonV, ErrV>) -> bool {
    match x {
        Ok(p) => r matches Ok(v) && v@ == p,
        Err(v) => r matches Err(e) && err_is(e, v),
    }
}

/// Options for [`custom_query_payload_preview`] (dry-run scan payload).
pub struct PayloadPreviewOpts<'a> {
    /// Asset key (`stock`, `crypto`, …).
    pub asset_type: &'a str,
    /// Comma-separated field const names.
    pub fields: Option<&'a str>,
    /// JSON array of `{field, op, value}` filters (or one such object).
    pub filters: Option<&'a str>,
    /// Sort field const name.
    pub sort_by: Option<&'a str>,
    /// Sort ascending when true.
    pub ascending: bool,
    /// Row limit (clamped 1..=100).
    pub limit: u32,
    /// Stock index CSV (`SP500` or `SP;SPX`).
    pub indices: Option<&'a str>,
    /// Stock markets CSV (`AMERICA` or `america`).
    pub markets: Option<&'a str>,
}

impl<'a> PayloadPreviewOpts<'a> {
    /// The arguments as the contracts see them.
    pub open spec fn view_args(&self) -> PreviewV {
        PreviewV {
            asset_type: self.asset_type@,
            fields: opt_view(self.fields),
            filters: filters_arg_spec(opt_view(self.filters)),
            sort_by: opt_view(self.sort_by),
            ascending: self.ascending,
            limit: self.limit,
            indices: opt_view(self.indices),
            markets: opt_view(self.markets),
        }
    }
}

/// Resolving names that all resolve gives one field per name.
pub proof fn lemma_resolve_defs_len(cat: FieldsCatalog, a: Asset, names: Seq<Seq<char>>)
    ensures
        resolve_defs(cat, a, names) matches Ok(ds) ==> ds.len() == names.len(),
    decreases names.len(),
{
    if names.len() > 0 {
        lemma_resolve_defs_len(cat, a, names.drop_last());
    }
}

/// Builds the scan payload a query would send, without sending it.
///
/// Starts from a fresh screener (`global` for stocks), selects the named
/// fields (or just `Name`), applies the filter objects, the sort, and for
/// stocks the indices / markets, then the range `[0, limit)` with the limit
/// clamped to `1..=100`.
pub fn custom_query_payload_preview(cat: &FieldsCatalog, opts: &PayloadPreviewOpts) -> (r: Result<
    JsonValue,
    TvscreenerError,
>)
    ensures
        match asset_parse(opts.asset_type@) {
            None => r matches Err(e) && err_is(
                e,
                ErrV::Request("unknown asset_type `"@ + opts.asset_type@ + "`"@),
            ),
            Some(a) => exists|sel: Seq<FieldDef>|
                name_only(sel) && json_outcome(r, preview_spec(*cat, a, opts.view_args(), sel)),
        },
{
    let asset = match parse_asset(opts.asset_type) {
        Ok(a) => a,
        Err(e) => {
            return Err(e);
        },
    };
    let limit = clamp_u32(opts.limit, 1, 100);
    let subtype = match asset {
        Asset::Stock => own("global"),
        other => own(other.as_str()),
    };
    let mut screener = Screener::new(subtype);
    let field_list = parse_csv(opts.fields);
    let mut name_sel: Vec<FieldDef> = Vec::new();
    name_sel.push(FieldDef::new("Name", "name"));
    let ghost sel = name_sel@;
    if field_list.len() == 0 {
        screener.select(name_sel);
    } else {
        proof {
            lemma_resolve_defs_len(*cat, asset, str_views(field_list@));
        }
        match apply_select(cat, &mut screener, asset, &field_list) {
            Ok(()) => {},
            Err(e) => {
                let r: Result<JsonValue, TvscreenerError> = Err(e);
                assert(name_only(sel) && json_outcome(r, preview_spec(*cat, asset, opts.view_args(), sel)));
                return r;
            },
        }
    }
    let ghost s1 = screener@;
    assert(preview_start(*cat, asset, opts.view_args().fields, sel) == Ok::<ScreenerState, ErrV>(s1));
    assert(s1.selected.len() > 0);
    let filters = match parse_filters_arg(opts.filters) {
        Ok(f) => f,
        Err(e) => {
            let r: Result<JsonValue, TvscreenerError> = Err(e);
            assert(name_only(sel) && json_outcome(r, preview_spec(*cat, asset, opts.view_args(), sel)));
            return r;
        },
    };
    match apply_filters(cat, &mut screener, asset, &filters) {
        Ok(()) => {},
        Err(e) => {
                let r: Result<JsonValue, TvscreenerError> = Err(e);
                assert(name_only(sel) && json_outcome(r, preview_spec(*cat, asset, opts.view_args(), sel)));
                return r;
        },
    }
    let ghost s2 = screener@;
    proof {
        lemma_filters_fold_frame(*cat, asset, s1, json_views(filters@));
    }
    assert(s2.selected == s1.selected);
    let sort = sort_key(opts.sort_by);
    let sort_ref: Option<&str> = match &sort {
        Some(k) => Some(k.as_str()),
        None => None,
    };
    match apply_sort(cat, &mut screener, asset, sort_ref, opts.ascending) {
        Ok(()) => {},
        Err(e) => {
                let r: Result<JsonValue, TvscreenerError> = Err(e);
                assert(name_only(sel) && json_outcome(r, preview_spec(*cat, asset, opts.view_args(), sel)));
                return r;
        },
    }
    let ghost s3 = screener@;
    assert(filter_sort_steps(*cat, asset, s1, opts.view_args().filters, sort_key_spec(opts.view_args().sort_by), opts.ascending) == Ok::<ScreenerState, ErrV>(s3));
    assert(s3.selected == s1.selected);
    if asset == Asset::Stock {
        match apply_stock_index_markets(cat, &mut screener, opts.indices, opts.markets) {
            Ok(()) => {},
            Err(e) => {
                    let r: Result<JsonValue, TvscreenerError> = Err(e);
                    assert(name_only(sel) && json_outcome(r, preview_spec(*cat, asset, opts.view_args(), sel)));
                    return r;
            },
        }
    } else if opts.indices.is_some() || opts.markets.is_some() {
        let r: Result<JsonValue, TvscreenerError> = Err(
            TvscreenerError::InvalidRequest(own("indices/markets only apply to asset_type=stock")),
        );
        assert(name_only(sel) && json_outcome(r, preview_spec(*cat, asset, opts.view_args(), sel)));
        return r;
    }
    let ghost s4 = screener@;
    assert(index_markets_step(*cat, asset, s3, opts.view_args().indices, opts.view_args().markets) == Ok::<ScreenerState, ErrV>(s4));
    assert(s4.selected == s1.selected);
    screener.set_range(0, limit);
    assert(preview_steps(*cat, asset, s1, opts.view_args()) == Ok::<ScreenerState, ErrV>(screener@));
    let r = screener.build_payload();
    assert(name_only(sel) && json_outcome(r, preview_spec(*cat, asset, opts.view_args(), sel)));
    r
}

/// Options for [`build_payload`].
pub struct BuildPayloadOpts<'a> {
    /// Asset key (`stock`, `crypto`, …).
    pub asset_type: &'a str,
    /// Comma-separated field const names.
    pub fields: Option<&'a str>,
    /// JSON array of `{field, op, value}` filters (or one such object).
    pub filters: Option<&'a str>,
    /// Sort field const name.
    pub sort_by: Option<&'a str>,
    /// Stock index CSV (`SP500` or `SP;SPX`).
    pub indices: Option<&'a str>,
    /// Stock markets CSV (`AMERICA` or `america`).
    pub markets: Option<&'a str>,
}

impl<'a> BuildPayloadOpts<'a> {
    /// The arguments of the preview this builds: descending, 25 rows.
    pub open spec fn view_args(&self) -> PreviewV {
        PreviewV {
            asset_type: self.asset_type@,
            fields: opt_view(self.fields),
            filters: filters_arg_spec(opt_view(self.filters)),
            sort_by: opt_view(self.sort_by),
            ascending: false,
            limit: 25,
            indices: opt_view(self.indices),
            markets: opt_view(self.markets),
        }
    }
}

/// Whether a result is the described payload, pretty-printed, or the error.
pub open spec fn text_outcome(r: Result<String, TvscreenerError>, x: Result<JsonV, ErrV>) -> bool {
    match x {
        Ok(p) => match json_pretty_text(p) {
            Ok(t) => r matches Ok(s) && s@ == t,
            Err(m) => r matches Err(TvscreenerError::Json(e)) && e@ == m,
        },
        Err(v) => r matches Err(e) && err_is(e, v),
    }
}

/// The scan payload of a default query (descending sort, 25 rows) as pretty
/// JSON text, without sending it.
pub fn build_payload(cat: &FieldsCatalog, opts: &BuildPayloadOpts) -> (r: Result<String, TvscreenerError>)
    ensures
        match asset_parse(opts.asset_type@) {
            None => r matches Err(e) && err_is(
                e,
                ErrV::Request("unknown asset_type `"@ + opts.asset_type@ + "`"@),
            ),
            Some(a) => exists|sel: Seq<FieldDef>|
                name_only(sel) && text_outcome(r, preview_spec(*cat, a, opts.view_args(), sel)),
        },
{
    let preview = PayloadPreviewOpts {
        asset_type: opts.asset_type,
        fields: opts.fields,
        filters: opts.filters,
        sort_by: opts.sort_by,
        ascending: false,
        limit: 25,
        indices: opts.indices,
        markets: opts.markets,
    };
    assert(preview.view_args() == opts.view_args());
    let p = custom_query_payload_preview(cat, &preview);
    let r = match p {
        Ok(v) => match pretty_json(&v) {
            Ok(text) => Ok(text),
            Err(m) => Err(TvscreenerError::Json(m)),
        },
        Err(e) => Err(e),
    };
    proof {
        if let Some(a) = asset_parse(opts.asset_type@) {
            let sel = choose|sel: Seq<FieldDef>|
                name_only(sel) && json_outcome(p, preview_spec(*cat, a, preview.view_args(), sel));
            assert(name_only(sel) && text_outcome(r, preview_spec(*cat, a, opts.view_args(), sel)));
        }
    }
    r
}

/// Options for a live custom query.
pub struct CustomQueryOpts<'a> {
    /// Asset key (`stock`, `crypto`, …).
    pub asset_type: &'a str,
    /// Comma-separated field const names.
    pub fields: Option<&'a str>,
    /// JSON array of `{field, op, value}` filters (or one such object).
    pub filters: Option<&'a str>,
    /// Sort field const name.
    pub sort_by: Option<&'a str>,
    /// Sort ascending when true.
    pub ascending: bool,
    /// Row limit (clamped 1..=100).
    pub limit: u32,
}

impl<'a> CustomQueryOpts<'a> {
    /// The arguments as the contracts see them (no indices or markets).
    pub open spec fn view_args(&self) -> PreviewV {
        PreviewV {
            asset_type: self.asset_type@,
            fields: opt_view(self.fields),
            filters: filters_arg_spec(opt_view(self.filters)),
            sort_by: opt_view(self.sort_by),
            ascending: self.ascending,
            limit: self.limit,
            indices: None,
            markets: None,
        }
    }
}

/// Configuring a custom query's screener: the filters argument must have been
/// read; then the named fields (when any), the filters, the sort, and the
/// range `[0, limit)` with the limit clamped to `1..=100`.
pub open spec fn custom_query_steps(cat: FieldsCatalog, a: Asset, s: ScreenerState, opts: PreviewV) -> Result<
    ScreenerState,
    ErrV,
> {
    match opts.filters {
        Err(m) => Err(ErrV::Request(m)),
        Ok(es) => {
            let names = csv_spec(opts.fields);
            let s1 = if names.len() == 0 {
                Ok(s)
            } else {
                select_step(cat, a, s, names)
            };
            match s1 {
                Err(v) => Err(v),
                Ok(s1) => match filter_sort_steps(cat, a, s1, Ok(es), sort_key_spec(opts.sort_by), opts.ascending) {
                    Err(v) => Err(v),
                    Ok(s3) => Ok(
                        ScreenerState { range_from: 0, range_to: clamp_spec(opts.limit, 1, 100), ..s3 },
                    ),
                },
            }
        },
    }
}

/// Configures the screener of a custom query (after `parse_asset` gave `asset`).
///
/// On failure the screener may hold part of the configuration; the query
/// then stops with the error.
pub fn configure_custom_query(
    cat: &FieldsCatalog,
    screener: &mut Screener,
    asset: Asset,
    opts: &CustomQueryOpts,
) -> (r: Result<(), TvscreenerError>)
    ensures
        match custom_query_steps(*cat, asset, old(screener)@, opts.view_args()) {
            Ok(s) => r is Ok && final(screener)@ == s,
            Err(v) => r matches Err(e) && err_is(e, v),
        },
{
    let filters = match parse_filters_arg(opts.filters) {
        Ok(f) => f,
        Err(e) => {
            return Err(e);
        },
    };
    let limit = clamp_u32(opts.limit, 1, 100);
    let field_list = parse_csv(opts.fields);
    if field_list.len() > 0 {
        match apply_select(cat, screener, asset, &field_list) {
            Ok(()) => {},
            Err(e) => {
                return Err(e);
            },
        }
    }
    let ghost s1 = screener@;
    match apply_filters(cat, screener, asset, &filters) {
        Ok(()) => {},
        Err(e) => {
            return Err(e);
        },
    }
    let sort = sort_key(opts.sort_by);
    let sort_ref: Option<&str> = match &sort {
        Some(k) => Some(k.as_str()),
        None => None,
    };
    match apply_sort(cat, screener, asset, sort_ref, opts.ascending) {
        Ok(()) => {},
        Err(e) => {
            return Err(e);
        },
    }
    screener.set_range(0, limit);
    Ok(())
}

} // verus!
