//! Ready-made screens of the MCP tools: stocks by price / market cap /
//! sector, crypto by volume / market cap, forex pairs, top movers, and stocks
//! by index. Each configures a screener; the scan itself runs elsewhere.
use vstd::prelude::*;
use crate::error::TvscreenerError;
use crate::field::{Asset, FieldDef, FieldsCatalog};
use crate::filter::{op_holds, FieldCondition, FilterOperator, FilterV};
use crate::json::{json_clone, JsonV, JsonValue};
use crate::query::{
    apply_select, apply_sort, clamp_spec, clamp_u32, err_is, lemma_resolve_defs_len,
    require_fields, require_resolved, resolve_defs, resolved_def, select_applied, select_step,
    sort_key, sort_key_spec, sort_step, unknown_field_msg, ErrV,
};
use crate::resolve::{
    apply_stock_index_markets, csv_spec, index_applied, markets_applied, opt_view, parse_csv,
    resolve_all, resolve_sector_wires, unknown_token_msg, TokenKind,
};
use crate::screener::{rejects, str_views, with_filter, Screener, ScreenerState};
use crate::text::{cat3, eq_ignore_case, lower_seq, own};

verus! {

/// A filter condition as the contracts see it: key, operator, right-hand value.
pub type CondV = (Seq<char>, FilterOperator, JsonV);

/// The view of a condition.
pub open spec fn cond_view(c: FieldCondition) -> CondV {
    (c.left@, c.operation, c.value@)
}

/// The views of a list of conditions.
pub open spec fn conds_view(cs: Seq<FieldCondition>) -> Seq<CondV> {
    cs.map_values(|c: FieldCondition| cond_view(c))
}

/// Adding one condition: rejected keys fail with `InvalidFieldName`.
pub open spec fn cond_step(s: ScreenerState, c: CondV) -> Result<ScreenerState, ErrV> {
    if rejects(s, c.0) {
        Err(ErrV::FieldName(c.0))
    } else {
        Ok(with_filter(s, FilterV { left: c.0, operation: c.1, values: seq![c.2] }))
    }
}

/// Adding conditions in order: the state reached, or the first error.
pub open spec fn conds_fold(s: ScreenerState, cs: Seq<CondV>) -> Result<ScreenerState, ErrV>
    decreases cs.len(),
{
    if cs.len() == 0 {
        Ok(s)
    } else {
        match conds_fold(s, cs.drop_last()) {
            Err(v) => Err(v),
            Ok(p) => cond_step(p, cs.last()),
        }
    }
}

/// Once a prefix of conditions fails, longer prefixes fail the same way.
proof fn lemma_conds_fold_err_extends(s: ScreenerState, cs: Seq<CondV>, n: int)
    requires
        0 <= n <= cs.len(),
        conds_fold(s, cs.take(n)) is Err,
    ensures
        conds_fold(s, cs) == conds_fold(s, cs.take(n)),
    decreases cs.len() - n,
{
    if n < cs.len() {
        assert(cs.take(n + 1).drop_last() =~= cs.take(n));
        lemma_conds_fold_err_extends(s, cs, n + 1);
    } else {
        assert(cs.take(n) =~= cs);
    }
}

/// Adding conditions changes nothing but the filter list.
proof fn lemma_conds_fold_frame(s: ScreenerState, cs: Seq<CondV>)
    ensures
        conds_fold(s, cs) matches Ok(t) ==> t == (ScreenerState { filters: t.filters, ..s }),
    decreases cs.len(),
{
    if cs.len() > 0 {
        lemma_conds_fold_frame(s, cs.drop_last());
    }
}

/// Adds conditions in order; the first rejected one stops.
pub fn apply_conditions(screener: &mut Screener, conds: Vec<FieldCondition>) -> (r: Result<
    (),
    TvscreenerError,
>)
    ensures
        match conds_fold(old(screener)@, conds_view(conds@)) {
            Ok(s) => r is Ok && final(screener)@ == s,
            Err(v) => r matches Err(e) && err_is(e, v),
        },
{
    let ghost cs = conds_view(conds@);
    let ghost s0 = screener@;
    let mut rest = conds;
    let mut taken: usize = 0;
    let ghost all = rest@;
    let n: usize = rest.len();
    let mut failure: Option<TvscreenerError> = None;
    assert(cs.take(0) =~= Seq::<CondV>::empty());
    assert(rest@ =~= all.skip(0));
    while rest.len() > 0 && failure.is_none()
        invariant
            cs == conds_view(all),
            taken + rest@.len() == all.len(),
            all.len() == n,
            rest@ == all.skip(taken as int),
            failure.is_none() ==> conds_fold(s0, cs.take(taken as int)) == Ok::<ScreenerState, ErrV>(
                screener@,
            ),
            failure matches Some(e) ==> (conds_fold(s0, cs) matches Err(v) && err_is(e, v)),
        decreases rest@.len(),
    {
        let c = rest.remove(0);
        assert(cond_view(c) == cs[taken as int]);
        assert(cs.take(taken + 1).drop_last() =~= cs.take(taken as int));
        let ghost before = screener@;
        let ghost cv = cond_view(c);
        match screener.where_condition(c) {
            Ok(_) => {},
            Err(e) => {
                proof {
                    assert(conds_fold(s0, cs.take(taken + 1)) == cond_step(before, cv));
                    lemma_conds_fold_err_extends(s0, cs, taken as int + 1);
                }
                failure = Some(e);
            },
        }
        taken = taken + 1;
        assert(rest@ =~= all.skip(taken as int));
    }
    match failure {
        Some(e) => Err(e),
        None => {
            assert(cs.take(all.len() as int) =~= cs);
            Ok(())
        },
    }
}

/// The view of an optional JSON value.
pub open spec fn opt_json_view(v: Option<JsonValue>) -> Option<JsonV> {
    match v {
        Some(x) => Some(x@),
        None => None,
    }
}

/// A condition on `left` when a bound is given.
pub open spec fn opt_cond(left: Seq<char>, op: FilterOperator, v: Option<JsonV>) -> Seq<CondV> {
    match v {
        Some(x) => seq![(left, op, x)],
        None => Seq::empty(),
    }
}

/// Appends a condition on `left` when a bound is given.
fn push_opt_cond(conds: &mut Vec<FieldCondition>, left: &String, op: FilterOperator, v: &Option<JsonValue>)
    ensures
        conds_view(final(conds)@) == conds_view(old(conds)@) + opt_cond(left@, op, opt_json_view(*v)),
{
    match v {
        Some(x) => {
            let ghost prev = conds@;
            conds.push(FieldCondition::new(left.clone(), op, json_clone(x)));
            assert(conds_view(conds@) =~= conds_view(prev) + seq![(left@, op, x@)]);
        },
        None => {
            assert(conds_view(conds@) =~= conds_view(conds@) + Seq::<CondV>::empty());
        },
    }
}

/// `Match` conditions of `left` against each wire value.
pub open spec fn match_conds(left: Seq<char>, ws: Seq<Seq<char>>) -> Seq<CondV> {
    ws.map_values(|w: Seq<char>| (left, FilterOperator::Match, JsonV::Str(w)))
}

/// Builds `Match` conditions of `left` against each wire value.
fn match_conditions(left: &String, wires: &Vec<String>) -> (r: Vec<FieldCondition>)
    ensures
        conds_view(r@) == match_conds(left@, str_views(wires@)),
{
    let mut out: Vec<FieldCondition> = Vec::new();
    let mut i: usize = 0;
    while i < wires.len()
        invariant
            i <= wires.len(),
            conds_view(out@) == match_conds(left@, str_views(wires@)).take(i as int),
        decreases wires.len() - i,
    {
        let ghost prev = out@;
        let w = JsonValue::Str(wires[i].clone());
        assert(w@ == JsonV::Str(wires@[i as int]@));
        out.push(FieldCondition::new(left.clone(), FilterOperator::Match, w));
        assert(conds_view(out@) =~= conds_view(prev).push(
            (left@, FilterOperator::Match, JsonV::Str(wires@[i as int]@)),
        ));
        i = i + 1;
        assert(conds_view(out@) =~= match_conds(left@, str_views(wires@)).take(i as int));
    }
    assert(match_conds(left@, str_views(wires@)).take(wires@.len() as int) =~= match_conds(
        left@,
        str_views(wires@),
    ));
    out
}

/// Price and market-cap bounds of a stock screen, as JSON numbers (market
/// caps in currency units).
pub struct StockBounds {
    /// Lowest price (inclusive).
    pub min_price: Option<JsonValue>,
    /// Highest price (inclusive).
    pub max_price: Option<JsonValue>,
    /// Lowest market capitalization (inclusive).
    pub min_market_cap: Option<JsonValue>,
    /// Highest market capitalization (inclusive).
    pub max_market_cap: Option<JsonValue>,
}

/// The bound conditions of a stock screen on the price and market-cap keys:
/// minimum price, maximum price, minimum market cap, maximum market cap.
pub open spec fn bound_conds(price: Seq<char>, mcap: Seq<char>, b: StockBounds) -> Seq<CondV> {
    opt_cond(price, FilterOperator::AboveOrEqual, opt_json_view(b.min_price)) + opt_cond(
        price,
        FilterOperator::BelowOrEqual,
        opt_json_view(b.max_price),
    ) + opt_cond(mcap, FilterOperator::AboveOrEqual, opt_json_view(b.min_market_cap)) + opt_cond(
        mcap,
        FilterOperator::BelowOrEqual,
        opt_json_view(b.max_market_cap),
    )
}

/// 1 when a bound is given, else 0.
pub open spec fn given(v: Option<JsonValue>) -> int {
    if v is Some { 1 } else { 0 }
}

/// The bound conditions of a stock screen mean what the bounds say, for every
/// value `x` and bound `y`: there is one condition per given bound, in the
/// order minimum price, maximum price, minimum market cap, maximum market
/// cap; a minimum admits exactly the values at or above it (`x >= y`) and a
/// maximum exactly those at or below it (`x <= y`); price bounds are on the
/// price key and market-cap bounds on the market-cap key, each with its bound
/// as the right-hand value.
pub proof fn lemma_bound_conds_mean_bounds(price: Seq<char>, mcap: Seq<char>, b: StockBounds, x: int, y: int)
    ensures
        ({
            let cs = bound_conds(price, mcap, b);
            let i1 = given(b.min_price);
            let i2 = i1 + given(b.max_price);
            let i3 = i2 + given(b.min_market_cap);
            &&& cs.len() == i3 + given(b.max_market_cap)
            &&& b.min_price matches Some(v) ==> (cs[0].0 == price && cs[0].2 == v@
                && op_holds(cs[0].1, x, y) == Some(x >= y))
            &&& b.max_price matches Some(v) ==> (cs[i1].0 == price && cs[i1].2 == v@
                && op_holds(cs[i1].1, x, y) == Some(x <= y))
            &&& b.min_market_cap matches Some(v) ==> (cs[i2].0 == mcap && cs[i2].2 == v@
                && op_holds(cs[i2].1, x, y) == Some(x >= y))
            &&& b.max_market_cap matches Some(v) ==> (cs[i3].0 == mcap && cs[i3].2 == v@
                && op_holds(cs[i3].1, x, y) == Some(x <= y))
        }),
{
    let a = opt_cond(price, FilterOperator::AboveOrEqual, opt_json_view(b.min_price));
    let bb = opt_cond(price, FilterOperator::BelowOrEqual, opt_json_view(b.max_price));
    let c = opt_cond(mcap, FilterOperator::AboveOrEqual, opt_json_view(b.min_market_cap));
    let d = opt_cond(mcap, FilterOperator::BelowOrEqual, opt_json_view(b.max_market_cap));
    assert(a.len() == given(b.min_price));
    assert(bb.len() == given(b.max_price));
    assert(c.len() == given(b.min_market_cap));
    assert(d.len() == given(b.max_market_cap));
    let cs = bound_conds(price, mcap, b);
    assert(cs == a + bb + c + d);
    let i1 = a.len() as int;
    let i2 = i1 + bb.len();
    let i3 = i2 + c.len();
    if b.min_price is Some {
        assert(cs[0] == a[0]);
    }
    if b.max_price is Some {
        assert(cs[i1] == bb[0]);
    }
    if b.min_market_cap is Some {
        assert(cs[i2] == c[0]);
    }
    if b.max_market_cap is Some {
        assert(cs[i3] == d[0]);
    }
}

/// The columns of a stock screen.
pub open spec fn stock_select_names() -> Seq<Seq<char>> {
    seq![
        "NAME"@,
        "PRICE"@,
        "CHANGE_PERCENT"@,
        "VOLUME"@,
        "MARKET_CAPITALIZATION"@,
        "PRICE_TO_EARNINGS_RATIO_TTM"@,
        "SECTOR"@,
    ]
}

/// The sort column of a stock screen: `price`, `volume`, `change`, else market cap.
pub open spec fn stock_sort_name(sort_by: Seq<char>) -> Seq<char> {
    if sort_by == "price"@ {
        "PRICE"@
    } else if sort_by == "volume"@ {
        "VOLUME"@
    } else if sort_by == "change"@ {
        "CHANGE_PERCENT"@
    } else {
        "MARKET_CAPITALIZATION"@
    }
}

/// The sector wire values of a stock screen (none when no sectors are given).
pub open spec fn sector_wires_spec(cat: FieldsCatalog, sectors: Option<Seq<char>>) -> Result<
    Seq<Seq<char>>,
    Seq<char>,
> {
    match sectors {
        None => Ok(Seq::empty()),
        Some(x) => resolve_all(cat, TokenKind::Sector, csv_spec(Some(x))),
    }
}

/// Sorting descending by a named column, then the range `[0, limit)`.
pub open spec fn sort_range_step(cat: FieldsCatalog, a: Asset, s: ScreenerState, name: Seq<char>, ascending: bool, limit: u32) -> Result<
    ScreenerState,
    ErrV,
> {
    match resolved_def(cat, a, name) {
        None => Err(ErrV::Request(unknown_field_msg(name, a))),
        Some(d) => Ok(
            ScreenerState {
                sort_by: Some((d.field_name@, ascending)),
                range_from: 0,
                range_to: limit,
                ..s
            },
        ),
    }
}

/// Configuring a stock screen: select the stock columns, add the bound
/// conditions, then a `match` condition per sector, sort descending by the
/// chosen column, range `[0, limit)` with the limit clamped to `1..=100`.
pub open spec fn search_stocks_steps(
    cat: FieldsCatalog,
    s: ScreenerState,
    b: StockBounds,
    sectors: Option<Seq<char>>,
    sort_by: Seq<char>,
    limit: u32,
) -> Result<ScreenerState, ErrV> {
    match resolve_defs(cat, Asset::Stock, stock_select_names()) {
        Err(n) => Err(ErrV::Request(unknown_field_msg(n, Asset::Stock))),
        Ok(ds) => {
            let s1 = ScreenerState { selected: ds, select_all: false, ..s };
            match conds_fold(s1, bound_conds(ds[1].field_name@, ds[4].field_name@, b)) {
                Err(v) => Err(v),
                Ok(s2) => match sector_wires_spec(cat, sectors) {
                    Err(t) => Err(ErrV::Request(unknown_token_msg(TokenKind::Sector, t))),
                    Ok(ws) => match conds_fold(s2, match_conds(ds[6].field_name@, ws)) {
                        Err(v) => Err(v),
                        Ok(s3) => sort_range_step(
                            cat,
                            Asset::Stock,
                            s3,
                            stock_sort_name(sort_by),
                            false,
                            clamp_spec(limit, 1, 100),
                        ),
                    },
                },
            }
        },
    }
}

/// Copies an optional JSON value.
fn clone_opt_json(v: &Option<JsonValue>) -> (r: Option<JsonValue>)
    ensures
        opt_json_view(r) == opt_json_view(*v),
{
    match v {
        Some(x) => Some(json_clone(x)),
        None => None,
    }
}

/// Configures a stock screen on `screener`.
///
/// On failure the screener may hold part of the configuration; the screen
/// then stops with the error.
pub fn configure_search_stocks(
    cat: &FieldsCatalog,
    screener: &mut Screener,
    bounds: &StockBounds,
    sectors: Option<&str>,
    sort_by: &str,
    limit: u32,
) -> (r: Result<(), TvscreenerError>)
    ensures
        match search_stocks_steps(*cat, old(screener)@, *bounds, opt_view(sectors), sort_by@, limit) {
            Ok(s) => r is Ok && final(screener)@ == s,
            Err(v) => r matches Err(e) && err_is(e, v),
        },
{
    let limit = clamp_u32(limit, 1, 100);
    let mut names: Vec<String> = Vec::new();
    names.push(own("NAME"));
    names.push(own("PRICE"));
    names.push(own("CHANGE_PERCENT"));
    names.push(own("VOLUME"));
    names.push(own("MARKET_CAPITALIZATION"));
    names.push(own("PRICE_TO_EARNINGS_RATIO_TTM"));
    names.push(own("SECTOR"));
    assert(str_views(names@) =~= stock_select_names());
    let defs = match require_fields(cat, Asset::Stock, &names) {
        Ok(d) => d,
        Err(e) => {
            return Err(e);
        },
    };
    proof {
        lemma_resolve_defs_len(*cat, Asset::Stock, stock_select_names());
    }
    let price = defs[1].field_name.clone();
    let mcap = defs[4].field_name.clone();
    let sector = defs[6].field_name.clone();
    screener.select(defs);
    let mut conds: Vec<FieldCondition> = Vec::new();
    assert(conds_view(conds@) =~= Seq::<CondV>::empty());
    push_opt_cond(&mut conds, &price, FilterOperator::AboveOrEqual, &bounds.min_price);
    push_opt_cond(&mut conds, &price, FilterOperator::BelowOrEqual, &bounds.max_price);
    push_opt_cond(&mut conds, &mcap, FilterOperator::AboveOrEqual, &bounds.min_market_cap);
    push_opt_cond(&mut conds, &mcap, FilterOperator::BelowOrEqual, &bounds.max_market_cap);
    assert(conds_view(conds@) =~= bound_conds(price@, mcap@, *bounds));
    match apply_conditions(screener, conds) {
        Ok(()) => {},
        Err(e) => {
            return Err(e);
        },
    }
    let wires: Vec<String> = match sectors {
        Some(x) => match resolve_sector_wires(cat, Some(x)) {
            Ok(w) => w,
            Err(e) => {
                return Err(e);
            },
        },
        None => {
            let w: Vec<String> = Vec::new();
            assert(str_views(w@) =~= Seq::<Seq<char>>::empty());
            w
        },
    };
    match apply_conditions(screener, match_conditions(&sector, &wires)) {
        Ok(()) => {},
        Err(e) => {
            return Err(e);
        },
    }
    let key: &str = if crate::text::str_eq(sort_by, "price") {
        "PRICE"
    } else if crate::text::str_eq(sort_by, "volume") {
        "VOLUME"
    } else if crate::text::str_eq(sort_by, "change") {
        "CHANGE_PERCENT"
    } else {
        "MARKET_CAPITALIZATION"
    };
    assert(key@ == stock_sort_name(sort_by@));
    let d = match require_resolved(cat, Asset::Stock, key) {
        Ok(d) => d,
        Err(e) => {
            return Err(e);
        },
    };
    screener.sort_by_field(&d, false);
    screener.set_range(0, limit);
    Ok(())
}

/// Selecting resolved columns, then adding conditions built from them, then
/// the range `[0, limit)`.
pub open spec fn select_conds_range(
    cat: FieldsCatalog,
    a: Asset,
    s: ScreenerState,
    names: Seq<Seq<char>>,
    conds: spec_fn(Seq<FieldDef>) -> Seq<CondV>,
    limit: u32,
) -> Result<ScreenerState, ErrV> {
    match resolve_defs(cat, a, names) {
        Err(n) => Err(ErrV::Request(unknown_field_msg(n, a))),
        Ok(ds) => match conds_fold(ScreenerState { selected: ds, select_all: false, ..s }, conds(ds)) {
            Err(v) => Err(v),
            Ok(t) => Ok(ScreenerState { range_from: 0, range_to: limit, ..t }),
        },
    }
}

/// The columns of a crypto screen.
pub open spec fn crypto_select_names() -> Seq<Seq<char>> {
    seq!["NAME"@, "PRICE"@, "CHANGE_PERCENT"@, "VOLUME_24H_IN_USD"@, "MARKET_CAPITALIZATION"@]
}

/// Configuring a crypto screen: the crypto columns, a minimum 24h volume and
/// a minimum market cap when given, range `[0, limit)` (limit clamped to `1..=100`).
pub open spec fn search_crypto_steps(
    cat: FieldsCatalog,
    s: ScreenerState,
    min_volume: Option<JsonV>,
    min_market_cap: Option<JsonV>,
    limit: u32,
) -> Result<ScreenerState, ErrV> {
    select_conds_range(
        cat,
        Asset::Crypto,
        s,
        crypto_select_names(),
        |ds: Seq<FieldDef>|
            opt_cond(ds[3].field_name@, FilterOperator::AboveOrEqual, min_volume) + opt_cond(
                ds[4].field_name@,
                FilterOperator::AboveOrEqual,
                min_market_cap,
            ),
        clamp_spec(limit, 1, 100),
    )
}

/// Configures a crypto screen on `screener`. Bounds are JSON numbers in
/// currency units.
///
/// On failure the screener may hold part of the configuration.
pub fn configure_search_crypto(
    cat: &FieldsCatalog,
    screener: &mut Screener,
    min_volume: &Option<JsonValue>,
    min_market_cap: &Option<JsonValue>,
    limit: u32,
) -> (r: Result<(), TvscreenerError>)
    ensures
        match search_crypto_steps(
            *cat,
            old(screener)@,
            opt_json_view(*min_volume),
            opt_json_view(*min_market_cap),
            limit,
        ) {
            Ok(s) => r is Ok && final(screener)@ == s,
            Err(v) => r matches Err(e) && err_is(e, v),
        },
{
    let limit = clamp_u32(limit, 1, 100);
    let mut names: Vec<String> = Vec::new();
    names.push(own("NAME"));
    names.push(own("PRICE"));
    names.push(own("CHANGE_PERCENT"));
    names.push(own("VOLUME_24H_IN_USD"));
    names.push(own("MARKET_CAPITALIZATION"));
    assert(str_views(names@) =~= crypto_select_names());
    let defs = match require_fields(cat, Asset::Crypto, &names) {
        Ok(d) => d,
        Err(e) => {
            return Err(e);
        },
    };
    proof {
        lemma_resolve_defs_len(*cat, Asset::Crypto, crypto_select_names());
    }
    let ghost ds = defs@;
    let vol = defs[3].field_name.clone();
    let mcap = defs[4].field_name.clone();
    screener.select(defs);
    let mut conds: Vec<FieldCondition> = Vec::new();
    assert(conds_view(conds@) =~= Seq::<CondV>::empty());
    push_opt_cond(&mut conds, &vol, FilterOperator::AboveOrEqual, min_volume);
    push_opt_cond(&mut conds, &mcap, FilterOperator::AboveOrEqual, min_market_cap);
    assert(conds_view(conds@) =~= opt_cond(ds[3].field_name@, FilterOperator::AboveOrEqual, opt_json_view(*min_volume)) + opt_cond(
        ds[4].field_name@,
        FilterOperator::AboveOrEqual,
        opt_json_view(*min_market_cap),
    ));
    match apply_conditions(screener, conds) {
        Ok(()) => {},
        Err(e) => {
            return Err(e);
        },
    }
    screener.set_range(0, limit);
    Ok(())
}

/// The columns of a forex screen.
pub open spec fn forex_select_names() -> Seq<Seq<char>> {
    seq!["NAME"@, "PRICE"@, "CHANGE_PERCENT"@, "VOLUME"@]
}

/// Configuring a forex screen: the forex columns, a minimum volume when
/// given, range `[0, limit)` (limit clamped to `1..=100`).
pub open spec fn search_forex_steps(cat: FieldsCatalog, s: ScreenerState, min_volume: Option<JsonV>, limit: u32) -> Result<
    ScreenerState,
    ErrV,
> {
    select_conds_range(
        cat,
        Asset::Forex,
        s,
        forex_select_names(),
        |ds: Seq<FieldDef>| opt_cond(ds[3].field_name@, FilterOperator::AboveOrEqual, min_volume),
        clamp_spec(limit, 1, 100),
    )
}

/// Configures a forex screen on `screener`. The bound is a JSON number.
///
/// On failure the screener may hold part of the configuration.
pub fn configure_search_forex(
    cat: &FieldsCatalog,
    screener: &mut Screener,
    min_volume: &Option<JsonValue>,
    limit: u32,
) -> (r: Result<(), TvscreenerError>)
    ensures
        match search_forex_steps(*cat, old(screener)@, opt_json_view(*min_volume), limit) {
            Ok(s) => r is Ok && final(screener)@ == s,
            Err(v) => r matches Err(e) && err_is(e, v),
        },
{
    let limit = clamp_u32(limit, 1, 100);
    let mut names: Vec<String> = Vec::new();
    names.push(own("NAME"));
    names.push(own("PRICE"));
    names.push(own("CHANGE_PERCENT"));
    names.push(own("VOLUME"));
    assert(str_views(names@) =~= forex_select_names());
    let defs = match require_fields(cat, Asset::Forex, &names) {
        Ok(d) => d,
        Err(e) => {
            return Err(e);
        },
    };
    proof {
        lemma_resolve_defs_len(*cat, Asset::Forex, forex_select_names());
    }
    let ghost ds = defs@;
    let vol = defs[3].field_name.clone();
    screener.select(defs);
    let mut conds: Vec<FieldCondition> = Vec::new();
    assert(conds_view(conds@) =~= Seq::<CondV>::empty());
    push_opt_cond(&mut conds, &vol, FilterOperator::AboveOrEqual, min_volume);
    assert(conds_view(conds@) =~= opt_cond(ds[3].field_name@, FilterOperator::AboveOrEqual, opt_json_view(*min_volume)));
    match apply_conditions(screener, conds) {
        Ok(()) => {},
        Err(e) => {
            return Err(e);
        },
    }
    screener.set_range(0, limit);
    Ok(())
}

/// The columns of a top-movers screen: crypto, or stocks.
pub open spec fn movers_select_names(crypto: bool) -> Seq<Seq<char>> {
    if crypto {
        seq!["NAME"@, "PRICE"@, "CHANGE_PERCENT"@, "VOLUME_24H_IN_USD"@]
    } else {
        seq!["NAME"@, "PRICE"@, "CHANGE_PERCENT"@, "VOLUME"@, "MARKET_CAPITALIZATION"@]
    }
}

/// The asset of a top-movers screen.
pub open spec fn movers_asset(crypto: bool) -> Asset {
    if crypto {
        Asset::Crypto
    } else {
        Asset::Stock
    }
}

/// Configuring a top-movers screen: the columns, sorted by change percent
/// (ascending for losers), range `[0, limit)` with the limit clamped to `1..=50`.
pub open spec fn top_movers_steps(cat: FieldsCatalog, s: ScreenerState, crypto: bool, ascending: bool, limit: u32) -> Result<
    ScreenerState,
    ErrV,
> {
    let a = movers_asset(crypto);
    match resolve_defs(cat, a, movers_select_names(crypto)) {
        Err(n) => Err(ErrV::Request(unknown_field_msg(n, a))),
        Ok(ds) => sort_range_step(
            cat,
            a,
            ScreenerState { selected: ds, select_all: false, ..s },
            "CHANGE_PERCENT"@,
            ascending,
            clamp_spec(limit, 1, 50),
        ),
    }
}

/// Which top-movers screen a request asks for: crypto when the asset type is
/// `crypto` ignoring ASCII case (else stocks), ascending (losers) when the
/// direction is `losers` ignoring ASCII case (else gainers).
pub fn top_movers_kind(asset_type: &str, direction: &str) -> (r: (bool, bool))
    ensures
        r.0 == (lower_seq(asset_type@) == lower_seq("crypto"@)),
        r.1 == (lower_seq(direction@) == lower_seq("losers"@)),
{
    (eq_ignore_case(asset_type, "crypto"), eq_ignore_case(direction, "losers"))
}

/// Configures a top-movers screen on `screener`.
///
/// On failure the screener may hold part of the configuration.
pub fn configure_top_movers(
    cat: &FieldsCatalog,
    screener: &mut Screener,
    crypto: bool,
    ascending: bool,
    limit: u32,
) -> (r: Result<(), TvscreenerError>)
    ensures
        match top_movers_steps(*cat, old(screener)@, crypto, ascending, limit) {
            Ok(s) => r is Ok && final(screener)@ == s,
            Err(v) => r matches Err(e) && err_is(e, v),
        },
{
    let limit = clamp_u32(limit, 1, 50);
    let asset = if crypto {
        Asset::Crypto
    } else {
        Asset::Stock
    };
    let mut names: Vec<String> = Vec::new();
    names.push(own("NAME"));
    names.push(own("PRICE"));
    names.push(own("CHANGE_PERCENT"));
    if crypto {
        names.push(own("VOLUME_24H_IN_USD"));
    } else {
        names.push(own("VOLUME"));
        names.push(own("MARKET_CAPITALIZATION"));
    }
    assert(str_views(names@) =~= movers_select_names(crypto));
    let defs = match require_fields(cat, asset, &names) {
        Ok(d) => d,
        Err(e) => {
            return Err(e);
        },
    };
    screener.select(defs);
    let change = match require_resolved(cat, asset, "CHANGE_PERCENT") {
        Ok(d) => d,
        Err(e) => {
            return Err(e);
        },
    };
    screener.sort_by_field(&change, ascending);
    screener.set_range(0, limit);
    Ok(())
}

/// The text of a top-movers answer: a `Top Gainers:` / `Top Losers:` title,
/// a blank line, then the table.
pub open spec fn top_movers_text_spec(ascending: bool, table: Seq<char>) -> Seq<char> {
    "Top "@ + (if ascending {
        "Losers"@
    } else {
        "Gainers"@
    }) + ":\n\n"@ + table
}

/// Titles a top-movers table.
pub fn top_movers_text(ascending: bool, table: &str) -> (r: String)
    ensures
        r@ == top_movers_text_spec(ascending, table@),
{
    let label = if ascending {
        "Losers"
    } else {
        "Gainers"
    };
    let mut r = cat3("Top ", label, ":\n\n");
    r.append(table);
    r
}

/// A top-movers screen sorts by the change-percent column, ascending exactly
/// when losers are asked for (`ascending`), descending for gainers, over the
/// window `[0, limit)` with the limit clamped to `1..=50`; and its answer is
/// titled `Top Losers` exactly when it sorts ascending.
pub proof fn lemma_top_movers_order(
    cat: FieldsCatalog,
    s: ScreenerState,
    crypto: bool,
    ascending: bool,
    limit: u32,
    table: Seq<char>,
)
    ensures
        top_movers_steps(cat, s, crypto, ascending, limit) matches Ok(t) ==> (
            resolved_def(cat, movers_asset(crypto), "CHANGE_PERCENT"@) is Some
            && t.sort_by == Some((
                resolved_def(cat, movers_asset(crypto), "CHANGE_PERCENT"@).unwrap().field_name@,
                ascending,
            ))
            && t.range_from == 0
            && 1 <= t.range_to <= 50
            && (limit >= 1 && limit <= 50 ==> t.range_to == limit)
        ),
        "Top Losers"@.is_prefix_of(top_movers_text_spec(ascending, table)) <==> ascending,
        "Top Gainers"@.is_prefix_of(top_movers_text_spec(ascending, table)) <==> !ascending,
{
    reveal_strlit("Top Losers");
    reveal_strlit("Top Gainers");
    reveal_strlit("Top ");
    reveal_strlit("Losers");
    reveal_strlit("Gainers");
    let txt = top_movers_text_spec(ascending, table);
    if ascending {
        assert(txt[4] == 'L');
        assert("Top Gainers"@[4] == 'G');
        assert("Top Losers"@ =~= txt.take(10));
    } else {
        assert(txt[4] == 'G');
        assert("Top Losers"@[4] == 'L');
        assert("Top Gainers"@ =~= txt.take(11));
    }
}

/// The default columns of a stocks-by-index screen.
pub open spec fn by_index_select_names() -> Seq<Seq<char>> {
    seq!["NAME"@, "PRICE"@, "CHANGE_PERCENT"@, "VOLUME"@, "MARKET_CAPITALIZATION"@, "SECTOR"@]
}

/// Configuring a stocks-by-index screen: the named columns (or the defaults),
/// the markets then the indices, the sort descending by the named field when
/// one is given, range `[0, limit)` with the limit clamped to `1..=100`.
pub open spec fn search_by_index_steps(
    cat: FieldsCatalog,
    s: ScreenerState,
    indices: Seq<char>,
    markets: Option<Seq<char>>,
    fields: Option<Seq<char>>,
    sort_by: Option<Seq<char>>,
    limit: u32,
) -> Result<ScreenerState, ErrV> {
    let names = csv_spec(fields);
    let s1 = if names.len() == 0 {
        select_step(cat, Asset::Stock, s, by_index_select_names())
    } else {
        select_step(cat, Asset::Stock, s, names)
    };
    match s1 {
        Err(v) => Err(v),
        Ok(s1) => match crate::query::index_markets_step(cat, Asset::Stock, s1, Some(indices), markets) {
            Err(v) => Err(v),
            Ok(s2) => match sort_step(cat, Asset::Stock, s2, sort_key_spec(sort_by), false) {
                Err(v) => Err(v),
                Ok(s3) => Ok(
                    ScreenerState { range_from: 0, range_to: clamp_spec(limit, 1, 100), ..s3 },
                ),
            },
        },
    }
}

/// Configures a stocks-by-index screen on `screener`.
///
/// On failure the screener may hold part of the configuration.
pub fn configure_search_by_index(
    cat: &FieldsCatalog,
    screener: &mut Screener,
    indices: &str,
    markets: Option<&str>,
    fields: Option<&str>,
    sort_by: Option<&str>,
    limit: u32,
) -> (r: Result<(), TvscreenerError>)
    ensures
        match search_by_index_steps(
            *cat,
            old(screener)@,
            indices@,
            opt_view(markets),
            opt_view(fields),
            opt_view(sort_by),
            limit,
        ) {
            Ok(s) => r is Ok && final(screener)@ == s,
            Err(v) => r matches Err(e) && err_is(e, v),
        },
{
    let limit = clamp_u32(limit, 1, 100);
    let field_list = parse_csv(fields);
    if field_list.len() == 0 {
        let mut names: Vec<String> = Vec::new();
        names.push(own("NAME"));
        names.push(own("PRICE"));
        names.push(own("CHANGE_PERCENT"));
        names.push(own("VOLUME"));
        names.push(own("MARKET_CAPITALIZATION"));
        names.push(own("SECTOR"));
        assert(str_views(names@) =~= by_index_select_names());
        match apply_select(cat, screener, Asset::Stock, &names) {
            Ok(()) => {},
            Err(e) => {
                return Err(e);
            },
        }
    } else {
        match apply_select(cat, screener, Asset::Stock, &field_list) {
            Ok(()) => {},
            Err(e) => {
                return Err(e);
            },
        }
    }
    match apply_stock_index_markets(cat, screener, Some(indices), markets) {
        Ok(()) => {},
        Err(e) => {
            return Err(e);
        },
    }
    let sort = sort_key(sort_by);
    let sort_ref: Option<&str> = match &sort {
        Some(k) => Some(k.as_str()),
        None => None,
    };
    match apply_sort(cat, screener, Asset::Stock, sort_ref, false) {
        Ok(()) => {},
        Err(e) => {
            return Err(e);
        },
    }
    screener.set_range(0, limit);
    Ok(())
}

} // verus!
