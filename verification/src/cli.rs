//! The decisions of the `tvscreener` command line: which columns a scan
//! requests, how its arguments configure the screener, and the payload it
//! prints without sending.
use vstd::prelude::*;
use crate::error::TvscreenerError;
use crate::field::{
    bond_defaults_spec, default_bond_fields, default_coin_fields, default_crypto_fields,
    default_forex_fields, default_futures_fields, default_stock_fields, get_preset, Asset,
    FieldDef, FieldsCatalog,
};
use crate::filter::{extra_str, ExtraFilter, FilterOperator, FilterV};
use crate::json::{JsonV, JsonValue};
use crate::resolve::{
    csv_spec, index_applied, markets_applied, opt_view, parse_csv, resolve_all, resolve_tokens,
    TokenKind,
};
use crate::screener::{payload_spec, str_views, with_filter, Screener, ScreenerState};
use crate::text::{cat3, own};
use crate::util::columns_spec;

verus! {

/// The arguments of a `scan` / `payload` command.
pub struct ScanArgs {
    /// Asset class to scan.
    pub asset: Asset,
    /// Preset name (see `tvscreener presets`).
    pub preset: Option<String>,
    /// Result window start (inclusive).
    pub from: u32,
    /// Max rows (window end = from + limit, saturating).
    pub limit: u32,
    /// Name/description search text.
    pub search: Option<String>,
    /// Stock markets CSV (const or wire), e.g. `AMERICA`.
    pub markets: Option<String>,
    /// Stock index CSV (const or wire), e.g. `SP500`.
    pub index: Option<String>,
}

/// Why a command failed.
#[derive(Debug)]
pub enum CliError {
    /// The named preset could not be resolved.
    Preset {
        /// The preset name.
        name: String,
        /// The catalog error.
        source: TvscreenerError,
    },
    /// The library refused the request.
    Library(TvscreenerError),
    /// An argument is invalid; the message says which.
    Usage(String),
}

/// A command failure, as the contracts see it.
pub enum CliErrV {
    Preset(Seq<char>, Seq<char>),
    Library(Seq<char>),
    Usage(Seq<char>),
}

/// Whether an error is the one described (a preset or library error by its
/// `InvalidRequest` message).
pub open spec fn cli_err_is(e: CliError, v: CliErrV) -> bool {
    match v {
        CliErrV::Preset(n, m) => e matches CliError::Preset { name, source } && name@ == n && (
        source matches TvscreenerError::InvalidRequest(x) && x@ == m),
        CliErrV::Library(m) => e matches CliError::Library(TvscreenerError::InvalidRequest(x)) && x@
            == m,
        CliErrV::Usage(m) => e matches CliError::Usage(x) && x@ == m,
    }
}

/// The fields of a preset, or the message of why it does not resolve.
pub open spec fn preset_spec(cat: FieldsCatalog, name: Seq<char>) -> Result<Seq<FieldDef>, Seq<char>> {
    match cat.preset_refs(name) {
        None => Err("unknown preset: "@ + name),
        Some(refs) => {
            let fs = cat.resolve_refs(refs);
            if fs.len() == 0 {
                Err("preset `"@ + name + "` resolved to no fields"@)
            } else {
                Ok(fs)
            }
        },
    }
}

/// The default columns of an asset (bonds fall back to the `bond_basic` preset).
pub open spec fn default_fields_spec(cat: FieldsCatalog, a: Asset) -> Seq<FieldDef> {
    match a {
        Asset::Bond => bond_defaults_spec(cat),
        _ => cat.defaults_spec(a),
    }
}

/// The default columns of an asset.
pub fn default_fields(cat: &FieldsCatalog, asset: Asset) -> (r: Vec<FieldDef>)
    ensures
        r@ == default_fields_spec(*cat, asset),
{
    match asset {
        Asset::Stock => default_stock_fields(cat),
        Asset::Crypto => default_crypto_fields(cat),
        Asset::Forex => default_forex_fields(cat),
        Asset::Bond => default_bond_fields(cat),
        Asset::Futures => default_futures_fields(cat),
        Asset::Coin => default_coin_fields(cat),
    }
}

/// The columns of a scan: the preset's fields, or the asset's defaults.
pub open spec fn scan_fields_spec(cat: FieldsCatalog, a: Asset, preset: Option<Seq<char>>) -> Result<
    Seq<FieldDef>,
    CliErrV,
> {
    match preset {
        Some(n) => match preset_spec(cat, n) {
            Ok(fs) => Ok(fs),
            Err(m) => Err(CliErrV::Preset(n, m)),
        },
        None => Ok(default_fields_spec(cat, a)),
    }
}

/// The columns of a scan: the named preset's fields, or the asset's defaults.
pub fn resolve_fields(cat: &FieldsCatalog, asset: Asset, preset: Option<&str>) -> (r: Result<
    Vec<FieldDef>,
    CliError,
>)
    ensures
        match scan_fields_spec(*cat, asset, opt_view(preset)) {
            Ok(fs) => r matches Ok(v) && v@ == fs,
            Err(x) => r matches Err(e) && cli_err_is(e, x),
        },
{
    match preset {
        Some(name) => match get_preset(cat, name) {
            Ok(v) => Ok(v),
            Err(e) => Err(CliError::Preset { name: own(name), source: e }),
        },
        None => Ok(default_fields(cat, asset)),
    }
}

/// `a + b`, saturating at `u32::MAX`.
pub open spec fn sat_add(a: u32, b: u32) -> u32 {
    if a + b > u32::MAX {
        u32::MAX
    } else {
        (a + b) as u32
    }
}

/// The message for an unknown market or index token on the command line.
pub open spec fn cli_unknown_msg(kind: TokenKind, t: Seq<char>) -> Seq<char> {
    match kind {
        TokenKind::Index => "unknown index `"@ + t + "` (e.g. SP500)"@,
        _ => "unknown market `"@ + t + "` (try `tvscreener markets`)"@,
    }
}

/// Resolves command-line market tokens to wire values.
pub fn resolve_markets_local(cat: &FieldsCatalog, tokens: &Vec<String>) -> (r: Result<
    Vec<String>,
    CliError,
>)
    ensures
        match resolve_all(*cat, TokenKind::Market, str_views(tokens@)) {
            Ok(vs) => r matches Ok(v) && str_views(v@) == vs,
            Err(t) => r matches Err(e) && cli_err_is(
                e,
                CliErrV::Usage(cli_unknown_msg(TokenKind::Market, t)),
            ),
        },
{
    match resolve_tokens(cat, TokenKind::Market, tokens) {
        Ok(v) => Ok(v),
        Err(t) => Err(
            CliError::Usage(cat3("unknown market `", t.as_str(), "` (try `tvscreener markets`)")),
        ),
    }
}

/// Resolves command-line index tokens to catalog symbols.
pub fn resolve_indices_local(cat: &FieldsCatalog, tokens: &Vec<String>) -> (r: Result<
    Vec<String>,
    CliError,
>)
    ensures
        match resolve_all(*cat, TokenKind::Index, str_views(tokens@)) {
            Ok(vs) => r matches Ok(v) && str_views(v@) == vs,
            Err(t) => r matches Err(e) && cli_err_is(
                e,
                CliErrV::Usage(cli_unknown_msg(TokenKind::Index, t)),
            ),
        },
{
    match resolve_tokens(cat, TokenKind::Index, tokens) {
        Ok(v) => Ok(v),
        Err(t) => Err(CliError::Usage(cat3("unknown index `", t.as_str(), "` (e.g. SP500)"))),
    }
}

/// The stock-only arguments: markets first, then indices.
pub open spec fn stock_extras_spec(
    cat: FieldsCatalog,
    s: ScreenerState,
    markets: Option<Seq<char>>,
    index: Option<Seq<char>>,
) -> Result<ScreenerState, CliErrV> {
    match resolve_all(cat, TokenKind::Market, csv_spec(markets)) {
        Err(t) => Err(CliErrV::Usage(cli_unknown_msg(TokenKind::Market, t))),
        Ok(ms) => match resolve_all(cat, TokenKind::Index, csv_spec(index)) {
            Err(t) => Err(CliErrV::Usage(cli_unknown_msg(TokenKind::Index, t))),
            Ok(is) => Ok(index_applied(markets_applied(s, ms), is)),
        },
    }
}

/// Resolving tokens that all resolve gives one value per token.
proof fn lemma_resolve_all_len(cat: FieldsCatalog, kind: TokenKind, ts: Seq<Seq<char>>)
    ensures
        resolve_all(cat, kind, ts) matches Ok(vs) ==> vs.len() == ts.len(),
    decreases ts.len(),
{
    if ts.len() > 0 {
        lemma_resolve_all_len(cat, kind, ts.drop_last());
    }
}

/// Applies the stock-only `--markets` and `--index` arguments.
///
/// On failure the screener may hold the markets already applied.
pub fn apply_stock_extras(
    cat: &FieldsCatalog,
    screener: &mut Screener,
    markets: Option<&str>,
    index: Option<&str>,
) -> (r: Result<(), CliError>)
    ensures
        match stock_extras_spec(*cat, old(screener)@, opt_view(markets), opt_view(index)) {
            Ok(s) => r is Ok && final(screener)@ == s,
            Err(x) => r matches Err(e) && cli_err_is(e, x),
        },
{
    let market_tokens = parse_csv(markets);
    proof {
        lemma_resolve_all_len(*cat, TokenKind::Market, str_views(market_tokens@));
        lemma_resolve_all_len(*cat, TokenKind::Index, csv_spec(opt_view(index)));
    }
    if market_tokens.len() > 0 {
        let ms = match resolve_markets_local(cat, &market_tokens) {
            Ok(v) => v,
            Err(e) => {
                return Err(e);
            },
        };
        screener.set_markets(ms);
    }
    let index_tokens = parse_csv(index);
    if index_tokens.len() > 0 {
        let is = match resolve_indices_local(cat, &index_tokens) {
            Ok(v) => v,
            Err(e) => {
                return Err(e);
            },
        };
        screener.set_index(is);
    }
    Ok(())
}

/// The arguments of a scan, as the contracts see them.
pub struct ScanArgsV {
    pub asset: Asset,
    pub preset: Option<Seq<char>>,
    pub from: u32,
    pub limit: u32,
    pub search: Option<Seq<char>>,
    pub markets: Option<Seq<char>>,
    pub index: Option<Seq<char>>,
}

/// The view of an optional string.
pub open spec fn opt_string_view(o: Option<String>) -> Option<Seq<char>> {
    match o {
        Some(s) => Some(s@),
        None => None,
    }
}

impl ScanArgs {
    /// The arguments as the contracts see them.
    pub open spec fn view_args(&self) -> ScanArgsV {
        ScanArgsV {
            asset: self.asset,
            preset: opt_string_view(self.preset),
            from: self.from,
            limit: self.limit,
            search: opt_string_view(self.search),
            markets: opt_string_view(self.markets),
            index: opt_string_view(self.index),
        }
    }
}

/// Configuring a scan's screener: the columns (preset or defaults), debug
/// logging when asked, the window `[from, from + limit)`, the name search,
/// then the stock markets / indices (other assets refuse them).
pub open spec fn configure_spec(cat: FieldsCatalog, s: ScreenerState, args: ScanArgsV, debug: bool) -> Result<
    ScreenerState,
    CliErrV,
> {
    match scan_fields_spec(cat, args.asset, args.preset) {
        Err(x) => Err(x),
        Ok(fs) => {
            let s1 = if debug {
                ScreenerState { print_request: true, ..s }
            } else {
                s
            };
            let s2 = ScreenerState {
                selected: fs,
                select_all: false,
                range_from: args.from,
                range_to: sat_add(args.from, args.limit),
                ..s1
            };
            let s3 = match args.search {
                Some(q) => with_filter(
                    s2,
                    FilterV {
                        left: extra_str(ExtraFilter::Search),
                        operation: FilterOperator::Match,
                        values: seq![JsonV::Str(q)],
                    },
                ),
                None => s2,
            };
            if args.asset == Asset::Stock {
                stock_extras_spec(cat, s3, args.markets, args.index)
            } else if args.markets.is_some() || args.index.is_some() {
                Err(CliErrV::Usage("--markets / --index only apply to stock"@))
            } else {
                Ok(s3)
            }
        },
    }
}

/// A configured scan requests the window that starts at `from` and holds
/// `limit` rows: `range_from == from` and `range_to == from + limit`, or the
/// largest `u32` when that sum does not fit (so the window holds exactly
/// `limit` rows whenever the sum fits).
pub proof fn lemma_scan_window(cat: FieldsCatalog, s: ScreenerState, args: ScanArgsV, debug: bool)
    ensures
        configure_spec(cat, s, args, debug) matches Ok(t) ==> (
            t.range_from == args.from
            && (args.from + args.limit <= u32::MAX ==> t.range_to == args.from + args.limit
                && t.range_to - t.range_from == args.limit)
            && (args.from + args.limit > u32::MAX ==> t.range_to == u32::MAX)
        ),
{
}

/// The view of an optional `String` as a string slice.
fn opt_str(o: &Option<String>) -> (r: Option<&str>)
    ensures
        opt_view(r) == opt_string_view(*o),
{
    match o {
        Some(s) => Some(s.as_str()),
        None => None,
    }
}

/// Configures a scan's screener from its arguments (`debug` forces request logging).
///
/// On failure the screener may hold part of the configuration.
pub fn configure_inner(cat: &FieldsCatalog, inner: &mut Screener, args: &ScanArgs, debug: bool) -> (r:
    Result<(), CliError>)
    ensures
        match configure_spec(*cat, old(inner)@, args.view_args(), debug) {
            Ok(s) => r is Ok && final(inner)@ == s,
            Err(x) => r matches Err(e) && cli_err_is(e, x),
        },
{
    let fields = match resolve_fields(cat, args.asset, opt_str(&args.preset)) {
        Ok(f) => f,
        Err(e) => {
            return Err(e);
        },
    };
    if debug {
        inner.set_debug(true);
    }
    let to = args.from.saturating_add(args.limit);
    inner.select(fields);
    inner.set_range(args.from, to);
    match &args.search {
        Some(q) => match inner.search(q.clone()) {
            Ok(_) => {},
            Err(e) => {
                return Err(CliError::Library(e));
            },
        },
        None => {},
    }
    if args.asset == Asset::Stock {
        apply_stock_extras(cat, inner, opt_str(&args.markets), opt_str(&args.index))
    } else if args.markets.is_some() || args.index.is_some() {
        Err(CliError::Usage(own("--markets / --index only apply to stock")))
    } else {
        Ok(())
    }
}

/// The payload a scan would send, without sending it: `inner` (the asset's
/// screener) configured from the arguments, then its payload.
pub fn build_payload_only(cat: &FieldsCatalog, inner: &mut Screener, args: &ScanArgs, debug: bool) -> (r:
    Result<JsonValue, CliError>)
    ensures
        match configure_spec(*cat, old(inner)@, args.view_args(), debug) {
            Err(x) => r matches Err(e) && cli_err_is(e, x),
            Ok(s) => if s.selected.len() == 0 {
                r matches Err(e) && cli_err_is(
                    e,
                    CliErrV::Library("no fields selected; call select() or select_all()"@),
                )
            } else {
                r matches Ok(p) && p@ == payload_spec(s, columns_spec(s.selected))
            },
        },
{
    match configure_inner(cat, inner, args, debug) {
        Ok(()) => {},
        Err(e) => {
            return Err(e);
        },
    }
    match inner.build_payload() {
        Ok(p) => Ok(p),
        Err(e) => Err(CliError::Library(e)),
    }
}

} // verus!
