//! Argument parsing shared by the CLI and the MCP tools: comma-separated
//! lists, asset and operator names, and market / index / sector tokens
//! resolved against the catalog.
use vstd::prelude::*;
use crate::error::TvscreenerError;
use crate::field::{
    asset_parse, find_keyed, find_ref, first_keyed, has_keyed, lemma_first_keyed, named_wire_spec,
    resolve_sector, Asset, FieldsCatalog, IndexSymbolDef, Keyed, Market,
};
use crate::filter::{op_holds, op_str, FilterOperator};
use crate::screener::{index_symbols_spec, str_views, wires_spec, Screener, ScreenerState};
use crate::text::{
    cat3, chars_of, const_form, eq_ignore_case, lower_seq, own, split_char, split_seq, starts_with,
    str_eq, string_of_range, to_const_form, trim, trim_seq,
};

verus! {

/// The trimmed, non-empty pieces of a list of raw pieces, in order.
pub open spec fn trimmed_nonempty(ps: Seq<Seq<char>>) -> Seq<Seq<char>>
    decreases ps.len(),
{
    if ps.len() == 0 {
        Seq::empty()
    } else {
        let p = trimmed_nonempty(ps.drop_last());
        let t = trim_seq(ps.last());
        if t.len() > 0 {
            p.push(t)
        } else {
            p
        }
    }
}

/// A comma-separated list: split on `,`, trim each piece, drop empty pieces.
pub open spec fn csv_spec(raw: Option<Seq<char>>) -> Seq<Seq<char>> {
    match raw {
        Some(s) => trimmed_nonempty(split_seq(s, ',')),
        None => Seq::empty(),
    }
}

/// The view of an optional string slice.
pub open spec fn opt_view(raw: Option<&str>) -> Option<Seq<char>> {
    match raw {
        Some(s) => Some(s@),
        None => None,
    }
}

/// Splits an optional comma-separated list into trimmed, non-empty items.
pub fn parse_csv(raw: Option<&str>) -> (r: Vec<String>)
    ensures
        str_views(r@) == csv_spec(opt_view(raw)),
{
    let mut out: Vec<String> = Vec::new();
    let s = match raw {
        Some(s) => s,
        None => {
            assert(str_views(out@) =~= Seq::<Seq<char>>::empty());
            return out;
        },
    };
    let pieces = split_char(s, ',');
    let ghost ps = split_seq(s@, ',');
    assert(str_views(pieces@) =~= ps);
    let mut i: usize = 0;
    assert(str_views(out@) =~= trimmed_nonempty(ps.take(0)));
    while i < pieces.len()
        invariant
            ps == split_seq(s@, ','),
            str_views(pieces@) == ps,
            i <= pieces.len(),
            str_views(out@) == trimmed_nonempty(ps.take(i as int)),
        decreases pieces.len() - i,
    {
        let t = trim(pieces[i].as_str());
        let ghost prev = out@;
        assert(ps.take(i + 1).drop_last() =~= ps.take(i as int));
        assert(ps.take(i + 1).last() == pieces@[i as int]@);
        if !t.as_str().is_empty() {
            out.push(t);
            assert(str_views(out@) =~= str_views(prev).push(trim_seq(pieces@[i as int]@)));
        }
        i = i + 1;
    }
    assert(ps.take(pieces@.len() as int) =~= ps);
    out
}

/// The asset a `asset_type` argument names.
pub fn parse_asset(asset_type: &str) -> (r: Result<Asset, TvscreenerError>)
    ensures
        match asset_parse(asset_type@) {
            Some(a) => r == Ok::<Asset, TvscreenerError>(a),
            None => r matches Err(TvscreenerError::InvalidRequest(m)) && m@ == "unknown asset_type `"@
                + asset_type@ + "`"@,
        },
{
    match Asset::parse(asset_type) {
        Some(a) => Ok(a),
        None => Err(TvscreenerError::InvalidRequest(cat3("unknown asset_type `", asset_type, "`"))),
    }
}

/// The operator a filter `op` symbol names (`>=`, `>`, `<=`, `<`, `==`, `!=`,
/// `match`, `in_range`, `not_in_range`, `crosses`, `crosses_up`, `crosses_down`).
pub open spec fn filter_op_spec(s: Seq<char>) -> Option<FilterOperator> {
    if s == ">="@ {
        Some(FilterOperator::AboveOrEqual)
    } else if s == ">"@ {
        Some(FilterOperator::Above)
    } else if s == "<="@ {
        Some(FilterOperator::BelowOrEqual)
    } else if s == "<"@ {
        Some(FilterOperator::Below)
    } else if s == "=="@ {
        Some(FilterOperator::Equal)
    } else if s == "!="@ {
        Some(FilterOperator::NotEqual)
    } else if s == "match"@ {
        Some(FilterOperator::Match)
    } else if s == "in_range"@ {
        Some(FilterOperator::InRange)
    } else if s == "not_in_range"@ {
        Some(FilterOperator::NotInRange)
    } else if s == "crosses"@ {
        Some(FilterOperator::Crosses)
    } else if s == "crosses_up"@ {
        Some(FilterOperator::CrossesUp)
    } else if s == "crosses_down"@ {
        Some(FilterOperator::CrossesDown)
    } else {
        None
    }
}

/// Each comparison symbol parses to the operator that compares as the symbol
/// reads, for every value and bound: `<` strictly below, `<=` below or equal,
/// `>` strictly above, `>=` above or equal, `==` equal, `!=` different. The
/// word symbols parse to the operator of that wire name (`crosses_up` and
/// `crosses_down` to `crosses_above` and `crosses_below`).
pub proof fn lemma_op_symbols_mean_what_they_say(x: int, y: int)
    ensures
        filter_op_spec("<"@) matches Some(op) && op_holds(op, x, y) == Some(x < y),
        filter_op_spec("<="@) matches Some(op) && op_holds(op, x, y) == Some(x <= y),
        filter_op_spec(">"@) matches Some(op) && op_holds(op, x, y) == Some(x > y),
        filter_op_spec(">="@) matches Some(op) && op_holds(op, x, y) == Some(x >= y),
        filter_op_spec("=="@) matches Some(op) && op_holds(op, x, y) == Some(x == y),
        filter_op_spec("!="@) matches Some(op) && op_holds(op, x, y) == Some(x != y),
        filter_op_spec("match"@) matches Some(op) && op_str(op) == "match"@,
        filter_op_spec("in_range"@) matches Some(op) && op_str(op) == "in_range"@,
        filter_op_spec("not_in_range"@) matches Some(op) && op_str(op) == "not_in_range"@,
        filter_op_spec("crosses"@) matches Some(op) && op_str(op) == "crosses"@,
        filter_op_spec("crosses_up"@) matches Some(op) && op_str(op) == "crosses_above"@,
        filter_op_spec("crosses_down"@) matches Some(op) && op_str(op) == "crosses_below"@,
{
    reveal_strlit("<");
    reveal_strlit("<=");
    reveal_strlit(">");
    reveal_strlit(">=");
    reveal_strlit("==");
    reveal_strlit("!=");
    reveal_strlit("match");
    reveal_strlit("in_range");
    reveal_strlit("not_in_range");
    reveal_strlit("crosses");
    reveal_strlit("crosses_up");
    reveal_strlit("crosses_down");
    assert("<"@.len() != ">="@.len());
    assert("<"@[0] != ">"@[0]);
    assert("<"@.len() != "<="@.len());
    assert("<="@[0] != ">="@[0]);
    assert("<="@.len() != ">"@.len());
    assert(">"@.len() != ">="@.len());
    assert("!="@[0] != ">="@[0] && "!="@[0] != "<="@[0] && "!="@[0] != "=="@[0]);
    assert("!="@.len() != ">"@.len() && "!="@.len() != "<"@.len());
    assert("crosses_up"@.len() != "crosses"@.len());
    assert("crosses_up"@[0] != "match"@[0] && "crosses_up"@[0] != "in_range"@[0]);
    assert("crosses_up"@[0] != "not_in_range"@[0]);
}

/// Parses a filter `op` symbol.
pub fn parse_filter_op(op: &str) -> (r: Option<FilterOperator>)
    ensures
        r == filter_op_spec(op@),
{
    if str_eq(op, ">=") {
        Some(FilterOperator::AboveOrEqual)
    } else if str_eq(op, ">") {
        Some(FilterOperator::Above)
    } else if str_eq(op, "<=") {
        Some(FilterOperator::BelowOrEqual)
    } else if str_eq(op, "<") {
        Some(FilterOperator::Below)
    } else if str_eq(op, "==") {
        Some(FilterOperator::Equal)
    } else if str_eq(op, "!=") {
        Some(FilterOperator::NotEqual)
    } else if str_eq(op, "match") {
        Some(FilterOperator::Match)
    } else if str_eq(op, "in_range") {
        Some(FilterOperator::InRange)
    } else if str_eq(op, "not_in_range") {
        Some(FilterOperator::NotInRange)
    } else if str_eq(op, "crosses") {
        Some(FilterOperator::Crosses)
    } else if str_eq(op, "crosses_up") {
        Some(FilterOperator::CrossesUp)
    } else if str_eq(op, "crosses_down") {
        Some(FilterOperator::CrossesDown)
    } else {
        None
    }
}

/// Catalog items that carry a wire value beside their constant name.
pub trait Valued: Keyed {
    /// The wire value.
    spec fn value_of(&self) -> Seq<char>;

    /// The wire value, executable.
    fn value_str(&self) -> (r: &str)
        ensures
            r@ == self.value_of();
}

impl Valued for Market {
    open spec fn value_of(&self) -> Seq<char> {
        self.value@
    }

    fn value_str(&self) -> (r: &str) {
        self.value.as_str()
    }
}

impl Valued for IndexSymbolDef {
    open spec fn value_of(&self) -> Seq<char> {
        self.value@
    }

    fn value_str(&self) -> (r: &str) {
        self.value.as_str()
    }
}

/// `i` is the first item whose wire value equals `t` ignoring ASCII case.
pub open spec fn first_value_eq<T: Valued>(items: Seq<T>, t: Seq<char>, i: int) -> bool {
    &&& 0 <= i < items.len()
    &&& lower_seq(items[i].value_of()) == lower_seq(t)
    &&& forall|j: int| 0 <= j < i ==> lower_seq(items[j].value_of()) != lower_seq(t)
}

/// What a token resolves to: the value of the item whose constant name is the
/// token's constant form, else the first wire value equal to the token
/// ignoring ASCII case.
pub open spec fn wire_spec<T: Valued>(items: Seq<T>, t: Seq<char>) -> Option<Seq<char>> {
    match find_keyed(items, const_form(t)) {
        Some(x) => Some(x.value_of()),
        None => if exists|i: int| first_value_eq(items, t, i) {
            Some(items[choose|i: int| first_value_eq(items, t, i)].value_of())
        } else {
            None
        },
    }
}

/// Resolves a token against items with wire values.
fn resolve_wire<T: Valued>(items: &Vec<T>, token: &str) -> (r: Option<String>)
    ensures
        match wire_spec(items@, token@) {
            Some(v) => r matches Some(s) && s@ == v,
            None => r.is_none(),
        },
{
    let upper = to_const_form(token);
    match find_ref(items, upper.as_str()) {
        Some(x) => {
            return Some(own(x.value_str()));
        },
        None => {},
    }
    let mut i: usize = 0;
    while i < items.len()
        invariant
            i <= items.len(),
            upper@ == const_form(token@),
            find_keyed(items@, upper@).is_none(),
            forall|j: int| 0 <= j < i ==> lower_seq(items@[j].value_of()) != lower_seq(token@),
        decreases items.len() - i,
    {
        if eq_ignore_case(items[i].value_str(), token) {
            proof {
                assert(first_value_eq(items@, token@, i as int));
                let c = choose|c: int| first_value_eq(items@, token@, c);
                if c < i {
                    assert(lower_seq(items@[c].value_of()) != lower_seq(token@));
                } else if i < c {
                    assert(lower_seq(items@[i as int].value_of()) != lower_seq(token@));
                }
            }
            return Some(own(items[i].value_str()));
        }
        i = i + 1;
    }
    None
}

/// A token with a leading `SYML:` removed.
pub open spec fn strip_syml_spec(t: Seq<char>) -> Seq<char> {
    if "SYML:"@.is_prefix_of(t) {
        t.skip(5)
    } else {
        t
    }
}

/// Removes a leading `SYML:` from a token.
fn strip_syml(token: &str) -> (r: String)
    ensures
        r@ == strip_syml_spec(token@),
{
    proof {
        reveal_strlit("SYML:");
    }
    if starts_with(token, "SYML:") {
        let v = chars_of(token);
        let r = string_of_range(&v, 5, v.len());
        assert(r@ =~= token@.skip(5));
        r
    } else {
        own(token)
    }
}

/// The kinds of catalog tokens the tools accept.
#[derive(Clone, Copy, PartialEq, Eq, Structural)]
pub enum TokenKind {
    /// A stock market (`AMERICA` or `america`).
    Market,
    /// A stock index (`SP500`, `SP;SPX` or `SYML:SP;SPX`); resolves to the catalog symbol.
    Index,
    /// A stock sector (`TECHNOLOGY_SERVICES` or `Technology Services`).
    Sector,
}

/// What one token of a kind resolves to.
pub open spec fn token_spec(cat: FieldsCatalog, kind: TokenKind, t: Seq<char>) -> Option<Seq<char>> {
    match kind {
        TokenKind::Market => wire_spec(cat.markets@, t),
        TokenKind::Index => wire_spec(cat.index_symbols@, strip_syml_spec(t)),
        TokenKind::Sector => named_wire_spec(cat.sectors@, t),
    }
}

/// Resolving tokens in order: all resolved values, or the first token that
/// resolves to nothing.
pub open spec fn resolve_all(cat: FieldsCatalog, kind: TokenKind, ts: Seq<Seq<char>>) -> Result<
    Seq<Seq<char>>,
    Seq<char>,
>
    decreases ts.len(),
{
    if ts.len() == 0 {
        Ok(Seq::empty())
    } else {
        match resolve_all(cat, kind, ts.drop_last()) {
            Err(t) => Err(t),
            Ok(vs) => match token_spec(cat, kind, ts.last()) {
                Some(v) => Ok(vs.push(v)),
                None => Err(ts.last()),
            },
        }
    }
}

/// Resolves one token of a kind.
fn resolve_token(cat: &FieldsCatalog, kind: TokenKind, token: &str) -> (r: Option<String>)
    ensures
        match token_spec(*cat, kind, token@) {
            Some(v) => r matches Some(s) && s@ == v,
            None => r.is_none(),
        },
{
    match kind {
        TokenKind::Market => resolve_wire(&cat.markets, token),
        TokenKind::Index => {
            let stripped = strip_syml(token);
            resolve_wire(&cat.index_symbols, stripped.as_str())
        },
        TokenKind::Sector => match resolve_sector(cat, token) {
            Some(v) => Some(own(v)),
            None => None,
        },
    }
}

/// Resolves tokens in order; `Err` carries the first token that resolves to nothing.
pub fn resolve_tokens(cat: &FieldsCatalog, kind: TokenKind, tokens: &Vec<String>) -> (r: Result<
    Vec<String>,
    String,
>)
    ensures
        match resolve_all(*cat, kind, str_views(tokens@)) {
            Ok(vs) => r matches Ok(v) && str_views(v@) == vs,
            Err(t) => r matches Err(e) && e@ == t,
        },
{
    let ghost ts = str_views(tokens@);
    let mut out: Vec<String> = Vec::new();
    let mut i: usize = 0;
    assert(ts.take(0) =~= Seq::<Seq<char>>::empty());
    assert(str_views(out@) =~= Seq::<Seq<char>>::empty());
    while i < tokens.len()
        invariant
            ts == str_views(tokens@),
            i <= tokens.len(),
            resolve_all(*cat, kind, ts.take(i as int)) == Ok::<Seq<Seq<char>>, Seq<char>>(
                str_views(out@),
            ),
        decreases tokens.len() - i,
    {
        assert(ts.take(i + 1).drop_last() =~= ts.take(i as int));
        assert(ts.take(i + 1).last() == tokens@[i as int]@);
        match resolve_token(cat, kind, tokens[i].as_str()) {
            Some(v) => {
                let ghost prev = out@;
                out.push(v);
                assert(str_views(out@) =~= str_views(prev).push(out@.last()@));
            },
            None => {
                proof {
                    lemma_resolve_all_err_extends(*cat, kind, ts, i as int + 1);
                }
                return Err(tokens[i].clone());
            },
        }
        i = i + 1;
    }
    assert(ts.take(tokens@.len() as int) =~= ts);
    Ok(out)
}

/// Once a prefix fails to resolve, every longer prefix fails with the same token.
proof fn lemma_resolve_all_err_extends(cat: FieldsCatalog, kind: TokenKind, ts: Seq<Seq<char>>, n: int)
    requires
        0 <= n <= ts.len(),
        resolve_all(cat, kind, ts.take(n)) is Err,
    ensures
        resolve_all(cat, kind, ts) == resolve_all(cat, kind, ts.take(n)),
    decreases ts.len() - n,
{
    if n < ts.len() {
        assert(ts.take(n + 1).drop_last() =~= ts.take(n));
        lemma_resolve_all_err_extends(cat, kind, ts, n + 1);
    } else {
        assert(ts.take(n) =~= ts);
    }
}

/// The message for an unknown token of a kind.
pub open spec fn unknown_token_msg(kind: TokenKind, t: Seq<char>) -> Seq<char> {
    match kind {
        TokenKind::Market => "unknown market `"@ + t + "`"@,
        TokenKind::Index => "unknown index `"@ + t + "`"@,
        TokenKind::Sector => "unknown sector `"@ + t + "`"@,
    }
}

/// Resolves a comma-separated token list of a kind.
fn resolve_csv(cat: &FieldsCatalog, kind: TokenKind, csv: Option<&str>) -> (r: Result<
    Vec<String>,
    TvscreenerError,
>)
    ensures
        match resolve_all(*cat, kind, csv_spec(opt_view(csv))) {
            Ok(vs) => r matches Ok(v) && str_views(v@) == vs,
            Err(t) => r matches Err(TvscreenerError::InvalidRequest(m)) && m@ == unknown_token_msg(
                kind,
                t,
            ),
        },
{
    let tokens = parse_csv(csv);
    match resolve_tokens(cat, kind, &tokens) {
        Ok(v) => Ok(v),
        Err(t) => {
            let prefix = match kind {
                TokenKind::Market => "unknown market `",
                TokenKind::Index => "unknown index `",
                TokenKind::Sector => "unknown sector `",
            };
            Err(TvscreenerError::InvalidRequest(cat3(prefix, t.as_str(), "`")))
        },
    }
}

/// Resolves a markets CSV (constant names or wire values) to wire values.
pub fn resolve_market_wires(cat: &FieldsCatalog, markets: Option<&str>) -> (r: Result<
    Vec<String>,
    TvscreenerError,
>)
    ensures
        match resolve_all(*cat, TokenKind::Market, csv_spec(opt_view(markets))) {
            Ok(vs) => r matches Ok(v) && str_views(v@) == vs,
            Err(t) => r matches Err(TvscreenerError::InvalidRequest(m)) && m@ == unknown_token_msg(
                TokenKind::Market,
                t,
            ),
        },
{
    resolve_csv(cat, TokenKind::Market, markets)
}

/// Resolves an indices CSV (`SP500`, `SP;SPX` or `SYML:SP;SPX`) to catalog symbols.
pub fn resolve_index_wires(cat: &FieldsCatalog, indices: Option<&str>) -> (r: Result<
    Vec<String>,
    TvscreenerError,
>)
    ensures
        match resolve_all(*cat, TokenKind::Index, csv_spec(opt_view(indices))) {
            Ok(vs) => r matches Ok(v) && str_views(v@) == vs,
            Err(t) => r matches Err(TvscreenerError::InvalidRequest(m)) && m@ == unknown_token_msg(
                TokenKind::Index,
                t,
            ),
        },
{
    resolve_csv(cat, TokenKind::Index, indices)
}

/// Resolves a sectors CSV (constant names or wire values) to wire values.
pub fn resolve_sector_wires(cat: &FieldsCatalog, sectors: Option<&str>) -> (r: Result<
    Vec<String>,
    TvscreenerError,
>)
    ensures
        match resolve_all(*cat, TokenKind::Sector, csv_spec(opt_view(sectors))) {
            Ok(vs) => r matches Ok(v) && str_views(v@) == vs,
            Err(t) => r matches Err(TvscreenerError::InvalidRequest(m)) && m@ == unknown_token_msg(
                TokenKind::Sector,
                t,
            ),
        },
{
    resolve_csv(cat, TokenKind::Sector, sectors)
}

/// The state after setting markets, when there are any.
pub open spec fn markets_applied(s: ScreenerState, ms: Seq<Seq<char>>) -> ScreenerState {
    if ms.len() > 0 {
        ScreenerState { markets: Some(ms), ..s }
    } else {
        s
    }
}

/// The state after setting index symbols, when there are any.
pub open spec fn index_applied(s: ScreenerState, symbols: Seq<Seq<char>>) -> ScreenerState {
    if symbols.len() > 0 {
        ScreenerState { symbols: Some(index_symbols_spec(s.symbols, wires_spec(symbols))), ..s }
    } else {
        s
    }
}

/// Applies stock markets and indices CSVs: markets first, then indices.
///
/// An unknown market leaves the screener unchanged; an unknown index leaves
/// the markets applied.
pub fn apply_stock_index_markets(
    cat: &FieldsCatalog,
    screener: &mut Screener,
    indices: Option<&str>,
    markets: Option<&str>,
) -> (r: Result<(), TvscreenerError>)
    ensures
        match resolve_all(*cat, TokenKind::Market, csv_spec(opt_view(markets))) {
            Err(t) => r matches Err(TvscreenerError::InvalidRequest(m)) && m@ == unknown_token_msg(
                TokenKind::Market,
                t,
            ) && final(screener)@ == old(screener)@,
            Ok(ms) => {
                let s1 = markets_applied(old(screener)@, ms);
                match resolve_all(*cat, TokenKind::Index, csv_spec(opt_view(indices))) {
                    Err(t) => r matches Err(TvscreenerError::InvalidRequest(m)) && m@
                        == unknown_token_msg(TokenKind::Index, t) && final(screener)@ == s1,
                    Ok(is) => r is Ok && final(screener)@ == index_applied(s1, is),
                }
            },
        },
{
    let ms = match resolve_market_wires(cat, markets) {
        Ok(v) => v,
        Err(e) => {
            return Err(e);
        },
    };
    if ms.len() > 0 {
        screener.set_markets(ms);
    }
    let is = match resolve_index_wires(cat, indices) {
        Ok(v) => v,
        Err(e) => {
            return Err(e);
        },
    };
    if is.len() > 0 {
        screener.set_index(is);
    }
    Ok(())
}

/// The items of a comma-separated list are trimmed and never empty.
pub proof fn lemma_csv_items_trimmed(raw: Option<Seq<char>>)
    ensures
        forall|i: int|
            0 <= i < csv_spec(raw).len() ==> (#[trigger] csv_spec(raw)[i]).len() > 0
                && trim_seq(csv_spec(raw)[i]) == csv_spec(raw)[i],
{
    match raw {
        Some(s) => lemma_trimmed_nonempty_items(split_seq(s, ',')),
        None => {},
    }
}

/// Trimmed, non-empty pieces stay so.
proof fn lemma_trimmed_nonempty_items(ps: Seq<Seq<char>>)
    ensures
        forall|i: int|
            0 <= i < trimmed_nonempty(ps).len() ==> (#[trigger] trimmed_nonempty(ps)[i]).len() > 0
                && trim_seq(trimmed_nonempty(ps)[i]) == trimmed_nonempty(ps)[i],
    decreases ps.len(),
{
    if ps.len() > 0 {
        lemma_trimmed_nonempty_items(ps.drop_last());
        crate::text::lemma_trim_idempotent(ps.last());
        let p = trimmed_nonempty(ps.drop_last());
        let r = trimmed_nonempty(ps);
        assert forall|i: int| 0 <= i < r.len() implies (#[trigger] r[i]).len() > 0 && trim_seq(r[i]) == r[i] by {
            if i < p.len() {
                assert(r[i] == p[i]);
            }
        }
    }
}

} // verus!
