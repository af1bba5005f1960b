//! Typed screeners: a [`Screener`] preset with an asset class's subtype,
//! default columns, default sort and misc payload keys.
use vstd::prelude::*;
use crate::error::TvscreenerError;
use crate::field::{
    Asset, FieldDef, FieldsCatalog, Market, bond_defaults_spec, default_stock_fields, find_keyed,
    has_keyed, stock_market_capitalization, bond_volume, coin_market_cap,
    crypto_volume_24h_in_usd, default_bond_fields, default_coin_fields, default_crypto_fields,
    default_forex_fields, default_futures_fields, forex_name, futures_volume,
};
use crate::filter::{ExtraFilter, FieldCondition, FilterOperator, FilterV, extra_str};
use crate::json::{JsonV, JsonValue, entries_view, insert_key, jvs, lemma_array_view, lemma_object_view};
use crate::screener::{Screener, ScreenerState, clone_fields, rejects, str_views, with_filter};
use crate::text::own;
use crate::util::{get_url, url_spec};

verus! {

/// The misc value `{"to_symbol": false}`.
pub open spec fn price_conversion_spec() -> JsonV {
    JsonV::Object(seq![("to_symbol"@, JsonV::Bool(false))])
}

/// The misc value `{"query": {"types": ["forex"]}}`.
pub open spec fn forex_symbols_spec() -> JsonV {
    JsonV::Object(
        seq![("query"@, JsonV::Object(seq![("types"@, JsonV::Array(seq![JsonV::Str("forex"@)]))]))],
    )
}

fn price_conversion_value() -> (r: JsonValue)
    ensures
        r@ == price_conversion_spec(),
{
    let mut o: Vec<(String, JsonValue)> = Vec::new();
    o.push((own("to_symbol"), JsonValue::Bool(false)));
    proof {
        lemma_object_view(o);
        assert(entries_view(o@) =~= seq![("to_symbol"@, JsonV::Bool(false))]);
    }
    JsonValue::Object(o)
}

fn forex_symbols_value() -> (r: JsonValue)
    ensures
        r@ == forex_symbols_spec(),
{
    let mut types: Vec<JsonValue> = Vec::new();
    types.push(JsonValue::Str(own("forex")));
    proof {
        lemma_array_view(types);
        assert(jvs(types@) =~= seq![JsonV::Str("forex"@)]);
    }
    let ghost tv = JsonValue::Array(types)@;
    let mut q: Vec<(String, JsonValue)> = Vec::new();
    q.push((own("types"), JsonValue::Array(types)));
    proof {
        lemma_object_view(q);
        assert(entries_view(q@) =~= seq![("types"@, tv)]);
    }
    let ghost qv = JsonValue::Object(q)@;
    let mut o: Vec<(String, JsonValue)> = Vec::new();
    o.push((own("query"), JsonValue::Object(q)));
    proof {
        lemma_object_view(o);
        assert(entries_view(o@) =~= seq![("query"@, qv)]);
    }
    JsonValue::Object(o)
}

/// Bond screener with asset-class defaults (subtype `bond`): the default bond fields (or the `bond_basic` preset), sorted by volume, descending.
#[derive(Debug)]
pub struct BondScreener {
    inner: Screener,
}

impl View for BondScreener {
    type V = ScreenerState;

    closed spec fn view(&self) -> ScreenerState {
        self.inner@
    }
}

impl BondScreener {
    /// Creates the screener from the catalog's bond defaults.
    pub fn new(cat: &FieldsCatalog) -> (r: BondScreener)
        requires
            cat.field_spec(Asset::Bond, "VOLUME"@).is_some(),
        ensures
            r@.subtype == "bond"@,
            r@.url == Some(url_spec("bond"@)),
            r@.all_fields == Some(bond_defaults_spec(*cat)),
            r@.selected == bond_defaults_spec(*cat),
            !r@.select_all,
            r@.sort_by == Some((cat.field_spec(Asset::Bond, "VOLUME"@).unwrap().field_name@, false)),
            r@.misc.len() == 0,
            r@.filters.len() == 0,
            r@.options == seq![("lang"@, JsonV::Str("en"@))],
            r@.symbols.is_none(),
            r@.markets.is_none(),
            r@.range_from == 0,
            r@.range_to == 150,
            !r@.validate,
    {
        let mut inner = Screener::new(own("bond"));
        inner.set_url(get_url("bond"));
        let defaults = default_bond_fields(cat);
        inner.set_all_fields_fn(clone_fields(&defaults));
        inner.select(defaults);
        let sort_field = bond_volume(cat);
        inner.sort_by(sort_field.field_name, false);

        BondScreener { inner }
    }

    /// Immutable access to the shared builder.
    pub fn inner(&self) -> (r: &Screener)
        ensures
            r@ == self@,
    {
        &self.inner
    }

    /// Mutable access for advanced configuration.
    pub fn inner_mut(&mut self) -> (r: &mut Screener)
        ensures
            r@ == old(self)@,
            final(self)@ == final(r)@,
    {
        &mut self.inner
    }

    /// Replaces the selected columns.
    pub fn select(&mut self, fields: Vec<FieldDef>) -> (r: &mut Self)
        ensures
            r@ == (ScreenerState { selected: fields@, select_all: false, ..old(self)@ }),
            final(self)@ == final(r)@,
    {
        self.inner.select(fields);
        self
    }

    /// Reloads the registered default columns.
    pub fn select_all(&mut self) -> (r: &mut Self)
        requires
            old(self)@.all_fields.is_some(),
        ensures
            r@ == (ScreenerState {
                selected: old(self)@.all_fields.unwrap(),
                select_all: true,
                ..old(self)@
            }),
            final(self)@ == final(r)@,
    {
        let _ = self.inner.select_all();
        self
    }

    /// Adds a name/description search filter.
    pub fn search(&mut self, value: String) -> (r: Result<&mut Self, TvscreenerError>)
        ensures
            r matches Ok(m) && m@ == with_filter(
                old(self)@,
                FilterV {
                    left: extra_str(ExtraFilter::Search),
                    operation: FilterOperator::Match,
                    values: seq![JsonV::Str(value@)],
                },
            ) && final(self)@ == final(m)@,
    {
        match self.inner.search(value) {
            Ok(_) => Ok(self),
            Err(e) => Err(e),
        }
    }

    /// Sets the result window.
    pub fn set_range(&mut self, from_range: u32, to_range: u32) -> (r: &mut Self)
        ensures
            r@ == (ScreenerState { range_from: from_range, range_to: to_range, ..old(self)@ }),
            final(self)@ == final(r)@,
    {
        self.inner.set_range(from_range, to_range);
        self
    }

    /// Adds a filter from a [`FieldCondition`].
    pub fn where_condition(&mut self, condition: FieldCondition) -> (r: Result<&mut Self, TvscreenerError>)
        ensures
            ({
                let f = FilterV {
                    left: condition.left@,
                    operation: condition.operation,
                    values: seq![condition.value@],
                };
                if rejects(old(self)@, condition.left@) {
                    r matches Err(TvscreenerError::InvalidFieldName(e)) && e@ == condition.left@
                        && final(self)@ == old(self)@
                } else {
                    r matches Ok(m) && m@ == with_filter(old(self)@, f) && final(self)@ == final(m)@
                }
            }),
    {
        match self.inner.where_condition(condition) {
            Ok(_) => Ok(self),
            Err(e) => Err(e),
        }
    }
}

/// Coin screener with asset-class defaults (subtype `coin`): the default coin fields sorted by market cap, descending, with `price_conversion = {"to_symbol": false}`.
#[derive(Debug)]
pub struct CoinScreener {
    inner: Screener,
}

impl View for CoinScreener {
    type V = ScreenerState;

    closed spec fn view(&self) -> ScreenerState {
        self.inner@
    }
}

impl CoinScreener {
    /// Creates the screener from the catalog's coin defaults.
    pub fn new(cat: &FieldsCatalog) -> (r: CoinScreener)
        requires
            cat.field_spec(Asset::Coin, "MARKET_CAP"@).is_some(),
        ensures
            r@.subtype == "coin"@,
            r@.url == Some(url_spec("coin"@)),
            r@.all_fields == Some(cat.defaults_spec(Asset::Coin)),
            r@.selected == cat.defaults_spec(Asset::Coin),
            !r@.select_all,
            r@.sort_by == Some((cat.field_spec(Asset::Coin, "MARKET_CAP"@).unwrap().field_name@, false)),
            r@.misc == seq![("price_conversion"@, price_conversion_spec())],
            r@.filters.len() == 0,
            r@.options == seq![("lang"@, JsonV::Str("en"@))],
            r@.symbols.is_none(),
            r@.markets.is_none(),
            r@.range_from == 0,
            r@.range_to == 150,
            !r@.validate,
    {
        let mut inner = Screener::new(own("coin"));
        inner.set_url(get_url("coin"));
        let defaults = default_coin_fields(cat);
        inner.set_all_fields_fn(clone_fields(&defaults));
        inner.select(defaults);
        let sort_field = coin_market_cap(cat);
        inner.sort_by(sort_field.field_name, false);
        inner.add_misc(own("price_conversion"), price_conversion_value());
        assert(insert_key(Seq::empty(), "price_conversion"@, price_conversion_spec()) =~= seq![("price_conversion"@, price_conversion_spec())]);
        CoinScreener { inner }
    }

    /// Immutable access to the shared builder.
    pub fn inner(&self) -> (r: &Screener)
        ensures
            r@ == self@,
    {
        &self.inner
    }

    /// Mutable access for advanced configuration.
    pub fn inner_mut(&mut self) -> (r: &mut Screener)
        ensures
            r@ == old(self)@,
            final(self)@ == final(r)@,
    {
        &mut self.inner
    }

    /// Replaces the selected columns.
    pub fn select(&mut self, fields: Vec<FieldDef>) -> (r: &mut Self)
        ensures
            r@ == (ScreenerState { selected: fields@, select_all: false, ..old(self)@ }),
            final(self)@ == final(r)@,
    {
        self.inner.select(fields);
        self
    }

    /// Reloads the registered default columns.
    pub fn select_all(&mut self) -> (r: &mut Self)
        requires
            old(self)@.all_fields.is_some(),
        ensures
            r@ == (ScreenerState {
                selected: old(self)@.all_fields.unwrap(),
                select_all: true,
                ..old(self)@
            }),
            final(self)@ == final(r)@,
    {
        let _ = self.inner.select_all();
        self
    }

    /// Adds a name/description search filter.
    pub fn search(&mut self, value: String) -> (r: Result<&mut Self, TvscreenerError>)
        ensures
            r matches Ok(m) && m@ == with_filter(
                old(self)@,
                FilterV {
                    left: extra_str(ExtraFilter::Search),
                    operation: FilterOperator::Match,
                    values: seq![JsonV::Str(value@)],
                },
            ) && final(self)@ == final(m)@,
    {
        match self.inner.search(value) {
            Ok(_) => Ok(self),
            Err(e) => Err(e),
        }
    }

    /// Sets the result window.
    pub fn set_range(&mut self, from_range: u32, to_range: u32) -> (r: &mut Self)
        ensures
            r@ == (ScreenerState { range_from: from_range, range_to: to_range, ..old(self)@ }),
            final(self)@ == final(r)@,
    {
        self.inner.set_range(from_range, to_range);
        self
    }

    /// Adds a filter from a [`FieldCondition`].
    pub fn where_condition(&mut self, condition: FieldCondition) -> (r: Result<&mut Self, TvscreenerError>)
        ensures
            ({
                let f = FilterV {
                    left: condition.left@,
                    operation: condition.operation,
                    values: seq![condition.value@],
                };
                if rejects(old(self)@, condition.left@) {
                    r matches Err(TvscreenerError::InvalidFieldName(e)) && e@ == condition.left@
                        && final(self)@ == old(self)@
                } else {
                    r matches Ok(m) && m@ == with_filter(old(self)@, f) && final(self)@ == final(m)@
                }
            }),
    {
        match self.inner.where_condition(condition) {
            Ok(_) => Ok(self),
            Err(e) => Err(e),
        }
    }
}

/// Crypto screener with asset-class defaults (subtype `crypto`): the default crypto fields sorted by 24h USD volume, descending, with `price_conversion = {"to_symbol": false}`.
#[derive(Debug)]
pub struct CryptoScreener {
    inner: Screener,
}

impl View for CryptoScreener {
    type V = ScreenerState;

    closed spec fn view(&self) -> ScreenerState {
        self.inner@
    }
}

impl CryptoScreener {
    /// Creates the screener from the catalog's crypto defaults.
    pub fn new(cat: &FieldsCatalog) -> (r: CryptoScreener)
        requires
            cat.field_spec(Asset::Crypto, "VOLUME_24H_IN_USD"@).is_some(),
        ensures
            r@.subtype == "crypto"@,
            r@.url == Some(url_spec("crypto"@)),
            r@.all_fields == Some(cat.defaults_spec(Asset::Crypto)),
            r@.selected == cat.defaults_spec(Asset::Crypto),
            !r@.select_all,
            r@.sort_by == Some((cat.field_spec(Asset::Crypto, "VOLUME_24H_IN_USD"@).unwrap().field_name@, false)),
            r@.misc == seq![("price_conversion"@, price_conversion_spec())],
            r@.filters.len() == 0,
            r@.options == seq![("lang"@, JsonV::Str("en"@))],
            r@.symbols.is_none(),
            r@.markets.is_none(),
            r@.range_from == 0,
            r@.range_to == 150,
            !r@.validate,
    {
        let mut inner = Screener::new(own("crypto"));
        inner.set_url(get_url("crypto"));
        let defaults = default_crypto_fields(cat);
        inner.set_all_fields_fn(clone_fields(&defaults));
        inner.select(defaults);
        let sort_field = crypto_volume_24h_in_usd(cat);
        inner.sort_by(sort_field.field_name, false);
        inner.add_misc(own("price_conversion"), price_conversion_value());
        assert(insert_key(Seq::empty(), "price_conversion"@, price_conversion_spec()) =~= seq![("price_conversion"@, price_conversion_spec())]);
        CryptoScreener { inner }
    }

    /// Immutable access to the shared builder.
    pub fn inner(&self) -> (r: &Screener)
        ensures
            r@ == self@,
    {
        &self.inner
    }

    /// Mutable access for advanced configuration.
    pub fn inner_mut(&mut self) -> (r: &mut Screener)
        ensures
            r@ == old(self)@,
            final(self)@ == final(r)@,
    {
        &mut self.inner
    }

    /// Replaces the selected columns.
    pub fn select(&mut self, fields: Vec<FieldDef>) -> (r: &mut Self)
        ensures
            r@ == (ScreenerState { selected: fields@, select_all: false, ..old(self)@ }),
            final(self)@ == final(r)@,
    {
        self.inner.select(fields);
        self
    }

    /// Reloads the registered default columns.
    pub fn select_all(&mut self) -> (r: &mut Self)
        requires
            old(self)@.all_fields.is_some(),
        ensures
            r@ == (ScreenerState {
                selected: old(self)@.all_fields.unwrap(),
                select_all: true,
                ..old(self)@
            }),
            final(self)@ == final(r)@,
    {
        let _ = self.inner.select_all();
        self
    }

    /// Adds a name/description search filter.
    pub fn search(&mut self, value: String) -> (r: Result<&mut Self, TvscreenerError>)
        ensures
            r matches Ok(m) && m@ == with_filter(
                old(self)@,
                FilterV {
                    left: extra_str(ExtraFilter::Search),
                    operation: FilterOperator::Match,
                    values: seq![JsonV::Str(value@)],
                },
            ) && final(self)@ == final(m)@,
    {
        match self.inner.search(value) {
            Ok(_) => Ok(self),
            Err(e) => Err(e),
        }
    }

    /// Sets the result window.
    pub fn set_range(&mut self, from_range: u32, to_range: u32) -> (r: &mut Self)
        ensures
            r@ == (ScreenerState { range_from: from_range, range_to: to_range, ..old(self)@ }),
            final(self)@ == final(r)@,
    {
        self.inner.set_range(from_range, to_range);
        self
    }

    /// Adds a filter from a [`FieldCondition`].
    pub fn where_condition(&mut self, condition: FieldCondition) -> (r: Result<&mut Self, TvscreenerError>)
        ensures
            ({
                let f = FilterV {
                    left: condition.left@,
                    operation: condition.operation,
                    values: seq![condition.value@],
                };
                if rejects(old(self)@, condition.left@) {
                    r matches Err(TvscreenerError::InvalidFieldName(e)) && e@ == condition.left@
                        && final(self)@ == old(self)@
                } else {
                    r matches Ok(m) && m@ == with_filter(old(self)@, f) && final(self)@ == final(m)@
                }
            }),
    {
        match self.inner.where_condition(condition) {
            Ok(_) => Ok(self),
            Err(e) => Err(e),
        }
    }
}

/// Forex screener with asset-class defaults (subtype `forex`): the default forex fields sorted by name, ascending, with `symbols = {"query": {"types": ["forex"]}}` among the misc keys.
#[derive(Debug)]
pub struct ForexScreener {
    inner: Screener,
}

impl View for ForexScreener {
    type V = ScreenerState;

    closed spec fn view(&self) -> ScreenerState {
        self.inner@
    }
}

impl ForexScreener {
    /// Creates the screener from the catalog's forex defaults.
    pub fn new(cat: &FieldsCatalog) -> (r: ForexScreener)
        requires
            cat.field_spec(Asset::Forex, "NAME"@).is_some(),
        ensures
            r@.subtype == "forex"@,
            r@.url == Some(url_spec("forex"@)),
            r@.all_fields == Some(cat.defaults_spec(Asset::Forex)),
            r@.selected == cat.defaults_spec(Asset::Forex),
            !r@.select_all,
            r@.sort_by == Some((cat.field_spec(Asset::Forex, "NAME"@).unwrap().field_name@, true)),
            r@.misc == seq![("symbols"@, forex_symbols_spec())],
            r@.filters.len() == 0,
            r@.options == seq![("lang"@, JsonV::Str("en"@))],
            r@.symbols.is_none(),
            r@.markets.is_none(),
            r@.range_from == 0,
            r@.range_to == 150,
            !r@.validate,
    {
        let mut inner = Screener::new(own("forex"));
        inner.set_url(get_url("forex"));
        let defaults = default_forex_fields(cat);
        inner.set_all_fields_fn(clone_fields(&defaults));
        inner.select(defaults);
        let sort_field = forex_name(cat);
        inner.sort_by(sort_field.field_name, true);
        inner.add_misc(own("symbols"), forex_symbols_value());
        assert(insert_key(Seq::empty(), "symbols"@, forex_symbols_spec()) =~= seq![("symbols"@, forex_symbols_spec())]);
        ForexScreener { inner }
    }

    /// Immutable access to the shared builder.
    pub fn inner(&self) -> (r: &Screener)
        ensures
            r@ == self@,
    {
        &self.inner
    }

    /// Mutable access for advanced configuration.
    pub fn inner_mut(&mut self) -> (r: &mut Screener)
        ensures
            r@ == old(self)@,
            final(self)@ == final(r)@,
    {
        &mut self.inner
    }

    /// Replaces the selected columns.
    pub fn select(&mut self, fields: Vec<FieldDef>) -> (r: &mut Self)
        ensures
            r@ == (ScreenerState { selected: fields@, select_all: false, ..old(self)@ }),
            final(self)@ == final(r)@,
    {
        self.inner.select(fields);
        self
    }

    /// Reloads the registered default columns.
    pub fn select_all(&mut self) -> (r: &mut Self)
        requires
            old(self)@.all_fields.is_some(),
        ensures
            r@ == (ScreenerState {
                selected: old(self)@.all_fields.unwrap(),
                select_all: true,
                ..old(self)@
            }),
            final(self)@ == final(r)@,
    {
        let _ = self.inner.select_all();
        self
    }

    /// Adds a name/description search filter.
    pub fn search(&mut self, value: String) -> (r: Result<&mut Self, TvscreenerError>)
        ensures
            r matches Ok(m) && m@ == with_filter(
                old(self)@,
                FilterV {
                    left: extra_str(ExtraFilter::Search),
                    operation: FilterOperator::Match,
                    values: seq![JsonV::Str(value@)],
                },
            ) && final(self)@ == final(m)@,
    {
        match self.inner.search(value) {
            Ok(_) => Ok(self),
            Err(e) => Err(e),
        }
    }

    /// Sets the result window.
    pub fn set_range(&mut self, from_range: u32, to_range: u32) -> (r: &mut Self)
        ensures
            r@ == (ScreenerState { range_from: from_range, range_to: to_range, ..old(self)@ }),
            final(self)@ == final(r)@,
    {
        self.inner.set_range(from_range, to_range);
        self
    }

    /// Adds a filter from a [`FieldCondition`].
    pub fn where_condition(&mut self, condition: FieldCondition) -> (r: Result<&mut Self, TvscreenerError>)
        ensures
            ({
                let f = FilterV {
                    left: condition.left@,
                    operation: condition.operation,
                    values: seq![condition.value@],
                };
                if rejects(old(self)@, condition.left@) {
                    r matches Err(TvscreenerError::InvalidFieldName(e)) && e@ == condition.left@
                        && final(self)@ == old(self)@
                } else {
                    r matches Ok(m) && m@ == with_filter(old(self)@, f) && final(self)@ == final(m)@
                }
            }),
    {
        match self.inner.where_condition(condition) {
            Ok(_) => Ok(self),
            Err(e) => Err(e),
        }
    }
}

/// Futures screener with asset-class defaults (subtype `futures`): the default futures fields sorted by volume, descending.
#[derive(Debug)]
pub struct FuturesScreener {
    inner: Screener,
}

impl View for FuturesScreener {
    type V = ScreenerState;

    closed spec fn view(&self) -> ScreenerState {
        self.inner@
    }
}

impl FuturesScreener {
    /// Creates the screener from the catalog's futures defaults.
    pub fn new(cat: &FieldsCatalog) -> (r: FuturesScreener)
        requires
            cat.field_spec(Asset::Futures, "VOLUME"@).is_some(),
        ensures
            r@.subtype == "futures"@,
            r@.url == Some(url_spec("futures"@)),
            r@.all_fields == Some(cat.defaults_spec(Asset::Futures)),
            r@.selected == cat.defaults_spec(Asset::Futures),
            !r@.select_all,
            r@.sort_by == Some((cat.field_spec(Asset::Futures, "VOLUME"@).unwrap().field_name@, false)),
            r@.misc.len() == 0,
            r@.filters.len() == 0,
            r@.options == seq![("lang"@, JsonV::Str("en"@))],
            r@.symbols.is_none(),
            r@.markets.is_none(),
            r@.range_from == 0,
            r@.range_to == 150,
            !r@.validate,
    {
        let mut inner = Screener::new(own("futures"));
        inner.set_url(get_url("futures"));
        let defaults = default_futures_fields(cat);
        inner.set_all_fields_fn(clone_fields(&defaults));
        inner.select(defaults);
        let sort_field = futures_volume(cat);
        inner.sort_by(sort_field.field_name, false);

        FuturesScreener { inner }
    }

    /// Immutable access to the shared builder.
    pub fn inner(&self) -> (r: &Screener)
        ensures
            r@ == self@,
    {
        &self.inner
    }

    /// Mutable access for advanced configuration.
    pub fn inner_mut(&mut self) -> (r: &mut Screener)
        ensures
            r@ == old(self)@,
            final(self)@ == final(r)@,
    {
        &mut self.inner
    }

    /// Replaces the selected columns.
    pub fn select(&mut self, fields: Vec<FieldDef>) -> (r: &mut Self)
        ensures
            r@ == (ScreenerState { selected: fields@, select_all: false, ..old(self)@ }),
            final(self)@ == final(r)@,
    {
        self.inner.select(fields);
        self
    }

    /// Reloads the registered default columns.
    pub fn select_all(&mut self) -> (r: &mut Self)
        requires
            old(self)@.all_fields.is_some(),
        ensures
            r@ == (ScreenerState {
                selected: old(self)@.all_fields.unwrap(),
                select_all: true,
                ..old(self)@
            }),
            final(self)@ == final(r)@,
    {
        let _ = self.inner.select_all();
        self
    }

    /// Adds a name/description search filter.
    pub fn search(&mut self, value: String) -> (r: Result<&mut Self, TvscreenerError>)
        ensures
            r matches Ok(m) && m@ == with_filter(
                old(self)@,
                FilterV {
                    left: extra_str(ExtraFilter::Search),
                    operation: FilterOperator::Match,
                    values: seq![JsonV::Str(value@)],
                },
            ) && final(self)@ == final(m)@,
    {
        match self.inner.search(value) {
            Ok(_) => Ok(self),
            Err(e) => Err(e),
        }
    }

    /// Sets the result window.
    pub fn set_range(&mut self, from_range: u32, to_range: u32) -> (r: &mut Self)
        ensures
            r@ == (ScreenerState { range_from: from_range, range_to: to_range, ..old(self)@ }),
            final(self)@ == final(r)@,
    {
        self.inner.set_range(from_range, to_range);
        self
    }

    /// Adds a filter from a [`FieldCondition`].
    pub fn where_condition(&mut self, condition: FieldCondition) -> (r: Result<&mut Self, TvscreenerError>)
        ensures
            ({
                let f = FilterV {
                    left: condition.left@,
                    operation: condition.operation,
                    values: seq![condition.value@],
                };
                if rejects(old(self)@, condition.left@) {
                    r matches Err(TvscreenerError::InvalidFieldName(e)) && e@ == condition.left@
                        && final(self)@ == old(self)@
                } else {
                    r matches Ok(m) && m@ == with_filter(old(self)@, f) && final(self)@ == final(m)@
                }
            }),
    {
        match self.inner.where_condition(condition) {
            Ok(_) => Ok(self),
            Err(e) => Err(e),
        }
    }
}

/// The wire values of some markets, in order.
pub open spec fn market_values(ms: Seq<Market>) -> Seq<Seq<char>> {
    ms.map_values(|m: Market| m.value@)
}

/// Stock screener (subtype `global`): the default stock fields, the `AMERICA`
/// market, sorted by market capitalization, descending.
#[derive(Debug)]
pub struct StockScreener {
    inner: Screener,
}

impl View for StockScreener {
    type V = ScreenerState;

    closed spec fn view(&self) -> ScreenerState {
        self.inner@
    }
}

impl StockScreener {
    /// Creates the screener from the catalog's stock defaults.
    pub fn new(cat: &FieldsCatalog) -> (r: StockScreener)
        requires
            cat.field_spec(Asset::Stock, "MARKET_CAPITALIZATION"@).is_some(),
            has_keyed(cat.markets@, "AMERICA"@),
        ensures
            r@.subtype == "global"@,
            r@.url == Some(url_spec("global"@)),
            r@.all_fields == Some(cat.defaults_spec(Asset::Stock)),
            r@.selected == cat.defaults_spec(Asset::Stock),
            !r@.select_all,
            r@.sort_by == Some(
                (cat.field_spec(Asset::Stock, "MARKET_CAPITALIZATION"@).unwrap().field_name@, false),
            ),
            r@.markets == Some(seq![find_keyed(cat.markets@, "AMERICA"@).unwrap().value@]),
            r@.misc.len() == 0,
            r@.filters.len() == 0,
            r@.options == seq![("lang"@, JsonV::Str("en"@))],
            r@.symbols.is_none(),
            r@.range_from == 0,
            r@.range_to == 150,
            !r@.validate,
    {
        let mut inner = Screener::new(own("global"));
        inner.set_url(get_url("global"));
        let defaults = default_stock_fields(cat);
        inner.set_all_fields_fn(clone_fields(&defaults));
        inner.select(defaults);
        let america = Market::america(cat);
        let mut markets: Vec<String> = Vec::new();
        markets.push(america.value);
        inner.set_markets(markets);
        let sort_field = stock_market_capitalization(cat);
        inner.sort_by(sort_field.field_name, false);
        StockScreener { inner }
    }

    /// Immutable access to the shared builder.
    pub fn inner(&self) -> (r: &Screener)
        ensures
            r@ == self@,
    {
        &self.inner
    }

    /// Mutable access for advanced configuration.
    pub fn inner_mut(&mut self) -> (r: &mut Screener)
        ensures
            r@ == old(self)@,
            final(self)@ == final(r)@,
    {
        &mut self.inner
    }

    /// Replaces the selected columns.
    pub fn select(&mut self, fields: Vec<FieldDef>) -> (r: &mut Self)
        ensures
            r@ == (ScreenerState { selected: fields@, select_all: false, ..old(self)@ }),
            final(self)@ == final(r)@,
    {
        self.inner.select(fields);
        self
    }

    /// Restricts the scan to these markets (their wire values, in order).
    pub fn set_markets(&mut self, markets: Vec<Market>) -> (r: &mut Self)
        ensures
            r@ == (ScreenerState { markets: Some(market_values(markets@)), ..old(self)@ }),
            final(self)@ == final(r)@,
    {
        let mut values: Vec<String> = Vec::new();
        let mut i: usize = 0;
        while i < markets.len()
            invariant
                i <= markets.len(),
                str_views(values@) == market_values(markets@).take(i as int),
            decreases markets.len() - i,
        {
            let ghost prev = values@;
            values.push(markets[i].value.clone());
            assert(str_views(values@) =~= str_views(prev).push(markets@[i as int].value@));
            i = i + 1;
            assert(str_views(values@) =~= market_values(markets@).take(i as int));
        }
        assert(market_values(markets@).take(markets@.len() as int) =~= market_values(markets@));
        self.inner.set_markets(values);
        self
    }

    /// Sets the row window `[from_range, to_range)`.
    pub fn set_range(&mut self, from_range: u32, to_range: u32) -> (r: &mut Self)
        ensures
            r@ == (ScreenerState { range_from: from_range, range_to: to_range, ..old(self)@ }),
            final(self)@ == final(r)@,
    {
        self.inner.set_range(from_range, to_range);
        self
    }

    /// Reloads the registered default columns.
    pub fn select_all(&mut self) -> (r: &mut Self)
        requires
            old(self)@.all_fields.is_some(),
        ensures
            r@ == (ScreenerState {
                selected: old(self)@.all_fields.unwrap(),
                select_all: true,
                ..old(self)@
            }),
            final(self)@ == final(r)@,
    {
        let _ = self.inner.select_all();
        self
    }

    /// Adds a name/description search filter.
    pub fn search(&mut self, value: String) -> (r: Result<&mut Self, TvscreenerError>)
        ensures
            r matches Ok(m) && m@ == with_filter(
                old(self)@,
                FilterV {
                    left: extra_str(ExtraFilter::Search),
                    operation: FilterOperator::Match,
                    values: seq![JsonV::Str(value@)],
                },
            ) && final(self)@ == final(m)@,
    {
        match self.inner.search(value) {
            Ok(_) => Ok(self),
            Err(e) => Err(e),
        }
    }

    /// Adds a filter from a [`FieldCondition`].
    pub fn where_condition(&mut self, condition: FieldCondition) -> (r: Result<&mut Self, TvscreenerError>)
        ensures
            ({
                let f = FilterV {
                    left: condition.left@,
                    operation: condition.operation,
                    values: seq![condition.value@],
                };
                if rejects(old(self)@, condition.left@) {
                    r matches Err(TvscreenerError::InvalidFieldName(e)) && e@ == condition.left@
                        && final(self)@ == old(self)@
                } else {
                    r matches Ok(m) && m@ == with_filter(old(self)@, f) && final(self)@ == final(m)@
                }
            }),
    {
        match self.inner.where_condition(condition) {
            Ok(_) => Ok(self),
            Err(e) => Err(e),
        }
    }
}


/// The catalog field a typed screener sorts by.
pub open spec fn sort_key_of(a: Asset) -> Seq<char> {
    match a {
        Asset::Stock => "MARKET_CAPITALIZATION"@,
        Asset::Crypto => "VOLUME_24H_IN_USD"@,
        Asset::Forex => "NAME"@,
        Asset::Bond => "VOLUME"@,
        Asset::Futures => "VOLUME"@,
        Asset::Coin => "MARKET_CAP"@,
    }
}

/// Whether the catalog holds what the asset's typed screener needs: its sort
/// field, and for stocks the `AMERICA` market.
pub open spec fn asset_ready(cat: FieldsCatalog, a: Asset) -> bool {
    &&& cat.field_spec(a, sort_key_of(a)).is_some()
    &&& a == Asset::Stock ==> has_keyed(cat.markets@, "AMERICA"@)
}

/// The scanner subtype of an asset's typed screener.
pub open spec fn subtype_of(a: Asset) -> Seq<char> {
    if a == Asset::Stock {
        "global"@
    } else {
        crate::field::asset_str(a)
    }
}

/// The columns an asset's typed screener starts with.
pub open spec fn start_fields(cat: FieldsCatalog, a: Asset) -> Seq<FieldDef> {
    if a == Asset::Bond {
        bond_defaults_spec(cat)
    } else {
        cat.defaults_spec(a)
    }
}

/// The misc payload keys an asset's typed screener starts with.
pub open spec fn start_misc(a: Asset) -> Seq<(Seq<char>, JsonV)> {
    match a {
        Asset::Crypto => seq![("price_conversion"@, price_conversion_spec())],
        Asset::Coin => seq![("price_conversion"@, price_conversion_spec())],
        Asset::Forex => seq![("symbols"@, forex_symbols_spec())],
        _ => Seq::empty(),
    }
}

/// The markets an asset's typed screener starts with.
pub open spec fn start_markets(cat: FieldsCatalog, a: Asset) -> Option<Seq<Seq<char>>> {
    if a == Asset::Stock {
        Some(seq![find_keyed(cat.markets@, "AMERICA"@).unwrap().value@])
    } else {
        None
    }
}

/// The typed screener of an asset class.
#[derive(Debug)]
pub enum AssetScreener {
    /// Stocks (`global`).
    Stock(StockScreener),
    /// Crypto.
    Crypto(CryptoScreener),
    /// Forex.
    Forex(ForexScreener),
    /// Bonds.
    Bond(BondScreener),
    /// Futures.
    Futures(FuturesScreener),
    /// Coins.
    Coin(CoinScreener),
}

impl View for AssetScreener {
    type V = ScreenerState;

    open spec fn view(&self) -> ScreenerState {
        match self {
            AssetScreener::Stock(s) => s@,
            AssetScreener::Crypto(s) => s@,
            AssetScreener::Forex(s) => s@,
            AssetScreener::Bond(s) => s@,
            AssetScreener::Futures(s) => s@,
            AssetScreener::Coin(s) => s@,
        }
    }
}

impl AssetScreener {
    /// The asset class of this screener.
    pub open spec fn asset_of(&self) -> Asset {
        match self {
            AssetScreener::Stock(_) => Asset::Stock,
            AssetScreener::Crypto(_) => Asset::Crypto,
            AssetScreener::Forex(_) => Asset::Forex,
            AssetScreener::Bond(_) => Asset::Bond,
            AssetScreener::Futures(_) => Asset::Futures,
            AssetScreener::Coin(_) => Asset::Coin,
        }
    }

    /// The typed screener a scan of `asset` starts from.
    pub fn new(cat: &FieldsCatalog, asset: Asset) -> (r: AssetScreener)
        requires
            asset_ready(*cat, asset),
        ensures
            r.asset_of() == asset,
            r@.subtype == subtype_of(asset),
            r@.url == Some(url_spec(subtype_of(asset))),
            r@.all_fields == Some(start_fields(*cat, asset)),
            r@.selected == start_fields(*cat, asset),
            !r@.select_all,
            r@.sort_by == Some(
                (cat.field_spec(asset, sort_key_of(asset)).unwrap().field_name@, asset == Asset::Forex),
            ),
            r@.misc == start_misc(asset),
            r@.markets == start_markets(*cat, asset),
            r@.filters.len() == 0,
            r@.options == seq![("lang"@, JsonV::Str("en"@))],
            r@.symbols.is_none(),
            r@.range_from == 0,
            r@.range_to == 150,
            !r@.validate,
    {
        let r = match asset {
            Asset::Stock => AssetScreener::Stock(StockScreener::new(cat)),
            Asset::Crypto => AssetScreener::Crypto(CryptoScreener::new(cat)),
            Asset::Forex => AssetScreener::Forex(ForexScreener::new(cat)),
            Asset::Bond => AssetScreener::Bond(BondScreener::new(cat)),
            Asset::Futures => AssetScreener::Futures(FuturesScreener::new(cat)),
            Asset::Coin => AssetScreener::Coin(CoinScreener::new(cat)),
        };
        assert(r@.misc =~= start_misc(asset));
        r
    }

    /// The underlying builder.
    pub fn inner(&self) -> (r: &Screener)
        ensures
            r@ == self@,
    {
        match self {
            AssetScreener::Stock(s) => s.inner(),
            AssetScreener::Crypto(s) => s.inner(),
            AssetScreener::Forex(s) => s.inner(),
            AssetScreener::Bond(s) => s.inner(),
            AssetScreener::Futures(s) => s.inner(),
            AssetScreener::Coin(s) => s.inner(),
        }
    }

    /// The underlying builder, mutably.
    pub fn inner_mut(&mut self) -> (r: &mut Screener)
        ensures
            r@ == old(self)@,
            final(self)@ == final(r)@,
            final(self).asset_of() == old(self).asset_of(),
    {
        match self {
            AssetScreener::Stock(s) => s.inner_mut(),
            AssetScreener::Crypto(s) => s.inner_mut(),
            AssetScreener::Forex(s) => s.inner_mut(),
            AssetScreener::Bond(s) => s.inner_mut(),
            AssetScreener::Futures(s) => s.inner_mut(),
            AssetScreener::Coin(s) => s.inner_mut(),
        }
    }
}

} // verus!
