use tvscreener::cli::{build_payload_only, CliError, ScanArgs};
use tvscreener::field::{
    all_index_symbols, catalog_len, crypto_rsi_14, default_bond_fields, default_coin_fields,
    default_crypto_fields, default_forex_fields, default_futures_fields, default_stock_fields,
    get_preset, index_symbol_value, list_fields, list_presets, resolve_sector, search_fields,
    sector_value, to_symbolset_wire, all_countries, all_exchanges, all_industries, all_sectors,
    resolve_field, Asset, FieldDef, FieldsCatalog, IndexSymbolDef, Market, NamedValue,
};
use tvscreener::filter::{ExtraFilter, FieldCondition, FilterOperator};
use tvscreener::format::{
    format_discover_fields, format_field_types, format_get_preset, format_list_countries,
    format_list_exchanges, format_list_filter_operators, format_list_index_symbols,
    format_list_industries, format_list_markets, format_list_presets, format_list_sectors,
};
use tvscreener::json::JsonValue;
use tvscreener::query::{build_payload, custom_query_payload_preview, BuildPayloadOpts, PayloadPreviewOpts};
use tvscreener::render::{format_rows_markdown, RenderedRow};
use tvscreener::resolve::{parse_asset, parse_filter_op, resolve_index_wires, resolve_market_wires};
use tvscreener::screener::Screener;
use tvscreener::typed::{
    AssetScreener, BondScreener, CoinScreener, CryptoScreener, ForexScreener, FuturesScreener,
    StockScreener,
};

fn to_serde(v: &JsonValue) -> serde_json::Value {
    match v {
        JsonValue::Null => serde_json::Value::Null,
        JsonValue::Bool(b) => serde_json::Value::Bool(*b),
        JsonValue::Number(n) => serde_json::from_str(n).expect("number text"),
        JsonValue::Str(s) => serde_json::Value::String(s.clone()),
        JsonValue::Array(a) => serde_json::Value::Array(a.iter().map(to_serde).collect()),
        JsonValue::Object(o) => {
            let mut m = serde_json::Map::new();
            for (k, x) in o {
                m.insert(k.clone(), to_serde(x));
            }
            serde_json::Value::Object(m)
        }
    }
}

fn from_serde(v: &serde_json::Value) -> JsonValue {
    match v {
        serde_json::Value::Null => JsonValue::Null,
        serde_json::Value::Bool(b) => JsonValue::Bool(*b),
        serde_json::Value::Number(n) => JsonValue::Number(n.to_string()),
        serde_json::Value::String(s) => JsonValue::Str(s.clone()),
        serde_json::Value::Array(a) => JsonValue::Array(a.iter().map(from_serde).collect()),
        serde_json::Value::Object(o) => {
            JsonValue::Object(o.iter().map(|(k, x)| (k.clone(), from_serde(x))).collect())
        }
    }
}

fn val(text: &str) -> serde_json::Value {
    serde_json::from_str(text).expect("json literal")
}

/// The filters argument of the MCP tools, read the way the tools read it.
fn field(label: &str, name: &str, interval: bool) -> FieldDef {
    FieldDef {
        label: label.to_string(),
        field_name: name.to_string(),
        format: None,
        interval,
        historical: false,
    }
}

fn entry(c: &str, label: &str, name: &str) -> (String, FieldDef) {
    (c.to_string(), field(label, name, false))
}

fn filler(out: &mut Vec<(String, FieldDef)>, n: usize) {
    for i in 0..n {
        out.push((
            format!("FIELD_{i:04}"),
            field(&format!("Field {i}"), &format!("field_{i}"), false),
        ));
    }
}

fn strings(v: &[&str]) -> Vec<String> {
    v.iter().map(|s| s.to_string()).collect()
}

const INDEX_CONST_NAMES: usize = 52;

/// A catalog with the documented constants of the embedded one.
fn catalog() -> FieldsCatalog {
    let mut crypto = vec![
        entry("NAME", "Name", "name"),
        entry("PRICE", "Price", "close"),
        entry("CHANGE_PERCENT", "Change %", "change"),
        entry("VOLUME_24H_IN_USD", "Volume 24h in USD", "24h_vol|5"),
        entry("MARKET_CAPITALIZATION", "Market Capitalization", "market_cap_calc"),
        (
            "RELATIVE_STRENGTH_INDEX_14".to_string(),
            field("Relative Strength Index (14)", "RSI", true),
        ),
        entry("VOLUME", "Volume", "volume"),
    ];
    filler(&mut crypto, 3100);
    let mut stock = vec![
        entry("NAME", "Name", "name"),
        entry("PRICE", "Price", "close"),
        entry("CHANGE_PERCENT", "Change %", "change"),
        entry("VOLUME", "Volume", "volume"),
        entry("MARKET_CAPITALIZATION", "Market Capitalization", "market_cap_basic"),
        entry(
            "PRICE_TO_EARNINGS_RATIO_TTM",
            "Price to Earnings Ratio (TTM)",
            "price_earnings_ttm",
        ),
        entry("SECTOR", "Sector", "sector"),
        (
            "RELATIVE_STRENGTH_INDEX_14".to_string(),
            field("Relative Strength Index (14)", "RSI", true),
        ),
    ];
    filler(&mut stock, 3100);
    let forex = vec![
        entry("NAME", "Name", "name"),
        entry("PRICE", "Price", "close"),
        entry("CHANGE_PERCENT", "Change %", "change"),
        entry("VOLUME", "Volume", "volume"),
    ];
    let bond = vec![entry("NAME", "Name", "name"), entry("VOLUME", "Volume", "volume")];
    let futures = vec![entry("NAME", "Name", "name"), entry("VOLUME", "Volume", "volume")];
    let coin = vec![entry("NAME", "Name", "name"), entry("MARKET_CAP", "Market Cap", "market_cap_calc")];
    let mut crypto_defaults = strings(&[
        "NAME",
        "PRICE",
        "CHANGE_PERCENT",
        "VOLUME_24H_IN_USD",
        "MARKET_CAPITALIZATION",
    ]);
    for i in 0..60 {
        crypto_defaults.push(format!("FIELD_{i:04}"));
    }
    let mut index_symbols = vec![
        IndexSymbolDef {
            const_name: "SP500".into(),
            value: "SP;SPX".into(),
            label: "S&P 500".into(),
        },
        IndexSymbolDef {
            const_name: "NASDAQ_100".into(),
            value: "NASDAQ;NDX".into(),
            label: "Nasdaq 100".into(),
        },
    ];
    for i in 0..(INDEX_CONST_NAMES - 2) {
        index_symbols.push(IndexSymbolDef {
            const_name: format!("INDEX_{i}"),
            value: format!("X;I{i}"),
            label: format!("Index {i}"),
        });
    }
    let named = |c: &str, v: &str| NamedValue {
        const_name: c.into(),
        value: v.into(),
    };
    FieldsCatalog {
        defaults: vec![
            ("crypto".into(), crypto_defaults),
            ("stock".into(), strings(&["NAME", "PRICE", "MARKET_CAPITALIZATION"])),
            ("forex".into(), strings(&["NAME", "PRICE"])),
            ("bond".into(), Vec::new()),
            ("futures".into(), strings(&["NAME", "VOLUME"])),
            ("coin".into(), strings(&["NAME", "MARKET_CAP"])),
        ],
        catalog: vec![
            ("crypto".into(), crypto),
            ("stock".into(), stock),
            ("forex".into(), forex),
            ("bond".into(), bond),
            ("futures".into(), futures),
            ("coin".into(), coin),
        ],
        presets: vec![
            (
                "crypto_price".into(),
                strings(&[
                    "crypto.NAME",
                    "crypto.PRICE",
                    "crypto.CHANGE_PERCENT",
                    "crypto.VOLUME_24H_IN_USD",
                    "crypto.MARKET_CAPITALIZATION",
                    "crypto.RELATIVE_STRENGTH_INDEX_14",
                    "crypto.VOLUME",
                ]),
            ),
            (
                "stock_valuation".into(),
                strings(&[
                    "stock.NAME",
                    "stock.MARKET_CAPITALIZATION",
                    "stock.PRICE_TO_EARNINGS_RATIO_TTM",
                ]),
            ),
            ("bond_basic".into(), strings(&["bond.NAME", "bond.VOLUME"])),
        ],
        markets: vec![
            Market {
                const_name: "AMERICA".into(),
                value: "america".into(),
            },
            Market {
                const_name: "ALL".into(),
                value: "all".into(),
            },
        ],
        types: Vec::new(),
        symbol_types: Vec::new(),
        index_symbols,
        sectors: vec![named("TECHNOLOGY_SERVICES", "Technology Services")],
        countries: vec![named("UNITED_STATES", "United States")],
        industries: vec![named("SEMICONDUCTORS", "Semiconductors")],
        exchanges: vec![named("NASDAQ", "NASDAQ")],
    }
}

#[test]
fn default_crypto_fields_non_empty() {
    let cat = catalog();
    let fields = default_crypto_fields(&cat);
    assert!(fields.len() > 50);
    assert!(fields.iter().any(|f| f.field_name == "name"));
}

#[test]
fn get_preset_crypto_price() {
    let cat = catalog();
    let fields = get_preset(&cat, "crypto_price").expect("preset");
    assert!(fields.iter().any(|f| f.label == "Name"));
    assert_eq!(fields.len(), 7);
}

#[test]
fn list_presets_includes_crypto_price() {
    let cat = catalog();
    let names = list_presets(&cat);
    assert!(names.contains(&"crypto_price".to_string()));
}

#[test]
fn search_fields_finds_volume() {
    let cat = catalog();
    let hits = search_fields(&cat, Asset::Crypto, "volume");
    assert!(hits
        .iter()
        .any(|f| f.field_name.contains("vol") || f.label.contains("Volume")));
}

#[test]
fn full_catalog_is_much_larger_than_defaults() {
    let cat = catalog();
    assert!(catalog_len(&cat, Asset::Crypto) > 3000);
    assert!(catalog_len(&cat, Asset::Stock) > 3000);
    assert_eq!(list_fields(&cat, Asset::Crypto).len(), catalog_len(&cat, Asset::Crypto));
    assert!(default_crypto_fields(&cat).len() < catalog_len(&cat, Asset::Crypto));
}

#[test]
fn index_symbol_sp500_wire_and_catalog() {
    let cat = catalog();
    assert_eq!(index_symbol_value(&cat, "SP500"), Some("SP;SPX"));
    assert_eq!(to_symbolset_wire("SP;SPX"), "SYML:SP;SPX");
    assert_eq!(to_symbolset_wire("SYML:SP;SPX"), "SYML:SP;SPX");
    assert_eq!(all_index_symbols(&cat).len(), INDEX_CONST_NAMES);
    assert!(all_index_symbols(&cat).len() >= 50);
}

#[test]
fn market_america_value() {
    let cat = catalog();
    assert_eq!(Market::america(&cat).value, "america");
}

#[test]
fn sector_country_industry_exchange_catalog() {
    let cat = catalog();
    assert_eq!(sector_value(&cat, "TECHNOLOGY_SERVICES"), Some("Technology Services"));
    assert_eq!(resolve_sector(&cat, "Technology Services"), Some("Technology Services"));
    assert_eq!(all_sectors(&cat).len(), 1);
    assert_eq!(all_countries(&cat)[0].value, "United States");
    assert_eq!(all_industries(&cat)[0].value, "Semiconductors");
    assert_eq!(all_exchanges(&cat)[0].value, "NASDAQ");
}

#[test]
fn bond_defaults_or_preset_fallback() {
    let cat = catalog();
    let fields = default_bond_fields(&cat);
    assert!(!fields.is_empty());
}

#[test]
fn fields_defaults_non_empty_for_all_assets() {
    let cat = catalog();
    assert!(!default_crypto_fields(&cat).is_empty());
    assert!(!default_stock_fields(&cat).is_empty());
    assert!(!default_forex_fields(&cat).is_empty());
    assert!(!default_bond_fields(&cat).is_empty());
    assert!(!default_futures_fields(&cat).is_empty());
    assert!(!default_coin_fields(&cat).is_empty());
}

#[test]
fn fields_search_and_presets() {
    let cat = catalog();
    let hits = search_fields(&cat, Asset::Stock, "market cap");
    assert!(!hits.is_empty());
    let names = list_presets(&cat);
    assert!(names.iter().any(|n| n == "stock_valuation"));
    assert!(names.iter().any(|n| n == "crypto_price"));
    let valuation = get_preset(&cat, "stock_valuation").expect("preset");
    assert!(!valuation.is_empty());
    assert!(valuation.iter().any(|f| {
        f.field_name.contains("market_cap") || f.label.to_ascii_lowercase().contains("market")
    }));
    assert!(get_preset(&cat, "no_such_preset").is_err());
}

#[test]
fn build_payload_crypto_defaults_shape() {
    let cat = catalog();
    let mut s = Screener::new("crypto".to_string());
    s.select(default_crypto_fields(&cat))
        .add_filter("name".to_string(), FilterOperator::Match, vec![JsonValue::Str("btc".into())])
        .unwrap()
        .sort_by("24h_vol|5".to_string(), false)
        .set_range(0, 5);
    let payload = to_serde(&s.build_payload().expect("payload"));
    assert!(payload.get("filter").and_then(serde_json::Value::as_array).is_some());
    assert!(payload.get("columns").and_then(serde_json::Value::as_array).is_some());
    assert_eq!(payload["range"], val("[0, 5]"));
    assert_eq!(payload["options"]["lang"], val(r#""en""#));
}

#[test]
fn sort_by_field_uses_technical_name() {
    let cat = catalog();
    let mut s = Screener::new("crypto".to_string());
    let rsi = crypto_rsi_14(&cat);
    s.select(vec![rsi.clone()]).sort_by_field(&rsi, true);
    let payload = to_serde(&s.build_payload().expect("payload"));
    assert_eq!(payload["sort"]["sortBy"], val(r#""RSI""#));
    assert_eq!(payload["sort"]["sortOrder"], val(r#""asc""#));
}

#[test]
fn validate_filter_fields_rejects_unknown_left() {
    let cat = catalog();
    let mut s = Screener::new("crypto".to_string());
    s.set_all_fields_fn(default_crypto_fields(&cat))
        .select(default_crypto_fields(&cat))
        .set_validate_filter_fields(true);
    let err = s
        .add_filter(
            "not_a_real_field_xyz".to_string(),
            FilterOperator::Equal,
            vec![JsonValue::Number("1".into())],
        )
        .expect_err("unknown left");
    assert!(matches!(err, tvscreener::error::TvscreenerError::InvalidFieldName(_)));
    s.add_filter("name".to_string(), FilterOperator::Match, vec![JsonValue::Str("btc".into())])
        .expect("name is in crypto defaults");
    s.search("eth".to_string()).expect("search extra filter always allowed");
    s.add_filter("type".to_string(), FilterOperator::Equal, vec![JsonValue::Str("stock".into())])
        .expect("structural type always allowed");
}

#[test]
fn set_index_symbolset_wire_shape() {
    let cat = catalog();
    let mut s = Screener::new("global".to_string());
    s.select(vec![FieldDef::new("Name", "name")])
        .set_index(vec![index_symbol_value(&cat, "SP500").unwrap().to_string()]);
    let payload = to_serde(&s.build_payload().expect("payload"));
    assert_eq!(payload["symbols"]["symbolset"], val(r#"["SYML:SP;SPX"]"#));
}

#[test]
fn filters_numeric_string_list_and_search_payload() {
    let cat = catalog();
    let mut s = Screener::new("crypto".to_string());
    s.select(default_crypto_fields(&cat))
        .add_filter("close".to_string(), FilterOperator::Above, vec![JsonValue::Number("100".into())])
        .unwrap()
        .add_filter("name".to_string(), FilterOperator::Match, vec![JsonValue::Str("btc".into())])
        .unwrap()
        .add_filter(
            "exchange".to_string(),
            FilterOperator::InRange,
            vec![JsonValue::Str("BINANCE".into()), JsonValue::Str("COINBASE".into())],
        )
        .unwrap()
        .search("eth".to_string())
        .unwrap();
    let payload = to_serde(&s.build_payload().expect("payload"));
    let filters = payload["filter"].as_array().expect("filter array");
    assert!(filters
        .iter()
        .any(|f| f["left"] == "close" && f["operation"] == "greater"));
    assert!(filters
        .iter()
        .any(|f| f["left"] == ExtraFilter::Search.field_name()));
    assert!(filters.iter().any(|f| {
        f["left"] == "exchange" && f["right"].as_array().is_some_and(|a| a.len() == 2)
    }));
}

#[test]
fn base_screener_select_range_sort_payload() {
    let cat = catalog();
    let mut s = Screener::new("crypto".to_string());
    s.select(get_preset(&cat, "crypto_price").unwrap())
        .set_range(0, 25)
        .sort_by("24h_vol|5".to_string(), false)
        .set_print_request(true)
        .add_option("lang".to_string(), JsonValue::Str("en".into()));
    let payload = to_serde(&s.build_payload().unwrap());
    assert_eq!(payload["range"], val("[0, 25]"));
    assert_eq!(payload["sort"]["sortOrder"], val(r#""desc""#));
    assert!(payload["columns"].as_array().unwrap().len() >= 2);
    assert_eq!(payload["options"]["lang"], val(r#""en""#));
}

#[test]
fn crypto_screener_price_conversion_misc() {
    let cat = catalog();
    let cs = CryptoScreener::new(&cat);
    let payload = to_serde(&cs.inner().build_payload().unwrap());
    assert_eq!(payload["price_conversion"], val(r#"{ "to_symbol": false }"#));
    assert_eq!(payload["sort"]["sortOrder"], val(r#""desc""#));
}

#[test]
fn forex_bond_futures_coin_constructors_build_payload() {
    let cat = catalog();
    let fx = ForexScreener::new(&cat);
    let fx_payload = to_serde(&fx.inner().build_payload().unwrap());
    assert!(fx_payload.get("columns").is_some());
    assert_eq!(fx_payload["symbols"]["query"]["types"], val(r#"["forex"]"#));

    for (name, payload) in [
        ("bond", BondScreener::new(&cat).inner().build_payload().unwrap()),
        ("futures", FuturesScreener::new(&cat).inner().build_payload().unwrap()),
        ("coin", CoinScreener::new(&cat).inner().build_payload().unwrap()),
    ] {
        let payload = to_serde(&payload);
        assert!(
            payload["columns"].as_array().is_some_and(|c| !c.is_empty()),
            "{name} must request columns"
        );
        assert_eq!(payload["range"], val("[0, 150]"), "{name} default range");
    }

    let coin = to_serde(&CoinScreener::new(&cat).inner().build_payload().unwrap());
    assert_eq!(coin["price_conversion"], val(r#"{ "to_symbol": false }"#));
}

#[test]
fn select_all_reloads_defaults() {
    let cat = catalog();
    let mut cs = CryptoScreener::new(&cat);
    cs.select(vec![FieldDef::new("Name", "name")]);
    assert_eq!(cs.inner().selected_fields().len(), 1);
    assert!(!cs.inner().is_select_all());
    cs.select_all();
    assert!(cs.inner().is_select_all());
    assert_eq!(cs.inner().selected_fields().len(), default_crypto_fields(&cat).len());
}

#[test]
fn parse_ops_and_asset() {
    assert_eq!(parse_filter_op(">="), Some(FilterOperator::AboveOrEqual));
    assert_eq!(parse_filter_op("in_range"), Some(FilterOperator::InRange));
    assert_eq!(parse_asset("crypto").unwrap(), Asset::Crypto);
    assert!(parse_asset("nope").is_err());
}

#[test]
fn discover_and_presets_offline() {
    let cat = catalog();
    let text = format_discover_fields(&cat, Asset::Crypto, "rsi", 5);
    assert!(text.contains("RSI") || text.contains("fields matching"));
    assert!(format_list_presets(&cat).contains("crypto_price"));
    assert!(format_get_preset(&cat, "crypto_price").unwrap().contains("Name"));
    assert!(format_field_types(&cat, Asset::Stock).contains("**price**"));
    assert!(format_list_sectors(&cat).contains("TECHNOLOGY_SERVICES"));
    assert!(format_list_sectors(&cat).contains("Technology Services"));
    assert!(format_list_countries(&cat).contains("UNITED_STATES"));
    assert!(format_list_industries(&cat).contains("SEMICONDUCTORS"));
    assert!(format_list_exchanges(&cat).contains("NASDAQ"));
    assert!(format_list_filter_operators().contains("in_range"));
    assert!(format_list_filter_operators().contains("PRICE"));
    assert!(format_list_filter_operators().contains("Technology Services"));
    assert!(
        format_list_markets(&cat).contains("AMERICA") || format_list_markets(&cat).contains("america")
    );
    assert!(format_list_index_symbols(&cat).contains("SP500"));
    assert!(format_list_index_symbols(&cat).contains("SP;SPX"));
}

#[test]
fn custom_payload_preview_merges_filters() {
    let cat = catalog();
    let payload = to_serde(
        &custom_query_payload_preview(
            &cat,
            &PayloadPreviewOpts {
                asset_type: "stock",
                fields: Some("NAME,PRICE"),
                filters: Some(
                    r#"[{"field":"PRICE","op":">","value":50},{"field":"RSI","op":"in_range","value":[30,70]}]"#,
                ),
                sort_by: Some("PRICE"),
                ascending: false,
                limit: 10,
                indices: None,
                markets: None,
            },
        )
        .unwrap(),
    );
    assert!(payload["columns"].as_array().unwrap().len() >= 2);
    assert_eq!(payload["range"], val("[0, 10]"));
    let filters = payload["filter"].as_array().unwrap();
    assert!(filters
        .iter()
        .any(|f| f["left"] == "close" || f["operation"] == "greater"));
}

#[test]
fn build_payload_with_index_and_markets() {
    let cat = catalog();
    let text = build_payload(
        &cat,
        &BuildPayloadOpts {
            asset_type: "stock",
            fields: Some("NAME,PRICE"),
            filters: None,
            sort_by: Some("MARKET_CAPITALIZATION"),
            indices: Some("SP500,NASDAQ_100"),
            markets: Some("AMERICA"),
        },
    )
    .unwrap();
    assert!(text.contains("SYML:SP;SPX"));
    assert!(text.contains("SYML:NASDAQ;NDX"));
    assert!(text.contains("america"));
    assert_eq!(resolve_index_wires(&cat, Some("SP;SPX")).unwrap(), vec!["SP;SPX"]);
    assert_eq!(resolve_index_wires(&cat, Some("SYML:SP;SPX")).unwrap(), vec!["SP;SPX"]);
    assert_eq!(resolve_index_wires(&cat, Some("SP500")).unwrap(), vec!["SP;SPX"]);
    assert_eq!(resolve_market_wires(&cat, Some("america")).unwrap(), vec!["america"]);
    assert!(resolve_index_wires(&cat, Some("NOPE")).is_err());
}

#[test]
fn payload_preview_indices_emit_syml_symbolset() {
    let cat = catalog();
    let payload = to_serde(
        &custom_query_payload_preview(
            &cat,
            &PayloadPreviewOpts {
                asset_type: "stock",
                fields: Some("NAME,PRICE"),
                filters: None,
                sort_by: None,
                ascending: false,
                limit: 5,
                indices: Some("SP500"),
                markets: Some("AMERICA"),
            },
        )
        .unwrap(),
    );
    assert_eq!(payload["symbols"]["symbolset"], val(r#"["SYML:SP;SPX"]"#));
    assert_eq!(payload["markets"], val(r#"["america"]"#));
}

#[test]
fn format_rows_markdown_empty() {
    let rows: Vec<RenderedRow> = Vec::new();
    assert!(format_rows_markdown(&rows, 5).contains("No results"));
}

#[test]
fn mcp_tools_discover_and_presets() {
    let cat = catalog();
    assert_eq!(parse_asset("stock").unwrap(), Asset::Stock);
    let text = format_discover_fields(&cat, Asset::Crypto, "volume", 8);
    assert!(text.contains("volume") || text.contains("VOLUME") || text.contains("fields"));
    assert!(format_list_presets(&cat).contains("crypto_price"));
    assert!(format_get_preset(&cat, "crypto_price").unwrap().contains("Name"));
    let payload = to_serde(
        &custom_query_payload_preview(
            &cat,
            &PayloadPreviewOpts {
                asset_type: "crypto",
                fields: Some("NAME,PRICE"),
                filters: Some(r#"[{"field":"PRICE","op":">","value":1}]"#),
                sort_by: None,
                ascending: false,
                limit: 5,
                indices: None,
                markets: None,
            },
        )
        .unwrap(),
    );
    assert_eq!(payload["range"], val("[0, 5]"));
}

#[test]
fn mcp_tools_stock_index_payload_uses_syml_prefix() {
    let cat = catalog();
    let payload = to_serde(
        &custom_query_payload_preview(
            &cat,
            &PayloadPreviewOpts {
                asset_type: "stock",
                fields: Some("NAME,PRICE"),
                filters: None,
                sort_by: None,
                ascending: false,
                limit: 5,
                indices: Some("SP500"),
                markets: Some("AMERICA"),
            },
        )
        .unwrap(),
    );
    assert_eq!(payload["symbols"]["symbolset"], val(r#"["SYML:SP;SPX"]"#));
    assert_eq!(payload["markets"], val(r#"["america"]"#));
}

#[test]
fn cli_payload_rejects_markets_for_crypto() {
    let cat = catalog();
    let mut s = Screener::new("crypto".to_string());
    let args = ScanArgs {
        asset: Asset::Crypto,
        preset: None,
        from: 0,
        limit: 10,
        search: None,
        markets: Some("AMERICA".into()),
        index: None,
    };
    match build_payload_only(&cat, &mut s, &args, false) {
        Err(CliError::Usage(m)) => assert_eq!(m, "--markets / --index only apply to stock"),
        other => panic!("unexpected: {other:?}"),
    }
}

#[test]
fn stock_screener_defaults_to_america_by_market_cap() {
    let cat = catalog();
    let mut ss = StockScreener::new(&cat);
    assert_eq!(ss.inner().selected_fields().len(), default_stock_fields(&cat).len());
    let payload = to_serde(&ss.inner().build_payload().unwrap());
    assert_eq!(payload["markets"], val(r#"["america"]"#));
    assert_eq!(payload["sort"]["sortBy"], val(r#""market_cap_basic""#));
    assert_eq!(payload["sort"]["sortOrder"], val(r#""desc""#));
    assert!(ss.inner().request_url().ends_with("/global/scan"));
    ss.set_markets(vec![
        Market { const_name: "ALL".into(), value: "all".into() },
        Market { const_name: "AMERICA".into(), value: "america".into() },
    ])
    .set_range(0, 5);
    ss.inner_mut().set_index(vec!["SP;SPX".to_string()]);
    let payload = to_serde(&ss.inner().build_payload().unwrap());
    assert_eq!(payload["markets"], val(r#"["all", "america"]"#));
    assert_eq!(payload["range"], val("[0, 5]"));
    assert_eq!(payload["symbols"]["symbolset"], val(r#"["SYML:SP;SPX"]"#));
}

#[test]
fn resolve_field_prefers_technical_name_over_label() {
    let mut cat = catalog();
    let crypto = &mut cat
        .catalog
        .iter_mut()
        .find(|(a, _)| a == "crypto")
        .expect("crypto catalog")
        .1;
    crypto.insert(0, entry("ALPHA", "Zeta Gauge", "alpha_tech"));
    crypto.insert(1, entry("BETA", "beta label", "zeta gauge"));
    crypto.insert(2, entry("GAMMA_RATIO", "Gamma", "gamma_tech"));
    // "Zeta Gauge" is ALPHA's label and BETA's technical name: the technical name wins.
    let (c, d) = resolve_field(&cat, Asset::Crypto, " zeta gauge ").expect("resolved");
    assert_eq!(c, "BETA");
    assert_eq!(d.field_name, "zeta gauge");
    // An exact constant name wins over everything.
    assert_eq!(resolve_field(&cat, Asset::Crypto, "gamma ratio").unwrap().0, "GAMMA_RATIO");
    // A label match when no technical name matches.
    assert_eq!(resolve_field(&cat, Asset::Crypto, "BETA LABEL").unwrap().0, "BETA");
    assert!(resolve_field(&cat, Asset::Crypto, "   ").is_none());
    assert!(resolve_field(&cat, Asset::Crypto, "nothing like it").is_none());
}

#[test]
fn asset_screener_starts_from_the_typed_defaults() {
    let cat = catalog();
    let stock = AssetScreener::new(&cat, Asset::Stock);
    assert!(stock.inner().request_url().ends_with("/global/scan"));
    let p = to_serde(&stock.inner().build_payload().unwrap());
    assert_eq!(p["markets"], val(r#"["america"]"#));
    let forex = AssetScreener::new(&cat, Asset::Forex);
    let p = to_serde(&forex.inner().build_payload().unwrap());
    assert_eq!(p["sort"]["sortOrder"], val(r#""asc""#));
    assert!(forex.inner().request_url().ends_with("/forex/scan"));
    let mut crypto = AssetScreener::new(&cat, Asset::Crypto);
    crypto.inner_mut().set_range(0, 7);
    let p = to_serde(&crypto.inner().build_payload().unwrap());
    assert_eq!(p["range"], val("[0, 7]"));
    assert_eq!(p["price_conversion"], val(r#"{"to_symbol": false}"#));
}

#[test]
fn catalog_well_formedness_is_checked() {
    let mut cat = catalog();
    assert!(cat.is_well_formed());
    cat.presets.push(("crypto_price".to_string(), vec![]));
    assert!(!cat.is_well_formed());
    let mut cat = catalog();
    let crypto = &mut cat.catalog.iter_mut().find(|(a, _)| a == "crypto").expect("crypto").1;
    crypto.push(entry("NAME", "Other name", "other"));
    assert!(!cat.is_well_formed());
}

#[test]
fn stock_screener_select_all_search_and_conditions() {
    let cat = catalog();
    let mut ss = StockScreener::new(&cat);
    ss.select(vec![FieldDef::new("Name", "name")]);
    ss.select_all();
    assert_eq!(ss.inner().selected_fields().len(), default_stock_fields(&cat).len());
    assert!(ss.inner().is_select_all());
    ss.search("AAPL".to_string()).unwrap();
    ss.where_condition(FieldCondition::new("close".to_string(), FilterOperator::Above, JsonValue::Number("10".into())))
        .unwrap();
    let p = to_serde(&ss.inner().build_payload().unwrap());
    let filters = p["filter"].as_array().unwrap();
    assert_eq!(filters.len(), 2);
    assert_eq!(filters[0]["operation"], val(r#""match""#));
    assert_eq!(filters[1]["left"], val(r#""close""#));
}
