use std::time::Duration;
use tvscreener::error::TvscreenerError;
use tvscreener::field::FieldDef;
use tvscreener::filter::{ExtraFilter, FieldCondition, Filter, FilterOperator};
use tvscreener::json::JsonValue;
use tvscreener::screener::{parse_rows, Screener};
use tvscreener::util::{
    format_timed_field, get_columns_to_request, get_url, is_status_code_ok, DEFAULT_TIMEOUT_SECS,
    SCANNER_ORIGIN,
};

fn to_serde(v: &JsonValue) -> serde_json::Value {
    match v {
        JsonValue::Null => serde_json::Value::Null,
        JsonValue::Bool(b) => serde_json::Value::Bool(*b),
        JsonValue::Number(n) => serde_json::from_str(n).expect("number text"),
        JsonValue::Str(s) => serde_json::Value::String(s.clone()),
        JsonValue::Array(a) => serde_json::Value::Array(a.iter().map(to_serde).collect()),
        JsonValue::Object(o) => {
            let mut m = serde_json::Map::new();
            for (k, x) in o {
                m.insert(k.clone(), to_serde(x));
            }
            serde_json::Value::Object(m)
        }
    }
}

fn from_serde(v: &serde_json::Value) -> JsonValue {
    match v {
        serde_json::Value::Null => JsonValue::Null,
        serde_json::Value::Bool(b) => JsonValue::Bool(*b),
        serde_json::Value::Number(n) => JsonValue::Number(n.to_string()),
        serde_json::Value::String(s) => JsonValue::Str(s.clone()),
        serde_json::Value::Array(a) => JsonValue::Array(a.iter().map(from_serde).collect()),
        serde_json::Value::Object(o) => {
            JsonValue::Object(o.iter().map(|(k, x)| (k.clone(), from_serde(x))).collect())
        }
    }
}

fn js(text: &str) -> JsonValue {
    from_serde(&serde_json::from_str(text).expect("json literal"))
}

fn val(text: &str) -> serde_json::Value {
    serde_json::from_str(text).expect("json literal")
}

fn name_field() -> Vec<FieldDef> {
    vec![FieldDef::new("Name", "name")]
}

#[test]
fn builder_stores_range_and_filter() {
    let mut s = Screener::new("crypto".to_string());
    s.set_range(10, 20)
        .where_condition(FieldCondition::new(
            "volume".to_string(),
            FilterOperator::Above,
            js("1000000"),
        ))
        .unwrap();
    assert_eq!(s.range(), (10, 20));
    assert_eq!(s.filters().len(), 1);
}

#[test]
fn merge_same_left_extends_values_and_promotes_in_range() {
    let mut s = Screener::new("crypto".to_string());
    s.add_filter("type".to_string(), FilterOperator::Equal, vec![js("\"stock\"")])
        .unwrap();
    s.add_filter("type".to_string(), FilterOperator::Equal, vec![js("\"fund\"")])
        .unwrap();
    assert_eq!(s.filters().len(), 1);
    assert_eq!(s.filters()[0].operation, FilterOperator::InRange);
    assert_eq!(s.filters()[0].values.len(), 2);
}

#[test]
fn single_in_range_becomes_equal() {
    let mut s = Screener::new("crypto".to_string());
    s.add_filter("type".to_string(), FilterOperator::InRange, vec![js("\"stock\"")])
        .unwrap();
    assert_eq!(s.filters()[0].operation, FilterOperator::Equal);
}

#[test]
fn search_adds_match_filter() {
    let mut s = Screener::new("crypto".to_string());
    s.search("btc".to_string()).unwrap();
    assert_eq!(s.filters()[0].left, ExtraFilter::Search.field_name());
    assert_eq!(s.filters()[0].operation, FilterOperator::Match);
}

#[test]
fn build_payload_includes_markets_when_set() {
    let mut s = Screener::new("global".to_string());
    s.select(name_field()).set_markets(vec!["america".to_string()]);
    let payload = to_serde(&s.build_payload().expect("payload"));
    assert_eq!(payload["markets"], val(r#"["america"]"#));
}

#[test]
fn select_replaces_previous_fields() {
    let mut s = Screener::new("crypto".to_string());
    s.select(name_field());
    s.select(vec![FieldDef::new("Price", "close")]);
    assert_eq!(s.selected_fields().len(), 1);
    assert_eq!(s.selected_fields()[0].field_name, "close");
}

#[test]
fn timeout_default_and_override() {
    let mut s = Screener::new("crypto".to_string());
    assert_eq!(s.timeout(), Duration::from_secs(DEFAULT_TIMEOUT_SECS));
    s.set_timeout(Duration::from_secs(5));
    assert_eq!(s.timeout(), Duration::from_secs(5));
}

#[test]
fn set_index_does_not_double_prefix_syml() {
    let mut s = Screener::new("global".to_string());
    s.select(name_field())
        .set_index(vec!["SYML:SP;SPX".to_string(), "NASDAQ;NDX".to_string()]);
    let payload = to_serde(&s.build_payload().expect("payload"));
    assert_eq!(
        payload["symbols"]["symbolset"],
        val(r#"["SYML:SP;SPX", "SYML:NASDAQ;NDX"]"#)
    );
}

#[test]
fn filter_operator_wire_values() {
    assert_eq!(FilterOperator::Below.as_str(), "less");
    assert_eq!(FilterOperator::Match.as_str(), "match");
    assert_eq!(FilterOperator::NotEqual.as_str(), "nequal");
}

#[test]
fn filter_operator_display_from_str_roundtrip() {
    for op in [
        FilterOperator::Below,
        FilterOperator::AboveOrEqual,
        FilterOperator::InRange,
        FilterOperator::Match,
        FilterOperator::NotEqual,
    ] {
        let wire = op.to_wire();
        let parsed: FilterOperator = wire.parse().expect("parse");
        assert_eq!(parsed, op);
    }
    assert!("nope".parse::<FilterOperator>().is_err());
}

#[test]
fn extra_filter_field_names() {
    assert_eq!(ExtraFilter::Search.field_name(), "name,description");
}

#[test]
fn filter_to_json_single_right() {
    let f = Filter::new("close".to_string(), FilterOperator::Above, vec![js("100")]);
    let obj = to_serde(&f.to_json());
    assert_eq!(obj["left"], "close");
    assert_eq!(obj["operation"], "greater");
    assert_eq!(obj["right"], 100);
}

#[test]
fn get_url_joins_subtype() {
    assert_eq!(get_url("crypto"), "https://scanner.tradingview.com/crypto/scan");
}

fn sample_field(label: &str, field_name: &str) -> FieldDef {
    FieldDef {
        label: label.into(),
        field_name: field_name.into(),
        format: None,
        interval: false,
        historical: false,
    }
}

#[test]
fn format_timed_field_rewrites_change_intervals() {
    assert_eq!(format_timed_field("change.15"), "change|15");
    assert_eq!(format_timed_field("change.1W"), "change|1W");
    assert_eq!(format_timed_field("close"), "close");
}

#[test]
fn get_columns_skips_candlestick_and_adds_update_mode() {
    let fields = vec![
        sample_field("Name", "name"),
        sample_field("Pattern", "candlestick_doji"),
        FieldDef {
            label: "Change %".into(),
            field_name: "change".into(),
            format: Some("percent".into()),
            interval: true,
            historical: false,
        },
    ];
    let cols = get_columns_to_request(&fields);
    let keys: Vec<_> = cols.iter().map(|(k, _)| k.as_str()).collect();
    assert!(!keys.iter().any(|k| k.starts_with("candlestick")));
    assert!(keys.contains(&"update_mode"));
}

#[test]
fn get_columns_adds_rec_and_historical() {
    let fields = vec![
        FieldDef {
            label: "RSI".into(),
            field_name: "RSI".into(),
            format: Some("recommendation".into()),
            interval: true,
            historical: true,
        },
        sample_field("Volume", "volume"),
    ];
    let cols = get_columns_to_request(&fields);
    let keys: Vec<_> = cols.iter().map(|(k, _)| k.as_str()).collect();
    assert!(keys.contains(&"Rec.RSI"));
    assert!(keys.contains(&"RSI[1]"));
}

#[test]
fn is_status_code_ok_range() {
    assert!(is_status_code_ok(200));
    assert!(is_status_code_ok(299));
    assert!(!is_status_code_ok(404));
}

#[test]
fn util_get_url_all_subtypes() {
    for subtype in ["global", "crypto", "forex", "bond", "futures", "coin"] {
        let url = get_url(subtype);
        assert!(url.starts_with(SCANNER_ORIGIN));
        assert!(url.ends_with(&format!("/{subtype}/scan")));
    }
}

#[test]
fn filters_remove_and_condition() {
    let mut s = Screener::new("crypto".to_string());
    s.select(name_field())
        .where_condition(FieldCondition::new(
            "volume".to_string(),
            FilterOperator::Above,
            js("1000000"),
        ))
        .unwrap()
        .add_filter("close".to_string(), FilterOperator::Below, vec![js("50")])
        .unwrap();
    assert_eq!(s.filters().len(), 2);
    s.remove_filter("volume");
    assert_eq!(s.filters().len(), 1);
    assert_eq!(s.filters()[0].left, "close");
}

#[test]
fn filters_to_json_wire_shape() {
    let f = Filter::new("RSI".to_string(), FilterOperator::Below, vec![js("35")]);
    let obj = to_serde(&f.to_json());
    assert_eq!(obj["left"], "RSI");
    assert_eq!(obj["operation"], "less");
    assert_eq!(obj["right"], 35);
}

#[test]
fn base_screener_set_index_merges_symbolset() {
    let mut s = Screener::new("global".to_string());
    s.select(name_field())
        .set_index(vec!["SP;SPX".to_string(), "NASDAQ;NDX".to_string()]);
    let payload = to_serde(&s.build_payload().unwrap());
    assert_eq!(
        payload["symbols"]["symbolset"],
        serde_json::Value::Array(vec![
            serde_json::Value::String(format!("SYML:{}", "SP;SPX")),
            serde_json::Value::String(format!("SYML:{}", "NASDAQ;NDX")),
        ])
    );
}

#[test]
fn base_screener_empty_fields_is_invalid() {
    let s = Screener::new("crypto".to_string());
    match s.build_payload() {
        Err(TvscreenerError::InvalidRequest(_)) => {}
        other => panic!("expected InvalidRequest, got {other:?}"),
    }
}

#[test]
fn base_screener_parse_rows_maps_labels() {
    let columns: Vec<(String, String)> = vec![
        ("name".into(), "Name".into()),
        ("close".into(), "Price".into()),
    ];
    let body = js(
        r#"{
        "data": [
            { "s": "BINANCE:BTCUSDT", "d": ["BTCUSDT", 42000.5] },
            { "s": "BINANCE:ETHUSDT", "d": ["ETHUSDT", 2200.0] }
        ]
    }"#,
    );
    let rows = parse_rows(&body, &columns).unwrap();
    assert_eq!(rows.len(), 2);
    assert_eq!(rows[0].symbol, "BINANCE:BTCUSDT");
    let get = |label: &str| rows[0].data.iter().find(|(k, _)| k == label).map(|(_, v)| to_serde(v));
    assert_eq!(get("Name"), Some(val(r#""BTCUSDT""#)));
    assert_eq!(get("Price"), Some(val("42000.5")));
}

#[test]
fn base_screener_parse_rows_rejects_bad_shape() {
    let columns: Vec<(String, String)> = vec![("name".into(), "Name".into())];
    let err = parse_rows(&js("{}"), &columns).unwrap_err();
    assert!(matches!(err, TvscreenerError::Json(_)));
}

#[test]
fn columns_to_request_skips_candlestick_adds_update_mode() {
    let fields = vec![
        FieldDef::new("Name", "name"),
        FieldDef {
            label: "Pattern".into(),
            field_name: "candlestick_doji".into(),
            format: None,
            interval: false,
            historical: false,
        },
        FieldDef {
            label: "RSI".into(),
            field_name: "RSI".into(),
            format: Some("recommendation".into()),
            interval: true,
            historical: true,
        },
    ];
    let cols = get_columns_to_request(&fields);
    assert!(cols.iter().any(|(t, _)| t == "update_mode"));
    assert!(!cols.iter().any(|(t, _)| t.starts_with("candlestick")));
    assert!(cols.iter().any(|(t, _)| t == "Rec.RSI"));
    assert!(cols.iter().any(|(t, _)| t == "RSI[1]"));
}

#[test]
fn set_symbols_appears_in_payload() {
    let mut s = Screener::new("forex".to_string());
    s.select(name_field())
        .set_symbols(js(r#"{ "query": { "types": ["forex"] }, "tickers": [] }"#));
    let payload = to_serde(&s.build_payload().unwrap());
    assert_eq!(payload["symbols"]["query"]["types"], val(r#"["forex"]"#));
}

#[test]
fn errors_display_variants() {
    let http = TvscreenerError::HttpStatus {
        status: 400,
        body: "bad".into(),
    };
    assert!(http.message().contains("400"));
    assert!(TvscreenerError::Timeout.message().contains("timed out"));
    assert!(TvscreenerError::Network("x".into()).message().contains("network"));
    assert!(TvscreenerError::Json("x".into()).message().contains("JSON"));
    assert!(TvscreenerError::InvalidRequest("x".into())
        .message()
        .contains("invalid"));
    assert!(TvscreenerError::InvalidFieldName("nope".into())
        .message()
        .contains("invalid field name"));
}

#[test]
fn golden_stock_markets_america() {
    let mut s = Screener::new("global".to_string());
    s.select(name_field())
        .set_markets(vec!["america".to_string()])
        .set_range(0, 25);
    let payload = to_serde(&s.build_payload().expect("payload"));
    assert_eq!(payload["markets"], val(r#"["america"]"#));
    assert_eq!(payload["range"], val("[0, 25]"));
    assert_eq!(payload["options"]["lang"], val(r#""en""#));
}

#[test]
fn golden_stock_set_index_sp500() {
    let mut s = Screener::new("global".to_string());
    s.select(name_field())
        .set_index(vec!["SP;SPX".to_string()])
        .set_range(0, 10);
    let payload = to_serde(&s.build_payload().expect("payload"));
    assert_eq!(payload["symbols"], val(r#"{ "symbolset": ["SYML:SP;SPX"] }"#));
}

#[test]
fn golden_stock_set_index_multi() {
    let mut s = Screener::new("global".to_string());
    s.select(name_field())
        .set_index(vec!["SP;SPX".to_string(), "NASDAQ;NDX".to_string()]);
    let payload = to_serde(&s.build_payload().expect("payload"));
    assert_eq!(
        payload["symbols"]["symbolset"],
        val(r#"["SYML:SP;SPX", "SYML:NASDAQ;NDX"]"#)
    );
}

#[test]
fn golden_stock_set_index_syml_idempotent() {
    let mut s = Screener::new("global".to_string());
    s.select(name_field()).set_index(vec!["SYML:SP;SPX".to_string()]);
    let payload = to_serde(&s.build_payload().expect("payload"));
    assert_eq!(payload["symbols"], val(r#"{ "symbolset": ["SYML:SP;SPX"] }"#));
}

#[test]
fn golden_filter_merge_promotes_in_range() {
    let mut s = Screener::new("global".to_string());
    s.select(name_field())
        .add_filter("type".to_string(), FilterOperator::Equal, vec![js(r#""stock""#)])
        .unwrap()
        .add_filter("type".to_string(), FilterOperator::Equal, vec![js(r#""fund""#)])
        .unwrap();
    let payload = to_serde(&s.build_payload().expect("payload"));
    let type_filter = payload["filter"]
        .as_array()
        .unwrap()
        .iter()
        .find(|f| f["left"] == "type")
        .expect("type filter")
        .clone();
    assert_eq!(type_filter["operation"], "in_range");
    assert_eq!(type_filter["right"], val(r#"["stock", "fund"]"#));
}

#[test]
fn get_url_uses_scanner_origin() {
    assert!(get_url("crypto").starts_with(SCANNER_ORIGIN));
}

#[test]
fn screener_builder_and_headers() {
    let mut s = Screener::new("crypto".to_string());
    s.select(name_field()).set_range(0, 10);
    assert_eq!(s.selected_fields().len(), 1);
    assert_eq!(s.range(), (0, 10));
}
