use tvscreener::error::TvscreenerError;
use tvscreener::field::{to_symbolset_wire, Asset, FieldDef};
use tvscreener::filter::FilterOperator;
use tvscreener::format::{format_list_filter_operators, join_strings};
use tvscreener::json::{json_eq, JsonValue};
use tvscreener::logging::{debug_value_enabled, default_log_directive};
use tvscreener::regen::{
    asset_part, default_body_from_captures, group1_of, index_members_from_captures,
    rating_members_from_captures, string_members_from_captures, doc_label, enum_class_body, f64_literal_text, fields_to_json, named_str_source, parse_defaults,
    parse_fields, parse_index_symbols, parse_rating_members, parse_string_enum, pick_defaults,
    rust_escape, write_header,
};
use tvscreener::render::{format_row, format_rows_markdown, sorted_unique, RenderedRow};
use tvscreener::resolve::{parse_asset, parse_csv, parse_filter_op};
use tvscreener::query::{filters_from_parsed, parse_filters_arg};
use tvscreener::screener::{decode_response, stream_should_poll, truncate_http_body, Screener};
use tvscreener::screens::{top_movers_kind, top_movers_text};
use tvscreener::sort::sort_strings;
use tvscreener::text::{dec_string, to_const_form, trim};
use tvscreener::util::{add_historical, add_rec, format_timed_field, get_columns_to_request};

const FIELD_MODULE: &str = r#"
class CryptoField(Field):
    NAME = 'Name', 'name'
    PRICE = "Price", "close", 'currency'
    CHANGE_1W = 'Change 1W', 'change|1W', None, True
    RSI = 'Relative Strength Index', 'RSI', 'float', True, True
    PRICE = 'Last', 'close'

DEFAULT_CRYPTO_FIELDS = [CryptoField.NAME, CryptoField.PRICE, CryptoField.MISSING]
"#;

const INIT_MODULE: &str = r#"
class Market(Enum):
    AMERICA = 'america'
    ALL = "all"  # every market

class IndexSymbol(Enum):
    SP500 = ("SP;SPX", "S&P 500")
    NASDAQ_100 = ("NASDAQ;NDX", "Nasdaq 100")

class Rating(Enum):
    STRONG_BUY = 0.5, 1, 'Strong Buy'
    UNKNOWN = float('nan'), float('nan'), "Unknown"
"#;

#[test]
fn parse_fields_keeps_last_declaration_in_name_order() {
    let fields = parse_fields(FIELD_MODULE);
    let names: Vec<&str> = fields.iter().map(|(n, _)| n.as_str()).collect();
    assert_eq!(names, vec!["CHANGE_1W", "NAME", "PRICE", "RSI"]);
    let price = &fields[2].1;
    assert_eq!(price.label, "Last");
    assert_eq!(price.field_name, "close");
    assert_eq!(price.format, None);
    let change = &fields[0].1;
    assert_eq!(change.format, None);
    assert!(change.interval);
    assert!(!change.historical);
    let rsi = &fields[3].1;
    assert_eq!(rsi.format.as_deref(), Some("float"));
    assert!(rsi.interval && rsi.historical);
}

#[test]
fn parse_defaults_reads_class_members() {
    assert_eq!(
        parse_defaults(FIELD_MODULE, "crypto"),
        vec!["NAME", "PRICE", "MISSING"]
    );
    assert!(parse_defaults(FIELD_MODULE, "stock").is_empty());
    assert!(parse_defaults(FIELD_MODULE, "nope").is_empty());
}

#[test]
fn pick_defaults_keeps_known_fields_then_falls_back() {
    let fields = parse_fields(FIELD_MODULE);
    let parsed = parse_defaults(FIELD_MODULE, "crypto");
    let none = JsonValue::Object(Vec::new());
    assert_eq!(pick_defaults(&parsed, &fields, &none, "crypto"), vec!["NAME", "PRICE"]);
    let previous = JsonValue::Object(vec![(
        "defaults".into(),
        JsonValue::Object(vec![(
            "crypto".into(),
            JsonValue::Array(vec![JsonValue::Str("RSI".into()), JsonValue::Str("GONE".into())]),
        )]),
    )]);
    assert_eq!(pick_defaults(&Vec::new(), &fields, &previous, "crypto"), vec!["RSI"]);
    assert_eq!(
        pick_defaults(&Vec::new(), &fields, &none, "crypto"),
        vec!["CHANGE_1W", "NAME", "PRICE", "RSI"]
    );
}

#[test]
fn asset_part_parses_fields_and_picks_defaults() {
    let none = JsonValue::Object(Vec::new());
    let part = asset_part("crypto", FIELD_MODULE, &none);
    assert_eq!(part.asset, "crypto");
    let names: Vec<&str> = part.fields.iter().map(|(n, _)| n.as_str()).collect();
    assert_eq!(names, vec!["CHANGE_1W", "NAME", "PRICE", "RSI"]);
    assert_eq!(part.defaults, vec!["NAME", "PRICE"]);
    let other = asset_part("stock", FIELD_MODULE, &none);
    assert_eq!(other.defaults, vec!["CHANGE_1W", "NAME", "PRICE", "RSI"]);
}

#[test]
fn enum_class_body_stops_at_next_class() {
    let body = enum_class_body(INIT_MODULE, "Market");
    assert_eq!(body, "    AMERICA = 'america'\n    ALL = \"all\"  # every market\n");
    assert_eq!(enum_class_body(INIT_MODULE, "Sector"), "");
}

#[test]
fn parse_string_enum_and_index_symbols() {
    let markets = parse_string_enum(INIT_MODULE, "Market");
    assert_eq!(markets.len(), 2);
    assert_eq!(markets[0].get("const").and_then(JsonValue::as_str), Some("AMERICA"));
    assert_eq!(markets[1].get("value").and_then(JsonValue::as_str), Some("all"));
    let idx = parse_index_symbols(INIT_MODULE);
    assert_eq!(idx.len(), 2);
    assert_eq!(idx[0].get("value").and_then(JsonValue::as_str), Some("SP;SPX"));
    assert_eq!(idx[0].get("label").and_then(JsonValue::as_str), Some("S&P 500"));
}

#[test]
fn parse_rating_members_keeps_raw_bounds() {
    let r = parse_rating_members(INIT_MODULE);
    assert_eq!(r.len(), 2);
    assert_eq!(r[0].const_name, "STRONG_BUY");
    assert_eq!(r[0].min_raw, "0.5");
    assert_eq!(r[0].label, "Strong Buy");
    assert_eq!(r[1].label, "Unknown");
}

#[test]
fn rust_escape_and_doc_label() {
    assert_eq!(rust_escape(r#"a"b\c"#), r#"a\"b\\c"#);
    assert_eq!(doc_label("Price to Earnings */ TradingView"), "Price to Earnings * / `TradingView`");
    assert_eq!(doc_label("Volume"), "Volume");
}

#[test]
fn f64_literals() {
    assert_eq!(f64_literal_text(None), "f64::NAN");
    assert_eq!(f64_literal_text(Some("1")), "1.0");
    assert_eq!(f64_literal_text(Some("0.5")), "0.5");
    assert_eq!(f64_literal_text(Some("1e300")), "1e300");
}

#[test]
fn named_source_lists_constants() {
    let entries = vec![JsonValue::Object(vec![
        ("const".into(), JsonValue::Str("TECHNOLOGY_SERVICES".into())),
        ("value".into(), JsonValue::Str("Technology Services".into())),
    ])];
    let text = named_str_source(&entries, "sector");
    let header = write_header().join("\n");
    assert!(text.starts_with(&header));
    assert!(text.contains("/// Technology Services (`Technology Services`).\n"));
    assert!(text.contains("pub const TECHNOLOGY_SERVICES: &str = \"Technology Services\";\n"));
    assert!(text.contains("/// All known sector constant names.\n"));
    assert!(text.ends_with("    \"TECHNOLOGY_SERVICES\",\n];\n\n"));
}

#[test]
fn fields_json_has_sorted_members() {
    let fields = parse_fields(FIELD_MODULE);
    let doc = fields_to_json(&fields);
    let rsi = doc.get("RSI").expect("RSI");
    match rsi {
        JsonValue::Object(members) => {
            let keys: Vec<&str> = members.iter().map(|(k, _)| k.as_str()).collect();
            assert_eq!(keys, vec!["field_name", "format", "historical", "interval", "label"]);
        }
        other => panic!("unexpected {other:?}"),
    }
}

#[test]
fn parse_csv_trims_and_drops_empty() {
    assert_eq!(parse_csv(Some(" NAME , ,PRICE,")), vec!["NAME", "PRICE"]);
    assert!(parse_csv(None).is_empty());
    assert!(parse_csv(Some("  ")).is_empty());
}

#[test]
fn parse_asset_error_message() {
    match parse_asset("nope") {
        Err(TvscreenerError::InvalidRequest(m)) => assert_eq!(m, "unknown asset_type `nope`"),
        other => panic!("unexpected {other:?}"),
    }
    for a in [Asset::Crypto, Asset::Stock, Asset::Forex, Asset::Bond, Asset::Futures, Asset::Coin] {
        assert_eq!(Asset::parse(a.as_str()), Some(a));
    }
}

#[test]
fn documented_operators_all_parse() {
    let text = format_list_filter_operators();
    for op in [">=", ">", "<=", "<", "==", "!=", "match", "in_range", "not_in_range", "crosses", "crosses_up", "crosses_down"] {
        assert!(text.contains(&format!("- **{op}**: ")));
        assert!(parse_filter_op(op).is_some());
    }
    assert_eq!(parse_filter_op("!="), Some(FilterOperator::NotEqual));
    assert_eq!(parse_filter_op("crosses_up"), Some(FilterOperator::CrossesUp));
    assert_eq!(parse_filter_op("greater"), None);
}

#[test]
fn wire_roundtrip_every_operator() {
    for op in [
        FilterOperator::Below,
        FilterOperator::BelowOrEqual,
        FilterOperator::Above,
        FilterOperator::AboveOrEqual,
        FilterOperator::Crosses,
        FilterOperator::CrossesUp,
        FilterOperator::CrossesDown,
        FilterOperator::InRange,
        FilterOperator::NotInRange,
        FilterOperator::Equal,
        FilterOperator::NotEqual,
        FilterOperator::Match,
    ] {
        assert_eq!(FilterOperator::from_wire(op.as_str()), Some(op));
    }
}

#[test]
fn symbolset_wire_is_idempotent() {
    let once = to_symbolset_wire("NASDAQ;NDX");
    assert_eq!(once, "SYML:NASDAQ;NDX");
    assert_eq!(to_symbolset_wire(&once), once);
}

#[test]
fn format_row_sorts_parts_without_labels() {
    let row = RenderedRow {
        symbol: "BINANCE:BTCUSDT".into(),
        cells: vec![
            ("Volume".into(), "1.500M".into()),
            ("Name".into(), "BTC".into()),
        ],
    };
    assert_eq!(format_row(&row, None), "BINANCE:BTCUSDT  Name: BTC, Volume: 1.500M");
    let labels = vec!["Volume".to_string(), "Missing".to_string(), "Name".to_string()];
    assert_eq!(
        format_row(&row, Some(&labels)),
        "BINANCE:BTCUSDT  Volume: 1.500M, Name: BTC"
    );
}

#[test]
fn markdown_table_columns_sorted_unique() {
    let rows = vec![
        RenderedRow {
            symbol: "A".into(),
            cells: vec![("Price".into(), "1".into()), ("Name".into(), "a".into())],
        },
        RenderedRow {
            symbol: "B".into(),
            cells: vec![("Name".into(), "b".into())],
        },
    ];
    assert_eq!(
        format_rows_markdown(&rows, 5),
        "| Symbol | Name | Price |\n| --- | --- | --- |\n| A | a | 1 |\n| B | b | -- |\n"
    );
    assert_eq!(
        format_rows_markdown(&rows, 1),
        "| Symbol | Name | Price |\n| --- | --- | --- |\n| A | a | 1 |\n"
    );
    let wide = vec![RenderedRow {
        symbol: "W".into(),
        cells: (0..15).map(|i| (format!("c{i:02}"), i.to_string())).collect(),
    }];
    let table = format_rows_markdown(&wide, 1);
    assert!(table.contains("| c11 |\n"));
    assert!(!table.contains("c12"));
}

#[test]
fn sorted_unique_and_sort() {
    let v = sorted_unique(vec!["b".into(), "a".into(), "b".into(), "c".into()]);
    assert_eq!(v, vec!["a", "b", "c"]);
    let s = sort_strings(vec!["pear".into(), "apple".into(), "Zed".into()]);
    assert_eq!(s, vec!["Zed", "apple", "pear"]);
}

#[test]
fn join_and_text_helpers() {
    assert_eq!(join_strings(&vec!["a".into(), "b".into()], ", "), "a, b");
    assert_eq!(join_strings(&Vec::new(), ", "), "");
    assert_eq!(trim("\t x y \n"), "x y");
    assert_eq!(to_const_form("technology services"), "TECHNOLOGY_SERVICES");
    assert_eq!(dec_string(0), "0");
    assert_eq!(dec_string(4096), "4096");
}

#[test]
fn debug_values() {
    for v in ["1", "true", " YES ", "On"] {
        assert!(debug_value_enabled(v), "{v}");
    }
    for v in ["0", "no", "", "truthy"] {
        assert!(!debug_value_enabled(v), "{v}");
    }
    assert_eq!(default_log_directive(true), "tvscreener=debug,info");
    assert_eq!(default_log_directive(false), "info");
}

#[test]
fn top_movers_kind_and_title() {
    assert_eq!(top_movers_kind("CRYPTO", "Losers"), (true, true));
    assert_eq!(top_movers_kind("stock", "gainers"), (false, false));
    assert_eq!(top_movers_text(true, "T"), "Top Losers:\n\nT");
    assert_eq!(top_movers_text(false, ""), "Top Gainers:\n\n");
}

#[test]
fn truncate_http_body_cuts_at_4096_bytes() {
    let short = "x".repeat(10);
    assert_eq!(truncate_http_body(short.clone()), short);
    let long = "y".repeat(5000);
    let cut = truncate_http_body(long);
    assert_eq!(cut.len(), 4096 + '…'.len_utf8());
    assert!(cut.ends_with('…'));
}

#[test]
fn truncate_http_body_cuts_at_a_character_boundary() {
    // 4095 ASCII bytes then a 2-byte character straddling byte 4096.
    let body = format!("{}é{}", "a".repeat(4095), "b".repeat(100));
    let cut = truncate_http_body(body);
    assert_eq!(cut, format!("{}…", "a".repeat(4095)));
    let errs = decode_response(500, format!("{}é", "a".repeat(4095)), &Vec::new());
    match errs {
        Err(TvscreenerError::HttpStatus { body, .. }) => assert_eq!(body, format!("{}…", "a".repeat(4095))),
        other => panic!("unexpected: {other:?}"),
    }
}

#[test]
fn columns_and_labels_formulas() {
    assert_eq!(add_historical("RSI", 1), "RSI[1]");
    assert_eq!(add_rec("RSI"), "Rec.RSI");
    assert_eq!(format_timed_field("change.60"), "change|60");
    let fields = vec![FieldDef::new("Name", "name")];
    let cols = get_columns_to_request(&fields);
    assert_eq!(cols[0], ("name".to_string(), "Name".to_string()));
    assert!(cols.iter().any(|(t, _)| t == "update_mode"));
}

#[test]
fn remove_after_fresh_add_restores_filters() {
    let mut s = Screener::new("crypto".to_string());
    s.add_filter("close".to_string(), FilterOperator::Above, vec![JsonValue::Number("1".into())])
        .unwrap();
    s.add_filter("volume".to_string(), FilterOperator::Above, vec![JsonValue::Number("2".into())])
        .unwrap();
    s.remove_filter("volume");
    assert_eq!(s.filters().len(), 1);
    assert_eq!(s.filters()[0].left, "close");
}

#[test]
fn adding_same_filter_twice_changes_nothing() {
    let mut s = Screener::new("crypto".to_string());
    let v = || vec![JsonValue::Str("stock".into())];
    s.add_filter("type".to_string(), FilterOperator::Equal, v()).unwrap();
    s.add_filter("type".to_string(), FilterOperator::Equal, v()).unwrap();
    assert_eq!(s.filters().len(), 1);
    assert_eq!(s.filters()[0].operation, FilterOperator::Equal);
    assert_eq!(s.filters()[0].values.len(), 1);
    assert!(json_eq(&s.filters()[0].values[0], &JsonValue::Str("stock".into())));
}

#[test]
fn error_messages_exact() {
    assert_eq!(
        TvscreenerError::HttpStatus { status: 404, body: "nf".into() }.message(),
        "HTTP 404: nf"
    );
    assert_eq!(TvscreenerError::Timeout.message(), "request timed out");
    assert_eq!(TvscreenerError::InvalidFieldName("x".into()).message(), "invalid field name: x");
}

#[test]
fn filters_arg_reads_arrays_objects_and_blanks() {
    let items = parse_filters_arg(Some(r#" [{"field":"PRICE","op":">","value":50}, {"field":"RSI"}] "#)).unwrap();
    assert_eq!(items.len(), 2);
    assert!(json_eq(&items[1], &JsonValue::Object(vec![("field".to_string(), JsonValue::Str("RSI".to_string()))])));
    let one = parse_filters_arg(Some(r#"{"field":"PRICE","op":"<","value":1.5}"#)).unwrap();
    assert_eq!(one.len(), 1);
    match &one[0] {
        JsonValue::Object(es) => {
            assert_eq!(es.len(), 3);
            assert!(es.iter().any(|(k, v)| k == "value" && json_eq(v, &JsonValue::Number("1.5".to_string()))));
        }
        other => panic!("unexpected: {other:?}"),
    }
    assert!(parse_filters_arg(None).unwrap().is_empty());
    assert!(parse_filters_arg(Some("   ")).unwrap().is_empty());
}

#[test]
fn filters_arg_rejects_scalars_and_bad_json() {
    match parse_filters_arg(Some("42")) {
        Err(TvscreenerError::InvalidRequest(m)) => {
            assert_eq!(m, "filters must be a JSON array or object, got 42")
        }
        other => panic!("unexpected: {other:?}"),
    }
    match parse_filters_arg(Some(r#""x\"y""#)) {
        Err(TvscreenerError::InvalidRequest(m)) => {
            assert_eq!(m, r#"filters must be a JSON array or object, got "x\"y""#)
        }
        other => panic!("unexpected: {other:?}"),
    }
    match parse_filters_arg(Some("[1,")) {
        Err(TvscreenerError::InvalidRequest(m)) => assert!(m.starts_with("filters JSON: "), "{m}"),
        other => panic!("unexpected: {other:?}"),
    }
    match filters_from_parsed(Ok(JsonValue::Null)) {
        Err(TvscreenerError::InvalidRequest(m)) => {
            assert_eq!(m, "filters must be a JSON array or object, got null")
        }
        other => panic!("unexpected: {other:?}"),
    }
    match filters_from_parsed(Err("bad".to_string())) {
        Err(TvscreenerError::InvalidRequest(m)) => assert_eq!(m, "filters JSON: bad"),
        other => panic!("unexpected: {other:?}"),
    }
    let arr = filters_from_parsed(Ok(JsonValue::Array(vec![JsonValue::Bool(true)]))).unwrap();
    assert_eq!(arr.len(), 1);
}

fn cols(pairs: &[(&str, &str)]) -> Vec<(String, String)> {
    pairs.iter().map(|(a, b)| (a.to_string(), b.to_string())).collect()
}

#[test]
fn decode_response_reads_rows() {
    let columns = cols(&[("name", "Name"), ("close", "Price")]);
    let body = r#"{"totalCount":1,"data":[{"s":"BINANCE:BTCUSD","d":["Bitcoin",42000.5]}]}"#;
    let rows = decode_response(200, body.to_string(), &columns).unwrap();
    assert_eq!(rows.len(), 1);
    assert_eq!(rows[0].symbol, "BINANCE:BTCUSD");
    assert_eq!(rows[0].data.len(), 2);
    assert_eq!(rows[0].data[0].0, "Name");
    assert!(json_eq(&rows[0].data[0].1, &JsonValue::Str("Bitcoin".to_string())));
    assert_eq!(rows[0].data[1].0, "Price");
    assert!(json_eq(&rows[0].data[1].1, &JsonValue::Number("42000.5".to_string())));
}

#[test]
fn decode_response_reports_status_and_json_errors() {
    let columns = cols(&[("name", "Name")]);
    match decode_response(503, "busy".to_string(), &columns) {
        Err(TvscreenerError::HttpStatus { status, body }) => {
            assert_eq!(status, 503);
            assert_eq!(body, "busy");
        }
        other => panic!("unexpected: {other:?}"),
    }
    match decode_response(500, "x".repeat(5000), &columns) {
        Err(TvscreenerError::HttpStatus { body, .. }) => {
            assert_eq!(body, format!("{}…", "x".repeat(4096)))
        }
        other => panic!("unexpected: {other:?}"),
    }
    assert!(matches!(
        decode_response(200, "not json".to_string(), &columns),
        Err(TvscreenerError::Json(_))
    ));
    match decode_response(200, "{}".to_string(), &columns) {
        Err(TvscreenerError::Json(m)) => assert_eq!(m, "response missing data array"),
        other => panic!("unexpected: {other:?}"),
    }
}

#[test]
fn json_eq_ignores_object_member_order() {
    let ab = JsonValue::Object(vec![
        ("a".to_string(), JsonValue::Number("1".to_string())),
        ("b".to_string(), JsonValue::Array(vec![JsonValue::Bool(true)])),
    ]);
    let ba = JsonValue::Object(vec![
        ("b".to_string(), JsonValue::Array(vec![JsonValue::Bool(true)])),
        ("a".to_string(), JsonValue::Number("1".to_string())),
    ]);
    assert!(json_eq(&ab, &ba));
    let other = JsonValue::Object(vec![("a".to_string(), JsonValue::Number("2".to_string()))]);
    assert!(!json_eq(&ab, &other));
    assert!(!json_eq(&JsonValue::Array(vec![ab.clone()]), &JsonValue::Array(vec![other.clone()])));
    // Merging the same object value in another member order adds nothing.
    let mut s = Screener::new("crypto".to_string());
    s.add_filter("x".to_string(), FilterOperator::Equal, vec![ab]).unwrap();
    s.add_filter("x".to_string(), FilterOperator::Equal, vec![ba]).unwrap();
    assert_eq!(s.filters().len(), 1);
    assert_eq!(s.filters()[0].values.len(), 1);
    assert_eq!(s.filters()[0].operation, FilterOperator::Equal);
}

fn caps(rows: &[&[Option<&str>]]) -> Vec<Vec<Option<String>>> {
    rows.iter().map(|r| r.iter().map(|g| g.map(|s| s.to_string())).collect()).collect()
}

#[test]
fn regen_reads_matches_it_is_handed() {
    let c = caps(&[
        &[Some("ALL = 'all'"), Some("ALL"), Some("all"), None],
        &[Some("US = \"america\""), Some("US"), None, Some("america")],
    ]);
    let members = string_members_from_captures(&c);
    assert_eq!(members.len(), 2);
    assert!(json_eq(
        &members[1],
        &JsonValue::Object(vec![
            ("const".to_string(), JsonValue::Str("US".to_string())),
            ("value".to_string(), JsonValue::Str("america".to_string())),
        ])
    ));
    let idx = caps(&[&[Some("SP500 = ..."), Some("SP500"), Some("SP;SPX"), Some("S&P 500")]]);
    let symbols = index_members_from_captures(&idx);
    assert!(json_eq(
        &symbols[0],
        &JsonValue::Object(vec![
            ("const".to_string(), JsonValue::Str("SP500".to_string())),
            ("label".to_string(), JsonValue::Str("S&P 500".to_string())),
            ("value".to_string(), JsonValue::Str("SP;SPX".to_string())),
        ])
    ));
    let rating = caps(&[&[Some("BUY = ..."), Some("BUY"), Some("0.1"), Some("0.5"), None, Some("Buy")]]);
    let r = rating_members_from_captures(&rating);
    assert_eq!(r.len(), 1);
    assert_eq!((r[0].const_name.as_str(), r[0].min_raw.as_str(), r[0].max_raw.as_str(), r[0].label.as_str()), ("BUY", "0.1", "0.5", "Buy"));
    let lists = caps(&[
        &[Some("DEFAULT_STOCK_FIELDS = [..]"), Some("STOCK"), Some("StockField.NAME")],
        &[Some("DEFAULT_CRYPTO_FIELDS = [..]"), Some("CRYPTO"), Some("CryptoField.PRICE, CryptoField.NAME")],
    ]);
    assert_eq!(default_body_from_captures(&lists, "CRYPTO").as_deref(), Some("CryptoField.PRICE, CryptoField.NAME"));
    assert_eq!(default_body_from_captures(&lists, "COIN"), None);
    let names = caps(&[&[Some("CryptoField.PRICE"), Some("PRICE")], &[Some("x"), None], &[Some("CryptoField.NAME"), Some("NAME")]]);
    assert_eq!(group1_of(&names), vec!["PRICE", "NAME"]);
}

#[test]
fn stream_polls_until_the_bound() {
    assert!(stream_should_poll(0, Some(2)));
    assert!(stream_should_poll(1, Some(2)));
    assert!(!stream_should_poll(2, Some(2)));
    assert!(!stream_should_poll(0, Some(0)));
    assert!(stream_should_poll(1_000_000, None));
}

#[test]
fn scan_request_needs_fields_and_carries_payload_and_columns() {
    let s = Screener::new("crypto".to_string());
    match s.scan_request() {
        Err(TvscreenerError::InvalidRequest(m)) => assert_eq!(m, "no fields selected; call select() or select_all()"),
        other => panic!("unexpected: {}", other.is_ok()),
    }
    let mut s = Screener::new("crypto".to_string());
    s.select(vec![FieldDef::new("Name", "name")]);
    let q = s.scan_request().unwrap();
    assert_eq!(q.url, "https://scanner.tradingview.com/crypto/scan");
    assert_eq!(q.columns, vec![
        ("name".to_string(), "Name".to_string()),
        ("update_mode".to_string(), "Update Mode".to_string()),
    ]);
    assert!(json_eq(&q.payload, &s.build_payload().unwrap()));
}
