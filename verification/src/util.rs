//! URL helpers, status checks, and column-name utilities.
use vstd::prelude::*;
use crate::field::{FieldDef, has_rec_spec};
use crate::text::{
    all_ascii_digits, cat, cat3, chars_of, dec_seq, dec_string, first_pos, own, push_char,
    replace_char, replace_seq, split_once_char, starts_with, str_eq,
};

verus! {

/// Base URL for scan endpoints: `{SCANNER_ORIGIN}/{subtype}/scan`.
pub const SCANNER_ORIGIN: &'static str = "https://scanner.tradingview.com";

/// `Origin` header value.
pub const TRADINGVIEW_ORIGIN: &'static str = "https://www.tradingview.com";

/// `Referer` header value (`TRADINGVIEW_ORIGIN` + trailing `/`).
pub const TRADINGVIEW_REFERER: &'static str = "https://www.tradingview.com/";

/// Default HTTP timeout for screener POSTs (seconds).
pub const DEFAULT_TIMEOUT_SECS: u64 = 30;

/// Default `User-Agent` for scanner POSTs.
pub const DEFAULT_USER_AGENT: &'static str = "Mozilla/5.0 (Windows NT 10.0; Win64; x64) AppleWebKit/537.36 (KHTML, like Gecko) Chrome/120.0.0.0 Safari/537.36";

/// The scan URL for a subtype.
pub open spec fn url_spec(subtype: Seq<char>) -> Seq<char> {
    "https://scanner.tradingview.com"@ + "/"@ + subtype + "/scan"@
}

/// Builds the scan URL for a screener subtype (`"crypto"`, `"global"`, …).
pub fn get_url(subtype: &str) -> (r: String)
    ensures
        r@ == url_spec(subtype@),
{
    let mut r = cat3("https://scanner.tradingview.com", "/", subtype);
    r.append("/scan");
    r
}

/// Whether `status` is in the HTTP 2xx range.
pub fn is_status_code_ok(status: u16) -> (r: bool)
    ensures
        r == (200 <= status < 300),
{
    200 <= status && status < 300
}

/// Appends a historical lookback suffix: `field[n]`.
pub fn add_historical(field_name: &str, historical: u32) -> (r: String)
    ensures
        r@ == field_name@ + "["@ + dec_seq(historical as nat) + "]"@,
{
    let mut r = cat(field_name, "[");
    let d = dec_string(historical as u64);
    r.append(d.as_str());
    r.append("]");
    r
}

/// The label of a historical column.
pub open spec fn historical_label_spec(label: Seq<char>, historical: u32) -> Seq<char> {
    if historical == 1 {
        "Prev. "@ + label
    } else {
        "Prev. "@ + dec_seq(historical as nat) + " "@ + label
    }
}

/// Label for a historical column: `Prev. label` or `Prev. n label`.
pub fn add_historical_to_label(label: &str, historical: u32) -> (r: String)
    ensures
        r@ == historical_label_spec(label@, historical),
{
    if historical == 1 {
        cat("Prev. ", label)
    } else {
        let mut r = own("Prev. ");
        let d = dec_string(historical as u64);
        r.append(d.as_str());
        r.append(" ");
        r.append(label);
        r
    }
}

/// Recommendation companion column key: `Rec.field`.
pub fn add_rec(field_name: &str) -> (r: String)
    ensures
        r@ == "Rec."@ + field_name@,
{
    cat("Rec.", field_name)
}

/// Recommendation companion column label: `Reco. label`.
pub fn add_rec_to_label(label: &str) -> (r: String)
    ensures
        r@ == "Reco. "@ + label@,
{
    cat("Reco. ", label)
}

/// Whether every character is an ASCII digit.
pub open spec fn all_digits(s: Seq<char>) -> bool {
    forall|j: int| 0 <= j < s.len() ==> '0' <= #[trigger] s[j] && s[j] <= '9'
}

/// The wire form of a timed field name: `change.15` → `change|15`.
///
/// Only names starting with `change` or `relative_volume_intraday` that hold
/// a `.` are rewritten, and only when the text after the first `.` is all
/// digits, `1W` or `1M`; then every `.` becomes `|`.
pub open spec fn timed_spec(f: Seq<char>) -> Seq<char> {
    if ("change"@.is_prefix_of(f) || "relative_volume_intraday"@.is_prefix_of(f)) && f.contains(
        '.',
    ) {
        let i = choose|i: int| first_pos(f, '.', i);
        let num = f.skip(i + 1);
        if all_digits(num) || num == "1W"@ || num == "1M"@ {
            replace_seq(f, '.', '|')
        } else {
            f
        }
    } else {
        f
    }
}

/// Rewrites timed field names for the wire format.
pub fn format_timed_field(field_name: &str) -> (r: String)
    ensures
        r@ == timed_spec(field_name@),
{
    if starts_with(field_name, "change") || starts_with(field_name, "relative_volume_intraday") {
        match split_once_char(field_name, '.') {
            Some((_, num)) => {
                proof {
                    let i = choose|i: int|
                        first_pos(field_name@, '.', i) && num@ == field_name@.skip(i + 1);
                    let c = choose|c: int| first_pos(field_name@, '.', c);
                    assert(first_pos(field_name@, '.', i));
                    if c < i {
                        assert(field_name@[c] != '.');
                    } else if i < c {
                        assert(field_name@[i] != '.');
                    }
                    assert(field_name@.contains('.'));
                }
                let nv = chars_of(num.as_str());
                if all_ascii_digits(&nv) || str_eq(num.as_str(), "1W") || str_eq(
                    num.as_str(),
                    "1M",
                ) {
                    return replace_char(field_name, '.', '|');
                }
            },
            None => {},
        }
    }
    own(field_name)
}

/// One requested column: `(technical name, label)`.
pub type Column = (Seq<char>, Seq<char>);

/// The technical names of a column list.
pub open spec fn techs(cols: Seq<Column>) -> Seq<Seq<char>> {
    cols.map_values(|c: Column| c.0)
}

/// Adds a column unless its technical name is already requested.
pub open spec fn add_col(cols: Seq<Column>, tech: Seq<char>, label: Seq<char>) -> Seq<Column> {
    if techs(cols).contains(tech) {
        cols
    } else {
        cols.push((tech, label))
    }
}

/// First pass: the timed technical name of each field, skipping `candlestick*` fields.
pub open spec fn pass_fields(fs: Seq<FieldDef>) -> Seq<Column>
    decreases fs.len(),
{
    if fs.len() == 0 {
        Seq::empty()
    } else {
        let p = pass_fields(fs.drop_last());
        let f = fs.last();
        if "candlestick"@.is_prefix_of(f.field_name@) {
            p
        } else {
            add_col(p, timed_spec(f.field_name@), f.label@)
        }
    }
}

/// Second pass: a `Rec.` companion column for each recommendation field.
pub open spec fn pass_rec(fs: Seq<FieldDef>, base: Seq<Column>) -> Seq<Column>
    decreases fs.len(),
{
    if fs.len() == 0 {
        base
    } else {
        let p = pass_rec(fs.drop_last(), base);
        let f = fs.last();
        if has_rec_spec(f) {
            add_col(p, "Rec."@ + f.field_name@, "Reco. "@ + f.label@)
        } else {
            p
        }
    }
}

/// Third pass: a `[1]` lookback column for each historical field.
pub open spec fn pass_hist(fs: Seq<FieldDef>, base: Seq<Column>) -> Seq<Column>
    decreases fs.len(),
{
    if fs.len() == 0 {
        base
    } else {
        let p = pass_hist(fs.drop_last(), base);
        let f = fs.last();
        if f.historical {
            add_col(p, f.field_name@ + "["@ + dec_seq(1) + "]"@, historical_label_spec(f.label@, 1))
        } else {
            p
        }
    }
}

/// The `(technical name, label)` pairs requested for a field list.
pub open spec fn columns_spec(fs: Seq<FieldDef>) -> Seq<Column> {
    pass_hist(fs, pass_rec(fs, add_col(pass_fields(fs), "update_mode"@, "Update Mode"@)))
}

/// The views of executable column pairs.
pub open spec fn cols_view(cols: Seq<(String, String)>) -> Seq<Column> {
    cols.map_values(|c: (String, String)| (c.0@, c.1@))
}

/// Whether `tech` is already a requested technical name.
fn has_tech(cols: &Vec<(String, String)>, tech: &str) -> (r: bool)
    ensures
        r == techs(cols_view(cols@)).contains(tech@),
{
    let ghost t = techs(cols_view(cols@));
    let mut i: usize = 0;
    while i < cols.len()
        invariant
            t == techs(cols_view(cols@)),
            i <= cols.len(),
            forall|j: int| 0 <= j < i ==> t[j] != tech@,
        decreases cols.len() - i,
    {
        if str_eq(cols[i].0.as_str(), tech) {
            assert(t[i as int] == tech@);
            return true;
        }
        i = i + 1;
    }
    false
}

/// Appends `(tech, label)` unless `tech` is already requested.
fn push_col(cols: &mut Vec<(String, String)>, tech: String, label: String)
    ensures
        cols_view(final(cols)@) == add_col(cols_view(old(cols)@), tech@, label@),
{
    if !has_tech(cols, tech.as_str()) {
        let ghost prev = cols@;
        let ghost tv = tech@;
        let ghost lv = label@;
        cols.push((tech, label));
        assert(cols_view(cols@) =~= cols_view(prev).push((tv, lv)));
    }
}

/// Assembles the `(technical_name, label)` pairs for a scan payload.
///
/// Each field's timed technical name (skipping `candlestick*` fields), then
/// `update_mode`, then a `Rec.` companion for each recommendation field, then
/// a `[1]` lookback for each historical field; a technical name already
/// requested is not requested again.
pub fn get_columns_to_request(fields: &Vec<FieldDef>) -> (r: Vec<(String, String)>)
    ensures
        cols_view(r@) == columns_spec(fields@),
{
    let mut cols: Vec<(String, String)> = Vec::new();
    let mut i: usize = 0;
    assert(cols_view(cols@) =~= Seq::<Column>::empty());
    while i < fields.len()
        invariant
            i <= fields.len(),
            cols_view(cols@) == pass_fields(fields@.take(i as int)),
        decreases fields.len() - i,
    {
        proof {
            assert(fields@.take(i + 1).drop_last() =~= fields@.take(i as int));
        }
        if !starts_with(fields[i].field_name.as_str(), "candlestick") {
            let tech = format_timed_field(fields[i].field_name.as_str());
            push_col(&mut cols, tech, fields[i].label.clone());
        }
        i = i + 1;
    }
    assert(fields@.take(fields@.len() as int) =~= fields@);
    push_col(&mut cols, own("update_mode"), own("Update Mode"));
    let ghost base1 = cols_view(cols@);
    i = 0;
    while i < fields.len()
        invariant
            i <= fields.len(),
            cols_view(cols@) == pass_rec(fields@.take(i as int), base1),
        decreases fields.len() - i,
    {
        proof {
            assert(fields@.take(i + 1).drop_last() =~= fields@.take(i as int));
        }
        if fields[i].has_recommendation() {
            let tech = add_rec(fields[i].field_name.as_str());
            let label = add_rec_to_label(fields[i].label.as_str());
            push_col(&mut cols, tech, label);
        }
        i = i + 1;
    }
    let ghost base2 = cols_view(cols@);
    i = 0;
    while i < fields.len()
        invariant
            i <= fields.len(),
            cols_view(cols@) == pass_hist(fields@.take(i as int), base2),
        decreases fields.len() - i,
    {
        proof {
            assert(fields@.take(i + 1).drop_last() =~= fields@.take(i as int));
        }
        if fields[i].historical {
            let tech = add_historical(fields[i].field_name.as_str(), 1);
            let label = add_historical_to_label(fields[i].label.as_str(), 1);
            push_col(&mut cols, tech, label);
        }
        i = i + 1;
    }
    cols
}

/// Adding a column keeps technical names distinct and keeps every name already requested.
pub proof fn lemma_add_col(cols: Seq<Column>, tech: Seq<char>, label: Seq<char>)
    requires
        techs(cols).no_duplicates(),
    ensures
        techs(add_col(cols, tech, label)).no_duplicates(),
        techs(add_col(cols, tech, label)).contains(tech),
        forall|t: Seq<char>| techs(cols).contains(t) ==> techs(add_col(cols, tech, label)).contains(t),
{
    if !techs(cols).contains(tech) {
        let n = cols.push((tech, label));
        assert(techs(n) =~= techs(cols).push(tech));
        assert(techs(n)[cols.len() as int] == tech);
        assert forall|t: Seq<char>| techs(cols).contains(t) implies techs(n).contains(t) by {
            let k = choose|k: int| 0 <= k < techs(cols).len() && techs(cols)[k] == t;
            assert(techs(n)[k] == t);
        }
    }
}

proof fn lemma_pass_fields(fs: Seq<FieldDef>)
    ensures
        techs(pass_fields(fs)).no_duplicates(),
        forall|k: int|
            0 <= k < fs.len() && !"candlestick"@.is_prefix_of(#[trigger] fs[k].field_name@)
                ==> techs(pass_fields(fs)).contains(timed_spec(fs[k].field_name@)),
    decreases fs.len(),
{
    if fs.len() > 0 {
        let p = fs.drop_last();
        lemma_pass_fields(p);
        let f = fs.last();
        lemma_add_col(pass_fields(p), timed_spec(f.field_name@), f.label@);
        assert forall|k: int|
            0 <= k < fs.len() && !"candlestick"@.is_prefix_of(
                #[trigger] fs[k].field_name@,
            ) implies techs(pass_fields(fs)).contains(timed_spec(fs[k].field_name@)) by {
            if k < fs.len() - 1 {
                assert(p[k] == fs[k]);
            }
        }
    } else {
        assert(techs(pass_fields(fs)) =~= Seq::<Seq<char>>::empty());
    }
}

proof fn lemma_pass_rec(fs: Seq<FieldDef>, base: Seq<Column>)
    requires
        techs(base).no_duplicates(),
    ensures
        techs(pass_rec(fs, base)).no_duplicates(),
        forall|t: Seq<char>| techs(base).contains(t) ==> techs(pass_rec(fs, base)).contains(t),
    decreases fs.len(),
{
    if fs.len() > 0 {
        lemma_pass_rec(fs.drop_last(), base);
        let f = fs.last();
        lemma_add_col(pass_rec(fs.drop_last(), base), "Rec."@ + f.field_name@, "Reco. "@ + f.label@);
    }
}

proof fn lemma_pass_hist(fs: Seq<FieldDef>, base: Seq<Column>)
    requires
        techs(base).no_duplicates(),
    ensures
        techs(pass_hist(fs, base)).no_duplicates(),
        forall|t: Seq<char>| techs(base).contains(t) ==> techs(pass_hist(fs, base)).contains(t),
    decreases fs.len(),
{
    if fs.len() > 0 {
        lemma_pass_hist(fs.drop_last(), base);
        let f = fs.last();
        lemma_add_col(
            pass_hist(fs.drop_last(), base),
            f.field_name@ + "["@ + dec_seq(1) + "]"@,
            historical_label_spec(f.label@, 1),
        );
    }
}

/// The requested columns never repeat a technical name, always include
/// `update_mode`, and include the timed technical name of every field that is
/// not a `candlestick*` field.
pub proof fn lemma_columns_laws(fs: Seq<FieldDef>)
    ensures
        techs(columns_spec(fs)).no_duplicates(),
        techs(columns_spec(fs)).contains("update_mode"@),
        forall|k: int|
            0 <= k < fs.len() && !"candlestick"@.is_prefix_of(#[trigger] fs[k].field_name@)
                ==> techs(columns_spec(fs)).contains(timed_spec(fs[k].field_name@)),
{
    lemma_pass_fields(fs);
    let p1 = pass_fields(fs);
    lemma_add_col(p1, "update_mode"@, "Update Mode"@);
    let b1 = add_col(p1, "update_mode"@, "Update Mode"@);
    lemma_pass_rec(fs, b1);
    let b2 = pass_rec(fs, b1);
    lemma_pass_hist(fs, b2);
}

/// The column a field contributes in one of the passes: its timed technical
/// name (not for `candlestick*` fields), its `Rec.` companion (recommendation
/// fields), or its `[1]` lookback (historical fields).
pub open spec fn field_column(f: FieldDef, c: Column) -> bool {
    ||| (!"candlestick"@.is_prefix_of(f.field_name@) && c == (timed_spec(f.field_name@), f.label@))
    ||| (has_rec_spec(f) && c == ("Rec."@ + f.field_name@, "Reco. "@ + f.label@))
    ||| (f.historical && c == (
        f.field_name@ + "["@ + dec_seq(1) + "]"@,
        historical_label_spec(f.label@, 1),
    ))
}

/// A column of a field list's request: `update_mode`, or a column of one of
/// its fields.
pub open spec fn column_shape(fs: Seq<FieldDef>, c: Column) -> bool {
    ||| c == ("update_mode"@, "Update Mode"@)
    ||| from_fields(fs, c)
}

/// Whether `c` is a column of some field of `fs`.
pub open spec fn from_fields(fs: Seq<FieldDef>, c: Column) -> bool {
    exists|k: int| 0 <= k < fs.len() && field_column(#[trigger] fs[k], c)
}

proof fn lemma_pass_fields_shape(fs: Seq<FieldDef>)
    ensures
        forall|i: int| 0 <= i < pass_fields(fs).len() ==> from_fields(fs, #[trigger] pass_fields(fs)[i]),
    decreases fs.len(),
{
    if fs.len() > 0 {
        let p = fs.drop_last();
        lemma_pass_fields_shape(p);
        assert forall|i: int| 0 <= i < pass_fields(fs).len() implies from_fields(fs, #[trigger] pass_fields(fs)[i]) by {
            if i < pass_fields(p).len() {
                assert(from_fields(p, pass_fields(p)[i]));
                let k = choose|k: int| 0 <= k < p.len() && field_column(#[trigger] p[k], pass_fields(p)[i]);
                assert(fs[k] == p[k]);
                assert(field_column(fs[k], pass_fields(fs)[i]));
            } else {
                assert(field_column(fs[fs.len() - 1], pass_fields(fs)[i]));
            }
        }
    }
}

proof fn lemma_pass_rec_shape(fs: Seq<FieldDef>, base: Seq<Column>, all: Seq<FieldDef>)
    requires
        forall|i: int| 0 <= i < base.len() ==> column_shape(all, #[trigger] base[i]),
        fs.len() <= all.len(),
        fs == all.take(fs.len() as int),
    ensures
        forall|i: int| 0 <= i < pass_rec(fs, base).len() ==> column_shape(all, #[trigger] pass_rec(fs, base)[i]),
    decreases fs.len(),
{
    if fs.len() > 0 {
        let p = fs.drop_last();
        assert(p =~= all.take(p.len() as int));
        lemma_pass_rec_shape(p, base, all);
        let j = fs.len() - 1;
        assert(all[j] == fs[j]);
        assert forall|i: int| 0 <= i < pass_rec(fs, base).len() implies column_shape(all, #[trigger] pass_rec(fs, base)[i]) by {
            if i >= pass_rec(p, base).len() {
                assert(field_column(all[j], pass_rec(fs, base)[i]));
                assert(from_fields(all, pass_rec(fs, base)[i]));
            }
        }
    }
}

proof fn lemma_pass_hist_shape(fs: Seq<FieldDef>, base: Seq<Column>, all: Seq<FieldDef>)
    requires
        forall|i: int| 0 <= i < base.len() ==> column_shape(all, #[trigger] base[i]),
        fs.len() <= all.len(),
        fs == all.take(fs.len() as int),
    ensures
        forall|i: int| 0 <= i < pass_hist(fs, base).len() ==> column_shape(all, #[trigger] pass_hist(fs, base)[i]),
    decreases fs.len(),
{
    if fs.len() > 0 {
        let p = fs.drop_last();
        assert(p =~= all.take(p.len() as int));
        lemma_pass_hist_shape(p, base, all);
        let j = fs.len() - 1;
        assert(all[j] == fs[j]);
        assert forall|i: int| 0 <= i < pass_hist(fs, base).len() implies column_shape(all, #[trigger] pass_hist(fs, base)[i]) by {
            if i >= pass_hist(p, base).len() {
                assert(field_column(all[j], pass_hist(fs, base)[i]));
                assert(from_fields(all, pass_hist(fs, base)[i]));
            }
        }
    }
}

/// A timed technical name starts with `candlestick` only when the name does.
proof fn lemma_timed_not_candle(f: Seq<char>)
    requires
        !"candlestick"@.is_prefix_of(f),
    ensures
        !"candlestick"@.is_prefix_of(timed_spec(f)),
{
    reveal_strlit("candlestick");
    reveal_strlit("change");
    reveal_strlit("relative_volume_intraday");
    let r = timed_spec(f);
    if r != f {
        assert(r == replace_seq(f, '.', '|'));
        if "change"@.is_prefix_of(f) {
            assert(f[1] == "change"@[1]);
            assert(r[1] == f[1]);
            assert("candlestick"@[1] != "change"@[1]);
        } else {
            assert("relative_volume_intraday"@.is_prefix_of(f));
            assert(f[0] == "relative_volume_intraday"@[0]);
            assert(r[0] == f[0]);
            assert("candlestick"@[0] != "relative_volume_intraday"@[0]);
        }
    }
}

/// Every requested column has a fixed shape: `("update_mode", "Update Mode")`,
/// or for some field `f` of the list its timed technical name with its label
/// (`f` not a `candlestick*` field), `("Rec." + name, "Reco. " + label)` (`f`
/// a recommendation field), or `(name + "[1]", "Prev. " + label)` (`f`
/// historical). When no historical field is a `candlestick*` field, no
/// requested technical name starts with `candlestick`.
pub proof fn lemma_columns_shape(fs: Seq<FieldDef>)
    ensures
        forall|i: int| 0 <= i < columns_spec(fs).len() ==> column_shape(fs, #[trigger] columns_spec(fs)[i]),
        (forall|k: int| 0 <= k < fs.len() && (#[trigger] fs[k]).historical ==> !"candlestick"@.is_prefix_of(fs[k].field_name@))
            ==> forall|i: int| 0 <= i < columns_spec(fs).len() ==> !"candlestick"@.is_prefix_of(#[trigger] columns_spec(fs)[i].0),
{
    reveal_strlit("candlestick");
    reveal_strlit("update_mode");
    reveal_strlit("Rec.");
    reveal_strlit("[");
    let p1 = pass_fields(fs);
    lemma_pass_fields_shape(fs);
    let b1 = add_col(p1, "update_mode"@, "Update Mode"@);
    assert forall|i: int| 0 <= i < b1.len() implies column_shape(fs, #[trigger] b1[i]) by {
        if i < p1.len() {
            assert(from_fields(fs, p1[i]));
        }
    }
    assert(fs =~= fs.take(fs.len() as int));
    lemma_pass_rec_shape(fs, b1, fs);
    let b2 = pass_rec(fs, b1);
    lemma_pass_hist_shape(fs, b2, fs);
    if forall|k: int| 0 <= k < fs.len() && (#[trigger] fs[k]).historical ==> !"candlestick"@.is_prefix_of(fs[k].field_name@) {
        assert forall|i: int| 0 <= i < columns_spec(fs).len() implies !"candlestick"@.is_prefix_of(#[trigger] columns_spec(fs)[i].0) by {
            let c = columns_spec(fs)[i];
            assert(column_shape(fs, c));
            if c == ("update_mode"@, "Update Mode"@) {
                assert("candlestick"@[0] != "update_mode"@[0]);
            } else {
                let k = choose|k: int| 0 <= k < fs.len() && field_column(#[trigger] fs[k], c);
                let f = fs[k];
                let n = f.field_name@;
                if !"candlestick"@.is_prefix_of(n) && c == (timed_spec(n), f.label@) {
                    lemma_timed_not_candle(n);
                } else if has_rec_spec(f) && c == ("Rec."@ + n, "Reco. "@ + f.label@) {
                    assert(("Rec."@ + n)[0] == 'R');
                    assert("candlestick"@[0] == 'c');
                } else {
                    assert(f.historical);
                    assert(!"candlestick"@.is_prefix_of(n));
                    let h = n + "["@ + dec_seq(1) + "]"@;
                    assert(c.0 == h);
                    if "candlestick"@.is_prefix_of(h) {
                        if n.len() >= 11 {
                            assert forall|x: int| 0 <= x < 11 implies #[trigger] "candlestick"@[x] == n[x] by {
                                assert(h[x] == n[x]);
                            }
                            assert("candlestick"@ =~= n.take(11));
                            assert("candlestick"@.is_prefix_of(n));
                        } else {
                            let x = n.len() as int;
                            assert(h[x] == '[');
                            assert("candlestick"@[x] == h[x]);
                            assert(forall|y: int| 0 <= y < 11 ==> #[trigger] "candlestick"@[y] != '[');
                        }
                    }
                }
            }
        }
    }
}

/// The millify exponent for a suffix index (0 → 0, 1 → 3, 2 → 6, 3 → 9, otherwise 12).
pub fn millify_pow_exp(millidx: usize) -> (r: i32)
    ensures
        r == (if millidx <= 3 {
            3 * millidx
        } else {
            12
        }),
{
    match millidx {
        0 => 0,
        1 => 3,
        2 => 6,
        3 => 9,
        _ => 12,
    }
}

} // verus!
