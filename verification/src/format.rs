//! Text answers of the MCP tools: field search hits, field categories,
//! presets, the catalog's named constants and the filter operators.
use vstd::prelude::*;
use crate::error::TvscreenerError;
use crate::field::{
    get_preset, list_presets, resolve_field, search_fields, symbolset_wire_spec,
    to_symbolset_wire, asset_str, preset_names, Asset, FieldDef, FieldsCatalog, IndexSymbolDef,
    Market, NamedValue,
};
use crate::query::clamp_spec;
use crate::resolve::filter_op_spec;
use crate::sort::{sorted, strs_view};
use crate::text::{cat3, dec_seq, dec_string, own};

verus! {

/// The pieces, one after the other.
pub open spec fn concat_spec(parts: Seq<Seq<char>>) -> Seq<char>
    decreases parts.len(),
{
    if parts.len() == 0 {
        Seq::empty()
    } else {
        concat_spec(parts.drop_last()) + parts.last()
    }
}

/// The pieces with `sep` between neighbours (`[String]::join`).
pub open spec fn join_spec(parts: Seq<Seq<char>>, sep: Seq<char>) -> Seq<char>
    decreases parts.len(),
{
    if parts.len() == 0 {
        Seq::empty()
    } else if parts.len() == 1 {
        parts[0]
    } else {
        join_spec(parts.drop_last(), sep) + sep + parts.last()
    }
}

/// One more piece extends the concatenation.
pub proof fn lemma_concat_take(parts: Seq<Seq<char>>, i: int)
    requires
        0 <= i < parts.len(),
    ensures
        concat_spec(parts.take(i + 1)) == concat_spec(parts.take(i)) + parts[i],
{
    assert(parts.take(i + 1).drop_last() =~= parts.take(i));
}

/// The listing line of a named constant: `  - **CONST**: `value``.
pub open spec fn named_line(c: Seq<char>, v: Seq<char>) -> Seq<char> {
    "  - **"@ + c + "**: `"@ + v + "`\n"@
}

/// The listing lines of named constants.
pub open spec fn named_lines(items: Seq<NamedValue>) -> Seq<Seq<char>> {
    items.map_values(|n: NamedValue| named_line(n.const_name@, n.value@))
}

/// Appends the listing lines of named constants.
fn append_named(out: &mut String, items: &Vec<NamedValue>)
    ensures
        final(out)@ == old(out)@ + concat_spec(named_lines(items@)),
{
    let ghost start = out@;
    let ghost ls = named_lines(items@);
    let mut i: usize = 0;
    assert(ls.take(0) =~= Seq::<Seq<char>>::empty());
    while i < items.len()
        invariant
            ls == named_lines(items@),
            i <= items.len(),
            out@ == start + concat_spec(ls.take(i as int)),
        decreases items.len() - i,
    {
        proof {
            lemma_concat_take(ls, i as int);
        }
        out.append("  - **");
        out.append(items[i].const_name.as_str());
        out.append("**: `");
        out.append(items[i].value.as_str());
        out.append("`\n");
        i = i + 1;
    }
    assert(ls.take(items@.len() as int) =~= ls);
}

/// Lists stock sectors (`CONST` → wire value).
pub fn format_list_sectors(cat: &FieldsCatalog) -> (r: String)
    ensures
        r@ == "Available sectors (const → wire):\n"@ + concat_spec(named_lines(cat.sectors@))
            + "\nPass const names (e.g. `TECHNOLOGY_SERVICES`) or wire values to `search_stocks` `sectors` CSV.\n"@,
{
    let mut out = own("Available sectors (const → wire):\n");
    append_named(&mut out, &cat.sectors);
    out.append(
        "\nPass const names (e.g. `TECHNOLOGY_SERVICES`) or wire values to `search_stocks` `sectors` CSV.\n",
    );
    out
}

/// Lists countries (`CONST` → wire value).
pub fn format_list_countries(cat: &FieldsCatalog) -> (r: String)
    ensures
        r@ == "Available countries (const → wire):\n"@ + concat_spec(named_lines(cat.countries@)),
{
    let mut out = own("Available countries (const → wire):\n");
    append_named(&mut out, &cat.countries);
    out
}

/// Lists industries (`CONST` → wire value).
pub fn format_list_industries(cat: &FieldsCatalog) -> (r: String)
    ensures
        r@ == "Available industries (const → wire):\n"@ + concat_spec(named_lines(cat.industries@)),
{
    let mut out = own("Available industries (const → wire):\n");
    append_named(&mut out, &cat.industries);
    out
}

/// Lists exchanges (`CONST` → wire value).
pub fn format_list_exchanges(cat: &FieldsCatalog) -> (r: String)
    ensures
        r@ == "Available exchanges (const → wire):\n"@ + concat_spec(named_lines(cat.exchanges@)),
{
    let mut out = own("Available exchanges (const → wire):\n");
    append_named(&mut out, &cat.exchanges);
    out
}

/// The listing lines of markets.
pub open spec fn market_lines(items: Seq<Market>) -> Seq<Seq<char>> {
    items.map_values(|m: Market| named_line(m.const_name@, m.value@))
}

/// Lists stock markets (`CONST` → wire value).
pub fn format_list_markets(cat: &FieldsCatalog) -> (r: String)
    ensures
        r@ == "Available markets (const → wire):\n"@ + concat_spec(market_lines(cat.markets@))
            + "\nPass const names or wire values to `build_payload` / `search_by_index` via `markets` CSV.\n"@,
{
    let mut out = own("Available markets (const → wire):\n");
    let ghost start = out@;
    let ghost ls = market_lines(cat.markets@);
    let mut i: usize = 0;
    assert(ls.take(0) =~= Seq::<Seq<char>>::empty());
    while i < cat.markets.len()
        invariant
            ls == market_lines(cat.markets@),
            i <= cat.markets.len(),
            out@ == start + concat_spec(ls.take(i as int)),
        decreases cat.markets.len() - i,
    {
        proof {
            lemma_concat_take(ls, i as int);
        }
        out.append("  - **");
        out.append(cat.markets[i].const_name.as_str());
        out.append("**: `");
        out.append(cat.markets[i].value.as_str());
        out.append("`\n");
        i = i + 1;
    }
    assert(ls.take(cat.markets@.len() as int) =~= ls);
    out.append(
        "\nPass const names or wire values to `build_payload` / `search_by_index` via `markets` CSV.\n",
    );
    out
}

/// The listing line of an index: `  - **CONST**: `catalog` → `wire` (label)`.
pub open spec fn index_line(d: IndexSymbolDef) -> Seq<char> {
    "  - **"@ + d.const_name@ + "**: `"@ + d.value@ + "` → `"@ + symbolset_wire_spec(d.value@)
        + "` ("@ + d.label@ + ")\n"@
}

/// Lists index symbolsets for stock `set_index`.
pub fn format_list_index_symbols(cat: &FieldsCatalog) -> (r: String)
    ensures
        r@ == "Available index symbols (const → catalog → payload symbolset):\n"@ + concat_spec(
            cat.index_symbols@.map_values(|d: IndexSymbolDef| index_line(d)),
        )
            + "\nPass const names (e.g. `SP500`) or catalog values (e.g. `SP;SPX`) to `indices` CSV.\n"@,
{
    let mut out = own("Available index symbols (const → catalog → payload symbolset):\n");
    let ghost start = out@;
    let ghost ls = cat.index_symbols@.map_values(|d: IndexSymbolDef| index_line(d));
    let mut i: usize = 0;
    assert(ls.take(0) =~= Seq::<Seq<char>>::empty());
    while i < cat.index_symbols.len()
        invariant
            ls == cat.index_symbols@.map_values(|d: IndexSymbolDef| index_line(d)),
            i <= cat.index_symbols.len(),
            out@ == start + concat_spec(ls.take(i as int)),
        decreases cat.index_symbols.len() - i,
    {
        proof {
            lemma_concat_take(ls, i as int);
        }
        let d = &cat.index_symbols[i];
        let wire = to_symbolset_wire(d.value.as_str());
        out.append("  - **");
        out.append(d.const_name.as_str());
        out.append("**: `");
        out.append(d.value.as_str());
        out.append("` → `");
        out.append(wire.as_str());
        out.append("` (");
        out.append(d.label.as_str());
        out.append(")\n");
        i = i + 1;
    }
    assert(ls.take(cat.index_symbols@.len() as int) =~= ls);
    out.append("\nPass const names (e.g. `SP500`) or catalog values (e.g. `SP;SPX`) to `indices` CSV.\n");
    out
}

/// The listing line of a preset name.
pub open spec fn preset_line(n: Seq<char>) -> Seq<char> {
    "  - "@ + n + "\n"@
}

/// Lists the preset names, sorted.
pub fn format_list_presets(cat: &FieldsCatalog) -> (r: String)
    ensures
        exists|names: Seq<Seq<char>>|
            sorted(names) && names.to_multiset() == preset_names(*cat).to_multiset() && r@
                == "Available presets:\n"@ + concat_spec(
                names.map_values(|n: Seq<char>| preset_line(n)),
            ),
{
    let names = list_presets(cat);
    let ghost ns = strs_view(names@);
    let ghost ls = ns.map_values(|n: Seq<char>| preset_line(n));
    let mut out = own("Available presets:\n");
    let ghost start = out@;
    let mut i: usize = 0;
    assert(ls.take(0) =~= Seq::<Seq<char>>::empty());
    while i < names.len()
        invariant
            ns == strs_view(names@),
            ls == ns.map_values(|n: Seq<char>| preset_line(n)),
            i <= names.len(),
            out@ == start + concat_spec(ls.take(i as int)),
        decreases names.len() - i,
    {
        proof {
            lemma_concat_take(ls, i as int);
        }
        out.append("  - ");
        out.append(names[i].as_str());
        out.append("\n");
        i = i + 1;
    }
    assert(ls.take(names@.len() as int) =~= ls);
    out
}

/// The line of one preset field: `- Label (`field_name`)`.
pub open spec fn preset_field_line(f: FieldDef) -> Seq<char> {
    "- "@ + f.label@ + " (`"@ + f.field_name@ + "`)\n"@
}

/// Lists the fields of a preset; an unknown or empty preset fails as
/// [`get_preset`] does.
pub fn format_get_preset(cat: &FieldsCatalog, name: &str) -> (r: Result<String, TvscreenerError>)
    ensures
        match cat.preset_refs(name@) {
            None => r matches Err(TvscreenerError::InvalidRequest(m)) && m@ == "unknown preset: "@
                + name@,
            Some(refs) => {
                let fs = cat.resolve_refs(refs);
                if fs.len() == 0 {
                    r matches Err(TvscreenerError::InvalidRequest(m)) && m@ == "preset `"@ + name@
                        + "` resolved to no fields"@
                } else {
                    r matches Ok(t) && t@ == "Preset `"@ + name@ + "` ("@ + dec_seq(fs.len())
                        + " fields):\n\n"@ + concat_spec(
                        fs.map_values(|f: FieldDef| preset_field_line(f)),
                    )
                }
            },
        },
{
    let fields = match get_preset(cat, name) {
        Ok(f) => f,
        Err(e) => {
            return Err(e);
        },
    };
    let ghost ls = fields@.map_values(|f: FieldDef| preset_field_line(f));
    let mut out = cat3("Preset `", name, "` (");
    let count = dec_string(fields.len() as u64);
    out.append(count.as_str());
    out.append(" fields):\n\n");
    let ghost start = out@;
    let mut i: usize = 0;
    assert(ls.take(0) =~= Seq::<Seq<char>>::empty());
    while i < fields.len()
        invariant
            ls == fields@.map_values(|f: FieldDef| preset_field_line(f)),
            i <= fields.len(),
            out@ == start + concat_spec(ls.take(i as int)),
        decreases fields.len() - i,
    {
        proof {
            lemma_concat_take(ls, i as int);
        }
        out.append("- ");
        out.append(fields[i].label.as_str());
        out.append(" (`");
        out.append(fields[i].field_name.as_str());
        out.append("`)\n");
        i = i + 1;
    }
    assert(ls.take(fields@.len() as int) =~= ls);
    Ok(out)
}

/// Joins strings with a separator.
pub fn join_strings(parts: &Vec<String>, sep: &str) -> (r: String)
    ensures
        r@ == join_spec(strs_view(parts@), sep@),
{
    let ghost ps = strs_view(parts@);
    let mut out = String::new();
    let mut i: usize = 0;
    assert(out@ =~= join_spec(ps.take(0), sep@));
    while i < parts.len()
        invariant
            ps == strs_view(parts@),
            i <= parts.len(),
            out@ == join_spec(ps.take(i as int), sep@),
        decreases parts.len() - i,
    {
        assert(ps.take(i + 1).drop_last() =~= ps.take(i as int));
        if i > 0 {
            out.append(sep);
        } else {
            assert(ps.take(1) =~= seq![ps[0]]);
            assert(out@ =~= Seq::<char>::empty());
        }
        out.append(parts[i].as_str());
        i = i + 1;
    }
    assert(ps.take(parts@.len() as int) =~= ps);
    out
}

/// `v` clamped to `[lo, hi]`.
pub open spec fn clamp_usize_spec(v: usize, lo: usize, hi: usize) -> usize {
    if v < lo {
        lo
    } else if v > hi {
        hi
    } else {
        v
    }
}

/// The shorter of two lengths.
pub open spec fn min_nat(a: nat, b: nat) -> nat {
    if a <= b {
        a
    } else {
        b
    }
}

/// The marker of interval-capable fields.
pub open spec fn technical_marker(interval: bool) -> Seq<char> {
    if interval {
        " [Technical]"@
    } else {
        ""@
    }
}

/// The lines of search hits that resolve to a constant name: `- **CONST**: Label`,
/// with a ` [Technical]` marker on interval-capable fields.
pub open spec fn hit_lines(cat: FieldsCatalog, a: Asset, hits: Seq<FieldDef>) -> Seq<Seq<char>>
    decreases hits.len(),
{
    if hits.len() == 0 {
        Seq::empty()
    } else {
        let p = hit_lines(cat, a, hits.drop_last());
        match cat.resolve_field_spec(a, hits.last().field_name@) {
            Some((k, d)) => p.push("- **"@ + k + "**: "@ + d.label@ + technical_marker(d.interval)),
            None => p,
        }
    }
}

/// The answer to a field search: the first `limit` hits (limit clamped to
/// `1..=100`) that resolve, or a not-found line.
pub open spec fn discover_spec(cat: FieldsCatalog, a: Asset, term: Seq<char>, limit: usize) -> Seq<char> {
    let hits = cat.search_spec(a, term);
    let n = min_nat(clamp_usize_spec(limit, 1, 100) as nat, hits.len());
    let ls = hit_lines(cat, a, hits.take(n as int));
    if ls.len() == 0 {
        "No fields found matching '"@ + term + "'"@
    } else {
        "Found "@ + dec_seq(ls.len()) + " fields matching '"@ + term + "':\n\n"@ + join_spec(
            ls,
            "\n"@,
        ) + "\n"@
    }
}

/// Formats field-search hits as text.
pub fn format_discover_fields(cat: &FieldsCatalog, asset: Asset, search_term: &str, limit: usize) -> (r:
    String)
    ensures
        r@ == discover_spec(*cat, asset, search_term@, limit),
{
    let limit = if limit < 1 {
        1
    } else if limit > 100 {
        100
    } else {
        limit
    };
    let hits = search_fields(cat, asset, search_term);
    let n = if limit <= hits.len() {
        limit
    } else {
        hits.len()
    };
    let ghost hs = hits@.take(n as int);
    let mut lines: Vec<String> = Vec::new();
    let mut i: usize = 0;
    assert(hs.take(0) =~= Seq::<FieldDef>::empty());
    while i < n
        invariant
            hs == hits@.take(n as int),
            n <= hits.len(),
            i <= n,
            strs_view(lines@) == hit_lines(*cat, asset, hs.take(i as int)),
        decreases n - i,
    {
        assert(hs.take(i + 1).drop_last() =~= hs.take(i as int));
        assert(hs.take(i + 1).last() == hits@[i as int]);
        match resolve_field(cat, asset, hits[i].field_name.as_str()) {
            Some((k, d)) => {
                let mut line = cat3("- **", k.as_str(), "**: ");
                line.append(d.label.as_str());
                if d.interval {
                    line.append(" [Technical]");
                } else {
                    line.append("");
                }
                let ghost prev = lines@;
                lines.push(line);
                assert(strs_view(lines@) =~= strs_view(prev).push(lines@.last()@));
            },
            None => {},
        }
        i = i + 1;
    }
    assert(hs.take(n as int) =~= hs);
    if lines.len() == 0 {
        cat3("No fields found matching '", search_term, "'")
    } else {
        let mut out = own("Found ");
        let count = dec_string(lines.len() as u64);
        out.append(count.as_str());
        out.append(" fields matching '");
        out.append(search_term);
        out.append("':\n\n");
        let body = join_strings(&lines, "\n");
        out.append(body.as_str());
        out.append("\n");
        out
    }
}

/// The keywords whose fields [`format_field_types`] samples.
pub open spec fn field_type_keywords() -> Seq<Seq<char>> {
    seq![
        "price"@,
        "volume"@,
        "moving_average"@,
        "rsi"@,
        "macd"@,
        "bollinger"@,
        "earnings"@,
        "dividend"@,
        "market_cap"@,
        "sector"@,
        "recommend"@,
    ]
}

/// The constant names of search hits that resolve to one.
pub open spec fn resolved_names(cat: FieldsCatalog, a: Asset, hits: Seq<FieldDef>) -> Seq<Seq<char>>
    decreases hits.len(),
{
    if hits.len() == 0 {
        Seq::empty()
    } else {
        let p = resolved_names(cat, a, hits.drop_last());
        match cat.resolve_field_spec(a, hits.last().field_name@) {
            Some((k, _)) => p.push(k),
            None => p,
        }
    }
}

/// The sample block of one keyword: its first five hits that resolve, or
/// nothing when none does.
pub open spec fn category_block(cat: FieldsCatalog, a: Asset, kw: Seq<char>) -> Seq<char> {
    let hits = cat.search_spec(a, kw);
    let ns = resolved_names(cat, a, hits.take(min_nat(5, hits.len()) as int));
    if ns.len() == 0 {
        Seq::empty()
    } else {
        "**"@ + kw + "**:\n"@ + concat_spec(ns.map_values(|n: Seq<char>| "  - "@ + n + "\n"@))
            + "\n"@
    }
}

/// The field-category answer for an asset.
pub open spec fn field_types_spec(cat: FieldsCatalog, a: Asset) -> Seq<char> {
    "Field categories for "@ + asset_str(a) + ":\n\n"@ + concat_spec(
        field_type_keywords().map_values(|kw: Seq<char>| category_block(cat, a, kw)),
    ) + "Use discover_fields('keyword') to find more fields in each category.\n"@
}

/// The sample block of one keyword.
fn format_category(cat: &FieldsCatalog, asset: Asset, kw: &str) -> (r: String)
    ensures
        r@ == category_block(*cat, asset, kw@),
{
    let hits = search_fields(cat, asset, kw);
    let n: usize = if 5 <= hits.len() {
        5
    } else {
        hits.len()
    };
    let ghost hs = hits@.take(n as int);
    let mut names: Vec<String> = Vec::new();
    let mut i: usize = 0;
    assert(hs.take(0) =~= Seq::<FieldDef>::empty());
    while i < n
        invariant
            hs == hits@.take(n as int),
            n <= hits.len(),
            i <= n,
            strs_view(names@) == resolved_names(*cat, asset, hs.take(i as int)),
        decreases n - i,
    {
        assert(hs.take(i + 1).drop_last() =~= hs.take(i as int));
        assert(hs.take(i + 1).last() == hits@[i as int]);
        match resolve_field(cat, asset, hits[i].field_name.as_str()) {
            Some((k, _)) => {
                let ghost prev = names@;
                names.push(k);
                assert(strs_view(names@) =~= strs_view(prev).push(names@.last()@));
            },
            None => {},
        }
        i = i + 1;
    }
    assert(hs.take(n as int) =~= hs);
    if names.len() == 0 {
        return String::new();
    }
    let ghost ns = strs_view(names@);
    let ghost ls = ns.map_values(|n: Seq<char>| "  - "@ + n + "\n"@);
    let mut out = cat3("**", kw, "**:\n");
    let ghost start = out@;
    let mut j: usize = 0;
    assert(ls.take(0) =~= Seq::<Seq<char>>::empty());
    while j < names.len()
        invariant
            ns == strs_view(names@),
            ls == ns.map_values(|n: Seq<char>| "  - "@ + n + "\n"@),
            j <= names.len(),
            out@ == start + concat_spec(ls.take(j as int)),
        decreases names.len() - j,
    {
        proof {
            lemma_concat_take(ls, j as int);
        }
        out.append("  - ");
        out.append(names[j].as_str());
        out.append("\n");
        j = j + 1;
    }
    assert(ls.take(names@.len() as int) =~= ls);
    out.append("\n");
    out
}

/// Lists sample field names per keyword category for an asset.
pub fn format_field_types(cat: &FieldsCatalog, asset: Asset) -> (r: String)
    ensures
        r@ == field_types_spec(*cat, asset),
{
    let mut kws: Vec<String> = Vec::new();
    kws.push(own("price"));
    kws.push(own("volume"));
    kws.push(own("moving_average"));
    kws.push(own("rsi"));
    kws.push(own("macd"));
    kws.push(own("bollinger"));
    kws.push(own("earnings"));
    kws.push(own("dividend"));
    kws.push(own("market_cap"));
    kws.push(own("sector"));
    kws.push(own("recommend"));
    assert(strs_view(kws@) =~= field_type_keywords());
    let ghost ls = field_type_keywords().map_values(|kw: Seq<char>| category_block(*cat, asset, kw));
    let mut out = cat3("Field categories for ", asset.as_str(), ":\n\n");
    let ghost start = out@;
    let mut i: usize = 0;
    assert(ls.take(0) =~= Seq::<Seq<char>>::empty());
    while i < kws.len()
        invariant
            strs_view(kws@) == field_type_keywords(),
            ls == field_type_keywords().map_values(|kw: Seq<char>| category_block(*cat, asset, kw)),
            i <= kws.len(),
            out@ == start + concat_spec(ls.take(i as int)),
        decreases kws.len() - i,
    {
        proof {
            lemma_concat_take(ls, i as int);
        }
        assert(kws@[i as int]@ == field_type_keywords()[i as int]);
        let block = format_category(cat, asset, kws[i].as_str());
        out.append(block.as_str());
        i = i + 1;
    }
    assert(ls.take(kws@.len() as int) =~= ls);
    out.append("Use discover_fields('keyword') to find more fields in each category.\n");
    out
}

/// The filter operators of custom queries, with their descriptions.
pub open spec fn filter_op_docs() -> Seq<(Seq<char>, Seq<char>)> {
    seq![
        (">="@, "Greater than or equal"@),
        (">"@, "Greater than"@),
        ("<="@, "Less than or equal"@),
        ("<"@, "Less than"@),
        ("=="@, "Equal to"@),
        ("!="@, "Not equal to"@),
        ("match"@, "Text contains (for text fields like SECTOR)"@),
        ("in_range"@, "Value between [min, max] (e.g. RSI between 30-70)"@),
        ("not_in_range"@, "Value outside [min, max]"@),
        ("crosses"@, "Value crosses another"@),
        ("crosses_up"@, "Value crosses above another"@),
        ("crosses_down"@, "Value crosses below another"@),
    ]
}

/// The example that closes the operator listing.
pub open spec fn filter_example() -> Seq<char> {
    "\nExample filters JSON:\n```json\n[\n{\"field\": \"PRICE\", \"op\": \">=\", \"value\": 100},\n{\"field\": \"RSI\", \"op\": \"in_range\", \"value\": [30, 70]},\n{\"field\": \"SECTOR\", \"op\": \"match\", \"value\": \"Technology Services\"}\n]\n```\n"@
}

/// Documents the filter operators accepted by custom queries.
pub fn format_list_filter_operators() -> (r: String)
    ensures
        r@ == "Available filter operators for custom_query:\n\n"@ + concat_spec(
            filter_op_docs().map_values(
                |d: (Seq<char>, Seq<char>)| "- **"@ + d.0 + "**: "@ + d.1 + "\n"@,
            ),
        ) + filter_example(),
{
    let mut ops: Vec<(String, String)> = Vec::new();
    ops.push((own(">="), own("Greater than or equal")));
    ops.push((own(">"), own("Greater than")));
    ops.push((own("<="), own("Less than or equal")));
    ops.push((own("<"), own("Less than")));
    ops.push((own("=="), own("Equal to")));
    ops.push((own("!="), own("Not equal to")));
    ops.push((own("match"), own("Text contains (for text fields like SECTOR)")));
    ops.push((own("in_range"), own("Value between [min, max] (e.g. RSI between 30-70)")));
    ops.push((own("not_in_range"), own("Value outside [min, max]")));
    ops.push((own("crosses"), own("Value crosses another")));
    ops.push((own("crosses_up"), own("Value crosses above another")));
    ops.push((own("crosses_down"), own("Value crosses below another")));
    let ghost docs = filter_op_docs();
    assert(ops@.map_values(|p: (String, String)| (p.0@, p.1@)) =~= docs);
    let ghost ls = docs.map_values(|d: (Seq<char>, Seq<char>)| "- **"@ + d.0 + "**: "@ + d.1 + "\n"@);
    let mut out = own("Available filter operators for custom_query:\n\n");
    let ghost start = out@;
    let mut i: usize = 0;
    assert(ls.take(0) =~= Seq::<Seq<char>>::empty());
    while i < ops.len()
        invariant
            ops@.map_values(|p: (String, String)| (p.0@, p.1@)) == docs,
            ls == docs.map_values(|d: (Seq<char>, Seq<char>)| "- **"@ + d.0 + "**: "@ + d.1 + "\n"@),
            i <= ops.len(),
            out@ == start + concat_spec(ls.take(i as int)),
        decreases ops.len() - i,
    {
        proof {
            lemma_concat_take(ls, i as int);
        }
        assert(ops@[i as int].0@ == docs[i as int].0);
        assert(ops@[i as int].1@ == docs[i as int].1);
        out.append("- **");
        out.append(ops[i].0.as_str());
        out.append("**: ");
        out.append(ops[i].1.as_str());
        out.append("\n");
        i = i + 1;
    }
    assert(ls.take(ops@.len() as int) =~= ls);
    out.append(
        "\nExample filters JSON:\n```json\n[\n{\"field\": \"PRICE\", \"op\": \">=\", \"value\": 100},\n{\"field\": \"RSI\", \"op\": \"in_range\", \"value\": [30, 70]},\n{\"field\": \"SECTOR\", \"op\": \"match\", \"value\": \"Technology Services\"}\n]\n```\n",
    );
    out
}

/// Every operator the listing documents is one custom queries accept.
pub proof fn lemma_documented_operators_parse()
    ensures
        forall|i: int| 0 <= i < filter_op_docs().len() ==> (#[trigger] filter_op_spec(filter_op_docs()[i].0)).is_some(),
{
    assert forall|i: int| 0 <= i < filter_op_docs().len() implies (#[trigger] filter_op_spec(filter_op_docs()[i].0)).is_some() by {
        let d = filter_op_docs();
        if i == 0 { assert(d[i].0 == ">="@); }
        else if i == 1 { assert(d[i].0 == ">"@); }
        else if i == 2 { assert(d[i].0 == "<="@); }
        else if i == 3 { assert(d[i].0 == "<"@); }
        else if i == 4 { assert(d[i].0 == "=="@); }
        else if i == 5 { assert(d[i].0 == "!="@); }
        else if i == 6 { assert(d[i].0 == "match"@); }
        else if i == 7 { assert(d[i].0 == "in_range"@); }
        else if i == 8 { assert(d[i].0 == "not_in_range"@); }
        else if i == 9 { assert(d[i].0 == "crosses"@); }
        else if i == 10 { assert(d[i].0 == "crosses_up"@); }
        else { assert(d[i].0 == "crosses_down"@); }
    }
}

} // verus!
