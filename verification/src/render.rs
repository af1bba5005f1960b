//! Text rendering of scan rows: one line per row, and Markdown tables.
//!
//! Cell values arrive already rendered as display text.
use vstd::prelude::*;
use crate::field::{find_keyed, find_ref, Keyed};
use crate::format::{concat_spec, join_spec, join_strings, lemma_concat_take, min_nat};
use crate::sort::{lemma_lt_trans, lemma_lt_trichotomy, lemma_lt_irrefl, seq_lt, sort_strings, sorted, strs_view};
use crate::text::{cat3, own};

verus! {

broadcast use vstd::seq_lib::group_to_multiset_ensures;

/// A scan row with its values rendered as display text: the symbol, and
/// column label → text (each label once).
pub struct RenderedRow {
    /// `TradingView` symbol.
    pub symbol: String,
    /// Column label → rendered value.
    pub cells: Vec<(String, String)>,
}

/// Whether a list of strings is in strictly increasing order (no repeats).
pub open spec fn strictly_sorted(s: Seq<Seq<char>>) -> bool {
    forall|i: int, j: int| 0 <= i < j < s.len() ==> seq_lt(#[trigger] s[i], #[trigger] s[j])
}

/// The distinct strings of a list, in increasing order (a `BTreeSet`'s iteration order).
pub fn sorted_unique(v: Vec<String>) -> (r: Vec<String>)
    ensures
        strictly_sorted(strs_view(r@)),
        forall|x: Seq<char>| strs_view(r@).contains(x) <==> strs_view(v@).contains(x),
{
    let ghost orig = strs_view(v@);
    let xs = sort_strings(v);
    let ghost xv = strs_view(xs@);
    proof {
        assert forall|x: Seq<char>| xv.contains(x) <==> orig.contains(x) by {
            if xv.contains(x) {
                assert(xv.to_multiset().count(x) > 0);
            }
            if orig.contains(x) {
                assert(orig.to_multiset().count(x) > 0);
            }
        }
    }
    let mut out: Vec<String> = Vec::new();
    let mut i: usize = 0;
    while i < xs.len()
        invariant
            xv == strs_view(xs@),
            sorted(xv),
            i <= xs.len(),
            strictly_sorted(strs_view(out@)),
            forall|x: Seq<char>| strs_view(out@).contains(x) <==> xv.take(i as int).contains(x),
            i > 0 ==> out@.len() > 0 && out@.last()@ == xv[i - 1],
            i == 0 ==> out@.len() == 0,
        decreases xs.len() - i,
    {
        let ghost ov = strs_view(out@);
        let ghost x = xv[i as int];
        assert(xv.take(i + 1) =~= xv.take(i as int).push(x));
        let dup = out.len() > 0 && crate::text::str_eq(out[out.len() - 1].as_str(), xs[i].as_str());
        if !dup {
            proof {
                if i > 0 {
                    let last = xv[i - 1];
                    assert(!seq_lt(x, last));
                    lemma_lt_trichotomy(x, last);
                    assert(seq_lt(last, x));
                    assert forall|k: int| 0 <= k < ov.len() implies seq_lt(#[trigger] ov[k], x) by {
                        if k < ov.len() - 1 {
                            assert(seq_lt(ov[k], ov[ov.len() - 1]));
                            lemma_lt_trans(ov[k], last, x);
                        }
                    }
                }
            }
            out.push(xs[i].clone());
            proof {
                let nv = strs_view(out@);
                assert(nv =~= ov.push(x));
                assert forall|a: int, b: int| 0 <= a < b < nv.len() implies seq_lt(
                    #[trigger] nv[a],
                    #[trigger] nv[b],
                ) by {
                    if b == nv.len() - 1 {
                        assert(nv[b] == x);
                        assert(nv[a] == ov[a]);
                    } else {
                        assert(nv[a] == ov[a] && nv[b] == ov[b]);
                    }
                }
                assert forall|y: Seq<char>| nv.contains(y) <==> xv.take(i + 1).contains(y) by {
                    if nv.contains(y) {
                        let k = choose|k: int| 0 <= k < nv.len() && #[trigger] nv[k] == y;
                        if k < ov.len() {
                            assert(ov[k] == y);
                            assert(ov.contains(y));
                            assert(xv.take(i as int).contains(y));
                            let m = choose|m: int| 0 <= m < i && #[trigger] xv.take(i as int)[m] == y;
                            assert(xv.take(i + 1)[m] == y);
                        } else {
                            assert(xv.take(i + 1)[i as int] == y);
                        }
                    }
                    if xv.take(i + 1).contains(y) {
                        if y != x {
                            let k = choose|k: int| 0 <= k < i + 1 && #[trigger] xv.take(i + 1)[k] == y;
                            assert(xv.take(i as int)[k] == y);
                            assert(ov.contains(y));
                            let m = choose|m: int| 0 <= m < ov.len() && #[trigger] ov[m] == y;
                            assert(nv[m] == y);
                        } else {
                            assert(nv[nv.len() - 1] == y);
                        }
                    }
                }
            }
        } else {
            proof {
                assert forall|y: Seq<char>| ov.contains(y) <==> xv.take(i + 1).contains(y) by {
                    if xv.take(i + 1).contains(y) && y == x {
                        assert(ov[ov.len() - 1] == x);
                    }
                    if xv.take(i + 1).contains(y) && y != x {
                        let k = choose|k: int| 0 <= k < i + 1 && #[trigger] xv.take(i + 1)[k] == y;
                        assert(xv.take(i as int)[k] == y);
                    }
                    if ov.contains(y) {
                        assert(xv.take(i as int).contains(y));
                        let k = choose|k: int| 0 <= k < i && #[trigger] xv.take(i as int)[k] == y;
                        assert(xv.take(i + 1)[k] == y);
                    }
                }
            }
        }
        i = i + 1;
    }
    assert(xv.take(xs@.len() as int) =~= xv);
    proof {
        assert forall|x: Seq<char>| strs_view(out@).contains(x) <==> orig.contains(x) by {}
    }
    out
}

/// The text of a cell of a row: its rendered value, or `--` when the row has
/// no value under the label.
pub open spec fn cell_text(cells: Seq<(String, String)>, label: Seq<char>) -> Seq<char> {
    match find_keyed(cells, label) {
        Some(c) => c.1@,
        None => "--"@,
    }
}

/// One `label: value` part of a row line.
pub open spec fn part_spec(label: Seq<char>, value: Seq<char>) -> Seq<char> {
    label + ": "@ + value
}

/// The parts of a row line for the given labels, skipping labels the row lacks.
pub open spec fn labeled_parts(cells: Seq<(String, String)>, labels: Seq<Seq<char>>) -> Seq<Seq<char>>
    decreases labels.len(),
{
    if labels.len() == 0 {
        Seq::empty()
    } else {
        let p = labeled_parts(cells, labels.drop_last());
        match find_keyed(cells, labels.last()) {
            Some(c) => p.push(part_spec(labels.last(), c.1@)),
            None => p,
        }
    }
}

/// Formats one row as `SYMBOL  label: value, …`.
///
/// Without labels every cell appears, the parts sorted; with labels, the
/// parts of the labels the row has, in label order.
pub fn format_row(row: &RenderedRow, column_labels: Option<&Vec<String>>) -> (r: String)
    ensures
        match column_labels {
            Some(ls) => r@ == row.symbol@ + "  "@ + join_spec(
                labeled_parts(row.cells@, strs_view(ls@)),
                ", "@,
            ),
            None => exists|ps: Seq<Seq<char>>|
                sorted(ps) && ps.to_multiset() == row.cells@.map_values(
                    |c: (String, String)| part_spec(c.0@, c.1@),
                ).to_multiset() && r@ == row.symbol@ + "  "@ + join_spec(ps, ", "@),
        },
{
    let mut parts: Vec<String> = Vec::new();
    match column_labels {
        Some(ls) => {
            let ghost lv = strs_view(ls@);
            let mut i: usize = 0;
            assert(lv.take(0) =~= Seq::<Seq<char>>::empty());
            while i < ls.len()
                invariant
                    lv == strs_view(ls@),
                    i <= ls.len(),
                    strs_view(parts@) == labeled_parts(row.cells@, lv.take(i as int)),
                decreases ls.len() - i,
            {
                assert(lv.take(i + 1).drop_last() =~= lv.take(i as int));
                assert(lv.take(i + 1).last() == ls@[i as int]@);
                match find_ref(&row.cells, ls[i].as_str()) {
                    Some(c) => {
                        let p = cat3(ls[i].as_str(), ": ", c.1.as_str());
                        let ghost prev = parts@;
                        parts.push(p);
                        assert(strs_view(parts@) =~= strs_view(prev).push(parts@.last()@));
                    },
                    None => {},
                }
                i = i + 1;
            }
            assert(lv.take(ls@.len() as int) =~= lv);
            let body = join_strings(&parts, ", ");
            let mut out = crate::text::cat(row.symbol.as_str(), "  ");
            out.append(body.as_str());
            out
        },
        None => {
            let ghost all = row.cells@.map_values(|c: (String, String)| part_spec(c.0@, c.1@));
            let mut i: usize = 0;
            while i < row.cells.len()
                invariant
                    all == row.cells@.map_values(|c: (String, String)| part_spec(c.0@, c.1@)),
                    i <= row.cells.len(),
                    strs_view(parts@) == all.take(i as int),
                decreases row.cells.len() - i,
            {
                let p = cat3(row.cells[i].0.as_str(), ": ", row.cells[i].1.as_str());
                let ghost prev = parts@;
                parts.push(p);
                assert(strs_view(parts@) =~= strs_view(prev).push(parts@.last()@));
                i = i + 1;
                assert(strs_view(parts@) =~= all.take(i as int));
            }
            assert(all.take(row.cells@.len() as int) =~= all);
            let sorted_parts = sort_strings(parts);
            let body = join_strings(&sorted_parts, ", ");
            let mut out = crate::text::cat(row.symbol.as_str(), "  ");
            out.append(body.as_str());
            out
        },
    }
}

/// Whether some of the rows has a cell under `label`.
pub open spec fn rows_have_label(rows: Seq<RenderedRow>, label: Seq<char>) -> bool {
    exists|i: int, j: int|
        0 <= i < rows.len() && 0 <= j < rows[i].cells@.len() && #[trigger] rows[i].cells@[j].0@
            == label
}

/// The header and separator lines of a table with the given labels.
pub open spec fn table_head(labels: Seq<Seq<char>>) -> Seq<char> {
    "| Symbol |"@ + concat_spec(labels.map_values(|l: Seq<char>| " "@ + l + " |"@)) + "\n"@
        + "| --- |"@ + concat_spec(labels.map_values(|l: Seq<char>| " --- |"@)) + "\n"@
}

/// The table line of a row.
pub open spec fn table_row(row: RenderedRow, labels: Seq<Seq<char>>) -> Seq<char> {
    "| "@ + row.symbol@ + " |"@ + concat_spec(
        labels.map_values(|l: Seq<char>| " "@ + cell_text(row.cells@, l) + " |"@),
    ) + "\n"@
}

/// The Markdown table of rows under the given labels.
pub open spec fn table_spec(rows: Seq<RenderedRow>, labels: Seq<Seq<char>>) -> Seq<char> {
    table_head(labels) + concat_spec(rows.map_values(|r: RenderedRow| table_row(r, labels)))
}

/// Appends ` {piece} |` for each piece.
fn append_cells(out: &mut String, pieces: &Vec<String>)
    ensures
        final(out)@ == old(out)@ + concat_spec(
            strs_view(pieces@).map_values(|p: Seq<char>| " "@ + p + " |"@),
        ),
{
    let ghost start = out@;
    let ghost ls = strs_view(pieces@).map_values(|p: Seq<char>| " "@ + p + " |"@);
    let mut i: usize = 0;
    assert(ls.take(0) =~= Seq::<Seq<char>>::empty());
    while i < pieces.len()
        invariant
            ls == strs_view(pieces@).map_values(|p: Seq<char>| " "@ + p + " |"@),
            i <= pieces.len(),
            out@ == start + concat_spec(ls.take(i as int)),
        decreases pieces.len() - i,
    {
        proof {
            lemma_concat_take(ls, i as int);
        }
        out.append(" ");
        out.append(pieces[i].as_str());
        out.append(" |");
        i = i + 1;
    }
    assert(ls.take(pieces@.len() as int) =~= ls);
}

/// The table line of a row.
fn format_table_row(row: &RenderedRow, labels: &Vec<String>) -> (r: String)
    ensures
        r@ == table_row(*row, strs_view(labels@)),
{
    let ghost lv = strs_view(labels@);
    let mut cells: Vec<String> = Vec::new();
    let mut i: usize = 0;
    while i < labels.len()
        invariant
            lv == strs_view(labels@),
            i <= labels.len(),
            strs_view(cells@) == lv.take(i as int).map_values(|l: Seq<char>| cell_text(row.cells@, l)),
        decreases labels.len() - i,
    {
        let c = match find_ref(&row.cells, labels[i].as_str()) {
            Some(c) => c.1.clone(),
            None => own("--"),
        };
        let ghost prev = cells@;
        let ghost cv = c@;
        assert(cv == cell_text(row.cells@, lv[i as int]));
        cells.push(c);
        assert(strs_view(cells@) =~= strs_view(prev).push(cv));
        assert(lv.take(i + 1).map_values(|l: Seq<char>| cell_text(row.cells@, l)) =~= lv.take(i as int).map_values(|l: Seq<char>| cell_text(row.cells@, l)).push(cv));
        i = i + 1;
        assert(strs_view(cells@) =~= lv.take(i as int).map_values(|l: Seq<char>| cell_text(row.cells@, l)));
    }
    assert(lv.take(labels@.len() as int) =~= lv);
    let mut out = cat3("| ", row.symbol.as_str(), " |");
    append_cells(&mut out, &cells);
    assert(strs_view(cells@).map_values(|p: Seq<char>| " "@ + p + " |"@) =~= lv.map_values(
        |l: Seq<char>| " "@ + cell_text(row.cells@, l) + " |"@,
    ));
    out.append("\n");
    out
}

/// The labels of all cells of the rows.
fn all_labels(rows: &Vec<RenderedRow>, n: usize) -> (r: Vec<String>)
    requires
        n <= rows.len(),
    ensures
        forall|x: Seq<char>| strs_view(r@).contains(x) <==> rows_have_label(rows@.take(n as int), x),
{
    let ghost rs = rows@.take(n as int);
    let mut out: Vec<String> = Vec::new();
    let mut i: usize = 0;
    while i < n
        invariant
            rs == rows@.take(n as int),
            n <= rows.len(),
            i <= n,
            forall|x: Seq<char>| strs_view(out@).contains(x) <==> rows_have_label(rs.take(i as int), x),
        decreases n - i,
    {
        let mut j: usize = 0;
        let ghost ov = strs_view(out@);
        while j < rows[i].cells.len()
            invariant
                rs == rows@.take(n as int),
                n <= rows.len(),
                i < n,
                j <= rows@[i as int].cells@.len(),
                forall|x: Seq<char>| ov.contains(x) <==> rows_have_label(rs.take(i as int), x),
                forall|x: Seq<char>| strs_view(out@).contains(x) <==> (ov.contains(x) || exists|k: int| 0 <= k < j && #[trigger] rows@[i as int].cells@[k].0@ == x),
            decreases rows@[i as int].cells@.len() - j,
        {
            let ghost before = strs_view(out@);
            out.push(rows[i].cells[j].0.clone());
            proof {
                let nv = strs_view(out@);
                assert(nv =~= before.push(rows@[i as int].cells@[j as int].0@));
                assert forall|x: Seq<char>| nv.contains(x) <==> (ov.contains(x) || exists|k: int| 0 <= k < j + 1 && #[trigger] rows@[i as int].cells@[k].0@ == x) by {
                    if nv.contains(x) {
                        let m = choose|m: int| 0 <= m < nv.len() && #[trigger] nv[m] == x;
                        if m < before.len() {
                            assert(before[m] == x);
                            assert(before.contains(x));
                        }
                    }
                    if ov.contains(x) || exists|k: int| 0 <= k < j && #[trigger] rows@[i as int].cells@[k].0@ == x {
                        assert(before.contains(x));
                        let m = choose|m: int| 0 <= m < before.len() && #[trigger] before[m] == x;
                        assert(nv[m] == x);
                    }
                    if exists|k: int| 0 <= k < j + 1 && #[trigger] rows@[i as int].cells@[k].0@ == x {
                        let k = choose|k: int| 0 <= k < j + 1 && #[trigger] rows@[i as int].cells@[k].0@ == x;
                        if k == j {
                            assert(nv[nv.len() - 1] == x);
                        }
                    }
                }
            }
            j = j + 1;
        }
        proof {
            let t = rs.take(i + 1);
            let p = rs.take(i as int);
            let row = rows@[i as int];
            assert(t[i as int] == row);
            assert forall|a: int| 0 <= a < i implies t[a] == p[a] by {}
            assert forall|x: Seq<char>| strs_view(out@).contains(x) <==> rows_have_label(t, x) by {
                assert(strs_view(out@).contains(x) <==> (ov.contains(x) || exists|k: int| 0 <= k < j && #[trigger] rows@[i as int].cells@[k].0@ == x));
                if rows_have_label(t, x) {
                    let (a, b) = choose|a: int, b: int| 0 <= a < t.len() && 0 <= b < t[a].cells@.len() && #[trigger] t[a].cells@[b].0@ == x;
                    if a < i {
                        assert(p[a].cells@[b].0@ == x);
                        assert(rows_have_label(p, x));
                        assert(ov.contains(x));
                    } else {
                        assert(j == row.cells@.len());
                        assert(0 <= b < j && rows@[i as int].cells@[b].0@ == x);
                    }
                    assert(strs_view(out@).contains(x));
                }
                if strs_view(out@).contains(x) {
                    if ov.contains(x) {
                        assert(rows_have_label(p, x));
                        let (a, b) = choose|a: int, b: int| 0 <= a < p.len() && 0 <= b < p[a].cells@.len() && #[trigger] p[a].cells@[b].0@ == x;
                        assert(t[a].cells@[b].0@ == x);
                    } else {
                        let k = choose|k: int| 0 <= k < row.cells@.len() && #[trigger] rows@[i as int].cells@[k].0@ == x;
                        assert(t[i as int].cells@[k].0@ == x);
                    }
                    assert(rows_have_label(t, x));
                }
            }
        }
        i = i + 1;
    }
    assert(rs.take(n as int) =~= rs);
    out
}

/// Renders rows as a Markdown table (symbol, then the labels of the shown rows).
///
/// At most `max_rows` rows are shown; the columns are the distinct labels of
/// their cells in increasing order, at most twelve; a missing cell shows `--`.
/// Without rows the answer is a not-found line.
pub fn format_rows_markdown(rows: &Vec<RenderedRow>, max_rows: usize) -> (r: String)
    ensures
        rows@.len() == 0 ==> r@ == "No results found matching the criteria."@,
        rows@.len() > 0 ==> exists|labels: Seq<Seq<char>>|
            {
                let shown = rows@.take(min_nat(max_rows as nat, rows@.len()) as int);
                &&& #[trigger] strictly_sorted(labels)
                &&& forall|x: Seq<char>| labels.contains(x) <==> rows_have_label(shown, x)
                &&& r@ == table_spec(shown, labels.take(min_nat(12, labels.len()) as int))
            },
{
    if rows.len() == 0 {
        return own("No results found matching the criteria.");
    }
    let n = if max_rows <= rows.len() {
        max_rows
    } else {
        rows.len()
    };
    let ghost shown = rows@.take(n as int);
    let all = all_labels(rows, n);
    let uniq = sorted_unique(all);
    let ghost full = strs_view(uniq@);
    let k: usize = if uniq.len() <= 12 {
        uniq.len()
    } else {
        12
    };
    let mut labels: Vec<String> = Vec::new();
    let mut i: usize = 0;
    while i < k
        invariant
            k <= uniq.len(),
            i <= k,
            full == strs_view(uniq@),
            strs_view(labels@) == full.take(i as int),
        decreases k - i,
    {
        let ghost prev = strs_view(labels@);
        labels.push(uniq[i].clone());
        assert(strs_view(labels@) =~= prev.push(full[i as int]));
        i = i + 1;
        assert(strs_view(labels@) =~= full.take(i as int));
    }
    let ghost lv = strs_view(labels@);
    let mut out = own("| Symbol |");
    append_cells(&mut out, &labels);
    out.append("\n");
    out.append("| --- |");
    let ghost mid = out@;
    let mut j: usize = 0;
    while j < labels.len()
        invariant
            j <= labels.len(),
            lv == strs_view(labels@),
            out@ == mid + concat_spec(lv.take(j as int).map_values(|l: Seq<char>| " --- |"@)),
        decreases labels.len() - j,
    {
        proof {
            let ms = lv.map_values(|l: Seq<char>| " --- |"@);
            lemma_concat_take(ms, j as int);
            assert(lv.take(j as int).map_values(|l: Seq<char>| " --- |"@) =~= ms.take(j as int));
            assert(lv.take(j + 1).map_values(|l: Seq<char>| " --- |"@) =~= ms.take(j + 1));
        }
        out.append(" --- |");
        j = j + 1;
    }
    assert(lv.take(labels@.len() as int) =~= lv);
    out.append("\n");
    assert(out@ =~= table_head(lv));
    let ghost head = out@;
    let ghost ls = shown.map_values(|r: RenderedRow| table_row(r, lv));
    let mut t: usize = 0;
    assert(ls.take(0) =~= Seq::<Seq<char>>::empty());
    while t < n
        invariant
            n <= rows.len(),
            shown == rows@.take(n as int),
            t <= n,
            lv == strs_view(labels@),
            ls == shown.map_values(|r: RenderedRow| table_row(r, lv)),
            out@ == head + concat_spec(ls.take(t as int)),
        decreases n - t,
    {
        proof {
            lemma_concat_take(ls, t as int);
        }
        let line = format_table_row(&rows[t], &labels);
        out.append(line.as_str());
        t = t + 1;
    }
    assert(ls.take(n as int) =~= ls);
    assert(lv == full.take(min_nat(12, full.len()) as int));
    out
}

} // verus!
