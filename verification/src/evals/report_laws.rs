//! What a report counts and how it is laid out, case by case.

use vstd::prelude::*;
use vstd::utf8::encode_utf8;
use crate::evals::layout::{
    cells, column_width, column_widths, dimension_line, escaped, grid, headers, mostly_passed,
    padded, page, page_bar, page_bars, page_row, page_rows, record, record_fields, repeated, ruler,
    table, table_line, total_line, Figures, PAGE_FOOT, PAGE_HEAD, PAGE_MIDDLE,
};
use crate::evals::report::{
    has_dimension, passing, summarized, summary_names, within, CaseView, DimensionSummary,
    RunReport,
};
use crate::sorted::precedes;
use crate::text::decimal;
use crate::views::views;

verus! {

// ---------------------------------------------------------------------------
// Counts
// ---------------------------------------------------------------------------

/// A case more is counted once: in the total of its own dimension alone, and
/// among the passing ones exactly when it passed.
pub proof fn law_a_case_is_counted_once(cases: Seq<CaseView>, c: CaseView, d: Seq<char>)
    ensures
        within(cases.push(c), d).len() == within(cases, d).len() + (if c.dimension == d {
            1nat
        } else {
            0nat
        }),
        passing(within(cases.push(c), d)).len() == passing(within(cases, d)).len() + (
        if c.dimension == d && c.passed {
            1nat
        } else {
            0nat
        }),
        passing(cases.push(c)).len() == passing(cases).len() + (if c.passed {
            1nat
        } else {
            0nat
        }),
        cases.len() == 0 ==> within(cases, d).len() == 0 && passing(cases).len() == 0 && passing(
            within(cases, d),
        ).len() == 0,
{
    let same = |c: CaseView| c.dimension == d;
    let ok = |c: CaseView| c.passed;
    cases.lemma_filter_push(c, same);
    cases.lemma_filter_push(c, ok);
    within(cases, d).lemma_filter_push(c, ok);
    if cases.len() == 0 {
        reveal(Seq::filter);
    }
}

/// The summaries of a report: one for each dimension that a case has, and no
/// other, in the order of their names, each with the number of its cases and of
/// those that passed.
pub proof fn law_what_summaries_say(
    cases: Seq<CaseView>,
    s: Seq<DimensionSummary>,
    d: Seq<char>,
    i: int,
    j: int,
)
    requires
        summarized(cases, s),
    ensures
        (exists|n: int| 0 <= n < s.len() && (#[trigger] s[n]).dimension@ == d) <==> exists|c: int|
            0 <= c < cases.len() && (#[trigger] cases[c]).dimension == d,
        0 <= i < s.len() ==> {
            &&& s[i].total == cases.filter(|c: CaseView| c.dimension == s[i].dimension@).len()
            &&& s[i].passed == cases.filter(
                |c: CaseView| c.dimension == s[i].dimension@,
            ).filter(|c: CaseView| c.passed).len()
        },
        0 <= i < j < s.len() ==> precedes(s[i].dimension@, s[j].dimension@),
{
    let names = summary_names(s);
    if 0 <= i < s.len() {
        assert(names[i] == s[i].dimension@);
    }
    if 0 <= j < s.len() {
        assert(names[j] == s[j].dimension@);
    }
    assert(names.contains(d) <==> has_dimension(cases, d));
    if names.contains(d) {
        let n = choose|n: int| 0 <= n < names.len() && names[n] == d;
        assert(s[n].dimension@ == d);
    }
    if exists|n: int| 0 <= n < s.len() && (#[trigger] s[n]).dimension@ == d {
        let n = choose|n: int| 0 <= n < s.len() && (#[trigger] s[n]).dimension@ == d;
        assert(names[n] == d);
    }
}

// ---------------------------------------------------------------------------
// The table
// ---------------------------------------------------------------------------

/// A table has a line of headers, a ruler, and then one line per case, each with
/// whether the case passed, its id, its dimension, its score, the time and the
/// steps it took and its detail, in this order.
pub proof fn law_what_a_table_shows(cases: Seq<CaseView>, scores: Seq<Seq<char>>, i: int)
    requires
        0 <= i < cases.len(),
    ensures
        table(cases, scores).len() == cases.len() + 2,
        exists|widths: Seq<nat>|
            {
                &&& widths.len() == 7
                &&& table(cases, scores)[0] == table_line(
                    seq![
                        "STATUS"@,
                        "ID"@,
                        "DIMENSION"@,
                        "SCORE"@,
                        "MS"@,
                        "STEPS"@,
                        "DETAIL"@,
                    ],
                    widths,
                )
                &&& table(cases, scores)[i + 2] == table_line(
                    seq![
                        if cases[i].passed {
                            "PASS"@
                        } else {
                            "FAIL"@
                        },
                        cases[i].id,
                        cases[i].dimension,
                        scores[i],
                        decimal(cases[i].elapsed_ms as nat),
                        decimal(cases[i].steps as nat),
                        cases[i].detail,
                    ],
                    widths,
                )
                &&& table(cases, scores)[1] == #[trigger] ruler(widths)
            },
{
    let widths = column_widths(grid(cases, scores));
    assert(table(cases, scores)[0] == table_line(headers(), widths));
    assert(table(cases, scores)[i + 2] == table_line(cells(cases[i], scores[i]), widths));
    assert(table(cases, scores)[1] == ruler(widths));
}

/// A column is as wide as its widest cell, in bytes: no cell of it is wider, and
/// some cell is as wide.
pub proof fn law_columns_fit_their_widest_cell(rows: Seq<Seq<Seq<char>>>, column: int, i: int)
    requires
        0 <= i < rows.len(),
    ensures
        encode_utf8(rows[i][column]).len() <= column_width(rows, column),
        exists|n: int|
            0 <= n < rows.len() && encode_utf8(#[trigger] rows[n][column]).len() == column_width(
                rows,
                column,
            ),
    decreases rows.len(),
{
    let front = rows.drop_last();
    let last = rows.len() - 1;
    if i < last {
        law_columns_fit_their_widest_cell(front, column, i);
        assert(front[i] == rows[i]);
    } else if front.len() > 0 {
        law_columns_fit_their_widest_cell(front, column, 0);
    }
    if front.len() > 0 && encode_utf8(rows[last][column]).len() <= column_width(front, column) {
        let n = choose|n: int|
            0 <= n < front.len() && encode_utf8(#[trigger] front[n][column]).len() == column_width(
                front,
                column,
            );
        assert(rows[n] == front[n]);
        assert(encode_utf8(rows[n][column]).len() == column_width(rows, column));
    } else {
        if front.len() == 0 {
            assert(column_width(front, column) == 0);
        }
        assert(encode_utf8(rows[last][column]).len() == column_width(rows, column));
    }
}

/// Padding adds spaces at the end, up to the width and no further, and never
/// cuts.
pub proof fn law_padding_fills_the_width(s: Seq<char>, width: nat, i: int)
    ensures
        s.len() >= width ==> padded(s, width) == s,
        s.len() < width ==> padded(s, width).len() == width,
        s.is_prefix_of(padded(s, width)),
        s.len() <= i < padded(s, width).len() ==> padded(s, width)[i] == ' ',
{
    assert(s =~= padded(s, width).subrange(0, s.len() as int));
}

/// A line of the table is its cells, each padded to its column, with two spaces
/// between each two; the ruler has a dash for every place of a column.
pub proof fn law_what_table_lines_are(row: Seq<Seq<char>>, widths: Seq<nat>, cell: Seq<char>, w: nat)
    requires
        row.len() == widths.len(),
    ensures
        row.len() > 0 ==> table_line(row.push(cell), widths.push(w)) == table_line(row, widths)
            + "  "@ + padded(cell, w),
        row.len() == 0 ==> table_line(row.push(cell), widths.push(w)) == padded(cell, w),
        row.len() > 0 ==> ruler(widths.push(w)) == ruler(widths) + "  "@ + Seq::new(
            w,
            |i: int| '-',
        ),
        row.len() == 0 ==> ruler(widths.push(w)) == Seq::new(w, |i: int| '-'),
{
    let a = Seq::new(row.len(), |j: int| padded(row[j], widths[j]));
    let b = Seq::new(
        row.push(cell).len(),
        |j: int| padded(row.push(cell)[j], widths.push(w)[j]),
    );
    assert(b.drop_last() =~= a);
    assert(b.last() == padded(cell, w));
    let dash = |w: nat| repeated('-', w);
    let c = widths.map_values(dash);
    let d = widths.push(w).map_values(dash);
    assert(d.drop_last() =~= c);
    assert(d.last() =~= Seq::new(w, |i: int| '-'));
}

/// The summary lines say how many of how many passed, overall and in each
/// dimension, with the share in percent.
pub proof fn law_how_summary_lines_read(
    passed: nat,
    total: nat,
    rate: Seq<char>,
    d: DimensionSummary,
)
    ensures
        total_line(passed, total, rate) == decimal(passed) + "/"@ + decimal(total) + " passed ("@
            + rate + "%)"@,
        dimension_line(d, rate) == "  "@ + padded(d.dimension@, 14) + " "@ + decimal(
            d.passed as nat,
        ) + "/"@ + decimal(d.total as nat) + " ("@ + rate + "%)"@,
{
}

// ---------------------------------------------------------------------------
// Records and the page
// ---------------------------------------------------------------------------

/// A record has a value under every field, in the order of the fields.
pub proof fn law_records_line_up_with_their_fields(
    c: CaseView,
    value: Seq<char>,
    threshold: Seq<char>,
    i: int,
)
    ensures
        record(c, value, threshold).len() == record_fields().len(),
        0 <= i < record_fields().len() ==> {
            let field = record_fields()[i];
            let cell = record(c, value, threshold)[i];
            &&& i == 0 <==> field == "id"@
            &&& field == "id"@ ==> cell == c.id
            &&& i == 1 ==> field == "description"@ && cell == c.description
            &&& i == 2 ==> field == "dimension"@ && cell == c.dimension
            &&& i == 3 ==> field == "metric"@ && cell == c.metric
            &&& i == 4 ==> field == "value"@ && cell == value
            &&& i == 5 ==> field == "threshold"@ && cell == threshold
            &&& i == 6 ==> field == "passed"@ && cell == if c.passed {
                "true"@
            } else {
                "false"@
            }
            &&& i == 7 ==> field == "elapsed_ms"@ && cell == decimal(c.elapsed_ms as nat)
            &&& i == 8 ==> field == "steps"@ && cell == decimal(c.steps as nat)
            &&& i == 9 ==> field == "detail"@ && cell == c.detail
        },
        record_fields().len() == 10,
{
    reveal_strlit("id");
    reveal_strlit("description");
    reveal_strlit("dimension");
    reveal_strlit("metric");
    reveal_strlit("value");
    reveal_strlit("threshold");
    reveal_strlit("passed");
    reveal_strlit("elapsed_ms");
    reveal_strlit("steps");
    reveal_strlit("detail");
    assert("id"@.len() == 2);
    assert("description"@.len() == 11);
    assert("dimension"@.len() == 9);
    assert("metric"@.len() == 6);
    assert("value"@.len() == 5);
    assert("threshold"@.len() == 9);
    assert("passed"@.len() == 6);
    assert("elapsed_ms"@.len() == 10);
    assert("steps"@.len() == 5);
    assert("detail"@.len() == 6);
}

/// Escaping goes character by character: the four that delimit markup become
/// their entities, and every other stays as it is.
pub proof fn law_escaping_goes_character_by_character(s: Seq<char>, c: char)
    ensures
        s.len() == 0 ==> escaped(s).len() == 0,
        escaped(s.push(c)) == escaped(s) + (if c == '&' {
            "&amp;"@
        } else if c == '<' {
            "&lt;"@
        } else if c == '>' {
            "&gt;"@
        } else if c == '"' {
            "&quot;"@
        } else {
            seq![c]
        }),
{
    assert(s.push(c).drop_last() =~= s);
}

/// The page shows every case, in order, with its score beside it and its texts
/// escaped: a case more adds its row at the end.
pub proof fn law_the_page_shows_every_case(
    cases: Seq<CaseView>,
    scores: Seq<Seq<char>>,
    c: CaseView,
)
    requires
        scores.len() > cases.len(),
    ensures
        cases.len() == 0 ==> page_rows(cases, scores).len() == 0,
        page_rows(cases.push(c), scores) == page_rows(cases, scores) + page_row(
            c,
            scores[cases.len() as int],
        ),
        c.passed ==> page_row(c, scores[0]) == "<tr class=\""@ + "pass"@ + "\"><td>"@ + "PASS"@
            + "</td><td><code>"@ + escaped(c.id) + "</code></td><td>"@ + escaped(c.dimension)
            + "</td><td>"@ + escaped(c.metric) + "</td><td>"@ + scores[0] + "</td><td>"@ + decimal(
            c.elapsed_ms as nat,
        ) + "ms</td><td>"@ + decimal(c.steps as nat) + "</td><td>"@ + escaped(c.detail)
            + "</td></tr>\n"@,
        !c.passed ==> page_row(c, scores[0]) == "<tr class=\""@ + "fail"@ + "\"><td>"@ + "FAIL"@
            + "</td><td><code>"@ + escaped(c.id) + "</code></td><td>"@ + escaped(c.dimension)
            + "</td><td>"@ + escaped(c.metric) + "</td><td>"@ + scores[0] + "</td><td>"@ + decimal(
            c.elapsed_ms as nat,
        ) + "ms</td><td>"@ + decimal(c.steps as nat) + "</td><td>"@ + escaped(c.detail)
            + "</td></tr>\n"@,
{
    assert(cases.push(c).drop_last() =~= cases);
}

/// The page shows every dimension, in order, as a bar of its share: a dimension
/// more adds its bar at the end.
pub proof fn law_the_page_shows_every_dimension(
    dims: Seq<DimensionSummary>,
    rates: Seq<Seq<char>>,
    d: DimensionSummary,
)
    requires
        rates.len() > dims.len(),
    ensures
        dims.len() == 0 ==> page_bars(dims, rates).len() == 0,
        page_bars(dims.push(d), rates) == page_bars(dims, rates) + page_bar(
            d,
            rates[dims.len() as int],
        ),
        page_bar(d, rates[0]) == "<div class=\"dim-row\"><span class=\"dim-label\">"@ + escaped(
            d.dimension@,
        ) + "</span><div class=\"bar\"><div class=\"bar-fill\" style=\"width:"@ + rates[0]
            + "%\"></div></div><span class=\"dim-count\">"@ + decimal(d.passed as nat) + "/"@
            + decimal(d.total as nat) + "</span></div>\n"@,
{
    assert(dims.push(d).drop_last() =~= dims);
}

/// The headline is good exactly when there were cases and at least four in five
/// of them passed, and the page is the headline, the counts, the bars and the
/// rows.
pub proof fn law_what_the_page_is_made_of(report: RunReport, figures: Figures)
    ensures
        mostly_passed(report.passed as nat, report.total as nat) <==> report.total > 0 && 5
            * report.passed >= 4 * report.total,
        report.total > 0 && 5 * report.passed >= 4 * report.total ==> page(report, figures)
            == PAGE_HEAD@ + "good"@ + "\">"@ + figures.rate@ + "%</div>\n  <div>"@ + decimal(
            report.passed as nat,
        ) + "/"@ + decimal(report.total as nat) + " cases passed<br>generated at "@ + decimal(
            report.generated_at_ms as nat,
        ) + "ms (unix epoch)</div>\n</div>\n"@ + page_bars(
            report.by_dimension@,
            views(figures.rates@),
        ) + PAGE_MIDDLE@ + page_rows(views(report.cases@), views(figures.scores@)) + PAGE_FOOT@,
        report.total == 0 || 5 * report.passed < 4 * report.total ==> page(report, figures)
            == PAGE_HEAD@ + "bad"@ + "\">"@ + figures.rate@ + "%</div>\n  <div>"@ + decimal(
            report.passed as nat,
        ) + "/"@ + decimal(report.total as nat) + " cases passed<br>generated at "@ + decimal(
            report.generated_at_ms as nat,
        ) + "ms (unix epoch)</div>\n</div>\n"@ + page_bars(
            report.by_dimension@,
            views(figures.rates@),
        ) + PAGE_MIDDLE@ + page_rows(views(report.cases@), views(figures.scores@)) + PAGE_FOOT@,
{
}

} // verus!
