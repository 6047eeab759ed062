//! Laying out a report: a table, rows of comma-separated values, and a static
//! page. The few figures that are shown as rounded decimals come in as text, in
//! a [`Figures`].

use vstd::prelude::*;
use vstd::utf8::encode_utf8;
use crate::evals::report::{CaseReport, CaseView, DimensionSummary, RunReport};
use crate::scan::chars_of;
use crate::text::{decimal, decimal_text, join, join_text, push_char};
use crate::views::{lemma_views_push, views};

verus! {

/// The figures that are shown rounded, as text: the score of each case, the
/// share of cases that passed, and that share in each dimension, both in
/// percent.
#[derive(Debug)]
pub struct Figures {
    pub scores: Vec<String>,
    pub rate: String,
    pub rates: Vec<String>,
}

impl Figures {
    /// Whether there is a figure for every case and every dimension.
    pub open spec fn fit(&self, report: &RunReport) -> bool {
        &&& self.scores@.len() == report.cases@.len()
        &&& self.rates@.len() == report.by_dimension@.len()
    }
}

// ---------------------------------------------------------------------------
// Table
// ---------------------------------------------------------------------------

/// The length of a text in bytes.
pub open spec fn byte_len(s: Seq<char>) -> nat {
    encode_utf8(s).len()
}

/// A character `n` times.
pub open spec fn repeated(c: char, n: nat) -> Seq<char> {
    Seq::new(n, |i: int| c)
}

/// A text followed by spaces up to this many characters.
pub open spec fn padded(s: Seq<char>, width: nat) -> Seq<char> {
    if s.len() < width {
        s + repeated(' ', (width - s.len()) as nat)
    } else {
        s
    }
}

/// The headers of the table.
pub open spec fn headers() -> Seq<Seq<char>> {
    seq!["STATUS"@, "ID"@, "DIMENSION"@, "SCORE"@, "MS"@, "STEPS"@, "DETAIL"@]
}

/// `PASS` or `FAIL`.
pub open spec fn status(passed: bool) -> Seq<char> {
    if passed {
        "PASS"@
    } else {
        "FAIL"@
    }
}

/// The cells of a case's row.
pub open spec fn cells(c: CaseView, score: Seq<char>) -> Seq<Seq<char>> {
    seq![
        status(c.passed),
        c.id,
        c.dimension,
        score,
        decimal(c.elapsed_ms as nat),
        decimal(c.steps as nat),
        c.detail,
    ]
}

/// The rows of the table: the headers, and then one row per case.
pub open spec fn grid(cases: Seq<CaseView>, scores: Seq<Seq<char>>) -> Seq<Seq<Seq<char>>> {
    seq![headers()] + Seq::new(cases.len(), |i: int| cells(cases[i], scores[i]))
}

/// The width of a column: the most bytes that a cell of it takes.
pub open spec fn column_width(rows: Seq<Seq<Seq<char>>>, column: int) -> nat
    decreases rows.len(),
{
    if rows.len() == 0 {
        0
    } else {
        let above = column_width(rows.drop_last(), column);
        let here = byte_len(rows.last()[column]);
        if here > above {
            here
        } else {
            above
        }
    }
}

/// The widths of the columns.
pub open spec fn column_widths(rows: Seq<Seq<Seq<char>>>) -> Seq<nat> {
    Seq::new(7, |j: int| column_width(rows, j))
}

/// One line of the table.
pub open spec fn table_line(row: Seq<Seq<char>>, widths: Seq<nat>) -> Seq<char> {
    join(Seq::new(row.len(), |j: int| padded(row[j], widths[j])), "  "@)
}

/// The line under the headers.
pub open spec fn ruler(widths: Seq<nat>) -> Seq<char> {
    join(widths.map_values(|w: nat| repeated('-', w)), "  "@)
}

/// The table: the line of headers, a ruler, and one line per case.
pub open spec fn table(cases: Seq<CaseView>, scores: Seq<Seq<char>>) -> Seq<Seq<char>> {
    let rows = grid(cases, scores);
    let widths = column_widths(rows);
    seq![table_line(headers(), widths), ruler(widths)] + Seq::new(
        cases.len(),
        |i: int| table_line(cells(cases[i], scores[i]), widths),
    )
}

/// The line that sums up the suite.
pub open spec fn total_line(passed: nat, total: nat, rate: Seq<char>) -> Seq<char> {
    decimal(passed) + "/"@ + decimal(total) + " passed ("@ + rate + "%)"@
}

/// The line that sums up one dimension.
pub open spec fn dimension_line(d: DimensionSummary, rate: Seq<char>) -> Seq<char> {
    "  "@ + padded(d.dimension@, 14) + " "@ + decimal(d.passed as nat) + "/"@ + decimal(
        d.total as nat,
    ) + " ("@ + rate + "%)"@
}

/// A text followed by spaces up to this many characters, as text.
fn padded_text(s: &str, width: usize) -> (r: String)
    ensures
        r@ == padded(s@, width as nat),
{
    let mut out = s.to_owned();
    let n: usize = s.unicode_len();
    let mut i: usize = n;
    assert(out@ =~= s@ + repeated(' ', 0));
    while i < width
        invariant
            n == s@.len(),
            n <= i,
            i <= width || i == n,
            out@ == s@ + repeated(' ', (i - n) as nat),
        decreases width - i,
    {
        push_char(&mut out, ' ');
        i = i + 1;
        assert(out@ =~= s@ + repeated(' ', (i - n) as nat));
    }
    out
}

fn dashes(n: usize) -> (r: String)
    ensures
        r@ == repeated('-', n as nat),
{
    let mut out = String::new();
    assert(out@ =~= repeated('-', 0));
    for i in 0..n
        invariant
            out@ == repeated('-', i as nat),
    {
        push_char(&mut out, '-');
        assert(out@ =~= repeated('-', (i + 1) as nat));
    }
    out
}

fn header_row() -> (r: Vec<String>)
    ensures
        views(r@) == headers(),
{
    let r = vec![
        "STATUS".to_owned(),
        "ID".to_owned(),
        "DIMENSION".to_owned(),
        "SCORE".to_owned(),
        "MS".to_owned(),
        "STEPS".to_owned(),
        "DETAIL".to_owned(),
    ];
    assert(views(r@) =~= headers());
    r
}

fn status_text(passed: bool) -> (r: &'static str)
    ensures
        r@ == status(passed),
{
    if passed {
        "PASS"
    } else {
        "FAIL"
    }
}

fn case_row(c: &CaseReport, score: &str) -> (r: Vec<String>)
    ensures
        views(r@) == cells(c@, score@),
{
    let r = vec![
        status_text(c.passed).to_owned(),
        c.id.clone(),
        c.dimension.clone(),
        score.to_owned(),
        decimal_text(c.elapsed_ms),
        decimal_text(c.steps as u64),
        c.detail.clone(),
    ];
    assert(views(r@) =~= cells(c@, score@));
    r
}

/// The views of the rows.
pub open spec fn row_views(rows: Seq<Vec<String>>) -> Seq<Seq<Seq<char>>> {
    rows.map_values(|r: Vec<String>| views(r@))
}

fn widths_of(rows: &Vec<Vec<String>>) -> (r: Vec<usize>)
    requires
        forall|i: int| 0 <= i < rows@.len() ==> (#[trigger] rows@[i])@.len() == 7,
    ensures
        r@.len() == 7,
        forall|j: int| 0 <= j < 7 ==> #[trigger] r@[j] == column_width(row_views(rows@), j),
{
    let mut widths: Vec<usize> = Vec::new();
    let ghost all = row_views(rows@);
    for j in 0..7usize
        invariant
            all == row_views(rows@),
            forall|i: int| 0 <= i < rows@.len() ==> (#[trigger] rows@[i])@.len() == 7,
            widths@.len() == j,
            forall|k: int| 0 <= k < j ==> #[trigger] widths@[k] == column_width(all, k),
    {
        let mut w: usize = 0;
        for i in 0..rows.len()
            invariant
                0 <= j < 7,
                all == row_views(rows@),
                forall|i: int| 0 <= i < rows@.len() ==> (#[trigger] rows@[i])@.len() == 7,
                w == column_width(all.take(i as int), j as int),
        {
            assert(all.take(i + 1).drop_last() =~= all.take(i as int));
            assert(rows@[i as int]@.len() == 7);
            assert(all.take(i + 1).last()[j as int] == rows[i as int]@[j as int]@);
            let here: usize = rows[i][j].as_str().as_bytes().len();
            if here > w {
                w = here;
            }
        }
        assert(all.take(all.len() as int) =~= all);
        widths.push(w);
    }
    widths
}

/// The widths as mathematical numbers.
pub open spec fn nats(w: Seq<usize>) -> Seq<nat> {
    w.map_values(|x: usize| x as nat)
}

fn line_of(row: &Vec<String>, widths: &Vec<usize>) -> (r: String)
    requires
        row@.len() == 7,
        widths@.len() == 7,
    ensures
        r@ == table_line(views(row@), nats(widths@)),
{
    let mut parts: Vec<String> = Vec::new();
    let ghost whole = Seq::new(
        views(row@).len(),
        |j: int| padded(views(row@)[j], nats(widths@)[j]),
    );
    for j in 0..7usize
        invariant
            row@.len() == 7,
            widths@.len() == 7,
            whole == Seq::new(
                views(row@).len(),
                |j: int| padded(views(row@)[j], nats(widths@)[j]),
            ),
            views(parts@) == whole.take(j as int),
    {
        broadcast use lemma_views_push;

        parts.push(padded_text(&row[j], widths[j]));
        assert(views(row@)[j as int] == row[j as int]@);
        assert(nats(widths@)[j as int] == widths[j as int] as nat);
        assert(views(parts@) =~= whole.take(j + 1));
    }
    assert(whole.take(7) =~= whole);
    join_text(&parts, "  ")
}

fn ruler_text(widths: &Vec<usize>) -> (r: String)
    ensures
        r@ == ruler(nats(widths@)),
{
    let mut parts: Vec<String> = Vec::new();
    let ghost whole = nats(widths@).map_values(|w: nat| repeated('-', w));
    assert(views(parts@) =~= whole.take(0));
    for j in 0..widths.len()
        invariant
            whole == nats(widths@).map_values(|w: nat| repeated('-', w)),
            views(parts@) == whole.take(j as int),
    {
        broadcast use lemma_views_push;

        parts.push(dashes(widths[j]));
        assert(nats(widths@)[j as int] == widths[j as int] as nat);
        assert(views(parts@) =~= whole.take(j + 1));
    }
    assert(whole.take(whole.len() as int) =~= whole);
    join_text(&parts, "  ")
}

/// The lines of the table.
pub fn table_lines(report: &RunReport, figures: &Figures) -> (r: Vec<String>)
    requires
        figures.fit(report),
    ensures
        views(r@) == table(views(report.cases@), views(figures.scores@)),
{
    let ghost cases = views(report.cases@);
    let ghost scores = views(figures.scores@);
    let ghost whole = grid(cases, scores);
    let mut rows: Vec<Vec<String>> = Vec::new();
    let first = header_row();
    assert(views(first@).len() == 7);
    rows.push(first);
    assert(row_views(rows@) =~= whole.take(1));
    for i in 0..report.cases.len()
        invariant
            figures.fit(report),
            cases == views(report.cases@),
            scores == views(figures.scores@),
            whole == grid(cases, scores),
            row_views(rows@) == whole.take(i + 1),
            forall|k: int| 0 <= k < rows@.len() ==> (#[trigger] rows@[k])@.len() == 7,
    {
        let ghost before = rows@;
        let row = case_row(&report.cases[i], &figures.scores[i]);
        assert(views(row@).len() == 7);
        rows.push(row);
        assert(cases[i as int] == report.cases[i as int]@);
        assert(scores[i as int] == figures.scores[i as int]@);
        assert(row_views(rows@) =~= row_views(before).push(views(row@)));
        assert(whole.take(i + 2) =~= whole.take(i + 1).push(whole[i + 1]));
    }
    assert(whole.take(whole.len() as int) =~= whole);
    let widths = widths_of(&rows);
    assert(nats(widths@) =~= column_widths(whole));
    let ghost w = column_widths(whole);
    let ghost lines = table(cases, scores);
    let mut out: Vec<String> = Vec::new();
    let head = header_row();
    assert(views(head@).len() == 7);
    out.push(line_of(&head, &widths));
    out.push(ruler_text(&widths));
    assert(views(out@) =~= lines.take(2));
    for i in 0..report.cases.len()
        invariant
            figures.fit(report),
            cases == views(report.cases@),
            scores == views(figures.scores@),
            whole == grid(cases, scores),
            w == column_widths(whole),
            lines == table(cases, scores),
            widths@.len() == 7,
            nats(widths@) == w,
            views(out@) == lines.take(i + 2),
    {
        broadcast use lemma_views_push;

        let row = case_row(&report.cases[i], &figures.scores[i]);
        assert(views(row@).len() == 7);
        out.push(line_of(&row, &widths));
        assert(cases[i as int] == report.cases[i as int]@);
        assert(scores[i as int] == figures.scores[i as int]@);
        assert(lines.take(i + 3) =~= lines.take(i + 2).push(lines[i + 2]));
    }
    assert(lines.take(lines.len() as int) =~= lines);
    out
}

/// The lines under the table: the suite as a whole, and then each dimension.
pub fn summary_lines(report: &RunReport, figures: &Figures) -> (r: Vec<String>)
    requires
        figures.fit(report),
    ensures
        r@.len() == report.by_dimension@.len() + 1,
        r@[0]@ == total_line(report.passed as nat, report.total as nat, figures.rate@),
        forall|i: int|
            0 <= i < report.by_dimension@.len() ==> #[trigger] r@[i + 1]@ == dimension_line(
                report.by_dimension@[i],
                figures.rates@[i]@,
            ),
{
    let mut out: Vec<String> = Vec::new();
    let mut s = decimal_text(report.passed as u64);
    s.append("/");
    let total = decimal_text(report.total as u64);
    s.append(&total);
    s.append(" passed (");
    s.append(&figures.rate);
    s.append("%)");
    out.push(s);
    let mut i: usize = 0;
    while i < report.by_dimension.len()
        invariant
            figures.fit(report),
            i <= report.by_dimension@.len(),
            out@.len() == i + 1,
            out@[0]@ == total_line(report.passed as nat, report.total as nat, figures.rate@),
            forall|k: int|
                0 <= k < i ==> #[trigger] out@[k + 1]@ == dimension_line(
                    report.by_dimension@[k],
                    figures.rates@[k]@,
                ),
        decreases report.by_dimension@.len() - i,
    {
        let d = &report.by_dimension[i];
        let mut s = "  ".to_owned();
        let name = padded_text(&d.dimension, 14);
        s.append(&name);
        s.append(" ");
        let passed = decimal_text(d.passed as u64);
        s.append(&passed);
        s.append("/");
        let total = decimal_text(d.total as u64);
        s.append(&total);
        s.append(" (");
        s.append(&figures.rates[i]);
        s.append("%)");
        out.push(s);
        i = i + 1;
    }
    out
}

// ---------------------------------------------------------------------------
// Comma-separated values
// ---------------------------------------------------------------------------

/// The names of a record's fields.
pub open spec fn record_fields() -> Seq<Seq<char>> {
    seq![
        "id"@,
        "description"@,
        "dimension"@,
        "metric"@,
        "value"@,
        "threshold"@,
        "passed"@,
        "elapsed_ms"@,
        "steps"@,
        "detail"@,
    ]
}

/// `true` or `false`.
pub open spec fn truth(b: bool) -> Seq<char> {
    if b {
        "true"@
    } else {
        "false"@
    }
}

/// The fields of a case's record.
pub open spec fn record(c: CaseView, value: Seq<char>, threshold: Seq<char>) -> Seq<Seq<char>> {
    seq![
        c.id,
        c.description,
        c.dimension,
        c.metric,
        value,
        threshold,
        truth(c.passed),
        decimal(c.elapsed_ms as nat),
        decimal(c.steps as nat),
        c.detail,
    ]
}

/// The names of a record's fields.
pub fn csv_header() -> (r: Vec<String>)
    ensures
        views(r@) == record_fields(),
{
    let r = vec![
        "id".to_owned(),
        "description".to_owned(),
        "dimension".to_owned(),
        "metric".to_owned(),
        "value".to_owned(),
        "threshold".to_owned(),
        "passed".to_owned(),
        "elapsed_ms".to_owned(),
        "steps".to_owned(),
        "detail".to_owned(),
    ];
    assert(views(r@) =~= record_fields());
    r
}

/// The fields of a case's record, with its value and threshold as shown.
pub fn csv_record(c: &CaseReport, value: &str, threshold: &str) -> (r: Vec<String>)
    ensures
        views(r@) == record(c@, value@, threshold@),
{
    let passed: &'static str = if c.passed {
        "true"
    } else {
        "false"
    };
    let r = vec![
        c.id.clone(),
        c.description.clone(),
        c.dimension.clone(),
        c.metric.clone(),
        value.to_owned(),
        threshold.to_owned(),
        passed.to_owned(),
        decimal_text(c.elapsed_ms),
        decimal_text(c.steps as u64),
        c.detail.clone(),
    ];
    assert(views(r@) =~= record(c@, value@, threshold@));
    r
}

// ---------------------------------------------------------------------------
// Page
// ---------------------------------------------------------------------------

/// How one character is written in HTML.
pub open spec fn escaped_char(c: char) -> Seq<char> {
    if c == '&' {
        "&amp;"@
    } else if c == '<' {
        "&lt;"@
    } else if c == '>' {
        "&gt;"@
    } else if c == '"' {
        "&quot;"@
    } else {
        seq![c]
    }
}

/// How a text is written in HTML.
pub open spec fn escaped(s: Seq<char>) -> Seq<char>
    decreases s.len(),
{
    if s.len() == 0 {
        Seq::empty()
    } else {
        escaped(s.drop_last()) + escaped_char(s.last())
    }
}

/// A text as it is written in HTML.
pub fn escape_html(s: &str) -> (r: String)
    ensures
        r@ == escaped(s@),
{
    let chars = chars_of(s);
    let mut out = String::new();
    assert(out@ =~= escaped(s@.take(0)));
    for i in 0..chars.len()
        invariant
            chars@ == s@,
            out@ == escaped(s@.take(i as int)),
    {
        let c = chars[i];
        assert(s@.take(i + 1).drop_last() =~= s@.take(i as int));
        if c == '&' {
            out.append("&amp;");
        } else if c == '<' {
            out.append("&lt;");
        } else if c == '>' {
            out.append("&gt;");
        } else if c == '"' {
            out.append("&quot;");
        } else {
            push_char(&mut out, c);
            assert(out@ =~= escaped(s@.take(i as int)) + seq![c]);
        }
    }
    assert(s@.take(s@.len() as int) =~= s@);
    out
}

/// The page's row of a case.
pub open spec fn page_row(c: CaseView, score: Seq<char>) -> Seq<char> {
    "<tr class=\""@ + (if c.passed {
        "pass"@
    } else {
        "fail"@
    }) + "\"><td>"@ + status(c.passed) + "</td><td><code>"@ + escaped(c.id)
        + "</code></td><td>"@ + escaped(c.dimension) + "</td><td>"@ + escaped(c.metric)
        + "</td><td>"@ + score + "</td><td>"@ + decimal(c.elapsed_ms as nat) + "ms</td><td>"@
        + decimal(c.steps as nat) + "</td><td>"@ + escaped(c.detail) + "</td></tr>\n"@
}

/// The page's bar of a dimension.
pub open spec fn page_bar(d: DimensionSummary, rate: Seq<char>) -> Seq<char> {
    "<div class=\"dim-row\"><span class=\"dim-label\">"@ + escaped(d.dimension@)
        + "</span><div class=\"bar\"><div class=\"bar-fill\" style=\"width:"@ + rate
        + "%\"></div></div><span class=\"dim-count\">"@ + decimal(d.passed as nat) + "/"@ + decimal(
        d.total as nat,
    ) + "</span></div>\n"@
}

/// The rows of the cases, one after another.
pub open spec fn page_rows(cases: Seq<CaseView>, scores: Seq<Seq<char>>) -> Seq<char>
    decreases cases.len(),
{
    if cases.len() == 0 {
        Seq::empty()
    } else {
        page_rows(cases.drop_last(), scores) + page_row(cases.last(), scores[cases.len() - 1])
    }
}

/// The bars of the dimensions, one after another.
pub open spec fn page_bars(dims: Seq<DimensionSummary>, rates: Seq<Seq<char>>) -> Seq<char>
    decreases dims.len(),
{
    if dims.len() == 0 {
        Seq::empty()
    } else {
        page_bars(dims.drop_last(), rates) + page_bar(dims.last(), rates[dims.len() - 1])
    }
}

/// Whether at least four cases in five passed, and there were any.
pub open spec fn mostly_passed(passed: nat, total: nat) -> bool {
    total > 0 && 5 * passed >= 4 * total
}

/// The page up to the class of the headline figure.
pub const PAGE_HEAD: &'static str = r#"<title>condesate evals dashboard</title>
<style>
  :root { color-scheme: light dark; }
  body { font-family: -apple-system, system-ui, sans-serif; max-width: 960px; margin: 2rem auto; padding: 0 1rem; }
  h1 { font-size: 1.3rem; }
  .summary { display: flex; gap: 2rem; align-items: baseline; margin-bottom: 1.5rem; }
  .summary .rate { font-size: 2rem; font-weight: 700; }
  .summary .rate.good { color: #2e8b57; }
  .summary .rate.bad { color: #c0392b; }
  .dim-row { display: flex; align-items: center; gap: 0.75rem; margin: 0.35rem 0; }
  .dim-label { width: 8rem; font-size: 0.85rem; opacity: 0.8; }
  .bar { flex: 1; height: 0.6rem; background: rgba(127,127,127,0.2); border-radius: 999px; overflow: hidden; }
  .bar-fill { height: 100%; background: #2e8b57; }
  .dim-count { width: 3.5rem; text-align: right; font-size: 0.85rem; opacity: 0.8; }
  table { width: 100%; border-collapse: collapse; margin-top: 1.5rem; font-size: 0.85rem; }
  th, td { text-align: left; padding: 0.4rem 0.6rem; border-bottom: 1px solid rgba(127,127,127,0.25); vertical-align: top; }
  tr.fail td:first-child { color: #c0392b; font-weight: 700; }
  tr.pass td:first-child { color: #2e8b57; font-weight: 700; }
  code { font-family: ui-monospace, Menlo, monospace; }
  footer { margin-top: 2rem; font-size: 0.75rem; opacity: 0.6; }
</style>
<h1>condesate evals dashboard</h1>
<div class="summary">
  <div class="rate "#;

/// The page between the bars and the rows.
pub const PAGE_MIDDLE: &'static str = r#"
<table>
  <thead><tr><th>Status</th><th>ID</th><th>Dimension</th><th>Metric</th><th>Score</th><th>Latency</th><th>Steps</th><th>Detail</th></tr></thead>
  <tbody>
"#;

/// The page after the rows.
pub const PAGE_FOOT: &'static str = r#"  </tbody>
</table>
<footer>Generated by <code>evals</code> against the real <code>condesate</code> agent loop — see docs/references.md for the harness-evals / Awesome-AI-Evaluations-Tools inspiration.</footer>
"#;

/// The whole page.
pub open spec fn page(report: RunReport, figures: Figures) -> Seq<char> {
    PAGE_HEAD@ + (if mostly_passed(report.passed as nat, report.total as nat) {
        "good"@
    } else {
        "bad"@
    }) + "\">"@ + figures.rate@ + "%</div>\n  <div>"@ + decimal(report.passed as nat) + "/"@
        + decimal(report.total as nat) + " cases passed<br>generated at "@ + decimal(
        report.generated_at_ms as nat,
    ) + "ms (unix epoch)</div>\n</div>\n"@ + page_bars(
        report.by_dimension@,
        views(figures.rates@),
    ) + PAGE_MIDDLE@ + page_rows(views(report.cases@), views(figures.scores@)) + PAGE_FOOT@
}

fn row_html(c: &CaseReport, score: &str) -> (r: String)
    ensures
        r@ == page_row(c@, score@),
{
    let mut s = "<tr class=\"".to_owned();
    s.append(
        if c.passed {
            "pass"
        } else {
            "fail"
        },
    );
    s.append("\"><td>");
    s.append(status_text(c.passed));
    s.append("</td><td><code>");
    let id = escape_html(&c.id);
    s.append(&id);
    s.append("</code></td><td>");
    let dimension = escape_html(&c.dimension);
    s.append(&dimension);
    s.append("</td><td>");
    let metric = escape_html(&c.metric);
    s.append(&metric);
    s.append("</td><td>");
    s.append(score);
    s.append("</td><td>");
    let ms = decimal_text(c.elapsed_ms);
    s.append(&ms);
    s.append("ms</td><td>");
    let steps = decimal_text(c.steps as u64);
    s.append(&steps);
    s.append("</td><td>");
    let detail = escape_html(&c.detail);
    s.append(&detail);
    s.append("</td></tr>\n");
    s
}

fn bar_html(d: &DimensionSummary, rate: &str) -> (r: String)
    ensures
        r@ == page_bar(*d, rate@),
{
    let mut s = "<div class=\"dim-row\"><span class=\"dim-label\">".to_owned();
    let name = escape_html(&d.dimension);
    s.append(&name);
    s.append("</span><div class=\"bar\"><div class=\"bar-fill\" style=\"width:");
    s.append(rate);
    s.append("%\"></div></div><span class=\"dim-count\">");
    let passed = decimal_text(d.passed as u64);
    s.append(&passed);
    s.append("/");
    let total = decimal_text(d.total as u64);
    s.append(&total);
    s.append("</span></div>\n");
    s
}

/// The whole page: a headline, a bar per dimension and a row per case.
pub fn dashboard(report: &RunReport, figures: &Figures) -> (r: String)
    requires
        figures.fit(report),
    ensures
        r@ == page(*report, *figures),
{
    let ghost cases = views(report.cases@);
    let ghost scores = views(figures.scores@);
    let mut rows = String::new();
    assert(rows@ =~= page_rows(cases.take(0), scores));
    for i in 0..report.cases.len()
        invariant
            figures.fit(report),
            cases == views(report.cases@),
            scores == views(figures.scores@),
            rows@ == page_rows(cases.take(i as int), scores),
    {
        let row = row_html(&report.cases[i], &figures.scores[i]);
        rows.append(&row);
        assert(cases.take(i + 1).drop_last() =~= cases.take(i as int));
        assert(cases.take(i + 1).last() == report.cases[i as int]@);
        assert(scores[i as int] == figures.scores[i as int]@);
    }
    assert(cases.take(cases.len() as int) =~= cases);

    let ghost dims = report.by_dimension@;
    let ghost rates = views(figures.rates@);
    let mut bars = String::new();
    assert(bars@ =~= page_bars(dims.take(0), rates));
    for i in 0..report.by_dimension.len()
        invariant
            figures.fit(report),
            dims == report.by_dimension@,
            rates == views(figures.rates@),
            bars@ == page_bars(dims.take(i as int), rates),
    {
        let bar = bar_html(&report.by_dimension[i], &figures.rates[i]);
        bars.append(&bar);
        assert(dims.take(i + 1).drop_last() =~= dims.take(i as int));
        assert(dims.take(i + 1).last() == report.by_dimension[i as int]);
        assert(rates[i as int] == figures.rates[i as int]@);
    }
    assert(dims.take(dims.len() as int) =~= dims);

    let mut s = PAGE_HEAD.to_owned();
    s.append(
        if report.total > 0 && 5 * report.passed as u128 >= 4 * report.total as u128 {
            "good"
        } else {
            "bad"
        },
    );
    s.append("\">");
    s.append(&figures.rate);
    s.append("%</div>\n  <div>");
    let passed = decimal_text(report.passed as u64);
    s.append(&passed);
    s.append("/");
    let total = decimal_text(report.total as u64);
    s.append(&total);
    s.append(" cases passed<br>generated at ");
    let at = decimal_text(report.generated_at_ms);
    s.append(&at);
    s.append("ms (unix epoch)</div>\n</div>\n");
    s.append(&bars);
    s.append(PAGE_MIDDLE);
    s.append(&rows);
    s.append(PAGE_FOOT);
    s
}

// ---------------------------------------------------------------------------
// Laws
// ---------------------------------------------------------------------------

/// Escaped text holds none of the characters that delimit markup.
pub proof fn law_escaped_text_is_inert(s: Seq<char>)
    ensures
        !escaped(s).contains('<'),
        !escaped(s).contains('>'),
        !escaped(s).contains('"'),
    decreases s.len(),
{
    reveal_strlit("&amp;");
    reveal_strlit("&lt;");
    reveal_strlit("&gt;");
    reveal_strlit("&quot;");
    if s.len() > 0 {
        law_escaped_text_is_inert(s.drop_last());
        let head = escaped(s.drop_last());
        let tail = escaped_char(s.last());
        assert forall|i: int| 0 <= i < escaped(s).len() implies escaped(s)[i] != '<' && escaped(
            s,
        )[i] != '>' && escaped(s)[i] != '"' by {
            if i < head.len() {
                assert(escaped(s)[i] == head[i]);
                assert(head.contains(head[i]));
            } else {
                assert(escaped(s)[i] == tail[i - head.len()]);
            }
        }
    }
}

} // verus!
