use crate::text::{join, joined, quote_all, quoted_all, texts};
use crate::types::{flat_values, Report, ReportResponse, ReportRow};
use vstd::prelude::*;
use vstd::string::*;

verus! {

/// The header line: every column name quoted, joined by the delimiter, and a newline.
pub open spec fn header_line(report: Report, delimiter: Seq<char>) -> Seq<char> {
    joined(quote_all(report.headers()), delimiter) + seq!['\n']
}

/// The quoted dimension values joined by the delimiter, followed by one more
/// delimiter; nothing for a row without dimension values.
pub open spec fn dimension_prefix(row: ReportRow, delimiter: Seq<char>) -> Seq<char> {
    if row.dimensions@.len() == 0 {
        Seq::empty()
    } else {
        joined(quote_all(row.dimension_values()), delimiter) + delimiter
    }
}

/// One line per row: the dimension prefix, the metric values unquoted and
/// joined by the delimiter, and a newline.
pub open spec fn row_line(row: ReportRow, delimiter: Seq<char>) -> Seq<char> {
    dimension_prefix(row, delimiter) + joined(flat_values(row.metrics@), delimiter) + seq!['\n']
}

/// The lines of `rows`, in order.
pub open spec fn row_lines(rows: Seq<ReportRow>, delimiter: Seq<char>) -> Seq<char>
    decreases rows.len(),
{
    if rows.len() == 0 {
        Seq::empty()
    } else {
        row_lines(rows.drop_last(), delimiter) + row_line(rows.last(), delimiter)
    }
}

/// The delimited text of a report: its header line, then one line per row.
pub open spec fn rendered(report: Report, delimiter: Seq<char>) -> Seq<char> {
    header_line(report, delimiter) + row_lines(report.rows(), delimiter)
}

/// The delimited text of each report, in order.
pub open spec fn rendered_all(reports: Seq<Report>, delimiter: Seq<char>) -> Seq<Seq<char>> {
    reports.map_values(|r: Report| rendered(r, delimiter))
}

fn render_row(row: &ReportRow, delimiter: &str) -> (r: String)
    ensures
        r@ == row_line(*row, delimiter@),
{
    proof {
        reveal_strlit("\n");
    }
    let mut line = String::new();
    if row.dimensions.len() != 0 {
        let dimensions = quoted_all(&row.dimensions);
        let prefix = join(&dimensions, delimiter);
        line.append(prefix.as_str());
        line.append(delimiter);
    }
    let values = row.flat_value_iterator();
    let metric_data = join(&values, delimiter);
    line.append(metric_data.as_str());
    line.append("\n");
    proof {
        assert(line@ =~= row_line(*row, delimiter@));
    }
    line
}

/// Renders one report as delimited text: a header line with every column
/// name quoted, then for each row its quoted dimension values and its raw
/// metric values, all joined by `delimiter`.
pub fn report_to_flat(report: &Report, delimiter: &str) -> (r: String)
    ensures
        r@ == rendered(*report, delimiter@),
{
    proof {
        reveal_strlit("\n");
    }
    let headers = report.resolve_headers();
    let quoted_headers = quoted_all(&headers);
    let mut result = join(&quoted_headers, delimiter);
    result.append("\n");
    let rows = &report.data.rows;
    for i in 0..rows.len()
        invariant
            rows@ == report.rows(),
            result@ == header_line(*report, delimiter@) + row_lines(
                rows@.take(i as int),
                delimiter@,
            ),
    {
        let line = render_row(&rows[i], delimiter);
        result.append(line.as_str());
        proof {
            assert(rows@.take(i + 1).drop_last() =~= rows@.take(i as int));
        }
    }
    proof {
        assert(rows@.take(rows@.len() as int) =~= rows@);
    }
    result
}

/// Renders each report of the response on its own, in order.
pub fn response_to_delimited_reports(response: &ReportResponse, delimiter: &str) -> (r: Vec<
    String,
>)
    ensures
        r@.len() == response.reports@.len(),
        forall|i: int|
            0 <= i < r@.len() ==> #[trigger] r@[i]@ == rendered(
                response.reports@[i],
                delimiter@,
            ),
        texts(r@) == rendered_all(response.reports@, delimiter@),
{
    let mut r: Vec<String> = Vec::new();
    for i in 0..response.reports.len()
        invariant
            r@.len() == i,
            forall|j: int|
                0 <= j < i ==> #[trigger] r@[j]@ == rendered(response.reports@[j], delimiter@),
    {
        r.push(report_to_flat(&response.reports[i], delimiter));
    }
    proof {
        assert(texts(r@) =~= rendered_all(response.reports@, delimiter@));
    }
    r
}

} // verus!
