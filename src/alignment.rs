use crate::delimited::{rendered, row_line, row_lines};
use crate::text::{decimal, joined, quote_all, texts};
use crate::types::{flat_values, range_column_name, range_columns, DateRangeValue, Report, ReportRow, ReportResponse};
use vstd::prelude::*;

verus! {

/// `ranges` date ranges give `ranges` columns per metric.
pub proof fn lemma_range_columns_len(names: Seq<Seq<char>>, ranges: nat)
    ensures
        range_columns(names, ranges).len() == ranges * names.len(),
    decreases ranges,
{
    if ranges > 0 {
        lemma_range_columns_len(names, (ranges - 1) as nat);
        assert(ranges * names.len() == (ranges - 1) * names.len() + names.len()) by (nonlinear_arith);
    }
}

/// Value sets of `m` values each give `m` values per set.
pub proof fn lemma_flat_values_len(sets: Seq<DateRangeValue>, m: nat)
    requires
        forall|j: int| 0 <= j < sets.len() ==> (#[trigger] sets[j]).values@.len() == m,
    ensures
        flat_values(sets).len() == sets.len() * m,
    decreases sets.len(),
{
    if sets.len() > 0 {
        lemma_flat_values_len(sets.drop_last(), m);
        assert(sets.last() == sets[sets.len() - 1]);
        assert(sets.len() * m == (sets.len() - 1) * m + m) by (nonlinear_arith);
    }
}

/// In a well-formed report every row has exactly one value per column name.
pub proof fn header_row_alignment(report: Report, i: int)
    requires
        report.well_formed(),
        0 <= i < report.rows().len(),
    ensures
        report.headers().len() == report.rows()[i].flattened().len(),
{
    let row = report.rows()[i];
    assert(row.fits(
        report.column_header.dimensions@.len(),
        report.date_range_count(),
        report.entries().len(),
    ));
    lemma_range_columns_len(report.metric_names(), report.column_ranges());
    lemma_flat_values_len(row.metrics@, report.entries().len());
}

/// With two date ranges and metrics `a` and `b`, the columns are the
/// dimensions, then `a`, `b`, `a_2`, `b_2`.
pub proof fn two_range_column_names(report: Report, a: Seq<char>, b: Seq<char>)
    requires
        report.date_range_count() == 2,
        report.metric_names() == seq![a, b],
    ensures
        report.headers() == report.dimension_names() + seq![
            a,
            b,
            a + seq!['_', '2'],
            b + seq!['_', '2'],
        ],
{
    let names = report.metric_names();
    assert(decimal(2) == seq!['2']);
    assert(range_columns(names, 0) =~= Seq::<Seq<char>>::empty());
    assert(range_columns(names, 1) =~= seq![a, b]);
    assert(range_column_name(a, 1) =~= a + seq!['_', '2']);
    assert(range_column_name(b, 1) =~= b + seq!['_', '2']);
    assert(range_columns(names, 2) =~= seq![a, b, a + seq!['_', '2'], b + seq!['_', '2']]);
}

/// A row whose date ranges hold `[a1, b1]` and `[a2, b2]` gives its
/// dimension values, then `a1`, `b1`, `a2`, `b2`.
pub proof fn two_range_value_order(
    row: ReportRow,
    a1: Seq<char>,
    b1: Seq<char>,
    a2: Seq<char>,
    b2: Seq<char>,
)
    requires
        row.metrics@.len() == 2,
        texts(row.metrics@[0].values@) == seq![a1, b1],
        texts(row.metrics@[1].values@) == seq![a2, b2],
    ensures
        row.flattened() == row.dimension_values() + seq![a1, b1, a2, b2],
{
    let sets = row.metrics@;
    assert(sets.drop_last().drop_last() =~= Seq::<DateRangeValue>::empty());
    assert(sets.drop_last().last() == sets[0]);
    assert(flat_values(sets.drop_last().drop_last()) =~= Seq::<Seq<char>>::empty());
    assert(flat_values(sets.drop_last()) =~= seq![a1, b1]);
    assert(sets.last() == sets[1]);
    assert(flat_values(sets) =~= seq![a1, b1, a2, b2]);
}

/// A report without rows renders as its header line alone, and that line
/// names the dimensions and each metric once.
pub proof fn rowless_report_renders_header_only(report: Report, delimiter: Seq<char>)
    requires
        report.rows().len() == 0,
    ensures
        rendered(report, delimiter) == joined(
            quote_all(report.dimension_names() + report.metric_names()),
            delimiter,
        ) + seq!['\n'],
{
    let names = report.metric_names();
    assert(range_columns(names, 0) =~= Seq::<Seq<char>>::empty());
    assert(range_columns(names, 1) =~= names);
    assert(row_lines(report.rows(), delimiter) =~= Seq::<char>::empty());
    assert(rendered(report, delimiter) =~= joined(
        quote_all(report.dimension_names() + report.metric_names()),
        delimiter,
    ) + seq!['\n']);
}

/// A well-formed report without dimensions has the metric columns alone,
/// and each of its rows renders as its metric values alone.
pub proof fn dimensionless_report(report: Report, delimiter: Seq<char>)
    requires
        report.well_formed(),
        report.column_header.dimensions@.len() == 0,
    ensures
        report.headers() == report.metric_columns(),
        forall|i: int|
            0 <= i < report.rows().len() ==> row_line(#[trigger] report.rows()[i], delimiter)
                == joined(flat_values(report.rows()[i].metrics@), delimiter) + seq!['\n'],
{
    assert(report.headers() =~= report.metric_columns());
    assert forall|i: int| 0 <= i < report.rows().len() implies row_line(
        #[trigger] report.rows()[i],
        delimiter,
    ) == joined(flat_values(report.rows()[i].metrics@), delimiter) + seq!['\n'] by {
        assert(report.rows()[i].fits(0, report.date_range_count(), report.entries().len()));
        assert(row_line(report.rows()[i], delimiter) =~= joined(
            flat_values(report.rows()[i].metrics@),
            delimiter,
        ) + seq!['\n']);
    }
}

/// Two renderings of one response, each one text per report as
/// `response_to_delimited_reports` promises, are the same text.
pub proof fn rendering_is_deterministic(
    response: ReportResponse,
    delimiter: Seq<char>,
    first: Seq<String>,
    second: Seq<String>,
)
    requires
        first.len() == response.reports@.len(),
        second.len() == response.reports@.len(),
        forall|i: int|
            0 <= i < first.len() ==> #[trigger] first[i]@ == rendered(response.reports@[i], delimiter),
        forall|i: int|
            0 <= i < second.len() ==> #[trigger] second[i]@ == rendered(response.reports@[i], delimiter),
    ensures
        texts(first) == texts(second),
{
    assert(texts(first) =~= texts(second));
}

} // verus!
