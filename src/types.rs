use crate::text::{decimal, decimal_string, texts};
use vstd::prelude::*;
use vstd::string::*;

verus! {

/// A response: its reports, in the order in which they are rendered.
#[derive(Clone, Debug)]
pub struct ReportResponse {
    pub reports: Vec<Report>,
}

#[derive(Clone, Debug)]
pub struct Report {
    pub column_header: ColumnHeader,
    pub data: ReportData,
    pub next_page_token: Option<String>,
}

#[derive(Clone, Debug)]
pub struct ColumnHeader {
    pub dimensions: Vec<String>,
    pub metric_header: MetricHeader,
}

#[derive(Clone, Debug)]
pub struct MetricHeader {
    pub metric_header_entries: Vec<MetricHeaderEntry>,
}

#[derive(Clone, Debug)]
pub struct MetricHeaderEntry {
    pub name: String,
    pub metric_type: MetricType,
}

#[derive(Clone, Copy, Debug, PartialEq, Eq, Structural)]
pub enum MetricType {
    MetricTypeUnspecified,
    Integer,
    Float,
    Currency,
    Percent,
    Time,
}

/// The rows of a report, and aggregates that are carried along but not rendered.
#[derive(Clone, Debug)]
pub struct ReportData {
    pub rows: Vec<ReportRow>,
    pub totals: Vec<DateRangeValue>,
    pub row_count: Option<u32>,
    pub minimums: Option<Vec<DateRangeValue>>,
    pub maximums: Option<Vec<DateRangeValue>>,
    pub samples_read_counts: Option<Vec<String>>,
    pub sampling_space_sizes: Option<Vec<String>>,
    pub is_data_golden: bool,
}

/// One row: its dimension values, and one set of metric values per date range.
#[derive(Clone, Debug)]
pub struct ReportRow {
    pub dimensions: Vec<String>,
    pub metrics: Vec<DateRangeValue>,
}

/// The metric values of one row for one date range.
#[derive(Clone, Debug)]
pub struct DateRangeValue {
    pub values: Vec<String>,
}

/// The column name of metric `name` for the date range with index `range`:
/// the name itself for the first range, else the name, `_` and the range's
/// number counted from one.
pub open spec fn range_column_name(name: Seq<char>, range: nat) -> Seq<char> {
    if range == 0 {
        name
    } else {
        name + seq!['_'] + decimal(range + 1)
    }
}

/// The metric column names of the first `ranges` date ranges: range by range,
/// and within a range in the order in which the metrics are declared.
pub open spec fn range_columns(names: Seq<Seq<char>>, ranges: nat) -> Seq<Seq<char>>
    decreases ranges,
{
    if ranges == 0 {
        Seq::empty()
    } else {
        range_columns(names, (ranges - 1) as nat) + names.map_values(
            |n: Seq<char>| range_column_name(n, (ranges - 1) as nat),
        )
    }
}

/// All values of the value sets, set after set.
pub open spec fn flat_values(sets: Seq<DateRangeValue>) -> Seq<Seq<char>>
    decreases sets.len(),
{
    if sets.len() == 0 {
        Seq::empty()
    } else {
        flat_values(sets.drop_last()) + texts(sets.last().values@)
    }
}

impl ReportResponse {
    /// Whether every report is well formed.
    pub open spec fn well_formed(&self) -> bool {
        forall|i: int| 0 <= i < self.reports@.len() ==> (#[trigger] self.reports@[i]).well_formed()
    }

    /// Whether every report has the shape that `Report::well_formed` describes.
    pub fn is_well_formed(&self) -> (r: bool)
        ensures
            r == self.well_formed(),
    {
        for i in 0..self.reports.len()
            invariant
                forall|q: int| 0 <= q < i ==> (#[trigger] self.reports@[q]).well_formed(),
        {
            if !self.reports[i].is_well_formed() {
                return false;
            }
        }
        true
    }
}

impl Report {
    pub open spec fn rows(&self) -> Seq<ReportRow> {
        self.data.rows@
    }

    pub open spec fn dimension_names(&self) -> Seq<Seq<char>> {
        texts(self.column_header.dimensions@)
    }

    pub open spec fn entries(&self) -> Seq<MetricHeaderEntry> {
        self.column_header.metric_header.metric_header_entries@
    }

    pub open spec fn metric_names(&self) -> Seq<Seq<char>> {
        self.entries().map_values(|e: MetricHeaderEntry| e.name@)
    }

    /// The number of date ranges: that of the first row, none without rows.
    pub open spec fn date_range_count(&self) -> nat {
        if self.rows().len() == 0 {
            0
        } else {
            self.rows()[0].metrics@.len()
        }
    }

    /// The date ranges that get metric columns: a report without rows still
    /// gets the columns of one.
    pub open spec fn column_ranges(&self) -> nat {
        if self.date_range_count() == 0 {
            1
        } else {
            self.date_range_count()
        }
    }

    /// The metric column names.
    pub open spec fn metric_columns(&self) -> Seq<Seq<char>> {
        range_columns(self.metric_names(), self.column_ranges())
    }

    /// The column names of the report: dimensions, then metrics.
    pub open spec fn headers(&self) -> Seq<Seq<char>> {
        self.dimension_names() + self.metric_columns()
    }

    /// The shape that the rendering relies on: at least one metric; in every
    /// row one value per dimension, as many date ranges as in every other row
    /// and at least one, and one value per metric in each date range.
    pub open spec fn well_formed(&self) -> bool {
        &&& self.entries().len() >= 1
        &&& forall|i: int|
            0 <= i < self.rows().len() ==> #[trigger] self.rows()[i].fits(
                self.column_header.dimensions@.len(),
                self.date_range_count(),
                self.entries().len(),
            )
        &&& self.rows().len() > 0 ==> self.date_range_count() >= 1
    }

    /// Whether the report has the shape that `well_formed` describes.
    pub fn is_well_formed(&self) -> (r: bool)
        ensures
            r == self.well_formed(),
    {
        let metrics = self.column_header.metric_header.metric_header_entries.len();
        if metrics == 0 {
            return false;
        }
        let dims = self.column_header.dimensions.len();
        let ranges = self.number_of_date_ranges();
        if !self.is_empty() && ranges == 0 {
            return false;
        }
        let rows = &self.data.rows;
        for i in 0..rows.len()
            invariant
                rows@ == self.rows(),
                dims == self.column_header.dimensions@.len(),
                ranges == self.date_range_count(),
                metrics == self.entries().len(),
                forall|q: int| 0 <= q < i ==> #[trigger] rows@[q].fits(dims as nat, ranges as nat, metrics as nat),
        {
            let row = &rows[i];
            if row.dimensions.len() != dims || row.metrics.len() != ranges {
                assert(!self.rows()[i as int].fits(dims as nat, ranges as nat, metrics as nat));
                return false;
            }
            for j in 0..ranges
                invariant
                    row.metrics@.len() == ranges,
                    rows@ == self.rows(),
                    i < rows@.len(),
                    row == self.rows()[i as int],
                    dims == self.column_header.dimensions@.len(),
                    ranges == self.date_range_count(),
                    metrics == self.entries().len(),
                    forall|p: int| 0 <= p < j ==> (#[trigger] row.metrics@[p]).values@.len() == metrics,
            {
                if row.metrics[j].values.len() != metrics {
                    assert(!self.rows()[i as int].fits(dims as nat, ranges as nat, metrics as nat));
                    return false;
                }
            }
        }
        true
    }

    /// Whether the report has no rows.
    pub fn is_empty(&self) -> (r: bool)
        ensures
            r == (self.rows().len() == 0),
    {
        self.data.rows.len() == 0
    }

    fn number_of_date_ranges(&self) -> (r: usize)
        ensures
            r == self.date_range_count(),
    {
        if self.is_empty() {
            0
        } else {
            self.data.rows[0].metrics.len()
        }
    }

    /// The metric columns: for each date range the declared entries, in
    /// order, named as `range_column_name` says and of the entry's type.
    pub fn get_metric_headers(&self) -> (r: Vec<MetricHeaderEntry>)
        ensures
            r@.map_values(|e: MetricHeaderEntry| e.name@) == self.metric_columns(),
            r@.len() == self.column_ranges() * self.entries().len(),
            forall|i: int|
                0 <= i < r@.len() ==> #[trigger] r@[i].metric_type == self.entries()[i
                    % self.entries().len() as int].metric_type,
    {
        let base_items = &self.column_header.metric_header.metric_header_entries;
        let ghost names = self.metric_names();
        let ghost m = base_items@.len() as int;
        let mut result: Vec<MetricHeaderEntry> = Vec::new();
        let n = self.number_of_date_ranges();
        let ranges: usize = if n == 0 {
            1
        } else {
            n
        };
        for date_range_num in 0..ranges
            invariant
                ranges == self.column_ranges(),
                names == self.metric_names(),
                m == base_items@.len(),
                base_items@ == self.entries(),
                result@.map_values(|e: MetricHeaderEntry| e.name@) == range_columns(
                    names,
                    date_range_num as nat,
                ),
                result@.len() == date_range_num * m,
                forall|i: int|
                    0 <= i < result@.len() ==> #[trigger] result@[i].metric_type == base_items@[i
                        % m].metric_type,
        {
            let ghost start = result@.len() as int;
            for k in 0..base_items.len()
                invariant
                    names == self.metric_names(),
                    m == base_items@.len(),
                    base_items@ == self.entries(),
                    start == date_range_num * m,
                    date_range_num < ranges,
                    result@.len() == start + k,
                    result@.map_values(|e: MetricHeaderEntry| e.name@) == range_columns(
                        names,
                        date_range_num as nat,
                    ) + names.take(k as int).map_values(
                        |n: Seq<char>| range_column_name(n, date_range_num as nat),
                    ),
                    forall|i: int|
                        0 <= i < result@.len() ==> #[trigger] result@[i].metric_type
                            == base_items@[i % m].metric_type,
            {
                let entry = &base_items[k];
                let name = if date_range_num == 0 {
                    entry.name.clone()
                } else {
                    let mut s = entry.name.clone();
                    proof {
                        reveal_strlit("_");
                    }
                    s.append("_");
                    let number = decimal_string(date_range_num + 1);
                    s.append(number.as_str());
                    proof {
                        assert(s@ =~= entry.name@ + seq!['_'] + decimal((date_range_num + 1) as nat));
                    }
                    s
                };
                assert(name@ == range_column_name(entry.name@, date_range_num as nat));
                let ghost before = result@;
                result.push(MetricHeaderEntry { name, metric_type: entry.metric_type });
                proof {
                    assert(names[k as int] == entry.name@);
                    assert(result@.map_values(|e: MetricHeaderEntry| e.name@) =~= before.map_values(
                        |e: MetricHeaderEntry| e.name@,
                    ).push(range_column_name(names[k as int], date_range_num as nat)));
                    assert(names.take(k + 1).map_values(
                        |n: Seq<char>| range_column_name(n, date_range_num as nat),
                    ) =~= names.take(k as int).map_values(
                        |n: Seq<char>| range_column_name(n, date_range_num as nat),
                    ).push(range_column_name(names[k as int], date_range_num as nat)));
                    assert forall|i: int|
                        0 <= i < result@.len() implies #[trigger] result@[i].metric_type
                        == base_items@[i % m].metric_type by {
                        if i == start + k {
                            assert((start + k) % m == k as int) by (nonlinear_arith)
                                requires
                                    start == date_range_num * m,
                                    0 <= k < m,
                            ;
                        }
                    }
                }
            }
            proof {
                assert(names.take(m) =~= names);
                assert(result@.len() == (date_range_num + 1) * m) by (nonlinear_arith)
                    requires
                        result@.len() == date_range_num * m + m,
                ;
            }
        }
        result
    }

    /// The column names of the report.
    pub fn resolve_headers(&self) -> (r: Vec<String>)
        ensures
            texts(r@) == self.headers(),
    {
        let mut r: Vec<String> = self.column_header.dimensions.clone();
        let metric_headers = self.get_metric_headers();
        let ghost dims = r@;
        proof {
            assert(texts(dims) =~= self.dimension_names());
        }
        for k in 0..metric_headers.len()
            invariant
                texts(r@) == self.dimension_names() + metric_headers@.take(k as int).map_values(
                    |e: MetricHeaderEntry| e.name@,
                ),
        {
            let ghost before = r@;
            r.push(metric_headers[k].name.clone());
            proof {
                assert(texts(r@) =~= texts(before).push(metric_headers@[k as int].name@));
                assert(metric_headers@.take(k + 1).map_values(|e: MetricHeaderEntry| e.name@)
                    =~= metric_headers@.take(k as int).map_values(
                    |e: MetricHeaderEntry| e.name@,
                ).push(metric_headers@[k as int].name@));
            }
        }
        proof {
            assert(metric_headers@.take(metric_headers@.len() as int) =~= metric_headers@);
        }
        r
    }
}

impl ReportRow {
    pub open spec fn dimension_values(&self) -> Seq<Seq<char>> {
        texts(self.dimensions@)
    }

    /// The row's values in column order: dimensions, then metrics range by range.
    pub open spec fn flattened(&self) -> Seq<Seq<char>> {
        self.dimension_values() + flat_values(self.metrics@)
    }

    /// Whether the row has `dims` dimension values, `ranges` date ranges, and
    /// `metrics` values in each.
    pub open spec fn fits(&self, dims: nat, ranges: nat, metrics: nat) -> bool {
        &&& self.dimensions@.len() == dims
        &&& self.metrics@.len() == ranges
        &&& forall|j: int| 0 <= j < ranges ==> (#[trigger] self.metrics@[j]).values@.len() == metrics
    }

    /// The metric values of all date ranges, range by range.
    pub fn flat_value_iterator(&self) -> (r: Vec<String>)
        ensures
            texts(r@) == flat_values(self.metrics@),
    {
        let mut r: Vec<String> = Vec::new();
        for j in 0..self.metrics.len()
            invariant
                texts(r@) == flat_values(self.metrics@.take(j as int)),
        {
            let values = &self.metrics[j].values;
            let ghost start = r@;
            for k in 0..values.len()
                invariant
                    texts(r@) == texts(start) + texts(values@.take(k as int)),
            {
                let ghost before = r@;
                r.push(values[k].clone());
                proof {
                    assert(texts(r@) =~= texts(before).push(values@[k as int]@));
                    assert(texts(values@.take(k + 1)) =~= texts(values@.take(k as int)).push(
                        values@[k as int]@,
                    ));
                }
            }
            proof {
                assert(values@.take(values@.len() as int) =~= values@);
                assert(self.metrics@.take(j + 1).drop_last() =~= self.metrics@.take(j as int));
            }
        }
        proof {
            assert(self.metrics@.take(self.metrics@.len() as int) =~= self.metrics@);
        }
        r
    }

    /// The row's values in column order.
    pub fn flatten(&self) -> (r: Vec<String>)
        ensures
            texts(r@) == self.flattened(),
    {
        let mut r: Vec<String> = self.dimensions.clone();
        let metric_values = self.flat_value_iterator();
        proof {
            assert(texts(r@) =~= self.dimension_values());
        }
        for k in 0..metric_values.len()
            invariant
                texts(r@) == self.dimension_values() + texts(metric_values@.take(k as int)),
        {
            let ghost before = r@;
            r.push(metric_values[k].clone());
            proof {
                assert(texts(r@) =~= texts(before).push(metric_values@[k as int]@));
                assert(texts(metric_values@.take(k + 1)) =~= texts(
                    metric_values@.take(k as int),
                ).push(metric_values@[k as int]@));
            }
        }
        proof {
            assert(metric_values@.take(metric_values@.len() as int) =~= metric_values@);
        }
        r
    }
}

} // verus!
