use crate::alignment::header_row_alignment;
use crate::text::texts;
use crate::types::{flat_values, Report, ReportResponse, ReportRow};
use crate::ConversionError;
use vstd::prelude::*;

verus! {

#[verifier::external_type_specification]
#[verifier::external_body]
pub struct ExNumber(serde_json::Number);

#[verifier::external_type_specification]
#[verifier::external_body]
pub struct ExError(serde_json::Error);

/// Whether serde_json reads the text as a JSON number.
pub uninterp spec fn accepted_as_number(s: Seq<char>) -> bool;

/// Relies on serde_json's `FromStr` impl for `Number`: the text is read as a
/// JSON number, or refused with an error; which of the two depends on the
/// text alone.
#[verifier::external_body]
fn parse_number(s: &str) -> (r: Result<serde_json::Number, serde_json::Error>)
    ensures
        r.is_ok() == accepted_as_number(s@),
{
    s.parse::<serde_json::Number>()
}

/// How metric values are written in records.
#[derive(Clone, Copy, Debug, PartialEq, Eq, Structural)]
pub enum MetricTyping {
    /// As the text that the report holds.
    Text,
    /// As JSON numbers read from that text.
    Numeric,
}

/// The value of one field of a record.
#[derive(Debug)]
pub enum CellValue {
    Text(String),
    /// A number, with the text that it was read from.
    Number { text: String, number: serde_json::Number },
}

/// One field of a record: a column name and the row's value in that column.
#[derive(Debug)]
pub struct Field {
    pub name: String,
    pub value: CellValue,
}

/// Whether `cell` holds `raw`: as a number read from it where `as_number`,
/// else as text.
pub open spec fn cell_holds(cell: CellValue, raw: Seq<char>, as_number: bool) -> bool {
    match cell {
        CellValue::Text(t) => !as_number && t@ == raw,
        CellValue::Number { text, number: _ } => as_number && text@ == raw,
    }
}

/// Whether `record` pairs each header with the value in the same position,
/// where the first `dims` columns are dimensions and the rest metrics.
pub open spec fn record_holds(
    record: Seq<Field>,
    headers: Seq<Seq<char>>,
    values: Seq<Seq<char>>,
    dims: nat,
    typing: MetricTyping,
) -> bool {
    &&& record.len() == headers.len()
    &&& forall|j: int|
        0 <= j < record.len() ==> {
            &&& (#[trigger] record[j]).name@ == headers[j]
            &&& cell_holds(record[j].value, values[j], typing == MetricTyping::Numeric && j >= dims)
        }
}

/// Whether every metric value of the row is read as a number.
pub open spec fn metrics_numeric(row: ReportRow) -> bool {
    forall|k: int|
        0 <= k < flat_values(row.metrics@).len() ==> accepted_as_number(
            #[trigger] flat_values(row.metrics@)[k],
        )
}

/// Whether records of the report can be written with `typing`.
pub open spec fn records_possible(report: Report, typing: MetricTyping) -> bool {
    typing == MetricTyping::Text || forall|i: int|
        0 <= i < report.rows().len() ==> metrics_numeric(#[trigger] report.rows()[i])
}

/// Whether `records` holds one record per row of the report, in order.
pub open spec fn records_of(records: Seq<Vec<Field>>, report: Report, typing: MetricTyping) -> bool {
    &&& records.len() == report.rows().len()
    &&& forall|i: int|
        0 <= i < records.len() ==> record_holds(
            (#[trigger] records[i])@,
            report.headers(),
            report.rows()[i].flattened(),
            report.column_header.dimensions@.len(),
            typing,
        )
}

fn row_to_record(headers: &Vec<String>, row: &ReportRow, dims: usize, typing: MetricTyping) -> (r:
    Result<Vec<Field>, ConversionError>)
    requires
        headers@.len() == row.flattened().len(),
        row.dimensions@.len() == dims,
    ensures
        r.is_ok() == (typing == MetricTyping::Text || metrics_numeric(*row)),
        r matches Ok(record) ==> record_holds(record@, texts(headers@), row.flattened(), dims as nat, typing),
        r matches Err(e) ==> e == ConversionError::NotANumber,
{
    let values = row.flatten();
    let ghost flat = flat_values(row.metrics@);
    proof {
        assert(row.flattened() =~= row.dimension_values() + flat);
        assert(texts(values@).len() == values@.len());
    }
    let mut record: Vec<Field> = Vec::new();
    for j in 0..headers.len()
        invariant
            headers@.len() == values@.len(),
            texts(values@) == row.flattened(),
            row.flattened() == row.dimension_values() + flat,
            row.dimension_values().len() == dims,
            flat == flat_values(row.metrics@),
            flat.len() + dims == headers@.len(),
            record@.len() == j,
            forall|q: int|
                0 <= q < j ==> {
                    &&& (#[trigger] record@[q]).name@ == headers@[q]@
                    &&& cell_holds(record@[q].value, values@[q]@, typing == MetricTyping::Numeric && q >= dims)
                },
            typing == MetricTyping::Numeric ==> forall|k: int|
                0 <= k < j - dims ==> accepted_as_number(#[trigger] flat[k]),
    {
        assert(values@[j as int]@ == texts(values@)[j as int]);
        let value = if typing == MetricTyping::Numeric && j >= dims {
            match parse_number(values[j].as_str()) {
                Ok(number) => CellValue::Number { text: values[j].clone(), number },
                Err(_) => {
                    proof {
                        assert(flat[j - dims] == row.flattened()[j as int]);
                    }
                    return Err(ConversionError::NotANumber);
                },
            }
        } else {
            CellValue::Text(values[j].clone())
        };
        proof {
            if typing == MetricTyping::Numeric && j >= dims {
                assert(flat[j - dims] == row.flattened()[j as int]);
            }
        }
        record.push(Field { name: headers[j].clone(), value });
    }
    proof {
        if typing == MetricTyping::Numeric {
            assert forall|k: int| 0 <= k < flat.len() implies accepted_as_number(#[trigger] flat[k]) by {
                assert(k < headers@.len() - dims);
            }
        }
        assert forall|j: int| 0 <= j < record@.len() implies {
            &&& (#[trigger] record@[j]).name@ == texts(headers@)[j]
            &&& cell_holds(record@[j].value, row.flattened()[j], typing == MetricTyping::Numeric && j >= dims)
        } by {
            assert(values@[j]@ == texts(values@)[j]);
        }
    }
    Ok(record)
}

/// The records of one report: one per row, in order, each pairing the
/// report's column names with the row's values in column order.
pub fn report_to_row_array(report: &Report, typing: MetricTyping) -> (r: Result<
    Vec<Vec<Field>>,
    ConversionError,
>)
    requires
        report.well_formed(),
    ensures
        r.is_ok() == records_possible(*report, typing),
        r matches Ok(records) ==> records_of(records@, *report, typing),
        r matches Err(e) ==> e == ConversionError::NotANumber,
{
    let headers = report.resolve_headers();
    let dims = report.column_header.dimensions.len();
    let rows = &report.data.rows;
    let mut result: Vec<Vec<Field>> = Vec::new();
    for i in 0..rows.len()
        invariant
            rows@ == report.rows(),
            report.well_formed(),
            texts(headers@) == report.headers(),
            dims == report.column_header.dimensions@.len(),
            result@.len() == i,
            forall|q: int|
                0 <= q < i ==> record_holds(
                    (#[trigger] result@[q])@,
                    report.headers(),
                    report.rows()[q].flattened(),
                    dims as nat,
                    typing,
                ),
            typing == MetricTyping::Numeric ==> forall|q: int|
                0 <= q < i ==> metrics_numeric(#[trigger] report.rows()[q]),
    {
        proof {
            header_row_alignment(*report, i as int);
            assert(report.rows()[i as int].fits(
                dims as nat,
                report.date_range_count(),
                report.entries().len(),
            ));
        }
        match row_to_record(&headers, &rows[i], dims, typing) {
            Ok(record) => {
                result.push(record);
            },
            Err(e) => {
                return Err(e);
            },
        }
    }
    Ok(result)
}

/// Whether `output` holds the records of each report, in order.
pub open spec fn records_of_all(
    output: Seq<Vec<Vec<Field>>>,
    reports: Seq<Report>,
    typing: MetricTyping,
) -> bool {
    &&& output.len() == reports.len()
    &&& forall|i: int| 0 <= i < output.len() ==> records_of((#[trigger] output[i])@, reports[i], typing)
}

/// The records of each report of the response, in order. A response with a
/// report that is not well formed is refused as a schema mismatch.
pub fn response_to_row_array(response: &ReportResponse, typing: MetricTyping) -> (r: Result<
    Vec<Vec<Vec<Field>>>,
    ConversionError,
>)
    ensures
        !response.well_formed() <==> r == Err::<Vec<Vec<Vec<Field>>>, ConversionError>(
            ConversionError::SchemaMismatch,
        ),
        response.well_formed() ==> (r.is_ok() <==> forall|i: int|
            0 <= i < response.reports@.len() ==> records_possible(
                #[trigger] response.reports@[i],
                typing,
            )),
        r matches Ok(output) ==> records_of_all(output@, response.reports@, typing),
        r matches Err(e) ==> e == ConversionError::SchemaMismatch || e == ConversionError::NotANumber,
{
    if !response.is_well_formed() {
        return Err(ConversionError::SchemaMismatch);
    }
    let mut result: Vec<Vec<Vec<Field>>> = Vec::new();
    for i in 0..response.reports.len()
        invariant
            response.well_formed(),
            result@.len() == i,
            forall|q: int|
                0 <= q < i ==> records_of((#[trigger] result@[q])@, response.reports@[q], typing),
            forall|q: int|
                0 <= q < i ==> records_possible(#[trigger] response.reports@[q], typing),
    {
        assert(response.reports@[i as int].well_formed());
        match report_to_row_array(&response.reports[i], typing) {
            Ok(records) => {
                result.push(records);
            },
            Err(e) => {
                return Err(e);
            },
        }
    }
    Ok(result)
}

} // verus!
