use vstd::prelude::*;

pub mod alignment;
pub mod delimited;
pub mod records;
pub mod text;
pub mod types;

use crate::delimited::{rendered_all, response_to_delimited_reports};
use crate::records::{records_of_all, records_possible, response_to_row_array, Field, MetricTyping};
use crate::text::texts;
use crate::types::ReportResponse;

verus! {

/// Why a document cannot be converted.
#[derive(Clone, Copy, Debug, PartialEq, Eq, Structural)]
pub enum ConversionError {
    /// The document does not have the shape of a report response.
    SchemaMismatch,
    /// A metric value that was to be written as a number is not one.
    NotANumber,
}

/// What the record conversion gives.
#[derive(Debug)]
pub enum RecordsOutput {
    /// The marker for an empty input.
    Empty,
    /// One array of records per report, in order.
    Reports(Vec<Vec<Vec<Field>>>),
}

/// The delimited text of each report of a document. `None` stands for an
/// empty input, which gives a single empty text; a document with a report
/// that is not well formed is refused.
pub fn delimited_from_document(document: Option<&ReportResponse>, delimiter: &str) -> (r: Result<
    Vec<String>,
    ConversionError,
>)
    ensures
        document is None ==> (r matches Ok(v) && texts(v@) == seq![Seq::<char>::empty()]),
        document matches Some(d) ==> {
            &&& r.is_err() == !d.well_formed()
            &&& r matches Err(e) ==> e == ConversionError::SchemaMismatch
            &&& r matches Ok(v) ==> texts(v@) == rendered_all(d.reports@, delimiter@)
        },
{
    match document {
        None => {
            let v: Vec<String> = vec![String::new()];
            proof {
                assert(texts(v@) =~= seq![Seq::<char>::empty()]);
            }
            Ok(v)
        },
        Some(d) => {
            if !d.is_well_formed() {
                return Err(ConversionError::SchemaMismatch);
            }
            Ok(response_to_delimited_reports(d, delimiter))
        },
    }
}

/// The records of each report of a document, with metric values written as
/// `typing` says. `None` stands for an empty input, which gives the empty
/// marker; a document with a report that is not well formed is refused, and
/// so is one with a metric value that is to be a number and is not.
pub fn records_from_document(document: Option<&ReportResponse>, typing: MetricTyping) -> (r: Result<
    RecordsOutput,
    ConversionError,
>)
    ensures
        document is None ==> r matches Ok(RecordsOutput::Empty),
        document matches Some(d) ==> (!d.well_formed() <==> r matches Err(
            ConversionError::SchemaMismatch,
        )),
        document matches Some(d) ==> (d.well_formed() ==> (r.is_ok() <==> forall|i: int|
            0 <= i < d.reports@.len() ==> records_possible(#[trigger] d.reports@[i], typing))),
        document matches Some(d) ==> (r matches Err(e) ==> (e == ConversionError::SchemaMismatch
            || e == ConversionError::NotANumber)),
        document matches Some(d) ==> (r matches Ok(out) ==> (out matches RecordsOutput::Reports(
            v,
        ) && records_of_all(v@, d.reports@, typing))),
{
    match document {
        None => Ok(RecordsOutput::Empty),
        Some(d) => match response_to_row_array(d, typing) {
            Ok(v) => Ok(RecordsOutput::Reports(v)),
            Err(e) => Err(e),
        },
    }
}

} // verus!
