//! Delimited text as a table of rows of fields.

use crate::error::DataLoadError;
use vstd::prelude::*;

verus! {

/// `csv::Error`, the error of the reader; it is passed on unread.
#[verifier::external_type_specification]
#[verifier::external_body]
pub struct ExCsvError(csv::Error);

/// The rows of a comma-separated text, the header row first, each row as its
/// fields: what a `csv::Reader` with default settings, but told to hand out
/// the first row like any other, yields from `records()`. `None` where the
/// reader rejects a row: one with another number of fields than the first
/// row, or one that is not UTF-8.
pub uninterp spec fn csv_rows(bytes: Seq<u8>) -> Option<Seq<Seq<Seq<char>>>>;

/// Makes a reader with `csv::ReaderBuilder::from_reader`, headers switched
/// off so that the first row comes out with the others, and collects
/// `csv::Reader::records()`. Trusted: the outcome depends on the bytes alone;
/// success yields every row in order, an error means there are none.
#[verifier::external_body]
fn read_records(bytes: &[u8]) -> (out: Result<Vec<Vec<String>>, csv::Error>)
    ensures
        match out {
            Ok(rows) => csv_rows(bytes@) == Some(rows.deep_view()),
            Err(_) => csv_rows(bytes@) is None,
        },
{
    let mut reader = csv::ReaderBuilder::new().has_headers(false).from_reader(bytes);
    let mut rows: Vec<Vec<String>> = Vec::new();
    for record in reader.records() {
        rows.push(record?.iter().map(String::from).collect());
    }
    Ok(rows)
}

/// Splits comma-separated text into rows of fields.
pub fn read_rows(bytes: &[u8]) -> (out: Result<Vec<Vec<String>>, DataLoadError>)
    ensures
        match out {
            Ok(rows) => csv_rows(bytes@) == Some(rows.deep_view()),
            Err(e) => e == DataLoadError::Csv && csv_rows(bytes@) is None,
        },
{
    match read_records(bytes) {
        Ok(rows) => Ok(rows),
        Err(_) => Err(DataLoadError::Csv),
    }
}

} // verus!
