//! Loading a dataset: decompress, split into rows, read the records, build
//! the index. A dataset either loads whole or not at all.

use crate::dataset::{parse_table, table_records};
use crate::error::DataLoadError;
use crate::gzip::{gunzip, gzip_payload};
use crate::index::{index_of, Index};
use crate::table::{csv_rows, read_rows};
use vstd::prelude::*;

verus! {

/// The index that a table of rows yields, or why it yields none.
pub open spec fn table_index(rows: Seq<Seq<Seq<char>>>) -> Result<
    Map<u16, Seq<Seq<char>>>,
    DataLoadError,
> {
    match table_records(rows) {
        Ok(records) => Ok(index_of(records)),
        Err(e) => Err(e),
    }
}

/// The index that comma-separated text yields, or why it yields none.
pub open spec fn parsed(text: Seq<u8>) -> Result<Map<u16, Seq<Seq<char>>>, DataLoadError> {
    match csv_rows(text) {
        Some(rows) => table_index(rows),
        None => Err(DataLoadError::Csv),
    }
}

/// The index that a compressed dataset yields, or why it yields none.
pub open spec fn loaded(bytes: Seq<u8>) -> Result<Map<u16, Seq<Seq<char>>>, DataLoadError> {
    match gzip_payload(bytes) {
        Some(text) => parsed(text),
        None => Err(DataLoadError::Gzip),
    }
}

/// The outcome of a load with the index as the map that it stands for.
pub open spec fn outcome_view(out: Result<Index, DataLoadError>) -> Result<
    Map<u16, Seq<Seq<char>>>,
    DataLoadError,
> {
    match out {
        Ok(index) => Ok(index@),
        Err(e) => Err(e),
    }
}

/// Builds the index of a table: its first row is the header, every further
/// row one record.
pub fn index_table(rows: &Vec<Vec<String>>) -> (out: Result<Index, DataLoadError>)
    ensures
        outcome_view(out) == table_index(rows.deep_view()),
{
    match parse_table(rows) {
        Ok(records) => Ok(Index::from_records(records)),
        Err(e) => Err(e),
    }
}

/// Builds the index of a dataset given as comma-separated text.
pub fn parse(text: &[u8]) -> (out: Result<Index, DataLoadError>)
    ensures
        outcome_view(out) == parsed(text@),
{
    match read_rows(text) {
        Ok(rows) => index_table(&rows),
        Err(e) => Err(e),
    }
}

/// Builds the index of a dataset given as the bytes of a gzip file. Bytes
/// that are no gzip stream yield [`DataLoadError::Gzip`] and no index.
pub fn load_csv_data(bytes: &[u8]) -> (out: Result<Index, DataLoadError>)
    ensures
        outcome_view(out) == loaded(bytes@),
        gzip_payload(bytes@) is None ==> (out matches Err(e) && e == DataLoadError::Gzip),
{
    match gunzip(bytes) {
        Ok(text) => parse(text.as_slice()),
        Err(e) => Err(e),
    }
}

} // verus!
