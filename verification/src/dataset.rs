//! From a table of text fields to address records.
//!
//! The first row of a table is its header. Two of its columns are required,
//! each named exactly once: the municipality identifier and the address text.
//! Other columns are ignored. Every further row yields one record.

use crate::error::DataLoadError;
use crate::number::{municipality_id_of, parse_municipality_id};
use crate::text::same_text;
use vstd::prelude::*;

verus! {

/// The header name of the municipality identifier column.
pub const MUNICIPALITY_COLUMN: &'static str = "kommunenummer";

/// The header name of the address text column.
pub const ADDRESS_COLUMN: &'static str = "adresseTekst";

/// One entry of the source dataset.
#[derive(Debug)]
pub struct AddressRecord {
    pub municipality_id: u16,
    pub address_text: String,
}

impl View for AddressRecord {
    type V = (u16, Seq<char>);

    open spec fn view(&self) -> (u16, Seq<char>) {
        (self.municipality_id, self.address_text@)
    }
}

/// The records of `records` as pairs of identifier and text.
pub open spec fn records_view(records: Seq<AddressRecord>) -> Seq<(u16, Seq<char>)> {
    Seq::new(records.len(), |i: int| records[i]@)
}

/// Column `i` of `header` is named `name`, and no other column is.
pub open spec fn names_column(header: Seq<Seq<char>>, name: Seq<char>, i: int) -> bool {
    &&& 0 <= i < header.len()
    &&& header[i] == name
    &&& forall|j: int| 0 <= j < header.len() && #[trigger] header[j] == name ==> j == i
}

/// The position of the one column of `header` named `name`; `None` where no
/// column or more than one has that name.
pub open spec fn column_of(header: Seq<Seq<char>>, name: Seq<char>) -> Option<int> {
    if exists|i: int| names_column(header, name, i) {
        Some(choose|i: int| names_column(header, name, i))
    } else {
        None
    }
}

/// The record that `row` holds, its identifier in column `id_col` and its
/// text in column `text_col`; `None` where the row lacks one of the columns
/// or the identifier is not a number.
pub open spec fn record_of(row: Seq<Seq<char>>, id_col: int, text_col: int) -> Option<
    (u16, Seq<char>),
> {
    if 0 <= id_col < row.len() && 0 <= text_col < row.len() {
        match municipality_id_of(row[id_col]) {
            Some(id) => Some((id, row[text_col])),
            None => None,
        }
    } else {
        None
    }
}

/// Row `k` is the first row after the header that holds no record.
pub open spec fn first_bad_row(
    rows: Seq<Seq<Seq<char>>>,
    id_col: int,
    text_col: int,
    k: int,
) -> bool {
    &&& 1 <= k < rows.len()
    &&& record_of(rows[k], id_col, text_col) is None
    &&& forall|j: int| 1 <= j < k ==> (#[trigger] record_of(rows[j], id_col, text_col)) is Some
}

/// The records of the rows after the header, in order.
pub open spec fn data_records(rows: Seq<Seq<Seq<char>>>, id_col: int, text_col: int) -> Seq<
    (u16, Seq<char>),
> {
    Seq::new((rows.len() - 1) as nat, |i: int| record_of(rows[i + 1], id_col, text_col)->0)
}

/// The records of a table, or why it holds none: a header that does not name
/// both columns, else the first row that holds no record.
pub open spec fn table_records(rows: Seq<Seq<Seq<char>>>) -> Result<
    Seq<(u16, Seq<char>)>,
    DataLoadError,
> {
    if rows.len() == 0 {
        Err(DataLoadError::Header)
    } else {
        match (column_of(rows[0], MUNICIPALITY_COLUMN@), column_of(rows[0], ADDRESS_COLUMN@)) {
            (Some(id_col), Some(text_col)) => {
                if exists|k: int| first_bad_row(rows, id_col, text_col, k) {
                    Err(
                        DataLoadError::Row(
                            (choose|k: int| first_bad_row(rows, id_col, text_col, k)) as usize,
                        ),
                    )
                } else {
                    Ok(data_records(rows, id_col, text_col))
                }
            },
            _ => Err(DataLoadError::Header),
        }
    }
}

/// Finds the one column of `header` that is named `name`.
pub fn find_column(header: &Vec<String>, name: &str) -> (col: Option<usize>)
    ensures
        match col {
            Some(i) => column_of(header.deep_view(), name@) == Some(i as int),
            None => column_of(header.deep_view(), name@) is None,
        },
{
    let ghost names = header.deep_view();
    let mut found: Option<usize> = None;
    let mut i: usize = 0;
    while i < header.len()
        invariant
            0 <= i <= header.len(),
            names == header.deep_view(),
            match found {
                Some(f) => f < i && names[f as int] == name@ && forall|j: int|
                    0 <= j < i && #[trigger] names[j] == name@ ==> j == f,
                None => forall|j: int| 0 <= j < i ==> #[trigger] names[j] != name@,
            },
        decreases header.len() - i,
    {
        if same_text(header[i].as_str(), name) {
            match found {
                Some(f) => {
                    assert forall|k: int| !names_column(names, name@, k) by {
                        assert(names[i as int] == name@);
                    }
                    return None;
                },
                None => {
                    found = Some(i);
                },
            }
        }
        i = i + 1;
    }
    proof {
        if let Some(f) = found {
            assert(names_column(names, name@, f as int));
        }
    }
    found
}

/// Reads one data row.
pub fn parse_row(row: &Vec<String>, id_col: usize, text_col: usize) -> (record: Option<
    AddressRecord,
>)
    ensures
        match record {
            Some(r) => record_of(row.deep_view(), id_col as int, text_col as int) == Some(r@),
            None => record_of(row.deep_view(), id_col as int, text_col as int) is None,
        },
{
    if id_col >= row.len() || text_col >= row.len() {
        return None;
    }
    match parse_municipality_id(row[id_col].as_str()) {
        Some(municipality_id) => Some(
            AddressRecord { municipality_id, address_text: row[text_col].clone() },
        ),
        None => None,
    }
}

/// Reads a table: the header row, then one record per further row.
pub fn parse_table(rows: &Vec<Vec<String>>) -> (out: Result<Vec<AddressRecord>, DataLoadError>)
    ensures
        match out {
            Ok(records) => table_records(rows.deep_view()) == Ok::<_, DataLoadError>(
                records_view(records@),
            ),
            Err(e) => table_records(rows.deep_view()) == Err::<Seq<(u16, Seq<char>)>, _>(e),
        },
{
    let ghost table = rows.deep_view();
    if rows.len() == 0 {
        return Err(DataLoadError::Header);
    }
    let id_col = match find_column(&rows[0], MUNICIPALITY_COLUMN) {
        Some(c) => c,
        None => {
            return Err(DataLoadError::Header);
        },
    };
    let text_col = match find_column(&rows[0], ADDRESS_COLUMN) {
        Some(c) => c,
        None => {
            return Err(DataLoadError::Header);
        },
    };
    let mut records: Vec<AddressRecord> = Vec::new();
    let mut i: usize = 1;
    while i < rows.len()
        invariant
            1 <= i <= rows.len(),
            table == rows.deep_view(),
            column_of(table[0], MUNICIPALITY_COLUMN@) == Some(id_col as int),
            column_of(table[0], ADDRESS_COLUMN@) == Some(text_col as int),
            records.len() == i - 1,
            forall|j: int|
                1 <= j < i ==> (#[trigger] record_of(table[j], id_col as int, text_col as int))
                    == Some(records[j - 1]@),
        decreases rows.len() - i,
    {
        match parse_row(&rows[i], id_col, text_col) {
            Some(record) => {
                records.push(record);
            },
            None => {
                assert(first_bad_row(table, id_col as int, text_col as int, i as int));
                return Err(DataLoadError::Row(i));
            },
        }
        i = i + 1;
    }
    assert(records_view(records@) == data_records(table, id_col as int, text_col as int));
    Ok(records)
}

} // verus!
