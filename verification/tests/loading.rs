use address_autocomplete::dataset::{find_column, parse_row, parse_table};
use address_autocomplete::gzip::gunzip;
use address_autocomplete::loader::{index_table, parse};
use address_autocomplete::table::read_rows;
use address_autocomplete::{load_csv_data, DataLoadError, Index};
use std::io::Write;

fn gz(data: &[u8]) -> Vec<u8> {
    let mut encoder = flate2::write::GzEncoder::new(Vec::new(), flate2::Compression::default());
    encoder.write_all(data).unwrap();
    encoder.finish().unwrap()
}

fn texts(found: Option<Vec<&String>>) -> Option<Vec<String>> {
    found.map(|list| list.into_iter().cloned().collect())
}

fn strings(items: &[&str]) -> Vec<String> {
    items.iter().map(|s| s.to_string()).collect()
}

fn row(items: &[&str]) -> Vec<String> {
    strings(items)
}

fn error_of(out: Result<Index, DataLoadError>) -> Option<DataLoadError> {
    out.err()
}

const OSLO: &str = "kommunenummer,adresseTekst\n301,Osloveien 1\n301,Oslogata 2\n301,Storgata 5\n";

#[test]
fn load_then_query_scenario() {
    let index = load_csv_data(&gz(OSLO.as_bytes())).unwrap();
    assert_eq!(texts(index.query("oslo", 301)), Some(strings(&["Osloveien 1", "Oslogata 2"])));
    assert_eq!(texts(index.query("x", 301)), Some(Vec::new()));
    assert_eq!(texts(index.query("oslo", 999)), None);
}

#[test]
fn load_rejects_bytes_that_are_not_gzip() {
    assert_eq!(error_of(load_csv_data(OSLO.as_bytes())), Some(DataLoadError::Gzip));
    assert_eq!(error_of(load_csv_data(b"")), Some(DataLoadError::Gzip));
    assert_eq!(error_of(load_csv_data(&[0x1f, 0x8b, 0x08, 0x00, 0xff])), Some(DataLoadError::Gzip));
}

#[test]
fn load_rejects_a_truncated_gzip_stream() {
    let whole = gz(OSLO.as_bytes());
    let cut = &whole[..whole.len() / 2];
    assert_eq!(error_of(load_csv_data(cut)), Some(DataLoadError::Gzip));
}

#[test]
fn load_rejects_a_damaged_gzip_stream() {
    let mut bytes = gz(OSLO.as_bytes());
    let last = bytes.len() - 6;
    bytes[last] ^= 0xff;
    assert_eq!(error_of(load_csv_data(&bytes)), Some(DataLoadError::Gzip));
}

#[test]
fn gunzip_restores_the_payload() {
    let data = b"kommunenummer,adresseTekst\n".to_vec();
    let packed = gz(&data);
    assert_ne!(packed, data);
    assert_eq!(gunzip(&packed), Ok(data));
    assert_eq!(gunzip(&gz(b"")), Ok(Vec::new()));
    assert_eq!(gunzip(b"plain text"), Err(DataLoadError::Gzip));
}

#[test]
fn read_rows_splits_fields() {
    assert_eq!(
        read_rows(b"a,b\n1,2\n"),
        Ok(vec![row(&["a", "b"]), row(&["1", "2"])])
    );
    assert_eq!(
        read_rows(b"name,text\r\nx,\"y, z\"\r\nq,\"say \"\"hi\"\"\"\r\n"),
        Ok(vec![row(&["name", "text"]), row(&["x", "y, z"]), row(&["q", "say \"hi\""])])
    );
    assert_eq!(read_rows(b""), Ok(Vec::new()));
    assert_eq!(read_rows(b"a,b\n\n1,2"), Ok(vec![row(&["a", "b"]), row(&["1", "2"])]));
}

#[test]
fn read_rows_rejects_malformed_text() {
    assert_eq!(read_rows(b"a,b\n1,2,3\n"), Err(DataLoadError::Csv));
    assert_eq!(read_rows(b"a,b\n1\n"), Err(DataLoadError::Csv));
    assert_eq!(read_rows(b"a,b\n1,\xff\n"), Err(DataLoadError::Csv));
    assert_eq!(read_rows(b"a,\xff\n1,2\n"), Err(DataLoadError::Csv));
}

#[test]
fn parse_reports_malformed_text() {
    assert_eq!(
        error_of(parse(b"kommunenummer,adresseTekst\n301,Osloveien 1,extra\n")),
        Some(DataLoadError::Csv)
    );
    assert_eq!(
        error_of(load_csv_data(&gz(b"kommunenummer,adresseTekst\n301\n"))),
        Some(DataLoadError::Csv)
    );
}

#[test]
fn parse_requires_a_header() {
    assert_eq!(error_of(parse(b"")), Some(DataLoadError::Header));
    assert_eq!(error_of(parse(b"301,Osloveien 1\n")), Some(DataLoadError::Header));
    assert_eq!(error_of(parse(b"kommunenummer,adresse\n301,Osloveien 1\n")), Some(DataLoadError::Header));
    assert_eq!(error_of(parse(b"kommune,adresseTekst\n301,Osloveien 1\n")), Some(DataLoadError::Header));
    assert_eq!(error_of(parse(b"kommunenummer\n301\n")), Some(DataLoadError::Header));
    assert_eq!(error_of(parse(b"Kommunenummer,adresseTekst\n")), Some(DataLoadError::Header));
    assert_eq!(error_of(parse(b"kommunenummer, adresseTekst\n")), Some(DataLoadError::Header));
}

#[test]
fn parse_rejects_a_column_named_twice() {
    assert_eq!(
        error_of(parse(b"kommunenummer,adresseTekst,kommunenummer\n301,Osloveien 1,301\n")),
        Some(DataLoadError::Header)
    );
    assert_eq!(
        error_of(parse(b"adresseTekst,kommunenummer,adresseTekst\nA,301,B\n")),
        Some(DataLoadError::Header)
    );
}

#[test]
fn parse_reports_the_first_bad_row() {
    assert_eq!(
        error_of(parse(b"kommunenummer,adresseTekst\n301,A\nabc,B\nxyz,C\n")),
        Some(DataLoadError::Row(2))
    );
    assert_eq!(
        error_of(parse(b"kommunenummer,adresseTekst\n70000,A\n")),
        Some(DataLoadError::Row(1))
    );
    assert_eq!(
        error_of(parse(b"kommunenummer,adresseTekst\n,A\n")),
        Some(DataLoadError::Row(1))
    );
    assert_eq!(
        error_of(parse(b"kommunenummer,adresseTekst\n1,A\n2,B\n-3,C\n")),
        Some(DataLoadError::Row(3))
    );
}

#[test]
fn parse_ignores_other_columns_and_column_order() {
    let text = b"id,adresseTekst,postnummer,kommunenummer\n1,Storgata 1,0150,301\n2,Kirkegata 2,4006,1103\n";
    let index = parse(text).unwrap();
    assert_eq!(texts(index.query("", 301)), Some(strings(&["Storgata 1"])));
    assert_eq!(texts(index.query("", 1103)), Some(strings(&["Kirkegata 2"])));
    assert_eq!(texts(index.query("", 1)), None);
}

#[test]
fn parse_accepts_a_header_without_rows() {
    let index = parse(b"kommunenummer,adresseTekst\n").unwrap();
    assert!(!index.contains(301));
    assert_eq!(texts(index.query("", 301)), None);
}

#[test]
fn parse_keeps_order_and_duplicates() {
    let text = b"kommunenummer,adresseTekst\n301,B\n5,X\n301,A\n301,B\n0301,C\n";
    let index = parse(text).unwrap();
    assert_eq!(texts(index.query("", 301)), Some(strings(&["B", "A", "B", "C"])));
    assert_eq!(texts(index.query("", 5)), Some(strings(&["X"])));
}

#[test]
fn parse_keeps_text_as_written() {
    let text = "kommunenummer,adresseTekst\n301,\"Øvre Slottsgate 2, B\"\n301,  Nedre gate \n";
    let index = parse(text.as_bytes()).unwrap();
    assert_eq!(texts(index.query("øvre s", 301)), Some(strings(&["Øvre Slottsgate 2, B"])));
    assert_eq!(texts(index.query("  nedre", 301)), Some(strings(&["  Nedre gate "])));
}

#[test]
fn index_table_reads_rows_of_any_shape() {
    let rows = vec![
        row(&["kommunenummer", "x", "adresseTekst"]),
        row(&["301", "-", "Storgata 1"]),
        row(&["301"]),
    ];
    assert_eq!(error_of(index_table(&rows)), Some(DataLoadError::Row(2)));
    let good = vec![
        row(&["kommunenummer", "x", "adresseTekst"]),
        row(&["301", "-", "Storgata 1"]),
        row(&["0x12d", "-", "Storgata 2", "more"]),
    ];
    let index = index_table(&good).unwrap();
    assert_eq!(texts(index.query("", 301)), Some(strings(&["Storgata 1", "Storgata 2"])));
    assert_eq!(error_of(index_table(&Vec::new())), Some(DataLoadError::Header));
}

#[test]
fn parse_table_yields_records_in_order() {
    let rows = vec![
        row(&["adresseTekst", "kommunenummer"]),
        row(&["Storgata 1", "301"]),
        row(&["Kirkegata 2", "1103"]),
    ];
    let records = parse_table(&rows).unwrap();
    assert_eq!(records.len(), 2);
    assert_eq!(records[0].municipality_id, 301);
    assert_eq!(records[0].address_text, "Storgata 1");
    assert_eq!(records[1].municipality_id, 1103);
    assert_eq!(records[1].address_text, "Kirkegata 2");
}

#[test]
fn find_column_wants_exactly_one() {
    let header = row(&["a", "b", "c", "b"]);
    assert_eq!(find_column(&header, "a"), Some(0));
    assert_eq!(find_column(&header, "c"), Some(2));
    assert_eq!(find_column(&header, "b"), None);
    assert_eq!(find_column(&header, "d"), None);
    assert_eq!(find_column(&Vec::new(), "a"), None);
}

#[test]
fn parse_row_reads_both_columns() {
    let fields = row(&["Storgata 1", "x", "301"]);
    let record = parse_row(&fields, 2, 0).unwrap();
    assert_eq!(record.municipality_id, 301);
    assert_eq!(record.address_text, "Storgata 1");
    assert!(parse_row(&fields, 1, 0).is_none());
    assert!(parse_row(&fields, 3, 0).is_none());
    assert!(parse_row(&fields, 2, 3).is_none());
}

#[test]
fn load_agrees_with_parse() {
    let text = b"kommunenummer,adresseTekst\n301,A\n301,B\n";
    let loaded = load_csv_data(&gz(text)).unwrap();
    let parsed = parse(text).unwrap();
    assert_eq!(texts(loaded.query("", 301)), texts(parsed.query("", 301)));
    assert_eq!(texts(loaded.query("", 301)), Some(strings(&["A", "B"])));
}
