use address_autocomplete::number::parse_municipality_id;

#[test]
fn decimal_identifiers() {
    assert_eq!(parse_municipality_id("301"), Some(301));
    assert_eq!(parse_municipality_id("0301"), Some(301));
    assert_eq!(parse_municipality_id("0"), Some(0));
    assert_eq!(parse_municipality_id("+5"), Some(5));
    assert_eq!(parse_municipality_id("65535"), Some(65535));
    assert_eq!(parse_municipality_id("00000000000065535"), Some(65535));
}

#[test]
fn hexadecimal_identifiers() {
    assert_eq!(parse_municipality_id("0x1F"), Some(31));
    assert_eq!(parse_municipality_id("0x1f"), Some(31));
    assert_eq!(parse_municipality_id("0xffff"), Some(65535));
    assert_eq!(parse_municipality_id("0x+a"), Some(10));
    assert_eq!(parse_municipality_id("0x0"), Some(0));
}

#[test]
fn rejected_identifiers() {
    for field in [
        "", "+", "-1", "65536", "70000", "99999999999999999999", "12a", "a", " 1", "1 ", "1.0",
        "0x", "0x+", "0x10000", "0xg", "0X1F", "x1", "++1", "+-1", "1_000", "３０１", "oslo",
    ] {
        assert_eq!(parse_municipality_id(field), None, "{:?}", field);
    }
}

#[test]
fn identifiers_read_as_the_csv_reader_reads_them() {
    for field in [
        "301", "0301", "+5", "65535", "65536", "", "+", "-1", "0x1F", "0x1f", "0x", "0x+a",
        "0X1F", "0x10000", "0xffff", " 1", "1 ", "12a", "３０１", "0x-1", "00x1", "+0x1",
    ] {
        let record = csv::StringRecord::from(vec![field]);
        let expected: Option<u16> = record.deserialize::<(u16,)>(None).ok().map(|t| t.0);
        assert_eq!(parse_municipality_id(field), expected, "{:?}", field);
    }
}

#[test]
fn hexadecimal_digits_of_either_case() {
    assert_eq!(parse_municipality_id("0xaBcD"), Some(0xabcd));
    assert_eq!(parse_municipality_id("0x09af"), Some(0x09af));
    assert_eq!(parse_municipality_id("0xAF"), Some(0xaf));
    assert_eq!(parse_municipality_id("0x/"), None);
    assert_eq!(parse_municipality_id("0x:"), None);
    assert_eq!(parse_municipality_id("0x@"), None);
    assert_eq!(parse_municipality_id("0xG"), None);
    assert_eq!(parse_municipality_id("0x`"), None);
    assert_eq!(parse_municipality_id("9/"), None);
    assert_eq!(parse_municipality_id("9:"), None);
    assert_eq!(parse_municipality_id("af"), None);
}
