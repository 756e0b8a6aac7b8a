use address_autocomplete::text::{chars_of, same_text, starts_with};

#[test]
fn starts_with_accepts_prefixes() {
    assert!(starts_with("osloveien 1", "oslo"));
    assert!(starts_with("osloveien 1", ""));
    assert!(starts_with("oslo", "oslo"));
    assert!(starts_with("", ""));
    assert!(starts_with("ålesund", "ål"));
}

#[test]
fn starts_with_rejects_the_rest() {
    assert!(!starts_with("oslo", "osloveien"));
    assert!(!starts_with("osloveien", "Oslo"));
    assert!(!starts_with("osloveien", "slo"));
    assert!(!starts_with("", "o"));
    assert!(!starts_with("alesund", "ål"));
}

#[test]
fn same_text_compares_characters() {
    assert!(same_text("kommunenummer", "kommunenummer"));
    assert!(same_text("", ""));
    assert!(!same_text("kommunenummer", "Kommunenummer"));
    assert!(!same_text("kommunenummer", "kommunenummer "));
    assert!(!same_text("kommune", "kommunenummer"));
    assert!(!same_text("kommunenummer", "kommune"));
}

#[test]
fn chars_of_lists_characters() {
    assert_eq!(chars_of("Øl1"), vec!['Ø', 'l', '1']);
    assert_eq!(chars_of(""), Vec::<char>::new());
}
