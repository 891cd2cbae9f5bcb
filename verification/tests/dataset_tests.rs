use nepospot::dataset::build_dataset;
use nepospot::ids::person_id_key;
use nepospot::PersonData;

fn named(external_id: &str, name: &str) -> PersonData {
    PersonData {
        external_id: external_id.to_string(),
        name: name.to_string(),
        wiki_link: None,
        father_name: None,
        father_external_id: None,
        father_wiki_link: None,
        mother_name: None,
        mother_external_id: None,
        mother_wiki_link: None,
    }
}

#[test]
fn dedup_same_identifier_from_overlapping_chunks() {
    let records = vec![
        named("nm0000123", "First Fetch"),
        named("nm0000123", "Second Fetch"),
    ];
    let d = build_dataset(records);
    assert_eq!(d.len(), 1);
    assert_eq!(d.get(0).external_id, "nm0000123");
    assert_eq!(d.get(0).name, "First Fetch");
}

#[test]
fn dedup_same_numeric_key_different_spelling() {
    let records = vec![named("nm123", "Short"), named("nm0000123", "Padded")];
    let d = build_dataset(records);
    assert_eq!(d.len(), 1);
    assert_eq!(d.get(0).external_id, "nm123");
    assert_eq!(d.get(0).name, "Short");
}

#[test]
fn filter_drops_foreign_prefix() {
    let records = vec![named("tt0000123", "A Film"), named("nm0000007", "A Person")];
    let d = build_dataset(records);
    assert_eq!(d.len(), 1);
    assert_eq!(d.get(0).external_id, "nm0000007");
}

#[test]
fn filter_drops_malformed_suffix() {
    let records = vec![
        named("nm", "No Digits"),
        named("nm12a4", "Letter Inside"),
        named("nm99999999999999999999", "Twenty Digits"),
        named("nm42", "Kept"),
    ];
    let d = build_dataset(records);
    assert_eq!(d.len(), 1);
    assert_eq!(d.get(0).external_id, "nm42");
}

#[test]
fn sorted_ascending_by_numeric_suffix() {
    let records = vec![
        named("nm10", "Ten"),
        named("nm2", "Two"),
        named("nm0005", "Five"),
    ];
    let d = build_dataset(records);
    assert_eq!(d.len(), 3);
    assert_eq!(d.get(0).external_id, "nm2");
    assert_eq!(d.get(1).external_id, "nm0005");
    assert_eq!(d.get(2).external_id, "nm10");
}

#[test]
fn lookup_finds_exact_identifier() {
    let records = vec![named("nm2", "Two"), named("nm10", "Ten")];
    let d = build_dataset(records);
    let found = d.lookup("nm10").expect("nm10 is in the dataset");
    assert_eq!(found.name, "Ten");
}

#[test]
fn lookup_misses_absent_identifier() {
    let records = vec![named("nm2", "Two")];
    let d = build_dataset(records);
    assert!(d.lookup("nm3").is_none());
}

#[test]
fn lookup_distinguishes_spellings_of_one_key() {
    let records = vec![named("nm0001774", "Padded")];
    let d = build_dataset(records);
    assert!(d.lookup("nm1774").is_none());
    assert!(d.lookup("nm0001774").is_some());
}

#[test]
fn id_key_reads_the_digits() {
    assert_eq!(person_id_key("nm0001774"), Some(1774));
    assert_eq!(person_id_key("nm0"), Some(0));
    assert_eq!(person_id_key("nm9999999999999999999"), Some(9999999999999999999));
    assert_eq!(person_id_key("tt0001774"), None);
    assert_eq!(person_id_key("nm"), None);
    assert_eq!(person_id_key("nm17x4"), None);
    assert_eq!(person_id_key("nm99999999999999999999"), None);
    assert_eq!(person_id_key(""), None);
}
