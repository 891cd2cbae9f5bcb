use nepospot::fetch::people_from_rows;
use nepospot::fetch::person_from_row;
use nepospot::fetch::year_ranges_from;
use nepospot::fetch::QueryRow;
use nepospot::get_nepos_csv_path;
use nepospot::get_people_library_module_path;
use nepospot::records::StaticPersonData;

fn row(pairs: &[(&str, &str)]) -> QueryRow {
    QueryRow {
        fields: pairs
            .iter()
            .map(|(k, v)| (k.to_string(), v.to_string()))
            .collect(),
    }
}

#[test]
fn full_row_decodes_every_field() {
    let r = row(&[
        ("imdbId", "nm0001774"),
        ("personLabel", "Sample Actor"),
        ("wikiLink", "https://en.wikipedia.org/wiki/Sample_Actor"),
        ("fatherLabel", "Dad"),
        ("fatherImdbId", "nm0000002"),
        ("fatherWikiLink", "https://en.wikipedia.org/wiki/Dad"),
        ("motherLabel", "Mum"),
        ("motherImdbId", "nm0000003"),
        ("motherWikiLink", "https://en.wikipedia.org/wiki/Mum"),
    ]);
    let p = person_from_row(&r).expect("complete row decodes");
    assert_eq!(p.external_id, "nm0001774");
    assert_eq!(p.name, "Sample Actor");
    assert_eq!(
        p.wiki_link.as_deref(),
        Some("https://en.wikipedia.org/wiki/Sample_Actor")
    );
    assert_eq!(p.father_name.as_deref(), Some("Dad"));
    assert_eq!(p.father_external_id.as_deref(), Some("nm0000002"));
    assert_eq!(
        p.father_wiki_link.as_deref(),
        Some("https://en.wikipedia.org/wiki/Dad")
    );
    assert_eq!(p.mother_name.as_deref(), Some("Mum"));
    assert_eq!(p.mother_external_id.as_deref(), Some("nm0000003"));
    assert_eq!(
        p.mother_wiki_link.as_deref(),
        Some("https://en.wikipedia.org/wiki/Mum")
    );
}

#[test]
fn sparse_row_leaves_options_unset() {
    let r = row(&[("imdbId", "nm5"), ("personLabel", "Loner")]);
    let p = person_from_row(&r).expect("name and identifier suffice");
    assert_eq!(p.external_id, "nm5");
    assert!(p.wiki_link.is_none());
    assert!(p.father_wiki_link.is_none());
    assert!(p.mother_wiki_link.is_none());
}

#[test]
fn row_without_identifier_is_skipped() {
    let r = row(&[("personLabel", "Nameless")]);
    assert!(person_from_row(&r).is_none());
}

#[test]
fn rows_decode_in_order_skipping_incomplete_ones() {
    let rows = vec![
        row(&[("imdbId", "nm1"), ("personLabel", "One")]),
        row(&[("personLabel", "No Identifier")]),
        row(&[("imdbId", "nm2"), ("personLabel", "Two")]),
    ];
    let people = people_from_rows(&rows);
    assert_eq!(people.len(), 2);
    assert_eq!(people[0].name, "One");
    assert_eq!(people[1].name, "Two");
}

#[test]
fn year_ranges_walk_backward_to_the_floor() {
    let ranges = year_ranges_from(2024, 4, 1883);
    assert_eq!(ranges.first(), Some(&(2020, 2024)));
    assert_eq!(ranges.last(), Some(&(1880, 1884)));
    assert_eq!(ranges.len(), 36);
    for w in ranges.windows(2) {
        assert_eq!(w[1].1, w[0].0);
    }
    for (start, end) in &ranges {
        assert_eq!(end - start, 4);
        assert!(start + 4 > 1883);
    }
}

#[test]
fn year_ranges_empty_when_already_below_floor() {
    let ranges = year_ranges_from(1883, 4, 1883);
    assert!(ranges.is_empty());
}

#[test]
fn artifact_paths_are_fixed() {
    assert_eq!(get_nepos_csv_path(), "data/nepos.csv");
    assert_eq!(get_people_library_module_path(), "people/src/people.rs");
}

#[test]
fn static_record_loads_into_owned_form() {
    let s = StaticPersonData {
        external_id: "nm0001774",
        name: "Sample Actor",
        wiki_link: Some("https://en.wikipedia.org/wiki/Sample_Actor"),
        father_name: None,
        father_external_id: None,
        father_wiki_link: None,
        mother_name: Some("Jane"),
        mother_external_id: None,
        mother_wiki_link: Some("https://en.wikipedia.org/wiki/Jane"),
    };
    let p = s.to_person();
    assert_eq!(p.external_id, "nm0001774");
    assert_eq!(p.name, "Sample Actor");
    assert_eq!(
        p.mother_wiki_link.as_deref(),
        Some("https://en.wikipedia.org/wiki/Jane")
    );
    assert!(p.father_wiki_link.is_none());
}
