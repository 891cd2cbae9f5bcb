use nepospot::dataset::build_dataset;
use nepospot::dataset::Dataset;
use nepospot::service::handle_lookup;
use nepospot::PersonData;

fn sample_dataset() -> Dataset {
    let person = PersonData {
        external_id: "nm0001774".to_string(),
        name: "Sample Actor".to_string(),
        wiki_link: Some("https://en.wikipedia.org/wiki/Sample_Actor".to_string()),
        father_name: None,
        father_external_id: None,
        father_wiki_link: None,
        mother_name: Some("Jane".to_string()),
        mother_external_id: Some("nm0000055".to_string()),
        mother_wiki_link: Some("https://en.wikipedia.org/wiki/Jane".to_string()),
    };
    build_dataset(vec![person])
}

#[test]
fn test_success() {
    let d = sample_dataset();
    let r = handle_lookup(&d, true, Some("nm0001774"));
    assert_eq!(r.status, 200);
}

#[test]
fn found_record_answers_json_with_classification() {
    let d = sample_dataset();
    let r = handle_lookup(&d, true, Some("nm0001774"));
    assert_eq!(r.status, 200);
    assert!(r.content_type_json);
    let v: serde_json::Value = serde_json::from_str(&r.body).expect("body is JSON");
    let person = v.get("person").expect("person key");
    assert_eq!(
        person.get("external_id").and_then(|x| x.as_str()),
        Some("nm0001774")
    );
    assert_eq!(
        person.get("name").and_then(|x| x.as_str()),
        Some("Sample Actor")
    );
    assert!(person.get("father_wiki_link").expect("key present").is_null());
    let nepo = v.get("is_nepo_baby").expect("is_nepo_baby key");
    let mother_only = nepo.get("OnlyMother").expect("mother-only tag");
    assert_eq!(
        mother_only.get("wiki_link").and_then(|x| x.as_str()),
        Some("https://en.wikipedia.org/wiki/Jane")
    );
}

#[test]
fn absent_identifier_is_not_found() {
    let d = sample_dataset();
    let r = handle_lookup(&d, true, Some("nm0000001"));
    assert_eq!(r.status, 404);
    assert_eq!(r.body, "");
}

#[test]
fn missing_parameter_is_bad_request() {
    let d = sample_dataset();
    let r = handle_lookup(&d, true, None);
    assert_eq!(r.status, 400);
    assert_eq!(r.body, "");
}

#[test]
fn foreign_prefix_is_bad_request() {
    let d = sample_dataset();
    let r = handle_lookup(&d, true, Some("tt0001774"));
    assert_eq!(r.status, 400);
    assert_eq!(r.body, "");
}

#[test]
fn non_get_method_is_refused() {
    let d = sample_dataset();
    let r = handle_lookup(&d, false, Some("nm0001774"));
    assert_eq!(r.status, 405);
    assert_eq!(r.body, "");
}

#[test]
fn body_escapes_json_characters() {
    let person = PersonData {
        external_id: "nm7".to_string(),
        name: "Quote \" Backslash \\ Newline \n End".to_string(),
        wiki_link: None,
        father_name: None,
        father_external_id: None,
        father_wiki_link: None,
        mother_name: None,
        mother_external_id: None,
        mother_wiki_link: None,
    };
    let d = build_dataset(vec![person]);
    let r = handle_lookup(&d, true, Some("nm7"));
    assert_eq!(r.status, 200);
    let v: serde_json::Value = serde_json::from_str(&r.body).expect("body is JSON");
    assert_eq!(
        v.get("person").and_then(|p| p.get("name")).and_then(|x| x.as_str()),
        Some("Quote \" Backslash \\ Newline \n End")
    );
    assert_eq!(
        v.get("is_nepo_baby").and_then(|x| x.as_str()),
        Some("No")
    );
}
