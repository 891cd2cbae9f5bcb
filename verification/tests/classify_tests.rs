use nepospot::classify::NepoBabiness;
use nepospot::determine_nepo_babiness;
use nepospot::PersonData;

fn person(father_wiki_link: Option<&str>, mother_wiki_link: Option<&str>) -> PersonData {
    PersonData {
        external_id: "nm0000001".to_string(),
        name: "Test Person".to_string(),
        wiki_link: Some("https://en.wikipedia.org/wiki/Test_Person".to_string()),
        father_name: father_wiki_link.map(|_| "Father".to_string()),
        father_external_id: father_wiki_link.map(|_| "nm0000002".to_string()),
        father_wiki_link: father_wiki_link.map(|s| s.to_string()),
        mother_name: mother_wiki_link.map(|_| "Mother".to_string()),
        mother_external_id: mother_wiki_link.map(|_| "nm0000003".to_string()),
        mother_wiki_link: mother_wiki_link.map(|s| s.to_string()),
    }
}

#[test]
fn classify_both_links_present() {
    let p = person(
        Some("https://en.wikipedia.org/wiki/Dad"),
        Some("https://en.wikipedia.org/wiki/Mum"),
    );
    match determine_nepo_babiness(&p) {
        NepoBabiness::Yes {
            father_wiki_link,
            mother_wiki_link,
        } => {
            assert_eq!(father_wiki_link, "https://en.wikipedia.org/wiki/Dad");
            assert_eq!(mother_wiki_link, "https://en.wikipedia.org/wiki/Mum");
        }
        _ => panic!("expected the both-parents variant"),
    }
}

#[test]
fn classify_mother_only() {
    let p = person(None, Some("https://en.wikipedia.org/wiki/Mum"));
    match determine_nepo_babiness(&p) {
        NepoBabiness::OnlyMother { wiki_link } => {
            assert_eq!(wiki_link, "https://en.wikipedia.org/wiki/Mum");
        }
        _ => panic!("expected the mother-only variant"),
    }
}

#[test]
fn classify_father_only() {
    let p = person(Some("https://en.wikipedia.org/wiki/Dad"), None);
    match determine_nepo_babiness(&p) {
        NepoBabiness::OnlyFather { wiki_link } => {
            assert_eq!(wiki_link, "https://en.wikipedia.org/wiki/Dad");
        }
        _ => panic!("expected the father-only variant"),
    }
}

#[test]
fn classify_no_links() {
    let p = person(None, None);
    assert!(matches!(determine_nepo_babiness(&p), NepoBabiness::No));
}
