use nepospot::classify::NepoBabiness;
use nepospot::cli::classify_links;
use nepospot::cli::judgment_message;
use nepospot::cli::live_parent_queries;
use nepospot::cli::not_found_message;
use nepospot::PersonData;

fn subject(
    wiki_link: Option<&str>,
    father_external_id: Option<&str>,
    mother_external_id: Option<&str>,
) -> PersonData {
    PersonData {
        external_id: "nm0000010".to_string(),
        name: "Subject".to_string(),
        wiki_link: wiki_link.map(|s| s.to_string()),
        father_name: None,
        father_external_id: father_external_id.map(|s| s.to_string()),
        father_wiki_link: None,
        mother_name: None,
        mother_external_id: mother_external_id.map(|s| s.to_string()),
        mother_wiki_link: None,
    }
}

#[test]
fn no_article_issues_no_parent_query() {
    let p = subject(None, Some("nm0000011"), Some("nm0000012"));
    let (father, mother) = live_parent_queries(&p);
    assert!(father.is_none());
    assert!(mother.is_none());
    assert!(matches!(classify_links(None, None), NepoBabiness::No));
}

#[test]
fn no_recorded_parents_issues_no_parent_query() {
    let p = subject(Some("https://en.wikipedia.org/wiki/Subject"), None, None);
    let (father, mother) = live_parent_queries(&p);
    assert!(father.is_none());
    assert!(mother.is_none());
}

#[test]
fn recorded_parents_are_queried() {
    let p = subject(
        Some("https://en.wikipedia.org/wiki/Subject"),
        Some("nm0000011"),
        None,
    );
    let (father, mother) = live_parent_queries(&p);
    assert_eq!(father.as_deref(), Some("nm0000011"));
    assert!(mother.is_none());
}

#[test]
fn resolved_links_follow_the_decision_table() {
    let yes = classify_links(Some("f".to_string()), Some("m".to_string()));
    match yes {
        NepoBabiness::Yes {
            father_wiki_link,
            mother_wiki_link,
        } => {
            assert_eq!(father_wiki_link, "f");
            assert_eq!(mother_wiki_link, "m");
        }
        _ => panic!("expected the both-parents variant"),
    }
    assert!(matches!(
        classify_links(None, Some("m".to_string())),
        NepoBabiness::OnlyMother { .. }
    ));
    assert!(matches!(
        classify_links(Some("f".to_string()), None),
        NepoBabiness::OnlyFather { .. }
    ));
}

#[test]
fn not_found_line_names_the_identifier() {
    assert_eq!(
        not_found_message("nm0404040"),
        "Couldn't find a person with IMDB id nm0404040, are you sure that's correct?"
    );
}

#[test]
fn judgment_lines_name_person_and_links() {
    let both = NepoBabiness::Yes {
        father_wiki_link: "https://en.wikipedia.org/wiki/Dad".to_string(),
        mother_wiki_link: "https://en.wikipedia.org/wiki/Mum".to_string(),
    };
    assert_eq!(
        judgment_message("nm1", "Star", &both),
        "Person with IMDB id nm1 appears to be Star\nThey're a nepo baby.\nMeet the parents:\n- https://en.wikipedia.org/wiki/Mum\n- https://en.wikipedia.org/wiki/Dad"
    );
    assert_eq!(
        judgment_message("nm1", "Star", &NepoBabiness::No),
        "Person with IMDB id nm1 appears to be Star\nThey're not a nepo baby: neither of their parents have a wikipedia page"
    );
    let mother = NepoBabiness::OnlyMother {
        wiki_link: "https://en.wikipedia.org/wiki/Mum".to_string(),
    };
    assert_eq!(
        judgment_message("nm1", "Star", &mother),
        "Person with IMDB id nm1 appears to be Star\nThey might be a nepo baby. Their mother has a wiki page: https://en.wikipedia.org/wiki/Mum"
    );
    let father = NepoBabiness::OnlyFather {
        wiki_link: "https://en.wikipedia.org/wiki/Dad".to_string(),
    };
    assert_eq!(
        judgment_message("nm1", "Star", &father),
        "Person with IMDB id nm1 appears to be Star\nThey might be a nepo baby. Their father has a wiki page: https://en.wikipedia.org/wiki/Dad"
    );
}
