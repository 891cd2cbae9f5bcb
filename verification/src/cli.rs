//! The command-line lookup's decisions: which parent lookups to issue for a
//! resolved person, how the resolved links classify, and the lines printed
//! for each outcome. The live queries themselves happen outside the library;
//! this module takes and returns plain values.

use vstd::prelude::*;

use crate::classify::classify_spec;
use crate::classify::NepoBabiness;
use crate::classify::NepoView;
use crate::records::clone_opt_string;
use crate::records::view_opt;
use crate::records::PersonData;
use crate::records::PersonView;

verus! {

/// Which parent identifiers the live path resolves: none when the subject has
/// no encyclopedia article, none when no parent identifier is recorded, and
/// each recorded parent identifier otherwise.
pub open spec fn parent_queries_spec(p: PersonView) -> (Option<Seq<char>>, Option<Seq<char>>) {
    if p.wiki_link is None {
        (Option::None, Option::None)
    } else if p.father_external_id is None && p.mother_external_id is None {
        (Option::None, Option::None)
    } else {
        (p.father_external_id, p.mother_external_id)
    }
}

/// The parent identifiers to resolve for `person`, father first: none at all
/// when the subject has no article or records no parent identifier.
pub fn live_parent_queries(person: &PersonData) -> (r: (Option<String>, Option<String>))
    ensures
        (view_opt(r.0), view_opt(r.1)) == parent_queries_spec(person@),
{
    if person.wiki_link.is_none() {
        (Option::None, Option::None)
    } else if person.father_external_id.is_none() && person.mother_external_id.is_none() {
        (Option::None, Option::None)
    } else {
        (
            clone_opt_string(&person.father_external_id),
            clone_opt_string(&person.mother_external_id),
        )
    }
}

/// The decision table applied to two independently resolved links.
pub fn classify_links(
    father_wiki_link: Option<String>,
    mother_wiki_link: Option<String>,
) -> (r: NepoBabiness)
    ensures
        r@ == classify_spec(view_opt(father_wiki_link), view_opt(mother_wiki_link)),
{
    match (father_wiki_link, mother_wiki_link) {
        (Option::Some(f), Option::Some(m)) => NepoBabiness::Yes {
            father_wiki_link: f,
            mother_wiki_link: m,
        },
        (Option::None, Option::Some(m)) => NepoBabiness::OnlyMother { wiki_link: m },
        (Option::Some(f), Option::None) => NepoBabiness::OnlyFather { wiki_link: f },
        (Option::None, Option::None) => NepoBabiness::No,
    }
}

/// Law: a subject without an encyclopedia article is classified `No` with no
/// parent lookup issued, and so is one that records no parent identifier:
/// the live path asks for no parent, and two unresolved links classify as
/// `No`.
pub proof fn lemma_live_short_circuit(p: PersonView)
    ensures
        p.wiki_link is None ==> parent_queries_spec(p) == (
            Option::<Seq<char>>::None,
            Option::<Seq<char>>::None,
        ),
        p.father_external_id is None && p.mother_external_id is None ==> parent_queries_spec(p)
            == (Option::<Seq<char>>::None, Option::<Seq<char>>::None),
        classify_spec(Option::None, Option::None) == NepoView::No,
{
}

/// What the live path says about the person, given the resolved parent links.
pub open spec fn nepo_message_spec(c: NepoView) -> Seq<char> {
    match c {
        NepoView::No => "They're not a nepo baby: neither of their parents have a wikipedia page"@,
        NepoView::OnlyMother { wiki_link } => {
            "They might be a nepo baby. Their mother has a wiki page: "@ + wiki_link
        },
        NepoView::OnlyFather { wiki_link } => {
            "They might be a nepo baby. Their father has a wiki page: "@ + wiki_link
        },
        NepoView::Yes { father_wiki_link, mother_wiki_link } => {
            "They're a nepo baby.\nMeet the parents:\n- "@ + mother_wiki_link + "\n- "@
                + father_wiki_link
        },
    }
}

/// The whole report for a resolved person: who they appear to be, then the
/// classification's line or lines.
pub open spec fn judgment_message_spec(
    imdb_id: Seq<char>,
    name: Seq<char>,
    c: NepoView,
) -> Seq<char> {
    "Person with IMDB id "@ + imdb_id + " appears to be "@ + name + "\n"@ + nepo_message_spec(c)
}

/// What the live path prints for an identifier that resolves to nobody.
pub open spec fn not_found_message_spec(imdb_id: Seq<char>) -> Seq<char> {
    "Couldn't find a person with IMDB id "@ + imdb_id + ", are you sure that's correct?"@
}

/// The report printed for a resolved person.
pub fn judgment_message(imdb_id: &str, name: &str, classification: &NepoBabiness) -> (r: String)
    ensures
        r@ == judgment_message_spec(imdb_id@, name@, classification@),
{
    let mut out = String::new();
    out.append("Person with IMDB id ");
    out.append(imdb_id);
    out.append(" appears to be ");
    out.append(name);
    out.append("\n");
    match classification {
        NepoBabiness::No => {
            out.append("They're not a nepo baby: neither of their parents have a wikipedia page");
        },
        NepoBabiness::OnlyMother { wiki_link } => {
            out.append("They might be a nepo baby. Their mother has a wiki page: ");
            out.append(wiki_link.as_str());
        },
        NepoBabiness::OnlyFather { wiki_link } => {
            out.append("They might be a nepo baby. Their father has a wiki page: ");
            out.append(wiki_link.as_str());
        },
        NepoBabiness::Yes { father_wiki_link, mother_wiki_link } => {
            out.append("They're a nepo baby.\nMeet the parents:\n- ");
            out.append(mother_wiki_link.as_str());
            out.append("\n- ");
            out.append(father_wiki_link.as_str());
        },
    }
    proof {
        assert(out@ =~= judgment_message_spec(imdb_id@, name@, classification@));
    }
    out
}

/// The line printed for an identifier that resolves to nobody.
pub fn not_found_message(imdb_id: &str) -> (r: String)
    ensures
        r@ == not_found_message_spec(imdb_id@),
{
    let mut out = String::new();
    out.append("Couldn't find a person with IMDB id ");
    out.append(imdb_id);
    out.append(", are you sure that's correct?");
    proof {
        assert(out@ =~= not_found_message_spec(imdb_id@));
    }
    out
}

} // verus!
