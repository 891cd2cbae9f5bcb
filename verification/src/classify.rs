//! The four-valued notability-inheritance classification of a person,
//! computed from the presence of the parents' encyclopedia links.

use vstd::prelude::*;

use crate::records::PersonData;

verus! {

/// The classification of one person: whether neither, one, or both parents
/// have an encyclopedia article, carrying the links where they exist.
pub enum NepoBabiness {
    No,
    OnlyMother { wiki_link: String },
    OnlyFather { wiki_link: String },
    Yes { father_wiki_link: String, mother_wiki_link: String },
}

/// The view of a [`NepoBabiness`]: the same four variants over `Seq<char>`.
pub ghost enum NepoView {
    No,
    OnlyMother { wiki_link: Seq<char> },
    OnlyFather { wiki_link: Seq<char> },
    Yes { father_wiki_link: Seq<char>, mother_wiki_link: Seq<char> },
}

impl View for NepoBabiness {
    type V = NepoView;

    open spec fn view(&self) -> NepoView {
        match self {
            NepoBabiness::No => NepoView::No,
            NepoBabiness::OnlyMother { wiki_link } => NepoView::OnlyMother {
                wiki_link: wiki_link@,
            },
            NepoBabiness::OnlyFather { wiki_link } => NepoView::OnlyFather {
                wiki_link: wiki_link@,
            },
            NepoBabiness::Yes { father_wiki_link, mother_wiki_link } => NepoView::Yes {
                father_wiki_link: father_wiki_link@,
                mother_wiki_link: mother_wiki_link@,
            },
        }
    }
}

/// The decision table: what the classification is for each combination of an
/// optional father link and an optional mother link.
pub open spec fn classify_spec(
    father_wiki_link: Option<Seq<char>>,
    mother_wiki_link: Option<Seq<char>>,
) -> NepoView {
    match (father_wiki_link, mother_wiki_link) {
        (Option::Some(f), Option::Some(m)) => NepoView::Yes {
            father_wiki_link: f,
            mother_wiki_link: m,
        },
        (Option::None, Option::Some(m)) => NepoView::OnlyMother { wiki_link: m },
        (Option::Some(f), Option::None) => NepoView::OnlyFather { wiki_link: f },
        (Option::None, Option::None) => NepoView::No,
    }
}

/// Classifies one record by its parents' links: the decision table applied to
/// `father_wiki_link` and `mother_wiki_link`.
pub fn determine_nepo_babiness(person: &PersonData) -> (r: NepoBabiness)
    ensures
        r@ == classify_spec(person@.father_wiki_link, person@.mother_wiki_link),
{
    if person.mother_wiki_link.is_some() && person.father_wiki_link.is_some() {
        NepoBabiness::Yes {
            father_wiki_link: person.father_wiki_link.as_ref().unwrap().clone(),
            mother_wiki_link: person.mother_wiki_link.as_ref().unwrap().clone(),
        }
    } else if person.mother_wiki_link.is_some() {
        NepoBabiness::OnlyMother { wiki_link: person.mother_wiki_link.as_ref().unwrap().clone() }
    } else if person.father_wiki_link.is_some() {
        NepoBabiness::OnlyFather { wiki_link: person.father_wiki_link.as_ref().unwrap().clone() }
    } else {
        NepoBabiness::No
    }
}

/// Law: the decision table is exhaustive over the four combinations. The
/// classification is `Yes` exactly when both links are present, `No` exactly
/// when both are absent, and the matching single-parent variant otherwise,
/// carrying the links that are present.
pub proof fn lemma_classification_exhaustive(
    father_wiki_link: Option<Seq<char>>,
    mother_wiki_link: Option<Seq<char>>,
)
    ensures
        classify_spec(father_wiki_link, mother_wiki_link) is Yes <==> (father_wiki_link is Some
            && mother_wiki_link is Some),
        classify_spec(father_wiki_link, mother_wiki_link) is No <==> (father_wiki_link is None
            && mother_wiki_link is None),
        classify_spec(father_wiki_link, mother_wiki_link) is OnlyMother <==> (
        father_wiki_link is None && mother_wiki_link is Some),
        classify_spec(father_wiki_link, mother_wiki_link) is OnlyFather <==> (
        father_wiki_link is Some && mother_wiki_link is None),
        father_wiki_link is Some && mother_wiki_link is Some ==> classify_spec(
            father_wiki_link,
            mother_wiki_link,
        ) == (NepoView::Yes {
            father_wiki_link: father_wiki_link->0,
            mother_wiki_link: mother_wiki_link->0,
        }),
        father_wiki_link is None && mother_wiki_link is Some ==> classify_spec(
            father_wiki_link,
            mother_wiki_link,
        ) == (NepoView::OnlyMother { wiki_link: mother_wiki_link->0 }),
        father_wiki_link is Some && mother_wiki_link is None ==> classify_spec(
            father_wiki_link,
            mother_wiki_link,
        ) == (NepoView::OnlyFather { wiki_link: father_wiki_link->0 }),
{
}

} // verus!
