//! The person record: one row per identified person, with optional
//! encyclopedia links and optional parent name/identifier/link triples.

use vstd::prelude::*;

verus! {

/// Mathematical view of an optional owned string.
pub open spec fn view_opt(o: Option<String>) -> Option<Seq<char>> {
    match o {
        Option::Some(s) => Option::Some(s@),
        Option::None => Option::None,
    }
}

/// Mathematical view of an optional borrowed string.
pub open spec fn view_opt_str(o: Option<&str>) -> Option<Seq<char>> {
    match o {
        Option::Some(s) => Option::Some(s@),
        Option::None => Option::None,
    }
}

/// One person, as fetched from the knowledge graph and as stored in the
/// dataset. A record is immutable after creation. Parent fields are present
/// only when the corresponding relation exists and carries that datum.
pub struct PersonData {
    pub external_id: String,
    pub name: String,
    pub wiki_link: Option<String>,
    pub father_name: Option<String>,
    pub father_external_id: Option<String>,
    pub father_wiki_link: Option<String>,
    pub mother_name: Option<String>,
    pub mother_external_id: Option<String>,
    pub mother_wiki_link: Option<String>,
}

/// The view of a [`PersonData`]: the same nine fields over `Seq<char>`.
pub ghost struct PersonView {
    pub external_id: Seq<char>,
    pub name: Seq<char>,
    pub wiki_link: Option<Seq<char>>,
    pub father_name: Option<Seq<char>>,
    pub father_external_id: Option<Seq<char>>,
    pub father_wiki_link: Option<Seq<char>>,
    pub mother_name: Option<Seq<char>>,
    pub mother_external_id: Option<Seq<char>>,
    pub mother_wiki_link: Option<Seq<char>>,
}

impl View for PersonData {
    type V = PersonView;

    open spec fn view(&self) -> PersonView {
        PersonView {
            external_id: self.external_id@,
            name: self.name@,
            wiki_link: view_opt(self.wiki_link),
            father_name: view_opt(self.father_name),
            father_external_id: view_opt(self.father_external_id),
            father_wiki_link: view_opt(self.father_wiki_link),
            mother_name: view_opt(self.mother_name),
            mother_external_id: view_opt(self.mother_external_id),
            mother_wiki_link: view_opt(self.mother_wiki_link),
        }
    }
}

/// Duplicates an optional owned string, field for field.
pub fn clone_opt_string(o: &Option<String>) -> (r: Option<String>)
    ensures
        view_opt(r) == view_opt(*o),
{
    match o {
        Option::Some(s) => Option::Some(s.clone()),
        Option::None => Option::None,
    }
}

impl PersonData {
    /// Duplicates the record; the copy has the same view.
    pub fn duplicate(&self) -> (r: PersonData)
        ensures
            r@ == self@,
    {
        PersonData {
            external_id: self.external_id.clone(),
            name: self.name.clone(),
            wiki_link: clone_opt_string(&self.wiki_link),
            father_name: clone_opt_string(&self.father_name),
            father_external_id: clone_opt_string(&self.father_external_id),
            father_wiki_link: clone_opt_string(&self.father_wiki_link),
            mother_name: clone_opt_string(&self.mother_name),
            mother_external_id: clone_opt_string(&self.mother_external_id),
            mother_wiki_link: clone_opt_string(&self.mother_wiki_link),
        }
    }
}

/// A person record over borrowed, process-lifetime strings: the shape a
/// bundled, compiled-in dataset carries before it is loaded.
pub struct StaticPersonData {
    pub external_id: &'static str,
    pub name: &'static str,
    pub wiki_link: Option<&'static str>,
    pub father_name: Option<&'static str>,
    pub father_external_id: Option<&'static str>,
    pub father_wiki_link: Option<&'static str>,
    pub mother_name: Option<&'static str>,
    pub mother_external_id: Option<&'static str>,
    pub mother_wiki_link: Option<&'static str>,
}

/// Turns an optional borrowed string into an owned one.
pub fn own_opt_str(o: Option<&str>) -> (r: Option<String>)
    ensures
        view_opt(r) == view_opt_str(o),
{
    match o {
        Option::Some(s) => Option::Some(s.to_owned()),
        Option::None => Option::None,
    }
}

impl StaticPersonData {
    /// Loads the borrowed record into an owned [`PersonData`] with the same
    /// field contents.
    pub fn to_person(&self) -> (r: PersonData)
        ensures
            r@.external_id == self.external_id@,
            r@.name == self.name@,
            r@.wiki_link == view_opt_str(self.wiki_link),
            r@.father_name == view_opt_str(self.father_name),
            r@.father_external_id == view_opt_str(self.father_external_id),
            r@.father_wiki_link == view_opt_str(self.father_wiki_link),
            r@.mother_name == view_opt_str(self.mother_name),
            r@.mother_external_id == view_opt_str(self.mother_external_id),
            r@.mother_wiki_link == view_opt_str(self.mother_wiki_link),
    {
        PersonData {
            external_id: self.external_id.to_owned(),
            name: self.name.to_owned(),
            wiki_link: own_opt_str(self.wiki_link),
            father_name: own_opt_str(self.father_name),
            father_external_id: own_opt_str(self.father_external_id),
            father_wiki_link: own_opt_str(self.father_wiki_link),
            mother_name: own_opt_str(self.mother_name),
            mother_external_id: own_opt_str(self.mother_external_id),
            mother_wiki_link: own_opt_str(self.mother_wiki_link),
        }
    }
}

} // verus!
