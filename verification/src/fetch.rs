//! Decoding the knowledge graph's rows into person records, and the
//! year-range chunking the fetcher queries by.
//!
//! The query client is an opaque collaborator: it hands back loosely-typed
//! rows, each a list of field-name/value pairs where a missing name means the
//! optional field is unset. Everything from the row onward is decided here.

use vstd::prelude::*;

use crate::records::view_opt;
use crate::records::PersonData;
use crate::records::PersonView;

verus! {

/// One row of a query's answer: field names and their string values, in the
/// order the answer gave them. A name that does not occur is an unset field.
pub struct QueryRow {
    pub fields: Vec<(String, String)>,
}

/// The view of a row: the same pairs over `Seq<char>`.
pub open spec fn row_view(fields: Seq<(String, String)>) -> Seq<(Seq<char>, Seq<char>)> {
    fields.map_values(|f: (String, String)| (f.0@, f.1@))
}

impl View for QueryRow {
    type V = Seq<(Seq<char>, Seq<char>)>;

    open spec fn view(&self) -> Seq<(Seq<char>, Seq<char>)> {
        row_view(self.fields@)
    }
}

/// The first value a row gives for a field name, if any.
pub open spec fn row_value(row: Seq<(Seq<char>, Seq<char>)>, key: Seq<char>) -> Option<Seq<char>>
    decreases row.len(),
{
    if row.len() == 0 {
        Option::None
    } else if row[0].0 == key {
        Option::Some(row[0].1)
    } else {
        row_value(row.drop_first(), key)
    }
}

impl QueryRow {
    /// The first value this row gives for `key`, if any.
    pub fn value_of(&self, key: &str) -> (r: Option<String>)
        ensures
            view_opt(r) == row_value(self@, key@),
    {
        let k: String = key.to_owned();
        let n = self.fields.len();
        let mut i: usize = 0;
        proof {
            assert(self@.skip(0) =~= self@);
        }
        while i < n
            invariant
                i <= n,
                n == self.fields@.len(),
                k@ == key@,
                row_value(self@, key@) == row_value(self@.skip(i as int), key@),
            decreases n - i,
        {
            proof {
                assert(self@.skip(i as int)[0] == self@[i as int]);
            }
            if self.fields[i].0 == k {
                return Option::Some(self.fields[i].1.clone());
            }
            proof {
                assert(self@.skip(i as int).drop_first() =~= self@.skip(i + 1));
            }
            i = i + 1;
        }
        Option::None
    }
}

/// The record a row decodes to: present exactly when the row carries both
/// the person's name and identifier; every other field is carried over as
/// the row gives it, or unset.
pub open spec fn person_from_row_spec(row: Seq<(Seq<char>, Seq<char>)>) -> Option<PersonView> {
    match (row_value(row, "personLabel"@), row_value(row, "imdbId"@)) {
        (Option::Some(name), Option::Some(external_id)) => Option::Some(
            PersonView {
                external_id: external_id,
                name: name,
                wiki_link: row_value(row, "wikiLink"@),
                father_name: row_value(row, "fatherLabel"@),
                father_external_id: row_value(row, "fatherImdbId"@),
                father_wiki_link: row_value(row, "fatherWikiLink"@),
                mother_name: row_value(row, "motherLabel"@),
                mother_external_id: row_value(row, "motherImdbId"@),
                mother_wiki_link: row_value(row, "motherWikiLink"@),
            },
        ),
        _ => Option::None,
    }
}

/// Decodes one row: the person it describes, or nothing when the row lacks
/// the person's name or identifier.
pub fn person_from_row(row: &QueryRow) -> (r: Option<PersonData>)
    ensures
        match r {
            Option::Some(p) => person_from_row_spec(row@) == Option::Some(p@),
            Option::None => person_from_row_spec(row@) is None,
        },
{
    let name = row.value_of("personLabel");
    let external_id = row.value_of("imdbId");
    match (name, external_id) {
        (Option::Some(name), Option::Some(external_id)) => Option::Some(
            PersonData {
                external_id,
                name,
                wiki_link: row.value_of("wikiLink"),
                father_name: row.value_of("fatherLabel"),
                father_external_id: row.value_of("fatherImdbId"),
                father_wiki_link: row.value_of("fatherWikiLink"),
                mother_name: row.value_of("motherLabel"),
                mother_external_id: row.value_of("motherImdbId"),
                mother_wiki_link: row.value_of("motherWikiLink"),
            },
        ),
        _ => Option::None,
    }
}

/// The records a list of rows decodes to, in order, skipping the rows that
/// lack the person's name or identifier.
pub open spec fn people_from_rows_spec(rows: Seq<Seq<(Seq<char>, Seq<char>)>>) -> Seq<PersonView>
    decreases rows.len(),
{
    if rows.len() == 0 {
        Seq::empty()
    } else {
        people_from_rows_spec(rows.drop_last()) + match person_from_row_spec(rows.last()) {
            Option::Some(p) => seq![p],
            Option::None => Seq::empty(),
        }
    }
}

/// The views of a list of rows.
pub open spec fn rows_views(rows: Seq<QueryRow>) -> Seq<Seq<(Seq<char>, Seq<char>)>> {
    rows.map_values(|r: QueryRow| r@)
}

/// Decodes a whole answer: every row that carries the person's name and
/// identifier becomes a record, in the answer's order.
pub fn people_from_rows(rows: &Vec<QueryRow>) -> (r: Vec<PersonData>)
    ensures
        crate::dataset::views_of(r@) == people_from_rows_spec(rows_views(rows@)),
{
    let n = rows.len();
    let mut out: Vec<PersonData> = Vec::new();
    let mut i: usize = 0;
    proof {
        assert(rows_views(rows@.take(0)) =~= Seq::<Seq<(Seq<char>, Seq<char>)>>::empty());
        assert(crate::dataset::views_of(out@) =~= people_from_rows_spec(
            rows_views(rows@.take(0)),
        ));
    }
    while i < n
        invariant
            i <= n,
            n == rows@.len(),
            crate::dataset::views_of(out@) == people_from_rows_spec(rows_views(rows@.take(i as int))),
        decreases n - i,
    {
        let ghost prev = rows_views(rows@.take(i as int));
        let ghost next = rows_views(rows@.take(i + 1));
        proof {
            assert(next.drop_last() =~= prev);
            assert(next.last() == rows@[i as int]@);
        }
        match person_from_row(&rows[i]) {
            Option::Some(p) => {
                out.push(p);
                proof {
                    assert(crate::dataset::views_of(out@) =~= people_from_rows_spec(next));
                }
            },
            Option::None => {
                proof {
                    assert(people_from_rows_spec(next) =~= people_from_rows_spec(prev));
                }
            },
        }
        i = i + 1;
    }
    proof {
        assert(rows@.take(n as int) =~= rows@);
    }
    out
}

/// The year ranges walked backward from `next_year`: each is the half-open
/// `[next_year - chunk_size, next_year)`, and the walk stops once a range
/// would start at or below the floor.
pub open spec fn ranges_spec(next_year: int, chunk_size: int, floor: int) -> Seq<(i32, i32)>
    decreases next_year - floor + chunk_size when chunk_size >= 1
{
    if next_year <= floor {
        Seq::empty()
    } else {
        seq![((next_year - chunk_size) as i32, next_year as i32)] + ranges_spec(
            next_year - chunk_size,
            chunk_size,
            floor,
        )
    }
}

/// Law: the chunking's shape, for any starting year. Every range is the
/// half-open `[start, start + chunk_size)`; the first ends at the starting
/// year; each later one ends where the one before it starts; every range
/// ends above the floor; and the walk goes exactly far enough that one more
/// range would start at or below the floor.
pub proof fn lemma_ranges_shape(next_year: int, chunk_size: int, floor: int)
    requires
        chunk_size >= 1,
        floor >= i32::MIN + chunk_size,
        next_year <= i32::MAX,
    ensures
        forall|i: int|
            0 <= i < ranges_spec(next_year, chunk_size, floor).len() ==> {
                let r = #[trigger] ranges_spec(next_year, chunk_size, floor)[i];
                r.1 - r.0 == chunk_size && r.0 + chunk_size > floor && r.1 == next_year - i
                    * chunk_size
            },
        ranges_spec(next_year, chunk_size, floor).len() == 0 <==> next_year <= floor,
        next_year > floor ==> next_year - ranges_spec(next_year, chunk_size, floor).len()
            * chunk_size <= floor,
    decreases next_year - floor + chunk_size,
{
    if next_year > floor {
        let r = ranges_spec(next_year, chunk_size, floor);
        let rest = ranges_spec(next_year - chunk_size, chunk_size, floor);
        lemma_ranges_shape(next_year - chunk_size, chunk_size, floor);
        assert(r[0] == (((next_year - chunk_size) as i32), (next_year as i32)));
        assert(forall|i: int| 0 < i < r.len() ==> #[trigger] r[i] == rest[i - 1]);
        assert forall|i: int| 0 <= i < r.len() implies {
            let e = #[trigger] r[i];
            e.1 - e.0 == chunk_size && e.0 + chunk_size > floor && e.1 == next_year - i
                * chunk_size
        } by {
            if i > 0 {
                assert(r[i] == rest[i - 1]);
                assert(rest[i - 1].1 == (next_year - chunk_size) - (i - 1) * chunk_size);
                assert((next_year - chunk_size) - (i - 1) * chunk_size == next_year - i
                    * chunk_size) by (nonlinear_arith);
            }
        }
        if next_year - chunk_size > floor {
            assert(next_year - r.len() * chunk_size == (next_year - chunk_size) - rest.len()
                * chunk_size) by (nonlinear_arith)
                requires
                    r.len() == rest.len() + 1,
            ;
        } else {
            assert(rest.len() == 0);
            assert(r.len() == 1);
            assert(next_year - r.len() * chunk_size == next_year - chunk_size);
        }
    }
}

/// The year ranges walked backward from a known starting year.
pub fn year_ranges_from(next_year: i32, chunk_size: i32, floor: i32) -> (r: Vec<(i32, i32)>)
    requires
        chunk_size >= 1,
        floor >= i32::MIN + chunk_size,
    ensures
        r@ == ranges_spec(next_year as int, chunk_size as int, floor as int),
{
    let mut out: Vec<(i32, i32)> = Vec::new();
    let mut y = next_year;
    proof {
        assert(out@ + ranges_spec(y as int, chunk_size as int, floor as int) =~= ranges_spec(
            next_year as int,
            chunk_size as int,
            floor as int,
        ));
    }
    while y > floor
        invariant
            chunk_size >= 1,
            floor >= i32::MIN + chunk_size,
            y >= floor - chunk_size || y == next_year,
            ranges_spec(next_year as int, chunk_size as int, floor as int) == out@ + ranges_spec(
                y as int,
                chunk_size as int,
                floor as int,
            ),
        decreases y - floor + chunk_size,
    {
        let start = y - chunk_size;
        out.push((start, y));
        proof {
            assert(out@ + ranges_spec(start as int, chunk_size as int, floor as int)
                =~= ranges_spec(next_year as int, chunk_size as int, floor as int));
        }
        y = start;
    }
    proof {
        assert(out@ + ranges_spec(y as int, chunk_size as int, floor as int) =~= out@);
    }
    out
}

/// Relies on chrono's `Local::now` and `Datelike::year`: the local date's
/// year, which chrono confines to `NaiveDate`'s representable years.
#[verifier::external_body]
fn current_year() -> (y: i32)
    ensures
        -262143 <= y <= 262142,
{
    chrono::Datelike::year(&chrono::Local::now())
}

/// The year ranges the fetcher queries by: counted down from next calendar
/// year in `chunk_size` steps, stopping once a range would start at or below
/// `last_year_to_be_included`. Whatever the clock says, the result is the
/// walk from some next calendar year within chrono's representable years.
pub fn count_down_year_ranges(chunk_size: i32, last_year_to_be_included: i32) -> (r: Vec<
    (i32, i32),
>)
    requires
        chunk_size >= 1,
        last_year_to_be_included >= i32::MIN + chunk_size,
    ensures
        exists|y: int|
            -262143 <= y <= 262142 && r@ == #[trigger] ranges_spec(
                y + 1,
                chunk_size as int,
                last_year_to_be_included as int,
            ),
{
    let year = current_year();
    let r = year_ranges_from(year + 1, chunk_size, last_year_to_be_included);
    proof {
        assert(-262143 <= year as int <= 262142 && r@ == ranges_spec(
            year as int + 1,
            chunk_size as int,
            last_year_to_be_included as int,
        ));
    }
    r
}

} // verus!
