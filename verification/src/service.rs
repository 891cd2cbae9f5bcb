//! The lookup service's decision per request: stateless, over the immutable
//! dataset. A non-GET request is refused, a missing or ill-prefixed
//! identifier parameter is a bad request, an unknown identifier is not found,
//! and a known one is answered with the JSON body of the record and its
//! classification.

use vstd::prelude::*;

use crate::dataset::Dataset;
use crate::jsonout::lookup_body;

verus! {

/// `405 Method Not Allowed`.
pub const STATUS_METHOD_NOT_ALLOWED: u16 = 405;

/// `400 Bad Request`.
pub const STATUS_BAD_REQUEST: u16 = 400;

/// `404 Not Found`.
pub const STATUS_NOT_FOUND: u16 = 404;

/// `200 OK`.
pub const STATUS_OK: u16 = 200;

/// What the service answers: a status code, whether the body is JSON (and a
/// content type should say so), and the body itself.
pub struct LookupResponse {
    pub status: u16,
    pub content_type_json: bool,
    pub body: String,
}

/// Whether the identifier starts with the dataset's two-letter prefix; the
/// service refuses anything else before looking it up.
pub open spec fn nm_prefixed(s: Seq<char>) -> bool {
    s.len() >= 2 && s[0] == 'n' && s[1] == 'm'
}

/// Whether the identifier starts with the dataset's two-letter prefix.
pub fn has_nm_prefix(s: &str) -> (r: bool)
    ensures
        r == nm_prefixed(s@),
{
    let n = s.unicode_len();
    if n < 2 {
        return false;
    }
    s.get_char(0) == 'n' && s.get_char(1) == 'm'
}

/// Answers one request. The method and the optional identifier parameter
/// come in as plain values; the response says exactly which of the four
/// outcomes the request falls under, and carries the record's JSON body only
/// on a hit.
pub fn handle_lookup(dataset: &Dataset, is_get: bool, imdb_id: Option<&str>) -> (r:
    LookupResponse)
    ensures
        !is_get ==> r.status == STATUS_METHOD_NOT_ALLOWED && r.body@.len() == 0
            && !r.content_type_json,
        is_get && imdb_id is None ==> r.status == STATUS_BAD_REQUEST && r.body@.len() == 0
            && !r.content_type_json,
        is_get && imdb_id is Some && !nm_prefixed((imdb_id->0)@) ==> r.status
            == STATUS_BAD_REQUEST && r.body@.len() == 0 && !r.content_type_json,
        is_get && imdb_id is Some && nm_prefixed((imdb_id->0)@) && (forall|i: int|
            0 <= i < dataset@.len() ==> (#[trigger] dataset@[i]).external_id != (imdb_id->0)@)
            ==> r.status == STATUS_NOT_FOUND && r.body@.len() == 0 && !r.content_type_json,
        is_get && imdb_id is Some && nm_prefixed((imdb_id->0)@) && (exists|i: int|
            0 <= i < dataset@.len() && (#[trigger] dataset@[i]).external_id == (imdb_id->0)@)
            ==> r.status == STATUS_OK && r.content_type_json && exists|i: int|
            0 <= i < dataset@.len() && (#[trigger] dataset@[i]).external_id == (imdb_id->0)@
                && r.body@ == lookup_body(dataset@[i]),
{
    if !is_get {
        return LookupResponse {
            status: STATUS_METHOD_NOT_ALLOWED,
            content_type_json: false,
            body: String::new(),
        };
    }
    match imdb_id {
        Option::None => LookupResponse {
            status: STATUS_BAD_REQUEST,
            content_type_json: false,
            body: String::new(),
        },
        Option::Some(q) => {
            if !has_nm_prefix(q) {
                return LookupResponse {
                    status: STATUS_BAD_REQUEST,
                    content_type_json: false,
                    body: String::new(),
                };
            }
            match dataset.lookup(q) {
                Option::Some(person) => {
                    let body = crate::jsonout::lookup_body_string(person);
                    proof {
                        let j = choose|j: int|
                            0 <= j < dataset@.len() && dataset@[j] == person@;
                        assert(dataset@[j].external_id == q@ && body@ == lookup_body(
                            dataset@[j],
                        ));
                    }
                    LookupResponse { status: STATUS_OK, content_type_json: true, body }
                },
                Option::None => LookupResponse {
                    status: STATUS_NOT_FOUND,
                    content_type_json: false,
                    body: String::new(),
                },
            }
        },
    }
}

} // verus!
