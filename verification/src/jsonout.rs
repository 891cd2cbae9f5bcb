//! The JSON wire form of a looked-up record: the person's fields and the
//! classification, as one object. The text is built and specified here
//! character by character; string values are escaped as JSON asks.

use vstd::prelude::*;

use crate::classify::classify_spec;
use crate::classify::determine_nepo_babiness;
use crate::classify::NepoBabiness;
use crate::classify::NepoView;
use crate::records::PersonData;
use crate::records::PersonView;

verus! {

/// The hexadecimal digit for a value below sixteen.
pub open spec fn hex_digit(n: nat) -> char {
    if n == 0 {
        '0'
    } else if n == 1 {
        '1'
    } else if n == 2 {
        '2'
    } else if n == 3 {
        '3'
    } else if n == 4 {
        '4'
    } else if n == 5 {
        '5'
    } else if n == 6 {
        '6'
    } else if n == 7 {
        '7'
    } else if n == 8 {
        '8'
    } else if n == 9 {
        '9'
    } else if n == 10 {
        'a'
    } else if n == 11 {
        'b'
    } else if n == 12 {
        'c'
    } else if n == 13 {
        'd'
    } else if n == 14 {
        'e'
    } else {
        'f'
    }
}

/// What one character becomes inside a JSON string literal: quotes and
/// backslashes are escaped, control characters take their named escape or the
/// six-character unicode escape, everything else stands as it is.
pub open spec fn escaped_char(c: char) -> Seq<char> {
    if c == '"' {
        seq!['\\', '"']
    } else if c == '\\' {
        seq!['\\', '\\']
    } else if c == '\n' {
        seq!['\\', 'n']
    } else if c == '\r' {
        seq!['\\', 'r']
    } else if c == '\t' {
        seq!['\\', 't']
    } else if (c as u32) < 32 {
        seq!['\\', 'u', '0', '0', hex_digit((c as u32 / 16) as nat), hex_digit((c as u32 % 16) as nat)]
    } else {
        seq![c]
    }
}

/// A whole string escaped, character by character.
pub open spec fn escaped(s: Seq<char>) -> Seq<char>
    decreases s.len(),
{
    if s.len() == 0 {
        Seq::empty()
    } else {
        escaped(s.drop_last()) + escaped_char(s.last())
    }
}

/// A JSON string literal: the escaped text between double quotes.
pub open spec fn json_string(s: Seq<char>) -> Seq<char> {
    seq!['"'] + escaped(s) + seq!['"']
}

/// An optional string: a JSON string literal, or `null` when absent.
pub open spec fn json_opt_string(o: Option<Seq<char>>) -> Seq<char> {
    match o {
        Option::Some(s) => json_string(s),
        Option::None => "null"@,
    }
}

/// The JSON object for one person record, fields in declared order.
pub open spec fn person_json(p: PersonView) -> Seq<char> {
    "{\"external_id\":"@ + json_string(p.external_id) + ",\"name\":"@ + json_string(p.name)
        + ",\"wiki_link\":"@ + json_opt_string(p.wiki_link) + ",\"father_name\":"@
        + json_opt_string(p.father_name) + ",\"father_external_id\":"@ + json_opt_string(
        p.father_external_id,
    ) + ",\"father_wiki_link\":"@ + json_opt_string(p.father_wiki_link) + ",\"mother_name\":"@
        + json_opt_string(p.mother_name) + ",\"mother_external_id\":"@ + json_opt_string(
        p.mother_external_id,
    ) + ",\"mother_wiki_link\":"@ + json_opt_string(p.mother_wiki_link) + "}"@
}

/// The JSON form of a classification: a bare tag string for the no-link
/// case, a tagged object carrying the link or links otherwise.
pub open spec fn nepo_json(c: NepoView) -> Seq<char> {
    match c {
        NepoView::No => "\"No\""@,
        NepoView::OnlyMother { wiki_link } => "{\"OnlyMother\":{\"wiki_link\":"@ + json_string(
            wiki_link,
        ) + "}}"@,
        NepoView::OnlyFather { wiki_link } => "{\"OnlyFather\":{\"wiki_link\":"@ + json_string(
            wiki_link,
        ) + "}}"@,
        NepoView::Yes { father_wiki_link, mother_wiki_link } => {
            "{\"Yes\":{\"father_wiki_link\":"@ + json_string(father_wiki_link)
                + ",\"mother_wiki_link\":"@ + json_string(mother_wiki_link) + "}}"@
        },
    }
}

/// The body of a successful lookup: the person and their classification.
pub open spec fn lookup_body(p: PersonView) -> Seq<char> {
    "{\"person\":"@ + person_json(p) + ",\"is_nepo_baby\":"@ + nepo_json(
        classify_spec(p.father_wiki_link, p.mother_wiki_link),
    ) + "}"@
}

/// Relies on String::push: it appends exactly the given character.
#[verifier::external_body]
fn push_char(out: &mut String, c: char)
    ensures
        final(out)@ == old(out)@ + seq![c],
{
    out.push(c)
}

/// The hexadecimal digit for a value below sixteen.
fn hex_digit_char(n: u32) -> (c: char)
    requires
        n < 16,
    ensures
        c == hex_digit(n as nat),
{
    if n == 0 {
        '0'
    } else if n == 1 {
        '1'
    } else if n == 2 {
        '2'
    } else if n == 3 {
        '3'
    } else if n == 4 {
        '4'
    } else if n == 5 {
        '5'
    } else if n == 6 {
        '6'
    } else if n == 7 {
        '7'
    } else if n == 8 {
        '8'
    } else if n == 9 {
        '9'
    } else if n == 10 {
        'a'
    } else if n == 11 {
        'b'
    } else if n == 12 {
        'c'
    } else if n == 13 {
        'd'
    } else if n == 14 {
        'e'
    } else {
        'f'
    }
}

/// Appends one character in its escaped form.
fn push_escaped_char(out: &mut String, c: char)
    ensures
        final(out)@ == old(out)@ + escaped_char(c),
{
    let u = c as u32;
    if c == '"' {
        out.append("\\\"");
        proof {
            reveal_strlit("\\\"");
            assert(out@ =~= old(out)@ + escaped_char(c));
        }
    } else if c == '\\' {
        out.append("\\\\");
        proof {
            reveal_strlit("\\\\");
            assert(out@ =~= old(out)@ + escaped_char(c));
        }
    } else if c == '\n' {
        out.append("\\n");
        proof {
            reveal_strlit("\\n");
            assert(out@ =~= old(out)@ + escaped_char(c));
        }
    } else if c == '\r' {
        out.append("\\r");
        proof {
            reveal_strlit("\\r");
            assert(out@ =~= old(out)@ + escaped_char(c));
        }
    } else if c == '\t' {
        out.append("\\t");
        proof {
            reveal_strlit("\\t");
            assert(out@ =~= old(out)@ + escaped_char(c));
        }
    } else if u < 32 {
        out.append("\\u00");
        push_char(out, hex_digit_char(u / 16));
        push_char(out, hex_digit_char(u % 16));
        proof {
            reveal_strlit("\\u00");
            assert(out@ =~= old(out)@ + escaped_char(c));
        }
    } else {
        push_char(out, c);
        proof {
            assert(out@ =~= old(out)@ + escaped_char(c));
        }
    }
}

/// Appends a whole string in its escaped form.
fn push_escaped(out: &mut String, s: &str)
    ensures
        final(out)@ == old(out)@ + escaped(s@),
{
    let n = s.unicode_len();
    let mut i: usize = 0;
    proof {
        assert(s@.subrange(0, 0) =~= Seq::<char>::empty());
        assert(out@ =~= out@ + escaped(s@.subrange(0, 0)));
    }
    while i < n
        invariant
            i <= n,
            n == s@.len(),
            out@ == old(out)@ + escaped(s@.subrange(0, i as int)),
        decreases n - i,
    {
        let c = s.get_char(i);
        push_escaped_char(out, c);
        proof {
            assert(s@.subrange(0, i + 1).drop_last() =~= s@.subrange(0, i as int));
            assert(s@.subrange(0, i + 1).last() == s@[i as int]);
            assert(out@ =~= old(out)@ + escaped(s@.subrange(0, i + 1)));
        }
        i = i + 1;
    }
    proof {
        assert(s@.subrange(0, n as int) =~= s@);
    }
}

/// Appends a JSON string literal: the escaped text between double quotes.
fn push_json_string(out: &mut String, s: &str)
    ensures
        final(out)@ == old(out)@ + json_string(s@),
{
    push_char(out, '"');
    push_escaped(out, s);
    push_char(out, '"');
    proof {
        assert(out@ =~= old(out)@ + json_string(s@));
    }
}

/// Appends an optional string: a JSON string literal, or `null`.
fn push_json_opt_string(out: &mut String, o: &Option<String>)
    ensures
        final(out)@ == old(out)@ + json_opt_string(crate::records::view_opt(*o)),
{
    match o {
        Option::Some(s) => {
            push_json_string(out, s.as_str());
        },
        Option::None => {
            out.append("null");
        },
    }
}

/// The JSON object for one person record, as text.
pub fn person_json_string(p: &PersonData) -> (r: String)
    ensures
        r@ == person_json(p@),
{
    let mut out = String::new();
    out.append("{\"external_id\":");
    push_json_string(&mut out, p.external_id.as_str());
    out.append(",\"name\":");
    push_json_string(&mut out, p.name.as_str());
    out.append(",\"wiki_link\":");
    push_json_opt_string(&mut out, &p.wiki_link);
    out.append(",\"father_name\":");
    push_json_opt_string(&mut out, &p.father_name);
    out.append(",\"father_external_id\":");
    push_json_opt_string(&mut out, &p.father_external_id);
    out.append(",\"father_wiki_link\":");
    push_json_opt_string(&mut out, &p.father_wiki_link);
    out.append(",\"mother_name\":");
    push_json_opt_string(&mut out, &p.mother_name);
    out.append(",\"mother_external_id\":");
    push_json_opt_string(&mut out, &p.mother_external_id);
    out.append(",\"mother_wiki_link\":");
    push_json_opt_string(&mut out, &p.mother_wiki_link);
    out.append("}");
    proof {
        assert(out@ =~= person_json(p@));
    }
    out
}

/// The JSON form of a classification, as text.
pub fn nepo_json_string(c: &NepoBabiness) -> (r: String)
    ensures
        r@ == nepo_json(c@),
{
    let mut out = String::new();
    match c {
        NepoBabiness::No => {
            out.append("\"No\"");
            proof {
                assert(out@ =~= nepo_json(c@));
            }
        },
        NepoBabiness::OnlyMother { wiki_link } => {
            out.append("{\"OnlyMother\":{\"wiki_link\":");
            push_json_string(&mut out, wiki_link.as_str());
            out.append("}}");
            proof {
                assert(out@ =~= nepo_json(c@));
            }
        },
        NepoBabiness::OnlyFather { wiki_link } => {
            out.append("{\"OnlyFather\":{\"wiki_link\":");
            push_json_string(&mut out, wiki_link.as_str());
            out.append("}}");
            proof {
                assert(out@ =~= nepo_json(c@));
            }
        },
        NepoBabiness::Yes { father_wiki_link, mother_wiki_link } => {
            out.append("{\"Yes\":{\"father_wiki_link\":");
            push_json_string(&mut out, father_wiki_link.as_str());
            out.append(",\"mother_wiki_link\":");
            push_json_string(&mut out, mother_wiki_link.as_str());
            out.append("}}");
            proof {
                assert(out@ =~= nepo_json(c@));
            }
        },
    }
    out
}

/// The body of a successful lookup: the person and their classification, as
/// one JSON object.
pub fn lookup_body_string(p: &PersonData) -> (r: String)
    ensures
        r@ == lookup_body(p@),
{
    let mut out = String::new();
    out.append("{\"person\":");
    let person_part = person_json_string(p);
    out.append(person_part.as_str());
    out.append(",\"is_nepo_baby\":");
    let classification = determine_nepo_babiness(p);
    let nepo_part = nepo_json_string(&classification);
    out.append(nepo_part.as_str());
    out.append("}");
    proof {
        assert(out@ =~= lookup_body(p@));
    }
    out
}

} // verus!
