//! Building the immutable dataset out of fetched records, and looking
//! records up in it.
//!
//! The builder walks the fetched records in order, drops every record whose
//! identifier is not well-shaped, and keeps the first record for each numeric
//! key, inserting it at its sorted position. The result is strictly
//! ascending by key, so year-range chunks that overlap can never put a key in
//! twice. The dataset is immutable once built; lookups only read it.

use vstd::prelude::*;

use crate::ids::id_key;
use crate::ids::person_id_key;
use crate::ids::valid_person_id;
use crate::records::PersonData;
use crate::records::PersonView;

verus! {

/// The numeric key of a record: the value of its identifier's digits.
pub open spec fn rec_key(p: PersonView) -> nat {
    id_key(p.external_id)
}

/// Whether a record's identifier is well-shaped.
pub open spec fn rec_valid(p: PersonView) -> bool {
    valid_person_id(p.external_id)
}

/// The views of a sequence of records.
pub open spec fn views_of(s: Seq<PersonData>) -> Seq<PersonView> {
    s.map_values(|p: PersonData| p@)
}

/// Whether `s` is strictly ascending by numeric key.
pub open spec fn sorted_by_key(s: Seq<PersonView>) -> bool {
    forall|i: int, j: int| 0 <= i < j < s.len() ==> rec_key(#[trigger] s[i]) < rec_key(#[trigger] s[j])
}

/// Whether every record of `s` has a well-shaped identifier.
pub open spec fn all_valid(s: Seq<PersonView>) -> bool {
    forall|i: int| 0 <= i < s.len() ==> rec_valid(#[trigger] s[i])
}

/// Whether some record of `s` has the numeric key `k`.
pub open spec fn has_key(s: Seq<PersonView>, k: nat) -> bool {
    exists|i: int| 0 <= i < s.len() && rec_key(#[trigger] s[i]) == k
}

/// `p` put into the sorted sequence `s` at its key's position.
pub open spec fn insert_sorted(s: Seq<PersonView>, p: PersonView) -> Seq<PersonView>
    decreases s.len(),
{
    if s.len() == 0 {
        seq![p]
    } else if rec_key(p) < rec_key(s[0]) {
        seq![p] + s
    } else {
        seq![s[0]] + insert_sorted(s.drop_first(), p)
    }
}

/// What the builder produces for the fetched records `rs`: walking `rs` in
/// order, a record with a well-shaped identifier and a key not seen before
/// goes in at its sorted position; every other record is dropped.
pub open spec fn build_spec(rs: Seq<PersonView>) -> Seq<PersonView>
    decreases rs.len(),
{
    if rs.len() == 0 {
        Seq::empty()
    } else {
        let prev = build_spec(rs.drop_last());
        let p = rs.last();
        if rec_valid(p) && !has_key(prev, rec_key(p)) {
            insert_sorted(prev, p)
        } else {
            prev
        }
    }
}

/// The new record is among what `insert_sorted` gives back.
proof fn lemma_insert_sorted_contains_new(s: Seq<PersonView>, p: PersonView)
    ensures
        insert_sorted(s, p).contains(p),
    decreases s.len(),
{
    let r = insert_sorted(s, p);
    if s.len() == 0 {
        assert(r[0] == p);
    } else if rec_key(p) < rec_key(s[0]) {
        assert(r[0] == p);
    } else {
        let t = s.drop_first();
        lemma_insert_sorted_contains_new(t, p);
        let rt = insert_sorted(t, p);
        let m = choose|m: int| 0 <= m < rt.len() && rt[m] == p;
        assert(r[m + 1] == p);
    }
}

/// Dropping the first element keeps a sequence sorted.
proof fn lemma_sorted_drop_first(s: Seq<PersonView>)
    requires
        sorted_by_key(s),
        s.len() > 0,
    ensures
        sorted_by_key(s.drop_first()),
{
    assert(forall|i: int| 0 <= i < s.len() - 1 ==> s.drop_first()[i] == #[trigger] s[i + 1]);
}

/// What `insert_sorted` does to a sorted sequence without the new key: one
/// element longer, still sorted, holding exactly the old records and the new
/// one, with exactly the old keys and the new one.
proof fn lemma_insert_sorted_props(s: Seq<PersonView>, p: PersonView)
    requires
        sorted_by_key(s),
        !has_key(s, rec_key(p)),
    ensures
        insert_sorted(s, p).len() == s.len() + 1,
        sorted_by_key(insert_sorted(s, p)),
        forall|q: PersonView| insert_sorted(s, p).contains(q) <==> s.contains(q) || q == p,
        forall|k: nat| has_key(insert_sorted(s, p), k) <==> has_key(s, k) || k == rec_key(p),
    decreases s.len(),
{
    let r = insert_sorted(s, p);
    let k0 = rec_key(p);
    if s.len() == 0 {
        assert(r =~= seq![p]);
        assert(r[0] == p);
        assert forall|q: PersonView| #[trigger] r.contains(q) implies s.contains(q) || q == p by {
            let j = choose|j: int| 0 <= j < r.len() && r[j] == q;
            assert(j == 0);
        }
        assert(r.contains(p)) by {
            assert(r[0] == p);
        }
        assert forall|k: nat| #[trigger] has_key(r, k) implies has_key(s, k) || k == k0 by {
            let j = choose|j: int| 0 <= j < r.len() && rec_key(r[j]) == k;
            assert(j == 0);
        }
        assert(has_key(r, k0)) by {
            assert(rec_key(r[0]) == k0);
        }
    } else if k0 < rec_key(s[0]) {
        assert(r == seq![p] + s);
        assert(r[0] == p);
        assert(forall|i: int| 0 <= i < s.len() ==> r[i + 1] == #[trigger] s[i]);
        assert forall|i: int, j: int|
            0 <= i < j < r.len() implies rec_key(#[trigger] r[i]) < rec_key(
            #[trigger] r[j],
        ) by {
            assert(rec_key(r[j]) == rec_key(s[j - 1]));
            if i == 0 {
                if j > 1 {
                    assert(rec_key(s[0]) < rec_key(s[j - 1]));
                }
            } else {
                assert(rec_key(r[i]) == rec_key(s[i - 1]));
            }
        }
        assert forall|q: PersonView| #[trigger] r.contains(q) implies s.contains(q) || q == p by {
            let j = choose|j: int| 0 <= j < r.len() && r[j] == q;
            if j > 0 {
                assert(s[j - 1] == q);
            }
        }
        assert forall|q: PersonView| #[trigger] s.contains(q) implies r.contains(q) by {
            let j = choose|j: int| 0 <= j < s.len() && s[j] == q;
            assert(r[j + 1] == q);
        }
        assert(r.contains(p)) by {
            assert(r[0] == p);
        }
        assert forall|k: nat| #[trigger] has_key(r, k) implies has_key(s, k) || k == k0 by {
            let j = choose|j: int| 0 <= j < r.len() && rec_key(r[j]) == k;
            if j > 0 {
                assert(rec_key(s[j - 1]) == k);
            }
        }
        assert forall|k: nat| #[trigger] has_key(s, k) implies has_key(r, k) by {
            let j = choose|j: int| 0 <= j < s.len() && rec_key(s[j]) == k;
            assert(rec_key(r[j + 1]) == k);
        }
        assert(has_key(r, k0)) by {
            assert(rec_key(r[0]) == k0);
        }
    } else {
        let t = s.drop_first();
        assert(rec_key(s[0]) != k0) by {
            if rec_key(s[0]) == k0 {
                assert(has_key(s, k0));
            }
        }
        assert(rec_key(s[0]) < k0);
        lemma_sorted_drop_first(s);
        assert(forall|i: int| 0 <= i < t.len() ==> #[trigger] t[i] == s[i + 1]);
        assert(!has_key(t, k0)) by {
            if has_key(t, k0) {
                let j = choose|j: int| 0 <= j < t.len() && rec_key(t[j]) == k0;
                assert(rec_key(s[j + 1]) == k0);
                assert(has_key(s, k0));
            }
        }
        lemma_insert_sorted_props(t, p);
        let rt = insert_sorted(t, p);
        assert(r == seq![s[0]] + rt);
        assert(r[0] == s[0]);
        assert(forall|i: int| 0 <= i < rt.len() ==> r[i + 1] == #[trigger] rt[i]);
        // the head's key is below every key to its right
        assert forall|j: int| 0 < j < r.len() implies rec_key(r[0]) < rec_key(
            #[trigger] r[j],
        ) by {
            assert(r[j] == rt[j - 1]);
            assert(rt.contains(rt[j - 1])) by {
                assert(rt[j - 1] == rt[j - 1]);
            }
            assert(t.contains(rt[j - 1]) || rt[j - 1] == p);
            if t.contains(rt[j - 1]) {
                let m = choose|m: int| 0 <= m < t.len() && t[m] == rt[j - 1];
                assert(rec_key(s[0]) < rec_key(s[m + 1]));
            }
        }
        assert forall|i: int, j: int|
            0 <= i < j < r.len() implies rec_key(#[trigger] r[i]) < rec_key(
            #[trigger] r[j],
        ) by {
            if i > 0 {
                assert(rec_key(r[i]) == rec_key(rt[i - 1]));
                assert(rec_key(r[j]) == rec_key(rt[j - 1]));
            }
        }
        assert forall|q: PersonView| #[trigger] r.contains(q) implies s.contains(q) || q == p by {
            let j = choose|j: int| 0 <= j < r.len() && r[j] == q;
            if j == 0 {
                assert(s[0] == q);
                assert(s.contains(q));
            } else {
                assert(rt[j - 1] == q);
                assert(rt.contains(q));
                if t.contains(q) {
                    let m = choose|m: int| 0 <= m < t.len() && t[m] == q;
                    assert(s[m + 1] == q);
                    assert(s.contains(q));
                }
            }
        }
        assert forall|q: PersonView| #[trigger] s.contains(q) implies r.contains(q) by {
            let j = choose|j: int| 0 <= j < s.len() && s[j] == q;
            if j == 0 {
                assert(r[0] == q);
            } else {
                assert(t[j - 1] == q);
                assert(t.contains(q));
                assert(rt.contains(q));
                let m = choose|m: int| 0 <= m < rt.len() && rt[m] == q;
                assert(r[m + 1] == q);
            }
        }
        assert(r.contains(p)) by {
            lemma_insert_sorted_contains_new(t, p);
            let m = choose|m: int| 0 <= m < rt.len() && rt[m] == p;
            assert(r[m + 1] == p);
        }
        assert forall|k: nat| #[trigger] has_key(r, k) implies has_key(s, k) || k == k0 by {
            let j = choose|j: int| 0 <= j < r.len() && rec_key(r[j]) == k;
            if j == 0 {
                assert(rec_key(s[0]) == k);
                assert(has_key(s, k));
            } else {
                assert(rec_key(rt[j - 1]) == k);
                assert(has_key(rt, k));
                if has_key(t, k) {
                    let m = choose|m: int| 0 <= m < t.len() && rec_key(t[m]) == k;
                    assert(rec_key(s[m + 1]) == k);
                    assert(has_key(s, k));
                }
            }
        }
        assert forall|k: nat| #[trigger] has_key(s, k) implies has_key(r, k) by {
            let j = choose|j: int| 0 <= j < s.len() && rec_key(s[j]) == k;
            if j == 0 {
                assert(rec_key(r[0]) == k);
            } else {
                assert(rec_key(t[j - 1]) == k);
                assert(has_key(t, k));
                assert(has_key(rt, k));
                let m = choose|m: int| 0 <= m < rt.len() && rec_key(rt[m]) == k;
                assert(rec_key(r[m + 1]) == k);
            }
        }
        assert(has_key(r, k0)) by {
            assert(has_key(rt, k0));
            let m = choose|m: int| 0 <= m < rt.len() && rec_key(rt[m]) == k0;
            assert(rec_key(r[m + 1]) == k0);
        }
    }
}

/// What the builder's output is made of, for any input: it is strictly
/// ascending by key; it holds only records of the input with a well-shaped
/// identifier; and it has a key exactly when the input has a well-shaped
/// record with that key.
proof fn lemma_build_spec_props(rs: Seq<PersonView>)
    ensures
        sorted_by_key(build_spec(rs)),
        forall|q: PersonView| #[trigger] build_spec(rs).contains(q) ==> rec_valid(q) && rs.contains(q),
        forall|k: nat|
            has_key(build_spec(rs), k) <==> exists|i: int|
                0 <= i < rs.len() && rec_valid(#[trigger] rs[i]) && rec_key(rs[i]) == k,
    decreases rs.len(),
{
    if rs.len() > 0 {
        let init = rs.drop_last();
        let p = rs.last();
        let prev = build_spec(init);
        let r = build_spec(rs);
        lemma_build_spec_props(init);
        assert(forall|i: int| 0 <= i < init.len() ==> #[trigger] init[i] == rs[i]);
        assert forall|q: PersonView| #[trigger] init.contains(q) implies rs.contains(q) by {
            let j = choose|j: int| 0 <= j < init.len() && init[j] == q;
            assert(rs[j] == q);
        }
        if rec_valid(p) && !has_key(prev, rec_key(p)) {
            lemma_insert_sorted_props(prev, p);
            assert(rs.contains(p)) by {
                assert(rs[rs.len() - 1] == p);
            }
            assert forall|q: PersonView| #[trigger] r.contains(q) implies rec_valid(q)
                && rs.contains(q) by {
                assert(prev.contains(q) || q == p);
            }
            assert forall|k: nat| #[trigger] has_key(r, k) implies exists|i: int|
                0 <= i < rs.len() && rec_valid(#[trigger] rs[i]) && rec_key(rs[i]) == k by {
                if has_key(prev, k) {
                    let j = choose|j: int|
                        0 <= j < init.len() && rec_valid(#[trigger] init[j]) && rec_key(init[j])
                            == k;
                    assert(rec_valid(rs[j]) && rec_key(rs[j]) == k);
                } else {
                    assert(k == rec_key(p));
                    assert(rec_valid(rs[rs.len() - 1]) && rec_key(rs[rs.len() - 1]) == k);
                }
            }
            assert forall|k: nat, i: int|
                0 <= i < rs.len() && rec_valid(#[trigger] rs[i]) && rec_key(rs[i])
                    == k implies #[trigger] has_key(r, k) by {
                if i < rs.len() - 1 {
                    assert(rec_valid(init[i]) && rec_key(init[i]) == k);
                    assert(has_key(prev, k));
                } else {
                    assert(rs[i] == p);
                }
            }
        } else {
            assert(r == prev);
            assert forall|q: PersonView| #[trigger] r.contains(q) implies rec_valid(q)
                && rs.contains(q) by {
                assert(prev.contains(q));
                assert(init.contains(q));
            }
            assert forall|k: nat| #[trigger] has_key(r, k) implies exists|i: int|
                0 <= i < rs.len() && rec_valid(#[trigger] rs[i]) && rec_key(rs[i]) == k by {
                let j = choose|j: int|
                    0 <= j < init.len() && rec_valid(#[trigger] init[j]) && rec_key(init[j]) == k;
                assert(rec_valid(rs[j]) && rec_key(rs[j]) == k);
            }
            assert forall|k: nat, i: int|
                0 <= i < rs.len() && rec_valid(#[trigger] rs[i]) && rec_key(rs[i])
                    == k implies #[trigger] has_key(r, k) by {
                if i < rs.len() - 1 {
                    assert(rec_valid(init[i]) && rec_key(init[i]) == k);
                    assert(has_key(prev, k));
                } else {
                    assert(rs[i] == p);
                    assert(rec_valid(p));
                    assert(has_key(prev, rec_key(p)));
                }
            }
        }
    }
}

/// Law: the built dataset is strictly ascending by the numeric suffix of the
/// external identifier, for every input.
pub proof fn lemma_built_dataset_sorted(rs: Seq<PersonView>)
    ensures
        sorted_by_key(build_spec(rs)),
{
    lemma_build_spec_props(rs);
}

/// Law: a record whose identifier is not well-shaped never appears in the
/// built dataset, and every record of the dataset comes from the input.
pub proof fn lemma_built_dataset_only_valid(rs: Seq<PersonView>)
    ensures
        forall|q: PersonView| #[trigger] build_spec(rs).contains(q) ==> rec_valid(q) && rs.contains(q),
{
    lemma_build_spec_props(rs);
}

/// Law: the built dataset has a key exactly when the input has a record with
/// a well-shaped identifier carrying that key.
pub proof fn lemma_built_dataset_keys(rs: Seq<PersonView>)
    ensures
        forall|k: nat|
            has_key(build_spec(rs), k) <==> exists|i: int|
                0 <= i < rs.len() && rec_valid(#[trigger] rs[i]) && rec_key(rs[i]) == k,
{
    lemma_build_spec_props(rs);
}

/// Law: however many input records share the numeric key `k` — as records
/// fetched in overlapping year-range chunks do — the built dataset holds
/// exactly one record with that key, provided one well-shaped input record
/// carries it.
pub proof fn lemma_built_dataset_dedup(rs: Seq<PersonView>, k: nat)
    requires
        exists|i: int| 0 <= i < rs.len() && rec_valid(#[trigger] rs[i]) && rec_key(rs[i]) == k,
    ensures
        exists|i: int| 0 <= i < build_spec(rs).len() && rec_key(#[trigger] build_spec(rs)[i]) == k,
        forall|i: int, j: int|
            (0 <= i < build_spec(rs).len() && 0 <= j < build_spec(rs).len() && rec_key(
                #[trigger] build_spec(rs)[i],
            ) == k && rec_key(#[trigger] build_spec(rs)[j]) == k) ==> i == j,
{
    lemma_build_spec_props(rs);
    assert(has_key(build_spec(rs), k));
}

/// The immutable dataset: the records kept by the builder, strictly
/// ascending by numeric key. Built once; never mutated afterwards.
pub struct Dataset {
    records: Vec<PersonData>,
}

impl View for Dataset {
    type V = Seq<PersonView>;

    closed spec fn view(&self) -> Seq<PersonView> {
        views_of(self.records@)
    }
}

impl Dataset {
    /// The dataset's well-formedness: strictly ascending well-shaped keys.
    #[verifier::type_invariant]
    pub closed spec fn inv(self) -> bool {
        sorted_by_key(self@) && all_valid(self@)
    }

    /// How many records the dataset holds.
    pub fn len(&self) -> (n: usize)
        ensures
            n == self@.len(),
    {
        self.records.len()
    }

    /// The record at position `i`; positions are ascending by key.
    pub fn get(&self, i: usize) -> (r: &PersonData)
        requires
            i < self@.len(),
        ensures
            r@ == self@[i as int],
    {
        &self.records[i]
    }
}

/// The numeric key of a record already checked to be well-shaped.
fn record_key(p: &PersonData) -> (k: u64)
    requires
        valid_person_id(p@.external_id),
    ensures
        k == rec_key(p@),
{
    match person_id_key(p.external_id.as_str()) {
        Option::Some(k) => k,
        Option::None => {
            assert(false);
            0
        },
    }
}

/// Where a record with key `k` belongs in `records`: the position of the
/// first stored key at or above `k`.
fn scan_position(records: &Vec<PersonData>, k: u64) -> (pos: usize)
    requires
        sorted_by_key(views_of(records@)),
        all_valid(views_of(records@)),
    ensures
        pos <= records@.len(),
        forall|i: int| 0 <= i < pos ==> rec_key(#[trigger] views_of(records@)[i]) < k,
        pos < records@.len() ==> rec_key(views_of(records@)[pos as int]) >= k,
{
    let n = records.len();
    let mut pos: usize = 0;
    while pos < n
        invariant_except_break
            n == records@.len(),
            sorted_by_key(views_of(records@)),
            all_valid(views_of(records@)),
            pos <= n,
            forall|i: int| 0 <= i < pos ==> rec_key(#[trigger] views_of(records@)[i]) < k,
        ensures
            pos <= n,
            forall|i: int| 0 <= i < pos ==> rec_key(#[trigger] views_of(records@)[i]) < k,
            pos < n ==> rec_key(views_of(records@)[pos as int]) >= k,
        decreases n - pos,
    {
        proof {
            assert(views_of(records@)[pos as int] == records@[pos as int]@);
            assert(rec_valid(views_of(records@)[pos as int]));
        }
        let kk = record_key(&records[pos]);
        if kk >= k {
            break ;
        }
        pos = pos + 1;
    }
    pos
}

/// Builds the dataset out of the fetched records: drops every record whose
/// identifier is not well-shaped, keeps the first record per numeric key,
/// and orders the rest strictly ascending by key.
#[verifier::loop_isolation(false)]
pub fn build_dataset(records: Vec<PersonData>) -> (d: Dataset)
    ensures
        d@ == build_spec(views_of(records@)),
{
    let n = records.len();
    let mut kept: Vec<PersonData> = Vec::new();
    let mut idx: usize = 0;
    while idx < n
        invariant
            idx <= n,
            views_of(kept@) == build_spec(views_of(records@.take(idx as int))),
            sorted_by_key(views_of(kept@)),
            all_valid(views_of(kept@)),
        decreases n - idx,
    {
        let ghost prefix = views_of(records@.take(idx as int));
        let ghost next = views_of(records@.take(idx + 1));
        let ghost cur = views_of(kept@);
        proof {
            assert(next.drop_last() =~= prefix);
            assert(next.last() == records@[idx as int]@);
            assert(cur == build_spec(prefix));
        }
        let p = &records[idx];
        match person_id_key(p.external_id.as_str()) {
            Option::None => {
                proof {
                    assert(!rec_valid(next.last()));
                    assert(build_spec(next) == build_spec(prefix));
                }
            },
            Option::Some(k) => {
                proof {
                    assert(rec_valid(next.last()));
                    assert(rec_key(next.last()) == k as nat);
                }
                let pos = scan_position(&kept, k);
                let dup: bool;
                if pos < kept.len() {
                    proof {
                        assert(views_of(kept@)[pos as int] == kept@[pos as int]@);
                        assert(rec_valid(views_of(kept@)[pos as int]));
                    }
                    dup = record_key(&kept[pos]) == k;
                } else {
                    dup = false;
                }
                if dup {
                    proof {
                        assert(rec_key(cur[pos as int]) == k as nat);
                        assert(has_key(cur, k as nat));
                        assert(build_spec(next) == build_spec(prefix));
                    }
                } else {
                    proof {
                        assert(!has_key(cur, k as nat)) by {
                            if has_key(cur, k as nat) {
                                let j = choose|j: int|
                                    0 <= j < cur.len() && rec_key(#[trigger] cur[j]) == k as nat;
                                assert(j >= pos);
                                assert(pos < cur.len());
                                assert(rec_key(cur[pos as int]) != k as nat);
                                assert(j > pos);
                                assert(rec_key(cur[pos as int]) < rec_key(cur[j]));
                                assert(rec_key(cur[pos as int]) >= k as nat);
                            }
                        }
                        assert(build_spec(next) == insert_sorted(cur, next.last()));
                        lemma_insert_sorted_props(cur, next.last());
                        lemma_insert_sorted_split(cur, next.last(), pos as int);
                    }
                    kept.insert(pos, p.duplicate());
                    proof {
                        assert(views_of(kept@) =~= cur.take(pos as int) + seq![next.last()]
                            + cur.skip(pos as int));
                        assert(views_of(kept@) == build_spec(next));
                        assert(all_valid(views_of(kept@))) by {
                            assert forall|i: int|
                                0 <= i < views_of(kept@).len() implies rec_valid(
                                #[trigger] views_of(kept@)[i],
                            ) by {
                                if i < pos {
                                    assert(views_of(kept@)[i] == cur[i]);
                                } else if i == pos {
                                    assert(views_of(kept@)[i] == next.last());
                                } else {
                                    assert(views_of(kept@)[i] == cur[i - 1]);
                                }
                            }
                        }
                    }
                }
            },
        }
        idx = idx + 1;
    }
    proof {
        assert(records@.take(n as int) =~= records@);
    }
    Dataset { records: kept }
}

/// `insert_sorted` is the split of the sequence at the new key's position.
proof fn lemma_insert_sorted_split(s: Seq<PersonView>, p: PersonView, pos: int)
    requires
        sorted_by_key(s),
        0 <= pos <= s.len(),
        forall|i: int| 0 <= i < pos ==> rec_key(#[trigger] s[i]) < rec_key(p),
        pos < s.len() ==> rec_key(s[pos]) > rec_key(p),
    ensures
        insert_sorted(s, p) == s.take(pos) + seq![p] + s.skip(pos),
    decreases s.len(),
{
    if s.len() == 0 {
        assert(insert_sorted(s, p) =~= s.take(pos) + seq![p] + s.skip(pos));
    } else if rec_key(p) < rec_key(s[0]) {
        assert(pos == 0);
        assert(insert_sorted(s, p) =~= s.take(pos) + seq![p] + s.skip(pos));
    } else {
        assert(pos > 0) by {
            if pos == 0 {
                assert(rec_key(s[0]) > rec_key(p));
            }
        }
        let t = s.drop_first();
        lemma_sorted_drop_first(s);
        assert(forall|i: int| 0 <= i < t.len() ==> #[trigger] t[i] == s[i + 1]);
        lemma_insert_sorted_split(t, p, pos - 1);
        assert(insert_sorted(s, p) == seq![s[0]] + insert_sorted(t, p));
        assert(seq![s[0]] + (t.take(pos - 1) + seq![p] + t.skip(pos - 1)) =~= s.take(pos)
            + seq![p] + s.skip(pos));
    }
}

impl Dataset {
    /// Looks an external identifier up: the stored record carrying exactly
    /// that identifier, or nothing when no record carries it.
    pub fn lookup(&self, external_id: &str) -> (r: Option<&PersonData>)
        ensures
            match r {
                Option::Some(p) => self@.contains(p@) && p@.external_id == external_id@,
                Option::None => forall|i: int|
                    0 <= i < self@.len() ==> (#[trigger] self@[i]).external_id != external_id@,
            },
    {
        proof {
            use_type_invariant(self);
        }
        match person_id_key(external_id) {
            Option::None => {
                proof {
                    assert(forall|i: int|
                        0 <= i < self@.len() ==> (#[trigger] self@[i]).external_id
                            != external_id@) by {
                        assert(forall|i: int|
                            0 <= i < self@.len() ==> valid_person_id(
                                (#[trigger] self@[i]).external_id,
                            ));
                    }
                }
                Option::None
            },
            Option::Some(k) => {
                let pos = scan_position(&self.records, k);
                let hit: bool;
                if pos < self.records.len() {
                    proof {
                        assert(self@[pos as int] == self.records@[pos as int]@);
                        assert(rec_valid(self@[pos as int]));
                    }
                    hit = record_key(&self.records[pos]) == k;
                } else {
                    hit = false;
                }
                if hit {
                    let candidate = &self.records[pos];
                    let query: String = external_id.to_owned();
                    if candidate.external_id == query {
                        assert(self@.contains(candidate@)) by {
                            assert(self@[pos as int] == candidate@);
                        }
                        Option::Some(candidate)
                    } else {
                        proof {
                            lemma_lookup_miss(self@, external_id@, k as nat, pos as int);
                        }
                        Option::None
                    }
                } else {
                    proof {
                        assert(!has_key(self@, k as nat)) by {
                            if has_key(self@, k as nat) {
                                let j = choose|j: int|
                                    0 <= j < self@.len() && rec_key(#[trigger] self@[j])
                                        == k as nat;
                                assert(j >= pos);
                                assert(pos < self@.len());
                                assert(rec_key(self@[pos as int]) != k as nat);
                                assert(rec_key(self@[pos as int]) >= k as nat);
                                assert(j > pos);
                                assert(rec_key(self@[pos as int]) < rec_key(self@[j]));
                            }
                        }
                        lemma_no_key_no_id(self@, external_id@, k as nat);
                    }
                    Option::None
                }
            },
        }
    }
}

/// In a sorted dataset, a stored identifier equal to the query would have the
/// query's key, and so would sit exactly at the scan position; if the record
/// there carries another identifier, no record carries the query.
proof fn lemma_lookup_miss(s: Seq<PersonView>, id: Seq<char>, k: nat, pos: int)
    requires
        sorted_by_key(s),
        all_valid(s),
        valid_person_id(id),
        id_key(id) == k,
        0 <= pos < s.len(),
        rec_key(s[pos]) == k,
        s[pos].external_id != id,
    ensures
        forall|i: int| 0 <= i < s.len() ==> (#[trigger] s[i]).external_id != id,
{
    assert forall|i: int| 0 <= i < s.len() implies (#[trigger] s[i]).external_id != id by {
        if s[i].external_id == id {
            assert(rec_key(s[i]) == k);
            if i < pos {
                assert(rec_key(s[i]) < rec_key(s[pos]));
            } else if i > pos {
                assert(rec_key(s[pos]) < rec_key(s[i]));
            }
        }
    }
}

/// A dataset without the query's key holds no record with the query's
/// identifier.
proof fn lemma_no_key_no_id(s: Seq<PersonView>, id: Seq<char>, k: nat)
    requires
        valid_person_id(id),
        id_key(id) == k,
        !has_key(s, k),
    ensures
        forall|i: int| 0 <= i < s.len() ==> (#[trigger] s[i]).external_id != id,
{
    assert forall|i: int| 0 <= i < s.len() implies (#[trigger] s[i]).external_id != id by {
        if s[i].external_id == id {
            assert(rec_key(s[i]) == k);
        }
    }
}

} // verus!
