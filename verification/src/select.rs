use vstd::prelude::*;

use crate::errors::LookupError;
use crate::order::lemma_str_le_trans;
use crate::order::lemma_str_lt_asym;
use crate::order::lemma_str_lt_total;
use crate::order::str_le;
use crate::order::str_le_exec;
use crate::order::str_lt;
use crate::record::CatalogRecord;

verus! {

/// The element at `i` is the one the selection step picks: its publish
/// date is lexicographically greatest, and it is the last element bearing
/// that date. This is exactly the element a stable ascending sort by
/// publish date would leave at the end.
pub open spec fn is_latest(s: Seq<CatalogRecord>, i: int) -> bool {
    &&& 0 <= i < s.len()
    &&& forall|k: int|
        0 <= k < s.len() ==> str_le(#[trigger] s[k].publish_date@, s[i].publish_date@)
    &&& forall|k: int| i < k < s.len() ==> str_lt(#[trigger] s[k].publish_date@, s[i].publish_date@)
}

/// Pick the most recently dated record: the one a stable ascending sort by
/// the `publish_date` string would place last. An empty set of candidates
/// is a `NotFoundError`, never an empty result.
pub fn select_latest(records: &Vec<CatalogRecord>) -> (r: Result<CatalogRecord, LookupError>)
    ensures
        r is Ok <==> records@.len() > 0,
        records@.len() == 0 ==> r == Err::<CatalogRecord, LookupError>(LookupError::NotFoundError),
        r matches Ok(rec) ==> exists|i: int| is_latest(records@, i) && rec == records@[i],
{
    if records.len() == 0 {
        return Err(LookupError::NotFoundError);
    }
    let mut best: usize = 0;
    let mut i: usize = 1;
    while i < records.len()
        invariant
            records@.len() > 0,
            best < i <= records@.len(),
            forall|k: int|
                0 <= k < i ==> str_le(
                    #[trigger] records@[k].publish_date@,
                    records@[best as int].publish_date@,
                ),
            forall|k: int|
                best < k < i ==> str_lt(
                    #[trigger] records@[k].publish_date@,
                    records@[best as int].publish_date@,
                ),
        decreases records@.len() - i,
    {
        if str_le_exec(records[best].publish_date.as_str(), records[i].publish_date.as_str()) {
            proof {
                assert forall|k: int|
                    0 <= k < i + 1 implies str_le(
                    #[trigger] records@[k].publish_date@,
                    records@[i as int].publish_date@,
                ) by {
                    if k < i {
                        lemma_str_le_trans(
                            records@[k].publish_date@,
                            records@[best as int].publish_date@,
                            records@[i as int].publish_date@,
                        );
                    }
                }
            }
            best = i;
        } else {
            proof {
                lemma_str_lt_total(
                    records@[best as int].publish_date@,
                    records@[i as int].publish_date@,
                );
            }
        }
        i = i + 1;
    }
    let chosen = records[best].clone();
    proof {
        assert(is_latest(records@, best as int));
    }
    Ok(chosen)
}

/// Only one position can hold the selected record.
pub proof fn lemma_latest_unique(s: Seq<CatalogRecord>, i: int, j: int)
    requires
        is_latest(s, i),
        is_latest(s, j),
    ensures
        i == j,
{
    if i < j {
        lemma_str_lt_asym(s[j].publish_date@, s[i].publish_date@);
    }
    if j < i {
        lemma_str_lt_asym(s[i].publish_date@, s[j].publish_date@);
    }
}

/// Law: selection is deterministic. Given two records with different
/// publish date strings, the one with the lexicographically greater date
/// is selected, whichever order the two are supplied in.
pub proof fn lemma_selection_deterministic(a: CatalogRecord, b: CatalogRecord, i: int, j: int)
    requires
        a.publish_date@ != b.publish_date@,
        is_latest(seq![a, b], i),
        is_latest(seq![b, a], j),
    ensures
        seq![a, b][i] == seq![b, a][j],
        str_lt(a.publish_date@, b.publish_date@) ==> seq![a, b][i] == b,
        str_lt(b.publish_date@, a.publish_date@) ==> seq![a, b][i] == a,
{
    lemma_str_lt_total(a.publish_date@, b.publish_date@);
    if str_lt(a.publish_date@, b.publish_date@) {
        lemma_str_lt_asym(a.publish_date@, b.publish_date@);
        if i == 0 {
            assert(str_le(seq![a, b][1].publish_date@, seq![a, b][0].publish_date@));
            assert(false);
        }
        if j == 1 {
            assert(str_le(seq![b, a][0].publish_date@, seq![b, a][1].publish_date@));
            assert(false);
        }
        assert(seq![a, b][i] == b);
        assert(seq![b, a][j] == b);
    } else {
        lemma_str_lt_asym(b.publish_date@, a.publish_date@);
        if i == 1 {
            assert(str_le(seq![a, b][0].publish_date@, seq![a, b][1].publish_date@));
            assert(false);
        }
        if j == 0 {
            assert(str_le(seq![b, a][1].publish_date@, seq![b, a][0].publish_date@));
            assert(false);
        }
        assert(seq![a, b][i] == a);
        assert(seq![b, a][j] == a);
    }
}

} // verus!
