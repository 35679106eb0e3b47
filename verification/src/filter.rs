use vstd::prelude::*;

use crate::order::str_eq_exec;
use crate::record::CatalogRecord;

verus! {

/// Whether an optional filter accepts a field value: an absent filter
/// accepts everything; a present one demands a byte-exact match. No case
/// folding or whitespace normalization is applied.
pub open spec fn opt_matches(field: Seq<char>, filter: Option<&str>) -> bool {
    match filter {
        Some(f) => field == f@,
        None => true,
    }
}

/// Whether a record survives the whole filter chain: the region must match
/// exactly, and each supplied optional criterion must match exactly.
pub open spec fn record_matches(
    r: CatalogRecord,
    region: &str,
    release_name: Option<&str>,
    release_number: Option<&str>,
    instance_type: Option<&str>,
    architecture: Option<&str>,
) -> bool {
    &&& r.region@ == region@
    &&& opt_matches(r.release_name@, release_name)
    &&& opt_matches(r.release_number@, release_number)
    &&& opt_matches(r.instance_type@, instance_type)
    &&& opt_matches(r.architecture@, architecture)
}

/// The filter chain as a predicate on records, for one fixed query.
pub open spec fn matches_pred(
    region: &str,
    release_name: Option<&str>,
    release_number: Option<&str>,
    instance_type: Option<&str>,
    architecture: Option<&str>,
) -> spec_fn(CatalogRecord) -> bool {
    |r: CatalogRecord|
        record_matches(r, region, release_name, release_number, instance_type, architecture)
}

fn opt_matches_exec(field: &String, filter: Option<&str>) -> (r: bool)
    ensures
        r == opt_matches(field@, filter),
{
    match filter {
        Some(f) => str_eq_exec(field.as_str(), f),
        None => true,
    }
}

/// Decide the filter chain for one record.
pub fn record_matches_exec(
    r: &CatalogRecord,
    region: &str,
    release_name: Option<&str>,
    release_number: Option<&str>,
    instance_type: Option<&str>,
    architecture: Option<&str>,
) -> (b: bool)
    ensures
        b == record_matches(*r, region, release_name, release_number, instance_type, architecture),
{
    str_eq_exec(r.region.as_str(), region) && opt_matches_exec(&r.release_name, release_name)
        && opt_matches_exec(&r.release_number, release_number) && opt_matches_exec(
        &r.instance_type,
        instance_type,
    ) && opt_matches_exec(&r.architecture, architecture)
}

/// Retain exactly the records that survive the filter chain, in their
/// input order.
pub fn filter_records(
    records: &Vec<CatalogRecord>,
    region: &str,
    release_name: Option<&str>,
    release_number: Option<&str>,
    instance_type: Option<&str>,
    architecture: Option<&str>,
) -> (out: Vec<CatalogRecord>)
    ensures
        out@ == records@.filter(
            matches_pred(region, release_name, release_number, instance_type, architecture),
        ),
{
    let mut out: Vec<CatalogRecord> = Vec::new();
    proof {
        reveal(Seq::filter);
        assert(records@.subrange(0, 0) =~= Seq::<CatalogRecord>::empty());
    }
    let mut i: usize = 0;
    while i < records.len()
        invariant
            i <= records@.len(),
            out@ == records@.subrange(0, i as int).filter(
                matches_pred(region, release_name, release_number, instance_type, architecture),
            ),
        decreases records@.len() - i,
    {
        let keep = record_matches_exec(
            &records[i],
            region,
            release_name,
            release_number,
            instance_type,
            architecture,
        );
        if keep {
            out.push(records[i].clone());
        }
        proof {
            let pred = matches_pred(
                region,
                release_name,
                release_number,
                instance_type,
                architecture,
            );
            records@.subrange(0, i as int).lemma_filter_push(records@[i as int], pred);
            assert(records@.subrange(0, i as int).push(records@[i as int]) =~= records@.subrange(
                0,
                i + 1,
            ));
        }
        i = i + 1;
    }
    proof {
        assert(records@.subrange(0, records@.len() as int) =~= records@);
    }
    out
}

/// Two pointwise-equal predicates filter a sequence identically.
proof fn lemma_filter_congruent<A>(s: Seq<A>, p: spec_fn(A) -> bool, q: spec_fn(A) -> bool)
    requires
        forall|x: A| #[trigger] p(x) == q(x),
    ensures
        s.filter(p) == s.filter(q),
    decreases s.len(),
{
    reveal(Seq::filter);
    if s.len() != 0 {
        lemma_filter_congruent(s.drop_last(), p, q);
    }
}

/// Law: filtering is pure exact matching. With no optional filters
/// supplied, it keeps exactly the records whose region matches.
pub proof fn lemma_filter_region_only(s: Seq<CatalogRecord>, region: &str)
    ensures
        s.filter(matches_pred(region, None, None, None, None)) == s.filter(
            |r: CatalogRecord| r.region@ == region@,
        ),
{
    lemma_filter_congruent(
        s,
        matches_pred(region, None, None, None, None),
        |r: CatalogRecord| r.region@ == region@,
    );
}

/// Law: with every optional filter supplied, filtering keeps exactly the
/// intersection of the five exact-match conditions.
pub proof fn lemma_filter_all_criteria(
    s: Seq<CatalogRecord>,
    region: &str,
    release_name: &str,
    release_number: &str,
    instance_type: &str,
    architecture: &str,
)
    ensures
        s.filter(
            matches_pred(
                region,
                Some(release_name),
                Some(release_number),
                Some(instance_type),
                Some(architecture),
            ),
        ) == s.filter(
            |r: CatalogRecord|
                r.region@ == region@ && r.release_name@ == release_name@ && r.release_number@
                    == release_number@ && r.instance_type@ == instance_type@ && r.architecture@
                    == architecture@,
        ),
{
    lemma_filter_congruent(
        s,
        matches_pred(
            region,
            Some(release_name),
            Some(release_number),
            Some(instance_type),
            Some(architecture),
        ),
        |r: CatalogRecord|
            r.region@ == region@ && r.release_name@ == release_name@ && r.release_number@
                == release_number@ && r.instance_type@ == instance_type@ && r.architecture@
                == architecture@,
    );
}

} // verus!
