use vstd::prelude::*;

use crate::decode::records_of_rows;
use crate::decode::spec_record_of_row;
use crate::errors::LookupError;
use crate::extract::extract_ok;
use crate::extract::parse_ami;
use crate::extract::spec_extracted;
use crate::filter::filter_records;
use crate::filter::matches_pred;
use crate::json::decoded_rows;
use crate::json::parse_rows;
use crate::order::str_le;
use crate::order::str_lt;
use crate::patch::patch_tail;
use crate::patch::spec_patched;
use crate::patch::PATCH_WINDOW;
use crate::record::CatalogRecord;
use crate::record::FIELD_COUNT;
use crate::select::is_latest;
use crate::select::lemma_latest_unique;
use crate::select::select_latest;

verus! {

/// Every row of the table has the fixed arity.
pub open spec fn rows_well_formed(rows: Seq<Vec<String>>) -> bool {
    forall|i: int| 0 <= i < rows.len() ==> (#[trigger] rows[i])@.len() == FIELD_COUNT
}

/// The records a plain-row table decodes to, positionally.
pub open spec fn records_of(rows: Seq<Vec<String>>) -> Seq<CatalogRecord> {
    rows.map(|i: int, row: Vec<String>| spec_record_of_row(row@))
}

/// The records of the table that survive the filter chain, in order.
pub open spec fn filtered_records(
    rows: Seq<Vec<String>>,
    region: &str,
    release_name: Option<&str>,
    release_number: Option<&str>,
    instance_type: Option<&str>,
    architecture: Option<&str>,
) -> Seq<CatalogRecord> {
    records_of(rows).filter(
        matches_pred(region, release_name, release_number, instance_type, architecture),
    )
}

/// A record, seen as the views of its eight field strings, in field
/// order: region, release name, release number, architecture, instance
/// type, publish date, image markup, hvm flag.
pub open spec fn rec_view(r: CatalogRecord) -> Seq<Seq<char>> {
    seq![
        r.region@,
        r.release_name@,
        r.release_number@,
        r.architecture@,
        r.instance_type@,
        r.publish_date@,
        r.image_markup@,
        r.hvm_flag@,
    ]
}

/// A whole sequence of records, seen row by row.
pub open spec fn table_of(recs: Seq<CatalogRecord>) -> Seq<Seq<Seq<char>>> {
    recs.map_values(|r: CatalogRecord| rec_view(r))
}

/// The view of a table of plain rows.
pub open spec fn table_view(rows: Seq<Vec<String>>) -> Seq<Seq<Seq<char>>> {
    rows.map_values(|row: Vec<String>| row.deep_view())
}

/// An optional filter argument, seen as the view of its string.
pub open spec fn opt_view(o: Option<&str>) -> Option<Seq<char>> {
    match o {
        Some(s) => Some(s@),
        None => None,
    }
}

/// Whether an optional filter accepts a field, at the view level.
pub open spec fn opt_matches_v(field: Seq<char>, filter: Option<Seq<char>>) -> bool {
    match filter {
        Some(f) => field == f,
        None => true,
    }
}

/// Whether a decoded row survives the filter chain, read off its field
/// positions (see [`rec_view`] for the field order).
pub open spec fn row_matches_v(
    row: Seq<Seq<char>>,
    region: Seq<char>,
    release_name: Option<Seq<char>>,
    release_number: Option<Seq<char>>,
    instance_type: Option<Seq<char>>,
    architecture: Option<Seq<char>>,
) -> bool {
    &&& row[0] == region
    &&& opt_matches_v(row[1], release_name)
    &&& opt_matches_v(row[2], release_number)
    &&& opt_matches_v(row[4], instance_type)
    &&& opt_matches_v(row[3], architecture)
}

/// The filter chain as a predicate on decoded rows, for one fixed query.
pub open spec fn row_pred_v(
    region: Seq<char>,
    release_name: Option<Seq<char>>,
    release_number: Option<Seq<char>>,
    instance_type: Option<Seq<char>>,
    architecture: Option<Seq<char>>,
) -> spec_fn(Seq<Seq<char>>) -> bool {
    |row: Seq<Seq<char>>|
        row_matches_v(row, region, release_name, release_number, instance_type, architecture)
}

/// Every row of the decoded table has the fixed arity.
pub open spec fn table_wf(t: Seq<Seq<Seq<char>>>) -> bool {
    forall|i: int| 0 <= i < t.len() ==> (#[trigger] t[i]).len() == FIELD_COUNT
}

/// The rows of the decoded table that survive the filter chain.
pub open spec fn filtered_v(
    t: Seq<Seq<Seq<char>>>,
    region: Seq<char>,
    release_name: Option<Seq<char>>,
    release_number: Option<Seq<char>>,
    instance_type: Option<Seq<char>>,
    architecture: Option<Seq<char>>,
) -> Seq<Seq<Seq<char>>> {
    t.filter(row_pred_v(region, release_name, release_number, instance_type, architecture))
}

/// Position `i` holds the row the selection picks, at the view level:
/// its publish date (position 5) is lexicographically greatest, and it is
/// the last row bearing that date.
pub open spec fn is_latest_v(t: Seq<Seq<Seq<char>>>, i: int) -> bool {
    &&& 0 <= i < t.len()
    &&& forall|k: int| 0 <= k < t.len() ==> str_le(#[trigger] t[k][5], t[i][5])
    &&& forall|k: int| i < k < t.len() ==> str_lt(#[trigger] t[k][5], t[i][5])
}

/// Mapping after filtering equals filtering the mapped sequence with the
/// corresponding predicate.
proof fn lemma_filter_map<A, B>(
    s: Seq<A>,
    f: spec_fn(A) -> B,
    p: spec_fn(A) -> bool,
    q: spec_fn(B) -> bool,
)
    requires
        forall|a: A| #[trigger] p(a) == q(f(a)),
    ensures
        s.filter(p).map_values(f) == s.map_values(f).filter(q),
    decreases s.len(),
{
    reveal(Seq::filter);
    if s.len() == 0 {
        assert(s.filter(p).map_values(f) =~= s.map_values(f).filter(q));
    } else {
        let dl = s.drop_last();
        lemma_filter_map(dl, f, p, q);
        assert(s.map_values(f).drop_last() =~= dl.map_values(f));
        assert(s.map_values(f).last() == f(s.last()));
        if p(s.last()) {
            assert(s.filter(p).map_values(f) =~= dl.filter(p).map_values(f).push(f(s.last())));
            assert(s.map_values(f).filter(q) == dl.map_values(f).filter(q).push(f(s.last())));
        } else {
            assert(s.filter(p).map_values(f) == dl.filter(p).map_values(f));
            assert(s.map_values(f).filter(q) == dl.map_values(f).filter(q));
        }
    }
}

/// The decoded table's view-level filter agrees with the record-level
/// filter: well-formedness carries over, and filtering the views is
/// filtering the records.
proof fn lemma_lookup_bridge(
    rows: Seq<Vec<String>>,
    region: &str,
    release_name: Option<&str>,
    release_number: Option<&str>,
    instance_type: Option<&str>,
    architecture: Option<&str>,
)
    ensures
        table_wf(table_view(rows)) <==> rows_well_formed(rows),
        rows_well_formed(rows) ==> filtered_v(
            table_view(rows),
            region@,
            opt_view(release_name),
            opt_view(release_number),
            opt_view(instance_type),
            opt_view(architecture),
        ) == table_of(
            filtered_records(
                rows,
                region,
                release_name,
                release_number,
                instance_type,
                architecture,
            ),
        ),
{
    assert(table_view(rows).len() == rows.len());
    if table_wf(table_view(rows)) {
        assert forall|i: int| 0 <= i < rows.len() implies (#[trigger] rows[i])@.len()
            == FIELD_COUNT by {
            assert(table_view(rows)[i] == rows[i].deep_view());
            assert(table_view(rows)[i].len() == FIELD_COUNT);
        }
    }
    if rows_well_formed(rows) {
        assert forall|i: int| 0 <= i < table_view(rows).len() implies (#[trigger] table_view(
            rows,
        )[i]).len() == FIELD_COUNT by {
            assert(table_view(rows)[i] == rows[i].deep_view());
            assert(rows[i]@.len() == FIELD_COUNT);
        }
    }
    if rows_well_formed(rows) {
        let p = matches_pred(region, release_name, release_number, instance_type, architecture);
        let q = row_pred_v(
            region@,
            opt_view(release_name),
            opt_view(release_number),
            opt_view(instance_type),
            opt_view(architecture),
        );
        let f = |r: CatalogRecord| rec_view(r);
        assert forall|i: int| 0 <= i < rows.len() implies #[trigger] table_of(records_of(rows))[i]
            == table_view(rows)[i] by {
            assert(rec_view(spec_record_of_row(rows[i]@)) =~= rows[i].deep_view());
        }
        assert(table_of(records_of(rows)) =~= table_view(rows));
        assert forall|r: CatalogRecord| #[trigger] p(r) == q(f(r)) by {
            assert(rec_view(r)[0] == r.region@);
            assert(rec_view(r)[1] == r.release_name@);
            assert(rec_view(r)[2] == r.release_number@);
            assert(rec_view(r)[3] == r.architecture@);
            assert(rec_view(r)[4] == r.instance_type@);
        }
        lemma_filter_map(records_of(rows), f, p, q);
    }
}

/// The lookup over an already decoded table of plain rows: validate the
/// arity of every row, filter by the query, select the most recently
/// dated survivor, and extract its image identifier.
pub fn lookup_in_rows(
    rows: &Vec<Vec<String>>,
    region: &str,
    release_name: Option<&str>,
    release_number: Option<&str>,
    instance_type: Option<&str>,
    architecture: Option<&str>,
) -> (r: Result<String, LookupError>)
    ensures
        !rows_well_formed(rows@) ==> r == Err::<String, LookupError>(LookupError::DecodeError),
        rows_well_formed(rows@) && filtered_records(
            rows@,
            region,
            release_name,
            release_number,
            instance_type,
            architecture,
        ).len() == 0 ==> r == Err::<String, LookupError>(LookupError::NotFoundError),
        rows_well_formed(rows@) && filtered_records(
            rows@,
            region,
            release_name,
            release_number,
            instance_type,
            architecture,
        ).len() > 0 ==> (exists|i: int|
            is_latest(
                filtered_records(
                    rows@,
                    region,
                    release_name,
                    release_number,
                    instance_type,
                    architecture,
                ),
                i,
            )),
        rows_well_formed(rows@) ==> (forall|i: int|
            #[trigger] is_latest(
                filtered_records(
                    rows@,
                    region,
                    release_name,
                    release_number,
                    instance_type,
                    architecture,
                ),
                i,
            ) ==> ({
                let chosen = filtered_records(
                    rows@,
                    region,
                    release_name,
                    release_number,
                    instance_type,
                    architecture,
                )[i];
                if extract_ok(chosen.image_markup@) {
                    r matches Ok(id) && id@ == spec_extracted(chosen.image_markup@)
                } else {
                    r == Err::<String, LookupError>(LookupError::ExtractionError)
                }
            })),
{
    let records = match records_of_rows(rows) {
        Ok(recs) => recs,
        Err(e) => {
            return Err(e);
        },
    };
    proof {
        assert(records@ =~= records_of(rows@));
    }
    let surviving = filter_records(
        &records,
        region,
        release_name,
        release_number,
        instance_type,
        architecture,
    );
    let chosen = match select_latest(&surviving) {
        Ok(rec) => rec,
        Err(e) => {
            return Err(e);
        },
    };
    let ghost flt = filtered_records(
        rows@,
        region,
        release_name,
        release_number,
        instance_type,
        architecture,
    );
    proof {
        let i = choose|i: int| is_latest(flt, i) && chosen == flt[i];
        assert forall|j: int| #[trigger] is_latest(flt, j) implies chosen == flt[j] by {
            lemma_latest_unique(flt, i, j);
        }
    }
    match parse_ami(chosen.image_markup.as_str()) {
        Some(id) => Ok(id.to_owned()),
        None => Err(LookupError::ExtractionError),
    }
}

/// The whole lookup on a fetched catalog body: patch the tail, decode the
/// patched text into rows (named [`decoded_rows`]), then filter, select
/// and extract. For every body above the patch window, the result is
/// fixed by what the patched text decodes to: a shape violation is a
/// `DecodeError`, an empty filtered set a `NotFoundError`, bad markup on
/// the selected row an `ExtractionError`, and otherwise the identifier of
/// the latest matching row is returned. The network fetch itself stays
/// with the caller; this function therefore never reports a
/// `NetworkError`.
pub fn get_latest(
    body: &str,
    region: &str,
    release_name: Option<&str>,
    release_number: Option<&str>,
    instance_type: Option<&str>,
    architecture: Option<&str>,
) -> (r: Result<String, LookupError>)
    ensures
        body@.len() <= PATCH_WINDOW ==> r == Err::<String, LookupError>(
            LookupError::MalformedPayloadError,
        ),
        body@.len() > PATCH_WINDOW ==> (match decoded_rows(spec_patched(body@)) {
            None => r == Err::<String, LookupError>(LookupError::DecodeError),
            Some(t) => ({
                let fv = filtered_v(
                    t,
                    region@,
                    opt_view(release_name),
                    opt_view(release_number),
                    opt_view(instance_type),
                    opt_view(architecture),
                );
                &&& (!table_wf(t) ==> r == Err::<String, LookupError>(LookupError::DecodeError))
                &&& (table_wf(t) && fv.len() == 0 ==> r == Err::<String, LookupError>(
                    LookupError::NotFoundError,
                ))
                &&& (table_wf(t) && fv.len() > 0 ==> (exists|i: int| is_latest_v(fv, i)))
                &&& (table_wf(t) ==> (forall|i: int|
                    #[trigger] is_latest_v(fv, i) ==> (if extract_ok(fv[i][6]) {
                        r matches Ok(id) && id@ == spec_extracted(fv[i][6])
                    } else {
                        r == Err::<String, LookupError>(LookupError::ExtractionError)
                    })))
            }),
        }),
        r matches Err(e) ==> e != LookupError::NetworkError,
{
    let patched = match patch_tail(body) {
        Ok(p) => p,
        Err(e) => {
            return Err(e);
        },
    };
    let rows = match parse_rows(patched.as_str()) {
        Some(rs) => rs,
        None => {
            return Err(LookupError::DecodeError);
        },
    };
    let r = lookup_in_rows(&rows, region, release_name, release_number, instance_type, architecture);
    proof {
        assert(rows.deep_view() =~= table_view(rows@));
        lemma_lookup_bridge(
            rows@,
            region,
            release_name,
            release_number,
            instance_type,
            architecture,
        );
        if rows_well_formed(rows@) {
            let frecs = filtered_records(
                rows@,
                region,
                release_name,
                release_number,
                instance_type,
                architecture,
            );
            let fv = table_of(frecs);
            assert forall|k: int| 0 <= k < frecs.len() implies (#[trigger] fv[k])[5]
                == frecs[k].publish_date@ && fv[k][6] == frecs[k].image_markup@ by {
                assert(fv[k] == rec_view(frecs[k]));
            }
            assert forall|i: int| #[trigger] is_latest(frecs, i) implies is_latest_v(fv, i) by {
                assert forall|k: int| 0 <= k < fv.len() implies str_le(
                    #[trigger] fv[k][5],
                    fv[i][5],
                ) by {}
                assert forall|k: int| i < k < fv.len() implies str_lt(
                    #[trigger] fv[k][5],
                    fv[i][5],
                ) by {}
            }
            assert forall|i: int| #[trigger] is_latest_v(fv, i) implies is_latest(frecs, i) by {
                assert forall|k: int| 0 <= k < frecs.len() implies str_le(
                    #[trigger] frecs[k].publish_date@,
                    frecs[i].publish_date@,
                ) by {
                    assert(str_le(fv[k][5], fv[i][5]));
                }
                assert forall|k: int| i < k < frecs.len() implies str_lt(
                    #[trigger] frecs[k].publish_date@,
                    frecs[i].publish_date@,
                ) by {
                    assert(str_lt(fv[k][5], fv[i][5]));
                }
            }
        }
    }
    r
}

} // verus!
