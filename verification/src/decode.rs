use vstd::prelude::*;

use crate::errors::LookupError;
use crate::record::CatalogRecord;
use crate::record::FIELD_COUNT;

verus! {

/// The record a well-formed row of exactly [`FIELD_COUNT`] strings decodes
/// to: each field is the string at its fixed position.
pub open spec fn spec_record_of_row(row: Seq<String>) -> CatalogRecord
    recommends
        row.len() == FIELD_COUNT,
{
    CatalogRecord {
        region: row[0],
        release_name: row[1],
        release_number: row[2],
        architecture: row[3],
        instance_type: row[4],
        publish_date: row[5],
        image_markup: row[6],
        hvm_flag: row[7],
    }
}

/// Decode one catalog row. The arity is validated before any element is
/// read, so a short or long row is a typed `DecodeError`, never a fault.
pub fn record_of_row(row: &Vec<String>) -> (r: Result<CatalogRecord, LookupError>)
    ensures
        r is Ok <==> row@.len() == FIELD_COUNT,
        row@.len() != FIELD_COUNT ==> r == Err::<CatalogRecord, LookupError>(
            LookupError::DecodeError,
        ),
        r matches Ok(rec) ==> rec == spec_record_of_row(row@),
{
    if row.len() != FIELD_COUNT {
        return Err(LookupError::DecodeError);
    }
    Ok(
        CatalogRecord {
            region: row[0].clone(),
            release_name: row[1].clone(),
            release_number: row[2].clone(),
            architecture: row[3].clone(),
            instance_type: row[4].clone(),
            publish_date: row[5].clone(),
            image_markup: row[6].clone(),
            hvm_flag: row[7].clone(),
        },
    )
}

/// Decode every row of the catalog. Succeeds exactly when every row has
/// the fixed arity, and then yields one record per source row, each field
/// equal to the positional string of its row.
pub fn records_of_rows(rows: &Vec<Vec<String>>) -> (r: Result<Vec<CatalogRecord>, LookupError>)
    ensures
        r is Ok <==> (forall|i: int|
            0 <= i < rows@.len() ==> (#[trigger] rows@[i])@.len() == FIELD_COUNT),
        r is Err ==> r == Err::<Vec<CatalogRecord>, LookupError>(LookupError::DecodeError),
        r matches Ok(recs) ==> recs@.len() == rows@.len() && (forall|i: int|
            0 <= i < rows@.len() ==> recs@[i] == spec_record_of_row((#[trigger] rows@[i])@)),
{
    let mut recs: Vec<CatalogRecord> = Vec::new();
    let mut i: usize = 0;
    while i < rows.len()
        invariant
            i <= rows@.len(),
            recs@.len() == i,
            forall|j: int| 0 <= j < i ==> (#[trigger] rows@[j])@.len() == FIELD_COUNT,
            forall|j: int| 0 <= j < i ==> recs@[j] == spec_record_of_row((#[trigger] rows@[j])@),
        decreases rows@.len() - i,
    {
        match record_of_row(&rows[i]) {
            Ok(rec) => recs.push(rec),
            Err(e) => {
                return Err(e);
            },
        }
        i = i + 1;
    }
    Ok(recs)
}

} // verus!
