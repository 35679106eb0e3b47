use vstd::prelude::*;

verus! {

/// Number of fields in one catalog row; a row of any other arity is
/// malformed.
pub const FIELD_COUNT: usize = 8;

/// One row of the upstream catalog: one published image variant.
///
/// All fields are plain strings, decoded positionally from a fixed-width
/// row of exactly [`FIELD_COUNT`] strings, in this field order. Records are
/// immutable once constructed and live only for one lookup.
#[derive(Debug)]
pub struct CatalogRecord {
    /// Cloud region code, e.g. "us-east-1".
    pub region: String,
    /// Human release codename, e.g. "bionic".
    pub release_name: String,
    /// Numeric or version release identifier, e.g. "18.04".
    pub release_number: String,
    /// CPU architecture tag, e.g. "amd64".
    pub architecture: String,
    /// Virtualization/storage class tag, e.g. "hvm:ebs-ssd".
    pub instance_type: String,
    /// Date string; lexicographically sortable (ISO-like ordering assumed).
    pub publish_date: String,
    /// Raw embedded hyperlink markup holding the image identifier.
    pub image_markup: String,
    /// Auxiliary flag; not consulted by the filtering logic.
    pub hvm_flag: String,
}

impl Clone for CatalogRecord {
    fn clone(&self) -> (r: Self)
        ensures
            r == *self,
    {
        CatalogRecord {
            region: self.region.clone(),
            release_name: self.release_name.clone(),
            release_number: self.release_number.clone(),
            architecture: self.architecture.clone(),
            instance_type: self.instance_type.clone(),
            publish_date: self.publish_date.clone(),
            image_markup: self.image_markup.clone(),
            hvm_flag: self.hvm_flag.clone(),
        }
    }
}

} // verus!
