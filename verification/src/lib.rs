//! Look up the newest Ubuntu EC2 machine image matching a set of filters.
//!
//! The pipeline is: fetch the upstream catalog document (the caller's job),
//! patch the known trailing-comma defect in its tail, decode it into
//! catalog records, filter by region and the optional criteria, select the
//! record with the lexicographically greatest publish date, and extract the
//! image identifier from its embedded hyperlink markup.

use vstd::prelude::*;

pub mod decode;
pub mod errors;
pub mod extract;
pub mod filter;
pub mod json;
pub mod lookup;
pub mod order;
pub mod patch;
pub mod record;
pub mod select;

pub use crate::decode::record_of_row;
pub use crate::decode::records_of_rows;
pub use crate::errors::LookupError;
pub use crate::extract::parse_ami;
pub use crate::filter::filter_records;
pub use crate::lookup::get_latest;
pub use crate::lookup::lookup_in_rows;
pub use crate::patch::patch_tail;
pub use crate::record::CatalogRecord;
pub use crate::select::select_latest;

verus! {

} // verus!
