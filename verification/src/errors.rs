use vstd::prelude::*;

verus! {

/// Every failure the lookup pipeline can surface to a caller.
///
/// Each step of the pipeline owns exactly one of these: the HTTP fetch
/// reports `NetworkError`, the tail patch `MalformedPayloadError`, the
/// structural decode `DecodeError`, the filter/select step `NotFoundError`,
/// and the identifier extraction `ExtractionError`.
#[derive(Clone, Copy, Debug, PartialEq, Eq, Structural)]
pub enum LookupError {
    /// Transport failure or non-success HTTP status.
    NetworkError,
    /// Response body too short for the fixed-window tail patch.
    MalformedPayloadError,
    /// The document does not have the expected shape.
    DecodeError,
    /// No record survives the filter chain.
    NotFoundError,
    /// The selected record's markup lacks the identifier delimiters.
    ExtractionError,
}

} // verus!
