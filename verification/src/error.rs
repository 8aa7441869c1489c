//! Error taxonomy of the write-handling pipeline.

use vstd::prelude::*;
use crate::types::ColumnType;

verus! {

/// Error returned by the handler chain.
///
/// The chain short-circuits on the first error and propagates the
/// kind, not a raw cause; only the outermost caller decides between
/// retrying and surfacing the failure to the write's originator.
#[derive(Clone, Debug)]
pub enum RouterError {
    /// A column of the request claims a type that disagrees with the
    /// type already established for that column name. Permanent: the
    /// whole batch is rejected and must not be retried unmodified.
    SchemaConflict { column: String, existing: ColumnType, requested: ColumnType },
    /// The catalog could not be reached. Transient: retryable.
    CatalogUnavailable,
    /// The per-shard producer failed to enqueue the write. Transient:
    /// retryable; catalog-side metadata already created stays in place.
    WriteBufferFailure,
    /// The configured topic has no partitions, so no shard registry
    /// can be formed. Fatal at startup: the process must not serve
    /// traffic with an undefined registry.
    NoShards,
}

impl RouterError {
    /// Whether a caller may retry the same request unmodified.
    pub open spec fn spec_retryable(&self) -> bool {
        match self {
            RouterError::SchemaConflict { .. } => false,
            RouterError::CatalogUnavailable => true,
            RouterError::WriteBufferFailure => true,
            RouterError::NoShards => false,
        }
    }

    /// Whether a caller may retry the same request unmodified.
    #[verifier::when_used_as_spec(spec_retryable)]
    pub fn is_retryable(&self) -> (r: bool)
        ensures
            r == self.spec_retryable(),
    {
        match self {
            RouterError::CatalogUnavailable => true,
            RouterError::WriteBufferFailure => true,
            _ => false,
        }
    }
}

} // verus!
