//! The ways an ingestion run can fail.

use vstd::prelude::*;

verus! {

/// A failure of the ingestion run, with what is needed to find the input behind it.
#[derive(Debug, Clone, PartialEq, Eq)]
pub enum IngestError {
    /// The browser session could not navigate, find an element, or be reached.
    AutomationFailure,
    /// A displayed card name matches no catalog card, exactly or as a part.
    UnresolvableCardName { raw_name: String },
    /// The store refused a write.
    PersistenceFailure,
    /// The record at this position of the list handed in does not have the
    /// expected shape: one of its identities is no UUID.
    MalformedCatalogRecord { index: usize },
}

} // verus!
