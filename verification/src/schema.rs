//! The root handle a query layer hangs its read-only views of the graph
//! on. Serving the graph over a query API is outside this library; only
//! the anchor type lives here.

use vstd::prelude::*;

verus! {

/// The root of the read-only query surface over a loaded
/// [`crate::models::CollectionData`].
pub struct QueryRoot;

} // verus!
