//! Who answers for the fragments of the streaming jobs.

use vstd::prelude::*;

verus! {

/// Turns fragments into what is stored of them and back, and answers questions about them from
/// the stored rows.
#[derive(Debug, Clone, Copy)]
pub struct CatalogController;

} // verus!
