//! The catalog manager.

use vstd::prelude::*;

use crate::catalog::state::{CatalogManagerCore, CatalogManagerCoreModel};

verus! {

/// `CatalogManager` manages database catalog information and user information, including
/// authentication and privileges.
///
/// It only has some basic validation for the user information.
/// Other authorization relate to the current session user should be done in Frontend before passing
/// to Meta.
#[derive(Debug, PartialEq, Eq)]
pub struct CatalogManager {
    pub core: CatalogManagerCore,
}

impl View for CatalogManager {
    type V = CatalogManagerCoreModel;

    open spec fn view(&self) -> CatalogManagerCoreModel {
        self.core@
    }
}

} // verus!
