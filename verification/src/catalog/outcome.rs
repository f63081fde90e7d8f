//! How a request on the catalog ends.

use vstd::prelude::*;

use crate::catalog::error::{MetaErrorModel, MetaResult};
use crate::catalog::notify::{Notification, NotificationModel};
use crate::catalog::state::{CatalogManagerCoreModel, DatabaseManagerModel, UserManagerModel};
use crate::util::id_map::views;

verus! {

/// The catalog and the messages after a request, or the refusal.
pub type Outcome = Result<(CatalogManagerCoreModel, Seq<NotificationModel>), MetaErrorModel>;

/// A request ended as told: with the messages and the catalog, or refused and without effect.
pub open spec fn ends_as(
    r: MetaResult<Vec<Notification>>,
    before: CatalogManagerCoreModel,
    after: CatalogManagerCoreModel,
    outcome: Outcome,
) -> bool {
    match outcome {
        Ok((c, messages)) => r is Ok && views(r->Ok_0@) == messages && after == c,
        Err(e) => r is Err && r->Err_0@ == e && after == before,
    }
}

/// The catalog with changed objects.
pub open spec fn with_database(c: CatalogManagerCoreModel, database: DatabaseManagerModel) -> CatalogManagerCoreModel {
    CatalogManagerCoreModel { database, ..c }
}

/// The catalog with changed users.
pub open spec fn with_users(c: CatalogManagerCoreModel, user: UserManagerModel) -> CatalogManagerCoreModel {
    CatalogManagerCoreModel { user, ..c }
}

} // verus!
