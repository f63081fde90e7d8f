//! Users.

use vstd::prelude::*;
use vstd::string::*;

use crate::catalog::error::{CatalogKind, MetaError, MetaErrorModel, MetaResult};
use crate::catalog::manager::CatalogManager;
use crate::catalog::notify::{Info, InfoModel, Notification, NotificationModel, Operation};
use crate::catalog::outcome::{ends_as, with_users, Outcome};
use crate::catalog::relations::frontend;
use crate::catalog::state::{CatalogManagerCoreModel, UserManagerModel};
use crate::catalog::types::{UpdateField, UserInfo, UserInfoModel};
use crate::util::id_map::{duplicate_opt, values_at, views, Entry};
use crate::util::ids::listing;

verus! {

/// The identifier of the user `root`.
pub const DEFAULT_SUPER_USER_ID: u32 = 1;

/// The identifier of the user `postgres`.
pub const DEFAULT_SUPER_USER_FOR_PG_ID: u32 = 2;

/// The user may do everything.
pub open spec fn default_user(name: Seq<char>, id: u32) -> UserInfoModel {
    UserInfoModel {
        id,
        name,
        is_super: true,
        can_create_db: true,
        can_create_user: true,
        can_login: true,
        ..UserInfoModel::blank()
    }
}

impl UserManagerModel {
    /// The users with this one.
    pub open spec fn with_user(self, user: UserInfoModel) -> UserManagerModel {
        UserManagerModel { user_info: self.user_info.insert(user.id, user), ..self }
    }

    /// The users with a default one, unless there is one of its name.
    pub open spec fn with_default(self, name: Seq<char>, id: u32) -> UserManagerModel {
        if self.has_name(name) {
            self
        } else {
            self.with_user(default_user(name, id))
        }
    }
}

/// The catalog with the users that are there from the start.
pub open spec fn default_users_added(c: CatalogManagerCoreModel) -> CatalogManagerCoreModel {
    with_users(
        c,
        c.user.with_default("root"@, DEFAULT_SUPER_USER_ID).with_default(
            "postgres"@,
            DEFAULT_SUPER_USER_FOR_PG_ID,
        ),
    )
}

/// A message to the frontends about a user.
pub open spec fn user_message(operation: Operation, user: UserInfoModel) -> Seq<NotificationModel> {
    seq![frontend(operation, InfoModel::User(user))]
}

/// A user with one field taken from another.
pub open spec fn with_field(user: UserInfoModel, update: UserInfoModel, field: UpdateField) -> UserInfoModel {
    match field {
        UpdateField::Unspecified => user,
        UpdateField::Super => UserInfoModel { is_super: update.is_super, ..user },
        UpdateField::Login => UserInfoModel { can_login: update.can_login, ..user },
        UpdateField::CreateDb => UserInfoModel { can_create_db: update.can_create_db, ..user },
        UpdateField::CreateUser => UserInfoModel {
            can_create_user: update.can_create_user,
            ..user
        },
        UpdateField::AuthInfo => UserInfoModel { auth_info: update.auth_info, ..user },
        UpdateField::Rename => UserInfoModel { name: update.name, ..user },
    }
}

/// A user with these fields taken from another.
pub open spec fn with_fields(
    user: UserInfoModel,
    update: UserInfoModel,
    fields: Seq<UpdateField>,
) -> UserInfoModel
    decreases fields.len(),
{
    if fields.len() == 0 {
        user
    } else {
        with_field(with_fields(user, update, fields.drop_last()), update, fields.last())
    }
}

/// The outcome of a request to create a user.
pub open spec fn user_created(c: CatalogManagerCoreModel, user: UserInfoModel) -> Outcome {
    if c.user.has_name(user.name) {
        Err(MetaErrorModel::UserExists(user.name))
    } else {
        Ok((with_users(c, c.user.with_user(user)), user_message(Operation::Add, user)))
    }
}

/// The outcome of a request to update a user.
pub open spec fn user_updated(
    c: CatalogManagerCoreModel,
    update: UserInfoModel,
    fields: Seq<UpdateField>,
) -> Outcome {
    if fields.contains(UpdateField::Rename) && c.user.has_name(update.name) {
        Err(MetaErrorModel::UserExists(update.name))
    } else {
        let user = with_fields(c.user.user_info[update.id], update, fields);
        Ok(
            (
                with_users(
                    c,
                    UserManagerModel {
                        user_info: c.user.user_info.insert(update.id, user),
                        ..c.user
                    },
                ),
                user_message(Operation::Update, user),
            ),
        )
    }
}

/// What updating a user presumes: where it is not refused, the user is known and the fields are.
pub open spec fn user_updating_presumes(
    c: CatalogManagerCoreModel,
    update: UserInfoModel,
    fields: Seq<UpdateField>,
) -> bool {
    !(fields.contains(UpdateField::Rename) && c.user.has_name(update.name)) ==> {
        &&& c.user.user_info.contains_key(update.id)
        &&& !fields.contains(UpdateField::Unspecified)
    }
}

/// The outcome of a request to drop a user.
pub open spec fn user_dropped(c: CatalogManagerCoreModel, id: u32) -> Outcome {
    if !c.user.user_info.contains_key(id) {
        Err(MetaErrorModel::UserMissing(id))
    } else {
        let user = c.user.user_info[id];
        if user.name == "root"@ || user.name == "postgres"@ {
            Err(MetaErrorModel::DropDefaultUser(id))
        } else if c.user.catalog_create_ref_count.contains_key(id) {
            Err(MetaErrorModel::UserHasObjects(user.name))
        } else if c.user.user_grant_relation.contains_key(id) && c.user.user_grant_relation[id]
            != Set::<u32>::empty() {
            Err(MetaErrorModel::UserHasGrants(id))
        } else {
            Ok(
                (
                    with_users(
                        c,
                        UserManagerModel { user_info: c.user.user_info.remove(id), ..c.user },
                    ),
                    user_message(Operation::Delete, user),
                ),
            )
        }
    }
}

fn make_default_user(name: &str, id: u32) -> (r: UserInfo)
    ensures
        r@ == default_user(name@, id),
{
    let mut user = UserInfo::default();
    user.id = id;
    user.name = String::from_str(name);
    user.is_super = true;
    user.can_create_db = true;
    user.can_create_user = true;
    user.can_login = true;
    assert(user@ =~= default_user(name@, id));
    user
}

/// Whether the field is among those that are to be updated.
fn asks_for(fields: &Vec<UpdateField>, field: UpdateField) -> (r: bool)
    ensures
        r == fields@.contains(field),
{
    let mut i: usize = 0;
    while i < fields.len()
        invariant
            i <= fields.len(),
            forall|k: int| 0 <= k < i ==> fields@[k] != field,
        decreases fields.len() - i,
    {
        if fields[i] == field {
            assert(fields@[i as int] == field);
            return true;
        }
        i = i + 1;
    }
    false
}

fn user_note(operation: Operation, user: UserInfo) -> (r: Vec<Notification>)
    ensures
        views(r@) == user_message(operation, user@),
{
    let mut r: Vec<Notification> = Vec::new();
    r.push(CatalogManager::notify_frontend(operation, Info::User(user)));
    assert(views(r@) =~= user_message(operation, user@));
    r
}

impl CatalogManager {
    /// Adds the users `root` and `postgres`, unless there are users with these names.
    pub fn init_user(&mut self)
        ensures
            final(self)@ == default_users_added(old(self)@),
    {
        if !self.core.user.has_user_name("root") {
            self.core.user.user_info.insert(
                DEFAULT_SUPER_USER_ID,
                make_default_user("root", DEFAULT_SUPER_USER_ID),
            );
        }
        if !self.core.user.has_user_name("postgres") {
            self.core.user.user_info.insert(
                DEFAULT_SUPER_USER_FOR_PG_ID,
                make_default_user("postgres", DEFAULT_SUPER_USER_FOR_PG_ID),
            );
        }
    }

    pub fn list_users(&self) -> (r: Vec<UserInfo>)
        ensures
            views(r@) == values_at(
                self@.user.user_info,
                listing(self@.user.user_info.dom()),
            ),
    {
        self.core.user.user_info.values()
    }

    pub fn create_user(&mut self, user: &UserInfo) -> (r: MetaResult<Vec<Notification>>)
        ensures
            ends_as(r, old(self)@, final(self)@, user_created(old(self)@, user@)),
    {
        if self.core.user.has_user_name(user.name.as_str()) {
            return Err(MetaError::UserExists(user.name.clone()));
        }
        self.core.user.user_info.insert(user.id, user.duplicate());
        Ok(user_note(Operation::Add, user.duplicate()))
    }

    /// Tells whether [`Self::update_user`] can be called.
    pub fn can_update_user(&self, update_user: &UserInfo, update_fields: &Vec<UpdateField>) -> (r: bool)
        ensures
            r == user_updating_presumes(self@, update_user@, update_fields@),
    {
        (asks_for(update_fields, UpdateField::Rename) && self.core.user.has_user_name(
            update_user.name.as_str(),
        )) || (self.core.user.user_info.contains_key(update_user.id) && !asks_for(
            update_fields,
            UpdateField::Unspecified,
        ))
    }

    pub fn update_user(&mut self, update_user: &UserInfo, update_fields: &Vec<UpdateField>) -> (r:
        MetaResult<Vec<Notification>>)
        requires
            user_updating_presumes(old(self)@, update_user@, update_fields@),
        ensures
            ends_as(
                r,
                old(self)@,
                final(self)@,
                user_updated(old(self)@, update_user@, update_fields@),
            ),
    {
        if asks_for(update_fields, UpdateField::Rename) && self.core.user.has_user_name(update_user.name.as_str()) {
            return Err(MetaError::UserExists(update_user.name.clone()));
        }
        let ghost c = self@;
        let mut user = match self.core.user.user_info.get(update_user.id) {
            Some(user) => user.duplicate(),
            None => {
                assert(false);
                UserInfo::default()
            },
        };
        let ghost before = user@;
        let mut i: usize = 0;
        assert(update_fields@.take(0) =~= Seq::empty());
        while i < update_fields.len()
            invariant
                i <= update_fields.len(),
                user@ == with_fields(before, update_user@, update_fields@.take(i as int)),
            decreases update_fields.len() - i,
        {
            proof {
                assert(update_fields@.take(i + 1).drop_last() =~= update_fields@.take(i as int));
                assert(update_fields@.take(i + 1).last() == update_fields@[i as int]);
            }
            match update_fields[i] {
                UpdateField::Unspecified => {},
                UpdateField::Super => {
                    user.is_super = update_user.is_super;
                },
                UpdateField::Login => {
                    user.can_login = update_user.can_login;
                },
                UpdateField::CreateDb => {
                    user.can_create_db = update_user.can_create_db;
                },
                UpdateField::CreateUser => {
                    user.can_create_user = update_user.can_create_user;
                },
                UpdateField::AuthInfo => {
                    user.auth_info = duplicate_opt(&update_user.auth_info);
                },
                UpdateField::Rename => {
                    user.name = update_user.name.clone();
                },
            }
            i = i + 1;
        }
        assert(update_fields@.take(i as int) =~= update_fields@);
        self.core.user.user_info.insert(update_user.id, user.duplicate());
        Ok(user_note(Operation::Update, user))
    }

    pub fn get_user(&self, id: u32) -> (r: MetaResult<UserInfo>)
        ensures
            match r {
                Ok(user) => self@.user.user_info.contains_key(id) && user@
                    == self@.user.user_info[id],
                Err(e) => !self@.user.user_info.contains_key(id) && e@
                    == MetaErrorModel::CatalogIdNotFound(CatalogKind::User, id),
            },
    {
        match self.core.user.user_info.get(id) {
            Some(user) => Ok(user.duplicate()),
            None => Err(MetaError::CatalogIdNotFound(CatalogKind::User, id)),
        }
    }

    pub fn drop_user(&mut self, id: u32) -> (r: MetaResult<Vec<Notification>>)
        ensures
            ends_as(r, old(self)@, final(self)@, user_dropped(old(self)@, id)),
    {
        let user = match self.core.user.user_info.get(id) {
            Some(user) => user.duplicate(),
            None => {
                return Err(MetaError::UserMissing(id));
            },
        };
        if user.name == String::from_str("root") || user.name == String::from_str("postgres") {
            return Err(MetaError::DropDefaultUser(id));
        }
        if self.core.user.catalog_create_ref_count.contains_key(id) {
            return Err(MetaError::UserHasObjects(user.name));
        }
        let granted = match self.core.user.user_grant_relation.get(id) {
            Some(set) => !set.is_empty(),
            None => false,
        };
        if granted {
            return Err(MetaError::UserHasGrants(id));
        }
        self.core.user.user_info.remove(id);
        Ok(user_note(Operation::Delete, user))
    }
}

} // verus!
