//! Granting privileges.

use vstd::prelude::*;

use crate::catalog::error::{CatalogKind, MetaError, MetaErrorModel, MetaResult};
use crate::catalog::manager::CatalogManager;
use crate::catalog::notify::{Notification, NotificationModel};
use crate::catalog::privilege::{notify_users, user_updates};
use crate::catalog::state::{
    CatalogManagerCoreModel, DatabaseManager, DatabaseManagerModel, UserManagerModel,
};
use crate::catalog::types::{
    Action, ActionWithGrantOption, GrantPrivilege, GrantPrivilegeModel, Object, UserInfo,
    UserInfoModel,
};
use crate::util::id_map::{copy_all, views, Entry};
use crate::util::id_set::IdSet;

verus! {

// ---------------------------------------------------------------------------
// Merging and comparing what is granted on one object.
// ---------------------------------------------------------------------------

/// The index of the first entry for `action`; the length where there is none.
pub open spec fn position(actions: Seq<ActionWithGrantOption>, action: Action) -> int
    decreases actions.len(),
{
    if actions.len() == 0 {
        0
    } else {
        let k = position(actions.drop_last(), action);
        if k < actions.len() - 1 {
            k
        } else if actions.last().action == action {
            actions.len() - 1
        } else {
            actions.len() as int
        }
    }
}

/// `actions` with `a` in the place of the entry for the same action, or behind the others.
pub open spec fn replaced(actions: Seq<ActionWithGrantOption>, a: ActionWithGrantOption) -> Seq<ActionWithGrantOption> {
    let k = position(actions, a.action);
    if k < actions.len() {
        actions.update(k, a)
    } else {
        actions.push(a)
    }
}

/// One entry for each action, the last one that is given.
pub open spec fn normalized(actions: Seq<ActionWithGrantOption>) -> Seq<ActionWithGrantOption>
    decreases actions.len(),
{
    if actions.len() == 0 {
        actions
    } else {
        replaced(normalized(actions.drop_last()), actions.last())
    }
}

/// `actions` after `a` is granted too: an action that is there stays with whoever granted it, and
/// has the grant option if either has it.
pub open spec fn absorbed(actions: Seq<ActionWithGrantOption>, a: ActionWithGrantOption) -> Seq<ActionWithGrantOption> {
    let k = position(actions, a.action);
    if k < actions.len() {
        actions.update(
            k,
            ActionWithGrantOption {
                with_grant_option: actions[k].with_grant_option || a.with_grant_option,
                ..actions[k]
            },
        )
    } else {
        actions.push(a)
    }
}

/// `actions` after all of `new` are granted.
pub open spec fn absorbed_all(
    actions: Seq<ActionWithGrantOption>,
    new: Seq<ActionWithGrantOption>,
) -> Seq<ActionWithGrantOption>
    decreases new.len(),
{
    if new.len() == 0 {
        actions
    } else {
        absorbed(absorbed_all(actions, new.drop_last()), new.last())
    }
}

/// The privilege after `new` is granted on the same object.
pub open spec fn merged(origin: GrantPrivilegeModel, new: GrantPrivilegeModel) -> GrantPrivilegeModel {
    GrantPrivilegeModel {
        action_with_opts: absorbed_all(normalized(origin.action_with_opts), new.action_with_opts),
        ..origin
    }
}

/// Whether `action` is among `actions`, and with the grant option (by the last entry for it).
pub open spec fn held(actions: Seq<ActionWithGrantOption>, action: Action) -> Option<bool>
    decreases actions.len(),
{
    if actions.len() == 0 {
        None
    } else if actions.last().action == action {
        Some(actions.last().with_grant_option)
    } else {
        held(actions.drop_last(), action)
    }
}

/// `origin` allows all that `new` allows, with the grant option where that is needed.
pub open spec fn allows(origin: GrantPrivilegeModel, new: GrantPrivilegeModel, need_grant_option: bool) -> bool {
    forall|i: int|
        0 <= i < new.action_with_opts.len() ==> match held(
            origin.action_with_opts,
            (#[trigger] new.action_with_opts[i]).action,
        ) {
            Some(option) => option || !need_grant_option,
            None => false,
        }
}

/// The index of the first privilege on `object`; the length where there is none.
pub open spec fn privilege_on(privileges: Seq<GrantPrivilegeModel>, object: Option<Object>) -> int
    decreases privileges.len(),
{
    if privileges.len() == 0 {
        0
    } else {
        let k = privilege_on(privileges.drop_last(), object);
        if k < privileges.len() - 1 {
            k
        } else if privileges.last().object == object {
            privileges.len() - 1
        } else {
            privileges.len() as int
        }
    }
}

/// `privileges` after `new` is granted.
pub open spec fn granted_one(privileges: Seq<GrantPrivilegeModel>, new: GrantPrivilegeModel) -> Seq<GrantPrivilegeModel> {
    let k = privilege_on(privileges, new.object);
    if k < privileges.len() {
        privileges.update(k, merged(privileges[k], new))
    } else {
        privileges.push(new)
    }
}

/// `privileges` after all of `new` are granted.
pub open spec fn granted_all(privileges: Seq<GrantPrivilegeModel>, new: Seq<GrantPrivilegeModel>) -> Seq<GrantPrivilegeModel>
    decreases new.len(),
{
    if new.len() == 0 {
        privileges
    } else {
        granted_one(granted_all(privileges, new.drop_last()), new.last())
    }
}

pub proof fn lemma_position(actions: Seq<ActionWithGrantOption>, action: Action)
    ensures
        0 <= position(actions, action) <= actions.len(),
        position(actions, action) < actions.len() ==> actions[position(actions, action)].action == action,
        forall|i: int| 0 <= i < position(actions, action) ==> (#[trigger] actions[i]).action != action,
    decreases actions.len(),
{
    if actions.len() > 0 {
        let d = actions.drop_last();
        lemma_position(d, action);
        assert forall|i: int| 0 <= i < position(actions, action) implies (#[trigger] actions[i]).action != action by {
            if i < d.len() {
                assert(d[i] == actions[i]);
            }
        }
    }
}

pub proof fn lemma_position_is(actions: Seq<ActionWithGrantOption>, action: Action, k: int)
    requires
        0 <= k <= actions.len(),
        k < actions.len() ==> actions[k].action == action,
        forall|i: int| 0 <= i < k ==> (#[trigger] actions[i]).action != action,
    ensures
        position(actions, action) == k,
{
    lemma_position(actions, action);
    let p = position(actions, action);
    if p < k {
        assert(actions[p].action != action);
    }
    if k < p {
        assert(actions[k].action != action);
    }
}

pub proof fn lemma_privilege_on(privileges: Seq<GrantPrivilegeModel>, object: Option<Object>)
    ensures
        0 <= privilege_on(privileges, object) <= privileges.len(),
        privilege_on(privileges, object) < privileges.len() ==> privileges[privilege_on(
            privileges,
            object,
        )].object == object,
        forall|i: int|
            0 <= i < privilege_on(privileges, object) ==> (#[trigger] privileges[i]).object != object,
    decreases privileges.len(),
{
    if privileges.len() > 0 {
        let d = privileges.drop_last();
        lemma_privilege_on(d, object);
        assert forall|i: int| 0 <= i < privilege_on(privileges, object) implies (#[trigger] privileges[i]).object
            != object by {
            if i < d.len() {
                assert(d[i] == privileges[i]);
            }
        }
    }
}

pub proof fn lemma_privilege_on_is(privileges: Seq<GrantPrivilegeModel>, object: Option<Object>, k: int)
    requires
        0 <= k <= privileges.len(),
        k < privileges.len() ==> privileges[k].object == object,
        forall|i: int| 0 <= i < k ==> (#[trigger] privileges[i]).object != object,
    ensures
        privilege_on(privileges, object) == k,
{
    lemma_privilege_on(privileges, object);
    let p = privilege_on(privileges, object);
    if p < k {
        assert(privileges[p].object != object);
    }
    if k < p {
        assert(privileges[k].object != object);
    }
}

fn find_action(actions: &Vec<ActionWithGrantOption>, action: Action) -> (r: usize)
    ensures
        r == position(actions@, action),
{
    let mut i: usize = 0;
    while i < actions.len()
        invariant
            i <= actions.len(),
            forall|k: int| 0 <= k < i ==> (#[trigger] actions@[k]).action != action,
        decreases actions.len() - i,
    {
        if actions[i].action == action {
            proof {
                lemma_position_is(actions@, action, i as int);
            }
            return i;
        }
        i = i + 1;
    }
    proof {
        lemma_position_is(actions@, action, i as int);
    }
    i
}

/// The index of the first privilege on `object`; the length where there is none.
pub fn find_privilege(privileges: &Vec<GrantPrivilege>, object: Option<Object>) -> (r: usize)
    ensures
        r == privilege_on(views(privileges@), object),
        r <= privileges@.len(),
        r < privileges@.len() ==> privileges@[r as int]@.object == object,
{
    let ghost q = views(privileges@);
    let mut i: usize = 0;
    while i < privileges.len()
        invariant
            i <= privileges.len(),
            q == views(privileges@),
            forall|k: int| 0 <= k < i ==> (#[trigger] q[k]).object != object,
        decreases privileges.len() - i,
    {
        if privileges[i].object == object {
            proof {
                lemma_privilege_on_is(q, object, i as int);
            }
            return i;
        }
        i = i + 1;
    }
    proof {
        lemma_privilege_on_is(q, object, i as int);
    }
    i
}

impl CatalogManager {
    /// Merge new granted privilege. Actions stay in the order in which they were first given.
    pub fn merge_privilege(origin_privilege: &mut GrantPrivilege, new_privilege: &GrantPrivilege)
        requires
            old(origin_privilege)@.object == new_privilege@.object,
        ensures
            final(origin_privilege)@ == merged(old(origin_privilege)@, new_privilege@),
    {
        let ghost before = origin_privilege@;
        let origin = copy_all(&origin_privilege.action_with_opts);
        let mut actions: Vec<ActionWithGrantOption> = Vec::new();
        let mut i: usize = 0;
        assert(origin@.take(0) =~= Seq::<ActionWithGrantOption>::empty());
        assert(actions@ =~= normalized(origin@.take(0)));
        while i < origin.len()
            invariant
                i <= origin.len(),
                actions@ == normalized(origin@.take(i as int)),
            decreases origin.len() - i,
        {
            let a = origin[i];
            proof {
                assert(origin@.take(i + 1).drop_last() =~= origin@.take(i as int));
                lemma_position(actions@, a.action);
            }
            let k: usize = find_action(&actions, a.action);
            if k < actions.len() {
                actions.set(k, a);
            } else {
                actions.push(a);
            }
            i = i + 1;
        }
        assert(origin@.take(i as int) =~= origin@);
        let new = &new_privilege.action_with_opts;
        let ghost base = actions@;
        let mut i: usize = 0;
        assert(new@.take(0) =~= Seq::<ActionWithGrantOption>::empty());
        while i < new.len()
            invariant
                i <= new.len(),
                actions@ == absorbed_all(base, new@.take(i as int)),
            decreases new.len() - i,
        {
            let a = new[i];
            proof {
                assert(new@.take(i + 1).drop_last() =~= new@.take(i as int));
                lemma_position(actions@, a.action);
            }
            let k: usize = find_action(&actions, a.action);
            if k < actions.len() {
                let o = actions[k];
                actions.set(
                    k,
                    ActionWithGrantOption {
                        action: o.action,
                        with_grant_option: o.with_grant_option || a.with_grant_option,
                        granted_by: o.granted_by,
                    },
                );
            } else {
                actions.push(a);
            }
            i = i + 1;
        }
        assert(new@.take(i as int) =~= new@);
        origin_privilege.action_with_opts = actions;
        assert(origin_privilege@ =~= merged(before, new_privilege@));
    }

    /// Check whether `new_privilege` is a subset of `origin_privilege`, and check the grant option
    /// if `need_grant_option` is set.
    pub fn check_privilege(
        origin_privilege: &GrantPrivilege,
        new_privilege: &GrantPrivilege,
        need_grant_option: bool,
    ) -> (r: bool)
        requires
            origin_privilege@.object == new_privilege@.object,
        ensures
            r == allows(origin_privilege@, new_privilege@, need_grant_option),
    {
        let origin = &origin_privilege.action_with_opts;
        let new = &new_privilege.action_with_opts;
        let mut i: usize = 0;
        while i < new.len()
            invariant
                i <= new.len(),
                origin@ == origin_privilege@.action_with_opts,
                new@ == new_privilege@.action_with_opts,
                forall|k: int|
                    0 <= k < i ==> match held(origin@, (#[trigger] new@[k]).action) {
                        Some(option) => option || !need_grant_option,
                        None => false,
                    },
            decreases new.len() - i,
        {
            let option = Self::holds(origin, new[i].action);
            let allowed: bool = match option {
                Some(option) => option || !need_grant_option,
                None => false,
            };
            if !allowed {
                assert(new_privilege@.action_with_opts[i as int] == new@[i as int]);
                return false;
            }
            i = i + 1;
        }
        true
    }

    fn holds(actions: &Vec<ActionWithGrantOption>, action: Action) -> (r: Option<bool>)
        ensures
            r == held(actions@, action),
    {
        let mut i: usize = actions.len();
        assert(actions@.take(i as int) =~= actions@);
        while i > 0
            invariant
                i <= actions.len(),
                held(actions@, action) == held(actions@.take(i as int), action),
            decreases i,
        {
            assert(actions@.take(i as int).drop_last() =~= actions@.take(i - 1));
            assert(actions@.take(i as int).last() == actions@[i - 1]);
            if actions[i - 1].action == action {
                return Some(actions[i - 1].with_grant_option);
            }
            i = i - 1;
        }
        None
    }

    /// Check whether the user is the owner of the object.
    pub fn check_owner(database_manager: &DatabaseManager, object: &Object, user_id: u32) -> (r:
        MetaResult<bool>)
        ensures
            match database_manager@.object_owner(*object) {
                Ok(owner) => r is Ok && r->Ok_0 == (owner == user_id),
                Err(e) => r is Err && r->Err_0@ == e,
            },
    {
        match database_manager.get_object_owner(object) {
            Ok(owner) => Ok(owner == user_id),
            Err(e) => Err(e),
        }
    }

    /// Adds a privilege to a user's privileges.
    pub fn add_privilege(privileges: &mut Vec<GrantPrivilege>, new: &GrantPrivilege)
        ensures
            views(final(privileges)@) == granted_one(views(old(privileges)@), new@),
    {
        let ghost before = privileges@;
        let k: usize = find_privilege(privileges, new.object);
        if k < privileges.len() {
            let mut merged_privilege = privileges[k].duplicate();
            Self::merge_privilege(&mut merged_privilege, new);
            privileges.set(k, merged_privilege);
            assert(views(privileges@) =~= granted_one(views(before), new@));
        } else {
            privileges.push(new.duplicate());
            assert(views(privileges@) =~= granted_one(views(before), new@));
        }
    }
}

// ---------------------------------------------------------------------------
// Granting.
// ---------------------------------------------------------------------------

/// Why `grantor` may not grant one privilege: unless they own the object, they need each of the
/// actions with the grant option.
pub open spec fn grant_refusal(
    db: DatabaseManagerModel,
    info: UserInfoModel,
    grantor: u32,
    new: GrantPrivilegeModel,
) -> Option<MetaErrorModel> {
    match db.object_owner(new.object->0) {
        Err(e) => Some(e),
        Ok(owner) => if owner == grantor {
            None
        } else {
            let k = privilege_on(info.grant_privileges, new.object);
            if k >= info.grant_privileges.len() {
                Some(MetaErrorModel::GrantorLacksPrivilege(grantor))
            } else if !allows(info.grant_privileges[k], new, true) {
                Some(MetaErrorModel::GrantWithoutOption(grantor))
            } else {
                None
            }
        },
    }
}

/// The first refusal among the privileges that `grantor` wants to grant. Super users may grant
/// everything.
pub open spec fn grants_refusal(
    db: DatabaseManagerModel,
    info: UserInfoModel,
    grantor: u32,
    new: Seq<GrantPrivilegeModel>,
) -> Option<MetaErrorModel>
    decreases new.len(),
{
    if info.is_super || new.len() == 0 {
        None
    } else {
        match grants_refusal(db, info, grantor, new.drop_last()) {
            Some(e) => Some(e),
            None => grant_refusal(db, info, grantor, new.last()),
        }
    }
}

/// The users after the privileges are granted to each of `user_ids` in turn, and those who were
/// updated, or the first refusal.
pub open spec fn granted_to(
    db: DatabaseManagerModel,
    users: Map<u32, UserInfoModel>,
    info: UserInfoModel,
    grantor: u32,
    new: Seq<GrantPrivilegeModel>,
    user_ids: Seq<u32>,
) -> Result<(Map<u32, UserInfoModel>, Seq<UserInfoModel>), MetaErrorModel>
    decreases user_ids.len(),
{
    if user_ids.len() == 0 {
        Ok((users, Seq::empty()))
    } else {
        match granted_to(db, users, info, grantor, new, user_ids.drop_last()) {
            Err(e) => Err(e),
            Ok((so_far, updated)) => {
                let id = user_ids.last();
                if !so_far.contains_key(id) {
                    Err(MetaErrorModel::CatalogIdNotFound(CatalogKind::User, id))
                } else if so_far[id].is_super {
                    Err(MetaErrorModel::GrantToSuperUser(id))
                } else {
                    match grants_refusal(db, info, grantor, new) {
                        Some(e) => Err(e),
                        None => {
                            let user = UserInfoModel {
                                grant_privileges: granted_all(so_far[id].grant_privileges, new),
                                ..so_far[id]
                            };
                            Ok((so_far.insert(id, user), updated.push(user)))
                        },
                    }
                }
            },
        }
    }
}

/// An error of an early user is the error of the whole request.
pub proof fn lemma_granted_to_error(
    db: DatabaseManagerModel,
    users: Map<u32, UserInfoModel>,
    info: UserInfoModel,
    grantor: u32,
    new: Seq<GrantPrivilegeModel>,
    user_ids: Seq<u32>,
    k: int,
)
    requires
        0 <= k <= user_ids.len(),
        granted_to(db, users, info, grantor, new, user_ids.take(k)) is Err,
    ensures
        granted_to(db, users, info, grantor, new, user_ids) == granted_to(
            db,
            users,
            info,
            grantor,
            new,
            user_ids.take(k),
        ),
    decreases user_ids.len() - k,
{
    if k < user_ids.len() {
        assert(user_ids.take(k + 1).drop_last() =~= user_ids.take(k));
        lemma_granted_to_error(db, users, info, grantor, new, user_ids, k + 1);
    } else {
        assert(user_ids.take(k) =~= user_ids);
    }
}

/// Those to whom `grantor` has granted something, with `user_ids` added.
pub open spec fn related(relation: Map<u32, Set<u32>>, grantor: u32, user_ids: Seq<u32>) -> Map<u32, Set<u32>> {
    relation.insert(
        grantor,
        if relation.contains_key(grantor) {
            relation[grantor].union(user_ids.to_set())
        } else {
            user_ids.to_set()
        },
    )
}

/// The catalog and the messages after a grant, or the refusal.
pub open spec fn grant_result(
    c: CatalogManagerCoreModel,
    user_ids: Seq<u32>,
    new: Seq<GrantPrivilegeModel>,
    grantor: u32,
) -> Result<(CatalogManagerCoreModel, Seq<NotificationModel>), MetaErrorModel> {
    if !c.user.user_info.contains_key(grantor) {
        Err(MetaErrorModel::CatalogIdNotFound(CatalogKind::User, grantor))
    } else {
        match granted_to(
            c.database,
            c.user.user_info,
            c.user.user_info[grantor],
            grantor,
            new,
            user_ids,
        ) {
            Err(e) => Err(e),
            Ok((users, updated)) => Ok(
                (
                    CatalogManagerCoreModel {
                        user: UserManagerModel {
                            user_info: users,
                            user_grant_relation: related(
                                c.user.user_grant_relation,
                                grantor,
                                user_ids,
                            ),
                            ..c.user
                        },
                        ..c
                    },
                    user_updates(updated),
                ),
            ),
        }
    }
}

/// The privileges that `grantor` wants to grant name their objects, up to the first that is
/// refused. Super users need not name them.
pub open spec fn grants_named(
    db: DatabaseManagerModel,
    info: UserInfoModel,
    grantor: u32,
    new: Seq<GrantPrivilegeModel>,
) -> bool {
    info.is_super || forall|i: int|
        0 <= i < new.len() && grants_refusal(db, info, grantor, new.take(i)) is None ==> (
        #[trigger] new[i]).object is Some
}

/// The privileges name their objects where a grant looks at them: the grantor and the first of the
/// users are known, and this one is no super user.
pub open spec fn grant_presumes(
    c: CatalogManagerCoreModel,
    user_ids: Seq<u32>,
    new: Seq<GrantPrivilegeModel>,
    grantor: u32,
) -> bool {
    let users = c.user.user_info;
    users.contains_key(grantor) && user_ids.len() > 0 && users.contains_key(user_ids[0])
        && !users[user_ids[0]].is_super ==> grants_named(c.database, users[grantor], grantor, new)
}

impl CatalogManager {
    /// Checks that `grantor`, who is no super user, may grant one privilege.
    fn check_grant(
        db: &DatabaseManager,
        info: &UserInfo,
        grantor: u32,
        new: &GrantPrivilege,
    ) -> (r: MetaResult<()>)
        requires
            new@.object is Some,
        ensures
            match grant_refusal(db@, info@, grantor, new@) {
                Some(e) => r is Err && r->Err_0@ == e,
                None => r is Ok,
            },
    {
        let object = match new.object {
            Some(object) => object,
            None => {
                return Ok(());
            },
        };
        match Self::check_owner(db, &object, grantor) {
            Err(e) => {
                return Err(e);
            },
            Ok(owns) => {
                if !owns {
                    let k: usize = find_privilege(&info.grant_privileges, new.object);
                    if k >= info.grant_privileges.len() {
                        return Err(MetaError::GrantorLacksPrivilege(grantor));
                    }
                    if !Self::check_privilege(&info.grant_privileges[k], new, true) {
                        return Err(MetaError::GrantWithoutOption(grantor));
                    }
                }
            },
        }
        Ok(())
    }

    /// Checks that `grantor` may grant the privileges.
    fn check_grants(
        db: &DatabaseManager,
        info: &UserInfo,
        grantor: u32,
        new: &Vec<GrantPrivilege>,
    ) -> (r: MetaResult<()>)
        requires
            grants_named(db@, info@, grantor, views(new@)),
        ensures
            match grants_refusal(db@, info@, grantor, views(new@)) {
                Some(e) => r is Err && r->Err_0@ == e,
                None => r is Ok,
            },
    {
        if info.is_super {
            return Ok(());
        }
        let ghost q = views(new@);
        let mut i: usize = 0;
        assert(q.take(0) =~= Seq::<GrantPrivilegeModel>::empty());
        while i < new.len()
            invariant
                i <= new.len(),
                !info.is_super,
                q == views(new@),
                grants_named(db@, info@, grantor, q),
                grants_refusal(db@, info@, grantor, q.take(i as int)) is None,
            decreases new.len() - i,
        {
            proof {
                assert(q[i as int].object is Some);
                assert(q.take(i + 1).drop_last() =~= q.take(i as int));
                assert(q.take(i + 1).last() == q[i as int]);
            }
            match Self::check_grant(db, info, grantor, &new[i]) {
                Err(e) => {
                    proof {
                        lemma_grants_refusal(db@, info@, grantor, q, i + 1);
                    }
                    return Err(e);
                },
                Ok(_) => {},
            }
            i = i + 1;
        }
        assert(q.take(i as int) =~= q);
        Ok(())
    }

    /// Tells whether the privileges name their objects, up to the first that is refused.
    fn can_check_grants(
        db: &DatabaseManager,
        info: &UserInfo,
        grantor: u32,
        new: &Vec<GrantPrivilege>,
    ) -> (r: bool)
        ensures
            r == grants_named(db@, info@, grantor, views(new@)),
    {
        if info.is_super {
            return true;
        }
        let ghost q = views(new@);
        let mut i: usize = 0;
        assert(q.take(0) =~= Seq::<GrantPrivilegeModel>::empty());
        while i < new.len()
            invariant
                i <= new.len(),
                !info.is_super,
                q == views(new@),
                forall|k: int| 0 <= k < i ==> (#[trigger] q[k]).object is Some,
                grants_refusal(db@, info@, grantor, q.take(i as int)) is None,
            decreases new.len() - i,
        {
            proof {
                assert(q[i as int] == new@[i as int]@);
                assert(q.take(i + 1).drop_last() =~= q.take(i as int));
                assert(q.take(i + 1).last() == q[i as int]);
            }
            if new[i].object.is_none() {
                return false;
            }
            if Self::check_grant(db, info, grantor, &new[i]).is_err() {
                proof {
                    assert forall|k: int|
                        0 <= k < q.len() && grants_refusal(db@, info@, grantor, q.take(k)) is None implies (
                    #[trigger] q[k]).object is Some by {
                        if k > i {
                            assert(q.take(k).take(i + 1) =~= q.take(i + 1));
                            lemma_grants_refusal(db@, info@, grantor, q.take(k), i + 1);
                        }
                    }
                }
                return true;
            }
            i = i + 1;
        }
        true
    }

    /// Tells whether [`Self::grant_privilege`] can be called.
    pub fn can_grant(
        &self,
        user_ids: &Vec<u32>,
        new_grant_privileges: &Vec<GrantPrivilege>,
        grantor: u32,
    ) -> (r: bool)
        ensures
            r == grant_presumes(self@, user_ids@, views(new_grant_privileges@), grantor),
    {
        let users = &self.core.user.user_info;
        if user_ids.len() == 0 {
            return true;
        }
        match (users.get(grantor), users.get(user_ids[0])) {
            (Some(info), Some(user)) => user.is_super || Self::can_check_grants(
                &self.core.database,
                info,
                grantor,
                new_grant_privileges,
            ),
            _ => true,
        }
    }

    pub fn grant_privilege(
        &mut self,
        user_ids: &Vec<u32>,
        new_grant_privileges: &Vec<GrantPrivilege>,
        grantor: u32,
    ) -> (r: MetaResult<Vec<Notification>>)
        requires
            grant_presumes(old(self)@, user_ids@, views(new_grant_privileges@), grantor),
        ensures
            match grant_result(old(self)@, user_ids@, views(new_grant_privileges@), grantor) {
                Ok((c, messages)) => r is Ok && views(r->Ok_0@) == messages && final(self)@ == c,
                Err(e) => r is Err && r->Err_0@ == e && final(self)@ == old(self)@,
            },
    {
        let ghost c = self@;
        let ghost new = views(new_grant_privileges@);
        let info = match self.core.user.user_info.get(grantor) {
            Some(info) => info.duplicate(),
            None => {
                return Err(MetaError::CatalogIdNotFound(CatalogKind::User, grantor));
            },
        };
        let mut users = self.core.user.user_info.duplicate();
        let mut updated: Vec<UserInfo> = Vec::new();
        let mut i: usize = 0;
        proof {
            assert(user_ids@.take(0) =~= Seq::<u32>::empty());
            assert(views(updated@) =~= Seq::<UserInfoModel>::empty());
        }
        while i < user_ids.len()
            invariant
                i <= user_ids.len(),
                c == self@,
                self@ == old(self)@,
                c.user.user_info.contains_key(grantor),
                info@ == c.user.user_info[grantor],
                new == views(new_grant_privileges@),
                grant_presumes(c, user_ids@, new, grantor),
                i > 0 ==> grants_named(c.database, info@, grantor, new),
                granted_to(
                    c.database,
                    c.user.user_info,
                    info@,
                    grantor,
                    new,
                    user_ids@.take(i as int),
                ) == Ok::<(Map<u32, UserInfoModel>, Seq<UserInfoModel>), MetaErrorModel>(
                    (users@, views(updated@)),
                ),
            decreases user_ids.len() - i,
        {
            let id: u32 = user_ids[i];
            proof {
                assert(user_ids@.take(i + 1).drop_last() =~= user_ids@.take(i as int));
                assert(user_ids@.take(i + 1).last() == id);
                if granted_to(
                    c.database,
                    c.user.user_info,
                    info@,
                    grantor,
                    new,
                    user_ids@.take(i + 1),
                ) is Err {
                    lemma_granted_to_error(
                        c.database,
                        c.user.user_info,
                        info@,
                        grantor,
                        new,
                        user_ids@,
                        i + 1,
                    );
                }
            }
            let mut user = match users.get(id) {
                Some(user) => user.duplicate(),
                None => {
                    return Err(MetaError::CatalogIdNotFound(CatalogKind::User, id));
                },
            };
            if user.is_super {
                return Err(MetaError::GrantToSuperUser(id));
            }
            match Self::check_grants(
                &self.core.database,
                &info,
                grantor,
                new_grant_privileges,
            ) {
                Err(e) => {
                    return Err(e);
                },
                Ok(_) => {},
            }
            let ghost earlier = user@;
            let mut j: usize = 0;
            assert(new.take(0) =~= Seq::<GrantPrivilegeModel>::empty());
            while j < new_grant_privileges.len()
                invariant
                    j <= new_grant_privileges.len(),
                    new == views(new_grant_privileges@),
                    user@ == (UserInfoModel {
                        grant_privileges: granted_all(earlier.grant_privileges, new.take(j as int)),
                        ..earlier
                    }),
                decreases new_grant_privileges.len() - j,
            {
                proof {
                    assert(new.take(j + 1).drop_last() =~= new.take(j as int));
                    assert(new.take(j + 1).last() == new_grant_privileges@[j as int]@);
                }
                Self::add_privilege(&mut user.grant_privileges, &new_grant_privileges[j]);
                j = j + 1;
            }
            assert(new.take(j as int) =~= new);
            let ghost before = updated@;
            updated.push(user.duplicate());
            assert(views(updated@) =~= views(before).push(user@));
            users.insert(id, user);
            i = i + 1;
        }
        assert(user_ids@.take(i as int) =~= user_ids@);
        self.core.user.user_info = users;
        let mut set = match self.core.user.user_grant_relation.get(grantor) {
            Some(set) => set.duplicate(),
            None => IdSet::new(),
        };
        set.insert_all(user_ids);
        proof {
            if !c.user.user_grant_relation.contains_key(grantor) {
                assert(set@ =~= user_ids@.to_set());
            }
        }
        self.core.user.user_grant_relation.insert(grantor, set);
        Ok(notify_users(updated))
    }
}

/// A refusal of an early privilege is the refusal of the whole request.
pub proof fn lemma_grants_refusal(
    db: DatabaseManagerModel,
    info: UserInfoModel,
    grantor: u32,
    new: Seq<GrantPrivilegeModel>,
    k: int,
)
    requires
        0 <= k <= new.len(),
        grants_refusal(db, info, grantor, new.take(k)) is Some,
    ensures
        grants_refusal(db, info, grantor, new) == grants_refusal(db, info, grantor, new.take(k)),
    decreases new.len() - k,
{
    if k < new.len() {
        assert(new.take(k + 1).drop_last() =~= new.take(k));
        lemma_grants_refusal(db, info, grantor, new, k + 1);
    } else {
        assert(new.take(k) =~= new);
    }
}

} // verus!
