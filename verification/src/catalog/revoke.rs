//! Revoking privileges.

use vstd::prelude::*;

use crate::catalog::drop::{lemma_remaining, remaining};
use crate::catalog::error::{CatalogKind, MetaError, MetaErrorModel, MetaResult};
use crate::catalog::grant::{
    allows, find_privilege, lemma_privilege_on, privilege_on,
};
use crate::catalog::manager::CatalogManager;
use crate::catalog::notify::{Notification, NotificationModel};
use crate::catalog::privilege::{notify_users, user_updates};
use crate::catalog::state::{
    CatalogManagerCoreModel, DatabaseManager, DatabaseManagerModel, UserManager, UserManagerModel,
};
use crate::catalog::types::{
    Action, ActionWithGrantOption, GrantPrivilege, GrantPrivilegeModel, UserInfo, UserInfoModel,
};
use crate::util::id_map::{views, Entry, IdMap};
use crate::util::id_set::IdSet;
use crate::util::ids::{contains_id, listing, lists};
use crate::util::lists::keep;

verus! {

// ---------------------------------------------------------------------------
// Revoking on one object.
// ---------------------------------------------------------------------------

/// `action` is among `actions`.
pub open spec fn mentions(actions: Seq<ActionWithGrantOption>, action: Action) -> bool {
    exists|i: int| 0 <= i < actions.len() && (#[trigger] actions[i]).action == action
}

/// The action is not among `actions`.
pub open spec fn not_mentioned(actions: Seq<ActionWithGrantOption>) -> spec_fn(ActionWithGrantOption) -> bool {
    |a: ActionWithGrantOption| !mentions(actions, a.action)
}

/// What is left of a privilege after `revoke` is revoked: where only the grant option is revoked
/// the actions stay without it, otherwise they go.
pub open spec fn revoked(origin: GrantPrivilegeModel, revoke: GrantPrivilegeModel, only_option: bool) -> GrantPrivilegeModel {
    GrantPrivilegeModel {
        action_with_opts: if only_option {
            Seq::new(
                origin.action_with_opts.len(),
                |i: int|
                    ActionWithGrantOption {
                        with_grant_option: origin.action_with_opts[i].with_grant_option && !mentions(
                            revoke.action_with_opts,
                            origin.action_with_opts[i].action,
                        ),
                        ..origin.action_with_opts[i]
                    },
            )
        } else {
            origin.action_with_opts.filter(not_mentioned(revoke.action_with_opts))
        },
        ..origin
    }
}

/// Revoking touches an action of the privilege.
pub open spec fn touches(origin: GrantPrivilegeModel, revoke: GrantPrivilegeModel) -> bool {
    exists|i: int|
        0 <= i < origin.action_with_opts.len() && mentions(
            revoke.action_with_opts,
            (#[trigger] origin.action_with_opts[i]).action,
        )
}

fn mentioned(actions: &Vec<ActionWithGrantOption>, action: Action) -> (r: bool)
    ensures
        r == mentions(actions@, action),
{
    let mut i: usize = 0;
    while i < actions.len()
        invariant
            i <= actions.len(),
            forall|k: int| 0 <= k < i ==> (#[trigger] actions@[k]).action != action,
        decreases actions.len() - i,
    {
        if actions[i].action == action {
            assert(actions@[i as int].action == action);
            return true;
        }
        i = i + 1;
    }
    false
}

impl CatalogManager {
    /// Revoke privilege from object. Tells whether an action of the privilege was touched.
    pub fn revoke_privilege_inner(
        origin_privilege: &mut GrantPrivilege,
        revoke_grant_privilege: &GrantPrivilege,
        revoke_grant_option: bool,
    ) -> (r: bool)
        requires
            old(origin_privilege)@.object == revoke_grant_privilege@.object,
        ensures
            final(origin_privilege)@ == revoked(
                old(origin_privilege)@,
                revoke_grant_privilege@,
                revoke_grant_option,
            ),
            r == touches(old(origin_privilege)@, revoke_grant_privilege@),
    {
        let ghost before = origin_privilege@;
        let ghost actions = before.action_with_opts;
        let ghost p = not_mentioned(revoke_grant_privilege@.action_with_opts);
        let revoke = &revoke_grant_privilege.action_with_opts;
        let mut left: Vec<ActionWithGrantOption> = Vec::new();
        let mut has_change: bool = false;
        let mut i: usize = 0;
        proof {
            reveal(Seq::filter);
            assert(actions.take(0) =~= Seq::<ActionWithGrantOption>::empty());
        }
        while i < origin_privilege.action_with_opts.len()
            invariant
                i <= actions.len(),
                origin_privilege@ == before,
                actions == before.action_with_opts,
                origin_privilege.action_with_opts@ == actions,
                revoke@ == revoke_grant_privilege@.action_with_opts,
                p == not_mentioned(revoke_grant_privilege@.action_with_opts),
                has_change == exists|k: int|
                    0 <= k < i && mentions(revoke@, (#[trigger] actions[k]).action),
                revoke_grant_option ==> left@.len() == i && forall|k: int|
                    0 <= k < i ==> left@[k] == (ActionWithGrantOption {
                        with_grant_option: actions[k].with_grant_option && !mentions(
                            revoke@,
                            actions[k].action,
                        ),
                        ..actions[k]
                    }),
                !revoke_grant_option ==> left@ == actions.take(i as int).filter(p),
            decreases origin_privilege.action_with_opts.len() - i,
        {
            let a = origin_privilege.action_with_opts[i];
            proof {
                reveal(Seq::filter);
                assert(actions.take(i + 1).drop_last() =~= actions.take(i as int));
                assert(actions.take(i + 1).last() == a);
                assert(actions[i as int] == a);
            }
            let hit: bool = mentioned(revoke, a.action);
            if hit {
                has_change = true;
            }
            if revoke_grant_option {
                left.push(
                    ActionWithGrantOption {
                        action: a.action,
                        with_grant_option: a.with_grant_option && !hit,
                        granted_by: a.granted_by,
                    },
                );
            } else if !hit {
                left.push(a);
            }
            i = i + 1;
        }
        assert(actions.take(i as int) =~= actions);
        origin_privilege.action_with_opts = left;
        assert(origin_privilege@ =~= revoked(
            before,
            revoke_grant_privilege@,
            revoke_grant_option,
        ));
        has_change
    }
}

// ---------------------------------------------------------------------------
// Revoking from one user.
// ---------------------------------------------------------------------------

/// A user's privileges while privileges are revoked; whether something was touched; and whether a
/// privilege without actions is left over.
#[verifier::ext_equal]
pub struct Revocation {
    pub privileges: Seq<GrantPrivilegeModel>,
    pub touched: bool,
    pub emptied: bool,
}

/// Revoking one privilege: the first privilege on the same object is concerned.
pub open spec fn revoke_one(r: Revocation, revoke: GrantPrivilegeModel, only_option: bool) -> Revocation {
    let k = privilege_on(r.privileges, revoke.object);
    if k < r.privileges.len() {
        let left = revoked(r.privileges[k], revoke, only_option);
        Revocation {
            privileges: r.privileges.update(k, left),
            touched: r.touched || touches(r.privileges[k], revoke),
            emptied: r.emptied || left.action_with_opts.len() == 0,
        }
    } else {
        r
    }
}

pub open spec fn revoke_all(
    privileges: Seq<GrantPrivilegeModel>,
    revoke: Seq<GrantPrivilegeModel>,
    only_option: bool,
) -> Revocation
    decreases revoke.len(),
{
    if revoke.len() == 0 {
        Revocation { privileges, touched: false, emptied: false }
    } else {
        revoke_one(revoke_all(privileges, revoke.drop_last(), only_option), revoke.last(), only_option)
    }
}

/// The privilege allows something.
pub open spec fn allows_something() -> spec_fn(GrantPrivilegeModel) -> bool {
    |p: GrantPrivilegeModel| p.action_with_opts.len() != 0
}

/// The user after the revocation: privileges that allow nothing any more are dropped.
pub open spec fn user_after(user: UserInfoModel, r: Revocation) -> UserInfoModel {
    UserInfoModel {
        grant_privileges: if r.emptied {
            r.privileges.filter(allows_something())
        } else {
            r.privileges
        },
        ..user
    }
}

// ---------------------------------------------------------------------------
// Revoking along the grants.
// ---------------------------------------------------------------------------

/// What a revocation is asked to do.
#[verifier::ext_equal]
pub struct RevokeRequest {
    pub users: Map<u32, UserInfoModel>,
    pub relation: Map<u32, Set<u32>>,
    pub revoke: Seq<GrantPrivilegeModel>,
    pub user_ids: Seq<u32>,
    pub only_option: bool,
    pub cascade: bool,
}

impl RevokeRequest {
    /// What is revoked from one user. Where only the grant option is revoked from the named
    /// users, those to whom they have granted the privileges lose them altogether.
    pub open spec fn effect(self, id: u32) -> Revocation {
        revoke_all(
            self.users[id].grant_privileges,
            self.revoke,
            self.only_option && self.user_ids.contains(id),
        )
    }

    /// Those to whom a user has granted something and who are not yet visited.
    pub open spec fn next(self, id: u32, visited: Set<u32>) -> Seq<u32> {
        if self.relation.contains_key(id) {
            listing(self.relation[id]).filter(
                |n: u32| self.users.contains_key(n) && !visited.contains(n),
            )
        } else {
            Seq::empty()
        }
    }
}

/// How far a revocation has come.
#[verifier::ext_equal]
pub struct RevokeState {
    pub users: Map<u32, UserInfoModel>,
    pub updated: Seq<UserInfoModel>,
    pub visited: Set<u32>,
}

/// Follows the grants from the users in `queue`. A user is handled once. Without cascade, only
/// the named users may lose something.
pub open spec fn revoke_along(q: RevokeRequest, s: RevokeState, queue: Seq<u32>) -> Result<
    RevokeState,
    MetaErrorModel,
>
    decreases remaining(s.visited), queue.len(),
{
    if queue.len() == 0 {
        Ok(s)
    } else {
        let id = queue[0];
        if s.visited.contains(id) || !q.users.contains_key(id) {
            revoke_along(q, s, queue.drop_first())
        } else {
            proof {
                lemma_remaining(s.visited, s.visited.insert(id));
                assert(s.visited.insert(id).contains(id));
            }
            let visited = s.visited.insert(id);
            let effect = q.effect(id);
            if !effect.touched {
                revoke_along(q, RevokeState { visited, ..s }, queue.drop_first())
            } else if !q.cascade && !q.user_ids.contains(id) {
                Err(MetaErrorModel::RevokeRestricted(q.users[id].name))
            } else {
                let user = user_after(q.users[id], effect);
                revoke_along(
                    q,
                    RevokeState {
                        users: s.users.insert(id, user),
                        updated: s.updated.push(user),
                        visited,
                    },
                    queue.drop_first() + q.next(id, visited),
                )
            }
        }
    }
}

/// Why a user may not revoke one privilege: unless they own the object, they need the actions,
/// and the grant option where they revoke what they granted themselves.
pub open spec fn revoke_refusal(
    db: DatabaseManagerModel,
    revoker: UserInfoModel,
    same_user: bool,
    privilege: GrantPrivilegeModel,
) -> Option<MetaErrorModel> {
    match db.object_owner(privilege.object->0) {
        Err(e) => Some(e),
        Ok(owner) => if owner == revoker.id {
            None
        } else {
            let k = privilege_on(revoker.grant_privileges, privilege.object);
            if k >= revoker.grant_privileges.len() {
                Some(MetaErrorModel::RevokerLacksPrivilege(revoker.name))
            } else if !allows(revoker.grant_privileges[k], privilege, same_user) {
                Some(MetaErrorModel::RevokeWithoutPermission(revoker.name))
            } else {
                None
            }
        },
    }
}

/// The first refusal among the privileges that are to be revoked.
pub open spec fn revokes_refusal(
    db: DatabaseManagerModel,
    revoker: UserInfoModel,
    same_user: bool,
    privileges: Seq<GrantPrivilegeModel>,
) -> Option<MetaErrorModel>
    decreases privileges.len(),
{
    if revoker.is_super || privileges.len() == 0 {
        None
    } else {
        match revokes_refusal(db, revoker, same_user, privileges.drop_last()) {
            Some(e) => Some(e),
            None => revoke_refusal(db, revoker, same_user, privileges.last()),
        }
    }
}

/// The first of the named users from whom nothing can be revoked.
pub open spec fn users_refusal(users: Map<u32, UserInfoModel>, user_ids: Seq<u32>) -> Option<MetaErrorModel>
    decreases user_ids.len(),
{
    if user_ids.len() == 0 {
        None
    } else if !users.contains_key(user_ids[0]) {
        Some(MetaErrorModel::CatalogIdNotFound(CatalogKind::User, user_ids[0]))
    } else if users[user_ids[0]].is_super {
        Some(MetaErrorModel::RevokeFromSuperUser(user_ids[0]))
    } else {
        users_refusal(users, user_ids.drop_first())
    }
}

/// `grantor` has granted an action to the user.
pub open spec fn has_granted(user: UserInfoModel, grantor: u32) -> bool {
    exists|i: int, j: int|
        0 <= i < user.grant_privileges.len() && 0 <= j
            < user.grant_privileges[i].action_with_opts.len()
            && (#[trigger] user.grant_privileges[i].action_with_opts[j]).granted_by == grantor
}

/// `grantor` has granted an action to the user with this identifier.
pub open spec fn grants_to(users: Map<u32, UserInfoModel>, grantor: u32, id: u32) -> bool {
    users.contains_key(id) && has_granted(users[id], grantor)
}

/// Those to whom each grantor has granted something.
pub open spec fn grant_relation(users: Map<u32, UserInfoModel>) -> Map<u32, Set<u32>> {
    Map::new(
        |grantor: u32| exists|id: u32| #[trigger] grants_to(users, grantor, id),
        |grantor: u32| Set::new(|id: u32| grants_to(users, grantor, id)),
    )
}

/// The catalog and the messages after a revocation, or the refusal.
pub open spec fn revoke_result(
    c: CatalogManagerCoreModel,
    user_ids: Seq<u32>,
    privileges: Seq<GrantPrivilegeModel>,
    granted_by: u32,
    revoke_by: u32,
    only_option: bool,
    cascade: bool,
) -> Result<(CatalogManagerCoreModel, Seq<NotificationModel>), MetaErrorModel> {
    let users = c.user.user_info;
    if !users.contains_key(revoke_by) {
        Err(MetaErrorModel::CatalogIdNotFound(CatalogKind::User, revoke_by))
    } else {
        let revoker = users[revoke_by];
        match revokes_refusal(c.database, revoker, granted_by == revoker.id, privileges) {
            Some(e) => Err(e),
            None => match users_refusal(users, user_ids) {
                Some(e) => Err(e),
                None => match revoke_along(
                    RevokeRequest {
                        users,
                        relation: c.user.user_grant_relation,
                        revoke: privileges,
                        user_ids,
                        only_option,
                        cascade,
                    },
                    RevokeState { users, updated: Seq::empty(), visited: Set::empty() },
                    user_ids,
                ) {
                    Err(e) => Err(e),
                    Ok(s) => Ok(
                        (
                            CatalogManagerCoreModel {
                                user: UserManagerModel {
                                    user_info: s.users,
                                    user_grant_relation: grant_relation(s.users),
                                    ..c.user
                                },
                                ..c
                            },
                            user_updates(s.updated),
                        ),
                    ),
                },
            },
        }
    }
}

pub proof fn lemma_revokes_refusal(
    db: DatabaseManagerModel,
    revoker: UserInfoModel,
    same_user: bool,
    privileges: Seq<GrantPrivilegeModel>,
    k: int,
)
    requires
        0 <= k <= privileges.len(),
        revokes_refusal(db, revoker, same_user, privileges.take(k)) is Some,
    ensures
        revokes_refusal(db, revoker, same_user, privileges) == revokes_refusal(
            db,
            revoker,
            same_user,
            privileges.take(k),
        ),
    decreases privileges.len() - k,
{
    if k < privileges.len() {
        assert(privileges.take(k + 1).drop_last() =~= privileges.take(k));
        lemma_revokes_refusal(db, revoker, same_user, privileges, k + 1);
    } else {
        assert(privileges.take(k) =~= privileges);
    }
}

/// `x` is noted for `g`.
spec fn member(relation: Map<u32, Set<u32>>, g: u32, x: u32) -> bool {
    relation.contains_key(g) && relation[g].contains(x)
}

/// Every entry notes someone.
spec fn inhabited(relation: Map<u32, Set<u32>>) -> bool {
    forall|g: u32| #[trigger] relation.contains_key(g) ==> exists|x: u32| member(relation, g, x)
}

/// `relation` holds the grants to the users in `seen`.
spec fn noted(relation: Map<u32, Set<u32>>, users: Map<u32, UserInfoModel>, seen: Seq<u32>) -> bool {
    forall|g: u32, x: u32| #[trigger]
        member(relation, g, x) <==> grants_to(users, g, x) && seen.contains(x)
}

/// `after` is `before` with the grantors of one user noted.
spec fn grantors_added(
    before: Map<u32, Set<u32>>,
    after: Map<u32, Set<u32>>,
    id: u32,
    granted: spec_fn(u32) -> bool,
) -> bool {
    &&& forall|g: u32, x: u32| #[trigger]
        member(after, g, x) <==> member(before, g, x) || (x == id && granted(g))
    &&& forall|g: u32| #[trigger]
        after.contains_key(g) <==> before.contains_key(g) || granted(g)
}

impl UserManager {
    /// Rebuilds, from the privileges of all users, who has granted something to whom.
    pub fn build_grant_relation_map(&mut self)
        ensures
            final(self)@ == (UserManagerModel {
                user_grant_relation: grant_relation(old(self)@.user_info),
                ..old(self)@
            }),
    {
        let ghost users = self.user_info@;
        let ids = self.user_info.ids();
        let mut relation: IdMap<IdSet> = IdMap::new();
        let mut i: usize = 0;
        while i < ids.len()
            invariant
                i <= ids.len(),
                users == self.user_info@,
                self@ == old(self)@,
                lists(ids@, users.dom()),
                noted(relation@, users, ids@.take(i as int)),
                inhabited(relation@),
            decreases ids.len() - i,
        {
            let id: u32 = ids[i];
            let ghost before = relation@;
            let ghost seen = ids@.take(i as int);
            proof {
                assert(ids@.contains(id));
                assert(users.contains_key(id));
                assert(ids@.take(i + 1) =~= seen.push(id));
            }
            match self.user_info.get(id) {
                Some(info) => {
                    Self::add_grantors(&mut relation, info, id);
                },
                None => {},
            }
            proof {
                assert forall|g: u32, x: u32| #[trigger]
                    member(relation@, g, x) <==> grants_to(users, g, x) && ids@.take(i + 1).contains(x) by {
                    assert(seen.push(id).contains(x) <==> seen.contains(x) || x == id) by {
                        broadcast use vstd::seq_lib::lemma_seq_contains_after_push;

                    }
                    assert(member(before, g, x) <==> grants_to(users, g, x) && seen.contains(x));
                }
                assert forall|g: u32| #[trigger] relation@.contains_key(g) implies exists|x: u32|
                    member(relation@, g, x) by {
                    if before.contains_key(g) {
                        let x = choose|x: u32| member(before, g, x);
                        assert(member(relation@, g, x));
                    } else {
                        assert(member(relation@, g, id));
                    }
                }
            }
            i = i + 1;
        }
        proof {
            assert(ids@.take(i as int) =~= ids@);
            let goal = grant_relation(users);
            assert forall|g: u32, x: u32| #[trigger] member(relation@, g, x) <==> grants_to(users, g, x) by {
                if grants_to(users, g, x) {
                    assert(ids@.contains(x));
                }
            }
            assert forall|g: u32| relation@.contains_key(g) <==> goal.contains_key(g) by {
                if relation@.contains_key(g) {
                    let x = choose|x: u32| member(relation@, g, x);
                    assert(grants_to(users, g, x));
                }
                if goal.contains_key(g) {
                    let x = choose|x: u32| #[trigger] grants_to(users, g, x);
                    assert(member(relation@, g, x));
                }
            }
            assert forall|g: u32| relation@.contains_key(g) implies relation@[g] == goal[g] by {
                assert forall|x: u32| relation@[g].contains(x) <==> goal[g].contains(x) by {
                    assert(member(relation@, g, x) <==> grants_to(users, g, x));
                }
                assert(relation@[g] =~= goal[g]);
            }
            assert(relation@ =~= goal);
        }
        self.user_grant_relation = relation;
        assert(self@ =~= (UserManagerModel {
            user_grant_relation: grant_relation(users),
            ..old(self)@
        }));
    }

    /// Adds those who have granted something to one user.
    fn add_grantors(relation: &mut IdMap<IdSet>, info: &UserInfo, id: u32)
        ensures
            grantors_added(old(relation)@, final(relation)@, id, |g: u32| has_granted(info@, g)),
    {
        let ghost before = relation@;
        let ghost q = info@.grant_privileges;
        let mut i: usize = 0;
        while i < info.grant_privileges.len()
            invariant
                i <= q.len(),
                q == info@.grant_privileges,
                q == views(info.grant_privileges@),
                grantors_added(before, relation@, id, |g: u32| granted_before(q, i as int, 0, g)),
            decreases info.grant_privileges.len() - i,
        {
            let actions = &info.grant_privileges[i].action_with_opts;
            assert(actions@ == q[i as int].action_with_opts);
            let mut j: usize = 0;
            while j < actions.len()
                invariant
                    j <= actions.len(),
                    i < q.len(),
                    actions@ == q[i as int].action_with_opts,
                    grantors_added(
                        before,
                        relation@,
                        id,
                        |g: u32| granted_before(q, i as int, j as int, g),
                    ),
                decreases actions.len() - j,
            {
                let grantor: u32 = actions[j].granted_by;
                let ghost middle = relation@;
                let mut set = match relation.get(grantor) {
                    Some(set) => set.duplicate(),
                    None => IdSet::new(),
                };
                set.insert(id);
                relation.insert(grantor, set);
                proof {
                    let old_granted = |g: u32| granted_before(q, i as int, j as int, g);
                    let granted = |g: u32| granted_before(q, i as int, j + 1, g);
                    assert forall|g: u32| #[trigger] granted(g) <==> old_granted(g) || g == grantor by {
                        lemma_granted_next(q, i as int, j as int, g);
                    }
                    assert forall|g: u32, x: u32| #[trigger]
                        member(relation@, g, x) <==> member(before, g, x) || (x == id && granted(g)) by {
                        assert(member(middle, g, x) <==> member(before, g, x) || (x == id
                            && old_granted(g)));
                        assert(granted(g) <==> old_granted(g) || g == grantor);
                    }
                    assert forall|g: u32| #[trigger]
                        relation@.contains_key(g) <==> before.contains_key(g) || granted(g) by {
                        assert(middle.contains_key(g) <==> before.contains_key(g) || old_granted(g));
                        assert(granted(g) <==> old_granted(g) || g == grantor);
                    }
                }
                j = j + 1;
            }
            proof {
                let row = |g: u32| granted_before(q, i as int, j as int, g);
                let granted = |g: u32| granted_before(q, i + 1, 0, g);
                assert forall|g: u32| #[trigger] granted(g) <==> row(g) by {
                    lemma_granted_row(q, i as int, g);
                }
                assert(grantors_added(before, relation@, id, row));
                assert(grantors_added(before, relation@, id, granted));
            }
            i = i + 1;
        }
        proof {
            let seen = |g: u32| granted_before(q, i as int, 0, g);
            let granted = |g: u32| has_granted(info@, g);
            assert(grantors_added(before, relation@, id, seen));
            assert forall|g: u32| #[trigger] granted(g) <==> seen(g) by {
                if has_granted(info@, g) {
                    let (a, b) = choose|a: int, b: int|
                        0 <= a < info@.grant_privileges.len() && 0 <= b
                            < info@.grant_privileges[a].action_with_opts.len() && (
                        #[trigger] info@.grant_privileges[a].action_with_opts[b]).granted_by == g;
                    assert(before_at(q, i as int, 0, a, b));
                    assert(q[a].action_with_opts[b].granted_by == g);
                }
                if granted_before(q, i as int, 0, g) {
                    let (a, b) = choose|a: int, b: int|
                        before_at(q, i as int, 0, a, b) && (#[trigger] q[a].action_with_opts[b]).granted_by
                            == g;
                    assert(info@.grant_privileges[a].action_with_opts[b].granted_by == g);
                }
            }
            assert(grantors_added(before, relation@, id, granted));
        }
    }
}

/// The action at `(a, b)` stands before the one at `(i, j)`.
spec fn before_at(q: Seq<GrantPrivilegeModel>, i: int, j: int, a: int, b: int) -> bool {
    &&& 0 <= a < q.len()
    &&& 0 <= b < q[a].action_with_opts.len()
    &&& a < i || (a == i && b < j)
}

/// `g` granted one of the actions before `(i, j)`.
spec fn granted_before(q: Seq<GrantPrivilegeModel>, i: int, j: int, g: u32) -> bool {
    exists|a: int, b: int|
        before_at(q, i, j, a, b) && (#[trigger] q[a].action_with_opts[b]).granted_by == g
}

proof fn lemma_granted_next(q: Seq<GrantPrivilegeModel>, i: int, j: int, g: u32)
    requires
        0 <= i < q.len(),
        0 <= j < q[i].action_with_opts.len(),
    ensures
        granted_before(q, i, j + 1, g) <==> granted_before(q, i, j, g)
            || q[i].action_with_opts[j].granted_by == g,
{
    if granted_before(q, i, j + 1, g) {
        let (a, b) = choose|a: int, b: int|
            before_at(q, i, j + 1, a, b) && (#[trigger] q[a].action_with_opts[b]).granted_by == g;
        if !(a == i && b == j) {
            assert(before_at(q, i, j, a, b));
            assert(q[a].action_with_opts[b].granted_by == g);
        }
    }
    if granted_before(q, i, j, g) {
        let (a, b) = choose|a: int, b: int|
            before_at(q, i, j, a, b) && (#[trigger] q[a].action_with_opts[b]).granted_by == g;
        assert(before_at(q, i, j + 1, a, b));
        assert(q[a].action_with_opts[b].granted_by == g);
    }
    if q[i].action_with_opts[j].granted_by == g {
        assert(before_at(q, i, j + 1, i, j));
    }
}

proof fn lemma_granted_row(q: Seq<GrantPrivilegeModel>, i: int, g: u32)
    requires
        0 <= i < q.len(),
    ensures
        granted_before(q, i, q[i].action_with_opts.len() as int, g) <==> granted_before(q, i + 1, 0, g),
{
    let n = q[i].action_with_opts.len() as int;
    if granted_before(q, i, n, g) {
        let (a, b) = choose|a: int, b: int|
            before_at(q, i, n, a, b) && (#[trigger] q[a].action_with_opts[b]).granted_by == g;
        assert(before_at(q, i + 1, 0, a, b));
        assert(q[a].action_with_opts[b].granted_by == g);
    }
    if granted_before(q, i + 1, 0, g) {
        let (a, b) = choose|a: int, b: int|
            before_at(q, i + 1, 0, a, b) && (#[trigger] q[a].action_with_opts[b]).granted_by == g;
        assert(before_at(q, i, n, a, b));
        assert(q[a].action_with_opts[b].granted_by == g);
    }
}

/// The privileges name their objects, up to the first that `revoker` may not revoke. Super users
/// need not name them.
pub open spec fn revokes_named(
    db: DatabaseManagerModel,
    revoker: UserInfoModel,
    same_user: bool,
    privileges: Seq<GrantPrivilegeModel>,
) -> bool {
    revoker.is_super || forall|i: int|
        0 <= i < privileges.len() && revokes_refusal(db, revoker, same_user, privileges.take(i)) is None
            ==> (#[trigger] privileges[i]).object is Some
}

/// The privileges name their objects where a revocation looks at them: the one who revokes is
/// known.
pub open spec fn revoke_presumes(
    c: CatalogManagerCoreModel,
    privileges: Seq<GrantPrivilegeModel>,
    granted_by: u32,
    revoke_by: u32,
) -> bool {
    let users = c.user.user_info;
    users.contains_key(revoke_by) ==> revokes_named(
        c.database,
        users[revoke_by],
        granted_by == users[revoke_by].id,
        privileges,
    )
}

impl CatalogManager {
    /// Checks that `revoker`, who is no super user, may revoke one privilege.
    fn check_revoke(
        db: &DatabaseManager,
        revoker: &UserInfo,
        same_user: bool,
        privilege: &GrantPrivilege,
    ) -> (r: MetaResult<()>)
        requires
            privilege@.object is Some,
        ensures
            match revoke_refusal(db@, revoker@, same_user, privilege@) {
                Some(e) => r is Err && r->Err_0@ == e,
                None => r is Ok,
            },
    {
        let object = match privilege.object {
            Some(object) => object,
            None => {
                return Ok(());
            },
        };
        match Self::check_owner(db, &object, revoker.id) {
            Err(e) => {
                return Err(e);
            },
            Ok(owns) => {
                if !owns {
                    let k: usize = find_privilege(&revoker.grant_privileges, privilege.object);
                    if k >= revoker.grant_privileges.len() {
                        return Err(MetaError::RevokerLacksPrivilege(revoker.name.clone()));
                    }
                    if !Self::check_privilege(&revoker.grant_privileges[k], privilege, same_user) {
                        return Err(MetaError::RevokeWithoutPermission(revoker.name.clone()));
                    }
                }
            },
        }
        Ok(())
    }

    /// Checks that `revoker` may revoke the privileges.
    fn check_revokes(
        db: &DatabaseManager,
        revoker: &UserInfo,
        same_user: bool,
        privileges: &Vec<GrantPrivilege>,
    ) -> (r: MetaResult<()>)
        requires
            revokes_named(db@, revoker@, same_user, views(privileges@)),
        ensures
            match revokes_refusal(db@, revoker@, same_user, views(privileges@)) {
                Some(e) => r is Err && r->Err_0@ == e,
                None => r is Ok,
            },
    {
        if revoker.is_super {
            return Ok(());
        }
        let ghost q = views(privileges@);
        let mut i: usize = 0;
        assert(q.take(0) =~= Seq::<GrantPrivilegeModel>::empty());
        while i < privileges.len()
            invariant
                i <= privileges.len(),
                !revoker.is_super,
                q == views(privileges@),
                revokes_named(db@, revoker@, same_user, q),
                revokes_refusal(db@, revoker@, same_user, q.take(i as int)) is None,
            decreases privileges.len() - i,
        {
            proof {
                assert(q[i as int].object is Some);
                assert(q.take(i + 1).drop_last() =~= q.take(i as int));
                assert(q.take(i + 1).last() == q[i as int]);
            }
            match Self::check_revoke(db, revoker, same_user, &privileges[i]) {
                Err(e) => {
                    proof {
                        lemma_revokes_refusal(db@, revoker@, same_user, q, i + 1);
                    }
                    return Err(e);
                },
                Ok(_) => {},
            }
            i = i + 1;
        }
        assert(q.take(i as int) =~= q);
        Ok(())
    }

    /// Tells whether the privileges name their objects, up to the first that may not be revoked.
    fn can_check_revokes(
        db: &DatabaseManager,
        revoker: &UserInfo,
        same_user: bool,
        privileges: &Vec<GrantPrivilege>,
    ) -> (r: bool)
        ensures
            r == revokes_named(db@, revoker@, same_user, views(privileges@)),
    {
        if revoker.is_super {
            return true;
        }
        let ghost q = views(privileges@);
        let mut i: usize = 0;
        assert(q.take(0) =~= Seq::<GrantPrivilegeModel>::empty());
        while i < privileges.len()
            invariant
                i <= privileges.len(),
                !revoker.is_super,
                q == views(privileges@),
                forall|k: int| 0 <= k < i ==> (#[trigger] q[k]).object is Some,
                revokes_refusal(db@, revoker@, same_user, q.take(i as int)) is None,
            decreases privileges.len() - i,
        {
            proof {
                assert(q[i as int] == privileges@[i as int]@);
                assert(q.take(i + 1).drop_last() =~= q.take(i as int));
                assert(q.take(i + 1).last() == q[i as int]);
            }
            if privileges[i].object.is_none() {
                return false;
            }
            if Self::check_revoke(db, revoker, same_user, &privileges[i]).is_err() {
                proof {
                    assert forall|k: int|
                        0 <= k < q.len() && revokes_refusal(db@, revoker@, same_user, q.take(k)) is None implies (
                    #[trigger] q[k]).object is Some by {
                        if k > i {
                            assert(q.take(k).take(i + 1) =~= q.take(i + 1));
                            lemma_revokes_refusal(db@, revoker@, same_user, q.take(k), i + 1);
                        }
                    }
                }
                return true;
            }
            i = i + 1;
        }
        true
    }

    /// Tells whether [`Self::revoke_privilege`] can be called.
    pub fn can_revoke(
        &self,
        revoke_grant_privileges: &Vec<GrantPrivilege>,
        granted_by: u32,
        revoke_by: u32,
    ) -> (r: bool)
        ensures
            r == revoke_presumes(self@, views(revoke_grant_privileges@), granted_by, revoke_by),
    {
        match self.core.user.user_info.get(revoke_by) {
            Some(revoker) => Self::can_check_revokes(
                &self.core.database,
                revoker,
                granted_by == revoker.id,
                revoke_grant_privileges,
            ),
            None => true,
        }
    }

    /// Revokes privileges from a user's privileges; tells whether something was touched, and
    /// whether a privilege is left that allows nothing.
    fn revoke_from(
        privileges: &mut Vec<GrantPrivilege>,
        revoke: &Vec<GrantPrivilege>,
        only_option: bool,
    ) -> (r: (bool, bool))
        ensures
            ({
                let e = revoke_all(views(old(privileges)@), views(revoke@), only_option);
                views(final(privileges)@) == e.privileges && r.0 == e.touched && r.1 == e.emptied
            }),
    {
        let ghost before = views(privileges@);
        let ghost q = views(revoke@);
        let mut touched: bool = false;
        let mut emptied: bool = false;
        let mut i: usize = 0;
        assert(q.take(0) =~= Seq::<GrantPrivilegeModel>::empty());
        while i < revoke.len()
            invariant
                i <= revoke.len(),
                q == views(revoke@),
                revoke_all(before, q.take(i as int), only_option) == (Revocation {
                    privileges: views(privileges@),
                    touched,
                    emptied,
                }),
            decreases revoke.len() - i,
        {
            proof {
                assert(q.take(i + 1).drop_last() =~= q.take(i as int));
                assert(q.take(i + 1).last() == revoke@[i as int]@);
                lemma_privilege_on(views(privileges@), revoke@[i as int]@.object);
            }
            let ghost current = views(privileges@);
            let k: usize = find_privilege(privileges, revoke[i].object);
            if k < privileges.len() {
                let mut privilege = privileges[k].duplicate();
                let hit: bool = Self::revoke_privilege_inner(&mut privilege, &revoke[i], only_option);
                if hit {
                    touched = true;
                }
                if privilege.action_with_opts.len() == 0 {
                    emptied = true;
                }
                let ghost left = privilege@;
                privileges.set(k, privilege);
                assert(views(privileges@) =~= current.update(k as int, left));
            }
            i = i + 1;
        }
        assert(q.take(i as int) =~= q);
        (touched, emptied)
    }

    /// Those to whom a user has granted something and who are not yet visited.
    fn next_users(
        users: &IdMap<UserInfo>,
        relation: &IdMap<IdSet>,
        id: u32,
        visited: &IdSet,
    ) -> (r: Vec<u32>)
        ensures
            r@ == if relation@.contains_key(id) {
                listing(relation@[id]).filter(
                    |n: u32| users@.contains_key(n) && !visited@.contains(n),
                )
            } else {
                Seq::empty()
            },
    {
        let mut r: Vec<u32> = Vec::new();
        match relation.get(id) {
            Some(set) => {
                let ids = set.ids();
                let ghost p = |n: u32| users@.contains_key(n) && !visited@.contains(n);
                let mut i: usize = 0;
                proof {
                    reveal(Seq::filter);
                    assert(ids@.take(0) =~= Seq::<u32>::empty());
                }
                while i < ids.len()
                    invariant
                        i <= ids.len(),
                        p == (|n: u32| users@.contains_key(n) && !visited@.contains(n)),
                        r@ == ids@.take(i as int).filter(p),
                    decreases ids.len() - i,
                {
                    let n: u32 = ids[i];
                    proof {
                        reveal(Seq::filter);
                        assert(ids@.take(i + 1).drop_last() =~= ids@.take(i as int));
                        assert(ids@.take(i + 1).last() == n);
                    }
                    if users.contains_key(n) && !visited.contains(n) {
                        r.push(n);
                    }
                    i = i + 1;
                }
                assert(ids@.take(i as int) =~= ids@);
            },
            None => {
                assert(r@ =~= Seq::<u32>::empty());
            },
        }
        r
    }

    /// The first of the named users from whom nothing can be revoked.
    fn check_revokees(users: &IdMap<UserInfo>, user_ids: &Vec<u32>) -> (r: MetaResult<()>)
        ensures
            match users_refusal(users@, user_ids@) {
                Some(e) => r is Err && r->Err_0@ == e,
                None => r is Ok,
            },
    {
        let mut i: usize = 0;
        assert(user_ids@.skip(0) =~= user_ids@);
        while i < user_ids.len()
            invariant
                i <= user_ids.len(),
                users_refusal(users@, user_ids@) == users_refusal(users@, user_ids@.skip(i as int)),
            decreases user_ids.len() - i,
        {
            let id: u32 = user_ids[i];
            let ghost rest = user_ids@.skip(i as int);
            proof {
                assert(rest[0] == id);
                assert(rest.drop_first() =~= user_ids@.skip(i + 1));
            }
            match users.get(id) {
                Some(user) => {
                    if user.is_super {
                        return Err(MetaError::RevokeFromSuperUser(id));
                    }
                },
                None => {
                    return Err(MetaError::CatalogIdNotFound(CatalogKind::User, id));
                },
            }
            i = i + 1;
        }
        Ok(())
    }

    /// Revokes privileges from the named users and, with cascade, from those to whom they have
    /// granted them.
    pub fn revoke_privilege(
        &mut self,
        user_ids: &Vec<u32>,
        revoke_grant_privileges: &Vec<GrantPrivilege>,
        granted_by: u32,
        revoke_by: u32,
        revoke_grant_option: bool,
        cascade: bool,
    ) -> (r: MetaResult<Vec<Notification>>)
        requires
            revoke_presumes(
                old(self)@,
                views(revoke_grant_privileges@),
                granted_by,
                revoke_by,
            ),
        ensures
            match revoke_result(
                old(self)@,
                user_ids@,
                views(revoke_grant_privileges@),
                granted_by,
                revoke_by,
                revoke_grant_option,
                cascade,
            ) {
                Ok((c, messages)) => r is Ok && views(r->Ok_0@) == messages && final(self)@ == c,
                Err(e) => r is Err && r->Err_0@ == e && final(self)@ == old(self)@,
            },
    {
        let ghost c = self@;
        match self.core.user.user_info.get(revoke_by) {
            Some(revoker) => {
                let same_user: bool = granted_by == revoker.id;
                match Self::check_revokes(
                    &self.core.database,
                    revoker,
                    same_user,
                    revoke_grant_privileges,
                ) {
                    Err(e) => {
                        return Err(e);
                    },
                    Ok(_) => {},
                }
            },
            None => {
                return Err(MetaError::CatalogIdNotFound(CatalogKind::User, revoke_by));
            },
        }
        match Self::check_revokees(&self.core.user.user_info, user_ids) {
            Err(e) => {
                return Err(e);
            },
            Ok(_) => {},
        }
        let ghost request = RevokeRequest {
            users: c.user.user_info,
            relation: c.user.user_grant_relation,
            revoke: views(revoke_grant_privileges@),
            user_ids: user_ids@,
            only_option: revoke_grant_option,
            cascade,
        };
        let mut users = self.core.user.user_info.duplicate();
        let mut updated: Vec<UserInfo> = Vec::new();
        let mut visited = IdSet::new();
        let mut queue: Vec<u32> = crate::util::id_map::copy_all(user_ids);
        let mut head: usize = 0;
        let ghost goal = revoke_along(
            request,
            RevokeState {
                users: c.user.user_info,
                updated: Seq::empty(),
                visited: Set::empty(),
            },
            user_ids@,
        );
        proof {
            assert(queue@.skip(0) =~= user_ids@);
            assert(views(updated@) =~= Seq::<UserInfoModel>::empty());
        }
        while head < queue.len()
            invariant
                head <= queue.len(),
                self@ == c,
                c == old(self)@,
                request == (RevokeRequest {
                    users: c.user.user_info,
                    relation: c.user.user_grant_relation,
                    revoke: views(revoke_grant_privileges@),
                    user_ids: user_ids@,
                    only_option: revoke_grant_option,
                    cascade,
                }),
                goal is Err ==> revoke_result(
                    c,
                    user_ids@,
                    views(revoke_grant_privileges@),
                    granted_by,
                    revoke_by,
                    revoke_grant_option,
                    cascade,
                ) == Err::<(CatalogManagerCoreModel, Seq<NotificationModel>), MetaErrorModel>(
                    goal->Err_0,
                ),
                goal == revoke_along(
                    request,
                    RevokeState {
                        users: users@,
                        updated: views(updated@),
                        visited: visited@,
                    },
                    queue@.skip(head as int),
                ),
            decreases remaining(visited@), queue.len() - head,
        {
            let id: u32 = queue[head];
            let ghost rest = queue@.skip(head as int);
            proof {
                assert(rest[0] == id);
                assert(rest.drop_first() =~= queue@.skip(head + 1));
            }
            head = head + 1;
            if visited.contains(id) {
                continue;
            }
            match self.core.user.user_info.get(id) {
                None => {},
                Some(info) => {
                    let ghost seen = visited@;
                    visited.insert(id);
                    proof {
                        lemma_remaining(seen, visited@);
                        assert(visited@.contains(id));
                    }
                    let named_user: bool = contains_id(user_ids, id);
                    let mut user = info.duplicate();
                    let (touched, emptied) = Self::revoke_from(
                        &mut user.grant_privileges,
                        revoke_grant_privileges,
                        revoke_grant_option && named_user,
                    );
                    if touched {
                        if !cascade && !named_user {
                            return Err(MetaError::RevokeRestricted(info.name.clone()));
                        }
                        let mut more = Self::next_users(
                            &self.core.user.user_info,
                            &self.core.user.user_grant_relation,
                            id,
                            &visited,
                        );
                        let ghost added = more@;
                        let ghost old_queue = queue@;
                        queue.append(&mut more);
                        assert(queue@.skip(head as int) =~= rest.drop_first() + added);
                        if emptied {
                            let f = |x: &GrantPrivilege| -> (b: bool)
                                ensures
                                    b == allows_something()(x@),
                            {
                                x.action_with_opts.len() != 0
                            };
                            user.grant_privileges =
                            keep(&user.grant_privileges, f, Ghost(allows_something()));
                        }
                        let ghost before = updated@;
                        updated.push(user.duplicate());
                        assert(views(updated@) =~= views(before).push(user@));
                        assert(user@ =~= user_after(c.user.user_info[id], request.effect(id)));
                        users.insert(id, user);
                    }
                },
            }
        }
        assert(queue@.skip(head as int) =~= Seq::<u32>::empty());
        self.core.user.user_info = users;
        self.core.user.build_grant_relation_map();
        Ok(notify_users(updated))
    }
}

} // verus!
