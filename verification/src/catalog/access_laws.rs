//! What holds of whole requests to grant and to revoke: who may make them, whom they reach, and what
//! the users have afterwards.

use vstd::prelude::*;

use crate::catalog::drop::{lemma_remaining, remaining};
use crate::catalog::effects::kept_but;
use crate::catalog::grant::{grant_refusal, grant_result, granted_all, granted_to, grants_refusal};
use crate::catalog::notify::{Audience, Operation};
use crate::catalog::privilege::user_updates;
use crate::catalog::privilege_laws::{
    law_grant_takes_nothing, law_granted_is_permitted, law_revocation_follows_grants, passes_on,
    permits, relation_finite,
};
use crate::catalog::revoke::{
    grant_relation, grants_to, has_granted, mentions, revoke_along, revoke_refusal, revoke_result,
    revoked, revokes_refusal, user_after, users_refusal, RevokeRequest, RevokeState,
};
use crate::catalog::state::{CatalogManagerCoreModel, DatabaseManagerModel};
use crate::catalog::types::{
    ActionWithGrantOption, GrantPrivilegeModel, Object, UserInfoModel,
};
use crate::util::ids::{lemma_listing_exists, listing};

verus! {

// ---------------------------------------------------------------------------
// Who may.
// ---------------------------------------------------------------------------

/// The owner of an object is that of the object of the kind and the identifier that are named; an object
/// that is not known has none.
pub proof fn law_owner_of_an_object(db: DatabaseManagerModel, id: u32)
    ensures
        db.object_owner(Object::DatabaseId(id)) is Ok <==> db.databases.contains_key(id),
        db.databases.contains_key(id) ==> db.object_owner(Object::DatabaseId(id))->Ok_0
            == db.databases[id].owner,
        db.object_owner(Object::SchemaId(id)) is Ok <==> db.schemas.contains_key(id),
        db.schemas.contains_key(id) ==> db.object_owner(Object::SchemaId(id))->Ok_0
            == db.schemas[id].owner,
        db.object_owner(Object::TableId(id)) is Ok <==> db.tables.contains_key(id),
        db.tables.contains_key(id) ==> db.object_owner(Object::TableId(id))->Ok_0
            == db.tables[id].owner,
        db.object_owner(Object::SourceId(id)) is Ok <==> db.sources.contains_key(id),
        db.sources.contains_key(id) ==> db.object_owner(Object::SourceId(id))->Ok_0
            == db.sources[id].owner,
        db.object_owner(Object::SinkId(id)) is Ok <==> db.sinks.contains_key(id),
        db.sinks.contains_key(id) ==> db.object_owner(Object::SinkId(id))->Ok_0 == db.sinks[id].owner,
        db.object_owner(Object::ViewId(id)) is Ok <==> db.views.contains_key(id),
        db.views.contains_key(id) ==> db.object_owner(Object::ViewId(id))->Ok_0 == db.views[id].owner,
        db.object_owner(Object::FunctionId(id)) is Ok <==> db.functions.contains_key(id),
        db.functions.contains_key(id) ==> db.object_owner(Object::FunctionId(id))->Ok_0
            == db.functions[id].owner,
        db.object_owner(Object::SubscriptionId(id)) is Ok <==> db.subscriptions.contains_key(id),
        db.subscriptions.contains_key(id) ==> db.object_owner(Object::SubscriptionId(id))->Ok_0
            == db.subscriptions[id].owner,
{
}

/// Someone may pass a privilege on: the object is known, and they own it or have the privilege
/// themselves, with the right to grant it where that is needed.
pub open spec fn may_pass_on(
    db: DatabaseManagerModel,
    who: u32,
    privileges: Seq<GrantPrivilegeModel>,
    wanted: GrantPrivilegeModel,
    need_grant_option: bool,
) -> bool {
    let owner = db.object_owner(wanted.object->0);
    owner is Ok && (owner->Ok_0 == who || permits(privileges, wanted, need_grant_option))
}

/// Privileges may be granted by a super user, and by whoever owns the object of each or has each with
/// the right to grant it; by nobody else.
pub proof fn law_who_may_grant(
    db: DatabaseManagerModel,
    info: UserInfoModel,
    grantor: u32,
    new: Seq<GrantPrivilegeModel>,
)
    ensures
        grants_refusal(db, info, grantor, new) is None <==> info.is_super || forall|i: int|
            0 <= i < new.len() ==> may_pass_on(
                db,
                grantor,
                info.grant_privileges,
                #[trigger] new[i],
                true,
            ),
    decreases new.len(),
{
    if !info.is_super && new.len() > 0 {
        let d = new.drop_last();
        law_who_may_grant(db, info, grantor, d);
        assert forall|i: int| 0 <= i < d.len() implies #[trigger] d[i] == new[i] by {}
        assert(new[new.len() - 1] == new.last());
        assert(grant_refusal(db, info, grantor, new.last()) is None <==> may_pass_on(
            db,
            grantor,
            info.grant_privileges,
            new.last(),
            true,
        ));
        if grants_refusal(db, info, grantor, d) is None && may_pass_on(
            db,
            grantor,
            info.grant_privileges,
            new.last(),
            true,
        ) {
            assert forall|i: int| 0 <= i < new.len() implies may_pass_on(
                db,
                grantor,
                info.grant_privileges,
                #[trigger] new[i],
                true,
            ) by {
                if i < d.len() {
                    assert(d[i] == new[i]);
                }
            }
        }
        if forall|i: int|
            0 <= i < new.len() ==> may_pass_on(
                db,
                grantor,
                info.grant_privileges,
                #[trigger] new[i],
                true,
            ) {
            assert forall|i: int| 0 <= i < d.len() implies may_pass_on(
                db,
                grantor,
                info.grant_privileges,
                #[trigger] d[i],
                true,
            ) by {
                assert(d[i] == new[i]);
            }
        }
    }
}

/// Privileges may be revoked by a super user, and by whoever owns the object of each or has each
/// themselves, with the right to grant it where they revoke what they granted; by nobody else.
pub proof fn law_who_may_revoke(
    db: DatabaseManagerModel,
    revoker: UserInfoModel,
    same_user: bool,
    privileges: Seq<GrantPrivilegeModel>,
)
    ensures
        revokes_refusal(db, revoker, same_user, privileges) is None <==> revoker.is_super || forall|i: int|
            0 <= i < privileges.len() ==> may_pass_on(
                db,
                revoker.id,
                revoker.grant_privileges,
                #[trigger] privileges[i],
                same_user,
            ),
    decreases privileges.len(),
{
    if !revoker.is_super && privileges.len() > 0 {
        let d = privileges.drop_last();
        law_who_may_revoke(db, revoker, same_user, d);
        assert forall|i: int| 0 <= i < d.len() implies #[trigger] d[i] == privileges[i] by {}
        assert(privileges[privileges.len() - 1] == privileges.last());
        let last = may_pass_on(
            db,
            revoker.id,
            revoker.grant_privileges,
            privileges.last(),
            same_user,
        );
        assert(revoke_refusal(db, revoker, same_user, privileges.last()) is None <==> last);
        if revokes_refusal(db, revoker, same_user, d) is None && last {
            assert forall|i: int| 0 <= i < privileges.len() implies may_pass_on(
                db,
                revoker.id,
                revoker.grant_privileges,
                #[trigger] privileges[i],
                same_user,
            ) by {
                if i < d.len() {
                    assert(d[i] == privileges[i]);
                }
            }
        }
        if forall|i: int|
            0 <= i < privileges.len() ==> may_pass_on(
                db,
                revoker.id,
                revoker.grant_privileges,
                #[trigger] privileges[i],
                same_user,
            ) {
            assert forall|i: int| 0 <= i < d.len() implies may_pass_on(
                db,
                revoker.id,
                revoker.grant_privileges,
                #[trigger] d[i],
                same_user,
            ) by {
                assert(d[i] == privileges[i]);
            }
        }
    }
}

/// Nothing is revoked from someone who is not known or is a super user.
pub proof fn law_whom_nothing_is_revoked_from(users: Map<u32, UserInfoModel>, user_ids: Seq<u32>)
    ensures
        users_refusal(users, user_ids) is None <==> forall|i: int|
            0 <= i < user_ids.len() ==> users.contains_key(#[trigger] user_ids[i])
                && !users[user_ids[i]].is_super,
    decreases user_ids.len(),
{
    if user_ids.len() > 0 {
        let d = user_ids.drop_first();
        law_whom_nothing_is_revoked_from(users, d);
        assert forall|i: int| 0 <= i < d.len() implies #[trigger] d[i] == user_ids[i + 1] by {}
        if users_refusal(users, d) is None && users.contains_key(user_ids[0])
            && !users[user_ids[0]].is_super {
            assert forall|i: int| 0 <= i < user_ids.len() implies users.contains_key(
                #[trigger] user_ids[i],
            ) && !users[user_ids[i]].is_super by {
                if i > 0 {
                    assert(d[i - 1] == user_ids[i]);
                }
            }
        }
        if forall|i: int|
            0 <= i < user_ids.len() ==> users.contains_key(#[trigger] user_ids[i])
                && !users[user_ids[i]].is_super {
            assert forall|i: int| 0 <= i < d.len() implies users.contains_key(#[trigger] d[i])
                && !users[d[i]].is_super by {
                assert(d[i] == user_ids[i + 1]);
            }
            assert(users.contains_key(user_ids[0]));
        }
    }
}

// ---------------------------------------------------------------------------
// Grants.
// ---------------------------------------------------------------------------

/// The user has every one of the privileges, and everything that they had before.
pub open spec fn has_all(
    before: UserInfoModel,
    after: UserInfoModel,
    new: Seq<GrantPrivilegeModel>,
) -> bool {
    &&& after == (UserInfoModel { grant_privileges: after.grant_privileges, ..before })
    &&& forall|i: int|
        0 <= i < new.len() ==> permits(after.grant_privileges, #[trigger] new[i], false)
    &&& forall|wanted: GrantPrivilegeModel, option: bool|
        permits(before.grant_privileges, wanted, option) ==> #[trigger] permits(
            after.grant_privileges,
            wanted,
            option,
        )
}

proof fn lemma_has_all(before: UserInfoModel, mid: UserInfoModel, new: Seq<GrantPrivilegeModel>)
    requires
        mid == before || has_all(before, mid, new),
    ensures
        has_all(
            before,
            UserInfoModel { grant_privileges: granted_all(mid.grant_privileges, new), ..mid },
            new,
        ),
{
    let after = UserInfoModel { grant_privileges: granted_all(mid.grant_privileges, new), ..mid };
    assert forall|i: int| 0 <= i < new.len() implies permits(
        after.grant_privileges,
        #[trigger] new[i],
        false,
    ) by {
        law_granted_is_permitted(mid.grant_privileges, new, i);
    }
    assert forall|wanted: GrantPrivilegeModel, option: bool|
        permits(before.grant_privileges, wanted, option) implies #[trigger] permits(
        after.grant_privileges,
        wanted,
        option,
    ) by {
        assert(permits(mid.grant_privileges, wanted, option));
        law_grant_takes_nothing(mid.grant_privileges, new, wanted, option);
    }
}

proof fn lemma_granted_to(
    db: DatabaseManagerModel,
    users: Map<u32, UserInfoModel>,
    info: UserInfoModel,
    grantor: u32,
    new: Seq<GrantPrivilegeModel>,
    user_ids: Seq<u32>,
)
    ensures
        match granted_to(db, users, info, grantor, new, user_ids) {
            Ok((after, updated)) => {
                &&& after.dom() == users.dom()
                &&& forall|x: u32| #[trigger]
                    users.contains_key(x) ==> if user_ids.contains(x) {
                        has_all(users[x], after[x], new) && !users[x].is_super
                    } else {
                        after[x] == users[x]
                    }
                &&& forall|i: int| 0 <= i < user_ids.len() ==> users.contains_key(#[trigger] user_ids[i])
                &&& updated.len() == user_ids.len()
                &&& forall|i: int|
                    0 <= i < user_ids.len() ==> has_all(
                        users[user_ids[i]],
                        #[trigger] updated[i],
                        new,
                    )
                &&& user_ids.len() > 0 ==> updated.last() == after[user_ids.last()]
                &&& user_ids.len() > 0 ==> grants_refusal(db, info, grantor, new) is None
            },
            Err(_) => (exists|i: int|
                0 <= i < user_ids.len() && !users.contains_key(#[trigger] user_ids[i])) || (exists|i: int|
                0 <= i < user_ids.len() && users[#[trigger] user_ids[i]].is_super) || grants_refusal(
                db,
                info,
                grantor,
                new,
            ) is Some,
        },
    decreases user_ids.len(),
{
    if user_ids.len() > 0 {
        let d = user_ids.drop_last();
        let id = user_ids.last();
        lemma_granted_to(db, users, info, grantor, new, d);
        assert(user_ids[user_ids.len() - 1] == id);
        assert forall|i: int| 0 <= i < d.len() implies #[trigger] d[i] == user_ids[i] by {}
        match granted_to(db, users, info, grantor, new, d) {
            Err(_) => {
                if exists|i: int| 0 <= i < d.len() && !users.contains_key(#[trigger] d[i]) {
                    let i = choose|i: int| 0 <= i < d.len() && !users.contains_key(#[trigger] d[i]);
                    assert(!users.contains_key(user_ids[i]));
                }
                if exists|i: int| 0 <= i < d.len() && users[#[trigger] d[i]].is_super {
                    let i = choose|i: int| 0 <= i < d.len() && users[#[trigger] d[i]].is_super;
                    assert(users[user_ids[i]].is_super);
                }
            },
            Ok((so_far, updated)) => {
                assert(so_far.contains_key(id) <==> users.contains_key(id)) by {
                    assert(so_far.dom().contains(id) <==> users.dom().contains(id));
                }
                if !so_far.contains_key(id) {
                    assert(!users.contains_key(user_ids[user_ids.len() - 1]));
                } else if so_far[id].is_super {
                    assert(users[id].is_super);
                    assert(users[user_ids[user_ids.len() - 1]].is_super);
                } else if grants_refusal(db, info, grantor, new) is None {
                    let user = UserInfoModel {
                        grant_privileges: granted_all(so_far[id].grant_privileges, new),
                        ..so_far[id]
                    };
                    lemma_has_all(users[id], so_far[id], new);
                    let after = so_far.insert(id, user);
                    assert(after.dom() =~= users.dom());
                    assert forall|x: u32| #[trigger] users.contains_key(x) implies if user_ids.contains(
                        x,
                    ) {
                        has_all(users[x], after[x], new) && !users[x].is_super
                    } else {
                        after[x] == users[x]
                    } by {
                        if x == id {
                            assert(user_ids.contains(id));
                        } else {
                            assert(d.contains(x) <==> user_ids.contains(x)) by {
                                if d.contains(x) {
                                    let k = choose|k: int| 0 <= k < d.len() && d[k] == x;
                                    assert(user_ids[k] == x);
                                }
                                if user_ids.contains(x) {
                                    let k = choose|k: int|
                                        0 <= k < user_ids.len() && user_ids[k] == x;
                                    assert(d[k] == x);
                                }
                            }
                        }
                    }
                    let all = updated.push(user);
                    assert forall|i: int| 0 <= i < user_ids.len() implies has_all(
                        users[user_ids[i]],
                        #[trigger] all[i],
                        new,
                    ) by {
                        if i < d.len() {
                            assert(all[i] == updated[i]);
                            assert(d[i] == user_ids[i]);
                        }
                    }
                    assert forall|i: int| 0 <= i < user_ids.len() implies users.contains_key(
                        #[trigger] user_ids[i],
                    ) by {
                        if i < d.len() {
                            assert(users.contains_key(d[i]));
                        }
                    }
                }
            },
        }
    }
}

/// A grant reaches exactly the named users: each has all the privileges afterwards and loses none, and
/// nobody else changes. It is noted that the grantor has granted to them, and the frontends are told of
/// each. It is refused where the grantor may not grant, or where a user is not known or is a super user.
pub proof fn law_grant_reaches_the_users(
    c: CatalogManagerCoreModel,
    user_ids: Seq<u32>,
    new: Seq<GrantPrivilegeModel>,
    grantor: u32,
)
    ensures
        ({
            let users = c.user.user_info;
            let may = grants_refusal(c.database, users[grantor], grantor, new) is None;
            match grant_result(c, user_ids, new, grantor) {
                Ok((after, messages)) => {
                    &&& users.contains_key(grantor)
                    &&& user_ids.len() > 0 ==> may
                    &&& after.user.user_info.dom() == users.dom()
                    &&& forall|i: int|
                        0 <= i < user_ids.len() ==> users.contains_key(#[trigger] user_ids[i])
                    &&& forall|x: u32| #[trigger]
                        users.contains_key(x) ==> if user_ids.contains(x) {
                            has_all(users[x], after.user.user_info[x], new) && !users[x].is_super
                        } else {
                            after.user.user_info[x] == users[x]
                        }
                    &&& after.user.user_grant_relation.contains_key(grantor)
                    &&& forall|x: u32| #[trigger]
                        after.user.user_grant_relation[grantor].contains(x) <==> user_ids.contains(x)
                            || (c.user.user_grant_relation.contains_key(grantor)
                            && c.user.user_grant_relation[grantor].contains(x))
                    &&& kept_but(
                        c.user.user_grant_relation,
                        after.user.user_grant_relation,
                        set![grantor],
                    )
                    &&& messages.len() == user_ids.len()
                    &&& forall|i: int|
                        0 <= i < messages.len() ==> {
                            let n = #[trigger] messages[i];
                            &&& n.audience == Audience::Frontend
                            &&& n.operation == Operation::Update
                            &&& n.info is User
                            &&& has_all(users[user_ids[i]], n.info->User_0, new)
                        }
                    &&& after.user.catalog_create_ref_count == c.user.catalog_create_ref_count
                    &&& after.database == c.database
                },
                Err(_) => !users.contains_key(grantor) || !may || (exists|i: int|
                    0 <= i < user_ids.len() && !users.contains_key(#[trigger] user_ids[i])) || (exists|
                    i: int,
                |
                    0 <= i < user_ids.len() && users[#[trigger] user_ids[i]].is_super),
            }
        }),
{
    let users = c.user.user_info;
    lemma_granted_to(c.database, users, users[grantor], grantor, new, user_ids);
    if grant_result(c, user_ids, new, grantor) is Ok {
        let (after, messages) = grant_result(c, user_ids, new, grantor)->Ok_0;
        let updated = granted_to(c.database, users, users[grantor], grantor, new, user_ids)->Ok_0.1;
        assert forall|i: int| 0 <= i < messages.len() implies {
            let n = #[trigger] messages[i];
            &&& n.info is User
            &&& has_all(users[user_ids[i]], n.info->User_0, new)
        } by {
            assert(messages[i].info->User_0 == updated[i]);
        }
    }
}

// ---------------------------------------------------------------------------
// Revocations.
// ---------------------------------------------------------------------------

/// Revoking only the right to grant keeps every action, and takes the right from those that are named;
/// revoking the actions takes those that are named and keeps the others as they are.
pub proof fn law_what_a_revocation_takes(
    origin: GrantPrivilegeModel,
    revoke: GrantPrivilegeModel,
    a: ActionWithGrantOption,
)
    ensures
        ({
            let kept = revoked(origin, revoke, true);
            let left = revoked(origin, revoke, false);
            &&& kept.object == origin.object
            &&& left.object == origin.object
            &&& kept.action_with_opts.len() == origin.action_with_opts.len()
            &&& forall|i: int|
                0 <= i < origin.action_with_opts.len() ==> {
                    let before = origin.action_with_opts[i];
                    let after = #[trigger] kept.action_with_opts[i];
                    &&& after.action == before.action
                    &&& after.granted_by == before.granted_by
                    &&& mentions(revoke.action_with_opts, before.action) ==> !after.with_grant_option
                    &&& !mentions(revoke.action_with_opts, before.action) ==> after == before
                }
            &&& left.action_with_opts.contains(a) <==> origin.action_with_opts.contains(a) && !mentions(
                revoke.action_with_opts,
                a.action,
            )
        }),
{
    broadcast use vstd::seq_lib::group_filter_ensures;

    let q = origin.action_with_opts;
    let p = crate::catalog::revoke::not_mentioned(revoke.action_with_opts);
    if q.filter(p).contains(a) {
        let k = choose|k: int| 0 <= k < q.filter(p).len() && q.filter(p)[k] == a;
        assert(p(q.filter(p)[k]));
        q.lemma_filter_contains_rev(p, a);
    }
    if q.contains(a) && !mentions(revoke.action_with_opts, a.action) {
        let k = choose|k: int| 0 <= k < q.len() && q[k] == a;
        assert(q.filter(p).contains(q[k]));
    }
}

/// What is noted of grants is what the users have: someone is noted as having granted to another exactly
/// where the other has an action that they granted.
pub proof fn law_noted_grants_are_held(users: Map<u32, UserInfoModel>, grantor: u32, id: u32)
    ensures
        ({
            let r = grant_relation(users);
            let holds = users.contains_key(id) && exists|i: int, j: int|
                0 <= i < users[id].grant_privileges.len() && 0 <= j
                    < users[id].grant_privileges[i].action_with_opts.len() && (
                #[trigger] users[id].grant_privileges[i].action_with_opts[j]).granted_by == grantor;
            &&& (r.contains_key(grantor) && r[grantor].contains(id)) <==> holds
        }),
{
    if has_granted(users[id], grantor) && users.contains_key(id) {
        assert(grants_to(users, grantor, id));
    }
}

/// There is a reason to visit the user: they are named, or have something from someone who is visited and
/// loses something.
pub open spec fn is_reached(q: RevokeRequest, visited: Set<u32>, x: u32) -> bool {
    q.user_ids.contains(x) || exists|y: u32| #[trigger] visited.contains(y) && passes_on(q, y, x)
}

/// Everyone who is visited is reached, and where nothing is passed on only the named users lose something.
spec fn visits_justified(q: RevokeRequest, s: RevokeState, queue: Seq<u32>) -> bool {
    &&& forall|x: u32| #[trigger] s.visited.contains(x) ==> is_reached(q, s.visited, x)
    &&& forall|x: u32| #[trigger] queue.contains(x) ==> is_reached(q, s.visited, x)
    &&& !q.cascade ==> forall|x: u32| #[trigger]
        s.visited.contains(x) && q.effect(x).touched ==> q.user_ids.contains(x)
}

proof fn lemma_reached_stays(q: RevokeRequest, a: Set<u32>, b: Set<u32>, x: u32)
    requires
        a.subset_of(b),
        is_reached(q, a, x),
    ensures
        is_reached(q, b, x),
{
    if !q.user_ids.contains(x) {
        let y = choose|y: u32| #[trigger] a.contains(y) && passes_on(q, y, x);
        assert(b.contains(y));
    }
}

proof fn lemma_visits(q: RevokeRequest, s: RevokeState, queue: Seq<u32>)
    requires
        relation_finite(q.relation),
        visits_justified(q, s, queue),
        revoke_along(q, s, queue) is Ok,
    ensures
        visits_justified(q, revoke_along(q, s, queue)->Ok_0, Seq::empty()),
    decreases remaining(s.visited), queue.len(),
{
    if queue.len() > 0 {
        let id = queue[0];
        let rest = queue.drop_first();
        assert forall|x: u32| #[trigger] rest.contains(x) implies queue.contains(x) by {
            let k = choose|k: int| 0 <= k < rest.len() && rest[k] == x;
            assert(queue[k + 1] == x);
        }
        if s.visited.contains(id) || !q.users.contains_key(id) {
            lemma_visits(q, s, rest);
        } else {
            let visited = s.visited.insert(id);
            lemma_remaining(s.visited, visited);
            assert(visited.contains(id));
            assert(queue.contains(id));
            assert forall|x: u32| is_reached(q, s.visited, x) implies #[trigger] is_reached(q, visited, x) by {
                lemma_reached_stays(q, s.visited, visited, x);
            }
            let effect = q.effect(id);
            if !effect.touched {
                let t = RevokeState { visited, ..s };
                assert forall|x: u32| #[trigger] t.visited.contains(x) implies is_reached(q, visited, x) by {
                    if x != id {
                        assert(s.visited.contains(x));
                    }
                }
                assert forall|x: u32| #[trigger] rest.contains(x) implies is_reached(q, visited, x) by {
                    assert(is_reached(q, s.visited, x));
                }
                assert(!q.cascade ==> forall|x: u32| #[trigger]
                    t.visited.contains(x) && q.effect(x).touched ==> s.visited.contains(x));
                lemma_visits(q, t, rest);
            } else {
                let user = user_after(q.users[id], effect);
                let more = q.next(id, visited);
                let t = RevokeState {
                    users: s.users.insert(id, user),
                    updated: s.updated.push(user),
                    visited,
                };
                let next = rest + more;
                assert forall|x: u32| #[trigger] t.visited.contains(x) implies is_reached(q, visited, x) by {
                    if x != id {
                        assert(s.visited.contains(x));
                    }
                }
                assert forall|x: u32| #[trigger] next.contains(x) implies is_reached(q, visited, x) by {
                    let k = choose|k: int| 0 <= k < next.len() && next[k] == x;
                    if k < rest.len() {
                        assert(rest[k] == x);
                        assert(rest.contains(x));
                        assert(is_reached(q, s.visited, x));
                    } else {
                        assert(more[k - rest.len()] == x);
                        lemma_next_is_granted(q, id, visited, x);
                        assert(visited.contains(id) && passes_on(q, id, x));
                    }
                }
                assert(!q.cascade ==> forall|x: u32| #[trigger]
                    t.visited.contains(x) && q.effect(x).touched ==> s.visited.contains(x) || x == id);
                lemma_visits(q, t, next);
            }
        }
    } else {
        assert(queue =~= Seq::<u32>::empty());
    }
}

proof fn lemma_next_is_granted(q: RevokeRequest, id: u32, visited: Set<u32>, x: u32)
    requires
        relation_finite(q.relation),
        q.users.contains_key(id),
        q.effect(id).touched,
        q.next(id, visited).contains(x),
    ensures
        passes_on(q, id, x),
{
    broadcast use vstd::seq_lib::group_filter_ensures;

    let l = listing(q.relation[id]);
    let f = |n: u32| q.users.contains_key(n) && !visited.contains(n);
    lemma_listing_exists(q.relation[id]);
    let k = choose|k: int| 0 <= k < l.filter(f).len() && l.filter(f)[k] == x;
    assert(f(l.filter(f)[k]));
    l.lemma_filter_contains_rev(f, x);
}

/// A revocation that succeeds touches nobody else than the named users and those to whom someone who
/// loses something has granted; without cascade only the named users lose something.
pub proof fn law_revocation_reaches_nobody_else(q: RevokeRequest, x: u32)
    requires
        relation_finite(q.relation),
        q.users.contains_key(x),
        revoke_along(
            q,
            RevokeState { users: q.users, updated: Seq::empty(), visited: Set::empty() },
            q.user_ids,
        ) is Ok,
    ensures
        ({
            let end = revoke_along(
                q,
                RevokeState { users: q.users, updated: Seq::empty(), visited: Set::empty() },
                q.user_ids,
            )->Ok_0;
            &&& end.users[x] != q.users[x] ==> is_reached(q, end.visited, x)
            &&& !q.cascade && !q.user_ids.contains(x) ==> end.users[x] == q.users[x]
            &&& end.users[x].id == q.users[x].id
            &&& end.users[x].name == q.users[x].name
            &&& end.users[x].is_super == q.users[x].is_super
            &&& end.users[x].can_create_db == q.users[x].can_create_db
            &&& end.users[x].can_create_user == q.users[x].can_create_user
            &&& end.users[x].can_login == q.users[x].can_login
            &&& end.users[x].auth_info == q.users[x].auth_info
        }),
{
    let s = RevokeState { users: q.users, updated: Seq::empty(), visited: Set::empty() };
    assert(visits_justified(q, s, q.user_ids));
    lemma_visits(q, s, q.user_ids);
    law_revocation_follows_grants(q);
}

/// A revocation that succeeds was allowed, and leaves the users as the grants are followed; what is noted
/// of grants is what they then have, and the rest of the catalog is as before.
pub proof fn law_revocation_was_allowed(
    c: CatalogManagerCoreModel,
    user_ids: Seq<u32>,
    privileges: Seq<GrantPrivilegeModel>,
    granted_by: u32,
    revoke_by: u32,
    only_option: bool,
    cascade: bool,
)
    ensures
        ({
            let users = c.user.user_info;
            let q = RevokeRequest {
                users,
                relation: c.user.user_grant_relation,
                revoke: privileges,
                user_ids,
                only_option,
                cascade,
            };
            let end = revoke_along(
                q,
                RevokeState { users, updated: Seq::empty(), visited: Set::empty() },
                user_ids,
            );
            let allowed = users.contains_key(revoke_by) && revokes_refusal(
                c.database,
                users[revoke_by],
                granted_by == users[revoke_by].id,
                privileges,
            ) is None && users_refusal(users, user_ids) is None;
            match revoke_result(
                c,
                user_ids,
                privileges,
                granted_by,
                revoke_by,
                only_option,
                cascade,
            ) {
                Ok((after, messages)) => {
                    &&& allowed
                    &&& end is Ok
                    &&& after.user.user_info == end->Ok_0.users
                    &&& after.user.user_grant_relation == grant_relation(after.user.user_info)
                    &&& after.user.catalog_create_ref_count == c.user.catalog_create_ref_count
                    &&& after.database == c.database
                    &&& messages == user_updates(end->Ok_0.updated)
                },
                Err(_) => !allowed || end is Err,
            }
        }),
{
}

} // verus!
