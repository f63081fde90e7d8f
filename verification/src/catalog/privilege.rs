//! Privileges: what users may do with objects, and how that is granted and revoked.

use vstd::prelude::*;

use crate::catalog::manager::CatalogManager;
use crate::catalog::notify::{Audience, Info, InfoModel, Notification, NotificationModel, Operation};
use crate::catalog::types::{GrantPrivilege, GrantPrivilegeModel, Object, UserInfo, UserInfoModel};
use crate::util::id_map::{ids_where, views, Entry, IdMap};
use crate::util::ids::lists;
use crate::util::lists::{image, keep};

verus! {

// ---------------------------------------------------------------------------
// Removing the privileges on objects that are dropped.
// ---------------------------------------------------------------------------

/// Every privilege names its object.
pub open spec fn objects_named(privileges: Seq<GrantPrivilegeModel>) -> bool {
    forall|i: int| 0 <= i < privileges.len() ==> (#[trigger] privileges[i]).object is Some
}

/// Every privilege of every user names its object.
pub open spec fn all_objects_named(users: Map<u32, UserInfoModel>) -> bool {
    forall|id: u32| #[trigger] users.contains_key(id) ==> objects_named(users[id].grant_privileges)
}

/// Whether every privilege names its object.
fn check_named(privileges: &Vec<GrantPrivilege>) -> (r: bool)
    ensures
        r == objects_named(views(privileges@)),
{
    let ghost q = views(privileges@);
    let mut i: usize = 0;
    while i < privileges.len()
        invariant
            i <= privileges.len(),
            q == views(privileges@),
            forall|k: int| 0 <= k < i ==> (#[trigger] q[k]).object is Some,
        decreases privileges.len() - i,
    {
        assert(q[i as int] == privileges@[i as int]@);
        if privileges[i].object.is_none() {
            return false;
        }
        i = i + 1;
    }
    true
}

/// Whether every privilege of every user names its object.
pub fn check_objects_named(users: &IdMap<UserInfo>) -> (r: bool)
    ensures
        r == all_objects_named(users@),
{
    let f = |id: u32, u: &UserInfo| -> (b: bool)
        ensures
            b == objects_named(u@.grant_privileges),
    {
        check_named(&u.grant_privileges)
    };
    let ghost p = |id: u32, u: UserInfoModel| objects_named(u.grant_privileges);
    let r: bool = users.all(f, Ghost(p));
    proof {
        if r {
            assert forall|id: u32| #[trigger] users@.contains_key(id) implies objects_named(
                users@[id].grant_privileges,
            ) by {
                assert(p(id, users@[id]));
            }
        }
    }
    r
}

/// The privilege is on none of `objects`.
pub open spec fn not_on(objects: Seq<Object>) -> spec_fn(GrantPrivilegeModel) -> bool {
    |p: GrantPrivilegeModel|
        match p.object {
            Some(object) => !objects.contains(object),
            None => true,
        }
}

/// The user without the privileges on `objects`.
pub open spec fn stripped(user: UserInfoModel, objects: Seq<Object>) -> UserInfoModel {
    UserInfoModel { grant_privileges: user.grant_privileges.filter(not_on(objects)), ..user }
}

/// The user has a privilege on one of `objects`.
pub open spec fn affected(objects: Seq<Object>) -> spec_fn(UserInfoModel) -> bool {
    |u: UserInfoModel| stripped(u, objects).grant_privileges.len() != u.grant_privileges.len()
}

/// All users without the privileges on `objects`.
pub open spec fn stripped_users(users: Map<u32, UserInfoModel>, objects: Seq<Object>) -> Map<u32, UserInfoModel> {
    users.map_values(|u: UserInfoModel| stripped(u, objects))
}

/// The users who had a privilege on one of `objects`, as they are without it.
pub open spec fn updated_users(users: Map<u32, UserInfoModel>, objects: Seq<Object>) -> Seq<UserInfoModel> {
    image(ids_where(users, affected(objects)), |id: u32| stripped(users[id], objects))
}

/// Messages to the frontends that users have changed.
pub open spec fn user_updates(users: Seq<UserInfoModel>) -> Seq<NotificationModel> {
    image(
        users,
        |u: UserInfoModel|
            NotificationModel {
                audience: Audience::Frontend,
                operation: Operation::Update,
                info: InfoModel::User(u),
            },
    )
}

pub(crate) fn notify_users(users: Vec<UserInfo>) -> (r: Vec<Notification>)
    ensures
        views(r@) == user_updates(views(users@)),
{
    let mut r: Vec<Notification> = Vec::new();
    let mut i: usize = 0;
    while i < users.len()
        invariant
            i <= users.len(),
            r@.len() == i,
            forall|k: int|
                0 <= k < i ==> r@[k]@ == (NotificationModel {
                    audience: Audience::Frontend,
                    operation: Operation::Update,
                    info: InfoModel::User(users@[k]@),
                }),
        decreases users.len() - i,
    {
        r.push(
            Notification {
                audience: Audience::Frontend,
                operation: Operation::Update,
                info: Info::User(users[i].duplicate()),
            },
        );
        i = i + 1;
    }
    assert(views(r@) =~= user_updates(views(users@)));
    r
}

pub fn contains_object(objects: &Vec<Object>, object: Object) -> (r: bool)
    ensures
        r == objects@.contains(object),
{
    let mut i: usize = 0;
    while i < objects.len()
        invariant
            i <= objects.len(),
            forall|k: int| 0 <= k < i ==> objects@[k] != object,
        decreases objects.len() - i,
    {
        if objects[i] == object {
            assert(objects@[i as int] == object);
            return true;
        }
        i = i + 1;
    }
    false
}

/// What keeps all elements keeps the sequence.
pub proof fn lemma_filter_full<A>(q: Seq<A>, p: spec_fn(A) -> bool)
    ensures
        q.filter(p).len() <= q.len(),
        q.filter(p).len() == q.len() ==> q.filter(p) == q,
    decreases q.len(),
{
    reveal(Seq::filter);
    if q.len() > 0 {
        lemma_filter_full(q.drop_last(), p);
        if q.filter(p).len() == q.len() {
            assert(q =~= q.drop_last().push(q.last()));
        }
    }
}

impl CatalogManager {
    /// `update_user_privileges` removes the privileges with given object from given users, it will
    /// be called when a database/schema/table/source/sink is dropped.
    pub fn update_user_privileges(users: &mut IdMap<UserInfo>, objects: &Vec<Object>) -> (r: Vec<
        UserInfo,
    >)
        requires
            all_objects_named(old(users)@),
        ensures
            final(users)@ == stripped_users(old(users)@, objects@),
            views(r@) == updated_users(old(users)@, objects@),
    {
        let ghost before = users@;
        let ids = users.ids();
        let ghost p = |id: u32| affected(objects@)(before[id]);
        let ghost g = |id: u32| stripped(before[id], objects@);
        let mut updated: Vec<UserInfo> = Vec::new();
        let mut i: usize = 0;
        proof {
            reveal(Seq::filter);
            assert(ids@.take(0) =~= Seq::<u32>::empty());
            assert(views(updated@) =~= image(ids@.take(0).filter(p), g));
        }
        while i < ids.len()
            invariant
                i <= ids.len(),
                lists(ids@, before.dom()),
                all_objects_named(before),
                p == (|id: u32| affected(objects@)(before[id])),
                g == (|id: u32| stripped(before[id], objects@)),
                users@.dom() == before.dom(),
                forall|id: u32| #[trigger]
                    before.contains_key(id) ==> users@[id] == if ids@.take(i as int).contains(id) {
                        stripped(before[id], objects@)
                    } else {
                        before[id]
                    },
                views(updated@) == image(ids@.take(i as int).filter(p), g),
            decreases ids.len() - i,
        {
            let id: u32 = ids[i];
            let ghost a = ids@.take(i as int);
            let ghost current = users@;
            proof {
                reveal(Seq::filter);
                assert(ids@.contains(id));
                assert(before.contains_key(id));
                assert(ids@.take(i + 1) =~= a.push(id));
                assert(a.push(id).drop_last() =~= a);
                assert(!a.contains(id));
            }
            match users.remove(id) {
                Some(user) => {
                    let ghost u = before[id];
                    let f = |x: &GrantPrivilege| -> (b: bool)
                        ensures
                            b == not_on(objects@)(x@),
                    {
                        match x.object {
                            Some(object) => !contains_object(objects, object),
                            None => true,
                        }
                    };
                    let kept = keep(&user.grant_privileges, f, Ghost(not_on(objects@)));
                    proof {
                        lemma_filter_full(u.grant_privileges, not_on(objects@));
                    }
                    if kept.len() != user.grant_privileges.len() {
                        let mut user = user;
                        user.grant_privileges = kept;
                        let ghost earlier = updated@;
                        updated.push(user.duplicate());
                        assert(views(updated@) =~= views(earlier).push(stripped(u, objects@)));
                        assert(image(a.filter(p), g).push(g(id)) =~= image(a.filter(p).push(id), g));
                        users.insert(id, user);
                    } else {
                        assert(stripped(u, objects@) =~= u);
                        users.insert(id, user);
                    }
                    assert(users@ =~= current.insert(id, stripped(u, objects@)));
                },
                None => {},
            }
            assert forall|x: u32| #[trigger] before.contains_key(x) implies users@[x] == if ids@.take(
                i + 1,
            ).contains(x) {
                stripped(before[x], objects@)
            } else {
                before[x]
            } by {
                assert(a.push(id).contains(x) <==> a.contains(x) || x == id) by {
                    broadcast use vstd::seq_lib::lemma_seq_contains_after_push;

                }
            }
            assert(users@.dom() =~= before.dom());
            i = i + 1;
        }
        proof {
            assert(ids@.take(i as int) =~= ids@);
            assert(users@ =~= stripped_users(before, objects@)) by {
                assert forall|id: u32| before.contains_key(id) implies ids@.contains(id) by {}
            }
        }
        updated
    }
}

} // verus!
