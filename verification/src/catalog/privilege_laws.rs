//! What holds of privileges across requests: what is granted is held, what was held stays held by
//! a grant, and what is revoked is no longer held, along all grants.

use vstd::prelude::*;

use crate::catalog::drop::{lemma_remaining, remaining};
use crate::catalog::grant::{
    absorbed, absorbed_all, allows, granted_all, granted_one, held, lemma_position,
    lemma_position_is, lemma_privilege_on, lemma_privilege_on_is, merged, normalized, position,
    privilege_on, replaced,
};
use crate::catalog::laws::lemma_filter_all;
use crate::catalog::privilege::{not_on, stripped_users};
use crate::catalog::revoke::{
    allows_something, mentions, not_mentioned, revoke_all, revoke_along, revoke_one, revoked,
    touches, user_after, Revocation, RevokeRequest, RevokeState,
};
use crate::catalog::types::{
    Action, ActionWithGrantOption, GrantPrivilegeModel, Object, UserInfoModel,
};
use crate::util::ids::{lemma_listing_exists, listing};

verus! {

// ---------------------------------------------------------------------------
// Merging.
// ---------------------------------------------------------------------------

/// `action` is among `actions` with the grant option.
pub open spec fn mentions_with_option(actions: Seq<ActionWithGrantOption>, action: Action) -> bool {
    exists|i: int|
        0 <= i < actions.len() && (#[trigger] actions[i]).action == action
            && actions[i].with_grant_option
}

/// Each action has one entry.
pub open spec fn one_entry_each(actions: Seq<ActionWithGrantOption>) -> bool {
    forall|i: int, j: int|
        0 <= i < j < actions.len() ==> (#[trigger] actions[i]).action != (
        #[trigger] actions[j]).action
}

/// With one entry for each action, what is held is what the entry says.
proof fn lemma_held_one_entry(actions: Seq<ActionWithGrantOption>, action: Action)
    requires
        one_entry_each(actions),
    ensures
        held(actions, action) == if position(actions, action) < actions.len() {
            Some(actions[position(actions, action)].with_grant_option)
        } else {
            None
        },
    decreases actions.len(),
{
    lemma_position(actions, action);
    if actions.len() > 0 {
        let d = actions.drop_last();
        assert(one_entry_each(d)) by {
            assert forall|i: int, j: int| 0 <= i < j < d.len() implies (#[trigger] d[i]).action != (
            #[trigger] d[j]).action by {
                assert(actions[i].action != actions[j].action);
            }
        }
        lemma_held_one_entry(d, action);
        lemma_position(d, action);
        let k = position(actions, action);
        if actions.last().action == action {
            assert forall|i: int| 0 <= i < actions.len() - 1 implies (#[trigger] actions[i]).action
                != action by {
                assert(actions[i].action != actions[actions.len() - 1].action);
            }
            lemma_position_is(actions, action, actions.len() - 1);
        } else if k < actions.len() {
            assert(d[k] == actions[k]);
        }
    }
}

proof fn lemma_replaced(actions: Seq<ActionWithGrantOption>, a: ActionWithGrantOption, action: Action)
    requires
        one_entry_each(actions),
    ensures
        one_entry_each(replaced(actions, a)),
        held(replaced(actions, a), action) == if action == a.action {
            Some(a.with_grant_option)
        } else {
            held(actions, action)
        },
{
    let r = replaced(actions, a);
    let k = position(actions, a.action);
    lemma_position(actions, a.action);
    assert(one_entry_each(r));
    lemma_held_one_entry(actions, action);
    lemma_held_one_entry(r, action);
    lemma_position(actions, action);
    if action == a.action {
        lemma_position_is(r, action, k);
    } else {
        let p = position(actions, action);
        if p < actions.len() {
            lemma_position_is(r, action, p);
        } else {
            lemma_position_is(r, action, r.len() as int);
        }
    }
}

proof fn lemma_absorbed(actions: Seq<ActionWithGrantOption>, a: ActionWithGrantOption, action: Action)
    requires
        one_entry_each(actions),
    ensures
        one_entry_each(absorbed(actions, a)),
        held(absorbed(actions, a), action) == if action == a.action {
            Some(held(actions, action) == Some(true) || a.with_grant_option)
        } else {
            held(actions, action)
        },
{
    let r = absorbed(actions, a);
    let k = position(actions, a.action);
    lemma_position(actions, a.action);
    assert(one_entry_each(r));
    lemma_held_one_entry(actions, action);
    lemma_held_one_entry(r, action);
    lemma_position(actions, action);
    if action == a.action {
        lemma_position_is(r, action, k);
    } else {
        let p = position(actions, action);
        if p < actions.len() {
            lemma_position_is(r, action, p);
        } else {
            lemma_position_is(r, action, r.len() as int);
        }
    }
}

proof fn lemma_normalized(actions: Seq<ActionWithGrantOption>, action: Action)
    ensures
        one_entry_each(normalized(actions)),
        held(normalized(actions), action) == held(actions, action),
    decreases actions.len(),
{
    if actions.len() > 0 {
        lemma_normalized(actions.drop_last(), action);
        lemma_replaced(normalized(actions.drop_last()), actions.last(), action);
    }
}

proof fn lemma_mentions_last(actions: Seq<ActionWithGrantOption>, action: Action)
    requires
        actions.len() > 0,
    ensures
        mentions(actions, action) <==> mentions(actions.drop_last(), action)
            || actions.last().action == action,
        mentions_with_option(actions, action) <==> mentions_with_option(
            actions.drop_last(),
            action,
        ) || (actions.last().action == action && actions.last().with_grant_option),
{
    let d = actions.drop_last();
    if mentions(d, action) {
        let i = choose|i: int| 0 <= i < d.len() && (#[trigger] d[i]).action == action;
        assert(actions[i] == d[i]);
    }
    if mentions_with_option(d, action) {
        let i = choose|i: int|
            0 <= i < d.len() && (#[trigger] d[i]).action == action && d[i].with_grant_option;
        assert(actions[i] == d[i]);
    }
    assert(actions[actions.len() - 1] == actions.last());
    if mentions(actions, action) {
        let i = choose|i: int| 0 <= i < actions.len() && (#[trigger] actions[i]).action == action;
        if i < d.len() {
            assert(d[i] == actions[i]);
        }
    }
    if mentions_with_option(actions, action) {
        let i = choose|i: int|
            0 <= i < actions.len() && (#[trigger] actions[i]).action == action
                && actions[i].with_grant_option;
        if i < d.len() {
            assert(d[i] == actions[i]);
        }
    }
}

proof fn lemma_absorbed_all(
    actions: Seq<ActionWithGrantOption>,
    new: Seq<ActionWithGrantOption>,
    action: Action,
)
    requires
        one_entry_each(actions),
    ensures
        one_entry_each(absorbed_all(actions, new)),
        held(absorbed_all(actions, new), action) == if mentions(new, action) {
            Some(held(actions, action) == Some(true) || mentions_with_option(new, action))
        } else {
            held(actions, action)
        },
    decreases new.len(),
{
    if new.len() > 0 {
        lemma_absorbed_all(actions, new.drop_last(), action);
        lemma_absorbed(absorbed_all(actions, new.drop_last()), new.last(), action);
        lemma_mentions_last(new, action);
        if mentions_with_option(new.drop_last(), action) {
            let d = new.drop_last();
            let i = choose|i: int|
                0 <= i < d.len() && (#[trigger] d[i]).action == action && d[i].with_grant_option;
            assert(mentions(d, action));
        }
    }
}

/// A merged privilege holds the actions of both, each with the grant option where either had it.
pub proof fn law_merged_holds_both(
    origin: GrantPrivilegeModel,
    new: GrantPrivilegeModel,
    action: Action,
)
    ensures
        held(merged(origin, new).action_with_opts, action) == if mentions(
            new.action_with_opts,
            action,
        ) {
            Some(
                held(origin.action_with_opts, action) == Some(true) || mentions_with_option(
                    new.action_with_opts,
                    action,
                ),
            )
        } else {
            held(origin.action_with_opts, action)
        },
{
    lemma_normalized(origin.action_with_opts, action);
    lemma_absorbed_all(normalized(origin.action_with_opts), new.action_with_opts, action);
}

proof fn lemma_mentioned_is_held(actions: Seq<ActionWithGrantOption>, action: Action)
    ensures
        mentions(actions, action) <==> held(actions, action) is Some,
    decreases actions.len(),
{
    if actions.len() > 0 {
        lemma_mentioned_is_held(actions.drop_last(), action);
        lemma_mentions_last(actions, action);
    }
}

/// A merged privilege allows all that was granted, and all that was allowed before.
pub proof fn law_merged_allows_both(
    origin: GrantPrivilegeModel,
    new: GrantPrivilegeModel,
    other: GrantPrivilegeModel,
    need_grant_option: bool,
)
    ensures
        allows(merged(origin, new), new, false),
        allows(origin, other, need_grant_option) ==> allows(
            merged(origin, new),
            other,
            need_grant_option,
        ),
{
    let q = new.action_with_opts;
    assert forall|i: int| 0 <= i < q.len() implies held(
        merged(origin, new).action_with_opts,
        (#[trigger] q[i]).action,
    ) is Some by {
        law_merged_holds_both(origin, new, q[i].action);
        assert(mentions(q, q[i].action));
    }
    if allows(origin, other, need_grant_option) {
        let o = other.action_with_opts;
        assert forall|i: int| 0 <= i < o.len() implies match held(
            merged(origin, new).action_with_opts,
            (#[trigger] o[i]).action,
        ) {
            Some(option) => option || !need_grant_option,
            None => false,
        } by {
            law_merged_holds_both(origin, new, o[i].action);
        }
    }
}

// ---------------------------------------------------------------------------
// Granting.
// ---------------------------------------------------------------------------

/// Among the privileges is one that allows all of `wanted`.
pub open spec fn permits(
    privileges: Seq<GrantPrivilegeModel>,
    wanted: GrantPrivilegeModel,
    need_grant_option: bool,
) -> bool {
    let k = privilege_on(privileges, wanted.object);
    k < privileges.len() && allows(privileges[k], wanted, need_grant_option)
}

proof fn lemma_granted_one(
    privileges: Seq<GrantPrivilegeModel>,
    new: GrantPrivilegeModel,
    wanted: GrantPrivilegeModel,
    need_grant_option: bool,
)
    ensures
        permits(granted_one(privileges, new), new, false),
        permits(privileges, wanted, need_grant_option) ==> permits(
            granted_one(privileges, new),
            wanted,
            need_grant_option,
        ),
{
    let k = privilege_on(privileges, new.object);
    let after = granted_one(privileges, new);
    lemma_privilege_on(privileges, new.object);
    lemma_privilege_on(privileges, wanted.object);
    let w = privilege_on(privileges, wanted.object);
    if k < privileges.len() {
        law_merged_allows_both(privileges[k], new, wanted, need_grant_option);
        law_merged_allows_both(privileges[k], new, new, false);
        lemma_privilege_on_is(after, new.object, k);
    } else {
        lemma_privilege_on_is(after, new.object, privileges.len() as int);
        let q = new.action_with_opts;
        assert forall|i: int| 0 <= i < q.len() implies held(q, (#[trigger] q[i]).action) is Some by {
            lemma_mentioned_is_held(q, q[i].action);
        }
    }
    if w < privileges.len() {
        lemma_privilege_on_is(after, wanted.object, w);
    }
}

/// A grant takes nothing away: what the privileges permitted, they permit after it.
pub proof fn law_grant_takes_nothing(
    privileges: Seq<GrantPrivilegeModel>,
    new: Seq<GrantPrivilegeModel>,
    wanted: GrantPrivilegeModel,
    need_grant_option: bool,
)
    requires
        permits(privileges, wanted, need_grant_option),
    ensures
        permits(granted_all(privileges, new), wanted, need_grant_option),
    decreases new.len(),
{
    if new.len() > 0 {
        law_grant_takes_nothing(privileges, new.drop_last(), wanted, need_grant_option);
        lemma_granted_one(
            granted_all(privileges, new.drop_last()),
            new.last(),
            wanted,
            need_grant_option,
        );
    }
}

/// What is granted is permitted from then on.
pub proof fn law_granted_is_permitted(
    privileges: Seq<GrantPrivilegeModel>,
    new: Seq<GrantPrivilegeModel>,
    i: int,
)
    requires
        0 <= i < new.len(),
    ensures
        permits(granted_all(privileges, new), new[i], false),
    decreases new.len(),
{
    let before = granted_all(privileges, new.drop_last());
    if i < new.len() - 1 {
        law_granted_is_permitted(privileges, new.drop_last(), i);
        assert(new.drop_last()[i] == new[i]);
    }
    lemma_granted_one(before, new.last(), new[i], false);
}

// ---------------------------------------------------------------------------
// One privilege for each object.
// ---------------------------------------------------------------------------

/// There is at most one privilege on each object.
pub open spec fn one_for_each_object(privileges: Seq<GrantPrivilegeModel>) -> bool {
    forall|i: int, j: int|
        0 <= i < j < privileges.len() ==> (#[trigger] privileges[i]).object != (
        #[trigger] privileges[j]).object
}

/// A grant keeps one privilege for each object.
pub proof fn law_grant_keeps_one_for_each_object(
    privileges: Seq<GrantPrivilegeModel>,
    new: Seq<GrantPrivilegeModel>,
)
    requires
        one_for_each_object(privileges),
    ensures
        one_for_each_object(granted_all(privileges, new)),
    decreases new.len(),
{
    if new.len() > 0 {
        law_grant_keeps_one_for_each_object(privileges, new.drop_last());
        lemma_privilege_on(granted_all(privileges, new.drop_last()), new.last().object);
    }
}

proof fn lemma_filter_one_for_each(
    q: Seq<GrantPrivilegeModel>,
    p: spec_fn(GrantPrivilegeModel) -> bool,
)
    requires
        one_for_each_object(q),
    ensures
        one_for_each_object(q.filter(p)),
        forall|x: GrantPrivilegeModel| #[trigger] q.filter(p).contains(x) ==> q.contains(x) && p(x),
    decreases q.len(),
{
    reveal(Seq::filter);
    if q.len() > 0 {
        let d = q.drop_last();
        let f = q.filter(p);
        assert(one_for_each_object(d)) by {
            assert forall|i: int, j: int| 0 <= i < j < d.len() implies (#[trigger] d[i]).object != (
            #[trigger] d[j]).object by {
                assert(q[i].object != q[j].object);
            }
        }
        lemma_filter_one_for_each(d, p);
        assert forall|x: GrantPrivilegeModel| #[trigger] f.contains(x) implies q.contains(x)
            && p(x) by {
            let k = choose|k: int| 0 <= k < f.len() && f[k] == x;
            if k < d.filter(p).len() {
                assert(d.filter(p)[k] == x);
                assert(d.filter(p).contains(x));
                let m = choose|m: int| 0 <= m < d.len() && d[m] == x;
                assert(q[m] == x);
            } else {
                assert(q[q.len() - 1] == x);
            }
        }
        assert forall|i: int, j: int| 0 <= i < j < f.len() implies (#[trigger] f[i]).object != (
        #[trigger] f[j]).object by {
            let e = d.filter(p);
            if j < e.len() {
                assert(e[i].object != e[j].object);
            } else {
                assert(e.contains(e[i]));
                let m = choose|m: int| 0 <= m < d.len() && d[m] == e[i];
                assert(q[m].object != q[q.len() - 1].object);
            }
        }
    }
}

proof fn lemma_revoke_all_one_for_each(
    privileges: Seq<GrantPrivilegeModel>,
    revoke: Seq<GrantPrivilegeModel>,
    only_option: bool,
)
    requires
        one_for_each_object(privileges),
    ensures
        one_for_each_object(revoke_all(privileges, revoke, only_option).privileges),
    decreases revoke.len(),
{
    if revoke.len() > 0 {
        lemma_revoke_all_one_for_each(privileges, revoke.drop_last(), only_option);
        lemma_privilege_on(
            revoke_all(privileges, revoke.drop_last(), only_option).privileges,
            revoke.last().object,
        );
    }
}

/// A revocation keeps one privilege for each object.
pub proof fn law_revoke_keeps_one_for_each_object(
    user: UserInfoModel,
    revoke: Seq<GrantPrivilegeModel>,
    only_option: bool,
)
    requires
        one_for_each_object(user.grant_privileges),
    ensures
        one_for_each_object(
            user_after(
                user,
                revoke_all(user.grant_privileges, revoke, only_option),
            ).grant_privileges,
        ),
{
    lemma_revoke_all_one_for_each(user.grant_privileges, revoke, only_option);
    lemma_filter_one_for_each(
        revoke_all(user.grant_privileges, revoke, only_option).privileges,
        allows_something(),
    );
}

// ---------------------------------------------------------------------------
// Revoking.
// ---------------------------------------------------------------------------

/// The privilege is on the object and mentions the action.
pub open spec fn gives(p: GrantPrivilegeModel, object: Option<Object>, action: Action) -> bool {
    p.object == object && mentions(p.action_with_opts, action)
}

/// One of the privileges gives the action on the object.
pub open spec fn some_gives(
    privileges: Seq<GrantPrivilegeModel>,
    object: Option<Object>,
    action: Action,
) -> bool {
    exists|i: int| 0 <= i < privileges.len() && gives(#[trigger] privileges[i], object, action)
}

proof fn lemma_filter_mentions(
    actions: Seq<ActionWithGrantOption>,
    gone: Seq<ActionWithGrantOption>,
    action: Action,
)
    ensures
        mentions(actions.filter(not_mentioned(gone)), action) ==> mentions(actions, action)
            && !mentions(gone, action),
    decreases actions.len(),
{
    reveal(Seq::filter);
    if actions.len() > 0 {
        let d = actions.drop_last();
        let f = actions.filter(not_mentioned(gone));
        lemma_filter_mentions(d, gone, action);
        lemma_mentions_last(actions, action);
        if f.len() > 0 && not_mentioned(gone)(actions.last()) {
            lemma_mentions_last(f, action);
            assert(f.drop_last() =~= d.filter(not_mentioned(gone)));
        }
    }
}

proof fn lemma_revoke_one(r: Revocation, revoke: GrantPrivilegeModel, object: Option<Object>, action: Action)
    requires
        one_for_each_object(r.privileges),
    ensures
        some_gives(revoke_one(r, revoke, false).privileges, object, action) ==> some_gives(
            r.privileges,
            object,
            action,
        ) && !gives(revoke, object, action),
{
    let after = revoke_one(r, revoke, false).privileges;
    let k = privilege_on(r.privileges, revoke.object);
    lemma_privilege_on(r.privileges, revoke.object);
    if some_gives(after, object, action) {
        let i = choose|i: int| 0 <= i < after.len() && gives(#[trigger] after[i], object, action);
        if k < r.privileges.len() && i == k {
            lemma_filter_mentions(
                r.privileges[k].action_with_opts,
                revoke.action_with_opts,
                action,
            );
            assert(gives(r.privileges[k], object, action));
        } else {
            assert(after[i] == r.privileges[i]);
            assert(gives(r.privileges[i], object, action));
            if k < r.privileges.len() {
                if k < i {
                    assert(r.privileges[k].object != r.privileges[i].object);
                } else {
                    assert(r.privileges[i].object != r.privileges[k].object);
                }
            } else {
                assert(r.privileges[i].object != revoke.object);
            }
        }
    }
}

proof fn lemma_revoke_all(
    privileges: Seq<GrantPrivilegeModel>,
    revoke: Seq<GrantPrivilegeModel>,
    object: Option<Object>,
    action: Action,
)
    requires
        one_for_each_object(privileges),
    ensures
        some_gives(revoke_all(privileges, revoke, false).privileges, object, action)
            ==> some_gives(privileges, object, action) && !some_gives(revoke, object, action),
    decreases revoke.len(),
{
    if revoke.len() > 0 {
        let d = revoke.drop_last();
        lemma_revoke_all(privileges, d, object, action);
        lemma_revoke_all_one_for_each(privileges, d, false);
        lemma_revoke_one(revoke_all(privileges, d, false), revoke.last(), object, action);
        if some_gives(revoke, object, action) {
            let i = choose|i: int|
                0 <= i < revoke.len() && gives(#[trigger] revoke[i], object, action);
            if i < d.len() {
                assert(d[i] == revoke[i]);
                assert(some_gives(d, object, action));
            }
        }
    }
}

proof fn lemma_untouched(privileges: Seq<GrantPrivilegeModel>, revoke: Seq<GrantPrivilegeModel>)
    requires
        !revoke_all(privileges, revoke, false).touched,
    ensures
        revoke_all(privileges, revoke, false).privileges == privileges,
    decreases revoke.len(),
{
    if revoke.len() > 0 {
        let before = revoke_all(privileges, revoke.drop_last(), false);
        lemma_untouched(privileges, revoke.drop_last());
        let k = privilege_on(before.privileges, revoke.last().object);
        lemma_privilege_on(before.privileges, revoke.last().object);
        if k < before.privileges.len() {
            let p = before.privileges[k];
            assert(!touches(p, revoke.last()));
            assert forall|i: int| 0 <= i < p.action_with_opts.len() implies not_mentioned(
                revoke.last().action_with_opts,
            )(#[trigger] p.action_with_opts[i]) by {}
            lemma_filter_all(
                p.action_with_opts,
                not_mentioned(revoke.last().action_with_opts),
            );
            assert(revoked(p, revoke.last(), false) =~= p);
            assert(before.privileges.update(k, p) =~= before.privileges);
        }
    }
}

/// The user after a revocation, whether it touches them or not.
pub open spec fn after_revocation(q: RevokeRequest, id: u32) -> UserInfoModel {
    if q.effect(id).touched {
        user_after(q.users[id], q.effect(id))
    } else {
        q.users[id]
    }
}

/// Someone who is handled, and who loses more than the grant option, has none of the revoked
/// actions afterwards, and no action that they did not have before.
pub proof fn law_revoked_is_gone(q: RevokeRequest, id: u32, object: Option<Object>, action: Action)
    requires
        one_for_each_object(q.users[id].grant_privileges),
        !(q.only_option && q.user_ids.contains(id)),
        some_gives(after_revocation(q, id).grant_privileges, object, action),
    ensures
        some_gives(q.users[id].grant_privileges, object, action),
        !some_gives(q.revoke, object, action),
{
    let had = q.users[id].grant_privileges;
    let r = revoke_all(had, q.revoke, false);
    lemma_revoke_all(had, q.revoke, object, action);
    lemma_revoke_all_one_for_each(had, q.revoke, false);
    if r.touched {
        let after = user_after(q.users[id], r).grant_privileges;
        let i = choose|i: int| 0 <= i < after.len() && gives(#[trigger] after[i], object, action);
        if r.emptied {
            lemma_filter_one_for_each(r.privileges, allows_something());
            assert(after.contains(after[i]));
            let k = choose|k: int| 0 <= k < r.privileges.len() && r.privileges[k] == after[i];
            assert(gives(r.privileges[k], object, action));
        } else {
            assert(gives(r.privileges[i], object, action));
        }
    } else {
        lemma_untouched(had, q.revoke);
    }
}

// ---------------------------------------------------------------------------
// Along the grants.
// ---------------------------------------------------------------------------

/// Where the revocation has come, each visited user is as it leaves them, and the others are as
/// they were.
pub open spec fn handled(q: RevokeRequest, s: RevokeState) -> bool {
    &&& s.users.dom() == q.users.dom()
    &&& forall|x: u32| #[trigger]
        q.users.contains_key(x) ==> s.users[x] == if s.visited.contains(x) {
            after_revocation(q, x)
        } else {
            q.users[x]
        }
}

/// `from` loses something and has granted something to `to`.
pub open spec fn passes_on(q: RevokeRequest, from: u32, to: u32) -> bool {
    &&& q.users.contains_key(from)
    &&& q.users.contains_key(to)
    &&& q.effect(from).touched
    &&& q.relation.contains_key(from)
    &&& q.relation[from].contains(to)
}

/// Whoever has something from a visited user who loses something is visited too, or waits.
spec fn followed(q: RevokeRequest, s: RevokeState, queue: Seq<u32>) -> bool {
    forall|x: u32, n: u32|
        s.visited.contains(x) && #[trigger] passes_on(q, x, n) ==> s.visited.contains(n)
            || queue.contains(n)
}

/// The sets of the relation are finite.
pub open spec fn relation_finite(relation: Map<u32, Set<u32>>) -> bool {
    forall|g: u32| #[trigger] relation.contains_key(g) ==> relation[g].finite()
}

proof fn lemma_next(q: RevokeRequest, id: u32, visited: Set<u32>, n: u32)
    requires
        relation_finite(q.relation),
        passes_on(q, id, n),
        !visited.contains(n),
    ensures
        q.next(id, visited).contains(n),
{
    let l = listing(q.relation[id]);
    let f = |n: u32| q.users.contains_key(n) && !visited.contains(n);
    lemma_listing_exists(q.relation[id]);
    broadcast use vstd::seq_lib::group_filter_ensures;

    assert(l.contains(n));
    let k = choose|k: int| 0 <= k < l.len() && l[k] == n;
    assert(f(l[k]));
    assert(l.filter(f).contains(l[k]));
}

proof fn lemma_queue_rest(queue: Seq<u32>, more: Seq<u32>, x: u32)
    requires
        queue.len() > 0,
    ensures
        queue.contains(x) ==> x == queue[0] || queue.drop_first().contains(x),
        (queue.drop_first() + more).contains(x) <==> queue.drop_first().contains(x)
            || more.contains(x),
{
    let d = queue.drop_first();
    if queue.contains(x) {
        let k = choose|k: int| 0 <= k < queue.len() && queue[k] == x;
        if k > 0 {
            assert(d[k - 1] == x);
        }
    }
    if d.contains(x) {
        let k = choose|k: int| 0 <= k < d.len() && d[k] == x;
        assert((d + more)[k] == x);
    }
    if more.contains(x) {
        let k = choose|k: int| 0 <= k < more.len() && more[k] == x;
        assert((d + more)[d.len() + k] == x);
    }
    if (d + more).contains(x) {
        let k = choose|k: int| 0 <= k < (d + more).len() && (d + more)[k] == x;
        if k < d.len() {
            assert(d[k] == x);
        } else {
            assert(more[k - d.len()] == x);
        }
    }
}

proof fn lemma_revoke_along(q: RevokeRequest, s: RevokeState, queue: Seq<u32>)
    requires
        relation_finite(q.relation),
        handled(q, s),
        followed(q, s, queue),
        revoke_along(q, s, queue) is Ok,
    ensures
        ({
            let end = revoke_along(q, s, queue)->Ok_0;
            &&& handled(q, end)
            &&& followed(q, end, Seq::empty())
            &&& s.visited.subset_of(end.visited)
            &&& forall|x: u32| #[trigger]
                queue.contains(x) && q.users.contains_key(x) ==> end.visited.contains(x)
        }),
    decreases remaining(s.visited), queue.len(),
{
    if queue.len() == 0 {
        assert(queue =~= Seq::empty());
    } else {
        let id = queue[0];
        let rest = queue.drop_first();
        let end = revoke_along(q, s, queue)->Ok_0;
        assert forall|x: u32| #[trigger] queue.contains(x) implies x == id || rest.contains(x) by {
            lemma_queue_rest(queue, Seq::empty(), x);
        }
        if s.visited.contains(id) || !q.users.contains_key(id) {
            assert(followed(q, s, rest));
            lemma_revoke_along(q, s, rest);
        } else {
            let visited = s.visited.insert(id);
            lemma_remaining(s.visited, visited);
            assert(visited.contains(id));
            let effect = q.effect(id);
            if !effect.touched {
                let t = RevokeState { visited, ..s };
                assert(handled(q, t));
                assert(followed(q, t, rest));
                lemma_revoke_along(q, t, rest);
            } else {
                let user = user_after(q.users[id], effect);
                let more = q.next(id, visited);
                let t = RevokeState {
                    users: s.users.insert(id, user),
                    updated: s.updated.push(user),
                    visited,
                };
                assert(t.users.dom() =~= q.users.dom());
                assert(handled(q, t));
                assert(followed(q, t, rest + more)) by {
                    assert forall|x: u32, n: u32|
                        t.visited.contains(x) && #[trigger] passes_on(q, x, n) implies t.visited.contains(
                        n,
                    ) || (rest + more).contains(n) by {
                        lemma_queue_rest(queue, more, n);
                        if x == id && !visited.contains(n) {
                            lemma_next(q, id, visited, n);
                        }
                    }
                }
                assert forall|x: u32| #[trigger] rest.contains(x) implies (rest + more).contains(
                    x,
                ) by {
                    lemma_queue_rest(queue, more, x);
                }
                lemma_revoke_along(q, t, rest + more);
            }
        }
    }
}

/// A revocation that succeeds reaches all the named users and, from everyone who loses something,
/// all to whom they have granted something. Whoever it reaches is left as [`after_revocation`]
/// says; nobody else changes.
pub proof fn law_revocation_follows_grants(q: RevokeRequest)
    requires
        relation_finite(q.relation),
        revoke_along(
            q,
            RevokeState { users: q.users, updated: Seq::empty(), visited: Set::empty() },
            q.user_ids,
        ) is Ok,
    ensures
        ({
            let end = revoke_along(
                q,
                RevokeState { users: q.users, updated: Seq::empty(), visited: Set::empty() },
                q.user_ids,
            )->Ok_0;
            &&& handled(q, end)
            &&& forall|x: u32| #[trigger]
                q.user_ids.contains(x) && q.users.contains_key(x) ==> end.visited.contains(x)
            &&& forall|x: u32, n: u32|
                end.visited.contains(x) && #[trigger] passes_on(q, x, n) ==> end.visited.contains(n)
        }),
{
    let s = RevokeState { users: q.users, updated: Seq::empty(), visited: Set::empty() };
    assert(handled(q, s));
    assert(followed(q, s, q.user_ids));
    lemma_revoke_along(q, s, q.user_ids);
}

// ---------------------------------------------------------------------------
// Dropped objects.
// ---------------------------------------------------------------------------

/// Once objects are dropped, no user has a privilege on one of them, and every other privilege
/// stays.
pub proof fn law_dropped_objects_leave_no_privilege(
    users: Map<u32, UserInfoModel>,
    objects: Seq<Object>,
    id: u32,
    p: GrantPrivilegeModel,
)
    requires
        users.contains_key(id),
    ensures
        stripped_users(users, objects).contains_key(id),
        stripped_users(users, objects)[id].grant_privileges.contains(p) <==> users[id].grant_privileges.contains(
        p) && !(p.object is Some && objects.contains(p.object->0)),
{
    lemma_filter_contains(users[id].grant_privileges, not_on(objects), p);
}

proof fn lemma_filter_contains<A>(q: Seq<A>, f: spec_fn(A) -> bool, x: A)
    ensures
        q.filter(f).contains(x) <==> q.contains(x) && f(x),
    decreases q.len(),
{
    reveal(Seq::filter);
    if q.len() > 0 {
        let d = q.drop_last();
        lemma_filter_contains(d, f, x);
        assert(q =~= d.push(q.last()));
        assert(q.contains(x) <==> d.contains(x) || q.last() == x) by {
            broadcast use vstd::seq_lib::lemma_seq_contains_after_push;

        }
        if f(q.last()) {
            assert(d.filter(f).push(q.last()).contains(x) <==> d.filter(f).contains(x) || q.last()
                == x) by {
                broadcast use vstd::seq_lib::lemma_seq_contains_after_push;

            }
        }
    }
}

} // verus!
