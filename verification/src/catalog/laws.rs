//! What holds across the requests on the catalog: a cancelled creation leaves no trace, a refused
//! one neither, a name is created once at a time, and a drop takes back what a creation did.

use vstd::prelude::*;

use crate::catalog::creating::{
    index_cancelled, index_key, index_started, lemma_lowered_nothing, mview_cancel_refusal,
    mview_cancelled, mview_started, replacing_cancelled, sink_cancelled, sink_key, sink_started, source_cancelled,
    source_key, source_started, subscription_started, table_cancelled, table_key, table_started,
    table_with_source_cancelled, table_with_source_started,
};
use crate::catalog::drop::{
    drop_plan, planned, step, DropMode, DropPlanModel, JobFragmentsModel, RelationIdEnum,
};
use crate::catalog::drop_apply::{
    drop_result, dropped, into_other_table, planned_connections, planned_objects, planned_owners,
    planned_relations, planned_secrets, table_sinks,
};
use crate::catalog::error::MetaErrorModel;
use crate::catalog::finishing::{created_table, created_tables, replace_started, table_finished};
use crate::catalog::objects::{
    can_own, connection_created, connection_dropped, function_created, function_dropped,
    owning_less, owning_more, owns, schema_created, schema_dropped, secret_created, secret_dropped,
    view_created,
};
use crate::catalog::owner::{transferable, transferred};
use crate::catalog::privilege::{not_on, stripped, stripped_users};
use crate::catalog::relations::one_or_none;
use crate::catalog::rename::table_id;
use crate::catalog::state::{CatalogManagerCoreModel, DatabaseManagerModel, UserManagerModel};
use crate::catalog::types::{
    ConnectionModel, FunctionModel, IndexModel, Object, SchemaModel, SecretModel, SinkModel,
    SourceModel, StreamJobStatus, SubscriptionModel, TableModel, UserInfoModel, ViewInfoModel,
};
use crate::catalog::users::{user_created, user_dropped};
use crate::util::counts::{
    count_of, covers, fits, lemma_lowered_undoes_raised, lemma_times, lowered, positive, raised,
    times,
};
use crate::util::id_map::{all_in, inserted, values_at};
use crate::util::ids::{lemma_listing_is, lemma_occurrences_contains, listing, occurrences};
use crate::util::lists::gather;

verus! {

// ---------------------------------------------------------------------------
// Counts.
// ---------------------------------------------------------------------------

/// No count of the catalog stands at zero: what is not counted has no entry.
pub open spec fn counts_positive(c: CatalogManagerCoreModel) -> bool {
    &&& positive(c.database.relation_ref_count)
    &&& positive(c.database.connection_ref_count)
    &&& positive(c.database.secret_ref_count)
    &&& positive(c.user.catalog_create_ref_count)
}

/// Adding references keeps every count above zero, and so does taking back what was counted.
pub proof fn law_counts_stay_positive(c: Map<u32, usize>, ids: Seq<u32>)
    requires
        positive(c),
    ensures
        fits(c, ids) ==> positive(raised(c, ids)),
        positive(lowered(c, ids)),
{
    if fits(c, ids) {
        let r = raised(c, ids);
        assert forall|id: u32| #[trigger] r.contains_key(id) implies r[id] > 0 by {
            lemma_occurrences_contains(ids, id);
            assert(occurrences(ids, id) + count_of(c, id) <= usize::MAX);
        }
    }
    let l = lowered(c, ids);
    assert forall|id: u32| #[trigger] l.contains_key(id) implies l[id] > 0 by {
        assert(c.contains_key(id));
    }
}

/// Charging an owner and relieving them again changes nothing.
proof fn lemma_owned_and_back(user: UserManagerModel, owner: u32, n: nat)
    requires
        positive(user.catalog_create_ref_count),
        can_own(user, owner, n),
    ensures
        owns(owning_more(user, owner, n), owner, n),
        owning_less(owning_more(user, owner, n), owner, n) == user,
{
    let c = user.catalog_create_ref_count;
    let ids = times(owner, n);
    assert forall|id: u32| #[trigger] occurrences(ids, id) + count_of(c, id) <= usize::MAX by {
        lemma_times(owner, n, id);
    }
    lemma_lowered_undoes_raised(c, ids);
    lemma_times(owner, n, owner);
    assert(occurrences(ids, owner) <= count_of(raised(c, ids), owner));
    assert(owning_less(owning_more(user, owner, n), owner, n) =~= user);
}

/// References that are added and released leave the catalog as it was.
proof fn lemma_referred_and_back(
    db: DatabaseManagerModel,
    relations: Seq<u32>,
    connections: Seq<u32>,
    secrets: Seq<u32>,
)
    requires
        positive(db.relation_ref_count),
        positive(db.connection_ref_count),
        positive(db.secret_ref_count),
        db.can_refer(relations, connections, secrets),
    ensures
        db.referring(relations, connections, secrets).refers(relations, connections, secrets),
        db.referring(relations, connections, secrets).releasing(relations, connections, secrets)
            == db,
{
    lemma_lowered_undoes_raised(db.relation_ref_count, relations);
    lemma_lowered_undoes_raised(db.connection_ref_count, connections);
    lemma_lowered_undoes_raised(db.secret_ref_count, secrets);
    assert(db.referring(relations, connections, secrets).releasing(relations, connections, secrets)
        =~= db);
}

/// Nothing at all can be counted.
proof fn lemma_nothing_fits(c: Map<u32, usize>)
    ensures
        fits(c, Seq::empty()),
{
    assert forall|id: u32| #[trigger] occurrences(Seq::empty(), id) + count_of(c, id)
        <= usize::MAX by {
        assert(occurrences(Seq::<u32>::empty(), id) == 0);
    }
}

// ---------------------------------------------------------------------------
// A cancelled creation leaves no trace.
// ---------------------------------------------------------------------------

/// A table whose creation started can be cancelled, and then the catalog is as it was before.
pub proof fn law_cancel_undoes_start_of_table(c: CatalogManagerCoreModel, table: TableModel)
    requires
        counts_positive(c),
        can_own(c.user, table.owner, 1),
        fits(c.database.relation_ref_count, table.dependent_relations),
        !c.database.in_progress_creating_streaming_job.contains_key(table.id),
        table_started(c, table).1 is None,
    ensures
        ({
            let s = table_started(c, table).0;
            &&& s.database.in_progress(table_key(table))
            &&& covers(s.database.relation_ref_count, table.dependent_relations)
            &&& owns(s.user, table.owner, 1)
            &&& table_cancelled(s, table) == c
        }),
{
    let key = table_key(table);
    let none = Seq::<u32>::empty();
    let marked = c.database.marked(key).job_marked(table.id, key);
    lemma_nothing_fits(c.database.connection_ref_count);
    lemma_nothing_fits(c.database.secret_ref_count);
    lemma_referred_and_back(marked, table.dependent_relations, none, none);
    lemma_owned_and_back(c.user, table.owner, 1);
    let s = table_started(c, table).0;
    assert(table_cancelled(s, table) =~= c);
}

/// A source whose creation started can be cancelled, and then the catalog is as it was before.
pub proof fn law_cancel_undoes_start_of_source(c: CatalogManagerCoreModel, source: SourceModel)
    requires
        counts_positive(c),
        can_own(c.user, source.owner, 1),
        c.database.can_refer(Seq::empty(), one_or_none(source.connection_id), source.secret_ids),
        source_started(c, source).1 is None,
    ensures
        ({
            let s = source_started(c, source).0;
            &&& s.database.in_progress(source_key(source))
            &&& s.database.refers(
                Seq::empty(),
                one_or_none(source.connection_id),
                source.secret_ids,
            )
            &&& owns(s.user, source.owner, 1)
            &&& source_cancelled(s, source) == c
        }),
{
    let key = source_key(source);
    let none = Seq::<u32>::empty();
    lemma_referred_and_back(
        c.database.marked(key),
        none,
        one_or_none(source.connection_id),
        source.secret_ids,
    );
    lemma_owned_and_back(c.user, source.owner, 1);
    let s = source_started(c, source).0;
    assert(source_cancelled(s, source) =~= c);
}

/// A table whose creation started together with its source can be cancelled with it, and then the
/// catalog is as it was before.
pub proof fn law_cancel_undoes_start_of_table_with_source(
    c: CatalogManagerCoreModel,
    source: SourceModel,
    table: TableModel,
)
    requires
        counts_positive(c),
        can_own(c.user, source.owner, 2),
        c.database.can_refer(Seq::empty(), one_or_none(source.connection_id), source.secret_ids),
        !c.database.in_progress_creating_streaming_job.contains_key(table.id),
        table_with_source_started(c, source, table).1 is None,
    ensures
        ({
            let s = table_with_source_started(c, source, table).0;
            &&& s.database.refers(
                Seq::empty(),
                one_or_none(source.connection_id),
                source.secret_ids,
            )
            &&& owns(s.user, source.owner, 2)
            &&& table_with_source_cancelled(s, source, table) == c
        }),
{
    let none = Seq::<u32>::empty();
    let marked = c.database.marked(source_key(source)).marked(table_key(table)).job_marked(
        table.id,
        table_key(table),
    );
    lemma_referred_and_back(
        marked,
        none,
        one_or_none(source.connection_id),
        source.secret_ids,
    );
    lemma_owned_and_back(c.user, source.owner, 2);
    let s = table_with_source_started(c, source, table).0;
    assert(table_with_source_cancelled(s, source, table) =~= c);
}

/// An index whose creation started can be cancelled, and then the catalog is as it was before.
pub proof fn law_cancel_undoes_start_of_index(
    c: CatalogManagerCoreModel,
    index: IndexModel,
    table: TableModel,
)
    requires
        counts_positive(c),
        can_own(c.user, index.owner, 2),
        fits(c.database.relation_ref_count, table.dependent_relations),
        !c.database.in_progress_creating_streaming_job.contains_key(table.id),
        index_started(c, index, table).1 is None,
    ensures
        ({
            let s = index_started(c, index, table).0;
            &&& covers(s.database.relation_ref_count, table.dependent_relations)
            &&& owns(s.user, index.owner, 2)
            &&& index_cancelled(s, index, table) == c
        }),
{
    let key = index_key(index);
    let none = Seq::<u32>::empty();
    let marked = c.database.marked(key).job_marked(table.id, key);
    lemma_nothing_fits(c.database.connection_ref_count);
    lemma_nothing_fits(c.database.secret_ref_count);
    lemma_referred_and_back(marked, table.dependent_relations, none, none);
    lemma_owned_and_back(c.user, index.owner, 2);
    let s = index_started(c, index, table).0;
    assert(index_cancelled(s, index, table) =~= c);
}

/// A sink whose creation started can be cancelled, and then the catalog is as it was before.
pub proof fn law_cancel_undoes_start_of_sink(c: CatalogManagerCoreModel, sink: SinkModel)
    requires
        counts_positive(c),
        can_own(c.user, sink.owner, 1),
        c.database.can_refer(
            sink.dependent_relations,
            one_or_none(sink.connection_id),
            sink.secret_ids,
        ),
        !c.database.in_progress_creating_streaming_job.contains_key(sink.id),
        sink_started(c, sink).1 is None,
    ensures
        ({
            let s = sink_started(c, sink).0;
            &&& s.database.refers(
                sink.dependent_relations,
                one_or_none(sink.connection_id),
                sink.secret_ids,
            )
            &&& owns(s.user, sink.owner, 1)
            &&& sink_cancelled(s, sink, None) == c
        }),
{
    let key = sink_key(sink);
    let marked = c.database.marked(key).job_marked(sink.id, key);
    lemma_referred_and_back(
        marked,
        sink.dependent_relations,
        one_or_none(sink.connection_id),
        sink.secret_ids,
    );
    lemma_owned_and_back(c.user, sink.owner, 1);
    let s = sink_started(c, sink).0;
    assert(sink_cancelled(s, sink, None) =~= c);
}

/// The identifiers of these tables.
pub open spec fn table_ids(q: Seq<TableModel>) -> Seq<u32> {
    Seq::new(q.len(), |i: int| q[i].id)
}

proof fn lemma_inserted_tables(m: Map<u32, TableModel>, q: Seq<TableModel>)
    ensures
        inserted(m, q, table_id()).dom() == m.dom().union(table_ids(q).to_set()),
        forall|id: u32| #[trigger]
            inserted(m, q, table_id()).contains_key(id) && !table_ids(q).contains(id) ==> inserted(
                m,
                q,
                table_id(),
            )[id] == m[id],
    decreases q.len(),
{
    if q.len() > 0 {
        let d = q.drop_last();
        lemma_inserted_tables(m, d);
        assert(table_ids(q) =~= table_ids(d).push(q.last().id));
        assert forall|id: u32| table_ids(q).contains(id) <==> table_ids(d).contains(id) || id
            == q.last().id by {
            broadcast use vstd::seq_lib::lemma_seq_contains_after_push;

        }
        assert(inserted(m, q, table_id()) == inserted(m, d, table_id()).insert(
            q.last().id,
            q.last(),
        ));
        assert(inserted(m, q, table_id()).dom() =~= m.dom().union(table_ids(q).to_set()));
    } else {
        assert(inserted(m, q, table_id()).dom() =~= m.dom().union(table_ids(q).to_set()));
    }
}

/// A materialized view whose creation started can be cancelled, and then the catalog is as it was
/// before. The identifiers of the view and of its internal tables are new, and nobody waits for
/// the view yet.
pub proof fn law_cancel_undoes_start_of_mview(
    c: CatalogManagerCoreModel,
    table: TableModel,
    internal: Seq<TableModel>,
)
    requires
        counts_positive(c),
        can_own(c.user, table.owner, 1),
        fits(c.database.relation_ref_count, table.dependent_relations),
        table.stream_job_status == StreamJobStatus::Creating,
        !c.database.tables.contains_key(table.id),
        forall|i: int|
            0 <= i < internal.len() ==> !c.database.tables.contains_key((#[trigger] internal[i]).id),
        !c.database.creating_table_finish_notifier.contains_key(table.id),
    ensures
        ({
            let s = mview_started(c, table, internal).0;
            &&& s.database.tables.contains_key(table.id)
            &&& mview_cancel_refusal(s.database, table.id) is None
            &&& all_in(table_ids(internal), s.database.tables)
            &&& covers(s.database.relation_ref_count, table.dependent_relations)
            &&& owns(s.user, table.owner, 1)
            &&& mview_cancelled(s, table.id, table_ids(internal)) == c
        }),
{
    let s = mview_started(c, table, internal).0;
    let ids = table_ids(internal);
    let gone = seq![table.id] + ids;
    lemma_inserted_tables(c.database.tables, internal);
    lemma_lowered_undoes_raised(c.database.relation_ref_count, table.dependent_relations);
    lemma_owned_and_back(c.user, table.owner, 1);
    assert forall|i: int| 0 <= i < ids.len() implies s.database.tables.contains_key(
        #[trigger] ids[i],
    ) by {
        assert(ids.contains(ids[i]));
    }
    assert forall|id: u32| gone.contains(id) <==> id == table.id || ids.contains(id) by {
        if id == table.id {
            assert(gone[0] == id);
        }
        if ids.contains(id) {
            let k = choose|k: int| 0 <= k < ids.len() && ids[k] == id;
            assert(gone[k + 1] == id);
        }
        if gone.contains(id) {
            let k = choose|k: int| 0 <= k < gone.len() && gone[k] == id;
            if k > 0 {
                assert(ids[k - 1] == id);
            }
        }
    }
    assert(s.database.tables.remove_keys(gone.to_set()) =~= c.database.tables) by {
        assert forall|id: u32| ids.contains(id) implies !c.database.tables.contains_key(id) by {
            let k = choose|k: int| 0 <= k < ids.len() && ids[k] == id;
            assert(internal[k].id == id);
        }
    }
    assert(mview_cancelled(s, table.id, ids) =~= c);
}

// ---------------------------------------------------------------------------
// Refusals.
// ---------------------------------------------------------------------------

/// A creation of a table, an index or a subscription that is refused changes nothing.
pub proof fn law_refused_start_changes_nothing(
    c: CatalogManagerCoreModel,
    table: TableModel,
    index: IndexModel,
    subscription: SubscriptionModel,
)
    ensures
        table_started(c, table).1 is Some ==> table_started(c, table).0 == c,
        index_started(c, index, table).1 is Some ==> index_started(c, index, table).0 == c,
        subscription_started(c, subscription).1 is Some ==> subscription_started(
            c,
            subscription,
        ).0 == c,
{
}

/// A creation of a source or a sink that is refused changes nothing, unless the reason is that
/// its connection is missing.
pub proof fn law_refused_connected_start_changes_nothing(
    c: CatalogManagerCoreModel,
    source: SourceModel,
    sink: SinkModel,
)
    ensures
        source_started(c, source).1 is Some && !(source_started(
            c,
            source,
        ).1->0 is ConnectionMissing) ==> source_started(c, source).0 == c,
        sink_started(c, sink).1 is Some && !(sink_started(c, sink).1->0 is ConnectionMissing)
            ==> sink_started(c, sink).0 == c,
{
}

/// While a table is being created nothing else of its name is: the creation of a table, a source,
/// a sink, an index or a subscription of the same name is refused.
pub proof fn law_name_is_created_once(
    c: CatalogManagerCoreModel,
    table: TableModel,
    other: TableModel,
    source: SourceModel,
    sink: SinkModel,
    index: IndexModel,
    subscription: SubscriptionModel,
)
    requires
        table_started(c, table).1 is None,
    ensures
        ({
            let s = table_started(c, table).0;
            &&& table_key(other) == table_key(table) ==> table_started(s, other).1 is Some
            &&& source_key(source) == table_key(table) ==> source_started(s, source).1 is Some
            &&& sink_key(sink) == table_key(table) ==> sink_started(s, sink).1 is Some
            &&& index_key(index) == table_key(table) ==> index_started(s, index, other).1 is Some
            &&& crate::catalog::creating::subscription_key(subscription) == table_key(table)
                ==> subscription_started(s, subscription).1 is Some
        }),
{
    let s = table_started(c, table).0;
    assert(s.database.in_progress(table_key(table)));
}

// ---------------------------------------------------------------------------
// A drop takes back what a creation did.
// ---------------------------------------------------------------------------

/// No user holds a privilege on the object.
pub open spec fn nobody_holds(users: Map<u32, UserInfoModel>, object: Object) -> bool {
    forall|id: u32, i: int|
        users.contains_key(id) && 0 <= i < users[id].grant_privileges.len() ==> (
        #[trigger] users[id].grant_privileges[i]).object != Some(object)
}

proof fn lemma_nothing_stripped(users: Map<u32, UserInfoModel>, object: Object)
    requires
        nobody_holds(users, object),
    ensures
        stripped_users(users, seq![object]) == users,
{
    let objects = seq![object];
    assert forall|id: u32| users.contains_key(id) implies stripped(users[id], objects)
        == users[id] by {
        let q = users[id].grant_privileges;
        assert forall|i: int| 0 <= i < q.len() implies not_on(objects)(#[trigger] q[i]) by {
            assert(users[id].grant_privileges[i].object != Some(object));
            match q[i].object {
                Some(o) => {
                    if objects.contains(o) {
                        let k = choose|k: int| 0 <= k < objects.len() && objects[k] == o;
                        assert(objects[k] == object);
                    }
                },
                None => {},
            }
        }
        lemma_filter_all(q, not_on(objects));
        assert(stripped(users[id], objects) =~= users[id]);
    }
    assert(stripped_users(users, objects) =~= users);
}

/// What selects all elements leaves the sequence as it is.
pub proof fn lemma_filter_all<A>(q: Seq<A>, p: spec_fn(A) -> bool)
    requires
        forall|i: int| 0 <= i < q.len() ==> p(#[trigger] q[i]),
    ensures
        q.filter(p) == q,
    decreases q.len(),
{
    reveal(Seq::filter);
    if q.len() > 0 {
        let d = q.drop_last();
        assert forall|i: int| 0 <= i < d.len() implies p(#[trigger] d[i]) by {
            assert(d[i] == q[i]);
        }
        lemma_filter_all(d, p);
        assert(p(q[q.len() - 1]));
        assert(q =~= d.push(q.last()));
    } else {
        assert(q.filter(p) =~= q);
    }
}

/// A function that was created can be dropped, and then the catalog is as it was before.
pub proof fn law_drop_undoes_create_of_function(c: CatalogManagerCoreModel, function: FunctionModel)
    requires
        counts_positive(c),
        can_own(c.user, function.owner, 1),
        !c.database.functions.contains_key(function.id),
        nobody_holds(c.user.user_info, Object::FunctionId(function.id)),
        function_created(c, function) is Ok,
    ensures
        ({
            let s = function_created(c, function)->Ok_0.0;
            &&& owns(s.user, function.owner, 1)
            &&& function_dropped(s, function.id) is Ok
            &&& function_dropped(s, function.id)->Ok_0.0 == c
        }),
{
    let s = function_created(c, function)->Ok_0.0;
    lemma_owned_and_back(c.user, function.owner, 1);
    lemma_nothing_stripped(c.user.user_info, Object::FunctionId(function.id));
    assert(function_dropped(s, function.id)->Ok_0.0 =~= c);
}

/// A schema that was created can be dropped while nothing stands in it, and then the catalog is as
/// it was before.
pub proof fn law_drop_undoes_create_of_schema(c: CatalogManagerCoreModel, schema: SchemaModel)
    requires
        counts_positive(c),
        can_own(c.user, schema.owner, 1),
        !c.database.schemas.contains_key(schema.id),
        !c.database.creating_in_schema(schema.id),
        c.database.schema_empty(schema.id),
        nobody_holds(c.user.user_info, Object::SchemaId(schema.id)),
        schema_created(c, schema) is Ok,
    ensures
        ({
            let s = schema_created(c, schema)->Ok_0.0;
            &&& owns(s.user, schema.owner, 1)
            &&& schema_dropped(s, schema.id) is Ok
            &&& schema_dropped(s, schema.id)->Ok_0.0 == c
        }),
{
    let s = schema_created(c, schema)->Ok_0.0;
    lemma_owned_and_back(c.user, schema.owner, 1);
    lemma_nothing_stripped(c.user.user_info, Object::SchemaId(schema.id));
    assert(schema_dropped(s, schema.id)->Ok_0.0 =~= c);
}

/// A connection that was created can be dropped while nothing refers to it, and then the catalog
/// is as it was before.
pub proof fn law_drop_undoes_create_of_connection(
    c: CatalogManagerCoreModel,
    connection: ConnectionModel,
)
    requires
        counts_positive(c),
        can_own(c.user, connection.owner, 1),
        !c.database.connections.contains_key(connection.id),
        !c.database.connection_ref_count.contains_key(connection.id),
        connection_created(c, connection) is Ok,
    ensures
        ({
            let s = connection_created(c, connection)->Ok_0.0;
            &&& owns(s.user, connection.owner, 1)
            &&& connection_dropped(s, connection.id) is Ok
            &&& connection_dropped(s, connection.id)->Ok_0.0 == c
        }),
{
    let s = connection_created(c, connection)->Ok_0.0;
    lemma_owned_and_back(c.user, connection.owner, 1);
    assert(connection_dropped(s, connection.id)->Ok_0.0 =~= c);
}

/// A secret that was created can be dropped while nothing refers to it, and then the catalog is as
/// it was before.
pub proof fn law_drop_undoes_create_of_secret(
    c: CatalogManagerCoreModel,
    secret: SecretModel,
    payload: Seq<u8>,
)
    requires
        counts_positive(c),
        can_own(c.user, secret.owner, 1),
        !c.database.secrets.contains_key(secret.id),
        !c.database.secret_ref_count.contains_key(secret.id),
        secret_created(c, secret, payload) is Ok,
    ensures
        ({
            let s = secret_created(c, secret, payload)->Ok_0.0;
            &&& owns(s.user, secret.owner, 1)
            &&& secret_dropped(s, secret.id) is Ok
            &&& secret_dropped(s, secret.id)->Ok_0.0 == c
        }),
{
    let s = secret_created(c, secret, payload)->Ok_0.0;
    lemma_owned_and_back(c.user, secret.owner, 1);
    assert(secret_dropped(s, secret.id)->Ok_0.0 =~= c);
}

/// A user that was created can be dropped while they own nothing and have granted nothing, unless
/// they have the name of a default user, and then the catalog is as it was before.
pub proof fn law_drop_undoes_create_of_user(c: CatalogManagerCoreModel, user: UserInfoModel)
    requires
        !c.user.user_info.contains_key(user.id),
        !c.user.catalog_create_ref_count.contains_key(user.id),
        !c.user.user_grant_relation.contains_key(user.id),
        user.name != "root"@,
        user.name != "postgres"@,
        user_created(c, user) is Ok,
    ensures
        ({
            let s = user_created(c, user)->Ok_0.0;
            user_dropped(s, user.id) is Ok && user_dropped(s, user.id)->Ok_0.0 == c
        }),
{
    let s = user_created(c, user)->Ok_0.0;
    assert(user_dropped(s, user.id)->Ok_0.0 =~= c);
}

proof fn lemma_listing_of_none()
    ensures
        listing(Set::empty()) == Seq::<u32>::empty(),
{
    lemma_listing_is(Seq::empty(), Set::empty());
}

proof fn lemma_listing_of_one(id: u32)
    ensures
        listing(Set::empty().insert(id)) == seq![id],
{
    let q = seq![id];
    assert forall|x: u32| #[trigger] q.contains(x) <==> Set::empty().insert(id).contains(x) by {
        if x == id {
            assert(q[0] == x);
        }
    }
    lemma_listing_is(q, Set::empty().insert(id));
}

/// A view that was created can be dropped while nothing refers to it, and then the catalog is as
/// it was before.
pub proof fn law_drop_undoes_create_of_view(
    c: CatalogManagerCoreModel,
    view: ViewInfoModel,
    fragments: Map<u32, JobFragmentsModel>,
    mode: DropMode,
)
    requires
        counts_positive(c),
        can_own(c.user, view.owner, 1),
        fits(c.database.relation_ref_count, view.dependent_relations),
        !c.database.views.contains_key(view.id),
        !c.database.relation_ref_count.contains_key(view.id),
        !view.dependent_relations.contains(view.id),
        nobody_holds(c.user.user_info, Object::ViewId(view.id)),
        view_created(c, view) is Ok,
    ensures
        ({
            let s = view_created(c, view)->Ok_0.0;
            let r = drop_result(s, fragments, mode, RelationIdEnum::View(view.id));
            r is Ok && r->Ok_0.0 == c
        }),
{
    let s = view_created(c, view)->Ok_0.0;
    let db = s.database;
    let relation = RelationIdEnum::View(view.id);
    let blank = DropPlanModel::blank();
    let plan = DropPlanModel { views: Set::empty().insert(view.id), ..blank };
    let queue = seq![relation];
    let none = Seq::<RelationIdEnum>::empty();
    assert(count_of(db.relation_ref_count, view.id) == 0);
    assert(step(db, fragments, mode, blank, queue[0]) == Ok::<_, MetaErrorModel>((plan, none)));
    assert(plan.views.contains(view.id));
    assert(queue.drop_first() + none =~= none);
    assert(planned(db, fragments, mode, plan, none) == Ok::<_, MetaErrorModel>(plan));
    assert(drop_plan(db, fragments, mode, relation) == Ok::<_, MetaErrorModel>(plan));
    lemma_listing_of_none();
    lemma_listing_of_one(view.id);
    assert(Seq::<u32>::empty().filter(into_other_table(db, relation)) =~= Seq::empty()) by {
        reveal(Seq::filter);
    }
    assert(table_sinks(db, relation, plan) == 0);
    // What the plan takes back is what the creation added.
    assert(values_at(db.views, seq![view.id]) =~= seq![view]);
    assert(values_at(db.tables, Seq::empty()) =~= Seq::empty());
    assert(values_at(db.indexes, Seq::empty()) =~= Seq::empty());
    assert(values_at(db.sources, Seq::empty()) =~= Seq::empty());
    assert(values_at(db.sinks, Seq::empty()) =~= Seq::empty());
    assert(values_at(db.subscriptions, Seq::empty()) =~= Seq::empty());
    reveal_with_fuel(gather, 2);
    assert(seq![view].drop_last() =~= Seq::empty());
    assert(planned_owners(db, plan) =~= times(view.owner, 1));
    assert(planned_relations(db, plan) =~= view.dependent_relations);
    assert(planned_connections(db, plan) =~= Seq::empty());
    assert(planned_secrets(db, plan) =~= Seq::empty());
    assert(planned_objects(plan) =~= seq![Object::ViewId(view.id)]);
    lemma_lowered_nothing(db.connection_ref_count);
    lemma_lowered_nothing(db.secret_ref_count);
    lemma_lowered_undoes_raised(c.database.relation_ref_count, view.dependent_relations);
    lemma_owned_and_back(c.user, view.owner, 1);
    lemma_nothing_stripped(c.user.user_info, Object::ViewId(view.id));
    let after = dropped(s, plan);
    assert(after.database.tables =~= c.database.tables);
    assert(after.database.indexes =~= c.database.indexes);
    assert(after.database.sources =~= c.database.sources);
    assert(after.database.views =~= c.database.views);
    assert(after.database.sinks =~= c.database.sinks);
    assert(after.database.subscriptions =~= c.database.subscriptions);
    assert(after =~= c);
}

/// The replacement of a table that is started and cancelled leaves no trace.
pub proof fn law_cancel_undoes_start_of_replacement(
    c: CatalogManagerCoreModel,
    source: Option<SourceModel>,
    table: TableModel,
)
    requires
        replace_started(c, source, table).1 is None,
    ensures
        replacing_cancelled(replace_started(c, source, table).0, source, table) == c,
{
    let after = replacing_cancelled(replace_started(c, source, table).0, source, table);
    assert(after.database.in_progress_creation_tracker =~= c.database.in_progress_creation_tracker);
    assert(after.database =~= c.database);
    assert(after =~= c);
}

// ---------------------------------------------------------------------------
// Finishing and handing over.
// ---------------------------------------------------------------------------

/// A table whose creation started can be finished. It then stands in the catalog as created, its
/// name is free for the next creation, and it stays counted.
pub proof fn law_started_table_can_be_finished(
    c: CatalogManagerCoreModel,
    table: TableModel,
    internal: Seq<TableModel>,
)
    requires
        !c.database.in_progress_creating_streaming_job.contains_key(table.id),
        forall|i: int| 0 <= i < internal.len() ==> (#[trigger] internal[i]).id != table.id,
        table_started(c, table).1 is None,
    ensures
        ({
            let s = table_started(c, table).0;
            let f = table_finished(s, internal, table).0;
            &&& s.database.in_progress(table_key(table))
            &&& f.database.tables.contains_key(table.id)
            &&& f.database.tables[table.id] == (TableModel {
                stream_job_status: StreamJobStatus::Created,
                ..table
            })
            &&& f.database.in_progress_creation_tracker == c.database.in_progress_creation_tracker
            &&& f.database.in_progress_creating_streaming_job
                == c.database.in_progress_creating_streaming_job
            &&& f.database.relation_ref_count == raised(
                c.database.relation_ref_count,
                table.dependent_relations,
            )
            &&& f.user == owning_more(c.user, table.owner, 1)
        }),
{
    let s = table_started(c, table).0;
    let f = table_finished(s, internal, table).0;
    let new = created_tables(internal);
    let m = s.database.tables.insert(table.id, created_table()(table));
    lemma_inserted_tables(m, new);
    assert(!table_ids(new).contains(table.id)) by {
        if table_ids(new).contains(table.id) {
            let k = choose|k: int| 0 <= k < table_ids(new).len() && table_ids(new)[k] == table.id;
            assert(internal[k].id == table.id);
        }
    }
    assert(s.database.in_progress(table_key(table)));
    assert(f.database.tables == inserted(m, new, table_id()));
    assert(f.database.tables.contains_key(table.id));
    assert(f.database.tables[table.id] == m[table.id]);
    assert(created_table()(table) == (TableModel {
        stream_job_status: StreamJobStatus::Created,
        ..table
    }));
    assert(f.database.in_progress_creation_tracker =~= c.database.in_progress_creation_tracker);
    assert(f.database.in_progress_creating_streaming_job
        =~= c.database.in_progress_creating_streaming_job);
    assert(f.database.relation_ref_count == s.database.relation_ref_count);
    assert(f.user == s.user);
}

/// Handing objects over moves their count from one owner to another and touches nobody else.
pub proof fn law_handing_over_moves_counts(
    counts: Map<u32, usize>,
    from: u32,
    to: u32,
    n: nat,
    x: u32,
)
    requires
        transferable(counts, from, to, n),
        from != to,
    ensures
        count_of(transferred(counts, from, to, n), x) == if x == from {
            (count_of(counts, x) - n) as nat
        } else if x == to {
            count_of(counts, x) + n
        } else {
            count_of(counts, x)
        },
{
    lemma_times(from, n, x);
    lemma_times(to, n, x);
    lemma_occurrences_contains(times(to, n), x);
    lemma_occurrences_contains(times(from, n), x);
}

} // verus!
