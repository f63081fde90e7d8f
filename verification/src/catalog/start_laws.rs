//! What holds once a creation is started: the name is taken, what the relation refers to is counted,
//! and its owner owns more. A creation is started exactly where nothing stands against it.

use vstd::prelude::*;

use crate::catalog::creating::{
    index_key, index_start_refusal, index_started, mview_cancelled, mview_started, sink_key,
    sink_start_refusal, sink_started, source_key, source_start_refusal, source_started,
    subscription_key, subscription_start_refusal, subscription_started, table_key,
    table_start_refusal, table_started, table_with_source_started, waiting_for,
};
use crate::catalog::effects::{
    kept_but, lemma_inserted_at, lemma_inserted_other, stands, tells, told_of, told_truly,
};
use crate::catalog::error::{CatalogKind, MetaErrorModel};
use crate::catalog::finish_laws::{ids_of, own_tables};
use crate::catalog::jobs::{job_is_finished, job_started};
use crate::catalog::notify::{Operation, RelationInfoModel, StreamingJobModel};
use crate::catalog::objects::{can_own, owns};
use crate::catalog::rename::table_id;
use crate::catalog::state::{CatalogManagerCoreModel, DatabaseManagerModel, UserManagerModel};
use crate::catalog::types::{
    IndexModel, RelationKeyModel, SinkModel, SourceModel, StreamJobStatus, SubscriptionModel,
    TableModel,
};
use crate::util::counts::{count_of, covers, fits, lemma_times, raised, times};
use crate::util::id_map::{ids_where, lemma_ids_where};
use crate::util::ids::{lemma_occurrences_contains, occurrences};

verus! {

// ---------------------------------------------------------------------------
// Names.
// ---------------------------------------------------------------------------

/// No relation of the catalog has this name in this schema.
pub open spec fn name_is_free(db: DatabaseManagerModel, key: RelationKeyModel) -> bool {
    &&& forall|x: u32| #[trigger] db.tables.contains_key(x) ==> !(db.tables[x].name == key.name
        && db.tables[x].schema_id == key.schema_id && db.tables[x].database_id == key.database_id)
    &&& forall|x: u32| #[trigger] db.sources.contains_key(x) ==> !(db.sources[x].name == key.name
        && db.sources[x].schema_id == key.schema_id && db.sources[x].database_id == key.database_id)
    &&& forall|x: u32| #[trigger] db.indexes.contains_key(x) ==> !(db.indexes[x].name == key.name
        && db.indexes[x].schema_id == key.schema_id && db.indexes[x].database_id == key.database_id)
    &&& forall|x: u32| #[trigger] db.sinks.contains_key(x) ==> !(db.sinks[x].name == key.name
        && db.sinks[x].schema_id == key.schema_id && db.sinks[x].database_id == key.database_id)
    &&& forall|x: u32| #[trigger] db.subscriptions.contains_key(x) ==> !(db.subscriptions[x].name
        == key.name && db.subscriptions[x].schema_id == key.schema_id
        && db.subscriptions[x].database_id == key.database_id)
    &&& forall|x: u32| #[trigger] db.views.contains_key(x) ==> !(db.views[x].name == key.name
        && db.views[x].schema_id == key.schema_id && db.views[x].database_id == key.database_id)
}

/// A name is refused exactly where a relation of the same schema has it: as a duplicate, or, where a
/// table of that name is still being created, as being created.
pub proof fn law_taken_names_are_refused(db: DatabaseManagerModel, key: RelationKeyModel)
    requires
        db.tables.dom().finite(),
    ensures
        db.name_clash(key) is None <==> name_is_free(db, key),
        match db.name_clash(key) {
            Some(MetaErrorModel::RelationCreating(id)) => {
                &&& db.tables.contains_key(id)
                &&& db.tables[id].name == key.name
                &&& db.tables[id].schema_id == key.schema_id
                &&& db.tables[id].database_id == key.database_id
                &&& db.tables[id].stream_job_status == StreamJobStatus::Creating
            },
            Some(MetaErrorModel::CatalogDuplicated(_, name)) => name == key.name,
            Some(_) => false,
            None => true,
        },
{
    let q = ids_where(db.tables, crate::catalog::database::table_at(key));
    lemma_ids_where(db.tables, crate::catalog::database::table_at(key));
    if q.len() > 0 {
        assert(q.contains(q[0]));
    }
    assert forall|x: u32| #[trigger] db.tables.contains_key(x) && crate::catalog::database::table_at(
        key,
    )(db.tables[x]) implies q.len() > 0 by {
        assert(q.contains(x));
    }
}

/// Every relation that is referred to is known, or the first that is not is named.
pub proof fn law_unknown_relations_are_refused(db: DatabaseManagerModel, ids: Seq<u32>)
    ensures
        db.ensure_relations(ids) is None <==> forall|i: int|
            0 <= i < ids.len() ==> db.tables.contains_key(#[trigger] ids[i]) || db.views.contains_key(
                ids[i],
            ) || db.sources.contains_key(ids[i]),
        match db.ensure_relations(ids) {
            Some(e) => exists|i: int|
                0 <= i < ids.len() && e == MetaErrorModel::CatalogIdNotFound(
                    CatalogKind::Relation,
                    #[trigger] ids[i],
                ) && !db.tables.contains_key(ids[i]),
            None => true,
        },
    decreases ids.len(),
{
    if ids.len() > 0 {
        let d = ids.drop_first();
        law_unknown_relations_are_refused(db, d);
        assert forall|i: int| 0 <= i < d.len() implies #[trigger] d[i] == ids[i + 1] by {}
        if db.knows_relation(ids[0]) {
            assert forall|i: int| 0 <= i < ids.len() && db.ensure_relations(d) is None implies (
            db.tables.contains_key(#[trigger] ids[i]) || db.views.contains_key(ids[i])
                || db.sources.contains_key(ids[i])) by {
                if i > 0 {
                    assert(d[i - 1] == ids[i]);
                }
            }
            if db.ensure_relations(d) is Some {
                let e = db.ensure_relations(d)->0;
                let i = choose|i: int|
                    0 <= i < d.len() && e == MetaErrorModel::CatalogIdNotFound(
                        CatalogKind::Relation,
                        #[trigger] d[i],
                    ) && !db.tables.contains_key(d[i]);
                assert(ids[i + 1] == d[i]);
                if forall|i: int|
                    0 <= i < ids.len() ==> db.tables.contains_key(#[trigger] ids[i])
                        || db.views.contains_key(ids[i]) || db.sources.contains_key(ids[i]) {
                    assert forall|i: int| 0 <= i < d.len() implies db.tables.contains_key(
                        #[trigger] d[i],
                    ) || db.views.contains_key(d[i]) || db.sources.contains_key(d[i]) by {
                        assert(d[i] == ids[i + 1]);
                    }
                }
            }
        } else {
            assert(!db.tables.contains_key(ids[0]));
        }
    }
}

/// The database, the schema and the owner are there, every relation that is referred to is known, and
/// the name is free.
pub open spec fn can_stand(
    c: CatalogManagerCoreModel,
    key: RelationKeyModel,
    owner: u32,
    relations: Seq<u32>,
) -> bool {
    &&& c.database.databases.contains_key(key.database_id)
    &&& c.database.schemas.contains_key(key.schema_id)
    &&& forall|i: int|
        0 <= i < relations.len() ==> c.database.tables.contains_key(#[trigger] relations[i])
            || c.database.views.contains_key(relations[i]) || c.database.sources.contains_key(
            relations[i],
        )
    &&& c.user.user_info.contains_key(owner)
    &&& name_is_free(c.database, key)
}

/// A creation is refused at the outset exactly where its database, its schema, its owner or a
/// relation that it depends on is missing, or its name is taken.
pub proof fn law_starts_are_refused_for_cause(
    c: CatalogManagerCoreModel,
    table: TableModel,
    source: SourceModel,
    index: IndexModel,
    sink: SinkModel,
    subscription: SubscriptionModel,
)
    requires
        c.database.tables.dom().finite(),
    ensures
        table_start_refusal(c, table) is None <==> can_stand(
            c,
            table_key(table),
            table.owner,
            table.dependent_relations,
        ),
        source_start_refusal(c, source) is None <==> can_stand(
            c,
            source_key(source),
            source.owner,
            Seq::empty(),
        ),
        index_start_refusal(c, index) is None <==> can_stand(
            c,
            index_key(index),
            index.owner,
            Seq::empty(),
        ) && c.database.tables.contains_key(index.primary_table_id),
        sink_start_refusal(c, sink) is None <==> can_stand(
            c,
            sink_key(sink),
            sink.owner,
            sink.dependent_relations,
        ),
        subscription_start_refusal(c, subscription) is None <==> can_stand(
            c,
            subscription_key(subscription),
            subscription.owner,
            seq![subscription.dependent_table_id],
        ),
{
    law_taken_names_are_refused(c.database, table_key(table));
    law_taken_names_are_refused(c.database, source_key(source));
    law_taken_names_are_refused(c.database, index_key(index));
    law_taken_names_are_refused(c.database, sink_key(sink));
    law_taken_names_are_refused(c.database, subscription_key(subscription));
    law_unknown_relations_are_refused(c.database, table.dependent_relations);
    law_unknown_relations_are_refused(c.database, sink.dependent_relations);
    law_unknown_relations_are_refused(c.database, seq![subscription.dependent_table_id]);
}

// ---------------------------------------------------------------------------
// Counts.
// ---------------------------------------------------------------------------

/// Every identifier is counted once more for each time that it occurs in `ids`.
pub open spec fn counted(before: Map<u32, usize>, after: Map<u32, usize>, ids: Seq<u32>) -> bool {
    forall|x: u32| #[trigger] count_of(after, x) == count_of(before, x) + occurrences(ids, x)
}

/// `owner` owns `n` objects more, and nobody else does.
pub open spec fn owned(before: UserManagerModel, after: UserManagerModel, owner: u32, n: nat) -> bool {
    &&& forall|x: u32| #[trigger]
        count_of(after.catalog_create_ref_count, x) == count_of(before.catalog_create_ref_count, x)
            + if x == owner {
            n
        } else {
            0
        }
    &&& after.user_info == before.user_info
    &&& after.user_grant_relation == before.user_grant_relation
}

pub proof fn lemma_counted(c: Map<u32, usize>, ids: Seq<u32>)
    requires
        fits(c, ids),
    ensures
        counted(c, raised(c, ids), ids),
{
    assert forall|x: u32| #[trigger]
        count_of(raised(c, ids), x) == count_of(c, x) + occurrences(ids, x) by {
        lemma_occurrences_contains(ids, x);
    }
}

pub proof fn lemma_owned(user: UserManagerModel, owner: u32, n: nat)
    requires
        can_own(user, owner, n),
    ensures
        owned(user, crate::catalog::objects::owning_more(user, owner, n), owner, n),
{
    let c = user.catalog_create_ref_count;
    assert(fits(c, times(owner, n))) by {
        assert forall|id: u32| #[trigger]
            occurrences(times(owner, n), id) + count_of(c, id) <= usize::MAX by {
            lemma_times(owner, n, id);
        }
    }
    lemma_counted(c, times(owner, n));
    assert forall|x: u32| #[trigger]
        count_of(raised(c, times(owner, n)), x) == count_of(c, x) + if x == owner {
            n
        } else {
            0
        } by {
        lemma_times(owner, n, x);
    }
}

/// The name is in progress now, and no other name has become so.
pub open spec fn taken(
    before: DatabaseManagerModel,
    after: DatabaseManagerModel,
    key: RelationKeyModel,
) -> bool {
    &&& after.in_progress(key)
    &&& forall|k: RelationKeyModel| k != key ==> #[trigger] after.in_progress(k) == before.in_progress(k)
}

/// The job is in progress under its name, and the others are as before.
pub open spec fn job_taken(
    before: DatabaseManagerModel,
    after: DatabaseManagerModel,
    id: u32,
    key: RelationKeyModel,
) -> bool {
    &&& after.in_progress_creating_streaming_job.contains_key(id)
    &&& after.in_progress_creating_streaming_job[id] == key
    &&& kept_but(
        before.in_progress_creating_streaming_job,
        after.in_progress_creating_streaming_job,
        set![id],
    )
}

/// A started table is in progress under its name and as a job; every relation that it depends on is
/// counted once more, and its owner owns one object more. No object of the catalog changes.
pub proof fn law_started_table_is_in_progress(c: CatalogManagerCoreModel, table: TableModel)
    requires
        can_own(c.user, table.owner, 1),
        fits(c.database.relation_ref_count, table.dependent_relations),
    ensures
        ({
            let (after, e) = table_started(c, table);
            let db = after.database;
            &&& e is None <==> table_start_refusal(c, table) is None && !c.database.in_progress(
                table_key(table),
            )
            &&& e is Some ==> after == c
            &&& e is None ==> {
                &&& taken(c.database, db, table_key(table))
                &&& job_taken(c.database, db, table.id, table_key(table))
                &&& counted(
                    c.database.relation_ref_count,
                    db.relation_ref_count,
                    table.dependent_relations,
                )
                &&& owned(c.user, after.user, table.owner, 1)
                &&& job_is_finished(
                    db,
                    StreamingJobModel::Table(
                        None,
                        table,
                        crate::catalog::types::TableJobType::General,
                    ),
                ) == Ok::<bool, MetaErrorModel>(
                    c.database.tables.contains_key(table.id)
                        && c.database.tables[table.id].stream_job_status
                        == StreamJobStatus::Created,
                )
                &&& forall|x: u32| count_of(db.connection_ref_count, x) == #[trigger] count_of(
                    c.database.connection_ref_count,
                    x,
                )
                &&& forall|x: u32| count_of(db.secret_ref_count, x) == #[trigger] count_of(
                    c.database.secret_ref_count,
                    x,
                )
                &&& db == (DatabaseManagerModel {
                    in_progress_creation_tracker: db.in_progress_creation_tracker,
                    in_progress_creating_streaming_job: db.in_progress_creating_streaming_job,
                    relation_ref_count: db.relation_ref_count,
                    connection_ref_count: db.connection_ref_count,
                    secret_ref_count: db.secret_ref_count,
                    ..c.database
                })
            }
        }),
{
    lemma_counted(c.database.relation_ref_count, table.dependent_relations);
    lemma_none_counted(c.database.connection_ref_count);
    lemma_none_counted(c.database.secret_ref_count);
    lemma_owned(c.user, table.owner, 1);
}

proof fn lemma_none_counted(c: Map<u32, usize>)
    ensures
        forall|x: u32| #[trigger] count_of(raised(c, Seq::empty()), x) == count_of(c, x),
        counted(c, raised(c, Seq::empty()), Seq::empty()),
{
    assert(fits(c, Seq::empty()));
    lemma_counted(c, Seq::empty());
    assert forall|x: u32| #[trigger]
        count_of(raised(c, Seq::empty()), x) == count_of(c, x) by {
        assert(occurrences(Seq::empty(), x) == 0);
    }
}

/// A started source is in progress under its name; its connection and its secrets are counted once
/// more, and its owner owns one object more. Where the connection is missing, that is said, and it is
/// not counted. No object of the catalog changes.
pub proof fn law_started_source_is_in_progress(c: CatalogManagerCoreModel, source: SourceModel)
    requires
        can_own(c.user, source.owner, 1),
        fits(c.database.connection_ref_count, crate::catalog::relations::one_or_none(source.connection_id)),
        fits(c.database.secret_ref_count, source.secret_ids),
    ensures
        ({
            let (after, e) = source_started(c, source);
            let db = after.database;
            let missing = source.connection_id is Some && !c.database.connections.contains_key(
                source.connection_id->0,
            );
            let begun = source_start_refusal(c, source) is None && !c.database.in_progress(
                source_key(source),
            );
            &&& e is None <==> begun && !missing
            &&& begun && missing ==> e == Some(
                MetaErrorModel::ConnectionMissing(source.connection_id->0),
            )
            &&& !begun ==> after == c
            &&& begun ==> {
                &&& taken(c.database, db, source_key(source))
                &&& counted(
                    c.database.connection_ref_count,
                    db.connection_ref_count,
                    if missing || source.connection_id is None {
                        Seq::empty()
                    } else {
                        seq![source.connection_id->0]
                    },
                )
                &&& counted(c.database.secret_ref_count, db.secret_ref_count, source.secret_ids)
                &&& counted(c.database.relation_ref_count, db.relation_ref_count, Seq::empty())
                &&& owned(c.user, after.user, source.owner, 1)
                &&& db == (DatabaseManagerModel {
                    in_progress_creation_tracker: db.in_progress_creation_tracker,
                    relation_ref_count: db.relation_ref_count,
                    connection_ref_count: db.connection_ref_count,
                    secret_ref_count: db.secret_ref_count,
                    ..c.database
                })
            }
        }),
{
    lemma_counted(
        c.database.connection_ref_count,
        crate::catalog::relations::one_or_none(source.connection_id),
    );
    lemma_counted(c.database.secret_ref_count, source.secret_ids);
    lemma_none_counted(c.database.connection_ref_count);
    lemma_none_counted(c.database.relation_ref_count);
    lemma_owned(c.user, source.owner, 1);
}

/// A started table with its source: both names are in progress and the table as a job, the
/// connection and the secrets of the source are counted once more, and the owner owns two objects
/// more. No object of the catalog changes.
pub proof fn law_started_table_with_source_is_in_progress(
    c: CatalogManagerCoreModel,
    source: SourceModel,
    table: TableModel,
)
    requires
        can_own(c.user, source.owner, 2),
        fits(c.database.connection_ref_count, crate::catalog::relations::one_or_none(source.connection_id)),
        fits(c.database.secret_ref_count, source.secret_ids),
    ensures
        ({
            let (after, e) = table_with_source_started(c, source, table);
            let db = after.database;
            let missing = source.connection_id is Some && !c.database.connections.contains_key(
                source.connection_id->0,
            );
            let begun = source_start_refusal(c, source) is None && !c.database.in_progress(
                source_key(source),
            ) && !c.database.in_progress(table_key(table));
            &&& e is None <==> begun && !missing && table.dependent_relations.len() == 0
            &&& !begun ==> after == c
            &&& begun ==> {
                &&& db.in_progress(source_key(source))
                &&& db.in_progress(table_key(table))
                &&& forall|k: RelationKeyModel|
                    k != source_key(source) && k != table_key(table) ==> #[trigger] db.in_progress(k)
                        == c.database.in_progress(k)
                &&& job_taken(c.database, db, table.id, table_key(table))
                &&& counted(c.database.relation_ref_count, db.relation_ref_count, Seq::empty())
                &&& table.dependent_relations.len() > 0 ==> after.user == c.user
                &&& db == (DatabaseManagerModel {
                    in_progress_creation_tracker: db.in_progress_creation_tracker,
                    in_progress_creating_streaming_job: db.in_progress_creating_streaming_job,
                    relation_ref_count: db.relation_ref_count,
                    connection_ref_count: db.connection_ref_count,
                    secret_ref_count: db.secret_ref_count,
                    ..c.database
                })
            }
            &&& e is None ==> {
                &&& counted(
                    c.database.connection_ref_count,
                    db.connection_ref_count,
                    if source.connection_id is None {
                        Seq::empty()
                    } else {
                        seq![source.connection_id->0]
                    },
                )
                &&& counted(c.database.secret_ref_count, db.secret_ref_count, source.secret_ids)
                &&& owned(c.user, after.user, source.owner, 2)
            }
        }),
{
    lemma_counted(
        c.database.connection_ref_count,
        crate::catalog::relations::one_or_none(source.connection_id),
    );
    lemma_counted(c.database.secret_ref_count, source.secret_ids);
    lemma_none_counted(c.database.connection_ref_count);
    lemma_none_counted(c.database.relation_ref_count);
    lemma_owned(c.user, source.owner, 2);
}

/// A started index is in progress under its name, and its table as a job; what the table depends on
/// is counted once more, and the owner owns two objects more. No object of the catalog changes.
pub proof fn law_started_index_is_in_progress(
    c: CatalogManagerCoreModel,
    index: IndexModel,
    table: TableModel,
)
    requires
        can_own(c.user, index.owner, 2),
        fits(c.database.relation_ref_count, table.dependent_relations),
    ensures
        ({
            let (after, e) = index_started(c, index, table);
            let db = after.database;
            &&& e is None <==> index_start_refusal(c, index) is None && !c.database.in_progress(
                index_key(index),
            )
            &&& e is Some ==> after == c
            &&& e is None ==> {
                &&& taken(c.database, db, index_key(index))
                &&& job_taken(c.database, db, table.id, index_key(index))
                &&& counted(
                    c.database.relation_ref_count,
                    db.relation_ref_count,
                    table.dependent_relations,
                )
                &&& counted(c.database.connection_ref_count, db.connection_ref_count, Seq::empty())
                &&& counted(c.database.secret_ref_count, db.secret_ref_count, Seq::empty())
                &&& owned(c.user, after.user, index.owner, 2)
                &&& db == (DatabaseManagerModel {
                    in_progress_creation_tracker: db.in_progress_creation_tracker,
                    in_progress_creating_streaming_job: db.in_progress_creating_streaming_job,
                    relation_ref_count: db.relation_ref_count,
                    connection_ref_count: db.connection_ref_count,
                    secret_ref_count: db.secret_ref_count,
                    ..c.database
                })
            }
        }),
{
    lemma_counted(c.database.relation_ref_count, table.dependent_relations);
    lemma_none_counted(c.database.connection_ref_count);
    lemma_none_counted(c.database.secret_ref_count);
    lemma_owned(c.user, index.owner, 2);
}

/// A started sink is in progress under its name and as a job; what it depends on, its connection and
/// its secrets are counted once more, and its owner owns one object more. Where the connection is
/// missing, that is said, and it is not counted. No object of the catalog changes.
pub proof fn law_started_sink_is_in_progress(c: CatalogManagerCoreModel, sink: SinkModel)
    requires
        can_own(c.user, sink.owner, 1),
        fits(c.database.relation_ref_count, sink.dependent_relations),
        fits(c.database.connection_ref_count, crate::catalog::relations::one_or_none(sink.connection_id)),
        fits(c.database.secret_ref_count, sink.secret_ids),
    ensures
        ({
            let (after, e) = sink_started(c, sink);
            let db = after.database;
            let missing = sink.connection_id is Some && !c.database.connections.contains_key(
                sink.connection_id->0,
            );
            let begun = sink_start_refusal(c, sink) is None && !c.database.in_progress(
                sink_key(sink),
            );
            &&& e is None <==> begun && !missing
            &&& begun && missing ==> e == Some(
                MetaErrorModel::ConnectionMissing(sink.connection_id->0),
            )
            &&& !begun ==> after == c
            &&& begun ==> {
                &&& taken(c.database, db, sink_key(sink))
                &&& job_taken(c.database, db, sink.id, sink_key(sink))
                &&& counted(
                    c.database.relation_ref_count,
                    db.relation_ref_count,
                    sink.dependent_relations,
                )
                &&& counted(
                    c.database.connection_ref_count,
                    db.connection_ref_count,
                    if missing || sink.connection_id is None {
                        Seq::empty()
                    } else {
                        seq![sink.connection_id->0]
                    },
                )
                &&& counted(c.database.secret_ref_count, db.secret_ref_count, sink.secret_ids)
                &&& owned(c.user, after.user, sink.owner, 1)
                &&& db == (DatabaseManagerModel {
                    in_progress_creation_tracker: db.in_progress_creation_tracker,
                    in_progress_creating_streaming_job: db.in_progress_creating_streaming_job,
                    relation_ref_count: db.relation_ref_count,
                    connection_ref_count: db.connection_ref_count,
                    secret_ref_count: db.secret_ref_count,
                    ..c.database
                })
            }
        }),
{
    lemma_counted(c.database.relation_ref_count, sink.dependent_relations);
    lemma_counted(
        c.database.connection_ref_count,
        crate::catalog::relations::one_or_none(sink.connection_id),
    );
    lemma_counted(c.database.secret_ref_count, sink.secret_ids);
    lemma_none_counted(c.database.connection_ref_count);
    lemma_owned(c.user, sink.owner, 1);
}

/// A started subscription stands in the catalog as it was given and is in progress under its name and
/// as a job; the table that it depends on is counted once more, and its owner owns one object more.
/// Nothing else changes.
pub proof fn law_started_subscription_is_in_progress(
    c: CatalogManagerCoreModel,
    subscription: SubscriptionModel,
)
    requires
        can_own(c.user, subscription.owner, 1),
        fits(c.database.relation_ref_count, seq![subscription.dependent_table_id]),
    ensures
        ({
            let (after, e) = subscription_started(c, subscription);
            let db = after.database;
            &&& e is None <==> subscription_start_refusal(c, subscription) is None
                && !c.database.in_progress(subscription_key(subscription))
            &&& e is Some ==> after == c
            &&& e is None ==> {
                &&& stands(db, RelationInfoModel::Subscription(subscription))
                &&& kept_but(c.database.subscriptions, db.subscriptions, set![subscription.id])
                &&& taken(c.database, db, subscription_key(subscription))
                &&& job_taken(c.database, db, subscription.id, subscription_key(subscription))
                &&& counted(
                    c.database.relation_ref_count,
                    db.relation_ref_count,
                    seq![subscription.dependent_table_id],
                )
                &&& counted(c.database.connection_ref_count, db.connection_ref_count, Seq::empty())
                &&& counted(c.database.secret_ref_count, db.secret_ref_count, Seq::empty())
                &&& owned(c.user, after.user, subscription.owner, 1)
                &&& db == (DatabaseManagerModel {
                    subscriptions: db.subscriptions,
                    in_progress_creation_tracker: db.in_progress_creation_tracker,
                    in_progress_creating_streaming_job: db.in_progress_creating_streaming_job,
                    relation_ref_count: db.relation_ref_count,
                    connection_ref_count: db.connection_ref_count,
                    secret_ref_count: db.secret_ref_count,
                    ..c.database
                })
            }
        }),
{
    lemma_counted(c.database.relation_ref_count, seq![subscription.dependent_table_id]);
    lemma_none_counted(c.database.connection_ref_count);
    lemma_none_counted(c.database.secret_ref_count);
    lemma_owned(c.user, subscription.owner, 1);
}

/// A started materialized view stands in the catalog as it was given, and so do its internal tables;
/// what it depends on is counted once more, its owner owns one object more, and the frontends are
/// told of it. Nothing else changes.
pub proof fn law_started_mview_stands(
    c: CatalogManagerCoreModel,
    table: TableModel,
    internal: Seq<TableModel>,
)
    requires
        can_own(c.user, table.owner, 1),
        fits(c.database.relation_ref_count, table.dependent_relations),
        own_tables(table.id, internal),
    ensures
        ({
            let (after, messages) = mview_started(c, table, internal);
            let db = after.database;
            &&& stands(db, RelationInfoModel::Table(table))
            &&& forall|i: int|
                0 <= i < internal.len() ==> stands(db, RelationInfoModel::Table(#[trigger] internal[i]))
            &&& kept_but(c.database.tables, db.tables, ids_of(internal).insert(table.id))
            &&& counted(
                c.database.relation_ref_count,
                db.relation_ref_count,
                table.dependent_relations,
            )
            &&& owned(c.user, after.user, table.owner, 1)
            &&& told_truly(db, messages, Operation::Add)
            &&& tells(messages, RelationInfoModel::Table(table))
            &&& told_of(messages).len() == 1 + internal.len()
            &&& job_is_finished(db, StreamingJobModel::MaterializedView(table)) == Ok::<
                bool,
                MetaErrorModel,
            >(table.stream_job_status == StreamJobStatus::Created)
            &&& db == (DatabaseManagerModel {
                tables: db.tables,
                relation_ref_count: db.relation_ref_count,
                ..c.database
            })
        }),
{
    let (after, messages) = mview_started(c, table, internal);
    let db = after.database;
    let m = c.database.tables;
    let p = table_id();
    lemma_counted(c.database.relation_ref_count, table.dependent_relations);
    lemma_owned(c.user, table.owner, 1);
    assert forall|i: int| 0 <= i < internal.len() implies stands(
        db,
        RelationInfoModel::Table(#[trigger] internal[i]),
    ) by {
        assert forall|j: int| i < j < internal.len() implies p(#[trigger] internal[j]) != p(
            internal[i],
        ) by {
            assert(p(internal[i]) != p(internal[j]));
        }
        lemma_inserted_at(m, internal, p, i);
    }
    assert forall|x: u32| !ids_of(internal).insert(table.id).contains(x) implies {
        &&& (#[trigger] db.tables.contains_key(x) <==> m.contains_key(x))
        &&& m.contains_key(x) ==> db.tables[x] == m[x]
    } by {
        assert forall|i: int| 0 <= i < internal.len() implies p(#[trigger] internal[i]) != x by {}
        lemma_inserted_other(m, internal, p, x);
    }
    let told = told_of(messages);
    assert(told[0] == RelationInfoModel::Table(table));
    assert forall|k: int| 0 <= k < told.len() implies stands(db, #[trigger] told[k]) by {
        if k > 0 {
            assert(told[k] == RelationInfoModel::Table(internal[k - 1]));
        }
    }
}

/// A cancelled materialized view is gone, and so are its internal tables and those who wait for it;
/// what it depends on is counted once less, and its owner owns one object less. Nothing else changes.
pub proof fn law_cancelled_mview_is_gone(c: CatalogManagerCoreModel, id: u32, internal: Seq<u32>)
    requires
        c.database.tables.contains_key(id),
        covers(c.database.relation_ref_count, c.database.tables[id].dependent_relations),
        owns(c.user, c.database.tables[id].owner, 1),
    ensures
        ({
            let table = c.database.tables[id];
            let after = mview_cancelled(c, id, internal);
            let db = after.database;
            &&& !db.tables.contains_key(id)
            &&& forall|i: int| 0 <= i < internal.len() ==> !db.tables.contains_key(#[trigger] internal[i])
            &&& kept_but(c.database.tables, db.tables, internal.to_set().insert(id))
            &&& waiting_for(db, id) == Seq::<u64>::empty()
            &&& kept_but(
                c.database.creating_table_finish_notifier,
                db.creating_table_finish_notifier,
                set![id],
            )
            &&& counted(
                db.relation_ref_count,
                c.database.relation_ref_count,
                table.dependent_relations,
            )
            &&& owned(after.user, c.user, table.owner, 1)
            &&& db == (DatabaseManagerModel {
                tables: db.tables,
                relation_ref_count: db.relation_ref_count,
                creating_table_finish_notifier: db.creating_table_finish_notifier,
                ..c.database
            })
        }),
{
    let table = c.database.tables[id];
    let after = mview_cancelled(c, id, internal);
    let db = after.database;
    let ids = (seq![id] + internal).to_set();
    assert((seq![id] + internal)[0] == id);
    assert forall|i: int| 0 <= i < internal.len() implies !db.tables.contains_key(
        #[trigger] internal[i],
    ) by {
        assert((seq![id] + internal)[i + 1] == internal[i]);
        assert(ids.contains(internal[i]));
    }
    assert forall|x: u32| !internal.to_set().insert(id).contains(x) implies !#[trigger] ids.contains(x) by {
        if (seq![id] + internal).contains(x) {
            let k = choose|k: int| 0 <= k < (seq![id] + internal).len() && (seq![id] + internal)[k] == x;
            if k > 0 {
                assert(internal[k - 1] == x);
            }
        }
    }
    assert forall|x: u32| #[trigger]
        count_of(c.database.relation_ref_count, x) == count_of(db.relation_ref_count, x)
            + occurrences(table.dependent_relations, x) by {
        lemma_occurrences_contains(table.dependent_relations, x);
        assert(occurrences(table.dependent_relations, x) <= count_of(
            c.database.relation_ref_count,
            x,
        ));
    }
    lemma_disowned(c.user, table.owner, 1);
}

/// Owning less is owning more the other way round.
pub proof fn lemma_disowned(user: UserManagerModel, owner: u32, n: nat)
    requires
        owns(user, owner, n),
    ensures
        owned(crate::catalog::objects::owning_less(user, owner, n), user, owner, n),
{
    let c = user.catalog_create_ref_count;
    let less = crate::catalog::objects::owning_less(user, owner, n).catalog_create_ref_count;
    assert forall|x: u32| #[trigger]
        count_of(c, x) == count_of(less, x) + if x == owner {
            n
        } else {
            0
        } by {
        lemma_times(owner, n, x);
        assert(count_of(less, x) + occurrences(times(owner, n), x) == count_of(c, x));
    }
}

/// A job is started as what it creates is: the view, the sink, the index, the table with its source,
/// the table or the source.
pub proof fn law_job_starts_what_it_creates(
    c: CatalogManagerCoreModel,
    job: StreamingJobModel,
    internal: Seq<TableModel>,
)
    ensures
        ({
            let ((after, e), messages) = job_started(c, job, internal);
            &&& job is MaterializedView ==> {
                let table = job->MaterializedView_0;
                &&& e == table_start_refusal(c, table)
                &&& e is Some ==> after == c && messages.len() == 0
                &&& e is None ==> (after, messages) == mview_started(c, table, internal)
            }
            &&& job is Sink ==> (after, e) == sink_started(c, job->Sink_0) && messages.len() == 0
            &&& job is Index ==> (after, e) == index_started(c, job->Index_0, job->Index_1)
                && messages.len() == 0
            &&& job is Table && job->Table_0 is Some ==> (after, e) == table_with_source_started(
                c,
                job->Table_0->0,
                job->Table_1,
            ) && messages.len() == 0
            &&& job is Table && job->Table_0 is None ==> (after, e) == table_started(c, job->Table_1)
                && messages.len() == 0
            &&& job is Source ==> (after, e) == source_started(c, job->Source_0) && messages.len() == 0
        }),
{
}

} // verus!
