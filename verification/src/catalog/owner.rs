//! Handing objects over to another owner.

use vstd::prelude::*;

use crate::catalog::drop::{
    index_tables_of, indexes_of, internal_tables, JobFragments, JobFragmentsModel,
};
use crate::catalog::error::{CatalogKind, MetaError, MetaErrorModel, MetaResult};
use crate::catalog::grant::granted_one;
use crate::catalog::manager::CatalogManager;
use crate::catalog::notify::{
    Info, InfoModel, Notification, NotificationModel, Operation, RelationInfo, RelationInfoModel,
};
use crate::catalog::outcome::{ends_as, Outcome};
use crate::catalog::relations::{
    frontend, frontend_relations, index_infos, indexes_to_infos, one_or_none, source_infos,
    sources_to_infos, table_infos, tables_to_infos,
};
use crate::catalog::state::{CatalogManagerCoreModel, DatabaseManagerModel, UserManagerModel};
use crate::catalog::types::{
    Action, ActionWithGrantOption, DatabaseModel, GrantPrivilege, GrantPrivilegeModel, Index,
    IndexModel, Object, SchemaModel, Sink, SinkModel, Source, SourceModel, Subscription,
    SubscriptionModel, Table, TableModel, UserInfoModel, ViewInfoModel,
};
use crate::util::counts::{count, count_of, lower_by, lowered, raise_by, raised, times};
use crate::util::id_map::{
    all_in, copy_all, updated_at, values_at, views, Entry, IdMap,
};
use crate::util::ids::check_no_duplicates;
use crate::util::lists::{append_all, gather, lemma_gather_push};

verus! {

/// An object that can be handed over.
#[derive(Debug, Clone, Copy, PartialEq, Eq, Structural)]
pub enum OwnedObject {
    TableId(u32),
    ViewId(u32),
    SourceId(u32),
    SinkId(u32),
    DatabaseId(u32),
    SchemaId(u32),
    SubscriptionId(u32),
}

/// A table with another owner.
pub open spec fn table_owned_by(owner: u32) -> spec_fn(TableModel) -> TableModel {
    |x: TableModel| TableModel { owner, ..x }
}

/// An index with another owner.
pub open spec fn index_owned_by(owner: u32) -> spec_fn(IndexModel) -> IndexModel {
    |x: IndexModel| IndexModel { owner, ..x }
}

/// The counts after `n` objects go from one owner to another.
pub open spec fn transferred(counts: Map<u32, usize>, from: u32, to: u32, n: nat) -> Map<u32, usize> {
    raised(lowered(counts, times(from, n)), times(to, n))
}

/// The counts allow `n` objects to go from one owner to another.
pub open spec fn transferable(counts: Map<u32, usize>, from: u32, to: u32, n: nat) -> bool {
    n <= count_of(counts, from) && count_of(counts, to) + n <= usize::MAX
}

/// The first of `ids` whose job is not known.
pub open spec fn first_without(fragments: Map<u32, JobFragmentsModel>, ids: Seq<u32>) -> Option<u32>
    decreases ids.len(),
{
    if ids.len() == 0 {
        None
    } else if !fragments.contains_key(ids[0]) {
        Some(ids[0])
    } else {
        first_without(fragments, ids.drop_first())
    }
}

/// The internal tables of jobs, one behind the other.
pub open spec fn all_internal_tables(fragments: Map<u32, JobFragmentsModel>, ids: Seq<u32>) -> Seq<u32> {
    gather(ids, |t: u32| internal_tables(fragments, t))
}

/// A table and the tables of its indexes.
pub open spec fn table_family(db: DatabaseManagerModel, id: u32) -> Seq<u32> {
    seq![id] + index_tables_of(db, id)
}

pub(crate) fn collect_internal_tables(fragments: &IdMap<JobFragments>, ids: &Vec<u32>) -> (r: MetaResult<
    Vec<u32>,
>)
    ensures
        match first_without(fragments@, ids@) {
            Some(id) => r is Err && r->Err_0@ == MetaErrorModel::FragmentNotFound(id),
            None => r is Ok && r->Ok_0@ == all_internal_tables(fragments@, ids@),
        },
{
    let mut r: Vec<u32> = Vec::new();
    let ghost p = |t: u32| internal_tables(fragments@, t);
    let mut i: usize = 0;
    proof {
        assert(ids@.skip(0) =~= ids@);
        assert(ids@.take(0) =~= Seq::<u32>::empty());
    }
    while i < ids.len()
        invariant
            i <= ids.len(),
            p == (|t: u32| internal_tables(fragments@, t)),
            first_without(fragments@, ids@) == first_without(fragments@, ids@.skip(i as int)),
            r@ == gather(ids@.take(i as int), p),
        decreases ids.len() - i,
    {
        let id: u32 = ids[i];
        proof {
            assert(ids@.skip(i as int)[0] == id);
            assert(ids@.skip(i as int).drop_first() =~= ids@.skip(i + 1));
            assert(ids@.take(i + 1) =~= ids@.take(i as int).push(id));
            lemma_gather_push(ids@.take(i as int), id, p);
        }
        match fragments.get(id) {
            Some(job) => {
                let mut part = copy_all(&job.internal_table_ids);
                r.append(&mut part);
            },
            None => {
                return Err(MetaError::FragmentNotFound(id));
            },
        }
        i = i + 1;
    }
    assert(ids@.take(i as int) =~= ids@);
    Ok(r)
}

/// The users after `n` objects go from one owner to another.
pub open spec fn handed_over(c: CatalogManagerCoreModel, from: u32, to: u32, n: nat) -> UserManagerModel {
    UserManagerModel {
        catalog_create_ref_count: transferred(c.user.catalog_create_ref_count, from, to, n),
        ..c.user
    }
}

impl CatalogManager {
    /// Moves `n` objects from one owner to another.
    fn hand_over(&mut self, from: u32, to: u32, n: usize)
        requires
            n > 0,
            from != to,
            transferable(old(self)@.user.catalog_create_ref_count, from, to, n as nat),
        ensures
            final(self)@ == (CatalogManagerCoreModel {
                user: handed_over(old(self)@, from, to, n as nat),
                ..old(self)@
            }),
    {
        let ghost counts = self@.user.catalog_create_ref_count;
        lower_by(&mut self.core.user.catalog_create_ref_count, from, n);
        proof {
            crate::util::counts::lemma_times(from, n as nat, to);
        }
        raise_by(&mut self.core.user.catalog_create_ref_count, to, n);
    }
}

// ---------------------------------------------------------------------------
// Tables.
// ---------------------------------------------------------------------------

/// A table is handed over with its indexes, their tables, the source it is associated with and
/// all internal tables.
pub open spec fn table_handed_over(
    c: CatalogManagerCoreModel,
    fragments: Map<u32, JobFragmentsModel>,
    id: u32,
    owner: u32,
) -> Outcome {
    let db = c.database;
    match db.ensure_table(id) {
        Some(e) => Err(e),
        None => {
            let table = db.tables[id];
            let family = table_family(db, id);
            let internal = all_internal_tables(fragments, family);
            let indexes = indexes_of(db, id);
            let source = one_or_none(table.optional_associated_source_id);
            if table.owner == owner {
                Ok((c, Seq::empty()))
            } else if first_without(fragments, family) is Some {
                Err(MetaErrorModel::FragmentNotFound(first_without(fragments, family)->0))
            } else {
                let new = DatabaseManagerModel {
                    tables: updated_at(db.tables, family + internal, table_owned_by(owner)),
                    indexes: updated_at(db.indexes, indexes, index_owned_by(owner)),
                    sources: updated_at(
                        db.sources,
                        source,
                        |x: SourceModel| SourceModel { owner, ..x },
                    ),
                    ..db
                };
                let relations = table_infos(values_at(new.tables, family)) + index_infos(
                    values_at(new.indexes, indexes),
                ) + source_infos(values_at(new.sources, source)) + table_infos(
                    values_at(new.tables, internal),
                );
                Ok(
                    (
                        CatalogManagerCoreModel {
                            database: new,
                            user: handed_over(
                                c,
                                table.owner,
                                owner,
                                family.len() + indexes.len() + source.len(),
                            ),
                        },
                        seq![frontend_relations(Operation::Update, relations)],
                    ),
                )
            }
        },
    }
}

/// All of `ids` are tables of `owner`, and none is mentioned twice.
pub open spec fn tables_of(tables: Map<u32, TableModel>, ids: Seq<u32>, owner: u32) -> bool {
    &&& ids.no_duplicates()
    &&& all_in(ids, tables)
    &&& forall|i: int| 0 <= i < ids.len() ==> tables[#[trigger] ids[i]].owner == owner
}

/// What handing a table over presumes: all that goes with it has the same owner, and the owners'
/// objects are counted.
pub open spec fn table_handing_presumes(
    c: CatalogManagerCoreModel,
    fragments: Map<u32, JobFragmentsModel>,
    id: u32,
    owner: u32,
) -> bool {
    let db = c.database;
    let old_owner = db.tables[id].owner;
    let family = table_family(db, id);
    let indexes = indexes_of(db, id);
    let source = one_or_none(db.tables[id].optional_associated_source_id);
    db.tables.contains_key(id) && old_owner != owner && first_without(fragments, family) is None ==> {
        &&& tables_of(db.tables, family + all_internal_tables(fragments, family), old_owner)
        &&& forall|i: int| 0 <= i < indexes.len() ==> db.indexes[#[trigger] indexes[i]].owner == old_owner
        &&& all_in(source, db.sources)
        &&& source.len() > 0 ==> db.sources[source[0]].owner == old_owner
        &&& family.len() + indexes.len() + source.len() <= usize::MAX
        &&& transferable(
            c.user.catalog_create_ref_count,
            old_owner,
            owner,
            family.len() + indexes.len() + source.len(),
        )
    }
}

impl CatalogManager {
    fn alter_table_owner(&mut self, fragments: &IdMap<JobFragments>, id: u32, owner: u32) -> (r:
        MetaResult<Vec<Notification>>)
        requires
            table_handing_presumes(old(self)@, fragments@, id, owner),
        ensures
            ends_as(
                r,
                old(self)@,
                final(self)@,
                table_handed_over(old(self)@, fragments@, id, owner),
            ),
    {
        let ghost c = self@;
        let ghost db = c.database;
        let none: Vec<Notification> = Vec::new();
        assert(views(none@) =~= Seq::<NotificationModel>::empty());
        let (old_owner, source_id) = match self.core.database.tables.get(id) {
            Some(table) => (table.owner, table.optional_associated_source_id),
            None => {
                return Err(MetaError::CatalogIdNotFound(CatalogKind::Table, id));
            },
        };
        if old_owner == owner {
            return Ok(none);
        }
        let (index_ids, index_tables) = self.core.database.indexes_on(id);
        let mut family: Vec<u32> = Vec::new();
        family.push(id);
        let mut part = index_tables;
        family.append(&mut part);
        assert(family@ =~= table_family(db, id));
        let internal = match collect_internal_tables(fragments, &family) {
            Ok(internal) => internal,
            Err(e) => {
                return Err(e);
            },
        };
        let source_ids = crate::catalog::relations::id_list(source_id);
        let ghost all = family@ + internal@;
        proof {
            lemma_split(all, family@, internal@, db.tables);
            lemma_updated_twice(db.tables, family@, internal@, table_owned_by(owner));
            assert(index_ids@.no_duplicates()) by {
                self.core.database.indexes.lemma_finite();
                crate::util::id_map::lemma_ids_where(db.indexes, crate::catalog::drop::index_on(id));
            }
        }
        let f = |x: Table| -> (y: Table)
            ensures
                y@ == table_owned_by(owner)(x@),
        {
            let mut x = x;
            x.owner = owner;
            x
        };
        let family_tables = self.core.database.tables.update_all(&family, f, Ghost(table_owned_by(owner)));
        let ghost middle = self.core.database.tables@;
        let f = |x: Table| -> (y: Table)
            ensures
                y@ == table_owned_by(owner)(x@),
        {
            let mut x = x;
            x.owner = owner;
            x
        };
        let internal_infos = self.core.database.tables.update_all(
            &internal,
            f,
            Ghost(table_owned_by(owner)),
        );
        let f = |x: Index| -> (y: Index)
            ensures
                y@ == index_owned_by(owner)(x@),
        {
            let mut x = x;
            x.owner = owner;
            x
        };
        let new_indexes = self.core.database.indexes.update_all(
            &index_ids,
            f,
            Ghost(index_owned_by(owner)),
        );
        let f = |x: Source| -> (y: Source)
            ensures
                y@ == (SourceModel { owner, ..x@ }),
        {
            let mut x = x;
            x.owner = owner;
            x
        };
        proof {
            assert(source_ids@.no_duplicates());
        }
        let new_sources = self.core.database.sources.update_all(
            &source_ids,
            f,
            Ghost(|x: SourceModel| SourceModel { owner, ..x }),
        );
        let n: usize = family.len() + index_ids.len() + source_ids.len();
        self.hand_over(old_owner, owner, n);
        let mut relations = tables_to_infos(&family_tables);
        append_all(&mut relations, indexes_to_infos(&new_indexes));
        append_all(&mut relations, sources_to_infos(&new_sources));
        append_all(&mut relations, tables_to_infos(&internal_infos));
        proof {
            assert(values_at(middle, family@) =~= values_at(self@.database.tables, family@)) by {
                assert forall|i: int| 0 <= i < family@.len() implies middle[#[trigger] family@[i]]
                    == self@.database.tables[family@[i]] by {
                    assert(all[i] == family@[i]);
                    assert(db.tables.contains_key(all[i]));
                    assert(all.contains(family@[i]));
                    assert(family@.contains(family@[i]));
                    if internal@.contains(family@[i]) {
                        let k = choose|k: int| 0 <= k < internal@.len() && internal@[k] == family@[i];
                        assert(all[family@.len() + k] == all[i]);
                    }
                }
            }
        }
        let mut messages: Vec<Notification> = Vec::new();
        messages.push(Self::notify_frontend_relations(Operation::Update, relations));
        assert(views(messages@) =~= table_handed_over(c, fragments@, id, owner)->Ok_0.1);
        assert(self@ =~= table_handed_over(c, fragments@, id, owner)->Ok_0.0);
        Ok(messages)
    }
}

/// The parts of a list of tables are lists of tables.
pub(crate) proof fn lemma_split(all: Seq<u32>, a: Seq<u32>, b: Seq<u32>, m: Map<u32, TableModel>)
    requires
        all == a + b,
        all_in(all, m),
    ensures
        all_in(a, m),
        all_in(b, m),
        all.no_duplicates() ==> a.no_duplicates() && b.no_duplicates(),
{
    assert forall|i: int| 0 <= i < a.len() implies m.contains_key(#[trigger] a[i]) by {
        assert(all[i] == a[i]);
    }
    assert forall|i: int| 0 <= i < b.len() implies m.contains_key(#[trigger] b[i]) by {
        assert(all[a.len() + i] == b[i]);
    }
    if all.no_duplicates() {
        assert forall|i: int, j: int| 0 <= i < a.len() && 0 <= j < a.len() && i != j implies a[i] != a[j] by {
            assert(all[i] == a[i] && all[j] == a[j]);
        }
        assert forall|i: int, j: int| 0 <= i < b.len() && 0 <= j < b.len() && i != j implies b[i] != b[j] by {
            assert(all[a.len() + i] == b[i] && all[a.len() + j] == b[j]);
        }
    }
}

/// Applying an idempotent function at two lists of keys is the same as at both together.
pub(crate) proof fn lemma_updated_twice<V>(m: Map<u32, V>, a: Seq<u32>, b: Seq<u32>, g: spec_fn(V) -> V)
    requires
        crate::util::id_map::idempotent(g),
    ensures
        updated_at(updated_at(m, a, g), b, g) == updated_at(m, a + b, g),
{
    assert forall|x: u32| (a + b).contains(x) <==> a.contains(x) || b.contains(x) by {
        broadcast use vstd::seq_lib::lemma_seq_concat_contains_all_elements;

    }
    assert forall|x: u32| m.contains_key(x) implies updated_at(updated_at(m, a, g), b, g)[x] == updated_at(
        m,
        a + b,
        g,
    )[x] by {
        assert(g(g(m[x])) == g(m[x]));
    }
    assert(updated_at(updated_at(m, a, g), b, g) =~= updated_at(m, a + b, g));
}

// ---------------------------------------------------------------------------
// Views.
// ---------------------------------------------------------------------------

pub open spec fn view_handed_over(c: CatalogManagerCoreModel, id: u32, owner: u32) -> Outcome {
    let db = c.database;
    match db.ensure_view(id) {
        Some(e) => Err(e),
        None => if db.views[id].owner == owner {
            Ok((c, Seq::empty()))
        } else {
            let new = ViewInfoModel { owner, ..db.views[id] };
            Ok(
                (
                    CatalogManagerCoreModel {
                        database: DatabaseManagerModel { views: db.views.insert(id, new), ..db },
                        user: handed_over(c, db.views[id].owner, owner, 1),
                    },
                    seq![frontend_relations(Operation::Update, seq![RelationInfoModel::View(new)])],
                ),
            )
        },
    }
}

impl CatalogManager {
    fn alter_view_owner(&mut self, id: u32, owner: u32) -> (r: MetaResult<Vec<Notification>>)
        requires
            old(self)@.database.views.contains_key(id) && old(self)@.database.views[id].owner != owner
                ==> transferable(
                old(self)@.user.catalog_create_ref_count,
                old(self)@.database.views[id].owner,
                owner,
                1,
            ),
        ensures
            ends_as(r, old(self)@, final(self)@, view_handed_over(old(self)@, id, owner)),
    {
        let ghost c = self@;
        let mut messages: Vec<Notification> = Vec::new();
        assert(views(messages@) =~= Seq::<NotificationModel>::empty());
        let mut new = match self.core.database.views.get(id) {
            Some(x) => x.duplicate(),
            None => {
                return Err(MetaError::CatalogIdNotFound(CatalogKind::View, id));
            },
        };
        let old_owner: u32 = new.owner;
        if old_owner == owner {
            return Ok(messages);
        }
        new.owner = owner;
        messages.push(
            Self::notify_frontend_relation_info(
                Operation::Update,
                RelationInfo::View(new.duplicate()),
            ),
        );
        self.core.database.views.insert(id, new);
        self.hand_over(old_owner, owner, 1);
        assert(views(messages@) =~= view_handed_over(c, id, owner)->Ok_0.1);
        Ok(messages)
    }
}

// ---------------------------------------------------------------------------
// Sources.
// ---------------------------------------------------------------------------

pub open spec fn source_handed_over(c: CatalogManagerCoreModel, id: u32, owner: u32) -> Outcome {
    let db = c.database;
    match db.ensure_source(id) {
        Some(e) => Err(e),
        None => if db.sources[id].owner == owner {
            Ok((c, Seq::empty()))
        } else {
            let new = SourceModel { owner, ..db.sources[id] };
            Ok(
                (
                    CatalogManagerCoreModel {
                        database: DatabaseManagerModel { sources: db.sources.insert(id, new), ..db },
                        user: handed_over(c, db.sources[id].owner, owner, 1),
                    },
                    seq![frontend_relations(Operation::Update, seq![RelationInfoModel::Source(new)])],
                ),
            )
        },
    }
}

impl CatalogManager {
    fn alter_source_owner(&mut self, id: u32, owner: u32) -> (r: MetaResult<Vec<Notification>>)
        requires
            old(self)@.database.sources.contains_key(id) && old(self)@.database.sources[id].owner != owner
                ==> transferable(
                old(self)@.user.catalog_create_ref_count,
                old(self)@.database.sources[id].owner,
                owner,
                1,
            ),
        ensures
            ends_as(r, old(self)@, final(self)@, source_handed_over(old(self)@, id, owner)),
    {
        let ghost c = self@;
        let mut messages: Vec<Notification> = Vec::new();
        assert(views(messages@) =~= Seq::<NotificationModel>::empty());
        let mut new = match self.core.database.sources.get(id) {
            Some(x) => x.duplicate(),
            None => {
                return Err(MetaError::CatalogIdNotFound(CatalogKind::Source, id));
            },
        };
        let old_owner: u32 = new.owner;
        if old_owner == owner {
            return Ok(messages);
        }
        new.owner = owner;
        messages.push(
            Self::notify_frontend_relation_info(
                Operation::Update,
                RelationInfo::Source(new.duplicate()),
            ),
        );
        self.core.database.sources.insert(id, new);
        self.hand_over(old_owner, owner, 1);
        assert(views(messages@) =~= source_handed_over(c, id, owner)->Ok_0.1);
        Ok(messages)
    }
}

// ---------------------------------------------------------------------------
// Subscriptions.
// ---------------------------------------------------------------------------

pub open spec fn subscription_handed_over(c: CatalogManagerCoreModel, id: u32, owner: u32) -> Outcome {
    let db = c.database;
    match db.ensure_subscription(id) {
        Some(e) => Err(e),
        None => if db.subscriptions[id].owner == owner {
            Ok((c, Seq::empty()))
        } else {
            let new = SubscriptionModel { owner, ..db.subscriptions[id] };
            Ok(
                (
                    CatalogManagerCoreModel {
                        database: DatabaseManagerModel { subscriptions: db.subscriptions.insert(id, new), ..db },
                        user: handed_over(c, db.subscriptions[id].owner, owner, 1),
                    },
                    seq![frontend_relations(Operation::Update, seq![RelationInfoModel::Subscription(new)])],
                ),
            )
        },
    }
}

impl CatalogManager {
    fn alter_subscription_owner(&mut self, id: u32, owner: u32) -> (r: MetaResult<Vec<Notification>>)
        requires
            old(self)@.database.subscriptions.contains_key(id) && old(self)@.database.subscriptions[id].owner != owner
                ==> transferable(
                old(self)@.user.catalog_create_ref_count,
                old(self)@.database.subscriptions[id].owner,
                owner,
                1,
            ),
        ensures
            ends_as(r, old(self)@, final(self)@, subscription_handed_over(old(self)@, id, owner)),
    {
        let ghost c = self@;
        let mut messages: Vec<Notification> = Vec::new();
        assert(views(messages@) =~= Seq::<NotificationModel>::empty());
        let mut new = match self.core.database.subscriptions.get(id) {
            Some(x) => x.duplicate(),
            None => {
                return Err(MetaError::CatalogIdNotFound(CatalogKind::Subscription, id));
            },
        };
        let old_owner: u32 = new.owner;
        if old_owner == owner {
            return Ok(messages);
        }
        new.owner = owner;
        messages.push(
            Self::notify_frontend_relation_info(
                Operation::Update,
                RelationInfo::Subscription(new.duplicate()),
            ),
        );
        self.core.database.subscriptions.insert(id, new);
        self.hand_over(old_owner, owner, 1);
        assert(views(messages@) =~= subscription_handed_over(c, id, owner)->Ok_0.1);
        Ok(messages)
    }
}

// ---------------------------------------------------------------------------
// Sinks.
// ---------------------------------------------------------------------------

/// A sink is handed over with its internal tables.
pub open spec fn sink_handed_over(
    c: CatalogManagerCoreModel,
    fragments: Map<u32, JobFragmentsModel>,
    id: u32,
    owner: u32,
) -> Outcome {
    let db = c.database;
    match db.ensure_sink(id) {
        Some(e) => Err(e),
        None => if db.sinks[id].owner == owner {
            Ok((c, Seq::empty()))
        } else if !fragments.contains_key(id) {
            Err(MetaErrorModel::FragmentNotFound(id))
        } else {
            let new = SinkModel { owner, ..db.sinks[id] };
            let internal = fragments[id].internal_table_ids;
            let tables = updated_at(db.tables, internal, table_owned_by(owner));
            Ok(
                (
                    CatalogManagerCoreModel {
                        database: DatabaseManagerModel {
                            sinks: db.sinks.insert(id, new),
                            tables,
                            ..db
                        },
                        user: handed_over(c, db.sinks[id].owner, owner, 1),
                    },
                    seq![
                        frontend_relations(
                            Operation::Update,
                            seq![RelationInfoModel::Sink(new)] + table_infos(
                                values_at(tables, internal),
                            ),
                        ),
                    ],
                ),
            )
        },
    }
}

/// What handing a sink over presumes.
pub open spec fn sink_handing_presumes(
    c: CatalogManagerCoreModel,
    fragments: Map<u32, JobFragmentsModel>,
    id: u32,
    owner: u32,
) -> bool {
    let db = c.database;
    let old_owner = db.sinks[id].owner;
    db.sinks.contains_key(id) && old_owner != owner && fragments.contains_key(id) ==> {
        &&& tables_of(db.tables, fragments[id].internal_table_ids, old_owner)
        &&& transferable(c.user.catalog_create_ref_count, old_owner, owner, 1)
    }
}

impl CatalogManager {
    fn alter_sink_owner(&mut self, fragments: &IdMap<JobFragments>, id: u32, owner: u32) -> (r:
        MetaResult<Vec<Notification>>)
        requires
            sink_handing_presumes(old(self)@, fragments@, id, owner),
        ensures
            ends_as(
                r,
                old(self)@,
                final(self)@,
                sink_handed_over(old(self)@, fragments@, id, owner),
            ),
    {
        let ghost c = self@;
        let mut messages: Vec<Notification> = Vec::new();
        assert(views(messages@) =~= Seq::<NotificationModel>::empty());
        let mut new = match self.core.database.sinks.get(id) {
            Some(x) => x.duplicate(),
            None => {
                return Err(MetaError::CatalogIdNotFound(CatalogKind::Sink, id));
            },
        };
        let old_owner: u32 = new.owner;
        if old_owner == owner {
            return Ok(messages);
        }
        new.owner = owner;
        let internal = match fragments.get(id) {
            Some(job) => copy_all(&job.internal_table_ids),
            None => {
                return Err(MetaError::FragmentNotFound(id));
            },
        };
        let f = |x: Table| -> (y: Table)
            ensures
                y@ == table_owned_by(owner)(x@),
        {
            let mut x = x;
            x.owner = owner;
            x
        };
        let tables = self.core.database.tables.update_all(&internal, f, Ghost(table_owned_by(owner)));
        let mut relations: Vec<RelationInfo> = Vec::new();
        relations.push(RelationInfo::Sink(new.duplicate()));
        assert(views(relations@) =~= seq![RelationInfoModel::Sink(new@)]);
        append_all(&mut relations, tables_to_infos(&tables));
        messages.push(Self::notify_frontend_relations(Operation::Update, relations));
        self.core.database.sinks.insert(id, new);
        self.hand_over(old_owner, owner, 1);
        assert(views(messages@) =~= sink_handed_over(c, fragments@, id, owner)->Ok_0.1);
        Ok(messages)
    }
}

// ---------------------------------------------------------------------------
// Databases and schemas.
// ---------------------------------------------------------------------------

/// The privilege to connect to a database, granted by its former owner.
pub open spec fn connect_privilege(database_id: u32, granted_by: u32) -> GrantPrivilegeModel {
    GrantPrivilegeModel {
        object: Some(Object::DatabaseId(database_id)),
        action_with_opts: seq![
            ActionWithGrantOption { action: Action::Connect, with_grant_option: false, granted_by },
        ],
    }
}

/// A database is handed over; the new owner is granted to connect to it.
pub open spec fn database_handed_over(c: CatalogManagerCoreModel, id: u32, owner: u32) -> Outcome {
    let db = c.database;
    match db.ensure_database(id) {
        Some(e) => Err(e),
        None => if db.databases[id].owner == owner {
            Ok((c, Seq::empty()))
        } else {
            let old_owner = db.databases[id].owner;
            let new = DatabaseModel { owner, ..db.databases[id] };
            let user = c.user.user_info[owner];
            let new_user = UserInfoModel {
                grant_privileges: granted_one(
                    user.grant_privileges,
                    connect_privilege(id, old_owner),
                ),
                ..user
            };
            Ok(
                (
                    CatalogManagerCoreModel {
                        database: DatabaseManagerModel {
                            databases: db.databases.insert(id, new),
                            ..db
                        },
                        user: UserManagerModel {
                            user_info: c.user.user_info.insert(owner, new_user),
                            ..handed_over(c, old_owner, owner, 1)
                        },
                    },
                    seq![
                        frontend(Operation::Update, InfoModel::User(new_user)),
                        frontend(Operation::Update, InfoModel::Database(new)),
                    ],
                ),
            )
        },
    }
}

pub open spec fn schema_handed_over(c: CatalogManagerCoreModel, id: u32, owner: u32) -> Outcome {
    let db = c.database;
    match db.ensure_schema(id) {
        Some(e) => Err(e),
        None => if db.schemas[id].owner == owner {
            Ok((c, Seq::empty()))
        } else {
            let new = SchemaModel { owner, ..db.schemas[id] };
            Ok(
                (
                    CatalogManagerCoreModel {
                        database: DatabaseManagerModel { schemas: db.schemas.insert(id, new), ..db },
                        user: handed_over(c, db.schemas[id].owner, owner, 1),
                    },
                    seq![frontend(Operation::Update, InfoModel::Schema(new))],
                ),
            )
        },
    }
}

impl CatalogManager {
    fn alter_database_owner(&mut self, id: u32, owner: u32) -> (r: MetaResult<Vec<Notification>>)
        requires
            old(self)@.database.databases.contains_key(id)
                && old(self)@.database.databases[id].owner != owner ==> old(
                self,
            )@.user.user_info.contains_key(owner) && transferable(
                old(self)@.user.catalog_create_ref_count,
                old(self)@.database.databases[id].owner,
                owner,
                1,
            ),
        ensures
            ends_as(r, old(self)@, final(self)@, database_handed_over(old(self)@, id, owner)),
    {
        let ghost c = self@;
        let mut messages: Vec<Notification> = Vec::new();
        assert(views(messages@) =~= Seq::<NotificationModel>::empty());
        let mut new = match self.core.database.databases.get(id) {
            Some(x) => x.duplicate(),
            None => {
                return Err(MetaError::CatalogIdNotFound(CatalogKind::Database, id));
            },
        };
        let old_owner: u32 = new.owner;
        if old_owner == owner {
            return Ok(messages);
        }
        new.owner = owner;
        let mut user = match self.core.user.user_info.get(owner) {
            Some(user) => user.duplicate(),
            None => {
                return Ok(messages);
            },
        };
        let mut actions: Vec<ActionWithGrantOption> = Vec::new();
        actions.push(
            ActionWithGrantOption {
                action: Action::Connect,
                with_grant_option: false,
                granted_by: old_owner,
            },
        );
        let privilege = GrantPrivilege {
            action_with_opts: actions,
            object: Some(Object::DatabaseId(id)),
        };
        assert(privilege@ =~= connect_privilege(id, old_owner));
        Self::add_privilege(&mut user.grant_privileges, &privilege);
        messages.push(Self::notify_frontend(Operation::Update, Info::User(user.duplicate())));
        messages.push(Self::notify_frontend(Operation::Update, Info::Database(new.duplicate())));
        self.core.database.databases.insert(id, new);
        self.core.user.user_info.insert(owner, user);
        self.hand_over(old_owner, owner, 1);
        assert(views(messages@) =~= database_handed_over(c, id, owner)->Ok_0.1);
        Ok(messages)
    }

    fn alter_schema_owner(&mut self, id: u32, owner: u32) -> (r: MetaResult<Vec<Notification>>)
        requires
            old(self)@.database.schemas.contains_key(id) && old(self)@.database.schemas[id].owner
                != owner ==> transferable(
                old(self)@.user.catalog_create_ref_count,
                old(self)@.database.schemas[id].owner,
                owner,
                1,
            ),
        ensures
            ends_as(r, old(self)@, final(self)@, schema_handed_over(old(self)@, id, owner)),
    {
        let ghost c = self@;
        let mut messages: Vec<Notification> = Vec::new();
        assert(views(messages@) =~= Seq::<NotificationModel>::empty());
        let mut new = match self.core.database.schemas.get(id) {
            Some(x) => x.duplicate(),
            None => {
                return Err(MetaError::CatalogIdNotFound(CatalogKind::Schema, id));
            },
        };
        let old_owner: u32 = new.owner;
        if old_owner == owner {
            return Ok(messages);
        }
        new.owner = owner;
        messages.push(Self::notify_frontend(Operation::Update, Info::Schema(new.duplicate())));
        self.core.database.schemas.insert(id, new);
        self.hand_over(old_owner, owner, 1);
        assert(views(messages@) =~= schema_handed_over(c, id, owner)->Ok_0.1);
        Ok(messages)
    }
}

// ---------------------------------------------------------------------------
// All objects.
// ---------------------------------------------------------------------------

/// The catalog and the messages after an object is handed over, or the refusal. Nothing happens
/// where it has that owner.
pub open spec fn owner_altered(
    c: CatalogManagerCoreModel,
    fragments: Map<u32, JobFragmentsModel>,
    object: OwnedObject,
    owner: u32,
) -> Outcome {
    match object {
        OwnedObject::TableId(id) => table_handed_over(c, fragments, id, owner),
        OwnedObject::ViewId(id) => view_handed_over(c, id, owner),
        OwnedObject::SourceId(id) => source_handed_over(c, id, owner),
        OwnedObject::SinkId(id) => sink_handed_over(c, fragments, id, owner),
        OwnedObject::DatabaseId(id) => database_handed_over(c, id, owner),
        OwnedObject::SchemaId(id) => schema_handed_over(c, id, owner),
        OwnedObject::SubscriptionId(id) => subscription_handed_over(c, id, owner),
    }
}

/// What handing an object over presumes.
pub open spec fn handing_presumes(
    c: CatalogManagerCoreModel,
    fragments: Map<u32, JobFragmentsModel>,
    object: OwnedObject,
    owner: u32,
) -> bool {
    let db = c.database;
    let counts = c.user.catalog_create_ref_count;
    match object {
        OwnedObject::TableId(id) => table_handing_presumes(c, fragments, id, owner),
        OwnedObject::SinkId(id) => sink_handing_presumes(c, fragments, id, owner),
        OwnedObject::ViewId(id) => db.views.contains_key(id) && db.views[id].owner != owner
            ==> transferable(counts, db.views[id].owner, owner, 1),
        OwnedObject::SourceId(id) => db.sources.contains_key(id) && db.sources[id].owner != owner
            ==> transferable(counts, db.sources[id].owner, owner, 1),
        OwnedObject::DatabaseId(id) => db.databases.contains_key(id) && db.databases[id].owner
            != owner ==> c.user.user_info.contains_key(owner) && transferable(
            counts,
            db.databases[id].owner,
            owner,
            1,
        ),
        OwnedObject::SchemaId(id) => db.schemas.contains_key(id) && db.schemas[id].owner != owner
            ==> transferable(counts, db.schemas[id].owner, owner, 1),
        OwnedObject::SubscriptionId(id) => db.subscriptions.contains_key(id)
            && db.subscriptions[id].owner != owner ==> transferable(
            counts,
            db.subscriptions[id].owner,
            owner,
            1,
        ),
    }
}

impl CatalogManager {
    pub fn alter_owner(
        &mut self,
        fragments: &IdMap<JobFragments>,
        object: OwnedObject,
        owner_id: u32,
    ) -> (r: MetaResult<Vec<Notification>>)
        requires
            handing_presumes(old(self)@, fragments@, object, owner_id),
        ensures
            ends_as(
                r,
                old(self)@,
                final(self)@,
                owner_altered(old(self)@, fragments@, object, owner_id),
            ),
    {
        match object {
            OwnedObject::TableId(id) => self.alter_table_owner(fragments, id, owner_id),
            OwnedObject::ViewId(id) => self.alter_view_owner(id, owner_id),
            OwnedObject::SourceId(id) => self.alter_source_owner(id, owner_id),
            OwnedObject::SinkId(id) => self.alter_sink_owner(fragments, id, owner_id),
            OwnedObject::DatabaseId(id) => self.alter_database_owner(id, owner_id),
            OwnedObject::SchemaId(id) => self.alter_schema_owner(id, owner_id),
            OwnedObject::SubscriptionId(id) => self.alter_subscription_owner(id, owner_id),
        }
    }
}

// ---------------------------------------------------------------------------
// Whether an object can be handed over.
// ---------------------------------------------------------------------------

/// Whether the counts allow `n` objects to go from one owner to another.
fn check_transferable(counts: &IdMap<usize>, from: u32, to: u32, n: usize) -> (r: bool)
    ensures
        r == transferable(counts@, from, to, n as nat),
{
    n <= count(counts, from) && n <= usize::MAX - count(counts, to)
}

/// Whether all of `ids` are tables of `owner`, and none is mentioned twice.
fn check_tables_of(tables: &IdMap<Table>, ids: &Vec<u32>, owner: u32) -> (r: bool)
    ensures
        r == tables_of(tables@, ids@, owner),
{
    if !check_no_duplicates(ids) || !tables.contains_all(ids) {
        return false;
    }
    let mut i: usize = 0;
    while i < ids.len()
        invariant
            i <= ids.len(),
            all_in(ids@, tables@),
            forall|k: int| 0 <= k < i ==> tables@[#[trigger] ids@[k]].owner == owner,
        decreases ids.len() - i,
    {
        assert(tables@.contains_key(ids@[i as int]));
        match tables.get(ids[i]) {
            Some(table) => {
                if table.owner != owner {
                    assert(tables@[ids@[i as int]].owner != owner);
                    return false;
                }
            },
            None => {},
        }
        i = i + 1;
    }
    true
}

/// Whether all of `ids` are indexes of `owner`.
fn check_indexes_of(indexes: &IdMap<Index>, ids: &Vec<u32>, owner: u32) -> (r: bool)
    requires
        all_in(ids@, indexes@),
    ensures
        r == forall|i: int| 0 <= i < ids@.len() ==> indexes@[#[trigger] ids@[i]].owner == owner,
{
    let mut i: usize = 0;
    while i < ids.len()
        invariant
            i <= ids.len(),
            all_in(ids@, indexes@),
            forall|k: int| 0 <= k < i ==> indexes@[#[trigger] ids@[k]].owner == owner,
        decreases ids.len() - i,
    {
        assert(indexes@.contains_key(ids@[i as int]));
        match indexes.get(ids[i]) {
            Some(index) => {
                if index.owner != owner {
                    assert(indexes@[ids@[i as int]].owner != owner);
                    return false;
                }
            },
            None => {},
        }
        i = i + 1;
    }
    true
}

impl CatalogManager {
    fn can_hand_table(&self, fragments: &IdMap<JobFragments>, id: u32, owner: u32) -> (r: bool)
        ensures
            r == table_handing_presumes(self@, fragments@, id, owner),
    {
        let db = &self.core.database;
        let (old_owner, source_id) = match db.tables.get(id) {
            Some(table) => (table.owner, table.optional_associated_source_id),
            None => {
                return true;
            },
        };
        if old_owner == owner {
            return true;
        }
        let (index_ids, index_tables) = db.indexes_on(id);
        let mut family: Vec<u32> = Vec::new();
        family.push(id);
        let mut part = index_tables;
        family.append(&mut part);
        assert(family@ =~= table_family(db@, id));
        let mut internal = match collect_internal_tables(fragments, &family) {
            Ok(internal) => internal,
            Err(_) => {
                return true;
            },
        };
        let family_len: usize = family.len();
        let index_len: usize = index_ids.len();
        family.append(&mut internal);
        if !check_tables_of(&db.tables, &family, old_owner) || !check_indexes_of(
            &db.indexes,
            &index_ids,
            old_owner,
        ) {
            return false;
        }
        let mut source_len: usize = 0;
        match source_id {
            Some(source_id) => {
                assert(one_or_none(Some(source_id))[0] == source_id);
                match db.sources.get(source_id) {
                    Some(source) => {
                        if source.owner != old_owner {
                            return false;
                        }
                    },
                    None => {
                        return false;
                    },
                }
                source_len = 1;
            },
            None => {},
        }
        if family_len > usize::MAX - index_len || family_len + index_len > usize::MAX - source_len {
            return false;
        }
        check_transferable(
            &self.core.user.catalog_create_ref_count,
            old_owner,
            owner,
            family_len + index_len + source_len,
        )
    }

    fn can_hand_sink(&self, fragments: &IdMap<JobFragments>, id: u32, owner: u32) -> (r: bool)
        ensures
            r == sink_handing_presumes(self@, fragments@, id, owner),
    {
        match (self.core.database.sinks.get(id), fragments.get(id)) {
            (Some(sink), Some(job)) => sink.owner == owner || (check_tables_of(
                &self.core.database.tables,
                &job.internal_table_ids,
                sink.owner,
            ) && check_transferable(
                &self.core.user.catalog_create_ref_count,
                sink.owner,
                owner,
                1,
            )),
            _ => true,
        }
    }

    /// Tells whether [`Self::alter_owner`] can be called.
    pub fn can_alter_owner(&self, fragments: &IdMap<JobFragments>, object: OwnedObject, owner_id: u32) -> (r:
        bool)
        ensures
            r == handing_presumes(self@, fragments@, object, owner_id),
    {
        let db = &self.core.database;
        let counts = &self.core.user.catalog_create_ref_count;
        let old_owner: Option<u32> = match object {
            OwnedObject::TableId(id) => {
                return self.can_hand_table(fragments, id, owner_id);
            },
            OwnedObject::SinkId(id) => {
                return self.can_hand_sink(fragments, id, owner_id);
            },
            OwnedObject::ViewId(id) => match db.views.get(id) {
                Some(x) => Some(x.owner),
                None => None,
            },
            OwnedObject::SourceId(id) => match db.sources.get(id) {
                Some(x) => Some(x.owner),
                None => None,
            },
            OwnedObject::DatabaseId(id) => match db.databases.get(id) {
                Some(x) => {
                    if x.owner != owner_id && !self.core.user.user_info.contains_key(owner_id) {
                        return false;
                    }
                    Some(x.owner)
                },
                None => None,
            },
            OwnedObject::SchemaId(id) => match db.schemas.get(id) {
                Some(x) => Some(x.owner),
                None => None,
            },
            OwnedObject::SubscriptionId(id) => match db.subscriptions.get(id) {
                Some(x) => Some(x.owner),
                None => None,
            },
        };
        match old_owner {
            Some(old_owner) => old_owner == owner_id || check_transferable(
                counts,
                old_owner,
                owner_id,
                1,
            ),
            None => true,
        }
    }
}

} // verus!
