//! Questions about the catalog.

use vstd::prelude::*;
use vstd::string::*;

use crate::catalog::error::{CatalogKind, MetaError, MetaErrorModel, MetaResult};
use crate::catalog::init::{connector_of, value_of};
use crate::catalog::manager::CatalogManager;
use crate::catalog::state::DatabaseManagerModel;
use crate::catalog::types::{
    ColumnCatalog, ColumnCatalogModel, Connection, CreateType, Database, RelationKey, RelationKeyModel, Schema,
    Sink, SinkModel, Source, SourceModel, StreamJobStatus, Subscription, SubscriptionModel, Table,
    TableModel, TableType, ViewInfo, ViewInfoModel,
};
use crate::util::id_map::{ids_where, opt_view, values_at, values_where, views, Entry, IdMap};
use crate::util::id_set::IdSet;
use crate::util::ids::listing;
use crate::util::lists::{
    copy_map, gather, image, lemma_gather_push, map_all, List,
};
use crate::util::outside::{lower_case, to_lowercase};

verus! {

/// All entries of a map, in the order of their keys.
pub open spec fn all_of<V>(m: Map<u32, V>) -> Seq<V> {
    values_at(m, listing(m.dom()))
}

/// The table is of this type.
pub open spec fn of_type(table_type: TableType) -> spec_fn(TableModel) -> bool {
    |t: TableModel| t.table_type == table_type
}

/// The table is a materialized view that is being created in the background.
pub open spec fn background_mview() -> spec_fn(TableModel) -> bool {
    |t: TableModel|
        t.table_type == TableType::MaterializedView && t.stream_job_status
            == StreamJobStatus::Creating && t.create_type == CreateType::Background
}

/// The table is being created.
pub open spec fn being_created() -> spec_fn(TableModel) -> bool {
    |t: TableModel| t.stream_job_status == StreamJobStatus::Creating
}

/// The table is not being created.
pub open spec fn not_being_created() -> spec_fn(TableModel) -> bool {
    |t: TableModel| t.stream_job_status != StreamJobStatus::Creating
}

/// The table stands in this schema and cannot be written to by statements.
pub open spec fn readonly_in(schema_id: u32) -> spec_fn(TableModel) -> bool {
    |t: TableModel| t.schema_id == schema_id && t.table_type != TableType::Table
}

/// The table stands in this schema and can be written to by statements.
pub open spec fn dml_in(schema_id: u32) -> spec_fn(TableModel) -> bool {
    |t: TableModel| t.schema_id == schema_id && t.table_type == TableType::Table
}

/// The table is read from this external table.
pub open spec fn read_from(cdc_table_id: Seq<char>) -> spec_fn(TableModel) -> bool {
    |t: TableModel| t.cdc_table_id == Some(cdc_table_id)
}

/// The identifiers of tables.
pub open spec fn ids_of_tables(q: Seq<TableModel>) -> Seq<u32> {
    image(q, |t: TableModel| t.id)
}

fn table_ids_of(tables: Vec<Table>) -> (r: Vec<u32>)
    ensures
        r@ == ids_of_tables(views(tables@)),
{
    let f = |x: &Table| -> (y: u32)
        ensures
            y == x@.id,
    {
        x.id
    };
    copy_map(&tables, f, Ghost(|t: TableModel| t.id))
}

impl CatalogManager {
    pub fn list_connections(&self) -> (r: Vec<Connection>)
        ensures
            views(r@) == all_of(self@.database.connections),
    {
        self.core.database.connections.values()
    }

    pub fn list_databases(&self) -> (r: Vec<Database>)
        ensures
            views(r@) == all_of(self@.database.databases),
    {
        self.core.database.databases.values()
    }

    pub fn list_schemas(&self) -> (r: Vec<Schema>)
        ensures
            views(r@) == all_of(self@.database.schemas),
    {
        self.core.database.schemas.values()
    }

    pub fn list_tables(&self) -> (r: Vec<Table>)
        ensures
            views(r@) == all_of(self@.database.tables),
    {
        self.core.database.tables.values()
    }

    pub fn list_sources(&self) -> (r: Vec<Source>)
        ensures
            views(r@) == all_of(self@.database.sources),
    {
        self.core.database.sources.values()
    }

    pub fn list_sinks(&self) -> (r: Vec<Sink>)
        ensures
            views(r@) == all_of(self@.database.sinks),
    {
        self.core.database.sinks.values()
    }

    pub fn list_subscriptions(&self) -> (r: Vec<Subscription>)
        ensures
            views(r@) == all_of(self@.database.subscriptions),
    {
        self.core.database.subscriptions.values()
    }

    pub fn list_views(&self) -> (r: Vec<ViewInfo>)
        ensures
            views(r@) == all_of(self@.database.views),
    {
        self.core.database.views.values()
    }

    pub fn list_tables_by_type(&self, table_type: TableType) -> (r: Vec<Table>)
        ensures
            views(r@) == values_where(self@.database.tables, of_type(table_type)),
    {
        let f = |x: &Table| -> (b: bool)
            ensures
                b == (x@.table_type == table_type),
        {
            x.table_type == table_type
        };
        self.core.database.tables.values_where(f, Ghost(of_type(table_type)))
    }

    /// Lists table catalogs for mviews, without their internal tables.
    pub fn list_creating_background_mvs(&self) -> (r: Vec<Table>)
        ensures
            views(r@) == values_where(self@.database.tables, background_mview()),
    {
        let f = |x: &Table| -> (b: bool)
            ensures
                b == background_mview()(x@),
        {
            x.table_type == TableType::MaterializedView && x.stream_job_status
                == StreamJobStatus::Creating && x.create_type == CreateType::Background
        };
        self.core.database.tables.values_where(f, Ghost(background_mview()))
    }

    /// Lists table catalogs for all tables with `stream_job_status=CREATING`.
    pub fn list_persisted_creating_tables(&self) -> (r: Vec<Table>)
        ensures
            views(r@) == values_where(self@.database.tables, being_created()),
    {
        let f = |x: &Table| -> (b: bool)
            ensures
                b == being_created()(x@),
        {
            x.stream_job_status == StreamJobStatus::Creating
        };
        self.core.database.tables.values_where(f, Ghost(being_created()))
    }

    pub fn get_created_table_ids(&self) -> (r: Vec<u32>)
        ensures
            r@ == ids_of_tables(values_where(self@.database.tables, not_being_created())),
    {
        let f = |x: &Table| -> (b: bool)
            ensures
                b == not_being_created()(x@),
        {
            x.stream_job_status != StreamJobStatus::Creating
        };
        table_ids_of(self.core.database.tables.values_where(f, Ghost(not_being_created())))
    }

    pub fn list_readonly_table_ids(&self, schema_id: u32) -> (r: Vec<u32>)
        ensures
            r@ == ids_of_tables(values_where(self@.database.tables, readonly_in(schema_id))),
    {
        let f = |x: &Table| -> (b: bool)
            ensures
                b == readonly_in(schema_id)(x@),
        {
            x.schema_id == schema_id && x.table_type != TableType::Table
        };
        table_ids_of(self.core.database.tables.values_where(f, Ghost(readonly_in(schema_id))))
    }

    pub fn list_dml_table_ids(&self, schema_id: u32) -> (r: Vec<u32>)
        ensures
            r@ == ids_of_tables(values_where(self@.database.tables, dml_in(schema_id))),
    {
        let f = |x: &Table| -> (b: bool)
            ensures
                b == dml_in(schema_id)(x@),
        {
            x.schema_id == schema_id && x.table_type == TableType::Table
        };
        table_ids_of(self.core.database.tables.values_where(f, Ghost(dml_in(schema_id))))
    }

    pub fn get_table_by_cdc_table_id(&self, cdc_table_id: &String) -> (r: Vec<Table>)
        ensures
            views(r@) == values_where(self@.database.tables, read_from(cdc_table_id@)),
    {
        let f = |x: &Table| -> (b: bool)
            ensures
                b == read_from(cdc_table_id@)(x@),
        {
            match &x.cdc_table_id {
                Some(id) => *id == *cdc_table_id,
                None => false,
            }
        };
        self.core.database.tables.values_where(f, Ghost(read_from(cdc_table_id@)))
    }

    pub fn list_view_ids(&self, schema_id: u32) -> (r: Vec<u32>)
        ensures
            r@ == image(
                values_where(
                    self@.database.views,
                    |v: ViewInfoModel| v.schema_id == schema_id,
                ),
                |v: ViewInfoModel| v.id,
            ),
    {
        let f = |x: &ViewInfo| -> (b: bool)
            ensures
                b == (x@.schema_id == schema_id),
        {
            x.schema_id == schema_id
        };
        let found = self.core.database.views.values_where(
            f,
            Ghost(|v: ViewInfoModel| v.schema_id == schema_id),
        );
        let f = |x: &ViewInfo| -> (y: u32)
            ensures
                y == x@.id,
        {
            x.id
        };
        copy_map(&found, f, Ghost(|v: ViewInfoModel| v.id))
    }

    pub fn list_source_ids(&self, schema_id: u32) -> (r: Vec<u32>)
        ensures
            r@ == image(
                values_where(
                    self@.database.sources,
                    |s: SourceModel| s.schema_id == schema_id,
                ),
                |s: SourceModel| s.id,
            ),
    {
        let f = |x: &Source| -> (b: bool)
            ensures
                b == (x@.schema_id == schema_id),
        {
            x.schema_id == schema_id
        };
        let found = self.core.database.sources.values_where(
            f,
            Ghost(|s: SourceModel| s.schema_id == schema_id),
        );
        let f = |x: &Source| -> (y: u32)
            ensures
                y == x@.id,
        {
            x.id
        };
        copy_map(&found, f, Ghost(|s: SourceModel| s.id))
    }

    pub fn table_is_created(&self, table_id: u32) -> (r: bool)
        ensures
            r == (self@.database.tables.contains_key(table_id) && not_being_created()(
                self@.database.tables[table_id],
            )),
    {
        match self.core.database.tables.get(table_id) {
            Some(table) => table.stream_job_status != StreamJobStatus::Creating,
            None => false,
        }
    }

    pub fn get_subscription_by_id(&self, subscription_id: u32) -> (r: MetaResult<Subscription>)
        ensures
            match r {
                Ok(s) => self@.database.subscriptions.contains_key(subscription_id) && s@
                    == self@.database.subscriptions[subscription_id],
                Err(e) => !self@.database.subscriptions.contains_key(subscription_id) && e@
                    == MetaErrorModel::CatalogIdNotFound(
                    CatalogKind::Subscription,
                    subscription_id,
                ),
            },
    {
        match self.core.database.subscriptions.get(subscription_id) {
            Some(s) => Ok(s.duplicate()),
            None => Err(MetaError::CatalogIdNotFound(CatalogKind::Subscription, subscription_id)),
        }
    }

    pub fn source_count(&self) -> (r: usize)
        ensures
            r == self@.database.sources.dom().len(),
    {
        self.core.database.sources.len()
    }

    pub fn index_count(&self) -> (r: usize)
        ensures
            r == self@.database.indexes.dom().len(),
    {
        self.core.database.indexes.len()
    }

    pub fn sink_count(&self) -> (r: usize)
        ensures
            r == self@.database.sinks.dom().len(),
    {
        self.core.database.sinks.len()
    }

    pub fn subscription_count(&self) -> (r: usize)
        ensures
            r == self@.database.subscriptions.dom().len(),
    {
        self.core.database.subscriptions.len()
    }

    pub fn function_count(&self) -> (r: usize)
        ensures
            r == self@.database.functions.dom().len(),
    {
        self.core.database.functions.len()
    }

    pub fn table_count(&self) -> (r: usize)
        ensures
            r == values_where(self@.database.tables, of_type(TableType::Table)).len(),
    {
        let tables = self.list_tables_by_type(TableType::Table);
        assert(tables@.len() == views(tables@).len());
        tables.len()
    }

    pub fn materialized_view_count(&self) -> (r: usize)
        ensures
            r == values_where(self@.database.tables, of_type(TableType::MaterializedView)).len(),
    {
        let tables = self.list_tables_by_type(TableType::MaterializedView);
        assert(tables@.len() == views(tables@).len());
        tables.len()
    }
}

// ---------------------------------------------------------------------------
// Objects by their identifiers.
// ---------------------------------------------------------------------------

/// The table with this identifier: the one that is being created, or else the one that is.
pub open spec fn table_at(d: DatabaseManagerModel) -> spec_fn(u32) -> Seq<TableModel> {
    |id: u32|
        if d.in_progress_creating_tables.contains_key(id) {
            seq![d.in_progress_creating_tables[id]]
        } else if d.tables.contains_key(id) {
            seq![d.tables[id]]
        } else {
            Seq::empty()
        }
}

/// The sink with this identifier.
pub open spec fn sink_at(d: DatabaseManagerModel) -> spec_fn(u32) -> Seq<SinkModel> {
    |id: u32|
        if d.sinks.contains_key(id) {
            seq![d.sinks[id]]
        } else {
            Seq::empty()
        }
}

impl CatalogManager {
    pub fn get_tables(&self, table_ids: &Vec<u32>) -> (r: Vec<Table>)
        ensures
            views(r@) == gather(table_ids@, table_at(self@.database)),
    {
        let ghost p = table_at(self@.database);
        let mut tables: Vec<Table> = Vec::new();
        let mut i: usize = 0;
        proof {
            assert(table_ids@.take(0) =~= Seq::empty());
            assert(views(tables@) =~= Seq::empty());
        }
        while i < table_ids.len()
            invariant
                i <= table_ids.len(),
                p == table_at(self@.database),
                views(tables@) == gather(table_ids@.take(i as int), p),
            decreases table_ids.len() - i,
        {
            let id: u32 = table_ids[i];
            let ghost before = tables@;
            proof {
                assert(table_ids@.take(i + 1) =~= table_ids@.take(i as int).push(id));
                lemma_gather_push(table_ids@.take(i as int), id, p);
            }
            match self.core.database.in_progress_creating_tables.get(id) {
                Some(table) => {
                    tables.push(table.duplicate());
                },
                None => match self.core.database.tables.get(id) {
                    Some(table) => {
                        tables.push(table.duplicate());
                    },
                    None => {},
                },
            }
            assert(views(tables@) =~= views(before) + p(id));
            i = i + 1;
        }
        assert(table_ids@.take(i as int) =~= table_ids@);
        tables
    }

    pub fn get_sinks(&self, sink_ids: &Vec<u32>) -> (r: Vec<Sink>)
        ensures
            views(r@) == gather(sink_ids@, sink_at(self@.database)),
    {
        let ghost p = sink_at(self@.database);
        let mut sinks: Vec<Sink> = Vec::new();
        let mut i: usize = 0;
        proof {
            assert(sink_ids@.take(0) =~= Seq::empty());
            assert(views(sinks@) =~= Seq::empty());
        }
        while i < sink_ids.len()
            invariant
                i <= sink_ids.len(),
                p == sink_at(self@.database),
                views(sinks@) == gather(sink_ids@.take(i as int), p),
            decreases sink_ids.len() - i,
        {
            let id: u32 = sink_ids[i];
            let ghost before = sinks@;
            proof {
                assert(sink_ids@.take(i + 1) =~= sink_ids@.take(i as int).push(id));
                lemma_gather_push(sink_ids@.take(i as int), id, p);
            }
            match self.core.database.sinks.get(id) {
                Some(sink) => {
                    sinks.push(sink.duplicate());
                },
                None => {},
            }
            assert(views(sinks@) =~= views(before) + p(id));
            i = i + 1;
        }
        assert(sink_ids@.take(i as int) =~= sink_ids@);
        sinks
    }
}

// ---------------------------------------------------------------------------
// Dependencies.
// ---------------------------------------------------------------------------

/// An object refers to another one.
#[derive(Debug, Clone, Copy, PartialEq, Eq, Structural)]
pub struct ObjectDependency {
    pub object_id: u32,
    pub referenced_object_id: u32,
}

/// An object refers to each of these.
pub open spec fn refers_to(object_id: u32, ids: Seq<u32>) -> Seq<ObjectDependency> {
    Seq::new(
        ids.len(),
        |i: int| ObjectDependency { object_id, referenced_object_id: ids[i] },
    )
}

/// What a finished table that is not internal refers to: the relations that it reads, and the
/// sinks that write into it.
pub open spec fn table_references() -> spec_fn(TableModel) -> Seq<ObjectDependency> {
    |t: TableModel|
        if t.table_type != TableType::Internal && t.stream_job_status != StreamJobStatus::Creating {
            refers_to(t.id, t.dependent_relations) + refers_to(t.id, t.incoming_sinks)
        } else {
            Seq::empty()
        }
}

pub open spec fn sink_references() -> spec_fn(SinkModel) -> Seq<ObjectDependency> {
    |s: SinkModel| refers_to(s.id, s.dependent_relations)
}

pub open spec fn subscription_references() -> spec_fn(SubscriptionModel) -> Seq<ObjectDependency> {
    |s: SubscriptionModel|
        seq![ObjectDependency { object_id: s.id, referenced_object_id: s.dependent_table_id }]
}

fn refer_to(object_id: u32, ids: &Vec<u32>, r: &mut Vec<ObjectDependency>)
    ensures
        final(r)@ == old(r)@ + refers_to(object_id, ids@),
{
    let ghost before = r@;
    let mut i: usize = 0;
    assert(before + refers_to(object_id, ids@).take(0) =~= before);
    while i < ids.len()
        invariant
            i <= ids.len(),
            r@ == before + refers_to(object_id, ids@).take(i as int),
        decreases ids.len() - i,
    {
        r.push(ObjectDependency { object_id, referenced_object_id: ids[i] });
        assert(r@ =~= before + refers_to(object_id, ids@).take(i + 1));
        i = i + 1;
    }
    assert(refers_to(object_id, ids@).take(i as int) =~= refers_to(object_id, ids@));
}

impl CatalogManager {
    pub fn list_object_dependencies(&self) -> (r: Vec<ObjectDependency>)
        ensures
            r@ == gather(all_of(self@.database.tables), table_references()) + gather(
                all_of(self@.database.sinks),
                sink_references(),
            ) + gather(all_of(self@.database.subscriptions), subscription_references()),
    {
        let mut r: Vec<ObjectDependency> = Vec::new();
        let tables = self.list_tables();
        let ghost q = views(tables@);
        let mut i: usize = 0;
        assert(q.take(0) =~= Seq::empty());
        while i < tables.len()
            invariant
                i <= tables.len(),
                q == views(tables@),
                r@ == gather(q.take(i as int), table_references()),
            decreases tables.len() - i,
        {
            let table = &tables[i];
            let ghost before = r@;
            proof {
                assert(q[i as int] == table@);
                assert(q.take(i + 1) =~= q.take(i as int).push(q[i as int]));
                lemma_gather_push(q.take(i as int), q[i as int], table_references());
            }
            if table.table_type != TableType::Internal && table.stream_job_status
                != StreamJobStatus::Creating {
                refer_to(table.id, &table.dependent_relations, &mut r);
                refer_to(table.id, &table.incoming_sinks, &mut r);
            }
            assert(r@ =~= before + table_references()(table@));
            i = i + 1;
        }
        assert(q.take(i as int) =~= q);
        let ghost first = r@;
        let sinks = self.list_sinks();
        let ghost q = views(sinks@);
        let mut i: usize = 0;
        assert(q.take(0) =~= Seq::empty());
        assert(first + Seq::<ObjectDependency>::empty() =~= first);
        while i < sinks.len()
            invariant
                i <= sinks.len(),
                q == views(sinks@),
                r@ == first + gather(q.take(i as int), sink_references()),
            decreases sinks.len() - i,
        {
            let sink = &sinks[i];
            proof {
                assert(q[i as int] == sink@);
                assert(q.take(i + 1) =~= q.take(i as int).push(q[i as int]));
                lemma_gather_push(q.take(i as int), q[i as int], sink_references());
            }
            refer_to(sink.id, &sink.dependent_relations, &mut r);
            assert(r@ =~= first + gather(q.take(i + 1), sink_references()));
            i = i + 1;
        }
        assert(q.take(i as int) =~= q);
        let ghost second = r@;
        let subscriptions = self.list_subscriptions();
        let ghost q = views(subscriptions@);
        let mut i: usize = 0;
        assert(q.take(0) =~= Seq::empty());
        assert(second + Seq::<ObjectDependency>::empty() =~= second);
        while i < subscriptions.len()
            invariant
                i <= subscriptions.len(),
                q == views(subscriptions@),
                r@ == second + gather(q.take(i as int), subscription_references()),
            decreases subscriptions.len() - i,
        {
            let s = &subscriptions[i];
            proof {
                assert(q[i as int] == s@);
                assert(q.take(i + 1) =~= q.take(i as int).push(q[i as int]));
                lemma_gather_push(q.take(i as int), q[i as int], subscription_references());
            }
            r.push(
                ObjectDependency { object_id: s.id, referenced_object_id: s.dependent_table_id },
            );
            assert(r@ =~= second + gather(q.take(i + 1), subscription_references()));
            i = i + 1;
        }
        assert(q.take(i as int) =~= q);
        r
    }
}

/// The subscriptions of each table, with how long each keeps its changes.
pub open spec fn retention_of(q: Seq<SubscriptionModel>) -> Map<u32, Map<u32, u64>>
    decreases q.len(),
{
    if q.len() == 0 {
        Map::empty()
    } else {
        let m = retention_of(q.drop_last());
        let s = q.last();
        m.insert(
            s.dependent_table_id,
            (if m.contains_key(s.dependent_table_id) {
                m[s.dependent_table_id]
            } else {
                Map::empty()
            }).insert(s.id, s.retention_seconds),
        )
    }
}

/// The identifiers of the columns of a table.
pub open spec fn column_ids(columns: Seq<ColumnCatalogModel>) -> Seq<i32> {
    Seq::new(columns.len(), |i: int| columns[i].column_desc->0.column_id)
}

fn ids_of_columns(columns: &Vec<ColumnCatalog>) -> (r: List<i32>)
    requires
        forall|k: int|
            0 <= k < columns@.len() ==> (#[trigger] views(columns@)[k]).column_desc is Some,
    ensures
        r@ == column_ids(views(columns@)),
{
    let ghost q = views(columns@);
    let mut ids: List<i32> = List::empty();
    let mut j: usize = 0;
    assert(column_ids(q).take(0) =~= Seq::empty());
    while j < columns.len()
        invariant
            j <= columns.len(),
            q == views(columns@),
            forall|k: int| 0 <= k < columns@.len() ==> (#[trigger] q[k]).column_desc is Some,
            ids@ == column_ids(q).take(j as int),
        decreases columns.len() - j,
    {
        assert(q[j as int] == columns@[j as int]@);
        let id: i32 = match &columns[j].column_desc {
            Some(desc) => desc.column_id,
            None => {
                assert(false);
                0
            },
        };
        ids.push(id);
        assert(ids@ =~= column_ids(q).take(j + 1));
        j = j + 1;
    }
    assert(ids@ =~= column_ids(q));
    ids
}

/// The columns of the tables in `ids` that have a version.
pub open spec fn versioned_schemas(m: Map<u32, TableModel>, ids: Seq<u32>) -> Map<u32, Seq<i32>>
    decreases ids.len(),
{
    if ids.len() == 0 {
        Map::empty()
    } else {
        let before = versioned_schemas(m, ids.drop_last());
        if m.contains_key(ids.last()) && m[ids.last()].version is Some {
            before.insert(m[ids.last()].id, column_ids(m[ids.last()].columns))
        } else {
            before
        }
    }
}

impl CatalogManager {
    pub fn get_mv_depended_subscriptions(&self) -> (r: IdMap<IdMap<u64>>)
        ensures
            r@ == retention_of(all_of(self@.database.subscriptions)),
    {
        let subscriptions = self.list_subscriptions();
        let ghost q = views(subscriptions@);
        let mut r: IdMap<IdMap<u64>> = IdMap::new();
        let mut i: usize = 0;
        assert(q.take(0) =~= Seq::empty());
        while i < subscriptions.len()
            invariant
                i <= subscriptions.len(),
                q == views(subscriptions@),
                r@ == retention_of(q.take(i as int)),
            decreases subscriptions.len() - i,
        {
            let s = &subscriptions[i];
            let ghost before = r@;
            proof {
                assert(q.take(i + 1).drop_last() =~= q.take(i as int));
                assert(q.take(i + 1).last() == s@);
            }
            let mut group: IdMap<u64> = match r.remove(s.dependent_table_id) {
                Some(group) => group,
                None => IdMap::new(),
            };
            group.insert(s.id, s.retention_seconds);
            r.insert(s.dependent_table_id, group);
            assert(r@ =~= retention_of(q.take(i + 1)));
            i = i + 1;
        }
        assert(q.take(i as int) =~= q);
        r
    }

    /// Returns column ids of `table_ids` that is versioned.
    /// Being versioned implies using `ColumnAwareSerde`.
    pub fn get_versioned_table_schemas(&self, table_ids: &Vec<u32>) -> (r: IdMap<List<i32>>)
        requires
            forall|id: u32, k: int|
                #![trigger self@.database.tables[id].columns[k]]
                table_ids@.contains(id) && self@.database.tables.contains_key(id)
                    && self@.database.tables[id].version is Some && 0 <= k
                    < self@.database.tables[id].columns.len()
                    ==> self@.database.tables[id].columns[k].column_desc is Some,
        ensures
            r@ == versioned_schemas(self@.database.tables, table_ids@),
    {
        let ghost m = self@.database.tables;
        let mut r: IdMap<List<i32>> = IdMap::new();
        let mut i: usize = 0;
        assert(table_ids@.take(0) =~= Seq::empty());
        while i < table_ids.len()
            invariant
                i <= table_ids.len(),
                m == self@.database.tables,
                forall|id: u32, k: int|
                    #![trigger m[id].columns[k]]
                    table_ids@.contains(id) && m.contains_key(id) && m[id].version is Some && 0 <= k
                        < m[id].columns.len() ==> m[id].columns[k].column_desc is Some,
                r@ == versioned_schemas(m, table_ids@.take(i as int)),
            decreases table_ids.len() - i,
        {
            proof {
                assert(table_ids@.take(i + 1).drop_last() =~= table_ids@.take(i as int));
                assert(table_ids@.take(i + 1).last() == table_ids@[i as int]);
            }
            match self.core.database.tables.get(table_ids[i]) {
                Some(t) => {
                    if t.version.is_some() {
                        proof {
                            assert(table_ids@.contains(table_ids@[i as int]));
                            assert forall|k: int| 0 <= k < t@.columns.len() implies (
                            #[trigger] t@.columns[k]).column_desc is Some by {
                                assert(m[table_ids@[i as int]].columns[k].column_desc is Some);
                            }
                        }
                        let ids = ids_of_columns(&t.columns);
                        r.insert(t.id, ids);
                    }
                },
                None => {},
            }
            i = i + 1;
        }
        assert(table_ids@.take(i as int) =~= table_ids@);
        r
    }

    /// How long the rows of each table are kept.
    pub fn get_all_table_options(&self) -> (r: Vec<(u32, Option<u32>)>)
        ensures
            r@ == image(
                all_of(self@.database.tables),
                |t: TableModel| (t.id, t.retention_seconds),
            ),
    {
        let tables = self.list_tables();
        let f = |x: &Table| -> (y: (u32, Option<u32>))
            ensures
                y == (x@.id, x@.retention_seconds),
        {
            (x.id, x.retention_seconds)
        };
        copy_map(&tables, f, Ghost(|t: TableModel| (t.id, t.retention_seconds)))
    }
}

// ---------------------------------------------------------------------------
// Streaming jobs.
// ---------------------------------------------------------------------------

/// What is told of a streaming job for statistics.
#[derive(Debug, PartialEq, Eq)]
pub struct MetaTelemetryJobDesc {
    pub table_id: u32,
    pub connector: Option<String>,
    pub optimization: Vec<u64>,
}

/// The mathematical model of [`MetaTelemetryJobDesc`].
#[verifier::ext_equal]
pub struct MetaTelemetryJobDescModel {
    pub table_id: u32,
    pub connector: Option<Seq<char>>,
    pub optimization: Seq<u64>,
}

impl View for MetaTelemetryJobDesc {
    type V = MetaTelemetryJobDescModel;

    open spec fn view(&self) -> MetaTelemetryJobDescModel {
        MetaTelemetryJobDescModel {
            table_id: self.table_id,
            connector: opt_view(self.connector),
            optimization: self.optimization@,
        }
    }
}

/// The connector of the source that a table is associated with, as it is written.
pub open spec fn associated_connector(d: DatabaseManagerModel, t: TableModel) -> Option<Seq<char>> {
    match t.optional_associated_source_id {
        Some(source_id) => if d.sources.contains_key(source_id) {
            value_of(d.sources[source_id].with_properties, "connector"@)
        } else {
            None
        },
        None => None,
    }
}

/// What is told of a table: only tables and materialized views are told of.
pub open spec fn telemetry_of(d: DatabaseManagerModel) -> spec_fn(TableModel) -> Seq<
    MetaTelemetryJobDescModel,
> {
    |t: TableModel|
        if t.table_type == TableType::Table || t.table_type == TableType::MaterializedView {
            seq![
                MetaTelemetryJobDescModel {
                    table_id: t.id,
                    connector: match associated_connector(d, t) {
                        Some(connector) => Some(lower_case(connector)),
                        None => None,
                    },
                    optimization: Seq::empty(),
                },
            ]
        } else {
            Seq::empty()
        }
}

/// The word for the type of a table.
pub open spec fn type_word(table_type: TableType) -> Seq<char> {
    match table_type {
        TableType::Unspecified => "UNSPECIFIED"@,
        TableType::Table => "TABLE"@,
        TableType::MaterializedView => "MATERIALIZED_VIEW"@,
        TableType::Index => "INDEX"@,
        TableType::Internal => "INTERNAL"@,
    }
}

/// A job is known by its key.
pub open spec fn with_key(key: RelationKeyModel) -> spec_fn(RelationKeyModel) -> bool {
    |k: RelationKeyModel| k == key
}

/// The materialized view with this key is being created.
pub open spec fn creating_with_key(key: RelationKeyModel) -> spec_fn(TableModel) -> bool {
    |t: TableModel|
        t.stream_job_status == StreamJobStatus::Creating && t.table_type
            == TableType::MaterializedView && t.database_id == key.database_id && t.schema_id
            == key.schema_id && t.name == key.name
}

/// The job that is being created under this key: one that is noted, or else a materialized view
/// that is stored.
pub open spec fn creating_job(d: DatabaseManagerModel) -> spec_fn(RelationKeyModel) -> Seq<u32> {
    |key: RelationKeyModel|
        {
            let running = ids_where(d.in_progress_creating_streaming_job, with_key(key));
            let stored = ids_where(d.tables, creating_with_key(key));
            if running.len() > 0 {
                seq![running[0]]
            } else if stored.len() > 0 {
                seq![stored[0]]
            } else {
                Seq::empty()
            }
        }
}

fn type_text(table_type: TableType) -> (r: &'static str)
    ensures
        r@ == type_word(table_type),
{
    match table_type {
        TableType::Unspecified => "UNSPECIFIED",
        TableType::Table => "TABLE",
        TableType::MaterializedView => "MATERIALIZED_VIEW",
        TableType::Index => "INDEX",
        TableType::Internal => "INTERNAL",
    }
}

/// The name and the type of a table.
#[derive(Debug, PartialEq, Eq)]
pub struct TableNameAndType {
    pub table_id: u32,
    pub name: String,
    pub table_type: String,
}

/// The mathematical model of [`TableNameAndType`].
#[verifier::ext_equal]
pub struct TableNameAndTypeModel {
    pub table_id: u32,
    pub name: Seq<char>,
    pub table_type: Seq<char>,
}

impl View for TableNameAndType {
    type V = TableNameAndTypeModel;

    open spec fn view(&self) -> TableNameAndTypeModel {
        TableNameAndTypeModel {
            table_id: self.table_id,
            name: self.name@,
            table_type: self.table_type@,
        }
    }
}

impl Entry for TableNameAndType {
    fn duplicate(&self) -> (r: Self) {
        TableNameAndType {
            table_id: self.table_id,
            name: self.name.clone(),
            table_type: self.table_type.clone(),
        }
    }
}

impl CatalogManager {
    pub fn list_stream_job_for_telemetry(&self) -> (r: Vec<MetaTelemetryJobDesc>)
        ensures
            views(r@) == gather(all_of(self@.database.tables), telemetry_of(self@.database)),
    {
        let tables = self.list_tables();
        let ghost q = views(tables@);
        let ghost d = self@.database;
        let mut r: Vec<MetaTelemetryJobDesc> = Vec::new();
        let mut i: usize = 0;
        proof {
            assert(q.take(0) =~= Seq::empty());
            assert(views(r@) =~= Seq::empty());
        }
        while i < tables.len()
            invariant
                i <= tables.len(),
                q == views(tables@),
                d == self@.database,
                views(r@) == gather(q.take(i as int), telemetry_of(d)),
            decreases tables.len() - i,
        {
            let table = &tables[i];
            let ghost before = r@;
            proof {
                assert(q[i as int] == table@);
                assert(q.take(i + 1) =~= q.take(i as int).push(q[i as int]));
                lemma_gather_push(q.take(i as int), q[i as int], telemetry_of(d));
            }
            // filter out internal tables, only allow Table and MaterializedView
            if table.table_type == TableType::Table || table.table_type
                == TableType::MaterializedView {
                let written = match table.optional_associated_source_id {
                    Some(source_id) => match self.core.database.sources.get(source_id) {
                        Some(source) => connector_of(source),
                        None => None,
                    },
                    None => None,
                };
                let connector = match written {
                    Some(written) => Some(to_lowercase(&written)),
                    None => None,
                };
                let optimization: Vec<u64> = Vec::new();
                assert(optimization@ =~= Seq::empty());
                r.push(MetaTelemetryJobDesc { table_id: table.id, connector, optimization });
            }
            assert(views(r@) =~= views(before) + telemetry_of(d)(table@));
            i = i + 1;
        }
        assert(q.take(i as int) =~= q);
        r
    }

    pub fn get_table_name_and_type_mapping(&self) -> (r: Vec<TableNameAndType>)
        ensures
            views(r@) == image(
                all_of(self@.database.tables),
                |t: TableModel|
                    TableNameAndTypeModel {
                        table_id: t.id,
                        name: t.name,
                        table_type: type_word(t.table_type),
                    },
            ),
    {
        let tables = self.list_tables();
        let f = |x: &Table| -> (y: TableNameAndType)
            ensures
                y@ == (TableNameAndTypeModel {
                    table_id: x@.id,
                    name: x@.name,
                    table_type: type_word(x@.table_type),
                }),
        {
            TableNameAndType {
                table_id: x.id,
                name: x.name.clone(),
                table_type: String::from_str(type_text(x.table_type)),
            }
        };
        map_all(
            &tables,
            f,
            Ghost(
                |t: TableModel|
                    TableNameAndTypeModel {
                        table_id: t.id,
                        name: t.name,
                        table_type: type_word(t.table_type),
                    },
            ),
        )
    }

    /// `list_stream_job_ids` returns all running and creating stream job ids, this is for recovery
    /// clean up progress.
    pub fn list_stream_job_ids(&self) -> (r: IdSet)
        ensures
            r@ == self@.database.tables.dom().union(self@.database.sinks.dom()).union(
                self@.database.indexes.dom(),
            ).union(self@.database.sources.dom()).union(
                self@.database.in_progress_creating_streaming_job.dom(),
            ),
    {
        let mut r = IdSet::new();
        let tables = self.core.database.tables.ids();
        let sinks = self.core.database.sinks.ids();
        let indexes = self.core.database.indexes.ids();
        let sources = self.core.database.sources.ids();
        let creating = self.core.database.in_progress_creating_streaming_job.ids();
        r.insert_all(&tables);
        r.insert_all(&sinks);
        r.insert_all(&indexes);
        r.insert_all(&sources);
        r.insert_all(&creating);
        proof {
            let d = self@.database;
            assert forall|x: u32| #[trigger] r@.contains(x) <==> d.tables.dom().union(
                d.sinks.dom(),
            ).union(d.indexes.dom()).union(d.sources.dom()).union(
                d.in_progress_creating_streaming_job.dom(),
            ).contains(x) by {
                assert(tables@.contains(x) <==> d.tables.dom().contains(x));
                assert(sinks@.contains(x) <==> d.sinks.dom().contains(x));
                assert(indexes@.contains(x) <==> d.indexes.dom().contains(x));
                assert(sources@.contains(x) <==> d.sources.dom().contains(x));
                assert(creating@.contains(x)
                    <==> d.in_progress_creating_streaming_job.dom().contains(x));
            }
            assert(r@ =~= d.tables.dom().union(d.sinks.dom()).union(d.indexes.dom()).union(
                d.sources.dom(),
            ).union(d.in_progress_creating_streaming_job.dom()));
        }
        r
    }

    pub fn find_creating_streaming_job_ids(&self, infos: &Vec<RelationKey>) -> (r: Vec<u32>)
        ensures
            r@ == gather(views(infos@), creating_job(self@.database)),
    {
        let ghost q = views(infos@);
        let ghost d = self@.database;
        let mut r: Vec<u32> = Vec::new();
        let mut i: usize = 0;
        assert(q.take(0) =~= Seq::empty());
        while i < infos.len()
            invariant
                i <= infos.len(),
                q == views(infos@),
                d == self@.database,
                r@ == gather(q.take(i as int), creating_job(d)),
            decreases infos.len() - i,
        {
            let key = &infos[i];
            let ghost before = r@;
            proof {
                assert(q[i as int] == key@);
                assert(q.take(i + 1) =~= q.take(i as int).push(q[i as int]));
                lemma_gather_push(q.take(i as int), q[i as int], creating_job(d));
            }
            let f = |x: &RelationKey| -> (b: bool)
                ensures
                    b == with_key(key@)(x@),
            {
                let same = x.database_id == key.database_id && x.schema_id == key.schema_id
                    && x.name == key.name;
                assert(same ==> x@ =~= key@);
                same
            };
            let running = self.core.database.in_progress_creating_streaming_job.ids_where(
                f,
                Ghost(with_key(key@)),
            );
            if running.len() > 0 {
                r.push(running[0]);
            } else {
                let f = |x: &Table| -> (b: bool)
                    ensures
                        b == creating_with_key(key@)(x@),
                {
                    x.stream_job_status == StreamJobStatus::Creating && x.table_type
                        == TableType::MaterializedView && x.database_id == key.database_id
                        && x.schema_id == key.schema_id && x.name == key.name
                };
                let stored = self.core.database.tables.ids_where(
                    f,
                    Ghost(creating_with_key(key@)),
                );
                if stored.len() > 0 {
                    r.push(stored[0]);
                }
            }
            assert(r@ =~= before + creating_job(d)(key@));
            i = i + 1;
        }
        assert(q.take(i as int) =~= q);
        r
    }
}

} // verus!
