//! What lists of objects give: messages, owners and references.

use vstd::prelude::*;

use crate::catalog::manager::CatalogManager;
use crate::catalog::notify::{
    Audience, Info, InfoModel, Notification, NotificationModel, Operation, RelationInfo,
    RelationInfoModel,
};
use crate::catalog::types::{
    Connection, ConnectionModel, Function, FunctionModel, Index, IndexModel, Schema, SchemaModel,
    Secret, SecretModel, Sink, SinkModel, Source, SourceModel, Subscription, SubscriptionModel,
    Table, TableModel, ViewInfo, ViewInfoModel,
};
use crate::util::id_map::{copy_all, views, Entry};
use crate::util::lists::{copy_map, gather, gather_all, image, map_all};

verus! {

/// A message to the frontends.
pub open spec fn frontend(operation: Operation, info: InfoModel) -> NotificationModel {
    NotificationModel { audience: Audience::Frontend, operation, info }
}

/// A message to the frontends about relations.
pub open spec fn frontend_relations(operation: Operation, relations: Seq<RelationInfoModel>) -> NotificationModel {
    frontend(operation, InfoModel::RelationGroup(relations))
}

impl CatalogManager {
    pub fn notify_frontend(operation: Operation, info: Info) -> (r: Notification)
        ensures
            r@ == frontend(operation, info@),
    {
        Notification { audience: Audience::Frontend, operation, info }
    }

    pub fn notify_frontend_relations(operation: Operation, relations: Vec<RelationInfo>) -> (r:
        Notification)
        ensures
            r@ == frontend_relations(operation, views(relations@)),
    {
        Notification {
            audience: Audience::Frontend,
            operation,
            info: Info::RelationGroup(relations),
        }
    }

    pub fn notify_frontend_relation_info(operation: Operation, relation: RelationInfo) -> (r:
        Notification)
        ensures
            r@ == frontend_relations(operation, seq![relation@]),
    {
        let mut relations: Vec<RelationInfo> = Vec::new();
        relations.push(relation);
        assert(views(relations@) =~= seq![relation@]);
        Self::notify_frontend_relations(operation, relations)
    }
}

/// The tables as relations.
pub open spec fn table_infos(q: Seq<TableModel>) -> Seq<RelationInfoModel> {
    image(q, |x: TableModel| RelationInfoModel::Table(x))
}

pub fn tables_to_infos(v: &Vec<Table>) -> (r: Vec<RelationInfo>)
    ensures
        views(r@) == table_infos(views(v@)),
{
    let f = |x: &Table| -> (r: RelationInfo)
        ensures
            r@ == RelationInfoModel::Table(x@),
    {
        RelationInfo::Table(x.duplicate())
    };
    map_all(v, f, Ghost(|x: TableModel| RelationInfoModel::Table(x)))
}

/// The sources as relations.
pub open spec fn source_infos(q: Seq<SourceModel>) -> Seq<RelationInfoModel> {
    image(q, |x: SourceModel| RelationInfoModel::Source(x))
}

pub fn sources_to_infos(v: &Vec<Source>) -> (r: Vec<RelationInfo>)
    ensures
        views(r@) == source_infos(views(v@)),
{
    let f = |x: &Source| -> (r: RelationInfo)
        ensures
            r@ == RelationInfoModel::Source(x@),
    {
        RelationInfo::Source(x.duplicate())
    };
    map_all(v, f, Ghost(|x: SourceModel| RelationInfoModel::Source(x)))
}

/// The sinks as relations.
pub open spec fn sink_infos(q: Seq<SinkModel>) -> Seq<RelationInfoModel> {
    image(q, |x: SinkModel| RelationInfoModel::Sink(x))
}

pub fn sinks_to_infos(v: &Vec<Sink>) -> (r: Vec<RelationInfo>)
    ensures
        views(r@) == sink_infos(views(v@)),
{
    let f = |x: &Sink| -> (r: RelationInfo)
        ensures
            r@ == RelationInfoModel::Sink(x@),
    {
        RelationInfo::Sink(x.duplicate())
    };
    map_all(v, f, Ghost(|x: SinkModel| RelationInfoModel::Sink(x)))
}

/// The subscriptions as relations.
pub open spec fn subscription_infos(q: Seq<SubscriptionModel>) -> Seq<RelationInfoModel> {
    image(q, |x: SubscriptionModel| RelationInfoModel::Subscription(x))
}

pub fn subscriptions_to_infos(v: &Vec<Subscription>) -> (r: Vec<RelationInfo>)
    ensures
        views(r@) == subscription_infos(views(v@)),
{
    let f = |x: &Subscription| -> (r: RelationInfo)
        ensures
            r@ == RelationInfoModel::Subscription(x@),
    {
        RelationInfo::Subscription(x.duplicate())
    };
    map_all(v, f, Ghost(|x: SubscriptionModel| RelationInfoModel::Subscription(x)))
}

/// The indexes as relations.
pub open spec fn index_infos(q: Seq<IndexModel>) -> Seq<RelationInfoModel> {
    image(q, |x: IndexModel| RelationInfoModel::Index(x))
}

pub fn indexes_to_infos(v: &Vec<Index>) -> (r: Vec<RelationInfo>)
    ensures
        views(r@) == index_infos(views(v@)),
{
    let f = |x: &Index| -> (r: RelationInfo)
        ensures
            r@ == RelationInfoModel::Index(x@),
    {
        RelationInfo::Index(x.duplicate())
    };
    map_all(v, f, Ghost(|x: IndexModel| RelationInfoModel::Index(x)))
}

/// The views as relations.
pub open spec fn view_infos(q: Seq<ViewInfoModel>) -> Seq<RelationInfoModel> {
    image(q, |x: ViewInfoModel| RelationInfoModel::View(x))
}

pub fn views_to_infos(v: &Vec<ViewInfo>) -> (r: Vec<RelationInfo>)
    ensures
        views(r@) == view_infos(views(v@)),
{
    let f = |x: &ViewInfo| -> (r: RelationInfo)
        ensures
            r@ == RelationInfoModel::View(x@),
    {
        RelationInfo::View(x.duplicate())
    };
    map_all(v, f, Ghost(|x: ViewInfoModel| RelationInfoModel::View(x)))
}

/// The owners of the tables.
pub open spec fn table_owners(q: Seq<TableModel>) -> Seq<u32> {
    image(q, |x: TableModel| x.owner)
}

pub fn owners_of_tables(v: &Vec<Table>) -> (r: Vec<u32>)
    ensures
        r@ == table_owners(views(v@)),
{
    let f = |x: &Table| -> (r: u32)
        ensures
            r == x@.owner,
    {
        x.owner
    };
    copy_map(v, f, Ghost(|x: TableModel| x.owner))
}

/// The owners of the sources.
pub open spec fn source_owners(q: Seq<SourceModel>) -> Seq<u32> {
    image(q, |x: SourceModel| x.owner)
}

pub fn owners_of_sources(v: &Vec<Source>) -> (r: Vec<u32>)
    ensures
        r@ == source_owners(views(v@)),
{
    let f = |x: &Source| -> (r: u32)
        ensures
            r == x@.owner,
    {
        x.owner
    };
    copy_map(v, f, Ghost(|x: SourceModel| x.owner))
}

/// The owners of the sinks.
pub open spec fn sink_owners(q: Seq<SinkModel>) -> Seq<u32> {
    image(q, |x: SinkModel| x.owner)
}

pub fn owners_of_sinks(v: &Vec<Sink>) -> (r: Vec<u32>)
    ensures
        r@ == sink_owners(views(v@)),
{
    let f = |x: &Sink| -> (r: u32)
        ensures
            r == x@.owner,
    {
        x.owner
    };
    copy_map(v, f, Ghost(|x: SinkModel| x.owner))
}

/// The owners of the subscriptions.
pub open spec fn subscription_owners(q: Seq<SubscriptionModel>) -> Seq<u32> {
    image(q, |x: SubscriptionModel| x.owner)
}

pub fn owners_of_subscriptions(v: &Vec<Subscription>) -> (r: Vec<u32>)
    ensures
        r@ == subscription_owners(views(v@)),
{
    let f = |x: &Subscription| -> (r: u32)
        ensures
            r == x@.owner,
    {
        x.owner
    };
    copy_map(v, f, Ghost(|x: SubscriptionModel| x.owner))
}

/// The owners of the indexes.
pub open spec fn index_owners(q: Seq<IndexModel>) -> Seq<u32> {
    image(q, |x: IndexModel| x.owner)
}

pub fn owners_of_indexes(v: &Vec<Index>) -> (r: Vec<u32>)
    ensures
        r@ == index_owners(views(v@)),
{
    let f = |x: &Index| -> (r: u32)
        ensures
            r == x@.owner,
    {
        x.owner
    };
    copy_map(v, f, Ghost(|x: IndexModel| x.owner))
}

/// The owners of the views.
pub open spec fn view_owners(q: Seq<ViewInfoModel>) -> Seq<u32> {
    image(q, |x: ViewInfoModel| x.owner)
}

pub fn owners_of_views(v: &Vec<ViewInfo>) -> (r: Vec<u32>)
    ensures
        r@ == view_owners(views(v@)),
{
    let f = |x: &ViewInfo| -> (r: u32)
        ensures
            r == x@.owner,
    {
        x.owner
    };
    copy_map(v, f, Ghost(|x: ViewInfoModel| x.owner))
}

/// The owners of the schemas.
pub open spec fn schema_owners(q: Seq<SchemaModel>) -> Seq<u32> {
    image(q, |x: SchemaModel| x.owner)
}

pub fn owners_of_schemas(v: &Vec<Schema>) -> (r: Vec<u32>)
    ensures
        r@ == schema_owners(views(v@)),
{
    let f = |x: &Schema| -> (r: u32)
        ensures
            r == x@.owner,
    {
        x.owner
    };
    copy_map(v, f, Ghost(|x: SchemaModel| x.owner))
}

/// The owners of the functions.
pub open spec fn function_owners(q: Seq<FunctionModel>) -> Seq<u32> {
    image(q, |x: FunctionModel| x.owner)
}

pub fn owners_of_functions(v: &Vec<Function>) -> (r: Vec<u32>)
    ensures
        r@ == function_owners(views(v@)),
{
    let f = |x: &Function| -> (r: u32)
        ensures
            r == x@.owner,
    {
        x.owner
    };
    copy_map(v, f, Ghost(|x: FunctionModel| x.owner))
}

/// The owners of the connections.
pub open spec fn connection_owners(q: Seq<ConnectionModel>) -> Seq<u32> {
    image(q, |x: ConnectionModel| x.owner)
}

pub fn owners_of_connections(v: &Vec<Connection>) -> (r: Vec<u32>)
    ensures
        r@ == connection_owners(views(v@)),
{
    let f = |x: &Connection| -> (r: u32)
        ensures
            r == x@.owner,
    {
        x.owner
    };
    copy_map(v, f, Ghost(|x: ConnectionModel| x.owner))
}

/// The owners of the secrets.
pub open spec fn secret_owners(q: Seq<SecretModel>) -> Seq<u32> {
    image(q, |x: SecretModel| x.owner)
}

pub fn owners_of_secrets(v: &Vec<Secret>) -> (r: Vec<u32>)
    ensures
        r@ == secret_owners(views(v@)),
{
    let f = |x: &Secret| -> (r: u32)
        ensures
            r == x@.owner,
    {
        x.owner
    };
    copy_map(v, f, Ghost(|x: SecretModel| x.owner))
}

/// The relations that the tables depend on.
pub open spec fn table_dependencies(q: Seq<TableModel>) -> Seq<u32> {
    gather(q, |x: TableModel| x.dependent_relations)
}

pub fn collect_table_dependencies(v: &Vec<Table>) -> (r: Vec<u32>)
    ensures
        r@ == table_dependencies(views(v@)),
{
    let f = |x: &Table| -> (r: Vec<u32>)
        ensures
            r@ == x@.dependent_relations,
    {
        copy_all(&x.dependent_relations)
    };
    gather_all(v, f, Ghost(|x: TableModel| x.dependent_relations))
}

/// The relations that the views depend on.
pub open spec fn view_dependencies(q: Seq<ViewInfoModel>) -> Seq<u32> {
    gather(q, |x: ViewInfoModel| x.dependent_relations)
}

pub fn collect_view_dependencies(v: &Vec<ViewInfo>) -> (r: Vec<u32>)
    ensures
        r@ == view_dependencies(views(v@)),
{
    let f = |x: &ViewInfo| -> (r: Vec<u32>)
        ensures
            r@ == x@.dependent_relations,
    {
        copy_all(&x.dependent_relations)
    };
    gather_all(v, f, Ghost(|x: ViewInfoModel| x.dependent_relations))
}

/// The relations that the sinks read.
pub open spec fn sink_dependencies(q: Seq<SinkModel>) -> Seq<u32> {
    gather(q, |x: SinkModel| x.dependent_relations)
}

pub fn collect_sink_dependencies(v: &Vec<Sink>) -> (r: Vec<u32>)
    ensures
        r@ == sink_dependencies(views(v@)),
{
    let f = |x: &Sink| -> (r: Vec<u32>)
        ensures
            r@ == x@.dependent_relations,
    {
        copy_all(&x.dependent_relations)
    };
    gather_all(v, f, Ghost(|x: SinkModel| x.dependent_relations))
}

/// The secrets that the sources refer to.
pub open spec fn source_secrets(q: Seq<SourceModel>) -> Seq<u32> {
    gather(q, |x: SourceModel| x.secret_ids)
}

pub fn collect_source_secrets(v: &Vec<Source>) -> (r: Vec<u32>)
    ensures
        r@ == source_secrets(views(v@)),
{
    let f = |x: &Source| -> (r: Vec<u32>)
        ensures
            r@ == x@.secret_ids,
    {
        copy_all(&x.secret_ids)
    };
    gather_all(v, f, Ghost(|x: SourceModel| x.secret_ids))
}

/// The secrets that the sinks refer to.
pub open spec fn sink_secrets(q: Seq<SinkModel>) -> Seq<u32> {
    gather(q, |x: SinkModel| x.secret_ids)
}

pub fn collect_sink_secrets(v: &Vec<Sink>) -> (r: Vec<u32>)
    ensures
        r@ == sink_secrets(views(v@)),
{
    let f = |x: &Sink| -> (r: Vec<u32>)
        ensures
            r@ == x@.secret_ids,
    {
        copy_all(&x.secret_ids)
    };
    gather_all(v, f, Ghost(|x: SinkModel| x.secret_ids))
}

/// An optional identifier as a list.
pub open spec fn one_or_none(id: Option<u32>) -> Seq<u32> {
    match id {
        Some(id) => seq![id],
        None => Seq::empty(),
    }
}

pub fn id_list(id: Option<u32>) -> (r: Vec<u32>)
    ensures
        r@ == one_or_none(id),
{
    let mut r: Vec<u32> = Vec::new();
    match id {
        Some(id) => {
            r.push(id);
        },
        None => {},
    }
    assert(r@ =~= one_or_none(id));
    r
}

/// The connections that the sources use.
pub open spec fn source_connections(q: Seq<SourceModel>) -> Seq<u32> {
    gather(q, |x: SourceModel| one_or_none(x.connection_id))
}

pub fn collect_source_connections(v: &Vec<Source>) -> (r: Vec<u32>)
    ensures
        r@ == source_connections(views(v@)),
{
    let f = |x: &Source| -> (r: Vec<u32>)
        ensures
            r@ == one_or_none(x@.connection_id),
    {
        id_list(x.connection_id)
    };
    gather_all(v, f, Ghost(|x: SourceModel| one_or_none(x.connection_id)))
}

/// The connections that the sinks use.
pub open spec fn sink_connections(q: Seq<SinkModel>) -> Seq<u32> {
    gather(q, |x: SinkModel| one_or_none(x.connection_id))
}

pub fn collect_sink_connections(v: &Vec<Sink>) -> (r: Vec<u32>)
    ensures
        r@ == sink_connections(views(v@)),
{
    let f = |x: &Sink| -> (r: Vec<u32>)
        ensures
            r@ == one_or_none(x@.connection_id),
    {
        id_list(x.connection_id)
    };
    gather_all(v, f, Ghost(|x: SinkModel| one_or_none(x.connection_id)))
}

/// The tables that the subscriptions follow.
pub open spec fn subscription_dependencies(q: Seq<SubscriptionModel>) -> Seq<u32> {
    image(q, |x: SubscriptionModel| x.dependent_table_id)
}

pub fn collect_subscription_dependencies(v: &Vec<Subscription>) -> (r: Vec<u32>)
    ensures
        r@ == subscription_dependencies(views(v@)),
{
    let f = |x: &Subscription| -> (r: u32)
        ensures
            r == x@.dependent_table_id,
    {
        x.dependent_table_id
    };
    copy_map(v, f, Ghost(|x: SubscriptionModel| x.dependent_table_id))
}

} // verus!
