//! What is brought up to date when the catalog is loaded.

use vstd::prelude::*;
use vstd::string::*;

use crate::catalog::definition::{
    build_cdc_table_id, cdc_table_id, external_table_name,
    extract_external_table_name_from_definition,
};
use crate::catalog::error::MetaResult;
use crate::catalog::manager::CatalogManager;
use crate::catalog::notify::Notification;
use crate::catalog::objects::{can_own, default_database_added, DEFAULT_SCHEMA_COUNT};
use crate::catalog::outcome::with_database;
use crate::catalog::state::{CatalogManagerCoreModel, DatabaseManagerModel};
use crate::catalog::types::{
    Property, PropertyModel, Sink, SinkModel, Source, SourceInfoModel, SourceModel, Table,
    TableModel, TableType,
};
use crate::catalog::users::{default_users_added, DEFAULT_SUPER_USER_ID};
use crate::util::id_map::{
    all_in, duplicate_all, ids_where, lemma_ids_where, opt_view, updated_at, views, Entry,
};

verus! {

// ---------------------------------------------------------------------------
// Sources.
// ---------------------------------------------------------------------------

/// The properties at which `chosen` is true.
pub open spec fn properties_at(q: Seq<PropertyModel>, chosen: Seq<bool>) -> Seq<PropertyModel>
    decreases q.len(),
{
    if q.len() == 0 {
        Seq::empty()
    } else {
        let before = properties_at(q.drop_last(), chosen);
        if chosen[q.len() - 1] {
            before.push(q.last())
        } else {
            before
        }
    }
}

/// The source tells of its encoding, but none of its options.
pub open spec fn legacy_source() -> spec_fn(SourceModel) -> bool {
    |s: SourceModel| s.info is Some && s.info->0.format_encode_options.len() == 0
}

/// The source with the chosen ones of its properties as options of its encoding.
pub open spec fn with_options(s: SourceModel, chosen: Seq<bool>) -> SourceModel {
    SourceModel {
        info: match s.info {
            Some(info) => Some(
                SourceInfoModel {
                    format_encode_options: properties_at(s.with_properties, chosen),
                    ..info
                },
            ),
            None => None,
        },
        ..s
    }
}

/// There is a choice for each source whose options are to be chosen, in order, and in it one for
/// each property.
pub open spec fn chosen_for(c: CatalogManagerCoreModel, chosen: Seq<Vec<bool>>) -> bool {
    let ids = ids_where(c.database.sources, legacy_source());
    &&& chosen.len() == ids.len()
    &&& forall|i: int|
        0 <= i < ids.len() ==> (#[trigger] chosen[i])@.len()
            == c.database.sources[ids[i]].with_properties.len()
}

/// The catalog with the chosen options of its sources.
pub open spec fn options_chosen(
    c: CatalogManagerCoreModel,
    chosen: Seq<Vec<bool>>,
) -> CatalogManagerCoreModel {
    let m = c.database.sources;
    let ids = ids_where(m, legacy_source());
    with_database(
        c,
        DatabaseManagerModel {
            sources: Map::new(
                |id: u32| m.contains_key(id),
                |id: u32|
                    if ids.contains(id) {
                        with_options(m[id], chosen[ids.index_of(id)]@)
                    } else {
                        m[id]
                    },
            ),
            ..c.database
        },
    )
}

/// The value of the last property with this key.
pub open spec fn value_of(q: Seq<PropertyModel>, key: Seq<char>) -> Option<Seq<char>>
    decreases q.len(),
{
    if q.len() == 0 {
        None
    } else if q.last().key == key {
        Some(q.last().value)
    } else {
        value_of(q.drop_last(), key)
    }
}

/// The value of the property `connector` of a source.
pub fn connector_of(source: &Source) -> (r: Option<String>)
    ensures
        opt_view(r) == value_of(source@.with_properties, "connector"@),
{
    let ghost q = views(source.with_properties@);
    let key = String::from_str("connector");
    let mut i: usize = source.with_properties.len();
    assert(q.take(i as int) =~= q);
    while i > 0
        invariant
            i <= source.with_properties.len(),
            key@ == "connector"@,
            q == views(source.with_properties@),
            value_of(q, "connector"@) == value_of(q.take(i as int), "connector"@),
        decreases i,
    {
        i = i - 1;
        proof {
            assert(q.take(i + 1).drop_last() =~= q.take(i as int));
            assert(q.take(i + 1).last() == source.with_properties@[i as int]@);
        }
        if source.with_properties[i].key == key {
            return Some(source.with_properties[i].value.clone());
        }
    }
    assert(q.take(0) =~= Seq::empty());
    None
}

fn choose_properties(list: &Vec<Property>, chosen: &Vec<bool>) -> (r: Vec<Property>)
    requires
        chosen@.len() == list@.len(),
    ensures
        views(r@) == properties_at(views(list@), chosen@),
{
    let ghost q = views(list@);
    let mut r: Vec<Property> = Vec::new();
    let mut i: usize = 0;
    proof {
        assert(q.take(0) =~= Seq::empty());
        assert(views(r@) =~= Seq::empty());
    }
    while i < list.len()
        invariant
            i <= list.len(),
            q == views(list@),
            chosen@.len() == list@.len(),
            views(r@) == properties_at(q.take(i as int), chosen@),
        decreases list.len() - i,
    {
        let ghost before = r@;
        proof {
            assert(q.take(i + 1).drop_last() =~= q.take(i as int));
            assert(q.take(i + 1).last() == list@[i as int]@);
        }
        if chosen[i] {
            r.push(list[i].duplicate());
            assert(views(r@) =~= views(before).push(list@[i as int]@));
        }
        i = i + 1;
    }
    assert(q.take(i as int) =~= q);
    r
}

impl CatalogManager {
    /// The sources of which the options of the encoding are to be chosen from their properties.
    pub fn legacy_sources(&self) -> (r: Vec<u32>)
        ensures
            r@ == ids_where(self@.database.sources, legacy_source()),
    {
        let f = |x: &Source| -> (b: bool)
            ensures
                b == legacy_source()(x@),
        {
            match &x.info {
                Some(info) => info.format_encode_options.len() == 0,
                None => false,
            }
        };
        self.core.database.sources.ids_where(f, Ghost(legacy_source()))
    }

    /// Gives each source that has no options of its encoding those of its properties that were
    /// chosen for it: `chosen` tells for each such source, in order, of each property whether it
    /// is.
    pub fn source_backward_compat_check(&mut self, chosen: &Vec<Vec<bool>>)
        requires
            chosen_for(old(self)@, chosen@),
        ensures
            final(self)@ == options_chosen(old(self)@, chosen@),
    {
        let ghost m = self@.database.sources;
        let ghost c = self@;
        let ids = self.legacy_sources();
        let ghost goal = |k: int|
            Map::new(
                |id: u32| m.contains_key(id),
                |id: u32|
                    if ids@.take(k).contains(id) {
                        with_options(m[id], chosen@[ids@.index_of(id)]@)
                    } else {
                        m[id]
                    },
            );
        proof {
            self.core.database.sources.lemma_finite();
            lemma_ids_where(m, legacy_source());
            assert(ids@.take(0) =~= Seq::empty());
            assert(m =~= goal(0));
        }
        let mut i: usize = 0;
        while i < ids.len()
            invariant
                i <= ids.len(),
                ids@ == ids_where(m, legacy_source()),
                ids@.no_duplicates(),
                all_in(ids@, m),
                chosen@.len() == ids@.len(),
                forall|i: int|
                    0 <= i < ids@.len() ==> (#[trigger] chosen@[i])@.len()
                        == m[ids@[i]].with_properties.len(),
                goal == (|k: int|
                    Map::new(
                        |id: u32| m.contains_key(id),
                        |id: u32|
                            if ids@.take(k).contains(id) {
                                with_options(m[id], chosen@[ids@.index_of(id)]@)
                            } else {
                                m[id]
                            },
                    )),
                self@ == with_database(
                    c,
                    DatabaseManagerModel { sources: goal(i as int), ..c.database },
                ),
            decreases ids.len() - i,
        {
            let id: u32 = ids[i];
            proof {
                assert(m.contains_key(ids@[i as int]));
                assert(ids@.take(i + 1) =~= ids@.take(i as int).push(id));
                assert(!ids@.take(i as int).contains(id)) by {
                    if ids@.take(i as int).contains(id) {
                        let k = choose|k: int|
                            0 <= k < i && #[trigger] ids@.take(i as int)[k] == id;
                        assert(ids@[k] == ids@[i as int]);
                    }
                }
                assert(ids@.contains(id));
                assert(ids@[ids@.index_of(id)] == id);
                assert(ids@.index_of(id) == i);
            }
            match self.core.database.sources.remove(id) {
                Some(source) => {
                    let mut source = source;
                    assert(source@ == m[id]);
                    assert(views(source.with_properties@) == m[id].with_properties);
                    assert(source.with_properties@.len() == views(source.with_properties@).len());
                    let options = choose_properties(&source.with_properties, &chosen[i]);
                    source.info = match source.info {
                        Some(info) => {
                            let mut info = info;
                            info.format_encode_options = options;
                            Some(info)
                        },
                        None => None,
                    };
                    assert(source@ =~= with_options(m[id], chosen@[i as int]@));
                    self.core.database.sources.insert(id, source);
                },
                None => {},
            }
            proof {
                let seen = ids@.take(i as int);
                assert forall|x: u32| #[trigger] seen.push(id).contains(x) <==> seen.contains(x) || x
                    == id by {
                    broadcast use vstd::seq_lib::lemma_seq_contains_after_push;

                }
                assert(self@.database.sources =~= goal(i + 1));
            }
            i = i + 1;
        }
        assert(ids@.take(i as int) =~= ids@);
    }
}

// ---------------------------------------------------------------------------
// Sinks.
// ---------------------------------------------------------------------------

/// The sink writes into a table whose columns it did not note.
pub open spec fn legacy_sink() -> spec_fn(SinkModel) -> bool {
    |s: SinkModel| s.target_table is Some && s.original_target_columns.len() == 0
}

/// The sink with the columns of the table that it writes into.
pub open spec fn with_target_columns(m: Map<u32, TableModel>) -> spec_fn(SinkModel) -> SinkModel {
    |s: SinkModel|
        SinkModel { original_target_columns: m[s.target_table->0].columns, ..s }
}

/// The tables that sinks write into, whose columns they did not note, are there.
pub open spec fn targets_known(c: CatalogManagerCoreModel) -> bool {
    forall|id: u32| #[trigger]
        c.database.sinks.contains_key(id) && legacy_sink()(c.database.sinks[id])
            ==> c.database.tables.contains_key(c.database.sinks[id].target_table->0)
}

/// The catalog with the columns of the tables that its sinks write into.
pub open spec fn targets_noted(c: CatalogManagerCoreModel) -> CatalogManagerCoreModel {
    with_database(
        c,
        DatabaseManagerModel {
            sinks: updated_at(
                c.database.sinks,
                ids_where(c.database.sinks, legacy_sink()),
                with_target_columns(c.database.tables),
            ),
            ..c.database
        },
    )
}

impl CatalogManager {
    /// Notes for each sink that writes into a table the columns of the table, where it did not.
    pub fn table_sink_catalog_update(&mut self)
        requires
            targets_known(old(self)@),
        ensures
            final(self)@ == targets_noted(old(self)@),
    {
        let ghost m = self@.database.sinks;
        let ghost tables = self@.database.tables;
        let ghost g = with_target_columns(tables);
        let ghost c = self@;
        let f = |x: &Sink| -> (b: bool)
            ensures
                b == legacy_sink()(x@),
        {
            x.target_table.is_some() && x.original_target_columns.len() == 0
        };
        let ids = self.core.database.sinks.ids_where(f, Ghost(legacy_sink()));
        proof {
            self.core.database.sinks.lemma_finite();
            lemma_ids_where(m, legacy_sink());
            assert(m =~= updated_at(m, ids@.take(0), g));
        }
        let mut i: usize = 0;
        while i < ids.len()
            invariant
                i <= ids.len(),
                ids@.no_duplicates(),
                all_in(ids@, m),
                forall|id: u32| #[trigger] ids@.contains(id) <==> m.contains_key(id) && legacy_sink()(
                    m[id],
                ),
                forall|id: u32| #[trigger]
                    m.contains_key(id) && legacy_sink()(m[id]) ==> tables.contains_key(
                        m[id].target_table->0,
                    ),
                tables == c.database.tables,
                g == with_target_columns(tables),
                self@ == with_database(
                    c,
                    DatabaseManagerModel {
                        sinks: updated_at(m, ids@.take(i as int), g),
                        ..c.database
                    },
                ),
            decreases ids.len() - i,
        {
            let id: u32 = ids[i];
            let ghost seen = ids@.take(i as int);
            proof {
                assert(m.contains_key(ids@[i as int]));
                assert(ids@.contains(id));
                assert(ids@.take(i + 1) =~= seen.push(id));
                assert(!seen.contains(id)) by {
                    if seen.contains(id) {
                        let k = choose|k: int| 0 <= k < seen.len() && seen[k] == id;
                        assert(ids@[k] == ids@[i as int]);
                    }
                }
            }
            match self.core.database.sinks.remove(id) {
                Some(sink) => {
                    let mut sink = sink;
                    assert(sink@ == m[id]);
                    match sink.target_table {
                        Some(target_table) => {
                            match self.core.database.tables.get(target_table) {
                                Some(table) => {
                                    sink.original_target_columns = duplicate_all(&table.columns);
                                },
                                None => {},
                            }
                        },
                        None => {},
                    }
                    assert(sink@ =~= g(m[id]));
                    self.core.database.sinks.insert(id, sink);
                },
                None => {},
            }
            proof {
                assert forall|x: u32| #[trigger] seen.push(id).contains(x) <==> seen.contains(x) || x
                    == id by {
                    broadcast use vstd::seq_lib::lemma_seq_contains_after_push;

                }
                assert(self@.database.sinks =~= updated_at(m, ids@.take(i + 1), g));
            }
            i = i + 1;
        }
        assert(ids@.take(i as int) =~= ids@);
    }
}

// ---------------------------------------------------------------------------
// Tables of external tables.
// ---------------------------------------------------------------------------

/// The table is read from one of these sources, and what identifies its external table is not
/// noted.
pub open spec fn legacy_table(sources: Map<u32, SourceModel>) -> spec_fn(TableModel) -> bool {
    |t: TableModel|
        t.dependent_relations.len() > 0 && sources.contains_key(t.dependent_relations[0])
            && t.table_type == TableType::Table && t.cdc_table_id is None
}

/// The table with what identifies its external table, where its definition tells it.
pub open spec fn with_cdc_table_id() -> spec_fn(TableModel) -> TableModel {
    |t: TableModel|
        match external_table_name(t.definition) {
            Some(name) => TableModel {
                cdc_table_id: Some(cdc_table_id(t.dependent_relations[0], name)),
                ..t
            },
            None => t,
        }
}

/// The catalog with what identifies the external tables of its tables.
pub open spec fn external_tables_noted(c: CatalogManagerCoreModel) -> CatalogManagerCoreModel {
    with_database(
        c,
        DatabaseManagerModel {
            tables: updated_at(
                c.database.tables,
                ids_where(c.database.tables, legacy_table(c.database.sources)),
                with_cdc_table_id(),
            ),
            ..c.database
        },
    )
}

impl CatalogManager {
    /// Notes for each table that is read from a source what identifies its external table, where
    /// that is not noted and the definition of the table tells it.
    pub fn table_catalog_cdc_table_id_update(&mut self)
        ensures
            final(self)@ == external_tables_noted(old(self)@),
    {
        let ghost m = self@.database.tables;
        let ghost p = legacy_table(self@.database.sources);
        let ghost c = self@;
        let sources = &self.core.database.sources;
        let f = |x: &Table| -> (b: bool)
            ensures
                b == legacy_table(sources@)(x@),
        {
            x.dependent_relations.len() > 0 && sources.contains_key(x.dependent_relations[0])
                && x.table_type == TableType::Table && x.cdc_table_id.is_none()
        };
        let ids = self.core.database.tables.ids_where(f, Ghost(p));
        proof {
            self.core.database.tables.lemma_finite();
            lemma_ids_where(m, p);
            assert(m =~= updated_at(m, ids@.take(0), with_cdc_table_id()));
        }
        let mut i: usize = 0;
        while i < ids.len()
            invariant
                i <= ids.len(),
                ids@.no_duplicates(),
                all_in(ids@, m),
                p == legacy_table(c.database.sources),
                forall|id: u32| #[trigger] ids@.contains(id) <==> m.contains_key(id) && p(m[id]),
                self@ == with_database(
                    c,
                    DatabaseManagerModel {
                        tables: updated_at(m, ids@.take(i as int), with_cdc_table_id()),
                        ..c.database
                    },
                ),
            decreases ids.len() - i,
        {
            let id: u32 = ids[i];
            let ghost seen = ids@.take(i as int);
            proof {
                assert(m.contains_key(ids@[i as int]));
                assert(ids@.contains(id));
                assert(ids@.take(i + 1) =~= seen.push(id));
                assert(!seen.contains(id)) by {
                    if seen.contains(id) {
                        let k = choose|k: int| 0 <= k < seen.len() && seen[k] == id;
                        assert(ids@[k] == ids@[i as int]);
                    }
                }
            }
            match self.core.database.tables.remove(id) {
                Some(table) => {
                    let mut table = table;
                    assert(table@ == m[id]);
                    match extract_external_table_name_from_definition(table.definition.as_str()) {
                        Some(name) => {
                            if table.dependent_relations.len() > 0 {
                                table.cdc_table_id = Some(
                                    build_cdc_table_id(table.dependent_relations[0], &name),
                                );
                            }
                        },
                        None => {},
                    }
                    assert(table@ =~= with_cdc_table_id()(m[id]));
                    self.core.database.tables.insert(id, table);
                },
                None => {},
            }
            proof {
                assert forall|x: u32| #[trigger] seen.push(id).contains(x) <==> seen.contains(x) || x
                    == id by {
                    broadcast use vstd::seq_lib::lemma_seq_contains_after_push;

                }
                assert(self@.database.tables =~= updated_at(
                    m,
                    ids@.take(i + 1),
                    with_cdc_table_id(),
                ));
            }
            i = i + 1;
        }
        assert(ids@.take(i as int) =~= ids@);
    }
}

// ---------------------------------------------------------------------------
// All of it.
// ---------------------------------------------------------------------------

/// What bringing a loaded catalog up to date presumes: there is an identifier for each schema of
/// the database, the super user can own them, the options of the sources are chosen, and the
/// tables that sinks write into are there.
pub open spec fn init_presumes(
    c: CatalogManagerCoreModel,
    schema_ids: Seq<u32>,
    chosen: Seq<Vec<bool>>,
) -> bool {
    &&& schema_ids.len() == DEFAULT_SCHEMA_COUNT
    &&& can_own(c.user, DEFAULT_SUPER_USER_ID, 5)
    &&& chosen_for(c, chosen)
    &&& targets_known(c)
}

impl CatalogManager {
    /// Adds the users and the database that are there from the start, and brings what was loaded
    /// up to date. Where the database cannot be created, only the users are added.
    pub fn init(
        &mut self,
        database_id: u32,
        schema_ids: &Vec<u32>,
        chosen: &Vec<Vec<bool>>,
    ) -> (r: MetaResult<Vec<Notification>>)
        requires
            init_presumes(old(self)@, schema_ids@, chosen@),
        ensures
            match default_database_added(
                default_users_added(old(self)@),
                database_id,
                schema_ids@,
            ) {
                Ok((c, messages)) => {
                    &&& r is Ok
                    &&& views(r->Ok_0@) == messages
                    &&& final(self)@ == external_tables_noted(
                        targets_noted(options_chosen(c, chosen@)),
                    )
                },
                Err(e) => {
                    &&& r is Err
                    &&& r->Err_0@ == e
                    &&& final(self)@ == default_users_added(old(self)@)
                },
            },
    {
        self.init_user();
        match self.init_database(database_id, schema_ids) {
            Ok(messages) => {
                self.source_backward_compat_check(chosen);
                self.table_sink_catalog_update();
                self.table_catalog_cdc_table_id_update();
                Ok(messages)
            },
            Err(e) => Err(e),
        }
    }
}

} // verus!
