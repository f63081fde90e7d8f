//! What is refused because it is unknown or already there, what the refusals are, and who waits for a job.

use vstd::prelude::*;
use vstd::string::*;

use crate::catalog::creating::waiting_for;
use crate::catalog::error::{CatalogKind, MetaErrorKind, MetaErrorModel};
use crate::catalog::jobs::{all_waiting, bare_table, storage};
use crate::catalog::names::{internal_name, internal_name_at, internal_prefix};
use crate::catalog::notify::{Audience, InfoModel, Operation, RelationInfoModel};
use crate::catalog::state::{DatabaseManagerModel, UserManagerModel};
use crate::catalog::types::{RelationKeyModel, TableModel};
use crate::util::ids::{lemma_listing_exists, listing};
use crate::util::lists::lemma_gather_contains;
use crate::util::text::{decimal, lemma_mentions, mentions};

verus! {

/// What is asked for by its identifier is refused exactly where nothing of its kind has it; the refusal
/// names the kind and the identifier.
pub proof fn law_unknown_identifiers_are_refused(db: DatabaseManagerModel, users: UserManagerModel, id: u32)
    ensures
        db.ensure_database(id) is None <==> db.databases.contains_key(id),
        db.ensure_schema(id) is None <==> db.schemas.contains_key(id),
        db.ensure_table(id) is None <==> db.tables.contains_key(id),
        db.ensure_view(id) is None <==> db.views.contains_key(id),
        db.ensure_source(id) is None <==> db.sources.contains_key(id),
        db.ensure_sink(id) is None <==> db.sinks.contains_key(id),
        db.ensure_index(id) is None <==> db.indexes.contains_key(id),
        db.ensure_subscription(id) is None <==> db.subscriptions.contains_key(id),
        db.ensure_function(id) is None <==> db.functions.contains_key(id),
        db.ensure_connection(id) is None <==> db.connections.contains_key(id),
        users.ensure_user(id) is None <==> users.user_info.contains_key(id),
        refused_as(db.ensure_database(id), CatalogKind::Database, id),
        refused_as(db.ensure_schema(id), CatalogKind::Schema, id),
        refused_as(db.ensure_table(id), CatalogKind::Table, id),
        refused_as(db.ensure_view(id), CatalogKind::View, id),
        refused_as(db.ensure_source(id), CatalogKind::Source, id),
        refused_as(db.ensure_sink(id), CatalogKind::Sink, id),
        refused_as(db.ensure_index(id), CatalogKind::Index, id),
        refused_as(db.ensure_subscription(id), CatalogKind::Subscription, id),
        refused_as(db.ensure_function(id), CatalogKind::Function, id),
        refused_as(db.ensure_connection(id), CatalogKind::Connection, id),
        refused_as(users.ensure_user(id), CatalogKind::User, id),
{
}

/// A refusal says that nothing of this kind has this identifier.
pub open spec fn refused_as(e: Option<MetaErrorModel>, kind: CatalogKind, id: u32) -> bool {
    e is Some ==> e->0 == MetaErrorModel::CatalogIdNotFound(kind, id)
}

/// A name is refused exactly where something of the same kind has it in the same place; functions of the
/// same name may differ in their arguments.
pub proof fn law_names_that_are_there_are_refused(
    db: DatabaseManagerModel,
    users: UserManagerModel,
    key: RelationKeyModel,
    arg_types: Seq<Seq<char>>,
)
    ensures
        db.connection_clash(key) is Some <==> exists|x: u32| #[trigger]
            db.connections.contains_key(x) && db.connections[x].database_id == key.database_id
                && db.connections[x].schema_id == key.schema_id && db.connections[x].name == key.name,
        db.secret_clash(key) is Some <==> exists|x: u32| #[trigger]
            db.secrets.contains_key(x) && db.secrets[x].database_id == key.database_id
                && db.secrets[x].schema_id == key.schema_id && db.secrets[x].name == key.name,
        db.function_clash(key, arg_types) is Some <==> exists|x: u32| #[trigger]
            db.functions.contains_key(x) && db.functions[x].database_id == key.database_id
                && db.functions[x].schema_id == key.schema_id && db.functions[x].name == key.name
                && db.functions[x].arg_types == arg_types,
        db.database_clash(key.name) is Some <==> exists|x: u32| #[trigger]
            db.databases.contains_key(x) && db.databases[x].name == key.name,
        db.schema_clash(key.database_id, key.name) is Some <==> exists|x: u32| #[trigger]
            db.schemas.contains_key(x) && db.schemas[x].database_id == key.database_id
                && db.schemas[x].name == key.name,
        users.has_name(key.name) <==> exists|x: u32| #[trigger]
            users.user_info.contains_key(x) && users.user_info[x].name == key.name,
{
}

/// A schema is empty exactly where no relation is in it, and busy where one is being created in it; so is a
/// database.
pub proof fn law_empty_and_busy_schemas(db: DatabaseManagerModel, id: u32)
    ensures
        db.schema_empty(id) <==> {
            &&& forall|x: u32| #[trigger] db.tables.contains_key(x) ==> db.tables[x].schema_id != id
            &&& forall|x: u32| #[trigger] db.sources.contains_key(x) ==> db.sources[x].schema_id != id
            &&& forall|x: u32| #[trigger] db.sinks.contains_key(x) ==> db.sinks[x].schema_id != id
            &&& forall|x: u32| #[trigger]
                db.subscriptions.contains_key(x) ==> db.subscriptions[x].schema_id != id
            &&& forall|x: u32| #[trigger] db.indexes.contains_key(x) ==> db.indexes[x].schema_id != id
            &&& forall|x: u32| #[trigger] db.views.contains_key(x) ==> db.views[x].schema_id != id
        },
        db.creating_in_schema(id) <==> exists|k: RelationKeyModel| #[trigger]
            db.in_progress_creation_tracker.contains(k) && k.schema_id == id,
        db.creating_in_database(id) <==> exists|k: RelationKeyModel| #[trigger]
            db.in_progress_creation_tracker.contains(k) && k.database_id == id,
{
}

/// What a refusal is: who lacks a privilege, or asks for what others rely on, is denied; what is unknown,
/// already there or cancelled is said to be so.
pub proof fn law_classes_of_refusals(e: MetaErrorModel)
    ensures
        e.kind() == MetaErrorKind::CatalogIdNotFound <==> e is CatalogIdNotFound || e is JobGone,
        e.kind() == MetaErrorKind::Duplicated <==> e is CatalogDuplicated,
        e.kind() == MetaErrorKind::FragmentNotFound <==> e is FragmentNotFound,
        e.kind() == MetaErrorKind::InvalidParameter <==> e is NotCreating,
        e.kind() == MetaErrorKind::Cancelled <==> e is JobCancelled,
        e.kind() == MetaErrorKind::PermissionDenied <==> {
            ||| e is DatabaseBusy
            ||| e is SchemaBusy
            ||| e is SchemaNotEmpty
            ||| e is ObjectReferenced
            ||| e is RelationReferenced
            ||| e is UserExists
            ||| e is DropDefaultUser
            ||| e is UserHasObjects
            ||| e is UserHasGrants
            ||| e is GrantToSuperUser
            ||| e is GrantWithoutOption
            ||| e is GrantorLacksPrivilege
            ||| e is RevokeWithoutPermission
            ||| e is RevokerLacksPrivilege
            ||| e is RevokeFromSuperUser
            ||| e is RevokeRestricted
        },
{
}

/// The words of a refusal name what it is about: the kind and the identifier or the name.
pub proof fn law_refusals_name_what_they_are_about(kind: CatalogKind, id: u32, name: Seq<char>, n: usize)
    ensures
        mentions(MetaErrorModel::CatalogIdNotFound(kind, id).message(), kind.word()),
        mentions(MetaErrorModel::CatalogIdNotFound(kind, id).message(), decimal(id as nat)),
        mentions(MetaErrorModel::JobGone(kind, name).message(), kind.word()),
        mentions(MetaErrorModel::JobGone(kind, name).message(), name),
        mentions(MetaErrorModel::CatalogDuplicated(kind, name).message(), kind.word()),
        mentions(MetaErrorModel::CatalogDuplicated(kind, name).message(), name),
        mentions(MetaErrorModel::ObjectReferenced(kind, name, n).message(), kind.word()),
        mentions(MetaErrorModel::ObjectReferenced(kind, name, n).message(), name),
        mentions(MetaErrorModel::ObjectReferenced(kind, name, n).message(), decimal(n as nat)),
        mentions(MetaErrorModel::RelationReferenced(kind, name, n).message(), kind.word()),
        mentions(MetaErrorModel::RelationReferenced(kind, name, n).message(), name),
        mentions(MetaErrorModel::RelationReferenced(kind, name, n).message(), decimal(n as nat)),
        mentions(MetaErrorModel::JobCancelled(id).message(), decimal(id as nat)),
        mentions(MetaErrorModel::NotCreating(id).message(), decimal(id as nat)),
        mentions(MetaErrorModel::UserExists(name).message(), name),
        mentions(MetaErrorModel::UserMissing(id).message(), decimal(id as nat)),
        mentions(MetaErrorModel::UserHasObjects(name).message(), name),
        mentions(MetaErrorModel::RevokeRestricted(name).message(), name),
        mentions(MetaErrorModel::RevokerLacksPrivilege(name).message(), name),
        mentions(MetaErrorModel::GrantorLacksPrivilege(id).message(), decimal(id as nat)),
{
    let e = Seq::<char>::empty();
    lemma_mentions(e, kind.word(), " id not found: "@ + decimal(id as nat));
    assert(MetaErrorModel::CatalogIdNotFound(kind, id).message() =~= kind.word() + (
    " id not found: "@ + decimal(id as nat)));
    lemma_mentions(kind.word() + " id not found: "@, decimal(id as nat), e);
    lemma_mentions(e, kind.word(), " id not found: "@ + name + " may have been dropped/cancelled"@);
    assert(MetaErrorModel::JobGone(kind, name).message() =~= kind.word() + (" id not found: "@ + name
        + " may have been dropped/cancelled"@));
    lemma_mentions(kind.word() + " id not found: "@, name, " may have been dropped/cancelled"@);
    lemma_mentions(e, kind.word(), " with name "@ + name + " exists"@);
    assert(MetaErrorModel::CatalogDuplicated(kind, name).message() =~= kind.word() + (" with name "@
        + name + " exists"@));
    lemma_mentions(kind.word() + " with name "@, name, " exists"@);
    let d = decimal(n as nat) + " other relation(s) depend on it"@;
    let m = MetaErrorModel::ObjectReferenced(kind, name, n).message();
    lemma_mentions("Fail to delete "@, kind.word(), " "@ + name + " because "@ + d);
    assert(m =~= "Fail to delete "@ + kind.word() + (" "@ + name + " because "@ + d));
    lemma_mentions("Fail to delete "@ + kind.word() + " "@, name, " because "@ + d);
    assert(m =~= "Fail to delete "@ + kind.word() + " "@ + name + (" because "@ + d));
    lemma_mentions(
        "Fail to delete "@ + kind.word() + " "@ + name + " because "@,
        decimal(n as nat),
        " other relation(s) depend on it"@,
    );
    let m = MetaErrorModel::RelationReferenced(kind, name, n).message();
    lemma_mentions("Fail to delete "@, kind.word(), " `"@ + name + "` because "@ + d);
    assert(m =~= "Fail to delete "@ + kind.word() + (" `"@ + name + "` because "@ + d));
    lemma_mentions("Fail to delete "@ + kind.word() + " `"@, name, "` because "@ + d);
    assert(m =~= "Fail to delete "@ + kind.word() + " `"@ + name + ("` because "@ + d));
    lemma_mentions(
        "Fail to delete "@ + kind.word() + " `"@ + name + "` because "@,
        decimal(n as nat),
        " other relation(s) depend on it"@,
    );
    lemma_mentions("materialized view "@, decimal(id as nat), " has been cancelled"@);
    lemma_mentions("table is not in creating state id="@, decimal(id as nat), e);
    lemma_mentions("User "@, name, " already exists"@);
    lemma_mentions("User "@, decimal(id as nat), " not found"@);
    lemma_mentions("User "@, name, " cannot be dropped because some objects depend on it"@);
    lemma_mentions("Cannot revoke privilege from user "@, name, " for restrict"@);
    lemma_mentions("User "@, name, " does not have one of the privileges"@);
    lemma_mentions("Grantor "@, decimal(id as nat), " does not have one of the privileges"@);
}

/// Who waits for a job waits among those for its identifier; all who wait are those who wait for some.
pub proof fn law_who_waits(db: DatabaseManagerModel, id: u32, who: u64)
    requires
        db.creating_table_finish_notifier.dom().finite(),
    ensures
        waiting_for(db, id).contains(who) <==> db.creating_table_finish_notifier.contains_key(id)
            && db.creating_table_finish_notifier[id].contains(who),
        all_waiting(db).contains(who) <==> exists|x: u32| #[trigger]
            db.creating_table_finish_notifier.contains_key(x) && waiting_for(db, x).contains(who),
{
    let m = db.creating_table_finish_notifier;
    let l = listing(m.dom());
    let p = |x: u32| m[x];
    lemma_listing_exists(m.dom());
    lemma_gather_contains(l, p, who);
    if all_waiting(db).contains(who) {
        let i = choose|i: int| 0 <= i < l.len() && p(#[trigger] l[i]).contains(who);
        assert(l.contains(l[i]));
        assert(m.contains_key(l[i]));
    }
    if exists|x: u32| #[trigger] m.contains_key(x) && waiting_for(db, x).contains(who) {
        let x = choose|x: u32| #[trigger] m.contains_key(x) && waiting_for(db, x).contains(who);
        assert(l.contains(x));
        let i = choose|i: int| 0 <= i < l.len() && l[i] == x;
        assert(p(l[i]).contains(who));
    }
}

/// The storage, and no frontend, is told of the table by itself; a table that is taken out is told by its
/// identifier.
pub proof fn law_storage_is_told(op: Operation, table: TableModel, id: u32)
    ensures
        storage(op, table).audience == Audience::HummockAndCompactor,
        storage(op, table).operation == op,
        storage(op, table).info == InfoModel::RelationGroup(seq![RelationInfoModel::Table(table)]),
        bare_table(id).id == id,
{
}

/// A name with the mark of an internal table and, behind it, an underscore with a digit is that of an
/// internal table; one without the mark is not.
pub proof fn law_names_of_internal_tables(a: Seq<char>, b: Seq<char>, d: char, c: Seq<char>)
    requires
        '0' <= d <= '9',
        forall|k: int| 0 <= k < b.len() ==> #[trigger] b[k] != '\n',
    ensures
        internal_name(a + internal_prefix() + b + seq!['_', d] + c),
        (forall|i: int|
            0 <= i && i + internal_prefix().len() <= a.len() ==> #[trigger] a.subrange(
                i,
                i + internal_prefix().len(),
            ) != internal_prefix()) ==> !internal_name(a),
        internal_prefix() =~= "__internal_"@,
{
    reveal_strlit("__internal_");
    let p = internal_prefix();
    let s = a + p + b + seq!['_', d] + c;
    let i = a.len() as int;
    let j = (a.len() + p.len() + b.len()) as int;
    assert(s.subrange(i, i + p.len()) =~= p);
    assert(s[j] == '_');
    assert(s[j + 1] == d);
    assert forall|k: int| i + p.len() <= k < j implies s[k] != '\n' by {
        assert(s[k] == b[k - i - p.len()]);
    }
    assert(internal_name_at(s, i, j));
}

/// The words of the other refusals name each identifier, name or kind that they are about.
pub proof fn law_other_refusals_name_what_they_are_about(
    kind: CatalogKind,
    a: u32,
    b: u32,
    c: u32,
    name: Seq<char>,
    n: usize,
)
    ensures
        mentions(MetaErrorModel::RelationCreating(a).message(), decimal(a as nat)),
        mentions(MetaErrorModel::RelationMissing(kind).message(), kind.word()),
        mentions(MetaErrorModel::TableSinksInDependency(n).message(), decimal(n as nat)),
        mentions(MetaErrorModel::FragmentNotFound(a).message(), decimal(a as nat)),
        mentions(MetaErrorModel::CreatingProcedure(kind).message(), kind.word()),
        mentions(MetaErrorModel::AlreadyCreating(kind).message(), kind.word()),
        mentions(MetaErrorModel::AlteringProcedure(kind).message(), kind.word()),
        mentions(MetaErrorModel::ConnectionMissing(a).message(), decimal(a as nat)),
        mentions(MetaErrorModel::ColumnDescMissing(a, b).message(), decimal(a as nat)),
        mentions(MetaErrorModel::ColumnDescMissing(a, b).message(), decimal(b as nat)),
        mentions(MetaErrorModel::DropDefaultUser(a).message(), decimal(a as nat)),
        mentions(MetaErrorModel::UserHasGrants(a).message(), decimal(a as nat)),
        mentions(MetaErrorModel::GrantToSuperUser(a).message(), decimal(a as nat)),
        mentions(MetaErrorModel::GrantWithoutOption(a).message(), decimal(a as nat)),
        mentions(MetaErrorModel::RevokeWithoutPermission(name).message(), name),
        mentions(MetaErrorModel::RevokeFromSuperUser(a).message(), decimal(a as nat)),
        mentions(MetaErrorModel::SourceMissing(a).message(), decimal(a as nat)),
        mentions(MetaErrorModel::ActorStatusMissing(a, b).message(), decimal(a as nat)),
        mentions(MetaErrorModel::ActorStatusMissing(a, b).message(), decimal(b as nat)),
        mentions(MetaErrorModel::FragmentMismatch(a, b, c).message(), decimal(a as nat)),
        mentions(MetaErrorModel::FragmentMismatch(a, b, c).message(), decimal(b as nat)),
        mentions(MetaErrorModel::FragmentMismatch(a, b, c).message(), decimal(c as nat)),
        mentions(MetaErrorModel::JobMissing(a).message(), decimal(a as nat)),
        mentions(MetaErrorModel::MviewFragmentMissing(a).message(), decimal(a as nat)),
        mentions(MetaErrorModel::FragmentMissing(a).message(), decimal(a as nat)),
        mentions(MetaErrorModel::BackfillUpstreams(n, a).message(), decimal(n as nat)),
        mentions(MetaErrorModel::BackfillUpstreams(n, a).message(), decimal(a as nat)),
{
    let e = Seq::<char>::empty();
    let x = decimal(a as nat);
    let y = decimal(b as nat);
    let z = decimal(c as nat);
    let k = decimal(n as nat);
    lemma_mentions("table is in creating procedure, table id: "@, x, e);
    lemma_mentions(e, kind.word(), " doesn't exist"@);
    lemma_mentions("Found "@, k, " sink(s) into table in dependency, please drop them manually"@);
    lemma_mentions("Fragment id not found: "@, x, e);
    lemma_mentions(e, kind.word(), " is in creating procedure"@);
    lemma_mentions(e, kind.word(), " already in creating procedure"@);
    lemma_mentions(e, kind.word(), " is in altering procedure"@);
    lemma_mentions("connection "@, x, " not found."@);
    let t = " for table id "@ + y + " not found"@;
    lemma_mentions("column desc at index "@, x, t);
    assert(MetaErrorModel::ColumnDescMissing(a, b).message() =~= "column desc at index "@ + x + t);
    lemma_mentions("column desc at index "@ + x + " for table id "@, y, " not found"@);
    lemma_mentions("Cannot drop default super user "@, x, e);
    lemma_mentions("Cannot drop user "@, x, " with privileges granted to others"@);
    lemma_mentions("Cannot grant privilege to super user "@, x, e);
    lemma_mentions("Cannot grant privilege without grant permission for user "@, x, e);
    lemma_mentions("Cannot revoke privilege without permission for user "@, name, e);
    lemma_mentions("Cannot revoke privilege from supper user "@, x, e);
    lemma_mentions("source "@, x, " not found"@);
    let t = " in fragment "@ + y + " has no actor_status"@;
    lemma_mentions("actor "@, x, t);
    assert(MetaErrorModel::ActorStatusMissing(a, b).message() =~= "actor "@ + x + t);
    lemma_mentions("actor "@ + x + " in fragment "@, y, " has no actor_status"@);
    let m = MetaErrorModel::FragmentMismatch(a, b, c).message();
    let t = " from actor "@ + y + " is different from fragment "@ + z;
    lemma_mentions("fragment id "@, x, t);
    assert(m =~= "fragment id "@ + x + t);
    let t = " is different from fragment "@ + z;
    lemma_mentions("fragment id "@ + x + " from actor "@, y, t);
    assert(m =~= "fragment id "@ + x + " from actor "@ + y + t);
    lemma_mentions("fragment id "@ + x + " from actor "@ + y + " is different from fragment "@, z, e);
    lemma_mentions("job "@, x, " not found in database"@);
    lemma_mentions("No mview fragment found for job "@, x, e);
    lemma_mentions("No fragment found for fragment id "@, x, e);
    let h = "SourceBackfill should have only one upstream fragment, found "@;
    lemma_mentions(h, k, " for fragment "@ + x);
    assert(MetaErrorModel::BackfillUpstreams(n, a).message() =~= h + k + (" for fragment "@ + x));
    lemma_mentions(h + k + " for fragment "@, x, e);
}

} // verus!
