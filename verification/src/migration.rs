//! The migrations of the meta store.

use vstd::prelude::*;
use vstd::string::*;

use crate::util::id_map::views;

verus! {

/// Brings the meta store up to date.
#[derive(Debug, Clone, Copy)]
pub struct Migrator;

/// The names of all migrations, in the order in which they are applied.
pub open spec fn migration_names() -> Seq<Seq<char>> {
    seq![
        "m20230908_072257_init"@,
        "m20231008_020431_hummock"@,
        "m20240304_074901_subscription"@,
        "m20240410_082733_with_version_column_migration"@,
        "m20240410_154406_session_params"@,
        "m20240417_062305_subscription_internal_table_name"@,
        "m20240418_142249_function_runtime"@,
        "m20240506_112555_subscription_partial_ckpt"@,
        "m20240525_090457_secret"@,
        "m20240617_070131_index_column_properties"@,
        "m20240617_071625_sink_into_table_column"@,
        "m20240618_072634_function_compressed_binary"@,
        "m20240630_131430_remove_parallel_unit"@,
        "m20240701_060504_hummock_time_travel"@,
        "m20240702_080451_system_param_value"@,
        "m20240702_084927_unnecessary_fk"@,
        "m20240726_063833_auto_schema_change"@,
        "m20240806_143329_add_rate_limit_to_source_catalog"@,
        "m20240820_081248_add_time_travel_per_table_epoch"@,
        "m20240911_083152_variable_vnode_count"@,
    ]
}

fn name(names: &mut Vec<String>, s: &str)
    ensures
        views(final(names)@) == views(old(names)@).push(s@),
{
    names.push(String::from_str(s));
    assert(views(names@) =~= views(old(names)@).push(s@));
}

impl Migrator {
    /// The names of all migrations, in the order in which they are applied.
    pub fn migrations() -> (r: Vec<String>)
        ensures
            views(r@) == migration_names(),
    {
        let mut names: Vec<String> = Vec::new();
        assert(views(names@) =~= Seq::empty());
        name(&mut names, "m20230908_072257_init");
        name(&mut names, "m20231008_020431_hummock");
        name(&mut names, "m20240304_074901_subscription");
        name(&mut names, "m20240410_082733_with_version_column_migration");
        name(&mut names, "m20240410_154406_session_params");
        name(&mut names, "m20240417_062305_subscription_internal_table_name");
        name(&mut names, "m20240418_142249_function_runtime");
        name(&mut names, "m20240506_112555_subscription_partial_ckpt");
        name(&mut names, "m20240525_090457_secret");
        name(&mut names, "m20240617_070131_index_column_properties");
        name(&mut names, "m20240617_071625_sink_into_table_column");
        name(&mut names, "m20240618_072634_function_compressed_binary");
        name(&mut names, "m20240630_131430_remove_parallel_unit");
        name(&mut names, "m20240701_060504_hummock_time_travel");
        name(&mut names, "m20240702_080451_system_param_value");
        name(&mut names, "m20240702_084927_unnecessary_fk");
        name(&mut names, "m20240726_063833_auto_schema_change");
        name(&mut names, "m20240806_143329_add_rate_limit_to_source_catalog");
        name(&mut names, "m20240820_081248_add_time_travel_per_table_epoch");
        name(&mut names, "m20240911_083152_variable_vnode_count");
        assert(views(names@) =~= migration_names());
        names
    }
}

} // verus!
