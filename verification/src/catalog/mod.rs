pub mod access_laws;
pub mod check_laws;
pub mod creating;
pub mod database;
pub mod definition;
pub mod definition_laws;
pub mod drop;
pub mod drop_apply;
pub mod drop_database;
pub mod drop_effects;
pub mod drop_laws;
pub mod effects;
pub mod error;
pub mod finish_laws;
pub mod finishing;
pub mod grant;
pub mod init;
pub mod jobs;
pub mod key_set;
pub mod laws;
pub mod listing;
pub mod listing_laws;
pub mod load_laws;
pub mod manager;
pub mod move_laws;
pub mod names;
pub mod notify;
pub mod object_laws;
pub mod objects;
pub mod outcome;
pub mod owner;
pub mod owner_laws;
pub mod privilege;
pub mod privilege_laws;
pub mod ready;
pub mod recovery;
pub mod recovery_laws;
pub mod relations;
pub mod rename;
pub mod rename_laws;
pub mod replace_laws;
pub mod revoke;
pub mod set_schema;
pub mod start_laws;
pub mod state;
pub mod types;
pub mod users;
