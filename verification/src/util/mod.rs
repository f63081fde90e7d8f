pub mod counts;
pub mod groups;
pub mod id_map;
pub mod id_set;
pub mod ids;
pub mod lists;
pub mod outside;
pub mod text;
