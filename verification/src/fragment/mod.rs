pub mod compose;
pub mod controller;
pub mod count_laws;
pub mod effect_laws;
pub mod extract;
pub mod flags;
pub mod jobs;
pub mod laws;
pub mod migrate;
pub mod queries;
pub mod rows;
pub mod single;
pub mod tree;
pub mod types;
