pub mod column;
pub mod create;
pub mod handler;
pub mod laws;
pub mod rows;
pub mod types;
