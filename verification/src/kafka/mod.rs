pub mod enumerator;
pub mod laws;
