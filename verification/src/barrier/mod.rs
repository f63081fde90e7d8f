pub mod control;
pub mod effect_laws;
pub mod laws;
pub mod manager;
pub mod notifier;
pub mod scheduled;
pub mod types;
