pub mod barrier;
pub mod catalog;
pub mod etcd;
pub mod expr_context;
pub mod file_sink;
pub mod fragment;
pub mod kafka;
pub mod migration;
pub mod show;
pub mod stats;
pub mod util;
