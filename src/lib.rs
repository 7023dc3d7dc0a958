//! A local content service: a cache of file contents in front of a
//! directory, a pipeline of text rewrite rules, and a registry of users.
//! Filesystem and environment access are left to the caller, which hands
//! their results to the verified operations here.

pub mod config;
pub mod data_processor;
pub mod errors;
pub mod file_processor;
pub mod network_client;
pub mod text;
pub mod user_manager;

pub use config::Config;
pub use data_processor::{DataProcessor, TransformRule};
pub use errors::{FileOp, IoKind, ServiceError};
pub use file_processor::{BatchItem, CachedEntry, FileProcessor, ListedEntry, ReadPlan, WritePlan};
pub use network_client::NetworkClient;
pub use user_manager::{User, UserManager};
