//! The runtime side of the protocol: per-job state, subscriptions and the
//! decisions of a connection.

pub mod artifacts;
pub mod connection;
pub mod config;
pub mod context;
pub mod credentials;
pub mod eventlog;
pub mod jobs;
pub mod principals;
pub mod registry;
pub mod session;
pub mod subscription;
