//! Verified core of the Agent Runtime Control Protocol (ARCP) SDK.

pub mod auth;
pub mod decimal;
pub mod envelope;
pub mod error;
pub mod ids;
pub mod json;
pub mod messages;
pub mod runtime;
pub mod table;
pub mod text;
pub mod time;
