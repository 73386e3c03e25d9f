//! The session logic of a blocking MySQL/MariaDB client: packet framing, capability
//! negotiation and authentication decisions, result-set reading, prepared-statement
//! parameters and a bounded statement cache. The transport lives with the caller.

pub mod attrs;
pub mod auth;
pub mod command;
pub mod compression;
pub mod conn;
pub mod consts;
pub mod error;
pub mod framing;
pub mod handshake;
pub mod lenenc;
pub mod params;
pub mod result_set;
pub mod rows;
pub mod stmt_cache;
pub mod transaction;
