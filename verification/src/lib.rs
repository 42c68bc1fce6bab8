//! Typed key-value records in named schemas: the data model of a small
//! file-backed database, its tagged literals and its commands.
//!
//! Nothing here touches a file. A caller reads the database, hands it to a
//! command together with what the command is given, and writes back or shows
//! what the command returns.

pub mod args;
pub mod commands;
pub mod data;
pub mod database;
pub mod error;
pub mod key;
pub mod laws;
pub mod literal;
pub mod parse;
pub mod schema;
pub mod sorted_map;
pub mod text;

pub use crate::data::Data;
pub use crate::database::Database;
pub use crate::schema::DataSchema;
