//! A sink that stores messages of a stream in Apache Fluss tables.

pub mod arrow_data;
pub mod batch_builder;
pub mod config;
pub mod connector;
pub mod decimal;
pub mod decoding;
pub mod fluss_schema;
pub mod json;
pub mod laws;
pub mod message;
pub mod router;
pub mod schema;
pub mod schema_catalog;
pub mod sink;
pub mod table_path;
pub mod text;
pub mod writer;

