//! Routing: which table each message goes to, and what stands between a message and its table.

pub mod multi_table;
pub mod single_table;

use vstd::prelude::*;

use self::multi_table::MultiTableRouter;
use self::single_table::SingleTableRouter;
use crate::arrow_data::ArrowBatch;
use crate::config::{FlussSinkConfig, RouterType};
use crate::connector::{ConnectorError, ConnectorFailure};
use crate::schema::{payload_column, unsupported_format};
use crate::schema_catalog::{CatalogFailure, SchemaCatalogError};
use crate::table_path::TablePath;
use crate::text::{decimal, decimal_digits};
use crate::writer::{Op, WriterError, WriterFailure};

verus! {

/// A batch that is to be written to a table.
#[derive(Debug)]
pub struct TableWrite {
    pub table_path: TablePath,
    pub op: Op,
    pub batch: ArrowBatch,
}

/// Why messages could not be routed.
#[derive(Debug)]
pub enum RouterError {
    WriterError(WriterError),
    ExtractStringField { id: u128, key: String, reason: String },
    SchemaCatalog(SchemaCatalogError),
    FailedToExtractTablePath { reason: String },
    FailedToCreateRecordBatch { reason: String },
}

/// What a [`RouterError`] says.
pub enum RouterFailure {
    WriterError(WriterFailure),
    ExtractStringField(u128, Seq<char>, Seq<char>),
    SchemaCatalog(CatalogFailure),
    FailedToExtractTablePath(Seq<char>),
    FailedToCreateRecordBatch(Seq<char>),
}

impl View for RouterError {
    type V = RouterFailure;

    open spec fn view(&self) -> RouterFailure {
        match self {
            RouterError::WriterError(error) => RouterFailure::WriterError(error@),
            RouterError::ExtractStringField {
                id,
                key,
                reason,
            } => RouterFailure::ExtractStringField(*id, key@, reason@),
            RouterError::SchemaCatalog(error) => RouterFailure::SchemaCatalog(error@),
            RouterError::FailedToExtractTablePath {
                reason,
            } => RouterFailure::FailedToExtractTablePath(reason@),
            RouterError::FailedToCreateRecordBatch {
                reason,
            } => RouterFailure::FailedToCreateRecordBatch(reason@),
        }
    }
}

impl RouterFailure {
    /// The failure in words.
    pub open spec fn message(self) -> Seq<char> {
        match self {
            RouterFailure::WriterError(failure) => failure.message(),
            RouterFailure::ExtractStringField(id, key, reason) =>
                "Failed to extract string value for ["@ + key + "] for message: ["@
                    + decimal_digits(id as nat) + "] because: ["@ + reason + "]"@,
            RouterFailure::SchemaCatalog(failure) => failure.message(),
            RouterFailure::FailedToExtractTablePath(reason) =>
                "Failed to create table path: ["@ + reason + "]"@,
            RouterFailure::FailedToCreateRecordBatch(reason) =>
                "Failed to create table path: ["@ + reason + "]"@,
        }
    }

    /// Whether the writer failed, and not a record.
    pub open spec fn of_writer(self) -> bool {
        match self {
            RouterFailure::WriterError(_) => true,
            RouterFailure::SchemaCatalog(CatalogFailure::Writer(_)) => true,
            _ => false,
        }
    }

    /// The failure as the connector runtime sees it: the message, as an error of initialization
    /// where the writer failed and as an error of a record in all other cases.
    pub open spec fn connector_failure(self) -> ConnectorFailure {
        if self.of_writer() {
            ConnectorFailure::InitError(self.message())
        } else {
            ConnectorFailure::InvalidRecordValue(self.message())
        }
    }
}

impl RouterError {
    /// The error in words.
    pub fn message(&self) -> (text: String)
        ensures
            text@ == self@.message(),
    {
        match self {
            RouterError::WriterError(error) => error.message(),
            RouterError::ExtractStringField {
                id,
                key,
                reason,
            } => "Failed to extract string value for [".to_owned().concat(key.as_str()).concat(
                "] for message: [",
            ).concat(decimal(*id).as_str()).concat("] because: [").concat(reason.as_str()).concat(
                "]",
            ),
            RouterError::SchemaCatalog(error) => error.message(),
            RouterError::FailedToExtractTablePath {
                reason,
            } => "Failed to create table path: [".to_owned().concat(reason.as_str()).concat("]"),
            RouterError::FailedToCreateRecordBatch {
                reason,
            } => "Failed to create table path: [".to_owned().concat(reason.as_str()).concat("]"),
        }
    }

    /// The error as the connector runtime sees it.
    pub fn into_connector_error(self) -> (error: ConnectorError)
        ensures
            error@ == self@.connector_failure(),
    {
        let message = self.message();
        match self {
            RouterError::WriterError(_)
            | RouterError::SchemaCatalog(SchemaCatalogError::Writer(_)) => {
                ConnectorError::InitError(message)
            },
            RouterError::ExtractStringField { .. }
            | RouterError::SchemaCatalog(_)
            | RouterError::FailedToExtractTablePath { .. }
            | RouterError::FailedToCreateRecordBatch { .. } => {
                ConnectorError::InvalidRecordValue(message)
            },
        }
    }
}

/// The router of the sink.
#[derive(Debug)]
pub enum Router {
    SingleTable(SingleTableRouter),
    MultiTable(MultiTableRouter),
}

/// Whether a router is the one under a configuration, or the error that there is none. Only the
/// layout of a single table can fail.
pub open spec fn router_for(
    config: FlussSinkConfig,
    router: Result<Router, ConnectorError>,
) -> bool {
    match config.router_type {
        RouterType::Single => match payload_column(config.payload_format@) {
            Some(payload) => {
                &&& router matches Ok(Router::SingleTable(single))
                &&& single.made_for(config, payload)
            },
            None => {
                &&& router matches Err(error)
                &&& error@ == ConnectorFailure::InvalidConfigValue(
                    unsupported_format(config.payload_format@),
                )
            },
        },
        RouterType::Multi => {
            &&& router matches Ok(Router::MultiTable(multi))
            &&& multi.made_for(config)
        },
    }
}

impl Router {
    /// The router under a configuration. Only the layout of a single table can fail.
    pub fn from_config(config: &FlussSinkConfig) -> (router: Result<Router, ConnectorError>)
        ensures
            router_for(*config, router),
    {
        match config.router_type {
            RouterType::Single => match SingleTableRouter::new(config) {
                Ok(router) => Ok(Router::SingleTable(router)),
                Err(error) => Err(error),
            },
            RouterType::Multi => Ok(Router::MultiTable(MultiTableRouter::new(config))),
        }
    }
}

/// Whatever becomes of a failure on its way to the connector runtime, what it says is kept.
pub proof fn lemma_message_kept(failure: RouterFailure)
    ensures
        failure.connector_failure().detail() == failure.message(),
{
}

} // verus!
