//! The errors that the sink reports to the connector runtime.

use vstd::prelude::*;

verus! {

/// An error as the connector runtime sees it.
#[derive(Debug, Clone, PartialEq, Eq)]
pub enum ConnectorError {
    /// A value of the configuration cannot be used.
    InvalidConfigValue(String),
    /// The sink, or something that it needs, is not initialized.
    InitError(String),
    /// The connection failed.
    Connection(String),
    /// The data could not be stored.
    CannotStoreData(String),
    /// A record cannot be stored as it is.
    InvalidRecordValue(String),
    /// A payload could not be serialized.
    Serialization(String),
}

/// What a [`ConnectorError`] says.
pub enum ConnectorFailure {
    InvalidConfigValue(Seq<char>),
    InitError(Seq<char>),
    Connection(Seq<char>),
    CannotStoreData(Seq<char>),
    InvalidRecordValue(Seq<char>),
    Serialization(Seq<char>),
}

impl View for ConnectorError {
    type V = ConnectorFailure;

    open spec fn view(&self) -> ConnectorFailure {
        match self {
            ConnectorError::InvalidConfigValue(detail) => ConnectorFailure::InvalidConfigValue(
                detail@,
            ),
            ConnectorError::InitError(detail) => ConnectorFailure::InitError(detail@),
            ConnectorError::Connection(detail) => ConnectorFailure::Connection(detail@),
            ConnectorError::CannotStoreData(detail) => ConnectorFailure::CannotStoreData(detail@),
            ConnectorError::InvalidRecordValue(detail) => ConnectorFailure::InvalidRecordValue(
                detail@,
            ),
            ConnectorError::Serialization(detail) => ConnectorFailure::Serialization(detail@),
        }
    }
}

impl ConnectorFailure {
    /// The detail that the error carries.
    pub open spec fn detail(self) -> Seq<char> {
        match self {
            ConnectorFailure::InvalidConfigValue(detail) => detail,
            ConnectorFailure::InitError(detail) => detail,
            ConnectorFailure::Connection(detail) => detail,
            ConnectorFailure::CannotStoreData(detail) => detail,
            ConnectorFailure::InvalidRecordValue(detail) => detail,
            ConnectorFailure::Serialization(detail) => detail,
        }
    }
}

impl ConnectorError {
    /// The detail that the error carries.
    pub fn detail(&self) -> (detail: &str)
        ensures
            detail@ == self@.detail(),
    {
        match self {
            ConnectorError::InvalidConfigValue(detail) => detail.as_str(),
            ConnectorError::InitError(detail) => detail.as_str(),
            ConnectorError::Connection(detail) => detail.as_str(),
            ConnectorError::CannotStoreData(detail) => detail.as_str(),
            ConnectorError::InvalidRecordValue(detail) => detail.as_str(),
            ConnectorError::Serialization(detail) => detail.as_str(),
        }
    }
}

} // verus!
