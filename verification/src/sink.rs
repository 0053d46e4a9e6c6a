//! The sink: what it does when the connector runtime opens it, hands it messages and closes it.

use vstd::prelude::*;

use crate::batch_builder::rows_fit;
use crate::config::FlussSinkConfig;
use crate::connector::{ConnectorError, ConnectorFailure};
use crate::message::{ConsumedMessage, MessagesMetadata, TopicMetadata};
use crate::router::single_table::{
    batch_messages, batch_of, message_rows, overflow_reason, row_context, row_origin, CountedWrite,
};
use crate::router::RouterFailure;
use crate::schema::{config_columns, payload_column, unsupported_format, ColumnKind, FlussTableLayout};
use crate::table_path::TablePath;
use crate::writer::{FlussWriter, WriterError};

verus! {

/// The sink. It decides what is to be done; the calls to the cluster are made by whoever runs it.
#[derive(Debug)]
pub struct FlussSink {
    id: u32,
    invocations_count: usize,
    fluss_writer: FlussWriter,
    fluss_config: FlussSinkConfig,
    table_layout: Option<FlussTableLayout>,
}

/// A sink that is about to be opened: the layout of its table, which it has once its writer is
/// connected.
#[derive(Debug)]
pub struct Opening {
    table_layout: FlussTableLayout,
}

impl Opening {
    /// The columns of the table.
    pub closed spec fn columns(self) -> Seq<ColumnKind> {
        self.table_layout.columns()
    }

    /// Whether the layout is one of those that configurations give.
    pub closed spec fn well_formed(self) -> bool {
        self.table_layout.well_formed()
    }
}

/// What is said of messages that come before the sink was opened.
pub open spec fn not_open() -> ConnectorFailure {
    ConnectorFailure::InitError("Fluss table layout is not initialized"@)
}

/// Whether beginning to open a sink comes to `opening`: the columns under its configuration, or an
/// error where the format of payloads is not supported.
pub open spec fn begins_to_open(
    config: FlussSinkConfig,
    opening: Result<Opening, ConnectorError>,
) -> bool {
    match payload_column(config.payload_format@) {
        Some(payload) => {
            &&& opening matches Ok(opening)
            &&& opening.well_formed()
            &&& opening.columns() == config_columns(config, payload)
        },
        None => {
            &&& opening matches Err(error)
            &&& error@ == ConnectorFailure::InvalidConfigValue(
                unsupported_format(config.payload_format@),
            )
        },
    }
}

/// Whether a sink is open as it is to be when its writer was connected: with the columns that it
/// began to be opened with where that succeeded, and else as it was before.
pub open spec fn opens(
    kinds: Seq<ColumnKind>,
    outcome: Result<(), WriterError>,
    before: Option<Seq<ColumnKind>>,
    after: Option<Seq<ColumnKind>>,
    result: Result<(), ConnectorError>,
) -> bool {
    match outcome {
        Ok(()) => {
            &&& result is Ok
            &&& after == Some(kinds)
        },
        Err(failure) => {
            &&& result matches Err(error)
            &&& error@ == failure@.connector_failure()
            &&& after == before
        },
    }
}

/// Whether taking messages comes to `outcome`: the batch for the configured table, unless the sink is
/// not open or a column is longer than offsets of 32 bits reach.
pub open spec fn consumes(
    config: FlussSinkConfig,
    columns: Option<Seq<ColumnKind>>,
    topic_metadata: TopicMetadata,
    messages_metadata: MessagesMetadata,
    messages: Seq<ConsumedMessage>,
    outcome: Result<CountedWrite, ConnectorError>,
) -> bool {
    match columns {
        None => outcome matches Err(error) && error@ == not_open(),
        Some(kinds) => {
            let origin = row_origin(topic_metadata, messages_metadata);
            if rows_fit(kinds, message_rows(kinds, messages, origin)) {
                &&& outcome matches Ok(counted)
                &&& batch_of(
                    counted,
                    (config.fluss_database@, config.fluss_table@),
                    kinds,
                    messages,
                    origin,
                )
            } else {
                &&& outcome matches Err(error)
                &&& error@ == RouterFailure::FailedToCreateRecordBatch(
                    overflow_reason(),
                ).connector_failure()
            }
        },
    }
}

impl FlussSink {
    /// The number of the sink.
    pub closed spec fn number(self) -> u32 {
        self.id
    }

    /// How often messages came.
    pub closed spec fn invocations(self) -> usize {
        self.invocations_count
    }

    /// The writer of the sink.
    pub closed spec fn writer(self) -> FlussWriter {
        self.fluss_writer
    }

    /// The configuration of the sink.
    pub closed spec fn config(self) -> FlussSinkConfig {
        self.fluss_config
    }

    /// The columns of the table; `None` where the sink is not open.
    pub closed spec fn columns(self) -> Option<Seq<ColumnKind>> {
        match self.table_layout {
            Some(layout) => Some(layout.columns()),
            None => None,
        }
    }

    /// Whether the layout is one of those that configurations give, where there is one.
    pub closed spec fn well_formed(self) -> bool {
        self.table_layout matches Some(layout) ==> layout.well_formed()
    }

    /// A sink that is not open yet.
    pub fn new(id: u32, config: FlussSinkConfig) -> (sink: Self)
        ensures
            sink.well_formed(),
            sink.number() == id,
            sink.invocations() == 0,
            !sink.writer().connected(),
            sink.writer().config().agrees(config),
            sink.config() == config,
            sink.columns() is None,
    {
        FlussSink {
            id,
            invocations_count: 0,
            fluss_writer: FlussWriter::new(config.copy()),
            fluss_config: config,
            table_layout: None,
        }
    }

    /// The number of the sink.
    pub fn id(&self) -> (id: u32)
        ensures
            id == self.number(),
    {
        self.id
    }

    /// How often messages came.
    pub fn invocations_count(&self) -> (count: usize)
        ensures
            count == self.invocations(),
    {
        self.invocations_count
    }

    /// The writer of the sink.
    pub fn writer_mut(&mut self) -> (writer: &mut FlussWriter)
        ensures
            *writer == old(self).writer(),
            final(self).writer() == *final(writer),
            final(self).well_formed() == old(self).well_formed(),
            final(self).number() == old(self).number(),
            final(self).invocations() == old(self).invocations(),
            final(self).config() == old(self).config(),
            final(self).columns() == old(self).columns(),
    {
        &mut self.fluss_writer
    }

    /// Begins to open the sink. The layout of the table comes first: where there is none, the
    /// writer is not to be connected.
    pub fn open(&self) -> (opening: Result<Opening, ConnectorError>)
        ensures
            begins_to_open(self.config(), opening),
    {
        match FlussTableLayout::from_config(&self.fluss_config) {
            Ok(table_layout) => Ok(Opening { table_layout }),
            Err(error) => Err(error),
        }
    }

    /// Goes on when the writer was connected. The sink is open only where that succeeded.
    pub fn on_connected(&mut self, opening: Opening, outcome: Result<(), WriterError>) -> (result:
        Result<(), ConnectorError>)
        requires
            opening.well_formed(),
            old(self).well_formed(),
        ensures
            final(self).well_formed(),
            final(self).number() == old(self).number(),
            final(self).invocations() == old(self).invocations(),
            final(self).writer() == old(self).writer(),
            final(self).config() == old(self).config(),
            opens(
                opening.columns(),
                outcome,
                old(self).columns(),
                final(self).columns(),
                result,
            ),
    {
        match outcome {
            Ok(()) => {
                self.table_layout = Some(opening.table_layout);
                Ok(())
            },
            Err(error) => Err(error.into_connector_error()),
        }
    }

    /// Takes messages: counts the invocation, and makes the batch that is to be written to the
    /// configured table. A sink that is not open has nothing to write.
    pub fn consume(
        &mut self,
        topic_metadata: &TopicMetadata,
        messages_metadata: MessagesMetadata,
        messages: Vec<ConsumedMessage>,
    ) -> (outcome: Result<CountedWrite, ConnectorError>)
        requires
            old(self).well_formed(),
            old(self).invocations() < usize::MAX,
        ensures
            final(self).well_formed(),
            final(self).invocations() == old(self).invocations() + 1,
            final(self).number() == old(self).number(),
            final(self).writer() == old(self).writer(),
            final(self).config() == old(self).config(),
            final(self).columns() == old(self).columns(),
            consumes(
                old(self).config(),
                old(self).columns(),
                *topic_metadata,
                messages_metadata,
                messages@,
                outcome,
            ),
    {
        self.invocations_count = self.invocations_count + 1;
        let table_path = TablePath::new(
            self.fluss_config.fluss_database.as_str(),
            self.fluss_config.fluss_table.as_str(),
        );
        match &self.table_layout {
            None => Err(
                ConnectorError::InitError("Fluss table layout is not initialized".to_owned()),
            ),
            Some(layout) => {
                let context = row_context(topic_metadata, &messages_metadata);
                match batch_messages(&table_path, layout, &messages, context) {
                    Ok(counted) => Ok(counted),
                    Err(error) => Err(error.into_connector_error()),
                }
            },
        }
    }

    /// Closes the sink, which needs nothing.
    pub fn close(&mut self) -> (result: Result<(), ConnectorError>)
        ensures
            result is Ok,
            *final(self) == *old(self),
    {
        Ok(())
    }
}

} // verus!
