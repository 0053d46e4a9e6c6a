//! Routing to one table: all messages go to the configured table.

use std::sync::Arc;

use fluss::metadata::{TableDescriptor, TableInfo};
use vstd::prelude::*;

use super::multi_table::learned;
use super::{RouterError, RouterFailure, TableWrite};
use crate::arrow_data::{batch_columns, batch_fields, batch_rows, Cell};
use crate::batch_builder::{rows_batch, rows_fit, SingleTableBatchBuilder};
use crate::config::FlussSinkConfig;
use crate::connector::{ConnectorError, ConnectorFailure};
use crate::message::{ConsumedMessage, MessagesMetadata, TopicMetadata};
use crate::schema::{
    config_columns, payload_column, row_cells, unsupported_format, ColumnKind, FlussTableLayout,
    RowContext, RowOrigin,
};
use crate::schema_catalog::{
    layout_schema, share, table_schema, CatalogFailure, SchemaCatalog, SchemaEntry,
};
use crate::table_path::TablePath;
use crate::writer::{Op, Stat, WriterError};

verus! {

/// The row of a message; `None` where it has none.
pub open spec fn message_row(
    kinds: Seq<ColumnKind>,
    message: ConsumedMessage,
    origin: RowOrigin,
) -> Option<Seq<Cell>> {
    match row_cells(kinds, message, origin) {
        Ok(row) => Some(row),
        Err(_) => None,
    }
}

/// The rows of messages, in their order; messages that have none are skipped.
pub open spec fn message_rows(
    kinds: Seq<ColumnKind>,
    messages: Seq<ConsumedMessage>,
    origin: RowOrigin,
) -> Seq<Seq<Cell>> {
    messages.filter_map(|message: ConsumedMessage| message_row(kinds, message, origin))
}

/// Why a message has no row; `None` where it has one.
pub open spec fn row_failure(
    kinds: Seq<ColumnKind>,
    message: ConsumedMessage,
    origin: RowOrigin,
) -> Option<ConnectorFailure> {
    match row_cells(kinds, message, origin) {
        Ok(_) => None,
        Err(failure) => Some(failure),
    }
}

/// Why messages have no rows, in the order of those that have none.
pub open spec fn row_failures(
    kinds: Seq<ColumnKind>,
    messages: Seq<ConsumedMessage>,
    origin: RowOrigin,
) -> Seq<ConnectorFailure> {
    messages.filter_map(|message: ConsumedMessage| row_failure(kinds, message, origin))
}

/// What some errors say.
pub open spec fn failures(errors: Seq<ConnectorError>) -> Seq<ConnectorFailure> {
    errors.map_values(|error: ConnectorError| error@)
}

/// Where messages come from, by what comes with them.
pub open spec fn row_origin(
    topic_metadata: TopicMetadata,
    messages_metadata: MessagesMetadata,
) -> RowOrigin {
    RowOrigin {
        stream: topic_metadata.stream@,
        topic: topic_metadata.topic@,
        partition_id: messages_metadata.partition_id,
    }
}

/// Where messages come from, by what comes with them.
pub fn row_context<'a>(
    topic_metadata: &'a TopicMetadata,
    messages_metadata: &MessagesMetadata,
) -> (context: RowContext<'a>)
    ensures
        context@ == row_origin(*topic_metadata, *messages_metadata),
{
    RowContext {
        stream: topic_metadata.stream.as_str(),
        topic: topic_metadata.topic.as_str(),
        partition_id: messages_metadata.partition_id,
    }
}

/// What is said of rows that make a column longer than offsets of 32 bits reach.
pub open spec fn overflow_reason() -> Seq<char> {
    "byte array offset overflow"@
}

/// A batch that is to be written, the counts of its messages, and the errors of those that were
/// skipped.
#[derive(Debug)]
pub struct CountedWrite {
    pub write: TableWrite,
    pub stat: Stat,
    pub skipped: Vec<ConnectorError>,
}

/// Whether a write is the batch of messages for the table `path`, under the schema of its columns:
/// one row for each message that has one, and the others counted as errors.
pub open spec fn batch_of(
    counted: CountedWrite,
    path: (Seq<char>, Seq<char>),
    kinds: Seq<ColumnKind>,
    messages: Seq<ConsumedMessage>,
    origin: RowOrigin,
) -> bool {
    let rows = message_rows(kinds, messages, origin);
    &&& counted.write.table_path@ == path
    &&& counted.write.op == Op::Append
    &&& batch_fields(counted.write.batch) == layout_schema(kinds).fields
    &&& batch_rows(counted.write.batch) == rows.len()
    &&& batch_columns(counted.write.batch) == rows_batch(kinds, rows)
    &&& counted.stat.appended == rows.len()
    &&& counted.stat.total() == messages.len()
    &&& failures(counted.skipped@) == row_failures(kinds, messages, origin)
    &&& counted.stat.errors == counted.skipped@.len()
}

/// Whether making the batch of messages for a table comes to `outcome`: the batch, unless a column is
/// longer than offsets of 32 bits reach.
pub open spec fn batched(
    path: (Seq<char>, Seq<char>),
    kinds: Seq<ColumnKind>,
    messages: Seq<ConsumedMessage>,
    origin: RowOrigin,
    outcome: Result<CountedWrite, RouterError>,
) -> bool {
    match outcome {
        Ok(counted) => {
            &&& rows_fit(kinds, message_rows(kinds, messages, origin))
            &&& batch_of(counted, path, kinds, messages, origin)
        },
        Err(error) => {
            &&& !rows_fit(kinds, message_rows(kinds, messages, origin))
            &&& error@ == RouterFailure::FailedToCreateRecordBatch(overflow_reason())
        },
    }
}

/// Makes the batch of messages for a table. A message that has no row is skipped and counted as an
/// error.
pub fn batch_messages(
    table_path: &TablePath,
    layout: &FlussTableLayout,
    messages: &Vec<ConsumedMessage>,
    context: RowContext<'_>,
) -> (outcome: Result<CountedWrite, RouterError>)
    requires
        layout.well_formed(),
    ensures
        batched(table_path@, layout.columns(), messages@, context@, outcome),
{
    let ghost kinds = layout.columns();
    let ghost to_row = |message: ConsumedMessage| message_row(kinds, message, context@);
    let ghost to_failure = |message: ConsumedMessage| row_failure(kinds, message, context@);
    let mut stat = Stat::default();
    let mut skipped: Vec<ConnectorError> = Vec::new();
    let mut builder = SingleTableBatchBuilder::new(layout, context);
    let mut index: usize = 0;
    assert(messages@.take(0) =~= Seq::empty());
    assert(failures(skipped@) =~= row_failures(kinds, messages@.take(0), context@));
    while index < messages.len()
        invariant
            index <= messages@.len(),
            builder.well_formed(),
            builder.kinds() == kinds,
            builder.origin() == context@,
            to_row == (|message: ConsumedMessage| message_row(kinds, message, context@)),
            builder.rows() == message_rows(kinds, messages@.take(index as int), context@),
            stat.appended == builder.rows().len(),
            stat.total() == index,
            to_failure == (|message: ConsumedMessage| row_failure(kinds, message, context@)),
            failures(skipped@) == row_failures(kinds, messages@.take(index as int), context@),
            stat.errors == skipped@.len(),
        decreases messages@.len() - index,
    {
        proof {
            messages@.lemma_filter_map_take_succ(to_row, index as int);
            messages@.lemma_filter_map_take_succ(to_failure, index as int);
        }
        let ghost before = skipped@;
        match builder.append(&messages[index]) {
            Ok(()) => {
                stat.inc_appended();
            },
            Err(error) => {
                stat.inc_err();
                skipped.push(error);
                assert(failures(skipped@) =~= failures(before).push(error@));
            },
        }
        index = index + 1;
    }
    assert(messages@.take(index as int) =~= messages@);
    match builder.finish() {
        Some(batch) => {
            let write = TableWrite { table_path: table_path.copy(), op: Op::Append, batch };
            Ok(CountedWrite { write, stat, skipped })
        },
        None => Err(
            RouterError::FailedToCreateRecordBatch {
                reason: "byte array offset overflow".to_owned(),
            },
        ),
    }
}

/// What making the router ready needs next.
pub enum InitStep {
    /// Look up the table of the router, and go on with [`SingleTableRouter::on_table`].
    LookUpTable,
    /// Create the table of the router unless it exists, and go on with
    /// [`SingleTableRouter::on_created`].
    CreateTable { table_descriptor: Arc<TableDescriptor> },
    /// Nothing.
    Ready,
}

/// Whether a step and a catalog are those after the table at `path` with the given columns was
/// looked up. A table that exists becomes known; one that does not is to be created as it is laid
/// out.
pub open spec fn made_ready(
    path: (Seq<char>, Seq<char>),
    kinds: Seq<ColumnKind>,
    found: Result<TableInfo, WriterError>,
    before: Map<(Seq<char>, Seq<char>), SchemaEntry>,
    after: Map<(Seq<char>, Seq<char>), SchemaEntry>,
    step: Result<InitStep, RouterError>,
) -> bool {
    match found {
        Ok(info) => match table_schema(path, info) {
            Ok(schema) => {
                &&& step == Ok::<InitStep, RouterError>(InitStep::Ready)
                &&& learned(before, path, schema, after)
            },
            Err(failure) => {
                &&& step matches Err(error)
                &&& error@ == RouterFailure::SchemaCatalog(failure)
                &&& after == before
            },
        },
        Err(WriterError::TableNotFound { .. }) => {
            &&& step matches Ok(InitStep::CreateTable { table_descriptor })
            &&& learned(before, path, layout_schema(kinds), after)
            &&& *table_descriptor == after[path].descriptor()
        },
        Err(failure) => {
            &&& step matches Err(error)
            &&& error@ == RouterFailure::SchemaCatalog(CatalogFailure::Writer(failure@))
            &&& after == before
        },
    }
}

/// A router that sends all messages to one table. It decides what is to be done; the calls to the
/// cluster are made by whoever runs it.
#[derive(Debug)]
pub struct SingleTableRouter {
    schema_catalog: SchemaCatalog,
    table_path: TablePath,
    auto_create_table: bool,
    layout: FlussTableLayout,
}

impl SingleTableRouter {
    /// The tables whose schemas are known.
    pub closed spec fn catalog(self) -> Map<(Seq<char>, Seq<char>), SchemaEntry> {
        self.schema_catalog@
    }

    /// The path of the table.
    pub closed spec fn path(self) -> (Seq<char>, Seq<char>) {
        self.table_path@
    }

    /// Whether the table is created where it does not exist.
    pub closed spec fn creates_table(self) -> bool {
        self.auto_create_table
    }

    /// The columns of the table.
    pub closed spec fn columns(self) -> Seq<ColumnKind> {
        self.layout.columns()
    }

    /// Whether the layout of the table is one of those that configurations give.
    pub closed spec fn well_formed(self) -> bool {
        self.layout.well_formed()
    }

    /// Whether the router is the one under a configuration, with the column for payloads given;
    /// it knows no table yet.
    pub open spec fn made_for(self, config: FlussSinkConfig, payload: ColumnKind) -> bool {
        &&& self.well_formed()
        &&& self.catalog() == Map::<(Seq<char>, Seq<char>), SchemaEntry>::empty()
        &&& self.path() == (config.fluss_database@, config.fluss_table@)
        &&& self.creates_table() == config.auto_create_table
        &&& self.columns() == config_columns(config, payload)
    }

    /// The router under a configuration.
    pub fn new(config: &FlussSinkConfig) -> (router: Result<Self, ConnectorError>)
        ensures
            match payload_column(config.payload_format@) {
                Some(payload) => {
                    &&& router matches Ok(router)
                    &&& router.made_for(*config, payload)
                },
                None => {
                    &&& router matches Err(error)
                    &&& error@ == ConnectorFailure::InvalidConfigValue(
                        unsupported_format(config.payload_format@),
                    )
                },
            },
    {
        match FlussTableLayout::from_config(config) {
            Ok(layout) => Ok(
                SingleTableRouter {
                    schema_catalog: SchemaCatalog::default(),
                    table_path: TablePath::new(
                        config.fluss_database.as_str(),
                        config.fluss_table.as_str(),
                    ),
                    auto_create_table: config.auto_create_table,
                    layout,
                },
            ),
            Err(error) => Err(error),
        }
    }

    /// The path of the table.
    pub fn table_path(&self) -> (table_path: &TablePath)
        ensures
            table_path@ == self.path(),
    {
        &self.table_path
    }

    /// Whether the table is created where it does not exist.
    pub fn auto_create_table(&self) -> (create: bool)
        ensures
            create == self.creates_table(),
    {
        self.auto_create_table
    }

    /// The layout of the table.
    pub fn layout(&self) -> (layout: &FlussTableLayout)
        ensures
            layout.columns() == self.columns(),
            layout.well_formed() == self.well_formed(),
    {
        &self.layout
    }

    /// Begins to make the router ready. Only a table that may have to be created is looked up.
    pub fn init(&self) -> (step: InitStep)
        ensures
            step == if self.creates_table() {
                InitStep::LookUpTable
            } else {
                InitStep::Ready
            },
    {
        if self.auto_create_table {
            InitStep::LookUpTable
        } else {
            InitStep::Ready
        }
    }

    /// Goes on when the table was looked up. A table that exists becomes known; one that does not
    /// is to be created as it is laid out.
    pub fn on_table(&mut self, found: Result<TableInfo, WriterError>) -> (step: Result<
        InitStep,
        RouterError,
    >)
        requires
            old(self).well_formed(),
            old(self).creates_table(),
        ensures
            final(self).well_formed(),
            final(self).path() == old(self).path(),
            final(self).creates_table() == old(self).creates_table(),
            final(self).columns() == old(self).columns(),
            made_ready(
                old(self).path(),
                old(self).columns(),
                found,
                old(self).catalog(),
                final(self).catalog(),
                step,
            ),
    {
        match self.schema_catalog.create_and_store_entry_from_table(&self.table_path, found) {
            Err(error) => Err(RouterError::SchemaCatalog(error)),
            Ok(Some(_)) => Ok(InitStep::Ready),
            Ok(None) => match self.schema_catalog.create_and_store_static_schema_entry(
                &self.table_path,
                &self.layout,
            ) {
                Ok(entry) => Ok(
                    InitStep::CreateTable { table_descriptor: share(entry.table_descriptor()) },
                ),
                Err(error) => Err(RouterError::SchemaCatalog(error)),
            },
        }
    }

    /// Goes on when the table was created.
    pub fn on_created(&self, outcome: Result<(), WriterError>) -> (step: Result<
        InitStep,
        RouterError,
    >)
        ensures
            match outcome {
                Ok(()) => step == Ok::<InitStep, RouterError>(InitStep::Ready),
                Err(failure) => {
                    &&& step matches Err(error)
                    &&& error@ == RouterFailure::WriterError(failure@)
                },
            },
    {
        match outcome {
            Ok(()) => Ok(InitStep::Ready),
            Err(error) => Err(RouterError::WriterError(error)),
        }
    }

    /// Begins the route of messages: makes the batch that is to be written, without rows where no
    /// message has one.
    pub fn route(
        &self,
        topic_metadata: &TopicMetadata,
        messages_metadata: MessagesMetadata,
        messages: Vec<ConsumedMessage>,
    ) -> (outcome: Result<CountedWrite, RouterError>)
        requires
            self.well_formed(),
        ensures
            batched(
                self.path(),
                self.columns(),
                messages@,
                row_origin(*topic_metadata, messages_metadata),
                outcome,
            ),
    {
        batch_messages(
            &self.table_path,
            &self.layout,
            &messages,
            row_context(topic_metadata, &messages_metadata),
        )
    }

    /// Goes on when the batch was written.
    pub fn on_written(&self, stat: Stat, outcome: Result<(), WriterError>) -> (result: Result<
        Stat,
        RouterError,
    >)
        ensures
            match outcome {
                Ok(()) => result == Ok::<Stat, RouterError>(stat),
                Err(failure) => {
                    &&& result matches Err(error)
                    &&& error@ == RouterFailure::WriterError(failure@)
                },
            },
    {
        match outcome {
            Ok(()) => Ok(stat),
            Err(error) => Err(RouterError::WriterError(error)),
        }
    }
}

/// The rows of messages are those of the first messages, followed by those of the others.
pub proof fn lemma_rows_in_order(
    kinds: Seq<ColumnKind>,
    first: Seq<ConsumedMessage>,
    others: Seq<ConsumedMessage>,
    origin: RowOrigin,
)
    ensures
        message_rows(kinds, first + others, origin) == message_rows(kinds, first, origin)
            + message_rows(kinds, others, origin),
    decreases others.len(),
{
    if others.len() == 0 {
        assert(first + others =~= first);
        assert(message_rows(kinds, first, origin) + message_rows(kinds, others, origin)
            =~= message_rows(kinds, first, origin));
    } else {
        assert((first + others).drop_last() =~= first + others.drop_last());
        lemma_rows_in_order(kinds, first, others.drop_last(), origin);
        assert(message_rows(kinds, first + others, origin) =~= message_rows(kinds, first, origin)
            + message_rows(kinds, others, origin));
    }
}

/// A message that has no row leaves the rows of the messages around it as they are.
pub proof fn lemma_skipped_message(
    kinds: Seq<ColumnKind>,
    before: Seq<ConsumedMessage>,
    message: ConsumedMessage,
    after: Seq<ConsumedMessage>,
    origin: RowOrigin,
)
    requires
        row_cells(kinds, message, origin) is Err,
    ensures
        message_rows(kinds, before.push(message) + after, origin) == message_rows(
            kinds,
            before + after,
            origin,
        ),
{
    assert(before.push(message).drop_last() =~= before);
    lemma_rows_in_order(kinds, before.push(message), after, origin);
    lemma_rows_in_order(kinds, before, after, origin);
}

} // verus!
