//! Laws of the sink and its single table: what comes of opening it, and of handing it messages.

use fluss::metadata::TableInfo;
use vstd::prelude::*;
use vstd::utf8::encode_utf8;

use crate::arrow_data::{batch_columns, batch_rows, Cell};
use crate::config::{FlussSinkConfig, RouterType};
use crate::connector::ConnectorError;
use crate::fluss_schema::table_parts;
use crate::json::{document, serialized};
use crate::laws::routes::same_but_for;
use crate::laws::rows::{
    column_length, has, holds_number, holds_text, lemma_batch_counts, lemma_batch_holds_values,
    lemma_bytes_column, lemma_flags_decide_columns, lemma_format_decides_payload,
    lemma_number_columns, lemma_origin_columns, lemma_size_decides, lemma_text_column, with_rows,
    without_rows,
};
use crate::laws::tables::{bare_table, lemma_existing_table};
use crate::message::{ConsumedMessage, MessagesMetadata, Payload, TopicMetadata};
use crate::router::single_table::{
    batched, made_ready, message_rows, row_origin, CountedWrite, InitStep,
};
use crate::router::{router_for, Router, RouterError, RouterFailure};
use crate::schema::{payload_column, table_columns, ColumnKind};
use crate::schema_catalog::{CatalogFailure, SchemaEntry};
use crate::sink::{begins_to_open, consumes, opens, Opening};
use crate::writer::{Op, WriterError};

verus! {

/// Whether a payload format is supported.
pub open spec fn supported(format: Seq<char>) -> bool {
    format == "bytea"@ || format == "json"@ || format == "text"@
}

/// A sink can be opened where its format is supported, and only there. Each flag of its
/// configuration then decides on its own columns.
pub proof fn lemma_opening(config: FlussSinkConfig, opening: Result<Opening, ConnectorError>)
    requires
        begins_to_open(config, opening),
    ensures
        opening is Ok <==> supported(config.payload_format@),
        opening matches Ok(opening) ==> {
            &&& opening.columns()[0] == ColumnKind::MessageId
            &&& has(opening.columns(), ColumnKind::Checksum) <==> config.include_checksum
            &&& has(opening.columns(), ColumnKind::MessageOffset) <==> config.include_metadata
            &&& has(opening.columns(), ColumnKind::MessageTimestamp) <==> config.include_metadata
            &&& has(opening.columns(), ColumnKind::Stream) <==> config.include_metadata
            &&& has(opening.columns(), ColumnKind::Topic) <==> config.include_metadata
            &&& has(opening.columns(), ColumnKind::PartitionId) <==> config.include_metadata
            &&& has(opening.columns(), ColumnKind::OriginTimestamp)
                <==> config.include_origin_timestamp
            &&& opening.columns().last() == if config.payload_format@ == "bytea"@ {
                ColumnKind::BinaryPayload
            } else {
                ColumnKind::StringPayload
            }
        },
        opening matches Err(error) ==> error@ is InvalidConfigValue,
{
    lemma_format_decides_payload(config.payload_format@);
    if let Some(payload) = payload_column(config.payload_format@) {
        lemma_flags_decide_columns(config, payload);
    }
}

/// A sink is open with the columns with which it began to be opened where its writer was
/// connected. Where that failed, the sink is as open as it was before, and the failure is
/// reported.
pub proof fn lemma_open_when_connected(
    kinds: Seq<ColumnKind>,
    outcome: Result<(), WriterError>,
    before: Option<Seq<ColumnKind>>,
    after: Option<Seq<ColumnKind>>,
    result: Result<(), ConnectorError>,
)
    requires
        opens(kinds, outcome, before, after, result),
    ensures
        result is Ok <==> outcome is Ok,
        outcome is Ok ==> after is Some && after->0 == kinds,
        outcome is Err ==> after == before,
        outcome matches Err(failure) ==> {
            &&& result matches Err(error)
            &&& error@ == failure@.connector_failure()
        },
{
}

/// A sink that is not open reports an error of initialization, whatever it is handed. One that is
/// open makes a batch, unless a column would be too long: that is an invalid record.
pub proof fn lemma_sink_answers(
    config: FlussSinkConfig,
    columns: Option<Seq<ColumnKind>>,
    topic_metadata: TopicMetadata,
    messages_metadata: MessagesMetadata,
    messages: Seq<ConsumedMessage>,
    outcome: Result<CountedWrite, ConnectorError>,
)
    requires
        consumes(config, columns, topic_metadata, messages_metadata, messages, outcome),
    ensures
        match columns {
            None => outcome matches Err(error) && error@ is InitError,
            Some(kinds) => {
                let rows = message_rows(
                    kinds,
                    messages,
                    row_origin(topic_metadata, messages_metadata),
                );
                &&& outcome is Ok <==> forall|column: int|
                    0 <= column < kinds.len() ==> #[trigger] column_length(rows, column)
                        <= 0x7fff_ffff
                &&& outcome matches Err(error) ==> error@ is InvalidRecordValue
            },
        },
{
    if let Some(kinds) = columns {
        let rows = message_rows(kinds, messages, row_origin(topic_metadata, messages_metadata));
        lemma_size_decides(kinds, rows);
    }
}

/// The batch of an open sink goes to the configured table. It has one row for each message whose
/// columns all have values, in the order of the messages, and the others are counted as errors.
/// The cells of a row tell the numbers of its message, where it comes from and its payload.
pub proof fn lemma_sink_writes_messages(
    config: FlussSinkConfig,
    kinds: Seq<ColumnKind>,
    topic_metadata: TopicMetadata,
    messages_metadata: MessagesMetadata,
    messages: Seq<ConsumedMessage>,
    counted: CountedWrite,
)
    requires
        consumes(
            config,
            Some(kinds),
            topic_metadata,
            messages_metadata,
            messages,
            Ok::<CountedWrite, ConnectorError>(counted),
        ),
    ensures
        counted.write.table_path.database@ == config.fluss_database@,
        counted.write.table_path.table@ == config.fluss_table@,
        counted.write.op == Op::Append,
        counted.stat.appended + counted.stat.errors == messages.len(),
        batch_rows(counted.write.batch) == counted.stat.appended,
        ({
            let origin = row_origin(topic_metadata, messages_metadata);
            let kept = with_rows(kinds, messages, origin);
            &&& counted.stat.appended == kept.len()
            &&& counted.stat.errors == without_rows(kinds, messages, origin).len()
            &&& forall|column: int, row: int|
                0 <= column < kinds.len() && 0 <= row < kept.len() ==> tells_message(
                    kinds[column],
                    kept[row],
                    topic_metadata,
                    messages_metadata,
                    #[trigger] batch_columns(counted.write.batch)[column].cells[row],
                )
        }),
{
    let origin = row_origin(topic_metadata, messages_metadata);
    let kept = with_rows(kinds, messages, origin);
    let path = (config.fluss_database@, config.fluss_table@);
    lemma_batch_counts(counted, path, kinds, messages, origin);
    assert forall|column: int, row: int|
        0 <= column < kinds.len() && 0 <= row < kept.len() implies tells_message(
        kinds[column],
        kept[row],
        topic_metadata,
        messages_metadata,
        #[trigger] batch_columns(counted.write.batch)[column].cells[row],
    ) by {
        lemma_batch_holds_values(counted, path, kinds, messages, origin, column, row);
        lemma_number_columns(kept[row], origin);
        lemma_origin_columns(kept[row], topic_metadata, messages_metadata);
        lemma_bytes_column(kept[row], origin);
        lemma_text_column(kept[row], origin);
    }
}

/// Whether a cell tells what its column says of a message.
pub open spec fn tells_message(
    kind: ColumnKind,
    message: ConsumedMessage,
    topic_metadata: TopicMetadata,
    messages_metadata: MessagesMetadata,
    cell: Cell,
) -> bool {
    match kind {
        ColumnKind::MessageId => holds_number(Ok(cell), message.id as nat),
        ColumnKind::Checksum => holds_number(Ok(cell), message.checksum as nat),
        ColumnKind::MessageTimestamp => holds_number(Ok(cell), message.timestamp as nat),
        ColumnKind::OriginTimestamp => holds_number(Ok(cell), message.origin_timestamp as nat),
        ColumnKind::MessageOffset => holds_number(Ok(cell), message.offset as nat),
        ColumnKind::Stream => cell == Cell::Text(topic_metadata.stream@),
        ColumnKind::Topic => cell == Cell::Text(topic_metadata.topic@),
        ColumnKind::PartitionId => {
            &&& cell matches Cell::Long(number)
            &&& number as int == messages_metadata.partition_id as int
        },
        ColumnKind::BinaryPayload => match message.payload {
            Payload::Raw(bytes) => cell == Cell::Blob(bytes@),
            Payload::FlatBuffer(bytes) => cell == Cell::Blob(bytes@),
            Payload::Text(text) => cell == Cell::Blob(encode_utf8(text@)),
            Payload::Proto(text) => cell == Cell::Blob(encode_utf8(text@)),
            Payload::Json(value) => {
                &&& serialized(document(value)) matches Ok(bytes)
                &&& cell == Cell::Blob(bytes)
            },
        },
        ColumnKind::StringPayload => match message.payload {
            Payload::Raw(bytes) => holds_text(Ok(cell), bytes@),
            Payload::FlatBuffer(bytes) => holds_text(Ok(cell), bytes@),
            Payload::Text(text) => cell == Cell::Text(text@),
            Payload::Proto(text) => cell == Cell::Text(text@),
            Payload::Json(value) => {
                &&& serialized(document(value)) matches Ok(bytes)
                &&& holds_text(Ok(cell), bytes)
            },
        },
    }
}

/// The router of a single table makes the batch that the sink makes under the same columns: for
/// its own table, and with an error in the same cases.
pub proof fn lemma_router_writes_as_sink(
    config: FlussSinkConfig,
    kinds: Seq<ColumnKind>,
    topic_metadata: TopicMetadata,
    messages_metadata: MessagesMetadata,
    messages: Seq<ConsumedMessage>,
    outcome: Result<CountedWrite, RouterError>,
)
    requires
        batched(
            (config.fluss_database@, config.fluss_table@),
            kinds,
            messages,
            row_origin(topic_metadata, messages_metadata),
            outcome,
        ),
    ensures
        match outcome {
            Ok(counted) => consumes(
                config,
                Some(kinds),
                topic_metadata,
                messages_metadata,
                messages,
                Ok::<CountedWrite, ConnectorError>(counted),
            ),
            Err(error) => {
                &&& error@ is FailedToCreateRecordBatch
                &&& exists|column: int|
                    0 <= column < kinds.len() && #[trigger] column_length(
                        message_rows(
                            kinds,
                            messages,
                            row_origin(topic_metadata, messages_metadata),
                        ),
                        column,
                    ) > 0x7fff_ffff
            },
        },
{
    lemma_size_decides(
        kinds,
        message_rows(kinds, messages, row_origin(topic_metadata, messages_metadata)),
    );
}

/// A router under a configuration is of the configured type. One for many tables always exists;
/// one for a single table exists where the format is supported.
pub proof fn lemma_router_of_type(
    config: FlussSinkConfig,
    router: Result<Router, ConnectorError>,
)
    requires
        router_for(config, router),
    ensures
        match config.router_type {
            RouterType::Single => {
                &&& router is Ok <==> supported(config.payload_format@)
                &&& router matches Ok(router) ==> router is SingleTable
                &&& router matches Ok(Router::SingleTable(single)) ==> {
                    &&& single.path().0 == config.fluss_database@
                    &&& single.path().1 == config.fluss_table@
                    &&& single.creates_table() == config.auto_create_table
                }
                &&& router matches Err(error) ==> error@ is InvalidConfigValue
            },
            RouterType::Multi => {
                &&& router matches Ok(Router::MultiTable(multi))
                &&& multi.key() == config.route_key@
                &&& multi.creates_tables() == config.auto_create_table
            },
        },
{
    lemma_format_decides_payload(config.payload_format@);
}

/// A single table that was found becomes known as it is, and one that was not found is created
/// with the columns of its layout, no primary key and no comment. Of no other table does what is
/// known change. Any other failure is reported, and nothing becomes known.
pub proof fn lemma_single_table_made_ready(
    path: (Seq<char>, Seq<char>),
    kinds: Seq<ColumnKind>,
    found: Result<TableInfo, WriterError>,
    before: Map<(Seq<char>, Seq<char>), SchemaEntry>,
    after: Map<(Seq<char>, Seq<char>), SchemaEntry>,
    step: Result<InitStep, RouterError>,
)
    requires
        made_ready(path, kinds, found, before, after, step),
    ensures
        same_but_for(before, after, path),
        step is Err ==> after == before,
        match found {
            Ok(_) => match step {
                Ok(InitStep::Ready) => after.contains_key(path),
                Ok(_) => false,
                Err(error) => error@ is SchemaCatalog,
            },
            Err(WriterError::TableNotFound { .. }) => {
                &&& step matches Ok(InitStep::CreateTable { table_descriptor })
                &&& table_parts(*table_descriptor).columns == table_columns(kinds)
                &&& bare_table(table_parts(*table_descriptor), None)
                &&& after.contains_key(path)
            },
            Err(failure) => {
                &&& step matches Err(error)
                &&& error@ == RouterFailure::SchemaCatalog(CatalogFailure::Writer(failure@))
            },
        },
{
    if let Ok(info) = found {
        lemma_existing_table(path, info);
    }
    if let Err(failure) = found {
        if failure is TableNotFound {
            let table = after[path].content().table;
            assert(table == table_parts(after[path].descriptor()));
        }
    }
}

} // verus!
