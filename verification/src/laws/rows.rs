//! Laws of the single table: its columns, and the rows that messages become.

use vstd::prelude::*;
use vstd::utf8::{
    decode_utf8, decode_utf8_encode_utf8, encode_utf8, encode_utf8_decode_utf8,
    encode_utf8_valid_utf8, valid_utf8,
};

use crate::arrow_data::{batch_columns, batch_fields, batch_rows, column_bytes, Cell, ColumnData};
use crate::batch_builder::{column_cells, rows_fit};
use crate::config::FlussSinkConfig;
use crate::connector::ConnectorFailure;
use crate::fluss_schema::{cells, texts, Datum, FlussKind, FlussType};
use crate::json::{document, serialized};
use crate::message::{ConsumedMessage, MessagesMetadata, Payload, TopicMetadata};
use crate::router::single_table::{
    batch_of, failures, message_rows, row_failures, row_origin, CountedWrite, SingleTableRouter,
};
use crate::schema::{
    column_name, column_value, config_columns, payload_column, row_cells, table_columns,
    unsupported_format, ColumnKind, FlussTableLayout, RowContext, RowOrigin,
};
use crate::text::{decimal_digits, utf8_error};
use crate::writer::Op;

verus! {

/// The number that a text of decimal digits is.
pub open spec fn number_of(text: Seq<char>) -> nat
    decreases text.len(),
{
    if text.len() == 0 {
        0
    } else {
        (10 * number_of(text.drop_last()) + (text.last() as int - '0' as int)) as nat
    }
}

/// Whether a text is a number in decimal: digits alone, the first of them no zero unless it is the
/// only one.
pub open spec fn writes_number(text: Seq<char>, number: nat) -> bool {
    &&& text.len() > 0
    &&& forall|i: int| 0 <= i < text.len() ==> '0' <= #[trigger] text[i] <= '9'
    &&& text.len() > 1 ==> text[0] != '0'
    &&& number_of(text) == number
}

/// A number written in decimal reads back as that number.
pub proof fn lemma_number_reads_back(number: nat)
    ensures
        writes_number(decimal_digits(number), number),
    decreases number,
{
    let text = decimal_digits(number);
    reveal_with_fuel(number_of, 2);
    if number >= 10 {
        lemma_number_reads_back(number / 10);
        assert(text.drop_last() =~= decimal_digits(number / 10));
        assert(number == 10 * (number / 10) + number % 10);
        assert forall|i: int| 0 <= i < text.len() implies '0' <= #[trigger] text[i] <= '9' by {
            if i < text.len() - 1 {
                assert(text[i] == decimal_digits(number / 10)[i]);
            }
        }
        assert(number_of(decimal_digits(number / 10)) == number / 10);
        if decimal_digits(number / 10).len() == 1 {
            assert(decimal_digits(number / 10).drop_last() =~= Seq::empty());
            assert(decimal_digits(number / 10)[0] != '0') by {
                if decimal_digits(number / 10)[0] == '0' {
                    assert(number_of(decimal_digits(number / 10)) == 0);
                }
            }
        }
        assert(text[0] == decimal_digits(number / 10)[0]);
    } else {
        assert(text.drop_last() =~= Seq::empty());
    }
}

/// Whether the value of a column is a number in decimal.
pub open spec fn holds_number(value: Result<Cell, ConnectorFailure>, number: nat) -> bool {
    value matches Ok(Cell::Text(text)) && writes_number(text, number)
}

/// The columns for the id, the checksum, the offset and the two timestamps of a message each hold
/// that number of the message, in decimal, wherever the message comes from.
pub proof fn lemma_number_columns(message: ConsumedMessage, origin: RowOrigin)
    ensures
        holds_number(column_value(ColumnKind::MessageId, message, origin), message.id as nat),
        holds_number(column_value(ColumnKind::Checksum, message, origin), message.checksum as nat),
        holds_number(
            column_value(ColumnKind::MessageOffset, message, origin),
            message.offset as nat,
        ),
        holds_number(
            column_value(ColumnKind::MessageTimestamp, message, origin),
            message.timestamp as nat,
        ),
        holds_number(
            column_value(ColumnKind::OriginTimestamp, message, origin),
            message.origin_timestamp as nat,
        ),
{
    lemma_number_reads_back(message.id as nat);
    lemma_number_reads_back(message.checksum as nat);
    lemma_number_reads_back(message.offset as nat);
    lemma_number_reads_back(message.timestamp as nat);
    lemma_number_reads_back(message.origin_timestamp as nat);
}

/// Two messages have the same value in the column for one of these numbers where they have the
/// same number, and only there, whatever else they hold.
pub proof fn lemma_number_columns_tell_messages(
    left: ConsumedMessage,
    right: ConsumedMessage,
    left_origin: RowOrigin,
    right_origin: RowOrigin,
)
    ensures
        column_value(ColumnKind::MessageId, left, left_origin) == column_value(
            ColumnKind::MessageId,
            right,
            right_origin,
        ) <==> left.id == right.id,
        column_value(ColumnKind::Checksum, left, left_origin) == column_value(
            ColumnKind::Checksum,
            right,
            right_origin,
        ) <==> left.checksum == right.checksum,
        column_value(ColumnKind::MessageOffset, left, left_origin) == column_value(
            ColumnKind::MessageOffset,
            right,
            right_origin,
        ) <==> left.offset == right.offset,
        column_value(ColumnKind::MessageTimestamp, left, left_origin) == column_value(
            ColumnKind::MessageTimestamp,
            right,
            right_origin,
        ) <==> left.timestamp == right.timestamp,
        column_value(ColumnKind::OriginTimestamp, left, left_origin) == column_value(
            ColumnKind::OriginTimestamp,
            right,
            right_origin,
        ) <==> left.origin_timestamp == right.origin_timestamp,
{
    lemma_number_columns(left, left_origin);
    lemma_number_columns(right, right_origin);
}

/// The columns for the stream, the topic and the partition hold what comes with the messages,
/// whatever the message itself is.
pub proof fn lemma_origin_columns(
    message: ConsumedMessage,
    topic_metadata: TopicMetadata,
    messages_metadata: MessagesMetadata,
)
    ensures
        column_value(
            ColumnKind::Stream,
            message,
            row_origin(topic_metadata, messages_metadata),
        ) == Ok::<Cell, ConnectorFailure>(Cell::Text(topic_metadata.stream@)),
        column_value(
            ColumnKind::Topic,
            message,
            row_origin(topic_metadata, messages_metadata),
        ) == Ok::<Cell, ConnectorFailure>(Cell::Text(topic_metadata.topic@)),
        column_value(
            ColumnKind::PartitionId,
            message,
            row_origin(topic_metadata, messages_metadata),
        ) matches Ok(Cell::Long(number)) && number as int == messages_metadata.partition_id as int,
{
}

/// A context says the stream, the topic and the partition that it is made of.
pub proof fn lemma_context_says(context: RowContext<'_>)
    ensures
        context@.stream == context.stream@,
        context@.topic == context.topic@,
        context@.partition_id == context.partition_id,
{
}

/// A column of bytes holds the bytes of the payload, all of them and no others: those it consists
/// of, the UTF-8 encoding of a text, the serialization of a JSON document.
pub proof fn lemma_bytes_column(message: ConsumedMessage, origin: RowOrigin)
    ensures
        match message.payload {
            Payload::Raw(bytes) => column_value(ColumnKind::BinaryPayload, message, origin) == Ok::<
                Cell,
                ConnectorFailure,
            >(Cell::Blob(bytes@)),
            Payload::FlatBuffer(bytes) => column_value(ColumnKind::BinaryPayload, message, origin)
                == Ok::<Cell, ConnectorFailure>(Cell::Blob(bytes@)),
            Payload::Text(text) => column_value(ColumnKind::BinaryPayload, message, origin) == Ok::<
                Cell,
                ConnectorFailure,
            >(Cell::Blob(encode_utf8(text@))),
            Payload::Proto(text) => column_value(ColumnKind::BinaryPayload, message, origin)
                == Ok::<Cell, ConnectorFailure>(Cell::Blob(encode_utf8(text@))),
            Payload::Json(value) => match serialized(document(value)) {
                Ok(bytes) => column_value(ColumnKind::BinaryPayload, message, origin) == Ok::<
                    Cell,
                    ConnectorFailure,
                >(Cell::Blob(bytes)),
                Err(error) => {
                    &&& column_value(ColumnKind::BinaryPayload, message, origin) matches Err(
                        ConnectorFailure::Serialization(detail),
                    )
                    &&& detail == "Failed to serialize payload for Fluss BYTES column: "@ + error
                },
            },
        },
{
}

/// Two payloads of one kind have the same value in a column of bytes where they hold the same
/// bytes or the same text, and only there, whatever else their messages hold.
pub proof fn lemma_bytes_column_tells_payloads(
    left: ConsumedMessage,
    right: ConsumedMessage,
    left_origin: RowOrigin,
    right_origin: RowOrigin,
)
    ensures
        ({
            let same = column_value(ColumnKind::BinaryPayload, left, left_origin) == column_value(
                ColumnKind::BinaryPayload,
                right,
                right_origin,
            );
            match (left.payload, right.payload) {
                (Payload::Raw(first), Payload::Raw(second)) => same <==> first@ == second@,
                (Payload::FlatBuffer(first), Payload::FlatBuffer(second)) => {
                    same <==> first@ == second@
                },
                (Payload::Text(first), Payload::Text(second)) => same <==> first@ == second@,
                (Payload::Proto(first), Payload::Proto(second)) => same <==> first@ == second@,
                _ => true,
            }
        }),
{
    lemma_bytes_column(left, left_origin);
    lemma_bytes_column(right, right_origin);
    match (left.payload, right.payload) {
        (Payload::Text(first), Payload::Text(second)) => {
            encode_utf8_decode_utf8(first@);
            encode_utf8_decode_utf8(second@);
        },
        (Payload::Proto(first), Payload::Proto(second)) => {
            encode_utf8_decode_utf8(first@);
            encode_utf8_decode_utf8(second@);
        },
        _ => {},
    }
}

/// A column of texts holds the text whose UTF-8 encoding the bytes of the payload are. Bytes that
/// encode no text are an error, and so is a document that cannot be serialized.
pub proof fn lemma_text_column(message: ConsumedMessage, origin: RowOrigin)
    ensures
        match message.payload {
            Payload::Text(text) => column_value(ColumnKind::StringPayload, message, origin) == Ok::<
                Cell,
                ConnectorFailure,
            >(Cell::Text(text@)),
            Payload::Proto(text) => column_value(ColumnKind::StringPayload, message, origin)
                == Ok::<Cell, ConnectorFailure>(Cell::Text(text@)),
            Payload::Raw(bytes) => holds_text(
                column_value(ColumnKind::StringPayload, message, origin),
                bytes@,
            ),
            Payload::FlatBuffer(bytes) => holds_text(
                column_value(ColumnKind::StringPayload, message, origin),
                bytes@,
            ),
            Payload::Json(value) => match serialized(document(value)) {
                Ok(bytes) => holds_text(
                    column_value(ColumnKind::StringPayload, message, origin),
                    bytes,
                ),
                Err(error) => {
                    &&& column_value(ColumnKind::StringPayload, message, origin) matches Err(
                        ConnectorFailure::Serialization(detail),
                    )
                    &&& detail == "Failed to serialize payload for Fluss STRING column: "@ + error
                },
            },
        },
{
    match message.payload {
        Payload::Text(text) => {
            encode_utf8_valid_utf8(text@);
            encode_utf8_decode_utf8(text@);
        },
        Payload::Proto(text) => {
            encode_utf8_valid_utf8(text@);
            encode_utf8_decode_utf8(text@);
        },
        Payload::Raw(bytes) => {
            lemma_decoded(bytes@);
        },
        Payload::FlatBuffer(bytes) => {
            lemma_decoded(bytes@);
        },
        Payload::Json(value) => match serialized(document(value)) {
            Ok(bytes) => {
                lemma_decoded(bytes);
            },
            Err(_) => {},
        },
    }
}

/// Whether the value of a column is the text that bytes encode, or an error where they encode
/// none.
pub open spec fn holds_text(value: Result<Cell, ConnectorFailure>, bytes: Seq<u8>) -> bool {
    if valid_utf8(bytes) {
        &&& value matches Ok(Cell::Text(text))
        &&& encode_utf8(text) == bytes
    } else {
        &&& value matches Err(ConnectorFailure::Serialization(detail))
        &&& detail == "Payload is not valid UTF-8 for the Fluss STRING column: "@ + utf8_error(
            bytes,
        )
    }
}

/// Bytes that are UTF-8 are the encoding of the text that they decode to.
proof fn lemma_decoded(bytes: Seq<u8>)
    ensures
        valid_utf8(bytes) ==> encode_utf8(decode_utf8(bytes)) == bytes,
{
    if valid_utf8(bytes) {
        decode_utf8_encode_utf8(bytes);
    }
}

/// A value of a row and a column of a batch hold just what they are made of.
pub proof fn lemma_cells_hold_values(value: Datum, column: ColumnData)
    ensures
        match value {
            Datum::Text(text) => value@ == Cell::Text(text@),
            Datum::Long(number) => value@ == Cell::Long(number),
            Datum::Blob(bytes) => value@ == Cell::Blob(bytes@),
        },
        match column {
            ColumnData::Text(texts) => {
                &&& column@.len() == texts@.len()
                &&& forall|i: int|
                    0 <= i < texts@.len() ==> #[trigger] column@[i] == Cell::Text(texts@[i]@)
            },
            ColumnData::Long(numbers) => {
                &&& column@.len() == numbers@.len()
                &&& forall|i: int|
                    0 <= i < numbers@.len() ==> #[trigger] column@[i] == Cell::Long(numbers@[i])
            },
            ColumnData::Blob(blobs) => {
                &&& column@.len() == blobs@.len()
                &&& forall|i: int|
                    0 <= i < blobs@.len() ==> #[trigger] column@[i] == Cell::Blob(blobs@[i]@)
            },
        },
{
}

/// Whether columns hold something.
pub open spec fn has(kinds: Seq<ColumnKind>, kind: ColumnKind) -> bool {
    exists|i: int| 0 <= i < kinds.len() && kinds[i] == kind
}

/// The place of a column among all columns.
pub open spec fn rank(kind: ColumnKind) -> int {
    match kind {
        ColumnKind::MessageId => 0,
        ColumnKind::Checksum => 1,
        ColumnKind::MessageOffset => 2,
        ColumnKind::MessageTimestamp => 3,
        ColumnKind::Stream => 4,
        ColumnKind::Topic => 5,
        ColumnKind::PartitionId => 6,
        ColumnKind::OriginTimestamp => 7,
        ColumnKind::BinaryPayload => 8,
        ColumnKind::StringPayload => 8,
    }
}

/// One if a flag is set.
pub open spec fn one_if(flag: bool) -> int {
    if flag {
        1
    } else {
        0
    }
}

/// Each flag of a configuration decides on its own columns, whatever the others are: one for the
/// checksum, five for the metadata and one for the origin timestamp. The id comes first and the
/// payload last, and all columns stand in one order.
pub proof fn lemma_flags_decide_columns(config: FlussSinkConfig, payload: ColumnKind)
    requires
        payload == ColumnKind::BinaryPayload || payload == ColumnKind::StringPayload,
    ensures
        ({
            let kinds = config_columns(config, payload);
            &&& kinds.len() == 2 + one_if(config.include_checksum) + 5 * one_if(
                config.include_metadata,
            ) + one_if(config.include_origin_timestamp)
            &&& kinds[0] == ColumnKind::MessageId
            &&& kinds[kinds.len() - 1] == payload
            &&& has(kinds, ColumnKind::Checksum) <==> config.include_checksum
            &&& has(kinds, ColumnKind::MessageOffset) <==> config.include_metadata
            &&& has(kinds, ColumnKind::MessageTimestamp) <==> config.include_metadata
            &&& has(kinds, ColumnKind::Stream) <==> config.include_metadata
            &&& has(kinds, ColumnKind::Topic) <==> config.include_metadata
            &&& has(kinds, ColumnKind::PartitionId) <==> config.include_metadata
            &&& has(kinds, ColumnKind::OriginTimestamp) <==> config.include_origin_timestamp
            &&& forall|i: int, j: int|
                0 <= i < j < kinds.len() ==> rank(#[trigger] kinds[i]) < rank(#[trigger] kinds[j])
        }),
{
    let kinds = config_columns(config, payload);
    let checksum = one_if(config.include_checksum);
    let metadata = 5 * one_if(config.include_metadata);
    if config.include_checksum {
        assert(kinds[1] == ColumnKind::Checksum);
    }
    if config.include_metadata {
        assert(kinds[1 + checksum] == ColumnKind::MessageOffset);
        assert(kinds[2 + checksum] == ColumnKind::MessageTimestamp);
        assert(kinds[3 + checksum] == ColumnKind::Stream);
        assert(kinds[4 + checksum] == ColumnKind::Topic);
        assert(kinds[5 + checksum] == ColumnKind::PartitionId);
    }
    if config.include_origin_timestamp {
        assert(kinds[1 + checksum + metadata] == ColumnKind::OriginTimestamp);
    }
}

/// The format alone decides on the column for payloads. Formats other than three have none, and
/// are named when they are refused.
pub proof fn lemma_format_decides_payload(format: Seq<char>)
    ensures
        payload_column(format) == Some(ColumnKind::BinaryPayload) <==> format == "bytea"@,
        payload_column(format) == Some(ColumnKind::StringPayload) <==> format == "json"@ || format
            == "text"@,
        payload_column(format) is None <==> format != "bytea"@ && format != "json"@ && format
            != "text"@,
        unsupported_format(format) == "unsupported Fluss payload_format '"@ + format
            + "'; expected one of: bytea, json, text"@,
{
    reveal_strlit("bytea");
    reveal_strlit("json");
    reveal_strlit("text");
    assert("bytea"@.len() == 5 && "json"@.len() == 4 && "text"@.len() == 4);
    assert("json"@[0] != "text"@[0]);
}

/// The columns of a table have, in their order, the names and the types of what they hold: the
/// partition is a 64-bit integer, a payload of bytes is bytes, and all else is text. All can be
/// null.
pub proof fn lemma_columns_of_table(kinds: Seq<ColumnKind>, index: int)
    requires
        0 <= index < kinds.len(),
    ensures
        table_columns(kinds).len() == kinds.len(),
        table_columns(kinds)[index].name == match kinds[index] {
            ColumnKind::MessageId => "id"@,
            ColumnKind::Checksum => "checksum"@,
            ColumnKind::MessageTimestamp => "iggy_timestamp"@,
            ColumnKind::OriginTimestamp => "iggy_origin_timestamp"@,
            ColumnKind::MessageOffset => "iggy_offset"@,
            ColumnKind::Stream => "iggy_stream"@,
            ColumnKind::Topic => "iggy_topic"@,
            ColumnKind::PartitionId => "iggy_partition_id"@,
            ColumnKind::BinaryPayload | ColumnKind::StringPayload => "payload"@,
        },
        table_columns(kinds)[index].data_type == (FlussType {
            kind: match kinds[index] {
                ColumnKind::PartitionId => FlussKind::BigInt,
                ColumnKind::BinaryPayload => FlussKind::Bytes,
                _ => FlussKind::String,
            },
            nullable: true,
        }),
{
}

/// A message has a row where all its columns have values, and only there: the row holds them in
/// the order of the columns. Without a row, the failure is that of the first column without a
/// value.
pub proof fn lemma_row_of_message(
    kinds: Seq<ColumnKind>,
    message: ConsumedMessage,
    origin: RowOrigin,
)
    ensures
        match row_cells(kinds, message, origin) {
            Ok(row) => {
                &&& row.len() == kinds.len()
                &&& forall|j: int|
                    0 <= j < kinds.len() ==> column_value(#[trigger] kinds[j], message, origin)
                        == Ok::<Cell, ConnectorFailure>(row[j])
            },
            Err(failure) => exists|j: int|
                {
                    &&& 0 <= j < kinds.len()
                    &&& column_value(#[trigger] kinds[j], message, origin) == Err::<
                        Cell,
                        ConnectorFailure,
                    >(failure)
                    &&& forall|k: int|
                        0 <= k < j ==> column_value(#[trigger] kinds[k], message, origin) is Ok
                },
        },
    decreases kinds.len(),
{
    if kinds.len() > 0 {
        let shorter = kinds.drop_last();
        lemma_row_of_message(shorter, message, origin);
        match row_cells(shorter, message, origin) {
            Ok(cells) => {
                assert forall|k: int| 0 <= k < kinds.len() - 1 implies column_value(
                    #[trigger] kinds[k],
                    message,
                    origin,
                ) == Ok::<Cell, ConnectorFailure>(cells[k]) by {
                    assert(shorter[k] == kinds[k]);
                }
                assert(kinds[kinds.len() - 1] == kinds.last());
            },
            Err(failure) => {
                let j = choose|j: int|
                    {
                        &&& 0 <= j < shorter.len()
                        &&& column_value(#[trigger] shorter[j], message, origin) == Err::<
                            Cell,
                            ConnectorFailure,
                        >(failure)
                        &&& forall|k: int|
                            0 <= k < j ==> column_value(
                                #[trigger] shorter[k],
                                message,
                                origin,
                            ) is Ok
                    };
                assert(kinds[j] == shorter[j]);
                assert forall|k: int| 0 <= k < j implies column_value(
                    #[trigger] kinds[k],
                    message,
                    origin,
                ) is Ok by {
                    assert(shorter[k] == kinds[k]);
                }
            },
        }
    }
}

/// One message makes its one row, or one failure.
pub proof fn lemma_one_message(kinds: Seq<ColumnKind>, message: ConsumedMessage, origin: RowOrigin)
    ensures
        match row_cells(kinds, message, origin) {
            Ok(row) => {
                &&& message_rows(kinds, seq![message], origin) == seq![row]
                &&& row_failures(kinds, seq![message], origin) == Seq::<ConnectorFailure>::empty()
            },
            Err(failure) => {
                &&& message_rows(kinds, seq![message], origin) == Seq::<Seq<Cell>>::empty()
                &&& row_failures(kinds, seq![message], origin) == seq![failure]
            },
        },
{
    reveal_with_fuel(Seq::filter_map, 2);
    assert(seq![message].drop_last() =~= Seq::empty());
    assert(Seq::<Seq<Cell>>::empty().push(row_cells(kinds, message, origin)->Ok_0)
        =~= seq![row_cells(kinds, message, origin)->Ok_0]);
    assert(message_rows(kinds, seq![message], origin) =~= match row_cells(kinds, message, origin) {
        Ok(row) => seq![row],
        Err(_) => Seq::empty(),
    });
    assert(row_failures(kinds, seq![message], origin) =~= match row_cells(kinds, message, origin) {
        Ok(_) => Seq::empty(),
        Err(failure) => seq![failure],
    });
}

/// The failures of messages are those of the first messages, followed by those of the others.
pub proof fn lemma_failures_in_order(
    kinds: Seq<ColumnKind>,
    first: Seq<ConsumedMessage>,
    others: Seq<ConsumedMessage>,
    origin: RowOrigin,
)
    ensures
        row_failures(kinds, first + others, origin) == row_failures(kinds, first, origin)
            + row_failures(kinds, others, origin),
    decreases others.len(),
{
    if others.len() == 0 {
        assert(first + others =~= first);
        assert(row_failures(kinds, first, origin) + row_failures(kinds, others, origin)
            =~= row_failures(kinds, first, origin));
    } else {
        assert((first + others).drop_last() =~= first + others.drop_last());
        lemma_failures_in_order(kinds, first, others.drop_last(), origin);
        assert(row_failures(kinds, first + others, origin) =~= row_failures(kinds, first, origin)
            + row_failures(kinds, others, origin));
    }
}

/// Whether all columns have values for a message.
pub open spec fn has_row(
    kinds: Seq<ColumnKind>,
    message: ConsumedMessage,
    origin: RowOrigin,
) -> bool {
    forall|j: int|
        0 <= j < kinds.len() ==> column_value(#[trigger] kinds[j], message, origin) is Ok
}

/// A message has a row where all columns have values.
proof fn lemma_has_row(kinds: Seq<ColumnKind>, message: ConsumedMessage, origin: RowOrigin)
    ensures
        has_row(kinds, message, origin) <==> row_cells(kinds, message, origin) is Ok,
{
    lemma_row_of_message(kinds, message, origin);
    if row_cells(kinds, message, origin) is Err {
        let failure = row_cells(kinds, message, origin)->Err_0;
        let j = choose|j: int|
            0 <= j < kinds.len() && column_value(#[trigger] kinds[j], message, origin) == Err::<
                Cell,
                ConnectorFailure,
            >(failure);
        assert(!(column_value(kinds[j], message, origin) is Ok));
    }
}

/// The messages that have rows, in their order.
pub open spec fn with_rows(
    kinds: Seq<ColumnKind>,
    messages: Seq<ConsumedMessage>,
    origin: RowOrigin,
) -> Seq<ConsumedMessage> {
    messages.filter(|message: ConsumedMessage| has_row(kinds, message, origin))
}

/// The messages that have no rows, in their order.
pub open spec fn without_rows(
    kinds: Seq<ColumnKind>,
    messages: Seq<ConsumedMessage>,
    origin: RowOrigin,
) -> Seq<ConsumedMessage> {
    messages.filter(|message: ConsumedMessage| !has_row(kinds, message, origin))
}

/// Each message has its row or its failure, in the order of the messages.
proof fn lemma_rows_and_failures(
    kinds: Seq<ColumnKind>,
    messages: Seq<ConsumedMessage>,
    origin: RowOrigin,
)
    ensures
        message_rows(kinds, messages, origin).len() == with_rows(kinds, messages, origin).len(),
        forall|i: int|
            0 <= i < with_rows(kinds, messages, origin).len() ==> row_cells(
                kinds,
                #[trigger] with_rows(kinds, messages, origin)[i],
                origin,
            ) == Ok::<Seq<Cell>, ConnectorFailure>(message_rows(kinds, messages, origin)[i]),
        row_failures(kinds, messages, origin).len() == without_rows(
            kinds,
            messages,
            origin,
        ).len(),
        forall|i: int|
            0 <= i < without_rows(kinds, messages, origin).len() ==> row_cells(
                kinds,
                #[trigger] without_rows(kinds, messages, origin)[i],
                origin,
            ) == Err::<Seq<Cell>, ConnectorFailure>(row_failures(kinds, messages, origin)[i]),
        with_rows(kinds, messages, origin).len() + without_rows(kinds, messages, origin).len()
            == messages.len(),
    decreases messages.len(),
{
    reveal(Seq::filter);
    if messages.len() > 0 {
        let shorter = messages.drop_last();
        lemma_rows_and_failures(kinds, shorter, origin);
        lemma_has_row(kinds, messages.last(), origin);
        let kept = with_rows(kinds, messages, origin);
        let lost = without_rows(kinds, messages, origin);
        assert forall|i: int| 0 <= i < kept.len() implies row_cells(
            kinds,
            #[trigger] kept[i],
            origin,
        ) == Ok::<Seq<Cell>, ConnectorFailure>(message_rows(kinds, messages, origin)[i]) by {
            if i < with_rows(kinds, shorter, origin).len() {
                assert(kept[i] == with_rows(kinds, shorter, origin)[i]);
            }
        }
        assert forall|i: int| 0 <= i < lost.len() implies row_cells(
            kinds,
            #[trigger] lost[i],
            origin,
        ) == Err::<Seq<Cell>, ConnectorFailure>(row_failures(kinds, messages, origin)[i]) by {
            if i < without_rows(kinds, shorter, origin).len() {
                assert(lost[i] == without_rows(kinds, shorter, origin)[i]);
            }
        }
    }
}

/// The batch of messages goes to the given table, to be appended. Each message is counted once: as
/// appended where it has a row, as an error where it has none.
pub proof fn lemma_batch_counts(
    counted: CountedWrite,
    path: (Seq<char>, Seq<char>),
    kinds: Seq<ColumnKind>,
    messages: Seq<ConsumedMessage>,
    origin: RowOrigin,
)
    requires
        batch_of(counted, path, kinds, messages, origin),
    ensures
        counted.write.table_path.database@ == path.0,
        counted.write.table_path.table@ == path.1,
        counted.write.op == Op::Append,
        counted.stat.appended + counted.stat.errors == messages.len(),
        counted.stat.appended == with_rows(kinds, messages, origin).len(),
        counted.stat.errors == without_rows(kinds, messages, origin).len(),
        counted.skipped@.len() == counted.stat.errors,
        batch_rows(counted.write.batch) == counted.stat.appended,
{
    lemma_rows_and_failures(kinds, messages, origin);
    assert(failures(counted.skipped@).len() == counted.skipped@.len());
}

/// A batch has one column for each of the table, under its name, and in each column the value of
/// each message that has a row, in the order of the messages.
pub proof fn lemma_batch_holds_values(
    counted: CountedWrite,
    path: (Seq<char>, Seq<char>),
    kinds: Seq<ColumnKind>,
    messages: Seq<ConsumedMessage>,
    origin: RowOrigin,
    column: int,
    row: int,
)
    requires
        batch_of(counted, path, kinds, messages, origin),
        0 <= column < kinds.len(),
        0 <= row < with_rows(kinds, messages, origin).len(),
    ensures
        batch_columns(counted.write.batch).len() == kinds.len(),
        batch_columns(counted.write.batch)[column].name == column_name(kinds[column]),
        batch_columns(counted.write.batch)[column].cells.len() == with_rows(
            kinds,
            messages,
            origin,
        ).len(),
        Ok::<Cell, ConnectorFailure>(batch_columns(counted.write.batch)[column].cells[row])
            == column_value(kinds[column], with_rows(kinds, messages, origin)[row], origin),
        batch_fields(counted.write.batch).len() == kinds.len(),
        batch_fields(counted.write.batch)[column].name == column_name(kinds[column]),
        batch_fields(counted.write.batch)[column].nullable,
{
    lemma_rows_and_failures(kinds, messages, origin);
    let message = with_rows(kinds, messages, origin)[row];
    assert(row_cells(kinds, message, origin) == Ok::<Seq<Cell>, ConnectorFailure>(
        message_rows(kinds, messages, origin)[row],
    ));
    lemma_row_of_message(kinds, message, origin);
}

/// Each message that has no row is reported, in the order of the messages, with the failure of its
/// first column that has no value.
pub proof fn lemma_skipped_reported(
    counted: CountedWrite,
    path: (Seq<char>, Seq<char>),
    kinds: Seq<ColumnKind>,
    messages: Seq<ConsumedMessage>,
    origin: RowOrigin,
    index: int,
)
    requires
        batch_of(counted, path, kinds, messages, origin),
        0 <= index < without_rows(kinds, messages, origin).len(),
    ensures
        index < counted.skipped@.len(),
        exists|j: int|
            {
                &&& 0 <= j < kinds.len()
                &&& column_value(
                    #[trigger] kinds[j],
                    without_rows(kinds, messages, origin)[index],
                    origin,
                ) == Err::<Cell, ConnectorFailure>(counted.skipped@[index]@)
                &&& forall|k: int|
                    0 <= k < j ==> column_value(
                        #[trigger] kinds[k],
                        without_rows(kinds, messages, origin)[index],
                        origin,
                    ) is Ok
            },
{
    lemma_rows_and_failures(kinds, messages, origin);
    let message = without_rows(kinds, messages, origin)[index];
    assert(failures(counted.skipped@)[index] == counted.skipped@[index]@);
    assert(row_cells(kinds, message, origin) == Err::<Seq<Cell>, ConnectorFailure>(
        row_failures(kinds, messages, origin)[index],
    ));
    lemma_row_of_message(kinds, message, origin);
}

/// The number of bytes that a cell of text or bytes takes.
pub open spec fn cell_length(cell: Cell) -> nat {
    match cell {
        Cell::Text(text) => encode_utf8(text).len(),
        Cell::Blob(bytes) => bytes.len(),
        _ => 0,
    }
}

/// The number of bytes that the values of one column take in all rows.
pub open spec fn column_length(rows: Seq<Seq<Cell>>, column: int) -> nat
    decreases rows.len(),
{
    if rows.len() == 0 {
        0
    } else {
        cell_length(rows[0][column]) + column_length(rows.drop_first(), column)
    }
}

/// Bytes can be counted from the front.
proof fn lemma_bytes_from_front(cells: Seq<Cell>)
    requires
        cells.len() > 0,
    ensures
        column_bytes(cells) == cell_length(cells[0]) + column_bytes(cells.drop_first()),
    decreases cells.len(),
{
    if cells.len() == 1 {
        assert(cells.drop_last() =~= Seq::empty());
        assert(cells.drop_first() =~= Seq::empty());
    } else {
        lemma_bytes_from_front(cells.drop_last());
        assert(cells.drop_last().drop_first() =~= cells.drop_first().drop_last());
        assert(cells.drop_first().last() == cells.last());
    }
}

/// The bytes of a column are those of its values in all rows.
proof fn lemma_column_length(rows: Seq<Seq<Cell>>, column: int)
    ensures
        column_bytes(column_cells(rows, column)) == column_length(rows, column),
    decreases rows.len(),
{
    if rows.len() > 0 {
        let cells = column_cells(rows, column);
        lemma_bytes_from_front(cells);
        assert(cells.drop_first() =~= column_cells(rows.drop_first(), column));
        lemma_column_length(rows.drop_first(), column);
    }
}

/// Rows are refused for their size where the values of one column take more bytes together than
/// offsets of 32 bits reach, and only there.
pub proof fn lemma_size_decides(kinds: Seq<ColumnKind>, rows: Seq<Seq<Cell>>)
    ensures
        rows_fit(kinds, rows) <==> forall|column: int|
            0 <= column < kinds.len() ==> #[trigger] column_length(rows, column) <= 0x7fff_ffff,
{
    assert forall|column: int| column_bytes(#[trigger] column_cells(rows, column))
        == column_length(rows, column) by {
        lemma_column_length(rows, column);
    }
    if rows_fit(kinds, rows) {
        assert forall|column: int| 0 <= column < kinds.len() implies #[trigger] column_length(
            rows,
            column,
        ) <= 0x7fff_ffff by {
            assert(column_bytes(column_cells(rows, column)) <= i32::MAX);
        }
    }
    if forall|column: int|
        0 <= column < kinds.len() ==> #[trigger] column_length(rows, column) <= 0x7fff_ffff {
        assert forall|column: int| 0 <= column < kinds.len() implies #[trigger] column_bytes(
            column_cells(rows, column),
        ) <= i32::MAX by {
            assert(column_length(rows, column) <= 0x7fff_ffff);
        }
    }
}

/// A router for a single table has the table and the flags of its configuration.
pub proof fn lemma_single_router_follows_config(
    router: SingleTableRouter,
    config: FlussSinkConfig,
    payload: ColumnKind,
)
    requires
        router.made_for(config, payload),
    ensures
        router.path().0 == config.fluss_database@,
        router.path().1 == config.fluss_table@,
        router.creates_table() == config.auto_create_table,
        router.columns() == config_columns(config, payload),
        forall|path: (Seq<char>, Seq<char>)| !#[trigger] router.catalog().contains_key(path),
{
}

/// A layout is created with its columns, and with its primary key where it has one.
pub proof fn lemma_layout_parts(layout: FlussTableLayout)
    ensures
        layout.parts().columns == table_columns(layout.columns()),
        layout.parts().key is None <==> layout.primary_key().len() == 0,
        layout.parts().key matches Some(names) ==> names == layout.primary_key(),
{
}

/// Values are what they are one by one.
pub proof fn lemma_values_one_by_one(values: Seq<Datum>, strings: Seq<String>, index: int)
    ensures
        cells(values).len() == values.len(),
        0 <= index < values.len() ==> cells(values)[index] == values[index]@,
        texts(strings).len() == strings.len(),
        0 <= index < strings.len() ==> texts(strings)[index] == strings[index]@,
{
}

/// Configurations agree where they say the same of everything.
pub proof fn lemma_agreement(left: FlussSinkConfig, right: FlussSinkConfig)
    ensures
        left.agrees(right) <==> {
            &&& left.bootstrap_servers@ == right.bootstrap_servers@
            &&& left.fluss_database@ == right.fluss_database@
            &&& left.fluss_table@ == right.fluss_table@
            &&& left.batch_size == right.batch_size
            &&& left.auto_create_table == right.auto_create_table
            &&& left.include_metadata == right.include_metadata
            &&& left.include_checksum == right.include_checksum
            &&& left.include_origin_timestamp == right.include_origin_timestamp
            &&& left.payload_format@ == right.payload_format@
            &&& left.create_table == right.create_table
            &&& left.router_type == right.router_type
            &&& left.route_key@ == right.route_key@
        },
{
}

} // verus!
