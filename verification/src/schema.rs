//! The table that messages are stored in: its columns, and the row that a message becomes.

use std::sync::Arc;

use arrow::datatypes::Schema as ArrowSchema;
use fluss::metadata::{DataType, Schema, TableDescriptor};
use fluss::row::GenericRow;
use vstd::prelude::*;
use vstd::utf8::{
    decode_utf8, decode_utf8_encode_utf8, encode_utf8, encode_utf8_decode_utf8,
    encode_utf8_valid_utf8, valid_utf8,
};

use crate::arrow_data::{schema_fields, ArrowField, Cell};
use crate::config::FlussSinkConfig;
use crate::connector::{ConnectorError, ConnectorFailure};
use crate::fluss_schema::{
    add_column, arrow_fields, begins_with_letter, build_schema, builder_parts, built_parts, cells,
    describe, descriptor_row_type, fluss_type, generic_row, keyed_columns, new_schema_builder,
    nullable, plain_columns, plain_table, row_values, schema_accepted, schema_parts,
    set_primary_key, simple_arrow_fields, simple_columns, table_parts, texts, to_arrow_schema,
    Datum, FlussColumn, FlussKind, FlussType, SchemaParts,
};
use crate::message::{content_bytes, ConsumedMessage, Content};
use crate::text::{decimal, decimal_digits, from_utf8, utf8_error};

verus! {

/// What a column of the table holds.
#[derive(Debug, Clone, Copy, PartialEq, Eq, Structural)]
pub enum ColumnKind {
    MessageId,
    Checksum,
    MessageTimestamp,
    OriginTimestamp,
    MessageOffset,
    Stream,
    Topic,
    PartitionId,
    BinaryPayload,
    StringPayload,
}

/// The name of a column.
pub open spec fn column_name(kind: ColumnKind) -> Seq<char> {
    match kind {
        ColumnKind::MessageId => "id"@,
        ColumnKind::Checksum => "checksum"@,
        ColumnKind::MessageTimestamp => "iggy_timestamp"@,
        ColumnKind::OriginTimestamp => "iggy_origin_timestamp"@,
        ColumnKind::MessageOffset => "iggy_offset"@,
        ColumnKind::Stream => "iggy_stream"@,
        ColumnKind::Topic => "iggy_topic"@,
        ColumnKind::PartitionId => "iggy_partition_id"@,
        ColumnKind::BinaryPayload => "payload"@,
        ColumnKind::StringPayload => "payload"@,
    }
}

/// The type of a column. Numbers that a 64-bit signed integer cannot hold are stored as texts.
pub open spec fn column_type(kind: ColumnKind) -> FlussType {
    match kind {
        ColumnKind::PartitionId => nullable(FlussKind::BigInt),
        ColumnKind::BinaryPayload => nullable(FlussKind::Bytes),
        _ => nullable(FlussKind::String),
    }
}

/// Whether a column holds the payload.
pub open spec fn is_payload(kind: ColumnKind) -> bool {
    kind == ColumnKind::BinaryPayload || kind == ColumnKind::StringPayload
}

/// The columns of a table.
pub open spec fn table_columns(kinds: Seq<ColumnKind>) -> Seq<FlussColumn> {
    kinds.map_values(
        |kind: ColumnKind| FlussColumn { name: column_name(kind), data_type: column_type(kind) },
    )
}

/// Where a message comes from.
#[derive(Debug, Clone, Copy)]
pub struct RowContext<'a> {
    pub stream: &'a str,
    pub topic: &'a str,
    pub partition_id: u32,
}

/// What a [`RowContext`] says.
pub struct RowOrigin {
    pub stream: Seq<char>,
    pub topic: Seq<char>,
    pub partition_id: u32,
}

impl View for RowContext<'_> {
    type V = RowOrigin;

    open spec fn view(&self) -> RowOrigin {
        RowOrigin {
            stream: self.stream@,
            topic: self.topic@,
            partition_id: self.partition_id,
        }
    }
}

/// The value of a column in the row of a message, or why there is none. Only a payload can fail:
/// to be serialized and, for a column of texts, to be UTF-8.
pub open spec fn column_value(
    kind: ColumnKind,
    message: ConsumedMessage,
    origin: RowOrigin,
) -> Result<Cell, ConnectorFailure> {
    match kind {
        ColumnKind::MessageId => Ok(Cell::Text(decimal_digits(message.id as nat))),
        ColumnKind::Checksum => Ok(Cell::Text(decimal_digits(message.checksum as nat))),
        ColumnKind::MessageTimestamp => Ok(Cell::Text(decimal_digits(message.timestamp as nat))),
        ColumnKind::OriginTimestamp => Ok(
            Cell::Text(decimal_digits(message.origin_timestamp as nat)),
        ),
        ColumnKind::MessageOffset => Ok(Cell::Text(decimal_digits(message.offset as nat))),
        ColumnKind::Stream => Ok(Cell::Text(origin.stream)),
        ColumnKind::Topic => Ok(Cell::Text(origin.topic)),
        ColumnKind::PartitionId => Ok(Cell::Long(origin.partition_id as i64)),
        ColumnKind::BinaryPayload => match content_bytes(message.payload@) {
            Ok(bytes) => Ok(Cell::Blob(bytes)),
            Err(error) => Err(
                ConnectorFailure::Serialization(
                    "Failed to serialize payload for Fluss BYTES column: "@ + error,
                ),
            ),
        },
        ColumnKind::StringPayload => match content_bytes(message.payload@) {
            Ok(bytes) => if valid_utf8(bytes) {
                Ok(Cell::Text(decode_utf8(bytes)))
            } else {
                Err(
                    ConnectorFailure::Serialization(
                        "Payload is not valid UTF-8 for the Fluss STRING column: "@ + utf8_error(
                            bytes,
                        ),
                    ),
                )
            },
            Err(error) => Err(
                ConnectorFailure::Serialization(
                    "Failed to serialize payload for Fluss STRING column: "@ + error,
                ),
            ),
        },
    }
}

/// The values of the row of a message, one for each column, or why there is no row: the failure
/// of the first column that has no value.
pub open spec fn row_cells(
    kinds: Seq<ColumnKind>,
    message: ConsumedMessage,
    origin: RowOrigin,
) -> Result<Seq<Cell>, ConnectorFailure>
    decreases kinds.len(),
{
    if kinds.len() == 0 {
        Ok(Seq::empty())
    } else {
        match row_cells(kinds.drop_last(), message, origin) {
            Ok(cells) => match column_value(kinds.last(), message, origin) {
                Ok(cell) => Ok(cells.push(cell)),
                Err(failure) => Err(failure),
            },
            Err(failure) => Err(failure),
        }
    }
}

impl ColumnKind {
    /// The name of the column.
    pub fn name(self) -> (name: &'static str)
        ensures
            name@ == column_name(self),
    {
        match self {
            ColumnKind::MessageId => "id",
            ColumnKind::Checksum => "checksum",
            ColumnKind::MessageTimestamp => "iggy_timestamp",
            ColumnKind::OriginTimestamp => "iggy_origin_timestamp",
            ColumnKind::MessageOffset => "iggy_offset",
            ColumnKind::Stream => "iggy_stream",
            ColumnKind::Topic => "iggy_topic",
            ColumnKind::PartitionId => "iggy_partition_id",
            ColumnKind::BinaryPayload => "payload",
            ColumnKind::StringPayload => "payload",
        }
    }

    /// The type of the column.
    pub fn data_type(self) -> (data_type: DataType)
        ensures
            fluss_type(data_type) == column_type(self),
    {
        match self {
            ColumnKind::MessageId
            | ColumnKind::Checksum
            | ColumnKind::MessageTimestamp
            | ColumnKind::OriginTimestamp
            | ColumnKind::MessageOffset
            | ColumnKind::Stream
            | ColumnKind::Topic
            | ColumnKind::StringPayload => fluss::metadata::DataTypes::string(),
            ColumnKind::PartitionId => fluss::metadata::DataTypes::bigint(),
            ColumnKind::BinaryPayload => fluss::metadata::DataTypes::bytes(),
        }
    }

    /// The value of the column in the row of a message.
    pub fn datum(self, message: &ConsumedMessage, context: RowContext<'_>) -> (value: Result<
        Datum,
        ConnectorError,
    >)
        ensures
            match value {
                Ok(value) => column_value(self, *message, context@) == Ok::<Cell, ConnectorFailure>(
                    value@,
                ),
                Err(error) => column_value(self, *message, context@) == Err::<
                    Cell,
                    ConnectorFailure,
                >(error@),
            },
    {
        match self {
            ColumnKind::MessageId => Ok(Datum::Text(decimal(message.id))),
            ColumnKind::Checksum => Ok(Datum::Text(decimal(message.checksum as u128))),
            ColumnKind::MessageTimestamp => Ok(Datum::Text(decimal(message.timestamp as u128))),
            ColumnKind::OriginTimestamp => Ok(
                Datum::Text(decimal(message.origin_timestamp as u128)),
            ),
            ColumnKind::MessageOffset => Ok(Datum::Text(decimal(message.offset as u128))),
            ColumnKind::Stream => Ok(Datum::Text(context.stream.to_owned())),
            ColumnKind::Topic => Ok(Datum::Text(context.topic.to_owned())),
            ColumnKind::PartitionId => Ok(Datum::Long(context.partition_id as i64)),
            ColumnKind::BinaryPayload => match message.payload.try_to_bytes() {
                Ok(bytes) => Ok(Datum::Blob(bytes)),
                Err(error) => Err(
                    ConnectorError::Serialization(
                        "Failed to serialize payload for Fluss BYTES column: ".to_owned().concat(
                            error.as_str(),
                        ),
                    ),
                ),
            },
            ColumnKind::StringPayload => {
                let bytes = match message.payload.try_to_bytes() {
                    Ok(bytes) => bytes,
                    Err(error) => {
                        return Err(
                            ConnectorError::Serialization(
                                "Failed to serialize payload for Fluss STRING column: ".to_owned().concat(
                                error.as_str()),
                            ),
                        );
                    },
                };
                match from_utf8(bytes) {
                    Ok(text) => Ok(Datum::Text(text)),
                    Err(error) => Err(
                        ConnectorError::Serialization(
                            "Payload is not valid UTF-8 for the Fluss STRING column: ".to_owned().concat(
                            error.as_str()),
                        ),
                    ),
                }
            },
        }
    }
}

/// The column that payloads are stored in, by the configured format; `None` where the format is
/// not supported.
pub open spec fn payload_column(format: Seq<char>) -> Option<ColumnKind> {
    if format == "bytea"@ {
        Some(ColumnKind::BinaryPayload)
    } else if format == "json"@ || format == "text"@ {
        Some(ColumnKind::StringPayload)
    } else {
        None
    }
}

/// The columns of the table under a configuration, with the column for payloads given.
pub open spec fn config_columns(config: FlussSinkConfig, payload: ColumnKind) -> Seq<ColumnKind> {
    let checksum = if config.include_checksum {
        seq![ColumnKind::Checksum]
    } else {
        seq![]
    };
    let metadata = if config.include_metadata {
        seq![
            ColumnKind::MessageOffset,
            ColumnKind::MessageTimestamp,
            ColumnKind::Stream,
            ColumnKind::Topic,
            ColumnKind::PartitionId,
        ]
    } else {
        seq![]
    };
    let origin = if config.include_origin_timestamp {
        seq![ColumnKind::OriginTimestamp]
    } else {
        seq![]
    };
    seq![ColumnKind::MessageId] + checksum + metadata + origin + seq![payload]
}

/// What is said of a payload format that is not supported.
pub open spec fn unsupported_format(format: Seq<char>) -> Seq<char> {
    "unsupported Fluss payload_format '"@ + format + "'; expected one of: bytea, json, text"@
}

/// The layout of a table: its columns in their order, and the names of those that make its
/// primary key.
#[derive(Debug)]
pub struct FlussTableLayout {
    columns: Vec<ColumnKind>,
    primary_key_columns: Vec<String>,
}

impl FlussTableLayout {
    /// The columns, in their order.
    pub closed spec fn columns(self) -> Seq<ColumnKind> {
        self.columns@
    }

    /// The names of the columns of the primary key; none where the table has no key.
    pub closed spec fn primary_key(self) -> Seq<Seq<char>> {
        texts(self.primary_key_columns@)
    }

    /// The columns and the key that the table is created with.
    pub open spec fn parts(self) -> SchemaParts {
        SchemaParts {
            columns: table_columns(self.columns()),
            key: if self.primary_key().len() == 0 {
                None
            } else {
                Some(self.primary_key())
            },
        }
    }

    /// Whether the layout is one of those that configurations give: no two columns have the
    /// same name, there is at least one, and there is no primary key.
    pub open spec fn well_formed(self) -> bool {
        &&& self.columns().len() > 0
        &&& self.primary_key().len() == 0
        &&& plain_columns(table_columns(self.columns()))
        &&& simple_columns(table_columns(self.columns()))
    }

    /// The layout under a configuration.
    pub fn from_config(config: &FlussSinkConfig) -> (layout: Result<Self, ConnectorError>)
        ensures
            match layout {
                Ok(layout) => {
                    &&& payload_column(config.payload_format@) is Some
                    &&& layout.columns() == config_columns(
                        *config,
                        payload_column(config.payload_format@)->0,
                    )
                    &&& layout.well_formed()
                },
                Err(error) => {
                    &&& payload_column(config.payload_format@) is None
                    &&& error@ == ConnectorFailure::InvalidConfigValue(
                        unsupported_format(config.payload_format@),
                    )
                },
            },
    {
        let mut columns: Vec<ColumnKind> = Vec::with_capacity(10);
        columns.push(ColumnKind::MessageId);
        if config.include_checksum {
            columns.push(ColumnKind::Checksum);
        }
        if config.include_metadata {
            columns.push(ColumnKind::MessageOffset);
            columns.push(ColumnKind::MessageTimestamp);
            columns.push(ColumnKind::Stream);
            columns.push(ColumnKind::Topic);
            columns.push(ColumnKind::PartitionId);
        }
        if config.include_origin_timestamp {
            columns.push(ColumnKind::OriginTimestamp);
        }
        if config.payload_format == "bytea".to_owned() {
            columns.push(ColumnKind::BinaryPayload);
        } else if config.payload_format == "json".to_owned() || config.payload_format
            == "text".to_owned() {
            columns.push(ColumnKind::StringPayload);
        } else {
            return Err(
                ConnectorError::InvalidConfigValue(
                    "unsupported Fluss payload_format '".to_owned().concat(
                        config.payload_format.as_str(),
                    ).concat("'; expected one of: bytea, json, text"),
                ),
            );
        }
        let ghost payload = payload_column(config.payload_format@)->0;
        assert(columns@ =~= config_columns(*config, payload));
        proof {
            lemma_config_columns(*config, payload);
        }
        let layout = FlussTableLayout { columns, primary_key_columns: Vec::new() };
        assert(layout.primary_key() =~= Seq::empty());
        Ok(layout)
    }

    /// The schema of the table.
    fn build_schema(&self) -> (schema: Result<Schema, String>)
        ensures
            schema is Ok <==> schema_accepted(self.parts()),
            self.well_formed() ==> schema is Ok,
            schema matches Ok(schema) ==> {
                &&& schema_parts(schema) == built_parts(self.parts())
                &&& schema_parts(schema).key matches Some(names) ==> names.len() > 0
            },
    {
        let mut builder = new_schema_builder();
        let mut index: usize = 0;
        assert(table_columns(self.columns@.subrange(0, 0)) =~= Seq::empty());
        while index < self.columns.len()
            invariant
                index <= self.columns@.len(),
                builder_parts(builder) == Some(
                    SchemaParts {
                        columns: table_columns(self.columns@.subrange(0, index as int)),
                        key: None,
                    },
                ),
            decreases self.columns@.len() - index,
        {
            let column = self.columns[index];
            builder = add_column(builder, column.name(), column.data_type());
            index = index + 1;
            proof {
                assert(table_columns(self.columns@.subrange(0, index as int)) =~= table_columns(
                    self.columns@.subrange(0, index - 1),
                ).push(FlussColumn { name: column_name(column), data_type: column_type(column) }));
            }
        }
        assert(self.columns@.subrange(0, index as int) =~= self.columns@);
        if self.primary_key_columns.len() > 0 {
            let names = self.primary_key_columns.clone();
            assert(texts(names@) =~= texts(self.primary_key_columns@));
            builder = set_primary_key(builder, names)?;
        }
        build_schema(builder)
    }

    /// The descriptor that the table is created with.
    pub fn build_table_descriptor(&self) -> (descriptor: Result<TableDescriptor, String>)
        ensures
            descriptor is Ok <==> schema_accepted(self.parts()),
            self.well_formed() ==> descriptor is Ok,
            descriptor matches Ok(descriptor) ==> table_parts(descriptor) == plain_table(
                built_parts(self.parts()),
                None,
            ),
    {
        let schema = self.build_schema()?;
        describe(schema)
    }

    /// The columns, in their order.
    pub fn column_kinds(&self) -> (kinds: &Vec<ColumnKind>)
        ensures
            kinds@ == self.columns(),
    {
        &self.columns
    }

    /// The Arrow schema of the table.
    pub fn arrow_schema(&self) -> (schema: Result<Arc<ArrowSchema>, String>)
        ensures
            self.well_formed() ==> {
                &&& schema is Ok
                &&& schema_fields(*schema->Ok_0) == simple_arrow_fields(
                    table_columns(self.columns()),
                )
            },
            if schema_accepted(self.parts()) {
                match schema {
                    Ok(schema) => arrow_fields(keyed_columns(self.parts())) == Ok::<
                        Seq<ArrowField>,
                        Seq<char>,
                    >(schema_fields(*schema)),
                    Err(error) => arrow_fields(keyed_columns(self.parts())) == Err::<
                        Seq<ArrowField>,
                        Seq<char>,
                    >(error@),
                }
            } else {
                schema is Err
            },
    {
        let descriptor = self.build_table_descriptor()?;
        to_arrow_schema(descriptor_row_type(&descriptor))
    }

    /// The values of the row of a message, one for each column.
    pub fn row_values(&self, message: &ConsumedMessage, context: RowContext<'_>) -> (values: Result<
        Vec<Datum>,
        ConnectorError,
    >)
        ensures
            match values {
                Ok(values) => row_cells(self.columns(), *message, context@) == Ok::<
                    Seq<Cell>,
                    ConnectorFailure,
                >(cells(values@)),
                Err(error) => row_cells(self.columns(), *message, context@) == Err::<
                    Seq<Cell>,
                    ConnectorFailure,
                >(error@),
            },
    {
        let mut values: Vec<Datum> = Vec::with_capacity(self.columns.len());
        let mut index: usize = 0;
        assert(cells(values@) =~= Seq::empty());
        while index < self.columns.len()
            invariant
                index <= self.columns@.len(),
                row_cells(self.columns@.subrange(0, index as int), *message, context@) == Ok::<
                    Seq<Cell>,
                    ConnectorFailure,
                >(cells(values@)),
            decreases self.columns@.len() - index,
        {
            proof {
                assert(self.columns@.subrange(0, index + 1).drop_last() =~= self.columns@.subrange(
                    0,
                    index as int,
                ));
            }
            let ghost before = values@;
            match self.columns[index].datum(message, context) {
                Ok(value) => {
                    values.push(value);
                    assert(cells(values@) =~= cells(before).push(value@));
                },
                Err(error) => {
                    proof {
                        lemma_row_failure(self.columns@, index + 1, *message, context@);
                    }
                    return Err(error);
                },
            }
            index = index + 1;
        }
        assert(self.columns@.subrange(0, index as int) =~= self.columns@);
        Ok(values)
    }

    /// The row of a message.
    pub fn row_from_message(&self, message: &ConsumedMessage, context: RowContext<'_>) -> (row:
        Result<GenericRow<'static>, ConnectorError>)
        ensures
            match row {
                Ok(row) => row_cells(self.columns(), *message, context@) == Ok::<
                    Seq<Cell>,
                    ConnectorFailure,
                >(row_values(row)),
                Err(error) => row_cells(self.columns(), *message, context@) == Err::<
                    Seq<Cell>,
                    ConnectorFailure,
                >(error@),
            },
    {
        match self.row_values(message, context) {
            Ok(values) => Ok(generic_row(values)),
            Err(error) => Err(error),
        }
    }
}

/// A failure in the first columns is the failure of the row.
proof fn lemma_row_failure(
    kinds: Seq<ColumnKind>,
    count: int,
    message: ConsumedMessage,
    origin: RowOrigin,
)
    requires
        0 <= count <= kinds.len(),
        row_cells(kinds.subrange(0, count), message, origin) is Err,
    ensures
        row_cells(kinds, message, origin) == row_cells(
            kinds.subrange(0, count),
            message,
            origin,
        ),
    decreases kinds.len() - count,
{
    if count < kinds.len() {
        assert(kinds.subrange(0, count + 1).drop_last() =~= kinds.subrange(0, count));
        lemma_row_failure(kinds, count + 1, message, origin);
    } else {
        assert(kinds.subrange(0, count) =~= kinds);
    }
}

/// Columns that hold different things have different names, but for the two kinds of payload;
/// every name begins with a letter.
pub proof fn lemma_column_names(left: ColumnKind, right: ColumnKind)
    ensures
        begins_with_letter(column_name(left)),
        column_name(left) == column_name(right) ==> left == right || (is_payload(left)
            && is_payload(right)),
{
    reveal_strlit("id");
    reveal_strlit("checksum");
    reveal_strlit("iggy_timestamp");
    reveal_strlit("iggy_origin_timestamp");
    reveal_strlit("iggy_offset");
    reveal_strlit("iggy_stream");
    reveal_strlit("iggy_topic");
    reveal_strlit("iggy_partition_id");
    reveal_strlit("payload");
    assert("id"@.len() == 2 && "checksum"@.len() == 8 && "iggy_timestamp"@.len() == 14);
    assert("iggy_origin_timestamp"@.len() == 21 && "iggy_offset"@.len() == 11);
    assert("iggy_stream"@.len() == 11 && "iggy_topic"@.len() == 10);
    assert("iggy_partition_id"@.len() == 17 && "payload"@.len() == 7);
    assert("iggy_offset"@[5] != "iggy_stream"@[5]);
}

/// The columns under a configuration hold different things, and only the last holds the payload.
proof fn lemma_config_kinds(config: FlussSinkConfig, payload: ColumnKind, i: int, j: int)
    requires
        is_payload(payload),
        0 <= i < j < config_columns(config, payload).len(),
    ensures
        config_columns(config, payload)[i] != config_columns(config, payload)[j],
        !is_payload(config_columns(config, payload)[i]),
{
}

/// The columns under a configuration have names that differ from each other.
proof fn lemma_config_columns(config: FlussSinkConfig, payload: ColumnKind)
    requires
        is_payload(payload),
    ensures
        plain_columns(table_columns(config_columns(config, payload))),
        simple_columns(table_columns(config_columns(config, payload))),
{
    let kinds = config_columns(config, payload);
    let columns = table_columns(kinds);
    assert forall|i: int| 0 <= i < columns.len() implies begins_with_letter(
        #[trigger] columns[i].name,
    ) by {
        lemma_column_names(kinds[i], kinds[i]);
    }
    assert forall|i: int, j: int| 0 <= i < j < columns.len() implies #[trigger] columns[i].name
        != #[trigger] columns[j].name by {
        lemma_column_names(kinds[i], kinds[j]);
        lemma_config_kinds(config, payload, i, j);
    }
}

/// A payload that has bytes is stored without loss: a column of bytes holds them, and a column of
/// texts holds the text that they encode, if they are UTF-8.
pub proof fn lemma_payload_kept(message: ConsumedMessage, origin: RowOrigin)
    requires
        content_bytes(message.payload@) is Ok,
    ensures
        column_value(ColumnKind::BinaryPayload, message, origin) == Ok::<Cell, ConnectorFailure>(
            Cell::Blob(content_bytes(message.payload@)->Ok_0),
        ),
        column_value(ColumnKind::StringPayload, message, origin) is Ok <==> valid_utf8(
            content_bytes(message.payload@)->Ok_0,
        ),
        column_value(ColumnKind::StringPayload, message, origin) matches Ok(cell) ==> {
            &&& cell matches Cell::Text(text)
            &&& encode_utf8(text) == content_bytes(message.payload@)->Ok_0
        },
{
    if valid_utf8(content_bytes(message.payload@)->Ok_0) {
        decode_utf8_encode_utf8(content_bytes(message.payload@)->Ok_0);
    }
}

/// A payload that is a text is stored as that text in a column of texts.
pub proof fn lemma_text_kept(message: ConsumedMessage, text: Seq<char>, origin: RowOrigin)
    requires
        message.payload@ == Content::Text(text),
    ensures
        column_value(ColumnKind::StringPayload, message, origin) == Ok::<Cell, ConnectorFailure>(
            Cell::Text(text),
        ),
{
    encode_utf8_valid_utf8(text);
    encode_utf8_decode_utf8(text);
}

} // verus!
