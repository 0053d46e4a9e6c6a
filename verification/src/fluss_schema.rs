//! Fluss: data types, schemas, table descriptors and rows.

use std::sync::Arc;

use arrow::datatypes::{Field, Schema as ArrowSchema};
use fluss::metadata::{
    DataField, DataType, RowType, Schema, SchemaBuilder, TableDescriptor, TableInfo,
};
use fluss::row::GenericRow;
use vstd::prelude::*;

use crate::arrow_data::{arrow_field, schema_fields, sound_types, ArrowField, ArrowType, Cell};

verus! {

/// A data type of Fluss.
pub struct FlussType {
    pub kind: FlussKind,
    pub nullable: bool,
}

/// The kind of a data type. Lengths, precisions and scales are given as numbers, and a row by
/// the names and the types of its fields.
pub enum FlussKind {
    Boolean,
    TinyInt,
    SmallInt,
    Int,
    BigInt,
    Float,
    Double,
    Char(nat),
    String,
    Decimal(nat, nat),
    Date,
    Time(nat),
    Timestamp(nat),
    TimestampLtz(nat),
    Bytes,
    Binary(nat),
    Array(Box<FlussType>),
    Mapping(Box<FlussType>, Box<FlussType>),
    Row(Seq<FlussColumn>),
}

/// A column of a table, or a field of a row.
pub struct FlussColumn {
    pub name: Seq<char>,
    pub data_type: FlussType,
}

/// The nullable type of a kind.
pub open spec fn nullable(kind: FlussKind) -> FlussType {
    FlussType { kind, nullable: true }
}

/// Whether a type holds no other types.
pub open spec fn scalar(data_type: FlussType) -> bool {
    !(data_type.kind is Array || data_type.kind is Mapping || data_type.kind is Row)
}

/// Whether a text begins with an ASCII letter.
pub open spec fn begins_with_letter(text: Seq<char>) -> bool {
    text.len() > 0 && ('a' <= text[0] <= 'z' || 'A' <= text[0] <= 'Z')
}

#[verifier::external_type_specification]
#[verifier::external_body]
pub struct ExDataType(fluss::metadata::DataType);

#[verifier::external_type_specification]
#[verifier::external_body]
pub struct ExDataField(fluss::metadata::DataField);

#[verifier::external_type_specification]
#[verifier::external_body]
pub struct ExRowType(fluss::metadata::RowType);

#[verifier::external_type_specification]
#[verifier::external_body]
pub struct ExSchemaBuilder(fluss::metadata::SchemaBuilder);

#[verifier::external_type_specification]
#[verifier::external_body]
pub struct ExFlussSchema(fluss::metadata::Schema);

#[verifier::external_type_specification]
#[verifier::external_body]
pub struct ExTableDescriptor(fluss::metadata::TableDescriptor);

#[verifier::external_type_specification]
#[verifier::external_body]
pub struct ExTableInfo(fluss::metadata::TableInfo);

#[verifier::external_type_specification]
#[verifier::external_body]
pub struct ExGenericRow<'a>(fluss::row::GenericRow<'a>);

/// What a Fluss data type is.
pub uninterp spec fn fluss_type(data_type: fluss::metadata::DataType) -> FlussType;

/// The name and the type that a field holds.
pub uninterp spec fn field_column(field: fluss::metadata::DataField) -> FlussColumn;

/// The fields that a row type holds, in their order.
pub uninterp spec fn row_columns(row_type: fluss::metadata::RowType) -> Seq<FlussColumn>;

/// What a schema builder was given: columns, and the names of the columns of a primary key.
pub struct SchemaParts {
    pub columns: Seq<FlussColumn>,
    pub key: Option<Seq<Seq<char>>>,
}

/// The columns and the primary key that a schema builder was given; `None` where it was given
/// anything else.
pub uninterp spec fn builder_parts(builder: fluss::metadata::SchemaBuilder) -> Option<SchemaParts>;

/// The columns and the primary key that a schema holds.
pub uninterp spec fn schema_parts(schema: fluss::metadata::Schema) -> SchemaParts;

/// How a table is spread over buckets.
pub struct Distribution {
    pub bucket_count: Option<i32>,
    pub bucket_keys: Seq<Seq<char>>,
}

/// What a table descriptor holds.
pub struct TableParts {
    pub columns: Seq<FlussColumn>,
    pub key: Option<Seq<Seq<char>>>,
    pub comment: Option<Seq<char>>,
    pub partition_keys: Seq<Seq<char>>,
    pub distribution: Option<Distribution>,
    pub properties: Map<Seq<char>, Seq<char>>,
    pub custom_properties: Map<Seq<char>, Seq<char>>,
}

/// What a table descriptor holds.
pub uninterp spec fn table_parts(descriptor: fluss::metadata::TableDescriptor) -> TableParts;

/// A table of which nothing is said but its schema and a comment. With a primary key, it is spread
/// by that key.
pub open spec fn plain_table(schema: SchemaParts, comment: Option<Seq<char>>) -> TableParts {
    TableParts {
        columns: schema.columns,
        key: schema.key,
        comment,
        partition_keys: Seq::empty(),
        distribution: match schema.key {
            Some(names) => Some(Distribution { bucket_count: None, bucket_keys: names }),
            None => None,
        },
        properties: Map::empty(),
        custom_properties: Map::empty(),
    }
}

/// What a schema holds that was built from columns and a primary key.
pub open spec fn built_parts(parts: SchemaParts) -> SchemaParts {
    SchemaParts { columns: keyed_columns(parts), key: parts.key }
}

/// The fields that the row type of a table holds, in their order.
pub uninterp spec fn info_columns(info: fluss::metadata::TableInfo) -> Seq<FlussColumn>;

/// What `TableInfo::to_table_descriptor` describes a table by: what the descriptor holds, or the
/// text of the error.
pub uninterp spec fn described(info: fluss::metadata::TableInfo) -> Result<TableParts, Seq<char>>;

/// The values that a row holds, in their order.
pub uninterp spec fn row_values(row: fluss::row::GenericRow<'static>) -> Seq<Cell>;

/// What `from_arrow_field` makes of the type of an Arrow field: a Fluss type, or the text of the
/// error.
pub uninterp spec fn fluss_field_type(field: ArrowField) -> Result<FlussType, Seq<char>>;

/// What `to_arrow_schema` makes of the fields of a row type: the fields of an Arrow schema, or
/// the text of the error.
pub uninterp spec fn arrow_fields(columns: Seq<FlussColumn>) -> Result<Seq<ArrowField>, Seq<char>>;

/// Whether `SchemaBuilder::build` accepts columns and a primary key.
pub uninterp spec fn schema_accepted(parts: SchemaParts) -> bool;

/// The columns of a schema with a primary key: those of the key cannot be null.
pub open spec fn keyed_columns(parts: SchemaParts) -> Seq<FlussColumn> {
    match parts.key {
        None => parts.columns,
        Some(names) => parts.columns.map_values(
            |column: FlussColumn|
                if names.contains(column.name) {
                    FlussColumn {
                        name: column.name,
                        data_type: FlussType { kind: column.data_type.kind, nullable: false },
                    }
                } else {
                    column
                },
        ),
    }
}

/// Whether the names of columns begin with letters and differ from each other, and their types
/// hold no other types.
pub open spec fn plain_columns(columns: Seq<FlussColumn>) -> bool {
    &&& forall|i: int|
        0 <= i < columns.len() ==> {
            &&& begins_with_letter(#[trigger] columns[i].name)
            &&& scalar(columns[i].data_type)
        }
    &&& forall|i: int, j: int|
        0 <= i < j < columns.len() ==> #[trigger] columns[i].name != #[trigger] columns[j].name
}

/// The Arrow type of a text, of a 64-bit integer and of bytes; nothing is said here of others.
pub open spec fn simple_arrow_type(kind: FlussKind) -> Option<ArrowType> {
    match kind {
        FlussKind::String => Some(ArrowType::Utf8),
        FlussKind::BigInt => Some(ArrowType::Int64),
        FlussKind::Bytes => Some(ArrowType::Binary),
        _ => None,
    }
}

/// Whether all columns are texts, 64-bit integers or bytes.
pub open spec fn simple_columns(columns: Seq<FlussColumn>) -> bool {
    forall|i: int|
        0 <= i < columns.len() ==> simple_arrow_type(
            #[trigger] columns[i].data_type.kind,
        ) is Some
}

/// The Arrow fields of columns that are texts, 64-bit integers or bytes.
pub open spec fn simple_arrow_fields(columns: Seq<FlussColumn>) -> Seq<ArrowField> {
    columns.map_values(
        |column: FlussColumn|
            ArrowField {
                name: column.name,
                data_type: simple_arrow_type(column.data_type.kind)->0,
                nullable: column.data_type.nullable,
                extra: Seq::empty(),
            },
    )
}

/// `DataTypes::string`: the type of nullable texts.
pub assume_specification[ fluss::metadata::DataTypes::string ]() -> (data_type:
    fluss::metadata::DataType)
    ensures
        fluss_type(data_type) == nullable(FlussKind::String),
;

/// `DataTypes::bigint`: the type of nullable 64-bit integers.
pub assume_specification[ fluss::metadata::DataTypes::bigint ]() -> (data_type:
    fluss::metadata::DataType)
    ensures
        fluss_type(data_type) == nullable(FlussKind::BigInt),
;

/// `DataTypes::bytes`: the type of nullable byte strings.
pub assume_specification[ fluss::metadata::DataTypes::bytes ]() -> (data_type:
    fluss::metadata::DataType)
    ensures
        fluss_type(data_type) == nullable(FlussKind::Bytes),
;

/// Whether Fluss can be asked for the type that an Arrow type has: the precision and the scale of
/// no decimal in it are beyond those of Fluss. A negative scale is refused by an error.
pub open spec fn convertible(data_type: ArrowType) -> bool
    decreases data_type,
{
    match data_type {
        ArrowType::Decimal(precision, scale) => scale < 0 || (1 <= precision <= 38 && scale
            <= precision),
        ArrowType::List(field) => convertible(field.data_type),
        ArrowType::LargeList(field) => convertible(field.data_type),
        ArrowType::Mapping(field, _) => match field.data_type {
            ArrowType::Struct(pair) => pair.len() == 2 ==> convertible(pair[0].data_type)
                && convertible(pair[1].data_type),
            _ => true,
        },
        ArrowType::Struct(fields) => forall|i: int|
            0 <= i < fields.len() ==> convertible((#[trigger] fields[i]).data_type),
        ArrowType::Dictionary(_, value) => convertible(*value),
        _ => true,
    }
}

/// `from_arrow_field`: the Fluss type of an Arrow field. It panics on a decimal that Fluss has not.
#[verifier::external_body]
pub(crate) fn from_arrow_field(field: &Field) -> (data_type: Result<DataType, String>)
    requires
        convertible(arrow_field(*field).data_type),
    ensures
        match data_type {
            Ok(data_type) => fluss_field_type(arrow_field(*field)) == Ok::<FlussType, Seq<char>>(
                fluss_type(data_type),
            ),
            Err(error) => fluss_field_type(arrow_field(*field)) == Err::<FlussType, Seq<char>>(
                error@,
            ),
        },
{
    fluss::record::from_arrow_field(field).map_err(|error| error.to_string())
}

/// `DataField::new`: a field without a description.
#[verifier::external_body]
pub(crate) fn new_field(name: &str, data_type: DataType) -> (field: DataField)
    ensures
        field_column(field) == (FlussColumn { name: name@, data_type: fluss_type(data_type) }),
{
    DataField::new(name, data_type, None)
}

/// `RowType::new`: the row type with the given fields.
#[verifier::external_body]
pub(crate) fn new_row_type(fields: Vec<DataField>) -> (row_type: RowType)
    ensures
        row_columns(row_type) == fields@.map_values(|field: DataField| field_column(field)),
{
    RowType::new(fields)
}

/// `SchemaBuilder::new`: a builder that was given nothing.
#[verifier::external_body]
pub(crate) fn new_schema_builder() -> (builder: SchemaBuilder)
    ensures
        builder_parts(builder) == Some(
            SchemaParts { columns: Seq::empty(), key: None },
        ),
{
    SchemaBuilder::new()
}

/// `SchemaBuilder::column`: adds a column.
#[verifier::external_body]
pub(crate) fn add_column(builder: SchemaBuilder, name: &str, data_type: DataType) -> (extended:
    SchemaBuilder)
    requires
        builder_parts(builder) is Some,
    ensures
        builder_parts(extended) == Some(
            SchemaParts {
                columns: builder_parts(builder).unwrap().columns.push(
                    FlussColumn { name: name@, data_type: fluss_type(data_type) },
                ),
                key: builder_parts(builder).unwrap().key,
            },
        ),
{
    builder.column(name, data_type)
}

/// `SchemaBuilder::with_row_type`: adds the fields of a row type as columns.
#[verifier::external_body]
pub(crate) fn add_row_type(builder: SchemaBuilder, row_type: RowType) -> (extended: SchemaBuilder)
    requires
        builder_parts(builder) is Some,
    ensures
        builder_parts(extended) == Some(
            SchemaParts {
                columns: builder_parts(builder).unwrap().columns + row_columns(row_type),
                key: builder_parts(builder).unwrap().key,
            },
        ),
{
    builder.with_row_type(&DataType::Row(row_type))
}

/// The views of some texts.
pub open spec fn texts(strings: Seq<String>) -> Seq<Seq<char>> {
    strings.map_values(|string: String| string@)
}

/// `SchemaBuilder::primary_key`: sets the primary key of a builder that has none.
#[verifier::external_body]
pub(crate) fn set_primary_key(builder: SchemaBuilder, names: Vec<String>) -> (extended: Result<
    SchemaBuilder,
    String,
>)
    requires
        builder_parts(builder) is Some,
        builder_parts(builder).unwrap().key is None,
    ensures
        extended is Ok,
        builder_parts(extended->Ok_0) == Some(
            SchemaParts {
                columns: builder_parts(builder).unwrap().columns,
                key: Some(texts(names@)),
            },
        ),
{
    builder.primary_key(names).map_err(|error| error.to_string())
}

/// `SchemaBuilder::build`: the schema with the columns and the key of the builder; a key without
/// columns is refused. Whether it is built depends on the columns and the key alone, and plain
/// columns without a key are accepted. Nothing is said of the text of the error: it lists
/// duplicate names in the order of a hash set.
#[verifier::external_body]
pub(crate) fn build_schema(builder: SchemaBuilder) -> (schema: Result<Schema, String>)
    requires
        builder_parts(builder) is Some,
    ensures
        schema is Ok <==> schema_accepted(builder_parts(builder).unwrap()),
        builder_parts(builder).unwrap().key is None && plain_columns(
            builder_parts(builder).unwrap().columns,
        ) ==> schema is Ok,
        schema matches Ok(schema) ==> {
            &&& schema_parts(schema) == built_parts(builder_parts(builder).unwrap())
            &&& schema_parts(schema).key matches Some(names) ==> names.len() > 0
        },
{
    builder.build().map_err(|error| error.to_string())
}

/// `TableDescriptorBuilder::build` with a schema alone: it fails for want of a schema, and for a
/// primary key without columns.
#[verifier::external_body]
pub(crate) fn describe(schema: Schema) -> (descriptor: Result<TableDescriptor, String>)
    requires
        schema_parts(schema).key matches Some(names) ==> names.len() > 0,
    ensures
        descriptor is Ok,
        table_parts(descriptor->Ok_0) == plain_table(schema_parts(schema), None),
{
    TableDescriptor::builder().schema(schema).build().map_err(|error| error.to_string())
}

/// `TableDescriptorBuilder::build` with a comment and a schema; it fails as little as without the
/// comment.
#[verifier::external_body]
pub(crate) fn describe_with_comment(comment: &str, schema: Schema) -> (descriptor: Result<
    TableDescriptor,
    String,
>)
    requires
        schema_parts(schema).key matches Some(names) ==> names.len() > 0,
    ensures
        descriptor is Ok,
        table_parts(descriptor->Ok_0) == plain_table(schema_parts(schema), Some(comment@)),
{
    TableDescriptor::builder().comment(comment).schema(schema).build().map_err(
        |error| error.to_string(),
    )
}

/// The row type of a described table, as `TableDescriptor::schema` and `Schema::row_type` give
/// it: its fields are the columns of the table.
#[verifier::external_body]
pub(crate) fn descriptor_row_type(descriptor: &TableDescriptor) -> (row_type: &RowType)
    ensures
        row_columns(*row_type) == table_parts(*descriptor).columns,
{
    descriptor.schema().row_type()
}

/// `to_arrow_schema`: the Arrow schema of a row type. Its types are among those that have decoders
/// that are safe to use. The Arrow schema of texts, 64-bit integers and bytes always exists.
#[verifier::external_body]
pub(crate) fn to_arrow_schema(row_type: &RowType) -> (schema: Result<Arc<ArrowSchema>, String>)
    ensures
        match schema {
            Ok(schema) => {
                &&& arrow_fields(row_columns(*row_type)) == Ok::<Seq<ArrowField>, Seq<char>>(
                    schema_fields(*schema),
                )
                &&& sound_types(schema_fields(*schema))
            },
            Err(error) => arrow_fields(row_columns(*row_type)) == Err::<
                Seq<ArrowField>,
                Seq<char>,
            >(error@),
        },
        simple_columns(row_columns(*row_type)) ==> {
            &&& schema is Ok
            &&& schema_fields(*schema->Ok_0) == simple_arrow_fields(row_columns(*row_type))
        },
{
    fluss::record::to_arrow_schema(row_type).map_err(|error| error.to_string())
}

/// `TableInfo::to_table_descriptor`: describes a table that exists.
#[verifier::external_body]
pub(crate) fn describe_table(info: &TableInfo) -> (descriptor: Result<TableDescriptor, String>)
    ensures
        match descriptor {
            Ok(descriptor) => described(*info) == Ok::<TableParts, Seq<char>>(
                table_parts(descriptor),
            ),
            Err(error) => described(*info) == Err::<TableParts, Seq<char>>(error@),
        },
{
    info.to_table_descriptor().map_err(|error| error.to_string())
}

/// The row type of a table that exists, as `TableInfo::row_type` gives it.
#[verifier::external_body]
pub(crate) fn info_row_type(info: &TableInfo) -> (row_type: &RowType)
    ensures
        row_columns(*row_type) == info_columns(*info),
{
    info.row_type()
}

/// A value of a row: a text, a 64-bit integer or bytes.
#[derive(Debug, Clone, PartialEq, Eq)]
pub enum Datum {
    Text(String),
    Long(i64),
    Blob(Vec<u8>),
}

impl View for Datum {
    type V = Cell;

    open spec fn view(&self) -> Cell {
        match self {
            Datum::Text(text) => Cell::Text(text@),
            Datum::Long(number) => Cell::Long(*number),
            Datum::Blob(bytes) => Cell::Blob(bytes@),
        }
    }
}

/// What some values are.
pub open spec fn cells(values: Seq<Datum>) -> Seq<Cell> {
    values.map_values(|value: Datum| value@)
}

/// `GenericRow::from_data`: the row with the given values.
#[verifier::external_body]
pub(crate) fn generic_row(values: Vec<Datum>) -> (row: GenericRow<'static>)
    ensures
        row_values(row) == cells(values@),
{
    let data = values.into_iter().map(
        |value| match value {
            Datum::Text(text) => fluss::row::Datum::from(text),
            Datum::Long(number) => fluss::row::Datum::from(number),
            Datum::Blob(bytes) => fluss::row::Datum::Blob(bytes.into()),
        },
    );
    GenericRow::from_data(data.collect::<Vec<fluss::row::Datum<'static>>>())
}

} // verus!
