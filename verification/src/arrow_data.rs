//! Arrow: schemas, the inference of a schema from JSON documents, and batches of rows.

use std::sync::Arc;

use arrow::array::{ArrayRef, BinaryArray, Int64Array, StringArray};
use arrow::datatypes::{DataType, Field, Schema};
use arrow::error::ArrowError;
use arrow::json::reader::{infer_json_schema_from_iterator, Decoder};
use arrow::json::ReaderBuilder;
use vstd::prelude::*;
use vstd::utf8::encode_utf8;

use crate::decimal::decimal_text;
use crate::json::{documents, float_text, serde_document, Json};

verus! {

/// A data type of Arrow. The other integers and floats, large texts and bytes, dates, times,
/// timestamps, durations and intervals are flat types; all remaining types are other ones. Both
/// are given by their `Debug` text, and so is the type of the keys of a dictionary.
pub enum ArrowType {
    Null,
    Boolean,
    Int64,
    Float64,
    Utf8,
    Binary,
    Flat(Seq<char>),
    FixedBytes(i32),
    Decimal(u8, i8),
    List(Box<ArrowField>),
    LargeList(Box<ArrowField>),
    Mapping(Box<ArrowField>, bool),
    Struct(Seq<ArrowField>),
    Dictionary(Seq<char>, Box<ArrowType>),
    Other(Seq<char>),
}

/// A field of an Arrow schema. What else it carries, such as metadata, is given as text, which is
/// empty where there is nothing else.
pub struct ArrowField {
    pub name: Seq<char>,
    pub data_type: ArrowType,
    pub nullable: bool,
    pub extra: Seq<char>,
}

/// Whether a data type is one that can be inferred from JSON documents.
pub open spec fn inferable(data_type: ArrowType) -> bool
    decreases data_type,
{
    match data_type {
        ArrowType::Null
        | ArrowType::Boolean
        | ArrowType::Int64
        | ArrowType::Float64
        | ArrowType::Utf8 => true,
        ArrowType::List(field) => inferable(field.data_type),
        ArrowType::Struct(fields) => forall|i: int|
            0 <= i < fields.len() ==> inferable((#[trigger] fields[i]).data_type),
        _ => false,
    }
}

/// Whether the data types of all fields can be inferred from JSON documents.
pub open spec fn all_inferable(fields: Seq<ArrowField>) -> bool {
    inferable(ArrowType::Struct(fields))
}

#[verifier::external_type_specification]
#[verifier::external_body]
pub struct ExSchema(arrow::datatypes::Schema);

#[verifier::external_type_specification]
#[verifier::external_body]
pub struct ExArrowField(arrow::datatypes::Field);

#[verifier::external_type_specification]
#[verifier::external_body]
pub struct ExArrowDataType(arrow::datatypes::DataType);

#[verifier::external_type_specification]
#[verifier::external_body]
pub struct ExDecoder(arrow::json::reader::Decoder);

/// The fields that an Arrow schema holds, in their order.
pub uninterp spec fn schema_fields(schema: arrow::datatypes::Schema) -> Seq<ArrowField>;

/// What an Arrow field holds.
pub uninterp spec fn arrow_field(field: arrow::datatypes::Field) -> ArrowField;

/// What an Arrow data type is.
pub uninterp spec fn arrow_type(data_type: arrow::datatypes::DataType) -> ArrowType;

/// What `infer_json_schema_from_iterator` infers from documents: the fields of the schema, or
/// the text of the error.
pub uninterp spec fn inferred(documents: Seq<Json>) -> Result<Seq<ArrowField>, Seq<char>>;

/// The documents that some serde_json values hold.
pub open spec fn serde_documents(values: Seq<serde_json::Value>) -> Seq<Json> {
    values.map_values(|value: serde_json::Value| serde_document(value))
}

/// `infer_json_schema_from_iterator` of arrow-json, handed the documents one after the other.
/// Inference yields nothing but nulls, booleans, 64-bit integers, floats, texts, lists and
/// structs.
#[verifier::external_body]
pub(crate) fn infer_schema(values: &Vec<serde_json::Value>) -> (schema: Result<Schema, String>)
    ensures
        match schema {
            Ok(schema) => {
                &&& inferred(serde_documents(values@)) == Ok::<Seq<ArrowField>, Seq<char>>(
                    schema_fields(schema),
                )
                &&& all_inferable(schema_fields(schema))
            },
            Err(error) => inferred(serde_documents(values@)) == Err::<Seq<ArrowField>, Seq<char>>(
                error@,
            ),
        },
{
    infer_json_schema_from_iterator(values.iter().map(Ok)).map_err(|error| error.to_string())
}

/// The text of an error from elsewhere that passed through Arrow.
pub open spec fn external_error(reason: Seq<char>) -> Seq<char> {
    "External error: "@ + reason
}

/// The text of `ArrowError::ExternalError`, which wraps an error from elsewhere.
#[verifier::external_body]
pub(crate) fn external_error_text(reason: &str) -> (text: String)
    ensures
        text@ == external_error(reason@),
{
    ArrowError::ExternalError(reason.into()).to_string()
}

/// The number of fields that `Schema::fields` holds.
#[verifier::external_body]
pub(crate) fn field_count(schema: &Schema) -> (count: usize)
    ensures
        count == schema_fields(*schema).len(),
{
    schema.fields().len()
}

/// A field of a schema, as `Schema::field` gives it.
#[verifier::external_body]
pub(crate) fn schema_field(schema: &Schema, index: usize) -> (field: &Field)
    requires
        index < schema_fields(*schema).len(),
    ensures
        arrow_field(*field) == schema_fields(*schema)[index as int],
{
    schema.field(index)
}

/// The name of a field, as `Field::name` gives it.
#[verifier::external_body]
pub(crate) fn field_name(field: &Field) -> (name: &str)
    ensures
        name@ == arrow_field(*field).name,
{
    field.name()
}

/// The data type of a field, as `Field::data_type` gives it.
#[verifier::external_body]
pub(crate) fn field_type(field: &Field) -> (data_type: &DataType)
    ensures
        arrow_type(*data_type) == arrow_field(*field).data_type,
{
    field.data_type()
}

/// What a data type is, one level deep. A leaf is any type but those that have a node of their
/// own.
pub enum TypeNode<'a> {
    FixedBytes(i32),
    Decimal(u8, i8),
    List(&'a Field),
    LargeList(&'a Field),
    Mapping(&'a Field, bool),
    Struct(Vec<&'a Field>),
    Leaf,
}

/// What some fields hold.
pub open spec fn arrow_fields_of(fields: Seq<&Field>) -> Seq<ArrowField> {
    fields.map_values(|field: &Field| arrow_field(*field))
}

/// Whether a data type is none of those that have a node of their own.
pub open spec fn is_leaf(data_type: ArrowType) -> bool {
    match data_type {
        ArrowType::FixedBytes(_)
        | ArrowType::Decimal(_, _)
        | ArrowType::List(_)
        | ArrowType::LargeList(_)
        | ArrowType::Mapping(_, _)
        | ArrowType::Struct(_) => false,
        _ => true,
    }
}

/// Tells the variants of `DataType` apart.
#[verifier::external_body]
pub(crate) fn open_type(data_type: &DataType) -> (node: TypeNode<'_>)
    ensures
        match node {
            TypeNode::FixedBytes(width) => arrow_type(*data_type) == ArrowType::FixedBytes(width),
            TypeNode::Decimal(precision, scale) => arrow_type(*data_type) == ArrowType::Decimal(
                precision,
                scale,
            ),
            TypeNode::List(field) => arrow_type(*data_type) == ArrowType::List(
                Box::new(arrow_field(*field)),
            ),
            TypeNode::LargeList(field) => arrow_type(*data_type) == ArrowType::LargeList(
                Box::new(arrow_field(*field)),
            ),
            TypeNode::Mapping(field, sorted) => arrow_type(*data_type) == ArrowType::Mapping(
                Box::new(arrow_field(*field)),
                sorted,
            ),
            TypeNode::Struct(fields) => arrow_type(*data_type) == ArrowType::Struct(
                arrow_fields_of(fields@),
            ),
            TypeNode::Leaf => is_leaf(arrow_type(*data_type)),
        },
{
    match data_type {
        DataType::FixedSizeBinary(width) => TypeNode::FixedBytes(*width),
        DataType::Decimal128(precision, scale) => TypeNode::Decimal(*precision, *scale),
        DataType::List(field) => TypeNode::List(field),
        DataType::LargeList(field) => TypeNode::LargeList(field),
        DataType::Map(field, sorted) => TypeNode::Mapping(field, *sorted),
        DataType::Struct(fields) => TypeNode::Struct(fields.iter().map(AsRef::as_ref).collect()),
        _ => TypeNode::Leaf,
    }
}

/// A cell of a batch: a text, a 64-bit integer or bytes. A cell of another type, or one that is
/// null, is given by its text.
pub enum Cell {
    Text(Seq<char>),
    Long(i64),
    Blob(Seq<u8>),
    Other(Seq<char>),
}

/// A column of a batch.
pub struct BatchColumn {
    pub name: Seq<char>,
    pub cells: Seq<Cell>,
}

/// An Arrow batch. In verified code only this module makes one.
#[verifier::external_body]
#[derive(Debug)]
pub struct ArrowBatch {
    pub record_batch: arrow::record_batch::RecordBatch,
}

/// The columns that a batch holds, in their order.
pub uninterp spec fn batch_columns(batch: ArrowBatch) -> Seq<BatchColumn>;

/// The fields of the schema of a batch, in their order.
pub uninterp spec fn batch_fields(batch: ArrowBatch) -> Seq<ArrowField>;

/// The number of rows that a batch holds.
pub uninterp spec fn batch_rows(batch: ArrowBatch) -> nat;

/// The number of rows of a batch, as `RecordBatch::num_rows` gives it.
#[verifier::external_body]
pub(crate) fn num_rows(batch: &ArrowBatch) -> (count: usize)
    ensures
        count == batch_rows(*batch),
{
    batch.record_batch.num_rows()
}

/// The cells of a column to be, all of one type.
pub enum ColumnData {
    Text(Vec<String>),
    Long(Vec<i64>),
    Blob(Vec<Vec<u8>>),
}

impl View for ColumnData {
    type V = Seq<Cell>;

    open spec fn view(&self) -> Seq<Cell> {
        match self {
            ColumnData::Text(texts) => texts@.map_values(|text: String| Cell::Text(text@)),
            ColumnData::Long(numbers) => numbers@.map_values(|number: i64| Cell::Long(number)),
            ColumnData::Blob(blobs) => blobs@.map_values(|blob: Vec<u8>| Cell::Blob(blob@)),
        }
    }
}

/// The number of bytes that a cell takes in the buffer of its column; integers stand in a
/// buffer of fixed width and take none.
pub open spec fn cell_bytes(cell: Cell) -> nat {
    match cell {
        Cell::Text(text) => encode_utf8(text).len(),
        Cell::Blob(bytes) => bytes.len(),
        _ => 0,
    }
}

/// The number of bytes that cells take in the buffer of their column.
pub open spec fn column_bytes(cells: Seq<Cell>) -> nat
    decreases cells.len(),
{
    if cells.len() == 0 {
        0
    } else {
        column_bytes(cells.drop_last()) + cell_bytes(cells.last())
    }
}

impl ColumnData {
    /// The Arrow type of the column.
    pub open spec fn arrow_type(self) -> ArrowType {
        match self {
            ColumnData::Text(_) => ArrowType::Utf8,
            ColumnData::Long(_) => ArrowType::Int64,
            ColumnData::Blob(_) => ArrowType::Binary,
        }
    }
}

/// Whether columns make a batch under a schema: one column for each field, of its type, all of
/// one length, and each no longer than offsets of 32 bits reach.
pub open spec fn make_batch(fields: Seq<ArrowField>, columns: Seq<ColumnData>) -> bool {
    &&& columns.len() == fields.len()
    &&& columns.len() > 0
    &&& forall|i: int|
        0 <= i < columns.len() ==> {
            &&& (#[trigger] columns[i]).arrow_type() == fields[i].data_type
            &&& columns[i]@.len() == columns[0]@.len()
            &&& column_bytes(columns[i]@) <= i32::MAX
        }
}

/// `RecordBatch::try_new`, with the columns as Arrow arrays: the batch has the schema that it is
/// given, and holds each column under the name of its field.
#[verifier::external_body]
pub(crate) fn record_batch(schema: Arc<Schema>, columns: Vec<ColumnData>) -> (batch: Result<
    ArrowBatch,
    String,
>)
    requires
        make_batch(schema_fields(*schema), columns@),
    ensures
        batch is Ok,
        batch_fields(batch->Ok_0) == schema_fields(*schema),
        batch_rows(batch->Ok_0) == columns@[0]@.len(),
        batch_columns(batch->Ok_0) == Seq::new(
            columns@.len(),
            |i: int|
                BatchColumn { name: schema_fields(*schema)[i].name, cells: columns@[i]@ },
        ),
{
    let arrays = columns.into_iter().map(
        |column| match column {
            ColumnData::Text(texts) => Arc::new(StringArray::from(texts)) as ArrayRef,
            ColumnData::Long(numbers) => Arc::new(Int64Array::from(numbers)),
            ColumnData::Blob(blobs) => Arc::new(BinaryArray::from_iter_values(blobs)),
        },
    );
    arrow::record_batch::RecordBatch::try_new(schema, arrays.collect()).map(
        |record_batch| ArrowBatch { record_batch },
    ).map_err(|error| error.to_string())
}

/// The fields that a decoder of JSON rows decodes to.
pub uninterp spec fn decoder_fields(decoder: arrow::json::reader::Decoder) -> Seq<ArrowField>;

/// How a decoder reads rows: whether a member that the schema lacks is an error, and whether a value
/// that does not fit its column is taken for null.
#[derive(Debug, Clone, Copy, PartialEq, Eq, Structural)]
pub struct ReaderModes {
    pub strict: bool,
    pub ignore_type_conflicts: bool,
}

/// How a decoder reads rows.
pub uninterp spec fn decoder_modes(decoder: arrow::json::reader::Decoder) -> ReaderModes;

/// The documents that a decoder has buffered; `None` where it stopped within one.
pub uninterp spec fn buffered(decoder: arrow::json::reader::Decoder) -> Option<Seq<Json>>;

/// Why no decoder can be built for some fields: the text of the error of
/// `ReaderBuilder::build_decoder`.
pub uninterp spec fn decoder_refusal(fields: Seq<ArrowField>) -> Option<Seq<char>>;

/// What `Decoder::flush` decodes buffered documents to: the columns of the batch, nothing where
/// no document is buffered, or the text of the error.
pub uninterp spec fn decoded(
    fields: Seq<ArrowField>,
    modes: ReaderModes,
    rows: Seq<Json>,
) -> Result<Option<Seq<BatchColumn>>, Seq<char>>;

/// Whether a data type has a decoder that is safe to use: nothing in it is of an other type, has a
/// negative width or has a negative scale.
pub open spec fn sound_type(data_type: ArrowType) -> bool
    decreases data_type,
{
    match data_type {
        ArrowType::FixedBytes(width) => width >= 0,
        ArrowType::Decimal(_, scale) => scale >= 0,
        ArrowType::List(field) => sound_type(field.data_type),
        ArrowType::LargeList(field) => sound_type(field.data_type),
        ArrowType::Mapping(field, _) => sound_type(field.data_type),
        ArrowType::Struct(fields) => forall|i: int|
            0 <= i < fields.len() ==> sound_type((#[trigger] fields[i]).data_type),
        ArrowType::Other(_) => false,
        _ => true,
    }
}

/// Whether the data types of all fields have decoders that are safe to use.
pub open spec fn sound_types(fields: Seq<ArrowField>) -> bool {
    sound_type(ArrowType::Struct(fields))
}

/// Whether a data type is made of nulls, booleans, 64-bit integers, floats, texts, bytes,
/// decimals, lists and structs alone: types for which there always is a decoder.
pub open spec fn common_type(data_type: ArrowType) -> bool
    decreases data_type,
{
    match data_type {
        ArrowType::Null
        | ArrowType::Boolean
        | ArrowType::Int64
        | ArrowType::Float64
        | ArrowType::Utf8
        | ArrowType::Binary
        | ArrowType::FixedBytes(_)
        | ArrowType::Decimal(_, _) => true,
        ArrowType::List(field) => common_type(field.data_type),
        ArrowType::LargeList(field) => common_type(field.data_type),
        ArrowType::Struct(fields) => forall|i: int|
            0 <= i < fields.len() ==> common_type((#[trigger] fields[i]).data_type),
        _ => false,
    }
}

/// Whether the field at `index` is the first of its name.
pub open spec fn first_named(fields: Seq<ArrowField>, index: int) -> bool {
    forall|i: int| 0 <= i < index ==> (#[trigger] fields[i]).name != fields[index].name
}

/// Whether a value fits the decoder of a data type: a value of fixed-size bytes is a text or null,
/// and the text of a decimal can be read without an overflow.
pub open spec fn fits(data_type: ArrowType, document: Json) -> bool {
    match data_type {
        ArrowType::FixedBytes(_) => document is Text || document is Null,
        ArrowType::Decimal(precision, scale) => match document {
            Json::Text(text) => decimal_text(text, precision as int, scale as int),
            Json::Float(bits) => decimal_text(float_text(bits), precision as int, scale as int),
            _ => true,
        },
        _ => true,
    }
}

/// Whether the member at `member` comes to stand in the field at `field`. Of several members of one
/// name, the last one does; of several fields of one name, the first one takes it.
pub open spec fn takes(
    fields: Seq<ArrowField>,
    members: Seq<(Seq<char>, Json)>,
    field: int,
    member: int,
) -> bool {
    &&& 0 <= field < fields.len()
    &&& 0 <= member < members.len()
    &&& fields[field].name == members[member].0
    &&& first_named(fields, field)
    &&& forall|k: int| member < k < members.len() ==> (#[trigger] members[k]).0 != members[member].0
}

/// Whether a test holds of all values of a document, each with the data type of the column in which
/// it comes to stand.
pub open spec fn every_value(
    data_type: ArrowType,
    document: Json,
    test: spec_fn(ArrowType, Json) -> bool,
) -> bool
    decreases data_type,
{
    &&& test(data_type, document)
    &&& match data_type {
        ArrowType::List(field) => match document {
            Json::Array(items) => (forall|i: int|
                0 <= i < items.len() ==> every_value(field.data_type, #[trigger] items[i], test)),
            _ => true,
        },
        ArrowType::LargeList(field) => match document {
            Json::Array(items) => (forall|i: int|
                0 <= i < items.len() ==> every_value(field.data_type, #[trigger] items[i], test)),
            _ => true,
        },
        ArrowType::Mapping(field, _) => match (field.data_type, document) {
            (ArrowType::Struct(pair), Json::Object(members)) => pair.len() == 2 ==> (forall|i: int|
                0 <= i < members.len() ==> {
                    &&& test(pair[0].data_type, Json::Text((#[trigger] members[i]).0))
                    &&& every_value(pair[1].data_type, members[i].1, test)
                }),
            _ => true,
        },
        ArrowType::Struct(fields) => match document {
            Json::Object(members) => (forall|i: int, j: int| #[trigger]
                takes(fields, members, i, j) ==> every_value(
                    fields[i].data_type,
                    members[j].1,
                    test,
                )),
            _ => true,
        },
        _ => true,
    }
}

/// The test whether a value fits the decoder of its column.
pub open spec fn fitting() -> spec_fn(ArrowType, Json) -> bool {
    |data_type: ArrowType, value: Json| fits(data_type, value)
}

/// Whether all values of a document fit the decoders of their columns.
pub open spec fn decodable(data_type: ArrowType, document: Json) -> bool {
    every_value(data_type, document, fitting())
}

/// Whether all values of some documents fit the decoders of their columns.
pub open spec fn all_decodable(fields: Seq<ArrowField>, rows: Seq<Json>) -> bool {
    forall|i: int|
        0 <= i < rows.len() ==> decodable(ArrowType::Struct(fields), #[trigger] rows[i])
}

/// A text that is refused as fixed-size bytes and as a decimal.
pub open spec fn refused_text() -> Seq<char> {
    "?"@
}

/// The test whether a value is anything but the refused text in a column of fixed-size bytes or of
/// decimals.
pub open spec fn unrefused() -> spec_fn(ArrowType, Json) -> bool {
    |data_type: ArrowType, value: Json|
        !(value == Json::Text(refused_text()) && (data_type is FixedBytes || data_type is Decimal))
}

/// Whether no value of some documents is the refused text in such a column.
pub open spec fn all_unrefused(fields: Seq<ArrowField>, rows: Seq<Json>) -> bool {
    forall|i: int|
        0 <= i < rows.len() ==> every_value(
            ArrowType::Struct(fields),
            #[trigger] rows[i],
            unrefused(),
        )
}

/// `ReaderBuilder::build_decoder`: a decoder of JSON rows with nothing buffered, in the given modes
/// of `with_strict_mode` and `with_ignore_type_conflicts`. For common types there always is a
/// decoder; whether there is one depends on the types alone.
#[verifier::external_body]
pub(crate) fn new_decoder(schema: Arc<Schema>, modes: ReaderModes) -> (decoder: Result<
    Decoder,
    String,
>)
    requires
        sound_types(schema_fields(*schema)),
    ensures
        match decoder {
            Ok(decoder) => {
                &&& decoder_refusal(schema_fields(*schema)) is None
                &&& decoder_fields(decoder) == schema_fields(*schema)
                &&& decoder_modes(decoder) == modes
                &&& buffered(decoder) == Some(Seq::<Json>::empty())
            },
            Err(error) => decoder_refusal(schema_fields(*schema)) == Some(error@),
        },
        common_type(ArrowType::Struct(schema_fields(*schema))) ==> decoder is Ok,
{
    ReaderBuilder::new(schema).with_strict_mode(modes.strict).with_ignore_type_conflicts(
        modes.ignore_type_conflicts,
    ).build_decoder().map_err(|error| error.to_string())
}

/// `Decoder::serialize`: buffers documents. It fails within a document that was fed as text, and
/// on a row whose own serialization fails; a simd-json document is written as nulls, booleans,
/// numbers, texts, sequences and maps, all of which the decoder takes.
#[verifier::external_body]
pub(crate) fn buffer_rows(decoder: &mut Decoder, rows: &Vec<simd_json::OwnedValue>) -> (outcome:
    Result<(), String>)
    requires
        buffered(*old(decoder)) is Some,
    ensures
        outcome is Ok,
        decoder_fields(*final(decoder)) == decoder_fields(*old(decoder)),
        decoder_modes(*final(decoder)) == decoder_modes(*old(decoder)),
        buffered(*final(decoder)) == Some(buffered(*old(decoder))->0 + documents(rows@)),
{
    decoder.serialize(rows.as_slice()).map_err(|error| error.to_string())
}

/// Whether columns are those of fields, by their names and in their order, with `count` cells
/// each.
pub open spec fn columns_of(
    fields: Seq<ArrowField>,
    columns: Seq<BatchColumn>,
    count: nat,
) -> bool {
    &&& columns.len() == fields.len()
    &&& forall|i: int|
        0 <= i < columns.len() ==> {
            &&& (#[trigger] columns[i]).name == fields[i].name
            &&& columns[i].cells.len() == count
        }
}

/// `Decoder::flush`: decodes what is buffered into a batch under the schema of the decoder, with one
/// column for each field and one row for each document, and into nothing where no document is
/// buffered. It panics on a negative width, on a value of fixed-size bytes that is neither a text
/// nor null, and on a text that its parser of decimals cannot read without an overflow. Where it
/// does not take values that do not fit for null, it fails on the refused text.
#[verifier::external_body]
pub(crate) fn flush_rows(decoder: &mut Decoder) -> (batch: Result<Option<ArrowBatch>, String>)
    requires
        buffered(*old(decoder)) is Some,
        sound_types(decoder_fields(*old(decoder))),
        all_decodable(decoder_fields(*old(decoder)), buffered(*old(decoder))->0),
    ensures
        ({
            let rows = buffered(*old(decoder))->0;
            let fields = decoder_fields(*old(decoder));
            let expected = decoded(fields, decoder_modes(*old(decoder)), rows);
            match batch {
                Ok(Some(batch)) => {
                    &&& expected == Ok::<Option<Seq<BatchColumn>>, Seq<char>>(
                        Some(batch_columns(batch)),
                    )
                    &&& batch_fields(batch) == fields
                    &&& columns_of(fields, batch_columns(batch), rows.len())
                    &&& batch_rows(batch) == rows.len()
                    &&& rows.len() > 0
                },
                Ok(None) => {
                    &&& expected == Ok::<Option<Seq<BatchColumn>>, Seq<char>>(None)
                    &&& rows.len() == 0
                },
                Err(error) => {
                    &&& expected == Err::<Option<Seq<BatchColumn>>, Seq<char>>(error@)
                    &&& rows.len() > 0
                },
            }
        }),
        !decoder_modes(*old(decoder)).ignore_type_conflicts && !all_unrefused(
            decoder_fields(*old(decoder)),
            buffered(*old(decoder))->0,
        ) ==> batch is Err,
{
    decoder.flush().map(|flushed| flushed.map(|record_batch| ArrowBatch { record_batch })).map_err(
        |error| error.to_string(),
    )
}

} // verus!
