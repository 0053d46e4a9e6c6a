//! The catalog of the tables whose schemas are known, and how a schema becomes known: from the
//! layout of the table, from the table itself, or from a sample of messages.

use std::sync::Arc;

use arrow::datatypes::Schema;
use fluss::metadata::{DataField, RowType, TableDescriptor, TableInfo};
use vstd::prelude::*;

use crate::arrow_data::{
    all_inferable, external_error, external_error_text, field_count, field_name, infer_schema,
    inferred, schema_field, schema_fields, serde_documents, sound_types, ArrowField, ArrowType,
};
use crate::decoding::lemma_inferred_decodable;
use crate::fluss_schema::{
    add_row_type, arrow_fields, build_schema, builder_parts, built_parts, convertible,
    describe_table, describe_with_comment, described, descriptor_row_type, field_column,
    fluss_field_type, from_arrow_field, info_columns, info_row_type, keyed_columns, new_field,
    new_row_type, new_schema_builder, plain_table, row_columns, schema_accepted,
    simple_arrow_fields, table_parts, to_arrow_schema, FlussColumn, SchemaParts, TableParts,
};
use crate::json::{converted, serde_document, to_serde, Json};
use crate::message::{ConsumedMessage, Content, Payload};
use crate::schema::{table_columns, ColumnKind, FlussTableLayout};
use crate::table_path::{path_text, TablePath};
use crate::text::{decimal, decimal_digits};
use crate::writer::{WriterError, WriterFailure};

verus! {

/// Why the schema of a table did not become known.
#[derive(Debug)]
pub enum SchemaCatalogError {
    Writer(WriterError),
    SampleFailed { reason: String },
    BuildTableDescriptor { table_path: TablePath, reason: String },
    ArrowSchemaToFlussRowType { table_path: TablePath, reason: String },
    FlussToArrowSchemaFailed { reason: String },
}

/// What a [`SchemaCatalogError`] says.
pub enum CatalogFailure {
    Writer(WriterFailure),
    SampleFailed(Seq<char>),
    BuildTableDescriptor((Seq<char>, Seq<char>), Seq<char>),
    ArrowSchemaToFlussRowType((Seq<char>, Seq<char>), Seq<char>),
    FlussToArrowSchemaFailed(Seq<char>),
}

impl View for SchemaCatalogError {
    type V = CatalogFailure;

    open spec fn view(&self) -> CatalogFailure {
        match self {
            SchemaCatalogError::Writer(error) => CatalogFailure::Writer(error@),
            SchemaCatalogError::SampleFailed { reason } => CatalogFailure::SampleFailed(reason@),
            SchemaCatalogError::BuildTableDescriptor {
                table_path,
                reason,
            } => CatalogFailure::BuildTableDescriptor(table_path@, reason@),
            SchemaCatalogError::ArrowSchemaToFlussRowType {
                table_path,
                reason,
            } => CatalogFailure::ArrowSchemaToFlussRowType(table_path@, reason@),
            SchemaCatalogError::FlussToArrowSchemaFailed {
                reason,
            } => CatalogFailure::FlussToArrowSchemaFailed(reason@),
        }
    }
}

impl CatalogFailure {
    /// The failure in words.
    pub open spec fn message(self) -> Seq<char> {
        match self {
            CatalogFailure::Writer(failure) => failure.message(),
            CatalogFailure::SampleFailed(reason) =>
                "Sampling has failed for messages. Can not create arrow schema because of ["@
                    + reason + "]"@,
            CatalogFailure::BuildTableDescriptor(path, reason) =>
                "Failed to build Fluss table descriptor for table "@ + path_text(path) + ": "@
                    + reason,
            CatalogFailure::ArrowSchemaToFlussRowType(path, reason) =>
                "Failed to convert arrow Schema to fluss RowType for table "@ + path_text(path)
                    + " because of: "@ + reason,
            CatalogFailure::FlussToArrowSchemaFailed(reason) =>
                "Failed to convert Fluss schema to Arrow schema because: "@ + reason,
        }
    }
}

impl SchemaCatalogError {
    /// The error in words.
    pub fn message(&self) -> (text: String)
        ensures
            text@ == self@.message(),
    {
        match self {
            SchemaCatalogError::Writer(error) => error.message(),
            SchemaCatalogError::SampleFailed {
                reason,
            } => "Sampling has failed for messages. Can not create arrow schema because of [".to_owned().concat(
            reason.as_str()).concat("]"),
            SchemaCatalogError::BuildTableDescriptor {
                table_path,
                reason,
            } => "Failed to build Fluss table descriptor for table ".to_owned().concat(
                table_path.to_text().as_str(),
            ).concat(": ").concat(reason.as_str()),
            SchemaCatalogError::ArrowSchemaToFlussRowType {
                table_path,
                reason,
            } => "Failed to convert arrow Schema to fluss RowType for table ".to_owned().concat(
                table_path.to_text().as_str(),
            ).concat(" because of: ").concat(reason.as_str()),
            SchemaCatalogError::FlussToArrowSchemaFailed {
                reason,
            } => "Failed to convert Fluss schema to Arrow schema because: ".to_owned().concat(
                reason.as_str(),
            ),
        }
    }
}

/// What is known of a table: the schema of its batches and its descriptor.
#[derive(Debug)]
pub struct SchemaEntry {
    schema: Arc<Schema>,
    table_descriptor: Arc<TableDescriptor>,
}

/// What can be known of a table: the fields of the schema of its batches, and what its descriptor
/// holds.
pub struct TableSchema {
    pub fields: Seq<ArrowField>,
    pub table: TableParts,
}

impl SchemaEntry {
    /// The schema of the batches of the table.
    pub closed spec fn arrow_schema(self) -> Schema {
        *self.schema
    }

    /// The descriptor of the table.
    pub closed spec fn descriptor(self) -> TableDescriptor {
        *self.table_descriptor
    }

    /// The fields of the schema, and what the descriptor holds.
    pub open spec fn content(self) -> TableSchema {
        TableSchema {
            fields: schema_fields(self.arrow_schema()),
            table: table_parts(self.descriptor()),
        }
    }

    /// There are decoders for the types of the schema that are safe to use.
    #[verifier::type_invariant]
    spec fn sound(self) -> bool {
        sound_types(schema_fields(*self.schema))
    }

    /// The schema of the batches of the table.
    pub fn schema(&self) -> (schema: &Arc<Schema>)
        ensures
            **schema == self.arrow_schema(),
            sound_types(self.content().fields),
    {
        proof {
            use_type_invariant(self);
        }
        &self.schema
    }

    /// The descriptor of the table.
    pub fn table_descriptor(&self) -> (descriptor: &Arc<TableDescriptor>)
        ensures
            **descriptor == self.descriptor(),
    {
        &self.table_descriptor
    }
}

/// Another handle on a shared value, as `Arc::clone` gives it.
#[verifier::external_body]
pub(crate) fn share<T>(value: &Arc<T>) -> (shared: Arc<T>)
    ensures
        shared == *value,
{
    Arc::clone(value)
}

/// The tables whose schemas are known.
#[derive(Debug)]
pub struct SchemaCatalog {
    entries: Vec<(TablePath, Arc<SchemaEntry>)>,
}

/// What is known of each table; of a table that occurs more than once, the last entry counts.
spec fn known(entries: Seq<(TablePath, Arc<SchemaEntry>)>) -> Map<
    (Seq<char>, Seq<char>),
    SchemaEntry,
>
    decreases entries.len(),
{
    if entries.len() == 0 {
        Map::empty()
    } else {
        known(entries.drop_last()).insert(entries.last().0@, *entries.last().1)
    }
}

/// The last entry of a table is what is known of it.
proof fn lemma_known_last(entries: Seq<(TablePath, Arc<SchemaEntry>)>, index: int)
    requires
        0 <= index < entries.len(),
        forall|i: int|
            index < i < entries.len() ==> (#[trigger] entries[i]).0@ != entries[index].0@,
    ensures
        known(entries).contains_key(entries[index].0@),
        known(entries)[entries[index].0@] == *entries[index].1,
    decreases entries.len(),
{
    if index < entries.len() - 1 {
        assert(entries[entries.len() - 1].0@ != entries[index].0@);
        assert forall|i: int| index < i < entries.drop_last().len() implies (
        #[trigger] entries.drop_last()[i]).0@ != entries.drop_last()[index].0@ by {
            assert(entries[i].0@ != entries[index].0@);
        }
        lemma_known_last(entries.drop_last(), index);
    }
}

/// Nothing is known of a table without an entry.
proof fn lemma_unknown(entries: Seq<(TablePath, Arc<SchemaEntry>)>, path: (Seq<char>, Seq<char>))
    requires
        forall|i: int| 0 <= i < entries.len() ==> (#[trigger] entries[i]).0@ != path,
    ensures
        !known(entries).contains_key(path),
    decreases entries.len(),
{
    if entries.len() > 0 {
        assert(entries[entries.len() - 1].0@ != path);
        assert forall|i: int| 0 <= i < entries.drop_last().len() implies (
        #[trigger] entries.drop_last()[i]).0@ != path by {
            assert(entries[i].0@ != path);
        }
        lemma_unknown(entries.drop_last(), path);
    }
}

/// Replacing the last entry of a table changes what is known of it, and of no other table.
proof fn lemma_known_update(
    entries: Seq<(TablePath, Arc<SchemaEntry>)>,
    index: int,
    entry: (TablePath, Arc<SchemaEntry>),
)
    requires
        0 <= index < entries.len(),
        entries[index].0@ == entry.0@,
        forall|i: int| index < i < entries.len() ==> (#[trigger] entries[i]).0@ != entry.0@,
    ensures
        known(entries.update(index, entry)) == known(entries).insert(entry.0@, *entry.1),
    decreases entries.len(),
{
    let updated = entries.update(index, entry);
    if index == entries.len() - 1 {
        assert(updated.drop_last() =~= entries.drop_last());
    } else {
        assert(entries[entries.len() - 1].0@ != entry.0@);
        assert forall|i: int| index < i < entries.drop_last().len() implies (
        #[trigger] entries.drop_last()[i]).0@ != entry.0@ by {
            assert(entries[i].0@ != entry.0@);
        }
        assert(updated.drop_last() =~= entries.drop_last().update(index, entry));
        lemma_known_update(entries.drop_last(), index, entry);
    }
    assert(known(updated) =~= known(entries).insert(entry.0@, *entry.1));
}

impl View for SchemaCatalog {
    type V = Map<(Seq<char>, Seq<char>), SchemaEntry>;

    closed spec fn view(&self) -> Map<(Seq<char>, Seq<char>), SchemaEntry> {
        known(self.entries@)
    }
}

impl Default for SchemaCatalog {
    fn default() -> (catalog: Self)
        ensures
            catalog@ == Map::<(Seq<char>, Seq<char>), SchemaEntry>::empty(),
    {
        SchemaCatalog { entries: Vec::new() }
    }
}

impl SchemaCatalog {
    /// Where the last entry of a table stands.
    fn position(&self, table: &TablePath) -> (position: Option<usize>)
        ensures
            match position {
                Some(index) => {
                    &&& index < self.entries@.len()
                    &&& self.entries@[index as int].0@ == table@
                    &&& forall|i: int|
                        index < i < self.entries@.len() ==> (#[trigger] self.entries@[i]).0@
                            != table@
                },
                None => forall|i: int|
                    0 <= i < self.entries@.len() ==> (#[trigger] self.entries@[i]).0@ != table@,
            },
    {
        let mut index: usize = self.entries.len();
        while index > 0
            invariant
                index <= self.entries@.len(),
                forall|i: int|
                    index <= i < self.entries@.len() ==> (#[trigger] self.entries@[i]).0@
                        != table@,
            decreases index,
        {
            index = index - 1;
            if self.entries[index].0.same(table) {
                return Some(index);
            }
        }
        None
    }

    /// What is known of a table.
    pub fn get_schema_entry(&self, table: &TablePath) -> (entry: Option<Arc<SchemaEntry>>)
        ensures
            match entry {
                Some(entry) => self@.contains_key(table@) && *entry == self@[table@],
                None => !self@.contains_key(table@),
            },
    {
        match self.position(table) {
            Some(index) => {
                proof {
                    lemma_known_last(self.entries@, index as int);
                }
                Some(share(&self.entries[index].1))
            },
            None => {
                proof {
                    lemma_unknown(self.entries@, table@);
                }
                None
            },
        }
    }

    /// Makes the schema of a table known, in place of what was known of it.
    fn create_and_store(
        &mut self,
        table: &TablePath,
        schema: Arc<Schema>,
        table_descriptor: Arc<TableDescriptor>,
    ) -> (entry: Arc<SchemaEntry>)
        requires
            sound_types(schema_fields(*schema)),
        ensures
            entry.arrow_schema() == *schema,
            entry.descriptor() == *table_descriptor,
            final(self)@ == old(self)@.insert(table@, *entry),
    {
        let entry = Arc::new(SchemaEntry { schema, table_descriptor });
        let stored = (table.copy(), share(&entry));
        match self.position(table) {
            Some(index) => {
                proof {
                    lemma_known_update(self.entries@, index as int, stored);
                }
                self.entries.set(index, stored);
            },
            None => {
                let ghost before = self.entries@;
                self.entries.push(stored);
                assert(self.entries@.drop_last() =~= before);
            },
        }
        entry
    }
}

/// What is said of a message that cannot be sampled because its payload is no JSON document.
pub open spec fn unsupported_sample(id: u128) -> Seq<char> {
    "Only JSON Payload is supported for sampling and infer ["@ + decimal_digits(id as nat) + "]"@
}

/// Why a message cannot be sampled; `None` where it can.
pub open spec fn sample_failure(message: ConsumedMessage) -> Option<Seq<char>> {
    match message.payload@ {
        Content::Json(document) => match converted(document) {
            Ok(_) => None,
            Err(error) => Some(external_error(error)),
        },
        _ => Some(
            external_error(CatalogFailure::SampleFailed(unsupported_sample(message.id)).message()),
        ),
    }
}

/// The document that a message gives to the sample.
pub open spec fn sample_document(message: ConsumedMessage) -> Json {
    match message.payload@ {
        Content::Json(document) => converted(document)->Ok_0,
        _ => arbitrary(),
    }
}

/// The documents of messages that can be sampled.
pub open spec fn sample_documents(messages: Seq<ConsumedMessage>) -> Seq<Json> {
    messages.map_values(|message: ConsumedMessage| sample_document(message))
}

/// The number of messages before the first that cannot be sampled.
pub open spec fn sample_length(messages: Seq<ConsumedMessage>) -> nat
    decreases messages.len(),
{
    if messages.len() == 0 || sample_failure(messages[0]) is Some {
        0
    } else {
        1 + sample_length(messages.drop_first())
    }
}

/// The fields of the schema that messages have in common, or why there is none. Inference takes
/// one message after the other: where one of them cannot be sampled, what was wrong with those
/// before it comes first.
pub open spec fn sampled_fields(messages: Seq<ConsumedMessage>) -> Result<
    Seq<ArrowField>,
    Seq<char>,
> {
    let length = sample_length(messages);
    match inferred(sample_documents(messages.take(length as int))) {
        Ok(fields) => if length == messages.len() {
            Ok(fields)
        } else {
            Err(sample_failure(messages[length as int])->0)
        },
        Err(error) => Err(error),
    }
}

/// The first message that cannot be sampled stands behind those that can.
pub(crate) proof fn lemma_sample_length(messages: Seq<ConsumedMessage>, count: int)
    requires
        0 <= count <= messages.len(),
        forall|i: int| 0 <= i < count ==> sample_failure(#[trigger] messages[i]) is None,
        count < messages.len() ==> sample_failure(messages[count]) is Some,
    ensures
        sample_length(messages) == count,
    decreases messages.len(),
{
    if count > 0 {
        assert(sample_failure(messages[0]) is None);
        assert forall|i: int| 0 <= i < count - 1 implies sample_failure(
            #[trigger] messages.drop_first()[i],
        ) is None by {
            assert(sample_failure(messages[i + 1]) is None);
        }
        lemma_sample_length(messages.drop_first(), count - 1);
    }
}

/// Infers the schema of messages from their payloads.
pub fn sample_and_infer_schema(messages: &Vec<ConsumedMessage>) -> (schema: Result<
    Schema,
    SchemaCatalogError,
>)
    ensures
        match schema {
            Ok(schema) => {
                &&& sampled_fields(messages@) == Ok::<Seq<ArrowField>, Seq<char>>(
                    schema_fields(schema),
                )
                &&& all_inferable(schema_fields(schema))
            },
            Err(error) => {
                &&& sampled_fields(messages@) is Err
                &&& error@ == CatalogFailure::SampleFailed(sampled_fields(messages@)->Err_0)
            },
        },
{
    let mut samples: Vec<serde_json::Value> = Vec::new();
    let mut failure: Option<String> = None;
    let mut index: usize = 0;
    assert(serde_documents(samples@) =~= sample_documents(messages@.take(0)));
    while index < messages.len() && failure.is_none()
        invariant
            index <= messages@.len(),
            failure is None ==> samples@.len() == index,
            failure is Some ==> {
                &&& samples@.len() < messages@.len()
                &&& sample_failure(messages@[samples@.len() as int]) == Some(failure->0@)
            },
            samples@.len() <= messages@.len(),
            serde_documents(samples@) == sample_documents(
                messages@.take(samples@.len() as int),
            ),
            forall|i: int|
                0 <= i < samples@.len() ==> sample_failure(#[trigger] messages@[i]) is None,
        decreases messages@.len() - index,
    {
        let message = &messages[index];
        match &message.payload {
            Payload::Json(value) => match to_serde(value) {
                Ok(sample) => {
                    let ghost before = samples@;
                    samples.push(sample);
                    proof {
                        assert(messages@.take(index + 1) =~= messages@.take(index as int).push(
                            *message,
                        ));
                        assert(serde_documents(samples@) =~= serde_documents(before).push(
                            serde_document(sample),
                        ));
                        assert(sample_documents(messages@.take(index + 1)) =~= sample_documents(
                            messages@.take(index as int),
                        ).push(sample_document(*message)));
                    }
                },
                Err(error) => {
                    failure = Some(external_error_text(error.as_str()));
                },
            },
            _ => {
                let error = SchemaCatalogError::SampleFailed {
                    reason: "Only JSON Payload is supported for sampling and infer [".to_owned().concat(
                        decimal(message.id).as_str(),
                    ).concat("]"),
                };
                failure = Some(external_error_text(error.message().as_str()));
            },
        }
        index = index + 1;
    }
    proof {
        lemma_sample_length(messages@, samples@.len() as int);
    }
    match infer_schema(&samples) {
        Ok(schema) => match failure {
            None => Ok(schema),
            Some(reason) => Err(SchemaCatalogError::SampleFailed { reason }),
        },
        Err(reason) => Err(SchemaCatalogError::SampleFailed { reason }),
    }
}

/// The Fluss columns of Arrow fields, or the error of the first field that has no Fluss type.
pub open spec fn converted_columns(fields: Seq<ArrowField>) -> Result<Seq<FlussColumn>, Seq<char>>
    decreases fields.len(),
{
    if fields.len() == 0 {
        Ok(Seq::empty())
    } else {
        match converted_columns(fields.drop_last()) {
            Ok(columns) => match fluss_field_type(fields.last()) {
                Ok(data_type) => Ok(
                    columns.push(FlussColumn { name: fields.last().name, data_type }),
                ),
                Err(error) => Err(error),
            },
            Err(error) => Err(error),
        }
    }
}

/// An error among the first fields is the error of all.
proof fn lemma_conversion_error(fields: Seq<ArrowField>, count: int)
    requires
        0 <= count <= fields.len(),
        converted_columns(fields.subrange(0, count)) is Err,
    ensures
        converted_columns(fields) == converted_columns(fields.subrange(0, count)),
    decreases fields.len() - count,
{
    if count < fields.len() {
        assert(fields.subrange(0, count + 1).drop_last() =~= fields.subrange(0, count));
        lemma_conversion_error(fields, count + 1);
    } else {
        assert(fields.subrange(0, count) =~= fields);
    }
}

/// The row type that an inferred schema has in Fluss.
fn schema_to_row_type(schema: &Schema, table: &TablePath) -> (row_type: Result<
    RowType,
    SchemaCatalogError,
>)
    requires
        convertible(ArrowType::Struct(schema_fields(*schema))),
    ensures
        match row_type {
            Ok(row_type) => converted_columns(schema_fields(*schema)) == Ok::<
                Seq<FlussColumn>,
                Seq<char>,
            >(row_columns(row_type)),
            Err(error) => {
                &&& converted_columns(schema_fields(*schema)) is Err
                &&& error@ == CatalogFailure::ArrowSchemaToFlussRowType(
                    table@,
                    converted_columns(schema_fields(*schema))->Err_0,
                )
            },
        },
{
    let ghost all = schema_fields(*schema);
    let count = field_count(schema);
    let mut fields: Vec<DataField> = Vec::new();
    let ghost mut columns: Seq<FlussColumn> = Seq::empty();
    let mut index: usize = 0;
    while index < count
        invariant
            all == schema_fields(*schema),
            convertible(ArrowType::Struct(all)),
            index <= count == all.len(),
            converted_columns(all.subrange(0, index as int)) == Ok::<Seq<FlussColumn>, Seq<char>>(
                columns,
            ),
            columns =~= fields@.map_values(|field: DataField| field_column(field)),
        decreases count - index,
    {
        assert(all.subrange(0, index + 1).drop_last() =~= all.subrange(0, index as int));
        let arrow_field = schema_field(schema, index);
        match from_arrow_field(arrow_field) {
            Ok(data_type) => {
                let field = new_field(field_name(arrow_field), data_type);
                fields.push(field);
                proof {
                    columns = columns.push(field_column(field));
                }
            },
            Err(reason) => {
                proof {
                    lemma_conversion_error(all, index + 1);
                }
                return Err(
                    SchemaCatalogError::ArrowSchemaToFlussRowType {
                        table_path: table.copy(),
                        reason,
                    },
                );
            },
        }
        index = index + 1;
    }
    assert(all.subrange(0, index as int) =~= all);
    Ok(new_row_type(fields))
}

/// The comment of tables that were created for a sample.
pub open spec fn created_comment() -> Seq<char> {
    "Automatically created table"@
}

/// A table with the given columns that was created for a sample: it has no primary key.
pub open spec fn created_table(columns: Seq<FlussColumn>) -> TableParts {
    plain_table(SchemaParts { columns, key: None }, Some(created_comment()))
}

/// Describes the table that an inferred schema needs.
fn table_descriptor_from_schema(schema: &Schema, table: &TablePath) -> (descriptor: Result<
    TableDescriptor,
    SchemaCatalogError,
>)
    requires
        convertible(ArrowType::Struct(schema_fields(*schema))),
    ensures
        match converted_columns(schema_fields(*schema)) {
            Ok(columns) => {
                &&& descriptor is Ok <==> schema_accepted(SchemaParts { columns, key: None })
                &&& descriptor matches Ok(descriptor) ==> table_parts(descriptor) == created_table(
                    columns,
                )
                &&& descriptor matches Err(error) ==> error@ is BuildTableDescriptor
                    && error@->BuildTableDescriptor_0 == table@
            },
            Err(reason) => {
                &&& descriptor matches Err(error)
                &&& error@ == CatalogFailure::ArrowSchemaToFlussRowType(table@, reason)
            },
        },
{
    let row_type = match schema_to_row_type(schema, table) {
        Ok(row_type) => row_type,
        Err(error) => {
            return Err(error);
        },
    };
    let builder = add_row_type(new_schema_builder(), row_type);
    assert(builder_parts(builder).unwrap().columns =~= row_columns(row_type));
    let fluss_schema = match build_schema(builder) {
        Ok(fluss_schema) => fluss_schema,
        Err(reason) => {
            return Err(
                SchemaCatalogError::BuildTableDescriptor { table_path: table.copy(), reason },
            );
        },
    };
    match describe_with_comment("Automatically created table", fluss_schema) {
        Ok(descriptor) => Ok(descriptor),
        Err(reason) => Err(
            SchemaCatalogError::BuildTableDescriptor { table_path: table.copy(), reason },
        ),
    }
}

/// What becomes known of a table with the given columns, laid out by a configuration.
pub open spec fn layout_schema(kinds: Seq<ColumnKind>) -> TableSchema {
    TableSchema {
        fields: simple_arrow_fields(table_columns(kinds)),
        table: plain_table(SchemaParts { columns: table_columns(kinds), key: None }, None),
    }
}

/// What becomes known of a table that exists, or why nothing does.
pub open spec fn table_schema(path: (Seq<char>, Seq<char>), info: TableInfo) -> Result<
    TableSchema,
    CatalogFailure,
> {
    match (described(info), arrow_fields(info_columns(info))) {
        (Ok(table), Ok(fields)) => Ok(TableSchema { fields, table }),
        (Err(reason), _) => Err(CatalogFailure::BuildTableDescriptor(path, reason)),
        (Ok(_), Err(reason)) => Err(CatalogFailure::FlussToArrowSchemaFailed(reason)),
    }
}

/// Whether inferring the schema of a table from messages comes to `outcome`. Of columns that no
/// table can have, nothing is said but that its descriptor was not built.
pub open spec fn infers(
    messages: Seq<ConsumedMessage>,
    path: (Seq<char>, Seq<char>),
    outcome: Result<TableSchema, CatalogFailure>,
) -> bool {
    match sampled_fields(messages) {
        Err(reason) => outcome == Err::<TableSchema, CatalogFailure>(
            CatalogFailure::SampleFailed(reason),
        ),
        Ok(fields) => match converted_columns(fields) {
            Err(reason) => outcome == Err::<TableSchema, CatalogFailure>(
                CatalogFailure::ArrowSchemaToFlussRowType(path, reason),
            ),
            Ok(columns) => if schema_accepted(SchemaParts { columns, key: None }) {
                outcome == Ok::<TableSchema, CatalogFailure>(
                    TableSchema { fields, table: created_table(columns) },
                )
            } else {
                outcome matches Err(CatalogFailure::BuildTableDescriptor(table, _)) && table == path
            },
        },
    }
}

impl SchemaCatalog {
    /// Makes the schema of a table known that is laid out as `table_layout` says.
    pub fn create_and_store_static_schema_entry(
        &mut self,
        table: &TablePath,
        table_layout: &FlussTableLayout,
    ) -> (entry: Result<Arc<SchemaEntry>, SchemaCatalogError>)
        ensures
            table_layout.well_formed() ==> {
                &&& entry is Ok
                &&& entry->Ok_0.content() == layout_schema(table_layout.columns())
            },
            match entry {
                Ok(entry) => {
                    &&& schema_accepted(table_layout.parts())
                    &&& entry.content().table == plain_table(
                        built_parts(table_layout.parts()),
                        None,
                    )
                    &&& arrow_fields(keyed_columns(table_layout.parts())) == Ok::<
                        Seq<ArrowField>,
                        Seq<char>,
                    >(entry.content().fields)
                    &&& final(self)@ == old(self)@.insert(table@, *entry)
                },
                Err(error) => {
                    &&& final(self)@ == old(self)@
                    &&& if schema_accepted(table_layout.parts()) {
                        &&& arrow_fields(keyed_columns(table_layout.parts())) is Err
                        &&& error@ == CatalogFailure::FlussToArrowSchemaFailed(
                            arrow_fields(keyed_columns(table_layout.parts()))->Err_0,
                        )
                    } else {
                        error@ is BuildTableDescriptor && error@->BuildTableDescriptor_0 == table@
                    }
                },
            },
    {
        let table_descriptor = match table_layout.build_table_descriptor() {
            Ok(table_descriptor) => table_descriptor,
            Err(reason) => {
                return Err(
                    SchemaCatalogError::BuildTableDescriptor { table_path: table.copy(), reason },
                );
            },
        };
        let schema = match to_arrow_schema(descriptor_row_type(&table_descriptor)) {
            Ok(schema) => schema,
            Err(reason) => {
                return Err(SchemaCatalogError::FlussToArrowSchemaFailed { reason });
            },
        };
        Ok(self.create_and_store(table, schema, Arc::new(table_descriptor)))
    }

    /// Makes the schema of a table known from what looking it up in the cluster gave. A table
    /// that was not found stays unknown.
    pub fn create_and_store_entry_from_table(
        &mut self,
        table: &TablePath,
        lookup: Result<TableInfo, WriterError>,
    ) -> (entry: Result<Option<Arc<SchemaEntry>>, SchemaCatalogError>)
        ensures
            match lookup {
                Ok(info) => match table_schema(table@, info) {
                    Ok(schema) => {
                        &&& entry matches Ok(Some(stored))
                        &&& stored.content() == schema
                        &&& final(self)@ == old(self)@.insert(table@, *stored)
                    },
                    Err(failure) => {
                        &&& entry matches Err(error)
                        &&& error@ == failure
                        &&& final(self)@ == old(self)@
                    },
                },
                Err(failure) => {
                    &&& final(self)@ == old(self)@
                    &&& if failure is TableNotFound {
                        entry matches Ok(None)
                    } else {
                        entry matches Err(error) && error@ == CatalogFailure::Writer(failure@)
                    }
                },
            },
    {
        let info = match lookup {
            Ok(info) => info,
            Err(WriterError::TableNotFound { .. }) => {
                return Ok(None);
            },
            Err(error) => {
                return Err(SchemaCatalogError::Writer(error));
            },
        };
        let descriptor = match describe_table(&info) {
            Ok(descriptor) => descriptor,
            Err(reason) => {
                return Err(
                    SchemaCatalogError::BuildTableDescriptor { table_path: table.copy(), reason },
                );
            },
        };
        let schema = match to_arrow_schema(info_row_type(&info)) {
            Ok(schema) => schema,
            Err(reason) => {
                return Err(SchemaCatalogError::FlussToArrowSchemaFailed { reason });
            },
        };
        Ok(Some(self.create_and_store(table, schema, Arc::new(descriptor))))
    }

    /// Makes the schema of a table known that messages need, inferred from their payloads.
    pub fn create_and_store_schema_from_infer(
        &mut self,
        table: &TablePath,
        messages: &Vec<ConsumedMessage>,
    ) -> (entry: Result<Arc<SchemaEntry>, SchemaCatalogError>)
        ensures
            match entry {
                Ok(entry) => {
                    &&& infers(
                        messages@,
                        table@,
                        Ok::<TableSchema, CatalogFailure>(entry.content()),
                    )
                    &&& final(self)@ == old(self)@.insert(table@, *entry)
                },
                Err(error) => {
                    &&& infers(messages@, table@, Err::<TableSchema, CatalogFailure>(error@))
                    &&& final(self)@ == old(self)@
                },
            },
    {
        let schema = match sample_and_infer_schema(messages) {
            Ok(schema) => schema,
            Err(error) => {
                return Err(error);
            },
        };
        proof {
            lemma_inferred_decodable(ArrowType::Struct(schema_fields(schema)), Json::Null);
        }
        let table_descriptor = match table_descriptor_from_schema(&schema, table) {
            Ok(table_descriptor) => table_descriptor,
            Err(error) => {
                return Err(error);
            },
        };
        Ok(self.create_and_store(table, Arc::new(schema), Arc::new(table_descriptor)))
    }
}

} // verus!
