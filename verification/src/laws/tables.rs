//! Laws of schemas: how the schema of a table becomes known, and what it says.

use fluss::metadata::TableInfo;
use vstd::prelude::*;

use crate::arrow_data::{inferred, ArrowField, ArrowType};
use crate::fluss_schema::{
    arrow_fields, built_parts, described, fluss_field_type, info_columns, keyed_columns,
    plain_table, schema_accepted, FlussColumn, FlussType, SchemaParts, TableParts,
};
use crate::json::{converted, document, Json};
use crate::laws::rows::{lemma_columns_of_table, lemma_number_reads_back, writes_number};
use crate::message::{ConsumedMessage, Payload};
use crate::schema::{column_name, table_columns, ColumnKind};
use crate::schema_catalog::{
    converted_columns, infers, layout_schema, lemma_sample_length, sample_documents,
    sample_failure, sampled_fields, table_schema, CatalogFailure, TableSchema,
};
use crate::text::decimal_digits;

verus! {

/// Whether messages carry JSON documents, one each, that convert to the given samples.
pub open spec fn give_samples(messages: Seq<ConsumedMessage>, samples: Seq<Json>) -> bool {
    &&& samples.len() == messages.len()
    &&& forall|i: int|
        0 <= i < messages.len() ==> {
            &&& (#[trigger] messages[i]).payload matches Payload::Json(value)
            &&& converted(document(value)) == Ok::<Json, Seq<char>>(samples[i])
        }
}

/// Messages that give samples can be sampled, and their documents are the samples.
proof fn lemma_samples(messages: Seq<ConsumedMessage>, samples: Seq<Json>)
    requires
        give_samples(messages, samples),
    ensures
        forall|i: int|
            0 <= i < messages.len() ==> sample_failure(#[trigger] messages[i]) is None,
        sample_documents(messages) == samples,
{
    assert forall|i: int| 0 <= i < messages.len() implies sample_failure(
        #[trigger] messages[i],
    ) is None by {
        assert(converted(document(messages[i].payload->Json_0)) is Ok);
    }
    assert forall|i: int| 0 <= i < messages.len() implies #[trigger] sample_documents(messages)[i]
        == samples[i] by {
        assert(converted(document(messages[i].payload->Json_0)) == Ok::<Json, Seq<char>>(
            samples[i],
        ));
    }
    assert(sample_documents(messages) =~= samples);
}

/// The fields of a schema are inferred from all messages: from as many documents as there are
/// messages, each in its place.
pub proof fn lemma_all_messages_sampled(messages: Seq<ConsumedMessage>, samples: Seq<Json>)
    requires
        give_samples(messages, samples),
    ensures
        sampled_fields(messages) == inferred(samples),
{
    lemma_samples(messages, samples);
    lemma_sample_length(messages, messages.len() as int);
    assert(messages.take(messages.len() as int) =~= messages);
}

/// Without a document for each message there is no schema. The first message that has none is
/// reported, by its id or by what was wrong with its document, unless the documents before it
/// already had no schema in common.
pub proof fn lemma_first_unsampled_reported(
    messages: Seq<ConsumedMessage>,
    samples: Seq<Json>,
    count: int,
)
    requires
        0 <= count < messages.len(),
        give_samples(messages.take(count), samples),
        messages[count].payload matches Payload::Json(value) ==> converted(document(value)) is Err,
    ensures
        sampled_fields(messages) matches Err(reason) && match inferred(samples) {
            Err(earlier) => reason == earlier,
            Ok(_) => match messages[count].payload {
                Payload::Json(value) => reason == "External error: "@ + converted(
                    document(value),
                )->Err_0,
                _ => exists|digits: Seq<char>| #[trigger]
                    writes_number(digits, messages[count].id as nat) && reason
                        == "External error: "@ + (
                    "Sampling has failed for messages. Can not create arrow schema because of ["@
                        + ("Only JSON Payload is supported for sampling and infer ["@ + digits
                        + "]"@) + "]"@),
            },
        },
{
    lemma_samples(messages.take(count), samples);
    assert forall|i: int| 0 <= i < count implies sample_failure(#[trigger] messages[i]) is None by {
        assert(messages.take(count)[i] == messages[i]);
    }
    lemma_sample_length(messages, count);
    lemma_number_reads_back(messages[count].id as nat);
    assert(writes_number(
        decimal_digits(messages[count].id as nat),
        messages[count].id as nat,
    ));
}

/// Each field has a column, under its name and with the type that Fluss has for it. Where a type
/// is missing there are no columns, and the first missing type is reported.
pub proof fn lemma_columns_of_fields(fields: Seq<ArrowField>)
    ensures
        match converted_columns(fields) {
            Ok(columns) => {
                &&& columns.len() == fields.len()
                &&& forall|j: int|
                    0 <= j < fields.len() ==> {
                        &&& (#[trigger] columns[j]).name == fields[j].name
                        &&& fluss_field_type(fields[j]) == Ok::<FlussType, Seq<char>>(
                            columns[j].data_type,
                        )
                    }
            },
            Err(error) => exists|j: int|
                {
                    &&& 0 <= j < fields.len()
                    &&& fluss_field_type(#[trigger] fields[j]) == Err::<FlussType, Seq<char>>(error)
                    &&& forall|k: int|
                        0 <= k < j ==> fluss_field_type(#[trigger] fields[k]) is Ok
                },
        },
    decreases fields.len(),
{
    if fields.len() > 0 {
        let shorter = fields.drop_last();
        lemma_columns_of_fields(shorter);
        match converted_columns(shorter) {
            Ok(columns) => {
                assert forall|k: int| 0 <= k < fields.len() - 1 implies fluss_field_type(
                    #[trigger] fields[k],
                ) is Ok by {
                    assert(columns[k].name == shorter[k].name);
                }
                assert(fields[fields.len() - 1] == fields.last());
                if let Ok(all) = converted_columns(fields) {
                    assert forall|j: int| 0 <= j < fields.len() implies {
                        &&& (#[trigger] all[j]).name == fields[j].name
                        &&& fluss_field_type(fields[j]) == Ok::<FlussType, Seq<char>>(
                            all[j].data_type,
                        )
                    } by {
                        if j < fields.len() - 1 {
                            assert(all[j] == columns[j]);
                        }
                    }
                }
            },
            Err(error) => {
                let j = choose|j: int|
                    {
                        &&& 0 <= j < shorter.len()
                        &&& fluss_field_type(#[trigger] shorter[j]) == Err::<FlussType, Seq<char>>(
                            error,
                        )
                        &&& forall|k: int|
                            0 <= k < j ==> fluss_field_type(#[trigger] shorter[k]) is Ok
                    };
                assert(fields[j] == shorter[j]);
                assert forall|k: int| 0 <= k < j implies fluss_field_type(
                    #[trigger] fields[k],
                ) is Ok by {
                    assert(shorter[k] == fields[k]);
                }
            },
        }
    }
}

/// Whether nothing is said of a table but its columns and a comment.
pub open spec fn bare_table(table: TableParts, comment: Option<Seq<char>>) -> bool {
    &&& table.key is None
    &&& table.comment == comment
    &&& table.partition_keys.len() == 0
    &&& table.distribution is None
    &&& forall|name: Seq<char>| !#[trigger] table.properties.contains_key(name)
    &&& forall|name: Seq<char>| !#[trigger] table.custom_properties.contains_key(name)
}

/// A table that is created for messages has one column for each field that is inferred from them,
/// no primary key, and a comment. The schema of its batches has those fields.
pub proof fn lemma_created_for_messages(
    messages: Seq<ConsumedMessage>,
    samples: Seq<Json>,
    path: (Seq<char>, Seq<char>),
    schema: TableSchema,
)
    requires
        give_samples(messages, samples),
        infers(messages, path, Ok::<TableSchema, CatalogFailure>(schema)),
    ensures
        inferred(samples) == Ok::<Seq<ArrowField>, Seq<char>>(schema.fields),
        schema.table.columns.len() == schema.fields.len(),
        forall|j: int|
            0 <= j < schema.fields.len() ==> {
                &&& (#[trigger] schema.table.columns[j]).name == schema.fields[j].name
                &&& fluss_field_type(schema.fields[j]) == Ok::<FlussType, Seq<char>>(
                    schema.table.columns[j].data_type,
                )
            },
        bare_table(schema.table, Some("Automatically created table"@)),
{
    lemma_all_messages_sampled(messages, samples);
    lemma_columns_of_fields(schema.fields);
}

/// Whether columns are those of fields: under their names, with the types that Fluss has for them.
pub open spec fn columns_for(fields: Seq<ArrowField>, columns: Seq<FlussColumn>) -> bool {
    &&& columns.len() == fields.len()
    &&& forall|j: int|
        0 <= j < fields.len() ==> {
            &&& (#[trigger] columns[j]).name == fields[j].name
            &&& fluss_field_type(fields[j]) == Ok::<FlussType, Seq<char>>(columns[j].data_type)
        }
}

/// Fields have one sequence of columns at most.
proof fn lemma_columns_unique(
    fields: Seq<ArrowField>,
    left: Seq<FlussColumn>,
    right: Seq<FlussColumn>,
)
    requires
        columns_for(fields, left),
        columns_for(fields, right),
    ensures
        left == right,
{
    assert forall|j: int| 0 <= j < fields.len() implies left[j] == right[j] by {
        assert(left[j].name == fields[j].name);
        assert(right[j].name == fields[j].name);
    }
    assert(left =~= right);
}

/// A table is created for messages where fields are inferred from them, all fields have Fluss
/// types, and the columns are accepted. Columns that are not accepted are reported for the table.
pub proof fn lemma_creation_owed(
    messages: Seq<ConsumedMessage>,
    samples: Seq<Json>,
    path: (Seq<char>, Seq<char>),
    outcome: Result<TableSchema, CatalogFailure>,
    fields: Seq<ArrowField>,
    columns: Seq<FlussColumn>,
)
    requires
        give_samples(messages, samples),
        infers(messages, path, outcome),
        inferred(samples) == Ok::<Seq<ArrowField>, Seq<char>>(fields),
        columns_for(fields, columns),
    ensures
        outcome is Ok <==> schema_accepted(SchemaParts { columns, key: None }),
        match outcome {
            Ok(schema) => schema.fields == fields && schema.table.columns == columns,
            Err(CatalogFailure::BuildTableDescriptor(table, _)) => table == path,
            Err(_) => false,
        },
{
    lemma_all_messages_sampled(messages, samples);
    lemma_columns_of_fields(fields);
    match converted_columns(fields) {
        Ok(found) => {
            lemma_columns_unique(fields, found, columns);
        },
        Err(error) => {
            let first = choose|j: int|
                0 <= j < fields.len() && fluss_field_type(#[trigger] fields[j]) == Err::<
                    FlussType,
                    Seq<char>,
                >(error);
            assert(columns[first].name == fields[first].name);
        },
    }
}

/// Where nothing is inferred from messages, or a field has no Fluss type, no table is created for
/// them, and that reason is given.
pub proof fn lemma_creation_refused(
    messages: Seq<ConsumedMessage>,
    samples: Seq<Json>,
    path: (Seq<char>, Seq<char>),
    outcome: Result<TableSchema, CatalogFailure>,
    missing: int,
)
    requires
        give_samples(messages, samples),
        infers(messages, path, outcome),
        inferred(samples) matches Ok(fields) ==> {
            &&& 0 <= missing < fields.len()
            &&& fluss_field_type(fields[missing]) is Err
            &&& forall|k: int| 0 <= k < missing ==> fluss_field_type(#[trigger] fields[k]) is Ok
        },
    ensures
        match inferred(samples) {
            Err(reason) => outcome == Err::<TableSchema, CatalogFailure>(
                CatalogFailure::SampleFailed(reason),
            ),
            Ok(fields) => outcome == Err::<TableSchema, CatalogFailure>(
                CatalogFailure::ArrowSchemaToFlussRowType(
                    path,
                    fluss_field_type(fields[missing])->Err_0,
                ),
            ),
        },
{
    lemma_all_messages_sampled(messages, samples);
    if let Ok(fields) = inferred(samples) {
        lemma_columns_of_fields(fields);
        match converted_columns(fields) {
            Ok(columns) => {
                assert(columns[missing].name == fields[missing].name);
            },
            Err(error) => {
                let first = choose|j: int|
                    {
                        &&& 0 <= j < fields.len()
                        &&& fluss_field_type(#[trigger] fields[j]) == Err::<FlussType, Seq<char>>(
                            error,
                        )
                        &&& forall|k: int|
                            0 <= k < j ==> fluss_field_type(#[trigger] fields[k]) is Ok
                    };
                assert(fluss_field_type(fields[first]) is Err);
                if missing < first {
                    assert(fluss_field_type(fields[missing]) is Ok);
                }
            },
        }
    }
}

/// Where messages have no schema in common, no table is created for them.
pub proof fn lemma_unsampled_not_created(
    messages: Seq<ConsumedMessage>,
    path: (Seq<char>, Seq<char>),
    outcome: Result<TableSchema, CatalogFailure>,
)
    requires
        infers(messages, path, outcome),
        sampled_fields(messages) is Err,
    ensures
        outcome matches Err(CatalogFailure::SampleFailed(reason)) && reason == sampled_fields(
            messages,
        )->Err_0,
{
}

/// A table that exists is known by its own descriptor and by the Arrow fields of its own columns.
/// Where one of them is missing, that one is reported.
pub proof fn lemma_existing_table(path: (Seq<char>, Seq<char>), info: TableInfo)
    ensures
        match described(info) {
            Ok(table) => match arrow_fields(info_columns(info)) {
                Ok(fields) => {
                    &&& table_schema(path, info) matches Ok(schema)
                    &&& schema.fields == fields
                    &&& schema.table == table
                },
                Err(error) => {
                    &&& table_schema(path, info) matches Err(
                        CatalogFailure::FlussToArrowSchemaFailed(reason),
                    )
                    &&& reason == error
                },
            },
            Err(error) => {
                &&& table_schema(path, info) matches Err(
                    CatalogFailure::BuildTableDescriptor(table, reason),
                )
                &&& table == path
                &&& reason == error
            },
        },
{
}

/// A table that is laid out by a configuration has its columns in their order, no primary key and
/// no comment. Each field of its batches has the name of its column and can be null; the partition
/// is a 64-bit integer, a payload of bytes is bytes, and all else is text.
pub proof fn lemma_laid_out_table(kinds: Seq<ColumnKind>, index: int)
    requires
        0 <= index < kinds.len(),
    ensures
        layout_schema(kinds).table.columns == table_columns(kinds),
        bare_table(layout_schema(kinds).table, None),
        layout_schema(kinds).fields.len() == kinds.len(),
        layout_schema(kinds).fields[index].name == column_name(kinds[index]),
        layout_schema(kinds).fields[index].nullable,
        layout_schema(kinds).fields[index].extra.len() == 0,
        layout_schema(kinds).fields[index].data_type == match kinds[index] {
            ColumnKind::PartitionId => ArrowType::Int64,
            ColumnKind::BinaryPayload => ArrowType::Binary,
            _ => ArrowType::Utf8,
        },
{
    lemma_columns_of_table(kinds, index);
}

/// A primary key changes nothing of a table but that its columns cannot be null, and that the
/// table is spread by it. Without a key nothing changes.
pub proof fn lemma_primary_key(parts: SchemaParts, comment: Option<Seq<char>>, index: int)
    requires
        0 <= index < parts.columns.len(),
    ensures
        keyed_columns(parts).len() == parts.columns.len(),
        keyed_columns(parts)[index].name == parts.columns[index].name,
        keyed_columns(parts)[index].data_type.kind == parts.columns[index].data_type.kind,
        keyed_columns(parts)[index].data_type.nullable <==> {
            &&& parts.columns[index].data_type.nullable
            &&& !(parts.key matches Some(names) && names.contains(parts.columns[index].name))
        },
        plain_table(built_parts(parts), comment).columns == keyed_columns(parts),
        plain_table(built_parts(parts), comment).key == parts.key,
        plain_table(built_parts(parts), comment).comment == comment,
        match parts.key {
            Some(names) => {
                &&& plain_table(built_parts(parts), comment).distribution matches Some(distribution)
                &&& distribution.bucket_count is None
                &&& distribution.bucket_keys == names
            },
            None => bare_table(plain_table(built_parts(parts), comment), comment),
        },
{
}

} // verus!
