use std::collections::HashMap;
use std::sync::Arc;

use arrow::datatypes::DataType;
use fluss::metadata::{DataTypes, Schema, TableInfo};
use fluss_sink::config::{FlussSinkConfig, RouterType};
use fluss_sink::message::{ConsumedMessage, Payload};
use fluss_sink::schema::FlussTableLayout;
use fluss_sink::schema_catalog::{sample_and_infer_schema, SchemaCatalog, SchemaCatalogError};
use fluss_sink::table_path::TablePath;
use fluss_sink::writer::WriterError;

fn message(id: u128, payload: Payload) -> ConsumedMessage {
    ConsumedMessage {
        id,
        offset: 0,
        checksum: 0,
        timestamp: 0,
        origin_timestamp: 0,
        headers: None,
        payload,
    }
}

fn json(id: u128, text: &str) -> ConsumedMessage {
    let mut bytes = text.as_bytes().to_vec();
    message(
        id,
        Payload::Json(simd_json::to_owned_value(&mut bytes).expect("Text should be JSON")),
    )
}

fn path() -> TablePath {
    TablePath::new("analytics", "events")
}

fn table_info(schema: Schema) -> TableInfo {
    TableInfo::new(
        fluss::metadata::TablePath::new("analytics", "events"),
        1,
        1,
        schema,
        vec![],
        Arc::from(Vec::<String>::new()),
        1,
        HashMap::new(),
        HashMap::new(),
        None,
        0,
        0,
    )
}

fn layout() -> FlussTableLayout {
    FlussTableLayout::from_config(&FlussSinkConfig {
        bootstrap_servers: "localhost:9123".to_string(),
        fluss_database: "analytics".to_string(),
        fluss_table: "events".to_string(),
        batch_size: 100,
        auto_create_table: true,
        include_metadata: false,
        include_checksum: false,
        include_origin_timestamp: false,
        payload_format: "text".to_string(),
        create_table: true,
        router_type: RouterType::Single,
        route_key: "table".to_string(),
    })
    .expect("Text payload format should be valid")
}

#[test]
fn given_empty_catalog_when_asking_should_know_nothing() {
    assert!(SchemaCatalog::default().get_schema_entry(&path()).is_none());
}

#[test]
fn given_layout_when_storing_should_know_its_table_only() {
    let mut catalog = SchemaCatalog::default();

    let entry = catalog
        .create_and_store_static_schema_entry(&path(), &layout())
        .expect("Entry should be stored");

    assert_eq!(entry.schema().fields().len(), 2);
    assert_eq!(entry.table_descriptor().comment(), None);
    assert!(!entry.table_descriptor().has_primary_key());
    let known = catalog.get_schema_entry(&path()).expect("Table should be known");
    assert!(Arc::ptr_eq(&entry, &known));
    assert!(catalog
        .get_schema_entry(&TablePath::new("analytics", "clicks"))
        .is_none());
}

#[test]
fn given_known_table_when_storing_again_should_replace_it() {
    let mut catalog = SchemaCatalog::default();
    let other = TablePath::new("analytics", "clicks");
    catalog
        .create_and_store_static_schema_entry(&path(), &layout())
        .expect("Entry should be stored");
    catalog
        .create_and_store_static_schema_entry(&other, &layout())
        .expect("Entry should be stored");

    let newer = catalog
        .create_and_store_schema_from_infer(&path(), &vec![json(1, "{\"n\": 1}")])
        .expect("Schema should be inferred");

    let known = catalog.get_schema_entry(&path()).expect("Table should be known");
    assert!(Arc::ptr_eq(&newer, &known));
    assert_eq!(
        catalog
            .get_schema_entry(&other)
            .expect("Other table should be known")
            .schema()
            .fields()
            .len(),
        2
    );
}

#[test]
fn given_existing_table_when_storing_should_take_its_schema() {
    let mut catalog = SchemaCatalog::default();
    let schema = Schema::builder()
        .column("amount", DataTypes::double())
        .column("name", DataTypes::string())
        .build()
        .expect("Schema should build");

    let entry = catalog
        .create_and_store_entry_from_table(&path(), Ok(table_info(schema)))
        .expect("Table should be taken")
        .expect("Table should exist");

    assert_eq!(entry.schema().field(0).name(), "amount");
    assert_eq!(entry.schema().field(0).data_type(), &DataType::Float64);
    assert_eq!(entry.schema().field(1).data_type(), &DataType::Utf8);
    assert_eq!(entry.table_descriptor().schema().columns()[0].name(), "amount");
}

#[test]
fn given_existing_table_with_key_when_storing_should_keep_its_key() {
    let mut catalog = SchemaCatalog::default();
    let schema = Schema::builder()
        .column("id", DataTypes::bigint())
        .column("name", DataTypes::string())
        .primary_key(vec!["id".to_string()])
        .expect("Key should be set")
        .build()
        .expect("Schema should build");

    let entry = catalog
        .create_and_store_entry_from_table(&path(), Ok(table_info(schema)))
        .expect("Table should be taken")
        .expect("Table should exist");

    assert_eq!(
        entry.table_descriptor().schema().primary_key_column_names(),
        vec!["id"]
    );
    assert!(!entry.schema().field(0).is_nullable());
    assert!(entry.schema().field(1).is_nullable());
}

#[test]
fn given_missing_table_when_storing_should_stay_unknown() {
    let mut catalog = SchemaCatalog::default();

    let entry = catalog
        .create_and_store_entry_from_table(
            &path(),
            Err(WriterError::TableNotFound { table_path: path() }),
        )
        .expect("Missing table should be no error");

    assert!(entry.is_none());
    assert!(catalog.get_schema_entry(&path()).is_none());
}

#[test]
fn given_failed_lookup_when_storing_should_return_writer_error() {
    let mut catalog = SchemaCatalog::default();

    let error = catalog
        .create_and_store_entry_from_table(
            &path(),
            Err(WriterError::GetTable {
                table_path: path(),
                source: "timeout".to_string(),
            }),
        )
        .expect_err("Failed lookup should fail");

    assert!(matches!(&error, SchemaCatalogError::Writer(_)));
    assert_eq!(
        error.message(),
        "Failed to get Fluss table 'analytics.events': timeout"
    );
}

#[test]
fn given_documents_when_inferring_should_find_common_schema() {
    let schema = sample_and_infer_schema(&vec![
        json(1, "{\"a\": 1, \"b\": \"x\"}"),
        json(2, "{\"a\": 2.5, \"c\": [true]}"),
    ])
    .expect("Schema should be inferred");

    let types: Vec<(&str, &DataType)> = schema
        .fields()
        .iter()
        .map(|field| (field.name().as_str(), field.data_type()))
        .collect();
    assert_eq!(types.len(), 3);
    assert!(types.contains(&("a", &DataType::Float64)));
    assert!(types.contains(&("b", &DataType::Utf8)));
    assert!(types.iter().any(|(name, data_type)| {
        *name == "c" && matches!(data_type, DataType::List(item) if item.data_type() == &DataType::Boolean)
    }));
}

#[test]
fn given_no_messages_when_inferring_should_find_no_columns() {
    let schema = sample_and_infer_schema(&vec![]).expect("Schema should be inferred");

    assert!(schema.fields().is_empty());
}

#[test]
fn given_text_payload_when_inferring_should_fail() {
    let error = sample_and_infer_schema(&vec![
        json(1, "{\"a\": 1}"),
        message(77, Payload::Text("{}".to_string())),
    ])
    .expect_err("Text payload should not be sampled");

    assert_eq!(
        error.message(),
        "Sampling has failed for messages. Can not create arrow schema because of [External \
         error: Sampling has failed for messages. Can not create arrow schema because of [Only \
         JSON Payload is supported for sampling and infer [77]]]"
    );
}

#[test]
fn given_bad_document_before_text_payload_when_inferring_should_report_the_document() {
    let error = sample_and_infer_schema(&vec![
        json(1, "[1]"),
        message(77, Payload::Text("{}".to_string())),
    ])
    .expect_err("Array should not be sampled");

    assert!(matches!(
        error,
        SchemaCatalogError::SampleFailed { reason } if !reason.contains("[77]")
    ));
}

#[test]
fn given_documents_when_storing_inferred_schema_should_describe_table() {
    let mut catalog = SchemaCatalog::default();

    let entry = catalog
        .create_and_store_schema_from_infer(
            &path(),
            &vec![json(1, "{\"n\": 1, \"s\": \"x\", \"o\": {\"p\": true}}")],
        )
        .expect("Schema should be inferred");

    assert_eq!(
        entry.table_descriptor().comment(),
        Some("Automatically created table")
    );
    assert!(!entry.table_descriptor().has_primary_key());
    assert!(entry.table_descriptor().partition_keys().is_empty());
    assert!(entry.table_descriptor().table_distribution().is_none());
    assert!(entry.table_descriptor().properties().is_empty());
    assert!(entry.table_descriptor().custom_properties().is_empty());
    let columns = entry.table_descriptor().schema().columns();
    assert_eq!(columns.len(), 3);
    for column in columns {
        match column.name() {
            "n" => assert_eq!(column.data_type(), &DataTypes::bigint()),
            "s" => assert_eq!(column.data_type(), &DataTypes::string()),
            "o" => assert!(matches!(
                column.data_type(),
                fluss::metadata::DataType::Row(row) if row.fields()[0].name() == "p"
            )),
            other => panic!("unexpected column {other}"),
        }
    }
}

#[test]
fn given_column_without_fluss_type_when_storing_inferred_schema_should_fail() {
    let mut catalog = SchemaCatalog::default();

    let error = catalog
        .create_and_store_schema_from_infer(&path(), &vec![json(1, "{\"n\": null}")])
        .expect_err("Null column should have no Fluss type");

    assert!(matches!(
        &error,
        SchemaCatalogError::ArrowSchemaToFlussRowType { table_path, .. } if table_path == &path()
    ));
    assert!(error.message().starts_with(
        "Failed to convert arrow Schema to fluss RowType for table analytics.events because of: "
    ));
    assert!(catalog.get_schema_entry(&path()).is_none());
}

#[test]
fn given_catalog_errors_when_writing_them_should_keep_their_reasons() {
    let reason = || "why".to_string();

    assert_eq!(
        SchemaCatalogError::BuildTableDescriptor {
            table_path: path(),
            reason: reason()
        }
        .message(),
        "Failed to build Fluss table descriptor for table analytics.events: why"
    );
    assert_eq!(
        SchemaCatalogError::FlussToArrowSchemaFailed { reason: reason() }.message(),
        "Failed to convert Fluss schema to Arrow schema because: why"
    );
    assert_eq!(
        SchemaCatalogError::SampleFailed { reason: reason() }.message(),
        "Sampling has failed for messages. Can not create arrow schema because of [why]"
    );
}
