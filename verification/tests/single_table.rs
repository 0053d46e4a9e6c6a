use std::collections::HashMap;
use std::sync::{Arc, Mutex};

use arrow::array::{Array, BinaryArray, Int64Array, StringArray};
use arrow::record_batch::RecordBatch;
use fluss::metadata::{Schema, TableDescriptor, TableInfo};
use fluss_sink::config::{FlussSinkConfig, RouterType};
use fluss_sink::connector::ConnectorError;
use fluss_sink::message::{
    ConsumedMessage, MessagesMetadata, Payload, PayloadSchema, TopicMetadata,
};
use fluss_sink::router::single_table::{InitStep, SingleTableRouter};
use fluss_sink::router::{Router, RouterError};
use fluss_sink::schema_catalog::SchemaCatalogError;
use fluss_sink::table_path::TablePath;
use fluss_sink::writer::{Op, Stat, WriterError};

const MESSAGE_TIMESTAMP: u64 = 1_700_000_000_123_456;
const ORIGIN_TIMESTAMP: u64 = 1_700_000_000_120_789;

struct TableCreation {
    table_path: TablePath,
    table_descriptor: TableDescriptor,
}

struct TableWrite {
    table_path: TablePath,
    batch: RecordBatch,
    op: Op,
}

#[derive(Default)]
struct RecordingWriter {
    table_creations: Mutex<Vec<TableCreation>>,
    table_writes: Mutex<Vec<TableWrite>>,
    fail_table_creation: bool,
    fail_table_write: bool,
}

impl RecordingWriter {
    fn write_to_table(
        &self,
        table_path: &TablePath,
        op: Op,
        batch: RecordBatch,
    ) -> Result<(), WriterError> {
        if self.fail_table_write {
            return Err(WriterError::ConnectionNotInitialized);
        }

        self.table_writes
            .lock()
            .expect("Table writes lock should not be poisoned")
            .push(TableWrite {
                table_path: table_path.clone(),
                batch,
                op,
            });
        Ok(())
    }

    fn create_table_if_not_exists(
        &self,
        table_path: &TablePath,
        table_descriptor: &TableDescriptor,
    ) -> Result<(), WriterError> {
        if self.fail_table_creation {
            return Err(WriterError::ConnectionNotInitialized);
        }

        self.table_creations
            .lock()
            .expect("Table creations lock should not be poisoned")
            .push(TableCreation {
                table_path: table_path.clone(),
                table_descriptor: table_descriptor.clone(),
            });
        Ok(())
    }

    fn get_table(&self, table_path: &TablePath) -> Result<TableInfo, WriterError> {
        Err(WriterError::TableNotFound {
            table_path: table_path.to_owned(),
        })
    }
}

fn init(router: &mut SingleTableRouter, writer: &RecordingWriter) -> Result<(), RouterError> {
    let mut step = router.init();
    loop {
        step = match step {
            InitStep::Ready => return Ok(()),
            InitStep::LookUpTable => {
                let found = writer.get_table(router.table_path());
                router.on_table(found)?
            }
            InitStep::CreateTable { table_descriptor } => {
                let outcome =
                    writer.create_table_if_not_exists(router.table_path(), &table_descriptor);
                router.on_created(outcome)?
            }
        };
    }
}

fn route(
    router: &SingleTableRouter,
    writer: &RecordingWriter,
    topic_metadata: &TopicMetadata,
    messages_metadata: MessagesMetadata,
    messages: Vec<ConsumedMessage>,
) -> Result<Stat, RouterError> {
    let counted = router.route(topic_metadata, messages_metadata, messages)?;
    let outcome = writer.write_to_table(
        &counted.write.table_path,
        counted.write.op,
        counted.write.batch.record_batch,
    );
    router.on_written(counted.stat, outcome)
}

fn test_config() -> FlussSinkConfig {
    FlussSinkConfig {
        bootstrap_servers: "localhost:9123".to_string(),
        fluss_database: "analytics".to_string(),
        fluss_table: "events".to_string(),
        batch_size: 100,
        auto_create_table: true,
        include_metadata: true,
        include_checksum: true,
        include_origin_timestamp: true,
        payload_format: "text".to_string(),
        create_table: true,
        router_type: RouterType::Single,
        route_key: "table".to_string(),
    }
}

fn test_router() -> SingleTableRouter {
    SingleTableRouter::new(&test_config()).expect("Text payload format should be valid")
}

fn test_topic_metadata() -> TopicMetadata {
    TopicMetadata {
        stream: "orders".to_string(),
        topic: "created".to_string(),
    }
}

fn test_messages_metadata() -> MessagesMetadata {
    MessagesMetadata {
        partition_id: 7,
        current_offset: 202,
        schema: PayloadSchema::Text,
    }
}

fn test_message(id: u128, payload: Payload) -> ConsumedMessage {
    ConsumedMessage {
        id,
        offset: id as u64,
        checksum: id as u64 + 100,
        timestamp: MESSAGE_TIMESTAMP,
        origin_timestamp: ORIGIN_TIMESTAMP,
        headers: None,
        payload,
    }
}

fn assert_stats(stats: &Stat, expected_messages_processed: u64, expected_insertion_errors: u64) {
    assert_eq!(stats.appended, expected_messages_processed);
    assert_eq!(stats.errors, expected_insertion_errors);
}

fn table_info(schema: Schema, keys: Vec<String>) -> TableInfo {
    TableInfo::new(
        fluss::metadata::TablePath::new("analytics", "events"),
        1,
        1,
        schema,
        keys.clone(),
        Arc::from(keys),
        1,
        HashMap::new(),
        HashMap::new(),
        None,
        0,
        0,
    )
}

#[test]
fn given_target_config_when_creating_router_should_preserve_routing_settings() {
    let config = FlussSinkConfig {
        auto_create_table: false,
        ..test_config()
    };

    let router = SingleTableRouter::new(&config).expect("Text payload format should be valid");

    assert_eq!(router.table_path(), &TablePath::new("analytics", "events"));
    assert!(!router.auto_create_table());
}

#[test]
fn given_auto_create_enabled_when_initializing_should_create_expected_table() {
    let mut router = test_router();
    let writer = RecordingWriter::default();

    init(&mut router, &writer).expect("Router should initialize");

    let table_creations = writer
        .table_creations
        .lock()
        .expect("Table creations lock should not be poisoned");
    assert_eq!(table_creations.len(), 1);
    assert_eq!(&table_creations[0].table_path, router.table_path());
    assert_eq!(
        table_creations[0].table_descriptor,
        router
            .layout()
            .build_table_descriptor()
            .expect("Expected table descriptor should build")
    );
}

#[test]
fn given_auto_create_disabled_when_initializing_should_not_create_table() {
    let config = FlussSinkConfig {
        auto_create_table: false,
        ..test_config()
    };
    let mut router = SingleTableRouter::new(&config).expect("Text payload format should be valid");
    let writer = RecordingWriter::default();

    init(&mut router, &writer).expect("Router should initialize");

    assert!(writer
        .table_creations
        .lock()
        .expect("Table creations lock should not be poisoned")
        .is_empty());
}

#[test]
fn given_table_creation_failure_when_initializing_should_return_writer_error() {
    let mut router = test_router();
    let writer = RecordingWriter {
        fail_table_creation: true,
        ..RecordingWriter::default()
    };

    let error = init(&mut router, &writer).expect_err("Table creation should fail");

    assert!(matches!(
        error,
        RouterError::WriterError(WriterError::ConnectionNotInitialized)
    ));
}

#[test]
fn given_valid_messages_when_routing_should_write_batch_with_context_and_return_success_stats() {
    let router = test_router();
    let writer = RecordingWriter::default();
    let messages = vec![
        test_message(101, Payload::Text("first".to_string())),
        test_message(102, Payload::Text("second".to_string())),
    ];

    let stats = route(
        &router,
        &writer,
        &test_topic_metadata(),
        test_messages_metadata(),
        messages,
    )
    .expect("Messages should be routed");

    assert_stats(&stats, 2, 0);
    let table_writes = writer
        .table_writes
        .lock()
        .expect("Table writes lock should not be poisoned");
    assert_eq!(table_writes.len(), 1);
    assert_eq!(&table_writes[0].table_path, router.table_path());
    assert_eq!(table_writes[0].batch.num_rows(), 2);

    let streams = table_writes[0]
        .batch
        .column_by_name("iggy_stream")
        .expect("Stream column should exist")
        .as_any()
        .downcast_ref::<StringArray>()
        .expect("Stream column should contain strings");
    let topics = table_writes[0]
        .batch
        .column_by_name("iggy_topic")
        .expect("Topic column should exist")
        .as_any()
        .downcast_ref::<StringArray>()
        .expect("Topic column should contain strings");
    let partition_ids = table_writes[0]
        .batch
        .column_by_name("iggy_partition_id")
        .expect("Partition ID column should exist")
        .as_any()
        .downcast_ref::<Int64Array>()
        .expect("Partition ID column should contain integers");

    assert_eq!(streams.iter().collect::<Vec<_>>(), vec![Some("orders"); 2]);
    assert_eq!(topics.iter().collect::<Vec<_>>(), vec![Some("created"); 2]);
    assert_eq!(partition_ids.iter().collect::<Vec<_>>(), vec![Some(7); 2]);
}

#[test]
fn given_invalid_and_valid_messages_when_routing_should_skip_invalid_message() {
    let router = test_router();
    let writer = RecordingWriter::default();
    let messages = vec![
        test_message(101, Payload::Raw(vec![0xff])),
        test_message(102, Payload::Text("valid".to_string())),
    ];

    let stats = route(
        &router,
        &writer,
        &test_topic_metadata(),
        test_messages_metadata(),
        messages,
    )
    .expect("Valid message should be routed");

    assert_stats(&stats, 1, 1);
    let table_writes = writer
        .table_writes
        .lock()
        .expect("Table writes lock should not be poisoned");
    assert_eq!(table_writes.len(), 1);
    assert_eq!(table_writes[0].batch.num_rows(), 1);
    let payloads = table_writes[0]
        .batch
        .column_by_name("payload")
        .expect("Payload column should exist")
        .as_any()
        .downcast_ref::<StringArray>()
        .expect("Payload column should contain strings");
    assert_eq!(payloads.value(0), "valid");
}

#[test]
fn given_write_messages_router_should_write_with_append_mode() {
    let router = test_router();
    let writer = RecordingWriter::default();
    let messages = vec![test_message(102, Payload::Text("valid".to_string()))];

    route(
        &router,
        &writer,
        &test_topic_metadata(),
        test_messages_metadata(),
        messages,
    )
    .expect("Valid message should be routed");

    let table_writes = writer
        .table_writes
        .lock()
        .expect("Table writes lock should not be poisoned");
    assert_eq!(table_writes.len(), 1);

    let op = &table_writes[0].op;
    assert_eq!(op, &Op::Append);
}

#[test]
fn given_table_write_failure_when_routing_should_return_writer_error() {
    let router = test_router();
    let writer = RecordingWriter {
        fail_table_write: true,
        ..RecordingWriter::default()
    };

    let error = route(
        &router,
        &writer,
        &test_topic_metadata(),
        test_messages_metadata(),
        vec![test_message(101, Payload::Text("payload".to_string()))],
    )
    .err()
    .expect("Table write should fail");

    assert!(matches!(error, RouterError::WriterError { .. }));
}

#[test]
fn given_no_messages_when_routing_should_write_empty_batch() {
    let router = test_router();

    let counted = router
        .route(&test_topic_metadata(), test_messages_metadata(), vec![])
        .expect("Nothing should be routed");

    assert_stats(&counted.stat, 0, 0);
    assert_eq!(counted.write.batch.record_batch.num_rows(), 0);
    assert_eq!(counted.write.batch.record_batch.num_columns(), 9);
    let expected = router.layout().arrow_schema().expect("Schema should be made");
    assert_eq!(counted.write.batch.record_batch.schema(), expected);
}

#[test]
fn given_binary_format_when_routing_should_write_payload_bytes() {
    let config = FlussSinkConfig {
        payload_format: "bytea".to_string(),
        ..test_config()
    };
    let router = SingleTableRouter::new(&config).expect("Binary payload format should be valid");

    let counted = router
        .route(
            &test_topic_metadata(),
            test_messages_metadata(),
            vec![
                test_message(1, Payload::Raw(vec![0xff, 0])),
                test_message(2, Payload::Text("b".to_string())),
            ],
        )
        .expect("Messages should be routed");

    assert_stats(&counted.stat, 2, 0);
    let batch = counted.write.batch.record_batch;
    let payloads = batch
        .column_by_name("payload")
        .expect("Payload column should exist")
        .as_any()
        .downcast_ref::<BinaryArray>()
        .expect("Payload column should contain bytes");
    assert_eq!(payloads.value(0), &[0xff, 0]);
    assert_eq!(payloads.value(1), b"b");
    let ids = batch
        .column_by_name("id")
        .expect("ID column should exist")
        .as_any()
        .downcast_ref::<StringArray>()
        .expect("ID column should contain strings");
    assert_eq!(ids.iter().collect::<Vec<_>>(), vec![Some("1"), Some("2")]);
    let timestamps = batch
        .column_by_name("iggy_timestamp")
        .expect("Timestamp column should exist")
        .as_any()
        .downcast_ref::<StringArray>()
        .expect("Timestamp column should contain strings");
    assert_eq!(timestamps.value(1), "1700000000123456");
}

#[test]
fn given_bad_message_between_good_ones_when_routing_should_keep_their_order() {
    let router = test_router();

    let counted = router
        .route(
            &test_topic_metadata(),
            test_messages_metadata(),
            vec![
                test_message(1, Payload::Text("a".to_string())),
                test_message(2, Payload::Raw(vec![0xff])),
                test_message(3, Payload::Text("b".to_string())),
            ],
        )
        .expect("Messages should be routed");

    assert_stats(&counted.stat, 2, 1);
    assert_eq!(counted.skipped.len(), 1);
    assert!(matches!(
        &counted.skipped[0],
        ConnectorError::Serialization(detail)
            if detail.contains("not valid UTF-8 for the Fluss STRING column")
    ));
    let batch = counted.write.batch.record_batch;
    let payloads = batch
        .column_by_name("payload")
        .expect("Payload column should exist")
        .as_any()
        .downcast_ref::<StringArray>()
        .expect("Payload column should contain strings");
    assert_eq!(payloads.iter().collect::<Vec<_>>(), vec![Some("a"), Some("b")]);
}

#[test]
fn given_existing_table_when_initializing_should_not_create_it() {
    let mut router = test_router();
    let descriptor = router.layout().build_table_descriptor().expect("Descriptor should build");

    let step = router
        .on_table(Ok(table_info(descriptor.schema().clone(), vec![])))
        .expect("Existing table should be taken");

    assert!(matches!(step, InitStep::Ready));
}

#[test]
fn given_lookup_failure_when_initializing_should_return_catalog_error() {
    let mut router = test_router();

    let error = router
        .on_table(Err(WriterError::ConnectionNotInitialized))
        .err()
        .expect("Failed lookup should fail");

    assert!(matches!(
        &error,
        RouterError::SchemaCatalog(SchemaCatalogError::Writer(
            WriterError::ConnectionNotInitialized
        ))
    ));
    assert_eq!(
        error.into_connector_error(),
        ConnectorError::InitError("Fluss connection is not initialized".to_string())
    );
}

#[test]
fn given_bucket_key_among_partition_keys_when_initializing_should_refuse_table() {
    let mut router = test_router();
    let descriptor = router.layout().build_table_descriptor().expect("Descriptor should build");
    let info = table_info(descriptor.schema().clone(), vec!["iggy_topic".to_string()]);
    let reason = info
        .to_table_descriptor()
        .expect_err("Descriptor should not build")
        .to_string();

    let error = router.on_table(Ok(info)).err().expect("Table should be refused");

    assert_eq!(
        error.into_connector_error(),
        ConnectorError::InvalidRecordValue(format!(
            "Failed to build Fluss table descriptor for table analytics.events: {reason}"
        ))
    );
}

#[test]
fn given_router_type_when_choosing_router_should_follow_it() {
    assert!(matches!(
        Router::from_config(&test_config()),
        Ok(Router::SingleTable(_))
    ));
    let config = FlussSinkConfig {
        router_type: RouterType::Multi,
        payload_format: "xml".to_string(),
        ..test_config()
    };
    assert!(matches!(
        Router::from_config(&config),
        Ok(Router::MultiTable(_))
    ));
    let config = FlussSinkConfig {
        payload_format: "xml".to_string(),
        ..test_config()
    };
    assert!(matches!(
        Router::from_config(&config),
        Err(ConnectorError::InvalidConfigValue(_))
    ));
}
