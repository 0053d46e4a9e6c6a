use arrow::array::{Array, StringArray};
use fluss_sink::config::{FlussSinkConfig, RouterType};
use fluss_sink::connector::ConnectorError;
use fluss_sink::message::{
    ConsumedMessage, MessagesMetadata, Payload, PayloadSchema, TopicMetadata,
};
use fluss_sink::sink::FlussSink;
use fluss_sink::table_path::TablePath;
use fluss_sink::writer::{Op, WriterCall, WriterError, WriterTask};

fn test_config() -> FlussSinkConfig {
    FlussSinkConfig {
        bootstrap_servers: "localhost:9123".to_string(),
        fluss_database: "fluss".to_string(),
        fluss_table: "iggy_messages".to_string(),
        batch_size: 100,
        auto_create_table: true,
        include_metadata: true,
        include_checksum: true,
        include_origin_timestamp: true,
        payload_format: "text".to_string(),
        create_table: true,
        router_type: RouterType::Single,
        route_key: "table".to_string(),
    }
}

fn topic() -> TopicMetadata {
    TopicMetadata {
        stream: "orders".to_string(),
        topic: "created".to_string(),
    }
}

fn metadata() -> MessagesMetadata {
    MessagesMetadata {
        partition_id: 3,
        current_offset: 9,
        schema: PayloadSchema::Text,
    }
}

fn message(payload: Payload) -> ConsumedMessage {
    ConsumedMessage {
        id: 1,
        offset: 2,
        checksum: 3,
        timestamp: 4,
        origin_timestamp: 5,
        headers: None,
        payload,
    }
}

#[test]
fn given_unopened_sink_when_consuming_should_fail_and_count() {
    let mut sink = FlussSink::new(4, test_config());

    let error = sink
        .consume(&topic(), metadata(), vec![])
        .expect_err("Unopened sink should fail");

    assert_eq!(
        error,
        ConnectorError::InitError("Fluss table layout is not initialized".to_string())
    );
    assert_eq!(sink.id(), 4);
    assert_eq!(sink.invocations_count(), 1);
}

#[test]
fn given_unsupported_format_when_opening_should_fail_first() {
    let mut config = test_config();
    config.payload_format = "xml".to_string();
    let sink = FlussSink::new(4, config);

    assert!(matches!(
        sink.open(),
        Err(ConnectorError::InvalidConfigValue(message))
            if message.contains("unsupported Fluss payload_format 'xml'")
    ));
}

#[test]
fn given_failed_connection_when_opening_should_stay_closed() {
    let mut sink = FlussSink::new(4, test_config());
    let opening = sink.open().expect("Layout should be valid");

    let error = sink
        .on_connected(
            opening,
            Err(WriterError::Connect {
                source: "refused".to_string(),
            }),
        )
        .expect_err("Opening should fail");

    assert_eq!(
        error,
        ConnectorError::InitError("Failed to connect to Fluss: refused".to_string())
    );
    assert!(sink.consume(&topic(), metadata(), vec![]).is_err());
}

#[test]
fn given_open_sink_when_consuming_should_write_to_configured_table() {
    let mut sink = FlussSink::new(4, test_config());
    let opening = sink.open().expect("Layout should be valid");
    sink.on_connected(opening, Ok(())).expect("Sink should open");

    let counted = sink
        .consume(
            &topic(),
            metadata(),
            vec![
                message(Payload::Text("first".to_string())),
                message(Payload::Raw(vec![0xff])),
                message(Payload::Text("third".to_string())),
            ],
        )
        .expect("Messages should be taken");

    assert_eq!(counted.write.table_path, TablePath::new("fluss", "iggy_messages"));
    assert_eq!(counted.write.op, Op::Append);
    assert_eq!(counted.stat.appended, 2);
    assert_eq!(counted.stat.errors, 1);
    assert_eq!(counted.skipped.len(), 1);
    let batch = counted.write.batch.record_batch;
    assert_eq!(batch.num_rows(), 2);
    let payloads = batch
        .column_by_name("payload")
        .expect("Payload column should exist")
        .as_any()
        .downcast_ref::<StringArray>()
        .expect("Payload column should contain strings");
    assert_eq!(payloads.iter().collect::<Vec<_>>(), vec![Some("first"), Some("third")]);
    assert_eq!(sink.invocations_count(), 1);
    sink.close().expect("Closing should succeed");
}

#[test]
fn given_sink_when_running_writer_should_connect_it() {
    let mut sink = FlussSink::new(4, test_config());
    let task = WriterTask::Connect;

    let writer = sink.writer_mut();
    assert!(!writer.is_connected());
    let call = writer.start(&task).expect("Connecting should start");
    let next = writer
        .proceed(&task, call, Ok(()))
        .expect("Connecting should go on");
    assert_eq!(next, Some(WriterCall::Connect));
    writer
        .proceed(&task, WriterCall::Connect, Ok(()))
        .expect("Connecting should go on");
    assert!(!writer.is_connected());
    writer
        .proceed(&task, WriterCall::GetWriterClient, Ok(()))
        .expect("Connecting should end");

    assert!(sink.writer_mut().is_connected());
}
