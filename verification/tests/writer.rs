use std::sync::Arc;

use fluss::error::Error as FlussError;
use fluss::metadata::{DataTypes, Schema, TableDescriptor};
use fluss_sink::config::{FlussSinkConfig, RouterType};
use fluss_sink::connector::ConnectorError;
use fluss_sink::table_path::TablePath;
use fluss_sink::writer::{
    lookup_error, CallError, FlussWriter, Op, Stat, TableWriteResult, WriterCall, WriterError,
    WriterTask,
};

fn test_config() -> FlussSinkConfig {
    FlussSinkConfig {
        bootstrap_servers: "localhost:9123".to_string(),
        fluss_database: "fluss".to_string(),
        fluss_table: "iggy_messages".to_string(),
        batch_size: 100,
        auto_create_table: true,
        include_metadata: true,
        include_checksum: true,
        include_origin_timestamp: true,
        payload_format: "bytea".to_string(),
        create_table: true,
        router_type: RouterType::Single,
        route_key: "table".to_string(),
    }
}

fn test_path() -> TablePath {
    TablePath::new("fluss", "iggy_messages")
}

fn test_descriptor() -> TableDescriptor {
    let schema = Schema::builder()
        .column("id", DataTypes::string())
        .build()
        .expect("Schema should build");
    TableDescriptor::builder()
        .schema(schema)
        .build()
        .expect("Descriptor should build")
}

fn create_task() -> WriterTask {
    WriterTask::CreateTable {
        table_path: test_path(),
        table_descriptor: Arc::new(test_descriptor()),
    }
}

#[test]
fn given_connector_error_when_converting_should_preserve_original_variant() {
    let expected = ConnectorError::InvalidConfigValue("invalid value".to_string());

    let actual: ConnectorError = WriterError::Connector(expected.clone()).into_connector_error();

    assert_eq!(actual, expected);
}

#[test]
fn given_missing_connection_when_converting_should_return_init_error() {
    let error: ConnectorError = WriterError::ConnectionNotInitialized.into_connector_error();

    assert_eq!(
        error,
        ConnectorError::InitError("Fluss connection is not initialized".to_string())
    );
}

#[test]
fn given_arrow_append_failure_when_converting_should_return_cannot_store_data() {
    let error: ConnectorError = WriterError::AppendArrowBatch {
        table_path: TablePath::new("fluss", "iggy_messages"),
        source: FlussError::WriterClosed {
            message: "writer closed".to_string(),
        }
        .to_string(),
    }
    .into_connector_error();

    assert!(matches!(
        error,
        ConnectorError::CannotStoreData(message)
            if message.contains("fluss.iggy_messages") && message.contains("writer closed")
    ));
}

#[test]
fn given_each_writer_error_when_converting_should_keep_its_message() {
    let source = || "boom".to_string();
    let cases = vec![
        (
            WriterError::Connect { source: source() },
            ConnectorError::InitError("Failed to connect to Fluss: boom".to_string()),
        ),
        (
            WriterError::InvalidWriterConfig { source: source() },
            ConnectorError::InvalidConfigValue(
                "Invalid Fluss writer configuration: boom".to_string(),
            ),
        ),
        (
            WriterError::CloseConnection { source: source() },
            ConnectorError::Connection("Failed to close Fluss connection: boom".to_string()),
        ),
        (
            WriterError::GetAdminClient { source: source() },
            ConnectorError::CannotStoreData("Failed to get Fluss admin client: boom".to_string()),
        ),
        (
            WriterError::CreateTable {
                table_path: test_path(),
                source: source(),
            },
            ConnectorError::CannotStoreData(
                "Failed to create Fluss table 'fluss.iggy_messages': boom".to_string(),
            ),
        ),
        (
            WriterError::GetTable {
                table_path: test_path(),
                source: source(),
            },
            ConnectorError::CannotStoreData(
                "Failed to get Fluss table 'fluss.iggy_messages': boom".to_string(),
            ),
        ),
        (
            WriterError::TableNotFound {
                table_path: test_path(),
            },
            ConnectorError::CannotStoreData(
                "Fluss table 'fluss.iggy_messages' was not found".to_string(),
            ),
        ),
        (
            WriterError::CreateAppender {
                table_path: test_path(),
                source: source(),
            },
            ConnectorError::CannotStoreData(
                "Failed to create appender for Fluss table 'fluss.iggy_messages': boom".to_string(),
            ),
        ),
        (
            WriterError::CreateWriter {
                table_path: test_path(),
                source: source(),
            },
            ConnectorError::CannotStoreData(
                "Failed to create writer for Fluss table 'fluss.iggy_messages': boom".to_string(),
            ),
        ),
        (
            WriterError::AppendArrowBatch {
                table_path: test_path(),
                source: source(),
            },
            ConnectorError::CannotStoreData(
                "Failed to append Arrow batch to Fluss table 'fluss.iggy_messages': boom"
                    .to_string(),
            ),
        ),
        (
            WriterError::FlushRows {
                table_path: test_path(),
                source: source(),
            },
            ConnectorError::CannotStoreData(
                "Failed to flush rows to Fluss table 'fluss.iggy_messages': boom".to_string(),
            ),
        ),
    ];

    for (error, expected) in cases {
        assert_eq!(error.message(), expected.detail());
        assert_eq!(error.into_connector_error(), expected);
    }
}

#[test]
fn given_failed_lookup_when_table_is_missing_should_say_so() {
    assert!(matches!(
        lookup_error(&test_path(), true, "gone".to_string()),
        WriterError::TableNotFound { table_path } if table_path == test_path()
    ));
    assert!(matches!(
        lookup_error(&test_path(), false, "timeout".to_string()),
        WriterError::GetTable { table_path, source }
            if table_path == test_path() && source == "timeout"
    ));
}

fn run(writer: &mut FlussWriter, task: &WriterTask, fail_at: usize) -> Result<Vec<WriterCall>, WriterError> {
    let mut calls = Vec::new();
    let mut call = writer.start(task)?;
    loop {
        calls.push(call);
        let outcome = if calls.len() == fail_at {
            Err(CallError::Client("refused".to_string()))
        } else {
            Ok(())
        };
        match writer.proceed(task, call, outcome)? {
            Some(next) => call = next,
            None => return Ok(calls),
        }
    }
}

fn connected_writer() -> FlussWriter {
    let mut writer = FlussWriter::new(test_config());
    run(&mut writer, &WriterTask::Connect, 0).expect("Writer should connect");
    writer
}

#[test]
fn given_unconnected_writer_when_starting_should_only_connect() {
    let writer = FlussWriter::new(test_config());

    assert_eq!(writer.to_text(), "FlussWriter");
    assert!(!writer.is_connected());
    assert!(matches!(
        writer.start(&WriterTask::Connect),
        Ok(WriterCall::ConvertConfig)
    ));
    let others = vec![
        WriterTask::Close,
        WriterTask::LookUpTable {
            table_path: test_path(),
        },
        create_task(),
        WriterTask::Write {
            table_path: test_path(),
            op: Op::Append,
        },
    ];
    for task in others {
        assert!(matches!(
            writer.start(&task),
            Err(WriterError::ConnectionNotInitialized)
        ));
    }
}

#[test]
fn given_tasks_when_running_should_make_calls_in_order() {
    let mut writer = FlussWriter::new(test_config());
    assert_eq!(
        run(&mut writer, &WriterTask::Connect, 0).expect("Connecting should succeed"),
        vec![
            WriterCall::ConvertConfig,
            WriterCall::Connect,
            WriterCall::GetWriterClient
        ]
    );
    assert!(writer.is_connected());
    assert_eq!(
        run(
            &mut writer,
            &WriterTask::LookUpTable {
                table_path: test_path()
            },
            0
        )
        .expect("Looking up should succeed"),
        vec![WriterCall::GetTable]
    );
    assert_eq!(
        run(&mut writer, &create_task(), 0).expect("Creating should succeed"),
        vec![WriterCall::GetAdmin, WriterCall::CreateTable]
    );
    assert_eq!(
        run(
            &mut writer,
            &WriterTask::Write {
                table_path: test_path(),
                op: Op::Append
            },
            0
        )
        .expect("Writing should succeed"),
        vec![
            WriterCall::GetTable,
            WriterCall::NewAppend,
            WriterCall::CreateWriter,
            WriterCall::AppendArrowBatch,
            WriterCall::Flush,
        ]
    );
    assert_eq!(
        run(&mut writer, &WriterTask::Close, 0).expect("Closing should succeed"),
        vec![WriterCall::GetWriterClient, WriterCall::CloseWriterClient]
    );
}

#[test]
fn given_failed_call_when_connecting_should_stay_unconnected() {
    let mut writer = FlussWriter::new(test_config());

    assert!(matches!(
        run(&mut writer, &WriterTask::Connect, 2),
        Err(WriterError::Connect { source }) if source == "refused"
    ));
    assert!(!writer.is_connected());
    assert!(matches!(
        run(&mut writer, &WriterTask::Connect, 3),
        Err(WriterError::InvalidWriterConfig { source }) if source == "refused"
    ));
    assert!(!writer.is_connected());
}

#[test]
fn given_unusable_config_when_connecting_should_keep_connector_error() {
    let mut writer = FlussWriter::new(test_config());
    let expected = ConnectorError::InvalidConfigValue("batch_size".to_string());
    let task = WriterTask::Connect;
    let call = writer.start(&task).expect("Connecting should start");

    let error = writer
        .proceed(&task, call, Err(CallError::Connector(expected.clone())))
        .expect_err("Unusable configuration should fail");

    assert_eq!(error.into_connector_error(), expected);
    assert!(!writer.is_connected());
}

#[test]
fn given_tasks_when_asking_for_requests_should_hand_out_what_calls_need() {
    let task = create_task();
    let request = task.create_request().expect("Request should be made");

    assert_eq!(request.table_path, &test_path());
    assert_eq!(request.table_descriptor, &test_descriptor());
    assert!(request.ignore_if_exists);
    assert!(WriterTask::Connect.create_request().is_none());
    assert!(task.close_request().is_none());
    let close = WriterTask::Close.close_request().expect("Request should be made");
    assert_eq!(close.timeout_seconds, 30);
    assert!(WriterTask::Close.create_request().is_none());
    assert!(WriterTask::LookUpTable {
        table_path: test_path()
    }
    .create_request()
    .is_none());
}

#[test]
fn given_failed_call_when_writing_should_name_call_and_table() {
    let task = WriterTask::Write {
        table_path: test_path(),
        op: Op::Append,
    };

    assert!(matches!(
        run(&mut connected_writer(), &task, 1),
        Err(WriterError::GetTable { table_path, .. }) if table_path == test_path()
    ));
    assert!(matches!(
        run(&mut connected_writer(), &task, 2),
        Err(WriterError::CreateAppender { table_path, .. }) if table_path == test_path()
    ));
    assert!(matches!(
        run(&mut connected_writer(), &task, 3),
        Err(WriterError::CreateWriter { table_path, .. }) if table_path == test_path()
    ));
    assert!(matches!(
        run(&mut connected_writer(), &task, 4),
        Err(WriterError::AppendArrowBatch { table_path, .. }) if table_path == test_path()
    ));
    assert!(matches!(
        run(&mut connected_writer(), &task, 5),
        Err(WriterError::FlushRows { table_path, .. }) if table_path == test_path()
    ));
}

#[test]
fn given_failed_call_when_creating_or_closing_should_name_call() {
    let create = create_task();

    assert!(matches!(
        run(&mut connected_writer(), &create, 1),
        Err(WriterError::GetAdminClient { .. })
    ));
    assert!(matches!(
        run(&mut connected_writer(), &create, 2),
        Err(WriterError::CreateTable { table_path, .. }) if table_path == test_path()
    ));
    assert!(matches!(
        run(&mut connected_writer(), &WriterTask::Close, 1),
        Err(WriterError::InvalidWriterConfig { .. })
    ));
    assert!(matches!(
        run(&mut connected_writer(), &WriterTask::Close, 2),
        Err(WriterError::CloseConnection { .. })
    ));
}

#[test]
fn given_counts_when_adding_should_sum_them() {
    let mut stat = Stat::default();
    stat.inc_err();
    stat.inc_err_by(4);
    stat.inc_appended();

    let sum = stat.add(Stat {
        appended: 10,
        errors: 20,
    });

    assert_eq!(
        sum,
        Stat {
            appended: 11,
            errors: 25
        }
    );
    let result = TableWriteResult::default();
    assert_eq!(result.insertion_errors, 0);
    assert_eq!(result.messages_processed, 0);
}
