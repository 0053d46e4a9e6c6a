use fluss::metadata::DataTypes;
use fluss::row::Datum as FlussDatum;
use fluss_sink::config::{FlussSinkConfig, RouterType};
use fluss_sink::connector::ConnectorError as Error;
use fluss_sink::fluss_schema::Datum;
use fluss_sink::message::{ConsumedMessage, Payload};
use fluss_sink::schema::{ColumnKind, FlussTableLayout, RowContext};

fn test_config() -> FlussSinkConfig {
    FlussSinkConfig {
        bootstrap_servers: "localhost:9123".to_string(),
        fluss_database: "fluss".to_string(),
        fluss_table: "iggy_messages".to_string(),
        batch_size: 100,
        auto_create_table: true,
        include_metadata: true,
        include_checksum: true,
        include_origin_timestamp: true,
        payload_format: "bytea".to_string(),
        create_table: true,
        router_type: RouterType::Single,
        route_key: "table".to_string(),
    }
}

fn test_message(payload: Payload) -> ConsumedMessage {
    ConsumedMessage {
        id: 1,
        offset: 2,
        checksum: 3,
        timestamp: 4,
        origin_timestamp: 5,
        headers: None,
        payload,
    }
}

fn test_context() -> RowContext<'static> {
    RowContext {
        stream: "stream",
        topic: "topic",
        partition_id: 7,
    }
}

fn json(text: &str) -> Payload {
    let mut bytes = text.as_bytes().to_vec();
    Payload::Json(simd_json::to_owned_value(&mut bytes).expect("Text should be JSON"))
}

fn layout(config: &FlussSinkConfig) -> FlussTableLayout {
    FlussTableLayout::from_config(config).expect("Payload format should be valid")
}

#[test]
fn given_unsupported_payload_format_when_building_layout_should_return_invalid_config_value() {
    let mut config = test_config();
    config.payload_format = "xml".to_string();

    let error = FlussTableLayout::from_config(&config)
        .expect_err("Unsupported payload format should fail");

    assert!(matches!(
        error,
        Error::InvalidConfigValue(message)
            if message.contains("unsupported Fluss payload_format 'xml'")
    ));
}

#[test]
fn given_invalid_utf8_when_building_string_row_should_return_serialization_error() {
    let mut config = test_config();
    config.payload_format = "text".to_string();
    let table_layout =
        FlussTableLayout::from_config(&config).expect("Text payload format should be valid");
    let message = test_message(Payload::Raw(vec![0xFF]));
    let context = RowContext {
        stream: "stream",
        topic: "topic",
        partition_id: 0,
    };

    let error = table_layout
        .row_from_message(&message, context)
        .expect_err("Invalid UTF-8 payload should fail");

    assert!(matches!(
        error,
        Error::Serialization(message)
            if message.contains("not valid UTF-8 for the Fluss STRING column")
    ));
}

#[test]
fn given_unsupported_payload_format_when_building_layout_should_name_the_supported_ones() {
    let mut config = test_config();
    config.payload_format = "".to_string();

    assert_eq!(
        FlussTableLayout::from_config(&config).expect_err("Empty payload format should fail"),
        Error::InvalidConfigValue(
            "unsupported Fluss payload_format ''; expected one of: bytea, json, text".to_string()
        )
    );
}

#[test]
fn given_full_config_when_building_layout_should_order_columns() {
    assert_eq!(
        layout(&test_config()).column_kinds(),
        &vec![
            ColumnKind::MessageId,
            ColumnKind::Checksum,
            ColumnKind::MessageOffset,
            ColumnKind::MessageTimestamp,
            ColumnKind::Stream,
            ColumnKind::Topic,
            ColumnKind::PartitionId,
            ColumnKind::OriginTimestamp,
            ColumnKind::BinaryPayload,
        ]
    );
}

#[test]
fn given_bare_config_when_building_layout_should_keep_id_and_payload() {
    let mut config = test_config();
    config.include_checksum = false;
    config.include_metadata = false;
    config.include_origin_timestamp = false;
    for format in ["json", "text"] {
        config.payload_format = format.to_string();
        assert_eq!(
            layout(&config).column_kinds(),
            &vec![ColumnKind::MessageId, ColumnKind::StringPayload]
        );
    }
}

#[test]
fn given_layout_when_building_descriptor_should_name_and_type_columns() {
    let descriptor = layout(&test_config())
        .build_table_descriptor()
        .expect("Descriptor should build");

    let names: Vec<&str> = descriptor.schema().columns().iter().map(|column| column.name()).collect();
    assert_eq!(
        names,
        vec![
            "id",
            "checksum",
            "iggy_offset",
            "iggy_timestamp",
            "iggy_stream",
            "iggy_topic",
            "iggy_partition_id",
            "iggy_origin_timestamp",
            "payload",
        ]
    );
    let columns = descriptor.schema().columns();
    assert_eq!(columns[0].data_type(), &DataTypes::string());
    assert_eq!(columns[6].data_type(), &DataTypes::bigint());
    assert_eq!(columns[8].data_type(), &DataTypes::bytes());
    assert_eq!(descriptor.comment(), None);
    assert!(descriptor.schema().primary_key().is_none());
}

#[test]
fn given_every_flag_and_format_when_building_descriptor_should_succeed() {
    for flags in 0..8 {
        for format in ["bytea", "json", "text"] {
            let mut config = test_config();
            config.include_checksum = flags & 1 != 0;
            config.include_metadata = flags & 2 != 0;
            config.include_origin_timestamp = flags & 4 != 0;
            config.payload_format = format.to_string();

            let layout = layout(&config);

            assert!(layout.build_table_descriptor().is_ok());
            assert_eq!(
                layout.arrow_schema().expect("Schema should exist").fields().len(),
                layout.column_kinds().len()
            );
        }
    }
}

#[test]
fn given_layout_when_converting_should_give_arrow_types() {
    let schema = layout(&test_config()).arrow_schema().expect("Schema should exist");

    assert_eq!(schema.field(0).name(), "id");
    assert_eq!(schema.field(0).data_type(), &arrow::datatypes::DataType::Utf8);
    assert_eq!(schema.field(6).data_type(), &arrow::datatypes::DataType::Int64);
    assert_eq!(schema.field(8).data_type(), &arrow::datatypes::DataType::Binary);
    assert!(schema.field(8).is_nullable());
}

#[test]
fn given_message_when_building_row_should_fill_all_columns() {
    let row = layout(&test_config())
        .row_from_message(&test_message(Payload::Raw(vec![1, 2, 0xFF])), test_context())
        .expect("Row should build");

    assert_eq!(row.values.len(), 9);
    assert_eq!(row.values[0], FlussDatum::from("1".to_string()));
    assert_eq!(row.values[1], FlussDatum::from("3".to_string()));
    assert_eq!(row.values[2], FlussDatum::from("2".to_string()));
    assert_eq!(row.values[3], FlussDatum::from("4".to_string()));
    assert_eq!(row.values[4], FlussDatum::from("stream".to_string()));
    assert_eq!(row.values[5], FlussDatum::from("topic".to_string()));
    assert_eq!(row.values[6], FlussDatum::from(7i64));
    assert_eq!(row.values[7], FlussDatum::from("5".to_string()));
    assert_eq!(row.values[8], FlussDatum::Blob(vec![1u8, 2, 0xFF].into()));
}

#[test]
fn given_large_numbers_when_building_row_should_store_them_as_text() {
    let mut message = test_message(Payload::Text("payload".to_string()));
    message.id = u128::MAX;
    message.checksum = u64::MAX;

    let values = layout(&test_config())
        .row_values(&message, test_context())
        .expect("Row should build");

    assert_eq!(
        values[0],
        Datum::Text("340282366920938463463374607431768211455".to_string())
    );
    assert_eq!(values[1], Datum::Text("18446744073709551615".to_string()));
}

#[test]
fn given_each_payload_when_building_row_should_keep_its_bytes() {
    let mut config = test_config();
    config.include_checksum = false;
    config.include_metadata = false;
    config.include_origin_timestamp = false;
    let binary = layout(&config);
    config.payload_format = "text".to_string();
    let text = layout(&config);

    let payloads = vec![
        (Payload::Raw(b"raw".to_vec()), "raw"),
        (Payload::Text("h\u{e9}llo".to_string()), "h\u{e9}llo"),
        (Payload::Proto("proto".to_string()), "proto"),
        (Payload::FlatBuffer(b"flat".to_vec()), "flat"),
        (json("{\"a\": [1, null, \"x\"]}"), "{\"a\":[1,null,\"x\"]}"),
    ];
    for (payload, expected) in payloads {
        let message = test_message(payload);
        let blob = binary.row_values(&message, test_context()).expect("Row should build");
        assert_eq!(blob[1], Datum::Blob(expected.as_bytes().to_vec()));
        let string = text.row_values(&message, test_context()).expect("Row should build");
        assert_eq!(string[1], Datum::Text(expected.to_string()));
    }
}

#[test]
fn given_invalid_utf8_when_building_binary_row_should_succeed() {
    assert!(layout(&test_config())
        .row_from_message(&test_message(Payload::Raw(vec![0xFF])), test_context())
        .is_ok());
}

#[test]
fn given_invalid_utf8_when_building_string_row_should_say_what_is_wrong() {
    let mut config = test_config();
    config.payload_format = "json".to_string();
    let bytes = vec![b'a', 0xFF];
    let reason = String::from_utf8(bytes.clone())
        .expect_err("Bytes should not be UTF-8")
        .to_string();

    let error = layout(&config)
        .row_values(&test_message(Payload::FlatBuffer(bytes)), test_context())
        .expect_err("Row should not build");

    assert_eq!(
        error,
        Error::Serialization(format!(
            "Payload is not valid UTF-8 for the Fluss STRING column: {reason}"
        ))
    );
}
