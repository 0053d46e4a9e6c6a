use std::collections::HashMap;
use std::sync::Arc;

use arrow::array::{Array, Decimal128Array, FixedSizeBinaryArray, Int64Array, StringArray};
use arrow::datatypes::{DataType, Field, Schema as ArrowSchema};
use fluss::metadata::{DataTypes, Schema, TableInfo};
use fluss_sink::config::{FlussSinkConfig, RouterType};
use fluss_sink::connector::ConnectorError;
use fluss_sink::message::{ConsumedMessage, Payload};
use fluss_sink::router::multi_table::{
    extract_string_field, partition_messages_by_route_key, to_record_batch, MultiTableRouter,
    RouteStep,
};
use fluss_sink::router::RouterError;
use fluss_sink::schema_catalog::SchemaCatalogError;
use fluss_sink::table_path::TablePath;
use fluss_sink::writer::{Op, Stat, WriterError};

fn test_config(auto_create_table: bool) -> FlussSinkConfig {
    FlussSinkConfig {
        bootstrap_servers: "localhost:9123".to_string(),
        fluss_database: "fluss".to_string(),
        fluss_table: "iggy_messages".to_string(),
        batch_size: 100,
        auto_create_table,
        include_metadata: true,
        include_checksum: true,
        include_origin_timestamp: true,
        payload_format: "json".to_string(),
        create_table: true,
        router_type: RouterType::Multi,
        route_key: "table".to_string(),
    }
}

fn message(id: u128, payload: Payload) -> ConsumedMessage {
    ConsumedMessage {
        id,
        offset: 0,
        checksum: 0,
        timestamp: 0,
        origin_timestamp: 0,
        headers: None,
        payload,
    }
}

fn json(id: u128, text: &str) -> ConsumedMessage {
    let mut bytes = text.as_bytes().to_vec();
    message(
        id,
        Payload::Json(simd_json::to_owned_value(&mut bytes).expect("Text should be JSON")),
    )
}

fn row(id: u128, table: &str, number: i64) -> ConsumedMessage {
    json(id, &format!("{{\"table\": \"{table}\", \"n\": {number}}}"))
}

fn table_info(schema: Schema) -> TableInfo {
    TableInfo::new(
        fluss::metadata::TablePath::new("db", "a"),
        1,
        1,
        schema,
        vec![],
        Arc::from(Vec::<String>::new()),
        1,
        HashMap::new(),
        HashMap::new(),
        None,
        0,
        0,
    )
}

fn number_table() -> TableInfo {
    table_info(
        Schema::builder()
            .column("table", DataTypes::string())
            .column("n", DataTypes::bigint())
            .build()
            .expect("Schema should build"),
    )
}

fn missing(table: &TablePath) -> Result<TableInfo, WriterError> {
    Err(WriterError::TableNotFound {
        table_path: table.clone(),
    })
}

#[derive(Default)]
struct Record {
    lookups: Vec<String>,
    creations: Vec<String>,
    writes: Vec<(String, Vec<i64>)>,
}

fn run(
    router: &mut MultiTableRouter,
    messages: Vec<ConsumedMessage>,
    exists: bool,
    record: &mut Record,
) -> Result<Stat, RouterError> {
    let mut step = router.route(messages).step?;
    loop {
        step = match step {
            RouteStep::Finished(stat) => return Ok(stat),
            RouteStep::LookUpTable(lookup) => {
                record.lookups.push(lookup.group.table.to_text());
                let found = if exists {
                    Ok(number_table())
                } else {
                    missing(&lookup.group.table)
                };
                router.on_table(lookup, found)?
            }
            RouteStep::CreateTable(creation) => {
                record.creations.push(creation.group.table.to_text());
                router.on_created(creation, Ok(()))?
            }
            RouteStep::Write(next) => {
                assert_eq!(next.write.op, Op::Append);
                let batch = &next.write.batch.record_batch;
                let numbers = batch
                    .column_by_name("n")
                    .expect("Number column should exist")
                    .as_any()
                    .downcast_ref::<Int64Array>()
                    .expect("Number column should contain integers");
                record.writes.push((
                    next.write.table_path.to_text(),
                    numbers.values().to_vec(),
                ));
                router.on_written(next, Ok(()))?
            }
        };
    }
}

#[test]
fn given_json_payload_when_extracting_should_take_text_member() {
    let message = json(5, "{\"table\": \"db.a\", \"n\": 1}");

    assert_eq!(
        extract_string_field(&message, "table").expect("Member should be found"),
        "db.a"
    );
}

#[test]
fn given_missing_or_wrong_member_when_extracting_should_fail() {
    for text in ["{\"n\": 1}", "{\"table\": 1}", "{\"table\": null}", "[1]", "\"db.a\""] {
        let error =
            extract_string_field(&json(5, text), "table").expect_err("Member should not be found");
        assert_eq!(
            error.message(),
            "Failed to extract string value for [table] for message: [5] because: [Value not found]"
        );
    }
}

#[test]
fn given_other_payload_when_extracting_should_fail() {
    let error = extract_string_field(
        &message(u128::MAX, Payload::Text("{\"table\": \"db.a\"}".to_string())),
        "table",
    )
    .expect_err("Text payload should not be read");

    assert_eq!(
        error.message(),
        "Failed to extract string value for [table] for message: \
         [340282366920938463463374607431768211455] because: [Payload type is not supported, only \
         Json type is supported.]"
    );
    assert!(matches!(
        error.into_connector_error(),
        ConnectorError::InvalidRecordValue(_)
    ));
}

#[test]
fn given_messages_when_partitioning_should_group_them_in_order() {
    let parted = partition_messages_by_route_key(
        vec![
            row(1, "db.a", 1),
            row(2, "db.b", 2),
            row(3, "nodot", 3),
            row(4, "db.a", 4),
            message(5, Payload::Raw(vec![])),
            row(6, "db.b", 6),
            row(7, "__x.y", 7),
        ],
        "table",
    );

    assert_eq!(
        parted.stat,
        Stat {
            appended: 0,
            errors: 3
        }
    );
    let skipped: Vec<u128> = parted.skipped.iter().map(|message| message.id).collect();
    assert_eq!(skipped, vec![3, 5, 7]);
    assert!(matches!(
        parted.skipped[0].error,
        RouterError::FailedToExtractTablePath { .. }
    ));
    assert!(matches!(
        parted.skipped[1].error,
        RouterError::ExtractStringField { id: 5, .. }
    ));
    assert_eq!(parted.groups.len(), 2);
    for group in parted.groups {
        let ids: Vec<u128> = group.messages.iter().map(|message| message.id).collect();
        match group.table.to_text().as_str() {
            "db.a" => assert_eq!(ids, vec![1, 4]),
            "db.b" => assert_eq!(ids, vec![2, 6]),
            other => panic!("unexpected group {other}"),
        }
    }
}

#[test]
fn given_no_messages_when_routing_should_finish() {
    let mut router = MultiTableRouter::new(&test_config(true));

    let stat = run(&mut router, vec![], true, &mut Record::default()).expect("Route should end");

    assert_eq!(stat, Stat::default());
}

#[test]
fn given_existing_tables_when_routing_should_look_each_up_once() {
    let mut router = MultiTableRouter::new(&test_config(false));
    let mut record = Record::default();
    let messages = || vec![row(1, "db.a", 1), row(2, "db.b", 2), row(3, "db.a", 3)];

    let stat = run(&mut router, messages(), true, &mut record).expect("Route should end");

    assert_eq!(
        stat,
        Stat {
            appended: 3,
            errors: 0
        }
    );
    record.lookups.sort();
    assert_eq!(record.lookups, vec!["db.a", "db.b"]);
    assert!(record.creations.is_empty());
    record.writes.sort();
    assert_eq!(
        record.writes,
        vec![("db.a".to_string(), vec![1, 3]), ("db.b".to_string(), vec![2])]
    );

    let mut again = Record::default();
    run(&mut router, messages(), true, &mut again).expect("Route should end");
    assert!(again.lookups.is_empty());
    assert_eq!(again.writes.len(), 2);
}

#[test]
fn given_missing_table_when_creating_tables_should_create_and_write_it() {
    let mut router = MultiTableRouter::new(&test_config(true));
    let mut record = Record::default();

    let stat = run(
        &mut router,
        vec![row(1, "db.a", 10), row(2, "bad", 0), row(3, "db.a", 30)],
        false,
        &mut record,
    )
    .expect("Route should end");

    assert_eq!(
        stat,
        Stat {
            appended: 2,
            errors: 1
        }
    );
    assert_eq!(record.lookups, vec!["db.a"]);
    assert_eq!(record.creations, vec!["db.a"]);
    assert_eq!(record.writes, vec![("db.a".to_string(), vec![10, 30])]);
}

#[test]
fn given_missing_table_when_not_creating_tables_should_skip_its_messages() {
    let mut router = MultiTableRouter::new(&test_config(false));
    let mut record = Record::default();

    let stat = run(
        &mut router,
        vec![row(1, "db.a", 1), row(2, "db.a", 2), row(3, "db.b", 3)],
        false,
        &mut record,
    )
    .expect("Route should end");

    assert_eq!(
        stat,
        Stat {
            appended: 0,
            errors: 3
        }
    );
    assert!(record.creations.is_empty());
    assert!(record.writes.is_empty());
}

#[test]
fn given_messages_without_table_when_routing_should_report_them() {
    let router = MultiTableRouter::new(&test_config(false));

    let start = router.route(vec![
        row(1, "nodot", 1),
        message(2, Payload::Text("db.a".to_string())),
        row(3, "db.a", 3),
    ]);

    assert!(!router.auto_create_tables());
    let skipped: Vec<(u128, String)> = start
        .skipped
        .iter()
        .map(|message| (message.id, message.error.message()))
        .collect();
    assert_eq!(skipped.len(), 2);
    assert_eq!(
        skipped[0],
        (
            1,
            "Failed to create table path: [Invalid table format, expected 'database.table', got \
             nodot]"
                .to_string()
        )
    );
    assert_eq!(skipped[1].0, 2);
    assert!(matches!(
        start.step,
        Ok(RouteStep::LookUpTable(lookup)) if lookup.group.messages.len() == 1
    ));
}

#[test]
fn given_created_table_when_routing_again_should_write_under_the_same_schema() {
    let mut router = MultiTableRouter::new(&test_config(true));
    let mut record = Record::default();
    run(&mut router, vec![row(1, "db.a", 1)], false, &mut record).expect("Route should end");
    assert_eq!(record.creations, vec!["db.a"]);

    let later = vec![
        json(2, "{\"table\": \"db.a\", \"n\": 2, \"more\": true}"),
        row(3, "db.a", 3),
    ];
    let Ok(RouteStep::Write(next)) = router.route(later).step else {
        panic!("Known table should be written");
    };

    let batch = &next.write.batch.record_batch;
    assert_eq!(batch.num_rows(), 2);
    assert_eq!(batch.num_columns(), 2);
    assert!(batch.column_by_name("more").is_none());
    assert!(matches!(
        router.on_written(next, Ok(())),
        Ok(RouteStep::Finished(Stat {
            appended: 2,
            errors: 0
        }))
    ));
}

#[test]
fn given_failed_lookup_when_routing_should_fail() {
    let mut router = MultiTableRouter::new(&test_config(true));
    let Ok(RouteStep::LookUpTable(lookup)) = router.route(vec![row(1, "db.a", 1)]).step else {
        panic!("Table should be looked up");
    };

    let error = router
        .on_table(lookup, Err(WriterError::ConnectionNotInitialized))
        .err()
        .expect("Failed lookup should fail");

    assert!(matches!(
        &error,
        RouterError::SchemaCatalog(SchemaCatalogError::Writer(_))
    ));
    assert!(matches!(
        error.into_connector_error(),
        ConnectorError::InitError(_)
    ));
}

#[test]
fn given_failed_creation_when_routing_should_fail_and_remember_schema() {
    let mut router = MultiTableRouter::new(&test_config(true));
    let Ok(RouteStep::LookUpTable(lookup)) = router.route(vec![row(1, "db.a", 1)]).step else {
        panic!("Table should be looked up");
    };
    let found = missing(&lookup.group.table);
    let Ok(RouteStep::CreateTable(creation)) = router.on_table(lookup, found) else {
        panic!("Table should be created");
    };
    assert_eq!(
        creation.entry.table_descriptor().comment(),
        Some("Automatically created table")
    );

    let error = router
        .on_created(
            creation,
            Err(WriterError::GetAdminClient {
                source: "refused".to_string(),
            }),
        )
        .err()
        .expect("Failed creation should fail");

    assert_eq!(
        error.into_connector_error(),
        ConnectorError::InitError("Failed to get Fluss admin client: refused".to_string())
    );
    assert!(matches!(
        router.route(vec![row(2, "db.a", 2)]).step,
        Ok(RouteStep::Write(_))
    ));
}

#[test]
fn given_failed_write_when_routing_should_fail() {
    let mut router = MultiTableRouter::new(&test_config(true));
    let Ok(RouteStep::LookUpTable(lookup)) = router.route(vec![row(1, "db.a", 1)]).step else {
        panic!("Table should be looked up");
    };
    let Ok(RouteStep::Write(next)) = router.on_table(lookup, Ok(number_table())) else {
        panic!("Table should be written");
    };

    assert!(matches!(
        router.on_written(next, Err(WriterError::ConnectionNotInitialized)),
        Err(RouterError::WriterError(WriterError::ConnectionNotInitialized))
    ));
}

#[test]
fn given_sample_without_fluss_type_when_routing_should_fail() {
    let mut router = MultiTableRouter::new(&test_config(true));
    let messages = vec![json(1, "{\"table\": \"db.a\", \"n\": null}")];
    let Ok(RouteStep::LookUpTable(lookup)) = router.route(messages).step else {
        panic!("Table should be looked up");
    };
    let found = missing(&lookup.group.table);

    assert!(matches!(
        router.on_table(lookup, found),
        Err(RouterError::SchemaCatalog(
            SchemaCatalogError::ArrowSchemaToFlussRowType { .. }
        ))
    ));
}

#[test]
fn given_value_of_wrong_type_when_routing_should_fail() {
    let mut router = MultiTableRouter::new(&test_config(true));
    let messages = vec![json(1, "{\"table\": \"db.a\", \"n\": \"text\"}")];
    let Ok(RouteStep::LookUpTable(lookup)) = router.route(messages).step else {
        panic!("Table should be looked up");
    };

    let error = router
        .on_table(lookup, Ok(number_table()))
        .err()
        .expect("Text should not fit the number column");

    assert!(matches!(
        &error,
        RouterError::FailedToCreateRecordBatch { .. }
    ));
    assert!(error.message().starts_with("Failed to create table path: ["));
    assert!(matches!(
        error.into_connector_error(),
        ConnectorError::InvalidRecordValue(_)
    ));
}

#[test]
fn given_messages_when_making_batch_should_skip_other_payloads_and_members() {
    let schema = Arc::new(ArrowSchema::new(vec![
        Field::new("n", DataType::Int64, true),
        Field::new("s", DataType::Utf8, true),
    ]));

    let batch = to_record_batch(
        vec![
            json(1, "{\"n\": 1, \"extra\": true}"),
            message(2, Payload::Text("skipped".to_string())),
            json(3, "{\"s\": \"x\"}"),
        ],
        schema.clone(),
    )
    .expect("Batch should be made")
    .expect("Batch should have rows")
    .record_batch;

    assert_eq!(batch.schema(), schema);
    assert_eq!(batch.num_rows(), 2);
    assert_eq!(batch.num_columns(), 2);
    let numbers = batch
        .column(0)
        .as_any()
        .downcast_ref::<Int64Array>()
        .expect("Number column should contain integers");
    assert_eq!(numbers.iter().collect::<Vec<_>>(), vec![Some(1), None]);
    let texts = batch
        .column(1)
        .as_any()
        .downcast_ref::<StringArray>()
        .expect("Text column should contain strings");
    assert_eq!(texts.iter().collect::<Vec<_>>(), vec![None, Some("x")]);
}

#[test]
fn given_no_documents_when_making_batch_should_make_none() {
    let schema = Arc::new(ArrowSchema::new(vec![Field::new("n", DataType::Int64, true)]));

    let batch = to_record_batch(vec![message(1, Payload::Raw(vec![]))], schema)
        .expect("No batch should be made");

    assert!(batch.is_none());
}

#[test]
fn given_schema_without_columns_when_making_batch_should_count_rows() {
    let batch = to_record_batch(
        vec![json(1, "{}"), json(2, "{\"a\": 1}")],
        Arc::new(ArrowSchema::new(Vec::<Field>::new())),
    )
    .expect("Batch should be made")
    .expect("Batch should have rows");

    assert_eq!(batch.record_batch.num_rows(), 2);
}

#[test]
fn given_row_that_is_no_object_when_making_batch_should_fail() {
    let schema = Arc::new(ArrowSchema::new(vec![Field::new("n", DataType::Int64, true)]));

    assert!(matches!(
        to_record_batch(vec![json(1, "[1]")], schema),
        Err(RouterError::FailedToCreateRecordBatch { .. })
    ));
}

#[test]
fn given_field_with_metadata_when_making_batch_should_take_its_values() {
    let annotated = Field::new("n", DataType::Int64, true)
        .with_metadata(HashMap::from([("k".to_string(), "v".to_string())]));

    let batch = to_record_batch(
        vec![json(1, "{\"n\": 7}")],
        Arc::new(ArrowSchema::new(vec![annotated])),
    )
    .expect("Batch should be made")
    .expect("Batch should have rows")
    .record_batch;

    let numbers = batch
        .column(0)
        .as_any()
        .downcast_ref::<Int64Array>()
        .expect("Number column should contain integers");
    assert_eq!(numbers.value(0), 7);
}

#[test]
fn given_decimals_when_making_batch_should_take_short_numbers_only() {
    let decimal = || Field::new("d", DataType::Decimal128(10, 2), true);
    let flat = || Arc::new(ArrowSchema::new(vec![decimal()]));
    let good = vec![
        json(1, "{\"d\": \"12.34\"}"),
        json(2, "{\"d\": 5}"),
        json(3, "{\"d\": -1.25}"),
        json(4, "{\"d\": \"1e3\"}"),
        json(5, "{}"),
        json(6, &format!("{{\"d\": \"-{}7\"}}", "0".repeat(150))),
        json(7, "{\"d\": \"2.5e-00001\"}"),
        json(8, &format!("{{\"d\": \"1.25{}\"}}", "0".repeat(300))),
    ];
    let batch = to_record_batch(good, flat())
        .expect("Batch should be made")
        .expect("Batch should have rows")
        .record_batch;
    let values = batch
        .column(0)
        .as_any()
        .downcast_ref::<Decimal128Array>()
        .expect("Column should contain decimals");
    assert_eq!(
        values.iter().collect::<Vec<_>>(),
        vec![
            Some(1234),
            Some(500),
            Some(-125),
            Some(100_000),
            None,
            Some(-700),
            Some(25),
            Some(125)
        ]
    );

    let long = format!("{{\"d\": \"{}\"}}", "1".repeat(300));
    let divided = format!("{{\"d\": \"0.{}e0\"}}", "0".repeat(200));
    for bad in [long.as_str(), divided.as_str(), "{\"d\": \"1e99999\"}", "{\"d\": 1e300}"] {
        assert!(matches!(
            to_record_batch(vec![json(1, bad)], flat()),
            Err(RouterError::FailedToCreateRecordBatch { reason })
                if reason.contains("can't parse the string value ? to decimal")
        ));
    }
    let nested = "1".repeat(150);
    let own = vec![
        ("{\"d\": \"12345678901.5\"}".to_string(), "parse decimal overflow (12345678901.5)"),
        ("{\"d\": \"1e9999\"}".to_string(), "parse decimal overflow (1e9999)"),
        (format!("{{\"d\": \"{nested}\"}}"), "parse decimal overflow (111"),
        ("{\"d\": 1e150}".to_string(), "parse decimal overflow (1000"),
        ("{\"d\": \"x\"}".to_string(), "can't parse the string value x to decimal"),
        ("{\"d\": [1]}".to_string(), "whilst decoding field 'd'"),
    ];
    for (bad, expected) in own {
        assert!(matches!(
            to_record_batch(vec![json(1, &bad)], flat()),
            Err(RouterError::FailedToCreateRecordBatch { reason }) if reason.contains(expected)
        ));
    }
}

#[test]
fn given_tiny_decimals_when_making_batch_should_take_zero() {
    let schema = Arc::new(ArrowSchema::new(vec![Field::new(
        "d",
        DataType::Decimal128(10, 2),
        true,
    )]));
    let long = format!("{{\"d\": \"0.{}e0\"}}", "0".repeat(70));

    let batch = to_record_batch(
        vec![json(1, "{\"d\": \"1e-12345\"}"), json(2, &long)],
        schema,
    )
    .expect("Batch should be made")
    .expect("Batch should have rows")
    .record_batch;

    let values = batch
        .column(0)
        .as_any()
        .downcast_ref::<Decimal128Array>()
        .expect("Column should contain decimals");
    assert_eq!(values.values().to_vec(), vec![0, 0]);
}

#[test]
fn given_several_bad_values_when_making_batch_should_report_the_first_one_decoded() {
    let schema = || {
        Arc::new(ArrowSchema::new(vec![
            Field::new("n", DataType::Int64, true),
            Field::new("b", DataType::FixedSizeBinary(2), true),
        ]))
    };
    let other_column = to_record_batch(
        vec![json(1, "{\"b\": 7}"), json(2, "{\"n\": \"text\"}")],
        schema(),
    );
    assert!(matches!(
        other_column,
        Err(RouterError::FailedToCreateRecordBatch { reason })
            if reason.contains("field 'n'") && reason.contains("\"text\"")
    ));
    let earlier_row = to_record_batch(
        vec![json(1, "{\"b\": \"zz\"}"), json(2, "{\"b\": 7}")],
        schema(),
    );
    assert!(matches!(
        earlier_row,
        Err(RouterError::FailedToCreateRecordBatch { reason }) if reason.contains("0x7a")
    ));
    let row = to_record_batch(vec![json(1, "{\"b\": 7}"), json(2, "[1]")], schema());
    assert!(matches!(
        row,
        Err(RouterError::FailedToCreateRecordBatch { reason }) if !reason.contains("0x3f")
    ));
}

#[test]
fn given_decimal_keys_when_making_batch_should_refuse_long_ones() {
    let pair = vec![
        Field::new("key", DataType::Decimal128(10, 2), false),
        Field::new("value", DataType::Int64, true),
    ];
    let map = DataType::Map(
        Arc::new(Field::new("entries", DataType::Struct(pair.into()), false)),
        false,
    );
    let schema = || Arc::new(ArrowSchema::new(vec![Field::new("m", map.clone(), true)]));
    let long = format!("{{\"m\": {{\"{}\": 1}}}}", "1".repeat(300));

    assert!(to_record_batch(vec![json(1, "{\"m\": {\"1.5\": 1}}")], schema()).is_ok());
    assert!(matches!(
        to_record_batch(vec![json(1, &long)], schema()),
        Err(RouterError::FailedToCreateRecordBatch { reason })
            if reason.contains("can't parse the string value ? to decimal")
    ));
    assert!(matches!(
        to_record_batch(vec![json(1, "{\"m\": {\"x\": 1}}"), json(2, &long)], schema()),
        Err(RouterError::FailedToCreateRecordBatch { reason })
            if reason.contains("can't parse the string value x to decimal")
    ));
}

#[test]
fn given_fixed_size_bytes_when_making_batch_should_take_texts_only() {
    let fixed = || Field::new("b", DataType::FixedSizeBinary(2), true);
    let flat = Arc::new(ArrowSchema::new(vec![fixed()]));
    let batch = to_record_batch(
        vec![json(1, "{\"b\": \"0aff\"}"), json(2, "{\"b\": null}"), json(3, "{}")],
        flat.clone(),
    )
    .expect("Batch should be made")
    .expect("Batch should have rows")
    .record_batch;
    let bytes = batch
        .column(0)
        .as_any()
        .downcast_ref::<FixedSizeBinaryArray>()
        .expect("Column should contain bytes");
    assert_eq!(bytes.value(0), &[0x0a, 0xff]);
    assert!(bytes.is_null(1));

    let list = DataType::List(Arc::new(fixed()));
    let row = DataType::Struct(vec![fixed()].into());
    let map = DataType::Map(
        Arc::new(Field::new(
            "entries",
            DataType::Struct(vec![Field::new("key", DataType::Utf8, false), fixed()].into()),
            false,
        )),
        false,
    );
    let nested = |data_type| Arc::new(ArrowSchema::new(vec![Field::new("x", data_type, true)]));
    let cases = vec![
        (flat, "{\"b\": \"0aff\"}", "{\"b\": 7}"),
        (nested(list), "{\"x\": [\"0aff\"]}", "{\"x\": [\"0aff\", true]}"),
        (nested(row), "{\"x\": {\"b\": \"0aff\"}}", "{\"x\": {\"b\": {}}}"),
        (nested(map), "{\"x\": {\"k\": \"0aff\"}}", "{\"x\": {\"k\": 1.5}}"),
    ];
    for (schema, good, bad) in cases {
        assert!(to_record_batch(vec![json(1, good)], schema.clone()).is_ok());
        assert!(matches!(
            to_record_batch(vec![json(1, good), json(2, bad)], schema),
            Err(RouterError::FailedToCreateRecordBatch { reason })
                if reason.contains("invalid digit 0x3f at position 0")
        ));
    }
}
