use chrono::{TimeZone, Utc};
use vector::finalization::{EventStatus, FinalizeError, Finalizers};
use vector::blackhole::AcknowledgementsConfig;
use vector::otlp::{GrpcConfig, HttpConfig, OpentelemetryConfig, SocketAddress, 
    accept_request, export_response, record_to_event, request_to_events, AnyValue, ExportError,
    ExportLogsServiceRequest, KeyValue, LogRecord, Resource, ResourceLogs, ScopeLogs,
};
use vector::sender::{SendOutcome, Sender};
use vector::value::{LogEvent, ObjectMap, Value};

fn str_into_hex_bytes(s: &str) -> Vec<u8> {
    hex::decode(s).unwrap()
}

fn text(v: Option<&Value>) -> &str {
    match v {
        Some(Value::Text(s)) => s.as_str(),
        other => panic!("not text: {:?}", other),
    }
}

fn integer(v: Option<&Value>) -> i64 {
    match v {
        Some(Value::Integer(i)) => *i,
        other => panic!("not an integer: {:?}", other),
    }
}

fn object(v: Option<&Value>) -> &ObjectMap {
    match v {
        Some(Value::Object(m)) => m,
        other => panic!("not an object: {:?}", other),
    }
}

fn timestamp_nanos(v: Option<&Value>) -> i128 {
    match v {
        Some(Value::Timestamp(t)) => t.nanos,
        other => panic!("not a timestamp: {:?}", other),
    }
}

fn string_value(s: &str) -> Option<AnyValue> {
    Some(AnyValue::StringValue(s.to_string()))
}

fn sample_record() -> LogRecord {
    LogRecord {
        time_unix_nano: 1,
        observed_time_unix_nano: 2,
        severity_number: 9,
        severity_text: "info".into(),
        body: string_value("log body"),
        attributes: vec![KeyValue { key: "attr_key".into(), value: string_value("attr_val") }],
        dropped_attributes_count: 3,
        flags: 4,
        trace_id: str_into_hex_bytes("4ac52aadf321c2e531db005df08792f5"),
        span_id: str_into_hex_bytes("0b9e4bda2a55530d"),
    }
}

fn sample_request() -> ExportLogsServiceRequest {
    ExportLogsServiceRequest {
        resource_logs: vec![ResourceLogs {
            resource: Some(Resource {
                attributes: vec![KeyValue { key: "res_key".into(), value: string_value("res_val") }],
                dropped_attributes_count: 0,
            }),
            scope_logs: vec![ScopeLogs { log_records: vec![sample_record()], schema_url: "v1".into() }],
            schema_url: "v1".into(),
        }],
    }
}

fn assert_sample_event(ev: &LogEvent) {
    assert_eq!(ev.fields.entries.len(), 11);
    let attributes = object(ev.get("attributes"));
    assert_eq!(attributes.entries.len(), 1);
    assert_eq!(text(attributes.get("attr_key")), "attr_val");
    let resources = object(ev.get("resources"));
    assert_eq!(resources.entries.len(), 1);
    assert_eq!(text(resources.get("res_key")), "res_val");
    assert_eq!(text(ev.get("message")), "log body");
    assert_eq!(text(ev.get("trace_id")), "4ac52aadf321c2e531db005df08792f5");
    assert_eq!(text(ev.get("span_id")), "0b9e4bda2a55530d");
    assert_eq!(integer(ev.get("severity_number")), 9);
    assert_eq!(text(ev.get("severity_text")), "info");
    assert_eq!(integer(ev.get("flags")), 4);
    assert_eq!(integer(ev.get("dropped_attributes_count")), 3);
    let one = Utc.timestamp_nanos(1).timestamp_nanos_opt().unwrap() as i128;
    let two = Utc.timestamp_nanos(2).timestamp_nanos_opt().unwrap() as i128;
    assert_eq!(timestamp_nanos(ev.get("timestamp")), one);
    assert_eq!(timestamp_nanos(ev.get("observed_timestamp")), two);
}

#[test]
fn receive_grpc_logs() {
    let req = sample_request();
    let mut finalizers = Finalizers::new();
    let mut sender = Sender::new(None);
    let logs = sender.add_output("logs".to_string(), 16).unwrap();
    let (batch, events) = accept_request(&req, &mut finalizers, 1).unwrap();
    assert_eq!(events.len(), 1);
    for ev in events {
        assert!(matches!(sender.try_send(ev), SendOutcome::Sent));
    }
    let mut output = vec![];
    while let Some(ev) = sender.receive(logs) {
        output.push(ev);
    }
    assert_eq!(output.len(), 1);
    let actual_event = output.pop().unwrap();
    assert_sample_event(&actual_event);
    assert_eq!(actual_event.batch, Some(batch));
    assert_eq!(finalizers.status(batch), None);
    assert_eq!(finalizers.record(batch, EventStatus::Delivered), Ok(()));
    let status = finalizers.status(batch).unwrap();
    assert_eq!(export_response(status), Ok(()));
}

#[test]
fn record_maps_every_field() {
    let res = vec![KeyValue { key: "res_key".into(), value: string_value("res_val") }];
    let ev = record_to_event(&res, &sample_record(), Some(5));
    assert_sample_event(&ev);
    assert_eq!(ev.batch, Some(5));
}

#[test]
fn events_follow_record_order_across_groups() {
    let mut first = sample_record();
    first.severity_number = 1;
    let mut second = sample_record();
    second.severity_number = 2;
    second.body = None;
    second.attributes = vec![
        KeyValue { key: "k".into(), value: Some(AnyValue::IntValue(-7)) },
        KeyValue { key: "k".into(), value: Some(AnyValue::BoolValue(true)) },
    ];
    let mut third = sample_record();
    third.severity_number = 3;
    third.trace_id = vec![0x00, 0xff, 0x10];
    let req = ExportLogsServiceRequest {
        resource_logs: vec![
            ResourceLogs {
                resource: None,
                scope_logs: vec![
                    ScopeLogs { log_records: vec![first], schema_url: String::new() },
                    ScopeLogs { log_records: vec![], schema_url: String::new() },
                    ScopeLogs { log_records: vec![second], schema_url: String::new() },
                ],
                schema_url: String::new(),
            },
            ResourceLogs {
                resource: Some(Resource {
                    attributes: vec![KeyValue { key: "host".into(), value: None }],
                    dropped_attributes_count: 0,
                }),
                scope_logs: vec![ScopeLogs { log_records: vec![third], schema_url: String::new() }],
                schema_url: String::new(),
            },
        ],
    };
    let events = request_to_events(&req, None);
    assert_eq!(events.len(), 3);
    for (i, ev) in events.iter().enumerate() {
        assert_eq!(integer(ev.get("severity_number")), i as i64 + 1);
        assert_eq!(ev.batch, None);
    }
    assert_eq!(object(events[0].get("resources")).entries.len(), 0);
    assert!(matches!(events[1].get("message"), Some(Value::Null)));
    let attrs = object(events[1].get("attributes"));
    assert_eq!(attrs.entries.len(), 1);
    assert!(matches!(attrs.get("k"), Some(Value::Boolean(true))));
    assert!(matches!(object(events[2].get("resources")).get("host"), Some(Value::Null)));
    assert_eq!(text(events[2].get("trace_id")), "00ff10");
}

#[test]
fn empty_ids_encode_as_empty_text() {
    let mut rec = sample_record();
    rec.trace_id = vec![];
    rec.span_id = vec![];
    let ev = record_to_event(&vec![], &rec, None);
    assert_eq!(text(ev.get("trace_id")), "");
    assert_eq!(text(ev.get("span_id")), "");
}

#[test]
fn failed_delivery_is_an_error_response() {
    for s in [EventStatus::Errored, EventStatus::Rejected, EventStatus::Dropped] {
        assert_eq!(export_response(s), Err(ExportError::Delivery(s)));
    }
    assert_eq!(export_response(EventStatus::Delivered), Ok(()));
}

#[test]
fn batch_counts_one_reference_per_output_copy() {
    let req = sample_request();
    let mut finalizers = Finalizers::new();
    let (batch, events) = accept_request(&req, &mut finalizers, 2).unwrap();
    assert_eq!(events.len(), 1);
    assert_eq!(finalizers.batches[batch].outstanding, 2);
    assert_eq!(finalizers.record(batch, EventStatus::Errored), Ok(()));
    assert_eq!(finalizers.record(batch, EventStatus::Delivered), Ok(()));
    assert_eq!(finalizers.status(batch), Some(EventStatus::Errored));
    assert_eq!(finalizers.record(batch, EventStatus::Delivered), Err(FinalizeError::AlreadyTerminal));
}

#[test]
fn tests_generate_config() {
    let text = OpentelemetryConfig::generate_config();
    let table: toml::Table = toml::from_str(&text).unwrap();
    let grpc = table.get("grpc").unwrap().as_table().unwrap();
    assert_eq!(grpc.get("address").unwrap().as_str(), Some("0.0.0.0:4317"));
    let http = table.get("http").unwrap().as_table().unwrap();
    assert_eq!(http.get("address").unwrap().as_str(), Some("0.0.0.0:4318"));
    assert_eq!(table.len(), 2);
}

#[test]
fn source_address_renders_every_octet() {
    let c = OpentelemetryConfig {
        grpc: GrpcConfig { address: SocketAddress { octets: [127, 0, 10, 255], port: 65535 } },
        http: HttpConfig { address: SocketAddress { octets: [1, 2, 3, 4], port: 0 } },
        acknowledgements: AcknowledgementsConfig { enabled: Some(true) },
    };
    assert_eq!(
        c.to_toml_text(),
        "[grpc]\naddress = \"127.0.10.255:65535\"\n\n[http]\naddress = \"1.2.3.4:0\"\n\n[acknowledgements]\nenabled = true\n"
    );
}
