use vstd::prelude::*;
use crate::finalization::{BatchFinalizer, EventStatus, FinalizeError, Finalizers};
use crate::value::{LogEvent, ObjectMap, Timestamp, Value};
use crate::blackhole::AcknowledgementsConfig;
use crate::text::{bool_text, decimal, write_decimal};

verus! {

/// A decoded attribute or body value of the log protocol.
#[derive(Debug)]
pub enum AnyValue {
    StringValue(String),
    BoolValue(bool),
    IntValue(i64),
}

/// A decoded key and value pair.
#[derive(Debug)]
pub struct KeyValue {
    pub key: String,
    pub value: Option<AnyValue>,
}

/// A decoded log record.
#[derive(Debug)]
pub struct LogRecord {
    pub time_unix_nano: u64,
    pub observed_time_unix_nano: u64,
    pub severity_number: i32,
    pub severity_text: String,
    pub body: Option<AnyValue>,
    pub attributes: Vec<KeyValue>,
    pub dropped_attributes_count: u32,
    pub flags: u32,
    pub trace_id: Vec<u8>,
    pub span_id: Vec<u8>,
}

/// The records of one instrumentation scope.
#[derive(Debug)]
pub struct ScopeLogs {
    pub log_records: Vec<LogRecord>,
    pub schema_url: String,
}

/// The entity that produced a group of records.
#[derive(Debug)]
pub struct Resource {
    pub attributes: Vec<KeyValue>,
    pub dropped_attributes_count: u32,
}

/// The records of one resource.
#[derive(Debug)]
pub struct ResourceLogs {
    pub resource: Option<Resource>,
    pub scope_logs: Vec<ScopeLogs>,
    pub schema_url: String,
}

/// A decoded log export request.
#[derive(Debug)]
pub struct ExportLogsServiceRequest {
    pub resource_logs: Vec<ResourceLogs>,
}

/// Why an export request was answered with an error.
#[derive(Debug, Clone, Copy, PartialEq, Eq, Structural)]
pub enum ExportError {
    /// The batch ended with this status rather than being delivered.
    Delivery(EventStatus),
    /// The batch could not be opened.
    Refused(FinalizeError),
}

pub open spec fn hex_digit(n: u8) -> char {
    seq!['0', '1', '2', '3', '4', '5', '6', '7', '8', '9', 'a', 'b', 'c', 'd', 'e', 'f'][(n
        % 16) as int]
}

/// The lowercase hexadecimal text of `b`, two digits per byte.
pub open spec fn hex_lower(b: Seq<u8>) -> Seq<char>
    decreases b.len(),
{
    if b.len() == 0 {
        seq![]
    } else {
        hex_lower(b.drop_last()) + seq![hex_digit(b.last() / 16), hex_digit(b.last() % 16)]
    }
}

/// Relies on hex::encode: two lowercase hexadecimal digits for each byte, in order.
#[verifier::external_body]
fn encode_hex(b: &Vec<u8>) -> (r: String)
    ensures
        r@ == hex_lower(b@),
{
    hex::encode(b)
}

/// Whether `v` is the canonical form of the protocol value `a`.
pub open spec fn converts(v: Value, a: Option<AnyValue>) -> bool {
    match a {
        Some(AnyValue::StringValue(s)) => v matches Value::Text(t) && t@ == s@,
        Some(AnyValue::BoolValue(b)) => v == Value::Boolean(b),
        Some(AnyValue::IntValue(i)) => v == Value::Integer(i),
        None => v is Null,
    }
}

/// The value that the last pair named `key` carries, if any.
pub open spec fn kv_get(kvs: Seq<KeyValue>, key: Seq<char>) -> Option<Option<AnyValue>>
    decreases kvs.len(),
{
    if kvs.len() == 0 {
        None
    } else if kvs.last().key@ == key {
        Some(kvs.last().value)
    } else {
        kv_get(kvs.drop_last(), key)
    }
}

/// Whether `m` holds exactly the keys of `kvs`, each with the canonical form of
/// its last value.
pub open spec fn object_converts(m: ObjectMap, kvs: Seq<KeyValue>) -> bool {
    m.wf() && forall|k: Seq<char>|
        (#[trigger] m.spec_get(k) is Some <==> kv_get(kvs, k) is Some) && (m.spec_get(k) is Some
            ==> converts(m.spec_get(k)->0, kv_get(kvs, k)->0))
}

/// The canonical form of a protocol value.
pub fn any_value_to_value(a: &Option<AnyValue>) -> (r: Value)
    ensures
        converts(r, *a),
{
    match a {
        Some(AnyValue::StringValue(s)) => Value::Text(s.clone()),
        Some(AnyValue::BoolValue(b)) => Value::Boolean(*b),
        Some(AnyValue::IntValue(i)) => Value::Integer(*i),
        None => Value::Null,
    }
}

/// The object that a list of key and value pairs maps to; a later pair with the
/// same key replaces an earlier one.
pub fn kv_list_to_object(kvs: &Vec<KeyValue>) -> (r: ObjectMap)
    ensures
        object_converts(r, kvs@),
{
    let mut m = ObjectMap::new();
    let mut i: usize = 0;
    while i < kvs.len()
        invariant
            i <= kvs@.len(),
            object_converts(m, kvs@.take(i as int)),
        decreases kvs@.len() - i,
    {
        let kv = &kvs[i];
        let v = any_value_to_value(&kv.value);
        m.insert(kv.key.clone(), v);
        proof {
            assert(kvs@.take(i as int + 1).drop_last() =~= kvs@.take(i as int));
        }
        i = i + 1;
    }
    proof {
        assert(kvs@.take(kvs@.len() as int) =~= kvs@);
    }
    m
}

pub open spec fn text_field(m: ObjectMap, key: Seq<char>, t: Seq<char>) -> bool {
    m.spec_get(key) matches Some(Value::Text(s)) && s@ == t
}

pub open spec fn object_field(m: ObjectMap, key: Seq<char>, kvs: Seq<KeyValue>) -> bool {
    m.spec_get(key) matches Some(Value::Object(o)) && object_converts(o, kvs)
}

/// The attributes of a record group's resource, or none.
pub open spec fn resource_attributes(rl: ResourceLogs) -> Seq<KeyValue> {
    match rl.resource {
        Some(r) => r.attributes@,
        None => seq![],
    }
}

/// Whether `ev` is the canonical event for the record `rec` under a resource
/// with attributes `res`, attached to `batch`.
pub open spec fn event_matches(
    ev: LogEvent,
    res: Seq<KeyValue>,
    rec: LogRecord,
    batch: Option<usize>,
) -> bool {
    let m = ev.fields;
    &&& ev.wf()
    &&& m.entries@.len() == 11
    &&& ev.batch == batch
    &&& object_field(m, "attributes"@, rec.attributes@)
    &&& object_field(m, "resources"@, res)
    &&& m.spec_get("message"@) matches Some(v) && converts(v, rec.body)
    &&& text_field(m, "trace_id"@, hex_lower(rec.trace_id@))
    &&& text_field(m, "span_id"@, hex_lower(rec.span_id@))
    &&& m.spec_get("severity_number"@) == Some(Value::Integer(rec.severity_number as i64))
    &&& text_field(m, "severity_text"@, rec.severity_text@)
    &&& m.spec_get("flags"@) == Some(Value::Integer(rec.flags as i64))
    &&& m.spec_get("dropped_attributes_count"@) == Some(
        Value::Integer(rec.dropped_attributes_count as i64),
    )
    &&& m.spec_get("timestamp"@) == Some(
        Value::Timestamp(Timestamp { nanos: rec.time_unix_nano as i128 }),
    )
    &&& m.spec_get("observed_timestamp"@) == Some(
        Value::Timestamp(Timestamp { nanos: rec.observed_time_unix_nano as i128 }),
    )
}

/// The canonical event for one log record under a resource with attributes
/// `resource`.
pub fn record_to_event(resource: &Vec<KeyValue>, rec: &LogRecord, batch: Option<usize>) -> (r:
    LogEvent)
    ensures
        event_matches(r, resource@, *rec, batch),
{
    proof {
        reveal_strlit("attributes");
        reveal_strlit("resources");
        reveal_strlit("message");
        reveal_strlit("trace_id");
        reveal_strlit("span_id");
        reveal_strlit("severity_number");
        reveal_strlit("severity_text");
        reveal_strlit("flags");
        reveal_strlit("dropped_attributes_count");
        reveal_strlit("timestamp");
        reveal_strlit("observed_timestamp");
        assert("attributes"@.len() == 10);
        assert("resources"@.len() == 9);
        assert("message"@.len() == 7);
        assert("trace_id"@.len() == 8);
        assert("span_id"@.len() == 7);
        assert("severity_number"@.len() == 15);
        assert("severity_text"@.len() == 13);
        assert("flags"@.len() == 5);
        assert("dropped_attributes_count"@.len() == 24);
        assert("timestamp"@.len() == 9);
        assert("observed_timestamp"@.len() == 18);
        assert("resources"@[0] != "timestamp"@[0]);
        assert("message"@[0] != "span_id"@[0]);
    }
    let mut m = ObjectMap::new();
    let attributes = kv_list_to_object(&rec.attributes);
    let resources = kv_list_to_object(resource);
    m.insert(String::from_str("attributes"), Value::Object(attributes));
    m.insert(String::from_str("resources"), Value::Object(resources));
    m.insert(String::from_str("message"), any_value_to_value(&rec.body));
    m.insert(String::from_str("trace_id"), Value::Text(encode_hex(&rec.trace_id)));
    m.insert(String::from_str("span_id"), Value::Text(encode_hex(&rec.span_id)));
    m.insert(String::from_str("severity_number"), Value::Integer(rec.severity_number as i64));
    m.insert(String::from_str("severity_text"), Value::Text(rec.severity_text.clone()));
    m.insert(String::from_str("flags"), Value::Integer(rec.flags as i64));
    m.insert(
        String::from_str("dropped_attributes_count"),
        Value::Integer(rec.dropped_attributes_count as i64),
    );
    m.insert(
        String::from_str("timestamp"),
        Value::Timestamp(Timestamp::from_unix_nanos(rec.time_unix_nano)),
    );
    m.insert(
        String::from_str("observed_timestamp"),
        Value::Timestamp(Timestamp::from_unix_nanos(rec.observed_time_unix_nano)),
    );
    LogEvent { fields: m, batch }
}

/// The records of `scopes` in order, each with the resource attributes `res`.
pub open spec fn scope_records(res: Seq<KeyValue>, scopes: Seq<ScopeLogs>) -> Seq<
    (Seq<KeyValue>, LogRecord),
>
    decreases scopes.len(),
{
    if scopes.len() == 0 {
        seq![]
    } else {
        scope_records(res, scopes.drop_last()) + scopes.last().log_records@.map_values(
            |r: LogRecord| (res, r),
        )
    }
}

/// Every record of a request in order, each with its resource's attributes.
pub open spec fn request_records(groups: Seq<ResourceLogs>) -> Seq<(Seq<KeyValue>, LogRecord)>
    decreases groups.len(),
{
    if groups.len() == 0 {
        seq![]
    } else {
        request_records(groups.drop_last()) + scope_records(
            resource_attributes(groups.last()),
            groups.last().scope_logs@,
        )
    }
}

/// The canonical events of an export request, one per log record in order,
/// all attached to `batch`.
pub fn request_to_events(req: &ExportLogsServiceRequest, batch: Option<usize>) -> (r: Vec<LogEvent>)
    ensures
        r@.len() == request_records(req.resource_logs@).len(),
        forall|k: int|
            0 <= k < r@.len() ==> event_matches(
                #[trigger] r@[k],
                request_records(req.resource_logs@)[k].0,
                request_records(req.resource_logs@)[k].1,
                batch,
            ),
{
    let groups = &req.resource_logs;
    let mut events: Vec<LogEvent> = Vec::new();
    let empty: Vec<KeyValue> = Vec::new();
    let mut i: usize = 0;
    while i < groups.len()
        invariant
            i <= groups@.len(),
            empty@.len() == 0,
            events@.len() == request_records(groups@.take(i as int)).len(),
            forall|k: int|
                0 <= k < events@.len() ==> event_matches(
                    #[trigger] events@[k],
                    request_records(groups@.take(i as int))[k].0,
                    request_records(groups@.take(i as int))[k].1,
                    batch,
                ),
        decreases groups@.len() - i,
    {
        let group = &groups[i];
        let res = match &group.resource {
            Some(r) => &r.attributes,
            None => &empty,
        };
        assert(res@ == resource_attributes(*group));
        let ghost before = events@;
        let scopes = &group.scope_logs;
        let mut j: usize = 0;
        while j < scopes.len()
            invariant
                j <= scopes@.len(),
                res@ == resource_attributes(*group),
                scopes@ == group.scope_logs@,
                events@.len() == before.len() + scope_records(res@, scopes@.take(j as int)).len(),
                forall|k: int| 0 <= k < before.len() ==> events@[k] == before[k],
                forall|k: int|
                    0 <= k < scope_records(res@, scopes@.take(j as int)).len() ==> event_matches(
                        #[trigger] events@[before.len() + k],
                        scope_records(res@, scopes@.take(j as int))[k].0,
                        scope_records(res@, scopes@.take(j as int))[k].1,
                        batch,
                    ),
            decreases scopes@.len() - j,
        {
            let records = &scopes[j].log_records;
            let ghost mid = events@;
            let mut n: usize = 0;
            while n < records.len()
                invariant
                    n <= records@.len(),
                    events@.len() == mid.len() + n,
                    forall|k: int| 0 <= k < mid.len() ==> events@[k] == mid[k],
                    forall|k: int|
                        0 <= k < n ==> event_matches(
                            #[trigger] events@[mid.len() + k],
                            res@,
                            records@[k],
                            batch,
                        ),
                decreases records@.len() - n,
            {
                let ev = record_to_event(res, &records[n], batch);
                events.push(ev);
                n = n + 1;
            }
            proof {
                let prev = scope_records(res@, scopes@.take(j as int));
                let added = scopes@[j as int].log_records@.map_values(|r: LogRecord| (res@, r));
                assert(scopes@.take(j as int + 1).drop_last() =~= scopes@.take(j as int));
                assert(scope_records(res@, scopes@.take(j as int + 1)) == prev + added);
                assert forall|k: int|
                    0 <= k < (prev + added).len() implies event_matches(
                        #[trigger] events@[before.len() + k],
                        (prev + added)[k].0,
                        (prev + added)[k].1,
                        batch,
                    ) by {
                    if k >= prev.len() {
                        assert(events@[mid.len() + (k - prev.len())] == events@[before.len() + k]);
                    } else {
                        assert(events@[before.len() + k] == mid[before.len() + k]);
                    }
                }
            }
            j = j + 1;
        }
        proof {
            let prev = request_records(groups@.take(i as int));
            let added = scope_records(res@, scopes@);
            assert(scopes@.take(scopes@.len() as int) =~= scopes@);
            assert(groups@.take(i as int + 1).drop_last() =~= groups@.take(i as int));
            assert(request_records(groups@.take(i as int + 1)) == prev + added);
            assert forall|k: int|
                0 <= k < (prev + added).len() implies event_matches(
                    #[trigger] events@[k],
                    (prev + added)[k].0,
                    (prev + added)[k].1,
                    batch,
                ) by {
                if k >= prev.len() {
                    assert(events@[before.len() + (k - prev.len())] == events@[k]);
                } else {
                    assert(events@[k] == before[k]);
                }
            }
        }
        i = i + 1;
    }
    proof {
        assert(groups@.take(groups@.len() as int) =~= groups@);
    }
    events
}

/// Opens the batch of an export request: one finalizer reference for each
/// copy of each record's event in each of `outputs` outputs, and the events,
/// all attached to the new batch.
pub fn accept_request(req: &ExportLogsServiceRequest, finalizers: &mut Finalizers, outputs: usize)
    -> (r: Result<(usize, Vec<LogEvent>), FinalizeError>)
    ensures
        request_records(req.resource_logs@).len() * outputs > u64::MAX || old(finalizers).batches@.len()
            == usize::MAX ==> r == Err::<(usize, Vec<LogEvent>), _>(FinalizeError::TooManyReferences)
            && final(finalizers).batches@ == old(finalizers).batches@,
        request_records(req.resource_logs@).len() * outputs <= u64::MAX && old(
            finalizers,
        ).batches@.len() < usize::MAX ==> r is Ok && {
            let (handle, events) = r->Ok_0;
            &&& handle == old(finalizers).batches@.len()
            &&& final(finalizers).batches@ == old(finalizers).batches@.push(
                BatchFinalizer::spec_new(
                    (request_records(req.resource_logs@).len() * outputs) as u64,
                ),
            )
            &&& events@.len() == request_records(req.resource_logs@).len()
            &&& forall|k: int|
                0 <= k < events@.len() ==> event_matches(
                    #[trigger] events@[k],
                    request_records(req.resource_logs@)[k].0,
                    request_records(req.resource_logs@)[k].1,
                    Some(handle),
                )
        },
{
    if finalizers.batches.len() == usize::MAX {
        return Err(FinalizeError::TooManyReferences);
    }
    let handle = finalizers.batches.len();
    let events = request_to_events(req, Some(handle));
    let count = events.len() as u64;
    match count.checked_mul(outputs as u64) {
        Some(references) => {
            finalizers.new_batch(references);
            Ok((handle, events))
        },
        None => Err(FinalizeError::TooManyReferences),
    }
}

/// The answer owed to the sender of an export request once its batch has the
/// terminal status `status`.
pub fn export_response(status: EventStatus) -> (r: Result<(), ExportError>)
    ensures
        status == EventStatus::Delivered ==> r is Ok,
        status != EventStatus::Delivered ==> r == Err::<(), ExportError>(ExportError::Delivery(status)),
{
    match status {
        EventStatus::Delivered => Ok(()),
        _ => Err(ExportError::Delivery(status)),
    }
}

} // verus!

verus! {

/// An IPv4 socket address.
#[derive(Debug, Clone, Copy, PartialEq, Eq)]
pub struct SocketAddress {
    pub octets: [u8; 4],
    pub port: u16,
}

pub open spec fn address_text(a: SocketAddress) -> Seq<char> {
    decimal(a.octets@[0] as nat) + "."@ + decimal(a.octets@[1] as nat) + "."@ + decimal(
        a.octets@[2] as nat,
    ) + "."@ + decimal(a.octets@[3] as nat) + ":"@ + decimal(a.port as nat)
}

impl SocketAddress {
    /// The address in the usual dotted form with its port, as in `0.0.0.0:4317`.
    pub fn to_text(&self) -> (r: String)
        ensures
            r@ == address_text(*self),
    {
        let mut text = String::new();
        write_decimal(self.octets[0] as u64, &mut text);
        text.append(".");
        write_decimal(self.octets[1] as u64, &mut text);
        text.append(".");
        write_decimal(self.octets[2] as u64, &mut text);
        text.append(".");
        write_decimal(self.octets[3] as u64, &mut text);
        text.append(":");
        write_decimal(self.port as u64, &mut text);
        assert(text@ =~= address_text(*self));
        text
    }
}

/// Where the gRPC listener binds.
#[derive(Debug, Clone, Copy, PartialEq, Eq)]
pub struct GrpcConfig {
    pub address: SocketAddress,
}

/// Where the HTTP listener binds.
#[derive(Debug, Clone, Copy, PartialEq, Eq)]
pub struct HttpConfig {
    pub address: SocketAddress,
}

/// The configuration of the log protocol source.
#[derive(Debug, Clone, Copy, PartialEq, Eq)]
pub struct OpentelemetryConfig {
    pub grpc: GrpcConfig,
    pub http: HttpConfig,
    pub acknowledgements: AcknowledgementsConfig,
}

pub open spec fn source_toml_text(c: OpentelemetryConfig) -> Seq<char> {
    "[grpc]\naddress = \""@ + address_text(c.grpc.address) + "\"\n\n[http]\naddress = \""@
        + address_text(c.http.address) + "\"\n"@ + match c.acknowledgements.enabled {
        Some(b) => "\n[acknowledgements]\nenabled = "@ + bool_text(b) + "\n"@,
        None => seq![],
    }
}

impl OpentelemetryConfig {
    /// Renders the configuration as a TOML document.
    pub fn to_toml_text(&self) -> (r: String)
        ensures
            r@ == source_toml_text(*self),
    {
        let mut text = String::from_str("[grpc]\naddress = \"");
        let grpc = self.grpc.address.to_text();
        text.append(grpc.as_str());
        text.append("\"\n\n[http]\naddress = \"");
        let http = self.http.address.to_text();
        text.append(http.as_str());
        text.append("\"\n");
        match self.acknowledgements.enabled {
            Some(b) => {
                text.append("\n[acknowledgements]\nenabled = ");
                text.append(if b { "true" } else { "false" });
                text.append("\n");
            },
            None => {},
        }
        assert(text@ =~= source_toml_text(*self));
        text
    }

    /// The default configuration: gRPC on port 4317 and HTTP on port 4318 of
    /// every interface.
    pub fn default_config() -> (r: OpentelemetryConfig)
        ensures
            r.grpc.address.octets@ == seq![0u8, 0u8, 0u8, 0u8],
            r.grpc.address.port == 4317,
            r.http.address.octets@ == seq![0u8, 0u8, 0u8, 0u8],
            r.http.address.port == 4318,
            r.acknowledgements.enabled is None,
    {
        let r = OpentelemetryConfig {
            grpc: GrpcConfig { address: SocketAddress { octets: [0, 0, 0, 0], port: 4317 } },
            http: HttpConfig { address: SocketAddress { octets: [0, 0, 0, 0], port: 4318 } },
            acknowledgements: AcknowledgementsConfig { enabled: None },
        };
        assert(r.grpc.address.octets@ =~= seq![0u8, 0u8, 0u8, 0u8]);
        assert(r.http.address.octets@ =~= seq![0u8, 0u8, 0u8, 0u8]);
        r
    }

    /// The default configuration as a TOML document.
    pub fn generate_config() -> (r: String)
        ensures
            r@ == source_toml_text(OpentelemetryConfig {
                grpc: GrpcConfig { address: SocketAddress { octets: [0, 0, 0, 0], port: 4317 } },
                http: HttpConfig { address: SocketAddress { octets: [0, 0, 0, 0], port: 4318 } },
                acknowledgements: AcknowledgementsConfig { enabled: None },
            }),
    {
        let c = OpentelemetryConfig::default_config();
        c.to_toml_text()
    }
}

} // verus!
