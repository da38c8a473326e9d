//! OTLP/HTTP JSON payloads: the log record, its severity and the document that
//! carries a batch of records.

use vstd::prelude::*;
use serde_json::Value;
use crate::json::{
    array_value, int_value, json_bytes, json_of, jsons_of, members_of, object, object_value,
    text_value, write_bytes, Json,
};
use crate::text::{decimal, decimal_text, same_text, upper};

verus! {

/// One rendered log line with the context it was rendered in.
#[derive(Clone, Debug, Default)]
pub struct LogEntry {
    pub time_unix_nano: u128,
    pub body: String,
    pub level: String,
    pub configuration_name: String,
    pub category: String,
    pub phase: String,
    pub http_method: String,
    pub http_path: String,
    pub http_status_code: u32,
}

/// What a `LogEntry` says, each text as a sequence of characters.
pub struct EntryModel {
    pub time_unix_nano: nat,
    pub body: Seq<char>,
    pub level: Seq<char>,
    pub configuration_name: Seq<char>,
    pub category: Seq<char>,
    pub phase: Seq<char>,
    pub http_method: Seq<char>,
    pub http_path: Seq<char>,
    pub http_status_code: nat,
}

impl View for LogEntry {
    type V = EntryModel;

    open spec fn view(&self) -> EntryModel {
        EntryModel {
            time_unix_nano: self.time_unix_nano as nat,
            body: self.body@,
            level: self.level@,
            configuration_name: self.configuration_name@,
            category: self.category@,
            phase: self.phase@,
            http_method: self.http_method@,
            http_path: self.http_path@,
            http_status_code: self.http_status_code as nat,
        }
    }
}

/// What each of several entries says.
pub open spec fn models(entries: Seq<LogEntry>) -> Seq<EntryModel> {
    entries.map_values(|e: LogEntry| e@)
}

/// The levels a line can be logged at.
#[derive(Clone, Copy, Debug, PartialEq, Eq, Structural)]
pub enum Level {
    Debug,
    Info,
    Warn,
    Error,
}

/// The level that a text names, in any mix of upper and lower case. A text
/// that names none stands for `Info`.
pub open spec fn level_of(text: Seq<char>) -> Level {
    let name = upper(text);
    if name == "DEBUG"@ {
        Level::Debug
    } else if name == "WARN"@ || name == "WARNING"@ {
        Level::Warn
    } else if name == "ERROR"@ {
        Level::Error
    } else {
        Level::Info
    }
}

/// The OTLP severity number of a level.
pub open spec fn severity_number(level: Level) -> int {
    match level {
        Level::Debug => 5,
        Level::Info => 9,
        Level::Warn => 13,
        Level::Error => 17,
    }
}

/// The OTLP severity text of a level.
pub open spec fn severity_text(level: Level) -> Seq<char> {
    match level {
        Level::Debug => "DEBUG"@,
        Level::Info => "INFO"@,
        Level::Warn => "WARN"@,
        Level::Error => "ERROR"@,
    }
}

/// Reads the level that a text names.
pub fn parse_level(level: &str) -> (r: Level)
    ensures
        r == level_of(level@),
{
    let name = level.to_ascii_uppercase();
    if same_text(name.as_str(), "DEBUG") {
        Level::Debug
    } else if same_text(name.as_str(), "WARN") || same_text(name.as_str(), "WARNING") {
        Level::Warn
    } else if same_text(name.as_str(), "ERROR") {
        Level::Error
    } else {
        Level::Info
    }
}

/// The OTLP severity, as number and text, of the level that a text names.
pub fn severity(level: &str) -> (r: (i64, &'static str))
    ensures
        r.0 == severity_number(level_of(level@)),
        r.1@ == severity_text(level_of(level@)),
{
    match parse_level(level) {
        Level::Debug => (5, "DEBUG"),
        Level::Info => (9, "INFO"),
        Level::Warn => (13, "WARN"),
        Level::Error => (17, "ERROR"),
    }
}

/// An OTLP attribute whose value is `value`.
pub open spec fn attribute(key: Seq<char>, value: Json) -> Json {
    object(seq![("key"@, Json::Text(key)), ("value"@, value)])
}

/// An OTLP string value.
pub open spec fn string_value(text: Seq<char>) -> Json {
    object(seq![("stringValue"@, Json::Text(text))])
}

/// An OTLP integer value.
pub open spec fn integer_value(n: int) -> Json {
    object(seq![("intValue"@, Json::Int(n))])
}

/// A one-element sequence, or nothing where `present` is false.
pub open spec fn optional(present: bool, item: Json) -> Seq<Json> {
    if present {
        seq![item]
    } else {
        seq![]
    }
}

/// The attributes of a record: the configuration and the phase, then the
/// category, method, path and status that the entry has.
pub open spec fn record_attributes(e: EntryModel) -> Seq<Json> {
    seq![
        attribute("log.configuration_name"@, string_value(e.configuration_name)),
        attribute("log.phase"@, string_value(e.phase)),
    ] + optional(e.category.len() > 0, attribute("category"@, string_value(e.category)))
        + optional(
        e.http_method.len() > 0,
        attribute("http.request.method"@, string_value(e.http_method)),
    ) + optional(e.http_path.len() > 0, attribute("url.path"@, string_value(e.http_path)))
        + optional(
        e.http_status_code > 0,
        attribute("http.response.status_code"@, integer_value(e.http_status_code as int)),
    )
}

/// The members of the OTLP log record of an entry.
pub open spec fn record_members(e: EntryModel) -> Seq<(Seq<char>, Json)> {
    seq![
        ("timeUnixNano"@, Json::Text(decimal(e.time_unix_nano))),
        ("observedTimeUnixNano"@, Json::Text(decimal(e.time_unix_nano))),
        ("severityNumber"@, Json::Int(severity_number(level_of(e.level)))),
        ("severityText"@, Json::Text(severity_text(level_of(e.level)))),
        ("body"@, string_value(e.body)),
        ("attributes"@, Json::Array(record_attributes(e))),
    ]
}

/// The OTLP log record of an entry.
pub open spec fn record(e: EntryModel) -> Json {
    object(record_members(e))
}

/// The attributes of the resource that a document speaks for.
pub open spec fn service_attributes(service_name: Seq<char>, service_instance_id: Seq<char>) -> Seq<
    Json,
> {
    seq![
        attribute("service.name"@, string_value(service_name)),
        attribute("service.instance.id"@, string_value(service_instance_id)),
    ]
}

/// The resource that a document speaks for.
pub open spec fn resource(service_name: Seq<char>, service_instance_id: Seq<char>) -> Json {
    object(seq![("attributes"@, Json::Array(service_attributes(service_name, service_instance_id)))])
}

/// The scope that records are logged in.
pub open spec fn scope() -> Json {
    object(
        seq![
            ("name"@, Json::Text("omni-log-forwarder"@)),
            ("version"@, Json::Text("1.0.0"@)),
        ],
    )
}

/// The OTLP log records of a batch, in order.
pub open spec fn records(batch: Seq<EntryModel>) -> Seq<Json> {
    batch.map_values(|e: EntryModel| record(e))
}

/// The records of a batch under their scope.
pub open spec fn scope_logs(batch: Seq<EntryModel>) -> Json {
    object(seq![("scope"@, scope()), ("logRecords"@, Json::Array(records(batch)))])
}

/// The records of a batch under their resource.
pub open spec fn resource_logs(
    batch: Seq<EntryModel>,
    service_name: Seq<char>,
    service_instance_id: Seq<char>,
) -> Json {
    object(
        seq![
            ("resource"@, resource(service_name, service_instance_id)),
            ("scopeLogs"@, Json::Array(seq![scope_logs(batch)])),
        ],
    )
}

/// The OTLP document that carries a batch of entries.
pub open spec fn document(
    batch: Seq<EntryModel>,
    service_name: Seq<char>,
    service_instance_id: Seq<char>,
) -> Json {
    object(
        seq![
            (
                "resourceLogs"@,
                Json::Array(seq![resource_logs(batch, service_name, service_instance_id)]),
            ),
        ],
    )
}

/// An object with one member.
fn single(key: &str, value: Value) -> (r: Value)
    ensures
        json_of(r) == object(seq![(key@, json_of(value))]),
{
    let members: Vec<(&str, Value)> = vec![(key, value)];
    proof {
        assert(members_of(members@) =~= seq![(key@, json_of(value))]);
    }
    object_value(members)
}

/// An object with two members.
fn double(key1: &str, value1: Value, key2: &str, value2: Value) -> (r: Value)
    ensures
        json_of(r) == object(seq![(key1@, json_of(value1)), (key2@, json_of(value2))]),
{
    let members: Vec<(&str, Value)> = vec![(key1, value1), (key2, value2)];
    proof {
        assert(members_of(members@) =~= seq![(key1@, json_of(value1)), (key2@, json_of(value2))]);
    }
    object_value(members)
}

/// An array with one item.
fn only(item: Value) -> (r: Value)
    ensures
        json_of(r) == Json::Array(seq![json_of(item)]),
{
    let items: Vec<Value> = vec![item];
    proof {
        assert(jsons_of(items@) =~= seq![json_of(item)]);
    }
    array_value(items)
}

/// An OTLP attribute with a string value.
pub fn str_attr(key: &str, value: &str) -> (r: Value)
    ensures
        json_of(r) == attribute(key@, string_value(value@)),
{
    double("key", text_value(key), "value", single("stringValue", text_value(value)))
}

/// An OTLP attribute with an integer value.
pub fn int_attr(key: &str, value: i64) -> (r: Value)
    ensures
        json_of(r) == attribute(key@, integer_value(value as int)),
{
    double("key", text_value(key), "value", single("intValue", int_value(value)))
}

impl LogEntry {
    /// The OTLP log record of this entry.
    pub fn to_log_record(&self) -> (r: Value)
        ensures
            json_of(r) == record(self@),
    {
        let (sev_num, sev_text) = severity(self.level.as_str());
        let mut attrs: Vec<Value> = vec![
            str_attr("log.configuration_name", self.configuration_name.as_str()),
            str_attr("log.phase", self.phase.as_str()),
        ];
        if !self.category.as_str().is_empty() {
            attrs.push(str_attr("category", self.category.as_str()));
        }
        if !self.http_method.as_str().is_empty() {
            attrs.push(str_attr("http.request.method", self.http_method.as_str()));
        }
        if !self.http_path.as_str().is_empty() {
            attrs.push(str_attr("url.path", self.http_path.as_str()));
        }
        if self.http_status_code > 0 {
            attrs.push(int_attr("http.response.status_code", self.http_status_code as i64));
        }
        proof {
            assert(jsons_of(attrs@) =~= record_attributes(self@));
        }
        let time = decimal_text(self.time_unix_nano);
        let members: Vec<(&str, Value)> = vec![
            ("timeUnixNano", text_value(time.as_str())),
            ("observedTimeUnixNano", text_value(time.as_str())),
            ("severityNumber", int_value(sev_num)),
            ("severityText", text_value(sev_text)),
            ("body", single("stringValue", text_value(self.body.as_str()))),
            ("attributes", array_value(attrs)),
        ];
        proof {
            assert(members_of(members@) =~= record_members(self@));
        }
        object_value(members)
    }
}

/// The OTLP document of a batch, in memory.
pub fn otlp_document(entries: &[LogEntry], service_name: &str, service_instance_id: &str) -> (r:
    Value)
    ensures
        json_of(r) == document(models(entries@), service_name@, service_instance_id@),
{
    let mut log_records: Vec<Value> = Vec::new();
    let mut i: usize = 0;
    while i < entries.len()
        invariant
            i <= entries@.len(),
            log_records@.len() == i,
            forall|j: int|
                0 <= j < i ==> #[trigger] json_of(log_records@[j]) == record(entries@[j]@),
        decreases entries@.len() - i,
    {
        log_records.push(entries[i].to_log_record());
        i += 1;
    }
    proof {
        assert(jsons_of(log_records@) =~= records(models(entries@)));
    }
    let service: Vec<Value> = vec![
        str_attr("service.name", service_name),
        str_attr("service.instance.id", service_instance_id),
    ];
    proof {
        assert(jsons_of(service@) =~= service_attributes(service_name@, service_instance_id@));
    }
    let from = single("attributes", array_value(service));
    let logged_in = double(
        "name",
        text_value("omni-log-forwarder"),
        "version",
        text_value("1.0.0"),
    );
    let scoped = double("scope", logged_in, "logRecords", array_value(log_records));
    let sent = double("resource", from, "scopeLogs", only(scoped));
    single("resourceLogs", only(sent))
}

/// The body of an export, from what writing the document returned: its bytes,
/// or nothing where it could not be written.
pub fn body_or_empty(written: Result<Vec<u8>, serde_json::Error>) -> (r: Vec<u8>)
    ensures
        r@ == match written {
            Ok(bytes) => bytes@,
            Err(_) => Seq::<u8>::empty(),
        },
{
    match written {
        Ok(bytes) => bytes,
        Err(_) => Vec::new(),
    }
}

/// The body of the OTLP export that carries a batch of entries: its document,
/// written as compact JSON.
pub fn to_otlp_body(entries: &[LogEntry], service_name: &str, service_instance_id: &str) -> (r: Vec<
    u8,
>)
    ensures
        r@ == json_bytes(document(models(entries@), service_name@, service_instance_id@)),
{
    let doc = otlp_document(entries, service_name, service_instance_id);
    body_or_empty(write_bytes(&doc))
}

} // verus!
