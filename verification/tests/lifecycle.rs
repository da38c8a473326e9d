//! Transactions driven through the policy in an in-process gateway, up to the
//! POST that a mock endpoint receives. Expressions are written in DataWeave
//! and compiled to the wire format by `dw2pel`.

use std::cell::RefCell;
use std::collections::HashMap;
use std::rc::Rc;
use std::time::{Duration, UNIX_EPOCH};

use omni_log_forwarder::config::{
    conditional_source, export_period_ms, service_name, Config, LoggingConfigurations0Config,
};
use omni_log_forwarder::export::{ExportAction, ExportEvent, Exporter, Reply};
use omni_log_forwarder::policy::{self, RequestContext};
use omni_log_forwarder::queue::LogQueue;
use omni_log_forwarder::script::{compile_conditional, compile_script};
use pdk::authentication::{Authentication, AuthenticationHandler};
use pdk::hl::timer::{Clock, Timer};
use pdk::hl::{
    on_request, BodyState, Configuration, EntityState, Flow, HeadersState, HttpClient,
    IntoBodyState, Launcher, RequestData, RequestState, ResponseState,
};
use pdk::metadata::Metadata;
use pdk::script::Expression;
use pdk_unit::{
    dw2pel, TraceBackend, UnitHttpMessage, UnitHttpRequest, UnitHttpResponse, UnitTest,
    UnitTestBuilder,
};
use serde_json::Value;

const ENDPOINT: &str = "http://collector";
const ENDPOINT_AUTHORITY: &str = "collector";
const LICENSE_KEY: &str = "test-ingest-license-key-abc123";

fn object(members: &[(&str, Value)]) -> Value {
    members
        .iter()
        .map(|(k, v)| (k.to_string(), v.clone()))
        .collect()
}

fn text(s: &str) -> Value {
    Value::from(s)
}

fn config_with(logging_configuration: Value) -> String {
    object(&[
        ("otlp_endpoint", text(ENDPOINT)),
        ("otlp_api_key", text(LICENSE_KEY)),
        (
            "loggingConfigurations",
            Value::from(vec![logging_configuration]),
        ),
        ("batch_max_size", Value::from(100)),
        ("export_timeout_ms", Value::from(100)),
    ])
    .to_string()
}

fn owned(value: &Value) -> Option<String> {
    value.as_str().map(str::to_string)
}

fn logging_configuration(value: &Value) -> LoggingConfigurations0Config {
    let message: Expression = serde_json::from_value(value["message"].clone()).unwrap();
    let conditional: Option<Expression> = conditional_source(owned(&value["conditional"]))
        .map(|source| serde_json::from_value(Value::from(source)).unwrap());
    LoggingConfigurations0Config {
        after_calling_api: value["afterCallingApi"].as_bool(),
        also_log_to_message_logs: value["alsoLogToMessageLogs"].as_bool(),
        before_calling_api: value["beforeCallingApi"].as_bool(),
        category: owned(&value["category"]),
        conditional: compile_conditional(&conditional).unwrap(),
        configuration_name: owned(&value["configurationName"]).unwrap(),
        level: owned(&value["level"]),
        message: compile_script(&message).unwrap(),
    }
}

fn parse_config(bytes: &[u8]) -> Config {
    let value: Value = serde_json::from_slice(bytes).unwrap();
    Config {
        batch_max_size: value["batch_max_size"].as_i64(),
        export_timeout_ms: value["export_timeout_ms"].as_i64(),
        logging_configurations: value["loggingConfigurations"]
            .as_array()
            .unwrap()
            .iter()
            .map(logging_configuration)
            .collect(),
        otlp_api_key: owned(&value["otlp_api_key"]).unwrap(),
        otlp_endpoint: pdk::serde::deserialize_service(value["otlp_endpoint"].clone()).unwrap(),
    }
}

fn unix_nanos(timer: &Timer) -> u128 {
    timer
        .now()
        .duration_since(UNIX_EPOCH)
        .map(|d| d.as_nanos())
        .unwrap_or(0)
}

async fn request_filter(
    state: RequestState,
    config: &Config,
    queue: &RefCell<LogQueue>,
    auth: Authentication,
    now: u128,
) -> Flow<RequestContext> {
    let headers_state = state.into_headers_state().await;
    let ctx = RequestContext {
        method: headers_state.method(),
        path: headers_state.path(),
    };
    let run = match policy::request_filter(config, &ctx, now) {
        Some(run) => run,
        None => return Flow::Continue(ctx),
    };
    let phase = run.bind(headers_state.handler().headers(), auth.authentication());
    let body: Option<Vec<u8>> = if phase.wants_body(headers_state.contains_body()) {
        let body_state = headers_state.into_body_state().await;
        Some(body_state.handler().body())
    } else {
        None
    };
    phase.finish(&mut queue.borrow_mut(), body.as_deref());
    Flow::Continue(ctx)
}

async fn response_filter(
    state: ResponseState,
    request_data: RequestData<RequestContext>,
    config: &Config,
    queue: &RefCell<LogQueue>,
    auth: Authentication,
    now: u128,
) {
    let request = match request_data {
        RequestData::Continue(ctx) => Some(ctx),
        _ => None,
    };
    let headers_state = state.into_headers_state().await;
    let status = headers_state.status_code();
    let run = match policy::response_filter(config, request, status, now) {
        Some(run) => run,
        None => return,
    };
    let phase = run.bind(headers_state.handler().headers(), auth.authentication());
    let body: Option<Vec<u8>> = if phase.wants_body(headers_state.contains_body()) {
        let body_state = headers_state.into_body_state().await;
        Some(body_state.handler().body())
    } else {
        None
    };
    phase.finish(&mut queue.borrow_mut(), body.as_deref());
}

async fn export_loop(
    timer: &Timer,
    config: &Config,
    queue: &RefCell<LogQueue>,
    client: &HttpClient,
    exporter: &Exporter,
) {
    while timer.next_tick().await {
        let mut event = ExportEvent::Tick;
        loop {
            let (_, action) = exporter.step(&mut queue.borrow_mut(), event);
            let export = match action {
                ExportAction::Wait => break,
                ExportAction::Send(export) => export,
            };
            let result = client
                .request(&config.otlp_endpoint)
                .path(export.path)
                .headers(
                    export
                        .headers
                        .iter()
                        .map(|(name, value)| (name.as_str(), value.as_str()))
                        .collect(),
                )
                .body(&export.body)
                .post()
                .await;
            let reply = match result {
                Ok(response) => Reply::Status(response.status_code()),
                Err(_) => Reply::Unreachable,
            };
            event = ExportEvent::Replied { export, reply };
        }
    }
}

async fn configure(
    launcher: Launcher,
    Configuration(bytes): Configuration,
    metadata: Metadata,
    clock: Clock,
    client: HttpClient,
) -> anyhow::Result<()> {
    let config = parse_config(&bytes);
    let queue = RefCell::new(LogQueue::new());
    let exporter = Exporter::new(
        &config,
        service_name(
            &metadata.api_metadata.name,
            &metadata.policy_metadata.policy_name,
        ),
        metadata.flex_metadata.flex_name.clone(),
    );
    let timer = clock.period(Duration::from_millis(export_period_ms(&config)));
    let filter = on_request(|rs, auth| {
        request_filter(rs, &config, &queue, auth, unix_nanos(&timer))
    })
    .on_response(|rs, data, auth| {
        response_filter(rs, data, &config, &queue, auth, unix_nanos(&timer))
    });
    let launched = launcher.launch(filter);
    let exporting = export_loop(&timer, &config, &queue, &client, &exporter);
    let (launched, _) = futures::future::join(launched, exporting).await;
    launched?;
    Ok(())
}

fn tester_replying(
    config: String,
    status: u32,
) -> (UnitTest, Rc<TraceBackend<UnitHttpResponse>>) {
    let endpoint = Rc::new(TraceBackend::new(UnitHttpResponse::new(status)));
    let tester = UnitTestBuilder::default()
        .with_config(&config)
        .with_backend(UnitHttpResponse::new(200))
        .with_http_upstream_from_authority(ENDPOINT_AUTHORITY, Rc::clone(&endpoint))
        .with_entrypoint(configure);
    (tester, endpoint)
}

fn tester_with(config: String) -> (UnitTest, Rc<TraceBackend<UnitHttpResponse>>) {
    tester_replying(config, 200)
}

fn flatten_attrs(attrs: &Value) -> HashMap<String, String> {
    let mut out = HashMap::new();
    if let Some(arr) = attrs.as_array() {
        for a in arr {
            let key = a["key"].as_str().unwrap_or_default().to_string();
            let v = &a["value"];
            let val = if let Some(s) = v["stringValue"].as_str() {
                s.to_string()
            } else if let Some(i) = v["intValue"].as_i64() {
                i.to_string()
            } else {
                v.to_string()
            };
            out.insert(key, val);
        }
    }
    out
}

fn only_record(otlp: &UnitHttpRequest) -> Value {
    let doc: Value = serde_json::from_slice(otlp.body()).expect("valid OTLP JSON");
    doc["resourceLogs"][0]["scopeLogs"][0]["logRecords"][0].clone()
}

#[test]
fn forwards_rendered_message_with_api_key() {
    let config = config_with(object(&[
        ("configurationName", text("access-log")),
        (
            "message",
            text(&dw2pel("attributes.method ++ ' ' ++ attributes.requestUri")),
        ),
        ("level", text("INFO")),
        ("afterCallingApi", Value::from(true)),
    ]));
    let (mut tester, endpoint) = tester_with(config);

    let response = tester.request(UnitHttpRequest::get().with_path("/orders/echo"));
    assert_eq!(response.status_code(), 200);

    tester.sleep(Duration::from_millis(500));

    let otlp = endpoint
        .next()
        .expect("endpoint should have received an OTLP export");

    assert_eq!(
        otlp.header("api-key"),
        Some(LICENSE_KEY),
        "api-key header must carry the configured ingest license key"
    );
    assert_eq!(otlp.header(":path"), Some("/v1/logs"));
    assert_eq!(otlp.header(":method"), Some("POST"));
    assert_eq!(otlp.header("content-type"), Some("application/json"));

    let record = only_record(&otlp);
    assert_eq!(
        record["body"]["stringValue"].as_str(),
        Some("GET /orders/echo"),
        "OTLP record body must be the evaluated DataWeave message"
    );

    let body = String::from_utf8_lossy(otlp.body());
    assert!(body.contains("resourceLogs"));
    assert!(body.contains("logRecords"));
    let attrs = flatten_attrs(&record["attributes"]);
    assert_eq!(
        attrs.get("log.configuration_name").map(String::as_str),
        Some("access-log")
    );
    assert_eq!(attrs.get("log.phase").map(String::as_str), Some("response"));
    assert_eq!(
        attrs.get("http.response.status_code").map(String::as_str),
        Some("200")
    );
}

#[test]
fn conditional_true_forwards_the_message() {
    let config = config_with(object(&[
        ("configurationName", text("only-gets")),
        ("message", text(&dw2pel("attributes.requestUri"))),
        ("conditional", text(&dw2pel("attributes.method == 'GET'"))),
        ("afterCallingApi", Value::from(true)),
    ]));
    let (mut tester, endpoint) = tester_with(config);

    tester.request(UnitHttpRequest::get().with_path("/widgets"));
    tester.sleep(Duration::from_millis(500));

    let otlp = endpoint
        .next()
        .expect("GET must pass the conditional and be exported");
    let record = only_record(&otlp);
    assert_eq!(record["body"]["stringValue"].as_str(), Some("/widgets"));
}

#[test]
fn conditional_false_suppresses_the_message() {
    let config = config_with(object(&[
        ("configurationName", text("only-posts")),
        ("message", text(&dw2pel("attributes.requestUri"))),
        ("conditional", text(&dw2pel("attributes.method == 'POST'"))),
        ("afterCallingApi", Value::from(true)),
    ]));
    let (mut tester, endpoint) = tester_with(config);

    tester.request(UnitHttpRequest::get().with_path("/widgets"));
    tester.sleep(Duration::from_millis(500));

    assert!(
        endpoint.next().is_none(),
        "conditional evaluated false \u{2014} nothing should have been exported"
    );
}

#[test]
fn before_calling_api_logs_in_request_phase() {
    let config = config_with(object(&[
        ("configurationName", text("inbound")),
        ("message", text(&dw2pel("'inbound ' ++ attributes.method"))),
        ("beforeCallingApi", Value::from(true)),
        ("afterCallingApi", Value::from(false)),
    ]));
    let (mut tester, endpoint) = tester_with(config);

    tester.request(UnitHttpRequest::post().with_path("/submit"));
    tester.sleep(Duration::from_millis(500));

    let otlp = endpoint.next().expect("request-phase log must be exported");
    let record = only_record(&otlp);
    assert_eq!(record["body"]["stringValue"].as_str(), Some("inbound POST"));
    let attrs = flatten_attrs(&record["attributes"]);
    assert_eq!(attrs.get("log.phase").map(String::as_str), Some("request"));
    assert!(!attrs.contains_key("http.response.status_code"));
}

#[test]
fn payload_message_forwards_request_body() {
    let config = config_with(object(&[
        ("configurationName", text("echo-body")),
        ("message", text(&dw2pel("payload"))),
        ("beforeCallingApi", Value::from(true)),
        ("afterCallingApi", Value::from(false)),
    ]));
    let (mut tester, endpoint) = tester_with(config);

    tester.request(
        UnitHttpRequest::post()
            .with_path("/ingest")
            .with_header("content-type", "text/plain")
            .with_body("hello-payload"),
    );
    tester.sleep(Duration::from_millis(500));

    let otlp = endpoint.next().expect("payload log must be exported");
    let body = String::from_utf8_lossy(otlp.body());
    assert!(
        body.contains("hello-payload"),
        "rendered payload must appear in the OTLP body; got: {}",
        body
    );
}

#[test]
fn level_maps_to_otlp_severity() {
    let config = config_with(object(&[
        ("configurationName", text("warn-line")),
        ("message", text(&dw2pel("attributes.path"))),
        ("level", text("WARN")),
        ("afterCallingApi", Value::from(true)),
    ]));
    let (mut tester, endpoint) = tester_with(config);

    tester.request(UnitHttpRequest::get().with_path("/x"));
    tester.sleep(Duration::from_millis(500));

    let record = only_record(&endpoint.next().expect("expected an export"));
    assert_eq!(record["severityText"].as_str(), Some("WARN"));
    assert_eq!(record["severityNumber"].as_i64(), Some(13));
}

#[test]
fn category_is_prefixed_and_attributed() {
    let config = config_with(object(&[
        ("configurationName", text("audit-line")),
        ("message", text(&dw2pel("attributes.method"))),
        ("category", text("AUDIT")),
        ("afterCallingApi", Value::from(true)),
    ]));
    let (mut tester, endpoint) = tester_with(config);

    tester.request(UnitHttpRequest::get().with_path("/x"));
    tester.sleep(Duration::from_millis(500));

    let record = only_record(&endpoint.next().expect("expected an export"));
    assert_eq!(record["body"]["stringValue"].as_str(), Some("[AUDIT] GET"));
    let attrs = flatten_attrs(&record["attributes"]);
    assert_eq!(attrs.get("category").map(String::as_str), Some("AUDIT"));
}

// The flag controls only the local write: the line is exported all the same.
#[test]
fn also_log_flag_off_still_forwards_to_otlp() {
    let config = config_with(object(&[
        ("configurationName", text("otlp-only")),
        ("message", text(&dw2pel("attributes.method"))),
        ("alsoLogToMessageLogs", Value::from(false)),
        ("afterCallingApi", Value::from(true)),
    ]));
    let (mut tester, endpoint) = tester_with(config);

    tester.request(UnitHttpRequest::get().with_path("/x"));
    tester.sleep(Duration::from_millis(500));

    let record = only_record(
        &endpoint
            .next()
            .expect("OTLP forwarding must happen even when local logging is off"),
    );
    assert_eq!(record["body"]["stringValue"].as_str(), Some("GET"));
}

#[test]
fn batches_multiple_transactions_into_one_export() {
    let config = config_with(object(&[
        ("configurationName", text("path-log")),
        ("message", text(&dw2pel("attributes.requestUri"))),
        ("afterCallingApi", Value::from(true)),
    ]));
    let (mut tester, endpoint) = tester_with(config);

    for i in 0..3 {
        let resp = tester.request(UnitHttpRequest::get().with_path(&format!("/p{i}")));
        assert_eq!(resp.status_code(), 200);
    }
    tester.sleep(Duration::from_millis(500));

    let otlp = endpoint.next().expect("expected a batched OTLP export");
    let body = String::from_utf8_lossy(otlp.body());
    assert!(body.contains("/p0") && body.contains("/p1") && body.contains("/p2"));
}

#[test]
fn rejected_batch_is_sent_again() {
    let config = config_with(object(&[
        ("configurationName", text("path-log")),
        ("message", text(&dw2pel("attributes.requestUri"))),
    ]));
    let (mut tester, endpoint) = tester_replying(config, 503);

    let response = tester.request(UnitHttpRequest::get().with_path("/kept"));
    assert_eq!(response.status_code(), 200);
    tester.sleep(Duration::from_millis(500));

    let first = endpoint.next().expect("expected an export");
    let second = endpoint.next().expect("expected the batch once more");
    assert_eq!(only_record(&first)["body"]["stringValue"], "/kept");
    assert_eq!(first.body(), second.body());
}

#[test]
fn conditional_left_empty_always_logs() {
    let config = config_with(object(&[
        ("configurationName", text("always")),
        ("message", text(&dw2pel("attributes.requestUri"))),
        ("conditional", text("")),
    ]));
    let (mut tester, endpoint) = tester_with(config);

    tester.request(UnitHttpRequest::get().with_path("/widgets"));
    tester.sleep(Duration::from_millis(500));

    let record = only_record(&endpoint.next().expect("expected an export"));
    assert_eq!(record["body"]["stringValue"].as_str(), Some("/widgets"));
}
