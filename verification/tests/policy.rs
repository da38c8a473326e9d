use omni_log_forwarder::attributes::OwnedAttributes;
use omni_log_forwarder::config::{Config, LoggingConfigurations0Config};
use omni_log_forwarder::otel::{Level, LogEntry};
use omni_log_forwarder::policy::{
    active_configurations, condition_passes, emit_entry, emit_message, phase_needs_body,
    request_filter, response_filter, run_phase, Emission, RequestContext,
};
use omni_log_forwarder::queue::{
    drain_batch, enqueue, queue_len, LogQueue, MAX_BUFFERED_RECORDS,
};
use omni_log_forwarder::script::{
    compile_conditional, compile_script, evaluate, needs_payload, value_to_string, ScriptValue,
};
use pdk::authentication::AuthenticationData;
use pdk::hl::Service;
use pdk::script::{Expression, Script};
use pdk_unit::dw2pel;
use serde_json::Value;

fn expression(dw: &str) -> Expression {
    serde_json::from_value(Value::from(dw2pel(dw))).unwrap()
}

fn script(dw: &str) -> Script {
    compile_script(&expression(dw)).unwrap()
}

fn attributes() -> OwnedAttributes {
    OwnedAttributes::new(
        vec![("X-Audit".to_string(), "true".to_string())],
        Some("GET"),
        Some("/orders?q=1"),
        Some(200),
    )
}

fn ctx() -> RequestContext {
    RequestContext {
        method: "GET".to_string(),
        path: "/orders?q=1".to_string(),
    }
}

fn configuration(name: &str, message: &str) -> LoggingConfigurations0Config {
    LoggingConfigurations0Config {
        after_calling_api: None,
        also_log_to_message_logs: None,
        before_calling_api: None,
        category: None,
        conditional: None,
        configuration_name: name.to_string(),
        level: None,
        message: script(message),
    }
}

fn config(logging_configurations: Vec<LoggingConfigurations0Config>) -> Config {
    Config {
        batch_max_size: None,
        export_timeout_ms: None,
        logging_configurations,
        otlp_api_key: "key".to_string(),
        otlp_endpoint: Service::default(),
    }
}

fn emit(queue: &mut LogQueue, cfg: &LoggingConfigurations0Config, body: Option<&[u8]>) -> Emission {
    emit_entry(
        queue,
        cfg,
        &attributes(),
        &None,
        body,
        "response",
        200,
        &ctx(),
        77,
    )
}

fn only(queue: &mut LogQueue) -> LogEntry {
    let mut all = drain_batch(queue, usize::MAX);
    assert_eq!(all.len(), 1);
    all.remove(0)
}

fn json(text: &str) -> Value {
    serde_json::from_str(text).unwrap()
}

#[test]
fn values_render_as_text() {
    assert_eq!(value_to_string(ScriptValue::Text("a \"b\"".to_string())), "a \"b\"");
    assert_eq!(value_to_string(ScriptValue::Null), "");
    assert_eq!(value_to_string(ScriptValue::Bool(true)), "true");
    assert_eq!(value_to_string(ScriptValue::Bool(false)), "false");
    assert_eq!(
        value_to_string(ScriptValue::Json(json(r#"{"b": [1.5, null], "a": "x"}"#))),
        r#"{"a":"x","b":[1.5,null]}"#
    );
}

fn evaluated(dw: &str, body: Option<&[u8]>) -> Option<String> {
    evaluate(&script(dw), &attributes(), &None, body).map(value_to_string)
}

#[test]
fn expressions_evaluate_on_attributes() {
    assert_eq!(
        evaluated("attributes.method ++ ' ' ++ attributes.requestUri", None),
        Some("GET /orders?q=1".to_string())
    );
    assert_eq!(
        evaluated("attributes.headers['x-audit']", None),
        Some("true".to_string())
    );
    assert_eq!(evaluated("attributes.statusCode", None), Some("200.0".to_string()));
    assert_eq!(evaluated("attributes.nothing", None), Some(String::new()));
    assert_eq!(
        evaluated("attributes.method == 'GET'", None),
        Some("true".to_string())
    );
    assert_eq!(evaluated("'constant'", None), Some("constant".to_string()));
}

#[test]
fn expressions_evaluate_on_authentication() {
    let auth = Some(AuthenticationData::new(
        Some("joe".to_string()),
        Some("client-1".to_string()),
        None,
        pdk::script::Value::Null,
    ));
    let s = script("authentication.principal ++ '/' ++ authentication.clientId");
    assert_eq!(
        evaluate(&s, &attributes(), &auth, None).map(value_to_string),
        Some("joe/client-1".to_string())
    );
    assert!(!needs_payload(&s, &attributes(), &auth));
}

#[test]
fn payload_is_bound_only_where_there_is_a_body() {
    assert_eq!(
        evaluated("payload.name", Some(br#"{"name": "n"}"#)),
        Some("n".to_string())
    );
    assert_eq!(evaluated("payload.name", None), None);
}

#[test]
fn body_plays_no_part_unless_needed() {
    assert_eq!(
        evaluated("attributes.method", Some(b"body")),
        evaluated("attributes.method", None)
    );
}

#[test]
fn payload_need_is_found() {
    assert!(needs_payload(&script("payload"), &attributes(), &None));
    assert!(needs_payload(
        &script("attributes.method ++ payload.name"),
        &attributes(),
        &None
    ));
    assert!(!needs_payload(&script("attributes.method"), &attributes(), &None));
    assert!(!needs_payload(&script("'constant'"), &attributes(), &None));
}

#[test]
fn phase_needs_body_as_soon_as_one_configuration_does() {
    let plain = configuration("plain", "attributes.method");
    let message = configuration("message", "payload");
    let mut conditional = configuration("conditional", "attributes.method");
    conditional.conditional = Some(script("payload.ok == true"));
    assert!(!phase_needs_body(&[], &attributes(), &None));
    assert!(!phase_needs_body(&[&plain], &attributes(), &None));
    assert!(phase_needs_body(&[&plain, &message], &attributes(), &None));
    assert!(phase_needs_body(&[&conditional, &plain], &attributes(), &None));
}

#[test]
fn compiling_reports_errors_and_keeps_absence() {
    assert!(compile_conditional(&None).unwrap().is_none());
    assert!(compile_conditional(&Some(expression("attributes.method")))
        .unwrap()
        .is_some());
    let bad: Expression =
        serde_json::from_value(Value::from(r##"P[[":ref", "0-4", "nothing"], "#[nothing]"]"##))
            .unwrap();
    assert!(compile_script(&bad).is_err());
    assert!(compile_conditional(&Some(bad)).is_err());
}

#[test]
fn only_true_passes_a_conditional() {
    assert!(condition_passes(&Some(ScriptValue::Bool(true))));
    assert!(!condition_passes(&Some(ScriptValue::Bool(false))));
    assert!(!condition_passes(&Some(ScriptValue::Text("true".to_string()))));
    assert!(!condition_passes(&Some(ScriptValue::Null)));
    assert!(!condition_passes(&Some(ScriptValue::Json(json("1")))));
    assert!(!condition_passes(&None));
}

#[test]
fn emitted_line_becomes_an_entry() {
    let mut queue = LogQueue::new();
    let mut cfg = configuration("access-log", "attributes.method");
    cfg.category = Some("AUDIT".to_string());
    cfg.level = Some("warning".to_string());
    match emit(&mut queue, &cfg, None) {
        Emission::Emitted {
            local: Some(line),
            dropped_oldest: false,
        } => {
            assert_eq!(line.level, Level::Warn);
            assert_eq!(line.text, "[AUDIT] GET");
        }
        other => panic!("unexpected {other:?}"),
    }
    let entry = only(&mut queue);
    assert_eq!(entry.time_unix_nano, 77);
    assert_eq!(entry.body, "[AUDIT] GET");
    assert_eq!(entry.level, "warning");
    assert_eq!(entry.configuration_name, "access-log");
    assert_eq!(entry.category, "AUDIT");
    assert_eq!(entry.phase, "response");
    assert_eq!(entry.http_method, "GET");
    assert_eq!(entry.http_path, "/orders?q=1");
    assert_eq!(entry.http_status_code, 200);
}

#[test]
fn defaults_of_a_configuration() {
    let mut queue = LogQueue::new();
    let cfg = configuration("plain", "attributes.method");
    match emit(&mut queue, &cfg, None) {
        Emission::Emitted {
            local: Some(line), ..
        } => {
            assert_eq!(line.level, Level::Info);
            assert_eq!(line.text, "GET");
        }
        other => panic!("unexpected {other:?}"),
    }
    let entry = only(&mut queue);
    assert_eq!(entry.level, "INFO");
    assert_eq!(entry.category, "");
    assert_eq!(entry.body, "GET");
}

#[test]
fn local_logging_does_not_touch_the_export() {
    let mut queue = LogQueue::new();
    let mut cfg = configuration("quiet", "attributes.method");
    cfg.also_log_to_message_logs = Some(false);
    assert!(matches!(
        emit(&mut queue, &cfg, None),
        Emission::Emitted {
            local: None,
            dropped_oldest: false
        }
    ));
    assert_eq!(only(&mut queue).body, "GET");
}

#[test]
fn conditional_decides() {
    let mut queue = LogQueue::new();
    let mut cfg = configuration("guarded", "attributes.method");
    cfg.conditional = Some(script("attributes.headers['x-audit'] == 'true'"));
    assert!(matches!(emit(&mut queue, &cfg, None), Emission::Emitted { .. }));
    assert_eq!(queue_len(&queue), 1);
    cfg.conditional = Some(script("attributes.headers['x-audit'] == 'false'"));
    assert!(matches!(emit(&mut queue, &cfg, None), Emission::Suppressed));
    cfg.conditional = Some(script("attributes.headers['x-audit']"));
    assert!(matches!(emit(&mut queue, &cfg, None), Emission::Suppressed));
    cfg.conditional = Some(script("payload.ok == true"));
    assert!(matches!(emit(&mut queue, &cfg, None), Emission::Suppressed));
    assert!(matches!(
        emit(&mut queue, &cfg, Some(br#"{"ok": true}"#)),
        Emission::Emitted { .. }
    ));
    assert_eq!(queue_len(&queue), 2);
}

#[test]
fn failed_message_queues_nothing() {
    let mut queue = LogQueue::new();
    match emit(&mut queue, &configuration("broken", "payload"), None) {
        Emission::Failed { configuration_name } => assert_eq!(configuration_name, "broken"),
        other => panic!("unexpected {other:?}"),
    }
    assert_eq!(queue_len(&queue), 0);
}

#[test]
fn full_queue_is_reported() {
    let mut queue = LogQueue::new();
    for _ in 0..MAX_BUFFERED_RECORDS {
        enqueue(&mut queue, LogEntry::default());
    }
    let r = emit_message(
        &mut queue,
        &configuration("late", "attributes.method"),
        Some(ScriptValue::Text("line".to_string())),
        "request",
        0,
        &ctx(),
        1,
    );
    assert!(matches!(
        r,
        Emission::Emitted {
            dropped_oldest: true,
            ..
        }
    ));
    assert_eq!(queue_len(&queue), MAX_BUFFERED_RECORDS);
}

#[test]
fn phase_runs_configurations_in_order() {
    let mut queue = LogQueue::new();
    let first = configuration("first", "attributes.method");
    let second = configuration("second", "payload");
    let third = configuration("third", "attributes.requestUri");
    let results = run_phase(
        &mut queue,
        &[&first, &second, &third],
        &attributes(),
        &None,
        None,
        "request",
        0,
        &ctx(),
        5,
    );
    assert_eq!(results.len(), 3);
    assert!(matches!(results[1], Emission::Failed { .. }));
    let names: Vec<String> = drain_batch(&mut queue, 10)
        .into_iter()
        .map(|e| e.configuration_name)
        .collect();
    assert_eq!(names, ["first", "third"]);
}

#[test]
fn body_plays_no_part_in_a_phase_unless_needed() {
    let first = configuration("first", "attributes.method");
    let mut second = configuration("second", "attributes.requestUri");
    second.conditional = Some(script("attributes.method == 'GET'"));
    assert!(!phase_needs_body(&[&first, &second], &attributes(), &None));
    let bodies: Vec<Vec<String>> = [None, Some(&b""[..]), Some(&br#"{"a": 1}"#[..])]
        .into_iter()
        .map(|body| {
            let mut queue = LogQueue::new();
            run_phase(
                &mut queue,
                &[&first, &second],
                &attributes(),
                &None,
                body,
                "request",
                0,
                &ctx(),
                5,
            );
            drain_batch(&mut queue, 10).into_iter().map(|e| e.body).collect()
        })
        .collect();
    assert_eq!(bodies[0], ["GET", "/orders?q=1"]);
    assert_eq!(bodies[1], bodies[0]);
    assert_eq!(bodies[2], bodies[0]);
}

#[test]
fn phases_of_a_configuration() {
    let mut before = configuration("before", "'b'");
    before.before_calling_api = Some(true);
    before.after_calling_api = Some(false);
    let neither = {
        let mut c = configuration("neither", "'n'");
        c.after_calling_api = Some(false);
        c
    };
    let config = config(vec![before, configuration("default", "'d'"), neither]);
    let names = |response: bool| -> Vec<String> {
        active_configurations(&config, response)
            .iter()
            .map(|c| c.configuration_name.clone())
            .collect()
    };
    assert_eq!(names(false), ["before"]);
    assert_eq!(names(true), ["default"]);
}

#[test]
fn request_phase_from_start_to_end() {
    let mut cfg = configuration("inbound", "attributes.method ++ ' ' ++ payload.id");
    cfg.before_calling_api = Some(true);
    let config = config(vec![cfg]);
    let run = request_filter(&config, &ctx(), 9).unwrap();
    assert_eq!(run.phase, "request");
    assert_eq!(run.status, None);
    let phase = run.bind(vec![(":path".to_string(), "/other".to_string())], None);
    assert!(!phase.wants_body(false));
    assert!(phase.wants_body(true));
    let mut queue = LogQueue::new();
    let results = phase.finish(&mut queue, Some(br#"{"id": "42"}"#));
    assert_eq!(results.len(), 1);
    let entry = only(&mut queue);
    assert_eq!(entry.body, "GET 42");
    assert_eq!(entry.phase, "request");
    assert_eq!(entry.http_status_code, 0);
    assert_eq!(entry.http_path, "/orders?q=1");
    assert_eq!(entry.time_unix_nano, 9);
}

#[test]
fn response_phase_from_start_to_end() {
    let config = config(vec![configuration(
        "access",
        "attributes.method ++ attributes.requestUri",
    )]);
    let run = response_filter(&config, None, 503, 9).unwrap();
    assert_eq!(run.phase, "response");
    let phase = run.bind(vec![(":status".to_string(), "200".to_string())], None);
    assert!(!phase.wants_body(true));
    assert_eq!(phase.attrs.headers.last().unwrap().1, "503");
    let mut queue = LogQueue::new();
    phase.finish(&mut queue, None);
    let entry = only(&mut queue);
    assert_eq!(entry.body, "--");
    assert_eq!(entry.http_method, "-");
    assert_eq!(entry.http_path, "-");
    assert_eq!(entry.http_status_code, 503);

    let run = response_filter(&config, Some(ctx()), 200, 9).unwrap();
    assert_eq!(run.ctx.method, "GET");
    assert_eq!(run.ctx.path, "/orders?q=1");
}

#[test]
fn idle_phases_do_nothing() {
    let mut cfg = configuration("never", "'n'");
    cfg.after_calling_api = Some(false);
    let config = config(vec![cfg]);
    assert!(request_filter(&config, &ctx(), 1).is_none());
    assert!(response_filter(&config, Some(ctx()), 200, 1).is_none());
}
