use omni_log_forwarder::otel::{
    body_or_empty, int_attr, parse_level, severity, str_attr, to_otlp_body, Level, LogEntry,
};
use omni_log_forwarder::queue::{
    drain_batch, enqueue, queue_len, requeue_front, LogQueue, MAX_BUFFERED_RECORDS,
};
use serde_json::Value;

fn sample(level: &str) -> LogEntry {
    LogEntry {
        time_unix_nano: 1_700_000_000_000_000_000,
        body: "hello from dataweave".to_string(),
        level: level.to_string(),
        configuration_name: "log-everything".to_string(),
        category: "AUDIT".to_string(),
        phase: "response".to_string(),
        http_method: "GET".to_string(),
        http_path: "/orders/42".to_string(),
        http_status_code: 200,
    }
}

fn numbered(i: usize) -> LogEntry {
    let mut e = sample("INFO");
    e.body = format!("msg-{i}");
    e
}

fn parse(text: &str) -> Value {
    serde_json::from_str(text).unwrap()
}

fn bodies(entries: &[LogEntry]) -> Vec<String> {
    entries.iter().map(|e| e.body.clone()).collect()
}

#[test]
fn otlp_body_carries_rendered_message_and_context() {
    let body = to_otlp_body(&[sample("INFO")], "omni-gateway", "flex-abc");
    let text = String::from_utf8(body).unwrap();
    assert!(text.contains("resourceLogs"));
    assert!(text.contains("logRecords"));
    assert!(text.contains("hello from dataweave"));
    assert!(text.contains("log-everything"));
    assert!(text.contains("AUDIT"));
    assert!(text.contains("omni-gateway"));
    assert!(text.contains("flex-abc"));
}

#[test]
fn severity_maps_from_level() {
    let doc: Value = serde_json::from_slice(&to_otlp_body(&[sample("ERROR")], "s", "i")).unwrap();
    let rec = &doc["resourceLogs"][0]["scopeLogs"][0]["logRecords"][0];
    assert_eq!(rec["severityText"], "ERROR");
    assert_eq!(rec["severityNumber"], 17);

    let doc: Value = serde_json::from_slice(&to_otlp_body(&[sample("DEBUG")], "s", "i")).unwrap();
    let rec = &doc["resourceLogs"][0]["scopeLogs"][0]["logRecords"][0];
    assert_eq!(rec["severityText"], "DEBUG");
    assert_eq!(rec["severityNumber"], 5);
}

#[test]
fn drain_batch_respects_order_and_max() {
    let mut queue = LogQueue::new();
    let _ = drain_batch(&mut queue, usize::MAX);
    for i in 0..5 {
        let mut e = sample("INFO");
        e.body = format!("msg-{i}");
        enqueue(&mut queue, e);
    }
    assert_eq!(queue_len(&queue), 5);
    let batch = drain_batch(&mut queue, 3);
    assert_eq!(batch.len(), 3);
    assert_eq!(batch[0].body, "msg-0");
    assert_eq!(queue_len(&queue), 2);
    let _ = drain_batch(&mut queue, usize::MAX);
}

#[test]
fn severity_of_every_level() {
    assert_eq!(severity("DEBUG"), (5, "DEBUG"));
    assert_eq!(severity("info"), (9, "INFO"));
    assert_eq!(severity("Warn"), (13, "WARN"));
    assert_eq!(severity("warning"), (13, "WARN"));
    assert_eq!(severity("eRRor"), (17, "ERROR"));
    assert_eq!(severity(""), (9, "INFO"));
    assert_eq!(severity("fatal"), (9, "INFO"));
    assert_eq!(parse_level("debug"), Level::Debug);
    assert_eq!(parse_level("WARNING"), Level::Warn);
    assert_eq!(parse_level("error"), Level::Error);
    assert_eq!(parse_level("\u{e9}rror"), Level::Info);
}

#[test]
fn attributes_have_the_otlp_shape() {
    assert_eq!(
        str_attr("a\"b", "c"),
        parse(r#"{"key": "a\"b", "value": {"stringValue": "c"}}"#)
    );
    assert_eq!(
        int_attr("n", -3),
        parse(r#"{"key": "n", "value": {"intValue": -3}}"#)
    );
}

#[test]
fn record_of_a_full_entry() {
    let expected = parse(
        r#"{
            "timeUnixNano": "1700000000000000000",
            "observedTimeUnixNano": "1700000000000000000",
            "severityNumber": 13,
            "severityText": "WARN",
            "body": {"stringValue": "hello from dataweave"},
            "attributes": [
                {"key": "log.configuration_name", "value": {"stringValue": "log-everything"}},
                {"key": "log.phase", "value": {"stringValue": "response"}},
                {"key": "category", "value": {"stringValue": "AUDIT"}},
                {"key": "http.request.method", "value": {"stringValue": "GET"}},
                {"key": "url.path", "value": {"stringValue": "/orders/42"}},
                {"key": "http.response.status_code", "value": {"intValue": 200}}
            ]
        }"#,
    );
    assert_eq!(sample("warning").to_log_record(), expected);
}

#[test]
fn record_of_a_bare_entry_has_two_attributes() {
    let mut e = LogEntry::default();
    e.configuration_name = "bare".to_string();
    e.phase = "request".to_string();
    let expected = parse(
        r#"{
            "timeUnixNano": "0",
            "observedTimeUnixNano": "0",
            "severityNumber": 9,
            "severityText": "INFO",
            "body": {"stringValue": ""},
            "attributes": [
                {"key": "log.configuration_name", "value": {"stringValue": "bare"}},
                {"key": "log.phase", "value": {"stringValue": "request"}}
            ]
        }"#,
    );
    assert_eq!(e.to_log_record(), expected);
}

#[test]
fn body_is_the_compact_document() {
    assert_eq!(
        String::from_utf8(to_otlp_body(&[], "n", "i")).unwrap(),
        "{\"resourceLogs\":[{\"resource\":{\"attributes\":[\
         {\"key\":\"service.name\",\"value\":{\"stringValue\":\"n\"}},\
         {\"key\":\"service.instance.id\",\"value\":{\"stringValue\":\"i\"}}]},\
         \"scopeLogs\":[{\"logRecords\":[],\
         \"scope\":{\"name\":\"omni-log-forwarder\",\"version\":\"1.0.0\"}}]}]}"
    );
}

#[test]
fn document_carries_the_batch_in_order() {
    let batch: Vec<LogEntry> = (0..4).map(numbered).collect();
    let doc: Value = serde_json::from_slice(&to_otlp_body(&batch, "s", "i")).unwrap();
    let records = doc["resourceLogs"][0]["scopeLogs"][0]["logRecords"]
        .as_array()
        .unwrap()
        .clone();
    assert_eq!(records.len(), 4);
    for (i, record) in records.iter().enumerate() {
        assert_eq!(record["body"]["stringValue"], format!("msg-{i}"));
        assert_eq!(*record, batch[i].to_log_record());
    }
}

#[test]
fn a_document_that_cannot_be_written_has_an_empty_body() {
    let error = serde_json::from_str::<Value>("{").unwrap_err();
    assert!(body_or_empty(Err(error)).is_empty());
    assert_eq!(body_or_empty(Ok(vec![1, 2])), vec![1, 2]);
}

#[test]
fn full_queue_drops_the_oldest() {
    let mut queue = LogQueue::new();
    for i in 0..MAX_BUFFERED_RECORDS {
        assert!(!enqueue(&mut queue, numbered(i)));
    }
    assert_eq!(queue_len(&queue), 10_000);
    assert!(enqueue(&mut queue, numbered(10_000)));
    assert_eq!(queue_len(&queue), 10_000);
    let all = drain_batch(&mut queue, usize::MAX);
    assert_eq!(all[0].body, "msg-1");
    assert_eq!(all[9_999].body, "msg-10000");
}

#[test]
fn requeue_restores_what_was_drained() {
    let mut queue = LogQueue::new();
    for i in 0..5 {
        enqueue(&mut queue, numbered(i));
    }
    let batch = drain_batch(&mut queue, 3);
    enqueue(&mut queue, numbered(5));
    requeue_front(&mut queue, batch);
    assert_eq!(
        bodies(&drain_batch(&mut queue, 10)),
        ["msg-0", "msg-1", "msg-2", "msg-3", "msg-4", "msg-5"]
    );
    assert_eq!(queue_len(&queue), 0);
}

#[test]
fn requeue_on_a_full_queue_keeps_the_newest_of_the_batch() {
    let mut queue = LogQueue::new();
    for i in 0..MAX_BUFFERED_RECORDS {
        enqueue(&mut queue, numbered(i));
    }
    let batch = drain_batch(&mut queue, 3);
    enqueue(&mut queue, numbered(10_000));
    enqueue(&mut queue, numbered(10_001));
    requeue_front(&mut queue, batch);
    assert_eq!(queue_len(&queue), 10_000);
    let all = drain_batch(&mut queue, usize::MAX);
    assert_eq!(all[0].body, "msg-2");
    assert_eq!(all[1].body, "msg-3");
    assert_eq!(all[9_999].body, "msg-10001");
}

#[test]
fn batches_follow_each_other() {
    let mut queue = LogQueue::new();
    for i in 0..5 {
        enqueue(&mut queue, numbered(i));
    }
    assert!(drain_batch(&mut queue, 0).is_empty());
    assert_eq!(bodies(&drain_batch(&mut queue, 2)), ["msg-0", "msg-1"]);
    assert_eq!(bodies(&drain_batch(&mut queue, 2)), ["msg-2", "msg-3"]);
    assert_eq!(bodies(&drain_batch(&mut queue, 2)), ["msg-4"]);
    assert!(drain_batch(&mut queue, 2).is_empty());
}
