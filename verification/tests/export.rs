use omni_log_forwarder::config::{
    conditional_source, export_period_ms, normalize_millis, normalize_usize, service_name, Config,
};
use omni_log_forwarder::export::{
    Delivery, Export, ExportAction, ExportEvent, Exporter, Reply,
};
use omni_log_forwarder::otel::{to_otlp_body, LogEntry};
use omni_log_forwarder::queue::{drain_batch, enqueue, queue_len, LogQueue};
use pdk::hl::Service;

fn config(batch_max_size: Option<i64>) -> Config {
    Config {
        batch_max_size,
        export_timeout_ms: None,
        logging_configurations: Vec::new(),
        otlp_api_key: "the-key".to_string(),
        otlp_endpoint: Service::default(),
    }
}

fn exporter(batch_max_size: Option<i64>) -> Exporter {
    Exporter::new(
        &config(batch_max_size),
        "orders-api".to_string(),
        "flex-1".to_string(),
    )
}

fn entry(i: usize) -> LogEntry {
    LogEntry {
        body: format!("msg-{i}"),
        ..LogEntry::default()
    }
}

fn filled(n: usize) -> LogQueue {
    let mut queue = LogQueue::new();
    for i in 0..n {
        enqueue(&mut queue, entry(i));
    }
    queue
}

fn sent(action: ExportAction) -> Export {
    match action {
        ExportAction::Send(export) => export,
        ExportAction::Wait => panic!("expected an export"),
    }
}

fn bodies(queue: &mut LogQueue) -> Vec<String> {
    drain_batch(queue, usize::MAX)
        .into_iter()
        .map(|e| e.body)
        .collect()
}

#[test]
fn settings_are_normalized() {
    assert_eq!(normalize_usize(Some(7), 512), 7);
    assert_eq!(normalize_usize(Some(0), 512), 512);
    assert_eq!(normalize_usize(Some(-1), 512), 512);
    assert_eq!(normalize_usize(None, 512), 512);
    assert_eq!(
        normalize_usize(Some(i64::MAX), 512),
        usize::try_from(i64::MAX).unwrap_or(usize::MAX)
    );
    assert!(normalize_usize(Some(1 << 32), 512) >= u32::MAX as usize);
    assert_eq!(normalize_millis(Some(i64::MAX), 1), i64::MAX as u64);
    assert_eq!(normalize_millis(Some(0), 1000), 1000);
    assert_eq!(normalize_millis(Some(i64::MIN), 1000), 1000);
    assert_eq!(normalize_millis(None, 1000), 1000);
    assert_eq!(export_period_ms(&config(None)), 1000);
    assert_eq!(exporter(None).batch_max_size, 512);
    assert_eq!(exporter(Some(3)).batch_max_size, 3);
}

#[test]
fn conditional_left_empty_is_none() {
    assert_eq!(conditional_source(None), None);
    assert_eq!(conditional_source(Some(String::new())), None);
    assert_eq!(
        conditional_source(Some("#[true]".to_string())),
        Some("#[true]".to_string())
    );
}

#[test]
fn service_name_falls_back_to_the_policy() {
    assert_eq!(service_name(&Some("api".to_string()), "policy"), "api");
    assert_eq!(service_name(&None, "policy"), "policy");
}

#[test]
fn configurations_can_be_cloned() {
    let copy = config(Some(9)).clone();
    assert_eq!(copy.batch_max_size, Some(9));
    assert_eq!(copy.otlp_api_key, "the-key");
    assert!(copy.logging_configurations.is_empty());
}

#[test]
fn empty_queue_waits() {
    let mut queue = LogQueue::new();
    let (delivery, action) = exporter(None).step(&mut queue, ExportEvent::Tick);
    assert!(delivery.is_none());
    assert!(matches!(action, ExportAction::Wait));
}

#[test]
fn export_carries_the_batch() {
    let mut queue = filled(5);
    let (_, action) = exporter(Some(3)).step(&mut queue, ExportEvent::Tick);
    let export = sent(action);
    assert_eq!(export.path, "/v1/logs");
    assert_eq!(
        export.headers,
        vec![
            ("content-type".to_string(), "application/json".to_string()),
            ("api-key".to_string(), "the-key".to_string()),
        ]
    );
    assert_eq!(export.entries.len(), 3);
    assert_eq!(
        export.body,
        to_otlp_body(&[entry(0), entry(1), entry(2)], "orders-api", "flex-1")
    );
    assert_eq!(queue_len(&queue), 2);
}

#[test]
fn success_goes_on_until_the_queue_is_empty() {
    let mut queue = filled(5);
    let exporter = exporter(Some(2));
    let mut event = ExportEvent::Tick;
    let mut counts = Vec::new();
    loop {
        let (delivery, action) = exporter.step(&mut queue, event);
        if let Some(Delivery::Delivered { count, status }) = delivery {
            assert_eq!(status, 204);
            counts.push(count);
        }
        match action {
            ExportAction::Wait => break,
            ExportAction::Send(export) => {
                event = ExportEvent::Replied {
                    export,
                    reply: Reply::Status(204),
                }
            }
        }
    }
    assert_eq!(counts, [2, 2, 1]);
    assert_eq!(queue_len(&queue), 0);
}

fn failed_with(reply: Reply) -> (Option<Delivery>, Vec<String>) {
    let mut queue = filled(4);
    let exporter = exporter(Some(2));
    let (_, action) = exporter.step(&mut queue, ExportEvent::Tick);
    let export = sent(action);
    enqueue(&mut queue, entry(4));
    let (delivery, action) = exporter.step(&mut queue, ExportEvent::Replied { export, reply });
    assert!(matches!(action, ExportAction::Wait));
    (delivery, bodies(&mut queue))
}

#[test]
fn failure_puts_the_batch_back() {
    let all = ["msg-0", "msg-1", "msg-2", "msg-3", "msg-4"];
    let (delivery, left) = failed_with(Reply::Status(500));
    assert!(matches!(
        delivery,
        Some(Delivery::Rejected {
            count: 2,
            status: 500
        })
    ));
    assert_eq!(left, all);
    let (delivery, left) = failed_with(Reply::Unreachable);
    assert!(matches!(delivery, Some(Delivery::Unreachable { count: 2 })));
    assert_eq!(left, all);
}

#[test]
fn only_two_hundreds_deliver() {
    for (status, delivered) in [(199, false), (200, true), (299, true), (300, false), (0, false)] {
        let mut queue = filled(1);
        let exporter = exporter(None);
        let (_, action) = exporter.step(&mut queue, ExportEvent::Tick);
        let export = sent(action);
        let (delivery, _) = exporter.step(
            &mut queue,
            ExportEvent::Replied {
                export,
                reply: Reply::Status(status),
            },
        );
        assert_eq!(
            matches!(delivery, Some(Delivery::Delivered { .. })),
            delivered
        );
        assert_eq!(queue_len(&queue), if delivered { 0 } else { 1 });
    }
}

/// Runs an exporter with batches of three: entry `i` comes in before step `i`,
/// and each export gets the next of the replies.
fn delivered_in_a_run(entries: usize, replies: &[Reply]) -> Vec<String> {
    let mut queue = LogQueue::new();
    let exporter = exporter(Some(3));
    let mut replies = replies.iter();
    let mut delivered = Vec::new();
    let mut on_its_way: Option<Export> = None;
    for i in 0..entries {
        enqueue(&mut queue, entry(i));
        let (event, batch) = match on_its_way.take() {
            None => (ExportEvent::Tick, Vec::new()),
            Some(export) => {
                let batch = export.entries.iter().map(|e| e.body.clone()).collect();
                let reply = *replies.next().expect("a reply");
                (ExportEvent::Replied { export, reply }, batch)
            }
        };
        let (delivery, action) = exporter.step(&mut queue, event);
        if let Some(Delivery::Delivered { .. }) = delivery {
            delivered.extend(batch);
        }
        if let ExportAction::Send(export) = action {
            on_its_way = Some(export);
        }
    }
    let left = on_its_way.map(|e| e.entries).unwrap_or_default();
    delivered.extend(left.into_iter().map(|e| e.body));
    delivered.extend(bodies(&mut queue));
    delivered
}

#[test]
fn run_loses_repeats_and_reorders_nothing() {
    let all: Vec<String> = (0..9).map(|i| format!("msg-{i}")).collect();
    let replies = [
        Reply::Unreachable,
        Reply::Status(200),
        Reply::Status(503),
        Reply::Status(202),
        Reply::Status(200),
        Reply::Status(200),
        Reply::Status(200),
        Reply::Status(200),
    ];
    assert_eq!(delivered_in_a_run(9, &replies), all);
}

#[test]
fn run_at_the_bound_drops_the_oldest() {
    let mut queue = filled(10_000);
    let exporter = exporter(Some(2));
    let (_, action) = exporter.step(&mut queue, ExportEvent::Tick);
    let export = sent(action);
    for i in 10_000..10_003 {
        enqueue(&mut queue, entry(i));
    }
    assert_eq!(queue_len(&queue), 10_000);
    let reply = Reply::Unreachable;
    let (_, action) = exporter.step(&mut queue, ExportEvent::Replied { export, reply });
    assert!(matches!(action, ExportAction::Wait));
    let left = bodies(&mut queue);
    assert_eq!(left.len(), 10_000);
    assert_eq!(left[0], "msg-3");
    assert_eq!(left[9_999], "msg-10002");
}
