//! The exporter: which batch is sent next, and what a reply means for it.

use vstd::prelude::*;
use crate::attributes::{header_model, Header};
use crate::config::{normalize_usize, Config, DEFAULT_BATCH_MAX_SIZE};
use crate::json::json_bytes;
use crate::otel::{document, models, to_otlp_body, EntryModel, LogEntry};
use crate::queue::{
    behind, drain_batch, front, min, queue_len, requeue_front, requeued, LogQueue,
    MAX_BUFFERED_RECORDS,
};

verus! {

/// What every export of a policy has in common.
#[derive(Debug)]
pub struct Exporter {
    pub batch_max_size: usize,
    pub api_key: String,
    pub service_name: String,
    pub service_instance_id: String,
}

/// A batch on its way: the request that carries it, and its entries.
#[derive(Debug)]
pub struct Export {
    pub path: &'static str,
    pub headers: Vec<(String, String)>,
    pub body: Vec<u8>,
    pub entries: Vec<LogEntry>,
}

/// What the endpoint answered to an export.
#[derive(Clone, Copy, Debug)]
pub enum Reply {
    Status(u32),
    Unreachable,
}

/// What happens to the exporter.
#[derive(Debug)]
pub enum ExportEvent {
    /// The export period has elapsed.
    Tick,
    /// An export came to an end.
    Replied { export: Export, reply: Reply },
}

/// What the exporter does next.
#[derive(Debug)]
pub enum ExportAction {
    /// Wait for the next tick.
    Wait,
    /// Send an export.
    Send(Export),
}

/// What became of the batch that was sent last.
#[derive(Clone, Copy, Debug)]
pub enum Delivery {
    Delivered { count: usize, status: u32 },
    Rejected { count: usize, status: u32 },
    Unreachable { count: usize },
}

/// The size that a configuration gives to an export batch: no more than the
/// machine can count to, and 512 where none above zero is configured.
pub open spec fn batch_size(config: Config) -> nat {
    match config.batch_max_size {
        Some(v) if v > 0 => min(v as nat, usize::MAX as nat),
        _ => 512,
    }
}

/// Whether a status stands for success.
pub open spec fn success(status: u32) -> bool {
    200 <= status < 300
}

/// The headers of an export: its content type, and the ingest key on
/// `api-key`.
pub open spec fn export_headers(exporter: Exporter) -> Seq<Header> {
    seq![
        ("content-type"@, "application/json"@),
        ("api-key"@, exporter.api_key@),
    ]
}

/// Whether an export carries a batch.
pub open spec fn carries(export: Export, exporter: Exporter, batch: Seq<EntryModel>) -> bool {
    &&& export.path@ == "/v1/logs"@
    &&& header_model(export.headers@) == export_headers(exporter)
    &&& export.body@ == json_bytes(
        document(batch, exporter.service_name@, exporter.service_instance_id@),
    )
    &&& models(export.entries@) == batch
}

/// Whether the exporter goes on with a queue as it should: it takes the batch
/// at the front and sends it, or waits where there is none.
pub open spec fn goes_on(
    exporter: Exporter,
    before: Seq<EntryModel>,
    after: Seq<EntryModel>,
    action: ExportAction,
) -> bool {
    let batch = front(before, exporter.batch_max_size as nat);
    &&& after == behind(before, exporter.batch_max_size as nat)
    &&& match action {
        ExportAction::Wait => batch.len() == 0,
        ExportAction::Send(export) => batch.len() > 0 && carries(export, exporter, batch),
    }
}

/// What a reply makes of a batch of `count` entries.
pub open spec fn delivery_of(count: nat, reply: Reply) -> Delivery {
    match reply {
        Reply::Status(status) => if success(status) {
            Delivery::Delivered { count: count as usize, status }
        } else {
            Delivery::Rejected { count: count as usize, status }
        },
        Reply::Unreachable => Delivery::Unreachable { count: count as usize },
    }
}

/// Whether a step of the exporter, on this event, leads from one queue to
/// another and to this result. On a tick, and after a batch got through, it
/// goes on with the queue; a batch that did not get through is put back.
pub open spec fn stepped(
    exporter: Exporter,
    before: Seq<EntryModel>,
    event: ExportEvent,
    after: Seq<EntryModel>,
    result: (Option<Delivery>, ExportAction),
) -> bool {
    match event {
        ExportEvent::Tick => {
            &&& result.0 is None
            &&& goes_on(exporter, before, after, result.1)
        },
        ExportEvent::Replied { export, reply } => {
            let delivery = delivery_of(export.entries@.len(), reply);
            &&& result.0 == Some(delivery)
            &&& if delivery is Delivered {
                goes_on(exporter, before, after, result.1)
            } else {
                &&& after == requeued(before, models(export.entries@))
                &&& result.1 is Wait
            }
        },
    }
}

impl Exporter {
    /// The exporter of a configuration, for a service and its instance.
    pub fn new(config: &Config, service_name: String, service_instance_id: String) -> (r: Self)
        ensures
            r.batch_max_size == batch_size(*config),
            r.api_key@ == config.otlp_api_key@,
            r.service_name@ == service_name@,
            r.service_instance_id@ == service_instance_id@,
    {
        Exporter {
            batch_max_size: normalize_usize(config.batch_max_size, DEFAULT_BATCH_MAX_SIZE),
            api_key: config.otlp_api_key.clone(),
            service_name,
            service_instance_id,
        }
    }

    /// Takes the batch at the front of the queue, if there is one, and makes
    /// the export that carries it.
    fn next_export(&self, queue: &mut LogQueue) -> (r: ExportAction)
        ensures
            goes_on(*self, old(queue)@, final(queue)@, r),
            old(queue)@.len() <= MAX_BUFFERED_RECORDS,
    {
        let ghost before = queue@;
        if queue_len(queue) == 0 {
            proof {
                assert(behind(before, self.batch_max_size as nat) =~= before);
            }
            return ExportAction::Wait;
        }
        let entries = drain_batch(queue, self.batch_max_size);
        if entries.is_empty() {
            return ExportAction::Wait;
        }
        let body = to_otlp_body(
            entries.as_slice(),
            self.service_name.as_str(),
            self.service_instance_id.as_str(),
        );
        let headers: Vec<(String, String)> = vec![
            ("content-type".to_owned(), "application/json".to_owned()),
            ("api-key".to_owned(), self.api_key.clone()),
        ];
        proof {
            assert(header_model(headers@) =~= export_headers(*self));
        }
        ExportAction::Send(Export { path: "/v1/logs", headers, body, entries })
    }

    /// Settles an export: a batch that did not get through is put back at the
    /// front of the queue.
    fn settle(queue: &mut LogQueue, export: Export, reply: Reply) -> (r: Delivery)
        ensures
            r == delivery_of(export.entries@.len(), reply),
            r is Delivered ==> final(queue)@ == old(queue)@,
            !(r is Delivered) ==> final(queue)@ == requeued(
                old(queue)@,
                models(export.entries@),
            ) && old(queue)@.len() <= MAX_BUFFERED_RECORDS,
    {
        let count = export.entries.len();
        match reply {
            Reply::Status(status) => if 200 <= status && status < 300 {
                Delivery::Delivered { count, status }
            } else {
                requeue_front(queue, export.entries);
                Delivery::Rejected { count, status }
            },
            Reply::Unreachable => {
                requeue_front(queue, export.entries);
                Delivery::Unreachable { count }
            },
        }
    }

    /// One step of the exporter. On a tick, and after a batch got through, it
    /// goes on with the batch at the front of the queue; a batch that did not
    /// get through is put back, and the next tick is waited for.
    pub fn step(&self, queue: &mut LogQueue, event: ExportEvent) -> (r: (
        Option<Delivery>,
        ExportAction,
    ))
        ensures
            old(queue)@.len() <= MAX_BUFFERED_RECORDS,
            final(queue)@.len() <= MAX_BUFFERED_RECORDS,
            stepped(*self, old(queue)@, event, final(queue)@, r),
    {
        match event {
            ExportEvent::Tick => (None, self.next_export(queue)),
            ExportEvent::Replied { export, reply } => {
                let delivery = Self::settle(queue, export, reply);
                match delivery {
                    Delivery::Delivered { .. } => (Some(delivery), self.next_export(queue)),
                    _ => (Some(delivery), ExportAction::Wait),
                }
            },
        }
    }
}

} // verus!
