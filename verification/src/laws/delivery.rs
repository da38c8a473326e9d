//! What becomes of entries on their way out, place by place: the queue, its
//! batches, and the exports that carry them.

use vstd::prelude::*;
use crate::attributes::header_model;
use crate::config::{period_ms, Config};
use crate::export::{
    batch_size, carries, delivery_of, export_headers, goes_on, stepped, Delivery, Export,
    ExportAction, ExportEvent, Exporter, Reply,
};
use crate::json::json_bytes;
use crate::otel::{document, models, EntryModel};
use crate::queue::{behind, enqueued, front, requeued};

verus! {

/// The lesser of two numbers of entries.
pub open spec fn lesser(a: int, b: int) -> int {
    if a <= b {
        a
    } else {
        b
    }
}

// ---- the queue ----

/// An entry that comes in is the last of the queue. What waited before keeps
/// its order in front of it; only where 10,000 entries waited, the oldest is
/// gone.
pub proof fn law_entry_comes_last(queue: Seq<EntryModel>, entry: EntryModel)
    requires
        queue.len() <= 10_000,
    ensures
        ({
            let after = enqueued(queue, entry);
            let gone: int = if queue.len() == 10_000 {
                1
            } else {
                0
            };
            &&& after.len() == queue.len() + 1 - gone
            &&& after[after.len() - 1] == entry
            &&& forall|i: int| 0 <= i < after.len() - 1 ==> #[trigger] after[i] == queue[i + gone]
        }),
{
}

/// A batch is as large as it may be and as the queue allows. It holds the
/// oldest entries, and the others wait on, both in order.
pub proof fn law_batch_is_the_oldest(queue: Seq<EntryModel>, max: nat)
    ensures
        ({
            let n = lesser(max as int, queue.len() as int);
            &&& front(queue, max).len() == n
            &&& forall|i: int| 0 <= i < n ==> #[trigger] front(queue, max)[i] == queue[i]
            &&& behind(queue, max).len() == queue.len() - n
            &&& forall|i: int|
                0 <= i < queue.len() - n ==> #[trigger] behind(queue, max)[i] == queue[i + n]
        }),
{
}

/// A batch that is put back stands in order before what waits, which stays as
/// it is. All of it comes back where there is room within 10,000 entries; else
/// its newest entries do, as many as there is room for.
pub proof fn law_batch_comes_back_in_front(queue: Seq<EntryModel>, batch: Seq<EntryModel>)
    requires
        queue.len() <= 10_000,
    ensures
        ({
            let after = requeued(queue, batch);
            let back = lesser(batch.len() as int, 10_000 - queue.len());
            &&& after.len() == back + queue.len()
            &&& forall|i: int|
                0 <= i < back ==> #[trigger] after[i] == batch[batch.len() - back + i]
            &&& forall|i: int|
                back <= i < after.len() ==> #[trigger] after[i] == queue[i - back]
        }),
{
}

// ---- exports ----

/// An export says who sends it and carries what it should: it goes to
/// `/v1/logs` as JSON with the ingest key on `api-key`, those two headers and
/// no other, and its body is the document of its entries.
pub proof fn law_export_is_complete(
    exporter: Exporter,
    export: Export,
    batch: Seq<EntryModel>,
)
    requires
        carries(export, exporter, batch),
    ensures
        export.path@ == "/v1/logs"@,
        export.headers@.len() == 2,
        export.headers@[0].0@ == "content-type"@,
        export.headers@[0].1@ == "application/json"@,
        export.headers@[1].0@ == "api-key"@,
        export.headers@[1].1@ == exporter.api_key@,
        export.body@ == json_bytes(
            document(
                models(export.entries@),
                exporter.service_name@,
                exporter.service_instance_id@,
            ),
        ),
        export.entries@.len() == batch.len(),
        forall|i: int| 0 <= i < batch.len() ==> (#[trigger] export.entries@[i])@ == batch[i],
{
    let headers = header_model(export.headers@);
    assert(headers == export_headers(exporter));
    assert(headers.len() == export.headers@.len());
    assert(headers[0] == (export.headers@[0].0@, export.headers@[0].1@));
    assert(headers[1] == (export.headers@[1].0@, export.headers@[1].1@));
    assert forall|i: int| 0 <= i < batch.len() implies (#[trigger] export.entries@[i])@
        == batch[i] by {
        assert(models(export.entries@)[i] == export.entries@[i]@);
    }
}

/// Going on, the exporter sends the oldest entries, as many as a batch may
/// hold, and leaves the others waiting in order. It waits exactly where there
/// is nothing to send, and then leaves the queue alone.
pub proof fn law_exporter_sends_the_oldest(
    exporter: Exporter,
    before: Seq<EntryModel>,
    after: Seq<EntryModel>,
    action: ExportAction,
)
    requires
        goes_on(exporter, before, after, action),
    ensures
        ({
            let n = lesser(exporter.batch_max_size as int, before.len() as int);
            &&& action is Wait <==> n == 0
            &&& after.len() == before.len() - n
            &&& forall|i: int| 0 <= i < after.len() ==> #[trigger] after[i] == before[i + n]
            &&& action matches ExportAction::Send(export) ==> {
                &&& export.entries@.len() == n
                &&& forall|i: int|
                    0 <= i < n ==> (#[trigger] export.entries@[i])@ == before[i]
                &&& export.path@ == "/v1/logs"@
                &&& export.headers@.len() == 2
                &&& export.headers@[0].0@ == "content-type"@
                &&& export.headers@[0].1@ == "application/json"@
                &&& export.headers@[1].0@ == "api-key"@
                &&& export.headers@[1].1@ == exporter.api_key@
                &&& export.body@ == json_bytes(
                    document(
                        models(export.entries@),
                        exporter.service_name@,
                        exporter.service_instance_id@,
                    ),
                )
            }
        }),
{
    let batch = front(before, exporter.batch_max_size as nat);
    law_batch_is_the_oldest(before, exporter.batch_max_size as nat);
    if let ExportAction::Send(export) = action {
        law_export_is_complete(exporter, export, batch);
        assert forall|i: int| 0 <= i < batch.len() implies (#[trigger] export.entries@[i])@
            == before[i] by {
            assert(batch[i] == before[i]);
        }
    }
}

/// A reply says what became of a batch, with its count: delivered on a status
/// from 200 to 299, rejected on any other, unreachable where there was none.
pub proof fn law_reply_tells_the_delivery(count: nat, reply: Reply)
    requires
        count <= usize::MAX,
    ensures
        reply matches Reply::Status(status) ==> if status < 200 || status > 299 {
            delivery_of(count, reply) == (Delivery::Rejected { count: count as usize, status })
        } else {
            delivery_of(count, reply) == (Delivery::Delivered { count: count as usize, status })
        },
        reply is Unreachable ==> delivery_of(count, reply) == (Delivery::Unreachable {
            count: count as usize,
        }),
{
}

/// What a step comes to, event by event. On a tick the exporter goes on. On a
/// reply from 200 to 299 the batch is done with and the exporter goes on. On
/// any other, the batch comes back in front of the queue and the exporter
/// waits. The batch that was sent is told of in the result, with its count.
pub proof fn law_step_by_event(
    exporter: Exporter,
    before: Seq<EntryModel>,
    event: ExportEvent,
    after: Seq<EntryModel>,
    result: (Option<Delivery>, ExportAction),
)
    requires
        before.len() <= 10_000,
        stepped(exporter, before, event, after, result),
    ensures
        event is Tick ==> result.0 is None && goes_on(exporter, before, after, result.1),
        event matches ExportEvent::Replied { export, reply } ==> {
            let count = export.entries@.len() as usize;
            let back = lesser(export.entries@.len() as int, 10_000 - before.len());
            match reply {
                Reply::Status(status) if 200 <= status <= 299 => {
                    &&& result.0 == Some(Delivery::Delivered { count, status })
                    &&& goes_on(exporter, before, after, result.1)
                },
                _ => {
                    &&& result.0 == Some(
                        match reply {
                            Reply::Status(status) => Delivery::Rejected { count, status },
                            Reply::Unreachable => Delivery::Unreachable { count },
                        },
                    )
                    &&& result.1 is Wait
                    &&& after.len() == back + before.len()
                    &&& forall|i: int|
                        0 <= i < back ==> #[trigger] after[i] == export.entries@[
                            export.entries@.len() - back + i
                        ]@
                    &&& forall|i: int|
                        back <= i < after.len() ==> #[trigger] after[i] == before[i - back]
                },
            }
        },
{
    if let ExportEvent::Replied { export, reply } = event {
        let batch = models(export.entries@);
        assert(batch.len() == export.entries@.len());
        law_batch_comes_back_in_front(before, batch);
        let back = lesser(batch.len() as int, 10_000 - before.len());
        if !(delivery_of(export.entries@.len(), reply) is Delivered) {
            assert forall|i: int| 0 <= i < back implies #[trigger] after[i] == export.entries@[
                export.entries@.len() - back + i
            ]@ by {
                assert(batch[batch.len() - back + i] == export.entries@[
                    export.entries@.len() - back + i
                ]@);
            }
        }
    }
}

/// The settings of an export: a positive batch size or period stands as it is
/// configured (a size as far as the machine can count), and everything else
/// stands for 512 entries and 1000 milliseconds.
pub proof fn law_export_settings(config: Config)
    ensures
        match config.batch_max_size {
            Some(v) if v > 0 => batch_size(config) == lesser(v as int, usize::MAX as int),
            _ => batch_size(config) == 512,
        },
        match config.export_timeout_ms {
            Some(v) if v > 0 => period_ms(config) == v,
            _ => period_ms(config) == 1000,
        },
{
}

} // verus!
