//! What holds of the library as a whole, across its functions.

pub mod delivery;
pub mod records;
pub mod transactions;

use pdk::authentication::AuthenticationData;
use pdk::script::{Evaluator, Script};
use vstd::prelude::*;
use crate::attributes::{
    header_model, header_value, kept, pseudo, snapshot, visible, visible_map, Header,
    OwnedAttributes,
};
use crate::config::{Config, LoggingConfigurations0Config};
use crate::export::{
    batch_size, carries, delivery_of, goes_on, stepped, Delivery, Export, ExportAction, ExportEvent,
    Exporter, Reply,
};
use crate::json::{collected, object, Json};
use crate::otel::{
    attribute, document, integer_value, level_of, models, record, record_attributes, record_members,
    records, resource, resource_logs, scope, scope_logs, service_attributes, severity_number,
    severity_text, string_value, EntryModel,
};
use crate::policy::{
    active_in, admitted, config_need, emission, emissions, entry_for, line, outcome, phase_need, trace,
    Bindings, EmissionModel, Moment,
};
use crate::queue::{behind, enqueued, front, min, requeued, room_for, MAX_BUFFERED_RECORDS};
use crate::script::{
    cheap_inputs_bound, evaluation, evaluator_ready, evaluator_value, payload_bound, payload_need,
    rendered, ScriptValue,
};
use crate::text::{decimal, lower, upper};

verus! {

// ---- the queue ----

/// No operation takes the queue over its bound.
pub proof fn law_queue_stays_bounded(
    queue: Seq<EntryModel>,
    entry: EntryModel,
    batch: Seq<EntryModel>,
    max: nat,
)
    requires
        queue.len() <= MAX_BUFFERED_RECORDS,
    ensures
        enqueued(queue, entry).len() <= MAX_BUFFERED_RECORDS,
        behind(queue, max).len() <= MAX_BUFFERED_RECORDS,
        requeued(queue, batch).len() <= MAX_BUFFERED_RECORDS,
{
}

/// Enqueuing keeps the newest entries, in order: the queue ends as the last
/// entries of what it held and the new one, as many as there is room for.
pub proof fn law_enqueue_drops_only_the_oldest(queue: Seq<EntryModel>, entry: EntryModel)
    requires
        queue.len() <= MAX_BUFFERED_RECORDS,
    ensures
        ({
            let all = queue.push(entry);
            enqueued(queue, entry) == all.skip(
                all.len() - min(MAX_BUFFERED_RECORDS as nat, all.len()),
            )
        }),
        enqueued(queue, entry).last() == entry,
{
    let all = queue.push(entry);
    assert(enqueued(queue, entry) =~= all.skip(
        all.len() - min(MAX_BUFFERED_RECORDS as nat, all.len()),
    ));
}

/// Draining neither loses nor reorders: the batch and what stays behind make
/// up the queue.
pub proof fn law_drain_splits_the_queue(queue: Seq<EntryModel>, max: nat)
    ensures
        front(queue, max) + behind(queue, max) == queue,
        front(queue, max).len() <= max,
{
    assert(front(queue, max) + behind(queue, max) =~= queue);
}

/// Two batches, one after the other, are one larger batch.
pub proof fn law_batches_follow_each_other(queue: Seq<EntryModel>, first: nat, second: nat)
    ensures
        front(queue, first) + front(behind(queue, first), second) == front(queue, first + second),
        behind(behind(queue, first), second) == behind(queue, first + second),
{
    assert(front(queue, first) + front(behind(queue, first), second) =~= front(
        queue,
        first + second,
    ));
    assert(behind(behind(queue, first), second) =~= behind(queue, first + second));
}

/// A batch that is put back restores the queue it was taken from.
pub proof fn law_requeue_undoes_drain(queue: Seq<EntryModel>, max: nat)
    requires
        queue.len() <= MAX_BUFFERED_RECORDS,
    ensures
        requeued(behind(queue, max), front(queue, max)) == queue,
{
    assert(requeued(behind(queue, max), front(queue, max)) =~= queue);
}

/// Entries that come in while a batch is on its way keep their place behind
/// it when the batch is put back, as long as there is room for all.
pub proof fn law_requeue_keeps_order(queue: Seq<EntryModel>, max: nat, added: Seq<EntryModel>)
    requires
        queue.len() + added.len() <= MAX_BUFFERED_RECORDS,
    ensures
        requeued(behind(queue, max) + added, front(queue, max)) == queue + added,
{
    assert(requeued(behind(queue, max) + added, front(queue, max)) =~= queue + added);
}

/// Putting a batch back keeps everything that waits, and of the batch and the
/// queue together the newest entries, as many as there is room for.
pub proof fn law_requeue_drops_only_the_oldest(queue: Seq<EntryModel>, batch: Seq<EntryModel>)
    requires
        queue.len() <= MAX_BUFFERED_RECORDS,
    ensures
        ({
            let all = batch + queue;
            requeued(queue, batch) == all.skip(
                all.len() - min(MAX_BUFFERED_RECORDS as nat, all.len()),
            )
        }),
        requeued(queue, batch).skip(requeued(queue, batch).len() - queue.len()) == queue,
{
    let all = batch + queue;
    assert(requeued(queue, batch) =~= all.skip(
        all.len() - min(MAX_BUFFERED_RECORDS as nat, all.len()),
    ));
    assert(requeued(queue, batch).skip(requeued(queue, batch).len() - queue.len()) =~= queue);
}

// ---- the exporter ----

/// An export that does not get through costs nothing: with the queue left
/// alone meanwhile, it ends as it was before.
pub proof fn law_failed_export_restores_the_queue(
    exporter: Exporter,
    before: Seq<EntryModel>,
    during: Seq<EntryModel>,
    action: ExportAction,
)
    requires
        before.len() <= MAX_BUFFERED_RECORDS,
        goes_on(exporter, before, during, action),
    ensures
        action matches ExportAction::Send(export) ==> requeued(during, models(export.entries@))
            == before,
        action is Wait ==> during == before,
{
    law_requeue_undoes_drain(before, exporter.batch_max_size as nat);
    law_drain_splits_the_queue(before, exporter.batch_max_size as nat);
    if action is Wait {
        assert(during =~= before);
    }
}

/// A batch that was put back is the first to be sent again, whatever came in
/// meanwhile, as long as there is room for all.
pub proof fn law_failed_batch_goes_first(
    queue: Seq<EntryModel>,
    max: nat,
    added: Seq<EntryModel>,
)
    requires
        queue.len() + added.len() <= MAX_BUFFERED_RECORDS,
    ensures
        ({
            let batch = front(queue, max);
            let again = requeued(behind(queue, max) + added, batch);
            front(again, max).take(batch.len() as int) == batch
        }),
{
    law_requeue_keeps_order(queue, max, added);
    let batch = front(queue, max);
    assert(front(queue + added, max).take(batch.len() as int) =~= batch);
}

/// An export that gets through leaves exactly its own entries behind: what it
/// carried and what waits make up the queue it was taken from.
pub proof fn law_delivered_export_takes_only_its_batch(
    exporter: Exporter,
    before: Seq<EntryModel>,
    after: Seq<EntryModel>,
    action: ExportAction,
)
    requires
        goes_on(exporter, before, after, action),
    ensures
        action matches ExportAction::Send(export) ==> models(export.entries@) + after == before
            && 0 < export.entries@.len() <= exporter.batch_max_size,
{
    law_drain_splits_the_queue(before, exporter.batch_max_size as nat);
    if let ExportAction::Send(export) = action {
        assert(models(export.entries@).len() == export.entries@.len());
    }
}

/// With a batch size above zero the exporter always makes progress: it waits
/// only where the queue is empty, and each export shortens the queue.
pub proof fn law_exporter_makes_progress(
    exporter: Exporter,
    before: Seq<EntryModel>,
    after: Seq<EntryModel>,
    action: ExportAction,
)
    requires
        exporter.batch_max_size > 0,
        goes_on(exporter, before, after, action),
    ensures
        action is Wait <==> before.len() == 0,
        action is Send ==> after.len() < before.len(),
{
}

/// A batch counts as delivered on a status from 200 to 299, and on nothing
/// else.
pub proof fn law_only_success_delivers(count: nat, reply: Reply)
    ensures
        delivery_of(count, reply) is Delivered <==> (reply matches Reply::Status(status) && 200
            <= status <= 299),
{
}

/// A batch size is never zero, and always one that the machine can count to.
pub proof fn law_batch_size_is_positive(config: Config)
    ensures
        0 < batch_size(config) <= usize::MAX,
        config.batch_max_size matches Some(v) ==> (0 < v <= usize::MAX ==> batch_size(config)
            == v),
        config.batch_max_size matches Some(v) ==> (v > 0 ==> batch_size(config) <= v),
        config.batch_max_size is None ==> batch_size(config) == 512,
{
}

/// Every export posts the ingest key of its configuration on the `api-key`
/// header, and a JSON body to `/v1/logs`.
pub proof fn law_ingest_key_rides_on_api_key(
    config: Config,
    exporter: Exporter,
    export: Export,
    batch: Seq<EntryModel>,
)
    requires
        exporter.api_key@ == config.otlp_api_key@,
        carries(export, exporter, batch),
    ensures
        export.path@ == "/v1/logs"@,
        header_value(header_model(export.headers@), "api-key"@) == Some(config.otlp_api_key@),
        header_value(header_model(export.headers@), "content-type"@) == Some("application/json"@),
{
    reveal_strlit("api-key");
    reveal_strlit("content-type");
    let headers = header_model(export.headers@);
    assert(lower("api-key"@).len() != lower("content-type"@).len());
    assert(headers.drop_first()[0] == ("api-key"@, config.otlp_api_key@));
    reveal_with_fuel(header_value, 3);
}

/// A queue after a number of batches were taken from it.
pub open spec fn after_batches(queue: Seq<EntryModel>, max: nat, n: nat) -> Seq<EntryModel>
    decreases n,
{
    if n == 0 {
        queue
    } else {
        behind(after_batches(queue, max, (n - 1) as nat), max)
    }
}

proof fn lemma_after_batches(queue: Seq<EntryModel>, max: nat, n: nat)
    ensures
        after_batches(queue, max, n) == behind(queue, n * max),
    decreases n,
{
    if n == 0 {
        assert(behind(queue, 0) =~= queue);
        assert(n * max == 0) by (nonlinear_arith)
            requires
                n == 0,
        ;
    } else {
        let before = (n - 1) as nat;
        lemma_after_batches(queue, max, before);
        law_batches_follow_each_other(queue, before * max, max);
        assert(before * max + max == n * max) by (nonlinear_arith)
            requires
                before == n - 1,
        ;
    }
}

/// Every entry that waits is exported, while the endpoint accepts: each stands
/// in one of the batches that are taken one after the other, at its place.
pub proof fn law_every_entry_is_exported(queue: Seq<EntryModel>, max: nat, i: nat)
    requires
        max > 0,
        i < queue.len(),
    ensures
        ({
            let batch = front(after_batches(queue, max, i / max), max);
            i % max < batch.len() && batch[(i % max) as int] == queue[i as int]
        }),
{
    let n = i / max;
    lemma_after_batches(queue, max, n);
    assert(i == n * max + i % max && i % max < max) by (nonlinear_arith)
        requires
            max > 0,
            n == i / max,
    ;
}

// ---- a run of the exporter ----

/// The exporter in the middle of a run: what waits, the export on its way if
/// there is one, all that came in so far, and all that was delivered so far.
pub struct RunState {
    pub queue: Seq<EntryModel>,
    pub in_flight: Option<Export>,
    pub arrived: Seq<EntryModel>,
    pub delivered: Seq<EntryModel>,
}

/// What happens in a run: an entry comes in, or the exporter takes a step and
/// comes to a result.
pub enum RunEvent {
    Arrival(EntryModel),
    Step(ExportEvent, (Option<Delivery>, ExportAction)),
}

impl RunState {
    /// The entries of the export on its way.
    pub open spec fn on_its_way(self) -> Seq<EntryModel> {
        match self.in_flight {
            Some(export) => models(export.entries@),
            None => Seq::empty(),
        }
    }

    /// Every entry that is delivered, on its way or waiting, in this order.
    pub open spec fn held(self) -> Seq<EntryModel> {
        self.delivered + self.on_its_way() + self.queue
    }

    /// The number of entries that came in and are no longer there.
    pub open spec fn lost(self) -> int {
        self.arrived.len() - self.held().len()
    }
}

/// Whether a run can go from one state to another on this event. Entries may
/// come in at any time. A tick comes only while no export is on its way, and
/// a reply is to the export that is; a reply of success delivers its entries.
pub open spec fn advances(
    exporter: Exporter,
    before: RunState,
    event: RunEvent,
    after: RunState,
) -> bool {
    match event {
        RunEvent::Arrival(entry) => {
            &&& after.queue == enqueued(before.queue, entry)
            &&& after.arrived == before.arrived.push(entry)
            &&& after.in_flight == before.in_flight
            &&& after.delivered == before.delivered
        },
        RunEvent::Step(step, result) => {
            &&& before.in_flight == (match step {
                ExportEvent::Tick => None,
                ExportEvent::Replied { export, .. } => Some(export),
            })
            &&& stepped(exporter, before.queue, step, after.queue, result)
            &&& after.in_flight == (match result.1 {
                ExportAction::Wait => None,
                ExportAction::Send(export) => Some(export),
            })
            &&& after.arrived == before.arrived
            &&& after.delivered == (if result.0 matches Some(Delivery::Delivered { .. }) {
                before.delivered + before.on_its_way()
            } else {
                before.delivered
            })
        },
    }
}

/// Whether a run goes through these states on these events.
pub open spec fn run(exporter: Exporter, states: Seq<RunState>, events: Seq<RunEvent>) -> bool {
    &&& states.len() == events.len() + 1
    &&& forall|i: int|
        0 <= i < events.len() ==> advances(
            exporter,
            states[i],
            #[trigger] events[i],
            states[i + 1],
        )
}

/// Whether `places` says where the entries of `part` stand in `whole`, one
/// behind the other.
pub open spec fn stand_at(
    part: Seq<EntryModel>,
    whole: Seq<EntryModel>,
    places: Seq<int>,
) -> bool {
    &&& places.len() == part.len()
    &&& forall|i: int|
        0 <= i < part.len() ==> 0 <= #[trigger] places[i] < whole.len() && part[i]
            == whole[places[i]]
    &&& forall|i: int, j: int| 0 <= i < j < places.len() ==> places[i] < places[j]
}

/// Whether `part` is `whole` with some entries left out: nothing is repeated,
/// reordered or made up.
pub open spec fn left_of(part: Seq<EntryModel>, whole: Seq<EntryModel>) -> bool {
    exists|places: Seq<int>| stand_at(part, whole, places)
}

proof fn lemma_leave_out(part: Seq<EntryModel>, whole: Seq<EntryModel>, a: int, b: int)
    requires
        left_of(part, whole),
        0 <= a <= b <= part.len(),
    ensures
        left_of(part.take(a) + part.skip(b), whole),
{
    let places = choose|places: Seq<int>| stand_at(part, whole, places);
    let fewer = places.take(a) + places.skip(b);
    assert(stand_at(part.take(a) + part.skip(b), whole, fewer));
}

proof fn lemma_add(part: Seq<EntryModel>, whole: Seq<EntryModel>, entry: EntryModel)
    requires
        left_of(part, whole),
    ensures
        left_of(part.push(entry), whole.push(entry)),
{
    let places = choose|places: Seq<int>| stand_at(part, whole, places);
    assert(stand_at(part.push(entry), whole.push(entry), places.push(whole.len() as int)));
}

/// What a step does to the entries that a run holds: where the exporter takes
/// or delivers a batch they stay the same, and where a batch is put back its
/// oldest entries may be left out.
proof fn lemma_step_keeps(exporter: Exporter, before: RunState, event: RunEvent, after: RunState)
    requires
        advances(exporter, before, event, after),
        event is Step,
        before.queue.len() <= MAX_BUFFERED_RECORDS,
    ensures
        ({
            let a = before.delivered.len() as int;
            let b = a + before.on_its_way().len() - after.queue.len() + before.queue.len();
            after.held() == before.held() || (a < b <= before.held().len() && after.held()
                == before.held().take(a) + before.held().skip(b) && after.queue.len()
                == MAX_BUFFERED_RECORDS)
        }),
        after.queue.len() <= MAX_BUFFERED_RECORDS,
        before.queue.len() + before.on_its_way().len() <= MAX_BUFFERED_RECORDS ==> after.held()
            == before.held() && after.queue.len() + after.on_its_way().len()
            <= MAX_BUFFERED_RECORDS,
{
    let result = event->Step_1;
    if result.0 is None || result.0->0 is Delivered {
        law_drain_splits_the_queue(before.queue, exporter.batch_max_size as nat);
        if result.1 is Wait {
            assert(after.queue =~= before.queue);
        }
        assert(after.on_its_way() + after.queue =~= before.queue);
        assert(after.held() =~= before.held());
    } else {
        let batch = before.on_its_way();
        let dropped = batch.len() - room_for(before.queue, batch);
        let a = before.delivered.len() as int;
        assert(after.queue == batch.skip(dropped) + before.queue);
        assert(after.held() =~= before.held().take(a) + before.held().skip(a + dropped));
        if dropped == 0 {
            assert(after.held() =~= before.held());
        }
    }
}

/// What an arrival does to the entries that a run holds: it comes behind them
/// all, and where the queue was full its oldest entry is left out.
proof fn lemma_arrival_adds(before: RunState, entry: EntryModel, after: RunState)
    requires
        after.queue == enqueued(before.queue, entry),
        after.in_flight == before.in_flight,
        after.delivered == before.delivered,
        before.queue.len() <= MAX_BUFFERED_RECORDS,
    ensures
        ({
            let a = (before.delivered.len() + before.on_its_way().len()) as int;
            if before.queue.len() < MAX_BUFFERED_RECORDS {
                after.held() == before.held().push(entry)
            } else {
                after.held() == (before.held().take(a) + before.held().skip(a + 1)).push(
                    entry,
                ) && after.queue.len() == MAX_BUFFERED_RECORDS
            }
        }),
        after.queue.len() <= MAX_BUFFERED_RECORDS,
{
    let a = (before.delivered.len() + before.on_its_way().len()) as int;
    if before.queue.len() < MAX_BUFFERED_RECORDS {
        assert(after.held() =~= before.held().push(entry));
    } else {
        assert(after.held() =~= (before.held().take(a) + before.held().skip(a + 1)).push(
            entry,
        ));
    }
}

/// As long as there is room for what comes in, a run loses nothing, delivers
/// nothing twice and keeps the order: at any time what was delivered, what is
/// on its way and what waits, one behind the other, are the entries that came
/// in.
pub proof fn law_run_loses_nothing_while_there_is_room(
    exporter: Exporter,
    states: Seq<RunState>,
    events: Seq<RunEvent>,
    n: int,
)
    requires
        run(exporter, states, events),
        states[0].held() == states[0].arrived,
        states[0].queue.len() + states[0].on_its_way().len() <= MAX_BUFFERED_RECORDS,
        forall|i: int|
            0 <= i < events.len() && (#[trigger] events[i]) is Arrival ==> states[i].queue.len()
                + states[i].on_its_way().len() < MAX_BUFFERED_RECORDS,
        0 <= n < states.len(),
    ensures
        states[n].delivered + states[n].on_its_way() + states[n].queue == states[n].arrived,
        states[n].queue.len() + states[n].on_its_way().len() <= MAX_BUFFERED_RECORDS,
    decreases n,
{
    if n > 0 {
        law_run_loses_nothing_while_there_is_room(exporter, states, events, n - 1);
        let before = states[n - 1];
        let after = states[n];
        assert(advances(exporter, before, events[n - 1], after));
        match events[n - 1] {
            RunEvent::Arrival(entry) => {
                lemma_arrival_adds(before, entry, after);
            },
            RunEvent::Step(_, _) => {
                lemma_step_keeps(exporter, before, events[n - 1], after);
            },
        }
    }
}

/// Whatever comes in, and however many exports fail, a run delivers nothing
/// twice, makes nothing up and keeps the order: what was delivered, what is on
/// its way and what waits, one behind the other, are the entries that came in
/// with some left out at most. The queue stays within its bound.
pub proof fn law_run_keeps_order(
    exporter: Exporter,
    states: Seq<RunState>,
    events: Seq<RunEvent>,
    n: int,
)
    requires
        run(exporter, states, events),
        left_of(states[0].held(), states[0].arrived),
        states[0].queue.len() <= MAX_BUFFERED_RECORDS,
        0 <= n < states.len(),
    ensures
        left_of(
            states[n].delivered + states[n].on_its_way() + states[n].queue,
            states[n].arrived,
        ),
        states[n].queue.len() <= MAX_BUFFERED_RECORDS,
    decreases n,
{
    if n > 0 {
        law_run_keeps_order(exporter, states, events, n - 1);
        let before = states[n - 1];
        let after = states[n];
        let held = before.held();
        assert(advances(exporter, before, events[n - 1], after));
        match events[n - 1] {
            RunEvent::Arrival(entry) => {
                lemma_arrival_adds(before, entry, after);
                if before.queue.len() < MAX_BUFFERED_RECORDS {
                    lemma_add(held, before.arrived, entry);
                } else {
                    let a = (before.delivered.len() + before.on_its_way().len()) as int;
                    lemma_leave_out(held, before.arrived, a, a + 1);
                    lemma_add(held.take(a) + held.skip(a + 1), before.arrived, entry);
                }
            },
            RunEvent::Step(_, _) => {
                lemma_step_keeps(exporter, before, events[n - 1], after);
                if after.held() != held {
                    let a = before.delivered.len() as int;
                    lemma_leave_out(
                        held,
                        before.arrived,
                        a,
                        a + before.on_its_way().len() - after.queue.len() + before.queue.len(),
                    );
                }
            },
        }
    }
}

/// A run loses an entry only at the bound: whenever one is lost, the queue is
/// full. And what was delivered stays delivered.
pub proof fn law_run_loses_only_at_the_bound(
    exporter: Exporter,
    before: RunState,
    event: RunEvent,
    after: RunState,
)
    requires
        before.queue.len() <= MAX_BUFFERED_RECORDS,
        advances(exporter, before, event, after),
    ensures
        after.lost() >= before.lost(),
        after.lost() > before.lost() ==> after.queue.len() == MAX_BUFFERED_RECORDS,
        before.delivered.is_prefix_of(after.delivered),
{
    match event {
        RunEvent::Arrival(entry) => {
            lemma_arrival_adds(before, entry, after);
        },
        RunEvent::Step(_, _) => {
            lemma_step_keeps(exporter, before, event, after);
        },
    }
}

// ---- levels and records ----

/// Letter case plays no part in the name of a level.
pub proof fn law_levels_ignore_case(text: Seq<char>)
    ensures
        level_of(upper(text)) == level_of(text),
        level_of(lower(text)) == level_of(text),
{
    assert(upper(upper(text)) =~= upper(text));
    assert(upper(lower(text)) =~= upper(text));
}

/// The value of a key in a JSON object.
pub open spec fn member(json: Json, key: Seq<char>) -> Option<Json> {
    match json {
        Json::Object(members) => if members.contains_key(key) {
            Some(members[key])
        } else {
            None
        },
        _ => None,
    }
}

/// The key of an OTLP attribute.
pub open spec fn attribute_key(json: Json) -> Option<Json> {
    member(json, "key"@)
}

proof fn lemma_attribute_key(key: Seq<char>, value: Json)
    ensures
        attribute_key(attribute(key, value)) == Some(Json::Text(key)),
{
    reveal_strlit("key");
    reveal_strlit("value");
    assert("key"@.len() != "value"@.len());
    let members = seq![("key"@, Json::Text(key)), ("value"@, value)];
    reveal_with_fuel(collected, 3);
    assert(members.drop_last() =~= seq![("key"@, Json::Text(key))]);
    assert(members.drop_last().drop_last() =~= seq![]);
}

/// A record carries a status exactly where its entry has one: in the request
/// phase, whose status is zero, it carries none.
pub proof fn law_status_attribute_only_with_a_status(e: EntryModel)
    ensures
        (exists|i: int|
            0 <= i < record_attributes(e).len() && #[trigger] attribute_key(record_attributes(e)[i])
                == Some(Json::Text("http.response.status_code"@))) <==> e.http_status_code > 0,
{
    reveal_strlit("log.configuration_name");
    reveal_strlit("log.phase");
    reveal_strlit("category");
    reveal_strlit("http.request.method");
    reveal_strlit("url.path");
    reveal_strlit("http.response.status_code");
    let key = "http.response.status_code"@;
    lemma_attribute_key("log.configuration_name"@, string_value(e.configuration_name));
    lemma_attribute_key("log.phase"@, string_value(e.phase));
    lemma_attribute_key("category"@, string_value(e.category));
    lemma_attribute_key("http.request.method"@, string_value(e.http_method));
    lemma_attribute_key("url.path"@, string_value(e.http_path));
    lemma_attribute_key(key, integer_value(e.http_status_code as int));
    let all = record_attributes(e);
    if e.http_status_code > 0 {
        assert(all.last() == attribute(key, integer_value(e.http_status_code as int)));
        assert(attribute_key(all[all.len() - 1]) == Some(Json::Text(key)));
    } else {
        assert forall|i: int| 0 <= i < all.len() implies #[trigger] attribute_key(all[i]) != Some(
            Json::Text(key),
        ) by {
            assert(key.len() == 25);
            assert("log.configuration_name"@.len() == 22);
            assert("log.phase"@.len() == 9);
            assert("category"@.len() == 8);
            assert("http.request.method"@.len() == 19);
            assert("url.path"@.len() == 8);
            assert(all[i] == attribute(
                "log.configuration_name"@,
                string_value(e.configuration_name),
            ) || all[i] == attribute("log.phase"@, string_value(e.phase)) || all[i] == attribute(
                "category"@,
                string_value(e.category),
            ) || all[i] == attribute("http.request.method"@, string_value(e.http_method))
                || all[i] == attribute("url.path"@, string_value(e.http_path)));
        }
    }
}

/// The records that an OTLP document carries, found where OTLP has them: in
/// the first scope of the first resource.
pub open spec fn carried_records(json: Json) -> Option<Json> {
    match member(json, "resourceLogs"@) {
        Some(Json::Array(resources)) if resources.len() > 0 => match member(
            resources[0],
            "scopeLogs"@,
        ) {
            Some(Json::Array(scopes)) if scopes.len() > 0 => member(scopes[0], "logRecords"@),
            _ => None,
        },
        _ => None,
    }
}

proof fn lemma_single_member(key: Seq<char>, value: Json)
    ensures
        member(object(seq![(key, value)]), key) == Some(value),
{
    let members = seq![(key, value)];
    reveal_with_fuel(collected, 2);
    assert(members.drop_last() =~= seq![]);
}

proof fn lemma_second_member(key1: Seq<char>, value1: Json, key2: Seq<char>, value2: Json)
    ensures
        member(object(seq![(key1, value1), (key2, value2)]), key2) == Some(value2),
{
    let members = seq![(key1, value1), (key2, value2)];
    assert(members.last() == (key2, value2));
}

/// The document of a batch carries one record for each entry, in the order of
/// the batch, and no other.
pub proof fn law_document_carries_the_batch(
    batch: Seq<EntryModel>,
    service_name: Seq<char>,
    service_instance_id: Seq<char>,
)
    ensures
        carried_records(document(batch, service_name, service_instance_id)) == Some(
            Json::Array(records(batch)),
        ),
{
    let resources = Json::Array(seq![resource_logs(batch, service_name, service_instance_id)]);
    let scopes = Json::Array(seq![scope_logs(batch)]);
    lemma_single_member("resourceLogs"@, resources);
    lemma_second_member(
        "resource"@,
        resource(service_name, service_instance_id),
        "scopeLogs"@,
        scopes,
    );
    lemma_second_member("scope"@, scope(), "logRecords"@, Json::Array(records(batch)));
}

proof fn lemma_first_member(key1: Seq<char>, value1: Json, key2: Seq<char>, value2: Json)
    requires
        key1 != key2,
    ensures
        member(object(seq![(key1, value1), (key2, value2)]), key1) == Some(value1),
{
    let members = seq![(key1, value1), (key2, value2)];
    reveal_with_fuel(collected, 3);
    assert(members.drop_last() =~= seq![(key1, value1)]);
}

/// The attributes of the resource that an OTLP document speaks for.
pub open spec fn carried_resource(json: Json) -> Option<Json> {
    match member(json, "resourceLogs"@) {
        Some(Json::Array(resources)) if resources.len() > 0 => match member(
            resources[0],
            "resource"@,
        ) {
            Some(resource) => member(resource, "attributes"@),
            None => None,
        },
        _ => None,
    }
}

/// The document of a batch names the service and its instance.
pub proof fn law_document_names_the_service(
    batch: Seq<EntryModel>,
    service_name: Seq<char>,
    service_instance_id: Seq<char>,
)
    ensures
        carried_resource(document(batch, service_name, service_instance_id)) == Some(
            Json::Array(service_attributes(service_name, service_instance_id)),
        ),
{
    reveal_strlit("resource");
    reveal_strlit("scopeLogs");
    assert("resource"@.len() != "scopeLogs"@.len());
    let resources = Json::Array(seq![resource_logs(batch, service_name, service_instance_id)]);
    let scopes = Json::Array(seq![scope_logs(batch)]);
    lemma_single_member("resourceLogs"@, resources);
    lemma_first_member(
        "resource"@,
        resource(service_name, service_instance_id),
        "scopeLogs"@,
        scopes,
    );
    lemma_single_member(
        "attributes"@,
        Json::Array(service_attributes(service_name, service_instance_id)),
    );
}

/// What a record says of its entry: when it was rendered, how severe it is,
/// the rendered line, and the context.
pub proof fn law_record_says_what_its_entry_does(e: EntryModel)
    ensures
        member(record(e), "timeUnixNano"@) == Some(Json::Text(decimal(e.time_unix_nano))),
        member(record(e), "observedTimeUnixNano"@) == Some(Json::Text(decimal(e.time_unix_nano))),
        member(record(e), "severityNumber"@) == Some(
            Json::Int(severity_number(level_of(e.level))),
        ),
        member(record(e), "severityText"@) == Some(Json::Text(severity_text(level_of(e.level)))),
        member(record(e), "body"@) == Some(string_value(e.body)),
        member(string_value(e.body), "stringValue"@) == Some(Json::Text(e.body)),
        member(record(e), "attributes"@) == Some(Json::Array(record_attributes(e))),
{
    reveal_strlit("timeUnixNano");
    reveal_strlit("observedTimeUnixNano");
    reveal_strlit("severityNumber");
    reveal_strlit("severityText");
    reveal_strlit("body");
    reveal_strlit("attributes");
    assert("timeUnixNano"@.len() == 12);
    assert("observedTimeUnixNano"@.len() == 20);
    assert("severityNumber"@.len() == 14);
    assert("severityText"@.len() == 12);
    assert("timeUnixNano"@[0] != "severityText"@[0]);
    assert("body"@.len() == 4);
    assert("attributes"@.len() == 10);
    lemma_single_member("stringValue"@, Json::Text(e.body));
    let m = record_members(e);
    let m5 = m.drop_last();
    let m4 = m5.drop_last();
    let m3 = m4.drop_last();
    let m2 = m3.drop_last();
    let m1 = m2.drop_last();
    assert(collected(m) == collected(m5).insert(m[5].0, m[5].1));
    assert(collected(m5) == collected(m4).insert(m[4].0, m[4].1));
    assert(collected(m4) == collected(m3).insert(m[3].0, m[3].1));
    assert(collected(m3) == collected(m2).insert(m[2].0, m[2].1));
    assert(collected(m2) == collected(m1).insert(m[1].0, m[1].1));
    assert(collected(m1) == collected(m1.drop_last()).insert(m[0].0, m[0].1));
}

// ---- attributes ----

proof fn lemma_header_value_append(a: Seq<Header>, b: Seq<Header>, key: Seq<char>)
    ensures
        header_value(a + b, key) == (match header_value(a, key) {
            Some(v) => Some(v),
            None => header_value(b, key),
        }),
    decreases a.len(),
{
    if a.len() == 0 {
        assert(a + b =~= b);
    } else {
        assert((a + b).drop_first() =~= a.drop_first() + b);
        lemma_header_value_append(a.drop_first(), b, key);
    }
}

proof fn lemma_no_match(headers: Seq<Header>, key: Seq<char>)
    requires
        forall|i: int| 0 <= i < headers.len() ==> lower((#[trigger] headers[i]).0) != lower(key),
    ensures
        header_value(headers, key) is None,
    decreases headers.len(),
{
    if headers.len() > 0 {
        assert forall|i: int| 0 <= i < headers.drop_first().len() implies lower(
            (#[trigger] headers.drop_first()[i]).0,
        ) != lower(key) by {
            assert(headers.drop_first()[i] == headers[i + 1]);
        }
        lemma_no_match(headers.drop_first(), key);
    }
}

proof fn lemma_filter_keeps_value(headers: Seq<Header>, keep: spec_fn(Header) -> bool, key: Seq<char>)
    requires
        forall|h: Header| lower(h.0) == lower(key) ==> #[trigger] keep(h),
    ensures
        header_value(headers.filter(keep), key) == header_value(headers, key),
    decreases headers.len(),
{
    reveal(Seq::filter);
    if headers.len() > 0 {
        let init = headers.drop_last();
        let last = headers.last();
        assert(headers =~= init + seq![last]);
        lemma_filter_keeps_value(init, keep, key);
        lemma_header_value_append(init, seq![last], key);
        if keep(last) {
            assert(headers.filter(keep) =~= init.filter(keep) + seq![last]);
            lemma_header_value_append(init.filter(keep), seq![last], key);
        } else {
            lemma_no_match(seq![last], key);
            assert(headers.filter(keep) =~= init.filter(keep));
        }
    } else {
        assert(headers.filter(keep) =~= headers);
    }
}

proof fn lemma_filter_satisfies(headers: Seq<Header>, keep: spec_fn(Header) -> bool)
    ensures
        forall|i: int|
            0 <= i < headers.filter(keep).len() ==> keep(#[trigger] headers.filter(keep)[i]),
    decreases headers.len(),
{
    reveal(Seq::filter);
    if headers.len() > 0 {
        lemma_filter_satisfies(headers.drop_last(), keep);
    }
}

pub(crate) proof fn lemma_pseudo_names()
    ensures
        lower(":method"@) == ":method"@,
        lower(":path"@) == ":path"@,
        lower(":status"@) == ":status"@,
        ":method"@ != ":path"@,
        ":method"@ != ":status"@,
        ":path"@ != ":status"@,
{
    reveal_strlit(":method");
    reveal_strlit(":path");
    reveal_strlit(":status");
    assert(lower(":method"@) =~= ":method"@);
    assert(lower(":path"@) =~= ":path"@);
    assert(lower(":status"@) =~= ":status"@);
    assert(":method"@[1] != ":status"@[1]);
    assert(":method"@.len() != ":path"@.len());
    assert(":path"@.len() != ":status"@.len());
}

/// Letter case plays no part in the lookup of a header.
pub proof fn law_header_lookup_ignores_case(headers: Seq<Header>, key: Seq<char>)
    ensures
        header_value(headers, upper(key)) == header_value(headers, key),
        header_value(headers, lower(key)) == header_value(headers, key),
    decreases headers.len(),
{
    assert(lower(upper(key)) =~= lower(key));
    assert(lower(lower(key)) =~= lower(key));
    if headers.len() > 0 {
        law_header_lookup_ignores_case(headers.drop_first(), key);
    }
}

/// The pseudo-headers of a snapshot have the values that it was given,
/// whatever headers of these names came in.
pub proof fn law_snapshot_answers_for_pseudo_headers(
    headers: Seq<Header>,
    method: Option<Seq<char>>,
    path: Option<Seq<char>>,
    status: Option<nat>,
)
    ensures
        method is Some ==> header_value(snapshot(headers, method, path, status), ":method"@)
            == method,
        path is Some ==> header_value(snapshot(headers, method, path, status), ":path"@) == path,
        status matches Some(s) ==> header_value(
            snapshot(headers, method, path, status),
            ":status"@,
        ) == Some(decimal(s)),
{
    lemma_pseudo_names();
    let keep = |h: Header| kept(h.0, method is Some, path is Some, status is Some);
    let rest = headers.filter(keep);
    let status_text = match status {
        Some(s) => Some(decimal(s)),
        None => None,
    };
    let m = pseudo(":method"@, method);
    let p = pseudo(":path"@, path);
    let s = pseudo(":status"@, status_text);
    lemma_filter_satisfies(headers, keep);
    assert forall|key: Seq<char>|
        (key == ":method"@ && method is Some) || (key == ":path"@ && path is Some) || (key
            == ":status"@ && status is Some) implies #[trigger] header_value(rest, key) is None by {
        assert forall|i: int| 0 <= i < rest.len() implies lower((#[trigger] rest[i]).0) != lower(
            key,
        ) by {
            assert(keep(rest[i]));
        }
        lemma_no_match(rest, key);
    }
    assert forall|key: Seq<char>| true implies #[trigger] header_value(
        snapshot(headers, method, path, status),
        key,
    ) == (match header_value(rest, key) {
        Some(v) => Some(v),
        None => match header_value(m, key) {
            Some(v) => Some(v),
            None => match header_value(p, key) {
                Some(v) => Some(v),
                None => header_value(s, key),
            },
        },
    }) by {
        lemma_header_value_append(rest + m + p, s, key);
        lemma_header_value_append(rest + m, p, key);
        lemma_header_value_append(rest, m, key);
    }
    reveal_with_fuel(header_value, 2);
}

/// Every other header answers as it did before the snapshot was taken.
pub proof fn law_snapshot_keeps_other_headers(
    headers: Seq<Header>,
    method: Option<Seq<char>>,
    path: Option<Seq<char>>,
    status: Option<nat>,
    key: Seq<char>,
)
    requires
        method is Some ==> lower(key) != ":method"@,
        path is Some ==> lower(key) != ":path"@,
        status is Some ==> lower(key) != ":status"@,
    ensures
        header_value(snapshot(headers, method, path, status), key) == header_value(headers, key),
{
    lemma_pseudo_names();
    let keep = |h: Header| kept(h.0, method is Some, path is Some, status is Some);
    let rest = headers.filter(keep);
    let status_text = match status {
        Some(s) => Some(decimal(s)),
        None => None,
    };
    let m = pseudo(":method"@, method);
    let p = pseudo(":path"@, path);
    let s = pseudo(":status"@, status_text);
    lemma_filter_keeps_value(headers, keep, key);
    lemma_header_value_append(rest + m + p, s, key);
    lemma_header_value_append(rest + m, p, key);
    lemma_header_value_append(rest, m, key);
    lemma_no_match(m, key);
    lemma_no_match(p, key);
    lemma_no_match(s, key);
}

/// No pseudo-header stands in the map of headers.
pub proof fn law_pseudo_headers_are_hidden(headers: Seq<(String, String)>, name: String)
    requires
        visible_map(headers).contains_key(name),
    ensures
        visible(name@),
        name@.len() > 0 ==> name@[0] != ':',
    decreases headers.len(),
{
    if headers.len() > 0 {
        let init = headers.drop_last();
        if visible_map(init).contains_key(name) {
            law_pseudo_headers_are_hidden(init, name);
        }
    }
}

/// Whether the last header of the given name stands at the given place.
pub open spec fn last_of_name(headers: Seq<(String, String)>, name: String, i: int) -> bool {
    &&& 0 <= i < headers.len()
    &&& headers[i].0 == name
    &&& forall|j: int| i < j < headers.len() ==> (#[trigger] headers[j]).0 != name
}

/// The map of headers of a snapshot has the names of the headers that it was
/// taken from, in their letter case, but for those that start with a colon. A
/// name has the value of its last occurrence, and there is no other name. The
/// pseudo-headers that were given play no part.
pub proof fn law_map_of_headers_is_that_of_the_given(
    attrs: OwnedAttributes,
    given: Seq<(String, String)>,
    name: String,
)
    requires
        visible_map(attrs.headers@) == visible_map(given),
    ensures
        visible_map(attrs.headers@).contains_key(name) <==> visible(name@) && exists|i: int|
            #[trigger] last_of_name(given, name, i),
        forall|i: int|
            visible(name@) && #[trigger] last_of_name(given, name, i) ==> visible_map(
                attrs.headers@,
            )[name] == given[i].1,
{
    lemma_visible_map(given, name);
}

pub(crate) proof fn lemma_visible_map(headers: Seq<(String, String)>, name: String)
    ensures
        visible_map(headers).contains_key(name) <==> visible(name@) && exists|i: int|
            #[trigger] last_of_name(headers, name, i),
        forall|i: int|
            visible(name@) && #[trigger] last_of_name(headers, name, i) ==> visible_map(
                headers,
            )[name] == headers[i].1,
    decreases headers.len(),
{
    if headers.len() > 0 {
        let init = headers.drop_last();
        let n = headers.len() - 1;
        lemma_visible_map(init, name);
        if headers.last().0 == name {
            assert(last_of_name(headers, name, n));
            assert forall|i: int| #[trigger] last_of_name(headers, name, i) implies i == n by {
                assert(i < n ==> headers[n].0 != name);
            }
        } else {
            assert forall|i: int| #[trigger]
                last_of_name(headers, name, i) == last_of_name(init, name, i) by {
                if last_of_name(headers, name, i) {
                    assert(i != n);
                    assert forall|j: int| i < j < init.len() implies (#[trigger] init[j]).0
                        != name by {
                        assert(init[j] == headers[j]);
                    }
                }
                if last_of_name(init, name, i) {
                    assert forall|j: int| i < j < headers.len() implies (#[trigger] headers[j]).0
                        != name by {
                        if j < n {
                            assert(init[j] == headers[j]);
                        }
                    }
                }
            }
            assert forall|i: int| #[trigger] last_of_name(init, name, i) implies last_of_name(
                headers,
                name,
                i,
            ) by {
                assert(last_of_name(headers, name, i) == last_of_name(init, name, i));
            }
        }
    }
}

/// What the map of headers holds, by text: the last of the given headers whose
/// name is a given text stands in it with its value, where that text does not
/// start with a colon. Every name in it has the text of a given one, and does
/// not start with a colon.
pub proof fn law_map_of_headers_by_text(attrs: OwnedAttributes, given: Seq<(String, String)>)
    requires
        visible_map(attrs.headers@) == visible_map(given),
    ensures
        forall|i: int|
            #![trigger given[i]]
            0 <= i < given.len() && visible(given[i].0@) && (forall|j: int|
                i < j < given.len() ==> (#[trigger] given[j]).0@ != given[i].0@) ==> {
                &&& visible_map(attrs.headers@).contains_key(given[i].0)
                &&& visible_map(attrs.headers@)[given[i].0] == given[i].1
            },
        forall|name: String| #[trigger]
            visible_map(attrs.headers@).contains_key(name) ==> visible(name@) && exists|i: int|
                0 <= i < given.len() && (#[trigger] given[i]).0@ == name@,
{
    let map = visible_map(given);
    assert forall|i: int|
        #![trigger given[i]]
        0 <= i < given.len() && visible(given[i].0@) && (forall|j: int|
            i < j < given.len() ==> (#[trigger] given[j]).0@ != given[i].0@) implies {
        &&& map.contains_key(given[i].0)
        &&& map[given[i].0] == given[i].1
    } by {
        lemma_visible_map(given, given[i].0);
        assert(last_of_name(given, given[i].0, i));
    }
    assert forall|name: String| #[trigger] map.contains_key(name) implies visible(name@)
        && exists|i: int| 0 <= i < given.len() && (#[trigger] given[i]).0@ == name@ by {
        lemma_visible_map(given, name);
        let i = choose|i: int| last_of_name(given, name, i);
        assert(given[i].0@ == name@);
    }
}

proof fn lemma_filter_append<A>(a: Seq<A>, b: Seq<A>, keep: spec_fn(A) -> bool)
    ensures
        (a + b).filter(keep) == a.filter(keep) + b.filter(keep),
    decreases b.len(),
{
    reveal(Seq::filter);
    if b.len() == 0 {
        assert(a + b =~= a);
        assert(a.filter(keep) + b.filter(keep) =~= a.filter(keep));
    } else {
        assert((a + b).drop_last() =~= a + b.drop_last());
        lemma_filter_append(a, b.drop_last(), keep);
        assert((a + b).filter(keep) =~= a.filter(keep) + b.filter(keep));
    }
}

proof fn lemma_filter_twice<A>(a: Seq<A>, keep: spec_fn(A) -> bool)
    ensures
        a.filter(keep).filter(keep) == a.filter(keep),
    decreases a.len(),
{
    reveal(Seq::filter);
    if a.len() > 0 {
        let init = a.drop_last();
        lemma_filter_twice(init, keep);
        if keep(a.last()) {
            let shorter = init.filter(keep);
            assert(shorter.push(a.last()).drop_last() =~= shorter);
        }
    }
}

proof fn lemma_filter_drops<A>(a: Seq<A>, keep: spec_fn(A) -> bool)
    requires
        a.len() <= 1,
        a.len() == 1 ==> !keep(a[0]),
    ensures
        a.filter(keep) == Seq::<A>::empty(),
{
    reveal(Seq::filter);
    if a.len() == 1 {
        assert(a.drop_last() =~= Seq::<A>::empty());
        assert(a.drop_last().filter(keep) =~= Seq::<A>::empty());
    }
}

/// A snapshot of a snapshot, with the same pseudo-headers, is that snapshot.
pub proof fn law_snapshot_of_a_snapshot_is_the_same(
    headers: Seq<Header>,
    method: Option<Seq<char>>,
    path: Option<Seq<char>>,
    status: Option<nat>,
)
    ensures
        snapshot(snapshot(headers, method, path, status), method, path, status) == snapshot(
            headers,
            method,
            path,
            status,
        ),
{
    lemma_pseudo_names();
    let keep = |h: Header| kept(h.0, method is Some, path is Some, status is Some);
    let rest = headers.filter(keep);
    let status_text = match status {
        Some(s) => Some(decimal(s)),
        None => None,
    };
    let m = pseudo(":method"@, method);
    let p = pseudo(":path"@, path);
    let s = pseudo(":status"@, status_text);
    lemma_filter_append(rest + m + p, s, keep);
    lemma_filter_append(rest + m, p, keep);
    lemma_filter_append(rest, m, keep);
    lemma_filter_twice(headers, keep);
    lemma_filter_drops(m, keep);
    lemma_filter_drops(p, keep);
    lemma_filter_drops(s, keep);
    assert((rest + m + p + s).filter(keep) =~= rest);
}

// ---- expressions ----

/// The body plays no part in an expression that cannot be found to need the
/// payload, whatever it draws: it can come to the same outcomes whether the
/// body was read or not.
pub proof fn law_body_plays_no_part_unless_needed(
    script: &Script,
    headers: Seq<Header>,
    auth: Option<AuthenticationData>,
    body: Option<Seq<u8>>,
    other: Option<Seq<u8>>,
    value: Option<ScriptValue>,
)
    requires
        !payload_need(script, headers, auth, true),
        evaluation(script, headers, auth, body, value),
    ensures
        evaluation(script, headers, auth, other, value),
{
    let (e, last) = choose|e: Evaluator<'_>, last: Evaluator<'_>|
        {
            &&& #[trigger] cheap_inputs_bound(script, headers, auth, e)
            &&& match body {
                Some(bytes) if !evaluator_ready(e) => payload_bound(e, bytes, last),
                _ => last == e,
            }
            &&& value == #[trigger] evaluator_value(last)
            &&& !evaluator_ready(last) ==> value is None
        };
    assert(evaluator_ready(e));
    assert(cheap_inputs_bound(script, headers, auth, e) && value == evaluator_value(last));
}

/// The body plays no part in a phase that cannot be found to need it: the
/// active configurations can come to the same results, and lead to the same
/// queue, whichever body they are given, or none.
pub proof fn law_body_plays_no_part_in_a_phase_unless_needed(
    active: Seq<LoggingConfigurations0Config>,
    on: Bindings,
    other: Option<Seq<u8>>,
    moment: Moment,
    before: Seq<EntryModel>,
    after: Seq<EntryModel>,
    results: Seq<EmissionModel>,
)
    requires
        !phase_need(active, on.headers, on.auth, true),
        emissions(active, on, moment, before, after, results),
    ensures
        emissions(active, Bindings { body: other, ..on }, moment, before, after, results),
{
    let instead = Bindings { body: other, ..on };
    let states = choose|states: Seq<Seq<EntryModel>>|
        {
            &&& #[trigger] trace(active, on, moment, states, results)
            &&& states[0] == before
            &&& states.last() == after
        };
    assert forall|i: int| 0 <= i < active.len() implies emission(
        #[trigger] active[i],
        instead,
        moment,
        states[i],
        states[i + 1],
        results[i],
    ) by {
        assert(!config_need(active[i], on.headers, on.auth, true));
        lemma_unneeded_body(active[i], on, other, moment, states[i], states[i + 1], results[i]);
    }
    assert(trace(active, instead, moment, states, results));
}

proof fn lemma_unneeded_body(
    cfg: LoggingConfigurations0Config,
    on: Bindings,
    other: Option<Seq<u8>>,
    moment: Moment,
    before: Seq<EntryModel>,
    after: Seq<EntryModel>,
    result: EmissionModel,
)
    requires
        !config_need(cfg, on.headers, on.auth, true),
        emission(cfg, on, moment, before, after, result),
    ensures
        emission(cfg, Bindings { body: other, ..on }, moment, before, after, result),
{
    let (condition, message) = choose|
        condition: Option<ScriptValue>,
        message: Option<ScriptValue>,
    |
        {
            &&& cfg.conditional matches Some(script) ==> evaluation(
                &script,
                on.headers,
                on.auth,
                on.body,
                condition,
            )
            &&& admitted(cfg, condition) ==> evaluation(
                &cfg.message,
                on.headers,
                on.auth,
                on.body,
                message,
            )
            &&& (result, after) == #[trigger] outcome(cfg, condition, message, moment, before)
        };
    if let Some(script) = cfg.conditional {
        law_body_plays_no_part_unless_needed(
            &script,
            on.headers,
            on.auth,
            on.body,
            other,
            condition,
        );
    }
    if admitted(cfg, condition) {
        law_body_plays_no_part_unless_needed(
            &cfg.message,
            on.headers,
            on.auth,
            on.body,
            other,
            message,
        );
    }
    assert((result, after) == outcome(cfg, condition, message, moment, before));
}

/// An expression that needs the payload has no value where there is no body.
pub proof fn law_no_value_without_a_needed_body(
    script: &Script,
    headers: Seq<Header>,
    auth: Option<AuthenticationData>,
    value: Option<ScriptValue>,
)
    requires
        !payload_need(script, headers, auth, false),
        evaluation(script, headers, auth, None, value),
    ensures
        value is None,
{
}

/// The body is read only for an active configuration that can need it.
pub proof fn law_body_is_read_only_if_needed(
    active: Seq<LoggingConfigurations0Config>,
    headers: Seq<Header>,
    auth: Option<AuthenticationData>,
)
    requires
        forall|i: int|
            0 <= i < active.len() ==> !(#[trigger] config_need(active[i], headers, auth, true)),
    ensures
        !phase_need(active, headers, auth, true),
{
}

// ---- phases ----

/// A line is emitted only where its conditional, if it has one, evaluates to
/// true; any other outcome leaves the queue as it is.
pub proof fn law_only_true_lets_a_line_pass(
    cfg: LoggingConfigurations0Config,
    condition: Option<ScriptValue>,
    message: Option<ScriptValue>,
    moment: Moment,
    queue: Seq<EntryModel>,
)
    ensures
        cfg.conditional is Some && condition != Some(ScriptValue::Bool(true)) ==> outcome(
            cfg,
            condition,
            message,
            moment,
            queue,
        ) == (EmissionModel::Suppressed, queue),
        (cfg.conditional is None || condition == Some(ScriptValue::Bool(true))) && message is Some
            ==> outcome(cfg, condition, message, moment, queue).0 is Emitted,
{
}

/// A configuration adds one entry, built from its rendered message, if it is
/// emitted, and else leaves the queue as it is.
pub proof fn law_one_entry_per_emission(
    cfg: LoggingConfigurations0Config,
    on: Bindings,
    moment: Moment,
    before: Seq<EntryModel>,
    after: Seq<EntryModel>,
    result: EmissionModel,
)
    requires
        emission(cfg, on, moment, before, after, result),
    ensures
        !(result is Emitted) ==> after == before,
        result is Emitted ==> exists|value: ScriptValue|
            {
                &&& evaluation(&cfg.message, on.headers, on.auth, on.body, Some(value))
                &&& after == enqueued(before, entry_for(cfg, #[trigger] rendered(value), moment))
            },
{
    let (condition, message) = choose|
        condition: Option<ScriptValue>,
        message: Option<ScriptValue>,
    |
        {
            &&& admitted(cfg, condition) ==> evaluation(
                &cfg.message,
                on.headers,
                on.auth,
                on.body,
                message,
            )
            &&& (result, after) == #[trigger] outcome(cfg, condition, message, moment, before)
        };
    if result is Emitted {
        let value = message->0;
        assert(after == enqueued(before, entry_for(cfg, rendered(value), moment)));
    }
}

/// An emitted line is what the endpoint gets: with nothing else waiting, the
/// next export carries the one record of the entry, whose body is the line.
pub proof fn law_emitted_line_is_exported(
    cfg: LoggingConfigurations0Config,
    on: Bindings,
    moment: Moment,
    queue: Seq<EntryModel>,
    result: EmissionModel,
    exporter: Exporter,
    rest: Seq<EntryModel>,
    action: ExportAction,
)
    requires
        emission(cfg, on, moment, Seq::empty(), queue, result),
        result is Emitted,
        exporter.batch_max_size > 0,
        goes_on(exporter, queue, rest, action),
    ensures
        rest.len() == 0,
        exists|value: ScriptValue|
            {
                &&& evaluation(&cfg.message, on.headers, on.auth, on.body, Some(value))
                &&& action matches ExportAction::Send(export)
                &&& carries(
                    export,
                    exporter,
                    seq![entry_for(cfg, #[trigger] rendered(value), moment)],
                )
            },
{
    law_one_entry_per_emission(cfg, on, moment, Seq::empty(), queue, result);
    let value = choose|value: ScriptValue|
        {
            &&& evaluation(&cfg.message, on.headers, on.auth, on.body, Some(value))
            &&& queue == enqueued(
                Seq::empty(),
                entry_for(cfg, #[trigger] rendered(value), moment),
            )
        };
    let entry = entry_for(cfg, rendered(value), moment);
    assert(queue =~= seq![entry]);
    assert(front(queue, exporter.batch_max_size as nat) =~= seq![entry]);
}

/// Whether lines are also logged locally plays no part in what is exported.
pub proof fn law_local_logging_does_not_touch_the_export(
    cfg: LoggingConfigurations0Config,
    also_log_to_message_logs: Option<bool>,
    condition: Option<ScriptValue>,
    message: Option<ScriptValue>,
    moment: Moment,
    queue: Seq<EntryModel>,
)
    ensures
        ({
            let other = LoggingConfigurations0Config { also_log_to_message_logs, ..cfg };
            outcome(other, condition, message, moment, queue).1 == outcome(
                cfg,
                condition,
                message,
                moment,
                queue,
            ).1
        }),
{
}

/// A configuration that sets no flag is evaluated in the response phase alone,
/// and its lines are logged locally too.
pub proof fn law_default_phases(cfg: LoggingConfigurations0Config)
    requires
        cfg.before_calling_api is None,
        cfg.after_calling_api is None,
        cfg.also_log_to_message_logs is None,
    ensures
        !cfg.before_api(),
        cfg.after_api(),
        cfg.logs_locally(),
        active_in(seq![cfg], false) == Seq::<LoggingConfigurations0Config>::empty(),
        active_in(seq![cfg], true) == seq![cfg],
{
    reveal(Seq::filter);
    reveal_with_fuel(Seq::filter, 2);
    assert(seq![cfg].drop_last() =~= Seq::<LoggingConfigurations0Config>::empty());
    assert(active_in(seq![cfg], false) =~= Seq::<LoggingConfigurations0Config>::empty());
    assert(active_in(seq![cfg], true) =~= seq![cfg]);
}

/// A line ends with the rendered text; a category stands before it in
/// brackets.
pub proof fn law_line_ends_with_its_text(category: Seq<char>, text: Seq<char>)
    ensures
        line(category, text).skip(line(category, text).len() - text.len()) == text,
        category.len() == 0 ==> line(category, text) == text,
        category.len() > 0 ==> line(category, text).len() == category.len() + text.len() + 3,
{
    reveal_strlit("[");
    reveal_strlit("] ");
    assert(line(category, text).skip(line(category, text).len() - text.len()) =~= text);
}

/// The names of the configurations that were emitted, in order.
pub open spec fn emitted_names(
    active: Seq<LoggingConfigurations0Config>,
    results: Seq<EmissionModel>,
) -> Seq<Seq<char>>
    decreases active.len(),
{
    if active.len() == 0 {
        seq![]
    } else {
        let names = emitted_names(active.drop_last(), results.drop_last());
        if results.last() is Emitted {
            names.push(active.last().configuration_name@)
        } else {
            names
        }
    }
}

proof fn lemma_trace(
    active: Seq<LoggingConfigurations0Config>,
    on: Bindings,
    moment: Moment,
    states: Seq<Seq<EntryModel>>,
    results: Seq<EmissionModel>,
)
    requires
        trace(active, on, moment, states, results),
        states[0].len() <= MAX_BUFFERED_RECORDS,
    ensures
        states.last().len() <= MAX_BUFFERED_RECORDS,
        states[0].len() + active.len() <= MAX_BUFFERED_RECORDS ==> {
            &&& states.last().len() <= states[0].len() + active.len()
            &&& states.last().len() >= states[0].len()
            &&& states.last().take(states[0].len() as int) == states[0]
            &&& states.last().skip(states[0].len() as int).map_values(
                |e: EntryModel| e.configuration_name,
            ) == emitted_names(active, results)
        },
    decreases active.len(),
{
    let name = |e: EntryModel| e.configuration_name;
    let first = states[0];
    if active.len() == 0 {
        assert(first.take(first.len() as int) =~= first);
        assert(first.skip(first.len() as int).map_values(name) =~= seq![]);
    } else {
        let n = active.len() as int;
        let shorter = active.drop_last();
        assert forall|i: int| 0 <= i < shorter.len() implies emission(
            #[trigger] shorter[i],
            on,
            moment,
            states.drop_last()[i],
            states.drop_last()[i + 1],
            results.drop_last()[i],
        ) by {
            assert(shorter[i] == active[i]);
        }
        lemma_trace(shorter, on, moment, states.drop_last(), results.drop_last());
        let before = states[n - 1];
        let after = states[n];
        assert(states.drop_last().last() == before);
        assert(active[n - 1] == active.last());
        law_one_entry_per_emission(active.last(), on, moment, before, after, results.last());
        if first.len() + n <= MAX_BUFFERED_RECORDS {
            if results.last() is Emitted {
                let value = choose|value: ScriptValue|
                    after == enqueued(
                        before,
                        entry_for(active.last(), #[trigger] rendered(value), moment),
                    );
                let entry = entry_for(active.last(), rendered(value), moment);
                assert(after == before.push(entry));
                assert(after.take(first.len() as int) =~= before.take(first.len() as int));
                assert(after.skip(first.len() as int).map_values(name) =~= before.skip(
                    first.len() as int,
                ).map_values(name).push(entry.configuration_name));
            }
        }
    }
}

/// A phase keeps the queue within its bound. Where there is room, it leaves
/// what waits untouched and adds at most one entry for each active
/// configuration, behind it and in the order of the configurations.
pub proof fn law_phase_appends_in_order(
    active: Seq<LoggingConfigurations0Config>,
    on: Bindings,
    moment: Moment,
    before: Seq<EntryModel>,
    after: Seq<EntryModel>,
    results: Seq<EmissionModel>,
)
    requires
        before.len() <= MAX_BUFFERED_RECORDS,
        emissions(active, on, moment, before, after, results),
    ensures
        after.len() <= MAX_BUFFERED_RECORDS,
        results.len() == active.len(),
        before.len() + active.len() <= MAX_BUFFERED_RECORDS ==> {
            &&& before.len() <= after.len() <= before.len() + active.len()
            &&& after.take(before.len() as int) == before
            &&& after.skip(before.len() as int).map_values(|e: EntryModel| e.configuration_name)
                == emitted_names(active, results)
        },
{
    let states = choose|states: Seq<Seq<EntryModel>>|
        {
            &&& #[trigger] trace(active, on, moment, states, results)
            &&& states[0] == before
            &&& states.last() == after
        };
    lemma_trace(active, on, moment, states, results);
}

} // verus!
