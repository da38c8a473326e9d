//! The export queue: rendered entries wait here, oldest first, until a batch
//! of them is sent. It is bounded, so a slow endpoint costs the oldest entries
//! and never more memory.

use std::collections::VecDeque;
use vstd::prelude::*;
use crate::otel::{models, EntryModel, LogEntry};

verus! {

/// The number of entries that the queue holds at most.
pub const MAX_BUFFERED_RECORDS: usize = 10_000;

/// Entries that wait for their export, oldest first.
#[derive(Debug)]
pub struct LogQueue {
    records: VecDeque<LogEntry>,
}

impl View for LogQueue {
    type V = Seq<EntryModel>;

    closed spec fn view(&self) -> Seq<EntryModel> {
        models(self.records@)
    }
}

impl LogQueue {
    #[verifier::type_invariant]
    closed spec fn bounded(self) -> bool {
        self.records@.len() <= MAX_BUFFERED_RECORDS
    }

    /// An empty queue.
    pub fn new() -> (r: LogQueue)
        ensures
            r@ == Seq::<EntryModel>::empty(),
    {
        let r = LogQueue { records: VecDeque::new() };
        proof {
            assert(r@ =~= Seq::<EntryModel>::empty());
        }
        r
    }

    /// Takes the entries out, which leaves the queue empty.
    fn take_records(&mut self) -> (r: VecDeque<LogEntry>)
        ensures
            models(r@) == old(self)@,
            r@.len() <= MAX_BUFFERED_RECORDS,
            final(self)@ == Seq::<EntryModel>::empty(),
    {
        proof {
            use_type_invariant(&*self);
        }
        let mut records: VecDeque<LogEntry> = VecDeque::new();
        std::mem::swap(&mut records, &mut self.records);
        proof {
            assert(self@ =~= Seq::<EntryModel>::empty());
        }
        records
    }
}

/// The lesser of two numbers.
pub open spec fn min(a: nat, b: nat) -> nat {
    if a <= b {
        a
    } else {
        b
    }
}

/// A queue after an entry was added at its end; the oldest entry made room
/// where the queue was full.
pub open spec fn enqueued(queue: Seq<EntryModel>, entry: EntryModel) -> Seq<EntryModel> {
    if queue.len() >= MAX_BUFFERED_RECORDS {
        queue.drop_first().push(entry)
    } else {
        queue.push(entry)
    }
}

/// The batch of at most `max` entries at the front of a queue.
pub open spec fn front(queue: Seq<EntryModel>, max: nat) -> Seq<EntryModel> {
    queue.take(min(max, queue.len()) as int)
}

/// What a queue holds behind its batch of at most `max` entries.
pub open spec fn behind(queue: Seq<EntryModel>, max: nat) -> Seq<EntryModel> {
    queue.skip(min(max, queue.len()) as int)
}

/// The number of entries of a batch that a queue has room for.
pub open spec fn room_for(queue: Seq<EntryModel>, batch: Seq<EntryModel>) -> nat {
    if queue.len() >= MAX_BUFFERED_RECORDS {
        0
    } else {
        min((MAX_BUFFERED_RECORDS - queue.len()) as nat, batch.len())
    }
}

/// A queue after a batch was put back at its front, in order; where there is
/// not enough room, the oldest entries of the batch are left out.
pub open spec fn requeued(queue: Seq<EntryModel>, batch: Seq<EntryModel>) -> Seq<EntryModel> {
    batch.skip(batch.len() - room_for(queue, batch)) + queue
}

/// Enqueue an entry; returns true if the queue was full and the oldest entry
/// was dropped.
pub fn enqueue(queue: &mut LogQueue, entry: LogEntry) -> (dropped: bool)
    ensures
        final(queue)@ == enqueued(old(queue)@, entry@),
        old(queue)@.len() <= MAX_BUFFERED_RECORDS,
        final(queue)@.len() <= MAX_BUFFERED_RECORDS,
        dropped == (old(queue)@.len() >= MAX_BUFFERED_RECORDS),
{
    let ghost before = queue@;
    let mut records = queue.take_records();
    let ghost held = records@;
    let mut dropped = false;
    if records.len() >= MAX_BUFFERED_RECORDS {
        let _ = records.pop_front();
        dropped = true;
        proof {
            assert(models(records@) =~= before.drop_first());
        }
    }
    records.push_back(entry);
    queue.records = records;
    proof {
        assert(before.len() == held.len());
        assert(queue@ =~= enqueued(before, entry@));
    }
    dropped
}

/// Takes the batch of at most `max` entries at the front of the queue.
pub fn drain_batch(queue: &mut LogQueue, max: usize) -> (batch: Vec<LogEntry>)
    ensures
        models(batch@) == front(old(queue)@, max as nat),
        final(queue)@ == behind(old(queue)@, max as nat),
        old(queue)@.len() <= MAX_BUFFERED_RECORDS,
        final(queue)@.len() <= MAX_BUFFERED_RECORDS,
{
    let ghost before = queue@;
    let mut records = queue.take_records();
    let ghost held = records@;
    let take: usize = if max <= records.len() {
        max
    } else {
        records.len()
    };
    let mut batch: Vec<LogEntry> = Vec::new();
    while batch.len() < take
        invariant
            take <= held.len(),
            held.len() <= MAX_BUFFERED_RECORDS,
            batch@.len() <= take,
            batch@ == held.take(batch@.len() as int),
            records@ == held.skip(batch@.len() as int),
        decreases take - batch@.len(),
    {
        let ghost n = batch@.len() as int;
        if let Some(entry) = records.pop_front() {
            batch.push(entry);
            proof {
                assert(batch@ =~= held.take(n + 1));
                assert(records@ =~= held.skip(n + 1));
            }
        }
    }
    queue.records = records;
    proof {
        assert(take == min(max as nat, before.len()));
        assert(models(batch@) =~= front(before, max as nat));
        assert(queue@ =~= behind(before, max as nat));
    }
    batch
}

/// Puts a batch that could not be sent back at the front of the queue,
/// preserving order.
pub fn requeue_front(queue: &mut LogQueue, batch: Vec<LogEntry>)
    ensures
        final(queue)@ == requeued(old(queue)@, models(batch@)),
        old(queue)@.len() <= MAX_BUFFERED_RECORDS,
        final(queue)@.len() <= MAX_BUFFERED_RECORDS,
{
    let ghost before = queue@;
    let ghost all = batch@;
    let mut batch = batch;
    let mut records = queue.take_records();
    let ghost held = records@;
    while records.len() < MAX_BUFFERED_RECORDS && batch.len() > 0
        invariant
            held.len() <= records@.len() <= MAX_BUFFERED_RECORDS,
            batch@.len() + records@.len() == all.len() + held.len(),
            batch@ == all.take(batch@.len() as int),
            records@ == all.skip(batch@.len() as int) + held,
        decreases batch@.len(),
    {
        let ghost n = batch@.len() as int;
        if let Some(entry) = batch.pop() {
            records.push_front(entry);
            proof {
                assert(batch@ =~= all.take(n - 1));
                assert(records@ =~= all.skip(n - 1) + held);
            }
        }
    }
    queue.records = records;
    proof {
        assert(queue@ =~= requeued(before, models(all)));
    }
}

/// The number of entries that wait in the queue.
pub fn queue_len(queue: &LogQueue) -> (r: usize)
    ensures
        r == queue@.len(),
        r <= MAX_BUFFERED_RECORDS,
{
    proof {
        use_type_invariant(queue);
    }
    queue.records.len()
}

} // verus!
