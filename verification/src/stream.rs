//! Batching for channel sends: at most a batch's worth of items, or whatever arrives within a
//! window of the first.
//!
//! The receive with a timeout is the timer; nothing else keeps time here.

use vstd::prelude::*;

use std::sync::mpsc::Receiver;
use std::time::{Duration, Instant};

verus! {

/// A receiving end of a channel, opaque here.
#[verifier::external_type_specification]
#[verifier::external_body]
#[verifier::reject_recursive_types(T)]
pub struct ExReceiver<T>(Receiver<T>);

/// A point on the monotonic clock, opaque here.
#[verifier::external_type_specification]
#[verifier::external_body]
pub struct ExInstant(Instant);

/// Repositories per channel send.
pub const BATCH_MAX: usize = 25;

/// How long a partial batch waits before it is flushed anyway, in milliseconds.
pub const BATCH_WINDOW_MS: u64 = 50;

/// The receiving end of a channel, with a record of what has come out of it.
#[verifier::reject_recursive_types(T)]
pub struct Inbox<T> {
    rx: Receiver<T>,
    taken: Ghost<Seq<T>>,
    closed: Ghost<bool>,
}

impl<T> Inbox<T> {
    /// Every item received from the channel so far, in the order received.
    pub closed spec fn taken(&self) -> Seq<T> {
        self.taken@
    }

    /// Whether the latest blocking receive found the channel disconnected with nothing left.
    pub closed spec fn found_closed(&self) -> bool {
        self.closed@
    }

    /// The receiving end `rx`, nothing received from it yet.
    pub fn new(rx: Receiver<T>) -> (inbox: Inbox<T>)
        ensures
            inbox.taken() == Seq::<T>::empty(),
            !inbox.found_closed(),
    {
        Inbox { rx, taken: Ghost(Seq::empty()), closed: Ghost(false) }
    }
}

/// What one receive took out of the channel: its item, or nothing.
pub open spec fn received<T>(got: Option<T>) -> Seq<T> {
    match got {
        Some(item) => seq![item],
        None => Seq::empty(),
    }
}

/// `Receiver::recv`: the next item, blocking until one arrives, or `None` once the channel is
/// disconnected and drained. Which item comes is up to the senders; whatever it is, it is the
/// next one out of the channel, so the record grows by exactly it, and `None` is the channel
/// found closed.
#[verifier::external_body]
fn recv<T>(inbox: &mut Inbox<T>) -> (got: Option<T>)
    ensures
        final(inbox).taken() == old(inbox).taken() + received(got),
        final(inbox).found_closed() == (got is None),
{
    inbox.rx.recv().ok()
}

/// `Receiver::recv_timeout`: the next item if one arrives within `timeout`, else `None` (timed
/// out, or disconnected). Which item comes is up to the senders; whatever it is, it is the
/// next one out of the channel, so the record grows by exactly it.
#[verifier::external_body]
fn recv_timeout<T>(inbox: &mut Inbox<T>, timeout: Duration) -> (got: Option<T>)
    ensures
        final(inbox).taken() == old(inbox).taken() + received(got),
        final(inbox).found_closed() == old(inbox).found_closed(),
{
    inbox.rx.recv_timeout(timeout).ok()
}

/// `Instant::now`. Nothing is promised of the reading.
#[verifier::external_body]
fn instant_now() -> Instant {
    Instant::now()
}

/// `Instant::elapsed`: the time since `start`. Nothing is promised of the reading.
#[verifier::external_body]
fn elapsed_since(start: &Instant) -> Duration {
    start.elapsed()
}

/// `Duration::checked_sub`: what is left of `window` after `spent`, or `None` once `spent`
/// exceeds it. The value depends on sub-millisecond parts, so nothing more is promised.
#[verifier::external_body]
fn remaining(window: Duration, spent: Duration) -> Option<Duration> {
    window.checked_sub(spent)
}

/// How long a batch of `len` items, at most `max`, waits for one more: not at all once it is
/// full or once the window is spent (`left` is `None`), else what is `left` of the window.
pub open spec fn spec_batch_wait(len: usize, max: usize, left: Option<Duration>) -> Option<Duration> {
    if len >= max { None } else { left }
}

/// How long to wait for one more item.
pub fn batch_wait(len: usize, max: usize, left: Option<Duration>) -> (wait: Option<Duration>)
    ensures
        wait == spec_batch_wait(len, max, left),
{
    if len >= max { None } else { left }
}

/// The longest a batch may grow: `max`, or the one item that opened it when `max` is zero.
pub open spec fn batch_cap(max: usize) -> nat {
    if max >= 1 { max as nat } else { 1 }
}

/// The batch the first receive opens: none when it gave nothing, else that item first,
/// followed by every item received within `window` of it, in the order received, up to `max`
/// items in all. Nothing received is left out of the batch.
pub fn fill_batch<T>(inbox: &mut Inbox<T>, first: Option<T>, max: usize, window: Duration) -> (batch: Option<Vec<T>>)
    ensures
        first is None <==> batch is None,
        first is None ==> *final(inbox) == *old(inbox),
        first matches Some(item) ==> batch matches Some(items) && {
            &&& 1 <= items@.len() <= batch_cap(max)
            &&& items@[0] == item
            &&& final(inbox).taken() == old(inbox).taken() + items@.drop_first()
            &&& final(inbox).found_closed() == old(inbox).found_closed()
        },
{
    let first = match first {
        Some(item) => item,
        None => return None,
    };
    let ghost opened = first;
    let ghost start = *inbox;
    let mut batch: Vec<T> = Vec::new();
    batch.push(first);
    let start_time = instant_now();
    assert(batch@.drop_first() =~= Seq::<T>::empty());
    assert(inbox.taken() =~= start.taken() + batch@.drop_first());
    loop
        invariant
            1 <= batch@.len() <= batch_cap(max),
            batch@[0] == opened,
            inbox.taken() == start.taken() + batch@.drop_first(),
            inbox.found_closed() == start.found_closed(),
        decreases batch_cap(max) - batch@.len(),
    {
        let left = remaining(window, elapsed_since(&start_time));
        let wait = match batch_wait(batch.len(), max, left) {
            Some(wait) => wait,
            None => break,
        };
        let ghost before = batch@;
        match recv_timeout(inbox, wait) {
            Some(item) => {
                batch.push(item);
                assert(batch@.drop_first() =~= before.drop_first().push(item));
                assert(inbox.taken() =~= start.taken() + batch@.drop_first());
            },
            None => {
                assert(inbox.taken() =~= start.taken() + batch@.drop_first());
                break;
            },
        }
    }
    Some(batch)
}

/// Take the next batch: up to `max` items (at least the first, whatever `max` is), or whatever
/// has arrived within `window` of the first.
///
/// Blocks indefinitely for the first item and only then opens the window, so a quiet producer
/// never yields an empty batch. `None` exactly when the channel is found disconnected with
/// nothing buffered; a final partial batch comes back whole. Which items arrive, and when, is
/// up to the senders and the clock: whatever they are, a batch is exactly what was received
/// while it was taken, in order — so the batches of successive calls, put together, are
/// everything received, nothing lost, repeated or reordered — never empty, and never longer
/// than `max`, unless `max` is zero, when it holds the one item that opened it.
pub fn next_batch<T>(inbox: &mut Inbox<T>, max: usize, window: Duration) -> (batch: Option<Vec<T>>)
    ensures
        batch is None ==> final(inbox).found_closed() && final(inbox).taken() == old(inbox).taken(),
        batch matches Some(items) ==> {
            &&& 1 <= items@.len() <= batch_cap(max)
            &&& final(inbox).taken() == old(inbox).taken() + items@
            &&& !final(inbox).found_closed()
        },
{
    let ghost start = inbox.taken();
    let first = recv(inbox);
    let ghost got = first;
    let batch = fill_batch(inbox, first, max, window);
    assert(batch matches Some(items) ==> items@ =~= received(got) + items@.drop_first());
    batch
}

/// The batches of successive calls, one after the other.
pub open spec fn joined_batches<T>(batches: Seq<Seq<T>>) -> Seq<T>
    decreases batches.len(),
{
    if batches.len() == 0 {
        Seq::empty()
    } else {
        joined_batches(batches.drop_last()) + batches.last()
    }
}

/// Batching loses, repeats and reorders nothing: where each of a run of calls took exactly its
/// batch out of the channel (as [`next_batch`] ensures), the batches, put together in order,
/// are everything the run received, in the order received. `records` holds what had been
/// received before the run and after each call.
pub proof fn lemma_batches_are_what_was_received<T>(records: Seq<Seq<T>>, batches: Seq<Seq<T>>)
    requires
        records.len() == batches.len() + 1,
        forall|i: int| 0 <= i < batches.len() ==> #[trigger] records[i + 1] == records[i] + batches[i],
    ensures
        records.last() == records[0] + joined_batches(batches),
    decreases batches.len(),
{
    if batches.len() == 0 {
        assert(records[0] + joined_batches(batches) =~= records[0]);
    } else {
        let n = batches.len() - 1;
        lemma_batches_are_what_was_received(records.drop_last(), batches.drop_last());
        assert(records[n + 1] == records[n] + batches[n]);
        assert(records.drop_last().last() == records[n]);
        assert(records[0] + joined_batches(batches) =~= (records[0] + joined_batches(batches.drop_last())) + batches.last());
    }
}

} // verus!
