//! A FIFO between threads whose depth can be read without dequeueing.
//!
//! The transport is the standard library's unbounded multi-producer,
//! single-consumer queue. Next to it the two ends share one atomic counter:
//! a sender adds one after each item the queue accepted, the receiver takes
//! one away after each item it got out.
//!
//! Other threads move the counter and fill or drain the queue at any moment,
//! so the contracts speak of them through relations rather than values: that
//! one was added to a counter or taken off it, that a number was read off
//! it, that two ends belong to one queue. What each handle does itself is
//! recorded in a ghost log: the items it put into the queue, or took out of
//! it, in order. The two ends of a channel, every clone of its sender and
//! every handle on its count hold one and the same counter.

use std::sync::atomic::AtomicUsize;
use std::sync::atomic::Ordering;
use std::sync::mpsc;
use std::sync::Arc;
use vstd::prelude::*;

verus! {

/// `std::sync::mpsc::Sender`, carried as it is: nothing inside it is known
/// here.
#[verifier::external_type_specification]
#[verifier::external_body]
#[verifier::reject_recursive_types(T)]
pub struct ExFifoSender<T>(std::sync::mpsc::Sender<T>);

/// `std::sync::mpsc::Receiver`, carried as it is: nothing inside it is
/// known here.
#[verifier::external_type_specification]
#[verifier::external_body]
#[verifier::reject_recursive_types(T)]
pub struct ExFifoReceiver<T>(std::sync::mpsc::Receiver<T>);

/// The receiver is gone; the item that could not be sent comes back.
#[derive(Debug)]
pub struct SendError<T>(pub T);

/// Every sender is gone and the queue is empty.
#[derive(Clone, Copy, Debug, PartialEq, Eq)]
pub struct RecvError;

/// Why a non-blocking receive handed out nothing.
#[derive(Clone, Copy, Debug, PartialEq, Eq)]
pub enum TryRecvError {
    /// Nothing is queued right now; a sender is still alive.
    Empty,
    /// Every sender is gone and the queue is empty.
    Disconnected,
}

/// The producing end. It can be cloned; all clones feed the same queue and
/// the same counter.
#[verifier::reject_recursive_types(T)]
pub struct Sender<T> {
    mpsc_sender: mpsc::Sender<T>,
    count_ref: Arc<AtomicUsize>,
    accepted: Ghost<Seq<T>>,
}

/// The consuming end.
#[verifier::reject_recursive_types(T)]
pub struct Receiver<T> {
    mpsc_reciever: mpsc::Receiver<T>,
    count_ref: Arc<AtomicUsize>,
    delivered: Ghost<Seq<T>>,
}

/// A read-only handle on a channel's counter, for observers that must not
/// touch the queue.
pub struct ReceiverCount {
    count_ref: Arc<AtomicUsize>,
}

/// `std::sync::mpsc::channel`: a fresh unbounded queue and its two ends.
/// Nothing is claimed of them.
#[verifier::external_body]
fn fifo_channel<T>() -> (ends: (mpsc::Sender<T>, mpsc::Receiver<T>)) {
    mpsc::channel()
}

/// `std::sync::mpsc::Sender::send`. It never blocks. It fails only when the
/// receiver has been dropped, and the error then carries the very item that
/// was handed in; that is all the contract claims.
#[verifier::external_body]
fn fifo_send<T>(sender: &mpsc::Sender<T>, item: T) -> (r: Result<(), T>)
    ensures
        r matches Err(back) ==> back == item,
{
    sender.send(item).map_err(|e| e.0)
}

/// `Clone` of `std::sync::mpsc::Sender`: one more producing end of the same
/// queue. Nothing is claimed of it.
#[verifier::external_body]
fn fifo_clone_sender<T>(sender: &mpsc::Sender<T>) -> (twin: mpsc::Sender<T>) {
    sender.clone()
}

/// `std::sync::mpsc::Receiver::recv`. It waits until an item is queued or
/// the last sender is gone. Which item comes is up to the other threads, so
/// nothing is claimed of the result.
#[verifier::external_body]
fn fifo_recv<T>(receiver: &mpsc::Receiver<T>) -> (r: Result<T, RecvError>) {
    match receiver.recv() {
        Ok(item) => Ok(item),
        Err(mpsc::RecvError) => Err(RecvError),
    }
}

/// `std::sync::mpsc::Receiver::try_recv`. It returns at once. Whether an
/// item is there is up to the other threads, so nothing is claimed of the
/// result.
#[verifier::external_body]
fn fifo_try_recv<T>(receiver: &mpsc::Receiver<T>) -> (r: Result<T, TryRecvError>) {
    match receiver.try_recv() {
        Ok(item) => Ok(item),
        Err(mpsc::TryRecvError::Empty) => Err(TryRecvError::Empty),
        Err(mpsc::TryRecvError::Disconnected) => Err(TryRecvError::Disconnected),
    }
}

/// `counter` is a counter as `AtomicUsize::new` makes it for the value zero.
pub open spec fn starts_at_zero(counter: Arc<AtomicUsize>) -> bool {
    call_ensures(AtomicUsize::new, (0usize,), *counter)
}

/// `value` is a number that a sequentially consistent load of `counter`
/// returns. Which number that is at a given moment is up to the threads that
/// move the counter.
pub open spec fn is_count(counter: Arc<AtomicUsize>, value: usize) -> bool {
    call_ensures(AtomicUsize::load, (&*counter, Ordering::SeqCst), value)
}

/// One was added to `counter`: a sequentially consistent `fetch_add` of one
/// on it returned a number, the count before.
pub open spec fn is_raised(counter: Arc<AtomicUsize>) -> bool {
    exists|before: usize| #[trigger]
        call_ensures(AtomicUsize::fetch_add, (&*counter, 1usize, Ordering::SeqCst), before)
}

/// One was taken off `counter`: a sequentially consistent `fetch_sub` of one
/// on it returned a number, the count before.
pub open spec fn is_lowered(counter: Arc<AtomicUsize>) -> bool {
    exists|before: usize| #[trigger]
        call_ensures(AtomicUsize::fetch_sub, (&*counter, 1usize, Ordering::SeqCst), before)
}

/// The two ends came out of one call of `std::sync::mpsc::channel`: what goes
/// into the one comes out of the other.
pub closed spec fn is_one_queue<T>(
    sending: mpsc::Sender<T>,
    receiving: mpsc::Receiver<T>,
) -> bool {
    call_ensures(fifo_channel::<T>, (), (sending, receiving))
}

/// `twin` is a clone of `sending`: one more producing end of its queue.
pub closed spec fn is_twin<T>(sending: mpsc::Sender<T>, twin: mpsc::Sender<T>) -> bool {
    call_ensures(fifo_clone_sender::<T>, (&sending,), twin)
}

/// A counter at zero.
fn fresh_counter() -> (counter: Arc<AtomicUsize>)
    ensures
        starts_at_zero(counter),
{
    Arc::new(AtomicUsize::new(0))
}

/// One more handle on the same counter: what it hands out is the counter it
/// was given, not a copy of its value.
fn share(counter: &Arc<AtomicUsize>) -> (twin: Arc<AtomicUsize>)
    ensures
        twin == *counter,
{
    counter.clone()
}

/// Adds one to the counter, sequentially consistent.
fn increment(counter: &Arc<AtomicUsize>)
    ensures
        is_raised(*counter),
{
    counter.fetch_add(1, Ordering::SeqCst);
}

/// Takes one off the counter, sequentially consistent.
fn decrement(counter: &Arc<AtomicUsize>)
    ensures
        is_lowered(*counter),
{
    counter.fetch_sub(1, Ordering::SeqCst);
}

/// The counter's value at this moment, sequentially consistent.
fn read(counter: &Arc<AtomicUsize>) -> (value: usize)
    ensures
        is_count(*counter, value),
{
    counter.load(Ordering::SeqCst)
}

/// What a send through a handle with log `before` and counter `counter`
/// leaves behind: on success the log grows by the item and one was added to
/// the counter, on failure the item comes back and the log stays.
pub open spec fn send_outcome<T>(
    before: Seq<T>,
    counter: Arc<AtomicUsize>,
    item: T,
    after: Seq<T>,
    r: Result<(), SendError<T>>,
) -> bool {
    match r {
        Ok(()) => after == before.push(item) && is_raised(counter),
        Err(e) => e.0 == item && after == before,
    }
}

/// What a receive on a handle with log `before` and counter `counter` leaves
/// behind: an item that came out is appended to the log and one was taken
/// off the counter, an error leaves the log as it was.
pub open spec fn receive_outcome<T, E>(
    before: Seq<T>,
    counter: Arc<AtomicUsize>,
    after: Seq<T>,
    r: Result<T, E>,
) -> bool {
    match r {
        Ok(item) => after == before.push(item) && is_lowered(counter),
        Err(_) => after == before,
    }
}

/// A new channel with its counter at zero. Neither end has moved an item
/// yet, and both ends hold the same counter and the same queue.
pub fn channel<T>() -> (ends: (Sender<T>, Receiver<T>))
    ensures
        ends.0.accepted() == Seq::<T>::empty(),
        ends.1.delivered() == Seq::<T>::empty(),
        ends.0.counter() == ends.1.counter(),
        starts_at_zero(ends.1.counter()),
        is_one_queue(ends.0.queue(), ends.1.queue()),
{
    let count_ref = fresh_counter();
    let count_ref_clone = share(&count_ref);
    let (mpsc_sender, mpsc_receiver) = fifo_channel();
    (
        Sender { mpsc_sender, count_ref, accepted: Ghost(Seq::empty()) },
        Receiver {
            mpsc_reciever: mpsc_receiver,
            count_ref: count_ref_clone,
            delivered: Ghost(Seq::empty()),
        },
    )
}

impl<T> Sender<T> {
    /// The items that the queue accepted from this handle, oldest first.
    pub closed spec fn accepted(&self) -> Seq<T> {
        self.accepted@
    }

    /// The counter that this handle moves and reads.
    pub closed spec fn counter(&self) -> Arc<AtomicUsize> {
        self.count_ref
    }

    /// The producing end of the queue that this handle feeds.
    pub closed spec fn queue(&self) -> mpsc::Sender<T> {
        self.mpsc_sender
    }

    /// Books what the queue said to `item` and hands it on. When the queue
    /// took the item, one is added to the counter and the item goes into
    /// the log; when it handed the item back, the item goes into the error
    /// and neither counter nor log is touched.
    fn book(&mut self, Ghost(item): Ghost<T>, outcome: Result<(), T>) -> (r: Result<
        (),
        SendError<T>,
    >)
        ensures
            match outcome {
                Ok(()) => {
                    &&& r is Ok
                    &&& final(self).accepted() == old(self).accepted().push(item)
                    &&& is_raised(old(self).counter())
                },
                Err(back) => {
                    &&& r == Err::<(), SendError<T>>(SendError(back))
                    &&& final(self).accepted() == old(self).accepted()
                },
            },
            final(self).counter() == old(self).counter(),
            final(self).queue() == old(self).queue(),
    {
        match outcome {
            Ok(()) => {
                increment(&self.count_ref);
                self.accepted = Ghost(self.accepted@.push(item));
                Ok(())
            },
            Err(back) => Err(SendError(back)),
        }
    }

    /// Enqueues `item`. When the queue took it, the counter goes up by one
    /// afterwards. When the receiver is gone the item comes back in the
    /// error and the counter is not touched. Whether the queue takes the
    /// item is up to the receiver.
    pub fn send(&mut self, item: T) -> (r: Result<(), SendError<T>>)
        ensures
            send_outcome(
                old(self).accepted(),
                old(self).counter(),
                item,
                final(self).accepted(),
                r,
            ),
            final(self).counter() == old(self).counter(),
            final(self).queue() == old(self).queue(),
    {
        let outcome = fifo_send(&self.mpsc_sender, item);
        self.book(Ghost(item), outcome)
    }

    /// The counter as it stands at this moment: what a sequentially
    /// consistent load of this handle's counter returns. Other threads move
    /// the counter, so no more is promised of the number.
    pub fn get_count(&self) -> (count: usize)
        ensures
            is_count(self.counter(), count),
    {
        read(&self.count_ref)
    }
}

impl<T> Clone for Sender<T> {
    /// One more producing end of the same queue and counter. It has not sent
    /// anything yet.
    fn clone(&self) -> (twin: Self)
        ensures
            twin.accepted() == Seq::<T>::empty(),
            twin.counter() == self.counter(),
            is_twin(self.queue(), twin.queue()),
    {
        Sender {
            mpsc_sender: fifo_clone_sender(&self.mpsc_sender),
            count_ref: share(&self.count_ref),
            accepted: Ghost(Seq::empty()),
        }
    }
}

impl<T> Receiver<T> {
    /// The items that came out of the queue through this handle, oldest
    /// first.
    pub closed spec fn delivered(&self) -> Seq<T> {
        self.delivered@
    }

    /// The counter that this handle moves and reads.
    pub closed spec fn counter(&self) -> Arc<AtomicUsize> {
        self.count_ref
    }

    /// The consuming end of the queue that this handle draws from.
    pub closed spec fn queue(&self) -> mpsc::Receiver<T> {
        self.mpsc_reciever
    }

    /// Books what the queue handed out and hands it on as it came. An item
    /// takes one off the counter and goes into the log; an error touches
    /// neither.
    fn book<E>(&mut self, arrival: Result<T, E>) -> (r: Result<T, E>)
        ensures
            r == arrival,
            receive_outcome(
                old(self).delivered(),
                old(self).counter(),
                final(self).delivered(),
                arrival,
            ),
            final(self).counter() == old(self).counter(),
            final(self).queue() == old(self).queue(),
    {
        match arrival {
            Ok(item) => {
                decrement(&self.count_ref);
                self.delivered = Ghost(self.delivered@.push(item));
                Ok(item)
            },
            Err(e) => Err(e),
        }
    }

    /// Waits for the next item. When one came out, the counter goes down by
    /// one afterwards. When the channel is closed and empty the counter is
    /// not touched. Whether an item comes is up to the senders.
    pub fn recv(&mut self) -> (r: Result<T, RecvError>)
        ensures
            receive_outcome(
                old(self).delivered(),
                old(self).counter(),
                final(self).delivered(),
                r,
            ),
            final(self).counter() == old(self).counter(),
            final(self).queue() == old(self).queue(),
    {
        let arrival = fifo_recv(&self.mpsc_reciever);
        self.book(arrival)
    }

    /// Takes the next item if one is queued, without waiting. When one came
    /// out, the counter goes down by one afterwards; otherwise it is not
    /// touched. Whether an item is there is up to the senders.
    pub fn try_recv(&mut self) -> (r: Result<T, TryRecvError>)
        ensures
            receive_outcome(
                old(self).delivered(),
                old(self).counter(),
                final(self).delivered(),
                r,
            ),
            final(self).counter() == old(self).counter(),
            final(self).queue() == old(self).queue(),
    {
        let arrival = fifo_try_recv(&self.mpsc_reciever);
        self.book(arrival)
    }

    /// The counter as it stands at this moment: what a sequentially
    /// consistent load of this handle's counter returns. Other threads move
    /// the counter, so no more is promised of the number.
    pub fn get_count(&self) -> (count: usize)
        ensures
            is_count(self.counter(), count),
    {
        read(&self.count_ref)
    }

    /// A handle on the counter alone: it reads the very counter that this
    /// receiver and its senders move.
    pub fn clone_count(&self) -> (handle: ReceiverCount)
        ensures
            handle.counter() == self.counter(),
    {
        ReceiverCount { count_ref: share(&self.count_ref) }
    }
}

impl ReceiverCount {
    /// The counter that this handle reads.
    pub closed spec fn counter(&self) -> Arc<AtomicUsize> {
        self.count_ref
    }

    /// The counter as it stands at this moment: what a sequentially
    /// consistent load of this handle's counter returns. Other threads move
    /// the counter, so no more is promised of the number.
    pub fn get_count(&self) -> (count: usize)
        ensures
            is_count(self.counter(), count),
    {
        read(&self.count_ref)
    }
}

} // verus!
