//! A multi-producer, single-consumer, unbounded channel.
//!
//! Producers hand values to the single consumer without ever blocking; the
//! consumer blocks until a value is available or every producer is gone.
//! The shared state — a FIFO queue of pending values and a count of live
//! senders — lives behind one mutex with one paired condition variable, and
//! is reference-counted so it is freed exactly once, when the last handle
//! (sender or receiver) is disposed.
//!
//! The synchronization itself cannot be checked by the verifier, so it is
//! confined to the small trusted [`Shared`] core below.  Every decision the
//! channel makes — draining the local buffer front-first, installing a
//! drained batch, declaring end-of-stream — is verified code with an exact
//! contract, and the same algorithm is modelled and proved whole in
//! [`crate::model`].

use std::collections::VecDeque;
use std::sync::{Arc, Condvar, Mutex};
use vstd::prelude::*;

verus! {

/// The lock-protected core shared by every handle of one channel: the FIFO
/// queue of pending values paired with the count of live senders, both only
/// ever touched while the mutex is held, plus the condition variable the
/// receiver waits on.
///
/// Trusted: relies on `std::sync::Mutex` for mutual exclusion, on
/// `std::sync::Condvar` for blocking (`wait` atomically releases the mutex
/// and reacquires it before returning), and on `std::sync::Arc` to free the
/// state exactly once, when the last handle is dropped.  The verifier sees a
/// value of this type as opaque: nothing sequential can be promised about
/// contents that another thread may change between two calls, so the methods
/// below state only what holds of every outcome.
#[verifier::external_body]
#[verifier::reject_recursive_types(T)]
struct Shared<T> {
    sync: Arc<(Mutex<(VecDeque<T>, usize)>, Condvar)>,
}

impl<T> Shared<T> {
    /// Trusted: builds the state with an empty queue and a sender count of
    /// one, for the first sender.
    #[verifier::external_body]
    fn new_shared() -> Shared<T> {
        Shared { sync: Arc::new((Mutex::new((VecDeque::new(), 1)), Condvar::new())) }
    }

    /// Trusted: one more handle to the same state, with the sender count
    /// raised by one under the lock.  The lock is what keeps this increment
    /// from racing a concurrent disposal's decrement-and-test.
    #[verifier::external_body]
    fn clone_for_sender(&self) -> Shared<T> {
        let mut guard = self.sync.0.lock().unwrap();
        guard.1 += 1;
        drop(guard);
        Shared { sync: Arc::clone(&self.sync) }
    }

    /// Trusted: one more handle to the same state with no count change; the
    /// receiver is not a sender.
    #[verifier::external_body]
    fn clone_for_receiver(&self) -> Shared<T> {
        Shared { sync: Arc::clone(&self.sync) }
    }

    /// Trusted: under the lock, lowers the sender count by one; if this was
    /// the last sender, wakes the receiver after releasing the lock so that
    /// a blocked receive re-checks and discovers permanent closure.
    #[verifier::external_body]
    fn release_sender(&self)
        opens_invariants none
        no_unwind
    {
        let mut guard = self.sync.0.lock().unwrap();
        guard.1 -= 1;
        let was_last = guard.1 == 0;
        drop(guard);
        if was_last {
            self.sync.1.notify_one();
        }
    }

    /// Trusted: under the lock, appends `t` to the tail of the shared queue,
    /// then wakes one waiter.  Never blocks beyond the bounded critical
    /// section and never fails, whether or not a receiver still exists.
    #[verifier::external_body]
    fn enqueue(&self, t: T) {
        let mut guard = self.sync.0.lock().unwrap();
        guard.0.push_back(t);
        drop(guard);
        self.sync.1.notify_one();
    }

    /// Trusted: blocks until something is pending or no sender remains,
    /// then, still in that critical section, moves the whole pending queue
    /// out (an O(1) swap with an empty queue, never element by element) and
    /// reads the sender count.  The emptiness check happens with the lock
    /// held and `Condvar::wait` releases that same lock atomically, so no
    /// notification can slip between the check and the sleep; a spurious
    /// wakeup merely re-checks.  Which values come back depends on what
    /// other threads did first, so nothing is promised of the batch itself;
    /// but the loop only stops while the queue is non-empty or the count is
    /// zero, and that still holds when the swap happens under the same lock,
    /// which is the one clause stated.
    #[verifier::external_body]
    fn recv_pending(&self) -> (r: (VecDeque<T>, usize))
        ensures
            r.0@.len() == 0 ==> r.1 == 0,
    {
        let mut guard = self.sync.0.lock().unwrap();
        while guard.0.is_empty() && guard.1 > 0 {
            guard = self.sync.1.wait(guard).unwrap();
        }
        let batch = std::mem::take(&mut guard.0);
        (batch, guard.1)
    }
}

/// A cloneable producer handle.  `send` never blocks and never fails; each
/// live handle holds the channel open, and disposing the last one closes it.
#[verifier::reject_recursive_types(T)]
pub struct Sender<T> {
    shared: Shared<T>,
    log: Ghost<Seq<T>>,
}

impl<T> Sender<T> {
    /// The values sent through this particular handle, oldest first.  Their
    /// relative order is exactly the order in which this handle's `send`
    /// calls were granted the lock, so it is preserved end to end.
    pub closed spec fn sent(&self) -> Seq<T> {
        self.log@
    }

    /// Appends `t` to the tail of the shared queue and wakes one waiter.
    ///
    /// Never blocks beyond the bounded critical section, and succeeds even
    /// if the receiver is gone (the value is then simply never observed).
    pub fn send(&mut self, t: T)
        ensures
            final(self).sent() == old(self).sent().push(t),
    {
        self.shared.enqueue(t);
        self.log = Ghost(self.log@.push(t));
    }
}

impl<T> Clone for Sender<T> {
    /// A further producer handle on the same channel; the live-sender count
    /// rises by one under the lock.  The new handle starts its own send log.
    fn clone(&self) -> (r: Self)
        ensures
            r.sent() == Seq::<T>::empty(),
    {
        Sender { shared: self.shared.clone_for_sender(), log: Ghost(Seq::empty()) }
    }
}

impl<T> Drop for Sender<T> {
    /// Disposing a sender lowers the live-sender count; the last one to go
    /// wakes the receiver so a blocked receive can report end-of-stream.
    fn drop(&mut self)
        opens_invariants none
        no_unwind
    {
        self.shared.release_sender();
    }
}

/// The sole consumer handle.  Not cloneable: exactly one receiver exists for
/// a channel, which is what makes its local buffer safe to use without a
/// lock.
#[verifier::reject_recursive_types(T)]
pub struct Receiver<T> {
    shared: Shared<T>,
    buffer: VecDeque<T>,
    taken: Ghost<Seq<T>>,
}

impl<T> Receiver<T> {
    /// The receiver's private local buffer: values already drained from the
    /// shared queue but not yet handed to the caller, oldest first.
    pub closed spec fn pending(&self) -> Seq<T> {
        self.buffer@
    }

    /// Everything this receiver has handed out so far, oldest first.
    pub closed spec fn received(&self) -> Seq<T> {
        self.taken@
    }

    /// Installs a batch drained from the shared queue as the new local
    /// buffer and delivers its front value.  This is the verified half of
    /// the batching optimization: the trusted swap says nothing about which
    /// values it hands over, and this function states exactly what happens
    /// to every batch it could hand over.
    pub fn accept_batch(&mut self, batch: VecDeque<T>) -> (r: Option<T>)
        requires
            old(self).pending().len() == 0,
        ensures
            batch@.len() > 0 ==> ({
                &&& r == Some(batch@[0])
                &&& final(self).pending() == batch@.skip(1)
                &&& final(self).received() == old(self).received().push(batch@[0])
            }),
            batch@.len() == 0 ==> ({
                &&& r is None
                &&& final(self).pending() == old(self).pending()
                &&& final(self).received() == old(self).received()
            }),
    {
        self.buffer = batch;
        let front = self.buffer.pop_front();
        match front {
            Some(v) => {
                proof {
                    assert(self.buffer@ =~= batch@.skip(1));
                }
                self.taken = Ghost(self.taken@.push(v));
                Some(v)
            },
            None => None,
        }
    }

    /// Receives the next value, or reports end-of-stream with `None` once
    /// no value is pending anywhere and no sender remains — and keeps
    /// reporting it thereafter.
    ///
    /// A non-empty local buffer is drained front-first with no locking at
    /// all.  Otherwise one locked step — blocking while the queue is empty
    /// and senders remain — swaps the whole pending queue over (so a burst
    /// of N values costs one lock acquisition, not N) or comes back empty
    /// exactly when no sender remains, which is permanent end-of-stream.
    /// Which value arrives on that path depends on the order in which
    /// concurrent senders were granted the lock, so the contract promises a
    /// batch exists rather than naming it; [`crate::model::recv_step`]
    /// states the same algorithm over a known state.
    pub fn recv(&mut self) -> (r: Option<T>)
        ensures
            old(self).pending().len() > 0 ==> ({
                &&& r == Some(old(self).pending()[0])
                &&& final(self).pending() == old(self).pending().skip(1)
            }),
            old(self).pending().len() == 0 ==> (match r {
                Some(v) => exists|b: Seq<T>|
                    #![auto]
                    b.len() > 0 && v == b[0] && final(self).pending() == b.skip(1),
                None => final(self).pending().len() == 0,
            }),
            (match r {
                Some(v) => final(self).received() == old(self).received().push(v),
                None => final(self).received() == old(self).received(),
            }),
    {
        if self.buffer.len() > 0 {
            let v = self.buffer.pop_front().unwrap();
            proof {
                assert(self.buffer@ =~= old(self).pending().skip(1));
            }
            self.taken = Ghost(self.taken@.push(v));
            return Some(v);
        }
        let (batch, _senders) = self.shared.recv_pending();
        if batch.len() > 0 {
            self.accept_batch(batch)
        } else {
            None
        }
    }
}

/// Creates a channel: the shared state starts with an empty queue and a
/// live-sender count of one, and exactly one sender and the sole receiver
/// are handed back.
pub fn channel<T>() -> (r: (Sender<T>, Receiver<T>))
    ensures
        r.0.sent().len() == 0,
        r.1.pending().len() == 0,
        r.1.received().len() == 0,
{
    let shared = Shared::new_shared();
    let receiver_shared = shared.clone_for_receiver();
    (
        Sender { shared, log: Ghost(Seq::empty()) },
        Receiver { shared: receiver_shared, buffer: VecDeque::new(), taken: Ghost(Seq::empty()) },
    )
}

} // verus!
