//! A sequential model of the channel, and proofs of its laws.
//!
//! A channel's whole observable state is the shared FIFO queue, the
//! receiver's private local buffer, and the count of live senders.  Because
//! every mutation of the shared part happens inside one critical section,
//! any concurrent run of the channel is equivalent to some interleaving of
//! the atomic steps below, taken in the order their lock acquisitions were
//! granted.  The lemmas here therefore speak for every such interleaving:
//! what one send does, what one receive step does, and what a whole drain
//! yields.

use vstd::prelude::*;

verus! {

/// The state of one channel: the pending values in the shared queue (oldest
/// first), the values in the receiver's local buffer (oldest first), and the
/// number of live sender handles.
pub struct ChannelModel<T> {
    pub queue: Seq<T>,
    pub buffer: Seq<T>,
    pub senders: nat,
}

/// What one receive step reports.
pub enum RecvOutcome<T> {
    /// A value was handed out.
    Delivered(T),
    /// Permanent end-of-stream: nothing pending anywhere and no sender left.
    EndOfStream,
    /// Nothing pending but senders remain: the receiver must block and
    /// re-check after a wakeup.
    MustWait,
}

/// The state of a freshly created channel: nothing pending, one sender.
pub open spec fn initial_model<T>() -> ChannelModel<T> {
    ChannelModel { queue: Seq::empty(), buffer: Seq::empty(), senders: 1 }
}

/// The channel is permanently closed: no value will ever be delivered again.
pub open spec fn closed<T>(m: ChannelModel<T>) -> bool {
    m.senders == 0 && m.queue.len() == 0 && m.buffer.len() == 0
}

/// One send: the value goes to the tail of the shared queue.  Sending never
/// blocks and never fails, whether or not a receiver remains.
pub open spec fn send_step<T>(m: ChannelModel<T>, t: T) -> ChannelModel<T> {
    ChannelModel { queue: m.queue.push(t), ..m }
}

/// Cloning a sender raises the live count by one, under the lock.
pub open spec fn clone_step<T>(m: ChannelModel<T>) -> ChannelModel<T> {
    ChannelModel { senders: m.senders + 1, ..m }
}

/// Disposing a sender lowers the live count by one, under the lock.
pub open spec fn dispose_step<T>(m: ChannelModel<T>) -> ChannelModel<T>
    recommends
        m.senders > 0,
{
    ChannelModel { senders: (m.senders - 1) as nat, ..m }
}

/// One receive step, exactly as `Receiver::recv` decides it: drain the local
/// buffer front-first without locking; otherwise swap the whole shared queue
/// into the buffer and deliver its front; otherwise report end-of-stream if
/// no sender remains, or wait.
pub open spec fn recv_step<T>(m: ChannelModel<T>) -> (ChannelModel<T>, RecvOutcome<T>) {
    if m.buffer.len() > 0 {
        (ChannelModel { buffer: m.buffer.skip(1), ..m }, RecvOutcome::Delivered(m.buffer[0]))
    } else if m.queue.len() > 0 {
        (
            ChannelModel { queue: Seq::empty(), buffer: m.queue.skip(1), ..m },
            RecvOutcome::Delivered(m.queue[0]),
        )
    } else if m.senders == 0 {
        (m, RecvOutcome::EndOfStream)
    } else {
        (m, RecvOutcome::MustWait)
    }
}

/// A run of sends, oldest first, in the order the lock was granted.
pub open spec fn send_all<T>(m: ChannelModel<T>, ts: Seq<T>) -> ChannelModel<T>
    decreases ts.len(),
{
    if ts.len() == 0 {
        m
    } else {
        send_all(send_step(m, ts[0]), ts.skip(1))
    }
}

/// Everything the receiver can drain from the state without further sends:
/// the values delivered by repeated receive steps, in delivery order, up to
/// the first step that would wait or report end-of-stream.
pub open spec fn drain<T>(m: ChannelModel<T>) -> Seq<T>
    decreases m.buffer.len() + m.queue.len(),
{
    if m.buffer.len() > 0 || m.queue.len() > 0 {
        match recv_step(m) {
            (next, RecvOutcome::Delivered(v)) => seq![v] + drain(next),
            _ => Seq::empty(),
        }
    } else {
        Seq::empty()
    }
}

/// Iterated receive steps, keeping only the state.
pub open spec fn recv_iter<T>(m: ChannelModel<T>, k: nat) -> ChannelModel<T>
    decreases k,
{
    if k == 0 {
        m
    } else {
        recv_step(recv_iter(m, (k - 1) as nat)).0
    }
}

/// Draining a state yields exactly the buffered values followed by the
/// queued values, in order: nothing is lost, duplicated, or reordered on the
/// way from the shared queue through the local buffer to the caller.
pub proof fn lemma_drain_exact<T>(m: ChannelModel<T>)
    ensures
        drain(m) == m.buffer + m.queue,
    decreases m.buffer.len() + m.queue.len(),
{
    if m.buffer.len() > 0 {
        let next = recv_step(m).0;
        lemma_drain_exact(next);
        assert(drain(m) =~= m.buffer + m.queue);
    } else if m.queue.len() > 0 {
        let next = recv_step(m).0;
        lemma_drain_exact(next);
        assert(drain(m) =~= m.buffer + m.queue);
    } else {
        assert(drain(m) =~= m.buffer + m.queue);
    }
}

/// A run of sends appends its values, in lock-grant order, to the tail of
/// the shared queue, and touches neither the buffer nor the sender count.
pub proof fn lemma_send_all_appends<T>(m: ChannelModel<T>, ts: Seq<T>)
    ensures
        send_all(m, ts).queue == m.queue + ts,
        send_all(m, ts).buffer == m.buffer,
        send_all(m, ts).senders == m.senders,
    decreases ts.len(),
{
    if ts.len() == 0 {
        assert(send_all(m, ts).queue =~= m.queue + ts);
    } else {
        lemma_send_all_appends(send_step(m, ts[0]), ts.skip(1));
        assert(m.queue.push(ts[0]) + ts.skip(1) =~= m.queue + ts);
    }
}

/// For any interleaving of sends across any number of producers followed by
/// enough receives, what comes out is exactly what went in: the pending
/// values, then the sent values in lock-grant order.  In particular the
/// multiset of received values equals the multiset sent — no loss, no
/// duplication — and any subsequence of the interleaving, such as one
/// producer's sends, keeps its relative order in the output.
pub proof fn lemma_sends_then_drain<T>(m: ChannelModel<T>, ts: Seq<T>)
    ensures
        drain(send_all(m, ts)) == (m.buffer + m.queue) + ts,
        drain(send_all(m, ts)).to_multiset() == ((m.buffer + m.queue) + ts).to_multiset(),
{
    lemma_send_all_appends(m, ts);
    lemma_drain_exact(send_all(m, ts));
    assert(send_all(m, ts).buffer + send_all(m, ts).queue =~= (m.buffer + m.queue) + ts);
}

/// On a fresh channel the round trip is the identity: send a run of values,
/// receive them all, and the output is that run, value for value.
pub proof fn lemma_round_trip<T>(ts: Seq<T>)
    ensures
        drain(send_all(initial_model::<T>(), ts)) == ts,
        drain(send_all(initial_model::<T>(), ts)).to_multiset() == ts.to_multiset(),
{
    lemma_sends_then_drain(initial_model::<T>(), ts);
    assert((initial_model::<T>().buffer + initial_model::<T>().queue) + ts =~= ts);
}

/// One send on an idle channel followed by one receive delivers exactly the
/// value sent.
pub proof fn lemma_send_one_recv_one<T>(m: ChannelModel<T>, t: T)
    requires
        m.buffer.len() == 0,
        m.queue.len() == 0,
    ensures
        recv_step(send_step(m, t)).1 == RecvOutcome::Delivered(t),
        recv_step(send_step(m, t)).0.buffer.len() == 0,
        recv_step(send_step(m, t)).0.queue.len() == 0,
{
    assert(send_step(m, t).queue[0] == t);
}

/// Disposing the last sender while nothing is pending closes the channel:
/// the very next receive step reports end-of-stream instead of waiting.
pub proof fn lemma_last_dispose_closes<T>(m: ChannelModel<T>)
    requires
        m.senders == 1,
        m.queue.len() == 0,
        m.buffer.len() == 0,
    ensures
        closed(dispose_step(m)),
        recv_step(dispose_step(m)).1 is EndOfStream,
{
}

/// While any sender is alive, a receive on an empty channel waits: it never
/// reports end-of-stream early and never fabricates a value.
pub proof fn lemma_open_channel_waits<T>(m: ChannelModel<T>)
    requires
        m.senders > 0,
        m.queue.len() == 0,
        m.buffer.len() == 0,
    ensures
        recv_step(m).1 is MustWait,
        recv_step(m).0 == m,
{
}

/// Cloning a sender keeps the channel open: after the clone the live count
/// is positive, so an empty channel waits instead of closing.
pub proof fn lemma_clone_keeps_open<T>(m: ChannelModel<T>)
    requires
        m.queue.len() == 0,
        m.buffer.len() == 0,
    ensures
        recv_step(clone_step(m)).1 is MustWait,
{
}

/// End-of-stream is terminal and idempotent: it is reported exactly in the
/// closed state, the state does not change, and every later receive step
/// reports it again.  There is no transition back to an open state.
pub proof fn lemma_end_of_stream_terminal<T>(m: ChannelModel<T>)
    requires
        recv_step(m).1 is EndOfStream,
    ensures
        closed(m),
        recv_step(m).0 == m,
        recv_step(recv_step(m).0).1 is EndOfStream,
{
}

/// Two sends that were granted the lock in either order are both delivered:
/// a receive blocked on the empty channel gets one of the two values, and
/// the next receive gets the other.  Which order holds is whatever order
/// the lock was granted in; no third outcome exists.
pub proof fn lemma_two_sends_both_arrive<T>(m: ChannelModel<T>, a: T, b: T)
    requires
        m.buffer.len() == 0,
        m.queue.len() == 0,
    ensures
        drain(send_all(m, seq![a, b])) == seq![a, b],
        drain(send_all(m, seq![b, a])) == seq![b, a],
{
    lemma_sends_then_drain(m, seq![a, b]);
    assert((m.buffer + m.queue) + seq![a, b] =~= seq![a, b]);
    lemma_sends_then_drain(m, seq![b, a]);
    assert((m.buffer + m.queue) + seq![b, a] =~= seq![b, a]);
}

/// The batching optimization: with an empty local buffer and N pending
/// values, the first receive performs the single locked swap, and each of
/// the N-1 receives after it finds the local buffer non-empty — the
/// fast path that acquires no lock at all.  Retrieving the whole batch costs
/// one lock acquisition.
pub proof fn lemma_batch_needs_one_lock<T>(m: ChannelModel<T>, k: nat)
    requires
        m.buffer.len() == 0,
        m.queue.len() > 0,
        1 <= k < m.queue.len(),
    ensures
        recv_iter(m, k).queue.len() == 0,
        recv_iter(m, k).buffer == m.queue.skip(k as int),
        recv_iter(m, k).buffer.len() > 0,
        recv_step(recv_iter(m, k)).1 == RecvOutcome::Delivered(m.queue[k as int]),
    decreases k,
{
    if k == 1 {
        assert(recv_iter(m, 1) == recv_step(recv_iter(m, 0)).0);
        assert(recv_iter(m, 0) == m);
    } else {
        lemma_batch_needs_one_lock(m, (k - 1) as nat);
        let prev = recv_iter(m, (k - 1) as nat);
        assert(prev.buffer == m.queue.skip(k - 1));
        assert(recv_iter(m, k) == recv_step(prev).0);
        assert(m.queue.skip(k - 1).skip(1) =~= m.queue.skip(k as int));
    }
}

} // verus!
