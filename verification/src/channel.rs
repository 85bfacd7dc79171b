//! An unbounded multi-producer/single-consumer channel.
//!
//! Many cloned senders feed one receiver. Each sender's messages arrive in
//! the order that sender sent them, while the interleaving between distinct
//! senders is timing-dependent and deliberately unspecified. Every sender
//! handle carries its own send history as [`Sender::sent`], and the spec
//! functions below model the delivery guarantee: what the receiver drains is
//! an interleaving of the per-sender histories, and the law
//! [`lemma_interleaving_delivers_all`] shows that any such interleaving
//! delivers every message exactly once.

use vstd::prelude::*;

use crate::chunk::total_len;
use crate::errors::CoordError;

verus! {

/// The raw sending handle; opaque.
#[verifier::external_body]
#[verifier::reject_recursive_types(T)]
struct RawSender<T> {
    inner: std::sync::mpsc::Sender<T>,
}

impl<T> RawSender<T> {
    /// Relies on std::sync::mpsc::Sender::send: buffering is unbounded, so a
    /// send fails only when the receiver was dropped, and then it hands the
    /// rejected value back unchanged.
    #[verifier::external_body]
    fn send_raw(&self, value: T) -> (r: Result<(), T>)
        ensures
            r matches Err(v) ==> v == value,
    {
        match self.inner.send(value) {
            Ok(()) => Ok(()),
            Err(e) => Err(e.0),
        }
    }

    /// Relies on std::sync::mpsc::Sender::clone: the new handle feeds the
    /// same queue and raises the channel's sender count by one.
    #[verifier::external_body]
    fn clone_raw(&self) -> RawSender<T> {
        RawSender { inner: self.inner.clone() }
    }
}

/// The sending half of the channel; cloning it adds another producer.
///
/// A handle remembers, as the ghost sequence [`Sender::sent`], every value
/// it queued successfully, in order. The channel delivers those values to
/// the receiver in exactly that per-handle order.
#[verifier::reject_recursive_types(T)]
pub struct Sender<T> {
    raw: RawSender<T>,
    history: Ghost<Seq<T>>,
}

/// The raw receiving handle; opaque.
#[verifier::external_body]
#[verifier::reject_recursive_types(T)]
struct RawReceiver<T> {
    inner: std::sync::mpsc::Receiver<T>,
}

impl<T> RawReceiver<T> {
    /// Relies on std::sync::mpsc::Receiver::recv: blocks until a message is
    /// available and yields it, or reports the end of the stream with `None`
    /// once every sender was dropped and the buffer is empty.
    #[verifier::external_body]
    fn recv_raw(&self) -> Option<T> {
        match self.inner.recv() {
            Ok(v) => Some(v),
            Err(_) => None,
        }
    }
}

/// The receiving half of the channel; there is exactly one.
///
/// It remembers, as the ghost sequence [`Receiver::taken`], every value it
/// has yielded, in arrival order.
#[verifier::reject_recursive_types(T)]
pub struct Receiver<T> {
    raw: RawReceiver<T>,
    drained: Ghost<Seq<T>>,
}

/// Relies on std::sync::mpsc::channel: a fresh unbounded FIFO queue with one
/// sending and one receiving handle.
#[verifier::external_body]
fn channel_raw<T>() -> (RawSender<T>, RawReceiver<T>) {
    let (tx, rx) = std::sync::mpsc::channel();
    (RawSender { inner: tx }, RawReceiver { inner: rx })
}

/// A fresh channel: a sender and a receiver whose histories are empty.
pub fn channel<T>() -> (r: (Sender<T>, Receiver<T>))
    ensures
        r.0.sent() == Seq::<T>::empty(),
        r.1.taken() == Seq::<T>::empty(),
{
    let (raw_tx, raw_rx) = channel_raw();
    (
        Sender { raw: raw_tx, history: Ghost(Seq::empty()) },
        Receiver { raw: raw_rx, drained: Ghost(Seq::empty()) },
    )
}

impl<T> Sender<T> {
    /// Every value this handle queued successfully, in send order.
    pub closed spec fn sent(&self) -> Seq<T> {
        self.history@
    }

    /// Queues `value` for the receiver; never blocks.
    ///
    /// On success the value joins this handle's send history. The only
    /// possible failure is [`CoordError::ChannelClosed`], raised when the
    /// receiver was already dropped; whether it is raised depends on the
    /// receiver's lifetime, which this side cannot observe.
    pub fn send(&mut self, value: T) -> (r: Result<(), CoordError>)
        ensures
            r is Ok ==> final(self).sent() == old(self).sent().push(value),
            r is Err ==> final(self).sent() == old(self).sent(),
            r matches Err(e) ==> e == CoordError::ChannelClosed,
    {
        match self.raw.send_raw(value) {
            Ok(()) => {
                self.history = Ghost(self.history@.push(value));
                Ok(())
            },
            Err(_rejected) => Err(CoordError::ChannelClosed),
        }
    }

    /// Another sender on the same queue; its own send history starts empty.
    pub fn clone_handle(&self) -> (r: Sender<T>)
        ensures
            r.sent() == Seq::<T>::empty(),
    {
        Sender { raw: self.raw.clone_raw(), history: Ghost(Seq::empty()) }
    }
}

impl<T> Receiver<T> {
    /// Every value this receiver has yielded, in arrival order.
    pub closed spec fn taken(&self) -> Seq<T> {
        self.drained@
    }

    /// Blocks until a message is available and yields it, or reports the
    /// end of the stream with `None` once every sender was dropped and the
    /// buffer is empty. A yielded value joins [`Receiver::taken`]; which
    /// value arrives depends on the senders' timing, so nothing can be
    /// pinned about it here.
    pub fn recv(&mut self) -> (r: Option<T>)
        ensures
            r matches Some(v) ==> final(self).taken() == old(self).taken().push(v),
            r is None ==> final(self).taken() == old(self).taken(),
    {
        match self.raw.recv_raw() {
            Some(v) => {
                self.drained = Ghost(self.drained@.push(v));
                Some(v)
            },
            None => None,
        }
    }

    /// Relies on std::sync::mpsc::Receiver::iter: it blocks for each next
    /// message and finishes once every sender was dropped and the buffer was
    /// drained, so this returns the rest of the stream in arrival order, all
    /// of it joining [`Receiver::taken`]. The received values depend on the
    /// senders' timing, so nothing can be pinned about them here; the
    /// delivery guarantee is stated by [`lemma_interleaving_delivers_all`].
    #[verifier::external_body]
    pub fn recv_until_closed(&mut self) -> (r: Vec<T>)
        ensures
            final(self).taken() == old(self).taken() + r@,
    {
        let drained: Vec<T> = self.raw.inner.iter().collect();
        drained
    }
}

/// The subsequence of `received` that came from sender `s`, where `lanes[k]`
/// names the sender of `received[k]`; order of arrival is kept.
pub open spec fn sent_by<T>(received: Seq<T>, lanes: Seq<int>, s: int) -> Seq<T>
    decreases received.len(),
{
    if received.len() == 0 || lanes.len() != received.len() {
        Seq::empty()
    } else if lanes.last() == s {
        sent_by(received.drop_last(), lanes.drop_last(), s).push(received.last())
    } else {
        sent_by(received.drop_last(), lanes.drop_last(), s)
    }
}

/// `received` is an interleaving of the per-sender histories `sent`: some
/// assignment `lanes` of a sender to every delivery attributes to each
/// sender `s` exactly the messages `sent[s]`, in their send order. This is
/// the channel's delivery guarantee, with `sent[s]` the final
/// [`Sender::sent`] of handle `s`.
pub open spec fn is_interleaving<T>(received: Seq<T>, lanes: Seq<int>, sent: Seq<Seq<T>>) -> bool {
    &&& lanes.len() == received.len()
    &&& forall|k: int| 0 <= k < lanes.len() ==> 0 <= #[trigger] lanes[k] < sent.len()
    &&& forall|s: int| 0 <= s < sent.len() ==> sent_by(received, lanes, s) == #[trigger] sent[s]
}

/// A sequence of all-empty send histories has nothing in it.
proof fn lemma_total_len_all_empty<T>(sent: Seq<Seq<T>>)
    requires
        forall|s: int| 0 <= s < sent.len() ==> (#[trigger] sent[s]).len() == 0,
    ensures
        total_len(sent) == 0,
    decreases sent.len(),
{
    if sent.len() == 0 {
    } else {
        lemma_total_len_all_empty(sent.drop_first());
    }
}

/// Updating one send history changes the total by the difference in length.
proof fn lemma_total_len_update<T>(sent: Seq<Seq<T>>, k: int, v: Seq<T>)
    requires
        0 <= k < sent.len(),
    ensures
        total_len(sent.update(k, v)) == total_len(sent) - sent[k].len() + v.len(),
    decreases sent.len(),
{
    if k == 0 {
        assert(sent.update(0, v).drop_first() =~= sent.drop_first());
    } else {
        assert(sent.update(k, v).drop_first() =~= sent.drop_first().update(k - 1, v));
        lemma_total_len_update(sent.drop_first(), k - 1, v);
    }
}

/// Law: receiving until closure yields exactly every sent message. Whatever
/// interleaving the scheduler produced, the number of deliveries equals the
/// summed length of the senders' histories; per-sender order is already part
/// of [`is_interleaving`] itself.
pub proof fn lemma_interleaving_delivers_all<T>(
    received: Seq<T>,
    lanes: Seq<int>,
    sent: Seq<Seq<T>>,
)
    requires
        is_interleaving(received, lanes, sent),
    ensures
        received.len() == total_len(sent),
    decreases received.len(),
{
    if received.len() == 0 {
        lemma_total_len_all_empty(sent);
    } else {
        let w = lanes.last();
        let prev_received = received.drop_last();
        let prev_lanes = lanes.drop_last();
        let prev_sent = sent.update(w, sent[w].drop_last());
        assert(sent_by(received, lanes, w) == sent[w]);
        assert(sent[w].len() > 0);
        assert(sent_by(prev_received, prev_lanes, w) =~= sent[w].drop_last());
        assert forall|s: int| 0 <= s < prev_sent.len() implies sent_by(
            prev_received,
            prev_lanes,
            s,
        ) == #[trigger] prev_sent[s] by {
            if s != w {
                assert(sent_by(received, lanes, s) == sent[s]);
            }
        }
        assert(is_interleaving(prev_received, prev_lanes, prev_sent));
        lemma_interleaving_delivers_all(prev_received, prev_lanes, prev_sent);
        lemma_total_len_update(sent, w, sent[w].drop_last());
    }
}

} // verus!
