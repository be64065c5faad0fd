//! Hands SNS deliveries to the worker through a broadcast channel.

use vstd::prelude::*;
use vstd::wrapping::u64_specs::wrapping_add;

use crate::models::alert_event::AlertEvent;
use crate::sns::metrics::SnsMetrics;
use crate::sns::models::UserDevice;

verus! {

/// The broadcast channel had no receiver left: only the first `delivered`
/// devices were enqueued.
#[derive(Clone, Copy, Debug, PartialEq, Eq, Structural)]
pub struct BroadcastClosed {
    pub delivered: usize,
}

/// The number of values that the broadcast channel behind a sender keeps
/// for its receivers: the slots of its buffer, fixed when it was opened.
pub uninterp spec fn sender_slots(tx: tokio::sync::broadcast::Sender<(UserDevice, AlertEvent)>) -> nat;

/// The number of slots of the broadcast channel that a receiver reads.
pub uninterp spec fn receiver_slots(rx: tokio::sync::broadcast::Receiver<(UserDevice, AlertEvent)>) -> nat;

/// Opens a broadcast channel of the given capacity and keeps its sender.
///
/// Trusted: calls `tokio::sync::broadcast::channel`, which panics when the
/// capacity is zero or above `usize::MAX / 2`, and otherwise rounds the
/// capacity up to the next power of two, so the channel has at least
/// `capacity` and fewer than twice as many slots. The first receiver is
/// dropped at once, as the channel's users subscribe on their own.
#[verifier::external_body]
fn open_channel(capacity: usize) -> (tx: tokio::sync::broadcast::Sender<(UserDevice, AlertEvent)>)
    requires
        0 < capacity <= usize::MAX / 2,
    ensures
        capacity <= sender_slots(tx) < 2 * capacity,
{
    let (tx, _rx) = tokio::sync::broadcast::channel(capacity);
    tx
}

/// Sends one value to every receiver of the broadcaster's channel, and gives
/// whether the channel took it (`false` where no receiver is left).
///
/// Trusted: calls `tokio::sync::broadcast::Sender::send` on the
/// broadcaster's sender with `value`. The broadcaster's record of sends
/// gains `value` with the answer; the sender itself is untouched. Whether a
/// receiver is left depends on the running tasks, so the answer is not
/// claimed.
#[verifier::external_body]
fn broadcast(broadcaster: &mut SnsBroadcaster, value: (UserDevice, AlertEvent)) -> (sent: bool)
    ensures
        final(broadcaster).tx == old(broadcaster).tx,
        final(broadcaster).sends() == old(broadcaster).sends().push((value, sent)),
{
    broadcaster.tx.send(value).is_ok()
}

/// A new receiver on the channel.
///
/// Trusted: calls `tokio::sync::broadcast::Sender::subscribe`, which hands
/// out a receiver on the sender's own channel, so its slots are the
/// sender's. That it is that very channel (an identity) and that the call
/// panics once `usize::MAX / 4` receivers are alive (a count of the running
/// program) are left unsaid.
#[verifier::external_body]
fn subscribe_channel(tx: &tokio::sync::broadcast::Sender<(UserDevice, AlertEvent)>) -> (rx: tokio::sync::broadcast::Receiver<(UserDevice, AlertEvent)>)
    ensures
        receiver_slots(rx) == sender_slots(*tx),
{
    tx.subscribe()
}

/// The deliveries that a list of devices gets for an event: the event once
/// for each device, in the order of the list.
pub open spec fn deliveries_of(event: AlertEvent, devices: Seq<UserDevice>) -> Seq<(UserDevice, AlertEvent)> {
    devices.map_values(|d: UserDevice| (d, event))
}

/// Sends of the given values that the channel all took.
pub open spec fn all_taken(values: Seq<(UserDevice, AlertEvent)>) -> Seq<((UserDevice, AlertEvent), bool)> {
    values.map_values(|v: (UserDevice, AlertEvent)| (v, true))
}

/// The sends that `send_alert` makes for an event and a device list: every
/// delivery, taken, when it succeeds; otherwise the first `delivered`
/// deliveries, taken, then the refused one.
pub open spec fn alert_sends(
    event: AlertEvent,
    devices: Seq<UserDevice>,
    outcome: Result<(), BroadcastClosed>,
) -> Seq<((UserDevice, AlertEvent), bool)> {
    let all = deliveries_of(event, devices);
    match outcome {
        Ok(()) => all_taken(all),
        Err(e) => all_taken(all.take(e.delivered as int)).push((all[e.delivered as int], false)),
    }
}

/// What follows one send of `send_alert`.
#[derive(Clone, Copy, Debug, PartialEq, Eq, Structural)]
pub enum SendStep {
    /// Go on with the delivery at this position.
    Continue(usize),
    /// Every delivery was taken.
    Finished,
    /// The channel refused a delivery: stop, reporting how many were taken.
    Stop(BroadcastClosed),
}

/// Decides what follows the send of delivery `i` of `n`, given whether the
/// channel took it.
pub fn after_send(sent: bool, i: usize, n: usize) -> (step: SendStep)
    requires
        i < n,
    ensures
        !sent ==> step == SendStep::Stop(BroadcastClosed { delivered: i }),
        sent && i + 1 < n ==> step == SendStep::Continue((i + 1) as usize),
        sent && i + 1 == n ==> step == SendStep::Finished,
{
    if !sent {
        SendStep::Stop(BroadcastClosed { delivered: i })
    } else if i + 1 < n {
        SendStep::Continue(i + 1)
    } else {
        SendStep::Finished
    }
}

/// Puts a delivery for each target device into the channel that the SNS
/// worker reads.
pub struct SnsBroadcaster {
    tx: tokio::sync::broadcast::Sender<(UserDevice, AlertEvent)>,
    sent: Ghost<Seq<((UserDevice, AlertEvent), bool)>>,
}

impl SnsBroadcaster {
    /// The number of deliveries that the channel keeps for a worker that
    /// lags behind.
    pub closed spec fn slots(&self) -> nat {
        sender_slots(self.tx)
    }

    /// Every value handed to the channel so far, in order, with whether the
    /// channel took it.
    pub closed spec fn sends(&self) -> Seq<((UserDevice, AlertEvent), bool)> {
        self.sent@
    }

    /// A broadcaster over a new channel of at least `capacity` slots (the
    /// capacity rounded up to a power of two).
    pub fn new(capacity: usize) -> (r: Self)
        requires
            0 < capacity <= usize::MAX / 2,
        ensures
            capacity <= r.slots() < 2 * capacity,
            r.sends() == Seq::<((UserDevice, AlertEvent), bool)>::empty(),
    {
        SnsBroadcaster { tx: open_channel(capacity), sent: Ghost(Seq::empty()) }
    }

    /// Enqueues the event once for each device, in order, counting each
    /// enqueued delivery; stops at the first send that finds no receiver.
    pub fn send_alert(&mut self, event: &AlertEvent, devices: Vec<UserDevice>, metrics: &mut SnsMetrics) -> (r:
        Result<(), BroadcastClosed>)
        ensures
            r matches Err(e) ==> e.delivered < devices@.len(),
            final(self).sends() == old(self).sends() + alert_sends(*event, devices@, r),
            final(self).slots() == old(self).slots(),
            r is Ok ==> final(metrics).enqueued == counter_after(old(metrics).enqueued, devices@.len() as nat),
            r matches Err(e) ==> final(metrics).enqueued == counter_after(old(metrics).enqueued, e.delivered as nat),
            final(metrics).resolved == old(metrics).resolved,
            final(metrics).lagged == old(metrics).lagged,
            final(metrics).published == old(metrics).published,
            final(metrics).failed == old(metrics).failed,
    {
        let ghost start = self.sends();
        let ghost all = deliveries_of(*event, devices@);
        let n = devices.len();
        if n == 0 {
            proof {
                assert(all_taken(all) =~= Seq::<((UserDevice, AlertEvent), bool)>::empty());
                assert(start + all_taken(all) =~= start);
            }
            return Ok(());
        }
        let mut i: usize = 0;
        loop
            invariant
                n == devices@.len(),
                all == deliveries_of(*event, devices@),
                start == old(self).sends(),
                i < n,
                self.sends() == start + all_taken(all.take(i as int)),
                self.slots() == old(self).slots(),
                metrics.enqueued == counter_after(old(metrics).enqueued, i as nat),
                metrics.resolved == old(metrics).resolved,
                metrics.lagged == old(metrics).lagged,
                metrics.published == old(metrics).published,
                metrics.failed == old(metrics).failed,
            decreases n - i,
        {
            let value = (devices[i].duplicate(), event.duplicate());
            proof {
                assert(value == all[i as int]);
            }
            let sent = broadcast(self, value);
            match after_send(sent, i, n) {
                SendStep::Stop(closed) => {
                    proof {
                        assert(self.sends() =~= start + (all_taken(all.take(i as int)).push((all[i as int], false))));
                        assert(closed.delivered == i);
                        assert(alert_sends(*event, devices@, Err(closed)) == all_taken(all.take(i as int)).push(
                            (all[i as int], false),
                        ));
                    }
                    return Err(closed);
                },
                SendStep::Continue(next) => {
                    metrics.inc_enqueued();
                    proof {
                        assert(all.take(next as int) =~= all.take(i as int).push(all[i as int]));
                        assert(all_taken(all.take(next as int)) =~= all_taken(all.take(i as int)).push((all[i as int], true)));
                        assert(self.sends() =~= start + all_taken(all.take(next as int)));
                    }
                    i = next;
                },
                SendStep::Finished => {
                    metrics.inc_enqueued();
                    proof {
                        assert(all.take(i + 1) =~= all.take(i as int).push(all[i as int]));
                        assert(all.take(i + 1) =~= all);
                        assert(all_taken(all) =~= all_taken(all.take(i as int)).push((all[i as int], true)));
                        assert(self.sends() =~= start + all_taken(all));
                        assert(alert_sends(*event, devices@, Ok(())) == all_taken(all));
                    }
                    return Ok(());
                },
            }
        }
    }

    /// A receiver for the SNS worker, on this broadcaster's channel.
    pub fn subscribe(&self) -> (rx: tokio::sync::broadcast::Receiver<(UserDevice, AlertEvent)>)
        ensures
            receiver_slots(rx) == self.slots(),
    {
        subscribe_channel(&self.tx)
    }
}

/// A counter after `n` increments, wrapping at `u64::MAX`.
pub open spec fn counter_after(start: u64, n: nat) -> u64
    decreases n,
{
    if n == 0 {
        start
    } else {
        wrapping_add(counter_after(start, (n - 1) as nat), 1)
    }
}

} // verus!
