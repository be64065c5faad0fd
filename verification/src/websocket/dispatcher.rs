//! Fan-out of alerts to the websocket connections that may see the unit.

use vstd::prelude::*;

use crate::ids::{parse_uuid, uuid_text_value};
use crate::models::alert_event::{alert_body, alert_title, text_of, AlertEvent, Timestamp};
use crate::websocket::registry::{
    drop_connection, has_connection, lemma_drop_connection_leaves_none, registered_sender, target_ids, unit_index,
    ConnectionRegistry, ConnectionView,
};
use vstd::string::StringExecFns;

verus! {

/// The message a websocket client receives for an alert.
#[derive(Clone, Debug)]
pub struct ClientAlertMessage {
    pub message_type: String,
    pub unit_id: String,
    pub title: String,
    pub body: String,
    pub data: serde_json::Value,
    pub occurred_at: Timestamp,
}


impl ClientAlertMessage {
    /// A copy of the message, equal to it.
    pub fn duplicate(&self) -> (r: ClientAlertMessage)
        ensures
            r == *self,
    {
        ClientAlertMessage {
            message_type: self.message_type.clone(),
            unit_id: self.unit_id.clone(),
            title: self.title.clone(),
            body: self.body.clone(),
            data: self.data.clone(),
            occurred_at: self.occurred_at.copy(),
        }
    }
}

/// The message clients receive for an event: of type `alert`, with the
/// event's unit, title, body, payload and time.
pub open spec fn is_client_message(m: ClientAlertMessage, event: AlertEvent) -> bool {
    &&& m.message_type@ == "alert"@
    &&& m.unit_id@ == event.unit_id@
    &&& m.title@ == alert_title(text_of(event.alert_name), event.alert_type@)
    &&& m.body@ == alert_body(text_of(event.unit_name))
    &&& m.data == event.payload
    &&& m.occurred_at == event.occurred_at
}

/// Builds the message that clients receive for an event.
pub fn client_message(event: &AlertEvent) -> (m: ClientAlertMessage)
    ensures
        is_client_message(m, *event),
{
    ClientAlertMessage {
        message_type: String::from_str("alert"),
        unit_id: event.unit_id.clone(),
        title: event.title(),
        body: event.body(),
        data: event.payload.clone(),
        occurred_at: event.occurred_at.copy(),
    }
}

/// What became of one message handed to a connection's channel.
#[derive(Clone, Copy, Debug, PartialEq, Eq, Structural)]
pub enum SendOutcome {
    /// The channel took the message.
    Sent,
    /// The channel was full: the message was dropped for this connection.
    Full,
    /// The connection's socket task is gone.
    Closed,
}

/// The outcome of handing the message to one connection.
#[derive(Clone, Copy, Debug, PartialEq, Eq, Structural)]
pub struct Delivery {
    pub connection_id: u128,
    pub outcome: SendOutcome,
}

/// What a dispatch did.
#[derive(Debug)]
pub enum DispatchReport {
    /// The event's unit id is no UUID: nothing was sent.
    InvalidUnitId,
    /// No connection is listed for the unit: nothing was sent.
    NoSubscribers,
    /// The message was handed to every connection listed for the unit.
    Dispatched { deliveries: Vec<Delivery>, sent_count: usize },
}

pub open spec fn delivery_ids(d: Seq<Delivery>) -> Seq<u128> {
    d.map_values(|x: Delivery| x.connection_id)
}

/// How many deliveries were taken by their channels.
pub open spec fn sent_total(d: Seq<Delivery>) -> nat
    decreases d.len(),
{
    if d.len() == 0 {
        0
    } else {
        sent_total(d.drop_last()) + if d.last().outcome == SendOutcome::Sent {
            1nat
        } else {
            0nat
        }
    }
}

/// The registry once the connection of every closed delivery is dropped, in
/// the order of the deliveries.
pub open spec fn after_deliveries(s: Seq<ConnectionView>, d: Seq<Delivery>) -> Seq<ConnectionView>
    decreases d.len(),
{
    if d.len() == 0 {
        s
    } else {
        let r = after_deliveries(s, d.drop_last());
        if d.last().outcome == SendOutcome::Closed {
            drop_connection(r, d.last().connection_id)
        } else {
            r
        }
    }
}

/// A message handed to a connection's channel: the channel, the message, and
/// what the channel made of it.
pub type HandOver = (tokio::sync::mpsc::Sender<ClientAlertMessage>, ClientAlertMessage, SendOutcome);

/// The hand-overs `h` of a dispatch of `event` over the registry `s` with
/// the deliveries `d`: one for each delivery, giving the event's message to
/// the channel registered for that delivery's connection, whose answer is
/// the delivery's outcome.
pub open spec fn hand_overs_match(s: Seq<ConnectionView>, event: AlertEvent, d: Seq<Delivery>, h: Seq<HandOver>) -> bool {
    &&& h.len() == d.len()
    &&& forall|k: int|
        #![trigger h[k]]
        0 <= k < d.len() ==> {
            &&& registered_sender(s, d[k].connection_id, h[k].0)
            &&& is_client_message(h[k].1, event)
            &&& h[k].2 == d[k].outcome
        }
}

/// Hands a message to a connection's channel without waiting.
///
/// Trusted: calls `tokio::sync::mpsc::Sender::try_send` with `sender` and
/// `message` and tells its three results apart (taken, full, closed); the
/// dispatcher's record of hand-overs gains the channel, the message and the
/// result given back. Which result comes depends on the channel's state, so
/// it is not claimed.
#[verifier::external_body]
fn try_deliver(
    dispatcher: &mut AlertDispatcher,
    sender: &tokio::sync::mpsc::Sender<ClientAlertMessage>,
    message: ClientAlertMessage,
) -> (r: SendOutcome)
    ensures
        final(dispatcher).handed() == old(dispatcher).handed().push((*sender, message, r)),
{
    let _ = dispatcher;
    match sender.try_send(message) {
        Ok(()) => SendOutcome::Sent,
        Err(tokio::sync::mpsc::error::TrySendError::Full(_)) => SendOutcome::Full,
        Err(tokio::sync::mpsc::error::TrySendError::Closed(_)) => SendOutcome::Closed,
    }
}

/// Sends alerts to the websocket connections of a registry.
pub struct AlertDispatcher {
    handed: Ghost<Seq<HandOver>>,
}

impl AlertDispatcher {
    /// Every message handed to a connection's channel so far, in order,
    /// with the channel it was handed to and what the channel made of it.
    pub closed spec fn handed(&self) -> Seq<HandOver> {
        self.handed@
    }

    pub fn new() -> (r: Self)
        ensures
            r.handed() == Seq::<HandOver>::empty(),
    {
        AlertDispatcher { handed: Ghost(Seq::empty()) }
    }

    /// Hands the message for `event` to every connection listed for the
    /// event's unit, without waiting on any; a connection whose channel is
    /// closed is unregistered, one whose channel is full misses the message.
    pub fn dispatch_event(&mut self, registry: &mut ConnectionRegistry, event: &AlertEvent) -> (report:
        DispatchReport)
        ensures
            match uuid_text_value(event.unit_id@) {
                None => report is InvalidUnitId && final(registry)@ == old(registry)@
                    && final(self).handed() == old(self).handed(),
                Some(unit) => if unit_index(old(registry)@, unit).len() == 0 {
                    report is NoSubscribers && final(registry)@ == old(registry)@
                        && final(self).handed() == old(self).handed()
                } else {
                    match report {
                        DispatchReport::Dispatched { deliveries, sent_count } => {
                            &&& delivery_ids(deliveries@) == unit_index(old(registry)@, unit)
                            &&& sent_count == sent_total(deliveries@)
                            &&& final(registry)@ == after_deliveries(old(registry)@, deliveries@)
                            &&& final(self).handed().take(old(self).handed().len() as int) == old(self).handed()
                            &&& hand_overs_match(
                                old(registry)@,
                                *event,
                                deliveries@,
                                final(self).handed().skip(old(self).handed().len() as int),
                            )
                        },
                        _ => false,
                    }
                },
            },
    {
        let unit = match parse_uuid(event.unit_id.as_str()) {
            Some(unit) => unit,
            None => {
                return DispatchReport::InvalidUnitId;
            },
        };
        let message = client_message(event);
        let targets = registry.senders_for_unit(&unit);
        if targets.len() == 0 {
            proof {
                assert(target_ids(targets@).len() == 0);
            }
            return DispatchReport::NoSubscribers;
        }
        let ghost start = registry@;
        let ghost want = target_ids(targets@);
        let ghost log = self.handed();
        let mut deliveries: Vec<Delivery> = Vec::new();
        let mut sent_count: usize = 0;
        let n = targets.len();
        let mut i: usize = 0;
        while i < n
            invariant
                n == targets@.len(),
                i <= n,
                want == target_ids(targets@),
                delivery_ids(deliveries@) == want.take(i as int),
                sent_count == sent_total(deliveries@),
                sent_count <= i,
                registry@ == after_deliveries(start, deliveries@),
                start == old(registry)@,
                log == old(self).handed(),
                is_client_message(message, *event),
                forall|k: int| 0 <= k < targets@.len() ==> registered_sender(start, #[trigger] targets@[k].0, targets@[k].1),
                self.handed().len() == log.len() + i,
                self.handed().take(log.len() as int) == log,
                hand_overs_match(start, *event, deliveries@, self.handed().skip(log.len() as int)),
            decreases n - i,
        {
            let id = targets[i].0;
            let ghost handed_before = self.handed();
            let outcome = try_deliver(self, &targets[i].1, message.duplicate());
            let ghost before = deliveries@;
            deliveries.push(Delivery { connection_id: id, outcome });
            proof {
                assert(deliveries@.drop_last() == before);
                assert(delivery_ids(before).len() == before.len());
                assert forall|k: int| 0 <= k < i + 1 implies #[trigger] delivery_ids(deliveries@)[k] == want.take(i + 1)[k] by {
                    if k < i {
                        assert(deliveries@[k] == before[k]);
                        assert(delivery_ids(before)[k] == want.take(i as int)[k]);
                    } else {
                        assert(want[k] == targets@[k].0);
                    }
                }
                assert(delivery_ids(deliveries@) =~= want.take(i + 1));
                let h = self.handed().skip(log.len() as int);
                let hb = handed_before.skip(log.len() as int);
                assert(self.handed().take(log.len() as int) =~= log);
                assert(h =~= hb.push((targets@[i as int].1, message, outcome)));
                assert forall|k: int|
                    #![trigger h[k]]
                    0 <= k < deliveries@.len() implies registered_sender(start, deliveries@[k].connection_id, h[k].0)
                        && is_client_message(h[k].1, *event) && h[k].2 == deliveries@[k].outcome by {
                    if k < i {
                        assert(deliveries@[k] == before[k]);
                        assert(h[k] == hb[k]);
                    } else {
                        assert(deliveries@[k].connection_id == targets@[k].0);
                    }
                }
            }
            match outcome {
                SendOutcome::Sent => {
                    sent_count = sent_count + 1;
                },
                SendOutcome::Full => {},
                SendOutcome::Closed => {
                    let _ = registry.remove_connection(&id);
                },
            }
            i = i + 1;
        }
        proof {
            assert(want.take(n as int) =~= want);
        }
        DispatchReport::Dispatched { deliveries, sent_count }
    }
}


pub proof fn lemma_drop_keeps_absent(s: Seq<ConnectionView>, id: u128, x: u128)
    requires
        !has_connection(s, x),
    ensures
        !has_connection(drop_connection(s, id), x),
    decreases s.len(),
{
    if s.len() > 0 {
        let q = s.drop_last();
        assert(!has_connection(q, x)) by {
            if has_connection(q, x) {
                let j = choose|j: int| 0 <= j < q.len() && #[trigger] q[j].connection_id == x;
                assert(s[j].connection_id == x);
            }
        }
        lemma_drop_keeps_absent(q, id, x);
        let d = drop_connection(q, id);
        let t: Seq<ConnectionView> = if s.last().connection_id == id { Seq::empty() } else { seq![s.last()] };
        if has_connection(d + t, x) {
            let j = choose|j: int| 0 <= j < (d + t).len() && #[trigger] (d + t)[j].connection_id == x;
            if j < d.len() {
                assert(d[j].connection_id == x);
            } else {
                assert(s[s.len() - 1].connection_id == x);
            }
        }
    }
}

/// After a dispatch, no connection whose channel was found closed is left
/// in the registry.
pub proof fn law_closed_connections_dropped(s: Seq<ConnectionView>, d: Seq<Delivery>, i: int)
    requires
        0 <= i < d.len(),
        d[i].outcome == SendOutcome::Closed,
    ensures
        !has_connection(after_deliveries(s, d), d[i].connection_id),
    decreases d.len(),
{
    let r = after_deliveries(s, d.drop_last());
    if i == d.len() - 1 {
        assert(d.last() == d[i]);
        lemma_drop_connection_leaves_none(r, d[i].connection_id);
    } else {
        assert(d.drop_last()[i] == d[i]);
        law_closed_connections_dropped(s, d.drop_last(), i);
        if d.last().outcome == SendOutcome::Closed {
            lemma_drop_keeps_absent(r, d.last().connection_id, d[i].connection_id);
        }
    }
}

} // verus!
