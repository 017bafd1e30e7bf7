//! The host and the device together, over a link that loses and repeats messages.
//!
//! The model runs the exchange of the host against the servers of the device.
//! Requests and responses may be lost, late or repeated, but copies of requests
//! arrive in the order in which they were sent. The laws say that no frame is
//! lost, repeated or reordered in either direction.
use vstd::prelude::*;

use crate::device::{TxServer, answered};
use crate::exchange::{Exchange, ExchangeAction, ExchangeEvent, ExchangePhase, TransactionIds, id_period};
use crate::icd::{RxResponseView, WifiRxRequest, WifiTransaction, WifiTxRequest};

verus! {

/// Both ends of a link, and what has passed through them.
pub struct Link {
    pub host: Exchange,
    pub tx: TxServer,
    /// The frame that the radio is working on.
    pub in_radio: Seq<u8>,
    /// The response that the RX server has cached.
    pub cached: Option<RxResponseView>,
    /// Frames that wait on the device for a poll.
    pub waiting: Seq<Seq<u8>>,
    /// Frames that the host took from its TAP queue.
    pub taken: Seq<Seq<u8>>,
    /// Frames that the radio has accepted.
    pub transmitted: Seq<Seq<u8>>,
    /// Frames that the radio has received.
    pub received: Seq<Seq<u8>>,
    /// Frames that the host handed to its TAP interface.
    pub delivered: Seq<Seq<u8>>,
    /// How many transactions were handed out since the one that the RX server
    /// answered last, that one counted.
    pub rx_age: nat,
}

/// What can happen on a link.
pub enum LinkEvent {
    /// The host sees an outcome.
    Host(ExchangeEvent),
    /// A copy of a TX request reaches the device.
    TxCopy(WifiTxRequest),
    /// The radio accepts the frame that it was given.
    RadioTransmits,
    /// A copy of an RX poll reaches the device.
    RxCopy(WifiRxRequest),
    /// The radio receives a frame and queues it for the host.
    RadioReceives(Seq<u8>),
}

impl Link {
    /// A host session that starts on an idle device. What the device remembers of
    /// earlier sessions does not belong to this one.
    pub open spec fn fresh(self) -> bool {
        &&& self.host.phase is Idle
        &&& self.tx.pending is None
        &&& (self.tx.last_completed matches Some(t) ==> t.session != self.host.ids.session)
        &&& (self.cached matches Some(r) ==> r.transaction.session != self.host.ids.session)
        &&& self.taken == self.transmitted
        &&& self.received == self.delivered + self.waiting
    }

    /// Whether the event can happen now. A response to the request in flight
    /// exists only when the device has answered it. A copy of a request is one of
    /// the request in flight, or a late one of the request that was answered last.
    /// A frame is not sent under the number that the device completed last, which
    /// comes up again only when a whole period of numbers has been handed out. The
    /// shutdown ends the session and is not part of it.
    pub open spec fn possible(self, event: LinkEvent) -> bool {
        match event {
            LinkEvent::Host(e) => {
                &&& self.host.accepts(e)
                &&& e !is Cancelled
                &&& (e matches ExchangeEvent::Queue(Some(_)) ==> self.tx.last_completed != Some(
                    self.host.ids.upcoming(),
                ))
                &&& (e matches ExchangeEvent::TxReply(reply) ==> reply.transaction
                    == self.host.phase->AwaitTx_0.transaction ==> self.tx.last_completed == Some(
                    reply.transaction,
                ))
                &&& (e matches ExchangeEvent::RxReply(reply) ==> reply.transaction
                    == self.host.phase->AwaitRx_0.transaction ==> self.cached == Some(reply@))
            },
            LinkEvent::TxCopy(request) => self.tx.pending is None && (self.host.phase
                == ExchangePhase::AwaitTx(request) || self.tx.last_completed == Some(
                request.transaction,
            )),
            LinkEvent::RadioTransmits => self.tx.pending is Some,
            LinkEvent::RxCopy(request) => self.host.phase == ExchangePhase::AwaitRx(request)
                || answered(self.cached, request.transaction),
            LinkEvent::RadioReceives(_) => true,
        }
    }

    /// The response of the RX server to a new poll: the frame that waits longest.
    pub open spec fn poll_result(self, transaction: WifiTransaction) -> RxResponseView {
        RxResponseView {
            transaction,
            frame: if self.waiting.len() > 0 {
                Some(self.waiting[0])
            } else {
                None
            },
        }
    }

    /// The link after an event.
    pub open spec fn next(self, event: LinkEvent) -> Link {
        match event {
            LinkEvent::Host(e) => {
                let issued: nat = if self.host.next(e).ids == self.host.ids {
                    0
                } else {
                    1
                };
                Link {
                    host: self.host.next(e),
                    taken: match e {
                        ExchangeEvent::Queue(Some(frame)) => self.taken.push(frame@),
                        _ => self.taken,
                    },
                    delivered: match self.host.action(e) {
                        ExchangeAction::Deliver(frame) => self.delivered.push(frame@),
                        _ => self.delivered,
                    },
                    rx_age: self.rx_age + issued,
                    ..self
                }
            },
            LinkEvent::TxCopy(request) => if self.tx.forwards(request.transaction) {
                Link {
                    tx: self.tx.taking(request.transaction),
                    in_radio: request.frame@,
                    ..self
                }
            } else {
                self
            },
            LinkEvent::RadioTransmits => Link {
                tx: self.tx.completed(),
                transmitted: self.transmitted.push(self.in_radio),
                ..self
            },
            LinkEvent::RxCopy(request) => if answered(self.cached, request.transaction) {
                self
            } else {
                Link {
                    cached: Some(self.poll_result(request.transaction)),
                    waiting: if self.waiting.len() > 0 {
                        self.waiting.drop_first()
                    } else {
                        self.waiting
                    },
                    rx_age: 1,
                    ..self
                }
            },
            LinkEvent::RadioReceives(frame) => Link {
                waiting: self.waiting.push(frame),
                received: self.received.push(frame),
                ..self
            },
        }
    }

    /// The link after a sequence of events.
    pub open spec fn after(self, events: Seq<LinkEvent>) -> Link
        decreases events.len(),
    {
        if events.len() == 0 {
            self
        } else {
            self.after(events.drop_last()).next(events.last())
        }
    }

    /// Whether each event of the sequence can happen where it stands.
    pub open spec fn possible_all(self, events: Seq<LinkEvent>) -> bool {
        forall|i: int|
            0 <= i < events.len() ==> self.after(events.take(i)).possible(#[trigger] events[i])
    }

    /// The frame of a poll that the device has answered and the host has not seen
    /// answered yet.
    pub open spec fn in_transit(self) -> Seq<Seq<u8>> {
        if self.host.phase is AwaitRx && answered(
            self.cached,
            self.host.phase->AwaitRx_0.transaction,
        ) && self.cached->0.frame is Some {
            seq![self.cached->0.frame->0]
        } else {
            Seq::empty()
        }
    }

    /// Whether the frame of the TX request in flight has not reached the radio.
    pub open spec fn unsent(self) -> bool {
        self.host.phase is AwaitTx && self.tx.forwards(self.host.phase->AwaitTx_0.transaction)
    }

    /// What holds at every moment of a session.
    spec fn inv(self) -> bool {
        &&& self.host.phase !is Stopped
        &&& self.tx.pending is Some ==> self.unsent() && self.tx.pending == Some(
            self.host.phase->AwaitTx_0.transaction,
        ) && self.in_radio == self.host.phase->AwaitTx_0.frame@
        &&& if self.unsent() {
            self.taken == self.transmitted.push(self.host.phase->AwaitTx_0.frame@)
        } else {
            self.taken == self.transmitted
        }
        &&& self.host.phase is AwaitTx ==> self.taken.len() > 0 && self.taken.last()
            == self.host.phase->AwaitTx_0.frame@
        &&& self.received == self.delivered + self.in_transit() + self.waiting
        &&& (self.host.phase matches ExchangePhase::AwaitRx(request) ==> request.transaction.session
            == self.host.ids.session && aged(request.transaction.id, 1, self.host.ids))
        &&& (self.cached matches Some(r) ==> r.transaction.session == self.host.ids.session ==> {
            &&& aged(r.transaction.id, self.rx_age, self.host.ids)
            &&& self.rx_age >= 1
            &&& self.host.phase is Idle || self.host.phase is Delivering ==> self.rx_age == 1
            &&& self.host.phase is AwaitTx ==> self.rx_age <= 2
            &&& self.host.phase is AwaitRx ==> self.rx_age <= 3
        })
    }
}

/// Whether `age` transactions, from number `id` on, have been handed out.
spec fn aged(id: u32, age: nat, ids: TransactionIds) -> bool {
    ids.next_id == (id + age) % id_period()
}

proof fn aged_advances(id: u32, age: nat, ids: TransactionIds)
    requires
        aged(id, age, ids),
    ensures
        aged(id, age + 1, ids.after(1)),
{
}

proof fn step_keeps_inv(link: Link, event: LinkEvent)
    requires
        link.inv(),
        link.possible(event),
    ensures
        link.next(event).inv(),
{
    let post = link.next(event);
    match event {
        LinkEvent::Host(e) => {
            if link.cached is Some && link.cached->0.transaction.session == link.host.ids.session {
                aged_advances(link.cached->0.transaction.id, link.rx_age, link.host.ids);
            }
            assert(post.received =~= post.delivered + post.in_transit() + post.waiting);
            assert(post.inv());
        },
        LinkEvent::TxCopy(_) => {},
        LinkEvent::RadioTransmits => {
            assert(post.taken =~= post.transmitted);
        },
        LinkEvent::RxCopy(_) => {
            assert(post.received =~= post.delivered + post.in_transit() + post.waiting);
        },
        LinkEvent::RadioReceives(_) => {
            assert(post.received =~= post.delivered + post.in_transit() + post.waiting);
        },
    }
}

proof fn session_keeps_inv(start: Link, events: Seq<LinkEvent>)
    requires
        start.fresh(),
        start.possible_all(events),
    ensures
        start.after(events).inv(),
    decreases events.len(),
{
    if events.len() == 0 {
        assert(start.received =~= start.delivered + start.in_transit() + start.waiting);
    } else {
        let before = events.drop_last();
        assert forall|i: int| 0 <= i < before.len() implies start.after(before.take(i)).possible(
            #[trigger] before[i],
        ) by {
            assert(before.take(i) =~= events.take(i));
            assert(before[i] == events[i]);
        }
        session_keeps_inv(start, before);
        assert(events.take(events.len() - 1) =~= before);
        assert(start.after(before).possible(events[events.len() - 1]));
        step_keeps_inv(start.after(before), events.last());
    }
}

/// However often requests are repeated and responses lost, the radio transmits
/// every frame that the host takes exactly once and in order. Only the frame of
/// an unacknowledged TX request can still be missing.
pub proof fn every_frame_is_transmitted_once(start: Link, events: Seq<LinkEvent>)
    requires
        start.fresh(),
        start.possible_all(events),
    ensures
        ({
            let link = start.after(events);
            if link.unsent() {
                link.taken == link.transmitted.push(link.host.phase->AwaitTx_0.frame@)
            } else {
                link.taken == link.transmitted
            }
        }),
{
    session_keeps_inv(start, events);
}

/// However often polls are repeated and responses lost, every frame that the
/// radio receives is delivered once and in order, is on its way in the answer to
/// the poll in flight, or still waits on the device.
pub proof fn every_frame_is_delivered_once(start: Link, events: Seq<LinkEvent>)
    requires
        start.fresh(),
        start.possible_all(events),
    ensures
        ({
            let link = start.after(events);
            link.received == link.delivered + link.in_transit() + link.waiting
        }),
{
    session_keeps_inv(start, events);
}

/// An acknowledgement that the host accepts means that the radio has the frame.
pub proof fn an_acknowledged_frame_is_on_the_radio(start: Link, events: Seq<LinkEvent>, event: LinkEvent)
    requires
        start.fresh(),
        start.possible_all(events.push(event)),
        start.after(events).host.phase is AwaitTx,
        start.after(events.push(event)).host.phase !is AwaitTx,
    ensures
        start.after(events.push(event)).transmitted.len() > 0,
        start.after(events.push(event)).transmitted.last() == start.after(
            events,
        ).host.phase->AwaitTx_0.frame@,
        start.after(events.push(event)).taken == start.after(events.push(event)).transmitted,
{
    assert(events.push(event).drop_last() =~= events);
    assert(events.push(event).take(events.len() as int) =~= events);
    let link = start.after(events);
    assert(link.possible(events.push(event)[events.len() as int]));
    session_keeps_inv(start, events.push(event));
    assert forall|i: int| 0 <= i < events.len() implies start.after(events.take(i)).possible(
        #[trigger] events[i],
    ) by {
        assert(events.push(event).take(i) =~= events.take(i));
        assert(events.push(event)[i] == events[i]);
    }
    session_keeps_inv(start, events);
}

} // verus!
