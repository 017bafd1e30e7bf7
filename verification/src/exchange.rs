//! The host side of the frame exchange: one owner sends TX requests and short RX
//! polls, one at a time, and repeats a request until its own response arrives.
use vstd::prelude::*;

use crate::icd::{WifiFrame, WifiRxRequest, WifiRxResponse, WifiTransaction, WifiTxRequest, WifiTxResponse};

verus! {

/// The number of transaction numbers there are before they repeat.
pub open spec fn id_period() -> int {
    0x1_0000_0000
}

/// Hands out the transactions of one session, numbered in order and wrapping.
#[derive(Clone, Copy, Debug, PartialEq, Eq, Structural)]
pub struct TransactionIds {
    pub session: u64,
    pub next_id: u32,
}

impl TransactionIds {
    /// The transaction that is handed out next.
    pub open spec fn upcoming(self) -> WifiTransaction {
        WifiTransaction { session: self.session, id: self.next_id }
    }

    /// The numbering after `n` transactions were handed out.
    pub open spec fn after(self, n: nat) -> TransactionIds {
        TransactionIds { session: self.session, next_id: ((self.next_id + n) % id_period()) as u32 }
    }

    /// Starts the numbering of a session at zero.
    pub fn new(session: u64) -> (r: TransactionIds)
        ensures
            r == (TransactionIds { session, next_id: 0 }),
    {
        TransactionIds { session, next_id: 0 }
    }

    /// Hands out the next transaction.
    pub fn issue(&mut self) -> (r: WifiTransaction)
        ensures
            r == old(self).upcoming(),
            *final(self) == old(self).after(1),
    {
        let r = WifiTransaction { session: self.session, id: self.next_id };
        self.next_id = self.next_id.wrapping_add(1);
        r
    }
}

/// Two transactions of a session that lie less than a full period apart differ.
pub proof fn transactions_of_a_period_differ(ids: TransactionIds, i: nat, j: nat)
    requires
        i < j < i + id_period(),
    ensures
        ids.after(i).upcoming() != ids.after(j).upcoming(),
{
    let a = ids.next_id + i;
    let b = ids.next_id + j;
    assert(a % id_period() != b % id_period()) by {
        assert(a == id_period() * (a / id_period()) + a % id_period()) by (nonlinear_arith)
            requires
                id_period() == 0x1_0000_0000,
        ;
        assert(b == id_period() * (b / id_period()) + b % id_period()) by (nonlinear_arith)
            requires
                id_period() == 0x1_0000_0000,
        ;
    }
}

/// The session number of a host process: its start time in nanoseconds with the
/// process id mixed into the upper half.
pub open spec fn session_of(nanos: u64, pid: u32) -> u64 {
    nanos ^ ((pid as u64) << 32)
}

/// Computes the session number of a process. The clock is cut to 64 bits.
pub fn session_id(nanos: u128, pid: u32) -> (r: u64)
    ensures
        r == session_of((nanos % 0x1_0000_0000_0000_0000) as u64, pid),
{
    let low: u64 = (nanos % 0x1_0000_0000_0000_0000) as u64;
    low ^ ((pid as u64) << 32)
}

/// Processes that start at the same instant, and starts of one process id at
/// different instants, get different sessions.
pub proof fn sessions_differ(n1: u64, n2: u64, p1: u32, p2: u32)
    ensures
        n1 == n2 && p1 != p2 ==> session_of(n1, p1) != session_of(n2, p2),
        n1 != n2 && p1 == p2 ==> session_of(n1, p1) != session_of(n2, p2),
{
    assert(n1 == n2 && p1 != p2 ==> n1 ^ ((p1 as u64) << 32) != n2 ^ ((p2 as u64) << 32))
        by (bit_vector);
    assert(n1 != n2 && p1 == p2 ==> n1 ^ ((p1 as u64) << 32) != n2 ^ ((p2 as u64) << 32))
        by (bit_vector);
}

/// What the exchange waits for.
#[derive(Debug)]
pub enum ExchangePhase {
    /// About to look for a frame in the TAP queue.
    Idle,
    /// A TX request is in flight.
    AwaitTx(WifiTxRequest),
    /// An RX poll is in flight.
    AwaitRx(WifiRxRequest),
    /// A received frame is being written to the TAP interface.
    Delivering,
    /// Shut down.
    Stopped,
}

/// The outcome of the last action.
#[derive(Debug)]
pub enum ExchangeEvent {
    /// What the TAP queue held.
    Queue(Option<WifiFrame>),
    /// A response to the TX request arrived.
    TxReply(WifiTxResponse),
    /// A response to the RX poll arrived.
    RxReply(WifiRxResponse),
    /// The endpoint reported an error.
    Failed,
    /// No response arrived in time.
    TimedOut,
    /// The bridge shuts down.
    Cancelled,
    /// The TAP interface took this many bytes.
    TapWritten(usize),
    /// The TAP interface refused the frame.
    TapFailed,
}

/// What to do next.
#[derive(Debug)]
pub enum ExchangeAction {
    /// Look for a frame in the TAP queue, without waiting.
    PollQueue,
    /// Send the pending TX request.
    SendTx,
    /// Send the pending RX poll.
    SendRx,
    /// Write the frame to the TAP interface.
    Deliver(WifiFrame),
    /// End the task.
    Stop,
}

/// Which request a note is about.
#[derive(Clone, Copy, Debug, PartialEq, Eq, Structural)]
pub enum Direction {
    Tx,
    Rx,
}

/// Why a request is sent again.
#[derive(Clone, Copy, Debug, PartialEq, Eq, Structural)]
pub enum RetryCause {
    /// The response belongs to another transaction.
    Mismatch,
    /// The endpoint failed.
    Endpoint,
    /// The response took too long.
    Timeout,
}

/// What a step means for the counters of the bridge.
#[derive(Clone, Copy, Debug, PartialEq, Eq, Structural)]
pub enum ExchangeNote {
    Nothing,
    Retry(Direction, RetryCause),
    Delivered(usize),
    TapError,
}

/// An action, and what to count.
#[derive(Debug)]
pub struct ExchangeStep {
    pub action: ExchangeAction,
    pub note: ExchangeNote,
}

/// The state of one exchange task.
#[derive(Debug)]
pub struct Exchange {
    pub ids: TransactionIds,
    pub phase: ExchangePhase,
}

impl Exchange {
    /// Whether the event can follow the action that this state asked for.
    pub open spec fn accepts(self, event: ExchangeEvent) -> bool {
        match self.phase {
            ExchangePhase::Idle => event is Queue,
            ExchangePhase::AwaitTx(_) => event is TxReply || event is Failed || event is TimedOut
                || event is Cancelled,
            ExchangePhase::AwaitRx(_) => event is RxReply || event is Failed || event is TimedOut
                || event is Cancelled,
            ExchangePhase::Delivering => event is TapWritten || event is TapFailed,
            ExchangePhase::Stopped => false,
        }
    }

    /// The exchange with a new TX request for `frame` in flight.
    pub open spec fn sending(self, frame: WifiFrame) -> Exchange {
        Exchange {
            ids: self.ids.after(1),
            phase: ExchangePhase::AwaitTx(
                WifiTxRequest { transaction: self.ids.upcoming(), frame },
            ),
        }
    }

    /// The exchange with a new RX poll in flight.
    pub open spec fn polling(self) -> Exchange {
        Exchange {
            ids: self.ids.after(1),
            phase: ExchangePhase::AwaitRx(WifiRxRequest { transaction: self.ids.upcoming() }),
        }
    }

    /// The exchange in another phase.
    pub open spec fn in_phase(self, phase: ExchangePhase) -> Exchange {
        Exchange { ids: self.ids, phase }
    }

    /// The state that follows.
    pub open spec fn next(self, event: ExchangeEvent) -> Exchange {
        match (self.phase, event) {
            (ExchangePhase::Idle, ExchangeEvent::Queue(Some(frame))) => self.sending(frame),
            (ExchangePhase::Idle, ExchangeEvent::Queue(None)) => self.polling(),
            (
                ExchangePhase::AwaitTx(request),
                ExchangeEvent::TxReply(reply),
            ) if reply.transaction == request.transaction => self.polling(),
            (
                ExchangePhase::AwaitRx(request),
                ExchangeEvent::RxReply(reply),
            ) if reply.transaction == request.transaction => if reply.frame is Some {
                self.in_phase(ExchangePhase::Delivering)
            } else {
                self.in_phase(ExchangePhase::Idle)
            },
            (ExchangePhase::Delivering, _) => self.in_phase(ExchangePhase::Idle),
            (_, ExchangeEvent::Cancelled) => self.in_phase(ExchangePhase::Stopped),
            _ => self,
        }
    }

    /// The action that the following state asks for. A frame is delivered when
    /// the reply to the pending poll carries one.
    pub open spec fn action(self, event: ExchangeEvent) -> ExchangeAction {
        match self.next(event).phase {
            ExchangePhase::Idle => ExchangeAction::PollQueue,
            ExchangePhase::AwaitTx(_) => ExchangeAction::SendTx,
            ExchangePhase::AwaitRx(_) => ExchangeAction::SendRx,
            ExchangePhase::Delivering => ExchangeAction::Deliver(event->RxReply_0.frame->0),
            ExchangePhase::Stopped => ExchangeAction::Stop,
        }
    }

    /// What to count.
    pub open spec fn note(self, event: ExchangeEvent) -> ExchangeNote {
        let direction = if self.phase is AwaitTx {
            Direction::Tx
        } else {
            Direction::Rx
        };
        match event {
            ExchangeEvent::TxReply(reply) if reply.transaction
                != self.phase->AwaitTx_0.transaction => ExchangeNote::Retry(
                direction,
                RetryCause::Mismatch,
            ),
            ExchangeEvent::RxReply(reply) if reply.transaction
                != self.phase->AwaitRx_0.transaction => ExchangeNote::Retry(
                direction,
                RetryCause::Mismatch,
            ),
            ExchangeEvent::Failed => ExchangeNote::Retry(direction, RetryCause::Endpoint),
            ExchangeEvent::TimedOut => ExchangeNote::Retry(direction, RetryCause::Timeout),
            ExchangeEvent::TapWritten(bytes) => ExchangeNote::Delivered(bytes),
            ExchangeEvent::TapFailed => ExchangeNote::TapError,
            _ => ExchangeNote::Nothing,
        }
    }

    /// Starts an exchange. Its first action is to poll the TAP queue.
    pub fn new(session: u64) -> (r: Exchange)
        ensures
            r.ids == (TransactionIds { session, next_id: 0 }),
            r.phase is Idle,
    {
        Exchange { ids: TransactionIds::new(session), phase: ExchangePhase::Idle }
    }

    /// The TX request in flight, to be sent by [`ExchangeAction::SendTx`].
    pub fn tx_request(&self) -> (r: Option<&WifiTxRequest>)
        ensures
            r == match self.phase {
                ExchangePhase::AwaitTx(request) => Some(&request),
                _ => None,
            },
    {
        match &self.phase {
            ExchangePhase::AwaitTx(request) => Some(request),
            _ => None,
        }
    }

    /// The RX poll in flight, to be sent by [`ExchangeAction::SendRx`].
    pub fn rx_request(&self) -> (r: Option<WifiRxRequest>)
        ensures
            r == match self.phase {
                ExchangePhase::AwaitRx(request) => Some(request),
                _ => None,
            },
    {
        match &self.phase {
            ExchangePhase::AwaitRx(request) => Some(*request),
            _ => None,
        }
    }

    /// Puts a new RX poll in flight.
    fn poll_device(&mut self) -> (r: ExchangeAction)
        ensures
            *final(self) == old(self).polling(),
            r is SendRx,
    {
        let transaction = self.ids.issue();
        self.phase = ExchangePhase::AwaitRx(WifiRxRequest { transaction });
        ExchangeAction::SendRx
    }

    /// Takes the outcome of the last action and says what to do next.
    pub fn step(&mut self, event: ExchangeEvent) -> (r: ExchangeStep)
        requires
            old(self).accepts(event),
        ensures
            *final(self) == old(self).next(event),
            r.action == old(self).action(event),
            r.note == old(self).note(event),
    {
        let direction = match &self.phase {
            ExchangePhase::AwaitTx(_) => Direction::Tx,
            _ => Direction::Rx,
        };
        let mut note = ExchangeNote::Nothing;
        let action = match event {
            ExchangeEvent::Queue(Some(frame)) => {
                let transaction = self.ids.issue();
                self.phase = ExchangePhase::AwaitTx(WifiTxRequest { transaction, frame });
                ExchangeAction::SendTx
            },
            ExchangeEvent::Queue(None) => self.poll_device(),
            ExchangeEvent::TxReply(reply) => {
                let matching = match &self.phase {
                    ExchangePhase::AwaitTx(request) => reply.transaction == request.transaction,
                    _ => false,
                };
                if matching {
                    self.poll_device()
                } else {
                    note = ExchangeNote::Retry(direction, RetryCause::Mismatch);
                    ExchangeAction::SendTx
                }
            },
            ExchangeEvent::RxReply(reply) => {
                let matching = match &self.phase {
                    ExchangePhase::AwaitRx(request) => reply.transaction == request.transaction,
                    _ => false,
                };
                if matching {
                    match reply.frame {
                        Some(frame) => {
                            self.phase = ExchangePhase::Delivering;
                            ExchangeAction::Deliver(frame)
                        },
                        None => {
                            self.phase = ExchangePhase::Idle;
                            ExchangeAction::PollQueue
                        },
                    }
                } else {
                    note = ExchangeNote::Retry(direction, RetryCause::Mismatch);
                    ExchangeAction::SendRx
                }
            },
            ExchangeEvent::Failed => {
                note = ExchangeNote::Retry(direction, RetryCause::Endpoint);
                self.resend()
            },
            ExchangeEvent::TimedOut => {
                note = ExchangeNote::Retry(direction, RetryCause::Timeout);
                self.resend()
            },
            ExchangeEvent::Cancelled => {
                self.phase = ExchangePhase::Stopped;
                ExchangeAction::Stop
            },
            ExchangeEvent::TapWritten(bytes) => {
                note = ExchangeNote::Delivered(bytes);
                self.phase = ExchangePhase::Idle;
                ExchangeAction::PollQueue
            },
            ExchangeEvent::TapFailed => {
                note = ExchangeNote::TapError;
                self.phase = ExchangePhase::Idle;
                ExchangeAction::PollQueue
            },
        };
        ExchangeStep { action, note }
    }

    /// The action that sends the request in flight again.
    fn resend(&self) -> (r: ExchangeAction)
        requires
            self.phase is AwaitTx || self.phase is AwaitRx,
        ensures
            self.phase is AwaitTx ==> r is SendTx,
            self.phase is AwaitRx ==> r is SendRx,
    {
        match &self.phase {
            ExchangePhase::AwaitTx(_) => ExchangeAction::SendTx,
            _ => ExchangeAction::SendRx,
        }
    }
}

/// A retry repeats the request as it is: the same transaction and the same
/// frame, and no transaction number is spent.
pub proof fn retry_repeats_the_request(exchange: Exchange, event: ExchangeEvent)
    requires
        exchange.accepts(event),
        exchange.note(event) is Retry,
    ensures
        exchange.next(event) == exchange,
        exchange.phase is AwaitTx ==> exchange.action(event) is SendTx,
        exchange.phase is AwaitRx ==> exchange.action(event) is SendRx,
{
}

/// One request is in flight at a time: a new transaction begins only when none is
/// in flight, or with the answer to the one that is.
pub proof fn one_request_at_a_time(exchange: Exchange, event: ExchangeEvent)
    requires
        exchange.accepts(event),
        exchange.next(event).ids != exchange.ids,
    ensures
        exchange.next(event).ids == exchange.ids.after(1),
        match exchange.phase {
            ExchangePhase::Idle => event is Queue,
            ExchangePhase::AwaitTx(request) => event matches ExchangeEvent::TxReply(reply)
                && reply.transaction == request.transaction,
            _ => false,
        },
{
}

/// A frame reaches the TAP interface only from the response to the poll in
/// flight: a stale response is never delivered.
pub proof fn only_the_matching_response_is_delivered(exchange: Exchange, event: ExchangeEvent)
    requires
        exchange.accepts(event),
        exchange.action(event) is Deliver,
    ensures
        exchange.phase is AwaitRx,
        event matches ExchangeEvent::RxReply(reply) && reply.transaction
            == exchange.phase->AwaitRx_0.transaction && reply.frame == Some(
            exchange.action(event)->Deliver_0,
        ),
{
}

/// Every acknowledged TX request is followed by an RX poll before the TAP queue
/// is looked at again, so that sending cannot starve receiving.
pub proof fn a_poll_follows_every_acknowledged_frame(exchange: Exchange, reply: WifiTxResponse)
    requires
        exchange.accepts(ExchangeEvent::TxReply(reply)),
        reply.transaction == exchange.phase->AwaitTx_0.transaction,
    ensures
        exchange.action(ExchangeEvent::TxReply(reply)) is SendRx,
        exchange.next(ExchangeEvent::TxReply(reply)) == exchange.polling(),
{
}

/// What an exchange does with each outcome, whatever it has done before. A frame from the
/// queue is sent as it is, under the next number; an empty queue is followed by a poll; an
/// acknowledged frame by a poll; a poll that brings a frame by its delivery, and one that
/// brings none by a look at the queue; a frame that was written, or refused, by a look at
/// the queue. A shutdown stops it, and nothing else does.
#[verifier::rlimit(60)]
#[verifier::spinoff_prover]
pub proof fn every_outcome_has_its_answer(exchange: Exchange, event: ExchangeEvent)
    requires
        exchange.accepts(event),
    ensures
        ({
            let next = exchange.next(event);
            let action = exchange.action(event);
            let number = WifiTransaction {
                session: exchange.ids.session,
                id: exchange.ids.next_id,
            };
            let answered = match event {
                ExchangeEvent::TxReply(reply) => exchange.phase->AwaitTx_0.transaction
                    == reply.transaction,
                ExchangeEvent::RxReply(reply) => exchange.phase->AwaitRx_0.transaction
                    == reply.transaction,
                _ => false,
            };
            &&& next.ids.session == exchange.ids.session
            &&& next.phase is Stopped <==> event is Cancelled
            &&& action is Stop <==> event is Cancelled
            &&& event matches ExchangeEvent::Queue(Some(frame)) ==> action is SendTx && next.phase
                == ExchangePhase::AwaitTx(WifiTxRequest { transaction: number, frame })
            &&& event matches ExchangeEvent::Queue(None) ==> action is SendRx && next.phase
                == ExchangePhase::AwaitRx(WifiRxRequest { transaction: number })
            &&& event is TxReply && answered ==> action is SendRx && next.phase
                == ExchangePhase::AwaitRx(WifiRxRequest { transaction: number })
            &&& event matches ExchangeEvent::RxReply(reply) ==> answered ==> match reply.frame {
                Some(frame) => action == ExchangeAction::Deliver(frame) && next.phase is Delivering,
                None => action is PollQueue && next.phase is Idle,
            }
            &&& event is TapWritten || event is TapFailed ==> action is PollQueue && next.phase
                is Idle
            &&& event is Queue || (event is TxReply && answered) ==> next.ids.next_id == (
            exchange.ids.next_id + 1) % 0x1_0000_0000
            &&& !(event is Queue || (event is TxReply && answered)) ==> next.ids == exchange.ids
            &&& (event is TxReply || event is RxReply) && !answered ==> next == exchange
            &&& event is Failed || event is TimedOut ==> next == exchange
        }),
{
}

/// What is counted of each outcome: a request that has to be repeated, in its direction
/// and with its cause; the bytes that the TAP interface took; a frame that it refused; and
/// nothing else.
pub proof fn every_outcome_is_noted(exchange: Exchange, event: ExchangeEvent)
    requires
        exchange.accepts(event),
    ensures
        ({
            let note = exchange.note(event);
            let sending = exchange.phase is AwaitTx;
            let direction = if sending {
                Direction::Tx
            } else {
                Direction::Rx
            };
            match event {
                ExchangeEvent::Queue(_) => note is Nothing,
                ExchangeEvent::Cancelled => note is Nothing,
                ExchangeEvent::Failed => note == ExchangeNote::Retry(
                    direction,
                    RetryCause::Endpoint,
                ),
                ExchangeEvent::TimedOut => note == ExchangeNote::Retry(
                    direction,
                    RetryCause::Timeout,
                ),
                ExchangeEvent::TxReply(reply) => if reply.transaction
                    == exchange.phase->AwaitTx_0.transaction {
                    note is Nothing
                } else {
                    note == ExchangeNote::Retry(Direction::Tx, RetryCause::Mismatch)
                },
                ExchangeEvent::RxReply(reply) => if reply.transaction
                    == exchange.phase->AwaitRx_0.transaction {
                    note is Nothing
                } else {
                    note == ExchangeNote::Retry(Direction::Rx, RetryCause::Mismatch)
                },
                ExchangeEvent::TapWritten(bytes) => note == ExchangeNote::Delivered(bytes),
                ExchangeEvent::TapFailed => note is TapError,
            }
        }),
{
}

/// The numbers of a session follow each other by one, and start over after the last.
pub proof fn numbers_follow_each_other(ids: TransactionIds, n: nat)
    ensures
        ids.upcoming() == (WifiTransaction { session: ids.session, id: ids.next_id }),
        ids.after(n).session == ids.session,
        ids.after(0) == ids,
        ids.after(n + 1) == ids.after(n).after(1),
        ids.next_id < u32::MAX ==> ids.after(1).next_id == ids.next_id + 1,
        ids.next_id == u32::MAX ==> ids.after(1).next_id == 0,
{
    let p = 0x1_0000_0000int;
    vstd::arithmetic::div_mod::lemma_add_mod_noop(ids.next_id + n, 1, p);
}

/// The time of a session reads back when the process is known, and its lower half stands
/// in it as it is.
pub proof fn a_session_holds_its_time(nanos: u64, pid: u32)
    ensures
        session_of(session_of(nanos, pid), pid) == nanos,
        session_of(nanos, pid) & 0xffff_ffff == nanos & 0xffff_ffff,
        session_of(nanos, 0) == nanos,
        session_of(0, pid) >> 32 == pid,
{
    assert((nanos ^ ((pid as u64) << 32)) ^ ((pid as u64) << 32) == nanos) by (bit_vector);
    assert((nanos ^ ((pid as u64) << 32)) & 0xffff_ffff == nanos & 0xffff_ffff) by (bit_vector);
    assert(nanos ^ (0u64 << 32) == nanos) by (bit_vector);
    assert((0u64 ^ ((pid as u64) << 32)) >> 32 == pid as u64) by (bit_vector);
}

} // verus!
