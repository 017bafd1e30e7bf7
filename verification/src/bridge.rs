//! What the transports share: waiting for an endpoint response, asking the device
//! for its MAC address, and taking frames from the TAP interface.
use vstd::prelude::*;

use crate::icd::WifiFrame;
use crate::metrics::{BridgeMetrics, plus};

verus! {

/// How long the first request may stay unanswered before a backup is sent.
pub const ENDPOINT_STALL_THRESHOLD_MS: u64 = 250;

/// How often a response that is still pending is reported.
pub const ENDPOINT_STALL_LOG_INTERVAL_MS: u64 = 5000;

/// How a wait for an endpoint response ended.
#[derive(Debug)]
pub struct EndpointWaitResult<T, E> {
    pub result: Result<T, E>,
    /// How long the wait took in milliseconds, when it passed the threshold.
    pub stalled_for: Option<u64>,
    /// Whether a backup request was sent.
    pub backup_sent: bool,
    /// How many failed requests were ignored because another was pending.
    pub discarded_errors: u8,
}

/// Which responses a wait can still get.
#[derive(Clone, Copy, Debug, PartialEq, Eq, Structural)]
pub enum WaitPhase {
    /// Only the first request was sent.
    Primary,
    /// The first request and the backup are both pending.
    Both,
    /// The first request failed; the backup is pending.
    OnlyBackup,
    /// The backup failed; the first request is pending.
    OnlyPrimary,
    /// The wait is over.
    Done,
}

/// What can happen during a wait.
#[derive(Debug)]
pub enum WaitEvent<T, E> {
    /// The first request was answered or failed.
    Primary(Result<T, E>),
    /// The backup was answered or failed.
    Backup(Result<T, E>),
    /// The deadline has passed.
    Deadline,
    /// The program is shutting down.
    Cancelled,
}

/// What to do after an event.
#[derive(Debug)]
pub enum WaitAction<T, E> {
    /// Send the backup request, and go on waiting.
    SendBackup,
    /// Report that the response is still pending, and go on waiting.
    StillPending,
    /// Report the failure of one of two requests, and wait for the other.
    Discard(E),
    /// The wait is over with this outcome.
    Finish(EndpointWaitResult<T, E>),
    /// The wait is over without an outcome.
    Abandon,
}

/// Awaits one request while its response socket stays open on a slow peer.
///
/// One idempotent backup covers a request or a response that was lost. Both
/// response sockets stay open after that, so a late response is still taken, and
/// the peer sees at most one duplicate.
#[derive(Clone, Copy, Debug, PartialEq, Eq, Structural)]
pub struct EndpointWait {
    pub phase: WaitPhase,
    /// When to report next, in milliseconds since the request was sent.
    pub deadline_ms: u64,
}

impl EndpointWait {
    /// Whether the event can happen at the given time.
    pub open spec fn accepts<T, E>(self, event: WaitEvent<T, E>, now_ms: u64) -> bool {
        match event {
            WaitEvent::Primary(_) => self.phase is Primary || self.phase is Both
                || self.phase is OnlyPrimary,
            WaitEvent::Backup(_) => self.phase is Both || self.phase is OnlyBackup,
            WaitEvent::Deadline => !(self.phase is Done) && now_ms >= self.deadline_ms,
            WaitEvent::Cancelled => !(self.phase is Done),
        }
    }

    /// The state that follows.
    pub open spec fn next<T, E>(self, event: WaitEvent<T, E>, now_ms: u64) -> EndpointWait {
        match event {
            WaitEvent::Primary(Err(_)) if self.phase is Both => EndpointWait {
                phase: WaitPhase::OnlyBackup,
                ..self
            },
            WaitEvent::Backup(Err(_)) if self.phase is Both => EndpointWait {
                phase: WaitPhase::OnlyPrimary,
                ..self
            },
            WaitEvent::Deadline => EndpointWait {
                phase: if self.phase is Primary {
                    WaitPhase::Both
                } else {
                    self.phase
                },
                deadline_ms: later(now_ms),
            },
            _ => EndpointWait { phase: WaitPhase::Done, ..self },
        }
    }

    /// The action that follows.
    pub open spec fn action<T, E>(self, event: WaitEvent<T, E>, now_ms: u64) -> WaitAction<T, E> {
        match event {
            WaitEvent::Primary(result) => self.reply(result, now_ms),
            WaitEvent::Backup(result) => self.reply(result, now_ms),
            WaitEvent::Deadline => if self.phase is Primary {
                WaitAction::SendBackup
            } else {
                WaitAction::StillPending
            },
            WaitEvent::Cancelled => WaitAction::Abandon,
        }
    }

    /// What to do with a reply: a failure is discarded while the other request is
    /// pending, and ends the wait otherwise. A response always ends it.
    pub open spec fn reply<T, E>(self, result: Result<T, E>, now_ms: u64) -> WaitAction<T, E> {
        match result {
            Err(err) if self.phase is Both => WaitAction::Discard(err),
            _ => WaitAction::Finish(
                EndpointWaitResult {
                    result,
                    stalled_for: if self.phase is Primary {
                        None
                    } else {
                        Some(now_ms)
                    },
                    backup_sent: !(self.phase is Primary),
                    discarded_errors: if self.phase is OnlyBackup || self.phase is OnlyPrimary {
                        1
                    } else {
                        0
                    },
                },
            ),
        }
    }

    /// A wait for a request that has just been sent.
    pub fn new() -> (r: EndpointWait)
        ensures
            r == (EndpointWait {
                phase: WaitPhase::Primary,
                deadline_ms: ENDPOINT_STALL_THRESHOLD_MS,
            }),
    {
        EndpointWait { phase: WaitPhase::Primary, deadline_ms: ENDPOINT_STALL_THRESHOLD_MS }
    }

    /// Takes an event at a time in milliseconds since the request was sent.
    pub fn step<T, E>(&mut self, event: WaitEvent<T, E>, now_ms: u64) -> (r: WaitAction<T, E>)
        requires
            old(self).accepts(event, now_ms),
        ensures
            *final(self) == old(self).next(event, now_ms),
            r == old(self).action(event, now_ms),
    {
        match event {
            WaitEvent::Primary(result) => self.take_reply(result, now_ms, WaitPhase::OnlyBackup),
            WaitEvent::Backup(result) => self.take_reply(result, now_ms, WaitPhase::OnlyPrimary),
            WaitEvent::Deadline => {
                self.deadline_ms = now_ms.saturating_add(ENDPOINT_STALL_LOG_INTERVAL_MS);
                match self.phase {
                    WaitPhase::Primary => {
                        self.phase = WaitPhase::Both;
                        WaitAction::SendBackup
                    },
                    _ => WaitAction::StillPending,
                }
            },
            WaitEvent::Cancelled => {
                self.phase = WaitPhase::Done;
                WaitAction::Abandon
            },
        }
    }

    /// Takes a reply; `other` is the phase in which the other request is pending.
    fn take_reply<T, E>(&mut self, result: Result<T, E>, now_ms: u64, other: WaitPhase) -> (r:
        WaitAction<T, E>)
        ensures
            final(self).deadline_ms == old(self).deadline_ms,
            final(self).phase == if result is Err && old(self).phase is Both {
                other
            } else {
                WaitPhase::Done
            },
            r == old(self).reply(result, now_ms),
    {
        let (stalled_for, backup_sent, discarded_errors): (Option<u64>, bool, u8) =
            match self.phase {
            WaitPhase::Primary => (None, false, 0),
            WaitPhase::OnlyBackup => (Some(now_ms), true, 1),
            WaitPhase::OnlyPrimary => (Some(now_ms), true, 1),
            WaitPhase::Done => (Some(now_ms), true, 0),
            WaitPhase::Both => match result {
                Err(err) => {
                    self.phase = other;
                    return WaitAction::Discard(err);
                },
                Ok(_) => (Some(now_ms), true, 0),
            },
        };
        self.phase = WaitPhase::Done;
        WaitAction::Finish(
            EndpointWaitResult { result, stalled_for, backup_sent, discarded_errors },
        )
    }
}

/// The time of the next report after one at the given time.
pub open spec fn later(now_ms: u64) -> u64 {
    if now_ms + ENDPOINT_STALL_LOG_INTERVAL_MS > u64::MAX {
        u64::MAX
    } else {
        (now_ms + ENDPOINT_STALL_LOG_INTERVAL_MS) as u64
    }
}

/// A wait, and what has happened in it.
pub struct WaitHistory<T, E> {
    pub wait: EndpointWait,
    /// The time of the last event.
    pub now_ms: u64,
    /// How many requests were sent.
    pub sent: nat,
    /// How many of them failed.
    pub failed: nat,
    /// What the wait finished with.
    pub finished: Option<EndpointWaitResult<T, E>>,
}

impl<T, E> WaitHistory<T, E> {
    /// A wait that has just begun.
    pub open spec fn fresh() -> WaitHistory<T, E> {
        WaitHistory {
            wait: EndpointWait {
                phase: WaitPhase::Primary,
                deadline_ms: ENDPOINT_STALL_THRESHOLD_MS,
            },
            now_ms: 0,
            sent: 1,
            failed: 0,
            finished: None,
        }
    }

    /// Whether the event can happen next. Time does not run backwards.
    pub open spec fn possible(self, event: (WaitEvent<T, E>, u64)) -> bool {
        self.wait.accepts(event.0, event.1) && self.now_ms <= event.1
    }

    /// The history after an event.
    pub open spec fn next(self, event: (WaitEvent<T, E>, u64)) -> WaitHistory<T, E> {
        let action = self.wait.action(event.0, event.1);
        WaitHistory {
            wait: self.wait.next(event.0, event.1),
            now_ms: event.1,
            sent: if action is SendBackup {
                self.sent + 1
            } else {
                self.sent
            },
            failed: match event.0 {
                WaitEvent::Primary(Err(_)) => self.failed + 1,
                WaitEvent::Backup(Err(_)) => self.failed + 1,
                _ => self.failed,
            },
            finished: match action {
                WaitAction::Finish(result) => Some(result),
                _ => self.finished,
            },
        }
    }

    /// The history after a sequence of events.
    pub open spec fn after(self, events: Seq<(WaitEvent<T, E>, u64)>) -> WaitHistory<T, E>
        decreases events.len(),
    {
        if events.len() == 0 {
            self
        } else {
            self.after(events.drop_last()).next(events.last())
        }
    }

    /// Whether each event of the sequence can happen where it stands.
    pub open spec fn possible_all(self, events: Seq<(WaitEvent<T, E>, u64)>) -> bool {
        forall|i: int|
            0 <= i < events.len() ==> self.after(events.take(i)).possible(#[trigger] events[i])
    }

    /// What holds at every moment.
    spec fn inv(self) -> bool {
        let phase = self.wait.phase;
        &&& self.sent == 1 || self.sent == 2
        &&& phase is Primary ==> self.sent == 1 && self.failed == 0 && self.wait.deadline_ms
            == ENDPOINT_STALL_THRESHOLD_MS
        &&& phase is Both ==> self.sent == 2 && self.failed == 0
        &&& phase is OnlyBackup || phase is OnlyPrimary ==> self.sent == 2 && self.failed == 1
        &&& self.sent == 2 ==> self.now_ms >= ENDPOINT_STALL_THRESHOLD_MS
        &&& self.finished matches Some(end) ==> {
            &&& phase is Done
            &&& self.ended_well(end)
        }
    }

    /// What the outcome says of the requests.
    pub open spec fn ended_well(self, end: EndpointWaitResult<T, E>) -> bool {
        &&& end.backup_sent == (self.sent == 2)
        &&& end.backup_sent == (end.stalled_for is Some)
        &&& end.stalled_for matches Some(ms) ==> ms == self.now_ms && ms
            >= ENDPOINT_STALL_THRESHOLD_MS
        &&& end.result is Err ==> self.failed == self.sent
        &&& end.discarded_errors == self.failed - if end.result is Err {
            1int
        } else {
            0
        }
    }
}

proof fn wait_keeps_inv<T, E>(events: Seq<(WaitEvent<T, E>, u64)>)
    requires
        WaitHistory::<T, E>::fresh().possible_all(events),
    ensures
        WaitHistory::<T, E>::fresh().after(events).inv(),
    decreases events.len(),
{
    let start = WaitHistory::<T, E>::fresh();
    if events.len() > 0 {
        let before = events.drop_last();
        assert forall|i: int| 0 <= i < before.len() implies start.after(before.take(i)).possible(
            #[trigger] before[i],
        ) by {
            assert(before.take(i) =~= events.take(i));
            assert(before[i] == events[i]);
        }
        wait_keeps_inv(before);
        assert(events.take(events.len() - 1) =~= before);
        assert(start.after(before).possible(events[events.len() - 1]));
    }
}

/// However long a wait takes, at most two requests are sent: the first and one
/// backup.
pub proof fn at_most_one_backup_is_sent<T, E>(events: Seq<(WaitEvent<T, E>, u64)>)
    requires
        WaitHistory::<T, E>::fresh().possible_all(events),
    ensures
        1 <= WaitHistory::<T, E>::fresh().after(events).sent <= 2,
{
    wait_keeps_inv(events);
}

/// The outcome of a wait is truthful. It says whether a backup was sent, and then
/// that the threshold had passed; it is a failure only when every request that
/// was sent has failed; and it counts the failures that it does not hold.
pub proof fn the_outcome_of_a_wait_is_truthful<T, E>(events: Seq<(WaitEvent<T, E>, u64)>)
    requires
        WaitHistory::<T, E>::fresh().possible_all(events),
    ensures
        ({
            let history = WaitHistory::<T, E>::fresh().after(events);
            history.finished matches Some(end) ==> history.ended_well(end)
        }),
{
    wait_keeps_inv(events);
}

/// A response ends the wait at once and is the outcome, whichever request it
/// answers and whatever has failed before.
pub proof fn a_response_is_never_replaced<T, E>(wait: EndpointWait, response: T, backup: bool, now_ms: u64)
    ensures
        ({
            let event = if backup {
                WaitEvent::<T, E>::Backup(Ok(response))
            } else {
                WaitEvent::<T, E>::Primary(Ok(response))
            };
            &&& wait.next(event, now_ms).phase is Done
            &&& (wait.action(event, now_ms) matches WaitAction::Finish(end) && end.result == Ok::<
                T,
                E,
            >(response))
        }),
{
}

/// How often the MAC address is asked for.
pub const MAC_QUERY_RETRIES: u32 = 3;

/// The pause after each failed attempt.
pub const MAC_QUERY_RETRY_DELAY_MS: u64 = 300;

/// How long one attempt may take.
pub const MAC_QUERY_TIMEOUT_MS: u64 = 2000;

/// What the MAC query is doing.
#[derive(Debug)]
pub enum MacQueryPhase<E> {
    /// An attempt is running.
    Asking,
    /// The attempt failed; the pause after it is running.
    Pausing(E),
    /// The query is over.
    Done,
}

/// What can happen during the query.
#[derive(Debug)]
pub enum MacQueryEvent<E> {
    /// The device answered with its MAC address.
    Answer([u8; 6]),
    /// The attempt failed or timed out.
    Failed(E),
    /// The pause is over.
    PauseOver,
}

/// What to do after an event.
#[derive(Debug)]
pub enum MacQueryAction<E> {
    /// Ask the device.
    Ask,
    /// Pause.
    Pause,
    /// The query is over.
    Finish(Result<[u8; 6], E>),
}

/// Asks for the MAC address a limited number of times. Its first action is to
/// ask.
#[derive(Debug)]
pub struct MacQuery<E> {
    /// The number of the current attempt, from one.
    pub attempt: u32,
    /// The number of attempts that there may be.
    pub limit: u32,
    pub phase: MacQueryPhase<E>,
}

impl<E> MacQuery<E> {
    /// The attempts are counted within the limit.
    pub open spec fn wf(self) -> bool {
        1 <= self.attempt <= self.limit
    }

    /// Whether the event can follow the last action.
    pub open spec fn accepts(self, event: MacQueryEvent<E>) -> bool {
        match self.phase {
            MacQueryPhase::Asking => event is Answer || event is Failed,
            MacQueryPhase::Pausing(_) => event is PauseOver,
            MacQueryPhase::Done => false,
        }
    }

    /// The state that follows.
    pub open spec fn next(self, event: MacQueryEvent<E>) -> MacQuery<E> {
        match event {
            MacQueryEvent::Failed(err) => MacQuery { phase: MacQueryPhase::Pausing(err), ..self },
            MacQueryEvent::PauseOver if self.attempt < self.limit => MacQuery {
                attempt: (self.attempt + 1) as u32,
                phase: MacQueryPhase::Asking,
                ..self
            },
            _ => MacQuery { phase: MacQueryPhase::Done, ..self },
        }
    }

    /// The action that follows: the first answer is the result, and without one
    /// the last failure is.
    pub open spec fn action(self, event: MacQueryEvent<E>) -> MacQueryAction<E> {
        match event {
            MacQueryEvent::Answer(mac) => MacQueryAction::Finish(Ok(mac)),
            MacQueryEvent::Failed(_) => MacQueryAction::Pause,
            MacQueryEvent::PauseOver => if self.attempt < self.limit {
                MacQueryAction::Ask
            } else {
                MacQueryAction::Finish(Err(self.phase->Pausing_0))
            },
        }
    }

    /// A query with at most `limit` attempts.
    pub fn new(limit: u32) -> (r: MacQuery<E>)
        requires
            limit >= 1,
        ensures
            r.wf(),
            r == (MacQuery::<E> { attempt: 1, limit, phase: MacQueryPhase::Asking }),
    {
        MacQuery { attempt: 1, limit, phase: MacQueryPhase::Asking }
    }

    /// Takes an event.
    pub fn step(&mut self, event: MacQueryEvent<E>) -> (r: MacQueryAction<E>)
        requires
            old(self).wf(),
            old(self).accepts(event),
        ensures
            final(self).wf(),
            *final(self) == old(self).next(event),
            r == old(self).action(event),
    {
        let mut phase = MacQueryPhase::Done;
        core::mem::swap(&mut phase, &mut self.phase);
        match event {
            MacQueryEvent::Answer(mac) => MacQueryAction::Finish(Ok(mac)),
            MacQueryEvent::Failed(err) => {
                self.phase = MacQueryPhase::Pausing(err);
                MacQueryAction::Pause
            },
            MacQueryEvent::PauseOver => {
                if self.attempt < self.limit {
                    self.attempt = self.attempt + 1;
                    self.phase = MacQueryPhase::Asking;
                    MacQueryAction::Ask
                } else {
                    match phase {
                        MacQueryPhase::Pausing(err) => MacQueryAction::Finish(Err(err)),
                        _ => MacQueryAction::Ask,
                    }
                }
            },
        }
    }
}

/// The state of a query that has only seen failures: `errors[i]` is what the
/// attempt with that index failed with, and each was followed by a pause.
pub open spec fn after_failures<E>(query: MacQuery<E>, errors: Seq<E>) -> MacQuery<E>
    decreases errors.len(),
{
    if errors.len() == 0 {
        query
    } else {
        after_failures(query, errors.drop_last()).next(MacQueryEvent::Failed(errors.last())).next(
            MacQueryEvent::PauseOver,
        )
    }
}

/// A query gives up exactly after its last attempt, with the failure of that one;
/// until then every failure is followed by another attempt.
pub proof fn the_query_gives_up_after_its_last_attempt<E>(limit: u32, errors: Seq<E>, err: E)
    requires
        1 <= limit,
        errors.len() < limit,
    ensures
        ({
            let start = MacQuery::<E> { attempt: 1, limit, phase: MacQueryPhase::Asking };
            let query = after_failures(start, errors);
            let failed = query.next(MacQueryEvent::Failed(err));
            &&& query.wf()
            &&& query.limit == limit
            &&& query.phase is Asking
            &&& query.attempt == errors.len() + 1
            &&& failed.action(MacQueryEvent::PauseOver) == if errors.len() + 1 < limit {
                MacQueryAction::Ask
            } else {
                MacQueryAction::Finish(Err(err))
            }
        }),
    decreases errors.len(),
{
    if errors.len() > 0 {
        the_query_gives_up_after_its_last_attempt(limit, errors.drop_last(), errors.last());
    }
}

/// How long the TAP reader pauses after a failed read.
pub const TAP_ERROR_PAUSE_MS: u64 = 100;

/// What the TAP reader does with a read.
#[derive(Debug)]
pub enum TapRead {
    /// Read again.
    Skip,
    /// Queue this frame for the exchange.
    Queue(WifiFrame),
}

/// Takes what was read from the TAP interface. Empty and oversized reads are
/// skipped and not counted; a frame is counted and queued.
pub fn take_tap_read(read: &[u8], metrics: &mut BridgeMetrics) -> (r: TapRead)
    ensures
        0 < read@.len() <= crate::icd::MAX_FRAME_SIZE ==> {
            &&& (r matches TapRead::Queue(frame) && frame@ == read@)
            &&& *final(metrics) == old(metrics).with_tap_rx(read@.len() as u64)
        },
        read@.len() == 0 || read@.len() > crate::icd::MAX_FRAME_SIZE ==> {
            &&& r is Skip
            &&& *final(metrics) == *old(metrics)
        },
{
    if read.len() == 0 {
        return TapRead::Skip;
    }
    match WifiFrame::from_slice(read) {
        Some(frame) => {
            metrics.record_tap_rx(read.len());
            TapRead::Queue(frame)
        },
        None => TapRead::Skip,
    }
}

/// What the TAP reader is doing.
#[derive(Clone, Copy, Debug, PartialEq, Eq, Structural)]
pub enum TapPhase {
    /// Reads from the TAP interface.
    Reading,
    /// Waits for room in the queue.
    Queueing,
    /// Pauses after a failed read.
    Pausing,
    /// The reader has ended.
    Stopped,
}

/// What can happen to the TAP reader.
#[derive(Clone, Copy, Debug)]
pub enum TapEvent<'a> {
    /// These bytes were read.
    Read(&'a [u8]),
    /// The read failed.
    ReadFailed,
    /// The pause is over.
    PauseOver,
    /// The queue took the frame.
    Queued,
    /// Nobody takes from the queue any more.
    QueueClosed,
    /// The program is shutting down.
    Cancelled,
}

/// What the TAP reader does next.
#[derive(Debug)]
pub enum TapAction {
    /// Read, or stop at a shutdown.
    Read,
    /// Put this frame into the queue, or stop at a shutdown.
    Queue(WifiFrame),
    /// Pause for this many milliseconds.
    Pause(u64),
    /// End.
    Stop,
}

/// What the TAP reader does next, with the bytes of a frame.
pub enum TapActionView {
    Read,
    Queue(Seq<u8>),
    Pause(u64),
    Stop,
}

impl View for TapAction {
    type V = TapActionView;

    open spec fn view(&self) -> TapActionView {
        match self {
            TapAction::Read => TapActionView::Read,
            TapAction::Queue(frame) => TapActionView::Queue(frame@),
            TapAction::Pause(ms) => TapActionView::Pause(*ms),
            TapAction::Stop => TapActionView::Stop,
        }
    }
}

/// Whether a read is a frame.
pub open spec fn is_frame(read: Seq<u8>) -> bool {
    0 < read.len() <= crate::icd::MAX_FRAME_SIZE
}

/// Reads frames from the TAP interface into a queue. Its first action is to read.
#[derive(Clone, Copy, Debug, PartialEq, Eq, Structural)]
pub struct TapReader {
    pub phase: TapPhase,
}

impl TapReader {
    /// Whether the event can follow the last action.
    pub open spec fn accepts(self, event: TapEvent) -> bool {
        match self.phase {
            TapPhase::Reading => event is Read || event is ReadFailed || event is Cancelled,
            TapPhase::Queueing => event is Queued || event is QueueClosed || event is Cancelled,
            TapPhase::Pausing => event is PauseOver,
            TapPhase::Stopped => false,
        }
    }

    /// The action that follows.
    pub open spec fn action(event: TapEvent) -> TapActionView {
        match event {
            TapEvent::Read(read) if is_frame(read@) => TapActionView::Queue(read@),
            TapEvent::ReadFailed => TapActionView::Pause(TAP_ERROR_PAUSE_MS),
            TapEvent::QueueClosed => TapActionView::Stop,
            TapEvent::Cancelled => TapActionView::Stop,
            _ => TapActionView::Read,
        }
    }

    /// The state that follows.
    pub open spec fn next(event: TapEvent) -> TapReader {
        TapReader {
            phase: match TapReader::action(event) {
                TapActionView::Read => TapPhase::Reading,
                TapActionView::Queue(_) => TapPhase::Queueing,
                TapActionView::Pause(_) => TapPhase::Pausing,
                TapActionView::Stop => TapPhase::Stopped,
            },
        }
    }

    /// The counters that follow.
    pub open spec fn counted(event: TapEvent, metrics: BridgeMetrics) -> BridgeMetrics {
        match event {
            TapEvent::Read(read) if is_frame(read@) => metrics.with_tap_rx(read@.len() as u64),
            TapEvent::ReadFailed => BridgeMetrics {
                tap_errors: plus(metrics.tap_errors, 1),
                ..metrics
            },
            _ => metrics,
        }
    }

    /// A reader that starts to read.
    pub fn new() -> (r: TapReader)
        ensures
            r.phase is Reading,
    {
        TapReader { phase: TapPhase::Reading }
    }

    /// Takes an event, and counts what is to be counted.
    pub fn step(&mut self, event: TapEvent, metrics: &mut BridgeMetrics) -> (r: TapAction)
        requires
            old(self).accepts(event),
        ensures
            *final(self) == TapReader::next(event),
            r@ == TapReader::action(event),
            *final(metrics) == TapReader::counted(event, *old(metrics)),
    {
        match event {
            TapEvent::Read(read) => match take_tap_read(read, metrics) {
                TapRead::Queue(frame) => {
                    self.phase = TapPhase::Queueing;
                    TapAction::Queue(frame)
                },
                TapRead::Skip => {
                    self.phase = TapPhase::Reading;
                    TapAction::Read
                },
            },
            TapEvent::ReadFailed => {
                metrics.record_tap_error();
                self.phase = TapPhase::Pausing;
                TapAction::Pause(TAP_ERROR_PAUSE_MS)
            },
            TapEvent::PauseOver | TapEvent::Queued => {
                self.phase = TapPhase::Reading;
                TapAction::Read
            },
            TapEvent::QueueClosed | TapEvent::Cancelled => {
                self.phase = TapPhase::Stopped;
                TapAction::Stop
            },
        }
    }
}

/// The frames among successive reads, in order.
pub open spec fn frames_read(events: Seq<TapEvent>) -> Seq<Seq<u8>>
    decreases events.len(),
{
    if events.len() == 0 {
        Seq::empty()
    } else {
        let before = frames_read(events.drop_last());
        match events.last() {
            TapEvent::Read(read) if is_frame(read@) => before.push(read@),
            _ => before,
        }
    }
}

/// How many bytes some frames have together.
pub open spec fn total_len(frames: Seq<Seq<u8>>) -> nat
    decreases frames.len(),
{
    if frames.len() == 0 {
        0
    } else {
        total_len(frames.drop_last()) + frames.last().len()
    }
}

/// How many reads failed.
pub open spec fn failed_reads(events: Seq<TapEvent>) -> nat
    decreases events.len(),
{
    if events.len() == 0 {
        0
    } else {
        failed_reads(events.drop_last()) + crate::metrics::one_if(events.last() is ReadFailed)
    }
}

/// A TAP reader at work.
pub struct TapHistory {
    pub reader: TapReader,
    pub metrics: BridgeMetrics,
    /// The frame that waits for room in the queue.
    pub offered: Seq<Seq<u8>>,
    /// The frames that the queue took.
    pub queued: Seq<Seq<u8>>,
}

impl TapHistory {
    /// A reader that has just started, with counters as they are.
    pub open spec fn fresh(metrics: BridgeMetrics) -> TapHistory {
        TapHistory {
            reader: TapReader { phase: TapPhase::Reading },
            metrics,
            offered: Seq::empty(),
            queued: Seq::empty(),
        }
    }

    /// The history after an event. A frame that was offered when the reader ends is
    /// not queued.
    pub open spec fn next(self, event: TapEvent) -> TapHistory {
        TapHistory {
            reader: TapReader::next(event),
            metrics: TapReader::counted(event, self.metrics),
            offered: match (event, TapReader::action(event)) {
                (_, TapActionView::Queue(frame)) => seq![frame],
                (TapEvent::Queued, _) => Seq::empty(),
                _ => self.offered,
            },
            queued: if event is Queued {
                self.queued + self.offered
            } else {
                self.queued
            },
        }
    }

    /// The history after a sequence of events.
    pub open spec fn after(self, events: Seq<TapEvent>) -> TapHistory
        decreases events.len(),
    {
        if events.len() == 0 {
            self
        } else {
            self.after(events.drop_last()).next(events.last())
        }
    }

    /// Whether each event of the sequence can happen where it stands.
    pub open spec fn possible_all(self, events: Seq<TapEvent>) -> bool {
        forall|i: int|
            0 <= i < events.len() ==> self.after(events.take(i)).reader.accepts(
                #[trigger] events[i],
            )
    }
}

proof fn plus_twice(counter: u64, a: nat, b: nat)
    ensures
        plus(counter, 0) == counter,
        plus(plus(counter, a), b) == plus(counter, a + b),
{
}

/// The counters with so many frames, bytes and failed reads more.
pub open spec fn reads_counted(metrics: BridgeMetrics, frames: nat, bytes: nat, failures: nat) -> BridgeMetrics {
    BridgeMetrics {
        tap_rx_frames: plus(metrics.tap_rx_frames, frames),
        tap_rx_bytes: plus(metrics.tap_rx_bytes, bytes),
        tap_errors: plus(metrics.tap_errors, failures),
        ..metrics
    }
}

proof fn one_more_event(metrics: BridgeMetrics, events: Seq<TapEvent>)
    requires
        events.len() > 0,
    ensures
        ({
            let before = events.drop_last();
            TapReader::counted(
                events.last(),
                reads_counted(
                    metrics,
                    frames_read(before).len(),
                    total_len(frames_read(before)),
                    failed_reads(before),
                ),
            ) == reads_counted(
                metrics,
                frames_read(events).len(),
                total_len(frames_read(events)),
                failed_reads(events),
            )
        }),
{
    let before = events.drop_last();
    let frames = frames_read(before);
    plus_twice(metrics.tap_rx_frames, frames.len(), 1);
    plus_twice(metrics.tap_errors, failed_reads(before), 1);
    if let TapEvent::Read(read) = events.last() {
        if is_frame(read@) {
            assert(frames_read(events).drop_last() =~= frames);
            plus_twice(metrics.tap_rx_bytes, total_len(frames), read@.len());
        }
    }
}

/// Every frame that is read reaches the queue once and in order: what the queue
/// took, and then the frame on offer to it, is everything that was read and is a
/// frame. The counters agree: one for each frame with its length, one for each
/// failed read, and no other. The reader ends with the shutdown or with the queue,
/// and with nothing else.
pub proof fn every_read_is_queued_once(metrics: BridgeMetrics, events: Seq<TapEvent>)
    requires
        TapHistory::fresh(metrics).possible_all(events),
    ensures
        ({
            let history = TapHistory::fresh(metrics).after(events);
            let frames = frames_read(events);
            &&& frames == history.queued + history.offered
            &&& history.offered.len() <= 1
            &&& history.reader.phase is Reading || history.reader.phase is Pausing
                ==> history.offered.len() == 0
            &&& history.metrics == reads_counted(
                metrics,
                frames.len(),
                total_len(frames),
                failed_reads(events),
            )
            &&& history.reader.phase is Stopped <==> events.len() > 0 && (events.last() is Cancelled
                || events.last() is QueueClosed)
        }),
    decreases events.len(),
{
    let start = TapHistory::fresh(metrics);
    if events.len() == 0 {
        assert(frames_read(events) =~= start.queued + start.offered);
        plus_twice(metrics.tap_rx_frames, 0, 0);
        plus_twice(metrics.tap_rx_bytes, 0, 0);
        plus_twice(metrics.tap_errors, 0, 0);
    } else {
        let before = events.drop_last();
        assert forall|i: int| 0 <= i < before.len() implies start.after(
            before.take(i),
        ).reader.accepts(#[trigger] before[i]) by {
            assert(before.take(i) =~= events.take(i));
            assert(before[i] == events[i]);
        }
        every_read_is_queued_once(metrics, before);
        assert(events.take(events.len() - 1) =~= before);
        let last = events[events.len() - 1];
        assert(start.after(before).reader.accepts(last));
        let frames = frames_read(events);
        let history = start.after(events);
        assert(frames =~= history.queued + history.offered);
        one_more_event(metrics, events);
    }
}

/// What a wait does with each event. A response always ends it, and is its result. The
/// failure of the only pending request ends it too; the failure of one of two is put
/// aside, and the other stays pending. The first deadline, after 250 milliseconds, sends
/// the backup; each later one only reports, five seconds after the one before.
#[verifier::rlimit(60)]
#[verifier::spinoff_prover]
pub proof fn a_wait_answers_every_event<T, E>(wait: EndpointWait, event: WaitEvent<T, E>, now_ms: u64)
    requires
        wait.accepts(event, now_ms),
    ensures
        ({
            let next = wait.next(event, now_ms);
            let action = wait.action(event, now_ms);
            let alone = !(wait.phase is Both);
            let result = match event {
                WaitEvent::Primary(result) => Some(result),
                WaitEvent::Backup(result) => Some(result),
                _ => None,
            };
            &&& event is Cancelled ==> action is Abandon && next.phase is Done
            &&& event is Deadline ==> {
                &&& wait.phase is Primary ==> action is SendBackup && next.phase is Both
                &&& !(wait.phase is Primary) ==> action is StillPending && next.phase == wait.phase
                &&& now_ms + 5000 <= u64::MAX ==> next.deadline_ms == now_ms + 5000
                &&& next.deadline_ms >= now_ms
            }
            &&& !(event is Deadline) ==> next.deadline_ms == wait.deadline_ms
            &&& result matches Some(Ok(response)) ==> next.phase is Done && (action matches
                WaitAction::Finish(end) && end.result == Ok::<T, E>(response))
            &&& result matches Some(Err(err)) ==> {
                &&& alone ==> next.phase is Done && (action matches WaitAction::Finish(end)
                    && end.result == Err::<T, E>(err))
                &&& !alone ==> action == WaitAction::<T, E>::Discard(err)
                &&& !alone && event is Primary ==> next.phase is OnlyBackup
                &&& !alone && event is Backup ==> next.phase is OnlyPrimary
            }
            &&& action matches WaitAction::Finish(end) ==> {
                &&& end.backup_sent == !(wait.phase is Primary)
                &&& end.stalled_for == if wait.phase is Primary {
                    None
                } else {
                    Some(now_ms)
                }
                &&& end.discarded_errors == 1 <==> wait.phase is OnlyBackup || wait.phase
                    is OnlyPrimary
                &&& end.discarded_errors <= 1
            }
        }),
{
}

/// A backup is sent no earlier than 250 milliseconds after the request, and every later
/// report is at least five seconds after the one before it.
pub proof fn a_backup_waits_a_quarter_second<T, E>(events: Seq<(WaitEvent<T, E>, u64)>)
    requires
        WaitHistory::<T, E>::fresh().possible_all(events),
    ensures
        ({
            let history = WaitHistory::<T, E>::fresh().after(events);
            &&& history.wait.phase is Primary ==> history.wait.deadline_ms == 250
            &&& history.sent == 2 ==> history.now_ms >= 250
            &&& history.finished matches Some(end) ==> {
                &&& end.stalled_for is Some <==> end.backup_sent
                &&& end.stalled_for matches Some(ms) ==> ms >= 250 && ms == history.now_ms
                &&& end.result is Err ==> history.failed == history.sent
            }
        }),
{
    wait_keeps_inv(events);
}

/// What a query for the MAC address does with each event: an answer ends it and is its
/// result, a failure is followed by a pause, and a pause by another attempt while there
/// are attempts left, and otherwise by the last failure.
pub proof fn a_query_answers_every_event<E>(query: MacQuery<E>, mac: [u8; 6], err: E)
    ensures
        query.action(MacQueryEvent::Answer(mac)) == MacQueryAction::<E>::Finish(Ok(mac)),
        query.next(MacQueryEvent::Answer(mac)).phase is Done,
        query.action(MacQueryEvent::Failed(err)) is Pause,
        query.next(MacQueryEvent::Failed(err)).attempt == query.attempt,
        query.next(MacQueryEvent::Failed(err)).limit == query.limit,
        ({
            let failed = query.next(MacQueryEvent::Failed(err));
            let again = failed.next(MacQueryEvent::PauseOver);
            &&& query.attempt < query.limit ==> {
                &&& failed.action(MacQueryEvent::PauseOver) is Ask
                &&& again.phase is Asking && again.attempt == query.attempt + 1
                &&& again.limit == query.limit
            }
            &&& query.attempt >= query.limit ==> {
                &&& failed.action(MacQueryEvent::PauseOver) == MacQueryAction::Finish(Err(err))
                &&& again.phase is Done
            }
        }),
{
}

/// A read is a frame when it has at least one byte and no more than an Ethernet frame of
/// 1514; only then is it queued and counted. After a failed read there is a pause of a
/// tenth of a second.
#[verifier::rlimit(60)]
#[verifier::spinoff_prover]
pub proof fn a_frame_is_not_empty_and_not_too_long<'a>(read: &'a [u8], metrics: BridgeMetrics)
    ensures
        is_frame(read@) <==> 1 <= read@.len() <= 1514,
        TapReader::action(TapEvent::Read(read)) == if 1 <= read@.len() <= 1514 {
            TapActionView::Queue(read@)
        } else {
            TapActionView::Read
        },
        TapReader::action(TapEvent::ReadFailed) == TapActionView::Pause(100),
        TapReader::action(TapEvent::PauseOver) is Read,
        TapReader::action(TapEvent::Queued) is Read,
        TapReader::action(TapEvent::QueueClosed) is Stop,
        TapReader::action(TapEvent::Cancelled) is Stop,
        ({
            let counted = TapReader::counted(TapEvent::Read(read), metrics);
            let failed = TapReader::counted(TapEvent::ReadFailed, metrics);
            &&& 1 <= read@.len() <= 1514 ==> counted.tap_rx_frames == (metrics.tap_rx_frames + 1)
                % 0x1_0000_0000_0000_0000 && counted.tap_rx_bytes == (metrics.tap_rx_bytes
                + read@.len()) % 0x1_0000_0000_0000_0000
            &&& !(1 <= read@.len() <= 1514) ==> counted == metrics
            &&& counted.tap_errors == metrics.tap_errors
            &&& counted.tap_tx_frames == metrics.tap_tx_frames
            &&& failed.tap_errors == (metrics.tap_errors + 1) % 0x1_0000_0000_0000_0000
            &&& failed.tap_rx_frames == metrics.tap_rx_frames
            &&& TapReader::counted(TapEvent::Queued, metrics) == metrics
            &&& TapReader::counted(TapEvent::PauseOver, metrics) == metrics
            &&& TapReader::counted(TapEvent::QueueClosed, metrics) == metrics
            &&& TapReader::counted(TapEvent::Cancelled, metrics) == metrics
        }),
{
}

/// How long the device has to tell its MAC address: three attempts of two seconds, with
/// three tenths of a second after each.
pub proof fn the_mac_query_ends_in_time()
    ensures
        MAC_QUERY_RETRIES == 3,
        MAC_QUERY_RETRIES * (MAC_QUERY_TIMEOUT_MS + MAC_QUERY_RETRY_DELAY_MS) == 6900,
        MAC_QUERY_TIMEOUT_MS == 2 * 1000,
{
}

/// What the TAP reader does is seen as what it is, with the bytes of the frame.
pub proof fn reader_actions_are_seen_as_they_are(action: TapAction)
    ensures
        action is Read <==> action@ is Read,
        action is Stop <==> action@ is Stop,
        action matches TapAction::Queue(frame) ==> action@ == TapActionView::Queue(frame@),
        action matches TapAction::Pause(ms) ==> action@ == TapActionView::Pause(ms),
{
}

} // verus!
