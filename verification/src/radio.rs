//! The WiFi side of the device: frames pass between the radio driver, the queue
//! towards the host and the host, and the station keeps its connection.
use vstd::prelude::*;

use crate::icd::WifiFrame;

verus! {

/// Counters of the device bridge. They wrap.
#[derive(Clone, Copy, Debug, PartialEq, Eq, Structural)]
pub struct RadioStats {
    /// Frames from the radio.
    pub wifi_rx: u32,
    /// Frames from the host.
    pub host_rx: u32,
    /// Host frames that the radio has taken.
    pub wifi_tx_ok: u32,
}

/// The counter after one more.
pub open spec fn counted(count: u32) -> u32 {
    ((count + 1) % 0x1_0000_0000) as u32
}

/// What the bridge is doing.
#[derive(Debug)]
pub enum RadioPhase {
    /// Nothing is held.
    Idle,
    /// The host frame waits for the radio to take it.
    Transmit(WifiFrame),
    /// As before, while a received frame is being offered to the host queue.
    OfferWhileSending(WifiFrame),
    /// The host queue is full: a received frame is held back until the radio has
    /// taken the host frame.
    SendHolding(WifiFrame, WifiFrame),
    /// A received frame is being offered to the host queue.
    Offer,
    /// The host queue is full: a received frame is held back.
    Full(WifiFrame),
}

/// What happened at the edges of the bridge.
#[derive(Debug)]
pub enum RadioEvent {
    /// The host sent a frame.
    HostFrame(WifiFrame),
    /// The radio received something; nothing when it was over the frame size.
    RadioFrame(Option<WifiFrame>),
    /// The radio took the host frame.
    Transmitted,
    /// The host queue took the offered frame.
    Queued,
    /// The host queue was full and gave the offered frame back.
    QueueFull(WifiFrame),
    /// The host queue has room again.
    QueueReady,
}

/// What to do next.
#[derive(Debug)]
pub enum RadioAction {
    /// Wait for a host frame or a received frame.
    AwaitAny,
    /// Wait until the radio takes the host frame, or receives one.
    AwaitRadio,
    /// Wait until the radio takes the host frame.
    AwaitToken,
    /// Offer this received frame to the host queue.
    Offer(WifiFrame),
    /// Wait for room in the host queue, or for a host frame.
    AwaitQueueOrHost,
}

/// An action, and whether to acknowledge a host frame before it.
#[derive(Debug)]
pub struct RadioStep {
    pub action: RadioAction,
    pub acknowledge: bool,
}

/// Forwards frames in both directions. While the radio cannot send, received
/// frames are drained; while the host queue is full, sending goes on. So traffic
/// in one direction cannot block the other.
#[derive(Debug)]
pub struct RadioBridge {
    pub phase: RadioPhase,
    pub stats: RadioStats,
}

impl RadioBridge {
    /// Whether the event can follow the action that this state asked for.
    pub open spec fn accepts(self, event: RadioEvent) -> bool {
        match self.phase {
            RadioPhase::Idle => event is HostFrame || event is RadioFrame,
            RadioPhase::Transmit(_) => event is Transmitted || event is RadioFrame,
            RadioPhase::OfferWhileSending(_) => event is Queued || event is QueueFull,
            RadioPhase::SendHolding(_, _) => event is Transmitted,
            RadioPhase::Offer => event is Queued || event is QueueFull,
            RadioPhase::Full(_) => event is QueueReady || event is HostFrame,
        }
    }

    /// The phase that follows.
    pub open spec fn next_phase(self, event: RadioEvent) -> RadioPhase {
        match (self.phase, event) {
            (RadioPhase::Idle, RadioEvent::HostFrame(frame)) => RadioPhase::Transmit(frame),
            (RadioPhase::Idle, RadioEvent::RadioFrame(Some(_))) => RadioPhase::Offer,
            (RadioPhase::Transmit(_), RadioEvent::Transmitted) => RadioPhase::Idle,
            (RadioPhase::Transmit(frame), RadioEvent::RadioFrame(Some(_))) =>
                RadioPhase::OfferWhileSending(frame),
            (RadioPhase::OfferWhileSending(frame), RadioEvent::Queued) => RadioPhase::Transmit(
                frame,
            ),
            (RadioPhase::OfferWhileSending(frame), RadioEvent::QueueFull(held)) =>
                RadioPhase::SendHolding(frame, held),
            (RadioPhase::SendHolding(_, _), RadioEvent::Transmitted) => RadioPhase::Offer,
            (RadioPhase::Offer, RadioEvent::Queued) => RadioPhase::Idle,
            (RadioPhase::Offer, RadioEvent::QueueFull(held)) => RadioPhase::Full(held),
            (RadioPhase::Full(_), RadioEvent::QueueReady) => RadioPhase::Offer,
            (RadioPhase::Full(held), RadioEvent::HostFrame(frame)) => RadioPhase::SendHolding(
                frame,
                held,
            ),
            _ => self.phase,
        }
    }

    /// The state that follows. An idle bridge counts everything that the radio
    /// received; while it waits to send it counts the frames that fit.
    pub open spec fn next(self, event: RadioEvent) -> RadioBridge {
        let stats = self.stats;
        RadioBridge {
            phase: self.next_phase(event),
            stats: match event {
                RadioEvent::HostFrame(_) => RadioStats { host_rx: counted(stats.host_rx), ..stats },
                RadioEvent::RadioFrame(frame) => if frame is Some || self.phase is Idle {
                    RadioStats { wifi_rx: counted(stats.wifi_rx), ..stats }
                } else {
                    stats
                },
                RadioEvent::Transmitted => RadioStats {
                    wifi_tx_ok: counted(stats.wifi_tx_ok),
                    ..stats
                },
                _ => stats,
            },
        }
    }

    /// The action that follows.
    pub open spec fn action(self, event: RadioEvent) -> RadioAction {
        match self.next_phase(event) {
            RadioPhase::Idle => RadioAction::AwaitAny,
            RadioPhase::Transmit(_) => RadioAction::AwaitRadio,
            RadioPhase::SendHolding(_, _) => RadioAction::AwaitToken,
            RadioPhase::Full(_) => RadioAction::AwaitQueueOrHost,
            RadioPhase::OfferWhileSending(_) => RadioAction::Offer(event->RadioFrame_0->0),
            RadioPhase::Offer => match self.phase {
                RadioPhase::SendHolding(_, held) => RadioAction::Offer(held),
                RadioPhase::Full(held) => RadioAction::Offer(held),
                _ => RadioAction::Offer(event->RadioFrame_0->0),
            },
        }
    }

    /// A bridge that holds nothing. Its first action is to wait for any frame.
    pub fn new() -> (r: RadioBridge)
        ensures
            r.phase is Idle,
            r.stats == (RadioStats { wifi_rx: 0, host_rx: 0, wifi_tx_ok: 0 }),
    {
        RadioBridge {
            phase: RadioPhase::Idle,
            stats: RadioStats { wifi_rx: 0, host_rx: 0, wifi_tx_ok: 0 },
        }
    }

    /// The host frame that the radio is to take.
    pub open spec fn spec_outgoing(self) -> Option<WifiFrame> {
        match self.phase {
            RadioPhase::Transmit(frame) => Some(frame),
            RadioPhase::OfferWhileSending(frame) => Some(frame),
            RadioPhase::SendHolding(frame, _) => Some(frame),
            _ => None,
        }
    }

    /// The host frame that the radio is to take.
    pub fn outgoing(&self) -> (r: Option<&WifiFrame>)
        ensures
            r == match self.spec_outgoing() {
                Some(frame) => Some(&frame),
                None => None,
            },
    {
        match &self.phase {
            RadioPhase::Transmit(frame) => Some(frame),
            RadioPhase::OfferWhileSending(frame) => Some(frame),
            RadioPhase::SendHolding(frame, _) => Some(frame),
            _ => None,
        }
    }

    /// Takes an event and says what to do next. A host frame is acknowledged when
    /// the radio has taken it.
    pub fn step(&mut self, event: RadioEvent) -> (r: RadioStep)
        requires
            old(self).accepts(event),
        ensures
            *final(self) == old(self).next(event),
            r.action == old(self).action(event),
            r.acknowledge == (event is Transmitted),
    {
        let mut phase = RadioPhase::Idle;
        core::mem::swap(&mut phase, &mut self.phase);
        let mut acknowledge = false;
        let action = match event {
            RadioEvent::HostFrame(frame) => {
                self.stats.host_rx = self.stats.host_rx.wrapping_add(1);
                match phase {
                    RadioPhase::Full(held) => {
                        self.phase = RadioPhase::SendHolding(frame, held);
                        RadioAction::AwaitToken
                    },
                    _ => {
                        self.phase = RadioPhase::Transmit(frame);
                        RadioAction::AwaitRadio
                    },
                }
            },
            RadioEvent::RadioFrame(Some(received)) => {
                self.stats.wifi_rx = self.stats.wifi_rx.wrapping_add(1);
                match phase {
                    RadioPhase::Transmit(frame) => {
                        self.phase = RadioPhase::OfferWhileSending(frame);
                    },
                    _ => {
                        self.phase = RadioPhase::Offer;
                    },
                }
                RadioAction::Offer(received)
            },
            RadioEvent::RadioFrame(None) => {
                match phase {
                    RadioPhase::Transmit(frame) => {
                        self.phase = RadioPhase::Transmit(frame);
                        RadioAction::AwaitRadio
                    },
                    _ => {
                        self.stats.wifi_rx = self.stats.wifi_rx.wrapping_add(1);
                        RadioAction::AwaitAny
                    },
                }
            },
            RadioEvent::Transmitted => {
                self.stats.wifi_tx_ok = self.stats.wifi_tx_ok.wrapping_add(1);
                acknowledge = true;
                match phase {
                    RadioPhase::SendHolding(_, held) => {
                        self.phase = RadioPhase::Offer;
                        RadioAction::Offer(held)
                    },
                    _ => RadioAction::AwaitAny,
                }
            },
            RadioEvent::Queued => match phase {
                RadioPhase::OfferWhileSending(frame) => {
                    self.phase = RadioPhase::Transmit(frame);
                    RadioAction::AwaitRadio
                },
                _ => RadioAction::AwaitAny,
            },
            RadioEvent::QueueFull(held) => match phase {
                RadioPhase::OfferWhileSending(frame) => {
                    self.phase = RadioPhase::SendHolding(frame, held);
                    RadioAction::AwaitToken
                },
                _ => {
                    self.phase = RadioPhase::Full(held);
                    RadioAction::AwaitQueueOrHost
                },
            },
            RadioEvent::QueueReady => match phase {
                RadioPhase::Full(held) => {
                    self.phase = RadioPhase::Offer;
                    RadioAction::Offer(held)
                },
                _ => RadioAction::AwaitAny,
            },
        };
        RadioStep { action, acknowledge }
    }
}

/// A bridge at work, and what has passed through it.
pub struct RadioHistory {
    pub bridge: RadioBridge,
    /// The frame that is being offered to the host queue.
    pub offered: Seq<Seq<u8>>,
    /// Frames that the radio received and that fit.
    pub received: Seq<Seq<u8>>,
    /// Frames that the host queue took.
    pub queued: Seq<Seq<u8>>,
    /// Frames that came from the host.
    pub taken: Seq<Seq<u8>>,
    /// Frames that the radio took.
    pub transmitted: Seq<Seq<u8>>,
}

impl RadioHistory {
    /// A bridge that has just started.
    pub open spec fn fresh(self) -> bool {
        &&& self.bridge.phase is Idle
        &&& self.bridge.stats.host_rx == 0
        &&& self.bridge.stats.wifi_tx_ok == 0
        &&& self.offered == Seq::<Seq<u8>>::empty()
        &&& self.received == Seq::<Seq<u8>>::empty()
        &&& self.queued == Seq::<Seq<u8>>::empty()
        &&& self.taken == Seq::<Seq<u8>>::empty()
        &&& self.transmitted == Seq::<Seq<u8>>::empty()
    }

    /// Whether the event can happen. A full queue gives back what it was offered.
    pub open spec fn possible(self, event: RadioEvent) -> bool {
        &&& self.bridge.accepts(event)
        &&& (event matches RadioEvent::QueueFull(frame) ==> self.offered == seq![frame@])
    }

    /// The history after an event.
    pub open spec fn next(self, event: RadioEvent) -> RadioHistory {
        RadioHistory {
            bridge: self.bridge.next(event),
            offered: match self.bridge.action(event) {
                RadioAction::Offer(frame) => seq![frame@],
                _ => Seq::empty(),
            },
            received: match event {
                RadioEvent::RadioFrame(Some(frame)) => self.received.push(frame@),
                _ => self.received,
            },
            queued: if event is Queued {
                self.queued + self.offered
            } else {
                self.queued
            },
            taken: match event {
                RadioEvent::HostFrame(frame) => self.taken.push(frame@),
                _ => self.taken,
            },
            transmitted: if event is Transmitted {
                self.transmitted.push(self.bridge.spec_outgoing()->0@)
            } else {
                self.transmitted
            },
        }
    }

    /// The history after a sequence of events.
    pub open spec fn after(self, events: Seq<RadioEvent>) -> RadioHistory
        decreases events.len(),
    {
        if events.len() == 0 {
            self
        } else {
            self.after(events.drop_last()).next(events.last())
        }
    }

    /// Whether each event of the sequence can happen where it stands.
    pub open spec fn possible_all(self, events: Seq<RadioEvent>) -> bool {
        forall|i: int|
            0 <= i < events.len() ==> self.after(events.take(i)).possible(#[trigger] events[i])
    }

    /// The received frame that is held back.
    pub open spec fn held(self) -> Seq<Seq<u8>> {
        match self.bridge.phase {
            RadioPhase::SendHolding(_, held) => seq![held@],
            RadioPhase::Full(held) => seq![held@],
            _ => Seq::empty(),
        }
    }

    /// The host frame that the radio has not taken yet.
    pub open spec fn unsent(self) -> Seq<Seq<u8>> {
        match self.bridge.spec_outgoing() {
            Some(frame) => seq![frame@],
            None => Seq::empty(),
        }
    }

    /// What holds at every moment.
    spec fn inv(self) -> bool {
        &&& self.offered.len() == if self.bridge.phase is Offer || self.bridge.phase is OfferWhileSending {
            1nat
        } else {
            0
        }
        &&& self.received == self.queued + self.offered + self.held()
        &&& self.taken == self.transmitted + self.unsent()
        &&& self.bridge.stats.host_rx == self.taken.len() % 0x1_0000_0000
        &&& self.bridge.stats.wifi_tx_ok == self.transmitted.len() % 0x1_0000_0000
    }
}

proof fn step_keeps_inv(history: RadioHistory, event: RadioEvent)
    requires
        history.inv(),
        history.possible(event),
    ensures
        history.next(event).inv(),
{
    let post = history.next(event);
    assert(post.received =~= post.queued + post.offered + post.held());
    assert(post.taken =~= post.transmitted + post.unsent());
}

proof fn history_keeps_inv(start: RadioHistory, events: Seq<RadioEvent>)
    requires
        start.fresh(),
        start.possible_all(events),
    ensures
        start.after(events).inv(),
    decreases events.len(),
{
    if events.len() == 0 {
        assert(start.received =~= start.queued + start.offered + start.held());
        assert(start.taken =~= start.transmitted + start.unsent());
    } else {
        let before = events.drop_last();
        assert forall|i: int| 0 <= i < before.len() implies start.after(before.take(i)).possible(
            #[trigger] before[i],
        ) by {
            assert(before.take(i) =~= events.take(i));
            assert(before[i] == events[i]);
        }
        history_keeps_inv(start, before);
        assert(events.take(events.len() - 1) =~= before);
        assert(start.after(before).possible(events[events.len() - 1]));
        step_keeps_inv(start.after(before), events.last());
    }
}

/// The bridge loses, repeats and reorders nothing. Every received frame is in the
/// host queue, on offer to it or held back; every host frame was transmitted or
/// is the one being sent; and the counters agree with both.
pub proof fn the_bridge_conserves_frames(start: RadioHistory, events: Seq<RadioEvent>)
    requires
        start.fresh(),
        start.possible_all(events),
    ensures
        ({
            let history = start.after(events);
            &&& history.received == history.queued + history.offered + history.held()
            &&& history.offered.len() + history.held().len() <= 1
            &&& history.taken == history.transmitted + history.unsent()
            &&& history.unsent().len() <= 1
            &&& history.bridge.stats.host_rx == history.taken.len() % 0x1_0000_0000
            &&& history.bridge.stats.wifi_tx_ok == history.transmitted.len() % 0x1_0000_0000
        }),
{
    history_keeps_inv(start, events);
}

/// A full host queue never blocks the other direction: once an open offer has
/// been refused, the bridge either waits for the radio to take a host frame, or
/// accepts one, and in both cases without any room in the queue.
pub proof fn a_full_queue_never_blocks_sending(bridge: RadioBridge, refused: WifiFrame, frame: WifiFrame)
    ensures
        ({
            let offering = bridge.phase is Offer || bridge.phase is OfferWhileSending;
            let waiting = if offering {
                bridge.next(RadioEvent::QueueFull(refused))
            } else {
                bridge
            };
            &&& offering ==> bridge.accepts(RadioEvent::QueueFull(refused))
            &&& waiting.spec_outgoing() is Some ==> waiting.accepts(RadioEvent::Transmitted)
            &&& waiting.spec_outgoing() is None ==> waiting.accepts(RadioEvent::HostFrame(frame))
            &&& offering ==> waiting.spec_outgoing() == bridge.spec_outgoing()
        }),
{
}

/// A radio that cannot send never blocks receiving while the host queue has room:
/// a bridge with a host frame to send and nothing held back takes received frames.
pub proof fn a_busy_radio_is_still_drained(bridge: RadioBridge, received: WifiFrame)
    requires
        bridge.phase is Transmit || bridge.phase is Idle,
    ensures
        bridge.accepts(RadioEvent::RadioFrame(Some(received))),
        bridge.action(RadioEvent::RadioFrame(Some(received))) == RadioAction::Offer(received),
        bridge.next(RadioEvent::RadioFrame(Some(received))).next(RadioEvent::Queued).phase
            == bridge.phase,
{
}

/// What the best-effort bridge does with a frame.
#[derive(Debug)]
pub enum BestEffortAction {
    /// Broadcast it to the host, and do not look at the result.
    Broadcast(WifiFrame),
    /// Send it on the radio.
    Transmit(WifiFrame),
    /// Drop it.
    Drop,
}

/// Forwards a frame without flow control: a received buffer goes to the host when
/// it fits into a frame.
pub fn best_effort_from_radio(buffer: &[u8]) -> (r: BestEffortAction)
    ensures
        buffer@.len() <= crate::icd::MAX_FRAME_SIZE ==> (r matches BestEffortAction::Broadcast(f)
            && f@ == buffer@),
        buffer@.len() > crate::icd::MAX_FRAME_SIZE ==> r is Drop,
{
    match WifiFrame::from_slice(buffer) {
        Some(frame) => BestEffortAction::Broadcast(frame),
        None => BestEffortAction::Drop,
    }
}

/// Forwards a frame without flow control: a host frame goes out when the radio
/// has room right now.
pub fn best_effort_from_host(frame: WifiFrame, radio_ready: bool) -> (r: BestEffortAction)
    ensures
        r == if radio_ready {
            BestEffortAction::Transmit(frame)
        } else {
            BestEffortAction::Drop
        },
{
    if radio_ready {
        BestEffortAction::Transmit(frame)
    } else {
        BestEffortAction::Drop
    }
}

/// How long the station waits before it tries to connect again.
pub const RECONNECT_DELAY_MS: u64 = 5000;

/// What the connection task of the station is doing.
#[derive(Clone, Copy, Debug, PartialEq, Eq, Structural)]
pub enum StationPhase {
    /// Asks the driver whether the station is connected.
    CheckConnected,
    /// Connected: waits for the disconnect event.
    AwaitDisconnect,
    /// Waits after a disconnect.
    Cooldown,
    /// Asks the driver whether it has been started.
    CheckStarted,
    /// Configures and starts the driver.
    Starting,
    /// Connects.
    Connecting,
    /// Waits after a failed attempt.
    RetryDelay,
}

/// What the driver or the timer answered.
#[derive(Clone, Copy, Debug, PartialEq, Eq, Structural)]
pub enum StationEvent {
    /// Yes or no to a question.
    Answer(bool),
    /// The awaited event came, the wait is over, or the driver has started.
    Done,
    /// The connection attempt worked.
    Connected,
    /// The connection attempt failed.
    ConnectFailed,
}

/// What to do next.
#[derive(Clone, Copy, Debug, PartialEq, Eq, Structural)]
pub enum StationAction {
    AskConnected,
    AwaitDisconnect,
    Wait(u64),
    AskStarted,
    ConfigureAndStart,
    Connect,
}

/// Which radio driver the station runs on.
#[derive(Clone, Copy, Debug, PartialEq, Eq, Structural)]
pub enum StationKind {
    /// The driver has to be asked for its state and started by hand.
    Polled,
    /// The driver is started by its configuration.
    Managed,
}

/// Keeps the station connected, and publishes whether it is.
#[derive(Clone, Copy, Debug, PartialEq, Eq, Structural)]
pub struct Station {
    pub kind: StationKind,
    pub phase: StationPhase,
    /// The published flag.
    pub connected: bool,
}

impl Station {
    /// On a managed driver, only its own phases occur, and the flag is set exactly
    /// while the station waits for a disconnect.
    pub open spec fn wf(self) -> bool {
        self.kind is Managed ==> {
            &&& self.phase is Connecting || self.phase is AwaitDisconnect || self.phase is Cooldown
                || self.phase is RetryDelay
            &&& self.connected == (self.phase is AwaitDisconnect)
        }
    }

    /// Whether the event answers the action of this phase.
    pub open spec fn accepts(self, event: StationEvent) -> bool {
        match self.phase {
            StationPhase::CheckConnected => event is Answer,
            StationPhase::CheckStarted => event is Answer,
            StationPhase::Connecting => event is Connected || event is ConnectFailed,
            _ => event is Done,
        }
    }

    /// The phase in which a round of the task starts.
    pub open spec fn first_phase(self) -> StationPhase {
        match self.kind {
            StationKind::Polled => StationPhase::CheckConnected,
            StationKind::Managed => StationPhase::Connecting,
        }
    }

    /// The phase that follows.
    pub open spec fn next_phase(self, event: StationEvent) -> StationPhase {
        match self.phase {
            StationPhase::CheckConnected => if event == StationEvent::Answer(true) {
                StationPhase::AwaitDisconnect
            } else {
                StationPhase::CheckStarted
            },
            StationPhase::AwaitDisconnect => StationPhase::Cooldown,
            StationPhase::Cooldown => match self.kind {
                StationKind::Polled => StationPhase::CheckStarted,
                StationKind::Managed => StationPhase::Connecting,
            },
            StationPhase::CheckStarted => if event == StationEvent::Answer(true) {
                StationPhase::Connecting
            } else {
                StationPhase::Starting
            },
            StationPhase::Starting => StationPhase::Connecting,
            StationPhase::Connecting => match (event, self.kind) {
                (StationEvent::Connected, StationKind::Polled) => StationPhase::CheckConnected,
                (StationEvent::Connected, StationKind::Managed) => StationPhase::AwaitDisconnect,
                _ => StationPhase::RetryDelay,
            },
            StationPhase::RetryDelay => self.first_phase(),
        }
    }

    /// The flag that follows: set by a connection or by the driver's word that
    /// there is one, cleared by a disconnect and, on a managed driver, by a failed
    /// attempt.
    pub open spec fn next_connected(self, event: StationEvent) -> bool {
        if event is Connected || (self.phase is CheckConnected && event == StationEvent::Answer(
            true,
        )) {
            true
        } else if self.phase is AwaitDisconnect || (event is ConnectFailed && self.kind is Managed) {
            false
        } else {
            self.connected
        }
    }

    /// The action of a phase.
    pub open spec fn action_of(phase: StationPhase) -> StationAction {
        match phase {
            StationPhase::CheckConnected => StationAction::AskConnected,
            StationPhase::AwaitDisconnect => StationAction::AwaitDisconnect,
            StationPhase::Cooldown => StationAction::Wait(RECONNECT_DELAY_MS),
            StationPhase::CheckStarted => StationAction::AskStarted,
            StationPhase::Starting => StationAction::ConfigureAndStart,
            StationPhase::Connecting => StationAction::Connect,
            StationPhase::RetryDelay => StationAction::Wait(RECONNECT_DELAY_MS),
        }
    }

    /// A station that starts its first round.
    pub fn new(kind: StationKind) -> (r: Station)
        ensures
            r.kind == kind,
            r.phase == r.first_phase(),
            !r.connected,
            r.wf(),
    {
        let phase = match kind {
            StationKind::Polled => StationPhase::CheckConnected,
            StationKind::Managed => StationPhase::Connecting,
        };
        Station { kind, phase, connected: false }
    }

    /// What the current phase asks for.
    pub fn action(&self) -> (r: StationAction)
        ensures
            r == Station::action_of(self.phase),
    {
        match self.phase {
            StationPhase::CheckConnected => StationAction::AskConnected,
            StationPhase::AwaitDisconnect => StationAction::AwaitDisconnect,
            StationPhase::Cooldown => StationAction::Wait(RECONNECT_DELAY_MS),
            StationPhase::CheckStarted => StationAction::AskStarted,
            StationPhase::Starting => StationAction::ConfigureAndStart,
            StationPhase::Connecting => StationAction::Connect,
            StationPhase::RetryDelay => StationAction::Wait(RECONNECT_DELAY_MS),
        }
    }

    /// Takes the outcome of the action.
    pub fn step(&mut self, event: StationEvent)
        requires
            old(self).accepts(event),
        ensures
            final(self).kind == old(self).kind,
            final(self).phase == old(self).next_phase(event),
            final(self).connected == old(self).next_connected(event),
            old(self).wf() ==> final(self).wf(),
    {
        let yes = match event {
            StationEvent::Answer(answer) => answer,
            StationEvent::Connected => true,
            _ => false,
        };
        match self.phase {
            StationPhase::CheckConnected => {
                if yes {
                    self.connected = true;
                    self.phase = StationPhase::AwaitDisconnect;
                } else {
                    self.phase = StationPhase::CheckStarted;
                }
            },
            StationPhase::AwaitDisconnect => {
                self.connected = false;
                self.phase = StationPhase::Cooldown;
            },
            StationPhase::Cooldown => {
                self.phase = match self.kind {
                    StationKind::Polled => StationPhase::CheckStarted,
                    StationKind::Managed => StationPhase::Connecting,
                };
            },
            StationPhase::CheckStarted => {
                self.phase = if yes {
                    StationPhase::Connecting
                } else {
                    StationPhase::Starting
                };
            },
            StationPhase::Starting => {
                self.phase = StationPhase::Connecting;
            },
            StationPhase::Connecting => {
                if yes {
                    self.connected = true;
                    self.phase = match self.kind {
                        StationKind::Polled => StationPhase::CheckConnected,
                        StationKind::Managed => StationPhase::AwaitDisconnect,
                    };
                } else {
                    match self.kind {
                        StationKind::Polled => {},
                        StationKind::Managed => {
                            self.connected = false;
                        },
                    }
                    self.phase = StationPhase::RetryDelay;
                }
            },
            StationPhase::RetryDelay => {
                self.phase = match self.kind {
                    StationKind::Polled => StationPhase::CheckConnected,
                    StationKind::Managed => StationPhase::Connecting,
                };
            },
        }
    }
}

/// On a managed driver the published flag tells the truth at every moment: it is
/// set exactly while the station waits for a disconnect, whatever happens next.
pub proof fn managed_flag_tells_the_truth(station: Station, event: StationEvent)
    requires
        station.kind is Managed,
        station.wf(),
        station.accepts(event),
    ensures
        station.connected == (station.phase is AwaitDisconnect),
        station.next_connected(event) == (station.next_phase(event) is AwaitDisconnect),
{
}

/// On every driver the published flag is cleared by the disconnect and stays
/// cleared until the driver reports a connection.
pub proof fn disconnect_clears_the_flag(station: Station, event: StationEvent)
    requires
        station.accepts(event),
    ensures
        station.phase is AwaitDisconnect ==> !station.next_connected(event),
        !station.connected && station.next_connected(event) ==> event is Connected || event
            == StationEvent::Answer(true),
{
}

/// What the bridge does with each event. A host frame is sent at once, or while a received
/// frame is held back; a received frame that fits is offered to the host, and one that
/// does not is passed over; a frame that the queue refused is held and offered again.
#[verifier::rlimit(60)]
#[verifier::spinoff_prover]
pub proof fn the_bridge_answers_every_event(bridge: RadioBridge, event: RadioEvent)
    requires
        bridge.accepts(event),
    ensures
        ({
            let next = bridge.next(event);
            let action = bridge.action(event);
            &&& event matches RadioEvent::HostFrame(frame) ==> {
                &&& next.spec_outgoing() == Some(frame)
                &&& bridge.phase is Idle ==> action is AwaitRadio
                &&& bridge.phase is Full ==> action is AwaitToken
            }
            &&& event matches RadioEvent::RadioFrame(Some(frame)) ==> action == RadioAction::Offer(
                frame,
            ) && next.spec_outgoing() == bridge.spec_outgoing()
            &&& event matches RadioEvent::RadioFrame(None) ==> next.phase == bridge.phase
            &&& event is Transmitted ==> next.spec_outgoing() is None
            &&& event is Transmitted ==> match bridge.phase {
                RadioPhase::SendHolding(_, held) => action == RadioAction::Offer(held),
                _ => action is AwaitAny,
            }
            &&& event is Queued ==> next.spec_outgoing() == bridge.spec_outgoing() && (
            bridge.spec_outgoing() is Some ==> action is AwaitRadio) && (bridge.spec_outgoing()
                is None ==> action is AwaitAny)
            &&& event is QueueFull ==> next.spec_outgoing() == bridge.spec_outgoing() && (
            bridge.spec_outgoing() is Some ==> action is AwaitToken) && (bridge.spec_outgoing()
                is None ==> action is AwaitQueueOrHost)
            &&& event is QueueReady ==> (bridge.phase matches RadioPhase::Full(held) && action
                == RadioAction::Offer(held))
        }),
{
}

/// What the counters of the bridge say of each event: a host frame, a frame of the radio,
/// and a frame that the radio took, each in its own counter. While a host frame waits, an
/// oversized frame of the radio does not count.
pub proof fn the_bridge_counts_each_frame_once(bridge: RadioBridge, event: RadioEvent)
    requires
        bridge.accepts(event),
    ensures
        ({
            let before = bridge.stats;
            let after = bridge.next(event).stats;
            let oversized = event matches RadioEvent::RadioFrame(None);
            &&& after.host_rx == if event is HostFrame {
                (before.host_rx + 1) % 0x1_0000_0000
            } else {
                before.host_rx as int
            }
            &&& after.wifi_tx_ok == if event is Transmitted {
                (before.wifi_tx_ok + 1) % 0x1_0000_0000
            } else {
                before.wifi_tx_ok as int
            }
            &&& after.wifi_rx == if event is RadioFrame && !(oversized && bridge.phase is Transmit) {
                (before.wifi_rx + 1) % 0x1_0000_0000
            } else {
                before.wifi_rx as int
            }
        }),
{
}

/// What a station does. A managed driver is connected at once; a polled one is first asked
/// whether it is connected and whether it runs, and started when it does not. A failed
/// attempt and a disconnect are each followed by a wait of five seconds, and that by
/// another attempt; a station that is connected waits for the disconnect.
pub proof fn a_station_connects_again(station: Station, event: StationEvent)
    requires
        station.wf(),
        station.accepts(event),
    ensures
        ({
            let action = Station::action_of(station.next_phase(event));
            let now = Station::action_of(station.phase);
            let polled = station.kind is Polled;
            &&& station.first_phase() == if polled {
                StationPhase::CheckConnected
            } else {
                StationPhase::Connecting
            }
            &&& event is ConnectFailed ==> action == StationAction::Wait(5000)
            &&& now is AwaitDisconnect ==> action == StationAction::Wait(5000)
            &&& event is Connected && polled ==> action is AskConnected
            &&& event is Connected && !polled ==> action is AwaitDisconnect
            &&& now is AskConnected && event == StationEvent::Answer(true) ==> action
                is AwaitDisconnect
            &&& now is AskConnected && event == StationEvent::Answer(false) ==> action is AskStarted
            &&& now is AskStarted && event == StationEvent::Answer(true) ==> action is Connect
            &&& now is AskStarted && event == StationEvent::Answer(false) ==> action
                is ConfigureAndStart
            &&& now is ConfigureAndStart ==> action is Connect
            &&& now is Wait ==> now == StationAction::Wait(5000)
            &&& now is Wait && !polled ==> action is Connect
            &&& station.phase is Cooldown && polled ==> action is AskStarted
            &&& station.phase is RetryDelay && polled ==> action is AskConnected
        }),
{
}

/// What a station publishes: it is connected from a connection, or the driver's word that
/// there is one, until the disconnect; a failed attempt on a managed driver says that it
/// is not, and nothing else changes it.
pub proof fn the_flag_follows_the_connection(station: Station, event: StationEvent)
    requires
        station.accepts(event),
    ensures
        event is Connected ==> station.next_connected(event),
        station.phase is CheckConnected && event == StationEvent::Answer(true)
            ==> station.next_connected(event),
        station.phase is CheckConnected && event == StationEvent::Answer(false)
            ==> station.next_connected(event) == station.connected,
        station.phase is AwaitDisconnect ==> !station.next_connected(event),
        event is ConnectFailed && station.kind is Managed ==> !station.next_connected(event),
        event is ConnectFailed && station.kind is Polled ==> station.next_connected(event)
            == station.connected,
        station.phase is CheckStarted || station.phase is Starting || station.phase is Cooldown
            || station.phase is RetryDelay ==> station.next_connected(event) == station.connected,
{
}

} // verus!
