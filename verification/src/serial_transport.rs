//! The serial transport: how the port is chosen, and hot-plugging.
use vstd::prelude::*;

use crate::address::Address;
use crate::scan::contains;

verus! {

/// The largest packet on the serial link.
pub const MAX_ERGOT_PACKET_SIZE: u16 = 2048;

/// The size of the transmit buffer, for bursty WiFi traffic.
pub const TX_BUFFER_SIZE: usize = 65536;

/// How often a device is looked for.
pub const DEVICE_POLL_INTERVAL_MS: u64 = 500;

/// How long a request waits for its response before it is repeated.
pub const REQUEST_RETRY_TIMEOUT_MS: u64 = 250;

/// How long a new device is left alone before it is asked for its MAC address.
pub const SETTLE_MS: u64 = 2000;

/// How long to wait before the next search after a device was lost.
pub const COOLDOWN_MS: u64 = 1000;

/// How the serial port is found.
#[derive(Clone, Copy, Debug)]
pub enum SerialMode<'a> {
    /// A fixed port.
    Port(&'a str),
    /// Any device whose identifier contains a pattern, with hot-plugging.
    HotPlug(&'a str),
}

/// Neither a port nor a pattern was given.
#[derive(Clone, Copy, Debug, PartialEq, Eq, Structural)]
pub struct MissingPort;

impl MissingPort {
    /// The message of the error.
    pub fn message(&self) -> (r: &'static str)
        ensures
            r@ == "Either --port or --by-id must be provided"@,
    {
        "Either --port or --by-id must be provided"
    }
}

/// Chooses how the port is found. A port comes before a pattern.
pub fn serial_mode<'a>(port: Option<&'a str>, by_id: Option<&'a str>) -> (r: Result<
    SerialMode<'a>,
    MissingPort,
>)
    ensures
        r == match (port, by_id) {
            (Some(port), _) => Ok::<SerialMode, MissingPort>(SerialMode::Port(port)),
            (None, Some(pattern)) => Ok(SerialMode::HotPlug(pattern)),
            (None, None) => Err(MissingPort),
        },
{
    match port {
        Some(port) => Ok(SerialMode::Port(port)),
        None => match by_id {
            Some(pattern) => Ok(SerialMode::HotPlug(pattern)),
            None => Err(MissingPort),
        },
    }
}

/// The warning about a pattern that is not used.
pub fn unused_pattern_warning(port: Option<&str>, by_id: Option<&str>) -> (r: Option<&'static str>)
    ensures
        r is Some <==> port is Some && by_id is Some,
        r matches Some(text) ==> text@ == "Both --port and --by-id provided, using --port"@,
{
    match (port, by_id) {
        (Some(_), Some(_)) => Some("Both --port and --by-id provided, using --port"),
        _ => None,
    }
}

/// Finds the first device whose name contains the pattern, as an index into the
/// names.
pub fn find_device_by_id(pattern: &str, names: &Vec<String>) -> (r: Option<usize>)
    ensures
        match r {
            Some(i) => {
                &&& i < names@.len()
                &&& crate::scan::occurs(pattern@, names@[i as int]@)
                &&& forall|k: int|
                    0 <= k < i ==> !crate::scan::occurs(pattern@, #[trigger] names@[k]@)
            },
            None => forall|k: int|
                0 <= k < names@.len() ==> !crate::scan::occurs(pattern@, #[trigger] names@[k]@),
        },
{
    let mut i: usize = 0;
    while i < names.len()
        invariant
            i <= names.len(),
            forall|k: int|
                0 <= k < i ==> !crate::scan::occurs(pattern@, #[trigger] names@[k]@),
        decreases names.len() - i,
    {
        if contains(names[i].as_str(), pattern) {
            return Some(i);
        }
        i = i + 1;
    }
    None
}

/// Whether two MAC addresses are the same.
pub fn same_mac(a: &[u8; 6], b: &[u8; 6]) -> (r: bool)
    ensures
        r == (a@ == b@),
{
    let r = a[0] == b[0] && a[1] == b[1] && a[2] == b[2] && a[3] == b[3] && a[4] == b[4] && a[5]
        == b[5];
    assert(r ==> a@ =~= b@);
    r
}

/// What the hot-plug loop is doing.
#[derive(Clone, Copy, Debug)]
pub enum HotPlugPhase {
    /// Looks for a device.
    Searching,
    /// Opens the device.
    Registering,
    /// Gives the device time to start.
    Settling,
    /// Asks the device for its MAC address.
    AskingMac,
    /// Resolves the address of the device that answered with this MAC address.
    Resolving([u8; 6]),
    /// Creates the TAP interface for the device at this address.
    CreatingTap(Address),
    /// The bridge runs.
    Bridging,
    /// Waits before the next search.
    Cooldown,
    /// The loop is over.
    Done,
}

/// What can happen in the hot-plug loop.
#[derive(Clone, Copy, Debug)]
pub enum HotPlugEvent {
    /// The program is shutting down.
    Cancelled,
    /// No device was found.
    NotFound,
    /// A device was found.
    Found,
    /// The device was opened, a wait is over, or the TAP interface was created.
    Done,
    /// The device could not be opened or asked, or the TAP interface not created.
    Failed,
    /// The device answered with its MAC address.
    Mac([u8; 6]),
    /// The address of the device, when it has one.
    Peer(Option<Address>),
    /// A task of the bridge ended; whether the program is shutting down.
    BridgeEnded(bool),
}

/// What to do next.
#[derive(Clone, Copy, Debug)]
pub enum HotPlugAction {
    /// Wait for the poll interval and look for a device, or stop at a shutdown.
    Search,
    /// Open the device.
    Register,
    /// Wait this many milliseconds.
    Wait(u64),
    /// Ask the device for its MAC address.
    AskMac,
    /// Resolve the address of the device.
    Resolve,
    /// Create the TAP interface with this MAC address.
    CreateTap([u8; 6]),
    /// Run the bridge to the device at this address.
    StartBridge(Address),
    /// Return success.
    Finish,
    /// Return the failure to create the TAP interface.
    Fail,
}

/// An action, and what to report before it.
#[derive(Clone, Copy, Debug)]
pub struct HotPlugStep {
    pub action: HotPlugAction,
    /// The device has another MAC address than the first one.
    pub mac_changed: bool,
    /// A device is connected again.
    pub reconnected: bool,
}

/// Keeps a bridge running while devices come and go. The first device that answers
/// and is resolved gives its MAC address to the TAP interface, which stays for all
/// that follow.
#[derive(Clone, Copy, Debug)]
pub struct HotPlug {
    pub phase: HotPlugPhase,
    pub expected_mac: Option<[u8; 6]>,
    pub connected_once: bool,
}

impl HotPlug {
    /// The first MAC address is known when and after the TAP interface is created,
    /// and the bridge has only run with it.
    pub open spec fn wf(self) -> bool {
        &&& self.phase is CreatingTap || self.phase is Bridging || self.connected_once
            ==> self.expected_mac is Some
        &&& self.phase is CreatingTap ==> !self.connected_once
    }

    /// Whether the event can follow the last action.
    pub open spec fn accepts(self, event: HotPlugEvent) -> bool {
        match self.phase {
            HotPlugPhase::Searching => event is Cancelled || event is NotFound || event is Found,
            HotPlugPhase::Registering => event is Done || event is Failed,
            HotPlugPhase::Settling => event is Done,
            HotPlugPhase::AskingMac => event is Mac || event is Failed,
            HotPlugPhase::Resolving(_) => event is Peer,
            HotPlugPhase::CreatingTap(_) => event is Done || event is Failed,
            HotPlugPhase::Bridging => event is Cancelled || event is BridgeEnded,
            HotPlugPhase::Cooldown => event is Done,
            HotPlugPhase::Done => false,
        }
    }

    /// The state that follows.
    pub open spec fn next(self, event: HotPlugEvent) -> HotPlug {
        match (self.phase, event) {
            (_, HotPlugEvent::Cancelled) => HotPlug { phase: HotPlugPhase::Done, ..self },
            (_, HotPlugEvent::NotFound) => self,
            (_, HotPlugEvent::Found) => HotPlug { phase: HotPlugPhase::Registering, ..self },
            (HotPlugPhase::Registering, HotPlugEvent::Done) => HotPlug {
                phase: HotPlugPhase::Settling,
                ..self
            },
            (HotPlugPhase::Settling, HotPlugEvent::Done) => HotPlug {
                phase: HotPlugPhase::AskingMac,
                ..self
            },
            (HotPlugPhase::CreatingTap(_), HotPlugEvent::Done) => HotPlug {
                phase: HotPlugPhase::Bridging,
                connected_once: true,
                ..self
            },
            (HotPlugPhase::CreatingTap(_), HotPlugEvent::Failed) => HotPlug {
                phase: HotPlugPhase::Done,
                ..self
            },
            (_, HotPlugEvent::Done) => HotPlug { phase: HotPlugPhase::Searching, ..self },
            (_, HotPlugEvent::Failed) => HotPlug { phase: HotPlugPhase::Cooldown, ..self },
            (_, HotPlugEvent::Mac(mac)) => HotPlug { phase: HotPlugPhase::Resolving(mac), ..self },
            (_, HotPlugEvent::Peer(None)) => HotPlug { phase: HotPlugPhase::Searching, ..self },
            (HotPlugPhase::Resolving(mac), HotPlugEvent::Peer(Some(peer))) => match self.expected_mac {
                None => HotPlug {
                    phase: HotPlugPhase::CreatingTap(peer),
                    expected_mac: Some(mac),
                    ..self
                },
                Some(_) => HotPlug {
                    phase: HotPlugPhase::Bridging,
                    connected_once: true,
                    ..self
                },
            },
            (_, HotPlugEvent::Peer(Some(_))) => self,
            (_, HotPlugEvent::BridgeEnded(cancelled)) => HotPlug {
                phase: if cancelled {
                    HotPlugPhase::Done
                } else {
                    HotPlugPhase::Cooldown
                },
                ..self
            },
        }
    }

    /// The action that follows.
    pub open spec fn action(self, event: HotPlugEvent) -> HotPlugAction {
        match self.next(event).phase {
            HotPlugPhase::Searching => HotPlugAction::Search,
            HotPlugPhase::Registering => HotPlugAction::Register,
            HotPlugPhase::Settling => HotPlugAction::Wait(SETTLE_MS),
            HotPlugPhase::AskingMac => HotPlugAction::AskMac,
            HotPlugPhase::Resolving(_) => HotPlugAction::Resolve,
            HotPlugPhase::CreatingTap(_) => HotPlugAction::CreateTap(self.phase->Resolving_0),
            HotPlugPhase::Bridging => HotPlugAction::StartBridge(
                match self.phase {
                    HotPlugPhase::CreatingTap(peer) => peer,
                    _ => event->Peer_0->0,
                },
            ),
            HotPlugPhase::Cooldown => HotPlugAction::Wait(COOLDOWN_MS),
            HotPlugPhase::Done => if self.phase is CreatingTap {
                HotPlugAction::Fail
            } else {
                HotPlugAction::Finish
            },
        }
    }

    /// Whether a device with another MAC address than the first one starts to be
    /// used. The bridge runs all the same.
    pub open spec fn sees_other_mac(self, event: HotPlugEvent) -> bool {
        self.phase matches HotPlugPhase::Resolving(mac) && event matches HotPlugEvent::Peer(
            Some(_),
        ) && self.expected_mac matches Some(expected) && mac@ != expected@
    }

    /// Whether the bridge starts once more.
    pub open spec fn reconnects(self, event: HotPlugEvent) -> bool {
        self.next(event).phase is Bridging && self.connected_once
    }

    /// A loop that looks for its first device. Its first action is to search.
    pub fn new() -> (r: HotPlug)
        ensures
            r.wf(),
            r == (HotPlug {
                phase: HotPlugPhase::Searching,
                expected_mac: None,
                connected_once: false,
            }),
    {
        HotPlug { phase: HotPlugPhase::Searching, expected_mac: None, connected_once: false }
    }

    /// Takes an event.
    pub fn step(&mut self, event: HotPlugEvent) -> (r: HotPlugStep)
        requires
            old(self).wf(),
            old(self).accepts(event),
        ensures
            final(self).wf(),
            *final(self) == old(self).next(event),
            r.action == old(self).action(event),
            r.mac_changed == old(self).sees_other_mac(event),
            r.reconnected == old(self).reconnects(event),
    {
        let mut mac_changed = false;
        let mut reconnected = false;
        let action = match (self.phase, event) {
            (_, HotPlugEvent::Cancelled) => {
                self.phase = HotPlugPhase::Done;
                HotPlugAction::Finish
            },
            (_, HotPlugEvent::NotFound) => HotPlugAction::Search,
            (_, HotPlugEvent::Found) => {
                self.phase = HotPlugPhase::Registering;
                HotPlugAction::Register
            },
            (HotPlugPhase::Registering, HotPlugEvent::Done) => {
                self.phase = HotPlugPhase::Settling;
                HotPlugAction::Wait(SETTLE_MS)
            },
            (HotPlugPhase::Settling, HotPlugEvent::Done) => {
                self.phase = HotPlugPhase::AskingMac;
                HotPlugAction::AskMac
            },
            (HotPlugPhase::CreatingTap(peer), HotPlugEvent::Done) => {
                self.phase = HotPlugPhase::Bridging;
                self.connected_once = true;
                HotPlugAction::StartBridge(peer)
            },
            (HotPlugPhase::CreatingTap(_), HotPlugEvent::Failed) => {
                self.phase = HotPlugPhase::Done;
                HotPlugAction::Fail
            },
            (_, HotPlugEvent::Done) => {
                self.phase = HotPlugPhase::Searching;
                HotPlugAction::Search
            },
            (_, HotPlugEvent::Failed) => {
                self.phase = HotPlugPhase::Cooldown;
                HotPlugAction::Wait(COOLDOWN_MS)
            },
            (_, HotPlugEvent::Mac(mac)) => {
                self.phase = HotPlugPhase::Resolving(mac);
                HotPlugAction::Resolve
            },
            (_, HotPlugEvent::Peer(None)) => {
                self.phase = HotPlugPhase::Searching;
                HotPlugAction::Search
            },
            (HotPlugPhase::Resolving(mac), HotPlugEvent::Peer(Some(peer))) => {
                match self.expected_mac {
                    None => {
                        self.expected_mac = Some(mac);
                        self.phase = HotPlugPhase::CreatingTap(peer);
                        HotPlugAction::CreateTap(mac)
                    },
                    Some(expected) => {
                        mac_changed = !same_mac(&mac, &expected);
                        reconnected = self.connected_once;
                        self.connected_once = true;
                        self.phase = HotPlugPhase::Bridging;
                        HotPlugAction::StartBridge(peer)
                    },
                }
            },
            (_, HotPlugEvent::Peer(Some(_))) => HotPlugAction::Search,
            (_, HotPlugEvent::BridgeEnded(cancelled)) => {
                if cancelled {
                    self.phase = HotPlugPhase::Done;
                    HotPlugAction::Finish
                } else {
                    self.phase = HotPlugPhase::Cooldown;
                    HotPlugAction::Wait(COOLDOWN_MS)
                }
            },
        };
        HotPlugStep { action, mac_changed, reconnected }
    }
}

/// A hot-plug loop, and what it has done.
pub struct HotPlugHistory {
    pub hot_plug: HotPlug,
    /// The MAC addresses with which a TAP interface was created, or tried to be.
    pub taps: Seq<[u8; 6]>,
    /// How often the bridge was started.
    pub starts: nat,
    /// How often a reconnection was reported.
    pub reconnects: nat,
}

impl HotPlugHistory {
    /// A loop that has just begun.
    pub open spec fn fresh() -> HotPlugHistory {
        HotPlugHistory {
            hot_plug: HotPlug {
                phase: HotPlugPhase::Searching,
                expected_mac: None,
                connected_once: false,
            },
            taps: Seq::empty(),
            starts: 0,
            reconnects: 0,
        }
    }

    /// The history after an event.
    pub open spec fn next(self, event: HotPlugEvent) -> HotPlugHistory {
        let action = self.hot_plug.action(event);
        HotPlugHistory {
            hot_plug: self.hot_plug.next(event),
            taps: match action {
                HotPlugAction::CreateTap(mac) => self.taps.push(mac),
                _ => self.taps,
            },
            starts: if action is StartBridge {
                self.starts + 1
            } else {
                self.starts
            },
            reconnects: if self.hot_plug.reconnects(event) {
                self.reconnects + 1
            } else {
                self.reconnects
            },
        }
    }

    /// The history after a sequence of events.
    pub open spec fn after(self, events: Seq<HotPlugEvent>) -> HotPlugHistory
        decreases events.len(),
    {
        if events.len() == 0 {
            self
        } else {
            self.after(events.drop_last()).next(events.last())
        }
    }

    /// Whether each event of the sequence can happen where it stands.
    pub open spec fn possible(self, events: Seq<HotPlugEvent>) -> bool {
        forall|i: int|
            0 <= i < events.len() ==> self.after(events.take(i)).hot_plug.accepts(
                #[trigger] events[i],
            )
    }

    /// What holds at every moment.
    spec fn inv(self) -> bool {
        &&& self.hot_plug.wf()
        &&& self.taps == match self.hot_plug.expected_mac {
            Some(mac) => seq![mac],
            None => Seq::empty(),
        }
        &&& self.hot_plug.connected_once == (self.starts > 0)
        &&& self.reconnects == if self.starts > 0 {
            (self.starts - 1) as nat
        } else {
            0
        }
    }
}

/// Whether event `j`, when it is the answer of a device, is followed by the failure
/// to resolve that device.
pub open spec fn unresolved(events: Seq<HotPlugEvent>, j: int) -> bool {
    events[j] is Mac ==> events[j + 1] == HotPlugEvent::Peer(None)
}

/// Whether event `i` is the answer of the first device that answered and was
/// resolved: it gave this MAC address, its address was found next, and every earlier
/// answer came from a device that could not be resolved.
pub open spec fn first_resolved(events: Seq<HotPlugEvent>, i: int, mac: [u8; 6]) -> bool {
    &&& 0 <= i < events.len() - 1
    &&& events[i] == HotPlugEvent::Mac(mac)
    &&& events[i + 1] matches HotPlugEvent::Peer(Some(_))
    &&& forall|j: int| 0 <= j < i ==> #[trigger] unresolved(events, j)
}

/// Whether this is the MAC address of the first device that answered and was resolved.
pub open spec fn the_first_resolved(events: Seq<HotPlugEvent>, mac: [u8; 6]) -> bool {
    exists|i: int| first_resolved(events, i, mac)
}

/// Whether no device that answered has been resolved.
pub open spec fn none_resolved(events: Seq<HotPlugEvent>) -> bool {
    forall|j: int| 0 <= j < events.len() - 1 ==> #[trigger] unresolved(events, j)
}

/// What the events say of the MAC address.
spec fn mac_inv(hot_plug: HotPlug, events: Seq<HotPlugEvent>) -> bool {
    &&& hot_plug.phase matches HotPlugPhase::Resolving(mac) ==> events.len() > 0 && events.last()
        == HotPlugEvent::Mac(mac)
    &&& events.len() > 0 && events.last() is Mac ==> hot_plug.phase is Resolving
    &&& match hot_plug.expected_mac {
        Some(mac) => the_first_resolved(events, mac),
        None => none_resolved(events),
    }
}

proof fn event_keeps_mac(hot_plug: HotPlug, events: Seq<HotPlugEvent>, last: HotPlugEvent)
    requires
        mac_inv(hot_plug, events),
        hot_plug.accepts(last),
    ensures
        mac_inv(hot_plug.next(last), events.push(last)),
{
    let all = events.push(last);
    let post = hot_plug.next(last);
    let n = events.len() - 1;
    assert(all.last() == last);
    assert forall|j: int| 0 <= j < n && unresolved(events, j) implies #[trigger] unresolved(
        all,
        j,
    ) by {}
    match hot_plug.expected_mac {
        Some(mac) => {
            let i = choose|i: int| first_resolved(events, i, mac);
            assert(first_resolved(all, i, mac)) by {
                assert forall|j: int| 0 <= j < i implies #[trigger] unresolved(all, j) by {
                    assert(unresolved(events, j));
                }
            }
        },
        None => {
            assert forall|j: int| 0 <= j < n implies #[trigger] unresolved(all, j) by {
                assert(unresolved(events, j));
            }
            if let Some(mac) = post.expected_mac {
                assert(first_resolved(all, n, mac));
            } else if n >= 0 {
                assert(events.last() == all[n] && all[n + 1] == last);
                assert(unresolved(all, n));
            }
        },
    }
}

proof fn hot_plug_keeps_mac(events: Seq<HotPlugEvent>)
    requires
        HotPlugHistory::fresh().possible(events),
    ensures
        mac_inv(HotPlugHistory::fresh().after(events).hot_plug, events),
    decreases events.len(),
{
    let start = HotPlugHistory::fresh();
    if events.len() > 0 {
        let before = events.drop_last();
        assert forall|i: int| 0 <= i < before.len() implies start.after(
            before.take(i),
        ).hot_plug.accepts(#[trigger] before[i]) by {
            assert(before.take(i) =~= events.take(i));
            assert(before[i] == events[i]);
        }
        hot_plug_keeps_mac(before);
        assert(events.take(events.len() - 1) =~= before);
        assert(start.after(before).hot_plug.accepts(events[events.len() - 1]));
        event_keeps_mac(start.after(before).hot_plug, before, events.last());
        assert(before.push(events.last()) =~= events);
    }
}

proof fn hot_plug_keeps_inv(events: Seq<HotPlugEvent>)
    requires
        HotPlugHistory::fresh().possible(events),
    ensures
        HotPlugHistory::fresh().after(events).inv(),
    decreases events.len(),
{
    let start = HotPlugHistory::fresh();
    if events.len() > 0 {
        let before = events.drop_last();
        assert forall|i: int| 0 <= i < before.len() implies start.after(
            before.take(i),
        ).hot_plug.accepts(#[trigger] before[i]) by {
            assert(before.take(i) =~= events.take(i));
            assert(before[i] == events[i]);
        }
        hot_plug_keeps_inv(before);
        assert(events.take(events.len() - 1) =~= before);
        assert(start.after(before).hot_plug.accepts(events[events.len() - 1]));
        let next = start.after(events);
        assert(next.taps =~= match next.hot_plug.expected_mac {
            Some(mac) => seq![mac],
            None => Seq::empty(),
        });
    }
}

/// What the first MAC address says of the TAP interfaces.
proof fn the_tap_has_the_first_mac(history: HotPlugHistory, events: Seq<HotPlugEvent>)
    requires
        history.inv(),
        mac_inv(history.hot_plug, events),
    ensures
        history.taps.len() <= 1,
        history.taps.len() == 1 ==> the_first_resolved(events, history.taps[0]),
        history.taps.len() == 0 ==> none_resolved(events),
{
}

/// Whatever devices come and go, a TAP interface is created at most once, with
/// the MAC address of the first device that answered and was resolved, and before
/// the bridge starts; and each start of the bridge but the first is reported as a
/// reconnection.
#[verifier::rlimit(60)]
#[verifier::spinoff_prover]
pub proof fn one_tap_for_all_devices(events: Seq<HotPlugEvent>)
    requires
        HotPlugHistory::fresh().possible(events),
    ensures
        ({
            let history = HotPlugHistory::fresh().after(events);
            &&& history.taps.len() <= 1
            &&& history.taps.len() == 1 ==> history.hot_plug.expected_mac == Some(history.taps[0])
            &&& history.taps.len() == 1 ==> the_first_resolved(events, history.taps[0])
            &&& history.taps.len() == 0 ==> none_resolved(events)
            &&& history.starts > 0 ==> history.taps.len() == 1
            &&& history.reconnects == if history.starts > 0 {
                history.starts - 1
            } else {
                0
            }
        }),
{
    hot_plug_keeps_inv(events);
    hot_plug_keeps_mac(events);
    the_tap_has_the_first_mac(HotPlugHistory::fresh().after(events), events);
}

/// The event that is so many before the end, when there are so many.
pub open spec fn back(events: Seq<HotPlugEvent>, n: int) -> Option<HotPlugEvent> {
    if 0 <= n < events.len() {
        Some(events[events.len() - 1 - n])
    } else {
        None
    }
}

/// What the last events say of the phase.
spec fn phase_inv(history: HotPlugHistory, events: Seq<HotPlugEvent>) -> bool {
    let hot_plug = history.hot_plug;
    let resolved = back(events, 0) matches Some(HotPlugEvent::Peer(Some(_)));
    &&& history.inv()
    &&& match hot_plug.phase {
        HotPlugPhase::Searching => match back(events, 0) {
            None => true,
            Some(HotPlugEvent::NotFound) => true,
            Some(HotPlugEvent::Peer(None)) => true,
            Some(HotPlugEvent::Done) => back(events, 1) matches Some(before) && (before is Failed
                || before == HotPlugEvent::BridgeEnded(false)),
            _ => false,
        },
        HotPlugPhase::Registering => back(events, 0) == Some(HotPlugEvent::Found),
        HotPlugPhase::Settling => back(events, 0) == Some(HotPlugEvent::Done) && back(events, 1)
            == Some(HotPlugEvent::Found),
        HotPlugPhase::AskingMac => back(events, 0) == Some(HotPlugEvent::Done) && back(events, 1)
            == Some(HotPlugEvent::Done) && back(events, 2) == Some(HotPlugEvent::Found),
        HotPlugPhase::Resolving(mac) => back(events, 0) == Some(HotPlugEvent::Mac(mac)),
        HotPlugPhase::CreatingTap(peer) => history.starts == 0 && back(events, 0) == Some(
            HotPlugEvent::Peer(Some(peer)),
        ),
        HotPlugPhase::Bridging => history.starts > 0 && (resolved || (back(events, 0) == Some(
            HotPlugEvent::Done,
        ) && (back(events, 1) matches Some(HotPlugEvent::Peer(Some(_)))))),
        HotPlugPhase::Cooldown => back(events, 0) matches Some(last) && (last is Failed || last
            == HotPlugEvent::BridgeEnded(false)),
        HotPlugPhase::Done => true,
    }
    &&& !(hot_plug.phase is CreatingTap) && resolved ==> hot_plug.phase is Bridging
    &&& hot_plug.phase is Done <==> (back(events, 0) matches Some(last) && ends_the_loop(
        last,
        back(events, 1),
    ))
    &&& !(hot_plug.phase is Done || hot_plug.phase is CreatingTap) ==> (
    hot_plug.expected_mac is Some) == (history.starts > 0)
}

/// Whether an event, after the one before it, ends the hot-plug loop: a shutdown, or
/// the failure of what follows the address of the first device, which is to create the
/// TAP interface.
pub open spec fn ends_the_loop(last: HotPlugEvent, before: Option<HotPlugEvent>) -> bool {
    ||| last is Cancelled
    ||| last == HotPlugEvent::BridgeEnded(true)
    ||| last is Failed && (before matches Some(HotPlugEvent::Peer(Some(_))))
}

#[verifier::rlimit(60)]
#[verifier::spinoff_prover]
proof fn event_keeps_phase(history: HotPlugHistory, events: Seq<HotPlugEvent>, last: HotPlugEvent)
    requires
        phase_inv(history, events),
        history.hot_plug.accepts(last),
    ensures
        phase_inv(history.next(last), events.push(last)),
{
    let all = events.push(last);
    let post = history.next(last);
    assert(back(all, 0) == Some(last));
    assert(back(all, 1) == back(events, 0));
    assert(back(all, 2) == back(events, 1));
    assert(post.taps =~= match post.hot_plug.expected_mac {
        Some(mac) => seq![mac],
        None => Seq::empty(),
    });
}

/// Whether each event of the sequence can happen where it stands, from the first on.
pub open spec fn possible_run(events: Seq<HotPlugEvent>) -> bool
    decreases events.len(),
{
    events.len() > 0 ==> {
        &&& possible_run(events.drop_last())
        &&& HotPlugHistory::fresh().after(events.drop_last()).hot_plug.accepts(events.last())
    }
}

proof fn run_keeps_phase(events: Seq<HotPlugEvent>)
    requires
        possible_run(events),
    ensures
        phase_inv(HotPlugHistory::fresh().after(events), events),
    decreases events.len(),
{
    let start = HotPlugHistory::fresh();
    if events.len() > 0 {
        let before = events.drop_last();
        run_keeps_phase(before);
        event_keeps_phase(start.after(before), before, events.last());
        assert(before.push(events.last()) =~= events);
    }
}

/// The hot-plug loop ends only with a shutdown, or with the failure to create the TAP
/// interface; whatever devices have come and gone before, it goes on after everything
/// else. In particular a search that finds nothing is followed by another search.
pub proof fn only_a_shutdown_ends_the_loop(events: Seq<HotPlugEvent>)
    requires
        possible_run(events),
    ensures
        ({
            let hot_plug = HotPlugHistory::fresh().after(events).hot_plug;
            let n = events.len();
            &&& hot_plug.phase is Done <==> n > 0 && (events[n - 1] is Cancelled || events[n - 1]
                == HotPlugEvent::BridgeEnded(true) || (events[n - 1] is Failed && n > 1 && (
            events[n - 2] matches HotPlugEvent::Peer(Some(_)))))
            &&& n == 0 || events[n - 1] is NotFound || events[n - 1] == HotPlugEvent::Peer(None)
                ==> hot_plug.phase is Searching
        }),
{
    run_keeps_phase(events);
}

/// What the loop does after its last event, told by the last events alone: a device that
/// is found is opened, left alone for two seconds, asked for its MAC address and
/// resolved; a failure is followed by one second of rest, and that by a search; the end
/// of the bridge is no different. The first device that is resolved gets the TAP
/// interface, and the bridge to it starts when that is there; for every later one the
/// bridge starts at once.
#[verifier::rlimit(60)]
#[verifier::spinoff_prover]
pub proof fn the_loop_answers_every_event(events: Seq<HotPlugEvent>, last: HotPlugEvent)
    requires
        possible_run(events.push(last)),
    ensures
        ({
            let history = HotPlugHistory::fresh().after(events);
            let action = history.hot_plug.action(last);
            let before = back(events, 0);
            match last {
                HotPlugEvent::Cancelled => action is Finish,
                HotPlugEvent::NotFound => action is Search,
                HotPlugEvent::Found => action is Register,
                HotPlugEvent::Mac(_) => action is Resolve,
                HotPlugEvent::Peer(None) => action is Search,
                HotPlugEvent::Peer(Some(peer)) => if history.starts == 0 && history.taps.len() == 0 {
                    before matches Some(HotPlugEvent::Mac(mac)) && action
                        == HotPlugAction::CreateTap(mac)
                } else {
                    action == HotPlugAction::StartBridge(peer)
                },
                HotPlugEvent::BridgeEnded(true) => action is Finish,
                HotPlugEvent::BridgeEnded(false) => action == HotPlugAction::Wait(1000),
                HotPlugEvent::Failed => if before matches Some(HotPlugEvent::Peer(Some(_))) {
                    action is Fail
                } else {
                    action == HotPlugAction::Wait(1000)
                },
                HotPlugEvent::Done => match before {
                    Some(HotPlugEvent::Found) => action == HotPlugAction::Wait(2000),
                    Some(HotPlugEvent::Done) => action is AskMac,
                    Some(HotPlugEvent::Peer(Some(peer))) => action == HotPlugAction::StartBridge(
                        peer,
                    ),
                    _ => action is Search,
                },
            }
        }),
{
    let all = events.push(last);
    assert(all.drop_last() =~= events);
    assert(all.last() == last);
    run_keeps_phase(events);
}

/// A device with another MAC address than the first one is noticed, and no other; a
/// start of the bridge is reported as a reconnection when there was one before it, and
/// only then.
pub proof fn a_changed_mac_is_noticed(events: Seq<HotPlugEvent>, mac: [u8; 6], peer: Address)
    requires
        possible_run(events.push(HotPlugEvent::Mac(mac)).push(HotPlugEvent::Peer(Some(peer)))),
    ensures
        ({
            let history = HotPlugHistory::fresh().after(events.push(HotPlugEvent::Mac(mac)));
            let event = HotPlugEvent::Peer(Some(peer));
            &&& history.hot_plug.sees_other_mac(event) == (history.taps.len() > 0 && mac@
                != history.taps[0]@)
            &&& history.hot_plug.reconnects(event) == (history.starts > 0)
        }),
{
    let asked = events.push(HotPlugEvent::Mac(mac));
    let all = asked.push(HotPlugEvent::Peer(Some(peer)));
    assert(all.drop_last() =~= asked);
    assert(asked.last() == HotPlugEvent::Mac(mac));
    run_keeps_phase(asked);
    let history = HotPlugHistory::fresh().after(asked);
    assert(history.hot_plug.accepts(HotPlugEvent::Peer(Some(peer))));
    assert(back(asked, 0) == Some(HotPlugEvent::Mac(mac)));
    assert(history.hot_plug.phase is Resolving);
}

/// A device that is lost is looked for again: the end of the bridge leads back to
/// the search through one wait, with the TAP interface kept.
pub proof fn a_lost_device_is_searched_for(hot_plug: HotPlug)
    requires
        hot_plug.phase is Bridging,
    ensures
        ({
            let ended = HotPlugEvent::BridgeEnded(false);
            let waiting = hot_plug.next(ended);
            &&& hot_plug.accepts(ended)
            &&& hot_plug.action(ended) == HotPlugAction::Wait(COOLDOWN_MS)
            &&& waiting.action(HotPlugEvent::Done) is Search
            &&& waiting.next(HotPlugEvent::Done).expected_mac == hot_plug.expected_mac
        }),
{
}

/// Only a device that is resolved can be seen to have another MAC address, and only what
/// starts the bridge can be a reconnection.
pub proof fn only_a_resolved_device_is_compared(hot_plug: HotPlug, event: HotPlugEvent)
    ensures
        hot_plug.sees_other_mac(event) ==> (event matches HotPlugEvent::Peer(Some(_)))
            && hot_plug.phase is Resolving && hot_plug.expected_mac is Some,
        hot_plug.reconnects(event) ==> hot_plug.action(event) is StartBridge
            && hot_plug.connected_once,
        hot_plug.action(event) is StartBridge && hot_plug.connected_once ==> hot_plug.reconnects(
            event,
        ),
{
}

/// The times and sizes of the serial link: a device is looked for twice a second, a request
/// is repeated four times a second, a new device has two seconds to start, and a lost one
/// is looked for after one. A packet of the link holds a frame of the largest size with its
/// transaction, and the buffer holds many of them.
pub proof fn the_serial_link_fits_its_frames()
    ensures
        DEVICE_POLL_INTERVAL_MS * 2 == 1000,
        REQUEST_RETRY_TIMEOUT_MS * 4 == 1000,
        SETTLE_MS == 2 * COOLDOWN_MS,
        COOLDOWN_MS == 1000,
        MAX_ERGOT_PACKET_SIZE == crate::device::MAX_PACKET_SIZE,
        crate::icd::MAX_FRAME_SIZE + 256 < MAX_ERGOT_PACKET_SIZE,
        TX_BUFFER_SIZE == 32 * MAX_ERGOT_PACKET_SIZE,
        REQUEST_RETRY_TIMEOUT_MS == crate::bridge::ENDPOINT_STALL_THRESHOLD_MS,
{
}

} // verus!
