//! The USB bulk transport: which devices are taken, and how a reconnected device
//! is routed to.
use vstd::prelude::*;

use crate::address::{nusb_peer_address, Address, InterfaceState};
use crate::metrics::BridgeMetrics;
use crate::scan::same;
use crate::serial_transport::same_mac;

verus! {

/// The largest packet on the USB link.
pub const MTU: u16 = 2048;

/// The size of the transmit buffer, for bursty WiFi traffic.
pub const OUT_BUFFER_SIZE: usize = 65536;

/// The pause between two searches for the first device.
pub const SEARCH_PAUSE_MS: u64 = 500;

/// The pause between two searches for reconnected devices.
pub const WATCH_PAUSE_MS: u64 = 3000;

/// One interface of a USB device.
#[derive(Debug)]
pub struct UsbInterface {
    pub class: u8,
    pub subclass: u8,
    pub protocol: u8,
    pub name: Option<String>,
}

/// Whether an interface is of the kind that the device offers: vendor specific,
/// with the expected numbers, and named accordingly when its name is known.
pub open spec fn offers_bridge(interface: UsbInterface) -> bool {
    &&& interface.class == 0xFF
    &&& interface.subclass == 0xCA
    &&& interface.protocol == 0x7D
    &&& (interface.name matches Some(name) ==> name@ == "ergot"@)
}

/// Whether an interface is of the kind that the device offers.
fn is_bridge_interface(interface: &UsbInterface) -> (r: bool)
    ensures
        r == offers_bridge(*interface),
{
    interface.class == 0xFF && interface.subclass == 0xCA && interface.protocol == 0x7D
        && match &interface.name {
        Some(name) => same(name.as_str(), "ergot"),
        None => true,
    }
}

/// Whether a USB device may be one to bridge to: whether any of its interfaces is
/// of the kind that the device offers.
pub fn coarse_device_filter(interfaces: &Vec<UsbInterface>) -> (r: bool)
    ensures
        r <==> exists|i: int| 0 <= i < interfaces@.len() && offers_bridge(#[trigger] interfaces@[i]),
{
    let mut i: usize = 0;
    while i < interfaces.len()
        invariant
            i <= interfaces.len(),
            forall|k: int| 0 <= k < i ==> !offers_bridge(#[trigger] interfaces@[k]),
        decreases interfaces.len() - i,
    {
        if is_bridge_interface(&interfaces[i]) {
            return true;
        }
        i = i + 1;
    }
    false
}

/// What tells one USB device from another.
#[derive(Debug)]
pub struct DeviceId {
    pub serial_number: Option<String>,
    pub manufacturer: Option<String>,
    pub product: Option<String>,
}

/// What tells one USB device from another, as texts.
pub struct DeviceIdView {
    pub serial_number: Option<Seq<char>>,
    pub manufacturer: Option<Seq<char>>,
    pub product: Option<Seq<char>>,
}

/// The text of an optional string.
pub open spec fn text_of(s: Option<String>) -> Option<Seq<char>> {
    match s {
        Some(text) => Some(text@),
        None => None,
    }
}

impl View for DeviceId {
    type V = DeviceIdView;

    open spec fn view(&self) -> DeviceIdView {
        DeviceIdView {
            serial_number: text_of(self.serial_number),
            manufacturer: text_of(self.manufacturer),
            product: text_of(self.product),
        }
    }
}

impl Clone for DeviceId {
    fn clone(&self) -> (r: DeviceId)
        ensures
            r@ == self@,
    {
        DeviceId {
            serial_number: copy_text(&self.serial_number),
            manufacturer: copy_text(&self.manufacturer),
            product: copy_text(&self.product),
        }
    }
}

fn copy_text(s: &Option<String>) -> (r: Option<String>)
    ensures
        text_of(r) == text_of(*s),
{
    match s {
        Some(text) => Some(text.clone()),
        None => None,
    }
}

fn same_text(a: &Option<String>, b: &Option<String>) -> (r: bool)
    ensures
        r == (text_of(*a) == text_of(*b)),
{
    match (a, b) {
        (Some(x), Some(y)) => same(x.as_str(), y.as_str()),
        (None, None) => true,
        _ => false,
    }
}

impl DeviceId {
    /// Whether both name the same device.
    pub fn is(&self, other: &DeviceId) -> (r: bool)
        ensures
            r == (self@ == other@),
    {
        same_text(&self.serial_number, &other.serial_number) && same_text(
            &self.manufacturer,
            &other.manufacturer,
        ) && same_text(&self.product, &other.product)
    }
}

/// The devices of a list.
pub open spec fn ids(list: Seq<DeviceId>) -> Seq<DeviceIdView> {
    Seq::new(list.len(), |i: int| list[i]@)
}

/// Whether a list names a device.
fn list_contains(list: &Vec<DeviceId>, device: &DeviceId) -> (r: bool)
    ensures
        r == ids(list@).contains(device@),
{
    let mut i: usize = 0;
    while i < list.len()
        invariant
            i <= list.len(),
            forall|k: int| 0 <= k < i ==> ids(list@)[k] != device@,
        decreases list.len() - i,
    {
        if list[i].is(device) {
            assert(ids(list@)[i as int] == device@);
            return true;
        }
        i = i + 1;
    }
    false
}

proof fn contains_after_push(list: Seq<DeviceIdView>, last: DeviceIdView, d: DeviceIdView)
    ensures
        list.push(last).contains(d) <==> list.contains(d) || d == last,
{
    if list.contains(d) {
        let k = choose|k: int| 0 <= k < list.len() && list[k] == d;
        assert(list.push(last)[k] == d);
    }
    assert(list.push(last)[list.len() as int] == last);
}

/// The devices that are registered. No device is listed twice.
#[derive(Debug)]
pub struct SeenDevices {
    pub list: Vec<DeviceId>,
}

impl View for SeenDevices {
    type V = Set<DeviceIdView>;

    open spec fn view(&self) -> Set<DeviceIdView> {
        ids(self.list@).to_set()
    }
}

impl SeenDevices {
    /// No device is listed twice.
    pub open spec fn wf(self) -> bool {
        ids(self.list@).no_duplicates()
    }

    /// No device is registered.
    pub fn new() -> (r: SeenDevices)
        ensures
            r.wf(),
            r@ == Set::<DeviceIdView>::empty(),
    {
        let r = SeenDevices { list: Vec::new() };
        assert(r@ =~= Set::<DeviceIdView>::empty());
        r
    }

    /// Whether a device is registered.
    pub fn contains(&self, device: &DeviceId) -> (r: bool)
        ensures
            r == self@.contains(device@),
    {
        list_contains(&self.list, device)
    }

    /// Forgets the devices that are no longer connected, so that they are
    /// registered again when they come back.
    pub fn retain_connected(&mut self, connected: &Vec<DeviceId>)
        requires
            old(self).wf(),
        ensures
            final(self).wf(),
            final(self)@ == old(self)@.intersect(ids(connected@).to_set()),
    {
        let mut kept: Vec<DeviceId> = Vec::new();
        let mut i: usize = 0;
        let ghost all = ids(self.list@);
        let ghost there = ids(connected@);
        while i < self.list.len()
            invariant
                i <= self.list.len(),
                all == ids(self.list@),
                there == ids(connected@),
                all.no_duplicates(),
                ids(kept@).no_duplicates(),
                forall|d: DeviceIdView| #[trigger]
                    ids(kept@).contains(d) <==> all.take(i as int).contains(d) && there.contains(d),
            decreases self.list.len() - i,
        {
            let ghost before = ids(kept@);
            let ghost device = all[i as int];
            assert(device == self.list@[i as int]@);
            assert(all.take(i + 1) =~= all.take(i as int).push(device));
            assert(!all.take(i as int).contains(device)) by {
                assert forall|k: int| 0 <= k < i implies all.take(i as int)[k] != device by {
                    assert(all[k] != all[i as int]);
                }
            }
            if list_contains(connected, &self.list[i]) {
                kept.push(self.list[i].clone());
                proof {
                    assert(ids(kept@) =~= before.push(device));
                    assert(!before.contains(device));
                    assert forall|j: int, k: int| 0 <= j < k < ids(kept@).len() implies ids(
                        kept@,
                    )[j] != ids(kept@)[k] by {
                        if k == before.len() {
                            assert(before[j] != device);
                        } else {
                            assert(before[j] != before[k]);
                        }
                    }
                }
            }
            assert forall|d: DeviceIdView| #[trigger]
                ids(kept@).contains(d) <==> all.take(i + 1).contains(d) && there.contains(d) by {
                contains_after_push(before, device, d);
                contains_after_push(all.take(i as int), device, d);
            }
            i = i + 1;
        }
        assert(all.take(i as int) =~= all);
        self.list = kept;
        assert(self@ =~= old(self)@.intersect(there.to_set()));
    }

    /// Remembers a device.
    pub fn insert(&mut self, device: DeviceId)
        requires
            old(self).wf(),
        ensures
            final(self).wf(),
            final(self)@ == old(self)@.insert(device@),
    {
        if !list_contains(&self.list, &device) {
            let ghost before = ids(self.list@);
            self.list.push(device);
            proof {
                assert(ids(self.list@) =~= before.push(device@));
                assert forall|d: DeviceIdView| self@.contains(d) <==> old(self)@.insert(
                    device@,
                ).contains(d) by {
                    contains_after_push(before, device@, d);
                }
                assert(self@ =~= old(self)@.insert(device@));
            }
        } else {
            assert(self@ =~= old(self)@.insert(device@));
        }
    }
}

/// A device that was unplugged is new again when it comes back: a search without
/// it forgets it, whatever was registered before.
pub proof fn an_unplugged_device_is_new_again(seen: Set<DeviceIdView>, connected: Set<DeviceIdView>, device: DeviceIdView)
    requires
        !connected.contains(device),
    ensures
        !seen.intersect(connected).contains(device),
        forall|d: DeviceIdView|
            connected.contains(d) ==> seen.intersect(connected).contains(d) == seen.contains(d),
{
}

/// Registers what was found: remembers the device of a registration that worked,
/// and adds it to the list. A device that could not be registered is tried again.
pub fn note_registration(seen: &mut SeenDevices, list: &mut Vec<(u64, DeviceId)>, device: DeviceId, outcome: Option<
    u64,
>)
    requires
        old(seen).wf(),
    ensures
        final(seen).wf(),
        match outcome {
            Some(interface) => {
                &&& final(seen)@ == old(seen)@.insert(device@)
                &&& final(list)@.len() == old(list)@.len() + 1
                &&& final(list)@.drop_last() == old(list)@
                &&& final(list)@.last().0 == interface
                &&& final(list)@.last().1@ == device@
            },
            None => final(seen)@ == old(seen)@ && final(list)@ == old(list)@,
        },
{
    if let Some(interface) = outcome {
        seen.insert(device.clone());
        list.push((interface, device));
        assert(list@.drop_last() =~= old(list)@);
    }
}

/// What the search for the first device is doing.
#[derive(Clone, Copy, Debug, PartialEq, Eq, Structural)]
pub enum StartPhase {
    /// Looks for new devices.
    Searching,
    /// Gives the device on this interface time to start.
    Settling(u64),
    /// Asks the device on this interface for its MAC address.
    AskingMac(u64),
    /// Pauses before the next search.
    Pausing,
    /// The search is over.
    Done,
}

/// What can happen during the search.
#[derive(Clone, Copy, Debug)]
pub enum StartEvent {
    /// The program is shutting down.
    Cancelled,
    /// The search ended; the interface of the first new device.
    Searched(Option<u64>),
    /// A wait is over.
    Elapsed,
    /// The MAC address, when the device answered.
    Mac(Option<[u8; 6]>),
}

/// What to do next.
#[derive(Clone, Copy, Debug)]
pub enum StartAction {
    /// Look for new devices.
    Search,
    /// Wait this many milliseconds.
    Wait(u64),
    /// Ask the device on this interface.
    AskMac(u64),
    /// Use the device on this interface with this MAC address.
    Use(u64, [u8; 6]),
    /// Return success without a device.
    Finish,
}

/// Looks for the first device that answers with its MAC address. A shutdown ends
/// the search at any point.
#[derive(Clone, Copy, Debug, PartialEq, Eq, Structural)]
pub struct DeviceStart {
    pub phase: StartPhase,
}

impl DeviceStart {
    /// Whether the event can follow the last action.
    pub open spec fn accepts(self, event: StartEvent) -> bool {
        match self.phase {
            StartPhase::Searching => event is Searched || event is Cancelled,
            StartPhase::Settling(_) => event is Elapsed || event is Cancelled,
            StartPhase::AskingMac(_) => event is Mac || event is Cancelled,
            StartPhase::Pausing => event is Elapsed || event is Cancelled,
            StartPhase::Done => false,
        }
    }

    /// The phase that follows.
    pub open spec fn next_phase(self, event: StartEvent) -> StartPhase {
        match (self.phase, event) {
            (_, StartEvent::Cancelled) => StartPhase::Done,
            (_, StartEvent::Searched(Some(interface))) => StartPhase::Settling(interface),
            (_, StartEvent::Searched(None)) => StartPhase::Pausing,
            (StartPhase::Settling(interface), StartEvent::Elapsed) => StartPhase::AskingMac(
                interface,
            ),
            (_, StartEvent::Elapsed) => StartPhase::Searching,
            (_, StartEvent::Mac(Some(_))) => StartPhase::Done,
            (_, StartEvent::Mac(None)) => StartPhase::Searching,
        }
    }

    /// The action that follows.
    pub open spec fn action(self, event: StartEvent) -> StartAction {
        match self.next_phase(event) {
            StartPhase::Searching => StartAction::Search,
            StartPhase::Settling(_) => StartAction::Wait(crate::serial_transport::SETTLE_MS),
            StartPhase::AskingMac(interface) => StartAction::AskMac(interface),
            StartPhase::Pausing => StartAction::Wait(SEARCH_PAUSE_MS),
            StartPhase::Done => match (self.phase, event) {
                (StartPhase::AskingMac(interface), StartEvent::Mac(Some(mac))) =>
                    StartAction::Use(interface, mac),
                _ => StartAction::Finish,
            },
        }
    }

    /// A search that begins. Its first action is to search.
    pub fn new() -> (r: DeviceStart)
        ensures
            r.phase is Searching,
    {
        DeviceStart { phase: StartPhase::Searching }
    }

    /// Takes an event.
    pub fn step(&mut self, event: StartEvent) -> (r: StartAction)
        requires
            old(self).accepts(event),
        ensures
            final(self).phase == old(self).next_phase(event),
            r == old(self).action(event),
    {
        match (self.phase, event) {
            (_, StartEvent::Cancelled) => {
                self.phase = StartPhase::Done;
                StartAction::Finish
            },
            (_, StartEvent::Searched(Some(interface))) => {
                self.phase = StartPhase::Settling(interface);
                StartAction::Wait(crate::serial_transport::SETTLE_MS)
            },
            (_, StartEvent::Searched(None)) => {
                self.phase = StartPhase::Pausing;
                StartAction::Wait(SEARCH_PAUSE_MS)
            },
            (StartPhase::Settling(interface), StartEvent::Elapsed) => {
                self.phase = StartPhase::AskingMac(interface);
                StartAction::AskMac(interface)
            },
            (_, StartEvent::Elapsed) => {
                self.phase = StartPhase::Searching;
                StartAction::Search
            },
            (StartPhase::AskingMac(interface), StartEvent::Mac(Some(mac))) => {
                self.phase = StartPhase::Done;
                StartAction::Use(interface, mac)
            },
            (_, StartEvent::Mac(Some(_))) => {
                self.phase = StartPhase::Done;
                StartAction::Finish
            },
            (_, StartEvent::Mac(None)) => {
                self.phase = StartPhase::Searching;
                StartAction::Search
            },
        }
    }
}

/// Routes to the device after reconnections.
#[derive(Clone, Copy, Debug)]
pub struct RouteWatch {
    /// The interface of the first device.
    pub interface_id: u64,
    /// The MAC address of the first device.
    pub expected_mac: [u8; 6],
    /// Where requests go.
    pub peer: Address,
}

/// What came of a reconnection.
#[derive(Clone, Copy, Debug, PartialEq, Eq, Structural)]
pub struct Reconnection {
    /// The device has another MAC address than the first one.
    pub mac_changed: bool,
    /// Requests now go to the new interface.
    pub routed: bool,
}

impl RouteWatch {
    /// Whether an interface is a reconnection, and not the first one.
    pub fn is_new(&self, interface: u64) -> (r: bool)
        ensures
            r == (interface != self.interface_id),
    {
        interface != self.interface_id
    }

    /// Takes the MAC address and the interface state of a reconnected device.
    /// Requests go to it, and the reconnection counts, when its interface is fully
    /// up; another MAC address is reported and changes nothing.
    pub fn reconnected(&mut self, mac: &[u8; 6], state: Option<InterfaceState>, metrics: &mut BridgeMetrics) -> (r: Reconnection)
        ensures
            r.mac_changed == (mac@ != old(self).expected_mac@),
            r.routed == (crate::address::peer_of(state) is Ok),
            final(self).interface_id == old(self).interface_id,
            final(self).expected_mac == old(self).expected_mac,
            match crate::address::peer_of(state) {
                Ok(peer) => final(self).peer == peer && *final(metrics) == (BridgeMetrics {
                    reconnects: crate::metrics::plus(old(metrics).reconnects, 1),
                    ..*old(metrics)
                }),
                Err(_) => final(self).peer == old(self).peer && *final(metrics) == *old(metrics),
            },
    {
        let mac_changed = !same_mac(mac, &self.expected_mac);
        match nusb_peer_address(state) {
            Ok(peer) => {
                self.peer = peer;
                metrics.record_reconnect();
                Reconnection { mac_changed, routed: true }
            },
            Err(_) => Reconnection { mac_changed, routed: false },
        }
    }
}

/// Which interfaces are taken: vendor specific ones with the numbers of the device, whose
/// name is `ergot` or is not known.
pub proof fn only_the_interface_of_the_device_is_taken(interface: UsbInterface)
    ensures
        offers_bridge(interface) ==> interface.class == 255 && interface.subclass == 202
            && interface.protocol == 125,
        interface.class == 255 && interface.subclass == 202 && interface.protocol == 125
            && interface.name is None ==> offers_bridge(interface),
        interface.class == 255 && interface.subclass == 202 && interface.protocol == 125 && (
        interface.name matches Some(name) && name@ == "ergot"@) ==> offers_bridge(interface),
        (interface.name matches Some(name) && name@ != "ergot"@) ==> !offers_bridge(interface),
{
}

/// What the search for the first device does with each event. A device that is found is
/// left alone for two seconds and then asked for its MAC address; its answer is used with
/// the interface that it came from. A search that finds nothing is repeated after half a
/// second, and one whose device does not answer at once. Only an answer and a shutdown end
/// the search.
pub proof fn the_search_answers_every_event(start: DeviceStart, event: StartEvent)
    requires
        start.accepts(event),
    ensures
        ({
            let next = start.next_phase(event);
            let action = start.action(event);
            &&& event is Cancelled ==> action is Finish
            &&& event matches StartEvent::Searched(Some(interface)) ==> action
                == StartAction::Wait(2000) && next == StartPhase::Settling(interface)
            &&& event matches StartEvent::Searched(None) ==> action == StartAction::Wait(500) && next
                is Pausing
            &&& event is Elapsed ==> match start.phase {
                StartPhase::Settling(interface) => action == StartAction::AskMac(interface) && next
                    == StartPhase::AskingMac(interface),
                _ => action is Search && next is Searching,
            }
            &&& event matches StartEvent::Mac(Some(mac)) ==> (start.phase matches
                StartPhase::AskingMac(interface) && action == StartAction::Use(interface, mac))
            &&& event matches StartEvent::Mac(None) ==> action is Search && next is Searching
            &&& next is Done <==> event is Cancelled || (event matches StartEvent::Mac(Some(_)))
        }),
{
}

/// Devices are told apart by each of the three things that are known of them: two of them
/// are the same exactly when all three texts are, or are not known for both.
pub proof fn devices_differ_in_what_is_known(a: DeviceId, b: DeviceId)
    ensures
        a@ == b@ <==> text_of(a.serial_number) == text_of(b.serial_number) && text_of(
            a.manufacturer,
        ) == text_of(b.manufacturer) && text_of(a.product) == text_of(b.product),
        text_of(a.product) is Some <==> a.product is Some,
        a.product matches Some(text) ==> text_of(a.product) == Some(text@),
        a.serial_number matches Some(text) ==> text_of(a.serial_number) == Some(text@),
        a.manufacturer matches Some(text) ==> text_of(a.manufacturer) == Some(text@),
{
}

/// What is registered is what the list names.
pub proof fn the_list_is_what_was_seen(seen: SeenDevices, device: DeviceIdView)
    ensures
        seen@.contains(device) <==> exists|i: int|
            0 <= i < seen.list@.len() && (#[trigger] seen.list@[i])@ == device,
{
    let list = ids(seen.list@);
    if exists|i: int| 0 <= i < seen.list@.len() && (#[trigger] seen.list@[i])@ == device {
        let i = choose|i: int| 0 <= i < seen.list@.len() && (#[trigger] seen.list@[i])@ == device;
        assert(list[i] == device);
        assert(list.contains(device));
    }
    if seen@.contains(device) {
        let i = choose|i: int| 0 <= i < list.len() && list[i] == device;
        assert(seen.list@[i]@ == device);
    }
}

/// The times and sizes of the USB link: the first device is looked for twice a second, and
/// later ones every three seconds. Packets and buffers are those of the serial link.
pub proof fn the_usb_link_is_as_wide_as_the_serial_one()
    ensures
        SEARCH_PAUSE_MS * 2 == 1000,
        WATCH_PAUSE_MS == 3 * 1000,
        MTU == crate::serial_transport::MAX_ERGOT_PACKET_SIZE,
        OUT_BUFFER_SIZE == crate::serial_transport::TX_BUFFER_SIZE,
{
}

} // verus!
