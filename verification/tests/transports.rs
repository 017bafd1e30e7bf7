use lamella::address::{Address, InterfaceState};
use lamella::metrics::BridgeMetrics;
use lamella::nusb_transport::{
    coarse_device_filter, note_registration, DeviceId, DeviceStart, RouteWatch, SeenDevices,
    StartAction, StartEvent, UsbInterface,
};
use lamella::serial_transport::{
    find_device_by_id, same_mac, serial_mode, unused_pattern_warning, HotPlug, HotPlugAction,
    HotPlugEvent, MissingPort, SerialMode,
};

const PEER: Address = Address { network_id: 3, node_id: 2, port_id: 0 };
const MAC: [u8; 6] = [1, 2, 3, 4, 5, 6];

fn bridged() -> HotPlug {
    let mut hot_plug = HotPlug::new();
    hot_plug.step(HotPlugEvent::Found);
    hot_plug.step(HotPlugEvent::Done);
    hot_plug.step(HotPlugEvent::Done);
    hot_plug.step(HotPlugEvent::Mac(MAC));
    hot_plug.step(HotPlugEvent::Peer(Some(PEER)));
    hot_plug.step(HotPlugEvent::Done);
    hot_plug
}

fn device(serial: &str) -> DeviceId {
    DeviceId {
        serial_number: Some(serial.to_string()),
        manufacturer: None,
        product: Some("esp32s3-ergot".to_string()),
    }
}

fn interface(class: u8, name: Option<&str>) -> UsbInterface {
    UsbInterface { class, subclass: 0xCA, protocol: 0x7D, name: name.map(String::from) }
}

#[test]
fn a_port_comes_before_a_pattern() {
    assert!(matches!(serial_mode(Some("/dev/a"), None), Ok(SerialMode::Port("/dev/a"))));
    assert!(matches!(serial_mode(None, Some("JTAG")), Ok(SerialMode::HotPlug("JTAG"))));
    assert!(matches!(serial_mode(Some("/dev/a"), Some("JTAG")), Ok(SerialMode::Port("/dev/a"))));
    assert_eq!(serial_mode(None, None).err(), Some(MissingPort));
    assert_eq!(MissingPort.message(), "Either --port or --by-id must be provided");
    assert_eq!(
        unused_pattern_warning(Some("/dev/a"), Some("JTAG")),
        Some("Both --port and --by-id provided, using --port")
    );
    assert_eq!(unused_pattern_warning(Some("/dev/a"), None), None);
}

#[test]
fn the_first_matching_device_is_found() {
    let names = vec![
        "usb-FTDI_x".to_string(),
        "usb-Espressif_USB_JTAG_1".to_string(),
        "usb-Espressif_USB_JTAG_2".to_string(),
    ];
    assert_eq!(find_device_by_id("Espressif_USB_JTAG", &names), Some(1));
    assert_eq!(find_device_by_id("", &names), Some(0));
    assert_eq!(find_device_by_id("missing", &names), None);
    assert_eq!(find_device_by_id("x", &vec![]), None);
}

#[test]
fn mac_addresses_are_compared() {
    assert!(same_mac(&MAC, &[1, 2, 3, 4, 5, 6]));
    assert!(!same_mac(&MAC, &[1, 2, 3, 4, 5, 7]));
}

#[test]
fn the_first_device_gives_the_tap_its_mac() {
    let mut hot_plug = HotPlug::new();
    assert!(matches!(hot_plug.step(HotPlugEvent::NotFound).action, HotPlugAction::Search));
    assert!(matches!(hot_plug.step(HotPlugEvent::Found).action, HotPlugAction::Register));
    assert!(matches!(hot_plug.step(HotPlugEvent::Done).action, HotPlugAction::Wait(2000)));
    assert!(matches!(hot_plug.step(HotPlugEvent::Done).action, HotPlugAction::AskMac));
    assert!(matches!(hot_plug.step(HotPlugEvent::Mac(MAC)).action, HotPlugAction::Resolve));
    let step = hot_plug.step(HotPlugEvent::Peer(Some(PEER)));
    assert!(matches!(step.action, HotPlugAction::CreateTap(MAC)));
    let step = hot_plug.step(HotPlugEvent::Done);
    assert!(matches!(step.action, HotPlugAction::StartBridge(PEER)));
    assert!(!step.reconnected && !step.mac_changed);
}

#[test]
fn a_reconnection_keeps_the_tap() {
    let mut hot_plug = bridged();
    assert!(matches!(
        hot_plug.step(HotPlugEvent::BridgeEnded(false)).action,
        HotPlugAction::Wait(1000)
    ));
    assert!(matches!(hot_plug.step(HotPlugEvent::Done).action, HotPlugAction::Search));
    hot_plug.step(HotPlugEvent::Found);
    hot_plug.step(HotPlugEvent::Done);
    hot_plug.step(HotPlugEvent::Done);
    hot_plug.step(HotPlugEvent::Mac([9, 9, 9, 9, 9, 9]));
    let step = hot_plug.step(HotPlugEvent::Peer(Some(PEER)));
    assert!(matches!(step.action, HotPlugAction::StartBridge(PEER)));
    assert!(step.reconnected && step.mac_changed);
    assert_eq!(hot_plug.expected_mac, Some(MAC));
}

#[test]
fn failures_lead_back_to_the_search() {
    let mut hot_plug = HotPlug::new();
    hot_plug.step(HotPlugEvent::Found);
    assert!(matches!(hot_plug.step(HotPlugEvent::Failed).action, HotPlugAction::Wait(1000)));
    hot_plug.step(HotPlugEvent::Done);
    hot_plug.step(HotPlugEvent::Found);
    hot_plug.step(HotPlugEvent::Done);
    hot_plug.step(HotPlugEvent::Done);
    assert!(matches!(hot_plug.step(HotPlugEvent::Failed).action, HotPlugAction::Wait(1000)));
    hot_plug.step(HotPlugEvent::Done);
    hot_plug.step(HotPlugEvent::Found);
    hot_plug.step(HotPlugEvent::Done);
    hot_plug.step(HotPlugEvent::Done);
    hot_plug.step(HotPlugEvent::Mac(MAC));
    assert!(matches!(hot_plug.step(HotPlugEvent::Peer(None)).action, HotPlugAction::Search));
    assert_eq!(hot_plug.expected_mac, None);
}

#[test]
fn shutdowns_and_tap_failures_end_the_loop() {
    let mut hot_plug = HotPlug::new();
    assert!(matches!(hot_plug.step(HotPlugEvent::Cancelled).action, HotPlugAction::Finish));
    let mut hot_plug = bridged();
    assert!(matches!(hot_plug.step(HotPlugEvent::Cancelled).action, HotPlugAction::Finish));
    let mut hot_plug = bridged();
    assert!(matches!(
        hot_plug.step(HotPlugEvent::BridgeEnded(true)).action,
        HotPlugAction::Finish
    ));
    let mut hot_plug = HotPlug::new();
    hot_plug.step(HotPlugEvent::Found);
    hot_plug.step(HotPlugEvent::Done);
    hot_plug.step(HotPlugEvent::Done);
    hot_plug.step(HotPlugEvent::Mac(MAC));
    hot_plug.step(HotPlugEvent::Peer(Some(PEER)));
    assert!(matches!(hot_plug.step(HotPlugEvent::Failed).action, HotPlugAction::Fail));
}

#[test]
fn usb_devices_are_filtered_by_interface() {
    assert!(coarse_device_filter(&vec![interface(0xFF, Some("ergot"))]));
    assert!(coarse_device_filter(&vec![interface(0x02, None), interface(0xFF, None)]));
    assert!(!coarse_device_filter(&vec![interface(0xFF, Some("other"))]));
    assert!(!coarse_device_filter(&vec![interface(0x02, Some("ergot"))]));
    assert!(!coarse_device_filter(&vec![]));
    let wrong = UsbInterface { class: 0xFF, subclass: 0xCB, protocol: 0x7D, name: None };
    assert!(!coarse_device_filter(&vec![wrong]));
}

#[test]
fn unplugged_devices_are_new_again() {
    let mut seen = SeenDevices::new();
    seen.insert(device("a"));
    seen.insert(device("b"));
    seen.insert(device("a"));
    assert_eq!(seen.list.len(), 2);
    assert!(seen.contains(&device("a")));
    seen.retain_connected(&vec![device("b"), device("c")]);
    assert!(!seen.contains(&device("a")));
    assert!(seen.contains(&device("b")));
    assert!(!seen.contains(&device("c")));
    let mut unnamed = device("b");
    unnamed.serial_number = None;
    assert!(!seen.contains(&unnamed));
}

#[test]
fn only_registered_devices_are_remembered() {
    let mut seen = SeenDevices::new();
    let mut list = vec![];
    note_registration(&mut seen, &mut list, device("a"), Some(4));
    note_registration(&mut seen, &mut list, device("b"), None);
    assert_eq!(list.len(), 1);
    assert_eq!(list[0].0, 4);
    assert!(list[0].1.is(&device("a")));
    assert!(seen.contains(&device("a")));
    assert!(!seen.contains(&device("b")));
}

#[test]
fn the_first_answering_usb_device_is_used() {
    let mut start = DeviceStart::new();
    assert!(matches!(start.step(StartEvent::Searched(None)), StartAction::Wait(500)));
    assert!(matches!(start.step(StartEvent::Elapsed), StartAction::Search));
    assert!(matches!(start.step(StartEvent::Searched(Some(7))), StartAction::Wait(2000)));
    assert!(matches!(start.step(StartEvent::Elapsed), StartAction::AskMac(7)));
    assert!(matches!(start.step(StartEvent::Mac(None)), StartAction::Search));
    start.step(StartEvent::Searched(Some(8)));
    start.step(StartEvent::Elapsed);
    assert!(matches!(start.step(StartEvent::Mac(Some(MAC))), StartAction::Use(8, MAC)));
    let mut cancelled = DeviceStart::new();
    assert!(matches!(cancelled.step(StartEvent::Cancelled), StartAction::Finish));
}

#[test]
fn reconnected_usb_devices_are_routed_to() {
    let mut metrics = BridgeMetrics::default();
    let mut watch = RouteWatch { interface_id: 1, expected_mac: MAC, peer: PEER };
    assert!(!watch.is_new(1));
    assert!(watch.is_new(2));
    let outcome = watch.reconnected(
        &[9; 6],
        Some(InterfaceState::Active { net_id: 40, node_id: 1 }),
        &mut metrics,
    );
    assert!(outcome.mac_changed && outcome.routed);
    assert_eq!(watch.peer, Address { network_id: 40, node_id: 2, port_id: 0 });
    assert_eq!(metrics.reconnects, 1);
    let outcome = watch.reconnected(&MAC, Some(InterfaceState::Down), &mut metrics);
    assert!(!outcome.mac_changed && !outcome.routed);
    assert_eq!(watch.peer.network_id, 40);
    assert_eq!(metrics.reconnects, 1);
}

#[test]
fn the_first_resolved_device_names_the_tap() {
    let mut hot_plug = HotPlug::new();
    let lost = [1, 1, 1, 1, 1, 1];
    for (mac, peer) in [(lost, None), (MAC, Some(PEER))] {
        hot_plug.step(HotPlugEvent::Found);
        hot_plug.step(HotPlugEvent::Done);
        hot_plug.step(HotPlugEvent::Done);
        hot_plug.step(HotPlugEvent::Mac(mac));
        let action = hot_plug.step(HotPlugEvent::Peer(peer)).action;
        match peer {
            None => assert!(matches!(action, HotPlugAction::Search)),
            Some(_) => assert!(matches!(action, HotPlugAction::CreateTap(MAC))),
        }
    }
    assert_eq!(hot_plug.expected_mac, Some(MAC));
}
