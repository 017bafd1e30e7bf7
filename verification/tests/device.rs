use lamella::device::{
    after_send, after_stream_write, after_timed_write, usb_serial_number, DeviceLink, SendDecision,
    SendOutcome, TimedWrite, YieldPacer,
};
use lamella::icd::WifiFrame;
use lamella::radio::{
    best_effort_from_host, best_effort_from_radio, BestEffortAction, RadioAction, RadioBridge,
    RadioEvent, Station, StationAction, StationEvent, StationKind, RECONNECT_DELAY_MS,
};

fn frame(bytes: &[u8]) -> WifiFrame {
    WifiFrame::from_slice(bytes).expect("fits")
}

fn offered(action: RadioAction) -> WifiFrame {
    match action {
        RadioAction::Offer(frame) => frame,
        other => panic!("unexpected {other:?}"),
    }
}

#[test]
fn a_full_queue_is_waited_for() {
    assert_eq!(after_send(DeviceLink::UsbBulk, SendOutcome::Sent), SendDecision::Done);
    assert_eq!(
        after_send(DeviceLink::UsbBulk, SendOutcome::InterfaceFull),
        SendDecision::WaitForSpace(2048)
    );
    assert_eq!(
        after_send(DeviceLink::UsbSerialJtag, SendOutcome::InterfaceFull),
        SendDecision::WaitForSpace(cobs::max_encoding_length(2048))
    );
    assert_eq!(
        after_send(DeviceLink::UsbSerialJtag, SendOutcome::InterfaceFull),
        SendDecision::WaitForSpace(2057)
    );
    assert_eq!(after_send(DeviceLink::UsbSerialJtag, SendOutcome::Failed), SendDecision::Drop);
}

#[test]
fn encodings_are_bounded_as_stated() {
    assert_eq!(cobs::max_encoding_length(0), 1);
    assert_eq!(cobs::max_encoding_length(1), 2);
    assert_eq!(cobs::max_encoding_length(254), 255);
    assert_eq!(cobs::max_encoding_length(255), 257);
}

#[test]
fn pacers_yield_periodically() {
    let mut pacer = YieldPacer::new(5);
    let yields: Vec<bool> = (0..10).map(|_| pacer.round()).collect();
    assert_eq!(
        yields,
        vec![false, false, false, false, true, false, false, false, false, true]
    );
    let mut wrapping = YieldPacer { count: u32::MAX, every: 2 };
    assert!(wrapping.round());
    assert_eq!(wrapping.count, 0);
}

#[test]
fn full_packets_are_padded() {
    let full = after_stream_write(Ok(128), 200);
    assert_eq!((full.release, full.pad), (128, true));
    let short = after_stream_write(Ok(100), 200);
    assert_eq!((short.release, short.pad), (100, false));
    let none = after_stream_write(Ok(0), 200);
    assert_eq!((none.release, none.pad), (0, false));
    let failed = after_stream_write(Err(()), 200);
    assert_eq!((failed.release, failed.pad), (200, false));
}

#[test]
fn timed_out_writes_drop_everything() {
    assert_eq!(after_timed_write(TimedWrite::Written(17), 60), 17);
    assert_eq!(after_timed_write(TimedWrite::Failed, 60), 60);
    assert_eq!(after_timed_write(TimedWrite::TimedOut, 60), 60);
}

#[test]
fn serial_numbers_are_sixteen_digits() {
    assert_eq!(&usb_serial_number(0x12345678_ABCDEF00), b"12345678ABCDEF00");
    assert_eq!(&usb_serial_number(0), b"0000000000000000");
    assert_eq!(&usb_serial_number(u64::MAX), b"FFFFFFFFFFFFFFFF");
}

#[test]
fn an_idle_bridge_forwards_both_ways() {
    let mut bridge = RadioBridge::new();
    let step = bridge.step(RadioEvent::RadioFrame(Some(frame(&[1]))));
    assert_eq!(offered(step.action).as_slice(), &[1]);
    assert!(!step.acknowledge);
    let step = bridge.step(RadioEvent::Queued);
    assert!(matches!(step.action, RadioAction::AwaitAny));

    let step = bridge.step(RadioEvent::HostFrame(frame(&[2])));
    assert!(matches!(step.action, RadioAction::AwaitRadio));
    assert_eq!(bridge.outgoing().expect("to be sent").as_slice(), &[2]);
    let step = bridge.step(RadioEvent::Transmitted);
    assert!(step.acknowledge);
    assert!(matches!(step.action, RadioAction::AwaitAny));
    assert!(bridge.outgoing().is_none());
    assert_eq!(
        (bridge.stats.wifi_rx, bridge.stats.host_rx, bridge.stats.wifi_tx_ok),
        (1, 1, 1)
    );
}

#[test]
fn oversized_radio_frames_are_dropped() {
    let mut bridge = RadioBridge::new();
    let step = bridge.step(RadioEvent::RadioFrame(None));
    assert!(matches!(step.action, RadioAction::AwaitAny));
    assert_eq!(bridge.stats.wifi_rx, 1);
    bridge.step(RadioEvent::HostFrame(frame(&[2])));
    let step = bridge.step(RadioEvent::RadioFrame(None));
    assert!(matches!(step.action, RadioAction::AwaitRadio));
    assert_eq!(bridge.stats.wifi_rx, 1);
}

#[test]
fn a_full_host_queue_does_not_block_sending() {
    let mut bridge = RadioBridge::new();
    bridge.step(RadioEvent::HostFrame(frame(&[2])));
    let step = bridge.step(RadioEvent::RadioFrame(Some(frame(&[1]))));
    let step = bridge.step(RadioEvent::QueueFull(offered(step.action)));
    assert!(matches!(step.action, RadioAction::AwaitToken));
    assert_eq!(bridge.outgoing().expect("to be sent").as_slice(), &[2]);

    let step = bridge.step(RadioEvent::Transmitted);
    assert!(step.acknowledge);
    let step = bridge.step(RadioEvent::QueueFull(offered(step.action)));
    assert!(matches!(step.action, RadioAction::AwaitQueueOrHost));

    let step = bridge.step(RadioEvent::HostFrame(frame(&[3])));
    assert!(matches!(step.action, RadioAction::AwaitToken));
    assert_eq!(bridge.outgoing().expect("to be sent").as_slice(), &[3]);
    let step = bridge.step(RadioEvent::Transmitted);
    assert!(step.acknowledge);
    let step = bridge.step(RadioEvent::QueueFull(offered(step.action)));
    assert!(matches!(step.action, RadioAction::AwaitQueueOrHost));

    let step = bridge.step(RadioEvent::QueueReady);
    assert_eq!(offered(step.action).as_slice(), &[1]);
    let step = bridge.step(RadioEvent::Queued);
    assert!(matches!(step.action, RadioAction::AwaitAny));
    assert_eq!(
        (bridge.stats.wifi_rx, bridge.stats.host_rx, bridge.stats.wifi_tx_ok),
        (1, 2, 2)
    );
}

#[test]
fn a_busy_radio_is_drained() {
    let mut bridge = RadioBridge::new();
    bridge.step(RadioEvent::HostFrame(frame(&[2])));
    for n in 0..3u8 {
        let step = bridge.step(RadioEvent::RadioFrame(Some(frame(&[n]))));
        assert_eq!(offered(step.action).as_slice(), &[n]);
        let step = bridge.step(RadioEvent::Queued);
        assert!(matches!(step.action, RadioAction::AwaitRadio));
    }
    assert_eq!(bridge.stats.wifi_rx, 3);
}

#[test]
fn best_effort_drops_what_does_not_fit() {
    match best_effort_from_radio(&[1, 2]) {
        BestEffortAction::Broadcast(sent) => assert_eq!(sent.as_slice(), &[1, 2]),
        other => panic!("unexpected {other:?}"),
    }
    assert!(matches!(best_effort_from_radio(&vec![0; 1515]), BestEffortAction::Drop));
    assert!(matches!(best_effort_from_host(frame(&[1]), false), BestEffortAction::Drop));
    match best_effort_from_host(frame(&[1]), true) {
        BestEffortAction::Transmit(sent) => assert_eq!(sent.as_slice(), &[1]),
        other => panic!("unexpected {other:?}"),
    }
}

#[test]
fn a_managed_station_publishes_its_connection() {
    assert_eq!(RECONNECT_DELAY_MS, 5000);
    let mut station = Station::new(StationKind::Managed);
    assert_eq!(station.action(), StationAction::Connect);
    station.step(StationEvent::ConnectFailed);
    assert_eq!(station.action(), StationAction::Wait(5000));
    station.step(StationEvent::Done);
    assert_eq!(station.action(), StationAction::Connect);
    station.step(StationEvent::Connected);
    assert!(station.connected);
    assert_eq!(station.action(), StationAction::AwaitDisconnect);
    station.step(StationEvent::Done);
    assert!(!station.connected);
    assert_eq!(station.action(), StationAction::Wait(5000));
    station.step(StationEvent::Done);
    assert_eq!(station.action(), StationAction::Connect);
}

#[test]
fn a_polled_station_starts_its_driver() {
    let mut station = Station::new(StationKind::Polled);
    assert_eq!(station.action(), StationAction::AskConnected);
    station.step(StationEvent::Answer(false));
    assert_eq!(station.action(), StationAction::AskStarted);
    station.step(StationEvent::Answer(false));
    assert_eq!(station.action(), StationAction::ConfigureAndStart);
    station.step(StationEvent::Done);
    assert_eq!(station.action(), StationAction::Connect);
    station.step(StationEvent::Connected);
    assert!(station.connected);
    assert_eq!(station.action(), StationAction::AskConnected);
    station.step(StationEvent::Answer(true));
    assert_eq!(station.action(), StationAction::AwaitDisconnect);
    station.step(StationEvent::Done);
    assert!(!station.connected);
    assert_eq!(station.action(), StationAction::Wait(5000));
    station.step(StationEvent::Done);
    assert_eq!(station.action(), StationAction::AskStarted);
    station.step(StationEvent::Answer(true));
    assert_eq!(station.action(), StationAction::Connect);
    station.step(StationEvent::ConnectFailed);
    assert_eq!(station.action(), StationAction::Wait(5000));
    station.step(StationEvent::Done);
    assert_eq!(station.action(), StationAction::AskConnected);
}
