use lamella::device::{RxServer, TxServer};
use lamella::icd::{WifiFrame, WifiRxRequest, WifiRxResponse, WifiTransaction};
use lamella::throughput::{
    is_device_frame, kbps, kbps_by_second, parse_port_and_mode, parse_test_args, serve_test_frame, serve_test_poll,
    test_pause, Mode, RateMeter, RateReport, ServerMeter, TestArgsError, TestEvent, TestRequest, ThroughputTest,
    DEVICE_PATTERN, TEST_FRAME_LEN,
};

fn args(list: &[&str]) -> Vec<String> {
    list.iter().map(|s| s.to_string()).collect()
}

fn transaction(id: u32) -> WifiTransaction {
    WifiTransaction { session: 5, id }
}

fn reply(id: u32) -> TestEvent {
    TestEvent::RxReply(WifiRxResponse {
        transaction: transaction(id),
        frame: Some(WifiFrame::filled(TEST_FRAME_LEN, DEVICE_PATTERN)),
    })
}

#[test]
fn rates_are_bits_per_millisecond() {
    assert_eq!(kbps(1000, 8), 1000);
    assert_eq!(kbps(1400, 3), 3733);
    assert_eq!(kbps(1400, 0), 0);
    assert_eq!(kbps_by_second(1400, 3), 3733);
    assert_eq!(kbps_by_second(1400, 0), 0);
    for bytes in [0u64, 1, 999, 123_456_789] {
        for ms in [1u64, 7, 5000, 5001] {
            assert_eq!(kbps(bytes, ms), kbps_by_second(bytes, ms));
        }
    }
}

#[test]
fn meters_report_every_five_seconds() {
    let mut meter = RateMeter::new(0);
    meter.count(1400);
    meter.count(1400);
    assert_eq!(meter.report(5_000_000), None);
    assert_eq!(
        meter.report(5_000_001),
        Some(RateReport { frames: 2, bytes: 2800, elapsed_ms: 5000 })
    );
    assert_eq!((meter.frames, meter.bytes), (0, 0));
    assert_eq!(meter.report(5_000_002), None);
}

#[test]
fn meters_count_beyond_four_billion_frames() {
    let last = u64::from(u32::MAX);
    let mut meter = RateMeter { frames: last, bytes: 0, last_us: 0 };
    meter.count(10);
    assert_eq!(
        meter.report(6_000_000),
        Some(RateReport { frames: last + 1, bytes: 10, elapsed_ms: 6000 })
    );
    let mut server = ServerMeter { frames: u32::MAX, bytes: 0, last_us: 0 };
    server.served(true, true, 10);
    assert_eq!(server.report(5_000_000), None);
    assert_eq!(
        server.report(6_000_000),
        Some(RateReport { frames: 0, bytes: 10, elapsed_ms: 6000 })
    );
    assert_eq!(server, ServerMeter { frames: 0, bytes: 0, last_us: 6_000_000 });
}

#[test]
fn test_servers_count_new_requests_that_were_answered() {
    let frame = WifiFrame::filled(TEST_FRAME_LEN, DEVICE_PATTERN);
    let mut meter = ServerMeter::new(0);
    let mut rx = RxServer::new();
    let request = WifiRxRequest { transaction: transaction(1) };
    for first in [true, false] {
        let (response, new) = serve_test_poll(&mut rx, &request, &frame);
        assert_eq!(response.transaction, transaction(1));
        assert_eq!(response.frame.expect("a frame").as_slice(), frame.as_slice());
        assert_eq!(new, first);
        assert_eq!(meter.frames, u32::from(!first));
        meter.served(new, true, TEST_FRAME_LEN);
    }
    assert_eq!((meter.frames, meter.bytes), (1, 1400));

    let mut tx = TxServer::new();
    for (id, first) in [(1, true), (1, false), (2, true)] {
        let (response, new) = serve_test_frame(&mut tx, transaction(id));
        assert_eq!(response.transaction, transaction(id));
        assert_eq!(new, first);
        meter.served(new, id == 1, 1400);
    }
    assert_eq!((meter.frames, meter.bytes), (2, 2800));
}

#[test]
fn a_timed_test_ends_in_time() {
    assert_eq!(test_pause(None, 0), (5000, false));
    assert_eq!(test_pause(None, u64::MAX), (5000, false));
    assert_eq!(test_pause(Some(180), 0), (5000, false));
    assert_eq!(test_pause(Some(180), 175_000), (5000, false));
    assert_eq!(test_pause(Some(180), 178_500), (1500, false));
    assert_eq!(test_pause(Some(180), 179_999), (1, false));
    assert_eq!(test_pause(Some(180), 180_000), (0, true));
    assert_eq!(test_pause(Some(0), 7), (0, true));
}

#[test]
fn modes_have_names() {
    for mode in [Mode::RxOnly, Mode::TxOnly, Mode::Bidir] {
        assert_eq!(Mode::parse(mode.as_str()), Some(mode));
    }
    assert_eq!(Mode::parse("rx"), Some(Mode::RxOnly));
    assert_eq!(Mode::parse("both"), None);
    assert!(Mode::Bidir.has_tx() && Mode::Bidir.has_rx());
    assert!(!Mode::RxOnly.has_tx() && !Mode::TxOnly.has_rx());
}

#[test]
fn test_arguments_are_read_in_order() {
    let config = parse_test_args(&args(&["prog", "/dev/ttyACM0"])).expect("valid");
    assert_eq!(config.port, "/dev/ttyACM0");
    assert_eq!(config.mode, Mode::Bidir);
    assert_eq!((config.duration_secs, config.deadline_ms), (None, 250));
    let config =
        parse_test_args(&args(&["prog", "/dev/ttyACM0", "bidir", "180", "2000"])).expect("valid");
    assert_eq!((config.duration_secs, config.deadline_ms), (Some(180), 2000));
    let (port, mode) =
        parse_port_and_mode(&args(&["prog", "/dev/ttyACM0", "rx", "long"])).expect("valid");
    assert_eq!((port.as_str(), mode), ("/dev/ttyACM0", Mode::RxOnly));
    let (_, mode) = parse_port_and_mode(&args(&["prog", "p"])).expect("valid");
    assert_eq!(mode, Mode::Bidir);
    assert_eq!(parse_port_and_mode(&args(&["prog"])).err(), Some(TestArgsError::Usage));
    assert_eq!(parse_port_and_mode(&args(&["prog", "p", "all"])).err(), Some(TestArgsError::Mode));
    assert_eq!(parse_test_args(&args(&["prog"])).err(), Some(TestArgsError::Usage));
    assert_eq!(parse_test_args(&args(&["prog", "p", "all"])).err(), Some(TestArgsError::Mode));
    assert_eq!(
        parse_test_args(&args(&["prog", "p", "rx", "long"])).err(),
        Some(TestArgsError::Number)
    );
    assert_eq!(
        parse_test_args(&args(&["prog", "p", "rx", "1", ""])).err(),
        Some(TestArgsError::Number)
    );
}

#[test]
fn device_frames_are_checked() {
    assert!(is_device_frame(&WifiFrame::filled(1400, 0xAB)));
    assert!(!is_device_frame(&WifiFrame::filled(1399, 0xAB)));
    assert!(!is_device_frame(&WifiFrame::filled(1400, 0xCD)));
    let mut bytes = vec![0xABu8; 1400];
    bytes[1399] = 0;
    assert!(!is_device_frame(&WifiFrame::from_slice(&bytes).expect("fits")));
}

#[test]
fn both_directions_take_turns() {
    let mut test = ThroughputTest::new(Mode::Bidir, 5);
    assert_eq!(test.request, TestRequest::Tx(transaction(0)));
    let mut pauses = vec![];
    for round in 0..5u32 {
        assert!(!test.step(TestEvent::TxReply(transaction(2 * round)), 10));
        assert_eq!(test.request, TestRequest::Rx(transaction(2 * round + 1)));
        pauses.push(test.step(reply(2 * round + 1), 10));
    }
    assert_eq!(pauses, vec![false, false, false, false, true]);
    assert!(test.stats.passed());
    assert_eq!(
        test.stats.final_line(),
        "FINAL RX: 5 frames, 7000 bytes; TX: 5 frames, 7000 bytes"
    );
    assert_eq!(
        test.stats.result_line(),
        "RESULT PASS: zero retries, timeouts, response mismatches, or payload errors"
    );
}

#[test]
fn single_directions_repeat() {
    let mut sending = ThroughputTest::new(Mode::TxOnly, 5);
    for id in 0..4 {
        assert!(!sending.step(TestEvent::TxReply(transaction(id)), 10));
        assert_eq!(sending.request, TestRequest::Tx(transaction(id + 1)));
    }
    assert!(sending.step(TestEvent::TxReply(transaction(4)), 10));
    let mut asking = ThroughputTest::new(Mode::RxOnly, 5);
    for id in 0..6 {
        assert_eq!(asking.request, TestRequest::Rx(transaction(id)));
        assert!(!asking.step(reply(id), 10));
    }
    assert_eq!((asking.stats.rx_frames, asking.stats.rx_bytes), (6, 8400));
}

#[test]
fn retries_show_in_the_result() {
    let mut test = ThroughputTest::new(Mode::Bidir, 5);
    test.step(TestEvent::TimedOut, 10);
    test.step(TestEvent::Failed, 10);
    test.step(TestEvent::TxReply(transaction(9)), 10);
    assert_eq!(test.request, TestRequest::Tx(transaction(0)));
    let stats = test.stats;
    assert_eq!(
        (stats.retries, stats.timeouts, stats.tx_endpoint_errors, stats.tx_mismatches),
        (3, 1, 1, 1)
    );
    assert!(!stats.passed());
    assert_eq!(
        stats.result_line(),
        "RESULT FAIL: retries, timeouts, response mismatches, or payload errors"
    );
    test.step(TestEvent::TxReply(transaction(0)), 10);
    let wrong = WifiRxResponse {
        transaction: transaction(1),
        frame: Some(WifiFrame::filled(1400, 0xAA)),
    };
    test.step(TestEvent::RxReply(wrong), 10);
    assert_eq!(test.stats.payload_errors, 1);
    test.step(TestEvent::TxReply(transaction(2)), 10);
    let empty = WifiRxResponse { transaction: transaction(3), frame: None };
    test.step(TestEvent::RxReply(empty), 10);
    assert_eq!((test.stats.rx_frames, test.stats.payload_errors), (1, 1));
}

#[test]
fn details_are_counted_by_direction() {
    let mut test = ThroughputTest::new(Mode::Bidir, 5);
    test.step(TestEvent::Failed, 1);
    test.step(TestEvent::TxReply(transaction(0)), 4271);
    test.step(TestEvent::Failed, 1);
    test.step(TestEvent::Failed, 1);
    test.step(reply(9), 999_999);
    test.step(reply(1), 3506);
    test.step(TestEvent::TxReply(transaction(2)), 249_999);
    test.step(reply(3), 250_000);
    test.step(TestEvent::TxReply(transaction(4)), 5);
    let stats = test.stats;
    assert_eq!((stats.tx_endpoint_errors, stats.rx_endpoint_errors), (1, 2));
    assert_eq!((stats.tx_mismatches, stats.rx_mismatches), (0, 1));
    assert_eq!(stats.slow_responses, 1);
    assert_eq!((stats.max_rx_latency_us, stats.max_tx_latency_us), (250_000, 249_999));
    assert_eq!(
        stats.detail_lines(),
        "RX endpoint errors: 2\nTX endpoint errors: 1\nRX transaction mismatches: 1\nTX transaction mismatches: 0\nRX payload-integrity errors: 0\nresponses taking at least 250 ms: 1\nmaximum RX response latency: 250.000 ms\nmaximum TX response latency: 249.999 ms\n"
    );
    let mut test = ThroughputTest::new(Mode::RxOnly, 5);
    test.step(reply(0), 3506);
    assert!(test.stats.detail_lines().contains("maximum RX response latency: 3.506 ms\n"));
    test.step(reply(1), 3007);
    assert_eq!(test.stats.max_rx_latency_us, 3506);
}
