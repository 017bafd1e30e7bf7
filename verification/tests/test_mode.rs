use lamella::download::{
    http_request, trigger_message, HttpDownload, HttpResponse, SocketStatus, TcpDownload,
    UdpDownload,
};
use lamella::frame_log::{log_frame, queue_backs_up, BridgeStats, Level};
use lamella::targets::{
    nusb_test_plan, parse_bandwidth_target, parse_http_target, serial_test_plan, Target,
    TargetError, TestPlan,
};
use lamella::test_mode::{
    ephemeral_port, parse_echo_reply, ping_packet, ChannelDevice, ChannelTxToken, Pinger,
    RunPhase, TestRun, SECOND_NS,
};
use lamella::text::{format_ipv4, format_mac, log_mac};

const OPEN: SocketStatus = SocketStatus { active: true, may_recv: true, established: true };
const CLOSED: SocketStatus = SocketStatus { active: true, may_recv: false, established: false };

fn ipv4_frame(protocol: u8, len: usize) -> Vec<u8> {
    let mut frame = vec![0u8; len];
    frame[12] = 0x08;
    frame[14] = 0x45;
    frame[23] = protocol;
    frame[26..30].copy_from_slice(&[10, 0, 0, 1]);
    frame[30..34].copy_from_slice(&[192, 168, 1, 255]);
    frame
}

#[test]
fn macs_and_addresses_are_written() {
    assert_eq!(format_mac(&[0, 1, 0x0a, 0xbc, 0xff, 0x10]), "00:01:0a:bc:ff:10");
    assert_eq!(log_mac(&[0xde, 0xad, 0xbe, 0xef, 0, 1]), "ESP32 WiFi MAC: de:ad:be:ef:00:01");
    assert_eq!(format_ipv4([10, 77, 0, 255]), "10.77.0.255");
}

#[test]
fn bandwidth_targets_are_read() {
    assert_eq!(
        parse_bandwidth_target("10.77.77.100:5000"),
        Ok(Target { ip: [10, 77, 77, 100], port: 5000 })
    );
    assert_eq!(
        parse_bandwidth_target("1.2.3.4:65535"),
        Ok(Target { ip: [1, 2, 3, 4], port: 65535 })
    );
    assert_eq!(parse_bandwidth_target("10.0.0.1"), Err(TargetError::BandwidthFormat));
    assert_eq!(parse_bandwidth_target("1:2:3"), Err(TargetError::BandwidthFormat));
    assert_eq!(parse_bandwidth_target("1.2.3:80"), Err(TargetError::IpAddress));
    assert_eq!(parse_bandwidth_target("1.2.3.256:80"), Err(TargetError::IpAddress));
    assert_eq!(parse_bandwidth_target("1.2.3.4:"), Err(TargetError::Port));
    assert_eq!(parse_bandwidth_target("1.2.3.4:65536"), Err(TargetError::Port));
    assert_eq!(parse_bandwidth_target("1.2.3.4:-1"), Err(TargetError::Port));
}

#[test]
fn an_address_has_four_readable_fields() {
    assert_eq!(parse_bandwidth_target("1.x.2.3.4:80"), Err(TargetError::IpAddress));
    assert_eq!(parse_bandwidth_target("1.2..3.4:80"), Err(TargetError::IpAddress));
    assert_eq!(parse_bandwidth_target("1.2.3.4.5:80"), Err(TargetError::IpAddress));
    assert_eq!(parse_bandwidth_target("1.2.3.4.:80"), Err(TargetError::IpAddress));
    assert_eq!(parse_bandwidth_target("+.1.2.3:+"), Err(TargetError::IpAddress));
    assert_eq!(parse_http_target("10.x.77.77.100:8080/f"), Err(TargetError::IpAddress));
    assert_eq!(parse_bandwidth_target("1.2.3.4:+"), Err(TargetError::Port));
    assert_eq!(
        parse_bandwidth_target("01.002.3.+4:+0080"),
        Ok(Target { ip: [1, 2, 3, 4], port: 80 })
    );
}

#[test]
fn http_targets_are_read() {
    let (target, path) = parse_http_target("10.77.77.100:8080/file.bin").expect("valid");
    assert_eq!(target, Target { ip: [10, 77, 77, 100], port: 8080 });
    assert_eq!(path, "/file.bin");
    let (_, path) = parse_http_target("1.2.3.4:80/a/b").expect("valid");
    assert_eq!(path, "/a/b");
    assert_eq!(parse_http_target("1.2.3.4:80"), Err(TargetError::HttpFormat));
    assert_eq!(parse_http_target("1.2.3.4/x"), Err(TargetError::ServerFormat));
    assert_eq!(parse_http_target("1.2.3:80/x"), Err(TargetError::IpAddress));
    assert_eq!(parse_http_target("1.2.3.4:p/x"), Err(TargetError::Port));
}

#[test]
fn target_errors_explain_themselves() {
    assert_eq!(
        TargetError::BandwidthFormat.message(),
        "Invalid bandwidth target format. Use IP:PORT (e.g., 10.77.77.100:5000)"
    );
    assert_eq!(
        TargetError::HttpFormat.message(),
        "Invalid HTTP target format. Use IP:PORT/path (e.g., 10.77.77.100:8080/file.bin)"
    );
    assert_eq!(TargetError::ServerFormat.message(), "Invalid IP:PORT format");
    assert_eq!(TargetError::IpAddress.message(), "Invalid IP address");
    assert_eq!(TargetError::Port.message(), "Invalid port");
}

#[test]
fn written_targets_are_read_back() {
    for ip in [[0, 0, 0, 0], [255, 255, 255, 255], [10, 0, 200, 9]] {
        for port in [0u16, 9, 80, 65535] {
            let text = format!("{}:{}", format_ipv4(ip), port);
            assert_eq!(parse_bandwidth_target(&text), Ok(Target { ip, port }));
        }
    }
}

#[test]
fn options_choose_the_test() {
    let http = Some("10.77.77.100:8080/file.bin");
    let bandwidth = Some("10.77.77.100:5000");
    for plan in [serial_test_plan, nusb_test_plan] {
        for other in [None, bandwidth] {
            match plan(http, other) {
                Ok(TestPlan::Http(target, path)) => {
                    assert_eq!(target, Target { ip: [10, 77, 77, 100], port: 8080 });
                    assert_eq!(path, "/file.bin");
                }
                other => panic!("unexpected {other:?}"),
            }
        }
        match plan(None, bandwidth) {
            Ok(TestPlan::Tcp(target)) => {
                assert_eq!(target, Target { ip: [10, 77, 77, 100], port: 5000 });
            }
            other => panic!("unexpected {other:?}"),
        }
        assert!(matches!(plan(None, None), Ok(TestPlan::Ping)));
        assert!(matches!(plan(None, Some("x")), Err(TargetError::BandwidthFormat)));
        assert!(matches!(plan(Some("1.2.3.4:80"), bandwidth), Err(TargetError::HttpFormat)));
        let odd = Some("10.x.77.77.100:8080/f");
        assert!(matches!(plan(odd, None), Err(TargetError::IpAddress)));
    }
}

#[test]
fn the_channel_device_is_a_queue() {
    let mut device = ChannelDevice::new(1478);
    assert_eq!(device.mtu, 1478);
    assert!(device.receive().is_none());
    assert_eq!(device.queue(vec![1]), 1);
    assert_eq!(device.queue(vec![2, 3]), 2);
    let (token, _) = device.receive().expect("a frame waits");
    assert_eq!(token.consume(|bytes: &[u8]| bytes.to_vec()), vec![1]);
    let (token, _) = device.receive().expect("a frame waits");
    assert_eq!(token.consume(|bytes: &[u8]| bytes.len()), 2);
    assert!(device.receive().is_none());
    assert!(device.transmit().is_some());
    let (before, frame) = ChannelTxToken.consume(3, |bytes: &mut [u8]| {
        let before = bytes.to_vec();
        bytes[1] = 7;
        before
    });
    assert_eq!(before, vec![0, 0, 0]);
    assert_eq!(frame, vec![0, 7, 0]);
}

#[test]
fn pings_are_echo_requests() {
    let ping = ping_packet(0x1234);
    assert_eq!(ping.len(), 25);
    assert_eq!(&ping[..2], &[8, 0]);
    assert_eq!(&ping[4..8], &[0, 1, 0x12, 0x34]);
    assert_eq!(&ping[8..], b"lamella ping test");
    let sum: u32 = ping
        .chunks(2)
        .map(|word| u32::from(word[0]) * 256 + u32::from(*word.get(1).unwrap_or(&0)))
        .sum();
    assert_eq!(sum % 65535, 0);
    assert_ne!(&ping[2..4], &[0xff, 0xff]);
    let checked = smoltcp::wire::Icmpv4Packet::new_checked(ping.as_slice()).expect("well formed");
    assert!(checked.verify_checksum());
    assert_eq!(checked.msg_type(), smoltcp::wire::Icmpv4Message::EchoRequest);
    assert_eq!(checked.echo_seq_no(), 0x1234);
    assert_eq!(checked.echo_ident(), 1);
}

#[test]
fn replies_are_recognised() {
    let mut reply = ping_packet(0xabcd);
    assert_eq!(parse_echo_reply(&reply), None);
    reply[0] = 0;
    assert_eq!(parse_echo_reply(&reply), Some(0xabcd));
    assert_eq!(parse_echo_reply(&reply[..7]), None);
    assert_eq!(parse_echo_reply(&[0, 0, 0, 0, 0, 1, 2, 3]), Some(0x0203));
    assert_eq!(parse_echo_reply(&[]), None);
}

#[test]
fn targets_are_pinged_in_turn() {
    let mut pinger = Pinger::new(0);
    assert_eq!(pinger.due(10 * SECOND_NS), None);
    pinger.configured(Some([10, 0, 0, 1]), &vec![[10, 0, 0, 2]]);
    assert!(pinger.is_active());
    let targets = [[10, 0, 0, 1], [10, 0, 0, 2], [8, 8, 8, 8], [1, 1, 1, 1], [10, 0, 0, 1]];
    let mut now = 0;
    for (seq, target) in targets.iter().enumerate() {
        assert_eq!(pinger.due(now + SECOND_NS - 1), None);
        now += SECOND_NS;
        assert_eq!(pinger.due(now), Some((*target, ping_packet(seq as u16))));
        pinger.sent(now);
        assert_eq!(pinger.due(now + SECOND_NS), None);
        let mut reply = ping_packet(seq as u16);
        reply[0] = 0;
        assert_eq!(pinger.received(&reply, now + 7), Some((seq as u16, 7)));
    }
    pinger.deconfigured();
    assert_eq!(pinger.due(now + SECOND_NS), None);
}

#[test]
fn unanswered_pings_time_out() {
    let mut pinger = Pinger::new(0);
    pinger.configured(None, &vec![]);
    assert_eq!(pinger.targets, vec![[8, 8, 8, 8], [1, 1, 1, 1]]);
    assert_eq!(pinger.timed_out(9 * SECOND_NS), None);
    pinger.sent(SECOND_NS);
    assert_eq!(pinger.received(&[8; 8], SECOND_NS), None);
    assert_eq!(pinger.timed_out(4 * SECOND_NS), None);
    assert_eq!(pinger.timed_out(4 * SECOND_NS + 1), Some(0));
    assert_eq!(pinger.due(5 * SECOND_NS), Some(([1, 1, 1, 1], ping_packet(1))));
    pinger.seq = u16::MAX;
    pinger.sent(5 * SECOND_NS);
    assert_eq!(pinger.timed_out(9 * SECOND_NS), Some(u16::MAX));
    assert_eq!(pinger.seq, 0);
}

#[test]
fn configurations_add_up() {
    let mut pinger = Pinger::new(0);
    pinger.configured(None, &vec![]);
    pinger.configured(Some([9, 9, 9, 9]), &vec![]);
    assert_eq!(
        pinger.targets,
        vec![[8, 8, 8, 8], [1, 1, 1, 1], [9, 9, 9, 9], [8, 8, 8, 8], [1, 1, 1, 1]]
    );
}

#[test]
fn local_ports_are_ephemeral() {
    assert_eq!(ephemeral_port(0), 49152);
    assert_eq!(ephemeral_port(16383), 65535);
    assert_eq!(ephemeral_port(16384), 49152);
    assert_eq!(ephemeral_port(1_700_000_000_123), 49152 + (1_700_000_000_123u64 % 16384) as u16);
}

#[test]
fn tcp_downloads_count_bytes() {
    let mut download = TcpDownload::new(0);
    assert!(!download.connector.should_connect());
    download.connector.configured(true);
    assert!(download.connector.should_connect());
    download.connector.connecting(false);
    assert!(download.connector.should_connect());
    download.connector.connecting(true);
    assert!(!download.connector.should_connect());
    assert!(!download.observe(CLOSED, 5));
    assert!(!download.should_receive(OPEN));
    assert!(download.observe(OPEN, 10));
    assert!(!download.observe(OPEN, 20));
    assert!(download.should_receive(OPEN));
    download.received(1000);
    download.received(500);
    assert_eq!(download.total_bytes, 1500);
    assert_eq!(download.complete(OPEN, 100), None);
    assert_eq!(download.progress(2 * SECOND_NS), None);
    assert_eq!(download.progress(2 * SECOND_NS + 1), Some(2 * SECOND_NS - 9));
    assert_eq!(download.progress(2 * SECOND_NS + 2), None);
    assert_eq!(download.complete(CLOSED, 110), Some(100));
}

#[test]
fn udp_transfers_end_when_nothing_comes() {
    assert_eq!(&trigger_message(), b"START");
    let mut download = UdpDownload::new(0);
    assert!(!download.should_trigger());
    download.configured(true);
    assert!(download.should_trigger());
    download.triggered(100);
    assert!(!download.should_trigger());
    assert_eq!(download.complete(100 * SECOND_NS), None);
    assert!(download.received(1400, SECOND_NS));
    assert!(!download.received(600, 2 * SECOND_NS));
    assert_eq!((download.total_bytes, download.total_packets), (2000, 2));
    assert_eq!(download.complete(7 * SECOND_NS), None);
    assert_eq!(download.complete(7 * SECOND_NS + 1), Some(7 * SECOND_NS - 99));
    assert_eq!(download.progress(3 * SECOND_NS), Some(3 * SECOND_NS - 100));
    assert_eq!(download.progress(4 * SECOND_NS), None);
}

#[test]
fn http_requests_name_path_and_host() {
    assert_eq!(
        http_request("/file.bin", [10, 77, 77, 244]),
        "GET /file.bin HTTP/1.0\r\nHost: 10.77.77.244\r\nConnection: close\r\n\r\n"
    );
}

#[test]
fn http_bodies_are_counted_however_they_are_cut() {
    let response = b"HTTP/1.0 200 OK\r\nA: b\r\n\r\nbody\r\n\r\nrest";
    for size in 1..=response.len() {
        let mut counted = HttpResponse::new();
        let mut headers = vec![];
        for piece in response.chunks(size) {
            if let Some(found) = counted.feed(piece) {
                headers.push(found);
            }
        }
        assert_eq!(headers, vec![b"HTTP/1.0 200 OK\r\nA: b".to_vec()]);
        assert!(counted.headers_done());
        assert_eq!(counted.body_bytes(), 12);
        assert_eq!(counted.total_bytes(), response.len() as u64);
    }
    let mut open = HttpResponse::new();
    assert!(open.feed(b"HTTP/1.0 200 OK\r\nA: b\r\n").is_none());
    assert!(!open.headers_done());
    assert_eq!((open.body_bytes(), open.total_bytes()), (0, 23));
}

#[test]
fn http_downloads_send_one_request() {
    let mut download = HttpDownload::new(0);
    assert!(!download.should_log_state(1));
    download.connector.configured(true);
    download.connector.connecting(true);
    assert!(download.should_log_state(1));
    assert!(!download.should_log_state(2 * SECOND_NS + 1));
    assert!(download.should_log_state(2 * SECOND_NS + 2));
    assert!(!download.should_request(true));
    assert!(download.connector.observe(OPEN));
    assert!(!download.should_request(false));
    assert!(download.should_request(true));
    download.requested(50);
    assert!(!download.should_request(true));
    assert!(download.should_receive(OPEN));
    assert!(!download.should_receive(CLOSED));
    assert_eq!(download.complete(CLOSED, 60), None);
    download.response.feed(b"x\r\n\r\ny");
    assert_eq!(download.complete(OPEN, 60), None);
    assert_eq!(download.complete(CLOSED, 60), Some(10));
    assert_eq!(download.progress(3 * SECOND_NS), Some(3 * SECOND_NS - 50));
    assert_eq!(download.progress(3 * SECOND_NS + 1), None);
}

#[test]
fn every_hundredth_frame_is_logged() {
    let tcp = ipv4_frame(6, 60);
    for count in [1, 99, 101] {
        assert!(log_frame("RX", count, &tcp).is_none());
    }
    assert!(log_frame("RX", 100, &tcp).is_some());
    assert!(log_frame("RX", 0, &tcp).is_some());
    let frame = ipv4_frame(1, 42);
    assert!(log_frame("RX", 99, &frame).is_some());
    let line = log_frame("RX", 100, &frame).expect("logged");
    assert_eq!(line.level, Level::Info);
    assert_eq!(line.text, "WiFi RX: IPv4 ICMP 10.0.0.1 -> 192.168.1.255  (42 bytes)");
    assert!(log_frame("RX", 0, &frame).is_some());
    let other = log_frame("TX", 200, &ipv4_frame(99, 34)).expect("logged");
    assert_eq!(other.text, "WiFi TX: IPv4 other 10.0.0.1 -> 192.168.1.255  (34 bytes)");
    let udp = log_frame("TX", 200, &ipv4_frame(17, 60)).expect("logged");
    assert_eq!(udp.text, "WiFi TX: IPv4 UDP 10.0.0.1 -> 192.168.1.255  (60 bytes)");
}

#[test]
fn tcp_frames_show_ports_and_flags() {
    let mut frame = ipv4_frame(6, 54);
    frame[34..38].copy_from_slice(&[0x1f, 0x90, 0xc0, 0x01]);
    frame[47] = 0x12;
    let line = log_frame("TX", 300, &frame).expect("logged");
    assert_eq!(
        line.text,
        "WiFi TX: IPv4 TCP 10.0.0.1 -> 192.168.1.255 [8080:49153 -> 49153:8080 SYN ACK]  (54 bytes)"
    );
    frame[47] = 0x1d;
    let line = log_frame("TX", 300, &frame).expect("logged");
    assert!(line.text.contains("8080 ACK FIN RST PSH]"));
    frame[47] = 0;
    let line = log_frame("TX", 300, &frame).expect("logged");
    assert!(line.text.contains("49153:8080 ]"));
    frame[14] = 0x4f;
    let line = log_frame("TX", 300, &frame).expect("logged");
    assert_eq!(line.text, "WiFi TX: IPv4 TCP 10.0.0.1 -> 192.168.1.255  (54 bytes)");
}

#[test]
fn frames_that_are_not_tcp_are_always_logged() {
    let mut arp = vec![0u8; 42];
    arp[12] = 0x08;
    arp[13] = 0x06;
    let line = log_frame("RX", 1, &arp).expect("logged");
    assert_eq!((line.level, line.text.as_str()), (Level::Info, "WiFi RX: ARP (42 bytes)"));
    assert!(log_frame("TX", 7, &ipv4_frame(17, 60)).is_some());
    assert!(log_frame("TX", 7, &[]).is_some());
    assert!(log_frame("TX", 7, &ipv4_frame(6, 34)).is_none());
    assert!(log_frame("TX", 7, &ipv4_frame(6, 34)[..33]).is_some());
}

#[test]
fn other_frames_are_logged_by_type() {
    let mut arp = vec![0u8; 42];
    arp[12] = 0x08;
    arp[13] = 0x06;
    let line = log_frame("RX", 100, &arp).expect("logged");
    assert_eq!((line.level, line.text.as_str()), (Level::Info, "WiFi RX: ARP (42 bytes)"));
    let mut v6 = vec![0u8; 14];
    v6[12] = 0x86;
    v6[13] = 0xdd;
    let line = log_frame("RX", 100, &v6).expect("logged");
    assert_eq!(
        (line.level, line.text.as_str()),
        (Level::Debug, "WiFi RX #100: 14 bytes, ethertype=0x86dd")
    );
    let line = log_frame("RX", 100, &[0; 13]).expect("logged");
    assert_eq!(
        (line.level, line.text.as_str()),
        (Level::Debug, "WiFi RX #100: 13 bytes (too short)")
    );
    let short = log_frame("RX", 100, &ipv4_frame(6, 34)[..33]).expect("logged");
    assert_eq!(short.text, "WiFi RX #100: 33 bytes, ethertype=0x0800");
}

#[test]
fn bridge_stats_count_slow_requests() {
    let mut stats = BridgeStats::new();
    assert_eq!(stats.outgoing(&[1, 2]).expect("fits").as_slice(), &[1, 2]);
    assert!(stats.outgoing(&vec![0; 1515]).is_none());
    stats.incoming();
    assert!(!stats.request_took(10));
    assert!(stats.request_took(11));
    assert!(stats.request_took(100));
    assert_eq!(stats.line(), "Bridge stats: RX=1 TX=2 TX_blocked_total=111ms");
    assert!(!queue_backs_up(10));
    assert!(queue_backs_up(11));
}

#[test]
fn a_test_ends_with_the_shutdown_or_when_complete() {
    let mut run = TestRun::new();
    assert!(run.begin_round(false));
    assert!(run.begin_round(false));
    assert!(!run.begin_round(true));
    assert_eq!(run.phase, RunPhase::Cancelled);
    assert!(!run.begin_round(false));
    let mut run = TestRun::new();
    run.complete();
    assert!(!run.begin_round(false));
    assert!(!run.begin_round(true));
    assert_eq!(run.phase, RunPhase::Complete);
}
