use lamella::network_session::{
    exit_result, NetworkExit, NetworkSession, SessionAction, SessionEvent,
};
use lamella::system_network::{
    command_outcome, endpoint_host, endpoint_route, parse_endpoints, parse_interfaces, probe_tap,
    profile_name, route_uses_tap, set_tap_address, show_status, tap_address_outcome, CommandLine,
};

fn line(command: &CommandLine) -> String {
    format!("{} {}", command.program, command.args.join(" "))
}

fn ran(session: &NetworkSession) -> String {
    match session.action() {
        SessionAction::Run(command) => line(&command),
        SessionAction::RunOrCancel(command) => format!("interruptible {}", line(&command)),
        other => format!("{other:?}"),
    }
}

fn ok(text: &str) -> SessionEvent {
    SessionEvent::Output(Ok(text.to_string()))
}

fn failed(text: &str) -> SessionEvent {
    SessionEvent::Output(Err(text.to_string()))
}

fn activated() -> NetworkSession {
    let mut session = NetworkSession::new("p".to_string(), 5);
    session.step(SessionEvent::TapUp(false));
    session.step(ok(""));
    session.step(ok(""));
    session.step(ok(""));
    session
}

#[test]
fn extracts_endpoint_hosts() {
    assert_eq!(endpoint_host("192.0.2.1:51820"), "192.0.2.1");
    assert_eq!(endpoint_host("[2001:db8::1]:51820"), "2001:db8::1");
}

#[test]
fn hosts_without_ports_and_open_brackets() {
    assert_eq!(endpoint_host("example"), "example");
    assert_eq!(endpoint_host(""), "");
    assert_eq!(endpoint_host("[::1"), "[:");
    assert_eq!(endpoint_host("a:b:c"), "a:b");
    assert_eq!(endpoint_host("[]x"), "");
}

#[test]
fn profiles_are_named_by_process_and_time() {
    assert_eq!(profile_name(4242, 1700000000), "lamella-esp32tap-4242-1700000000");
    assert_eq!(profile_name(0, 0), "lamella-esp32tap-0-0");
}

#[test]
fn command_results_are_trimmed() {
    let command = show_status();
    assert_eq!(command_outcome(&command, true, "  a b\n", "x"), Ok("a b".to_string()));
    assert_eq!(
        command_outcome(&command, false, "out", " Error: off \n"),
        Err("nmcli general status failed: Error: off".to_string())
    );
    assert_eq!(command_outcome(&command, true, "\u{2003}\t\u{3000}", ""), Ok(String::new()));
}

#[test]
fn a_session_runs_its_commands_in_order() {
    assert_eq!(line(&probe_tap()), "ip link show dev esp32tap");
    let mut session = NetworkSession::new("p".to_string(), 5);
    assert!(matches!(session.action(), SessionAction::Probe));
    session.step(SessionEvent::TapMissing);
    assert!(matches!(session.action(), SessionAction::Probe));
    session.step(SessionEvent::TapUp(false));
    assert_eq!(ran(&session), "nmcli general status");
    session.step(ok("connected"));
    assert_eq!(
        ran(&session),
        "nmcli connection add type tun ifname esp32tap con-name p mode tap connection.autoconnect no ipv4.method auto ipv4.route-metric 5 ipv4.never-default no ipv6.method disabled"
    );
    session.step(ok(""));
    assert_eq!(
        ran(&session),
        "nmcli connection modify id p ethernet.cloned-mac-address preserve"
    );
    session.step(ok(""));
    assert_eq!(
        ran(&session),
        "interruptible nmcli --wait 45 connection up id p ifname esp32tap"
    );
    session.step(ok(""));
    assert_eq!(
        ran(&session),
        "nmcli --fields GENERAL.STATE,GENERAL.HWADDR,IP4.ADDRESS,IP4.GATEWAY,IP4.DNS device show esp32tap"
    );
    session.step(ok("details"));
    assert_eq!(ran(&session), "ip -4 route get 1.1.1.1");
    session.step(ok("1.1.1.1 via 10.0.0.1 dev esp32tap src 10.0.0.2"));
    assert!(matches!(session.action(), SessionAction::AwaitCancel));
    session.step(SessionEvent::Cancelled);
    assert_eq!(ran(&session), "nmcli connection delete id p");
    session.step(failed("gone"));
    assert!(matches!(session.action(), SessionAction::Finish(Ok(()))));
}

#[test]
fn a_failed_activation_removes_the_profile() {
    let mut session = activated();
    session.step(failed("no address"));
    assert_eq!(ran(&session), "nmcli connection delete id p");
    session.step(ok(""));
    match session.action() {
        SessionAction::Finish(Err(message)) => assert_eq!(message, "no address"),
        other => panic!("unexpected {other:?}"),
    }
}

#[test]
fn a_shutdown_during_activation_removes_the_profile() {
    let mut session = activated();
    session.step(SessionEvent::Cancelled);
    assert_eq!(ran(&session), "nmcli connection delete id p");
    session.step(ok(""));
    assert!(matches!(session.action(), SessionAction::Finish(Ok(()))));
}

#[test]
fn failures_before_the_profile_end_the_session() {
    let mut session = NetworkSession::new("p".to_string(), 5);
    session.step(SessionEvent::ProbeFailed("not found".to_string()));
    match session.action() {
        SessionAction::Finish(Err(message)) => assert_eq!(message, "Failed to run ip: not found"),
        other => panic!("unexpected {other:?}"),
    }

    let mut session = NetworkSession::new("p".to_string(), 5);
    session.step(SessionEvent::TapUp(false));
    session.step(failed("Failed to run nmcli: no such file"));
    match session.action() {
        SessionAction::Finish(Err(message)) => assert_eq!(
            message,
            "NetworkManager is required: Failed to run nmcli: no such file"
        ),
        other => panic!("unexpected {other:?}"),
    }

    let mut session = NetworkSession::new("p".to_string(), 5);
    session.step(SessionEvent::TapUp(false));
    session.step(ok(""));
    session.step(failed("cannot add"));
    match session.action() {
        SessionAction::Finish(Err(message)) => assert_eq!(message, "cannot add"),
        other => panic!("unexpected {other:?}"),
    }

    let mut session = NetworkSession::new("p".to_string(), 5);
    session.step(SessionEvent::TapUp(true));
    assert!(matches!(session.action(), SessionAction::Finish(Ok(()))));

    let mut session = NetworkSession::new("p".to_string(), 5);
    session.step(SessionEvent::Cancelled);
    assert!(matches!(session.action(), SessionAction::Finish(Ok(()))));
}

#[test]
fn wireguard_endpoints_are_reported_one_by_one() {
    let mut session = activated();
    session.step(ok(""));
    session.step(ok("details"));
    session.step(ok("1.1.1.1 dev wg0"));
    assert_eq!(ran(&session), "wg show interfaces");
    session.step(ok("wg0 wg1 wg2"));
    assert_eq!(ran(&session), "wg show wg0 endpoints");
    session.step(failed("busy"));
    assert_eq!(ran(&session), "wg show wg1 endpoints");
    session.step(ok("keyA\t192.0.2.1:51820\nkeyB\nkeyC\t[2001:db8::1]:51820"));
    assert_eq!(ran(&session), "wg show wg1 fwmark");
    session.step(ok("0xca6c"));
    assert_eq!(ran(&session), "ip -4 route get 192.0.2.1 mark 0xca6c");
    session.step(ok("via x"));
    assert_eq!(ran(&session), "ip -6 route get 2001:db8::1 mark 0xca6c");
    session.step(failed("unreachable"));
    assert_eq!(ran(&session), "wg show wg2 endpoints");
    session.step(ok("key 192.0.2.7:1"));
    assert_eq!(ran(&session), "wg show wg2 fwmark");
    session.step(failed("unknown"));
    assert_eq!(ran(&session), "ip -4 route get 192.0.2.7");
    session.step(ok(""));
    assert!(matches!(session.action(), SessionAction::AwaitCancel));
}

#[test]
fn a_report_without_interfaces_ends_at_once() {
    let mut session = activated();
    session.step(ok(""));
    session.step(ok(""));
    session.step(failed("no route"));
    assert!(matches!(session.action(), SessionAction::AwaitCancel));

    let mut session = activated();
    session.step(ok(""));
    session.step(ok(""));
    session.step(ok("dev eth0"));
    session.step(ok("  "));
    assert!(matches!(session.action(), SessionAction::AwaitCancel));

    let mut session = activated();
    session.step(ok(""));
    session.step(failed("no details"));
    assert_eq!(ran(&session), "nmcli connection delete id p");
}

#[test]
fn listings_are_read() {
    assert_eq!(parse_interfaces(" wg0\twg1\n"), vec!["wg0", "wg1"]);
    assert_eq!(parse_endpoints("a b c\r\nd\n e  f "), vec!["b", "f"]);
    assert!(parse_endpoints("").is_empty());
    assert!(route_uses_tap("1.1.1.1 dev esp32tap"));
    assert!(!route_uses_tap("1.1.1.1 dev esp32"));
    assert_eq!(line(&endpoint_route("h:1", "off")), "ip -4 route get h");
}

#[test]
fn the_transport_failure_comes_first() {
    let decision = exit_result(Ok(()), NetworkExit::Finished(Err("net")));
    assert_eq!(decision.result, Err("net"));
    assert_eq!(decision.logged, None);
    let decision = exit_result(Err("usb"), NetworkExit::Finished(Err("net")));
    assert_eq!(decision.result, Err("usb"));
    assert_eq!(decision.logged, Some("net"));
    let decision = exit_result(Err("usb"), NetworkExit::Finished(Ok(())));
    assert_eq!(decision.result, Err("usb"));
    let decision: lamella::network_session::ExitDecision<&str> =
        exit_result(Ok(()), NetworkExit::Crashed);
    assert_eq!(decision.result, Ok(()));
    let decision = exit_result(Err("usb"), NetworkExit::NotRun);
    assert_eq!(decision.result, Err("usb"));
}

#[test]
fn the_tap_interface_gets_the_address_of_the_device() {
    let command = set_tap_address(&[0xde, 0xad, 0xbe, 0xef, 0, 1]);
    assert_eq!(command.program, "ip");
    assert_eq!(command.args, vec!["link", "set", "esp32tap", "address", "de:ad:be:ef:00:01"]);
    assert_eq!(tap_address_outcome(Ok(true)), Ok(()));
    assert_eq!(
        tap_address_outcome(Ok(false)),
        Err("Failed to set TAP MAC address".to_string())
    );
    assert_eq!(
        tap_address_outcome(Err("gone".to_string())),
        Err("Failed to run ip command: gone".to_string())
    );
}
