use lamella::address::{
    is_active, nusb_peer_address, peer_address, response_header, serial_peer_address, Address,
    InterfaceState, NoActiveInterface, RequestHeader, ESP32_NODE_ID,
};
use lamella::device::{RxServer, TxServer, TxServerAction};
use lamella::exchange::{
    session_id, Direction, Exchange, ExchangeAction, ExchangeEvent, ExchangeNote, RetryCause,
    TransactionIds,
};
use lamella::icd::{
    WifiFrame, WifiRxRequest, WifiRxResponse, WifiTransaction, WifiTxRequest, WifiTxResponse,
    MAX_FRAME_SIZE,
};

fn frame(bytes: &[u8]) -> WifiFrame {
    WifiFrame::from_slice(bytes).expect("fits")
}

#[test]
fn frames_hold_up_to_the_maximum() {
    assert_eq!(MAX_FRAME_SIZE, 1514);
    let bytes = vec![7u8; 1514];
    assert_eq!(frame(&bytes).as_slice(), bytes.as_slice());
    assert!(WifiFrame::from_slice(&vec![7u8; 1515]).is_none());
    assert_eq!(frame(&[]).as_slice(), &[] as &[u8]);
    assert_eq!(frame(&[1, 2, 3]).clone().as_slice(), &[1, 2, 3]);
}

#[test]
fn filled_frames_repeat_a_byte() {
    assert_eq!(WifiFrame::filled(3, 0xCD).as_slice(), &[0xCD, 0xCD, 0xCD]);
    assert_eq!(WifiFrame::filled(1400, 0xAB).as_slice().len(), 1400);
    assert_eq!(WifiFrame::filled(1515, 0xAB).as_slice().len(), 0);
}

#[test]
fn transaction_numbers_wrap() {
    let mut ids = TransactionIds { session: 7, next_id: u32::MAX };
    assert_eq!(ids.issue(), WifiTransaction { session: 7, id: u32::MAX });
    assert_eq!(ids.issue(), WifiTransaction { session: 7, id: 0 });
    let mut fresh = TransactionIds::new(9);
    assert_eq!(fresh.issue(), WifiTransaction { session: 9, id: 0 });
    assert_eq!(fresh.issue(), WifiTransaction { session: 9, id: 1 });
}

#[test]
fn sessions_mix_time_and_process() {
    assert_eq!(session_id(0, 1), 1 << 32);
    assert_eq!(session_id(5, 0), 5);
    assert_eq!(session_id((1u128 << 64) + 3, 2), (2u64 << 32) ^ 3);
    let nanos: u64 = 0x1234_5678_9abc_def0;
    assert_eq!(
        session_id(nanos as u128, 4242),
        nanos ^ u64::from(4242u32).rotate_left(32)
    );
    assert_ne!(session_id(10, 1), session_id(10, 2));
    assert_ne!(session_id(10, 1), session_id(11, 1));
}

#[test]
fn an_idle_exchange_polls_the_device() {
    let mut exchange = Exchange::new(7);
    let step = exchange.step(ExchangeEvent::Queue(None));
    assert!(matches!(step.action, ExchangeAction::SendRx));
    assert_eq!(step.note, ExchangeNote::Nothing);
    let request = exchange.rx_request().expect("a poll is in flight");
    assert_eq!(request.transaction, WifiTransaction { session: 7, id: 0 });
    assert!(exchange.tx_request().is_none());

    let reply = WifiRxResponse { transaction: request.transaction, frame: None };
    let step = exchange.step(ExchangeEvent::RxReply(reply));
    assert!(matches!(step.action, ExchangeAction::PollQueue));
}

#[test]
fn a_frame_is_sent_until_it_is_acknowledged() {
    let mut exchange = Exchange::new(7);
    let step = exchange.step(ExchangeEvent::Queue(Some(frame(&[1, 2, 3]))));
    assert!(matches!(step.action, ExchangeAction::SendTx));
    let transaction = exchange.tx_request().expect("in flight").transaction;
    assert_eq!(transaction, WifiTransaction { session: 7, id: 0 });

    let step = exchange.step(ExchangeEvent::TimedOut);
    assert!(matches!(step.action, ExchangeAction::SendTx));
    assert_eq!(step.note, ExchangeNote::Retry(Direction::Tx, RetryCause::Timeout));

    let step = exchange.step(ExchangeEvent::Failed);
    assert!(matches!(step.action, ExchangeAction::SendTx));
    assert_eq!(step.note, ExchangeNote::Retry(Direction::Tx, RetryCause::Endpoint));

    let stale = WifiTxResponse { transaction: WifiTransaction { session: 7, id: 9 } };
    let step = exchange.step(ExchangeEvent::TxReply(stale));
    assert!(matches!(step.action, ExchangeAction::SendTx));
    assert_eq!(step.note, ExchangeNote::Retry(Direction::Tx, RetryCause::Mismatch));

    let pending = exchange.tx_request().expect("still in flight");
    assert_eq!(pending.transaction, transaction);
    assert_eq!(pending.frame.as_slice(), &[1, 2, 3]);

    let step = exchange.step(ExchangeEvent::TxReply(WifiTxResponse { transaction }));
    assert!(matches!(step.action, ExchangeAction::SendRx));
    assert_eq!(step.note, ExchangeNote::Nothing);
    assert_eq!(
        exchange.rx_request().expect("a poll follows").transaction,
        WifiTransaction { session: 7, id: 1 }
    );
}

#[test]
fn only_the_matching_poll_response_is_delivered() {
    let mut exchange = Exchange::new(7);
    exchange.step(ExchangeEvent::Queue(None));
    let transaction = exchange.rx_request().expect("in flight").transaction;

    let stale = WifiRxResponse {
        transaction: WifiTransaction { session: 6, id: 0 },
        frame: Some(frame(&[9])),
    };
    let step = exchange.step(ExchangeEvent::RxReply(stale));
    assert!(matches!(step.action, ExchangeAction::SendRx));
    assert_eq!(step.note, ExchangeNote::Retry(Direction::Rx, RetryCause::Mismatch));

    let step = exchange.step(ExchangeEvent::TimedOut);
    assert_eq!(step.note, ExchangeNote::Retry(Direction::Rx, RetryCause::Timeout));

    let reply = WifiRxResponse { transaction, frame: Some(frame(&[4, 5])) };
    match exchange.step(ExchangeEvent::RxReply(reply)).action {
        ExchangeAction::Deliver(delivered) => assert_eq!(delivered.as_slice(), &[4, 5]),
        other => panic!("unexpected {other:?}"),
    }
    let step = exchange.step(ExchangeEvent::TapWritten(2));
    assert!(matches!(step.action, ExchangeAction::PollQueue));
    assert_eq!(step.note, ExchangeNote::Delivered(2));
}

#[test]
fn a_failed_tap_write_is_counted_and_passed_over() {
    let mut exchange = Exchange::new(1);
    exchange.step(ExchangeEvent::Queue(None));
    let transaction = exchange.rx_request().expect("in flight").transaction;
    exchange.step(ExchangeEvent::RxReply(WifiRxResponse {
        transaction,
        frame: Some(frame(&[1])),
    }));
    let step = exchange.step(ExchangeEvent::TapFailed);
    assert!(matches!(step.action, ExchangeAction::PollQueue));
    assert_eq!(step.note, ExchangeNote::TapError);
}

#[test]
fn a_shutdown_stops_the_exchange() {
    let mut exchange = Exchange::new(1);
    exchange.step(ExchangeEvent::Queue(None));
    let step = exchange.step(ExchangeEvent::Cancelled);
    assert!(matches!(step.action, ExchangeAction::Stop));
    assert!(exchange.rx_request().is_none());
}

#[test]
fn a_repeated_frame_is_acknowledged_and_not_sent_again() {
    let mut server = TxServer::new();
    let transaction = WifiTransaction { session: 3, id: 4 };
    let request = WifiTxRequest { transaction, frame: frame(&[1, 2]) };
    match server.on_request(request.clone()) {
        TxServerAction::Forward(forwarded) => assert_eq!(forwarded.as_slice(), &[1, 2]),
        other => panic!("unexpected {other:?}"),
    }
    assert_eq!(server.on_transmitted().transaction, transaction);
    match server.on_request(request) {
        TxServerAction::Respond(response) => assert_eq!(response.transaction, transaction),
        other => panic!("unexpected {other:?}"),
    }
    let next = WifiTxRequest {
        transaction: WifiTransaction { session: 3, id: 5 },
        frame: frame(&[3]),
    };
    assert!(matches!(server.on_request(next), TxServerAction::Forward(_)));
}

#[test]
fn a_repeated_poll_gets_the_same_frame() {
    let mut server = RxServer::new();
    let request = WifiRxRequest { transaction: WifiTransaction { session: 3, id: 4 } };
    assert!(server.repeated(&request).is_none());
    let response = server.respond(&request, Some(frame(&[8, 9])));
    assert_eq!(response.transaction, request.transaction);
    let again = server.repeated(&request).expect("cached");
    assert_eq!(again.transaction, request.transaction);
    assert_eq!(again.frame.expect("a frame").as_slice(), &[8, 9]);
    let other = WifiRxRequest { transaction: WifiTransaction { session: 3, id: 5 } };
    assert!(server.repeated(&other).is_none());
    let empty = server.respond(&other, None);
    assert!(empty.frame.is_none());
    assert!(server.repeated(&other).expect("cached").frame.is_none());
    assert!(server.repeated(&request).is_none());
}

#[test]
fn a_lossy_link_loses_and_repeats_nothing() {
    let mut host = Exchange::new(11);
    let mut tx = TxServer::new();
    let mut rx = RxServer::new();
    let mut transmitted: Vec<Vec<u8>> = vec![];
    let mut waiting: Vec<Vec<u8>> = vec![vec![100], vec![101], vec![102]];
    let mut delivered: Vec<Vec<u8>> = vec![];
    let mut to_send: Vec<Vec<u8>> = vec![vec![1], vec![2], vec![3], vec![4]];
    let mut round = 0u32;

    for _ in 0..200 {
        if host.tx_request().is_none() && host.rx_request().is_none() {
            let next = if to_send.is_empty() { None } else { Some(to_send.remove(0)) };
            host.step(ExchangeEvent::Queue(next.map(|bytes| frame(&bytes))));
        }
        round += 1;
        let lost = round % 3 == 0;
        if let Some(request) = host.tx_request().cloned() {
            let response = match tx.on_request(request) {
                TxServerAction::Forward(sent) => {
                    transmitted.push(sent.as_slice().to_vec());
                    tx.on_transmitted()
                }
                TxServerAction::Respond(response) => response,
            };
            let event = if lost { ExchangeEvent::TimedOut } else { ExchangeEvent::TxReply(response) };
            host.step(event);
        } else if let Some(request) = host.rx_request() {
            let response = match rx.repeated(&request) {
                Some(response) => response,
                None => {
                    let found = if waiting.is_empty() { None } else { Some(waiting.remove(0)) };
                    rx.respond(&request, found.map(|bytes| frame(&bytes)))
                }
            };
            let event = if lost { ExchangeEvent::TimedOut } else { ExchangeEvent::RxReply(response) };
            if let ExchangeAction::Deliver(received) = host.step(event).action {
                delivered.push(received.as_slice().to_vec());
                host.step(ExchangeEvent::TapWritten(received.as_slice().len()));
            }
        }
    }
    assert_eq!(transmitted, vec![vec![1], vec![2], vec![3], vec![4]]);
    assert_eq!(delivered, vec![vec![100], vec![101], vec![102]]);
}

#[test]
fn only_an_active_interface_has_a_peer() {
    let active = Some(InterfaceState::Active { net_id: 12, node_id: 1 });
    let expected = Address { network_id: 12, node_id: ESP32_NODE_ID, port_id: 0 };
    assert_eq!(ESP32_NODE_ID, 2);
    assert_eq!(peer_address(active), Ok(expected));
    assert_eq!(serial_peer_address(active), Ok(expected));
    assert_eq!(nusb_peer_address(active), Ok(expected));
    assert!(is_active(active));
    for state in [
        None,
        Some(InterfaceState::Down),
        Some(InterfaceState::Inactive),
        Some(InterfaceState::ActiveLocal { node_id: 1 }),
    ] {
        assert_eq!(serial_peer_address(state), Err(NoActiveInterface));
        assert!(!is_active(state));
    }
}

#[test]
fn responses_go_back_to_the_sender() {
    let request = RequestHeader {
        src: Address { network_id: 1, node_id: 1, port_id: 33 },
        dst: Address { network_id: 1, node_id: 2, port_id: 0 },
        seq_no: 77,
    };
    let response = response_header(&request, 5);
    assert_eq!(response.dst, request.src);
    assert_eq!(response.src, Address { network_id: 1, node_id: 2, port_id: 5 });
    assert_eq!(response.seq_no, Some(77));
}
