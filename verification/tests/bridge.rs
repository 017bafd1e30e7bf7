use lamella::bridge::{
    take_tap_read, EndpointWait, EndpointWaitResult, MacQuery, MacQueryAction, MacQueryEvent,
    TapAction, TapEvent, TapPhase, TapRead, TapReader, WaitAction, WaitEvent, ENDPOINT_STALL_LOG_INTERVAL_MS, ENDPOINT_STALL_THRESHOLD_MS,
    MAC_QUERY_RETRIES, MAC_QUERY_RETRY_DELAY_MS, MAC_QUERY_TIMEOUT_MS,
};
use lamella::exchange::{Direction, ExchangeNote, RetryCause};
use lamella::metrics::{
    format_metrics, report_label, BridgeMetrics, ReportAction, ReportEvent, ReportTask,
    REPORT_INTERVAL_MS,
};

fn finished(action: WaitAction<u32, &'static str>) -> EndpointWaitResult<u32, &'static str> {
    match action {
        WaitAction::Finish(result) => result,
        other => panic!("unexpected {other:?}"),
    }
}

#[test]
fn slow_endpoint_response_is_not_replaced_after_warning() {
    // The response to the first request takes 300 ms, that to the backup 200 ms
    // from when it is sent.
    let mut wait = EndpointWait::new();
    let action: WaitAction<u32, &'static str> = wait.step(WaitEvent::Deadline, 250);
    assert!(matches!(action, WaitAction::SendBackup));
    let result = finished(wait.step(WaitEvent::Primary(Ok(42)), 300));
    assert_eq!(result.result, Ok(42));
    assert!(result
        .stalled_for
        .is_some_and(|duration| duration >= ENDPOINT_STALL_THRESHOLD_MS));
    assert!(result.backup_sent);
    assert_eq!(result.discarded_errors, 0);
}

#[test]
fn backup_recovers_a_lost_primary_request() {
    let mut wait = EndpointWait::new();
    let action: WaitAction<u32, &'static str> = wait.step(WaitEvent::Deadline, 250);
    assert!(matches!(action, WaitAction::SendBackup));
    let result = finished(wait.step(WaitEvent::Backup(Ok(43)), 260));
    assert_eq!(result.result, Ok(43));
    assert!(result.stalled_for.is_some());
    assert!(result.backup_sent);
    assert_eq!(result.discarded_errors, 0);
}

#[test]
fn a_quick_response_needs_no_backup() {
    assert_eq!(ENDPOINT_STALL_THRESHOLD_MS, 250);
    assert_eq!(ENDPOINT_STALL_LOG_INTERVAL_MS, 5000);
    let mut wait = EndpointWait::new();
    assert_eq!(wait.deadline_ms, 250);
    let result = finished(wait.step(WaitEvent::Primary(Ok(1)), 3));
    assert_eq!(result.result, Ok(1));
    assert_eq!(result.stalled_for, None);
    assert!(!result.backup_sent);
    assert_eq!(result.discarded_errors, 0);
}

#[test]
fn an_early_failure_is_returned() {
    let mut wait = EndpointWait::new();
    let result = finished(wait.step(WaitEvent::Primary(Err("lost")), 3));
    assert_eq!(result.result, Err("lost"));
    assert!(!result.backup_sent);
}

#[test]
fn one_failure_is_discarded_while_the_other_request_is_pending() {
    let mut wait = EndpointWait::new();
    let _: WaitAction<u32, &'static str> = wait.step(WaitEvent::Deadline, 250);
    assert!(matches!(
        wait.step(WaitEvent::<u32, &'static str>::Primary(Err("a")), 300),
        WaitAction::Discard("a")
    ));
    assert!(matches!(
        wait.step(WaitEvent::<u32, &'static str>::Deadline, 5250),
        WaitAction::StillPending
    ));
    assert_eq!(wait.deadline_ms, 10250);
    let result = finished(wait.step(WaitEvent::Backup(Ok(5)), 6000));
    assert_eq!(result.result, Ok(5));
    assert_eq!(result.stalled_for, Some(6000));
    assert_eq!(result.discarded_errors, 1);
}

#[test]
fn two_failures_return_the_second() {
    let mut wait = EndpointWait::new();
    let _: WaitAction<u32, &'static str> = wait.step(WaitEvent::Deadline, 250);
    assert!(matches!(
        wait.step(WaitEvent::<u32, &'static str>::Backup(Err("b")), 300),
        WaitAction::Discard("b")
    ));
    let result = finished(wait.step(WaitEvent::Primary(Err("a")), 400));
    assert_eq!(result.result, Err("a"));
    assert!(result.backup_sent);
    assert_eq!(result.discarded_errors, 1);
}

#[test]
fn a_shutdown_abandons_the_wait() {
    let mut wait = EndpointWait::new();
    assert!(matches!(
        wait.step(WaitEvent::<u32, &'static str>::Cancelled, 20),
        WaitAction::Abandon
    ));
    let mut late = EndpointWait::new();
    let _: WaitAction<u32, &'static str> = late.step(WaitEvent::Deadline, 250);
    assert!(matches!(
        late.step(WaitEvent::<u32, &'static str>::Cancelled, 300),
        WaitAction::Abandon
    ));
}

#[test]
fn only_one_backup_is_sent_however_long_it_takes() {
    let mut wait = EndpointWait::new();
    let mut backups = 0;
    let mut now = 0;
    for _ in 0..50 {
        now = wait.deadline_ms.max(now);
        let action: WaitAction<u32, &'static str> = wait.step(WaitEvent::Deadline, now);
        if matches!(action, WaitAction::SendBackup) {
            backups += 1;
        }
    }
    assert_eq!(backups, 1);
}

#[test]
fn the_mac_query_returns_the_first_answer() {
    assert_eq!(
        (MAC_QUERY_RETRIES, MAC_QUERY_RETRY_DELAY_MS, MAC_QUERY_TIMEOUT_MS),
        (3, 300, 2000)
    );
    let mut query: MacQuery<&'static str> = MacQuery::new(MAC_QUERY_RETRIES);
    assert!(matches!(query.step(MacQueryEvent::Failed("one")), MacQueryAction::Pause));
    assert!(matches!(query.step(MacQueryEvent::PauseOver), MacQueryAction::Ask));
    assert_eq!(query.attempt, 2);
    match query.step(MacQueryEvent::Answer([1, 2, 3, 4, 5, 6])) {
        MacQueryAction::Finish(result) => assert_eq!(result, Ok([1, 2, 3, 4, 5, 6])),
        other => panic!("unexpected {other:?}"),
    }
}

#[test]
fn the_mac_query_returns_the_last_failure() {
    let mut query: MacQuery<&'static str> = MacQuery::new(MAC_QUERY_RETRIES);
    for error in ["one", "two"] {
        assert!(matches!(query.step(MacQueryEvent::Failed(error)), MacQueryAction::Pause));
        assert!(matches!(query.step(MacQueryEvent::PauseOver), MacQueryAction::Ask));
    }
    assert!(matches!(query.step(MacQueryEvent::Failed("three")), MacQueryAction::Pause));
    match query.step(MacQueryEvent::PauseOver) {
        MacQueryAction::Finish(result) => assert_eq!(result, Err("three")),
        other => panic!("unexpected {other:?}"),
    }
}

#[test]
fn tap_reads_become_frames() {
    let mut metrics = BridgeMetrics::default();
    match take_tap_read(&[1, 2, 3], &mut metrics) {
        TapRead::Queue(frame) => assert_eq!(frame.as_slice(), &[1, 2, 3]),
        other => panic!("unexpected {other:?}"),
    }
    assert!(matches!(take_tap_read(&[], &mut metrics), TapRead::Skip));
    assert!(matches!(take_tap_read(&vec![0; 1515], &mut metrics), TapRead::Skip));
    assert_eq!((metrics.tap_rx_frames, metrics.tap_rx_bytes), (1, 3));
}

#[test]
fn metrics_count_what_happened() {
    let mut metrics = BridgeMetrics::default();
    metrics.record_tap_rx(10);
    metrics.record_tap_tx(20);
    metrics.record_tap_tx(30);
    metrics.record_tx_retry();
    metrics.record_rx_retry();
    metrics.record_endpoint_error();
    metrics.record_response_mismatch();
    metrics.record_tap_error();
    metrics.record_reconnect();
    let stats = metrics.snapshot();
    assert_eq!((stats.tap_rx_frames, stats.tap_rx_bytes), (1, 10));
    assert_eq!((stats.tap_tx_frames, stats.tap_tx_bytes), (2, 50));
    assert_eq!((stats.tx_retries, stats.rx_retries), (1, 1));
    assert_eq!((stats.endpoint_errors, stats.response_mismatches), (1, 1));
    assert_eq!((stats.tap_errors, stats.reconnects), (1, 1));
}

#[test]
fn metrics_take_the_notes_of_the_exchange() {
    let mut metrics = BridgeMetrics::default();
    metrics.record(ExchangeNote::Nothing);
    assert_eq!(metrics, BridgeMetrics::default());
    metrics.record(ExchangeNote::Retry(Direction::Tx, RetryCause::Timeout));
    metrics.record(ExchangeNote::Retry(Direction::Rx, RetryCause::Endpoint));
    metrics.record(ExchangeNote::Retry(Direction::Rx, RetryCause::Mismatch));
    metrics.record(ExchangeNote::Delivered(60));
    metrics.record(ExchangeNote::TapError);
    let stats = metrics.snapshot();
    assert_eq!((stats.tx_retries, stats.rx_retries), (1, 2));
    assert_eq!((stats.endpoint_errors, stats.response_mismatches), (1, 1));
    assert_eq!((stats.tap_tx_frames, stats.tap_tx_bytes, stats.tap_errors), (1, 60, 1));
}

#[test]
fn counters_wrap() {
    let mut metrics = BridgeMetrics { tap_rx_bytes: u64::MAX, ..BridgeMetrics::default() };
    metrics.record_tap_rx(3);
    assert_eq!(metrics.tap_rx_bytes, 2);
}

#[test]
fn metrics_are_written_as_json_lines() {
    assert_eq!(REPORT_INTERVAL_MS, 60_000);
    assert_eq!(report_label(false), "Bridge metrics");
    assert_eq!(report_label(true), "Final bridge metrics");
    let mut metrics = BridgeMetrics::default();
    metrics.record_tap_rx(1234);
    metrics.record_tap_tx(60);
    metrics.record_tx_retry();
    metrics.record_reconnect();
    let line = format_metrics(&metrics.snapshot(), 1700000000, 61, true);
    assert_eq!(
        line,
        "{\"timestamp\":1700000000,\"uptime_seconds\":61,\"final\":true,\"tap_to_wifi_frames\":1,\"tap_to_wifi_bytes\":1234,\"wifi_to_tap_frames\":1,\"wifi_to_tap_bytes\":60,\"tx_retries\":1,\"rx_retries\":0,\"endpoint_errors\":0,\"response_mismatches\":0,\"tap_errors\":0,\"reconnects\":1}\n"
    );
    let other = format_metrics(&BridgeMetrics::default().snapshot(), 0, 0, false);
    assert!(other.contains("\"final\":false"));
}

#[test]
fn reports_come_every_minute_and_at_the_end() {
    let mut task = ReportTask::new();
    assert_eq!((task.next_ms, task.stopped), (60_000, false));
    assert_eq!(task.step(ReportEvent::Tick, 60_000), ReportAction::Emit);
    assert_eq!(task.next_ms, 120_000);
    assert_eq!(task.step(ReportEvent::Tick, 125_000), ReportAction::Emit);
    assert_eq!(task.next_ms, 180_000);
    assert_eq!(task.step(ReportEvent::Cancelled, 126_000), ReportAction::EmitFinalAndStop);
    assert!(task.stopped);
}

#[test]
fn the_tap_reader_queues_every_frame_once() {
    let mut metrics = BridgeMetrics::default();
    let mut reader = TapReader::new();
    let mut queued: Vec<Vec<u8>> = vec![];
    for read in [&[1u8, 2][..], &[], &[3]] {
        match reader.step(TapEvent::Read(read), &mut metrics) {
            TapAction::Queue(frame) => {
                assert_eq!(reader.phase, TapPhase::Queueing);
                queued.push(frame.as_slice().to_vec());
                assert!(matches!(reader.step(TapEvent::Queued, &mut metrics), TapAction::Read));
            }
            TapAction::Read => assert!(read.is_empty()),
            other => panic!("unexpected {other:?}"),
        }
    }
    assert_eq!(queued, vec![vec![1, 2], vec![3]]);
    assert!(matches!(reader.step(TapEvent::ReadFailed, &mut metrics), TapAction::Pause(100)));
    assert!(matches!(reader.step(TapEvent::PauseOver, &mut metrics), TapAction::Read));
    assert_eq!((metrics.tap_rx_frames, metrics.tap_rx_bytes, metrics.tap_errors), (2, 3, 1));
    assert!(matches!(reader.step(TapEvent::Cancelled, &mut metrics), TapAction::Stop));
    assert_eq!(reader.phase, TapPhase::Stopped);
    let mut reader = TapReader::new();
    reader.step(TapEvent::Read(&[4]), &mut metrics);
    assert!(matches!(reader.step(TapEvent::QueueClosed, &mut metrics), TapAction::Stop));
}
