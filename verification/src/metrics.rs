//! Cumulative counters of the bridge, and the line in which they are written.
use vstd::prelude::*;
use vstd::string::StringExecFns;

use crate::exchange::{Direction, ExchangeNote, RetryCause};
use crate::text::append_decimal;

verus! {

/// How often the counters are reported, in milliseconds.
pub const REPORT_INTERVAL_MS: u64 = 60_000;

/// What the bridge has done so far. The counters wrap.
#[derive(Debug, PartialEq, Eq, Structural)]
pub struct BridgeMetrics {
    pub tap_rx_frames: u64,
    pub tap_rx_bytes: u64,
    pub tap_tx_frames: u64,
    pub tap_tx_bytes: u64,
    pub tx_retries: u64,
    pub rx_retries: u64,
    pub endpoint_errors: u64,
    pub response_mismatches: u64,
    pub tap_errors: u64,
    pub reconnects: u64,
}

/// The counters at one moment.
#[derive(Clone, Copy, Debug, PartialEq, Eq, Structural)]
pub struct Snapshot {
    pub tap_rx_frames: u64,
    pub tap_rx_bytes: u64,
    pub tap_tx_frames: u64,
    pub tap_tx_bytes: u64,
    pub tx_retries: u64,
    pub rx_retries: u64,
    pub endpoint_errors: u64,
    pub response_mismatches: u64,
    pub tap_errors: u64,
    pub reconnects: u64,
}

/// A counter after `n` more.
pub open spec fn plus(counter: u64, n: nat) -> u64 {
    ((counter + n) % 0x1_0000_0000_0000_0000) as u64
}

impl Default for BridgeMetrics {
    /// Counters at zero.
    fn default() -> (r: BridgeMetrics)
        ensures
            r == BridgeMetrics::zero(),
    {
        BridgeMetrics {
            tap_rx_frames: 0,
            tap_rx_bytes: 0,
            tap_tx_frames: 0,
            tap_tx_bytes: 0,
            tx_retries: 0,
            rx_retries: 0,
            endpoint_errors: 0,
            response_mismatches: 0,
            tap_errors: 0,
            reconnects: 0,
        }
    }
}

impl BridgeMetrics {
    /// Counters at zero.
    pub open spec fn zero() -> BridgeMetrics {
        BridgeMetrics {
            tap_rx_frames: 0,
            tap_rx_bytes: 0,
            tap_tx_frames: 0,
            tap_tx_bytes: 0,
            tx_retries: 0,
            rx_retries: 0,
            endpoint_errors: 0,
            response_mismatches: 0,
            tap_errors: 0,
            reconnects: 0,
        }
    }

    /// The counters after a frame was read from the TAP interface.
    pub open spec fn with_tap_rx(self, bytes: u64) -> BridgeMetrics {
        BridgeMetrics {
            tap_rx_frames: plus(self.tap_rx_frames, 1),
            tap_rx_bytes: plus(self.tap_rx_bytes, bytes as nat),
            ..self
        }
    }

    /// The counters after a frame was written to the TAP interface.
    pub open spec fn with_tap_tx(self, bytes: u64) -> BridgeMetrics {
        BridgeMetrics {
            tap_tx_frames: plus(self.tap_tx_frames, 1),
            tap_tx_bytes: plus(self.tap_tx_bytes, bytes as nat),
            ..self
        }
    }

    /// The counters after a request is repeated.
    pub open spec fn with_retry(self, direction: Direction, cause: RetryCause) -> BridgeMetrics {
        BridgeMetrics {
            tx_retries: if direction is Tx {
                plus(self.tx_retries, 1)
            } else {
                self.tx_retries
            },
            rx_retries: if direction is Rx {
                plus(self.rx_retries, 1)
            } else {
                self.rx_retries
            },
            response_mismatches: if cause is Mismatch {
                plus(self.response_mismatches, 1)
            } else {
                self.response_mismatches
            },
            endpoint_errors: if cause is Endpoint {
                plus(self.endpoint_errors, 1)
            } else {
                self.endpoint_errors
            },
            ..self
        }
    }

    /// The counters after what the exchange noted.
    pub open spec fn with_note(self, note: ExchangeNote) -> BridgeMetrics {
        match note {
            ExchangeNote::Nothing => self,
            ExchangeNote::Retry(direction, cause) => self.with_retry(direction, cause),
            ExchangeNote::Delivered(bytes) => self.with_tap_tx(bytes as u64),
            ExchangeNote::TapError => BridgeMetrics { tap_errors: plus(self.tap_errors, 1), ..self },
        }
    }

    /// Counts a frame that was read from the TAP interface.
    pub fn record_tap_rx(&mut self, bytes: usize)
        ensures
            *final(self) == old(self).with_tap_rx(bytes as u64),
    {
        self.tap_rx_frames = self.tap_rx_frames.wrapping_add(1);
        self.tap_rx_bytes = self.tap_rx_bytes.wrapping_add(bytes as u64);
    }

    /// Counts a frame that was written to the TAP interface.
    pub fn record_tap_tx(&mut self, bytes: usize)
        ensures
            *final(self) == old(self).with_tap_tx(bytes as u64),
    {
        self.tap_tx_frames = self.tap_tx_frames.wrapping_add(1);
        self.tap_tx_bytes = self.tap_tx_bytes.wrapping_add(bytes as u64);
    }

    /// Counts a repeated TX request.
    pub fn record_tx_retry(&mut self)
        ensures
            *final(self) == (BridgeMetrics { tx_retries: plus(old(self).tx_retries, 1), ..*old(self) }),
    {
        self.tx_retries = self.tx_retries.wrapping_add(1);
    }

    /// Counts a repeated RX request.
    pub fn record_rx_retry(&mut self)
        ensures
            *final(self) == (BridgeMetrics { rx_retries: plus(old(self).rx_retries, 1), ..*old(self) }),
    {
        self.rx_retries = self.rx_retries.wrapping_add(1);
    }

    /// Counts a request that the link failed to serve.
    pub fn record_endpoint_error(&mut self)
        ensures
            *final(self) == (BridgeMetrics {
                endpoint_errors: plus(old(self).endpoint_errors, 1),
                ..*old(self)
            }),
    {
        self.endpoint_errors = self.endpoint_errors.wrapping_add(1);
    }

    /// Counts a response to another transaction.
    pub fn record_response_mismatch(&mut self)
        ensures
            *final(self) == (BridgeMetrics {
                response_mismatches: plus(old(self).response_mismatches, 1),
                ..*old(self)
            }),
    {
        self.response_mismatches = self.response_mismatches.wrapping_add(1);
    }

    /// Counts a failed read or write of the TAP interface.
    pub fn record_tap_error(&mut self)
        ensures
            *final(self) == (BridgeMetrics { tap_errors: plus(old(self).tap_errors, 1), ..*old(self) }),
    {
        self.tap_errors = self.tap_errors.wrapping_add(1);
    }

    /// Counts a new connection of a device that was connected before.
    pub fn record_reconnect(&mut self)
        ensures
            *final(self) == (BridgeMetrics { reconnects: plus(old(self).reconnects, 1), ..*old(self) }),
    {
        self.reconnects = self.reconnects.wrapping_add(1);
    }

    /// Counts what the exchange noted.
    pub fn record(&mut self, note: ExchangeNote)
        ensures
            *final(self) == old(self).with_note(note),
    {
        match note {
            ExchangeNote::Nothing => {},
            ExchangeNote::Retry(direction, cause) => {
                match direction {
                    Direction::Tx => self.record_tx_retry(),
                    Direction::Rx => self.record_rx_retry(),
                }
                match cause {
                    RetryCause::Mismatch => self.record_response_mismatch(),
                    RetryCause::Endpoint => self.record_endpoint_error(),
                    RetryCause::Timeout => {},
                }
            },
            ExchangeNote::Delivered(bytes) => self.record_tap_tx(bytes),
            ExchangeNote::TapError => self.record_tap_error(),
        }
    }

    /// The counters as they are now.
    pub open spec fn now(self) -> Snapshot {
        Snapshot {
            tap_rx_frames: self.tap_rx_frames,
            tap_rx_bytes: self.tap_rx_bytes,
            tap_tx_frames: self.tap_tx_frames,
            tap_tx_bytes: self.tap_tx_bytes,
            tx_retries: self.tx_retries,
            rx_retries: self.rx_retries,
            endpoint_errors: self.endpoint_errors,
            response_mismatches: self.response_mismatches,
            tap_errors: self.tap_errors,
            reconnects: self.reconnects,
        }
    }

    /// Copies the counters.
    pub fn snapshot(&self) -> (r: Snapshot)
        ensures
            r == self.now(),
    {
        Snapshot {
            tap_rx_frames: self.tap_rx_frames,
            tap_rx_bytes: self.tap_rx_bytes,
            tap_tx_frames: self.tap_tx_frames,
            tap_tx_bytes: self.tap_tx_bytes,
            tx_retries: self.tx_retries,
            rx_retries: self.rx_retries,
            endpoint_errors: self.endpoint_errors,
            response_mismatches: self.response_mismatches,
            tap_errors: self.tap_errors,
            reconnects: self.reconnects,
        }
    }
}

/// What the counters are told.
pub enum MetricEvent {
    /// A frame of this length was read from the TAP interface.
    TapRead(usize),
    /// A read of the TAP interface failed.
    TapReadFailed,
    /// The exchange noted something.
    Exchange(ExchangeNote),
    /// A device was connected again.
    Reconnected,
}

impl BridgeMetrics {
    /// The counters after an event.
    pub open spec fn with_event(self, event: MetricEvent) -> BridgeMetrics {
        match event {
            MetricEvent::TapRead(bytes) => self.with_tap_rx(bytes as u64),
            MetricEvent::TapReadFailed => BridgeMetrics {
                tap_errors: plus(self.tap_errors, 1),
                ..self
            },
            MetricEvent::Exchange(note) => self.with_note(note),
            MetricEvent::Reconnected => BridgeMetrics {
                reconnects: plus(self.reconnects, 1),
                ..self
            },
        }
    }

    /// The counters after a sequence of events.
    pub open spec fn after(self, events: Seq<MetricEvent>) -> BridgeMetrics
        decreases events.len(),
    {
        if events.len() == 0 {
            self
        } else {
            self.after(events.drop_last()).with_event(events.last())
        }
    }

    /// One of the counters.
    pub open spec fn value(self, counter: Counter) -> u64 {
        match counter {
            Counter::TapRxFrames => self.tap_rx_frames,
            Counter::TapRxBytes => self.tap_rx_bytes,
            Counter::TapTxFrames => self.tap_tx_frames,
            Counter::TapTxBytes => self.tap_tx_bytes,
            Counter::TxRetries => self.tx_retries,
            Counter::RxRetries => self.rx_retries,
            Counter::EndpointErrors => self.endpoint_errors,
            Counter::ResponseMismatches => self.response_mismatches,
            Counter::TapErrors => self.tap_errors,
            Counter::Reconnects => self.reconnects,
        }
    }
}

/// The counters by name.
pub enum Counter {
    TapRxFrames,
    TapRxBytes,
    TapTxFrames,
    TapTxBytes,
    TxRetries,
    RxRetries,
    EndpointErrors,
    ResponseMismatches,
    TapErrors,
    Reconnects,
}

/// One for what holds, zero for what does not.
pub open spec fn one_if(holds: bool) -> nat {
    if holds {
        1
    } else {
        0
    }
}

/// What an event adds to a counter: one for each event of its kind, and to a
/// counter of bytes the length of the frame.
pub open spec fn weight(event: MetricEvent, counter: Counter) -> nat {
    match counter {
        Counter::TapRxFrames => one_if(event is TapRead),
        Counter::TapRxBytes => match event {
            MetricEvent::TapRead(bytes) => bytes as nat,
            _ => 0,
        },
        Counter::TapTxFrames => one_if(
            event matches MetricEvent::Exchange(note) && note is Delivered,
        ),
        Counter::TapTxBytes => match event {
            MetricEvent::Exchange(ExchangeNote::Delivered(bytes)) => bytes as nat,
            _ => 0,
        },
        Counter::TxRetries => one_if(
            event matches MetricEvent::Exchange(ExchangeNote::Retry(direction, _)) && direction is Tx,
        ),
        Counter::RxRetries => one_if(
            event matches MetricEvent::Exchange(ExchangeNote::Retry(direction, _)) && direction is Rx,
        ),
        Counter::EndpointErrors => one_if(
            event matches MetricEvent::Exchange(ExchangeNote::Retry(_, cause)) && cause is Endpoint,
        ),
        Counter::ResponseMismatches => one_if(
            event matches MetricEvent::Exchange(ExchangeNote::Retry(_, cause)) && cause is Mismatch,
        ),
        Counter::TapErrors => one_if(
            event is TapReadFailed || (event matches MetricEvent::Exchange(note)
                && note is TapError),
        ),
        Counter::Reconnects => one_if(event is Reconnected),
    }
}

/// What a sequence of events adds to a counter.
pub open spec fn total(events: Seq<MetricEvent>, counter: Counter) -> nat
    decreases events.len(),
{
    if events.len() == 0 {
        0
    } else {
        total(events.drop_last(), counter) + weight(events.last(), counter)
    }
}

proof fn event_adds_its_weight(metrics: BridgeMetrics, event: MetricEvent, counter: Counter)
    ensures
        metrics.with_event(event).value(counter) == plus(
            metrics.value(counter),
            weight(event, counter),
        ),
{
    let before = metrics.value(counter);
    assert(plus(before, 0) == before);
}

pub(crate) proof fn plus_keeps_the_total(counter: u64, sum: nat, n: nat)
    requires
        counter == sum % 0x1_0000_0000_0000_0000,
    ensures
        plus(counter, n) == (sum + n) % 0x1_0000_0000_0000_0000,
{
}

/// The counters tell what happened. From zero, each is the number of the events of
/// its own kind, and each counter of bytes the sum of their lengths, modulo its
/// width.
pub proof fn counters_count(events: Seq<MetricEvent>, counter: Counter)
    ensures
        BridgeMetrics::zero().after(events).value(counter) == total(events, counter)
            % 0x1_0000_0000_0000_0000,
    decreases events.len(),
{
    if events.len() > 0 {
        let before = events.drop_last();
        counters_count(before, counter);
        let metrics = BridgeMetrics::zero().after(before);
        event_adds_its_weight(metrics, events.last(), counter);
        plus_keeps_the_total(
            metrics.value(counter),
            total(before, counter),
            weight(events.last(), counter),
        );
    }
}

/// How many notes satisfy a condition.
pub open spec fn count(notes: Seq<ExchangeNote>, holds: spec_fn(ExchangeNote) -> bool) -> nat {
    notes.filter(holds).len()
}

/// Every repeated request has exactly one cause: without wrapping, the retries of
/// both directions are the mismatches, the endpoint errors and the timeouts.
pub proof fn retries_have_causes(notes: Seq<ExchangeNote>)
    ensures
        count(notes, |n: ExchangeNote| n is Retry) == count(
            notes,
            |n: ExchangeNote| n matches ExchangeNote::Retry(_, c) && c is Mismatch,
        ) + count(notes, |n: ExchangeNote| n matches ExchangeNote::Retry(_, c) && c is Endpoint)
            + count(notes, |n: ExchangeNote| n matches ExchangeNote::Retry(_, c) && c is Timeout),
        count(notes, |n: ExchangeNote| n is Retry) == count(
            notes,
            |n: ExchangeNote| n matches ExchangeNote::Retry(d, _) && d is Tx,
        ) + count(notes, |n: ExchangeNote| n matches ExchangeNote::Retry(d, _) && d is Rx),
    decreases notes.len(),
{
    reveal(Seq::filter);
    if notes.len() > 0 {
        retries_have_causes(notes.drop_last());
    }
}

/// What a snapshot says of a run: each of its numbers is what the events added to the
/// counter of that name, modulo its width.
pub proof fn a_snapshot_tells_what_happened(events: Seq<MetricEvent>)
    ensures
        ({
            let stats = BridgeMetrics::zero().after(events).now();
            &&& stats.tap_rx_frames == total(events, Counter::TapRxFrames) % 0x1_0000_0000_0000_0000
            &&& stats.tap_rx_bytes == total(events, Counter::TapRxBytes) % 0x1_0000_0000_0000_0000
            &&& stats.tap_tx_frames == total(events, Counter::TapTxFrames) % 0x1_0000_0000_0000_0000
            &&& stats.tap_tx_bytes == total(events, Counter::TapTxBytes) % 0x1_0000_0000_0000_0000
            &&& stats.tx_retries == total(events, Counter::TxRetries) % 0x1_0000_0000_0000_0000
            &&& stats.rx_retries == total(events, Counter::RxRetries) % 0x1_0000_0000_0000_0000
            &&& stats.endpoint_errors == total(events, Counter::EndpointErrors) % 0x1_0000_0000_0000_0000
            &&& stats.response_mismatches == total(events, Counter::ResponseMismatches) % 0x1_0000_0000_0000_0000
            &&& stats.tap_errors == total(events, Counter::TapErrors) % 0x1_0000_0000_0000_0000
            &&& stats.reconnects == total(events, Counter::Reconnects) % 0x1_0000_0000_0000_0000
        }),
{
    counters_count(events, Counter::TapRxFrames);
    counters_count(events, Counter::TapRxBytes);
    counters_count(events, Counter::TapTxFrames);
    counters_count(events, Counter::TapTxBytes);
    counters_count(events, Counter::TxRetries);
    counters_count(events, Counter::RxRetries);
    counters_count(events, Counter::EndpointErrors);
    counters_count(events, Counter::ResponseMismatches);
    counters_count(events, Counter::TapErrors);
    counters_count(events, Counter::Reconnects);
}

/// Traffic in one direction leaves the counters of the other alone: what is read from
/// the TAP interface is not written to it, and a retry of one kind of request is not one
/// of the other.
#[verifier::rlimit(60)]
#[verifier::spinoff_prover]
pub proof fn directions_are_counted_apart(metrics: BridgeMetrics, bytes: usize, cause: RetryCause)
    ensures
        ({
            let read = metrics.with_event(MetricEvent::TapRead(bytes));
            let written = metrics.with_event(
                MetricEvent::Exchange(ExchangeNote::Delivered(bytes)),
            );
            let sent_again = metrics.with_event(
                MetricEvent::Exchange(ExchangeNote::Retry(Direction::Tx, cause)),
            );
            let polled_again = metrics.with_event(
                MetricEvent::Exchange(ExchangeNote::Retry(Direction::Rx, cause)),
            );
            &&& read.tap_tx_frames == metrics.tap_tx_frames
            &&& read.tap_tx_bytes == metrics.tap_tx_bytes
            &&& read.tap_rx_frames != metrics.tap_rx_frames
            &&& written.tap_rx_frames == metrics.tap_rx_frames
            &&& written.tap_rx_bytes == metrics.tap_rx_bytes
            &&& written.tap_tx_frames != metrics.tap_tx_frames
            &&& sent_again.rx_retries == metrics.rx_retries
            &&& sent_again.tx_retries != metrics.tx_retries
            &&& polled_again.tx_retries == metrics.tx_retries
            &&& polled_again.rx_retries != metrics.rx_retries
            &&& (sent_again.response_mismatches != metrics.response_mismatches) == (cause
                is Mismatch)
            &&& (sent_again.endpoint_errors != metrics.endpoint_errors) == (cause is Endpoint)
        }),
{
}

/// What the report task waits for.
#[derive(Clone, Copy, Debug, PartialEq, Eq, Structural)]
pub enum ReportEvent {
    /// The interval is over.
    Tick,
    /// The program is shutting down.
    Cancelled,
}

/// What the report task does.
#[derive(Clone, Copy, Debug, PartialEq, Eq, Structural)]
pub enum ReportAction {
    /// Report the counters, and go on.
    Emit,
    /// Report the counters for the last time, and end.
    EmitFinalAndStop,
}

/// Reports the counters at every interval, and once more at the shutdown. Times are
/// in milliseconds since the start.
#[derive(Clone, Copy, Debug, PartialEq, Eq, Structural)]
pub struct ReportTask {
    /// When the next report is due.
    pub next_ms: u64,
    /// Whether the last report was made.
    pub stopped: bool,
}

/// The end of the interval after one that ends at the given time.
pub open spec fn next_interval(due_ms: u64) -> u64 {
    if due_ms + REPORT_INTERVAL_MS > u64::MAX {
        u64::MAX
    } else {
        (due_ms + REPORT_INTERVAL_MS) as u64
    }
}

impl ReportTask {
    /// A task that has reported nothing.
    pub open spec fn begun() -> ReportTask {
        ReportTask { next_ms: REPORT_INTERVAL_MS, stopped: false }
    }

    /// Whether the event can happen at the given time.
    pub open spec fn accepts(self, event: ReportEvent, now_ms: u64) -> bool {
        !self.stopped && (event is Tick ==> now_ms >= self.next_ms)
    }

    /// The state that follows. An interval that was noticed late does not put off
    /// those after it.
    pub open spec fn next(self, event: ReportEvent, now_ms: u64) -> ReportTask {
        match event {
            ReportEvent::Tick => ReportTask { next_ms: next_interval(self.next_ms), ..self },
            ReportEvent::Cancelled => ReportTask { stopped: true, ..self },
        }
    }

    /// A task that has reported nothing. The first report is due after one interval.
    pub fn new() -> (r: ReportTask)
        ensures
            r == ReportTask::begun(),
    {
        ReportTask { next_ms: REPORT_INTERVAL_MS, stopped: false }
    }

    /// Takes an event at a time since the start.
    pub fn step(&mut self, event: ReportEvent, now_ms: u64) -> (r: ReportAction)
        requires
            old(self).accepts(event, now_ms),
        ensures
            *final(self) == old(self).next(event, now_ms),
            r == if event is Cancelled {
                ReportAction::EmitFinalAndStop
            } else {
                ReportAction::Emit
            },
    {
        match event {
            ReportEvent::Tick => {
                self.next_ms = self.next_ms.saturating_add(REPORT_INTERVAL_MS);
                ReportAction::Emit
            },
            ReportEvent::Cancelled => {
                self.stopped = true;
                ReportAction::EmitFinalAndStop
            },
        }
    }
}

/// A report: whether it is the final one, and when it was made.
pub struct Report {
    pub last: bool,
    pub at_ms: u64,
}

/// A report task, and the reports that it has made.
pub struct ReportHistory {
    pub task: ReportTask,
    pub reports: Seq<Report>,
}

impl ReportHistory {
    /// A task that has just begun.
    pub open spec fn fresh() -> ReportHistory {
        ReportHistory { task: ReportTask::begun(), reports: Seq::empty() }
    }

    /// The history after an event at a time.
    pub open spec fn next(self, event: (ReportEvent, u64)) -> ReportHistory {
        ReportHistory {
            task: self.task.next(event.0, event.1),
            reports: self.reports.push(Report { last: event.0 is Cancelled, at_ms: event.1 }),
        }
    }

    /// The history after a sequence of events.
    pub open spec fn after(self, events: Seq<(ReportEvent, u64)>) -> ReportHistory
        decreases events.len(),
    {
        if events.len() == 0 {
            self
        } else {
            self.after(events.drop_last()).next(events.last())
        }
    }

    /// Whether each event of the sequence can happen where it stands.
    pub open spec fn possible_all(self, events: Seq<(ReportEvent, u64)>) -> bool {
        forall|i: int|
            0 <= i < events.len() ==> self.after(events.take(i)).task.accepts(
                (#[trigger] events[i]).0,
                events[i].1,
            )
    }
}

/// When the report with an index is due: an interval after the one before it.
pub open spec fn due_ms(index: int) -> int {
    if (index + 1) * REPORT_INTERVAL_MS > u64::MAX {
        u64::MAX as int
    } else {
        (index + 1) * REPORT_INTERVAL_MS
    }
}

/// The reports are periodic, and the last one is final. Every ordinary report comes
/// no earlier than it is due; there is one final report when the task has ended, and
/// none before that; it is the last of all, and nothing follows it.
pub proof fn one_final_report_at_the_end(events: Seq<(ReportEvent, u64)>)
    requires
        ReportHistory::fresh().possible_all(events),
    ensures
        ({
            let history = ReportHistory::fresh().after(events);
            let reports = history.reports;
            &&& reports.len() == events.len()
            &&& forall|i: int|
                0 <= i < reports.len() ==> {
                    &&& (#[trigger] reports[i]).last == (history.task.stopped && i == reports.len()
                        - 1)
                    &&& !reports[i].last ==> reports[i].at_ms >= due_ms(i)
                }
            &&& history.task.stopped ==> reports.len() > 0
            &&& history.task.stopped ==> forall|event: ReportEvent, now_ms: u64|
                !history.task.accepts(event, now_ms)
            &&& !history.task.stopped ==> history.task.next_ms == due_ms(reports.len() as int)
        }),
    decreases events.len(),
{
    let start = ReportHistory::fresh();
    if events.len() > 0 {
        let before = events.drop_last();
        assert forall|i: int| 0 <= i < before.len() implies start.after(
            before.take(i),
        ).task.accepts((#[trigger] before[i]).0, before[i].1) by {
            assert(before.take(i) =~= events.take(i));
            assert(before[i] == events[i]);
        }
        one_final_report_at_the_end(before);
        assert(events.take(events.len() - 1) =~= before);
        let last = events[events.len() - 1];
        assert(start.after(before).task.accepts(last.0, last.1));
        let reports = start.after(events).reports;
        let earlier = start.after(before).reports;
        assert forall|i: int| 0 <= i < earlier.len() implies reports[i] == #[trigger] earlier[i] by {}
    }
}

/// The heading of a report.
pub fn report_label(final_report: bool) -> (r: &'static str)
    ensures
        r@ == if final_report {
            "Final bridge metrics"@
        } else {
            "Bridge metrics"@
        },
{
    if final_report {
        "Final bridge metrics"
    } else {
        "Bridge metrics"
    }
}

/// The counters as one JSON object on a line of its own.
pub open spec fn metrics_line(stats: Snapshot, timestamp: u64, uptime_secs: u64, final_report: bool) -> Seq<
    char,
> {
    "{\"timestamp\":"@ + num(timestamp) + ",\"uptime_seconds\":"@ + num(uptime_secs)
        + ",\"final\":"@ + (if final_report {
        "true"@
    } else {
        "false"@
    }) + ",\"tap_to_wifi_frames\":"@ + num(stats.tap_rx_frames) + ",\"tap_to_wifi_bytes\":"@ + num(
        stats.tap_rx_bytes,
    ) + ",\"wifi_to_tap_frames\":"@ + num(stats.tap_tx_frames) + ",\"wifi_to_tap_bytes\":"@ + num(
        stats.tap_tx_bytes,
    ) + ",\"tx_retries\":"@ + num(stats.tx_retries) + ",\"rx_retries\":"@ + num(stats.rx_retries)
        + ",\"endpoint_errors\":"@ + num(stats.endpoint_errors) + ",\"response_mismatches\":"@
        + num(stats.response_mismatches) + ",\"tap_errors\":"@ + num(stats.tap_errors)
        + ",\"reconnects\":"@ + num(stats.reconnects) + "}\n"@
}

/// A counter in decimal.
pub open spec fn num(n: u64) -> Seq<char> {
    crate::text::decimal(n as nat)
}

/// Writes the counters as one JSON object on a line of its own.
pub fn format_metrics(stats: &Snapshot, timestamp: u64, uptime_secs: u64, final_report: bool) -> (r:
    String)
    ensures
        r@ == metrics_line(*stats, timestamp, uptime_secs, final_report),
{
    let mut out = "{\"timestamp\":".to_owned();
    append_decimal(&mut out, timestamp);
    out.append(",\"uptime_seconds\":");
    append_decimal(&mut out, uptime_secs);
    out.append(",\"final\":");
    if final_report {
        out.append("true");
    } else {
        out.append("false");
    }
    out.append(",\"tap_to_wifi_frames\":");
    append_decimal(&mut out, stats.tap_rx_frames);
    out.append(",\"tap_to_wifi_bytes\":");
    append_decimal(&mut out, stats.tap_rx_bytes);
    out.append(",\"wifi_to_tap_frames\":");
    append_decimal(&mut out, stats.tap_tx_frames);
    out.append(",\"wifi_to_tap_bytes\":");
    append_decimal(&mut out, stats.tap_tx_bytes);
    out.append(",\"tx_retries\":");
    append_decimal(&mut out, stats.tx_retries);
    out.append(",\"rx_retries\":");
    append_decimal(&mut out, stats.rx_retries);
    out.append(",\"endpoint_errors\":");
    append_decimal(&mut out, stats.endpoint_errors);
    out.append(",\"response_mismatches\":");
    append_decimal(&mut out, stats.response_mismatches);
    out.append(",\"tap_errors\":");
    append_decimal(&mut out, stats.tap_errors);
    out.append(",\"reconnects\":");
    append_decimal(&mut out, stats.reconnects);
    out.append("}\n");
    out
}

/// The members of a JSON object on a line of its own: what stands between its braces,
/// at every comma.
pub open spec fn json_members(line: Seq<char>) -> Seq<Seq<char>> {
    crate::scan::fields(line.subrange(1, line.len() - 2), ',')
}

/// Whether a line is a JSON object with a member of this name, in quotes, and this
/// value.
pub open spec fn json_has(line: Seq<char>, name: Seq<char>, value: Seq<char>) -> bool {
    exists|i: int|
        0 <= i < json_members(line).len() && crate::scan::fields(
            #[trigger] json_members(line)[i],
            ':',
        ) == seq![seq!['"'] + name + seq!['"'], value]
}

/// Whether a line is a JSON object with a member of this name that reads as a number.
pub open spec fn json_number(line: Seq<char>, name: Seq<char>, n: u64) -> bool {
    exists|value: Seq<char>|
        #[trigger] json_has(line, name, value) && crate::scan::number(value, u64::MAX as nat)
            == Some(n as nat)
}

/// A member of a JSON object.
spec fn member(name: Seq<char>, value: Seq<char>) -> Seq<char> {
    seq!['"'] + name + seq!['"', ':'] + value
}

/// Whether a text can stand in a member as it is.
spec fn plain(s: Seq<char>) -> bool {
    forall|i: int| 0 <= i < s.len() ==> s[i] != ',' && s[i] != ':'
}

proof fn num_is_plain(n: u64)
    ensures
        plain(num(n)),
        crate::scan::number(num(n), u64::MAX as nat) == Some(n as nat),
{
    crate::scan::decimal_reads_back(n as nat);
    let s = num(n);
    assert forall|i: int| 0 <= i < s.len() implies s[i] != ',' && s[i] != ':' by {
        assert(crate::scan::is_digit(s[i]));
    }
}

proof fn member_reads_back(name: Seq<char>, value: Seq<char>)
    requires
        plain(name),
        plain(value),
    ensures
        !member(name, value).contains(','),
        crate::scan::fields(member(name, value), ':') == seq![seq!['"'] + name + seq!['"'], value],
{
    let quoted = seq!['"'] + name + seq!['"'];
    let text = member(name, value);
    assert(text =~= quoted.push(':') + value);
    assert forall|i: int| 0 <= i < text.len() implies text[i] != ',' by {
        if 1 <= i < 1 + name.len() {
            assert(text[i] == name[i - 1]);
        } else if i >= name.len() + 3 {
            assert(text[i] == value[i - name.len() - 3]);
        }
    }
    assert forall|i: int| 0 <= i < quoted.len() implies quoted[i] != ':' by {
        if 1 <= i < 1 + name.len() {
            assert(quoted[i] == name[i - 1]);
        }
    }
    assert(!value.contains(':'));
    crate::scan::fields_of_one(quoted, ':');
    crate::scan::fields_of_one(value, ':');
    crate::scan::fields_of_both_sides(quoted, ':', value);
    assert(crate::scan::fields(text, ':') =~= seq![quoted, value]);
}

/// One more member of the line: `literal` is the comma, the quoted name and the colon.
proof fn one_more_member(line: Seq<char>, parts: Seq<Seq<char>>, literal: Seq<char>, name: Seq<char>, value: Seq<char>)
    requires
        parts.len() >= 1,
        line == seq!['{'] + crate::scan::joined(parts, ','),
        literal == seq![',', '"'] + name + seq!['"', ':'],
    ensures
        line + literal + value == seq!['{'] + crate::scan::joined(
            parts.push(member(name, value)),
            ',',
        ),
{
    let more = parts.push(member(name, value));
    assert(more.drop_last() =~= parts);
    assert(line + literal + value =~= seq!['{'] + (crate::scan::joined(parts, ',').push(',')
        + member(name, value)));
}

/// The members of the line with the counters.
spec fn line_members(stats: Snapshot, timestamp: u64, uptime_secs: u64, final_report: bool) -> Seq<
    Seq<char>,
> {
    let flag = if final_report {
        "true"@
    } else {
        "false"@
    };
    seq![
        member("timestamp"@, num(timestamp)),
        member("uptime_seconds"@, num(uptime_secs)),
        member("final"@, flag),
        member("tap_to_wifi_frames"@, num(stats.tap_rx_frames)),
        member("tap_to_wifi_bytes"@, num(stats.tap_rx_bytes)),
        member("wifi_to_tap_frames"@, num(stats.tap_tx_frames)),
        member("wifi_to_tap_bytes"@, num(stats.tap_tx_bytes)),
        member("tx_retries"@, num(stats.tx_retries)),
        member("rx_retries"@, num(stats.rx_retries)),
        member("endpoint_errors"@, num(stats.endpoint_errors)),
        member("response_mismatches"@, num(stats.response_mismatches)),
        member("tap_errors"@, num(stats.tap_errors)),
        member("reconnects"@, num(stats.reconnects)),
    ]
}

/// The line is an object with these members.
#[verifier::rlimit(60)]
#[verifier::spinoff_prover]
proof fn the_line_has_its_members(stats: Snapshot, timestamp: u64, uptime_secs: u64, final_report: bool)
    ensures
        ({
            let members = line_members(stats, timestamp, uptime_secs, final_report);
            metrics_line(stats, timestamp, uptime_secs, final_report) == seq!['{']
                + crate::scan::joined(members, ',') + seq!['}', '\n']
        }),
{
    let flag = if final_report {
        "true"@
    } else {
        "false"@
    };
    reveal_strlit("{\"timestamp\":");
    reveal_strlit("}\n");
    reveal_strlit("timestamp");
    reveal_strlit(",\"uptime_seconds\":");
    reveal_strlit("uptime_seconds");
    reveal_strlit(",\"final\":");
    reveal_strlit("final");
    reveal_strlit(",\"tap_to_wifi_frames\":");
    reveal_strlit("tap_to_wifi_frames");
    reveal_strlit(",\"tap_to_wifi_bytes\":");
    reveal_strlit("tap_to_wifi_bytes");
    reveal_strlit(",\"wifi_to_tap_frames\":");
    reveal_strlit("wifi_to_tap_frames");
    reveal_strlit(",\"wifi_to_tap_bytes\":");
    reveal_strlit("wifi_to_tap_bytes");
    reveal_strlit(",\"tx_retries\":");
    reveal_strlit("tx_retries");
    reveal_strlit(",\"rx_retries\":");
    reveal_strlit("rx_retries");
    reveal_strlit(",\"endpoint_errors\":");
    reveal_strlit("endpoint_errors");
    reveal_strlit(",\"response_mismatches\":");
    reveal_strlit("response_mismatches");
    reveal_strlit(",\"tap_errors\":");
    reveal_strlit("tap_errors");
    reveal_strlit(",\"reconnects\":");
    reveal_strlit("reconnects");
    let p0 = seq![member("timestamp"@, num(timestamp))];
    let t0 = "{\"timestamp\":"@ + num(timestamp);
    assert(t0 =~= seq!['{'] + crate::scan::joined(p0, ','));
    assert(",\"uptime_seconds\":"@ =~= seq![',', '"'] + "uptime_seconds"@ + seq!['"', ':']);
    one_more_member(t0, p0, ",\"uptime_seconds\":"@, "uptime_seconds"@, num(uptime_secs));
    let p1 = p0.push(member("uptime_seconds"@, num(uptime_secs)));
    let t1 = t0 + ",\"uptime_seconds\":"@ + num(uptime_secs);
    assert(",\"final\":"@ =~= seq![',', '"'] + "final"@ + seq!['"', ':']);
    one_more_member(t1, p1, ",\"final\":"@, "final"@, flag);
    let p2 = p1.push(member("final"@, flag));
    let t2 = t1 + ",\"final\":"@ + flag;
    assert(",\"tap_to_wifi_frames\":"@ =~= seq![',', '"'] + "tap_to_wifi_frames"@ + seq!['"', ':']);
    one_more_member(t2, p2, ",\"tap_to_wifi_frames\":"@, "tap_to_wifi_frames"@, num(stats.tap_rx_frames));
    let p3 = p2.push(member("tap_to_wifi_frames"@, num(stats.tap_rx_frames)));
    let t3 = t2 + ",\"tap_to_wifi_frames\":"@ + num(stats.tap_rx_frames);
    assert(",\"tap_to_wifi_bytes\":"@ =~= seq![',', '"'] + "tap_to_wifi_bytes"@ + seq!['"', ':']);
    one_more_member(t3, p3, ",\"tap_to_wifi_bytes\":"@, "tap_to_wifi_bytes"@, num(stats.tap_rx_bytes));
    let p4 = p3.push(member("tap_to_wifi_bytes"@, num(stats.tap_rx_bytes)));
    let t4 = t3 + ",\"tap_to_wifi_bytes\":"@ + num(stats.tap_rx_bytes);
    assert(",\"wifi_to_tap_frames\":"@ =~= seq![',', '"'] + "wifi_to_tap_frames"@ + seq!['"', ':']);
    one_more_member(t4, p4, ",\"wifi_to_tap_frames\":"@, "wifi_to_tap_frames"@, num(stats.tap_tx_frames));
    let p5 = p4.push(member("wifi_to_tap_frames"@, num(stats.tap_tx_frames)));
    let t5 = t4 + ",\"wifi_to_tap_frames\":"@ + num(stats.tap_tx_frames);
    assert(",\"wifi_to_tap_bytes\":"@ =~= seq![',', '"'] + "wifi_to_tap_bytes"@ + seq!['"', ':']);
    one_more_member(t5, p5, ",\"wifi_to_tap_bytes\":"@, "wifi_to_tap_bytes"@, num(stats.tap_tx_bytes));
    let p6 = p5.push(member("wifi_to_tap_bytes"@, num(stats.tap_tx_bytes)));
    let t6 = t5 + ",\"wifi_to_tap_bytes\":"@ + num(stats.tap_tx_bytes);
    assert(",\"tx_retries\":"@ =~= seq![',', '"'] + "tx_retries"@ + seq!['"', ':']);
    one_more_member(t6, p6, ",\"tx_retries\":"@, "tx_retries"@, num(stats.tx_retries));
    let p7 = p6.push(member("tx_retries"@, num(stats.tx_retries)));
    let t7 = t6 + ",\"tx_retries\":"@ + num(stats.tx_retries);
    assert(",\"rx_retries\":"@ =~= seq![',', '"'] + "rx_retries"@ + seq!['"', ':']);
    one_more_member(t7, p7, ",\"rx_retries\":"@, "rx_retries"@, num(stats.rx_retries));
    let p8 = p7.push(member("rx_retries"@, num(stats.rx_retries)));
    let t8 = t7 + ",\"rx_retries\":"@ + num(stats.rx_retries);
    assert(",\"endpoint_errors\":"@ =~= seq![',', '"'] + "endpoint_errors"@ + seq!['"', ':']);
    one_more_member(t8, p8, ",\"endpoint_errors\":"@, "endpoint_errors"@, num(stats.endpoint_errors));
    let p9 = p8.push(member("endpoint_errors"@, num(stats.endpoint_errors)));
    let t9 = t8 + ",\"endpoint_errors\":"@ + num(stats.endpoint_errors);
    assert(",\"response_mismatches\":"@ =~= seq![',', '"'] + "response_mismatches"@ + seq!['"', ':']);
    one_more_member(t9, p9, ",\"response_mismatches\":"@, "response_mismatches"@, num(stats.response_mismatches));
    let p10 = p9.push(member("response_mismatches"@, num(stats.response_mismatches)));
    let t10 = t9 + ",\"response_mismatches\":"@ + num(stats.response_mismatches);
    assert(",\"tap_errors\":"@ =~= seq![',', '"'] + "tap_errors"@ + seq!['"', ':']);
    one_more_member(t10, p10, ",\"tap_errors\":"@, "tap_errors"@, num(stats.tap_errors));
    let p11 = p10.push(member("tap_errors"@, num(stats.tap_errors)));
    let t11 = t10 + ",\"tap_errors\":"@ + num(stats.tap_errors);
    assert(",\"reconnects\":"@ =~= seq![',', '"'] + "reconnects"@ + seq!['"', ':']);
    one_more_member(t11, p11, ",\"reconnects\":"@, "reconnects"@, num(stats.reconnects));
    let p12 = p11.push(member("reconnects"@, num(stats.reconnects)));
    let t12 = t11 + ",\"reconnects\":"@ + num(stats.reconnects);
    assert(p12 =~= line_members(stats, timestamp, uptime_secs, final_report));
    assert("}\n"@ =~= seq!['}', '\n']);
}

/// The names of the members hold no separators.
#[verifier::rlimit(60)]
#[verifier::spinoff_prover]
proof fn names_are_plain()
    ensures
        plain("timestamp"@),
        plain("uptime_seconds"@),
        plain("final"@),
        plain("tap_to_wifi_frames"@),
        plain("tap_to_wifi_bytes"@),
        plain("wifi_to_tap_frames"@),
        plain("wifi_to_tap_bytes"@),
        plain("tx_retries"@),
        plain("rx_retries"@),
        plain("endpoint_errors"@),
        plain("response_mismatches"@),
        plain("tap_errors"@),
        plain("reconnects"@),
        plain("true"@),
        plain("false"@),
{
    reveal_strlit("timestamp");
    reveal_strlit("uptime_seconds");
    reveal_strlit("final");
    reveal_strlit("tap_to_wifi_frames");
    reveal_strlit("tap_to_wifi_bytes");
    reveal_strlit("wifi_to_tap_frames");
    reveal_strlit("wifi_to_tap_bytes");
    reveal_strlit("tx_retries");
    reveal_strlit("rx_retries");
    reveal_strlit("endpoint_errors");
    reveal_strlit("response_mismatches");
    reveal_strlit("tap_errors");
    reveal_strlit("reconnects");
    reveal_strlit("true");
    reveal_strlit("false");
}

/// The members of the line come back from between its commas.
#[verifier::rlimit(60)]
#[verifier::spinoff_prover]
proof fn the_line_is_taken_apart(stats: Snapshot, timestamp: u64, uptime_secs: u64, final_report: bool)
    ensures
        ({
            let line = metrics_line(stats, timestamp, uptime_secs, final_report);
            &&& json_members(line) == line_members(stats, timestamp, uptime_secs, final_report)
            &&& line[0] == '{'
            &&& line.subrange(line.len() - 2, line.len() as int) == seq!['}', '\n']
        }),
{
    let line = metrics_line(stats, timestamp, uptime_secs, final_report);
    let members = line_members(stats, timestamp, uptime_secs, final_report);
    let flag = if final_report {
        "true"@
    } else {
        "false"@
    };
    the_line_has_its_members(stats, timestamp, uptime_secs, final_report);
    names_are_plain();
    num_is_plain(timestamp);
    member_reads_back("timestamp"@, num(timestamp));
    num_is_plain(uptime_secs);
    member_reads_back("uptime_seconds"@, num(uptime_secs));
    member_reads_back("final"@, flag);
    num_is_plain(stats.tap_rx_frames);
    member_reads_back("tap_to_wifi_frames"@, num(stats.tap_rx_frames));
    num_is_plain(stats.tap_rx_bytes);
    member_reads_back("tap_to_wifi_bytes"@, num(stats.tap_rx_bytes));
    num_is_plain(stats.tap_tx_frames);
    member_reads_back("wifi_to_tap_frames"@, num(stats.tap_tx_frames));
    num_is_plain(stats.tap_tx_bytes);
    member_reads_back("wifi_to_tap_bytes"@, num(stats.tap_tx_bytes));
    num_is_plain(stats.tx_retries);
    member_reads_back("tx_retries"@, num(stats.tx_retries));
    num_is_plain(stats.rx_retries);
    member_reads_back("rx_retries"@, num(stats.rx_retries));
    num_is_plain(stats.endpoint_errors);
    member_reads_back("endpoint_errors"@, num(stats.endpoint_errors));
    num_is_plain(stats.response_mismatches);
    member_reads_back("response_mismatches"@, num(stats.response_mismatches));
    num_is_plain(stats.tap_errors);
    member_reads_back("tap_errors"@, num(stats.tap_errors));
    num_is_plain(stats.reconnects);
    member_reads_back("reconnects"@, num(stats.reconnects));
    crate::scan::joined_parts_are_the_fields(members, ',');
    let body = crate::scan::joined(members, ',');
    assert(line.subrange(1, line.len() - 2) =~= body);
    assert(line.subrange(line.len() - 2, line.len() as int) =~= seq!['}', '\n']);
}

/// A member of the line is found under its name.
proof fn member_is_found(line: Seq<char>, i: int, name: Seq<char>, value: Seq<char>)
    requires
        0 <= i < json_members(line).len(),
        json_members(line)[i] == member(name, value),
        plain(name),
        plain(value),
    ensures
        json_has(line, name, value),
{
    member_reads_back(name, value);
    assert(crate::scan::fields(json_members(line)[i], ':') == seq![
        seq!['"'] + name + seq!['"'],
        value,
    ]);
}

/// A number in the line is found under its name.
proof fn number_is_found(line: Seq<char>, i: int, name: Seq<char>, n: u64)
    requires
        0 <= i < json_members(line).len(),
        json_members(line)[i] == member(name, num(n)),
        plain(name),
    ensures
        json_number(line, name, n),
{
    num_is_plain(n);
    member_is_found(line, i, name, num(n));
}

/// The line reads back as the counters: it is a JSON object with thirteen members, and
/// each counter stands under its own name. What goes from the TAP interface to the WiFi
/// is what was read from the TAP interface, and what goes from the WiFi to the TAP
/// interface is what was written to it.
#[verifier::rlimit(60)]
#[verifier::spinoff_prover]
pub proof fn the_line_reads_back(stats: Snapshot, timestamp: u64, uptime_secs: u64, final_report: bool)
    ensures
        ({
            let line = metrics_line(stats, timestamp, uptime_secs, final_report);
            &&& line[0] == '{'
            &&& line.subrange(line.len() - 2, line.len() as int) == seq!['}', '\n']
            &&& json_members(line).len() == 13
            &&& json_number(line, "timestamp"@, timestamp)
            &&& json_number(line, "uptime_seconds"@, uptime_secs)
            &&& final_report ==> json_has(line, "final"@, "true"@)
            &&& !final_report ==> json_has(line, "final"@, "false"@)
            &&& json_number(line, "tap_to_wifi_frames"@, stats.tap_rx_frames)
            &&& json_number(line, "tap_to_wifi_bytes"@, stats.tap_rx_bytes)
            &&& json_number(line, "wifi_to_tap_frames"@, stats.tap_tx_frames)
            &&& json_number(line, "wifi_to_tap_bytes"@, stats.tap_tx_bytes)
            &&& json_number(line, "tx_retries"@, stats.tx_retries)
            &&& json_number(line, "rx_retries"@, stats.rx_retries)
            &&& json_number(line, "endpoint_errors"@, stats.endpoint_errors)
            &&& json_number(line, "response_mismatches"@, stats.response_mismatches)
            &&& json_number(line, "tap_errors"@, stats.tap_errors)
            &&& json_number(line, "reconnects"@, stats.reconnects)
        }),
{
    let line = metrics_line(stats, timestamp, uptime_secs, final_report);
    the_line_is_taken_apart(stats, timestamp, uptime_secs, final_report);
    names_are_plain();
    number_is_found(line, 0, "timestamp"@, timestamp);
    number_is_found(line, 1, "uptime_seconds"@, uptime_secs);
    if final_report {
        member_is_found(line, 2, "final"@, "true"@);
    } else {
        member_is_found(line, 2, "final"@, "false"@);
    }
    number_is_found(line, 3, "tap_to_wifi_frames"@, stats.tap_rx_frames);
    number_is_found(line, 4, "tap_to_wifi_bytes"@, stats.tap_rx_bytes);
    number_is_found(line, 5, "wifi_to_tap_frames"@, stats.tap_tx_frames);
    number_is_found(line, 6, "wifi_to_tap_bytes"@, stats.tap_tx_bytes);
    number_is_found(line, 7, "tx_retries"@, stats.tx_retries);
    number_is_found(line, 8, "rx_retries"@, stats.rx_retries);
    number_is_found(line, 9, "endpoint_errors"@, stats.endpoint_errors);
    number_is_found(line, 10, "response_mismatches"@, stats.response_mismatches);
    number_is_found(line, 11, "tap_errors"@, stats.tap_errors);
    number_is_found(line, 12, "reconnects"@, stats.reconnects);
}

/// A report is due every sixty seconds, the first after the first minute, however late
/// those before it were.
pub proof fn a_report_is_due_every_minute(task: ReportTask, now_ms: u64)
    requires
        task.accepts(ReportEvent::Tick, now_ms),
        task.next_ms + 60_000 <= u64::MAX,
    ensures
        ReportTask::begun().next_ms == 60_000,
        now_ms >= task.next_ms,
        task.next(ReportEvent::Tick, now_ms).next_ms == task.next_ms + 60_000,
        !task.next(ReportEvent::Tick, now_ms).stopped,
        task.next(ReportEvent::Cancelled, now_ms).stopped,
        forall|event: ReportEvent, later_ms: u64|
            !task.next(ReportEvent::Cancelled, now_ms).accepts(event, later_ms),
{
}

/// A counter grows by what is added to it, and starts over when it is full.
pub proof fn a_full_counter_starts_over(counter: u64, n: nat)
    ensures
        counter + n <= u64::MAX ==> plus(counter, n) == counter + n,
        plus(u64::MAX, 1) == 0,
        plus(counter, 0) == counter,
{
}

} // verus!
