//! Throughput tests of the link: rates, and the exchange of test frames.
use vstd::prelude::*;
use vstd::string::StringExecFns;

use crate::device::{RxServer, TxServer};
use crate::exchange::TransactionIds;
use crate::icd::{WifiFrame, WifiRxRequest, WifiRxResponse, WifiTransaction, WifiTxResponse};
use crate::scan::{parse_number, same};
use crate::text::append_decimal;

verus! {

/// The length of a test frame.
pub const TEST_FRAME_LEN: usize = 1400;

/// Every byte of the frames that the device sends.
pub const DEVICE_PATTERN: u8 = 0xAB;

/// Every byte of the frames that the host sends.
pub const HOST_PATTERN: u8 = 0xCD;

/// How long a request waits for its response, when nothing else is asked for.
pub const DEFAULT_DEADLINE_MS: u32 = 250;

/// How often the MAC address is asked for before a test.
pub const TEST_MAC_QUERY_RETRIES: u32 = 10;

/// The pause after each failed attempt.
pub const TEST_MAC_QUERY_DELAY_MS: u64 = 500;

/// A rate in kilobits per second: bits by milliseconds, and zero when no time has
/// passed.
pub open spec fn rate(bytes: u64, elapsed_ms: u64) -> int {
    if elapsed_ms == 0 {
        0
    } else {
        bytes * 8 / elapsed_ms as int
    }
}

/// Computes a rate in kilobits per second. The count of bits wraps.
pub fn kbps(bytes: u64, elapsed_ms: u64) -> (r: u64)
    ensures
        r == rate(((bytes * 8) % 0x1_0000_0000_0000_0000 / 8) as u64, elapsed_ms),
        bytes * 8 <= u64::MAX ==> r == rate(bytes, elapsed_ms),
{
    let bits: u64 = bytes.wrapping_mul(8);
    proof {
        assert((bytes * 8) % 0x1_0000_0000_0000_0000 / 8 * 8 == (bytes * 8)
            % 0x1_0000_0000_0000_0000);
    }
    if elapsed_ms == 0 {
        0
    } else {
        bits / elapsed_ms
    }
}

/// Computes a rate in kilobits per second by way of bits per second. The count of
/// millibits wraps.
pub fn kbps_by_second(bytes: u64, elapsed_ms: u64) -> (r: u64)
    ensures
        r == if elapsed_ms == 0 {
            0
        } else {
            (bytes * 8000) % 0x1_0000_0000_0000_0000 / elapsed_ms as int / 1000
        },
{
    if elapsed_ms > 0 {
        let scaled: u64 = bytes.wrapping_mul(8).wrapping_mul(1000);
        proof {
            let wrap = 0x1_0000_0000_0000_0000int;
            vstd::arithmetic::div_mod::lemma_mul_mod_noop_left(bytes * 8, 1000, wrap);
        }
        scaled / elapsed_ms / 1000
    } else {
        0
    }
}

/// Both ways to compute a rate agree while nothing wraps.
pub proof fn rates_agree(bytes: u64, elapsed_ms: u64)
    requires
        bytes * 8000 <= u64::MAX,
        elapsed_ms > 0,
    ensures
        (bytes * 8000) % 0x1_0000_0000_0000_0000 / elapsed_ms as int / 1000 == rate(
            bytes,
            elapsed_ms,
        ),
{
    let bits = bytes * 8;
    let ms = elapsed_ms as int;
    assert(bytes * 8000 == bits * 1000);
    vstd::arithmetic::div_mod::lemma_div_denominator(bits * 1000, ms, 1000);
    vstd::arithmetic::div_mod::lemma_div_denominator(bits * 1000, 1000, ms);
    vstd::arithmetic::mul::lemma_mul_is_commutative(ms, 1000);
    vstd::arithmetic::div_mod::lemma_div_multiples_vanish(bits, 1000);
    vstd::arithmetic::mul::lemma_mul_is_commutative(bits, 1000);
}

/// How often a rate is reported, in microseconds.
pub const RATE_INTERVAL_US: u64 = 5_000_000;

/// Whether a report is due.
pub open spec fn rate_due(last_us: u64, now_us: u64) -> bool {
    crate::test_mode::since(last_us, now_us) > RATE_INTERVAL_US
}

/// What was counted since the last report.
#[derive(Clone, Copy, Debug, PartialEq, Eq, Structural)]
pub struct RateReport {
    pub frames: u64,
    pub bytes: u64,
    pub elapsed_ms: u64,
}

/// Counts frames and bytes between reports.
#[derive(Clone, Copy, Debug, PartialEq, Eq, Structural)]
pub struct RateMeter {
    pub frames: u64,
    pub bytes: u64,
    pub last_us: u64,
}

impl RateMeter {
    /// Nothing has been counted.
    pub open spec fn begun(now_us: u64) -> RateMeter {
        RateMeter { frames: 0, bytes: 0, last_us: now_us }
    }

    /// The meter after a frame of this length.
    pub open spec fn with(self, len: nat) -> RateMeter {
        RateMeter {
            frames: crate::metrics::plus(self.frames, 1),
            bytes: crate::metrics::plus(self.bytes, len),
            ..self
        }
    }

    /// What a report says at a time.
    pub open spec fn report_at(self, now_us: u64) -> RateReport {
        RateReport {
            frames: self.frames,
            bytes: self.bytes,
            elapsed_ms: (crate::test_mode::since(self.last_us, now_us) / 1000) as u64,
        }
    }

    /// Nothing has been counted.
    pub fn new(now_us: u64) -> (r: RateMeter)
        ensures
            r == RateMeter::begun(now_us),
    {
        RateMeter { frames: 0, bytes: 0, last_us: now_us }
    }

    /// Counts a frame. The counters wrap.
    pub fn count(&mut self, len: usize)
        ensures
            *final(self) == old(self).with(len as nat),
    {
        self.frames = self.frames.wrapping_add(1);
        self.bytes = self.bytes.wrapping_add(len as u64);
    }

    /// Reports and starts over when the interval has passed.
    pub fn report(&mut self, now_us: u64) -> (r: Option<RateReport>)
        ensures
            if rate_due(old(self).last_us, now_us) {
                &&& r == Some(old(self).report_at(now_us))
                &&& *final(self) == RateMeter::begun(now_us)
            } else {
                r is None && *final(self) == *old(self)
            },
    {
        let elapsed: u64 = now_us.saturating_sub(self.last_us);
        if elapsed > RATE_INTERVAL_US {
            let report = RateReport {
                frames: self.frames,
                bytes: self.bytes,
                elapsed_ms: elapsed / 1000,
            };
            *self = RateMeter::new(now_us);
            Some(report)
        } else {
            None
        }
    }
}

/// Counts what a test server did between reports. Its counter of frames is half as
/// wide as that of a [`RateMeter`].
#[derive(Clone, Copy, Debug, PartialEq, Eq, Structural)]
pub struct ServerMeter {
    pub frames: u32,
    pub bytes: u64,
    pub last_us: u64,
}

impl ServerMeter {
    /// Nothing has been counted.
    pub open spec fn begun(now_us: u64) -> ServerMeter {
        ServerMeter { frames: 0, bytes: 0, last_us: now_us }
    }

    /// The meter after a request was served: a frame that was new and went out is
    /// counted.
    pub open spec fn after_serving(self, new: bool, sent: bool, len: nat) -> ServerMeter {
        if new && sent {
            ServerMeter {
                frames: ((self.frames + 1) % 0x1_0000_0000) as u32,
                bytes: crate::metrics::plus(self.bytes, len),
                ..self
            }
        } else {
            self
        }
    }

    /// What a report says at a time.
    pub open spec fn report_at(self, now_us: u64) -> RateReport {
        RateReport {
            frames: self.frames as u64,
            bytes: self.bytes,
            elapsed_ms: (crate::test_mode::since(self.last_us, now_us) / 1000) as u64,
        }
    }

    /// Nothing has been counted.
    pub fn new(now_us: u64) -> (r: ServerMeter)
        ensures
            r == ServerMeter::begun(now_us),
    {
        ServerMeter { frames: 0, bytes: 0, last_us: now_us }
    }

    /// Counts what a server did with a request, once it is known whether the response
    /// went out. A repeated request does not count, and neither does a response that
    /// could not be sent. The counters wrap.
    pub fn served(&mut self, new: bool, sent: bool, len: usize)
        ensures
            *final(self) == old(self).after_serving(new, sent, len as nat),
    {
        if new && sent {
            self.frames = self.frames.wrapping_add(1);
            self.bytes = self.bytes.wrapping_add(len as u64);
        }
    }

    /// Reports and starts over when the interval has passed.
    pub fn report(&mut self, now_us: u64) -> (r: Option<RateReport>)
        ensures
            if rate_due(old(self).last_us, now_us) {
                &&& r == Some(old(self).report_at(now_us))
                &&& *final(self) == ServerMeter::begun(now_us)
            } else {
                r is None && *final(self) == *old(self)
            },
    {
        let elapsed: u64 = now_us.saturating_sub(self.last_us);
        if elapsed > RATE_INTERVAL_US {
            let report = RateReport {
                frames: self.frames as u64,
                bytes: self.bytes,
                elapsed_ms: elapsed / 1000,
            };
            *self = ServerMeter::new(now_us);
            Some(report)
        } else {
            None
        }
    }
}

/// Answers a poll in a throughput test: each new poll gets a test frame, a repeated
/// one the same answer again. Returns whether the poll was new.
pub fn serve_test_poll(server: &mut RxServer, request: &WifiRxRequest, frame: &WifiFrame) -> (r: (
    WifiRxResponse,
    bool,
))
    ensures
        r.1 == !crate::device::answered(old(server)@, request.transaction),
        !r.1 ==> r.0@ == old(server)@->0 && final(server)@ == old(server)@,
        r.1 ==> r.0@ == (crate::icd::RxResponseView {
            transaction: request.transaction,
            frame: Some(frame@),
        }) && final(server)@ == Some(r.0@),
{
    match server.repeated(request) {
        Some(response) => (response, false),
        None => (server.respond(request, Some(frame.clone())), true),
    }
}

/// Takes a frame in a throughput test: a new one and a repeated one are both
/// acknowledged. Returns whether the frame was new.
pub fn serve_test_frame(server: &mut TxServer, transaction: WifiTransaction) -> (r: (
    WifiTxResponse,
    bool,
))
    requires
        old(server).pending is None,
    ensures
        r.0.transaction == transaction,
        r.1 == old(server).forwards(transaction),
        *final(server) == if r.1 {
            old(server).taking(transaction).completed()
        } else {
            *old(server)
        },
{
    let repeated = match server.last_completed {
        Some(last) => last == transaction,
        None => false,
    };
    if !repeated {
        server.pending = Some(transaction);
        let _ = server.on_transmitted();
    }
    (WifiTxResponse { transaction }, !repeated)
}

/// The directions that a throughput test uses.
#[derive(Clone, Copy, Debug, PartialEq, Eq, Structural)]
pub enum Mode {
    RxOnly,
    TxOnly,
    Bidir,
}

impl Mode {
    /// The name of a mode.
    pub open spec fn name(self) -> Seq<char> {
        match self {
            Mode::RxOnly => "rx"@,
            Mode::TxOnly => "tx"@,
            Mode::Bidir => "bidir"@,
        }
    }

    /// The name of a mode.
    pub fn as_str(&self) -> (r: &'static str)
        ensures
            r@ == self.name(),
    {
        match self {
            Mode::RxOnly => "rx",
            Mode::TxOnly => "tx",
            Mode::Bidir => "bidir",
        }
    }

    /// The mode with a name.
    pub fn parse(s: &str) -> (r: Option<Mode>)
        ensures
            r matches Some(mode) ==> mode.name() == s@,
            r is None ==> forall|mode: Mode| mode.name() != s@,
    {
        if same(s, "rx") {
            Some(Mode::RxOnly)
        } else if same(s, "tx") {
            Some(Mode::TxOnly)
        } else if same(s, "bidir") {
            Some(Mode::Bidir)
        } else {
            None
        }
    }

    /// Whether the host sends frames.
    pub open spec fn sends(self) -> bool {
        self is TxOnly || self is Bidir
    }

    /// Whether the host asks for frames.
    pub open spec fn asks(self) -> bool {
        self is RxOnly || self is Bidir
    }

    /// Whether the host sends frames.
    pub fn has_tx(&self) -> (r: bool)
        ensures
            r == self.sends(),
    {
        match self {
            Mode::RxOnly => false,
            _ => true,
        }
    }

    /// Whether the host asks for frames.
    pub fn has_rx(&self) -> (r: bool)
        ensures
            r == self.asks(),
    {
        match self {
            Mode::TxOnly => false,
            _ => true,
        }
    }
}

/// No two modes have the same name, so a name is read back as its mode.
pub proof fn mode_names_differ(a: Mode, b: Mode)
    requires
        a.name() == b.name(),
    ensures
        a == b,
{
    reveal_strlit("rx");
    reveal_strlit("tx");
    reveal_strlit("bidir");
    assert("rx"@[0] == 'r' && "tx"@[0] == 't' && "bidir"@[0] == 'b');
}

/// What a throughput test is asked to do.
#[derive(Debug)]
pub struct TestConfig {
    pub port: String,
    pub mode: Mode,
    /// How long to run in seconds; without end when not given.
    pub duration_secs: Option<u32>,
    /// How long a request waits for its response.
    pub deadline_ms: u32,
}

/// Why the arguments of a throughput test are refused.
#[derive(Clone, Copy, Debug, PartialEq, Eq, Structural)]
pub enum TestArgsError {
    /// There is no port.
    Usage,
    /// The mode is not known.
    Mode,
    /// The duration or the deadline is not a number.
    Number,
}

/// The number in an argument.
pub open spec fn number_arg(args: Seq<String>, i: int) -> Option<nat> {
    crate::scan::number(args[i]@, u32::MAX as nat)
}

/// Reads the port and the mode of a test, after the name of the program. What follows
/// them is not looked at.
pub fn parse_port_and_mode(args: &Vec<String>) -> (r: Result<(String, Mode), TestArgsError>)
    ensures
        match r {
            Err(TestArgsError::Usage) => args@.len() < 2,
            Err(TestArgsError::Mode) => args@.len() >= 3 && forall|mode: Mode|
                mode.name() != args@[2]@,
            Err(TestArgsError::Number) => false,
            Ok((port, mode)) => {
                &&& args@.len() >= 2
                &&& port@ == args@[1]@
                &&& mode.name() == if args@.len() >= 3 {
                    args@[2]@
                } else {
                    "bidir"@
                }
            },
        },
{
    if args.len() < 2 {
        return Err(TestArgsError::Usage);
    }
    let mode = if args.len() >= 3 {
        match Mode::parse(args[2].as_str()) {
            Some(mode) => mode,
            None => {
                return Err(TestArgsError::Mode);
            },
        }
    } else {
        Mode::Bidir
    };
    Ok((args[1].clone(), mode))
}

/// Reads the arguments of a throughput test, after the name of the program: the
/// port, and then, each only after the one before it, the mode, the duration in
/// seconds and the deadline of a request in milliseconds.
pub fn parse_test_args(args: &Vec<String>) -> (r: Result<TestConfig, TestArgsError>)
    ensures
        match r {
            Err(TestArgsError::Usage) => args@.len() < 2,
            Err(TestArgsError::Mode) => args@.len() >= 3 && forall|mode: Mode|
                mode.name() != args@[2]@,
            Err(TestArgsError::Number) => {
                &&& args@.len() >= 4
                &&& exists|mode: Mode| mode.name() == args@[2]@
                &&& number_arg(args@, 3) is None || (args@.len() >= 5 && number_arg(args@, 4) is None)
            },
            Ok(config) => {
                &&& args@.len() >= 2
                &&& config.port@ == args@[1]@
                &&& config.mode.name() == if args@.len() >= 3 {
                    args@[2]@
                } else {
                    "bidir"@
                }
                &&& match config.duration_secs {
                    Some(n) => args@.len() >= 4 && number_arg(args@, 3) == Some(n as nat),
                    None => args@.len() < 4,
                }
                &&& if args@.len() >= 5 {
                    number_arg(args@, 4) == Some(config.deadline_ms as nat)
                } else {
                    config.deadline_ms == DEFAULT_DEADLINE_MS
                }
            },
        },
{
    let (port, mode) = match parse_port_and_mode(args) {
        Ok(parsed) => parsed,
        Err(err) => {
            return Err(err);
        },
    };
    let duration_secs: Option<u32> = if args.len() >= 4 {
        match parse_number(args[3].as_str(), u32::MAX) {
            Some(n) => Some(n),
            None => {
                return Err(TestArgsError::Number);
            },
        }
    } else {
        None
    };
    let deadline_ms: u32 = if args.len() >= 5 {
        match parse_number(args[4].as_str(), u32::MAX) {
            Some(n) => n,
            None => {
                return Err(TestArgsError::Number);
            },
        }
    } else {
        DEFAULT_DEADLINE_MS
    };
    Ok(TestConfig { port, mode, duration_secs, deadline_ms })
}

/// How long the host waits at most before it reports again, in milliseconds.
pub const TEST_REPORT_MS: u64 = 5000;

/// How long a test still runs, in milliseconds; nothing for one without an end.
pub open spec fn remaining(duration_secs: Option<u32>, elapsed_ms: u64) -> Option<int> {
    match duration_secs {
        Some(secs) => Some(
            if elapsed_ms < secs * 1000 {
                secs * 1000 - elapsed_ms
            } else {
                0
            },
        ),
        None => None,
    }
}

/// How long to wait before the next report of a test, and whether the test is over.
/// The wait never goes past the end of the test.
pub fn test_pause(duration_secs: Option<u32>, elapsed_ms: u64) -> (r: (u64, bool))
    ensures
        match remaining(duration_secs, elapsed_ms) {
            Some(rest) => {
                &&& r.0 == if rest < TEST_REPORT_MS {
                    rest
                } else {
                    TEST_REPORT_MS as int
                }
                &&& r.1 == (rest == 0)
            },
            None => r == (TEST_REPORT_MS, false),
        },
{
    match duration_secs {
        Some(secs) => {
            let end: u64 = secs as u64 * 1000;
            let rest: u64 = end.saturating_sub(elapsed_ms);
            if rest < TEST_REPORT_MS {
                (rest, rest == 0)
            } else {
                (TEST_REPORT_MS, false)
            }
        },
        None => (TEST_REPORT_MS, false),
    }
}

/// A response that takes at least this long is counted, in microseconds.
pub const SLOW_RESPONSE_US: u64 = 250_000;

/// What a throughput test has counted. The counters wrap.
#[derive(Clone, Copy, Debug, PartialEq, Eq, Structural)]
pub struct TestStats {
    pub rx_frames: u64,
    pub rx_bytes: u64,
    pub tx_frames: u64,
    pub tx_bytes: u64,
    /// Requests that were sent again.
    pub retries: u64,
    /// Responses that did not come in time.
    pub timeouts: u64,
    /// Polls that the link failed to serve.
    pub rx_endpoint_errors: u64,
    /// Frames that the link failed to serve.
    pub tx_endpoint_errors: u64,
    /// Responses to other polls.
    pub rx_mismatches: u64,
    /// Responses to other frames.
    pub tx_mismatches: u64,
    /// Frames that were not the test frame.
    pub payload_errors: u64,
    /// Responses that took long.
    pub slow_responses: u64,
    /// The longest time that the answer to a poll took, in microseconds.
    pub max_rx_latency_us: u64,
    /// The longest time that the answer to a frame took, in microseconds.
    pub max_tx_latency_us: u64,
}

/// The larger of two numbers.
pub open spec fn larger(a: u64, b: u64) -> u64 {
    if a < b {
        b
    } else {
        a
    }
}

/// A time in microseconds as milliseconds with three decimals.
pub open spec fn milliseconds(us: u64) -> Seq<char> {
    let rest = us as int % 1000;
    crate::text::decimal((us / 1000) as nat) + "."@ + seq![
        crate::text::digit(rest / 100),
        crate::text::digit(rest / 10 % 10),
        crate::text::digit(rest % 10),
    ]
}

/// Appends a time in microseconds as milliseconds with three decimals.
fn append_milliseconds(out: &mut String, us: u64)
    ensures
        final(out)@ == old(out)@ + milliseconds(us),
{
    let ghost before = out@;
    append_decimal(out, us / 1000);
    out.append(".");
    let rest: u64 = us % 1000;
    append_decimal(out, rest / 100);
    append_decimal(out, rest / 10 % 10);
    append_decimal(out, rest % 10);
    assert(out@ =~= before + milliseconds(us));
}

/// A line with a number.
pub open spec fn number_line(label: Seq<char>, n: u64) -> Seq<char> {
    label + crate::text::decimal(n as nat) + "\n"@
}

/// Appends a line with a number.
fn append_number_line(out: &mut String, label: &str, n: u64)
    ensures
        final(out)@ == old(out)@ + number_line(label@, n),
{
    let ghost before = out@;
    out.append(label);
    append_decimal(out, n);
    out.append("\n");
    assert(out@ =~= before + number_line(label@, n));
}

/// A line with a time.
pub open spec fn latency_line(label: Seq<char>, us: u64) -> Seq<char> {
    label + milliseconds(us) + " ms\n"@
}

/// Appends a line with a time.
fn append_latency_line(out: &mut String, label: &str, us: u64)
    ensures
        final(out)@ == old(out)@ + latency_line(label@, us),
{
    let ghost before = out@;
    out.append(label);
    append_milliseconds(out, us);
    out.append(" ms\n");
    assert(out@ =~= before + latency_line(label@, us));
}

impl TestStats {
    /// Nothing has been counted.
    pub open spec fn zero() -> TestStats {
        TestStats {
            rx_frames: 0,
            rx_bytes: 0,
            tx_frames: 0,
            tx_bytes: 0,
            retries: 0,
            timeouts: 0,
            rx_endpoint_errors: 0,
            tx_endpoint_errors: 0,
            rx_mismatches: 0,
            tx_mismatches: 0,
            payload_errors: 0,
            slow_responses: 0,
            max_rx_latency_us: 0,
            max_tx_latency_us: 0,
        }
    }

    /// Whether the test has passed.
    pub open spec fn clean(self) -> bool {
        self.retries == 0 && self.timeouts == 0 && self.rx_mismatches == 0 && self.tx_mismatches
            == 0 && self.payload_errors == 0
    }

    /// Whether the test has passed: no retry, no timeout, no mismatched response
    /// and no frame with wrong contents.
    pub fn passed(&self) -> (r: bool)
        ensures
            r == self.clean(),
    {
        self.retries == 0 && self.timeouts == 0 && self.rx_mismatches == 0 && self.tx_mismatches
            == 0 && self.payload_errors == 0
    }

    /// The counts of everything that went wrong or slowly.
    pub open spec fn details(self) -> Seq<char> {
        number_line("RX endpoint errors: "@, self.rx_endpoint_errors) + number_line(
            "TX endpoint errors: "@,
            self.tx_endpoint_errors,
        ) + number_line("RX transaction mismatches: "@, self.rx_mismatches) + number_line(
            "TX transaction mismatches: "@,
            self.tx_mismatches,
        ) + number_line("RX payload-integrity errors: "@, self.payload_errors) + number_line(
            "responses taking at least 250 ms: "@,
            self.slow_responses,
        ) + latency_line("maximum RX response latency: "@, self.max_rx_latency_us) + latency_line(
            "maximum TX response latency: "@,
            self.max_tx_latency_us,
        )
    }

    /// Writes the counts of everything that went wrong or slowly, a line for each.
    pub fn detail_lines(&self) -> (r: String)
        ensures
            r@ == self.details(),
    {
        let mut out = String::new();
        append_number_line(&mut out, "RX endpoint errors: ", self.rx_endpoint_errors);
        assert(out@ =~= number_line("RX endpoint errors: "@, self.rx_endpoint_errors));
        append_number_line(&mut out, "TX endpoint errors: ", self.tx_endpoint_errors);
        append_number_line(&mut out, "RX transaction mismatches: ", self.rx_mismatches);
        append_number_line(&mut out, "TX transaction mismatches: ", self.tx_mismatches);
        append_number_line(&mut out, "RX payload-integrity errors: ", self.payload_errors);
        append_number_line(&mut out, "responses taking at least 250 ms: ", self.slow_responses);
        append_latency_line(&mut out, "maximum RX response latency: ", self.max_rx_latency_us);
        append_latency_line(&mut out, "maximum TX response latency: ", self.max_tx_latency_us);
        out
    }

    /// The final counts.
    pub open spec fn totals(self) -> Seq<char> {
        "FINAL RX: "@ + crate::text::decimal(self.rx_frames as nat) + " frames, "@
            + crate::text::decimal(self.rx_bytes as nat) + " bytes; TX: "@ + crate::text::decimal(
            self.tx_frames as nat,
        ) + " frames, "@ + crate::text::decimal(self.tx_bytes as nat) + " bytes"@
    }

    /// Writes the final counts.
    pub fn final_line(&self) -> (r: String)
        ensures
            r@ == self.totals(),
    {
        let mut out = "FINAL RX: ".to_owned();
        append_decimal(&mut out, self.rx_frames);
        out.append(" frames, ");
        append_decimal(&mut out, self.rx_bytes);
        out.append(" bytes; TX: ");
        append_decimal(&mut out, self.tx_frames);
        out.append(" frames, ");
        append_decimal(&mut out, self.tx_bytes);
        out.append(" bytes");
        out
    }

    /// The line that says whether the test has passed.
    pub fn result_line(&self) -> (r: &'static str)
        ensures
            r@ == if self.clean() {
                "RESULT PASS: zero retries, timeouts, response mismatches, or payload errors"@
            } else {
                "RESULT FAIL: retries, timeouts, response mismatches, or payload errors"@
            },
    {
        if self.passed() {
            "RESULT PASS: zero retries, timeouts, response mismatches, or payload errors"
        } else {
            "RESULT FAIL: retries, timeouts, response mismatches, or payload errors"
        }
    }
}

/// The frame that the device sends in a test.
pub open spec fn device_frame() -> Seq<u8> {
    Seq::new(TEST_FRAME_LEN as nat, |i: int| DEVICE_PATTERN)
}

/// Whether a frame is the one that the device sends in a test.
pub fn is_device_frame(frame: &WifiFrame) -> (r: bool)
    ensures
        r == (frame@ == device_frame()),
{
    let bytes = frame.as_slice();
    if bytes.len() != TEST_FRAME_LEN {
        return false;
    }
    let mut i: usize = 0;
    while i < bytes.len()
        invariant
            bytes@ == frame@,
            bytes@.len() == TEST_FRAME_LEN,
            i <= bytes.len(),
            forall|k: int| 0 <= k < i ==> bytes@[k] == DEVICE_PATTERN,
        decreases bytes.len() - i,
    {
        if bytes[i] != DEVICE_PATTERN {
            assert(device_frame()[i as int] == DEVICE_PATTERN);
            return false;
        }
        i = i + 1;
    }
    assert(frame@ =~= device_frame());
    true
}

/// The outcome of a request.
#[derive(Debug)]
pub enum TestEvent {
    /// A response to a frame.
    TxReply(WifiTransaction),
    /// A response to a poll.
    RxReply(WifiRxResponse),
    /// The link failed to serve the request.
    Failed,
    /// The response did not come in time.
    TimedOut,
}

/// The request to send next.
#[derive(Clone, Copy, Debug, PartialEq, Eq, Structural)]
pub enum TestRequest {
    /// Send the test frame.
    Tx(WifiTransaction),
    /// Ask for a frame.
    Rx(WifiTransaction),
}

/// The host side of a throughput test: in turn a frame and a poll, each repeated
/// until its own response comes.
#[derive(Clone, Copy, Debug, PartialEq, Eq, Structural)]
pub struct ThroughputTest {
    pub mode: Mode,
    pub ids: TransactionIds,
    /// The request in flight.
    pub request: TestRequest,
    /// Frames sent, for the pacing.
    pub frame_count: u32,
    pub stats: TestStats,
}

impl ThroughputTest {
    /// Whether the event can be the outcome of the request in flight.
    pub open spec fn accepts(self, event: TestEvent) -> bool {
        match event {
            TestEvent::TxReply(_) => self.request is Tx,
            TestEvent::RxReply(_) => self.request is Rx,
            _ => true,
        }
    }

    /// Whether the event answers the request in flight.
    pub open spec fn answered_by(self, event: TestEvent) -> bool {
        match (self.request, event) {
            (TestRequest::Tx(t), TestEvent::TxReply(reply)) => reply == t,
            (TestRequest::Rx(t), TestEvent::RxReply(reply)) => reply.transaction == t,
            _ => false,
        }
    }

    /// What is counted. The latency of an answer is the time since its request was
    /// sent.
    pub open spec fn counted(self, event: TestEvent, latency_us: u64) -> TestStats {
        let stats = self.stats;
        let sending = self.request is Tx;
        if self.answered_by(event) {
            let timed = TestStats {
                slow_responses: if latency_us >= SLOW_RESPONSE_US {
                    crate::metrics::plus(stats.slow_responses, 1)
                } else {
                    stats.slow_responses
                },
                max_rx_latency_us: if sending {
                    stats.max_rx_latency_us
                } else {
                    larger(stats.max_rx_latency_us, latency_us)
                },
                max_tx_latency_us: if sending {
                    larger(stats.max_tx_latency_us, latency_us)
                } else {
                    stats.max_tx_latency_us
                },
                ..stats
            };
            match event {
                TestEvent::RxReply(reply) => match reply.frame {
                    Some(frame) => TestStats {
                        rx_frames: crate::metrics::plus(stats.rx_frames, 1),
                        rx_bytes: crate::metrics::plus(stats.rx_bytes, frame@.len()),
                        payload_errors: if frame@ == device_frame() {
                            stats.payload_errors
                        } else {
                            crate::metrics::plus(stats.payload_errors, 1)
                        },
                        ..timed
                    },
                    None => timed,
                },
                _ => TestStats {
                    tx_frames: crate::metrics::plus(stats.tx_frames, 1),
                    tx_bytes: crate::metrics::plus(stats.tx_bytes, TEST_FRAME_LEN as nat),
                    ..timed
                },
            }
        } else {
            let again = TestStats { retries: crate::metrics::plus(stats.retries, 1), ..stats };
            match event {
                TestEvent::TimedOut => TestStats {
                    timeouts: crate::metrics::plus(stats.timeouts, 1),
                    ..again
                },
                TestEvent::Failed if sending => TestStats {
                    tx_endpoint_errors: crate::metrics::plus(stats.tx_endpoint_errors, 1),
                    ..again
                },
                TestEvent::Failed => TestStats {
                    rx_endpoint_errors: crate::metrics::plus(stats.rx_endpoint_errors, 1),
                    ..again
                },
                _ if sending => TestStats {
                    tx_mismatches: crate::metrics::plus(stats.tx_mismatches, 1),
                    ..again
                },
                _ => TestStats {
                    rx_mismatches: crate::metrics::plus(stats.rx_mismatches, 1),
                    ..again
                },
            }
        }
    }

    /// The request that follows an answer: a poll follows a frame, and a frame
    /// follows a poll, as far as the mode has them.
    pub open spec fn following(self) -> TestRequest {
        let transaction = self.ids.upcoming();
        if self.request is Tx && self.mode.asks() {
            TestRequest::Rx(transaction)
        } else if self.mode.sends() {
            TestRequest::Tx(transaction)
        } else {
            TestRequest::Rx(transaction)
        }
    }

    /// The state that follows. An unanswered request stays in flight.
    pub open spec fn next(self, event: TestEvent, latency_us: u64) -> ThroughputTest {
        let stats = self.counted(event, latency_us);
        if self.answered_by(event) {
            ThroughputTest {
                ids: self.ids.after(1),
                request: self.following(),
                frame_count: self.frames_after(event),
                stats,
                ..self
            }
        } else {
            ThroughputTest { stats, ..self }
        }
    }

    /// The frames sent, for the pacing, after an outcome.
    pub open spec fn frames_after(self, event: TestEvent) -> u32 {
        if self.answered_by(event) && self.request is Tx {
            ((self.frame_count + 1) % 0x1_0000_0000) as u32
        } else {
            self.frame_count
        }
    }

    /// Whether a round ends with a pause, so that the device can read: after every
    /// five frames.
    pub open spec fn pauses(self, event: TestEvent) -> bool {
        self.answered_by(event) && self.mode.sends() && (self.request is Rx || !self.mode.asks())
            && self.frames_after(event) % 5 == 0
    }

    /// A test that sends its first request.
    pub fn new(mode: Mode, session: u64) -> (r: ThroughputTest)
        ensures
            r.mode == mode,
            r.ids == (TransactionIds { session, next_id: 0 }).after(1),
            r.request == if mode.sends() {
                TestRequest::Tx(WifiTransaction { session, id: 0 })
            } else {
                TestRequest::Rx(WifiTransaction { session, id: 0 })
            },
            r.frame_count == 0,
            r.stats == TestStats::zero(),
    {
        let mut ids = TransactionIds::new(session);
        let transaction = ids.issue();
        let request = if mode.has_tx() {
            TestRequest::Tx(transaction)
        } else {
            TestRequest::Rx(transaction)
        };
        let stats = TestStats {
            rx_frames: 0,
            rx_bytes: 0,
            tx_frames: 0,
            tx_bytes: 0,
            retries: 0,
            timeouts: 0,
            rx_endpoint_errors: 0,
            tx_endpoint_errors: 0,
            rx_mismatches: 0,
            tx_mismatches: 0,
            payload_errors: 0,
            slow_responses: 0,
            max_rx_latency_us: 0,
            max_tx_latency_us: 0,
        };
        ThroughputTest { mode, ids, request, frame_count: 0, stats }
    }

    /// Takes the outcome of the request in flight, and the time since it was sent;
    /// returns whether to pause before the next one.
    pub fn step(&mut self, event: TestEvent, latency_us: u64) -> (r: bool)
        requires
            old(self).accepts(event),
        ensures
            *final(self) == old(self).next(event, latency_us),
            r == old(self).pauses(event),
    {
        match event {
            TestEvent::TxReply(reply) => self.take_tx_reply(reply, latency_us),
            TestEvent::RxReply(reply) => self.take_rx_reply(reply, latency_us),
            TestEvent::Failed => {
                self.take_failure(Ghost(latency_us));
                false
            },
            TestEvent::TimedOut => {
                self.take_timeout(Ghost(latency_us));
                false
            },
        }
    }

    /// Takes the failure of the link to serve the request.
    fn take_failure(&mut self, Ghost(latency_us): Ghost<u64>)
        ensures
            *final(self) == old(self).next(TestEvent::Failed, latency_us),
    {
        self.stats.retries = self.stats.retries.wrapping_add(1);
        match self.request {
            TestRequest::Tx(_) => {
                self.stats.tx_endpoint_errors = self.stats.tx_endpoint_errors.wrapping_add(1);
            },
            TestRequest::Rx(_) => {
                self.stats.rx_endpoint_errors = self.stats.rx_endpoint_errors.wrapping_add(1);
            },
        }
    }

    /// Takes the lack of a response.
    fn take_timeout(&mut self, Ghost(latency_us): Ghost<u64>)
        ensures
            *final(self) == old(self).next(TestEvent::TimedOut, latency_us),
    {
        self.stats.retries = self.stats.retries.wrapping_add(1);
        self.stats.timeouts = self.stats.timeouts.wrapping_add(1);
    }

    /// Takes the response to a frame.
    fn take_tx_reply(&mut self, reply: WifiTransaction, latency_us: u64) -> (r: bool)
        requires
            old(self).request is Tx,
        ensures
            *final(self) == old(self).next(TestEvent::TxReply(reply), latency_us),
            r == old(self).pauses(TestEvent::TxReply(reply)),
    {
        let matching = match self.request {
            TestRequest::Tx(t) => reply == t,
            TestRequest::Rx(_) => false,
        };
        if !matching {
            self.mismatch(true);
            return false;
        }
        self.time_answer(true, latency_us);
        self.stats.tx_frames = self.stats.tx_frames.wrapping_add(1);
        self.stats.tx_bytes = self.stats.tx_bytes.wrapping_add(TEST_FRAME_LEN as u64);
        self.frame_count = self.frame_count.wrapping_add(1);
        let transaction = self.ids.issue();
        if self.mode.has_rx() {
            self.request = TestRequest::Rx(transaction);
            false
        } else {
            self.request = TestRequest::Tx(transaction);
            self.frame_count % 5 == 0
        }
    }

    /// Takes the response to a poll.
    fn take_rx_reply(&mut self, reply: WifiRxResponse, latency_us: u64) -> (r: bool)
        requires
            old(self).request is Rx,
        ensures
            *final(self) == old(self).next(TestEvent::RxReply(reply), latency_us),
            r == old(self).pauses(TestEvent::RxReply(reply)),
    {
        let matching = match self.request {
            TestRequest::Tx(_) => false,
            TestRequest::Rx(t) => reply.transaction == t,
        };
        if !matching {
            self.mismatch(false);
            return false;
        }
        self.time_answer(false, latency_us);
        if let Some(frame) = &reply.frame {
            self.stats.rx_frames = self.stats.rx_frames.wrapping_add(1);
            self.stats.rx_bytes = self.stats.rx_bytes.wrapping_add(frame.as_slice().len() as u64);
            if !is_device_frame(frame) {
                self.stats.payload_errors = self.stats.payload_errors.wrapping_add(1);
            }
        }
        let transaction = self.ids.issue();
        if self.mode.has_tx() {
            self.request = TestRequest::Tx(transaction);
            self.frame_count % 5 == 0
        } else {
            self.request = TestRequest::Rx(transaction);
            false
        }
    }

    /// Counts how long an answer took.
    fn time_answer(&mut self, sending: bool, latency_us: u64)
        ensures
            *final(self) == (ThroughputTest {
                stats: TestStats {
                    slow_responses: if latency_us >= SLOW_RESPONSE_US {
                        crate::metrics::plus(old(self).stats.slow_responses, 1)
                    } else {
                        old(self).stats.slow_responses
                    },
                    max_rx_latency_us: if sending {
                        old(self).stats.max_rx_latency_us
                    } else {
                        larger(old(self).stats.max_rx_latency_us, latency_us)
                    },
                    max_tx_latency_us: if sending {
                        larger(old(self).stats.max_tx_latency_us, latency_us)
                    } else {
                        old(self).stats.max_tx_latency_us
                    },
                    ..old(self).stats
                },
                ..*old(self)
            }),
    {
        if latency_us >= SLOW_RESPONSE_US {
            self.stats.slow_responses = self.stats.slow_responses.wrapping_add(1);
        }
        if sending {
            if self.stats.max_tx_latency_us < latency_us {
                self.stats.max_tx_latency_us = latency_us;
            }
        } else {
            if self.stats.max_rx_latency_us < latency_us {
                self.stats.max_rx_latency_us = latency_us;
            }
        }
    }

    /// Counts a response to another transaction.
    fn mismatch(&mut self, sending: bool)
        ensures
            *final(self) == (ThroughputTest {
                stats: TestStats {
                    retries: crate::metrics::plus(old(self).stats.retries, 1),
                    rx_mismatches: if sending {
                        old(self).stats.rx_mismatches
                    } else {
                        crate::metrics::plus(old(self).stats.rx_mismatches, 1)
                    },
                    tx_mismatches: if sending {
                        crate::metrics::plus(old(self).stats.tx_mismatches, 1)
                    } else {
                        old(self).stats.tx_mismatches
                    },
                    ..old(self).stats
                },
                ..*old(self)
            }),
    {
        self.stats.retries = self.stats.retries.wrapping_add(1);
        if sending {
            self.stats.tx_mismatches = self.stats.tx_mismatches.wrapping_add(1);
        } else {
            self.stats.rx_mismatches = self.stats.rx_mismatches.wrapping_add(1);
        }
    }
}

/// A test in both directions alternates: after every answered frame comes a poll,
/// and after every answered poll a frame, with a new transaction each.
pub proof fn directions_alternate(test: ThroughputTest, event: TestEvent, latency_us: u64)
    requires
        test.mode is Bidir,
        test.answered_by(event),
    ensures
        test.next(event, latency_us).request is Tx <==> test.request is Rx,
        test.next(event, latency_us).ids == test.ids.after(1),
{
}

/// A test that passes has not sent any request twice: an outcome that does not
/// answer the request in flight shows in the counters, until they wrap.
pub proof fn a_retry_shows(test: ThroughputTest, event: TestEvent, latency_us: u64)
    requires
        test.accepts(event),
        !test.answered_by(event),
        test.stats.retries < u64::MAX,
    ensures
        !test.next(event, latency_us).stats.clean(),
        test.next(event, latency_us).request == test.request,
{
}

/// The test frame of the device: 1400 bytes of the same value.
pub open spec fn is_test_frame(frame: Seq<u8>) -> bool {
    frame.len() == 1400 && forall|i: int| 0 <= i < 1400 ==> #[trigger] frame[i] == 0xABu8
}

/// The frame that a device sends in a test is the test frame, and no other is.
pub proof fn one_test_frame(frame: Seq<u8>)
    ensures
        frame == device_frame() <==> is_test_frame(frame),
{
    if is_test_frame(frame) {
        assert(frame =~= device_frame());
    }
}

/// Whether an outcome is what a perfect link gives for a request: the response to that
/// very request, and when that carries a frame, the test frame.
pub open spec fn flawless(request: TestRequest, event: TestEvent) -> bool {
    match event {
        TestEvent::TxReply(transaction) => request == TestRequest::Tx(transaction),
        TestEvent::RxReply(reply) => request == TestRequest::Rx(reply.transaction) && (
        reply.frame matches Some(frame) ==> is_test_frame(frame@)),
        TestEvent::Failed => false,
        TestEvent::TimedOut => false,
    }
}

/// The test after a sequence of outcomes, each with its latency.
pub open spec fn test_after(test: ThroughputTest, events: Seq<(TestEvent, u64)>) -> ThroughputTest
    decreases events.len(),
{
    if events.len() == 0 {
        test
    } else {
        test_after(test, events.drop_last()).next(events.last().0, events.last().1)
    }
}

/// Whether each outcome can be one of the request in flight.
pub open spec fn test_possible(test: ThroughputTest, events: Seq<(TestEvent, u64)>) -> bool
    decreases events.len(),
{
    events.len() > 0 ==> {
        &&& test_possible(test, events.drop_last())
        &&& test_after(test, events.drop_last()).accepts(events.last().0)
    }
}

/// Whether every outcome of a run is flawless.
pub open spec fn all_flawless(test: ThroughputTest, events: Seq<(TestEvent, u64)>) -> bool
    decreases events.len(),
{
    events.len() > 0 ==> {
        &&& all_flawless(test, events.drop_last())
        &&& flawless(test_after(test, events.drop_last()).request, events.last().0)
    }
}

/// What one outcome does to the counters of failures: a flaw is counted, and nothing
/// else is.
#[verifier::rlimit(60)]
#[verifier::spinoff_prover]
proof fn a_flaw_is_counted(test: ThroughputTest, event: TestEvent, latency_us: u64, n: nat)
    requires
        test.accepts(event),
        n < u64::MAX,
        test.stats.retries <= n,
        test.stats.timeouts <= n,
        test.stats.rx_mismatches <= n,
        test.stats.tx_mismatches <= n,
        test.stats.payload_errors <= n,
    ensures
        ({
            let before = test.stats;
            let after = test.next(event, latency_us).stats;
            let sum = before.retries + before.timeouts + before.rx_mismatches
                + before.tx_mismatches + before.payload_errors;
            let more = after.retries + after.timeouts + after.rx_mismatches + after.tx_mismatches
                + after.payload_errors;
            &&& flawless(test.request, event) ==> more == sum
            &&& !flawless(test.request, event) ==> more > sum
            &&& after.retries <= n + 1 && after.timeouts <= n + 1
            &&& after.rx_mismatches <= n + 1 && after.tx_mismatches <= n + 1
            &&& after.payload_errors <= n + 1
        }),
{
    if let TestEvent::RxReply(reply) = event {
        if let Some(frame) = reply.frame {
            one_test_frame(frame@);
        }
    }
}

#[verifier::rlimit(60)]
#[verifier::spinoff_prover]
proof fn flaws_add_up(test: ThroughputTest, events: Seq<(TestEvent, u64)>)
    requires
        test.stats == TestStats::zero(),
        test_possible(test, events),
        events.len() <= u64::MAX,
    ensures
        ({
            let stats = test_after(test, events).stats;
            let sum = stats.retries + stats.timeouts + stats.rx_mismatches + stats.tx_mismatches
                + stats.payload_errors;
            &&& sum == 0 <==> all_flawless(test, events)
            &&& stats.retries <= events.len() && stats.timeouts <= events.len()
            &&& stats.rx_mismatches <= events.len() && stats.tx_mismatches <= events.len()
            &&& stats.payload_errors <= events.len()
        }),
    decreases events.len(),
{
    if events.len() > 0 {
        let before = events.drop_last();
        flaws_add_up(test, before);
        a_flaw_is_counted(
            test_after(test, before),
            events.last().0,
            events.last().1,
            before.len(),
        );
    }
}

/// A test passes exactly when nothing went wrong in it: every outcome was the response to
/// the request in flight, in time, and every frame that came was the test frame. This is
/// so for every run that is shorter than what the counters hold.
pub proof fn a_test_passes_only_without_flaws(test: ThroughputTest, events: Seq<(TestEvent, u64)>)
    requires
        test.stats == TestStats::zero(),
        test_possible(test, events),
        events.len() <= u64::MAX,
    ensures
        test_after(test, events).stats.clean() <==> all_flawless(test, events),
{
    flaws_add_up(test, events);
}

/// One frame with wrong contents, one timeout, one failure of the link or one response to
/// another request makes a test fail, whatever it had counted before.
#[verifier::rlimit(60)]
#[verifier::spinoff_prover]
pub proof fn one_flaw_fails_the_test(test: ThroughputTest, event: TestEvent, latency_us: u64)
    requires
        test.accepts(event),
        !flawless(test.request, event),
        test.stats.retries < u64::MAX,
        test.stats.payload_errors < u64::MAX,
    ensures
        !test.next(event, latency_us).stats.clean(),
{
    if let TestEvent::RxReply(reply) = event {
        if let Some(frame) = reply.frame {
            one_test_frame(frame@);
        }
    }
}

/// What the counters of traffic and of time say of one outcome. A response to the request
/// in flight counts as a frame in its own direction, with its length; its latency counts
/// in that direction too, and as slow from 250 milliseconds on. Everything else counts as
/// a retry, and each kind of failure in its own counter and direction.
#[verifier::rlimit(60)]
#[verifier::spinoff_prover]
pub proof fn every_outcome_is_counted_as_what_it_is(test: ThroughputTest, event: TestEvent, latency_us: u64)
    requires
        test.accepts(event),
    ensures
        ({
            let before = test.stats;
            let after = test.next(event, latency_us).stats;
            let sent = event matches TestEvent::TxReply(t) && test.request == TestRequest::Tx(t);
            let polled = event matches TestEvent::RxReply(reply) && test.request
                == TestRequest::Rx(reply.transaction);
            let got = event matches TestEvent::RxReply(reply) && test.request
                == TestRequest::Rx(reply.transaction) && reply.frame is Some;
            let one = |holds: bool| if holds { 1int } else { 0 };
            &&& after.tx_frames == (before.tx_frames + one(sent)) % 0x1_0000_0000_0000_0000
            &&& after.tx_bytes == (before.tx_bytes + 1400 * one(sent)) % 0x1_0000_0000_0000_0000
            &&& after.rx_frames == (before.rx_frames + one(got)) % 0x1_0000_0000_0000_0000
            &&& after.rx_bytes == (before.rx_bytes + if got {
                event->RxReply_0.frame->0@.len() as int
            } else {
                0
            }) % 0x1_0000_0000_0000_0000
            &&& after.retries == (before.retries + one(!sent && !polled)) % 0x1_0000_0000_0000_0000
            &&& after.timeouts == (before.timeouts + one(event is TimedOut)) % 0x1_0000_0000_0000_0000
            &&& after.tx_endpoint_errors == (before.tx_endpoint_errors + one(
                event is Failed && test.request is Tx,
            )) % 0x1_0000_0000_0000_0000
            &&& after.rx_endpoint_errors == (before.rx_endpoint_errors + one(
                event is Failed && test.request is Rx,
            )) % 0x1_0000_0000_0000_0000
            &&& after.tx_mismatches == (before.tx_mismatches + one(event is TxReply && !sent))
                % 0x1_0000_0000_0000_0000
            &&& after.rx_mismatches == (before.rx_mismatches + one(event is RxReply && !polled))
                % 0x1_0000_0000_0000_0000
            &&& after.payload_errors == (before.payload_errors + one(
                got && !is_test_frame(event->RxReply_0.frame->0@),
            )) % 0x1_0000_0000_0000_0000
            &&& after.slow_responses == (before.slow_responses + one(
                (sent || polled) && latency_us >= 250_000,
            )) % 0x1_0000_0000_0000_0000
            &&& after.max_tx_latency_us >= before.max_tx_latency_us
            &&& after.max_rx_latency_us >= before.max_rx_latency_us
            &&& sent ==> after.max_tx_latency_us >= latency_us
            &&& polled ==> after.max_rx_latency_us >= latency_us
            &&& after.max_tx_latency_us == before.max_tx_latency_us || (sent
                && after.max_tx_latency_us == latency_us)
            &&& after.max_rx_latency_us == before.max_rx_latency_us || (polled
                && after.max_rx_latency_us == latency_us)
        }),
{
    if let TestEvent::RxReply(reply) = event {
        if let Some(frame) = reply.frame {
            one_test_frame(frame@);
        }
    }
}

/// What is in flight after an outcome. Only the response to the request in flight ends
/// it, and then the next transaction begins: a frame where the test sends and the last
/// request was a poll or nothing is asked for, and otherwise a poll. Every fifth frame is
/// followed by a pause, at the end of the round.
#[verifier::rlimit(60)]
#[verifier::spinoff_prover]
pub proof fn the_next_request_follows_its_answer(test: ThroughputTest, event: TestEvent, latency_us: u64)
    requires
        test.accepts(event),
        test.mode is RxOnly ==> test.request is Rx,
        test.mode is TxOnly ==> test.request is Tx,
    ensures
        ({
            let next = test.next(event, latency_us);
            let answered = match event {
                TestEvent::TxReply(t) => test.request == TestRequest::Tx(t),
                TestEvent::RxReply(reply) => test.request == TestRequest::Rx(reply.transaction),
                _ => false,
            };
            let number = WifiTransaction { session: test.ids.session, id: test.ids.next_id };
            &&& next.mode == test.mode
            &&& next.ids.session == test.ids.session
            &&& !answered ==> next.request == test.request && next.ids == test.ids
                && next.frame_count == test.frame_count && !test.pauses(event)
            &&& answered ==> next.ids.next_id == (test.ids.next_id + 1) % 0x1_0000_0000
            &&& answered && test.mode is RxOnly ==> next.request == TestRequest::Rx(number)
            &&& answered && test.mode is TxOnly ==> next.request == TestRequest::Tx(number)
            &&& answered && test.mode is Bidir && test.request is Tx ==> next.request
                == TestRequest::Rx(number)
            &&& answered && test.mode is Bidir && test.request is Rx ==> next.request
                == TestRequest::Tx(number)
            &&& answered && test.request is Tx ==> next.frame_count == (test.frame_count + 1)
                % 0x1_0000_0000
            &&& answered && test.request is Rx ==> next.frame_count == test.frame_count
            &&& test.pauses(event) ==> next.frame_count % 5 == 0 && next.request is Tx
            &&& answered && next.request is Tx && next.frame_count % 5 == 0 ==> test.pauses(event)
        }),
{
}

/// A rate is the number of whole bits in each millisecond: as many times the duration as
/// goes into the bits. Nothing is transferred in no time.
pub proof fn a_rate_divides_the_bits(bytes: u64, elapsed_ms: u64)
    ensures
        elapsed_ms == 0 ==> rate(bytes, elapsed_ms) == 0,
        elapsed_ms > 0 ==> rate(bytes, elapsed_ms) * elapsed_ms <= bytes * 8 < (rate(
            bytes,
            elapsed_ms,
        ) + 1) * elapsed_ms,
{
    if elapsed_ms > 0 {
        let bits = bytes * 8;
        let ms = elapsed_ms as int;
        vstd::arithmetic::div_mod::lemma_fundamental_div_mod(bits, ms);
        let q = bits / ms;
        assert(q * ms == ms * q) by (nonlinear_arith);
        assert((q + 1) * ms == ms * q + ms) by (nonlinear_arith);
    }
}

/// A timed test ends when its time is over and not before, and the rest of its time is
/// what is missing to its end; a test without a duration has no end.
pub proof fn a_timed_test_has_the_rest_of_its_time(secs: u32, elapsed_ms: u64)
    ensures
        remaining(None, elapsed_ms) is None,
        remaining(Some(secs), elapsed_ms) matches Some(rest) && {
            &&& rest == 0 <==> elapsed_ms >= secs * 1000
            &&& rest > 0 ==> rest + elapsed_ms == secs * 1000
        },
{
}

/// A meter counts each frame with its length, and says how long it has counted; it reports
/// when more than five seconds have passed. A server counts only what was new and was
/// answered.
pub proof fn meters_count_each_frame(meter: RateMeter, server: ServerMeter, len: nat, now_us: u64, new: bool, sent: bool)
    ensures
        ({
            let counted = meter.with(len);
            let served = server.after_serving(new, sent, len);
            &&& counted.frames == (meter.frames + 1) % 0x1_0000_0000_0000_0000
            &&& counted.bytes == (meter.bytes + len) % 0x1_0000_0000_0000_0000
            &&& counted.last_us == meter.last_us
            &&& new && sent ==> served.frames == (server.frames + 1) % 0x1_0000_0000
            &&& new && sent ==> served.bytes == (server.bytes + len) % 0x1_0000_0000_0000_0000
            &&& !new || !sent ==> served == server
            &&& served.last_us == server.last_us
            &&& meter.report_at(now_us).frames == meter.frames
            &&& meter.report_at(now_us).bytes == meter.bytes
            &&& server.report_at(now_us).frames == server.frames
            &&& server.report_at(now_us).bytes == server.bytes
            &&& now_us >= meter.last_us ==> {
                &&& meter.report_at(now_us).elapsed_ms * 1000 <= now_us - meter.last_us
                &&& now_us - meter.last_us < meter.report_at(now_us).elapsed_ms * 1000 + 1000
            }
            &&& now_us >= server.last_us ==> {
                &&& server.report_at(now_us).elapsed_ms * 1000 <= now_us - server.last_us
                &&& now_us - server.last_us < server.report_at(now_us).elapsed_ms * 1000 + 1000
            }
            &&& rate_due(meter.last_us, now_us) <==> now_us > meter.last_us + 5_000_000
            &&& RateMeter::begun(now_us).frames == 0 && RateMeter::begun(now_us).bytes == 0
            &&& ServerMeter::begun(now_us).frames == 0 && ServerMeter::begun(now_us).bytes == 0
            &&& RateMeter::begun(now_us).last_us == now_us
            &&& ServerMeter::begun(now_us).last_us == now_us
        }),
{
}

/// A time in milliseconds reads back: what stands before the dot is the whole
/// milliseconds, and the three digits after it are the microseconds.
#[verifier::rlimit(60)]
#[verifier::spinoff_prover]
pub proof fn milliseconds_read_back(us: u64)
    ensures
        ({
            let parts = crate::scan::fields(milliseconds(us), '.');
            &&& parts.len() == 2
            &&& parts[1].len() == 3
            &&& crate::scan::all_digits(parts[0]) && crate::scan::all_digits(parts[1])
            &&& crate::scan::value(parts[0]) * 1000 + crate::scan::value(parts[1]) == us
        }),
{
    let whole = crate::text::decimal((us / 1000) as nat);
    let rest = us as int % 1000;
    let a = crate::text::digit(rest / 100);
    let b = crate::text::digit(rest / 10 % 10);
    let c = crate::text::digit(rest % 10);
    let part = seq![a, b, c];
    reveal_strlit(".");
    crate::scan::decimal_reads_back((us / 1000) as nat);
    assert(crate::scan::is_digit(a) && crate::scan::is_digit(b) && crate::scan::is_digit(c));
    assert(milliseconds(us) =~= whole.push('.') + part);
    crate::scan::fields_of_one(whole, '.');
    assert forall|k: int| 0 <= k < 3 implies part[k] != '.' by {}
    assert(!part.contains('.'));
    crate::scan::fields_of_one(part, '.');
    crate::scan::fields_of_both_sides(whole, '.', part);
    assert(crate::scan::fields(milliseconds(us), '.') =~= seq![whole, part]);
    assert(part.drop_last() =~= seq![a, b]);
    assert(seq![a, b].drop_last() =~= seq![a]);
    assert(seq![a].drop_last() =~= Seq::<char>::empty());
    reveal_with_fuel(crate::scan::value, 4);
    assert(crate::scan::value(part) == rest / 100 * 100 + rest / 10 % 10 * 10 + rest % 10);
}

/// Whether a text has a line that is made of a label and a number.
pub open spec fn line_says(text: Seq<char>, label: Seq<char>, n: u64) -> bool {
    exists|i: int, digits: Seq<char>|
        #![trigger crate::scan::fields(text, '\n')[i], crate::scan::value(digits)]
        0 <= i < crate::scan::fields(text, '\n').len() && crate::scan::fields(text, '\n')[i]
            == label + digits && crate::scan::all_digits(digits) && crate::scan::value(digits) == n
}

/// Whether a text has a line that is made of a label, a time and its unit.
pub open spec fn line_times(text: Seq<char>, label: Seq<char>, us: u64) -> bool {
    crate::scan::fields(text, '\n').contains(label + milliseconds(us) + " ms"@)
}

/// A text that holds no line end.
spec fn one_line(s: Seq<char>) -> bool {
    !s.contains('\n')
}

proof fn number_is_one_line(label: Seq<char>, n: u64)
    requires
        one_line(label),
    ensures
        one_line(label + crate::text::decimal(n as nat)),
{
    let d = crate::text::decimal(n as nat);
    crate::scan::decimal_reads_back(n as nat);
    let all = label + d;
    assert forall|k: int| 0 <= k < all.len() implies all[k] != '\n' by {
        if k < label.len() {
            assert(label.contains(all[k]) || all[k] == label[k]);
        } else {
            assert(all[k] == d[k - label.len()]);
            assert(crate::scan::is_digit(all[k]));
        }
    }
}

proof fn latency_is_one_line(label: Seq<char>, us: u64)
    requires
        one_line(label),
    ensures
        one_line(label + milliseconds(us) + " ms"@),
{
    reveal_strlit(" ms");
    reveal_strlit(".");
    let ms = milliseconds(us);
    let whole = crate::text::decimal((us / 1000) as nat);
    crate::scan::decimal_reads_back((us / 1000) as nat);
    let all = label + ms + " ms"@;
    assert forall|k: int| 0 <= k < all.len() implies all[k] != '\n' by {
        if k < label.len() {
            assert(all[k] == label[k]);
        } else if k < label.len() + whole.len() {
            assert(all[k] == whole[k - label.len()]);
            assert(crate::scan::is_digit(all[k]));
        }
    }
}

/// The detail lines read back: each count stands in the line of its own label, and so
/// does each time.
#[verifier::rlimit(60)]
#[verifier::spinoff_prover]
pub proof fn the_details_read_back(stats: TestStats)
    ensures
        ({
            let text = stats.details();
            &&& crate::scan::fields(text, '\n').len() == 9
            &&& line_says(text, "RX endpoint errors: "@, stats.rx_endpoint_errors)
            &&& line_says(text, "TX endpoint errors: "@, stats.tx_endpoint_errors)
            &&& line_says(text, "RX transaction mismatches: "@, stats.rx_mismatches)
            &&& line_says(text, "TX transaction mismatches: "@, stats.tx_mismatches)
            &&& line_says(text, "RX payload-integrity errors: "@, stats.payload_errors)
            &&& line_says(text, "responses taking at least 250 ms: "@, stats.slow_responses)
            &&& line_times(text, "maximum RX response latency: "@, stats.max_rx_latency_us)
            &&& line_times(text, "maximum TX response latency: "@, stats.max_tx_latency_us)
        }),
{
    reveal_strlit("\n");
    reveal_strlit(" ms\n");
    reveal_strlit(" ms");
    reveal_strlit("RX endpoint errors: ");
    let l0 = "RX endpoint errors: "@ + crate::text::decimal(stats.rx_endpoint_errors as nat);
    number_is_one_line("RX endpoint errors: "@, stats.rx_endpoint_errors);
    crate::scan::decimal_reads_back(stats.rx_endpoint_errors as nat);
    reveal_strlit("TX endpoint errors: ");
    let l1 = "TX endpoint errors: "@ + crate::text::decimal(stats.tx_endpoint_errors as nat);
    number_is_one_line("TX endpoint errors: "@, stats.tx_endpoint_errors);
    crate::scan::decimal_reads_back(stats.tx_endpoint_errors as nat);
    reveal_strlit("RX transaction mismatches: ");
    let l2 = "RX transaction mismatches: "@ + crate::text::decimal(stats.rx_mismatches as nat);
    number_is_one_line("RX transaction mismatches: "@, stats.rx_mismatches);
    crate::scan::decimal_reads_back(stats.rx_mismatches as nat);
    reveal_strlit("TX transaction mismatches: ");
    let l3 = "TX transaction mismatches: "@ + crate::text::decimal(stats.tx_mismatches as nat);
    number_is_one_line("TX transaction mismatches: "@, stats.tx_mismatches);
    crate::scan::decimal_reads_back(stats.tx_mismatches as nat);
    reveal_strlit("RX payload-integrity errors: ");
    let l4 = "RX payload-integrity errors: "@ + crate::text::decimal(stats.payload_errors as nat);
    number_is_one_line("RX payload-integrity errors: "@, stats.payload_errors);
    crate::scan::decimal_reads_back(stats.payload_errors as nat);
    reveal_strlit("responses taking at least 250 ms: ");
    let l5 = "responses taking at least 250 ms: "@ + crate::text::decimal(stats.slow_responses as nat);
    number_is_one_line("responses taking at least 250 ms: "@, stats.slow_responses);
    crate::scan::decimal_reads_back(stats.slow_responses as nat);
    reveal_strlit("maximum RX response latency: ");
    let l6 = "maximum RX response latency: "@ + milliseconds(stats.max_rx_latency_us) + " ms"@;
    latency_is_one_line("maximum RX response latency: "@, stats.max_rx_latency_us);
    reveal_strlit("maximum TX response latency: ");
    let l7 = "maximum TX response latency: "@ + milliseconds(stats.max_tx_latency_us) + " ms"@;
    latency_is_one_line("maximum TX response latency: "@, stats.max_tx_latency_us);
    let l8 = Seq::<char>::empty();
    let parts = seq![l0, l1, l2, l3, l4, l5, l6, l7, l8];
    assert(one_line(l8));
    crate::scan::joined_parts_are_the_fields(parts, '\n');
    let p0 = seq![l0];
    crate::scan::joined_grows(p0, '\n', l0);
    let t0 = l0.push('\n');
    crate::scan::joined_grows(p0, '\n', l1);
    let p1 = p0.push(l1);
    crate::scan::joined_grows(p1, '\n', l2);
    let p2 = p1.push(l2);
    crate::scan::joined_grows(p2, '\n', l3);
    let p3 = p2.push(l3);
    crate::scan::joined_grows(p3, '\n', l4);
    let p4 = p3.push(l4);
    crate::scan::joined_grows(p4, '\n', l5);
    let p5 = p4.push(l5);
    crate::scan::joined_grows(p5, '\n', l6);
    let p6 = p5.push(l6);
    crate::scan::joined_grows(p6, '\n', l7);
    let p7 = p6.push(l7);
    crate::scan::joined_grows(p7, '\n', l8);
    let p8 = p7.push(l8);
    assert(parts =~= p8);
    let s0 = number_line("RX endpoint errors: "@, stats.rx_endpoint_errors);
    assert(s0 =~= crate::scan::joined(p0, '\n').push('\n'));
    let s1 = s0 + number_line("TX endpoint errors: "@, stats.tx_endpoint_errors);
    assert(s1 =~= crate::scan::joined(p1, '\n').push('\n'));
    let s2 = s1 + number_line("RX transaction mismatches: "@, stats.rx_mismatches);
    assert(s2 =~= crate::scan::joined(p2, '\n').push('\n'));
    let s3 = s2 + number_line("TX transaction mismatches: "@, stats.tx_mismatches);
    assert(s3 =~= crate::scan::joined(p3, '\n').push('\n'));
    let s4 = s3 + number_line("RX payload-integrity errors: "@, stats.payload_errors);
    assert(s4 =~= crate::scan::joined(p4, '\n').push('\n'));
    let s5 = s4 + number_line("responses taking at least 250 ms: "@, stats.slow_responses);
    assert(s5 =~= crate::scan::joined(p5, '\n').push('\n'));
    let s6 = s5 + latency_line("maximum RX response latency: "@, stats.max_rx_latency_us);
    assert(s6 =~= crate::scan::joined(p6, '\n').push('\n'));
    let s7 = s6 + latency_line("maximum TX response latency: "@, stats.max_tx_latency_us);
    assert(s7 =~= crate::scan::joined(p7, '\n').push('\n'));
    let text = stats.details();
    assert(text == s7);
    assert(text =~= crate::scan::joined(p8, '\n'));
    assert(crate::scan::fields(text, '\n') == parts);
    assert(crate::scan::fields(text, '\n')[0] == "RX endpoint errors: "@ + crate::text::decimal(stats.rx_endpoint_errors as nat));
    assert(crate::scan::value(crate::text::decimal(stats.rx_endpoint_errors as nat)) == stats.rx_endpoint_errors);
    assert(crate::scan::fields(text, '\n')[1] == "TX endpoint errors: "@ + crate::text::decimal(stats.tx_endpoint_errors as nat));
    assert(crate::scan::value(crate::text::decimal(stats.tx_endpoint_errors as nat)) == stats.tx_endpoint_errors);
    assert(crate::scan::fields(text, '\n')[2] == "RX transaction mismatches: "@ + crate::text::decimal(stats.rx_mismatches as nat));
    assert(crate::scan::value(crate::text::decimal(stats.rx_mismatches as nat)) == stats.rx_mismatches);
    assert(crate::scan::fields(text, '\n')[3] == "TX transaction mismatches: "@ + crate::text::decimal(stats.tx_mismatches as nat));
    assert(crate::scan::value(crate::text::decimal(stats.tx_mismatches as nat)) == stats.tx_mismatches);
    assert(crate::scan::fields(text, '\n')[4] == "RX payload-integrity errors: "@ + crate::text::decimal(stats.payload_errors as nat));
    assert(crate::scan::value(crate::text::decimal(stats.payload_errors as nat)) == stats.payload_errors);
    assert(crate::scan::fields(text, '\n')[5] == "responses taking at least 250 ms: "@ + crate::text::decimal(stats.slow_responses as nat));
    assert(crate::scan::value(crate::text::decimal(stats.slow_responses as nat)) == stats.slow_responses);
    assert(crate::scan::fields(text, '\n')[6] == l6);
    assert(crate::scan::fields(text, '\n')[7] == l7);
}

/// The final line reads back: of its eleven words, four are the counts of frames and
/// bytes, first of those received and then of those sent.
#[verifier::rlimit(60)]
#[verifier::spinoff_prover]
pub proof fn the_totals_read_back(stats: TestStats)
    ensures
        ({
            let words = crate::scan::fields(stats.totals(), ' ');
            &&& words.len() == 11
            &&& words[1] == "RX:"@ && words[6] == "TX:"@
            &&& words[3] == "frames,"@ && words[5] == "bytes;"@
            &&& words[8] == "frames,"@ && words[10] == "bytes"@
            &&& crate::scan::number(words[2], u64::MAX as nat) == Some(stats.rx_frames as nat)
            &&& crate::scan::number(words[4], u64::MAX as nat) == Some(stats.rx_bytes as nat)
            &&& crate::scan::number(words[7], u64::MAX as nat) == Some(stats.tx_frames as nat)
            &&& crate::scan::number(words[9], u64::MAX as nat) == Some(stats.tx_bytes as nat)
        }),
{
    let a = crate::text::decimal(stats.rx_frames as nat);
    let b = crate::text::decimal(stats.rx_bytes as nat);
    let c = crate::text::decimal(stats.tx_frames as nat);
    let d = crate::text::decimal(stats.tx_bytes as nat);
    crate::scan::decimal_reads_back(stats.rx_frames as nat);
    crate::scan::decimal_reads_back(stats.rx_bytes as nat);
    crate::scan::decimal_reads_back(stats.tx_frames as nat);
    crate::scan::decimal_reads_back(stats.tx_bytes as nat);
    reveal_strlit("FINAL RX: ");
    reveal_strlit(" frames, ");
    reveal_strlit(" bytes; TX: ");
    reveal_strlit(" bytes");
    reveal_strlit("FINAL");
    reveal_strlit("RX:");
    reveal_strlit("frames,");
    reveal_strlit("bytes;");
    reveal_strlit("TX:");
    reveal_strlit("bytes");
    let parts = seq!["FINAL"@, "RX:"@, a, "frames,"@, b, "bytes;"@, "TX:"@, c, "frames,"@, d, "bytes"@];
    assert(forall|i: int| 0 <= i < 11 ==> !(#[trigger] parts[i]).contains(' '));
    crate::scan::joined_parts_are_the_fields(parts, ' ');
    let p0 = seq!["FINAL"@];
    crate::scan::joined_grows(p0, ' ', "FINAL"@);
    crate::scan::joined_grows(p0, ' ', "RX:"@);
    let p1 = p0.push("RX:"@);
    crate::scan::joined_grows(p1, ' ', a);
    let p2 = p1.push(a);
    crate::scan::joined_grows(p2, ' ', "frames,"@);
    let p3 = p2.push("frames,"@);
    crate::scan::joined_grows(p3, ' ', b);
    let p4 = p3.push(b);
    crate::scan::joined_grows(p4, ' ', "bytes;"@);
    let p5 = p4.push("bytes;"@);
    crate::scan::joined_grows(p5, ' ', "TX:"@);
    let p6 = p5.push("TX:"@);
    crate::scan::joined_grows(p6, ' ', c);
    let p7 = p6.push(c);
    crate::scan::joined_grows(p7, ' ', "frames,"@);
    let p8 = p7.push("frames,"@);
    crate::scan::joined_grows(p8, ' ', d);
    let p9 = p8.push(d);
    crate::scan::joined_grows(p9, ' ', "bytes"@);
    let p10 = p9.push("bytes"@);
    assert(parts =~= p10);
    let t1 = "FINAL RX: "@;
    assert(t1 =~= crate::scan::joined(p1, ' ').push(' '));
    let t2 = t1 + a;
    assert(t2 =~= crate::scan::joined(p2, ' '));
    let t3 = t2 + " frames, "@;
    assert(t3 =~= crate::scan::joined(p3, ' ').push(' '));
    let t4 = t3 + b;
    assert(t4 =~= crate::scan::joined(p4, ' '));
    let t6 = t4 + " bytes; TX: "@;
    assert(t6 =~= crate::scan::joined(p6, ' ').push(' '));
    let t7 = t6 + c;
    assert(t7 =~= crate::scan::joined(p7, ' '));
    let t8 = t7 + " frames, "@;
    assert(t8 =~= crate::scan::joined(p8, ' ').push(' '));
    let t9 = t8 + d;
    assert(t9 =~= crate::scan::joined(p9, ' '));
    let t10 = t9 + " bytes"@;
    assert(t10 =~= crate::scan::joined(p10, ' '));
    assert(stats.totals() == t10);
}

/// The names and the directions of the modes: `rx` only asks for frames, `tx` only sends
/// them, and `bidir` does both.
pub proof fn modes_use_their_directions(mode: Mode)
    ensures
        mode.name() == "rx"@ <==> mode is RxOnly,
        mode.name() == "tx"@ <==> mode is TxOnly,
        mode.name() == "bidir"@ <==> mode is Bidir,
        mode.asks() || mode.sends(),
        mode is RxOnly ==> mode.asks() && !mode.sends(),
        mode is TxOnly ==> mode.sends() && !mode.asks(),
        mode is Bidir ==> mode.asks() && mode.sends(),
{
    mode_names_differ(Mode::RxOnly, Mode::RxOnly);
    reveal_strlit("rx");
    reveal_strlit("tx");
    reveal_strlit("bidir");
    assert("rx"@[0] == 'r' && "tx"@[0] == 't' && "bidir"@[0] == 'b');
}

/// The times of a test: it reports every five seconds, a response has a quarter of a second
/// to come, the device has ten attempts to answer, half a second apart; and the two sides
/// fill their frames differently.
pub proof fn a_test_reports_every_five_seconds()
    ensures
        TEST_REPORT_MS == 5 * 1000,
        RATE_INTERVAL_US == 1000 * TEST_REPORT_MS,
        DEFAULT_DEADLINE_MS * 4 == 1000,
        SLOW_RESPONSE_US == 1000 * DEFAULT_DEADLINE_MS,
        TEST_MAC_QUERY_RETRIES * TEST_MAC_QUERY_DELAY_MS == 5000,
        TEST_MAC_QUERY_RETRIES == 10,
        DEVICE_PATTERN == 0xAB && HOST_PATTERN == 0xCD,
        TEST_FRAME_LEN == 1400 && TEST_FRAME_LEN <= crate::icd::MAX_FRAME_SIZE,
{
}

/// The numbers among the arguments are read as they are written, up to the largest that a
/// number of 32 bits holds.
pub proof fn arguments_are_read_as_written(args: Seq<String>, i: int, n: u32)
    requires
        0 <= i < args.len(),
    ensures
        args[i]@ == crate::text::decimal(n as nat) ==> number_arg(args, i) == Some(n as nat),
        number_arg(args, i) matches Some(m) ==> m < 0x1_0000_0000,
        args[i]@.len() == 0 ==> number_arg(args, i) is None,
        args[i]@.len() > 0 && args[i]@[0] == '-' ==> number_arg(args, i) is None,
        number_arg(args, i) == crate::scan::number(args[i]@, 4_294_967_295),
{
    crate::scan::numbers_are_read_by_their_digits(args[i]@, n as nat, u32::MAX as nat);
    if args[i]@.len() == 0 {
        assert(args[i]@ =~= Seq::empty());
    }
}

} // verus!
