//! The device side of the frame exchange: servers that answer a repeated request
//! without repeating its effect, and the pacing of the outgoing USB stream.
use vstd::prelude::*;

use crate::icd::{RxResponseView, WifiFrame, WifiRxRequest, WifiRxResponse, WifiTransaction, WifiTxRequest, WifiTxResponse, frame_view};

verus! {

/// The largest packet on the link.
pub const MAX_PACKET_SIZE: usize = 2048;

/// The size of a full-speed USB packet.
pub const USB_PACKET_SIZE: usize = 64;

/// Accepts one host frame at a time and acknowledges it only after the radio
/// driver has taken it. A transaction that was completed last is acknowledged
/// again without sending its frame a second time.
#[derive(Clone, Copy, Debug, PartialEq, Eq, Structural)]
pub struct TxServer {
    pub last_completed: Option<WifiTransaction>,
    pub pending: Option<WifiTransaction>,
}

/// How a TX request is answered.
#[derive(Debug)]
pub enum TxServerAction {
    /// Hand the frame to the radio, and report when the driver has taken it.
    Forward(WifiFrame),
    /// Acknowledge at once.
    Respond(WifiTxResponse),
}

impl TxServer {
    /// Whether a request of this transaction still has to reach the radio.
    pub open spec fn forwards(self, transaction: WifiTransaction) -> bool {
        self.last_completed != Some(transaction)
    }

    /// The server while the radio works on the frame of `transaction`.
    pub open spec fn taking(self, transaction: WifiTransaction) -> TxServer {
        TxServer { last_completed: self.last_completed, pending: Some(transaction) }
    }

    /// The server after the radio has taken the pending frame.
    pub open spec fn completed(self) -> TxServer {
        TxServer { last_completed: self.pending, pending: None }
    }

    /// A server that has completed nothing.
    pub fn new() -> (r: TxServer)
        ensures
            r == (TxServer { last_completed: None, pending: None }),
    {
        TxServer { last_completed: None, pending: None }
    }

    /// Takes a request.
    pub fn on_request(&mut self, request: WifiTxRequest) -> (r: TxServerAction)
        requires
            old(self).pending is None,
        ensures
            old(self).forwards(request.transaction) ==> r == TxServerAction::Forward(request.frame)
                && *final(self) == old(self).taking(request.transaction),
            !old(self).forwards(request.transaction) ==> r == TxServerAction::Respond(
                WifiTxResponse { transaction: request.transaction },
            ) && *final(self) == *old(self),
    {
        let repeated = match self.last_completed {
            Some(last) => last == request.transaction,
            None => false,
        };
        if repeated {
            TxServerAction::Respond(WifiTxResponse { transaction: request.transaction })
        } else {
            self.pending = Some(request.transaction);
            TxServerAction::Forward(request.frame)
        }
    }

    /// The radio driver has taken the pending frame: acknowledge it.
    pub fn on_transmitted(&mut self) -> (r: WifiTxResponse)
        requires
            old(self).pending is Some,
        ensures
            r == (WifiTxResponse { transaction: old(self).pending->0 }),
            *final(self) == old(self).completed(),
    {
        let transaction = self.pending.unwrap();
        self.last_completed = Some(transaction);
        self.pending = None;
        WifiTxResponse { transaction }
    }
}

/// A server acknowledges a transaction only when its frame is the last one that
/// the radio took.
pub proof fn acknowledged_means_transmitted(server: TxServer, transaction: WifiTransaction)
    ensures
        !server.forwards(transaction) ==> server.last_completed == Some(transaction),
        server.pending == Some(transaction) ==> !server.completed().forwards(transaction),
{
}

/// Answers RX polls. A repeated poll gets the cached response, so that a poll
/// that timed out on the host cannot consume a second frame.
#[derive(Debug)]
pub struct RxServer {
    pub cached: Option<WifiRxResponse>,
}

impl View for RxServer {
    type V = Option<RxResponseView>;

    open spec fn view(&self) -> Option<RxResponseView> {
        match self.cached {
            Some(response) => Some(response@),
            None => None,
        }
    }
}

/// How long a poll waits for a frame when none is queued, in milliseconds.
pub const RX_POLL_WAIT_MS: u64 = 2;

/// Whether a server with this cached response has answered the transaction.
pub open spec fn answered(cached: Option<RxResponseView>, transaction: WifiTransaction) -> bool {
    cached matches Some(response) && response.transaction == transaction
}

impl RxServer {
    /// A server that has answered nothing.
    pub fn new() -> (r: RxServer)
        ensures
            r@ is None,
    {
        RxServer { cached: None }
    }

    /// The cached response, when the poll repeats the last one. Otherwise a frame
    /// has to be looked for.
    pub fn repeated(&self, request: &WifiRxRequest) -> (r: Option<WifiRxResponse>)
        ensures
            r is Some <==> answered(self@, request.transaction),
            r is Some ==> r->0@ == self@->0,
    {
        match &self.cached {
            Some(response) => if response.transaction == request.transaction {
                Some(response.clone())
            } else {
                None
            },
            None => None,
        }
    }

    /// Answers a new poll with what the radio queue gave, and keeps the response.
    pub fn respond(&mut self, request: &WifiRxRequest, frame: Option<WifiFrame>) -> (r:
        WifiRxResponse)
        ensures
            r.transaction == request.transaction,
            r.frame == frame,
            final(self)@ == Some(
                RxResponseView { transaction: request.transaction, frame: frame_view(frame) },
            ),
    {
        let response = WifiRxResponse { transaction: request.transaction, frame };
        self.cached = Some(response.clone());
        response
    }
}

/// The device end of the link.
#[derive(Clone, Copy, Debug, PartialEq, Eq, Structural)]
pub enum DeviceLink {
    /// USB bulk transfers, one packet per slot of the queue.
    UsbBulk,
    /// A byte stream with COBS framing.
    UsbSerialJtag,
}

/// How a send on the link went.
#[derive(Clone, Copy, Debug, PartialEq, Eq, Structural)]
pub enum SendOutcome {
    Sent,
    InterfaceFull,
    Failed,
}

/// What to do after a send.
#[derive(Clone, Copy, Debug, PartialEq, Eq, Structural)]
pub enum SendDecision {
    /// The message is out.
    Done,
    /// Wait until the outgoing queue has room for this many bytes, and send again.
    WaitForSpace(usize),
    /// Give the message up.
    Drop,
}

/// The largest COBS encoding of a message of `len` bytes: one byte of overhead
/// for every started block of 254 bytes, and at least one.
pub open spec fn cobs_bound(len: int) -> int {
    if len == 0 {
        1
    } else {
        len + (len + 253) / 254
    }
}

/// `cobs::max_encoding_length` computes the bound, for lengths whose bound fits.
pub assume_specification[ cobs::max_encoding_length ](source_len: usize) -> (r: usize)
    requires
        cobs_bound(source_len as int) <= usize::MAX,
    ensures
        r == cobs_bound(source_len as int),
;

/// Decides what follows a send. A full queue is temporary: keeping the message
/// saves the host from waiting forever for its acknowledgement.
pub fn after_send(link: DeviceLink, outcome: SendOutcome) -> (r: SendDecision)
    ensures
        r == match outcome {
            SendOutcome::Sent => SendDecision::Done,
            SendOutcome::InterfaceFull => SendDecision::WaitForSpace(
                match link {
                    DeviceLink::UsbBulk => MAX_PACKET_SIZE,
                    DeviceLink::UsbSerialJtag => cobs_bound(MAX_PACKET_SIZE as int) as usize,
                },
            ),
            SendOutcome::Failed => SendDecision::Drop,
        },
{
    match outcome {
        SendOutcome::Sent => SendDecision::Done,
        SendOutcome::InterfaceFull => match link {
            DeviceLink::UsbBulk => SendDecision::WaitForSpace(MAX_PACKET_SIZE),
            DeviceLink::UsbSerialJtag => SendDecision::WaitForSpace(
                cobs::max_encoding_length(MAX_PACKET_SIZE),
            ),
        },
        SendOutcome::Failed => SendDecision::Drop,
    }
}

/// Counts rounds of a busy task and says when to let other tasks run.
#[derive(Clone, Copy, Debug, PartialEq, Eq, Structural)]
pub struct YieldPacer {
    pub count: u32,
    pub every: u32,
}

impl YieldPacer {
    /// A pacer that yields after every `every` rounds.
    pub fn new(every: u32) -> (r: YieldPacer)
        ensures
            r == (YieldPacer { count: 0, every }),
    {
        YieldPacer { count: 0, every }
    }

    /// Counts one round, wrapping. Yields when the count is a multiple of the
    /// period.
    pub fn round(&mut self) -> (r: bool)
        requires
            old(self).every > 0,
        ensures
            final(self).every == old(self).every,
            final(self).count == (old(self).count + 1) % 0x1_0000_0000,
            r == (final(self).count % final(self).every == 0),
    {
        self.count = self.count.wrapping_add(1);
        self.count % self.every == 0
    }
}

/// What follows a write to the USB stream.
#[derive(Clone, Copy, Debug, PartialEq, Eq, Structural)]
pub struct WriteFollowUp {
    /// How many bytes of the outgoing queue are done with.
    pub release: usize,
    /// Whether to send one empty COBS frame.
    pub pad: bool,
}

/// Decides what follows a write of queued bytes. What was written is released;
/// after an error all `len` bytes are dropped. A transfer that filled its last
/// packet is ended with an empty COBS frame, which the receiver ignores and
/// which gives the host a short packet to complete its read.
pub fn after_stream_write(written: Result<usize, ()>, len: usize) -> (r: WriteFollowUp)
    ensures
        r.release == match written {
            Ok(n) => n,
            Err(()) => len,
        },
        r.pad <==> (written matches Ok(n) && n > 0 && n % USB_PACKET_SIZE == 0),
{
    match written {
        Ok(n) => WriteFollowUp { release: n, pad: n > 0 && n % USB_PACKET_SIZE == 0 },
        Err(()) => WriteFollowUp { release: len, pad: false },
    }
}

/// How long a write to the USB stream may take before its bytes are dropped.
pub const SERIAL_TX_TIMEOUT_MS: u64 = 2000;

/// How a write with a time limit went.
#[derive(Clone, Copy, Debug, PartialEq, Eq, Structural)]
pub enum TimedWrite {
    /// This many bytes were written.
    Written(usize),
    /// The write failed.
    Failed,
    /// The host did not read in time.
    TimedOut,
}

/// How many bytes of the outgoing queue are done with after a write with a time
/// limit: what was written, or everything when the bytes are dropped.
pub fn after_timed_write(outcome: TimedWrite, len: usize) -> (r: usize)
    ensures
        r == match outcome {
            TimedWrite::Written(n) => n,
            _ => len,
        },
{
    match outcome {
        TimedWrite::Written(n) => n,
        _ => len,
    }
}

/// A padded transfer always ends in a short packet.
pub proof fn padded_transfer_ends_in_a_short_packet(written: int, pad: bool)
    requires
        written > 0,
        pad <==> written % USB_PACKET_SIZE as int == 0,
    ensures
        (written + if pad {
            1int
        } else {
            0
        }) % USB_PACKET_SIZE as int != 0,
{
}

/// The serial number that the device reports over USB: the sixteen upper-case
/// hexadecimal digits of its id.
pub open spec fn serial_digits(id: u64) -> Seq<u8> {
    Seq::new(16, |i: int| hex_upper_digit(nibble(id, i)))
}

/// The `i`-th hexadecimal digit of a number, counted from the most significant.
pub open spec fn nibble(id: u64, i: int) -> int {
    (id as int / vstd::arithmetic::power::pow(16, (15 - i) as nat)) % 16
}

/// The upper-case hexadecimal digit of a value.
pub open spec fn hex_upper_digit(v: int) -> u8 {
    if v < 10 {
        (0x30 + v) as u8
    } else {
        (0x41 + v - 10) as u8
    }
}

/// Writes the serial number of the device.
pub fn usb_serial_number(id: u64) -> (r: [u8; 16])
    ensures
        r@ == serial_digits(id),
{
    let mut r: [u8; 16] = [0u8; 16];
    let mut rest: u64 = id;
    let mut i: usize = 16;
    proof {
        vstd::arithmetic::power::lemma_pow0(16);
        assert(id as int / vstd::arithmetic::power::pow(16, 0) == id);
    }
    while i > 0
        invariant
            i <= 16,
            rest == id as int / vstd::arithmetic::power::pow(16, (16 - i) as nat),
            forall|k: int| i <= k < 16 ==> r@[k] == hex_upper_digit(nibble(id, k)),
        decreases i,
    {
        let v: u8 = (rest % 16) as u8;
        let digit: u8 = if v < 10 {
            0x30 + v
        } else {
            0x41 + (v - 10)
        };
        proof {
            let p = vstd::arithmetic::power::pow(16, (16 - i) as nat);
            vstd::arithmetic::power::lemma_pow_positive(16, (16 - i) as nat);
            vstd::arithmetic::power::lemma_pow_adds(16, (16 - i) as nat, 1);
            vstd::arithmetic::power::lemma_pow1(16);
            vstd::arithmetic::div_mod::lemma_div_denominator(id as int, p, 16);
        }
        i = i - 1;
        r[i] = digit;
        rest = rest / 16;
    }
    assert(r@ =~= serial_digits(id));
    r
}

/// The number that some upper-case hexadecimal digits write, the most significant first.
pub open spec fn hex_number(digits: Seq<u8>) -> int
    decreases digits.len(),
{
    if digits.len() == 0 {
        0
    } else {
        let c = digits.last();
        hex_number(digits.drop_last()) * 16 + if 0x30 <= c <= 0x39 {
            c - 0x30
        } else {
            c - 0x41 + 10
        }
    }
}

/// The serial number of a device reads back as its id, and is made of sixteen digits, so
/// that no two devices share one.
#[verifier::rlimit(60)]
#[verifier::spinoff_prover]
pub proof fn serial_numbers_read_back(id: u64)
    ensures
        serial_digits(id).len() == 16,
        hex_number(serial_digits(id)) == id,
        forall|i: int|
            0 <= i < 16 ==> {
                let c = #[trigger] serial_digits(id)[i];
                0x30 <= c <= 0x39 || 0x41 <= c <= 0x46
            },
{
    let all = serial_digits(id);
    digits_up_to(id, 16);
    vstd::arithmetic::power::lemma_pow0(16);
    assert(all.take(16) =~= all);
    assert(id as int / 1 == id as int);
}

/// The first digits write the upper part of the id.
#[verifier::rlimit(60)]
#[verifier::spinoff_prover]
proof fn digits_up_to(id: u64, n: int)
    requires
        0 <= n <= 16,
    ensures
        hex_number(serial_digits(id).take(n)) == id as int / vstd::arithmetic::power::pow(
            16,
            (16 - n) as nat,
        ),
    decreases n,
{
    let all = serial_digits(id);
    if n == 0 {
        vstd::arithmetic::power::lemma_pow_adds(16, 8, 8);
        assert(vstd::arithmetic::power::pow(16, 16) == 0x1_0000_0000_0000_0000) by {
            reveal(vstd::arithmetic::power::pow);
            reveal_with_fuel(vstd::arithmetic::power::pow, 17);
        }
        vstd::arithmetic::div_mod::lemma_basic_div(id as int, 0x1_0000_0000_0000_0000);
    } else {
        digits_up_to(id, n - 1);
        assert(all.take(n).drop_last() =~= all.take(n - 1));
        let p = vstd::arithmetic::power::pow(16, (16 - n) as nat);
        vstd::arithmetic::power::lemma_pow_positive(16, (16 - n) as nat);
        vstd::arithmetic::power::lemma_pow_adds(16, (16 - n) as nat, 1);
        vstd::arithmetic::power::lemma_pow1(16);
        vstd::arithmetic::div_mod::lemma_div_denominator(id as int, p, 16);
        let q = id as int / p;
        assert(all.take(n).last() == hex_upper_digit(q % 16));
        assert(q == q / 16 * 16 + q % 16);
    }
}

/// A frame is handed to the radio once: a request is forwarded unless it repeats the one
/// that was completed last, and completing it makes its repetition no new request. What
/// was completed before is then forgotten.
pub proof fn a_completed_request_is_not_forwarded_again(server: TxServer, transaction: WifiTransaction, other: WifiTransaction)
    requires
        transaction != other,
    ensures
        server.last_completed is None ==> server.forwards(transaction),
        server.last_completed == Some(other) ==> server.forwards(transaction)
            && !server.forwards(other),
        !server.taking(transaction).completed().forwards(transaction),
        server.taking(transaction).completed().forwards(other),
        server.taking(transaction).pending == Some(transaction),
        server.taking(transaction).forwards(other) == server.forwards(other),
        server.completed().pending is None,
{
}

/// A poll is answered from the cache exactly when it repeats the one that was answered
/// last.
pub proof fn only_the_last_poll_is_repeated(response: RxResponseView, transaction: WifiTransaction)
    ensures
        !answered(None, transaction),
        answered(Some(response), response.transaction),
        answered(Some(response), transaction) ==> transaction.id == response.transaction.id
            && transaction.session == response.transaction.session,
{
}

/// The sizes and times of the device: a packet holds the largest frame with its
/// transaction, a USB packet has sixty-four bytes, a poll waits for two milliseconds, well
/// within the time after which it is repeated, and a write may take two seconds.
pub proof fn a_poll_waits_less_than_its_repetition()
    ensures
        MAX_PACKET_SIZE == 32 * USB_PACKET_SIZE,
        USB_PACKET_SIZE == 64,
        RX_POLL_WAIT_MS == 2,
        100 * RX_POLL_WAIT_MS < crate::serial_transport::REQUEST_RETRY_TIMEOUT_MS,
        SERIAL_TX_TIMEOUT_MS == 2 * 1000,
        cobs_bound(MAX_PACKET_SIZE as int) == 2057,
{
}

} // verus!
