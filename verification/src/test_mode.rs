//! The test mode: a small network stack on the host in place of the TAP
//! interface, with pings and downloads.
use std::collections::VecDeque;

use smoltcp::phy::ChecksumCapabilities;
use smoltcp::wire::{Icmpv4Message, Icmpv4Packet, Icmpv4Repr};
use vstd::prelude::*;

verus! {

/// One second in nanoseconds.
pub const SECOND_NS: u64 = 1_000_000_000;

/// The identifier of the echo requests.
pub const PING_IDENT: u16 = 1;

/// The data of the echo requests.
pub open spec fn ping_payload() -> Seq<u8> {
    seq![
        0x6c,
        0x61,
        0x6d,
        0x65,
        0x6c,
        0x6c,
        0x61,
        0x20,
        0x70,
        0x69,
        0x6e,
        0x67,
        0x20,
        0x74,
        0x65,
        0x73,
        0x74,
    ]
}

/// A frame that was received, for one use.
#[derive(Debug)]
pub struct ChannelRxToken {
    pub frame: Vec<u8>,
}

impl ChannelRxToken {
    /// Hands the frame to a function and returns what that returns.
    pub fn consume<R, F: FnOnce(&[u8]) -> R>(self, f: F) -> (r: R)
        requires
            forall|bytes: &[u8]| bytes@ == self.frame@ ==> call_requires(f, (bytes,)),
        ensures
            exists|bytes: &[u8]| bytes@ == self.frame@ && #[trigger] call_ensures(f, (bytes,), r),
    {
        let bytes = self.frame.as_slice();
        f(bytes)
    }
}

/// The right to send one frame.
#[derive(Clone, Copy, Debug, PartialEq, Eq, Structural)]
pub struct ChannelTxToken;

/// A frame of this length, all zero.
pub open spec fn zeros(len: usize) -> Seq<u8> {
    Seq::new(len as nat, |i: int| 0u8)
}

impl ChannelTxToken {
    /// The buffer in which a frame of this length is built: all zero.
    fn buffer(&self, len: usize) -> (r: Vec<u8>)
        ensures
            r@ == zeros(len),
    {
        let mut out: Vec<u8> = Vec::new();
        let mut i: usize = 0;
        while i < len
            invariant
                i <= len,
                out@ == zeros(i),
            decreases len - i,
        {
            out.push(0);
            i = i + 1;
            assert(out@ =~= zeros(i));
        }
        out
    }

    /// Lets a function build a frame of this length, which is zero before. Returns
    /// what the function returns, and the frame that is to be sent.
    pub fn consume<R, F: FnOnce(&mut [u8]) -> R>(self, len: usize, f: F) -> (r: (R, Vec<u8>))
        requires
            forall|bytes: &mut [u8]| bytes@ == zeros(len) ==> call_requires(f, (bytes,)),
        ensures
            exists|bytes: &mut [u8]|
                bytes@ == zeros(len) && #[trigger] call_ensures(f, (bytes,), r.0) && final(bytes)@
                    == r.1@,
    {
        let mut buffer = self.buffer(len);
        let bytes = buffer.as_mut_slice();
        let result = f(bytes);
        let ghost lent = choose|b: &mut [u8]|
            b@ == zeros(len) && #[trigger] call_ensures(f, (b,), result) && final(b)@ == buffer@;
        let r = (result, buffer);
        assert(call_ensures(f, (lent,), r.0));
        r
    }
}

/// The frames of a list of byte vectors.
pub open spec fn frames(list: Seq<Vec<u8>>) -> Seq<Seq<u8>> {
    Seq::new(list.len(), |i: int| list[i]@)
}

/// The network device of the stack: a queue of received frames.
#[derive(Debug)]
pub struct ChannelDevice {
    pub rx_queue: VecDeque<Vec<u8>>,
    pub mtu: usize,
}

/// What a network device holds.
#[verifier::ext_equal]
pub struct ChannelDeviceView {
    /// The frames that wait to be received, the oldest first.
    pub waiting: Seq<Seq<u8>>,
    pub mtu: usize,
}

impl ChannelDeviceView {
    /// A device without frames.
    pub open spec fn empty(mtu: usize) -> ChannelDeviceView {
        ChannelDeviceView { waiting: Seq::empty(), mtu }
    }

    /// The device after a frame was queued.
    pub open spec fn with(self, frame: Seq<u8>) -> ChannelDeviceView {
        ChannelDeviceView { waiting: self.waiting.push(frame), ..self }
    }

    /// The device after the oldest frame was received.
    pub open spec fn without_first(self) -> ChannelDeviceView {
        ChannelDeviceView { waiting: self.waiting.drop_first(), ..self }
    }
}

impl View for ChannelDevice {
    type V = ChannelDeviceView;

    open spec fn view(&self) -> ChannelDeviceView {
        ChannelDeviceView { waiting: frames(self.rx_queue@), mtu: self.mtu }
    }
}

impl ChannelDevice {
    /// A device without frames.
    pub fn new(mtu: usize) -> (r: ChannelDevice)
        ensures
            r@ == ChannelDeviceView::empty(mtu),
    {
        let r = ChannelDevice { rx_queue: VecDeque::new(), mtu };
        assert(r@ =~= ChannelDeviceView::empty(mtu));
        r
    }

    /// Queues a received frame, and returns how many wait now.
    pub fn queue(&mut self, frame: Vec<u8>) -> (r: usize)
        ensures
            final(self)@ == old(self)@.with(frame@),
            r == final(self)@.waiting.len(),
    {
        self.rx_queue.push_back(frame);
        assert(self@ =~= old(self)@.with(frame@));
        self.rx_queue.len()
    }

    /// Takes the oldest frame that waits, with the right to send an answer.
    pub fn receive(&mut self) -> (r: Option<(ChannelRxToken, ChannelTxToken)>)
        ensures
            match r {
                Some((token, _)) => {
                    &&& old(self)@.waiting.len() > 0
                    &&& token.frame@ == old(self)@.waiting[0]
                    &&& final(self)@ == old(self)@.without_first()
                },
                None => old(self)@.waiting.len() == 0 && final(self)@ == old(self)@,
            },
    {
        match self.rx_queue.pop_front() {
            Some(frame) => {
                assert(self@ =~= old(self)@.without_first());
                Some((ChannelRxToken { frame }, ChannelTxToken))
            },
            None => None,
        }
    }

    /// The right to send a frame. Sending is always possible.
    pub fn transmit(&self) -> (r: Option<ChannelTxToken>)
        ensures
            r is Some,
    {
        Some(ChannelTxToken)
    }
}

/// What can be done to the device.
pub enum DeviceOp {
    /// Queue this frame.
    Queue(Seq<u8>),
    /// Receive a frame, when one waits.
    Receive,
}

/// A device after some operations, and the frames that were received and queued by
/// them.
pub struct DeviceHistory {
    pub device: ChannelDeviceView,
    pub received: Seq<Seq<u8>>,
    pub queued: Seq<Seq<u8>>,
}

/// What operations on a device without frames do.
pub open spec fn after_ops(mtu: usize, ops: Seq<DeviceOp>) -> DeviceHistory
    decreases ops.len(),
{
    if ops.len() == 0 {
        DeviceHistory {
            device: ChannelDeviceView::empty(mtu),
            received: Seq::empty(),
            queued: Seq::empty(),
        }
    } else {
        let before = after_ops(mtu, ops.drop_last());
        match ops.last() {
            DeviceOp::Queue(frame) => DeviceHistory {
                device: before.device.with(frame),
                queued: before.queued.push(frame),
                ..before
            },
            DeviceOp::Receive => if before.device.waiting.len() == 0 {
                before
            } else {
                DeviceHistory {
                    device: before.device.without_first(),
                    received: before.received.push(before.device.waiting[0]),
                    ..before
                }
            },
        }
    }
}

/// Frames come out of the device in the order in which they went in, each once:
/// what was received, and then what waits, is everything that was queued. The size
/// of the frames that it takes never changes.
pub proof fn the_device_keeps_the_order(mtu: usize, ops: Seq<DeviceOp>)
    ensures
        ({
            let history = after_ops(mtu, ops);
            &&& history.queued == history.received + history.device.waiting
            &&& history.device.mtu == mtu
        }),
    decreases ops.len(),
{
    if ops.len() > 0 {
        the_device_keeps_the_order(mtu, ops.drop_last());
    }
    let history = after_ops(mtu, ops);
    assert(history.queued =~= history.received + history.device.waiting);
}

/// The sum of the 16-bit words of some bytes, each with the high byte first. A last
/// odd byte is a high byte.
pub open spec fn word_sum(bytes: Seq<u8>) -> int
    decreases bytes.len(),
{
    if bytes.len() == 0 {
        0
    } else if bytes.len() == 1 {
        bytes[0] * 256
    } else {
        bytes[0] * 256 + bytes[1] + word_sum(bytes.skip(2))
    }
}

/// Whether bytes are an ICMP echo request: a header of eight bytes with the type,
/// the code, the checksum, the identifier and the sequence number, the last two
/// with the high byte first, and then the data. The checksum is the one number
/// below 65535 that makes the sum of all words a multiple of 65535.
pub open spec fn is_echo_request(bytes: Seq<u8>, ident: u16, seq_no: u16, data: Seq<u8>) -> bool {
    &&& bytes.len() == 8 + data.len()
    &&& bytes[0] == 8
    &&& bytes[1] == 0
    &&& bytes[2] * 256 + bytes[3] < 65535
    &&& bytes[4] == ident / 256
    &&& bytes[5] == ident % 256
    &&& bytes[6] == seq_no / 256
    &&& bytes[7] == seq_no % 256
    &&& bytes.skip(8) == data
    &&& word_sum(bytes) % 65535 == 0
}

/// One number below 65535 completes a sum to a multiple of 65535.
proof fn one_number_completes(sum: int, a: int, b: int)
    requires
        0 <= a < 65535,
        0 <= b < 65535,
        (sum + a) % 65535 == 0,
        (sum + b) % 65535 == 0,
    ensures
        a == b,
{
}

/// There is one echo request with an identifier, a sequence number and data.
pub proof fn echo_requests_are_unique(a: Seq<u8>, b: Seq<u8>, ident: u16, seq_no: u16, data: Seq<u8>)
    requires
        is_echo_request(a, ident, seq_no, data),
        is_echo_request(b, ident, seq_no, data),
    ensures
        a == b,
{
    assert forall|i: int| 4 <= i < a.len() implies a[i] == b[i] by {
        if i >= 8 {
            assert(a[i] == a.skip(8)[i - 8]);
            assert(b[i] == b.skip(8)[i - 8]);
        }
    }
    reveal_with_fuel(word_sum, 3);
    assert(a.skip(2).skip(2) =~= b.skip(2).skip(2));
    let rest = word_sum(a.skip(2).skip(2));
    assert(word_sum(a) == 8 * 256 + rest + (a[2] * 256 + a[3]));
    assert(word_sum(b) == 8 * 256 + rest + (b[2] * 256 + b[3]));
    one_number_completes(8 * 256 + rest, a[2] * 256 + a[3], b[2] * 256 + b[3]);
    assert(a =~= b);
}

/// Builds an echo request with smoltcp's `Icmpv4Repr::emit` and all its checksums
/// computed. The data is small enough for one IPv4 packet.
#[verifier::external_body]
fn emit_echo_request(ident: u16, seq_no: u16, data: &[u8]) -> (r: Vec<u8>)
    requires
        data@.len() <= 65507,
    ensures
        is_echo_request(r@, ident, seq_no, data@),
{
    let repr = Icmpv4Repr::EchoRequest { ident, seq_no, data };
    let mut buffer = vec![0u8; repr.buffer_len()];
    let mut packet = Icmpv4Packet::new_unchecked(&mut buffer);
    repr.emit(&mut packet, &ChecksumCapabilities::default());
    buffer
}

/// Reads the type of an ICMP packet with smoltcp's `Icmpv4Packet::msg_type`, which
/// looks at the first byte: zero is an echo reply.
#[verifier::external_body]
fn is_echo_reply(packet: &[u8]) -> (r: bool)
    requires
        packet@.len() > 0,
    ensures
        r == (packet@[0] == 0),
{
    Icmpv4Packet::new_unchecked(packet).msg_type() == Icmpv4Message::EchoReply
}

/// Builds the ping with a sequence number.
pub fn ping_packet(seq_no: u16) -> (r: Vec<u8>)
    ensures
        is_echo_request(r@, PING_IDENT, seq_no, ping_payload()),
{
    let payload: [u8; 17] = [
        0x6c,
        0x61,
        0x6d,
        0x65,
        0x6c,
        0x6c,
        0x61,
        0x20,
        0x70,
        0x69,
        0x6e,
        0x67,
        0x20,
        0x74,
        0x65,
        0x73,
        0x74,
    ];
    assert(payload@ =~= ping_payload());
    emit_echo_request(PING_IDENT, seq_no, payload.as_slice())
}

/// The sequence number in an echo reply; nothing when the packet is shorter than a
/// header, or of another type.
pub open spec fn reply_number(packet: Seq<u8>) -> Option<u16> {
    if packet.len() >= 8 && packet[0] == 0 {
        Some((packet[6] * 256 + packet[7]) as u16)
    } else {
        None
    }
}

/// Reads the sequence number of an echo reply.
pub fn parse_echo_reply(packet: &[u8]) -> (r: Option<u16>)
    ensures
        r == reply_number(packet@),
{
    if packet.len() >= 8 && is_echo_reply(packet) {
        Some(packet[6] as u16 * 256 + packet[7] as u16)
    } else {
        None
    }
}

/// The answer to a ping is recognised, and the ping itself is not taken for one: a
/// reply has the type of an echo reply in place of that of a request, another
/// checksum, and the rest as it was sent; its sequence number is the one that was
/// sent.
pub proof fn a_reply_carries_the_number_of_its_ping(ping: Seq<u8>, reply: Seq<u8>, ident: u16, seq_no: u16, data: Seq<u8>)
    requires
        is_echo_request(ping, ident, seq_no, data),
        reply.len() == ping.len(),
        reply[0] == 0,
        forall|i: int| 4 <= i < ping.len() ==> reply[i] == ping[i],
    ensures
        reply_number(reply) == Some(seq_no),
        reply_number(ping) is None,
{
    assert(reply[6] == ping[6]);
    assert(reply[7] == ping[7]);
}

/// An IPv4 address.
pub type Ipv4 = [u8; 4];

/// The addresses that are pinged after a configuration: the router, the name
/// servers, and two well-known addresses.
pub open spec fn targets_of(router: Option<Ipv4>, dns: Seq<Ipv4>) -> Seq<Seq<u8>> {
    (match router {
        Some(ip) => seq![ip@],
        None => Seq::empty(),
    }) + addresses(dns) + seq![seq![8u8, 8, 8, 8], seq![1u8, 1, 1, 1]]
}

/// The bytes of a list of addresses.
pub open spec fn addresses(list: Seq<Ipv4>) -> Seq<Seq<u8>> {
    Seq::new(list.len(), |i: int| list[i]@)
}

proof fn addresses_of_push(list: Seq<Ipv4>, ip: Ipv4)
    ensures
        addresses(list.push(ip)) == addresses(list).push(ip@),
{
    assert(addresses(list.push(ip)) =~= addresses(list).push(ip@));
}

/// The time from one moment to another, both in nanoseconds; zero when the second
/// is not later.
pub open spec fn since(earlier: u64, now: u64) -> int {
    if now >= earlier {
        now - earlier
    } else {
        0
    }
}

/// Pings the targets in turn, one at a time.
#[derive(Debug)]
pub struct Pinger {
    /// Whether the stack has an address.
    pub got_ip: bool,
    pub targets: Vec<Ipv4>,
    /// The sequence number of the current or the next ping.
    pub seq: u16,
    /// When the last ping was sent.
    pub last_ns: u64,
    /// Whether the reply to it is still awaited.
    pub awaiting: bool,
}

/// A pinger, with the bytes of its targets.
#[verifier::ext_equal]
pub struct PingerView {
    pub got_ip: bool,
    pub targets: Seq<Seq<u8>>,
    pub seq: u16,
    pub last_ns: u64,
    pub awaiting: bool,
}

impl View for Pinger {
    type V = PingerView;

    open spec fn view(&self) -> PingerView {
        PingerView {
            got_ip: self.got_ip,
            targets: addresses(self.targets@),
            seq: self.seq,
            last_ns: self.last_ns,
            awaiting: self.awaiting,
        }
    }
}

impl PingerView {
    /// A pinger that waits for an address.
    pub open spec fn begun(now_ns: u64) -> PingerView {
        PingerView {
            got_ip: false,
            targets: Seq::empty(),
            seq: 0,
            last_ns: now_ns,
            awaiting: false,
        }
    }

    /// Whether pings are sent at all.
    pub open spec fn active(self) -> bool {
        self.got_ip && self.targets.len() > 0
    }

    /// Whether a ping is due: an interval after the last one, when no reply is
    /// awaited.
    pub open spec fn due_at(self, now_ns: u64) -> bool {
        self.active() && !self.awaiting && since(self.last_ns, now_ns) >= SECOND_NS
    }

    /// The target of the next ping. The targets take turns by the sequence number.
    pub open spec fn target(self) -> Seq<u8> {
        self.targets[self.seq as int % self.targets.len() as int]
    }

    /// The state after a configuration. Its targets are added to those of earlier
    /// ones.
    pub open spec fn configured(self, router: Option<Ipv4>, dns: Seq<Ipv4>) -> PingerView {
        PingerView { got_ip: true, targets: self.targets + targets_of(router, dns), ..self }
    }

    /// The state after the address is lost.
    pub open spec fn deconfigured(self) -> PingerView {
        PingerView { got_ip: false, ..self }
    }

    /// The state after a ping was sent.
    pub open spec fn sent(self, now_ns: u64) -> PingerView {
        PingerView { awaiting: true, last_ns: now_ns, ..self }
    }

    /// The state after the current ping is settled.
    pub open spec fn settled(self) -> PingerView {
        PingerView { awaiting: false, seq: ((self.seq + 1) % 0x1_0000) as u16, ..self }
    }

    /// The state after a packet has come.
    pub open spec fn received(self, packet: Seq<u8>) -> PingerView {
        if reply_number(packet) is Some {
            self.settled()
        } else {
            self
        }
    }

    /// Whether the current ping is given up: after three intervals.
    pub open spec fn gives_up(self, now_ns: u64) -> bool {
        self.awaiting && since(self.last_ns, now_ns) > 3 * SECOND_NS
    }
}

impl Pinger {
    /// Whether pings are sent at all: there is an address, and a target.
    pub fn is_active(&self) -> (r: bool)
        ensures
            r == self@.active(),
    {
        self.got_ip && self.targets.len() > 0
    }

    /// Waits for an address; the first ping is due an interval after `now_ns`.
    pub fn new(now_ns: u64) -> (r: Pinger)
        ensures
            r@ == PingerView::begun(now_ns),
    {
        let r = Pinger {
            got_ip: false,
            targets: Vec::new(),
            seq: 0,
            last_ns: now_ns,
            awaiting: false,
        };
        assert(r@.targets =~= Seq::empty());
        r
    }

    /// Takes a configuration.
    pub fn configured(&mut self, router: Option<Ipv4>, dns: &Vec<Ipv4>)
        ensures
            final(self)@ == old(self)@.configured(router, dns@),
    {
        let ghost before = addresses(self.targets@);
        let ghost first: Seq<Seq<u8>> = match router {
            Some(ip) => seq![ip@],
            None => Seq::empty(),
        };
        if let Some(ip) = router {
            proof {
                addresses_of_push(self.targets@, ip);
            }
            self.targets.push(ip);
        }
        assert(addresses(self.targets@) =~= before + first + addresses(dns@).take(0));
        let mut i: usize = 0;
        while i < dns.len()
            invariant
                i <= dns.len(),
                addresses(self.targets@) == before + first + addresses(dns@).take(i as int),
                self.seq == old(self).seq,
                self.last_ns == old(self).last_ns,
                self.awaiting == old(self).awaiting,
            decreases dns.len() - i,
        {
            proof {
                addresses_of_push(self.targets@, dns@[i as int]);
                assert(addresses(dns@).take(i + 1) =~= addresses(dns@).take(i as int).push(
                    dns@[i as int]@,
                ));
            }
            self.targets.push(dns[i]);
            assert(addresses(self.targets@) =~= before + first + addresses(dns@).take(i + 1));
            i = i + 1;
        }
        let google: Ipv4 = [8, 8, 8, 8];
        let cloudflare: Ipv4 = [1, 1, 1, 1];
        proof {
            addresses_of_push(self.targets@, google);
            addresses_of_push(self.targets@.push(google), cloudflare);
            assert(google@ =~= seq![8u8, 8, 8, 8]);
            assert(cloudflare@ =~= seq![1u8, 1, 1, 1]);
        }
        self.targets.push(google);
        self.targets.push(cloudflare);
        self.got_ip = true;
        proof {
            assert(addresses(dns@).take(dns@.len() as int) =~= addresses(dns@));
            assert(addresses(self.targets@) =~= before + targets_of(router, dns@));
        }
    }

    /// Takes the loss of the address.
    pub fn deconfigured(&mut self)
        ensures
            final(self)@ == old(self)@.deconfigured(),
    {
        self.got_ip = false;
    }

    /// The ping that is due, when one is: its target and its bytes.
    pub fn due(&self, now_ns: u64) -> (r: Option<(Ipv4, Vec<u8>)>)
        ensures
            r is Some <==> self@.due_at(now_ns),
            r matches Some((ip, packet)) ==> ip@ == self@.target() && is_echo_request(
                packet@,
                PING_IDENT,
                self.seq,
                ping_payload(),
            ),
    {
        if self.got_ip && self.targets.len() > 0 && !self.awaiting && now_ns.saturating_sub(
            self.last_ns,
        ) >= SECOND_NS {
            let index: usize = self.seq as usize % self.targets.len();
            Some((self.targets[index], ping_packet(self.seq)))
        } else {
            None
        }
    }

    /// Notes that the ping that was due has been sent.
    pub fn sent(&mut self, now_ns: u64)
        requires
            old(self)@.due_at(now_ns),
        ensures
            final(self)@ == old(self)@.sent(now_ns),
    {
        self.awaiting = true;
        self.last_ns = now_ns;
    }

    /// Takes a packet. An echo reply settles the current ping; returns its sequence
    /// number and the time since the last ping.
    pub fn received(&mut self, packet: &[u8], now_ns: u64) -> (r: Option<(u16, u64)>)
        ensures
            final(self)@ == old(self)@.received(packet@),
            r == match reply_number(packet@) {
                Some(seq) => Some((seq, since(old(self).last_ns, now_ns) as u64)),
                None => None,
            },
    {
        match parse_echo_reply(packet) {
            Some(seq) => {
                self.awaiting = false;
                self.seq = self.seq.wrapping_add(1);
                Some((seq, now_ns.saturating_sub(self.last_ns)))
            },
            None => None,
        }
    }

    /// Gives up on the current ping after three intervals; returns its sequence
    /// number.
    pub fn timed_out(&mut self, now_ns: u64) -> (r: Option<u16>)
        ensures
            old(self)@.gives_up(now_ns) ==> r == Some(old(self).seq) && final(self)@
                == old(self)@.settled(),
            !old(self)@.gives_up(now_ns) ==> r is None && final(self)@ == old(self)@,
    {
        if self.awaiting && now_ns.saturating_sub(self.last_ns) > 3 * SECOND_NS {
            let seq: u16 = self.seq;
            self.awaiting = false;
            self.seq = self.seq.wrapping_add(1);
            Some(seq)
        } else {
            None
        }
    }
}

/// The targets are pinged in turn: a ping that is settled, by a reply or by a
/// timeout, is followed by one to the next target, the first following the last,
/// until the sequence numbers start over.
pub proof fn targets_take_turns(pinger: PingerView)
    requires
        pinger.active(),
        pinger.seq < 0xffff,
    ensures
        ({
            let n = pinger.targets.len() as int;
            let next = pinger.settled();
            &&& !next.awaiting
            &&& next.targets == pinger.targets
            &&& next.seq as int % n == (pinger.seq as int % n + 1) % n
        }),
{
    let n = pinger.targets.len() as int;
    vstd::arithmetic::div_mod::lemma_add_mod_noop(pinger.seq as int, 1, n);
    if n > 1 {
        vstd::arithmetic::div_mod::lemma_small_mod(1, n as nat);
    }
}

/// How far a test has come.
#[derive(Clone, Copy, Debug, PartialEq, Eq, Structural)]
pub enum RunPhase {
    /// It goes on.
    Running,
    /// The program was shut down.
    Cancelled,
    /// What was to be measured was measured.
    Complete,
}

/// The rounds of a test, until it is complete or the program shuts down.
#[derive(Clone, Copy, Debug, PartialEq, Eq, Structural)]
pub struct TestRun {
    pub phase: RunPhase,
}

impl TestRun {
    /// The run after a round begins.
    pub open spec fn round(self, cancelled: bool) -> TestRun {
        if cancelled {
            TestRun { phase: RunPhase::Cancelled }
        } else {
            self
        }
    }

    /// A run before its first round.
    pub fn new() -> (r: TestRun)
        ensures
            r == (TestRun { phase: RunPhase::Running }),
    {
        TestRun { phase: RunPhase::Running }
    }

    /// Begins a round, unless the program is shutting down or the test is complete;
    /// returns whether there is one.
    pub fn begin_round(&mut self, cancelled: bool) -> (r: bool)
        ensures
            old(self).phase is Running ==> *final(self) == old(self).round(cancelled),
            !(old(self).phase is Running) ==> *final(self) == *old(self),
            r == (final(self).phase is Running),
    {
        match self.phase {
            RunPhase::Running => {
                if cancelled {
                    self.phase = RunPhase::Cancelled;
                }
                !cancelled
            },
            _ => false,
        }
    }

    /// Notes that the test is complete.
    pub fn complete(&mut self)
        ensures
            final(self).phase is Complete,
    {
        self.phase = RunPhase::Complete;
    }
}

/// What can happen in a run of pings.
pub enum PingEvent {
    /// A round begins; whether the program is shutting down.
    Round(bool),
    /// The stack was configured with a router and name servers.
    Configured(Option<Ipv4>, Seq<Ipv4>),
    /// The stack lost its address.
    Deconfigured,
    /// A ping with these bytes was sent at a time.
    Sent(Seq<u8>, u64),
    /// A packet has come.
    Received(Seq<u8>),
    /// The current ping was given up at a time.
    GaveUp(u64),
}

/// A run of pings.
pub struct PingHistory {
    pub run: TestRun,
    pub pinger: PingerView,
}

impl PingHistory {
    /// A run that begins at a time.
    pub open spec fn fresh(now_ns: u64) -> PingHistory {
        PingHistory {
            run: TestRun { phase: RunPhase::Running },
            pinger: PingerView::begun(now_ns),
        }
    }

    /// Whether the event can happen next. What is sent is the ping that is due, and
    /// only a ping that is given up is noted as such.
    pub open spec fn possible(self, event: PingEvent) -> bool {
        &&& self.run.phase is Running
        &&& match event {
            PingEvent::Sent(packet, now_ns) => self.pinger.due_at(now_ns) && is_echo_request(
                packet,
                PING_IDENT,
                self.pinger.seq,
                ping_payload(),
            ),
            PingEvent::GaveUp(now_ns) => self.pinger.gives_up(now_ns),
            _ => true,
        }
    }

    /// The run after an event.
    pub open spec fn next(self, event: PingEvent) -> PingHistory {
        match event {
            PingEvent::Round(cancelled) => PingHistory { run: self.run.round(cancelled), ..self },
            PingEvent::Configured(router, dns) => PingHistory {
                pinger: self.pinger.configured(router, dns),
                ..self
            },
            PingEvent::Deconfigured => PingHistory { pinger: self.pinger.deconfigured(), ..self },
            PingEvent::Sent(_, now_ns) => PingHistory { pinger: self.pinger.sent(now_ns), ..self },
            PingEvent::Received(packet) => PingHistory {
                pinger: self.pinger.received(packet),
                ..self
            },
            PingEvent::GaveUp(_) => PingHistory { pinger: self.pinger.settled(), ..self },
        }
    }

    /// The run after a sequence of events.
    pub open spec fn after(self, events: Seq<PingEvent>) -> PingHistory
        decreases events.len(),
    {
        if events.len() == 0 {
            self
        } else {
            self.after(events.drop_last()).next(events.last())
        }
    }

    /// Whether each event of the sequence can happen where it stands.
    pub open spec fn possible_all(self, events: Seq<PingEvent>) -> bool {
        forall|i: int|
            0 <= i < events.len() ==> self.after(events.take(i)).possible(#[trigger] events[i])
    }
}

/// Whether the stack has an address after some events: the last of its
/// configurations and losses was a configuration.
pub open spec fn has_address(events: Seq<PingEvent>) -> bool
    decreases events.len(),
{
    if events.len() == 0 {
        false
    } else {
        match events.last() {
            PingEvent::Configured(_, _) => true,
            PingEvent::Deconfigured => false,
            _ => has_address(events.drop_last()),
        }
    }
}

/// Whether an address is a target of some configuration among the events: its
/// router, one of its name servers, or one of the two well-known addresses.
pub open spec fn is_target(events: Seq<PingEvent>, ip: Seq<u8>) -> bool {
    exists|i: int|
        0 <= i < events.len() && (#[trigger] events[i] matches PingEvent::Configured(router, dns)
            && targets_of(router, dns).contains(ip))
}

/// What holds of a run at every moment.
spec fn run_inv(history: PingHistory, events: Seq<PingEvent>) -> bool {
    &&& history.pinger.got_ip == has_address(events)
    &&& forall|k: int|
        0 <= k < history.pinger.targets.len() ==> is_target(
            events,
            #[trigger] history.pinger.targets[k],
        )
    &&& forall|i: int|
        0 <= i < events.len() ==> (#[trigger] events[i] matches PingEvent::Sent(_, at) ==> at
            <= history.pinger.last_ns)
    &&& history.run.phase is Running || history.run.phase is Cancelled
    &&& history.run.phase is Cancelled ==> events.len() > 0 && events.last()
        == PingEvent::Round(true)
}

proof fn targets_stay(events: Seq<PingEvent>, last: PingEvent, ip: Seq<u8>)
    requires
        is_target(events, ip),
    ensures
        is_target(events.push(last), ip),
{
    let i = choose|i: int|
        0 <= i < events.len() && (#[trigger] events[i] matches PingEvent::Configured(router, dns)
            && targets_of(router, dns).contains(ip));
    assert(events.push(last)[i] == events[i]);
}

proof fn event_keeps_targets(history: PingHistory, events: Seq<PingEvent>, last: PingEvent)
    requires
        run_inv(history, events),
    ensures
        forall|k: int|
            0 <= k < history.next(last).pinger.targets.len() ==> is_target(
                events.push(last),
                #[trigger] history.next(last).pinger.targets[k],
            ),
{
    let post = history.next(last);
    assert forall|k: int| 0 <= k < post.pinger.targets.len() implies is_target(
        events.push(last),
        #[trigger] post.pinger.targets[k],
    ) by {
        let ip = post.pinger.targets[k];
        if k < history.pinger.targets.len() {
            assert(ip == history.pinger.targets[k]);
            targets_stay(events, last, ip);
        } else if let PingEvent::Configured(router, dns) = last {
            assert(targets_of(router, dns)[k - history.pinger.targets.len()] == ip);
            assert(targets_of(router, dns).contains(ip));
            assert(events.push(last)[events.len() as int] == last);
        }
    }
}

proof fn event_keeps_inv(history: PingHistory, events: Seq<PingEvent>, last: PingEvent)
    requires
        run_inv(history, events),
        history.possible(last),
    ensures
        run_inv(history.next(last), events.push(last)),
{
    let post = history.next(last);
    let all = events.push(last);
    event_keeps_targets(history, events, last);
    assert(all.drop_last() =~= events);
    assert(all.last() == last);
    assert(post.pinger.last_ns >= history.pinger.last_ns);
    assert forall|i: int| 0 <= i < all.len() implies (#[trigger] all[i] matches PingEvent::Sent(
        _,
        at,
    ) ==> at <= post.pinger.last_ns) by {
        if i < events.len() {
            assert(events[i] == all[i]);
        }
    }
}

proof fn run_keeps_inv(start_ns: u64, events: Seq<PingEvent>)
    requires
        PingHistory::fresh(start_ns).possible_all(events),
    ensures
        run_inv(PingHistory::fresh(start_ns).after(events), events),
    decreases events.len(),
{
    let start = PingHistory::fresh(start_ns);
    if events.len() > 0 {
        let before = events.drop_last();
        assert(events.take(events.len() - 1) =~= before);
        prefix_is_possible(start_ns, events, before.len() as int);
        run_keeps_inv(start_ns, before);
        let last = events[events.len() - 1];
        assert(start.after(before).possible(last));
        event_keeps_inv(start.after(before), before, last);
        assert(before.push(last) =~= events);
    }
}

proof fn prefix_is_possible(start_ns: u64, events: Seq<PingEvent>, n: int)
    requires
        PingHistory::fresh(start_ns).possible_all(events),
        0 <= n <= events.len(),
    ensures
        PingHistory::fresh(start_ns).possible_all(events.take(n)),
{
    let before = events.take(n);
    assert forall|i: int| 0 <= i < before.len() implies PingHistory::fresh(start_ns).after(
        before.take(i),
    ).possible(#[trigger] before[i]) by {
        assert(before.take(i) =~= events.take(i));
        assert(before[i] == events[i]);
    }
}

/// What is sent in a run of pings, event `k` being a ping and `j` an earlier event:
/// no ping goes out without an address; two of them are at least an interval apart;
/// each is the echo request of the program, and goes to a target of a configuration
/// that came before it.
pub proof fn pings_keep_their_rules(start_ns: u64, events: Seq<PingEvent>, k: int, j: int)
    requires
        PingHistory::fresh(start_ns).possible_all(events),
        0 <= j < k < events.len(),
        events[k] is Sent,
    ensures
        ({
            let before = PingHistory::fresh(start_ns).after(events.take(k));
            let packet = events[k]->Sent_0;
            let now_ns = events[k]->Sent_1;
            &&& has_address(events.take(k))
            &&& is_target(events.take(k), before.pinger.target())
            &&& is_echo_request(packet, PING_IDENT, before.pinger.seq, ping_payload())
            &&& (events[j] matches PingEvent::Sent(_, earlier_ns) ==> now_ns >= earlier_ns
                + SECOND_NS)
        }),
{
    prefix_is_possible(start_ns, events, k);
    run_keeps_inv(start_ns, events.take(k));
    let before = PingHistory::fresh(start_ns).after(events.take(k));
    assert(before.possible(events[k]));
    assert(events.take(k)[j] == events[j]);
    let n = before.pinger.targets.len() as int;
    let index = before.pinger.seq as int % n;
    assert(0 <= index < n);
    assert(before.pinger.target() == before.pinger.targets[index]);
}

/// A run of pings ends with the shutdown, and with nothing else: it is never
/// complete, and after the shutdown nothing happens.
pub proof fn a_run_of_pings_ends_with_the_shutdown(start_ns: u64, events: Seq<PingEvent>)
    requires
        PingHistory::fresh(start_ns).possible_all(events),
    ensures
        ({
            let history = PingHistory::fresh(start_ns).after(events);
            &&& !(history.run.phase is Complete)
            &&& history.run.phase is Cancelled <==> events.len() > 0 && events.last()
                == PingEvent::Round(true)
            &&& history.run.phase is Cancelled ==> forall|event: PingEvent| !history.possible(event)
        }),
{
    run_keeps_inv(start_ns, events);
}

/// A local port for a connection: one of the range for short use, by the time.
pub fn ephemeral_port(now_ms: u128) -> (r: u16)
    ensures
        r == 49152 + now_ms % 16384,
{
    49152u16 + (now_ms % 16384) as u16
}

/// Reports progress every two seconds.
#[derive(Clone, Copy, Debug, PartialEq, Eq, Structural)]
pub struct Reporter {
    pub last_ns: u64,
}

impl Reporter {
    /// Whether a report is due; then the next interval begins.
    pub fn due(&mut self, now_ns: u64) -> (r: bool)
        ensures
            r == (since(old(self).last_ns, now_ns) > 2 * SECOND_NS),
            final(self).last_ns == if r {
                now_ns
            } else {
                old(self).last_ns
            },
    {
        if now_ns.saturating_sub(self.last_ns) > 2 * SECOND_NS {
            self.last_ns = now_ns;
            true
        } else {
            false
        }
    }
}

/// A ping is due one second after the last one, when there is an address and a target and
/// no reply is awaited; it is given up when more than three seconds have passed without
/// one. Either a reply or that settles it, and the next number follows.
pub proof fn pings_keep_their_times(pinger: PingerView, now_ns: u64, packet: Seq<u8>)
    ensures
        pinger.due_at(now_ns) <==> pinger.got_ip && pinger.targets.len() > 0 && !pinger.awaiting
            && now_ns >= pinger.last_ns + 1_000_000_000,
        pinger.active() <==> pinger.got_ip && pinger.targets.len() > 0,
        pinger.gives_up(now_ns) <==> pinger.awaiting && now_ns > pinger.last_ns + 3_000_000_000,
        ({
            let sent = pinger.sent(now_ns);
            &&& sent.awaiting && sent.last_ns == now_ns
            &&& sent.seq == pinger.seq && sent.targets == pinger.targets
            &&& sent.got_ip == pinger.got_ip
        }),
        ({
            let settled = pinger.settled();
            &&& !settled.awaiting
            &&& settled.last_ns == pinger.last_ns && settled.targets == pinger.targets
            &&& settled.got_ip == pinger.got_ip
            &&& pinger.seq < 65535 ==> settled.seq == pinger.seq + 1
            &&& pinger.seq == 65535 ==> settled.seq == 0
        }),
        packet.len() < 8 || packet[0] != 0 ==> pinger.received(packet) == pinger,
        packet.len() >= 8 && packet[0] == 0 ==> pinger.received(packet) == pinger.settled(),
        !PingerView::begun(now_ns).due_at(u64::MAX),
        PingerView::begun(now_ns).last_ns == now_ns && PingerView::begun(now_ns).seq == 0,
        !PingerView::begun(now_ns).awaiting,
{
}

/// A configuration adds its targets after those that are there: the router first, then the
/// name servers in their order, then 8.8.8.8 and 1.1.1.1. The loss of the address keeps
/// the targets, and stops the pings.
#[verifier::rlimit(60)]
#[verifier::spinoff_prover]
pub proof fn a_configuration_adds_its_targets(pinger: PingerView, router: Option<Ipv4>, dns: Seq<Ipv4>, now_ns: u64)
    ensures
        ({
            let after = pinger.configured(router, dns);
            let n = pinger.targets.len() as int;
            let first = if router is Some {
                1int
            } else {
                0
            };
            &&& after.got_ip
            &&& after.seq == pinger.seq && after.last_ns == pinger.last_ns
            &&& after.awaiting == pinger.awaiting
            &&& after.targets.len() == n + first + dns.len() + 2
            &&& forall|i: int| 0 <= i < n ==> #[trigger] after.targets[i] == pinger.targets[i]
            &&& router matches Some(ip) ==> after.targets[n] == ip@
            &&& forall|i: int|
                0 <= i < dns.len() ==> after.targets[n + first + i] == (#[trigger] dns[i])@
            &&& after.targets[n + first + dns.len()] == seq![8u8, 8, 8, 8]
            &&& after.targets[n + first + dns.len() + 1] == seq![1u8, 1, 1, 1]
            &&& pinger.deconfigured().targets == pinger.targets
            &&& !pinger.deconfigured().got_ip
            &&& !pinger.deconfigured().due_at(now_ns)
            &&& pinger.deconfigured().seq == pinger.seq
            &&& pinger.deconfigured().awaiting == pinger.awaiting
            &&& pinger.deconfigured().last_ns == pinger.last_ns
        }),
{
    let after = pinger.configured(router, dns);
    let n = pinger.targets.len() as int;
    let first = if router is Some {
        1int
    } else {
        0
    };
    let added = targets_of(router, dns);
    assert(added.len() == first + dns.len() + 2);
    assert forall|i: int| 0 <= i < dns.len() implies after.targets[n + first + i] == (
    #[trigger] dns[i])@ by {
        assert(added[first + i] == addresses(dns)[i]);
    }
    assert(added[first + dns.len()] == seq![8u8, 8, 8, 8]);
    assert(added[first + dns.len() + 1] == seq![1u8, 1, 1, 1]);
}

/// The target of a ping is the one at the place of its number, and so one of the targets.
pub proof fn a_target_is_found_by_its_number(pinger: PingerView)
    requires
        pinger.targets.len() > 0,
    ensures
        pinger.targets.contains(pinger.target()),
        pinger.seq < pinger.targets.len() ==> pinger.target() == pinger.targets[pinger.seq as int],
        pinger.targets.len() == 1 ==> pinger.target() == pinger.targets[0],
        pinger.seq == pinger.targets.len() ==> pinger.target() == pinger.targets[0],
{
    let n = pinger.targets.len() as int;
    let i = pinger.seq as int % n;
    assert(0 <= i < n);
    assert(pinger.targets[i] == pinger.target());
    if pinger.seq < n {
        vstd::arithmetic::div_mod::lemma_small_mod(pinger.seq as nat, n as nat);
    }
    if pinger.seq == n {
        vstd::arithmetic::div_mod::lemma_mod_self_0(n);
    }
}

/// The data of a ping is a text.
pub proof fn a_ping_carries_a_text()
    ensures
        ping_payload().len() == "lamella ping test"@.len(),
        forall|i: int|
            0 <= i < ping_payload().len() ==> #[trigger] ping_payload()[i] as int
                == "lamella ping test"@[i] as int,
{
    reveal_strlit("lamella ping test");
}

/// A reply is recognised by its type and its length, and its number is that of the last
/// two bytes of its header, the high one first.
pub proof fn a_reply_is_an_echo_reply(packet: Seq<u8>)
    ensures
        reply_number(packet) is Some <==> packet.len() >= 8 && packet[0] == 0,
        reply_number(packet) matches Some(seq) ==> seq / 256 == packet[6] && seq % 256 == packet[7],
{
}

/// A test that runs goes on until the program is shut down, and not beyond.
pub proof fn a_shutdown_stops_a_test(run: TestRun)
    requires
        run.phase is Running,
    ensures
        run.round(true).phase is Cancelled,
        run.round(false).phase is Running,
{
}

/// The time between two moments is what is missing to the later one, and never negative.
pub proof fn time_between_moments(earlier: u64, now: u64)
    ensures
        now >= earlier ==> earlier + since(earlier, now) == now,
        now <= earlier ==> since(earlier, now) == 0,
{
}

/// The device and the pinger are seen as what they are: every frame and every target in its
/// place.
pub proof fn devices_and_pingers_are_seen_as_they_are(device: ChannelDevice, pinger: Pinger)
    ensures
        device@.mtu == device.mtu,
        device@.waiting.len() == device.rx_queue@.len(),
        forall|i: int|
            0 <= i < device.rx_queue@.len() ==> #[trigger] device@.waiting[i]
                == device.rx_queue@[i]@,
        pinger@.got_ip == pinger.got_ip && pinger@.seq == pinger.seq,
        pinger@.last_ns == pinger.last_ns && pinger@.awaiting == pinger.awaiting,
        pinger@.targets.len() == pinger.targets@.len(),
        forall|i: int|
            0 <= i < pinger.targets@.len() ==> #[trigger] pinger@.targets[i]
                == pinger.targets@[i]@,
        PING_IDENT == 1,
        SECOND_NS == 1_000_000_000,
{
}

/// A queue gives back its frames in the order in which it took them: what is queued last
/// stands at the end, and what is received is what stands first.
pub proof fn the_oldest_frame_comes_first(device: ChannelDeviceView, frame: Seq<u8>, mtu: usize)
    ensures
        ChannelDeviceView::empty(mtu).waiting.len() == 0 && ChannelDeviceView::empty(mtu).mtu == mtu,
        device.with(frame).waiting.len() == device.waiting.len() + 1,
        device.with(frame).waiting.last() == frame,
        device.with(frame).mtu == device.mtu,
        forall|i: int|
            0 <= i < device.waiting.len() ==> #[trigger] device.with(frame).waiting[i]
                == device.waiting[i],
        device.waiting.len() > 0 ==> {
            &&& device.without_first().waiting.len() == device.waiting.len() - 1
            &&& device.without_first().mtu == device.mtu
            &&& forall|i: int|
                0 <= i < device.waiting.len() - 1 ==> #[trigger] device.without_first().waiting[i]
                    == device.waiting[i + 1]
        },
{
}

/// A buffer is built of zeros only.
pub proof fn a_new_buffer_is_zero(len: usize)
    ensures
        zeros(len).len() == len,
        forall|i: int| 0 <= i < len ==> #[trigger] zeros(len)[i] == 0,
{
}

} // verus!
