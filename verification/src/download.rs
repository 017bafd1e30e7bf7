//! The download tests of the test mode: over TCP, UDP and HTTP.
use vstd::prelude::*;
use vstd::string::StringExecFns;

use crate::test_mode::{Ipv4, Reporter, SECOND_NS};
use crate::text::format_ipv4;

verus! {

/// The port on which UDP data is received.
pub const UDP_LOCAL_PORT: u16 = 5001;

/// The data that asks a UDP server to start.
pub open spec fn trigger() -> Seq<u8> {
    seq![0x53, 0x54, 0x41, 0x52, 0x54]
}

/// The data that asks a UDP server to start.
pub fn trigger_message() -> (r: [u8; 5])
    ensures
        r@ == trigger(),
{
    let r: [u8; 5] = [0x53, 0x54, 0x41, 0x52, 0x54];
    assert(r@ =~= trigger());
    r
}

/// What a TCP socket says of itself.
#[derive(Clone, Copy, Debug, PartialEq, Eq, Structural)]
pub struct SocketStatus {
    pub active: bool,
    pub may_recv: bool,
    pub established: bool,
}

impl SocketStatus {
    /// Whether the peer has closed the connection and all data was taken.
    pub open spec fn finished(self) -> bool {
        !self.may_recv && !self.established
    }
}

/// Opens one TCP connection once there is an address.
#[derive(Clone, Copy, Debug, PartialEq, Eq, Structural)]
pub struct Connector {
    pub got_ip: bool,
    pub started: bool,
    pub connected: bool,
}

impl Connector {
    /// Nothing has happened.
    pub open spec fn begun() -> Connector {
        Connector { got_ip: false, started: false, connected: false }
    }

    /// With or without an address.
    pub open spec fn with_address(self, got_ip: bool) -> Connector {
        Connector { got_ip, ..self }
    }

    /// Whether it is time to connect.
    pub open spec fn may_connect(self) -> bool {
        self.got_ip && !self.started
    }

    /// After an attempt to start the connection.
    pub open spec fn tried(self, ok: bool) -> Connector {
        Connector { started: self.started || ok, ..self }
    }

    /// Whether a socket shows that the connection has just come up.
    pub open spec fn comes_up(self, status: SocketStatus) -> bool {
        self.started && !self.connected && status.active && status.may_recv
    }

    /// After a look at the socket.
    pub open spec fn observed(self, status: SocketStatus) -> Connector {
        Connector { connected: self.connected || self.comes_up(status), ..self }
    }

    /// Nothing has happened.
    pub fn new() -> (r: Connector)
        ensures
            r == Connector::begun(),
    {
        Connector { got_ip: false, started: false, connected: false }
    }

    /// Takes a new address, or the loss of it.
    pub fn configured(&mut self, got_ip: bool)
        ensures
            *final(self) == old(self).with_address(got_ip),
    {
        self.got_ip = got_ip;
    }

    /// Whether to connect now. A connection that was started is not started again.
    pub fn should_connect(&self) -> (r: bool)
        ensures
            r == self.may_connect(),
    {
        self.got_ip && !self.started
    }

    /// Notes whether the connection could be started; otherwise it is tried again.
    pub fn connecting(&mut self, ok: bool)
        ensures
            *final(self) == old(self).tried(ok),
    {
        if ok {
            self.started = true;
        }
    }

    /// Looks at the socket; returns whether the connection has just come up.
    pub fn observe(&mut self, status: SocketStatus) -> (r: bool)
        ensures
            r == old(self).comes_up(status),
            *final(self) == old(self).observed(status),
    {
        if self.started && !self.connected && status.active && status.may_recv {
            self.connected = true;
            true
        } else {
            false
        }
    }
}

/// A download of everything that a TCP server sends.
#[derive(Clone, Copy, Debug, PartialEq, Eq, Structural)]
pub struct TcpDownload {
    pub connector: Connector,
    pub total_bytes: u64,
    /// When the connection came up.
    pub start_ns: Option<u64>,
    pub reporter: Reporter,
}

impl TcpDownload {
    /// The time of the start is known while connected.
    pub open spec fn wf(self) -> bool {
        self.connector.connected <==> self.start_ns is Some
    }

    /// Nothing has been received.
    pub open spec fn begun(now_ns: u64) -> TcpDownload {
        TcpDownload {
            connector: Connector::begun(),
            total_bytes: 0,
            start_ns: None,
            reporter: Reporter { last_ns: now_ns },
        }
    }

    /// After a look at the socket.
    pub open spec fn observed(self, status: SocketStatus, now_ns: u64) -> TcpDownload {
        TcpDownload {
            connector: self.connector.observed(status),
            start_ns: if self.connector.comes_up(status) {
                Some(now_ns)
            } else {
                self.start_ns
            },
            ..self
        }
    }

    /// Whether data is taken from a socket.
    pub open spec fn takes_data(self, status: SocketStatus) -> bool {
        self.connector.connected && status.may_recv
    }

    /// After data of this length was taken.
    pub open spec fn with_data(self, len: nat) -> TcpDownload {
        TcpDownload { total_bytes: crate::metrics::plus(self.total_bytes, len), ..self }
    }

    /// Whether a socket shows that the download is complete.
    pub open spec fn completes(self, status: SocketStatus) -> bool {
        self.connector.connected && status.finished()
    }

    /// Whether progress is reported.
    pub open spec fn report_due(self, now_ns: u64) -> bool {
        self.connector.connected && crate::test_mode::since(self.reporter.last_ns, now_ns) > 2
            * SECOND_NS
    }

    /// After a look at the time.
    pub open spec fn reported(self, now_ns: u64) -> TcpDownload {
        TcpDownload {
            reporter: if self.report_due(now_ns) {
                Reporter { last_ns: now_ns }
            } else {
                self.reporter
            },
            ..self
        }
    }

    /// Nothing has been received.
    pub fn new(now_ns: u64) -> (r: TcpDownload)
        ensures
            r.wf(),
            r == TcpDownload::begun(now_ns),
    {
        TcpDownload {
            connector: Connector::new(),
            total_bytes: 0,
            start_ns: None,
            reporter: Reporter { last_ns: now_ns },
        }
    }

    /// Looks at the socket; the time starts when the connection comes up.
    pub fn observe(&mut self, status: SocketStatus, now_ns: u64) -> (r: bool)
        requires
            old(self).wf(),
        ensures
            final(self).wf(),
            r == old(self).connector.comes_up(status),
            *final(self) == old(self).observed(status, now_ns),
    {
        if self.connector.observe(status) {
            self.start_ns = Some(now_ns);
            true
        } else {
            false
        }
    }

    /// Whether to take data from the socket.
    pub fn should_receive(&self, status: SocketStatus) -> (r: bool)
        ensures
            r == self.takes_data(status),
    {
        self.connector.connected && status.may_recv
    }

    /// Counts data that was taken.
    pub fn received(&mut self, len: usize)
        ensures
            *final(self) == old(self).with_data(len as nat),
    {
        self.total_bytes = self.total_bytes.wrapping_add(len as u64);
    }

    /// The time that the download took, once it is complete: the connection came up
    /// and was closed by the server.
    pub fn complete(&self, status: SocketStatus, now_ns: u64) -> (r: Option<u64>)
        requires
            self.wf(),
        ensures
            r == if self.completes(status) {
                Some(crate::test_mode::since(self.start_ns->0, now_ns) as u64)
            } else {
                None
            },
    {
        match self.start_ns {
            Some(start) => if !status.may_recv && !status.established {
                Some(now_ns.saturating_sub(start))
            } else {
                None
            },
            None => None,
        }
    }

    /// The time since the start, when a report is due.
    pub fn progress(&mut self, now_ns: u64) -> (r: Option<u64>)
        requires
            old(self).wf(),
        ensures
            final(self).wf(),
            r == if old(self).report_due(now_ns) {
                Some(crate::test_mode::since(old(self).start_ns->0, now_ns) as u64)
            } else {
                None
            },
            *final(self) == old(self).reported(now_ns),
    {
        match self.start_ns {
            Some(start) => if self.reporter.due(now_ns) {
                Some(now_ns.saturating_sub(start))
            } else {
                None
            },
            None => None,
        }
    }
}

/// How long after the last packet a UDP transfer is over.
pub const UDP_QUIET_NS: u64 = 5_000_000_000;

/// A transfer of everything that a UDP server sends after it was asked.
#[derive(Clone, Copy, Debug, PartialEq, Eq, Structural)]
pub struct UdpDownload {
    pub got_ip: bool,
    /// When the server was asked.
    pub start_ns: Option<u64>,
    pub total_bytes: u64,
    pub total_packets: u64,
    pub last_packet_ns: u64,
    pub reporter: Reporter,
}

impl UdpDownload {
    /// Whether packets have come.
    pub open spec fn running(self) -> bool {
        self.start_ns is Some && self.total_packets > 0
    }

    /// Nothing has been asked for.
    pub open spec fn begun(now_ns: u64) -> UdpDownload {
        UdpDownload {
            got_ip: false,
            start_ns: None,
            total_bytes: 0,
            total_packets: 0,
            last_packet_ns: now_ns,
            reporter: Reporter { last_ns: now_ns },
        }
    }

    /// With or without an address.
    pub open spec fn with_address(self, got_ip: bool) -> UdpDownload {
        UdpDownload { got_ip, ..self }
    }

    /// Whether it is time to ask the server.
    pub open spec fn may_trigger(self) -> bool {
        self.got_ip && self.start_ns is None
    }

    /// After the server was asked.
    pub open spec fn asked(self, now_ns: u64) -> UdpDownload {
        UdpDownload { start_ns: Some(now_ns), last_packet_ns: now_ns, ..self }
    }

    /// After a packet of this length.
    pub open spec fn with_packet(self, len: nat, now_ns: u64) -> UdpDownload {
        UdpDownload {
            total_bytes: crate::metrics::plus(self.total_bytes, len),
            total_packets: crate::metrics::plus(self.total_packets, 1),
            last_packet_ns: now_ns,
            ..self
        }
    }

    /// Whether the transfer is complete at a time.
    pub open spec fn completes(self, now_ns: u64) -> bool {
        self.running() && crate::test_mode::since(self.last_packet_ns, now_ns) > UDP_QUIET_NS
    }

    /// Whether progress is reported.
    pub open spec fn report_due(self, now_ns: u64) -> bool {
        self.running() && crate::test_mode::since(self.reporter.last_ns, now_ns) > 2 * SECOND_NS
    }

    /// After a look at the time.
    pub open spec fn reported(self, now_ns: u64) -> UdpDownload {
        UdpDownload {
            reporter: if self.report_due(now_ns) {
                Reporter { last_ns: now_ns }
            } else {
                self.reporter
            },
            ..self
        }
    }

    /// Nothing has been asked for.
    pub fn new(now_ns: u64) -> (r: UdpDownload)
        ensures
            r == UdpDownload::begun(now_ns),
    {
        UdpDownload {
            got_ip: false,
            start_ns: None,
            total_bytes: 0,
            total_packets: 0,
            last_packet_ns: now_ns,
            reporter: Reporter { last_ns: now_ns },
        }
    }

    /// Takes a new address, or the loss of it.
    pub fn configured(&mut self, got_ip: bool)
        ensures
            *final(self) == old(self).with_address(got_ip),
    {
        self.got_ip = got_ip;
    }

    /// Whether to ask the server now. It is asked once.
    pub fn should_trigger(&self) -> (r: bool)
        ensures
            r == self.may_trigger(),
    {
        match self.start_ns {
            None => self.got_ip,
            Some(_) => false,
        }
    }

    /// Notes that the server was asked.
    pub fn triggered(&mut self, now_ns: u64)
        ensures
            *final(self) == old(self).asked(now_ns),
    {
        self.start_ns = Some(now_ns);
        self.last_packet_ns = now_ns;
    }

    /// Counts a packet; returns whether it is the first.
    pub fn received(&mut self, len: usize, now_ns: u64) -> (r: bool)
        ensures
            *final(self) == old(self).with_packet(len as nat, now_ns),
            r == (final(self).total_packets == 1),
    {
        self.total_bytes = self.total_bytes.wrapping_add(len as u64);
        self.total_packets = self.total_packets.wrapping_add(1);
        self.last_packet_ns = now_ns;
        self.total_packets == 1
    }

    /// The time that the transfer took, once no packet has come for a while. The
    /// wait for the first packet has no end.
    pub fn complete(&self, now_ns: u64) -> (r: Option<u64>)
        ensures
            r == if self.completes(now_ns) {
                Some(crate::test_mode::since(self.start_ns->0, now_ns) as u64)
            } else {
                None
            },
    {
        match self.start_ns {
            Some(start) => if self.total_packets > 0 && now_ns.saturating_sub(self.last_packet_ns)
                > UDP_QUIET_NS {
                Some(now_ns.saturating_sub(start))
            } else {
                None
            },
            None => None,
        }
    }

    /// The time since the start, when a report is due.
    pub fn progress(&mut self, now_ns: u64) -> (r: Option<u64>)
        ensures
            r == if old(self).report_due(now_ns) {
                Some(crate::test_mode::since(old(self).start_ns->0, now_ns) as u64)
            } else {
                None
            },
            *final(self) == old(self).reported(now_ns),
    {
        match self.start_ns {
            Some(start) => if self.total_packets > 0 && self.reporter.due(now_ns) {
                Some(now_ns.saturating_sub(start))
            } else {
                None
            },
            None => None,
        }
    }
}

/// The request for a path.
pub open spec fn request_text(path: Seq<char>, server: Ipv4) -> Seq<char> {
    "GET "@ + path + " HTTP/1.0\r\nHost: "@ + crate::text::ipv4_text(server@)
        + "\r\nConnection: close\r\n\r\n"@
}

/// Writes the request for a path.
pub fn http_request(path: &str, server: Ipv4) -> (r: String)
    ensures
        r@ == request_text(path@, server),
{
    let mut out = "GET ".to_owned();
    out.append(path);
    out.append(" HTTP/1.0\r\nHost: ");
    let host = format_ipv4(server);
    out.append(host.as_str());
    out.append("\r\nConnection: close\r\n\r\n");
    out
}

/// Whether the blank line that ends the headers stands at a position.
pub open spec fn blank_line_at(s: Seq<u8>, i: int) -> bool {
    &&& 0 <= i <= s.len() - 4
    &&& s[i] == 13
    &&& s[i + 1] == 10
    &&& s[i + 2] == 13
    &&& s[i + 3] == 10
}

/// Whether the headers are complete, and end at this position: the first blank
/// line stands there.
pub open spec fn headers_end_at(s: Seq<u8>, i: int) -> bool {
    blank_line_at(s, i) && forall|k: int| 0 <= k < i ==> !blank_line_at(s, k)
}

/// Whether the headers are complete.
pub open spec fn headers_complete(s: Seq<u8>) -> bool {
    exists|i: int| headers_end_at(s, i)
}

/// How many bytes of the body have come.
pub open spec fn body_len(s: Seq<u8>) -> int {
    if headers_complete(s) {
        s.len() - 4 - choose|i: int| headers_end_at(s, i)
    } else {
        0
    }
}

/// What a counter shows of the received bytes: their number modulo its width.
pub open spec fn total_count(s: Seq<u8>) -> int {
    s.len() as int % 0x1_0000_0000_0000_0000
}

/// What a counter shows of the bytes of the body.
pub open spec fn body_count(s: Seq<u8>) -> int {
    body_len(s) % 0x1_0000_0000_0000_0000
}

/// The headers end at one place only.
proof fn headers_end_once(s: Seq<u8>, i: int, j: int)
    requires
        headers_end_at(s, i),
        headers_end_at(s, j),
    ensures
        i == j,
{
    if i < j {
        assert(!blank_line_at(s, i));
    }
    if j < i {
        assert(!blank_line_at(s, j));
    }
}

/// Where the body starts does not change when more bytes come: the part of a
/// response that was taken for headers stays that, however the response is cut
/// into pieces.
pub proof fn the_headers_stay(s: Seq<u8>, more: Seq<u8>, i: int)
    requires
        headers_end_at(s, i),
    ensures
        headers_end_at(s + more, i),
        body_len(s) == s.len() - 4 - i,
        body_len(s + more) == body_len(s) + more.len(),
{
    let all = s + more;
    assert(blank_line_at(all, i));
    assert forall|k: int| 0 <= k < i implies !blank_line_at(all, k) by {
        assert(!blank_line_at(s, k));
        assert(all[k] == s[k] && all[k + 1] == s[k + 1] && all[k + 2] == s[k + 2] && all[k + 3]
            == s[k + 3]);
    }
    let a = choose|j: int| headers_end_at(s, j);
    let b = choose|j: int| headers_end_at(all, j);
    headers_end_once(s, i, a);
    headers_end_once(all, i, b);
}

/// Finds the end of the headers.
fn find_headers_end(bytes: &Vec<u8>) -> (r: Option<usize>)
    ensures
        match r {
            Some(i) => headers_end_at(bytes@, i as int),
            None => !headers_complete(bytes@),
        },
{
    let mut i: usize = 0;
    if bytes.len() >= 4 {
        while i <= bytes.len() - 4
            invariant
                bytes@.len() >= 4,
                i <= bytes@.len() - 3,
                forall|k: int| 0 <= k < i ==> !blank_line_at(bytes@, k),
            decreases bytes.len() - i,
        {
            if bytes[i] == 13 && bytes[i + 1] == 10 && bytes[i + 2] == 13 && bytes[i + 3] == 10 {
                return Some(i);
            }
            i = i + 1;
        }
    }
    None
}

/// An HTTP response as it comes in pieces. Its view is everything received.
pub struct HttpResponse {
    /// What came until the headers were complete.
    header_bytes: Vec<u8>,
    headers_done: bool,
    body_bytes: u64,
    total_bytes: u64,
    received: Ghost<Seq<u8>>,
}

impl View for HttpResponse {
    type V = Seq<u8>;

    closed spec fn view(&self) -> Seq<u8> {
        self.received@
    }
}

impl HttpResponse {
    /// The counts agree with what was received.
    pub closed spec fn wf(self) -> bool {
        &&& self.headers_done == headers_complete(self@)
        &&& self.body_bytes == body_count(self@)
        &&& self.total_bytes == total_count(self@)
        &&& !self.headers_done ==> self.header_bytes@ == self@
    }

    /// Nothing has been received.
    pub fn new() -> (r: HttpResponse)
        ensures
            r.wf(),
            r@ == Seq::<u8>::empty(),
    {
        HttpResponse {
            header_bytes: Vec::new(),
            headers_done: false,
            body_bytes: 0,
            total_bytes: 0,
            received: Ghost(Seq::empty()),
        }
    }

    /// Whether the headers are complete.
    pub fn headers_done(&self) -> (r: bool)
        requires
            self.wf(),
        ensures
            r == headers_complete(self@),
    {
        self.headers_done
    }

    /// How many bytes of the body have come, modulo the width of the counter.
    pub fn body_bytes(&self) -> (r: u64)
        requires
            self.wf(),
        ensures
            r == body_count(self@),
    {
        self.body_bytes
    }

    /// How many bytes have come, modulo the width of the counter.
    pub fn total_bytes(&self) -> (r: u64)
        requires
            self.wf(),
        ensures
            r == total_count(self@),
    {
        self.total_bytes
    }

    /// Takes a piece. Returns the headers, without the blank line, when this piece
    /// completes them.
    pub fn feed(&mut self, data: &[u8]) -> (r: Option<Vec<u8>>)
        requires
            old(self).wf(),
        ensures
            final(self).wf(),
            final(self)@ == old(self)@ + data@,
            match r {
                Some(headers) => {
                    &&& !headers_complete(old(self)@)
                    &&& headers_end_at(final(self)@, headers@.len() as int)
                    &&& headers@ == final(self)@.take(headers@.len() as int)
                },
                None => headers_complete(old(self)@) || !headers_complete(final(self)@),
            },
    {
        let ghost before = self@;
        self.received = Ghost(before + data@);
        self.total_bytes = self.total_bytes.wrapping_add(data.len() as u64);
        if self.headers_done {
            self.body_bytes = self.body_bytes.wrapping_add(data.len() as u64);
            proof {
                let i = choose|i: int| headers_end_at(before, i);
                the_headers_stay(before, data@, i);
            }
            return None;
        }
        self.header_bytes.extend_from_slice(data);
        assert(self.header_bytes@ =~= before + data@);
        match find_headers_end(&self.header_bytes) {
            Some(end) => {
                self.headers_done = true;
                let body: usize = self.header_bytes.len() - 4 - end;
                self.body_bytes = self.body_bytes.wrapping_add(body as u64);
                proof {
                    the_headers_stay(self@, Seq::empty(), end as int);
                }
                let headers = head(&self.header_bytes, end);
                Some(headers)
            },
            None => None,
        }
    }
}

/// The first bytes of a vector.
fn head(bytes: &Vec<u8>, len: usize) -> (r: Vec<u8>)
    requires
        len <= bytes@.len(),
    ensures
        r@ == bytes@.take(len as int),
{
    let mut out: Vec<u8> = Vec::new();
    let mut i: usize = 0;
    while i < len
        invariant
            i <= len <= bytes@.len(),
            out@ == bytes@.take(i as int),
        decreases len - i,
    {
        out.push(bytes[i]);
        i = i + 1;
        assert(out@ =~= bytes@.take(i as int));
    }
    out
}

/// A download over HTTP.
pub struct HttpDownload {
    pub connector: Connector,
    /// When the request was sent.
    pub start_ns: Option<u64>,
    pub response: HttpResponse,
    pub reporter: Reporter,
    /// When the state of the connection was last logged.
    pub last_state_log_ns: Option<u64>,
}

/// A download over HTTP, with everything received.
pub struct HttpDownloadView {
    pub connector: Connector,
    pub start_ns: Option<u64>,
    pub response: Seq<u8>,
    pub reporter: Reporter,
    pub last_state_log_ns: Option<u64>,
}

impl View for HttpDownload {
    type V = HttpDownloadView;

    open spec fn view(&self) -> HttpDownloadView {
        HttpDownloadView {
            connector: self.connector,
            start_ns: self.start_ns,
            response: self.response@,
            reporter: self.reporter,
            last_state_log_ns: self.last_state_log_ns,
        }
    }
}

impl HttpDownloadView {
    /// Nothing has happened.
    pub open spec fn begun(now_ns: u64) -> HttpDownloadView {
        HttpDownloadView {
            connector: Connector::begun(),
            start_ns: None,
            response: Seq::empty(),
            reporter: Reporter { last_ns: now_ns },
            last_state_log_ns: None,
        }
    }

    /// Whether the body is being received.
    pub open spec fn receiving(self) -> bool {
        self.start_ns is Some && headers_complete(self.response)
    }

    /// Whether the state of the connection is logged: before it has come up, at
    /// first and then every two seconds.
    pub open spec fn logs_state(self, now_ns: u64) -> bool {
        &&& self.connector.started
        &&& !self.connector.connected
        &&& self.last_state_log_ns matches Some(last) ==> crate::test_mode::since(last, now_ns) > 2
            * SECOND_NS
    }

    /// After the state of the connection was logged, when that was due.
    pub open spec fn state_logged(self, now_ns: u64) -> HttpDownloadView {
        HttpDownloadView {
            last_state_log_ns: if self.logs_state(now_ns) {
                Some(now_ns)
            } else {
                self.last_state_log_ns
            },
            ..self
        }
    }

    /// Whether it is time to send the request.
    pub open spec fn may_request(self, may_send: bool) -> bool {
        self.connector.connected && self.start_ns is None && may_send
    }

    /// After the request was sent.
    pub open spec fn asked(self, now_ns: u64) -> HttpDownloadView {
        HttpDownloadView { start_ns: Some(now_ns), ..self }
    }

    /// Whether data is taken from a socket.
    pub open spec fn takes_data(self, status: SocketStatus) -> bool {
        self.start_ns is Some && status.may_recv
    }

    /// After a piece of the response.
    pub open spec fn with_data(self, data: Seq<u8>) -> HttpDownloadView {
        HttpDownloadView { response: self.response + data, ..self }
    }

    /// Whether a socket shows that the download is complete.
    pub open spec fn completes(self, status: SocketStatus) -> bool {
        self.receiving() && status.finished()
    }

    /// Whether progress is reported.
    pub open spec fn report_due(self, now_ns: u64) -> bool {
        self.receiving() && crate::test_mode::since(self.reporter.last_ns, now_ns) > 2 * SECOND_NS
    }

    /// After a look at the time.
    pub open spec fn reported(self, now_ns: u64) -> HttpDownloadView {
        HttpDownloadView {
            reporter: if self.report_due(now_ns) {
                Reporter { last_ns: now_ns }
            } else {
                self.reporter
            },
            ..self
        }
    }
}

impl HttpDownload {
    /// The response is counted correctly.
    pub open spec fn wf(self) -> bool {
        self.response.wf()
    }

    /// Nothing has happened.
    pub fn new(now_ns: u64) -> (r: HttpDownload)
        ensures
            r.wf(),
            r@ == HttpDownloadView::begun(now_ns),
    {
        HttpDownload {
            connector: Connector::new(),
            start_ns: None,
            response: HttpResponse::new(),
            reporter: Reporter { last_ns: now_ns },
            last_state_log_ns: None,
        }
    }

    /// Whether to log the state of a connection that has not come up yet: at first,
    /// and then every two seconds.
    pub fn should_log_state(&mut self, now_ns: u64) -> (r: bool)
        ensures
            r == old(self)@.logs_state(now_ns),
            final(self)@ == old(self)@.state_logged(now_ns),
            final(self).response == old(self).response,
    {
        let due = match self.last_state_log_ns {
            Some(last) => now_ns.saturating_sub(last) > 2 * SECOND_NS,
            None => true,
        };
        if self.connector.started && !self.connector.connected && due {
            self.last_state_log_ns = Some(now_ns);
            true
        } else {
            false
        }
    }

    /// Whether to send the request now: once, when the connection is up.
    pub fn should_request(&self, may_send: bool) -> (r: bool)
        ensures
            r == self@.may_request(may_send),
    {
        match self.start_ns {
            None => self.connector.connected && may_send,
            Some(_) => false,
        }
    }

    /// Notes that the request was sent.
    pub fn requested(&mut self, now_ns: u64)
        ensures
            final(self)@ == old(self)@.asked(now_ns),
            final(self).response == old(self).response,
    {
        self.start_ns = Some(now_ns);
    }

    /// Whether to take data from the socket.
    pub fn should_receive(&self, status: SocketStatus) -> (r: bool)
        ensures
            r == self@.takes_data(status),
    {
        match self.start_ns {
            Some(_) => status.may_recv,
            None => false,
        }
    }

    /// The time that the download took, once it is complete: the headers have come
    /// and the server has closed the connection.
    pub fn complete(&self, status: SocketStatus, now_ns: u64) -> (r: Option<u64>)
        requires
            self.wf(),
        ensures
            r == if self@.completes(status) {
                Some(crate::test_mode::since(self.start_ns->0, now_ns) as u64)
            } else {
                None
            },
    {
        match self.start_ns {
            Some(start) => if self.response.headers_done() && !status.may_recv
                && !status.established {
                Some(now_ns.saturating_sub(start))
            } else {
                None
            },
            None => None,
        }
    }

    /// The time since the request, when a report is due.
    pub fn progress(&mut self, now_ns: u64) -> (r: Option<u64>)
        requires
            old(self).wf(),
        ensures
            final(self).wf(),
            r == if old(self)@.report_due(now_ns) {
                Some(crate::test_mode::since(old(self).start_ns->0, now_ns) as u64)
            } else {
                None
            },
            final(self)@ == old(self)@.reported(now_ns),
            final(self).response == old(self).response,
    {
        match self.start_ns {
            Some(start) => if self.response.headers_done() && self.reporter.due(now_ns) {
                Some(now_ns.saturating_sub(start))
            } else {
                None
            },
            None => None,
        }
    }
}

/// A download over a connection is not complete while data can still be received, nor
/// while the connection is up, nor before it was up: it is complete when the server has
/// closed the connection and everything was taken.
pub proof fn nothing_is_left_when_a_download_is_complete(tcp: TcpDownload, http: HttpDownloadView, status: SocketStatus)
    ensures
        tcp.completes(status) <==> tcp.connector.connected && !status.may_recv
            && !status.established,
        http.completes(status) <==> http.start_ns is Some && headers_complete(http.response)
            && !status.may_recv && !status.established,
        status.may_recv ==> !tcp.completes(status) && !http.completes(status),
        tcp.takes_data(status) <==> tcp.connector.connected && status.may_recv,
        http.takes_data(status) <==> http.start_ns is Some && status.may_recv,
{
}

/// A download that is complete stays complete, and takes nothing more, however often the
/// same socket is looked at.
pub proof fn a_complete_download_stays_complete(tcp: TcpDownload, status: SocketStatus, now_ns: u64)
    requires
        tcp.completes(status),
    ensures
        tcp.observed(status, now_ns).completes(status),
        tcp.observed(status, now_ns).start_ns == tcp.start_ns,
        tcp.reported(now_ns).completes(status),
        !tcp.takes_data(status),
        !tcp.connector.comes_up(status),
{
}

/// A UDP transfer is complete when it was asked for, a packet has come, and more than
/// five seconds have passed since the last one; a packet puts the end off by at least
/// five seconds more, and nothing that was counted changes that.
pub proof fn a_packet_puts_the_end_off(udp: UdpDownload, len: nat, at_ns: u64, now_ns: u64)
    ensures
        udp.completes(now_ns) <==> udp.start_ns is Some && udp.total_packets > 0 && now_ns
            > udp.last_packet_ns + 5_000_000_000,
        now_ns <= at_ns + 5_000_000_000 ==> !udp.with_packet(len, at_ns).completes(now_ns),
        udp.with_packet(len, at_ns).start_ns == udp.start_ns,
        now_ns <= at_ns + 5_000_000_000 ==> !udp.asked(at_ns).completes(now_ns),
        udp.reported(at_ns).completes(now_ns) == udp.completes(now_ns),
        udp.with_address(true).completes(now_ns) == udp.completes(now_ns),
        udp.with_address(false).completes(now_ns) == udp.completes(now_ns),
{
}

/// A UDP server is asked only with an address, and not again once it was asked, whatever
/// comes of it.
pub proof fn a_server_is_asked_once(udp: UdpDownload, now_ns: u64, len: nat, got_ip: bool)
    ensures
        udp.may_trigger() <==> udp.got_ip && udp.start_ns is None,
        !udp.with_address(false).may_trigger(),
        !UdpDownload::begun(now_ns).may_trigger(),
        udp.start_ns is None ==> udp.with_address(true).may_trigger(),
        udp.start_ns is Some ==> !udp.with_address(got_ip).may_trigger(),
        !udp.asked(now_ns).with_address(got_ip).with_packet(len, now_ns).may_trigger(),
        udp.asked(now_ns).start_ns == Some(now_ns),
        udp.asked(now_ns).total_packets == udp.total_packets,
        udp.asked(now_ns).total_bytes == udp.total_bytes,
{
}

/// A connection is started only with an address, is tried again while it could not be
/// started, and never again once it was; it is up once a socket that was started is
/// active and can receive, and stays so.
pub proof fn a_connection_is_started_once(connector: Connector, status: SocketStatus, got_ip: bool)
    ensures
        !Connector::begun().may_connect(),
        Connector::begun().with_address(true).may_connect(),
        !connector.with_address(false).may_connect(),
        connector.may_connect() ==> connector.tried(false).may_connect(),
        !connector.tried(true).with_address(got_ip).observed(status).may_connect(),
        connector.comes_up(status) ==> connector.started && status.active && status.may_recv,
        connector.started && !connector.connected && status.active && status.may_recv
            ==> connector.comes_up(status),
        connector.comes_up(status) ==> connector.observed(status).connected,
        connector.connected ==> connector.with_address(got_ip).observed(status).connected,
        !connector.connected && connector.observed(status).connected ==> connector.comes_up(status),
        !connector.observed(status).comes_up(status),
        connector.observed(status).started == connector.started,
        connector.observed(status).got_ip == connector.got_ip,
        connector.tried(got_ip).connected == connector.connected,
        connector.tried(got_ip).got_ip == connector.got_ip,
        connector.with_address(got_ip).started == connector.started,
        connector.with_address(got_ip).got_ip == got_ip,
{
}

/// The time of a TCP download starts when its connection comes up, and is not set again.
pub proof fn the_time_starts_with_the_connection(tcp: TcpDownload, status: SocketStatus, now_ns: u64, later_ns: u64, len: nat)
    requires
        tcp.wf(),
    ensures
        TcpDownload::begun(now_ns).start_ns is None,
        tcp.connector.comes_up(status) ==> tcp.observed(status, now_ns).start_ns == Some(now_ns),
        tcp.start_ns is Some ==> tcp.observed(status, now_ns).start_ns == tcp.start_ns,
        tcp.observed(status, now_ns).observed(status, later_ns).start_ns == tcp.observed(
            status,
            now_ns,
        ).start_ns,
        tcp.with_data(len).start_ns == tcp.start_ns,
        tcp.with_data(len).connector == tcp.connector,
        tcp.observed(status, now_ns).total_bytes == tcp.total_bytes,
        tcp.reported(now_ns).total_bytes == tcp.total_bytes,
{
}

/// Progress is reported only of a download that runs, more than two seconds after the
/// last report or the start of the test; a report puts the next one off by as much.
pub proof fn progress_is_reported_every_two_seconds(tcp: TcpDownload, udp: UdpDownload, http: HttpDownloadView, now_ns: u64, later_ns: u64)
    ensures
        tcp.report_due(now_ns) <==> tcp.connector.connected && now_ns > tcp.reporter.last_ns
            + 2_000_000_000,
        udp.report_due(now_ns) <==> udp.start_ns is Some && udp.total_packets > 0 && now_ns
            > udp.reporter.last_ns + 2_000_000_000,
        http.report_due(now_ns) <==> http.start_ns is Some && headers_complete(http.response)
            && now_ns > http.reporter.last_ns + 2_000_000_000,
        tcp.report_due(now_ns) && later_ns <= now_ns + 2_000_000_000 ==> !tcp.reported(
            now_ns,
        ).report_due(later_ns),
        udp.report_due(now_ns) && later_ns <= now_ns + 2_000_000_000 ==> !udp.reported(
            now_ns,
        ).report_due(later_ns),
        http.report_due(now_ns) && later_ns <= now_ns + 2_000_000_000 ==> !http.reported(
            now_ns,
        ).report_due(later_ns),
        !tcp.report_due(now_ns) ==> tcp.reported(now_ns) == tcp,
        !udp.report_due(now_ns) ==> udp.reported(now_ns) == udp,
        !http.report_due(now_ns) ==> http.reported(now_ns) == http,
        tcp.reported(now_ns).start_ns == tcp.start_ns,
        udp.reported(now_ns).start_ns == udp.start_ns,
        udp.reported(now_ns).last_packet_ns == udp.last_packet_ns,
        udp.reported(now_ns).total_bytes == udp.total_bytes,
        udp.reported(now_ns).total_packets == udp.total_packets,
        http.reported(now_ns).start_ns == http.start_ns,
        http.reported(now_ns).response == http.response,
{
}

/// A request is sent once, on a connection that is up and can send, and the response is
/// not looked for before that.
pub proof fn a_request_is_sent_once(http: HttpDownloadView, status: SocketStatus, may_send: bool, now_ns: u64, data: Seq<u8>)
    ensures
        http.may_request(may_send) <==> http.connector.connected && http.start_ns is None && may_send,
        !HttpDownloadView::begun(now_ns).may_request(may_send),
        !HttpDownloadView::begun(now_ns).takes_data(status),
        !http.asked(now_ns).may_request(may_send),
        !http.asked(now_ns).with_data(data).may_request(may_send),
        http.asked(now_ns).start_ns == Some(now_ns),
        http.asked(now_ns).response == http.response,
        http.asked(now_ns).takes_data(status) == status.may_recv,
        http.start_ns is None ==> !http.takes_data(status) && !http.completes(status),
        http.with_data(data).response.len() == http.response.len() + data.len(),
        http.with_data(data).start_ns == http.start_ns,
{
}

/// The state of a connection that was started and has not come up is logged at once, and
/// then not again for two seconds; that of a connection that is up is not.
pub proof fn a_waiting_connection_is_logged(http: HttpDownloadView, now_ns: u64, later_ns: u64)
    ensures
        http.logs_state(now_ns) ==> http.connector.started && !http.connector.connected,
        http.connector.started && !http.connector.connected && http.last_state_log_ns is None
            ==> http.logs_state(now_ns),
        http.logs_state(now_ns) && later_ns <= now_ns + 2_000_000_000 ==> !http.state_logged(
            now_ns,
        ).logs_state(later_ns),
        http.logs_state(now_ns) && later_ns > now_ns + 2_000_000_000 ==> http.state_logged(
            now_ns,
        ).logs_state(later_ns),
        http.state_logged(now_ns).response == http.response,
        http.state_logged(now_ns).start_ns == http.start_ns,
        http.state_logged(now_ns).connector == http.connector,
{
}

/// The bytes of a blank line after another line: two line ends.
pub open spec fn crlf_crlf() -> Seq<u8> {
    seq![13u8, 10, 13, 10]
}

/// A response is taken apart at its first blank line: of headers, the four bytes of a
/// blank line and a body, the body is counted and nothing else, when the headers hold no
/// blank line of their own. Without a blank line there is no body.
pub proof fn the_body_follows_the_first_blank_line(headers: Seq<u8>, body: Seq<u8>)
    requires
        forall|k: int|
            0 <= k < headers.len() ==> #[trigger] (headers + crlf_crlf()).subrange(k, k + 4)
                != crlf_crlf(),
    ensures
        ({
            let response = headers + crlf_crlf() + body;
            &&& headers_complete(response)
            &&& headers_end_at(response, headers.len() as int)
            &&& body_len(response) == body.len()
            &&& total_count(response) == (headers.len() + 4 + body.len())
                % 0x1_0000_0000_0000_0000
            &&& body_count(response) == body.len() % 0x1_0000_0000_0000_0000
        }),
{
    let blank = crlf_crlf();
    let head = headers + blank;
    let n = headers.len() as int;
    assert(blank_line_at(head, n));
    assert forall|k: int| 0 <= k < n implies !blank_line_at(head, k) by {
        if blank_line_at(head, k) {
            assert(head.subrange(k, k + 4) =~= blank);
        }
    }
    the_headers_stay(head, body, n);
}

/// Headers are complete only when a blank line has come.
pub proof fn without_a_blank_line_there_is_no_body(response: Seq<u8>)
    requires
        forall|k: int|
            0 <= k <= response.len() - 4 ==> #[trigger] response.subrange(k, k + 4) != crlf_crlf(),
    ensures
        !headers_complete(response),
        body_len(response) == 0,
{
    if headers_complete(response) {
        let i = choose|i: int| headers_end_at(response, i);
        assert(response.subrange(i, i + 4) =~= crlf_crlf());
    }
}

/// A request has four lines: the path, the host, the wish to close the connection, and a
/// blank one. The path and the host stand in them as they are.
#[verifier::rlimit(60)]
#[verifier::spinoff_prover]
pub proof fn a_request_names_its_path_and_host(path: Seq<char>, server: Ipv4)
    requires
        !path.contains('\n'),
    ensures
        crate::scan::fields(request_text(path, server), '\n') == seq![
            "GET "@ + path + " HTTP/1.0\r"@,
            "Host: "@ + crate::text::ipv4_text(server@) + "\r"@,
            "Connection: close\r"@,
            "\r"@,
            ""@,
        ],
{
    let ip = crate::text::ipv4_text(server@);
    reveal_strlit("GET ");
    reveal_strlit(" HTTP/1.0\r\nHost: ");
    reveal_strlit("\r\nConnection: close\r\n\r\n");
    reveal_strlit(" HTTP/1.0\r");
    reveal_strlit("Host: ");
    reveal_strlit("\r");
    reveal_strlit("Connection: close\r");
    reveal_strlit("");
    let a = "GET "@ + path + " HTTP/1.0\r"@;
    let b = "Host: "@ + ip + "\r"@;
    let c = "Connection: close\r"@;
    let d = "\r"@;
    let e = ""@;
    let parts = seq![a, b, c, d, e];
    crate::text::ipv4_is_plain(server@);
    assert forall|k: int| 0 <= k < a.len() implies a[k] != '\n' by {
        if 4 <= k < 4 + path.len() {
            assert(a[k] == path[k - 4]);
        }
    }
    assert forall|k: int| 0 <= k < b.len() implies b[k] != '\n' by {
        if 6 <= k < 6 + ip.len() {
            assert(b[k] == ip[k - 6]);
            assert(ip.contains(ip[k - 6]));
        }
    }
    assert(!a.contains('\n') && !b.contains('\n') && !c.contains('\n') && !d.contains('\n')
        && !e.contains('\n'));
    crate::scan::joined_parts_are_the_fields(parts, '\n');
    let p1 = seq![a];
    let p2 = p1.push(b);
    let p3 = p2.push(c);
    let p4 = p3.push(d);
    crate::scan::joined_grows(p1, '\n', a);
    crate::scan::joined_grows(p1, '\n', b);
    crate::scan::joined_grows(p2, '\n', c);
    crate::scan::joined_grows(p3, '\n', d);
    crate::scan::joined_grows(p4, '\n', e);
    assert(parts =~= p4.push(e));
    assert(crate::scan::joined(parts, '\n') =~= request_text(path, server));
}

/// The data that asks a server is a text, and is expected back on the port that was asked
/// from.
pub proof fn a_server_is_asked_with_a_text()
    ensures
        trigger().len() == "START"@.len(),
        forall|i: int|
            0 <= i < trigger().len() ==> #[trigger] trigger()[i] as int == "START"@[i] as int,
        UDP_LOCAL_PORT == 5001,
        UDP_QUIET_NS == 5 * SECOND_NS,
{
    reveal_strlit("START");
}

/// A download is seen as what it is, with everything received.
pub proof fn downloads_are_seen_as_they_are(download: HttpDownload)
    ensures
        download@.connector == download.connector,
        download@.start_ns == download.start_ns,
        download@.response == download.response@,
        download@.reporter == download.reporter,
        download@.last_state_log_ns == download.last_state_log_ns,
{
}

} // verus!
