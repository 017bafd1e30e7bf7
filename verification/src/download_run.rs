//! Whole runs of the download tests: what holds of all that is asked for, taken and
//! counted between the start of a test and its end.
use vstd::prelude::*;

use crate::download::{
    body_count, body_len, headers_complete, total_count, HttpDownloadView, SocketStatus, TcpDownload,
    UdpDownload, UDP_QUIET_NS,
};
use crate::metrics::plus_keeps_the_total;
use crate::test_mode::{RunPhase, TestRun};

verus! {

/// What can happen in a TCP download.
pub enum TcpEvent {
    /// A round begins; whether the program is shutting down.
    Round(bool),
    /// The stack got an address, or lost it.
    Configured(bool),
    /// A connection was tried; whether it could be started.
    Connected(bool),
    /// The socket was looked at, at a time.
    Observed(SocketStatus, u64),
    /// Data of this length was taken from the socket.
    Received(SocketStatus, nat),
    /// The time was looked at.
    Reported(u64),
    /// The socket was found to be finished at a time, and the test ends.
    Completed(SocketStatus, u64),
}

/// A TCP download from its start.
pub struct TcpHistory {
    pub run: TestRun,
    pub download: TcpDownload,
}

impl TcpHistory {
    /// A download that begins at a time.
    pub open spec fn fresh(now_ns: u64) -> TcpHistory {
        TcpHistory {
            run: TestRun { phase: RunPhase::Running },
            download: TcpDownload::begun(now_ns),
        }
    }

    /// Whether the event can happen next.
    pub open spec fn possible(self, event: TcpEvent) -> bool {
        &&& self.run.phase is Running
        &&& match event {
            TcpEvent::Connected(_) => self.download.connector.may_connect(),
            TcpEvent::Received(status, _) => self.download.takes_data(status),
            TcpEvent::Completed(status, _) => self.download.completes(status),
            _ => true,
        }
    }

    /// The download after an event.
    pub open spec fn next(self, event: TcpEvent) -> TcpHistory {
        let download = self.download;
        match event {
            TcpEvent::Round(cancelled) => TcpHistory { run: self.run.round(cancelled), ..self },
            TcpEvent::Configured(got_ip) => TcpHistory {
                download: TcpDownload {
                    connector: download.connector.with_address(got_ip),
                    ..download
                },
                ..self
            },
            TcpEvent::Connected(ok) => TcpHistory {
                download: TcpDownload { connector: download.connector.tried(ok), ..download },
                ..self
            },
            TcpEvent::Observed(status, now_ns) => TcpHistory {
                download: download.observed(status, now_ns),
                ..self
            },
            TcpEvent::Received(_, len) => TcpHistory { download: download.with_data(len), ..self },
            TcpEvent::Reported(now_ns) => TcpHistory {
                download: download.reported(now_ns),
                ..self
            },
            TcpEvent::Completed(_, _) => TcpHistory {
                run: TestRun { phase: RunPhase::Complete },
                ..self
            },
        }
    }

    /// The download after a sequence of events.
    pub open spec fn after(self, events: Seq<TcpEvent>) -> TcpHistory
        decreases events.len(),
    {
        if events.len() == 0 {
            self
        } else {
            self.after(events.drop_last()).next(events.last())
        }
    }

    /// Whether each event of the sequence can happen where it stands.
    pub open spec fn possible_all(self, events: Seq<TcpEvent>) -> bool
        decreases events.len(),
    {
        events.len() > 0 ==> {
            &&& self.possible_all(events.drop_last())
            &&& self.after(events.drop_last()).possible(events.last())
        }
    }
}

/// The sum of the lengths of all data that was taken.
pub open spec fn tcp_bytes(events: Seq<TcpEvent>) -> nat
    decreases events.len(),
{
    if events.len() == 0 {
        0
    } else {
        tcp_bytes(events.drop_last()) + match events.last() {
            TcpEvent::Received(_, len) => len,
            _ => 0,
        }
    }
}

/// Whether the events show an open connection at this time.
pub open spec fn came_up(events: Seq<TcpEvent>, now_ns: u64) -> bool {
    exists|i: int|
        0 <= i < events.len() && (#[trigger] events[i] matches TcpEvent::Observed(status, at)
            && status.active && status.may_recv && at == now_ns)
}

/// Whether at most one of the events started a connection.
pub open spec fn connects_once(events: Seq<TcpEvent>) -> bool {
    forall|i: int, j: int|
        0 <= i < j < events.len() && #[trigger] events[i] == TcpEvent::Connected(true)
            ==> #[trigger] events[j] != TcpEvent::Connected(true)
}

/// What holds of a TCP download at every moment.
spec fn tcp_inv(history: TcpHistory, events: Seq<TcpEvent>) -> bool {
    let download = history.download;
    &&& download.wf()
    &&& connects_once(events)
    &&& forall|i: int|
        0 <= i < events.len() && #[trigger] events[i] == TcpEvent::Connected(true)
            ==> download.connector.started
    &&& download.start_ns matches Some(at) ==> came_up(events, at)
    &&& download.total_bytes == tcp_bytes(events) % 0x1_0000_0000_0000_0000
    &&& history.run.phase is Cancelled <==> events.len() > 0 && events.last() == TcpEvent::Round(
        true,
    )
    &&& history.run.phase is Complete <==> events.len() > 0 && events.last() is Completed
    &&& history.run.phase is Complete ==> download.completes(events.last()->Completed_0)
}

proof fn tcp_event_keeps_inv(history: TcpHistory, events: Seq<TcpEvent>, last: TcpEvent)
    requires
        tcp_inv(history, events),
        history.possible(last),
    ensures
        tcp_inv(history.next(last), events.push(last)),
{
    let all = events.push(last);
    let post = history.next(last);
    assert(all.drop_last() =~= events);
    assert(all.last() == last);
    assert forall|i: int| 0 <= i < events.len() implies #[trigger] all[i] == events[i] by {}
    if let TcpEvent::Received(_, len) = last {
        plus_keeps_the_total(history.download.total_bytes, tcp_bytes(events), len);
    }
    if let Some(at) = post.download.start_ns {
        if history.download.start_ns == Some(at) {
            let i = choose|i: int|
                0 <= i < events.len() && (#[trigger] events[i] matches TcpEvent::Observed(
                    status,
                    time,
                ) && status.active && status.may_recv && time == at);
            assert(all[i] == events[i]);
        } else {
            assert(all[events.len() as int] == last);
        }
        assert(came_up(all, at));
    }
}

proof fn tcp_keeps_inv(start_ns: u64, events: Seq<TcpEvent>)
    requires
        TcpHistory::fresh(start_ns).possible_all(events),
    ensures
        tcp_inv(TcpHistory::fresh(start_ns).after(events), events),
    decreases events.len(),
{
    let start = TcpHistory::fresh(start_ns);
    if events.len() > 0 {
        let before = events.drop_last();
        tcp_keeps_inv(start_ns, before);
        tcp_event_keeps_inv(start.after(before), before, events.last());
        assert(before.push(events.last()) =~= events);
    }
}

/// A whole TCP download. At most one connection is started. The total is the sum of
/// all data that was taken, modulo the width of the counter. The time starts when the
/// connection has come up. The download ends with the shutdown, or when it is
/// complete: the connection had come up, and the server has closed it. After the end
/// nothing happens.
pub proof fn a_tcp_download_counts_everything(start_ns: u64, events: Seq<TcpEvent>)
    requires
        TcpHistory::fresh(start_ns).possible_all(events),
    ensures
        ({
            let history = TcpHistory::fresh(start_ns).after(events);
            let download = history.download;
            &&& connects_once(events)
            &&& download.total_bytes == tcp_bytes(events) % 0x1_0000_0000_0000_0000
            &&& download.start_ns matches Some(at) ==> came_up(events, at)
            &&& history.run.phase is Cancelled <==> events.len() > 0 && events.last()
                == TcpEvent::Round(true)
            &&& history.run.phase is Complete <==> events.len() > 0 && events.last() is Completed
            &&& history.run.phase is Complete ==> {
                &&& download.start_ns is Some
                &&& events.last()->Completed_0.finished()
            }
            &&& !(history.run.phase is Running) ==> forall|event: TcpEvent|
                !history.possible(event)
        }),
{
    tcp_keeps_inv(start_ns, events);
}

/// What can happen in a UDP transfer.
pub enum UdpEvent {
    /// A round begins; whether the program is shutting down.
    Round(bool),
    /// The stack got an address, or lost it.
    Configured(bool),
    /// The server was asked at a time.
    Triggered(u64),
    /// A packet of this length came at a time.
    Received(nat, u64),
    /// The time was looked at.
    Reported(u64),
    /// No packet had come for long enough at a time, and the test ends.
    Completed(u64),
}

/// A UDP transfer from its start.
pub struct UdpHistory {
    pub run: TestRun,
    pub download: UdpDownload,
}

impl UdpHistory {
    /// A transfer that begins at a time.
    pub open spec fn fresh(now_ns: u64) -> UdpHistory {
        UdpHistory {
            run: TestRun { phase: RunPhase::Running },
            download: UdpDownload::begun(now_ns),
        }
    }

    /// Whether the event can happen next. Packets are taken once the server was
    /// asked.
    pub open spec fn possible(self, event: UdpEvent) -> bool {
        &&& self.run.phase is Running
        &&& match event {
            UdpEvent::Triggered(_) => self.download.may_trigger(),
            UdpEvent::Received(_, _) => self.download.start_ns is Some,
            UdpEvent::Completed(now_ns) => self.download.completes(now_ns),
            _ => true,
        }
    }

    /// The transfer after an event.
    pub open spec fn next(self, event: UdpEvent) -> UdpHistory {
        let download = self.download;
        match event {
            UdpEvent::Round(cancelled) => UdpHistory { run: self.run.round(cancelled), ..self },
            UdpEvent::Configured(got_ip) => UdpHistory {
                download: download.with_address(got_ip),
                ..self
            },
            UdpEvent::Triggered(now_ns) => UdpHistory { download: download.asked(now_ns), ..self },
            UdpEvent::Received(len, now_ns) => UdpHistory {
                download: download.with_packet(len, now_ns),
                ..self
            },
            UdpEvent::Reported(now_ns) => UdpHistory {
                download: download.reported(now_ns),
                ..self
            },
            UdpEvent::Completed(_) => UdpHistory {
                run: TestRun { phase: RunPhase::Complete },
                ..self
            },
        }
    }

    /// The transfer after a sequence of events.
    pub open spec fn after(self, events: Seq<UdpEvent>) -> UdpHistory
        decreases events.len(),
    {
        if events.len() == 0 {
            self
        } else {
            self.after(events.drop_last()).next(events.last())
        }
    }

    /// Whether each event of the sequence can happen where it stands.
    pub open spec fn possible_all(self, events: Seq<UdpEvent>) -> bool
        decreases events.len(),
    {
        events.len() > 0 ==> {
            &&& self.possible_all(events.drop_last())
            &&& self.after(events.drop_last()).possible(events.last())
        }
    }
}

/// The sum of the lengths of all packets.
pub open spec fn udp_bytes(events: Seq<UdpEvent>) -> nat
    decreases events.len(),
{
    if events.len() == 0 {
        0
    } else {
        udp_bytes(events.drop_last()) + match events.last() {
            UdpEvent::Received(len, _) => len,
            _ => 0,
        }
    }
}

/// How many packets have come.
pub open spec fn udp_packets(events: Seq<UdpEvent>) -> nat
    decreases events.len(),
{
    if events.len() == 0 {
        0
    } else {
        udp_packets(events.drop_last()) + match events.last() {
            UdpEvent::Received(_, _) => 1nat,
            _ => 0,
        }
    }
}

/// When the last packet came.
pub open spec fn last_packet(events: Seq<UdpEvent>) -> Option<u64>
    decreases events.len(),
{
    if events.len() == 0 {
        None
    } else {
        match events.last() {
            UdpEvent::Received(_, at) => Some(at),
            _ => last_packet(events.drop_last()),
        }
    }
}

/// Whether at most one of the events asked the server.
pub open spec fn triggers_once(events: Seq<UdpEvent>) -> bool {
    forall|i: int, j: int|
        0 <= i < j < events.len() && #[trigger] events[i] is Triggered
            ==> !(#[trigger] events[j] is Triggered)
}

/// What holds of a UDP transfer at every moment.
spec fn udp_inv(history: UdpHistory, events: Seq<UdpEvent>) -> bool {
    let download = history.download;
    &&& triggers_once(events)
    &&& forall|i: int|
        0 <= i < events.len() && #[trigger] events[i] is Triggered ==> download.start_ns is Some
    &&& download.start_ns matches Some(at) ==> events.contains(UdpEvent::Triggered(at))
    &&& download.start_ns is None ==> last_packet(events) is None
    &&& last_packet(events) is None ==> download.total_packets == 0
    &&& last_packet(events) matches Some(at) ==> download.last_packet_ns == at
    &&& download.total_bytes == udp_bytes(events) % 0x1_0000_0000_0000_0000
    &&& download.total_packets == udp_packets(events) % 0x1_0000_0000_0000_0000
    &&& history.run.phase is Cancelled <==> events.len() > 0 && events.last() == UdpEvent::Round(
        true,
    )
    &&& history.run.phase is Complete <==> events.len() > 0 && events.last() is Completed
    &&& history.run.phase is Complete ==> download.completes(events.last()->Completed_0)
}

proof fn udp_event_keeps_inv(history: UdpHistory, events: Seq<UdpEvent>, last: UdpEvent)
    requires
        udp_inv(history, events),
        history.possible(last),
    ensures
        udp_inv(history.next(last), events.push(last)),
{
    let all = events.push(last);
    let post = history.next(last);
    assert(all.drop_last() =~= events);
    assert(all.last() == last);
    assert forall|i: int| 0 <= i < events.len() implies #[trigger] all[i] == events[i] by {}
    if let UdpEvent::Received(len, _) = last {
        plus_keeps_the_total(history.download.total_bytes, udp_bytes(events), len);
        plus_keeps_the_total(history.download.total_packets, udp_packets(events), 1);
    }
    if let Some(at) = post.download.start_ns {
        if history.download.start_ns == Some(at) {
            let i = choose|i: int|
                0 <= i < events.len() && #[trigger] events[i] == UdpEvent::Triggered(at);
            assert(all[i] == UdpEvent::Triggered(at));
        } else {
            assert(all[events.len() as int] == last);
        }
    }
}

proof fn udp_keeps_inv(start_ns: u64, events: Seq<UdpEvent>)
    requires
        UdpHistory::fresh(start_ns).possible_all(events),
    ensures
        udp_inv(UdpHistory::fresh(start_ns).after(events), events),
    decreases events.len(),
{
    let start = UdpHistory::fresh(start_ns);
    if events.len() > 0 {
        let before = events.drop_last();
        udp_keeps_inv(start_ns, before);
        udp_event_keeps_inv(start.after(before), before, events.last());
        assert(before.push(events.last()) =~= events);
    }
}

/// A whole UDP transfer. The server is asked at most once, and the time starts then.
/// The totals are the number of all packets and the sum of their lengths, modulo the
/// width of the counters. The transfer ends with the shutdown, or when it is complete:
/// a packet has come, and since the last one the quiet interval has passed. After the
/// end nothing happens.
pub proof fn a_udp_transfer_counts_everything(start_ns: u64, events: Seq<UdpEvent>)
    requires
        UdpHistory::fresh(start_ns).possible_all(events),
    ensures
        ({
            let history = UdpHistory::fresh(start_ns).after(events);
            let download = history.download;
            &&& triggers_once(events)
            &&& download.start_ns matches Some(at) ==> events.contains(UdpEvent::Triggered(at))
            &&& download.total_bytes == udp_bytes(events) % 0x1_0000_0000_0000_0000
            &&& download.total_packets == udp_packets(events) % 0x1_0000_0000_0000_0000
            &&& history.run.phase is Cancelled <==> events.len() > 0 && events.last()
                == UdpEvent::Round(true)
            &&& history.run.phase is Complete <==> events.len() > 0 && events.last() is Completed
            &&& history.run.phase is Complete ==> {
                &&& download.start_ns is Some
                &&& last_packet(events) matches Some(at) && events.last()->Completed_0 - at
                    > UDP_QUIET_NS
            }
            &&& !(history.run.phase is Running) ==> forall|event: UdpEvent|
                !history.possible(event)
        }),
{
    udp_keeps_inv(start_ns, events);
}

/// What can happen in a download over HTTP.
pub enum HttpEvent {
    /// A round begins; whether the program is shutting down.
    Round(bool),
    /// The stack got an address, or lost it.
    Configured(bool),
    /// A connection was tried; whether it could be started.
    Connected(bool),
    /// The state of a connection that has not come up was logged, or could have been,
    /// at a time.
    StateLogged(u64),
    /// The socket was looked at.
    Observed(SocketStatus),
    /// The request was sent at a time.
    Requested(u64),
    /// A piece of the response was taken from the socket.
    Received(SocketStatus, Seq<u8>),
    /// The time was looked at.
    Reported(u64),
    /// The socket was found to be finished at a time, and the test ends.
    Completed(SocketStatus, u64),
}

/// A download over HTTP from its start.
pub struct HttpHistory {
    pub run: TestRun,
    pub download: HttpDownloadView,
}

impl HttpHistory {
    /// A download that begins at a time.
    pub open spec fn fresh(now_ns: u64) -> HttpHistory {
        HttpHistory {
            run: TestRun { phase: RunPhase::Running },
            download: HttpDownloadView::begun(now_ns),
        }
    }

    /// Whether the event can happen next. A request is sent on a socket that takes
    /// data.
    pub open spec fn possible(self, event: HttpEvent) -> bool {
        &&& self.run.phase is Running
        &&& match event {
            HttpEvent::Connected(_) => self.download.connector.may_connect(),
            HttpEvent::Requested(_) => self.download.may_request(true),
            HttpEvent::Received(status, _) => self.download.takes_data(status),
            HttpEvent::Completed(status, _) => self.download.completes(status),
            _ => true,
        }
    }

    /// The download after an event.
    pub open spec fn next(self, event: HttpEvent) -> HttpHistory {
        let download = self.download;
        match event {
            HttpEvent::Round(cancelled) => HttpHistory { run: self.run.round(cancelled), ..self },
            HttpEvent::Configured(got_ip) => HttpHistory {
                download: HttpDownloadView {
                    connector: download.connector.with_address(got_ip),
                    ..download
                },
                ..self
            },
            HttpEvent::Connected(ok) => HttpHistory {
                download: HttpDownloadView { connector: download.connector.tried(ok), ..download },
                ..self
            },
            HttpEvent::StateLogged(now_ns) => HttpHistory {
                download: download.state_logged(now_ns),
                ..self
            },
            HttpEvent::Observed(status) => HttpHistory {
                download: HttpDownloadView {
                    connector: download.connector.observed(status),
                    ..download
                },
                ..self
            },
            HttpEvent::Requested(now_ns) => HttpHistory {
                download: download.asked(now_ns),
                ..self
            },
            HttpEvent::Received(_, data) => HttpHistory {
                download: download.with_data(data),
                ..self
            },
            HttpEvent::Reported(now_ns) => HttpHistory {
                download: download.reported(now_ns),
                ..self
            },
            HttpEvent::Completed(_, _) => HttpHistory {
                run: TestRun { phase: RunPhase::Complete },
                ..self
            },
        }
    }

    /// The download after a sequence of events.
    pub open spec fn after(self, events: Seq<HttpEvent>) -> HttpHistory
        decreases events.len(),
    {
        if events.len() == 0 {
            self
        } else {
            self.after(events.drop_last()).next(events.last())
        }
    }

    /// Whether each event of the sequence can happen where it stands.
    pub open spec fn possible_all(self, events: Seq<HttpEvent>) -> bool
        decreases events.len(),
    {
        events.len() > 0 ==> {
            &&& self.possible_all(events.drop_last())
            &&& self.after(events.drop_last()).possible(events.last())
        }
    }
}

/// All pieces of the response, one after the other.
pub open spec fn http_bytes(events: Seq<HttpEvent>) -> Seq<u8>
    decreases events.len(),
{
    if events.len() == 0 {
        Seq::empty()
    } else {
        let before = http_bytes(events.drop_last());
        match events.last() {
            HttpEvent::Received(_, data) => before + data,
            _ => before,
        }
    }
}

/// The sum of the lengths of all pieces.
pub open spec fn http_sum(events: Seq<HttpEvent>) -> nat
    decreases events.len(),
{
    if events.len() == 0 {
        0
    } else {
        http_sum(events.drop_last()) + match events.last() {
            HttpEvent::Received(_, data) => data.len(),
            _ => 0,
        }
    }
}

/// Whether at most one of the events sent a request, and at most one started a
/// connection.
pub open spec fn requests_once(events: Seq<HttpEvent>) -> bool {
    forall|i: int, j: int|
        #![trigger events[i], events[j]]
        0 <= i < j < events.len() ==> {
            &&& events[i] is Requested ==> !(events[j] is Requested)
            &&& events[i] == HttpEvent::Connected(true) ==> events[j] != HttpEvent::Connected(true)
        }
}

/// What holds of a download over HTTP at every moment.
spec fn http_inv(history: HttpHistory, events: Seq<HttpEvent>) -> bool {
    let download = history.download;
    &&& requests_once(events)
    &&& forall|i: int|
        0 <= i < events.len() && #[trigger] events[i] is Requested ==> download.start_ns is Some
    &&& forall|i: int|
        0 <= i < events.len() && #[trigger] events[i] == HttpEvent::Connected(true)
            ==> download.connector.started
    &&& download.start_ns matches Some(at) ==> events.contains(HttpEvent::Requested(at))
    &&& download.response == http_bytes(events)
    &&& http_bytes(events).len() == http_sum(events)
    &&& history.run.phase is Cancelled <==> events.len() > 0 && events.last() == HttpEvent::Round(
        true,
    )
    &&& history.run.phase is Complete <==> events.len() > 0 && events.last() is Completed
    &&& history.run.phase is Complete ==> download.completes(events.last()->Completed_0)
}

proof fn http_event_keeps_inv(history: HttpHistory, events: Seq<HttpEvent>, last: HttpEvent)
    requires
        http_inv(history, events),
        history.possible(last),
    ensures
        http_inv(history.next(last), events.push(last)),
{
    let all = events.push(last);
    let post = history.next(last);
    assert(all.drop_last() =~= events);
    assert(all.last() == last);
    assert forall|i: int| 0 <= i < events.len() implies #[trigger] all[i] == events[i] by {}
    if let Some(at) = post.download.start_ns {
        if history.download.start_ns == Some(at) {
            let i = choose|i: int|
                0 <= i < events.len() && #[trigger] events[i] == HttpEvent::Requested(at);
            assert(all[i] == HttpEvent::Requested(at));
        } else {
            assert(all[events.len() as int] == last);
        }
    }
}

proof fn http_keeps_inv(start_ns: u64, events: Seq<HttpEvent>)
    requires
        HttpHistory::fresh(start_ns).possible_all(events),
    ensures
        http_inv(HttpHistory::fresh(start_ns).after(events), events),
    decreases events.len(),
{
    let start = HttpHistory::fresh(start_ns);
    if events.len() > 0 {
        let before = events.drop_last();
        http_keeps_inv(start_ns, before);
        http_event_keeps_inv(start.after(before), before, events.last());
        assert(before.push(events.last()) =~= events);
    }
}

/// A whole download over HTTP. At most one connection is started and one request
/// sent, and the time starts with the request. The response is all pieces in their
/// order: the total is the sum of their lengths, and the size of the body is that of
/// the pieces put together, modulo the width of the counters. The download ends with
/// the shutdown, or when it is complete: the request was sent, the headers have come,
/// and the server has closed the connection. After the end nothing happens.
pub proof fn an_http_download_counts_everything(start_ns: u64, events: Seq<HttpEvent>)
    requires
        HttpHistory::fresh(start_ns).possible_all(events),
    ensures
        ({
            let history = HttpHistory::fresh(start_ns).after(events);
            let download = history.download;
            &&& requests_once(events)
            &&& download.start_ns matches Some(at) ==> events.contains(HttpEvent::Requested(at))
            &&& download.response == http_bytes(events)
            &&& total_count(download.response) == http_sum(events) % 0x1_0000_0000_0000_0000
            &&& body_count(download.response) == body_len(http_bytes(events))
                % 0x1_0000_0000_0000_0000
            &&& history.run.phase is Cancelled <==> events.len() > 0 && events.last()
                == HttpEvent::Round(true)
            &&& history.run.phase is Complete <==> events.len() > 0 && events.last() is Completed
            &&& history.run.phase is Complete ==> {
                &&& download.start_ns is Some
                &&& headers_complete(http_bytes(events))
                &&& events.last()->Completed_0.finished()
            }
            &&& !(history.run.phase is Running) ==> forall|event: HttpEvent|
                !history.possible(event)
        }),
{
    http_keeps_inv(start_ns, events);
}

} // verus!
