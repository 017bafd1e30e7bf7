//! What the test mode runs against: the targets on the command line.
use vstd::prelude::*;
use vstd::string::StrSliceExecFns;

use crate::scan::{find, parse_number, split};

verus! {

/// A server: an IPv4 address and a port.
#[derive(Clone, Copy, Debug, PartialEq, Eq)]
pub struct Target {
    pub ip: [u8; 4],
    pub port: u16,
}

/// A server: the four numbers of its address, and its port.
#[verifier::ext_equal]
pub struct TargetView {
    pub ip: Seq<u8>,
    pub port: u16,
}

impl View for Target {
    type V = TargetView;

    open spec fn view(&self) -> TargetView {
        TargetView { ip: self.ip@, port: self.port }
    }
}

/// Why a target cannot be read.
#[derive(Clone, Copy, Debug, PartialEq, Eq, Structural)]
pub enum TargetError {
    /// A bandwidth target is not made of two parts.
    BandwidthFormat,
    /// An HTTP target has no path.
    HttpFormat,
    /// The server of an HTTP target is not made of two parts.
    ServerFormat,
    /// The address does not have four numbers.
    IpAddress,
    /// The port is not a number, or too large.
    Port,
}

impl TargetError {
    /// The message of an error.
    pub open spec fn text(self) -> Seq<char> {
        match self {
            TargetError::BandwidthFormat =>
                "Invalid bandwidth target format. Use IP:PORT (e.g., 10.77.77.100:5000)"@,
            TargetError::HttpFormat =>
                "Invalid HTTP target format. Use IP:PORT/path (e.g., 10.77.77.100:8080/file.bin)"@,
            TargetError::ServerFormat => "Invalid IP:PORT format"@,
            TargetError::IpAddress => "Invalid IP address"@,
            TargetError::Port => "Invalid port"@,
        }
    }

    /// The message of an error.
    pub fn message(&self) -> (r: &'static str)
        ensures
            r@ == self.text(),
    {
        match self {
            TargetError::BandwidthFormat =>
                "Invalid bandwidth target format. Use IP:PORT (e.g., 10.77.77.100:5000)",
            TargetError::HttpFormat =>
                "Invalid HTTP target format. Use IP:PORT/path (e.g., 10.77.77.100:8080/file.bin)",
            TargetError::ServerFormat => "Invalid IP:PORT format",
            TargetError::IpAddress => "Invalid IP address",
            TargetError::Port => "Invalid port",
        }
    }
}

/// The address that a text names: four fields, each of which writes a byte.
pub open spec fn address_of(s: Seq<char>) -> Option<Seq<u8>> {
    let parts = crate::scan::fields(s, '.');
    if parts.len() == 4 && forall|i: int|
        0 <= i < 4 ==> crate::scan::number(#[trigger] parts[i], 255) is Some {
        Some(Seq::new(4, |i: int| crate::scan::number(parts[i], 255)->0 as u8))
    } else {
        None
    }
}

/// The server that a text names as address and port; `malformed` when it is not
/// made of two parts.
pub open spec fn server_of(s: Seq<char>, malformed: TargetError) -> Result<TargetView, TargetError> {
    let parts = crate::scan::fields(s, ':');
    if parts.len() != 2 {
        Err(malformed)
    } else {
        match (address_of(parts[0]), crate::scan::number(parts[1], 65535)) {
            (None, _) => Err(TargetError::IpAddress),
            (Some(_), None) => Err(TargetError::Port),
            (Some(ip), Some(port)) => Ok(TargetView { ip, port: port as u16 }),
        }
    }
}

/// Reads an address.
fn parse_address(s: &str) -> (r: Option<[u8; 4]>)
    ensures
        match r {
            Some(ip) => address_of(s@) == Some(ip@),
            None => address_of(s@) is None,
        },
{
    let parts = split(s, '.');
    let ghost all = crate::scan::fields(s@, '.');
    assert(all.len() == parts@.len());
    if parts.len() != 4 {
        return None;
    }
    let mut ip: [u8; 4] = [0u8; 4];
    let mut i: usize = 0;
    while i < 4
        invariant
            i <= 4,
            parts@.len() == 4,
            all == crate::scan::fields(s@, '.'),
            all == crate::scan::texts(parts@),
            forall|k: int|
                0 <= k < i ==> crate::scan::number(#[trigger] all[k], 255) == Some(ip@[k] as nat),
        decreases 4 - i,
    {
        assert(all[i as int] == parts@[i as int]@);
        match parse_number(parts[i], 255) {
            Some(n) => {
                ip[i] = n as u8;
            },
            None => {
                return None;
            },
        }
        i = i + 1;
    }
    assert(address_of(s@)->0 =~= ip@);
    Some(ip)
}

/// Reads a server as address and port.
fn parse_server(s: &str, malformed: TargetError) -> (r: Result<Target, TargetError>)
    ensures
        match r {
            Ok(target) => server_of(s@, malformed) == Ok::<TargetView, TargetError>(target@),
            Err(err) => server_of(s@, malformed) == Err::<TargetView, TargetError>(err),
        },
{
    let parts = split(s, ':');
    assert(crate::scan::texts(parts@).len() == parts@.len());
    if parts.len() != 2 {
        return Err(malformed);
    }
    match parse_address(parts[0]) {
        None => Err(TargetError::IpAddress),
        Some(ip) => match parse_number(parts[1], 65535) {
            None => Err(TargetError::Port),
            Some(port) => Ok(Target { ip, port: port as u16 }),
        },
    }
}

/// Reads a bandwidth target, `IP:PORT`.
pub fn parse_bandwidth_target(s: &str) -> (r: Result<Target, TargetError>)
    ensures
        match r {
            Ok(target) => server_of(s@, TargetError::BandwidthFormat) == Ok::<
                TargetView,
                TargetError,
            >(target@),
            Err(err) => server_of(s@, TargetError::BandwidthFormat) == Err::<
                TargetView,
                TargetError,
            >(err),
        },
{
    parse_server(s, TargetError::BandwidthFormat)
}

/// Reads an HTTP target, `IP:PORT/path`: the server, and the path with its slash.
pub fn parse_http_target<'a>(s: &'a str) -> (r: Result<(Target, &'a str), TargetError>)
    ensures
        ({
            let slash = crate::scan::position(s@, '/');
            if slash == s@.len() {
                r == Err::<(Target, &str), TargetError>(TargetError::HttpFormat)
            } else {
                match r {
                    Ok((target, path)) => server_of(s@.take(slash), TargetError::ServerFormat)
                        == Ok::<TargetView, TargetError>(target@) && path@ == s@.skip(slash),
                    Err(err) => server_of(s@.take(slash), TargetError::ServerFormat) == Err::<
                        TargetView,
                        TargetError,
                    >(err),
                }
            }
        }),
{
    match find(s, '/') {
        None => Err(TargetError::HttpFormat),
        Some(slash) => {
            let server = s.substring_char(0, slash);
            let path = s.substring_char(slash, s.unicode_len());
            assert(s@.subrange(0, slash as int) =~= s@.take(slash as int));
            assert(s@.subrange(slash as int, s@.len() as int) =~= s@.skip(slash as int));
            match parse_server(server, TargetError::ServerFormat) {
                Ok(target) => Ok((target, path)),
                Err(err) => Err(err),
            }
        },
    }
}

/// A server that is written as address and port is read back: the four numbers
/// of the address, and the port.
pub proof fn a_written_server_is_read_back(ip: [u8; 4], port: u16, malformed: TargetError)
    ensures
        server_of(
            crate::text::ipv4_text(ip@) + ":"@ + crate::text::decimal(port as nat),
            malformed,
        ) == Ok::<TargetView, TargetError>(TargetView { ip: ip@, port }),
{
    let a = crate::text::decimal(ip[0] as nat);
    let b = crate::text::decimal(ip[1] as nat);
    let c = crate::text::decimal(ip[2] as nat);
    let d = crate::text::decimal(ip[3] as nat);
    let p = crate::text::decimal(port as nat);
    let address = crate::text::ipv4_text(ip@);
    reveal_strlit(".");
    reveal_strlit(":");
    crate::scan::decimal_reads_back(ip[0] as nat);
    crate::scan::decimal_reads_back(ip[1] as nat);
    crate::scan::decimal_reads_back(ip[2] as nat);
    crate::scan::decimal_reads_back(ip[3] as nat);
    crate::scan::decimal_reads_back(port as nat);
    crate::scan::fields_of_one(a, '.');
    crate::scan::fields_of_one(b, '.');
    crate::scan::fields_of_one(c, '.');
    crate::scan::fields_of_one(d, '.');
    crate::scan::fields_of_one(p, ':');
    let ab = a.push('.') + b;
    let abc = ab.push('.') + c;
    crate::scan::fields_of_both_sides(a, '.', b);
    crate::scan::fields_of_both_sides(ab, '.', c);
    crate::scan::fields_of_both_sides(abc, '.', d);
    assert(address =~= abc.push('.') + d);
    assert(crate::scan::fields(address, '.') =~= seq![a, b, c, d]);
    assert forall|k: int| 0 <= k < address.len() implies address[k] != ':' by {
        assert(!a.contains(':') && !b.contains(':') && !c.contains(':') && !d.contains(':'));
        if k < a.len() {
            assert(a[k] == address[k]);
        } else if k == a.len() {
        } else if k < ab.len() {
            assert(b[k - a.len() - 1] == address[k]);
        } else if k == ab.len() {
        } else if k < abc.len() {
            assert(c[k - ab.len() - 1] == address[k]);
        } else if k > abc.len() {
            assert(d[k - abc.len() - 1] == address[k]);
        }
    }
    crate::scan::fields_of_one(address, ':');
    crate::scan::fields_of_both_sides(address, ':', p);
    assert(address + ":"@ + p =~= address.push(':') + p);
    assert(crate::scan::fields(address.push(':') + p, ':') =~= seq![address, p]);
    assert(address_of(address)->0 =~= ip@);
}

/// What the test mode measures.
#[derive(Debug)]
pub enum TestPlan<'a> {
    /// An HTTP download of a path.
    Http(Target, &'a str),
    /// A TCP download.
    Tcp(Target),
    /// DHCP and pings.
    Ping,
}

/// What the test mode measures, as texts.
pub enum PlanView {
    Http(TargetView, Seq<char>),
    Tcp(TargetView),
    Ping,
}

impl<'a> View for TestPlan<'a> {
    type V = PlanView;

    open spec fn view(&self) -> PlanView {
        match self {
            TestPlan::Http(target, path) => PlanView::Http(target@, path@),
            TestPlan::Tcp(target) => PlanView::Tcp(target@),
            TestPlan::Ping => PlanView::Ping,
        }
    }
}

/// The test that options ask for: an HTTP target comes before a bandwidth target,
/// which is measured over TCP; without either, pings are sent.
pub open spec fn plan_of(http: Option<Seq<char>>, bandwidth: Option<Seq<char>>) -> Result<
    PlanView,
    TargetError,
> {
    match (http, bandwidth) {
        (Some(s), _) => {
            let slash = crate::scan::position(s, '/');
            if slash == s.len() {
                Err(TargetError::HttpFormat)
            } else {
                match server_of(s.take(slash), TargetError::ServerFormat) {
                    Ok(server) => Ok(PlanView::Http(server, s.skip(slash))),
                    Err(err) => Err(err),
                }
            }
        },
        (None, Some(s)) => match server_of(s, TargetError::BandwidthFormat) {
            Ok(server) => Ok(PlanView::Tcp(server)),
            Err(err) => Err(err),
        },
        (None, None) => Ok(PlanView::Ping),
    }
}

/// The text of an option.
pub open spec fn option_text(s: Option<&str>) -> Option<Seq<char>> {
    match s {
        Some(text) => Some(text@),
        None => None,
    }
}

/// Chooses the test over serial.
pub fn serial_test_plan<'a>(http: Option<&'a str>, bandwidth: Option<&'a str>) -> (r: Result<
    TestPlan<'a>,
    TargetError,
>)
    ensures
        match r {
            Ok(plan) => plan_of(option_text(http), option_text(bandwidth)) == Ok::<
                PlanView,
                TargetError,
            >(plan@),
            Err(err) => plan_of(option_text(http), option_text(bandwidth)) == Err::<
                PlanView,
                TargetError,
            >(err),
        },
{
    match http {
        Some(s) => match parse_http_target(s) {
            Ok((target, path)) => Ok(TestPlan::Http(target, path)),
            Err(err) => Err(err),
        },
        None => match bandwidth {
            Some(s) => match parse_bandwidth_target(s) {
                Ok(target) => Ok(TestPlan::Tcp(target)),
                Err(err) => Err(err),
            },
            None => Ok(TestPlan::Ping),
        },
    }
}

/// Chooses the test over USB, in the same way.
pub fn nusb_test_plan<'a>(http: Option<&'a str>, bandwidth: Option<&'a str>) -> (r: Result<
    TestPlan<'a>,
    TargetError,
>)
    ensures
        match r {
            Ok(plan) => plan_of(option_text(http), option_text(bandwidth)) == Ok::<
                PlanView,
                TargetError,
            >(plan@),
            Err(err) => plan_of(option_text(http), option_text(bandwidth)) == Err::<
                PlanView,
                TargetError,
            >(err),
        },
{
    serial_test_plan(http, bandwidth)
}

/// What a text names as a server. There is one colon in it, four fields between dots
/// before the colon that are the bytes of the address in their order, and a number up to
/// 65535 behind it, which is the port. Each way to miss that has an error of its own: the
/// number of colons comes first, then the address, then the port.
#[verifier::rlimit(60)]
#[verifier::spinoff_prover]
pub proof fn a_server_is_what_its_text_says(s: Seq<char>, malformed: TargetError)
    ensures
        ({
            let parts = crate::scan::fields(s, ':');
            let bytes = crate::scan::fields(parts[0], '.');
            let is_address = bytes.len() == 4 && crate::scan::number(bytes[0], 255) is Some
                && crate::scan::number(bytes[1], 255) is Some && crate::scan::number(bytes[2], 255)
                is Some && crate::scan::number(bytes[3], 255) is Some;
            match server_of(s, malformed) {
                Ok(target) => {
                    &&& parts.len() == 2
                    &&& is_address
                    &&& target.ip.len() == 4
                    &&& crate::scan::number(bytes[0], 255) == Some(target.ip[0] as nat)
                    &&& crate::scan::number(bytes[1], 255) == Some(target.ip[1] as nat)
                    &&& crate::scan::number(bytes[2], 255) == Some(target.ip[2] as nat)
                    &&& crate::scan::number(bytes[3], 255) == Some(target.ip[3] as nat)
                    &&& crate::scan::number(parts[1], 65535) == Some(target.port as nat)
                },
                Err(err) => {
                    ||| parts.len() != 2 && err == malformed
                    ||| parts.len() == 2 && !is_address && err == TargetError::IpAddress
                    ||| parts.len() == 2 && is_address && crate::scan::number(parts[1], 65535)
                        is None && err == TargetError::Port
                },
            }
        }),
{
    let parts = crate::scan::fields(s, ':');
    let bytes = crate::scan::fields(parts[0], '.');
    if bytes.len() == 4 {
        assert(crate::scan::number(bytes[0], 255) is Some && crate::scan::number(bytes[1], 255)
            is Some && crate::scan::number(bytes[2], 255) is Some && crate::scan::number(
            bytes[3],
            255,
        ) is Some ==> forall|i: int|
            0 <= i < 4 ==> crate::scan::number(#[trigger] bytes[i], 255) is Some);
    }
}

/// The options choose the test: an HTTP target is downloaded from its server, with its
/// path from the first slash on, whatever else is asked for; a bandwidth target alone is
/// measured over TCP; and without any, pings are sent. A target that is written as address
/// and port is the one that is used.
#[verifier::rlimit(60)]
#[verifier::spinoff_prover]
pub proof fn options_choose_their_test(ip: [u8; 4], port: u16, path: Seq<char>, other: Option<Seq<char>>, third: Option<Seq<char>>, s: Seq<char>)
    ensures
        ({
            let server = crate::text::ipv4_text(ip@) + ":"@ + crate::text::decimal(port as nat);
            let target = TargetView { ip: ip@, port };
            &&& plan_of(None, None) == Ok::<PlanView, TargetError>(PlanView::Ping)
            &&& plan_of(None, Some(server)) == Ok::<PlanView, TargetError>(PlanView::Tcp(target))
            &&& plan_of(Some(server.push('/') + path), other) == Ok::<PlanView, TargetError>(
                PlanView::Http(target, seq!['/'] + path),
            )
            &&& !s.contains('/') ==> plan_of(Some(s), other) == Err::<PlanView, TargetError>(
                TargetError::HttpFormat,
            )
            &&& plan_of(Some(s), other) == plan_of(Some(s), third)
            &&& crate::scan::fields(s, ':').len() != 2 ==> plan_of(None, Some(s)) == Err::<
                PlanView,
                TargetError,
            >(TargetError::BandwidthFormat)
            &&& plan_of(Some(s), other) matches Ok(plan) ==> plan is Http
            &&& plan_of(None, Some(s)) matches Ok(plan) ==> plan is Tcp
        }),
{
    let server = crate::text::ipv4_text(ip@) + ":"@ + crate::text::decimal(port as nat);
    a_written_server_is_read_back(ip, port, TargetError::BandwidthFormat);
    a_written_server_is_read_back(ip, port, TargetError::ServerFormat);
    let whole = server.push('/') + path;
    let slash = crate::scan::position(whole, '/');
    crate::scan::position_is_first(whole, '/');
    crate::text::ipv4_is_plain(ip@);
    crate::scan::decimal_reads_back(port as nat);
    reveal_strlit(":");
    let text = crate::text::ipv4_text(ip@);
    let digits = crate::text::decimal(port as nat);
    assert forall|k: int| 0 <= k < server.len() implies server[k] != '/' by {
        if k < text.len() {
            assert(server[k] == text[k]);
            assert(text.contains(text[k]));
        } else if k > text.len() {
            assert(server[k] == digits[k - text.len() - 1]);
            assert(crate::scan::is_digit(server[k]));
        }
    }
    assert(whole[server.len() as int] == '/');
    if slash < server.len() {
        assert(whole[slash] == server[slash]);
    }
    assert(slash == server.len());
    assert(whole.take(slash) =~= server);
    assert(whole.skip(slash) =~= seq!['/'] + path);
    crate::scan::position_is_first(s, '/');
    if !s.contains('/') && crate::scan::position(s, '/') < s.len() {
        assert(s.contains(s[crate::scan::position(s, '/')]));
    }
}

/// A target and a plan are seen as what they are.
pub proof fn plans_are_seen_as_they_are<'a>(target: Target, plan: TestPlan<'a>)
    ensures
        target@.ip == target.ip@ && target@.port == target.port,
        plan is Ping <==> plan@ is Ping,
        plan matches TestPlan::Tcp(server) ==> plan@ == PlanView::Tcp(server@),
        plan matches TestPlan::Http(server, path) ==> plan@ == PlanView::Http(server@, path@),
{
}

/// An option is seen as its text, when it is given.
pub proof fn options_are_seen_as_they_are(s: Option<&str>)
    ensures
        option_text(s) is Some <==> s is Some,
        s matches Some(text) ==> option_text(s) == Some(text@),
{
}

} // verus!
