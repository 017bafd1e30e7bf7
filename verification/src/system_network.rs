//! Using the TAP interface as the internet connection of the system: a temporary
//! NetworkManager profile is added, activated, watched and removed again.
use vstd::prelude::*;
use vstd::string::StrSliceExecFns;
use vstd::string::StringExecFns;

use crate::scan::{contains, find, find_last, same, split, split_words, trim};
use crate::text::{append_decimal, format_mac};

verus! {

/// How often the TAP interface is looked for.
pub const TAP_POLL_MS: u64 = 100;

/// The host in an endpoint: what stands between brackets, or before the last
/// colon, or everything.
pub open spec fn host_of(endpoint: Seq<char>) -> Seq<char> {
    let rest = endpoint.drop_first();
    let end = crate::scan::position(rest, ']');
    let colon = crate::scan::last_position(endpoint, ':');
    if endpoint.len() > 0 && endpoint[0] == '[' && end < rest.len() {
        rest.take(end)
    } else if colon >= 0 {
        endpoint.take(colon)
    } else {
        endpoint
    }
}

/// Extracts the host from an endpoint.
pub fn endpoint_host(endpoint: &str) -> (r: &str)
    ensures
        r@ == host_of(endpoint@),
{
    let n: usize = endpoint.unicode_len();
    if n > 0 && endpoint.get_char(0) == '[' {
        let rest = endpoint.substring_char(1, n);
        assert(rest@ =~= endpoint@.drop_first());
        if let Some(end) = find(rest, ']') {
            assert(rest@.subrange(0, end as int) =~= rest@.take(end as int));
            return rest.substring_char(0, end);
        }
    }
    match find_last(endpoint, ':') {
        Some(colon) => {
            assert(endpoint@.subrange(0, colon as int) =~= endpoint@.take(colon as int));
            endpoint.substring_char(0, colon)
        },
        None => endpoint,
    }
}

/// A program and its arguments.
#[derive(Debug)]
pub struct CommandLine {
    pub program: &'static str,
    pub args: Vec<String>,
}

/// A program and its arguments, as texts.
#[verifier::ext_equal]
pub struct CommandView {
    pub program: Seq<char>,
    pub args: Seq<Seq<char>>,
}

/// The texts of a list of strings.
pub open spec fn strings(list: Seq<String>) -> Seq<Seq<char>> {
    Seq::new(list.len(), |i: int| list[i]@)
}

impl View for CommandLine {
    type V = CommandView;

    open spec fn view(&self) -> CommandView {
        CommandView { program: self.program@, args: strings(self.args@) }
    }
}

impl CommandLine {
    /// A program without arguments.
    fn new(program: &'static str) -> (r: CommandLine)
        ensures
            r@ == (CommandView { program: program@, args: Seq::empty() }),
    {
        let r = CommandLine { program, args: Vec::new() };
        assert(strings(r.args@) =~= Seq::empty());
        r
    }

    /// Adds an argument.
    fn arg(&mut self, text: &str)
        ensures
            final(self)@ == (CommandView {
                program: old(self)@.program,
                args: old(self)@.args.push(text@),
            }),
    {
        let ghost before = self.args@;
        self.args.push(text.to_owned());
        assert(strings(self.args@) =~= strings(before).push(text@));
    }
}

/// Arguments with a space between them.
pub open spec fn spaced(args: Seq<Seq<char>>) -> Seq<char>
    decreases args.len(),
{
    if args.len() == 0 {
        Seq::empty()
    } else if args.len() == 1 {
        args[0]
    } else {
        spaced(args.drop_last()) + " "@ + args.last()
    }
}

/// What a command gives back: its output, or a message that names the command.
pub open spec fn outcome_of(command: CommandView, success: bool, stdout: Seq<char>, stderr: Seq<
    char,
>) -> Result<Seq<char>, Seq<char>> {
    if success {
        Ok(crate::scan::trimmed(stdout))
    } else {
        Err(
            command.program + " "@ + spaced(command.args) + " failed: "@ + crate::scan::trimmed(
                stderr,
            ),
        )
    }
}

/// The texts of a result.
pub open spec fn result_view(r: Result<String, String>) -> Result<Seq<char>, Seq<char>> {
    match r {
        Ok(s) => Ok(s@),
        Err(s) => Err(s@),
    }
}

/// Writes arguments with a space between them.
fn join_args(args: &Vec<String>) -> (r: String)
    ensures
        r@ == spaced(strings(args@)),
{
    let mut out = String::new();
    let ghost all = strings(args@);
    let mut i: usize = 0;
    assert(out@ =~= spaced(all.take(0)));
    while i < args.len()
        invariant
            i <= args.len(),
            all == strings(args@),
            out@ == spaced(all.take(i as int)),
        decreases args.len() - i,
    {
        let ghost more = all.take(i + 1);
        assert(more.drop_last() =~= all.take(i as int));
        if i > 0 {
            out.append(" ");
        }
        out.append(args[i].as_str());
        assert(i == 0 ==> out@ =~= all[0]);
        i = i + 1;
    }
    assert(all.take(args.len() as int) =~= all);
    out
}

/// Turns what a command printed into its result.
pub fn command_outcome(command: &CommandLine, success: bool, stdout: &str, stderr: &str) -> (r:
    Result<String, String>)
    ensures
        result_view(r) == outcome_of(command@, success, stdout@, stderr@),
{
    if success {
        Ok(trim(stdout).to_owned())
    } else {
        let mut message = command.program.to_owned();
        message.append(" ");
        let args = join_args(&command.args);
        message.append(args.as_str());
        message.append(" failed: ");
        message.append(trim(stderr));
        Err(message)
    }
}

/// The name of the temporary profile of a process that started at a time.
pub open spec fn profile_text(pid: u32, started_secs: u64) -> Seq<char> {
    "lamella-esp32tap-"@ + crate::text::decimal(pid as nat) + "-"@ + crate::text::decimal(
        started_secs as nat,
    )
}

/// Names the temporary profile of a process that started at a time.
pub fn profile_name(pid: u32, started_secs: u64) -> (r: String)
    ensures
        r@ == profile_text(pid, started_secs),
{
    let mut out = "lamella-esp32tap-".to_owned();
    append_decimal(&mut out, pid as u64);
    out.append("-");
    append_decimal(&mut out, started_secs);
    out
}

/// The command that looks for the TAP interface.
pub open spec fn probe_command() -> CommandView {
    CommandView { program: "ip"@, args: seq!["link"@, "show"@, "dev"@, "esp32tap"@] }
}

/// The command that asks whether NetworkManager runs.
pub open spec fn status_command() -> CommandView {
    CommandView { program: "nmcli"@, args: seq!["general"@, "status"@] }
}

/// The command that adds the profile: DHCP for IPv4 with the given route metric,
/// no IPv6, and no activation by itself.
pub open spec fn add_command(profile: Seq<char>, metric: u32) -> CommandView {
    CommandView {
        program: "nmcli"@,
        args: seq![
            "connection"@,
            "add"@,
            "type"@,
            "tun"@,
            "ifname"@,
            "esp32tap"@,
            "con-name"@,
            profile,
            "mode"@,
            "tap"@,
            "connection.autoconnect"@,
            "no"@,
            "ipv4.method"@,
            "auto"@,
            "ipv4.route-metric"@,
            crate::text::decimal(metric as nat),
            "ipv4.never-default"@,
            "no"@,
            "ipv6.method"@,
            "disabled"@,
        ],
    }
}

/// The command that keeps the MAC address of the TAP interface.
pub open spec fn preserve_command(profile: Seq<char>) -> CommandView {
    CommandView {
        program: "nmcli"@,
        args: seq![
            "connection"@,
            "modify"@,
            "id"@,
            profile,
            "ethernet.cloned-mac-address"@,
            "preserve"@,
        ],
    }
}

/// The command that activates the profile.
pub open spec fn activate_command(profile: Seq<char>) -> CommandView {
    CommandView {
        program: "nmcli"@,
        args: seq![
            "--wait"@,
            "45"@,
            "connection"@,
            "up"@,
            "id"@,
            profile,
            "ifname"@,
            "esp32tap"@,
        ],
    }
}

/// The command that shows what was configured.
pub open spec fn show_command() -> CommandView {
    CommandView {
        program: "nmcli"@,
        args: seq![
            "--fields"@,
            "GENERAL.STATE,GENERAL.HWADDR,IP4.ADDRESS,IP4.GATEWAY,IP4.DNS"@,
            "device"@,
            "show"@,
            "esp32tap"@,
        ],
    }
}

/// The command that asks for the route to the internet.
pub open spec fn route_command() -> CommandView {
    CommandView { program: "ip"@, args: seq!["-4"@, "route"@, "get"@, "1.1.1.1"@] }
}

/// The command that lists the WireGuard interfaces.
pub open spec fn interfaces_command() -> CommandView {
    CommandView { program: "wg"@, args: seq!["show"@, "interfaces"@] }
}

/// The command that lists the endpoints of a WireGuard interface.
pub open spec fn endpoints_command(interface: Seq<char>) -> CommandView {
    CommandView { program: "wg"@, args: seq!["show"@, interface, "endpoints"@] }
}

/// The command that asks for the mark of a WireGuard interface.
pub open spec fn fwmark_command(interface: Seq<char>) -> CommandView {
    CommandView { program: "wg"@, args: seq!["show"@, interface, "fwmark"@] }
}

/// The command that asks for the route to a WireGuard endpoint: by the family of
/// its host, and with the mark of the interface when there is one.
pub open spec fn endpoint_route_command(endpoint: Seq<char>, fwmark: Seq<char>) -> CommandView {
    let host = host_of(endpoint);
    let args = seq![
        if host.contains(':') {
            "-6"@
        } else {
            "-4"@
        },
        "route"@,
        "get"@,
        host,
    ];
    CommandView {
        program: "ip"@,
        args: if fwmark == "off"@ {
            args
        } else {
            args.push("mark"@).push(fwmark)
        },
    }
}

/// The command that removes the profile.
pub open spec fn delete_command(profile: Seq<char>) -> CommandView {
    CommandView { program: "nmcli"@, args: seq!["connection"@, "delete"@, "id"@, profile] }
}

/// The MTU of the TAP interface: that of WiFi less the Ethernet header.
pub const TAP_MTU: u16 = 1478;

/// The command that gives the TAP interface a MAC address.
pub open spec fn address_command(mac: [u8; 6]) -> CommandView {
    CommandView {
        program: "ip"@,
        args: seq!["link"@, "set"@, "esp32tap"@, "address"@, crate::text::mac_text(mac)],
    }
}

/// The command that gives the TAP interface the MAC address of the device.
pub fn set_tap_address(mac: &[u8; 6]) -> (r: CommandLine)
    ensures
        r@ == address_command(*mac),
{
    let text = format_mac(mac);
    let mut c = CommandLine::new("ip");
    c.arg("link");
    c.arg("set");
    c.arg("esp32tap");
    c.arg("address");
    c.arg(text.as_str());
    c
}

/// What the TAP interface is created with, once the command that sets its address
/// ended with success or not, or could not be run.
pub fn tap_address_outcome(ended: Result<bool, String>) -> (r: Result<(), String>)
    ensures
        match ended {
            Ok(true) => r is Ok,
            Ok(false) => r matches Err(message) && message@ == "Failed to set TAP MAC address"@,
            Err(err) => r matches Err(message) && message@ == "Failed to run ip command: "@ + err@,
        },
{
    match ended {
        Ok(success) => if success {
            Ok(())
        } else {
            Err("Failed to set TAP MAC address".to_owned())
        },
        Err(err) => {
            let mut message = "Failed to run ip command: ".to_owned();
            message.append(err.as_str());
            Err(message)
        },
    }
}

/// The command that looks for the TAP interface.
pub fn probe_tap() -> (r: CommandLine)
    ensures
        r@ == probe_command(),
{
    let mut c = CommandLine::new("ip");
    c.arg("link");
    c.arg("show");
    c.arg("dev");
    c.arg("esp32tap");
    c
}

/// The command that adds the profile.
pub fn add_profile(profile: &str, metric: u32) -> (r: CommandLine)
    ensures
        r@ == add_command(profile@, metric),
{
    let mut number = String::new();
    append_decimal(&mut number, metric as u64);
    assert(number@ =~= crate::text::decimal(metric as nat));
    let mut c = CommandLine::new("nmcli");
    c.arg("connection");
    c.arg("add");
    c.arg("type");
    c.arg("tun");
    c.arg("ifname");
    c.arg("esp32tap");
    c.arg("con-name");
    c.arg(profile);
    c.arg("mode");
    c.arg("tap");
    c.arg("connection.autoconnect");
    c.arg("no");
    c.arg("ipv4.method");
    c.arg("auto");
    c.arg("ipv4.route-metric");
    c.arg(number.as_str());
    c.arg("ipv4.never-default");
    c.arg("no");
    c.arg("ipv6.method");
    c.arg("disabled");
    c
}

/// The command that activates the profile.
pub fn activate_profile(profile: &str) -> (r: CommandLine)
    ensures
        r@ == activate_command(profile@),
{
    let mut c = CommandLine::new("nmcli");
    c.arg("--wait");
    c.arg("45");
    c.arg("connection");
    c.arg("up");
    c.arg("id");
    c.arg(profile);
    c.arg("ifname");
    c.arg("esp32tap");
    c
}

/// The command that asks whether NetworkManager runs.
pub fn show_status() -> (r: CommandLine)
    ensures
        r@ == status_command(),
{
    let mut c = CommandLine::new("nmcli");
    c.arg("general");
    c.arg("status");
    c
}

/// The command that keeps the MAC address of the TAP interface. NetworkManager
/// would otherwise give it a random one when it adopts the interface.
pub fn preserve_mac(profile: &str) -> (r: CommandLine)
    ensures
        r@ == preserve_command(profile@),
{
    let mut c = CommandLine::new("nmcli");
    c.arg("connection");
    c.arg("modify");
    c.arg("id");
    c.arg(profile);
    c.arg("ethernet.cloned-mac-address");
    c.arg("preserve");
    c
}

/// The command that shows what was configured.
pub fn show_details() -> (r: CommandLine)
    ensures
        r@ == show_command(),
{
    let mut c = CommandLine::new("nmcli");
    c.arg("--fields");
    c.arg("GENERAL.STATE,GENERAL.HWADDR,IP4.ADDRESS,IP4.GATEWAY,IP4.DNS");
    c.arg("device");
    c.arg("show");
    c.arg("esp32tap");
    c
}

/// The command that asks for the route to the internet.
pub fn show_route() -> (r: CommandLine)
    ensures
        r@ == route_command(),
{
    let mut c = CommandLine::new("ip");
    c.arg("-4");
    c.arg("route");
    c.arg("get");
    c.arg("1.1.1.1");
    c
}

/// The command that lists the WireGuard interfaces.
pub fn list_interfaces() -> (r: CommandLine)
    ensures
        r@ == interfaces_command(),
{
    let mut c = CommandLine::new("wg");
    c.arg("show");
    c.arg("interfaces");
    c
}

/// The command that lists the endpoints of a WireGuard interface.
pub fn list_endpoints(interface: &str) -> (r: CommandLine)
    ensures
        r@ == endpoints_command(interface@),
{
    let mut c = CommandLine::new("wg");
    c.arg("show");
    c.arg(interface);
    c.arg("endpoints");
    c
}

/// The command that asks for the mark of a WireGuard interface.
pub fn show_fwmark(interface: &str) -> (r: CommandLine)
    ensures
        r@ == fwmark_command(interface@),
{
    let mut c = CommandLine::new("wg");
    c.arg("show");
    c.arg(interface);
    c.arg("fwmark");
    c
}

/// The command that removes the profile.
pub fn delete_profile(profile: &str) -> (r: CommandLine)
    ensures
        r@ == delete_command(profile@),
{
    let mut c = CommandLine::new("nmcli");
    c.arg("connection");
    c.arg("delete");
    c.arg("id");
    c.arg(profile);
    c
}

/// The command that asks for the route to a WireGuard endpoint.
pub fn endpoint_route(endpoint: &str, fwmark: &str) -> (r: CommandLine)
    ensures
        r@ == endpoint_route_command(endpoint@, fwmark@),
{
    let host = endpoint_host(endpoint);
    let mut c = CommandLine::new("ip");
    proof {
        crate::scan::position_is_first(host@, ':');
    }
    match find(host, ':') {
        Some(_) => c.arg("-6"),
        None => c.arg("-4"),
    }
    c.arg("route");
    c.arg("get");
    c.arg(host);
    if !same(fwmark, "off") {
        c.arg("mark");
        c.arg(fwmark);
    }
    c
}

/// Whether a route goes through the TAP interface.
pub fn route_uses_tap(route: &str) -> (r: bool)
    ensures
        r == crate::scan::occurs("dev esp32tap"@, route@),
{
    contains(route, "dev esp32tap")
}

/// The second word of each line that has one.
pub open spec fn second_words(lines: Seq<Seq<char>>) -> Seq<Seq<char>>
    decreases lines.len(),
{
    if lines.len() == 0 {
        Seq::empty()
    } else {
        let before = second_words(lines.drop_last());
        let line = crate::scan::words(lines.last());
        if line.len() >= 2 {
            before.push(line[1])
        } else {
            before
        }
    }
}

/// The endpoints in a listing: the second word of each line.
pub open spec fn endpoints_of(listing: Seq<char>) -> Seq<Seq<char>> {
    second_words(crate::scan::fields(listing, '\n'))
}

proof fn strings_of_push(list: Seq<String>, s: String)
    ensures
        strings(list.push(s)) == strings(list).push(s@),
{
    assert(strings(list.push(s)) =~= strings(list).push(s@));
}

/// Reads the endpoints in a listing.
pub fn parse_endpoints(listing: &str) -> (r: Vec<String>)
    ensures
        strings(r@) == endpoints_of(listing@),
{
    let lines = split(listing, '\n');
    let ghost all = crate::scan::texts(lines@);
    let mut out: Vec<String> = Vec::new();
    let mut i: usize = 0;
    assert(strings(out@) =~= second_words(all.take(0)));
    while i < lines.len()
        invariant
            i <= lines.len(),
            all == crate::scan::texts(lines@),
            strings(out@) == second_words(all.take(i as int)),
        decreases lines.len() - i,
    {
        assert(all.take(i + 1).drop_last() =~= all.take(i as int));
        let line = split_words(lines[i]);
        assert(crate::scan::texts(line@).len() == line@.len());
        if line.len() >= 2 {
            let word = line[1].to_owned();
            proof {
                assert(word@ == crate::scan::texts(line@)[1]);
                strings_of_push(out@, word);
            }
            out.push(word);
        }
        i = i + 1;
    }
    assert(all.take(lines.len() as int) =~= all);
    out
}

/// Reads the interfaces in a listing: its words.
pub fn parse_interfaces(listing: &str) -> (r: Vec<String>)
    ensures
        strings(r@) == crate::scan::words(listing@),
{
    let list = split_words(listing);
    let ghost all = crate::scan::texts(list@);
    let mut out: Vec<String> = Vec::new();
    let mut i: usize = 0;
    assert(strings(out@) =~= all.take(0));
    while i < list.len()
        invariant
            i <= list.len(),
            all == crate::scan::texts(list@),
            strings(out@) == all.take(i as int),
        decreases list.len() - i,
    {
        let word = list[i].to_owned();
        proof {
            strings_of_push(out@, word);
            assert(all.take(i + 1) =~= all.take(i as int).push(word@));
        }
        out.push(word);
        i = i + 1;
    }
    assert(all.take(list.len() as int) =~= all);
    out
}

/// Whether a command gives a value to an option: the value stands right after it.
pub open spec fn gives(command: CommandView, option: Seq<char>, value: Seq<char>) -> bool {
    exists|i: int|
        0 <= i < command.args.len() - 1 && #[trigger] command.args[i] == option && command.args[i
            + 1] == value
}

/// Whether a command gives an option a value that reads as a number.
pub open spec fn gives_number(command: CommandView, option: Seq<char>, n: u32) -> bool {
    exists|value: Seq<char>|
        #[trigger] gives(command, option, value) && crate::scan::number(value, u32::MAX as nat)
            == Some(n as nat)
}

/// The profile is added with the metric that was asked for: what follows the option reads
/// back as it, and two metrics give two commands. It is a TAP profile of the given name
/// on the TAP interface, takes its IPv4 address and the default route from the network,
/// has no IPv6, and is not activated by itself.
#[verifier::rlimit(60)]
#[verifier::spinoff_prover]
pub proof fn the_profile_is_added_as_asked(profile: Seq<char>, metric: u32, other: u32)
    ensures
        ({
            let command = add_command(profile, metric);
            &&& command.program == "nmcli"@
            &&& command.args.len() == 20
            &&& command.args[0] == "connection"@ && command.args[1] == "add"@
            &&& gives_number(command, "ipv4.route-metric"@, metric)
            &&& gives(command, "type"@, "tun"@)
            &&& gives(command, "ifname"@, "esp32tap"@)
            &&& gives(command, "con-name"@, profile)
            &&& gives(command, "mode"@, "tap"@)
            &&& gives(command, "connection.autoconnect"@, "no"@)
            &&& gives(command, "ipv4.method"@, "auto"@)
            &&& gives(command, "ipv4.never-default"@, "no"@)
            &&& gives(command, "ipv6.method"@, "disabled"@)
            &&& metric != other ==> command != add_command(profile, other)
        }),
{
    let command = add_command(profile, metric);
    let again = add_command(profile, other);
    crate::scan::decimal_reads_back(metric as nat);
    crate::scan::decimal_reads_back(other as nat);
    let number = crate::text::decimal(metric as nat);
    assert(command.args[14] == "ipv4.route-metric"@ && command.args[15] == number);
    assert(again.args[15] == crate::text::decimal(other as nat));
    assert(gives(command, "ipv4.route-metric"@, number));
    assert(command.args[2] == "type"@ && command.args[3] == "tun"@);
    assert(command.args[4] == "ifname"@ && command.args[5] == "esp32tap"@);
    assert(command.args[6] == "con-name"@ && command.args[7] == profile);
    assert(command.args[8] == "mode"@ && command.args[9] == "tap"@);
    assert(command.args[10] == "connection.autoconnect"@ && command.args[11] == "no"@);
    assert(command.args[12] == "ipv4.method"@ && command.args[13] == "auto"@);
    assert(command.args[16] == "ipv4.never-default"@ && command.args[17] == "no"@);
    assert(command.args[18] == "ipv6.method"@ && command.args[19] == "disabled"@);
}

/// What is added is what is changed, activated and removed: each of the commands names the
/// same profile, and says what is to be done with it.
pub proof fn every_command_names_the_profile(profile: Seq<char>, metric: u32)
    ensures
        ({
            let add = add_command(profile, metric);
            let keep = preserve_command(profile);
            let up = activate_command(profile);
            let delete = delete_command(profile);
            &&& gives(add, "con-name"@, profile)
            &&& keep.program == "nmcli"@ && keep.args.len() == 6
            &&& keep.args[0] == "connection"@ && keep.args[1] == "modify"@
            &&& gives(keep, "id"@, profile)
            &&& gives(keep, "ethernet.cloned-mac-address"@, "preserve"@)
            &&& up.program == "nmcli"@ && up.args.len() == 8
            &&& gives(up, "--wait"@, "45"@)
            &&& gives(up, "connection"@, "up"@)
            &&& gives(up, "id"@, profile)
            &&& gives(up, "ifname"@, "esp32tap"@)
            &&& delete.program == "nmcli"@ && delete.args.len() == 4
            &&& gives(delete, "connection"@, "delete"@)
            &&& gives(delete, "id"@, profile)
        }),
{
    let add = add_command(profile, metric);
    let keep = preserve_command(profile);
    let up = activate_command(profile);
    let delete = delete_command(profile);
    assert(add.args[6] == "con-name"@);
    assert(keep.args[2] == "id"@);
    assert(keep.args[4] == "ethernet.cloned-mac-address"@);
    assert(up.args[0] == "--wait"@ && up.args[1] == "45"@);
    assert(up.args[2] == "connection"@ && up.args[3] == "up"@);
    assert(up.args[4] == "id"@ && up.args[6] == "ifname"@ && up.args[7] == "esp32tap"@);
    assert(delete.args[0] == "connection"@ && delete.args[2] == "id"@);
}

/// The questions that a session asks: each of them names what it is about, and none of
/// them changes anything.
pub proof fn the_questions_name_their_subject(interface: Seq<char>)
    ensures
        probe_command().program == "ip"@ && probe_command().args == seq![
            "link"@,
            "show"@,
            "dev"@,
            "esp32tap"@,
        ],
        status_command().program == "nmcli"@ && gives(status_command(), "general"@, "status"@),
        show_command().program == "nmcli"@ && gives(show_command(), "device"@, "show"@) && gives(
            show_command(),
            "show"@,
            "esp32tap"@,
        ),
        gives(
            show_command(),
            "--fields"@,
            "GENERAL.STATE,GENERAL.HWADDR,IP4.ADDRESS,IP4.GATEWAY,IP4.DNS"@,
        ),
        route_command().program == "ip"@ && gives(route_command(), "route"@, "get"@) && gives(
            route_command(),
            "get"@,
            "1.1.1.1"@,
        ) && route_command().args[0] == "-4"@,
        interfaces_command().program == "wg"@ && gives(
            interfaces_command(),
            "show"@,
            "interfaces"@,
        ),
        endpoints_command(interface).program == "wg"@ && gives(
            endpoints_command(interface),
            "show"@,
            interface,
        ) && endpoints_command(interface).args.last() == "endpoints"@,
        fwmark_command(interface).program == "wg"@ && gives(
            fwmark_command(interface),
            "show"@,
            interface,
        ) && fwmark_command(interface).args.last() == "fwmark"@,
{
    assert(status_command().args[0] == "general"@ && status_command().args[1] == "status"@);
    assert(show_command().args[0] == "--fields"@);
    assert(show_command().args[2] == "device"@ && show_command().args[3] == "show"@);
    assert(show_command().args[4] == "esp32tap"@);
    assert(route_command().args[1] == "route"@ && route_command().args[2] == "get"@);
    assert(route_command().args[3] == "1.1.1.1"@);
    assert(interfaces_command().args[0] == "show"@);
    assert(endpoints_command(interface).args[0] == "show"@);
    assert(fwmark_command(interface).args[0] == "show"@);
}

/// The TAP interface gets the address of the device: what follows `address` reads back as
/// its six bytes.
pub proof fn the_tap_gets_this_address(mac: [u8; 6])
    ensures
        ({
            let command = address_command(mac);
            &&& command.program == "ip"@
            &&& gives(command, "set"@, "esp32tap"@)
            &&& exists|text: Seq<char>|
                #[trigger] gives(command, "address"@, text) && {
                    let parts = crate::scan::fields(text, ':');
                    &&& parts.len() == 6
                    &&& forall|i: int|
                        0 <= i < 6 ==> (#[trigger] parts[i]).len() == 2 && crate::text::hex_value(
                            parts[i][0],
                        ) * 16 + crate::text::hex_value(parts[i][1]) == mac@[i]
                }
        }),
{
    let command = address_command(mac);
    crate::text::mac_addresses_read_back(mac);
    assert(command.args[1] == "set"@ && command.args[2] == "esp32tap"@);
    assert(command.args[3] == "address"@ && command.args[4] == crate::text::mac_text(mac));
    assert(gives(command, "address"@, crate::text::mac_text(mac)));
}

/// The name of a profile reads back as the process and the time that it was made of, so
/// that no two of them share a name.
#[verifier::rlimit(60)]
#[verifier::spinoff_prover]
pub proof fn profile_names_read_back(pid: u32, started_secs: u64)
    ensures
        ({
            let parts = crate::scan::fields(profile_text(pid, started_secs), '-');
            &&& parts.len() == 4
            &&& parts[0] == "lamella"@ && parts[1] == "esp32tap"@
            &&& crate::scan::number(parts[2], u32::MAX as nat) == Some(pid as nat)
            &&& crate::scan::number(parts[3], u64::MAX as nat) == Some(started_secs as nat)
        }),
{
    let a = crate::text::decimal(pid as nat);
    let b = crate::text::decimal(started_secs as nat);
    crate::scan::decimal_reads_back(pid as nat);
    crate::scan::decimal_reads_back(started_secs as nat);
    reveal_strlit("lamella-esp32tap-");
    reveal_strlit("lamella");
    reveal_strlit("esp32tap");
    reveal_strlit("-");
    let parts = seq!["lamella"@, "esp32tap"@, a, b];
    assert(forall|i: int| 0 <= i < 4 ==> !(#[trigger] parts[i]).contains('-'));
    crate::scan::joined_parts_are_the_fields(parts, '-');
    let p1 = seq!["lamella"@];
    let p2 = p1.push("esp32tap"@);
    let p3 = p2.push(a);
    crate::scan::joined_grows(p1, '-', "lamella"@);
    crate::scan::joined_grows(p1, '-', "esp32tap"@);
    crate::scan::joined_grows(p2, '-', a);
    crate::scan::joined_grows(p3, '-', b);
    assert(parts =~= p3.push(b));
    assert(profile_text(pid, started_secs) =~= crate::scan::joined(parts, '-'));
}

/// The host of an endpoint: of an address and a port with a colon between them, the
/// address; of an address in brackets, what stands in them, whatever follows; and of a
/// text without colons, all of it.
#[verifier::rlimit(60)]
#[verifier::spinoff_prover]
pub proof fn hosts_stand_before_ports(host: Seq<char>, rest: Seq<char>)
    ensures
        !rest.contains(':') && (host.len() == 0 || host[0] != '[') ==> host_of(
            host.push(':') + rest,
        ) == host,
        !host.contains(']') ==> host_of(seq!['['] + host + seq![']'] + rest) == host,
        !host.contains(':') && (host.len() == 0 || host[0] != '[') ==> host_of(host) == host,
{
    let plain = host.push(':') + rest;
    crate::scan::last_position_is_last(plain, ':');
    let colon = crate::scan::last_position(plain, ':');
    if !rest.contains(':') && (host.len() == 0 || host[0] != '[') {
        assert(plain[host.len() as int] == ':');
        if colon > host.len() {
            assert(rest[colon - host.len() - 1] == ':');
        }
        assert(colon == host.len());
        assert(plain.take(colon) =~= host);
    }
    let bracketed = seq!['['] + host + seq![']'] + rest;
    let inner = bracketed.drop_first();
    crate::scan::position_is_first(inner, ']');
    let end = crate::scan::position(inner, ']');
    if !host.contains(']') {
        assert(inner[host.len() as int] == ']');
        if end < host.len() {
            assert(inner[end] == host[end]);
        }
        assert(end == host.len());
        assert(inner.take(end) =~= host);
    }
    crate::scan::last_position_is_last(host, ':');
}

/// The route to an endpoint is asked for by its host, in the family of that: with colons
/// IPv6, without IPv4; and with the mark of the interface, unless that is off.
pub proof fn an_endpoint_is_asked_for_by_its_host(endpoint: Seq<char>, fwmark: Seq<char>)
    ensures
        ({
            let command = endpoint_route_command(endpoint, fwmark);
            let host = host_of(endpoint);
            &&& command.program == "ip"@
            &&& command.args[0] == "-6"@ <==> host.contains(':')
            &&& command.args[0] == "-4"@ <==> !host.contains(':')
            &&& command.args[1] == "route"@ && command.args[2] == "get"@ && command.args[3] == host
            &&& fwmark == "off"@ ==> command.args.len() == 4
            &&& fwmark != "off"@ ==> command.args.len() == 6 && command.args[4] == "mark"@
                && command.args[5] == fwmark
        }),
{
    reveal_strlit("-6");
    reveal_strlit("-4");
    assert("-6"@[1] == '6' && "-4"@[1] == '4');
}

/// A command that worked gives what it printed, without white space around it; one that
/// failed gives a message that starts with the command as it was run, and ends with what
/// it printed as its error. Its arguments read back from between the spaces.
pub proof fn an_outcome_tells_of_its_command(command: CommandView, success: bool, stdout: Seq<char>, stderr: Seq<char>)
    requires
        command.args.len() > 0,
        forall|i: int| 0 <= i < command.args.len() ==> !(#[trigger] command.args[i]).contains(' '),
    ensures
        ({
            let outcome = outcome_of(command, success, stdout, stderr);
            let args = spaced(command.args);
            &&& outcome is Ok <==> success
            &&& outcome matches Ok(text) ==> text == crate::scan::trimmed(stdout)
            &&& outcome matches Err(text) ==> {
                let start = command.program + " "@ + args;
                &&& text.take(start.len() as int) == start
                &&& text.skip(start.len() as int) == " failed: "@ + crate::scan::trimmed(stderr)
            }
            &&& crate::scan::fields(args, ' ') == command.args
        }),
{
    let args = spaced(command.args);
    spaced_is_joined(command.args);
    crate::scan::joined_parts_are_the_fields(command.args, ' ');
    if !success {
        let start = command.program + " "@ + args;
        let text = start + " failed: "@ + crate::scan::trimmed(stderr);
        assert(text.take(start.len() as int) =~= start);
        assert(text.skip(start.len() as int) =~= " failed: "@ + crate::scan::trimmed(stderr));
    }
}

proof fn spaced_is_joined(args: Seq<Seq<char>>)
    ensures
        spaced(args) == crate::scan::joined(args, ' '),
    decreases args.len(),
{
    reveal_strlit(" ");
    if args.len() > 1 {
        spaced_is_joined(args.drop_last());
        assert(spaced(args) =~= crate::scan::joined(args, ' '));
    }
}

/// The endpoints of a listing are those of its lines, in order: a line with a key and an
/// endpoint gives the endpoint, and a line with fewer than two words gives nothing.
#[verifier::rlimit(60)]
#[verifier::spinoff_prover]
pub proof fn each_line_gives_its_endpoint(first: Seq<char>, rest: Seq<char>, key: Seq<char>, endpoint: Seq<char>)
    requires
        key.len() > 0,
        endpoint.len() > 0,
        forall|i: int| 0 <= i < key.len() ==> !crate::scan::white(#[trigger] key[i]),
        forall|i: int| 0 <= i < endpoint.len() ==> !crate::scan::white(#[trigger] endpoint[i]),
    ensures
        endpoints_of(first.push('\n') + rest) == endpoints_of(first) + endpoints_of(rest),
        endpoints_of(key.push('\t') + endpoint) == seq![endpoint],
        endpoints_of(key.push(' ') + endpoint) == seq![endpoint],
        endpoints_of(key) == Seq::<Seq<char>>::empty(),
        endpoints_of(Seq::empty()) == Seq::<Seq<char>>::empty(),
{
    crate::scan::fields_of_both_sides(first, '\n', rest);
    second_words_of_both(crate::scan::fields(first, '\n'), crate::scan::fields(rest, '\n'));
    crate::scan::words_on_both_sides(key, '\t', endpoint);
    crate::scan::words_on_both_sides(key, ' ', endpoint);
    crate::scan::words_on_both_sides(endpoint, ' ', Seq::empty());
    let tabbed = key.push('\t') + endpoint;
    let blanked = key.push(' ') + endpoint;
    assert forall|i: int| 0 <= i < tabbed.len() implies tabbed[i] != '\n' && blanked[i] != '\n' by {
        if i < key.len() {
            assert(tabbed[i] == key[i] && blanked[i] == key[i]);
        } else if i > key.len() {
            assert(tabbed[i] == endpoint[i - key.len() - 1]);
            assert(blanked[i] == endpoint[i - key.len() - 1]);
        }
    }
    assert forall|i: int| 0 <= i < key.len() implies key[i] != '\n' by {
        assert(!crate::scan::white(key[i]));
    }
    assert(!tabbed.contains('\n') && !blanked.contains('\n') && !key.contains('\n'));
    crate::scan::fields_of_one(tabbed, '\n');
    crate::scan::fields_of_one(blanked, '\n');
    crate::scan::fields_of_one(key, '\n');
    crate::scan::fields_of_one(Seq::empty(), '\n');
    one_line_of_words(tabbed);
    one_line_of_words(blanked);
    one_line_of_words(key);
    one_line_of_words(Seq::empty());
    assert(crate::scan::words(tabbed) =~= seq![key, endpoint]);
    assert(crate::scan::words(blanked) =~= seq![key, endpoint]);
}

proof fn one_line_of_words(line: Seq<char>)
    ensures
        second_words(seq![line]) == if crate::scan::words(line).len() >= 2 {
            seq![crate::scan::words(line)[1]]
        } else {
            Seq::empty()
        },
{
    assert(seq![line].drop_last() =~= Seq::<Seq<char>>::empty());
    assert(second_words(seq![line].drop_last()) =~= Seq::<Seq<char>>::empty());
    if crate::scan::words(line).len() >= 2 {
        assert(second_words(seq![line]) =~= seq![crate::scan::words(line)[1]]);
    }
}

proof fn second_words_of_both(a: Seq<Seq<char>>, b: Seq<Seq<char>>)
    ensures
        second_words(a + b) == second_words(a) + second_words(b),
    decreases b.len(),
{
    if b.len() == 0 {
        assert(a + b =~= a);
        assert(second_words(a + b) =~= second_words(a) + second_words(b));
    } else {
        assert((a + b).drop_last() =~= a + b.drop_last());
        second_words_of_both(a, b.drop_last());
        assert(second_words(a + b) =~= second_words(a) + second_words(b));
    }
}

/// The TAP interface is as wide as the WiFi without the Ethernet header of fourteen bytes,
/// and is looked for ten times a second.
pub proof fn the_tap_leaves_room_for_the_header()
    ensures
        TAP_MTU + 14 == 1492,
        TAP_MTU + 14 <= crate::icd::MAX_FRAME_SIZE,
        TAP_POLL_MS * 10 == 1000,
{
}

/// A command is seen as its program and its arguments, each in its place.
pub proof fn commands_are_seen_as_they_are(command: CommandLine)
    ensures
        command@.program == command.program@,
        command@.args.len() == command.args@.len(),
        forall|i: int|
            0 <= i < command.args@.len() ==> #[trigger] command@.args[i] == command.args@[i]@,
{
}

/// The result of a command is seen as what it is.
pub proof fn results_are_seen_as_they_are(r: Result<String, String>)
    ensures
        r is Ok <==> result_view(r) is Ok,
        r matches Ok(text) ==> result_view(r) == Ok::<Seq<char>, Seq<char>>(text@),
        r matches Err(text) ==> result_view(r) == Err::<Seq<char>, Seq<char>>(text@),
{
}

} // verus!
