//! What the test mode logs of the frames that pass, and its counters.
use vstd::prelude::*;
use vstd::string::StringExecFns;

use crate::icd::WifiFrame;
use crate::scan::trim;
use crate::text::{append_decimal, append_hex_byte, format_ipv4};

verus! {

/// How important a line is.
#[derive(Clone, Copy, Debug, PartialEq, Eq, Structural)]
pub enum Level {
    Info,
    Debug,
}

/// A line of the log.
#[derive(Debug)]
pub struct LogLine {
    pub level: Level,
    pub text: String,
}

/// Two bytes of a frame as a number, the high byte first.
pub open spec fn word(frame: Seq<u8>, at: int) -> int {
    frame[at] * 256 + frame[at + 1]
}

/// Two bytes of a frame as a number, the high byte first.
fn read_word(frame: &[u8], at: usize) -> (r: u16)
    requires
        at + 1 < frame@.len(),
    ensures
        r == word(frame@, at as int),
{
    frame[at] as u16 * 256 + frame[at + 1] as u16
}

/// A 16-bit number in hexadecimal, with four digits.
pub open spec fn hex_word(n: int) -> Seq<char> {
    crate::text::hex_byte((n / 256) as u8) + crate::text::hex_byte((n % 256) as u8)
}

/// The name of an IP protocol.
pub open spec fn protocol_name(protocol: u8) -> Seq<char> {
    if protocol == 1 {
        "ICMP"@
    } else if protocol == 6 {
        "TCP"@
    } else if protocol == 17 {
        "UDP"@
    } else {
        "other"@
    }
}

/// The names of the TCP flags that are set, with spaces between them.
pub open spec fn flag_names(flags: u8) -> Seq<char> {
    crate::scan::trimmed(
        (if flags & 0x02 != 0 {
            "SYN "@
        } else {
            ""@
        }) + (if flags & 0x10 != 0 {
            "ACK "@
        } else {
            ""@
        }) + (if flags & 0x01 != 0 {
            "FIN "@
        } else {
            ""@
        }) + (if flags & 0x04 != 0 {
            "RST "@
        } else {
            ""@
        }) + (if flags & 0x08 != 0 {
            "PSH "@
        } else {
            ""@
        }),
    )
}

/// Where the TCP header of an IPv4 frame starts.
pub open spec fn tcp_start(frame: Seq<u8>) -> int {
    14 + (frame[14] & 0x0f) * 4
}

/// What is added for a TCP segment: its ports in both orders, and its flags.
pub open spec fn tcp_details(frame: Seq<u8>) -> Seq<char> {
    let at = tcp_start(frame);
    if frame[23] == 6 && frame.len() >= 54 && frame.len() >= at + 14 {
        let src = crate::text::decimal(word(frame, at) as nat);
        let dst = crate::text::decimal(word(frame, at + 2) as nat);
        " ["@ + src + ":"@ + dst + " -> "@ + dst + ":"@ + src + " "@ + flag_names(frame[at + 13])
            + "]"@
    } else {
        ""@
    }
}

/// Four bytes of a frame as an IPv4 address.
pub open spec fn address_text(frame: Seq<u8>, at: int) -> Seq<char> {
    crate::text::ipv4_text(frame.subrange(at, at + 4))
}

/// The line about an IPv4 frame.
pub open spec fn ipv4_line(direction: Seq<char>, frame: Seq<u8>) -> Seq<char> {
    "WiFi "@ + direction + ": IPv4 "@ + protocol_name(frame[23]) + " "@ + address_text(frame, 26)
        + " -> "@ + address_text(frame, 30) + tcp_details(frame) + "  ("@ + crate::text::decimal(
        frame.len(),
    ) + " bytes)"@
}

/// The line about a frame.
pub open spec fn frame_line(direction: Seq<char>, count: u64, frame: Seq<u8>) -> (Level, Seq<char>) {
    let length = crate::text::decimal(frame.len());
    let number = "WiFi "@ + direction + " #"@ + crate::text::decimal(count as nat) + ": "@ + length;
    if frame.len() < 14 {
        (Level::Debug, number + " bytes (too short)"@)
    } else if word(frame, 12) == 0x0800 && frame.len() >= 34 {
        (Level::Info, ipv4_line(direction, frame))
    } else if word(frame, 12) == 0x0806 {
        (Level::Info, "WiFi "@ + direction + ": ARP ("@ + length + " bytes)"@)
    } else {
        (Level::Debug, number + " bytes, ethertype=0x"@ + hex_word(word(frame, 12)))
    }
}

/// Writes the names of the TCP flags that are set.
fn format_flags(flags: u8) -> (r: String)
    ensures
        r@ == flag_names(flags),
{
    let syn = if flags & 0x02 != 0 {
        "SYN "
    } else {
        ""
    };
    let ack = if flags & 0x10 != 0 {
        "ACK "
    } else {
        ""
    };
    let fin = if flags & 0x01 != 0 {
        "FIN "
    } else {
        ""
    };
    let rst = if flags & 0x04 != 0 {
        "RST "
    } else {
        ""
    };
    let psh = if flags & 0x08 != 0 {
        "PSH "
    } else {
        ""
    };
    let mut names = syn.to_owned();
    names.append(ack);
    names.append(fin);
    names.append(rst);
    names.append(psh);
    trim(names.as_str()).to_owned()
}

/// Writes what is added for a TCP segment.
fn format_tcp_details(frame: &[u8]) -> (r: String)
    requires
        frame@.len() >= 34,
    ensures
        r@ == tcp_details(frame@),
{
    if frame[23] == 6 && frame.len() >= 54 {
        let low: u8 = frame[14] & 0x0f;
        let ihl: usize = low as usize * 4;
        let at: usize = 14 + ihl;
        if frame.len() >= at + 14 {
            let src: u16 = read_word(frame, at);
            let dst: u16 = read_word(frame, at + 2);
            let flags = format_flags(frame[at + 13]);
            let mut out = " [".to_owned();
            append_decimal(&mut out, src as u64);
            out.append(":");
            append_decimal(&mut out, dst as u64);
            out.append(" -> ");
            append_decimal(&mut out, dst as u64);
            out.append(":");
            append_decimal(&mut out, src as u64);
            out.append(" ");
            out.append(flags.as_str());
            out.append("]");
            return out;
        }
    }
    "".to_owned()
}

/// Writes the line about an IPv4 frame.
fn format_ipv4_line(direction: &str, frame: &[u8]) -> (r: String)
    requires
        frame@.len() >= 34,
    ensures
        r@ == ipv4_line(direction@, frame@),
{
    let protocol: u8 = frame[23];
    let name = if protocol == 1 {
        "ICMP"
    } else if protocol == 6 {
        "TCP"
    } else if protocol == 17 {
        "UDP"
    } else {
        "other"
    };
    let from: [u8; 4] = [frame[26], frame[27], frame[28], frame[29]];
    let to: [u8; 4] = [frame[30], frame[31], frame[32], frame[33]];
    assert(from@ =~= frame@.subrange(26, 30));
    assert(to@ =~= frame@.subrange(30, 34));
    let src = format_ipv4(from);
    let dst = format_ipv4(to);
    let details = format_tcp_details(frame);
    let mut out = "WiFi ".to_owned();
    out.append(direction);
    out.append(": IPv4 ");
    out.append(name);
    out.append(" ");
    out.append(src.as_str());
    out.append(" -> ");
    out.append(dst.as_str());
    out.append(details.as_str());
    out.append("  (");
    append_decimal(&mut out, frame.len() as u64);
    out.append(" bytes)");
    out
}

/// Whether a frame carries TCP over IPv4.
pub open spec fn is_tcp(frame: Seq<u8>) -> bool {
    frame.len() >= 34 && word(frame, 12) == 0x0800 && frame[23] == 6
}

/// The line about a frame, for every hundredth frame and for every frame that is
/// not TCP: TCP would fill the log.
pub fn log_frame(direction: &str, count: u64, frame: &[u8]) -> (r: Option<LogLine>)
    ensures
        match r {
            Some(line) => (count % 100 == 0 || !is_tcp(frame@)) && (line.level, line.text@)
                == frame_line(direction@, count, frame@),
            None => count % 100 != 0 && is_tcp(frame@),
        },
{
    if count % 100 != 0 && frame.len() >= 34 && read_word(frame, 12) == 0x0800 && frame[23] == 6 {
        return None;
    }
    if frame.len() < 14 {
        let mut text = numbered(direction, count, frame.len());
        text.append(" bytes (too short)");
        return Some(LogLine { level: Level::Debug, text });
    }
    let ethertype: u16 = read_word(frame, 12);
    if ethertype == 0x0800 && frame.len() >= 34 {
        let text = format_ipv4_line(direction, frame);
        Some(LogLine { level: Level::Info, text })
    } else if ethertype == 0x0806 {
        let mut text = "WiFi ".to_owned();
        text.append(direction);
        text.append(": ARP (");
        append_decimal(&mut text, frame.len() as u64);
        text.append(" bytes)");
        Some(LogLine { level: Level::Info, text })
    } else {
        let mut text = numbered(direction, count, frame.len());
        text.append(" bytes, ethertype=0x");
        let ghost before = text@;
        append_hex_byte(&mut text, (ethertype / 256) as u8);
        append_hex_byte(&mut text, (ethertype % 256) as u8);
        assert(text@ =~= before + hex_word(ethertype as int));
        Some(LogLine { level: Level::Debug, text })
    }
}

/// Writes the number and the length of a frame.
fn numbered(direction: &str, count: u64, len: usize) -> (r: String)
    ensures
        r@ == "WiFi "@ + direction@ + " #"@ + crate::text::decimal(count as nat) + ": "@
            + crate::text::decimal(len as nat),
{
    let mut out = "WiFi ".to_owned();
    out.append(direction);
    out.append(" #");
    append_decimal(&mut out, count);
    out.append(": ");
    append_decimal(&mut out, len as u64);
    out
}

/// A request that takes longer than this is reported.
pub const SLOW_REQUEST_MS: u64 = 10;

/// More waiting frames than this are reported.
pub const LONG_QUEUE: usize = 10;

/// The counters of the test mode. They wrap.
#[derive(Clone, Copy, Debug, PartialEq, Eq, Structural)]
pub struct BridgeStats {
    pub rx: u64,
    pub tx: u64,
    /// The time in milliseconds that slow requests took.
    pub blocked_ms: u64,
}

impl BridgeStats {
    /// Nothing has been counted.
    pub fn new() -> (r: BridgeStats)
        ensures
            r == (BridgeStats { rx: 0, tx: 0, blocked_ms: 0 }),
    {
        BridgeStats { rx: 0, tx: 0, blocked_ms: 0 }
    }

    /// Counts a frame of the stack and makes it a frame of the link. An oversized
    /// one counts and is dropped.
    pub fn outgoing(&mut self, bytes: &[u8]) -> (r: Option<WifiFrame>)
        ensures
            *final(self) == (BridgeStats { tx: crate::metrics::plus(old(self).tx, 1), ..*old(self) }),
            r is Some <==> bytes@.len() <= crate::icd::MAX_FRAME_SIZE,
            r matches Some(frame) ==> frame@ == bytes@,
    {
        self.tx = self.tx.wrapping_add(1);
        WifiFrame::from_slice(bytes)
    }

    /// Counts a frame of the link.
    pub fn incoming(&mut self)
        ensures
            *final(self) == (BridgeStats { rx: crate::metrics::plus(old(self).rx, 1), ..*old(self) }),
    {
        self.rx = self.rx.wrapping_add(1);
    }

    /// Notes how long a request took; returns whether it was slow. Only slow ones
    /// count.
    pub fn request_took(&mut self, elapsed_ms: u64) -> (r: bool)
        ensures
            r == (elapsed_ms > SLOW_REQUEST_MS),
            *final(self) == (BridgeStats {
                blocked_ms: if r {
                    crate::metrics::plus(old(self).blocked_ms, elapsed_ms as nat)
                } else {
                    old(self).blocked_ms
                },
                ..*old(self)
            }),
    {
        if elapsed_ms > SLOW_REQUEST_MS {
            self.blocked_ms = self.blocked_ms.wrapping_add(elapsed_ms);
            true
        } else {
            false
        }
    }

    /// The line with the counters.
    pub open spec fn text(self) -> Seq<char> {
        "Bridge stats: RX="@ + crate::text::decimal(self.rx as nat) + " TX="@
            + crate::text::decimal(self.tx as nat) + " TX_blocked_total="@ + crate::text::decimal(
            self.blocked_ms as nat,
        ) + "ms"@
    }

    /// Writes the line with the counters.
    pub fn line(&self) -> (r: String)
        ensures
            r@ == self.text(),
    {
        let mut out = "Bridge stats: RX=".to_owned();
        append_decimal(&mut out, self.rx);
        out.append(" TX=");
        append_decimal(&mut out, self.tx);
        out.append(" TX_blocked_total=");
        append_decimal(&mut out, self.blocked_ms);
        out.append("ms");
        out
    }
}

/// Whether so many waiting frames are worth a report.
pub fn queue_backs_up(len: usize) -> (r: bool)
    ensures
        r == (len > LONG_QUEUE),
{
    len > LONG_QUEUE
}

/// Which frames are TCP: those of IPv4 that are long enough for its header and carry
/// protocol six. All others are logged whatever their number.
pub proof fn tcp_is_protocol_six(frame: Seq<u8>)
    ensures
        is_tcp(frame) <==> frame.len() >= 34 && frame[12] == 0x08 && frame[13] == 0x00 && frame[23]
            == 6,
        frame.len() >= 34 && is_tcp(frame) ==> protocol_name(frame[23]) == "TCP"@,
{
}

/// A 16-bit number reads back from its four hexadecimal digits.
pub proof fn words_read_back(n: int)
    requires
        0 <= n < 65536,
    ensures
        hex_word(n).len() == 4,
        crate::text::hex_value(hex_word(n)[0]) * 4096 + crate::text::hex_value(hex_word(n)[1])
            * 256 + crate::text::hex_value(hex_word(n)[2]) * 16 + crate::text::hex_value(
            hex_word(n)[3],
        ) == n,
        !hex_word(n).contains(' '),
{
    crate::text::hex_bytes_read_back((n / 256) as u8);
    crate::text::hex_bytes_read_back((n % 256) as u8);
    let a = (n / 256) as u8;
    let b = (n % 256) as u8;
    crate::text::digits_read_back(a as int / 16);
    crate::text::digits_read_back(a as int % 16);
    crate::text::digits_read_back(b as int / 16);
    crate::text::digits_read_back(b as int % 16);
}

/// The numbers of a frame are written with the high byte first.
pub proof fn words_have_the_high_byte_first(frame: Seq<u8>, at: int)
    requires
        0 <= at < frame.len() - 1,
    ensures
        word(frame, at) / 256 == frame[at],
        word(frame, at) % 256 == frame[at + 1],
        0 <= word(frame, at) < 65536,
{
}

/// What the name of a protocol says.
pub proof fn protocols_have_their_names(protocol: u8)
    ensures
        protocol == 1 <==> protocol_name(protocol) == "ICMP"@,
        protocol == 6 <==> protocol_name(protocol) == "TCP"@,
        protocol == 17 <==> protocol_name(protocol) == "UDP"@,
        protocol != 1 && protocol != 6 && protocol != 17 ==> protocol_name(protocol) == "other"@,
        !protocol_name(protocol).contains(' '),
{
    reveal_strlit("ICMP");
    reveal_strlit("TCP");
    reveal_strlit("UDP");
    reveal_strlit("other");
    assert("ICMP"@[0] == 'I' && "TCP"@[0] == 'T' && "UDP"@[0] == 'U' && "other"@[0] == 'o');
}

/// The words of a text are those of the text without the white space at its ends.
proof fn trimming_keeps_the_words(s: Seq<char>)
    ensures
        crate::scan::words(crate::scan::trimmed(s)) == crate::scan::words(s),
    decreases s.len(),
{
    if s.len() > 0 && crate::scan::white(s[0]) {
        trimming_keeps_the_words(s.drop_first());
        let none = Seq::<char>::empty();
        crate::scan::words_on_both_sides(none, s[0], s.drop_first());
        assert(none.push(s[0]) + s.drop_first() =~= s);
        assert(crate::scan::words(none) + crate::scan::words(s.drop_first())
            =~= crate::scan::words(s.drop_first()));
    } else if s.len() > 0 && crate::scan::white(s.last()) {
        trimming_keeps_the_words(s.drop_last());
    }
}

/// One name with a blank after it, before other names.
proof fn one_more_name(name: Seq<char>, rest: Seq<char>)
    requires
        name.len() == 3,
        forall|i: int| 0 <= i < 3 ==> !crate::scan::white(#[trigger] name[i]),
    ensures
        crate::scan::words(name.push(' ') + rest) == seq![name] + crate::scan::words(rest),
{
    crate::scan::words_on_both_sides(name, ' ', rest);
}

/// The words of a name, when it is there.
spec fn name_if(set: bool, name: Seq<char>) -> Seq<Seq<char>> {
    if set {
        seq![name]
    } else {
        Seq::empty()
    }
}

/// The flags of a segment are named by their bits, in this order: SYN, ACK, FIN, RST and
/// PSH, each exactly when its bit is set.
#[verifier::rlimit(60)]
#[verifier::spinoff_prover]
pub proof fn flags_are_named_by_their_bits(flags: u8)
    ensures
        crate::scan::words(flag_names(flags)) == (if flags & 2 != 0 {
            seq!["SYN"@]
        } else {
            Seq::empty()
        }) + (if flags & 16 != 0 {
            seq!["ACK"@]
        } else {
            Seq::empty()
        }) + (if flags & 1 != 0 {
            seq!["FIN"@]
        } else {
            Seq::empty()
        }) + (if flags & 4 != 0 {
            seq!["RST"@]
        } else {
            Seq::empty()
        }) + (if flags & 8 != 0 {
            seq!["PSH"@]
        } else {
            Seq::empty()
        }),
{
    reveal_strlit("");
    reveal_strlit("SYN ");
    reveal_strlit("ACK ");
    reveal_strlit("FIN ");
    reveal_strlit("RST ");
    reveal_strlit("PSH ");
    reveal_strlit("SYN");
    reveal_strlit("ACK");
    reveal_strlit("FIN");
    reveal_strlit("RST");
    reveal_strlit("PSH");
    assert("SYN "@ =~= "SYN"@.push(' '));
    assert("ACK "@ =~= "ACK"@.push(' '));
    assert("FIN "@ =~= "FIN"@.push(' '));
    assert("RST "@ =~= "RST"@.push(' '));
    assert("PSH "@ =~= "PSH"@.push(' '));
    let e = if flags & 0x08 != 0 {
        "PSH "@
    } else {
        ""@
    };
    let d = if flags & 0x04 != 0 {
        "RST "@
    } else {
        ""@
    };
    let c = if flags & 0x01 != 0 {
        "FIN "@
    } else {
        ""@
    };
    let b = if flags & 0x10 != 0 {
        "ACK "@
    } else {
        ""@
    };
    let a = if flags & 0x02 != 0 {
        "SYN "@
    } else {
        ""@
    };
    let none = Seq::<char>::empty();
    one_flag(flags & 0x08 != 0, "PSH"@, e, none);
    one_flag(flags & 0x04 != 0, "RST"@, d, e + none);
    one_flag(flags & 0x01 != 0, "FIN"@, c, d + (e + none));
    one_flag(flags & 0x10 != 0, "ACK"@, b, c + (d + (e + none)));
    one_flag(flags & 0x02 != 0, "SYN"@, a, b + (c + (d + (e + none))));
    assert(crate::scan::words(none) =~= Seq::<Seq<char>>::empty());
    let whole = a + b + c + d + e;
    assert(whole =~= a + (b + (c + (d + (e + none)))));
    trimming_keeps_the_words(whole);
    assert(crate::scan::words(whole) =~= name_if(flags & 2 != 0, "SYN"@) + name_if(
        flags & 16 != 0,
        "ACK"@,
    ) + name_if(flags & 1 != 0, "FIN"@) + name_if(flags & 4 != 0, "RST"@) + name_if(
        flags & 8 != 0,
        "PSH"@,
    ));
}

proof fn one_flag(set: bool, name: Seq<char>, text: Seq<char>, rest: Seq<char>)
    requires
        name.len() == 3,
        forall|i: int| 0 <= i < 3 ==> !crate::scan::white(#[trigger] name[i]),
        set ==> text == name.push(' '),
        !set ==> text.len() == 0,
    ensures
        crate::scan::words(text + rest) == name_if(set, name) + crate::scan::words(rest),
{
    if set {
        one_more_name(name, rest);
    } else {
        assert(text + rest =~= rest);
        assert(name_if(set, name) + crate::scan::words(rest) =~= crate::scan::words(rest));
    }
}

/// What is added for a TCP segment reads back: its two ports, once in each order, from the
/// first four bytes after the IP header, whose length is in the lower half of its first
/// byte, in words of four bytes; and then its flags. It is added when the frame is long
/// enough for both headers, and only for TCP.
pub proof fn tcp_details_read_back(frame: Seq<u8>)
    requires
        frame.len() >= 34,
    ensures
        ({
            let at = 14 + (frame[14] & 0x0f) * 4;
            let shown = frame[23] == 6 && frame.len() >= 54 && frame.len() >= at + 14;
            let details = tcp_details(frame);
            let src = crate::text::decimal((frame[at] * 256 + frame[at + 1]) as nat);
            let dst = crate::text::decimal((frame[at + 2] * 256 + frame[at + 3]) as nat);
            &&& !shown ==> details == ""@
            &&& shown ==> details == " ["@ + src + ":"@ + dst + " -> "@ + dst + ":"@ + src + " "@
                + flag_names(frame[at + 13]) + "]"@
        }),
{
}

/// A frame of its kind has a line of its kind, whatever its number: too short for a header,
/// ARP, and everything else that is no IPv4 are told apart by the words of the line, which
/// hold the direction, the number where it is shown, the length, and the type of an
/// unknown frame.
#[verifier::rlimit(60)]
#[verifier::spinoff_prover]
pub proof fn lines_tell_kinds_apart(direction: Seq<char>, count: u64, frame: Seq<u8>)
    requires
        !direction.contains(' '),
    ensures
        ({
            let (level, text) = frame_line(direction, count, frame);
            let words = crate::scan::fields(text, ' ');
            let length = crate::text::decimal(frame.len());
            let number = "#"@ + crate::text::decimal(count as nat) + ":"@;
            let arp = frame.len() >= 14 && frame[12] == 8 && frame[13] == 6;
            let ipv4 = frame.len() >= 34 && frame[12] == 8 && frame[13] == 0;
            &&& level is Info <==> arp || ipv4
            &&& frame.len() < 14 ==> words == seq![
                "WiFi"@,
                direction,
                number,
                length,
                "bytes"@,
                "(too"@,
                "short)"@,
            ]
            &&& arp ==> words == seq![
                "WiFi"@,
                direction + ":"@,
                "ARP"@,
                "("@ + length,
                "bytes)"@,
            ]
            &&& frame.len() >= 14 && !arp && !ipv4 ==> words == seq![
                "WiFi"@,
                direction,
                number,
                length,
                "bytes,"@,
                "ethertype=0x"@ + hex_word(frame[12] * 256 + frame[13]),
            ]
            &&& ipv4 ==> text == ipv4_line(direction, frame)
        }),
{
    if frame.len() < 14 {
        a_short_frame_is_told(direction, count, frame);
    } else if word(frame, 12) == 0x0800 && frame.len() >= 34 {
    } else if word(frame, 12) == 0x0806 {
        an_arp_frame_is_told(direction, count, frame);
    } else {
        an_unknown_frame_is_told(direction, count, frame);
    }
}

proof fn numbers_have_no_blanks(n: nat)
    ensures
        !crate::text::decimal(n).contains(' '),
        !("#"@ + crate::text::decimal(n) + ":"@).contains(' '),
        !("("@ + crate::text::decimal(n)).contains(' '),
{
    crate::scan::decimal_reads_back(n);
    reveal_strlit("#");
    reveal_strlit(":");
    reveal_strlit("(");
    let d = crate::text::decimal(n);
    let a = "#"@ + d + ":"@;
    let b = "("@ + d;
    assert(!d.contains(' '));
    assert forall|i: int| 0 <= i < a.len() implies a[i] != ' ' by {
        if 1 <= i < a.len() - 1 {
            assert(a[i] == d[i - 1]);
            assert(crate::scan::is_digit(a[i]));
        }
    }
    assert forall|i: int| 0 <= i < b.len() implies b[i] != ' ' by {
        if 1 <= i {
            assert(b[i] == d[i - 1]);
            assert(crate::scan::is_digit(b[i]));
        }
    }
}

#[verifier::rlimit(60)]
#[verifier::spinoff_prover]
proof fn a_short_frame_is_told(direction: Seq<char>, count: u64, frame: Seq<u8>)
    requires
        !direction.contains(' '),
        frame.len() < 14,
    ensures
        crate::scan::fields(frame_line(direction, count, frame).1, ' ') == seq![
            "WiFi"@,
            direction,
            "#"@ + crate::text::decimal(count as nat) + ":"@,
            crate::text::decimal(frame.len()),
            "bytes"@,
            "(too"@,
            "short)"@,
        ],
{
    let length = crate::text::decimal(frame.len());
    let number = "#"@ + crate::text::decimal(count as nat) + ":"@;
    numbers_have_no_blanks(count as nat);
    numbers_have_no_blanks(frame.len());
    let text = frame_line(direction, count, frame).1;
    reveal_strlit("WiFi ");
    reveal_strlit(" #");
    reveal_strlit(": ");
    reveal_strlit(" bytes (too short)");
    reveal_strlit("#");
    reveal_strlit(":");
    reveal_strlit("WiFi");
    reveal_strlit("bytes");
    reveal_strlit("(too");
    reveal_strlit("short)");
    let parts = seq!["WiFi"@, direction, number, length, "bytes"@, "(too"@, "short)"@];
    assert(forall|i: int| 0 <= i < 7 ==> !(#[trigger] parts[i]).contains(' '));
    crate::scan::joined_parts_are_the_fields(parts, ' ');
    let p0 = seq!["WiFi"@];
    crate::scan::joined_grows(p0, ' ', "WiFi"@);
    crate::scan::joined_grows(p0, ' ', direction);
    let p1 = p0.push(direction);
    crate::scan::joined_grows(p1, ' ', number);
    let p2 = p1.push(number);
    crate::scan::joined_grows(p2, ' ', length);
    let p3 = p2.push(length);
    crate::scan::joined_grows(p3, ' ', "bytes"@);
    let p4 = p3.push("bytes"@);
    crate::scan::joined_grows(p4, ' ', "(too"@);
    let p5 = p4.push("(too"@);
    crate::scan::joined_grows(p5, ' ', "short)"@);
    let p6 = p5.push("short)"@);
    assert(parts =~= p6);
    assert(text =~= crate::scan::joined(parts, ' '));
}

#[verifier::rlimit(60)]
#[verifier::spinoff_prover]
proof fn an_arp_frame_is_told(direction: Seq<char>, count: u64, frame: Seq<u8>)
    requires
        !direction.contains(' '),
        frame.len() >= 14,
        word(frame, 12) == 0x0806,
    ensures
        crate::scan::fields(frame_line(direction, count, frame).1, ' ') == seq![
            "WiFi"@,
            direction + ":"@,
            "ARP"@,
            "("@ + crate::text::decimal(frame.len()),
            "bytes)"@,
        ],
{
    let length = "("@ + crate::text::decimal(frame.len());
    let way = direction + ":"@;
    numbers_have_no_blanks(frame.len());
    let text = frame_line(direction, count, frame).1;
    reveal_strlit("WiFi ");
    reveal_strlit(": ARP (");
    reveal_strlit(" bytes)");
    reveal_strlit("(");
    reveal_strlit(":");
    reveal_strlit("WiFi");
    reveal_strlit("ARP");
    reveal_strlit("bytes)");
    assert forall|i: int| 0 <= i < way.len() implies way[i] != ' ' by {
        if i < direction.len() {
            assert(way[i] == direction[i]);
        }
    }
    let parts = seq!["WiFi"@, way, "ARP"@, length, "bytes)"@];
    assert(forall|i: int| 0 <= i < 5 ==> !(#[trigger] parts[i]).contains(' '));
    crate::scan::joined_parts_are_the_fields(parts, ' ');
    let p0 = seq!["WiFi"@];
    crate::scan::joined_grows(p0, ' ', "WiFi"@);
    crate::scan::joined_grows(p0, ' ', way);
    let p1 = p0.push(way);
    crate::scan::joined_grows(p1, ' ', "ARP"@);
    let p2 = p1.push("ARP"@);
    crate::scan::joined_grows(p2, ' ', length);
    let p3 = p2.push(length);
    crate::scan::joined_grows(p3, ' ', "bytes)"@);
    let p4 = p3.push("bytes)"@);
    assert(parts =~= p4);
    assert(text =~= crate::scan::joined(parts, ' '));
}

#[verifier::rlimit(60)]
#[verifier::spinoff_prover]
proof fn an_unknown_frame_is_told(direction: Seq<char>, count: u64, frame: Seq<u8>)
    requires
        !direction.contains(' '),
        frame.len() >= 14,
        word(frame, 12) != 0x0806,
        word(frame, 12) != 0x0800 || frame.len() < 34,
    ensures
        crate::scan::fields(frame_line(direction, count, frame).1, ' ') == seq![
            "WiFi"@,
            direction,
            "#"@ + crate::text::decimal(count as nat) + ":"@,
            crate::text::decimal(frame.len()),
            "bytes,"@,
            "ethertype=0x"@ + hex_word(word(frame, 12)),
        ],
{
    let length = crate::text::decimal(frame.len());
    let number = "#"@ + crate::text::decimal(count as nat) + ":"@;
    let hex = hex_word(word(frame, 12));
    let kind = "ethertype=0x"@ + hex;
    words_read_back(word(frame, 12));
    numbers_have_no_blanks(count as nat);
    numbers_have_no_blanks(frame.len());
    let text = frame_line(direction, count, frame).1;
    reveal_strlit("WiFi ");
    reveal_strlit(" #");
    reveal_strlit(": ");
    reveal_strlit(" bytes, ethertype=0x");
    reveal_strlit("ethertype=0x");
    reveal_strlit("#");
    reveal_strlit(":");
    reveal_strlit("WiFi");
    reveal_strlit("bytes,");
    assert forall|i: int| 0 <= i < kind.len() implies kind[i] != ' ' by {
        if i >= 12 {
            assert(kind[i] == hex[i - 12]);
        }
    }
    let parts = seq!["WiFi"@, direction, number, length, "bytes,"@, kind];
    assert(forall|i: int| 0 <= i < 6 ==> !(#[trigger] parts[i]).contains(' '));
    crate::scan::joined_parts_are_the_fields(parts, ' ');
    let p0 = seq!["WiFi"@];
    crate::scan::joined_grows(p0, ' ', "WiFi"@);
    crate::scan::joined_grows(p0, ' ', direction);
    let p1 = p0.push(direction);
    crate::scan::joined_grows(p1, ' ', number);
    let p2 = p1.push(number);
    crate::scan::joined_grows(p2, ' ', length);
    let p3 = p2.push(length);
    crate::scan::joined_grows(p3, ' ', "bytes,"@);
    let p4 = p3.push("bytes,"@);
    crate::scan::joined_grows(p4, ' ', kind);
    let p5 = p4.push(kind);
    assert(parts =~= p5);
    assert(text =~= crate::scan::joined(parts, ' '));
}

/// The line about an IPv4 frame reads back. Before what is added for TCP it has seven words:
/// the direction, the name of the protocol, and the two addresses, each with its four bytes
/// from the header, the source first. After it comes the length.
#[verifier::rlimit(60)]
#[verifier::spinoff_prover]
pub proof fn an_ipv4_frame_is_told(direction: Seq<char>, frame: Seq<u8>)
    requires
        !direction.contains(' '),
        frame.len() >= 34,
    ensures
        ({
            let src = frame.subrange(26, 30);
            let dst = frame.subrange(30, 34);
            let head = "WiFi "@ + direction + ": IPv4 "@ + protocol_name(frame[23]) + " "@
                + crate::text::ipv4_text(src) + " -> "@ + crate::text::ipv4_text(dst);
            let tail = "  ("@ + crate::text::decimal(frame.len()) + " bytes)"@;
            &&& ipv4_line(direction, frame) == head + tcp_details(frame) + tail
            &&& crate::scan::fields(head, ' ') == seq![
                "WiFi"@,
                direction + ":"@,
                "IPv4"@,
                protocol_name(frame[23]),
                crate::text::ipv4_text(src),
                "->"@,
                crate::text::ipv4_text(dst),
            ]
        }),
{
    let src = frame.subrange(26, 30);
    let dst = frame.subrange(30, 34);
    let from = crate::text::ipv4_text(src);
    let to = crate::text::ipv4_text(dst);
    let name = protocol_name(frame[23]);
    let way = direction + ":"@;
    let head = "WiFi "@ + direction + ": IPv4 "@ + name + " "@ + from + " -> "@ + to;
    let tail = "  ("@ + crate::text::decimal(frame.len()) + " bytes)"@;
    assert(ipv4_line(direction, frame) =~= head + tcp_details(frame) + tail);
    protocols_have_their_names(frame[23]);
    crate::text::ipv4_is_plain(src);
    crate::text::ipv4_is_plain(dst);
    reveal_strlit("WiFi ");
    reveal_strlit(": IPv4 ");
    reveal_strlit(" ");
    reveal_strlit(" -> ");
    reveal_strlit(":");
    reveal_strlit("WiFi");
    reveal_strlit("IPv4");
    reveal_strlit("->");
    assert forall|i: int| 0 <= i < way.len() implies way[i] != ' ' by {
        if i < direction.len() {
            assert(way[i] == direction[i]);
        }
    }
    assert(!from.contains(' ') && !to.contains(' '));
    let parts = seq!["WiFi"@, way, "IPv4"@, name, from, "->"@, to];
    assert(forall|i: int| 0 <= i < 7 ==> !(#[trigger] parts[i]).contains(' '));
    crate::scan::joined_parts_are_the_fields(parts, ' ');
    let p0 = seq!["WiFi"@];
    crate::scan::joined_grows(p0, ' ', "WiFi"@);
    crate::scan::joined_grows(p0, ' ', way);
    let p1 = p0.push(way);
    crate::scan::joined_grows(p1, ' ', "IPv4"@);
    let p2 = p1.push("IPv4"@);
    crate::scan::joined_grows(p2, ' ', name);
    let p3 = p2.push(name);
    crate::scan::joined_grows(p3, ' ', from);
    let p4 = p3.push(from);
    crate::scan::joined_grows(p4, ' ', "->"@);
    let p5 = p4.push("->"@);
    crate::scan::joined_grows(p5, ' ', to);
    let p6 = p5.push(to);
    assert(parts =~= p6);
    assert(head =~= crate::scan::joined(parts, ' '));
}

/// The line with the counters reads back, each under its own name.
#[verifier::rlimit(60)]
#[verifier::spinoff_prover]
pub proof fn bridge_stats_read_back(stats: BridgeStats)
    ensures
        ({
            let words = crate::scan::fields(stats.text(), ' ');
            let rx = crate::scan::fields(words[2], '=');
            let tx = crate::scan::fields(words[3], '=');
            let blocked = crate::scan::fields(words[4], '=');
            &&& words.len() == 5
            &&& rx == seq!["RX"@, crate::text::decimal(stats.rx as nat)]
            &&& tx == seq!["TX"@, crate::text::decimal(stats.tx as nat)]
            &&& blocked == seq![
                "TX_blocked_total"@,
                crate::text::decimal(stats.blocked_ms as nat) + "ms"@,
            ]
        }),
{
    let a = crate::text::decimal(stats.rx as nat);
    let b = crate::text::decimal(stats.tx as nat);
    let c = crate::text::decimal(stats.blocked_ms as nat);
    crate::scan::decimal_reads_back(stats.rx as nat);
    crate::scan::decimal_reads_back(stats.tx as nat);
    crate::scan::decimal_reads_back(stats.blocked_ms as nat);
    reveal_strlit("Bridge stats: RX=");
    reveal_strlit(" TX=");
    reveal_strlit(" TX_blocked_total=");
    reveal_strlit("ms");
    reveal_strlit("Bridge");
    reveal_strlit("stats:");
    reveal_strlit("RX");
    reveal_strlit("TX");
    reveal_strlit("TX_blocked_total");
    let ms = c + "ms"@;
    assert forall|i: int| 0 <= i < ms.len() implies ms[i] != ' ' && ms[i] != '=' by {
        if i < c.len() {
            assert(ms[i] == c[i]);
            assert(crate::scan::is_digit(ms[i]));
        }
    }
    let rx = "RX"@.push('=') + a;
    let tx = "TX"@.push('=') + b;
    let blocked = "TX_blocked_total"@.push('=') + ms;
    named_value("RX"@, a);
    named_value("TX"@, b);
    named_value("TX_blocked_total"@, ms);
    let parts = seq!["Bridge"@, "stats:"@, rx, tx, blocked];
    assert(forall|i: int| 0 <= i < 5 ==> !(#[trigger] parts[i]).contains(' '));
    crate::scan::joined_parts_are_the_fields(parts, ' ');
    let p0 = seq!["Bridge"@];
    crate::scan::joined_grows(p0, ' ', "Bridge"@);
    crate::scan::joined_grows(p0, ' ', "stats:"@);
    let p1 = p0.push("stats:"@);
    crate::scan::joined_grows(p1, ' ', rx);
    let p2 = p1.push(rx);
    crate::scan::joined_grows(p2, ' ', tx);
    let p3 = p2.push(tx);
    crate::scan::joined_grows(p3, ' ', blocked);
    let p4 = p3.push(blocked);
    assert(parts =~= p4);
    assert(stats.text() =~= crate::scan::joined(parts, ' '));
}

proof fn named_value(name: Seq<char>, value: Seq<char>)
    requires
        forall|i: int| 0 <= i < name.len() ==> name[i] != ' ' && name[i] != '=',
        forall|i: int| 0 <= i < value.len() ==> value[i] != ' ' && value[i] != '=',
    ensures
        crate::scan::fields(name.push('=') + value, '=') == seq![name, value],
        !(name.push('=') + value).contains(' '),
{
    assert(!name.contains('=') && !value.contains('='));
    crate::scan::fields_of_one(name, '=');
    crate::scan::fields_of_one(value, '=');
    crate::scan::fields_of_both_sides(name, '=', value);
    assert(crate::scan::fields(name.push('=') + value, '=') =~= seq![name, value]);
    let all = name.push('=') + value;
    assert forall|i: int| 0 <= i < all.len() implies all[i] != ' ' by {
        if i < name.len() {
            assert(all[i] == name[i]);
        } else if i > name.len() {
            assert(all[i] == value[i - name.len() - 1]);
        }
    }
}

/// What is worth a report: more than ten waiting frames, and a request that takes more than
/// ten milliseconds.
pub proof fn ten_is_worth_no_report()
    ensures
        LONG_QUEUE == 10,
        SLOW_REQUEST_MS == 10,
{
}

} // verus!
