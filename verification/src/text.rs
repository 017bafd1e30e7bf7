//! Text as the programs print and read it.
use vstd::prelude::*;
use vstd::string::StringExecFns;

verus! {

/// The character of a digit in a base up to sixteen.
pub open spec fn digit(d: int) -> char {
    if d < 10 {
        ('0' as int + d) as char
    } else {
        ('a' as int + d - 10) as char
    }
}

/// Appends a digit.
fn append_digit(out: &mut String, d: u64)
    requires
        d < 16,
    ensures
        final(out)@ == old(out)@.push(digit(d as int)),
{
    let text = match d {
        0 => "0",
        1 => "1",
        2 => "2",
        3 => "3",
        4 => "4",
        5 => "5",
        6 => "6",
        7 => "7",
        8 => "8",
        9 => "9",
        10 => "a",
        11 => "b",
        12 => "c",
        13 => "d",
        14 => "e",
        _ => "f",
    };
    proof {
        reveal_strlit("0");
        reveal_strlit("1");
        reveal_strlit("2");
        reveal_strlit("3");
        reveal_strlit("4");
        reveal_strlit("5");
        reveal_strlit("6");
        reveal_strlit("7");
        reveal_strlit("8");
        reveal_strlit("9");
        reveal_strlit("a");
        reveal_strlit("b");
        reveal_strlit("c");
        reveal_strlit("d");
        reveal_strlit("e");
        reveal_strlit("f");
        assert(text@ =~= seq![digit(d as int)]);
        assert(out@ + text@ =~= out@.push(digit(d as int)));
    }
    out.append(text);
}

/// A number in decimal.
pub open spec fn decimal(n: nat) -> Seq<char>
    decreases n,
{
    if n < 10 {
        seq![digit(n as int)]
    } else {
        decimal(n / 10).push(digit((n % 10) as int))
    }
}

/// Appends a number in decimal.
pub fn append_decimal(out: &mut String, n: u64)
    ensures
        final(out)@ == old(out)@ + decimal(n as nat),
    decreases n,
{
    if n >= 10 {
        append_decimal(out, n / 10);
    }
    proof {
        if n >= 10 {
            assert((old(out)@ + decimal((n / 10) as nat)).push(digit((n % 10) as int)) =~= old(out)@
                + decimal(n as nat));
        } else {
            assert(old(out)@.push(digit(n as int)) =~= old(out)@ + decimal(n as nat));
        }
    }
    append_digit(out, n % 10);
}

/// A byte in hexadecimal, with two digits.
pub open spec fn hex_byte(b: u8) -> Seq<char> {
    seq![digit(b as int / 16), digit(b as int % 16)]
}

/// Appends a byte in hexadecimal, with two digits.
pub fn append_hex_byte(out: &mut String, b: u8)
    ensures
        final(out)@ == old(out)@ + hex_byte(b),
{
    append_digit(out, (b / 16) as u64);
    append_digit(out, (b % 16) as u64);
    assert(out@ =~= old(out)@ + hex_byte(b));
}

/// A MAC address as six bytes with colons between them.
pub open spec fn mac_text(mac: [u8; 6]) -> Seq<char> {
    hex_byte(mac[0]) + ":"@ + hex_byte(mac[1]) + ":"@ + hex_byte(mac[2]) + ":"@ + hex_byte(mac[3])
        + ":"@ + hex_byte(mac[4]) + ":"@ + hex_byte(mac[5])
}

/// Writes a MAC address as six bytes with colons between them.
pub fn format_mac(mac: &[u8; 6]) -> (r: String)
    ensures
        r@ == mac_text(*mac),
{
    let mut out = String::new();
    append_hex_byte(&mut out, mac[0]);
    assert(out@ =~= hex_byte(mac[0]));
    out.append(":");
    append_hex_byte(&mut out, mac[1]);
    out.append(":");
    append_hex_byte(&mut out, mac[2]);
    out.append(":");
    append_hex_byte(&mut out, mac[3]);
    out.append(":");
    append_hex_byte(&mut out, mac[4]);
    out.append(":");
    append_hex_byte(&mut out, mac[5]);
    out
}

/// The line that reports the MAC address of the device.
pub fn log_mac(mac: &[u8; 6]) -> (r: String)
    ensures
        r@ == "ESP32 WiFi MAC: "@ + mac_text(*mac),
{
    let mut out = "ESP32 WiFi MAC: ".to_owned();
    let text = format_mac(mac);
    out.append(text.as_str());
    out
}

/// An IPv4 address as four numbers with dots between them.
pub open spec fn ipv4_text(ip: Seq<u8>) -> Seq<char> {
    decimal(ip[0] as nat) + "."@ + decimal(ip[1] as nat) + "."@ + decimal(ip[2] as nat) + "."@
        + decimal(ip[3] as nat)
}

/// Writes an IPv4 address as four numbers with dots between them.
pub fn format_ipv4(ip: [u8; 4]) -> (r: String)
    ensures
        r@ == ipv4_text(ip@),
{
    let mut out = String::new();
    append_decimal(&mut out, ip[0] as u64);
    assert(out@ =~= decimal(ip[0] as nat));
    out.append(".");
    append_decimal(&mut out, ip[1] as u64);
    out.append(".");
    append_decimal(&mut out, ip[2] as u64);
    out.append(".");
    append_decimal(&mut out, ip[3] as u64);
    out
}

/// The characters of a text, for access by index.
pub fn characters(s: &str) -> (r: Vec<char>)
    ensures
        r@ == s@,
{
    let mut r: Vec<char> = Vec::new();
    for c in it: s.chars()
        invariant
            r@ == it.seq().take(it.index()),
            it.seq() == s@,
    {
        r.push(c);
        assert(r@ =~= it.seq().take(it.index() + 1));
    }
    assert(r@ =~= s@);
    r
}

/// An IPv4 address is written with digits and dots, and nothing else.
#[verifier::rlimit(60)]
#[verifier::spinoff_prover]
pub proof fn ipv4_is_plain(ip: Seq<u8>)
    ensures
        forall|c: char|
            ipv4_text(ip).contains(c) ==> c == '.' || crate::scan::is_digit(c),
        forall|c: char|
            c != '.' && !crate::scan::is_digit(c) ==> !(#[trigger] ipv4_text(ip).contains(c)),
{
    let a = decimal(ip[0] as nat);
    let b = decimal(ip[1] as nat);
    let c = decimal(ip[2] as nat);
    let d = decimal(ip[3] as nat);
    reveal_strlit(".");
    crate::scan::decimal_reads_back(ip[0] as nat);
    crate::scan::decimal_reads_back(ip[1] as nat);
    crate::scan::decimal_reads_back(ip[2] as nat);
    crate::scan::decimal_reads_back(ip[3] as nat);
    let all = ipv4_text(ip);
    let n1 = a.len() as int;
    let n2 = n1 + 1 + b.len();
    let n3 = n2 + 1 + c.len();
    assert forall|k: int| 0 <= k < all.len() implies all[k] == '.' || crate::scan::is_digit(
        #[trigger] all[k],
    ) by {
        if k < n1 {
            assert(all[k] == a[k]);
        } else if n1 < k < n2 {
            assert(all[k] == b[k - n1 - 1]);
        } else if n2 < k < n3 {
            assert(all[k] == c[k - n2 - 1]);
        } else if k > n3 {
            assert(all[k] == d[k - n3 - 1]);
        }
    }
}

/// The value of a hexadecimal digit, in lower case.
pub open spec fn hex_value(c: char) -> int {
    if '0' as int <= c as int <= '9' as int {
        c as int - '0' as int
    } else if 'a' as int <= c as int <= 'f' as int {
        10 + (c as int - 'a' as int)
    } else {
        -1
    }
}

/// A digit reads back as its value, and is neither a separator nor white space.
pub proof fn digits_read_back(d: int)
    requires
        0 <= d < 16,
    ensures
        hex_value(digit(d)) == d,
        d < 10 <==> crate::scan::is_digit(digit(d)),
        digit(d) != ':' && digit(d) != '.' && digit(d) != '-',
{
}

/// A byte reads back from its two hexadecimal digits, the high one first.
pub proof fn hex_bytes_read_back(b: u8)
    ensures
        hex_byte(b).len() == 2,
        hex_value(hex_byte(b)[0]) * 16 + hex_value(hex_byte(b)[1]) == b,
        0 <= hex_value(hex_byte(b)[1]) < 16,
        !hex_byte(b).contains(':'),
{
    digits_read_back(b as int / 16);
    digits_read_back(b as int % 16);
}

/// A MAC address reads back: six fields between colons, each of two hexadecimal digits,
/// which are its bytes in their order.
#[verifier::rlimit(60)]
#[verifier::spinoff_prover]
pub proof fn mac_addresses_read_back(mac: [u8; 6])
    ensures
        ({
            let parts = crate::scan::fields(mac_text(mac), ':');
            &&& parts.len() == 6
            &&& forall|i: int|
                0 <= i < 6 ==> (#[trigger] parts[i]).len() == 2 && hex_value(parts[i][0]) * 16
                    + hex_value(parts[i][1]) == mac@[i]
        }),
{
    let a = hex_byte(mac[0]);
    let b = hex_byte(mac[1]);
    let c = hex_byte(mac[2]);
    let d = hex_byte(mac[3]);
    let e = hex_byte(mac[4]);
    let f = hex_byte(mac[5]);
    hex_bytes_read_back(mac[0]);
    hex_bytes_read_back(mac[1]);
    hex_bytes_read_back(mac[2]);
    hex_bytes_read_back(mac[3]);
    hex_bytes_read_back(mac[4]);
    hex_bytes_read_back(mac[5]);
    reveal_strlit(":");
    let parts = seq![a, b, c, d, e, f];
    crate::scan::joined_parts_are_the_fields(parts, ':');
    let p1 = seq![a];
    let p2 = p1.push(b);
    let p3 = p2.push(c);
    let p4 = p3.push(d);
    let p5 = p4.push(e);
    crate::scan::joined_grows(p1, ':', a);
    crate::scan::joined_grows(p1, ':', b);
    crate::scan::joined_grows(p2, ':', c);
    crate::scan::joined_grows(p3, ':', d);
    crate::scan::joined_grows(p4, ':', e);
    crate::scan::joined_grows(p5, ':', f);
    assert(parts =~= p5.push(f));
    assert(mac_text(mac) =~= crate::scan::joined(parts, ':'));
}

/// An IPv4 address reads back: four fields between dots, which are its bytes in their
/// order.
#[verifier::rlimit(60)]
#[verifier::spinoff_prover]
pub proof fn ipv4_addresses_read_back(ip: Seq<u8>)
    requires
        ip.len() == 4,
    ensures
        ({
            let parts = crate::scan::fields(ipv4_text(ip), '.');
            &&& parts.len() == 4
            &&& forall|i: int|
                0 <= i < 4 ==> crate::scan::number(#[trigger] parts[i], 255) == Some(ip[i] as nat)
        }),
{
    let a = decimal(ip[0] as nat);
    let b = decimal(ip[1] as nat);
    let c = decimal(ip[2] as nat);
    let d = decimal(ip[3] as nat);
    crate::scan::decimal_reads_back(ip[0] as nat);
    crate::scan::decimal_reads_back(ip[1] as nat);
    crate::scan::decimal_reads_back(ip[2] as nat);
    crate::scan::decimal_reads_back(ip[3] as nat);
    reveal_strlit(".");
    let parts = seq![a, b, c, d];
    crate::scan::joined_parts_are_the_fields(parts, '.');
    let p1 = seq![a];
    let p2 = p1.push(b);
    let p3 = p2.push(c);
    crate::scan::joined_grows(p1, '.', a);
    crate::scan::joined_grows(p1, '.', b);
    crate::scan::joined_grows(p2, '.', c);
    crate::scan::joined_grows(p3, '.', d);
    assert(parts =~= p3.push(d));
    assert(ipv4_text(ip) =~= crate::scan::joined(parts, '.'));
}

/// A number is written without zeros before it, and so in one way only.
pub proof fn numbers_have_no_leading_zeros(n: nat, m: nat)
    ensures
        decimal(0) == seq!['0'],
        n > 0 ==> decimal(n)[0] != '0',
        n < m ==> decimal(n).len() <= decimal(m).len(),
        decimal(n) == decimal(m) ==> n == m,
        n < 10 <==> decimal(n).len() == 1,
    decreases n + m,
{
    crate::scan::decimal_reads_back(n);
    crate::scan::decimal_reads_back(m);
    if n >= 10 {
        numbers_have_no_leading_zeros(n / 10, m / 10);
        assert(decimal(n)[0] == decimal(n / 10)[0]);
    } else {
        assert(n > 0 ==> digit(n as int) != '0');
        if m >= 10 {
            numbers_have_no_leading_zeros(0, m / 10);
            crate::scan::decimal_reads_back(m / 10);
        }
    }
}

/// The report of a MAC address holds it as it is written.
pub proof fn mac_addresses_differ_in_text(a: [u8; 6], b: [u8; 6])
    requires
        mac_text(a) == mac_text(b),
    ensures
        a@ == b@,
{
    mac_addresses_read_back(a);
    mac_addresses_read_back(b);
    let parts = crate::scan::fields(mac_text(a), ':');
    assert forall|i: int| 0 <= i < 6 implies a@[i] == b@[i] by {
        assert(parts[i].len() == 2);
    }
    assert(a@ =~= b@);
}

} // verus!
