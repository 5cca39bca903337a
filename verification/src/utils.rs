//! Reading and writing the textual forms of ports, addresses, protocols,
//! actions and flag sets.

use crate::error::ParseError;
use crate::text::{
    chars_of, decimal, lowercase, number, parse_number, push_decimal, split, split_at_each, trim,
    trimmed,
};
use crate::types::{flags_text, flags_to_text, ActionType, ProtocolType};
use vstd::prelude::*;
use vstd::string::StringExecFns;

verus! {

/// The port range that `s` writes: one port, or two ports around one `-`,
/// each with white space around it at will.
pub open spec fn port_range_of(s: Seq<char>) -> Result<(u16, u16), ParseError> {
    let parts = split(s, '-');
    if parts.len() == 1 {
        match number(trim(s), 0xffff) {
            Some(port) => Ok((port as u16, port as u16)),
            None => Err(ParseError::PortNumber),
        }
    } else if parts.len() != 2 {
        Err(ParseError::PortRangeFormat)
    } else {
        match number(trim(parts[0]), 0xffff) {
            None => Err(ParseError::PortNumber),
            Some(min) => match number(trim(parts[1]), 0xffff) {
                None => Err(ParseError::PortNumber),
                Some(max) => if min > max {
                    Err(ParseError::PortRangeOrder)
                } else {
                    Ok((min as u16, max as u16))
                },
            },
        }
    }
}

/// The address whose four bytes are `a`, `b`, `c` and `d`, first byte highest.
pub open spec fn ipv4_of_octets(a: u8, b: u8, c: u8, d: u8) -> u32 {
    ((a as u32) << 24) | ((b as u32) << 16) | ((c as u32) << 8) | (d as u32)
}

/// The address and prefix length that `s` writes: four numbers between dots,
/// then at will a `/` and a prefix length. Without one the prefix length is 32.
/// Text with a second `/` writes no address.
pub open spec fn ip_prefix_of(s: Seq<char>) -> Result<(u32, u32), ParseError> {
    let parts = split(s, '/');
    let octets = split(trim(parts[0]), '.');
    if parts.len() > 2 || octets.len() != 4 {
        Err(ParseError::AddressFormat)
    } else {
        match (
            number(octets[0], 255),
            number(octets[1], 255),
            number(octets[2], 255),
            number(octets[3], 255),
        ) {
            (Some(a), Some(b), Some(c), Some(d)) => {
                let ip = ipv4_of_octets(a as u8, b as u8, c as u8, d as u8);
                if parts.len() > 1 {
                    match number(trim(parts[1]), 32) {
                        Some(prefix) => Ok((ip, prefix as u32)),
                        None => Err(ParseError::PrefixLength),
                    }
                } else {
                    Ok((ip, 32))
                }
            },
            _ => Err(ParseError::AddressOctet),
        }
    }
}

/// The dotted form of `addr`.
pub open spec fn ipv4_text(addr: u32) -> Seq<char> {
    decimal(((addr >> 24) & 0xff) as nat) + "."@ + decimal(((addr >> 16) & 0xff) as nat) + "."@
        + decimal(((addr >> 8) & 0xff) as nat) + "."@ + decimal((addr & 0xff) as nat)
}

/// The text of a port range; none for the range of all ports.
pub open spec fn port_range_text(min: u16, max: u16) -> Option<Seq<char>> {
    if min == 0 && max == 65535 {
        None
    } else if min == max {
        Some(decimal(min as nat))
    } else {
        Some(decimal(min as nat) + "-"@ + decimal(max as nat))
    }
}

/// The word for the action with wire number `num`.
pub open spec fn action_text(num: u8) -> Seq<char> {
    if num == 1 {
        "pass"@
    } else if num == 2 {
        "drop"@
    } else if num == 3 {
        "redirect"@
    } else if num == 4 {
        "count"@
    } else {
        "unknown"@
    }
}

/// The word for the protocol with wire number `num`; the number itself
/// where it has no word.
pub open spec fn protocol_text(num: u8) -> Seq<char> {
    if num == 1 {
        "icmp"@
    } else if num == 6 {
        "tcp"@
    } else if num == 17 {
        "udp"@
    } else if num == 255 {
        "any"@
    } else {
        decimal(num as nat)
    }
}

/// Reads a port or a port range such as `80` or `1024-2048`.
pub fn parse_port_range(s: &str) -> (r: Result<(u16, u16), ParseError>)
    ensures
        r == port_range_of(s@),
{
    let chars = chars_of(s);
    let parts = split_at_each(&chars, '-');
    if parts.len() == 1 {
        match parse_number(&trimmed(&chars), 0xffff) {
            Some(port) => Ok((port as u16, port as u16)),
            None => Err(ParseError::PortNumber),
        }
    } else if parts.len() != 2 {
        Err(ParseError::PortRangeFormat)
    } else {
        let min = match parse_number(&trimmed(&parts[0]), 0xffff) {
            Some(n) => n,
            None => {
                return Err(ParseError::PortNumber);
            },
        };
        let max = match parse_number(&trimmed(&parts[1]), 0xffff) {
            Some(n) => n,
            None => {
                return Err(ParseError::PortNumber);
            },
        };
        if min > max {
            Err(ParseError::PortRangeOrder)
        } else {
            Ok((min as u16, max as u16))
        }
    }
}

/// Reads an address with an optional prefix length, such as `10.0.0.0/8`.
pub fn parse_ip_prefix(s: &str) -> (r: Result<(u32, u32), ParseError>)
    ensures
        r == ip_prefix_of(s@),
{
    let chars = chars_of(s);
    let parts = split_at_each(&chars, '/');
    assert(split(s@, '/').len() >= 1);
    if parts.len() > 2 {
        return Err(ParseError::AddressFormat);
    }
    let addr = trimmed(&parts[0]);
    let octets = split_at_each(&addr, '.');
    if octets.len() != 4 {
        return Err(ParseError::AddressFormat);
    }
    let a = parse_number(&octets[0], 255);
    let b = parse_number(&octets[1], 255);
    let c = parse_number(&octets[2], 255);
    let d = parse_number(&octets[3], 255);
    match (a, b, c, d) {
        (Some(a), Some(b), Some(c), Some(d)) => {
            let ip = ipv4_to_u32(&[a as u8, b as u8, c as u8, d as u8]);
            if parts.len() > 1 {
                match parse_number(&trimmed(&parts[1]), 32) {
                    Some(prefix) => Ok((ip, prefix)),
                    None => Err(ParseError::PrefixLength),
                }
            } else {
                Ok((ip, 32))
            }
        },
        _ => Err(ParseError::AddressOctet),
    }
}

/// The wire number of the protocol that `name` names, whatever the case of its letters.
pub fn protocol_name_to_num(name: &str) -> (r: Result<u8, ParseError>)
    ensures
        r == match ProtocolType::named(lowercase(name@)) {
            Some(p) => Ok::<u8, ParseError>(p.code()),
            None => Err(ParseError::Protocol),
        },
{
    match ProtocolType::from_str(name) {
        Some(p) => Ok(p.to_u8()),
        None => Err(ParseError::Protocol),
    }
}

/// The wire number of the action that `name` names, whatever the case of its letters.
pub fn action_name_to_num(name: &str) -> (r: Result<u8, ParseError>)
    ensures
        r == match ActionType::named(lowercase(name@)) {
            Some(a) => Ok::<u8, ParseError>(a.code()),
            None => Err(ParseError::Action),
        },
{
    match ActionType::from_str(name) {
        Some(a) => Ok(a.to_u8()),
        None => Err(ParseError::Action),
    }
}

/// The word for the action with wire number `num`; `unknown` where there is none.
pub fn action_num_to_name(num: u8) -> (r: String)
    ensures
        r@ == action_text(num),
{
    match ActionType::from_u8(num) {
        Some(a) => String::from_str(a.to_str()),
        None => String::from_str("unknown"),
    }
}

/// The word for the protocol with wire number `num`; the number in decimal
/// where it has no word.
pub fn protocol_num_to_name(num: u8) -> (r: String)
    ensures
        r@ == protocol_text(num),
{
    match ProtocolType::from_u8(num) {
        Some(p) => String::from_str(p.to_str()),
        None => crate::text::decimal_string(num as u64),
    }
}

/// The names of the flags set in `flags`, separated by commas; `None` where no flag is set.
pub fn tcp_flags_to_string(flags: u8) -> (r: String)
    ensures
        r@ == flags_text(flags, "None"@),
{
    flags_to_text(flags, "None")
}

/// The text of a port range: nothing for the range of all ports, one number
/// for a single port, else both ends around a `-`.
pub fn port_range_to_string(min: u16, max: u16) -> (r: Option<String>)
    ensures
        match r {
            Some(text) => port_range_text(min, max) == Some(text@),
            None => port_range_text(min, max) is None,
        },
{
    if min == 0 && max == 65535 {
        None
    } else if min == max {
        Some(crate::text::decimal_string(min as u64))
    } else {
        let mut out = crate::text::decimal_string(min as u64);
        out.append("-");
        push_decimal(&mut out, max as u64);
        Some(out)
    }
}

/// Appends the dotted form of `addr` to `out`.
pub fn push_ipv4(out: &mut String, addr: u32)
    ensures
        final(out)@ == old(out)@ + ipv4_text(addr),
{
    let a: u32 = (addr >> 24) & 0xff;
    let b: u32 = (addr >> 16) & 0xff;
    let c: u32 = (addr >> 8) & 0xff;
    let d: u32 = addr & 0xff;
    push_decimal(out, a as u64);
    out.append(".");
    push_decimal(out, b as u64);
    out.append(".");
    push_decimal(out, c as u64);
    out.append(".");
    push_decimal(out, d as u64);
    assert(final(out)@ == old(out)@ + ipv4_text(addr));
}

/// The dotted form of `addr`, highest byte first.
pub fn ipv4_to_string(addr: u32) -> (r: String)
    ensures
        r@ == ipv4_text(addr),
{
    let mut out = String::new();
    push_ipv4(&mut out, addr);
    assert(Seq::<char>::empty() + ipv4_text(addr) == ipv4_text(addr));
    out
}

/// The address whose bytes, in network order, are `octets`.
pub fn ipv4_to_u32(octets: &[u8; 4]) -> (r: u32)
    ensures
        r == ipv4_of_octets(octets[0], octets[1], octets[2], octets[3]),
{
    ((octets[0] as u32) << 24) | ((octets[1] as u32) << 16) | ((octets[2] as u32) << 8) | (
    octets[3] as u32)
}

/// The bytes of `addr` in network order.
pub fn u32_to_ipv4(addr: u32) -> (r: [u8; 4])
    ensures
        r[0] == ((addr >> 24) & 0xff) as u8,
        r[1] == ((addr >> 16) & 0xff) as u8,
        r[2] == ((addr >> 8) & 0xff) as u8,
        r[3] == (addr & 0xff) as u8,
        ipv4_of_octets(r[0], r[1], r[2], r[3]) == addr,
{
    let a: u32 = (addr >> 24) & 0xff;
    let b: u32 = (addr >> 16) & 0xff;
    let c: u32 = (addr >> 8) & 0xff;
    let d: u32 = addr & 0xff;
    assert(a < 256 && b < 256 && c < 256 && d < 256 && (((a as u8) as u32) << 24) | (((b as u8)
        as u32) << 16) | (((c as u8) as u32) << 8) | ((d as u8) as u32) == addr) by (bit_vector)
        requires
            a == (addr >> 24) & 0xff,
            b == (addr >> 16) & 0xff,
            c == (addr >> 8) & 0xff,
            d == addr & 0xff,
    ;
    [a as u8, b as u8, c as u8, d as u8]
}

/// The bytes of an address give the address back.
pub proof fn lemma_octets_round_trip(a: u8, b: u8, c: u8, d: u8)
    ensures
        ((ipv4_of_octets(a, b, c, d) >> 24) & 0xff) as u8 == a,
        ((ipv4_of_octets(a, b, c, d) >> 16) & 0xff) as u8 == b,
        ((ipv4_of_octets(a, b, c, d) >> 8) & 0xff) as u8 == c,
        (ipv4_of_octets(a, b, c, d) & 0xff) as u8 == d,
{
    let x = ipv4_of_octets(a, b, c, d);
    assert(((x >> 24) & 0xff) as u8 == a && ((x >> 16) & 0xff) as u8 == b && ((x >> 8) & 0xff)
        as u8 == c && (x & 0xff) as u8 == d) by (bit_vector)
        requires
            x == ((a as u32) << 24) | ((b as u32) << 16) | ((c as u32) << 8) | (d as u32),
    ;
}

/// Seconds since the Unix epoch by the system clock: `SystemTime::now`
/// measured against `UNIX_EPOCH`, and 0 where the clock stands before it.
/// Nothing is claimed of the value.
#[verifier::external_body]
pub fn current_time_secs() -> u64 {
    std::time::SystemTime::now().duration_since(std::time::UNIX_EPOCH).unwrap_or_default().as_secs()
}


/// The bytes in a kilobyte.
pub const KB: u64 = 1024;

/// The bytes in a megabyte.
pub const MB: u64 = 1024 * 1024;

/// The bytes in a gigabyte.
pub const GB: u64 = 1024 * 1024 * 1024;

/// `x / unit` rounded to the nearest whole number, a half to the even one.
pub open spec fn rounded_div(x: nat, unit: nat) -> nat
    recommends
        unit > 0,
{
    let q = x / unit;
    let r = x % unit;
    if 2 * r > unit || (2 * r == unit && q % 2 == 1) {
        q + 1
    } else {
        q
    }
}

/// The distance between neighbouring numbers that a double-precision
/// floating-point number can hold, around `bytes`: 1 below 2^53, and twice
/// as much from each power of two on.
pub open spec fn float_step(bytes: u64) -> nat {
    if bytes < 0x20_0000_0000_0000 {
        1
    } else if bytes < 0x40_0000_0000_0000 {
        2
    } else if bytes < 0x80_0000_0000_0000 {
        4
    } else if bytes < 0x100_0000_0000_0000 {
        8
    } else if bytes < 0x200_0000_0000_0000 {
        16
    } else if bytes < 0x400_0000_0000_0000 {
        32
    } else if bytes < 0x800_0000_0000_0000 {
        64
    } else if bytes < 0x1000_0000_0000_0000 {
        128
    } else if bytes < 0x2000_0000_0000_0000 {
        256
    } else if bytes < 0x4000_0000_0000_0000 {
        512
    } else if bytes < 0x8000_0000_0000_0000 {
        1024
    } else {
        2048
    }
}

/// The number that `bytes` becomes as a double-precision floating-point
/// number: the nearest that such a number can hold.
pub open spec fn as_float(bytes: u64) -> nat {
    rounded_div(bytes as nat, float_step(bytes)) * float_step(bytes)
}

/// `bytes` in hundredths of `unit`, as a double-precision division and a
/// rounding to two decimals give them.
pub open spec fn hundredths(bytes: u64, unit: nat) -> nat {
    rounded_div(as_float(bytes) * 100, unit)
}

/// A number of hundredths with a point before its last two digits.
pub open spec fn two_decimals(h: nat) -> Seq<char> {
    decimal(h / 100) + "."@ + seq![
        crate::text::digit_char(h / 10 % 10),
        crate::text::digit_char(h % 10),
    ]
}

/// A size for the eye: in gigabytes, megabytes or kilobytes of 1024 with
/// two decimals from a whole unit on, else in bytes.
pub open spec fn size_text(bytes: u64) -> Seq<char> {
    if bytes >= GB {
        two_decimals(hundredths(bytes, GB as nat)) + " GB"@
    } else if bytes >= MB {
        two_decimals(hundredths(bytes, MB as nat)) + " MB"@
    } else if bytes >= KB {
        two_decimals(hundredths(bytes, KB as nat)) + " KB"@
    } else {
        decimal(bytes as nat) + " bytes"@
    }
}

/// `x / unit` rounded to the nearest whole number, a half to the even one.
pub fn divide_rounded(x: u128, unit: u128) -> (r: u128)
    requires
        0 < unit <= 0x1_0000_0000_0000_0000,
        x <= 0x1_0000_0000_0000_0000_0000,
    ensures
        r == rounded_div(x as nat, unit as nat),
        r <= x + 1,
        r <= x / unit + 1,
{
    let q: u128 = x / unit;
    let rest: u128 = x % unit;
    assert(q <= x && rest < unit) by (nonlinear_arith)
        requires
            q == x / unit,
            rest == x % unit,
            unit > 0,
    ;
    if 2 * rest > unit || (2 * rest == unit && q % 2 == 1) {
        q + 1
    } else {
        q
    }
}

/// The distance between neighbouring double-precision numbers around `bytes`.
pub fn step_of(bytes: u64) -> (r: u128)
    ensures
        r == float_step(bytes),
        1 <= r <= 2048,
{
    if bytes < 0x20_0000_0000_0000 {
        1
    } else if bytes < 0x40_0000_0000_0000 {
        2
    } else if bytes < 0x80_0000_0000_0000 {
        4
    } else if bytes < 0x100_0000_0000_0000 {
        8
    } else if bytes < 0x200_0000_0000_0000 {
        16
    } else if bytes < 0x400_0000_0000_0000 {
        32
    } else if bytes < 0x800_0000_0000_0000 {
        64
    } else if bytes < 0x1000_0000_0000_0000 {
        128
    } else if bytes < 0x2000_0000_0000_0000 {
        256
    } else if bytes < 0x4000_0000_0000_0000 {
        512
    } else if bytes < 0x8000_0000_0000_0000 {
        1024
    } else {
        2048
    }
}

/// `bytes` in hundredths of `unit`.
pub fn hundredths_of(bytes: u64, unit: u64) -> (r: u128)
    requires
        unit >= 1024,
    ensures
        r == hundredths(bytes, unit as nat),
        r <= 0x4000_0000_0000_0000,
{
    let step = step_of(bytes);
    let count = divide_rounded(bytes as u128, step);
    assert(count * step <= 0x1_0000_0000_0000_1000) by (nonlinear_arith)
        requires
            count <= bytes + 1,
            bytes <= 0xffff_ffff_ffff_ffff,
            1 <= step <= 2048,
            count == rounded_div(bytes as nat, step as nat),
    ;
    let value: u128 = count * step;
    proof {
        vstd::arithmetic::div_mod::lemma_div_is_ordered_by_denominator(
            (value * 100) as int,
            1024,
            unit as int,
        );
    }
    divide_rounded(value * 100, unit as u128)
}

/// Appends a number of hundredths with a point before its last two digits.
pub fn push_two_decimals(out: &mut String, h: u128)
    requires
        h <= 0x4000_0000_0000_0000,
    ensures
        final(out)@ == old(out)@ + two_decimals(h as nat),
{
    let whole: u128 = h / 100;
    assert(whole <= u64::MAX);
    push_decimal(out, whole as u64);
    out.append(".");
    let tens: u8 = ((h / 10) % 10) as u8;
    let ones: u8 = (h % 10) as u8;
    let a: char = (tens + 48) as char;
    let b: char = (ones + 48) as char;
    assert(a == crate::text::digit_char(tens as nat));
    assert(b == crate::text::digit_char(ones as nat));
    out.push(a);
    out.push(b);
    assert(final(out)@ =~= old(out)@ + two_decimals(h as nat));
}

/// A size for the eye: `1.50 KB` for 1536, `12 bytes` for 12.
pub fn format_size(bytes: u64) -> (r: String)
    ensures
        r@ == size_text(bytes),
{
    let mut out = String::new();
    if bytes >= GB {
        push_two_decimals(&mut out, hundredths_of(bytes, GB));
        out.append(" GB");
    } else if bytes >= MB {
        push_two_decimals(&mut out, hundredths_of(bytes, MB));
        out.append(" MB");
    } else if bytes >= KB {
        push_two_decimals(&mut out, hundredths_of(bytes, KB));
        out.append(" KB");
    } else {
        push_decimal(&mut out, bytes);
        out.append(" bytes");
    }
    assert(out@ =~= size_text(bytes));
    out
}


/// The four bytes of an address, put together again, are the address.
pub proof fn lemma_address_of_its_octets(addr: u32)
    ensures
        ipv4_of_octets(
            ((addr >> 24) & 0xff) as u8,
            ((addr >> 16) & 0xff) as u8,
            ((addr >> 8) & 0xff) as u8,
            (addr & 0xff) as u8,
        ) == addr,
        (addr >> 24) & 0xff <= 255,
        (addr >> 16) & 0xff <= 255,
        (addr >> 8) & 0xff <= 255,
        addr & 0xff <= 255,
{
    assert((((((addr >> 24) & 0xff) as u8) as u32) << 24) | (((((addr >> 16) & 0xff) as u8) as u32)
        << 16) | (((((addr >> 8) & 0xff) as u8) as u32) << 8) | (((addr & 0xff) as u8) as u32)
        == addr) by (bit_vector);
    assert((addr >> 24) & 0xff <= 255 && (addr >> 16) & 0xff <= 255 && (addr >> 8) & 0xff <= 255
        && addr & 0xff <= 255) by (bit_vector);
}

/// The text of a port range reads back as the range: for every range
/// with ends in order, but for the range of all ports, which has no text.
pub proof fn lemma_port_range_round_trip(min: u16, max: u16)
    requires
        min <= max,
        !(min == 0 && max == 65535),
    ensures
        port_range_text(min, max) is Some,
        port_range_of(port_range_text(min, max)->0) == Ok::<(u16, u16), ParseError>((min, max)),
{
    reveal_strlit("-");
    let low = decimal(min as nat);
    let high = decimal(max as nat);
    crate::text::lemma_decimal_lacks(min as nat, '-');
    crate::text::lemma_decimal_lacks(max as nat, '-');
    crate::text::lemma_trim_decimal(min as nat);
    crate::text::lemma_trim_decimal(max as nat);
    crate::text::lemma_number_of_decimal(min as nat, 0xffff);
    crate::text::lemma_number_of_decimal(max as nat, 0xffff);
    if min == max {
        crate::text::lemma_split_one(low, '-');
    } else {
        let text = low + "-"@ + high;
        assert("-"@ =~= seq!['-']);
        assert(text == low + seq!['-'] + high);
        crate::text::lemma_split_first(low, '-', high);
        crate::text::lemma_split_one(high, '-');
        assert(split(text, '-') =~= seq![low, high]);
    }
}

/// The dotted form of an address is made of digits and dots, starts and
/// ends with a digit, and its fields between the dots are the decimal
/// numerals of the four bytes of the address.
pub proof fn lemma_ipv4_text(addr: u32)
    ensures
        ipv4_text(addr).len() >= 7,
        forall|i: int|
            0 <= i < ipv4_text(addr).len() ==> crate::text::is_digit(#[trigger] ipv4_text(addr)[i])
                || ipv4_text(addr)[i] == '.',
        crate::text::is_digit(ipv4_text(addr)[0]),
        crate::text::is_digit(ipv4_text(addr).last()),
        split(ipv4_text(addr), '.') == seq![
            decimal(((addr >> 24) & 0xff) as nat),
            decimal(((addr >> 16) & 0xff) as nat),
            decimal(((addr >> 8) & 0xff) as nat),
            decimal((addr & 0xff) as nat),
        ],
{
    reveal_strlit(".");
    let a = decimal(((addr >> 24) & 0xff) as nat);
    let b = decimal(((addr >> 16) & 0xff) as nat);
    let c = decimal(((addr >> 8) & 0xff) as nat);
    let d = decimal((addr & 0xff) as nat);
    let dot = seq!['.'];
    assert("."@ =~= dot);
    crate::text::lemma_decimal(((addr >> 24) & 0xff) as nat);
    crate::text::lemma_decimal(((addr >> 16) & 0xff) as nat);
    crate::text::lemma_decimal(((addr >> 8) & 0xff) as nat);
    crate::text::lemma_decimal((addr & 0xff) as nat);
    let text = ipv4_text(addr);
    let tail3 = d;
    let tail2 = c + dot + tail3;
    let tail1 = b + dot + tail2;
    assert(text =~= a + dot + tail1);
    assert(crate::text::is_digit(a[0]));
    assert(text[0] == a[0]);
    assert(crate::text::is_digit(d[d.len() - 1]));
    assert(text.last() == d[d.len() - 1]);
    assert forall|i: int| 0 <= i < text.len() implies crate::text::is_digit(#[trigger] text[i])
        || text[i] == '.' by {
        let n1 = a.len() as int;
        let n2 = n1 + 1 + b.len();
        let n3 = n2 + 1 + c.len();
        if i < n1 {
            assert(text[i] == a[i]);
        } else if i == n1 {
            assert(text[i] == '.');
        } else if i < n2 {
            assert(text[i] == b[i - n1 - 1]);
        } else if i == n2 {
            assert(text[i] == '.');
        } else if i < n3 {
            assert(text[i] == c[i - n2 - 1]);
        } else if i == n3 {
            assert(text[i] == '.');
        } else {
            assert(text[i] == d[i - n3 - 1]);
        }
    }
    crate::text::lemma_decimal_lacks(((addr >> 24) & 0xff) as nat, '.');
    crate::text::lemma_decimal_lacks(((addr >> 16) & 0xff) as nat, '.');
    crate::text::lemma_decimal_lacks(((addr >> 8) & 0xff) as nat, '.');
    crate::text::lemma_decimal_lacks((addr & 0xff) as nat, '.');
    crate::text::lemma_split_first(a, '.', tail1);
    crate::text::lemma_split_first(b, '.', tail2);
    crate::text::lemma_split_first(c, '.', tail3);
    crate::text::lemma_split_one(d, '.');
    assert(split(text, '.') =~= seq![a, b, c, d]);
}

/// The dotted form of an address, with or without a prefix length of at
/// most 32 after a slash, reads back as the address and the prefix length.
pub proof fn lemma_address_round_trip(addr: u32, prefix: u32)
    requires
        prefix <= 32,
    ensures
        ip_prefix_of(ipv4_text(addr)) == Ok::<(u32, u32), ParseError>((addr, 32)),
        ip_prefix_of(ipv4_text(addr) + "/"@ + decimal(prefix as nat)) == Ok::<
            (u32, u32),
            ParseError,
        >((addr, prefix)),
{
    reveal_strlit("/");
    let text = ipv4_text(addr);
    let slash = seq!['/'];
    assert("/"@ =~= slash);
    lemma_ipv4_text(addr);
    lemma_address_of_its_octets(addr);
    crate::text::lemma_trim_nothing(text);
    crate::text::lemma_number_of_decimal(((addr >> 24) & 0xff) as nat, 255);
    crate::text::lemma_number_of_decimal(((addr >> 16) & 0xff) as nat, 255);
    crate::text::lemma_number_of_decimal(((addr >> 8) & 0xff) as nat, 255);
    crate::text::lemma_number_of_decimal((addr & 0xff) as nat, 255);
    assert forall|i: int| 0 <= i < text.len() implies text[i] != '/' by {
        assert(crate::text::is_digit(text[i]) || text[i] == '.');
    }
    crate::text::lemma_split_one(text, '/');
    assert(split(text, '/')[0] == text);
    let bits = decimal(prefix as nat);
    crate::text::lemma_decimal_lacks(prefix as nat, '/');
    crate::text::lemma_trim_decimal(prefix as nat);
    crate::text::lemma_number_of_decimal(prefix as nat, 32);
    crate::text::lemma_split_first(text, '/', bits);
    crate::text::lemma_split_one(bits, '/');
    let whole = text + "/"@ + bits;
    assert(whole == text + slash + bits);
    assert(split(whole, '/') =~= seq![text, bits]);
    assert(split(whole, '/')[0] == text);
    assert(split(whole, '/')[1] == bits);
}

/// The word for a protocol names the protocol, and the word for an action
/// the action.
pub proof fn lemma_names_round_trip(p: ProtocolType, a: ActionType)
    ensures
        ProtocolType::named(p.name()) == Some(p),
        ProtocolType::named(protocol_text(p.code())) == Some(p),
        ActionType::named(a.name()) == Some(a),
        ActionType::named(action_text(a.code())) == Some(a),
{
    reveal_strlit("icmp");
    reveal_strlit("tcp");
    reveal_strlit("udp");
    reveal_strlit("any");
    reveal_strlit("pass");
    reveal_strlit("drop");
    reveal_strlit("redirect");
    reveal_strlit("count");
    assert("icmp"@.len() == 4 && "tcp"@.len() == 3 && "udp"@.len() == 3 && "any"@.len() == 3);
    assert("tcp"@[0] == 't' && "udp"@[0] == 'u' && "any"@[0] == 'a');
    assert("pass"@.len() == 4 && "drop"@.len() == 4 && "redirect"@.len() == 8 && "count"@.len()
        == 5);
    assert("pass"@[0] == 'p' && "drop"@[0] == 'd');
}

/// The word for the wire number of a protocol names the protocol.
pub proof fn lemma_protocol_text_names(code: u8)
    requires
        code == 1 || code == 6 || code == 17 || code == 255,
    ensures
        ProtocolType::named(protocol_text(code)) is Some,
        ProtocolType::named(protocol_text(code))->0.code() == code,
{
    lemma_names_round_trip(ProtocolType::Any, ActionType::Pass);
    lemma_names_round_trip(ProtocolType::Tcp, ActionType::Pass);
    lemma_names_round_trip(ProtocolType::Udp, ActionType::Pass);
    if code == 1 {
        assert(ProtocolType::named(protocol_text(code)) is Some);
    }
}

/// The word for the wire number of an action names the action.
pub proof fn lemma_action_text_names(code: u8)
    requires
        1 <= code <= 4,
    ensures
        ActionType::named(action_text(code)) is Some,
        ActionType::named(action_text(code))->0.code() == code,
{
    lemma_names_round_trip(ProtocolType::Any, ActionType::Pass);
    lemma_names_round_trip(ProtocolType::Any, ActionType::Drop);
    lemma_names_round_trip(ProtocolType::Any, ActionType::Redirect);
    lemma_names_round_trip(ProtocolType::Any, ActionType::Count);
}

/// Text with two slashes writes no address, whatever stands around them.
pub proof fn lemma_second_slash_refused(s: Seq<char>, i: int, j: int)
    requires
        0 <= i < j < s.len(),
        s[i] == '/',
        s[j] == '/',
    ensures
        ip_prefix_of(s) == Err::<(u32, u32), ParseError>(ParseError::AddressFormat),
{
    crate::text::lemma_split_count(s, '/', i, j);
}

} // verus!
