use swift_guard::error::ParseError;
use swift_guard::utils::{
    action_name_to_num, action_num_to_name, ipv4_to_string, ipv4_to_u32, parse_ip_prefix,
    parse_port_range, port_range_to_string, protocol_name_to_num, protocol_num_to_name,
    tcp_flags_to_string, u32_to_ipv4,
};

#[test]
fn test_parse_port_range() {
    assert_eq!(parse_port_range("80").unwrap(), (80, 80));
    assert_eq!(parse_port_range("1024-2048").unwrap(), (1024, 2048));
    assert!(parse_port_range("abc").is_err());
    assert!(parse_port_range("1024-abc").is_err());
    assert!(parse_port_range("2048-1024").is_err());
}

#[test]
fn utils_test_parse_port_range() {
    assert_eq!(parse_port_range("80").unwrap(), (80, 80));
    assert_eq!(parse_port_range("1024-2048").unwrap(), (1024, 2048));
    assert!(parse_port_range("abc").is_err());
    assert!(parse_port_range("1024-abc").is_err());
    assert!(parse_port_range("2048-1024").is_err());
}

#[test]
fn test_parse_ip_prefix() {
    assert_eq!(parse_ip_prefix("192.168.1.1").unwrap(), (0xC0A80101, 32));
    assert_eq!(parse_ip_prefix("10.0.0.0/8").unwrap(), (0x0A000000, 8));
    assert!(parse_ip_prefix("256.168.1.1").is_err());
    assert!(parse_ip_prefix("192.168.1.1/33").is_err());
}

#[test]
fn utils_test_parse_ip_prefix() {
    assert_eq!(parse_ip_prefix("192.168.1.1").unwrap(), (0xC0A80101, 32));
    assert_eq!(parse_ip_prefix("10.0.0.0/8").unwrap(), (0x0A000000, 8));
    assert!(parse_ip_prefix("256.168.1.1").is_err());
    assert!(parse_ip_prefix("192.168.1.1/33").is_err());
}

#[test]
fn test_ipv4_conversions() {
    let addr = [192u8, 168, 1, 1];
    let u32_addr = ipv4_to_u32(&addr);
    assert_eq!(u32_addr, 0xC0A80101);
    assert_eq!(u32_to_ipv4(u32_addr), addr);
}

#[test]
fn port_range_errors_are_told_apart() {
    assert_eq!(parse_port_range("1-2-3"), Err(ParseError::PortRangeFormat));
    assert_eq!(parse_port_range("-"), Err(ParseError::PortNumber));
    assert_eq!(parse_port_range(""), Err(ParseError::PortNumber));
    assert_eq!(parse_port_range("65536"), Err(ParseError::PortNumber));
    assert_eq!(parse_port_range("1024-abc"), Err(ParseError::PortNumber));
    assert_eq!(parse_port_range("2048-1024"), Err(ParseError::PortRangeOrder));
    assert_eq!(parse_port_range(" 80 "), Ok((80, 80)));
    assert_eq!(parse_port_range(" 1 - 65535 "), Ok((1, 65535)));
    assert_eq!(parse_port_range("+443"), Ok((443, 443)));
    assert_eq!(parse_port_range("000080"), Ok((80, 80)));
    assert_eq!(parse_port_range("0-65535"), Ok((0, 65535)));
}

#[test]
fn parsing_agrees_with_the_standard_library() {
    let samples = [
        "80", " 80", "80 ", "\u{a0}80\u{2003}", "+80", "-80", "++80", "8 0", "", " ", "+",
        "65535", "65536", "99999999999999999999", "0", "00", "1e3", "0x10", "\u{660}",
        "\u{200b}80", "\t80\n",
    ];
    for s in samples {
        let want = s.trim().parse::<u16>().ok().map(|p| (p, p));
        assert_eq!(parse_port_range(s).ok(), want, "{:?}", s);
    }
}

#[test]
fn white_space_is_the_unicode_property() {
    for code in 0u32..=0x10ffff {
        if let Some(c) = char::from_u32(code) {
            assert_eq!(swift_guard::text::is_white(c), c.is_whitespace(), "{:x}", code);
        }
    }
}

#[test]
fn ip_prefix_errors_are_told_apart() {
    assert_eq!(parse_ip_prefix("1.2.3"), Err(ParseError::AddressFormat));
    assert_eq!(parse_ip_prefix("1.2.3.4.5"), Err(ParseError::AddressFormat));
    assert_eq!(parse_ip_prefix(""), Err(ParseError::AddressFormat));
    assert_eq!(parse_ip_prefix("1.2.3.x"), Err(ParseError::AddressOctet));
    assert_eq!(parse_ip_prefix("1. 2.3.4"), Err(ParseError::AddressOctet));
    assert_eq!(parse_ip_prefix("256.168.1.1"), Err(ParseError::AddressOctet));
    assert_eq!(parse_ip_prefix("1.2.3.4/"), Err(ParseError::PrefixLength));
    assert_eq!(parse_ip_prefix("1.2.3.4/33"), Err(ParseError::PrefixLength));
    assert_eq!(parse_ip_prefix("1.2.3.4/-1"), Err(ParseError::PrefixLength));
    assert_eq!(parse_ip_prefix("1.2.3.4/4294967296"), Err(ParseError::PrefixLength));
    assert_eq!(parse_ip_prefix(" 1.2.3.4 / 24 "), Ok((0x01020304, 24)));
    assert_eq!(parse_ip_prefix("1.2.3.4/0"), Ok((0x01020304, 0)));
    assert_eq!(parse_ip_prefix("1.2.3.4/32"), Ok((0x01020304, 32)));
    assert_eq!(parse_ip_prefix("1.2.3.4/8/zzz"), Err(ParseError::AddressFormat));
    assert_eq!(parse_ip_prefix("10.0.0.0/8/9"), Err(ParseError::AddressFormat));
    assert_eq!(parse_ip_prefix("10.0.0.0/8/"), Err(ParseError::AddressFormat));
    assert_eq!(parse_ip_prefix("10.0.0.0//"), Err(ParseError::AddressFormat));
    assert_eq!(parse_ip_prefix("10.0.0.0//8"), Err(ParseError::AddressFormat));
    assert_eq!(parse_ip_prefix("/10.0.0.0/8"), Err(ParseError::AddressFormat));
    assert_eq!(parse_ip_prefix("x/y/z"), Err(ParseError::AddressFormat));
    assert_eq!(parse_ip_prefix("10.0.0.0/8"), Ok((0x0A000000, 8)));
    assert_eq!(parse_ip_prefix("255.255.255.255"), Ok((0xffff_ffff, 32)));
    assert_eq!(parse_ip_prefix("0.0.0.0/0"), Ok((0, 0)));
}

#[test]
fn addresses_are_written_highest_byte_first() {
    assert_eq!(ipv4_to_string(0xC0A80101), "192.168.1.1");
    assert_eq!(ipv4_to_string(0), "0.0.0.0");
    assert_eq!(ipv4_to_string(0xffff_ffff), "255.255.255.255");
    assert_eq!(ipv4_to_string(0x0A000000), "10.0.0.0");
    assert_eq!(u32_to_ipv4(0x01020304), [1, 2, 3, 4]);
    assert_eq!(ipv4_to_u32(&[1, 2, 3, 4]), 0x01020304);
}

#[test]
fn written_addresses_read_back() {
    for addr in [0u32, 1, 0x0A000000, 0xC0A80101, 0x7f000001, 0xffff_ffff, 0x01020304] {
        assert_eq!(parse_ip_prefix(&ipv4_to_string(addr)), Ok((addr, 32)));
        assert_eq!(ipv4_to_u32(&u32_to_ipv4(addr)), addr);
    }
}

#[test]
fn port_ranges_are_written_short() {
    assert_eq!(port_range_to_string(0, 65535), None);
    assert_eq!(port_range_to_string(80, 80), Some("80".to_string()));
    assert_eq!(port_range_to_string(0, 0), Some("0".to_string()));
    assert_eq!(port_range_to_string(65535, 65535), Some("65535".to_string()));
    assert_eq!(port_range_to_string(1024, 2048), Some("1024-2048".to_string()));
    assert_eq!(port_range_to_string(0, 65534), Some("0-65534".to_string()));
}

#[test]
fn written_port_ranges_read_back() {
    for (min, max) in [(0u16, 0u16), (80, 80), (1, 65535), (1024, 2048), (0, 65534)] {
        let text = port_range_to_string(min, max).unwrap();
        assert_eq!(parse_port_range(&text), Ok((min, max)));
    }
}

#[test]
fn action_and_protocol_numbers() {
    assert_eq!(action_name_to_num("pass"), Ok(1));
    assert_eq!(action_name_to_num("drop"), Ok(2));
    assert_eq!(action_name_to_num("redirect"), Ok(3));
    assert_eq!(action_name_to_num("count"), Ok(4));
    assert_eq!(action_name_to_num("DROP"), Ok(2));
    assert_eq!(action_name_to_num("Drop"), Ok(2));
    assert_eq!(action_name_to_num("dropp"), Err(ParseError::Action));
    assert_eq!(action_name_to_num(""), Err(ParseError::Action));
    assert_eq!(protocol_name_to_num("icmp"), Ok(1));
    assert_eq!(protocol_name_to_num("tcp"), Ok(6));
    assert_eq!(protocol_name_to_num("udp"), Ok(17));
    assert_eq!(protocol_name_to_num("any"), Ok(255));
    assert_eq!(protocol_name_to_num("TCP"), Ok(6));
    assert_eq!(protocol_name_to_num("sctp"), Err(ParseError::Protocol));
    assert_eq!(action_num_to_name(1), "pass");
    assert_eq!(action_num_to_name(2), "drop");
    assert_eq!(action_num_to_name(3), "redirect");
    assert_eq!(action_num_to_name(4), "count");
    assert_eq!(action_num_to_name(0), "unknown");
    assert_eq!(action_num_to_name(5), "unknown");
    assert_eq!(protocol_num_to_name(1), "icmp");
    assert_eq!(protocol_num_to_name(6), "tcp");
    assert_eq!(protocol_num_to_name(17), "udp");
    assert_eq!(protocol_num_to_name(255), "any");
    assert_eq!(protocol_num_to_name(0), "0");
    assert_eq!(protocol_num_to_name(47), "47");
    assert_eq!(protocol_num_to_name(254), "254");
}

#[test]
fn flag_sets_are_written_in_bit_order() {
    assert_eq!(tcp_flags_to_string(0), "None");
    assert_eq!(tcp_flags_to_string(0x02), "SYN");
    assert_eq!(tcp_flags_to_string(0x12), "SYN,ACK");
    assert_eq!(tcp_flags_to_string(0x3f), "FIN,SYN,RST,PSH,ACK,URG");
    assert_eq!(tcp_flags_to_string(0xc0), "None");
    assert_eq!(tcp_flags_to_string(0xff), "FIN,SYN,RST,PSH,ACK,URG");
}

fn std_port_range(s: &str) -> Option<(u16, u16)> {
    if s.contains('-') {
        let parts: Vec<&str> = s.split('-').collect();
        if parts.len() != 2 {
            return None;
        }
        let min = parts[0].trim().parse::<u16>().ok()?;
        let max = parts[1].trim().parse::<u16>().ok()?;
        if min > max {
            return None;
        }
        Some((min, max))
    } else {
        let port = s.trim().parse::<u16>().ok()?;
        Some((port, port))
    }
}

fn model_ip_prefix(s: &str) -> Option<(u32, u32)> {
    let parts: Vec<&str> = s.split('/').collect();
    if parts.len() > 2 {
        return None;
    }
    let ip_str = parts[0].trim();
    let octets: Vec<&str> = ip_str.split('.').collect();
    if octets.len() != 4 {
        return None;
    }
    let mut ip: u32 = 0;
    for (i, octet) in octets.iter().enumerate() {
        let value = octet.parse::<u8>().ok()?;
        ip |= (value as u32) << (8 * (3 - i));
    }
    let prefix_len = if parts.len() > 1 { parts[1].trim().parse::<u32>().ok()? } else { 32 };
    if prefix_len > 32 {
        return None;
    }
    Some((ip, prefix_len))
}

fn words(alphabet: &[char], max_len: usize) -> Vec<String> {
    let mut all = vec![String::new()];
    let mut last = vec![String::new()];
    for _ in 0..max_len {
        let mut next = Vec::new();
        for w in &last {
            for c in alphabet {
                let mut longer = w.clone();
                longer.push(*c);
                next.push(longer);
            }
        }
        all.extend(next.iter().cloned());
        last = next;
    }
    all
}

#[test]
fn port_ranges_are_read_as_the_standard_library_reads_them() {
    for s in words(&['0', '1', '9', '-', ' ', '+', 'x', '\u{3000}'], 5) {
        assert_eq!(parse_port_range(&s).ok(), std_port_range(&s), "{:?}", s);
    }
    for s in ["65535-65535", "0-65536", "65536-1", " 10 - 20 ", "00010-00020", "1--2", "+1-+2", "1-2-", "-1-2"] {
        assert_eq!(parse_port_range(s).ok(), std_port_range(s), "{:?}", s);
    }
}

#[test]
fn addresses_are_read_as_the_model_reads_them() {
    for s in words(&['1', '2', '.', '/', ' ', '+'], 7) {
        assert_eq!(parse_ip_prefix(&s).ok(), model_ip_prefix(&s), "{:?}", s);
    }
    let mut seed: u64 = 0x2545f4914f6cdd1d;
    let alphabet: Vec<char> = "0123456789./ +-\t\u{a0}x".chars().collect();
    for _ in 0..200_000 {
        let mut s = String::new();
        seed ^= seed << 13;
        seed ^= seed >> 7;
        seed ^= seed << 17;
        let len = 7 + (seed % 12) as usize;
        let mut bits = seed;
        for _ in 0..len {
            bits = bits.wrapping_mul(6364136223846793005).wrapping_add(1442695040888963407);
            let pick = (bits >> 33) as usize % (alphabet.len() + 16);
            let c = if pick < alphabet.len() {
                alphabet[pick]
            } else if pick < alphabet.len() + 6 {
                '.'
            } else {
                char::from(b'0' + (pick % 10) as u8)
            };
            s.push(c);
        }
        assert_eq!(parse_ip_prefix(&s).ok(), model_ip_prefix(&s), "{:?}", s);
    }
    for s in ["1.2.3.4", " 1.2.3.4 ", "1.2.3.4/24", "1.2.3.4 /24", "1.2.3.4/ 24 ", "+1.+2.+3.+4/+8", "01.002.0003.00004", "1.2.3.4/032", "255.255.255.255/32", "1.2.3.256", "1.2.3.4/33", "1.2.3.4//", "1.2.3.4/8/9", "1.2.3/4.5"] {
        assert_eq!(parse_ip_prefix(s).ok(), model_ip_prefix(s), "{:?}", s);
    }
}
