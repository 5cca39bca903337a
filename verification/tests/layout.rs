use swift_guard::api::RuleStats;
use swift_guard::layout::{
    mask_of, push_le16, push_le32, push_le64, push_name_field, push_zeros, read_le16, read_le32,
    read_le64,
};
use swift_guard::maps::{
    create_filter_rule, create_if_redirect, create_prefix_key, parse_counters, FilterRule,
    MapManager, RedirectIf,
};

fn rule(label: &str) -> FilterRule {
    FilterRule {
        src_ip: Some((0x0A000000, 8)),
        dst_ip: None,
        src_port_min: 0,
        src_port_max: 65535,
        dst_port_min: 80,
        dst_port_max: 80,
        protocol: 6,
        tcp_flags: 0x02,
        action: 2,
        redirect_ifindex: 0,
        priority: 0x01020304,
        rate_limit: 1000,
        expire: 60,
        label: label.to_string(),
        creation_time: 1_700_000_000,
    }
}

#[test]
fn integers_are_written_lowest_byte_first() {
    let mut out = vec![0xaa];
    push_le16(&mut out, 0x1234);
    assert_eq!(out, vec![0xaa, 0x34, 0x12]);
    let mut out = Vec::new();
    push_le32(&mut out, 0x01020304);
    assert_eq!(out, vec![4, 3, 2, 1]);
    let mut out = Vec::new();
    push_le64(&mut out, 0x0102030405060708);
    assert_eq!(out, vec![8, 7, 6, 5, 4, 3, 2, 1]);
    assert_eq!(read_le16(&[0xff, 0x34, 0x12], 1), 0x1234);
    assert_eq!(read_le32(&[4, 3, 2, 1], 0), 0x01020304);
    assert_eq!(read_le64(&[0, 8, 7, 6, 5, 4, 3, 2, 1], 1), 0x0102030405060708);
    for x in [0u64, 1, 255, 256, u32::MAX as u64, u64::MAX, 0x8000_0000_0000_0000] {
        let mut out = Vec::new();
        push_le64(&mut out, x);
        assert_eq!(out, x.to_le_bytes().to_vec());
        assert_eq!(read_le64(&out, 0), x);
    }
    for x in [0u32, 1, 0xffff, 0x10000, u32::MAX] {
        let mut out = Vec::new();
        push_le32(&mut out, x);
        assert_eq!(out, x.to_le_bytes().to_vec());
        assert_eq!(read_le32(&out, 0), x);
    }
}

#[test]
fn name_fields_are_cut_and_padded() {
    let mut out = Vec::new();
    push_name_field(&mut out, b"abc", 6);
    assert_eq!(out, vec![b'a', b'b', b'c', 0, 0, 0]);
    let mut out = vec![1];
    push_name_field(&mut out, b"abcdef", 4);
    assert_eq!(out, vec![1, b'a', b'b', b'c', 0]);
    let mut out = Vec::new();
    push_name_field(&mut out, b"abc", 4);
    assert_eq!(out, vec![b'a', b'b', b'c', 0]);
    let mut out = Vec::new();
    push_name_field(&mut out, b"abcd", 4);
    assert_eq!(out, vec![b'a', b'b', b'c', 0]);
    let mut out = Vec::new();
    push_name_field(&mut out, b"", 3);
    assert_eq!(out, vec![0, 0, 0]);
    let mut out = Vec::new();
    push_name_field(&mut out, b"x", 1);
    assert_eq!(out, vec![0]);
    let mut out = vec![7];
    push_zeros(&mut out, 3);
    assert_eq!(out, vec![7, 0, 0, 0]);
}

#[test]
fn masks_keep_the_first_bits() {
    assert_eq!(mask_of(0), 0);
    assert_eq!(mask_of(1), 0x8000_0000);
    assert_eq!(mask_of(8), 0xff00_0000);
    assert_eq!(mask_of(16), 0xffff_0000);
    assert_eq!(mask_of(24), 0xffff_ff00);
    assert_eq!(mask_of(31), 0xffff_fffe);
    assert_eq!(mask_of(32), 0xffff_ffff);
}

#[test]
fn keys_hold_the_prefix_length_and_the_masked_address() {
    assert_eq!(create_prefix_key(0x0A000000, 8), vec![8, 0, 0, 0, 0, 0, 0, 0x0A]);
    assert_eq!(create_prefix_key(0x0A010203, 8), vec![8, 0, 0, 0, 0, 0, 0, 0x0A]);
    assert_eq!(create_prefix_key(0x0AFFFFFF, 8), create_prefix_key(0x0A000000, 8));
    assert_eq!(create_prefix_key(0x0A010203, 16), vec![16, 0, 0, 0, 0, 0, 1, 0x0A]);
    assert_eq!(create_prefix_key(0x0A010203, 32), vec![32, 0, 0, 0, 3, 2, 1, 0x0A]);
    assert_eq!(create_prefix_key(0x0A010203, 0), vec![0, 0, 0, 0, 0, 0, 0, 0]);
    assert_eq!(create_prefix_key(0xffff_ffff, 0), create_prefix_key(0, 0));
    assert_eq!(create_prefix_key(0xC0A80181, 25), vec![25, 0, 0, 0, 0x80, 1, 0xA8, 0xC0]);
    for prefix in 0..=32u32 {
        for addr in [0u32, 0x0A010203, 0xffff_ffff, 0x8000_0001, 0x7fff_fffe] {
            let key = create_prefix_key(addr, prefix);
            let mask = if prefix == 0 { 0 } else { u32::MAX << (32 - prefix) };
            let mut want = prefix.to_le_bytes().to_vec();
            want.extend((addr & mask).to_le_bytes());
            assert_eq!(key, want);
            assert_eq!(create_prefix_key(addr & mask, prefix), key);
            assert_eq!(create_prefix_key(addr | !mask, prefix), key);
        }
    }
}

#[test]
fn a_rule_value_has_its_fields_at_their_places() {
    let value = create_filter_rule(&rule("a"));
    assert_eq!(value.len(), 83);
    assert_eq!(&value[0..4], &[4, 3, 2, 1]);
    assert_eq!(value[4], 2);
    assert_eq!(value[5], 6);
    assert_eq!(&value[6..8], &[0, 0]);
    assert_eq!(&value[8..10], &[0xff, 0xff]);
    assert_eq!(&value[10..12], &[80, 0]);
    assert_eq!(&value[12..14], &[80, 0]);
    assert_eq!(value[14], 0x02);
    assert_eq!(&value[15..19], &[0, 0, 0, 0]);
    assert_eq!(&value[19..23], &[0xe8, 0x03, 0, 0]);
    assert_eq!(&value[23..27], &[60, 0, 0, 0]);
    assert_eq!(value[27], b'a');
    assert!(value[28..59].iter().all(|b| *b == 0));
    assert!(value[59..83].iter().all(|b| *b == 0));
}

#[test]
fn a_long_label_is_cut_to_31_bytes() {
    let label = "0123456789012345678901234567890123456789";
    let value = create_filter_rule(&rule(label));
    assert_eq!(value.len(), 83);
    assert_eq!(&value[27..58], &label.as_bytes()[..31]);
    assert_eq!(value[58], 0);
    let exact = "0123456789012345678901234567890";
    let value = create_filter_rule(&rule(exact));
    assert_eq!(&value[27..58], exact.as_bytes());
    assert_eq!(value[58], 0);
    let full = "01234567890123456789012345678901";
    let value = create_filter_rule(&rule(full));
    assert_eq!(&value[27..58], &full.as_bytes()[..31]);
    assert_eq!(value[58], 0);
    let value = create_filter_rule(&rule(""));
    assert!(value[27..59].iter().all(|b| *b == 0));
    let value = create_filter_rule(&rule("\u{e9}"));
    assert_eq!(&value[27..30], &[0xc3, 0xa9, 0]);
}

#[test]
fn a_redirect_entry_holds_number_and_name() {
    let value = create_if_redirect(4);
    assert_eq!(value.len(), 20);
    assert_eq!(&value[0..4], &[4, 0, 0, 0]);
    assert_eq!(&value[4..7], b"if4");
    assert!(value[7..20].iter().all(|b| *b == 0));
    let target = RedirectIf::for_interface(4);
    assert_eq!(target, RedirectIf { ifindex: 4, ifname: "if4".to_string() });
    assert_eq!(target.encode(), value);
    let long = RedirectIf { ifindex: 1, ifname: "a-very-long-interface-name".to_string() };
    let encoded = long.encode();
    assert_eq!(encoded.len(), 20);
    assert_eq!(&encoded[4..19], b"a-very-long-int");
    assert_eq!(encoded[19], 0);
    let value = create_if_redirect(u32::MAX);
    assert_eq!(&value[0..4], &[0xff, 0xff, 0xff, 0xff]);
    assert_eq!(&value[4..16], b"if4294967295");
    assert!(value[16..20].iter().all(|b| *b == 0));
}

#[test]
fn counters_are_the_last_24_bytes() {
    assert_eq!(parse_counters(&[]), RuleStats { packets: 0, bytes: 0, last_matched: 0 });
    assert_eq!(parse_counters(&[1; 23]), RuleStats { packets: 0, bytes: 0, last_matched: 0 });
    let mut value = vec![9u8; 59];
    value.extend(5u64.to_le_bytes());
    value.extend(6000u64.to_le_bytes());
    value.extend(1_700_000_000u64.to_le_bytes());
    assert_eq!(
        parse_counters(&value),
        RuleStats { packets: 5, bytes: 6000, last_matched: 1_700_000_000 }
    );
    assert_eq!(
        parse_counters(&value[59..]),
        RuleStats { packets: 5, bytes: 6000, last_matched: 1_700_000_000 }
    );
    assert_eq!(
        parse_counters(&create_filter_rule(&rule("a"))),
        RuleStats { packets: 0, bytes: 0, last_matched: 0 }
    );
    assert_eq!(RuleStats::new(), RuleStats { packets: 0, bytes: 0, last_matched: 0 });
}

#[test]
fn the_aggregate_record_is_two_numbers() {
    let manager = MapManager::new();
    assert_eq!(manager.get_stats(None), (0, 0));
    assert_eq!(manager.get_stats(Some(&vec![])), (0, 0));
    assert_eq!(manager.get_stats(Some(&vec![1; 15])), (0, 0));
    assert_eq!(manager.get_stats(Some(&vec![0; 16])), (0, 0));
    let mut slot = 7u64.to_le_bytes().to_vec();
    slot.extend(9000u64.to_le_bytes());
    assert_eq!(manager.get_stats(Some(&slot)), (7, 9000));
    slot.extend([1, 2, 3]);
    assert_eq!(manager.get_stats(Some(&slot)), (7, 9000));
    assert_eq!(MapManager::stats_key(), vec![0, 0, 0, 0]);
}
