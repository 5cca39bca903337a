use swift_guard::api::RuleStats;
use swift_guard::classifier::{
    add_saturating, decode_fields, parse_packet, tcp_flags_match, Classifier, Packet, RuleFields,
    Verdict,
};
use swift_guard::maps::{create_filter_rule, create_prefix_key, FilterRule, MapManager, MapOp, MapTable};

const TCP: u8 = 6;
const UDP: u8 = 17;
const ICMP: u8 = 1;
const SYN: u8 = 0x02;
const ACK: u8 = 0x10;

fn rule(label: &str) -> FilterRule {
    FilterRule {
        src_ip: None,
        dst_ip: None,
        src_port_min: 0,
        src_port_max: 65535,
        dst_port_min: 0,
        dst_port_max: 65535,
        protocol: 255,
        tcp_flags: 0,
        action: 1,
        redirect_ifindex: 0,
        priority: 0,
        rate_limit: 0,
        expire: 0,
        label: label.to_string(),
        creation_time: 0,
    }
}

fn from(label: &str, ip: u32, prefix: u32, action: u8) -> FilterRule {
    FilterRule { src_ip: Some((ip, prefix)), action, ..rule(label) }
}

fn frame(src: u32, dst: u32, protocol: u8, sport: u16, dport: u16, flags: u8, payload: usize) -> Vec<u8> {
    let mut f = vec![0u8; 12];
    f.extend([0x08, 0x00]);
    f.extend([0x45, 0, 0, 0, 0, 0, 0, 0, 64, protocol, 0, 0]);
    f.extend(src.to_be_bytes());
    f.extend(dst.to_be_bytes());
    if protocol == TCP {
        f.extend(sport.to_be_bytes());
        f.extend(dport.to_be_bytes());
        f.extend([0; 8]);
        f.extend([0x50, flags, 0, 0, 0, 0, 0, 0]);
    } else if protocol == UDP {
        f.extend(sport.to_be_bytes());
        f.extend(dport.to_be_bytes());
        f.extend([0; 4]);
    }
    f.extend(vec![0xab; payload]);
    f
}

fn tcp(src: u32, flags: u8) -> Vec<u8> {
    frame(src, 0xC0A80001, TCP, 40000, 80, flags, 0)
}

struct Plane {
    manager: MapManager,
    classifier: Classifier,
}

impl Plane {
    fn new() -> Plane {
        Plane { manager: MapManager::new(), classifier: Classifier::new() }
    }

    fn add(&mut self, rule: FilterRule) {
        let ops = self.manager.plan_add(&rule).unwrap();
        let written = self.classifier.maps.apply_all(&ops);
        assert_eq!(self.manager.add_rule(rule, written), Ok(()));
    }

    fn delete(&mut self, label: &str) {
        let ops = self.manager.plan_delete(label).unwrap();
        let written = self.classifier.maps.apply_all(&ops);
        assert_eq!(self.manager.delete_rule(label, written), Ok(()));
    }

    fn send(&mut self, frame: &[u8], now: u64) -> Verdict {
        self.classifier.process(&self.manager, frame, now)
    }

    fn stats(&self, label: &str) -> RuleStats {
        let reads = self.classifier.maps.read_all(&self.manager.stat_keys());
        let listed = self.manager.list_rules(true, &reads);
        listed.into_iter().find(|info| info.label == label).unwrap().stats
    }

    fn aggregate(&self) -> (u64, u64) {
        let slot = self.classifier.maps.lookup(MapTable::StatsMap, &MapManager::stats_key());
        self.manager.get_stats(slot.as_ref())
    }
}

const ZERO: RuleStats = RuleStats { packets: 0, bytes: 0, last_matched: 0 };

#[test]
fn the_longest_prefix_wins() {
    let mut plane = Plane::new();
    plane.add(from("wide", 0x0A000000, 8, 1));
    plane.add(from("narrow", 0x0A010000, 16, 2));
    let f = tcp(0x0A010203, SYN);
    for i in 0..5u64 {
        assert_eq!(plane.send(&f, 100 + i), Verdict::Drop);
    }
    assert_eq!(
        plane.stats("narrow"),
        RuleStats { packets: 5, bytes: 5 * f.len() as u64, last_matched: 104 }
    );
    assert_eq!(plane.stats("wide"), ZERO);
    assert_eq!(plane.send(&tcp(0x0A020203, SYN), 200), Verdict::Pass);
    assert_eq!(plane.stats("wide").packets, 1);
    assert_eq!(plane.stats("wide").last_matched, 200);
    assert_eq!(plane.stats("narrow").packets, 5);
    assert_eq!(plane.classifier.longest_match(0x0A010203), Some(16));
    assert_eq!(plane.classifier.longest_match(0x0A020203), Some(8));
    assert_eq!(plane.classifier.longest_match(0x0B020203), None);
    plane.delete("narrow");
    assert_eq!(plane.send(&f, 300), Verdict::Pass);
    assert_eq!(plane.stats("wide").packets, 2);
}

#[test]
fn prefixes_of_every_length() {
    let mut plane = Plane::new();
    plane.add(from("all", 0, 0, 4));
    plane.add(from("host", 0x0A010203, 32, 2));
    assert_eq!(plane.send(&tcp(0x0A010203, 0), 1), Verdict::Drop);
    assert_eq!(plane.send(&tcp(0x0A010204, 0), 1), Verdict::Count);
    assert_eq!(plane.send(&tcp(0xffff_ffff, 0), 1), Verdict::Count);
    assert_eq!(plane.stats("all").packets, 2);
    assert_eq!(plane.stats("host").packets, 1);
}

#[test]
fn a_rule_asks_for_all_its_flags() {
    let mut plane = Plane::new();
    plane.add(FilterRule { tcp_flags: SYN, ..from("syn", 0x0A000000, 8, 2) });
    assert_eq!(plane.send(&tcp(0x0A000001, SYN), 1), Verdict::Drop);
    assert_eq!(plane.send(&tcp(0x0A000001, SYN | ACK), 1), Verdict::Drop);
    assert_eq!(plane.send(&tcp(0x0A000001, ACK), 1), Verdict::Pass);
    assert_eq!(plane.send(&tcp(0x0A000001, 0), 1), Verdict::Pass);
    assert_eq!(plane.send(&frame(0x0A000001, 1, UDP, 1, 2, 0, 0), 1), Verdict::Pass);
    assert_eq!(plane.send(&frame(0x0A000001, 1, ICMP, 0, 0, 0, 8), 1), Verdict::Pass);
    assert_eq!(plane.stats("syn").packets, 2);
    assert!(tcp_flags_match(SYN, Some(SYN)));
    assert!(tcp_flags_match(SYN, Some(SYN | ACK)));
    assert!(!tcp_flags_match(SYN, Some(ACK)));
    assert!(!tcp_flags_match(SYN, None));
    assert!(tcp_flags_match(0, None));
    assert!(tcp_flags_match(0, Some(0xff)));
    assert!(!tcp_flags_match(SYN | ACK, Some(SYN)));
    assert!(tcp_flags_match(SYN | ACK, Some(SYN | ACK | 0x08)));
    for rule_flags in 0..=255u8 {
        for packet_flags in [0u8, 1, 2, 0x12, 0x3f, 0xff, 0x80] {
            assert_eq!(
                tcp_flags_match(rule_flags, Some(packet_flags)),
                rule_flags == 0 || packet_flags & rule_flags == rule_flags
            );
        }
    }
}

#[test]
fn protocol_and_ports() {
    let mut plane = Plane::new();
    plane.add(FilterRule {
        protocol: TCP,
        dst_port_min: 80,
        dst_port_max: 90,
        src_port_min: 1000,
        src_port_max: 2000,
        ..from("web", 0x0A000000, 8, 2)
    });
    let send = |plane: &mut Plane, protocol, sport, dport| {
        plane.send(&frame(0x0A000001, 1, protocol, sport, dport, 0, 0), 1)
    };
    assert_eq!(send(&mut plane, TCP, 1000, 80), Verdict::Drop);
    assert_eq!(send(&mut plane, TCP, 2000, 90), Verdict::Drop);
    assert_eq!(send(&mut plane, TCP, 999, 80), Verdict::Pass);
    assert_eq!(send(&mut plane, TCP, 2001, 80), Verdict::Pass);
    assert_eq!(send(&mut plane, TCP, 1000, 79), Verdict::Pass);
    assert_eq!(send(&mut plane, TCP, 1000, 91), Verdict::Pass);
    assert_eq!(send(&mut plane, UDP, 1000, 80), Verdict::Pass);
    assert_eq!(plane.stats("web").packets, 2);
    plane.add(FilterRule { dst_port_min: 53, dst_port_max: 53, ..from("dns", 0x0B000000, 8, 2) });
    let send = |plane: &mut Plane, protocol, dport| {
        plane.send(&frame(0x0B000001, 1, protocol, 5, dport, 0, 0), 1)
    };
    assert_eq!(send(&mut plane, UDP, 53), Verdict::Drop);
    assert_eq!(send(&mut plane, TCP, 53), Verdict::Drop);
    assert_eq!(send(&mut plane, UDP, 54), Verdict::Pass);
    assert_eq!(send(&mut plane, ICMP, 0), Verdict::Drop);
    assert_eq!(send(&mut plane, 47, 0), Verdict::Drop);
}

#[test]
fn the_destination_network_is_asked_of_the_owner() {
    let mut plane = Plane::new();
    plane.add(FilterRule { dst_ip: Some((0xC0A80100, 24)), ..from("to-lan", 0x0A000000, 8, 2) });
    assert_eq!(plane.send(&frame(0x0A000001, 0xC0A80105, TCP, 1, 2, 0, 0), 1), Verdict::Drop);
    assert_eq!(plane.send(&frame(0x0A000001, 0xC0A801ff, UDP, 1, 2, 0, 0), 1), Verdict::Drop);
    assert_eq!(plane.send(&frame(0x0A000001, 0xC0A80205, TCP, 1, 2, 0, 0), 1), Verdict::Pass);
    assert_eq!(plane.stats("to-lan").packets, 2);
}

#[test]
fn a_rule_expires() {
    let mut plane = Plane::new();
    plane.add(FilterRule { expire: 60, creation_time: 1000, ..from("brief", 0x0A000000, 8, 2) });
    plane.add(FilterRule { expire: 0, creation_time: 1000, ..from("lasting", 0x0B000000, 8, 2) });
    assert_eq!(plane.send(&tcp(0x0A000001, 0), 1000), Verdict::Drop);
    assert_eq!(plane.send(&tcp(0x0A000001, 0), 1059), Verdict::Drop);
    assert_eq!(plane.send(&tcp(0x0A000001, 0), 1060), Verdict::Pass);
    assert_eq!(plane.send(&tcp(0x0A000001, 0), 5000), Verdict::Pass);
    assert_eq!(plane.send(&tcp(0x0A000001, 0), 999), Verdict::Drop);
    assert_eq!(plane.send(&tcp(0x0B000001, 0), u64::MAX), Verdict::Drop);
    assert_eq!(plane.stats("brief").packets, 3);
}

#[test]
fn a_rate_limit_lets_so_many_through_each_second() {
    let mut plane = Plane::new();
    plane.add(FilterRule { rate_limit: 3, ..from("limited", 0x0A000000, 8, 2) });
    let f = tcp(0x0A000001, 0);
    let verdicts: Vec<Verdict> = (0..5).map(|_| plane.send(&f, 100)).collect();
    assert_eq!(verdicts, vec![Verdict::Drop, Verdict::Drop, Verdict::Drop, Verdict::Pass, Verdict::Pass]);
    assert_eq!(plane.stats("limited").packets, 3);
    assert_eq!(plane.send(&f, 101), Verdict::Drop);
    assert_eq!(plane.send(&f, 101), Verdict::Drop);
    assert_eq!(plane.send(&f, 103), Verdict::Drop);
    assert_eq!(plane.send(&f, 103), Verdict::Drop);
    assert_eq!(plane.send(&f, 103), Verdict::Drop);
    assert_eq!(plane.send(&f, 103), Verdict::Pass);
    assert_eq!(plane.stats("limited").packets, 8);
    assert_eq!(plane.aggregate().0, 11);
    assert_eq!(plane.classifier.buckets.len(), 1);
    plane.add(FilterRule { rate_limit: 0, ..from("free", 0x0B000000, 8, 2) });
    for _ in 0..100 {
        assert_eq!(plane.send(&tcp(0x0B000001, 0), 7), Verdict::Drop);
    }
    assert_eq!(plane.classifier.buckets.len(), 1);
}

#[test]
fn actions() {
    let mut plane = Plane::new();
    plane.add(from("pass", 0x01000000, 8, 1));
    plane.add(from("drop", 0x02000000, 8, 2));
    plane.add(FilterRule { redirect_ifindex: 4, ..from("redirect", 0x03000000, 8, 3) });
    plane.add(from("count", 0x04000000, 8, 4));
    let odd = from("odd", 0x05000000, 8, 9);
    assert!(!odd.is_well_formed());
    assert!(plane.classifier.maps.apply(&MapOp::Update {
        table: MapTable::FilterRules,
        key: create_prefix_key(0x05000000, 8),
        value: create_filter_rule(&odd),
    }));
    assert_eq!(plane.send(&tcp(0x01000001, 0), 1), Verdict::Pass);
    assert_eq!(plane.send(&tcp(0x02000001, 0), 1), Verdict::Drop);
    assert_eq!(plane.send(&tcp(0x03000001, 0), 1), Verdict::Redirect { ifindex: 4 });
    assert_eq!(plane.send(&tcp(0x04000001, 0), 1), Verdict::Count);
    assert_eq!(plane.send(&tcp(0x05000001, 0), 1), Verdict::Pass);
    for label in ["pass", "drop", "redirect", "count"] {
        assert_eq!(plane.stats(label).packets, 1);
    }
    let odd_value = plane.classifier.maps.lookup(MapTable::FilterRules, &create_prefix_key(0x05000000, 8));
    assert_eq!(swift_guard::maps::parse_counters(&odd_value.unwrap()).packets, 1);
    assert!(plane.classifier.maps.apply(&MapOp::Delete { table: MapTable::RedirectMap, key: vec![4, 0, 0, 0] }));
    assert_eq!(plane.send(&tcp(0x03000001, 0), 1), Verdict::Drop);
    assert_eq!(plane.stats("redirect").packets, 2);
}

#[test]
fn every_frame_is_counted_in_the_aggregate() {
    let mut plane = Plane::new();
    assert_eq!(plane.aggregate(), (0, 0));
    plane.add(from("drop", 0x0A000000, 8, 2));
    assert_eq!(plane.aggregate(), (0, 0));
    let matching = frame(0x0A000001, 1, TCP, 1, 2, 0, 100);
    let other = frame(0x0B000001, 1, UDP, 1, 2, 0, 10);
    assert_eq!(plane.send(&matching, 1), Verdict::Drop);
    assert_eq!(plane.aggregate(), (1, matching.len() as u64));
    assert_eq!(plane.send(&other, 1), Verdict::Pass);
    assert_eq!(plane.aggregate(), (2, (matching.len() + other.len()) as u64));
    let mut arp = vec![0u8; 60];
    arp[12] = 0x08;
    arp[13] = 0x06;
    assert_eq!(plane.send(&arp, 1), Verdict::Pass);
    assert_eq!(plane.send(&[], 1), Verdict::Pass);
    assert_eq!(plane.send(&[1, 2, 3], 1), Verdict::Pass);
    assert_eq!(plane.aggregate(), (5, (matching.len() + other.len() + 63) as u64));
    assert_eq!(plane.stats("drop"), RuleStats { packets: 1, bytes: matching.len() as u64, last_matched: 1 });
}

#[test]
fn frames_that_end_too_early_pass() {
    let mut plane = Plane::new();
    plane.add(from("drop", 0x0A000000, 8, 2));
    let full = tcp(0x0A000001, SYN);
    assert_eq!(full.len(), 54);
    assert_eq!(plane.send(&full, 1), Verdict::Drop);
    for cut in [0, 13, 14, 33, 34, 53] {
        assert_eq!(plane.send(&full[..cut], 1), Verdict::Pass, "{}", cut);
    }
    let udp = frame(0x0A000001, 1, UDP, 1, 2, 0, 0);
    assert_eq!(udp.len(), 42);
    assert_eq!(plane.send(&udp, 1), Verdict::Drop);
    assert_eq!(plane.send(&udp[..41], 1), Verdict::Pass);
    let icmp = frame(0x0A000001, 1, ICMP, 0, 0, 0, 0);
    assert_eq!(icmp.len(), 34);
    assert_eq!(plane.send(&icmp, 1), Verdict::Drop);
    let mut short_header = full.clone();
    short_header[14] = 0x44;
    assert_eq!(plane.send(&short_header, 1), Verdict::Pass);
    let mut long_header = full.clone();
    long_header[14] = 0x4f;
    assert_eq!(plane.send(&long_header, 1), Verdict::Pass);
    let mut options = tcp(0x0A000001, SYN);
    options[14] = 0x46;
    options.splice(34..34, [0u8; 4]);
    assert_eq!(plane.send(&options, 1), Verdict::Drop);
    assert_eq!(plane.stats("drop").packets, 4);
}

#[test]
fn packets_are_read_from_frames() {
    assert_eq!(
        parse_packet(&frame(0x0A010203, 0xC0A80001, TCP, 40000, 443, 0x12, 5)),
        Some(Packet {
            src: 0x0A010203,
            dst: 0xC0A80001,
            protocol: 6,
            ports: Some((40000, 443)),
            tcp_flags: Some(0x12),
        })
    );
    assert_eq!(
        parse_packet(&frame(1, 2, UDP, 53, 5353, 0, 0)),
        Some(Packet { src: 1, dst: 2, protocol: 17, ports: Some((53, 5353)), tcp_flags: None })
    );
    assert_eq!(
        parse_packet(&frame(1, 2, ICMP, 0, 0, 0, 0)),
        Some(Packet { src: 1, dst: 2, protocol: 1, ports: None, tcp_flags: None })
    );
    assert_eq!(parse_packet(&[]), None);
    let mut v6 = frame(1, 2, TCP, 1, 2, 0, 0);
    v6[12] = 0x86;
    v6[13] = 0xdd;
    assert_eq!(parse_packet(&v6), None);
}

#[test]
fn the_fields_of_a_rule_are_read_from_its_value() {
    let r = FilterRule {
        src_ip: Some((0x0A000000, 8)),
        dst_ip: Some((1, 32)),
        src_port_min: 1,
        src_port_max: 2,
        dst_port_min: 3,
        dst_port_max: 4,
        protocol: 17,
        tcp_flags: 0x3f,
        action: 3,
        redirect_ifindex: 0x01020304,
        priority: 0xdeadbeef,
        rate_limit: 5,
        expire: 6,
        label: "fields".to_string(),
        creation_time: 7,
    };
    let value = create_filter_rule(&r);
    assert_eq!(
        decode_fields(&value),
        Some(RuleFields {
            priority: 0xdeadbeef,
            action: 3,
            protocol: 17,
            src_port_min: 1,
            src_port_max: 2,
            dst_port_min: 3,
            dst_port_max: 4,
            tcp_flags: 0x3f,
            redirect_ifindex: 0x01020304,
            rate_limit: 5,
            expire: 6,
        })
    );
    assert_eq!(decode_fields(&value[..82]), None);
    assert_eq!(decode_fields(&[]), None);
}

#[test]
fn a_value_that_is_no_rule_matches_nothing() {
    let mut plane = Plane::new();
    let key = create_prefix_key(0x0A000000, 8);
    assert!(plane.classifier.maps.apply(&MapOp::Update { table: MapTable::FilterRules, key, value: vec![2; 40] }));
    assert_eq!(plane.send(&tcp(0x0A000001, 0), 1), Verdict::Pass);
    assert_eq!(plane.aggregate().0, 1);
}

#[test]
fn an_entry_without_owner_is_judged_by_its_value_alone() {
    let mut plane = Plane::new();
    let r = FilterRule { expire: 1, dst_ip: Some((9, 32)), ..from("ghost", 0x0A000000, 8, 2) };
    let key = create_prefix_key(0x0A000000, 8);
    assert!(plane.classifier.maps.apply(&MapOp::Update { table: MapTable::FilterRules, key, value: create_filter_rule(&r) }));
    assert_eq!(plane.send(&tcp(0x0A000001, 0), 1_000_000), Verdict::Drop);
}

#[test]
fn a_later_rule_under_the_same_key_takes_it_over() {
    let mut plane = Plane::new();
    plane.add(from("first", 0x0A000000, 8, 1));
    plane.add(FilterRule { dst_ip: Some((7, 32)), ..from("second", 0x0A010203, 8, 2) });
    assert_eq!(plane.send(&frame(0x0A000001, 7, TCP, 1, 2, 0, 0), 1), Verdict::Drop);
    assert_eq!(plane.send(&frame(0x0A000001, 8, TCP, 1, 2, 0, 0), 1), Verdict::Pass);
    assert_eq!(plane.classifier.maps.filter_rules.len(), 1);
}

#[test]
fn counters_stop_at_the_largest_number() {
    assert_eq!(add_saturating(1, 2), 3);
    assert_eq!(add_saturating(u64::MAX, 1), u64::MAX);
    assert_eq!(add_saturating(u64::MAX - 1, 1), u64::MAX);
    assert_eq!(add_saturating(u64::MAX - 1, 2), u64::MAX);
    assert_eq!(add_saturating(0, u64::MAX), u64::MAX);
    let mut plane = Plane::new();
    let key = create_prefix_key(0x0A000000, 8);
    let mut value = create_filter_rule(&from("full", 0x0A000000, 8, 2));
    value.truncate(59);
    value.extend(u64::MAX.to_le_bytes());
    value.extend((u64::MAX - 10).to_le_bytes());
    value.extend(0u64.to_le_bytes());
    plane.add(from("full", 0x0A000000, 8, 2));
    assert!(plane.classifier.maps.apply(&MapOp::Update { table: MapTable::FilterRules, key, value }));
    assert_eq!(plane.send(&tcp(0x0A000001, 0), 9), Verdict::Drop);
    assert_eq!(plane.stats("full"), RuleStats { packets: u64::MAX, bytes: u64::MAX, last_matched: 9 });
}
