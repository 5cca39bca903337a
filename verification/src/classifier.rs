//! The classifier: what happens to one frame, given the tables.
//!
//! This is the reference for the program that runs in the kernel. It reads
//! the longest-prefix table by the source address of the frame and judges
//! the frame by the value it finds there. Two things that a rule asks for
//! are not in that value: the destination network and the time the rule was
//! made. The classifier takes them from the rule of the control plane's
//! table that owns the key, which is the last one that was added under it.
//!
//! Every frame is counted in the aggregate record, whatever becomes of it.

use crate::layout::{
    le16, le16_at, le32, le32_at, le64, le64_at, mask_of, netmask, prefix_key, push_le32, push_le64,
    read_le16, read_le32, read_le64,
};
use crate::maps::{add_ops, delete_ops, 
    aggregate_of, create_prefix_key, FilterRule, MapManager, AGGREGATE_LEN, RULE_VALUE_LEN,
};
use crate::tables::{
    holds, keys_distinct, lemma_deleted, lemma_updated, updated, value_at, EntryView, KernelMaps,
    MapsView, Table,
};
use vstd::prelude::*;

verus! {

/// What the classifier does with a frame.
#[derive(Debug, Clone, Copy, PartialEq, Eq, Structural)]
pub enum Verdict {
    /// The frame goes on its way.
    Pass,
    /// The frame is dropped at ingress.
    Drop,
    /// The frame is forwarded to the interface with this number.
    Redirect { ifindex: u32 },
    /// The frame goes on its way and was counted.
    Count,
}

/// What the classifier reads of a frame.
#[derive(Debug, Clone, Copy, PartialEq, Eq)]
pub struct Packet {
    pub src: u32,
    pub dst: u32,
    pub protocol: u8,
    /// Source and destination port, of a TCP or UDP packet.
    pub ports: Option<(u16, u16)>,
    /// The flags of a TCP packet.
    pub tcp_flags: Option<u8>,
}

/// The fields of a rule that its value in the longest-prefix table holds.
#[derive(Debug, Clone, Copy, PartialEq, Eq, Structural)]
pub struct RuleFields {
    pub priority: u32,
    pub action: u8,
    pub protocol: u8,
    pub src_port_min: u16,
    pub src_port_max: u16,
    pub dst_port_min: u16,
    pub dst_port_max: u16,
    pub tcp_flags: u8,
    pub redirect_ifindex: u32,
    pub rate_limit: u32,
    pub expire: u32,
}

/// The number whose two bytes, highest first, are at `at` in `s`.
pub open spec fn be16_at(s: Seq<u8>, at: int) -> u16 {
    ((s[at] as u16) << 8) | (s[at + 1] as u16)
}

/// The number whose four bytes, highest first, are at `at` in `s`.
pub open spec fn be32_at(s: Seq<u8>, at: int) -> u32 {
    ((s[at] as u32) << 24) | ((s[at + 1] as u32) << 16) | ((s[at + 2] as u32) << 8) | (s[at
        + 3] as u32)
}

/// The length that the IPv4 header of `frame` gives for itself.
pub open spec fn ip_header_len(frame: Seq<u8>) -> int {
    ((frame[14] & 0x0f) as int) * 4
}

/// What the classifier reads of `frame`: none where it is no IPv4 frame or
/// ends before the headers that it announces. The frame holds an Ethernet
/// header of 14 bytes, an IPv4 header of at least 20, and for TCP a header
/// of 20 bytes, for UDP one of 8.
pub open spec fn packet_of(frame: Seq<u8>) -> Option<Packet> {
    if frame.len() < 34 || be16_at(frame, 12) != 0x0800 || ip_header_len(frame) < 20 || frame.len()
        < 14 + ip_header_len(frame) {
        None
    } else {
        let at = 14 + ip_header_len(frame);
        let protocol = frame[23];
        let src = be32_at(frame, 26);
        let dst = be32_at(frame, 30);
        if protocol == 6 {
            if frame.len() < at + 20 {
                None
            } else {
                Some(
                    Packet {
                        src,
                        dst,
                        protocol,
                        ports: Some((be16_at(frame, at), be16_at(frame, at + 2))),
                        tcp_flags: Some(frame[at + 13]),
                    },
                )
            }
        } else if protocol == 17 {
            if frame.len() < at + 8 {
                None
            } else {
                Some(
                    Packet {
                        src,
                        dst,
                        protocol,
                        ports: Some((be16_at(frame, at), be16_at(frame, at + 2))),
                        tcp_flags: None,
                    },
                )
            }
        } else {
            Some(Packet { src, dst, protocol, ports: None, tcp_flags: None })
        }
    }
}

/// The fields in a value of the longest-prefix table; none where the value
/// is shorter than a rule's value.
pub open spec fn fields_of(value: Seq<u8>) -> Option<RuleFields> {
    if value.len() < RULE_VALUE_LEN {
        None
    } else {
        Some(
            RuleFields {
                priority: le32_at(value, 0),
                action: value[4],
                protocol: value[5],
                src_port_min: le16_at(value, 6),
                src_port_max: le16_at(value, 8),
                dst_port_min: le16_at(value, 10),
                dst_port_max: le16_at(value, 12),
                tcp_flags: value[14],
                redirect_ifindex: le32_at(value, 15),
                rate_limit: le32_at(value, 19),
                expire: le32_at(value, 23),
            },
        )
    }
}

/// Whether a packet with the flags `packet_flags` has all the flags that a
/// rule asks for. A rule that asks for none is met by every packet, one
/// that asks for some only by TCP packets.
pub open spec fn flags_match(rule_flags: u8, packet_flags: Option<u8>) -> bool {
    rule_flags == 0 || (packet_flags matches Some(flags) && flags & rule_flags == rule_flags)
}

/// Whether `packet` meets what the value of a rule asks of protocol, ports
/// and flags. Ports are asked only of packets that have them.
pub open spec fn fields_match(fields: RuleFields, packet: Packet) -> bool {
    &&& fields.protocol == 255 || fields.protocol == packet.protocol
    &&& packet.ports matches Some((src_port, dst_port)) ==> {
        &&& fields.src_port_min <= src_port <= fields.src_port_max
        &&& fields.dst_port_min <= dst_port <= fields.dst_port_max
    }
    &&& flags_match(fields.tcp_flags, packet.tcp_flags)
}

/// Whether `addr` lies in the network of `ip` with `prefix` bits.
pub open spec fn in_network(addr: u32, ip: u32, prefix: u32) -> bool {
    prefix <= 32 && addr & netmask(prefix) == ip & netmask(prefix)
}

/// The rule that owns `key` in the longest-prefix table: the last of
/// `rules` whose source network has that key.
pub open spec fn owner(rules: Seq<FilterRule>, key: Seq<u8>) -> Option<FilterRule>
    decreases rules.len(),
{
    if rules.len() == 0 {
        None
    } else if rules.last().key() == Some(key) {
        Some(rules.last())
    } else {
        owner(rules.drop_last(), key)
    }
}

/// Whether a packet at `now` meets what the owner of the matched key asks
/// beyond its value: a destination in its destination network, and a time
/// within its life of `expire` seconds, which has no end where that is 0.
/// A key without owner asks nothing.
pub open spec fn owner_match(owner: Option<FilterRule>, expire: u32, packet: Packet, now: u64)
    -> bool {
    match owner {
        None => true,
        Some(rule) => {
            &&& rule.dst_ip matches Some((ip, prefix)) ==> in_network(packet.dst, ip, prefix)
            &&& expire != 0 ==> now - rule.creation_time < expire
        },
    }
}

/// The longest prefix of `src`, of `upto` bits at most, under which the
/// table holds an entry.
pub open spec fn longest_prefix(filter: Seq<EntryView>, src: u32, upto: nat) -> Option<nat>
    decreases upto,
{
    if holds(filter, prefix_key(src, upto as u32)) {
        Some(upto)
    } else if upto == 0 {
        None
    } else {
        longest_prefix(filter, src, (upto - 1) as nat)
    }
}

/// `a + b`, but never past the largest `u64`.
pub open spec fn sat_add(a: u64, b: u64) -> u64 {
    if a + b > u64::MAX {
        u64::MAX
    } else {
        (a + b) as u64
    }
}

/// The value of a rule after it accepted a frame of `frame_len` bytes at
/// `now`: its last 24 bytes count one packet and `frame_len` bytes more and
/// hold `now`; the bytes before them are as they were.
pub open spec fn counted_value(value: Seq<u8>, frame_len: u64, now: u64) -> Seq<u8>
    recommends
        value.len() >= 24,
{
    value.take(value.len() - 24) + le64(sat_add(le64_at(value, value.len() - 24), 1)) + le64(
        sat_add(le64_at(value, value.len() - 16), frame_len),
    ) + le64(now)
}

/// The aggregate record after a frame of `frame_len` bytes: one packet and
/// `frame_len` bytes more than in `slot`, which counts as zeros where it is
/// missing or too short.
pub open spec fn counted_aggregate(slot: Option<Seq<u8>>, frame_len: u64) -> Seq<u8> {
    le64(sat_add(aggregate_of(slot).0, 1)) + le64(sat_add(aggregate_of(slot).1, frame_len))
}

/// The record of a rule's bucket: the second it counts in, and the packets
/// it let through in that second.
pub open spec fn bucket_value(window: u64, used: u32) -> Seq<u8> {
    le64(window) + le32(used)
}

/// Whether the bucket of the rule under `key` lets a packet through at
/// `now`, and the buckets after it. A rate of 0 is no limit and keeps no
/// bucket. Else each second has `rate` packets to give.
pub open spec fn take_token(buckets: Seq<EntryView>, key: Seq<u8>, rate: u32, now: u64) -> (
    bool,
    Seq<EntryView>,
) {
    if rate == 0 {
        (true, buckets)
    } else {
        match value_at(buckets, key) {
            Some(record) => if record.len() >= 12 && le64_at(record, 0) == now {
                if le32_at(record, 8) < rate {
                    (true, updated(buckets, key, bucket_value(now, (le32_at(record, 8) + 1) as u32)))
                } else {
                    (false, buckets)
                }
            } else {
                (true, updated(buckets, key, bucket_value(now, 1)))
            },
            None => (true, updated(buckets, key, bucket_value(now, 1))),
        }
    }
}

/// What the action of a rule does with a frame that the rule accepted. A
/// redirect to an interface that the redirect table does not hold drops
/// the frame. An action of no known number lets it pass.
pub open spec fn verdict_for(fields: RuleFields, redirect_map: Seq<EntryView>) -> Verdict {
    if fields.action == 2 {
        Verdict::Drop
    } else if fields.action == 3 {
        if holds(redirect_map, le32(fields.redirect_ifindex)) {
            Verdict::Redirect { ifindex: fields.redirect_ifindex }
        } else {
            Verdict::Drop
        }
    } else if fields.action == 4 {
        Verdict::Count
    } else {
        Verdict::Pass
    }
}

/// What the classifier knows: the three tables, and the buckets of the
/// rules with a rate limit.
pub struct ClassifierView {
    pub maps: MapsView,
    pub buckets: Seq<EntryView>,
}

/// The length of a frame as the counters take it.
pub open spec fn counted_len(frame: Seq<u8>) -> u64 {
    if frame.len() > u64::MAX {
        u64::MAX
    } else {
        frame.len() as u64
    }
}

/// The key of the aggregate counter record.
pub open spec fn stats_key() -> Seq<u8> {
    le32(0)
}

/// The classifier after it counted `frame` in the aggregate record, which
/// it does for every frame.
pub open spec fn seen(state: ClassifierView, frame: Seq<u8>) -> ClassifierView {
    ClassifierView {
        maps: MapsView {
            stats_map: updated(
                state.maps.stats_map,
                stats_key(),
                counted_aggregate(value_at(state.maps.stats_map, stats_key()), counted_len(frame)),
            ),
            ..state.maps
        },
        ..state
    }
}

/// The rule that `frame` is judged by at `now`, if there is one: its key
/// and the fields of its value. The frame must be a packet; the
/// longest-prefix table must hold an entry for a prefix of its source; the
/// value there must be a rule's value; the packet must meet what the value
/// and the owner of the key ask of it.
pub open spec fn matched(
    state: ClassifierView,
    rules: Seq<FilterRule>,
    frame: Seq<u8>,
    now: u64,
) -> Option<(Seq<u8>, RuleFields)> {
    match packet_of(frame) {
        None => None,
        Some(packet) => match longest_prefix(state.maps.filter_rules, packet.src, 32) {
            None => None,
            Some(bits) => {
                let key = prefix_key(packet.src, bits as u32);
                match fields_of(value_at(state.maps.filter_rules, key)->0) {
                    None => None,
                    Some(fields) => if fields_match(fields, packet) && owner_match(
                        owner(rules, key),
                        fields.expire,
                        packet,
                        now,
                    ) {
                        Some((key, fields))
                    } else {
                        None
                    },
                }
            },
        },
    }
}

/// What becomes of `frame` at `now`, and the classifier after it.
///
/// Every frame is counted in the aggregate record. A frame that no rule
/// matches passes. One that a rule matches passes too where the bucket of
/// the rule is empty. Else the rule accepts it: the rule's counters count
/// it, and its action says what becomes of it.
pub open spec fn classify(state: ClassifierView, rules: Seq<FilterRule>, frame: Seq<u8>, now: u64)
    -> (Verdict, ClassifierView) {
    let counted = seen(state, frame);
    match matched(state, rules, frame, now) {
        None => (Verdict::Pass, counted),
        Some((key, fields)) => {
            let (granted, buckets) = take_token(state.buckets, key, fields.rate_limit, now);
            if !granted {
                (Verdict::Pass, counted)
            } else {
                let value = value_at(state.maps.filter_rules, key)->0;
                (
                    verdict_for(fields, state.maps.redirect_map),
                    ClassifierView {
                        maps: MapsView {
                            filter_rules: updated(
                                state.maps.filter_rules,
                                key,
                                counted_value(value, counted_len(frame), now),
                            ),
                            ..counted.maps
                        },
                        buckets,
                    },
                )
            }
        },
    }
}

/// A packet that has the flags a rule asks for still has them with more
/// flags set.
pub proof fn lemma_flags_subset(rule_flags: u8, packet_flags: u8, more: u8)
    requires
        flags_match(rule_flags, Some(packet_flags)),
    ensures
        flags_match(rule_flags, Some(packet_flags | more)),
{
    assert(packet_flags & rule_flags == rule_flags ==> (packet_flags | more) & rule_flags
        == rule_flags) by (bit_vector);
}

/// A rule that asks for the SYN flag is met by a SYN packet and by a
/// SYN+ACK packet, and not by an ACK packet or by a packet that is not TCP.
pub proof fn lemma_syn_rule()
    ensures
        flags_match(0x02, Some(0x02u8)),
        flags_match(0x02, Some(0x12u8)),
        !flags_match(0x02, Some(0x10u8)),
        !flags_match(0x02, None),
{
    assert(0x02u8 & 0x02u8 == 0x02u8) by (bit_vector);
    assert(0x12u8 & 0x02u8 == 0x02u8) by (bit_vector);
    assert(0x10u8 & 0x02u8 != 0x02u8) by (bit_vector);
}

/// The longest prefix is one that the table holds, and the table holds no
/// longer one within the bound.
pub proof fn lemma_longest_prefix(filter: Seq<EntryView>, src: u32, upto: nat)
    ensures
        match longest_prefix(filter, src, upto) {
            Some(bits) => bits <= upto && holds(filter, prefix_key(src, bits as u32)) && forall|
                longer: nat,
            |
                bits < longer <= upto ==> !holds(filter, #[trigger] prefix_key(src, longer as u32)),
            None => forall|bits: nat|
                bits <= upto ==> !holds(filter, #[trigger] prefix_key(src, bits as u32)),
        },
    decreases upto,
{
    if holds(filter, prefix_key(src, upto as u32)) {
    } else if upto == 0 {
    } else {
        lemma_longest_prefix(filter, src, (upto - 1) as nat);
    }
}

/// The fields that the classifier reads in the value of a rule are the
/// fields of the rule.
pub proof fn lemma_fields_of_value(rule: FilterRule)
    ensures
        fields_of(rule.value()) == Some(
            RuleFields {
                priority: rule.priority,
                action: rule.action,
                protocol: rule.protocol,
                src_port_min: rule.src_port_min,
                src_port_max: rule.src_port_max,
                dst_port_min: rule.dst_port_min,
                dst_port_max: rule.dst_port_max,
                tcp_flags: rule.tcp_flags,
                redirect_ifindex: rule.redirect_ifindex,
                rate_limit: rule.rate_limit,
                expire: rule.expire,
            },
        ),
{
    let v = rule.value();
    crate::maps::lemma_fresh_counters(rule);
    let a = le32(rule.priority);
    let b = le16(rule.src_port_min);
    let c = le16(rule.src_port_max);
    let d = le16(rule.dst_port_min);
    let e = le16(rule.dst_port_max);
    let f = le32(rule.redirect_ifindex);
    let g = le32(rule.rate_limit);
    let h = le32(rule.expire);
    assert(v.subrange(0, 4) =~= a);
    assert(v[4] == rule.action);
    assert(v[5] == rule.protocol);
    assert(v.subrange(6, 8) =~= b);
    assert(v.subrange(8, 10) =~= c);
    assert(v.subrange(10, 12) =~= d);
    assert(v.subrange(12, 14) =~= e);
    assert(v[14] == rule.tcp_flags);
    assert(v.subrange(15, 19) =~= f);
    assert(v.subrange(19, 23) =~= g);
    assert(v.subrange(23, 27) =~= h);
    crate::layout::lemma_le32_round_trip(rule.priority);
    crate::layout::lemma_le16_round_trip(rule.src_port_min);
    crate::layout::lemma_le16_round_trip(rule.src_port_max);
    crate::layout::lemma_le16_round_trip(rule.dst_port_min);
    crate::layout::lemma_le16_round_trip(rule.dst_port_max);
    crate::layout::lemma_le32_round_trip(rule.redirect_ifindex);
    crate::layout::lemma_le32_round_trip(rule.rate_limit);
    crate::layout::lemma_le32_round_trip(rule.expire);
    assert(le32_at(v, 0) == le32_at(a, 0));
    assert(le16_at(v, 6) == le16_at(b, 0));
    assert(le16_at(v, 8) == le16_at(c, 0));
    assert(le16_at(v, 10) == le16_at(d, 0));
    assert(le16_at(v, 12) == le16_at(e, 0));
    assert(le32_at(v, 15) == le32_at(f, 0));
    assert(le32_at(v, 19) == le32_at(g, 0));
    assert(le32_at(v, 23) == le32_at(h, 0));
}

/// Every frame is counted: whatever becomes of a frame, the aggregate
/// record afterwards holds one packet and the length of the frame more
/// than before, up to the largest number.
pub proof fn lemma_every_frame_is_counted(
    state: ClassifierView,
    rules: Seq<FilterRule>,
    frame: Seq<u8>,
    now: u64,
)
    requires
        keys_distinct(state.maps.stats_map),
    ensures
        aggregate_of(value_at(classify(state, rules, frame, now).1.maps.stats_map, stats_key()))
            == (
            sat_add(aggregate_of(value_at(state.maps.stats_map, stats_key())).0, 1),
            sat_add(
                aggregate_of(value_at(state.maps.stats_map, stats_key())).1,
                counted_len(frame),
            ),
        ),
{
    let before = aggregate_of(value_at(state.maps.stats_map, stats_key()));
    let packets = sat_add(before.0, 1);
    let bytes = sat_add(before.1, counted_len(frame));
    let record = counted_aggregate(value_at(state.maps.stats_map, stats_key()), counted_len(frame));
    assert(classify(state, rules, frame, now).1.maps.stats_map == seen(state, frame).maps.stats_map);
    lemma_updated(state.maps.stats_map, stats_key(), record, stats_key());
    crate::layout::lemma_le64_round_trip(packets);
    crate::layout::lemma_le64_round_trip(bytes);
    assert(record.len() == 16);
    assert(record.subrange(0, 8) =~= le64(packets));
    assert(record.subrange(8, 16) =~= le64(bytes));
    assert(le64_at(record, 0) == le64_at(le64(packets), 0));
    assert(le64_at(record, 8) == le64_at(le64(bytes), 0));
}

/// Once the writes that adding a rule takes are carried out, all of them
/// go through, the longest-prefix table holds the value of the rule under
/// its key, and the classifier reads the fields of the rule there.
pub proof fn lemma_added_rule_is_installed(maps: MapsView, rule: FilterRule)
    requires
        keys_distinct(maps.filter_rules),
        rule.key() is Some,
    ensures
        maps.applied_all(add_ops(rule)).0 == add_ops(rule).len(),
        value_at(maps.applied_all(add_ops(rule)).1.filter_rules, rule.key()->0) == Some(
            rule.value(),
        ),
        fields_of(rule.value()) is Some,
        fields_of(rule.value())->0.action == rule.action,
        fields_of(rule.value())->0.tcp_flags == rule.tcp_flags,
        fields_of(rule.value())->0.rate_limit == rule.rate_limit,
{
    let ops = add_ops(rule);
    let key = rule.key()->0;
    lemma_updated(maps.filter_rules, key, rule.value(), key);
    lemma_fields_of_value(rule);
    let first = maps.applied(ops[0]);
    assert(first.filter_rules == updated(maps.filter_rules, key, rule.value()));
    if ops.len() == 1 {
        assert(ops.drop_first().len() == 0);
        assert(first.applied_all(ops.drop_first()) == (0nat, first));
    } else {
        let rest = ops.drop_first();
        assert(rest.len() == 1);
        assert(rest[0] == ops[1]);
        let second = first.applied(rest[0]);
        assert(second.filter_rules == first.filter_rules);
        assert(rest.drop_first().len() == 0);
        assert(second.applied_all(rest.drop_first()) == (0nat, second));
        assert(first.applied_all(rest) == (1nat, second));
    }
}

/// Once the write that deleting a rule takes is carried out on a table
/// that holds the rule, it has gone through and the longest-prefix table
/// holds nothing under the key of the rule.
pub proof fn lemma_deleted_rule_is_gone(maps: MapsView, rule: FilterRule)
    requires
        keys_distinct(maps.filter_rules),
        rule.key() is Some,
        holds(maps.filter_rules, rule.key()->0),
    ensures
        maps.applied_all(delete_ops(rule)).0 == 1,
        !holds(maps.applied_all(delete_ops(rule)).1.filter_rules, rule.key()->0),
{
    let ops = delete_ops(rule);
    let key = rule.key()->0;
    lemma_deleted(maps.filter_rules, key, key);
    let first = maps.applied(ops[0]);
    assert(ops.drop_first().len() == 0);
    assert(first.applied_all(ops.drop_first()) == (0nat, first));
}

/// `a + b`, but never past the largest `u64`.
pub fn add_saturating(a: u64, b: u64) -> (r: u64)
    ensures
        r == sat_add(a, b),
{
    if a > u64::MAX - b {
        u64::MAX
    } else {
        a + b
    }
}

/// The number whose two bytes, highest first, are at `at` in `frame`.
pub fn read_be16(frame: &[u8], at: usize) -> (r: u16)
    requires
        at + 2 <= frame.len(),
    ensures
        r == be16_at(frame@, at as int),
{
    ((frame[at] as u16) << 8) | (frame[at + 1] as u16)
}

/// The number whose four bytes, highest first, are at `at` in `frame`.
pub fn read_be32(frame: &[u8], at: usize) -> (r: u32)
    requires
        at + 4 <= frame.len(),
    ensures
        r == be32_at(frame@, at as int),
{
    ((frame[at] as u32) << 24) | ((frame[at + 1] as u32) << 16) | ((frame[at + 2] as u32) << 8) | (
    frame[at + 3] as u32)
}

/// What the classifier reads of `frame`.
pub fn parse_packet(frame: &[u8]) -> (r: Option<Packet>)
    ensures
        r == packet_of(frame@),
{
    if frame.len() < 34 {
        return None;
    }
    if read_be16(frame, 12) != 0x0800 {
        return None;
    }
    let first: u8 = frame[14];
    let words: u8 = first & 0x0f;
    assert(words <= 15) by (bit_vector)
        requires
            words == first & 0x0f,
    ;
    let header: usize = (words as usize) * 4;
    if header < 20 || frame.len() < 14 + header {
        return None;
    }
    let at: usize = 14 + header;
    let protocol = frame[23];
    let src = read_be32(frame, 26);
    let dst = read_be32(frame, 30);
    if protocol == 6 {
        if frame.len() - at < 20 {
            None
        } else {
            Some(
                Packet {
                    src,
                    dst,
                    protocol,
                    ports: Some((read_be16(frame, at), read_be16(frame, at + 2))),
                    tcp_flags: Some(frame[at + 13]),
                },
            )
        }
    } else if protocol == 17 {
        if frame.len() - at < 8 {
            None
        } else {
            Some(
                Packet {
                    src,
                    dst,
                    protocol,
                    ports: Some((read_be16(frame, at), read_be16(frame, at + 2))),
                    tcp_flags: None,
                },
            )
        }
    } else {
        Some(Packet { src, dst, protocol, ports: None, tcp_flags: None })
    }
}

/// The fields in a value of the longest-prefix table.
pub fn decode_fields(value: &[u8]) -> (r: Option<RuleFields>)
    ensures
        r == fields_of(value@),
{
    if value.len() < RULE_VALUE_LEN {
        return None;
    }
    Some(
        RuleFields {
            priority: read_le32(value, 0),
            action: value[4],
            protocol: value[5],
            src_port_min: read_le16(value, 6),
            src_port_max: read_le16(value, 8),
            dst_port_min: read_le16(value, 10),
            dst_port_max: read_le16(value, 12),
            tcp_flags: value[14],
            redirect_ifindex: read_le32(value, 15),
            rate_limit: read_le32(value, 19),
            expire: read_le32(value, 23),
        },
    )
}

/// Whether a packet with the flags `packet_flags` has all the flags that a
/// rule asks for.
pub fn tcp_flags_match(rule_flags: u8, packet_flags: Option<u8>) -> (r: bool)
    ensures
        r == flags_match(rule_flags, packet_flags),
{
    if rule_flags == 0 {
        true
    } else {
        match packet_flags {
            Some(flags) => flags & rule_flags == rule_flags,
            None => false,
        }
    }
}

/// Whether `packet` meets what the value of a rule asks of protocol, ports
/// and flags.
pub fn packet_matches(fields: &RuleFields, packet: &Packet) -> (r: bool)
    ensures
        r == fields_match(*fields, *packet),
{
    if fields.protocol != 255 && fields.protocol != packet.protocol {
        return false;
    }
    let ports_ok = match packet.ports {
        Some((src_port, dst_port)) => fields.src_port_min <= src_port && src_port
            <= fields.src_port_max && fields.dst_port_min <= dst_port && dst_port
            <= fields.dst_port_max,
        None => true,
    };
    ports_ok && tcp_flags_match(fields.tcp_flags, packet.tcp_flags)
}

/// The rule of `rules` that owns `key` in the longest-prefix table.
pub fn find_owner<'a>(rules: &'a MapManager, key: &[u8]) -> (r: Option<&'a FilterRule>)
    ensures
        match r {
            Some(rule) => owner(rules@, key@) == Some(*rule),
            None => owner(rules@, key@) is None,
        },
{
    let mut i: usize = rules.len();
    assert(rules@.take(i as int) == rules@);
    while i > 0
        invariant
            i <= rules@.len(),
            owner(rules@, key@) == owner(rules@.take(i as int), key@),
        decreases i,
    {
        assert(rules@.take(i as int).drop_last() == rules@.take(i - 1));
        assert(rules@.take(i as int).last() == rules@[i - 1]);
        match rules.rule(i - 1) {
            Some(rule) => {
                if let Some((ip, prefix)) = rule.src_ip {
                    let rule_key = create_prefix_key(ip, prefix);
                    if crate::tables::same_bytes(rule_key.as_slice(), key) {
                        return Some(rule);
                    }
                }
            },
            None => {},
        }
        i -= 1;
    }
    assert(rules@.take(0).len() == 0);
    None
}

/// Whether a packet at `now` meets what the owner of the matched key asks
/// beyond its value.
pub fn owner_matches(owner: Option<&FilterRule>, expire: u32, packet: &Packet, now: u64) -> (r:
    bool)
    ensures
        r == owner_match(
            match owner {
                Some(rule) => Some(*rule),
                None => None,
            },
            expire,
            *packet,
            now,
        ),
{
    match owner {
        None => true,
        Some(rule) => {
            let dst_ok = match rule.dst_ip {
                Some((ip, prefix)) => prefix <= 32 && (packet.dst & mask_of(prefix)) == (ip
                    & mask_of(prefix)),
                None => true,
            };
            let alive = expire == 0 || now < rule.creation_time || now - rule.creation_time < (
            expire as u64);
            dst_ok && alive
        },
    }
}

/// The classifier with its tables.
pub struct Classifier {
    /// The three tables that the control plane writes and reads.
    pub maps: KernelMaps,
    /// For each rule with a rate limit that has let a packet through, under
    /// the key of the rule: the second it counts in, and how many it let
    /// through in that second.
    pub buckets: Table,
}

impl View for Classifier {
    type V = ClassifierView;

    open spec fn view(&self) -> ClassifierView {
        ClassifierView { maps: self.maps@, buckets: self.buckets@ }
    }
}

impl Classifier {
    /// A classifier whose tables hold nothing.
    pub fn new() -> (r: Classifier)
        ensures
            r@.maps.filter_rules.len() == 0,
            r@.maps.redirect_map.len() == 0,
            r@.maps.stats_map.len() == 0,
            r@.buckets.len() == 0,
    {
        Classifier { maps: KernelMaps::new(), buckets: Table::new() }
    }

    /// The longest prefix of `src` under which the longest-prefix table
    /// holds an entry.
    pub fn longest_match(&self, src: u32) -> (r: Option<u32>)
        ensures
            match r {
                Some(bits) => longest_prefix(self@.maps.filter_rules, src, 32) == Some(bits as nat),
                None => longest_prefix(self@.maps.filter_rules, src, 32) is None,
            },
    {
        let mut bits: u32 = 32;
        loop
            invariant
                bits <= 32,
                longest_prefix(self@.maps.filter_rules, src, 32) == longest_prefix(
                    self@.maps.filter_rules,
                    src,
                    bits as nat,
                ),
            decreases bits,
        {
            let key = create_prefix_key(src, bits);
            if self.maps.filter_rules.lookup(key.as_slice()).is_some() {
                return Some(bits);
            }
            if bits == 0 {
                return None;
            }
            bits -= 1;
        }
    }

    /// Counts a frame of `frame_len` bytes in the aggregate record.
    fn count_frame(&mut self, frame_len: u64)
        ensures
            final(self)@ == (ClassifierView {
                maps: MapsView {
                    stats_map: updated(
                        old(self)@.maps.stats_map,
                        stats_key(),
                        counted_aggregate(value_at(old(self)@.maps.stats_map, stats_key()), frame_len),
                    ),
                    ..old(self)@.maps
                },
                ..old(self)@
            }),
    {
        let key = MapManager::stats_key();
        let (packets, bytes) = match self.maps.stats_map.lookup(key.as_slice()) {
            Some(value) => {
                if value.len() >= AGGREGATE_LEN {
                    (read_le64(value.as_slice(), 0), read_le64(value.as_slice(), 8))
                } else {
                    (0, 0)
                }
            },
            None => (0, 0),
        };
        let mut record: Vec<u8> = Vec::new();
        push_le64(&mut record, add_saturating(packets, 1));
        push_le64(&mut record, add_saturating(bytes, frame_len));
        self.maps.stats_map.update(key.as_slice(), record.as_slice());
    }

    /// Takes a packet's worth out of the bucket of the rule under `key`, and
    /// tells whether there was one to take.
    fn take(&mut self, key: &[u8], rate: u32, now: u64) -> (r: bool)
        ensures
            (r, final(self)@.buckets) == take_token(old(self)@.buckets, key@, rate, now),
            final(self)@.maps == old(self)@.maps,
    {
        if rate == 0 {
            return true;
        }
        let used: u32 = match self.buckets.lookup(key) {
            Some(record) => {
                if record.len() >= 12 && read_le64(record.as_slice(), 0) == now {
                    let used_now = read_le32(record.as_slice(), 8);
                    if used_now >= rate {
                        return false;
                    }
                    used_now + 1
                } else {
                    1
                }
            },
            None => 1,
        };
        let mut record: Vec<u8> = Vec::new();
        push_le64(&mut record, now);
        push_le32(&mut record, used);
        self.buckets.update(key, record.as_slice());
        true
    }

    /// Counts a frame of `frame_len` bytes that the rule under `key`
    /// accepted at `now` in the counters of the rule.
    fn count_match(&mut self, key: &[u8], frame_len: u64, now: u64)
        requires
            value_at(old(self)@.maps.filter_rules, key@) is Some,
            value_at(old(self)@.maps.filter_rules, key@)->0.len() >= 24,
        ensures
            final(self)@ == (ClassifierView {
                maps: MapsView {
                    filter_rules: updated(
                        old(self)@.maps.filter_rules,
                        key@,
                        counted_value(
                            value_at(old(self)@.maps.filter_rules, key@)->0,
                            frame_len,
                            now,
                        ),
                    ),
                    ..old(self)@.maps
                },
                ..old(self)@
            }),
    {
        let mut value: Vec<u8> = Vec::new();
        match self.maps.filter_rules.lookup(key) {
            Some(current) => {
                let n = current.len();
                let packets = read_le64(current.as_slice(), n - 24);
                let bytes = read_le64(current.as_slice(), n - 16);
                let mut i: usize = 0;
                while i < n - 24
                    invariant
                        i <= n - 24,
                        n == current@.len(),
                        n >= 24,
                        value@ == current@.take(i as int),
                    decreases n - 24 - i,
                {
                    value.push(current[i]);
                    assert(value@ =~= current@.take(i + 1));
                    i += 1;
                }
                push_le64(&mut value, add_saturating(packets, 1));
                push_le64(&mut value, add_saturating(bytes, frame_len));
                push_le64(&mut value, now);
            },
            None => {},
        }
        self.maps.filter_rules.update(key, value.as_slice());
    }

    /// What the action of a rule does with a frame that the rule accepted.
    pub fn dispatch(&self, fields: &RuleFields) -> (r: Verdict)
        ensures
            r == verdict_for(*fields, self@.maps.redirect_map),
    {
        if fields.action == 2 {
            Verdict::Drop
        } else if fields.action == 3 {
            let mut key: Vec<u8> = Vec::new();
            push_le32(&mut key, fields.redirect_ifindex);
            if self.maps.redirect_map.lookup(key.as_slice()).is_some() {
                Verdict::Redirect { ifindex: fields.redirect_ifindex }
            } else {
                Verdict::Drop
            }
        } else if fields.action == 4 {
            Verdict::Count
        } else {
            Verdict::Pass
        }
    }

    /// The rule that `frame` is judged by at `now`, if there is one: its key
    /// and the fields of its value.
    pub fn find_match(&self, rules: &MapManager, frame: &[u8], now: u64) -> (r: Option<
        (Vec<u8>, RuleFields),
    >)
        ensures
            match r {
                Some((key, fields)) => {
                    &&& matched(self@, rules@, frame@, now) == Some((key@, fields))
                    &&& value_at(self@.maps.filter_rules, key@) matches Some(value)
                    &&& value.len() >= RULE_VALUE_LEN
                },
                None => matched(self@, rules@, frame@, now) is None,
            },
    {
        let packet = match parse_packet(frame) {
            Some(packet) => packet,
            None => {
                return None;
            },
        };
        let bits = match self.longest_match(packet.src) {
            Some(bits) => bits,
            None => {
                return None;
            },
        };
        proof {
            lemma_longest_prefix(self@.maps.filter_rules, packet.src, 32);
        }
        let key = create_prefix_key(packet.src, bits);
        let fields = match self.maps.filter_rules.lookup(key.as_slice()) {
            Some(value) => match decode_fields(value.as_slice()) {
                Some(fields) => fields,
                None => {
                    return None;
                },
            },
            None => {
                return None;
            },
        };
        if !packet_matches(&fields, &packet) {
            return None;
        }
        let owning = find_owner(rules, key.as_slice());
        if !owner_matches(owning, fields.expire, &packet, now) {
            return None;
        }
        Some((key, fields))
    }

    /// Judges `frame` at `now`, in seconds since the epoch, by the tables
    /// and by the rules of the control plane's table.
    pub fn process(&mut self, rules: &MapManager, frame: &[u8], now: u64) -> (r: Verdict)
        ensures
            (r, final(self)@) == classify(old(self)@, rules@, frame@, now),
    {
        let frame_len: u64 = frame.len() as u64;
        assert(frame_len == counted_len(frame@));
        let found = self.find_match(rules, frame, now);
        match found {
            None => {
                self.count_frame(frame_len);
                Verdict::Pass
            },
            Some((key, fields)) => {
                if !self.take(key.as_slice(), fields.rate_limit, now) {
                    self.count_frame(frame_len);
                    Verdict::Pass
                } else {
                    let verdict = self.dispatch(&fields);
                    self.count_match(key.as_slice(), frame_len, now);
                    self.count_frame(frame_len);
                    verdict
                }
            },
        }
    }
}

} // verus!
