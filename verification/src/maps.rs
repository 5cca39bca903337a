//! The rule table of the control plane, and what it writes to and reads from
//! the kernel maps.
//!
//! The table is the authority on which rules are live; the kernel maps hold
//! what the classifier needs of them. The manager never touches a kernel map
//! itself. It says which writes an operation takes, is told how many of them
//! went through, and then commits or gives up; for a listing it says which
//! keys to read and takes what was read.

use crate::api::{opt_text, RuleInfo, RuleInfoView, RuleStats};
use crate::error::GuardError;
use crate::layout::{
    le16, le32, le64_at, mask_of, name_field, netmask, prefix_key, push_le16, push_le32,
    push_name_field, push_zeros, read_le64, zeros,
};
use crate::text::{decimal, push_decimal, same_text};
use crate::types::flags_text;
use crate::utils::{
    action_num_to_name, action_text, ipv4_text, port_range_text, port_range_to_string,
    protocol_num_to_name, protocol_text, push_ipv4, tcp_flags_to_string,
};
use vstd::prelude::*;
use vstd::string::{StrSliceExecFns, StringExecFns, StringSliceAdditionalSpecFns};
use vstd::utf8::encode_utf8;

verus! {

/// The wire number of the action that forwards to another interface.
pub const ACTION_REDIRECT: u8 = 3;

/// The most characters that a label may have.
pub const MAX_LABEL_LEN: usize = 31;

/// The length of a rule's value in the longest-prefix table.
pub const RULE_VALUE_LEN: usize = 83;

/// The length of the counters at the end of a rule's value.
pub const RULE_COUNTERS_LEN: usize = 24;

/// The length of the aggregate counter record.
pub const AGGREGATE_LEN: usize = 16;

/// One rule of the filter.
#[derive(Debug, Clone, PartialEq, Eq)]
pub struct FilterRule {
    /// Source network: address and prefix length. None stands for any source.
    pub src_ip: Option<(u32, u32)>,
    /// Destination network: address and prefix length. None stands for any destination.
    pub dst_ip: Option<(u32, u32)>,
    pub src_port_min: u16,
    pub src_port_max: u16,
    pub dst_port_min: u16,
    pub dst_port_max: u16,
    /// Wire number of the protocol; 255 stands for any.
    pub protocol: u8,
    /// Flags that a TCP packet must all have; 0 asks for none.
    pub tcp_flags: u8,
    /// Wire number of the action.
    pub action: u8,
    /// Where a redirected packet goes.
    pub redirect_ifindex: u32,
    pub priority: u32,
    /// Packets per second at most; 0 for no limit.
    pub rate_limit: u32,
    /// Seconds of life from creation; 0 for ever.
    pub expire: u32,
    pub label: String,
    /// Seconds since the epoch at which the rule was made.
    pub creation_time: u64,
}

/// The text of a network: the address alone for a full prefix, else the
/// address, a `/` and the prefix length.
pub open spec fn cidr_text(ip: u32, prefix: u32) -> Seq<char> {
    if prefix == 32 {
        ipv4_text(ip)
    } else {
        ipv4_text(ip) + "/"@ + decimal(prefix as nat)
    }
}

/// The text of an optional network.
pub open spec fn opt_cidr_text(net: Option<(u32, u32)>) -> Option<Seq<char>> {
    match net {
        Some((ip, prefix)) => Some(cidr_text(ip, prefix)),
        None => None,
    }
}

/// The name under which interface number `ifindex` goes.
pub open spec fn interface_name(ifindex: u32) -> Seq<char> {
    "if"@ + decimal(ifindex as nat)
}

/// The entry of the redirect table for interface `ifindex`: its number,
/// then its name in a field of 16 bytes.
pub open spec fn redirect_value(ifindex: u32) -> Seq<u8> {
    le32(ifindex) + name_field(encode_utf8(interface_name(ifindex)), 16)
}

/// The counters at the end of a value that was read from the longest-prefix
/// table; zeros where the value is too short to hold them.
pub open spec fn counters_of(value: Seq<u8>) -> RuleStats {
    if value.len() >= 24 {
        RuleStats {
            packets: le64_at(value, value.len() - 24),
            bytes: le64_at(value, value.len() - 16),
            last_matched: le64_at(value, value.len() - 8),
        }
    } else {
        RuleStats::zero()
    }
}

/// The counters in what a read of the longest-prefix table gave; zeros where
/// it gave nothing.
pub open spec fn counters_of_read(read: Option<Vec<u8>>) -> RuleStats {
    match read {
        Some(value) => counters_of(value@),
        None => RuleStats::zero(),
    }
}

/// The packets and bytes of the aggregate counter record; zeros where the
/// record is missing or too short.
pub open spec fn aggregate_of(slot: Option<Seq<u8>>) -> (u64, u64) {
    match slot {
        Some(value) => if value.len() >= 16 {
            (le64_at(value, 0), le64_at(value, 8))
        } else {
            (0, 0)
        },
        None => (0, 0),
    }
}

impl FilterRule {
    /// The invariants of a rule: a label of at most 31 characters, all
    /// ASCII; prefixes of at most 32 bits; port ranges that are not empty;
    /// a protocol and an action that have a wire number; and an interface
    /// for a redirect.
    pub open spec fn well_formed(&self) -> bool {
        &&& self.label@.len() <= MAX_LABEL_LEN
        &&& vstd::utf8::is_ascii_chars(self.label@)
        &&& self.src_ip matches Some((_, prefix)) ==> prefix <= 32
        &&& self.dst_ip matches Some((_, prefix)) ==> prefix <= 32
        &&& self.src_port_min <= self.src_port_max
        &&& self.dst_port_min <= self.dst_port_max
        &&& self.protocol == 1 || self.protocol == 6 || self.protocol == 17 || self.protocol == 255
        &&& 1 <= self.action <= 4
        &&& self.action == ACTION_REDIRECT ==> self.redirect_ifindex != 0
    }

    /// The value of the rule in the longest-prefix table: its fields in
    /// little-endian order, its label in 32 bytes, and 24 bytes of counters,
    /// all zero, which only the classifier writes.
    pub open spec fn value(&self) -> Seq<u8> {
        le32(self.priority) + seq![self.action, self.protocol] + le16(self.src_port_min) + le16(
            self.src_port_max,
        ) + le16(self.dst_port_min) + le16(self.dst_port_max) + seq![self.tcp_flags] + le32(
            self.redirect_ifindex,
        ) + le32(self.rate_limit) + le32(self.expire) + name_field(encode_utf8(self.label@), 32)
            + zeros(24)
    }

    /// The key of the rule in the longest-prefix table, if it names a source.
    pub open spec fn key(&self) -> Option<Seq<u8>> {
        match self.src_ip {
            Some((ip, prefix)) => Some(prefix_key(ip, prefix)),
            None => None,
        }
    }

    /// What the control protocol shows of the rule, beside the counters `stats`.
    pub open spec fn info(&self, stats: RuleStats) -> RuleInfoView {
        RuleInfoView {
            label: self.label@,
            action: action_text(self.action),
            src_ip: opt_cidr_text(self.src_ip),
            dst_ip: opt_cidr_text(self.dst_ip),
            src_port: port_range_text(self.src_port_min, self.src_port_max),
            dst_port: port_range_text(self.dst_port_min, self.dst_port_max),
            protocol: protocol_text(self.protocol),
            tcp_flags: if self.tcp_flags == 0 {
                None
            } else {
                Some(flags_text(self.tcp_flags, "None"@))
            },
            priority: self.priority,
            redirect_if: if self.action == ACTION_REDIRECT && self.redirect_ifindex != 0 {
                Some(interface_name(self.redirect_ifindex))
            } else {
                None
            },
            rate_limit: self.rate_limit,
            expire: self.expire,
            stats,
        }
    }

    /// Whether the rule keeps the invariants of rules.
    pub fn is_well_formed(&self) -> (r: bool)
        ensures
            r == self.well_formed(),
    {
        let label_ok = self.label.as_str().unicode_len() <= MAX_LABEL_LEN
            && self.label.as_str().is_ascii();
        let src_ok = match self.src_ip {
            Some((_, prefix)) => prefix <= 32,
            None => true,
        };
        let dst_ok = match self.dst_ip {
            Some((_, prefix)) => prefix <= 32,
            None => true,
        };
        let protocol_ok = self.protocol == 1 || self.protocol == 6 || self.protocol == 17
            || self.protocol == 255;
        let action_ok = 1 <= self.action && self.action <= 4;
        label_ok && src_ok && dst_ok && self.src_port_min <= self.src_port_max
            && self.dst_port_min <= self.dst_port_max && protocol_ok && action_ok && (self.action
            != ACTION_REDIRECT || self.redirect_ifindex != 0)
    }

    /// A copy of the rule.
    pub fn duplicate(&self) -> (r: FilterRule)
        ensures
            r == *self,
    {
        FilterRule {
            src_ip: self.src_ip,
            dst_ip: self.dst_ip,
            src_port_min: self.src_port_min,
            src_port_max: self.src_port_max,
            dst_port_min: self.dst_port_min,
            dst_port_max: self.dst_port_max,
            protocol: self.protocol,
            tcp_flags: self.tcp_flags,
            action: self.action,
            redirect_ifindex: self.redirect_ifindex,
            priority: self.priority,
            rate_limit: self.rate_limit,
            expire: self.expire,
            label: self.label.clone(),
            creation_time: self.creation_time,
        }
    }

    /// What the control protocol shows of the rule, beside the counters `stats`.
    pub fn to_rule_info(&self, stats: RuleStats) -> (r: RuleInfo)
        ensures
            r@ == self.info(stats),
    {
        RuleInfo {
            label: self.label.clone(),
            action: action_num_to_name(self.action),
            src_ip: cidr_to_string(self.src_ip),
            dst_ip: cidr_to_string(self.dst_ip),
            src_port: port_range_to_string(self.src_port_min, self.src_port_max),
            dst_port: port_range_to_string(self.dst_port_min, self.dst_port_max),
            protocol: protocol_num_to_name(self.protocol),
            tcp_flags: if self.tcp_flags == 0 {
                None
            } else {
                Some(tcp_flags_to_string(self.tcp_flags))
            },
            priority: self.priority,
            redirect_if: if self.action == ACTION_REDIRECT && self.redirect_ifindex != 0 {
                Some(interface_name_of(self.redirect_ifindex))
            } else {
                None
            },
            rate_limit: self.rate_limit,
            expire: self.expire,
            stats,
        }
    }
}

/// The text of an optional network.
pub fn cidr_to_string(net: Option<(u32, u32)>) -> (r: Option<String>)
    ensures
        opt_text(r) == opt_cidr_text(net),
{
    match net {
        Some((ip, prefix)) => {
            let mut out = String::new();
            push_ipv4(&mut out, ip);
            if prefix != 32 {
                out.append("/");
                push_decimal(&mut out, prefix as u64);
            }
            assert(out@ == cidr_text(ip, prefix));
            Some(out)
        },
        None => None,
    }
}

/// The name under which interface number `ifindex` goes.
pub fn interface_name_of(ifindex: u32) -> (r: String)
    ensures
        r@ == interface_name(ifindex),
{
    let mut out = String::from_str("if");
    push_decimal(&mut out, ifindex as u64);
    out
}

/// One of the three kernel maps.
#[derive(Debug, Clone, Copy, PartialEq, Eq, Structural)]
pub enum MapTable {
    /// The longest-prefix table of rules, keyed by source network.
    FilterRules,
    /// The table of redirect targets, keyed by interface number.
    RedirectMap,
    /// The table that holds the aggregate counter record at key 0.
    StatsMap,
}

/// One write to a kernel map.
#[derive(Debug, Clone, PartialEq, Eq)]
pub enum MapOp {
    /// Put `value` under `key`, over what stood there.
    Update { table: MapTable, key: Vec<u8>, value: Vec<u8> },
    /// Remove what stands under `key`.
    Delete { table: MapTable, key: Vec<u8> },
}

/// What a `MapOp` says.
pub enum MapOpView {
    Update { table: MapTable, key: Seq<u8>, value: Seq<u8> },
    Delete { table: MapTable, key: Seq<u8> },
}

impl View for MapOp {
    type V = MapOpView;

    open spec fn view(&self) -> MapOpView {
        match self {
            MapOp::Update { table, key, value } => MapOpView::Update {
                table: *table,
                key: key@,
                value: value@,
            },
            MapOp::Delete { table, key } => MapOpView::Delete { table: *table, key: key@ },
        }
    }
}

/// What each of `ops` says.
pub open spec fn ops_view(ops: Seq<MapOp>) -> Seq<MapOpView> {
    Seq::new(ops.len(), |i: int| ops[i]@)
}

/// The writes that adding `rule` takes, in order: the rule under its source
/// network, if it names one, then the redirect target, if it redirects.
pub open spec fn add_ops(rule: FilterRule) -> Seq<MapOpView> {
    let first: Seq<MapOpView> = match rule.src_ip {
        Some((ip, prefix)) => seq![
            MapOpView::Update {
                table: MapTable::FilterRules,
                key: prefix_key(ip, prefix),
                value: rule.value(),
            },
        ],
        None => Seq::empty(),
    };
    let second: Seq<MapOpView> = if rule.action == ACTION_REDIRECT {
        seq![
            MapOpView::Update {
                table: MapTable::RedirectMap,
                key: le32(rule.redirect_ifindex),
                value: redirect_value(rule.redirect_ifindex),
            },
        ]
    } else {
        Seq::empty()
    };
    first + second
}

/// The writes that deleting `rule` takes: its entry in the longest-prefix
/// table, if it has one. The redirect target stays, since other rules may
/// point to it.
pub open spec fn delete_ops(rule: FilterRule) -> Seq<MapOpView> {
    match rule.src_ip {
        Some((ip, prefix)) => seq![
            MapOpView::Delete { table: MapTable::FilterRules, key: prefix_key(ip, prefix) },
        ],
        None => Seq::empty(),
    }
}

/// What takes back one write that went through: a delete for an entry put
/// into the longest-prefix table, nothing for anything else.
pub open spec fn undo_one(op: MapOpView) -> Seq<MapOpView> {
    match op {
        MapOpView::Update { table, key, value } => if table == MapTable::FilterRules {
            seq![MapOpView::Delete { table, key }]
        } else {
            Seq::empty()
        },
        MapOpView::Delete { table, key } => Seq::empty(),
    }
}

/// What takes back the first `written` of `ops`, last write first.
pub open spec fn undo_ops(ops: Seq<MapOpView>, written: nat) -> Seq<MapOpView>
    decreases written,
{
    if written == 0 || written > ops.len() {
        Seq::empty()
    } else {
        undo_one(ops[written - 1]) + undo_ops(ops, (written - 1) as nat)
    }
}

/// What is to be written after `written` of `ops` went through: nothing
/// where all did, else what takes back those that did.
pub open spec fn recovery_ops(ops: Seq<MapOpView>, written: nat) -> Seq<MapOpView> {
    if written >= ops.len() {
        Seq::empty()
    } else {
        undo_ops(ops, written)
    }
}

/// Whether no two of `rules` share a label.
pub open spec fn labels_distinct(rules: Seq<FilterRule>) -> bool {
    forall|i: int, j: int|
        0 <= i < rules.len() && 0 <= j < rules.len() && i != j ==> rules[i].label@ != rules[j].label@
}

/// What holds of the live rules at all times: no two share a label, and
/// each keeps the invariants of rules.
pub open spec fn table_valid(rules: Seq<FilterRule>) -> bool {
    &&& labels_distinct(rules)
    &&& forall|i: int| 0 <= i < rules.len() ==> (#[trigger] rules[i]).well_formed()
}

/// The least index of a rule with `label` in `rules`, or `rules.len()`
/// where no rule has it.
pub open spec fn label_index(rules: Seq<FilterRule>, label: Seq<char>) -> int
    decreases rules.len(),
{
    if rules.len() == 0 || rules[0].label@ == label {
        0
    } else {
        1 + label_index(rules.drop_first(), label)
    }
}

/// Whether a rule of `rules` has `label`.
pub open spec fn has_label(rules: Seq<FilterRule>, label: Seq<char>) -> bool {
    label_index(rules, label) < rules.len()
}

/// Why `rule` cannot join `rules`, if it cannot: its label is taken, or it
/// breaks an invariant of rules.
pub open spec fn add_check(rules: Seq<FilterRule>, rule: FilterRule) -> Option<GuardError> {
    if has_label(rules, rule.label@) {
        Some(GuardError::DuplicateLabel)
    } else if !rule.well_formed() {
        Some(GuardError::InvalidRule)
    } else {
        None
    }
}

/// What adding `rule` to `rules` gives when `written` of its writes went
/// through: the rule joins at the end if and only if all of them did.
pub open spec fn add_result(rules: Seq<FilterRule>, rule: FilterRule, written: nat) -> (
    Result<(), GuardError>,
    Seq<FilterRule>,
) {
    match add_check(rules, rule) {
        Some(e) => (Err(e), rules),
        None => if written >= add_ops(rule).len() {
            (Ok(()), rules.push(rule))
        } else {
            (Err(GuardError::MapWriteFailed), rules)
        },
    }
}

/// What deleting the rule with `label` from `rules` gives when `written` of
/// its writes went through.
pub open spec fn delete_result(rules: Seq<FilterRule>, label: Seq<char>, written: nat) -> (
    Result<(), GuardError>,
    Seq<FilterRule>,
) {
    let i = label_index(rules, label);
    if !has_label(rules, label) {
        (Err(GuardError::NotFound), rules)
    } else if written >= delete_ops(rules[i]).len() {
        (Ok(()), rules.remove(i))
    } else {
        (Err(GuardError::MapWriteFailed), rules)
    }
}

/// The counters to show for rule `i` of a listing: zeros unless counters
/// were asked for, the rule names a source, and a value was read for it.
pub open spec fn listed_stats(
    rules: Seq<FilterRule>,
    include_stats: bool,
    reads: Seq<Option<Vec<u8>>>,
    i: int,
) -> RuleStats {
    if include_stats && rules[i].src_ip is Some && i < reads.len() {
        counters_of_read(reads[i])
    } else {
        RuleStats::zero()
    }
}

/// What a listing of `rules` shows, rule by rule.
pub open spec fn listing(
    rules: Seq<FilterRule>,
    include_stats: bool,
    reads: Seq<Option<Vec<u8>>>,
) -> Seq<RuleInfoView> {
    Seq::new(rules.len(), |i: int| rules[i].info(listed_stats(rules, include_stats, reads, i)))
}

/// What each of `infos` says.
pub open spec fn infos_view(infos: Seq<RuleInfo>) -> Seq<RuleInfoView> {
    Seq::new(infos.len(), |i: int| infos[i]@)
}

/// `label_index` gives the first rule with the label, and the length where
/// there is none.
pub proof fn lemma_label_index(rules: Seq<FilterRule>, label: Seq<char>)
    ensures
        0 <= label_index(rules, label) <= rules.len(),
        forall|j: int| 0 <= j < label_index(rules, label) ==> rules[j].label@ != label,
        has_label(rules, label) ==> rules[label_index(rules, label)].label@ == label,
    decreases rules.len(),
{
    if rules.len() == 0 || rules[0].label@ == label {
    } else {
        let rest = rules.drop_first();
        lemma_label_index(rest, label);
        assert forall|j: int| 0 <= j < label_index(rules, label) implies rules[j].label@
            != label by {
            if j > 0 {
                assert(rules[j] == rest[j - 1]);
            }
        }
        if has_label(rules, label) {
            assert(rules[label_index(rules, label)] == rest[label_index(rest, label)]);
        }
    }
}

/// An index before which no rule has the label, and at which one has it
/// unless the index is the length, is the one that `label_index` gives.
pub proof fn lemma_label_index_is(rules: Seq<FilterRule>, label: Seq<char>, i: int)
    requires
        0 <= i <= rules.len(),
        forall|j: int| 0 <= j < i ==> rules[j].label@ != label,
        i < rules.len() ==> rules[i].label@ == label,
    ensures
        label_index(rules, label) == i,
{
    lemma_label_index(rules, label);
    let k = label_index(rules, label);
    if k < i {
        assert(rules[k].label@ == label);
    } else if i < k {
        assert(rules[i].label@ == label);
    }
}

/// A rule that was added is the last of the table, after the rules that
/// were there, and a listing without counters shows it last, field by field
/// as `FilterRule::info` renders it, with counters of zero.
pub proof fn lemma_added_rule_is_listed(
    rules: Seq<FilterRule>,
    rule: FilterRule,
    written: nat,
    reads: Seq<Option<Vec<u8>>>,
)
    requires
        add_result(rules, rule, written).0 is Ok,
    ensures
        add_result(rules, rule, written).1 == rules.push(rule),
        listing(rules.push(rule), false, reads).len() == rules.len() + 1,
        listing(rules.push(rule), false, reads).last() == rule.info(RuleStats::zero()),
        forall|i: int|
            0 <= i < rules.len() ==> #[trigger] listing(rules.push(rule), false, reads)[i]
                == listing(rules, false, reads)[i],
{
}

/// Adding keeps the table valid.
pub proof fn lemma_add_keeps_valid(rules: Seq<FilterRule>, rule: FilterRule, written: nat)
    requires
        table_valid(rules),
    ensures
        table_valid(add_result(rules, rule, written).1),
{
    if add_result(rules, rule, written).0 is Ok {
        let after = rules.push(rule);
        lemma_label_index(rules, rule.label@);
        assert forall|i: int, j: int|
            0 <= i < after.len() && 0 <= j < after.len() && i != j implies after[i].label@
            != after[j].label@ by {
            if i < rules.len() && j < rules.len() {
                assert(rules[i].label@ != rules[j].label@);
            }
        }
    }
}

/// Deleting keeps the table valid.
pub proof fn lemma_delete_keeps_valid(rules: Seq<FilterRule>, label: Seq<char>, written: nat)
    requires
        table_valid(rules),
    ensures
        table_valid(delete_result(rules, label, written).1),
{
    if delete_result(rules, label, written).0 is Ok {
        lemma_label_index(rules, label);
        let k = label_index(rules, label);
        let after = rules.remove(k);
        assert forall|i: int, j: int|
            0 <= i < after.len() && 0 <= j < after.len() && i != j implies after[i].label@
            != after[j].label@ by {
            let a = if i < k { i } else { i + 1 };
            let b = if j < k { j } else { j + 1 };
            assert(after[i] == rules[a]);
            assert(after[j] == rules[b]);
        }
        assert forall|i: int| 0 <= i < after.len() implies (#[trigger] after[i]).well_formed() by {
            let a = if i < k { i } else { i + 1 };
            assert(after[i] == rules[a]);
        }
    }
}

/// While a rule is live, a second rule with its label is refused with
/// `DuplicateLabel`, whatever else it holds and however its writes went.
pub proof fn lemma_second_add_is_duplicate(
    rules: Seq<FilterRule>,
    first: FilterRule,
    written: nat,
    second: FilterRule,
    written_again: nat,
)
    requires
        add_result(rules, first, written).0 is Ok,
        second.label@ == first.label@,
    ensures
        add_result(add_result(rules, first, written).1, second, written_again) == (
            Err::<(), GuardError>(GuardError::DuplicateLabel),
            rules.push(first),
        ),
{
    let after = rules.push(first);
    lemma_label_index(rules, first.label@);
    assert forall|j: int| 0 <= j < rules.len() implies after[j].label@ != first.label@ by {
        assert(after[j] == rules[j]);
    }
    lemma_label_index_is(after, first.label@, rules.len() as int);
}

/// A rule that was added and then deleted leaves the table as it was.
pub proof fn lemma_add_then_delete(
    rules: Seq<FilterRule>,
    rule: FilterRule,
    written: nat,
    deleted: nat,
)
    requires
        add_result(rules, rule, written).0 is Ok,
        delete_result(rules.push(rule), rule.label@, deleted).0 is Ok,
    ensures
        delete_result(rules.push(rule), rule.label@, deleted).1 == rules,
{
    let after = rules.push(rule);
    lemma_label_index(rules, rule.label@);
    assert forall|j: int| 0 <= j < rules.len() implies after[j].label@ != rule.label@ by {
        assert(after[j] == rules[j]);
    }
    lemma_label_index_is(after, rule.label@, rules.len() as int);
    assert(after.remove(rules.len() as int) =~= rules);
}

/// The key that adding a rule writes holds no address bit beyond the
/// prefix: a rule for any other address of the same network has the same key.
pub proof fn lemma_key_is_masked(rule: FilterRule, ip: u32, prefix: u32, other: u32)
    requires
        rule.well_formed(),
        rule.src_ip == Some((ip, prefix)),
        ip & netmask(prefix) == other & netmask(prefix),
    ensures
        rule.key() == Some(prefix_key(other, prefix)),
        rule.key() == Some(le32(prefix) + le32(ip & netmask(prefix))),
        add_ops(rule)[0] == (MapOpView::Update {
            table: MapTable::FilterRules,
            key: prefix_key(other, prefix),
            value: rule.value(),
        }),
{
}

/// A rule whose value was just written has counters of zero.
pub proof fn lemma_fresh_counters(rule: FilterRule)
    ensures
        rule.value().len() == RULE_VALUE_LEN,
        counters_of(rule.value()) == RuleStats::zero(),
{
    let v = rule.value();
    let label = name_field(encode_utf8(rule.label@), 32);
    assert(label.len() == 32);
    assert(v.len() == 83);
    assert forall|i: int| 59 <= i < 83 implies v[i] == 0 by {
        assert(v[i] == zeros(24)[i - 59]);
    }
    crate::layout::lemma_le64_of_zeros(v, 59);
    crate::layout::lemma_le64_of_zeros(v, 67);
    crate::layout::lemma_le64_of_zeros(v, 75);
}

/// An aggregate record that is missing, too short, or all zero reads as no
/// packets and no bytes.
pub proof fn lemma_zero_aggregate(slot: Option<Seq<u8>>)
    requires
        slot matches Some(value) ==> value.len() < 16 || forall|i: int|
            0 <= i < 16 ==> value[i] == 0,
    ensures
        aggregate_of(slot) == (0u64, 0u64),
{
    if let Some(value) = slot {
        if value.len() >= 16 {
            crate::layout::lemma_le64_of_zeros(value, 0);
            crate::layout::lemma_le64_of_zeros(value, 8);
        }
    }
}

/// The key of the longest-prefix table for the network of `addr` with
/// `prefix_len` bits.
pub fn create_prefix_key(addr: u32, prefix_len: u32) -> (r: Vec<u8>)
    requires
        prefix_len <= 32,
    ensures
        r@ == prefix_key(addr, prefix_len),
{
    let mut key: Vec<u8> = Vec::new();
    push_le32(&mut key, prefix_len);
    push_le32(&mut key, addr & mask_of(prefix_len));
    key
}

/// The value of `rule` in the longest-prefix table.
pub fn create_filter_rule(rule: &FilterRule) -> (r: Vec<u8>)
    ensures
        r@ == rule.value(),
        r@.len() == RULE_VALUE_LEN,
{
    let mut value: Vec<u8> = Vec::new();
    push_le32(&mut value, rule.priority);
    value.push(rule.action);
    value.push(rule.protocol);
    assert(value@ == le32(rule.priority) + seq![rule.action, rule.protocol]);
    push_le16(&mut value, rule.src_port_min);
    push_le16(&mut value, rule.src_port_max);
    push_le16(&mut value, rule.dst_port_min);
    push_le16(&mut value, rule.dst_port_max);
    let ghost before_flags = value@;
    value.push(rule.tcp_flags);
    assert(value@ == before_flags + seq![rule.tcp_flags]);
    push_le32(&mut value, rule.redirect_ifindex);
    push_le32(&mut value, rule.rate_limit);
    push_le32(&mut value, rule.expire);
    push_name_field(&mut value, rule.label.as_str().as_bytes(), 32);
    push_zeros(&mut value, RULE_COUNTERS_LEN);
    proof {
        lemma_fresh_counters(*rule);
    }
    value
}

/// A target of redirects: an interface by number and by name.
#[derive(Debug, Clone, PartialEq, Eq)]
pub struct RedirectIf {
    pub ifindex: u32,
    pub ifname: String,
}

impl RedirectIf {
    /// The entry of the redirect table for this target: the number, then
    /// the name in a field of 16 bytes.
    pub open spec fn value(&self) -> Seq<u8> {
        le32(self.ifindex) + name_field(encode_utf8(self.ifname@), 16)
    }

    /// The target with number `ifindex` under the name that interfaces go by.
    pub fn for_interface(ifindex: u32) -> (r: RedirectIf)
        ensures
            r.ifindex == ifindex,
            r.ifname@ == interface_name(ifindex),
            r.value() == redirect_value(ifindex),
    {
        RedirectIf { ifindex, ifname: interface_name_of(ifindex) }
    }

    /// The entry of the redirect table for this target.
    pub fn encode(&self) -> (r: Vec<u8>)
        ensures
            r@ == self.value(),
            r@.len() == 20,
    {
        let mut value: Vec<u8> = Vec::new();
        push_le32(&mut value, self.ifindex);
        push_name_field(&mut value, self.ifname.as_str().as_bytes(), 16);
        value
    }
}

/// The entry of the redirect table for interface `ifindex`.
pub fn create_if_redirect(ifindex: u32) -> (r: Vec<u8>)
    ensures
        r@ == redirect_value(ifindex),
{
    RedirectIf::for_interface(ifindex).encode()
}

/// The counters at the end of a value read from the longest-prefix table.
pub fn parse_counters(value: &[u8]) -> (r: RuleStats)
    ensures
        r == counters_of(value@),
{
    let n = value.len();
    if n >= RULE_COUNTERS_LEN {
        RuleStats {
            packets: read_le64(value, n - 24),
            bytes: read_le64(value, n - 16),
            last_matched: read_le64(value, n - 8),
        }
    } else {
        RuleStats::new()
    }
}

/// The writes that take back the first `written` of `ops`, last write first.
pub fn rollback(ops: &Vec<MapOp>, written: usize) -> (r: Vec<MapOp>)
    ensures
        ops_view(r@) == undo_ops(ops_view(ops@), written as nat),
{
    let mut out: Vec<MapOp> = Vec::new();
    if written > ops.len() {
        assert(ops_view(out@) =~= undo_ops(ops_view(ops@), written as nat));
        return out;
    }
    let mut k: usize = written;
    while k > 0
        invariant
            k <= written <= ops.len(),
            ops_view(out@) + undo_ops(ops_view(ops@), k as nat) == undo_ops(
                ops_view(ops@),
                written as nat,
            ),
        decreases k,
    {
        let ghost before = ops_view(out@);
        let ghost rest = undo_ops(ops_view(ops@), (k - 1) as nat);
        assert(ops_view(ops@)[k - 1] == ops@[k - 1]@);
        match &ops[k - 1] {
            MapOp::Update { table, key, value } => {
                if *table == MapTable::FilterRules {
                    out.push(MapOp::Delete { table: MapTable::FilterRules, key: key.clone() });
                    assert(ops_view(out@) =~= before + undo_one(ops@[k - 1]@));
                }
            },
            MapOp::Delete { .. } => {},
        }
        assert(ops_view(out@) == before + undo_one(ops@[k - 1]@));
        assert((before + undo_one(ops@[k - 1]@)) + rest == before + (undo_one(ops@[k - 1]@)
            + rest));
        k -= 1;
    }
    assert(ops_view(out@) + Seq::<MapOpView>::empty() == ops_view(out@));
    out
}

/// The writes to carry out after `written` of `ops` went through and the
/// next failed: those that take back what went through. None where all
/// went through.
pub fn recovery(ops: &Vec<MapOp>, written: usize) -> (r: Vec<MapOp>)
    ensures
        ops_view(r@) == recovery_ops(ops_view(ops@), written as nat),
{
    if written >= ops.len() {
        let none: Vec<MapOp> = Vec::new();
        assert(ops_view(none@) =~= Seq::<MapOpView>::empty());
        none
    } else {
        rollback(ops, written)
    }
}

/// The rule table of the control plane.
pub struct MapManager {
    rules: Vec<FilterRule>,
}

impl View for MapManager {
    type V = Seq<FilterRule>;

    /// The live rules, in the order of their insertion.
    closed spec fn view(&self) -> Seq<FilterRule> {
        self.rules@
    }
}

impl MapManager {
    #[verifier::type_invariant]
    spec fn valid(self) -> bool {
        table_valid(self.rules@)
    }

    /// A table without rules.
    pub fn new() -> (r: MapManager)
        ensures
            r@.len() == 0,
    {
        MapManager { rules: Vec::new() }
    }

    /// The number of live rules.
    pub fn len(&self) -> (r: usize)
        ensures
            r == self@.len(),
            table_valid(self@),
    {
        proof {
            use_type_invariant(self);
        }
        self.rules.len()
    }

    /// The rule at `index`, in the order of insertion.
    pub fn rule(&self, index: usize) -> (r: Option<&FilterRule>)
        ensures
            match r {
                Some(rule) => index < self@.len() && *rule == self@[index as int]
                    && rule.well_formed(),
                None => index >= self@.len(),
            },
    {
        proof {
            use_type_invariant(self);
        }
        if index < self.rules.len() {
            Some(&self.rules[index])
        } else {
            None
        }
    }

    /// The index of the rule with `label`, or the number of rules where no
    /// rule has it.
    pub fn find_label(&self, label: &str) -> (r: usize)
        ensures
            r == label_index(self@, label@),
            r <= self@.len(),
    {
        let mut i: usize = 0;
        while i < self.rules.len()
            invariant
                i <= self.rules.len(),
                forall|j: int| 0 <= j < i ==> self.rules@[j].label@ != label@,
            decreases self.rules.len() - i,
        {
            if same_text(self.rules[i].label.as_str(), label) {
                proof {
                    lemma_label_index_is(self@, label@, i as int);
                }
                return i;
            }
            i += 1;
        }
        proof {
            lemma_label_index_is(self@, label@, i as int);
        }
        i
    }

    /// The writes that adding `rule` takes, or why it cannot be added.
    /// Nothing changes; `add_rule` commits.
    pub fn plan_add(&self, rule: &FilterRule) -> (r: Result<Vec<MapOp>, GuardError>)
        ensures
            match r {
                Ok(ops) => add_check(self@, *rule) is None && ops_view(ops@) == add_ops(*rule),
                Err(e) => add_check(self@, *rule) == Some(e),
            },
    {
        if self.find_label(rule.label.as_str()) < self.rules.len() {
            return Err(GuardError::DuplicateLabel);
        }
        if !rule.is_well_formed() {
            return Err(GuardError::InvalidRule);
        }
        let mut ops: Vec<MapOp> = Vec::new();
        if let Some((ip, prefix)) = rule.src_ip {
            ops.push(
                MapOp::Update {
                    table: MapTable::FilterRules,
                    key: create_prefix_key(ip, prefix),
                    value: create_filter_rule(rule),
                },
            );
        }
        if rule.action == ACTION_REDIRECT {
            let mut key: Vec<u8> = Vec::new();
            push_le32(&mut key, rule.redirect_ifindex);
            ops.push(
                MapOp::Update {
                    table: MapTable::RedirectMap,
                    key,
                    value: create_if_redirect(rule.redirect_ifindex),
                },
            );
        }
        assert(ops_view(ops@) =~= add_ops(*rule));
        Ok(ops)
    }

    /// Adds `rule` at the end of the table, after the caller has tried the
    /// writes of `plan_add` in order, stopped at the first that failed, and
    /// counted in `written` those that went through.
    ///
    /// Fails with `DuplicateLabel` where a live rule has the label, with
    /// `InvalidRule` where the rule breaks an invariant, and with
    /// `MapWriteFailed` where a write failed; the table then stays as it was.
    pub fn add_rule(&mut self, rule: FilterRule, written: usize) -> (r: Result<(), GuardError>)
        ensures
            (r, final(self)@) == add_result(old(self)@, rule, written as nat),
            table_valid(final(self)@),
    {
        proof {
            use_type_invariant(&*self);
            lemma_add_keeps_valid(self@, rule, written as nat);
        }
        if self.find_label(rule.label.as_str()) < self.rules.len() {
            return Err(GuardError::DuplicateLabel);
        }
        if !rule.is_well_formed() {
            return Err(GuardError::InvalidRule);
        }
        let needed: usize = if rule.src_ip.is_some() {
            1
        } else {
            0
        } + if rule.action == ACTION_REDIRECT {
            1
        } else {
            0
        };
        assert(needed == add_ops(rule).len());
        if written < needed {
            return Err(GuardError::MapWriteFailed);
        }
        let mut taken = MapManager::new();
        core::mem::swap(self, &mut taken);
        let mut rules = taken.rules;
        rules.push(rule);
        *self = MapManager { rules };
        Ok(())
    }

    /// The writes that deleting the rule with `label` takes, or `NotFound`.
    /// Nothing changes; `delete_rule` commits.
    pub fn plan_delete(&self, label: &str) -> (r: Result<Vec<MapOp>, GuardError>)
        ensures
            match r {
                Ok(ops) => has_label(self@, label@) && ops_view(ops@) == delete_ops(
                    self@[label_index(self@, label@)],
                ),
                Err(e) => !has_label(self@, label@) && e == GuardError::NotFound,
            },
    {
        let i = self.find_label(label);
        if i >= self.rules.len() {
            return Err(GuardError::NotFound);
        }
        let mut ops: Vec<MapOp> = Vec::new();
        if let Some((ip, prefix)) = self.rules[i].src_ip {
            proof {
                use_type_invariant(self);
                assert(self.rules@[i as int].well_formed());
            }
            ops.push(
                MapOp::Delete { table: MapTable::FilterRules, key: create_prefix_key(ip, prefix) },
            );
        }
        assert(ops_view(ops@) =~= delete_ops(self@[i as int]));
        Ok(ops)
    }

    /// Removes the rule with `label`, after the caller has tried the writes
    /// of `plan_delete` and counted in `written` those that went through.
    ///
    /// Fails with `NotFound` where no live rule has the label and with
    /// `MapWriteFailed` where the write failed; the table then stays as it was.
    pub fn delete_rule(&mut self, label: &str, written: usize) -> (r: Result<(), GuardError>)
        ensures
            (r, final(self)@) == delete_result(old(self)@, label@, written as nat),
            table_valid(final(self)@),
    {
        proof {
            use_type_invariant(&*self);
            lemma_delete_keeps_valid(self@, label@, written as nat);
        }
        let i = self.find_label(label);
        if i >= self.rules.len() {
            return Err(GuardError::NotFound);
        }
        let needed: usize = if self.rules[i].src_ip.is_some() {
            1
        } else {
            0
        };
        if written < needed {
            return Err(GuardError::MapWriteFailed);
        }
        let mut taken = MapManager::new();
        core::mem::swap(self, &mut taken);
        let mut rules = taken.rules;
        let _ = rules.remove(i);
        *self = MapManager { rules };
        Ok(())
    }

    /// The key to read for each rule of a listing with counters, in the
    /// order of the rules: none for a rule without a source.
    pub fn stat_keys(&self) -> (r: Vec<Option<Vec<u8>>>)
        ensures
            r@.len() == self@.len(),
            forall|i: int|
                0 <= i < r@.len() ==> match #[trigger] r@[i] {
                    Some(key) => self@[i].key() == Some(key@),
                    None => self@[i].key() is None,
                },
    {
        let mut keys: Vec<Option<Vec<u8>>> = Vec::new();
        let mut i: usize = 0;
        proof {
            use_type_invariant(self);
        }
        while i < self.rules.len()
            invariant
                i <= self.rules.len(),
                keys@.len() == i,
                table_valid(self.rules@),
                forall|k: int|
                    0 <= k < i ==> match #[trigger] keys@[k] {
                        Some(key) => self.rules@[k].key() == Some(key@),
                        None => self.rules@[k].key() is None,
                    },
            decreases self.rules.len() - i,
        {
            assert(self.rules@[i as int].well_formed());
            let key = match self.rules[i].src_ip {
                Some((ip, prefix)) => Some(create_prefix_key(ip, prefix)),
                None => None,
            };
            keys.push(key);
            i += 1;
        }
        keys
    }

    /// The rules in the order of their insertion. With `include_stats`,
    /// rule `i` is shown with the counters at the end of `reads[i]`, which
    /// is what the longest-prefix table holds under key `i` of `stat_keys`;
    /// a value that is missing or short gives counters of zero.
    pub fn list_rules(&self, include_stats: bool, reads: &Vec<Option<Vec<u8>>>) -> (r: Vec<
        RuleInfo,
    >)
        ensures
            infos_view(r@) == listing(self@, include_stats, reads@),
            r@.len() == self@.len(),
    {
        let mut result: Vec<RuleInfo> = Vec::new();
        let mut i: usize = 0;
        while i < self.rules.len()
            invariant
                i <= self.rules.len(),
                result@.len() == i,
                forall|k: int|
                    0 <= k < i ==> (#[trigger] result@[k])@ == self.rules@[k].info(
                        listed_stats(self.rules@, include_stats, reads@, k),
                    ),
            decreases self.rules.len() - i,
        {
            let rule = &self.rules[i];
            let stats = if include_stats && rule.src_ip.is_some() && i < reads.len() {
                match &reads[i] {
                    Some(value) => parse_counters(value.as_slice()),
                    None => RuleStats::new(),
                }
            } else {
                RuleStats::new()
            };
            result.push(rule.to_rule_info(stats));
            i += 1;
        }
        assert(infos_view(result@) =~= listing(self@, include_stats, reads@));
        result
    }

    /// The packets and bytes of the aggregate counter record `slot`, which
    /// is what the stats table holds under `stats_key`; zeros where the
    /// record is missing or too short.
    pub fn get_stats(&self, slot: Option<&Vec<u8>>) -> (r: (u64, u64))
        ensures
            r == aggregate_of(
                match slot {
                    Some(value) => Some(value@),
                    None => None,
                },
            ),
    {
        match slot {
            Some(value) => {
                if value.len() >= AGGREGATE_LEN {
                    (read_le64(value.as_slice(), 0), read_le64(value.as_slice(), 8))
                } else {
                    (0, 0)
                }
            },
            None => (0, 0),
        }
    }

    /// The key of the aggregate counter record in the stats table.
    pub fn stats_key() -> (r: Vec<u8>)
        ensures
            r@ == le32(0),
    {
        let mut key: Vec<u8> = Vec::new();
        push_le32(&mut key, 0);
        key
    }
}

} // verus!
