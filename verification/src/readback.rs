//! What a listing shows of a rule reads back as what the rule holds.

use crate::api::RuleStats;
use crate::client::{lemma_flags_round_trip, strict_bits};
use crate::error::ParseError;
use crate::maps::{interface_name, FilterRule, ACTION_REDIRECT};
use crate::server::interface_index;
use crate::text::{decimal, lemma_number_of_decimal, split};
use crate::types::{ActionType, ProtocolType};
use crate::utils::{
    ip_prefix_of, lemma_action_text_names, lemma_address_round_trip, lemma_port_range_round_trip,
    lemma_protocol_text_names, port_range_of,
};
use vstd::prelude::*;

verus! {

/// Whether `text` shows the network `net`: it reads as that network, or
/// there is neither text nor network.
pub open spec fn shows_network(text: Option<Seq<char>>, net: Option<(u32, u32)>) -> bool {
    match net {
        Some(n) => text is Some && ip_prefix_of(text->0) == Ok::<(u32, u32), ParseError>(n),
        None => text is None,
    }
}

/// Whether `text` shows the port range from `min` to `max`: it reads as
/// that range, or there is no text and the range is that of all ports.
pub open spec fn shows_ports(text: Option<Seq<char>>, min: u16, max: u16) -> bool {
    if min == 0 && max == 65535 {
        text is None
    } else {
        text is Some && port_range_of(text->0) == Ok::<(u16, u16), ParseError>((min, max))
    }
}

/// Whether `text` shows the protocol with wire number `protocol`: it is
/// the word that names it.
pub open spec fn shows_protocol(text: Seq<char>, protocol: u8) -> bool {
    ProtocolType::named(text) is Some && ProtocolType::named(text)->0.code() == protocol
}

/// Whether `text` shows the flags `flags`: it lists just them, or there is
/// no text and no flag.
pub open spec fn shows_flags(text: Option<Seq<char>>, flags: u8) -> bool {
    if flags == 0 {
        text is None
    } else {
        text is Some && strict_bits(split(text->0, ',')) == Some(flags)
    }
}

/// The name of an interface names the interface.
pub proof fn lemma_interface_round_trip(ifindex: u32)
    ensures
        interface_index(interface_name(ifindex)) == Ok::<u32, ParseError>(ifindex),
{
    reveal_strlit("if");
    let name = interface_name(ifindex);
    assert("if"@.len() == 2 && "if"@[0] == 'i' && "if"@[1] == 'f');
    assert(name[0] == 'i' && name[1] == 'f');
    assert(name.skip(2) =~= decimal(ifindex as nat));
    lemma_number_of_decimal(ifindex as nat, u32::MAX as nat);
}

/// A listing shows the networks of a rule.
pub proof fn lemma_shows_networks(rule: FilterRule, stats: RuleStats)
    requires
        rule.well_formed(),
    ensures
        shows_network(rule.info(stats).src_ip, rule.src_ip),
        shows_network(rule.info(stats).dst_ip, rule.dst_ip),
{
    if let Some((ip, prefix)) = rule.src_ip {
        lemma_address_round_trip(ip, prefix);
    }
    if let Some((ip, prefix)) = rule.dst_ip {
        lemma_address_round_trip(ip, prefix);
    }
}

/// A listing shows the port ranges of a rule.
pub proof fn lemma_shows_ports(rule: FilterRule, stats: RuleStats)
    requires
        rule.well_formed(),
    ensures
        shows_ports(rule.info(stats).src_port, rule.src_port_min, rule.src_port_max),
        shows_ports(rule.info(stats).dst_port, rule.dst_port_min, rule.dst_port_max),
{
    if !(rule.src_port_min == 0 && rule.src_port_max == 65535) {
        lemma_port_range_round_trip(rule.src_port_min, rule.src_port_max);
    }
    if !(rule.dst_port_min == 0 && rule.dst_port_max == 65535) {
        lemma_port_range_round_trip(rule.dst_port_min, rule.dst_port_max);
    }
}

/// A listing shows the protocol and the action of a rule.
pub proof fn lemma_shows_protocol_and_action(rule: FilterRule, stats: RuleStats)
    requires
        rule.well_formed(),
    ensures
        shows_protocol(rule.info(stats).protocol, rule.protocol),
        ActionType::named(rule.info(stats).action) is Some,
        ActionType::named(rule.info(stats).action)->0.code() == rule.action,
{
    lemma_action_text_names(rule.action);
    lemma_protocol_text_names(rule.protocol);
}

/// A listing shows the flags of a rule that asks for none beyond the six
/// that have names.
pub proof fn lemma_shows_flags(rule: FilterRule, stats: RuleStats)
    requires
        rule.tcp_flags & 0xc0 == 0,
    ensures
        shows_flags(rule.info(stats).tcp_flags, rule.tcp_flags),
{
    if rule.tcp_flags != 0 {
        lemma_flags_round_trip(rule.tcp_flags, "None"@);
    }
}

/// A listing shows the interface of a rule that redirects, and none of any other.
pub proof fn lemma_shows_redirect(rule: FilterRule, stats: RuleStats)
    requires
        rule.well_formed(),
    ensures
        rule.action == ACTION_REDIRECT ==> rule.info(stats).redirect_if is Some && interface_index(
            rule.info(stats).redirect_if->0,
        ) == Ok::<u32, ParseError>(rule.redirect_ifindex),
        rule.action != ACTION_REDIRECT ==> rule.info(stats).redirect_if is None,
{
    lemma_interface_round_trip(rule.redirect_ifindex);
}

/// What a listing shows of a rule reads back as what the rule holds:
/// label, priority, rate limit, life and counters as they are; networks,
/// port ranges, protocol, action, flags and the interface of a redirect
/// through their texts. This holds of every rule that keeps the invariants
/// of rules and asks for no flag beyond the six that have names.
pub proof fn lemma_listing_reads_back(rule: FilterRule, stats: RuleStats)
    requires
        rule.well_formed(),
        rule.tcp_flags & 0xc0 == 0,
    ensures
        rule.info(stats).label == rule.label@,
        rule.info(stats).priority == rule.priority,
        rule.info(stats).rate_limit == rule.rate_limit,
        rule.info(stats).expire == rule.expire,
        rule.info(stats).stats == stats,
        shows_network(rule.info(stats).src_ip, rule.src_ip),
        shows_network(rule.info(stats).dst_ip, rule.dst_ip),
        shows_ports(rule.info(stats).src_port, rule.src_port_min, rule.src_port_max),
        shows_ports(rule.info(stats).dst_port, rule.dst_port_min, rule.dst_port_max),
        shows_protocol(rule.info(stats).protocol, rule.protocol),
        ActionType::named(rule.info(stats).action) is Some,
        ActionType::named(rule.info(stats).action)->0.code() == rule.action,
        shows_flags(rule.info(stats).tcp_flags, rule.tcp_flags),
        rule.action == ACTION_REDIRECT ==> rule.info(stats).redirect_if is Some && interface_index(
            rule.info(stats).redirect_if->0,
        ) == Ok::<u32, ParseError>(rule.redirect_ifindex),
        rule.action != ACTION_REDIRECT ==> rule.info(stats).redirect_if is None,
{
    lemma_shows_networks(rule, stats);
    lemma_shows_ports(rule, stats);
    lemma_shows_protocol_and_action(rule, stats);
    lemma_shows_flags(rule, stats);
    lemma_shows_redirect(rule, stats);
}

} // verus!
