//! The client side of the control protocol: what the command-line tool
//! makes of its arguments, and how it shows what comes back.

use crate::api::{opt_text, ApiRequest, ApiResponse, RuleInfo};
use crate::error::{GuardError, ParseError};
use crate::text::{chars_of, lacks, split, split_at_each, string_of, trim, trimmed};
use crate::types::{flag_names, flags_text, word_if, ActionType, ProtocolType, TcpFlags, XdpMode};
use crate::utils::{parse_port_range, port_range_of};
use vstd::prelude::*;
use vstd::string::{StrSliceExecFns, StringExecFns};

verus! {

/// A client of the control server at one address.
#[derive(Debug, Clone, PartialEq, Eq)]
pub struct ApiClient {
    server_addr: String,
}

impl ApiClient {
    /// The address of the server.
    pub closed spec fn address(&self) -> Seq<char> {
        self.server_addr@
    }

    /// A client of the server at `server_addr`.
    pub fn new(server_addr: &str) -> (r: Result<ApiClient, GuardError>)
        ensures
            r matches Ok(client) && client.address() == server_addr@,
    {
        Ok(ApiClient { server_addr: String::from_str(server_addr) })
    }

    /// The address of the server.
    pub fn server_addr(&self) -> (r: &str)
        ensures
            r@ == self.address(),
    {
        self.server_addr.as_str()
    }
}

/// `n` spaces.
pub open spec fn spaces(n: nat) -> Seq<char> {
    Seq::new(n, |i: int| ' ')
}

/// `s`, and spaces after it up to `width` characters where it has fewer.
pub open spec fn padded(s: Seq<char>, width: nat) -> Seq<char> {
    if s.len() >= width {
        s
    } else {
        s + spaces((width - s.len()) as nat)
    }
}

/// An end of a rule as a listing shows it: address and port around a colon,
/// with `*` for an address that is not given, and `*` alone where neither is.
pub open spec fn endpoint_text(ip: Option<Seq<char>>, port: Option<Seq<char>>) -> Seq<char> {
    match (ip, port) {
        (Some(ip), Some(port)) => ip + ":"@ + port,
        (Some(ip), None) => ip,
        (None, Some(port)) => "*:"@ + port,
        (None, None) => "*"@,
    }
}

/// The line of a listing for a rule: label, action, source, destination and
/// protocol in columns of 20, 15, 20, 10 and 10 characters, a space between
/// each two.
pub open spec fn row_text(
    label: Seq<char>,
    action: Seq<char>,
    src: Seq<char>,
    dst: Seq<char>,
    protocol: Seq<char>,
) -> Seq<char> {
    padded(label, 20) + " "@ + padded(action, 15) + " "@ + padded(src, 20) + " "@ + padded(dst, 10)
        + " "@ + padded(protocol, 10)
}

/// Appends `s` to `out`, and spaces after it up to `width` characters where
/// it has fewer.
pub fn push_padded(out: &mut String, s: &str, width: usize)
    ensures
        final(out)@ == old(out)@ + padded(s@, width as nat),
{
    out.append(s);
    let n = s.unicode_len();
    let mut i: usize = n;
    assert(old(out)@ + s@ + spaces(0) =~= old(out)@ + s@);
    while i < width
        invariant
            n == s@.len(),
            n <= i,
            n >= width ==> i == n,
            n < width ==> i <= width,
            out@ == old(out)@ + s@ + spaces((i - n) as nat),
        decreases width - i,
    {
        out.push(' ');
        assert(out@ =~= old(out)@ + s@ + spaces((i + 1 - n) as nat));
        i += 1;
    }
    assert(old(out)@ + s@ + spaces((i - n) as nat) =~= old(out)@ + (s@ + spaces((i - n) as nat)));
    assert(s@ + spaces(0) =~= s@);
}

/// An end of a rule as a listing shows it.
pub fn endpoint(ip: &Option<String>, port: &Option<String>) -> (r: String)
    ensures
        r@ == endpoint_text(opt_text(*ip), opt_text(*port)),
{
    match (ip, port) {
        (Some(ip), Some(port)) => {
            let mut out = ip.clone();
            out.append(":");
            out.append(port.as_str());
            out
        },
        (Some(ip), None) => ip.clone(),
        (None, Some(port)) => {
            let mut out = String::from_str("*:");
            out.append(port.as_str());
            out
        },
        (None, None) => String::from_str("*"),
    }
}

impl RuleInfo {
    /// The line of a listing for this rule.
    pub fn to_display_string(&self) -> (r: String)
        ensures
            r@ == row_text(
                self@.label,
                self@.action,
                endpoint_text(self@.src_ip, self@.src_port),
                endpoint_text(self@.dst_ip, self@.dst_port),
                self@.protocol,
            ),
    {
        let src = endpoint(&self.src_ip, &self.src_port);
        let dst = endpoint(&self.dst_ip, &self.dst_port);
        let mut out = String::new();
        push_padded(&mut out, self.label.as_str(), 20);
        out.append(" ");
        push_padded(&mut out, self.action.as_str(), 15);
        out.append(" ");
        push_padded(&mut out, src.as_str(), 20);
        out.append(" ");
        push_padded(&mut out, dst.as_str(), 10);
        out.append(" ");
        push_padded(&mut out, self.protocol.as_str(), 10);
        assert(out@ =~= row_text(self@.label, self@.action, src@, dst@, self@.protocol));
        out
    }
}

/// The flags that the fields name, each field trimmed first; none where a
/// field names no flag. The names are in capitals.
pub open spec fn strict_bits(fields: Seq<Seq<char>>) -> Option<u8>
    decreases fields.len(),
{
    if fields.len() == 0 {
        Some(0)
    } else {
        match strict_bits(fields.drop_last()) {
            None => None,
            Some(bits) => if TcpFlags::flag_bit(trim(fields.last())) == 0 {
                None
            } else {
                Some(bits | TcpFlags::flag_bit(trim(fields.last())))
            },
        }
    }
}

/// The flags that `text` lists between commas, in capitals, with white
/// space around them at will. Every field must name a flag.
pub fn parse_flags_strict(text: &str) -> (r: Result<u8, ParseError>)
    ensures
        r == match strict_bits(split(text@, ',')) {
            Some(bits) => Ok::<u8, ParseError>(bits),
            None => Err(ParseError::TcpFlag),
        },
{
    let chars = chars_of(text);
    let fields = split_at_each(&chars, ',');
    let ghost all = split(text@, ',');
    let mut bits: u8 = 0;
    let mut i: usize = 0;
    while i < fields.len()
        invariant
            i <= fields.len(),
            all == split(text@, ','),
            fields@.len() == all.len(),
            forall|k: int| 0 <= k < fields@.len() ==> (#[trigger] fields@[k])@ == all[k],
            strict_bits(all.take(i as int)) == Some(bits),
        decreases fields.len() - i,
    {
        assert(all.take(i + 1).drop_last() == all.take(i as int));
        assert(all.take(i + 1).last() == fields@[i as int]@);
        let word = string_of(&trimmed(&fields[i]));
        let bit = TcpFlags::flag_named(word.as_str());
        if bit == 0 {
            proof {
                assert(word@ == trim(all.take(i + 1).last()));
                assert(strict_bits(all.take(i + 1)) is None);
                lemma_strict_bits_stays_none(all, i + 1);
            }
            return Err(ParseError::TcpFlag);
        }
        bits = bits | bit;
        i += 1;
    }
    assert(all.take(all.len() as int) == all);
    Ok(bits)
}

/// Once a field names no flag, no longer list of fields names flags only.
pub proof fn lemma_strict_bits_stays_none(fields: Seq<Seq<char>>, k: int)
    requires
        0 <= k <= fields.len(),
        strict_bits(fields.take(k)) is None,
    ensures
        strict_bits(fields) is None,
    decreases fields.len() - k,
{
    if k == fields.len() {
        assert(fields.take(k) == fields);
    } else {
        assert(fields.take(k + 1).drop_last() == fields.take(k));
        lemma_strict_bits_stays_none(fields, k + 1);
    }
}

/// The wire number of the attach mode that `mode` names, letter for letter.
pub fn mode_value(mode: &str) -> (r: Result<u32, ParseError>)
    ensures
        r == match XdpMode::named(mode@) {
            Some(m) => Ok::<u32, ParseError>(m.code()),
            None => Err(ParseError::Mode),
        },
{
    match XdpMode::from_word(mode) {
        Some(m) => Ok(m.to_u32()),
        None => Err(ParseError::Mode),
    }
}

/// The wire number of the action that `action` names, letter for letter.
pub fn action_value(action: &str) -> (r: Result<u8, ParseError>)
    ensures
        r == match ActionType::named(action@) {
            Some(a) => Ok::<u8, ParseError>(a.code()),
            None => Err(ParseError::Action),
        },
{
    match ActionType::from_word(action) {
        Some(a) => Ok(a.to_u8()),
        None => Err(ParseError::Action),
    }
}

/// The wire number of the protocol that an optional word names, letter for
/// letter; that of any protocol where there is none.
pub open spec fn protocol_of(protocol: Option<String>) -> Result<u8, ParseError> {
    match protocol {
        None => Ok(255),
        Some(name) => match ProtocolType::named(name@) {
            Some(p) => Ok(p.code()),
            None => Err(ParseError::Protocol),
        },
    }
}

/// The port range that an optional text names; every port where there is none.
pub open spec fn ports_of(ports: Option<String>) -> Result<(u16, u16), ParseError> {
    match ports {
        None => Ok((0, 65535)),
        Some(text) => port_range_of(text@),
    }
}

/// The flags that an optional text lists; none where there is no text.
pub open spec fn flags_of(flags: Option<String>) -> Result<u8, ParseError> {
    match flags {
        None => Ok(0),
        Some(text) => match strict_bits(split(text@, ',')) {
            Some(bits) => Ok(bits),
            None => Err(ParseError::TcpFlag),
        },
    }
}

/// The wire number of the protocol that an optional word names.
pub fn protocol_value(protocol: &Option<String>) -> (r: Result<u8, ParseError>)
    ensures
        r == protocol_of(*protocol),
{
    match protocol {
        None => Ok(255),
        Some(name) => match ProtocolType::from_word(name.as_str()) {
            Some(p) => Ok(p.to_u8()),
            None => Err(ParseError::Protocol),
        },
    }
}

/// The port range that an optional text names.
pub fn ports_value(ports: &Option<String>) -> (r: Result<(u16, u16), ParseError>)
    ensures
        r == ports_of(*ports),
{
    match ports {
        None => Ok((0, 65535)),
        Some(text) => parse_port_range(text.as_str()),
    }
}

/// The flags that an optional text lists.
pub fn flags_value(flags: &Option<String>) -> (r: Result<u8, ParseError>)
    ensures
        r == flags_of(*flags),
{
    match flags {
        None => Ok(0),
        Some(text) => parse_flags_strict(text.as_str()),
    }
}

/// What an operator says of a rule to add.
#[derive(Debug, Clone, PartialEq, Eq)]
pub struct AddRuleArgs {
    pub src_ip: Option<String>,
    pub dst_ip: Option<String>,
    pub src_port: Option<String>,
    pub dst_port: Option<String>,
    pub protocol: Option<String>,
    pub tcp_flags: Option<String>,
    pub action: String,
    pub redirect_if: Option<String>,
    pub priority: u32,
    pub rate_limit: u32,
    pub expire: u32,
    pub label: String,
}

/// The request to attach that the tool sends for `interface` and `mode`.
pub fn attach_request(interface: &str, mode: &str, force: bool) -> (r: Result<
    ApiRequest,
    GuardError,
>)
    ensures
        match XdpMode::named(mode@) {
            Some(m) => r matches Ok(ApiRequest::Attach { interface: i, mode: n, force: f }) && i@
                == interface@ && n == m.code() && f == force,
            None => r == Err::<ApiRequest, GuardError>(GuardError::Parse(ParseError::Mode)),
        },
{
    match mode_value(mode) {
        Ok(n) => Ok(ApiRequest::Attach { interface: String::from_str(interface), mode: n, force }),
        Err(e) => Err(GuardError::Parse(e)),
    }
}

/// The request that the tool sends for the rule that `args` describe, or
/// what is wrong with them. The action is read first, letter for letter,
/// then the protocol, the source ports, the destination ports and the
/// flags; a redirect without interface is refused last.
pub open spec fn rule_args_request(args: AddRuleArgs) -> Result<ApiRequest, GuardError> {
    match ActionType::named(args.action@) {
        None => Err(GuardError::Parse(ParseError::Action)),
        Some(action) => match protocol_of(args.protocol) {
            Err(e) => Err(GuardError::Parse(e)),
            Ok(protocol) => match ports_of(args.src_port) {
                Err(e) => Err(GuardError::Parse(e)),
                Ok(src) => match ports_of(args.dst_port) {
                    Err(e) => Err(GuardError::Parse(e)),
                    Ok(dst) => match flags_of(args.tcp_flags) {
                        Err(e) => Err(GuardError::Parse(e)),
                        Ok(tcp_flags) => if action == ActionType::Redirect && args.redirect_if
                            is None {
                            Err(GuardError::InvalidRule)
                        } else {
                            Ok(
                                ApiRequest::AddRule {
                                    src_ip: args.src_ip,
                                    dst_ip: args.dst_ip,
                                    src_port_min: src.0,
                                    src_port_max: src.1,
                                    dst_port_min: dst.0,
                                    dst_port_max: dst.1,
                                    protocol,
                                    tcp_flags,
                                    action: action.code(),
                                    redirect_if: args.redirect_if,
                                    priority: args.priority,
                                    rate_limit: args.rate_limit,
                                    expire: args.expire,
                                    label: args.label,
                                },
                            )
                        },
                    },
                },
            },
        },
    }
}

/// The request that the tool sends for the rule that `args` describe, or
/// what is wrong with them.
pub fn add_rule_request(args: AddRuleArgs) -> (r: Result<ApiRequest, GuardError>)
    ensures
        r == rule_args_request(args),
{
    let action = match action_value(args.action.as_str()) {
        Ok(n) => n,
        Err(e) => {
            return Err(GuardError::Parse(e));
        },
    };
    let protocol = match protocol_value(&args.protocol) {
        Ok(n) => n,
        Err(e) => {
            return Err(GuardError::Parse(e));
        },
    };
    let (src_port_min, src_port_max) = match ports_value(&args.src_port) {
        Ok(range) => range,
        Err(e) => {
            return Err(GuardError::Parse(e));
        },
    };
    let (dst_port_min, dst_port_max) = match ports_value(&args.dst_port) {
        Ok(range) => range,
        Err(e) => {
            return Err(GuardError::Parse(e));
        },
    };
    let tcp_flags = match flags_value(&args.tcp_flags) {
        Ok(bits) => bits,
        Err(e) => {
            return Err(GuardError::Parse(e));
        },
    };
    if action == 3 && args.redirect_if.is_none() {
        return Err(GuardError::InvalidRule);
    }
    Ok(
        ApiRequest::AddRule {
            src_ip: args.src_ip,
            dst_ip: args.dst_ip,
            src_port_min,
            src_port_max,
            dst_port_min,
            dst_port_max,
            protocol,
            tcp_flags,
            action,
            redirect_if: args.redirect_if,
            priority: args.priority,
            rate_limit: args.rate_limit,
            expire: args.expire,
            label: args.label,
        },
    )
}

/// What the tool reports for a response to a request that changes
/// something: the message, as a success or as a failure. A response of
/// another kind is a failure.
pub fn outcome_of(response: ApiResponse) -> (r: Result<String, String>)
    ensures
        match response {
            ApiResponse::Success { message } => r matches Ok(text) && text@ == message@,
            ApiResponse::Error { message } => r matches Err(text) && text@ == "Error: "@ + message@,
            _ => r matches Err(text) && text@ == "Unexpected response type"@,
        },
{
    match response {
        ApiResponse::Success { message } => Ok(message),
        ApiResponse::Error { message } => {
            let mut text = String::from_str("Error: ");
            text.append(message.as_str());
            Err(text)
        },
        _ => Err(String::from_str("Unexpected response type")),
    }
}

/// One more field that names a flag adds the flag.
proof fn lemma_strict_bits_push(fields: Seq<Seq<char>>, word: Seq<char>, bits: u8)
    requires
        strict_bits(fields) == Some(bits),
        TcpFlags::flag_bit(trim(word)) != 0,
    ensures
        strict_bits(fields.push(word)) == Some(bits | TcpFlags::flag_bit(trim(word))),
{
    assert(fields.push(word).drop_last() == fields);
    assert(fields.push(word).last() == word);
}

/// One step of listing the flags of `bits`: the names so far, then the
/// name `word` of the flag `bit` if it is set.
proof fn lemma_flag_step(so_far: Seq<Seq<char>>, have: u8, set: bool, word: Seq<char>, bit: u8)
    requires
        strict_bits(so_far) == Some(have),
        forall|k: int| 0 <= k < so_far.len() ==> lacks(#[trigger] so_far[k], ','),
        lacks(word, ','),
        TcpFlags::flag_bit(trim(word)) == bit,
        bit != 0,
    ensures
        strict_bits(so_far + word_if(set, word)) == Some(
            if set {
                have | bit
            } else {
                have
            },
        ),
        forall|k: int|
            0 <= k < (so_far + word_if(set, word)).len() ==> lacks(
                #[trigger] (so_far + word_if(set, word))[k],
                ',',
            ),
{
    let next = so_far + word_if(set, word);
    if set {
        assert(next =~= so_far.push(word));
        lemma_strict_bits_push(so_far, word, have);
        assert forall|k: int| 0 <= k < next.len() implies lacks(#[trigger] next[k], ',') by {
            if k < so_far.len() {
                assert(next[k] == so_far[k]);
            }
        }
    } else {
        assert(next =~= so_far);
    }
}

/// The text of a set of flags reads back as the set: for every set that is
/// not empty and holds none but the six flags that have names.
pub proof fn lemma_flags_round_trip(bits: u8, none: Seq<char>)
    requires
        bits != 0,
        bits & 0xc0 == 0,
    ensures
        strict_bits(split(flags_text(bits, none), ',')) == Some(bits),
{
    reveal_strlit("FIN");
    reveal_strlit("SYN");
    reveal_strlit("RST");
    reveal_strlit("PSH");
    reveal_strlit("ACK");
    reveal_strlit("URG");
    reveal_strlit(",");
    let fin = "FIN"@;
    let syn = "SYN"@;
    let rst = "RST"@;
    let psh = "PSH"@;
    let ack = "ACK"@;
    let urg = "URG"@;
    assert(fin.len() == 3 && fin[0] == 'F' && fin[1] == 'I' && fin[2] == 'N');
    assert(syn.len() == 3 && syn[0] == 'S' && syn[1] == 'Y' && syn[2] == 'N');
    assert(rst.len() == 3 && rst[0] == 'R' && rst[1] == 'S' && rst[2] == 'T');
    assert(psh.len() == 3 && psh[0] == 'P' && psh[1] == 'S' && psh[2] == 'H');
    assert(ack.len() == 3 && ack[0] == 'A' && ack[1] == 'C' && ack[2] == 'K');
    assert(urg.len() == 3 && urg[0] == 'U' && urg[1] == 'R' && urg[2] == 'G');
    crate::text::lemma_trim_nothing(fin);
    crate::text::lemma_trim_nothing(syn);
    crate::text::lemma_trim_nothing(rst);
    crate::text::lemma_trim_nothing(psh);
    crate::text::lemma_trim_nothing(ack);
    crate::text::lemma_trim_nothing(urg);
    let s0 = Seq::<Seq<char>>::empty();
    let s1 = s0 + word_if(bits & 0x01 != 0, fin);
    let s2 = s1 + word_if(bits & 0x02 != 0, syn);
    let s3 = s2 + word_if(bits & 0x04 != 0, rst);
    let s4 = s3 + word_if(bits & 0x08 != 0, psh);
    let s5 = s4 + word_if(bits & 0x10 != 0, ack);
    let s6 = s5 + word_if(bits & 0x20 != 0, urg);
    let b1: u8 = if bits & 0x01 != 0 { 0x01 } else { 0 };
    let b2: u8 = if bits & 0x02 != 0 { b1 | 0x02 } else { b1 };
    let b3: u8 = if bits & 0x04 != 0 { b2 | 0x04 } else { b2 };
    let b4: u8 = if bits & 0x08 != 0 { b3 | 0x08 } else { b3 };
    let b5: u8 = if bits & 0x10 != 0 { b4 | 0x10 } else { b4 };
    let b6: u8 = if bits & 0x20 != 0 { b5 | 0x20 } else { b5 };
    assert(0u8 | 0x01u8 == 0x01u8) by (bit_vector);
    lemma_flag_step(s0, 0, bits & 0x01 != 0, fin, 0x01);
    lemma_flag_step(s1, b1, bits & 0x02 != 0, syn, 0x02);
    lemma_flag_step(s2, b2, bits & 0x04 != 0, rst, 0x04);
    lemma_flag_step(s3, b3, bits & 0x08 != 0, psh, 0x08);
    lemma_flag_step(s4, b4, bits & 0x10 != 0, ack, 0x10);
    lemma_flag_step(s5, b5, bits & 0x20 != 0, urg, 0x20);
    assert(s6 == flag_names(bits));
    assert(b6 == bits) by (bit_vector)
        requires
            bits & 0xc0 == 0,
            b1 == if bits & 0x01 != 0 { 0x01u8 } else { 0u8 },
            b2 == if bits & 0x02 != 0 { b1 | 0x02 } else { b1 },
            b3 == if bits & 0x04 != 0 { b2 | 0x04 } else { b2 },
            b4 == if bits & 0x08 != 0 { b3 | 0x08 } else { b3 },
            b5 == if bits & 0x10 != 0 { b4 | 0x10 } else { b4 },
            b6 == if bits & 0x20 != 0 { b5 | 0x20 } else { b5 },
    ;
    assert(s6.len() > 0) by {
        assert(bits & 0x01 != 0 || bits & 0x02 != 0 || bits & 0x04 != 0 || bits & 0x08 != 0 || bits
            & 0x10 != 0 || bits & 0x20 != 0) by (bit_vector)
            requires
                bits != 0,
                bits & 0xc0 == 0,
        ;
    }
    assert(","@ =~= seq![',']);
    crate::text::lemma_split_join(s6, ',');
}

} // verus!
