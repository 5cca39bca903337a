//! The control server: framing of the wire protocol, the attachment state
//! machine, and the handling of one request.
//!
//! The server touches neither socket, kernel map nor file. For each request
//! it says what outside work the request takes, and once told how that work
//! went it changes its state and gives the response.

use crate::api::{ApiRequest, ApiResponse, RuleInfoView, SystemStats, WasmModuleInfo};
use crate::error::{GuardError, ParseError};
use crate::maps::{
    add_check, add_ops, add_result, delete_ops, delete_result, has_label, label_index, listing,
    ops_view, FilterRule, MapManager, MapOp,
};
use crate::telemetry::{SamplerState, TelemetryCollector};
use crate::text::{chars_of, number, parse_number, slice_of};
use crate::types::{WasmModuleState, XdpMode};
use crate::utils::{ip_prefix_of, parse_ip_prefix};
use crate::wasm::{module_index, InspectorView, WasmManager};
use vstd::prelude::*;
use vstd::string::StringExecFns;

verus! {

/// The four bytes of `x`, highest first.
pub open spec fn be32(x: u32) -> Seq<u8> {
    seq![
        ((x >> 24) & 0xff) as u8,
        ((x >> 16) & 0xff) as u8,
        ((x >> 8) & 0xff) as u8,
        (x & 0xff) as u8,
    ]
}

/// The number whose four bytes, highest first, are the first of `s`.
pub open spec fn be32_value(s: Seq<u8>) -> u32
    recommends
        s.len() >= 4,
{
    ((s[0] as u32) << 24) | ((s[1] as u32) << 16) | ((s[2] as u32) << 8) | (s[3] as u32)
}

/// A message on the wire: the length of the payload in four bytes, highest
/// first, then the payload.
pub open spec fn frame(payload: Seq<u8>) -> Seq<u8>
    recommends
        payload.len() <= u32::MAX,
{
    be32(payload.len() as u32) + payload
}

/// The payload of the message `bytes`, which must hold a length and then
/// just as many bytes.
pub open spec fn payload_of(bytes: Seq<u8>) -> Result<Seq<u8>, GuardError> {
    if bytes.len() >= 4 && bytes.len() - 4 == be32_value(bytes) {
        Ok(bytes.skip(4))
    } else {
        Err(GuardError::ProtocolError)
    }
}

/// Reading the length of a frame gives the length of its payload.
pub proof fn lemma_be32_round_trip(x: u32)
    ensures
        be32_value(be32(x)) == x,
{
    assert(((((x >> 24) & 0xff) as u8 as u32) << 24) | ((((x >> 16) & 0xff) as u8 as u32) << 16)
        | ((((x >> 8) & 0xff) as u8 as u32) << 8) | ((x & 0xff) as u8 as u32) == x)
        by (bit_vector);
}

/// A framed payload is unframed to itself.
pub proof fn lemma_frame_round_trip(payload: Seq<u8>)
    requires
        payload.len() <= u32::MAX,
    ensures
        payload_of(frame(payload)) == Ok::<Seq<u8>, GuardError>(payload),
{
    let x = payload.len() as u32;
    lemma_be32_round_trip(x);
    let f = frame(payload);
    assert(be32_value(f) == be32_value(be32(x)));
    assert(f.skip(4) =~= payload);
}

/// The message that carries `payload`; none where the payload is too long
/// for its length to be written in four bytes.
pub fn encode_frame(payload: &[u8]) -> (r: Option<Vec<u8>>)
    ensures
        match r {
            Some(bytes) => payload@.len() <= u32::MAX && bytes@ == frame(payload@),
            None => payload@.len() > u32::MAX,
        },
{
    if payload.len() > u32::MAX as usize {
        return None;
    }
    let n: u32 = payload.len() as u32;
    let mut out: Vec<u8> = Vec::new();
    out.push(((n >> 24) & 0xff) as u8);
    out.push(((n >> 16) & 0xff) as u8);
    out.push(((n >> 8) & 0xff) as u8);
    out.push((n & 0xff) as u8);
    assert(out@ =~= be32(n));
    let mut i: usize = 0;
    while i < payload.len()
        invariant
            i <= payload.len(),
            out@ == be32(n) + payload@.take(i as int),
        decreases payload.len() - i,
    {
        out.push(payload[i]);
        assert(out@ =~= be32(n) + payload@.take(i + 1));
        i += 1;
    }
    assert(payload@.take(payload.len() as int) == payload@);
    Some(out)
}

/// The length of the payload that follows the header `header`.
pub fn frame_length(header: &[u8; 4]) -> (r: u32)
    ensures
        r == be32_value(header@),
{
    ((header[0] as u32) << 24) | ((header[1] as u32) << 16) | ((header[2] as u32) << 8) | (
    header[3] as u32)
}

/// The payload of the message `bytes`; `ProtocolError` where the message is
/// shorter than its header or holds more or fewer bytes than its header says.
pub fn decode_frame(bytes: &[u8]) -> (r: Result<Vec<u8>, GuardError>)
    ensures
        match r {
            Ok(payload) => payload_of(bytes@) == Ok::<Seq<u8>, GuardError>(payload@),
            Err(e) => payload_of(bytes@) == Err::<Seq<u8>, GuardError>(e),
        },
{
    if bytes.len() < 4 {
        return Err(GuardError::ProtocolError);
    }
    let n: u32 = ((bytes[0] as u32) << 24) | ((bytes[1] as u32) << 16) | ((bytes[2] as u32) << 8)
        | (bytes[3] as u32);
    if (bytes.len() - 4) as u64 != n as u64 {
        return Err(GuardError::ProtocolError);
    }
    let mut out: Vec<u8> = Vec::new();
    let mut i: usize = 4;
    while i < bytes.len()
        invariant
            4 <= i <= bytes.len(),
            out@ == bytes@.subrange(4, i as int),
        decreases bytes.len() - i,
    {
        out.push(bytes[i]);
        assert(out@ =~= bytes@.subrange(4, i + 1));
        i += 1;
    }
    assert(bytes@.subrange(4, bytes.len() as int) =~= bytes@.skip(4));
    Ok(out)
}

/// The number of the interface that `name` names: the number after `if` in
/// a name that starts so, and 0 for any other name.
pub open spec fn interface_index(name: Seq<char>) -> Result<u32, ParseError> {
    if name.len() >= 2 && name[0] == 'i' && name[1] == 'f' {
        match number(name.skip(2), u32::MAX as nat) {
            Some(n) => Ok(n as u32),
            None => Err(ParseError::Interface),
        }
    } else {
        Ok(0)
    }
}

/// The number of the interface that a request for a redirect names; 0
/// where it names none.
pub open spec fn redirect_index(redirect_if: Option<String>) -> Result<u32, ParseError> {
    match redirect_if {
        None => Ok(0),
        Some(name) => interface_index(name@),
    }
}

/// The network that an optional text of a request names.
pub open spec fn optional_network(text: Option<String>) -> Result<Option<(u32, u32)>, ParseError> {
    match text {
        None => Ok(None),
        Some(s) => match ip_prefix_of(s@) {
            Ok(net) => Ok(Some(net)),
            Err(e) => Err(e),
        },
    }
}

/// What the server knows: the interface it is attached to, the live rules,
/// the telemetry sampler and the sandbox modules.
pub struct ServerView {
    pub attached: Option<Seq<char>>,
    pub rules: Seq<FilterRule>,
    pub sampler: SamplerState,
    pub modules: Seq<InspectorView>,
}

/// What a response says.
pub enum ResponseView {
    Success { message: Seq<char> },
    Error { message: Seq<char> },
    Rules { rules: Seq<RuleInfoView> },
    Stats { stats: SystemStats },
    WasmModules { modules: Seq<(Seq<char>, Seq<char>, u64)> },
    WasmModuleStats { name: Seq<char>, processed_packets: u64, blocked_packets: u64 },
}

/// What each of `infos` says: name, state and time of loading.
pub open spec fn module_infos_view(infos: Seq<WasmModuleInfo>) -> Seq<(Seq<char>, Seq<char>, u64)> {
    Seq::new(infos.len(), |i: int| (infos[i].name@, infos[i].state@, infos[i].loaded_at))
}

impl View for ApiResponse {
    type V = ResponseView;

    open spec fn view(&self) -> ResponseView {
        match self {
            ApiResponse::Success { message } => ResponseView::Success { message: message@ },
            ApiResponse::Error { message } => ResponseView::Error { message: message@ },
            ApiResponse::Rules { rules } => ResponseView::Rules {
                rules: crate::maps::infos_view(rules@),
            },
            ApiResponse::Stats { stats } => ResponseView::Stats { stats: *stats },
            ApiResponse::WasmModules { modules } => ResponseView::WasmModules {
                modules: module_infos_view(modules@),
            },
            ApiResponse::WasmModuleStats {
                name,
                processed_packets,
                blocked_packets,
            } => ResponseView::WasmModuleStats {
                name: name@,
                processed_packets: *processed_packets,
                blocked_packets: *blocked_packets,
            },
        }
    }
}

/// The outside work that a request takes before it can be answered.
#[derive(Debug, Clone, PartialEq, Eq)]
pub enum IoRequest {
    /// None.
    Nothing,
    /// These writes to the kernel maps, in order, up to the first that
    /// fails; then the writes that `rollback` names for those that went
    /// through, if one failed.
    Write { ops: Vec<MapOp> },
    /// A read of the longest-prefix table under each key that is given.
    Read { keys: Vec<Option<Vec<u8>>> },
    /// A read of the file at `path`.
    ReadFile { path: String },
    /// Loading the classifier into the kernel on `interface`.
    Attach { interface: String, mode: XdpMode, force: bool },
    /// Unloading the classifier from `interface`.
    Detach { interface: String },
}

/// How the outside work of a request went.
#[derive(Debug, Clone, PartialEq, Eq)]
pub enum IoOutcome {
    /// There was none to do.
    Nothing,
    /// So many of the writes went through, counted from the first.
    Written { count: usize },
    /// What the longest-prefix table holds under each key that was given:
    /// none for a key that it does not hold, that could not be read, or
    /// that was not given.
    Values { values: Vec<Option<Vec<u8>>> },
    /// What the file holds; none where it could not be read.
    File { bytes: Option<Vec<u8>> },
    /// Whether attaching or detaching went through.
    Done { ok: bool },
}

impl IoOutcome {
    /// The number of writes that went through, 0 for any other outcome.
    pub open spec fn written(self) -> nat {
        match self {
            IoOutcome::Written { count } => count as nat,
            _ => 0,
        }
    }

    /// What was read from the longest-prefix table, nothing for any other outcome.
    pub open spec fn values(self) -> Seq<Option<Vec<u8>>> {
        match self {
            IoOutcome::Values { values } => values@,
            _ => Seq::empty(),
        }
    }

    /// Whether attaching or detaching went through; it did not for any other outcome.
    pub open spec fn done(self) -> bool {
        match self {
            IoOutcome::Done { ok } => ok,
            _ => false,
        }
    }
}

/// The text `a`, then `b`, then `c`.
pub fn concat3(a: &str, b: &str, c: &str) -> (r: String)
    ensures
        r@ == a@ + b@ + c@,
{
    let mut out = String::from_str(a);
    out.append(b);
    out.append(c);
    out
}

/// The text `a`, then `b`.
pub fn concat2(a: &str, b: &str) -> (r: String)
    ensures
        r@ == a@ + b@,
{
    let mut out = String::from_str(a);
    out.append(b);
    out
}

/// What an operator is told when `e` keeps a request about `subject` from
/// being carried out.
pub open spec fn failure_text(e: GuardError, subject: Seq<char>) -> Seq<char> {
    match e {
        GuardError::Parse(ParseError::PortRangeFormat) => "Invalid port range format: "@ + subject,
        GuardError::Parse(ParseError::PortNumber) => "Invalid port number: "@ + subject,
        GuardError::Parse(ParseError::PortRangeOrder) => "Invalid port range: min > max: "@
            + subject,
        GuardError::Parse(ParseError::AddressFormat) => "Invalid IP address format: "@ + subject,
        GuardError::Parse(ParseError::AddressOctet) => "Invalid IP address octet: "@ + subject,
        GuardError::Parse(ParseError::PrefixLength) => "Invalid prefix length: "@ + subject,
        GuardError::Parse(ParseError::Protocol) => "Unknown protocol: "@ + subject,
        GuardError::Parse(ParseError::Action) => "Unknown action: "@ + subject,
        GuardError::Parse(ParseError::TcpFlag) => "Invalid TCP flag: "@ + subject,
        GuardError::Parse(ParseError::Mode) => "Invalid mode: "@ + subject,
        GuardError::Parse(ParseError::Interface) => "Invalid interface format: "@ + subject,
        GuardError::InvalidRule => "Rule '"@ + subject + "' is not valid"@,
        GuardError::DuplicateLabel => "Rule '"@ + subject + "' already exists"@,
        GuardError::NotFound => "'"@ + subject + "' not found"@,
        GuardError::MapWriteFailed => "Failed to update the kernel maps for '"@ + subject + "'"@,
        GuardError::MapReadFailed => "Failed to read the kernel maps for '"@ + subject + "'"@,
        GuardError::AttachError => "Failed to attach to "@ + subject,
        GuardError::DetachError => "Failed to detach from "@ + subject,
        GuardError::WasmLoadError => "Failed to load WASM module '"@ + subject + "'"@,
        GuardError::WasmMissingExport => "WASM module '"@ + subject
            + "' lacks its memory or its inspect_packet function"@,
        GuardError::WasmInvokeError => "WASM module '"@ + subject + "' failed"@,
        GuardError::ProtocolError => "Malformed request: "@ + subject,
    }
}

/// What an operator is told when `e` keeps a request about `subject` from
/// being carried out.
pub fn failure_message(e: GuardError, subject: &str) -> (r: String)
    ensures
        r@ == failure_text(e, subject@),
{
    match e {
        GuardError::Parse(ParseError::PortRangeFormat) => concat2("Invalid port range format: ", subject),
        GuardError::Parse(ParseError::PortNumber) => concat2("Invalid port number: ", subject),
        GuardError::Parse(ParseError::PortRangeOrder) => concat2("Invalid port range: min > max: ", subject),
        GuardError::Parse(ParseError::AddressFormat) => concat2("Invalid IP address format: ", subject),
        GuardError::Parse(ParseError::AddressOctet) => concat2("Invalid IP address octet: ", subject),
        GuardError::Parse(ParseError::PrefixLength) => concat2("Invalid prefix length: ", subject),
        GuardError::Parse(ParseError::Protocol) => concat2("Unknown protocol: ", subject),
        GuardError::Parse(ParseError::Action) => concat2("Unknown action: ", subject),
        GuardError::Parse(ParseError::TcpFlag) => concat2("Invalid TCP flag: ", subject),
        GuardError::Parse(ParseError::Mode) => concat2("Invalid mode: ", subject),
        GuardError::Parse(ParseError::Interface) => concat2("Invalid interface format: ", subject),
        GuardError::InvalidRule => concat3("Rule '", subject, "' is not valid"),
        GuardError::DuplicateLabel => concat3("Rule '", subject, "' already exists"),
        GuardError::NotFound => concat3("'", subject, "' not found"),
        GuardError::MapWriteFailed => concat3(
            "Failed to update the kernel maps for '",
            subject,
            "'",
        ),
        GuardError::MapReadFailed => concat3("Failed to read the kernel maps for '", subject, "'"),
        GuardError::AttachError => concat2("Failed to attach to ", subject),
        GuardError::DetachError => concat2("Failed to detach from ", subject),
        GuardError::WasmLoadError => concat3("Failed to load WASM module '", subject, "'"),
        GuardError::WasmMissingExport => concat3(
            "WASM module '",
            subject,
            "' lacks its memory or its inspect_packet function",
        ),
        GuardError::WasmInvokeError => concat3("WASM module '", subject, "' failed"),
        GuardError::ProtocolError => concat2("Malformed request: ", subject),
    }
}

/// The number of the interface that a request for a redirect names.
pub fn parse_redirect(redirect_if: &Option<String>) -> (r: Result<u32, ParseError>)
    ensures
        r == redirect_index(*redirect_if),
{
    match redirect_if {
        None => Ok(0),
        Some(name) => {
            let chars = chars_of(name.as_str());
            if chars.len() >= 2 && chars[0] == 'i' && chars[1] == 'f' {
                let digits = slice_of(&chars, 2, chars.len());
                assert(digits@ == name@.skip(2));
                match parse_number(&digits, u32::MAX) {
                    Some(n) => Ok(n),
                    None => Err(ParseError::Interface),
                }
            } else {
                Ok(0)
            }
        },
    }
}

/// The network that an optional text of a request names.
pub fn parse_network(text: &Option<String>) -> (r: Result<Option<(u32, u32)>, ParseError>)
    ensures
        r == optional_network(*text),
{
    match text {
        None => Ok(None),
        Some(s) => match parse_ip_prefix(s.as_str()) {
            Ok(net) => Ok(Some(net)),
            Err(e) => Err(e),
        },
    }
}

/// The fields of a request to add a rule.
#[derive(Debug, Clone, PartialEq, Eq)]
pub struct RuleRequest {
    pub src_ip: Option<String>,
    pub dst_ip: Option<String>,
    pub src_port_min: u16,
    pub src_port_max: u16,
    pub dst_port_min: u16,
    pub dst_port_max: u16,
    pub protocol: u8,
    pub tcp_flags: u8,
    pub action: u8,
    pub redirect_if: Option<String>,
    pub priority: u32,
    pub rate_limit: u32,
    pub expire: u32,
    pub label: String,
}

impl RuleRequest {
    /// The rule that the request asks for when it arrives at `now`, or what
    /// is wrong with its texts: the source network is read first, then the
    /// destination network, then the interface of the redirect.
    pub open spec fn rule(self, now: u64) -> Result<FilterRule, ParseError> {
        match optional_network(self.src_ip) {
            Err(e) => Err(e),
            Ok(src) => match optional_network(self.dst_ip) {
                Err(e) => Err(e),
                Ok(dst) => match redirect_index(self.redirect_if) {
                    Err(e) => Err(e),
                    Ok(ifindex) => Ok(
                        FilterRule {
                            src_ip: src,
                            dst_ip: dst,
                            src_port_min: self.src_port_min,
                            src_port_max: self.src_port_max,
                            dst_port_min: self.dst_port_min,
                            dst_port_max: self.dst_port_max,
                            protocol: self.protocol,
                            tcp_flags: self.tcp_flags,
                            action: self.action,
                            redirect_ifindex: ifindex,
                            priority: self.priority,
                            rate_limit: self.rate_limit,
                            expire: self.expire,
                            label: self.label,
                            creation_time: now,
                        },
                    ),
                },
            },
        }
    }

    /// The text of the request that `e` complains of.
    pub open spec fn culprit(self, e: ParseError) -> Seq<char> {
        match optional_network(self.src_ip) {
            Err(_) => self.src_ip->0@,
            Ok(_) => match optional_network(self.dst_ip) {
                Err(_) => self.dst_ip->0@,
                Ok(_) => match self.redirect_if {
                    Some(name) => name@,
                    None => Seq::empty(),
                },
            },
        }
    }

    /// The rule that the request asks for when it arrives at `now`.
    pub fn to_rule(&self, now: u64) -> (r: Result<FilterRule, ParseError>)
        ensures
            r == self.rule(now),
    {
        let src = match parse_network(&self.src_ip) {
            Ok(net) => net,
            Err(e) => {
                return Err(e);
            },
        };
        let dst = match parse_network(&self.dst_ip) {
            Ok(net) => net,
            Err(e) => {
                return Err(e);
            },
        };
        let ifindex = match parse_redirect(&self.redirect_if) {
            Ok(n) => n,
            Err(e) => {
                return Err(e);
            },
        };
        Ok(
            FilterRule {
                src_ip: src,
                dst_ip: dst,
                src_port_min: self.src_port_min,
                src_port_max: self.src_port_max,
                dst_port_min: self.dst_port_min,
                dst_port_max: self.dst_port_max,
                protocol: self.protocol,
                tcp_flags: self.tcp_flags,
                action: self.action,
                redirect_ifindex: ifindex,
                priority: self.priority,
                rate_limit: self.rate_limit,
                expire: self.expire,
                label: self.label.clone(),
                creation_time: now,
            },
        )
    }

    /// The text of the request that a parse error complains of.
    pub fn culprit_text(&self) -> (r: String)
        ensures
            self.rule(0) matches Err(e) ==> r@ == self.culprit(e),
    {
        match parse_network(&self.src_ip) {
            Err(_) => match &self.src_ip {
                Some(s) => s.clone(),
                None => String::new(),
            },
            Ok(_) => match parse_network(&self.dst_ip) {
                Err(_) => match &self.dst_ip {
                    Some(s) => s.clone(),
                    None => String::new(),
                },
                Ok(_) => match &self.redirect_if {
                    Some(s) => s.clone(),
                    None => String::new(),
                },
            },
        }
    }
}

/// What a request to attach to `interface` does to a server that is
/// attached to `attached`, when loading the classifier, where it was
/// needed, went as `done` says: the interface that the server is attached
/// to afterwards, and the error if there is one.
///
/// A server that is attached to nothing attaches where the load went
/// through. One that is attached to `interface` already stays so, and
/// nothing is loaded. One that is attached elsewhere refuses.
pub open spec fn attach_step(attached: Option<Seq<char>>, interface: Seq<char>, mode: u32, done: bool)
    -> (Option<Seq<char>>, Option<GuardError>) {
    if mode > 2 {
        (attached, Some(GuardError::Parse(ParseError::Mode)))
    } else {
        match attached {
            None => if done {
                (Some(interface), None)
            } else {
                (None, Some(GuardError::AttachError))
            },
            Some(current) => if current == interface {
                (attached, None)
            } else {
                (attached, Some(GuardError::AttachError))
            },
        }
    }
}

/// What a request to detach from `interface` does to a server that is
/// attached to `attached`, when unloading the classifier, where it was
/// needed, went as `done` says. Only a server that is attached to
/// `interface` detaches, and only where the unload went through.
pub open spec fn detach_step(attached: Option<Seq<char>>, interface: Seq<char>, done: bool) -> (
    Option<Seq<char>>,
    Option<GuardError>,
) {
    match attached {
        Some(current) => if current == interface && done {
            (None, None)
        } else {
            (attached, Some(GuardError::DetachError))
        },
        None => (None, Some(GuardError::DetachError)),
    }
}

/// Whether a request to attach to `interface` in `mode` takes loading the
/// classifier: it does on a server that is attached to nothing.
pub open spec fn attach_loads(attached: Option<Seq<char>>, mode: u32) -> bool {
    mode <= 2 && attached is None
}

/// Whether a request to detach from `interface` takes unloading the
/// classifier: it does on a server that is attached to that interface.
pub open spec fn detach_unloads(attached: Option<Seq<char>>, interface: Seq<char>) -> bool {
    attached == Some(interface)
}

/// The rule request inside a request to add a rule.
pub open spec fn rule_request(request: ApiRequest) -> RuleRequest
    recommends
        request is AddRule,
{
    RuleRequest {
        src_ip: request->src_ip,
        dst_ip: request->dst_ip,
        src_port_min: request->src_port_min,
        src_port_max: request->src_port_max,
        dst_port_min: request->dst_port_min,
        dst_port_max: request->dst_port_max,
        protocol: request->protocol,
        tcp_flags: request->tcp_flags,
        action: request->action,
        redirect_if: request->redirect_if,
        priority: request->priority,
        rate_limit: request->rate_limit,
        expire: request->expire,
        label: request->AddRule_label,
    }
}

/// What each module shows in a listing: name, state and time of loading.
pub open spec fn modules_listing(modules: Seq<InspectorView>) -> Seq<(Seq<char>, Seq<char>, u64)> {
    Seq::new(
        modules.len(),
        |i: int| (modules[i].id, modules[i].state.name(), modules[i].loaded_at),
    )
}

/// The response to a request to attach, and the server after it.
pub open spec fn after_attach(s: ServerView, interface: Seq<char>, mode: u32, done: bool) -> (
    ResponseView,
    ServerView,
) {
    let (attached, error) = attach_step(s.attached, interface, mode, done);
    let response = match error {
        None => ResponseView::Success {
            message: "XDP program attached to "@ + interface + " in mode "@ + crate::text::decimal(
                mode as nat,
            ),
        },
        Some(GuardError::Parse(e)) => ResponseView::Error {
            message: failure_text(GuardError::Parse(e), crate::text::decimal(mode as nat)),
        },
        Some(e) => ResponseView::Error { message: failure_text(e, interface) },
    };
    (response, ServerView { attached, ..s })
}

/// The response to a request to detach, and the server after it.
pub open spec fn after_detach(s: ServerView, interface: Seq<char>, done: bool) -> (
    ResponseView,
    ServerView,
) {
    let (attached, error) = detach_step(s.attached, interface, done);
    let response = match error {
        None => ResponseView::Success { message: "XDP program detached from "@ + interface },
        Some(e) => ResponseView::Error { message: failure_text(e, interface) },
    };
    (response, ServerView { attached, ..s })
}

/// The response to a request to add a rule that arrives at `now`, after
/// `written` of its writes went through, and the server after it.
pub open spec fn after_add(s: ServerView, request: RuleRequest, written: nat, now: u64) -> (
    ResponseView,
    ServerView,
) {
    match request.rule(now) {
        Err(e) => (
            ResponseView::Error { message: failure_text(GuardError::Parse(e), request.culprit(e)) },
            s,
        ),
        Ok(rule) => {
            let (result, rules) = add_result(s.rules, rule, written);
            let response = match result {
                Ok(()) => ResponseView::Success {
                    message: "Rule '"@ + request.label@ + "' added successfully"@,
                },
                Err(e) => ResponseView::Error { message: failure_text(e, request.label@) },
            };
            (response, ServerView { rules, ..s })
        },
    }
}

/// The response to a request to delete the rule with `label`, after
/// `written` of its writes went through, and the server after it.
pub open spec fn after_delete(s: ServerView, label: Seq<char>, written: nat) -> (
    ResponseView,
    ServerView,
) {
    let (result, rules) = delete_result(s.rules, label, written);
    let response = match result {
        Ok(()) => ResponseView::Success { message: "Rule '"@ + label + "' deleted successfully"@ },
        Err(GuardError::NotFound) => ResponseView::Error {
            message: "Rule '"@ + label + "' not found"@,
        },
        Err(e) => ResponseView::Error { message: failure_text(e, label) },
    };
    (response, ServerView { rules, ..s })
}

/// The response to a request to unload the module named `name`, and the
/// server after it.
pub open spec fn after_unload(s: ServerView, name: Seq<char>) -> (ResponseView, ServerView) {
    let i = module_index(s.modules, name);
    if i < s.modules.len() {
        (
            ResponseView::Success { message: "WASM module '"@ + name + "' unloaded"@ },
            ServerView { modules: s.modules.remove(i), ..s },
        )
    } else {
        (ResponseView::Error { message: "WASM module '"@ + name + "' not found"@ }, s)
    }
}

/// The response to a request for the counters of the module named `name`.
pub open spec fn module_stats_response(s: ServerView, name: Seq<char>) -> ResponseView {
    let i = module_index(s.modules, name);
    if i < s.modules.len() {
        ResponseView::WasmModuleStats {
            name,
            processed_packets: s.modules[i].processed_packets,
            blocked_packets: s.modules[i].blocked_packets,
        }
    } else {
        ResponseView::Error { message: "WASM module '"@ + name + "' not found"@ }
    }
}

/// Whether `response` and `after` are what a request to load a module named
/// `name` from the file `path`, whose bytes were read or not as `read`
/// says, may give at `now` on the server `before`. A file that could not be
/// read is a load error. Whether a module that was read loads is for the
/// runtime to say: it joins the modules as `Loaded` with a success, or the
/// modules stay as they were with an error.
pub open spec fn load_outcome(
    before: ServerView,
    name: Seq<char>,
    path: Seq<char>,
    read: bool,
    now: u64,
    response: ResponseView,
    after: ServerView,
) -> bool {
    ||| {
        &&& read
        &&& response == ResponseView::Success { message: "WASM module '"@ + name + "' loaded"@ }
        &&& after == ServerView {
            modules: before.modules.push(
                InspectorView {
                    state: WasmModuleState::Loaded,
                    loaded_at: now,
                    ..InspectorView::fresh(name, path)
                },
            ),
            ..before
        }
    }
    ||| {
        &&& after == before
        &&& response == ResponseView::Error {
            message: failure_text(GuardError::WasmLoadError, name),
        } || (read && response == ResponseView::Error {
            message: failure_text(GuardError::WasmMissingExport, name),
        })
    }
}

/// The control server.
pub struct ApiServer {
    addr: String,
    attached: Option<String>,
    map_manager: MapManager,
    telemetry: TelemetryCollector,
    wasm: WasmManager,
}

impl View for ApiServer {
    type V = ServerView;

    closed spec fn view(&self) -> ServerView {
        ServerView {
            attached: match self.attached {
                Some(name) => Some(name@),
                None => None,
            },
            rules: self.map_manager@,
            sampler: self.telemetry@,
            modules: self.wasm@,
        }
    }
}

impl ApiServer {
    /// The address that the server is to listen on.
    pub closed spec fn address(&self) -> Seq<char> {
        self.addr@
    }

    /// A server for `addr` over a rule table and a sampler, attached to
    /// nothing and without sandbox modules.
    pub fn new(addr: &str, map_manager: MapManager, telemetry: TelemetryCollector) -> (r: Result<
        ApiServer,
        GuardError,
    >)
        ensures
            r matches Ok(server) && server.address() == addr@ && server@ == (ServerView {
                attached: None,
                rules: map_manager@,
                sampler: telemetry@,
                modules: Seq::empty(),
            }),
    {
        let server = ApiServer {
            addr: String::from_str(addr),
            attached: None,
            map_manager,
            telemetry,
            wasm: WasmManager::new(),
        };
        assert(server@.modules =~= Seq::empty());
        Ok(server)
    }

    /// The address that the server is to listen on.
    pub fn addr(&self) -> (r: &str)
        ensures
            r@ == self.address(),
    {
        self.addr.as_str()
    }

    /// The telemetry sampler, for the task that samples.
    pub fn telemetry(&mut self) -> (r: &mut TelemetryCollector)
        ensures
            *r == old(self).telemetry_of(),
            final(self)@.attached == old(self)@.attached,
            final(self)@.rules == old(self)@.rules,
            final(self)@.modules == old(self)@.modules,
            final(self)@.sampler == final(r)@,
            final(self).address() == old(self).address(),
    {
        &mut self.telemetry
    }

    /// The telemetry sampler.
    pub closed spec fn telemetry_of(&self) -> TelemetryCollector {
        self.telemetry
    }

    /// The sandbox host, for the task that inspects packets.
    pub fn sandbox(&mut self) -> (r: &mut WasmManager)
        ensures
            r@ == old(self)@.modules,
            final(self)@.attached == old(self)@.attached,
            final(self)@.rules == old(self)@.rules,
            final(self)@.sampler == old(self)@.sampler,
            final(self)@.modules == final(r)@,
            final(self).address() == old(self).address(),
    {
        &mut self.wasm
    }

    /// The outside work that `request` takes, arriving at `now`, before
    /// `process_request` can answer it. A request that will fail whatever
    /// is done outside takes none.
    pub fn io_needed(&self, request: &ApiRequest, now: u64) -> (r: IoRequest)
        ensures
            match *request {
                ApiRequest::Attach { interface, mode, force } => if attach_loads(
                    self@.attached,
                    mode,
                ) {
                    r matches IoRequest::Attach { interface: i, mode: m, force: f } && i@
                        == interface@ && m.code() == mode && f == force
                } else {
                    r is Nothing
                },
                ApiRequest::Detach { interface } => if detach_unloads(self@.attached, interface@) {
                    r matches IoRequest::Detach { interface: i } && i@ == interface@
                } else {
                    r is Nothing
                },
                ApiRequest::AddRule { .. } => match rule_request(*request).rule(now) {
                    Ok(rule) => if add_check(self@.rules, rule) is None {
                        r matches IoRequest::Write { ops } && ops_view(ops@) == add_ops(rule)
                    } else {
                        r is Nothing
                    },
                    Err(_) => r is Nothing,
                },
                ApiRequest::DeleteRule { label } => if has_label(self@.rules, label@) {
                    r matches IoRequest::Write { ops } && ops_view(ops@) == delete_ops(
                        self@.rules[label_index(self@.rules, label@)],
                    )
                } else {
                    r is Nothing
                },
                ApiRequest::ListRules { include_stats } => if include_stats {
                    r matches IoRequest::Read { keys } && keys@.len() == self@.rules.len()
                        && forall|i: int|
                        0 <= i < keys@.len() ==> match #[trigger] keys@[i] {
                            Some(key) => self@.rules[i].key() == Some(key@),
                            None => self@.rules[i].key() is None,
                        }
                } else {
                    r is Nothing
                },
                ApiRequest::LoadWasmModule { name, file_path } => r matches IoRequest::ReadFile {
                    path,
                } && path@ == file_path@,
                _ => r is Nothing,
            },
    {
        match request {
            ApiRequest::Attach { interface, mode, force } => {
                match XdpMode::from_u32(*mode) {
                    Some(m) => {
                        if self.attached.is_none() {
                            IoRequest::Attach { interface: interface.clone(), mode: m, force: *force }
                        } else {
                            IoRequest::Nothing
                        }
                    },
                    None => IoRequest::Nothing,
                }
            },
            ApiRequest::Detach { interface } => {
                match &self.attached {
                    Some(current) => {
                        if crate::text::same_text(current.as_str(), interface.as_str()) {
                            IoRequest::Detach { interface: interface.clone() }
                        } else {
                            IoRequest::Nothing
                        }
                    },
                    None => IoRequest::Nothing,
                }
            },
            ApiRequest::AddRule {
                src_ip,
                dst_ip,
                src_port_min,
                src_port_max,
                dst_port_min,
                dst_port_max,
                protocol,
                tcp_flags,
                action,
                redirect_if,
                priority,
                rate_limit,
                expire,
                label,
            } => {
                let fields = RuleRequest {
                    src_ip: src_ip.clone(),
                    dst_ip: dst_ip.clone(),
                    src_port_min: *src_port_min,
                    src_port_max: *src_port_max,
                    dst_port_min: *dst_port_min,
                    dst_port_max: *dst_port_max,
                    protocol: *protocol,
                    tcp_flags: *tcp_flags,
                    action: *action,
                    redirect_if: redirect_if.clone(),
                    priority: *priority,
                    rate_limit: *rate_limit,
                    expire: *expire,
                    label: label.clone(),
                };
                assert(fields == rule_request(*request));
                match fields.to_rule(now) {
                    Ok(rule) => match self.map_manager.plan_add(&rule) {
                        Ok(ops) => IoRequest::Write { ops },
                        Err(_) => IoRequest::Nothing,
                    },
                    Err(_) => IoRequest::Nothing,
                }
            },
            ApiRequest::DeleteRule { label } => {
                match self.map_manager.plan_delete(label.as_str()) {
                    Ok(ops) => IoRequest::Write { ops },
                    Err(_) => IoRequest::Nothing,
                }
            },
            ApiRequest::ListRules { include_stats } => {
                if *include_stats {
                    IoRequest::Read { keys: self.map_manager.stat_keys() }
                } else {
                    IoRequest::Nothing
                }
            },
            ApiRequest::LoadWasmModule { name, file_path } => IoRequest::ReadFile {
                path: file_path.clone(),
            },
            _ => IoRequest::Nothing,
        }
    }

    /// Answers a request to attach.
    fn attach(&mut self, interface: String, mode: u32, done: bool) -> (r: ApiResponse)
        ensures
            (r@, final(self)@) == after_attach(old(self)@, interface@, mode, done),
            final(self).address() == old(self).address(),
    {
        let number = crate::text::decimal_string(mode as u64);
        if mode > 2 {
            return ApiResponse::Error {
                message: failure_message(GuardError::Parse(ParseError::Mode), number.as_str()),
            };
        }
        let mut message = concat3("XDP program attached to ", interface.as_str(), " in mode ");
        message.append(number.as_str());
        match &self.attached {
            None => {
                if done {
                    self.attached = Some(interface);
                    ApiResponse::Success { message }
                } else {
                    ApiResponse::Error {
                        message: failure_message(GuardError::AttachError, interface.as_str()),
                    }
                }
            },
            Some(current) => {
                if crate::text::same_text(current.as_str(), interface.as_str()) {
                    ApiResponse::Success { message }
                } else {
                    ApiResponse::Error {
                        message: failure_message(GuardError::AttachError, interface.as_str()),
                    }
                }
            },
        }
    }

    /// Answers a request to detach.
    fn detach(&mut self, interface: String, done: bool) -> (r: ApiResponse)
        ensures
            (r@, final(self)@) == after_detach(old(self)@, interface@, done),
            final(self).address() == old(self).address(),
    {
        let attached_here = match &self.attached {
            Some(current) => crate::text::same_text(current.as_str(), interface.as_str()),
            None => false,
        };
        if attached_here && done {
            self.attached = None;
            ApiResponse::Success {
                message: concat2("XDP program detached from ", interface.as_str()),
            }
        } else {
            ApiResponse::Error {
                message: failure_message(GuardError::DetachError, interface.as_str()),
            }
        }
    }

    /// Answers a request to add a rule.
    fn add(&mut self, fields: RuleRequest, written: usize, now: u64) -> (r: ApiResponse)
        ensures
            (r@, final(self)@) == after_add(old(self)@, fields, written as nat, now),
            final(self).address() == old(self).address(),
    {
        match fields.to_rule(now) {
            Err(e) => {
                let culprit = fields.culprit_text();
                ApiResponse::Error {
                    message: failure_message(GuardError::Parse(e), culprit.as_str()),
                }
            },
            Ok(rule) => {
                match self.map_manager.add_rule(rule, written) {
                    Ok(()) => ApiResponse::Success {
                        message: concat3("Rule '", fields.label.as_str(), "' added successfully"),
                    },
                    Err(e) => ApiResponse::Error {
                        message: failure_message(e, fields.label.as_str()),
                    },
                }
            },
        }
    }

    /// Answers a request to delete a rule.
    fn delete(&mut self, label: String, written: usize) -> (r: ApiResponse)
        ensures
            (r@, final(self)@) == after_delete(old(self)@, label@, written as nat),
            final(self).address() == old(self).address(),
    {
        match self.map_manager.delete_rule(label.as_str(), written) {
            Ok(()) => ApiResponse::Success {
                message: concat3("Rule '", label.as_str(), "' deleted successfully"),
            },
            Err(GuardError::NotFound) => ApiResponse::Error {
                message: concat3("Rule '", label.as_str(), "' not found"),
            },
            Err(e) => ApiResponse::Error { message: failure_message(e, label.as_str()) },
        }
    }

    /// Answers a request to load a module.
    fn load_module(&mut self, name: String, path: String, bytes: Option<Vec<u8>>, now: u64) -> (r:
        ApiResponse)
        ensures
            load_outcome(old(self)@, name@, path@, bytes is Some, now, r@, final(self)@),
            final(self).address() == old(self).address(),
    {
        match bytes {
            None => ApiResponse::Error {
                message: failure_message(GuardError::WasmLoadError, name.as_str()),
            },
            Some(wasm) => {
                match self.wasm.load_module(name.as_str(), path.as_str(), wasm.as_slice(), now) {
                    Ok(()) => ApiResponse::Success {
                        message: concat3("WASM module '", name.as_str(), "' loaded"),
                    },
                    Err(e) => ApiResponse::Error { message: failure_message(e, name.as_str()) },
                }
            },
        }
    }

    /// Answers a request to unload a module.
    fn unload_module(&mut self, name: String) -> (r: ApiResponse)
        ensures
            (r@, final(self)@) == after_unload(old(self)@, name@),
            final(self).address() == old(self).address(),
    {
        match self.wasm.unload_module(name.as_str()) {
            Ok(()) => ApiResponse::Success {
                message: concat3("WASM module '", name.as_str(), "' unloaded"),
            },
            Err(_) => ApiResponse::Error {
                message: concat3("WASM module '", name.as_str(), "' not found"),
            },
        }
    }

    /// Answers a request for the list of modules.
    fn list_modules(&self) -> (r: ApiResponse)
        ensures
            r@ == (ResponseView::WasmModules { modules: modules_listing(self@.modules) }),
    {
        let mut modules: Vec<WasmModuleInfo> = Vec::new();
        let mut i: usize = 0;
        while i < self.wasm.len()
            invariant
                i <= self.wasm@.len(),
                modules@.len() == i,
                forall|k: int|
                    0 <= k < i ==> {
                        &&& (#[trigger] modules@[k]).name@ == self.wasm@[k].id
                        &&& modules@[k].state@ == self.wasm@[k].state.name()
                        &&& modules@[k].loaded_at == self.wasm@[k].loaded_at
                    },
            decreases self.wasm@.len() - i,
        {
            match self.wasm.module(i) {
                Some(inspector) => {
                    modules.push(
                        WasmModuleInfo {
                            name: String::from_str(inspector.id()),
                            state: String::from_str(inspector.state().to_str()),
                            loaded_at: inspector.loaded_at(),
                        },
                    );
                },
                None => {},
            }
            i += 1;
        }
        assert(module_infos_view(modules@) =~= modules_listing(self@.modules));
        ApiResponse::WasmModules { modules }
    }

    /// Answers a request for the counters of a module.
    fn module_stats(&self, name: String) -> (r: ApiResponse)
        ensures
            r@ == module_stats_response(self@, name@),
    {
        match self.wasm.module_stats(name.as_str()) {
            Some((processed_packets, blocked_packets)) => ApiResponse::WasmModuleStats {
                name,
                processed_packets,
                blocked_packets,
            },
            None => ApiResponse::Error {
                message: concat3("WASM module '", name.as_str(), "' not found"),
            },
        }
    }

    /// Answers `request`, which arrived at `now` in seconds since the epoch,
    /// after the outside work that `io_needed` named for it went as
    /// `outcome` says. An outcome of another kind than the request takes
    /// counts as work that failed.
    pub fn process_request(&mut self, request: ApiRequest, outcome: IoOutcome, now: u64) -> (r:
        ApiResponse)
        ensures
            final(self).address() == old(self).address(),
            match request {
                ApiRequest::Attach { interface, mode, force } => (r@, final(self)@) == after_attach(
                    old(self)@,
                    interface@,
                    mode,
                    outcome.done() || !attach_loads(old(self)@.attached, mode),
                ),
                ApiRequest::Detach { interface } => (r@, final(self)@) == after_detach(
                    old(self)@,
                    interface@,
                    outcome.done(),
                ),
                ApiRequest::AddRule { .. } => (r@, final(self)@) == after_add(
                    old(self)@,
                    rule_request(request),
                    outcome.written(),
                    now,
                ),
                ApiRequest::DeleteRule { label } => (r@, final(self)@) == after_delete(
                    old(self)@,
                    label@,
                    outcome.written(),
                ),
                ApiRequest::ListRules { include_stats } => final(self)@ == old(self)@ && r@ == (
                ResponseView::Rules {
                    rules: listing(old(self)@.rules, include_stats, outcome.values()),
                }),
                ApiRequest::GetStats {  } => final(self)@ == old(self)@ && r@ == (
                ResponseView::Stats { stats: old(self)@.sampler.shown() }),
                ApiRequest::LoadWasmModule { name, file_path } => load_outcome(
                    old(self)@,
                    name@,
                    file_path@,
                    outcome matches IoOutcome::File { bytes: Some(_) },
                    now,
                    r@,
                    final(self)@,
                ),
                ApiRequest::UnloadWasmModule { name } => (r@, final(self)@) == after_unload(
                    old(self)@,
                    name@,
                ),
                ApiRequest::ListWasmModules {  } => final(self)@ == old(self)@ && r@ == (
                ResponseView::WasmModules { modules: modules_listing(old(self)@.modules) }),
                ApiRequest::WasmModuleStats { name } => final(self)@ == old(self)@ && r@
                    == module_stats_response(old(self)@, name@),
            },
    {
        match request {
            ApiRequest::Attach { interface, mode, force } => {
                let done = match outcome {
                    IoOutcome::Done { ok } => ok,
                    _ => false,
                };
                self.attach(interface, mode, done)
            },
            ApiRequest::Detach { interface } => {
                let done = match outcome {
                    IoOutcome::Done { ok } => ok,
                    _ => false,
                };
                self.detach(interface, done)
            },
            ApiRequest::AddRule {
                src_ip,
                dst_ip,
                src_port_min,
                src_port_max,
                dst_port_min,
                dst_port_max,
                protocol,
                tcp_flags,
                action,
                redirect_if,
                priority,
                rate_limit,
                expire,
                label,
            } => {
                let written = match outcome {
                    IoOutcome::Written { count } => count,
                    _ => 0,
                };
                let fields = RuleRequest {
                    src_ip,
                    dst_ip,
                    src_port_min,
                    src_port_max,
                    dst_port_min,
                    dst_port_max,
                    protocol,
                    tcp_flags,
                    action,
                    redirect_if,
                    priority,
                    rate_limit,
                    expire,
                    label,
                };
                assert(fields == rule_request(request));
                self.add(fields, written, now)
            },
            ApiRequest::DeleteRule { label } => {
                let written = match outcome {
                    IoOutcome::Written { count } => count,
                    _ => 0,
                };
                self.delete(label, written)
            },
            ApiRequest::ListRules { include_stats } => {
                let values = match outcome {
                    IoOutcome::Values { values } => values,
                    _ => Vec::new(),
                };
                ApiResponse::Rules { rules: self.map_manager.list_rules(include_stats, &values) }
            },
            ApiRequest::GetStats {  } => ApiResponse::Stats { stats: self.telemetry.get_stats() },
            ApiRequest::LoadWasmModule { name, file_path } => {
                let bytes = match outcome {
                    IoOutcome::File { bytes } => bytes,
                    _ => None,
                };
                self.load_module(name, file_path, bytes, now)
            },
            ApiRequest::UnloadWasmModule { name } => self.unload_module(name),
            ApiRequest::ListWasmModules {  } => self.list_modules(),
            ApiRequest::WasmModuleStats { name } => self.module_stats(name),
        }
    }
}

} // verus!
