//! The requests and responses of the control protocol.

use vstd::prelude::*;

verus! {

/// The view of an optional string.
pub open spec fn opt_text(s: Option<String>) -> Option<Seq<char>> {
    match s {
        Some(text) => Some(text@),
        None => None,
    }
}

/// The counters that the classifier keeps for one rule.
#[derive(Debug, Clone, Copy, PartialEq, Eq, Structural)]
pub struct RuleStats {
    /// Packets that the rule accepted.
    pub packets: u64,
    /// Bytes of the frames of those packets.
    pub bytes: u64,
    /// When the rule last accepted a packet, in seconds since the epoch.
    pub last_matched: u64,
}

impl RuleStats {
    /// The counters of a rule that has accepted nothing.
    pub open spec fn zero() -> RuleStats {
        RuleStats { packets: 0, bytes: 0, last_matched: 0 }
    }

    /// The counters of a rule that has accepted nothing.
    pub fn new() -> (r: RuleStats)
        ensures
            r == RuleStats::zero(),
    {
        RuleStats { packets: 0, bytes: 0, last_matched: 0 }
    }
}

/// A rule as the control protocol shows it.
#[derive(Debug, Clone, PartialEq, Eq)]
pub struct RuleInfo {
    pub label: String,
    pub action: String,
    pub src_ip: Option<String>,
    pub dst_ip: Option<String>,
    pub src_port: Option<String>,
    pub dst_port: Option<String>,
    pub protocol: String,
    pub tcp_flags: Option<String>,
    pub priority: u32,
    pub redirect_if: Option<String>,
    pub rate_limit: u32,
    pub expire: u32,
    pub stats: RuleStats,
}

/// What a `RuleInfo` says.
pub struct RuleInfoView {
    pub label: Seq<char>,
    pub action: Seq<char>,
    pub src_ip: Option<Seq<char>>,
    pub dst_ip: Option<Seq<char>>,
    pub src_port: Option<Seq<char>>,
    pub dst_port: Option<Seq<char>>,
    pub protocol: Seq<char>,
    pub tcp_flags: Option<Seq<char>>,
    pub priority: u32,
    pub redirect_if: Option<Seq<char>>,
    pub rate_limit: u32,
    pub expire: u32,
    pub stats: RuleStats,
}

impl View for RuleInfo {
    type V = RuleInfoView;

    open spec fn view(&self) -> RuleInfoView {
        RuleInfoView {
            label: self.label@,
            action: self.action@,
            src_ip: opt_text(self.src_ip),
            dst_ip: opt_text(self.dst_ip),
            src_port: opt_text(self.src_port),
            dst_port: opt_text(self.dst_port),
            protocol: self.protocol@,
            tcp_flags: opt_text(self.tcp_flags),
            priority: self.priority,
            redirect_if: opt_text(self.redirect_if),
            rate_limit: self.rate_limit,
            expire: self.expire,
            stats: self.stats,
        }
    }
}

/// The aggregate counters and the rates derived from them. The bit rate is
/// in bits per second; a million of them make one megabit per second.
#[derive(Debug, Clone, Copy, PartialEq, Eq, Structural)]
pub struct SystemStats {
    pub total_packets: u64,
    pub total_bytes: u64,
    pub packets_per_sec: u64,
    pub bits_per_sec: u64,
}

/// A sandbox module as the control protocol shows it.
#[derive(Debug, Clone, PartialEq, Eq)]
pub struct WasmModuleInfo {
    pub name: String,
    pub state: String,
    pub loaded_at: u64,
}

/// A request of the control protocol.
#[derive(Debug, Clone, PartialEq, Eq)]
pub enum ApiRequest {
    /// Attach the classifier to an interface.
    Attach { interface: String, mode: u32, force: bool },
    /// Detach the classifier from an interface.
    Detach { interface: String },
    /// Add a rule.
    AddRule {
        src_ip: Option<String>,
        dst_ip: Option<String>,
        src_port_min: u16,
        src_port_max: u16,
        dst_port_min: u16,
        dst_port_max: u16,
        protocol: u8,
        tcp_flags: u8,
        action: u8,
        redirect_if: Option<String>,
        priority: u32,
        rate_limit: u32,
        expire: u32,
        label: String,
    },
    /// Delete the rule with a label.
    DeleteRule { label: String },
    /// List the rules, with their counters if asked.
    ListRules { include_stats: bool },
    /// Show the telemetry snapshot.
    GetStats {  },
    /// Load a sandbox module from a file.
    LoadWasmModule { name: String, file_path: String },
    /// Unload a sandbox module.
    UnloadWasmModule { name: String },
    /// List the sandbox modules.
    ListWasmModules {  },
    /// Show the counters of one sandbox module.
    WasmModuleStats { name: String },
}

/// A response of the control protocol.
#[derive(Debug, Clone, PartialEq, Eq)]
pub enum ApiResponse {
    /// The request was carried out.
    Success { message: String },
    /// The request failed.
    Error { message: String },
    /// The rules, in the order of their insertion.
    Rules { rules: Vec<RuleInfo> },
    /// The telemetry snapshot.
    Stats { stats: SystemStats },
    /// The sandbox modules, in the order of their insertion.
    WasmModules { modules: Vec<WasmModuleInfo> },
    /// The counters of one sandbox module.
    WasmModuleStats { name: String, processed_packets: u64, blocked_packets: u64 },
}

} // verus!
