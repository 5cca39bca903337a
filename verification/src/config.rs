//! The configuration of the daemon.

use vstd::prelude::*;
use vstd::string::StringExecFns;

verus! {

/// General settings.
#[derive(Debug, Clone, PartialEq, Eq)]
pub struct GeneralConfig {
    /// How much is logged.
    pub log_level: String,
    /// The directory the daemon works in.
    pub work_dir: String,
    /// Where the daemon writes its process identifier.
    pub pid_file: String,
}

/// Settings of the telemetry sampler.
#[derive(Debug, Clone, PartialEq, Eq)]
pub struct TelemetryConfig {
    /// Whether each sample is logged.
    pub log_stats: bool,
    /// Seconds between two samples.
    pub interval: u64,
    /// Whether samples are sent elsewhere.
    pub export_enabled: bool,
    /// Where samples are sent.
    pub export_url: Option<String>,
}

/// Settings of the sandbox host.
#[derive(Debug, Clone, PartialEq, Eq)]
pub struct WasmConfig {
    /// The directory that holds the modules.
    pub modules_dir: String,
    /// Whether modules are loaded when the daemon starts.
    pub auto_load: bool,
    /// The modules to load when the daemon starts.
    pub auto_load_modules: Vec<String>,
}

/// All settings of the daemon.
#[derive(Debug, Clone, PartialEq, Eq)]
pub struct DaemonConfig {
    pub general: GeneralConfig,
    pub telemetry: TelemetryConfig,
    pub wasm: WasmConfig,
}

impl DaemonConfig {
    /// What the settings hold where no file gives them, but for the modules
    /// to load at start.
    pub open spec fn is_default_but_modules(&self) -> bool {
        &&& self.general.log_level@ == "info"@
        &&& self.general.work_dir@ == "/var/lib/swift-guard"@
        &&& self.general.pid_file@ == "/var/run/swift-guard.pid"@
        &&& self.telemetry.log_stats
        &&& self.telemetry.interval == 1
        &&& !self.telemetry.export_enabled
        &&& self.telemetry.export_url is None
        &&& self.wasm.modules_dir@ == "/usr/local/lib/swift-guard/wasm"@
    }

    /// What the settings hold where no file gives them.
    pub open spec fn is_default(&self) -> bool {
        &&& self.is_default_but_modules()
        &&& !self.wasm.auto_load
        &&& self.wasm.auto_load_modules@.len() == 0
    }
}

impl Default for DaemonConfig {
    fn default() -> (r: DaemonConfig)
        ensures
            r.is_default(),
    {
        DaemonConfig {
            general: GeneralConfig {
                log_level: String::from_str("info"),
                work_dir: String::from_str("/var/lib/swift-guard"),
                pid_file: String::from_str("/var/run/swift-guard.pid"),
            },
            telemetry: TelemetryConfig {
                log_stats: true,
                interval: 1,
                export_enabled: false,
                export_url: None,
            },
            wasm: WasmConfig {
                modules_dir: String::from_str("/usr/local/lib/swift-guard/wasm"),
                auto_load: false,
                auto_load_modules: Vec::new(),
            },
        }
    }
}

/// The default settings, with two modules to load at start: an example to
/// write out for an operator to edit.
pub fn create_example_config() -> (r: DaemonConfig)
    ensures
        r.is_default_but_modules(),
        r.wasm.auto_load,
        r.wasm.auto_load_modules@.len() == 2,
        r.wasm.auto_load_modules@[0]@ == "http_inspector.wasm"@,
        r.wasm.auto_load_modules@[1]@ == "ddos_detector.wasm"@,
{
    let mut config = DaemonConfig::default();
    config.wasm.auto_load = true;
    let mut modules: Vec<String> = Vec::new();
    modules.push(String::from_str("http_inspector.wasm"));
    modules.push(String::from_str("ddos_detector.wasm"));
    config.wasm.auto_load_modules = modules;
    config
}

} // verus!
