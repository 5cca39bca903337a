//! Programmable packet filtering: a classifier that judges every frame by
//! tables of rules, a control plane that keeps those tables, a sampler that
//! turns counters into rates, and a host for sandboxed inspection modules.
//!
//! The library decides and computes; it reads no socket, file, clock or
//! kernel map. Where an operation takes such work, the library names the
//! work, and is told how it went.
//!
//! - [`layout`], [`maps`], [`tables`]: the bytes of keys and values, the rule
//!   table of the control plane, and the tables as the classifier sees them.
//! - [`writes`]: the writes of one operation, carried out one by one and
//!   taken back where one fails.
//! - [`classifier`]: what becomes of a frame.
//! - [`telemetry`]: rates from counters.
//! - [`wasm`], [`vm`]: the sandbox host and its calls into the runtime.
//! - [`server`], [`client`], [`api`]: the control protocol from both ends.
//! - [`readback`]: what a listing shows of a rule reads back as the rule.
//! - [`text`], [`types`], [`utils`], [`error`], [`config`], [`bpf`],
//!   [`http_inspector`]: texts, vocabularies, settings and an inspection of
//!   HTTP requests.

use vstd::prelude::*;

pub mod api;
pub mod bpf;
pub mod classifier;
pub mod client;
pub mod config;
pub mod error;
pub mod http_inspector;
pub mod layout;
pub mod maps;
pub mod readback;
pub mod server;
pub mod tables;
pub mod telemetry;
pub mod text;
pub mod types;
pub mod utils;
pub mod vm;
pub mod wasm;
pub mod writes;

verus! {

/// The version of the library.
pub const VERSION: &'static str = "0.1.0";

} // verus!
