//! The sandbox host: it loads inspection modules, hands them packets, and
//! keeps count of what they said.
//!
//! A module is WebAssembly. It must export a memory named `memory` and a
//! function `inspect_packet(ptr, len) -> i32`; it may export `allocate(size)
//! -> i32` and `init()`. It may import `env.log(ptr, len) -> i32`, and
//! nothing else. Every call into a module runs on a budget of fuel, so that
//! a module that does not come back is stopped and counts as failed.
//!
//! A module that fails, or returns a number that is neither 0 nor 1, lets
//! the packet through. The host owes its log an error for it: `consult`
//! tells what came of each module, and `ModuleReply::is_faulty` which
//! replies are to be reported.

use crate::error::GuardError;
use crate::text::{same_text, text_of_utf8};
use crate::types::WasmModuleState;
use crate::vm::{
    append_log, call_binary, call_procedure, call_unary, compile, guest_bytes, has_binary,
    has_memory, has_procedure, has_unary, instantiate, new_engine, new_store, set_fuel, take_log,
    write_memory,
};
use vstd::prelude::*;
use vstd::string::StringExecFns;
use vstd::utf8::{decode_utf8, valid_utf8};

verus! {

/// Where a module stands in its life.
pub type ModuleState = WasmModuleState;

/// Where the packet is written in a module that exports no `allocate`.
pub const FIXED_PACKET_OFFSET: i32 = 1024;

/// The fuel that a module may use in one call.
pub const FUEL_PER_CALL: u64 = 100_000_000;

/// The address space set aside for a module's memory beyond what the memory
/// holds: none, so that many modules fit where address space is scarce.
pub const MEMORY_RESERVE: u64 = 0;

/// What a store keeps for its module: the text that the module has logged,
/// and the instance once there is one.
pub struct WasmInspectorData {
    pub(crate) log_buffer: String,
    pub(crate) instance: Option<wasmtime::Instance>,
}

/// The step at which loading a module failed.
#[derive(Debug, Clone, Copy, PartialEq, Eq, Structural)]
pub enum LoadStep {
    /// The bytes are no valid module.
    Compile,
    /// The module could not be instantiated: it asks for imports that the
    /// host does not have, or its start function failed.
    Instantiate,
    /// The module exports no memory named `memory`.
    Memory,
    /// The module exports no function `inspect_packet` from two `i32` to an `i32`.
    EntryPoint,
    /// The module's `init` failed.
    Init,
}

/// The error for a load that failed at `step`.
pub open spec fn load_error(step: LoadStep) -> GuardError {
    match step {
        LoadStep::Memory => GuardError::WasmMissingExport,
        LoadStep::EntryPoint => GuardError::WasmMissingExport,
        _ => GuardError::WasmLoadError,
    }
}

/// The step at which a load fails for what the module exports: it must
/// export its memory, and then its entry point.
pub open spec fn export_step(has_memory: bool, has_entry_point: bool) -> Option<LoadStep> {
    if !has_memory {
        Some(LoadStep::Memory)
    } else if !has_entry_point {
        Some(LoadStep::EntryPoint)
    } else {
        None
    }
}

/// The step at which a load fails for the `init` of the module: `init` is
/// none where the module exports no `init`, and else tells whether the call
/// went through.
pub open spec fn init_step(init: Option<bool>) -> Option<LoadStep> {
    match init {
        Some(false) => Some(LoadStep::Init),
        _ => None,
    }
}

/// Whether the number that a module returned asks to block the packet: 1
/// does, 0 does not, and any other number counts as 0.
pub open spec fn blocks(raw: i32) -> bool {
    raw == 1
}

/// What came of asking one module about one packet.
#[derive(Debug, Clone, Copy, PartialEq, Eq, Structural)]
pub enum ModuleReply {
    /// The module was not asked: it is neither `Loaded` nor `Running`, or
    /// the chain had stopped before it.
    Skipped,
    /// The module was asked and gave no answer: it could not be handed the
    /// packet, or it failed at its work.
    Failed,
    /// The number that the module returned.
    Number(i32),
}

impl ModuleReply {
    /// The number that the module returned, or none where it returned none.
    pub open spec fn outcome(self) -> Option<i32> {
        match self {
            ModuleReply::Number(raw) => Some(raw),
            _ => None,
        }
    }

    /// Whether the reply asks to block the packet.
    pub open spec fn blocking(self) -> bool {
        match self {
            ModuleReply::Number(raw) => blocks(raw),
            _ => false,
        }
    }

    /// Whether the reply is one that the host reports as an error: the
    /// module failed, or it returned a number that is neither 0 nor 1.
    pub open spec fn faulty(self) -> bool {
        match self {
            ModuleReply::Skipped => false,
            ModuleReply::Failed => true,
            ModuleReply::Number(raw) => raw != 0 && raw != 1,
        }
    }

    /// The reply for an invocation whose outcome was `outcome`.
    pub open spec fn of(outcome: Option<i32>) -> ModuleReply {
        match outcome {
            Some(raw) => ModuleReply::Number(raw),
            None => ModuleReply::Failed,
        }
    }

    /// Whether the reply asks to block the packet.
    pub fn is_blocking(&self) -> (r: bool)
        ensures
            r == self.blocking(),
    {
        match self {
            ModuleReply::Number(raw) => verdict_of(*raw),
            _ => false,
        }
    }

    /// Whether the reply is one that the host reports as an error.
    pub fn is_faulty(&self) -> (r: bool)
        ensures
            r == self.faulty(),
    {
        match self {
            ModuleReply::Skipped => false,
            ModuleReply::Failed => true,
            ModuleReply::Number(raw) => *raw != 0 && *raw != 1,
        }
    }
}

/// One more than `n`, but never past the largest `u64`.
pub open spec fn bump(n: u64) -> u64 {
    if n < u64::MAX {
        (n + 1) as u64
    } else {
        n
    }
}

/// What is known of a module from outside.
pub struct InspectorView {
    pub id: Seq<char>,
    pub path: Seq<char>,
    pub state: WasmModuleState,
    /// When the module was loaded, in seconds since the epoch; 0 before that.
    pub loaded_at: u64,
    pub processed_packets: u64,
    pub blocked_packets: u64,
}

impl InspectorView {
    /// The module after an invocation that came back with `blocked`.
    pub open spec fn counted(self, blocked: bool) -> InspectorView {
        InspectorView {
            processed_packets: bump(self.processed_packets),
            blocked_packets: if blocked {
                bump(self.blocked_packets)
            } else {
                self.blocked_packets
            },
            ..self
        }
    }

    /// The module after an invocation whose outcome was `outcome`: the
    /// number that it returned, or none where it failed. A failure counts
    /// nothing.
    pub open spec fn after_invocation(self, outcome: Option<i32>) -> (
        Result<bool, GuardError>,
        InspectorView,
    ) {
        match outcome {
            Some(raw) => (Ok(blocks(raw)), self.counted(blocks(raw))),
            None => (Err(GuardError::WasmInvokeError), self),
        }
    }

    /// The module after a load at `now` that failed at `failed`, or went
    /// through where that is none.
    pub open spec fn after_load(self, failed: Option<LoadStep>, now: u64) -> (
        Result<(), GuardError>,
        InspectorView,
    ) {
        match failed {
            Some(step) => (
                Err(load_error(step)),
                InspectorView { state: WasmModuleState::Error, ..self },
            ),
            None => (
                Ok(()),
                InspectorView { state: WasmModuleState::Loaded, loaded_at: now, ..self },
            ),
        }
    }

    /// A module that was made and not loaded yet.
    pub open spec fn fresh(id: Seq<char>, path: Seq<char>) -> InspectorView {
        InspectorView {
            id,
            path,
            state: WasmModuleState::Initialized,
            loaded_at: 0,
            processed_packets: 0,
            blocked_packets: 0,
        }
    }
}

/// Whether the number that a module returned asks to block the packet.
pub fn verdict_of(raw: i32) -> (blocked: bool)
    ensures
        blocked == blocks(raw),
{
    raw == 1
}

/// The step at which a load fails for what the module exports, given
/// whether it exports its memory and its entry point.
pub fn check_exports(has_memory: bool, has_entry_point: bool) -> (r: Option<LoadStep>)
    ensures
        r == export_step(has_memory, has_entry_point),
{
    if !has_memory {
        Some(LoadStep::Memory)
    } else if !has_entry_point {
        Some(LoadStep::EntryPoint)
    } else {
        None
    }
}

/// The step at which a load fails for the `init` of the module, given
/// whether the call went through, or none where the module exports no
/// `init`.
pub fn check_init(init: Option<bool>) -> (r: Option<LoadStep>)
    ensures
        r == init_step(init),
{
    match init {
        Some(false) => Some(LoadStep::Init),
        _ => None,
    }
}

/// The line that the host logs for the bytes that a module handed it: their
/// text and a line feed, where they are valid UTF-8.
pub fn log_line(bytes: Vec<u8>) -> (r: Option<String>)
    ensures
        r is Some <==> valid_utf8(bytes@),
        r matches Some(line) ==> line@ == decode_utf8(bytes@).push('\n'),
{
    match text_of_utf8(bytes) {
        Some(text) => {
            let mut line = text;
            line.push('\n');
            Some(line)
        },
        None => None,
    }
}

/// The bytes of a module's memory that the host reads for `log(ptr, len)`:
/// from `ptr` up to `ptr + len`. None where one of the two is negative or
/// the end is past what an index can hold.
pub open spec fn log_span(ptr: i32, len: i32) -> Option<(usize, usize)> {
    if ptr >= 0 && len >= 0 && ptr + len <= usize::MAX {
        Some((ptr as usize, (ptr + len) as usize))
    } else {
        None
    }
}

/// What the host answers to `log(ptr, len)` and the line that it appends
/// to the log, given what it read of the module's memory: `read` holds the
/// bytes of the span, or none where the span is not in the memory. The
/// answer is 0 and the line is the text of the bytes and a line feed where
/// there is a span, it could be read, and its bytes are valid UTF-8. Else
/// the answer is -1 and nothing is appended.
pub open spec fn log_answer(ptr: i32, len: i32, read: Option<Seq<u8>>) -> (
    i32,
    Option<Seq<char>>,
) {
    match read {
        Some(bytes) => if log_span(ptr, len) is Some && valid_utf8(bytes) {
            (0i32, Some(decode_utf8(bytes).push('\n')))
        } else {
            (-1i32, None)
        },
        None => (-1i32, None),
    }
}

/// The bytes of a module's memory that the host reads for `log(ptr, len)`.
pub fn log_range(ptr: i32, len: i32) -> (r: Option<(usize, usize)>)
    ensures
        r == log_span(ptr, len),
{
    if ptr < 0 || len < 0 {
        return None;
    }
    let from: u64 = ptr as u64;
    let to: u64 = from + len as u64;
    if to > usize::MAX as u64 {
        return None;
    }
    Some((from as usize, to as usize))
}

/// What was read of a module's memory, as plain bytes.
pub open spec fn read_view(read: Option<Vec<u8>>) -> Option<Seq<u8>> {
    match read {
        Some(bytes) => Some(bytes@),
        None => None,
    }
}

/// What the host answers to `log(ptr, len)` and the line that it appends
/// to the log, given what it read of the module's memory.
pub fn log_outcome(ptr: i32, len: i32, read: Option<Vec<u8>>) -> (r: (i32, Option<String>))
    ensures
        r.0 == log_answer(ptr, len, read_view(read)).0,
        match r.1 {
            Some(line) => log_answer(ptr, len, read_view(read)).1 == Some(line@),
            None => log_answer(ptr, len, read_view(read)).1 is None,
        },
{
    if log_range(ptr, len).is_none() {
        return (-1, None);
    }
    match read {
        None => (-1, None),
        Some(bytes) => match log_line(bytes) {
            None => (-1, None),
            Some(line) => (0, Some(line)),
        },
    }
}

/// The host function `log(ptr, len)`: reads the bytes that `log_range`
/// names of the calling module's memory, answers what `log_outcome` says
/// of them, and appends the line that it gives to the module's log.
pub(crate) fn host_log(
    caller: &mut wasmtime::Caller<'_, WasmInspectorData>,
    ptr: i32,
    len: i32,
) -> (r: i32)
    ensures
        exists|read: Option<Seq<u8>>| r == #[trigger] log_answer(ptr, len, read).0,
        log_span(ptr, len) is None ==> r == -1,
{
    let read = match log_range(ptr, len) {
        Some((from, to)) => guest_bytes(caller, "memory", from, to),
        None => None,
    };
    let ghost bytes = read_view(read);
    let (status, line) = log_outcome(ptr, len, read);
    assert(status == log_answer(ptr, len, bytes).0);
    match line {
        Some(text) => {
            append_log(caller, text.as_str());
        },
        None => {},
    }
    status
}

/// The length of a packet as a module is told it: none for a packet of
/// more than `i32::MAX` bytes, which no module is asked about.
pub open spec fn packet_len(len: nat) -> Option<i32> {
    if len <= i32::MAX {
        Some(len as i32)
    } else {
        None
    }
}

/// Where a packet is written in the memory of a module, and what the module
/// is told of it. `allocation` is none for a module that exports no
/// `allocate`: the packet goes to the fixed offset. Else it holds what
/// `allocate` answered, or none where it failed: the packet goes where it
/// answered, and nowhere where it failed or answered a negative number.
pub open spec fn packet_ptr(allocation: Option<Option<i32>>) -> Option<i32> {
    match allocation {
        None => Some(FIXED_PACKET_OFFSET),
        Some(None) => None,
        Some(Some(place)) => if place >= 0 {
            Some(place)
        } else {
            None
        },
    }
}

/// The length of a packet of `len` bytes as a module is told it.
pub fn packet_length(len: usize) -> (r: Option<i32>)
    ensures
        r == packet_len(len as nat),
{
    if len > i32::MAX as usize {
        None
    } else {
        Some(len as i32)
    }
}

/// Where a packet is written in the memory of a module, given what the
/// `allocate` of the module answered, if it has one.
pub fn packet_pointer(allocation: Option<Option<i32>>) -> (r: Option<i32>)
    ensures
        r == packet_ptr(allocation),
        r matches Some(ptr) ==> ptr >= 0,
{
    match allocation {
        None => Some(FIXED_PACKET_OFFSET),
        Some(None) => None,
        Some(Some(place)) => if place >= 0 {
            Some(place)
        } else {
            None
        },
    }
}

/// One inspection module and its sandbox.
pub struct WasmInspector {
    id: String,
    path: String,
    state: WasmModuleState,
    loaded_at: u64,
    engine: wasmtime::Engine,
    store: Option<wasmtime::Store<WasmInspectorData>>,
    log: String,
    processed_packets: u64,
    blocked_packets: u64,
}

impl View for WasmInspector {
    type V = InspectorView;

    closed spec fn view(&self) -> InspectorView {
        InspectorView {
            id: self.id@,
            path: self.path@,
            state: self.state,
            loaded_at: self.loaded_at,
            processed_packets: self.processed_packets,
            blocked_packets: self.blocked_packets,
        }
    }
}

impl WasmInspector {
    /// The text that the module has logged and that was not taken out yet:
    /// one line for each call of the host's `log` that went through.
    pub closed spec fn logged(&self) -> Seq<char> {
        self.log@
    }

    /// Whether the module has a sandbox to run in. It has one from a load
    /// that went through until a load fails.
    pub closed spec fn sandboxed(&self) -> bool {
        self.store is Some
    }

    /// A module named `id` whose bytes are in the file `path`, not loaded
    /// yet: without sandbox, and with nothing logged. Fails with
    /// `WasmLoadError` where the runtime gives no engine.
    pub fn new(id: &str, path: &str) -> (r: Result<WasmInspector, GuardError>)
        ensures
            match r {
                Ok(inspector) => inspector@ == InspectorView::fresh(id@, path@)
                    && !inspector.sandboxed() && inspector.logged() == Seq::<char>::empty(),
                Err(e) => e == GuardError::WasmLoadError,
            },
    {
        match new_engine(MEMORY_RESERVE, MEMORY_RESERVE, MEMORY_RESERVE) {
            Ok(engine) => Ok(
                WasmInspector {
                    id: String::from_str(id),
                    path: String::from_str(path),
                    state: WasmModuleState::Initialized,
                    loaded_at: 0,
                    engine,
                    store: None,
                    log: String::new(),
                    processed_packets: 0,
                    blocked_packets: 0,
                },
            ),
            Err(_) => Err(GuardError::WasmLoadError),
        }
    }

    /// Compiles and instantiates the module `wasm_bytes` in a new sandbox,
    /// asks whether it exports its memory and its entry point, and runs its
    /// `init` where it has one. Returns the step that failed, if one did:
    /// for the exports the step that `check_exports` names, for `init` the
    /// one that `check_init` names. The new sandbox takes the place of the
    /// old one where no step failed, and is dropped where one did. What the
    /// module logged on the way is added to what was logged.
    fn try_load(&mut self, wasm_bytes: &[u8]) -> (failed: Option<LoadStep>)
        ensures
            final(self)@ == old(self)@,
            old(self).logged().is_prefix_of(final(self).logged()),
            failed is None ==> final(self).sandboxed(),
            failed is Some ==> final(self).sandboxed() == old(self).sandboxed(),
    {
        let module = match compile(&self.engine, wasm_bytes) {
            Ok(module) => module,
            Err(_) => {
                return Some(LoadStep::Compile);
            },
        };
        let mut store = new_store(
            &self.engine,
            WasmInspectorData { log_buffer: String::new(), instance: None },
        );
        let failed = match set_fuel(&mut store, FUEL_PER_CALL) {
            Err(_) => Some(LoadStep::Instantiate),
            Ok(()) => match instantiate(&mut store, &module, "env", "log") {
                Err(_) => Some(LoadStep::Instantiate),
                Ok(()) => {
                    let memory = has_memory(&mut store, "memory");
                    let entry_point = has_binary(&mut store, "inspect_packet");
                    match check_exports(memory, entry_point) {
                        Some(step) => Some(step),
                        None => {
                            let init = if has_procedure(&mut store, "init") {
                                match set_fuel(&mut store, FUEL_PER_CALL) {
                                    Err(_) => Some(false),
                                    Ok(()) => match call_procedure(&mut store, "init") {
                                        Err(_) => Some(false),
                                        Ok(()) => Some(true),
                                    },
                                }
                            } else {
                                None
                            };
                            check_init(init)
                        },
                    }
                },
            },
        };
        let text = take_log(&mut store);
        self.log.append(text.as_str());
        assert(old(self).logged().is_prefix_of(old(self).logged() + text@));
        if failed.is_none() {
            self.store = Some(store);
        }
        failed
    }

    /// Ends a load at `now` that failed at `failed`, or went through where
    /// that is none: the module is `Loaded` after a load that went through
    /// and in state `Error` after one that failed, which also takes its
    /// sandbox away. A module without its memory or its entry point fails
    /// with `WasmMissingExport`, any other with `WasmLoadError`.
    pub fn finish_load(&mut self, failed: Option<LoadStep>, now: u64) -> (r: Result<(), GuardError>)
        ensures
            (r, final(self)@) == old(self)@.after_load(failed, now),
            final(self).logged() == old(self).logged(),
            final(self).sandboxed() == (failed is None && old(self).sandboxed()),
    {
        match failed {
            Some(step) => {
                self.state = WasmModuleState::Error;
                self.store = None;
                match step {
                    LoadStep::Memory => Err(GuardError::WasmMissingExport),
                    LoadStep::EntryPoint => Err(GuardError::WasmMissingExport),
                    _ => Err(GuardError::WasmLoadError),
                }
            },
            None => {
                self.state = WasmModuleState::Loaded;
                self.loaded_at = now;
                Ok(())
            },
        }
    }

    /// Loads the module from its bytes at `now`, in seconds since the epoch.
    /// Whether the load goes through is for the runtime to say; that it
    /// ends as `finish_load` says for some step is not, nor that the module
    /// has a sandbox just where the load went through.
    pub fn load(&mut self, wasm_bytes: &[u8], now: u64) -> (r: Result<(), GuardError>)
        ensures
            exists|failed: Option<LoadStep>|
                (r, final(self)@) == #[trigger] old(self)@.after_load(failed, now),
            final(self).sandboxed() == (r is Ok),
            old(self).logged().is_prefix_of(final(self).logged()),
    {
        let failed = self.try_load(wasm_bytes);
        self.finish_load(failed, now)
    }

    /// Hands `packet` to the module and returns the number that the module
    /// answered, or none where the module could not be asked or failed: it
    /// has no sandbox, the packet is too long, its `allocate` failed or
    /// gave no place, the packet does not fit there, or the module failed
    /// at its work. The packet goes where `packet_pointer` says. What the
    /// module logged on the way is added to what was logged.
    fn invoke(&mut self, packet: &[u8]) -> (outcome: Option<i32>)
        ensures
            final(self)@ == old(self)@,
            final(self).sandboxed() == old(self).sandboxed(),
            old(self).logged().is_prefix_of(final(self).logged()),
            !old(self).sandboxed() || packet_len(packet@.len()) is None ==> outcome is None
                && final(self).logged() == old(self).logged(),
    {
        let len: i32 = match packet_length(packet.len()) {
            Some(len) => len,
            None => {
                return None;
            },
        };
        match &mut self.store {
            None => None,
            Some(store) => {
                let outcome = match set_fuel(store, FUEL_PER_CALL) {
                    Err(_) => None,
                    Ok(()) => {
                        let allocation = if has_unary(store, "allocate") {
                            match call_unary(store, "allocate", len) {
                                Ok(place) => Some(Some(place)),
                                Err(_) => Some(None),
                            }
                        } else {
                            None
                        };
                        match packet_pointer(allocation) {
                            None => None,
                            Some(ptr) => {
                                if !write_memory(store, "memory", ptr as usize, packet) {
                                    None
                                } else {
                                    match call_binary(store, "inspect_packet", ptr, len) {
                                        Ok(raw) => Some(raw),
                                        Err(_) => None,
                                    }
                                }
                            },
                        }
                    },
                };
                let text = take_log(store);
                self.log.append(text.as_str());
                assert(old(self).logged().is_prefix_of(old(self).logged() + text@));
                outcome
            },
        }
    }

    /// Counts an invocation whose outcome was `outcome`: the number that the
    /// module returned, or none where it failed. Returns whether the packet
    /// is to be blocked; a failure is `WasmInvokeError` and counts nothing.
    pub fn account(&mut self, outcome: Option<i32>) -> (r: Result<bool, GuardError>)
        ensures
            (r, final(self)@) == old(self)@.after_invocation(outcome),
            final(self).logged() == old(self).logged(),
            final(self).sandboxed() == old(self).sandboxed(),
    {
        match outcome {
            Some(raw) => {
                let blocked = verdict_of(raw);
                if self.processed_packets < u64::MAX {
                    self.processed_packets = self.processed_packets + 1;
                }
                if blocked && self.blocked_packets < u64::MAX {
                    self.blocked_packets = self.blocked_packets + 1;
                }
                Ok(blocked)
            },
            None => Err(GuardError::WasmInvokeError),
        }
    }

    /// Asks the module about `packet`, counts its answer as `account` says,
    /// and returns what came of it. A module that is neither `Loaded` nor
    /// `Running` is not asked. One without a sandbox gives no answer, nor
    /// does any for a packet of more than `i32::MAX` bytes. What a module
    /// answers is for the module to say.
    pub fn consult(&mut self, packet: &[u8]) -> (reply: ModuleReply)
        ensures
            final(self)@ == old(self)@.after_invocation(reply.outcome()).1,
            reply is Skipped <==> !old(self)@.state.invocable(),
            !old(self).sandboxed() || packet@.len() > i32::MAX ==> !(reply is Number),
            !old(self)@.state.invocable() || !old(self).sandboxed() || packet@.len() > i32::MAX
                ==> final(self).logged() == old(self).logged(),
            final(self).sandboxed() == old(self).sandboxed(),
            old(self).logged().is_prefix_of(final(self).logged()),
    {
        if !self.state.can_invoke() {
            return ModuleReply::Skipped;
        }
        let outcome = self.invoke(packet);
        let _ = self.account(outcome);
        match outcome {
            Some(raw) => ModuleReply::Number(raw),
            None => ModuleReply::Failed,
        }
    }

    /// Asks the module whether `packet` is to be blocked. A module that is
    /// neither `Loaded` nor `Running` or has no sandbox is not asked and
    /// fails with `WasmInvokeError`, as does a packet of more than
    /// `i32::MAX` bytes. What a module answers is for the module to say;
    /// that the call ends as `account` says for some outcome is not.
    pub fn inspect_packet(&mut self, packet: &[u8]) -> (r: Result<bool, GuardError>)
        ensures
            exists|outcome: Option<i32>|
                (r, final(self)@) == #[trigger] old(self)@.after_invocation(outcome),
            !old(self)@.state.invocable() || !old(self).sandboxed() || packet@.len() > i32::MAX
                ==> r == Err::<bool, GuardError>(GuardError::WasmInvokeError) && final(self)@
                == old(self)@ && final(self).logged() == old(self).logged(),
            final(self).sandboxed() == old(self).sandboxed(),
            old(self).logged().is_prefix_of(final(self).logged()),
    {
        let reply = self.consult(packet);
        let r = match reply {
            ModuleReply::Number(raw) => Ok(verdict_of(raw)),
            _ => Err(GuardError::WasmInvokeError),
        };
        assert((r, self@) == old(self)@.after_invocation(reply.outcome()));
        r
    }

    /// The state of the module.
    pub fn state(&self) -> (r: ModuleState)
        ensures
            r == self@.state,
    {
        self.state
    }

    /// The packets that the module was asked about and answered, and those
    /// of them that it asked to block.
    pub fn stats(&self) -> (r: (u64, u64))
        ensures
            r == (self@.processed_packets, self@.blocked_packets),
    {
        (self.processed_packets, self.blocked_packets)
    }

    /// The name of the module.
    pub fn id(&self) -> (r: &str)
        ensures
            r@ == self@.id,
    {
        self.id.as_str()
    }

    /// The file that holds the module.
    pub fn path(&self) -> (r: &str)
        ensures
            r@ == self@.path,
    {
        self.path.as_str()
    }

    /// When the module was loaded, in seconds since the epoch.
    pub fn loaded_at(&self) -> (r: u64)
        ensures
            r == self@.loaded_at,
    {
        self.loaded_at
    }

    /// Takes out the text that the module has logged since this was last
    /// called: one line for each call of the host's `log` that went
    /// through. Nothing stays behind.
    pub fn drain_log(&mut self) -> (r: String)
        ensures
            r@ == old(self).logged(),
            final(self).logged() == Seq::<char>::empty(),
            final(self)@ == old(self)@,
            final(self).sandboxed() == old(self).sandboxed(),
    {
        let mut taken = String::new();
        core::mem::swap(&mut self.log, &mut taken);
        taken
    }
}

/// What is known of each of `modules` from outside.
pub open spec fn modules_view(modules: Seq<WasmInspector>) -> Seq<InspectorView> {
    Seq::new(modules.len(), |i: int| modules[i]@)
}

/// Whether `after` is what a chain of modules `before` may look like once a
/// packet went through it with the verdict `blocked`. The modules are asked
/// in order up to the first that blocks, `stop`; the chain stops there.
/// One that is asked and answers is counted; one that is not in a state to
/// be asked, or fails, stays as it was.
pub open spec fn chain_step(
    before: Seq<InspectorView>,
    after: Seq<InspectorView>,
    blocked: bool,
    stop: int,
) -> bool {
    &&& after.len() == before.len()
    &&& 0 <= stop <= before.len()
    &&& blocked == (stop < before.len())
    &&& forall|i: int|
        0 <= i < stop ==> #[trigger] after[i] == before[i] || (before[i].state.invocable()
            && after[i] == before[i].counted(false))
    &&& stop < before.len() ==> before[stop].state.invocable() && after[stop] == before[stop].counted(
        true,
    )
    &&& forall|i: int| stop < i < before.len() ==> #[trigger] after[i] == before[i]
}

/// Whether `replies` is what a chain of modules `before` may reply to one
/// packet. The modules are asked in order up to the first whose reply asks
/// to block, `stop`; the chain stops there. Of those up to `stop`, one is
/// passed over just where it is neither `Loaded` nor `Running`; those after
/// `stop` are not asked.
pub open spec fn chain_replies(
    before: Seq<InspectorView>,
    replies: Seq<ModuleReply>,
    stop: int,
) -> bool {
    &&& replies.len() == before.len()
    &&& 0 <= stop <= before.len()
    &&& forall|i: int| 0 <= i < stop ==> !(#[trigger] replies[i]).blocking()
    &&& forall|i: int|
        0 <= i < stop ==> (#[trigger] replies[i] is Skipped <==> !before[i].state.invocable())
    &&& stop < before.len() ==> replies[stop].blocking() && before[stop].state.invocable()
    &&& forall|i: int| stop < i < before.len() ==> #[trigger] replies[i] is Skipped
}

/// The chain of modules `before` after it gave `replies`: each module that
/// returned a number has counted it, and the others are as they were.
pub open spec fn chain_after(before: Seq<InspectorView>, replies: Seq<ModuleReply>) -> Seq<
    InspectorView,
> {
    Seq::new(before.len(), |i: int| before[i].after_invocation(replies[i].outcome()).1)
}

/// A chain that replied is a chain that took the step that its replies
/// describe.
pub proof fn lemma_replies_are_a_step(
    before: Seq<InspectorView>,
    replies: Seq<ModuleReply>,
    stop: int,
)
    requires
        chain_replies(before, replies, stop),
    ensures
        chain_step(before, chain_after(before, replies), stop < before.len(), stop),
{
    let after = chain_after(before, replies);
    assert forall|i: int| 0 <= i < stop implies #[trigger] after[i] == before[i] || (
    before[i].state.invocable() && after[i] == before[i].counted(false)) by {
        assert(!replies[i].blocking());
        assert(replies[i] is Skipped <==> !before[i].state.invocable());
    }
    assert forall|i: int| stop < i < before.len() implies #[trigger] after[i] == before[i] by {
        assert(replies[i] is Skipped);
    }
}

/// The least index of a module named `id` in `modules`, or their number
/// where none has the name.
pub open spec fn module_index(modules: Seq<InspectorView>, id: Seq<char>) -> int
    decreases modules.len(),
{
    if modules.len() == 0 || modules[0].id == id {
        0
    } else {
        1 + module_index(modules.drop_first(), id)
    }
}

/// `module_index` gives the first module with the name.
pub proof fn lemma_module_index(modules: Seq<InspectorView>, id: Seq<char>)
    ensures
        0 <= module_index(modules, id) <= modules.len(),
        forall|j: int| 0 <= j < module_index(modules, id) ==> modules[j].id != id,
        module_index(modules, id) < modules.len() ==> modules[module_index(modules, id)].id == id,
    decreases modules.len(),
{
    if modules.len() == 0 || modules[0].id == id {
    } else {
        let rest = modules.drop_first();
        lemma_module_index(rest, id);
        assert forall|j: int| 0 <= j < module_index(modules, id) implies modules[j].id != id by {
            if j > 0 {
                assert(modules[j] == rest[j - 1]);
            }
        }
        if module_index(modules, id) < modules.len() {
            assert(modules[module_index(modules, id)] == rest[module_index(rest, id)]);
        }
    }
}

/// An index before which no module has the name, and at which one has it
/// unless the index is the number of modules, is what `module_index` gives.
pub proof fn lemma_module_index_is(modules: Seq<InspectorView>, id: Seq<char>, i: int)
    requires
        0 <= i <= modules.len(),
        forall|j: int| 0 <= j < i ==> modules[j].id != id,
        i < modules.len() ==> modules[i].id == id,
    ensures
        module_index(modules, id) == i,
{
    lemma_module_index(modules, id);
    let k = module_index(modules, id);
    if k < i {
        assert(modules[k].id == id);
    } else if i < k {
        assert(modules[i].id == id);
    }
}

/// A module without its entry point never becomes `Loaded`: its load fails
/// with `WasmMissingExport` and leaves it in state `Error`.
pub proof fn lemma_missing_entry_point(module: InspectorView, now: u64)
    ensures
        module.after_load(Some(LoadStep::EntryPoint), now).0 == Err::<(), GuardError>(
            GuardError::WasmMissingExport,
        ),
        module.after_load(Some(LoadStep::EntryPoint), now).1.state == WasmModuleState::Error,
        !module.after_load(Some(LoadStep::EntryPoint), now).1.state.invocable(),
{
}

/// A load ends in `Loaded` if and only if it went through.
pub proof fn lemma_loaded_iff_ok(module: InspectorView, failed: Option<LoadStep>, now: u64)
    ensures
        module.after_load(failed, now).0 is Ok <==> module.after_load(failed, now).1.state
            == WasmModuleState::Loaded,
        module.after_load(failed, now).0 is Err <==> module.after_load(failed, now).1.state
            == WasmModuleState::Error,
{
}

/// The modules of the sandbox host, in the order of their insertion.
pub struct WasmManager {
    inspectors: Vec<WasmInspector>,
}

impl View for WasmManager {
    type V = Seq<InspectorView>;

    closed spec fn view(&self) -> Seq<InspectorView> {
        modules_view(self.inspectors@)
    }
}

impl WasmManager {
    /// Whether module `i` has its sandbox.
    pub closed spec fn sandboxed(&self, i: int) -> bool {
        self.inspectors@[i].sandboxed()
    }

    /// The text that module `i` has logged and that was not taken out yet.
    pub closed spec fn logged(&self, i: int) -> Seq<char> {
        self.inspectors@[i].logged()
    }

    /// Whether the first `n` modules of `after` have the sandboxes and the
    /// logs that they have in `self`.
    pub open spec fn kept_in(&self, after: &WasmManager, n: int) -> bool {
        forall|i: int|
            0 <= i < n ==> #[trigger] after.sandboxed(i) == self.sandboxed(i) && after.logged(i)
                == self.logged(i)
    }

    /// A host without modules.
    pub fn new() -> (r: WasmManager)
        ensures
            r@.len() == 0,
    {
        WasmManager { inspectors: Vec::new() }
    }

    /// The number of modules.
    pub fn len(&self) -> (r: usize)
        ensures
            r == self@.len(),
    {
        self.inspectors.len()
    }

    /// Makes a module named `id` for the file `path`, loads it from
    /// `wasm_bytes`, and puts it last, with its sandbox. Where the load
    /// fails the host stays without the module. The modules that were
    /// there keep their sandboxes and their logs.
    pub fn load_module(&mut self, id: &str, path: &str, wasm_bytes: &[u8], now: u64) -> (r:
        Result<(), GuardError>)
        ensures
            match r {
                Ok(()) => final(self)@ == old(self)@.push(
                    InspectorView {
                        state: WasmModuleState::Loaded,
                        loaded_at: now,
                        ..InspectorView::fresh(id@, path@)
                    },
                ) && final(self).sandboxed(old(self)@.len() as int),
                Err(e) => final(self)@ == old(self)@ && (e == GuardError::WasmLoadError || e
                    == GuardError::WasmMissingExport),
            },
            old(self).kept_in(final(self), old(self)@.len() as int),
    {
        let mut inspector = match WasmInspector::new(id, path) {
            Ok(inspector) => inspector,
            Err(e) => {
                return Err(e);
            },
        };
        match inspector.load(wasm_bytes, now) {
            Ok(()) => {},
            Err(e) => {
                return Err(e);
            },
        }
        self.inspectors.push(inspector);
        assert(self@ =~= old(self)@.push(inspector@));
        assert forall|i: int| 0 <= i < old(self)@.len() implies #[trigger] self.sandboxed(i) == old(
            self,
        ).sandboxed(i) && self.logged(i) == old(self).logged(i) by {
            assert(self.inspectors@[i] == old(self).inspectors@[i]);
        }
        Ok(())
    }

    /// The index of the first module named `id`, or the number of modules
    /// where none has the name.
    pub fn find_module(&self, id: &str) -> (r: usize)
        ensures
            r == module_index(self@, id@),
            r <= self@.len(),
    {
        let mut i: usize = 0;
        while i < self.inspectors.len()
            invariant
                i <= self.inspectors.len(),
                forall|j: int| 0 <= j < i ==> self@[j].id != id@,
            decreases self.inspectors.len() - i,
        {
            if same_text(self.inspectors[i].id(), id) {
                proof {
                    lemma_module_index_is(self@, id@, i as int);
                }
                return i;
            }
            i += 1;
        }
        proof {
            lemma_module_index_is(self@, id@, i as int);
        }
        i
    }

    /// Takes the first module named `id` out of the host and drops it with
    /// its sandbox and its log. Fails with `NotFound` where no module has
    /// the name. The other modules keep their sandboxes and their logs.
    pub fn unload_module(&mut self, id: &str) -> (r: Result<(), GuardError>)
        ensures
            match r {
                Ok(()) => {
                    let k = module_index(old(self)@, id@);
                    &&& k < old(self)@.len()
                    &&& final(self)@ == old(self)@.remove(k)
                    &&& old(self).kept_in(final(self), k)
                    &&& forall|i: int|
                        k <= i < final(self)@.len() ==> #[trigger] final(self).sandboxed(i) == old(
                            self,
                        ).sandboxed(i + 1) && final(self).logged(i) == old(self).logged(i + 1)
                },
                Err(e) => module_index(old(self)@, id@) == old(self)@.len() && e == GuardError::NotFound
                    && final(self)@ == old(self)@ && old(self).kept_in(
                    final(self),
                    old(self)@.len() as int,
                ),
            },
    {
        let i = self.find_module(id);
        if i >= self.inspectors.len() {
            return Err(GuardError::NotFound);
        }
        let _ = self.inspectors.remove(i);
        assert(self@ =~= old(self)@.remove(i as int));
        assert forall|k: int| 0 <= k < i implies #[trigger] self.sandboxed(k) == old(
            self,
        ).sandboxed(k) && self.logged(k) == old(self).logged(k) by {
            assert(self.inspectors@[k] == old(self).inspectors@[k]);
        }
        assert forall|k: int| i <= k < self@.len() implies #[trigger] self.sandboxed(k) == old(
            self,
        ).sandboxed(k + 1) && self.logged(k) == old(self).logged(k + 1) by {
            assert(self.inspectors@[k] == old(self).inspectors@[k + 1]);
        }
        Ok(())
    }

    /// Takes out the text that the module at `index` has logged since this
    /// was last called; none where there is no such module. Nothing else
    /// changes.
    pub fn drain_log(&mut self, index: usize) -> (r: Option<String>)
        ensures
            final(self)@ == old(self)@,
            match r {
                Some(text) => index < old(self)@.len() && text@ == old(self).logged(index as int)
                    && final(self).logged(index as int) == Seq::<char>::empty(),
                None => index >= old(self)@.len(),
            },
            forall|i: int|
                0 <= i < old(self)@.len() ==> #[trigger] final(self).sandboxed(i) == old(
                    self,
                ).sandboxed(i),
            forall|i: int|
                0 <= i < old(self)@.len() && i != index ==> #[trigger] final(self).logged(i)
                    == old(self).logged(i),
    {
        if index >= self.inspectors.len() {
            return None;
        }
        let ghost before = self.inspectors@;
        let text = self.inspectors[index].drain_log();
        proof {
            assert(self.inspectors@ == before.update(index as int, self.inspectors@[index as int]));
            assert(self@ =~= old(self)@);
            assert forall|i: int| 0 <= i < old(self)@.len() implies #[trigger] self.sandboxed(i)
                == old(self).sandboxed(i) by {
                if i != index {
                    assert(self.inspectors@[i] == before[i]);
                }
            }
            assert forall|i: int| 0 <= i < old(self)@.len() && i != index implies #[trigger]
                self.logged(i) == old(self).logged(i) by {
                assert(self.inspectors@[i] == before[i]);
            }
        }
        Some(text)
    }

    /// The packets that the first module named `id` answered, and those of
    /// them that it asked to block; none where no module has the name.
    pub fn module_stats(&self, id: &str) -> (r: Option<(u64, u64)>)
        ensures
            match r {
                Some(counts) => module_index(self@, id@) < self@.len() && counts == (
                    self@[module_index(self@, id@)].processed_packets,
                    self@[module_index(self@, id@)].blocked_packets,
                ),
                None => module_index(self@, id@) == self@.len(),
            },
    {
        let i = self.find_module(id);
        if i >= self.inspectors.len() {
            None
        } else {
            Some(self.inspectors[i].stats())
        }
    }

    /// Asks the modules in the order of their insertion about `packet`,
    /// stops at the first that asks to block, and returns whether one did
    /// together with what came of each module. A module that is neither
    /// `Loaded` nor `Running` is passed over, and one that gives no answer
    /// counts as one that lets the packet through. Every module keeps its
    /// sandbox. A module that is asked may log; one that is not asked, or
    /// has no sandbox, logs nothing.
    pub fn consult(&mut self, packet: &[u8]) -> (r: (bool, Vec<ModuleReply>))
        ensures
            exists|stop: int|
                #[trigger] chain_replies(old(self)@, r.1@, stop) && r.0 == (stop < old(self)@.len()),
            final(self)@ == chain_after(old(self)@, r.1@),
            forall|i: int|
                0 <= i < old(self)@.len() ==> #[trigger] final(self).sandboxed(i) == old(
                    self,
                ).sandboxed(i),
            forall|i: int|
                0 <= i < old(self)@.len() ==> old(self).logged(i).is_prefix_of(
                    #[trigger] final(self).logged(i),
                ),
            forall|i: int|
                0 <= i < old(self)@.len() && (r.1@[i] is Skipped || !old(self).sandboxed(i))
                    ==> #[trigger] final(self).logged(i) == old(self).logged(i),
            forall|i: int|
                0 <= i < old(self)@.len() && !old(self).sandboxed(i) ==> !(
                #[trigger] r.1@[i] is Number),
    {
        let n = self.inspectors.len();
        let mut replies: Vec<ModuleReply> = Vec::new();
        while replies.len() < n
            invariant
                replies@.len() <= n,
                forall|k: int| 0 <= k < replies@.len() ==> #[trigger] replies@[k] is Skipped,
            decreases n - replies@.len(),
        {
            replies.push(ModuleReply::Skipped);
        }
        let mut i: usize = 0;
        while i < n
            invariant
                i <= n,
                n == self.inspectors@.len(),
                n == old(self).inspectors@.len(),
                replies@.len() == n,
                self@.len() == old(self)@.len(),
                forall|k: int| 0 <= k < i ==> !(#[trigger] replies@[k]).blocking(),
                forall|k: int|
                    0 <= k < i ==> (#[trigger] replies@[k] is Skipped <==> !old(
                        self,
                    )@[k].state.invocable()),
                forall|k: int| i <= k < n ==> #[trigger] replies@[k] is Skipped,
                forall|k: int|
                    0 <= k < n ==> #[trigger] self@[k] == old(self)@[k].after_invocation(
                        replies@[k].outcome(),
                    ).1,
                forall|k: int|
                    i <= k < n ==> #[trigger] self.inspectors@[k] == old(self).inspectors@[k],
                forall|k: int| 0 <= k < n ==> #[trigger] self.sandboxed(k) == old(self).sandboxed(k),
                forall|k: int|
                    0 <= k < n ==> old(self).logged(k).is_prefix_of(#[trigger] self.logged(k)),
                forall|k: int|
                    0 <= k < n && (replies@[k] is Skipped || !old(self).sandboxed(k))
                        ==> #[trigger] self.logged(k) == old(self).logged(k),
                forall|k: int|
                    0 <= k < n && !old(self).sandboxed(k) ==> !(#[trigger] replies@[k] is Number),
            decreases n - i,
        {
            let ghost before_vec = self.inspectors@;
            let ghost before_self = *self;
            let ghost before_replies = replies@;
            let reply = self.inspectors[i].consult(packet);
            replies.set(i, reply);
            proof {
                assert(self.inspectors@ == before_vec.update(i as int, self.inspectors@[i as int]));
                assert(before_vec[i as int] == old(self).inspectors@[i as int]);
                assert(old(self)@[i as int] == old(self).inspectors@[i as int]@);
                assert(self@[i as int] == self.inspectors@[i as int]@);
                assert forall|k: int| 0 <= k < n implies #[trigger] self@[k] == old(
                    self,
                )@[k].after_invocation(replies@[k].outcome()).1 by {
                    if k != i {
                        assert(self.inspectors@[k] == before_vec[k]);
                        assert(before_self@[k] == before_vec[k]@);
                        assert(replies@[k] == before_replies[k]);
                    }
                }
                assert forall|k: int| 0 <= k < n implies #[trigger] self.sandboxed(k) == old(
                    self,
                ).sandboxed(k) by {
                    if k != i {
                        assert(self.inspectors@[k] == before_vec[k]);
                        assert(before_self.sandboxed(k) == old(self).sandboxed(k));
                    }
                }
                assert forall|k: int| 0 <= k < n implies old(self).logged(k).is_prefix_of(
                    #[trigger] self.logged(k),
                ) by {
                    if k != i {
                        assert(self.inspectors@[k] == before_vec[k]);
                        assert(old(self).logged(k).is_prefix_of(before_self.logged(k)));
                    }
                }
                assert forall|k: int|
                    0 <= k < n && (replies@[k] is Skipped || !old(self).sandboxed(
                        k,
                    )) implies #[trigger] self.logged(k) == old(self).logged(k) by {
                    if k != i {
                        assert(self.inspectors@[k] == before_vec[k]);
                        assert(replies@[k] == before_replies[k]);
                        assert(before_self.logged(k) == old(self).logged(k));
                    }
                }
                assert forall|k: int| 0 <= k < n && !old(self).sandboxed(k) implies !(
                #[trigger] replies@[k] is Number) by {
                    if k != i {
                        assert(replies@[k] == before_replies[k]);
                    }
                }
                assert forall|k: int| i < k < n implies #[trigger] self.inspectors@[k] == old(
                    self,
                ).inspectors@[k] by {
                    assert(self.inspectors@[k] == before_vec[k]);
                }
                assert forall|k: int| i < k < n implies #[trigger] replies@[k] is Skipped by {
                    assert(replies@[k] == before_replies[k]);
                }
                assert forall|k: int| 0 <= k < i implies !(#[trigger] replies@[k]).blocking() by {
                    assert(replies@[k] == before_replies[k]);
                }
                assert forall|k: int| 0 <= k < i implies (#[trigger] replies@[k] is Skipped <==> !old(
                    self,
                )@[k].state.invocable()) by {
                    assert(replies@[k] == before_replies[k]);
                }
            }
            if reply.is_blocking() {
                assert(chain_replies(old(self)@, replies@, i as int));
                assert(self@ =~= chain_after(old(self)@, replies@));
                return (true, replies);
            }
            i += 1;
        }
        assert(chain_replies(old(self)@, replies@, n as int));
        assert(self@ =~= chain_after(old(self)@, replies@));
        (false, replies)
    }

    /// Asks the modules in the order of their insertion whether `packet` is
    /// to be blocked, and stops at the first that says so. A module that is
    /// neither `Loaded` nor `Running` is passed over, and one that fails
    /// counts as one that lets the packet through. Every module keeps its
    /// sandbox. A module that is asked may log; one that is not asked,
    /// because the chain stopped before it or because it is in no state to
    /// be asked or has no sandbox, logs nothing.
    pub fn inspect_packet(&mut self, packet: &[u8]) -> (blocked: bool)
        ensures
            exists|stop: int|
                #[trigger] chain_step(old(self)@, final(self)@, blocked, stop) && forall|i: int|
                    stop < i < old(self)@.len() ==> #[trigger] final(self).logged(i) == old(
                        self,
                    ).logged(i),
            forall|i: int|
                0 <= i < old(self)@.len() ==> #[trigger] final(self).sandboxed(i) == old(
                    self,
                ).sandboxed(i),
            forall|i: int|
                0 <= i < old(self)@.len() ==> old(self).logged(i).is_prefix_of(
                    #[trigger] final(self).logged(i),
                ),
            forall|i: int|
                0 <= i < old(self)@.len() && (!old(self)@[i].state.invocable() || !old(
                    self,
                ).sandboxed(i)) ==> #[trigger] final(self).logged(i) == old(self).logged(i),
            forall|i: int|
                0 <= i < old(self)@.len() && (!old(self)@[i].state.invocable() || !old(
                    self,
                ).sandboxed(i)) ==> #[trigger] final(self)@[i] == old(self)@[i],
    {
        let (blocked, replies) = self.consult(packet);
        proof {
            let stop = choose|stop: int|
                #[trigger] chain_replies(old(self)@, replies@, stop) && blocked == (stop < old(
                    self,
                )@.len());
            lemma_replies_are_a_step(old(self)@, replies@, stop);
            assert forall|i: int| stop < i < old(self)@.len() implies #[trigger] self.logged(i)
                == old(self).logged(i) by {
                assert(replies@[i] is Skipped);
            }
            assert forall|i: int|
                0 <= i < old(self)@.len() && (!old(self)@[i].state.invocable() || !old(
                    self,
                ).sandboxed(i)) implies #[trigger] self.logged(i) == old(self).logged(i) by {
                if !old(self)@[i].state.invocable() {
                    if i < stop {
                        assert(replies@[i] is Skipped <==> !old(self)@[i].state.invocable());
                    } else if i > stop {
                        assert(replies@[i] is Skipped);
                    }
                }
            }
            assert forall|i: int|
                0 <= i < old(self)@.len() && (!old(self)@[i].state.invocable() || !old(
                    self,
                ).sandboxed(i)) implies #[trigger] self@[i] == old(self)@[i] by {
                if !old(self)@[i].state.invocable() {
                    if i < stop {
                        assert(replies@[i] is Skipped <==> !old(self)@[i].state.invocable());
                    } else if i > stop {
                        assert(replies@[i] is Skipped);
                    }
                } else {
                    assert(!(replies@[i] is Number));
                }
            }
        }
        blocked
    }

    /// The name, state and counters of each module, in the order of their insertion.
    pub fn list_modules(&self) -> (r: Vec<(String, ModuleState, u64, u64)>)
        ensures
            r@.len() == self@.len(),
            forall|i: int|
                0 <= i < r@.len() ==> {
                    &&& (#[trigger] r@[i]).0@ == self@[i].id
                    &&& r@[i].1 == self@[i].state
                    &&& r@[i].2 == self@[i].processed_packets
                    &&& r@[i].3 == self@[i].blocked_packets
                },
    {
        let mut result: Vec<(String, ModuleState, u64, u64)> = Vec::new();
        let mut i: usize = 0;
        while i < self.inspectors.len()
            invariant
                i <= self.inspectors.len(),
                result@.len() == i,
                forall|k: int|
                    0 <= k < i ==> {
                        &&& (#[trigger] result@[k]).0@ == self@[k].id
                        &&& result@[k].1 == self@[k].state
                        &&& result@[k].2 == self@[k].processed_packets
                        &&& result@[k].3 == self@[k].blocked_packets
                    },
            decreases self.inspectors.len() - i,
        {
            let inspector = &self.inspectors[i];
            let (processed, blocked) = inspector.stats();
            result.push((String::from_str(inspector.id()), inspector.state(), processed, blocked));
            i += 1;
        }
        result
    }

    /// The module at `index`, in the order of insertion, with its sandbox
    /// and its log.
    pub fn module(&self, index: usize) -> (r: Option<&WasmInspector>)
        ensures
            match r {
                Some(inspector) => index < self@.len() && inspector@ == self@[index as int]
                    && inspector.sandboxed() == self.sandboxed(index as int) && inspector.logged()
                    == self.logged(index as int),
                None => index >= self@.len(),
            },
    {
        if index < self.inspectors.len() {
            Some(&self.inspectors[index])
        } else {
            None
        }
    }
}

impl Default for WasmManager {
    fn default() -> (r: WasmManager)
        ensures
            r@.len() == 0,
    {
        WasmManager::new()
    }
}

} // verus!
