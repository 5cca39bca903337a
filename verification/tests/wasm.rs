use swift_guard::error::GuardError;
use swift_guard::types::WasmModuleState;
use swift_guard::wasm::{
    check_exports, check_init, log_line, log_outcome, log_range, packet_length, packet_pointer,
    verdict_of, LoadStep, ModuleReply, WasmInspector, WasmManager,
};

const BINARY: u8 = 0;
const UNARY: u8 = 1;
const PROCEDURE: u8 = 2;

fn leb(mut n: u32) -> Vec<u8> {
    let mut out = Vec::new();
    loop {
        let byte = (n & 0x7f) as u8;
        n >>= 7;
        if n == 0 {
            out.push(byte);
            return out;
        }
        out.push(byte | 0x80);
    }
}

fn name(s: &str) -> Vec<u8> {
    let mut out = leb(s.len() as u32);
    out.extend_from_slice(s.as_bytes());
    out
}

fn section(id: u8, count: usize, items: Vec<u8>) -> Vec<u8> {
    let mut content = leb(count as u32);
    content.extend(items);
    let mut out = vec![id];
    out.extend(leb(content.len() as u32));
    out.extend(content);
    out
}

struct Wasm {
    imports: Vec<(String, String, u8)>,
    funcs: Vec<(u8, Vec<u8>)>,
    memory: bool,
    exports: Vec<(String, u8, u32)>,
    data: Vec<(u32, Vec<u8>)>,
}

impl Wasm {
    fn new() -> Wasm {
        Wasm { imports: Vec::new(), funcs: Vec::new(), memory: true, exports: Vec::new(), data: Vec::new() }
    }

    fn import(mut self, module: &str, field: &str, ty: u8) -> Wasm {
        self.imports.push((module.to_string(), field.to_string(), ty));
        self
    }

    fn func(mut self, export: Option<&str>, ty: u8, body: &[u8]) -> Wasm {
        let index = (self.imports.len() + self.funcs.len()) as u32;
        self.funcs.push((ty, body.to_vec()));
        if let Some(n) = export {
            self.exports.push((n.to_string(), 0, index));
        }
        self
    }

    fn memory(mut self, export: Option<&str>) -> Wasm {
        if let Some(n) = export {
            self.exports.push((n.to_string(), 2, 0));
        }
        self.memory = true;
        self
    }

    fn data(mut self, offset: u32, bytes: &[u8]) -> Wasm {
        self.data.push((offset, bytes.to_vec()));
        self
    }

    fn build(self) -> Vec<u8> {
        let mut out = vec![0x00, 0x61, 0x73, 0x6d, 0x01, 0x00, 0x00, 0x00];
        let types: Vec<u8> = vec![
            0x60, 0x02, 0x7f, 0x7f, 0x01, 0x7f, 0x60, 0x01, 0x7f, 0x01, 0x7f, 0x60, 0x00, 0x00,
        ];
        out.extend(section(1, 3, types));
        if !self.imports.is_empty() {
            let mut items = Vec::new();
            for (module, field, ty) in &self.imports {
                items.extend(name(module));
                items.extend(name(field));
                items.push(0x00);
                items.push(*ty);
            }
            out.extend(section(2, self.imports.len(), items));
        }
        let mut items = Vec::new();
        for (ty, _) in &self.funcs {
            items.push(*ty);
        }
        out.extend(section(3, self.funcs.len(), items));
        if self.memory {
            out.extend(section(5, 1, vec![0x00, 0x01]));
        }
        let mut items = Vec::new();
        for (n, kind, index) in &self.exports {
            items.extend(name(n));
            items.push(*kind);
            items.extend(leb(*index));
        }
        out.extend(section(7, self.exports.len(), items));
        let mut items = Vec::new();
        for (_, body) in &self.funcs {
            items.extend(leb(body.len() as u32 + 1));
            items.push(0x00);
            items.extend_from_slice(body);
        }
        out.extend(section(10, self.funcs.len(), items));
        if !self.data.is_empty() {
            let mut items = Vec::new();
            for (offset, bytes) in &self.data {
                items.push(0x00);
                items.push(0x41);
                items.extend(leb(*offset));
                items.push(0x0b);
                items.extend(leb(bytes.len() as u32));
                items.extend_from_slice(bytes);
            }
            out.extend(section(11, self.data.len(), items));
        }
        out
    }
}

// local.get 0; i32.load8_u; end
const FIRST_BYTE_AT_PTR: [u8; 6] = [0x20, 0x00, 0x2d, 0x00, 0x00, 0x0b];
// i32.const 1024; i32.load8_u; end
const FIRST_BYTE_AT_1024: [u8; 7] = [0x41, 0x80, 0x08, 0x2d, 0x00, 0x00, 0x0b];
// i32.const 2048; i32.load8_u; end
const FIRST_BYTE_AT_2048: [u8; 7] = [0x41, 0x80, 0x10, 0x2d, 0x00, 0x00, 0x0b];
// local.get 1; end
const LENGTH: [u8; 3] = [0x20, 0x01, 0x0b];
// i32.const 2048; end
const CONST_2048: [u8; 4] = [0x41, 0x80, 0x10, 0x0b];
// i32.const -1; end
const CONST_MINUS_1: [u8; 3] = [0x41, 0x7f, 0x0b];
// i32.const 0; end
const CONST_0: [u8; 3] = [0x41, 0x00, 0x0b];
// i32.const 1; end
const CONST_1: [u8; 3] = [0x41, 0x01, 0x0b];
// i32.const 7; end
const CONST_7: [u8; 3] = [0x41, 0x07, 0x0b];
// loop; br 0; end; i32.const 0; end
const SPIN: [u8; 8] = [0x03, 0x40, 0x0c, 0x00, 0x0b, 0x41, 0x00, 0x0b];
// unreachable; end
const TRAP: [u8; 2] = [0x00, 0x0b];
// i32.const 0; i32.const 1; i32.store8; end
const SET_BYTE_0: [u8; 8] = [0x41, 0x00, 0x41, 0x01, 0x3a, 0x00, 0x00, 0x0b];
// i32.const 0; i32.load8_u; end
const BYTE_0: [u8; 6] = [0x41, 0x00, 0x2d, 0x00, 0x00, 0x0b];

fn first_byte_module() -> Vec<u8> {
    Wasm::new().memory(Some("memory")).func(Some("inspect_packet"), BINARY, &FIRST_BYTE_AT_PTR).build()
}

fn constant_module(body: &[u8]) -> Vec<u8> {
    Wasm::new().memory(Some("memory")).func(Some("inspect_packet"), BINARY, body).build()
}

// calls log(16, len) and returns its result plus 2: 2 where the host logged, 1 where it refused
fn logging_module(text: &[u8], len: u8) -> Vec<u8> {
    let body = [0x41, 0x10, 0x41, len, 0x10, 0x00, 0x41, 0x02, 0x6a, 0x0b];
    Wasm::new()
        .import("env", "log", BINARY)
        .memory(Some("memory"))
        .func(Some("inspect_packet"), BINARY, &body)
        .data(16, text)
        .build()
}

fn loaded(bytes: &[u8]) -> WasmInspector {
    let mut inspector = WasmInspector::new("m", "m.wasm").unwrap();
    assert_eq!(inspector.load(bytes, 5), Ok(()));
    inspector
}

#[test]
fn a_module_is_loaded_and_asked() {
    let mut inspector = WasmInspector::new("first", "/modules/first.wasm").unwrap();
    assert_eq!(inspector.id(), "first");
    assert_eq!(inspector.path(), "/modules/first.wasm");
    assert_eq!(inspector.state(), WasmModuleState::Initialized);
    assert_eq!(inspector.stats(), (0, 0));
    assert_eq!(inspector.load(&first_byte_module(), 1234), Ok(()));
    assert_eq!(inspector.state(), WasmModuleState::Loaded);
    assert_eq!(inspector.loaded_at(), 1234);
    assert_eq!(inspector.inspect_packet(&[1, 2, 3]), Ok(true));
    assert_eq!(inspector.inspect_packet(&[0, 2, 3]), Ok(false));
    assert_eq!(inspector.stats(), (2, 1));
}

#[test]
fn only_one_asks_to_block() {
    assert!(verdict_of(1));
    assert!(!verdict_of(0));
    assert!(!verdict_of(2));
    assert!(!verdict_of(-1));
    assert!(!verdict_of(i32::MAX));
    let mut inspector = loaded(&first_byte_module());
    assert_eq!(inspector.inspect_packet(&[7]), Ok(false));
    assert_eq!(inspector.inspect_packet(&[255]), Ok(false));
    assert_eq!(inspector.inspect_packet(&[1]), Ok(true));
    assert_eq!(inspector.stats(), (3, 1));
    let mut seven = loaded(&constant_module(&CONST_7));
    assert_eq!(seven.inspect_packet(&[1]), Ok(false));
    assert_eq!(seven.stats(), (1, 0));
}

#[test]
fn the_module_is_told_the_length() {
    let mut inspector = loaded(&constant_module(&LENGTH));
    assert_eq!(inspector.inspect_packet(&[9]), Ok(true));
    assert_eq!(inspector.inspect_packet(&[9, 9]), Ok(false));
    assert_eq!(inspector.inspect_packet(&[]), Ok(false));
    assert_eq!(inspector.stats(), (3, 1));
}

#[test]
fn the_packet_goes_to_the_fixed_offset_without_an_allocator() {
    let mut inspector = loaded(&constant_module(&FIRST_BYTE_AT_1024));
    assert_eq!(inspector.inspect_packet(&[1, 0]), Ok(true));
    assert_eq!(inspector.inspect_packet(&[0, 1]), Ok(false));
    let mut elsewhere = loaded(&constant_module(&FIRST_BYTE_AT_2048));
    assert_eq!(elsewhere.inspect_packet(&[1, 0]), Ok(false));
}

#[test]
fn the_packet_goes_where_the_allocator_says() {
    let bytes = Wasm::new()
        .memory(Some("memory"))
        .func(Some("allocate"), UNARY, &CONST_2048)
        .func(Some("inspect_packet"), BINARY, &FIRST_BYTE_AT_2048)
        .build();
    let mut inspector = loaded(&bytes);
    assert_eq!(inspector.inspect_packet(&[1, 0]), Ok(true));
    assert_eq!(inspector.inspect_packet(&[0, 1]), Ok(false));
    assert_eq!(inspector.stats(), (2, 1));
}

#[test]
fn an_allocator_that_fails_fails_the_invocation() {
    let bytes = Wasm::new()
        .memory(Some("memory"))
        .func(Some("allocate"), UNARY, &CONST_MINUS_1)
        .func(Some("inspect_packet"), BINARY, &CONST_1)
        .build();
    let mut inspector = loaded(&bytes);
    assert_eq!(inspector.inspect_packet(&[1]), Err(GuardError::WasmInvokeError));
    assert_eq!(inspector.stats(), (0, 0));
    let bytes = Wasm::new()
        .memory(Some("memory"))
        .func(Some("allocate"), UNARY, &TRAP)
        .func(Some("inspect_packet"), BINARY, &CONST_1)
        .build();
    let mut inspector = loaded(&bytes);
    assert_eq!(inspector.inspect_packet(&[1]), Err(GuardError::WasmInvokeError));
    assert_eq!(inspector.stats(), (0, 0));
}

#[test]
fn a_packet_that_does_not_fit_fails_the_invocation() {
    let mut inspector = loaded(&first_byte_module());
    let big = vec![1u8; 65536];
    assert_eq!(inspector.inspect_packet(&big), Err(GuardError::WasmInvokeError));
    let fits = vec![1u8; 65536 - 1024];
    assert_eq!(inspector.inspect_packet(&fits), Ok(true));
    assert_eq!(inspector.stats(), (1, 1));
}

#[test]
fn a_module_without_entry_point_is_refused() {
    let bytes = Wasm::new().memory(Some("memory")).func(Some("other"), BINARY, &CONST_1).build();
    let mut inspector = WasmInspector::new("m", "m.wasm").unwrap();
    assert_eq!(inspector.load(&bytes, 1), Err(GuardError::WasmMissingExport));
    assert_eq!(inspector.state(), WasmModuleState::Error);
    assert_eq!(inspector.inspect_packet(&[1]), Err(GuardError::WasmInvokeError));
    let mut manager = WasmManager::new();
    assert_eq!(manager.load_module("m", "m.wasm", &bytes, 1), Err(GuardError::WasmMissingExport));
    assert_eq!(manager.len(), 0);
    assert!(manager.list_modules().is_empty());
}

#[test]
fn an_entry_point_of_another_type_is_refused() {
    let bytes = Wasm::new().memory(Some("memory")).func(Some("inspect_packet"), UNARY, &CONST_1).build();
    let mut inspector = WasmInspector::new("m", "m.wasm").unwrap();
    assert_eq!(inspector.load(&bytes, 1), Err(GuardError::WasmMissingExport));
    assert_eq!(inspector.state(), WasmModuleState::Error);
}

#[test]
fn a_module_without_memory_is_refused() {
    let bytes = Wasm::new().memory(None).func(Some("inspect_packet"), BINARY, &CONST_1).build();
    let mut inspector = WasmInspector::new("m", "m.wasm").unwrap();
    assert_eq!(inspector.load(&bytes, 1), Err(GuardError::WasmMissingExport));
    assert_eq!(inspector.state(), WasmModuleState::Error);
    let bytes = Wasm::new().memory(Some("mem")).func(Some("inspect_packet"), BINARY, &CONST_1).build();
    let mut inspector = WasmInspector::new("m", "m.wasm").unwrap();
    assert_eq!(inspector.load(&bytes, 1), Err(GuardError::WasmMissingExport));
}

#[test]
fn bytes_that_are_no_module_are_refused() {
    let mut inspector = WasmInspector::new("m", "m.wasm").unwrap();
    assert_eq!(inspector.load(&[1, 2, 3, 4], 1), Err(GuardError::WasmLoadError));
    assert_eq!(inspector.state(), WasmModuleState::Error);
    let mut inspector = WasmInspector::new("m", "m.wasm").unwrap();
    assert_eq!(inspector.load(&[], 1), Err(GuardError::WasmLoadError));
    let mut manager = WasmManager::new();
    assert_eq!(manager.load_module("m", "m.wasm", &[0, 1], 1), Err(GuardError::WasmLoadError));
    assert_eq!(manager.len(), 0);
}

#[test]
fn a_module_that_imports_what_the_host_lacks_is_refused() {
    let bytes = Wasm::new()
        .import("env", "clock", UNARY)
        .memory(Some("memory"))
        .func(Some("inspect_packet"), BINARY, &CONST_1)
        .build();
    let mut inspector = WasmInspector::new("m", "m.wasm").unwrap();
    assert_eq!(inspector.load(&bytes, 1), Err(GuardError::WasmLoadError));
    let bytes = Wasm::new()
        .import("env", "log", UNARY)
        .memory(Some("memory"))
        .func(Some("inspect_packet"), BINARY, &CONST_1)
        .build();
    let mut inspector = WasmInspector::new("m", "m.wasm").unwrap();
    assert_eq!(inspector.load(&bytes, 1), Err(GuardError::WasmLoadError));
}

#[test]
fn init_runs_at_load() {
    let bytes = Wasm::new()
        .memory(Some("memory"))
        .func(Some("init"), PROCEDURE, &SET_BYTE_0)
        .func(Some("inspect_packet"), BINARY, &BYTE_0)
        .build();
    let mut inspector = loaded(&bytes);
    assert_eq!(inspector.inspect_packet(&[0]), Ok(true));
    let bytes = Wasm::new().memory(Some("memory")).func(Some("inspect_packet"), BINARY, &BYTE_0).build();
    let mut inspector = loaded(&bytes);
    assert_eq!(inspector.inspect_packet(&[0]), Ok(false));
}

#[test]
fn an_init_that_fails_fails_the_load() {
    let bytes = Wasm::new()
        .memory(Some("memory"))
        .func(Some("init"), PROCEDURE, &TRAP)
        .func(Some("inspect_packet"), BINARY, &CONST_1)
        .build();
    let mut inspector = WasmInspector::new("m", "m.wasm").unwrap();
    assert_eq!(inspector.load(&bytes, 1), Err(GuardError::WasmLoadError));
    assert_eq!(inspector.state(), WasmModuleState::Error);
}

#[test]
fn a_module_that_traps_or_spins_fails_the_invocation() {
    let mut inspector = loaded(&constant_module(&TRAP));
    assert_eq!(inspector.inspect_packet(&[1]), Err(GuardError::WasmInvokeError));
    assert_eq!(inspector.stats(), (0, 0));
    let mut inspector = loaded(&constant_module(&SPIN));
    assert_eq!(inspector.inspect_packet(&[1]), Err(GuardError::WasmInvokeError));
    assert_eq!(inspector.inspect_packet(&[1]), Err(GuardError::WasmInvokeError));
    assert_eq!(inspector.stats(), (0, 0));
}

#[test]
fn a_module_that_is_not_loaded_is_not_asked() {
    let mut inspector = WasmInspector::new("m", "m.wasm").unwrap();
    assert_eq!(inspector.inspect_packet(&[1]), Err(GuardError::WasmInvokeError));
    assert_eq!(inspector.stats(), (0, 0));
    assert_eq!(inspector.drain_log(), "");
}

#[test]
fn the_host_logs_what_a_module_says() {
    let mut inspector = loaded(&logging_module(b"hello", 5));
    assert_eq!(inspector.inspect_packet(&[0]), Ok(false));
    assert_eq!(inspector.drain_log(), "hello\n");
    assert_eq!(inspector.drain_log(), "");
    assert_eq!(inspector.inspect_packet(&[0]), Ok(false));
    assert_eq!(inspector.inspect_packet(&[0]), Ok(false));
    assert_eq!(inspector.drain_log(), "hello\nhello\n");
    let mut empty = loaded(&logging_module(b"hello", 0));
    assert_eq!(empty.inspect_packet(&[0]), Ok(false));
    assert_eq!(empty.drain_log(), "\n");
}

#[test]
fn the_host_refuses_to_log_what_is_no_text() {
    let mut inspector = loaded(&logging_module(&[0xff, 0xfe], 2));
    assert_eq!(inspector.inspect_packet(&[0]), Ok(true));
    assert_eq!(inspector.drain_log(), "");
    // i32.const 65530; i32.const 100; call log; i32.const 2; i32.add
    let body = [0x41, 0xfa, 0xff, 0x03, 0x41, 0xe4, 0x00, 0x10, 0x00, 0x41, 0x02, 0x6a, 0x0b];
    let bytes = Wasm::new()
        .import("env", "log", BINARY)
        .memory(Some("memory"))
        .func(Some("inspect_packet"), BINARY, &body)
        .build();
    let mut beyond = loaded(&bytes);
    assert_eq!(beyond.inspect_packet(&[0]), Ok(true));
    // i32.const -1; i32.const 1; call log; i32.const 2; i32.add
    let body = [0x41, 0x7f, 0x41, 0x01, 0x10, 0x00, 0x41, 0x02, 0x6a, 0x0b];
    let bytes = Wasm::new()
        .import("env", "log", BINARY)
        .memory(Some("memory"))
        .func(Some("inspect_packet"), BINARY, &body)
        .build();
    let mut negative = loaded(&bytes);
    assert_eq!(negative.inspect_packet(&[0]), Ok(true));
    assert_eq!(negative.drain_log(), "");
}

#[test]
fn log_lines_end_with_a_line_feed() {
    assert_eq!(log_line(b"abc".to_vec()), Some("abc\n".to_string()));
    assert_eq!(log_line(Vec::new()), Some("\n".to_string()));
    assert_eq!(log_line("\u{e9}t\u{e9}".as_bytes().to_vec()), Some("\u{e9}t\u{e9}\n".to_string()));
    assert_eq!(log_line(vec![0xc3]), None);
    assert_eq!(log_line(vec![0xff]), None);
}

#[test]
fn modules_are_asked_in_order_up_to_the_first_that_blocks() {
    let mut manager = WasmManager::new();
    assert_eq!(manager.load_module("lenient", "a.wasm", &constant_module(&CONST_0), 10), Ok(()));
    assert_eq!(manager.load_module("first-byte", "b.wasm", &first_byte_module(), 11), Ok(()));
    assert_eq!(manager.load_module("strict", "c.wasm", &constant_module(&CONST_1), 12), Ok(()));
    assert_eq!(manager.len(), 3);
    assert!(manager.inspect_packet(&[0, 0]));
    assert_eq!(
        manager.list_modules(),
        vec![
            ("lenient".to_string(), WasmModuleState::Loaded, 1, 0),
            ("first-byte".to_string(), WasmModuleState::Loaded, 1, 0),
            ("strict".to_string(), WasmModuleState::Loaded, 1, 1),
        ]
    );
    assert!(manager.inspect_packet(&[1, 0]));
    assert_eq!(
        manager.list_modules(),
        vec![
            ("lenient".to_string(), WasmModuleState::Loaded, 2, 0),
            ("first-byte".to_string(), WasmModuleState::Loaded, 2, 1),
            ("strict".to_string(), WasmModuleState::Loaded, 1, 1),
        ]
    );
    assert_eq!(manager.module_stats("first-byte"), Some((2, 1)));
    assert_eq!(manager.module_stats("strict"), Some((1, 1)));
    assert_eq!(manager.module_stats("absent"), None);
    assert_eq!(manager.module(1).unwrap().loaded_at(), 11);
    assert!(manager.module(3).is_none());
}

#[test]
fn all_modules_permit() {
    let mut manager = WasmManager::default();
    assert!(!manager.inspect_packet(&[1]));
    assert_eq!(manager.load_module("a", "a.wasm", &constant_module(&CONST_0), 1), Ok(()));
    assert_eq!(manager.load_module("b", "b.wasm", &first_byte_module(), 1), Ok(()));
    assert!(!manager.inspect_packet(&[0]));
    assert_eq!(manager.module_stats("a"), Some((1, 0)));
    assert_eq!(manager.module_stats("b"), Some((1, 0)));
}

#[test]
fn a_module_that_fails_does_not_stop_the_chain() {
    let mut manager = WasmManager::new();
    assert_eq!(manager.load_module("broken", "a.wasm", &constant_module(&TRAP), 1), Ok(()));
    assert_eq!(manager.load_module("spinning", "b.wasm", &constant_module(&SPIN), 1), Ok(()));
    assert_eq!(manager.load_module("first-byte", "c.wasm", &first_byte_module(), 1), Ok(()));
    assert!(manager.inspect_packet(&[1]));
    assert!(!manager.inspect_packet(&[0]));
    assert_eq!(manager.module_stats("broken"), Some((0, 0)));
    assert_eq!(manager.module_stats("spinning"), Some((0, 0)));
    assert_eq!(manager.module_stats("first-byte"), Some((2, 1)));
}

#[test]
fn a_module_is_unloaded_by_name() {
    let mut manager = WasmManager::new();
    assert_eq!(manager.load_module("a", "a.wasm", &constant_module(&CONST_0), 1), Ok(()));
    assert_eq!(manager.load_module("b", "b.wasm", &constant_module(&CONST_1), 1), Ok(()));
    assert_eq!(manager.find_module("a"), 0);
    assert_eq!(manager.find_module("b"), 1);
    assert_eq!(manager.find_module("c"), 2);
    assert_eq!(manager.unload_module("c"), Err(GuardError::NotFound));
    assert_eq!(manager.unload_module("b"), Ok(()));
    assert_eq!(manager.len(), 1);
    assert!(!manager.inspect_packet(&[1]));
    assert_eq!(manager.unload_module("b"), Err(GuardError::NotFound));
    assert_eq!(manager.unload_module("a"), Ok(()));
    assert_eq!(manager.len(), 0);
}

#[test]
fn where_the_packet_goes_and_how_long_it_is() {
    assert_eq!(packet_pointer(None), Some(1024));
    assert_eq!(packet_pointer(Some(Some(0))), Some(0));
    assert_eq!(packet_pointer(Some(Some(2048))), Some(2048));
    assert_eq!(packet_pointer(Some(Some(i32::MAX))), Some(i32::MAX));
    assert_eq!(packet_pointer(Some(Some(-1))), None);
    assert_eq!(packet_pointer(Some(Some(i32::MIN))), None);
    assert_eq!(packet_pointer(Some(None)), None);
    assert_eq!(packet_length(0), Some(0));
    assert_eq!(packet_length(1500), Some(1500));
    assert_eq!(packet_length(i32::MAX as usize), Some(i32::MAX));
    assert_eq!(packet_length(i32::MAX as usize + 1), None);
    assert_eq!(packet_length(usize::MAX), None);
}

#[test]
fn what_a_module_logs_at_load_is_kept() {
    // i32.const 16; i32.const 5; call log; drop
    let init = [0x41, 0x10, 0x41, 0x05, 0x10, 0x00, 0x1a, 0x0b];
    let bytes = Wasm::new()
        .import("env", "log", BINARY)
        .memory(Some("memory"))
        .func(Some("init"), PROCEDURE, &init)
        .func(Some("inspect_packet"), BINARY, &CONST_0)
        .data(16, b"ready")
        .build();
    let mut inspector = WasmInspector::new("m", "m.wasm").unwrap();
    assert_eq!(inspector.drain_log(), "");
    assert_eq!(inspector.load(&bytes, 1), Ok(()));
    assert_eq!(inspector.inspect_packet(&[0]), Ok(false));
    assert_eq!(inspector.drain_log(), "ready\n");
    assert_eq!(inspector.drain_log(), "");
    let mut logging = loaded(&logging_module(b"hello", 5));
    assert_eq!(logging.inspect_packet(&[0]), Ok(false));
    assert_eq!(logging.load(&[1, 2, 3], 2), Err(GuardError::WasmLoadError));
    assert_eq!(logging.inspect_packet(&[0]), Err(GuardError::WasmInvokeError));
    assert_eq!(logging.drain_log(), "hello\n");
    assert_eq!(logging.load(&logging_module(b"again", 5), 3), Ok(()));
    assert_eq!(logging.inspect_packet(&[0]), Ok(false));
    assert_eq!(logging.drain_log(), "again\n");
}

#[test]
fn the_bytes_that_a_log_call_names() {
    assert_eq!(log_range(16, 5), Some((16, 21)));
    assert_eq!(log_range(0, 0), Some((0, 0)));
    assert_eq!(log_range(7, 0), Some((7, 7)));
    assert_eq!(log_range(i32::MAX, i32::MAX), Some((2147483647, 4294967294)));
    assert_eq!(log_range(-1, 1), None);
    assert_eq!(log_range(1, -1), None);
    assert_eq!(log_range(i32::MIN, i32::MIN), None);
}

#[test]
fn the_answer_to_a_log_call() {
    assert_eq!(log_outcome(16, 5, Some(b"hello".to_vec())), (0, Some("hello\n".to_string())));
    assert_eq!(log_outcome(0, 0, Some(Vec::new())), (0, Some("\n".to_string())));
    assert_eq!(
        log_outcome(3, 4, Some("\u{e9}t\u{e9}".as_bytes().to_vec())),
        (0, Some("\u{e9}t\u{e9}\n".to_string()))
    );
    assert_eq!(log_outcome(16, 2, Some(vec![0xff, 0xfe])), (-1, None));
    assert_eq!(log_outcome(16, 1, Some(vec![0xc3])), (-1, None));
    assert_eq!(log_outcome(65530, 100, None), (-1, None));
    assert_eq!(log_outcome(-1, 1, Some(b"a".to_vec())), (-1, None));
    assert_eq!(log_outcome(1, -1, Some(b"a".to_vec())), (-1, None));
    assert_eq!(log_outcome(-1, -1, None), (-1, None));
}

#[test]
fn each_module_keeps_its_sandbox_and_its_log() {
    let mut manager = WasmManager::new();
    assert_eq!(manager.drain_log(0), None);
    assert_eq!(manager.load_module("a", "a.wasm", &logging_module(b"one", 3), 1), Ok(()));
    assert_eq!(manager.load_module("b", "b.wasm", &logging_module(b"two", 3), 2), Ok(()));
    assert_eq!(manager.load_module("c", "c.wasm", &constant_module(&CONST_1), 3), Ok(()));
    assert_eq!(manager.load_module("d", "d.wasm", &logging_module(b"four", 4), 4), Ok(()));
    assert!(manager.inspect_packet(&[0]));
    assert_eq!(manager.load_module("bad", "bad.wasm", &[1, 2, 3], 5), Err(GuardError::WasmLoadError));
    assert_eq!(manager.len(), 4);
    assert!(manager.inspect_packet(&[0]));
    assert_eq!(manager.module_stats("a"), Some((2, 0)));
    assert_eq!(manager.module_stats("b"), Some((2, 0)));
    assert_eq!(manager.module_stats("c"), Some((2, 2)));
    assert_eq!(manager.module_stats("d"), Some((0, 0)));
    assert_eq!(manager.drain_log(0), Some("one\none\n".to_string()));
    assert_eq!(manager.drain_log(0), Some(String::new()));
    assert_eq!(manager.drain_log(3), Some(String::new()));
    assert_eq!(manager.drain_log(4), None);
    assert_eq!(manager.unload_module("a"), Ok(()));
    assert_eq!(manager.drain_log(0), Some("two\ntwo\n".to_string()));
    assert_eq!(manager.unload_module("c"), Ok(()));
    assert!(!manager.inspect_packet(&[0]));
    assert_eq!(manager.drain_log(0), Some("two\n".to_string()));
    assert_eq!(manager.drain_log(1), Some("four\n".to_string()));
    assert_eq!(manager.drain_log(2), None);
    assert_eq!(manager.module_stats("b"), Some((3, 0)));
    assert_eq!(manager.module_stats("d"), Some((1, 0)));
}

#[test]
fn a_module_must_export_its_memory_and_its_entry_point() {
    assert_eq!(check_exports(true, true), None);
    assert_eq!(check_exports(false, true), Some(LoadStep::Memory));
    assert_eq!(check_exports(true, false), Some(LoadStep::EntryPoint));
    assert_eq!(check_exports(false, false), Some(LoadStep::Memory));
    assert_eq!(check_init(None), None);
    assert_eq!(check_init(Some(true)), None);
    assert_eq!(check_init(Some(false)), Some(LoadStep::Init));
}

#[test]
fn a_load_ends_as_its_step_says() {
    let steps = [
        (LoadStep::Compile, GuardError::WasmLoadError),
        (LoadStep::Instantiate, GuardError::WasmLoadError),
        (LoadStep::Memory, GuardError::WasmMissingExport),
        (LoadStep::EntryPoint, GuardError::WasmMissingExport),
        (LoadStep::Init, GuardError::WasmLoadError),
    ];
    for (step, error) in steps {
        let mut inspector = loaded(&first_byte_module());
        assert_eq!(inspector.finish_load(Some(step), 9), Err(error));
        assert_eq!(inspector.state(), WasmModuleState::Error);
        assert_eq!(inspector.loaded_at(), 5);
        assert_eq!(inspector.inspect_packet(&[1]), Err(GuardError::WasmInvokeError));
        assert_eq!(inspector.consult(&[1]), ModuleReply::Skipped);
    }
    let mut inspector = loaded(&first_byte_module());
    assert_eq!(inspector.finish_load(None, 9), Ok(()));
    assert_eq!(inspector.state(), WasmModuleState::Loaded);
    assert_eq!(inspector.loaded_at(), 9);
    assert_eq!(inspector.inspect_packet(&[1]), Ok(true));
    let mut never = WasmInspector::new("m", "m.wasm").unwrap();
    assert_eq!(never.finish_load(None, 9), Ok(()));
    assert_eq!(never.state(), WasmModuleState::Loaded);
    assert_eq!(never.consult(&[1]), ModuleReply::Failed);
    assert_eq!(never.stats(), (0, 0));
}

#[test]
fn an_outcome_is_counted() {
    let mut inspector = loaded(&first_byte_module());
    assert_eq!(inspector.account(Some(1)), Ok(true));
    assert_eq!(inspector.account(Some(0)), Ok(false));
    assert_eq!(inspector.account(Some(2)), Ok(false));
    assert_eq!(inspector.account(Some(-1)), Ok(false));
    assert_eq!(inspector.stats(), (4, 1));
    assert_eq!(inspector.account(None), Err(GuardError::WasmInvokeError));
    assert_eq!(inspector.stats(), (4, 1));
}

#[test]
fn which_replies_block_and_which_are_reported() {
    assert!(ModuleReply::Number(1).is_blocking());
    assert!(!ModuleReply::Number(0).is_blocking());
    assert!(!ModuleReply::Number(2).is_blocking());
    assert!(!ModuleReply::Number(-1).is_blocking());
    assert!(!ModuleReply::Failed.is_blocking());
    assert!(!ModuleReply::Skipped.is_blocking());
    assert!(!ModuleReply::Number(0).is_faulty());
    assert!(!ModuleReply::Number(1).is_faulty());
    assert!(ModuleReply::Number(2).is_faulty());
    assert!(ModuleReply::Number(7).is_faulty());
    assert!(ModuleReply::Number(-1).is_faulty());
    assert!(ModuleReply::Number(i32::MIN).is_faulty());
    assert!(ModuleReply::Failed.is_faulty());
    assert!(!ModuleReply::Skipped.is_faulty());
}

#[test]
fn a_module_replies_with_the_number_that_it_returned() {
    let mut seven = loaded(&constant_module(&CONST_7));
    assert_eq!(seven.consult(&[0]), ModuleReply::Number(7));
    assert_eq!(seven.stats(), (1, 0));
    let mut minus = loaded(&constant_module(&CONST_MINUS_1));
    assert_eq!(minus.consult(&[0]), ModuleReply::Number(-1));
    assert_eq!(minus.stats(), (1, 0));
    let mut first = loaded(&first_byte_module());
    assert_eq!(first.consult(&[1]), ModuleReply::Number(1));
    assert_eq!(first.consult(&[0]), ModuleReply::Number(0));
    assert_eq!(first.consult(&[9]), ModuleReply::Number(9));
    assert_eq!(first.stats(), (3, 1));
    let mut broken = loaded(&constant_module(&TRAP));
    assert_eq!(broken.consult(&[0]), ModuleReply::Failed);
    assert_eq!(broken.stats(), (0, 0));
    let mut fresh = WasmInspector::new("m", "m.wasm").unwrap();
    assert_eq!(fresh.consult(&[0]), ModuleReply::Skipped);
    assert_eq!(fresh.stats(), (0, 0));
}

#[test]
fn the_chain_tells_what_came_of_each_module() {
    let mut manager = WasmManager::new();
    assert_eq!(manager.consult(&[0]), (false, vec![]));
    assert_eq!(manager.load_module("odd", "a.wasm", &constant_module(&CONST_7), 1), Ok(()));
    assert_eq!(manager.load_module("broken", "b.wasm", &constant_module(&TRAP), 1), Ok(()));
    assert_eq!(manager.load_module("first-byte", "c.wasm", &first_byte_module(), 1), Ok(()));
    assert_eq!(manager.load_module("lenient", "d.wasm", &constant_module(&CONST_0), 1), Ok(()));
    let (blocked, replies) = manager.consult(&[1]);
    assert!(blocked);
    assert_eq!(
        replies,
        vec![ModuleReply::Number(7), ModuleReply::Failed, ModuleReply::Number(1), ModuleReply::Skipped]
    );
    assert_eq!(replies.iter().map(|r| r.is_faulty()).collect::<Vec<bool>>(), vec![true, true, false, false]);
    let (blocked, replies) = manager.consult(&[0]);
    assert!(!blocked);
    assert_eq!(
        replies,
        vec![ModuleReply::Number(7), ModuleReply::Failed, ModuleReply::Number(0), ModuleReply::Number(0)]
    );
    assert_eq!(
        manager.list_modules(),
        vec![
            ("odd".to_string(), WasmModuleState::Loaded, 2, 0),
            ("broken".to_string(), WasmModuleState::Loaded, 0, 0),
            ("first-byte".to_string(), WasmModuleState::Loaded, 2, 1),
            ("lenient".to_string(), WasmModuleState::Loaded, 1, 0),
        ]
    );
    let (blocked, replies) = manager.consult(&[2]);
    assert!(!blocked);
    assert_eq!(replies[2], ModuleReply::Number(2));
    assert_eq!(manager.module_stats("first-byte"), Some((3, 1)));
}

#[test]
fn a_module_of_one_host_is_loaded_beside_those_of_another() {
    let mut one = WasmManager::new();
    let mut other = WasmManager::new();
    assert_eq!(one.load_module("a", "a.wasm", &logging_module(b"one", 3), 1), Ok(()));
    assert_eq!(other.load_module("a", "a.wasm", &logging_module(b"two", 3), 1), Ok(()));
    assert_eq!(one.load_module("b", "b.wasm", &logging_module(b"three", 5), 1), Ok(()));
    assert!(!one.inspect_packet(&[0]));
    assert!(!other.inspect_packet(&[0]));
    assert_eq!(one.drain_log(0), Some("one\n".to_string()));
    assert_eq!(one.drain_log(1), Some("three\n".to_string()));
    assert_eq!(other.drain_log(0), Some("two\n".to_string()));
}
