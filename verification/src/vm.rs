//! The calls into the WebAssembly runtime. Nothing here is proved: each
//! function hands its arguments to the runtime and its result back.
//!
//! A store keeps the instance that was made in it among its own data, and
//! every call that needs an instance takes it from there. So no instance,
//! memory or function ever meets a store that does not own it. The linker
//! that instantiates a module is made from the engine of the store that the
//! module goes to, so no linker ever meets a store of another engine.

use crate::wasm::{host_log, WasmInspectorData};
use vstd::prelude::*;

verus! {

/// `wasmtime::Engine`: what compiles modules and makes stores. Nothing is known of its inside.
#[verifier::external_type_specification]
#[verifier::external_body]
pub struct ExEngine(wasmtime::Engine);

/// `wasmtime::Module`: a compiled module. Nothing is known of its inside.
#[verifier::external_type_specification]
#[verifier::external_body]
pub struct ExModule(wasmtime::Module);

/// `wasmtime::Instance`: a module at work in a store. Nothing is known of its inside.
#[verifier::external_type_specification]
#[verifier::external_body]
pub struct ExInstance(wasmtime::Instance);

/// `wasmtime::Store`: what owns the instances made in it and the data of its host. Nothing is
/// known of its inside.
#[verifier::external_type_specification]
#[verifier::external_body]
#[verifier::reject_recursive_types(T)]
pub struct ExStore<T: 'static>(wasmtime::Store<T>);

/// `wasmtime::Caller`: the store as a host function sees it during a call. Nothing is known of
/// its inside.
#[verifier::external_type_specification]
#[verifier::external_body]
#[verifier::reject_recursive_types(T)]
pub struct ExCaller<'a, T: 'static>(wasmtime::Caller<'a, T>);

/// `anyhow::Error`, in which the runtime says why a call failed. Nothing is known of its inside.
#[verifier::external_type_specification]
#[verifier::external_body]
pub struct ExError(anyhow::Error);

/// `Engine::new` on a `Config` for which `Config::consume_fuel` was switched
/// on, and `Config::memory_reservation`, `Config::memory_guard_size` and
/// `Config::memory_reservation_for_growth` were set to `reserve`, `guard` and
/// `growth` bytes: an engine whose stores stop a module that has used up
/// its fuel, and which sets that much address space aside for each memory.
#[verifier::external_body]
pub(crate) fn new_engine(reserve: u64, guard: u64, growth: u64) -> Result<
    wasmtime::Engine,
    anyhow::Error,
> {
    let mut config = wasmtime::Config::new();
    config.consume_fuel(true);
    config.memory_reservation(reserve);
    config.memory_guard_size(guard);
    config.memory_reservation_for_growth(growth);
    wasmtime::Engine::new(&config)
}

/// `Module::new`: compiles the bytes of a module, and fails where they are
/// no valid module.
#[verifier::external_body]
pub(crate) fn compile(engine: &wasmtime::Engine, bytes: &[u8]) -> Result<
    wasmtime::Module,
    anyhow::Error,
> {
    wasmtime::Module::new(engine, bytes)
}

/// `Store::new`: a store of `engine` that owns `data`.
#[verifier::external_body]
pub(crate) fn new_store(engine: &wasmtime::Engine, data: WasmInspectorData) -> wasmtime::Store<
    WasmInspectorData,
> {
    wasmtime::Store::new(engine, data)
}

/// `Store::set_fuel`: the module may use `fuel` units from now on. Fails
/// where the engine does not count fuel.
#[verifier::external_body]
pub(crate) fn set_fuel(store: &mut wasmtime::Store<WasmInspectorData>, fuel: u64) -> Result<
    (),
    anyhow::Error,
> {
    store.set_fuel(fuel)
}

/// `Linker::new` on the engine of `store`, `Linker::func_wrap` and
/// `Linker::instantiate`: instantiates `module` in `store` with one import
/// on offer, `import_module`.`import_name`, the host function that calls
/// `host_log`. The store keeps the instance among its data from then on.
/// Fails where the module is of another engine, asks for another import,
/// or fails at its start.
#[verifier::external_body]
pub(crate) fn instantiate(
    store: &mut wasmtime::Store<WasmInspectorData>,
    module: &wasmtime::Module,
    import_module: &str,
    import_name: &str,
) -> Result<(), anyhow::Error> {
    let mut linker = wasmtime::Linker::new(store.engine());
    linker.func_wrap(
        import_module,
        import_name,
        |mut caller: wasmtime::Caller<'_, WasmInspectorData>, ptr: i32, len: i32| -> i32 {
            host_log(&mut caller, ptr, len)
        },
    )?;
    let instance = linker.instantiate(&mut *store, module)?;
    store.data_mut().instance = Some(instance);
    Ok(())
}

/// `Instance::get_memory`: whether the instance of `store` exports a memory
/// under `name`.
#[verifier::external_body]
pub(crate) fn has_memory(store: &mut wasmtime::Store<WasmInspectorData>, name: &str) -> bool {
    let instance = store.data().instance;
    instance.and_then(|i| i.get_memory(&mut *store, name)).is_some()
}

/// `Instance::get_typed_func`: whether the instance of `store` exports under
/// `name` a function without parameters and results.
#[verifier::external_body]
pub(crate) fn has_procedure(store: &mut wasmtime::Store<WasmInspectorData>, name: &str) -> bool {
    let instance = store.data().instance;
    instance.is_some_and(|i| i.get_typed_func::<(), ()>(&mut *store, name).is_ok())
}

/// `Instance::get_typed_func`: whether the instance of `store` exports under
/// `name` a function from one `i32` to an `i32`.
#[verifier::external_body]
pub(crate) fn has_unary(store: &mut wasmtime::Store<WasmInspectorData>, name: &str) -> bool {
    let instance = store.data().instance;
    instance.is_some_and(|i| i.get_typed_func::<i32, i32>(&mut *store, name).is_ok())
}

/// `Instance::get_typed_func`: whether the instance of `store` exports under
/// `name` a function from two `i32` to an `i32`.
#[verifier::external_body]
pub(crate) fn has_binary(store: &mut wasmtime::Store<WasmInspectorData>, name: &str) -> bool {
    let instance = store.data().instance;
    instance.is_some_and(|i| i.get_typed_func::<(i32, i32), i32>(&mut *store, name).is_ok())
}

/// `TypedFunc::call` on the export `name` of the instance of `store`, a
/// function without parameters and results. Fails where there is no such
/// export and where the module traps or runs out of fuel.
#[verifier::external_body]
pub(crate) fn call_procedure(store: &mut wasmtime::Store<WasmInspectorData>, name: &str) -> Result<
    (),
    anyhow::Error,
> {
    let instance = store.data().instance.ok_or_else(|| anyhow::Error::msg("no instance"))?;
    instance.get_typed_func::<(), ()>(&mut *store, name)?.call(&mut *store, ())
}

/// `TypedFunc::call` on the export `name` of the instance of `store`, a
/// function from one `i32` to an `i32`. Fails where there is no such export
/// and where the module traps or runs out of fuel.
#[verifier::external_body]
pub(crate) fn call_unary(
    store: &mut wasmtime::Store<WasmInspectorData>,
    name: &str,
    a: i32,
) -> Result<i32, anyhow::Error> {
    let instance = store.data().instance.ok_or_else(|| anyhow::Error::msg("no instance"))?;
    instance.get_typed_func::<i32, i32>(&mut *store, name)?.call(&mut *store, a)
}

/// `TypedFunc::call` on the export `name` of the instance of `store`, a
/// function from two `i32` to an `i32`. Fails where there is no such export
/// and where the module traps or runs out of fuel.
#[verifier::external_body]
pub(crate) fn call_binary(
    store: &mut wasmtime::Store<WasmInspectorData>,
    name: &str,
    a: i32,
    b: i32,
) -> Result<i32, anyhow::Error> {
    let instance = store.data().instance.ok_or_else(|| anyhow::Error::msg("no instance"))?;
    instance.get_typed_func::<(i32, i32), i32>(&mut *store, name)?.call(&mut *store, (a, b))
}

/// `Memory::write` on the memory that the instance of `store` exports under
/// `name`: copies `bytes` to `offset`, and tells whether it did. It does not
/// where there is no such memory or the bytes do not fit in it.
#[verifier::external_body]
pub(crate) fn write_memory(
    store: &mut wasmtime::Store<WasmInspectorData>,
    name: &str,
    offset: usize,
    bytes: &[u8],
) -> bool {
    let instance = store.data().instance;
    let memory = instance.and_then(|i| i.get_memory(&mut *store, name));
    memory.is_some_and(|m| m.write(&mut *store, offset, bytes).is_ok())
}

/// `Store::data_mut`: takes the text that the module has logged so far out
/// of `store`.
#[verifier::external_body]
pub(crate) fn take_log(store: &mut wasmtime::Store<WasmInspectorData>) -> String {
    core::mem::take(&mut store.data_mut().log_buffer)
}

/// `Caller::get_export` and `Memory::data`: the bytes from `from` up to `to`
/// of the memory that the calling instance exports under `name`; none where
/// it exports no such memory or the memory does not reach that far.
#[verifier::external_body]
pub(crate) fn guest_bytes(
    caller: &mut wasmtime::Caller<'_, WasmInspectorData>,
    name: &str,
    from: usize,
    to: usize,
) -> Option<Vec<u8>> {
    let memory = caller.get_export(name)?.into_memory()?;
    memory.data(&*caller).get(from..to).map(|bytes| bytes.to_vec())
}

/// `Caller::data_mut`: appends `line` to the text that the module has logged.
#[verifier::external_body]
pub(crate) fn append_log(caller: &mut wasmtime::Caller<'_, WasmInspectorData>, line: &str) {
    caller.data_mut().log_buffer.push_str(line)
}

} // verus!
