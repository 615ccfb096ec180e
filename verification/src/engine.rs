//! Trusted boundary to the execution engine and the guest runtime
//! environment.
//!
//! The sandbox engine's own types are opaque here; each wrapper makes
//! exactly one engine call and converts its arguments and result.  The
//! wrappers that require the ambient task-execution context take the
//! context and enter it for the duration of the call.

use vstd::prelude::*;

use crate::error::Error;

verus! {

#[verifier::external_type_specification]
#[verifier::external_body]
pub struct ExEngine(wasmer::Engine);

#[verifier::external_type_specification]
#[verifier::external_body]
pub struct ExStore(wasmer::Store);

#[verifier::external_type_specification]
#[verifier::external_body]
pub struct ExModule(wasmer::Module);

#[verifier::external_type_specification]
#[verifier::external_body]
pub struct ExMemory(wasmer::Memory);

#[verifier::external_type_specification]
#[verifier::external_body]
pub struct ExMemoryType(wasmer::MemoryType);

#[verifier::external_type_specification]
#[verifier::external_body]
pub struct ExFunction(wasmer::Function);

#[verifier::external_type_specification]
#[verifier::external_body]
pub struct ExWasmerInstance(wasmer::Instance);

#[verifier::external_type_specification]
#[verifier::external_body]
pub struct ExImports(wasmer::Imports);

#[verifier::external_type_specification]
#[verifier::external_body]
pub struct ExWasiFunctionEnv(wasmer_wasix::WasiFunctionEnv);

#[verifier::external_type_specification]
#[verifier::external_body]
pub struct ExTokioRuntime(tokio::runtime::Runtime);

/// The characters `String::from_utf8` decodes from a byte sequence
/// that holds valid UTF-8.  The result depends on the bytes alone.
pub uninterp spec fn utf8_chars(bytes: Seq<u8>) -> Seq<char>;

/// Whether a byte sequence is valid UTF-8: the condition under which
/// `str::from_utf8` accepts it.  The result depends on the bytes
/// alone.
pub uninterp spec fn utf8_valid(bytes: Seq<u8>) -> bool;

/// The bytes that encode a character sequence as UTF-8.  The result
/// depends on the characters alone.
pub uninterp spec fn char_bytes(chars: Seq<char>) -> Seq<u8>;

/// Relies on tokio's `runtime::Builder::build`: builds the
/// multi-worker task-execution context the engine needs entered.
#[verifier::external_body]
pub(crate) fn build_tokio_runtime() -> (r: Result<tokio::runtime::Runtime, Error>)
    ensures
        r matches Err(e) ==> e matches Error::BuildRuntime(_),
{
    match tokio::runtime::Builder::new_multi_thread().enable_all().build() {
        Ok(rt) => Ok(rt),
        Err(e) => Err(Error::BuildRuntime(format!("{e}").into_bytes())),
    }
}

/// Relies on wasmer's `EngineBuilder`: a singlepass (fast-compiling,
/// non-optimizing) engine with the baseline feature set and nothing
/// speculative enabled.  Uses dynamically-sized guest memories so one
/// short-lived instance does not reserve gigabytes of address space.
#[verifier::external_body]
pub(crate) fn build_engine() -> wasmer::Engine {
    let mut engine = wasmer::sys::EngineBuilder::new(wasmer_compiler_singlepass::Singlepass::new())
        .set_features(Some(wasmer::sys::Features::new()))
        .engine();
    engine.set_tunables(wasmer::sys::BaseTunables {
        static_memory_bound: wasmer::Pages(0),
        static_memory_offset_guard_size: 0x1_0000,
        dynamic_memory_offset_guard_size: 0x1_0000,
    });
    engine.into()
}

/// Relies on `wasmer::Store::new`: a fresh store for one instance.
#[verifier::external_body]
pub(crate) fn new_store(engine: &wasmer::Engine) -> wasmer::Store {
    wasmer::Store::new(engine.clone())
}

/// Relies on `wasmer::Module::new`: compiles the module bytes.
#[verifier::external_body]
pub(crate) fn compile_module(store: &wasmer::Store, bytes: &[u8]) -> (r: Result<
    wasmer::Module,
    Error,
>)
    ensures
        r matches Err(e) ==> e matches Error::Compile(_),
{
    match wasmer::Module::new(store, bytes) {
        Ok(m) => Ok(m),
        Err(e) => Err(Error::Compile(format!("compile: {e}").into_bytes())),
    }
}

/// Relies on `WasiEnvBuilder::finalize` of wasmer-wasix: builds the
/// guest runtime environment over the shared engine.  Enters the
/// task-execution context, which the environment's internals require
/// to be ambient.
#[verifier::external_body]
pub(crate) fn build_wasi_env(
    rt: &tokio::runtime::Runtime,
    wasm_engine: &wasmer::Engine,
    store: &mut wasmer::Store,
    program: &str,
) -> (r: Result<wasmer_wasix::WasiFunctionEnv, Error>)
    ensures
        r matches Err(e) ==> e matches Error::WasiRuntime(_),
{
    let _guard = rt.enter();
    let builder = wasmer_wasix::WasiEnv::builder(program).engine(wasm_engine.clone());
    match builder.finalize(store) {
        Ok(env) => Ok(env),
        Err(e) => Err(Error::WasiRuntime(format!("wasi runtime: {e}").into_bytes())),
    }
}

/// Relies on `generate_import_object_from_env` of wasmer-wasix: the
/// import set of one guest ABI generation — the newer generation when
/// `newer` is set, else the older snapshot generation.
#[verifier::external_body]
pub(crate) fn wasi_imports(
    rt: &tokio::runtime::Runtime,
    store: &mut wasmer::Store,
    env: &wasmer_wasix::WasiFunctionEnv,
    newer: bool,
) -> wasmer::Imports {
    let _guard = rt.enter();
    let version = if newer {
        wasmer_wasix::WasiVersion::Wasix32v1
    } else {
        wasmer_wasix::WasiVersion::Snapshot1
    };
    wasmer_wasix::generate_import_object_from_env(store, &env.env, version)
}

/// Relies on `wasmer::Imports::extend`: entries of `more` shadow
/// entries of `target` on name collision.
#[verifier::external_body]
pub(crate) fn extend_imports(target: &mut wasmer::Imports, more: &wasmer::Imports) {
    target.extend(more);
}

/// Relies on `wasmer::Module::imports`: the namespace, name and type of
/// the module's first memory import, if it declares one.
#[verifier::external_body]
pub(crate) fn memory_import(module: &wasmer::Module) -> Option<
    (String, String, wasmer::MemoryType),
> {
    module
        .imports()
        .memories()
        .next()
        .map(|m| (m.module().to_string(), m.name().to_string(), *m.ty()))
}

/// Relies on `wasmer::Memory::new`: allocates guest memory of the
/// imported memory's declared type.
#[verifier::external_body]
pub(crate) fn new_memory(store: &mut wasmer::Store, ty: &wasmer::MemoryType) -> (r: Result<
    wasmer::Memory,
    Error,
>)
    ensures
        r matches Err(e) ==> e matches Error::Memory(_),
{
    match wasmer::Memory::new(store, *ty) {
        Ok(m) => Ok(m),
        Err(_) => Err(Error::Memory("memory".as_bytes().to_vec())),
    }
}

/// Relies on `wasmer::Imports::define`: binds the allocated memory to
/// the module's memory import.
#[verifier::external_body]
pub(crate) fn define_memory(
    imports: &mut wasmer::Imports,
    namespace: &str,
    name: &str,
    memory: &wasmer::Memory,
) {
    imports.define(namespace, name, memory.clone());
}

/// Relies on `wasmer::Instance::new`: instantiates the module against
/// the resolved imports.  Enters the task-execution context for the
/// engine's ambient-context requirement.
#[verifier::external_body]
pub(crate) fn instantiate(
    rt: &tokio::runtime::Runtime,
    store: &mut wasmer::Store,
    module: &wasmer::Module,
    imports: &wasmer::Imports,
) -> (r: Result<wasmer::Instance, Error>)
    ensures
        r matches Err(e) ==> e matches Error::Instantiation(_),
{
    let _guard = rt.enter();
    match wasmer::Instance::new(store, module, imports) {
        Ok(i) => Ok(i),
        Err(e) => Err(Error::Instantiation(format!("instantiation: {e}").into_bytes())),
    }
}

/// Relies on `WasiFunctionEnv::initialize_handles_and_layout` of
/// wasmer-wasix: initializes the guest runtime environment with the
/// instance and the bound memory.
#[verifier::external_body]
pub(crate) fn wasi_initialize(
    rt: &tokio::runtime::Runtime,
    store: &mut wasmer::Store,
    env: &mut wasmer_wasix::WasiFunctionEnv,
    instance: &wasmer::Instance,
    memory: &wasmer::Memory,
) -> (r: Result<(), Error>)
    ensures
        r matches Err(e) ==> e matches Error::Export(_),
{
    let _guard = rt.enter();
    let handles = wasmer_wasix::WasiModuleInstanceHandles::new(
        memory.clone(), store, instance.clone(), None,
    );
    match env.initialize_handles_and_layout(
        store, instance.clone(), wasmer_wasix::WasiModuleTreeHandles::Static(handles), None, true,
    ) {
        Ok(()) => Ok(()),
        Err(e) => Err(Error::Export(format!("export: {e}").into_bytes())),
    }
}

/// Relies on `wasmer::Exports::get_function`: resolves a required
/// exported entry point by name.
#[verifier::external_body]
pub(crate) fn get_export_function(instance: &wasmer::Instance, name: &str) -> (r: Result<
    wasmer::Function,
    Error,
>)
    ensures
        r matches Err(e) ==> e matches Error::Export(_),
{
    match instance.exports.get_function(name) {
        Ok(f) => Ok(f.clone()),
        Err(e) => Err(Error::Export(format!("export: {e}").into_bytes())),
    }
}

/// Relies on `str::as_bytes`: the UTF-8 bytes of a literal, for fault
/// descriptions built in verified code.
#[verifier::external_body]
pub(crate) fn str_bytes(s: &str) -> Vec<u8> {
    s.as_bytes().to_vec()
}

/// Relies on `String::from_utf8`: decodes the guest's error text,
/// whose characters are a function of the bytes alone.  It succeeds on
/// exactly the inputs `str::from_utf8` accepts — std documents both as
/// the same UTF-8 validation.
#[verifier::external_body]
pub(crate) fn utf8_string(bytes: Vec<u8>) -> (r: Result<String, Error>)
    ensures
        r is Ok <==> utf8_valid(bytes@),
        r matches Ok(s) ==> s@ == utf8_chars(bytes@),
        r matches Err(e) ==> e matches Error::Runtime(_),
{
    match String::from_utf8(bytes) {
        Ok(s) => Ok(s),
        Err(_) => Err(Error::Runtime("result data should be valid utf-8".as_bytes().to_vec())),
    }
}

/// Relies on `String::into_bytes`: the UTF-8 encoding of the guest's
/// error text, a function of the characters alone.
#[verifier::external_body]
pub(crate) fn string_bytes(s: String) -> (r: Vec<u8>)
    ensures
        r@ == char_bytes(s@),
{
    s.into_bytes()
}

} // verus!
