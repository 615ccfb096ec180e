//! A running sandboxed module: its store, memory, guest runtime
//! environment and resolved entry points.
//!
//! An instance is *live* until [`SandboxInstance::close`] notifies the guest
//! runtime environment of shutdown; a closed instance accepts no
//! further calls.  Every host call into the guest is recorded in the
//! instance's ghost trace (see [`crate::model`]), over which the
//! cleanup and marshaling guarantees are stated.

use vstd::prelude::*;

use crate::aggregate_result::convert_aggregate_result;
use crate::buffer::Buffer;
use crate::engine;
use crate::error::Error;
use crate::model::GuestOp;
use crate::model::buffer_holds;
use crate::model::count_array_set;
use crate::model::count_free_aggregate;
use crate::model::count_free_prepare;
use crate::model::count_invoke_aggregate;
use crate::model::count_invoke_prepare;
use crate::model::lemma_buffer_holds_prefix;
use crate::model::lemma_buffer_ops_created;
use crate::model::lemma_buffer_ops_failed_create;
use crate::model::lemma_buffer_ops_trans;
use crate::model::lemma_contains_prefix;
use crate::model::lemma_counts_push;
use crate::model::lemma_prefix_push;
use crate::model::lemma_prefix_trans;
use crate::model::lemma_slot_filled_prefix;
use crate::model::mem_bytes;
use crate::model::mem_write;
use crate::model::slot_filled;
use crate::model::slots_registered_up_to;
use crate::prepare_data_result::convert_prepare_data_result;

verus! {

/// A live sandboxed module instance.
pub struct SandboxInstance {
    instance: wasmer::Instance,
    memory: wasmer::Memory,
    store: wasmer::Store,
    prepare_data: wasmer::Function,
    buffer_array_create: wasmer::Function,
    buffer_array_set_buffer: wasmer::Function,
    aggregate: wasmer::Function,
    wasi_env: wasmer_wasix::WasiFunctionEnv,
    closed: bool,
    ops: Ghost<Seq<GuestOp>>,
    mem: Ghost<Map<int, u8>>,
}

/// The success payload of an aggregation: the aggregated bytes and a
/// digest over them.
pub struct Aggregation {
    pub data: Vec<u8>,
    pub digest: Vec<u8>,
}

/// Which buffer-returning accessor of a guest result object to call.
/// Fixing the choices here keeps every accessor the host can reach
/// recorded faithfully in the trace.
pub enum ResultBufferAccessor {
    /// `prepare_data_result_get_data`
    PrepareData,
    /// `aggregate_result_get_data`
    AggregateData,
    /// `aggregate_result_get_digest`
    AggregateDigest,
}

/// Which error-flag accessor of a guest result object to call.
pub enum ResultFlagAccessor {
    /// `prepare_data_result_is_error`
    PrepareIsError,
    /// `aggregate_result_is_error`
    AggregateIsError,
}

impl SandboxInstance {
    /// The trace of host calls made into this guest so far.
    pub closed spec fn trace(&self) -> Seq<GuestOp> {
        self.ops@
    }

    /// The model of this guest's linear memory.
    pub closed spec fn guest_mem(&self) -> Map<int, u8> {
        self.mem@
    }

    /// Whether the guest runtime environment was notified of shutdown.
    pub closed spec fn is_closed(&self) -> bool {
        self.closed
    }

    /// The engine's own instance value.
    pub fn inner(&self) -> &wasmer::Instance {
        &self.instance
    }

    /// The instance's private linear memory.
    pub fn memory(&self) -> &wasmer::Memory {
        &self.memory
    }

    /// The store the instance executes in.
    pub fn store(&self) -> &wasmer::Store {
        &self.store
    }

    /// Relies on the guest's `buffer_create` export, reached through
    /// `wasmer::Exports::get_function` and `wasmer::Function::call`.
    #[verifier::external_body]
    pub(crate) fn guest_buffer_create(&mut self, len: usize) -> (r: Result<i32, Error>)
        requires
            !old(self).is_closed(),
        ensures
            !final(self).is_closed(),
            r matches Ok(h) ==> final(self).trace() =~= old(self).trace().push(
                GuestOp::AllocBuffer { handle: h as int, len: len as int },
            ),
            r matches Err(_) ==> final(self).trace() == old(self).trace(),
    {
        let f = match self.instance.exports.get_function("buffer_create") {
            Ok(f) => f,
            Err(e) => return Err(Error::Export(format!("export: {e}").into_bytes())),
        };
        let vals = match f.call(&mut self.store, &[wasmer::Value::I32(len as i32)]) {
            Ok(v) => v,
            Err(e) => return Err(Error::Runtime(format!("runtime: {e}").into_bytes())),
        };
        match vals.first() {
            Some(wasmer::Value::I32(h)) => Ok(*h),
            _ => Err(Error::Runtime("buffer_create did not return an i32".into())),
        }
    }

    /// Relies on the guest's `buffer_get_mut_ptr` export: the pointer
    /// the guest reports for a buffer handle, widened to a memory
    /// address.
    #[verifier::external_body]
    pub(crate) fn guest_buffer_ptr(&mut self, handle: i32) -> (r: Result<u64, Error>)
        requires
            !old(self).is_closed(),
        ensures
            !final(self).is_closed(),
            r matches Ok(p) ==> final(self).trace() =~= old(self).trace().push(
                GuestOp::QueryPtr { handle: handle as int, ptr: p as int },
            ),
            r matches Err(_) ==> final(self).trace() == old(self).trace(),
    {
        let f = match self.instance.exports.get_function("buffer_get_mut_ptr") {
            Ok(f) => f,
            Err(e) => return Err(Error::Export(format!("export: {e}").into_bytes())),
        };
        let vals = match f.call(&mut self.store, &[wasmer::Value::I32(handle)]) {
            Ok(v) => v,
            Err(e) => return Err(Error::Runtime(format!("runtime: {e}").into_bytes())),
        };
        match vals.first() {
            Some(wasmer::Value::I32(p)) => Ok(*p as u64),
            _ => Err(Error::Runtime("buffer_get_mut_ptr did not return an i32".into())),
        }
    }

    /// Relies on the guest's `buffer_len` export: the byte length the
    /// guest reports for a buffer handle.
    #[verifier::external_body]
    pub(crate) fn guest_buffer_len(&mut self, handle: i32) -> (r: Result<usize, Error>)
        requires
            !old(self).is_closed(),
        ensures
            !final(self).is_closed(),
            r matches Ok(n) ==> final(self).trace() =~= old(self).trace().push(
                GuestOp::QueryLen { handle: handle as int, len: n as int },
            ),
            r matches Err(_) ==> final(self).trace() == old(self).trace(),
    {
        let f = match self.instance.exports.get_function("buffer_len") {
            Ok(f) => f,
            Err(e) => return Err(Error::Export(format!("export: {e}").into_bytes())),
        };
        let vals = match f.call(&mut self.store, &[wasmer::Value::I32(handle)]) {
            Ok(v) => v,
            Err(e) => return Err(Error::Runtime(format!("runtime: {e}").into_bytes())),
        };
        match vals.first() {
            Some(wasmer::Value::I32(n)) => Ok(*n as usize),
            _ => Err(Error::Runtime("buffer_len did not return an i32".into())),
        }
    }

    /// Relies on the guest's `buffer_destroy` export.  The destructor
    /// attempt is recorded whether or not the guest completed it; a
    /// resolution failure of the export still counts as the attempt,
    /// since the host can do no more with the handle either way.
    #[verifier::external_body]
    pub(crate) fn guest_buffer_destroy(&mut self, handle: i32) -> (r: Result<(), Error>)
        requires
            !old(self).is_closed(),
        ensures
            !final(self).is_closed(),
            final(self).trace() =~= old(self).trace().push(
                GuestOp::FreeBuffer { handle: handle as int },
            ),
    {
        let f = match self.instance.exports.get_function("buffer_destroy") {
            Ok(f) => f,
            Err(e) => return Err(Error::Export(format!("export: {e}").into_bytes())),
        };
        match f.call(&mut self.store, &[wasmer::Value::I32(handle)]) {
            Ok(_) => Ok(()),
            Err(e) => Err(Error::Runtime(format!("runtime: {e}").into_bytes())),
        }
    }

    /// Relies on the guest's `buffer_array_create` export, called
    /// through the entry point resolved at construction.
    #[verifier::external_body]
    pub(crate) fn guest_array_create(&mut self, n: usize) -> (r: Result<i32, Error>)
        requires
            !old(self).is_closed(),
        ensures
            !final(self).is_closed(),
            r matches Ok(h) ==> final(self).trace() =~= old(self).trace().push(
                GuestOp::AllocArray { handle: h as int, len: n as int },
            ),
            r matches Err(_) ==> final(self).trace() == old(self).trace(),
    {
        let vals = match self.buffer_array_create.call(
            &mut self.store,
            &[wasmer::Value::I32(n as i32)],
        ) {
            Ok(v) => v,
            Err(e) => return Err(Error::Runtime(format!("runtime: {e}").into_bytes())),
        };
        match vals.first() {
            Some(wasmer::Value::I32(h)) => Ok(*h),
            _ => Err(Error::Runtime("buffer_array_create did not return an i32".into())),
        }
    }

    /// Relies on the guest's `buffer_array_set_buffer` export, called
    /// through the entry point resolved at construction.
    #[verifier::external_body]
    pub(crate) fn guest_array_set(&mut self, array: i32, index: usize, buffer: i32) -> (r: Result<
        (),
        Error,
    >)
        requires
            !old(self).is_closed(),
        ensures
            !final(self).is_closed(),
            r matches Ok(_) ==> final(self).trace() =~= old(self).trace().push(
                GuestOp::ArraySet { array: array as int, index: index as int, buffer: buffer as int },
            ),
            r matches Err(_) ==> final(self).trace() == old(self).trace(),
    {
        let args = [wasmer::Value::I32(array), wasmer::Value::I32(index as i32), wasmer::Value::I32(buffer)];
        match self.buffer_array_set_buffer.call(&mut self.store, &args) {
            Ok(_) => Ok(()),
            Err(e) => Err(Error::Runtime(format!("runtime: {e}").into_bytes())),
        }
    }

    /// Relies on the guest's `prepare_data` entry point: returns the
    /// guest result handle.  The invocation attempt, with its argument
    /// handles, is recorded whether or not the guest completed it.
    #[verifier::external_body]
    pub(crate) fn guest_prepare_data(&mut self, config: i32, request: i32) -> (r: Result<
        i32,
        Error,
    >)
        requires
            !old(self).is_closed(),
        ensures
            !final(self).is_closed(),
            final(self).trace() =~= old(self).trace().push(
                GuestOp::InvokePrepare { config: config as int, request: request as int },
            ),
    {
        let args = [wasmer::Value::I32(config), wasmer::Value::I32(request)];
        let vals = match self.prepare_data.call(&mut self.store, &args) {
            Ok(v) => v,
            Err(e) => return Err(Error::Runtime(format!("runtime: {e}").into_bytes())),
        };
        match vals.first() {
            Some(wasmer::Value::I32(h)) => Ok(*h),
            _ => Err(Error::Runtime("prepare_data did not return an i32".into())),
        }
    }

    /// Relies on the guest's `aggregate` entry point: returns the guest
    /// result handle.  The invocation attempt, with its argument
    /// handles, is recorded whether or not the guest completed it.
    #[verifier::external_body]
    pub(crate) fn guest_aggregate(&mut self, config: i32, array: i32, request: i32) -> (r: Result<
        i32,
        Error,
    >)
        requires
            !old(self).is_closed(),
        ensures
            !final(self).is_closed(),
            final(self).trace() =~= old(self).trace().push(
                GuestOp::InvokeAggregate {
                    config: config as int,
                    array: array as int,
                    request: request as int,
                },
            ),
    {
        let args = [wasmer::Value::I32(config), wasmer::Value::I32(array), wasmer::Value::I32(request)];
        let vals = match self.aggregate.call(&mut self.store, &args) {
            Ok(v) => v,
            Err(e) => return Err(Error::Runtime(format!("runtime: {e}").into_bytes())),
        };
        match vals.first() {
            Some(wasmer::Value::I32(h)) => Ok(*h),
            _ => Err(Error::Runtime("aggregate did not return an i32".into())),
        }
    }

    /// Relies on a guest result accessor export (`..._get_data`,
    /// `..._get_digest`): the buffer handle it returns for the result.
    /// The accessor names are fixed here, so every accessor the host
    /// can reach is the one the trace accounts for; a digest query the
    /// guest answered is recorded.
    #[verifier::external_body]
    pub(crate) fn guest_result_buffer(
        &mut self,
        accessor: ResultBufferAccessor,
        result: i32,
    ) -> (r: Result<i32, Error>)
        requires
            !old(self).is_closed(),
        ensures
            !final(self).is_closed(),
            accessor matches ResultBufferAccessor::AggregateDigest ==> {
                &&& (r matches Ok(h) ==> final(self).trace() =~= old(self).trace().push(
                    GuestOp::QueryDigest { result: result as int, buffer: h as int },
                ))
                &&& (r matches Err(_) ==> final(self).trace() == old(self).trace())
            },
            !(accessor matches ResultBufferAccessor::AggregateDigest) ==> final(self).trace()
                == old(self).trace(),
    {
        let name = match accessor {
            ResultBufferAccessor::PrepareData => "prepare_data_result_get_data",
            ResultBufferAccessor::AggregateData => "aggregate_result_get_data",
            ResultBufferAccessor::AggregateDigest => "aggregate_result_get_digest",
        };
        let f = self.instance.exports.get_function(name)
            .map_err(|e| Error::Export(format!("export: {e}").into_bytes()))?;
        let vals = f.call(&mut self.store, &[wasmer::Value::I32(result)])
            .map_err(|e| Error::Runtime(format!("runtime: {e}").into_bytes()))?;
        match vals.first() {
            Some(wasmer::Value::I32(h)) => Ok(*h),
            _ => Err(Error::Runtime("result accessor did not return an i32".into())),
        }
    }

    /// Relies on a guest result error-flag accessor export
    /// (`..._is_error`): the raw flag it returns.  The accessor names
    /// are fixed here.
    #[verifier::external_body]
    pub(crate) fn guest_result_flag(
        &mut self,
        accessor: ResultFlagAccessor,
        result: i32,
    ) -> (r: Result<i32, Error>)
        requires
            !old(self).is_closed(),
        ensures
            !final(self).is_closed(),
            final(self).trace() == old(self).trace(),
    {
        let name = match accessor {
            ResultFlagAccessor::PrepareIsError => "prepare_data_result_is_error",
            ResultFlagAccessor::AggregateIsError => "aggregate_result_is_error",
        };
        let f = self.instance.exports.get_function(name)
            .map_err(|e| Error::Export(format!("export: {e}").into_bytes()))?;
        let vals = f.call(&mut self.store, &[wasmer::Value::I32(result)])
            .map_err(|e| Error::Runtime(format!("runtime: {e}").into_bytes()))?;
        match vals.first() {
            Some(wasmer::Value::I32(flag)) => Ok(*flag),
            _ => Err(Error::Runtime("is_error accessor did not return an i32".into())),
        }
    }

    /// Relies on the guest's `prepare_data_result_destroy` export.  The
    /// destructor attempt is recorded whether or not the guest
    /// completed it; a resolution failure of the export still counts
    /// as the attempt, since the host can do no more with the handle
    /// either way.
    #[verifier::external_body]
    pub(crate) fn guest_prepare_result_destroy(&mut self, result: i32) -> (r: Result<(), Error>)
        requires
            !old(self).is_closed(),
        ensures
            !final(self).is_closed(),
            final(self).trace() =~= old(self).trace().push(
                GuestOp::FreePrepareResult { handle: result as int },
            ),
    {
        let f = match self.instance.exports.get_function("prepare_data_result_destroy") {
            Ok(f) => f,
            Err(e) => return Err(Error::Export(format!("export: {e}").into_bytes())),
        };
        match f.call(&mut self.store, &[wasmer::Value::I32(result)]) {
            Ok(_) => Ok(()),
            Err(e) => Err(Error::Runtime(format!("runtime: {e}").into_bytes())),
        }
    }

    /// Relies on the guest's `aggregate_result_destroy` export.  The
    /// destructor attempt is recorded whether or not the guest
    /// completed it; a resolution failure of the export still counts
    /// as the attempt, since the host can do no more with the handle
    /// either way.
    #[verifier::external_body]
    pub(crate) fn guest_aggregate_result_destroy(&mut self, result: i32) -> (r: Result<(), Error>)
        requires
            !old(self).is_closed(),
        ensures
            !final(self).is_closed(),
            final(self).trace() =~= old(self).trace().push(
                GuestOp::FreeAggregateResult { handle: result as int },
            ),
    {
        let f = match self.instance.exports.get_function("aggregate_result_destroy") {
            Ok(f) => f,
            Err(e) => return Err(Error::Export(format!("export: {e}").into_bytes())),
        };
        match f.call(&mut self.store, &[wasmer::Value::I32(result)]) {
            Ok(_) => Ok(()),
            Err(e) => Err(Error::Runtime(format!("runtime: {e}").into_bytes())),
        }
    }

    /// Relies on `wasmer::MemoryView::read`: the engine's bounds-checked
    /// read of guest memory.
    #[verifier::external_body]
    pub(crate) fn read_memory(&self, ptr: u64, len: usize) -> (r: Result<Vec<u8>, Error>)
        requires
            !self.is_closed(),
        ensures
            r matches Ok(bytes) ==> bytes@ =~= mem_bytes(self.guest_mem(), ptr as int, len as nat),
            r matches Err(e) ==> e matches Error::MemoryAccess(_),
    {
        let mut data = vec![0u8; len];
        match self.memory.view(&self.store).read(ptr, &mut data) {
            Ok(()) => Ok(data),
            Err(e) => Err(Error::MemoryAccess(format!("memory access: {e}").into_bytes())),
        }
    }

    /// Relies on `wasmer::MemoryView::write`: the engine's
    /// bounds-checked write of guest memory.
    #[verifier::external_body]
    pub(crate) fn write_memory(&mut self, ptr: u64, data: &[u8]) -> (r: Result<(), Error>)
        requires
            !old(self).is_closed(),
        ensures
            !final(self).is_closed(),
            r matches Ok(_) ==> {
                &&& final(self).trace() =~= old(self).trace().push(
                    GuestOp::WriteMem { ptr: ptr as int, data: data@ },
                )
                &&& final(self).guest_mem() == mem_write(old(self).guest_mem(), ptr as int, data@)
            },
            r matches Err(e) ==> final(self).trace() == old(self).trace() && e matches Error::MemoryAccess(_),
    {
        match self.memory.view(&self.store).write(ptr, data) {
            Ok(()) => Ok(()),
            Err(e) => Err(Error::MemoryAccess(format!("memory access: {e}").into_bytes())),
        }
    }

    /// Relies on `WasiFunctionEnv::on_exit` of wasmer-wasix: notifies
    /// the guest runtime environment of shutdown.
    #[verifier::external_body]
    fn guest_on_exit(&mut self) -> (r: ())
        requires
            !old(self).is_closed(),
        ensures
            !final(self).is_closed(),
            final(self).trace() == old(self).trace(),
            final(self).guest_mem() == old(self).guest_mem(),
    {
        self.wasi_env.on_exit(&mut self.store, None);
    }

    /// Compiles and instantiates a module under `engine`, binds fresh
    /// guest memory to the module's memory import, initializes the
    /// guest runtime environment, and resolves the four required entry
    /// points.  Needs the task-execution context `rt` for the engine's
    /// ambient-context requirement.
    pub fn new(rt: &tokio::runtime::Runtime, wasm_engine: &wasmer::Engine, wasm_bytes: &[u8])
        -> (r: Result<SandboxInstance, Error>)
        ensures
            r matches Ok(i) ==> !i.is_closed() && i.trace() =~= Seq::<GuestOp>::empty(),
            r matches Err(e) ==> {
                ||| e matches Error::Compile(_)
                ||| e matches Error::WasiRuntime(_)
                ||| e matches Error::Memory(_)
                ||| e matches Error::Instantiation(_)
                ||| e matches Error::Export(_)
            },
    {
        let mut store = engine::new_store(wasm_engine);
        let module = match engine::compile_module(&store, wasm_bytes) {
            Ok(m) => m,
            Err(e) => { return Err(e); },
        };
        let mut wasi_env = match engine::build_wasi_env(
            rt,
            wasm_engine,
            &mut store,
            "wasm-processor-prototype",
        ) {
            Ok(w) => w,
            Err(e) => { return Err(e); },
        };
        let mut imports = engine::wasi_imports(rt, &mut store, &wasi_env, false);
        let newer = engine::wasi_imports(rt, &mut store, &wasi_env, true);
        engine::extend_imports(&mut imports, &newer);
        let (namespace, name, memory_ty) = match engine::memory_import(&module) {
            Some(t) => t,
            None => {
                return Err(Error::Instantiation(engine::str_bytes(
                    "instantiation: module lacks a memory import",
                )));
            },
        };
        let memory = match engine::new_memory(&mut store, &memory_ty) {
            Ok(m) => m,
            Err(e) => { return Err(e); },
        };
        engine::define_memory(&mut imports, namespace.as_str(), name.as_str(), &memory);
        let wasm_instance = match engine::instantiate(rt, &mut store, &module, &imports) {
            Ok(i) => i,
            Err(e) => { return Err(e); },
        };
        match engine::wasi_initialize(rt, &mut store, &mut wasi_env, &wasm_instance, &memory) {
            Ok(()) => (),
            Err(e) => { return Err(e); },
        }
        let prepare_data = match engine::get_export_function(&wasm_instance, "prepare_data") {
            Ok(f) => f,
            Err(e) => { return Err(e); },
        };
        let buffer_array_create = match engine::get_export_function(
            &wasm_instance,
            "buffer_array_create",
        ) {
            Ok(f) => f,
            Err(e) => { return Err(e); },
        };
        let buffer_array_set_buffer = match engine::get_export_function(
            &wasm_instance,
            "buffer_array_set_buffer",
        ) {
            Ok(f) => f,
            Err(e) => { return Err(e); },
        };
        let aggregate = match engine::get_export_function(&wasm_instance, "aggregate") {
            Ok(f) => f,
            Err(e) => { return Err(e); },
        };
        Ok(SandboxInstance {
            instance: wasm_instance,
            memory,
            store,
            prepare_data,
            buffer_array_create,
            buffer_array_set_buffer,
            aggregate,
            wasi_env,
            closed: false,
            ops: Ghost(Seq::empty()),
            mem: Ghost(Map::empty()),
        })
    }

    /// Writes both arguments into fresh guest buffers, invokes the
    /// guest's `prepare_data` entry point — exactly once, with those
    /// two buffer handles, and never after a marshaling failure — and
    /// decodes the result: engine faults outside, business outcome
    /// inside.  When the call reaches a result object, that object's
    /// guest destructor is attempted exactly once.
    #[verifier::rlimit(40)]
    pub fn prepare_data(&mut self, config: &[u8], request: &[u8]) -> (r: Result<
        Result<Vec<u8>, String>,
        Error,
    >)
        requires
            !old(self).is_closed(),
        ensures
            !final(self).is_closed(),
            old(self).trace().is_prefix_of(final(self).trace()),
            count_invoke_prepare(final(self).trace()) <= count_invoke_prepare(old(self).trace())
                + 1,
            count_invoke_prepare(final(self).trace()) > count_invoke_prepare(old(self).trace())
                ==> (exists|c: int, q: int|
                {
                    &&& buffer_holds(final(self).trace(), c, config@.len() as int, config@)
                    &&& buffer_holds(final(self).trace(), q, request@.len() as int, request@)
                    &&& final(self).trace().contains(
                        GuestOp::InvokePrepare { config: c, request: q },
                    )
                }),
            r matches Ok(_) ==> count_invoke_prepare(final(self).trace()) == count_invoke_prepare(
                old(self).trace(),
            ) + 1,
            r matches Ok(_) ==> (exists|h: int|
                count_free_prepare(final(self).trace(), h) == count_free_prepare(
                    old(self).trace(),
                    h,
                ) + 1),
    {
        let ghost t0 = self.trace();
        let config_buffer = match Buffer::new_with_data(self, config) {
            Ok(b) => b,
            Err(e) => {
                proof {
                    lemma_buffer_ops_failed_create(t0, self.trace());
                }
                return Err(e);
            },
        };
        let ghost t1 = self.trace();
        proof {
            lemma_buffer_ops_created(
                t0,
                t1,
                config_buffer.spec_handle(),
                config@.len() as int,
                config_buffer.spec_ptr(),
                config@.len() as int,
                config@,
            );
            assert(t1[t0.len() as int] == (GuestOp::AllocBuffer {
                handle: config_buffer.spec_handle(),
                len: config@.len() as int,
            }));
            assert(t1[t0.len() as int + 1] == (GuestOp::QueryPtr {
                handle: config_buffer.spec_handle(),
                ptr: config_buffer.spec_ptr(),
            }));
            assert(t1[t0.len() as int + 3] == (GuestOp::WriteMem {
                ptr: config_buffer.spec_ptr(),
                data: config@,
            }));
            assert(buffer_holds(t1, config_buffer.spec_handle(), config@.len() as int, config@)) by {
                assert(t1.contains(GuestOp::AllocBuffer { handle: config_buffer.spec_handle(), len: config@.len() as int }));
                assert(t1.contains(GuestOp::QueryPtr { handle: config_buffer.spec_handle(), ptr: config_buffer.spec_ptr() }));
                assert(t1.contains(GuestOp::WriteMem { ptr: config_buffer.spec_ptr(), data: config@ }));
            }
        }
        let request_buffer = match Buffer::new_with_data(self, request) {
            Ok(b) => b,
            Err(e) => {
                proof {
                    lemma_buffer_ops_failed_create(t1, self.trace());
                    lemma_buffer_ops_trans(t0, t1, self.trace());
                }
                return Err(e);
            },
        };
        let ghost t2 = self.trace();
        proof {
            lemma_buffer_ops_created(
                t1,
                t2,
                request_buffer.spec_handle(),
                request@.len() as int,
                request_buffer.spec_ptr(),
                request@.len() as int,
                request@,
            );
            lemma_buffer_ops_trans(t0, t1, t2);
            assert(t2[t1.len() as int] == (GuestOp::AllocBuffer {
                handle: request_buffer.spec_handle(),
                len: request@.len() as int,
            }));
            assert(t2[t1.len() as int + 1] == (GuestOp::QueryPtr {
                handle: request_buffer.spec_handle(),
                ptr: request_buffer.spec_ptr(),
            }));
            assert(t2[t1.len() as int + 3] == (GuestOp::WriteMem {
                ptr: request_buffer.spec_ptr(),
                data: request@,
            }));
            assert(buffer_holds(t2, request_buffer.spec_handle(), request@.len() as int, request@)) by {
                assert(t2.contains(GuestOp::AllocBuffer { handle: request_buffer.spec_handle(), len: request@.len() as int }));
                assert(t2.contains(GuestOp::QueryPtr { handle: request_buffer.spec_handle(), ptr: request_buffer.spec_ptr() }));
                assert(t2.contains(GuestOp::WriteMem { ptr: request_buffer.spec_ptr(), data: request@ }));
            }
            lemma_buffer_holds_prefix(
                t1,
                t2,
                config_buffer.spec_handle(),
                config@.len() as int,
                config@,
            );
        }
        let call_outcome = self.guest_prepare_data(config_buffer.inner(), request_buffer.inner());
        let ghost t3 = self.trace();
        let ghost invoke_op = GuestOp::InvokePrepare {
            config: config_buffer.spec_handle(),
            request: request_buffer.spec_handle(),
        };
        proof {
            lemma_prefix_push(t2, invoke_op);
            lemma_prefix_trans(t0, t2, t3);
            assert forall|k: int|
                count_free_prepare(t3, k) == count_free_prepare(t2, k) && count_free_aggregate(
                    t3,
                    k,
                ) == count_free_aggregate(t2, k) by {
                lemma_counts_push(t2, invoke_op, k, 0, 0);
            }
            lemma_counts_push(t2, invoke_op, 0, 0, 0);
            assert(t3[t2.len() as int] == invoke_op);
            lemma_buffer_holds_prefix(
                t2,
                t3,
                config_buffer.spec_handle(),
                config@.len() as int,
                config@,
            );
            lemma_buffer_holds_prefix(
                t2,
                t3,
                request_buffer.spec_handle(),
                request@.len() as int,
                request@,
            );
            assert(exists|c: int, q: int|
                {
                    &&& buffer_holds(self.trace(), c, config@.len() as int, config@)
                    &&& buffer_holds(self.trace(), q, request@.len() as int, request@)
                    &&& self.trace().contains(GuestOp::InvokePrepare { config: c, request: q })
                }) by {
                assert(buffer_holds(
                    self.trace(),
                    config_buffer.spec_handle(),
                    config@.len() as int,
                    config@,
                ));
                assert(buffer_holds(
                    self.trace(),
                    request_buffer.spec_handle(),
                    request@.len() as int,
                    request@,
                ));
                assert(self.trace().contains(invoke_op));
            }
        }
        let result_handle = match call_outcome {
            Ok(h) => h,
            Err(e) => { return Err(e); },
        };
        let out = convert_prepare_data_result(self, result_handle);
        proof {
            lemma_prefix_trans(t0, t3, self.trace());
            lemma_buffer_holds_prefix(
                t3,
                self.trace(),
                config_buffer.spec_handle(),
                config@.len() as int,
                config@,
            );
            lemma_buffer_holds_prefix(
                t3,
                self.trace(),
                request_buffer.spec_handle(),
                request@.len() as int,
                request@,
            );
            lemma_contains_prefix(t3, self.trace(), invoke_op);
            assert(count_free_prepare(self.trace(), result_handle as int) == count_free_prepare(
                t0,
                result_handle as int,
            ) + 1);
            assert(exists|c: int, q: int|
                {
                    &&& buffer_holds(self.trace(), c, config@.len() as int, config@)
                    &&& buffer_holds(self.trace(), q, request@.len() as int, request@)
                    &&& self.trace().contains(GuestOp::InvokePrepare { config: c, request: q })
                }) by {
                assert(buffer_holds(
                    self.trace(),
                    config_buffer.spec_handle(),
                    config@.len() as int,
                    config@,
                ));
                assert(buffer_holds(
                    self.trace(),
                    request_buffer.spec_handle(),
                    request@.len() as int,
                    request@,
                ));
                assert(self.trace().contains(invoke_op));
            }
        }
        out
    }

    /// Writes `config` into a guest buffer, creates a guest array of
    /// `data.len()` slots and registers each element of `data` — slot
    /// `i` receiving exactly the bytes of element `i`, each slot
    /// exactly once, stopping at the first fault — then writes
    /// `request` and invokes the guest's `aggregate` entry point with
    /// that config buffer, that array and that request buffer — at
    /// most once, and never after a marshaling failure — and decodes
    /// the result with its digest.  When the call reaches a result
    /// object, that object's guest destructor is attempted exactly
    /// once.
    #[verifier::rlimit(80)]
    pub fn aggregate(&mut self, config: &[u8], data: &[&[u8]], request: &[u8]) -> (r: Result<
        Result<Aggregation, String>,
        Error,
    >)
        requires
            !old(self).is_closed(),
        ensures
            !final(self).is_closed(),
            old(self).trace().is_prefix_of(final(self).trace()),
            count_invoke_aggregate(final(self).trace()) <= count_invoke_aggregate(
                old(self).trace(),
            ) + 1,
            count_invoke_aggregate(final(self).trace()) > count_invoke_aggregate(
                old(self).trace(),
            ) ==> (exists|c: int, arr: int, q: int|
                {
                    &&& buffer_holds(final(self).trace(), c, config@.len() as int, config@)
                    &&& buffer_holds(final(self).trace(), q, request@.len() as int, request@)
                    &&& final(self).trace().contains(
                        GuestOp::AllocArray { handle: arr, len: data@.len() as int },
                    )
                    &&& forall|i: int|
                        0 <= i < data@.len() ==> slot_filled(
                            final(self).trace(),
                            arr,
                            i,
                            data@[i]@,
                        )
                    &&& forall|i: int|
                        0 <= i < data@.len() ==> count_array_set(final(self).trace(), arr, i)
                            == count_array_set(old(self).trace(), arr, i) + 1
                    &&& final(self).trace().contains(
                        GuestOp::InvokeAggregate { config: c, array: arr, request: q },
                    )
                }),
            r matches Ok(_) ==> count_invoke_aggregate(final(self).trace())
                == count_invoke_aggregate(old(self).trace()) + 1,
            (forall|a: int, i: int|
                count_array_set(final(self).trace(), a, i) == count_array_set(
                    old(self).trace(),
                    a,
                    i,
                )) || (exists|arr: int, j: int|
                {
                    &&& final(self).trace().contains(
                        GuestOp::AllocArray { handle: arr, len: data@.len() as int },
                    )
                    &&& 0 <= j <= data@.len()
                    &&& slots_registered_up_to(old(self).trace(), final(self).trace(), arr, j)
                }),
            r matches Ok(_) ==> (exists|h: int|
                count_free_aggregate(final(self).trace(), h) == count_free_aggregate(
                    old(self).trace(),
                    h,
                ) + 1),
    {
        let ghost t0 = self.trace();
        let config_buffer = match Buffer::new_with_data(self, config) {
            Ok(b) => b,
            Err(e) => {
                proof {
                    lemma_buffer_ops_failed_create(t0, self.trace());
                }
                return Err(e);
            },
        };
        let ghost t1 = self.trace();
        let ghost cfg_h = config_buffer.spec_handle();
        proof {
            lemma_buffer_ops_created(
                t0,
                t1,
                cfg_h,
                config@.len() as int,
                config_buffer.spec_ptr(),
                config@.len() as int,
                config@,
            );
            assert(t1[t0.len() as int] == (GuestOp::AllocBuffer {
                handle: cfg_h,
                len: config@.len() as int,
            }));
            assert(t1[t0.len() as int + 1] == (GuestOp::QueryPtr {
                handle: cfg_h,
                ptr: config_buffer.spec_ptr(),
            }));
            assert(t1[t0.len() as int + 3] == (GuestOp::WriteMem {
                ptr: config_buffer.spec_ptr(),
                data: config@,
            }));
            assert(buffer_holds(t1, cfg_h, config@.len() as int, config@)) by {
                assert(t1.contains(GuestOp::AllocBuffer { handle: cfg_h, len: config@.len() as int }));
                assert(t1.contains(GuestOp::QueryPtr { handle: cfg_h, ptr: config_buffer.spec_ptr() }));
                assert(t1.contains(GuestOp::WriteMem { ptr: config_buffer.spec_ptr(), data: config@ }));
            }
        }
        let array_handle = match self.guest_array_create(data.len()) {
            Ok(h) => h,
            Err(e) => {
                proof {
                    lemma_buffer_ops_trans(t0, t1, t1);
                }
                return Err(e);
            },
        };
        let ghost arr = array_handle as int;
        let ghost t2 = self.trace();
        let ghost alloc_array_op = GuestOp::AllocArray { handle: arr, len: data@.len() as int };
        proof {
            lemma_prefix_push(t1, alloc_array_op);
            lemma_prefix_trans(t0, t1, t2);
            lemma_buffer_holds_prefix(t1, t2, cfg_h, config@.len() as int, config@);
            assert(t2[t1.len() as int] == alloc_array_op);
            assert forall|k: int|
                count_free_prepare(t2, k) == count_free_prepare(t0, k) && count_free_aggregate(
                    t2,
                    k,
                ) == count_free_aggregate(t0, k) by {
                lemma_counts_push(t1, alloc_array_op, k, 0, 0);
            }
            assert forall|a: int, i0: int| count_array_set(t2, a, i0) == count_array_set(
                t0,
                a,
                i0,
            ) by {
                lemma_counts_push(t1, alloc_array_op, 0, a, i0);
            }
            lemma_counts_push(t1, alloc_array_op, 0, 0, 0);
        }
        let mut index: usize = 0;
        while index < data.len()
            invariant
                !self.is_closed(),
                index <= data@.len(),
                t0 == old(self).trace(),
                arr == array_handle as int,
                t0.is_prefix_of(self.trace()),
                self.trace().contains(
                    GuestOp::AllocArray { handle: arr, len: data@.len() as int },
                ),
                buffer_holds(self.trace(), cfg_h, config@.len() as int, config@),
                forall|j: int| 0 <= j < index ==> slot_filled(self.trace(), arr, j, data@[j]@),
                forall|i0: int|
                    0 <= i0 < index ==> count_array_set(self.trace(), arr, i0) == count_array_set(
                        t0,
                        arr,
                        i0,
                    ) + 1,
                forall|i0: int|
                    !(0 <= i0 < index) ==> count_array_set(self.trace(), arr, i0)
                        == count_array_set(t0, arr, i0),
                forall|a: int, i0: int|
                    a != arr ==> count_array_set(self.trace(), a, i0) == count_array_set(
                        t0,
                        a,
                        i0,
                    ),
                count_invoke_prepare(self.trace()) == count_invoke_prepare(t0),
                count_invoke_aggregate(self.trace()) == count_invoke_aggregate(t0),
                forall|k: int| count_free_prepare(self.trace(), k) == count_free_prepare(t0, k),
                forall|k: int|
                    count_free_aggregate(self.trace(), k) == count_free_aggregate(t0, k),
            decreases data@.len() - index,
        {
            let element = data[index];
            let ghost ti = self.trace();
            let buffer = match Buffer::new_with_data(self, element) {
                Ok(b) => b,
                Err(e) => {
                    proof {
                        lemma_buffer_ops_failed_create(ti, self.trace());
                        lemma_prefix_trans(t0, ti, self.trace());
                        lemma_contains_prefix(
                            ti,
                            self.trace(),
                            GuestOp::AllocArray { handle: arr, len: data@.len() as int },
                        );
                        assert(exists|arr2: int, j: int|
                            {
                                &&& self.trace().contains(
                                    GuestOp::AllocArray { handle: arr2, len: data@.len() as int },
                                )
                                &&& 0 <= j <= data@.len()
                                &&& slots_registered_up_to(t0, self.trace(), arr2, j)
                            }) by {
                            assert(self.trace().contains(
                                GuestOp::AllocArray { handle: arr, len: data@.len() as int },
                            ));
                            assert(slots_registered_up_to(t0, self.trace(), arr, index as int));
                        }
                    }
                    return Err(e);
                },
            };
            let ghost tj = self.trace();
            proof {
                lemma_buffer_ops_created(
                    ti,
                    tj,
                    buffer.spec_handle(),
                    element@.len() as int,
                    buffer.spec_ptr(),
                    element@.len() as int,
                    element@,
                );
            }
            match self.guest_array_set(array_handle, index, buffer.inner()) {
                Ok(_) => (),
                Err(e) => {
                    proof {
                        lemma_prefix_trans(t0, ti, tj);
                        lemma_prefix_trans(t0, tj, self.trace());
                        lemma_contains_prefix(
                            ti,
                            tj,
                            GuestOp::AllocArray { handle: arr, len: data@.len() as int },
                        );
                        assert(exists|arr2: int, j: int|
                            {
                                &&& self.trace().contains(
                                    GuestOp::AllocArray { handle: arr2, len: data@.len() as int },
                                )
                                &&& 0 <= j <= data@.len()
                                &&& slots_registered_up_to(t0, self.trace(), arr2, j)
                            }) by {
                            assert(self.trace().contains(
                                GuestOp::AllocArray { handle: arr, len: data@.len() as int },
                            ));
                            assert(slots_registered_up_to(t0, self.trace(), arr, index as int));
                        }
                    }
                    return Err(e);
                },
            }
            let ghost tk = self.trace();
            let ghost set_op = GuestOp::ArraySet {
                array: arr,
                index: index as int,
                buffer: buffer.spec_handle(),
            };
            proof {
                assert(tk =~= tj.push(set_op));
                lemma_prefix_push(tj, set_op);
                lemma_prefix_trans(ti, tj, tk);
                lemma_prefix_trans(t0, ti, tk);
                lemma_contains_prefix(
                    ti,
                    tk,
                    GuestOp::AllocArray { handle: arr, len: data@.len() as int },
                );
                lemma_buffer_holds_prefix(ti, tk, cfg_h, config@.len() as int, config@);
                assert forall|k: int|
                    count_free_prepare(tk, k) == count_free_prepare(t0, k)
                        && count_free_aggregate(tk, k) == count_free_aggregate(t0, k) by {
                    lemma_counts_push(tj, set_op, k, 0, 0);
                }
                lemma_counts_push(tj, set_op, 0, 0, 0);
                assert forall|i0: int|
                    0 <= i0 < index + 1 implies count_array_set(tk, arr, i0) == count_array_set(
                    t0,
                    arr,
                    i0,
                ) + 1 by {
                    lemma_counts_push(tj, set_op, 0, arr, i0);
                }
                assert forall|i0: int|
                    !(0 <= i0 < index + 1) implies count_array_set(tk, arr, i0)
                        == count_array_set(t0, arr, i0) by {
                    lemma_counts_push(tj, set_op, 0, arr, i0);
                }
                assert forall|a: int, i0: int|
                    a != arr implies count_array_set(tk, a, i0) == count_array_set(
                    t0,
                    a,
                    i0,
                ) by {
                    lemma_counts_push(tj, set_op, 0, a, i0);
                }
                assert(tj =~= ti + seq![
                    GuestOp::AllocBuffer {
                        handle: buffer.spec_handle(),
                        len: element@.len() as int,
                    },
                    GuestOp::QueryPtr { handle: buffer.spec_handle(), ptr: buffer.spec_ptr() },
                    GuestOp::QueryLen {
                        handle: buffer.spec_handle(),
                        len: element@.len() as int,
                    },
                    GuestOp::WriteMem { ptr: buffer.spec_ptr(), data: element@ },
                ]);
                assert(tk[ti.len() as int] == (GuestOp::AllocBuffer {
                    handle: buffer.spec_handle(),
                    len: element@.len() as int,
                }));
                assert(tk[ti.len() as int + 1] == (GuestOp::QueryPtr {
                    handle: buffer.spec_handle(),
                    ptr: buffer.spec_ptr(),
                }));
                assert(tk[ti.len() as int + 3] == (GuestOp::WriteMem {
                    ptr: buffer.spec_ptr(),
                    data: element@,
                }));
                assert(tk[tj.len() as int] == set_op);
                assert(slot_filled(tk, arr, index as int, data@[index as int]@)) by {
                    assert(tk.contains(
                        GuestOp::AllocBuffer {
                            handle: buffer.spec_handle(),
                            len: element@.len() as int,
                        },
                    ));
                    assert(tk.contains(
                        GuestOp::QueryPtr { handle: buffer.spec_handle(), ptr: buffer.spec_ptr() },
                    ));
                    assert(tk.contains(
                        GuestOp::WriteMem { ptr: buffer.spec_ptr(), data: element@ },
                    ));
                    assert(tk.contains(set_op));
                }
                assert forall|j: int| 0 <= j < index + 1 implies slot_filled(
                    tk,
                    arr,
                    j,
                    data@[j]@,
                ) by {
                    if j < index {
                        lemma_slot_filled_prefix(ti, tk, arr, j, data@[j]@);
                    }
                }
            }
            index = index + 1;
        }
        let ghost t3 = self.trace();
        let request_buffer = match Buffer::new_with_data(self, request) {
            Ok(b) => b,
            Err(e) => {
                proof {
                    lemma_buffer_ops_failed_create(t3, self.trace());
                    lemma_prefix_trans(t0, t3, self.trace());
                    lemma_contains_prefix(
                        t3,
                        self.trace(),
                        GuestOp::AllocArray { handle: arr, len: data@.len() as int },
                    );
                    assert(exists|arr2: int, j: int|
                            {
                                &&& self.trace().contains(
                                    GuestOp::AllocArray { handle: arr2, len: data@.len() as int },
                                )
                                &&& 0 <= j <= data@.len()
                                &&& slots_registered_up_to(t0, self.trace(), arr2, j)
                            }) by {
                            assert(self.trace().contains(
                                GuestOp::AllocArray { handle: arr, len: data@.len() as int },
                            ));
                            assert(slots_registered_up_to(t0, self.trace(), arr, data@.len() as int));
                        }
                }
                return Err(e);
            },
        };
        let ghost t4 = self.trace();
        proof {
            lemma_buffer_ops_created(
                t3,
                t4,
                request_buffer.spec_handle(),
                request@.len() as int,
                request_buffer.spec_ptr(),
                request@.len() as int,
                request@,
            );
            lemma_prefix_trans(t0, t3, t4);
            lemma_buffer_holds_prefix(t3, t4, cfg_h, config@.len() as int, config@);
            lemma_contains_prefix(
                t3,
                t4,
                GuestOp::AllocArray { handle: arr, len: data@.len() as int },
            );
            assert(t4[t3.len() as int] == (GuestOp::AllocBuffer {
                handle: request_buffer.spec_handle(),
                len: request@.len() as int,
            }));
            assert(t4[t3.len() as int + 1] == (GuestOp::QueryPtr {
                handle: request_buffer.spec_handle(),
                ptr: request_buffer.spec_ptr(),
            }));
            assert(t4[t3.len() as int + 3] == (GuestOp::WriteMem {
                ptr: request_buffer.spec_ptr(),
                data: request@,
            }));
            assert(buffer_holds(t4, request_buffer.spec_handle(), request@.len() as int, request@)) by {
                assert(t4.contains(GuestOp::AllocBuffer { handle: request_buffer.spec_handle(), len: request@.len() as int }));
                assert(t4.contains(GuestOp::QueryPtr { handle: request_buffer.spec_handle(), ptr: request_buffer.spec_ptr() }));
                assert(t4.contains(GuestOp::WriteMem { ptr: request_buffer.spec_ptr(), data: request@ }));
            }
            assert forall|j: int| 0 <= j < data@.len() implies slot_filled(
                t4,
                arr,
                j,
                data@[j]@,
            ) by {
                lemma_slot_filled_prefix(t3, t4, arr, j, data@[j]@);
            }
        }
        let call_outcome = self.guest_aggregate(
            config_buffer.inner(),
            array_handle,
            request_buffer.inner(),
        );
        let ghost t5 = self.trace();
        let ghost invoke_op = GuestOp::InvokeAggregate {
            config: cfg_h,
            array: arr,
            request: request_buffer.spec_handle(),
        };
        proof {
            lemma_prefix_push(t4, invoke_op);
            lemma_prefix_trans(t0, t4, t5);
            assert(t5[t4.len() as int] == invoke_op);
            assert forall|k: int|
                count_free_prepare(t5, k) == count_free_prepare(t4, k) && count_free_aggregate(
                    t5,
                    k,
                ) == count_free_aggregate(t4, k) by {
                lemma_counts_push(t4, invoke_op, k, 0, 0);
            }
            assert forall|a: int, i0: int| count_array_set(t5, a, i0) == count_array_set(
                t4,
                a,
                i0,
            ) by {
                lemma_counts_push(t4, invoke_op, 0, a, i0);
            }
            lemma_counts_push(t4, invoke_op, 0, 0, 0);
            lemma_buffer_holds_prefix(t4, t5, cfg_h, config@.len() as int, config@);
            lemma_buffer_holds_prefix(
                t4,
                t5,
                request_buffer.spec_handle(),
                request@.len() as int,
                request@,
            );
            lemma_contains_prefix(
                t4,
                t5,
                GuestOp::AllocArray { handle: arr, len: data@.len() as int },
            );
            assert forall|j: int| 0 <= j < data@.len() implies slot_filled(
                t5,
                arr,
                j,
                data@[j]@,
            ) by {
                lemma_slot_filled_prefix(t4, t5, arr, j, data@[j]@);
            }
            assert(exists|c: int, arr2: int, q: int|
                {
                    &&& buffer_holds(self.trace(), c, config@.len() as int, config@)
                    &&& buffer_holds(self.trace(), q, request@.len() as int, request@)
                    &&& self.trace().contains(
                        GuestOp::AllocArray { handle: arr2, len: data@.len() as int },
                    )
                    &&& forall|i: int|
                        0 <= i < data@.len() ==> slot_filled(self.trace(), arr2, i, data@[i]@)
                    &&& forall|i: int|
                        0 <= i < data@.len() ==> count_array_set(self.trace(), arr2, i)
                            == count_array_set(t0, arr2, i) + 1
                    &&& self.trace().contains(
                        GuestOp::InvokeAggregate { config: c, array: arr2, request: q },
                    )
                }) by {
                assert(buffer_holds(self.trace(), cfg_h, config@.len() as int, config@));
                assert(buffer_holds(
                    self.trace(),
                    request_buffer.spec_handle(),
                    request@.len() as int,
                    request@,
                ));
                assert(self.trace().contains(
                    GuestOp::AllocArray { handle: arr, len: data@.len() as int },
                ));
                assert(self.trace().contains(invoke_op));
            }
            assert(exists|arr2: int, j: int|
                            {
                                &&& self.trace().contains(
                                    GuestOp::AllocArray { handle: arr2, len: data@.len() as int },
                                )
                                &&& 0 <= j <= data@.len()
                                &&& slots_registered_up_to(t0, self.trace(), arr2, j)
                            }) by {
                            assert(self.trace().contains(
                                GuestOp::AllocArray { handle: arr, len: data@.len() as int },
                            ));
                            assert(slots_registered_up_to(t0, self.trace(), arr, data@.len() as int));
                        }
        }
        let result_handle = match call_outcome {
            Ok(h) => h,
            Err(e) => { return Err(e); },
        };
        let out = convert_aggregate_result(self, result_handle);
        let ghost t6 = self.trace();
        proof {
            lemma_prefix_trans(t0, t5, t6);
            lemma_buffer_holds_prefix(t5, t6, cfg_h, config@.len() as int, config@);
            lemma_buffer_holds_prefix(
                t5,
                t6,
                request_buffer.spec_handle(),
                request@.len() as int,
                request@,
            );
            lemma_contains_prefix(
                t5,
                t6,
                GuestOp::AllocArray { handle: arr, len: data@.len() as int },
            );
            lemma_contains_prefix(t5, t6, invoke_op);
            assert forall|j: int| 0 <= j < data@.len() implies slot_filled(
                t6,
                arr,
                j,
                data@[j]@,
            ) by {
                lemma_slot_filled_prefix(t5, t6, arr, j, data@[j]@);
            }
            assert(count_free_aggregate(t6, result_handle as int) == count_free_aggregate(
                t0,
                result_handle as int,
            ) + 1);
            assert(exists|c: int, arr2: int, q: int|
                {
                    &&& buffer_holds(self.trace(), c, config@.len() as int, config@)
                    &&& buffer_holds(self.trace(), q, request@.len() as int, request@)
                    &&& self.trace().contains(
                        GuestOp::AllocArray { handle: arr2, len: data@.len() as int },
                    )
                    &&& forall|i: int|
                        0 <= i < data@.len() ==> slot_filled(self.trace(), arr2, i, data@[i]@)
                    &&& forall|i: int|
                        0 <= i < data@.len() ==> count_array_set(self.trace(), arr2, i)
                            == count_array_set(t0, arr2, i) + 1
                    &&& self.trace().contains(
                        GuestOp::InvokeAggregate { config: c, array: arr2, request: q },
                    )
                }) by {
                assert(buffer_holds(self.trace(), cfg_h, config@.len() as int, config@));
                assert(buffer_holds(
                    self.trace(),
                    request_buffer.spec_handle(),
                    request@.len() as int,
                    request@,
                ));
                assert(self.trace().contains(
                    GuestOp::AllocArray { handle: arr, len: data@.len() as int },
                ));
                assert(self.trace().contains(invoke_op));
            }
            assert(exists|arr2: int, j: int|
                            {
                                &&& self.trace().contains(
                                    GuestOp::AllocArray { handle: arr2, len: data@.len() as int },
                                )
                                &&& 0 <= j <= data@.len()
                                &&& slots_registered_up_to(t0, self.trace(), arr2, j)
                            }) by {
                            assert(self.trace().contains(
                                GuestOp::AllocArray { handle: arr, len: data@.len() as int },
                            ));
                            assert(slots_registered_up_to(t0, self.trace(), arr, data@.len() as int));
                        }
        }
        out
    }


    /// Notifies the guest runtime environment of shutdown and marks the
    /// instance closed.  Must happen exactly once, before the instance
    /// is released.
    pub fn close(&mut self)
        requires
            !old(self).is_closed(),
        ensures
            final(self).is_closed(),
            final(self).trace() == old(self).trace(),
    {
        self.guest_on_exit();
        self.closed = true;
    }
}

/// The boundary form of a `prepare_data` outcome: one owned buffer
/// holding either the success payload or error message text, with the
/// discriminating flag.
pub struct PrepareDataResult {
    pub data: crate::Buffer,
    pub is_error: bool,
}

/// Wraps a `prepare_data` outcome for the boundary: a business success
/// keeps its payload, a business error keeps its message text, and an
/// engine fault is downgraded to prefixed message text — the two error
/// sources share the flag and differ only in message text.
pub fn prepare_data_result_from(outcome: Result<Result<Vec<u8>, String>, Error>) -> (r:
    PrepareDataResult)
    ensures
        outcome matches Ok(inner) ==> (inner matches Ok(d) ==> (!r.is_error && r.data.view()
            == d@)),
        outcome matches Ok(inner) ==> (inner matches Err(m) ==> (r.is_error && r.data.view()
            == engine::char_bytes(m@))),
        outcome matches Err(e) ==> (r.is_error && r.data.view() =~= crate::spec_runtime_error_message(
            e,
        )),
{
    match outcome {
        Ok(Ok(data)) => PrepareDataResult { data: crate::Buffer { data }, is_error: false },
        Ok(Err(message)) => PrepareDataResult {
            data: crate::Buffer { data: engine::string_bytes(message) },
            is_error: true,
        },
        Err(e) => PrepareDataResult {
            data: crate::Buffer { data: crate::runtime_error_bytes(&e) },
            is_error: true,
        },
    }
}

/// One boundary call of the guest's `prepare_data` entry point: the
/// argument bytes handed down are exactly the input slices' bytes.
pub fn instance_prepare_data(
    instance: &mut SandboxInstance,
    config: &crate::Slice<'_>,
    request: &crate::Slice<'_>,
) -> (r: PrepareDataResult)
    requires
        !old(instance).is_closed(),
    ensures
        !final(instance).is_closed(),
        old(instance).trace().is_prefix_of(final(instance).trace()),
        count_invoke_prepare(final(instance).trace()) <= count_invoke_prepare(
            old(instance).trace(),
        ) + 1,
        count_invoke_prepare(final(instance).trace()) > count_invoke_prepare(
            old(instance).trace(),
        ) ==> (exists|c: int, q: int|
            {
                &&& buffer_holds(final(instance).trace(), c, config.data@.len() as int, config.data@)
                &&& buffer_holds(
                    final(instance).trace(),
                    q,
                    request.data@.len() as int,
                    request.data@,
                )
                &&& final(instance).trace().contains(
                    GuestOp::InvokePrepare { config: c, request: q },
                )
            }),
{
    let outcome = instance.prepare_data(config.data, request.data);
    prepare_data_result_from(outcome)
}

/// Consumes a `prepare_data` boundary result, freeing its owned buffer
/// exactly once.
pub fn prepare_data_result_destroy(result: PrepareDataResult) {
    let _ = result;
}

/// The boundary form of an `aggregate` outcome: the payload-or-message
/// buffer and flag as for `prepare_data`, plus the digest buffer,
/// present exactly when the business outcome succeeded.
pub struct AggregateResult {
    pub data: crate::Buffer,
    pub is_error: bool,
    pub digest: Option<Box<crate::Buffer>>,
}

/// Wraps an `aggregate` outcome for the boundary; the digest is
/// present exactly on business success.
pub fn aggregate_result_from(outcome: Result<Result<Aggregation, String>, Error>) -> (r:
    AggregateResult)
    ensures
        r.digest is Some <==> !r.is_error,
        outcome matches Ok(inner) ==> (inner matches Ok(a) ==> (!r.is_error && r.data.view()
            == a.data@ && (r.digest matches Some(d) && d.view() == a.digest@))),
        outcome matches Ok(inner) ==> (inner matches Err(m) ==> (r.is_error && r.data.view()
            == engine::char_bytes(m@))),
        outcome matches Err(e) ==> (r.is_error && r.data.view() =~= crate::spec_runtime_error_message(
            e,
        )),
{
    match outcome {
        Ok(Ok(aggregation)) => AggregateResult {
            data: crate::Buffer { data: aggregation.data },
            is_error: false,
            digest: Some(Box::new(crate::Buffer { data: aggregation.digest })),
        },
        Ok(Err(message)) => AggregateResult {
            data: crate::Buffer { data: engine::string_bytes(message) },
            is_error: true,
            digest: None,
        },
        Err(e) => AggregateResult {
            data: crate::Buffer { data: crate::runtime_error_bytes(&e) },
            is_error: true,
            digest: None,
        },
    }
}

/// A borrowed array of `Slice` views, used for one batched
/// aggregation call; the callee frees none of it.
pub struct SliceArray<'a> {
    pub slices: Vec<crate::Slice<'a>>,
}

/// One boundary call of the guest's `aggregate` entry point: the
/// elements handed down are exactly the input slices' bytes, so an
/// invocation that happened registered exactly the caller's elements,
/// slot `i` holding the bytes of input slice `i`.
pub fn instance_aggregate(
    instance: &mut SandboxInstance,
    config: &crate::Slice<'_>,
    data: &SliceArray<'_>,
    request: &crate::Slice<'_>,
) -> (r: AggregateResult)
    requires
        !old(instance).is_closed(),
    ensures
        !final(instance).is_closed(),
        old(instance).trace().is_prefix_of(final(instance).trace()),
        r.digest is Some <==> !r.is_error,
        count_invoke_aggregate(final(instance).trace()) <= count_invoke_aggregate(
            old(instance).trace(),
        ) + 1,
        count_invoke_aggregate(final(instance).trace()) > count_invoke_aggregate(
            old(instance).trace(),
        ) ==> (exists|arr: int|
            {
                &&& final(instance).trace().contains(
                    GuestOp::AllocArray { handle: arr, len: data.slices@.len() as int },
                )
                &&& forall|i: int|
                    0 <= i < data.slices@.len() ==> slot_filled(
                        final(instance).trace(),
                        arr,
                        i,
                        data.slices@[i].data@,
                    )
            }),
{
    let ghost t0 = instance.trace();
    let mut refs: Vec<&[u8]> = Vec::new();
    let mut i: usize = 0;
    while i < data.slices.len()
        invariant
            i <= data.slices@.len(),
            refs@.len() == i,
            forall|j: int| 0 <= j < i ==> refs@[j]@ == data.slices@[j].data@,
        decreases data.slices@.len() - i,
    {
        refs.push(data.slices[i].data);
        i = i + 1;
    }
    let outcome = instance.aggregate(config.data, refs.as_slice(), request.data);
    proof {
        if count_invoke_aggregate(instance.trace()) > count_invoke_aggregate(t0) {
            let (c, arr, q) = choose|c: int, arr: int, q: int|
                {
                    &&& buffer_holds(
                        instance.trace(),
                        c,
                        config.data@.len() as int,
                        config.data@,
                    )
                    &&& buffer_holds(
                        instance.trace(),
                        q,
                        request.data@.len() as int,
                        request.data@,
                    )
                    &&& instance.trace().contains(
                        GuestOp::AllocArray { handle: arr, len: refs@.len() as int },
                    )
                    &&& forall|i: int|
                        0 <= i < refs@.len() ==> slot_filled(
                            instance.trace(),
                            arr,
                            i,
                            refs@[i]@,
                        )
                    &&& forall|i: int|
                        0 <= i < refs@.len() ==> count_array_set(instance.trace(), arr, i)
                            == count_array_set(t0, arr, i) + 1
                    &&& instance.trace().contains(
                        GuestOp::InvokeAggregate { config: c, array: arr, request: q },
                    )
                };
            assert(exists|arr2: int|
                {
                    &&& instance.trace().contains(
                        GuestOp::AllocArray { handle: arr2, len: data.slices@.len() as int },
                    )
                    &&& forall|i: int|
                        0 <= i < data.slices@.len() ==> slot_filled(
                            instance.trace(),
                            arr2,
                            i,
                            data.slices@[i].data@,
                        )
                }) by {
                assert(instance.trace().contains(
                    GuestOp::AllocArray { handle: arr, len: data.slices@.len() as int },
                ));
                assert forall|i: int| 0 <= i < data.slices@.len() implies slot_filled(
                    instance.trace(),
                    arr,
                    i,
                    data.slices@[i].data@,
                ) by {
                    assert(slot_filled(instance.trace(), arr, i, refs@[i]@));
                    assert(refs@[i]@ == data.slices@[i].data@);
                }
            }
        }
    }
    aggregate_result_from(outcome)
}

/// Consumes an `aggregate` boundary result, freeing its owned buffers
/// — payload and, when present, digest — each exactly once.
pub fn aggregate_result_destroy(result: AggregateResult) {
    let _ = result;
}

} // verus!
