//! Host side of a sandboxed data-processing module.
//!
//! A compiled module runs inside a managed execution engine; this crate
//! marshals byte buffers into and out of the module's private linear
//! memory, decodes its two-level results (engine fault vs. business
//! error), and wraps everything behind ownership-explicit boundary
//! objects.
//!
//! The root module is the boundary layer: host-owned `Buffer` values,
//! borrowed `Slice` views, and result wrappers that hold exactly one of
//! a success object or an owned error buffer, each destroyed exactly
//! once by its destroy operation.

pub mod aggregate_result;
pub mod buffer;
pub mod engine;
pub mod error;
pub mod instance;
pub mod model;
pub mod prepare_data_result;

use vstd::prelude::*;

pub use error::Error;

use crate::instance::SandboxInstance;

verus! {

/// The bytes of `"runtime error: "`, the prefix every engine fault
/// carries when it is downgraded to message text at the boundary.
pub open spec fn spec_runtime_error_prefix() -> Seq<u8> {
    seq![
        114u8, 117u8, 110u8, 116u8, 105u8, 109u8, 101u8, 32u8, 101u8, 114u8, 114u8, 111u8,
        114u8, 58u8, 32u8,
    ]
}

/// The message text an engine fault is surfaced with at the boundary:
/// the `"runtime error: "` prefix followed by the fault's description.
pub open spec fn spec_runtime_error_message(e: Error) -> Seq<u8> {
    spec_runtime_error_prefix() + e.spec_message()
}

/// Builds the boundary's message bytes for an engine fault.
pub fn runtime_error_bytes(e: &Error) -> (r: Vec<u8>)
    ensures
        r@ =~= spec_runtime_error_message(*e),
{
    let mut v: Vec<u8> = Vec::new();
    v.push(114u8);
    v.push(117u8);
    v.push(110u8);
    v.push(116u8);
    v.push(105u8);
    v.push(109u8);
    v.push(101u8);
    v.push(32u8);
    v.push(101u8);
    v.push(114u8);
    v.push(114u8);
    v.push(111u8);
    v.push(114u8);
    v.push(58u8);
    v.push(32u8);
    proof {
        assert(v@ =~= spec_runtime_error_prefix());
    }
    let mut message = e.message();
    v.append(&mut message);
    v
}

/// A host-heap-owned byte buffer.  Ownership of the handle is
/// ownership of the bytes; its destroy operation consumes it, so a
/// second free is unrepresentable.
pub struct Buffer {
    pub data: Vec<u8>,
}

impl Buffer {
    /// The owned bytes.
    pub open spec fn view(&self) -> Seq<u8> {
        self.data@
    }
}

impl From<Vec<u8>> for Buffer {
    /// Takes ownership of the bytes.
    fn from(data: Vec<u8>) -> (r: Buffer) {
        Buffer { data }
    }
}

impl vstd::std_specs::convert::FromSpecImpl<Vec<u8>> for Buffer {
    open spec fn obeys_from_spec() -> bool {
        true
    }

    open spec fn from_spec(data: Vec<u8>) -> Buffer {
        Buffer { data }
    }
}

/// A borrowed, caller-owned view of bytes; passing it never transfers
/// ownership and the callee never frees it.
#[derive(Clone, Copy)]
pub struct Slice<'a> {
    pub data: &'a [u8],
}

/// Copies a borrowed slice into a fresh host-owned buffer.
pub fn slice_to_buffer(slice: &Slice<'_>) -> (r: Buffer)
    ensures
        r.view() == slice.data@,
{
    Buffer { data: vstd::slice::slice_to_vec(slice.data) }
}

/// Consumes and frees a host-owned buffer.
pub fn buffer_destroy(buffer: Buffer) {
    let _ = buffer;
}

/// A borrowing view of a buffer's bytes; does not transfer ownership.
pub fn buffer_slice(buffer: &Buffer) -> (r: Slice<'_>)
    ensures
        r.data@ == buffer.view(),
{
    Slice { data: buffer.data.as_slice() }
}

/// The process-wide execution capability: the compilation engine all
/// instances share, paired with the task-execution context that must
/// be ambient while instances are created.
pub struct SandboxRuntime {
    runtime: tokio::runtime::Runtime,
    engine: wasmer::Engine,
}

impl SandboxRuntime {
    /// Builds the multi-worker task-execution context and a
    /// fast-compiling, non-speculative engine.
    pub fn new() -> (r: Result<SandboxRuntime, Error>)
        ensures
            r matches Err(e) ==> e matches Error::BuildRuntime(_),
    {
        let rt = match engine::build_tokio_runtime() {
            Ok(rt) => rt,
            Err(e) => { return Err(e); },
        };
        Ok(SandboxRuntime { runtime: rt, engine: engine::build_engine() })
    }

    /// Creates one sandboxed instance from raw module bytes, threading
    /// the task-execution context through for the engine's
    /// ambient-context requirement.
    pub fn create_instance(&self, wasm_bytes: &[u8]) -> (r: Result<SandboxInstance, Error>)
        ensures
            r matches Ok(i) ==> !i.is_closed() && i.trace() =~= Seq::<model::GuestOp>::empty(),
    {
        SandboxInstance::new(&self.runtime, &self.engine, wasm_bytes)
    }
}

/// The outcome of building a runtime: exactly one of a runtime or an
/// owned error buffer.
pub struct RuntimeResult {
    pub runtime: Option<Box<SandboxRuntime>>,
    pub error: Option<Box<Buffer>>,
}

/// Builds the process-wide runtime, wrapping the outcome for the
/// boundary: on failure the error buffer holds the fault's description.
pub fn runtime_create() -> (r: RuntimeResult)
    ensures
        r.runtime is Some <==> r.error is None,
        r.error matches Some(b) ==> (exists|e: Error|
            (e matches Error::BuildRuntime(_)) && b.view() == e.spec_message()),
{
    match SandboxRuntime::new() {
        Ok(rt) => RuntimeResult { runtime: Some(Box::new(rt)), error: None },
        Err(e) => {
            let result = RuntimeResult {
                runtime: None,
                error: Some(Box::new(Buffer { data: e.message() })),
            };
            proof {
                assert(exists|cause: Error|
                    (cause matches Error::BuildRuntime(_)) && result.error->Some_0.view()
                        == cause.spec_message()) by {
                    assert((e matches Error::BuildRuntime(_)) && result.error->Some_0.view()
                        == e.spec_message());
                }
            }
            result
        },
    }
}

/// Consumes a runtime result, freeing whichever of its children it
/// owns, exactly once.
pub fn runtime_result_destroy(result: RuntimeResult) {
    let _ = result;
}

/// The outcome of creating an instance: exactly one of a live instance
/// or an owned error buffer.
pub struct InstanceResult {
    pub instance: Option<Box<SandboxInstance>>,
    pub error: Option<Box<Buffer>>,
}

impl InstanceResult {
    /// An instance held by a result is still live: its shutdown
    /// notification is owed to its destroy operation.
    pub open spec fn wf(&self) -> bool {
        match self.instance {
            Some(i) => !i.is_closed(),
            None => true,
        }
    }
}

/// Creates one sandboxed instance from raw module bytes, wrapping the
/// outcome for the boundary: on failure the error buffer holds the
/// fault's description, prefixed as a runtime error.
pub fn runtime_create_instance(runtime: &SandboxRuntime, wasm_bytes: &Slice<'_>) -> (r: InstanceResult)
    ensures
        r.wf(),
        r.instance is Some <==> r.error is None,
        r.error matches Some(b) ==> (exists|e: Error| b.view() == spec_runtime_error_message(e)),
{
    match runtime.create_instance(wasm_bytes.data) {
        Ok(instance) => InstanceResult { instance: Some(Box::new(instance)), error: None },
        Err(e) => {
            let result = InstanceResult {
                instance: None,
                error: Some(Box::new(Buffer { data: runtime_error_bytes(&e) })),
            };
            proof {
                assert(exists|cause: Error|
                    result.error->Some_0.view() == spec_runtime_error_message(cause)) by {
                    assert(result.error->Some_0.view() == spec_runtime_error_message(e));
                }
            }
            result
        },
    }
}

/// Consumes an instance result: a held instance is closed — its guest
/// runtime environment notified of shutdown — before its resources and
/// any owned error buffer are freed, each exactly once.
pub fn instance_result_destroy(result: InstanceResult)
    requires
        result.wf(),
{
    match result.instance {
        Some(boxed) => {
            let mut instance: SandboxInstance = *boxed;
            instance.close();
        },
        None => (),
    }
}

} // verus!
