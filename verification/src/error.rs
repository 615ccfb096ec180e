//! Fault taxonomy of the engine boundary.
//!
//! Every infrastructural failure of a guest operation is one of these
//! variants; a module-reported business error is *not* an `Error` but a
//! normal value on the success path of the callers that decode guest
//! results.  Each variant carries the descriptive bytes produced where
//! the fault was observed.

use vstd::prelude::*;

verus! {

/// An infrastructural fault of the sandbox engine, never a
/// module-reported business error.
#[derive(Debug)]
pub enum Error {
    /// The module bytes could not be compiled.
    Compile(Vec<u8>),
    /// The task-execution context could not be built.
    BuildRuntime(Vec<u8>),
    /// The guest runtime environment could not be built or initialized.
    WasiRuntime(Vec<u8>),
    /// Guest memory could not be allocated.
    Memory(Vec<u8>),
    /// The module could not be instantiated, or lacks its memory import.
    Instantiation(Vec<u8>),
    /// A required export is missing.
    Export(Vec<u8>),
    /// A guest call trapped, or the guest broke the call protocol.
    Runtime(Vec<u8>),
    /// A guest memory read or write was rejected.
    MemoryAccess(Vec<u8>),
}

impl Error {
    /// The descriptive bytes the variant carries.
    pub open spec fn spec_message(&self) -> Seq<u8> {
        match self {
            Error::Compile(m) => m@,
            Error::BuildRuntime(m) => m@,
            Error::WasiRuntime(m) => m@,
            Error::Memory(m) => m@,
            Error::Instantiation(m) => m@,
            Error::Export(m) => m@,
            Error::Runtime(m) => m@,
            Error::MemoryAccess(m) => m@,
        }
    }

    /// A copy of the fault's description.
    pub fn message(&self) -> (r: Vec<u8>)
        ensures
            r@ == self.spec_message(),
    {
        match self {
            Error::Compile(m) => m.clone(),
            Error::BuildRuntime(m) => m.clone(),
            Error::WasiRuntime(m) => m.clone(),
            Error::Memory(m) => m.clone(),
            Error::Instantiation(m) => m.clone(),
            Error::Export(m) => m.clone(),
            Error::Runtime(m) => m.clone(),
            Error::MemoryAccess(m) => m.clone(),
        }
    }
}

} // verus!
