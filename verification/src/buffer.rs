//! A byte buffer living in the sandboxed module's private memory.
//!
//! A `Buffer` owns a guest-side handle plus the pointer and length the
//! guest reported once, right after creation — the trace records both
//! replies, so a buffer's cached fields have stated provenance.  Every
//! construction path routes through the same resolve-or-cleanup
//! discipline: if resolving the pointer or length fails after the
//! allocation succeeded, the handle's destructor is attempted before
//! the failure is surfaced, so no construction path orphans a guest
//! allocation.

use vstd::prelude::*;

use crate::engine;
use crate::error::Error;
use crate::instance::SandboxInstance;
use crate::model::GuestOp;
use crate::model::failed_create;
use crate::model::failed_resolve;
use crate::model::lemma_failed_create_after_resolve;
use crate::model::lemma_failed_resolve_to_create;
use crate::model::lemma_write_then_read;
use crate::model::mem_bytes;
use crate::model::mem_write;

verus! {

/// A guest-side buffer: handle, pointer into guest memory, byte length.
pub struct Buffer {
    handle: i32,
    ptr: u64,
    len: usize,
}

impl Buffer {
    /// The guest handle, as the trace records it.
    pub closed spec fn spec_handle(&self) -> int {
        self.handle as int
    }

    /// The guest memory address of the buffer's bytes.
    pub closed spec fn spec_ptr(&self) -> int {
        self.ptr as int
    }

    /// The buffer's byte length.
    pub closed spec fn spec_len(&self) -> nat {
        self.len as nat
    }

    /// The guest handle this buffer owns.
    pub fn inner(&self) -> (r: i32)
        ensures
            r as int == self.spec_handle(),
    {
        self.handle
    }

    /// Creates a guest buffer by invoking the guest's allocation
    /// export with `len`, then resolves pointer and length; the cached
    /// fields are exactly the guest's recorded replies.  A resolution
    /// failure after a successful allocation still attempts the
    /// handle's destructor.
    pub fn new(instance: &mut SandboxInstance, len: usize) -> (r: Result<Buffer, Error>)
        requires
            !old(instance).is_closed(),
        ensures
            !final(instance).is_closed(),
            r matches Ok(b) ==> final(instance).trace() =~= old(instance).trace() + seq![
                GuestOp::AllocBuffer { handle: b.spec_handle(), len: len as int },
                GuestOp::QueryPtr { handle: b.spec_handle(), ptr: b.spec_ptr() },
                GuestOp::QueryLen { handle: b.spec_handle(), len: b.spec_len() as int },
            ],
            r matches Err(_) ==> failed_create(old(instance).trace(), final(instance).trace()),
    {
        let ghost t0 = instance.trace();
        let handle = match instance.guest_buffer_create(len) {
            Ok(h) => h,
            Err(e) => { return Err(e); },
        };
        match Self::from_raw(instance, handle) {
            Ok(b) => Ok(b),
            Err(e) => {
                proof {
                    lemma_failed_resolve_to_create(t0, instance.trace(), handle as int, len as int);
                }
                Err(e)
            },
        }
    }

    /// `new` followed by `write`: a guest buffer holding exactly
    /// `data`.  If the guest reports a length other than requested, or
    /// the write fails, the handle's destructor is attempted and the
    /// failure is surfaced.
    pub fn new_with_data(instance: &mut SandboxInstance, data: &[u8]) -> (r: Result<Buffer, Error>)
        requires
            !old(instance).is_closed(),
        ensures
            !final(instance).is_closed(),
            r matches Ok(b) ==> {
                &&& b.spec_len() == data@.len()
                &&& final(instance).trace() =~= old(instance).trace() + seq![
                    GuestOp::AllocBuffer { handle: b.spec_handle(), len: data@.len() as int },
                    GuestOp::QueryPtr { handle: b.spec_handle(), ptr: b.spec_ptr() },
                    GuestOp::QueryLen { handle: b.spec_handle(), len: data@.len() as int },
                    GuestOp::WriteMem { ptr: b.spec_ptr(), data: data@ },
                ]
                &&& mem_bytes(final(instance).guest_mem(), b.spec_ptr(), data@.len()) =~= data@
            },
            r matches Err(_) ==> failed_create(old(instance).trace(), final(instance).trace()),
    {
        let ghost t0 = instance.trace();
        let buffer = match Self::new(instance, data.len()) {
            Ok(b) => b,
            Err(e) => { return Err(e); },
        };
        if buffer.len != data.len() {
            let destroyed = instance.guest_buffer_destroy(buffer.handle);
            proof {
                assert(instance.trace() =~= t0 + seq![
                    GuestOp::AllocBuffer { handle: buffer.spec_handle(), len: data@.len() as int },
                    GuestOp::QueryPtr { handle: buffer.spec_handle(), ptr: buffer.spec_ptr() },
                    GuestOp::QueryLen {
                        handle: buffer.spec_handle(),
                        len: buffer.spec_len() as int,
                    },
                    GuestOp::FreeBuffer { handle: buffer.spec_handle() },
                ]);
                lemma_failed_create_after_resolve(
                    t0,
                    instance.trace(),
                    buffer.spec_handle(),
                    data@.len() as int,
                    buffer.spec_ptr(),
                    buffer.spec_len() as int,
                );
            }
            return Err(
                match destroyed {
                    Ok(_) => Error::Runtime(
                        engine::str_bytes("buffer_create returned a buffer of the wrong length"),
                    ),
                    Err(e2) => e2,
                },
            );
        }
        let ghost m1 = instance.guest_mem();
        match buffer.write(instance, data) {
            Ok(_) => {
                proof {
                    lemma_write_then_read(m1, buffer.spec_ptr(), data@);
                }
                Ok(buffer)
            },
            Err(e) => {
                let destroyed = instance.guest_buffer_destroy(buffer.handle);
                proof {
                    assert(instance.trace() =~= t0 + seq![
                        GuestOp::AllocBuffer {
                            handle: buffer.spec_handle(),
                            len: data@.len() as int,
                        },
                        GuestOp::QueryPtr { handle: buffer.spec_handle(), ptr: buffer.spec_ptr() },
                        GuestOp::QueryLen {
                            handle: buffer.spec_handle(),
                            len: data@.len() as int,
                        },
                        GuestOp::FreeBuffer { handle: buffer.spec_handle() },
                    ]);
                    lemma_failed_create_after_resolve(
                        t0,
                        instance.trace(),
                        buffer.spec_handle(),
                        data@.len() as int,
                        buffer.spec_ptr(),
                        data@.len() as int,
                    );
                }
                Err(
                    match destroyed {
                        Ok(_) => e,
                        Err(e2) => e2,
                    },
                )
            },
        }
    }

    /// Wraps a guest handle returned by an export, resolving pointer
    /// and length with the same resolve-or-cleanup discipline as `new`;
    /// the cached fields are exactly the guest's recorded replies.
    pub fn from_raw(instance: &mut SandboxInstance, handle: i32) -> (r: Result<Buffer, Error>)
        requires
            !old(instance).is_closed(),
        ensures
            !final(instance).is_closed(),
            r matches Ok(b) ==> {
                &&& b.spec_handle() == handle as int
                &&& final(instance).trace() =~= old(instance).trace() + seq![
                    GuestOp::QueryPtr { handle: handle as int, ptr: b.spec_ptr() },
                    GuestOp::QueryLen { handle: handle as int, len: b.spec_len() as int },
                ]
            },
            r matches Err(_) ==> failed_resolve(
                old(instance).trace(),
                final(instance).trace(),
                handle as int,
            ),
    {
        let ghost t0 = instance.trace();
        match Self::from_raw_without_cleanup(instance, handle) {
            Ok(b) => Ok(b),
            Err(e) => {
                let ghost t1 = instance.trace();
                let destroyed = instance.guest_buffer_destroy(handle);
                proof {
                    if t1 != t0 {
                        let p = choose|p: int|
                            t1 == t0.push(GuestOp::QueryPtr { handle: handle as int, ptr: p });
                        assert(instance.trace() =~= t0 + seq![
                            GuestOp::QueryPtr { handle: handle as int, ptr: p },
                            GuestOp::FreeBuffer { handle: handle as int },
                        ]);
                        assert(exists|pp: int|
                            instance.trace() == t0 + seq![
                                GuestOp::QueryPtr { handle: handle as int, ptr: pp },
                                GuestOp::FreeBuffer { handle: handle as int },
                            ]) by {
                            assert(instance.trace() == t0 + seq![
                                GuestOp::QueryPtr { handle: handle as int, ptr: p },
                                GuestOp::FreeBuffer { handle: handle as int },
                            ]);
                        }
                    }
                }
                match destroyed {
                    Ok(_) => Err(e),
                    Err(e2) => Err(e2),
                }
            },
        }
    }

    /// Resolves the guest-reported pointer and length for a handle; on
    /// failure the caller owns the cleanup.
    fn from_raw_without_cleanup(instance: &mut SandboxInstance, handle: i32) -> (r: Result<
        Buffer,
        Error,
    >)
        requires
            !old(instance).is_closed(),
        ensures
            !final(instance).is_closed(),
            r matches Ok(b) ==> {
                &&& b.spec_handle() == handle as int
                &&& final(instance).trace() =~= old(instance).trace() + seq![
                    GuestOp::QueryPtr { handle: handle as int, ptr: b.spec_ptr() },
                    GuestOp::QueryLen { handle: handle as int, len: b.spec_len() as int },
                ]
            },
            r matches Err(_) ==> {
                ||| final(instance).trace() == old(instance).trace()
                ||| (exists|p: int|
                    final(instance).trace() == old(instance).trace().push(
                        GuestOp::QueryPtr { handle: handle as int, ptr: p },
                    ))
            },
    {
        let ptr = match instance.guest_buffer_ptr(handle) {
            Ok(p) => p,
            Err(e) => { return Err(e); },
        };
        let len = match instance.guest_buffer_len(handle) {
            Ok(n) => n,
            Err(e) => { return Err(e); },
        };
        Ok(Buffer { handle, ptr, len })
    }

    /// Reads the buffer's bytes out of guest memory through the
    /// engine's bounds-checked read primitive.
    pub fn read(&self, instance: &SandboxInstance) -> (r: Result<Vec<u8>, Error>)
        requires
            !instance.is_closed(),
        ensures
            r matches Ok(bytes) ==> bytes@ =~= mem_bytes(
                instance.guest_mem(),
                self.spec_ptr(),
                self.spec_len(),
            ),
            r matches Err(e) ==> e matches Error::MemoryAccess(_),
    {
        instance.read_memory(self.ptr, self.len)
    }

    /// Writes `data` over the buffer's bytes through the engine's
    /// bounds-checked write primitive.
    pub fn write(&self, instance: &mut SandboxInstance, data: &[u8]) -> (r: Result<(), Error>)
        requires
            !old(instance).is_closed(),
            data@.len() == self.spec_len(),
        ensures
            !final(instance).is_closed(),
            r matches Ok(_) ==> {
                &&& final(instance).trace() =~= old(instance).trace().push(
                    GuestOp::WriteMem { ptr: self.spec_ptr(), data: data@ },
                )
                &&& final(instance).guest_mem() == mem_write(
                    old(instance).guest_mem(),
                    self.spec_ptr(),
                    data@,
                )
            },
            r matches Err(e) ==> final(instance).trace() == old(instance).trace()
                && e matches Error::MemoryAccess(_),
    {
        instance.write_memory(self.ptr, data)
    }

    /// Invokes the guest deallocation export for the handle.  Consumes
    /// the buffer: ownership makes a second destruction unrepresentable.
    pub fn destroy(self, instance: &mut SandboxInstance) -> (r: Result<(), Error>)
        requires
            !old(instance).is_closed(),
        ensures
            !final(instance).is_closed(),
            final(instance).trace() =~= old(instance).trace().push(
                GuestOp::FreeBuffer { handle: self.spec_handle() },
            ),
    {
        instance.guest_buffer_destroy(self.handle)
    }
}

} // verus!
