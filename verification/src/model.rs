//! Ghost model of the guest side of the marshaling protocol.
//!
//! A live instance carries a ghost trace of the calls the host has made
//! into the guest (allocations with their requested sizes, pointer and
//! length queries, memory writes, slot registrations, entry-point
//! invocations, digest queries, destructor invocations) and a ghost
//! byte map standing for the guest's linear memory.  The trusted engine
//! wrappers append to the trace; everything the library promises about
//! cleanup discipline, call protocol and data marshaling is stated over
//! it.

use vstd::prelude::*;

verus! {

/// One host-initiated event at the guest boundary.
///
/// Events that carry a guest-chosen value (a handle, a pointer, a
/// reported length) are recorded when the guest handed that value back
/// (a failed call yields nothing to track).  Destructor and entry-point
/// events record the *attempt*, whether or not the guest completed it,
/// so that "invoked exactly once" can be stated of every exit path.
#[verifier::ext_equal]
pub enum GuestOp {
    /// `buffer_create(len)` returned this buffer handle.
    AllocBuffer { handle: int, len: int },
    /// `buffer_get_mut_ptr` reported this pointer for the handle.
    QueryPtr { handle: int, ptr: int },
    /// `buffer_len` reported this length for the handle.
    QueryLen { handle: int, len: int },
    /// The host wrote these bytes into guest memory at `ptr`.
    WriteMem { ptr: int, data: Seq<u8> },
    /// The host attempted `buffer_destroy` on the handle.
    FreeBuffer { handle: int },
    /// `buffer_array_create(len)` returned this array handle.
    AllocArray { handle: int, len: int },
    /// `buffer_array_set_buffer` registered `buffer` in slot `index`.
    ArraySet { array: int, index: int, buffer: int },
    /// The host attempted the `prepare_data` entry point with these
    /// argument handles.
    InvokePrepare { config: int, request: int },
    /// The host attempted the `aggregate` entry point with these
    /// argument handles.
    InvokeAggregate { config: int, array: int, request: int },
    /// `aggregate_result_get_digest` returned this buffer handle.
    QueryDigest { result: int, buffer: int },
    /// The host attempted `prepare_data_result_destroy` on the handle.
    FreePrepareResult { handle: int },
    /// The host attempted `aggregate_result_destroy` on the handle.
    FreeAggregateResult { handle: int },
}

/// Guest memory after the engine wrote `data` at `ptr`: the written
/// range holds `data`, every other address keeps its old byte.
pub open spec fn mem_write(m: Map<int, u8>, ptr: int, data: Seq<u8>) -> Map<int, u8> {
    Map::new(
        |a: int| true,
        |a: int| if ptr <= a < ptr + data.len() { data[a - ptr] } else { m[a] },
    )
}

/// The `len` bytes of guest memory starting at `ptr`.
pub open spec fn mem_bytes(m: Map<int, u8>, ptr: int, len: nat) -> Seq<u8> {
    Seq::new(len, |i: int| m[ptr + i])
}

/// Reading back a freshly written range yields exactly the written bytes.
pub proof fn lemma_write_then_read(m: Map<int, u8>, ptr: int, data: Seq<u8>)
    ensures
        mem_bytes(mem_write(m, ptr, data), ptr, data.len()) =~= data,
{
}

/// How many times the trace allocates this buffer handle (with any
/// requested length).
pub open spec fn count_alloc_buffer(t: Seq<GuestOp>, handle: int) -> int
    decreases t.len(),
{
    if t.len() == 0 {
        0
    } else {
        count_alloc_buffer(t.drop_last(), handle) + (
        if (t.last() matches GuestOp::AllocBuffer { handle: h, len: _ } && h == handle) {
            1int
        } else {
            0int
        })
    }
}

/// How many times the trace attempts `buffer_destroy` on this handle.
pub open spec fn count_free_buffer(t: Seq<GuestOp>, handle: int) -> int
    decreases t.len(),
{
    if t.len() == 0 {
        0
    } else {
        count_free_buffer(t.drop_last(), handle)
            + if t.last() == (GuestOp::FreeBuffer { handle }) { 1int } else { 0int }
    }
}

/// How many times the trace attempts the `prepare_data` result
/// destructor on this handle.
pub open spec fn count_free_prepare(t: Seq<GuestOp>, handle: int) -> int
    decreases t.len(),
{
    if t.len() == 0 {
        0
    } else {
        count_free_prepare(t.drop_last(), handle)
            + if t.last() == (GuestOp::FreePrepareResult { handle }) { 1int } else { 0int }
    }
}

/// How many times the trace attempts the `aggregate` result destructor
/// on this handle.
pub open spec fn count_free_aggregate(t: Seq<GuestOp>, handle: int) -> int
    decreases t.len(),
{
    if t.len() == 0 {
        0
    } else {
        count_free_aggregate(t.drop_last(), handle)
            + if t.last() == (GuestOp::FreeAggregateResult { handle }) { 1int } else { 0int }
    }
}

/// How many times the trace attempts the `prepare_data` entry point
/// (with any argument handles).
pub open spec fn count_invoke_prepare(t: Seq<GuestOp>) -> int
    decreases t.len(),
{
    if t.len() == 0 {
        0
    } else {
        count_invoke_prepare(t.drop_last()) + (
        if (t.last() matches GuestOp::InvokePrepare { config: _, request: _ }) {
            1int
        } else {
            0int
        })
    }
}

/// How many times the trace attempts the `aggregate` entry point (with
/// any argument handles).
pub open spec fn count_invoke_aggregate(t: Seq<GuestOp>) -> int
    decreases t.len(),
{
    if t.len() == 0 {
        0
    } else {
        count_invoke_aggregate(t.drop_last()) + (
        if (t.last() matches GuestOp::InvokeAggregate { config: _, array: _, request: _ }) {
            1int
        } else {
            0int
        })
    }
}

/// How many times the trace registers any buffer in slot `index` of
/// array `array`.
pub open spec fn count_array_set(t: Seq<GuestOp>, array: int, index: int) -> int
    decreases t.len(),
{
    if t.len() == 0 {
        0
    } else {
        count_array_set(t.drop_last(), array, index) + (
        if (t.last() matches GuestOp::ArraySet { array: a, index: i, buffer: _ } && a == array
            && i == index) {
            1int
        } else {
            0int
        })
    }
}

/// How many times the trace queries the digest of this result handle.
pub open spec fn count_query_digest(t: Seq<GuestOp>, result: int) -> int
    decreases t.len(),
{
    if t.len() == 0 {
        0
    } else {
        count_query_digest(t.drop_last(), result) + (
        if (t.last() matches GuestOp::QueryDigest { result: r, buffer: _ } && r == result) {
            1int
        } else {
            0int
        })
    }
}

/// Appending one event changes each count by exactly its own kind.
pub proof fn lemma_counts_push(t: Seq<GuestOp>, op: GuestOp, h: int, a: int, i: int)
    ensures
        count_alloc_buffer(t.push(op), h) == count_alloc_buffer(t, h) + (
        if (op matches GuestOp::AllocBuffer { handle: h2, len: _ } && h2 == h) {
            1int
        } else {
            0int
        }),
        count_free_buffer(t.push(op), h) == count_free_buffer(t, h)
            + if op == (GuestOp::FreeBuffer { handle: h }) { 1int } else { 0int },
        count_free_prepare(t.push(op), h) == count_free_prepare(t, h)
            + if op == (GuestOp::FreePrepareResult { handle: h }) { 1int } else { 0int },
        count_free_aggregate(t.push(op), h) == count_free_aggregate(t, h)
            + if op == (GuestOp::FreeAggregateResult { handle: h }) { 1int } else { 0int },
        count_invoke_prepare(t.push(op)) == count_invoke_prepare(t) + (
        if (op matches GuestOp::InvokePrepare { config: _, request: _ }) {
            1int
        } else {
            0int
        }),
        count_invoke_aggregate(t.push(op)) == count_invoke_aggregate(t) + (
        if (op matches GuestOp::InvokeAggregate { config: _, array: _, request: _ }) {
            1int
        } else {
            0int
        }),
        count_array_set(t.push(op), a, i) == count_array_set(t, a, i) + (
        if (op matches GuestOp::ArraySet { array: a2, index: i2, buffer: _ } && a2 == a && i2
            == i) {
            1int
        } else {
            0int
        }),
        count_query_digest(t.push(op), h) == count_query_digest(t, h) + (
        if (op matches GuestOp::QueryDigest { result: r, buffer: _ } && r == h) {
            1int
        } else {
            0int
        }),
{
    assert(t.push(op).drop_last() =~= t);
    assert(t.push(op).last() == op);
}

/// The trace extension contains only buffer-marshaling events: it adds
/// no entry-point invocation, no slot registration, no digest query and
/// no result-destructor attempt, and extends the trace.
pub open spec fn buffer_ops_only(t0: Seq<GuestOp>, t1: Seq<GuestOp>) -> bool {
    &&& t0.is_prefix_of(t1)
    &&& forall|h: int| count_free_prepare(t1, h) == count_free_prepare(t0, h)
    &&& forall|h: int| count_free_aggregate(t1, h) == count_free_aggregate(t0, h)
    &&& count_invoke_prepare(t1) == count_invoke_prepare(t0)
    &&& count_invoke_aggregate(t1) == count_invoke_aggregate(t0)
    &&& forall|a: int, i: int| count_array_set(t1, a, i) == count_array_set(t0, a, i)
    &&& forall|r: int| count_query_digest(t1, r) == count_query_digest(t0, r)
}

/// `buffer_ops_only` composes.
pub proof fn lemma_buffer_ops_trans(t0: Seq<GuestOp>, t1: Seq<GuestOp>, t2: Seq<GuestOp>)
    requires
        buffer_ops_only(t0, t1),
        buffer_ops_only(t1, t2),
    ensures
        buffer_ops_only(t0, t2),
{
    lemma_prefix_trans(t0, t1, t2);
}

/// A buffer-marshaling event (allocation, pointer or length query,
/// memory write, or buffer-destructor attempt).
pub open spec fn is_buffer_op(op: GuestOp) -> bool {
    ||| (op matches GuestOp::AllocBuffer { handle: _, len: _ })
    ||| (op matches GuestOp::QueryPtr { handle: _, ptr: _ })
    ||| (op matches GuestOp::QueryLen { handle: _, len: _ })
    ||| (op matches GuestOp::WriteMem { ptr: _, data: _ })
    ||| (op matches GuestOp::FreeBuffer { handle: _ })
}

/// Pushing one buffer-marshaling event is a `buffer_ops_only`
/// extension.
pub proof fn lemma_buffer_ops_push(t: Seq<GuestOp>, op: GuestOp)
    requires
        is_buffer_op(op),
    ensures
        buffer_ops_only(t, t.push(op)),
{
    lemma_prefix_push(t, op);
    assert forall|h: int|
        count_free_prepare(t.push(op), h) == count_free_prepare(t, h) && count_free_aggregate(
            t.push(op),
            h,
        ) == count_free_aggregate(t, h) && count_query_digest(t.push(op), h)
            == count_query_digest(t, h) by {
        lemma_counts_push(t, op, h, 0, 0);
    }
    assert forall|a: int, i: int| count_array_set(t.push(op), a, i) == count_array_set(
        t,
        a,
        i,
    ) by {
        lemma_counts_push(t, op, 0, a, i);
    }
    lemma_counts_push(t, op, 0, 0, 0);
}

/// The trace extensions a failed buffer construction may leave behind:
/// nothing allocated, or an allocated handle whose destructor was then
/// attempted, after however much of the pointer/length resolution
/// succeeded.  In every shape, each allocated handle has exactly one
/// destructor attempt, and only buffer-marshaling events occur.
pub open spec fn failed_create(t0: Seq<GuestOp>, t1: Seq<GuestOp>) -> bool {
    ||| t1 == t0
    ||| (exists|h: int, l: int|
        t1 == t0 + seq![
            GuestOp::AllocBuffer { handle: h, len: l },
            GuestOp::FreeBuffer { handle: h },
        ])
    ||| (exists|h: int, l: int, p: int|
        t1 == t0 + seq![
            GuestOp::AllocBuffer { handle: h, len: l },
            GuestOp::QueryPtr { handle: h, ptr: p },
            GuestOp::FreeBuffer { handle: h },
        ])
    ||| (exists|h: int, l: int, p: int, gl: int|
        t1 == t0 + seq![
            GuestOp::AllocBuffer { handle: h, len: l },
            GuestOp::QueryPtr { handle: h, ptr: p },
            GuestOp::QueryLen { handle: h, len: gl },
            GuestOp::FreeBuffer { handle: h },
        ])
}

/// The trace extensions a failed pointer/length resolution leaves
/// behind for handle `h`: the destructor attempt alone, or the pointer
/// query followed by the destructor attempt.
pub open spec fn failed_resolve(t0: Seq<GuestOp>, t1: Seq<GuestOp>, h: int) -> bool {
    ||| t1 == t0.push(GuestOp::FreeBuffer { handle: h })
    ||| (exists|p: int|
        t1 == t0 + seq![
            GuestOp::QueryPtr { handle: h, ptr: p },
            GuestOp::FreeBuffer { handle: h },
        ])
}

/// An allocation whose resolution failed and was cleaned up is one of
/// the failed-construction shapes.
pub proof fn lemma_failed_resolve_to_create(t0: Seq<GuestOp>, t1: Seq<GuestOp>, h: int, l: int)
    requires
        failed_resolve(t0.push(GuestOp::AllocBuffer { handle: h, len: l }), t1, h),
    ensures
        failed_create(t0, t1),
{
    let a = GuestOp::AllocBuffer { handle: h, len: l };
    let f = GuestOp::FreeBuffer { handle: h };
    if t1 == t0.push(a).push(f) {
        assert(t1 =~= t0 + seq![a, f]);
        assert(exists|hh: int, ll: int|
            t1 == t0 + seq![
                GuestOp::AllocBuffer { handle: hh, len: ll },
                GuestOp::FreeBuffer { handle: hh },
            ]) by {
            assert(t1 == t0 + seq![a, f]);
        }
    } else {
        let p = choose|p: int|
            t1 == t0.push(a) + seq![GuestOp::QueryPtr { handle: h, ptr: p }, f];
        let q = GuestOp::QueryPtr { handle: h, ptr: p };
        assert(t1 =~= t0 + seq![a, q, f]);
        assert(exists|hh: int, ll: int, pp: int|
            t1 == t0 + seq![
                GuestOp::AllocBuffer { handle: hh, len: ll },
                GuestOp::QueryPtr { handle: hh, ptr: pp },
                GuestOp::FreeBuffer { handle: hh },
            ]) by {
            assert(t1 == t0 + seq![a, GuestOp::QueryPtr { handle: h, ptr: p }, f]);
        }
    }
}

/// A fully resolved allocation whose later write or length check
/// failed and was cleaned up is one of the failed-construction shapes.
pub proof fn lemma_failed_create_after_resolve(
    t0: Seq<GuestOp>,
    t1: Seq<GuestOp>,
    h: int,
    l: int,
    p: int,
    gl: int,
)
    requires
        t1 == t0 + seq![
            GuestOp::AllocBuffer { handle: h, len: l },
            GuestOp::QueryPtr { handle: h, ptr: p },
            GuestOp::QueryLen { handle: h, len: gl },
            GuestOp::FreeBuffer { handle: h },
        ],
    ensures
        failed_create(t0, t1),
{
    assert(exists|hh: int, ll: int, pp: int, gg: int|
        t1 == t0 + seq![
            GuestOp::AllocBuffer { handle: hh, len: ll },
            GuestOp::QueryPtr { handle: hh, ptr: pp },
            GuestOp::QueryLen { handle: hh, len: gg },
            GuestOp::FreeBuffer { handle: hh },
        ]) by {
        assert(t1 == t0 + seq![
            GuestOp::AllocBuffer { handle: h, len: l },
            GuestOp::QueryPtr { handle: h, ptr: p },
            GuestOp::QueryLen { handle: h, len: gl },
            GuestOp::FreeBuffer { handle: h },
        ]);
    }
}

/// Slot `index` of guest array `array` received exactly `bytes`: some
/// buffer was allocated, the guest reported its pointer, the host
/// wrote `bytes` there, and that buffer was registered in the slot.
pub open spec fn slot_filled(t: Seq<GuestOp>, array: int, index: int, bytes: Seq<u8>) -> bool {
    exists|h: int, l: int, p: int|
        {
            &&& t.contains(GuestOp::AllocBuffer { handle: h, len: l })
            &&& t.contains(GuestOp::QueryPtr { handle: h, ptr: p })
            &&& t.contains(GuestOp::WriteMem { ptr: p, data: bytes })
            &&& t.contains(GuestOp::ArraySet { array, index, buffer: h })
        }
}

/// The trace holds a buffer `handle` that was allocated with request
/// `len` and into which exactly `bytes` were written at the pointer
/// the guest reported for it.
pub open spec fn buffer_holds(t: Seq<GuestOp>, handle: int, len: int, bytes: Seq<u8>) -> bool {
    exists|p: int|
        {
            &&& t.contains(GuestOp::AllocBuffer { handle, len })
            &&& t.contains(GuestOp::QueryPtr { handle, ptr: p })
            &&& t.contains(GuestOp::WriteMem { ptr: p, data: bytes })
        }
}

/// Between `t0` and `t1`, slots `0..j` of array `arr` were each
/// registered exactly once more, no other slot of `arr` was
/// registered, and no slot of any other array was registered.
pub open spec fn slots_registered_up_to(
    t0: Seq<GuestOp>,
    t1: Seq<GuestOp>,
    arr: int,
    j: int,
) -> bool {
    &&& forall|i: int|
        0 <= i < j ==> count_array_set(t1, arr, i) == count_array_set(t0, arr, i) + 1
    &&& forall|i: int|
        !(0 <= i < j) ==> count_array_set(t1, arr, i) == count_array_set(t0, arr, i)
    &&& forall|a: int, i: int|
        a != arr ==> count_array_set(t1, a, i) == count_array_set(t0, a, i)
}

/// A trace extension keeps everything the shorter trace contains.
pub proof fn lemma_contains_prefix(a: Seq<GuestOp>, b: Seq<GuestOp>, op: GuestOp)
    requires
        a.is_prefix_of(b),
        a.contains(op),
    ensures
        b.contains(op),
{
    let i = choose|i: int| 0 <= i < a.len() && a[i] == op;
    assert(b[i] == op);
}

/// A trace extension keeps every filled slot filled.
pub proof fn lemma_slot_filled_prefix(
    a: Seq<GuestOp>,
    b: Seq<GuestOp>,
    array: int,
    index: int,
    bytes: Seq<u8>,
)
    requires
        a.is_prefix_of(b),
        slot_filled(a, array, index, bytes),
    ensures
        slot_filled(b, array, index, bytes),
{
    let (h, l, p) = choose|h: int, l: int, p: int|
        {
            &&& a.contains(GuestOp::AllocBuffer { handle: h, len: l })
            &&& a.contains(GuestOp::QueryPtr { handle: h, ptr: p })
            &&& a.contains(GuestOp::WriteMem { ptr: p, data: bytes })
            &&& a.contains(GuestOp::ArraySet { array, index, buffer: h })
        };
    lemma_contains_prefix(a, b, GuestOp::AllocBuffer { handle: h, len: l });
    lemma_contains_prefix(a, b, GuestOp::QueryPtr { handle: h, ptr: p });
    lemma_contains_prefix(a, b, GuestOp::WriteMem { ptr: p, data: bytes });
    lemma_contains_prefix(a, b, GuestOp::ArraySet { array, index, buffer: h });
}

/// A trace extension keeps every held buffer held.
pub proof fn lemma_buffer_holds_prefix(
    a: Seq<GuestOp>,
    b: Seq<GuestOp>,
    handle: int,
    len: int,
    bytes: Seq<u8>,
)
    requires
        a.is_prefix_of(b),
        buffer_holds(a, handle, len, bytes),
    ensures
        buffer_holds(b, handle, len, bytes),
{
    let p = choose|p: int|
        {
            &&& a.contains(GuestOp::AllocBuffer { handle, len })
            &&& a.contains(GuestOp::QueryPtr { handle, ptr: p })
            &&& a.contains(GuestOp::WriteMem { ptr: p, data: bytes })
        };
    lemma_contains_prefix(a, b, GuestOp::AllocBuffer { handle, len });
    lemma_contains_prefix(a, b, GuestOp::QueryPtr { handle, ptr: p });
    lemma_contains_prefix(a, b, GuestOp::WriteMem { ptr: p, data: bytes });
}

/// Pushing extends a trace.
pub proof fn lemma_prefix_push(t: Seq<GuestOp>, op: GuestOp)
    ensures
        t.is_prefix_of(t.push(op)),
{
    assert(t =~= t.push(op).subrange(0, t.len() as int));
}

/// Appending extends a trace.
pub proof fn lemma_prefix_concat(t: Seq<GuestOp>, d: Seq<GuestOp>)
    ensures
        t.is_prefix_of(t + d),
{
    assert(t =~= (t + d).subrange(0, t.len() as int));
}

/// Being an extension is transitive.
pub proof fn lemma_prefix_trans(a: Seq<GuestOp>, b: Seq<GuestOp>, c: Seq<GuestOp>)
    requires
        a.is_prefix_of(b),
        b.is_prefix_of(c),
    ensures
        a.is_prefix_of(c),
{
    assert(a =~= c.subrange(0, a.len() as int)) by {
        assert(a =~= b.subrange(0, a.len() as int));
        assert(b =~= c.subrange(0, b.len() as int));
    }
}

/// A failed resolution is a buffer-marshaling-only extension.
pub proof fn lemma_buffer_ops_failed_resolve(t0: Seq<GuestOp>, t1: Seq<GuestOp>, h: int)
    requires
        failed_resolve(t0, t1, h),
    ensures
        buffer_ops_only(t0, t1),
{
    let f = GuestOp::FreeBuffer { handle: h };
    if t1 == t0.push(f) {
        lemma_buffer_ops_push(t0, f);
    } else {
        let p = choose|p: int|
            t1 == t0 + seq![GuestOp::QueryPtr { handle: h, ptr: p }, f];
        let q = GuestOp::QueryPtr { handle: h, ptr: p };
        assert(t1 =~= t0.push(q).push(f));
        lemma_buffer_ops_push(t0, q);
        lemma_buffer_ops_push(t0.push(q), f);
        lemma_buffer_ops_trans(t0, t0.push(q), t1);
    }
}

/// A failed buffer construction is a buffer-marshaling-only extension.
pub proof fn lemma_buffer_ops_failed_create(t0: Seq<GuestOp>, t1: Seq<GuestOp>)
    requires
        failed_create(t0, t1),
    ensures
        buffer_ops_only(t0, t1),
{
    if t1 == t0 {
        assert(t0 =~= t1.subrange(0, t0.len() as int));
    } else if exists|h: int, l: int|
        t1 == t0 + seq![
            GuestOp::AllocBuffer { handle: h, len: l },
            GuestOp::FreeBuffer { handle: h },
        ] {
        let (h, l) = choose|h: int, l: int|
            t1 == t0 + seq![
                GuestOp::AllocBuffer { handle: h, len: l },
                GuestOp::FreeBuffer { handle: h },
            ];
        let a = GuestOp::AllocBuffer { handle: h, len: l };
        let f = GuestOp::FreeBuffer { handle: h };
        assert(t1 =~= t0.push(a).push(f));
        lemma_buffer_ops_push(t0, a);
        lemma_buffer_ops_push(t0.push(a), f);
        lemma_buffer_ops_trans(t0, t0.push(a), t1);
    } else if exists|h: int, l: int, p: int|
        t1 == t0 + seq![
            GuestOp::AllocBuffer { handle: h, len: l },
            GuestOp::QueryPtr { handle: h, ptr: p },
            GuestOp::FreeBuffer { handle: h },
        ] {
        let (h, l, p) = choose|h: int, l: int, p: int|
            t1 == t0 + seq![
                GuestOp::AllocBuffer { handle: h, len: l },
                GuestOp::QueryPtr { handle: h, ptr: p },
                GuestOp::FreeBuffer { handle: h },
            ];
        let a = GuestOp::AllocBuffer { handle: h, len: l };
        let q = GuestOp::QueryPtr { handle: h, ptr: p };
        let f = GuestOp::FreeBuffer { handle: h };
        assert(t1 =~= t0.push(a).push(q).push(f));
        lemma_buffer_ops_push(t0, a);
        lemma_buffer_ops_push(t0.push(a), q);
        lemma_buffer_ops_push(t0.push(a).push(q), f);
        lemma_buffer_ops_trans(t0, t0.push(a), t0.push(a).push(q));
        lemma_buffer_ops_trans(t0, t0.push(a).push(q), t1);
    } else {
        let (h, l, p, gl) = choose|h: int, l: int, p: int, gl: int|
            t1 == t0 + seq![
                GuestOp::AllocBuffer { handle: h, len: l },
                GuestOp::QueryPtr { handle: h, ptr: p },
                GuestOp::QueryLen { handle: h, len: gl },
                GuestOp::FreeBuffer { handle: h },
            ];
        let a = GuestOp::AllocBuffer { handle: h, len: l };
        let q = GuestOp::QueryPtr { handle: h, ptr: p };
        let ql = GuestOp::QueryLen { handle: h, len: gl };
        let f = GuestOp::FreeBuffer { handle: h };
        assert(t1 =~= t0.push(a).push(q).push(ql).push(f));
        lemma_buffer_ops_push(t0, a);
        lemma_buffer_ops_push(t0.push(a), q);
        lemma_buffer_ops_push(t0.push(a).push(q), ql);
        lemma_buffer_ops_push(t0.push(a).push(q).push(ql), f);
        lemma_buffer_ops_trans(t0, t0.push(a), t0.push(a).push(q));
        lemma_buffer_ops_trans(t0, t0.push(a).push(q), t0.push(a).push(q).push(ql));
        lemma_buffer_ops_trans(t0, t0.push(a).push(q).push(ql), t1);
    }
}

/// A successful pointer/length resolution is a buffer-marshaling-only
/// extension.
pub proof fn lemma_buffer_ops_resolved(t0: Seq<GuestOp>, t1: Seq<GuestOp>, h: int, p: int, l: int)
    requires
        t1 == t0 + seq![
            GuestOp::QueryPtr { handle: h, ptr: p },
            GuestOp::QueryLen { handle: h, len: l },
        ],
    ensures
        buffer_ops_only(t0, t1),
{
    let q = GuestOp::QueryPtr { handle: h, ptr: p };
    let ql = GuestOp::QueryLen { handle: h, len: l };
    assert(t1 =~= t0.push(q).push(ql));
    lemma_buffer_ops_push(t0, q);
    lemma_buffer_ops_push(t0.push(q), ql);
    lemma_buffer_ops_trans(t0, t0.push(q), t1);
}

/// A successful buffer construction is a buffer-marshaling-only
/// extension.
pub proof fn lemma_buffer_ops_created(
    t0: Seq<GuestOp>,
    t1: Seq<GuestOp>,
    h: int,
    l: int,
    p: int,
    gl: int,
    d: Seq<u8>,
)
    requires
        t1 == t0 + seq![
            GuestOp::AllocBuffer { handle: h, len: l },
            GuestOp::QueryPtr { handle: h, ptr: p },
            GuestOp::QueryLen { handle: h, len: gl },
            GuestOp::WriteMem { ptr: p, data: d },
        ],
    ensures
        buffer_ops_only(t0, t1),
{
    let a = GuestOp::AllocBuffer { handle: h, len: l };
    let q = GuestOp::QueryPtr { handle: h, ptr: p };
    let ql = GuestOp::QueryLen { handle: h, len: gl };
    let w = GuestOp::WriteMem { ptr: p, data: d };
    assert(t1 =~= t0.push(a).push(q).push(ql).push(w));
    lemma_buffer_ops_push(t0, a);
    lemma_buffer_ops_push(t0.push(a), q);
    lemma_buffer_ops_push(t0.push(a).push(q), ql);
    lemma_buffer_ops_push(t0.push(a).push(q).push(ql), w);
    lemma_buffer_ops_trans(t0, t0.push(a), t0.push(a).push(q));
    lemma_buffer_ops_trans(t0, t0.push(a).push(q), t0.push(a).push(q).push(ql));
    lemma_buffer_ops_trans(t0, t0.push(a).push(q).push(ql), t1);
}

/// No failed buffer construction leaks: whatever shape the failure
/// took, every buffer handle it allocated also had its destructor
/// attempted, the same number of times.
pub proof fn lemma_failed_create_balanced(t0: Seq<GuestOp>, t1: Seq<GuestOp>)
    requires
        failed_create(t0, t1),
    ensures
        forall|h: int|
            count_alloc_buffer(t1, h) - count_alloc_buffer(t0, h) == count_free_buffer(t1, h)
                - count_free_buffer(t0, h),
{
    if t1 == t0 {
    } else if exists|h: int, l: int|
        t1 == t0 + seq![
            GuestOp::AllocBuffer { handle: h, len: l },
            GuestOp::FreeBuffer { handle: h },
        ] {
        let (h, l) = choose|h: int, l: int|
            t1 == t0 + seq![
                GuestOp::AllocBuffer { handle: h, len: l },
                GuestOp::FreeBuffer { handle: h },
            ];
        let a = GuestOp::AllocBuffer { handle: h, len: l };
        let f = GuestOp::FreeBuffer { handle: h };
        assert(t1 =~= t0.push(a).push(f));
        assert forall|k: int|
            count_alloc_buffer(t1, k) - count_alloc_buffer(t0, k) == count_free_buffer(t1, k)
                - count_free_buffer(t0, k) by {
            lemma_counts_push(t0, a, k, 0, 0);
            lemma_counts_push(t0.push(a), f, k, 0, 0);
        }
    } else if exists|h: int, l: int, p: int|
        t1 == t0 + seq![
            GuestOp::AllocBuffer { handle: h, len: l },
            GuestOp::QueryPtr { handle: h, ptr: p },
            GuestOp::FreeBuffer { handle: h },
        ] {
        let (h, l, p) = choose|h: int, l: int, p: int|
            t1 == t0 + seq![
                GuestOp::AllocBuffer { handle: h, len: l },
                GuestOp::QueryPtr { handle: h, ptr: p },
                GuestOp::FreeBuffer { handle: h },
            ];
        let a = GuestOp::AllocBuffer { handle: h, len: l };
        let q = GuestOp::QueryPtr { handle: h, ptr: p };
        let f = GuestOp::FreeBuffer { handle: h };
        assert(t1 =~= t0.push(a).push(q).push(f));
        assert forall|k: int|
            count_alloc_buffer(t1, k) - count_alloc_buffer(t0, k) == count_free_buffer(t1, k)
                - count_free_buffer(t0, k) by {
            lemma_counts_push(t0, a, k, 0, 0);
            lemma_counts_push(t0.push(a), q, k, 0, 0);
            lemma_counts_push(t0.push(a).push(q), f, k, 0, 0);
        }
    } else {
        let (h, l, p, gl) = choose|h: int, l: int, p: int, gl: int|
            t1 == t0 + seq![
                GuestOp::AllocBuffer { handle: h, len: l },
                GuestOp::QueryPtr { handle: h, ptr: p },
                GuestOp::QueryLen { handle: h, len: gl },
                GuestOp::FreeBuffer { handle: h },
            ];
        let a = GuestOp::AllocBuffer { handle: h, len: l };
        let q = GuestOp::QueryPtr { handle: h, ptr: p };
        let ql = GuestOp::QueryLen { handle: h, len: gl };
        let f = GuestOp::FreeBuffer { handle: h };
        assert(t1 =~= t0.push(a).push(q).push(ql).push(f));
        assert forall|k: int|
            count_alloc_buffer(t1, k) - count_alloc_buffer(t0, k) == count_free_buffer(t1, k)
                - count_free_buffer(t0, k) by {
            lemma_counts_push(t0, a, k, 0, 0);
            lemma_counts_push(t0.push(a), q, k, 0, 0);
            lemma_counts_push(t0.push(a).push(q), ql, k, 0, 0);
            lemma_counts_push(t0.push(a).push(q).push(ql), f, k, 0, 0);
        }
    }
}

} // verus!
