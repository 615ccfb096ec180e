//! Decoding of the guest's `prepare_data` result object.
//!
//! The two-step protocol: decode the payload fields from the guest
//! result handle, then — success, business error or engine fault alike
//! — attempt the result handle's guest destructor exactly once.

use vstd::prelude::*;

use crate::buffer::Buffer;
use crate::engine;
use crate::engine::utf8_chars;
use crate::engine::utf8_valid;
use crate::error::Error;
use crate::instance::ResultBufferAccessor;
use crate::instance::ResultFlagAccessor;
use crate::instance::SandboxInstance;
use crate::model::GuestOp;
use crate::model::count_array_set;
use crate::model::count_free_aggregate;
use crate::model::count_free_prepare;
use crate::model::count_invoke_aggregate;
use crate::model::count_invoke_prepare;
use crate::model::count_query_digest;
use crate::model::lemma_buffer_ops_failed_resolve;
use crate::model::lemma_buffer_ops_resolved;
use crate::model::lemma_counts_push;
use crate::model::lemma_prefix_push;
use crate::model::lemma_prefix_trans;

verus! {

/// The business-level outcome that decoded result fields (data
/// bytes, error flag) map to: without the flag, the payload is the
/// bytes exactly; with it, a business error holding their UTF-8
/// decoding, which exists exactly when the bytes are valid UTF-8.
pub open spec fn decoded_prepare_outcome(
    inner: Result<Vec<u8>, String>,
    bytes: Seq<u8>,
    flag: bool,
) -> bool {
    &&& !flag ==> (inner matches Ok(d) && d@ == bytes)
    &&& flag ==> (inner matches Err(m) && utf8_valid(bytes) && m@ == utf8_chars(bytes))
}

/// Turns decoded result fields into the business-level outcome: with
/// the error flag set the data bytes are the guest's UTF-8 error text
/// — decoded whenever they are valid UTF-8, a protocol-violation fault
/// otherwise, never a business error; without the flag they are the
/// success payload, kept exactly.
pub fn interpret_result(data: Vec<u8>, is_error: bool) -> (r: Result<
    Result<Vec<u8>, String>,
    Error,
>)
    ensures
        !is_error ==> (r matches Ok(inner) && (inner matches Ok(d) && d@ == data@)),
        is_error && utf8_valid(data@) ==> (r matches Ok(inner) && (inner matches Err(m) && m@
            == utf8_chars(data@))),
        is_error && !utf8_valid(data@) ==> (r matches Err(e) && e matches Error::Runtime(_)),
        r matches Err(e) ==> is_error && e matches Error::Runtime(_),
{
    if is_error {
        match engine::utf8_string(data) {
            Ok(s) => Ok(Err(s)),
            Err(e) => Err(e),
        }
    } else {
        Ok(Ok(data))
    }
}

/// Decodes the payload fields of a `prepare_data` result handle; the
/// caller owns the destructor attempt.  Whenever the fields decode,
/// the outcome is the interpretation of the data bytes and error flag
/// the guest reported.
fn convert_without_cleanup(instance: &mut SandboxInstance, result: i32) -> (r: Result<
    Result<Vec<u8>, String>,
    Error,
>)
    requires
        !old(instance).is_closed(),
    ensures
        !final(instance).is_closed(),
        old(instance).trace().is_prefix_of(final(instance).trace()),
        forall|k: int|
            count_free_prepare(final(instance).trace(), k) == count_free_prepare(
                old(instance).trace(),
                k,
            ),
        forall|k: int|
            count_free_aggregate(final(instance).trace(), k) == count_free_aggregate(
                old(instance).trace(),
                k,
            ),
        count_invoke_prepare(final(instance).trace()) == count_invoke_prepare(
            old(instance).trace(),
        ),
        count_invoke_aggregate(final(instance).trace()) == count_invoke_aggregate(
            old(instance).trace(),
        ),
        forall|a: int, i: int|
            count_array_set(final(instance).trace(), a, i) == count_array_set(
                old(instance).trace(),
                a,
                i,
            ),
        forall|k: int|
            count_query_digest(final(instance).trace(), k) == count_query_digest(
                old(instance).trace(),
                k,
            ),
        r matches Ok(inner) ==> (exists|bytes: Seq<u8>, flag: bool|
            decoded_prepare_outcome(inner, bytes, flag)),
{
    let ghost t0 = instance.trace();
    let data_handle = match instance.guest_result_buffer(
        ResultBufferAccessor::PrepareData,
        result,
    ) {
        Ok(h) => h,
        Err(e) => {
            proof {
                assert(t0 =~= instance.trace().subrange(0, t0.len() as int));
            }
            return Err(e);
        },
    };
    let data_buffer = match Buffer::from_raw(instance, data_handle) {
        Ok(b) => b,
        Err(e) => {
            proof {
                lemma_buffer_ops_failed_resolve(t0, instance.trace(), data_handle as int);
            }
            return Err(e);
        },
    };
    proof {
        lemma_buffer_ops_resolved(
            t0,
            instance.trace(),
            data_handle as int,
            data_buffer.spec_ptr(),
            data_buffer.spec_len() as int,
        );
    }
    let data = match data_buffer.read(instance) {
        Ok(d) => d,
        Err(e) => { return Err(e); },
    };
    let flag = match instance.guest_result_flag(ResultFlagAccessor::PrepareIsError, result) {
        Ok(f) => f,
        Err(e) => { return Err(e); },
    };
    let out = interpret_result(data, flag != 0);
    proof {
        if out is Ok {
            assert(decoded_prepare_outcome(out->Ok_0, data@, flag != 0));
        }
    }
    out
}

/// Decodes a `prepare_data` result handle and then, whatever the
/// decode's outcome, attempts the handle's guest destructor — exactly
/// once on every path, so no result object outlives the call.
/// Whenever the decode completed, the outcome is the interpretation of
/// the data bytes and error flag the guest reported.
pub fn convert_prepare_data_result(instance: &mut SandboxInstance, result: i32) -> (r: Result<
    Result<Vec<u8>, String>,
    Error,
>)
    requires
        !old(instance).is_closed(),
    ensures
        !final(instance).is_closed(),
        old(instance).trace().is_prefix_of(final(instance).trace()),
        count_free_prepare(final(instance).trace(), result as int) == count_free_prepare(
            old(instance).trace(),
            result as int,
        ) + 1,
        forall|k: int|
            k != result as int ==> count_free_prepare(final(instance).trace(), k)
                == count_free_prepare(old(instance).trace(), k),
        forall|k: int|
            count_free_aggregate(final(instance).trace(), k) == count_free_aggregate(
                old(instance).trace(),
                k,
            ),
        count_invoke_prepare(final(instance).trace()) == count_invoke_prepare(
            old(instance).trace(),
        ),
        count_invoke_aggregate(final(instance).trace()) == count_invoke_aggregate(
            old(instance).trace(),
        ),
        forall|a: int, i: int|
            count_array_set(final(instance).trace(), a, i) == count_array_set(
                old(instance).trace(),
                a,
                i,
            ),
        r matches Ok(inner) ==> (exists|bytes: Seq<u8>, flag: bool|
            decoded_prepare_outcome(inner, bytes, flag)),
{
    let ghost t0 = instance.trace();
    let inner = convert_without_cleanup(instance, result);
    let ghost t1 = instance.trace();
    let destroyed = instance.guest_prepare_result_destroy(result);
    proof {
        let ghost free_op = GuestOp::FreePrepareResult { handle: result as int };
        lemma_prefix_push(t1, free_op);
        lemma_prefix_trans(t0, t1, instance.trace());
        assert forall|k: int|
            count_free_prepare(instance.trace(), k) == count_free_prepare(t1, k) + (
            if k == result as int { 1int } else { 0int })
                && count_free_aggregate(instance.trace(), k) == count_free_aggregate(t1, k) by {
            lemma_counts_push(t1, free_op, k, 0, 0);
        }
        assert forall|a: int, i: int| count_array_set(instance.trace(), a, i) == count_array_set(
            t1,
            a,
            i,
        ) by {
            lemma_counts_push(t1, free_op, 0, a, i);
        }
        lemma_counts_push(t1, free_op, 0, 0, 0);
    }
    match destroyed {
        Ok(_) => inner,
        Err(e) => Err(e),
    }
}

} // verus!
