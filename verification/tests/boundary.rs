//! Tests of the boundary layer's pure wrapping logic.

use sandbox_host::instance::{
    aggregate_result_from, prepare_data_result_destroy, prepare_data_result_from,
    aggregate_result_destroy, Aggregation,
};
use sandbox_host::aggregate_result::interpret_aggregate_result;
use sandbox_host::prepare_data_result::interpret_result;
use sandbox_host::{
    buffer_destroy, buffer_slice, runtime_create, runtime_result_destroy, slice_to_buffer, Error,
    Slice,
};

#[test]
fn slice_buffer_round_trip() {
    let bytes = vec![1u8, 2, 3, 4];
    let slice = Slice { data: &bytes };
    let buffer = slice_to_buffer(&slice);
    assert_eq!(buffer.data, bytes);
    let view = buffer_slice(&buffer);
    assert_eq!(view.data, &bytes[..]);
    buffer_destroy(buffer);
}

#[test]
fn prepare_wrapping_success() {
    let r = prepare_data_result_from(Ok(Ok(vec![9u8, 8, 7])));
    assert!(!r.is_error);
    assert_eq!(r.data.data, vec![9u8, 8, 7]);
    prepare_data_result_destroy(r);
}

#[test]
fn prepare_wrapping_business_error() {
    let r = prepare_data_result_from(Ok(Err(String::from("bad input"))));
    assert!(r.is_error);
    assert_eq!(r.data.data, b"bad input".to_vec());
    prepare_data_result_destroy(r);
}

#[test]
fn prepare_wrapping_engine_fault() {
    let r = prepare_data_result_from(Err(Error::Runtime(b"boom".to_vec())));
    assert!(r.is_error);
    assert_eq!(r.data.data, b"runtime error: boom".to_vec());
    prepare_data_result_destroy(r);
}

#[test]
fn aggregate_wrapping_success_has_digest() {
    let r = aggregate_result_from(Ok(Ok(Aggregation {
        data: vec![1u8, 2],
        digest: vec![3u8],
    })));
    assert!(!r.is_error);
    assert_eq!(r.data.data, vec![1u8, 2]);
    let digest = r.digest.as_ref().expect("digest present on success");
    assert_eq!(digest.data, vec![3u8]);
    aggregate_result_destroy(r);
}

#[test]
fn aggregate_wrapping_business_error_has_no_digest() {
    let r = aggregate_result_from(Ok(Err(String::from("bad input"))));
    assert!(r.is_error);
    assert_eq!(r.data.data, b"bad input".to_vec());
    assert!(r.digest.is_none());
    aggregate_result_destroy(r);
}

#[test]
fn aggregate_wrapping_engine_fault() {
    let r = aggregate_result_from(Err(Error::Compile(b"compile: oops".to_vec())));
    assert!(r.is_error);
    assert_eq!(r.data.data, b"runtime error: compile: oops".to_vec());
    assert!(r.digest.is_none());
    aggregate_result_destroy(r);
}

#[test]
fn interpret_success_keeps_bytes() {
    let r = interpret_result(vec![0u8, 159, 146, 150], false).expect("engine ok");
    assert_eq!(r, Ok(vec![0u8, 159, 146, 150]));
}

#[test]
fn interpret_error_decodes_utf8() {
    let r = interpret_result(b"bad input".to_vec(), true).expect("engine ok");
    assert_eq!(r, Err(String::from("bad input")));
}

#[test]
fn interpret_error_decodes_multibyte_utf8() {
    // "hé" is three bytes but two characters.
    let r = interpret_result(vec![104u8, 195, 169], true).expect("engine ok");
    let message = r.expect_err("business error");
    assert_eq!(message, String::from("h\u{e9}"));
    assert_eq!(message.chars().count(), 2);
}

#[test]
fn business_error_message_reencoded_as_utf8() {
    let r = prepare_data_result_from(Ok(Err(String::from("caf\u{e9}"))));
    assert!(r.is_error);
    assert_eq!(r.data.data, vec![99u8, 97, 102, 195, 169]);
    prepare_data_result_destroy(r);
}

#[test]
fn buffer_from_vec_takes_ownership() {
    let buffer = sandbox_host::Buffer::from(vec![5u8, 6, 7]);
    assert_eq!(buffer.data, vec![5u8, 6, 7]);
    buffer_destroy(buffer);
}

#[test]
fn interpret_error_rejects_invalid_utf8() {
    let out = interpret_result(vec![0xffu8, 0xfe], true);
    assert!(matches!(out, Err(Error::Runtime(_))));
}

#[test]
fn interpret_aggregate_success_keeps_data_and_digest() {
    let r = interpret_aggregate_result(vec![1u8, 2, 3], false, vec![9u8]).expect("engine ok");
    let aggregation = r.expect("business success");
    assert_eq!(aggregation.data, vec![1u8, 2, 3]);
    assert_eq!(aggregation.digest, vec![9u8]);
}

#[test]
fn interpret_aggregate_error_decodes_multibyte_utf8() {
    let r = interpret_aggregate_result(vec![104u8, 195, 169], true, Vec::new())
        .expect("engine ok");
    let message = match r {
        Ok(_) => panic!("expected a business error"),
        Err(message) => message,
    };
    assert_eq!(message, String::from("h\u{e9}"));
    assert_eq!(message.chars().count(), 2);
}

#[test]
fn interpret_aggregate_error_rejects_invalid_utf8() {
    let out = interpret_aggregate_result(vec![0xffu8, 0xfe], true, Vec::new());
    assert!(matches!(out, Err(Error::Runtime(_))));
}

#[test]
fn error_message_carries_payload() {
    let e = Error::Memory(b"memory".to_vec());
    assert_eq!(e.message(), b"memory".to_vec());
}

#[test]
fn runtime_creation_succeeds() {
    let r = runtime_create();
    assert!(r.runtime.is_some());
    assert!(r.error.is_none());
    runtime_result_destroy(r);
}
