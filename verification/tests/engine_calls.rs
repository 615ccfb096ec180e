//! End-to-end tests against a real sandboxed module.
//!
//! The guest is a small hand-written module implementing the required
//! ABI: a bump allocator for buffers, an echoing `prepare_data` (which
//! reports the business error `bad input` on an empty request and
//! traps on a one-byte request), and an `aggregate` that sums every
//! data byte weighted by its one-based slot number into a
//! little-endian result, with the byte count as digest.

use sandbox_host::buffer::Buffer;
use sandbox_host::instance::{instance_aggregate, instance_prepare_data, SliceArray};
use sandbox_host::{runtime_create_instance, Error, SandboxRuntime, Slice};

const GUEST: &str = r#"
(module
  (import "env" "memory" (memory 64))
  (global $next (mut i32) (i32.const 2097152))
  (data (i32.const 1024) "bad input")

  (func $alloc (param $n i32) (result i32)
    (local $a i32)
    global.get $next
    local.set $a
    global.get $next
    local.get $n
    i32.add
    i32.const 7
    i32.add
    i32.const -8
    i32.and
    global.set $next
    local.get $a
  )

  (func $copy (param $dst i32) (param $src i32) (param $n i32)
    (local $i i32)
    (block $done
      (loop $again
        local.get $i
        local.get $n
        i32.ge_u
        br_if $done
        (i32.store8
          (i32.add (local.get $dst) (local.get $i))
          (i32.load8_u (i32.add (local.get $src) (local.get $i))))
        (local.set $i (i32.add (local.get $i) (i32.const 1)))
        br $again
      )
    )
  )

  (func $mkbuf (param $ptr i32) (param $len i32) (result i32)
    (local $h i32)
    (local.set $h (call $alloc (i32.const 8)))
    (i32.store (local.get $h) (local.get $ptr))
    (i32.store offset=4 (local.get $h) (local.get $len))
    local.get $h
  )

  (func (export "buffer_create") (param $len i32) (result i32)
    (call $mkbuf (call $alloc (local.get $len)) (local.get $len))
  )
  (func (export "buffer_get_mut_ptr") (param $h i32) (result i32)
    (i32.load (local.get $h))
  )
  (func (export "buffer_len") (param $h i32) (result i32)
    (i32.load offset=4 (local.get $h))
  )
  (func (export "buffer_destroy") (param $h i32))

  (func (export "buffer_array_create") (param $n i32) (result i32)
    (local $h i32)
    (local.set $h (call $alloc (i32.add (i32.const 4) (i32.mul (local.get $n) (i32.const 4)))))
    (i32.store (local.get $h) (local.get $n))
    local.get $h
  )
  (func (export "buffer_array_set_buffer") (param $a i32) (param $i i32) (param $b i32)
    (i32.store
      (i32.add (i32.add (local.get $a) (i32.const 4)) (i32.mul (local.get $i) (i32.const 4)))
      (local.get $b))
  )

  (func (export "prepare_data") (param $cfg i32) (param $req i32) (result i32)
    (local $r i32) (local $n i32) (local $d i32)
    (local.set $r (call $alloc (i32.const 8)))
    (local.set $n (i32.load offset=4 (local.get $req)))
    (if (i32.eq (local.get $n) (i32.const 1))
      (then unreachable))
    (if (i32.eqz (local.get $n))
      (then
        (i32.store (local.get $r) (call $mkbuf (i32.const 1024) (i32.const 9)))
        (i32.store offset=4 (local.get $r) (i32.const 1)))
      (else
        (local.set $d (call $alloc (local.get $n)))
        (call $copy (local.get $d) (i32.load (local.get $req)) (local.get $n))
        (i32.store (local.get $r) (call $mkbuf (local.get $d) (local.get $n)))
        (i32.store offset=4 (local.get $r) (i32.const 0))))
    local.get $r
  )
  (func (export "prepare_data_result_get_data") (param $r i32) (result i32)
    (i32.load (local.get $r)))
  (func (export "prepare_data_result_is_error") (param $r i32) (result i32)
    (i32.load offset=4 (local.get $r)))
  (func (export "prepare_data_result_destroy") (param $r i32))

  (func (export "aggregate") (param $cfg i32) (param $arr i32) (param $req i32) (result i32)
    (local $r i32) (local $n i32) (local $i i32) (local $b i32) (local $p i32) (local $l i32)
    (local $j i32) (local $sum i64) (local $total i32) (local $d i32) (local $g i32)
    (local.set $r (call $alloc (i32.const 12)))
    (local.set $n (i32.load (local.get $arr)))
    (block $done
      (loop $items
        local.get $i
        local.get $n
        i32.ge_u
        br_if $done
        (local.set $b (i32.load
          (i32.add (i32.add (local.get $arr) (i32.const 4))
                   (i32.mul (local.get $i) (i32.const 4)))))
        (local.set $p (i32.load (local.get $b)))
        (local.set $l (i32.load offset=4 (local.get $b)))
        (local.set $j (i32.const 0))
        (block $inner_done
          (loop $inner
            local.get $j
            local.get $l
            i32.ge_u
            br_if $inner_done
            (local.set $sum (i64.add (local.get $sum)
              (i64.mul
                (i64.extend_i32_u (i32.load8_u (i32.add (local.get $p) (local.get $j))))
                (i64.extend_i32_u (i32.add (local.get $i) (i32.const 1))))))
            (local.set $total (i32.add (local.get $total) (i32.const 1)))
            (local.set $j (i32.add (local.get $j) (i32.const 1)))
            br $inner
          )
        )
        (local.set $i (i32.add (local.get $i) (i32.const 1)))
        br $items
      )
    )
    (local.set $d (call $alloc (i32.const 8)))
    (i64.store (local.get $d) (local.get $sum))
    (local.set $g (call $alloc (i32.const 4)))
    (i32.store (local.get $g) (local.get $total))
    (i32.store (local.get $r) (call $mkbuf (local.get $d) (i32.const 8)))
    (i32.store offset=4 (local.get $r) (i32.const 0))
    (i32.store offset=8 (local.get $r) (call $mkbuf (local.get $g) (i32.const 4)))
    local.get $r
  )
  (func (export "aggregate_result_get_data") (param $r i32) (result i32)
    (i32.load (local.get $r)))
  (func (export "aggregate_result_is_error") (param $r i32) (result i32)
    (i32.load offset=4 (local.get $r)))
  (func (export "aggregate_result_get_digest") (param $r i32) (result i32)
    (i32.load offset=8 (local.get $r)))
  (func (export "aggregate_result_destroy") (param $r i32))
)
"#;

fn guest_bytes() -> Vec<u8> {
    wat::parse_str(GUEST).expect("guest module assembles")
}

#[test]
fn guest_buffer_round_trip() {
    let runtime = SandboxRuntime::new().unwrap();
    let mut instance = runtime.create_instance(&guest_bytes()).unwrap();
    let payload = b"hello sandboxed world".to_vec();
    let buffer = Buffer::new_with_data(&mut instance, &payload).unwrap();
    let back = buffer.read(&instance).unwrap();
    assert_eq!(back, payload);
    buffer.destroy(&mut instance).unwrap();
    instance.close();
}

#[test]
fn end_to_end_prepare_then_aggregate() {
    let runtime = SandboxRuntime::new().unwrap();
    let mut instance = runtime.create_instance(&guest_bytes()).unwrap();
    let prepared = instance
        .prepare_data(b"cfg", b"req")
        .unwrap()
        .unwrap();
    assert_eq!(prepared, b"req".to_vec());
    let aggregation = instance
        .aggregate(b"cfg", &[&prepared], b"first")
        .unwrap()
        .unwrap();
    // 'r' + 'e' + 'q' = 114 + 101 + 113 = 328, weighted by slot 1.
    assert_eq!(aggregation.data, vec![72u8, 1, 0, 0, 0, 0, 0, 0]);
    assert!(!aggregation.digest.is_empty());
    assert_eq!(aggregation.digest, vec![3u8, 0, 0, 0]);
    instance.close();
}

#[test]
fn index_fidelity_is_order_sensitive() {
    let runtime = SandboxRuntime::new().unwrap();
    let mut instance = runtime.create_instance(&guest_bytes()).unwrap();
    let d0: &[u8] = &[1u8];
    let d1: &[u8] = &[2u8];
    let d2: &[u8] = &[3u8];
    let aggregation = instance
        .aggregate(b"cfg", &[d0, d1, d2], b"r")
        .unwrap()
        .unwrap();
    // 1*1 + 2*2 + 3*3 = 14; any other slot order gives another value.
    assert_eq!(aggregation.data, vec![14u8, 0, 0, 0, 0, 0, 0, 0]);
    assert_eq!(aggregation.digest, vec![3u8, 0, 0, 0]);
    instance.close();
}

#[test]
fn business_error_surfaced_distinctly() {
    let runtime = SandboxRuntime::new().unwrap();
    let mut instance = runtime.create_instance(&guest_bytes()).unwrap();
    let outcome = instance.prepare_data(b"cfg", b"").unwrap();
    assert_eq!(outcome, Err(String::from("bad input")));
    instance.close();
}

#[test]
fn engine_fault_is_not_a_business_error() {
    let runtime = SandboxRuntime::new().unwrap();
    let mut instance = runtime.create_instance(&guest_bytes()).unwrap();
    let outcome = instance.prepare_data(b"cfg", b"x");
    assert!(matches!(outcome, Err(Error::Runtime(_))));
    instance.close();
}

#[test]
fn boundary_call_surface() {
    let runtime = SandboxRuntime::new().unwrap();
    let mut instance = runtime.create_instance(&guest_bytes()).unwrap();
    let config = Slice { data: b"cfg" };
    let request = Slice { data: b"req" };
    let prepared = instance_prepare_data(&mut instance, &config, &request);
    assert!(!prepared.is_error);
    assert_eq!(prepared.data.data, b"req".to_vec());
    let array = SliceArray { slices: vec![Slice { data: &prepared.data.data }] };
    let aggregated = instance_aggregate(&mut instance, &config, &array, &request);
    assert!(!aggregated.is_error);
    assert_eq!(aggregated.data.data, vec![72u8, 1, 0, 0, 0, 0, 0, 0]);
    assert!(aggregated.digest.is_some());
    let empty = Slice { data: b"" };
    let failed = instance_prepare_data(&mut instance, &config, &empty);
    assert!(failed.is_error);
    assert_eq!(failed.data.data, b"bad input".to_vec());
    let one = Slice { data: b"x" };
    let faulted = instance_prepare_data(&mut instance, &config, &one);
    assert!(faulted.is_error);
    assert!(faulted.data.data.starts_with(b"runtime error: "));
    instance.close();
}

#[test]
fn instance_isolation() {
    let runtime = SandboxRuntime::new().unwrap();
    let bytes = guest_bytes();
    let mut first = runtime.create_instance(&bytes).unwrap();
    let mut second = runtime.create_instance(&bytes).unwrap();
    let in_first = Buffer::new_with_data(&mut first, b"AAAA").unwrap();
    let in_second = Buffer::new_with_data(&mut second, b"BBBB").unwrap();
    assert_eq!(in_first.read(&first).unwrap(), b"AAAA".to_vec());
    assert_eq!(in_second.read(&second).unwrap(), b"BBBB".to_vec());
    first.close();
    second.close();
}

#[test]
fn compile_fault_reported() {
    let runtime = SandboxRuntime::new().unwrap();
    let outcome = runtime.create_instance(b"not a wasm module");
    assert!(matches!(outcome, Err(Error::Compile(_))));
}

#[test]
fn missing_memory_import_reported() {
    let runtime = SandboxRuntime::new().unwrap();
    let bytes = wat::parse_str("(module (func (export \"f\")))").unwrap();
    let outcome = runtime.create_instance(&bytes);
    assert!(matches!(outcome, Err(Error::Instantiation(_))));
}

#[test]
fn missing_entry_point_reported() {
    let runtime = SandboxRuntime::new().unwrap();
    let bytes = wat::parse_str("(module (import \"env\" \"memory\" (memory 1)))").unwrap();
    let outcome = runtime.create_instance(&bytes);
    assert!(matches!(outcome, Err(Error::Export(_))));
}

#[test]
fn instance_result_destroyed_once() {
    let runtime = SandboxRuntime::new().unwrap();
    let bytes = guest_bytes();
    let result = runtime_create_instance(&runtime, &Slice { data: &bytes });
    assert!(result.instance.is_some());
    assert!(result.error.is_none());
    sandbox_host::instance_result_destroy(result);
}

#[test]
fn create_instance_error_wrapped_at_boundary() {
    let runtime = SandboxRuntime::new().unwrap();
    let bad = Slice { data: b"not a wasm module" };
    let result = runtime_create_instance(&runtime, &bad);
    assert!(result.instance.is_none());
    let error = result.error.expect("error buffer present");
    assert!(error.data.starts_with(b"runtime error: compile: "));
}
