use corelia::wasm_bridge::generate_request_id;
use corelia::wasm_bridge::WasmBridge;
use corelia::wasm_bridge::WasmCallResultEntry;
use corelia::wasm_bridge::WasmFunctionInfo;

fn func(name: &str, patch: &str, params: usize) -> WasmFunctionInfo {
    WasmFunctionInfo { name: name.to_string(), patch: patch.to_string(), param_count: params }
}

fn result(id: &str, ok: bool) -> WasmCallResultEntry {
    WasmCallResultEntry {
        request_id: id.to_string(),
        success: ok,
        result: if ok { Some("42".to_string()) } else { None },
        error: if ok { None } else { Some("failed".to_string()) },
    }
}

#[test]
fn test_register_and_query_functions() {
    let mut b = WasmBridge::new();
    b.register_functions("crypto".to_string(), vec![func("crypto.sha256", "crypto", 1), func("crypto.base64", "crypto", 1)]);
    assert!(b.has_function("crypto.sha256"));
    assert!(b.is_patch_loaded("crypto"));
    assert_eq!(b.list_functions().len(), 2);
    assert_eq!(b.get_patch_functions("crypto").len(), 2);
    assert!(b.get_patch_functions("other").is_empty());
    assert!(!b.has_function("nope"));
}

#[test]
fn test_reregister_replaces_patch_functions() {
    let mut b = WasmBridge::new();
    b.register_functions("p".to_string(), vec![func("p.a", "p", 0), func("p.b", "p", 0)]);
    b.register_functions("p".to_string(), vec![func("p.c", "p", 2)]);
    assert!(!b.has_function("p.a"));
    assert!(b.has_function("p.c"));
    assert_eq!(b.list_functions().len(), 1);
    assert_eq!(b.list_functions()[0].param_count, 2);
}

#[test]
fn test_unregister_patch_clears_it() {
    let mut b = WasmBridge::new();
    b.register_functions("p".to_string(), vec![func("p.a", "p", 0)]);
    b.register_functions("q".to_string(), vec![func("q.a", "q", 0)]);
    b.unregister_patch("p");
    assert!(!b.is_patch_loaded("p"));
    assert!(!b.has_function("p.a"));
    assert!(b.has_function("q.a"));
}

#[test]
fn test_store_then_take_result() {
    let mut b = WasmBridge::new();
    b.store_call_result(result("wasm_req_1", true));
    let e = b.get_call_result("wasm_req_1").unwrap();
    assert!(e.success);
    assert_eq!(e.result.as_deref(), Some("42"));
    assert!(b.get_call_result("wasm_req_1").is_none());
}

#[test]
fn test_store_replaces_same_id() {
    let mut b = WasmBridge::new();
    b.store_call_result(result("r", true));
    b.store_call_result(result("r", false));
    let e = b.get_call_result("r").unwrap();
    assert!(!e.success);
    assert_eq!(e.error.as_deref(), Some("failed"));
}

#[test]
fn test_results_trimmed_past_limit() {
    let mut b = WasmBridge::new();
    for i in 0..1001 {
        b.store_call_result(result(&format!("r{:04}", i), true));
    }
    // 1001 waiting: the next store drops the 500 smallest ids first
    b.store_call_result(result("zzz", true));
    assert!(b.get_call_result("r0000").is_none());
    assert!(b.get_call_result("r0499").is_none());
    assert!(b.get_call_result("r0500").is_some());
    assert!(b.get_call_result("zzz").is_some());
}

#[test]
fn test_generate_request_id_counts() {
    let mut counter = 0u64;
    assert_eq!(generate_request_id(&mut counter), "wasm_req_0");
    assert_eq!(generate_request_id(&mut counter), "wasm_req_1");
    assert_eq!(counter, 2);
    let mut top = u64::MAX;
    assert_eq!(generate_request_id(&mut top), format!("wasm_req_{}", u64::MAX));
    assert_eq!(top, 0);
}

#[test]
fn test_successive_request_ids_differ() {
    let mut counter = 9u64;
    let a = generate_request_id(&mut counter);
    let b = generate_request_id(&mut counter);
    assert_ne!(a, b);
    assert_eq!(b, "wasm_req_10");
}
