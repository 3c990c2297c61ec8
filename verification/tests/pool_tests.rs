use corelia::quickjs_runtime::elapsed_seconds;
use corelia::quickjs_runtime::format_vm_id;
use corelia::quickjs_runtime::generate_vm_id;
use corelia::quickjs_runtime::QuickJSConfig;
use corelia::quickjs_runtime::QuickJSRuntime;

fn small_pool(max: usize, idle: u64) -> QuickJSRuntime<&'static str> {
    QuickJSRuntime::with_config(QuickJSConfig {
        max_memory_bytes: 1024,
        max_execution_time_ms: 100,
        max_vm_count: max,
        idle_timeout_secs: idle,
    })
}

#[test]
fn test_default_config() {
    let c = QuickJSConfig::default();
    assert_eq!(c.max_memory_bytes, 50 * 1024 * 1024);
    assert_eq!(c.max_execution_time_ms, 5000);
    assert_eq!(c.max_vm_count, 10);
    assert_eq!(c.idle_timeout_secs, 300);
    let pool: QuickJSRuntime<u8> = QuickJSRuntime::new();
    assert_eq!(pool.active_vm_count(), 0);
    assert_eq!(pool.config().max_vm_count, 10);
}

#[test]
fn test_pool_full_refused() {
    let mut pool = small_pool(2, 300);
    pool.reserve_slot(0).unwrap();
    pool.insert_vm("a".to_string(), "ea", 0);
    pool.reserve_slot(0).unwrap();
    pool.insert_vm("b".to_string(), "eb", 0);
    assert_eq!(pool.reserve_slot(1_000).unwrap_err(), "VM pool is full (max: 2, current: 2)");
    assert_eq!(pool.active_vm_count(), 2);
}

#[test]
fn test_reserve_drops_idle_vms() {
    let mut pool = small_pool(2, 10);
    pool.insert_vm("a".to_string(), "ea", 0);
    pool.insert_vm("b".to_string(), "eb", 5_000);
    assert!(pool.reserve_slot(12_000).is_ok());
    assert!(!pool.vm_exists("a"));
    assert!(pool.vm_exists("b"));
}

#[test]
fn test_destroy_vm() {
    let mut pool = small_pool(5, 300);
    pool.insert_vm("a".to_string(), "ea", 0);
    pool.insert_vm("b".to_string(), "eb", 0);
    assert!(pool.destroy_vm("a").is_ok());
    assert!(!pool.vm_exists("a"));
    assert_eq!(pool.active_vm_count(), 1);
    assert_eq!(pool.destroy_vm("a").unwrap_err(), "VM not found: a");
}

#[test]
fn test_touch_vm_and_engine() {
    let mut pool = small_pool(5, 300);
    pool.insert_vm("a".to_string(), "ea", 0);
    pool.insert_vm("b".to_string(), "eb", 0);
    let i = pool.touch_vm("b", 7_000).unwrap();
    assert_eq!(i, 1);
    assert_eq!(*pool.engine_at(i), "eb");
    let stats = pool.get_vm_stats(9_500);
    assert_eq!(stats[1].last_used_at_secs, 2);
    assert_eq!(stats[1].created_at_secs, 9);
    assert_eq!(pool.touch_vm("zz", 1).unwrap_err(), "VM not found: zz");
}

#[test]
fn test_cleanup_idle() {
    let mut pool = small_pool(5, 60);
    pool.insert_vm("old".to_string(), "e1", 0);
    pool.insert_vm("new".to_string(), "e2", 50_000);
    assert_eq!(pool.cleanup(70_000), 1);
    assert!(pool.vm_exists("new"));
    assert!(!pool.vm_exists("old"));
    // a second cleanup at the same time finds nothing idle
    assert_eq!(pool.cleanup(70_000), 0);
}

#[test]
fn test_cleanup_oldest() {
    let mut pool = small_pool(5, 300);
    pool.insert_vm("a".to_string(), "e", 30);
    pool.insert_vm("b".to_string(), "e", 10);
    pool.insert_vm("c".to_string(), "e", 20);
    assert_eq!(pool.cleanup_oldest(2), 2);
    assert!(pool.vm_exists("a"));
    assert_eq!(pool.active_vm_count(), 1);
    assert_eq!(pool.cleanup_oldest(0), 0);
    assert_eq!(pool.cleanup_oldest(10), 1);
    assert_eq!(pool.active_vm_count(), 0);
}

#[test]
fn test_cleanup_oldest_ties_by_position() {
    let mut pool = small_pool(5, 300);
    pool.insert_vm("a".to_string(), "e", 10);
    pool.insert_vm("b".to_string(), "e", 10);
    assert_eq!(pool.cleanup_oldest(1), 1);
    assert!(pool.vm_exists("b"));
}

#[test]
fn test_cleanup_all() {
    let mut pool = small_pool(5, 300);
    pool.insert_vm("a".to_string(), "e", 0);
    pool.insert_vm("b".to_string(), "e", 0);
    assert_eq!(pool.cleanup_all(), 2);
    assert_eq!(pool.active_vm_count(), 0);
}

#[test]
fn test_vm_stats_idle_flag() {
    let mut pool = small_pool(5, 60);
    pool.insert_vm("a".to_string(), "e", 0);
    pool.insert_vm("b".to_string(), "e", 30_000);
    let stats = pool.get_vm_stats(60_000);
    assert_eq!(stats[0].id, "a");
    assert!(stats[0].is_idle);
    assert!(!stats[1].is_idle);
    assert_eq!(stats[1].last_used_at_secs, 30);
}

#[test]
fn test_elapsed_seconds() {
    assert_eq!(elapsed_seconds(5_999, 1_000), 4);
    assert_eq!(elapsed_seconds(1_000, 5_000), 0);
}

#[test]
fn test_vm_ids() {
    assert_eq!(format_vm_id(1_700_000_000_123, 42), "vm_1700000000123_42");
    let id = generate_vm_id();
    assert!(id.starts_with("vm_"));
    assert_eq!(id.split('_').count(), 3);
}

#[test]
fn test_find_vm_does_not_touch() {
    let mut pool = small_pool(5, 60);
    pool.insert_vm("a".to_string(), "ea", 0);
    pool.insert_vm("b".to_string(), "eb", 0);
    assert_eq!(pool.find_vm("b"), Some(1));
    assert_eq!(pool.find_vm("zz"), None);
    assert_eq!(pool.get_vm_stats(120_000)[1].last_used_at_secs, 120);
}

#[test]
fn test_vm_ids_keep_numbers_apart() {
    assert_ne!(format_vm_id(1, 23), format_vm_id(12, 3));
    assert_eq!(format_vm_id(0, 0), "vm_0_0");
}

#[test]
fn test_cleanup_oldest_removes_exactly_count() {
    let mut pool = small_pool(10, 300);
    for (i, t) in [50u64, 10, 40, 20, 30].iter().enumerate() {
        pool.insert_vm(format!("vm{}", i), "e", *t);
    }
    assert_eq!(pool.cleanup_oldest(3), 3);
    assert!(pool.vm_exists("vm0"));
    assert!(pool.vm_exists("vm2"));
    assert_eq!(pool.active_vm_count(), 2);
}
