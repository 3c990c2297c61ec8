use corelia::loader::LoadFailure;
use corelia::loader::LoadStart;
use corelia::loader::PluginLoader;
use corelia::loader::ScannedPlugin;
use corelia::manifest::PluginManifest;
use corelia::quickjs_runtime::QuickJSConfig;
use corelia::quickjs_runtime::QuickJSRuntime;
use corelia::state::PluginState;

fn manifest(name: &str, prefix: Option<&str>) -> PluginManifest {
    PluginManifest {
        name: name.to_string(),
        version: "1.0.0".to_string(),
        plugin_type: "quickjs".to_string(),
        logo: None,
        prefix: prefix.map(|p| p.to_string()),
        main: None,
        description: None,
        author: None,
        patches: vec![],
        features: None,
    }
}

fn scanned(name: &str, prefix: Option<&str>) -> ScannedPlugin {
    ScannedPlugin { dir: format!("/plugins/{}", name), manifest: Ok(manifest(name, prefix)) }
}

fn loader_with(names: &[(&str, Option<&str>)]) -> PluginLoader<u32> {
    let mut loader = PluginLoader::new("/plugins".to_string(), QuickJSRuntime::new());
    let entries: Vec<ScannedPlugin> = names.iter().map(|(n, p)| scanned(n, *p)).collect();
    loader.scan_plugins(entries);
    loader
}

/// Runs a load of `id` at `now` through to the run of its code, which ends with `outcome`.
fn load(loader: &mut PluginLoader<u32>, id: &str, now: u64, outcome: Result<(), String>) -> Result<(PluginState, Option<String>), String> {
    match loader.begin_load(id, now)? {
        LoadStart::Settled { state, vm_id } => Ok((state, vm_id)),
        LoadStart::Proceed { .. } => {
            loader.runtime_mut().reserve_slot(now)?;
            let vm_id = format!("vm_{}_{}", now, id.len());
            loader.attach_vm(id, vm_id, 7, now)?;
            loader.finish_load(id, outcome, now)
        }
    }
}

#[test]
fn test_scan_registers_valid_plugins() {
    let mut loader: PluginLoader<u32> = PluginLoader::new("/plugins".to_string(), QuickJSRuntime::new());
    let mut bad = manifest("", None);
    bad.version = "1".to_string();
    let entries = vec![
        scanned("alpha", Some("al")),
        ScannedPlugin { dir: "/plugins/broken".to_string(), manifest: Err("JSON 解析失败: eof".to_string()) },
        ScannedPlugin { dir: "/plugins/noname".to_string(), manifest: Ok(bad) },
        scanned("beta", None),
    ];
    let ids = loader.scan_plugins(entries);
    assert_eq!(ids, vec!["alpha".to_string(), "beta".to_string()]);
    assert_eq!(loader.total_count(), 2);
    let p = loader.get_plugin("alpha").unwrap();
    assert!(matches!(p.state, PluginState::MetaLoaded));
    assert_eq!(p.manifest.main.as_deref(), Some("index.js"));
    assert_eq!(p.manifest.features.as_ref().map(|f| f.len()), Some(0));
    assert_eq!(p.plugin_dir, "/plugins/alpha");
    assert_eq!(p.max_retries, 3);
    assert_eq!(p.retry_backoff_ms, 1000);
    assert!(loader.get_plugin("broken").is_none());
}

#[test]
fn test_rescan_replaces_record() {
    let mut loader = loader_with(&[("alpha", None)]);
    assert!(load(&mut loader, "alpha", 1_000, Ok(())).is_ok());
    let ids = loader.scan_plugins(vec![scanned("alpha", None)]);
    assert_eq!(ids, vec!["alpha".to_string()]);
    assert_eq!(loader.total_count(), 1);
    assert!(matches!(loader.get_plugin("alpha").unwrap().state, PluginState::MetaLoaded));
}

#[test]
fn test_load_success_reports_ready_with_vm() {
    let mut loader = loader_with(&[("alpha", None)]);
    let (state, vm) = load(&mut loader, "alpha", 5_000, Ok(())).unwrap();
    assert!(matches!(state, PluginState::Ready));
    assert_eq!(vm.as_deref(), Some("vm_5000_5"));
    let p = loader.get_plugin("alpha").unwrap();
    assert_eq!(p.loaded_at, Some(5_000));
    assert_eq!(p.last_used, Some(5_000));
    assert_eq!(loader.runtime().active_vm_count(), 1);
    assert_eq!(loader.loaded_count(), 1);
}

#[test]
fn test_begin_load_entry_file() {
    let mut loader = loader_with(&[("alpha", None)]);
    match loader.begin_load("alpha", 10).unwrap() {
        LoadStart::Proceed { plugin_dir, entry } => {
            assert_eq!(plugin_dir, "/plugins/alpha");
            assert_eq!(entry, "index.js");
        }
        LoadStart::Settled { .. } => panic!("expected the load to proceed"),
    }
    assert!(matches!(loader.get_plugin("alpha").unwrap().state, PluginState::Loading));
    match loader.begin_load("alpha", 20).unwrap() {
        LoadStart::Settled { state, vm_id } => {
            assert!(matches!(state, PluginState::Loading));
            assert!(vm_id.is_none());
        }
        LoadStart::Proceed { .. } => panic!("a loading plugin is not loaded twice"),
    }
}

#[test]
fn test_load_unknown_plugin() {
    let mut loader = loader_with(&[]);
    match loader.begin_load("ghost", 0) {
        Err(e) => assert_eq!(e, "插件不存在: ghost"),
        Ok(_) => panic!("expected an error"),
    }
    assert_eq!(loader.unload_plugin("ghost").unwrap_err(), "插件不存在: ghost");
}

#[test]
fn test_ready_plugin_is_marked_used() {
    let mut loader = loader_with(&[("alpha", None)]);
    load(&mut loader, "alpha", 1_000, Ok(())).unwrap();
    let (state, vm) = load(&mut loader, "alpha", 9_000, Ok(())).unwrap();
    assert!(matches!(state, PluginState::Ready));
    assert_eq!(vm.as_deref(), Some("vm_1000_5"));
    assert_eq!(loader.get_plugin("alpha").unwrap().last_used, Some(9_000));
    assert_eq!(loader.runtime().active_vm_count(), 1);
}

#[test]
fn test_failed_runs_back_off_then_give_up() {
    let mut loader = loader_with(&[("p", None)]);
    let e1 = load(&mut loader, "p", 10_000, Err("boom".to_string())).unwrap_err();
    assert_eq!(e1, "执行插件代码失败: boom 将在 1000ms 后允许重试 (剩余 2 次)");
    let p = loader.get_plugin("p").unwrap();
    assert_eq!(p.load_error_count, 1);
    assert_eq!(p.retry_backoff_ms, 2000);
    assert_eq!(p.retry_after, Some(11_000));
    assert!(p.vm_id.is_none());
    assert_eq!(p.last_error.as_deref(), Some("执行插件代码失败: boom"));
    assert_eq!(loader.runtime().active_vm_count(), 0);

    let cooling = load(&mut loader, "p", 10_500, Ok(())).unwrap_err();
    assert_eq!(cooling, "插件 p 重试冷却中，请等待 0 秒后再试");

    let e2 = load(&mut loader, "p", 11_000, Err("boom".to_string())).unwrap_err();
    assert_eq!(e2, "执行插件代码失败: boom 将在 2000ms 后允许重试 (剩余 1 次)");
    let e3 = load(&mut loader, "p", 13_000, Err("boom".to_string())).unwrap_err();
    assert_eq!(e3, "执行插件代码失败: boom 已达到最大重试次数，不再自动重试");
    assert_eq!(loader.get_plugin("p").unwrap().retry_backoff_ms, 8000);

    let refused = load(&mut loader, "p", 100_000, Ok(())).unwrap_err();
    assert_eq!(refused, "插件 p 加载失败次数已达上限 (3): 执行插件代码失败: boom");
}

#[test]
fn test_cooldown_reports_whole_seconds() {
    let mut loader = loader_with(&[("p", None)]);
    load(&mut loader, "p", 0, Err("x".to_string())).unwrap_err();
    load(&mut loader, "p", 1_000, Err("x".to_string())).unwrap_err();
    // back-off in force: 2000 ms from 1000
    let msg = load(&mut loader, "p", 1_500, Ok(())).unwrap_err();
    assert_eq!(msg, "插件 p 重试冷却中，请等待 1 秒后再试");
}

#[test]
fn test_backoff_is_capped() {
    let mut loader = loader_with(&[("p", None)]);
    let mut now = 0u64;
    for _ in 0..2 {
        load(&mut loader, "p", now, Err("x".to_string())).unwrap_err();
        now += 60_000;
    }
    // the plugin now has two failures and a back-off of 4000; unload keeps the count
    loader.unload_plugin("p").unwrap();
    assert_eq!(loader.get_plugin("p").unwrap().retry_backoff_ms, 1000);
    for _ in 0..6 {
        let _ = load(&mut loader, "p", now, Err("x".to_string()));
        loader.unload_plugin("p").unwrap();
        now += 60_000;
    }
    let p = loader.get_plugin("p").unwrap();
    assert!(p.retry_backoff_ms <= 30_000);
    assert_eq!(p.load_error_count, 8);
}

#[test]
fn test_success_resets_failures() {
    let mut loader = loader_with(&[("p", None)]);
    load(&mut loader, "p", 0, Err("x".to_string())).unwrap_err();
    load(&mut loader, "p", 5_000, Ok(())).unwrap();
    let p = loader.get_plugin("p").unwrap();
    assert_eq!(p.load_error_count, 0);
    assert!(p.last_error.is_none());
    assert!(p.retry_after.is_none());
    assert_eq!(p.retry_backoff_ms, 1000);
}

#[test]
fn test_setup_failures() {
    let mut loader = loader_with(&[("p", None)]);
    loader.begin_load("p", 0).unwrap();
    let msg = loader.fail_load("p", LoadFailure::MissingEntry("/plugins/p/index.js".to_string()));
    assert_eq!(msg, "入口文件不存在: /plugins/p/index.js");
    let p = loader.get_plugin("p").unwrap();
    assert_eq!(p.load_error_count, 1);
    assert!(matches!(p.state, PluginState::Error(ref m) if m == "入口文件不存在: /plugins/p/index.js"));
    assert!(p.last_error.is_none());

    loader.begin_load("p", 0).unwrap();
    loader.runtime_mut().reserve_slot(0).unwrap();
    loader.attach_vm("p", "vm_a".to_string(), 1, 0).unwrap();
    assert!(loader.runtime().vm_exists("vm_a"));
    let msg = loader.fail_load("p", LoadFailure::Inject("bad".to_string()));
    assert_eq!(msg, "API 注入失败: bad");
    assert!(!loader.runtime().vm_exists("vm_a"));
    assert!(loader.get_plugin("p").unwrap().vm_id.is_none());
    assert_eq!(loader.get_plugin("p").unwrap().load_error_count, 2);

    loader.begin_load("p", 0).unwrap();
    assert_eq!(loader.fail_load("p", LoadFailure::ReadEntry("denied".to_string())), "读取入口文件失败: denied");
    assert_eq!(loader.get_plugin("p").unwrap().load_error_count, 3);
}

#[test]
fn test_attach_vm_refused_when_pool_full() {
    let config = QuickJSConfig { max_memory_bytes: 1, max_execution_time_ms: 1, max_vm_count: 1, idle_timeout_secs: 300 };
    let mut loader: PluginLoader<u32> = PluginLoader::new("/plugins".to_string(), QuickJSRuntime::with_config(config));
    loader.scan_plugins(vec![scanned("a", None), scanned("b", None)]);
    load(&mut loader, "a", 0, Ok(())).unwrap();
    loader.begin_load("b", 0).unwrap();
    assert_eq!(loader.attach_vm("b", "vm_b".to_string(), 2, 0).unwrap_err(), "VM pool is full (max: 1, current: 1)");
    assert_eq!(loader.runtime_mut().reserve_slot(0).unwrap_err(), "VM pool is full (max: 1, current: 1)");
    assert_eq!(
        loader.fail_load("b", LoadFailure::CreateVm("VM pool is full (max: 1, current: 1)".to_string())),
        "创建 VM 失败: VM pool is full (max: 1, current: 1)"
    );
}

#[test]
fn test_unload_resets_and_drops_vm() {
    let mut loader = loader_with(&[("p", None)]);
    load(&mut loader, "p", 0, Ok(())).unwrap();
    loader.unload_plugin("p").unwrap();
    let p = loader.get_plugin("p").unwrap();
    assert!(matches!(p.state, PluginState::Unloaded));
    assert!(p.vm_id.is_none());
    assert!(p.loaded_at.is_none());
    assert!(p.last_used.is_none());
    assert_eq!(loader.runtime().active_vm_count(), 0);
    // after an unload, a load proceeds
    assert!(matches!(loader.begin_load("p", 1).unwrap(), LoadStart::Proceed { .. }));
}

#[test]
fn test_unload_all() {
    let mut loader = loader_with(&[("a", None), ("b", None), ("c", None)]);
    load(&mut loader, "a", 0, Ok(())).unwrap();
    load(&mut loader, "c", 0, Ok(())).unwrap();
    assert!(loader.unload_all().is_ok());
    assert_eq!(loader.runtime().active_vm_count(), 0);
    for p in loader.list_plugins() {
        assert!(matches!(p.state, PluginState::Unloaded));
    }
}

#[test]
fn test_cleanup_idle_plugins_caches_stale_ready() {
    let mut loader = loader_with(&[("a", None), ("b", None), ("c", None)]);
    load(&mut loader, "a", 0, Ok(())).unwrap();
    load(&mut loader, "b", 200_000, Ok(())).unwrap();
    let n = loader.cleanup_idle_plugins(300, 300_000);
    assert_eq!(n, 1);
    let a = loader.get_plugin("a").unwrap();
    assert!(matches!(a.state, PluginState::Cached));
    assert!(a.vm_id.is_none());
    assert!(a.loaded_at.is_none());
    assert!(matches!(loader.get_plugin("b").unwrap().state, PluginState::Ready));
    assert!(matches!(loader.get_plugin("c").unwrap().state, PluginState::MetaLoaded));
    assert_eq!(loader.runtime().active_vm_count(), 1);
    assert_eq!(loader.loaded_count(), 2);
    assert_eq!(loader.idle_timeout_secs(), 300);
}

#[test]
fn test_find_by_prefix_ignores_case() {
    let loader = loader_with(&[("calc", Some("Calc")), ("clip", Some("cb")), ("plain", None)]);
    let hits: Vec<String> = loader.find_by_prefix("CA").into_iter().map(|p| p.id).collect();
    assert_eq!(hits, vec!["calc".to_string()]);
    let hits: Vec<String> = loader.find_by_prefix("calculate").into_iter().map(|p| p.id).collect();
    assert_eq!(hits, vec!["calc".to_string()]);
    let hits: Vec<String> = loader.find_by_prefix("").into_iter().map(|p| p.id).collect();
    assert_eq!(hits, vec!["calc".to_string(), "clip".to_string()]);
    assert!(loader.find_by_prefix("zz").is_empty());
}

#[test]
fn test_health_report() {
    let mut loader = loader_with(&[("a", None), ("b", None)]);
    load(&mut loader, "a", 1_000, Ok(())).unwrap();
    load(&mut loader, "b", 1_000, Err("oops".to_string())).unwrap_err();
    let health = loader.get_plugin_health(6_500);
    assert_eq!(health.len(), 2);
    assert_eq!(health[0].id, "a");
    assert_eq!(health[0].state, "Ready");
    assert_eq!(health[0].loaded_at, Some(5));
    assert_eq!(health[0].last_used, Some(5));
    assert_eq!(health[0].error_count, 0);
    assert_eq!(health[1].state, "Error(执行插件代码失败: oops)");
    assert_eq!(health[1].error_count, 1);
    assert_eq!(health[1].last_error.as_deref(), Some("执行插件代码失败: oops"));
    assert!(health[1].vm_id.is_none());
}

#[test]
fn test_executable_vm_checks() {
    let mut loader = loader_with(&[("a", None), ("b", None)]);
    assert_eq!(loader.executable_vm("zz").unwrap_err(), "插件不存在: zz");
    assert_eq!(loader.executable_vm("a").unwrap_err(), "插件 a 未加载或 VM 未创建");
    load(&mut loader, "a", 0, Ok(())).unwrap();
    assert_eq!(loader.executable_vm("a").unwrap(), "vm_0_1");
    loader.begin_load("b", 0).unwrap();
    loader.runtime_mut().reserve_slot(0).unwrap();
    loader.attach_vm("b", "vm_b".to_string(), 3, 0).unwrap();
    assert_eq!(loader.executable_vm("b").unwrap_err(), "插件 b 当前状态不可用: Loading");
}

#[test]
fn test_list_manifests_in_order() {
    let loader = loader_with(&[("a", None), ("b", Some("bb"))]);
    let names: Vec<String> = loader.list_manifests().into_iter().map(|m| m.name).collect();
    assert_eq!(names, vec!["a".to_string(), "b".to_string()]);
    assert_eq!(loader.plugins_dir(), "/plugins");
}

#[test]
fn test_unloaded_plugin_cannot_run() {
    let mut loader = loader_with(&[("a", None)]);
    load(&mut loader, "a", 0, Ok(())).unwrap();
    assert!(loader.executable_vm("a").is_ok());
    loader.unload_plugin("a").unwrap();
    assert_eq!(loader.executable_vm("a").unwrap_err(), "插件 a 未加载或 VM 未创建");
}
