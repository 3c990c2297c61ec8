use corelia::hot_reload::HotReloadEvent;
use corelia::hot_reload::HotReloader;

fn names(v: &[&str]) -> Vec<String> {
    v.iter().map(|s| s.to_string()).collect()
}

fn describe(events: &[HotReloadEvent]) -> Vec<String> {
    events
        .iter()
        .map(|e| match e {
            HotReloadEvent::PluginAdded(n) => format!("+{}", n),
            HotReloadEvent::PluginRemoved(n) => format!("-{}", n),
            HotReloadEvent::PluginModified(n) => format!("~{}", n),
        })
        .collect()
}

#[test]
fn test_new_reloader_knows_nothing() {
    let r = HotReloader::new("/plugins".to_string());
    assert!(r.known_plugins().is_empty());
    assert_eq!(r.plugins_dir(), "/plugins");
}

#[test]
fn test_added_and_removed_plugins() {
    let mut r = HotReloader::new("/plugins".to_string());
    r.initial_scan(&names(&["a", "b"]));
    let events = r.check_for_changes(&names(&["b", "c"]));
    assert_eq!(describe(&events), vec!["+c".to_string(), "-a".to_string()]);
    assert_eq!(r.known_plugins(), names(&["b", "c"]));
}

#[test]
fn test_rescan_same_names_is_quiet() {
    let mut r = HotReloader::new("/plugins".to_string());
    let first = r.check_for_changes(&names(&["x", "y"]));
    assert_eq!(describe(&first), vec!["+x".to_string(), "+y".to_string()]);
    assert!(r.check_for_changes(&names(&["x", "y"])).is_empty());
    assert!(r.check_for_changes(&names(&["y", "x"])).is_empty());
}

#[test]
fn test_duplicate_new_name_reported_per_directory() {
    let mut r = HotReloader::new("/plugins".to_string());
    let events = r.check_for_changes(&names(&["dup", "dup"]));
    assert_eq!(describe(&events), vec!["+dup".to_string(), "+dup".to_string()]);
    assert_eq!(r.known_plugins(), names(&["dup"]));
}

#[test]
fn test_initial_scan_merges() {
    let mut r = HotReloader::new("/plugins".to_string());
    r.initial_scan(&names(&["a"]));
    r.initial_scan(&names(&["a", "b"]));
    assert_eq!(r.known_plugins(), names(&["a", "b"]));
    let events = r.check_for_changes(&names(&[]));
    assert_eq!(describe(&events), vec!["-a".to_string(), "-b".to_string()]);
}
