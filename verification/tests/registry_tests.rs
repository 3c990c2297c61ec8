use corelia::instance::PluginInstance;
use corelia::manifest::PluginManifest;
use corelia::registry::get_plugin_state;
use corelia::registry::PluginRegistry;
use corelia::state::PluginState;
use corelia::state::PluginState::{Cached, Error, Loading, MetaLoaded, Ready, Unloaded};

fn create_test_instance(name: &str, prefix: Option<&str>, state: PluginState) -> PluginInstance {
    PluginInstance {
        id: name.to_string(),
        manifest: PluginManifest {
            name: name.to_string(),
            version: "1.0.0".to_string(),
            plugin_type: "app".to_string(),
            logo: None,
            prefix: prefix.map(|s| s.to_string()),
            main: Some("index.js".to_string()),
            description: Some(format!("Test plugin {}", name)),
            author: Some("test".to_string()),
            patches: vec![],
            features: None,
        },
        state,
        vm_id: None,
        plugin_dir: format!("/tmp/test-plugins/{}", name),
        loaded_at: None,
        last_used: None,
        registered_features: vec![],
        on_ready_callback: None,
        on_out_callback: None,
        load_error_count: 0,
        max_retries: 3,
        last_error: None,
        retry_after: None,
        retry_backoff_ms: 1000,
    }
}

#[test]
fn test_register_new_plugin() {
    let mut registry = PluginRegistry::new();
    let instance = create_test_instance("hello-world", None, PluginState::MetaLoaded);

    assert!(registry.register(instance).is_ok());
    assert_eq!(registry.count(), 1);
}

#[test]
fn test_register_duplicate_plugin() {
    let mut registry = PluginRegistry::new();
    let instance = create_test_instance("hello-world", None, PluginState::MetaLoaded);

    registry.register(instance).unwrap();
    let duplicate = create_test_instance("hello-world", None, PluginState::MetaLoaded);

    let err = registry.register(duplicate).unwrap_err();
    assert!(err.contains("already registered"));
    assert_eq!(registry.count(), 1);
}

#[test]
fn test_register_plugin_with_prefix() {
    let mut registry = PluginRegistry::new();
    let instance = create_test_instance("hello-world", Some("hw"), PluginState::MetaLoaded);

    assert!(registry.register(instance).is_ok());
    let results = registry.search_by_prefix("hw");
    assert_eq!(results.len(), 1);
    assert_eq!(results[0].manifest.name, "hello-world");
}

#[test]
fn test_register_multiple_plugins() {
    let mut registry = PluginRegistry::new();

    registry.register(create_test_instance("plugin-a", Some("pa"), PluginState::MetaLoaded)).unwrap();
    registry.register(create_test_instance("plugin-b", Some("pb"), PluginState::MetaLoaded)).unwrap();
    registry.register(create_test_instance("plugin-c", None, PluginState::MetaLoaded)).unwrap();

    assert_eq!(registry.count(), 3);
    assert_eq!(registry.list_all().len(), 3);
}

#[test]
fn test_unregister_existing_plugin() {
    let mut registry = PluginRegistry::new();
    let instance = create_test_instance("hello-world", None, PluginState::MetaLoaded);
    registry.register(instance).unwrap();

    assert!(registry.unregister("hello-world").is_ok());
    assert_eq!(registry.count(), 0);
    assert!(registry.get("hello-world").is_none());
}

#[test]
fn test_unregister_nonexistent_plugin() {
    let mut registry = PluginRegistry::new();
    let err = registry.unregister("non-existent").unwrap_err();
    assert!(err.contains("not found"));
}

#[test]
fn test_unregister_plugin_with_prefix_cleanup() {
    let mut registry = PluginRegistry::new();
    registry.register(create_test_instance("hello-world", Some("hw"), PluginState::MetaLoaded)).unwrap();

    assert!(registry.unregister("hello-world").is_ok());
    assert!(registry.search_by_prefix("hw").is_empty());
}

#[test]
fn test_get_existing_plugin() {
    let mut registry = PluginRegistry::new();
    registry.register(create_test_instance("hello-world", None, PluginState::MetaLoaded)).unwrap();

    let instance = registry.get("hello-world");
    assert!(instance.is_some());
    assert_eq!(instance.unwrap().manifest.name, "hello-world");
}

#[test]
fn test_get_nonexistent_plugin() {
    let registry = PluginRegistry::new();
    assert!(registry.get("non-existent").is_none());
}

#[test]
fn test_search_by_prefix_exact_match() {
    let mut registry = PluginRegistry::new();
    registry.register(create_test_instance("hello-world", Some("hw"), PluginState::Ready)).unwrap();

    let results = registry.search_by_prefix("hw");
    assert_eq!(results.len(), 1);
}

#[test]
fn test_search_by_prefix_partial_match() {
    let mut registry = PluginRegistry::new();
    registry.register(create_test_instance("hello-world", Some("hw"), PluginState::Ready)).unwrap();

    let results = registry.search_by_prefix("h");
    assert_eq!(results.len(), 1);
}

#[test]
fn test_search_by_prefix_reverse_match() {
    let mut registry = PluginRegistry::new();
    registry.register(create_test_instance("hello-world", Some("hw"), PluginState::Ready)).unwrap();

    let results = registry.search_by_prefix("hw-tool");
    assert_eq!(results.len(), 1);
}

#[test]
fn test_search_by_prefix_no_match() {
    let mut registry = PluginRegistry::new();
    registry.register(create_test_instance("hello-world", Some("hw"), PluginState::Ready)).unwrap();

    let results = registry.search_by_prefix("zzz");
    assert!(results.is_empty());
}

#[test]
fn test_search_by_prefix_dedup() {
    let mut registry = PluginRegistry::new();
    registry.register(create_test_instance("plugin-a", Some("pa"), PluginState::Ready)).unwrap();
    registry.register(create_test_instance("plugin-b", Some("pb"), PluginState::Ready)).unwrap();

    let results = registry.search_by_prefix("p");
    assert_eq!(results.len(), 2);
    let mut names: Vec<&str> = results.iter().map(|p| p.manifest.name.as_str()).collect();
    names.sort();
    assert_eq!(names, vec!["plugin-a", "plugin-b"]);
}

#[test]
fn test_get_active_plugins_filters_correctly() {
    let mut registry = PluginRegistry::new();
    registry.register(create_test_instance("ready-plugin", None, PluginState::Ready)).unwrap();
    registry.register(create_test_instance("cached-plugin", None, PluginState::Cached)).unwrap();
    registry.register(create_test_instance("loading-plugin", None, PluginState::Loading)).unwrap();
    registry.register(create_test_instance("error-plugin", None, PluginState::Error("fail".to_string()))).unwrap();
    registry.register(create_test_instance("unloaded-plugin", None, PluginState::Unloaded)).unwrap();

    let active = registry.get_active_plugins();
    assert_eq!(active.len(), 2);
    let names: Vec<&str> = active.iter().map(|p| p.manifest.name.as_str()).collect();
    assert!(names.contains(&"ready-plugin"));
    assert!(names.contains(&"cached-plugin"));
    assert!(!names.contains(&"loading-plugin"));
}

#[test]
fn test_update_state_valid_transition() {
    let mut registry = PluginRegistry::new();
    registry.register(create_test_instance("test", None, PluginState::MetaLoaded)).unwrap();

    assert!(registry.update_state("test", PluginState::Loading).is_ok());
    assert!(registry.update_state("test", PluginState::Ready).is_ok());
}

#[test]
fn test_update_state_invalid_transition() {
    let mut registry = PluginRegistry::new();
    registry.register(create_test_instance("test", None, PluginState::MetaLoaded)).unwrap();

    let err = registry.update_state("test", PluginState::Ready).unwrap_err();
    assert!(err.contains("Invalid state transition"));
}

#[test]
fn test_update_state_nonexistent_plugin() {
    let mut registry = PluginRegistry::new();
    let err = registry.update_state("non-existent", PluginState::Loading).unwrap_err();
    assert!(err.contains("not found"));
}

#[test]
fn test_update_state_same_state_idempotent() {
    let mut registry = PluginRegistry::new();
    registry.register(create_test_instance("test", None, PluginState::MetaLoaded)).unwrap();

    assert!(registry.update_state("test", PluginState::MetaLoaded).is_ok());
}

#[test]
fn test_is_valid_transition_all_valid() {
    let valid_pairs = &[
        (MetaLoaded, Loading),
        (MetaLoaded, Unloaded),
        (Loading, Ready),
        (Loading, Cached),
        (Loading, Error("".to_string())),
        (Ready, Cached),
        (Ready, Unloaded),
        (Ready, Error("".to_string())),
        (Cached, Loading),
        (Cached, Unloaded),
        (Unloaded, Loading),
        (Error("".to_string()), Loading),
        (Error("".to_string()), Unloaded),
    ];

    for (from, to) in valid_pairs {
        assert!(
            PluginRegistry::is_valid_transition(from, to),
            "Expected valid: {:?} -> {:?}",
            from, to
        );
    }
}

#[test]
fn test_is_valid_transition_all_invalid() {
    let invalid_pairs = &[
        (MetaLoaded, Ready),
        (MetaLoaded, Cached),
        (MetaLoaded, Error("".to_string())),
        (Loading, MetaLoaded),
        (Loading, Unloaded),
        (Ready, MetaLoaded),
        (Ready, Loading),
        (Cached, MetaLoaded),
        (Cached, Ready),
        (Cached, Error("".to_string())),
        (Unloaded, MetaLoaded),
        (Unloaded, Ready),
        (Unloaded, Cached),
        (Unloaded, Error("".to_string())),
        (Error("".to_string()), MetaLoaded),
        (Error("".to_string()), Ready),
        (Error("".to_string()), Cached),
    ];

    for (from, to) in invalid_pairs {
        assert!(
            !PluginRegistry::is_valid_transition(from, to),
            "Expected invalid: {:?} -> {:?}",
            from, to
        );
    }
}

#[test]
fn test_is_valid_transition_idempotent() {
    let all_states = &[MetaLoaded, Loading, Ready, Cached, Unloaded, Error("x".to_string())];
    for state in all_states {
        assert!(
            PluginRegistry::is_valid_transition(state, state),
            "Expected idempotent: {:?} -> {:?}",
            state, state
        );
    }
}

#[test]
fn test_full_lifecycle() {
    let mut registry = PluginRegistry::new();

    assert_eq!(registry.count(), 0);

    registry.register(create_test_instance("my-plugin", Some("mp"), PluginState::MetaLoaded)).unwrap();
    assert_eq!(registry.count(), 1);

    let instance = registry.get("my-plugin").unwrap();
    assert_eq!(instance.manifest.name, "my-plugin");

    registry.update_state("my-plugin", PluginState::Loading).unwrap();
    registry.update_state("my-plugin", PluginState::Ready).unwrap();

    let active = registry.get_active_plugins();
    assert_eq!(active.len(), 1);

    let by_prefix = registry.search_by_prefix("mp");
    assert_eq!(by_prefix.len(), 1);

    registry.unregister("my-plugin").unwrap();
    assert_eq!(registry.count(), 0);
    assert!(registry.get_active_plugins().is_empty());
}

#[test]
fn test_clear_resets_registry() {
    let mut registry = PluginRegistry::new();
    registry.register(create_test_instance("plugin-a", None, PluginState::MetaLoaded)).unwrap();
    registry.register(create_test_instance("plugin-b", None, PluginState::MetaLoaded)).unwrap();
    assert_eq!(registry.count(), 2);

    registry.clear();
    assert_eq!(registry.count(), 0);
    assert!(registry.list_all().is_empty());
    assert!(registry.get("plugin-a").is_none());
}

#[test]
fn test_count_after_multiple_operations() {
    let mut registry = PluginRegistry::new();
    assert_eq!(registry.count(), 0);

    registry.register(create_test_instance("a", None, PluginState::MetaLoaded)).unwrap();
    assert_eq!(registry.count(), 1);

    registry.register(create_test_instance("b", None, PluginState::MetaLoaded)).unwrap();
    assert_eq!(registry.count(), 2);

    registry.unregister("a").unwrap();
    assert_eq!(registry.count(), 1);

    registry.unregister("b").unwrap();
    assert_eq!(registry.count(), 0);
}

#[test]
fn test_search_by_prefix_empty_registry() {
    let registry = PluginRegistry::new();
    let results = registry.search_by_prefix("anything");
    assert!(results.is_empty());
}

#[test]
fn test_get_active_plugins_empty_registry() {
    let registry = PluginRegistry::new();
    assert!(registry.get_active_plugins().is_empty());
}

#[test]
fn test_list_all_empty_registry() {
    let registry = PluginRegistry::new();
    assert!(registry.list_all().is_empty());
}

#[test]
fn test_error_messages_exact() {
    let mut registry = PluginRegistry::new();
    registry.register(create_test_instance("dup", None, PluginState::MetaLoaded)).unwrap();
    let e = registry.register(create_test_instance("dup", None, PluginState::MetaLoaded)).unwrap_err();
    assert_eq!(e, "Plugin 'dup' already registered");
    assert_eq!(registry.unregister("nope").unwrap_err(), "Plugin 'nope' not found");
    assert_eq!(registry.update_state("nope", PluginState::Loading).unwrap_err(), "Plugin 'nope' not found");
    let e = registry.update_state("dup", PluginState::Error("bad \"x\"".to_string())).unwrap_err();
    assert_eq!(e, "Invalid state transition: MetaLoaded -> Error(\"bad \\\"x\\\"\") for plugin 'dup'");
}

#[test]
fn test_get_returns_registered_copy_and_update_applies() {
    let mut registry = PluginRegistry::new();
    registry.register(create_test_instance("a", Some("pa"), PluginState::MetaLoaded)).unwrap();
    registry.register(create_test_instance("b", None, PluginState::MetaLoaded)).unwrap();
    registry.update_state("a", PluginState::Unloaded).unwrap();
    assert!(matches!(registry.get("a").unwrap().state, PluginState::Unloaded));
    assert!(matches!(registry.get("b").unwrap().state, PluginState::MetaLoaded));
    registry.unregister("a").unwrap();
    registry.register(create_test_instance("a", Some("pa"), PluginState::MetaLoaded)).unwrap();
    let all: Vec<String> = registry.list_all().into_iter().map(|p| p.manifest.name).collect();
    assert_eq!(all, vec!["b".to_string(), "a".to_string()]);
}

#[test]
fn test_error_to_error_transition_requires_same_message() {
    let a = PluginState::Error("x".to_string());
    let b = PluginState::Error("y".to_string());
    assert!(!PluginRegistry::is_valid_transition(&a, &b));
    assert!(PluginRegistry::is_valid_transition(&a, &a.clone()));
}

#[test]
fn test_state_display_and_debug_text() {
    assert_eq!(PluginState::Error("oops".to_string()).to_display_string(), "Error(oops)");
    assert_eq!(PluginState::Error("oops".to_string()).to_debug_string(), "Error(\"oops\")");
    assert_eq!(PluginState::Cached.to_display_string(), "Cached");
}

#[test]
fn test_get_plugin_state_debug_text() {
    let mut registry = PluginRegistry::new();
    registry.register(create_test_instance("p", None, PluginState::Error("bad \"x\"".to_string()))).unwrap();
    assert_eq!(get_plugin_state(&registry, "p").unwrap(), "Error(\"bad \\\"x\\\"\")");
    registry.register(create_test_instance("q", None, PluginState::Ready)).unwrap();
    assert_eq!(get_plugin_state(&registry, "q").unwrap(), "Ready");
    assert_eq!(get_plugin_state(&registry, "zz").unwrap_err(), "Plugin 'zz' not found");
}
