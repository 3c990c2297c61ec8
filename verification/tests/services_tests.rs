use corelia::services::tray_click_action;
use corelia::services::tray_menu_action;
use corelia::services::TrayAction;
use corelia::json::JsonValue;
use corelia::services::ConfigService;
use corelia::services::HostOs;
use corelia::services::ShellService;
use corelia::services::StoreService;
use corelia::services::WindowAction;
use corelia::services::WindowService;

fn obj(members: Vec<(&str, JsonValue)>) -> JsonValue {
    JsonValue::Object(members.into_iter().map(|(k, v)| (k.to_string(), v)).collect())
}

fn s(x: &str) -> JsonValue {
    JsonValue::String(x.to_string())
}

#[test]
fn test_window_visibility_and_toggle() {
    let mut w = WindowService::new();
    assert!(!w.is_visible());
    assert!(!w.is_window_visible());
    let (action, next) = w.toggle_plan();
    assert!(matches!(action, WindowAction::Show));
    assert!(next);
    w.set_window_visible(next);
    assert!(w.is_visible());
    let (action, next) = w.toggle_plan();
    assert!(matches!(action, WindowAction::Hide));
    assert!(!next);
}

#[test]
fn test_open_path_commands() {
    let c = ShellService::open_path_command(HostOs::Windows, "C:\\docs");
    assert_eq!(c.program, "explorer");
    assert_eq!(c.args, vec!["C:\\docs".to_string()]);
    assert_eq!(ShellService::open_path_command(HostOs::MacOs, "/tmp").program, "open");
    assert_eq!(ShellService::open_path_command(HostOs::Linux, "/tmp").program, "xdg-open");
}

#[test]
fn test_open_app_commands() {
    let c = ShellService::open_app_command(HostOs::Windows, "notepad");
    assert_eq!(c.program, "cmd");
    assert_eq!(c.args, vec!["/c".to_string(), "start".to_string(), "".to_string(), "notepad".to_string()]);
    let c = ShellService::open_app_command(HostOs::MacOs, "Safari");
    assert_eq!(c.program, "open");
    assert_eq!(c.args, vec!["-a".to_string(), "Safari".to_string()]);
    let c = ShellService::open_app_command(HostOs::Linux, "gedit");
    assert_eq!(c.program, "gedit");
    assert!(c.args.is_empty());
}

#[test]
fn test_store_missing_key_is_null() {
    assert!(matches!(StoreService::value_or_null(None), JsonValue::Null));
    assert!(matches!(StoreService::value_or_null(Some(JsonValue::Bool(true))), JsonValue::Bool(true)));
    assert_eq!(StoreService::store_file(), "morningstart.corelia/store.json");
}

#[test]
fn test_config_paths() {
    assert_eq!(ConfigService::base_dir(), "morningstart.corelia");
    assert_eq!(ConfigService::system_path(), "morningstart.corelia/config.system.json");
    assert_eq!(ConfigService::user_path(), "morningstart.corelia/config.user.json");
    assert_eq!(ConfigService::app_path(), "morningstart.corelia/cache/app.json");
}

#[test]
fn test_validate_system_config_errors() {
    assert_eq!(ConfigService::validate_system_config(&JsonValue::Null).unwrap_err(), "系统配置必须是对象");
    assert_eq!(ConfigService::validate_system_config(&s("x")).unwrap_err(), "系统配置必须是对象");
    let no_summon = obj(vec![("shortcut", obj(vec![("other", s("x"))]))]);
    assert_eq!(ConfigService::validate_system_config(&no_summon).unwrap_err(), "shortcut.summon 必须是字符串");
    let not_string = obj(vec![("shortcut", obj(vec![("summon", JsonValue::Bool(true))]))]);
    assert_eq!(ConfigService::validate_system_config(&not_string).unwrap_err(), "shortcut.summon 必须是字符串");
    let shortcut_not_object = obj(vec![("shortcut", s("Alt+Space"))]);
    assert_eq!(ConfigService::validate_system_config(&shortcut_not_object).unwrap_err(), "shortcut.summon 必须是字符串");
    let empty = obj(vec![("shortcut", obj(vec![("summon", s(""))]))]);
    assert_eq!(ConfigService::validate_system_config(&empty).unwrap_err(), "快捷键不能为空");
}

#[test]
fn test_validate_system_config_accepts() {
    assert!(ConfigService::validate_system_config(&obj(vec![])).is_ok());
    let ok = obj(vec![("shortcut", obj(vec![("summon", s("Ctrl+K"))])), ("x", JsonValue::Null)]);
    assert!(ConfigService::validate_system_config(&ok).is_ok());
    assert!(ConfigService::validate_system_config(&ConfigService::default_system_config()).is_ok());
}

fn member<'a>(v: &'a JsonValue, key: &str) -> &'a JsonValue {
    match v {
        JsonValue::Object(m) => &m.iter().find(|(k, _)| k == key).unwrap().1,
        _ => panic!("not an object"),
    }
}

#[test]
fn test_default_configs() {
    let sys = ConfigService::default_system_config();
    assert!(matches!(member(member(&sys, "shortcut"), "summon"), JsonValue::String(x) if x == "Alt+Space"));
    assert!(matches!(member(member(&sys, "startup"), "minimizeToTray"), JsonValue::Bool(true)));
    assert!(matches!(member(member(&sys, "advanced"), "debugMode"), JsonValue::Bool(false)));
    let user = ConfigService::default_user_config();
    assert!(matches!(member(&user, "theme"), JsonValue::String(x) if x == "dark"));
    assert!(matches!(member(member(&user, "behavior"), "autoHideDelay"), JsonValue::Number(n) if n == "3000"));
    assert!(matches!(member(member(&user, "window"), "width"), JsonValue::Number(n) if n == "600"));
    assert!(matches!(member(member(&user, "search"), "maxResults"), JsonValue::Number(n) if n == "20"));
    let app = ConfigService::default_app_config();
    assert!(matches!(member(&app, "searchHistory"), JsonValue::Array(a) if a.is_empty()));
    assert!(matches!(member(member(member(&app, "runtime"), "usageStats"), "launchCount"), JsonValue::Number(n) if n == "0"));
}

#[test]
fn test_config_or_default() {
    let (v, save) = ConfigService::config_or_default(None, JsonValue::Bool(true));
    assert!(matches!(v, JsonValue::Bool(true)));
    assert!(save);
    let (v, save) = ConfigService::config_or_default(Some(s("kept")), JsonValue::Null);
    assert!(matches!(v, JsonValue::String(x) if x == "kept"));
    assert!(!save);
}

#[test]
fn test_tray_actions() {
    assert!(matches!(tray_menu_action("show"), TrayAction::ToggleWindow));
    assert!(matches!(tray_menu_action("quit"), TrayAction::Quit));
    assert!(matches!(tray_menu_action("other"), TrayAction::Ignore));
    assert!(matches!(tray_click_action(true, true), TrayAction::ToggleWindow));
    assert!(matches!(tray_click_action(true, false), TrayAction::Ignore));
    assert!(matches!(tray_click_action(false, true), TrayAction::Ignore));
}
