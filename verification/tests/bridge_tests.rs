use corelia::bridge::dialog_choice;
use corelia::bridge::file_dialog_command;
use corelia::bridge::exec_command;
use corelia::bridge::exported_functions;
use corelia::bridge::fetch_method;
use corelia::bridge::fetch_timeout_secs;
use corelia::bridge::get_native_id;
use corelia::bridge::native_id;
use corelia::bridge::next_poll_interval;
use corelia::bridge::patch_files;
use corelia::bridge::path_error;
use corelia::bridge::path_kind;
use corelia::bridge::poll_step;
use corelia::bridge::response_ok;
use corelia::bridge::show_in_folder_target;
use corelia::bridge::status_text;
use corelia::bridge::storage_path;
use corelia::bridge::wait_limit_ms;
use corelia::bridge::wasm_call_request;
use corelia::bridge::HttpMethod;
use corelia::bridge::PathKind;
use corelia::bridge::PollStep;
use corelia::services::HostOs;
use corelia::wasm_bridge::WasmBridge;
use corelia::wasm_bridge::WasmFunctionInfo;

#[test]
fn test_path_kinds() {
    assert!(matches!(path_kind("HOME"), Some(PathKind::Home)));
    assert!(matches!(path_kind("~"), Some(PathKind::Home)));
    assert!(matches!(path_kind("Photos"), Some(PathKind::Pictures)));
    assert!(matches!(path_kind("localAppData"), Some(PathKind::AppCache)));
    assert!(matches!(path_kind("pluginPath"), Some(PathKind::Plugins)));
    assert!(matches!(path_kind("cwd"), Some(PathKind::CurrentDir)));
    assert!(path_kind("nowhere").is_none());
    assert_eq!(path_error("nowhere"), "无法获取路径: nowhere");
}

#[test]
fn test_fetch_options() {
    assert!(matches!(fetch_method(Some("post")), HttpMethod::Post));
    assert!(matches!(fetch_method(Some("Patch")), HttpMethod::Patch));
    assert!(matches!(fetch_method(Some("HEAD")), HttpMethod::Head));
    assert!(matches!(fetch_method(Some("options")), HttpMethod::Get));
    assert!(matches!(fetch_method(None), HttpMethod::Get));
    assert_eq!(fetch_timeout_secs(None), 30);
    assert_eq!(fetch_timeout_secs(Some(5)), 5);
    assert_eq!(fetch_timeout_secs(Some(-1)), u64::MAX);
    assert!(response_ok(200) && response_ok(299));
    assert!(!response_ok(199) && !response_ok(300) && !response_ok(404));
    assert_eq!(status_text(true), "OK");
    assert_eq!(status_text(false), "Error");
}

#[test]
fn test_storage_and_native_id() {
    assert_eq!(storage_path("calc"), "plugins/calc/storage.json");
    assert_eq!(native_id(Some("desk".to_string())), "corelia-desk");
    assert_eq!(native_id(None), "corelia-unknown");
    assert!(get_native_id().starts_with("corelia-"));
}

#[test]
fn test_wasm_call_request() {
    let mut b = WasmBridge::new();
    b.register_functions("crypto".to_string(), vec![WasmFunctionInfo { name: "crypto.sha256".to_string(), patch: "crypto".to_string(), param_count: 1 }]);
    let mut counter = 5u64;
    assert_eq!(wasm_call_request(&b, "crypto.sha256", &mut counter).unwrap(), "wasm_req_5");
    assert_eq!(counter, 6);
    assert_eq!(wasm_call_request(&b, "crypto.md5", &mut counter).unwrap_err(), "WASM 函数未注册: crypto.md5");
    assert_eq!(counter, 6);
}

#[test]
fn test_polling() {
    assert_eq!(wait_limit_ms(None), 0);
    assert_eq!(wait_limit_ms(Some(-5)), 0);
    assert_eq!(wait_limit_ms(Some(250)), 250);
    assert_eq!(next_poll_interval(10), 20);
    assert_eq!(next_poll_interval(80), 100);
    assert_eq!(next_poll_interval(100), 100);
    assert!(matches!(poll_step(0, 0, 10), PollStep::GiveUp));
    assert!(matches!(poll_step(100, 100, 10), PollStep::GiveUp));
    assert!(matches!(poll_step(100, 40, 20), PollStep::Wait(20)));
}

#[test]
fn test_patch_files_and_exports() {
    assert_eq!(patch_files("crypto"), ("crypto_bg.wasm".to_string(), "crypto.js".to_string()));
    let keys = vec![".".to_string(), "./pkg".to_string(), "sha256".to_string(), ".hidden".to_string()];
    assert_eq!(exported_functions(&keys), vec!["sha256".to_string(), ".hidden".to_string()]);
}

#[test]
fn test_exec_and_show_commands() {
    let c = exec_command(HostOs::Windows, "dir");
    assert_eq!(c.program, "cmd");
    assert_eq!(c.args, vec!["/C".to_string(), "dir".to_string()]);
    let c = exec_command(HostOs::Linux, "ls -l");
    assert_eq!(c.program, "sh");
    assert_eq!(c.args, vec!["-c".to_string(), "ls -l".to_string()]);
    assert_eq!(show_in_folder_target(HostOs::Windows, "C:\\a.txt"), "explorer /select,C:\\a.txt");
    assert_eq!(show_in_folder_target(HostOs::MacOs, "/a.txt"), "/a.txt");
}

#[test]
fn test_dialogs() {
    assert_eq!(dialog_choice("  C:\\a.txt\r\n"), Some("C:\\a.txt".to_string()));
    assert_eq!(dialog_choice("null\n"), None);
    assert_eq!(dialog_choice("   "), None);
    let open = file_dialog_command(false);
    assert_eq!(open.program, "powershell");
    assert_eq!(open.args[0], "-NoProfile");
    assert_eq!(open.args[1], "-Command");
    assert!(open.args[2].contains("OpenFileDialog"));
    assert!(file_dialog_command(true).args[2].contains("SaveFileDialog"));
}
