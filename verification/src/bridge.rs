//! The decisions behind the API offered to plugins (`window.utools`): which system
//! directory a path name means, how a fetch request is formed, where a plugin's
//! storage lives, the machine's id, how a WASM call is admitted and awaited, which
//! files make up a WASM patch, and the commands behind `exec` and `showItemInFolder`.

use vstd::prelude::*;
use vstd::string::*;
use crate::manifest::opt_chars;
use crate::manifest::strings_view;
use crate::seqs::keep;
use crate::services::CommandPlan;
use crate::services::HostOs;
use crate::services::args_view;
use crate::text::concat2;
use crate::text::concat3;
use crate::text::lowercase_of;
use crate::text::starts_with;
use crate::text::str_eq;
use crate::text::to_lowercase;
use crate::text::to_uppercase;
use crate::text::trim;
use crate::text::trimmed_of;
use crate::text::uppercase_of;
use crate::seqs::has_key;
use crate::wasm_bridge::WasmBridge;
use crate::wasm_bridge::fn_key;
use crate::wasm_bridge::generate_request_id;
use crate::wasm_bridge::request_id_text;

verus! {

/// The system directories a plugin can ask for by name.
#[derive(Debug, Clone, Copy)]
pub enum PathKind {
    Home,
    Desktop,
    Documents,
    Downloads,
    Music,
    Pictures,
    Videos,
    Temp,
    AppData,
    AppCache,
    UserData,
    Config,
    Logs,
    Resources,
    Exe,
    Plugins,
    Root,
    CurrentDir,
}

/// The directory a lower-case path name means.
pub open spec fn path_kind_of(l: Seq<char>) -> Option<PathKind> {
    if l == "home"@ || l == "~"@ {
        Some(PathKind::Home)
    } else if l == "desktop"@ {
        Some(PathKind::Desktop)
    } else if l == "document"@ || l == "documents"@ {
        Some(PathKind::Documents)
    } else if l == "download"@ || l == "downloads"@ {
        Some(PathKind::Downloads)
    } else if l == "music"@ {
        Some(PathKind::Music)
    } else if l == "picture"@ || l == "pictures"@ || l == "photo"@ || l == "photos"@ {
        Some(PathKind::Pictures)
    } else if l == "video"@ || l == "videos"@ {
        Some(PathKind::Videos)
    } else if l == "temp"@ || l == "tmp"@ {
        Some(PathKind::Temp)
    } else if l == "appdata"@ {
        Some(PathKind::AppData)
    } else if l == "localappdata"@ || l == "appcache"@ {
        Some(PathKind::AppCache)
    } else if l == "userdata"@ {
        Some(PathKind::UserData)
    } else if l == "config"@ {
        Some(PathKind::Config)
    } else if l == "log"@ || l == "logs"@ {
        Some(PathKind::Logs)
    } else if l == "resource"@ || l == "resources"@ {
        Some(PathKind::Resources)
    } else if l == "exe"@ || l == "exepath"@ {
        Some(PathKind::Exe)
    } else if l == "plugin"@ || l == "pluginpath"@ {
        Some(PathKind::Plugins)
    } else if l == "root"@ {
        Some(PathKind::Root)
    } else if l == "cwd"@ || l == "currentdir"@ {
        Some(PathKind::CurrentDir)
    } else {
        None
    }
}

/// The directory a path name means, ignoring case (`home`, `desktop`, ...).
pub fn path_kind(name: &str) -> (r: Option<PathKind>)
    ensures
        r == path_kind_of(lowercase_of(name@)),
{
    let l = to_lowercase(name);
    let s = l.as_str();
    if str_eq(s, "home") || str_eq(s, "~") {
        Some(PathKind::Home)
    } else if str_eq(s, "desktop") {
        Some(PathKind::Desktop)
    } else if str_eq(s, "document") || str_eq(s, "documents") {
        Some(PathKind::Documents)
    } else if str_eq(s, "download") || str_eq(s, "downloads") {
        Some(PathKind::Downloads)
    } else if str_eq(s, "music") {
        Some(PathKind::Music)
    } else if str_eq(s, "picture") || str_eq(s, "pictures") || str_eq(s, "photo") || str_eq(s, "photos") {
        Some(PathKind::Pictures)
    } else if str_eq(s, "video") || str_eq(s, "videos") {
        Some(PathKind::Videos)
    } else if str_eq(s, "temp") || str_eq(s, "tmp") {
        Some(PathKind::Temp)
    } else if str_eq(s, "appdata") {
        Some(PathKind::AppData)
    } else if str_eq(s, "localappdata") || str_eq(s, "appcache") {
        Some(PathKind::AppCache)
    } else if str_eq(s, "userdata") {
        Some(PathKind::UserData)
    } else if str_eq(s, "config") {
        Some(PathKind::Config)
    } else if str_eq(s, "log") || str_eq(s, "logs") {
        Some(PathKind::Logs)
    } else if str_eq(s, "resource") || str_eq(s, "resources") {
        Some(PathKind::Resources)
    } else if str_eq(s, "exe") || str_eq(s, "exepath") {
        Some(PathKind::Exe)
    } else if str_eq(s, "plugin") || str_eq(s, "pluginpath") {
        Some(PathKind::Plugins)
    } else if str_eq(s, "root") {
        Some(PathKind::Root)
    } else if str_eq(s, "cwd") || str_eq(s, "currentdir") {
        Some(PathKind::CurrentDir)
    } else {
        None
    }
}

/// The message for a path name that gives no directory.
pub open spec fn path_error_message(name: Seq<char>) -> Seq<char> {
    "无法获取路径: "@ + name
}

/// The message for a path name that gives no directory.
pub fn path_error(name: &str) -> (r: String)
    ensures
        r@ == path_error_message(name@),
{
    concat2("无法获取路径: ", name)
}

/// The HTTP methods a plugin's fetch can use.
#[derive(Debug, Clone, Copy)]
pub enum HttpMethod {
    Get,
    Post,
    Put,
    Delete,
    Patch,
    Head,
}

/// The method an upper-case method name selects; anything unknown is `GET`.
pub open spec fn method_of(u: Seq<char>) -> HttpMethod {
    if u == "POST"@ {
        HttpMethod::Post
    } else if u == "PUT"@ {
        HttpMethod::Put
    } else if u == "DELETE"@ {
        HttpMethod::Delete
    } else if u == "PATCH"@ {
        HttpMethod::Patch
    } else if u == "HEAD"@ {
        HttpMethod::Head
    } else {
        HttpMethod::Get
    }
}

/// The method of a fetch: the `method` option in any case (`GET` when absent or
/// unknown).
pub fn fetch_method(method: Option<&str>) -> (r: HttpMethod)
    ensures
        match method {
            Some(m) => r == method_of(uppercase_of(m@)),
            None => r == HttpMethod::Get,
        },
{
    match method {
        None => HttpMethod::Get,
        Some(m) => {
            let u = to_uppercase(m);
            let s = u.as_str();
            if str_eq(s, "POST") {
                HttpMethod::Post
            } else if str_eq(s, "PUT") {
                HttpMethod::Put
            } else if str_eq(s, "DELETE") {
                HttpMethod::Delete
            } else if str_eq(s, "PATCH") {
                HttpMethod::Patch
            } else if str_eq(s, "HEAD") {
                HttpMethod::Head
            } else {
                HttpMethod::Get
            }
        },
    }
}

/// A fetch's timeout in seconds: the `timeout` option converted as Rust's `as`
/// does, 30 when absent.
pub fn fetch_timeout_secs(timeout: Option<i32>) -> (r: u64)
    ensures
        match timeout {
            Some(t) => r == t as u64,
            None => r == 30,
        },
{
    match timeout {
        Some(t) => t as u64,
        None => 30,
    }
}

/// Whether a response status means success: 200 to 299.
pub fn response_ok(status: u16) -> (b: bool)
    ensures
        b == (200 <= status < 300),
{
    200 <= status && status < 300
}

/// The status text of a response that arrived: `OK` for a success, `Error` for an
/// error status.
pub fn status_text(ok: bool) -> (r: String)
    ensures
        r@ == if ok { "OK"@ } else { "Error"@ },
{
    if ok {
        String::from_str("OK")
    } else {
        String::from_str("Error")
    }
}

/// Where a plugin's key-value storage lives.
pub open spec fn storage_path_text(plugin_id: Seq<char>) -> Seq<char> {
    "plugins/"@ + plugin_id + "/storage.json"@
}

/// Where a plugin's key-value storage lives: `plugins/<id>/storage.json`.
pub fn storage_path(plugin_id: &str) -> (r: String)
    ensures
        r@ == storage_path_text(plugin_id@),
{
    concat3("plugins/", plugin_id, "/storage.json")
}

/// The machine's id from its host name: `corelia-` and the host name, or
/// `corelia-unknown` without one.
pub open spec fn native_id_text(host: Option<Seq<char>>) -> Seq<char> {
    match host {
        Some(h) => "corelia-"@ + h,
        None => "corelia-unknown"@,
    }
}

/// The machine's id from its host name.
pub fn native_id(host: Option<String>) -> (r: String)
    ensures
        r@ == native_id_text(opt_chars(host)),
{
    match host {
        Some(h) => concat2("corelia-", h.as_str()),
        None => String::from_str("corelia-unknown"),
    }
}

/// The machine's host name, from `hostname::get` (with lossy UTF-8), or nothing
/// where the system does not give one. Nothing is stated of the name: it belongs
/// to the machine.
#[verifier::external_body]
fn host_name() -> Option<String> {
    match hostname::get() {
        Ok(h) => Some(h.to_string_lossy().to_string()),
        Err(_) => None,
    }
}

/// The id of this machine, for plugins.
pub fn get_native_id() -> (r: String)
    ensures
        r@ == native_id_text(None) || exists|h: Seq<char>| r@ == native_id_text(Some(h)),
{
    let h = host_name();
    let ghost hv = opt_chars(h);
    let r = native_id(h);
    proof {
        match hv {
            Some(x) => {
                assert(r@ == native_id_text(Some(x)));
            },
            None => {},
        }
    }
    r
}

/// The message for a call of a WASM function that no patch registered.
pub open spec fn unregistered_message(name: Seq<char>) -> Seq<char> {
    "WASM 函数未注册: "@ + name
}

/// Admits a plugin's call of a WASM function: the function must be registered;
/// the call then gets a fresh request id from the counter.
pub fn wasm_call_request(bridge: &WasmBridge, func_name: &str, counter: &mut u64) -> (r: Result<String, String>)
    requires
        bridge.wf(),
    ensures
        has_key(bridge@.functions, fn_key(), func_name@) ==> (r matches Ok(id) && id@ == request_id_text(
            *old(counter),
        ) && *final(counter) == (if *old(counter) == u64::MAX {
            0
        } else {
            *old(counter) + 1
        })),
        !has_key(bridge@.functions, fn_key(), func_name@) ==> (r matches Err(e) && e@ == unregistered_message(
            func_name@,
        ) && *final(counter) == *old(counter)),
{
    if !bridge.has_function(func_name) {
        return Err(concat2("WASM 函数未注册: ", func_name));
    }
    Ok(generate_request_id(counter))
}

/// How long a plugin waits for a WASM result, in milliseconds: the requested
/// time, none for a negative or absent one.
pub fn wait_limit_ms(max_wait_ms: Option<i64>) -> (r: u64)
    ensures
        match max_wait_ms {
            Some(v) => r == if v > 0 { v as int } else { 0 },
            None => r == 0,
        },
{
    match max_wait_ms {
        Some(v) => {
            if v > 0 {
                v as u64
            } else {
                0
            }
        },
        None => 0,
    }
}

/// The longest pause between polls for a WASM result, in milliseconds.
pub const MAX_POLL_INTERVAL_MS: u64 = 100;

/// The first pause between polls for a WASM result, in milliseconds.
pub const FIRST_POLL_INTERVAL_MS: u64 = 10;

/// The next pause between polls: doubled, up to the cap.
pub fn next_poll_interval(p: u64) -> (r: u64)
    requires
        p <= MAX_POLL_INTERVAL_MS,
    ensures
        r == if 2 * p <= MAX_POLL_INTERVAL_MS { 2 * p } else { MAX_POLL_INTERVAL_MS as int },
        r <= MAX_POLL_INTERVAL_MS,
{
    if p * 2 <= MAX_POLL_INTERVAL_MS {
        p * 2
    } else {
        MAX_POLL_INTERVAL_MS
    }
}

/// What a poll for a WASM result does next.
pub enum PollStep {
    /// Stop and answer that no result came.
    GiveUp,
    /// Sleep this long, then poll again.
    Wait(u64),
}

/// After a poll found no result: give up when no wait was asked for or the wait
/// is used up, else wait the current pause.
pub fn poll_step(max_wait_ms: u64, elapsed_ms: u64, interval: u64) -> (r: PollStep)
    ensures
        (max_wait_ms == 0 || elapsed_ms >= max_wait_ms) ==> r is GiveUp,
        (max_wait_ms > 0 && elapsed_ms < max_wait_ms) ==> r == PollStep::Wait(interval),
{
    if max_wait_ms == 0 || elapsed_ms >= max_wait_ms {
        PollStep::GiveUp
    } else {
        PollStep::Wait(interval)
    }
}

/// The files of a WASM patch in its `pkg` directory: the module and its JS glue.
pub fn patch_files(patch_name: &str) -> (r: (String, String))
    ensures
        r.0@ == patch_name@ + "_bg.wasm"@,
        r.1@ == patch_name@ + ".js"@,
{
    (concat2(patch_name, "_bg.wasm"), concat2(patch_name, ".js"))
}

/// A key of a package's `exports` names a function unless it is `.` or a path
/// starting with `./`.
pub open spec fn names_function(key: Seq<char>) -> bool {
    key != "."@ && !"./"@.is_prefix_of(key)
}

/// The exported function names among a package's `exports` keys, in order.
pub fn exported_functions(keys: &Vec<String>) -> (r: Vec<String>)
    ensures
        strings_view(r@) == keep(strings_view(keys@), |k: Seq<char>| names_function(k)),
{
    let ghost ks = strings_view(keys@);
    let ghost p = |k: Seq<char>| names_function(k);
    let mut out: Vec<String> = Vec::new();
    let mut i: usize = 0;
    while i < keys.len()
        invariant
            ks == strings_view(keys@),
            p == (|k: Seq<char>| names_function(k)),
            i <= keys@.len(),
            strings_view(out@) == keep(ks.take(i as int), p),
        decreases keys.len() - i,
    {
        proof {
            let t = ks.take(i + 1);
            assert(t.drop_last() =~= ks.take(i as int));
            assert(t.last() == ks[i as int]);
        }
        let k = keys[i].as_str();
        if !str_eq(k, ".") && !starts_with(k, "./") {
            let ghost before = strings_view(out@);
            out.push(keys[i].clone());
            assert(strings_view(out@) =~= before.push(ks[i as int]));
        }
        i = i + 1;
    }
    assert(ks.take(keys.len() as int) =~= ks);
    out
}

/// The command behind a plugin's `exec`: the command line run by `cmd /C` on
/// Windows and by `sh -c` elsewhere.
pub fn exec_command(os: HostOs, command: &str) -> (r: CommandPlan)
    ensures
        match os {
            HostOs::Windows => r.program@ == "cmd"@ && args_view(r) == seq!["/C"@, command@],
            _ => r.program@ == "sh"@ && args_view(r) == seq!["-c"@, command@],
        },
{
    match os {
        HostOs::Windows => {
            let r = CommandPlan { program: String::from_str("cmd"), args: vec![String::from_str("/C"), command.to_string()] };
            assert(args_view(r) =~= seq!["/C"@, command@]);
            r
        },
        _ => {
            let r = CommandPlan { program: String::from_str("sh"), args: vec![String::from_str("-c"), command.to_string()] };
            assert(args_view(r) =~= seq!["-c"@, command@]);
            r
        },
    }
}

/// What a plugin's `showItemInFolder` opens: `explorer /select,<path>` on Windows,
/// the path itself elsewhere.
pub fn show_in_folder_target(os: HostOs, path: &str) -> (r: String)
    ensures
        match os {
            HostOs::Windows => r@ == "explorer /select,"@ + path@,
            _ => r@ == path@,
        },
{
    match os {
        HostOs::Windows => concat2("explorer /select,", path),
        _ => path.to_string(),
    }
}

/// The PowerShell script behind a file dialog: an open dialog or a save dialog,
/// printing the chosen file's name (or `$null`).
pub open spec fn dialog_script(save: bool) -> Seq<char> {
    if save {
        "[void][System.Reflection.Assembly]::LoadWithPartialName('System.Windows.Forms'); $dlg = New-Object System.Windows.Forms.SaveFileDialog; if($dlg.ShowDialog() -eq 'OK') { $dlg.FileName } else { $null }"@
    } else {
        "[void][System.Reflection.Assembly]::LoadWithPartialName('System.Windows.Forms'); $dlg = New-Object System.Windows.Forms.OpenFileDialog; if($dlg.ShowDialog() -eq 'OK') { $dlg.FileName } else { $null }"@
    }
}

/// The command that shows a file dialog on Windows: `powershell -NoProfile
/// -Command <script>`.
pub fn file_dialog_command(save: bool) -> (r: CommandPlan)
    ensures
        r.program@ == "powershell"@,
        args_view(r) == seq!["-NoProfile"@, "-Command"@, dialog_script(save)],
{
    let script = if save {
        String::from_str(
            "[void][System.Reflection.Assembly]::LoadWithPartialName('System.Windows.Forms'); $dlg = New-Object System.Windows.Forms.SaveFileDialog; if($dlg.ShowDialog() -eq 'OK') { $dlg.FileName } else { $null }",
        )
    } else {
        String::from_str(
            "[void][System.Reflection.Assembly]::LoadWithPartialName('System.Windows.Forms'); $dlg = New-Object System.Windows.Forms.OpenFileDialog; if($dlg.ShowDialog() -eq 'OK') { $dlg.FileName } else { $null }",
        )
    };
    let r = CommandPlan {
        program: String::from_str("powershell"),
        args: vec![String::from_str("-NoProfile"), String::from_str("-Command"), script],
    };
    assert(args_view(r) =~= seq!["-NoProfile"@, "-Command"@, dialog_script(save)]);
    r
}

/// The file a dialog's output names: the output without surrounding white space,
/// none when that is empty or `null`.
pub fn dialog_choice(output: &str) -> (r: Option<String>)
    ensures
        match r {
            Some(f) => f@ == trimmed_of(output@) && trimmed_of(output@).len() > 0 && trimmed_of(output@)
                != "null"@,
            None => trimmed_of(output@).len() == 0 || trimmed_of(output@) == "null"@,
        },
{
    let t = trim(output);
    if t.as_str().is_empty() || str_eq(t.as_str(), "null") {
        None
    } else {
        Some(t)
    }
}

} // verus!

verus! {

/// Which directory each path name means (names are compared in lower case):
/// `home`/`~`, `desktop`, `document(s)`, `download(s)`, `music`,
/// `picture(s)`/`photo(s)`, `video(s)`, `temp`/`tmp`, `appdata`,
/// `localappdata`/`appcache`, `userdata`, `config`, `log(s)`, `resource(s)`,
/// `exe`/`exepath`, `plugin`/`pluginpath`, `root`, `cwd`/`currentdir`; any other
/// name means none.
pub proof fn law_path_names(l: Seq<char>)
    ensures
        (l == "home"@ || l == "~"@) ==> path_kind_of(l) == Some(PathKind::Home),
        l == "desktop"@ ==> path_kind_of(l) == Some(PathKind::Desktop),
        (l == "document"@ || l == "documents"@) ==> path_kind_of(l) == Some(PathKind::Documents),
        (l == "download"@ || l == "downloads"@) ==> path_kind_of(l) == Some(PathKind::Downloads),
        l == "music"@ ==> path_kind_of(l) == Some(PathKind::Music),
        (l == "picture"@ || l == "pictures"@ || l == "photo"@ || l == "photos"@) ==> path_kind_of(l) == Some(
            PathKind::Pictures,
        ),
        (l == "video"@ || l == "videos"@) ==> path_kind_of(l) == Some(PathKind::Videos),
        (l == "temp"@ || l == "tmp"@) ==> path_kind_of(l) == Some(PathKind::Temp),
        l == "appdata"@ ==> path_kind_of(l) == Some(PathKind::AppData),
        (l == "localappdata"@ || l == "appcache"@) ==> path_kind_of(l) == Some(PathKind::AppCache),
        l == "userdata"@ ==> path_kind_of(l) == Some(PathKind::UserData),
        l == "config"@ ==> path_kind_of(l) == Some(PathKind::Config),
        (l == "log"@ || l == "logs"@) ==> path_kind_of(l) == Some(PathKind::Logs),
        (l == "resource"@ || l == "resources"@) ==> path_kind_of(l) == Some(PathKind::Resources),
        (l == "exe"@ || l == "exepath"@) ==> path_kind_of(l) == Some(PathKind::Exe),
        (l == "plugin"@ || l == "pluginpath"@) ==> path_kind_of(l) == Some(PathKind::Plugins),
        l == "root"@ ==> path_kind_of(l) == Some(PathKind::Root),
        (l == "cwd"@ || l == "currentdir"@) ==> path_kind_of(l) == Some(PathKind::CurrentDir),
{
    reveal_strlit("home");
    reveal_strlit("~");
    reveal_strlit("desktop");
    reveal_strlit("document");
    reveal_strlit("documents");
    reveal_strlit("download");
    reveal_strlit("downloads");
    reveal_strlit("music");
    reveal_strlit("picture");
    reveal_strlit("pictures");
    reveal_strlit("photo");
    reveal_strlit("photos");
    reveal_strlit("video");
    reveal_strlit("videos");
    reveal_strlit("temp");
    reveal_strlit("tmp");
    reveal_strlit("appdata");
    reveal_strlit("localappdata");
    reveal_strlit("appcache");
    reveal_strlit("userdata");
    reveal_strlit("config");
    reveal_strlit("log");
    reveal_strlit("logs");
    reveal_strlit("resource");
    reveal_strlit("resources");
    reveal_strlit("exe");
    reveal_strlit("exepath");
    reveal_strlit("plugin");
    reveal_strlit("pluginpath");
    reveal_strlit("root");
    reveal_strlit("cwd");
    reveal_strlit("currentdir");
    assert("home"@.len() == 4 && "home"@[0] == 'h' && "home"@[3] == 'e' && "home"@[1] == 'o' && "home"@[2] == 'm' && "home"@[3] == 'e');
    assert("~"@.len() == 1 && "~"@[0] == '~' && "~"@[0] == '~');
    assert("desktop"@.len() == 7 && "desktop"@[0] == 'd' && "desktop"@[6] == 'p' && "desktop"@[1] == 'e' && "desktop"@[2] == 's' && "desktop"@[3] == 'k');
    assert("document"@.len() == 8 && "document"@[0] == 'd' && "document"@[7] == 't' && "document"@[1] == 'o' && "document"@[2] == 'c' && "document"@[3] == 'u');
    assert("documents"@.len() == 9 && "documents"@[0] == 'd' && "documents"@[8] == 's' && "documents"@[1] == 'o' && "documents"@[2] == 'c' && "documents"@[3] == 'u');
    assert("download"@.len() == 8 && "download"@[0] == 'd' && "download"@[7] == 'd' && "download"@[1] == 'o' && "download"@[2] == 'w' && "download"@[3] == 'n');
    assert("downloads"@.len() == 9 && "downloads"@[0] == 'd' && "downloads"@[8] == 's' && "downloads"@[1] == 'o' && "downloads"@[2] == 'w' && "downloads"@[3] == 'n');
    assert("music"@.len() == 5 && "music"@[0] == 'm' && "music"@[4] == 'c' && "music"@[1] == 'u' && "music"@[2] == 's' && "music"@[3] == 'i');
    assert("picture"@.len() == 7 && "picture"@[0] == 'p' && "picture"@[6] == 'e' && "picture"@[1] == 'i' && "picture"@[2] == 'c' && "picture"@[3] == 't');
    assert("pictures"@.len() == 8 && "pictures"@[0] == 'p' && "pictures"@[7] == 's' && "pictures"@[1] == 'i' && "pictures"@[2] == 'c' && "pictures"@[3] == 't');
    assert("photo"@.len() == 5 && "photo"@[0] == 'p' && "photo"@[4] == 'o' && "photo"@[1] == 'h' && "photo"@[2] == 'o' && "photo"@[3] == 't');
    assert("photos"@.len() == 6 && "photos"@[0] == 'p' && "photos"@[5] == 's' && "photos"@[1] == 'h' && "photos"@[2] == 'o' && "photos"@[3] == 't');
    assert("video"@.len() == 5 && "video"@[0] == 'v' && "video"@[4] == 'o' && "video"@[1] == 'i' && "video"@[2] == 'd' && "video"@[3] == 'e');
    assert("videos"@.len() == 6 && "videos"@[0] == 'v' && "videos"@[5] == 's' && "videos"@[1] == 'i' && "videos"@[2] == 'd' && "videos"@[3] == 'e');
    assert("temp"@.len() == 4 && "temp"@[0] == 't' && "temp"@[3] == 'p' && "temp"@[1] == 'e' && "temp"@[2] == 'm' && "temp"@[3] == 'p');
    assert("tmp"@.len() == 3 && "tmp"@[0] == 't' && "tmp"@[2] == 'p' && "tmp"@[1] == 'm' && "tmp"@[2] == 'p');
    assert("appdata"@.len() == 7 && "appdata"@[0] == 'a' && "appdata"@[6] == 'a' && "appdata"@[1] == 'p' && "appdata"@[2] == 'p' && "appdata"@[3] == 'd');
    assert("localappdata"@.len() == 12 && "localappdata"@[0] == 'l' && "localappdata"@[11] == 'a' && "localappdata"@[1] == 'o' && "localappdata"@[2] == 'c' && "localappdata"@[3] == 'a');
    assert("appcache"@.len() == 8 && "appcache"@[0] == 'a' && "appcache"@[7] == 'e' && "appcache"@[1] == 'p' && "appcache"@[2] == 'p' && "appcache"@[3] == 'c');
    assert("userdata"@.len() == 8 && "userdata"@[0] == 'u' && "userdata"@[7] == 'a' && "userdata"@[1] == 's' && "userdata"@[2] == 'e' && "userdata"@[3] == 'r');
    assert("config"@.len() == 6 && "config"@[0] == 'c' && "config"@[5] == 'g' && "config"@[1] == 'o' && "config"@[2] == 'n' && "config"@[3] == 'f');
    assert("log"@.len() == 3 && "log"@[0] == 'l' && "log"@[2] == 'g' && "log"@[1] == 'o' && "log"@[2] == 'g');
    assert("logs"@.len() == 4 && "logs"@[0] == 'l' && "logs"@[3] == 's' && "logs"@[1] == 'o' && "logs"@[2] == 'g' && "logs"@[3] == 's');
    assert("resource"@.len() == 8 && "resource"@[0] == 'r' && "resource"@[7] == 'e' && "resource"@[1] == 'e' && "resource"@[2] == 's' && "resource"@[3] == 'o');
    assert("resources"@.len() == 9 && "resources"@[0] == 'r' && "resources"@[8] == 's' && "resources"@[1] == 'e' && "resources"@[2] == 's' && "resources"@[3] == 'o');
    assert("exe"@.len() == 3 && "exe"@[0] == 'e' && "exe"@[2] == 'e' && "exe"@[1] == 'x' && "exe"@[2] == 'e');
    assert("exepath"@.len() == 7 && "exepath"@[0] == 'e' && "exepath"@[6] == 'h' && "exepath"@[1] == 'x' && "exepath"@[2] == 'e' && "exepath"@[3] == 'p');
    assert("plugin"@.len() == 6 && "plugin"@[0] == 'p' && "plugin"@[5] == 'n' && "plugin"@[1] == 'l' && "plugin"@[2] == 'u' && "plugin"@[3] == 'g');
    assert("pluginpath"@.len() == 10 && "pluginpath"@[0] == 'p' && "pluginpath"@[9] == 'h' && "pluginpath"@[1] == 'l' && "pluginpath"@[2] == 'u' && "pluginpath"@[3] == 'g');
    assert("root"@.len() == 4 && "root"@[0] == 'r' && "root"@[3] == 't' && "root"@[1] == 'o' && "root"@[2] == 'o' && "root"@[3] == 't');
    assert("cwd"@.len() == 3 && "cwd"@[0] == 'c' && "cwd"@[2] == 'd' && "cwd"@[1] == 'w' && "cwd"@[2] == 'd');
    assert("currentdir"@.len() == 10 && "currentdir"@[0] == 'c' && "currentdir"@[9] == 'r' && "currentdir"@[1] == 'u' && "currentdir"@[2] == 'r' && "currentdir"@[3] == 'r');
}

} // verus!
