//! The application services' own rules: the main window's visibility, the commands
//! that open paths and applications on each system, the data store, and the three
//! layers of configuration with their defaults and validation.

use vstd::prelude::*;
use vstd::string::*;
use crate::json::JsonValue;
use crate::json::JsonView;
use crate::json::get_key;
use crate::json::get_member;
use crate::json::jv_members;
use crate::json::lemma_members_index;
use crate::json::member;
use crate::text::str_eq;

verus! {

/// How long the window stays pinned on top after it is shown, in milliseconds.
pub const DELAY_UNPIN_MS: u64 = 100;

/// What showing or hiding the main window takes.
pub enum WindowAction {
    Show,
    Hide,
}

/// The main window's visibility, as the application last set it.
pub struct WindowService {
    visible: bool,
}

impl WindowService {
    /// Whether the window is visible, as last recorded.
    pub closed spec fn visible(&self) -> bool {
        self.visible
    }

    /// A hidden window.
    pub fn new() -> (r: Self)
        ensures
            !r.visible(),
    {
        WindowService { visible: false }
    }

    /// Whether the window is recorded as visible.
    pub fn is_window_visible(&self) -> (b: bool)
        ensures
            b == self.visible(),
    {
        self.visible
    }

    /// Records whether the window is visible.
    pub fn set_window_visible(&mut self, visible: bool)
        ensures
            final(self).visible() == visible,
    {
        self.visible = visible;
    }

    /// Whether the window is recorded as visible (not whether it is on screen).
    pub fn is_visible(&self) -> (b: bool)
        ensures
            b == self.visible(),
    {
        self.is_window_visible()
    }

    /// What toggling the window takes: hiding a visible window, showing a hidden
    /// one; and the visibility it leads to.
    pub fn toggle_plan(&self) -> (r: (WindowAction, bool))
        ensures
            r.1 == !self.visible(),
            self.visible() ==> r.0 is Hide,
            !self.visible() ==> r.0 is Show,
    {
        if self.visible {
            (WindowAction::Hide, false)
        } else {
            (WindowAction::Show, true)
        }
    }
}

/// Toggling twice gives back the visibility the window had.
pub proof fn law_toggle_twice(w: WindowService, x: WindowService)
    requires
        x.visible() == !w.visible(),
    ensures
        !x.visible() == w.visible(),
{
}

/// What a tray menu item or tray click asks for.
#[derive(Debug, Clone, Copy)]
pub enum TrayAction {
    /// Show or hide the main window.
    ToggleWindow,
    /// Leave the application.
    Quit,
    /// Nothing.
    Ignore,
}

/// What the tray menu item with id `id` does: `show` toggles the window, `quit`
/// leaves; other ids do nothing.
pub fn tray_menu_action(id: &str) -> (r: TrayAction)
    ensures
        id@ == "show"@ ==> r is ToggleWindow,
        id@ == "quit"@ ==> r is Quit,
        id@ != "show"@ && id@ != "quit"@ ==> r is Ignore,
{
    proof {
        reveal_strlit("show");
        reveal_strlit("quit");
        assert("show"@[0] != "quit"@[0]);
    }
    if str_eq(id, "show") {
        TrayAction::ToggleWindow
    } else if str_eq(id, "quit") {
        TrayAction::Quit
    } else {
        TrayAction::Ignore
    }
}

/// What a click on the tray icon does: releasing the left button toggles the
/// window; anything else does nothing.
pub fn tray_click_action(left_button: bool, released: bool) -> (r: TrayAction)
    ensures
        left_button && released ==> r is ToggleWindow,
        !(left_button && released) ==> r is Ignore,
{
    if left_button && released {
        TrayAction::ToggleWindow
    } else {
        TrayAction::Ignore
    }
}

/// The desktop system the application runs on.
pub enum HostOs {
    Windows,
    MacOs,
    Linux,
}

/// A program to start and its arguments.
#[derive(Debug)]
pub struct CommandPlan {
    pub program: String,
    pub args: Vec<String>,
}

/// The characters of the arguments of a command.
pub open spec fn args_view(c: CommandPlan) -> Seq<Seq<char>> {
    c.args@.map_values(|a: String| a@)
}

/// Opens files and applications with the system's own tools.
pub struct ShellService;

impl ShellService {
    /// The command that shows `path` in the system's file manager: `explorer` on
    /// Windows, `open` on macOS, `xdg-open` on Linux, with the path as argument.
    pub fn open_path_command(os: HostOs, path: &str) -> (r: CommandPlan)
        ensures
            r.program@ == match os {
                HostOs::Windows => "explorer"@,
                HostOs::MacOs => "open"@,
                HostOs::Linux => "xdg-open"@,
            },
            args_view(r) == seq![path@],
    {
        let program = match os {
            HostOs::Windows => String::from_str("explorer"),
            HostOs::MacOs => String::from_str("open"),
            HostOs::Linux => String::from_str("xdg-open"),
        };
        let args = vec![path.to_string()];
        let r = CommandPlan { program, args };
        assert(args_view(r) =~= seq![path@]);
        r
    }

    /// The command that starts the application `app`: `cmd /c start "" app` on
    /// Windows, `open -a app` on macOS, and `app` itself on Linux.
    pub fn open_app_command(os: HostOs, app: &str) -> (r: CommandPlan)
        ensures
            match os {
                HostOs::Windows => r.program@ == "cmd"@ && args_view(r) == seq!["/c"@, "start"@, ""@, app@],
                HostOs::MacOs => r.program@ == "open"@ && args_view(r) == seq!["-a"@, app@],
                HostOs::Linux => r.program@ == app@ && args_view(r) == Seq::<Seq<char>>::empty(),
            },
    {
        match os {
            HostOs::Windows => {
                let args = vec![
                    String::from_str("/c"),
                    String::from_str("start"),
                    String::from_str(""),
                    app.to_string(),
                ];
                let r = CommandPlan { program: String::from_str("cmd"), args };
                assert(args_view(r) =~= seq!["/c"@, "start"@, ""@, app@]);
                r
            },
            HostOs::MacOs => {
                let args = vec![String::from_str("-a"), app.to_string()];
                let r = CommandPlan { program: String::from_str("open"), args };
                assert(args_view(r) =~= seq!["-a"@, app@]);
                r
            },
            HostOs::Linux => {
                let args: Vec<String> = Vec::new();
                let r = CommandPlan { program: app.to_string(), args };
                assert(args_view(r) =~= Seq::<Seq<char>>::empty());
                r
            },
        }
    }
}

/// Saves, loads and deletes values of the data store by key.
pub struct StoreService;

impl StoreService {
    /// The data store's file, under the application's data directory.
    pub fn store_file() -> (r: String)
        ensures
            r@ == "morningstart.corelia/store.json"@,
    {
        String::from_str("morningstart.corelia/store.json")
    }

    /// The value a load answers: the stored value, or `null` for a missing key.
    pub fn value_or_null(found: Option<JsonValue>) -> (r: JsonValue)
        ensures
            match found {
                Some(v) => r@ == v@,
                None => r@ == JsonView::Null,
            },
    {
        match found {
            Some(v) => v,
            None => JsonValue::Null,
        }
    }
}

/// A JSON object of one member.
fn obj1(k1: &str, v1: JsonValue) -> (r: JsonValue)
    ensures
        r@ == JsonView::Object(seq![(k1@, v1@)]),
{
    let m = vec![(k1.to_string(), v1)];
    proof {
        lemma_members_index(m@);
    }
    let r = JsonValue::Object(m);
    assert(jv_members(m@) =~= seq![(k1@, v1@)]);
    r
}

/// A JSON object of two members.
fn obj2(k1: &str, v1: JsonValue, k2: &str, v2: JsonValue) -> (r: JsonValue)
    ensures
        r@ == JsonView::Object(seq![(k1@, v1@), (k2@, v2@)]),
{
    let m = vec![(k1.to_string(), v1), (k2.to_string(), v2)];
    proof {
        lemma_members_index(m@);
    }
    let r = JsonValue::Object(m);
    assert(jv_members(m@) =~= seq![(k1@, v1@), (k2@, v2@)]);
    r
}

/// A JSON object of three members.
fn obj3(k1: &str, v1: JsonValue, k2: &str, v2: JsonValue, k3: &str, v3: JsonValue) -> (r: JsonValue)
    ensures
        r@ == JsonView::Object(seq![(k1@, v1@), (k2@, v2@), (k3@, v3@)]),
{
    let m = vec![(k1.to_string(), v1), (k2.to_string(), v2), (k3.to_string(), v3)];
    proof {
        lemma_members_index(m@);
    }
    let r = JsonValue::Object(m);
    assert(jv_members(m@) =~= seq![(k1@, v1@), (k2@, v2@), (k3@, v3@)]);
    r
}

/// A JSON object of four members.
fn obj4(
    k1: &str,
    v1: JsonValue,
    k2: &str,
    v2: JsonValue,
    k3: &str,
    v3: JsonValue,
    k4: &str,
    v4: JsonValue,
) -> (r: JsonValue)
    ensures
        r@ == JsonView::Object(seq![(k1@, v1@), (k2@, v2@), (k3@, v3@), (k4@, v4@)]),
{
    let m = vec![(k1.to_string(), v1), (k2.to_string(), v2), (k3.to_string(), v3), (k4.to_string(), v4)];
    proof {
        lemma_members_index(m@);
    }
    let r = JsonValue::Object(m);
    assert(jv_members(m@) =~= seq![(k1@, v1@), (k2@, v2@), (k3@, v3@), (k4@, v4@)]);
    r
}

/// A JSON string.
fn jstr(s: &str) -> (r: JsonValue)
    ensures
        r@ == JsonView::Str(s@),
{
    JsonValue::String(s.to_string())
}

/// A JSON number, by its decimal text.
fn jnum(s: &str) -> (r: JsonValue)
    ensures
        r@ == JsonView::Number(s@),
{
    JsonValue::Number(s.to_string())
}

/// An empty JSON object.
fn jobj_empty() -> (r: JsonValue)
    ensures
        r@ == JsonView::Object(Seq::empty()),
{
    let m: Vec<(String, JsonValue)> = Vec::new();
    assert(jv_members(m@) =~= Seq::empty());
    JsonValue::Object(m)
}

/// An empty JSON array.
fn jarr_empty() -> (r: JsonValue)
    ensures
        r@ == JsonView::Array(Seq::empty()),
{
    JsonValue::Array(Vec::new())
}

/// The default system configuration: summon with `Alt+Space`, start-up disabled
/// and minimised to the tray, debug mode off. Members are in key order.
pub open spec fn default_system_view() -> JsonView {
    JsonView::Object(
        seq![
            ("advanced"@, JsonView::Object(seq![("debugMode"@, JsonView::Bool(false))])),
            ("shortcut"@, JsonView::Object(seq![("summon"@, JsonView::Str("Alt+Space"@))])),
            (
                "startup"@,
                JsonView::Object(
                    seq![("enabled"@, JsonView::Bool(false)), ("minimizeToTray"@, JsonView::Bool(true))],
                ),
            ),
        ],
    )
}

/// The default user configuration: dark theme, hiding after 3000 ms, a 600 by
/// 420 window, and search over all categories with 20 results and 100 history
/// entries. Members are in key order.
pub open spec fn default_user_view() -> JsonView {
    JsonView::Object(
        seq![
            (
                "behavior"@,
                JsonView::Object(
                    seq![("autoHide"@, JsonView::Bool(true)), ("autoHideDelay"@, JsonView::Number("3000"@))],
                ),
            ),
            (
                "search"@,
                JsonView::Object(
                    seq![
                        ("defaultCategory"@, JsonView::Str("all"@)),
                        ("maxHistoryCapacity"@, JsonView::Number("100"@)),
                        ("maxResults"@, JsonView::Number("20"@)),
                    ],
                ),
            ),
            ("theme"@, JsonView::Str("dark"@)),
            (
                "window"@,
                JsonView::Object(
                    seq![("height"@, JsonView::Number("420"@)), ("width"@, JsonView::Number("600"@))],
                ),
            ),
        ],
    )
}

/// The default application state: no plugin cache or enabled plugins, no last
/// state, no launches or usage time, and an empty search history. Members are in
/// key order.
pub open spec fn default_app_view() -> JsonView {
    JsonView::Object(
        seq![
            (
                "plugins"@,
                JsonView::Object(
                    seq![("cache"@, JsonView::Object(Seq::empty())), ("enabled"@, JsonView::Array(Seq::empty()))],
                ),
            ),
            (
                "runtime"@,
                JsonView::Object(
                    seq![
                        ("lastState"@, JsonView::Object(Seq::empty())),
                        (
                            "usageStats"@,
                            JsonView::Object(
                                seq![
                                    ("launchCount"@, JsonView::Number("0"@)),
                                    ("totalUsageTime"@, JsonView::Number("0"@)),
                                ],
                            ),
                        ),
                    ],
                ),
            ),
            ("searchHistory"@, JsonView::Array(Seq::empty())),
        ],
    )
}

/// What validating a system configuration gives: it must be an object, and where it
/// has a `shortcut`, its `summon` must be a non-empty string.
pub open spec fn system_config_check(v: JsonView) -> Result<(), Seq<char>> {
    match v {
        JsonView::Object(m) => match member(m, "shortcut"@) {
            None => Ok(()),
            Some(sc) => match get_key(sc, "summon"@) {
                Some(JsonView::Str(s)) => if s.len() == 0 {
                    Err("快捷键不能为空"@)
                } else {
                    Ok(())
                },
                _ => Err("shortcut.summon 必须是字符串"@),
            },
        },
        _ => Err("系统配置必须是对象"@),
    }
}

/// The three layers of configuration: system, user and application.
pub struct ConfigService;

impl ConfigService {
    /// The directory of the configuration files, under the application's data
    /// directory.
    pub fn base_dir() -> (r: String)
        ensures
            r@ == "morningstart.corelia"@,
    {
        String::from_str("morningstart.corelia")
    }

    /// The store path of the system configuration.
    pub fn system_path() -> (r: String)
        ensures
            r@ == "morningstart.corelia/config.system.json"@,
    {
        String::from_str("morningstart.corelia/config.system.json")
    }

    /// The store path of the user configuration.
    pub fn user_path() -> (r: String)
        ensures
            r@ == "morningstart.corelia/config.user.json"@,
    {
        String::from_str("morningstart.corelia/config.user.json")
    }

    /// The store path of the application state.
    pub fn app_path() -> (r: String)
        ensures
            r@ == "morningstart.corelia/cache/app.json"@,
    {
        String::from_str("morningstart.corelia/cache/app.json")
    }

    /// The configuration a load answers, and whether the default must be saved:
    /// the stored configuration if there is one, else the default, saved.
    pub fn config_or_default(found: Option<JsonValue>, default: JsonValue) -> (r: (JsonValue, bool))
        ensures
            match found {
                Some(v) => r.0@ == v@ && !r.1,
                None => r.0@ == default@ && r.1,
            },
    {
        match found {
            Some(v) => (v, false),
            None => (default, true),
        }
    }

    /// The default system configuration.
    pub fn default_system_config() -> (r: JsonValue)
        ensures
            r@ == default_system_view(),
    {
        let advanced = obj1("debugMode", JsonValue::Bool(false));
        let shortcut = obj1("summon", jstr("Alt+Space"));
        let startup = obj2("enabled", JsonValue::Bool(false), "minimizeToTray", JsonValue::Bool(true));
        obj3("advanced", advanced, "shortcut", shortcut, "startup", startup)
    }

    /// The default user configuration.
    pub fn default_user_config() -> (r: JsonValue)
        ensures
            r@ == default_user_view(),
    {
        let behavior = obj2("autoHide", JsonValue::Bool(true), "autoHideDelay", jnum("3000"));
        let search = obj3(
            "defaultCategory",
            jstr("all"),
            "maxHistoryCapacity",
            jnum("100"),
            "maxResults",
            jnum("20"),
        );
        let window = obj2("height", jnum("420"), "width", jnum("600"));
        obj4("behavior", behavior, "search", search, "theme", jstr("dark"), "window", window)
    }

    /// The default application state.
    pub fn default_app_config() -> (r: JsonValue)
        ensures
            r@ == default_app_view(),
    {
        let plugins = obj2("cache", jobj_empty(), "enabled", jarr_empty());
        let usage = obj2("launchCount", jnum("0"), "totalUsageTime", jnum("0"));
        let runtime = obj2("lastState", jobj_empty(), "usageStats", usage);
        obj3("plugins", plugins, "runtime", runtime, "searchHistory", jarr_empty())
    }

    /// Validates a system configuration before it is saved.
    pub fn validate_system_config(config: &JsonValue) -> (r: Result<(), String>)
        ensures
            match system_config_check(config@) {
                Ok(_) => r is Ok,
                Err(msg) => r matches Err(e) && e@ == msg,
            },
    {
        match config {
            JsonValue::Object(m) => {
                match get_member(m, "shortcut") {
                    None => Ok(()),
                    Some(sc) => {
                        let summon = match sc {
                            JsonValue::Object(m2) => get_member(m2, "summon"),
                            _ => None,
                        };
                        match summon {
                            Some(JsonValue::String(s)) => {
                                if s.as_str().is_empty() {
                                    Err(String::from_str("快捷键不能为空"))
                                } else {
                                    Ok(())
                                }
                            },
                            _ => Err(String::from_str("shortcut.summon 必须是字符串")),
                        }
                    },
                }
            },
            _ => Err(String::from_str("系统配置必须是对象")),
        }
    }
}

/// The default system configuration passes validation.
pub proof fn law_default_system_config_valid()
    ensures
        system_config_check(default_system_view()) is Ok,
{
    let m = seq![
        ("advanced"@, JsonView::Object(seq![("debugMode"@, JsonView::Bool(false))])),
        ("shortcut"@, JsonView::Object(seq![("summon"@, JsonView::Str("Alt+Space"@))])),
        (
            "startup"@,
            JsonView::Object(
                seq![("enabled"@, JsonView::Bool(false)), ("minimizeToTray"@, JsonView::Bool(true))],
            ),
        ),
    ];
    reveal_strlit("advanced");
    reveal_strlit("shortcut");
    reveal_strlit("summon");
    reveal_strlit("Alt+Space");
    assert("advanced"@[0] != "shortcut"@[0]);
    assert(m[0].0 != "shortcut"@);
    assert(m.drop_first()[0] == m[1]);
    let sc = seq![("summon"@, JsonView::Str("Alt+Space"@))];
    assert(member(m, "shortcut"@) == member(m.drop_first(), "shortcut"@));
    assert(member(sc, "summon"@) == Some(JsonView::Str("Alt+Space"@)));
}

} // verus!
