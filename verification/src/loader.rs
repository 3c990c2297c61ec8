//! The plugin loader: the discovered plugins by id, their lifecycle from metadata to
//! a running VM and back, load retries with back-off, and idle eviction.
//!
//! Loading alternates decisions with outside work (reading the entry file, creating
//! an engine, running the plugin's code). The loader makes the decisions in steps:
//! `begin_load`, `attach_vm`, `fail_load` and `finish_load`; the host performs the
//! work between them and reports how it went.

use vstd::prelude::*;
use vstd::string::*;
use crate::instance::InstanceView;
use crate::instance::PluginHealth;
use crate::instance::PluginInstance;
use crate::instance::instances_view;
use crate::manifest::ManifestView;
use crate::manifest::PluginManifest;
use crate::manifest::RegisteredFeature;
use crate::manifest::registered_view;
use crate::manifest::clone_opt_string;
use crate::manifest::opt_chars;
use crate::manifest::validate_manifest;
use crate::quickjs_runtime::PoolView;
use crate::quickjs_runtime::QuickJSRuntime;
use crate::quickjs_runtime::VmView;
use crate::quickjs_runtime::vm_not_found_message;
use crate::quickjs_runtime::elapsed_secs;
use crate::quickjs_runtime::elapsed_seconds;
use crate::quickjs_runtime::idle_at;
use crate::quickjs_runtime::other_id;
use crate::quickjs_runtime::pool_cleaned;
use crate::quickjs_runtime::pool_full_message;
use crate::quickjs_runtime::pool_without;
use crate::quickjs_runtime::spared_by;
use crate::seqs::has_key;
use crate::seqs::keep;
use crate::seqs::key_index;
use crate::seqs::lemma_key_index_unique;
use crate::seqs::lemma_push_unique;
use crate::seqs::lemma_update_unique;
use crate::seqs::unique_by;
use crate::state::PluginState;
use crate::state::StateView;
use crate::state::is_active;
use crate::state::state_debug_text;
use crate::state::state_display_text;
use crate::text::append_decimal;
use crate::text::concat2;
use crate::text::decimal;
use crate::text::lowercase_of;
use crate::text::starts_with;
use crate::text::str_eq;
use crate::text::to_lowercase;

verus! {

/// The back-off before the first retry of a failed load, in milliseconds.
pub const INITIAL_BACKOFF_MS: u64 = 1000;

/// The longest back-off between load retries, in milliseconds.
pub const MAX_BACKOFF_MS: u64 = 30000;

/// How many failed loads a plugin is allowed before loading is refused.
pub const DEFAULT_MAX_RETRIES: u32 = 3;

/// A plugin record's key: its id.
pub open spec fn inst_id() -> spec_fn(InstanceView) -> Seq<char> {
    |p: InstanceView| p.id
}

/// The value of a loader.
pub struct LoaderView<H> {
    pub plugins_dir: Seq<char>,
    pub instances: Seq<InstanceView>,
    pub runtime: PoolView<H>,
}

/// The loader's invariant: plugin ids are unique and every back-off is within
/// the cap.
pub open spec fn loader_wf(s: Seq<InstanceView>) -> bool {
    &&& unique_by(s, inst_id())
    &&& forall|i: int| 0 <= i < s.len() ==> (#[trigger] s[i]).retry_backoff_ms <= MAX_BACKOFF_MS
}

/// The plugin with id `id`, if any.
pub open spec fn find(s: Seq<InstanceView>, id: Seq<char>) -> Option<InstanceView> {
    if has_key(s, inst_id(), id) {
        Some(s[key_index(s, inst_id(), id)])
    } else {
        None
    }
}

/// The position of the plugin with id `id` (meaningful where it exists).
pub open spec fn pos(s: Seq<InstanceView>, id: Seq<char>) -> int {
    key_index(s, inst_id(), id)
}

/// The message for an unknown plugin id.
pub open spec fn not_exist_message(id: Seq<char>) -> Seq<char> {
    "插件不存在: "@ + id
}

/// A plugin answers a prefix query when it declares a prefix and, ignoring case,
/// either is a prefix of the other.
pub open spec fn prefix_hit(p: InstanceView, query: Seq<char>) -> bool {
    match p.manifest.prefix {
        Some(pre) => lowercase_of(pre).is_prefix_of(lowercase_of(query)) || lowercase_of(
            query,
        ).is_prefix_of(lowercase_of(pre)),
        None => false,
    }
}

/// The plugins that answer a prefix query.
pub open spec fn prefix_hits(query: Seq<char>) -> spec_fn(InstanceView) -> bool {
    |p: InstanceView| prefix_hit(p, query)
}

/// The plugins in a state that can serve requests.
pub open spec fn loaded() -> spec_fn(InstanceView) -> bool {
    |p: InstanceView| is_active(p.state)
}

/// The record of a newly discovered plugin.
pub open spec fn fresh_instance(m: ManifestView, dir: Seq<char>) -> InstanceView {
    InstanceView {
        id: m.name,
        manifest: m,
        state: StateView::MetaLoaded,
        vm_id: None,
        plugin_dir: dir,
        loaded_at: None,
        last_used: None,
        registered_features: Seq::empty(),
        on_ready_callback: None,
        on_out_callback: None,
        load_error_count: 0,
        max_retries: DEFAULT_MAX_RETRIES,
        last_error: None,
        retry_after: None,
        retry_backoff_ms: INITIAL_BACKOFF_MS,
    }
}

/// Adds a record, replacing the one with the same id if there is one.
pub open spec fn upsert(s: Seq<InstanceView>, p: InstanceView) -> Seq<InstanceView> {
    if has_key(s, inst_id(), p.id) {
        s.update(pos(s, p.id), p)
    } else {
        s.push(p)
    }
}

/// A manifest that passes validation, with its defaults filled in.
pub open spec fn validated(m: ManifestView) -> Option<ManifestView> {
    if m.name.len() == 0 || m.version.len() == 0 || m.plugin_type.len() == 0 {
        None
    } else {
        Some(
            ManifestView {
                main: match m.main {
                    Some(s) => Some(s),
                    None => Some("index.js"@),
                },
                features: match m.features {
                    Some(f) => Some(f),
                    None => Some(Seq::empty()),
                },
                ..m
            },
        )
    }
}

/// The value of a scanned directory: where it is, and its parsed manifest or why
/// it could not be parsed.
pub struct ScannedView {
    pub dir: Seq<char>,
    pub manifest: Result<ManifestView, Seq<char>>,
}

/// A plugin directory found by a scan, with its `plugin.json` as parsed (or the
/// reason it could not be read or parsed).
pub struct ScannedPlugin {
    pub dir: String,
    pub manifest: Result<PluginManifest, String>,
}

impl View for ScannedPlugin {
    type V = ScannedView;

    open spec fn view(&self) -> ScannedView {
        ScannedView {
            dir: self.dir@,
            manifest: match self.manifest {
                Ok(m) => Ok(m@),
                Err(e) => Err(e@),
            },
        }
    }
}

/// The valid manifest of a scanned directory, if it has one.
pub open spec fn scanned_manifest(e: ScannedView) -> Option<ManifestView> {
    match e.manifest {
        Ok(m) => validated(m),
        Err(_) => None,
    }
}

/// The records after a scan of `entries`: each valid plugin is (re)registered fresh.
pub open spec fn scan_into(s: Seq<InstanceView>, entries: Seq<ScannedView>) -> Seq<InstanceView>
    decreases entries.len(),
{
    if entries.len() == 0 {
        s
    } else {
        let r = scan_into(s, entries.drop_last());
        match scanned_manifest(entries.last()) {
            Some(m) => upsert(r, fresh_instance(m, entries.last().dir)),
            None => r,
        }
    }
}

/// The ids a scan of `entries` reports: the name of each valid plugin, in order.
pub open spec fn scan_ids(entries: Seq<ScannedView>) -> Seq<Seq<char>>
    decreases entries.len(),
{
    if entries.len() == 0 {
        Seq::empty()
    } else {
        let r = scan_ids(entries.drop_last());
        match scanned_manifest(entries.last()) {
            Some(m) => r.push(m.name),
            None => r,
        }
    }
}

/// What a load request does with a plugin in its current state.
pub enum LoadStep {
    /// The plugin is being loaded already: report it as it is.
    Busy,
    /// The plugin is ready: mark it used and report it.
    Ready,
    /// The plugin failed as often as it may: refuse.
    Exhausted,
    /// The plugin failed and its retry back-off has not elapsed: refuse.
    Cooling,
    /// Load the plugin.
    Proceed,
}

/// The step a load request takes for a plugin at `now`.
pub open spec fn load_step(p: InstanceView, now: u64) -> LoadStep {
    match p.state {
        StateView::Loading => LoadStep::Busy,
        StateView::Ready => LoadStep::Ready,
        StateView::Error(_) => if p.load_error_count >= p.max_retries {
            LoadStep::Exhausted
        } else if p.retry_after is Some && now < p.retry_after->0 {
            LoadStep::Cooling
        } else {
            LoadStep::Proceed
        },
        _ => LoadStep::Proceed,
    }
}

/// The message of a state, where it is `Error`.
pub open spec fn error_text(st: StateView) -> Seq<char> {
    match st {
        StateView::Error(m) => m,
        _ => Seq::empty(),
    }
}

/// The file a plugin starts from: its declared `main`, by default `index.js`.
pub open spec fn entry_of(main: Option<Seq<char>>) -> Seq<char> {
    match main {
        Some(m) => m,
        None => "index.js"@,
    }
}

/// The message of a load refused because the plugin failed too often.
pub open spec fn retry_limit_message(id: Seq<char>, max: u32, err: Seq<char>) -> Seq<char> {
    "插件 "@ + id + " 加载失败次数已达上限 ("@ + decimal(max as nat) + "): "@ + err
}

/// The message of a load refused during the retry back-off.
pub open spec fn cooldown_message(id: Seq<char>, secs: nat) -> Seq<char> {
    "插件 "@ + id + " 重试冷却中，请等待 "@ + decimal(secs) + " 秒后再试"@
}

/// How a load request starts.
pub enum LoadStart {
    /// Nothing to load: the state the plugin is in, and its VM.
    Settled { state: PluginState, vm_id: Option<String> },
    /// Loading proceeds: the plugin's directory, and its entry file within it.
    Proceed { plugin_dir: String, entry: String },
}

/// Why a load stopped before the plugin's code ran.
pub enum LoadFailure {
    /// The entry file does not exist; its path as shown to the user.
    MissingEntry(String),
    /// The entry file could not be read; the reason.
    ReadEntry(String),
    /// No VM could be created; the reason.
    CreateVm(String),
    /// The host API could not be installed in the VM; the reason.
    Inject(String),
}

/// The message of a load that stopped before the plugin's code ran.
pub open spec fn failure_message(f: LoadFailure) -> Seq<char> {
    match f {
        LoadFailure::MissingEntry(p) => "入口文件不存在: "@ + p@,
        LoadFailure::ReadEntry(e) => "读取入口文件失败: "@ + e@,
        LoadFailure::CreateVm(e) => "创建 VM 失败: "@ + e@,
        LoadFailure::Inject(e) => "API 注入失败: "@ + e@,
    }
}

/// A record after a failed setup step: in `Error` with one more failure, and
/// without its VM where the VM was dropped.
pub open spec fn after_setup_failure(p: InstanceView, f: LoadFailure) -> InstanceView {
    InstanceView {
        state: StateView::Error(failure_message(f)),
        load_error_count: (p.load_error_count + 1) as u32,
        vm_id: if f is Inject {
            None
        } else {
            p.vm_id
        },
        ..p
    }
}

/// The pool without the VM of a record, if it has one.
pub open spec fn pool_release<H>(r: PoolView<H>, vm_id: Option<Seq<char>>) -> PoolView<H> {
    match vm_id {
        Some(v) => pool_without(r, v),
        None => r,
    }
}

/// The message of a failed run of a plugin's code.
pub open spec fn run_failure_message(e: Seq<char>) -> Seq<char> {
    "执行插件代码失败: "@ + e
}

/// What a failed run adds about retries, given the failure count after it.
pub open spec fn retry_info(count: nat, max: u32, backoff: u64) -> Seq<char> {
    if count < max {
        " 将在 "@ + decimal(backoff as nat) + "ms 后允许重试 (剩余 "@ + decimal((max - count) as nat) + " 次)"@
    } else {
        " 已达到最大重试次数，不再自动重试"@
    }
}

/// The next back-off: doubled, up to the cap.
pub open spec fn next_backoff(b: u64) -> u64 {
    if 2 * b <= MAX_BACKOFF_MS {
        (2 * b) as u64
    } else {
        MAX_BACKOFF_MS
    }
}

/// A record after its code ran at `now`.
pub open spec fn after_run(p: InstanceView, outcome: Result<(), Seq<char>>, now: u64) -> InstanceView {
    match outcome {
        Ok(_) => InstanceView {
            state: StateView::Ready,
            loaded_at: Some(now),
            last_used: Some(now),
            load_error_count: 0,
            last_error: None,
            retry_after: None,
            retry_backoff_ms: INITIAL_BACKOFF_MS,
            ..p
        },
        Err(e) => InstanceView {
            state: StateView::Error(run_failure_message(e)),
            vm_id: None,
            last_error: Some(run_failure_message(e)),
            load_error_count: (p.load_error_count + 1) as u32,
            retry_backoff_ms: next_backoff(p.retry_backoff_ms),
            retry_after: Some((now + p.retry_backoff_ms) as u64),
            ..p
        },
    }
}

/// The outcome of running a plugin's code, by its characters.
pub open spec fn outcome_view(o: Result<(), String>) -> Result<(), Seq<char>> {
    match o {
        Ok(_) => Ok(()),
        Err(e) => Err(e@),
    }
}

/// A record after an unload: no VM, `Unloaded`, no load or use time, and the
/// back-off reset.
pub open spec fn unloaded(p: InstanceView) -> InstanceView {
    InstanceView {
        vm_id: None,
        state: StateView::Unloaded,
        loaded_at: None,
        last_used: None,
        retry_backoff_ms: INITIAL_BACKOFF_MS,
        retry_after: None,
        ..p
    }
}

/// The pool after dropping the VMs of the records, one after the other.
pub open spec fn pool_release_all<H>(r: PoolView<H>, s: Seq<InstanceView>) -> PoolView<H>
    decreases s.len(),
{
    if s.len() == 0 {
        r
    } else {
        pool_release(pool_release_all(r, s.drop_last()), s.last().vm_id)
    }
}

/// A plugin is evicted when it is `Ready` and unused for at least `timeout_secs`
/// (or never used).
pub open spec fn evictable(p: InstanceView, timeout_secs: u64, now: u64) -> bool {
    &&& p.state is Ready
    &&& match p.last_used {
        Some(t) => elapsed_secs(now, t) >= timeout_secs,
        None => true,
    }
}

/// The evictable plugins.
pub open spec fn evictable_at(timeout_secs: u64, now: u64) -> spec_fn(InstanceView) -> bool {
    |p: InstanceView| evictable(p, timeout_secs, now)
}

/// A record after an idle check: an evicted plugin loses its VM and load time and
/// goes to `Cached`.
pub open spec fn after_idle_check(p: InstanceView, timeout_secs: u64, now: u64) -> InstanceView {
    if evictable(p, timeout_secs, now) {
        InstanceView { vm_id: None, state: StateView::Cached, loaded_at: None, ..p }
    } else {
        p
    }
}

/// Whole seconds since an optional time.
pub open spec fn opt_elapsed(t: Option<u64>, now: u64) -> Option<u64> {
    match t {
        Some(x) => Some(elapsed_secs(now, x)),
        None => None,
    }
}

/// The message for a plugin without a VM.
pub open spec fn no_vm_message(id: Seq<char>) -> Seq<char> {
    "插件 "@ + id + " 未加载或 VM 未创建"@
}

/// The message for a plugin in a state that cannot run code.
pub open spec fn unavailable_message(id: Seq<char>, st: StateView) -> Seq<char> {
    "插件 "@ + id + " 当前状态不可用: "@ + state_debug_text(st)
}

/// The plugin loader.
pub struct PluginLoader<H> {
    plugins_dir: String,
    instances: Vec<PluginInstance>,
    quickjs_runtime: QuickJSRuntime<H>,
}

impl<H> View for PluginLoader<H> {
    type V = LoaderView<H>;

    open spec fn view(&self) -> LoaderView<H> {
        self.model()
    }
}

impl<H> PluginLoader<H> {
    /// The loader's directory, records and VM pool.
    pub closed spec fn model(&self) -> LoaderView<H> {
        LoaderView {
            plugins_dir: self.plugins_dir@,
            instances: instances_view(self.instances@),
            runtime: self.quickjs_runtime@,
        }
    }

    /// The loader's invariant.
    pub open spec fn wf(&self) -> bool {
        loader_wf(self@.instances)
    }

    /// A loader for the plugins under `plugins_dir`, running them in `runtime`.
    pub fn new(plugins_dir: String, runtime: QuickJSRuntime<H>) -> (r: Self)
        ensures
            r.wf(),
            r@.plugins_dir == plugins_dir@,
            r@.instances.len() == 0,
            r@.runtime == runtime@,
    {
        PluginLoader { plugins_dir, instances: Vec::new(), quickjs_runtime: runtime }
    }

    /// The VM pool.
    pub fn runtime(&self) -> (r: &QuickJSRuntime<H>)
        ensures
            r@ == self@.runtime,
    {
        &self.quickjs_runtime
    }

    /// The VM pool, for running code in a VM.
    pub fn runtime_mut(&mut self) -> (r: &mut QuickJSRuntime<H>)
        ensures
            r@ == old(self)@.runtime,
            final(self)@.instances == old(self)@.instances,
            final(self)@.plugins_dir == old(self)@.plugins_dir,
            final(self)@.runtime == final(r)@,
    {
        &mut self.quickjs_runtime
    }

    /// The directory that is scanned for plugins.
    pub fn plugins_dir(&self) -> (r: &str)
        ensures
            r@ == self@.plugins_dir,
    {
        self.plugins_dir.as_str()
    }

    /// How long a loaded plugin may stay unused before it is evicted, in seconds.
    pub fn idle_timeout_secs(&self) -> (r: u64)
        ensures
            r == 300,
    {
        300
    }

    fn position(&self, id: &str) -> (r: Option<usize>)
        requires
            self.wf(),
        ensures
            match r {
                Some(i) => i < self@.instances.len() && has_key(self@.instances, inst_id(), id@) && i == pos(
                    self@.instances,
                    id@,
                ) && self@.instances[i as int].id == id@,
                None => !has_key(self@.instances, inst_id(), id@),
            },
    {
        let ghost s = self@.instances;
        let mut i: usize = 0;
        while i < self.instances.len()
            invariant
                i <= self.instances@.len(),
                s == self@.instances,
                s == instances_view(self.instances@),
                s.len() == self.instances@.len(),
                loader_wf(s),
                forall|j: int| 0 <= j < i ==> s[j].id != id@,
            decreases self.instances.len() - i,
        {
            if str_eq(self.instances[i].id.as_str(), id) {
                proof {
                    lemma_key_index_unique(s, inst_id(), i as int);
                }
                return Some(i);
            }
            i = i + 1;
        }
        proof {
            if has_key(s, inst_id(), id@) {
                let k = choose|k: int| 0 <= k < s.len() && inst_id()(s[k]) == id@;
                assert(s[k].id != id@);
            }
        }
        None
    }

    /// The record of the plugin `id`, as a copy.
    pub fn get_plugin(&self, id: &str) -> (r: Option<PluginInstance>)
        requires
            self.wf(),
        ensures
            match r {
                Some(p) => find(self@.instances, id@) == Some(p@),
                None => find(self@.instances, id@) is None,
            },
    {
        match self.position(id) {
            Some(i) => Some(self.instances[i].clone()),
            None => None,
        }
    }

    /// Every plugin record, as copies.
    pub fn list_plugins(&self) -> (r: Vec<PluginInstance>)
        ensures
            instances_view(r@) == self@.instances,
    {
        let mut out: Vec<PluginInstance> = Vec::new();
        let mut i: usize = 0;
        while i < self.instances.len()
            invariant
                i <= self.instances@.len(),
                instances_view(out@) == self@.instances.take(i as int),
            decreases self.instances.len() - i,
        {
            let ghost before = out@;
            let c = self.instances[i].clone();
            out.push(c);
            assert(instances_view(out@) =~= instances_view(before).push(c@));
            assert(instances_view(out@) =~= self@.instances.take(i + 1));
            i = i + 1;
        }
        assert(self@.instances.take(self.instances.len() as int) =~= self@.instances);
        out
    }

    /// The manifest of every plugin.
    pub fn list_manifests(&self) -> (r: Vec<PluginManifest>)
        ensures
            r@.len() == self@.instances.len(),
            forall|i: int| 0 <= i < r@.len() ==> (#[trigger] r@[i])@ == self@.instances[i].manifest,
    {
        let mut out: Vec<PluginManifest> = Vec::new();
        let mut i: usize = 0;
        while i < self.instances.len()
            invariant
                i <= self.instances@.len(),
                out@.len() == i,
                forall|k: int| 0 <= k < i ==> (#[trigger] out@[k])@ == self@.instances[k].manifest,
            decreases self.instances.len() - i,
        {
            out.push(self.instances[i].manifest.clone());
            i = i + 1;
        }
        out
    }

    /// The plugins whose declared prefix, ignoring case, is a prefix of `prefix`
    /// or has it as a prefix.
    pub fn find_by_prefix(&self, prefix: &str) -> (r: Vec<PluginInstance>)
        ensures
            instances_view(r@) == keep(self@.instances, prefix_hits(prefix@)),
    {
        let ghost s = self@.instances;
        let ghost p = prefix_hits(prefix@);
        let query = to_lowercase(prefix);
        let mut out: Vec<PluginInstance> = Vec::new();
        let mut i: usize = 0;
        while i < self.instances.len()
            invariant
                s == self@.instances,
                p == prefix_hits(prefix@),
                query@ == lowercase_of(prefix@),
                i <= s.len(),
                instances_view(out@) == keep(s.take(i as int), p),
            decreases self.instances.len() - i,
        {
            let ghost before = out@;
            proof {
                let t = s.take(i + 1);
                assert(t.drop_last() =~= s.take(i as int));
                assert(t.last() == s[i as int]);
            }
            match &self.instances[i].manifest.prefix {
                Some(pre) => {
                    let low = to_lowercase(pre.as_str());
                    if starts_with(low.as_str(), query.as_str()) || starts_with(
                        query.as_str(),
                        low.as_str(),
                    ) {
                        out.push(self.instances[i].clone());
                        assert(instances_view(out@) =~= instances_view(before).push(s[i as int]));
                    }
                },
                None => {},
            }
            i = i + 1;
        }
        assert(s.take(s.len() as int) =~= s);
        out
    }

    /// Adds a record, replacing the one with the same id.
    fn upsert_instance(&mut self, p: PluginInstance)
        requires
            old(self).wf(),
            p.retry_backoff_ms <= MAX_BACKOFF_MS,
        ensures
            final(self).wf(),
            final(self)@.instances == upsert(old(self)@.instances, p@),
            final(self)@.runtime == old(self)@.runtime,
            final(self)@.plugins_dir == old(self)@.plugins_dir,
    {
        let ghost s = self@.instances;
        let ghost pv = p@;
        match self.position(p.id.as_str()) {
            Some(i) => {
                self.instances.set(i, p);
                assert(self@.instances =~= s.update(i as int, pv));
                proof {
                    lemma_update_unique(s, inst_id(), i as int, pv);
                }
            },
            None => {
                self.instances.push(p);
                assert(self@.instances =~= s.push(pv));
                proof {
                    lemma_push_unique(s, inst_id(), pv);
                }
            },
        }
        assert forall|k: int| 0 <= k < self@.instances.len() implies (
        #[trigger] self@.instances[k]).retry_backoff_ms <= MAX_BACKOFF_MS by {
            if k < s.len() && self@.instances[k] != pv {
                assert(self@.instances[k] == s[k]);
            }
        }
    }

    /// Registers the plugins found by a scan of the plugins directory.
    ///
    /// Each entry whose manifest was parsed and passes validation becomes a fresh
    /// record in state `MetaLoaded` (replacing any record with the same id), and its
    /// id is reported; the other entries are skipped.
    pub fn scan_plugins(&mut self, entries: Vec<ScannedPlugin>) -> (ids: Vec<String>)
        requires
            old(self).wf(),
        ensures
            final(self).wf(),
            final(self)@.instances == scan_into(old(self)@.instances, entries@.map_values(|e: ScannedPlugin| e@)),
            ids@.map_values(|x: String| x@) == scan_ids(entries@.map_values(|e: ScannedPlugin| e@)),
            final(self)@.runtime == old(self)@.runtime,
            final(self)@.plugins_dir == old(self)@.plugins_dir,
    {
        let ghost es = entries@.map_values(|e: ScannedPlugin| e@);
        let ghost s0 = self@.instances;
        let mut ids: Vec<String> = Vec::new();
        let mut i: usize = 0;
        while i < entries.len()
            invariant
                self.wf(),
                es == entries@.map_values(|e: ScannedPlugin| e@),
                i <= entries@.len(),
                self@.instances == scan_into(s0, es.take(i as int)),
                ids@.map_values(|x: String| x@) == scan_ids(es.take(i as int)),
                self@.runtime == old(self)@.runtime,
                self@.plugins_dir == old(self)@.plugins_dir,
            decreases entries.len() - i,
        {
            proof {
                let t = es.take(i + 1);
                assert(t.drop_last() =~= es.take(i as int));
                assert(t.last() == es[i as int]);
            }
            let e = &entries[i];
            let ghost ev = e@;
            assert(ev == es[i as int]);
            match &e.manifest {
                Ok(m) => {
                    match validate_manifest(m.clone()) {
                        Ok(v) => {
                            let ghost mv = v@;
                            let id = v.name.clone();
                            let ghost before = ids@;
                            ids.push(v.name.clone());
                            assert(ids@.map_values(|x: String| x@) =~= before.map_values(|x: String| x@).push(mv.name));
                            let inst = PluginInstance {
                                id,
                                manifest: v,
                                state: PluginState::MetaLoaded,
                                vm_id: None,
                                plugin_dir: e.dir.clone(),
                                loaded_at: None,
                                last_used: None,
                                registered_features: Vec::new(),
                                on_ready_callback: None,
                                on_out_callback: None,
                                load_error_count: 0,
                                max_retries: DEFAULT_MAX_RETRIES,
                                last_error: None,
                                retry_after: None,
                                retry_backoff_ms: INITIAL_BACKOFF_MS,
                            };
                            assert(registered_view(Seq::<RegisteredFeature>::empty()) =~= Seq::empty());
                            assert(inst@ =~= fresh_instance(mv, ev.dir));
                            self.upsert_instance(inst);
                        },
                        Err(_) => {},
                    }
                },
                Err(_) => {},
            }
            i = i + 1;
        }
        assert(es.take(entries.len() as int) =~= es);
        ids
    }

    /// Replaces the record at position `i` by one with the same id.
    fn replace_at(&mut self, i: usize, p: PluginInstance)
        requires
            old(self).wf(),
            i < old(self)@.instances.len(),
            p@.id == old(self)@.instances[i as int].id,
            p.retry_backoff_ms <= MAX_BACKOFF_MS,
        ensures
            final(self).wf(),
            final(self)@.instances == old(self)@.instances.update(i as int, p@),
            final(self)@.runtime == old(self)@.runtime,
            final(self)@.plugins_dir == old(self)@.plugins_dir,
    {
        let ghost s = self@.instances;
        let ghost pv = p@;
        self.instances.set(i, p);
        assert(self@.instances =~= s.update(i as int, pv));
        proof {
            lemma_update_unique(s, inst_id(), i as int, pv);
        }
        assert forall|k: int| 0 <= k < self@.instances.len() implies (
        #[trigger] self@.instances[k]).retry_backoff_ms <= MAX_BACKOFF_MS by {
            if k != i {
                assert(self@.instances[k] == s[k]);
            }
        }
    }

    fn step_of(p: &PluginInstance, now: u64) -> (r: LoadStep)
        ensures
            r == load_step(p@, now),
    {
        match &p.state {
            PluginState::Loading => LoadStep::Busy,
            PluginState::Ready => LoadStep::Ready,
            PluginState::Error(_) => {
                if p.load_error_count >= p.max_retries {
                    LoadStep::Exhausted
                } else {
                    match p.retry_after {
                        Some(t) => {
                            if now < t {
                                LoadStep::Cooling
                            } else {
                                LoadStep::Proceed
                            }
                        },
                        None => LoadStep::Proceed,
                    }
                }
            },
            _ => LoadStep::Proceed,
        }
    }

    /// Starts a load request for the plugin `id` at `now` (milliseconds).
    ///
    /// A plugin that is loading or ready is reported as it is (a ready one is marked
    /// used); one that failed as often as it may, or whose retry back-off has not
    /// elapsed, is refused. Otherwise the pool's idle VMs are dropped, the plugin
    /// goes to `Loading`, and the entry file to run is returned.
    pub fn begin_load(&mut self, id: &str, now: u64) -> (r: Result<LoadStart, String>)
        requires
            old(self).wf(),
        ensures
            final(self).wf(),
            final(self)@.plugins_dir == old(self)@.plugins_dir,
            find(old(self)@.instances, id@) is None ==> (r matches Err(e) && e@ == not_exist_message(id@)
                && final(self)@ == old(self)@),
            find(old(self)@.instances, id@) matches Some(p) ==> match load_step(p, now) {
                LoadStep::Busy => r matches Ok(LoadStart::Settled { state, vm_id }) && state@ == p.state
                    && opt_chars(vm_id) == p.vm_id && final(self)@ == old(self)@,
                LoadStep::Ready => r matches Ok(LoadStart::Settled { state, vm_id }) && state@ == p.state
                    && opt_chars(vm_id) == p.vm_id && final(self)@.runtime == old(self)@.runtime
                    && final(self)@.instances == old(self)@.instances.update(
                    pos(old(self)@.instances, id@),
                    InstanceView { last_used: Some(now), ..p },
                ),
                LoadStep::Exhausted => r matches Err(e) && e@ == retry_limit_message(
                    id@,
                    p.max_retries,
                    error_text(p.state),
                ) && final(self)@ == old(self)@,
                LoadStep::Cooling => r matches Err(e) && e@ == cooldown_message(
                    id@,
                    ((p.retry_after->0 - now) / 1000) as nat,
                ) && final(self)@ == old(self)@,
                LoadStep::Proceed => r matches Ok(LoadStart::Proceed { plugin_dir, entry })
                    && plugin_dir@ == p.plugin_dir && entry@ == entry_of(p.manifest.main)
                    && final(self)@.runtime == pool_cleaned(old(self)@.runtime, now)
                    && final(self)@.instances == old(self)@.instances.update(
                    pos(old(self)@.instances, id@),
                    InstanceView { state: StateView::Loading, last_used: Some(now), ..p },
                ),
            },
    {
        let i = match self.position(id) {
            None => {
                return Err(concat2("插件不存在: ", id));
            },
            Some(i) => i,
        };
        let ghost p = self@.instances[i as int];
        assert(find(self@.instances, id@) == Some(p));
        match Self::step_of(&self.instances[i], now) {
            LoadStep::Busy => {
                return Ok(
                    LoadStart::Settled {
                        state: self.instances[i].state.clone(),
                        vm_id: clone_opt_string(&self.instances[i].vm_id),
                    },
                );
            },
            LoadStep::Ready => {
                let mut inst = self.instances[i].clone();
                inst.last_used = Some(now);
                let state = inst.state.clone();
                let vm_id = clone_opt_string(&inst.vm_id);
                self.replace_at(i, inst);
                return Ok(LoadStart::Settled { state, vm_id });
            },
            LoadStep::Exhausted => {
                let mut msg = String::from_str("插件 ");
                msg.append(id);
                msg.append(" 加载失败次数已达上限 (");
                append_decimal(&mut msg, self.instances[i].max_retries as u128);
                msg.append("): ");
                match &self.instances[i].state {
                    PluginState::Error(m) => {
                        msg.append(m.as_str());
                    },
                    _ => {},
                }
                assert(msg@ =~= retry_limit_message(id@, p.max_retries, error_text(p.state)));
                return Err(msg);
            },
            LoadStep::Cooling => {
                let t = match self.instances[i].retry_after {
                    Some(t) => t,
                    None => now,
                };
                let mut msg = String::from_str("插件 ");
                msg.append(id);
                msg.append(" 重试冷却中，请等待 ");
                append_decimal(&mut msg, ((t - now) / 1000) as u128);
                msg.append(" 秒后再试");
                assert(msg@ =~= cooldown_message(id@, ((p.retry_after->0 - now) / 1000) as nat));
                return Err(msg);
            },
            LoadStep::Proceed => {},
        }
        let _ = self.quickjs_runtime.cleanup(now);
        let mut inst = self.instances[i].clone();
        inst.state = PluginState::Loading;
        inst.last_used = Some(now);
        let entry = match &inst.manifest.main {
            Some(m) => m.clone(),
            None => String::from_str("index.js"),
        };
        let plugin_dir = inst.plugin_dir.clone();
        assert(inst@ == InstanceView { state: StateView::Loading, last_used: Some(now), ..p });
        self.replace_at(i, inst);
        Ok(LoadStart::Proceed { plugin_dir, entry })
    }

    /// Puts a VM created at `now` for the plugin `id` into the pool, and records
    /// it as the plugin's VM; refuses when the plugin is unknown or the pool full.
    pub fn attach_vm(&mut self, id: &str, vm_id: String, engine: H, now: u64) -> (r: Result<(), String>)
        requires
            old(self).wf(),
        ensures
            final(self).wf(),
            final(self)@.plugins_dir == old(self)@.plugins_dir,
            find(old(self)@.instances, id@) is None ==> (r matches Err(e) && e@ == not_exist_message(id@)
                && final(self)@ == old(self)@),
            find(old(self)@.instances, id@) is Some && old(self)@.runtime.vms.len()
                >= old(self)@.runtime.config.max_vm_count ==> (r matches Err(e) && e@ == pool_full_message(
                old(self)@.runtime.config.max_vm_count,
                old(self)@.runtime.vms.len(),
            ) && final(self)@ == old(self)@),
            find(old(self)@.instances, id@) matches Some(p) ==> old(self)@.runtime.vms.len()
                < old(self)@.runtime.config.max_vm_count ==> (r is Ok && final(self)@.runtime.config
                == old(self)@.runtime.config && final(self)@.runtime.vms == old(self)@.runtime.vms.push(
                VmView { id: vm_id@, engine, created_at: now, last_used_at: now },
            ) && final(self)@.instances == old(self)@.instances.update(
                pos(old(self)@.instances, id@),
                InstanceView { vm_id: Some(vm_id@), ..p },
            )),
    {
        let i = match self.position(id) {
            None => {
                return Err(concat2("插件不存在: ", id));
            },
            Some(i) => i,
        };
        let ghost p = self@.instances[i as int];
        let count = self.quickjs_runtime.active_vm_count();
        let max = self.quickjs_runtime.config().max_vm_count;
        if count >= max {
            let mut msg = String::from_str("VM pool is full (max: ");
            append_decimal(&mut msg, max as u128);
            msg.append(", current: ");
            append_decimal(&mut msg, count as u128);
            msg.append(")");
            assert(msg@ =~= pool_full_message(max, count as nat));
            return Err(msg);
        }
        let mut inst = self.instances[i].clone();
        inst.vm_id = Some(vm_id.clone());
        assert(inst@ == InstanceView { vm_id: Some(vm_id@), ..p });
        self.replace_at(i, inst);
        self.quickjs_runtime.insert_vm(vm_id, engine, now);
        Ok(())
    }

    /// Records that a load of the plugin `id` stopped before its code ran: the
    /// plugin goes to `Error` with one more failure, and after a failed API
    /// installation its VM is dropped. Returns the message of the failure.
    pub fn fail_load(&mut self, id: &str, failure: LoadFailure) -> (msg: String)
        requires
            old(self).wf(),
            find(old(self)@.instances, id@) matches Some(p) ==> p.load_error_count < u32::MAX,
        ensures
            final(self).wf(),
            final(self)@.plugins_dir == old(self)@.plugins_dir,
            find(old(self)@.instances, id@) is None ==> (msg@ == not_exist_message(id@) && final(self)@
                == old(self)@),
            find(old(self)@.instances, id@) matches Some(p) ==> (msg@ == failure_message(failure)
                && final(self)@.instances == old(self)@.instances.update(
                pos(old(self)@.instances, id@),
                after_setup_failure(p, failure),
            ) && final(self)@.runtime == if failure is Inject {
                pool_release(old(self)@.runtime, p.vm_id)
            } else {
                old(self)@.runtime
            }),
    {
        let i = match self.position(id) {
            None => {
                return concat2("插件不存在: ", id);
            },
            Some(i) => i,
        };
        let ghost p = self@.instances[i as int];
        let mut inst = self.instances[i].clone();
        let msg = match &failure {
            LoadFailure::MissingEntry(path) => concat2("入口文件不存在: ", path.as_str()),
            LoadFailure::ReadEntry(e) => concat2("读取入口文件失败: ", e.as_str()),
            LoadFailure::CreateVm(e) => concat2("创建 VM 失败: ", e.as_str()),
            LoadFailure::Inject(e) => {
                match &inst.vm_id {
                    Some(v) => {
                        let _ = self.quickjs_runtime.destroy_vm(v.as_str());
                    },
                    None => {},
                }
                inst.vm_id = None;
                concat2("API 注入失败: ", e.as_str())
            },
        };
        inst.state = PluginState::Error(msg.clone());
        inst.load_error_count = inst.load_error_count + 1;
        assert(inst@ == after_setup_failure(p, failure));
        self.replace_at(i, inst);
        msg
    }

    /// Records how the run of the plugin's code went, at `now`.
    ///
    /// On success the plugin is `Ready`, loaded and used at `now`, with its failure
    /// count, last error and back-off reset; it is reported with its VM. On failure
    /// its VM is dropped, the failure is counted and kept as its last error, the
    /// next retry is allowed after the current back-off, which then doubles up to
    /// the cap, and the plugin goes to `Error`; the message says what is left of
    /// the retries.
    pub fn finish_load(&mut self, id: &str, outcome: Result<(), String>, now: u64) -> (r: Result<
        (PluginState, Option<String>),
        String,
    >)
        requires
            old(self).wf(),
            find(old(self)@.instances, id@) matches Some(p) ==> p.load_error_count < u32::MAX,
            now <= u64::MAX - MAX_BACKOFF_MS,
        ensures
            final(self).wf(),
            final(self)@.plugins_dir == old(self)@.plugins_dir,
            find(old(self)@.instances, id@) is None ==> (r matches Err(e) && e@ == not_exist_message(id@)
                && final(self)@ == old(self)@),
            find(old(self)@.instances, id@) matches Some(p) ==> final(self)@.instances
                == old(self)@.instances.update(
                pos(old(self)@.instances, id@),
                after_run(p, outcome_view(outcome), now),
            ),
            find(old(self)@.instances, id@) matches Some(p) ==> outcome is Ok ==> (r matches Ok(
                (st, vm),
            ) && st@ == StateView::Ready && opt_chars(vm) == p.vm_id && final(self)@.runtime == old(
                self,
            )@.runtime),
            find(old(self)@.instances, id@) matches Some(p) ==> outcome matches Err(e) ==> (r matches Err(
                m,
            ) && m@ == run_failure_message(e@) + retry_info(
                (p.load_error_count + 1) as nat,
                p.max_retries,
                p.retry_backoff_ms,
            ) && final(self)@.runtime == pool_release(old(self)@.runtime, p.vm_id)),
    {
        let i = match self.position(id) {
            None => {
                return Err(concat2("插件不存在: ", id));
            },
            Some(i) => i,
        };
        let ghost p = self@.instances[i as int];
        let mut inst = self.instances[i].clone();
        match outcome {
            Ok(()) => {
                inst.state = PluginState::Ready;
                inst.loaded_at = Some(now);
                inst.last_used = Some(now);
                inst.load_error_count = 0;
                inst.last_error = None;
                inst.retry_after = None;
                inst.retry_backoff_ms = INITIAL_BACKOFF_MS;
                let vm = clone_opt_string(&inst.vm_id);
                assert(inst@ == after_run(p, outcome_view(outcome), now));
                self.replace_at(i, inst);
                Ok((PluginState::Ready, vm))
            },
            Err(e) => {
                match &inst.vm_id {
                    Some(v) => {
                        let _ = self.quickjs_runtime.destroy_vm(v.as_str());
                    },
                    None => {},
                }
                inst.vm_id = None;
                let msg = concat2("执行插件代码失败: ", e.as_str());
                inst.last_error = Some(msg.clone());
                inst.load_error_count = inst.load_error_count + 1;
                let backoff = inst.retry_backoff_ms;
                inst.retry_backoff_ms = if backoff * 2 <= MAX_BACKOFF_MS {
                    backoff * 2
                } else {
                    MAX_BACKOFF_MS
                };
                inst.retry_after = Some(now + backoff);
                let mut full = msg.clone();
                if inst.load_error_count < inst.max_retries {
                    full.append(" 将在 ");
                    append_decimal(&mut full, backoff as u128);
                    full.append("ms 后允许重试 (剩余 ");
                    append_decimal(&mut full, (inst.max_retries - inst.load_error_count) as u128);
                    full.append(" 次)");
                } else {
                    full.append(" 已达到最大重试次数，不再自动重试");
                }
                inst.state = PluginState::Error(msg);
                assert(full@ =~= run_failure_message(e@) + retry_info(
                    (p.load_error_count + 1) as nat,
                    p.max_retries,
                    p.retry_backoff_ms,
                ));
                assert(inst@ == after_run(p, outcome_view(Err(e)), now));
                self.replace_at(i, inst);
                Err(full)
            },
        }
    }

    fn release_vm(&mut self, vm_id: &Option<String>)
        ensures
            final(self)@.runtime == pool_release(old(self)@.runtime, opt_chars(*vm_id)),
            final(self)@.instances == old(self)@.instances,
            final(self)@.plugins_dir == old(self)@.plugins_dir,
    {
        match vm_id {
            Some(v) => {
                let _ = self.quickjs_runtime.destroy_vm(v.as_str());
            },
            None => {},
        }
    }

    /// Unloads the plugin `id`: drops its VM, and leaves it `Unloaded` with no load
    /// or use time and its back-off reset.
    pub fn unload_plugin(&mut self, id: &str) -> (r: Result<(), String>)
        requires
            old(self).wf(),
        ensures
            final(self).wf(),
            final(self)@.plugins_dir == old(self)@.plugins_dir,
            find(old(self)@.instances, id@) is None ==> (r matches Err(e) && e@ == not_exist_message(id@)
                && final(self)@ == old(self)@),
            find(old(self)@.instances, id@) matches Some(p) ==> (r is Ok && final(self)@.instances
                == old(self)@.instances.update(pos(old(self)@.instances, id@), unloaded(p))
                && final(self)@.runtime == pool_release(old(self)@.runtime, p.vm_id)),
    {
        let i = match self.position(id) {
            None => {
                return Err(concat2("插件不存在: ", id));
            },
            Some(i) => i,
        };
        let ghost p = self@.instances[i as int];
        self.unload_at(i);
        Ok(())
    }

    fn unload_at(&mut self, i: usize)
        requires
            old(self).wf(),
            i < old(self)@.instances.len(),
        ensures
            final(self).wf(),
            final(self)@.plugins_dir == old(self)@.plugins_dir,
            final(self)@.instances == old(self)@.instances.update(i as int, unloaded(old(self)@.instances[i as int])),
            final(self)@.runtime == pool_release(old(self)@.runtime, old(self)@.instances[i as int].vm_id),
    {
        let ghost p = self@.instances[i as int];
        let mut inst = self.instances[i].clone();
        self.release_vm(&inst.vm_id);
        inst.vm_id = None;
        inst.state = PluginState::Unloaded;
        inst.loaded_at = None;
        inst.last_used = None;
        inst.retry_backoff_ms = INITIAL_BACKOFF_MS;
        inst.retry_after = None;
        assert(inst@ == unloaded(p));
        self.replace_at(i, inst);
    }

    /// Unloads every plugin, one after the other.
    pub fn unload_all(&mut self) -> (r: Result<(), String>)
        requires
            old(self).wf(),
        ensures
            final(self).wf(),
            r is Ok,
            final(self)@.plugins_dir == old(self)@.plugins_dir,
            final(self)@.instances == old(self)@.instances.map_values(|p: InstanceView| unloaded(p)),
            final(self)@.runtime == pool_release_all(old(self)@.runtime, old(self)@.instances),
    {
        let ghost s = self@.instances;
        let ghost r0 = self@.runtime;
        let mut i: usize = 0;
        while i < self.instances.len()
            invariant
                self.wf(),
                self@.plugins_dir == old(self)@.plugins_dir,
                self@.instances.len() == s.len(),
                i <= s.len(),
                forall|k: int| 0 <= k < i ==> self@.instances[k] == unloaded(s[k]),
                forall|k: int| i <= k < s.len() ==> self@.instances[k] == s[k],
                self@.runtime == pool_release_all(r0, s.take(i as int)),
                self.instances@.len() == s.len(),
            decreases s.len() - i,
        {
            proof {
                let t = s.take(i + 1);
                assert(t.drop_last() =~= s.take(i as int));
                assert(t.last() == s[i as int]);
            }
            self.unload_at(i);
            assert(instances_view(self.instances@).len() == self.instances@.len());
            i = i + 1;
        }
        assert(s.take(s.len() as int) =~= s);
        assert(self@.instances =~= s.map_values(|p: InstanceView| unloaded(p)));
        Ok(())
    }

    /// Evicts every `Ready` plugin unused for at least `idle_timeout_secs` at `now`
    /// (or never used): its VM is dropped and it goes to `Cached`. Returns how many.
    pub fn cleanup_idle_plugins(&mut self, idle_timeout_secs: u64, now: u64) -> (n: usize)
        requires
            old(self).wf(),
        ensures
            final(self).wf(),
            final(self)@.plugins_dir == old(self)@.plugins_dir,
            final(self)@.instances == old(self)@.instances.map_values(
                |p: InstanceView| after_idle_check(p, idle_timeout_secs, now),
            ),
            final(self)@.runtime == pool_release_all(
                old(self)@.runtime,
                keep(old(self)@.instances, evictable_at(idle_timeout_secs, now)),
            ),
            n == keep(old(self)@.instances, evictable_at(idle_timeout_secs, now)).len(),
    {
        let ghost s = self@.instances;
        let ghost r0 = self@.runtime;
        let ghost sel = evictable_at(idle_timeout_secs, now);
        let mut n: usize = 0;
        let mut i: usize = 0;
        while i < self.instances.len()
            invariant
                self.wf(),
                sel == evictable_at(idle_timeout_secs, now),
                self@.plugins_dir == old(self)@.plugins_dir,
                self@.instances.len() == s.len(),
                i <= s.len(),
                forall|k: int| 0 <= k < i ==> self@.instances[k] == after_idle_check(s[k], idle_timeout_secs, now),
                forall|k: int| i <= k < s.len() ==> self@.instances[k] == s[k],
                self@.runtime == pool_release_all(r0, keep(s.take(i as int), sel)),
                n == keep(s.take(i as int), sel).len(),
                n <= i,
                self.instances@.len() == s.len(),
            decreases s.len() - i,
        {
            proof {
                let t = s.take(i + 1);
                assert(t.drop_last() =~= s.take(i as int));
                assert(t.last() == s[i as int]);
            }
            let ghost p = s[i as int];
            let ready = match &self.instances[i].state {
                PluginState::Ready => true,
                _ => false,
            };
            let stale = match self.instances[i].last_used {
                Some(t) => elapsed_seconds(now, t) >= idle_timeout_secs,
                None => true,
            };
            if ready && stale {
                let mut inst = self.instances[i].clone();
                let ghost before = self@.runtime;
                self.release_vm(&inst.vm_id);
                inst.vm_id = None;
                inst.state = PluginState::Cached;
                inst.loaded_at = None;
                assert(inst@ == after_idle_check(p, idle_timeout_secs, now));
                self.replace_at(i, inst);
                proof {
                    let kk = keep(s.take(i as int), sel);
                    assert(keep(s.take(i + 1), sel) == kk.push(p));
                    assert(kk.push(p).drop_last() =~= kk);
                }
                n = n + 1;
            } else {
                assert(after_idle_check(p, idle_timeout_secs, now) == p);
            }
            assert(instances_view(self.instances@).len() == self.instances@.len());
            i = i + 1;
        }
        assert(s.take(s.len() as int) =~= s);
        assert(self@.instances =~= s.map_values(|p: InstanceView| after_idle_check(p, idle_timeout_secs, now)));
        n
    }

    /// A health summary of every plugin at `now`: its id, state, VM, the seconds
    /// since it was loaded and used, its failure count and its last error.
    pub fn get_plugin_health(&self, now: u64) -> (r: Vec<PluginHealth>)
        ensures
            r@.len() == self@.instances.len(),
            forall|i: int|
                0 <= i < r@.len() ==> {
                    let h = #[trigger] r@[i];
                    let p = self@.instances[i];
                    &&& h.id@ == p.id
                    &&& h.state@ == state_display_text(p.state)
                    &&& opt_chars(h.vm_id) == p.vm_id
                    &&& h.loaded_at == opt_elapsed(p.loaded_at, now)
                    &&& h.last_used == opt_elapsed(p.last_used, now)
                    &&& h.error_count == p.load_error_count
                    &&& opt_chars(h.last_error) == p.last_error
                },
    {
        let mut out: Vec<PluginHealth> = Vec::new();
        let mut i: usize = 0;
        while i < self.instances.len()
            invariant
                i <= self.instances@.len(),
                out@.len() == i,
                forall|k: int|
                    0 <= k < i ==> {
                        let h = #[trigger] out@[k];
                        let p = self@.instances[k];
                        &&& h.id@ == p.id
                        &&& h.state@ == state_display_text(p.state)
                        &&& opt_chars(h.vm_id) == p.vm_id
                        &&& h.loaded_at == opt_elapsed(p.loaded_at, now)
                        &&& h.last_used == opt_elapsed(p.last_used, now)
                        &&& h.error_count == p.load_error_count
                        &&& opt_chars(h.last_error) == p.last_error
                    },
            decreases self.instances.len() - i,
        {
            let inst = &self.instances[i];
            let loaded_at = match inst.loaded_at {
                Some(t) => Some(elapsed_seconds(now, t)),
                None => None,
            };
            let last_used = match inst.last_used {
                Some(t) => Some(elapsed_seconds(now, t)),
                None => None,
            };
            out.push(
                PluginHealth {
                    id: inst.id.clone(),
                    state: inst.state.to_display_string(),
                    vm_id: clone_opt_string(&inst.vm_id),
                    loaded_at,
                    last_used,
                    error_count: inst.load_error_count,
                    last_error: clone_opt_string(&inst.last_error),
                },
            );
            i = i + 1;
        }
        out
    }

    /// The VM in which code of the plugin `plugin_id` may run: the plugin must
    /// exist, have a VM, and be `Ready` or `Cached`.
    pub fn executable_vm(&self, plugin_id: &str) -> (r: Result<String, String>)
        requires
            self.wf(),
        ensures
            match find(self@.instances, plugin_id@) {
                None => r matches Err(e) && e@ == not_exist_message(plugin_id@),
                Some(p) => match p.vm_id {
                    None => r matches Err(e) && e@ == no_vm_message(plugin_id@),
                    Some(v) => if is_active(p.state) {
                        r matches Ok(x) && x@ == v
                    } else {
                        r matches Err(e) && e@ == unavailable_message(plugin_id@, p.state)
                    },
                },
            },
    {
        let i = match self.position(plugin_id) {
            None => {
                return Err(concat2("插件不存在: ", plugin_id));
            },
            Some(i) => i,
        };
        let inst = &self.instances[i];
        match &inst.vm_id {
            None => {
                let mut msg = String::from_str("插件 ");
                msg.append(plugin_id);
                msg.append(" 未加载或 VM 未创建");
                Err(msg)
            },
            Some(v) => {
                if inst.state.is_active_state() {
                    Ok(v.clone())
                } else {
                    let mut msg = String::from_str("插件 ");
                    msg.append(plugin_id);
                    msg.append(" 当前状态不可用: ");
                    let d = inst.state.to_debug_string();
                    msg.append(d.as_str());
                    Err(msg)
                }
            },
        }
    }

    /// How many plugins are `Ready` or `Cached`.
    pub fn loaded_count(&self) -> (n: usize)
        ensures
            n == keep(self@.instances, loaded()).len(),
    {
        let ghost s = self@.instances;
        let mut n: usize = 0;
        let mut i: usize = 0;
        while i < self.instances.len()
            invariant
                s == self@.instances,
                i <= s.len(),
                n == keep(s.take(i as int), loaded()).len(),
                n <= i,
            decreases self.instances.len() - i,
        {
            proof {
                let t = s.take(i + 1);
                assert(t.drop_last() =~= s.take(i as int));
                assert(t.last() == s[i as int]);
            }
            if self.instances[i].state.is_active_state() {
                n = n + 1;
            }
            i = i + 1;
        }
        assert(s.take(s.len() as int) =~= s);
        n
    }

    /// How many plugins are known.
    pub fn total_count(&self) -> (n: usize)
        ensures
            n == self@.instances.len(),
    {
        self.instances.len()
    }
}

} // verus!

verus! {

/// After an unload, a load request for the plugin proceeds.
pub proof fn law_load_after_unload(p: InstanceView, now: u64)
    ensures
        load_step(unloaded(p), now) == LoadStep::Proceed,
        unloaded(p).vm_id is None,
        unloaded(p).retry_backoff_ms == INITIAL_BACKOFF_MS,
{
}

/// After a failed run at `now` that leaves retries, a load request is refused
/// until the back-off that was in force has elapsed, and proceeds from then on;
/// the back-off doubles up to the cap.
pub proof fn law_retry_after_backoff(p: InstanceView, e: Seq<char>, now: u64, later: u64)
    requires
        p.load_error_count + 1 < p.max_retries,
        p.retry_backoff_ms <= MAX_BACKOFF_MS,
        now + p.retry_backoff_ms <= u64::MAX,
    ensures
        later < now + p.retry_backoff_ms ==> load_step(after_run(p, Err(e), now), later) == LoadStep::Cooling,
        later >= now + p.retry_backoff_ms ==> load_step(after_run(p, Err(e), now), later) == LoadStep::Proceed,
        after_run(p, Err(e), now).retry_backoff_ms == if 2 * p.retry_backoff_ms <= MAX_BACKOFF_MS {
            2 * p.retry_backoff_ms
        } else {
            MAX_BACKOFF_MS as int
        },
        after_run(p, Err(e), now).retry_backoff_ms <= MAX_BACKOFF_MS,
{
}

/// Once a failed run brings the failures to the allowed number, every load request
/// is refused, whenever it comes.
pub proof fn law_exhausted_refused(p: InstanceView, e: Seq<char>, now: u64, later: u64)
    requires
        p.load_error_count + 1 >= p.max_retries,
        p.load_error_count < u32::MAX,
    ensures
        load_step(after_run(p, Err(e), now), later) == LoadStep::Exhausted,
{
}

/// A successful run leaves the plugin ready, with no failures counted, no pending
/// retry and the initial back-off; a load request then reports it as it is.
pub proof fn law_success_resets(p: InstanceView, now: u64, later: u64)
    ensures
        after_run(p, Ok(()), now).state == StateView::Ready,
        after_run(p, Ok(()), now).load_error_count == 0,
        after_run(p, Ok(()), now).retry_after is None,
        after_run(p, Ok(()), now).retry_backoff_ms == INITIAL_BACKOFF_MS,
        load_step(after_run(p, Ok(()), now), later) == LoadStep::Ready,
{
}

/// After an idle check no plugin is left evictable, and only `Ready` plugins
/// change.
pub proof fn law_idle_check_settles(p: InstanceView, timeout_secs: u64, now: u64)
    ensures
        !evictable(after_idle_check(p, timeout_secs, now), timeout_secs, now),
        !(p.state is Ready) ==> after_idle_check(p, timeout_secs, now) == p,
        after_idle_check(after_idle_check(p, timeout_secs, now), timeout_secs, now) == after_idle_check(
            p,
            timeout_secs,
            now,
        ),
{
}

/// A plugin that cannot run code (no VM, or not `Ready`/`Cached`) is refused,
/// and after an unload it has no VM.
pub proof fn law_unloaded_cannot_run(p: InstanceView)
    ensures
        unloaded(p).vm_id is None,
        !is_active(unloaded(p).state),
{
}

} // verus!

verus! {

/// Upserting keeps ids unique, adds the record's id, finds the record under its
/// id, and leaves every other id as it was.
proof fn lemma_upsert(r: Seq<InstanceView>, q: InstanceView, k: Seq<char>)
    requires
        unique_by(r, inst_id()),
    ensures
        unique_by(upsert(r, q), inst_id()),
        has_key(upsert(r, q), inst_id(), k) <==> (has_key(r, inst_id(), k) || k == q.id),
        find(upsert(r, q), q.id) == Some(q),
        k != q.id ==> find(upsert(r, q), k) == find(r, k),
{
    let u = upsert(r, q);
    if has_key(r, inst_id(), q.id) {
        let i = pos(r, q.id);
        lemma_update_unique(r, inst_id(), i, q);
        lemma_key_index_unique(u, inst_id(), i);
        assert(u[i] == q);
        if has_key(r, inst_id(), k) {
            let j = pos(r, k);
            if j != i {
                assert(u[j] == r[j]);
                lemma_key_index_unique(u, inst_id(), j);
            }
        }
        if has_key(u, inst_id(), k) {
            let j = choose|j: int| 0 <= j < u.len() && inst_id()(u[j]) == k;
            if j != i {
                assert(u[j] == r[j]);
            }
        }
    } else {
        lemma_push_unique(r, inst_id(), q);
        let i = r.len() as int;
        lemma_key_index_unique(u, inst_id(), i);
        if has_key(r, inst_id(), k) {
            let j = pos(r, k);
            assert(u[j] == r[j]);
            lemma_key_index_unique(u, inst_id(), j);
        }
        if has_key(u, inst_id(), k) {
            let j = choose|j: int| 0 <= j < u.len() && inst_id()(u[j]) == k;
            if j != i {
                assert(u[j] == r[j]);
            }
        }
    }
}

/// A scan keeps plugin ids unique.
proof fn lemma_scan_unique(s: Seq<InstanceView>, entries: Seq<ScannedView>)
    requires
        unique_by(s, inst_id()),
    ensures
        unique_by(scan_into(s, entries), inst_id()),
    decreases entries.len(),
{
    if entries.len() > 0 {
        lemma_scan_unique(s, entries.drop_last());
        let r = scan_into(s, entries.drop_last());
        match scanned_manifest(entries.last()) {
            Some(m) => {
                lemma_upsert(r, fresh_instance(m, entries.last().dir), m.name);
            },
            None => {},
        }
    }
}

/// After a scan, every plugin whose manifest was valid is registered under its
/// name, fresh: `MetaLoaded`, without a VM and with no failures counted.
pub proof fn law_scan_registers(s: Seq<InstanceView>, entries: Seq<ScannedView>, j: int)
    requires
        unique_by(s, inst_id()),
        0 <= j < entries.len(),
        scanned_manifest(entries[j]) is Some,
    ensures
        find(scan_into(s, entries), scanned_manifest(entries[j])->0.name) matches Some(p) && p.state
            == StateView::MetaLoaded && p.vm_id is None && p.load_error_count == 0 && p.id
            == scanned_manifest(entries[j])->0.name,
    decreases entries.len(),
{
    let d = entries.drop_last();
    let r = scan_into(s, d);
    let name = scanned_manifest(entries[j])->0.name;
    lemma_scan_unique(s, d);
    if j < entries.len() - 1 {
        assert(d[j] == entries[j]);
        law_scan_registers(s, d, j);
    }
    match scanned_manifest(entries.last()) {
        Some(m) => {
            lemma_upsert(r, fresh_instance(m, entries.last().dir), name);
        },
        None => {},
    }
}

} // verus!

verus! {

/// Idleness is measured from a plugin's last use: an idle check leaves a plugin
/// used less than `timeout_secs` seconds before `now` exactly as it is, and turns a
/// `Ready` plugin whose last use is at least that long ago into `Cached` without
/// its VM and load time. When it was loaded plays no part.
pub proof fn law_idle_measured_from_last_use(p: InstanceView, timeout_secs: u64, now: u64, t: u64)
    requires
        p.last_used == Some(t),
    ensures
        t <= now && now < t + 1000 * timeout_secs ==> after_idle_check(p, timeout_secs, now) == p,
        p.state is Ready && now >= t + 1000 * timeout_secs ==> {
            &&& after_idle_check(p, timeout_secs, now).state is Cached
            &&& after_idle_check(p, timeout_secs, now).vm_id is None
            &&& after_idle_check(p, timeout_secs, now).loaded_at is None
            &&& after_idle_check(p, timeout_secs, now).last_used == Some(t)
        },
        forall|x: Option<u64>|
            #[trigger] after_idle_check(InstanceView { loaded_at: x, ..p }, timeout_secs, now).state
                == after_idle_check(p, timeout_secs, now).state,
{
    if t <= now && now < t + 1000 * timeout_secs {
        assert((now - t) / 1000 < timeout_secs) by (nonlinear_arith)
            requires
                0 <= now - t < 1000 * timeout_secs,
        ;
    }
    if now >= t + 1000 * timeout_secs {
        assert((now - t) / 1000 >= timeout_secs) by (nonlinear_arith)
            requires
                now - t >= 1000 * timeout_secs,
        ;
    }
}

/// A `Ready` plugin that was never used is evicted by any idle check.
pub proof fn law_never_used_evicted(p: InstanceView, timeout_secs: u64, now: u64)
    requires
        p.state is Ready,
        p.last_used is None,
    ensures
        after_idle_check(p, timeout_secs, now).state is Cached,
        after_idle_check(p, timeout_secs, now).vm_id is None,
{
}

/// What a load request does by state: a plugin that is `MetaLoaded`, `Cached` or
/// `Unloaded` is loaded (a cached plugin lost its VM and is loaded again); a
/// loading plugin is reported busy; a ready one is reported as it is; a failed one
/// is loaded again only while failures are under the limit and no back-off is
/// pending.
pub proof fn law_load_step_by_state(p: InstanceView, now: u64)
    ensures
        (p.state is MetaLoaded || p.state is Cached || p.state is Unloaded) ==> load_step(p, now)
            == LoadStep::Proceed,
        p.state is Loading ==> load_step(p, now) == LoadStep::Busy,
        p.state is Ready ==> load_step(p, now) == LoadStep::Ready,
        p.state is Error ==> (load_step(p, now) == LoadStep::Proceed <==> (p.load_error_count < p.max_retries
            && (p.retry_after is None || p.retry_after->0 <= now))),
        load_step(p, now) == LoadStep::Exhausted ==> p.state is Error && p.load_error_count >= p.max_retries,
        load_step(p, now) == LoadStep::Cooling ==> p.state is Error && p.retry_after is Some && now
            < p.retry_after->0,
{
}

/// An evicted plugin is loaded again on the next request.
pub proof fn law_evicted_plugin_reloads(p: InstanceView, timeout_secs: u64, now: u64, later: u64)
    requires
        evictable(p, timeout_secs, now),
    ensures
        load_step(after_idle_check(p, timeout_secs, now), later) == LoadStep::Proceed,
{
}

} // verus!
