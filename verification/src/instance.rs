//! A plugin's run-time record, and the summaries reported about it.

use vstd::prelude::*;
use crate::manifest::ManifestView;
use crate::manifest::PluginManifest;
use crate::manifest::RegisteredFeature;
use crate::manifest::RegisteredFeatureView;
use crate::manifest::clone_opt_string;
use crate::manifest::clone_registered;
use crate::manifest::opt_chars;
use crate::manifest::registered_view;
use crate::state::PluginState;
use crate::state::StateView;

verus! {

/// The value of a plugin's run-time record.
pub struct InstanceView {
    pub id: Seq<char>,
    pub manifest: ManifestView,
    pub state: StateView,
    pub vm_id: Option<Seq<char>>,
    pub plugin_dir: Seq<char>,
    pub loaded_at: Option<u64>,
    pub last_used: Option<u64>,
    pub registered_features: Seq<RegisteredFeatureView>,
    pub on_ready_callback: Option<Seq<char>>,
    pub on_out_callback: Option<Seq<char>>,
    pub load_error_count: u32,
    pub max_retries: u32,
    pub last_error: Option<Seq<char>>,
    pub retry_after: Option<u64>,
    pub retry_backoff_ms: u64,
}

/// A plugin's run-time record. Times are milliseconds on the host's monotonic clock.
#[derive(Debug)]
pub struct PluginInstance {
    pub id: String,
    pub manifest: PluginManifest,
    pub state: PluginState,
    pub vm_id: Option<String>,
    pub plugin_dir: String,
    pub loaded_at: Option<u64>,
    pub last_used: Option<u64>,
    pub registered_features: Vec<RegisteredFeature>,
    pub on_ready_callback: Option<String>,
    pub on_out_callback: Option<String>,
    pub load_error_count: u32,
    pub max_retries: u32,
    pub last_error: Option<String>,
    pub retry_after: Option<u64>,
    pub retry_backoff_ms: u64,
}

impl View for PluginInstance {
    type V = InstanceView;

    open spec fn view(&self) -> InstanceView {
        InstanceView {
            id: self.id@,
            manifest: self.manifest@,
            state: self.state@,
            vm_id: opt_chars(self.vm_id),
            plugin_dir: self.plugin_dir@,
            loaded_at: self.loaded_at,
            last_used: self.last_used,
            registered_features: registered_view(self.registered_features@),
            on_ready_callback: opt_chars(self.on_ready_callback),
            on_out_callback: opt_chars(self.on_out_callback),
            load_error_count: self.load_error_count,
            max_retries: self.max_retries,
            last_error: opt_chars(self.last_error),
            retry_after: self.retry_after,
            retry_backoff_ms: self.retry_backoff_ms,
        }
    }
}

impl Clone for PluginInstance {
    fn clone(&self) -> (r: Self)
        ensures
            r@ == self@,
    {
        PluginInstance {
            id: self.id.clone(),
            manifest: self.manifest.clone(),
            state: self.state.clone(),
            vm_id: clone_opt_string(&self.vm_id),
            plugin_dir: self.plugin_dir.clone(),
            loaded_at: self.loaded_at,
            last_used: self.last_used,
            registered_features: clone_registered(&self.registered_features),
            on_ready_callback: clone_opt_string(&self.on_ready_callback),
            on_out_callback: clone_opt_string(&self.on_out_callback),
            load_error_count: self.load_error_count,
            max_retries: self.max_retries,
            last_error: clone_opt_string(&self.last_error),
            retry_after: self.retry_after,
            retry_backoff_ms: self.retry_backoff_ms,
        }
    }
}

/// The values of a list of plugin records.
pub open spec fn instances_view(v: Seq<PluginInstance>) -> Seq<InstanceView> {
    v.map_values(|x: PluginInstance| x@)
}

/// Summary of a plugin's health, for a monitoring panel. Ages are in seconds.
#[derive(Debug)]
pub struct PluginHealth {
    pub id: String,
    pub state: String,
    pub vm_id: Option<String>,
    pub loaded_at: Option<u64>,
    pub last_used: Option<u64>,
    pub error_count: u32,
    pub last_error: Option<String>,
}

/// What a load request answers: the state reached, and the VM that serves the plugin.
#[derive(Debug)]
pub struct LoadResult {
    pub state: String,
    pub vm_id: Option<String>,
}

} // verus!
