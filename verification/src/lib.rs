//! Corelia: the plugin registry, plugin lifecycle, VM pool and configuration
//! rules of a launcher with QuickJS plugins and WASM patches.

pub mod text;
pub mod error;
pub mod state;
pub mod manifest;
pub mod instance;
pub mod seqs;
pub mod registry;
pub mod wasm_bridge;
pub mod quickjs_runtime;
pub mod loader;
pub mod hot_reload;
pub mod json;
pub mod services;
pub mod shortcut;
pub mod crypto;
pub mod bridge;
