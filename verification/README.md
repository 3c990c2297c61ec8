# corelia

The core of Corelia, a desktop launcher whose plugins run in QuickJS VMs and may
call WebAssembly patches. The library is written in Verus: every function carries
a contract that Verus proves.

## Layout

- `src/` — the verified library
  - `registry.rs` — the plugin registry: lookup by name and prefix, lifecycle
    transitions
  - `loader.rs` — the plugin loader: scanning, the load steps with retries and
    back-off, unloading, idle eviction, health reports
  - `quickjs_runtime.rs` — the VM pool: limits, idle and forced cleanup, VM ids
  - `wasm_bridge.rs` — registered WASM functions, loaded patches, pending results
  - `hot_reload.rs` — which plugins appeared or disappeared between scans
  - `services.rs`, `json.rs` — window visibility, shell commands, the store, the
    three configuration layers and their validation
  - `shortcut.rs` — parsing global shortcuts such as `Ctrl+Shift+K`
  - `crypto.rs` — Base64 and SHA-256 for plugins
  - `bridge.rs` — the decisions behind the plugin API (`window.utools`)
  - `state.rs`, `manifest.rs`, `instance.rs`, `error.rs`, `text.rs`, `seqs.rs` —
    shared types, messages and sequence facts
- `tests/` — tests of the library on concrete values
- `app/` — the host: file system, the QuickJS engine, clipboard, processes, HTTP

Times handed to the library are milliseconds on a monotonic clock chosen by the
host. Laws of the library are the `law_*` proof functions.
