//! The plugin lifecycle state and its transition rules.

use vstd::prelude::*;
use vstd::string::*;
use crate::text::concat3;
use crate::text::debug_quoted;
use crate::text::debug_string;

verus! {

/// Runtime state of a plugin.
#[derive(Debug)]
pub enum PluginState {
    MetaLoaded,
    Loading,
    Ready,
    Cached,
    Unloaded,
    Error(String),
}

/// The mathematical value of a plugin state: the message of `Error` by its characters.
pub enum StateView {
    MetaLoaded,
    Loading,
    Ready,
    Cached,
    Unloaded,
    Error(Seq<char>),
}

impl View for PluginState {
    type V = StateView;

    open spec fn view(&self) -> StateView {
        match self {
            PluginState::MetaLoaded => StateView::MetaLoaded,
            PluginState::Loading => StateView::Loading,
            PluginState::Ready => StateView::Ready,
            PluginState::Cached => StateView::Cached,
            PluginState::Unloaded => StateView::Unloaded,
            PluginState::Error(m) => StateView::Error(m@),
        }
    }
}

impl Clone for PluginState {
    fn clone(&self) -> (r: Self)
        ensures
            r == *self,
    {
        match self {
            PluginState::MetaLoaded => PluginState::MetaLoaded,
            PluginState::Loading => PluginState::Loading,
            PluginState::Ready => PluginState::Ready,
            PluginState::Cached => PluginState::Cached,
            PluginState::Unloaded => PluginState::Unloaded,
            PluginState::Error(m) => PluginState::Error(m.clone()),
        }
    }
}

/// A state in which the plugin can serve requests: `Ready` or `Cached`.
pub open spec fn is_active(s: StateView) -> bool {
    s is Ready || s is Cached
}

/// The lifecycle's transition relation:
/// MetaLoaded -> Loading | Unloaded; Loading -> Ready | Cached | Error;
/// Ready -> Cached | Unloaded | Error; Cached -> Loading | Unloaded;
/// Unloaded -> Loading; Error -> Loading | Unloaded; and every state to itself.
pub open spec fn valid_transition(from: StateView, to: StateView) -> bool {
    ||| (from is MetaLoaded && (to is Loading || to is Unloaded))
    ||| (from is Loading && (to is Ready || to is Cached || to is Error))
    ||| (from is Ready && (to is Cached || to is Unloaded || to is Error))
    ||| (from is Cached && (to is Loading || to is Unloaded))
    ||| (from is Unloaded && to is Loading)
    ||| (from is Error && (to is Loading || to is Unloaded))
    ||| from == to
}

/// The text that `Display` gave a state: the variant's name, and `Error(msg)`.
pub open spec fn state_display_text(s: StateView) -> Seq<char> {
    match s {
        StateView::MetaLoaded => "MetaLoaded"@,
        StateView::Loading => "Loading"@,
        StateView::Ready => "Ready"@,
        StateView::Cached => "Cached"@,
        StateView::Unloaded => "Unloaded"@,
        StateView::Error(m) => "Error("@ + m + ")"@,
    }
}

/// The text that `Debug` gives a state: as for display, with the message quoted.
pub open spec fn state_debug_text(s: StateView) -> Seq<char> {
    match s {
        StateView::Error(m) => "Error("@ + debug_quoted(m) + ")"@,
        _ => state_display_text(s),
    }
}

impl PluginState {
    /// Whether the state is `Ready` or `Cached`.
    pub fn is_active_state(&self) -> (b: bool)
        ensures
            b == is_active(self@),
    {
        match self {
            PluginState::Ready => true,
            PluginState::Cached => true,
            _ => false,
        }
    }

    /// Whether two states are the same (variant, and message for `Error`).
    pub fn same_as(&self, other: &PluginState) -> (b: bool)
        ensures
            b == (self@ == other@),
    {
        match (self, other) {
            (PluginState::MetaLoaded, PluginState::MetaLoaded) => true,
            (PluginState::Loading, PluginState::Loading) => true,
            (PluginState::Ready, PluginState::Ready) => true,
            (PluginState::Cached, PluginState::Cached) => true,
            (PluginState::Unloaded, PluginState::Unloaded) => true,
            (PluginState::Error(x), PluginState::Error(y)) => x.eq(y),
            _ => false,
        }
    }

    /// Renders the state as `Display` did.
    pub fn to_display_string(&self) -> (s: String)
        ensures
            s@ == state_display_text(self@),
    {
        match self {
            PluginState::MetaLoaded => String::from_str("MetaLoaded"),
            PluginState::Loading => String::from_str("Loading"),
            PluginState::Ready => String::from_str("Ready"),
            PluginState::Cached => String::from_str("Cached"),
            PluginState::Unloaded => String::from_str("Unloaded"),
            PluginState::Error(m) => concat3("Error(", m.as_str(), ")"),
        }
    }

    /// Renders the state as `Debug` does.
    pub fn to_debug_string(&self) -> (s: String)
        ensures
            s@ == state_debug_text(self@),
    {
        match self {
            PluginState::Error(m) => {
                let q = debug_string(m.as_str());
                concat3("Error(", q.as_str(), ")")
            },
            _ => self.to_display_string(),
        }
    }
}

} // verus!
