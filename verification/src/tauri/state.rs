//! The state the application keeps between commands.
use vstd::prelude::*;
use crate::text::own;

verus! {

/// The open file, the chosen parser and whether results are cached.
#[derive(Debug, Clone)]
pub struct AppState {
    pub current_file: Option<String>,
    pub current_plugin: String,
    pub cache_enabled: bool,
}

impl AppState {
    /// No file, the `Auto` parser, caching on.
    pub fn new() -> (r: AppState)
        ensures
            r.current_file is None,
            r.current_plugin@ == "Auto"@,
            r.cache_enabled,
    {
        AppState { current_file: None, current_plugin: own("Auto"), cache_enabled: true }
    }

    pub fn set_current_file(&mut self, file_path: String)
        ensures
            *final(self) == (AppState { current_file: Some(file_path), ..*old(self) }),
    {
        self.current_file = Some(file_path);
    }

    pub fn clear_current_file(&mut self)
        ensures
            *final(self) == (AppState { current_file: None, ..*old(self) }),
    {
        self.current_file = None;
    }

    pub fn set_current_plugin(&mut self, plugin_name: String)
        ensures
            *final(self) == (AppState { current_plugin: plugin_name, ..*old(self) }),
    {
        self.current_plugin = plugin_name;
    }

    pub fn set_cache_enabled(&mut self, enabled: bool)
        ensures
            *final(self) == (AppState { cache_enabled: enabled, ..*old(self) }),
    {
        self.cache_enabled = enabled;
    }
}

impl Default for AppState {
    fn default() -> (r: AppState)
        ensures
            r.current_file is None,
            r.current_plugin@ == "Auto"@,
            r.cache_enabled,
    {
        AppState::new()
    }
}

/// Setting a file and clearing it gives back the state without a file, whatever
/// file was set.
pub proof fn lemma_set_then_clear(s: AppState, f: String)
    ensures
        (AppState { current_file: None, ..(AppState { current_file: Some(f), ..s }) }) == (AppState {
            current_file: None,
            ..s
        }),
{
}

} // verus!
