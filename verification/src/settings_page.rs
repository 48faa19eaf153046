//! The settings page of the main window, which holds no state yet.
use vstd::prelude::*;

verus! {

/// State of the settings page.
pub struct SettingsState {}

impl SettingsState {
    /// A settings page.
    pub fn new() -> (res: Self) {
        SettingsState {}
    }
}

} // verus!
