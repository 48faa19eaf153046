//! AviSaver: the logic of a VRChat avatar-parameter saver that listens for OSC
//! traffic and answers OSCQuery discovery requests.

pub mod core_info;
pub mod settings;
pub mod text;
pub mod format;
pub mod nodes;
pub mod queryserver;
pub mod osc;
pub mod app;
pub mod root;
pub mod settings_page;
