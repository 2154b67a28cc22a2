//! Events for the tray icon's thread.
use vstd::prelude::*;

verus! {

/// An event for the tray icon.
#[derive(Debug, Clone)]
pub enum TrayEvent {
    /// The main window was shown (`true`) or hidden (`false`).
    SetWindowState(bool),
    /// An update with this version label is available.
    UpdateAvailable(String),
    /// Steam Input config enforcement was turned on (`true`) or off.
    ForceConfigChanged(bool),
}

} // verus!
