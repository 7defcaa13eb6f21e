//! The configuration window: reuse the open one, or build a new one.

use vstd::prelude::*;

verus! {

/// What opening the configuration window does.
#[derive(Clone, Copy, Debug, PartialEq, Eq, Structural)]
pub enum ConfigWindowPlan {
    /// No configuration window is open: build one.
    Build,
    /// Focus the open window.
    Focus,
    /// Focus the open window and restore it from the task bar.
    FocusAndRestore,
}

/// The plan, given whether a configuration window is open and whether it is minimized.
pub fn config_window_plan(exists: bool, minimized: bool) -> (plan: ConfigWindowPlan)
    ensures
        plan == (if !exists {
            ConfigWindowPlan::Build
        } else if minimized {
            ConfigWindowPlan::FocusAndRestore
        } else {
            ConfigWindowPlan::Focus
        }),
{
    if !exists {
        ConfigWindowPlan::Build
    } else if minimized {
        ConfigWindowPlan::FocusAndRestore
    } else {
        ConfigWindowPlan::Focus
    }
}

/// Label of the configuration window.
pub fn config_window_label() -> (s: String)
    ensures
        s@ == "config"@,
{
    String::from_str("config")
}

/// Page the configuration window shows.
pub fn config_window_page() -> (s: String)
    ensures
        s@ == "config.html"@,
{
    String::from_str("config.html")
}

/// Title of the configuration window.
pub fn config_window_title() -> (s: String)
    ensures
        s@ == "Transparent Overlay - Config"@,
{
    String::from_str("Transparent Overlay - Config")
}

/// Inner size of the configuration window in logical pixels (width, height).
pub fn config_window_size() -> (size: (u32, u32))
    ensures
        size == (350u32, 275u32),
{
    (350, 275)
}

} // verus!
