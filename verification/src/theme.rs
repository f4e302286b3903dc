//! Light and dark appearance. The palettes themselves are colour values
//! and live with the renderer; which mode is in force is decided here.
use vstd::prelude::*;

verus! {

#[derive(Clone, Copy, Debug, PartialEq, Eq, Default, Structural)]
pub enum ThemeMode {
    Light,
    #[default]
    Dark,
}

pub open spec fn other_mode(mode: ThemeMode) -> ThemeMode {
    match mode {
        ThemeMode::Light => ThemeMode::Dark,
        ThemeMode::Dark => ThemeMode::Light,
    }
}

/// The other mode.
pub fn toggled(mode: ThemeMode) -> (r: ThemeMode)
    ensures
        r == other_mode(mode),
{
    match mode {
        ThemeMode::Light => ThemeMode::Dark,
        ThemeMode::Dark => ThemeMode::Light,
    }
}

/// The mode at startup: forced dark wins, then forced light, else the
/// persisted setting.
pub fn startup_mode(force_dark: bool, force_light: bool, persisted: ThemeMode) -> (r: ThemeMode)
    ensures
        r == (if force_dark { ThemeMode::Dark } else if force_light { ThemeMode::Light } else { persisted }),
{
    if force_dark {
        ThemeMode::Dark
    } else if force_light {
        ThemeMode::Light
    } else {
        persisted
    }
}

/// Toggling changes the mode, and toggling twice gives it back.
pub proof fn law_toggle_twice(mode: ThemeMode)
    ensures
        other_mode(mode) != mode,
        other_mode(other_mode(mode)) == mode,
{
}

} // verus!
