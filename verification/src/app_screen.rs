//! The top-level screen: the full-screen preset picker or the editor.
use vstd::prelude::*;

verus! {

/// Which top-level screen is shown.
#[derive(Clone, Copy, Debug, PartialEq, Eq, Hash, Structural)]
pub enum AppScreen {
    /// The default at start-up: the user picks a preset (also when no share link applies).
    PresetPicker,
    /// The editor with the Seed, Placement and Result canvases.
    Editing,
}

impl Default for AppScreen {
    /// The preset picker.
    fn default() -> (res: Self)
        ensures
            res == AppScreen::PresetPicker,
    {
        AppScreen::PresetPicker
    }
}

/// The screen shown after start-up: the editor when the initial fractal came from a boot
/// preset (native) or from a share link (web), the preset picker otherwise.
pub fn initial_app_screen(fractal_restored: bool) -> (res: AppScreen)
    ensures
        res == (if fractal_restored { AppScreen::Editing } else { AppScreen::PresetPicker }),
{
    if fractal_restored {
        AppScreen::Editing
    } else {
        AppScreen::default()
    }
}

} // verus!
