//! The settings this library reads from the app's configuration, and the
//! window-chrome preferences.

use vstd::prelude::*;

verus! {

/// The interface font family used until the configuration names another.
pub const INTERFACE_FONT_DEFAULT: &'static str = "Open Sans";

/// The monospace font family used until the configuration names another.
pub const MONOSPACE_FONT_DEFAULT: &'static str = "Noto Sans Mono";

/// The parts of the app's configuration that fonts and icons are chosen from.
pub struct Config {
    /// Family of the interface font.
    pub interface_font: String,
    /// Family of the monospace font.
    pub monospace_font: String,
    /// Icon theme the user chose, if any.
    pub icon_theme: Option<String>,
}

impl Default for Config {
    fn default() -> (r: Self)
        ensures
            r.interface_font@ == INTERFACE_FONT_DEFAULT@,
            r.monospace_font@ == MONOSPACE_FONT_DEFAULT@,
            r.icon_theme is None,
    {
        Config {
            interface_font: INTERFACE_FONT_DEFAULT.to_owned(),
            monospace_font: MONOSPACE_FONT_DEFAULT.to_owned(),
            icon_theme: None,
        }
    }
}

/// Whether the header bar should offer a maximize button.
pub fn show_maximize() -> (r: bool)
    ensures
        r,
{
    true
}

/// Whether the header bar should offer a minimize button.
pub fn show_minimize() -> (r: bool)
    ensures
        r,
{
    true
}

} // verus!
