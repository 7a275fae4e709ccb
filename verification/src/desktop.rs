//! `.desktop` files as the listing shows them: the name a launcher gives
//! itself, in the user's languages, and the icon it names.

use vstd::prelude::*;

verus! {

/// The languages a lookup is filtered by, as characters.
pub open spec fn locales_view(locales: Option<&[String]>) -> Option<Seq<Seq<char>>> {
    match locales {
        Some(l) => Some(l@.map_values(|s: String| s@)),
        None => None,
    }
}

/// What `freedesktop_desktop_entry::DesktopEntry::from_str` makes of the
/// text `text` of the file at `path`, keeping the localized keys of
/// `locales` (all of them when none are given): none when it does not
/// parse; otherwise the `Name` in the first of `locales` that has one (or
/// the plain `Name`), and the `Icon`, of the `[Desktop Entry]` group.
pub uninterp spec fn desktop_entry_fields(
    path: Seq<char>,
    text: Seq<char>,
    locales: Option<Seq<Seq<char>>>,
) -> Option<(Option<Seq<char>>, Option<Seq<char>>)>;

/// An optional string as characters.
pub open spec fn opt_chars(o: Option<String>) -> Option<Seq<char>> {
    match o {
        Some(s) => Some(s@),
        None => None,
    }
}

/// The name and icon the desktop file at `path` with the text `text`
/// gives, by `DesktopEntry::from_str`, `DesktopEntry::name` and
/// `DesktopEntry::icon`. The crate is built without its `gettext` feature,
/// so `name` consults no translation catalog of the machine: an
/// `X-Ubuntu-Gettext-Domain` key is read but not used, and the result
/// depends on the arguments alone.
#[verifier::external_body]
fn parse_desktop_entry(path: &str, text: &str, locales: Option<&[String]>) -> (r: Option<(Option<String>, Option<String>)>)
    ensures
        match r {
            Some((name, icon)) => desktop_entry_fields(path@, text@, locales_view(locales)) == Some(
                (opt_chars(name), opt_chars(icon)),
            ),
            None => desktop_entry_fields(path@, text@, locales_view(locales)) is None,
        },
{
    let lookup: &[String] = locales.unwrap_or(&[]);
    match freedesktop_desktop_entry::DesktopEntry::from_str(path, text, locales) {
        Ok(entry) => Some((entry.name(lookup).map(|s| s.into_owned()), entry.icon().map(str::to_string))),
        Err(_) => None,
    }
}

/// The name, in the user's languages `locales`, and the icon that the
/// desktop file at `path` with the text `text` gives; neither when it does
/// not parse.
pub fn parse_desktop_file(path: &str, text: &str, locales: &[String]) -> (r: (Option<String>, Option<String>))
    ensures
        match desktop_entry_fields(path@, text@, locales_view(Some(locales))) {
            Some((name, icon)) => opt_chars(r.0) == name && opt_chars(r.1) == icon,
            None => r.0 is None && r.1 is None,
        },
{
    match parse_desktop_entry(path, text, Some(locales)) {
        Some(fields) => fields,
        None => (None, None),
    }
}

/// The name, in the user's languages `locales`, that the desktop file at
/// `path` with the text `text` gives.
pub fn desktop_file_display_name(path: &str, text: &str, locales: &[String]) -> (r: Option<String>)
    ensures
        opt_chars(r) == match desktop_entry_fields(path@, text@, locales_view(Some(locales))) {
            Some((name, _)) => name,
            None => None,
        },
{
    parse_desktop_file(path, text, locales).0
}

/// The icon that the desktop file at `path` with the text `text` names,
/// parsed with no language filter.
pub fn desktop_file_icon(path: &str, text: &str) -> (r: Option<String>)
    ensures
        opt_chars(r) == match desktop_entry_fields(path@, text@, None) {
            Some((_, icon)) => icon,
            None => None,
        },
{
    match parse_desktop_entry(path, text, None) {
        Some((_, icon)) => icon,
        None => None,
    }
}

} // verus!
