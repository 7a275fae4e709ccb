//! The preferred icon theme.
//!
//! The theme comes from the first source that answers: the app's own
//! configuration when the user has set it, the desktop's settings portal,
//! `gsettings`, the GTK `settings.ini` files, and last the freedesktop
//! fallback theme [`HICOLOR`]. Asking the desktop is the caller's part; the
//! order of the chain, the treatment of a blank name and the reading of a
//! `settings.ini` are decided here.

use crate::config::Config;
use crate::text::{
    chars_eq, chars_of, lines, lines_of, opt_str_view, opt_string_view, split_once,
    split_once_char, string_from_chars, trim, trim_chars, views,
};
use vstd::prelude::*;

verus! {

broadcast use vstd::string::group_string_axioms;

/// The COSMIC desktop's icon theme, searched after the resolved theme.
pub const COSMIC: &'static str = "Cosmic";

/// The freedesktop fallback theme, and ours when nothing else answers.
pub const HICOLOR: &'static str = "hicolor";

/// The key naming the icon theme in a GTK `settings.ini`.
pub const GTK_ICON_THEME_KEY: &'static str = "gtk-icon-theme-name";

/// The configured theme name, trimmed, unless it is blank.
pub open spec fn configured_name(configured: Option<Seq<char>>) -> Option<Seq<char>> {
    match configured {
        Some(name) => if trim(name).len() > 0 {
            Some(trim(name))
        } else {
            None
        },
        None => None,
    }
}

/// The theme the user configured, trimmed, or `None` when it is unset or
/// blank.
pub fn configured_theme(configured: Option<&str>) -> (r: Option<String>)
    ensures
        match r {
            Some(name) => configured_name(opt_str_view(configured)) == Some(name@),
            None => configured_name(opt_str_view(configured)) is None,
        },
{
    match configured {
        Some(name) => {
            let cs = chars_of(name);
            let t = trim_chars(cs.as_slice());
            if t.len() > 0 {
                Some(string_from_chars(t.as_slice()))
            } else {
                None
            }
        },
        None => None,
    }
}

/// `source` answered with the theme `name`.
pub open spec fn answered<F: FnOnce() -> Option<String>>(source: F, name: Seq<char>) -> bool {
    exists|s: String| call_ensures(source, (), Some(s)) && s@ == name
}

/// `source` had no theme to offer.
pub open spec fn declined<F: FnOnce() -> Option<String>>(source: F) -> bool {
    call_ensures(source, (), None)
}

/// `source` had no theme to offer: it gave none, or an empty name.
pub open spec fn gave_nothing<F: FnOnce() -> Option<String>>(source: F) -> bool {
    declined(source) || answered(source, Seq::empty())
}

/// `source` offered the theme `name`, which is not empty.
pub open spec fn gave<F: FnOnce() -> Option<String>>(source: F, name: Seq<char>) -> bool {
    answered(source, name) && name.len() > 0
}

/// `name` is what the chain gives: the configured theme when there is one,
/// else the first theme offered by `portal`, `gsettings` and `gtk` (an empty
/// name counts as none), else [`HICOLOR`].
pub open spec fn resolved<P, G, K>(
    configured: Option<Seq<char>>,
    portal: P,
    gsettings: G,
    gtk: K,
    name: Seq<char>,
) -> bool where
    P: FnOnce() -> Option<String>,
    G: FnOnce() -> Option<String>,
    K: FnOnce() -> Option<String>,
 {
    match configured {
        Some(c) => name == c,
        None => {
            ||| gave(portal, name)
            ||| gave_nothing(portal) && gave(gsettings, name)
            ||| gave_nothing(portal) && gave_nothing(gsettings) && gave(gtk, name)
            ||| gave_nothing(portal) && gave_nothing(gsettings) && gave_nothing(gtk) && name == HICOLOR@
        },
    }
}

/// Resolve the icon theme: the configured one unless it is unset or blank,
/// then the first theme that `portal`, `gsettings` and `gtk` offer, asked in
/// that order and only until one offers a name that is not empty, then
/// [`HICOLOR`]. The theme is never empty.
pub fn resolve(
    configured: Option<&str>,
    portal: impl FnOnce() -> Option<String>,
    gsettings: impl FnOnce() -> Option<String>,
    gtk: impl FnOnce() -> Option<String>,
) -> (r: String)
    requires
        call_requires(portal, ()),
        call_requires(gsettings, ()),
        call_requires(gtk, ()),
    ensures
        resolved(configured_name(opt_str_view(configured)), portal, gsettings, gtk, r@),
        r@.len() > 0,
{
    if let Some(name) = configured_theme(configured) {
        return name;
    }
    if let Some(name) = portal() {
        if chars_of(name.as_str()).len() > 0 {
            return name;
        }
        assert(answered(portal, Seq::empty())) by {
            assert(name@ =~= Seq::empty());
        }
    }
    if let Some(name) = gsettings() {
        if chars_of(name.as_str()).len() > 0 {
            return name;
        }
        assert(answered(gsettings, Seq::empty())) by {
            assert(name@ =~= Seq::empty());
        }
    }
    if let Some(name) = gtk() {
        if chars_of(name.as_str()).len() > 0 {
            return name;
        }
        assert(answered(gtk, Seq::empty())) by {
            assert(name@ =~= Seq::empty());
        }
    }
    proof {
        reveal_strlit("hicolor");
    }
    HICOLOR.to_owned()
}

/// The icon theme named by the first of `lines` whose key is
/// [`GTK_ICON_THEME_KEY`], unless its value is blank.
pub open spec fn theme_in_lines(lines: Seq<Seq<char>>) -> Option<Seq<char>>
    decreases lines.len(),
{
    if lines.len() == 0 {
        None
    } else {
        match split_once(lines[0], '=') {
            Some((key, value)) => if trim(key) == GTK_ICON_THEME_KEY@ {
                if trim(value).len() > 0 {
                    Some(trim(value))
                } else {
                    None
                }
            } else {
                theme_in_lines(lines.drop_first())
            },
            None => theme_in_lines(lines.drop_first()),
        }
    }
}

/// `gtk-icon-theme-name` in the text of one GTK `settings.ini`.
///
/// A key=value scan, not an ini parse: the file has a single `[Settings]`
/// section, and a commented-out line keeps the `#` in its key and so is
/// skipped. The first line with the key decides; a blank value there is no
/// theme.
pub fn gtk_icon_theme_in_text(text: &str) -> (r: Option<String>)
    ensures
        match r {
            Some(name) => theme_in_lines(lines(text@)) == Some(name@),
            None => theme_in_lines(lines(text@)) is None,
        },
{
    let cs = chars_of(text);
    let ls = lines_of(cs.as_slice());
    let key = chars_of(GTK_ICON_THEME_KEY);
    let mut i: usize = 0;
    assert(views(ls@).skip(0) =~= views(ls@));
    while i < ls.len()
        invariant
            i <= ls@.len(),
            views(ls@) == lines(text@),
            key@ == GTK_ICON_THEME_KEY@,
            theme_in_lines(lines(text@)) == theme_in_lines(views(ls@).skip(i as int)),
        decreases ls@.len() - i,
    {
        assert(views(ls@).skip(i as int)[0] == ls@[i as int]@);
        assert(views(ls@).skip(i as int).drop_first() =~= views(ls@).skip(i + 1));
        if let Some((k, v)) = split_once_char(ls[i].as_slice(), '=') {
            let tk = trim_chars(k.as_slice());
            if chars_eq(tk.as_slice(), key.as_slice()) {
                let tv = trim_chars(v.as_slice());
                if tv.len() > 0 {
                    return Some(string_from_chars(tv.as_slice()));
                } else {
                    return None;
                }
            }
        }
        i = i + 1;
    }
    None
}

/// The fallback icon theme to search when loading system icons.
pub struct DefaultTheme {
    name: String,
}

impl DefaultTheme {
    /// The name the slot holds.
    pub closed spec fn name(&self) -> Seq<char> {
        self.name@
    }

    /// A slot holding [`HICOLOR`], the name read before anything is set.
    pub fn new() -> (r: Self)
        ensures
            r.name() == HICOLOR@,
    {
        DefaultTheme { name: HICOLOR.to_owned() }
    }
}

/// The fallback icon theme to search if no icon theme was specified.
pub fn default(theme: &DefaultTheme) -> (r: String)
    ensures
        r@ == theme.name(),
{
    theme.name.clone()
}

/// Set the fallback icon theme to search when loading system icons.
pub fn set_default(theme: &mut DefaultTheme, name: String)
    ensures
        final(theme).name() == name@,
{
    theme.name = name;
}

/// Resolve the icon theme from `config` and the desktop, and make it the
/// fallback theme.
pub fn set_from_config(
    theme: &mut DefaultTheme,
    config: &Config,
    portal: impl FnOnce() -> Option<String>,
    gsettings: impl FnOnce() -> Option<String>,
    gtk: impl FnOnce() -> Option<String>,
)
    requires
        call_requires(portal, ()),
        call_requires(gsettings, ()),
        call_requires(gtk, ()),
    ensures
        resolved(
            configured_name(opt_string_view(config.icon_theme)),
            portal,
            gsettings,
            gtk,
            final(theme).name(),
        ),
{
    let configured: Option<&str> = match &config.icon_theme {
        Some(s) => Some(s.as_str()),
        None => None,
    };
    let name = resolve(configured, portal, gsettings, gtk);
    set_default(theme, name);
}

} // verus!
