# earth-files core

The logic of a file manager, written in Verus: each public function states
in its `requires` and `ensures` what it does, and Verus proves it.

- `src/` is the library. Each module owns one concern: `location` and
  `history` (where a tab is and how it moves), `navigate` (whether an
  activated path is entered or opened, what a tab does when asked to go
  somewhere, and that step carried out on its history and listing), `selection` (what is selected,
  focused, highlighted or cut, and how the keyboard moves it), `sort` (the
  stable order of a listing, by a collation rank the caller supplies for
  names and types), `tab` (mount classification, `.hidden` files,
  name display, headings, text previews, user names), `trash`, `mode`
  (permission bits), `dnd` (drag state and bounded pipe reads), `complete`
  (location-bar completion and the search pattern), `search` (search
  results kept newest first), `thumbnail` (how a thumbnail is made, step by
  step, and which items get background work), `thumbnailer` (the table of installed thumbnailers and
  their command lines), `desktop` (the name and icon of a `.desktop` file),
  `uri`, `shell`
  (nav bar and drawer layout, and the nav bar's drag), `slide` (the panels'
  slide decisions), `popup` (popup exits and dismissals), `keyboard_nav`,
  `icon_theme`, `font` and `config`. `paths` and `text` hold the helpers the
  others build on.
- Calls into `std::path`, `regex`, `shlex`, `url`, `dirs`,
  `freedesktop-desktop-entry` and `mime_guess` go
  through small wrappers whose contracts are trusted; their doc comments say
  what is assumed of each.
- `app/` is ordinary Rust around the library: process-wide settings, the
  filesystem and desktop services the library's decisions are made from, and
  the pipes and programs they are carried out with.
- `tests/` runs the library on concrete values.
