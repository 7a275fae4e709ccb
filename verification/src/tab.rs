//! Rules of a tab's listing that need no window: how a mounted filesystem is
//! classified, how a device number is put together from `major:minor`, what a
//! `.hidden` file hides, how names are shown, and the column headings and the
//! order they sort in.

use crate::paths::{file_name, path_file_name};
use crate::text::{
    chars_of, opt_string_view, split_once, split_once_char, str_eq, string_from_chars, trim,
    trim_chars,
};
use std::collections::HashMap;
use vstd::prelude::*;
use vstd::utf8::{decode_utf8, valid_utf8};

verus! {

broadcast use vstd::std_specs::hash::group_hash_axioms;

/// What kind of filesystem a file lives on.
#[derive(Clone, Copy, Debug, PartialEq, Eq, Structural)]
pub enum FsKind {
    /// A local disk.
    Local,
    /// A network or cluster filesystem.
    Remote,
    /// A GVFS FUSE mount.
    Gvfs,
}

/// The kind of a filesystem by the type `/proc/self/mountinfo` gives it.
pub open spec fn fs_kind_spec(t: Seq<char>) -> FsKind {
    if t == "cifs"@ || t == "smb"@ || t == "smb2"@ || t == "smbfs"@ || t == "nfs"@ || t == "nfs4"@
        || t == "fuse.rclone"@ || t == "fuse.sshfs"@ || t == "fuse.davfs2"@ || t == "fuse.ceph"@
        || t == "fuse.glusterfs"@ || t == "fuse.s3fs"@ || t == "fuse.goofys"@ || t
        == "fuse.gcsfuse"@ || t == "fuse.afp"@ || t == "fuse.afpfs"@ || t == "afs"@ || t
        == "coda"@ || t == "ncpfs"@ || t == "davfs"@ || t == "davfs2"@ || t == "shfs"@ || t
        == "ceph"@ || t == "glusterfs"@ || t == "lustre"@ || t == "gfs"@ || t == "gfs2"@ || t
        == "ocfs2"@ {
        FsKind::Remote
    } else if t == "fuse.gvfsd-fuse"@ {
        FsKind::Gvfs
    } else {
        FsKind::Local
    }
}

/// The kind of a filesystem of type `fs_type`: SMB, NFS, the FUSE remote
/// filesystems, the other network protocols and the cluster filesystems are
/// remote, GVFS's FUSE daemon is GVFS, and everything else is local.
pub fn fs_kind_of_type(fs_type: &str) -> (r: FsKind)
    ensures
        r == fs_kind_spec(fs_type@),
{
    let t = fs_type;
    if str_eq(t, "cifs") || str_eq(t, "smb") || str_eq(t, "smb2") || str_eq(t, "smbfs") || str_eq(
        t,
        "nfs",
    ) || str_eq(t, "nfs4") || str_eq(t, "fuse.rclone") || str_eq(t, "fuse.sshfs") || str_eq(
        t,
        "fuse.davfs2",
    ) || str_eq(t, "fuse.ceph") || str_eq(t, "fuse.glusterfs") || str_eq(t, "fuse.s3fs") || str_eq(
        t,
        "fuse.goofys",
    ) || str_eq(t, "fuse.gcsfuse") || str_eq(t, "fuse.afp") || str_eq(t, "fuse.afpfs") || str_eq(
        t,
        "afs",
    ) || str_eq(t, "coda") || str_eq(t, "ncpfs") || str_eq(t, "davfs") || str_eq(t, "davfs2")
        || str_eq(t, "shfs") || str_eq(t, "ceph") || str_eq(t, "glusterfs") || str_eq(t, "lustre")
        || str_eq(t, "gfs") || str_eq(t, "gfs2") || str_eq(t, "ocfs2") {
        FsKind::Remote
    } else if str_eq(t, "fuse.gvfsd-fuse") {
        FsKind::Gvfs
    } else {
        FsKind::Local
    }
}

/// Whether every character of `s` is an ASCII digit.
pub open spec fn all_digits(s: Seq<char>) -> bool {
    forall|i: int| 0 <= i < s.len() ==> '0' <= #[trigger] s[i] <= '9'
}

/// The number the decimal digits `s` write.
pub open spec fn digits_value(s: Seq<char>) -> nat
    decreases s.len(),
{
    if s.len() == 0 {
        0
    } else {
        digits_value(s.drop_last()) * 10 + (s.last() as nat - '0' as nat) as nat
    }
}

/// What `u32::from_str` makes of `s`: an optional `+`, then one or more
/// decimal digits whose value fits.
pub open spec fn parse_u32_spec(s: Seq<char>) -> Option<u32> {
    let d = if s.len() > 0 && s[0] == '+' {
        s.drop_first()
    } else {
        s
    };
    if d.len() > 0 && all_digits(d) && digits_value(d) <= u32::MAX {
        Some(digits_value(d) as u32)
    } else {
        None
    }
}

/// `s` read as a `u32` the way `str::parse::<u32>` reads it.
pub fn parse_u32(s: &[char]) -> (r: Option<u32>)
    ensures
        r == parse_u32_spec(s@),
{
    let start: usize = if s.len() > 0 && s[0] == '+' {
        1
    } else {
        0
    };
    let ghost d = if s@.len() > 0 && s@[0] == '+' {
        s@.drop_first()
    } else {
        s@
    };
    assert(d =~= s@.skip(start as int));
    if start >= s.len() {
        return None;
    }
    let mut value: u64 = 0;
    let mut over = false;
    let mut i: usize = start;
    while i < s.len()
        invariant
            start <= i <= s@.len(),
            d =~= s@.skip(start as int),
            d == (if s@.len() > 0 && s@[0] == '+' {
                s@.drop_first()
            } else {
                s@
            }),
            all_digits(s@.subrange(start as int, i as int)),
            !over ==> value == digits_value(s@.subrange(start as int, i as int)),
            !over ==> value <= u32::MAX,
            over ==> digits_value(s@.subrange(start as int, i as int)) > u32::MAX,
        decreases s@.len() - i,
    {
        let c = s[i];
        if !('0' <= c && c <= '9') {
            assert(d[i - start] == c);
            assert(!all_digits(d));
            return None;
        }
        let ghost before = s@.subrange(start as int, i as int);
        let ghost after = s@.subrange(start as int, i + 1);
        assert(after.drop_last() =~= before);
        assert(all_digits(after));
        let digit = (c as u32 - '0' as u32) as u64;
        if !over {
            value = value * 10 + digit;
            if value > u32::MAX as u64 {
                over = true;
            }
        } else {
            assert(digits_value(after) >= digits_value(before)) by (nonlinear_arith)
                requires
                    digits_value(after) == digits_value(before) * 10 + (c as nat - '0' as nat) as nat,
            ;
        }
        i = i + 1;
    }
    assert(s@.subrange(start as int, s@.len() as int) =~= d);
    if over {
        None
    } else {
        Some(value as u32)
    }
}

/// The device number `libc::makedev` forms on Linux from a major and a
/// minor number.
pub open spec fn dev_number(major: u32, minor: u32) -> u64 {
    let ma = major as u64;
    let mi = minor as u64;
    ((ma & 0xfff) << 8u64) | ((ma & 0xffff_f000) << 32u64) | (mi & 0xff) | ((mi & 0xffff_ff00)
        << 12u64)
}

/// The device number of `major:minor`, formed as `libc::makedev` forms it.
fn make_dev(major: u32, minor: u32) -> (r: u64)
    ensures
        r == dev_number(major, minor),
{
    let ma = major as u64;
    let mi = minor as u64;
    ((ma & 0xfff) << 8u64) | ((ma & 0xffff_f000) << 32u64) | (mi & 0xff) | ((mi & 0xffff_ff00) << 12u64)
}

/// Two different pairs of major and minor numbers never make the same
/// device number.
pub proof fn lemma_dev_number_injective(a: u32, b: u32, c: u32, d: u32)
    ensures
        dev_number(a, b) == dev_number(c, d) ==> a == c && b == d,
{
    assert(dev_number(a, b) == dev_number(c, d) ==> a == c && b == d) by (bit_vector);
}

/// The major and minor fields of a `major:minor` device string: what comes
/// before the first `:` and what comes after it, up to a second one.
pub open spec fn majmin_fields(s: Seq<char>) -> Option<(Seq<char>, Seq<char>)> {
    match split_once(s, ':') {
        None => None,
        Some((major, rest)) => Some(
            (
                major,
                match split_once(rest, ':') {
                    Some((minor, _)) => minor,
                    None => rest,
                },
            ),
        ),
    }
}

/// The device a `major:minor` string names, when both numbers parse.
pub open spec fn device_spec(s: Seq<char>) -> Option<u64> {
    match majmin_fields(s) {
        Some((a, b)) => match (parse_u32_spec(a), parse_u32_spec(b)) {
            (Some(x), Some(y)) => Some(dev_number(x, y)),
            _ => None,
        },
        None => None,
    }
}

/// The device number a `major:minor` string names.
pub fn device_of(majmin: &str) -> (r: Option<u64>)
    ensures
        r == device_spec(majmin@),
{
    let cs = chars_of(majmin);
    let (major, rest) = match split_once_char(&cs, ':') {
        Some(parts) => parts,
        None => return None,
    };
    let minor = match split_once_char(&rest, ':') {
        Some((m, _)) => m,
        None => rest,
    };
    let ma = match parse_u32(&major) {
        Some(v) => v,
        None => return None,
    };
    let mi = match parse_u32(&minor) {
        Some(v) => v,
        None => return None,
    };
    Some(make_dev(ma, mi))
}

/// One line of `/proc/self/mountinfo`, as far as it is read here.
#[derive(Debug)]
pub struct MountEntry {
    /// The `major:minor` field.
    pub majmin: String,
    /// The filesystem type.
    pub fs_type: String,
}

/// The kind of each mounted device; a later mount of a device overrides an
/// earlier one, and a line whose device does not parse is skipped.
pub open spec fn mount_table(entries: Seq<MountEntry>) -> Map<u64, FsKind>
    decreases entries.len(),
{
    if entries.len() == 0 {
        Map::empty()
    } else {
        let before = mount_table(entries.drop_last());
        match device_spec(entries.last().majmin@) {
            Some(dev) => before.insert(dev, fs_kind_spec(entries.last().fs_type@)),
            None => before,
        }
    }
}

/// The kinds of the mounted devices listed in `mounts`.
pub fn read_fs_kinds(mounts: &[MountEntry]) -> (r: HashMap<u64, FsKind>)
    ensures
        r@ == mount_table(mounts@),
{
    let mut devices: HashMap<u64, FsKind> = HashMap::new();
    let mut i: usize = 0;
    while i < mounts.len()
        invariant
            i <= mounts@.len(),
            devices@ == mount_table(mounts@.take(i as int)),
        decreases mounts@.len() - i,
    {
        assert(mounts@.take(i + 1).drop_last() =~= mounts@.take(i as int));
        match device_of(mounts[i].majmin.as_str()) {
            Some(dev) => {
                let kind = fs_kind_of_type(mounts[i].fs_type.as_str());
                devices.insert(dev, kind);
            },
            None => {},
        }
        i = i + 1;
    }
    assert(mounts@.take(mounts@.len() as int) =~= mounts@);
    devices
}

/// The kind of filesystem device `dev` holds: local unless the mount table
/// says otherwise.
pub fn fs_kind(devices: &HashMap<u64, FsKind>, dev: u64) -> (r: FsKind)
    ensures
        r == (if devices@.contains_key(dev) {
            devices@[dev]
        } else {
            FsKind::Local
        }),
{
    match devices.get(&dev) {
        Some(kind) => *kind,
        None => FsKind::Local,
    }
}

/// Whether `path` ends in a separator.
pub fn has_trailing_sep(path: &str) -> (r: bool)
    ensures
        r == (path@.len() > 0 && path@.last() == '/'),
{
    let cs = chars_of(path);
    cs.len() > 0 && cs[cs.len() - 1] == '/'
}

/// The file name of `path`; none for a path without one, such as the root,
/// which the listing calls the filesystem.
pub fn get_filename_from_path(path: &str) -> (r: Option<String>)
    ensures
        match r {
            Some(name) => path_file_name(path@) == Some(name@),
            None => path_file_name(path@) is None,
        },
{
    file_name(path)
}

/// The entries of a `.hidden` file, one per line, trimmed, blank lines left
/// out.
pub open spec fn hidden_entries(lines: Seq<Seq<char>>) -> Seq<Seq<char>>
    decreases lines.len(),
{
    if lines.len() == 0 {
        seq![]
    } else {
        let before = hidden_entries(lines.drop_last());
        let t = trim(lines.last());
        if t.len() > 0 {
            before.push(t)
        } else {
            before
        }
    }
}

/// The names a `.hidden` file lists, given its lines.
pub fn parse_hidden_file(lines: &[String]) -> (r: Vec<String>)
    ensures
        r@.map_values(|s: String| s@) == hidden_entries(lines@.map_values(|s: String| s@)),
{
    let ghost all = lines@.map_values(|s: String| s@);
    let mut out: Vec<String> = Vec::new();
    let mut i: usize = 0;
    while i < lines.len()
        invariant
            i <= lines@.len(),
            all == lines@.map_values(|s: String| s@),
            out@.map_values(|s: String| s@) == hidden_entries(all.take(i as int)),
        decreases lines@.len() - i,
    {
        assert(all.take(i + 1).drop_last() =~= all.take(i as int));
        assert(all.take(i + 1).last() == lines@[i as int]@);
        let cs = chars_of(lines[i].as_str());
        let t = trim_chars(&cs);
        if t.len() > 0 {
            let ghost before = out@;
            out.push(string_from_chars(&t));
            assert(out@.map_values(|s: String| s@) =~= before.map_values(|s: String| s@).push(t@));
        }
        i = i + 1;
    }
    assert(all.take(lines@.len() as int) =~= all);
    out
}

/// `name` with a zero-width space after each `.` and `_`, where a long name
/// may then wrap.
pub open spec fn display_name_spec(name: Seq<char>) -> Seq<char>
    decreases name.len(),
{
    if name.len() == 0 {
        seq![]
    } else {
        let c = name.last();
        let before = display_name_spec(name.drop_last());
        if c == '.' || c == '_' {
            before.push(c).push('\u{200B}')
        } else {
            before.push(c)
        }
    }
}

/// `name` as the listing shows it, able to wrap after periods and
/// underscores.
pub fn display_name(name: &str) -> (r: String)
    ensures
        r@ == display_name_spec(name@),
{
    let cs = chars_of(name);
    let mut out: Vec<char> = Vec::new();
    let mut i: usize = 0;
    while i < cs.len()
        invariant
            i <= cs@.len(),
            out@ == display_name_spec(cs@.take(i as int)),
        decreases cs@.len() - i,
    {
        assert(cs@.take(i + 1).drop_last() =~= cs@.take(i as int));
        let c = cs[i];
        out.push(c);
        if c == '.' || c == '_' {
            out.push('\u{200B}');
        }
        i = i + 1;
    }
    assert(cs@.take(cs@.len() as int) =~= cs@);
    string_from_chars(&out)
}

/// The name a file is listed under: a desktop entry's own name when it is
/// one and has a name, the display name GVFS gives when asked for and
/// answered, and otherwise its file name.
pub open spec fn listed_name(
    name: Seq<char>,
    is_desktop: bool,
    desktop_name: Option<Seq<char>>,
    get_from_gvfs: bool,
    gvfs_name: Option<Seq<char>>,
) -> Seq<char> {
    if is_desktop {
        match desktop_name {
            Some(d) => d,
            None => name,
        }
    } else if get_from_gvfs && gvfs_name is Some {
        gvfs_name->0
    } else {
        name
    }
}

/// The name a file called `name` is shown under, able to wrap. The caller
/// reads the desktop entry's name and asks GVFS, as the file calls for.
pub fn display_name_for_file(
    name: &str,
    is_desktop: bool,
    desktop_name: Option<&str>,
    get_from_gvfs: bool,
    gvfs_name: Option<&str>,
) -> (r: String)
    ensures
        r@ == display_name_spec(
            listed_name(
                name@,
                is_desktop,
                crate::text::opt_str_view(desktop_name),
                get_from_gvfs,
                crate::text::opt_str_view(gvfs_name),
            ),
        ),
{
    if is_desktop {
        match desktop_name {
            Some(d) => display_name(d),
            None => display_name(name),
        }
    } else if get_from_gvfs && gvfs_name.is_some() {
        match gvfs_name {
            Some(g) => display_name(g),
            None => display_name(name),
        }
    } else {
        display_name(name)
    }
}

/// What names a folder in a title or a breadcrumb.
#[derive(Debug, PartialEq, Eq)]
pub enum FolderName {
    /// The root, which has no name: the filesystem.
    Filesystem,
    /// The user's home directory.
    Home,
    /// Any other folder, by the name shown for it.
    Named(String),
}

/// The name of the folder `path`, and whether it is the home directory
/// `home`. `listed` is the name shown for it when its metadata could be read,
/// as [`display_name_for_file`] gives it; failing that, its file name is used
/// as it is.
pub fn folder_name(path: &str, home: Option<&str>, listed: Option<String>) -> (r: (FolderName, bool))
    ensures
        match path_file_name(path@) {
            None => r == (FolderName::Filesystem, false),
            Some(n) => if (home matches Some(h) && crate::paths::path_eq(path@, h@)) {
                r == (FolderName::Home, true)
            } else {
                !r.1 && (r.0 matches FolderName::Named(s) && s@ == match listed {
                    Some(l) => l@,
                    None => n,
                })
            },
        },
{
    let name = match file_name(path) {
        Some(n) => n,
        None => return (FolderName::Filesystem, false),
    };
    let at_home = match home {
        Some(h) => crate::paths::same_path(path, h),
        None => false,
    };
    if at_home {
        return (FolderName::Home, true);
    }
    match listed {
        Some(l) => (FolderName::Named(l), false),
        None => (FolderName::Named(name), false),
    }
}

/// The columns of the list view, which are also what it sorts by.
#[derive(Clone, Copy, Debug, Hash, PartialEq, Eq, PartialOrd, Ord, Structural)]
pub enum HeadingOptions {
    Name,
    Modified,
    Size,
    TrashedOn,
    Type,
}

impl HeadingOptions {
    /// The message ids of the column headings, in column order; the caller
    /// looks each up in the translations.
    pub fn names() -> (r: Vec<&'static str>)
        ensures
            r@.len() == 5,
            r@[0]@ == "name"@,
            r@[1]@ == "modified"@,
            r@[2]@ == "size"@,
            r@[3]@ == "trashed-on"@,
            r@[4]@ == "type-heading"@,
    {
        vec!["name", "modified", "size", "trashed-on", "type-heading"]
    }
}

/// The column a listing is sorted by, and whether ascending.
#[derive(Clone, Copy, Debug, PartialEq, Eq, Structural)]
pub struct Sort {
    pub heading: HeadingOptions,
    pub ascending: bool,
}

/// The order after clicking `heading`: the same column flips its direction;
/// another column starts ascending, but the modification time descending.
pub open spec fn toggled(sort: Sort, heading: HeadingOptions) -> Sort {
    Sort {
        heading,
        ascending: if sort.heading == heading {
            !sort.ascending
        } else {
            heading != HeadingOptions::Modified
        },
    }
}

/// Clicking a column heading sorts by that column. Clicking the column the
/// listing is already sorted by reverses the direction; clicking another
/// column starts it ascending, whatever the direction was, except the
/// modification time, which starts descending (newest first). Clicking the
/// same heading twice restores the order.
pub proof fn lemma_toggle_directions(sort: Sort, other: Sort, heading: HeadingOptions)
    ensures
        toggled(sort, heading).heading == heading,
        sort.heading == heading ==> toggled(sort, heading).ascending != sort.ascending,
        sort.heading != heading && heading != HeadingOptions::Modified ==> toggled(sort, heading).ascending,
        sort.heading != heading && heading == HeadingOptions::Modified ==> !toggled(sort, heading).ascending,
        sort.heading != heading && other.heading != heading ==> toggled(sort, heading) == toggled(other, heading),
        toggled(toggled(sort, heading), heading).ascending != toggled(sort, heading).ascending,
        sort.heading == heading ==> toggled(toggled(sort, heading), heading) == sort,
{
}

impl Sort {
    /// Click the heading of column `heading`. A search keeps its own order,
    /// and then nothing changes; otherwise returns the new order, which is to
    /// be saved for the location.
    pub fn toggle(&mut self, heading: HeadingOptions, in_search: bool) -> (r: Option<Sort>)
        ensures
            in_search ==> *final(self) == *old(self) && r is None,
            !in_search ==> *final(self) == toggled(*old(self), heading) && r == Some(*final(self)),
    {
        if in_search {
            return None;
        }
        let ascending = if self.heading == heading {
            !self.ascending
        } else {
            heading != HeadingOptions::Modified
        };
        self.heading = heading;
        self.ascending = ascending;
        Some(*self)
    }

    /// Sort by `heading` in the direction given. A search keeps its own
    /// order; otherwise returns the new order, to be saved.
    pub fn set(&mut self, heading: HeadingOptions, ascending: bool, in_search: bool) -> (r: Option<Sort>)
        ensures
            in_search ==> *final(self) == *old(self) && r is None,
            !in_search ==> *final(self) == (Sort { heading, ascending }) && r == Some(*final(self)),
    {
        if in_search {
            return None;
        }
        self.heading = heading;
        self.ascending = ascending;
        Some(*self)
    }

    /// What the listing is sorted by: the column, whether ascending, and
    /// whether folders come first. A search lists the most recently modified
    /// first, folders mixed in.
    pub fn options(&self, in_search: bool, folders_first: bool) -> (r: (HeadingOptions, bool, bool))
        ensures
            r == (if in_search {
                (HeadingOptions::Modified, false, false)
            } else {
                (self.heading, self.ascending, folders_first)
            }),
    {
        if in_search {
            (HeadingOptions::Modified, false, false)
        } else {
            (self.heading, self.ascending, folders_first)
        }
    }
}

/// Clicking the same column heading twice outside a search gives back the
/// order there was before.
pub proof fn lemma_toggle_twice(sort: Sort, heading: HeadingOptions)
    requires
        sort.heading == heading,
    ensures
        toggled(toggled(sort, heading), heading) == sort,
{
}

/// The file dialogs the file manager can be opened as.
#[derive(Debug)]
pub enum DialogKind {
    OpenFile,
    OpenFolder,
    OpenMultipleFiles,
    OpenMultipleFolders,
    SaveFile { filename: String },
}

impl DialogKind {
    /// Whether the dialog returns more than one item.
    pub fn multiple(&self) -> (r: bool)
        ensures
            r == (*self is OpenMultipleFiles || *self is OpenMultipleFolders),
    {
        match self {
            DialogKind::OpenMultipleFiles | DialogKind::OpenMultipleFolders => true,
            _ => false,
        }
    }
}

/// Whether the tab belongs to the file manager or to a file dialog.
#[derive(Debug)]
pub enum Mode {
    App,
    Dialog(DialogKind),
}

impl Mode {
    /// Whether more than one item can be selected in this mode.
    pub fn multiple(&self) -> (r: bool)
        ensures
            r == match self {
                Mode::App => true,
                Mode::Dialog(d) => d is OpenMultipleFiles || d is OpenMultipleFolders,
            },
    {
        match self {
            Mode::App => true,
            Mode::Dialog(dialog) => dialog.multiple(),
        }
    }
}

/// The most bytes of a text file read for its preview.
pub const TEXT_PREVIEW_MAX_BYTES: usize = 262144;

/// How many bytes of a text file of `size` bytes are read for its preview.
pub fn text_preview_read_cap(size: u64) -> (r: usize)
    ensures
        r == (if size < TEXT_PREVIEW_MAX_BYTES {
            size as int
        } else {
            TEXT_PREVIEW_MAX_BYTES as int
        }),
{
    if size < TEXT_PREVIEW_MAX_BYTES as u64 {
        size as usize
    } else {
        TEXT_PREVIEW_MAX_BYTES
    }
}

/// `bytes` checked as UTF-8, by `std::str::from_utf8`: the text when it is
/// valid; otherwise how many leading bytes are valid, by
/// `Utf8Error::valid_up_to`, which is the longest prefix that is.
#[verifier::external_body]
fn check_utf8(bytes: &[u8]) -> (r: Result<String, usize>)
    ensures
        match r {
            Ok(s) => valid_utf8(bytes@) && s@ == decode_utf8(bytes@),
            Err(k) => {
                &&& !valid_utf8(bytes@)
                &&& k < bytes@.len()
                &&& valid_utf8(bytes@.take(k as int))
                &&& forall|j: int| k < j <= bytes@.len() ==> !valid_utf8(#[trigger] bytes@.take(j))
            },
        },
{
    match std::str::from_utf8(bytes) {
        Ok(s) => Ok(s.to_owned()),
        Err(e) => Err(e.valid_up_to()),
    }
}

/// The length of the longest prefix of `bytes` that is valid UTF-8.
pub open spec fn valid_prefix_len(bytes: Seq<u8>) -> int {
    choose|k: int|
        0 <= k <= bytes.len() && valid_utf8(bytes.take(k)) && forall|j: int|
            k < j <= bytes.len() ==> !valid_utf8(#[trigger] bytes.take(j))
}

/// The text a preview shows of a file that begins with `bytes`: as much of
/// it as is valid UTF-8, from the start; none when that is empty.
pub open spec fn text_preview_spec(bytes: Seq<u8>) -> Option<Seq<char>> {
    let text = decode_utf8(bytes.take(valid_prefix_len(bytes)));
    if text.len() > 0 {
        Some(text)
    } else {
        None
    }
}

proof fn lemma_valid_prefix_unique(bytes: Seq<u8>, k: int)
    requires
        0 <= k <= bytes.len(),
        valid_utf8(bytes.take(k)),
        forall|j: int| k < j <= bytes.len() ==> !valid_utf8(#[trigger] bytes.take(j)),
    ensures
        valid_prefix_len(bytes) == k,
{
    let c = valid_prefix_len(bytes);
    assert(0 <= c <= bytes.len() && valid_utf8(bytes.take(c)) && forall|j: int|
        c < j <= bytes.len() ==> !valid_utf8(#[trigger] bytes.take(j)));
    if c < k {
        assert(!valid_utf8(bytes.take(k)));
    } else if c > k {
        assert(!valid_utf8(bytes.take(c)));
    }
}

/// The text preview of a file whose first bytes are `bytes`.
pub fn text_preview(bytes: &[u8]) -> (r: Option<String>)
    ensures
        opt_string_view(r) == text_preview_spec(bytes@),
{
    let text = match check_utf8(bytes) {
        Ok(s) => {
            proof {
                assert(bytes@.take(bytes@.len() as int) =~= bytes@);
                lemma_valid_prefix_unique(bytes@, bytes@.len() as int);
            }
            s
        },
        Err(k) => {
            proof {
                lemma_valid_prefix_unique(bytes@, k as int);
            }
            let prefix = slice_prefix(bytes, k);
            match check_utf8(&prefix) {
                Ok(s) => s,
                Err(_) => String::new(),
            }
        },
    };
    if text.as_str().is_empty() {
        None
    } else {
        Some(text)
    }
}

/// The first `k` of `bytes`.
fn slice_prefix(bytes: &[u8], k: usize) -> (r: Vec<u8>)
    requires
        k <= bytes@.len(),
    ensures
        r@ == bytes@.take(k as int),
{
    let mut out: Vec<u8> = Vec::new();
    let mut i: usize = 0;
    while i < k
        invariant
            i <= k <= bytes@.len(),
            out@ == bytes@.take(i as int),
        decreases k - i,
    {
        out.push(bytes[i]);
        assert(bytes@.take(i + 1) =~= bytes@.take(i as int).push(bytes@[i as int]));
        i = i + 1;
    }
    out
}

/// User or group names already looked up, by id.
pub struct NameCache {
    names: HashMap<u32, String>,
}

impl NameCache {
    /// The names held, by id.
    pub closed spec fn view(&self) -> Map<u32, Seq<char>> {
        self.names@.map_values(|s: String| s@)
    }

    /// A cache holding no names.
    pub fn new() -> (r: Self)
        ensures
            r.view() == Map::<u32, Seq<char>>::empty(),
    {
        let r = NameCache { names: HashMap::new() };
        assert(r.view() =~= Map::<u32, Seq<char>>::empty());
        r
    }
}

/// The name of `id`: the one held when there is one, else what `lookup`
/// gives, which is then held.
pub fn cached_name(cache: &mut NameCache, id: u32, lookup: impl FnOnce(u32) -> String) -> (r: String)
    requires
        call_requires(lookup, (id,)),
    ensures
        old(cache).view().contains_key(id) ==> r@ == old(cache).view()[id] && final(cache).view()
            == old(cache).view(),
        !old(cache).view().contains_key(id) ==> call_ensures(lookup, (id,), r) && final(cache).view()
            == old(cache).view().insert(id, r@),
        final(cache).view().contains_key(id) && final(cache).view()[id] == r@,
{
    match cache.names.get(&id) {
        Some(name) => {
            return name.clone();
        },
        None => {},
    }
    let name = lookup(id);
    let ghost before = cache.names@;
    cache.names.insert(id, name.clone());
    assert(cache.names@.map_values(|s: String| s@) =~= before.map_values(|s: String| s@).insert(
        id,
        name@,
    ));
    name
}

/// The user's special directories, each with the icon its folder is shown
/// with; a directory listed twice takes the later icon.
pub struct SpecialDirs {
    dirs: Vec<(String, &'static str)>,
}

/// The icon of the last of `dirs` that is `path`, or the plain folder icon.
pub open spec fn special_icon(dirs: Seq<(Seq<char>, Seq<char>)>, path: Seq<char>) -> Seq<char>
    decreases dirs.len(),
{
    if dirs.len() == 0 {
        "folder"@
    } else if crate::paths::path_eq(dirs.last().0, path) {
        dirs.last().1
    } else {
        special_icon(dirs.drop_last(), path)
    }
}

impl SpecialDirs {
    /// The directories and their icons, in the order they were given.
    pub closed spec fn view(&self) -> Seq<(Seq<char>, Seq<char>)> {
        self.dirs@.map_values(|e: (String, &'static str)| (e.0@, e.1@))
    }

    /// The special directories that exist: documents, downloads, music,
    /// pictures, public share, templates, videos, desktop and home, in that
    /// order.
    pub fn new(
        documents: Option<String>,
        downloads: Option<String>,
        music: Option<String>,
        pictures: Option<String>,
        public: Option<String>,
        templates: Option<String>,
        videos: Option<String>,
        desktop: Option<String>,
        home: Option<String>,
    ) -> (r: Self)
        ensures
            r.view() == seq![
                (documents, "folder-documents"@),
                (downloads, "folder-download"@),
                (music, "folder-music"@),
                (pictures, "folder-pictures"@),
                (public, "folder-publicshare"@),
                (templates, "folder-templates"@),
                (videos, "folder-videos"@),
                (desktop, "user-desktop"@),
                (home, "user-home"@),
            ].filter(|e: (Option<String>, Seq<char>)| e.0 is Some).map_values(
                |e: (Option<String>, Seq<char>)| (e.0->0@, e.1),
            ),
    {
        let mut all: Vec<(Option<String>, &'static str)> = Vec::new();
        all.push((documents, "folder-documents"));
        all.push((downloads, "folder-download"));
        all.push((music, "folder-music"));
        all.push((pictures, "folder-pictures"));
        all.push((public, "folder-publicshare"));
        all.push((templates, "folder-templates"));
        all.push((videos, "folder-videos"));
        all.push((desktop, "user-desktop"));
        all.push((home, "user-home"));
        let ghost spec_all = seq![
            (documents, "folder-documents"@),
            (downloads, "folder-download"@),
            (music, "folder-music"@),
            (pictures, "folder-pictures"@),
            (public, "folder-publicshare"@),
            (templates, "folder-templates"@),
            (videos, "folder-videos"@),
            (desktop, "user-desktop"@),
            (home, "user-home"@),
        ];
        assert(all@.map_values(|e: (Option<String>, &'static str)| (e.0, e.1@)) =~= spec_all);
        let mut dirs: Vec<(String, &'static str)> = Vec::new();
        let mut i: usize = 0;
        while i < all.len()
            invariant
                i <= all@.len() == spec_all.len(),
                all@.map_values(|e: (Option<String>, &'static str)| (e.0, e.1@)) == spec_all,
                dirs@.map_values(|e: (String, &'static str)| (e.0@, e.1@)) == spec_all.take(i as int).filter(
                    |e: (Option<String>, Seq<char>)| e.0 is Some,
                ).map_values(|e: (Option<String>, Seq<char>)| (e.0->0@, e.1)),
            decreases all@.len() - i,
        {
            let ghost before = dirs@;
            assert(spec_all.take(i + 1).drop_last() =~= spec_all.take(i as int));
            assert(spec_all.take(i + 1).last() == spec_all[i as int]);
            reveal(Seq::filter);
            let name = all[i].1;
            match &all[i].0 {
                Some(dir) => {
                    dirs.push((dir.clone(), name));
                    assert(dirs@.map_values(|e: (String, &'static str)| (e.0@, e.1@)) =~= before.map_values(
                        |e: (String, &'static str)| (e.0@, e.1@),
                    ).push((dir@, name@)));
                },
                None => {},
            }
            i = i + 1;
        }
        assert(spec_all.take(9) =~= spec_all);
        SpecialDirs { dirs }
    }
}

/// The icon a folder at `path` is shown with: its special directory's, or
/// the plain folder icon.
pub fn folder_icon_name(specials: &SpecialDirs, path: &str) -> (r: &'static str)
    ensures
        r@ == special_icon(specials.view(), path@),
{
    let n = specials.dirs.len();
    let mut i: usize = n;
    assert(specials.view().take(n as int) =~= specials.view());
    while i > 0
        invariant
            i <= n == specials.dirs@.len(),
            special_icon(specials.view(), path@) == special_icon(specials.view().take(i as int), path@),
        decreases i,
    {
        let ghost pre = specials.view().take(i as int);
        assert(pre.drop_last() =~= specials.view().take(i - 1));
        assert(pre.last() == (specials.dirs@[i - 1].0@, specials.dirs@[i - 1].1@));
        if crate::paths::same_path(specials.dirs[i - 1].0.as_str(), path) {
            return specials.dirs[i - 1].1;
        }
        i = i - 1;
    }
    "folder"
}

/// What the location bar's context menu offers for one of its breadcrumbs,
/// by position.
#[derive(Clone, Copy, Debug, PartialEq, Eq, Structural)]
pub enum LocationMenuAction {
    OpenInNewTab(usize),
    OpenInNewWindow(usize),
    Preview(usize),
    AddToSidebar(usize),
}

impl LocationMenuAction {
    /// The crumb the action is for: how many steps up from the location's
    /// path (see `Location::ancestor_path`).
    pub fn ancestor_index(&self) -> (r: usize)
        ensures
            r == match *self {
                LocationMenuAction::OpenInNewTab(i) => i,
                LocationMenuAction::OpenInNewWindow(i) => i,
                LocationMenuAction::Preview(i) => i,
                LocationMenuAction::AddToSidebar(i) => i,
            },
    {
        match *self {
            LocationMenuAction::OpenInNewTab(i) => i,
            LocationMenuAction::OpenInNewWindow(i) => i,
            LocationMenuAction::Preview(i) => i,
            LocationMenuAction::AddToSidebar(i) => i,
        }
    }
}

/// The size of a directory as far as it is known. The worker that computes
/// it is the caller's, and is not kept here.
#[derive(Clone, Debug, PartialEq, Eq)]
pub enum DirSize {
    Calculating,
    Directory(u64),
    NotDirectory,
    Error(String),
}

/// Checksums computed for a file.
#[derive(Clone, Debug, PartialEq, Eq)]
pub struct FileChecksums {
    pub sha256: String,
}

impl Default for FileChecksums {
    fn default() -> (r: Self)
        ensures
            r.sha256@ == Seq::<char>::empty(),
    {
        FileChecksums { sha256: String::new() }
    }
}

/// How far the checksums of a file have got.
#[derive(Clone, Debug, PartialEq, Eq)]
pub enum ChecksumState {
    NotCalculated,
    Calculating,
    Calculated(FileChecksums),
    Error(String),
}

impl Default for ChecksumState {
    fn default() -> (r: Self)
        ensures
            r is NotCalculated,
    {
        ChecksumState::NotCalculated
    }
}

/// The dividers between list-view columns that can be dragged.
#[derive(Clone, Copy, Debug, PartialEq, Eq, Structural)]
pub enum ColumnDivider {
    NameModified,
    ModifiedSize,
    /// Only while the Type column is shown.
    SizeType,
}

/// Whether an entry named `name` is hidden: its name starts with a dot, or
/// the directory's `.hidden` file lists it.
pub open spec fn is_hidden_name(name: Seq<char>, listed: Seq<Seq<char>>) -> bool {
    (name.len() > 0 && name[0] == '.') || listed.contains(name)
}

/// Whether the entry named `name` is hidden, given the names `listed` in
/// its directory's `.hidden` file.
pub fn hidden_entry(name: &str, listed: &[String]) -> (r: bool)
    ensures
        r == is_hidden_name(name@, listed@.map_values(|s: String| s@)),
{
    let cs = chars_of(name);
    if cs.len() > 0 && cs[0] == '.' {
        return true;
    }
    let ghost views = listed@.map_values(|s: String| s@);
    let mut i: usize = 0;
    while i < listed.len()
        invariant
            i <= listed@.len(),
            views == listed@.map_values(|s: String| s@),
            forall|j: int| 0 <= j < i ==> views[j] != name@,
        decreases listed@.len() - i,
    {
        if str_eq(listed[i].as_str(), name) {
            assert(views[i as int] == name@);
            return true;
        }
        i = i + 1;
    }
    assert(!views.contains(name@)) by {
        if views.contains(name@) {
            let k = choose|k: int| 0 <= k < views.len() && views[k] == name@;
            assert(views[k] != name@);
        }
    }
    false
}

/// How long ago a file time `secs` seconds from the epoch was, at `now`
/// (seconds from the epoch, none when the clock reads before it): none for
/// a time before the epoch or after now, which are not shown.
pub fn seconds_ago(secs: i64, now: Option<u64>) -> (r: Option<u64>)
    ensures
        r == (match now {
            Some(n) => if 0 <= secs <= n {
                Some((n - secs) as u64)
            } else {
                None::<u64>
            },
            None => None::<u64>,
        }),
{
    if secs < 0 {
        return None;
    }
    let secs = secs as u64;
    match now {
        Some(n) => n.checked_sub(secs),
        None => None,
    }
}

/// Which way a scroll went, up (away from the user) or down, or neither.
#[derive(Clone, Copy, Debug, PartialEq, Eq, Structural)]
pub enum ScrollDirection {
    Up,
    Down,
    Still,
}

/// Which way to zoom.
#[derive(Clone, Copy, Debug, PartialEq, Eq, Structural)]
pub enum Zoom {
    In,
    Out,
}

/// What a scroll in `direction` does to the zoom, with Ctrl held or not:
/// with Ctrl, up zooms in and down out; without, nothing.
pub fn respond_to_scroll_direction(direction: ScrollDirection, ctrl: bool) -> (r: Option<Zoom>)
    ensures
        r == (if !ctrl {
            None
        } else {
            match direction {
                ScrollDirection::Up => Some(Zoom::In),
                ScrollDirection::Down => Some(Zoom::Out),
                ScrollDirection::Still => None,
            }
        }),
{
    if !ctrl {
        return None;
    }
    match direction {
        ScrollDirection::Up => Some(Zoom::In),
        ScrollDirection::Down => Some(Zoom::Out),
        ScrollDirection::Still => None,
    }
}

} // verus!
