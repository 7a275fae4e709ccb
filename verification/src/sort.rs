//! The order a listing shows its items in when sorted by size, modification
//! time or deletion time: a stable sort by a key made of a group that comes
//! first whatever the direction, and a value compared in the chosen
//! direction.

use crate::tab::HeadingOptions;
use vstd::prelude::*;

verus! {

/// What an item is sorted by: items with `first` set come before the others
/// whatever the direction, and within each group the values are compared,
/// an absent value before any present one.
#[derive(Clone, Copy, Debug, PartialEq, Eq, Structural)]
pub struct SortKey {
    pub first: bool,
    pub value: Option<i128>,
}

/// How two values compare: negative, zero or positive.
pub open spec fn value_order(a: Option<i128>, b: Option<i128>) -> int {
    match (a, b) {
        (None, None) => 0,
        (None, Some(_)) => -1,
        (Some(_), None) => 1,
        (Some(x), Some(y)) => if x < y {
            -1
        } else if x == y {
            0
        } else {
            1
        },
    }
}

/// How two keys compare in the listing's direction.
pub open spec fn key_order(a: SortKey, b: SortKey, ascending: bool) -> int {
    if a.first && !b.first {
        -1
    } else if !a.first && b.first {
        1
    } else if ascending {
        value_order(a.value, b.value)
    } else {
        -value_order(a.value, b.value)
    }
}

fn compare_keys(a: SortKey, b: SortKey, ascending: bool) -> (r: i8)
    ensures
        r == key_order(a, b, ascending),
{
    if a.first && !b.first {
        return -1;
    }
    if !a.first && b.first {
        return 1;
    }
    let v: i8 = match (a.value, b.value) {
        (None, None) => 0,
        (None, Some(_)) => -1,
        (Some(_), None) => 1,
        (Some(x), Some(y)) => if x < y {
            -1
        } else if x == y {
            0
        } else {
            1
        },
    };
    if ascending {
        v
    } else {
        -v
    }
}

/// `order` lists each index below `n` exactly once.
pub open spec fn is_permutation(order: Seq<usize>, n: nat) -> bool {
    &&& order.len() == n
    &&& forall|i: int| 0 <= i < order.len() ==> #[trigger] order[i] < n
    &&& forall|i: int, j: int| 0 <= i < j < order.len() ==> order[i] != order[j]
}

/// `order` puts the keys in order, and keeps items with equal keys in the
/// order they came in.
pub open spec fn sorted_stably(order: Seq<usize>, keys: Seq<SortKey>, ascending: bool) -> bool {
    forall|i: int, j: int|
        #![trigger order[i], order[j]]
        0 <= i < j < order.len() ==> {
            let c = key_order(keys[order[i] as int], keys[order[j] as int], ascending);
            c < 0 || (c == 0 && order[i] < order[j])
        }
}

proof fn lemma_key_order_laws(a: SortKey, b: SortKey, c: SortKey, ascending: bool)
    ensures
        key_order(a, b, ascending) == -key_order(b, a, ascending),
        key_order(a, b, ascending) <= 0 && key_order(b, c, ascending) <= 0 ==> key_order(a, c, ascending)
            <= 0,
        key_order(a, b, ascending) < 0 && key_order(b, c, ascending) <= 0 ==> key_order(a, c, ascending)
            < 0,
        key_order(a, b, ascending) <= 0 && key_order(b, c, ascending) < 0 ==> key_order(a, c, ascending)
            < 0,
        -1 <= key_order(a, b, ascending) <= 1,
{
}

/// The positions `0..n` in the order of their keys, ties kept in their
/// original order; the order `slice::sort_by` gives with the same
/// comparison.
pub fn sort_order(keys: &[SortKey], ascending: bool) -> (r: Vec<usize>)
    ensures
        is_permutation(r@, keys@.len()),
        sorted_stably(r@, keys@, ascending),
{
    let n = keys.len();
    let mut order: Vec<usize> = Vec::new();
    let mut k: usize = 0;
    while k < n
        invariant
            k <= n == keys@.len(),
            is_permutation(order@, k as nat),
            sorted_stably(order@, keys@, ascending),
        decreases n - k,
    {
        let key = keys[k];
        let mut p: usize = 0;
        while p < order.len()
            invariant
                p <= order@.len() == k,
                k < n == keys@.len(),
                key == keys@[k as int],
                is_permutation(order@, k as nat),
                forall|i: int| 0 <= i < p ==> key_order(keys@[order@[i] as int], key, ascending) <= 0,
            ensures
                p <= order@.len(),
                p < order@.len() ==> key_order(keys@[order@[p as int] as int], key, ascending) > 0,
                forall|i: int| 0 <= i < p ==> key_order(keys@[order@[i] as int], key, ascending) <= 0,
            decreases order@.len() - p,
        {
            if compare_keys(keys[order[p]], key, ascending) > 0 {
                break;
            }
            p = p + 1;
        }
        proof {
            assert forall|j: int| p <= j < order@.len() implies key_order(
                key,
                keys@[order@[j] as int],
                ascending,
            ) < 0 by {
                lemma_key_order_laws(key, keys@[order@[p as int] as int], keys@[order@[j] as int], ascending);
                lemma_key_order_laws(keys@[order@[p as int] as int], key, keys@[order@[j] as int], ascending);
                if j > p {
                    assert(key_order(keys@[order@[p as int] as int], keys@[order@[j] as int], ascending) <= 0);
                }
            }
        }
        let ghost before = order@;
        order.insert(p, k);
        assert(order@ =~= before.take(p as int).push(k).add(before.skip(p as int)));
        assert forall|i: int, j: int| 0 <= i < j < order@.len() implies order@[i] != order@[j] by {
            if i < p && j < p {
                assert(order@[i] == before[i] && order@[j] == before[j]);
            } else if i < p && j == p {
                assert(before[i] < k);
            } else if i < p {
                assert(order@[j] == before[j - 1]);
            } else if i == p {
                assert(before[j - 1] < k);
            } else {
                assert(order@[i] == before[i - 1] && order@[j] == before[j - 1]);
            }
        }
        assert forall|i: int| 0 <= i < order@.len() implies #[trigger] order@[i] < k + 1 by {
            if i < p {
                assert(order@[i] == before[i]);
            } else if i > p {
                assert(order@[i] == before[i - 1]);
            }
        }
        assert forall|i: int, j: int|
            #![trigger order@[i], order@[j]]
            0 <= i < j < order@.len() implies {
            let c = key_order(keys@[order@[i] as int], keys@[order@[j] as int], ascending);
            c < 0 || (c == 0 && order@[i] < order@[j])
        } by {
            if i < p && j < p {
                assert(order@[i] == before[i] && order@[j] == before[j]);
            } else if i < p && j == p {
                assert(order@[i] == before[i]);
                assert(before[i] < k);
            } else if i < p {
                assert(order@[i] == before[i] && order@[j] == before[j - 1]);
            } else if i == p {
                assert(order@[j] == before[j - 1]);
            } else {
                assert(order@[i] == before[i - 1] && order@[j] == before[j - 1]);
            }
        }
        k = k + 1;
    }
    order
}

/// What the listing reads of an item to sort it by a column.
#[derive(Clone, Copy, Debug)]
pub struct SortItem {
    /// Whether it is a directory.
    pub is_dir: bool,
    /// Whether its size counts entries (a directory) rather than bytes.
    pub size_is_entries: bool,
    /// Its size: entries or bytes.
    pub size: u64,
    /// When it was last modified, in nanoseconds from the epoch.
    pub modified: Option<i128>,
    /// When it was moved to the trash, in seconds from the epoch.
    pub trashed: Option<i64>,
    /// Its place in the collation the name or the type column sorts by:
    /// by display name for the name, by kind of file and then display name
    /// for the type. Items that collate equal have the same place. The
    /// collator is the caller's, for the heading being sorted.
    pub collation: u64,
}

/// The key an item sorts by under `heading`: sizes put entries before
/// bytes; the other columns put folders first when asked; the name and the
/// type compare by collation.
pub open spec fn sort_key_spec(item: SortItem, heading: HeadingOptions, folders_first: bool) -> SortKey {
    match heading {
        HeadingOptions::Size => SortKey { first: item.size_is_entries, value: Some(item.size as i128) },
        HeadingOptions::Modified => SortKey { first: folders_first && item.is_dir, value: item.modified },
        HeadingOptions::TrashedOn => SortKey {
            first: folders_first && item.is_dir,
            value: match item.trashed {
                Some(t) => Some(t as i128),
                None => None,
            },
        },
        HeadingOptions::Name | HeadingOptions::Type => SortKey {
            first: folders_first && item.is_dir,
            value: Some(item.collation as i128),
        },
    }
}

/// The direction the values compare in: as chosen, except that the time of
/// deletion runs the other way when folders are not put first.
pub open spec fn effective_ascending(heading: HeadingOptions, ascending: bool, folders_first: bool) -> bool {
    if heading == HeadingOptions::TrashedOn && !folders_first {
        !ascending
    } else {
        ascending
    }
}

/// The key of `item` under `heading`.
pub fn sort_key(item: &SortItem, heading: HeadingOptions, folders_first: bool) -> (r: SortKey)
    ensures
        r == sort_key_spec(*item, heading, folders_first),
{
    match heading {
        HeadingOptions::Size => SortKey { first: item.size_is_entries, value: Some(item.size as i128) },
        HeadingOptions::Modified => SortKey { first: folders_first && item.is_dir, value: item.modified },
        HeadingOptions::TrashedOn => SortKey {
            first: folders_first && item.is_dir,
            value: match item.trashed {
                Some(t) => Some(t as i128),
                None => None,
            },
        },
        HeadingOptions::Name | HeadingOptions::Type => SortKey {
            first: folders_first && item.is_dir,
            value: Some(item.collation as i128),
        },
    }
}

/// The keys of all items under `heading`, for a column sorted by value.
pub open spec fn keys_spec(items: Seq<SortItem>, heading: HeadingOptions, folders_first: bool) -> Seq<SortKey> {
    Seq::new(items.len(), |i: int| sort_key_spec(items[i], heading, folders_first))
}

/// The order the items are listed in when sorted by `heading`, as their
/// positions: every item once, in the order of their keys (see
/// [`sort_key_spec`]), items with equal keys in the order they came in.
pub fn column_order(items: &[SortItem], heading: HeadingOptions, ascending: bool, folders_first: bool) -> (r: Vec<usize>)
    ensures
        is_permutation(r@, items@.len()),
        sorted_stably(r@, keys_spec(items@, heading, folders_first), effective_ascending(heading, ascending, folders_first)),
{
    let mut keys: Vec<SortKey> = Vec::new();
    let mut i: usize = 0;
    while i < items.len()
        invariant
            i <= items@.len(),
            keys@ =~= keys_spec(items@, heading, folders_first).take(i as int),
        decreases items@.len() - i,
    {
        keys.push(sort_key(&items[i], heading, folders_first));
        i = i + 1;
    }
    assert(keys@ =~= keys_spec(items@, heading, folders_first));
    let asc = if heading == HeadingOptions::TrashedOn && !folders_first {
        !ascending
    } else {
        ascending
    };
    sort_order(&keys, asc)
}

/// Folders come first in a listing sorted with folders first, and by size,
/// whichever the direction: in an order that sorts the items by their keys,
/// no directory comes after an item that is not one. (Sizes count the
/// entries of directories, and of them only.)
pub proof fn lemma_folders_come_first(
    items: Seq<SortItem>,
    order: Seq<usize>,
    heading: HeadingOptions,
    ascending: bool,
    folders_first: bool,
    i: int,
    j: int,
)
    requires
        is_permutation(order, items.len()),
        sorted_stably(order, keys_spec(items, heading, folders_first), ascending),
        folders_first || heading == HeadingOptions::Size,
        heading == HeadingOptions::Size ==> forall|k: int| 0 <= k < items.len() ==> (#[trigger] items[k]).size_is_entries == items[k].is_dir,
        0 <= i < j < order.len(),
        items[order[j] as int].is_dir,
    ensures
        items[order[i] as int].is_dir,
{
    let keys = keys_spec(items, heading, folders_first);
    assert(order[i] < items.len() && order[j] < items.len());
    let c = key_order(keys[order[i] as int], keys[order[j] as int], ascending);
    assert(c < 0 || (c == 0 && order[i] < order[j]));
}

/// How big a trashed item is: a directory by its entries, a file by its
/// bytes.
#[derive(Clone, Copy, Debug, PartialEq, Eq, Structural)]
pub enum TrashItemSize {
    Entries(usize),
    Bytes(u64),
}

/// What is known of an item's file: times are in nanoseconds from the
/// epoch, as read from the filesystem.
#[derive(Clone, Copy, Debug, PartialEq, Eq, Structural)]
pub enum ItemMetadata {
    /// A file on disk: whether a directory, its length, when last modified
    /// (if known), and how many entries it has once counted.
    Path { is_dir: bool, len: u64, modified: Option<i128>, children_opt: Option<usize> },
    /// An item in the trash, and when it was trashed, in seconds.
    Trash { size: TrashItemSize, time_deleted: i64 },
    /// A directory known only by its number of entries.
    SimpleDir { entries: u64 },
    /// A file known only by its size.
    SimpleFile { size: u64 },
    /// A file GVFS reported: its modification time in seconds, its size if
    /// known, its entries once counted, and whether a directory.
    GvfsPath { mtime: u64, size_opt: Option<u64>, children_opt: Option<usize>, is_dir: bool },
}

/// The largest number of whole seconds from the epoch a time can hold.
pub const MAX_TIME_SECS: u64 = 9223372036854775807;

impl ItemMetadata {
    /// Whether the item is a directory.
    pub fn is_dir(&self) -> (r: bool)
        ensures
            r == match *self {
                ItemMetadata::Path { is_dir, .. } => is_dir,
                ItemMetadata::Trash { size, .. } => size is Entries,
                ItemMetadata::SimpleDir { .. } => true,
                ItemMetadata::SimpleFile { .. } => false,
                ItemMetadata::GvfsPath { is_dir, .. } => is_dir,
            },
    {
        match self {
            ItemMetadata::Path { is_dir, .. } => *is_dir,
            ItemMetadata::Trash { size, .. } => match size {
                TrashItemSize::Entries(_) => true,
                TrashItemSize::Bytes(_) => false,
            },
            ItemMetadata::SimpleDir { .. } => true,
            ItemMetadata::SimpleFile { .. } => false,
            ItemMetadata::GvfsPath { is_dir, .. } => *is_dir,
        }
    }

    /// When the item was last modified, in nanoseconds from the epoch: known
    /// for files on disk and from GVFS, whose seconds must fit a time.
    pub fn modified(&self) -> (r: Option<i128>)
        ensures
            r == match *self {
                ItemMetadata::Path { modified, .. } => modified,
                ItemMetadata::GvfsPath { mtime, .. } => if mtime <= MAX_TIME_SECS {
                    Some((mtime * 1000000000) as i128)
                } else {
                    None
                },
                _ => None,
            },
    {
        match self {
            ItemMetadata::Path { modified, .. } => *modified,
            ItemMetadata::GvfsPath { mtime, .. } => if *mtime <= MAX_TIME_SECS {
                Some((*mtime as i128) * 1000000000)
            } else {
                None
            },
            _ => None,
        }
    }

    /// The size in bytes of a file; none for a directory.
    pub fn file_size(&self) -> (r: Option<u64>)
        ensures
            r == match *self {
                ItemMetadata::Path { is_dir, len, .. } => if is_dir {
                    None
                } else {
                    Some(len)
                },
                ItemMetadata::Trash { size, .. } => match size {
                    TrashItemSize::Bytes(b) => Some(b),
                    TrashItemSize::Entries(_) => None,
                },
                ItemMetadata::GvfsPath { size_opt, .. } => size_opt,
                _ => None,
            },
    {
        match self {
            ItemMetadata::Path { is_dir, len, .. } => if *is_dir {
                None
            } else {
                Some(*len)
            },
            ItemMetadata::Trash { size, .. } => match size {
                TrashItemSize::Bytes(b) => Some(*b),
                TrashItemSize::Entries(_) => None,
            },
            ItemMetadata::GvfsPath { size_opt, .. } => *size_opt,
            _ => None,
        }
    }

    /// How many entries a directory has, once counted.
    pub fn children_count(&self) -> (r: Option<usize>)
        ensures
            r == match *self {
                ItemMetadata::Path { children_opt, .. } => children_opt,
                ItemMetadata::GvfsPath { children_opt, .. } => children_opt,
                _ => None,
            },
    {
        match self {
            ItemMetadata::Path { children_opt, .. } => *children_opt,
            ItemMetadata::GvfsPath { children_opt, .. } => *children_opt,
            _ => None,
        }
    }

    /// What the listing sorts this item by: whether it is a directory,
    /// whether its size counts entries, the size (entries not yet counted
    /// and sizes not known count as zero), its times, and its place in the
    /// name or type collation, `collation`.
    pub fn sort_item(&self, collation: u64) -> (r: SortItem)
        ensures
            r.collation == collation,
            r.is_dir == match *self {
                ItemMetadata::Path { is_dir, .. } => is_dir,
                ItemMetadata::Trash { size, .. } => size is Entries,
                ItemMetadata::SimpleDir { .. } => true,
                ItemMetadata::SimpleFile { .. } => false,
                ItemMetadata::GvfsPath { is_dir, .. } => is_dir,
            },
            (r.size_is_entries, r.size as int) == match *self {
                ItemMetadata::Path { is_dir, len, children_opt, .. } => if is_dir {
                    (true, match children_opt {
                        Some(c) => c as int,
                        None => 0,
                    })
                } else {
                    (false, len as int)
                },
                ItemMetadata::Trash { size, .. } => match size {
                    TrashItemSize::Entries(e) => (true, e as int),
                    TrashItemSize::Bytes(b) => (false, b as int),
                },
                ItemMetadata::SimpleDir { entries } => (true, entries as int),
                ItemMetadata::SimpleFile { size } => (false, size as int),
                ItemMetadata::GvfsPath { is_dir, size_opt, children_opt, .. } => if is_dir {
                    (true, match children_opt {
                        Some(c) => c as int,
                        None => 0,
                    })
                } else {
                    (false, match size_opt {
                        Some(s) => s as int,
                        None => 0,
                    })
                },
            },
            r.trashed == match *self {
                ItemMetadata::Trash { time_deleted, .. } => Some(time_deleted),
                _ => None,
            },
            r.modified == match *self {
                ItemMetadata::Path { modified, .. } => modified,
                ItemMetadata::GvfsPath { mtime, .. } => if mtime <= MAX_TIME_SECS {
                    Some((mtime * 1000000000) as i128)
                } else {
                    None
                },
                _ => None,
            },
    {
        let is_dir = self.is_dir();
        let (size_is_entries, size): (bool, u64) = match self {
            ItemMetadata::Path { is_dir, len, children_opt, .. } => if *is_dir {
                (true, match children_opt {
                    Some(c) => *c as u64,
                    None => 0,
                })
            } else {
                (false, *len)
            },
            ItemMetadata::Trash { size, .. } => match size {
                TrashItemSize::Entries(e) => (true, *e as u64),
                TrashItemSize::Bytes(b) => (false, *b),
            },
            ItemMetadata::SimpleDir { entries } => (true, *entries),
            ItemMetadata::SimpleFile { size } => (false, *size),
            ItemMetadata::GvfsPath { is_dir, size_opt, children_opt, .. } => if *is_dir {
                (true, match children_opt {
                    Some(c) => *c as u64,
                    None => 0,
                })
            } else {
                (false, match size_opt {
                    Some(s) => *s,
                    None => 0,
                })
            },
        };
        let trashed = match self {
            ItemMetadata::Trash { time_deleted, .. } => Some(*time_deleted),
            _ => None,
        };
        SortItem { is_dir, size_is_entries, size, modified: self.modified(), trashed, collation }
    }
}

} // verus!
