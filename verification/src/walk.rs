//! What a walk of a directory tree found, entry by entry, and the rule on
//! which directories a walk leaves out.

use vstd::prelude::*;
use crate::text::{has_prefix, str_starts_with, views};

verus! {

/// One entry that a walk of a directory tree came across.
pub struct WalkEntry {
    /// The names on the way from the walk's root down to the entry; empty
    /// for the root itself.
    pub components: Vec<String>,
    /// The entry is a directory.
    pub is_dir: bool,
    /// The entry is a regular file.
    pub is_file: bool,
    /// The size in bytes, where the entry's metadata could be read.
    pub size: Option<u64>,
    /// The text of the file, where it was read and decoded.
    pub content: Option<String>,
}

/// The mathematical content of a `WalkEntry`.
pub struct EntryView {
    pub components: Seq<Seq<char>>,
    pub is_dir: bool,
    pub is_file: bool,
    pub size: Option<u64>,
    pub content: Option<Seq<char>>,
}

impl View for WalkEntry {
    type V = EntryView;

    open spec fn view(&self) -> EntryView {
        EntryView {
            components: views(self.components@),
            is_dir: self.is_dir,
            is_file: self.is_file,
            size: self.size,
            content: match self.content {
                Some(c) => Some(c@),
                None => None,
            },
        }
    }
}

/// The entry is as a walk gives it: it is not a directory and a regular
/// file at once, and each name on the way to it is a name, not empty and
/// without a separator.
pub open spec fn is_sound_entry(e: EntryView) -> bool {
    &&& !(e.is_dir && e.is_file)
    &&& forall|i: int|
        0 <= i < e.components.len() ==> (#[trigger] e.components[i]).len() > 0
            && !e.components[i].contains('/')
}

/// The views of a sequence of entries.
pub open spec fn entry_views(entries: Seq<WalkEntry>) -> Seq<EntryView> {
    entries.map_values(|e: WalkEntry| e@)
}

/// The name begins like a directory that tools leave out: dependency
/// caches, version-control data and build output.
pub open spec fn has_ignored_prefix(name: Seq<char>) -> bool {
    ||| has_prefix(name, "node_modules"@)
    ||| has_prefix(name, ".git"@)
    ||| has_prefix(name, "target"@)
    ||| has_prefix(name, ".next"@)
    ||| has_prefix(name, "out"@)
    ||| has_prefix(name, "dist"@)
}

/// A directory of this name is left out of every walk, with all below it.
pub open spec fn is_ignored_dir(name: Seq<char>, is_dir: bool) -> bool {
    is_dir && has_ignored_prefix(name)
}

/// The names from the walk's root down to an entry, the root's own name
/// first.
pub open spec fn chain(root_name: Seq<char>, components: Seq<Seq<char>>) -> Seq<Seq<char>> {
    seq![root_name] + components
}

/// An entry reached by the names `names` is an ignored directory or lies
/// below one.
pub open spec fn is_pruned(names: Seq<Seq<char>>, is_dir: bool) -> bool {
    exists|i: int|
        0 <= i < names.len() && #[trigger] has_ignored_prefix(names[i]) && (i < names.len() - 1
            || is_dir)
}

/// The number that applies: the one asked for, or the default when none
/// is.
pub open spec fn number_or(asked: Option<usize>, default: nat) -> nat {
    match asked {
        Some(d) => d as nat,
        None => default,
    }
}

/// Whether a name begins like an ignored directory.
pub fn ignored_prefix(name: &str) -> (r: bool)
    ensures
        r == has_ignored_prefix(name@),
{
    str_starts_with(name, "node_modules") || str_starts_with(name, ".git") || str_starts_with(
        name,
        "target",
    ) || str_starts_with(name, ".next") || str_starts_with(name, "out") || str_starts_with(
        name,
        "dist",
    )
}

/// Whether a walk leaves out the entry of this name: it does so for the
/// directories whose names begin like an ignored one.
pub fn ignored_dir(name: &str, is_dir: bool) -> (r: bool)
    ensures
        r == is_ignored_dir(name@, is_dir),
{
    is_dir && ignored_prefix(name)
}

/// Whether the entry is an ignored directory or lies below one, the root
/// of the walk counted in.
pub fn pruned(root_name: &str, entry: &WalkEntry) -> (r: bool)
    ensures
        r == is_pruned(chain(root_name@, entry@.components), entry.is_dir),
{
    let ghost names = chain(root_name@, entry@.components);
    let n = entry.components.len();
    if ignored_prefix(root_name) && (n > 0 || entry.is_dir) {
        assert(has_ignored_prefix(names[0]));
        return true;
    }
    let mut i: usize = 0;
    while i < n
        invariant
            i <= n,
            n == entry.components.len(),
            names == chain(root_name@, entry@.components),
            forall|k: int|
                0 <= k < i + 1 ==> !(#[trigger] has_ignored_prefix(names[k]) && (k < names.len()
                    - 1 || entry.is_dir)),
        decreases n - i,
    {
        assert(names[i + 1] == entry.components@[i as int]@);
        if ignored_prefix(entry.components[i].as_str()) && (i + 1 < n || entry.is_dir) {
            assert(has_ignored_prefix(names[i + 1]));
            return true;
        }
        i += 1;
    }
    false
}

} // verus!
