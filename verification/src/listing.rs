//! The file enumerator: which of the entries that a walk found are listed,
//! under a depth bound, the rule on ignored directories, an optional glob
//! filter and a cap on the number of results.

use vstd::prelude::*;
use crate::glob_filter::{accepts, compile, filter_of, glob_accepts};
use crate::paths::ValidatedPath;
use crate::text::{first_n, join_strings, join_with, text_view, views};
use crate::walk::{
    chain, entry_views, is_pruned, is_sound_entry, number_or, pruned, EntryView, WalkEntry,
};

verus! {

/// One listed entry: its path below the base, with `/` between the names,
/// whether it is a directory, and its size where it is a regular file.
#[derive(Debug, Clone, PartialEq, Eq)]
pub struct FileSearchResult {
    pub path: String,
    pub is_directory: bool,
    pub size: Option<u64>,
}

/// The mathematical content of a `FileSearchResult`.
pub struct ListingView {
    pub path: Seq<char>,
    pub is_directory: bool,
    pub size: Option<u64>,
}

impl View for FileSearchResult {
    type V = ListingView;

    open spec fn view(&self) -> ListingView {
        ListingView { path: self.path@, is_directory: self.is_directory, size: self.size }
    }
}

/// The views of a sequence of listed entries.
pub open spec fn listing_views(v: Seq<FileSearchResult>) -> Seq<ListingView> {
    v.map_values(|r: FileSearchResult| r@)
}

/// The most entries that a listing holds.
pub open spec fn listing_cap() -> nat {
    100
}

/// The depth of a listing when none is asked for.
pub open spec fn default_list_depth() -> nat {
    3
}

/// The path of an entry below the base.
pub open spec fn relative_path(components: Seq<Seq<char>>) -> Seq<char> {
    join_with(components, "/"@)
}

/// How an entry is listed: with its path below the base, as a directory
/// where it is one, and with its size only where it is a regular file and
/// no directory.
pub open spec fn listed_as(e: EntryView) -> ListingView {
    ListingView {
        path: relative_path(e.components),
        is_directory: e.is_dir,
        size: if e.is_file && !e.is_dir {
            e.size
        } else {
            None
        },
    }
}

/// The entry is one that a walk to `depth` levels below the base reports:
/// it is not the base itself, not deeper than `depth`, and neither an
/// ignored directory nor below one.
pub open spec fn is_listed(e: EntryView, root_name: Seq<char>, depth: nat) -> bool {
    &&& 1 <= e.components.len() <= depth
    &&& !is_pruned(chain(root_name, e.components), e.is_dir)
}

/// The entry passes the filter: there is none, or the pattern matches the
/// entry's path below the base or its bare name.
pub open spec fn passes_filter(e: EntryView, filter: Option<Seq<char>>) -> bool {
    e.components.len() > 0 && match filter {
        None => true,
        Some(p) => glob_accepts(p, relative_path(e.components)) || glob_accepts(
            p,
            e.components.last(),
        ),
    }
}

/// The filter's verdict on each entry.
pub open spec fn filter_verdicts(entries: Seq<EntryView>, filter: Option<Seq<char>>) -> Seq<bool> {
    Seq::new(entries.len(), |i: int| passes_filter(entries[i], filter))
}

/// The listing of the entries, in the order of the walk: those that the
/// walk reports and whose verdict in `passes` is true. An entry without a
/// verdict is not listed.
pub open spec fn selection(
    entries: Seq<EntryView>,
    passes: Seq<bool>,
    root_name: Seq<char>,
    depth: nat,
) -> Seq<ListingView>
    decreases entries.len(),
{
    if entries.len() == 0 {
        Seq::empty()
    } else {
        let rest = selection(entries.drop_last(), passes, root_name, depth);
        let i = entries.len() - 1;
        if is_listed(entries[i], root_name, depth) && i < passes.len() && passes[i] {
            rest.push(listed_as(entries[i]))
        } else {
            rest
        }
    }
}

/// How one entry is listed.
fn list_entry(entry: &WalkEntry) -> (r: FileSearchResult)
    ensures
        r@ == listed_as(entry@),
{
    FileSearchResult {
        path: join_strings(&entry.components, "/"),
        is_directory: entry.is_dir,
        size: if entry.is_file && !entry.is_dir {
            entry.size
        } else {
            None
        },
    }
}

/// Lists the entries of a walk from `base` whose verdict in `passes` is
/// true, down to `max_depth` levels, and keeps the first hundred.
pub fn select_entries(
    base: &ValidatedPath,
    entries: &Vec<WalkEntry>,
    passes: &Vec<bool>,
    max_depth: usize,
) -> (out: Vec<FileSearchResult>)
    ensures
        listing_views(out@) == first_n(
            selection(
                entry_views(entries@),
                passes@,
                base@.name(),
                max_depth as nat,
            ),
            listing_cap(),
        ),
        out.len() <= listing_cap(),
{
    let ghost ev = entry_views(entries@);
    let ghost root = base@.name();
    let ghost depth = max_depth as nat;
    let root_name: &str = base.name();
    let mut out: Vec<FileSearchResult> = Vec::new();
    let mut i: usize = 0;
    assert(ev.take(0) =~= Seq::<EntryView>::empty());
    assert(listing_views(out@) =~= Seq::<ListingView>::empty());
    while i < entries.len()
        invariant
            i <= entries.len(),
            ev == entry_views(entries@),
            root == base@.name(),
            root_name@ == root,
            depth == max_depth as nat,
            listing_views(out@) == first_n(
                selection(ev.take(i as int), passes@, root, depth),
                listing_cap(),
            ),
            out.len() <= listing_cap(),
        decreases entries.len() - i,
    {
        let entry = &entries[i];
        let ghost before = selection(ev.take(i as int), passes@, root, depth);
        assert(ev.take(i + 1).drop_last() =~= ev.take(i as int));
        assert(ev.take(i + 1)[i as int] == entry@);
        let n = entry.components.len();
        let keep = 1 <= n && n <= max_depth && i < passes.len() && passes[i] && !pruned(
            root_name,
            entry,
        );
        assert(keep == (is_listed(entry@, root, depth) && i < passes@.len() && passes@[i as int]));
        if keep && out.len() < 100 {
            let r = list_entry(entry);
            let ghost old_out = listing_views(out@);
            out.push(r);
            assert(listing_views(out@) =~= old_out.push(r@));
            assert(first_n(before.push(listed_as(entry@)), listing_cap()) =~= first_n(
                before,
                listing_cap(),
            ).push(listed_as(entry@)));
        } else if keep {
            assert(first_n(before.push(listed_as(entry@)), listing_cap()) =~= first_n(
                before,
                listing_cap(),
            ));
        }
        i += 1;
    }
    assert(ev.take(entries.len() as int) =~= ev);
    out
}

/// The glob filter's verdict on each entry of a walk.
fn verdicts(entries: &Vec<WalkEntry>, pattern: &Option<String>) -> (passes: Vec<bool>)
    ensures
        passes@ == filter_verdicts(entry_views(entries@), filter_of(text_view(*pattern))),
{
    let compiled = match pattern {
        Some(p) => compile(p.as_str()),
        None => None,
    };
    let ghost filter = filter_of(text_view(*pattern));
    let ghost ev = entry_views(entries@);
    let mut passes: Vec<bool> = Vec::new();
    let mut i: usize = 0;
    while i < entries.len()
        invariant
            i <= entries.len(),
            ev == entry_views(entries@),
            filter == filter_of(text_view(*pattern)),
            compiled is Some == filter is Some,
            compiled matches Some(g) ==> crate::glob_filter::glob_source(g) == filter->0,
            passes@ == filter_verdicts(ev, filter).take(i as int),
        decreases entries.len() - i,
    {
        let entry = &entries[i];
        let n = entry.components.len();
        let verdict = if n == 0 {
            false
        } else {
            match &compiled {
                None => true,
                Some(g) => {
                    let rel = join_strings(&entry.components, "/");
                    assert(views(entry.components@).last() == entry.components@[n - 1]@);
                    accepts(g, rel.as_str()) || accepts(g, entry.components[n - 1].as_str())
                },
            }
        };
        assert(verdict == passes_filter(ev[i as int], filter));
        passes.push(verdict);
        assert(passes@ =~= filter_verdicts(ev, filter).take(i + 1));
        i += 1;
    }
    assert(filter_verdicts(ev, filter).take(entries.len() as int) =~= filter_verdicts(ev, filter));
    passes
}

/// Lists what a walk from `base` found: every entry below the base down to
/// `max_depth` levels (three when none is given) that is neither an ignored
/// directory nor below one and that passes the glob `pattern`, in the order
/// of the walk, cut to the first hundred. A pattern that does not compile
/// filters nothing.
pub fn list_files(
    base: &ValidatedPath,
    entries: &Vec<WalkEntry>,
    pattern: Option<String>,
    max_depth: Option<usize>,
) -> (out: Vec<FileSearchResult>)
    ensures
        listing_views(out@) == first_n(
            selection(
                entry_views(entries@),
                filter_verdicts(entry_views(entries@), filter_of(text_view(pattern))),
                base@.name(),
                number_or(max_depth, default_list_depth()),
            ),
            listing_cap(),
        ),
        out.len() <= listing_cap(),
{
    let depth = match max_depth {
        Some(d) => d,
        None => 3,
    };
    let passes = verdicts(entries, &pattern);
    select_entries(base, entries, &passes, depth)
}

/// Every item of a listing stems from an entry that lies at least one and
/// at most `depth` levels below the base, outside every ignored directory,
/// and whose verdict was true: the base itself is never listed.
pub proof fn lemma_listing_members(
    entries: Seq<EntryView>,
    passes: Seq<bool>,
    root_name: Seq<char>,
    depth: nat,
    k: int,
)
    requires
        0 <= k < selection(entries, passes, root_name, depth).len(),
    ensures
        exists|j: int|
            0 <= j < entries.len() && j < passes.len() && passes[j] && is_listed(
                entries[j],
                root_name,
                depth,
            ) && #[trigger] listed_as(entries[j]) == selection(entries, passes, root_name, depth)[k],
    decreases entries.len(),
{
    let rest = selection(entries.drop_last(), passes, root_name, depth);
    let i = entries.len() - 1;
    if k < rest.len() {
        lemma_listing_members(entries.drop_last(), passes, root_name, depth, k);
        let j = choose|j: int|
            0 <= j < entries.drop_last().len() && j < passes.len() && passes[j] && is_listed(
                entries.drop_last()[j],
                root_name,
                depth,
            ) && #[trigger] listed_as(entries.drop_last()[j]) == rest[k];
        assert(entries.drop_last()[j] == entries[j]);
        assert(listed_as(entries[j]) == selection(entries, passes, root_name, depth)[k]);
    } else {
        assert(listed_as(entries[i]) == selection(entries, passes, root_name, depth)[k]);
    }
}

/// Names that are not empty, joined, give a text that is not empty.
proof fn lemma_joined_names_are_not_empty(names: Seq<Seq<char>>, sep: Seq<char>)
    requires
        names.len() > 0,
        forall|i: int| 0 <= i < names.len() ==> (#[trigger] names[i]).len() > 0,
    ensures
        join_with(names, sep).len() > 0,
    decreases names.len(),
{
    if names.len() > 1 {
        assert(names.last().len() > 0);
    }
}

/// No item of a listing of sound entries has an empty path or is a
/// directory with a size: the base itself, whose path below the base is
/// empty, is never among them.
pub proof fn lemma_listing_never_holds_base(
    entries: Seq<EntryView>,
    passes: Seq<bool>,
    root_name: Seq<char>,
    depth: nat,
    k: int,
)
    requires
        forall|j: int| 0 <= j < entries.len() ==> is_sound_entry(#[trigger] entries[j]),
        0 <= k < selection(entries, passes, root_name, depth).len(),
    ensures
        selection(entries, passes, root_name, depth)[k].path.len() > 0,
        selection(entries, passes, root_name, depth)[k].is_directory ==> selection(
            entries,
            passes,
            root_name,
            depth,
        )[k].size is None,
{
    lemma_listing_members(entries, passes, root_name, depth, k);
    let j = choose|j: int|
        0 <= j < entries.len() && j < passes.len() && passes[j] && is_listed(
            entries[j],
            root_name,
            depth,
        ) && #[trigger] listed_as(entries[j]) == selection(entries, passes, root_name, depth)[k];
    assert(is_sound_entry(entries[j]));
    lemma_joined_names_are_not_empty(entries[j].components, "/"@);
}

} // verus!
