//! The content search: which lines of which files of a walk are reported
//! for a search text, compared without regard to case.

use vstd::prelude::*;
use crate::glob_filter::{accepts, compile, filter_of, glob_accepts, glob_source};
use crate::paths::ValidatedPath;
use crate::text::{
    chars_of,
    contains,
    first_chars,
    first_n,
    is_substring,
    join_strings,
    lines_of,
    lowercase,
    lowercase_of,
    split_lines,
    string_of,
    take_chars,
    text_view,
    vec_views,
    views,
};
use crate::walk::{chain, number_or, entry_views, is_pruned, pruned, EntryView, WalkEntry};
use crate::listing::relative_path;

verus! {

/// One reported line: the file's path below the base, the line's number
/// counted from one, and the line cut to two hundred characters.
#[derive(Debug, Clone, PartialEq, Eq)]
pub struct GrepResult {
    pub file: String,
    pub line_number: usize,
    pub line_content: String,
}

/// The mathematical content of a `GrepResult`.
pub struct MatchView {
    pub file: Seq<char>,
    pub line_number: nat,
    pub line_content: Seq<char>,
}

impl View for GrepResult {
    type V = MatchView;

    open spec fn view(&self) -> MatchView {
        MatchView {
            file: self.file@,
            line_number: self.line_number as nat,
            line_content: self.line_content@,
        }
    }
}

/// The views of a sequence of reported lines.
pub open spec fn match_views(v: Seq<GrepResult>) -> Seq<MatchView> {
    v.map_values(|r: GrepResult| r@)
}

/// The number of results when none is asked for.
pub open spec fn default_max_results() -> nat {
    50
}

/// The most characters of a line that are reported.
pub open spec fn line_cap() -> nat {
    200
}

/// The deepest level below the base that is searched.
pub open spec fn search_depth() -> nat {
    10
}

/// The largest file, in bytes, that is searched.
pub open spec fn max_searched_bytes() -> nat {
    500_000
}

/// The lower-case form of each line.
pub open spec fn lowered_lines(lines: Seq<Seq<char>>) -> Seq<Seq<char>> {
    lines.map_values(|l: Seq<char>| lowercase_of(l))
}

/// The lines among the first `upto` of `lines` whose lower-case form, given
/// in `lowered`, contains `needle`; each with its number.
pub open spec fn hits_upto(
    file: Seq<char>,
    lines: Seq<Seq<char>>,
    lowered: Seq<Seq<char>>,
    needle: Seq<char>,
    upto: nat,
) -> Seq<MatchView>
    decreases upto,
{
    if upto == 0 {
        Seq::empty()
    } else {
        let rest = hits_upto(file, lines, lowered, needle, (upto - 1) as nat);
        let j = upto - 1;
        if j < lines.len() && j < lowered.len() && is_substring(needle, lowered[j]) {
            rest.push(
                MatchView {
                    file,
                    line_number: upto,
                    line_content: first_chars(lines[j], line_cap()),
                },
            )
        } else {
            rest
        }
    }
}

/// The lines of a file's text that contain `needle` once both are in lower
/// case. `needle` is given in lower case.
pub open spec fn file_hits(file: Seq<char>, text: Seq<char>, needle: Seq<char>) -> Seq<MatchView> {
    hits_upto(file, lines_of(text), lowered_lines(lines_of(text)), needle, lines_of(text).len())
}

/// The name of an entry: its last component, or the root's name for the
/// root itself.
pub open spec fn name_of(root_name: Seq<char>, e: EntryView) -> Seq<char> {
    if e.components.len() > 0 {
        e.components.last()
    } else {
        root_name
    }
}

/// The file filter's verdict on an entry's name.
pub open spec fn name_passes(root_name: Seq<char>, e: EntryView, filter: Option<Seq<char>>) -> bool {
    match filter {
        None => true,
        Some(p) => glob_accepts(p, name_of(root_name, e)),
    }
}

/// The entry is a file that the search reads: a regular file no deeper
/// than ten levels, outside every ignored directory, whose name passes the
/// file filter and whose size, where known, is within the limit.
pub open spec fn is_candidate(e: EntryView, root_name: Seq<char>, filter: Option<Seq<char>>) -> bool {
    &&& e.is_file
    &&& !e.is_dir
    &&& e.components.len() <= search_depth()
    &&& !is_pruned(chain(root_name, e.components), e.is_dir)
    &&& name_passes(root_name, e, filter)
    &&& !(e.size matches Some(n) && n > max_searched_bytes())
}

/// The hits in all the entries of a walk, file after file in the order of
/// the walk. A candidate whose text could not be read gives none.
pub open spec fn all_hits(
    entries: Seq<EntryView>,
    root_name: Seq<char>,
    filter: Option<Seq<char>>,
    needle: Seq<char>,
) -> Seq<MatchView>
    decreases entries.len(),
{
    if entries.len() == 0 {
        Seq::empty()
    } else {
        let rest = all_hits(entries.drop_last(), root_name, filter, needle);
        let e = entries.last();
        if is_candidate(e, root_name, filter) && e.content is Some {
            rest + file_hits(relative_path(e.components), e.content->0, needle)
        } else {
            rest
        }
    }
}

/// Reports the lines whose lower-case form contains `needle`, at most
/// `room` of them. `lowered` holds the lower-case form of each line.
pub fn hits_in_lines(
    file: &str,
    lines: &Vec<Vec<char>>,
    lowered: &Vec<Vec<char>>,
    needle: &Vec<char>,
    room: usize,
) -> (out: Vec<GrepResult>)
    ensures
        match_views(out@) == first_n(
            hits_upto(
                file@,
                vec_views(lines@),
                vec_views(lowered@),
                needle@,
                lines@.len() as nat,
            ),
            room as nat,
        ),
        out.len() <= room,
{
    let ghost lv = vec_views(lines@);
    let ghost lw = vec_views(lowered@);
    let mut out: Vec<GrepResult> = Vec::new();
    let mut j: usize = 0;
    assert(match_views(out@) =~= Seq::<MatchView>::empty());
    while j < lines.len()
        invariant
            j <= lines.len(),
            lv == vec_views(lines@),
            lw == vec_views(lowered@),
            match_views(out@) == first_n(hits_upto(file@, lv, lw, needle@, j as nat), room as nat),
            out.len() <= room,
        decreases lines.len() - j,
    {
        let ghost before = hits_upto(file@, lv, lw, needle@, j as nat);
        let hit = j < lowered.len() && contains(&lowered[j], needle);
        assert(hit == (j < lv.len() && j < lw.len() && is_substring(needle@, lw[j as int])));
        if hit && out.len() < room {
            let cut = take_chars(&lines[j], 200);
            let r = GrepResult {
                file: file.to_owned(),
                line_number: j + 1,
                line_content: string_of(&cut),
            };
            let ghost m = MatchView {
                file: file@,
                line_number: (j + 1) as nat,
                line_content: first_chars(lv[j as int], line_cap()),
            };
            assert(r@ == m);
            let ghost old_out = match_views(out@);
            out.push(r);
            assert(match_views(out@) =~= old_out.push(m));
            assert(first_n(before.push(m), room as nat) =~= first_n(before, room as nat).push(m));
        } else if hit {
            let ghost m = MatchView {
                file: file@,
                line_number: (j + 1) as nat,
                line_content: first_chars(lv[j as int], line_cap()),
            };
            assert(first_n(before.push(m), room as nat) =~= first_n(before, room as nat));
        }
        j += 1;
    }
    out
}

/// The lower-case form of each line.
fn lower_lines(lines: &Vec<Vec<char>>) -> (lowered: Vec<Vec<char>>)
    ensures
        vec_views(lowered@) == lowered_lines(vec_views(lines@)),
{
    let mut lowered: Vec<Vec<char>> = Vec::new();
    let mut i: usize = 0;
    while i < lines.len()
        invariant
            i <= lines.len(),
            vec_views(lowered@) == lowered_lines(vec_views(lines@)).take(i as int),
        decreases lines.len() - i,
    {
        let line = string_of(&lines[i]);
        let low = lowercase(line.as_str());
        let chars = chars_of(low.as_str());
        let ghost before = vec_views(lowered@);
        lowered.push(chars);
        assert(vec_views(lowered@) =~= before.push(chars@));
        assert(lowered_lines(vec_views(lines@))[i as int] == lowercase_of(lines@[i as int]@));
        assert(vec_views(lowered@) =~= lowered_lines(vec_views(lines@)).take(i + 1));
        i += 1;
    }
    assert(lowered_lines(vec_views(lines@)).take(lines.len() as int) =~= lowered_lines(
        vec_views(lines@),
    ));
    lowered
}

/// Reports the lines of one file's text that contain `needle` without
/// regard to case, at most `room` of them. `needle` is given in lower case.
pub fn hits_in_file(file: &str, text: &str, needle: &Vec<char>, room: usize) -> (out: Vec<
    GrepResult,
>)
    ensures
        match_views(out@) == first_n(file_hits(file@, text@, needle@), room as nat),
        out.len() <= room,
{
    let chars = chars_of(text);
    let lines = split_lines(&chars);
    let lowered = lower_lines(&lines);
    assert(vec_views(lines@).len() == lines@.len());
    hits_in_lines(file, &lines, &lowered, needle, room)
}

/// Whether the search reads this entry.
fn candidate(root_name: &str, entry: &WalkEntry, compiled: &Option<glob::Pattern>) -> (r: bool)
    ensures
        r == is_candidate(
            entry@,
            root_name@,
            match *compiled {
                Some(g) => Some(glob_source(g)),
                None => None,
            },
        ),
{
    if !entry.is_file || entry.is_dir || entry.components.len() > 10 {
        return false;
    }
    if pruned(root_name, entry) {
        return false;
    }
    let n = entry.components.len();
    let passes = match compiled {
        None => true,
        Some(g) => {
            if n > 0 {
                assert(views(entry.components@).last() == entry.components@[n - 1]@);
                accepts(g, entry.components[n - 1].as_str())
            } else {
                accepts(g, root_name)
            }
        },
    };
    if !passes {
        return false;
    }
    match entry.size {
        Some(size) => size <= 500_000,
        None => true,
    }
}

/// Whether the search reads an entry of a walk from `base` under the file
/// filter `file_pattern`: whether its text is worth handing in.
pub fn is_search_candidate(base: &ValidatedPath, entry: &WalkEntry, file_pattern: &Option<String>) -> (r:
    bool)
    ensures
        r == is_candidate(entry@, base@.name(), filter_of(text_view(*file_pattern))),
{
    let compiled = match file_pattern {
        Some(p) => compile(p.as_str()),
        None => None,
    };
    candidate(base.name(), entry, &compiled)
}

/// The hits that one entry of a walk adds: those of its text where it is
/// a candidate whose text was read, and none otherwise.
pub open spec fn entry_hits(
    e: EntryView,
    root_name: Seq<char>,
    filter: Option<Seq<char>>,
    needle: Seq<char>,
) -> Seq<MatchView> {
    if is_candidate(e, root_name, filter) && e.content is Some {
        file_hits(relative_path(e.components), e.content->0, needle)
    } else {
        Seq::empty()
    }
}

/// Whether a search that has found `found` so far goes on to the next
/// entry: it stops as soon as it holds as many hits as were asked for.
pub fn search_goes_on(found: &Vec<GrepResult>, max_results: Option<usize>) -> (r: bool)
    ensures
        r == (found.len() < number_or(max_results, default_max_results())),
{
    let max = match max_results {
        Some(n) => n,
        None => 50,
    };
    found.len() < max
}

/// Takes a search one entry further: to the hits found so far it adds
/// those of `entry`, up to the number that was asked for. A search that
/// goes through the entries of a walk in this way, from no hits, ends with
/// what `grep_files` gives for the whole walk, and may stop reading as soon
/// as `search_goes_on` says no.
pub fn search_entry(
    base: &ValidatedPath,
    found: Vec<GrepResult>,
    entry: &WalkEntry,
    search_pattern: &str,
    file_pattern: &Option<String>,
    max_results: Option<usize>,
) -> (out: Vec<GrepResult>)
    ensures
        match_views(out@) == first_n(
            match_views(found@) + entry_hits(
                entry@,
                base@.name(),
                filter_of(text_view(*file_pattern)),
                lowercase_of(search_pattern@),
            ),
            number_or(max_results, default_max_results()),
        ),
{
    let max = match max_results {
        Some(n) => n,
        None => 50,
    };
    let ghost before = match_views(found@);
    let ghost hits = entry_hits(
        entry@,
        base@.name(),
        filter_of(text_view(*file_pattern)),
        lowercase_of(search_pattern@),
    );
    let mut out = found;
    if out.len() >= max {
        out.truncate(max);
        assert(match_views(out@) =~= first_n(before + hits, max as nat));
        return out;
    }
    if !is_search_candidate(base, entry, file_pattern) {
        assert(before + hits =~= before);
        return out;
    }
    match &entry.content {
        Some(text) => {
            let lowered = lowercase(search_pattern);
            let needle = chars_of(lowered.as_str());
            let file = join_strings(&entry.components, "/");
            let room = max - out.len();
            let mut more = hits_in_file(file.as_str(), text.as_str(), &needle, room);
            let ghost more_views = match_views(more@);
            out.append(&mut more);
            assert(match_views(out@) =~= before + more_views);
            assert(first_n(before + hits, max as nat) =~= before + first_n(hits, room as nat));
            out
        },
        None => {
            assert(before + hits =~= before);
            out
        },
    }
}

/// A search by steps ends with what the search of the whole walk gives:
/// the hits of a walk with one entry more, cut to the number asked for, are
/// those of the walk so far, cut, with the hits of the new entry added, cut
/// again. Once the number asked for is reached, no further entry changes
/// anything.
pub proof fn lemma_search_by_steps(
    entries: Seq<EntryView>,
    e: EntryView,
    root_name: Seq<char>,
    filter: Option<Seq<char>>,
    needle: Seq<char>,
    max: nat,
)
    ensures
        first_n(all_hits(entries.push(e), root_name, filter, needle), max) == first_n(
            first_n(all_hits(entries, root_name, filter, needle), max) + entry_hits(
                e,
                root_name,
                filter,
                needle,
            ),
            max,
        ),
        first_n(all_hits(entries, root_name, filter, needle), max).len() >= max ==> first_n(
            all_hits(entries.push(e), root_name, filter, needle),
            max,
        ) == first_n(all_hits(entries, root_name, filter, needle), max),
{
    let so_far = all_hits(entries, root_name, filter, needle);
    let added = entry_hits(e, root_name, filter, needle);
    assert(entries.push(e).drop_last() =~= entries);
    assert(all_hits(entries.push(e), root_name, filter, needle) =~= so_far + added);
    assert(first_n(so_far + added, max) =~= first_n(first_n(so_far, max) + added, max));
}

/// Searches what a walk from `base` found for `search_pattern`, a plain
/// text that is compared without regard to case. Every regular file is
/// searched that lies no deeper than ten levels, outside every ignored
/// directory, whose name passes the glob `file_pattern`, whose size is
/// within the limit and whose text was read. The hits come file after file
/// and line after line, cut to the first `max_results`, fifty when none is
/// given.
pub fn grep_files(
    base: &ValidatedPath,
    entries: &Vec<WalkEntry>,
    search_pattern: String,
    file_pattern: Option<String>,
    max_results: Option<usize>,
) -> (out: Vec<GrepResult>)
    ensures
        match_views(out@) == first_n(
            all_hits(
                entry_views(entries@),
                base@.name(),
                filter_of(text_view(file_pattern)),
                lowercase_of(search_pattern@),
            ),
            number_or(max_results, default_max_results()),
        ),
        out.len() <= number_or(max_results, default_max_results()),
        forall|k: int| 0 <= k < out.len() ==> #[trigger] out[k]@.line_content.len() <= line_cap(),
{
    let max = match max_results {
        Some(n) => n,
        None => 50,
    };
    let root_name: &str = base.name();
    let ghost root = base@.name();
    let lowered = lowercase(search_pattern.as_str());
    let needle = chars_of(lowered.as_str());
    let compiled = match &file_pattern {
        Some(p) => compile(p.as_str()),
        None => None,
    };
    let ghost filter = filter_of(text_view(file_pattern));
    let ghost ev = entry_views(entries@);
    let mut out: Vec<GrepResult> = Vec::new();
    let mut i: usize = 0;
    assert(match_views(out@) =~= Seq::<MatchView>::empty());
    assert(ev.take(0) =~= Seq::<EntryView>::empty());
    while i < entries.len()
        invariant
            i <= entries.len(),
            ev == entry_views(entries@),
            root_name@ == root,
            needle@ == lowercase_of(search_pattern@),
            filter == (match compiled {
                Some(g) => Some(glob_source(g)),
                None => None,
            }),
            match_views(out@) == first_n(
                all_hits(ev.take(i as int), root, filter, needle@),
                max as nat,
            ),
            out.len() <= max,
            forall|k: int|
                0 <= k < out.len() ==> #[trigger] out[k]@.line_content.len() <= line_cap(),
        decreases entries.len() - i,
    {
        let entry = &entries[i];
        let ghost before = all_hits(ev.take(i as int), root, filter, needle@);
        assert(ev.take(i + 1).drop_last() =~= ev.take(i as int));
        assert(ev.take(i + 1).last() == entry@);
        if out.len() < max && candidate(root_name, entry, &compiled) {
            match &entry.content {
                Some(text) => {
                    let file = join_strings(&entry.components, "/");
                    let room = max - out.len();
                    let mut found = hits_in_file(file.as_str(), text.as_str(), &needle, room);
                    let ghost hits = file_hits(file@, text@, needle@);
                    let ghost old_out = match_views(out@);
                    let ghost found_views = match_views(found@);
                    assert forall|k: int| 0 <= k < found.len() implies #[trigger] found[k]@.line_content.len()
                        <= line_cap() by {
                        assert(found[k]@ == found_views[k]);
                        lemma_hits_are_cut(
                            file@,
                            lines_of(text@),
                            lowered_lines(lines_of(text@)),
                            needle@,
                            lines_of(text@).len(),
                            k,
                        );
                    }
                    let ghost out_before = out@;
                    out.append(&mut found);
                    assert(match_views(out@) =~= old_out + found_views);
                    assert(first_n(before + hits, max as nat) =~= first_n(before, max as nat)
                        + first_n(hits, room as nat));
                },
                None => {},
            }
        } else {
            proof {
                let e = entry@;
                if out.len() >= max && is_candidate(e, root, filter) && e.content is Some {
                    let hits = file_hits(relative_path(e.components), e.content->0, needle@);
                    assert(first_n(before + hits, max as nat) =~= first_n(before, max as nat));
                }
            }
        }
        i += 1;
    }
    assert(ev.take(entries.len() as int) =~= ev);
    out
}

/// No reported line is longer than two hundred characters.
pub proof fn lemma_hits_are_cut(
    file: Seq<char>,
    lines: Seq<Seq<char>>,
    lowered: Seq<Seq<char>>,
    needle: Seq<char>,
    upto: nat,
    k: int,
)
    requires
        0 <= k < hits_upto(file, lines, lowered, needle, upto).len(),
    ensures
        hits_upto(file, lines, lowered, needle, upto)[k].line_content.len() <= line_cap(),
        1 <= hits_upto(file, lines, lowered, needle, upto)[k].line_number <= upto,
        hits_upto(file, lines, lowered, needle, upto)[k].file == file,
    decreases upto,
{
    if upto > 0 {
        let rest = hits_upto(file, lines, lowered, needle, (upto - 1) as nat);
        if k < rest.len() {
            lemma_hits_are_cut(file, lines, lowered, needle, (upto - 1) as nat, k);
        }
    }
}

} // verus!
