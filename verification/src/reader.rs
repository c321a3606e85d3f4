//! The content reader: what is returned for a file once its kind, its size
//! and its text are known. Reading the file is the caller's part.

use vstd::prelude::*;
use crate::errors::{Failure, ToolError};
use crate::paths::ValidatedPath;
use crate::walk::number_or;
use crate::text::{
    chars_of,
    join_first,
    join_with,
    lines_from,
    lines_of,
    split_lines,
    string_of,
    strip_cr,
    vec_views,
};

verus! {

/// The text of a file as it is handed to the model: the path that was asked
/// for, the text or its first lines, the number of lines of the whole file,
/// and whether lines were cut off.
#[derive(Debug, Clone, PartialEq, Eq)]
pub struct FileContent {
    pub path: String,
    pub content: String,
    pub line_count: usize,
    pub truncated: bool,
}

/// The mathematical content of a `FileContent`.
pub struct SnapshotView {
    pub path: Seq<char>,
    pub content: Seq<char>,
    pub line_count: nat,
    pub truncated: bool,
}

impl View for FileContent {
    type V = SnapshotView;

    open spec fn view(&self) -> SnapshotView {
        SnapshotView {
            path: self.path@,
            content: self.content@,
            line_count: self.line_count as nat,
            truncated: self.truncated,
        }
    }
}

/// The largest file, in bytes, that is read in full.
pub open spec fn max_file_bytes() -> nat {
    1_000_000
}

/// The number of lines returned when none is asked for.
pub open spec fn default_max_lines() -> nat {
    500
}

/// The line feed, as a separator.
pub open spec fn newline() -> Seq<char> {
    seq!['\n']
}

/// What is returned for a file with the text `text` under a cap of
/// `max_lines` lines: the whole text where it has no more lines than that,
/// else its first `max_lines` lines joined by line feeds. The line count is
/// that of the whole text either way.
pub open spec fn snapshot_of(path: Seq<char>, text: Seq<char>, max_lines: nat) -> SnapshotView {
    let lines = lines_of(text);
    if lines.len() > max_lines {
        SnapshotView {
            path,
            content: join_with(lines.take(max_lines as int), newline()),
            line_count: lines.len(),
            truncated: true,
        }
    } else {
        SnapshotView { path, content: text, line_count: lines.len(), truncated: false }
    }
}

/// Whether an entry of this kind and size may be read in full.
pub open spec fn readable(is_file: bool, size: u64) -> Result<(), Failure> {
    if !is_file {
        Err(Failure::NotAFile)
    } else if size > max_file_bytes() {
        Err(Failure::TooLarge)
    } else {
        Ok(())
    }
}

/// The mathematical content of what reading a file gave: its text, or the
/// cause of the failure.
pub open spec fn text_read(content: Result<String, String>) -> Result<Seq<char>, Seq<char>> {
    match content {
        Ok(t) => Ok(t@),
        Err(c) => Err(c@),
    }
}

/// What the reader answers: a directory or other non-file is refused first,
/// a file over the size limit next, a file that could not be read or
/// decoded last.
pub open spec fn read_verdict(
    path: Seq<char>,
    is_file: bool,
    size: u64,
    content: Result<Seq<char>, Seq<char>>,
    max_lines: nat,
) -> Result<SnapshotView, Failure> {
    match readable(is_file, size) {
        Err(e) => Err(e),
        Ok(_) => match content {
            Err(cause) => Err(Failure::ReadError(cause)),
            Ok(text) => Ok(snapshot_of(path, text, max_lines)),
        },
    }
}

/// The mathematical content of a reader result.
pub open spec fn read_outcome(r: Result<FileContent, ToolError>) -> Result<SnapshotView, Failure> {
    match r {
        Ok(c) => Ok(c@),
        Err(e) => Err(e@),
    }
}

/// The mathematical content of a check's result.
pub open spec fn check_outcome(r: Result<(), ToolError>) -> Result<(), Failure> {
    match r {
        Ok(_) => Ok(()),
        Err(e) => Err(e@),
    }
}

/// Decides, before the file is read, whether it may be read in full.
pub fn check_readable(is_file: bool, size: u64) -> (r: Result<(), ToolError>)
    ensures
        check_outcome(r) == readable(is_file, size),
{
    if !is_file {
        Err(ToolError::NotAFile)
    } else if size > 1_000_000 {
        Err(ToolError::TooLarge)
    } else {
        Ok(())
    }
}

/// Cuts a text to at most `max_lines` lines and counts its lines.
pub fn snapshot(path: String, text: String, max_lines: usize) -> (r: FileContent)
    ensures
        r@ == snapshot_of(path@, text@, max_lines as nat),
        r.truncated == (lines_of(text@).len() > max_lines),
        r.line_count == lines_of(text@).len(),
{
    let chars = chars_of(text.as_str());
    let lines = split_lines(&chars);
    let line_count = lines.len();
    assert(vec_views(lines@).len() == lines@.len());
    if line_count > max_lines {
        let mut sep: Vec<char> = Vec::new();
        sep.push('\n');
        assert(sep@ =~= newline());
        let joined = join_first(&lines, max_lines, &sep);
        FileContent { path, content: string_of(&joined), line_count, truncated: true }
    } else {
        FileContent { path, content: text, line_count, truncated: false }
    }
}

/// Answers a request to read the file at `path`, given what the file
/// system said about it: whether it is a regular file, its size in bytes,
/// and its text or the cause for which it could not be read. At most
/// `max_lines` lines are returned, five hundred when none is given.
pub fn read_file(
    path: &ValidatedPath,
    is_file: bool,
    size: u64,
    content: Result<String, String>,
    max_lines: Option<usize>,
) -> (r: Result<FileContent, ToolError>)
    ensures
        read_outcome(r) == read_verdict(
            path@.requested,
            is_file,
            size,
            text_read(content),
            number_or(max_lines, default_max_lines()),
        ),
{
    match check_readable(is_file, size) {
        Err(e) => Err(e),
        Ok(_) => match content {
            Err(cause) => Err(ToolError::ReadError(cause)),
            Ok(text) => {
                let max = match max_lines {
                    Some(n) => n,
                    None => 500,
                };
                Ok(snapshot(path.requested().to_owned(), text, max))
            },
        },
    }
}

/// A file with more lines than the cap comes back as its first lines, with
/// the cut reported and the true line count; a file within the cap comes
/// back whole.
pub proof fn lemma_snapshot_truncation(path: Seq<char>, text: Seq<char>, max_lines: nat)
    ensures
        snapshot_of(path, text, max_lines).line_count == lines_of(text).len(),
        snapshot_of(path, text, max_lines).truncated <==> lines_of(text).len() > max_lines,
        lines_of(text).len() > max_lines ==> snapshot_of(path, text, max_lines).content
            == join_with(lines_of(text).take(max_lines as int), newline()),
        lines_of(text).len() <= max_lines ==> snapshot_of(path, text, max_lines).content == text,
{
}

/// The number of line feeds in a text.
pub open spec fn feed_count(s: Seq<char>) -> nat
    decreases s.len(),
{
    if s.len() == 0 {
        0
    } else {
        feed_count(s.drop_last()) + if s.last() == '\n' {
            1nat
        } else {
            0nat
        }
    }
}

/// No line holds a line feed.
pub open spec fn feed_free(lines: Seq<Seq<char>>) -> bool {
    forall|i: int, k: int|
        0 <= i < lines.len() && 0 <= k < lines[i].len() ==> (#[trigger] lines[i][k]) != '\n'
}

/// The line feeds of two texts put together are those of the one and those
/// of the other.
proof fn lemma_feed_count_adds(a: Seq<char>, b: Seq<char>)
    ensures
        feed_count(a + b) == feed_count(a) + feed_count(b),
    decreases b.len(),
{
    if b.len() == 0 {
        assert(a + b =~= a);
    } else {
        lemma_feed_count_adds(a, b.drop_last());
        assert((a + b).drop_last() =~= a + b.drop_last());
    }
}

/// A text without a line feed counts none.
proof fn lemma_no_feed_counts_zero(s: Seq<char>)
    requires
        forall|k: int| 0 <= k < s.len() ==> s[k] != '\n',
    ensures
        feed_count(s) == 0,
    decreases s.len(),
{
    if s.len() > 0 {
        lemma_no_feed_counts_zero(s.drop_last());
    }
}

/// The lines that remain from a position on hold no line feed, where the
/// line under way holds none so far.
proof fn lemma_lines_from_feed_free(s: Seq<char>, start: int, pos: int)
    requires
        0 <= start <= pos <= s.len(),
        forall|k: int| start <= k < pos ==> s[k] != '\n',
    ensures
        feed_free(lines_from(s, start, pos)),
    decreases s.len() - pos,
{
    if pos >= s.len() {
    } else if s[pos] == '\n' {
        lemma_lines_from_feed_free(s, pos + 1, pos + 1);
        let head = strip_cr(s.subrange(start, pos));
        let rest = lines_from(s, pos + 1, pos + 1);
        let all = seq![head] + rest;
        assert forall|i: int, k: int| 0 <= i < all.len() && 0 <= k < all[i].len() implies (
        #[trigger] all[i][k]) != '\n' by {
            if i == 0 {
                assert(head[k] == s[start + k]);
            } else {
                assert(all[i] == rest[i - 1]);
            }
        }
    } else {
        lemma_lines_from_feed_free(s, start, pos + 1);
    }
}

/// Lines without line feeds, joined by line feeds, hold one line feed
/// less than there are lines.
proof fn lemma_joined_feed_count(lines: Seq<Seq<char>>)
    requires
        lines.len() > 0,
        feed_free(lines),
    ensures
        feed_count(join_with(lines, newline())) == lines.len() - 1,
    decreases lines.len(),
{
    if lines.len() == 1 {
        lemma_no_feed_counts_zero(lines[0]);
    } else {
        let rest = lines.drop_last();
        assert(feed_free(rest)) by {
            assert forall|i: int, k: int| 0 <= i < rest.len() && 0 <= k < rest[i].len() implies (
            #[trigger] rest[i][k]) != '\n' by {
                assert(rest[i] == lines[i]);
            }
        }
        lemma_joined_feed_count(rest);
        lemma_no_feed_counts_zero(lines.last());
        lemma_feed_count_adds(join_with(rest, newline()), newline());
        lemma_feed_count_adds(join_with(rest, newline()) + newline(), lines.last());
        assert(feed_count(newline()) == 1) by {
            assert(newline().len() == 1 && newline().last() == '\n');
            assert(newline().drop_last().len() == 0);
            assert(feed_count(newline().drop_last()) == 0);
        }
    }
}

/// A file with more lines than a cap of at least one comes back as
/// exactly that many lines: the content holds one line feed less than the
/// cap, and none at its end. With a cap of zero it comes back empty.
pub proof fn lemma_truncated_line_count(path: Seq<char>, text: Seq<char>, max_lines: nat)
    requires
        lines_of(text).len() > max_lines,
    ensures
        max_lines > 0 ==> feed_count(snapshot_of(path, text, max_lines).content) + 1 == max_lines,
        max_lines == 0 ==> snapshot_of(path, text, max_lines).content.len() == 0,
{
    let lines = lines_of(text);
    lemma_lines_from_feed_free(text, 0, 0);
    let kept = lines.take(max_lines as int);
    if max_lines > 0 {
        assert(feed_free(kept)) by {
            assert forall|i: int, k: int| 0 <= i < kept.len() && 0 <= k < kept[i].len() implies (
            #[trigger] kept[i][k]) != '\n' by {
                assert(kept[i] == lines[i]);
            }
        }
        lemma_joined_feed_count(kept);
    }
}

} // verus!
