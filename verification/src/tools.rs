//! The dispatch of the tool registry: the reading of a tool call's
//! arguments, the running of each tool on what the file system showed, and
//! the text in which each tool's result goes back to the model.

use vstd::prelude::*;
use vstd::string::StringExecFns;
use crate::errors::{Failure, ToolError};
use crate::glob_filter::filter_of;
use crate::listing::{
    default_list_depth,
    filter_verdicts,
    list_files,
    listing_cap,
    listing_views,
    selection,
    FileSearchResult,
    ListingView,
};
use crate::paths::{
    found, validate_path, verdict, CanonicalPath, PathView, ValidatedPath, ValidatedView,
};
use crate::reader::{
    default_max_lines,
    read_file,
    read_verdict,
    text_read,
    FileContent,
    SnapshotView,
};
use crate::search::{
    all_hits,
    default_max_results,
    grep_files,
    match_views,
    GrepResult,
    MatchView,
};
use crate::text::lowercase_of;
use crate::text::{decimal, decimal_of, first_n, push_chars, str_eq, text_view};
use crate::tree::{default_tree_depth, get_directory_tree, render_entry, TreeNode};
use crate::walk::{number_or, entry_views, EntryView, WalkEntry};

verus! {

/// The value of one argument of a tool call, as far as the tools read it.
pub enum ArgValue {
    /// A text.
    Text(String),
    /// A whole number that is not negative.
    Number(u64),
    /// Anything else; carries the value as it was written.
    Other(String),
}

/// One named argument of a tool call.
pub struct ToolArgument {
    pub name: String,
    pub value: ArgValue,
}

/// A tool call with its arguments read: one case per tool.
pub enum ToolCall {
    ListFiles { base_path: String, pattern: Option<String>, max_depth: Option<usize> },
    ReadFile { file_path: String, max_lines: Option<usize> },
    GrepFiles {
        base_path: String,
        search_pattern: String,
        file_pattern: Option<String>,
        max_results: Option<usize>,
    },
    GetDirectoryTree { base_path: String, max_depth: Option<usize> },
}

/// The mathematical content of a `ToolCall`.
pub enum CallView {
    ListFiles { base_path: Seq<char>, pattern: Option<Seq<char>>, max_depth: Option<usize> },
    ReadFile { file_path: Seq<char>, max_lines: Option<usize> },
    GrepFiles {
        base_path: Seq<char>,
        search_pattern: Seq<char>,
        file_pattern: Option<Seq<char>>,
        max_results: Option<usize>,
    },
    GetDirectoryTree { base_path: Seq<char>, max_depth: Option<usize> },
}

impl View for ToolCall {
    type V = CallView;

    open spec fn view(&self) -> CallView {
        match *self {
            ToolCall::ListFiles { base_path, pattern, max_depth } => CallView::ListFiles {
                base_path: base_path@,
                pattern: text_view(pattern),
                max_depth,
            },
            ToolCall::ReadFile { file_path, max_lines } => CallView::ReadFile {
                file_path: file_path@,
                max_lines,
            },
            ToolCall::GrepFiles {
                base_path,
                search_pattern,
                file_pattern,
                max_results,
            } => CallView::GrepFiles {
                base_path: base_path@,
                search_pattern: search_pattern@,
                file_pattern: text_view(file_pattern),
                max_results,
            },
            ToolCall::GetDirectoryTree { base_path, max_depth } => CallView::GetDirectoryTree {
                base_path: base_path@,
                max_depth,
            },
        }
    }
}

/// The index of the first argument called `name`, or the number of
/// arguments when there is none.
pub open spec fn position_of(input: Seq<ToolArgument>, name: Seq<char>) -> int
    decreases input.len(),
{
    if input.len() == 0 {
        0
    } else if input[0].name@ == name {
        0
    } else {
        1 + position_of(input.drop_first(), name)
    }
}

/// The text given for `name`: that of the first argument of this name, if
/// it is a text.
pub open spec fn text_arg(input: Seq<ToolArgument>, name: Seq<char>) -> Option<Seq<char>> {
    let i = position_of(input, name);
    if 0 <= i < input.len() {
        match input[i].value {
            ArgValue::Text(s) => Some(s@),
            _ => None,
        }
    } else {
        None
    }
}

/// A number as a count: itself where the machine's word holds it, else the
/// largest count there is.
pub open spec fn as_count(n: u64) -> usize {
    if n <= usize::MAX {
        n as usize
    } else {
        usize::MAX
    }
}

/// The count given for `name`: that of the first argument of this name, if
/// it is a number.
pub open spec fn count_arg(input: Seq<ToolArgument>, name: Seq<char>) -> Option<usize> {
    let i = position_of(input, name);
    if 0 <= i < input.len() {
        match input[i].value {
            ArgValue::Number(n) => Some(as_count(n)),
            _ => None,
        }
    } else {
        None
    }
}

/// How a call of the tool `name` with the arguments `input` is read. An
/// unknown name is refused first; then the required texts are looked for in
/// the order in which the tool declares them, and the first one missing is
/// reported. Optional arguments of the wrong kind count as absent.
pub open spec fn parsed(name: Seq<char>, input: Seq<ToolArgument>) -> Result<CallView, Failure> {
    if name == "list_files"@ {
        match text_arg(input, "base_path"@) {
            None => Err(Failure::MissingArgument("base_path"@)),
            Some(base_path) => Ok(
                CallView::ListFiles {
                    base_path,
                    pattern: text_arg(input, "pattern"@),
                    max_depth: count_arg(input, "max_depth"@),
                },
            ),
        }
    } else if name == "read_file"@ {
        match text_arg(input, "file_path"@) {
            None => Err(Failure::MissingArgument("file_path"@)),
            Some(file_path) => Ok(
                CallView::ReadFile { file_path, max_lines: count_arg(input, "max_lines"@) },
            ),
        }
    } else if name == "grep_files"@ {
        match text_arg(input, "base_path"@) {
            None => Err(Failure::MissingArgument("base_path"@)),
            Some(base_path) => match text_arg(input, "search_pattern"@) {
                None => Err(Failure::MissingArgument("search_pattern"@)),
                Some(search_pattern) => Ok(
                    CallView::GrepFiles {
                        base_path,
                        search_pattern,
                        file_pattern: text_arg(input, "file_pattern"@),
                        max_results: count_arg(input, "max_results"@),
                    },
                ),
            },
        }
    } else if name == "get_directory_tree"@ {
        match text_arg(input, "base_path"@) {
            None => Err(Failure::MissingArgument("base_path"@)),
            Some(base_path) => Ok(
                CallView::GetDirectoryTree {
                    base_path,
                    max_depth: count_arg(input, "max_depth"@),
                },
            ),
        }
    } else {
        Err(Failure::UnknownTool(name))
    }
}

/// The mathematical content of a reading of a tool call.
pub open spec fn parse_outcome(r: Result<ToolCall, ToolError>) -> Result<CallView, Failure> {
    match r {
        Ok(c) => Ok(c@),
        Err(e) => Err(e@),
    }
}

/// The first argument called `name`.
fn find<'a>(input: &'a Vec<ToolArgument>, name: &str) -> (r: Option<&'a ToolArgument>)
    ensures
        match r {
            Some(a) => 0 <= position_of(input@, name@) < input.len() && *a == input[position_of(
                input@,
                name@,
            )],
            None => position_of(input@, name@) >= input.len(),
        },
{
    let mut i: usize = 0;
    assert(input@.skip(0) =~= input@);
    while i < input.len()
        invariant
            i <= input.len(),
            position_of(input@, name@) == i + position_of(input@.skip(i as int), name@),
        decreases input.len() - i,
    {
        assert(input@.skip(i as int)[0] == input[i as int]);
        assert(input@.skip(i as int).drop_first() =~= input@.skip(i + 1));
        if str_eq(input[i].name.as_str(), name) {
            return Some(&input[i]);
        }
        i += 1;
    }
    assert(input@.skip(input.len() as int).len() == 0);
    None
}

/// The text given for `name`, if any.
fn text_of(input: &Vec<ToolArgument>, name: &str) -> (r: Option<String>)
    ensures
        text_view(r) == text_arg(input@, name@),
{
    match find(input, name) {
        Some(a) => match &a.value {
            ArgValue::Text(s) => Some(s.clone()),
            _ => None,
        },
        None => None,
    }
}

/// The count given for `name`, if any.
fn count_of(input: &Vec<ToolArgument>, name: &str) -> (r: Option<usize>)
    ensures
        r == count_arg(input@, name@),
{
    match find(input, name) {
        Some(a) => match &a.value {
            ArgValue::Number(n) => {
                if *n <= usize::MAX as u64 {
                    Some(*n as usize)
                } else {
                    Some(usize::MAX)
                }
            },
            _ => None,
        },
        None => None,
    }
}

/// Reads a call of the tool `name` with the arguments `input`.
pub fn parse_tool_call(name: &str, input: &Vec<ToolArgument>) -> (r: Result<ToolCall, ToolError>)
    ensures
        parse_outcome(r) == parsed(name@, input@),
{
    if str_eq(name, "list_files") {
        match text_of(input, "base_path") {
            None => Err(ToolError::MissingArgument("base_path".to_owned())),
            Some(base_path) => Ok(
                ToolCall::ListFiles {
                    base_path,
                    pattern: text_of(input, "pattern"),
                    max_depth: count_of(input, "max_depth"),
                },
            ),
        }
    } else if str_eq(name, "read_file") {
        match text_of(input, "file_path") {
            None => Err(ToolError::MissingArgument("file_path".to_owned())),
            Some(file_path) => Ok(
                ToolCall::ReadFile { file_path, max_lines: count_of(input, "max_lines") },
            ),
        }
    } else if str_eq(name, "grep_files") {
        match text_of(input, "base_path") {
            None => Err(ToolError::MissingArgument("base_path".to_owned())),
            Some(base_path) => match text_of(input, "search_pattern") {
                None => Err(ToolError::MissingArgument("search_pattern".to_owned())),
                Some(search_pattern) => Ok(
                    ToolCall::GrepFiles {
                        base_path,
                        search_pattern,
                        file_pattern: text_of(input, "file_pattern"),
                        max_results: count_of(input, "max_results"),
                    },
                ),
            },
        }
    } else if str_eq(name, "get_directory_tree") {
        match text_of(input, "base_path") {
            None => Err(ToolError::MissingArgument("base_path".to_owned())),
            Some(base_path) => Ok(
                ToolCall::GetDirectoryTree { base_path, max_depth: count_of(input, "max_depth") },
            ),
        }
    } else {
        Err(ToolError::UnknownTool(name.to_owned()))
    }
}

impl ToolCall {
    /// How many levels below its path the call looks at: nothing deeper
    /// has to be read for it.
    pub fn depth(&self) -> (d: usize)
        ensures
            d == call_depth(self@),
    {
        match self {
            ToolCall::ListFiles { max_depth, .. } => match max_depth {
                Some(d) => *d,
                None => 3,
            },
            ToolCall::ReadFile { .. } => 0,
            ToolCall::GrepFiles { .. } => 10,
            ToolCall::GetDirectoryTree { max_depth, .. } => match max_depth {
                Some(d) => *d,
                None => 3,
            },
        }
    }

    /// The path that the call is about, as the model wrote it. It has to be
    /// validated before anything is read.
    pub fn path(&self) -> (p: &str)
        ensures
            p@ == call_path(self@),
    {
        match self {
            ToolCall::ListFiles { base_path, .. } => base_path.as_str(),
            ToolCall::ReadFile { file_path, .. } => file_path.as_str(),
            ToolCall::GrepFiles { base_path, .. } => base_path.as_str(),
            ToolCall::GetDirectoryTree { base_path, .. } => base_path.as_str(),
        }
    }
}

/// How many levels below its path a call looks at.
pub open spec fn call_depth(call: CallView) -> nat {
    match call {
        CallView::ListFiles { max_depth, .. } => number_or(max_depth, default_list_depth()),
        CallView::ReadFile { .. } => 0,
        CallView::GrepFiles { .. } => crate::search::search_depth(),
        CallView::GetDirectoryTree { max_depth, .. } => number_or(max_depth, default_tree_depth()),
    }
}

/// The path that a call is about.
pub open spec fn call_path(call: CallView) -> Seq<char> {
    match call {
        CallView::ListFiles { base_path, .. } => base_path,
        CallView::ReadFile { file_path, .. } => file_path,
        CallView::GrepFiles { base_path, .. } => base_path,
        CallView::GetDirectoryTree { base_path, .. } => base_path,
    }
}

/// The text in which a file's content goes back to the model.
pub open spec fn file_report(c: SnapshotView) -> Seq<char> {
    "File: "@ + c.path + "\nLines: "@ + decimal_of(c.line_count) + (if c.truncated {
        " (truncated)"@
    } else {
        Seq::<char>::empty()
    }) + "\n\n"@ + c.content
}

/// The line in which one hit goes back to the model.
pub open spec fn match_line(m: MatchView) -> Seq<char> {
    m.file + ":"@ + decimal_of(m.line_number) + ": "@ + m.line_content
}

/// The lines of the first `upto` hits, with a line feed between each two.
pub open spec fn match_lines(hits: Seq<MatchView>, upto: nat) -> Seq<char>
    decreases upto,
{
    if upto == 0 || upto > hits.len() {
        Seq::empty()
    } else if upto == 1 {
        match_line(hits[0])
    } else {
        match_lines(hits, (upto - 1) as nat) + "\n"@ + match_line(hits[upto - 1])
    }
}

/// The text in which a search's hits go back to the model: a plain
/// sentence where there are none, since an empty text would say nothing.
pub open spec fn match_report(hits: Seq<MatchView>) -> Seq<char> {
    if hits.len() == 0 {
        "No matches found."@
    } else {
        match_lines(hits, hits.len())
    }
}

/// Writes a file's content as it goes back to the model.
pub fn render_file(content: &FileContent) -> (r: String)
    ensures
        r@ == file_report(content@),
{
    let mut r = "File: ".to_owned();
    r.append(content.path.as_str());
    r.append("\nLines: ");
    let digits = decimal(content.line_count as u64);
    push_chars(&mut r, &digits);
    if content.truncated {
        r.append(" (truncated)");
    }
    r.append("\n\n");
    r.append(content.content.as_str());
    assert(r@ =~= file_report(content@));
    r
}

/// Writes a search's hits as they go back to the model.
pub fn render_matches(results: &Vec<GrepResult>) -> (r: String)
    ensures
        r@ == match_report(match_views(results@)),
{
    if results.len() == 0 {
        return "No matches found.".to_owned();
    }
    let ghost hits = match_views(results@);
    let mut r = String::new();
    let mut i: usize = 0;
    while i < results.len()
        invariant
            i <= results.len(),
            hits == match_views(results@),
            r@ == match_lines(hits, i as nat),
        decreases results.len() - i,
    {
        let ghost before = r@;
        if i > 0 {
            r.append("\n");
        }
        let hit = &results[i];
        assert(hits[i as int] == hit@);
        r.append(hit.file.as_str());
        r.append(":");
        let digits = decimal(hit.line_number as u64);
        push_chars(&mut r, &digits);
        r.append(": ");
        r.append(hit.line_content.as_str());
        i += 1;
        assert(r@ =~= match_lines(hits, i as nat)) by {
            if i == 1 {
                assert(before =~= Seq::<char>::empty());
                assert(r@ =~= match_line(hits[0]));
            } else {
                assert(r@ =~= before + "\n"@ + match_line(hits[i - 1]));
            }
        }
    }
    r
}

/// What the file system showed at a validated path, as far as the tools
/// read it. Each tool looks at its own part: the listing and the search at
/// the entries of the walk, the reader at the file's kind, size and text,
/// the tree at the directory's children.
pub struct Observation {
    pub entries: Vec<WalkEntry>,
    pub is_file: bool,
    pub is_dir: bool,
    pub size: u64,
    pub content: Result<String, String>,
    pub children: Vec<TreeNode>,
}

/// What a tool hands back: a text for the model, or the entries of a
/// listing, which go to the model as structured data.
pub enum ToolOutput {
    Text(String),
    Listing(Vec<FileSearchResult>),
}

/// The mathematical content of a `ToolOutput`.
pub enum OutputView {
    Text(Seq<char>),
    Listing(Seq<ListingView>),
}

impl View for ToolOutput {
    type V = OutputView;

    open spec fn view(&self) -> OutputView {
        match *self {
            ToolOutput::Text(s) => OutputView::Text(s@),
            ToolOutput::Listing(items) => OutputView::Listing(listing_views(items@)),
        }
    }
}

/// The mathematical content of a tool's result.
pub open spec fn run_outcome(r: Result<ToolOutput, ToolError>) -> Result<OutputView, Failure> {
    match r {
        Ok(o) => Ok(o@),
        Err(e) => Err(e@),
    }
}

/// What each tool answers for a call, at the validated path `base`, given
/// what the file system showed there.
pub open spec fn executed(
    call: CallView,
    base: ValidatedView,
    entries: Seq<EntryView>,
    is_file: bool,
    is_dir: bool,
    size: u64,
    content: Result<Seq<char>, Seq<char>>,
    children: Seq<TreeNode>,
) -> Result<OutputView, Failure> {
    match call {
        CallView::ListFiles { base_path, pattern, max_depth } => Ok(
            OutputView::Listing(
                first_n(
                    selection(
                        entries,
                        filter_verdicts(entries, filter_of(pattern)),
                        base.name(),
                        number_or(max_depth, default_list_depth()),
                    ),
                    listing_cap(),
                ),
            ),
        ),
        CallView::ReadFile { file_path, max_lines } => match read_verdict(
            base.requested,
            is_file,
            size,
            content,
            number_or(max_lines, default_max_lines()),
        ) {
            Ok(snapshot) => Ok(OutputView::Text(file_report(snapshot))),
            Err(e) => Err(e),
        },
        CallView::GrepFiles { base_path, search_pattern, file_pattern, max_results } => Ok(
            OutputView::Text(
                match_report(
                    first_n(
                        all_hits(
                            entries,
                            base.name(),
                            filter_of(file_pattern),
                            lowercase_of(search_pattern),
                        ),
                        number_or(max_results, default_max_results()),
                    ),
                ),
            ),
        ),
        CallView::GetDirectoryTree { base_path, max_depth } => Ok(
            OutputView::Text(
                render_entry(
                    base.name(),
                    is_dir,
                    children,
                    Seq::empty(),
                    number_or(max_depth, default_tree_depth()),
                    true,
                ),
            ),
        ),
    }
}

/// Runs a tool call that was read, at its validated path, on what the
/// file system showed there, and writes the result as it goes back to the
/// model.
pub fn run_call(call: ToolCall, path: &ValidatedPath, observed: Observation) -> (r: Result<
    ToolOutput,
    ToolError,
>)
    ensures
        run_outcome(r) == executed(
            call@,
            path@,
            entry_views(observed.entries@),
            observed.is_file,
            observed.is_dir,
            observed.size,
            text_read(observed.content),
            observed.children@,
        ),
{
    match call {
        ToolCall::ListFiles { base_path, pattern, max_depth } => {
            let items = list_files(path, &observed.entries, pattern, max_depth);
            Ok(ToolOutput::Listing(items))
        },
        ToolCall::ReadFile { file_path, max_lines } => {
            match read_file(path, observed.is_file, observed.size, observed.content, max_lines) {
                Ok(content) => Ok(ToolOutput::Text(render_file(&content))),
                Err(e) => Err(e),
            }
        },
        ToolCall::GrepFiles { base_path, search_pattern, file_pattern, max_results } => {
            let hits = grep_files(
                path,
                &observed.entries,
                search_pattern,
                file_pattern,
                max_results,
            );
            Ok(ToolOutput::Text(render_matches(&hits)))
        },
        ToolCall::GetDirectoryTree { base_path, max_depth } => {
            let tree = get_directory_tree(path, observed.is_dir, observed.children, max_depth);
            Ok(ToolOutput::Text(tree))
        },
    }
}

/// What the registry answers for a call of the tool `name` with the
/// arguments `input`, where the call's path canonicalized to `canonical`
/// and the file system showed the rest. The call is read first, and a
/// failure to read it is the answer; then its path is validated, and a
/// refusal is the answer; only then the tool runs.
pub open spec fn dispatched(
    name: Seq<char>,
    input: Seq<ToolArgument>,
    canonical: Option<PathView>,
    entries: Seq<EntryView>,
    is_file: bool,
    is_dir: bool,
    size: u64,
    content: Result<Seq<char>, Seq<char>>,
    children: Seq<TreeNode>,
) -> Result<OutputView, Failure> {
    match parsed(name, input) {
        Err(e) => Err(e),
        Ok(call) => match verdict(call_path(call), canonical, None) {
            Err(e) => Err(e),
            Ok(path) => executed(call, path, entries, is_file, is_dir, size, content, children),
        },
    }
}

/// Dispatches a call of the tool `name` with the arguments `input`.
/// `canonical` is what canonicalizing the call's path gave, and `observed`
/// what the file system showed at the canonical path; neither is looked at
/// where the step before it fails.
pub fn execute_tool(
    name: &str,
    input: &Vec<ToolArgument>,
    canonical: Option<CanonicalPath>,
    observed: Observation,
) -> (r: Result<ToolOutput, ToolError>)
    ensures
        run_outcome(r) == dispatched(
            name@,
            input@,
            found(canonical),
            entry_views(observed.entries@),
            observed.is_file,
            observed.is_dir,
            observed.size,
            text_read(observed.content),
            observed.children@,
        ),
{
    match parse_tool_call(name, input) {
        Err(e) => Err(e),
        Ok(call) => {
            let validated = validate_path(call.path(), canonical);
            match validated {
                Err(e) => Err(e),
                Ok(path) => run_call(call, &path, observed),
            }
        },
    }
}

impl Observation {
    /// The observation of a path at which nothing was looked at.
    pub fn unread() -> (o: Observation)
        ensures
            o.entries@.len() == 0,
            !o.is_file,
            !o.is_dir,
            o.size == 0,
            o.content matches Err(cause) && cause@ == "not read"@,
            o.children@.len() == 0,
    {
        Observation {
            entries: Vec::new(),
            is_file: false,
            is_dir: false,
            size: 0,
            content: Err("not read".to_owned()),
            children: Vec::new(),
        }
    }
}

} // verus!
