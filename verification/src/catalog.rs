//! The catalog of tools as it is shown to the model: for each tool its
//! name, what it is for, and its parameters with their kinds.

use vstd::prelude::*;
use crate::errors::Failure;
use crate::text::views;
use crate::tools::{parsed, text_arg, ToolArgument};

verus! {

/// One parameter of a tool.
pub struct ToolParameter {
    pub name: String,
    /// The kind of value: `string` or `integer`.
    pub kind: String,
    pub description: String,
}

/// One tool as the model sees it.
pub struct ToolSchema {
    pub name: String,
    pub description: String,
    pub parameters: Vec<ToolParameter>,
    /// The names of the parameters that a call must give.
    pub required: Vec<String>,
}

/// The mathematical content of a `ToolParameter`.
pub struct ParameterView {
    pub name: Seq<char>,
    pub kind: Seq<char>,
    pub description: Seq<char>,
}

/// The mathematical content of a `ToolSchema`.
pub struct SchemaView {
    pub name: Seq<char>,
    pub description: Seq<char>,
    pub parameters: Seq<ParameterView>,
    pub required: Seq<Seq<char>>,
}

impl View for ToolParameter {
    type V = ParameterView;

    open spec fn view(&self) -> ParameterView {
        ParameterView { name: self.name@, kind: self.kind@, description: self.description@ }
    }
}

/// The views of a sequence of parameters.
pub open spec fn parameter_views(v: Seq<ToolParameter>) -> Seq<ParameterView> {
    v.map_values(|p: ToolParameter| p@)
}

impl View for ToolSchema {
    type V = SchemaView;

    open spec fn view(&self) -> SchemaView {
        SchemaView {
            name: self.name@,
            description: self.description@,
            parameters: parameter_views(self.parameters@),
            required: views(self.required@),
        }
    }
}

/// The views of a sequence of tools.
pub open spec fn schema_views(v: Seq<ToolSchema>) -> Seq<SchemaView> {
    v.map_values(|s: ToolSchema| s@)
}

/// A parameter that takes a text.
pub open spec fn text_parameter(name: Seq<char>, description: Seq<char>) -> ParameterView {
    ParameterView { name, kind: "string"@, description }
}

/// A parameter that takes a whole number.
pub open spec fn count_parameter(name: Seq<char>, description: Seq<char>) -> ParameterView {
    ParameterView { name, kind: "integer"@, description }
}

/// The file enumerator as the model sees it.
pub open spec fn list_files_schema() -> SchemaView {
    SchemaView {
        name: "list_files"@,
        description: "List files in a directory. Use this to explore project structure and find files. Automatically excludes node_modules, .git, target, .next, dist, and out directories."@,
        parameters: seq![
            text_parameter("base_path"@, "The base directory path to search in"@),
            text_parameter(
                "pattern"@,
                "Optional glob pattern to filter files (e.g., '*.ts', '*.tsx', 'src/*')"@,
            ),
            count_parameter("max_depth"@, "Maximum directory depth to search (default: 3)"@),
        ],
        required: seq!["base_path"@],
    }
}

/// The content reader as the model sees it.
pub open spec fn read_file_schema() -> SchemaView {
    SchemaView {
        name: "read_file"@,
        description: "Read the contents of a file. Use this to examine code, configuration files, or documentation."@,
        parameters: seq![
            text_parameter("file_path"@, "The full path to the file to read"@),
            count_parameter("max_lines"@, "Maximum number of lines to read (default: 500)"@),
        ],
        required: seq!["file_path"@],
    }
}

/// The content search as the model sees it.
pub open spec fn grep_files_schema() -> SchemaView {
    SchemaView {
        name: "grep_files"@,
        description: "Search for text patterns in files. Use this to find specific code, function definitions, imports, or any text pattern across the codebase."@,
        parameters: seq![
            text_parameter("base_path"@, "The base directory path to search in"@),
            text_parameter(
                "search_pattern"@,
                "The text pattern to search for (case-insensitive)"@,
            ),
            text_parameter(
                "file_pattern"@,
                "Optional glob pattern to filter which files to search (e.g., '*.ts', '*.tsx')"@,
            ),
            count_parameter(
                "max_results"@,
                "Maximum number of results to return (default: 50)"@,
            ),
        ],
        required: seq!["base_path"@, "search_pattern"@],
    }
}

/// The tree renderer as the model sees it.
pub open spec fn directory_tree_schema() -> SchemaView {
    SchemaView {
        name: "get_directory_tree"@,
        description: "Get a visual tree representation of the directory structure. Useful for understanding project layout."@,
        parameters: seq![
            text_parameter("base_path"@, "The base directory path"@),
            count_parameter("max_depth"@, "Maximum depth of the tree (default: 3)"@),
        ],
        required: seq!["base_path"@],
    }
}

/// The four tools, in the order in which they are shown.
pub open spec fn catalog() -> Seq<SchemaView> {
    seq![list_files_schema(), read_file_schema(), grep_files_schema(), directory_tree_schema()]
}

/// The catalog has a tool of this name.
pub open spec fn is_known_tool(name: Seq<char>) -> bool {
    exists|i: int| 0 <= i < catalog().len() && #[trigger] catalog()[i].name == name
}

fn text_param(name: &str, description: &str) -> (p: ToolParameter)
    ensures
        p@ == text_parameter(name@, description@),
{
    ToolParameter {
        name: name.to_owned(),
        kind: "string".to_owned(),
        description: description.to_owned(),
    }
}

fn count_param(name: &str, description: &str) -> (p: ToolParameter)
    ensures
        p@ == count_parameter(name@, description@),
{
    ToolParameter {
        name: name.to_owned(),
        kind: "integer".to_owned(),
        description: description.to_owned(),
    }
}

fn list_files_tool() -> (s: ToolSchema)
    ensures
        s@ == list_files_schema(),
{
    let mut parameters: Vec<ToolParameter> = Vec::new();
    parameters.push(text_param("base_path", "The base directory path to search in"));
    parameters.push(
        text_param(
            "pattern",
            "Optional glob pattern to filter files (e.g., '*.ts', '*.tsx', 'src/*')",
        ),
    );
    parameters.push(count_param("max_depth", "Maximum directory depth to search (default: 3)"));
    let mut required: Vec<String> = Vec::new();
    required.push("base_path".to_owned());
    assert(parameter_views(parameters@) =~= list_files_schema().parameters);
    assert(views(required@) =~= list_files_schema().required);
    ToolSchema {
        name: "list_files".to_owned(),
        description: "List files in a directory. Use this to explore project structure and find files. Automatically excludes node_modules, .git, target, .next, dist, and out directories.".to_owned(),
        parameters,
        required,
    }
}

fn read_file_tool() -> (s: ToolSchema)
    ensures
        s@ == read_file_schema(),
{
    let mut parameters: Vec<ToolParameter> = Vec::new();
    parameters.push(text_param("file_path", "The full path to the file to read"));
    parameters.push(count_param("max_lines", "Maximum number of lines to read (default: 500)"));
    let mut required: Vec<String> = Vec::new();
    required.push("file_path".to_owned());
    assert(parameter_views(parameters@) =~= read_file_schema().parameters);
    assert(views(required@) =~= read_file_schema().required);
    ToolSchema {
        name: "read_file".to_owned(),
        description: "Read the contents of a file. Use this to examine code, configuration files, or documentation.".to_owned(),
        parameters,
        required,
    }
}

fn grep_files_tool() -> (s: ToolSchema)
    ensures
        s@ == grep_files_schema(),
{
    let mut parameters: Vec<ToolParameter> = Vec::new();
    parameters.push(text_param("base_path", "The base directory path to search in"));
    parameters.push(
        text_param("search_pattern", "The text pattern to search for (case-insensitive)"),
    );
    parameters.push(
        text_param(
            "file_pattern",
            "Optional glob pattern to filter which files to search (e.g., '*.ts', '*.tsx')",
        ),
    );
    parameters.push(
        count_param("max_results", "Maximum number of results to return (default: 50)"),
    );
    let mut required: Vec<String> = Vec::new();
    required.push("base_path".to_owned());
    required.push("search_pattern".to_owned());
    assert(parameter_views(parameters@) =~= grep_files_schema().parameters);
    assert(views(required@) =~= grep_files_schema().required);
    ToolSchema {
        name: "grep_files".to_owned(),
        description: "Search for text patterns in files. Use this to find specific code, function definitions, imports, or any text pattern across the codebase.".to_owned(),
        parameters,
        required,
    }
}

fn directory_tree_tool() -> (s: ToolSchema)
    ensures
        s@ == directory_tree_schema(),
{
    let mut parameters: Vec<ToolParameter> = Vec::new();
    parameters.push(text_param("base_path", "The base directory path"));
    parameters.push(count_param("max_depth", "Maximum depth of the tree (default: 3)"));
    let mut required: Vec<String> = Vec::new();
    required.push("base_path".to_owned());
    assert(parameter_views(parameters@) =~= directory_tree_schema().parameters);
    assert(views(required@) =~= directory_tree_schema().required);
    ToolSchema {
        name: "get_directory_tree".to_owned(),
        description: "Get a visual tree representation of the directory structure. Useful for understanding project layout.".to_owned(),
        parameters,
        required,
    }
}

/// The tools that the model may call.
pub fn get_tools() -> (tools: Vec<ToolSchema>)
    ensures
        schema_views(tools@) == catalog(),
{
    let mut tools: Vec<ToolSchema> = Vec::new();
    tools.push(list_files_tool());
    tools.push(read_file_tool());
    tools.push(grep_files_tool());
    tools.push(directory_tree_tool());
    assert(schema_views(tools@) =~= catalog());
    tools
}

/// The names of the four tools differ from each other.
proof fn lemma_tool_names_differ()
    ensures
        "list_files"@ != "read_file"@,
        "list_files"@ != "grep_files"@,
        "list_files"@ != "get_directory_tree"@,
        "read_file"@ != "grep_files"@,
        "read_file"@ != "get_directory_tree"@,
        "grep_files"@ != "get_directory_tree"@,
{
    reveal_strlit("list_files");
    reveal_strlit("read_file");
    reveal_strlit("grep_files");
    reveal_strlit("get_directory_tree");
    assert("list_files"@[0] == 'l');
    assert("read_file"@[0] == 'r');
    assert("grep_files"@[0] == 'g');
    assert("get_directory_tree"@[1] == 'e');
    assert("grep_files"@[1] == 'r');
}

/// A call is refused as unknown exactly when the catalog has no tool of
/// its name.
pub proof fn lemma_unknown_tool(name: Seq<char>, input: Seq<ToolArgument>)
    ensures
        parsed(name, input) == Err::<crate::tools::CallView, Failure>(Failure::UnknownTool(name))
            <==> !is_known_tool(name),
{
    lemma_tool_names_differ();
    let c = catalog();
    assert(c[0].name == "list_files"@);
    assert(c[1].name == "read_file"@);
    assert(c[2].name == "grep_files"@);
    assert(c[3].name == "get_directory_tree"@);
    if name == "list_files"@ {
        assert(c[0].name == name);
    } else if name == "read_file"@ {
        assert(c[1].name == name);
    } else if name == "grep_files"@ {
        assert(c[2].name == name);
    } else if name == "get_directory_tree"@ {
        assert(c[3].name == name);
    } else {
        assert forall|i: int| 0 <= i < c.len() implies #[trigger] c[i].name != name by {
            if i == 0 {
            } else if i == 1 {
            } else if i == 2 {
            } else {
            }
        }
    }
}

/// A call of the `i`-th tool of the catalog is read successfully exactly
/// when every parameter that the tool requires is given as a text.
pub proof fn lemma_required_arguments(i: int, input: Seq<ToolArgument>)
    requires
        0 <= i < catalog().len(),
    ensures
        parsed(catalog()[i].name, input) is Ok <==> forall|k: int|
            0 <= k < catalog()[i].required.len() ==> text_arg(
                input,
                #[trigger] catalog()[i].required[k],
            ) is Some,
        parsed(catalog()[i].name, input) matches Err(e) ==> exists|k: int|
            0 <= k < catalog()[i].required.len() && text_arg(input, catalog()[i].required[k])
                is None && e == Failure::MissingArgument(#[trigger] catalog()[i].required[k]),
{
    lemma_tool_names_differ();
    let s = catalog()[i];
    if i == 0 {
        assert(s.required[0] == "base_path"@);
    } else if i == 1 {
        assert(s.required[0] == "file_path"@);
    } else if i == 2 {
        assert(s.required[0] == "base_path"@);
        assert(s.required[1] == "search_pattern"@);
    } else {
        assert(s.required[0] == "base_path"@);
    }
}

} // verus!
