use launchpad::agent::{
    AgentAction, AgentSession, ContentBlock, ConversationTurn, ModelResponse, Phase, Reply, Role, TurnContent,
};
use launchpad::catalog::get_tools;
use launchpad::chat::Message;
use launchpad::errors::ToolError;
use launchpad::paths::{validate_path, CanonicalPath};
use launchpad::agent::MAX_TOKENS;
use launchpad::errors::PathRole;
use launchpad::tools::{
    execute_tool, parse_tool_call, render_file, render_matches, run_call, ArgValue, Observation, ToolArgument,
    ToolCall, ToolOutput,
};
use launchpad::reader::FileContent;
use launchpad::search::GrepResult;
use launchpad::tree::TreeNode;
use launchpad::walk::WalkEntry;

fn message(role: &str, content: &str) -> Message {
    Message {
        id: "m".to_string(),
        conversation_id: "c".to_string(),
        role: role.to_string(),
        content: content.to_string(),
        created_at: "now".to_string(),
    }
}

fn text_arg(name: &str, value: &str) -> ToolArgument {
    ToolArgument { name: name.to_string(), value: ArgValue::Text(value.to_string()) }
}

fn number_arg(name: &str, value: u64) -> ToolArgument {
    ToolArgument { name: name.to_string(), value: ArgValue::Number(value) }
}

fn tool_use(id: &str, name: &str, input: Vec<ToolArgument>) -> ContentBlock {
    ContentBlock::ToolUse { id: id.to_string(), name: name.to_string(), input }
}

fn answer(stop_reason: &str, blocks: Vec<ContentBlock>) -> Reply {
    Reply::Answer(ModelResponse { stop_reason: stop_reason.to_string(), content: Some(blocks) })
}

fn plain(turn: &ConversationTurn) -> &str {
    match &turn.content {
        TurnContent::Plain(s) => s.as_str(),
        _ => panic!("not plain"),
    }
}

fn blocks(turn: &ConversationTurn) -> &Vec<ContentBlock> {
    match &turn.content {
        TurnContent::Blocks(b) => b,
        _ => panic!("not blocks"),
    }
}

fn observation(entries: Vec<WalkEntry>) -> Observation {
    Observation { entries, is_file: false, is_dir: true, size: 0, content: Err("not read".to_string()), children: vec![] }
}

fn file_entry(path: &str, content: &str) -> WalkEntry {
    WalkEntry {
        components: path.split('/').map(String::from).collect(),
        is_dir: false,
        is_file: true,
        size: Some(content.len() as u64),
        content: Some(content.to_string()),
    }
}

fn project_base() -> launchpad::paths::ValidatedPath {
    let canonical = CanonicalPath {
        text: "/home/user/project".to_string(),
        components: vec!["/".to_string(), "home".to_string(), "user".to_string(), "project".to_string()],
    };
    validate_path("/home/user/project", Some(canonical)).unwrap()
}

#[test]
fn session_starts_with_a_request_due() {
    let s = AgentSession::start(&vec![message("user", "hi"), message("assistant", "hello")], None, None);
    assert_eq!(s.action(), AgentAction::SendRequest);
    assert_eq!(s.phase(), Phase::Requesting);
    assert_eq!(s.requests(), 1);
    assert_eq!(s.iterations(), 0);
    assert!(!s.tools_enabled());
    assert!(s.system().starts_with("You are an AI assistant integrated into Launchpad"));
    assert!(s.system().ends_with("be specific about what needs to be done."));
    assert_eq!(s.transcript().len(), 2);
    assert_eq!(s.transcript()[0].role, Role::User);
    assert_eq!(plain(&s.transcript()[0]), "hi");
    assert_eq!(s.transcript()[1].role, Role::Assistant);
    assert!(s.current_tool().is_none());
    assert!(s.failure().is_none());
}

#[test]
fn system_instruction_binds_the_project_root() {
    let bound = AgentSession::start(&vec![], Some("custom".to_string()), Some("/home/user/project".to_string()));
    assert!(bound.tools_enabled());
    assert!(bound.system().ends_with("\n\nCurrent project path: /home/user/project"));
    assert!(bound.system().starts_with("You are an AI assistant"));
    let custom = AgentSession::start(&vec![], Some("custom".to_string()), None);
    assert_eq!(custom.system(), "custom");
    assert!(!custom.tools_enabled());
}

#[test]
fn final_answer_concatenates_text_blocks() {
    let s = AgentSession::start(&vec![message("user", "hi")], None, None);
    let s = s.on_reply(answer(
        "end_turn",
        vec![ContentBlock::Text("one".to_string()), ContentBlock::Other, ContentBlock::Text("two".to_string())],
    ));
    assert_eq!(s.action(), AgentAction::Finish);
    assert_eq!(s.answer(), "onetwo");
    assert_eq!(s.requests(), 1);
    let s = s.on_reply(answer("end_turn", vec![ContentBlock::Text("late".to_string())]));
    assert_eq!(s.answer(), "onetwo");
    let lines = AgentSession::start(&vec![], None, None).on_reply(answer(
        "end_turn",
        vec![ContentBlock::Text("a\n".to_string()), ContentBlock::Text("b".to_string())],
    ));
    assert_eq!(lines.answer(), "a\nb");
    let empty = AgentSession::start(&vec![], None, None).on_reply(answer("", vec![]));
    assert_eq!(empty.action(), AgentAction::Finish);
    assert_eq!(empty.answer(), "");
}

#[test]
fn transport_failures_end_the_run() {
    let start = || AgentSession::start(&vec![message("user", "hi")], None, None);
    let s = start().on_reply(Reply::TransportFailure("timeout".to_string()));
    assert_eq!(s.action(), AgentAction::Fail);
    assert_eq!(s.failure(), Some(&ToolError::TransportError("timeout".to_string())));
    assert_eq!(s.failure().unwrap().message(), "Request failed: timeout");
    let s = start().on_reply(Reply::ApiFailure("overloaded".to_string()));
    assert_eq!(s.failure(), Some(&ToolError::ApiError("overloaded".to_string())));
    let s = start().on_reply(Reply::Malformed("eof".to_string()));
    assert_eq!(s.failure(), Some(&ToolError::ParseError("eof".to_string())));
    let s = start().on_reply(Reply::Answer(ModelResponse { stop_reason: "tool_use".to_string(), content: None }));
    assert_eq!(s.failure(), Some(&ToolError::NoContent));
    assert_eq!(s.failure().unwrap().message(), "No content in response");
    let s = s.on_tool_result(Ok("ignored".to_string()));
    assert_eq!(s.action(), AgentAction::Fail);
}

#[test]
fn tool_use_then_final_text_takes_two_requests() {
    let s = AgentSession::start(
        &vec![message("user", "where is the marker?")],
        None,
        Some("/home/user/project".to_string()),
    );
    assert_eq!(s.action(), AgentAction::SendRequest);
    let s = s.on_reply(answer(
        "tool_use",
        vec![
            ContentBlock::Text("Let me search.".to_string()),
            tool_use(
                "toolu_1",
                "grep_files",
                vec![text_arg("base_path", "/home/user/project"), text_arg("search_pattern", "marker")],
            ),
        ],
    ));
    assert_eq!(s.action(), AgentAction::RunTool);
    let (name, input) = match s.current_tool() {
        Some(ContentBlock::ToolUse { id, name, input }) => {
            assert_eq!(id, "toolu_1");
            (name.clone(), input)
        }
        _ => panic!("no tool"),
    };
    let call = parse_tool_call(&name, input).unwrap();
    assert_eq!(call.path(), "/home/user/project");
    let observed = observation(vec![file_entry("src/a.ts", "x\n// MARKER: fix\n")]);
    let output = run_call(call, &project_base(), observed).unwrap();
    let payload = match output {
        ToolOutput::Text(t) => t,
        _ => panic!("not text"),
    };
    assert_eq!(payload, "src/a.ts:2: // MARKER: fix");
    let s = s.on_tool_result(Ok(payload));
    assert_eq!(s.action(), AgentAction::SendRequest);
    assert_eq!(s.requests(), 2);
    assert_eq!(s.iterations(), 1);
    let transcript = s.transcript();
    assert_eq!(transcript.len(), 3);
    assert_eq!(transcript[1].role, Role::Assistant);
    assert_eq!(blocks(&transcript[1]).len(), 2);
    assert_eq!(transcript[2].role, Role::User);
    match &blocks(&transcript[2])[..] {
        [ContentBlock::ToolResult { tool_use_id, content }] => {
            assert_eq!(tool_use_id, "toolu_1");
            assert_eq!(content, "src/a.ts:2: // MARKER: fix");
        }
        _ => panic!("expected one tool result"),
    }
    let s = s.on_reply(answer("end_turn", vec![ContentBlock::Text("It is in src/a.ts.".to_string())]));
    assert_eq!(s.action(), AgentAction::Finish);
    assert_eq!(s.answer(), "It is in src/a.ts.");
    assert_eq!(s.requests(), 2);
}

#[test]
fn tool_failures_go_back_to_the_model_as_text() {
    let s = AgentSession::start(&vec![], None, Some("/p".to_string()));
    let s = s.on_reply(answer(
        "tool_use",
        vec![
            tool_use("a", "read_file", vec![]),
            ContentBlock::Other,
            ContentBlock::Text("and".to_string()),
            tool_use("b", "launch_rockets", vec![]),
            tool_use("c", "list_files", vec![text_arg("base_path", "/etc/.ssh")]),
        ],
    ));
    let first = match s.current_tool() {
        Some(ContentBlock::ToolUse { name, input, .. }) => parse_tool_call(name, input),
        _ => panic!(),
    };
    assert_eq!(first.as_ref().err(), Some(&ToolError::MissingArgument("file_path".to_string())));
    let s = s.on_tool_result(Err(first.err().unwrap()));
    assert_eq!(s.action(), AgentAction::RunTool);
    let second = match s.current_tool() {
        Some(ContentBlock::ToolUse { id, name, input }) => {
            assert_eq!(id, "b");
            parse_tool_call(name, input)
        }
        _ => panic!(),
    };
    let s = s.on_tool_result(Err(second.err().unwrap()));
    let s = s.on_tool_result(Err(ToolError::AccessDenied));
    assert_eq!(s.action(), AgentAction::SendRequest);
    let t = s.transcript();
    assert_eq!(blocks(&t[0]).len(), 4);
    let results: Vec<(String, String)> = blocks(&t[1])
        .iter()
        .map(|b| match b {
            ContentBlock::ToolResult { tool_use_id, content } => (tool_use_id.clone(), content.clone()),
            _ => panic!(),
        })
        .collect();
    assert_eq!(
        results,
        vec![
            ("a".to_string(), "Error: Missing file_path".to_string()),
            ("b".to_string(), "Error: Unknown tool: launch_rockets".to_string()),
            ("c".to_string(), "Error: Access to this directory is not allowed".to_string()),
        ]
    );
}

#[test]
fn tool_use_without_tools_still_counts_a_round() {
    let s = AgentSession::start(&vec![], None, None);
    let s = s.on_reply(answer("tool_use", vec![ContentBlock::Text("thinking".to_string())]));
    assert_eq!(s.action(), AgentAction::SendRequest);
    assert_eq!(s.requests(), 2);
    assert_eq!(s.transcript().len(), 2);
    assert!(blocks(&s.transcript()[1]).is_empty());
}

#[test]
fn run_stops_after_ten_requests() {
    let mut s = AgentSession::start(&vec![message("user", "loop")], None, Some("/p".to_string()));
    let mut sent = 0;
    loop {
        match s.action() {
            AgentAction::SendRequest => {
                sent += 1;
                assert_eq!(s.requests(), sent);
                s = s.on_reply(answer(
                    "tool_use",
                    vec![tool_use("t", "get_directory_tree", vec![text_arg("base_path", "/p")])],
                ));
            }
            AgentAction::RunTool => {
                s = s.on_tool_result(Ok("tree".to_string()));
            }
            AgentAction::Finish => panic!("no answer was given"),
            AgentAction::Fail => break,
        }
    }
    assert_eq!(sent, 10);
    assert_eq!(s.requests(), 10);
    assert_eq!(s.iterations(), 10);
    assert_eq!(s.failure(), Some(&ToolError::IterationLimitExceeded));
    assert_eq!(s.failure().unwrap().message(), "Max tool iterations reached");
    assert_eq!(s.transcript().len(), 21);
    let s = s.on_reply(answer("end_turn", vec![ContentBlock::Text("too late".to_string())]));
    assert_eq!(s.action(), AgentAction::Fail);
    assert_eq!(s.requests(), 10);
}

#[test]
fn answer_on_the_tenth_request_is_accepted() {
    let mut s = AgentSession::start(&vec![], None, Some("/p".to_string()));
    for _ in 0..9 {
        s = s.on_reply(answer("tool_use", vec![tool_use("t", "list_files", vec![])]));
        s = s.on_tool_result(Err(ToolError::MissingArgument("base_path".to_string())));
    }
    assert_eq!(s.requests(), 10);
    assert_eq!(s.action(), AgentAction::SendRequest);
    let s = s.on_reply(answer("end_turn", vec![ContentBlock::Text("done".to_string())]));
    assert_eq!(s.action(), AgentAction::Finish);
    assert_eq!(s.answer(), "done");
}

#[test]
fn tool_calls_are_read_by_name() {
    let call = parse_tool_call(
        "list_files",
        &vec![number_arg("max_depth", 2), text_arg("pattern", "*.ts"), text_arg("base_path", "/p"), text_arg("base_path", "/q")],
    )
    .unwrap();
    match call {
        ToolCall::ListFiles { base_path, pattern, max_depth } => {
            assert_eq!(base_path, "/p");
            assert_eq!(pattern.as_deref(), Some("*.ts"));
            assert_eq!(max_depth, Some(2));
        }
        _ => panic!(),
    }
    let wrong_kinds = parse_tool_call(
        "grep_files",
        &vec![
            text_arg("base_path", "/p"),
            text_arg("search_pattern", "x"),
            number_arg("file_pattern", 3),
            text_arg("max_results", "ten"),
        ],
    )
    .unwrap();
    match wrong_kinds {
        ToolCall::GrepFiles { file_pattern, max_results, search_pattern, .. } => {
            assert_eq!(search_pattern, "x");
            assert_eq!(file_pattern, None);
            assert_eq!(max_results, None);
        }
        _ => panic!(),
    }
    let not_text = ToolArgument { name: "base_path".to_string(), value: ArgValue::Other("null".to_string()) };
    assert_eq!(
        parse_tool_call("get_directory_tree", &vec![not_text]).err(),
        Some(ToolError::MissingArgument("base_path".to_string()))
    );
    assert_eq!(
        parse_tool_call("grep_files", &vec![text_arg("base_path", "/p")]).err(),
        Some(ToolError::MissingArgument("search_pattern".to_string()))
    );
    assert_eq!(
        parse_tool_call("grep_files", &vec![text_arg("search_pattern", "x")]).err(),
        Some(ToolError::MissingArgument("base_path".to_string()))
    );
    assert_eq!(parse_tool_call("", &vec![]).err(), Some(ToolError::UnknownTool("".to_string())));
    assert_eq!(
        parse_tool_call("List_Files", &vec![text_arg("base_path", "/p")]).err(),
        Some(ToolError::UnknownTool("List_Files".to_string()))
    );
    let read = parse_tool_call("read_file", &vec![text_arg("file_path", "/p/f"), number_arg("max_lines", u64::MAX)]);
    match read.unwrap() {
        ToolCall::ReadFile { max_lines, .. } => assert_eq!(max_lines, Some(usize::MAX)),
        _ => panic!(),
    }
}

#[test]
fn tools_run_on_what_was_observed() {
    let base = project_base();
    let entries = || vec![file_entry("src/a.ts", "alpha\n"), file_entry("notes.md", "Alpha and beta\n")];
    let list = parse_tool_call("list_files", &vec![text_arg("base_path", "/home/user/project"), text_arg("pattern", "*.md")]).unwrap();
    match run_call(list, &base, observation(entries())).unwrap() {
        ToolOutput::Listing(items) => {
            assert_eq!(items.len(), 1);
            assert_eq!(items[0].path, "notes.md");
        }
        _ => panic!(),
    }
    let grep = parse_tool_call(
        "grep_files",
        &vec![text_arg("base_path", "/home/user/project"), text_arg("search_pattern", "zzz")],
    )
    .unwrap();
    match run_call(grep, &base, observation(entries())).unwrap() {
        ToolOutput::Text(t) => assert_eq!(t, "No matches found."),
        _ => panic!(),
    }
    let read = parse_tool_call("read_file", &vec![text_arg("file_path", "/home/user/project"), number_arg("max_lines", 1)]).unwrap();
    let observed = Observation {
        entries: vec![],
        is_file: true,
        is_dir: false,
        size: 4,
        content: Ok("a\nb\n".to_string()),
        children: vec![],
    };
    match run_call(read, &base, observed).unwrap() {
        ToolOutput::Text(t) => assert_eq!(t, "File: /home/user/project\nLines: 2 (truncated)\n\na"),
        _ => panic!(),
    }
    let read_dir = parse_tool_call("read_file", &vec![text_arg("file_path", "/home/user/project")]).unwrap();
    assert_eq!(run_call(read_dir, &base, observation(vec![])).err(), Some(ToolError::NotAFile));
    let tree = parse_tool_call("get_directory_tree", &vec![text_arg("base_path", "/home/user/project"), number_arg("max_depth", 1)]).unwrap();
    let mut observed = observation(vec![]);
    observed.children = vec![TreeNode { name: "b.txt".to_string(), is_dir: false, children: vec![] }];
    match run_call(tree, &base, observed).unwrap() {
        ToolOutput::Text(t) => assert_eq!(t, "└── project/\n    └── b.txt\n"),
        _ => panic!(),
    }
}

fn project_canonical() -> CanonicalPath {
    CanonicalPath {
        text: "/home/user/project".to_string(),
        components: vec!["/".to_string(), "home".to_string(), "user".to_string(), "project".to_string()],
    }
}

#[test]
fn dispatch_reports_failures_in_their_order() {
    let good = vec![text_arg("base_path", "/home/user/project"), text_arg("search_pattern", "alpha")];
    let entries = || observation(vec![file_entry("notes.md", "Alpha\n")]);
    let sensitive = || CanonicalPath { text: "/home/user/.ssh".to_string(), components: vec!["/".to_string()] };
    assert_eq!(
        execute_tool("no_such_tool", &good, Some(sensitive()), entries()).err(),
        Some(ToolError::UnknownTool("no_such_tool".to_string()))
    );
    assert_eq!(
        execute_tool("grep_files", &vec![text_arg("base_path", "/x")], None, entries()).err(),
        Some(ToolError::MissingArgument("search_pattern".to_string()))
    );
    assert_eq!(
        execute_tool("grep_files", &good, None, entries()).err(),
        Some(ToolError::NotFound(PathRole::Path, "/home/user/project".to_string()))
    );
    assert_eq!(execute_tool("grep_files", &good, Some(sensitive()), entries()).err(), Some(ToolError::AccessDenied));
    match execute_tool("grep_files", &good, Some(project_canonical()), entries()).unwrap() {
        ToolOutput::Text(t) => assert_eq!(t, "notes.md:1: Alpha"),
        _ => panic!(),
    }
    let read = vec![text_arg("file_path", "/home/user/project")];
    assert_eq!(
        execute_tool("read_file", &read, Some(project_canonical()), Observation::unread()).err(),
        Some(ToolError::NotAFile)
    );
    let unread = Observation::unread();
    assert!(unread.entries.is_empty() && unread.children.is_empty() && !unread.is_file && !unread.is_dir);
    assert_eq!(unread.content, Err("not read".to_string()));
}

#[test]
fn request_holds_what_is_sent() {
    let bound = AgentSession::start(&vec![message("user", "hi")], None, Some("/p".to_string()));
    let r = bound.request("model-x");
    assert_eq!(r.model, "model-x");
    assert_eq!(r.max_tokens, 4096);
    assert_eq!(MAX_TOKENS, 4096);
    assert_eq!(r.system, bound.system());
    assert_eq!(r.messages.len(), 1);
    assert_eq!(r.tools.as_ref().map(|t| t.len()), Some(4));
    let free = AgentSession::start(&vec![], Some("custom".to_string()), None);
    let r = free.request("model-y");
    assert!(r.tools.is_none());
    assert_eq!(r.system, "custom");
    assert!(r.messages.is_empty());
    assert_eq!(r.model, "model-y");
}

#[test]
fn results_are_written_for_the_model() {
    let content = FileContent { path: "src/main.rs".to_string(), content: "fn main() {}".to_string(), line_count: 1, truncated: false };
    assert_eq!(render_file(&content), "File: src/main.rs\nLines: 1\n\nfn main() {}");
    let cut = FileContent { path: "big".to_string(), content: "x".to_string(), line_count: 600, truncated: true };
    assert_eq!(render_file(&cut), "File: big\nLines: 600 (truncated)\n\nx");
    assert_eq!(render_matches(&vec![]), "No matches found.");
    let hits = vec![
        GrepResult { file: "a.ts".to_string(), line_number: 12, line_content: "let x".to_string() },
        GrepResult { file: "b/c.ts".to_string(), line_number: 3, line_content: "x()".to_string() },
    ];
    assert_eq!(render_matches(&hits), "a.ts:12: let x\nb/c.ts:3: x()");
    assert_eq!(render_matches(&hits[..1].to_vec()), "a.ts:12: let x");
}

#[test]
fn catalog_lists_the_four_tools() {
    let tools = get_tools();
    let names: Vec<&str> = tools.iter().map(|t| t.name.as_str()).collect();
    assert_eq!(names, vec!["list_files", "read_file", "grep_files", "get_directory_tree"]);
    let required: Vec<Vec<String>> = tools.iter().map(|t| t.required.clone()).collect();
    assert_eq!(
        required,
        vec![
            vec!["base_path".to_string()],
            vec!["file_path".to_string()],
            vec!["base_path".to_string(), "search_pattern".to_string()],
            vec!["base_path".to_string()],
        ]
    );
    let grep = &tools[2];
    let params: Vec<(&str, &str)> = grep.parameters.iter().map(|p| (p.name.as_str(), p.kind.as_str())).collect();
    assert_eq!(
        params,
        vec![("base_path", "string"), ("search_pattern", "string"), ("file_pattern", "string"), ("max_results", "integer")]
    );
    assert_eq!(grep.parameters[3].description, "Maximum number of results to return (default: 50)");
    assert!(tools[0].description.starts_with("List files in a directory."));
    for tool in &tools {
        for name in &tool.required {
            assert!(tool.parameters.iter().any(|p| &p.name == name));
        }
        let missing = parse_tool_call(&tool.name, &vec![]);
        assert_eq!(missing.err(), Some(ToolError::MissingArgument(tool.required[0].clone())));
    }
}
