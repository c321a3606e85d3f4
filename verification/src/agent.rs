//! The agent loop as a state machine. A session holds the transcript and
//! the counters of one run; each reply of the model and each result of a
//! tool moves it to its next state, and its state says what is to be done
//! next: send the transcript, run a tool, or stop. Sending and running are
//! the caller's part.

use vstd::prelude::*;
use vstd::string::StringExecFns;
use crate::chat::Message;
use crate::errors::{concat, message_of, Failure, ToolError};
use crate::catalog::{catalog, get_tools, schema_views, ToolSchema};
use crate::text::str_eq;
use crate::tools::ToolArgument;

verus! {

/// Who speaks in a turn of the transcript.
#[derive(Debug, Clone, Copy, PartialEq, Eq, Structural)]
pub enum Role {
    User,
    Assistant,
}

/// One block of a turn.
pub enum ContentBlock {
    /// A piece of text.
    Text(String),
    /// The model asks for a tool to be run.
    ToolUse { id: String, name: String, input: Vec<ToolArgument> },
    /// What a tool gave; `tool_use_id` names the request that it answers.
    ToolResult { tool_use_id: String, content: String },
    /// A block of a kind that the loop does not read.
    Other,
}

/// What a turn holds: a plain text, or a sequence of blocks.
pub enum TurnContent {
    Plain(String),
    Blocks(Vec<ContentBlock>),
}

/// One turn of the transcript.
pub struct ConversationTurn {
    pub role: Role,
    pub content: TurnContent,
}

/// What the model answered, as far as the loop reads it: the reason for
/// which it stopped (empty where it gave none) and its blocks (`None`
/// where the answer holds no list of blocks).
pub struct ModelResponse {
    pub stop_reason: String,
    pub content: Option<Vec<ContentBlock>>,
}

/// How a request to the model ended.
pub enum Reply {
    /// The request did not get through; carries the cause.
    TransportFailure(String),
    /// The model's service answered with a failure status; carries the body.
    ApiFailure(String),
    /// The answer could not be read; carries the cause.
    Malformed(String),
    /// The model answered.
    Answer(ModelResponse),
}

/// Where a session stands.
#[derive(Debug, Clone, Copy, PartialEq, Eq, Structural)]
pub enum Phase {
    /// The transcript is to be sent, and the reply is awaited.
    Requesting,
    /// The tools that the last reply asked for are being run.
    ExecutingTools,
    /// The model gave its final answer.
    Finished,
    /// The run failed.
    Failed,
}

/// What the caller is to do next.
#[derive(Debug, Clone, Copy, PartialEq, Eq, Structural)]
pub enum AgentAction {
    /// Send the transcript to the model and hand back the reply.
    SendRequest,
    /// Run the tool that the session points at and hand back its result.
    RunTool,
    /// Return the answer.
    Finish,
    /// Return the failure.
    Fail,
}

/// The mathematical content of a `ContentBlock`.
pub enum BlockView {
    Text(Seq<char>),
    ToolUse { id: Seq<char>, name: Seq<char>, input: Seq<ToolArgument> },
    ToolResult { tool_use_id: Seq<char>, content: Seq<char> },
    Other,
}

/// The mathematical content of a `TurnContent`.
pub enum ContentView {
    Plain(Seq<char>),
    Blocks(Seq<BlockView>),
}

/// The mathematical content of a `ConversationTurn`.
pub struct TurnView {
    pub role: Role,
    pub content: ContentView,
}

/// The mathematical content of a `Reply`.
pub enum ReplyView {
    TransportFailure(Seq<char>),
    ApiFailure(Seq<char>),
    Malformed(Seq<char>),
    Answer { stop_reason: Seq<char>, content: Option<Seq<BlockView>> },
}

impl View for ContentBlock {
    type V = BlockView;

    open spec fn view(&self) -> BlockView {
        match *self {
            ContentBlock::Text(s) => BlockView::Text(s@),
            ContentBlock::ToolUse { id, name, input } => BlockView::ToolUse {
                id: id@,
                name: name@,
                input: input@,
            },
            ContentBlock::ToolResult { tool_use_id, content } => BlockView::ToolResult {
                tool_use_id: tool_use_id@,
                content: content@,
            },
            ContentBlock::Other => BlockView::Other,
        }
    }
}

/// The views of a sequence of blocks.
pub open spec fn block_views(v: Seq<ContentBlock>) -> Seq<BlockView> {
    v.map_values(|b: ContentBlock| b@)
}

impl View for TurnContent {
    type V = ContentView;

    open spec fn view(&self) -> ContentView {
        match *self {
            TurnContent::Plain(s) => ContentView::Plain(s@),
            TurnContent::Blocks(blocks) => ContentView::Blocks(block_views(blocks@)),
        }
    }
}

impl View for ConversationTurn {
    type V = TurnView;

    open spec fn view(&self) -> TurnView {
        TurnView { role: self.role, content: self.content@ }
    }
}

/// The views of a sequence of turns.
pub open spec fn turn_views(v: Seq<ConversationTurn>) -> Seq<TurnView> {
    v.map_values(|t: ConversationTurn| t@)
}

impl View for Reply {
    type V = ReplyView;

    open spec fn view(&self) -> ReplyView {
        match *self {
            Reply::TransportFailure(c) => ReplyView::TransportFailure(c@),
            Reply::ApiFailure(b) => ReplyView::ApiFailure(b@),
            Reply::Malformed(c) => ReplyView::Malformed(c@),
            Reply::Answer(response) => ReplyView::Answer {
                stop_reason: response.stop_reason@,
                content: match response.content {
                    Some(blocks) => Some(block_views(blocks@)),
                    None => None,
                },
            },
        }
    }
}

/// The mathematical content of a session.
pub struct SessionView {
    pub phase: Phase,
    /// The instruction that goes with every request.
    pub system: Seq<char>,
    /// Whether the catalog of tools goes with every request.
    pub tools_enabled: bool,
    pub transcript: Seq<TurnView>,
    /// The requests that were issued to the model.
    pub requests: nat,
    /// The rounds of tool calls that were completed.
    pub iterations: nat,
    /// The blocks of the reply whose tools are being run.
    pub pending: Seq<BlockView>,
    /// The index in `pending` of the tool request that is to be run next.
    pub cursor: nat,
    /// The results of the tools that were run in this round.
    pub results: Seq<BlockView>,
    /// The final answer, once there is one.
    pub answer: Seq<char>,
    /// The failure, once there is one.
    pub failure: Option<Failure>,
}

/// The most tokens that the model is asked to answer with.
pub const MAX_TOKENS: u32 = 4096;

/// The most requests that one run sends to the model.
pub open spec fn max_iterations() -> nat {
    10
}

/// The instruction that describes the assistant's role.
pub open spec fn base_system() -> Seq<char> {
    "You are an AI assistant integrated into Launchpad, a Micro-SaaS shipping framework.\nYou help developers build and ship products using a structured SOP (Standard Operating Procedure) system.\n\nYour capabilities:\n- Search and read files in linked project directories\n- Analyze codebases to understand architecture and patterns\n- Track progress through the SOP pipeline (13 phases from Idea to Launch)\n- Provide guidance on tech stack decisions (Next.js, Tailwind, Clerk, Neon, Drizzle, Stripe, Vercel)\n- Help with code reviews, architecture decisions, and best practices\n\nYou have access to file tools to explore and read project files. When the user asks about code, features, or wants you to find something, USE THE TOOLS to search and read the actual files. Don't just make assumptions - look at the code.\n\nBe concise, technical, and action-oriented. When you identify actionable items, be specific about what needs to be done."@
}

/// The instruction of a run: with a project bound, the base instruction
/// followed by the project's root path; else the caller's own instruction
/// where there is one; else the base instruction.
pub open spec fn system_of(system_prompt: Option<Seq<char>>, project_path: Option<Seq<char>>) -> Seq<
    char,
> {
    match project_path {
        Some(path) => base_system() + "\n\nCurrent project path: "@ + path,
        None => match system_prompt {
            Some(custom) => custom,
            None => base_system(),
        },
    }
}

/// The role that a stored message's role text stands for.
pub open spec fn role_of(text: Seq<char>) -> Role {
    if text == "assistant"@ {
        Role::Assistant
    } else {
        Role::User
    }
}

/// The turns that a run starts from: one for each stored message, with the
/// message's text as its plain content.
pub open spec fn initial_turns(messages: Seq<Message>) -> Seq<TurnView> {
    Seq::new(
        messages.len(),
        |i: int|
            TurnView {
                role: role_of(messages[i].role@),
                content: ContentView::Plain(messages[i].content@),
            },
    )
}

/// The state in which a run starts: the first request is due.
pub open spec fn started(
    messages: Seq<Message>,
    system_prompt: Option<Seq<char>>,
    project_path: Option<Seq<char>>,
) -> SessionView {
    SessionView {
        phase: Phase::Requesting,
        system: system_of(system_prompt, project_path),
        tools_enabled: project_path is Some,
        transcript: initial_turns(messages),
        requests: 1,
        iterations: 0,
        pending: Seq::empty(),
        cursor: 0,
        results: Seq::empty(),
        answer: Seq::empty(),
        failure: None,
    }
}

/// What the caller is to do in a state.
pub open spec fn action_of(s: SessionView) -> AgentAction {
    match s.phase {
        Phase::Requesting => AgentAction::SendRequest,
        Phase::ExecutingTools => AgentAction::RunTool,
        Phase::Finished => AgentAction::Finish,
        Phase::Failed => AgentAction::Fail,
    }
}

/// The blocks of a reply that are kept in the transcript: texts and tool
/// requests, in their order.
pub open spec fn kept_blocks(blocks: Seq<BlockView>) -> Seq<BlockView>
    decreases blocks.len(),
{
    if blocks.len() == 0 {
        Seq::empty()
    } else {
        let rest = kept_blocks(blocks.drop_last());
        match blocks.last() {
            BlockView::Text(_) => rest.push(blocks.last()),
            BlockView::ToolUse { .. } => rest.push(blocks.last()),
            _ => rest,
        }
    }
}

/// The texts of the text blocks, in their order.
pub open spec fn texts_of(blocks: Seq<BlockView>) -> Seq<Seq<char>>
    decreases blocks.len(),
{
    if blocks.len() == 0 {
        Seq::empty()
    } else {
        let rest = texts_of(blocks.drop_last());
        match blocks.last() {
            BlockView::Text(t) => rest.push(t),
            _ => rest,
        }
    }
}

/// The texts put one after the other, with nothing between them.
pub open spec fn concatenated(parts: Seq<Seq<char>>) -> Seq<char>
    decreases parts.len(),
{
    if parts.len() == 0 {
        Seq::empty()
    } else {
        concatenated(parts.drop_last()) + parts.last()
    }
}

/// The identifiers of the tool requests among the blocks, in their order.
pub open spec fn tool_ids(blocks: Seq<BlockView>) -> Seq<Seq<char>>
    decreases blocks.len(),
{
    if blocks.len() == 0 {
        Seq::empty()
    } else {
        let rest = tool_ids(blocks.drop_last());
        match blocks.last() {
            BlockView::ToolUse { id, .. } => rest.push(id),
            _ => rest,
        }
    }
}

/// The identifiers that the tool results answer, in their order.
pub open spec fn result_ids(blocks: Seq<BlockView>) -> Seq<Seq<char>>
    decreases blocks.len(),
{
    if blocks.len() == 0 {
        Seq::empty()
    } else {
        let rest = result_ids(blocks.drop_last());
        match blocks.last() {
            BlockView::ToolResult { tool_use_id, .. } => rest.push(tool_use_id),
            _ => rest,
        }
    }
}

/// The index of the first tool request at or after `from`, or the number
/// of blocks where there is none.
pub open spec fn next_tool_index(blocks: Seq<BlockView>, from: nat) -> nat
    decreases blocks.len() - from,
{
    if from >= blocks.len() {
        blocks.len()
    } else if blocks[from as int] is ToolUse {
        from
    } else {
        next_tool_index(blocks, from + 1)
    }
}

/// The state after a failure.
pub open spec fn failed(s: SessionView, failure: Failure) -> SessionView {
    SessionView { phase: Phase::Failed, failure: Some(failure), ..s }
}

/// The state after a round of tool calls is complete: the model's blocks
/// and the tools' results are appended to the transcript as two turns and
/// the round is counted; then the next request is due, unless ten rounds
/// have been made, in which case the run fails without another request.
pub open spec fn after_round(s: SessionView) -> SessionView {
    let transcript = s.transcript.push(
        TurnView { role: Role::Assistant, content: ContentView::Blocks(s.pending) },
    ).push(TurnView { role: Role::User, content: ContentView::Blocks(s.results) });
    if s.iterations + 1 < max_iterations() {
        SessionView {
            phase: Phase::Requesting,
            transcript,
            requests: s.requests + 1,
            iterations: s.iterations + 1,
            pending: Seq::empty(),
            cursor: 0,
            results: Seq::empty(),
            ..s
        }
    } else {
        SessionView {
            phase: Phase::Failed,
            failure: Some(Failure::IterationLimitExceeded),
            transcript,
            iterations: s.iterations + 1,
            pending: Seq::empty(),
            cursor: 0,
            results: Seq::empty(),
            ..s
        }
    }
}

/// The state in which the tools of a reply are run, from the tool request
/// at `cursor` on; where no tool request is left, the round is complete.
pub open spec fn running(s: SessionView, pending: Seq<BlockView>, results: Seq<BlockView>, cursor: nat) -> SessionView {
    let e = SessionView { phase: Phase::ExecutingTools, pending, results, cursor, ..s };
    if cursor >= pending.len() {
        after_round(e)
    } else {
        e
    }
}

/// The state after a reply. Only a state that awaits a reply is changed.
/// A failure of the transport, of the service or of the reading ends the
/// run, and so does a reply without a list of blocks. A reply that stopped
/// for tool use starts a round of tool calls. Any other reply is the final
/// answer: the texts of its text blocks, concatenated in their order.
pub open spec fn replied(s: SessionView, reply: ReplyView) -> SessionView {
    if s.phase != Phase::Requesting {
        s
    } else {
        match reply {
            ReplyView::TransportFailure(cause) => failed(s, Failure::TransportError(cause)),
            ReplyView::ApiFailure(body) => failed(s, Failure::ApiError(body)),
            ReplyView::Malformed(cause) => failed(s, Failure::ParseError(cause)),
            ReplyView::Answer { stop_reason, content } => match content {
                None => failed(s, Failure::NoContent),
                Some(blocks) => if stop_reason == "tool_use"@ {
                    let kept = kept_blocks(blocks);
                    running(s, kept, Seq::empty(), next_tool_index(kept, 0))
                } else {
                    SessionView {
                        phase: Phase::Finished,
                        answer: concatenated(texts_of(blocks)),
                        ..s
                    }
                },
            },
        }
    }
}

/// What goes back to the model for a tool's result: the result itself, or
/// the failure's message after `Error: `.
pub open spec fn payload_of(result: Result<Seq<char>, Failure>) -> Seq<char> {
    match result {
        Ok(text) => text,
        Err(e) => "Error: "@ + message_of(e),
    }
}

/// The mathematical content of a tool's result.
pub open spec fn result_view(result: Result<String, ToolError>) -> Result<Seq<char>, Failure> {
    match result {
        Ok(text) => Ok(text@),
        Err(e) => Err(e@),
    }
}

/// The state after the result of the tool at the cursor. Only a state in
/// which a tool is due is changed: the result is recorded under the
/// identifier of the tool request, and the cursor moves to the next one.
pub open spec fn recorded(s: SessionView, payload: Seq<char>) -> SessionView {
    if s.phase == Phase::ExecutingTools && s.cursor < s.pending.len() && s.pending[s.cursor as int] is ToolUse {
        let result = BlockView::ToolResult {
            tool_use_id: s.pending[s.cursor as int]->id,
            content: payload,
        };
        running(s, s.pending, s.results.push(result), next_tool_index(s.pending, s.cursor + 1))
    } else {
        s
    }
}

/// What holds of every state of a run: no more than ten requests were
/// issued; while a request or a tool is due, one request more was issued
/// than rounds were completed; while a tool is due, the cursor stands at a
/// tool request and the results so far answer the tool requests before it,
/// one for one and in order.
pub open spec fn session_ok(s: SessionView) -> bool {
    &&& s.requests <= max_iterations()
    &&& s.iterations <= s.requests
    &&& (s.phase == Phase::Requesting || s.phase == Phase::ExecutingTools) ==> s.requests
        == s.iterations + 1
    &&& s.phase == Phase::ExecutingTools ==> {
        &&& s.cursor < s.pending.len()
        &&& s.pending[s.cursor as int] is ToolUse
        &&& result_ids(s.results) == tool_ids(s.pending.take(s.cursor as int))
        &&& s.results.len() == result_ids(s.results).len()
    }
    &&& s.phase == Phase::Failed ==> s.failure is Some
}

/// What is sent to the model with one request.
pub struct ApiRequest<'a> {
    /// The identifier of the model that is asked.
    pub model: &'a str,
    /// The most tokens that the model may answer with.
    pub max_tokens: u32,
    /// The instruction.
    pub system: &'a str,
    /// The transcript so far.
    pub messages: &'a Vec<ConversationTurn>,
    /// The catalog of tools, where a project is bound.
    pub tools: Option<Vec<ToolSchema>>,
}

/// One run of the agent loop: the transcript, the counters and the tools
/// of the round that is under way. Its state changes only through the
/// transitions below.
pub struct AgentSession {
    phase: Phase,
    system: String,
    tools_enabled: bool,
    transcript: Vec<ConversationTurn>,
    requests: usize,
    iterations: usize,
    pending: Vec<ContentBlock>,
    cursor: usize,
    results: Vec<ContentBlock>,
    answer: String,
    failure: Option<ToolError>,
}

impl View for AgentSession {
    type V = SessionView;

    closed spec fn view(&self) -> SessionView {
        SessionView {
            phase: self.phase,
            system: self.system@,
            tools_enabled: self.tools_enabled,
            transcript: turn_views(self.transcript@),
            requests: self.requests as nat,
            iterations: self.iterations as nat,
            pending: block_views(self.pending@),
            cursor: self.cursor as nat,
            results: block_views(self.results@),
            answer: self.answer@,
            failure: match self.failure {
                Some(e) => Some(e@),
                None => None,
            },
        }
    }
}

/// Up to the next tool request nothing is added to the identifiers.
proof fn lemma_no_tool_between(blocks: Seq<BlockView>, from: nat)
    requires
        from <= blocks.len(),
    ensures
        from <= next_tool_index(blocks, from) <= blocks.len(),
        next_tool_index(blocks, from) < blocks.len() ==> blocks[next_tool_index(
            blocks,
            from,
        ) as int] is ToolUse,
        tool_ids(blocks.take(next_tool_index(blocks, from) as int)) == tool_ids(
            blocks.take(from as int),
        ),
    decreases blocks.len() - from,
{
    if from < blocks.len() && !(blocks[from as int] is ToolUse) {
        lemma_no_tool_between(blocks, from + 1);
        assert(blocks.take(from as int + 1).drop_last() =~= blocks.take(from as int));
    }
}

/// The index of the first tool request at or after `from`.
fn next_tool(blocks: &Vec<ContentBlock>, from: usize) -> (r: usize)
    requires
        from <= blocks.len(),
    ensures
        r == next_tool_index(block_views(blocks@), from as nat),
        from <= r <= blocks.len(),
{
    let ghost views = block_views(blocks@);
    let mut i: usize = from;
    while i < blocks.len()
        invariant
            from <= i <= blocks.len(),
            views == block_views(blocks@),
            next_tool_index(views, from as nat) == next_tool_index(views, i as nat),
        decreases blocks.len() - i,
    {
        assert(views[i as int] == blocks[i as int]@);
        match &blocks[i] {
            ContentBlock::ToolUse { .. } => {
                return i;
            },
            _ => {},
        }
        i += 1;
    }
    i
}

/// The blocks of a reply that are kept, in their order.
fn keep_blocks(blocks: Vec<ContentBlock>) -> (kept: Vec<ContentBlock>)
    ensures
        block_views(kept@) == kept_blocks(block_views(blocks@)),
{
    let mut kept: Vec<ContentBlock> = Vec::new();
    let ghost all = block_views(blocks@);
    assert(block_views(kept@) =~= Seq::<BlockView>::empty());
    for b in it: blocks.into_iter()
        invariant
            it.seq() == blocks@,
            all == block_views(blocks@),
            block_views(kept@) == kept_blocks(all.take(it.index())),
    {
        let ghost i = it.index();
        assert(all.take(i + 1).drop_last() =~= all.take(i));
        assert(all.take(i + 1).last() == b@);
        let ghost before = block_views(kept@);
        match b {
            ContentBlock::Text(t) => {
                kept.push(ContentBlock::Text(t));
                assert(block_views(kept@) =~= before.push(b@));
            },
            ContentBlock::ToolUse { id, name, input } => {
                kept.push(ContentBlock::ToolUse { id, name, input });
                assert(block_views(kept@) =~= before.push(b@));
            },
            _ => {},
        }
    }
    assert(all.take(all.len() as int) =~= all);
    kept
}

/// The texts of a reply's text blocks, concatenated in their order.
fn concatenated_texts(blocks: &Vec<ContentBlock>) -> (r: String)
    ensures
        r@ == concatenated(texts_of(block_views(blocks@))),
{
    let ghost all = block_views(blocks@);
    let mut r = String::new();
    let mut i: usize = 0;
    assert(all.take(0) =~= Seq::<BlockView>::empty());
    while i < blocks.len()
        invariant
            i <= blocks.len(),
            all == block_views(blocks@),
            r@ == concatenated(texts_of(all.take(i as int))),
        decreases blocks.len() - i,
    {
        assert(all.take(i + 1).drop_last() =~= all.take(i as int));
        assert(all.take(i + 1).last() == blocks[i as int]@);
        let ghost before = texts_of(all.take(i as int));
        match &blocks[i] {
            ContentBlock::Text(t) => {
                assert(before.push(t@).drop_last() =~= before);
                r.append(t.as_str());
            },
            _ => {},
        }
        i += 1;
    }
    assert(all.take(blocks.len() as int) =~= all);
    r
}

/// The instruction that describes the assistant's role.
fn base_system_text() -> (r: String)
    ensures
        r@ == base_system(),
{
    "You are an AI assistant integrated into Launchpad, a Micro-SaaS shipping framework.\nYou help developers build and ship products using a structured SOP (Standard Operating Procedure) system.\n\nYour capabilities:\n- Search and read files in linked project directories\n- Analyze codebases to understand architecture and patterns\n- Track progress through the SOP pipeline (13 phases from Idea to Launch)\n- Provide guidance on tech stack decisions (Next.js, Tailwind, Clerk, Neon, Drizzle, Stripe, Vercel)\n- Help with code reviews, architecture decisions, and best practices\n\nYou have access to file tools to explore and read project files. When the user asks about code, features, or wants you to find something, USE THE TOOLS to search and read the actual files. Don't just make assumptions - look at the code.\n\nBe concise, technical, and action-oriented. When you identify actionable items, be specific about what needs to be done.".to_owned()
}

/// The turns that a run starts from.
fn first_turns(messages: &Vec<Message>) -> (turns: Vec<ConversationTurn>)
    ensures
        turn_views(turns@) == initial_turns(messages@),
{
    let mut turns: Vec<ConversationTurn> = Vec::new();
    let mut i: usize = 0;
    while i < messages.len()
        invariant
            i <= messages.len(),
            turn_views(turns@) == initial_turns(messages@).take(i as int),
        decreases messages.len() - i,
    {
        let m = &messages[i];
        let role = if str_eq(m.role.as_str(), "assistant") {
            Role::Assistant
        } else {
            Role::User
        };
        let ghost before = turn_views(turns@);
        let turn = ConversationTurn { role, content: TurnContent::Plain(m.content.clone()) };
        turns.push(turn);
        assert(turn_views(turns@) =~= before.push(turn@));
        assert(turn_views(turns@) =~= initial_turns(messages@).take(i + 1));
        i += 1;
    }
    assert(initial_turns(messages@).take(messages.len() as int) =~= initial_turns(messages@));
    turns
}

impl AgentSession {
    #[verifier::type_invariant]
    spec fn well_formed(self) -> bool {
        session_ok(self@)
    }

    /// Starts a run from the stored messages of a conversation. With a
    /// project bound, the instruction names its root path and the tools go
    /// with every request. The first request is due at once.
    pub fn start(
        messages: &Vec<Message>,
        system_prompt: Option<String>,
        project_path: Option<String>,
    ) -> (s: AgentSession)
        ensures
            s@ == started(
                messages@,
                crate::text::text_view(system_prompt),
                crate::text::text_view(project_path),
            ),
            session_ok(s@),
    {
        let tools_enabled = project_path.is_some();
        let system = match project_path {
            Some(path) => {
                let mut text = base_system_text();
                text.append("\n\nCurrent project path: ");
                text.append(path.as_str());
                text
            },
            None => match system_prompt {
                Some(custom) => custom,
                None => base_system_text(),
            },
        };
        let transcript = first_turns(messages);
        let pending: Vec<ContentBlock> = Vec::new();
        let results: Vec<ContentBlock> = Vec::new();
        assert(block_views(pending@) =~= Seq::<BlockView>::empty());
        assert(block_views(results@) =~= Seq::<BlockView>::empty());
        AgentSession {
            phase: Phase::Requesting,
            system,
            tools_enabled,
            transcript,
            requests: 1,
            iterations: 0,
            pending,
            cursor: 0,
            results,
            answer: String::new(),
            failure: None,
        }
    }

    /// What is sent with the request that is due, to the model of the
    /// given identifier: the fixed token budget, the run's instruction, the
    /// whole transcript, and the catalog of tools where a project is bound,
    /// else no tools at all.
    pub fn request<'a>(&'a self, model: &'a str) -> (r: ApiRequest<'a>)
        ensures
            r.model@ == model@,
            r.max_tokens == MAX_TOKENS,
            r.system@ == self@.system,
            turn_views(r.messages@) == self@.transcript,
            match r.tools {
                Some(tools) => self@.tools_enabled && schema_views(tools@) == catalog(),
                None => !self@.tools_enabled,
            },
    {
        ApiRequest {
            model,
            max_tokens: MAX_TOKENS,
            system: self.system.as_str(),
            messages: &self.transcript,
            tools: if self.tools_enabled {
                Some(get_tools())
            } else {
                None
            },
        }
    }

    /// What the caller is to do next.
    pub fn action(&self) -> (a: AgentAction)
        ensures
            a == action_of(self@),
    {
        match self.phase {
            Phase::Requesting => AgentAction::SendRequest,
            Phase::ExecutingTools => AgentAction::RunTool,
            Phase::Finished => AgentAction::Finish,
            Phase::Failed => AgentAction::Fail,
        }
    }

    /// Where the session stands.
    pub fn phase(&self) -> (p: Phase)
        ensures
            p == self@.phase,
    {
        self.phase
    }

    /// The instruction that goes with every request.
    pub fn system(&self) -> (s: &str)
        ensures
            s@ == self@.system,
    {
        self.system.as_str()
    }

    /// Whether the catalog of tools goes with every request.
    pub fn tools_enabled(&self) -> (b: bool)
        ensures
            b == self@.tools_enabled,
    {
        self.tools_enabled
    }

    /// The transcript that goes with the next request.
    pub fn transcript(&self) -> (t: &Vec<ConversationTurn>)
        ensures
            turn_views(t@) == self@.transcript,
    {
        &self.transcript
    }

    /// The requests that were issued to the model; never more than ten.
    pub fn requests(&self) -> (n: usize)
        ensures
            n == self@.requests,
            n <= max_iterations(),
    {
        proof {
            use_type_invariant(self);
        }
        self.requests
    }

    /// The rounds of tool calls that were completed.
    pub fn iterations(&self) -> (n: usize)
        ensures
            n == self@.iterations,
            n <= max_iterations(),
    {
        proof {
            use_type_invariant(self);
        }
        self.iterations
    }

    /// The tool request that is to be run, while one is due.
    pub fn current_tool(&self) -> (b: Option<&ContentBlock>)
        ensures
            match b {
                Some(block) => self@.phase == Phase::ExecutingTools && block@ is ToolUse && block@
                    == self@.pending[self@.cursor as int],
                None => self@.phase != Phase::ExecutingTools,
            },
    {
        proof {
            use_type_invariant(self);
        }
        match self.phase {
            Phase::ExecutingTools => {
                assert(block_views(self.pending@)[self.cursor as int]
                    == self.pending[self.cursor as int]@);
                Some(&self.pending[self.cursor])
            },
            _ => None,
        }
    }

    /// The final answer; empty until there is one.
    pub fn answer(&self) -> (s: &str)
        ensures
            s@ == self@.answer,
    {
        self.answer.as_str()
    }

    /// The failure of the run, once it failed.
    pub fn failure(&self) -> (e: Option<&ToolError>)
        ensures
            match e {
                Some(err) => self@.failure == Some(err@),
                None => self@.failure is None,
            },
            self@.phase == Phase::Failed ==> e is Some,
    {
        proof {
            use_type_invariant(self);
        }
        self.failure.as_ref()
    }

    /// Takes the reply to the request that was due and moves on.
    pub fn on_reply(self, reply: Reply) -> (s: AgentSession)
        ensures
            s@ == replied(self@, reply@),
            session_ok(s@),
    {
        proof {
            use_type_invariant(&self);
        }
        match self.phase {
            Phase::Requesting => {},
            _ => {
                return self;
            },
        }
        match reply {
            Reply::TransportFailure(cause) => self.fail(ToolError::TransportError(cause)),
            Reply::ApiFailure(body) => self.fail(ToolError::ApiError(body)),
            Reply::Malformed(cause) => self.fail(ToolError::ParseError(cause)),
            Reply::Answer(response) => match response.content {
                None => self.fail(ToolError::NoContent),
                Some(blocks) => {
                    if str_eq(response.stop_reason.as_str(), "tool_use") {
                        let kept = keep_blocks(blocks);
                        let cursor = next_tool(&kept, 0);
                        let results: Vec<ContentBlock> = Vec::new();
                        proof {
                            let views = block_views(kept@);
                            lemma_no_tool_between(views, 0);
                            assert(views.take(0) =~= Seq::<BlockView>::empty());
                            assert(block_views(results@) =~= Seq::<BlockView>::empty());
                        }
                        self.run(kept, results, cursor)
                    } else {
                        let answer = concatenated_texts(&blocks);
                        AgentSession {
                            phase: Phase::Finished,
                            system: self.system,
                            tools_enabled: self.tools_enabled,
                            transcript: self.transcript,
                            requests: self.requests,
                            iterations: self.iterations,
                            pending: self.pending,
                            cursor: self.cursor,
                            results: self.results,
                            answer,
                            failure: self.failure,
                        }
                    }
                },
            },
        }
    }

    /// Takes the result of the tool that was due and moves on. A failure
    /// of the tool does not end the run: its message goes back to the
    /// model in place of a result.
    pub fn on_tool_result(self, result: Result<String, ToolError>) -> (s: AgentSession)
        ensures
            s@ == recorded(self@, payload_of(result_view(result))),
            session_ok(s@),
    {
        proof {
            use_type_invariant(&self);
        }
        match self.phase {
            Phase::ExecutingTools => {},
            _ => {
                return self;
            },
        }
        let payload = match result {
            Ok(text) => text,
            Err(e) => {
                let message = e.message();
                concat("Error: ", message.as_str())
            },
        };
        let ghost views = block_views(self.pending@);
        let ghost old_results = block_views(self.results@);
        assert(views[self.cursor as int] == self.pending[self.cursor as int]@);
        let id = match &self.pending[self.cursor] {
            ContentBlock::ToolUse { id, .. } => id.clone(),
            _ => String::new(),
        };
        let block = ContentBlock::ToolResult { tool_use_id: id, content: payload };
        let mut results = self.results;
        assert(views.len() == self.pending.len());
        let cursor = next_tool(&self.pending, self.cursor + 1);
        results.push(block);
        proof {
            let c = self.cursor as int;
            assert(block_views(results@) =~= old_results.push(block@));
            assert(block_views(results@).drop_last() =~= old_results);
            assert(views.take(c + 1).drop_last() =~= views.take(c));
            assert(views.take(c + 1).last() == views[c]);
            lemma_no_tool_between(views, (c + 1) as nat);
        }
        let rest = AgentSession {
            phase: Phase::Requesting,
            system: self.system,
            tools_enabled: self.tools_enabled,
            transcript: self.transcript,
            requests: self.requests,
            iterations: self.iterations,
            pending: Vec::new(),
            cursor: 0,
            results: Vec::new(),
            answer: self.answer,
            failure: self.failure,
        };
        rest.run(self.pending, results, cursor)
    }

    /// The session after a failure.
    fn fail(self, failure: ToolError) -> (s: AgentSession)
        ensures
            s@ == failed(self@, failure@),
            session_ok(s@),
    {
        proof {
            use_type_invariant(&self);
        }
        AgentSession {
            phase: Phase::Failed,
            system: self.system,
            tools_enabled: self.tools_enabled,
            transcript: self.transcript,
            requests: self.requests,
            iterations: self.iterations,
            pending: self.pending,
            cursor: self.cursor,
            results: self.results,
            answer: self.answer,
            failure: Some(failure),
        }
    }

    /// The session in which the tools of `pending` are run from `cursor`
    /// on, or after the round where no tool is left.
    fn run(self, pending: Vec<ContentBlock>, results: Vec<ContentBlock>, cursor: usize) -> (s:
        AgentSession)
        requires
            self@.requests == self@.iterations + 1,
            cursor <= pending.len(),
            cursor < pending.len() ==> block_views(pending@)[cursor as int] is ToolUse,
            result_ids(block_views(results@)) == tool_ids(
                block_views(pending@).take(cursor as int),
            ),
            results.len() == result_ids(block_views(results@)).len(),
        ensures
            s@ == running(self@, block_views(pending@), block_views(results@), cursor as nat),
            session_ok(s@),
    {
        proof {
            use_type_invariant(&self);
        }
        if cursor < pending.len() {
            AgentSession {
                phase: Phase::ExecutingTools,
                system: self.system,
                tools_enabled: self.tools_enabled,
                transcript: self.transcript,
                requests: self.requests,
                iterations: self.iterations,
                pending,
                cursor,
                results,
                answer: self.answer,
                failure: self.failure,
            }
        } else {
            let ghost old_turns = turn_views(self.transcript@);
            let mut transcript = self.transcript;
            let asked = ConversationTurn {
                role: Role::Assistant,
                content: TurnContent::Blocks(pending),
            };
            let answered = ConversationTurn { role: Role::User, content: TurnContent::Blocks(results) };
            transcript.push(asked);
            transcript.push(answered);
            assert(turn_views(transcript@) =~= old_turns.push(asked@).push(answered@));
            let empty_pending: Vec<ContentBlock> = Vec::new();
            let empty_results: Vec<ContentBlock> = Vec::new();
            assert(block_views(empty_pending@) =~= Seq::<BlockView>::empty());
            assert(block_views(empty_results@) =~= Seq::<BlockView>::empty());
            if self.iterations + 1 < 10 {
                AgentSession {
                    phase: Phase::Requesting,
                    system: self.system,
                    tools_enabled: self.tools_enabled,
                    transcript,
                    requests: self.requests + 1,
                    iterations: self.iterations + 1,
                    pending: empty_pending,
                    cursor: 0,
                    results: empty_results,
                    answer: self.answer,
                    failure: self.failure,
                }
            } else {
                AgentSession {
                    phase: Phase::Failed,
                    system: self.system,
                    tools_enabled: self.tools_enabled,
                    transcript,
                    requests: self.requests,
                    iterations: self.iterations + 1,
                    pending: empty_pending,
                    cursor: 0,
                    results: empty_results,
                    answer: self.answer,
                    failure: Some(ToolError::IterationLimitExceeded),
                }
            }
        }
    }
}

/// What holds of a state in which a tool is due still holds after the
/// tool's result was recorded, whether the round goes on or ends.
proof fn lemma_running_ok(s: SessionView, pending: Seq<BlockView>, results: Seq<BlockView>, cursor: nat)
    requires
        session_ok(s),
        s.requests == s.iterations + 1,
        cursor <= pending.len(),
        cursor < pending.len() ==> pending[cursor as int] is ToolUse,
        result_ids(results) == tool_ids(pending.take(cursor as int)),
        results.len() == result_ids(results).len(),
    ensures
        session_ok(running(s, pending, results, cursor)),
        s.requests <= running(s, pending, results, cursor).requests <= s.requests + 1,
{
}

/// A reply takes a run from one good state to another, and issues at most
/// one request more: never an eleventh.
pub proof fn lemma_reply_keeps_limit(s: SessionView, reply: ReplyView)
    requires
        session_ok(s),
    ensures
        session_ok(replied(s, reply)),
        replied(s, reply).requests <= max_iterations(),
        s.requests <= replied(s, reply).requests <= s.requests + 1,
{
    if s.phase == Phase::Requesting {
        match reply {
            ReplyView::Answer { stop_reason, content } => {
                if content is Some && stop_reason == "tool_use"@ {
                    let kept = kept_blocks(content->0);
                    lemma_no_tool_between(kept, 0);
                    assert(kept.take(0) =~= Seq::<BlockView>::empty());
                    lemma_running_ok(s, kept, Seq::empty(), next_tool_index(kept, 0));
                }
            },
            _ => {},
        }
    }
}

/// A tool's result takes a run from one good state to another, and issues
/// at most one request more: never an eleventh.
pub proof fn lemma_result_keeps_limit(s: SessionView, payload: Seq<char>)
    requires
        session_ok(s),
    ensures
        session_ok(recorded(s, payload)),
        recorded(s, payload).requests <= max_iterations(),
        s.requests <= recorded(s, payload).requests <= s.requests + 1,
{
    if s.phase == Phase::ExecutingTools {
        let c = s.cursor as int;
        let result = BlockView::ToolResult { tool_use_id: s.pending[c]->id, content: payload };
        let results = s.results.push(result);
        assert(results.drop_last() =~= s.results);
        assert(s.pending.take(c + 1).drop_last() =~= s.pending.take(c));
        assert(s.pending.take(c + 1).last() == s.pending[c]);
        lemma_no_tool_between(s.pending, (c + 1) as nat);
        lemma_running_ok(s, s.pending, results, next_tool_index(s.pending, (c + 1) as nat));
    }
}

/// When the tenth round of tool calls ends, the run fails with
/// `IterationLimitExceeded` and no further request is issued: ten were.
pub proof fn lemma_tenth_round_ends_run(s: SessionView, payload: Seq<char>)
    requires
        session_ok(s),
        s.phase == Phase::ExecutingTools,
        s.iterations + 1 == max_iterations(),
        next_tool_index(s.pending, s.cursor + 1) >= s.pending.len(),
    ensures
        recorded(s, payload).phase == Phase::Failed,
        recorded(s, payload).failure == Some(Failure::IterationLimitExceeded),
        recorded(s, payload).requests == s.requests,
        recorded(s, payload).requests == max_iterations(),
        action_of(recorded(s, payload)) == AgentAction::Fail,
{
}

/// When a round of tool calls ends, the transcript grows by two turns: the
/// model's blocks as a turn of the assistant, then the tools' results as a
/// turn of the user, one result for each tool request and in the same
/// order.
pub proof fn lemma_round_is_paired(s: SessionView, payload: Seq<char>)
    requires
        session_ok(s),
        s.phase == Phase::ExecutingTools,
        next_tool_index(s.pending, s.cursor + 1) >= s.pending.len(),
    ensures
        recorded(s, payload).transcript.len() == s.transcript.len() + 2,
        recorded(s, payload).transcript[s.transcript.len() as int] == (TurnView {
            role: Role::Assistant,
            content: ContentView::Blocks(s.pending),
        }),
        recorded(s, payload).transcript.last().role == Role::User,
        recorded(s, payload).transcript.last().content matches ContentView::Blocks(results)
            && result_ids(results) == tool_ids(s.pending) && results.len() == tool_ids(
            s.pending,
        ).len(),
{
    let c = s.cursor as int;
    let result = BlockView::ToolResult { tool_use_id: s.pending[c]->id, content: payload };
    let results = s.results.push(result);
    assert(results.drop_last() =~= s.results);
    assert(s.pending.take(c + 1).drop_last() =~= s.pending.take(c));
    assert(s.pending.take(c + 1).last() == s.pending[c]);
    lemma_no_tool_between(s.pending, (c + 1) as nat);
    assert(s.pending.take(s.pending.len() as int) =~= s.pending);
}

} // verus!
