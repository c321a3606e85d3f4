//! The failures that the tools and the agent loop can report, each with the
//! plain message that is shown to the caller or fed back to the model.

use vstd::prelude::*;
use vstd::string::StringExecFns;

verus! {

/// What a path that was not found was asked for as.
#[derive(Debug, Clone, Copy, PartialEq, Eq, Structural)]
pub enum PathRole {
    /// A path on its own.
    Path,
    /// The base that a target has to stay inside.
    Base,
    /// A target under a base.
    Target,
}

/// Why a tool call or an agent run failed.
#[derive(Debug, Clone, PartialEq, Eq)]
pub enum ToolError {
    /// A path does not resolve to an existing entry; carries what the path
    /// was asked for as, and the path as it was written.
    NotFound(PathRole, String),
    /// The path names something that is not a regular file.
    NotAFile,
    /// The path resolves outside the required base directory.
    TraversalDenied,
    /// The path resolves into a sensitive location.
    AccessDenied,
    /// The file is larger than the reader accepts.
    TooLarge,
    /// The file could not be read or decoded; carries the cause.
    ReadError(String),
    /// A required argument of a tool call is absent; carries its name.
    MissingArgument(String),
    /// The model asked for a tool that does not exist; carries the name.
    UnknownTool(String),
    /// The request did not reach the model; carries the cause.
    TransportError(String),
    /// The model answered with a failure status; carries the body.
    ApiError(String),
    /// The model's answer could not be understood; carries the cause.
    ParseError(String),
    /// The model's answer holds no list of blocks.
    NoContent,
    /// The model kept asking for tools until the round limit was reached.
    IterationLimitExceeded,
}

/// The mathematical content of a `ToolError`: the same cases, with texts
/// as character sequences.
pub enum Failure {
    NotFound(PathRole, Seq<char>),
    NotAFile,
    TraversalDenied,
    AccessDenied,
    TooLarge,
    ReadError(Seq<char>),
    MissingArgument(Seq<char>),
    UnknownTool(Seq<char>),
    TransportError(Seq<char>),
    ApiError(Seq<char>),
    ParseError(Seq<char>),
    NoContent,
    IterationLimitExceeded,
}

impl View for ToolError {
    type V = Failure;

    open spec fn view(&self) -> Failure {
        match *self {
            ToolError::NotFound(role, p) => Failure::NotFound(role, p@),
            ToolError::NotAFile => Failure::NotAFile,
            ToolError::TraversalDenied => Failure::TraversalDenied,
            ToolError::AccessDenied => Failure::AccessDenied,
            ToolError::TooLarge => Failure::TooLarge,
            ToolError::ReadError(cause) => Failure::ReadError(cause@),
            ToolError::MissingArgument(name) => Failure::MissingArgument(name@),
            ToolError::UnknownTool(name) => Failure::UnknownTool(name@),
            ToolError::TransportError(cause) => Failure::TransportError(cause@),
            ToolError::ApiError(body) => Failure::ApiError(body@),
            ToolError::ParseError(cause) => Failure::ParseError(cause@),
            ToolError::NoContent => Failure::NoContent,
            ToolError::IterationLimitExceeded => Failure::IterationLimitExceeded,
        }
    }
}

/// What the message of a missing path begins with.
pub open spec fn missing_prefix(role: PathRole) -> Seq<char> {
    match role {
        PathRole::Path => "Path does not exist or is not accessible: "@,
        PathRole::Base => "Base path does not exist: "@,
        PathRole::Target => "Target path does not exist: "@,
    }
}

/// The message of each failure.
pub open spec fn message_of(e: Failure) -> Seq<char> {
    match e {
        Failure::NotFound(role, p) => missing_prefix(role) + p,
        Failure::NotAFile => "Path is not a file"@,
        Failure::TraversalDenied => "Path traversal not allowed"@,
        Failure::AccessDenied => "Access to this directory is not allowed"@,
        Failure::TooLarge => "File too large (> 1MB). Use grep_files for large files."@,
        Failure::ReadError(cause) => "Failed to read file: "@ + cause,
        Failure::MissingArgument(name) => "Missing "@ + name,
        Failure::UnknownTool(name) => "Unknown tool: "@ + name,
        Failure::TransportError(cause) => "Request failed: "@ + cause,
        Failure::ApiError(body) => "API error: "@ + body,
        Failure::ParseError(cause) => "Failed to parse response: "@ + cause,
        Failure::NoContent => "No content in response"@,
        Failure::IterationLimitExceeded => "Max tool iterations reached"@,
    }
}

/// `head` followed by `tail`.
pub fn concat(head: &str, tail: &str) -> (r: String)
    ensures
        r@ == head@ + tail@,
{
    let mut r = head.to_owned();
    r.append(tail);
    r
}

impl ToolError {
    /// The message shown for this failure.
    pub fn message(&self) -> (r: String)
        ensures
            r@ == message_of(self@),
    {
        match self {
            ToolError::NotFound(role, p) => match role {
                PathRole::Path => concat("Path does not exist or is not accessible: ", p.as_str()),
                PathRole::Base => concat("Base path does not exist: ", p.as_str()),
                PathRole::Target => concat("Target path does not exist: ", p.as_str()),
            },
            ToolError::NotAFile => "Path is not a file".to_owned(),
            ToolError::TraversalDenied => "Path traversal not allowed".to_owned(),
            ToolError::AccessDenied => "Access to this directory is not allowed".to_owned(),
            ToolError::TooLarge => "File too large (> 1MB). Use grep_files for large files.".to_owned(),
            ToolError::ReadError(cause) => concat("Failed to read file: ", cause.as_str()),
            ToolError::MissingArgument(name) => concat("Missing ", name.as_str()),
            ToolError::UnknownTool(name) => concat("Unknown tool: ", name.as_str()),
            ToolError::TransportError(cause) => concat("Request failed: ", cause.as_str()),
            ToolError::ApiError(body) => concat("API error: ", body.as_str()),
            ToolError::ParseError(cause) => concat("Failed to parse response: ", cause.as_str()),
            ToolError::NoContent => "No content in response".to_owned(),
            ToolError::IterationLimitExceeded => "Max tool iterations reached".to_owned(),
        }
    }
}

} // verus!
