//! Conversations and their messages, as they are stored, and what is
//! decided about them here: the title that a conversation gets from its
//! first message.

use vstd::prelude::*;
use vstd::string::StringExecFns;
use vstd::utf8::encode_utf8;
use crate::text::{chars_of, first_chars, string_of, take_chars};

verus! {

/// A stored conversation.
#[derive(Debug, Clone)]
pub struct Conversation {
    pub id: String,
    pub project_id: Option<String>,
    pub title: Option<String>,
    pub created_at: String,
}

/// A stored message of a conversation.
#[derive(Debug, Clone)]
pub struct Message {
    pub id: String,
    pub conversation_id: String,
    pub role: String,
    pub content: String,
    pub created_at: String,
}

/// A request to continue or to start a conversation.
#[derive(Debug)]
pub struct ChatRequest {
    pub conversation_id: Option<String>,
    pub project_id: Option<String>,
    pub message: String,
}

/// The answer to a `ChatRequest`.
#[derive(Debug)]
pub struct ChatResponse {
    pub conversation_id: String,
    pub message: Message,
}

/// The most characters of a message that go into a title.
pub open spec fn title_cap() -> nat {
    50
}

/// The length of a text in bytes, as the machine counts it.
pub open spec fn byte_len(s: Seq<char>) -> usize {
    encode_utf8(s).len() as usize
}

/// The title that a conversation gets from its first message: the first
/// fifty characters, followed by three dots where the message takes more
/// than fifty bytes.
pub open spec fn title_of(content: Seq<char>) -> Seq<char> {
    if byte_len(content) > title_cap() {
        first_chars(content, title_cap()) + "..."@
    } else {
        first_chars(content, title_cap())
    }
}

/// The title for a conversation whose first message is `content`.
pub fn conversation_title(content: &str) -> (title: String)
    ensures
        title@ == title_of(content@),
{
    let chars = chars_of(content);
    let short = take_chars(&chars, 50);
    let mut title = string_of(&short);
    if content.len() > 50 {
        title.append("...");
    }
    title
}

/// Whether a title is to be derived for a message that was just saved: only
/// for a message of the user, and only while the conversation has none.
pub fn wants_title(role: &str, title_exists: bool) -> (r: bool)
    ensures
        r == (role@ == "user"@ && !title_exists),
{
    crate::text::str_eq(role, "user") && !title_exists
}

} // verus!
