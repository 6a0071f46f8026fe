//! What goes to the completion provider and what comes back, as plain data.

use crate::text::{from_chars, push_str};
use vstd::prelude::*;

verus! {

/// One message of a chat.
pub struct Message {
    pub role: String,
    pub content: String,
}

/// The document that asks for a completion.
pub struct ChatRequest {
    pub model: String,
    pub messages: Vec<Message>,
    /// Whether the reply is to be streamed.
    pub stream: bool,
}

/// The document that answers in one piece.
pub struct ChatResponse {
    pub choices: Vec<Choice>,
}

/// One choice of an answer.
pub struct Choice {
    pub message: ResponseMessage,
}

/// The message of a choice.
pub struct ResponseMessage {
    pub content: String,
}

/// Why an answer held no reply.
#[derive(PartialEq, Eq, Clone, Copy, Debug, Structural)]
pub enum CompletionError {
    /// The answer held no choice.
    NoChoices,
}

impl CompletionError {
    /// What the user is told.
    pub fn message(&self) -> (out: String)
        ensures
            out@ == "No choices returned"@,
    {
        "No choices returned".to_owned()
    }
}

/// The value of the authorization header for the key `key`.
pub open spec fn bearer_of(key: Seq<char>) -> Seq<char> {
    "Bearer "@ + key
}

impl ChatRequest {
    /// The request that sends `content` as the one message of the user.
    pub fn user(model: &str, content: &str, stream: bool) -> (r: ChatRequest)
        ensures
            r.model@ == model@,
            r.stream == stream,
            r.messages@.len() == 1,
            r.messages@[0].role@ == "user"@,
            r.messages@[0].content@ == content@,
    {
        let mut messages: Vec<Message> = Vec::new();
        messages.push(Message { role: "user".to_owned(), content: content.to_owned() });
        ChatRequest { model: model.to_owned(), messages, stream }
    }
}

impl ChatResponse {
    /// The reply: the content of the first choice.
    pub fn first_content(&self) -> (r: Result<String, CompletionError>)
        ensures
            match r {
                Ok(content) => self.choices@.len() > 0 && content@
                    == self.choices@[0].message.content@,
                Err(e) => self.choices@.len() == 0 && e == CompletionError::NoChoices,
            },
    {
        if self.choices.len() == 0 {
            Err(CompletionError::NoChoices)
        } else {
            Ok(self.choices[0].message.content.clone())
        }
    }
}

/// The value of the authorization header for the key `key`.
pub fn bearer(key: &str) -> (out: String)
    ensures
        out@ == bearer_of(key@),
{
    let mut out: Vec<char> = Vec::new();
    push_str(&mut out, "Bearer ");
    push_str(&mut out, key);
    from_chars(out.as_slice())
}

} // verus!
