//! Messages exchanged with a language model.
use vstd::prelude::*;

verus! {

/// Who a message comes from.
#[derive(Debug, Clone, Copy, PartialEq, Eq, Structural)]
pub enum MessageRole {
    System,
    User,
    Assistant,
    Tool,
}

/// The role a message has when none is given: user.
pub fn default_role() -> (r: MessageRole)
    ensures
        r == MessageRole::User,
{
    MessageRole::User
}

/// A tool call requested by the model. The arguments are held as the JSON
/// text of an object.
#[derive(Debug, Clone)]
pub struct LlmToolCall {
    pub id: Option<String>,
    pub name: String,
    pub arguments: String,
}

/// A message of a conversation.
#[derive(Debug, Clone)]
pub struct LlmMessage {
    pub role: MessageRole,
    pub content: Option<String>,
    pub tool_calls: Option<Vec<LlmToolCall>>,
    pub image_paths: Option<Vec<String>>,
}

impl LlmMessage {
    /// The system message with the given text.
    pub open spec fn system_spec(content: String) -> LlmMessage {
        LlmMessage { role: MessageRole::System, content: Some(content), tool_calls: None, image_paths: None }
    }

    /// A user message with the given text.
    pub fn user(content: String) -> (m: LlmMessage)
        ensures
            m.role == MessageRole::User,
            m.content == Some(content),
            m.tool_calls is None,
            m.image_paths is None,
    {
        LlmMessage { role: MessageRole::User, content: Some(content), tool_calls: None, image_paths: None }
    }

    /// A system message with the given text.
    pub fn system(content: String) -> (m: LlmMessage)
        ensures
            m.role == MessageRole::System,
            m.content == Some(content),
            m.tool_calls is None,
            m.image_paths is None,
    {
        LlmMessage {
            role: MessageRole::System,
            content: Some(content),
            tool_calls: None,
            image_paths: None,
        }
    }

    /// An assistant message with the given text.
    pub fn assistant(content: String) -> (m: LlmMessage)
        ensures
            m.role == MessageRole::Assistant,
            m.content == Some(content),
            m.tool_calls is None,
            m.image_paths is None,
    {
        LlmMessage {
            role: MessageRole::Assistant,
            content: Some(content),
            tool_calls: None,
            image_paths: None,
        }
    }

    /// The same message with the given image paths attached.
    pub fn with_images(self, paths: Vec<String>) -> (m: LlmMessage)
        ensures
            m.role == self.role,
            m.content == self.content,
            m.tool_calls == self.tool_calls,
            m.image_paths == Some(paths),
    {
        LlmMessage { image_paths: Some(paths), ..self }
    }
}

} // verus!
