//! The flat chat-completion representation that the model-serving side takes
//! and gives: an ordered list of messages with a few generation parameters
//! going in, one or more choices with token counts coming out.

use crate::types::number::FloatBits;
use crate::types::role::Role;
use vstd::prelude::*;

verus! {

/// One message of the flat list.
#[derive(Debug)]
pub struct ChatMessage {
    pub role: Role,
    pub content: String,
}

/// A message as a role and a text.
pub struct ChatMessageView {
    pub role: Role,
    pub content: Seq<char>,
}

impl View for ChatMessage {
    type V = ChatMessageView;

    open spec fn view(&self) -> ChatMessageView {
        ChatMessageView { role: self.role, content: self.content@ }
    }
}

impl DeepView for ChatMessage {
    type V = ChatMessageView;

    open spec fn deep_view(&self) -> ChatMessageView {
        self@
    }
}

impl Clone for ChatMessage {
    fn clone(&self) -> (copy: ChatMessage)
        ensures
            copy@ == self@,
    {
        ChatMessage { role: self.role, content: self.content.clone() }
    }
}

impl ChatMessage {
    /// A system message.
    pub fn system(content: String) -> (message: ChatMessage)
        ensures
            message@ == (ChatMessageView { role: Role::System, content: content@ }),
    {
        ChatMessage { role: Role::System, content }
    }

    /// A user message.
    pub fn user(content: String) -> (message: ChatMessage)
        ensures
            message@ == (ChatMessageView { role: Role::User, content: content@ }),
    {
        ChatMessage { role: Role::User, content }
    }
}

/// A function that the model may call. The parameter schema is a JSON object
/// that the library carries and never reads.
#[derive(Debug, Clone)]
pub struct Tool {
    pub name: String,
    pub description: Option<String>,
    pub parameters: Option<serde_json::Map<String, serde_json::Value>>,
}

/// A tool with its texts; the schema stays the JSON object that it is.
pub struct ToolView {
    pub name: Seq<char>,
    pub description: Option<Seq<char>>,
    pub parameters: Option<serde_json::Map<String, serde_json::Value>>,
}

impl View for Tool {
    type V = ToolView;

    open spec fn view(&self) -> ToolView {
        ToolView {
            name: self.name@,
            description: self.description.deep_view(),
            parameters: self.parameters,
        }
    }
}

impl DeepView for Tool {
    type V = ToolView;

    open spec fn deep_view(&self) -> ToolView {
        self@
    }
}

/// Whether the model may, must or must not call a tool.
#[derive(Debug, Clone, Copy, PartialEq, Eq, Structural)]
pub enum ToolChoice {
    NoTool,
    Auto,
    Required,
}

/// A chat-completion request. A parameter that is `None` is left to the
/// serving side's default.
#[derive(Debug)]
pub struct ChatCompletionRequest {
    pub model: Option<String>,
    pub messages: Vec<ChatMessage>,
    pub temperature: Option<FloatBits>,
    pub top_p: Option<FloatBits>,
    pub max_completion_tokens: Option<i64>,
    pub stream: Option<bool>,
    pub tools: Option<Vec<Tool>>,
    pub tool_choice: Option<ToolChoice>,
    pub user: Option<String>,
}

/// A chat-completion request with its texts and sequences.
pub struct ChatCompletionRequestView {
    pub model: Option<Seq<char>>,
    pub messages: Seq<ChatMessageView>,
    pub temperature: Option<FloatBits>,
    pub top_p: Option<FloatBits>,
    pub max_completion_tokens: Option<i64>,
    pub stream: Option<bool>,
    pub tools: Option<Seq<ToolView>>,
    pub tool_choice: Option<ToolChoice>,
    pub user: Option<Seq<char>>,
}

impl View for ChatCompletionRequest {
    type V = ChatCompletionRequestView;

    open spec fn view(&self) -> ChatCompletionRequestView {
        ChatCompletionRequestView {
            model: self.model.deep_view(),
            messages: self.messages.deep_view(),
            temperature: self.temperature,
            top_p: self.top_p,
            max_completion_tokens: self.max_completion_tokens,
            stream: self.stream,
            tools: self.tools.deep_view(),
            tool_choice: self.tool_choice,
            user: self.user.deep_view(),
        }
    }
}

/// One choice of a completion: the generated text, if there is any.
#[derive(Debug)]
pub struct ChatChoice {
    pub content: Option<String>,
}

/// Token counts of a completion.
#[derive(Debug, Clone, Copy, PartialEq, Eq, Structural)]
pub struct ChatUsage {
    pub prompt_tokens: i64,
    pub completion_tokens: i64,
    pub total_tokens: i64,
}

/// What the serving side returns for one request.
#[derive(Debug)]
pub struct ChatCompletionObject {
    pub id: String,
    pub created: i64,
    pub model: String,
    pub choices: Vec<ChatChoice>,
    pub usage: ChatUsage,
}

} // verus!
