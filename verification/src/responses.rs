//! The Responses representation, and its translation to and from the flat
//! chat-completion representation. The translation is lossy on purpose:
//! what the serving side cannot take is dropped, never guessed.

use crate::chat;
use crate::chat::{ChatCompletionObject, ChatCompletionRequest, ChatMessage, ChatMessageView};
use crate::database;
use crate::database::{copy_text, ResponseSession, ResponseSessionView};
use crate::ids::{is_message_id, is_response_id, prefixed};
use crate::json::{
    json_document, json_object_of, json_text_at, parse_document, text_at, value_object,
};
use crate::types::metadata::Metadata;
use crate::types::number::FloatBits;
use crate::types::role::Role;
use vstd::prelude::*;
use vstd::string::*;

verus! {

/// A request in the Responses representation.
#[derive(Debug, Clone)]
pub struct ResponseRequest {
    pub model: String,
    pub input: Option<InputTypes>,
    pub instructions: Option<String>,
    pub previous_response_id: Option<String>,
    pub max_output_tokens: Option<i64>,
    pub temperature: Option<FloatBits>,
    pub top_p: Option<FloatBits>,
    pub stream: Option<bool>,
    pub store: Option<bool>,
    pub metadata: Option<Metadata>,
    pub user: Option<String>,
    pub safety_identifier: Option<String>,
    pub prompt_cache_key: Option<String>,
    pub tools: Option<Vec<ResponseTool>>,
    pub tool_choice: Option<ToolChoice>,
    pub parallel_tool_calls: Option<bool>,
    pub included: Option<Vec<String>>,
    pub background: Option<bool>,
    pub verbosity: Option<String>,
    pub truncation: Option<String>,
}

/// What a request asks about: one text, or a sequence of typed items.
#[derive(Debug, Clone)]
pub enum InputTypes {
    Text(String),
    Array(Vec<InputItem>),
}

/// One typed item of a request's input.
#[derive(Debug, Clone)]
pub struct InputItem {
    pub item_type: String,
    pub role: Option<Role>,
    pub content: InputContent,
}

/// What an input item holds: a text, an image or a file.
#[derive(Debug, Clone)]
pub enum InputContent {
    Text { text: String },
    Image { image_url: ImageUrl, detail: Option<String> },
    File { file_id: String, purpose: Option<String> },
}

/// Where an image is found.
#[derive(Debug, Clone)]
pub struct ImageUrl {
    pub url: String,
}

/// A tool that a request offers to the model.
#[derive(Debug, Clone)]
pub struct ResponseTool {
    pub tool_type: String,
    pub tool_data: ToolData,
}

/// The kinds of tools.
#[derive(Debug, Clone)]
pub enum ToolData {
    Function { function: FunctionTool },
    WebSearch { web_search: WebSearchTool },
    FileSearch { file_search: FileSearchTool },
    CodeInterpreter { code_interpreter: CodeInterpreterTool },
}

/// A function that the model may call; the schema of its parameters is a
/// JSON value that is carried as it is.
#[derive(Debug, Clone)]
pub struct FunctionTool {
    pub name: String,
    pub description: Option<String>,
    pub parameters: Option<serde_json::Value>,
}

/// The tool that searches the web.
#[derive(Debug, Clone)]
pub struct WebSearchTool {}

/// The tool that searches files.
#[derive(Debug, Clone)]
pub struct FileSearchTool {
    pub file_ids: Option<Vec<String>>,
}

/// The tool that runs code.
#[derive(Debug, Clone)]
pub struct CodeInterpreterTool {}

/// Whether the model may, must or must not call a tool, or which one it is
/// to call.
#[derive(Debug, Clone)]
pub enum ToolChoice {
    Auto,
    NoTool,
    Required,
    Function { function: FunctionChoice },
}

/// The function that the model is to call.
#[derive(Debug, Clone)]
pub struct FunctionChoice {
    pub name: String,
}

/// A result in the Responses representation.
#[derive(Debug, Clone)]
pub struct ResponseObject {
    pub id: String,
    pub object: String,
    pub created_at: i64,
    pub model: String,
    pub status: String,
    pub previous_response_id: Option<String>,
    pub instructions: Option<String>,
    pub max_output_tokens: Option<i64>,
    pub temperature: Option<FloatBits>,
    pub top_p: Option<FloatBits>,
    pub store: Option<bool>,
    pub metadata: Option<Metadata>,
    pub user: Option<String>,
    pub safety_identifier: Option<String>,
    pub prompt_cache_key: Option<String>,
    pub tools: Option<Vec<ResponseTool>>,
    pub tool_choice: Option<ToolChoice>,
    pub parallel_tool_calls: Option<bool>,
    pub output: Vec<OutputItem>,
    pub error: Option<ResponseError>,
    pub incomplete_details: Option<IncompleteDetails>,
    pub usage: Option<Usage>,
    pub reasoning: Option<Reasoning>,
    pub truncation: Option<String>,
    pub verbosity: Option<String>,
}

/// One item of a result's output.
#[derive(Debug, Clone)]
pub struct OutputItem {
    pub id: String,
    pub item_type: String,
    pub status: String,
    pub role: Option<Role>,
    pub content: Option<Vec<OutputContent>>,
}

/// One block of an output item's content.
#[derive(Debug, Clone)]
pub struct OutputContent {
    pub content_type: String,
    pub content_data: OutputContentData,
}

/// What a content block holds: a text, or the call of a tool.
#[derive(Debug, Clone)]
pub enum OutputContentData {
    Text { text: String, annotations: Option<Vec<serde_json::Value>> },
    ToolCall { id: String, function: ToolCallFunction },
}

/// The function that a tool call names, and its arguments as JSON text.
#[derive(Debug, Clone)]
pub struct ToolCallFunction {
    pub name: String,
    pub arguments: String,
}

/// Why a response failed.
#[derive(Debug, Clone)]
pub struct ResponseError {
    pub error_type: String,
    pub code: String,
    pub message: String,
    pub param: Option<String>,
}

/// Why a response is incomplete.
#[derive(Debug, Clone)]
pub struct IncompleteDetails {
    pub incomplete_type: String,
    pub reason: Option<String>,
}

/// Token counts of a response.
#[derive(Debug, Clone, Copy, PartialEq, Eq, Structural)]
pub struct Usage {
    pub input_tokens: i64,
    pub output_tokens: i64,
    pub total_tokens: i64,
    pub input_tokens_details: Option<TokenDetails>,
    pub output_tokens_details: Option<TokenDetails>,
}

/// Token counts in detail.
#[derive(Debug, Clone, Copy, PartialEq, Eq, Structural)]
pub struct TokenDetails {
    pub cached_tokens: Option<i64>,
    pub reasoning_tokens: Option<i64>,
}

/// How the model is to reason, and what it kept of its reasoning.
#[derive(Debug, Clone)]
pub struct Reasoning {
    pub effort: Option<String>,
    pub summary: Option<String>,
    pub encrypted_content: Option<String>,
}

/// What the removal of a response reports.
#[derive(Debug, Clone)]
pub struct DeleteResponseResult {
    pub id: String,
    pub object: String,
    pub deleted: bool,
}

/// One page of a response's input items.
#[derive(Debug, Clone)]
pub struct InputItemList {
    pub object: String,
    pub data: Vec<InputItem>,
    pub first_id: String,
    pub last_id: String,
    pub has_more: bool,
}

/// The message that one input item becomes: a text item becomes a message
/// with its text, a system message if the item's role is `System` and a user
/// message otherwise; an image or a file becomes none.
pub open spec fn item_message(item: InputItem) -> Option<ChatMessageView> {
    match item.content {
        InputContent::Text { text } => Some(
            ChatMessageView {
                role: if item.role == Some(Role::System) {
                    Role::System
                } else {
                    Role::User
                },
                content: text@,
            },
        ),
        _ => None,
    }
}

/// The messages of the items of `items` that become one, in their order.
pub open spec fn items_messages(items: Seq<InputItem>) -> Seq<ChatMessageView>
    decreases items.len(),
{
    if items.len() == 0 {
        Seq::empty()
    } else {
        let front = items_messages(items.drop_last());
        match item_message(items.last()) {
            Some(message) => front.push(message),
            None => front,
        }
    }
}

/// The messages that a request's input becomes: one user message for a plain
/// text, the items' messages for a sequence of items.
pub open spec fn input_messages(input: Option<InputTypes>) -> Seq<ChatMessageView> {
    match input {
        Some(InputTypes::Text(text)) => seq![ChatMessageView { role: Role::User, content: text@ }],
        Some(InputTypes::Array(items)) => items_messages(items@),
        None => Seq::empty(),
    }
}

/// The messages that a chain of earlier responses becomes: one system
/// message for each response that has instructions, in the chain's order.
pub open spec fn history_messages(history: Seq<ResponseSessionView>) -> Seq<ChatMessageView>
    decreases history.len(),
{
    if history.len() == 0 {
        Seq::empty()
    } else {
        let front = history_messages(history.drop_last());
        match history.last().instructions {
            Some(text) => front.push(ChatMessageView { role: Role::System, content: text }),
            None => front,
        }
    }
}

/// The messages that the chain `history` becomes.
pub fn conversation_messages(history: &Vec<ResponseSession>) -> (messages: Vec<ChatMessage>)
    ensures
        messages.deep_view() == history_messages(history.deep_view()),
{
    let mut messages: Vec<ChatMessage> = Vec::new();
    let mut at: usize = 0;
    assert(history.deep_view().take(0) =~= Seq::<ResponseSessionView>::empty());
    assert(messages.deep_view() =~= Seq::<ChatMessageView>::empty());
    while at < history.len()
        invariant
            at <= history.len(),
            messages.deep_view() == history_messages(history.deep_view().take(at as int)),
        decreases history.len() - at,
    {
        let ghost sofar = messages.deep_view();
        proof {
            assert(history.deep_view().take(at + 1).drop_last() =~= history.deep_view().take(
                at as int,
            ));
            assert(history.deep_view().take(at + 1).last() == history[at as int]@);
        }
        match &history[at].instructions {
            Some(text) => {
                let message = ChatMessage::system(text.clone());
                messages.push(message);
                assert(messages.deep_view() =~= sofar.push(message@));
            },
            None => {},
        }
        at += 1;
    }
    assert(history.deep_view().take(at as int) =~= history.deep_view());
    messages
}

/// One system message for instructions that are present, none otherwise.
pub open spec fn instruction_messages(instructions: Option<String>) -> Seq<ChatMessageView> {
    match instructions {
        Some(text) => seq![ChatMessageView { role: Role::System, content: text@ }],
        None => Seq::empty(),
    }
}

/// The tool that one tool of a request becomes: a function keeps its name and
/// description, and its parameter schema where that is a JSON object; every
/// other kind of tool becomes none.
pub open spec fn function_tool(tool: ResponseTool) -> Option<chat::ToolView> {
    match tool.tool_data {
        ToolData::Function { function } => Some(
            chat::ToolView {
                name: function.name@,
                description: function.description.deep_view(),
                parameters: match function.parameters {
                    Some(schema) => json_object_of(schema),
                    None => None,
                },
            },
        ),
        _ => None,
    }
}

/// The function tools among `tools`, in their order.
pub open spec fn function_tools(tools: Seq<ResponseTool>) -> Seq<chat::ToolView>
    decreases tools.len(),
{
    if tools.len() == 0 {
        Seq::empty()
    } else {
        let front = function_tools(tools.drop_last());
        match function_tool(tools.last()) {
            Some(tool) => front.push(tool),
            None => front,
        }
    }
}

/// `Auto`, `NoTool` and `Required` stay what they are; the choice of one
/// named function is lowered to `Auto`.
pub open spec fn translated_choice(choice: ToolChoice) -> chat::ToolChoice {
    match choice {
        ToolChoice::Auto => chat::ToolChoice::Auto,
        ToolChoice::NoTool => chat::ToolChoice::NoTool,
        ToolChoice::Required => chat::ToolChoice::Required,
        ToolChoice::Function { .. } => chat::ToolChoice::Auto,
    }
}

impl ResponseRequest {
    /// A fresh identifier for a response.
    pub fn generate_id() -> (id: String)
        ensures
            is_response_id(id@),
    {
        prefixed("resp_")
    }

    /// A fresh identifier for a message.
    pub fn generate_message_id() -> (id: String)
        ensures
            is_message_id(id@),
    {
        prefixed("msg_")
    }

    /// The chat-completion request that this request becomes after the
    /// messages `history`: the model's name; the history, then the
    /// instructions, then the input, as messages; the function tools; the
    /// tool choice; and the scalar parameters as they are.
    pub open spec fn chat_request(self, history: Seq<ChatMessageView>) -> chat::ChatCompletionRequestView {
        chat::ChatCompletionRequestView {
            model: Some(self.model@),
            messages: history + instruction_messages(self.instructions) + input_messages(
                self.input,
            ),
            temperature: self.temperature,
            top_p: self.top_p,
            max_completion_tokens: self.max_output_tokens,
            stream: self.stream,
            tools: match self.tools {
                Some(tools) => Some(function_tools(tools@)),
                None => None,
            },
            tool_choice: match self.tool_choice {
                Some(choice) => Some(translated_choice(choice)),
                None => None,
            },
            user: self.user.deep_view(),
        }
    }

    /// Appends to `messages` the messages of the text items of `items`.
    fn push_item_messages(items: &Vec<InputItem>, messages: &mut Vec<ChatMessage>)
        ensures
            final(messages).deep_view() == old(messages).deep_view() + items_messages(items@),
    {
        let ghost before = messages.deep_view();
        let mut at: usize = 0;
        assert(items@.take(0) =~= Seq::<InputItem>::empty());
        assert(before + Seq::<ChatMessageView>::empty() =~= before);
        while at < items.len()
            invariant
                at <= items.len(),
                messages.deep_view() == before + items_messages(items@.take(at as int)),
            decreases items.len() - at,
        {
            let item = &items[at];
            let ghost sofar = messages.deep_view();
            proof {
                assert(items@.take(at + 1).drop_last() =~= items@.take(at as int));
                assert(items@.take(at + 1).last() == items@[at as int]);
            }
            match &item.content {
                InputContent::Text { text } => {
                    let message = match item.role {
                        Some(Role::System) => ChatMessage::system(text.clone()),
                        _ => ChatMessage::user(text.clone()),
                    };
                    messages.push(message);
                    assert(messages.deep_view() =~= sofar.push(message@));
                    assert(messages.deep_view() =~= before + items_messages(
                        items@.take(at + 1),
                    ));
                },
                _ => {},
            }
            at += 1;
        }
        assert(items@.take(at as int) =~= items@);
    }

    /// The function tools among `tools`.
    fn translate_tools(tools: &Vec<ResponseTool>) -> (translated: Vec<chat::Tool>)
        ensures
            translated.deep_view() == function_tools(tools@),
    {
        let mut translated: Vec<chat::Tool> = Vec::new();
        let mut at: usize = 0;
        assert(tools@.take(0) =~= Seq::<ResponseTool>::empty());
        assert(translated.deep_view() =~= Seq::<chat::ToolView>::empty());
        while at < tools.len()
            invariant
                at <= tools.len(),
                translated.deep_view() == function_tools(tools@.take(at as int)),
            decreases tools.len() - at,
        {
            let ghost sofar = translated.deep_view();
            proof {
                assert(tools@.take(at + 1).drop_last() =~= tools@.take(at as int));
                assert(tools@.take(at + 1).last() == tools@[at as int]);
            }
            match &tools[at].tool_data {
                ToolData::Function { function } => {
                    let parameters = match &function.parameters {
                        Some(schema) => value_object(schema),
                        None => None,
                    };
                    let tool = chat::Tool {
                        name: function.name.clone(),
                        description: copy_text(&function.description),
                        parameters,
                    };
                    translated.push(tool);
                    assert(translated.deep_view() =~= sofar.push(tool@));
                },
                _ => {},
            }
            at += 1;
        }
        assert(tools@.take(at as int) =~= tools@);
        translated
    }

    /// Translates this request, to be sent after what the chain `history`
    /// of earlier responses becomes.
    pub fn to_chat_request(&self, history: &Vec<ResponseSession>) -> (request:
        ChatCompletionRequest)
        ensures
            request@ == self.chat_request(history_messages(history.deep_view())),
    {
        self.to_chat_completion_request(conversation_messages(history))
    }

    /// Translates this request, to be sent after the messages of
    /// `conversation_history`.
    pub fn to_chat_completion_request(&self, conversation_history: Vec<ChatMessage>) -> (request:
        ChatCompletionRequest)
        ensures
            request@ == self.chat_request(conversation_history.deep_view()),
    {
        let ghost history = conversation_history.deep_view();
        let mut messages = conversation_history;
        match &self.instructions {
            Some(instructions) => {
                let message = ChatMessage::system(instructions.clone());
                messages.push(message);
                assert(messages.deep_view() =~= history + instruction_messages(self.instructions));
            },
            None => {
                assert(messages.deep_view() =~= history + instruction_messages(self.instructions));
            },
        }
        let ghost with_instructions = messages.deep_view();
        match &self.input {
            Some(InputTypes::Text(text)) => {
                let message = ChatMessage::user(text.clone());
                messages.push(message);
                assert(messages.deep_view() =~= with_instructions + input_messages(self.input));
            },
            Some(InputTypes::Array(items)) => {
                ResponseRequest::push_item_messages(items, &mut messages);
            },
            None => {
                assert(messages.deep_view() =~= with_instructions + input_messages(self.input));
            },
        }
        let tools = match &self.tools {
            Some(tools) => Some(ResponseRequest::translate_tools(tools)),
            None => None,
        };
        let tool_choice = match &self.tool_choice {
            Some(ToolChoice::Auto) => Some(chat::ToolChoice::Auto),
            Some(ToolChoice::NoTool) => Some(chat::ToolChoice::NoTool),
            Some(ToolChoice::Required) => Some(chat::ToolChoice::Required),
            Some(ToolChoice::Function { .. }) => Some(chat::ToolChoice::Auto),
            None => None,
        };
        ChatCompletionRequest {
            model: Some(self.model.clone()),
            messages,
            temperature: self.temperature,
            top_p: self.top_p,
            max_completion_tokens: self.max_output_tokens,
            stream: self.stream,
            tools,
            tool_choice,
            user: copy_text(&self.user),
        }
    }
}

/// A called function with its texts.
pub struct ToolCallFunctionView {
    pub name: Seq<char>,
    pub arguments: Seq<char>,
}

/// What a content block holds, with its texts.
pub enum OutputContentDataView {
    Text { text: Seq<char>, annotations: Option<Seq<serde_json::Value>> },
    ToolCall { id: Seq<char>, function: ToolCallFunctionView },
}

/// A content block with its texts.
pub struct OutputContentView {
    pub content_type: Seq<char>,
    pub content_data: OutputContentDataView,
}

/// An output item with its texts.
pub struct OutputItemView {
    pub id: Seq<char>,
    pub item_type: Seq<char>,
    pub status: Seq<char>,
    pub role: Option<Role>,
    pub content: Option<Seq<OutputContentView>>,
}

impl View for OutputContentData {
    type V = OutputContentDataView;

    open spec fn view(&self) -> OutputContentDataView {
        match *self {
            OutputContentData::Text { text, annotations } => OutputContentDataView::Text {
                text: text@,
                annotations: match annotations {
                    Some(notes) => Some(notes@),
                    None => None,
                },
            },
            OutputContentData::ToolCall { id, function } => OutputContentDataView::ToolCall {
                id: id@,
                function: ToolCallFunctionView {
                    name: function.name@,
                    arguments: function.arguments@,
                },
            },
        }
    }
}

impl View for OutputContent {
    type V = OutputContentView;

    open spec fn view(&self) -> OutputContentView {
        OutputContentView {
            content_type: self.content_type@,
            content_data: self.content_data@,
        }
    }
}

impl DeepView for OutputContent {
    type V = OutputContentView;

    open spec fn deep_view(&self) -> OutputContentView {
        self@
    }
}

impl View for OutputItem {
    type V = OutputItemView;

    open spec fn view(&self) -> OutputItemView {
        OutputItemView {
            id: self.id@,
            item_type: self.item_type@,
            status: self.status@,
            role: self.role,
            content: self.content.deep_view(),
        }
    }
}

/// The output item that stands for one choice of a completion: a completed
/// assistant message under the identifier `id`, whose one content block is
/// the generated text without annotations. A choice without text gives the
/// empty text.
pub open spec fn assistant_message(id: Seq<char>, text: Option<Seq<char>>) -> OutputItemView {
    OutputItemView {
        id,
        item_type: "message"@,
        status: "completed"@,
        role: Some(Role::Assistant),
        content: Some(
            seq![
                OutputContentView {
                    content_type: "output_text"@,
                    content_data: OutputContentDataView::Text {
                        text: match text {
                            Some(text) => text,
                            None => Seq::empty(),
                        },
                        annotations: None,
                    },
                },
            ],
        ),
    }
}

impl OutputItem {
    /// The output item for a choice with the generated text `text`, under
    /// the identifier `id`.
    pub fn assistant_message(id: String, text: Option<String>) -> (item: OutputItem)
        ensures
            item@ == assistant_message(id@, text.deep_view()),
    {
        let text = match text {
            Some(text) => text,
            None => String::new(),
        };
        let mut content: Vec<OutputContent> = Vec::new();
        let block = OutputContent {
            content_type: "output_text".to_owned(),
            content_data: OutputContentData::Text { text, annotations: None },
        };
        content.push(block);
        let item = OutputItem {
            id,
            item_type: "message".to_owned(),
            status: "completed".to_owned(),
            role: Some(Role::Assistant),
            content: Some(content),
        };
        assert(item@.content.unwrap() =~= seq![block@]);
        item
    }
}

impl ResponseObject {
    /// This result is what `completion` becomes: its identifier, creation
    /// time and model; the status "completed"; one assistant message for
    /// each choice, in order, each under a message identifier of its own;
    /// the token counts as they are; `store` set; and every other field
    /// absent.
    pub open spec fn is_translation_of(self, completion: ChatCompletionObject) -> bool {
        &&& self.id@ == completion.id@
        &&& self.object@ == "response"@
        &&& self.created_at == completion.created
        &&& self.model@ == completion.model@
        &&& self.status@ == "completed"@
        &&& self.previous_response_id is None
        &&& self.instructions is None
        &&& self.max_output_tokens is None
        &&& self.temperature is None
        &&& self.top_p is None
        &&& self.store == Some(true)
        &&& self.metadata is None
        &&& self.user is None
        &&& self.safety_identifier is None
        &&& self.prompt_cache_key is None
        &&& self.tools is None
        &&& self.tool_choice is None
        &&& self.parallel_tool_calls is None
        &&& self.output@.len() == completion.choices@.len()
        &&& forall|i: int|
            0 <= i < self.output@.len() ==> {
                &&& is_message_id((#[trigger] self.output@[i]).id@)
                &&& self.output@[i]@ == assistant_message(
                    self.output@[i].id@,
                    completion.choices@[i].content.deep_view(),
                )
            }
        &&& self.error is None
        &&& self.incomplete_details is None
        &&& self.usage == Some(
            Usage {
                input_tokens: completion.usage.prompt_tokens,
                output_tokens: completion.usage.completion_tokens,
                total_tokens: completion.usage.total_tokens,
                input_tokens_details: None,
                output_tokens_details: None,
            },
        )
        &&& self.reasoning is None
        &&& self.truncation is None
        &&& self.verbosity is None
    }

    /// Translates a completion. The identifiers of the output items are
    /// fresh and random; everything else is fixed by `completion`.
    pub fn from(completion: ChatCompletionObject) -> (response: ResponseObject)
        ensures
            response.is_translation_of(completion),
    {
        let mut output: Vec<OutputItem> = Vec::new();
        let mut at: usize = 0;
        while at < completion.choices.len()
            invariant
                at <= completion.choices.len(),
                output@.len() == at,
                forall|i: int|
                    0 <= i < at ==> {
                        &&& is_message_id((#[trigger] output@[i]).id@)
                        &&& output@[i]@ == assistant_message(
                            output@[i].id@,
                            completion.choices@[i].content.deep_view(),
                        )
                    },
            decreases completion.choices.len() - at,
        {
            let id = ResponseRequest::generate_message_id();
            let text = copy_text(&completion.choices[at].content);
            output.push(OutputItem::assistant_message(id, text));
            at += 1;
        }
        ResponseObject {
            id: completion.id,
            object: "response".to_owned(),
            created_at: completion.created,
            model: completion.model,
            status: "completed".to_owned(),
            previous_response_id: None,
            instructions: None,
            max_output_tokens: None,
            temperature: None,
            top_p: None,
            store: Some(true),
            metadata: None,
            user: None,
            safety_identifier: None,
            prompt_cache_key: None,
            tools: None,
            tool_choice: None,
            parallel_tool_calls: None,
            output,
            error: None,
            incomplete_details: None,
            usage: Some(
                Usage {
                    input_tokens: completion.usage.prompt_tokens,
                    output_tokens: completion.usage.completion_tokens,
                    total_tokens: completion.usage.total_tokens,
                    input_tokens_details: None,
                    output_tokens_details: None,
                },
            ),
            reasoning: None,
            truncation: None,
            verbosity: None,
        }
    }
}

/// What an input item holds, with its texts.
pub enum InputContentView {
    Text { text: Seq<char> },
    Image { url: Seq<char>, detail: Option<Seq<char>> },
    File { file_id: Seq<char>, purpose: Option<Seq<char>> },
}

impl View for InputContent {
    type V = InputContentView;

    open spec fn view(&self) -> InputContentView {
        match *self {
            InputContent::Text { text } => InputContentView::Text { text: text@ },
            InputContent::Image { image_url, detail } => InputContentView::Image {
                url: image_url.url@,
                detail: detail.deep_view(),
            },
            InputContent::File { file_id, purpose } => InputContentView::File {
                file_id: file_id@,
                purpose: purpose.deep_view(),
            },
        }
    }
}

/// An input item with its texts.
pub struct InputItemView {
    pub item_type: Seq<char>,
    pub role: Option<Role>,
    pub content: InputContentView,
}

impl View for InputItem {
    type V = InputItemView;

    open spec fn view(&self) -> InputItemView {
        InputItemView { item_type: self.item_type@, role: self.role, content: self.content@ }
    }
}

impl DeepView for InputItem {
    type V = InputItemView;

    open spec fn deep_view(&self) -> InputItemView {
        self@
    }
}

/// A stored item whose content is of no kind that the translation knows.
#[derive(Debug, Clone, PartialEq, Eq)]
pub struct TranslationError {
    pub item_type: String,
    pub item_id: String,
}

/// The content that the JSON document `document` holds. The kinds are tried
/// in a fixed order: a text, which has a `text`; then an image, which has an
/// `image_url` with a `url`; then a file, which has a `file_id`. A member
/// counts only as a JSON string. `None` where the document is of none of the
/// kinds.
pub open spec fn content_in(document: serde_json::Value) -> Option<InputContentView> {
    if json_text_at(document, "/text"@) is Some {
        Some(InputContentView::Text { text: json_text_at(document, "/text"@).unwrap() })
    } else if json_text_at(document, "/image_url/url"@) is Some {
        Some(
            InputContentView::Image {
                url: json_text_at(document, "/image_url/url"@).unwrap(),
                detail: json_text_at(document, "/detail"@),
            },
        )
    } else if json_text_at(document, "/file_id"@) is Some {
        Some(
            InputContentView::File {
                file_id: json_text_at(document, "/file_id"@).unwrap(),
                purpose: json_text_at(document, "/purpose"@),
            },
        )
    } else {
        None
    }
}

/// The content written in the JSON text `text`; `None` where `text` is no
/// JSON document, or one of no known kind.
pub open spec fn stored_content(text: Seq<char>) -> Option<InputContentView> {
    match json_document(text) {
        Some(document) => content_in(document),
        None => None,
    }
}

/// The item of a request that a stored item stands for, where its content
/// is of a known kind.
pub open spec fn stored_item(item: database::InputItemView) -> Option<InputItemView> {
    match stored_content(item.content) {
        Some(content) => Some(InputItemView { item_type: item.item_type, role: item.role, content }),
        None => None,
    }
}

/// The items that the stored items stand for, up to the first of them whose
/// content is of no known kind.
pub open spec fn stored_items(items: Seq<database::InputItemView>) -> Seq<InputItemView>
    decreases items.len(),
{
    if items.len() == 0 {
        Seq::empty()
    } else {
        let front = stored_items(items.drop_last());
        if front.len() == items.len() - 1 && stored_item(items.last()) is Some {
            front.push(stored_item(items.last()).unwrap())
        } else {
            front
        }
    }
}

impl InputContent {
    /// Reads a content from its JSON text.
    pub fn from_json(text: &str) -> (content: Option<InputContent>)
        ensures
            match content {
                Some(content) => stored_content(text@) == Some(content@),
                None => stored_content(text@) is None,
            },
    {
        let document = match parse_document(text) {
            Some(document) => document,
            None => {
                return None;
            },
        };
        match text_at(&document, "/text") {
            Some(text) => {
                return Some(InputContent::Text { text });
            },
            None => {},
        }
        match text_at(&document, "/image_url/url") {
            Some(url) => {
                return Some(
                    InputContent::Image {
                        image_url: ImageUrl { url },
                        detail: text_at(&document, "/detail"),
                    },
                );
            },
            None => {},
        }
        match text_at(&document, "/file_id") {
            Some(file_id) => Some(
                InputContent::File { file_id, purpose: text_at(&document, "/purpose") },
            ),
            None => None,
        }
    }
}

impl InputItem {
    /// The item of a request that the stored item `item` stands for. An
    /// item whose content is of no known kind is refused, with its type and
    /// its identifier.
    pub fn from_stored(item: &database::InputItem) -> (read: Result<InputItem, TranslationError>)
        ensures
            match read {
                Ok(read) => stored_item(item@) == Some(read@),
                Err(error) => stored_item(item@) is None && error.item_type@ == item.item_type@
                    && error.item_id@ == item.id@,
            },
    {
        match InputContent::from_json(item.content.as_str()) {
            Some(content) => Ok(
                InputItem { item_type: item.item_type.clone(), role: item.role, content },
            ),
            None => Err(
                TranslationError { item_type: item.item_type.clone(), item_id: item.id.clone() },
            ),
        }
    }

    /// The items of a request that the stored items stand for, or the first
    /// of them that is refused.
    pub fn all_from_stored(items: &Vec<database::InputItem>) -> (read: Result<
        Vec<InputItem>,
        TranslationError,
    >)
        ensures
            match read {
                Ok(read) => read.deep_view() == stored_items(items.deep_view()) && read.len()
                    == items.len(),
                Err(error) => {
                    let at = stored_items(items.deep_view()).len() as int;
                    &&& at < items.len()
                    &&& stored_item(items.deep_view()[at]) is None
                    &&& error.item_type@ == items.deep_view()[at].item_type
                    &&& error.item_id@ == items.deep_view()[at].id
                },
            },
    {
        let mut read: Vec<InputItem> = Vec::new();
        let mut at: usize = 0;
        assert(items.deep_view().take(0) =~= Seq::<database::InputItemView>::empty());
        assert(read.deep_view() =~= Seq::<InputItemView>::empty());
        while at < items.len()
            invariant
                at <= items.len(),
                read.len() == at,
                read.deep_view() == stored_items(items.deep_view().take(at as int)),
            decreases items.len() - at,
        {
            let ghost sofar = read.deep_view();
            proof {
                assert(items.deep_view().take(at + 1).drop_last() =~= items.deep_view().take(
                    at as int,
                ));
                assert(items.deep_view().take(at + 1).last() == items[at as int]@);
            }
            match InputItem::from_stored(&items[at]) {
                Ok(item) => {
                    read.push(item);
                    assert(read.deep_view() =~= sofar.push(item@));
                },
                Err(error) => {
                    proof {
                        lemma_stored_items_stop(items.deep_view(), at as int);
                    }
                    return Err(error);
                },
            }
            at += 1;
        }
        assert(items.deep_view().take(at as int) =~= items.deep_view());
        Ok(read)
    }
}

/// Where every item before `at` is read and the item at `at` is refused,
/// the reading of the whole stops at `at`.
proof fn lemma_stored_items_stop(items: Seq<database::InputItemView>, at: int)
    requires
        0 <= at < items.len(),
        stored_items(items.take(at)).len() == at,
        stored_item(items[at]) is None,
    ensures
        stored_items(items) == stored_items(items.take(at)),
    decreases items.len(),
{
    if items.len() - 1 == at {
        assert(items.drop_last() =~= items.take(at));
    } else {
        assert(items.drop_last().take(at) =~= items.take(at));
        lemma_stored_items_stop(items.drop_last(), at);
    }
}

} // verus!
