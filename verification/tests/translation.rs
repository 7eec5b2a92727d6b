use responses_core::chat::{
    ChatChoice, ChatCompletionObject, ChatMessage, ChatUsage, ToolChoice as ChatToolChoice,
};
use responses_core::database::ResponseSession;
use responses_core::responses::{
    conversation_messages, CodeInterpreterTool, FileSearchTool, FunctionChoice, FunctionTool,
    ImageUrl, InputContent, InputItem, InputTypes, OutputContentData, OutputItem, ResponseObject,
    ResponseRequest, ResponseTool, ToolChoice, ToolData, Usage, WebSearchTool,
};
use responses_core::types::{FloatBits, Role};

fn request(model: &str, input: Option<InputTypes>) -> ResponseRequest {
    ResponseRequest {
        model: model.to_string(),
        input,
        instructions: None,
        previous_response_id: None,
        max_output_tokens: None,
        temperature: None,
        top_p: None,
        stream: None,
        store: None,
        metadata: None,
        user: None,
        safety_identifier: None,
        prompt_cache_key: None,
        tools: None,
        tool_choice: None,
        parallel_tool_calls: None,
        included: None,
        background: None,
        verbosity: None,
        truncation: None,
    }
}

fn text_item(role: Option<Role>, text: &str) -> InputItem {
    InputItem {
        item_type: "input_text".to_string(),
        role,
        content: InputContent::Text { text: text.to_string() },
    }
}

fn image_item() -> InputItem {
    InputItem {
        item_type: "input_image".to_string(),
        role: Some(Role::User),
        content: InputContent::Image {
            image_url: ImageUrl { url: "http://x/y.png".to_string() },
            detail: None,
        },
    }
}

fn file_item() -> InputItem {
    InputItem {
        item_type: "input_file".to_string(),
        role: None,
        content: InputContent::File { file_id: "f1".to_string(), purpose: None },
    }
}

fn said(messages: &[ChatMessage]) -> Vec<(Role, String)> {
    messages.iter().map(|m| (m.role, m.content.clone())).collect()
}

fn ancestor(id: &str, instructions: Option<&str>) -> ResponseSession {
    ResponseSession {
        id: id.to_string(),
        object: "response".to_string(),
        created_at: 0,
        status: "completed".to_string(),
        model: "m".to_string(),
        previous_response_id: None,
        instructions: instructions.map(|i| i.to_string()),
        max_output_tokens: None,
        temperature: None,
        top_p: None,
        store: true,
        metadata: None,
        user_id: None,
        safety_identifier: None,
        prompt_cache_key: None,
        usage_input_tokens: None,
        usage_output_tokens: None,
        usage_total_tokens: None,
        error: None,
        incomplete_details: None,
    }
}

#[test]
fn plain_text_becomes_one_user_message() {
    let chat = request("m", Some(InputTypes::Text("hello".to_string())))
        .to_chat_completion_request(Vec::new());
    assert_eq!(chat.model, Some("m".to_string()));
    assert_eq!(said(&chat.messages), vec![(Role::User, "hello".to_string())]);
    assert_eq!(chat.temperature, None);
    assert_eq!(chat.top_p, None);
    assert_eq!(chat.max_completion_tokens, None);
    assert_eq!(chat.stream, None);
    assert!(chat.tools.is_none());
    assert_eq!(chat.tool_choice, None);
    assert_eq!(chat.user, None);
}

#[test]
fn no_input_gives_no_message() {
    let chat = request("m", None).to_chat_completion_request(Vec::new());
    assert!(chat.messages.is_empty());
    let chat =
        request("m", Some(InputTypes::Array(Vec::new()))).to_chat_completion_request(Vec::new());
    assert!(chat.messages.is_empty());
}

#[test]
fn image_item_is_dropped_and_its_sibling_kept() {
    let items = vec![image_item(), text_item(Some(Role::User), "what is this?")];
    let chat =
        request("m", Some(InputTypes::Array(items))).to_chat_completion_request(Vec::new());
    assert_eq!(said(&chat.messages), vec![(Role::User, "what is this?".to_string())]);
    let chat = request("m", Some(InputTypes::Array(vec![image_item()])))
        .to_chat_completion_request(Vec::new());
    assert!(chat.messages.is_empty());
}

#[test]
fn items_keep_their_order_and_roles() {
    let items = vec![
        text_item(Some(Role::System), "rules"),
        file_item(),
        text_item(None, "no role"),
        text_item(Some(Role::Assistant), "earlier answer"),
        image_item(),
        text_item(Some(Role::User), "question"),
    ];
    let chat =
        request("m", Some(InputTypes::Array(items))).to_chat_completion_request(Vec::new());
    assert_eq!(
        said(&chat.messages),
        vec![
            (Role::System, "rules".to_string()),
            (Role::User, "no role".to_string()),
            (Role::User, "earlier answer".to_string()),
            (Role::User, "question".to_string()),
        ]
    );
}

#[test]
fn history_comes_first_then_instructions_then_input() {
    let mut asked = request("m", Some(InputTypes::Text("now".to_string())));
    asked.instructions = Some("answer in French".to_string());
    let history = vec![
        ChatMessage { role: Role::System, content: "old rules".to_string() },
        ChatMessage { role: Role::Assistant, content: "old answer".to_string() },
    ];
    let chat = asked.to_chat_completion_request(history);
    assert_eq!(
        said(&chat.messages),
        vec![
            (Role::System, "old rules".to_string()),
            (Role::Assistant, "old answer".to_string()),
            (Role::System, "answer in French".to_string()),
            (Role::User, "now".to_string()),
        ]
    );
}

#[test]
fn chain_gives_one_system_message_for_each_instruction() {
    let chain = vec![
        ancestor("A", Some("first")),
        ancestor("B", None),
        ancestor("C", Some("third")),
    ];
    assert_eq!(
        said(&conversation_messages(&chain)),
        vec![(Role::System, "first".to_string()), (Role::System, "third".to_string())]
    );
    assert!(conversation_messages(&Vec::new()).is_empty());
    let mut asked = request("m", Some(InputTypes::Text("q".to_string())));
    asked.instructions = Some("mine".to_string());
    let chat = asked.to_chat_request(&chain);
    assert_eq!(
        said(&chat.messages),
        vec![
            (Role::System, "first".to_string()),
            (Role::System, "third".to_string()),
            (Role::System, "mine".to_string()),
            (Role::User, "q".to_string()),
        ]
    );
}

#[test]
fn scalar_fields_pass_through() {
    let mut asked = request("big-model", None);
    asked.temperature = Some(FloatBits::from_bits(0.25f64.to_bits()));
    asked.top_p = Some(FloatBits::from_bits(0.9f64.to_bits()));
    asked.max_output_tokens = Some(5_000_000_000);
    asked.stream = Some(true);
    asked.user = Some("user-7".to_string());
    asked.store = Some(false);
    let chat = asked.to_chat_completion_request(Vec::new());
    assert_eq!(chat.model, Some("big-model".to_string()));
    assert_eq!(chat.temperature.map(|t| f64::from_bits(t.bits)), Some(0.25));
    assert_eq!(chat.top_p.map(|t| f64::from_bits(t.bits)), Some(0.9));
    assert_eq!(chat.max_completion_tokens, Some(5_000_000_000));
    assert_eq!(chat.stream, Some(true));
    assert_eq!(chat.user, Some("user-7".to_string()));
}

fn function(name: &str, description: Option<&str>, parameters: Option<serde_json::Value>) -> ResponseTool {
    ResponseTool {
        tool_type: "function".to_string(),
        tool_data: ToolData::Function {
            function: FunctionTool {
                name: name.to_string(),
                description: description.map(|d| d.to_string()),
                parameters,
            },
        },
    }
}

#[test]
fn only_function_tools_are_translated() {
    let mut schema = serde_json::Map::new();
    schema.insert("type".to_string(), serde_json::Value::String("object".to_string()));
    schema.insert("properties".to_string(), serde_json::Value::Object(serde_json::Map::new()));
    let mut asked = request("m", None);
    asked.tools = Some(vec![
        ResponseTool {
            tool_type: "web_search".to_string(),
            tool_data: ToolData::WebSearch { web_search: WebSearchTool {} },
        },
        function("lookup", Some("looks things up"), Some(serde_json::Value::Object(schema.clone()))),
        ResponseTool {
            tool_type: "file_search".to_string(),
            tool_data: ToolData::FileSearch { file_search: FileSearchTool { file_ids: None } },
        },
        function("bare", None, None),
        ResponseTool {
            tool_type: "code_interpreter".to_string(),
            tool_data: ToolData::CodeInterpreter { code_interpreter: CodeInterpreterTool {} },
        },
    ]);
    let chat = asked.to_chat_completion_request(Vec::new());
    let tools = chat.tools.unwrap();
    assert_eq!(tools.len(), 2);
    assert_eq!(tools[0].name, "lookup");
    assert_eq!(tools[0].description, Some("looks things up".to_string()));
    assert_eq!(tools[0].parameters, Some(schema));
    assert_eq!(tools[1].name, "bare");
    assert_eq!(tools[1].description, None);
    assert_eq!(tools[1].parameters, None);
}

#[test]
fn a_schema_that_is_no_object_is_dropped() {
    let mut asked = request("m", None);
    asked.tools = Some(vec![
        function("a", None, Some(serde_json::Value::String("object".to_string()))),
        function("b", None, Some(serde_json::Value::Array(Vec::new()))),
        function("c", None, Some(serde_json::Value::Null)),
        function("d", None, Some(serde_json::Value::Object(serde_json::Map::new()))),
    ]);
    let tools = asked.to_chat_completion_request(Vec::new()).tools.unwrap();
    assert_eq!(tools.len(), 4);
    assert_eq!(tools[0].parameters, None);
    assert_eq!(tools[1].parameters, None);
    assert_eq!(tools[2].parameters, None);
    assert_eq!(tools[3].parameters, Some(serde_json::Map::new()));
}

#[test]
fn no_tools_and_empty_tools_stay_apart() {
    let mut asked = request("m", None);
    assert!(asked.to_chat_completion_request(Vec::new()).tools.is_none());
    asked.tools = Some(Vec::new());
    assert_eq!(asked.to_chat_completion_request(Vec::new()).tools.map(|t| t.len()), Some(0));
    asked.tools = Some(vec![ResponseTool {
        tool_type: "web_search".to_string(),
        tool_data: ToolData::WebSearch { web_search: WebSearchTool {} },
    }]);
    assert_eq!(asked.to_chat_completion_request(Vec::new()).tools.map(|t| t.len()), Some(0));
}

#[test]
fn tool_choice_is_translated() {
    let mut asked = request("m", None);
    asked.tool_choice = Some(ToolChoice::Auto);
    assert_eq!(asked.to_chat_completion_request(Vec::new()).tool_choice, Some(ChatToolChoice::Auto));
    asked.tool_choice = Some(ToolChoice::NoTool);
    assert_eq!(
        asked.to_chat_completion_request(Vec::new()).tool_choice,
        Some(ChatToolChoice::NoTool)
    );
    asked.tool_choice = Some(ToolChoice::Required);
    assert_eq!(
        asked.to_chat_completion_request(Vec::new()).tool_choice,
        Some(ChatToolChoice::Required)
    );
    asked.tool_choice =
        Some(ToolChoice::Function { function: FunctionChoice { name: "lookup".to_string() } });
    assert_eq!(asked.to_chat_completion_request(Vec::new()).tool_choice, Some(ChatToolChoice::Auto));
    asked.tool_choice = None;
    assert_eq!(asked.to_chat_completion_request(Vec::new()).tool_choice, None);
}

fn completion(texts: Vec<Option<&str>>) -> ChatCompletionObject {
    ChatCompletionObject {
        id: "chatcmpl-1".to_string(),
        created: 1_699_896_916,
        model: "served".to_string(),
        choices: texts
            .into_iter()
            .map(|t| ChatChoice { content: t.map(|t| t.to_string()) })
            .collect(),
        usage: ChatUsage { prompt_tokens: 11, completion_tokens: 22, total_tokens: 33 },
    }
}

fn only_text(item: &OutputItem) -> String {
    let content = item.content.as_ref().unwrap();
    assert_eq!(content.len(), 1);
    assert_eq!(content[0].content_type, "output_text");
    match &content[0].content_data {
        OutputContentData::Text { text, annotations } => {
            assert!(annotations.is_none());
            text.clone()
        }
        OutputContentData::ToolCall { .. } => panic!("a tool call where a text belongs"),
    }
}

#[test]
fn two_choices_become_two_assistant_messages() {
    let response = ResponseObject::from(completion(vec![Some("one"), Some("two")]));
    assert_eq!(response.output.len(), 2);
    for item in &response.output {
        assert_eq!(item.item_type, "message");
        assert_eq!(item.status, "completed");
        assert_eq!(item.role, Some(Role::Assistant));
        assert!(item.id.starts_with("msg_"));
        assert_eq!(item.id.len(), 36);
    }
    assert_eq!(only_text(&response.output[0]), "one");
    assert_eq!(only_text(&response.output[1]), "two");
    assert_ne!(response.output[0].id, response.output[1].id);
    assert_eq!(
        response.usage,
        Some(Usage {
            input_tokens: 11,
            output_tokens: 22,
            total_tokens: 33,
            input_tokens_details: None,
            output_tokens_details: None,
        })
    );
}

#[test]
fn completion_fields_are_carried_over() {
    let response = ResponseObject::from(completion(vec![Some("x")]));
    assert_eq!(response.id, "chatcmpl-1");
    assert_eq!(response.object, "response");
    assert_eq!(response.created_at, 1_699_896_916);
    assert_eq!(response.model, "served");
    assert_eq!(response.status, "completed");
    assert_eq!(response.store, Some(true));
}

#[test]
fn what_the_completion_lacks_stays_absent() {
    let response = ResponseObject::from(completion(vec![Some("x")]));
    assert!(response.previous_response_id.is_none());
    assert!(response.instructions.is_none());
    assert!(response.max_output_tokens.is_none());
    assert!(response.temperature.is_none());
    assert!(response.top_p.is_none());
    assert!(response.metadata.is_none());
    assert!(response.user.is_none());
    assert!(response.safety_identifier.is_none());
    assert!(response.prompt_cache_key.is_none());
    assert!(response.tools.is_none());
    assert!(response.tool_choice.is_none());
    assert!(response.parallel_tool_calls.is_none());
    assert!(response.error.is_none());
    assert!(response.incomplete_details.is_none());
    assert!(response.reasoning.is_none());
    assert!(response.truncation.is_none());
    assert!(response.verbosity.is_none());
}

#[test]
fn a_choice_without_text_gives_the_empty_text() {
    let response = ResponseObject::from(completion(vec![None, Some("")]));
    assert_eq!(response.output.len(), 2);
    assert_eq!(only_text(&response.output[0]), "");
    assert_eq!(only_text(&response.output[1]), "");
    let response = ResponseObject::from(completion(Vec::new()));
    assert!(response.output.is_empty());
    assert_eq!(response.usage.unwrap().total_tokens, 33);
}

#[test]
fn assistant_message_item() {
    let item = OutputItem::assistant_message("msg_x".to_string(), Some("hi".to_string()));
    assert_eq!(item.id, "msg_x");
    assert_eq!(item.item_type, "message");
    assert_eq!(item.status, "completed");
    assert_eq!(item.role, Some(Role::Assistant));
    assert_eq!(only_text(&item), "hi");
    let item = OutputItem::assistant_message("msg_y".to_string(), None);
    assert_eq!(only_text(&item), "");
}
