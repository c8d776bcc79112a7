use mojentic::model_registry::OpenAIModelRegistry;
use mojentic::openai_adapter::{adapt_messages_to_openai, encode_image_as_base64, OpenAIContent, OpenAIContentPart};
use mojentic::openai_params::{adapt_parameters_for_model, chunk_text, OpenAIConfig, TemperatureParam, TokenLimitParam};
use mojentic::models::{LlmMessage, LlmToolCall, MessageRole};

#[test]
fn test_gateway_new() {
    let config = OpenAIConfig::from_environment(None, None);
    assert_eq!(config.base_url, "https://api.openai.com/v1");
    assert_eq!(config.api_key, "");
    assert!(config.timeout.is_none());
}

#[test]
fn test_gateway_with_api_key_and_base_url() {
    let config = OpenAIConfig::from_environment(Some("key".to_string()), Some("https://custom.com".to_string()));
    assert_eq!(config.api_key, "key");
    assert_eq!(config.base_url, "https://custom.com");
}

#[test]
fn test_chunk_text_short() {
    let chunks = chunk_text("Hello world", 100);
    assert_eq!(chunks.len(), 1);
    assert_eq!(chunks[0], "Hello world");
}

#[test]
fn test_chunk_text_long() {
    let long_text = "a".repeat(50000);
    let chunks = chunk_text(&long_text, 100);
    assert!(chunks.len() > 1);
}

#[test]
fn chunk_text_exact_pieces() {
    let text = "abcdefghij";
    let chunks = chunk_text(text, 1);
    assert_eq!(chunks, vec!["abcd".to_string(), "efgh".to_string(), "ij".to_string()]);
    assert_eq!(chunks.concat(), text);
}

#[test]
fn test_adapt_parameters_chat_model() {
    let registry = OpenAIModelRegistry::new();
    let plan = adapt_parameters_for_model(&registry, "gpt-4", 1000, None, 70);
    assert_eq!(plan.token_param, TokenLimitParam::MaxTokens);
    assert_eq!(plan.max_tokens, 1000);
    assert!(plan.supports_tools);
    assert_eq!(plan.temperature, TemperatureParam::Requested);
}

#[test]
fn test_adapt_parameters_reasoning_model() {
    let registry = OpenAIModelRegistry::new();
    let plan = adapt_parameters_for_model(&registry, "o1", 1000, None, 70);
    assert_eq!(plan.token_param, TokenLimitParam::MaxCompletionTokens);
    assert_eq!(plan.temperature, TemperatureParam::DefaultOne);
}

#[test]
fn adapt_parameters_token_limit_fallbacks() {
    let registry = OpenAIModelRegistry::new();
    assert_eq!(adapt_parameters_for_model(&registry, "gpt-4", 0, Some(77), 100).max_tokens, 77);
    assert_eq!(adapt_parameters_for_model(&registry, "gpt-4", 0, None, 100).max_tokens, 16384);
    let plan = adapt_parameters_for_model(&registry, "gpt-4o-search-preview", 10, None, 100);
    assert_eq!(plan.temperature, TemperatureParam::Omitted);
    assert!(!plan.supports_tools);
}

fn text_of(c: &Option<OpenAIContent>) -> String {
    match c {
        Some(OpenAIContent::Text(t)) => t.clone(),
        other => panic!("not text: {:?}", other),
    }
}

#[test]
fn test_adapt_system_message() {
    let messages = vec![LlmMessage::system("You are helpful".to_string())];
    let result = adapt_messages_to_openai(&messages, &[vec![]]);
    assert_eq!(result.len(), 1);
    assert_eq!(result[0].role, "system");
    assert_eq!(text_of(&result[0].content), "You are helpful");
}

#[test]
fn test_adapt_user_message() {
    let messages = vec![LlmMessage::user("Hello".to_string())];
    let result = adapt_messages_to_openai(&messages, &[vec![]]);
    assert_eq!(result.len(), 1);
    assert_eq!(result[0].role, "user");
    assert_eq!(text_of(&result[0].content), "Hello");
}

#[test]
fn test_adapt_assistant_message() {
    let messages = vec![LlmMessage::assistant("Hi there".to_string())];
    let result = adapt_messages_to_openai(&messages, &[vec![]]);
    assert_eq!(result.len(), 1);
    assert_eq!(result[0].role, "assistant");
    assert_eq!(text_of(&result[0].content), "Hi there");
}

#[test]
fn test_adapt_user_message_with_images() {
    let path = "/tmp/upload-1234".to_string();
    let messages = vec![LlmMessage::user("Describe this image".to_string()).with_images(vec![path.clone()])];
    let result = adapt_messages_to_openai(&messages, &[vec![Some(b"fake image data".to_vec())]]);
    assert_eq!(result.len(), 1);
    assert_eq!(result[0].role, "user");
    match &result[0].content {
        Some(OpenAIContent::Parts(parts)) => {
            assert_eq!(parts.len(), 2);
            match &parts[0] {
                OpenAIContentPart::Text { text } => assert_eq!(text, "Describe this image"),
                other => panic!("{:?}", other),
            }
            match &parts[1] {
                OpenAIContentPart::ImageUrl { url } => assert!(url.starts_with("data:image/jpeg;base64,")),
                other => panic!("{:?}", other),
            }
        }
        other => panic!("{:?}", other),
    }
}

#[test]
fn test_adapt_assistant_with_tool_calls() {
    let tool_call = LlmToolCall {
        id: Some("call_123".to_string()),
        name: "get_weather".to_string(),
        arguments: "{\"location\":\"NYC\"}".to_string(),
    };
    let messages = vec![LlmMessage {
        role: MessageRole::Assistant,
        content: None,
        tool_calls: Some(vec![tool_call]),
        image_paths: None,
    }];
    let result = adapt_messages_to_openai(&messages, &[vec![]]);
    assert_eq!(result.len(), 1);
    assert_eq!(result[0].role, "assistant");
    let calls = result[0].tool_calls.as_ref().unwrap();
    assert_eq!(calls.len(), 1);
    assert_eq!(calls[0].id, "call_123");
    assert_eq!(calls[0].call_type, "function");
    assert_eq!(calls[0].function.name, "get_weather");
    assert_eq!(calls[0].function.arguments, "{\"location\":\"NYC\"}");
    assert!(result[0].content.is_none());
}

#[test]
fn test_adapt_tool_message() {
    let messages = vec![LlmMessage {
        role: MessageRole::Tool,
        content: Some("Weather result: 72F".to_string()),
        tool_calls: Some(vec![LlmToolCall {
            id: Some("call_123".to_string()),
            name: "get_weather".to_string(),
            arguments: "{}".to_string(),
        }]),
        image_paths: None,
    }];
    let result = adapt_messages_to_openai(&messages, &[vec![]]);
    assert_eq!(result.len(), 1);
    assert_eq!(result[0].role, "tool");
    assert_eq!(text_of(&result[0].content), "Weather result: 72F");
    assert_eq!(result[0].tool_call_id, Some("call_123".to_string()));
}

#[test]
fn image_data_url_uses_base64() {
    assert_eq!(encode_image_as_base64("/a/b.png", b"foo"), "data:image/png;base64,Zm9v");
}
