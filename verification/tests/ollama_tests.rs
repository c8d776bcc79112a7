use mojentic::ollama::{extract_num_predict, OllamaConfig};
use std::collections::HashMap;

#[test]
fn test_ollama_config_custom() {
    let mut headers = HashMap::new();
    headers.insert("X-Custom".to_string(), "value".to_string());

    let config = OllamaConfig {
        host: "http://test:9999".to_string(),
        timeout: Some(std::time::Duration::from_secs(30)),
        headers,
    };

    assert_eq!(config.host, "http://test:9999");
    assert_eq!(config.timeout, Some(std::time::Duration::from_secs(30)));
    assert_eq!(config.headers.get("X-Custom"), Some(&"value".to_string()));
}

#[test]
fn ollama_config_from_environment() {
    let c = OllamaConfig::from_environment(None);
    assert_eq!(c.host, "http://localhost:11434");
    assert!(c.timeout.is_none());
    assert!(c.headers.is_empty());
    let c = OllamaConfig::from_environment(Some("http://h:1".to_string()));
    assert_eq!(c.host, "http://h:1");
}

#[test]
fn num_predict_choice() {
    assert_eq!(extract_num_predict(Some(100), 16384), Some(100));
    assert_eq!(extract_num_predict(Some(0), 16384), None);
    assert_eq!(extract_num_predict(None, 2048), Some(2048));
    assert_eq!(extract_num_predict(None, 0), None);
}

use mojentic::models::{LlmMessage, LlmToolCall, MessageRole};
use mojentic::ollama::adapt_messages_to_ollama;

#[test]
fn test_adapt_messages_to_ollama_simple() {
    let messages = vec![
        LlmMessage::system("You are helpful".to_string()),
        LlmMessage::user("Hello".to_string()),
        LlmMessage::assistant("Hi there".to_string()),
    ];
    let result = adapt_messages_to_ollama(&messages, &[None, None, None]);
    assert_eq!(result.len(), 3);
    assert_eq!(result[0].role, "system");
    assert_eq!(result[0].content, "You are helpful");
    assert_eq!(result[1].role, "user");
    assert_eq!(result[1].content, "Hello");
    assert_eq!(result[2].role, "assistant");
    assert_eq!(result[2].content, "Hi there");
}

#[test]
fn test_adapt_messages_with_images() {
    let expected_base64_1 = base64::Engine::encode(&base64::engine::general_purpose::STANDARD, b"fake_image_data_1");
    let expected_base64_2 = base64::Engine::encode(&base64::engine::general_purpose::STANDARD, b"fake_image_data_2");
    let messages = vec![LlmMessage::user("Describe this".to_string())
        .with_images(vec!["/tmp/img1".to_string(), "/tmp/img2".to_string()])];
    let images = vec![Some(vec![b"fake_image_data_1".to_vec(), b"fake_image_data_2".to_vec()])];
    let result = adapt_messages_to_ollama(&messages, &images);
    assert_eq!(result.len(), 1);
    assert_eq!(result[0].role, "user");
    let imgs = result[0].images.as_ref().unwrap();
    assert_eq!(imgs[0], expected_base64_1);
    assert_eq!(imgs[1], expected_base64_2);
}

#[test]
fn test_adapt_messages_with_tool_calls() {
    let tool_call = LlmToolCall {
        id: Some("call_123".to_string()),
        name: "test_function".to_string(),
        arguments: "{\"arg1\":\"value1\"}".to_string(),
    };
    let messages = vec![LlmMessage { role: MessageRole::Assistant, content: None, tool_calls: Some(vec![tool_call]), image_paths: None }];
    let result = adapt_messages_to_ollama(&messages, &[None]);
    assert_eq!(result.len(), 1);
    assert_eq!(result[0].role, "assistant");
    assert_eq!(result[0].tool_calls.as_ref().unwrap()[0].name, "test_function");
}

#[test]
fn test_adapt_messages_empty_content() {
    let messages = vec![LlmMessage { role: MessageRole::User, content: None, tool_calls: None, image_paths: None }];
    let result = adapt_messages_to_ollama(&messages, &[None]);
    assert_eq!(result.len(), 1);
    assert_eq!(result[0].content, "");
}

#[test]
fn test_adapt_messages_tool_role() {
    let messages = vec![LlmMessage {
        role: MessageRole::Tool,
        content: Some("Tool result".to_string()),
        tool_calls: None,
        image_paths: None,
    }];
    let result = adapt_messages_to_ollama(&messages, &[None]);
    assert_eq!(result.len(), 1);
    assert_eq!(result[0].role, "tool");
    assert_eq!(result[0].content, "Tool result");
}

#[test]
fn test_extract_ollama_options_with_num_predict() {
    assert_eq!(extract_num_predict(Some(100), 2048), Some(100));
}

#[test]
fn test_extract_ollama_options_zero_num_predict() {
    assert_eq!(extract_num_predict(Some(0), 2048), None);
}

#[test]
fn test_extract_ollama_options_zero_max_tokens() {
    assert_eq!(extract_num_predict(None, 0), None);
}
