use mojentic::models::{default_role, LlmMessage, MessageRole};

#[test]
fn test_user_message() {
    let msg = LlmMessage::user("Hello".to_string());
    assert_eq!(msg.role, MessageRole::User);
    assert_eq!(msg.content, Some("Hello".to_string()));
    assert!(msg.tool_calls.is_none());
    assert!(msg.image_paths.is_none());
}

#[test]
fn test_system_message() {
    let msg = LlmMessage::system("You are a helpful assistant".to_string());
    assert_eq!(msg.role, MessageRole::System);
    assert_eq!(msg.content, Some("You are a helpful assistant".to_string()));
    assert!(msg.tool_calls.is_none());
    assert!(msg.image_paths.is_none());
}

#[test]
fn test_assistant_message() {
    let msg = LlmMessage::assistant("I can help with that".to_string());
    assert_eq!(msg.role, MessageRole::Assistant);
    assert_eq!(msg.content, Some("I can help with that".to_string()));
    assert!(msg.tool_calls.is_none());
    assert!(msg.image_paths.is_none());
}

#[test]
fn test_message_with_images() {
    let msg = LlmMessage::user("Describe this image".to_string())
        .with_images(vec!["/path/to/image.jpg".to_string()]);
    assert_eq!(msg.role, MessageRole::User);
    assert_eq!(msg.content, Some("Describe this image".to_string()));
    assert_eq!(msg.image_paths, Some(vec!["/path/to/image.jpg".to_string()]));
}

#[test]
fn test_llm_message_default_role() {
    assert_eq!(default_role(), MessageRole::User);
}
