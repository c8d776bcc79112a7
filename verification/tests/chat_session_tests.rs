use mojentic::chat_session::{ChatSession, ChatSessionBuilder, SizedLlmMessage};
use mojentic::models::{LlmMessage, MessageRole};

fn session() -> ChatSession {
    ChatSessionBuilder::new().build()
}

#[test]
fn test_new_session_has_system_message() {
    let session = session();

    assert_eq!(session.messages().len(), 1);
    assert_eq!(session.messages()[0].role(), MessageRole::System);
    assert_eq!(session.messages()[0].content(), Some("You are a helpful assistant."));
}

#[test]
fn test_builder_custom_system_prompt() {
    let session = ChatSessionBuilder::new().system_prompt("Custom system prompt".to_string()).build();

    assert_eq!(session.messages().len(), 1);
    assert_eq!(session.messages()[0].content(), Some("Custom system prompt"));
}

#[test]
fn test_insert_message_calculates_token_length() {
    let mut session = session();

    session.insert_message(LlmMessage::user("Hello".to_string()));

    assert_eq!(session.messages().len(), 2);
    assert!(session.messages()[1].token_length > 0);
}

#[test]
fn test_context_window_trimming() {
    let mut session = ChatSessionBuilder::new().max_context(50).build();

    for i in 0..10 {
        session.insert_message(LlmMessage::user(format!(
            "This is a longer message number {} with more content to increase token count",
            i
        )));
    }

    assert!(session.messages().len() < 11);
    assert_eq!(session.messages()[0].role(), MessageRole::System);
    assert!(session.total_tokens() <= 50);
}

#[test]
fn test_context_window_preserves_system_prompt() {
    let mut session = ChatSessionBuilder::new()
        .system_prompt("Important system prompt".to_string())
        .max_context(50)
        .build();

    for i in 0..20 {
        session.insert_message(LlmMessage::user(format!("Message {}", i)));
    }

    assert_eq!(session.messages()[0].role(), MessageRole::System);
    assert_eq!(session.messages()[0].content(), Some("Important system prompt"));
}

#[test]
fn test_total_tokens() {
    let mut session = session();

    let initial_tokens = session.total_tokens();
    assert!(initial_tokens > 0);

    session.insert_message(LlmMessage::user("Hello".to_string()));

    assert!(session.total_tokens() > initial_tokens);
}

#[test]
fn test_messages_accessor() {
    let mut session = session();

    session.insert_message(LlmMessage::user("Test".to_string()));

    let messages = session.messages();
    assert_eq!(messages.len(), 2);
    assert_eq!(messages[0].role(), MessageRole::System);
    assert_eq!(messages[1].role(), MessageRole::User);
}

#[test]
fn test_sized_message_creation() {
    let message = LlmMessage::user("Test content".to_string());
    let sized = SizedLlmMessage::new(message, 5);

    assert_eq!(sized.token_length, 5);
    assert_eq!(sized.role(), MessageRole::User);
    assert_eq!(sized.content(), Some("Test content"));
}

#[test]
fn test_message_with_no_content_has_zero_tokens() {
    let mut session = session();

    let message = LlmMessage { role: MessageRole::Assistant, content: None, tool_calls: None, image_paths: None };

    session.insert_message(message);

    assert_eq!(session.messages().len(), 2);
    assert_eq!(session.messages()[1].token_length, 0);
}

#[test]
fn trimming_keeps_the_newest_message_whole() {
    let mut session = ChatSessionBuilder::new().max_context(40).build();
    for i in 0..5 {
        session.insert_message(LlmMessage::user(format!("turn {}", i)));
    }
    let last = session.messages().last().unwrap();
    assert_eq!(last.content(), Some("turn 4"));
    assert!(session.total_tokens() <= 40 || session.messages().len() == 1);
}
