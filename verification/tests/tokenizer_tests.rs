use mojentic::tokenizer::TokenizerGateway;

#[test]
fn test_encode_basic() {
    let tokenizer = TokenizerGateway::default();
    let text = "Hello, world!";
    let tokens = tokenizer.encode(text);

    assert!(!tokens.is_empty());
    // Tokens are valid usize values (some tokens can be 0, like BOS/EOS)
    assert!(!tokens.is_empty());
}

#[test]
fn test_encode_empty() {
    let tokenizer = TokenizerGateway::default();
    let tokens = tokenizer.encode("");
    assert_eq!(tokens.len(), 0);
}

#[test]
fn test_encode_consistent() {
    let tokenizer = TokenizerGateway::default();
    let text = "The quick brown fox";
    let tokens1 = tokenizer.encode(text);
    let tokens2 = tokenizer.encode(text);

    assert_eq!(tokens1, tokens2);
}

#[test]
fn test_decode_basic() {
    let tokenizer = TokenizerGateway::default();
    let original = "Hello, world!";
    let tokens = tokenizer.encode(original);
    let decoded = tokenizer.decode(&tokens);

    assert_eq!(original, decoded);
}

#[test]
fn test_decode_empty() {
    let tokenizer = TokenizerGateway::default();
    let text = tokenizer.decode(&[]);
    assert_eq!(text, "");
}

#[test]
fn test_round_trip() {
    let tokenizer = TokenizerGateway::default();
    let test_cases = vec![
        "Simple text",
        "Text with numbers: 123456",
        "Special characters: !@#$%^&*()",
        "Multi-line\ntext\nwith\nnewlines",
        "Unicode: 你好世界 🌍",
    ];

    for original in test_cases {
        let tokens = tokenizer.encode(original);
        let decoded = tokenizer.decode(&tokens);
        assert_eq!(original, decoded, "Round-trip failed for: {}", original);
    }
}

#[test]
fn test_different_encodings() {
    // cl100k_base is the default and most common
    let tokenizer_cl100k = TokenizerGateway::default();

    // p50k_base for older models
    let tokenizer_p50k = TokenizerGateway::new("p50k_base").unwrap();

    let text = "Hello, world!";
    let tokens_cl100k = tokenizer_cl100k.encode(text);
    let tokens_p50k = tokenizer_p50k.encode(text);

    // Both should work
    assert!(!tokens_cl100k.is_empty());
    assert!(!tokens_p50k.is_empty());

    // Both should decode correctly
    assert_eq!(tokenizer_cl100k.decode(&tokens_cl100k), text);
    assert_eq!(tokenizer_p50k.decode(&tokens_p50k), text);
}

#[test]
fn test_count_tokens() {
    let tokenizer = TokenizerGateway::default();
    let text = "What is the capital of France?";
    let count = tokenizer.count_tokens(text);

    // This specific message should be around 7-8 tokens with cl100k_base
    assert!(count > 5);
    assert!(count < 15);
}

#[test]
fn test_count_tokens_matches_encode() {
    let tokenizer = TokenizerGateway::default();
    let text = "The quick brown fox jumps over the lazy dog.";

    let tokens = tokenizer.encode(text);
    let count = tokenizer.count_tokens(text);

    assert_eq!(tokens.len(), count);
}

#[test]
fn test_long_text() {
    let tokenizer = TokenizerGateway::default();
    let long_text = "word ".repeat(1000);
    let tokens = tokenizer.encode(&long_text);

    assert!(tokens.len() > 1000);

    let decoded = tokenizer.decode(&tokens);
    assert_eq!(long_text, decoded);
}

#[test]
fn test_unicode_handling() {
    let tokenizer = TokenizerGateway::default();
    let unicode_text = "Hello 世界! 🌍 Special chars: @#$%";
    let tokens = tokenizer.encode(unicode_text);
    let decoded = tokenizer.decode(&tokens);

    assert_eq!(unicode_text, decoded);
    assert!(!tokens.is_empty());
}
