use mojentic::model_registry::{ModelCapabilities, ModelType, OpenAIModelRegistry};

#[test]
fn test_model_capabilities_default() {
    let caps = ModelCapabilities::default();
    assert_eq!(caps.model_type, ModelType::Chat);
    assert!(caps.supports_tools);
    assert!(caps.supports_streaming);
    assert!(!caps.supports_vision);
}

#[test]
fn test_get_token_limit_param_reasoning() {
    let caps = ModelCapabilities {
        model_type: ModelType::Reasoning,
        ..Default::default()
    };
    assert_eq!(caps.get_token_limit_param(), "max_completion_tokens");
}

#[test]
fn test_get_token_limit_param_chat() {
    let caps = ModelCapabilities {
        model_type: ModelType::Chat,
        ..Default::default()
    };
    assert_eq!(caps.get_token_limit_param(), "max_tokens");
}

#[test]
fn test_supports_temperature_unrestricted() {
    let caps = ModelCapabilities {
        supported_temperatures: None,
        ..Default::default()
    };
    assert!(caps.supports_temperature(50));
    assert!(caps.supports_temperature(100));
    assert!(caps.supports_temperature(0));
}

#[test]
fn test_supports_temperature_restricted() {
    let caps = ModelCapabilities {
        supported_temperatures: Some(vec![100]),
        ..Default::default()
    };
    assert!(caps.supports_temperature(100));
    assert!(!caps.supports_temperature(50));
}

#[test]
fn test_supports_temperature_none_allowed() {
    let caps = ModelCapabilities {
        supported_temperatures: Some(vec![]),
        ..Default::default()
    };
    assert!(!caps.supports_temperature(100));
    assert!(!caps.supports_temperature(50));
}

#[test]
fn test_registry_new() {
    let registry = OpenAIModelRegistry::new();
    assert!(!registry.get_registered_models().is_empty());
    assert_eq!(registry.get_model_capabilities("my-o3-variant").model_type, ModelType::Reasoning);
}

#[test]
fn test_get_known_model_capabilities() {
    let registry = OpenAIModelRegistry::new();
    let caps = registry.get_model_capabilities("gpt-4");
    assert_eq!(caps.model_type, ModelType::Chat);
    assert!(caps.supports_tools);
}

#[test]
fn test_get_reasoning_model_capabilities() {
    let registry = OpenAIModelRegistry::new();
    let caps = registry.get_model_capabilities("o1");
    assert_eq!(caps.model_type, ModelType::Reasoning);
}

#[test]
fn test_get_unknown_model_pattern_matching() {
    let registry = OpenAIModelRegistry::new();
    let caps = registry.get_model_capabilities("gpt-4-unknown-version");
    assert_eq!(caps.model_type, ModelType::Chat);
}

#[test]
fn test_get_unknown_model_default() {
    let registry = OpenAIModelRegistry::new();
    let caps = registry.get_model_capabilities("completely-unknown-model");
    assert_eq!(caps.model_type, ModelType::Chat);
}

#[test]
fn test_is_reasoning_model() {
    let registry = OpenAIModelRegistry::new();
    assert!(registry.is_reasoning_model("o1"));
    assert!(registry.is_reasoning_model("o3-mini"));
    assert!(!registry.is_reasoning_model("gpt-4"));
}

#[test]
fn test_get_registered_models() {
    let registry = OpenAIModelRegistry::new();
    let models = registry.get_registered_models();
    assert!(models.contains(&"gpt-4".to_string()));
    assert!(models.contains(&"o1".to_string()));
}

#[test]
fn test_register_model() {
    let mut registry = OpenAIModelRegistry::new();
    registry.register_model(
        "custom-model",
        ModelCapabilities {
            model_type: ModelType::Chat,
            supports_tools: false,
            ..Default::default()
        },
    );
    let caps = registry.get_model_capabilities("custom-model");
    assert!(!caps.supports_tools);
}

#[test]
fn test_register_pattern() {
    let mut registry = OpenAIModelRegistry::new();
    registry.register_pattern("custom-pattern", ModelType::Embedding);
    let caps = registry.get_model_capabilities("my-custom-pattern-model");
    assert_eq!(caps.model_type, ModelType::Embedding);
}

#[test]
fn test_global_registry() {
    let registry = OpenAIModelRegistry::default();
    let caps = registry.get_model_capabilities("gpt-4");
    assert_eq!(caps.model_type, ModelType::Chat);
}

#[test]
fn test_embedding_models() {
    let registry = OpenAIModelRegistry::new();
    let caps = registry.get_model_capabilities("text-embedding-3-large");
    assert_eq!(caps.model_type, ModelType::Embedding);
    assert!(!caps.supports_tools);
    assert!(!caps.supports_streaming);
}

#[test]
fn test_gpt35_instruct_no_tools() {
    let registry = OpenAIModelRegistry::new();
    let caps = registry.get_model_capabilities("gpt-3.5-turbo-instruct");
    assert_eq!(caps.model_type, ModelType::Chat);
    assert!(!caps.supports_tools);
    assert!(!caps.supports_streaming);
}

// Tests for audit 2026-02-04 changes

#[test]
fn test_o1_supports_tools_and_streaming() {
    let registry = OpenAIModelRegistry::new();
    let caps = registry.get_model_capabilities("o1");
    assert!(caps.supports_tools);
    assert!(caps.supports_streaming);
    assert_eq!(caps.supported_temperatures, Some(vec![100]));
}

#[test]
fn test_o3_supports_tools_and_streaming_and_temperature() {
    let registry = OpenAIModelRegistry::new();
    let caps = registry.get_model_capabilities("o3");
    assert!(caps.supports_tools);
    assert!(caps.supports_streaming);
    assert_eq!(caps.supported_temperatures, Some(vec![100]));
}

#[test]
fn test_o3_mini_supports_tools_and_streaming() {
    let registry = OpenAIModelRegistry::new();
    let caps = registry.get_model_capabilities("o3-mini");
    assert!(caps.supports_tools);
    assert!(caps.supports_streaming);
    assert_eq!(caps.supported_temperatures, Some(vec![100]));
}

#[test]
fn test_o4_mini_no_tools_but_supports_streaming() {
    let registry = OpenAIModelRegistry::new();
    let caps = registry.get_model_capabilities("o4-mini");
    assert!(!caps.supports_tools);
    assert!(caps.supports_streaming);
}

#[test]
fn test_o4_mini_dated_supports_tools() {
    let registry = OpenAIModelRegistry::new();
    let caps = registry.get_model_capabilities("o4-mini-2025-04-16");
    assert!(caps.supports_tools);
    assert!(caps.supports_streaming);
}

#[test]
fn test_chatgpt_4o_latest_no_tools() {
    let registry = OpenAIModelRegistry::new();
    let caps = registry.get_model_capabilities("chatgpt-4o-latest");
    assert!(!caps.supports_tools);
    assert!(caps.supports_streaming);
}

#[test]
fn test_gpt41_nano_base_no_tools() {
    let registry = OpenAIModelRegistry::new();
    let caps = registry.get_model_capabilities("gpt-4.1-nano");
    assert!(!caps.supports_tools);
}

#[test]
fn test_gpt41_nano_dated_has_tools() {
    let registry = OpenAIModelRegistry::new();
    let caps = registry.get_model_capabilities("gpt-4.1-nano-2025-04-14");
    assert!(caps.supports_tools);
}

#[test]
fn test_audio_preview_no_tools_no_streaming() {
    let registry = OpenAIModelRegistry::new();
    let caps = registry.get_model_capabilities("gpt-4o-audio-preview");
    assert!(!caps.supports_tools);
    assert!(!caps.supports_streaming);
}

#[test]
fn test_search_preview_no_tools_no_temperature() {
    let registry = OpenAIModelRegistry::new();
    let caps = registry.get_model_capabilities("gpt-4o-search-preview");
    assert!(!caps.supports_tools);
    assert!(caps.supports_streaming);
    assert_eq!(caps.supported_temperatures, Some(vec![]));
}

#[test]
fn test_gpt5_chat_latest_is_chat_type() {
    let registry = OpenAIModelRegistry::new();
    let caps = registry.get_model_capabilities("gpt-5-chat-latest");
    assert_eq!(caps.model_type, ModelType::Chat);
    assert!(caps.supports_tools);
    assert_eq!(caps.supported_temperatures, None);
}

#[test]
fn test_gpt5_mini_base_no_tools() {
    let registry = OpenAIModelRegistry::new();
    let caps = registry.get_model_capabilities("gpt-5-mini");
    assert!(!caps.supports_tools);
}

#[test]
fn test_gpt5_mini_dated_has_tools() {
    let registry = OpenAIModelRegistry::new();
    let caps = registry.get_model_capabilities("gpt-5-mini-2025-08-07");
    assert!(caps.supports_tools);
}

#[test]
fn test_gpt5_pro_exists() {
    let registry = OpenAIModelRegistry::new();
    let caps = registry.get_model_capabilities("gpt-5-pro");
    assert_eq!(caps.model_type, ModelType::Reasoning);
    assert!(caps.supports_tools);
}

#[test]
fn test_gpt5_search_api_no_tools_no_temperature() {
    let registry = OpenAIModelRegistry::new();
    let caps = registry.get_model_capabilities("gpt-5-search-api");
    assert_eq!(caps.model_type, ModelType::Chat);
    assert!(!caps.supports_tools);
    assert_eq!(caps.supported_temperatures, Some(vec![]));
}

#[test]
fn test_gpt51_all_temperatures() {
    let registry = OpenAIModelRegistry::new();
    let caps = registry.get_model_capabilities("gpt-5.1");
    assert_eq!(caps.model_type, ModelType::Reasoning);
    assert_eq!(caps.supported_temperatures, None);
}

#[test]
fn test_gpt52_all_temperatures() {
    let registry = OpenAIModelRegistry::new();
    let caps = registry.get_model_capabilities("gpt-5.2");
    assert_eq!(caps.model_type, ModelType::Reasoning);
    assert_eq!(caps.supported_temperatures, None);
}

#[test]
fn test_gpt51_pattern_matching() {
    let registry = OpenAIModelRegistry::new();
    let caps = registry.get_model_capabilities("gpt-5.1-unknown");
    assert_eq!(caps.model_type, ModelType::Reasoning);
}

#[test]
fn test_gpt52_pattern_matching() {
    let registry = OpenAIModelRegistry::new();
    let caps = registry.get_model_capabilities("gpt-5.2-unknown");
    assert_eq!(caps.model_type, ModelType::Reasoning);
}

#[test]
fn test_deprecated_models_removed() {
    let registry = OpenAIModelRegistry::new();
    let models = registry.get_registered_models();

    // Verify removed models are not in registry
    assert!(!models.contains(&"o1-mini".to_string()));
    assert!(!models.contains(&"o1-mini-2024-09-12".to_string()));
    assert!(!models.contains(&"o1-pro".to_string()));
    assert!(!models.contains(&"o3-pro".to_string()));
    assert!(!models.contains(&"o3-deep-research".to_string()));
    assert!(!models.contains(&"o4-mini-deep-research".to_string()));
    assert!(!models.contains(&"gpt-4o-audio-preview-2024-10-01".to_string()));
    assert!(!models.contains(&"gpt-5-codex".to_string()));
}

#[test]
fn test_chat_only_model_endpoint_flags() {
    let registry = OpenAIModelRegistry::new();
    let caps = registry.get_model_capabilities("gpt-4");
    assert!(caps.supports_chat_api);
    assert!(!caps.supports_completions_api);
    assert!(!caps.supports_responses_api);
}

#[test]
fn test_both_endpoint_model_flags() {
    let registry = OpenAIModelRegistry::new();
    let caps = registry.get_model_capabilities("gpt-4o-mini");
    assert!(caps.supports_chat_api);
    assert!(caps.supports_completions_api);
    assert!(!caps.supports_responses_api);
}

#[test]
fn test_completions_only_model_flags() {
    let registry = OpenAIModelRegistry::new();
    let caps = registry.get_model_capabilities("gpt-3.5-turbo-instruct");
    assert!(!caps.supports_chat_api);
    assert!(caps.supports_completions_api);
    assert!(!caps.supports_responses_api);
}

#[test]
fn test_responses_only_model_flags() {
    let registry = OpenAIModelRegistry::new();
    let caps = registry.get_model_capabilities("gpt-5-pro");
    assert!(!caps.supports_chat_api);
    assert!(!caps.supports_completions_api);
    assert!(caps.supports_responses_api);
}

#[test]
fn test_legacy_completions_model_flags() {
    let registry = OpenAIModelRegistry::new();
    let caps = registry.get_model_capabilities("babbage-002");
    assert!(!caps.supports_chat_api);
    assert!(caps.supports_completions_api);
    assert!(!caps.supports_responses_api);
}

#[test]
fn test_embedding_model_endpoint_flags() {
    let registry = OpenAIModelRegistry::new();
    let caps = registry.get_model_capabilities("text-embedding-3-large");
    assert!(!caps.supports_chat_api);
    assert!(!caps.supports_completions_api);
    assert!(!caps.supports_responses_api);
}

#[test]
fn test_codex_mini_latest_responses_only() {
    let registry = OpenAIModelRegistry::new();
    let caps = registry.get_model_capabilities("codex-mini-latest");
    assert!(!caps.supports_chat_api);
    assert!(!caps.supports_completions_api);
    assert!(caps.supports_responses_api);
}

#[test]
fn test_gpt51_both_chat_and_completions() {
    let registry = OpenAIModelRegistry::new();
    let caps = registry.get_model_capabilities("gpt-5.1");
    assert!(caps.supports_chat_api);
    assert!(caps.supports_completions_api);
    assert!(!caps.supports_responses_api);
}

#[test]
fn test_default_capabilities_include_endpoint_flags() {
    let registry = OpenAIModelRegistry::new();
    let caps = registry.get_model_capabilities("completely-unknown-model-xyz");
    assert!(caps.supports_chat_api);
    assert!(!caps.supports_completions_api);
    assert!(!caps.supports_responses_api);
}

#[test]
fn test_reregistered_model_is_listed_once() {
    let mut registry = OpenAIModelRegistry::new();
    let before = registry.get_registered_models().len();
    registry.register_model("gpt-4", ModelCapabilities { supports_tools: false, ..Default::default() });
    registry.register_model("custom-model", ModelCapabilities::default());
    registry.register_model("custom-model", ModelCapabilities { supports_tools: false, ..Default::default() });
    let models = registry.get_registered_models();
    assert_eq!(models.len(), before + 1);
    assert_eq!(models.iter().filter(|m| m.as_str() == "gpt-4").count(), 1);
    assert_eq!(models.iter().filter(|m| m.as_str() == "custom-model").count(), 1);
    assert_eq!(models.last().map(|m| m.as_str()), Some("custom-model"));
    assert!(!registry.get_model_capabilities("gpt-4").supports_tools);
    let mut sorted = models.clone();
    sorted.sort();
    sorted.dedup();
    assert_eq!(sorted.len(), models.len());
}
