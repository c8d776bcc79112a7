use mojentic::realtime_config::{
    audio_format_rate, audio_format_type, build_session_update, defaults, interrupt_policy, tool_choice_mode,
    InputAudioTranscriptionConfig, InterruptOutputPolicy, RealtimeAudioFormat, RealtimeModality,
    RealtimeToolChoice, SemanticVadConfig, SessionConfig, TranscriptionSetting,
};

fn empty_config() -> SessionConfig {
    SessionConfig {
        instructions: None,
        voice: None,
        modalities: None,
        input_audio_format: None,
        output_audio_format: None,
        input_audio_transcription: None,
        disable_input_audio_transcription: false,
        tool_choice: None,
        max_response_output_tokens: None,
    }
}

#[test]
fn build_session_update_text_only() {
    let cfg = SessionConfig {
        modalities: Some(vec![RealtimeModality::Text]),
        instructions: Some("be brief".to_string()),
        ..empty_config()
    };
    let payload = build_session_update(cfg);
    assert_eq!(payload.output_modality, RealtimeModality::Text);
    assert_eq!(payload.instructions, Some("be brief".to_string()));
}

#[test]
fn build_session_update_includes_voice() {
    let cfg = SessionConfig { voice: Some("verse".to_string()), ..empty_config() };
    let payload = build_session_update(cfg);
    assert_eq!(payload.voice, Some("verse".to_string()));
    assert_eq!(payload.output_modality, RealtimeModality::Audio);
}

#[test]
fn session_update_defaults_and_transcription() {
    let payload = build_session_update(empty_config());
    assert_eq!(payload.input_format, RealtimeAudioFormat::Pcm16);
    assert_eq!(payload.output_format, RealtimeAudioFormat::Pcm16);
    assert!(matches!(payload.tool_choice, RealtimeToolChoice::Auto));
    assert!(matches!(payload.transcription, TranscriptionSetting::Unset));
    let cfg = SessionConfig {
        input_audio_transcription: Some(InputAudioTranscriptionConfig::default()),
        ..empty_config()
    };
    match build_session_update(cfg).transcription {
        TranscriptionSetting::Model(m) => assert_eq!(m, "whisper-1"),
        _ => panic!("expected a model"),
    }
    let cfg = SessionConfig {
        input_audio_transcription: Some(InputAudioTranscriptionConfig::default()),
        disable_input_audio_transcription: true,
        ..empty_config()
    };
    assert!(matches!(build_session_update(cfg).transcription, TranscriptionSetting::Off));
}

#[test]
fn wire_words() {
    assert_eq!(audio_format_type(RealtimeAudioFormat::Pcm16), "audio/pcm");
    assert_eq!(audio_format_type(RealtimeAudioFormat::G711Ulaw), "audio/pcmu");
    assert_eq!(audio_format_type(RealtimeAudioFormat::G711Alaw), "audio/pcma");
    assert_eq!(audio_format_rate(RealtimeAudioFormat::Pcm16), Some(24000));
    assert_eq!(audio_format_rate(RealtimeAudioFormat::G711Alaw), None);
    assert_eq!(tool_choice_mode(&RealtimeToolChoice::NoTools), Some("none".to_string()));
    assert_eq!(tool_choice_mode(&RealtimeToolChoice::Required), Some("required".to_string()));
    assert_eq!(tool_choice_mode(&RealtimeToolChoice::Function("f".to_string())), None);
}

#[test]
fn defaults_are_documented_values() {
    let d = defaults();
    assert_eq!(d.modalities, vec![RealtimeModality::Audio, RealtimeModality::Text]);
    assert_eq!(d.on_interrupt, InterruptOutputPolicy::Drop);
    assert_eq!(interrupt_policy(None), InterruptOutputPolicy::Drop);
    assert_eq!(interrupt_policy(Some(InterruptOutputPolicy::Submit)), InterruptOutputPolicy::Submit);
    let v = SemanticVadConfig::default();
    assert!(v.eagerness.is_none() && v.create_response.is_none() && v.interrupt_response.is_none());
}
