use mojentic::realtime_gateway::{required_fields_for, OpenAIRealtimeGateway, OpenAIRealtimeGatewayOptions, TransportError};

#[test]
fn gateway_needs_a_key() {
    let r = OpenAIRealtimeGateway::new(OpenAIRealtimeGatewayOptions::default(), None);
    assert_eq!(r.err(), Some("OpenAIRealtimeGateway requires api_key or OPENAI_API_KEY env var"));
    let g = OpenAIRealtimeGateway::new(OpenAIRealtimeGatewayOptions::default(), Some("k".to_string())).ok().unwrap();
    assert_eq!(g.base_url(), "wss://api.openai.com/v1/realtime");
    let h = g.connection_headers(Some("cid".to_string()));
    assert_eq!(h.len(), 3);
    assert_eq!(h[0], ("authorization".to_string(), "Bearer k".to_string()));
    assert_eq!(h[1], ("openai-beta".to_string(), "realtime=v1".to_string()));
    assert_eq!(h[2], ("x-correlation-id".to_string(), "cid".to_string()));
}

#[test]
fn required_fields_table() {
    assert_eq!(required_fields_for("session.created"), Some(vec![vec!["session".to_string(), "id".to_string()]]));
    assert_eq!(required_fields_for("input_audio_buffer.speech_started"), Some(vec![]));
    assert_eq!(
        required_fields_for("response.function_call_arguments.done").map(|v| v.len()),
        Some(4)
    );
    assert_eq!(required_fields_for("session.something_new"), None);
}

#[test]
fn transport_error_message() {
    assert_eq!(TransportError("closed".to_string()).message(), "closed");
}
