use mojentic::stream_events::{
    OllamaEventParser, OpenAiEventParser, ResponseEvidence, StreamEvent, StreamEventDriver, StreamEventError,
};
use serde_json::Value;

fn json(text: &str) -> Value {
    serde_json::from_str(text).unwrap()
}

fn meta(evidence: &ResponseEvidence, key: &str) -> Option<Value> {
    evidence.metadata.iter().rev().find(|(k, _)| k == key).map(|(_, v)| json(v))
}

fn parse_openai(lines: &[&str]) -> Vec<StreamEvent> {
    let mut parser = OpenAiEventParser::new();
    lines.iter().flat_map(|line| parser.parse_line(line)).collect()
}

fn parse_ollama(lines: &[&str]) -> Vec<StreamEvent> {
    let mut parser = OllamaEventParser::new();
    lines.iter().flat_map(|line| parser.parse_line(line)).collect()
}

const USAGE: &str = r#"{"prompt_tokens":5,"completion_tokens":2,"total_tokens":7}"#;

#[test]
fn content_then_stop_then_done_completes_with_evidence() {
    let usage_chunk = format!(r#"data: {{"id":"c1","model":"gpt-4o-2024","choices":[],"usage":{USAGE}}}"#);
    let events = parse_openai(&[
        r#"data: {"id":"c1","model":"gpt-4o-2024","choices":[{"delta":{"role":"assistant","content":""}}]}"#,
        "",
        r#"data: {"id":"c1","model":"gpt-4o-2024","choices":[{"delta":{"content":"Hel"}}]}"#,
        r#"data: {"id":"c1","model":"gpt-4o-2024","choices":[{"delta":{"content":"lo"}}]}"#,
        r#"data: {"id":"c1","model":"gpt-4o-2024","choices":[{"delta":{},"finish_reason":"stop"}]}"#,
        &usage_chunk,
        "data: [DONE]",
    ]);

    assert!(matches!(&events[0], StreamEvent::Content(text) if text == "Hel"));
    assert!(matches!(&events[1], StreamEvent::Content(text) if text == "lo"));
    let [_, _, StreamEvent::Completed(evidence)] = events.as_slice() else {
        panic!("expected two content events then completed, got {events:?}");
    };
    assert_eq!(evidence.finish_reason.as_deref(), Some("stop"));
    assert_eq!(evidence.provider_model.as_deref(), Some("gpt-4o-2024"));
    assert_eq!(evidence.usage.as_deref().map(json), Some(json(USAGE)));
    assert_eq!(meta(evidence, "id"), Some(Value::from("c1")));
}

#[test]
fn done_after_length_is_incomplete_completion_with_evidence() {
    let usage_chunk = format!(r#"data: {{"choices":[],"usage":{USAGE}}}"#);
    let events = parse_openai(&[
        r#"data: {"model":"gpt-4o","choices":[{"delta":{"content":"Partial"}}]}"#,
        r#"data: {"model":"gpt-4o","choices":[{"delta":{},"finish_reason":"length"}]}"#,
        &usage_chunk,
        "data: [DONE]",
    ]);

    let [StreamEvent::Content(_), StreamEvent::Error(StreamEventError::IncompleteCompletion(evidence))] =
        events.as_slice()
    else {
        panic!("expected content then incomplete completion, got {events:?}");
    };
    assert_eq!(evidence.finish_reason.as_deref(), Some("length"));
    assert_eq!(evidence.usage.as_deref().map(json), Some(json(USAGE)));
    assert_eq!(evidence.provider_model.as_deref(), Some("gpt-4o"));
}

#[test]
fn done_without_finish_reason_is_incomplete_completion() {
    let events = parse_openai(&["data: [DONE]"]);

    assert!(matches!(
        events.as_slice(),
        [StreamEvent::Error(StreamEventError::IncompleteCompletion(evidence))]
            if evidence.finish_reason.is_none()
    ));
}

#[test]
fn tool_call_delta_is_unexpected() {
    let events = parse_openai(&[
        r#"data: {"choices":[{"delta":{"tool_calls":[{"index":0,"id":"call_1","function":{"name":"f","arguments":""}}]}}]}"#,
    ]);

    assert!(matches!(events.as_slice(), [StreamEvent::Error(StreamEventError::UnexpectedToolCalls)]));
}

#[test]
fn openai_stream_events_error_frame_is_provider_error() {
    let events = parse_openai(&[r#"data: {"error":{"message":"overloaded","type":"server_error"}}"#]);

    assert!(matches!(
        events.as_slice(),
        [StreamEvent::Error(StreamEventError::ProviderError { status: None, error })]
            if json(error)["message"] == "overloaded"
    ));
}

#[test]
fn openai_stream_events_malformed_frames_are_invalid_stream_events() {
    for line in [
        "data: {not json",
        r#"data: {"object":"chat.completion.chunk"}"#,
        r#"data: {"choices":[{"delta":{"content":42}}]}"#,
        r#"data: {"choices":[{"delta":"text"}]}"#,
        r#"data: {"choices":[{"delta":{}},{"delta":{}}]}"#,
    ] {
        let events = parse_openai(&[line]);
        assert!(
            matches!(events.as_slice(), [StreamEvent::Error(StreamEventError::InvalidStreamEvent(_))]),
            "{line} gave {events:?}"
        );
    }
}

#[test]
fn partial_evidence_holds_what_arrived_before_the_end() {
    let mut parser = OpenAiEventParser::new();
    assert_eq!(parser.partial_evidence(), None);

    parser.parse_line(r#"data: {"model":"gpt-4o-x","choices":[{"delta":{"content":"Hi"}}]}"#);

    let evidence = parser.partial_evidence().expect("model arrived");
    assert_eq!(evidence.provider_model.as_deref(), Some("gpt-4o-x"));
    assert_eq!(evidence.usage, None);
}

#[test]
fn comments_and_other_fields_are_ignored() {
    assert!(parse_openai(&[": keep-alive", "event: message", "id: 3", ""]).is_empty());
}

const FINAL_STOP: &str = r#"{"model":"qwen3:32b","created_at":"2026-09-24T10:00:00Z","message":{"role":"assistant","content":""},"done":true,"done_reason":"stop","total_duration":900,"load_duration":100,"prompt_eval_count":12,"prompt_eval_duration":200,"eval_count":34,"eval_duration":600}"#;

#[test]
fn content_then_done_with_stop_completes_with_evidence() {
    let events = parse_ollama(&[
        r#"{"model":"qwen3:32b","message":{"role":"assistant","thinking":"hmm","content":""},"done":false}"#,
        r#"{"model":"qwen3:32b","message":{"role":"assistant","content":"Hel"},"done":false}"#,
        r#"{"model":"qwen3:32b","message":{"role":"assistant","content":"lo"},"done":false}"#,
        FINAL_STOP,
    ]);

    let [StreamEvent::Content(first), StreamEvent::Content(second), StreamEvent::Completed(evidence)] =
        events.as_slice()
    else {
        panic!("expected two content events then completed, got {events:?}");
    };
    assert_eq!((first.as_str(), second.as_str()), ("Hel", "lo"));
    assert_eq!(evidence.finish_reason.as_deref(), Some("stop"));
    assert_eq!(evidence.provider_model.as_deref(), Some("qwen3:32b"));
    assert_eq!(evidence.usage.as_deref().map(json), Some(json(r#"{"prompt_eval_count": 12, "eval_count": 34}"#)));
    assert_eq!(meta(evidence, "total_duration"), Some(Value::from(900)));
    assert_eq!(meta(evidence, "load_duration"), Some(Value::from(100)));
    assert_eq!(meta(evidence, "prompt_eval_duration"), Some(Value::from(200)));
    assert_eq!(meta(evidence, "eval_duration"), Some(Value::from(600)));
}

#[test]
fn content_in_the_final_frame_precedes_the_terminal_event() {
    let events = parse_ollama(&[r#"{"message":{"content":"tail"},"done":true,"done_reason":"stop"}"#]);

    assert!(matches!(
        events.as_slice(),
        [StreamEvent::Content(text), StreamEvent::Completed(_)] if text == "tail"
    ));
}

#[test]
fn done_with_length_is_incomplete_completion_with_evidence() {
    let events = parse_ollama(&[
        r#"{"message":{"content":"Partial"},"done":false}"#,
        r#"{"model":"qwen3:32b","done":true,"done_reason":"length","prompt_eval_count":3,"eval_count":4}"#,
    ]);

    let [StreamEvent::Content(_), StreamEvent::Error(StreamEventError::IncompleteCompletion(evidence))] =
        events.as_slice()
    else {
        panic!("expected content then incomplete completion, got {events:?}");
    };
    assert_eq!(evidence.finish_reason.as_deref(), Some("length"));
    assert_eq!(evidence.usage.as_deref().map(json), Some(json(r#"{"prompt_eval_count": 3, "eval_count": 4}"#)));
}

#[test]
fn done_without_reason_is_incomplete_completion() {
    let events = parse_ollama(&[r#"{"done":true}"#]);

    assert!(matches!(
        events.as_slice(),
        [StreamEvent::Error(StreamEventError::IncompleteCompletion(evidence))]
            if evidence.finish_reason.is_none()
    ));
}

#[test]
fn tool_call_frame_is_unexpected() {
    let events = parse_ollama(&[
        r#"{"message":{"role":"assistant","content":"","tool_calls":[{"function":{"name":"f","arguments":{}}}]},"done":false}"#,
    ]);

    assert!(matches!(events.as_slice(), [StreamEvent::Error(StreamEventError::UnexpectedToolCalls)]));
}

#[test]
fn ollama_stream_events_error_frame_is_provider_error() {
    let events = parse_ollama(&[r#"{"error":"model 'nope' not found"}"#]);

    assert!(matches!(
        events.as_slice(),
        [StreamEvent::Error(StreamEventError::ProviderError { status: None, error })]
            if json(error) == "model 'nope' not found"
    ));
}

#[test]
fn partial_evidence_holds_the_model_seen_before_the_end() {
    let mut parser = OllamaEventParser::new();
    assert_eq!(parser.partial_evidence(), None);

    parser.parse_line(r#"{"model":"qwen3:32b","message":{"content":"Hi"},"done":false}"#);

    let evidence = parser.partial_evidence().expect("model arrived");
    assert_eq!(evidence.provider_model.as_deref(), Some("qwen3:32b"));
}

#[test]
fn ollama_stream_events_malformed_frames_are_invalid_stream_events() {
    for line in ["{not json", "[1,2]", r#"{"message":{"content":7},"done":false}"#] {
        let events = parse_ollama(&[line]);
        assert!(
            matches!(events.as_slice(), [StreamEvent::Error(StreamEventError::InvalidStreamEvent(_))]),
            "{line} gave {events:?}"
        );
    }
}

#[test]
fn only_content_is_non_terminal() {
    assert!(!StreamEvent::Content("x".into()).is_terminal());
    assert!(StreamEvent::Completed(ResponseEvidence::default()).is_terminal());
    assert!(StreamEvent::Error(StreamEventError::IncompleteStream(None)).is_terminal());
}

#[test]
fn http_provider_error_keeps_status_and_error_field() {
    let error = StreamEventError::provider_status(429, r#"{"error":{"message":"slow"}}"#);

    assert!(matches!(
        &error,
        StreamEventError::ProviderError { status: Some(429), error } if json(error)["message"] == "slow"
    ));
    assert!(error.message().starts_with("provider error (HTTP 429)"));
}

#[test]
fn http_provider_error_keeps_a_non_json_body_as_text() {
    let error = StreamEventError::provider_status(502, "Bad Gateway");

    assert!(matches!(
        error,
        StreamEventError::ProviderError { status: Some(502), error } if json(&error) == "Bad Gateway"
    ));
}

#[test]
fn incomplete_completion_names_its_finish_reason() {
    let error = StreamEventError::IncompleteCompletion(Box::new(ResponseEvidence {
        finish_reason: Some("length".into()),
        ..Default::default()
    }));

    assert_eq!(error.message(), "incomplete completion (finish reason: length)");
}

#[test]
fn driver_stops_after_the_terminal_event() {
    let mut driver = StreamEventDriver::openai();
    let mut events = Vec::new();
    for line in [
        r#"data: {"choices":[{"delta":{"content":"Hi"},"finish_reason":"stop"}]}"#,
        "data: [DONE]",
        r#"data: {"choices":[{"delta":{"content":"late"}}]}"#,
    ] {
        events.extend(driver.push_line(line.as_bytes()));
    }
    events.extend(driver.finish());

    assert!(driver.is_done());
    assert_eq!(events.len(), 2);
    assert!(matches!(&events[0], StreamEvent::Content(text) if text == "Hi"));
    assert!(matches!(&events[1], StreamEvent::Completed(_)));
}

#[test]
fn driver_ends_a_cut_stream_as_incomplete_with_its_evidence() {
    let mut driver = StreamEventDriver::ollama();
    let first = driver.push_line(br#"{"model":"qwen3:32b","message":{"content":"Hi"},"done":false}"#);
    let last = driver.finish();

    assert!(matches!(first.as_slice(), [StreamEvent::Content(text)] if text == "Hi"));
    assert!(matches!(
        last.as_slice(),
        [StreamEvent::Error(StreamEventError::IncompleteStream(Some(evidence)))]
            if evidence.provider_model.as_deref() == Some("qwen3:32b")
    ));
    assert!(driver.finish().is_empty());
}

#[test]
fn driver_reports_an_empty_cut_stream_without_evidence() {
    let mut driver = StreamEventDriver::openai();
    let last = driver.finish();

    assert!(matches!(last.as_slice(), [StreamEvent::Error(StreamEventError::IncompleteStream(None))]));
}

#[test]
fn driver_strips_carriage_returns_and_rejects_invalid_utf8() {
    let mut driver = StreamEventDriver::openai();
    let content = driver.push_line(b"data: {\"choices\":[{\"delta\":{\"content\":\"A\"}}]}\r");
    assert!(matches!(content.as_slice(), [StreamEvent::Content(text)] if text == "A"));

    let invalid = driver.push_line(&[0x64, 0xff, 0xfe]);
    assert!(matches!(
        invalid.as_slice(),
        [StreamEvent::Error(StreamEventError::InvalidStreamEvent(reason))] if reason == "frame is not valid UTF-8"
    ));
    assert!(driver.is_done());
}

#[test]
fn driver_turns_http_and_transport_failures_into_one_terminal_error() {
    let mut refused = StreamEventDriver::openai();
    let events = refused.http_error(500, r#"{"error":"boom"}"#);
    assert!(matches!(
        events.as_slice(),
        [StreamEvent::Error(StreamEventError::ProviderError { status: Some(500), error })] if json(error) == "boom"
    ));
    assert!(refused.request_failed("late".to_string()).is_empty());

    let mut broken = StreamEventDriver::ollama();
    let events = broken.request_failed("connection reset".to_string());
    assert!(matches!(
        events.as_slice(),
        [StreamEvent::Error(StreamEventError::RequestFailed(message))] if message == "connection reset"
    ));
    assert_eq!(
        StreamEventError::RequestFailed("connection reset".to_string()).message(),
        "stream request failed: connection reset"
    );
}

#[test]
fn provider_status_keeps_a_json_body_without_error_field() {
    let error = StreamEventError::provider_status(400, r#"{"detail":"bad"}"#);
    assert!(matches!(
        &error,
        StreamEventError::ProviderError { status: Some(400), error } if json(error)["detail"] == "bad"
    ));
    assert_eq!(error.message(), r#"provider error (HTTP 400): {"detail":"bad"}"#);
}
