use mojentic::broker::StreamChunk;
use mojentic::stream_assembly::{CallAccumulator, OllamaStreamAssembler, OpenAIStreamAssembler};

fn texts(chunks: &[StreamChunk]) -> Vec<String> {
    chunks
        .iter()
        .filter_map(|c| match c {
            StreamChunk::Content(s) => Some(s.clone()),
            _ => None,
        })
        .collect()
}

#[test]
fn test_build_complete_tool_calls() {
    let a = OpenAIStreamAssembler {
        accumulators: vec![
            CallAccumulator {
                index: 0,
                id: Some("call_123".to_string()),
                name: Some("get_weather".to_string()),
                arguments: r#"{"location": "NYC"}"#.to_string(),
            },
            CallAccumulator {
                index: 1,
                id: Some("call_456".to_string()),
                name: Some("search".to_string()),
                arguments: r#"{"query": "test"}"#.to_string(),
            },
        ],
    };
    let result = a.build_complete_tool_calls();
    assert_eq!(result.len(), 2);
    assert_eq!(result[0].id, Some("call_123".to_string()));
    assert_eq!(result[0].name, "get_weather");
    assert_eq!(result[1].id, Some("call_456".to_string()));
    assert_eq!(result[1].name, "search");
}

#[test]
fn test_build_complete_tool_calls_missing_name() {
    let a = OpenAIStreamAssembler {
        accumulators: vec![CallAccumulator { index: 0, id: Some("call_123".to_string()), name: None, arguments: "{}".to_string() }],
    };
    assert!(a.build_complete_tool_calls().is_empty());
}

#[test]
fn openai_stream_text_and_fragments() {
    let mut a = OpenAIStreamAssembler::new();
    assert!(a.process_line(": keep-alive").is_empty());
    let c = a.process_line(r#"data: {"choices":[{"delta":{"content":"Hel"}}]}"#);
    assert_eq!(texts(&c), vec!["Hel"]);
    a.process_line(r#"data: {"choices":[{"delta":{"tool_calls":[{"index":1,"id":"b","function":{"name":"second","arguments":"{}"}}]}}]}"#);
    a.process_line(r#"data: {"choices":[{"delta":{"tool_calls":[{"index":0,"id":"a","function":{"name":"first","arguments":"{\"x\":"}}]}}]}"#);
    a.process_line(r#"data: {"choices":[{"delta":{"tool_calls":[{"index":0,"function":{"arguments":"1}"}}]}}]}"#);
    let c = a.process_line(r#"  data: {"choices":[{"delta":{},"finish_reason":"tool_calls"}]}  "#);
    assert_eq!(c.len(), 1);
    match &c[0] {
        StreamChunk::ToolCalls(calls) => {
            assert_eq!(calls.len(), 2);
            assert_eq!(calls[0].name, "first");
            assert_eq!(calls[0].arguments, "{\"x\":1}");
            assert_eq!(calls[1].id.as_deref(), Some("b"));
        }
        _ => panic!(),
    }
    assert!(a.accumulators.is_empty());
    assert!(a.process_line("data: [DONE]").is_empty());
    assert!(a.process_line("data: not json").is_empty());
}

#[test]
fn openai_done_flushes_without_clearing() {
    let mut a = OpenAIStreamAssembler::new();
    a.process_line(r#"data: {"choices":[{"delta":{"tool_calls":[{"index":0,"function":{"name":"f","arguments":"oops"}}]}}]}"#);
    let c = a.process_line("data: [DONE]");
    match &c[0] {
        StreamChunk::ToolCalls(calls) => assert_eq!(calls[0].arguments, "{}"),
        _ => panic!(),
    }
    assert_eq!(a.accumulators.len(), 1);
}

#[test]
fn ollama_stream_lines() {
    let mut a = OllamaStreamAssembler::new();
    assert!(a.process_line("   ").is_empty());
    let c = a.process_line(r#"{"message":{"content":"Hi"},"done":false}"#);
    assert_eq!(texts(&c), vec!["Hi"]);
    let c = a.process_line(r#"{"message":{"content":"","tool_calls":[{"function":{"name":"t","arguments":{"a":1}}},{"function":{"name":"bad","arguments":"x"}}]},"done":false}"#);
    assert!(c.is_empty());
    assert_eq!(a.calls.len(), 1);
    let c = a.process_line(r#"{"done":true}"#);
    match &c[0] {
        StreamChunk::ToolCalls(calls) => {
            assert_eq!(calls[0].name, "t");
            assert_eq!(calls[0].arguments, "{\"a\":1}");
        }
        _ => panic!(),
    }
}

use mojentic::stream_assembly::{convert_tool_calls, ToolCallFields};

#[test]
fn test_convert_tool_calls() {
    let calls = vec![ToolCallFields {
        id: Some("call_abc".to_string()),
        name: Some("search".to_string()),
        arguments: Some("{\"query\": \"test\"}".to_string()),
    }];
    let result = convert_tool_calls(calls);
    assert_eq!(result.len(), 1);
    assert_eq!(result[0].id, Some("call_abc".to_string()));
    assert_eq!(result[0].name, "search");
    let args: std::collections::HashMap<String, serde_json::Value> = serde_json::from_str(&result[0].arguments).unwrap();
    assert_eq!(args.get("query"), Some(&serde_json::Value::String("test".to_string())));
}

#[test]
fn test_convert_tool_calls_empty_args() {
    let calls = vec![ToolCallFields {
        id: Some("call_xyz".to_string()),
        name: Some("no_args_tool".to_string()),
        arguments: Some("{}".to_string()),
    }];
    let result = convert_tool_calls(calls);
    assert_eq!(result.len(), 1);
    assert_eq!(result[0].name, "no_args_tool");
    let args: std::collections::HashMap<String, serde_json::Value> = serde_json::from_str(&result[0].arguments).unwrap();
    assert!(args.is_empty());
}

#[test]
fn convert_drops_nameless_and_bad_arguments() {
    let calls = vec![
        ToolCallFields { id: None, name: None, arguments: None },
        ToolCallFields { id: None, name: Some("f".to_string()), arguments: Some("[1,2]".to_string()) },
        ToolCallFields { id: None, name: Some("g".to_string()), arguments: None },
    ];
    let result = convert_tool_calls(calls);
    assert_eq!(result.len(), 2);
    assert_eq!(result[0].arguments, "{}");
    assert_eq!(result[1].arguments, "{}");
}
