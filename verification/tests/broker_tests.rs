use mojentic::broker::{next_generate_step, tool_turn_messages, GenerateStep, StreamAccumulator, StreamChunk};
use mojentic::models::{LlmMessage, LlmToolCall, MessageRole};
use mojentic::error::MojenticError;

fn call(name: &str) -> LlmToolCall {
    LlmToolCall { id: Some(format!("id-{}", name)), name: name.to_string(), arguments: "{}".to_string() }
}

/// For each call, whether each tool (matched by name) answers it.
fn answers(calls: &[&str], tools: &[&str]) -> Vec<Vec<bool>> {
    calls.iter().map(|c| tools.iter().map(|t| t == c).collect()).collect()
}

#[test]
fn answer_without_tools() {
    match next_generate_step(Some("hi".to_string()), None, 0, 10) {
        GenerateStep::Answer(a) => assert_eq!(a, "hi"),
        _ => panic!(),
    }
    match next_generate_step(None, Some(&answers(&[], &["x"])), 0, 10) {
        GenerateStep::Answer(a) => assert_eq!(a, ""),
        _ => panic!(),
    }
}

#[test]
fn first_call_with_a_tool_runs() {
    let rows = answers(&["missing", "b", "a"], &["a", "b"]);
    match next_generate_step(None, Some(&rows), 1, 2) {
        GenerateStep::RunTool { call, tool } => assert_eq!((call, tool), (1, 1)),
        _ => panic!(),
    }
}

#[test]
fn tool_turn_appends_call_and_result() {
    let msgs = vec![LlmMessage::user("q".to_string())];
    let out = tool_turn_messages(msgs, &call("a"), "{\"r\":1}".to_string());
    assert_eq!(out.len(), 3);
    assert_eq!(out[1].role, MessageRole::Assistant);
    assert!(out[1].content.is_none());
    assert_eq!(out[1].tool_calls.as_ref().unwrap()[0].name, "a");
    assert_eq!(out[2].role, MessageRole::Tool);
    assert_eq!(out[2].content.as_deref(), Some("{\"r\":1}"));
}

#[test]
fn stream_accumulates_and_follows_up() {
    let mut acc = StreamAccumulator::new();
    assert_eq!(acc.push_chunk(StreamChunk::Content("Hel".to_string())), Some("Hel".to_string()));
    assert_eq!(acc.push_chunk(StreamChunk::Content("lo".to_string())), Some("lo".to_string()));
    assert_eq!(acc.push_chunk(StreamChunk::ToolCalls(vec![call("x"), call("a")])), None);
    assert_eq!(acc.content, "Hello");
    let rows = answers(&["x", "a"], &["a"]);
    let f = acc.follow_up(vec![LlmMessage::user("q".to_string())], Some(&rows), 0, 10).ok().unwrap().unwrap();
    assert_eq!(f.messages.len(), 2);
    assert_eq!(f.messages[1].content.as_deref(), Some("Hello"));
    assert_eq!(f.runs, vec![(1, 0)]);
}

#[test]
fn no_follow_up_without_calls() {
    let acc = StreamAccumulator::new();
    assert!(acc.follow_up(vec![], Some(&answers(&[], &["a"])), 5, 5).ok().unwrap().is_none());
}

#[test]
fn tool_rounds_stop_at_the_limit() {
    let rows = answers(&["get_weather"], &["get_weather"]);
    for rounds in 0..2 {
        match next_generate_step(None, Some(&rows), rounds, 2) {
            GenerateStep::RunTool { call, tool } => assert_eq!((call, tool), (0, 0)),
            _ => panic!(),
        }
    }
    assert!(matches!(next_generate_step(None, Some(&rows), 2, 2), GenerateStep::RoundLimitReached));
    match next_generate_step(Some("done".to_string()), Some(&answers(&["other"], &["get_weather"])), 2, 2) {
        GenerateStep::Answer(a) => assert_eq!(a, "done"),
        _ => panic!(),
    }
}

#[test]
fn streamed_tool_rounds_stop_at_the_limit() {
    let mut acc = StreamAccumulator::new();
    acc.push_chunk(StreamChunk::ToolCalls(vec![call("a")]));
    match acc.follow_up(vec![], Some(&answers(&["a"], &["a"])), 2, 2) {
        Err(MojenticError::MaxToolIterationsExceeded { limit }) => assert_eq!(limit, 2),
        _ => panic!(),
    }
}

#[test]
fn a_tool_answers_by_its_own_matching() {
    // The second tool answers a call under another name; the first answers none.
    let rows = vec![vec![false, true]];
    match next_generate_step(None, Some(&rows), 0, 10) {
        GenerateStep::RunTool { call, tool } => assert_eq!((call, tool), (0, 1)),
        _ => panic!(),
    }
}
