use mojentic::realtime_config::InterruptOutputPolicy;
use mojentic::realtime_events::{InterruptReason, RealtimeEvent, SessionCloseReason};
use mojentic::realtime_session::{
    ClientMessage, DriverAction, OutputItemFields, ServerEventFields, SessionDriver, UsageFields,
};
use mojentic::tool_runner::ToolCallOutcome;

fn ev(t: &str) -> ServerEventFields {
    ServerEventFields {
        event_type: Some(t.to_string()),
        audio_start_ms: None,
        audio_end_ms: None,
        item_id: None,
        delta: None,
        transcript: None,
        text: None,
        response_id: None,
        item: None,
        call_id: None,
        arguments: None,
        usage: None,
        error_message: None,
    }
}

fn start_turn(d: &mut SessionDriver, id: &str) {
    let out = d.handle_server_event(ServerEventFields { response_id: Some(id.to_string()), ..ev("response.created") });
    assert!(matches!(&out[..], [DriverAction::Emit(RealtimeEvent::AssistantTurnStarted { turn_id })] if turn_id == id));
}

fn announce_call(d: &mut SessionDriver, call_id: &str, name: &str) {
    let item = OutputItemFields {
        item_type: Some("function_call".to_string()),
        call_id: Some(call_id.to_string()),
        name: Some(name.to_string()),
    };
    let out = d.handle_server_event(ServerEventFields { item: Some(item), ..ev("response.output_item.added") });
    assert_eq!(out.len(), 1);
}

fn outcome(id: &str, ok: bool) -> ToolCallOutcome {
    ToolCallOutcome {
        id: id.to_string(),
        name: "tool".to_string(),
        ok,
        result: if ok { Some("{\"v\":1}".to_string()) } else { None },
        error: if ok { None } else { Some("boom".to_string()) },
        duration_ms: 3,
    }
}

#[test]
fn tool_call_round_trip() {
    let mut d = SessionDriver::new(InterruptOutputPolicy::Drop);
    start_turn(&mut d, "r1");
    announce_call(&mut d, "c1", "get_weather");
    d.handle_server_event(ServerEventFields {
        call_id: Some("c1".to_string()),
        delta: Some("{\"city\":".to_string()),
        ..ev("response.function_call_arguments.delta")
    });
    d.handle_server_event(ServerEventFields {
        call_id: Some("c1".to_string()),
        delta: Some("\"Paris\"}".to_string()),
        ..ev("response.function_call_arguments.delta")
    });
    d.handle_server_event(ServerEventFields { call_id: Some("c1".to_string()), ..ev("response.function_call_arguments.done") });
    let out = d.handle_server_event(ServerEventFields {
        response_id: Some("r1".to_string()),
        usage: Some(UsageFields { input_tokens: Some(5), output_tokens: Some(7), total_tokens: Some(12) }),
        ..ev("response.done")
    });
    assert_eq!(out.len(), 3);
    match &out[0] {
        DriverAction::Emit(RealtimeEvent::AssistantTurnCompleted { turn_id, usage }) => {
            assert_eq!(turn_id, "r1");
            assert_eq!(usage.unwrap().total_tokens, Some(12));
        }
        _ => panic!("expected completion"),
    }
    match &out[1] {
        DriverAction::Emit(RealtimeEvent::ToolCallDispatched { call_id, name, args }) => {
            assert_eq!(call_id, "c1");
            assert_eq!(name, "get_weather");
            assert_eq!(args, "{\"city\":\"Paris\"}");
        }
        _ => panic!("expected dispatch"),
    }
    match &out[2] {
        DriverAction::RunTools { executions, cancelled } => {
            assert_eq!(executions.len(), 1);
            assert!(!cancelled);
        }
        _ => panic!("expected tools to run"),
    }
    let out = d.finish_tool_batch(vec![outcome("c1", true)]);
    assert_eq!(out.len(), 4);
    assert!(matches!(&out[0], DriverAction::Emit(RealtimeEvent::ToolCallCompleted { result, .. }) if result == "{\"v\":1}"));
    assert!(matches!(&out[1], DriverAction::Send(ClientMessage::FunctionCallOutput { call_id, ok: true, output }) if call_id == "c1" && output == "{\"v\":1}"));
    assert!(matches!(&out[2], DriverAction::Emit(RealtimeEvent::ToolBatchSubmitted { turn_id, call_ids }) if turn_id == "r1" && call_ids == &vec!["c1".to_string()]));
    assert!(matches!(&out[3], DriverAction::Send(ClientMessage::ResponseCreate)));
    assert!(d.current_response_id.is_none());
    assert!(d.pending_batch.is_none());
}

#[test]
fn bad_arguments_fail_the_call() {
    let mut d = SessionDriver::new(InterruptOutputPolicy::Drop);
    start_turn(&mut d, "r1");
    announce_call(&mut d, "c1", "t");
    d.handle_server_event(ServerEventFields {
        call_id: Some("c1".to_string()),
        arguments: Some("not json".to_string()),
        ..ev("response.function_call_arguments.done")
    });
    let out = d.handle_server_event(ServerEventFields { response_id: Some("r1".to_string()), ..ev("response.done") });
    assert_eq!(out.len(), 2);
    assert!(matches!(&out[1], DriverAction::Emit(RealtimeEvent::ToolCallFailed { call_id, .. }) if call_id == "c1"));
    assert!(d.current_response_id.is_none());
}

#[test]
fn barge_in_interrupts_once_and_drops_results() {
    let mut d = SessionDriver::new(InterruptOutputPolicy::Drop);
    start_turn(&mut d, "r1");
    announce_call(&mut d, "c1", "t");
    d.handle_server_event(ServerEventFields { call_id: Some("c1".to_string()), ..ev("response.function_call_arguments.done") });
    let out = d.handle_server_event(ServerEventFields { audio_start_ms: Some(40), ..ev("input_audio_buffer.speech_started") });
    assert_eq!(out.len(), 3);
    assert!(matches!(&out[0], DriverAction::Emit(RealtimeEvent::UserSpeechStarted { at_ms: 40 })));
    assert!(matches!(&out[1], DriverAction::Emit(RealtimeEvent::Interrupted { reason: InterruptReason::BargeIn, .. })));
    assert!(matches!(&out[2], DriverAction::Send(ClientMessage::ResponseCancel)));
    assert!(d.interrupt().is_empty());
    let out = d.handle_server_event(ServerEventFields { response_id: Some("r1".to_string()), ..ev("response.done") });
    assert!(matches!(out.last(), Some(DriverAction::RunTools { cancelled: true, .. })));
    let out = d.finish_tool_batch(vec![outcome("c1", true)]);
    assert_eq!(out.len(), 1);
}

#[test]
fn interrupted_batch_keeps_completed_only() {
    let mut d = SessionDriver::new(InterruptOutputPolicy::SubmitCompletedOnly);
    start_turn(&mut d, "r1");
    announce_call(&mut d, "a", "t");
    announce_call(&mut d, "b", "t");
    for id in ["a", "b"] {
        d.handle_server_event(ServerEventFields { call_id: Some(id.to_string()), ..ev("response.function_call_arguments.done") });
    }
    d.interrupt();
    d.handle_server_event(ServerEventFields { response_id: Some("r1".to_string()), ..ev("response.done") });
    let out = d.finish_tool_batch(vec![outcome("a", false), outcome("b", true)]);
    assert_eq!(out.len(), 5);
    assert!(matches!(&out[0], DriverAction::Emit(RealtimeEvent::ToolCallFailed { error, .. }) if error == "boom"));
    assert!(matches!(&out[2], DriverAction::Send(ClientMessage::FunctionCallOutput { call_id, .. }) if call_id == "b"));
}

#[test]
fn other_events() {
    let mut d = SessionDriver::new(InterruptOutputPolicy::Drop);
    assert!(d.handle_server_event(ev("session.created")).is_empty());
    assert!(matches!(&d.handle_server_event(ev("session.updated"))[..], [DriverAction::Emit(RealtimeEvent::SessionUpdated)]));
    assert!(matches!(&d.handle_server_event(ev("rate_limits.updated"))[..], [DriverAction::Emit(RealtimeEvent::RateLimited { reset_ms: 0 })]));
    let out = d.handle_server_event(ev("error"));
    assert!(matches!(&out[..], [DriverAction::Emit(RealtimeEvent::Error { error, recoverable: true })] if error == "unknown realtime error"));
    let quiet = d.handle_server_event(ServerEventFields {
        error_message: Some("Cancellation failed: No active response found".to_string()),
        ..ev("error")
    });
    assert!(quiet.is_empty());
    assert!(d.handle_server_event(ServerEventFields { delta: Some("hi".to_string()), ..ev("response.text.delta") }).is_empty());
    start_turn(&mut d, "r2");
    let out = d.handle_server_event(ServerEventFields { delta: Some("AQD+/w==".to_string()), ..ev("response.output_audio.delta") });
    assert!(matches!(&out[..], [DriverAction::Emit(RealtimeEvent::AssistantAudioDelta { pcm, .. })] if pcm == &vec![1, -2]));
    let out = d.handle_server_event(ServerEventFields { text: Some("done".to_string()), ..ev("response.output_text.done") });
    assert!(matches!(&out[..], [DriverAction::Emit(RealtimeEvent::AssistantText { text, turn_id })] if text == "done" && turn_id == "r2"));
    assert!(d.handle_server_event(ServerEventFields { event_type: None, ..ev("x") }).is_empty());
    let out = d.close();
    assert!(matches!(&out[..], [DriverAction::CloseGateway, DriverAction::Emit(RealtimeEvent::SessionClosed { reason: SessionCloseReason::Client })]));
}

#[test]
fn commands() {
    let d = SessionDriver::new(InterruptOutputPolicy::Drop);
    let out = d.send_text("hi".to_string());
    assert!(matches!(&out[..], [DriverAction::Send(ClientMessage::UserText(t)), DriverAction::Send(ClientMessage::ResponseCreate)] if t == "hi"));
    let out = d.send_audio(&[1, -2]);
    assert!(matches!(&out[..], [DriverAction::Send(ClientMessage::AudioAppend(a))] if a == "AQD+/w=="));
    assert_eq!(d.commit_audio().len(), 2);
}
