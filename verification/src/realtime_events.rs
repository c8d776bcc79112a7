//! Vendor-neutral events of a realtime voice session.
use vstd::prelude::*;

verus! {

/// Who ended a session.
#[derive(Debug, Clone, Copy, PartialEq, Eq, Structural)]
pub enum SessionCloseReason {
    Client,
    Server,
    Error,
}

/// Why an assistant turn was cut short.
#[derive(Debug, Clone, Copy, PartialEq, Eq, Structural)]
pub enum InterruptReason {
    /// The user started speaking over the assistant.
    BargeIn,
    /// The application asked for it.
    Manual,
    Error,
}

/// Token counts reported for a finished response.
#[derive(Debug, Clone, Copy, PartialEq, Eq, Structural)]
pub struct TokenUsage {
    pub prompt_tokens: Option<u32>,
    pub completion_tokens: Option<u32>,
    pub total_tokens: Option<u32>,
}

/// An event of a realtime session. Tool arguments and results travel as
/// JSON text.
#[derive(Debug, Clone)]
pub enum RealtimeEvent {
    SessionOpened { session_id: String },
    SessionUpdated,
    SessionClosed { reason: SessionCloseReason },
    UserSpeechStarted { at_ms: u64 },
    UserSpeechStopped { at_ms: u64 },
    UserTranscriptDelta { item_id: String, delta: String },
    UserTranscript { item_id: String, text: String },
    AssistantTurnStarted { turn_id: String },
    AssistantTextDelta { turn_id: String, delta: String },
    AssistantText { turn_id: String, text: String },
    AssistantTranscriptDelta { turn_id: String, delta: String },
    AssistantTranscript { turn_id: String, text: String },
    AssistantAudioDelta { turn_id: String, pcm: Vec<i16> },
    AssistantTurnCompleted { turn_id: String, usage: Option<TokenUsage> },
    ToolCallStarted { turn_id: String, call_id: String, name: String },
    ToolCallArgsDelta { call_id: String, delta: String },
    ToolCallDispatched { call_id: String, name: String, args: String },
    ToolCallCompleted { call_id: String, name: String, result: String },
    ToolCallFailed { call_id: String, name: String, error: String },
    ToolBatchSubmitted { turn_id: String, call_ids: Vec<String> },
    Interrupted { turn_id: String, reason: InterruptReason },
    RateLimited { reset_ms: u64 },
    Error { error: String, recoverable: bool },
}

} // verus!
