//! The decisions of a realtime session: how server events become
//! vendor-neutral events, how a turn's tool calls are collected and run, and
//! which tool results go back to the server. The caller performs each
//! returned action (emit an event, send a message, run tools) and hands
//! back what the outside world answers.
use vstd::prelude::*;
use vstd::string::StringExecFns;
use crate::codec::{
    base64_len, base64_standard, base64_standard_decoded, decode_base64_pcm16,
    encode_base64_pcm16, pcm16_le_bytes, pcm16_samples,
};
use crate::realtime_config::InterruptOutputPolicy;
use crate::tool_runner::{copy_outcome, ToolCallExecution, ToolCallOutcome};
use crate::realtime_events::{InterruptReason, RealtimeEvent, SessionCloseReason, TokenUsage};
use crate::json_text::{check_json_object, json_object_error};
use crate::text::{contains_seq, lowercase, str_contains, str_eq, to_lowercase};

verus! {

/// The `item` of an `output_item.added` server event.
pub struct OutputItemFields {
    pub item_type: Option<String>,
    pub call_id: Option<String>,
    pub name: Option<String>,
}

/// The `response.usage` counts of a `response.done` server event.
pub struct UsageFields {
    pub input_tokens: Option<u64>,
    pub output_tokens: Option<u64>,
    pub total_tokens: Option<u64>,
}

/// What the session reads of a server event: each field is present when the
/// event's JSON holds it with the expected JSON type.
pub struct ServerEventFields {
    pub event_type: Option<String>,
    pub audio_start_ms: Option<u64>,
    pub audio_end_ms: Option<u64>,
    pub item_id: Option<String>,
    pub delta: Option<String>,
    pub transcript: Option<String>,
    pub text: Option<String>,
    /// `response.id`
    pub response_id: Option<String>,
    pub item: Option<OutputItemFields>,
    pub call_id: Option<String>,
    pub arguments: Option<String>,
    /// `response.usage`
    pub usage: Option<UsageFields>,
    /// `error.message`
    pub error_message: Option<String>,
}

/// A function call announced in the current turn, with its arguments so far.
pub struct PendingCall {
    pub call_id: String,
    pub name: String,
    pub args_buffer: String,
    pub done: bool,
}

/// The assistant turn in progress.
pub struct TurnState {
    pub turn_id: String,
    pub calls: Vec<PendingCall>,
    pub cancelled: bool,
}

/// A message for the realtime server.
pub enum ClientMessage {
    /// A user text message.
    UserText(String),
    /// Ask for a response.
    ResponseCreate,
    /// Append base64 PCM16 audio to the input buffer.
    AudioAppend(String),
    /// Commit the input audio buffer.
    AudioCommit,
    /// Cancel the response in progress.
    ResponseCancel,
    /// Replace the session's instructions.
    Instructions(String),
    /// The output of a function call: the result's JSON text when `ok`,
    /// else the error text (sent as `{"error": ...}`).
    FunctionCallOutput { call_id: String, ok: bool, output: String },
}

/// Something the caller must do.
pub enum DriverAction {
    Emit(RealtimeEvent),
    Send(ClientMessage),
    /// Run these calls, with a cancelled token when `cancelled`, and hand the
    /// outcomes, in the same order, to `finish_tool_batch`.
    RunTools { executions: Vec<ToolCallExecution>, cancelled: bool },
    /// Close the connection to the server.
    CloseGateway,
}

/// The state of a realtime session.
pub struct SessionDriver {
    pub current_turn: Option<TurnState>,
    pub current_response_id: Option<String>,
    /// The turn id and its cancelled flag while its tool batch runs.
    pub pending_batch: Option<(String, bool)>,
    pub on_interrupt: InterruptOutputPolicy,
}

/// No two calls share an id.
pub open spec fn calls_unique(calls: Seq<PendingCall>) -> bool {
    forall|i: int, j: int|
        0 <= i < j < calls.len() ==> calls[i].call_id@ != calls[j].call_id@
}

/// The call at `i` has the id `id`.
pub open spec fn has_call_at(calls: Seq<PendingCall>, id: Seq<char>, i: int) -> bool {
    0 <= i < calls.len() && calls[i].call_id@ == id
}

/// The event's type is `t`.
pub open spec fn type_is(ev: ServerEventFields, t: Seq<char>) -> bool {
    match ev.event_type {
        Some(s) => s@ == t,
        None => false,
    }
}

/// The state after cancelling the current turn, if one runs uncancelled.
pub open spec fn cancel_state(s: SessionDriver) -> SessionDriver {
    match s.current_turn {
        Some(t) => if !t.cancelled {
            SessionDriver {
                current_turn: Some(TurnState { turn_id: t.turn_id, calls: t.calls, cancelled: true }),
                ..s
            }
        } else {
            s
        },
        None => s,
    }
}

/// What cancelling the current turn does: report the interruption, and
/// cancel the server's response if one is in progress.
pub open spec fn cancel_actions(s: SessionDriver, reason: InterruptReason) -> Seq<DriverAction> {
    match s.current_turn {
        Some(t) => if !t.cancelled {
            seq![DriverAction::Emit(RealtimeEvent::Interrupted { turn_id: t.turn_id, reason })]
                + if s.current_response_id is Some {
                seq![DriverAction::Send(ClientMessage::ResponseCancel)]
            } else {
                Seq::empty()
            }
        } else {
            Seq::empty()
        },
        None => Seq::empty(),
    }
}

/// A turn with a new id, no calls, not cancelled.
pub open spec fn fresh_turn(t: TurnState, id: String) -> bool {
    t.turn_id == id && t.calls@.len() == 0 && !t.cancelled
}

/// A call freshly announced under `id` and `name`.
pub open spec fn fresh_call(c: PendingCall, id: String, name: String) -> bool {
    c.call_id@ == id@ && c.name == name && c.args_buffer@.len() == 0 && !c.done
}

/// `new` is `old` with the call `id` (re)announced, as a map from ids to
/// calls replaces the value of a key it holds.
pub open spec fn calls_announced(
    old: Seq<PendingCall>,
    new: Seq<PendingCall>,
    id: String,
    name: String,
) -> bool {
    &&& (forall|i: int| !has_call_at(old, id@, i)) ==> new.len() == old.len() + 1 && new.take(
        old.len() as int,
    ) == old && fresh_call(new.last(), id, name)
    &&& forall|i: int|
        has_call_at(old, id@, i) ==> new.len() == old.len() && fresh_call(new[i], id, name) && (
        forall|j: int| 0 <= j < old.len() && j != i ==> new[j] == old[j])
}

/// `new` is `old` with the call at `i` changed as `changed` says.
pub open spec fn one_call_changed(old: Seq<PendingCall>, new: Seq<PendingCall>, i: int) -> bool {
    new.len() == old.len() && new[i].call_id == old[i].call_id && new[i].name == old[i].name
        && forall|j: int| 0 <= j < old.len() && j != i ==> new[j] == old[j]
}

/// The usage reported by `response.done`, each count cut to 32 bits.
pub open spec fn usage_of(u: Option<UsageFields>) -> Option<TokenUsage> {
    match u {
        Some(f) => Some(
            TokenUsage {
                prompt_tokens: match f.input_tokens {
                    Some(n) => Some(n as u32),
                    None => None,
                },
                completion_tokens: match f.output_tokens {
                    Some(n) => Some(n as u32),
                    None => None,
                },
                total_tokens: match f.total_tokens {
                    Some(n) => Some(n as u32),
                    None => None,
                },
            },
        ),
        None => None,
    }
}

/// Only the current turn changed.
pub open spec fn only_turn_changed(old: SessionDriver, new: SessionDriver) -> bool {
    new.current_response_id == old.current_response_id && new.pending_batch == old.pending_batch
        && new.on_interrupt == old.on_interrupt
}

impl SessionDriver {
    /// The state invariant: a turn's calls have distinct ids.
    pub open spec fn wf(self) -> bool {
        match self.current_turn {
            Some(t) => calls_unique(t.calls@),
            None => true,
        }
    }

    /// A session with no turn, using `on_interrupt` for interrupted turns'
    /// tool results.
    pub fn new(on_interrupt: InterruptOutputPolicy) -> (d: Self)
        ensures
            d.wf(),
            d.current_turn is None,
            d.current_response_id is None,
            d.pending_batch is None,
            d.on_interrupt == on_interrupt,
    {
        SessionDriver {
            current_turn: None,
            current_response_id: None,
            pending_batch: None,
            on_interrupt,
        }
    }

    /// Cancels the current turn once: the turn is marked cancelled, the
    /// interruption is reported, and a response in progress is cancelled.
    /// Without an uncancelled turn nothing happens.
    pub fn cancel_turn(&mut self, reason: InterruptReason) -> (out: Vec<DriverAction>)
        ensures
            *final(self) == cancel_state(*old(self)),
            out@ == cancel_actions(*old(self), reason),
    {
        let mut out: Vec<DriverAction> = Vec::new();
        let taken = self.current_turn.take();
        match taken {
            None => {},
            Some(turn) => {
                if turn.cancelled {
                    self.current_turn = Some(turn);
                } else {
                    let mut turn = turn;
                    turn.cancelled = true;
                    out.push(
                        DriverAction::Emit(
                            RealtimeEvent::Interrupted { turn_id: turn.turn_id.clone(), reason },
                        ),
                    );
                    if self.current_response_id.is_some() {
                        out.push(DriverAction::Send(ClientMessage::ResponseCancel));
                    }
                    self.current_turn = Some(turn);
                }
            },
        }
        proof {
            assert(out@ =~= cancel_actions(*old(self), reason));
        }
        out
    }

    /// A user text message, then a request for a response.
    pub fn send_text(&self, text: String) -> (out: Vec<DriverAction>)
        ensures
            out@ == seq![
                DriverAction::Send(ClientMessage::UserText(text)),
                DriverAction::Send(ClientMessage::ResponseCreate),
            ],
    {
        let out = vec![
            DriverAction::Send(ClientMessage::UserText(text)),
            DriverAction::Send(ClientMessage::ResponseCreate),
        ];
        out
    }

    /// Audio samples appended to the input buffer, as base64 PCM16.
    pub fn send_audio(&self, samples: &[i16]) -> (out: Vec<DriverAction>)
        requires
            2 * samples@.len() <= usize::MAX,
            base64_len(2 * samples@.len()) <= usize::MAX,
        ensures
            out@.len() == 1,
            match out@[0] {
                DriverAction::Send(ClientMessage::AudioAppend(a)) => a@ == base64_standard(
                    pcm16_le_bytes(samples@),
                ),
                _ => false,
            },
    {
        let audio = encode_base64_pcm16(samples);
        vec![DriverAction::Send(ClientMessage::AudioAppend(audio))]
    }

    /// The input buffer committed, then a request for a response.
    pub fn commit_audio(&self) -> (out: Vec<DriverAction>)
        ensures
            out@ == seq![
                DriverAction::Send(ClientMessage::AudioCommit),
                DriverAction::Send(ClientMessage::ResponseCreate),
            ],
    {
        vec![
            DriverAction::Send(ClientMessage::AudioCommit),
            DriverAction::Send(ClientMessage::ResponseCreate),
        ]
    }

    /// New instructions for the session.
    pub fn update_instructions(&self, instructions: String) -> (out: Vec<DriverAction>)
        ensures
            out@ == seq![DriverAction::Send(ClientMessage::Instructions(instructions))],
    {
        vec![DriverAction::Send(ClientMessage::Instructions(instructions))]
    }

    /// The application interrupts the current turn.
    pub fn interrupt(&mut self) -> (out: Vec<DriverAction>)
        ensures
            *final(self) == cancel_state(*old(self)),
            out@ == cancel_actions(*old(self), InterruptReason::Manual),
    {
        self.cancel_turn(InterruptReason::Manual)
    }

    /// The application closes the session.
    pub fn close(&self) -> (out: Vec<DriverAction>)
        ensures
            out@ == seq![
                DriverAction::CloseGateway,
                DriverAction::Emit(RealtimeEvent::SessionClosed { reason: SessionCloseReason::Client }),
            ],
    {
        vec![
            DriverAction::CloseGateway,
            DriverAction::Emit(RealtimeEvent::SessionClosed { reason: SessionCloseReason::Client }),
        ]
    }

    /// The server ended the stream of events.
    pub fn server_closed(&self) -> (out: Vec<DriverAction>)
        ensures
            out@ == seq![
                DriverAction::Emit(RealtimeEvent::SessionClosed { reason: SessionCloseReason::Server }),
            ],
    {
        vec![DriverAction::Emit(RealtimeEvent::SessionClosed { reason: SessionCloseReason::Server })]
    }
}


/// Nothing changes and nothing happens.
pub open spec fn silent(old: SessionDriver, new: SessionDriver, out: Seq<DriverAction>) -> bool {
    new == old && out.len() == 0
}

/// A count, or zero when absent.
pub open spec fn or_zero(v: Option<u64>) -> u64 {
    match v {
        Some(n) => n,
        None => 0,
    }
}

/// The user started speaking: reported, and a running turn is cut short.
pub open spec fn speech_started_post(
    old: SessionDriver,
    at: Option<u64>,
    new: SessionDriver,
    out: Seq<DriverAction>,
) -> bool {
    new == cancel_state(old) && out == seq![
        DriverAction::Emit(RealtimeEvent::UserSpeechStarted { at_ms: or_zero(at) }),
    ] + cancel_actions(old, InterruptReason::BargeIn)
}

/// A piece of the user's transcript, reported when both fields are present.
pub open spec fn user_delta_post(
    old: SessionDriver,
    item_id: Option<String>,
    delta: Option<String>,
    new: SessionDriver,
    out: Seq<DriverAction>,
) -> bool {
    new == old && out == match (item_id, delta) {
        (Some(i), Some(d)) => seq![
            DriverAction::Emit(RealtimeEvent::UserTranscriptDelta { item_id: i, delta: d }),
        ],
        _ => Seq::empty(),
    }
}

/// The user's whole transcript, reported when both fields are present.
pub open spec fn user_transcript_post(
    old: SessionDriver,
    item_id: Option<String>,
    transcript: Option<String>,
    new: SessionDriver,
    out: Seq<DriverAction>,
) -> bool {
    new == old && out == match (item_id, transcript) {
        (Some(i), Some(t)) => seq![
            DriverAction::Emit(RealtimeEvent::UserTranscript { item_id: i, text: t }),
        ],
        _ => Seq::empty(),
    }
}

/// A response with an id starts a fresh turn and becomes the current response.
pub open spec fn response_created_post(
    old: SessionDriver,
    response_id: Option<String>,
    new: SessionDriver,
    out: Seq<DriverAction>,
) -> bool {
    match response_id {
        None => silent(old, new, out),
        Some(id) => {
            &&& new.current_response_id == Some(id)
            &&& (new.current_turn matches Some(t) && fresh_turn(t, id))
            &&& new.pending_batch == old.pending_batch
            &&& new.on_interrupt == old.on_interrupt
            &&& out == seq![DriverAction::Emit(RealtimeEvent::AssistantTurnStarted { turn_id: id })]
        },
    }
}

/// The item type is `function_call`.
pub open spec fn is_function_call(t: Option<String>) -> bool {
    match t {
        Some(s) => s@ == "function_call"@,
        None => false,
    }
}

/// The turn `t` became `nt` with the same id and cancelled flag.
pub open spec fn same_turn(t: TurnState, new: SessionDriver) -> bool {
    new.current_turn matches Some(nt) && nt.turn_id == t.turn_id && nt.cancelled == t.cancelled
}

/// The calls of the current turn in `new`.
pub open spec fn turn_calls(new: SessionDriver) -> Seq<PendingCall> {
    match new.current_turn {
        Some(nt) => nt.calls@,
        None => Seq::empty(),
    }
}

/// A function call item of the current turn is recorded under its id and
/// reported.
pub open spec fn item_added_post(
    old: SessionDriver,
    item: Option<OutputItemFields>,
    new: SessionDriver,
    out: Seq<DriverAction>,
) -> bool {
    match old.current_turn {
        None => silent(old, new, out),
        Some(t) => match item {
            None => silent(old, new, out),
            Some(it) => if !is_function_call(it.item_type) {
                silent(old, new, out)
            } else {
                match (it.call_id, it.name) {
                    (Some(cid), Some(nm)) => {
                        &&& same_turn(t, new)
                        &&& calls_announced(t.calls@, turn_calls(new), cid, nm)
                        &&& only_turn_changed(old, new)
                        &&& out == seq![
                            DriverAction::Emit(
                                RealtimeEvent::ToolCallStarted {
                                    turn_id: t.turn_id,
                                    call_id: cid,
                                    name: nm,
                                },
                            ),
                        ]
                    },
                    _ => silent(old, new, out),
                }
            },
        },
    }
}

/// `new` is `old` with `d` appended to the arguments of the call `id`, if there is one.
pub open spec fn args_appended(old: Seq<PendingCall>, new: Seq<PendingCall>, id: Seq<char>, d: Seq<char>) -> bool {
    &&& (forall|i: int| !has_call_at(old, id, i)) ==> new == old
    &&& forall|i: int|
        has_call_at(old, id, i) ==> one_call_changed(old, new, i) && new[i].done == old[i].done
            && new[i].args_buffer@ == old[i].args_buffer@ + d
}

/// A piece of a call's arguments: kept with the call, and reported.
pub open spec fn args_delta_post(
    old: SessionDriver,
    call_id: Option<String>,
    delta: Option<String>,
    new: SessionDriver,
    out: Seq<DriverAction>,
) -> bool {
    match old.current_turn {
        None => silent(old, new, out),
        Some(t) => match (call_id, delta) {
            (Some(cid), Some(d)) => {
                &&& same_turn(t, new)
                &&& args_appended(t.calls@, turn_calls(new), cid@, d@)
                &&& only_turn_changed(old, new)
                &&& out == seq![
                    DriverAction::Emit(RealtimeEvent::ToolCallArgsDelta { call_id: cid, delta: d }),
                ]
            },
            _ => silent(old, new, out),
        },
    }
}

/// `new` is `old` with the call `id`, if there is one, done, its arguments
/// replaced by `arguments` when given.
pub open spec fn args_completed(
    old: Seq<PendingCall>,
    new: Seq<PendingCall>,
    id: Seq<char>,
    arguments: Option<String>,
) -> bool {
    &&& (forall|i: int| !has_call_at(old, id, i)) ==> new == old
    &&& forall|i: int|
        has_call_at(old, id, i) ==> one_call_changed(old, new, i) && new[i].done
            && new[i].args_buffer == match arguments {
            Some(a) => a,
            None => old[i].args_buffer,
        }
}

/// A call's arguments are complete.
pub open spec fn args_done_post(
    old: SessionDriver,
    call_id: Option<String>,
    arguments: Option<String>,
    new: SessionDriver,
    out: Seq<DriverAction>,
) -> bool {
    match old.current_turn {
        None => silent(old, new, out),
        Some(t) => match call_id {
            None => silent(old, new, out),
            Some(cid) => {
                &&& same_turn(t, new)
                &&& args_completed(t.calls@, turn_calls(new), cid@, arguments)
                &&& only_turn_changed(old, new)
                &&& out.len() == 0
            },
        },
    }
}

/// The kinds of assistant output that are reported as they come.
pub enum AssistantOutput {
    TextDelta,
    Text,
    TranscriptDelta,
    Transcript,
}

/// The event for a piece of assistant output of a turn.
pub open spec fn assistant_event(kind: AssistantOutput, turn_id: String, payload: String) -> RealtimeEvent {
    match kind {
        AssistantOutput::TextDelta => RealtimeEvent::AssistantTextDelta { turn_id, delta: payload },
        AssistantOutput::Text => RealtimeEvent::AssistantText { turn_id, text: payload },
        AssistantOutput::TranscriptDelta => RealtimeEvent::AssistantTranscriptDelta {
            turn_id,
            delta: payload,
        },
        AssistantOutput::Transcript => RealtimeEvent::AssistantTranscript { turn_id, text: payload },
    }
}

/// Assistant output is reported for the current turn when present.
pub open spec fn assistant_output_post(
    old: SessionDriver,
    kind: AssistantOutput,
    payload: Option<String>,
    new: SessionDriver,
    out: Seq<DriverAction>,
) -> bool {
    new == old && out == match (old.current_turn, payload) {
        (Some(t), Some(p)) => seq![DriverAction::Emit(assistant_event(kind, t.turn_id, p))],
        _ => Seq::empty(),
    }
}

/// Assistant audio is decoded and reported for the current turn; audio that
/// is not base64 is dropped.
pub open spec fn audio_post(
    old: SessionDriver,
    delta: Option<String>,
    new: SessionDriver,
    out: Seq<DriverAction>,
) -> bool {
    new == old && match (old.current_turn, delta) {
        (Some(t), Some(d)) => match base64_standard_decoded(d@) {
            Some(bytes) => out.len() == 1 && match out[0] {
                DriverAction::Emit(RealtimeEvent::AssistantAudioDelta { turn_id, pcm }) => turn_id
                    == t.turn_id && pcm@ == pcm16_samples(bytes),
                _ => false,
            },
            None => out.len() == 0,
        },
        _ => out.len() == 0,
    }
}

/// The text of a server error.
pub open spec fn error_text(message: Option<String>) -> Seq<char> {
    match message {
        Some(m) => m@,
        None => "unknown realtime error"@,
    }
}

/// A server error is reported as recoverable, unless it only says that no
/// response was active.
pub open spec fn error_post(
    old: SessionDriver,
    message: Option<String>,
    new: SessionDriver,
    out: Seq<DriverAction>,
) -> bool {
    new == old && if contains_seq(lowercase(error_text(message)), "no active response"@) {
        out.len() == 0
    } else {
        out.len() == 1 && match out[0] {
            DriverAction::Emit(RealtimeEvent::Error { error, recoverable }) => error@ == error_text(
                message,
            ) && recoverable,
            _ => false,
        }
    }
}

/// The position of the call `id` among `calls`.
fn find_call(calls: &Vec<PendingCall>, id: &str) -> (r: Option<usize>)
    ensures
        match r {
            Some(i) => has_call_at(calls@, id@, i as int),
            None => forall|i: int| !has_call_at(calls@, id@, i),
        },
{
    let mut i: usize = 0;
    while i < calls.len()
        invariant
            i <= calls@.len(),
            forall|k: int| 0 <= k < i ==> !has_call_at(calls@, id@, k),
        decreases calls@.len() - i,
    {
        if str_eq(calls[i].call_id.as_str(), id) {
            return Some(i);
        }
        i = i + 1;
    }
    None
}

impl SessionDriver {
    fn speech_started(&mut self, at: Option<u64>) -> (out: Vec<DriverAction>)
        ensures
            speech_started_post(*old(self), at, *final(self), out@),
    {
        let at_ms: u64 = match at {
            Some(n) => n,
            None => 0,
        };
        let mut out = vec![DriverAction::Emit(RealtimeEvent::UserSpeechStarted { at_ms })];
        let mut rest = self.cancel_turn(InterruptReason::BargeIn);
        out.append(&mut rest);
        proof {
            assert(out@ =~= seq![
                DriverAction::Emit(RealtimeEvent::UserSpeechStarted { at_ms: or_zero(at) }),
            ] + cancel_actions(*old(self), InterruptReason::BargeIn));
        }
        out
    }

    fn start_response(&mut self, response_id: Option<String>) -> (out: Vec<DriverAction>)
        ensures
            response_created_post(*old(self), response_id, *final(self), out@),
    {
        match response_id {
            None => Vec::new(),
            Some(id) => {
                self.current_response_id = Some(id.clone());
                self.current_turn = Some(
                    TurnState { turn_id: id.clone(), calls: Vec::new(), cancelled: false },
                );
                let out = vec![DriverAction::Emit(RealtimeEvent::AssistantTurnStarted { turn_id: id })];
                assert(out@ =~= seq![DriverAction::Emit(RealtimeEvent::AssistantTurnStarted { turn_id: id })]);
                out
            },
        }
    }

    fn add_output_item(&mut self, item: Option<OutputItemFields>) -> (out: Vec<DriverAction>)
        requires
            old(self).wf(),
        ensures
            final(self).wf(),
            item_added_post(*old(self), item, *final(self), out@),
    {
        let taken = self.current_turn.take();
        match taken {
            None => Vec::new(),
            Some(turn) => {
                let mut turn = turn;
                let out = match item {
                    None => Vec::new(),
                    Some(it) => {
                        let is_call = match &it.item_type {
                            Some(t) => str_eq(t.as_str(), "function_call"),
                            None => false,
                        };
                        if !is_call {
                            Vec::new()
                        } else {
                            match (it.call_id, it.name) {
                                (Some(cid), Some(nm)) => {
                                    let call = PendingCall {
                                        call_id: cid.clone(),
                                        name: nm.clone(),
                                        args_buffer: String::new(),
                                        done: false,
                                    };
                                    let ghost old_calls = turn.calls@;
                                    match find_call(&turn.calls, cid.as_str()) {
                                        Some(i) => {
                                            turn.calls.set(i, call);
                                            proof {
                                                assert forall|a: int, b: int|
                                                    0 <= a < b < turn.calls@.len() implies turn.calls@[a].call_id@
                                                    != turn.calls@[b].call_id@ by {
                                                    if a != i && b != i {
                                                        assert(old_calls[a] == turn.calls@[a]);
                                                        assert(old_calls[b] == turn.calls@[b]);
                                                    }
                                                }
                                                assert forall|k: int|
                                                    has_call_at(old_calls, cid@, k) implies k == i by {
                                                    if k != i {
                                                        assert(old_calls[k].call_id@ == old_calls[i as int].call_id@);
                                                    }
                                                }
                                            }
                                        },
                                        None => {
                                            turn.calls.push(call);
                                            proof {
                                                assert(turn.calls@.take(old_calls.len() as int) =~= old_calls);
                                                assert forall|a: int, b: int|
                                                    0 <= a < b < turn.calls@.len() implies turn.calls@[a].call_id@
                                                    != turn.calls@[b].call_id@ by {
                                                    if b == old_calls.len() {
                                                        assert(!has_call_at(old_calls, cid@, a));
                                                    } else {
                                                        assert(old_calls[a] == turn.calls@[a]);
                                                        assert(old_calls[b] == turn.calls@[b]);
                                                    }
                                                }
                                            }
                                        },
                                    }
                                    let ev = RealtimeEvent::ToolCallStarted {
                                        turn_id: turn.turn_id.clone(),
                                        call_id: cid,
                                        name: nm,
                                    };
                                    let out = vec![DriverAction::Emit(ev)];
                                    assert(out@ =~= seq![DriverAction::Emit(ev)]);
                                    out
                                },
                                _ => Vec::new(),
                            }
                        }
                    },
                };
                self.current_turn = Some(turn);
                out
            },
        }
    }

    fn fn_args_delta(&mut self, call_id: Option<String>, delta: Option<String>) -> (out: Vec<
        DriverAction,
    >)
        requires
            old(self).wf(),
        ensures
            final(self).wf(),
            args_delta_post(*old(self), call_id, delta, *final(self), out@),
    {
        let taken = self.current_turn.take();
        match taken {
            None => Vec::new(),
            Some(turn) => {
                let mut turn = turn;
                let out = match (call_id, delta) {
                    (Some(cid), Some(d)) => {
                        let ghost old_calls = turn.calls@;
                        match find_call(&turn.calls, cid.as_str()) {
                            Some(i) => {
                                let mut calls = turn.calls;
                                let mut call = calls.remove(i);
                                call.args_buffer.append(d.as_str());
                                calls.insert(i, call);
                                turn.calls = calls;
                                proof {
                                    assert forall|j: int|
                                        0 <= j < old_calls.len() && j != i implies turn.calls@[j]
                                        == old_calls[j] by {
                                    }
                                    assert forall|k: int|
                                        has_call_at(old_calls, cid@, k) implies k == i by {
                                        if k != i {
                                            assert(old_calls[k].call_id@ == old_calls[i as int].call_id@);
                                        }
                                    }
                                    assert forall|a: int, b: int|
                                        0 <= a < b < turn.calls@.len() implies turn.calls@[a].call_id@
                                        != turn.calls@[b].call_id@ by {
                                        if a != i && b != i {
                                            assert(old_calls[a] == turn.calls@[a]);
                                            assert(old_calls[b] == turn.calls@[b]);
                                        }
                                    }
                                }
                            },
                            None => {},
                        }
                        let ev = RealtimeEvent::ToolCallArgsDelta { call_id: cid, delta: d };
                        let out = vec![DriverAction::Emit(ev)];
                        assert(out@ =~= seq![DriverAction::Emit(ev)]);
                        out
                    },
                    _ => Vec::new(),
                };
                self.current_turn = Some(turn);
                out
            },
        }
    }

    fn fn_args_done(&mut self, call_id: Option<String>, arguments: Option<String>) -> (out: Vec<
        DriverAction,
    >)
        requires
            old(self).wf(),
        ensures
            final(self).wf(),
            args_done_post(*old(self), call_id, arguments, *final(self), out@),
    {
        let taken = self.current_turn.take();
        match taken {
            None => {},
            Some(turn) => {
                let mut turn = turn;
                match call_id {
                    None => {},
                    Some(cid) => {
                        let ghost old_calls = turn.calls@;
                        match find_call(&turn.calls, cid.as_str()) {
                            Some(i) => {
                                let mut calls = turn.calls;
                                let mut call = calls.remove(i);
                                match arguments {
                                    Some(a) => {
                                        call.args_buffer = a;
                                    },
                                    None => {},
                                }
                                call.done = true;
                                calls.insert(i, call);
                                turn.calls = calls;
                                proof {
                                    assert forall|j: int|
                                        0 <= j < old_calls.len() && j != i implies turn.calls@[j]
                                        == old_calls[j] by {
                                    }
                                    assert forall|k: int|
                                        has_call_at(old_calls, cid@, k) implies k == i by {
                                        if k != i {
                                            assert(old_calls[k].call_id@ == old_calls[i as int].call_id@);
                                        }
                                    }
                                    assert forall|a: int, b: int|
                                        0 <= a < b < turn.calls@.len() implies turn.calls@[a].call_id@
                                        != turn.calls@[b].call_id@ by {
                                        if a != i && b != i {
                                            assert(old_calls[a] == turn.calls@[a]);
                                            assert(old_calls[b] == turn.calls@[b]);
                                        }
                                    }
                                }
                            },
                            None => {},
                        }
                    },
                }
                self.current_turn = Some(turn);
            },
        }
        Vec::new()
    }

    fn assistant_output(&self, kind: AssistantOutput, payload: Option<String>) -> (out: Vec<
        DriverAction,
    >)
        ensures
            assistant_output_post(*self, kind, payload, *self, out@),
    {
        match (&self.current_turn, payload) {
            (Some(t), Some(p)) => {
                let turn_id = t.turn_id.clone();
                let ev = match kind {
                    AssistantOutput::TextDelta => RealtimeEvent::AssistantTextDelta {
                        turn_id,
                        delta: p,
                    },
                    AssistantOutput::Text => RealtimeEvent::AssistantText { turn_id, text: p },
                    AssistantOutput::TranscriptDelta => RealtimeEvent::AssistantTranscriptDelta {
                        turn_id,
                        delta: p,
                    },
                    AssistantOutput::Transcript => RealtimeEvent::AssistantTranscript {
                        turn_id,
                        text: p,
                    },
                };
                let out = vec![DriverAction::Emit(ev)];
                assert(out@ =~= seq![DriverAction::Emit(ev)]);
                out
            },
            _ => Vec::new(),
        }
    }

    fn audio_delta(&self, delta: Option<String>) -> (out: Vec<DriverAction>)
        ensures
            audio_post(*self, delta, *self, out@),
    {
        match (&self.current_turn, delta) {
            (Some(t), Some(d)) => match decode_base64_pcm16(d.as_str()) {
                Ok(pcm) => vec![
                    DriverAction::Emit(
                        RealtimeEvent::AssistantAudioDelta { turn_id: t.turn_id.clone(), pcm },
                    ),
                ],
                Err(_) => Vec::new(),
            },
            _ => Vec::new(),
        }
    }

    fn server_error(&self, message: Option<String>) -> (out: Vec<DriverAction>)
        ensures
            error_post(*self, message, *self, out@),
    {
        let text = match message {
            Some(m) => m,
            None => String::from_str("unknown realtime error"),
        };
        let lower = to_lowercase(text.as_str());
        if str_contains(lower.as_str(), "no active response") {
            Vec::new()
        } else {
            vec![DriverAction::Emit(RealtimeEvent::Error { error: text, recoverable: true })]
        }
    }
}


/// A call joins its turn's batch when it is done or has some arguments.
pub open spec fn dispatchable(c: PendingCall) -> bool {
    c.done || c.args_buffer@.len() > 0
}

/// The call's arguments are not a JSON object.
pub open spec fn args_refused(c: PendingCall) -> bool {
    c.args_buffer@.len() > 0 && json_object_error(c.args_buffer@) is Some
}

/// The arguments a call runs with: `{}` when none arrived.
pub open spec fn args_text(c: PendingCall) -> Seq<char> {
    if c.args_buffer@.len() == 0 {
        "{}"@
    } else {
        c.args_buffer@
    }
}

/// The calls of a turn that run, in order.
pub open spec fn batch_runs(calls: Seq<PendingCall>) -> Seq<PendingCall>
    decreases calls.len(),
{
    if calls.len() == 0 {
        Seq::empty()
    } else {
        let rest = batch_runs(calls.drop_last());
        if dispatchable(calls.last()) && !args_refused(calls.last()) {
            rest.push(calls.last())
        } else {
            rest
        }
    }
}

/// The calls of a turn whose arguments are refused, in order.
pub open spec fn batch_refused(calls: Seq<PendingCall>) -> Seq<PendingCall>
    decreases calls.len(),
{
    if calls.len() == 0 {
        Seq::empty()
    } else {
        let rest = batch_refused(calls.drop_last());
        if dispatchable(calls.last()) && args_refused(calls.last()) {
            rest.push(calls.last())
        } else {
            rest
        }
    }
}

/// `a` reports that the arguments of `c` were refused, with serde's message.
pub open spec fn refused_event(c: PendingCall, a: DriverAction) -> bool {
    match a {
        DriverAction::Emit(RealtimeEvent::ToolCallFailed { call_id, name, error }) => call_id@
            == c.call_id@ && name@ == c.name@ && json_object_error(c.args_buffer@) == Some(error@),
        _ => false,
    }
}

/// `a` reports that `c` is dispatched with its arguments.
pub open spec fn dispatched_event(c: PendingCall, a: DriverAction) -> bool {
    match a {
        DriverAction::Emit(RealtimeEvent::ToolCallDispatched { call_id, name, args }) => call_id@
            == c.call_id@ && name@ == c.name@ && args@ == args_text(c),
        _ => false,
    }
}

/// `e` runs `c`.
pub open spec fn execution_of(c: PendingCall, e: ToolCallExecution) -> bool {
    e.id@ == c.call_id@ && e.name@ == c.name@ && e.args@ == args_text(c)
}

/// The turn `t` ended: its completion is reported, refused calls are
/// reported, the runnable ones are reported as dispatched and handed over
/// to run, in order.
pub open spec fn batch_planned(t: TurnState, usage: Option<UsageFields>, out: Seq<DriverAction>) -> bool {
    let runs = batch_runs(t.calls@);
    let refused = batch_refused(t.calls@);
    let nf = refused.len() as int;
    let nr = runs.len() as int;
    &&& out.len() == 1 + nf + nr + if nr > 0 { 1int } else { 0int }
    &&& out[0] == DriverAction::Emit(
        RealtimeEvent::AssistantTurnCompleted { turn_id: t.turn_id, usage: usage_of(usage) },
    )
    &&& forall|j: int| 0 <= j < nf ==> refused_event(refused[j], #[trigger] out[1 + j])
    &&& forall|j: int| 0 <= j < nr ==> dispatched_event(runs[j], #[trigger] out[1 + nf + j])
    &&& nr > 0 ==> match out[1 + nf + nr] {
        DriverAction::RunTools { executions, cancelled } => {
            &&& cancelled == t.cancelled
            &&& executions@.len() == nr
            &&& forall|j: int| 0 <= j < nr ==> execution_of(runs[j], #[trigger] executions@[j])
        },
        _ => false,
    }
}

/// `response.done` ends the current turn. For the turn's own response the
/// batch is planned; while tools run the turn's id and cancelled flag are
/// kept, and with nothing to run the response is over.
pub open spec fn response_done_post(
    old: SessionDriver,
    response_id: Option<String>,
    usage: Option<UsageFields>,
    new: SessionDriver,
    out: Seq<DriverAction>,
) -> bool {
    match old.current_turn {
        None => silent(old, new, out),
        Some(t) => {
            let dropped = SessionDriver { current_turn: None, ..old };
            match response_id {
                None => new == dropped && out.len() == 0,
                Some(rid) => if t.turn_id@ != rid@ {
                    new == dropped && out.len() == 0
                } else {
                    &&& batch_planned(t, usage, out)
                    &&& new.current_turn is None
                    &&& new.on_interrupt == old.on_interrupt
                    &&& if batch_runs(t.calls@).len() > 0 {
                        new.pending_batch == Some((t.turn_id, t.cancelled))
                            && new.current_response_id == old.current_response_id
                    } else {
                        new.pending_batch == old.pending_batch && new.current_response_id is None
                    }
                },
            }
        },
    }
}

/// The outcomes that succeeded, in order.
pub open spec fn completed_only(outcomes: Seq<ToolCallOutcome>) -> Seq<ToolCallOutcome>
    decreases outcomes.len(),
{
    if outcomes.len() == 0 {
        Seq::empty()
    } else {
        let rest = completed_only(outcomes.drop_last());
        if outcomes.last().ok {
            rest.push(outcomes.last())
        } else {
            rest
        }
    }
}

/// The outcomes sent back to the server: all of them, unless the turn was
/// interrupted, when the policy decides.
pub open spec fn submitted(
    outcomes: Seq<ToolCallOutcome>,
    cancelled: bool,
    policy: InterruptOutputPolicy,
) -> Seq<ToolCallOutcome> {
    if !cancelled {
        outcomes
    } else {
        match policy {
            InterruptOutputPolicy::Drop => Seq::empty(),
            InterruptOutputPolicy::Submit => outcomes,
            InterruptOutputPolicy::SubmitCompletedOnly => completed_only(outcomes),
        }
    }
}

/// The JSON text of an outcome's result, `null` when there is none.
pub open spec fn result_text(o: ToolCallOutcome) -> Seq<char> {
    match o.result {
        Some(r) => r@,
        None => "null"@,
    }
}

/// The error text of an outcome, empty when there is none.
pub open spec fn outcome_error(o: ToolCallOutcome) -> Seq<char> {
    match o.error {
        Some(e) => e@,
        None => Seq::empty(),
    }
}

/// `a` reports the outcome `o`.
pub open spec fn outcome_event(o: ToolCallOutcome, a: DriverAction) -> bool {
    if o.ok {
        match a {
            DriverAction::Emit(RealtimeEvent::ToolCallCompleted { call_id, name, result }) => call_id@
                == o.id@ && name@ == o.name@ && result@ == result_text(o),
            _ => false,
        }
    } else {
        match a {
            DriverAction::Emit(RealtimeEvent::ToolCallFailed { call_id, name, error }) => call_id@
                == o.id@ && name@ == o.name@ && error@ == outcome_error(o),
            _ => false,
        }
    }
}

/// `a` sends the outcome `o` to the server.
pub open spec fn output_message(o: ToolCallOutcome, a: DriverAction) -> bool {
    match a {
        DriverAction::Send(ClientMessage::FunctionCallOutput { call_id, ok, output }) => call_id@
            == o.id@ && ok == o.ok && output@ == if o.ok {
            result_text(o)
        } else {
            outcome_error(o)
        },
        _ => false,
    }
}

/// The batch of the turn `turn_id` finished with `outcomes`: each outcome is
/// reported, the submitted ones are sent back in order, and when any was
/// sent the submission is reported and a new response requested. The
/// response is over.
pub open spec fn batch_finished(
    old: SessionDriver,
    outcomes: Seq<ToolCallOutcome>,
    new: SessionDriver,
    out: Seq<DriverAction>,
) -> bool {
    match old.pending_batch {
        None => false,
        Some(b) => {
            let subs = submitted(outcomes, b.1, old.on_interrupt);
            let n = outcomes.len() as int;
            let m = subs.len() as int;
            &&& new.pending_batch is None
            &&& new.current_response_id is None
            &&& new.current_turn == old.current_turn
            &&& new.on_interrupt == old.on_interrupt
            &&& out.len() == n + m + if m > 0 { 2int } else { 0int }
            &&& forall|j: int| 0 <= j < n ==> outcome_event(outcomes[j], #[trigger] out[j])
            &&& forall|j: int| 0 <= j < m ==> output_message(subs[j], #[trigger] out[n + j])
            &&& m > 0 ==> {
                &&& match out[n + m] {
                    DriverAction::Emit(RealtimeEvent::ToolBatchSubmitted { turn_id, call_ids }) => {
                        &&& turn_id == b.0
                        &&& call_ids@.len() == m
                        &&& forall|j: int| 0 <= j < m ==> (#[trigger] call_ids@[j])@ == subs[j].id@
                    },
                    _ => false,
                }
                &&& out[n + m + 1] == DriverAction::Send(ClientMessage::ResponseCreate)
            }
        },
    }
}

fn token_usage(usage: Option<UsageFields>) -> (u: Option<TokenUsage>)
    ensures
        u == usage_of(usage),
{
    match usage {
        None => None,
        Some(f) => Some(
            TokenUsage {
                prompt_tokens: match f.input_tokens {
                    Some(n) => Some(n as u32),
                    None => None,
                },
                completion_tokens: match f.output_tokens {
                    Some(n) => Some(n as u32),
                    None => None,
                },
                total_tokens: match f.total_tokens {
                    Some(n) => Some(n as u32),
                    None => None,
                },
            },
        ),
    }
}

fn outcomes_completed_only(outcomes: &Vec<ToolCallOutcome>) -> (r: Vec<ToolCallOutcome>)
    ensures
        r@ == completed_only(outcomes@),
{
    let mut r: Vec<ToolCallOutcome> = Vec::new();
    let mut k: usize = 0;
    while k < outcomes.len()
        invariant
            k <= outcomes@.len(),
            r@ == completed_only(outcomes@.take(k as int)),
        decreases outcomes@.len() - k,
    {
        assert(outcomes@.take(k + 1).drop_last() =~= outcomes@.take(k as int));
        if outcomes[k].ok {
            r.push(copy_outcome(&outcomes[k]));
        }
        k = k + 1;
    }
    assert(outcomes@.take(outcomes@.len() as int) =~= outcomes@);
    r
}

impl SessionDriver {
    fn response_done(&mut self, response_id: Option<String>, usage: Option<UsageFields>) -> (out: Vec<
        DriverAction,
    >)
        requires
            old(self).wf(),
        ensures
            final(self).wf(),
            response_done_post(*old(self), response_id, usage, *final(self), out@),
    {
        let taken = self.current_turn.take();
        let turn = match taken {
            None => {
                return Vec::new();
            },
            Some(turn) => turn,
        };
        let rid = match response_id {
            None => {
                return Vec::new();
            },
            Some(rid) => rid,
        };
        if !str_eq(turn.turn_id.as_str(), rid.as_str()) {
            return Vec::new();
        }
        let mut out: Vec<DriverAction> = Vec::new();
        out.push(
            DriverAction::Emit(
                RealtimeEvent::AssistantTurnCompleted {
                    turn_id: turn.turn_id.clone(),
                    usage: token_usage(usage),
                },
            ),
        );
        let ghost first = out@[0];
        let mut execs: Vec<ToolCallExecution> = Vec::new();
        let mut k: usize = 0;
        while k < turn.calls.len()
            invariant
                k <= turn.calls@.len(),
                out@.len() == 1 + batch_refused(turn.calls@.take(k as int)).len(),
                out@[0] == first,
                forall|j: int|
                    0 <= j < batch_refused(turn.calls@.take(k as int)).len() ==> refused_event(
                        batch_refused(turn.calls@.take(k as int))[j],
                        #[trigger] out@[1 + j],
                    ),
                execs@.len() == batch_runs(turn.calls@.take(k as int)).len(),
                forall|j: int|
                    0 <= j < execs@.len() ==> execution_of(
                        batch_runs(turn.calls@.take(k as int))[j],
                        #[trigger] execs@[j],
                    ),
            decreases turn.calls@.len() - k,
        {
            let ghost prev = turn.calls@.take(k as int);
            assert(turn.calls@.take(k + 1).drop_last() =~= prev);
            assert(turn.calls@.take(k + 1).last() == turn.calls@[k as int]);
            let call = &turn.calls[k];
            if call.done || call.args_buffer.unicode_len() > 0 {
                if call.args_buffer.unicode_len() == 0 {
                    execs.push(
                        ToolCallExecution {
                            id: call.call_id.clone(),
                            name: call.name.clone(),
                            args: String::from_str("{}"),
                        },
                    );
                } else {
                    match check_json_object(call.args_buffer.as_str()) {
                        Some(msg) => {
                            out.push(
                                DriverAction::Emit(
                                    RealtimeEvent::ToolCallFailed {
                                        call_id: call.call_id.clone(),
                                        name: call.name.clone(),
                                        error: msg,
                                    },
                                ),
                            );
                        },
                        None => {
                            execs.push(
                                ToolCallExecution {
                                    id: call.call_id.clone(),
                                    name: call.name.clone(),
                                    args: call.args_buffer.clone(),
                                },
                            );
                        },
                    }
                }
            }
            k = k + 1;
        }
        assert(turn.calls@.take(turn.calls@.len() as int) =~= turn.calls@);
        let ghost nf = out@.len() - 1;
        let mut m: usize = 0;
        while m < execs.len()
            invariant
                m <= execs@.len(),
                out@.len() == 1 + nf + m,
                out@[0] == first,
                forall|j: int|
                    0 <= j < nf ==> refused_event(
                        batch_refused(turn.calls@)[j],
                        #[trigger] out@[1 + j],
                    ),
                nf == batch_refused(turn.calls@).len(),
                execs@.len() == batch_runs(turn.calls@).len(),
                forall|j: int|
                    0 <= j < execs@.len() ==> execution_of(
                        batch_runs(turn.calls@)[j],
                        #[trigger] execs@[j],
                    ),
                forall|j: int|
                    0 <= j < m ==> dispatched_event(
                        batch_runs(turn.calls@)[j],
                        #[trigger] out@[1 + nf + j],
                    ),
            decreases execs@.len() - m,
        {
            let e = &execs[m];
            out.push(
                DriverAction::Emit(
                    RealtimeEvent::ToolCallDispatched {
                        call_id: e.id.clone(),
                        name: e.name.clone(),
                        args: e.args.clone(),
                    },
                ),
            );
            m = m + 1;
        }
        if execs.len() > 0 {
            let cancelled = turn.cancelled;
            out.push(DriverAction::RunTools { executions: execs, cancelled });
            self.pending_batch = Some((turn.turn_id, cancelled));
        } else {
            self.current_response_id = None;
        }
        out
    }

    /// Takes the outcomes of the running batch, in the order of its calls:
    /// each is reported, the ones the interrupt policy lets through are sent
    /// back, and a new response is requested when any was.
    pub fn finish_tool_batch(&mut self, outcomes: Vec<ToolCallOutcome>) -> (out: Vec<DriverAction>)
        requires
            old(self).pending_batch is Some,
        ensures
            batch_finished(*old(self), outcomes@, *final(self), out@),
            final(self).wf() == old(self).wf(),
    {
        let (turn_id, cancelled) = match self.pending_batch.take() {
            Some(b) => b,
            None => {
                return Vec::new();
            },
        };
        self.current_response_id = None;
        let mut out: Vec<DriverAction> = Vec::new();
        let mut k: usize = 0;
        while k < outcomes.len()
            invariant
                k <= outcomes@.len(),
                out@.len() == k,
                forall|j: int| 0 <= j < k ==> outcome_event(outcomes@[j], #[trigger] out@[j]),
            decreases outcomes@.len() - k,
        {
            let o = &outcomes[k];
            if o.ok {
                let result = match &o.result {
                    Some(r) => r.clone(),
                    None => String::from_str("null"),
                };
                out.push(
                    DriverAction::Emit(
                        RealtimeEvent::ToolCallCompleted {
                            call_id: o.id.clone(),
                            name: o.name.clone(),
                            result,
                        },
                    ),
                );
            } else {
                let error = match &o.error {
                    Some(e) => e.clone(),
                    None => String::new(),
                };
                out.push(
                    DriverAction::Emit(
                        RealtimeEvent::ToolCallFailed {
                            call_id: o.id.clone(),
                            name: o.name.clone(),
                            error,
                        },
                    ),
                );
            }
            k = k + 1;
        }
        let ghost outs = outcomes@;
        let subs: Vec<ToolCallOutcome> = if !cancelled {
            outcomes
        } else {
            match self.on_interrupt {
                InterruptOutputPolicy::Drop => Vec::new(),
                InterruptOutputPolicy::Submit => outcomes,
                InterruptOutputPolicy::SubmitCompletedOnly => outcomes_completed_only(&outcomes),
            }
        };
        proof {
            assert(subs@ =~= submitted(outs, cancelled, self.on_interrupt));
        }
        let ghost n = outs.len();
        let mut ids: Vec<String> = Vec::new();
        let mut m: usize = 0;
        while m < subs.len()
            invariant
                m <= subs@.len(),
                out@.len() == n + m,
                ids@.len() == m,
                n == outs.len(),
                forall|j: int| 0 <= j < n ==> outcome_event(outs[j], #[trigger] out@[j]),
                forall|j: int| 0 <= j < m ==> output_message(subs@[j], #[trigger] out@[n + j]),
                forall|j: int| 0 <= j < m ==> (#[trigger] ids@[j])@ == subs@[j].id@,
            decreases subs@.len() - m,
        {
            let o = &subs[m];
            let output = if o.ok {
                match &o.result {
                    Some(r) => r.clone(),
                    None => String::from_str("null"),
                }
            } else {
                match &o.error {
                    Some(e) => e.clone(),
                    None => String::new(),
                }
            };
            out.push(
                DriverAction::Send(
                    ClientMessage::FunctionCallOutput { call_id: o.id.clone(), ok: o.ok, output },
                ),
            );
            ids.push(o.id.clone());
            m = m + 1;
        }
        if ids.len() > 0 {
            out.push(DriverAction::Emit(RealtimeEvent::ToolBatchSubmitted { turn_id, call_ids: ids }));
            out.push(DriverAction::Send(ClientMessage::ResponseCreate));
        }
        out
    }
}


/// Either of two event types.
pub open spec fn type_either(t: Seq<char>, a: Seq<char>, b: Seq<char>) -> bool {
    t == a || t == b
}

/// What a server event does, by its type; events without a type, or of a
/// type the session does not follow, do nothing.
pub open spec fn handled(
    old: SessionDriver,
    ev: ServerEventFields,
    new: SessionDriver,
    out: Seq<DriverAction>,
) -> bool {
    match ev.event_type {
        None => silent(old, new, out),
        Some(ty) => {
            let t = ty@;
            if t == "session.created"@ {
                silent(old, new, out)
            } else if t == "session.updated"@ {
                new == old && out == seq![DriverAction::Emit(RealtimeEvent::SessionUpdated)]
            } else if t == "input_audio_buffer.speech_started"@ {
                speech_started_post(old, ev.audio_start_ms, new, out)
            } else if t == "input_audio_buffer.speech_stopped"@ {
                new == old && out == seq![
                    DriverAction::Emit(
                        RealtimeEvent::UserSpeechStopped { at_ms: or_zero(ev.audio_end_ms) },
                    ),
                ]
            } else if t == "conversation.item.input_audio_transcription.delta"@ {
                user_delta_post(old, ev.item_id, ev.delta, new, out)
            } else if t == "conversation.item.input_audio_transcription.completed"@ {
                user_transcript_post(old, ev.item_id, ev.transcript, new, out)
            } else if t == "response.created"@ {
                response_created_post(old, ev.response_id, new, out)
            } else if t == "response.output_item.added"@ {
                item_added_post(old, ev.item, new, out)
            } else if t == "response.function_call_arguments.delta"@ {
                args_delta_post(old, ev.call_id, ev.delta, new, out)
            } else if t == "response.function_call_arguments.done"@ {
                args_done_post(old, ev.call_id, ev.arguments, new, out)
            } else if type_either(t, "response.text.delta"@, "response.output_text.delta"@) {
                assistant_output_post(old, AssistantOutput::TextDelta, ev.delta, new, out)
            } else if type_either(t, "response.text.done"@, "response.output_text.done"@) {
                assistant_output_post(old, AssistantOutput::Text, ev.text, new, out)
            } else if type_either(
                t,
                "response.audio_transcript.delta"@,
                "response.output_audio_transcript.delta"@,
            ) {
                assistant_output_post(old, AssistantOutput::TranscriptDelta, ev.delta, new, out)
            } else if type_either(
                t,
                "response.audio_transcript.done"@,
                "response.output_audio_transcript.done"@,
            ) {
                assistant_output_post(old, AssistantOutput::Transcript, ev.transcript, new, out)
            } else if type_either(t, "response.audio.delta"@, "response.output_audio.delta"@) {
                audio_post(old, ev.delta, new, out)
            } else if t == "response.done"@ {
                response_done_post(old, ev.response_id, ev.usage, new, out)
            } else if t == "rate_limits.updated"@ {
                new == old && out == seq![DriverAction::Emit(RealtimeEvent::RateLimited { reset_ms: 0 })]
            } else if t == "error"@ {
                error_post(old, ev.error_message, new, out)
            } else {
                silent(old, new, out)
            }
        },
    }
}

impl SessionDriver {
    /// Handles one server event, as `handled` says. Not called while a tool
    /// batch runs: the session waits for its outcomes first.
    pub fn handle_server_event(&mut self, ev: ServerEventFields) -> (out: Vec<DriverAction>)
        requires
            old(self).wf(),
            old(self).pending_batch is None,
        ensures
            final(self).wf(),
            handled(*old(self), ev, *final(self), out@),
    {
        let ServerEventFields {
            event_type,
            audio_start_ms,
            audio_end_ms,
            item_id,
            delta,
            transcript,
            text,
            response_id,
            item,
            call_id,
            arguments,
            usage,
            error_message,
        } = ev;
        let ty = match event_type {
            None => {
                return Vec::new();
            },
            Some(ty) => ty,
        };
        let t = ty.as_str();
        if str_eq(t, "session.created") {
            Vec::new()
        } else if str_eq(t, "session.updated") {
            let out = vec![DriverAction::Emit(RealtimeEvent::SessionUpdated)];
            assert(out@ =~= seq![DriverAction::Emit(RealtimeEvent::SessionUpdated)]);
            out
        } else if str_eq(t, "input_audio_buffer.speech_started") {
            self.speech_started(audio_start_ms)
        } else if str_eq(t, "input_audio_buffer.speech_stopped") {
            let at_ms: u64 = match audio_end_ms {
                Some(n) => n,
                None => 0,
            };
            let out = vec![DriverAction::Emit(RealtimeEvent::UserSpeechStopped { at_ms })];
            assert(out@ =~= seq![DriverAction::Emit(RealtimeEvent::UserSpeechStopped { at_ms })]);
            out
        } else if str_eq(t, "conversation.item.input_audio_transcription.delta") {
            match (item_id, delta) {
                (Some(i), Some(d)) => {
                    let e = RealtimeEvent::UserTranscriptDelta { item_id: i, delta: d };
                    let out = vec![DriverAction::Emit(e)];
                    assert(out@ =~= seq![DriverAction::Emit(e)]);
                    out
                },
                _ => Vec::new(),
            }
        } else if str_eq(t, "conversation.item.input_audio_transcription.completed") {
            match (item_id, transcript) {
                (Some(i), Some(tr)) => {
                    let e = RealtimeEvent::UserTranscript { item_id: i, text: tr };
                    let out = vec![DriverAction::Emit(e)];
                    assert(out@ =~= seq![DriverAction::Emit(e)]);
                    out
                },
                _ => Vec::new(),
            }
        } else if str_eq(t, "response.created") {
            self.start_response(response_id)
        } else if str_eq(t, "response.output_item.added") {
            self.add_output_item(item)
        } else if str_eq(t, "response.function_call_arguments.delta") {
            self.fn_args_delta(call_id, delta)
        } else if str_eq(t, "response.function_call_arguments.done") {
            self.fn_args_done(call_id, arguments)
        } else if str_eq(t, "response.text.delta") || str_eq(t, "response.output_text.delta") {
            self.assistant_output(AssistantOutput::TextDelta, delta)
        } else if str_eq(t, "response.text.done") || str_eq(t, "response.output_text.done") {
            self.assistant_output(AssistantOutput::Text, text)
        } else if str_eq(t, "response.audio_transcript.delta") || str_eq(
            t,
            "response.output_audio_transcript.delta",
        ) {
            self.assistant_output(AssistantOutput::TranscriptDelta, delta)
        } else if str_eq(t, "response.audio_transcript.done") || str_eq(
            t,
            "response.output_audio_transcript.done",
        ) {
            self.assistant_output(AssistantOutput::Transcript, transcript)
        } else if str_eq(t, "response.audio.delta") || str_eq(t, "response.output_audio.delta") {
            self.audio_delta(delta)
        } else if str_eq(t, "response.done") {
            self.response_done(response_id, usage)
        } else if str_eq(t, "rate_limits.updated") {
            let out = vec![DriverAction::Emit(RealtimeEvent::RateLimited { reset_ms: 0 })];
            assert(out@ =~= seq![DriverAction::Emit(RealtimeEvent::RateLimited { reset_ms: 0 })]);
            out
        } else if str_eq(t, "error") {
            self.server_error(error_message)
        } else {
            Vec::new()
        }
    }
}


/// A turn is interrupted at most once: cancelling again changes nothing and
/// reports nothing.
pub proof fn lemma_cancel_once(s: SessionDriver, first: InterruptReason, second: InterruptReason)
    ensures
        cancel_state(cancel_state(s)) == cancel_state(s),
        cancel_actions(cancel_state(s), second).len() == 0,
        cancel_actions(s, first).len() <= 2,
{
}

/// Every outcome that succeeded is kept by `completed_only`, in order, and
/// nothing else is.
pub proof fn lemma_completed_only(outcomes: Seq<ToolCallOutcome>)
    ensures
        forall|j: int| 0 <= j < completed_only(outcomes).len() ==> (#[trigger] completed_only(outcomes)[j]).ok,
        completed_only(outcomes).len() <= outcomes.len(),
        (forall|j: int| 0 <= j < outcomes.len() ==> (#[trigger] outcomes[j]).ok) ==> completed_only(outcomes)
            == outcomes,
    decreases outcomes.len(),
{
    if outcomes.len() > 0 {
        lemma_completed_only(outcomes.drop_last());
        if forall|j: int| 0 <= j < outcomes.len() ==> (#[trigger] outcomes[j]).ok {
            assert forall|j: int| 0 <= j < outcomes.drop_last().len() implies (
            #[trigger] outcomes.drop_last()[j]).ok by {
                assert(outcomes.drop_last()[j] == outcomes[j]);
            }
            assert(outcomes.drop_last().push(outcomes.last()) =~= outcomes);
        }
    }
}

/// What goes back to the server after a batch: everything when the turn
/// was not interrupted; after an interruption nothing under `Drop`,
/// everything under `Submit`, and only successes under
/// `SubmitCompletedOnly`.
pub proof fn lemma_submission_policy(outcomes: Seq<ToolCallOutcome>, cancelled: bool, policy: InterruptOutputPolicy)
    ensures
        !cancelled ==> submitted(outcomes, cancelled, policy) == outcomes,
        cancelled && policy == InterruptOutputPolicy::Drop ==> submitted(outcomes, cancelled, policy).len() == 0,
        cancelled && policy == InterruptOutputPolicy::Submit ==> submitted(outcomes, cancelled, policy) == outcomes,
        cancelled && policy == InterruptOutputPolicy::SubmitCompletedOnly ==> forall|j: int|
            0 <= j < submitted(outcomes, cancelled, policy).len() ==> (#[trigger] submitted(
                outcomes,
                cancelled,
                policy,
            )[j]).ok,
{
    lemma_completed_only(outcomes);
}

/// Every call that joins a batch either runs or is refused, never both; the
/// rest are left out.
pub proof fn lemma_batch_partition(calls: Seq<PendingCall>)
    ensures
        batch_runs(calls).len() + batch_refused(calls).len() <= calls.len(),
        forall|j: int| 0 <= j < batch_runs(calls).len() ==> dispatchable(#[trigger] batch_runs(calls)[j]) && !args_refused(batch_runs(calls)[j]),
        forall|j: int| 0 <= j < batch_refused(calls).len() ==> dispatchable(#[trigger] batch_refused(calls)[j]) && args_refused(batch_refused(calls)[j]),
    decreases calls.len(),
{
    if calls.len() > 0 {
        lemma_batch_partition(calls.drop_last());
    }
}

/// A count of the event, cut to 32 bits.
pub open spec fn count_u32(n: Option<u64>) -> Option<u32> {
    match n {
        Some(k) => Some(k as u32),
        None => None,
    }
}

/// When `response.done` completes the current turn, the turn's completion is
/// reported first, and the usage it carries takes its prompt count from the
/// event's input tokens, its completion count from the event's output tokens
/// and its total from the event's total tokens (each cut to 32 bits); an
/// event without usage reports none.
pub proof fn lemma_turn_completion_usage(
    old: SessionDriver,
    response_id: Option<String>,
    usage: Option<UsageFields>,
    new: SessionDriver,
    out: Seq<DriverAction>,
)
    requires
        response_done_post(old, response_id, usage, new, out),
        old.current_turn matches Some(t) && response_id matches Some(rid) && t.turn_id@ == rid@,
    ensures
        out.len() >= 1,
        out[0] matches DriverAction::Emit(RealtimeEvent::AssistantTurnCompleted { turn_id, usage: reported }) && {
            &&& turn_id@ == response_id->0@
            &&& match usage {
                None => reported is None,
                Some(f) => reported matches Some(u) && u.prompt_tokens == count_u32(f.input_tokens)
                    && u.completion_tokens == count_u32(f.output_tokens) && u.total_tokens == count_u32(
                    f.total_tokens,
                ),
            }
        },
{
}

/// Handling a `response.done` event for the current turn reports the turn's
/// completion first, with the usage the event carries: prompt tokens from its
/// input tokens, completion tokens from its output tokens, total from its
/// total tokens (each cut to 32 bits), or none when the event has no usage.
pub proof fn lemma_response_done_usage(
    old: SessionDriver,
    ev: ServerEventFields,
    new: SessionDriver,
    out: Seq<DriverAction>,
)
    requires
        handled(old, ev, new, out),
        ev.event_type matches Some(ty) && ty@ == "response.done"@,
        old.current_turn matches Some(t) && ev.response_id matches Some(rid) && t.turn_id@ == rid@,
    ensures
        out.len() >= 1,
        out[0] matches DriverAction::Emit(RealtimeEvent::AssistantTurnCompleted { turn_id, usage: reported }) && {
            &&& turn_id@ == ev.response_id->0@
            &&& match ev.usage {
                None => reported is None,
                Some(f) => reported matches Some(u) && u.prompt_tokens == count_u32(f.input_tokens)
                    && u.completion_tokens == count_u32(f.output_tokens) && u.total_tokens == count_u32(
                    f.total_tokens,
                ),
            }
        },
{
    reveal_strlit("session.created");
    reveal_strlit("session.updated");
    reveal_strlit("input_audio_buffer.speech_started");
    reveal_strlit("input_audio_buffer.speech_stopped");
    reveal_strlit("conversation.item.input_audio_transcription.delta");
    reveal_strlit("conversation.item.input_audio_transcription.completed");
    reveal_strlit("response.created");
    reveal_strlit("response.output_item.added");
    reveal_strlit("response.function_call_arguments.delta");
    reveal_strlit("response.function_call_arguments.done");
    reveal_strlit("response.text.delta");
    reveal_strlit("response.output_text.delta");
    reveal_strlit("response.text.done");
    reveal_strlit("response.output_text.done");
    reveal_strlit("response.audio_transcript.delta");
    reveal_strlit("response.output_audio_transcript.delta");
    reveal_strlit("response.audio_transcript.done");
    reveal_strlit("response.output_audio_transcript.done");
    reveal_strlit("response.audio.delta");
    reveal_strlit("response.output_audio.delta");
    reveal_strlit("response.done");
    let t = ev.event_type->0@;
    assert(t.len() == 13);
    assert(t != "session.created"@);
    assert(t != "session.updated"@);
    assert(t != "input_audio_buffer.speech_started"@);
    assert(t != "input_audio_buffer.speech_stopped"@);
    assert(t != "conversation.item.input_audio_transcription.delta"@);
    assert(t != "conversation.item.input_audio_transcription.completed"@);
    assert(t != "response.created"@);
    assert(t != "response.output_item.added"@);
    assert(t != "response.function_call_arguments.delta"@);
    assert(t != "response.function_call_arguments.done"@);
    assert(t != "response.text.delta"@);
    assert(t != "response.output_text.delta"@);
    assert(t != "response.text.done"@);
    assert(t != "response.output_text.done"@);
    assert(t != "response.audio_transcript.delta"@);
    assert(t != "response.output_audio_transcript.delta"@);
    assert(t != "response.audio_transcript.done"@);
    assert(t != "response.output_audio_transcript.done"@);
    assert(t != "response.audio.delta"@);
    assert(t != "response.output_audio.delta"@);
    lemma_turn_completion_usage(old, ev.response_id, ev.usage, new, out);
}

} // verus!
