//! Single-turn streaming with terminal completion evidence.
//!
//! A driver reads the lines of one provider stream and turns them into
//! events: visible content, then exactly one terminal event, `Completed`
//! when the provider reported a clean stop or `Error` otherwise. Nothing
//! follows the terminal event. Content yielded before an error is evidence
//! of what the provider sent, not a result.
//!
//! Sending the request and reading the response body are the caller's: it
//! hands the driver each complete line (see `line_buffer`), the HTTP status
//! of a refused request, a transport failure, or the end of the body.
use vstd::prelude::*;
use vstd::string::{StrSliceExecFns, StringExecFns};
use crate::stream_assembly::opt_view;
use serde_json::Value;
use crate::text::{chars_of, string_from_chars, trim_chars, is_whitespace, is_ws, occurs_at, trim_ws, trim_start_ws};

verus! {

/// What a provider reported about how a response ended.
#[derive(Debug, Clone, PartialEq)]
pub struct ResponseEvidence {
    /// The provider's finish reason, such as `stop` or `length`.
    pub finish_reason: Option<String>,
    /// The model the provider says answered.
    pub provider_model: Option<String>,
    /// The usage the provider reported, as JSON text.
    pub usage: Option<String>,
    /// Other provider metadata: each key with its value as JSON text.
    pub metadata: Vec<(String, String)>,
}

/// The content of evidence.
pub struct EvidenceView {
    pub finish_reason: Option<Seq<char>>,
    pub provider_model: Option<Seq<char>>,
    pub usage: Option<Seq<char>>,
    pub metadata: Seq<(Seq<char>, Seq<char>)>,
}

pub open spec fn pairs_view(v: Seq<(String, String)>) -> Seq<(Seq<char>, Seq<char>)> {
    v.map_values(|p: (String, String)| (p.0@, p.1@))
}

pub open spec fn evidence_view(e: ResponseEvidence) -> EvidenceView {
    EvidenceView {
        finish_reason: opt_view(e.finish_reason),
        provider_model: opt_view(e.provider_model),
        usage: opt_view(e.usage),
        metadata: pairs_view(e.metadata@),
    }
}

/// Evidence that holds nothing.
pub open spec fn empty_evidence() -> EvidenceView {
    EvidenceView { finish_reason: None, provider_model: None, usage: None, metadata: Seq::empty() }
}

impl Default for ResponseEvidence {
    fn default() -> (e: Self)
        ensures
            evidence_view(e) == empty_evidence(),
    {
        let e = ResponseEvidence { finish_reason: None, provider_model: None, usage: None, metadata: Vec::new() };
        assert(pairs_view(e.metadata@) =~= Seq::empty());
        e
    }
}

/// Why a single-turn event stream ended without a completed response.
#[derive(Debug)]
pub enum StreamEventError {
    /// The provider finished for a reason other than `stop`, for example `length`.
    IncompleteCompletion(Box<ResponseEvidence>),
    /// The stream ended without the provider's terminal marker; carries the
    /// evidence that arrived before the end, when any did.
    IncompleteStream(Option<Box<ResponseEvidence>>),
    /// The provider reported an error, as an error frame in the stream
    /// (`status` is `None`) or as a non-success HTTP status; `error` is the
    /// provider's error value as JSON text.
    ProviderError { status: Option<u16>, error: String },
    /// The provider streamed a native tool call; this API supplies no tools.
    UnexpectedToolCalls,
    /// A frame could not be read as a provider stream event.
    InvalidStreamEvent(String),
    /// The gateway does not implement the events API. No request was sent.
    StreamEventsUnsupported,
    /// Building the request, connecting, or reading the response body failed.
    RequestFailed(String),
}

/// One event in a single-turn event stream.
#[derive(Debug)]
pub enum StreamEvent {
    /// Visible assistant content, in the order the provider sent it.
    Content(String),
    /// Terminal success: the provider finished with `stop`.
    Completed(ResponseEvidence),
    /// Terminal failure.
    Error(StreamEventError),
}

/// The content of a stream error.
pub enum ErrorView {
    IncompleteCompletion(EvidenceView),
    IncompleteStream(Option<EvidenceView>),
    ProviderError(Option<u16>, Seq<char>),
    UnexpectedToolCalls,
    InvalidStreamEvent(Seq<char>),
    StreamEventsUnsupported,
    RequestFailed(Seq<char>),
}

/// The content of an event.
pub enum EventView {
    Content(Seq<char>),
    Completed(EvidenceView),
    Error(ErrorView),
}

pub open spec fn error_view(e: StreamEventError) -> ErrorView {
    match e {
        StreamEventError::IncompleteCompletion(b) => ErrorView::IncompleteCompletion(evidence_view(*b)),
        StreamEventError::IncompleteStream(o) => ErrorView::IncompleteStream(
            match o {
                Some(b) => Some(evidence_view(*b)),
                None => None,
            },
        ),
        StreamEventError::ProviderError { status, error } => ErrorView::ProviderError(status, error@),
        StreamEventError::UnexpectedToolCalls => ErrorView::UnexpectedToolCalls,
        StreamEventError::InvalidStreamEvent(m) => ErrorView::InvalidStreamEvent(m@),
        StreamEventError::StreamEventsUnsupported => ErrorView::StreamEventsUnsupported,
        StreamEventError::RequestFailed(m) => ErrorView::RequestFailed(m@),
    }
}

pub open spec fn event_view(e: StreamEvent) -> EventView {
    match e {
        StreamEvent::Content(s) => EventView::Content(s@),
        StreamEvent::Completed(ev) => EventView::Completed(evidence_view(ev)),
        StreamEvent::Error(err) => EventView::Error(error_view(err)),
    }
}

pub open spec fn events_view(v: Seq<StreamEvent>) -> Seq<EventView> {
    v.map_values(|e: StreamEvent| event_view(e))
}

/// Only content leaves a stream open.
pub open spec fn terminal(e: EventView) -> bool {
    !(e is Content)
}

impl StreamEvent {
    /// Whether this event ends the stream.
    pub fn is_terminal(&self) -> (b: bool)
        ensures
            b == terminal(event_view(*self)),
    {
        match self {
            StreamEvent::Content(_) => false,
            _ => true,
        }
    }
}

/// The finish reason's text, `unknown` when there is none.
pub open spec fn reason_text(r: Option<Seq<char>>) -> Seq<char> {
    match r {
        Some(x) => x,
        None => "unknown"@,
    }
}

/// The HTTP status part of a provider error's message.
pub open spec fn status_text(status: Option<u16>) -> Seq<char> {
    match status {
        Some(code) => " (HTTP "@ + crate::text::decimal(code as nat) + ")"@,
        None => Seq::empty(),
    }
}

/// The message a stream error reads as.
pub open spec fn error_message(e: ErrorView) -> Seq<char> {
    match e {
        ErrorView::IncompleteCompletion(ev) => "incomplete completion (finish reason: "@ + reason_text(
            ev.finish_reason,
        ) + ")"@,
        ErrorView::IncompleteStream(_) => "stream ended without a terminal marker"@,
        ErrorView::ProviderError(status, error) => "provider error"@ + status_text(status) + ": "@ + error,
        ErrorView::UnexpectedToolCalls => "unexpected tool calls in stream"@,
        ErrorView::InvalidStreamEvent(m) => "invalid stream event: "@ + m,
        ErrorView::StreamEventsUnsupported => "stream events are not supported by this gateway"@,
        ErrorView::RequestFailed(m) => "stream request failed: "@ + m,
    }
}

impl StreamEventError {
    /// The error's message.
    pub fn message(&self) -> (s: String)
        ensures
            s@ == error_message(error_view(*self)),
    {
        match self {
            StreamEventError::IncompleteCompletion(ev) => {
                let mut s = String::from_str("incomplete completion (finish reason: ");
                match &ev.finish_reason {
                    Some(r) => s.append(r.as_str()),
                    None => s.append("unknown"),
                }
                s.append(")");
                proof {
                    reveal_strlit("incomplete completion (finish reason: ");
                    reveal_strlit("unknown");
                    reveal_strlit(")");
                }
                s
            },
            StreamEventError::IncompleteStream(_) => String::from_str("stream ended without a terminal marker"),
            StreamEventError::ProviderError { status, error } => {
                let mut s = String::from_str("provider error");
                match status {
                    Some(code) => {
                        s.append(" (HTTP ");
                        s.append(crate::text::decimal_string(*code as u64).as_str());
                        s.append(")");
                    },
                    None => {},
                }
                s.append(": ");
                s.append(error.as_str());
                proof {
                    reveal_strlit("provider error");
                    reveal_strlit(" (HTTP ");
                    reveal_strlit(")");
                    reveal_strlit(": ");
                }
                s
            },
            StreamEventError::UnexpectedToolCalls => String::from_str("unexpected tool calls in stream"),
            StreamEventError::InvalidStreamEvent(m) => {
                let mut s = String::from_str("invalid stream event: ");
                s.append(m.as_str());
                proof {
                    reveal_strlit("invalid stream event: ");
                }
                s
            },
            StreamEventError::StreamEventsUnsupported => String::from_str(
                "stream events are not supported by this gateway",
            ),
            StreamEventError::RequestFailed(m) => {
                let mut s = String::from_str("stream request failed: ");
                s.append(m.as_str());
                proof {
                    reveal_strlit("stream request failed: ");
                }
                s
            },
        }
    }
}

/// A JSON value at a place in a document, as far as the parsers look at it:
/// absent, `null`, a boolean, or a number, string, array or object with its
/// JSON text (a number also with its value when it is a `u64`, a string with
/// its value, an array with its length).
#[derive(Debug)]
pub enum JsonField {
    Absent,
    Null,
    Bool(bool),
    Number(Option<u64>, String),
    Str(String, String),
    Array(usize, String),
    Object(String),
}

pub enum FieldView {
    Absent,
    Null,
    Bool(bool),
    Number(Option<u64>, Seq<char>),
    Str(Seq<char>, Seq<char>),
    Array(usize, Seq<char>),
    Object(Seq<char>),
}

pub open spec fn field_view(f: JsonField) -> FieldView {
    match f {
        JsonField::Absent => FieldView::Absent,
        JsonField::Null => FieldView::Null,
        JsonField::Bool(b) => FieldView::Bool(b),
        JsonField::Number(n, t) => FieldView::Number(n, t@),
        JsonField::Str(s, t) => FieldView::Str(s@, t@),
        JsonField::Array(n, t) => FieldView::Array(n, t@),
        JsonField::Object(t) => FieldView::Object(t@),
    }
}

pub open spec fn texts_view(v: Seq<String>) -> Seq<Seq<char>> {
    v.map_values(|t: String| t@)
}

/// What `serde_json` finds in a JSON document at each JSON pointer: the
/// values, or the parse error's message when the text is not JSON.
pub uninterp spec fn json_fields(text: Seq<char>, pointers: Seq<Seq<char>>) -> Result<Seq<FieldView>, Seq<char>>;

/// Parses the text with `serde_json::from_str` and looks each pointer up
/// with `Value::pointer`, reading what it finds as a `JsonField` (JSON text
/// by `Value`'s `Display`); named `json_fields`. One value per pointer.
#[verifier::external_body]
pub(crate) fn probe_json(text: &str, pointers: &Vec<String>) -> (r: Result<Vec<JsonField>, String>)
    ensures
        json_fields(text@, texts_view(pointers@)) == match r {
            Ok(v) => Ok(v@.map_values(|f: JsonField| field_view(f))),
            Err(e) => Err(e@),
        },
        r matches Ok(v) ==> v@.len() == pointers@.len(),
{
    let v: Value = serde_json::from_str(text).map_err(|e| e.to_string())?;
    Ok(pointers.iter().map(|p| match v.pointer(p) {
        None => JsonField::Absent,
        Some(Value::Null) => JsonField::Null,
        Some(Value::Bool(b)) => JsonField::Bool(*b),
        Some(x @ Value::Number(n)) => JsonField::Number(n.as_u64(), x.to_string()),
        Some(x @ Value::String(s)) => JsonField::Str(s.clone(), x.to_string()),
        Some(x @ Value::Array(a)) => JsonField::Array(a.len(), x.to_string()),
        Some(x @ Value::Object(_)) => JsonField::Object(x.to_string()),
    }).collect())
}

/// The JSON text of a value that is there and not `null`.
pub open spec fn present(f: FieldView) -> Option<Seq<char>> {
    match f {
        FieldView::Absent => None,
        FieldView::Null => None,
        FieldView::Bool(b) => Some(if b { "true"@ } else { "false"@ }),
        FieldView::Number(_, t) => Some(t),
        FieldView::Str(_, t) => Some(t),
        FieldView::Array(_, t) => Some(t),
        FieldView::Object(t) => Some(t),
    }
}

/// A string value.
pub open spec fn as_str(f: FieldView) -> Option<Seq<char>> {
    match f {
        FieldView::Str(s, _) => Some(s),
        _ => None,
    }
}

/// An array with at least one element.
pub open spec fn non_empty_array(f: FieldView) -> bool {
    f matches FieldView::Array(n, _) && n > 0
}

fn present_text(f: &JsonField) -> (r: Option<String>)
    ensures
        opt_view(r) == present(field_view(*f)),
{
    match f {
        JsonField::Absent => None,
        JsonField::Null => None,
        JsonField::Bool(b) => {
            proof {
                reveal_strlit("true");
                reveal_strlit("false");
            }
            Some(String::from_str(if *b { "true" } else { "false" }))
        },
        JsonField::Number(_, t) => Some(t.clone()),
        JsonField::Str(_, t) => Some(t.clone()),
        JsonField::Array(_, t) => Some(t.clone()),
        JsonField::Object(t) => Some(t.clone()),
    }
}

pub(crate) fn str_value(f: &JsonField) -> (r: Option<String>)
    ensures
        opt_view(r) == as_str(field_view(*f)),
{
    match f {
        JsonField::Str(s, _) => Some(s.clone()),
        _ => None,
    }
}

fn is_non_empty_array(f: &JsonField) -> (b: bool)
    ensures
        b == non_empty_array(field_view(*f)),
{
    match f {
        JsonField::Array(n, _) => *n > 0,
        _ => false,
    }
}

fn copy_opt(s: &Option<String>) -> (r: Option<String>)
    ensures
        opt_view(r) == opt_view(*s),
{
    match s {
        Some(x) => Some(x.clone()),
        None => None,
    }
}

fn copy_pairs(v: &Vec<(String, String)>) -> (r: Vec<(String, String)>)
    ensures
        pairs_view(r@) == pairs_view(v@),
{
    let mut r: Vec<(String, String)> = Vec::new();
    let mut i: usize = 0;
    while i < v.len()
        invariant
            i <= v@.len(),
            pairs_view(r@) == pairs_view(v@).take(i as int),
        decreases v@.len() - i,
    {
        let ghost before = r@;
        r.push((v[i].0.clone(), v[i].1.clone()));
        assert(pairs_view(r@) =~= pairs_view(before).push(pairs_view(v@)[i as int]));
        assert(pairs_view(v@).take(i as int + 1) =~= pairs_view(v@).take(i as int).push(
            pairs_view(v@)[i as int],
        ));
        i = i + 1;
    }
    assert(pairs_view(v@).take(v@.len() as int) =~= pairs_view(v@));
    r
}

/// A copy of evidence.
pub fn copy_evidence(e: &ResponseEvidence) -> (r: ResponseEvidence)
    ensures
        evidence_view(r) == evidence_view(*e),
{
    ResponseEvidence {
        finish_reason: copy_opt(&e.finish_reason),
        provider_model: copy_opt(&e.provider_model),
        usage: copy_opt(&e.usage),
        metadata: copy_pairs(&e.metadata),
    }
}

/// Metadata with `key` set to `value`: the entry for the key replaced in
/// place, or a new entry at the end.
pub open spec fn meta_set(m: Seq<(Seq<char>, Seq<char>)>, key: Seq<char>, value: Seq<char>) -> Seq<
    (Seq<char>, Seq<char>),
>
    decreases m.len(),
{
    if m.len() == 0 {
        seq![(key, value)]
    } else if m[0].0 == key {
        seq![(key, value)] + m.drop_first()
    } else {
        seq![m[0]] + meta_set(m.drop_first(), key, value)
    }
}

proof fn lemma_meta_set(m: Seq<(Seq<char>, Seq<char>)>, key: Seq<char>, value: Seq<char>, i: int)
    requires
        0 <= i <= m.len(),
        forall|j: int| 0 <= j < i ==> (#[trigger] m[j]).0 != key,
        i < m.len() ==> m[i].0 == key,
    ensures
        meta_set(m, key, value) == if i < m.len() {
            m.update(i, (key, value))
        } else {
            m.push((key, value))
        },
    decreases m.len(),
{
    if m.len() == 0 {
        assert(seq![(key, value)] =~= m.push((key, value)));
    } else if i == 0 {
        assert(seq![(key, value)] + m.drop_first() =~= m.update(0, (key, value)));
    } else {
        let t = m.drop_first();
        assert forall|j: int| 0 <= j < i - 1 implies (#[trigger] t[j]).0 != key by {
            assert(t[j] == m[j + 1]);
        }
        lemma_meta_set(t, key, value, i - 1);
        if i < m.len() {
            assert(seq![m[0]] + t.update(i - 1, (key, value)) =~= m.update(i, (key, value)));
        } else {
            assert(seq![m[0]] + t.push((key, value)) =~= m.push((key, value)));
        }
    }
}

fn set_metadata(meta: &mut Vec<(String, String)>, key: &str, value: String)
    ensures
        pairs_view(final(meta)@) == meta_set(pairs_view(old(meta)@), key@, value@),
{
    let ghost m = pairs_view(meta@);
    let mut i: usize = 0;
    while i < meta.len() && !crate::text::str_eq(meta[i].0.as_str(), key)
        invariant
            i <= meta@.len(),
            m == pairs_view(meta@),
            forall|j: int| 0 <= j < i ==> (#[trigger] m[j]).0 != key@,
        decreases meta@.len() - i,
    {
        i = i + 1;
    }
    proof {
        lemma_meta_set(m, key@, value@, i as int);
    }
    if i < meta.len() {
        meta.set(i, (key.to_string(), value));
        assert(pairs_view(meta@) =~= m.update(i as int, (key@, value@)));
    } else {
        meta.push((key.to_string(), value));
        assert(pairs_view(meta@) =~= m.push((key@, value@)));
    }
}


/// The text after leading white space, from position `from` on.
fn trim_start_from(cs: &Vec<char>, from: usize) -> (r: Vec<char>)
    requires
        from <= cs@.len(),
    ensures
        r@ == trim_start_ws(cs@.skip(from as int)),
{
    let mut a: usize = from;
    while a < cs.len() && is_whitespace(cs[a])
        invariant
            from <= a <= cs@.len(),
            trim_start_ws(cs@.skip(from as int)) == trim_start_ws(cs@.skip(a as int)),
        decreases cs@.len() - a,
    {
        assert(cs@.skip(a as int).drop_first() =~= cs@.skip(a + 1));
        a = a + 1;
    }
    let mut r: Vec<char> = Vec::new();
    let mut i: usize = a;
    while i < cs.len()
        invariant
            a <= i <= cs@.len(),
            r@ == cs@.subrange(a as int, i as int),
        decreases cs@.len() - i,
    {
        r.push(cs[i]);
        assert(cs@.subrange(a as int, i + 1) =~= cs@.subrange(a as int, i as int).push(cs@[i as int]));
        i = i + 1;
    }
    assert(r@ =~= cs@.skip(a as int));
    r
}

/// A frame that is not a valid provider event.
pub open spec fn invalid(m: Seq<char>) -> EventView {
    EventView::Error(ErrorView::InvalidStreamEvent(m))
}

fn invalid_event(m: &str) -> (e: StreamEvent)
    ensures
        event_view(e) == invalid(m@),
{
    StreamEvent::Error(StreamEventError::InvalidStreamEvent(m.to_string()))
}

/// The terminal event for a provider's end marker: completed when it
/// finished with `stop`, an incomplete completion otherwise.
pub open spec fn terminal_for(ev: EvidenceView) -> EventView {
    if ev.finish_reason == Some("stop"@) {
        EventView::Completed(ev)
    } else {
        EventView::Error(ErrorView::IncompleteCompletion(ev))
    }
}

fn terminal_event(ev: &ResponseEvidence) -> (e: StreamEvent)
    ensures
        event_view(e) == terminal_for(evidence_view(*ev)),
{
    let copy = copy_evidence(ev);
    let stop = match &ev.finish_reason {
        Some(r) => crate::text::str_eq(r.as_str(), "stop"),
        None => false,
    };
    proof {
        reveal_strlit("stop");
    }
    if stop {
        StreamEvent::Completed(copy)
    } else {
        StreamEvent::Error(StreamEventError::IncompleteCompletion(Box::new(copy)))
    }
}

/// The events of a message's `content`: none for no text or empty text,
/// the text as content, an invalid event for anything else.
pub open spec fn content_events(f: FieldView) -> Seq<EventView> {
    match f {
        FieldView::Absent => Seq::empty(),
        FieldView::Null => Seq::empty(),
        FieldView::Str(s, _) => if s.len() == 0 {
            Seq::empty()
        } else {
            seq![EventView::Content(s)]
        },
        _ => seq![invalid("content is not a string"@)],
    }
}

fn content_of(f: &JsonField) -> (r: Vec<StreamEvent>)
    ensures
        events_view(r@) == content_events(field_view(*f)),
{
    let mut r: Vec<StreamEvent> = Vec::new();
    match f {
        JsonField::Absent => {},
        JsonField::Null => {},
        JsonField::Str(s, _) => {
            if s.as_str().unicode_len() > 0 {
                r.push(StreamEvent::Content(s.clone()));
            }
        },
        _ => {
            proof {
                reveal_strlit("content is not a string");
            }
            r.push(invalid_event("content is not a string"));
        },
    }
    assert(events_view(r@) =~= content_events(field_view(*f)));
    r
}

/// Metadata with `key` set to the value's JSON text when it is present.
pub open spec fn with_meta(m: Seq<(Seq<char>, Seq<char>)>, key: Seq<char>, f: FieldView) -> Seq<
    (Seq<char>, Seq<char>),
> {
    match present(f) {
        Some(t) => meta_set(m, key, t),
        None => m,
    }
}

fn record_meta(meta: &mut Vec<(String, String)>, key: &str, f: &JsonField)
    ensures
        pairs_view(final(meta)@) == with_meta(pairs_view(old(meta)@), key@, field_view(*f)),
{
    match present_text(f) {
        Some(t) => set_metadata(meta, key, t),
        None => {},
    }
}

pub(crate) fn text_vec(items: &[&str]) -> (v: Vec<String>)
    ensures
        texts_view(v@) == items@.map_values(|t: &str| t@),
{
    let mut v: Vec<String> = Vec::new();
    let mut i: usize = 0;
    while i < items.len()
        invariant
            i <= items@.len(),
            texts_view(v@) == items@.map_values(|t: &str| t@).take(i as int),
        decreases items@.len() - i,
    {
        let ghost before = v@;
        v.push(items[i].to_string());
        assert(texts_view(v@) =~= texts_view(before).push(items@[i as int]@));
        assert(items@.map_values(|t: &str| t@).take(i as int + 1) =~= items@.map_values(|t: &str| t@).take(
            i as int,
        ).push(items@[i as int]@));
        i = i + 1;
    }
    assert(items@.map_values(|t: &str| t@).take(items@.len() as int) =~= items@.map_values(|t: &str| t@));
    v
}

/// Where an OpenAI frame is read: its error, model, usage, metadata
/// (`id`, `created`, `system_fingerprint`), its choices, and the first
/// choice's finish reason, delta, tool calls and content.
pub open spec fn openai_pointers() -> Seq<Seq<char>> {
    seq![
        "/error"@,
        "/model"@,
        "/usage"@,
        "/id"@,
        "/created"@,
        "/system_fingerprint"@,
        "/choices"@,
        "/choices/0/finish_reason"@,
        "/choices/0/delta"@,
        "/choices/0/delta/tool_calls"@,
        "/choices/0/delta/content"@,
    ]
}

/// The evidence after an OpenAI frame: its model and usage when it has
/// them, its metadata merged in.
pub open spec fn openai_recorded(ev: EvidenceView, f: Seq<FieldView>) -> EvidenceView {
    EvidenceView {
        finish_reason: ev.finish_reason,
        provider_model: match as_str(f[1]) {
            Some(m) => Some(m),
            None => ev.provider_model,
        },
        usage: match present(f[2]) {
            Some(u) => Some(u),
            None => ev.usage,
        },
        metadata: with_meta(
            with_meta(with_meta(ev.metadata, "id"@, f[3]), "created"@, f[4]),
            "system_fingerprint"@,
            f[5],
        ),
    }
}

/// An OpenAI frame's only choice: its finish reason recorded; a delta that
/// is not an object is invalid, tool calls are unexpected, else its content.
pub open spec fn openai_choice(ev: EvidenceView, f: Seq<FieldView>) -> (EvidenceView, Seq<EventView>) {
    let ev2 = match as_str(f[7]) {
        Some(r) => EvidenceView {
            finish_reason: Some(r),
            provider_model: ev.provider_model,
            usage: ev.usage,
            metadata: ev.metadata,
        },
        None => ev,
    };
    if !(f[8] is Absent || f[8] is Null || f[8] is Object) {
        (ev2, seq![invalid("delta is not an object"@)])
    } else if non_empty_array(f[9]) {
        (ev2, seq![EventView::Error(ErrorView::UnexpectedToolCalls)])
    } else {
        (ev2, content_events(f[10]))
    }
}

/// One line of an OpenAI server-sent event stream: the evidence after it
/// and the events it gives. Only `data:` lines count; `[DONE]` ends the
/// stream, completed only after a `stop` finish reason.
pub open spec fn openai_step(ev: EvidenceView, line: Seq<char>) -> (EvidenceView, Seq<EventView>) {
    if !occurs_at(line, "data:"@, 0) {
        (ev, Seq::empty())
    } else {
        let data = trim_start_ws(line.skip(5));
        if data == "[DONE]"@ {
            (ev, seq![terminal_for(ev)])
        } else {
            match json_fields(data, openai_pointers()) {
                Err(e) => (ev, seq![invalid("frame is not JSON: "@ + e)]),
                Ok(f) => match present(f[0]) {
                    Some(err) => (ev, seq![EventView::Error(ErrorView::ProviderError(None, err))]),
                    None => {
                        let ev1 = openai_recorded(ev, f);
                        match f[6] {
                            FieldView::Array(n, _) => if n == 0 {
                                (ev1, Seq::empty())
                            } else if n == 1 {
                                openai_choice(ev1, f)
                            } else {
                                (ev1, seq![invalid("frame has more than one choice"@)])
                            },
                            _ => (ev1, seq![invalid("frame has no choices"@)]),
                        }
                    },
                },
            }
        }
    }
}

/// Reads `data:` lines from an OpenAI chat completion stream.
///
/// Success needs a `finish_reason` of `stop` and then `data: [DONE]`. Usage
/// arrives in a final chunk with no choices when the request asks for it.
pub struct OpenAiEventParser {
    evidence: ResponseEvidence,
}

/// Whether evidence holds nothing.
fn is_empty_evidence(e: &ResponseEvidence) -> (b: bool)
    ensures
        b == (evidence_view(*e) == empty_evidence()),
{
    let b = e.finish_reason.is_none() && e.provider_model.is_none() && e.usage.is_none() && e.metadata.len()
        == 0;
    if b {
        assert(pairs_view(e.metadata@) =~= Seq::empty());
    } else if e.metadata.len() > 0 {
        assert(pairs_view(e.metadata@).len() > 0);
    }
    b
}

/// The evidence seen so far, when there is any.
pub open spec fn partial_of(ev: EvidenceView) -> Option<EvidenceView> {
    if ev == empty_evidence() {
        None
    } else {
        Some(ev)
    }
}

fn partial(e: &ResponseEvidence) -> (r: Option<ResponseEvidence>)
    ensures
        match r {
            Some(x) => partial_of(evidence_view(*e)) == Some(evidence_view(x)),
            None => partial_of(evidence_view(*e)) is None,
        },
{
    if is_empty_evidence(e) {
        None
    } else {
        Some(copy_evidence(e))
    }
}

impl OpenAiEventParser {
    /// The evidence recorded so far.
    pub closed spec fn seen(&self) -> EvidenceView {
        evidence_view(self.evidence)
    }

    /// A parser that has seen nothing.
    pub fn new() -> (p: Self)
        ensures
            p.seen() == empty_evidence(),
    {
        OpenAiEventParser { evidence: ResponseEvidence::default() }
    }

    /// The events of one line; see `openai_step`.
    pub fn parse_line(&mut self, line: &str) -> (events: Vec<StreamEvent>)
        ensures
            (final(self).seen(), events_view(events@)) == openai_step(old(self).seen(), line@),
    {
        let mut events: Vec<StreamEvent> = Vec::new();
        let cs = chars_of(line);
        let prefix = chars_of("data:");
        proof {
            reveal_strlit("data:");
        }
        if !crate::text::starts_with_chars(cs.as_slice(), prefix.as_slice()) {
            assert(events_view(events@) =~= Seq::empty());
            return events;
        }
        let data_chars = trim_start_from(&cs, 5);
        let done = chars_of("[DONE]");
        proof {
            reveal_strlit("[DONE]");
        }
        if crate::text::chars_eq(data_chars.as_slice(), done.as_slice()) {
            events.push(terminal_event(&self.evidence));
            assert(events_view(events@) =~= seq![terminal_for(self.seen())]);
            return events;
        }
        let data = string_from_chars(data_chars.as_slice());
        let pointers = text_vec(
            &[
                "/error",
                "/model",
                "/usage",
                "/id",
                "/created",
                "/system_fingerprint",
                "/choices",
                "/choices/0/finish_reason",
                "/choices/0/delta",
                "/choices/0/delta/tool_calls",
                "/choices/0/delta/content",
            ],
        );
        proof {
            reveal_strlit("/error");
            reveal_strlit("/model");
            reveal_strlit("/usage");
            reveal_strlit("/id");
            reveal_strlit("/created");
            reveal_strlit("/system_fingerprint");
            reveal_strlit("/choices");
            reveal_strlit("/choices/0/finish_reason");
            reveal_strlit("/choices/0/delta");
            reveal_strlit("/choices/0/delta/tool_calls");
            reveal_strlit("/choices/0/delta/content");
            assert(texts_view(pointers@) =~= openai_pointers());
        }
        let fields = match probe_json(data.as_str(), &pointers) {
            Err(e) => {
                let mut m = String::from_str("frame is not JSON: ");
                m.append(e.as_str());
                proof {
                    reveal_strlit("frame is not JSON: ");
                }
                events.push(invalid_event(m.as_str()));
                assert(events_view(events@) =~= seq![invalid("frame is not JSON: "@ + e@)]);
                return events;
            },
            Ok(f) => f,
        };
        let ghost fv = fields@.map_values(|f: JsonField| field_view(f));
        assert(fv.len() == 11);
        assert(field_view(fields@[0]) == fv[0]);
        match present_text(&fields[0]) {
            Some(err) => {
                events.push(StreamEvent::Error(StreamEventError::ProviderError { status: None, error: err }));
                assert(events_view(events@) =~= seq![EventView::Error(ErrorView::ProviderError(None, err@))]);
                return events;
            },
            None => {},
        }
        let ghost ev0 = self.seen();
        match str_value(&fields[1]) {
            Some(m) => {
                self.evidence.provider_model = Some(m);
            },
            None => {},
        }
        match present_text(&fields[2]) {
            Some(u) => {
                self.evidence.usage = Some(u);
            },
            None => {},
        }
        record_meta(&mut self.evidence.metadata, "id", &fields[3]);
        record_meta(&mut self.evidence.metadata, "created", &fields[4]);
        record_meta(&mut self.evidence.metadata, "system_fingerprint", &fields[5]);
        proof {
            reveal_strlit("id");
            reveal_strlit("created");
            reveal_strlit("system_fingerprint");
            assert(field_view(fields@[1]) == fv[1]);
            assert(field_view(fields@[2]) == fv[2]);
            assert(field_view(fields@[3]) == fv[3]);
            assert(field_view(fields@[4]) == fv[4]);
            assert(field_view(fields@[5]) == fv[5]);
            assert(field_view(fields@[6]) == fv[6]);
            assert(self.seen() == openai_recorded(ev0, fv));
        }
        let count = match &fields[6] {
            JsonField::Array(n, _) => Some(*n),
            _ => None,
        };
        match count {
            None => {
                proof {
                    reveal_strlit("frame has no choices");
                }
                events.push(invalid_event("frame has no choices"));
                assert(events_view(events@) =~= seq![invalid("frame has no choices"@)]);
            },
            Some(n) => {
                if n == 0 {
                    assert(events_view(events@) =~= Seq::empty());
                } else if n > 1 {
                    proof {
                        reveal_strlit("frame has more than one choice");
                    }
                    events.push(invalid_event("frame has more than one choice"));
                    assert(events_view(events@) =~= seq![invalid("frame has more than one choice"@)]);
                } else {
                    proof {
                        assert(field_view(fields@[7]) == fv[7]);
                        assert(field_view(fields@[8]) == fv[8]);
                        assert(field_view(fields@[9]) == fv[9]);
                        assert(field_view(fields@[10]) == fv[10]);
                    }
                    match str_value(&fields[7]) {
                        Some(r) => {
                            self.evidence.finish_reason = Some(r);
                        },
                        None => {},
                    }
                    let delta_ok = match &fields[8] {
                        JsonField::Absent => true,
                        JsonField::Null => true,
                        JsonField::Object(_) => true,
                        _ => false,
                    };
                    if !delta_ok {
                        proof {
                            reveal_strlit("delta is not an object");
                        }
                        events.push(invalid_event("delta is not an object"));
                        assert(events_view(events@) =~= seq![invalid("delta is not an object"@)]);
                    } else if is_non_empty_array(&fields[9]) {
                        events.push(StreamEvent::Error(StreamEventError::UnexpectedToolCalls));
                        assert(events_view(events@) =~= seq![EventView::Error(ErrorView::UnexpectedToolCalls)]);
                    } else {
                        events = content_of(&fields[10]);
                    }
                }
            },
        }
        events
    }

    /// The evidence seen so far, for a stream that ends without its end
    /// marker; nothing when none arrived.
    pub fn partial_evidence(&self) -> (r: Option<ResponseEvidence>)
        ensures
            match r {
                Some(x) => partial_of(self.seen()) == Some(evidence_view(x)),
                None => partial_of(self.seen()) is None,
            },
    {
        partial(&self.evidence)
    }
}


/// Where an Ollama frame is read: the frame itself, its error, finish
/// reason, model, token counts and durations, and its message's tool calls
/// and content, and whether it is the last.
pub open spec fn ollama_pointers() -> Seq<Seq<char>> {
    seq![
        ""@,
        "/error"@,
        "/done_reason"@,
        "/model"@,
        "/prompt_eval_count"@,
        "/eval_count"@,
        "/total_duration"@,
        "/load_duration"@,
        "/prompt_eval_duration"@,
        "/eval_duration"@,
        "/message/tool_calls"@,
        "/message/content"@,
        "/done"@,
    ]
}

/// The usage of an Ollama frame: an object of the token counts it has.
pub open spec fn ollama_usage(prompt: FieldView, eval: FieldView) -> Option<Seq<char>> {
    match (present(prompt), present(eval)) {
        (None, None) => None,
        (Some(a), None) => Some("{\"prompt_eval_count\":"@ + a + "}"@),
        (None, Some(b)) => Some("{\"eval_count\":"@ + b + "}"@),
        (Some(a), Some(b)) => Some("{\"prompt_eval_count\":"@ + a + ",\"eval_count\":"@ + b + "}"@),
    }
}

/// The evidence of an Ollama frame: its `done_reason`, model, token counts
/// as usage and durations as metadata.
pub open spec fn ollama_evidence(f: Seq<FieldView>) -> EvidenceView {
    EvidenceView {
        finish_reason: as_str(f[2]),
        provider_model: as_str(f[3]),
        usage: ollama_usage(f[4], f[5]),
        metadata: with_meta(
            with_meta(
                with_meta(with_meta(Seq::empty(), "total_duration"@, f[6]), "load_duration"@, f[7]),
                "prompt_eval_duration"@,
                f[8],
            ),
            "eval_duration"@,
            f[9],
        ),
    }
}

/// A message content the parser accepts.
pub open spec fn content_ok(f: FieldView) -> bool {
    f is Absent || f is Null || f is Str
}

/// One line of an Ollama chat stream: the evidence after it and the events
/// it gives. Each frame's evidence replaces the one before; a frame with
/// `done: true` ends the stream after its content, completed only with a
/// `done_reason` of `stop`.
pub open spec fn ollama_step(ev: EvidenceView, line: Seq<char>) -> (EvidenceView, Seq<EventView>) {
    let t = trim_ws(line);
    if t.len() == 0 {
        (ev, Seq::empty())
    } else {
        match json_fields(t, ollama_pointers()) {
            Err(e) => (ev, seq![invalid("frame is not JSON: "@ + e)]),
            Ok(f) => if !(f[0] is Object) {
                (ev, seq![invalid("frame is not a JSON object"@)])
            } else {
                match present(f[1]) {
                    Some(err) => (ev, seq![EventView::Error(ErrorView::ProviderError(None, err))]),
                    None => {
                        let ev1 = ollama_evidence(f);
                        if non_empty_array(f[10]) {
                            (ev1, seq![EventView::Error(ErrorView::UnexpectedToolCalls)])
                        } else if !content_ok(f[11]) || f[12] != FieldView::Bool(true) {
                            (ev1, content_events(f[11]))
                        } else {
                            (ev1, content_events(f[11]).push(terminal_for(ev1)))
                        }
                    },
                }
            },
        }
    }
}

fn ollama_usage_text(prompt: &JsonField, eval: &JsonField) -> (r: Option<String>)
    ensures
        opt_view(r) == ollama_usage(field_view(*prompt), field_view(*eval)),
{
    proof {
        reveal_strlit("{\"prompt_eval_count\":");
        reveal_strlit("{\"eval_count\":");
        reveal_strlit(",\"eval_count\":");
        reveal_strlit("}");
    }
    match (present_text(prompt), present_text(eval)) {
        (None, None) => None,
        (Some(a), None) => {
            let mut s = String::from_str("{\"prompt_eval_count\":");
            s.append(a.as_str());
            s.append("}");
            Some(s)
        },
        (None, Some(b)) => {
            let mut s = String::from_str("{\"eval_count\":");
            s.append(b.as_str());
            s.append("}");
            Some(s)
        },
        (Some(a), Some(b)) => {
            let mut s = String::from_str("{\"prompt_eval_count\":");
            s.append(a.as_str());
            s.append(",\"eval_count\":");
            s.append(b.as_str());
            s.append("}");
            Some(s)
        },
    }
}

/// Reads frames from an Ollama `/api/chat` stream.
///
/// Success needs a final frame with `done: true` and a `done_reason` of
/// `stop`. Thinking text is not assistant content and is not yielded.
pub struct OllamaEventParser {
    evidence: ResponseEvidence,
}

impl OllamaEventParser {
    /// The evidence of the last frame read.
    pub closed spec fn seen(&self) -> EvidenceView {
        evidence_view(self.evidence)
    }

    /// A parser that has seen nothing.
    pub fn new() -> (p: Self)
        ensures
            p.seen() == empty_evidence(),
    {
        OllamaEventParser { evidence: ResponseEvidence::default() }
    }

    /// The events of one line; see `ollama_step`.
    pub fn parse_line(&mut self, line: &str) -> (events: Vec<StreamEvent>)
        ensures
            (final(self).seen(), events_view(events@)) == ollama_step(old(self).seen(), line@),
    {
        let mut events: Vec<StreamEvent> = Vec::new();
        let cs = chars_of(line);
        let t = trim_chars(cs.as_slice());
        if t.len() == 0 {
            assert(events_view(events@) =~= Seq::empty());
            return events;
        }
        let text = string_from_chars(t.as_slice());
        let pointers = text_vec(
            &[
                "",
                "/error",
                "/done_reason",
                "/model",
                "/prompt_eval_count",
                "/eval_count",
                "/total_duration",
                "/load_duration",
                "/prompt_eval_duration",
                "/eval_duration",
                "/message/tool_calls",
                "/message/content",
                "/done",
            ],
        );
        proof {
            reveal_strlit("");
            reveal_strlit("/error");
            reveal_strlit("/done_reason");
            reveal_strlit("/model");
            reveal_strlit("/prompt_eval_count");
            reveal_strlit("/eval_count");
            reveal_strlit("/total_duration");
            reveal_strlit("/load_duration");
            reveal_strlit("/prompt_eval_duration");
            reveal_strlit("/eval_duration");
            reveal_strlit("/message/tool_calls");
            reveal_strlit("/message/content");
            reveal_strlit("/done");
            assert(texts_view(pointers@) =~= ollama_pointers());
        }
        let fields = match probe_json(text.as_str(), &pointers) {
            Err(e) => {
                let mut m = String::from_str("frame is not JSON: ");
                m.append(e.as_str());
                proof {
                    reveal_strlit("frame is not JSON: ");
                }
                events.push(invalid_event(m.as_str()));
                assert(events_view(events@) =~= seq![invalid("frame is not JSON: "@ + e@)]);
                return events;
            },
            Ok(f) => f,
        };
        let ghost fv = fields@.map_values(|f: JsonField| field_view(f));
        proof {
            assert(fv.len() == 13);
            assert(field_view(fields@[0]) == fv[0]);
            assert(field_view(fields@[1]) == fv[1]);
            assert(field_view(fields@[2]) == fv[2]);
            assert(field_view(fields@[3]) == fv[3]);
            assert(field_view(fields@[4]) == fv[4]);
            assert(field_view(fields@[5]) == fv[5]);
            assert(field_view(fields@[6]) == fv[6]);
            assert(field_view(fields@[7]) == fv[7]);
            assert(field_view(fields@[8]) == fv[8]);
            assert(field_view(fields@[9]) == fv[9]);
            assert(field_view(fields@[10]) == fv[10]);
            assert(field_view(fields@[11]) == fv[11]);
            assert(field_view(fields@[12]) == fv[12]);
        }
        let is_object = match &fields[0] {
            JsonField::Object(_) => true,
            _ => false,
        };
        if !is_object {
            proof {
                reveal_strlit("frame is not a JSON object");
            }
            events.push(invalid_event("frame is not a JSON object"));
            assert(events_view(events@) =~= seq![invalid("frame is not a JSON object"@)]);
            return events;
        }
        match present_text(&fields[1]) {
            Some(err) => {
                events.push(StreamEvent::Error(StreamEventError::ProviderError { status: None, error: err }));
                assert(events_view(events@) =~= seq![EventView::Error(ErrorView::ProviderError(None, err@))]);
                return events;
            },
            None => {},
        }
        let mut metadata: Vec<(String, String)> = Vec::new();
        assert(pairs_view(metadata@) =~= Seq::empty());
        record_meta(&mut metadata, "total_duration", &fields[6]);
        record_meta(&mut metadata, "load_duration", &fields[7]);
        record_meta(&mut metadata, "prompt_eval_duration", &fields[8]);
        record_meta(&mut metadata, "eval_duration", &fields[9]);
        proof {
            reveal_strlit("total_duration");
            reveal_strlit("load_duration");
            reveal_strlit("prompt_eval_duration");
            reveal_strlit("eval_duration");
        }
        self.evidence = ResponseEvidence {
            finish_reason: str_value(&fields[2]),
            provider_model: str_value(&fields[3]),
            usage: ollama_usage_text(&fields[4], &fields[5]),
            metadata,
        };
        assert(self.seen() == ollama_evidence(fv));
        if is_non_empty_array(&fields[10]) {
            events.push(StreamEvent::Error(StreamEventError::UnexpectedToolCalls));
            assert(events_view(events@) =~= seq![EventView::Error(ErrorView::UnexpectedToolCalls)]);
            return events;
        }
        let accepted = match &fields[11] {
            JsonField::Absent => true,
            JsonField::Null => true,
            JsonField::Str(_, _) => true,
            _ => false,
        };
        let mut out = content_of(&fields[11]);
        let last = match &fields[12] {
            JsonField::Bool(b) => *b,
            _ => false,
        };
        if accepted && last {
            let ghost before = out@;
            out.push(terminal_event(&self.evidence));
            assert(events_view(out@) =~= events_view(before).push(terminal_for(self.seen())));
        }
        out
    }

    /// The evidence of the last frame, for a stream that ends without a
    /// final frame; nothing when none arrived.
    pub fn partial_evidence(&self) -> (r: Option<ResponseEvidence>)
        ensures
            match r {
                Some(x) => partial_of(self.seen()) == Some(evidence_view(x)),
                None => partial_of(self.seen()) is None,
            },
    {
        partial(&self.evidence)
    }
}


/// The text of a JSON value, `null` for one that is not there.
pub open spec fn json_text(f: FieldView) -> Seq<char> {
    match present(f) {
        Some(t) => t,
        None => "null"@,
    }
}

fn json_text_of(f: &JsonField) -> (s: String)
    ensures
        s@ == json_text(field_view(*f)),
{
    proof {
        reveal_strlit("null");
    }
    match present_text(f) {
        Some(t) => t,
        None => String::from_str("null"),
    }
}

/// The JSON text `serde_json` gives a string value.
pub uninterp spec fn json_quoted(s: Seq<char>) -> Seq<char>;

/// Displays `serde_json::Value::String` of the text; named `json_quoted`.
#[verifier::external_body]
fn quote_json(s: &str) -> (r: String)
    ensures
        r@ == json_quoted(s@),
{
    serde_json::Value::String(s.to_string()).to_string()
}

/// The provider error for a non-success HTTP response: the body's `error`
/// field when the body is a JSON object that has one, else the body's JSON
/// value, else the body as a JSON string.
pub open spec fn provider_status_error(status: u16, body: Seq<char>) -> ErrorView {
    ErrorView::ProviderError(
        Some(status),
        match json_fields(body, seq![""@, "/error"@]) {
            Ok(f) => if f[0] is Object && !(f[1] is Absent) {
                json_text(f[1])
            } else {
                json_text(f[0])
            },
            Err(_) => json_quoted(body),
        },
    )
}

impl StreamEventError {
    /// A provider error for an error frame inside the stream; `error` is
    /// the frame's error value as JSON text.
    pub fn provider_frame(error: String) -> (e: Self)
        ensures
            error_view(e) == ErrorView::ProviderError(None, error@),
    {
        StreamEventError::ProviderError { status: None, error }
    }

    /// A provider error for a non-success HTTP response; see
    /// `provider_status_error`.
    pub fn provider_status(status: u16, body: &str) -> (e: Self)
        ensures
            error_view(e) == provider_status_error(status, body@),
    {
        let pointers = text_vec(&["", "/error"]);
        proof {
            reveal_strlit("");
            reveal_strlit("/error");
            assert(texts_view(pointers@) =~= seq![""@, "/error"@]);
        }
        let error = match probe_json(body, &pointers) {
            Ok(f) => {
                let ghost fv = f@.map_values(|x: JsonField| field_view(x));
                assert(field_view(f@[0]) == fv[0]);
                assert(field_view(f@[1]) == fv[1]);
                let object = match &f[0] {
                    JsonField::Object(_) => true,
                    _ => false,
                };
                let has_error = match &f[1] {
                    JsonField::Absent => false,
                    _ => true,
                };
                if object && has_error {
                    json_text_of(&f[1])
                } else {
                    json_text_of(&f[0])
                }
            },
            Err(_) => quote_json(body),
        };
        StreamEventError::ProviderError { status: Some(status), error }
    }
}

/// The text `std::str::from_utf8` reads from bytes; nothing when they are
/// not UTF-8.
pub uninterp spec fn utf8_decoded(bytes: Seq<u8>) -> Option<Seq<char>>;

/// Calls `std::str::from_utf8`; named `utf8_decoded`.
#[verifier::external_body]
fn utf8_text(bytes: &[u8]) -> (r: Option<String>)
    ensures
        opt_view(r) == utf8_decoded(bytes@),
{
    std::str::from_utf8(bytes).ok().map(String::from)
}

/// The text without trailing carriage returns.
pub open spec fn trim_end_cr(s: Seq<char>) -> Seq<char>
    decreases s.len(),
{
    if s.len() > 0 && s.last() == '\r' {
        trim_end_cr(s.drop_last())
    } else {
        s
    }
}

fn without_trailing_cr(s: &str) -> (r: String)
    ensures
        r@ == trim_end_cr(s@),
{
    let cs = chars_of(s);
    let mut n: usize = cs.len();
    assert(cs@.take(n as int) =~= cs@);
    while n > 0 && cs[n - 1] == '\r'
        invariant
            n <= cs@.len(),
            trim_end_cr(s@) == trim_end_cr(cs@.take(n as int)),
        decreases n,
    {
        assert(cs@.take(n as int).drop_last() =~= cs@.take(n - 1));
        n = n - 1;
    }
    let mut r: Vec<char> = Vec::new();
    let mut i: usize = 0;
    while i < n
        invariant
            i <= n <= cs@.len(),
            r@ == cs@.take(i as int),
        decreases n - i,
    {
        r.push(cs[i]);
        assert(cs@.take(i + 1) =~= cs@.take(i as int).push(cs@[i as int]));
        i = i + 1;
    }
    string_from_chars(r.as_slice())
}

/// Which provider's stream a driver reads.
pub enum EventParser {
    OpenAi(OpenAiEventParser),
    Ollama(OllamaEventParser),
}

/// A parser's kind and the evidence it has seen.
pub enum ParserView {
    OpenAi(EvidenceView),
    Ollama(EvidenceView),
}

pub open spec fn parser_view(p: EventParser) -> ParserView {
    match p {
        EventParser::OpenAi(x) => ParserView::OpenAi(x.seen()),
        EventParser::Ollama(x) => ParserView::Ollama(x.seen()),
    }
}

/// A parser's state after a line, and the events of the line.
pub open spec fn parser_step(p: ParserView, line: Seq<char>) -> (ParserView, Seq<EventView>) {
    match p {
        ParserView::OpenAi(ev) => {
            let (e2, out) = openai_step(ev, line);
            (ParserView::OpenAi(e2), out)
        },
        ParserView::Ollama(ev) => {
            let (e2, out) = ollama_step(ev, line);
            (ParserView::Ollama(e2), out)
        },
    }
}

/// The evidence a parser has seen, when it has seen any.
pub open spec fn parser_partial(p: ParserView) -> Option<EvidenceView> {
    match p {
        ParserView::OpenAi(ev) => partial_of(ev),
        ParserView::Ollama(ev) => partial_of(ev),
    }
}

/// The events of one line of bytes: the parser's, for the text without
/// trailing carriage returns, or an invalid event when it is not UTF-8.
pub open spec fn line_events(p: ParserView, line: Seq<u8>) -> (ParserView, Seq<EventView>) {
    match utf8_decoded(line) {
        Some(t) => parser_step(p, trim_end_cr(t)),
        None => (p, seq![invalid("frame is not valid UTF-8"@)]),
    }
}

/// The events up to and including the first terminal one.
pub open spec fn cut(evs: Seq<EventView>) -> Seq<EventView>
    decreases evs.len(),
{
    if evs.len() == 0 {
        evs
    } else if terminal(evs[0]) {
        seq![evs[0]]
    } else {
        seq![evs[0]] + cut(evs.drop_first())
    }
}

/// Whether some event is terminal.
pub open spec fn has_terminal(evs: Seq<EventView>) -> bool {
    exists|i: int| 0 <= i < evs.len() && terminal(#[trigger] evs[i])
}

/// Events are well ended: none but the last is terminal, and the last is
/// terminal exactly when `done`.
pub open spec fn well_ended(evs: Seq<EventView>, done: bool) -> bool {
    &&& forall|i: int| 0 <= i < evs.len() - 1 ==> !terminal(#[trigger] evs[i])
    &&& done <==> (evs.len() > 0 && terminal(evs.last()))
}

proof fn lemma_cut(evs: Seq<EventView>, i: int)
    requires
        0 <= i <= evs.len(),
        forall|j: int| 0 <= j < i ==> !terminal(#[trigger] evs[j]),
    ensures
        i < evs.len() && terminal(evs[i]) ==> cut(evs) == evs.take(i + 1),
        i == evs.len() ==> cut(evs) == evs,
    decreases i,
{
    if evs.len() == 0 {
    } else if i == 0 {
        if i < evs.len() && terminal(evs[0]) {
            assert(seq![evs[0]] =~= evs.take(1));
        }
    } else {
        let t = evs.drop_first();
        assert forall|j: int| 0 <= j < i - 1 implies !terminal(#[trigger] t[j]) by {
            assert(t[j] == evs[j + 1]);
        }
        assert(!terminal(evs[0]));
        lemma_cut(t, i - 1);
        if i < evs.len() && terminal(evs[i]) {
            assert(t[i - 1] == evs[i]);
            assert(seq![evs[0]] + t.take(i) =~= evs.take(i + 1));
        }
        if i == evs.len() {
            assert(seq![evs[0]] + t =~= evs);
        }
    }
}

fn copy_event(e: &StreamEvent) -> (r: StreamEvent)
    ensures
        event_view(r) == event_view(*e),
{
    match e {
        StreamEvent::Content(t) => StreamEvent::Content(t.clone()),
        StreamEvent::Completed(ev) => StreamEvent::Completed(copy_evidence(ev)),
        StreamEvent::Error(err) => StreamEvent::Error(
            match err {
                StreamEventError::IncompleteCompletion(ev) => StreamEventError::IncompleteCompletion(
                    Box::new(copy_evidence(ev)),
                ),
                StreamEventError::IncompleteStream(o) => StreamEventError::IncompleteStream(
                    match o {
                        Some(ev) => Some(Box::new(copy_evidence(ev))),
                        None => None,
                    },
                ),
                StreamEventError::ProviderError { status, error } => StreamEventError::ProviderError {
                    status: *status,
                    error: error.clone(),
                },
                StreamEventError::UnexpectedToolCalls => StreamEventError::UnexpectedToolCalls,
                StreamEventError::InvalidStreamEvent(m) => StreamEventError::InvalidStreamEvent(m.clone()),
                StreamEventError::StreamEventsUnsupported => StreamEventError::StreamEventsUnsupported,
                StreamEventError::RequestFailed(m) => StreamEventError::RequestFailed(m.clone()),
            },
        ),
    }
}

fn cut_events(evs: &Vec<StreamEvent>) -> (r: Vec<StreamEvent>)
    ensures
        events_view(r@) == cut(events_view(evs@)),
        well_ended(events_view(r@), has_terminal(events_view(evs@))),
{
    let ghost all = events_view(evs@);
    let mut r: Vec<StreamEvent> = Vec::new();
    let mut i: usize = 0;
    let n = evs.len();
    while i < n
        invariant
            n == all.len() == evs@.len(),
            all == events_view(evs@),
            i <= n,
            events_view(r@) == all.take(i as int),
            forall|j: int| 0 <= j < i ==> !terminal(#[trigger] all[j]),
        decreases n - i,
    {
        let e = copy_event(&evs[i]);
        assert(event_view(e) == all[i as int]);
        let stop = e.is_terminal();
        let ghost before = r@;
        r.push(e);
        assert(events_view(r@) =~= events_view(before).push(all[i as int]));
        assert(all.take(i as int + 1) =~= all.take(i as int).push(all[i as int]));
        if stop {
            proof {
                lemma_cut(all, i as int);
                assert(has_terminal(all));
                assert(events_view(r@).last() == all[i as int]);
            }
            return r;
        }
        i = i + 1;
    }
    proof {
        lemma_cut(all, n as int);
        assert(all.take(n as int) =~= all);
        if has_terminal(all) {
            let k = choose|k: int| 0 <= k < all.len() && terminal(#[trigger] all[k]);
            assert(!terminal(all[k]));
        }
    }
    r
}

/// Every completed event carries a `stop` finish reason: truncated or
/// unfinished output is never reported as complete.
pub open spec fn clean_completions(evs: Seq<EventView>) -> bool {
    forall|i: int|
        0 <= i < evs.len() ==> ((#[trigger] evs[i]) matches EventView::Completed(e) ==> e.finish_reason == Some(
            "stop"@,
        ))
}

proof fn lemma_terminal_for_clean(ev: EvidenceView)
    ensures
        clean_completions(seq![terminal_for(ev)]),
{
}

proof fn lemma_content_clean(f: FieldView)
    ensures
        clean_completions(content_events(f)),
{
}

proof fn lemma_openai_step_clean(ev: EvidenceView, line: Seq<char>)
    ensures
        clean_completions(openai_step(ev, line).1),
{
    if occurs_at(line, "data:"@, 0) {
        let data = trim_start_ws(line.skip(5));
        if data == "[DONE]"@ {
            lemma_terminal_for_clean(ev);
        } else {
            match json_fields(data, openai_pointers()) {
                Ok(f) => {
                    if present(f[0]) is None {
                        lemma_content_clean(f[10]);
                    }
                },
                Err(_) => {},
            }
        }
    }
}

proof fn lemma_ollama_step_clean(ev: EvidenceView, line: Seq<char>)
    ensures
        clean_completions(ollama_step(ev, line).1),
{
    let t = trim_ws(line);
    if t.len() != 0 {
        match json_fields(t, ollama_pointers()) {
            Ok(f) => {
                lemma_content_clean(f[11]);
                let c = content_events(f[11]);
                let ev1 = ollama_evidence(f);
                let out = c.push(terminal_for(ev1));
                assert forall|i: int| 0 <= i < out.len() implies ((#[trigger] out[i]) matches EventView::Completed(
                    e,
                ) ==> e.finish_reason == Some("stop"@)) by {
                    if i < c.len() {
                        assert(out[i] == c[i]);
                    }
                }
            },
            Err(_) => {},
        }
    }
}

proof fn lemma_line_events_clean(p: ParserView, line: Seq<u8>)
    ensures
        clean_completions(line_events(p, line).1),
{
    match utf8_decoded(line) {
        Some(t) => match p {
            ParserView::OpenAi(ev) => lemma_openai_step_clean(ev, trim_end_cr(t)),
            ParserView::Ollama(ev) => lemma_ollama_step_clean(ev, trim_end_cr(t)),
        },
        None => {},
    }
}

proof fn lemma_cut_prefix(evs: Seq<EventView>)
    ensures
        cut(evs).len() <= evs.len(),
        forall|i: int| 0 <= i < cut(evs).len() ==> #[trigger] cut(evs)[i] == evs[i],
    decreases evs.len(),
{
    if evs.len() > 0 && !terminal(evs[0]) {
        let t = evs.drop_first();
        lemma_cut_prefix(t);
        assert forall|i: int| 0 <= i < cut(evs).len() implies #[trigger] cut(evs)[i] == evs[i] by {
            if i > 0 {
                assert(cut(evs)[i] == cut(t)[i - 1]);
            }
        }
    }
}

proof fn lemma_cut_clean(evs: Seq<EventView>)
    requires
        clean_completions(evs),
    ensures
        clean_completions(cut(evs)),
{
    lemma_cut_prefix(evs);
    let c = cut(evs);
    assert forall|i: int| 0 <= i < c.len() implies ((#[trigger] c[i]) matches EventView::Completed(e)
        ==> e.finish_reason == Some("stop"@)) by {
        assert(c[i] == evs[i]);
    }
}

proof fn lemma_concat_clean(a: Seq<EventView>, b: Seq<EventView>)
    requires
        clean_completions(a),
        clean_completions(b),
    ensures
        clean_completions(a + b),
{
    let ab = a + b;
    assert forall|i: int| 0 <= i < ab.len() implies ((#[trigger] ab[i]) matches EventView::Completed(e)
        ==> e.finish_reason == Some("stop"@)) by {
        if i < a.len() {
            assert(ab[i] == a[i]);
        } else {
            assert(ab[i] == b[i - a.len()]);
        }
    }
}

/// Drives one provider stream: turns its lines into events and sees to it
/// that exactly one terminal event ends them, with nothing after it.
pub struct StreamEventDriver {
    parser: EventParser,
    done: bool,
    emitted: Ghost<Seq<EventView>>,
}

impl StreamEventDriver {
    /// The parser's kind and evidence.
    pub closed spec fn parser(&self) -> ParserView {
        parser_view(self.parser)
    }

    /// Whether the terminal event has been given.
    pub closed spec fn finished(&self) -> bool {
        self.done
    }

    /// Every event given so far, in order.
    pub closed spec fn emitted(&self) -> Seq<EventView> {
        self.emitted@
    }

    /// The events given so far are well ended.
    pub closed spec fn wf(&self) -> bool {
        &&& well_ended(self.emitted@, self.done)
        &&& clean_completions(self.emitted@)
    }

    /// A driver for an OpenAI-compatible server-sent event stream.
    pub fn openai() -> (d: Self)
        ensures
            d.wf(),
            !d.finished(),
            d.emitted() == Seq::<EventView>::empty(),
            d.parser() == ParserView::OpenAi(empty_evidence()),
    {
        StreamEventDriver {
            parser: EventParser::OpenAi(OpenAiEventParser::new()),
            done: false,
            emitted: Ghost(Seq::empty()),
        }
    }

    /// A driver for an Ollama chat stream.
    pub fn ollama() -> (d: Self)
        ensures
            d.wf(),
            !d.finished(),
            d.emitted() == Seq::<EventView>::empty(),
            d.parser() == ParserView::Ollama(empty_evidence()),
    {
        StreamEventDriver {
            parser: EventParser::Ollama(OllamaEventParser::new()),
            done: false,
            emitted: Ghost(Seq::empty()),
        }
    }

    /// Whether the stream has ended; the caller stops reading then.
    pub fn is_done(&self) -> (b: bool)
        ensures
            b == self.finished(),
    {
        self.done
    }

    /// Gives the events the driver settles on, and records them.
    fn give(&mut self, out: Vec<StreamEvent>) -> (r: Vec<StreamEvent>)
        requires
            !old(self).done,
            well_ended(old(self).emitted@, false),
            clean_completions(old(self).emitted@),
            well_ended(events_view(out@), has_terminal(events_view(out@))),
            clean_completions(events_view(out@)),
        ensures
            r@ == out@,
            final(self).parser == old(self).parser,
            final(self).done == has_terminal(events_view(out@)),
            final(self).emitted@ == old(self).emitted@ + events_view(out@),
            final(self).wf(),
    {
        let ghost ov = events_view(out@);
        let ghost all = self.emitted@ + ov;
        let mut ended = false;
        if out.len() > 0 {
            ended = out[out.len() - 1].is_terminal();
            assert(ov.last() == event_view(out@[out@.len() - 1]));
        }
        self.done = ended;
        proof {
            self.emitted@ = all;
            lemma_concat_clean(old(self).emitted@, ov);
            assert forall|i: int| 0 <= i < all.len() - 1 implies !terminal(#[trigger] all[i]) by {
                if i < old(self).emitted@.len() {
                    assert(all[i] == old(self).emitted@[i]);
                } else {
                    assert(all[i] == ov[i - old(self).emitted@.len()]);
                }
            }
            if ov.len() > 0 {
                assert(all.last() == ov.last());
            }
        }
        out
    }

    /// The events of one complete line of the response body (without its
    /// newline); nothing once the stream has ended. Events after the first
    /// terminal one are dropped.
    pub fn push_line(&mut self, line: &[u8]) -> (out: Vec<StreamEvent>)
        requires
            old(self).wf(),
        ensures
            final(self).wf(),
            final(self).emitted() == old(self).emitted() + events_view(out@),
            old(self).finished() ==> out@.len() == 0 && final(self).parser() == old(self).parser()
                && final(self).finished(),
            !old(self).finished() ==> {
                let (p, evs) = line_events(old(self).parser(), line@);
                &&& events_view(out@) == cut(evs)
                &&& final(self).parser() == p
                &&& final(self).finished() == has_terminal(evs)
            },
    {
        if self.done {
            let out: Vec<StreamEvent> = Vec::new();
            assert(self.emitted@ + events_view(out@) =~= self.emitted@);
            return out;
        }
        let evs = match utf8_text(line) {
            Some(text) => {
                let t = without_trailing_cr(text.as_str());
                match &mut self.parser {
                    EventParser::OpenAi(p) => p.parse_line(t.as_str()),
                    EventParser::Ollama(p) => p.parse_line(t.as_str()),
                }
            },
            None => {
                proof {
                    reveal_strlit("frame is not valid UTF-8");
                }
                let mut v: Vec<StreamEvent> = Vec::new();
                v.push(invalid_event("frame is not valid UTF-8"));
                assert(events_view(v@) =~= seq![invalid("frame is not valid UTF-8"@)]);
                v
            },
        };
        let ghost evs_view = events_view(evs@);
        let cut_out = cut_events(&evs);
        proof {
            lemma_line_events_clean(old(self).parser(), line@);
            lemma_cut_clean(evs_view);
            if has_terminal(evs_view) {
                let k = choose|k: int| 0 <= k < evs_view.len() && terminal(#[trigger] evs_view[k]);
                assert(events_view(cut_out@).len() > 0);
            }
            if has_terminal(events_view(cut_out@)) {
                assert(events_view(cut_out@).last() == events_view(cut_out@)[events_view(cut_out@).len() - 1]);
            }
        }
        self.give(cut_out)
    }

    /// The end of the response body: an incomplete-stream error carrying
    /// the evidence seen so far, unless the stream had already ended.
    pub fn finish(&mut self) -> (out: Vec<StreamEvent>)
        requires
            old(self).wf(),
        ensures
            final(self).wf(),
            final(self).finished(),
            final(self).parser() == old(self).parser(),
            final(self).emitted() == old(self).emitted() + events_view(out@),
            old(self).finished() ==> out@.len() == 0,
            !old(self).finished() ==> events_view(out@) == seq![
                EventView::Error(ErrorView::IncompleteStream(parser_partial(old(self).parser()))),
            ],
    {
        if self.done {
            let out: Vec<StreamEvent> = Vec::new();
            assert(self.emitted@ + events_view(out@) =~= self.emitted@);
            return out;
        }
        let evidence = match &self.parser {
            EventParser::OpenAi(p) => p.partial_evidence(),
            EventParser::Ollama(p) => p.partial_evidence(),
        };
        let boxed = match evidence {
            Some(e) => Some(Box::new(e)),
            None => None,
        };
        let mut out: Vec<StreamEvent> = Vec::new();
        out.push(StreamEvent::Error(StreamEventError::IncompleteStream(boxed)));
        assert(events_view(out@) =~= seq![
            EventView::Error(ErrorView::IncompleteStream(parser_partial(self.parser()))),
        ]);
        assert(terminal(events_view(out@)[0]));
        self.give(out)
    }

    /// A failure to build the request, connect, or read the body: a
    /// request-failed error with the failure's message, unless the stream
    /// had already ended.
    pub fn request_failed(&mut self, message: String) -> (out: Vec<StreamEvent>)
        requires
            old(self).wf(),
        ensures
            final(self).wf(),
            final(self).finished(),
            final(self).parser() == old(self).parser(),
            final(self).emitted() == old(self).emitted() + events_view(out@),
            old(self).finished() ==> out@.len() == 0,
            !old(self).finished() ==> events_view(out@) == seq![
                EventView::Error(ErrorView::RequestFailed(message@)),
            ],
    {
        if self.done {
            let out: Vec<StreamEvent> = Vec::new();
            assert(self.emitted@ + events_view(out@) =~= self.emitted@);
            return out;
        }
        let mut out: Vec<StreamEvent> = Vec::new();
        out.push(StreamEvent::Error(StreamEventError::RequestFailed(message)));
        assert(events_view(out@) =~= seq![EventView::Error(ErrorView::RequestFailed(message@))]);
        assert(terminal(events_view(out@)[0]));
        self.give(out)
    }

    /// A response refused with a non-success HTTP status: the provider's
    /// error (see `provider_status_error`), unless the stream had already
    /// ended.
    pub fn http_error(&mut self, status: u16, body: &str) -> (out: Vec<StreamEvent>)
        requires
            old(self).wf(),
        ensures
            final(self).wf(),
            final(self).finished(),
            final(self).parser() == old(self).parser(),
            final(self).emitted() == old(self).emitted() + events_view(out@),
            old(self).finished() ==> out@.len() == 0,
            !old(self).finished() ==> events_view(out@) == seq![
                EventView::Error(provider_status_error(status, body@)),
            ],
    {
        if self.done {
            let out: Vec<StreamEvent> = Vec::new();
            assert(self.emitted@ + events_view(out@) =~= self.emitted@);
            return out;
        }
        let mut out: Vec<StreamEvent> = Vec::new();
        out.push(StreamEvent::Error(StreamEventError::provider_status(status, body)));
        assert(events_view(out@) =~= seq![EventView::Error(provider_status_error(status, body@))]);
        assert(terminal(events_view(out@)[0]));
        self.give(out)
    }
}

/// How many of the events are terminal.
pub open spec fn terminal_count(evs: Seq<EventView>) -> nat
    decreases evs.len(),
{
    if evs.len() == 0 {
        0
    } else {
        terminal_count(evs.drop_last()) + if terminal(evs.last()) {
            1nat
        } else {
            0nat
        }
    }
}

proof fn lemma_no_terminal_count(evs: Seq<EventView>)
    requires
        forall|i: int| 0 <= i < evs.len() ==> !terminal(#[trigger] evs[i]),
    ensures
        terminal_count(evs) == 0,
    decreases evs.len(),
{
    if evs.len() > 0 {
        let t = evs.drop_last();
        assert forall|i: int| 0 <= i < t.len() implies !terminal(#[trigger] t[i]) by {
            assert(t[i] == evs[i]);
        }
        lemma_no_terminal_count(t);
        assert(!terminal(evs[evs.len() - 1]));
    }
}

/// Every stream ends with exactly one terminal event, and nothing follows
/// it: once a driver is done, exactly one of the events it gave is
/// terminal, and it is the last.
pub proof fn lemma_exactly_one_terminal(d: StreamEventDriver)
    requires
        d.wf(),
        d.finished(),
    ensures
        d.emitted().len() > 0,
        terminal(d.emitted().last()),
        terminal_count(d.emitted()) == 1,
{
    let evs = d.emitted();
    let t = evs.drop_last();
    assert forall|i: int| 0 <= i < t.len() implies !terminal(#[trigger] t[i]) by {
        assert(t[i] == evs[i]);
    }
    lemma_no_terminal_count(t);
}

/// A stream that has not ended has given no terminal event.
pub proof fn lemma_open_stream_has_no_terminal(d: StreamEventDriver)
    requires
        d.wf(),
        !d.finished(),
    ensures
        terminal_count(d.emitted()) == 0,
{
    let evs = d.emitted();
    if evs.len() > 0 {
        assert(!terminal(evs.last()));
        assert forall|i: int| 0 <= i < evs.len() implies !terminal(#[trigger] evs[i]) by {
            if i < evs.len() - 1 {
            } else {
                assert(evs[i] == evs.last());
            }
        }
    }
    lemma_no_terminal_count(evs);
}


/// Truncated or unfinished output is never reported as complete: every
/// completed event a driver gives carries a `stop` finish reason.
pub proof fn lemma_completed_means_stop(d: StreamEventDriver, i: int)
    requires
        d.wf(),
        0 <= i < d.emitted().len(),
    ensures
        d.emitted()[i] matches EventView::Completed(e) ==> e.finish_reason == Some("stop"@),
{
}

} // verus!
