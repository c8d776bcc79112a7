//! The OpenAI realtime endpoint: credentials, connection headers, and the
//! fields each server event type must carry.
use vstd::prelude::*;
use vstd::string::StringExecFns;

verus! {

/// A failure of the realtime transport, with its message.
#[derive(Debug, Clone)]
pub struct TransportError(pub String);

impl TransportError {
    /// The message of the error.
    pub fn message(&self) -> (s: String)
        ensures
            s@ == self.0@,
    {
        self.0.clone()
    }
}

/// Options of the OpenAI realtime gateway.
#[derive(Debug, Clone)]
pub struct OpenAIRealtimeGatewayOptions {
    pub api_key: Option<String>,
    pub base_url: Option<String>,
}

impl Default for OpenAIRealtimeGatewayOptions {
    fn default() -> (o: Self)
        ensures
            o.api_key is None,
            o.base_url is None,
    {
        OpenAIRealtimeGatewayOptions { api_key: None, base_url: None }
    }
}

/// The OpenAI realtime endpoint and the key it is reached with.
pub struct OpenAIRealtimeGateway {
    api_key: String,
    base_url: String,
}

/// The endpoint used when none is configured.
pub open spec fn default_realtime_url() -> Seq<char> {
    "wss://api.openai.com/v1/realtime"@
}

impl OpenAIRealtimeGateway {
    /// The key used.
    pub closed spec fn key(&self) -> Seq<char> {
        self.api_key@
    }

    /// The endpoint used.
    pub closed spec fn url(&self) -> Seq<char> {
        self.base_url@
    }

    /// A gateway with the configured key, else the one from the
    /// `OPENAI_API_KEY` environment variable (`env_api_key`, read by the
    /// caller); without either there is no gateway. The endpoint defaults to
    /// OpenAI's.
    pub fn new(options: OpenAIRealtimeGatewayOptions, env_api_key: Option<String>) -> (r: Result<
        Self,
        &'static str,
    >)
        ensures
            match r {
                Ok(g) => {
                    &&& g.key() == match options.api_key {
                        Some(k) => k@,
                        None => env_api_key->0@,
                    }
                    &&& (options.api_key is Some || env_api_key is Some)
                    &&& g.url() == match options.base_url {
                        Some(u) => u@,
                        None => default_realtime_url(),
                    }
                },
                Err(e) => {
                    &&& options.api_key is None
                    &&& env_api_key is None
                    &&& e@ == "OpenAIRealtimeGateway requires api_key or OPENAI_API_KEY env var"@
                },
            },
    {
        let api_key = match options.api_key {
            Some(k) => k,
            None => match env_api_key {
                Some(k) => k,
                None => {
                    return Err("OpenAIRealtimeGateway requires api_key or OPENAI_API_KEY env var");
                },
            },
        };
        let base_url = match options.base_url {
            Some(u) => u,
            None => String::from_str("wss://api.openai.com/v1/realtime"),
        };
        Ok(OpenAIRealtimeGateway { api_key, base_url })
    }

    /// The endpoint to connect to.
    pub fn base_url(&self) -> (s: &str)
        ensures
            s@ == self.url(),
    {
        self.base_url.as_str()
    }

    /// The headers of a connection: the bearer key, the realtime beta flag,
    /// and the correlation id when there is one.
    pub fn connection_headers(&self, correlation_id: Option<String>) -> (h: Vec<(String, String)>)
        ensures
            h@.len() == if correlation_id is Some { 3int } else { 2int },
            h@[0].0@ == "authorization"@,
            h@[0].1@ == "Bearer "@ + self.key(),
            h@[1].0@ == "openai-beta"@,
            h@[1].1@ == "realtime=v1"@,
            correlation_id matches Some(c) ==> h@[2].0@ == "x-correlation-id"@ && h@[2].1 == c,
    {
        let mut bearer = String::from_str("Bearer ");
        bearer.append(self.api_key.as_str());
        let mut h: Vec<(String, String)> = Vec::new();
        h.push((String::from_str("authorization"), bearer));
        h.push((String::from_str("openai-beta"), String::from_str("realtime=v1")));
        match correlation_id {
            Some(c) => {
                h.push((String::from_str("x-correlation-id"), c));
            },
            None => {},
        }
        h
    }
}

/// The field paths each known server event type must carry; unknown types
/// have none on record.
pub open spec fn required_fields(t: Seq<char>) -> Option<Seq<Seq<Seq<char>>>> {
    if t == "session.created"@ {
        Some(seq![seq!["session"@, "id"@]])
    } else if t == "session.updated"@ {
        Some(seq![seq!["session"@]])
    } else if t == "input_audio_buffer.speech_started"@ || t == "input_audio_buffer.speech_stopped"@ {
        Some(Seq::empty())
    } else if t == "conversation.item.input_audio_transcription.completed"@ {
        Some(seq![seq!["item_id"@], seq!["transcript"@]])
    } else if t == "conversation.item.input_audio_transcription.delta"@ {
        Some(seq![seq!["item_id"@], seq!["delta"@]])
    } else if t == "response.created"@ {
        Some(seq![seq!["response"@, "id"@]])
    } else if t == "response.done"@ {
        Some(seq![seq!["response"@]])
    } else if t == "response.output_item.added"@ || t == "response.output_item.done"@ {
        Some(seq![seq!["response_id"@], seq!["item"@]])
    } else if t == "response.audio.delta"@ || t == "response.output_audio.delta"@ || t
        == "response.audio_transcript.delta"@ || t == "response.output_audio_transcript.delta"@ || t
        == "response.text.delta"@ || t == "response.output_text.delta"@ {
        Some(seq![seq!["response_id"@], seq!["delta"@]])
    } else if t == "response.audio_transcript.done"@ || t == "response.output_audio_transcript.done"@ {
        Some(seq![seq!["response_id"@], seq!["transcript"@]])
    } else if t == "response.text.done"@ || t == "response.output_text.done"@ {
        Some(seq![seq!["response_id"@], seq!["text"@]])
    } else if t == "response.function_call_arguments.delta"@ {
        Some(seq![seq!["response_id"@], seq!["call_id"@], seq!["delta"@]])
    } else if t == "response.function_call_arguments.done"@ {
        Some(seq![seq!["response_id"@], seq!["call_id"@], seq!["name"@], seq!["arguments"@]])
    } else if t == "rate_limits.updated"@ {
        Some(seq![seq!["rate_limits"@]])
    } else if t == "error"@ {
        Some(seq![seq!["error"@]])
    } else {
        None
    }
}

/// The view of field paths.
pub open spec fn paths_view(p: Seq<Vec<String>>) -> Seq<Seq<Seq<char>>> {
    p.map_values(|path: Vec<String>| path@.map_values(|s: String| s@))
}

fn path1(a: &str) -> (p: Vec<String>)
    ensures
        p@.map_values(|s: String| s@) == seq![a@],
{
    let p = vec![String::from_str(a)];
    assert(p@.map_values(|s: String| s@) =~= seq![a@]);
    p
}

fn path2(a: &str, b: &str) -> (p: Vec<String>)
    ensures
        p@.map_values(|s: String| s@) == seq![a@, b@],
{
    let p = vec![String::from_str(a), String::from_str(b)];
    assert(p@.map_values(|s: String| s@) =~= seq![a@, b@]);
    p
}

/// The field paths a server event type must carry, as `required_fields` says.
pub fn required_fields_for(event_type: &str) -> (r: Option<Vec<Vec<String>>>)
    ensures
        match r {
            Some(v) => required_fields(event_type@) == Some(paths_view(v@)),
            None => required_fields(event_type@) is None,
        },
{
    let t = event_type;
    let is = |lit: &str| -> (b: bool)
        ensures
            b == (t@ == lit@),
        { crate::text::str_eq(t, lit) };
    if is("session.created") {
        let v = vec![path2("session", "id")];
        assert(paths_view(v@) =~= seq![seq!["session"@, "id"@]]);
        Some(v)
    } else if is("session.updated") {
        let v = vec![path1("session")];
        assert(paths_view(v@) =~= seq![seq!["session"@]]);
        Some(v)
    } else if is("input_audio_buffer.speech_started") || is("input_audio_buffer.speech_stopped") {
        let v: Vec<Vec<String>> = Vec::new();
        assert(paths_view(v@) =~= Seq::empty());
        Some(v)
    } else if is("conversation.item.input_audio_transcription.completed") {
        let v = vec![path1("item_id"), path1("transcript")];
        assert(paths_view(v@) =~= seq![seq!["item_id"@], seq!["transcript"@]]);
        Some(v)
    } else if is("conversation.item.input_audio_transcription.delta") {
        let v = vec![path1("item_id"), path1("delta")];
        assert(paths_view(v@) =~= seq![seq!["item_id"@], seq!["delta"@]]);
        Some(v)
    } else if is("response.created") {
        let v = vec![path2("response", "id")];
        assert(paths_view(v@) =~= seq![seq!["response"@, "id"@]]);
        Some(v)
    } else if is("response.done") {
        let v = vec![path1("response")];
        assert(paths_view(v@) =~= seq![seq!["response"@]]);
        Some(v)
    } else if is("response.output_item.added") || is("response.output_item.done") {
        let v = vec![path1("response_id"), path1("item")];
        assert(paths_view(v@) =~= seq![seq!["response_id"@], seq!["item"@]]);
        Some(v)
    } else if is("response.audio.delta") || is("response.output_audio.delta") || is(
        "response.audio_transcript.delta",
    ) || is("response.output_audio_transcript.delta") || is("response.text.delta") || is(
        "response.output_text.delta",
    ) {
        let v = vec![path1("response_id"), path1("delta")];
        assert(paths_view(v@) =~= seq![seq!["response_id"@], seq!["delta"@]]);
        Some(v)
    } else if is("response.audio_transcript.done") || is("response.output_audio_transcript.done") {
        let v = vec![path1("response_id"), path1("transcript")];
        assert(paths_view(v@) =~= seq![seq!["response_id"@], seq!["transcript"@]]);
        Some(v)
    } else if is("response.text.done") || is("response.output_text.done") {
        let v = vec![path1("response_id"), path1("text")];
        assert(paths_view(v@) =~= seq![seq!["response_id"@], seq!["text"@]]);
        Some(v)
    } else if is("response.function_call_arguments.delta") {
        let v = vec![path1("response_id"), path1("call_id"), path1("delta")];
        assert(paths_view(v@) =~= seq![seq!["response_id"@], seq!["call_id"@], seq!["delta"@]]);
        Some(v)
    } else if is("response.function_call_arguments.done") {
        let v = vec![path1("response_id"), path1("call_id"), path1("name"), path1("arguments")];
        assert(paths_view(v@) =~= seq![
            seq!["response_id"@],
            seq!["call_id"@],
            seq!["name"@],
            seq!["arguments"@],
        ]);
        Some(v)
    } else if is("rate_limits.updated") {
        let v = vec![path1("rate_limits")];
        assert(paths_view(v@) =~= seq![seq!["rate_limits"@]]);
        Some(v)
    } else if is("error") {
        let v = vec![path1("error")];
        assert(paths_view(v@) =~= seq![seq!["error"@]]);
        Some(v)
    } else {
        None
    }
}

} // verus!
