//! Requests to an Ollama server: where it is, how messages and options
//! are shaped for its chat API.
use vstd::prelude::*;
use vstd::string::StringExecFns;
use std::collections::HashMap;
use std::time::Duration;
use crate::codec::{base64_len, base64_standard, encode_base64};
use crate::models::{LlmMessage, LlmToolCall, MessageRole};

verus! {

/// Where the Ollama server is and how to reach it.
#[derive(Debug, Clone)]
pub struct OllamaConfig {
    pub host: String,
    pub timeout: Option<Duration>,
    pub headers: HashMap<String, String>,
}

impl OllamaConfig {
    /// The configuration from the `OLLAMA_HOST` environment variable (read
    /// by the caller), `http://localhost:11434` when unset; no timeout and
    /// no extra headers.
    pub fn from_environment(host: Option<String>) -> (c: Self)
        ensures
            c.host@ == match host {
                Some(h) => h@,
                None => "http://localhost:11434"@,
            },
            c.timeout is None,
            c.headers@.len() == 0,
    {
        OllamaConfig {
            host: match host {
                Some(h) => h,
                None => String::from_str("http://localhost:11434"),
            },
            timeout: None,
            headers: HashMap::new(),
        }
    }
}

/// The `num_predict` option: a positive prediction count, else, when none is
/// set, a positive token maximum; a prediction count of zero or less means
/// none.
pub open spec fn num_predict_option(num_predict: Option<i32>, max_tokens: usize) -> Option<u64> {
    match num_predict {
        Some(np) => if np > 0 {
            Some(np as u64)
        } else {
            None
        },
        None => if max_tokens > 0 {
            Some(max_tokens as u64)
        } else {
            None
        },
    }
}

/// The `num_predict` option of a request, as `num_predict_option` says.
pub fn extract_num_predict(num_predict: Option<i32>, max_tokens: usize) -> (r: Option<u64>)
    ensures
        r == num_predict_option(num_predict, max_tokens),
{
    match num_predict {
        Some(np) => if np > 0 {
            Some(np as u64)
        } else {
            None
        },
        None => if max_tokens > 0 {
            Some(max_tokens as u64)
        } else {
            None
        },
    }
}

/// A tool call as Ollama takes it: a function with its arguments as JSON text.
#[derive(Debug, Clone)]
pub struct OllamaToolCall {
    pub name: String,
    pub arguments: String,
}

/// A chat message as Ollama takes it.
#[derive(Debug, Clone)]
pub struct OllamaMessage {
    pub role: String,
    pub content: String,
    /// The base64 text of each image.
    pub images: Option<Vec<String>>,
    pub tool_calls: Option<Vec<OllamaToolCall>>,
}

/// The wire name of a role.
pub open spec fn role_word(r: MessageRole) -> Seq<char> {
    match r {
        MessageRole::System => "system"@,
        MessageRole::User => "user"@,
        MessageRole::Assistant => "assistant"@,
        MessageRole::Tool => "tool"@,
    }
}

/// The wire name of a role.
pub fn role_name(r: MessageRole) -> (s: String)
    ensures
        s@ == role_word(r),
{
    match r {
        MessageRole::System => String::from_str("system"),
        MessageRole::User => String::from_str("user"),
        MessageRole::Assistant => String::from_str("assistant"),
        MessageRole::Tool => String::from_str("tool"),
    }
}

/// Every image fits a base64 text in a machine word.
pub open spec fn all_encodable(images: Seq<Vec<u8>>) -> bool {
    forall|i: int| 0 <= i < images.len() ==> base64_len((#[trigger] images[i])@.len()) <= usize::MAX
}

/// `o` is the Ollama form of `m`, given the bytes of its images.
pub open spec fn ollama_adapted(m: LlmMessage, images: Option<Vec<Vec<u8>>>, o: OllamaMessage) -> bool {
    &&& o.role@ == role_word(m.role)
    &&& o.content@ == match m.content {
        Some(c) => c@,
        None => Seq::empty(),
    }
    &&& match images {
        Some(bs) => o.images matches Some(v) && v@.len() == bs@.len() && forall|i: int|
            0 <= i < bs@.len() ==> (#[trigger] v@[i])@ == base64_standard(bs@[i]@),
        None => o.images is None,
    }
    &&& match m.tool_calls {
        Some(cs) => o.tool_calls matches Some(v) && v@.len() == cs@.len() && forall|i: int|
            0 <= i < cs@.len() ==> (#[trigger] v@[i]).name@ == cs@[i].name@ && v@[i].arguments@
                == cs@[i].arguments@,
        None => o.tool_calls is None,
    }
}

/// The bytes read for the images of each message fit its image paths.
pub open spec fn ollama_images_fit(messages: Seq<LlmMessage>, images: Seq<Option<Vec<Vec<u8>>>>) -> bool {
    &&& images.len() == messages.len()
    &&& forall|i: int|
        0 <= i < messages.len() ==> match (messages[i].image_paths, #[trigger] images[i]) {
            (Some(ps), Some(bs)) => bs@.len() == ps@.len() && all_encodable(bs@),
            (None, None) => true,
            _ => false,
        }
}

fn adapt_message_to_ollama(m: &LlmMessage, images: &Option<Vec<Vec<u8>>>) -> (o: OllamaMessage)
    requires
        match images {
            Some(bs) => all_encodable(bs@),
            None => true,
        },
    ensures
        ollama_adapted(*m, *images, o),
{
    let content = match &m.content {
        Some(c) => c.clone(),
        None => String::new(),
    };
    let encoded = match images {
        Some(bs) => {
            let mut v: Vec<String> = Vec::new();
            let mut i: usize = 0;
            while i < bs.len()
                invariant
                    i <= bs@.len(),
                    all_encodable(bs@),
                    v@.len() == i,
                    forall|k: int| 0 <= k < i ==> (#[trigger] v@[k])@ == base64_standard(bs@[k]@),
                decreases bs@.len() - i,
            {
                assert(base64_len(bs@[i as int]@.len()) <= usize::MAX);
                v.push(encode_base64(bs[i].as_slice()));
                i = i + 1;
            }
            Some(v)
        },
        None => None,
    };
    let calls = match &m.tool_calls {
        Some(cs) => {
            let mut v: Vec<OllamaToolCall> = Vec::new();
            let mut i: usize = 0;
            while i < cs.len()
                invariant
                    i <= cs@.len(),
                    v@.len() == i,
                    forall|k: int|
                        0 <= k < i ==> (#[trigger] v@[k]).name@ == cs@[k].name@ && v@[k].arguments@
                            == cs@[k].arguments@,
                decreases cs@.len() - i,
            {
                v.push(OllamaToolCall { name: cs[i].name.clone(), arguments: cs[i].arguments.clone() });
                i = i + 1;
            }
            Some(v)
        },
        None => None,
    };
    OllamaMessage { role: role_name(m.role), content, images: encoded, tool_calls: calls }
}

/// The Ollama form of each message, in order, given the bytes read for the
/// image paths of each message (the caller fails when any cannot be read).
pub fn adapt_messages_to_ollama(messages: &[LlmMessage], images: &[Option<Vec<Vec<u8>>>]) -> (out: Vec<
    OllamaMessage,
>)
    requires
        ollama_images_fit(messages@, images@),
    ensures
        out@.len() == messages@.len(),
        forall|i: int| 0 <= i < messages@.len() ==> ollama_adapted(messages@[i], images@[i], #[trigger] out@[i]),
{
    let mut out: Vec<OllamaMessage> = Vec::new();
    let mut i: usize = 0;
    while i < messages.len()
        invariant
            i <= messages@.len(),
            ollama_images_fit(messages@, images@),
            out@.len() == i,
            forall|j: int| 0 <= j < i ==> ollama_adapted(messages@[j], images@[j], #[trigger] out@[j]),
        decreases messages@.len() - i,
    {
        proof {
            let k = i as int;
            assert(match (messages@[k].image_paths, images@[k]) {
                (Some(ps), Some(bs)) => bs@.len() == ps@.len() && all_encodable(bs@),
                (None, None) => true,
                _ => false,
            });
        }
        out.push(adapt_message_to_ollama(&messages[i], &images[i]));
        i = i + 1;
    }
    out
}

} // verus!
