//! Conversion of conversation messages to the OpenAI chat format.
use vstd::prelude::*;
use crate::models::{LlmMessage, LlmToolCall, MessageRole};
use crate::text::{chars_eq, chars_of, lowercase, to_lowercase};
use vstd::string::StringExecFns;
use crate::codec::{base64_len, base64_standard, encode_base64};

verus! {

/// An OpenAI chat message. Assistant messages without text carry no content.
#[derive(Debug, Clone)]
pub struct OpenAIMessage {
    pub role: String,
    pub content: Option<OpenAIContent>,
    pub tool_calls: Option<Vec<OpenAIToolCall>>,
    pub tool_call_id: Option<String>,
}

/// Message content: plain text, or parts mixing text and images.
#[derive(Debug, Clone)]
pub enum OpenAIContent {
    Text(String),
    Parts(Vec<OpenAIContentPart>),
}

/// One part of multimodal content.
#[derive(Debug, Clone)]
pub enum OpenAIContentPart {
    Text { text: String },
    ImageUrl { url: String },
}

/// A tool call in the OpenAI format.
#[derive(Debug, Clone)]
pub struct OpenAIToolCall {
    pub id: String,
    pub call_type: String,
    pub function: OpenAIToolCallFunction,
}

/// The function of an OpenAI tool call, with its arguments as JSON text.
#[derive(Debug, Clone)]
pub struct OpenAIToolCallFunction {
    pub name: String,
    pub arguments: String,
}

/// The extension `std::path::Path::extension` finds in a path, as text.
pub uninterp spec fn path_extension(path: Seq<char>) -> Option<Seq<char>>;

/// Calls `Path::new(path).extension()` and reads the extension as text
/// (always possible for a path made from a `str`); the result is named
/// `path_extension` of the path.
#[verifier::external_body]
fn extension_of(path: &str) -> (r: Option<String>)
    ensures
        match r {
            Some(e) => path_extension(path@) == Some(e@),
            None => path_extension(path@) is None,
        },
{
    std::path::Path::new(path).extension().map(|e| e.to_string_lossy().into_owned())
}

/// The image type named by a path's extension, ignoring case; unknown or
/// missing extensions count as JPEG.
pub open spec fn image_type_of(path: Seq<char>) -> Seq<char> {
    let ext = match path_extension(path) {
        Some(e) => lowercase(e),
        None => lowercase(Seq::empty()),
    };
    if ext == "jpg"@ || ext == "jpeg"@ {
        "jpeg"@
    } else if ext == "png"@ {
        "png"@
    } else if ext == "gif"@ {
        "gif"@
    } else if ext == "webp"@ {
        "webp"@
    } else {
        "jpeg"@
    }
}

fn is_word(s: &[char], w: &str) -> (b: bool)
    ensures
        b == (s@ == w@),
{
    let v = chars_of(w);
    chars_eq(s, v.as_slice())
}

/// The image type of a file, from its extension: `jpeg`, `png`, `gif` or
/// `webp`, with `jpeg` for anything else.
pub fn get_image_type(file_path: &str) -> (t: &'static str)
    ensures
        t@ == image_type_of(file_path@),
{
    let ext = match extension_of(file_path) {
        Some(e) => e,
        None => String::new(),
    };
    let lower = to_lowercase(ext.as_str());
    let l = chars_of(lower.as_str());
    if is_word(l.as_slice(), "jpg") || is_word(l.as_slice(), "jpeg") {
        "jpeg"
    } else if is_word(l.as_slice(), "png") {
        "png"
    } else if is_word(l.as_slice(), "gif") {
        "gif"
    } else if is_word(l.as_slice(), "webp") {
        "webp"
    } else {
        "jpeg"
    }
}

/// `data:image/<type>;base64,<data>` for an image file's bytes.
pub open spec fn image_data_url(path: Seq<char>, bytes: Seq<u8>) -> Seq<char> {
    "data:image/"@ + image_type_of(path) + ";base64,"@ + base64_standard(bytes)
}

/// The data URL of an image file, from its path and bytes.
pub fn encode_image_as_base64(file_path: &str, bytes: &[u8]) -> (s: String)
    requires
        base64_len(bytes@.len()) <= usize::MAX,
    ensures
        s@ == image_data_url(file_path@, bytes@),
{
    let data = encode_base64(bytes);
    let mut s = String::from_str("data:image/");
    s.append(get_image_type(file_path));
    s.append(";base64,");
    s.append(data.as_str());
    s
}

/// The text of a message, or the empty text.
pub open spec fn text_or_empty(content: Option<String>) -> Seq<char> {
    match content {
        Some(c) => c@,
        None => Seq::empty(),
    }
}

/// Every loaded image fits a base64 text in a machine word.
pub open spec fn images_encodable(images: Seq<Option<Vec<u8>>>) -> bool {
    forall|i: int|
        0 <= i < images.len() ==> match #[trigger] images[i] {
            Some(b) => base64_len(b@.len()) <= usize::MAX,
            None => true,
        }
}

/// The image parts for the images that could be read, in order.
pub open spec fn image_parts(paths: Seq<String>, images: Seq<Option<Vec<u8>>>) -> Seq<Seq<char>>
    decreases paths.len(),
{
    if paths.len() == 0 || images.len() == 0 {
        Seq::empty()
    } else {
        let rest = image_parts(paths.drop_last(), images.drop_last());
        match images.last() {
            Some(b) => rest.push(image_data_url(paths.last()@, b@)),
            None => rest,
        }
    }
}

/// The OpenAI form of a tool call: its id (or the empty text), the type
/// `function`, its name and its arguments.
pub open spec fn tool_call_matches(c: LlmToolCall, o: OpenAIToolCall) -> bool {
    &&& o.id@ == text_or_empty(c.id)
    &&& o.call_type@ == "function"@
    &&& o.function.name@ == c.name@
    &&& o.function.arguments@ == c.arguments@
}

/// `p` is a text part holding `t`.
pub open spec fn is_text_part(p: OpenAIContentPart, t: Seq<char>) -> bool {
    match p {
        OpenAIContentPart::Text { text } => text@ == t,
        _ => false,
    }
}

/// `p` is an image part holding the URL `u`.
pub open spec fn is_image_part(p: OpenAIContentPart, u: Seq<char>) -> bool {
    match p {
        OpenAIContentPart::ImageUrl { url } => url@ == u,
        _ => false,
    }
}

/// The text parts and image parts of a user message with images.
pub open spec fn parts_match(parts: Seq<OpenAIContentPart>, text: Option<String>, urls: Seq<Seq<char>>) -> bool {
    let has_text = match text {
        Some(t) => t@.len() > 0,
        None => false,
    };
    let offset: int = if has_text { 1 } else { 0 };
    &&& parts.len() == urls.len() + offset
    &&& has_text ==> is_text_part(parts[0], text_or_empty(text))
    &&& forall|i: int| 0 <= i < urls.len() ==> is_image_part(#[trigger] parts[i + offset], urls[i])
}

/// `o` is the OpenAI form of `m`, given the bytes read for each of its images
/// (`None` for an image that could not be read, which is left out).
pub open spec fn adapted(m: LlmMessage, images: Seq<Option<Vec<u8>>>, o: OpenAIMessage) -> bool {
    match m.role {
        MessageRole::System => {
            &&& o.role@ == "system"@
            &&& o.content matches Some(OpenAIContent::Text(t)) && t@ == text_or_empty(m.content)
            &&& o.tool_calls is None
            &&& o.tool_call_id is None
        },
        MessageRole::User => {
            &&& o.role@ == "user"@
            &&& o.tool_calls is None
            &&& o.tool_call_id is None
            &&& match m.image_paths {
                Some(ps) => if ps@.len() > 0 {
                    o.content matches Some(OpenAIContent::Parts(parts)) && parts_match(
                        parts@,
                        m.content,
                        image_parts(ps@, images),
                    )
                } else {
                    o.content matches Some(OpenAIContent::Text(t)) && t@ == text_or_empty(m.content)
                },
                None => o.content matches Some(OpenAIContent::Text(t)) && t@ == text_or_empty(m.content),
            }
        },
        MessageRole::Assistant => {
            &&& o.role@ == "assistant"@
            &&& match m.content {
                Some(c) => o.content matches Some(OpenAIContent::Text(t)) && t@ == c@,
                None => o.content is None,
            }
            &&& match m.tool_calls {
                Some(calls) => o.tool_calls matches Some(ocs) && ocs@.len() == calls@.len() && forall|
                    i: int,
                | 0 <= i < calls@.len() ==> tool_call_matches(calls@[i], #[trigger] ocs@[i]),
                None => o.tool_calls is None,
            }
            &&& o.tool_call_id is None
        },
        MessageRole::Tool => {
            &&& o.role@ == "tool"@
            &&& o.content matches Some(OpenAIContent::Text(t)) && t@ == text_or_empty(m.content)
            &&& o.tool_calls is None
            &&& o.tool_call_id matches Some(id) && id@ == match m.tool_calls {
                Some(calls) => if calls@.len() > 0 {
                    text_or_empty(calls@[0].id)
                } else {
                    Seq::empty()
                },
                None => Seq::empty(),
            }
        },
    }
}

fn text_of(content: &Option<String>) -> (s: String)
    ensures
        s@ == text_or_empty(*content),
{
    match content {
        Some(c) => c.clone(),
        None => String::new(),
    }
}

fn convert_call(c: &LlmToolCall) -> (o: OpenAIToolCall)
    ensures
        tool_call_matches(*c, o),
{
    OpenAIToolCall {
        id: text_of(&c.id),
        call_type: String::from_str("function"),
        function: OpenAIToolCallFunction { name: c.name.clone(), arguments: c.arguments.clone() },
    }
}

fn user_parts(text: &Option<String>, paths: &Vec<String>, images: &[Option<Vec<u8>>]) -> (parts: Vec<
    OpenAIContentPart,
>)
    requires
        images@.len() == paths@.len(),
        images_encodable(images@),
    ensures
        parts_match(parts@, *text, image_parts(paths@, images@)),
{
    let mut parts: Vec<OpenAIContentPart> = Vec::new();
    let has_text = match text {
        Some(t) => !t.as_str().is_empty(),
        None => false,
    };
    if has_text {
        parts.push(OpenAIContentPart::Text { text: text_of(text) });
    }
    let ghost offset: int = if has_text { 1 } else { 0 };
    let mut i: usize = 0;
    while i < paths.len()
        invariant
            i <= paths@.len(),
            images@.len() == paths@.len(),
            images_encodable(images@),
            offset == (if has_text { 1int } else { 0int }),
            has_text == (match *text {
                Some(t) => t@.len() > 0,
                None => false,
            }),
            has_text ==> is_text_part(parts@[0], text_or_empty(*text)),
            parts@.len() == image_parts(paths@.take(i as int), images@.take(i as int)).len() + offset,
            forall|j: int|
                0 <= j < image_parts(paths@.take(i as int), images@.take(i as int)).len()
                    ==> is_image_part(
                    #[trigger] parts@[j + offset],
                    image_parts(paths@.take(i as int), images@.take(i as int))[j],
                ),
        decreases paths@.len() - i,
    {
        let ghost before = image_parts(paths@.take(i as int), images@.take(i as int));
        proof {
            assert(paths@.take(i + 1).drop_last() =~= paths@.take(i as int));
            assert(images@.take(i + 1).drop_last() =~= images@.take(i as int));
        }
        match &images[i] {
            Some(bytes) => {
                proof {
                    assert(base64_len(bytes@.len()) <= usize::MAX) by {
                        let k = i as int;
                        assert(images@[k] matches Some(b) && base64_len(b@.len()) <= usize::MAX);
                    }
                }
                let url = encode_image_as_base64(paths[i].as_str(), bytes.as_slice());
                parts.push(OpenAIContentPart::ImageUrl { url });
            },
            None => {},
        }
        i = i + 1;
    }
    proof {
        assert(paths@.take(paths@.len() as int) =~= paths@);
        assert(images@.take(images@.len() as int) =~= images@);
    }
    parts
}

/// The OpenAI form of one message, given the bytes read for each of its
/// image paths (`None` for an image that could not be read).
pub fn adapt_message_to_openai(msg: &LlmMessage, images: &[Option<Vec<u8>>]) -> (o: OpenAIMessage)
    requires
        images@.len() == match msg.image_paths {
            Some(ps) => ps@.len(),
            None => 0,
        },
        images_encodable(images@),
    ensures
        adapted(*msg, images@, o),
{
    match msg.role {
        MessageRole::System => OpenAIMessage {
            role: String::from_str("system"),
            content: Some(OpenAIContent::Text(text_of(&msg.content))),
            tool_calls: None,
            tool_call_id: None,
        },
        MessageRole::User => {
            let content = match &msg.image_paths {
                Some(paths) => {
                    if paths.len() > 0 {
                        OpenAIContent::Parts(user_parts(&msg.content, paths, images))
                    } else {
                        OpenAIContent::Text(text_of(&msg.content))
                    }
                },
                None => OpenAIContent::Text(text_of(&msg.content)),
            };
            OpenAIMessage {
                role: String::from_str("user"),
                content: Some(content),
                tool_calls: None,
                tool_call_id: None,
            }
        },
        MessageRole::Assistant => {
            let content = match &msg.content {
                Some(c) => Some(OpenAIContent::Text(c.clone())),
                None => None,
            };
            let tool_calls = match &msg.tool_calls {
                Some(calls) => {
                    let mut out: Vec<OpenAIToolCall> = Vec::new();
                    let mut i: usize = 0;
                    while i < calls.len()
                        invariant
                            i <= calls@.len(),
                            out@.len() == i,
                            forall|j: int| 0 <= j < i ==> tool_call_matches(calls@[j], #[trigger] out@[j]),
                        decreases calls@.len() - i,
                    {
                        out.push(convert_call(&calls[i]));
                        i = i + 1;
                    }
                    Some(out)
                },
                None => None,
            };
            OpenAIMessage {
                role: String::from_str("assistant"),
                content,
                tool_calls,
                tool_call_id: None,
            }
        },
        MessageRole::Tool => {
            let id = match &msg.tool_calls {
                Some(calls) => {
                    if calls.len() > 0 {
                        text_of(&calls[0].id)
                    } else {
                        String::new()
                    }
                },
                None => String::new(),
            };
            OpenAIMessage {
                role: String::from_str("tool"),
                content: Some(OpenAIContent::Text(text_of(&msg.content))),
                tool_calls: None,
                tool_call_id: Some(id),
            }
        },
    }
}

/// The image bytes read for each message fit its image paths.
pub open spec fn images_fit(messages: Seq<LlmMessage>, images: Seq<Vec<Option<Vec<u8>>>>) -> bool {
    &&& images.len() == messages.len()
    &&& forall|i: int|
        0 <= i < messages.len() ==> {
            &&& #[trigger] images[i]@.len() == match messages[i].image_paths {
                Some(ps) => ps@.len(),
                None => 0,
            }
            &&& images_encodable(images[i]@)
        }
}

/// The OpenAI form of each message, in order, given the bytes read for the
/// image paths of each message.
pub fn adapt_messages_to_openai(messages: &[LlmMessage], images: &[Vec<Option<Vec<u8>>>]) -> (out: Vec<
    OpenAIMessage,
>)
    requires
        images_fit(messages@, images@),
    ensures
        out@.len() == messages@.len(),
        forall|i: int| 0 <= i < messages@.len() ==> adapted(messages@[i], images@[i]@, #[trigger] out@[i]),
{
    let mut out: Vec<OpenAIMessage> = Vec::new();
    let mut i: usize = 0;
    while i < messages.len()
        invariant
            i <= messages@.len(),
            images_fit(messages@, images@),
            out@.len() == i,
            forall|j: int| 0 <= j < i ==> adapted(messages@[j], images@[j]@, #[trigger] out@[j]),
        decreases messages@.len() - i,
    {
        proof {
            let k = i as int;
            assert(images@[k]@.len() == match messages@[k].image_paths {
                Some(ps) => ps@.len(),
                None => 0,
            });
        }
        out.push(adapt_message_to_openai(&messages[i], images[i].as_slice()));
        i = i + 1;
    }
    out
}

} // verus!
