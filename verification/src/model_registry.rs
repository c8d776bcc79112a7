//! OpenAI model capabilities: which models are reasoning or chat models, what
//! they support, and how an unknown model name is classified.
use vstd::prelude::*;
use crate::text::{
    chars_eq, chars_of, contains_chars, contains_seq, lowercase, occurs_at, starts_with_chars,
    to_lowercase,
};
use vstd::string::StringExecFns;

verus! {

/// The family a model belongs to, which decides its request parameters.
#[derive(Debug, Clone, Copy, PartialEq, Eq, Structural)]
pub enum ModelType {
    /// Models such as o1 and o3 that take `max_completion_tokens`.
    Reasoning,
    /// Chat models that take `max_tokens`.
    Chat,
    Embedding,
    Moderation,
}

/// What a model supports. Temperatures are in hundredths (1.0 is 100):
/// `None` allows every temperature, an empty list allows none.
#[derive(Debug, Clone)]
pub struct ModelCapabilities {
    pub model_type: ModelType,
    pub supports_tools: bool,
    pub supports_streaming: bool,
    pub supports_vision: bool,
    pub max_context_tokens: Option<u32>,
    pub max_output_tokens: Option<u32>,
    pub supported_temperatures: Option<Vec<u32>>,
    pub supports_chat_api: bool,
    pub supports_completions_api: bool,
    pub supports_responses_api: bool,
}

/// The mathematical content of a capability record.
pub struct CapsView {
    pub model_type: ModelType,
    pub supports_tools: bool,
    pub supports_streaming: bool,
    pub supports_vision: bool,
    pub max_context_tokens: Option<u32>,
    pub max_output_tokens: Option<u32>,
    pub supported_temperatures: Option<Seq<u32>>,
    pub supports_chat_api: bool,
    pub supports_completions_api: bool,
    pub supports_responses_api: bool,
}

impl View for ModelCapabilities {
    type V = CapsView;

    open spec fn view(&self) -> CapsView {
        CapsView {
            model_type: self.model_type,
            supports_tools: self.supports_tools,
            supports_streaming: self.supports_streaming,
            supports_vision: self.supports_vision,
            max_context_tokens: self.max_context_tokens,
            max_output_tokens: self.max_output_tokens,
            supported_temperatures: match self.supported_temperatures {
                Some(v) => Some(v@),
                None => None,
            },
            supports_chat_api: self.supports_chat_api,
            supports_completions_api: self.supports_completions_api,
            supports_responses_api: self.supports_responses_api,
        }
    }
}

/// A capability record with every field given.
pub open spec fn caps_view(
    model_type: ModelType,
    supports_tools: bool,
    supports_streaming: bool,
    supports_vision: bool,
    max_context_tokens: Option<u32>,
    max_output_tokens: Option<u32>,
    supported_temperatures: Option<Seq<u32>>,
    supports_chat_api: bool,
    supports_completions_api: bool,
    supports_responses_api: bool,
) -> CapsView {
    CapsView {
        model_type,
        supports_tools,
        supports_streaming,
        supports_vision,
        max_context_tokens,
        max_output_tokens,
        supported_temperatures,
        supports_chat_api,
        supports_completions_api,
        supports_responses_api,
    }
}

/// Whether a temperature (in hundredths) is allowed by the capability record.
pub open spec fn allows_temperature(c: CapsView, t: u32) -> bool {
    match c.supported_temperatures {
        None => true,
        Some(ts) => ts.contains(t),
    }
}

/// The capabilities assumed for an unlisted model of a family.
pub open spec fn default_caps_for(t: ModelType) -> CapsView {
    match t {
        ModelType::Reasoning => caps_view(
            ModelType::Reasoning, false, false, false, None, None, None, true, false, false),
        ModelType::Chat => caps_view(
            ModelType::Chat, true, true, false, None, None, None, true, false, false),
        ModelType::Embedding => caps_view(
            ModelType::Embedding, false, false, false, None, None, None, false, false, false),
        ModelType::Moderation => caps_view(
            ModelType::Moderation, false, false, false, None, None, None, false, false, false),
    }
}

fn new_caps(
    model_type: ModelType,
    supports_tools: bool,
    supports_streaming: bool,
    supports_vision: bool,
    max_context_tokens: Option<u32>,
    max_output_tokens: Option<u32>,
    supported_temperatures: Option<Vec<u32>>,
    supports_chat_api: bool,
    supports_completions_api: bool,
    supports_responses_api: bool,
) -> (c: ModelCapabilities)
    ensures
        c@ == caps_view(
            model_type,
            supports_tools,
            supports_streaming,
            supports_vision,
            max_context_tokens,
            max_output_tokens,
            match supported_temperatures {
                Some(v) => Some(v@),
                None => None,
            },
            supports_chat_api,
            supports_completions_api,
            supports_responses_api,
        ),
{
    ModelCapabilities {
        model_type,
        supports_tools,
        supports_streaming,
        supports_vision,
        max_context_tokens,
        max_output_tokens,
        supported_temperatures,
        supports_chat_api,
        supports_completions_api,
        supports_responses_api,
    }
}

fn only_default_temperature() -> (v: Vec<u32>)
    ensures
        v@ == seq![100u32],
{
    let mut v = Vec::new();
    v.push(100u32);
    v
}

impl ModelCapabilities {
    /// The name of the token-limit parameter: `max_completion_tokens` for
    /// reasoning models, `max_tokens` otherwise.
    pub fn get_token_limit_param(&self) -> (s: &'static str)
        ensures
            s@ == (if self.model_type == ModelType::Reasoning {
                "max_completion_tokens"@
            } else {
                "max_tokens"@
            }),
    {
        if self.model_type == ModelType::Reasoning {
            "max_completion_tokens"
        } else {
            "max_tokens"
        }
    }

    /// Whether the model accepts a temperature, given in hundredths.
    pub fn supports_temperature(&self, temperature: u32) -> (b: bool)
        ensures
            b == allows_temperature(self@, temperature),
    {
        match &self.supported_temperatures {
            None => true,
            Some(ts) => {
                let mut i: usize = 0;
                while i < ts.len()
                    invariant
                        i <= ts@.len(),
                        self@.supported_temperatures == Some(ts@),
                        forall|k: int| 0 <= k < i ==> ts@[k] != temperature,
                    decreases ts@.len() - i,
                {
                    if ts[i] == temperature {
                        assert(ts@[i as int] == temperature);
                        return true;
                    }
                    i = i + 1;
                }
                assert(!ts@.contains(temperature));
                false
            },
        }
    }

    /// An equal copy of the record.
    pub fn duplicate(&self) -> (c: ModelCapabilities)
        ensures
            c@ == self@,
    {
        let temps = match &self.supported_temperatures {
            None => None,
            Some(ts) => {
                let mut v: Vec<u32> = Vec::new();
                let mut i: usize = 0;
                while i < ts.len()
                    invariant
                        i <= ts@.len(),
                        v@ == ts@.take(i as int),
                    decreases ts@.len() - i,
                {
                    v.push(ts[i]);
                    assert(ts@.take(i + 1) == ts@.take(i as int).push(ts@[i as int]));
                    i = i + 1;
                }
                assert(ts@.take(ts@.len() as int) == ts@);
                Some(v)
            },
        };
        new_caps(
            self.model_type,
            self.supports_tools,
            self.supports_streaming,
            self.supports_vision,
            self.max_context_tokens,
            self.max_output_tokens,
            temps,
            self.supports_chat_api,
            self.supports_completions_api,
            self.supports_responses_api,
        )
    }

    /// The capabilities assumed for an unlisted model of the given family.
    pub fn default_for_type(model_type: ModelType) -> (c: ModelCapabilities)
        ensures
            c@ == default_caps_for(model_type),
    {
        match model_type {
            ModelType::Reasoning => new_caps(
                ModelType::Reasoning, false, false, false, None, None, None, true, false, false),
            ModelType::Chat => new_caps(
                ModelType::Chat, true, true, false, None, None, None, true, false, false),
            ModelType::Embedding => new_caps(
                ModelType::Embedding, false, false, false, None, None, None, false, false, false),
            ModelType::Moderation => new_caps(
                ModelType::Moderation, false, false, false, None, None, None, false, false, false),
        }
    }
}

impl Default for ModelCapabilities {
    /// A chat model with tools and streaming and no limits.
    fn default() -> (c: ModelCapabilities)
        ensures
            c@ == default_caps_for(ModelType::Chat),
    {
        ModelCapabilities::default_for_type(ModelType::Chat)
    }
}

/// `name` starts with `prefix`.
pub open spec fn starts(name: Seq<char>, prefix: Seq<char>) -> bool {
    occurs_at(name, prefix, 0)
}

/// `needle` occurs in `name`.
pub open spec fn has(name: Seq<char>, needle: Seq<char>) -> bool {
    contains_seq(name, needle)
}

/// The reasoning models listed by name.
pub open spec fn reasoning_model_names() -> Seq<Seq<char>> {
    seq![
        "o1"@, "o1-2024-12-17"@, "o3"@, "o3-2025-04-16"@, "o3-mini"@, "o3-mini-2025-01-31"@,
        "o4-mini"@, "o4-mini-2025-04-16"@, "gpt-5"@, "gpt-5-2025-08-07"@, "gpt-5-mini"@,
        "gpt-5-mini-2025-08-07"@, "gpt-5-nano"@, "gpt-5-nano-2025-08-07"@, "gpt-5-pro"@,
        "gpt-5-pro-2025-10-06"@, "gpt-5.1"@, "gpt-5.1-2025-11-13"@, "gpt-5.1-chat-latest"@,
        "gpt-5.2"@, "gpt-5.2-2025-12-11"@, "gpt-5.2-chat-latest"@,
    ]
}

/// The GPT-4, GPT-4.1, GPT-4o and GPT-5 chat models listed by name.
pub open spec fn chat_model_names() -> Seq<Seq<char>> {
    seq![
        "chatgpt-4o-latest"@, "gpt-4"@, "gpt-4-0125-preview"@, "gpt-4-0613"@,
        "gpt-4-1106-preview"@, "gpt-4-turbo"@, "gpt-4-turbo-2024-04-09"@, "gpt-4-turbo-preview"@,
        "gpt-4.1"@, "gpt-4.1-2025-04-14"@, "gpt-4.1-mini"@, "gpt-4.1-mini-2025-04-14"@,
        "gpt-4.1-nano"@, "gpt-4.1-nano-2025-04-14"@, "gpt-4o"@, "gpt-4o-2024-05-13"@,
        "gpt-4o-2024-08-06"@, "gpt-4o-2024-11-20"@, "gpt-4o-audio-preview"@,
        "gpt-4o-audio-preview-2024-12-17"@, "gpt-4o-audio-preview-2025-06-03"@, "gpt-4o-mini"@,
        "gpt-4o-mini-2024-07-18"@, "gpt-4o-mini-audio-preview"@,
        "gpt-4o-mini-audio-preview-2024-12-17"@, "gpt-4o-mini-search-preview"@,
        "gpt-4o-mini-search-preview-2025-03-11"@, "gpt-4o-search-preview"@,
        "gpt-4o-search-preview-2025-03-11"@, "gpt-5-chat-latest"@, "gpt-5-search-api"@,
        "gpt-5-search-api-2025-10-14"@,
    ]
}

/// The GPT-3.5 models listed by name.
pub open spec fn gpt35_model_names() -> Seq<Seq<char>> {
    seq![
        "gpt-3.5-turbo"@, "gpt-3.5-turbo-0125"@, "gpt-3.5-turbo-1106"@, "gpt-3.5-turbo-16k"@,
        "gpt-3.5-turbo-instruct"@, "gpt-3.5-turbo-instruct-0914"@,
    ]
}

/// The embedding models listed by name.
pub open spec fn embedding_model_names() -> Seq<Seq<char>> {
    seq!["text-embedding-3-large"@, "text-embedding-3-small"@, "text-embedding-ada-002"@]
}

/// The capabilities of a listed reasoning model.
pub open spec fn reasoning_caps(m: Seq<char>) -> CapsView {
    let is_o_series = starts(m, "o1"@) || starts(m, "o3"@) || starts(m, "o4"@);
    let is_gpt5_series = starts(m, "gpt-5"@);
    let is_mini_or_nano = has(m, "mini"@) || has(m, "nano"@);
    let supports_tools = m != "gpt-5-mini"@ && m != "o4-mini"@;
    let context = if is_gpt5_series {
        if is_mini_or_nano { 200000u32 } else { 300000u32 }
    } else {
        128000u32
    };
    let output = if is_gpt5_series {
        if is_mini_or_nano { 32768u32 } else { 50000u32 }
    } else {
        32768u32
    };
    let temps = if starts(m, "gpt-5.1"@) || starts(m, "gpt-5.2"@) {
        None
    } else if is_o_series || is_gpt5_series {
        Some(seq![100u32])
    } else {
        None
    };
    let responses_only = has(m, "pro"@) || has(m, "deep-research"@) || m == "gpt-5-codex"@;
    let both_endpoints = m == "gpt-5.1"@ || m == "gpt-5.1-2025-11-13"@;
    caps_view(
        ModelType::Reasoning,
        supports_tools,
        true,
        false,
        Some(context),
        Some(output),
        temps,
        !responses_only,
        both_endpoints,
        responses_only,
    )
}

/// The capabilities of a listed GPT-4 or newer chat model.
pub open spec fn chat_caps(m: Seq<char>) -> CapsView {
    let is_mini_or_nano = has(m, "mini"@) || has(m, "nano"@);
    let is_audio = has(m, "audio-preview"@);
    let is_search = has(m, "search"@);
    let is_gpt41 = has(m, "gpt-4.1"@);
    let supports_tools = m != "chatgpt-4o-latest"@ && m != "gpt-4.1-nano"@ && !is_audio
        && !is_search;
    let context = if is_gpt41 {
        if is_mini_or_nano { 128000u32 } else { 200000u32 }
    } else if has(m, "gpt-4o"@) {
        128000u32
    } else if starts(m, "gpt-5"@) {
        300000u32
    } else {
        32000u32
    };
    let output = if is_gpt41 {
        if is_mini_or_nano { 16384u32 } else { 32768u32 }
    } else if has(m, "gpt-4o"@) {
        16384u32
    } else if starts(m, "gpt-5"@) {
        50000u32
    } else {
        8192u32
    };
    let temps = if is_search { Some(Seq::<u32>::empty()) } else { None };
    let both_endpoints = m == "gpt-4.1-nano"@ || m == "gpt-4.1-nano-2025-04-14"@ || m
        == "gpt-4o-mini"@ || m == "gpt-4o-mini-2024-07-18"@;
    caps_view(
        ModelType::Chat,
        supports_tools,
        !is_audio,
        has(m, "gpt-4o"@),
        Some(context),
        Some(output),
        temps,
        true,
        both_endpoints,
        false,
    )
}

/// The capabilities of a listed GPT-3.5 model.
pub open spec fn gpt35_caps(m: Seq<char>) -> CapsView {
    let is_instruct = has(m, "instruct"@);
    caps_view(
        ModelType::Chat,
        !is_instruct,
        !is_instruct,
        false,
        Some(16385u32),
        Some(4096u32),
        None,
        !is_instruct,
        is_instruct,
        false,
    )
}

/// The capabilities of a listed embedding model.
pub open spec fn embedding_caps() -> CapsView {
    caps_view(ModelType::Embedding, false, false, false, None, None, None, false, false, false)
}

/// The legacy and codex models, each with its capabilities.
pub open spec fn legacy_entries() -> Seq<(Seq<char>, CapsView)> {
    seq![
        ("babbage-002"@, caps_view(
            ModelType::Chat, false, false, false, Some(16384u32), Some(4096u32), None, false,
            true, false)),
        ("davinci-002"@, caps_view(
            ModelType::Chat, false, false, false, Some(16384u32), Some(4096u32), None, false,
            true, false)),
        ("gpt-5.1-codex-mini"@, caps_view(
            ModelType::Reasoning, false, false, false, Some(200000u32), Some(32768u32), None,
            false, true, false)),
        ("codex-mini-latest"@, caps_view(
            ModelType::Reasoning, false, false, false, Some(200000u32), Some(32768u32), None,
            false, false, true)),
    ]
}

/// The model table a new registry holds, in registration order.
pub open spec fn builtin_entries() -> Seq<(Seq<char>, CapsView)> {
    reasoning_model_names().map_values(|m: Seq<char>| (m, reasoning_caps(m)))
        + chat_model_names().map_values(|m: Seq<char>| (m, chat_caps(m)))
        + gpt35_model_names().map_values(|m: Seq<char>| (m, gpt35_caps(m)))
        + embedding_model_names().map_values(|m: Seq<char>| (m, embedding_caps()))
        + legacy_entries()
}

/// The name patterns a new registry holds, in the order they are tried.
pub open spec fn builtin_patterns() -> Seq<(Seq<char>, ModelType)> {
    seq![
        ("o1"@, ModelType::Reasoning),
        ("o3"@, ModelType::Reasoning),
        ("o4"@, ModelType::Reasoning),
        ("gpt-5.2"@, ModelType::Reasoning),
        ("gpt-5.1"@, ModelType::Reasoning),
        ("gpt-5"@, ModelType::Reasoning),
        ("gpt-4"@, ModelType::Chat),
        ("gpt-4.1"@, ModelType::Chat),
        ("gpt-3.5"@, ModelType::Chat),
        ("chatgpt"@, ModelType::Chat),
        ("text-embedding"@, ModelType::Embedding),
        ("text-moderation"@, ModelType::Moderation),
    ]
}

/// The capabilities registered under `name`; the latest registration wins.
pub open spec fn lookup_caps(entries: Seq<(Seq<char>, CapsView)>, name: Seq<char>) -> Option<
    CapsView,
>
    decreases entries.len(),
{
    if entries.len() == 0 {
        None
    } else if entries.last().0 == name {
        Some(entries.last().1)
    } else {
        lookup_caps(entries.drop_last(), name)
    }
}

/// The family of the first pattern, in order, that occurs in `lower`.
pub open spec fn first_pattern_match(patterns: Seq<(Seq<char>, ModelType)>, lower: Seq<char>) -> Option<
    ModelType,
>
    decreases patterns.len(),
{
    if patterns.len() == 0 {
        None
    } else if has(lower, patterns[0].0) {
        Some(patterns[0].1)
    } else {
        first_pattern_match(patterns.drop_first(), lower)
    }
}

/// Sets the family of `pattern`: in place if it is already listed, else at the end.
pub open spec fn upsert_pattern(
    patterns: Seq<(Seq<char>, ModelType)>,
    pattern: Seq<char>,
    t: ModelType,
) -> Seq<(Seq<char>, ModelType)>
    decreases patterns.len(),
{
    if patterns.len() == 0 {
        seq![(pattern, t)]
    } else if patterns[0].0 == pattern {
        patterns.update(0, (pattern, t))
    } else {
        seq![patterns[0]] + upsert_pattern(patterns.drop_first(), pattern, t)
    }
}

/// The capabilities a registry reports for a model name: the registered
/// record, else the family default of the first matching pattern, else the
/// chat default.
pub open spec fn resolve_caps(
    entries: Seq<(Seq<char>, CapsView)>,
    patterns: Seq<(Seq<char>, ModelType)>,
    name: Seq<char>,
) -> CapsView {
    match lookup_caps(entries, name) {
        Some(c) => c,
        None => match first_pattern_match(patterns, lowercase(name)) {
            Some(t) => default_caps_for(t),
            None => default_caps_for(ModelType::Chat),
        },
    }
}

/// The mathematical content of a model table.
pub open spec fn entries_view(v: Seq<(String, ModelCapabilities)>) -> Seq<(Seq<char>, CapsView)> {
    v.map_values(|e: (String, ModelCapabilities)| (e.0@, e.1@))
}

/// The mathematical content of a pattern table.
pub open spec fn patterns_view(v: Seq<(String, ModelType)>) -> Seq<(Seq<char>, ModelType)> {
    v.map_values(|e: (String, ModelType)| (e.0@, e.1))
}

/// Some record of the table is for `name`.
pub open spec fn named_in(entries: Seq<(Seq<char>, CapsView)>, name: Seq<char>) -> bool {
    exists|j: int| 0 <= j < entries.len() && entries[j].0 == name
}

/// The names the table holds records for, each once, in the order of their
/// latest records.
pub open spec fn registered_names(entries: Seq<(Seq<char>, CapsView)>) -> Seq<Seq<char>>
    decreases entries.len(),
{
    if entries.len() == 0 {
        Seq::empty()
    } else {
        let rest = registered_names(entries.drop_first());
        if named_in(entries.drop_first(), entries[0].0) {
            rest
        } else {
            seq![entries[0].0] + rest
        }
    }
}

/// The texts of some strings.
pub open spec fn name_texts(v: Seq<String>) -> Seq<Seq<char>> {
    v.map_values(|t: String| t@)
}

proof fn lemma_registered_names_members(entries: Seq<(Seq<char>, CapsView)>, name: Seq<char>)
    ensures
        registered_names(entries).contains(name) <==> named_in(entries, name),
    decreases entries.len(),
{
    if entries.len() > 0 {
        let tail = entries.drop_first();
        lemma_registered_names_members(tail, name);
        let rest = registered_names(tail);
        if named_in(tail, name) {
            let j = choose|j: int| 0 <= j < tail.len() && tail[j].0 == name;
            assert(entries[j + 1].0 == name);
        }
        if named_in(entries, name) && !named_in(tail, name) {
            let j = choose|j: int| 0 <= j < entries.len() && entries[j].0 == name;
            if j > 0 {
                assert(tail[j - 1].0 == name);
            }
            assert(entries[0].0 == name);
            if named_in(tail, entries[0].0) {
                assert(false);
            }
            assert((seq![entries[0].0] + rest)[0] == name);
        }
        if !named_in(tail, entries[0].0) {
            let all = seq![entries[0].0] + rest;
            if all.contains(name) {
                let k = choose|k: int| 0 <= k < all.len() && all[k] == name;
                if k > 0 {
                    assert(rest[k - 1] == name);
                }
            }
            if rest.contains(name) {
                let k = choose|k: int| 0 <= k < rest.len() && rest[k] == name;
                assert(all[k + 1] == name);
            }
        }
    }
}

proof fn lemma_lookup_named(entries: Seq<(Seq<char>, CapsView)>, name: Seq<char>)
    ensures
        lookup_caps(entries, name) is Some <==> named_in(entries, name),
    decreases entries.len(),
{
    if entries.len() > 0 {
        let front = entries.drop_last();
        lemma_lookup_named(front, name);
        if named_in(front, name) {
            let j = choose|j: int| 0 <= j < front.len() && front[j].0 == name;
            assert(entries[j].0 == name);
        }
        if named_in(entries, name) && entries.last().0 != name {
            let j = choose|j: int| 0 <= j < entries.len() && entries[j].0 == name;
            assert(front[j].0 == name);
        }
    }
}

/// The names a table lists each appear once, and they are exactly the names
/// that have a record: re-registering a model does not list it twice.
pub proof fn lemma_registered_names_once(entries: Seq<(Seq<char>, CapsView)>)
    ensures
        registered_names(entries).no_duplicates(),
        forall|name: Seq<char>| #[trigger]
            registered_names(entries).contains(name) <==> lookup_caps(entries, name) is Some,
    decreases entries.len(),
{
    assert forall|name: Seq<char>| #[trigger]
        registered_names(entries).contains(name) <==> lookup_caps(entries, name) is Some by {
        lemma_registered_names_members(entries, name);
        lemma_lookup_named(entries, name);
    }
    if entries.len() > 0 {
        let tail = entries.drop_first();
        lemma_registered_names_once(tail);
        let rest = registered_names(tail);
        if !named_in(tail, entries[0].0) {
            lemma_registered_names_members(tail, entries[0].0);
            let all = seq![entries[0].0] + rest;
            assert forall|i: int, j: int| 0 <= i < all.len() && 0 <= j < all.len() && i != j implies all[i]
                != all[j] by {
                if i == 0 {
                    assert(all[j] == rest[j - 1]);
                    assert(rest.contains(rest[j - 1]));
                } else if j == 0 {
                    assert(all[i] == rest[i - 1]);
                    assert(rest.contains(rest[i - 1]));
                } else {
                    assert(all[i] == rest[i - 1]);
                    assert(all[j] == rest[j - 1]);
                }
            }
        }
    }
}

/// A name shaped like the GPT-3.5, embedding, legacy and codex entries that
/// follow the chat models in the table.
spec fn after_chat_shape(x: Seq<char>) -> bool {
    x.len() >= 6 && (x[0] == 't' || x[0] == 'b' || x[0] == 'd' || x[1] == 'o' || x[4] == '3' || (x[4]
        == '5' && x[5] == '.'))
}

/// A name that no record after `x` has leaves the lookup to `x`.
proof fn lemma_lookup_skip(x: Seq<(Seq<char>, CapsView)>, y: Seq<(Seq<char>, CapsView)>, name: Seq<char>)
    requires
        !named_in(y, name),
    ensures
        lookup_caps(x + y, name) == lookup_caps(x, name),
    decreases y.len(),
{
    if y.len() == 0 {
        assert(x + y =~= x);
    } else {
        assert((x + y).drop_last() =~= x + y.drop_last());
        assert((x + y).last() == y.last());
        assert(y.last() == y[y.len() - 1]);
        if named_in(y.drop_last(), name) {
            let j = choose|j: int| 0 <= j < y.drop_last().len() && y.drop_last()[j].0 == name;
            assert(y[j].0 == name);
        }
        lemma_lookup_skip(x, y.drop_last(), name);
    }
}

/// A name that some record of `y` has is looked up in `y` alone.
proof fn lemma_lookup_in_tail(x: Seq<(Seq<char>, CapsView)>, y: Seq<(Seq<char>, CapsView)>, name: Seq<char>)
    requires
        named_in(y, name),
    ensures
        lookup_caps(x + y, name) == lookup_caps(y, name),
    decreases y.len(),
{
    let j = choose|j: int| 0 <= j < y.len() && y[j].0 == name;
    assert((x + y).drop_last() =~= x + y.drop_last());
    assert((x + y).last() == y.last());
    if y.last().0 != name {
        assert(j < y.len() - 1);
        assert(y.drop_last()[j].0 == name);
        lemma_lookup_in_tail(x, y.drop_last(), name);
    }
}

/// What a lookup finds is the record of some entry under that name.
proof fn lemma_lookup_found(entries: Seq<(Seq<char>, CapsView)>, name: Seq<char>)
    ensures
        lookup_caps(entries, name) matches Some(c) ==> exists|j: int|
            0 <= j < entries.len() && entries[j].0 == name && entries[j].1 == c,
    decreases entries.len(),
{
    if entries.len() > 0 {
        lemma_lookup_found(entries.drop_last(), name);
        if entries.last().0 != name {
            if lookup_caps(entries, name) is Some {
                let c = lookup_caps(entries, name)->0;
                let j = choose|j: int|
                    0 <= j < entries.drop_last().len() && entries.drop_last()[j].0 == name
                        && entries.drop_last()[j].1 == c;
                assert(entries[j] == entries.drop_last()[j]);
            }
        } else {
            assert(entries[entries.len() - 1] == entries.last());
        }
    }
}

proof fn lemma_name_shapes()
    ensures
        forall|k: int| 0 <= k < chat_model_names().len() ==> !after_chat_shape(#[trigger] chat_model_names()[k]),
        forall|k: int| 0 <= k < gpt35_model_names().len() ==> after_chat_shape(#[trigger] gpt35_model_names()[k]),
        forall|k: int|
            0 <= k < embedding_model_names().len() ==> after_chat_shape(#[trigger] embedding_model_names()[k]),
        forall|k: int| 0 <= k < legacy_entries().len() ==> after_chat_shape(#[trigger] legacy_entries()[k].0),
{
    reveal_strlit("chatgpt-4o-latest");
    reveal_strlit("gpt-4");
    reveal_strlit("gpt-4-0125-preview");
    reveal_strlit("gpt-4-0613");
    reveal_strlit("gpt-4-1106-preview");
    reveal_strlit("gpt-4-turbo");
    reveal_strlit("gpt-4-turbo-2024-04-09");
    reveal_strlit("gpt-4-turbo-preview");
    reveal_strlit("gpt-4.1");
    reveal_strlit("gpt-4.1-2025-04-14");
    reveal_strlit("gpt-4.1-mini");
    reveal_strlit("gpt-4.1-mini-2025-04-14");
    reveal_strlit("gpt-4.1-nano");
    reveal_strlit("gpt-4.1-nano-2025-04-14");
    reveal_strlit("gpt-4o");
    reveal_strlit("gpt-4o-2024-05-13");
    reveal_strlit("gpt-4o-2024-08-06");
    reveal_strlit("gpt-4o-2024-11-20");
    reveal_strlit("gpt-4o-audio-preview");
    reveal_strlit("gpt-4o-audio-preview-2024-12-17");
    reveal_strlit("gpt-4o-audio-preview-2025-06-03");
    reveal_strlit("gpt-4o-mini");
    reveal_strlit("gpt-4o-mini-2024-07-18");
    reveal_strlit("gpt-4o-mini-audio-preview");
    reveal_strlit("gpt-4o-mini-audio-preview-2024-12-17");
    reveal_strlit("gpt-4o-mini-search-preview");
    reveal_strlit("gpt-4o-mini-search-preview-2025-03-11");
    reveal_strlit("gpt-4o-search-preview");
    reveal_strlit("gpt-4o-search-preview-2025-03-11");
    reveal_strlit("gpt-5-chat-latest");
    reveal_strlit("gpt-5-search-api");
    reveal_strlit("gpt-5-search-api-2025-10-14");
    reveal_strlit("gpt-3.5-turbo");
    reveal_strlit("gpt-3.5-turbo-0125");
    reveal_strlit("gpt-3.5-turbo-1106");
    reveal_strlit("gpt-3.5-turbo-16k");
    reveal_strlit("gpt-3.5-turbo-instruct");
    reveal_strlit("gpt-3.5-turbo-instruct-0914");
    reveal_strlit("text-embedding-3-large");
    reveal_strlit("text-embedding-3-small");
    reveal_strlit("text-embedding-ada-002");
    reveal_strlit("babbage-002");
    reveal_strlit("davinci-002");
    reveal_strlit("gpt-5.1-codex-mini");
    reveal_strlit("codex-mini-latest");
}

/// A new registry reports vision support for a listed chat model exactly
/// when its name contains "gpt-4o": the capabilities looked up for such a
/// name are those of its listed record, and only the GPT-4o family sees.
pub proof fn lemma_listed_chat_vision(k: int)
    requires
        0 <= k < chat_model_names().len(),
    ensures
        resolve_caps(builtin_entries(), builtin_patterns(), chat_model_names()[k]).supports_vision
            == has(chat_model_names()[k], "gpt-4o"@),
        resolve_caps(builtin_entries(), builtin_patterns(), chat_model_names()[k]).model_type
            == ModelType::Chat,
        resolve_caps(builtin_entries(), builtin_patterns(), chat_model_names()[k]).supports_streaming
            == !(has(chat_model_names()[k], "audio-preview"@)),
        resolve_caps(builtin_entries(), builtin_patterns(), chat_model_names()[k]).supports_chat_api,
        !resolve_caps(builtin_entries(), builtin_patterns(), chat_model_names()[k]).supports_responses_api,
        resolve_caps(builtin_entries(), builtin_patterns(), chat_model_names()[k]).supports_tools ==> !(has(
            chat_model_names()[k],
            "search"@,
        )) && !(has(chat_model_names()[k], "audio-preview"@)),
{
    let m = chat_model_names()[k];
    lemma_name_shapes();
    let r = reasoning_model_names().map_values(|x: Seq<char>| (x, reasoning_caps(x)));
    let c = chat_model_names().map_values(|x: Seq<char>| (x, chat_caps(x)));
    let g = gpt35_model_names().map_values(|x: Seq<char>| (x, gpt35_caps(x)));
    let e = embedding_model_names().map_values(|x: Seq<char>| (x, embedding_caps()));
    let l = legacy_entries();
    assert(!named_in(g, m)) by {
        if named_in(g, m) {
            let j = choose|j: int| 0 <= j < g.len() && g[j].0 == m;
            assert(after_chat_shape(gpt35_model_names()[j]));
        }
    }
    assert(!named_in(e, m)) by {
        if named_in(e, m) {
            let j = choose|j: int| 0 <= j < e.len() && e[j].0 == m;
            assert(after_chat_shape(embedding_model_names()[j]));
        }
    }
    assert(!named_in(l, m)) by {
        if named_in(l, m) {
            let j = choose|j: int| 0 <= j < l.len() && l[j].0 == m;
            assert(after_chat_shape(legacy_entries()[j].0));
        }
    }
    assert(c[k].0 == m);
    lemma_lookup_skip(r + c + g + e, l, m);
    lemma_lookup_skip(r + c + g, e, m);
    lemma_lookup_skip(r + c, g, m);
    lemma_lookup_in_tail(r, c, m);
    lemma_lookup_named(c, m);
    lemma_lookup_found(c, m);
    let found = lookup_caps(c, m)->0;
    let j = choose|j: int| 0 <= j < c.len() && c[j].0 == m && c[j].1 == found;
    assert(c[j] == (chat_model_names()[j], chat_caps(chat_model_names()[j])));
    assert(builtin_entries() == r + c + g + e + l);
}

/// Model capabilities by name, with name patterns for unlisted models.
pub struct OpenAIModelRegistry {
    models: Vec<(String, ModelCapabilities)>,
    pattern_mappings: Vec<(String, ModelType)>,
}

fn lit(s: &str) -> (v: Vec<char>)
    ensures
        v@ == s@,
{
    chars_of(s)
}

fn has_exec(m: &[char], needle: &str) -> (b: bool)
    ensures
        b == has(m@, needle@),
{
    let n = lit(needle);
    contains_chars(m, n.as_slice())
}

fn starts_exec(m: &[char], prefix: &str) -> (b: bool)
    ensures
        b == starts(m@, prefix@),
{
    let p = lit(prefix);
    starts_with_chars(m, p.as_slice())
}

fn is_exec(m: &[char], other: &str) -> (b: bool)
    ensures
        b == (m@ == other@),
{
    let o = lit(other);
    chars_eq(m, o.as_slice())
}

fn reasoning_caps_exec(m: &[char]) -> (c: ModelCapabilities)
    ensures
        c@ == reasoning_caps(m@),
{
    let is_o_series = starts_exec(m, "o1") || starts_exec(m, "o3") || starts_exec(m, "o4");
    let is_gpt5_series = starts_exec(m, "gpt-5");
    let is_mini_or_nano = has_exec(m, "mini") || has_exec(m, "nano");
    let supports_tools = !is_exec(m, "gpt-5-mini") && !is_exec(m, "o4-mini");
    let context: u32 = if is_gpt5_series {
        if is_mini_or_nano { 200000 } else { 300000 }
    } else {
        128000
    };
    let output: u32 = if is_gpt5_series {
        if is_mini_or_nano { 32768 } else { 50000 }
    } else {
        32768
    };
    let temps = if starts_exec(m, "gpt-5.1") || starts_exec(m, "gpt-5.2") {
        None
    } else if is_o_series || is_gpt5_series {
        Some(only_default_temperature())
    } else {
        None
    };
    let responses_only = has_exec(m, "pro") || has_exec(m, "deep-research") || is_exec(
        m,
        "gpt-5-codex",
    );
    let both_endpoints = is_exec(m, "gpt-5.1") || is_exec(m, "gpt-5.1-2025-11-13");
    new_caps(
        ModelType::Reasoning,
        supports_tools,
        true,
        false,
        Some(context),
        Some(output),
        temps,
        !responses_only,
        both_endpoints,
        responses_only,
    )
}

fn chat_caps_exec(m: &[char]) -> (c: ModelCapabilities)
    ensures
        c@ == chat_caps(m@),
{
    let is_mini_or_nano = has_exec(m, "mini") || has_exec(m, "nano");
    let is_audio = has_exec(m, "audio-preview");
    let is_search = has_exec(m, "search");
    let is_gpt41 = has_exec(m, "gpt-4.1");
    let is_4o = has_exec(m, "gpt-4o");
    let is_gpt5 = starts_exec(m, "gpt-5");
    let supports_tools = !is_exec(m, "chatgpt-4o-latest") && !is_exec(m, "gpt-4.1-nano")
        && !is_audio && !is_search;
    let context: u32 = if is_gpt41 {
        if is_mini_or_nano { 128000 } else { 200000 }
    } else if is_4o {
        128000
    } else if is_gpt5 {
        300000
    } else {
        32000
    };
    let output: u32 = if is_gpt41 {
        if is_mini_or_nano { 16384 } else { 32768 }
    } else if is_4o {
        16384
    } else if is_gpt5 {
        50000
    } else {
        8192
    };
    let temps = if is_search { Some(Vec::new()) } else { None };
    let both_endpoints = is_exec(m, "gpt-4.1-nano") || is_exec(m, "gpt-4.1-nano-2025-04-14")
        || is_exec(m, "gpt-4o-mini") || is_exec(m, "gpt-4o-mini-2024-07-18");
    new_caps(
        ModelType::Chat,
        supports_tools,
        !is_audio,
        is_4o,
        Some(context),
        Some(output),
        temps,
        true,
        both_endpoints,
        false,
    )
}

fn gpt35_caps_exec(m: &[char]) -> (c: ModelCapabilities)
    ensures
        c@ == gpt35_caps(m@),
{
    let is_instruct = has_exec(m, "instruct");
    new_caps(
        ModelType::Chat,
        !is_instruct,
        !is_instruct,
        false,
        Some(16385),
        Some(4096),
        None,
        !is_instruct,
        is_instruct,
        false,
    )
}

/// Which rule a listed family's capabilities follow.
enum Family {
    Reasoning,
    Chat,
    Gpt35,
    Embedding,
}

spec fn family_caps(f: Family, m: Seq<char>) -> CapsView {
    match f {
        Family::Reasoning => reasoning_caps(m),
        Family::Chat => chat_caps(m),
        Family::Gpt35 => gpt35_caps(m),
        Family::Embedding => embedding_caps(),
    }
}

fn family_caps_exec(f: &Family, m: &[char]) -> (c: ModelCapabilities)
    ensures
        c@ == family_caps(*f, m@),
{
    match f {
        Family::Reasoning => reasoning_caps_exec(m),
        Family::Chat => chat_caps_exec(m),
        Family::Gpt35 => gpt35_caps_exec(m),
        Family::Embedding => new_caps(
            ModelType::Embedding, false, false, false, None, None, None, false, false, false),
    }
}

impl OpenAIModelRegistry {
    /// The model table, in registration order.
    pub closed spec fn entries(&self) -> Seq<(Seq<char>, CapsView)> {
        entries_view(self.models@)
    }

    /// The pattern table, in the order patterns are tried.
    pub closed spec fn patterns(&self) -> Seq<(Seq<char>, ModelType)> {
        patterns_view(self.pattern_mappings@)
    }

    fn add_family(&mut self, names: Vec<&str>, family: Family)
        ensures
            final(self).entries() == old(self).entries() + names@.map_values(|s: &str| s@).map_values(
                |m: Seq<char>| (m, family_caps(family, m)),
            ),
            final(self).patterns() == old(self).patterns(),
    {
        let ghost start = self.entries();
        let ghost spec_names = names@.map_values(|s: &str| s@);
        let ghost added = spec_names.map_values(|m: Seq<char>| (m, family_caps(family, m)));
        let mut i: usize = 0;
        while i < names.len()
            invariant
                i <= names@.len(),
                spec_names == names@.map_values(|s: &str| s@),
                added == spec_names.map_values(|m: Seq<char>| (m, family_caps(family, m))),
                self.entries() == start + added.take(i as int),
                self.patterns() == old(self).patterns(),
            decreases names@.len() - i,
        {
            let m = lit(names[i]);
            let caps = family_caps_exec(&family, m.as_slice());
            let ghost before = self.models@;
            self.models.push((String::from_str(names[i]), caps));
            proof {
                assert(self.models@ == before.push(self.models@.last()));
                assert(entries_view(self.models@) =~= entries_view(before).push(
                    (names@[i as int]@, family_caps(family, names@[i as int]@)),
                ));
                assert(added.take(i + 1) =~= added.take(i as int).push(added[i as int]));
            }
            i = i + 1;
        }
        assert(added.take(names@.len() as int) =~= added);
    }

    fn add_entry(&mut self, name: &str, caps: ModelCapabilities)
        ensures
            final(self).entries() == old(self).entries().push((name@, caps@)),
            final(self).patterns() == old(self).patterns(),
    {
        let ghost before = self.models@;
        self.models.push((String::from_str(name), caps));
        assert(entries_view(self.models@) =~= entries_view(before).push((name@, caps@)));
    }

    fn add_pattern(&mut self, pattern: &str, t: ModelType)
        ensures
            final(self).entries() == old(self).entries(),
            final(self).patterns() == old(self).patterns().push((pattern@, t)),
    {
        let ghost before = self.pattern_mappings@;
        self.pattern_mappings.push((String::from_str(pattern), t));
        assert(patterns_view(self.pattern_mappings@) =~= patterns_view(before).push((pattern@, t)));
    }

    /// A registry holding the listed OpenAI models and the name patterns for
    /// classifying unlisted ones.
    pub fn new() -> (r: OpenAIModelRegistry)
        ensures
            r.entries() == builtin_entries(),
            r.patterns() == builtin_patterns(),
    {
        let mut r = OpenAIModelRegistry { models: Vec::new(), pattern_mappings: Vec::new() };
        assert(r.entries() =~= Seq::<(Seq<char>, CapsView)>::empty());
        assert(r.patterns() =~= Seq::<(Seq<char>, ModelType)>::empty());
        r.initialize_default_models();
        r
    }

    fn initialize_default_models(&mut self)
        requires
            old(self).entries() == Seq::<(Seq<char>, CapsView)>::empty(),
            old(self).patterns() == Seq::<(Seq<char>, ModelType)>::empty(),
        ensures
            final(self).entries() == builtin_entries(),
            final(self).patterns() == builtin_patterns(),
    {
        let reasoning: Vec<&str> = vec![
            "o1", "o1-2024-12-17", "o3", "o3-2025-04-16", "o3-mini", "o3-mini-2025-01-31",
            "o4-mini", "o4-mini-2025-04-16", "gpt-5", "gpt-5-2025-08-07", "gpt-5-mini",
            "gpt-5-mini-2025-08-07", "gpt-5-nano", "gpt-5-nano-2025-08-07", "gpt-5-pro",
            "gpt-5-pro-2025-10-06", "gpt-5.1", "gpt-5.1-2025-11-13", "gpt-5.1-chat-latest",
            "gpt-5.2", "gpt-5.2-2025-12-11", "gpt-5.2-chat-latest",
        ];
        assert(reasoning@.map_values(|s: &str| s@) =~= reasoning_model_names());
        self.add_family(reasoning, Family::Reasoning);
        let chat: Vec<&str> = vec![
            "chatgpt-4o-latest", "gpt-4", "gpt-4-0125-preview", "gpt-4-0613",
            "gpt-4-1106-preview", "gpt-4-turbo", "gpt-4-turbo-2024-04-09", "gpt-4-turbo-preview",
            "gpt-4.1", "gpt-4.1-2025-04-14", "gpt-4.1-mini", "gpt-4.1-mini-2025-04-14",
            "gpt-4.1-nano", "gpt-4.1-nano-2025-04-14", "gpt-4o", "gpt-4o-2024-05-13",
            "gpt-4o-2024-08-06", "gpt-4o-2024-11-20", "gpt-4o-audio-preview",
            "gpt-4o-audio-preview-2024-12-17", "gpt-4o-audio-preview-2025-06-03", "gpt-4o-mini",
            "gpt-4o-mini-2024-07-18", "gpt-4o-mini-audio-preview",
            "gpt-4o-mini-audio-preview-2024-12-17", "gpt-4o-mini-search-preview",
            "gpt-4o-mini-search-preview-2025-03-11", "gpt-4o-search-preview",
            "gpt-4o-search-preview-2025-03-11", "gpt-5-chat-latest", "gpt-5-search-api",
            "gpt-5-search-api-2025-10-14",
        ];
        assert(chat@.map_values(|s: &str| s@) =~= chat_model_names());
        self.add_family(chat, Family::Chat);
        let gpt35: Vec<&str> = vec![
            "gpt-3.5-turbo", "gpt-3.5-turbo-0125", "gpt-3.5-turbo-1106", "gpt-3.5-turbo-16k",
            "gpt-3.5-turbo-instruct", "gpt-3.5-turbo-instruct-0914",
        ];
        assert(gpt35@.map_values(|s: &str| s@) =~= gpt35_model_names());
        self.add_family(gpt35, Family::Gpt35);
        let embedding: Vec<&str> = vec![
            "text-embedding-3-large", "text-embedding-3-small", "text-embedding-ada-002",
        ];
        assert(embedding@.map_values(|s: &str| s@) =~= embedding_model_names());
        self.add_family(embedding, Family::Embedding);
        self.add_entry("babbage-002", new_caps(
            ModelType::Chat, false, false, false, Some(16384), Some(4096), None, false, true,
            false));
        self.add_entry("davinci-002", new_caps(
            ModelType::Chat, false, false, false, Some(16384), Some(4096), None, false, true,
            false));
        self.add_entry("gpt-5.1-codex-mini", new_caps(
            ModelType::Reasoning, false, false, false, Some(200000), Some(32768), None, false,
            true, false));
        self.add_entry("codex-mini-latest", new_caps(
            ModelType::Reasoning, false, false, false, Some(200000), Some(32768), None, false,
            false, true));
        assert(self.entries() =~= builtin_entries());
        self.add_pattern("o1", ModelType::Reasoning);
        self.add_pattern("o3", ModelType::Reasoning);
        self.add_pattern("o4", ModelType::Reasoning);
        self.add_pattern("gpt-5.2", ModelType::Reasoning);
        self.add_pattern("gpt-5.1", ModelType::Reasoning);
        self.add_pattern("gpt-5", ModelType::Reasoning);
        self.add_pattern("gpt-4", ModelType::Chat);
        self.add_pattern("gpt-4.1", ModelType::Chat);
        self.add_pattern("gpt-3.5", ModelType::Chat);
        self.add_pattern("chatgpt", ModelType::Chat);
        self.add_pattern("text-embedding", ModelType::Embedding);
        self.add_pattern("text-moderation", ModelType::Moderation);
        assert(self.patterns() =~= builtin_patterns());
    }
}

impl OpenAIModelRegistry {
    /// The registered record for `name`, if any, searching from the latest.
    fn find_model(&self, name: &[char]) -> (r: Option<usize>)
        ensures
            match r {
                Some(i) => i < self.models@.len() && lookup_caps(self.entries(), name@) == Some(
                    self.models@[i as int].1@,
                ),
                None => lookup_caps(self.entries(), name@) is None,
            },
    {
        let mut i: usize = self.models.len();
        assert(self.models@.take(self.models@.len() as int) =~= self.models@);
        while i > 0
            invariant
                i <= self.models@.len(),
                lookup_caps(self.entries(), name@) == lookup_caps(
                    entries_view(self.models@.take(i as int)),
                    name@,
                ),
            decreases i,
        {
            let key = chars_of(self.models[i - 1].0.as_str());
            let ghost prefix = entries_view(self.models@.take(i as int));
            assert(prefix.last() == (self.models@[i - 1].0@, self.models@[i - 1].1@));
            assert(prefix.drop_last() =~= entries_view(self.models@.take(i - 1)));
            if chars_eq(key.as_slice(), name) {
                assert(lookup_caps(prefix, name@) == Some(prefix.last().1));
                return Some(i - 1);
            }
            assert(lookup_caps(prefix, name@) == lookup_caps(prefix.drop_last(), name@));
            i = i - 1;
        }
        assert(entries_view(self.models@.take(0)) =~= Seq::<(Seq<char>, CapsView)>::empty());
        None
    }

    /// The capabilities of `name`: the registered record when the name is
    /// registered, else the default of the family of the first pattern that
    /// occurs in the lowercased name, else the chat default.
    pub fn get_model_capabilities(&self, model_name: &str) -> (c: ModelCapabilities)
        ensures
            c@ == resolve_caps(self.entries(), self.patterns(), model_name@),
    {
        let name = chars_of(model_name);
        match self.find_model(name.as_slice()) {
            Some(i) => self.models[i].1.duplicate(),
            None => {
                let lower_string = to_lowercase(model_name);
                let lower = chars_of(lower_string.as_str());
                let mut j: usize = 0;
                assert(self.patterns().skip(0) =~= self.patterns());
                while j < self.pattern_mappings.len()
                    invariant
                        j <= self.pattern_mappings@.len(),
                        lower@ == lowercase(model_name@),
                        lookup_caps(self.entries(), model_name@) is None,
                        first_pattern_match(self.patterns(), lower@) == first_pattern_match(
                            self.patterns().skip(j as int),
                            lower@,
                        ),
                    decreases self.pattern_mappings@.len() - j,
                {
                    let pattern = chars_of(self.pattern_mappings[j].0.as_str());
                    let ghost rest = self.patterns().skip(j as int);
                    assert(rest[0] == (self.pattern_mappings@[j as int].0@, self.pattern_mappings@[j as int].1));
                    assert(rest.drop_first() =~= self.patterns().skip(j + 1));
                    if contains_chars(lower.as_slice(), pattern.as_slice()) {
                        assert(first_pattern_match(rest, lower@) == Some(rest[0].1));
                        return ModelCapabilities::default_for_type(self.pattern_mappings[j].1);
                    }
                    assert(first_pattern_match(rest, lower@) == first_pattern_match(rest.drop_first(), lower@));
                    j = j + 1;
                }
                assert(self.patterns().skip(j as int) =~= Seq::<(Seq<char>, ModelType)>::empty());
                ModelCapabilities::default_for_type(ModelType::Chat)
            },
        }
    }

    /// Whether `name` resolves to a reasoning model.
    pub fn is_reasoning_model(&self, model_name: &str) -> (b: bool)
        ensures
            b == (resolve_caps(self.entries(), self.patterns(), model_name@).model_type
                == ModelType::Reasoning),
    {
        let c = self.get_model_capabilities(model_name);
        c.model_type == ModelType::Reasoning
    }

    /// The registered model names, each once, in the order of their latest
    /// registration.
    pub fn get_registered_models(&self) -> (v: Vec<String>)
        ensures
            name_texts(v@) == registered_names(self.entries()),
    {
        let ghost e = self.entries();
        let mut v: Vec<String> = Vec::new();
        let mut i: usize = 0;
        assert(e.skip(0) =~= e);
        assert(name_texts(v@) =~= Seq::<Seq<char>>::empty());
        while i < self.models.len()
            invariant
                i <= self.models@.len(),
                e == self.entries(),
                name_texts(v@) + registered_names(e.skip(i as int)) == registered_names(e),
            decreases self.models@.len() - i,
        {
            let name = chars_of(self.models[i].0.as_str());
            assert(name@ == e[i as int].0);
            let mut later = false;
            let mut j: usize = i + 1;
            while j < self.models.len()
                invariant
                    i < j <= self.models@.len(),
                    e == self.entries(),
                    name@ == e[i as int].0,
                    later <==> exists|k: int| i < k < j && e[k].0 == name@,
                decreases self.models@.len() - j,
            {
                let other = chars_of(self.models[j].0.as_str());
                assert(other@ == e[j as int].0);
                if chars_eq(other.as_slice(), name.as_slice()) {
                    later = true;
                }
                j = j + 1;
            }
            proof {
                let here = e.skip(i as int);
                assert(here.drop_first() =~= e.skip(i + 1));
                assert(here[0] == e[i as int]);
                if later {
                    let k = choose|k: int| i < k < j && e[k].0 == name@;
                    assert(here.drop_first()[k - i - 1].0 == name@);
                } else if named_in(here.drop_first(), name@) {
                    let k = choose|k: int| 0 <= k < here.drop_first().len() && here.drop_first()[k].0 == name@;
                    assert(e[k + i + 1].0 == name@);
                }
            }
            if !later {
                let ghost before = v@;
                v.push(self.models[i].0.clone());
                proof {
                    assert(name_texts(v@) =~= name_texts(before).push(e[i as int].0));
                    assert(registered_names(e.skip(i as int)) =~= seq![e[i as int].0] + registered_names(
                        e.skip(i + 1),
                    ));
                    assert(name_texts(v@) + registered_names(e.skip(i + 1)) =~= name_texts(before)
                        + registered_names(e.skip(i as int)));
                }
            }
            i = i + 1;
        }
        assert(e.skip(i as int) =~= Seq::<(Seq<char>, CapsView)>::empty());
        assert(name_texts(v@) + registered_names(e.skip(i as int)) =~= name_texts(v@));
        v
    }

    /// Registers (or re-registers) `model_name` with the given capabilities;
    /// the new record wins over any earlier one.
    pub fn register_model(&mut self, model_name: &str, capabilities: ModelCapabilities)
        ensures
            final(self).entries() == old(self).entries().push((model_name@, capabilities@)),
            final(self).patterns() == old(self).patterns(),
    {
        self.add_entry(model_name, capabilities);
    }

    /// Sets the family inferred for unlisted names containing `pattern`; an
    /// existing pattern keeps its place in the order, a new one is tried last.
    pub fn register_pattern(&mut self, pattern: &str, model_type: ModelType)
        ensures
            final(self).entries() == old(self).entries(),
            final(self).patterns() == upsert_pattern(old(self).patterns(), pattern@, model_type),
    {
        let p = chars_of(pattern);
        let mut j: usize = 0;
        while j < self.pattern_mappings.len()
            invariant
                j <= self.pattern_mappings@.len(),
                self.pattern_mappings@ == old(self).pattern_mappings@,
                self.models@ == old(self).models@,
                p@ == pattern@,
                forall|k: int| 0 <= k < j ==> self.patterns()[k].0 != pattern@,
            decreases self.pattern_mappings@.len() - j,
        {
            let key = chars_of(self.pattern_mappings[j].0.as_str());
            assert(self.patterns()[j as int].0 == self.pattern_mappings@[j as int].0@);
            assert(key@ == self.pattern_mappings@[j as int].0@);
            assert(p@ == pattern@);
            let same = chars_eq(key.as_slice(), p.as_slice());
            assert(same == (key@ == p@));
            if same {
                let ghost before = self.patterns();
                self.pattern_mappings.set(j, (String::from_str(pattern), model_type));
                proof {
                    assert(self.patterns() =~= before.update(j as int, (pattern@, model_type)));
                    lemma_upsert_at(before, j as int, pattern@, model_type);
                }
                return;
            }
            j = j + 1;
        }
        let ghost before = self.patterns();
        self.pattern_mappings.push((String::from_str(pattern), model_type));
        proof {
            assert(self.patterns() =~= before.push((pattern@, model_type)));
            lemma_upsert_absent(before, pattern@, model_type);
        }
    }
}

proof fn lemma_upsert_at(ps: Seq<(Seq<char>, ModelType)>, j: int, p: Seq<char>, t: ModelType)
    requires
        0 <= j < ps.len(),
        ps[j].0 == p,
        forall|k: int| 0 <= k < j ==> ps[k].0 != p,
    ensures
        upsert_pattern(ps, p, t) == ps.update(j, (p, t)),
    decreases ps.len(),
{
    if j > 0 {
        lemma_upsert_at(ps.drop_first(), j - 1, p, t);
        assert(seq![ps[0]] + ps.drop_first().update(j - 1, (p, t)) =~= ps.update(j, (p, t)));
    }
}

proof fn lemma_upsert_absent(ps: Seq<(Seq<char>, ModelType)>, p: Seq<char>, t: ModelType)
    requires
        forall|k: int| 0 <= k < ps.len() ==> ps[k].0 != p,
    ensures
        upsert_pattern(ps, p, t) == ps.push((p, t)),
    decreases ps.len(),
{
    if ps.len() > 0 {
        lemma_upsert_absent(ps.drop_first(), p, t);
        assert(seq![ps[0]] + ps.drop_first().push((p, t)) =~= ps.push((p, t)));
    }
}

impl Default for OpenAIModelRegistry {
    fn default() -> (r: OpenAIModelRegistry)
        ensures
            r.entries() == builtin_entries(),
            r.patterns() == builtin_patterns(),
    {
        OpenAIModelRegistry::new()
    }
}


/// A registered model reads back with exactly the capabilities registered
/// last, whatever the patterns; other names read as before.
pub proof fn lemma_register_then_lookup(
    entries: Seq<(Seq<char>, CapsView)>,
    patterns: Seq<(Seq<char>, ModelType)>,
    name: Seq<char>,
    caps: CapsView,
    other: Seq<char>,
)
    ensures
        resolve_caps(entries.push((name, caps)), patterns, name) == caps,
        other != name ==> resolve_caps(entries.push((name, caps)), patterns, other) == resolve_caps(
            entries,
            patterns,
            other,
        ),
{
    assert(entries.push((name, caps)).drop_last() =~= entries);
}

/// Registering a pattern leaves registered models as they are: a name with
/// its own record is not affected by any pattern.
pub proof fn lemma_registered_beats_patterns(
    entries: Seq<(Seq<char>, CapsView)>,
    patterns: Seq<(Seq<char>, ModelType)>,
    pattern: Seq<char>,
    t: ModelType,
    name: Seq<char>,
)
    requires
        lookup_caps(entries, name) is Some,
    ensures
        resolve_caps(entries, upsert_pattern(patterns, pattern, t), name) == resolve_caps(
            entries,
            patterns,
            name,
        ),
{
}
} // verus!
