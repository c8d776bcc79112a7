//! Settings of a realtime voice session and their defaults.
use vstd::prelude::*;
use vstd::string::StringExecFns;

verus! {

/// A kind of output a realtime session produces.
#[derive(Debug, Clone, Copy, PartialEq, Eq, Structural)]
pub enum RealtimeModality {
    Audio,
    Text,
}

/// An audio encoding on the wire.
#[derive(Debug, Clone, Copy, PartialEq, Eq, Structural)]
pub enum RealtimeAudioFormat {
    Pcm16,
    G711Ulaw,
    G711Alaw,
}

/// What becomes of tool results of a turn that was interrupted.
#[derive(Debug, Clone, Copy, PartialEq, Eq, Structural)]
pub enum InterruptOutputPolicy {
    /// Submit nothing.
    Drop,
    /// Submit every outcome.
    Submit,
    /// Submit only the outcomes of calls that succeeded.
    SubmitCompletedOnly,
}

/// Which tools the model may call.
#[derive(Debug, Clone)]
pub enum RealtimeToolChoice {
    Auto,
    /// No tool at all (`"none"` on the wire).
    NoTools,
    Required,
    /// Exactly the named function.
    Function(String),
}

/// Semantic voice activity detection with optional tuning.
#[derive(Debug, Clone)]
pub struct SemanticVadConfig {
    pub eagerness: Option<String>,
    pub create_response: Option<bool>,
    pub interrupt_response: Option<bool>,
}

impl Default for SemanticVadConfig {
    fn default() -> (c: Self)
        ensures
            c.eagerness is None,
            c.create_response is None,
            c.interrupt_response is None,
    {
        SemanticVadConfig { eagerness: None, create_response: None, interrupt_response: None }
    }
}

/// The model that transcribes the user's speech.
#[derive(Debug, Clone)]
pub struct InputAudioTranscriptionConfig {
    pub model: String,
}

impl Default for InputAudioTranscriptionConfig {
    fn default() -> (c: Self)
        ensures
            c.model@ == "whisper-1"@,
    {
        InputAudioTranscriptionConfig { model: String::from_str("whisper-1") }
    }
}

/// The values a session uses where its configuration is silent.
pub struct Defaults {
    pub modalities: Vec<RealtimeModality>,
    pub input_audio_format: RealtimeAudioFormat,
    pub output_audio_format: RealtimeAudioFormat,
    pub tool_choice: RealtimeToolChoice,
    pub on_interrupt: InterruptOutputPolicy,
}

/// Audio and text output, PCM16 both ways, automatic tool choice, and
/// interrupted turns' tool results dropped.
pub fn defaults() -> (d: Defaults)
    ensures
        d.modalities@ == seq![RealtimeModality::Audio, RealtimeModality::Text],
        d.input_audio_format == RealtimeAudioFormat::Pcm16,
        d.output_audio_format == RealtimeAudioFormat::Pcm16,
        d.tool_choice is Auto,
        d.on_interrupt == InterruptOutputPolicy::Drop,
{
    Defaults {
        modalities: vec![RealtimeModality::Audio, RealtimeModality::Text],
        input_audio_format: RealtimeAudioFormat::Pcm16,
        output_audio_format: RealtimeAudioFormat::Pcm16,
        tool_choice: RealtimeToolChoice::Auto,
        on_interrupt: InterruptOutputPolicy::Drop,
    }
}


/// What a session's opening `session.update` depends on, turn detection,
/// tools, sampling and extra provider fields aside.
pub struct SessionConfig {
    pub instructions: Option<String>,
    pub voice: Option<String>,
    pub modalities: Option<Vec<RealtimeModality>>,
    pub input_audio_format: Option<RealtimeAudioFormat>,
    pub output_audio_format: Option<RealtimeAudioFormat>,
    pub input_audio_transcription: Option<InputAudioTranscriptionConfig>,
    pub disable_input_audio_transcription: bool,
    pub tool_choice: Option<RealtimeToolChoice>,
    pub max_response_output_tokens: Option<u32>,
}

/// How input transcription appears in the update.
pub enum TranscriptionSetting {
    /// Explicitly off (`null`).
    Off,
    /// On, with this model.
    Model(String),
    /// Not mentioned.
    Unset,
}

/// The settings a session opens with.
pub struct SessionUpdate {
    /// The one output modality requested: audio whenever audio is wanted.
    pub output_modality: RealtimeModality,
    pub input_format: RealtimeAudioFormat,
    pub output_format: RealtimeAudioFormat,
    pub transcription: TranscriptionSetting,
    pub voice: Option<String>,
    pub tool_choice: RealtimeToolChoice,
    pub instructions: Option<String>,
    pub max_output_tokens: Option<u32>,
}

/// The modalities asked for, or the default audio and text.
pub open spec fn modalities_or_default(m: Option<Vec<RealtimeModality>>) -> Seq<RealtimeModality> {
    match m {
        Some(v) => v@,
        None => seq![RealtimeModality::Audio, RealtimeModality::Text],
    }
}

/// A value, or the default.
pub open spec fn format_or_pcm16(f: Option<RealtimeAudioFormat>) -> RealtimeAudioFormat {
    match f {
        Some(x) => x,
        None => RealtimeAudioFormat::Pcm16,
    }
}

/// The transcription setting of a configuration: off when disabled, else
/// the configured model, else unset.
pub open spec fn transcription_of(c: SessionConfig) -> TranscriptionSetting {
    if c.disable_input_audio_transcription {
        TranscriptionSetting::Off
    } else {
        match c.input_audio_transcription {
            Some(t) => TranscriptionSetting::Model(t.model),
            None => TranscriptionSetting::Unset,
        }
    }
}

/// The opening settings of a configuration, defaults filled in.
pub open spec fn session_update_of(c: SessionConfig) -> SessionUpdate {
    SessionUpdate {
        output_modality: if modalities_or_default(c.modalities).contains(RealtimeModality::Audio) {
            RealtimeModality::Audio
        } else {
            RealtimeModality::Text
        },
        input_format: format_or_pcm16(c.input_audio_format),
        output_format: format_or_pcm16(c.output_audio_format),
        transcription: transcription_of(c),
        voice: c.voice,
        tool_choice: match c.tool_choice {
            Some(t) => t,
            None => RealtimeToolChoice::Auto,
        },
        instructions: c.instructions,
        max_output_tokens: c.max_response_output_tokens,
    }
}

/// The settings a session opens with, from its configuration.
pub fn build_session_update(config: SessionConfig) -> (u: SessionUpdate)
    ensures
        u == session_update_of(config),
{
    let ghost c = config;
    let d = defaults();
    let wants_audio = match &config.modalities {
        Some(ms) => {
            let mut found = false;
            let mut k: usize = 0;
            while k < ms.len()
                invariant
                    k <= ms@.len(),
                    found == exists|j: int| 0 <= j < k && ms@[j] == RealtimeModality::Audio,
                decreases ms@.len() - k,
            {
                if ms[k] == RealtimeModality::Audio {
                    found = true;
                }
                k = k + 1;
            }
            assert(found == ms@.contains(RealtimeModality::Audio));
            found
        },
        None => {
            assert(seq![RealtimeModality::Audio, RealtimeModality::Text][0] == RealtimeModality::Audio);
            true
        },
    };
    let transcription = if config.disable_input_audio_transcription {
        TranscriptionSetting::Off
    } else {
        match config.input_audio_transcription {
            Some(t) => TranscriptionSetting::Model(t.model),
            None => TranscriptionSetting::Unset,
        }
    };
    SessionUpdate {
        output_modality: if wants_audio {
            RealtimeModality::Audio
        } else {
            RealtimeModality::Text
        },
        input_format: match config.input_audio_format {
            Some(f) => f,
            None => d.input_audio_format,
        },
        output_format: match config.output_audio_format {
            Some(f) => f,
            None => d.output_audio_format,
        },
        transcription,
        voice: config.voice,
        tool_choice: match config.tool_choice {
            Some(t) => t,
            None => d.tool_choice,
        },
        instructions: config.instructions,
        max_output_tokens: config.max_response_output_tokens,
    }
}

/// The wire type of an audio format.
pub fn audio_format_type(f: RealtimeAudioFormat) -> (s: String)
    ensures
        s@ == match f {
            RealtimeAudioFormat::Pcm16 => "audio/pcm"@,
            RealtimeAudioFormat::G711Ulaw => "audio/pcmu"@,
            RealtimeAudioFormat::G711Alaw => "audio/pcma"@,
        },
{
    match f {
        RealtimeAudioFormat::Pcm16 => String::from_str("audio/pcm"),
        RealtimeAudioFormat::G711Ulaw => String::from_str("audio/pcmu"),
        RealtimeAudioFormat::G711Alaw => String::from_str("audio/pcma"),
    }
}

/// The sample rate stated for an audio format: 24 kHz for PCM16, none for G.711.
pub fn audio_format_rate(f: RealtimeAudioFormat) -> (r: Option<u32>)
    ensures
        r == match f {
            RealtimeAudioFormat::Pcm16 => Some(24000u32),
            _ => None,
        },
{
    match f {
        RealtimeAudioFormat::Pcm16 => Some(24000),
        _ => None,
    }
}

/// The wire word of a tool choice; a named function has none (it is sent as
/// an object).
pub fn tool_choice_mode(choice: &RealtimeToolChoice) -> (s: Option<String>)
    ensures
        match choice {
            RealtimeToolChoice::Auto => s matches Some(w) && w@ == "auto"@,
            RealtimeToolChoice::NoTools => s matches Some(w) && w@ == "none"@,
            RealtimeToolChoice::Required => s matches Some(w) && w@ == "required"@,
            RealtimeToolChoice::Function(_) => s is None,
        },
{
    match choice {
        RealtimeToolChoice::Auto => Some(String::from_str("auto")),
        RealtimeToolChoice::NoTools => Some(String::from_str("none")),
        RealtimeToolChoice::Required => Some(String::from_str("required")),
        RealtimeToolChoice::Function(_) => None,
    }
}

/// The policy for interrupted turns' tool results, defaulting to dropping them.
pub fn interrupt_policy(on_interrupt: Option<InterruptOutputPolicy>) -> (p: InterruptOutputPolicy)
    ensures
        p == match on_interrupt {
            Some(q) => q,
            None => InterruptOutputPolicy::Drop,
        },
{
    match on_interrupt {
        Some(q) => q,
        None => defaults().on_interrupt,
    }
}

/// A session opens with the audio formats it was configured with: the input
/// format is the configured input format and the output format the
/// configured output format, each PCM16 when not configured, and changing
/// one of the two settings leaves the other format as it was.
pub proof fn lemma_session_update_audio_formats(
    c: SessionConfig,
    other_input: Option<RealtimeAudioFormat>,
    other_output: Option<RealtimeAudioFormat>,
)
    ensures
        c.output_audio_format matches Some(f) ==> session_update_of(c).output_format == f,
        c.output_audio_format is None ==> session_update_of(c).output_format == RealtimeAudioFormat::Pcm16,
        c.input_audio_format matches Some(f) ==> session_update_of(c).input_format == f,
        c.input_audio_format is None ==> session_update_of(c).input_format == RealtimeAudioFormat::Pcm16,
        session_update_of(SessionConfig { input_audio_format: other_input, ..c }).output_format
            == session_update_of(c).output_format,
        session_update_of(SessionConfig { output_audio_format: other_output, ..c }).input_format
            == session_update_of(c).input_format,
{
}

/// The rest of the opening settings come from the configuration as given:
/// the voice, instructions and output token limit unchanged; the tool choice
/// configured, else automatic; transcription off when disabled, else with the
/// configured model, else not mentioned; audio output whenever audio is among
/// the modalities asked for (both audio and text when none are given).
pub proof fn lemma_session_update_settings(c: SessionConfig)
    ensures
        session_update_of(c).voice == c.voice,
        session_update_of(c).instructions == c.instructions,
        session_update_of(c).max_output_tokens == c.max_response_output_tokens,
        c.tool_choice matches Some(t) ==> session_update_of(c).tool_choice == t,
        c.tool_choice is None ==> session_update_of(c).tool_choice == RealtimeToolChoice::Auto,
        c.disable_input_audio_transcription ==> session_update_of(c).transcription is Off,
        !c.disable_input_audio_transcription && c.input_audio_transcription is None ==> session_update_of(
            c,
        ).transcription is Unset,
        !c.disable_input_audio_transcription && c.input_audio_transcription is Some ==> session_update_of(
            c,
        ).transcription == TranscriptionSetting::Model(c.input_audio_transcription->0.model),
        c.modalities is None ==> session_update_of(c).output_modality == RealtimeModality::Audio,
        c.modalities matches Some(v) ==> (session_update_of(c).output_modality == RealtimeModality::Audio
            <==> v@.contains(RealtimeModality::Audio)),
{
    assert(seq![RealtimeModality::Audio, RealtimeModality::Text][0] == RealtimeModality::Audio);
}

} // verus!
