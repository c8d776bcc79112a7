//! Request settings for the OpenAI chat API: where to connect, which
//! token-limit parameter and temperature a model takes, and how long text
//! is cut for embeddings.
use vstd::prelude::*;
use vstd::string::StringExecFns;
use crate::model_registry::{
    allows_temperature, resolve_caps, CapsView, ModelType, OpenAIModelRegistry,
};
use crate::text::push_char;
use std::time::Duration;

verus! {

/// Where and how to reach the OpenAI API.
#[derive(Debug, Clone)]
pub struct OpenAIConfig {
    pub api_key: String,
    pub base_url: String,
    pub timeout: Option<Duration>,
}

impl OpenAIConfig {
    /// The configuration from the `OPENAI_API_KEY` and `OPENAI_API_ENDPOINT`
    /// environment variables (read by the caller): an empty key when unset,
    /// and OpenAI's endpoint by default. No timeout.
    pub fn from_environment(api_key: Option<String>, endpoint: Option<String>) -> (c: Self)
        ensures
            c.api_key@ == match api_key {
                Some(k) => k@,
                None => Seq::empty(),
            },
            c.base_url@ == match endpoint {
                Some(e) => e@,
                None => "https://api.openai.com/v1"@,
            },
            c.timeout is None,
    {
        OpenAIConfig {
            api_key: match api_key {
                Some(k) => k,
                None => String::new(),
            },
            base_url: match endpoint {
                Some(e) => e,
                None => String::from_str("https://api.openai.com/v1"),
            },
            timeout: None,
        }
    }
}

/// Which parameter carries the token limit.
#[derive(Debug, Clone, Copy, PartialEq, Eq, Structural)]
pub enum TokenLimitParam {
    MaxTokens,
    MaxCompletionTokens,
}

/// What is sent as the temperature.
#[derive(Debug, Clone, Copy, PartialEq, Eq, Structural)]
pub enum TemperatureParam {
    /// The requested temperature.
    Requested,
    /// None at all: the model takes no temperature.
    Omitted,
    /// 1.0, the only one the model takes.
    DefaultOne,
}

/// The request parameters chosen for a model.
#[derive(Debug, Clone, Copy, PartialEq, Eq, Structural)]
pub struct ParameterPlan {
    pub token_param: TokenLimitParam,
    pub max_tokens: usize,
    pub temperature: TemperatureParam,
    pub supports_tools: bool,
}

/// The token limit asked for: the configured maximum when positive, else
/// the prediction count (as a machine word, as a cast gives it), else 16384.
pub open spec fn token_limit(max_tokens: usize, num_predict: Option<i32>) -> usize {
    if max_tokens > 0 {
        max_tokens
    } else {
        match num_predict {
            Some(np) => np as usize,
            None => 16384,
        }
    }
}

/// The parameters for a model with capabilities `c`.
pub open spec fn plan_for(c: CapsView, max_tokens: usize, num_predict: Option<i32>, temperature: u32) -> ParameterPlan {
    ParameterPlan {
        token_param: if c.model_type == ModelType::Reasoning {
            TokenLimitParam::MaxCompletionTokens
        } else {
            TokenLimitParam::MaxTokens
        },
        max_tokens: token_limit(max_tokens, num_predict),
        temperature: if allows_temperature(c, temperature) {
            TemperatureParam::Requested
        } else if c.supported_temperatures matches Some(ts) && ts.len() == 0 {
            TemperatureParam::Omitted
        } else {
            TemperatureParam::DefaultOne
        },
        supports_tools: c.supports_tools,
    }
}

/// The parameters for `model`, from its capabilities in the registry. The
/// temperature is in hundredths.
pub fn adapt_parameters_for_model(
    registry: &OpenAIModelRegistry,
    model: &str,
    max_tokens: usize,
    num_predict: Option<i32>,
    temperature: u32,
) -> (p: ParameterPlan)
    ensures
        p == plan_for(
            resolve_caps(registry.entries(), registry.patterns(), model@),
            max_tokens,
            num_predict,
            temperature,
        ),
{
    let caps = registry.get_model_capabilities(model);
    let limit: usize = if max_tokens > 0 {
        max_tokens
    } else {
        match num_predict {
            Some(np) => np as usize,
            None => 16384,
        }
    };
    let token_param = if caps.model_type == ModelType::Reasoning {
        TokenLimitParam::MaxCompletionTokens
    } else {
        TokenLimitParam::MaxTokens
    };
    let temp = if caps.supports_temperature(temperature) {
        TemperatureParam::Requested
    } else {
        let none_allowed = match &caps.supported_temperatures {
            Some(ts) => ts.len() == 0,
            None => false,
        };
        if none_allowed {
            TemperatureParam::Omitted
        } else {
            TemperatureParam::DefaultOne
        }
    };
    ParameterPlan { token_param, max_tokens: limit, temperature: temp, supports_tools: caps.supports_tools }
}

/// Text cut into pieces of `max` characters, the last one shorter; text
/// that fits stays whole.
pub open spec fn text_chunks(cs: Seq<char>, max: nat) -> Seq<Seq<char>>
    decreases cs.len(),
{
    if max == 0 || cs.len() <= max {
        seq![cs]
    } else {
        seq![cs.take(max as int)] + text_chunks(cs.skip(max as int), max)
    }
}

fn string_of_range(cs: &Vec<char>, a: usize, b: usize) -> (s: String)
    requires
        a <= b <= cs@.len(),
    ensures
        s@ == cs@.subrange(a as int, b as int),
{
    let mut s = String::new();
    let mut i: usize = a;
    while i < b
        invariant
            a <= i <= b <= cs@.len(),
            s@ == cs@.subrange(a as int, i as int),
        decreases b - i,
    {
        push_char(&mut s, cs[i]);
        assert(cs@.subrange(a as int, i + 1) =~= cs@.subrange(a as int, i as int).push(cs@[i as int]));
        i = i + 1;
    }
    s
}

/// Text cut for embedding: about four characters a token, so pieces of
/// `4 * chunk_size` characters.
pub fn chunk_text(text: &str, chunk_size: usize) -> (chunks: Vec<String>)
    requires
        4 * chunk_size <= usize::MAX,
        chunk_size > 0 || text@.len() == 0,
    ensures
        chunks@.map_values(|c: String| c@) == text_chunks(text@, (4 * chunk_size) as nat),
{
    let cs = crate::text::chars_of(text);
    let max_chars = chunk_size * 4;
    let n = cs.len();
    if n <= max_chars {
        let v = vec![String::from_str(text)];
        assert(v@.map_values(|c: String| c@) =~= seq![text@]);
        return v;
    }
    let ghost m = max_chars as nat;
    let mut chunks: Vec<String> = Vec::new();
    let mut start: usize = 0;
    assert(cs@.skip(0) =~= cs@);
    assert(chunks@.map_values(|c: String| c@) + text_chunks(cs@, m) =~= text_chunks(cs@, m));
    while start < n
        invariant
            cs@ == text@,
            n == cs@.len(),
            max_chars == m,
            m > 0,
            start <= n,
            chunks@.map_values(|c: String| c@) + (if start < n {
                text_chunks(cs@.skip(start as int), m)
            } else {
                Seq::empty()
            }) == text_chunks(cs@, m),
        decreases n - start,
    {
        let ghost before = chunks@.map_values(|c: String| c@);
        let ghost rest = cs@.skip(start as int);
        let end = if n - start <= max_chars {
            n
        } else {
            start + max_chars
        };
        let piece = string_of_range(&cs, start, end);
        chunks.push(piece);
        proof {
            assert(chunks@.map_values(|c: String| c@) =~= before.push(piece@));
            if n - start <= max_chars {
                assert(piece@ =~= rest);
                assert(text_chunks(rest, m) == seq![rest]);
                assert(before.push(piece@) =~= before + seq![rest]);
            } else {
                assert(piece@ =~= rest.take(m as int));
                assert(rest.skip(m as int) =~= cs@.skip(end as int));
                assert(before.push(piece@) + text_chunks(cs@.skip(end as int), m) =~= before + (
                seq![rest.take(m as int)] + text_chunks(rest.skip(m as int), m)));
            }
        }
        start = end;
    }
    assert(chunks@.map_values(|c: String| c@) + Seq::<Seq<char>>::empty() =~= chunks@.map_values(
        |c: String| c@,
    ));
    chunks
}

} // verus!
