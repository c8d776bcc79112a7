//! Token counting with the tiktoken byte-pair encodings.
use vstd::prelude::*;
use crate::error::MojenticError;
use crate::text::{chars_eq, chars_of};
use vstd::string::StringExecFns;

verus! {

/// A tiktoken byte-pair encoding.
#[derive(Debug, Clone, Copy, PartialEq, Eq, Structural)]
pub enum TokenEncoding {
    /// Used by GPT-4 and GPT-3.5-turbo.
    Cl100kBase,
    /// Used by older GPT-3 models.
    P50kBase,
    /// Used by the oldest GPT-3 models.
    R50kBase,
}

/// What `CoreBPE::encode` gives for a text under an encoding, with every
/// special token of the encoding allowed: the tokens, or `None` when it fails.
pub uninterp spec fn bpe_encode(encoding: TokenEncoding, text: Seq<char>) -> Option<Seq<u32>>;

/// What `CoreBPE::decode` gives for tokens under an encoding: the text, or
/// `None` when it fails (an unknown token, or bytes that are not UTF-8).
pub uninterp spec fn bpe_decode(encoding: TokenEncoding, tokens: Seq<u32>) -> Option<Seq<char>>;

/// Calls `CoreBPE::encode` on `tiktoken_rs::cl100k_base_singleton()` with all
/// of its special tokens allowed, keeping the tokens and dropping the length
/// of the last piece. The outcome is named `bpe_encode` of the encoding and
/// the text, `None` standing for its error, which comes when the regex engine
/// reaches its backtracking limit on a piece of the text. The search for
/// special tokens, unwrapped in that source, uses a pattern of escaped
/// literals, which the engine runs without backtracking.
#[verifier::external_body]
fn encode_cl100k(text: &str) -> (r: Option<Vec<u32>>)
    ensures
        match r {
            Some(v) => bpe_encode(TokenEncoding::Cl100kBase, text@) == Some(v@),
            None => bpe_encode(TokenEncoding::Cl100kBase, text@) is None,
        },
{
    let bpe = tiktoken_rs::cl100k_base_singleton();
    bpe.encode(text, &bpe.special_tokens()).ok().map(|r| r.0)
}

/// As `encode_cl100k`, with `tiktoken_rs::p50k_base_singleton()`.
#[verifier::external_body]
fn encode_p50k(text: &str) -> (r: Option<Vec<u32>>)
    ensures
        match r {
            Some(v) => bpe_encode(TokenEncoding::P50kBase, text@) == Some(v@),
            None => bpe_encode(TokenEncoding::P50kBase, text@) is None,
        },
{
    let bpe = tiktoken_rs::p50k_base_singleton();
    bpe.encode(text, &bpe.special_tokens()).ok().map(|r| r.0)
}

/// As `encode_cl100k`, with `tiktoken_rs::r50k_base_singleton()`.
#[verifier::external_body]
fn encode_r50k(text: &str) -> (r: Option<Vec<u32>>)
    ensures
        match r {
            Some(v) => bpe_encode(TokenEncoding::R50kBase, text@) == Some(v@),
            None => bpe_encode(TokenEncoding::R50kBase, text@) is None,
        },
{
    let bpe = tiktoken_rs::r50k_base_singleton();
    bpe.encode(text, &bpe.special_tokens()).ok().map(|r| r.0)
}

/// Calls `tiktoken_rs::cl100k_base_singleton().decode`; the outcome is named
/// `bpe_decode` of the encoding and the tokens, `None` standing for its error.
#[verifier::external_body]
fn decode_cl100k(tokens: &[u32]) -> (r: Option<String>)
    ensures
        match r {
            Some(s) => bpe_decode(TokenEncoding::Cl100kBase, tokens@) == Some(s@),
            None => bpe_decode(TokenEncoding::Cl100kBase, tokens@) is None,
        },
{
    tiktoken_rs::cl100k_base_singleton().decode(tokens).ok()
}

/// As `decode_cl100k`, with `tiktoken_rs::p50k_base_singleton()`.
#[verifier::external_body]
fn decode_p50k(tokens: &[u32]) -> (r: Option<String>)
    ensures
        match r {
            Some(s) => bpe_decode(TokenEncoding::P50kBase, tokens@) == Some(s@),
            None => bpe_decode(TokenEncoding::P50kBase, tokens@) is None,
        },
{
    tiktoken_rs::p50k_base_singleton().decode(tokens).ok()
}

/// As `decode_cl100k`, with `tiktoken_rs::r50k_base_singleton()`.
#[verifier::external_body]
fn decode_r50k(tokens: &[u32]) -> (r: Option<String>)
    ensures
        match r {
            Some(s) => bpe_decode(TokenEncoding::R50kBase, tokens@) == Some(s@),
            None => bpe_decode(TokenEncoding::R50kBase, tokens@) is None,
        },
{
    tiktoken_rs::r50k_base_singleton().decode(tokens).ok()
}

/// The encoding an encoding name selects, if any.
pub open spec fn encoding_named(name: Seq<char>) -> Option<TokenEncoding> {
    if name == "cl100k_base"@ {
        Some(TokenEncoding::Cl100kBase)
    } else if name == "p50k_base"@ {
        Some(TokenEncoding::P50kBase)
    } else if name == "r50k_base"@ {
        Some(TokenEncoding::R50kBase)
    } else {
        None
    }
}

/// The message for an unknown encoding name.
pub open spec fn unsupported_encoding_message(name: Seq<char>) -> Seq<char> {
    "Unsupported encoding model: "@ + name
}

/// Encodes text to tokens and back with one tiktoken encoding.
#[derive(Debug, Clone, Copy)]
pub struct TokenizerGateway {
    pub encoding: TokenEncoding,
}

impl TokenizerGateway {
    /// A tokenizer for the encoding named `model` (`cl100k_base`,
    /// `p50k_base` or `r50k_base`); any other name is an error.
    pub fn new(model: &str) -> (r: Result<TokenizerGateway, MojenticError>)
        ensures
            match encoding_named(model@) {
                Some(e) => r == Ok::<TokenizerGateway, MojenticError>(TokenizerGateway { encoding: e }),
                None => r matches Err(MojenticError::InvalidArgument(m)) && m@
                    == unsupported_encoding_message(model@),
            },
    {
        let name = chars_of(model);
        let cl = chars_of("cl100k_base");
        let p = chars_of("p50k_base");
        let r = chars_of("r50k_base");
        if chars_eq(name.as_slice(), cl.as_slice()) {
            Ok(TokenizerGateway { encoding: TokenEncoding::Cl100kBase })
        } else if chars_eq(name.as_slice(), p.as_slice()) {
            Ok(TokenizerGateway { encoding: TokenEncoding::P50kBase })
        } else if chars_eq(name.as_slice(), r.as_slice()) {
            Ok(TokenizerGateway { encoding: TokenEncoding::R50kBase })
        } else {
            let mut m = String::from_str("Unsupported encoding model: ");
            m.append(model);
            Err(MojenticError::InvalidArgument(m))
        }
    }

    /// The tokens of `text`, or `None` when the encoder fails on it.
    pub fn try_encode(&self, text: &str) -> (r: Option<Vec<u32>>)
        ensures
            match r {
                Some(v) => bpe_encode(self.encoding, text@) == Some(v@),
                None => bpe_encode(self.encoding, text@) is None,
            },
    {
        match self.encoding {
            TokenEncoding::Cl100kBase => encode_cl100k(text),
            TokenEncoding::P50kBase => encode_p50k(text),
            TokenEncoding::R50kBase => encode_r50k(text),
        }
    }

    /// The tokens of `text`, which the encoder must accept.
    pub fn encode(&self, text: &str) -> (v: Vec<u32>)
        requires
            bpe_encode(self.encoding, text@) is Some,
        ensures
            bpe_encode(self.encoding, text@) == Some(v@),
    {
        self.try_encode(text).unwrap()
    }

    /// The text of `tokens`, or the empty string when they cannot be decoded.
    pub fn decode(&self, tokens: &[u32]) -> (s: String)
        ensures
            s@ == match bpe_decode(self.encoding, tokens@) {
                Some(t) => t,
                None => Seq::<char>::empty(),
            },
    {
        let r = match self.encoding {
            TokenEncoding::Cl100kBase => decode_cl100k(tokens),
            TokenEncoding::P50kBase => decode_p50k(tokens),
            TokenEncoding::R50kBase => decode_r50k(tokens),
        };
        match r {
            Some(s) => s,
            None => String::new(),
        }
    }

    /// How many tokens `text` has; the encoder must accept it.
    pub fn count_tokens(&self, text: &str) -> (n: usize)
        requires
            bpe_encode(self.encoding, text@) is Some,
        ensures
            bpe_encode(self.encoding, text@) matches Some(t) && n == t.len(),
    {
        self.encode(text).len()
    }

    /// How many tokens `text` has, or `None` when the encoder fails on it.
    pub fn try_count_tokens(&self, text: &str) -> (r: Option<usize>)
        ensures
            match bpe_encode(self.encoding, text@) {
                Some(t) => r matches Some(n) && n == t.len(),
                None => r is None,
            },
    {
        match self.try_encode(text) {
            Some(v) => Some(v.len()),
            None => None,
        }
    }
}

impl Default for TokenizerGateway {
    /// The `cl100k_base` tokenizer.
    fn default() -> (t: TokenizerGateway)
        ensures
            t.encoding == TokenEncoding::Cl100kBase,
    {
        TokenizerGateway { encoding: TokenEncoding::Cl100kBase }
    }
}

} // verus!
