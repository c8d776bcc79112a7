//! Base64 and PCM16 audio framing: samples travel as little-endian byte
//! pairs inside standard (padded) base64 text.
use vstd::prelude::*;
use base64::Engine;

verus! {

/// The standard (padded) base64 text `base64::engine::general_purpose::STANDARD` gives for bytes.
pub uninterp spec fn base64_standard(bytes: Seq<u8>) -> Seq<char>;

/// What `STANDARD.decode` gives back for a text: the bytes, or nothing when it refuses the text.
pub uninterp spec fn base64_standard_decoded(text: Seq<char>) -> Option<Seq<u8>>;

/// The length of the padded base64 text of `n` bytes.
pub open spec fn base64_len(n: nat) -> nat {
    (n / 3) * 4 + if n % 3 > 0 { 4nat } else { 0nat }
}

#[verifier::external_type_specification]
#[verifier::external_body]
pub struct ExDecodeError(base64::DecodeError);

/// Calls `STANDARD.encode` of the base64 crate; the text is named
/// `base64_standard` of the bytes. The crate panics when the length of the
/// text overflows a machine word, which `requires` rules out.
#[verifier::external_body]
pub(crate) fn encode_base64(bytes: &[u8]) -> (s: String)
    requires
        base64_len(bytes@.len()) <= usize::MAX,
    ensures
        s@ == base64_standard(bytes@),
{
    base64::engine::general_purpose::STANDARD.encode(bytes)
}

/// Calls `STANDARD.decode` of the base64 crate; what it gives back is named
/// `base64_standard_decoded` of the text. As the crate's own round-trip
/// tests check, the text `encode` made from some bytes decodes to exactly
/// those bytes.
#[verifier::external_body]
fn decode_base64(text: &str) -> (r: Result<Vec<u8>, base64::DecodeError>)
    ensures
        match r {
            Ok(bytes) => base64_standard_decoded(text@) == Some(bytes@),
            Err(_) => base64_standard_decoded(text@) is None,
        },
        forall|bytes: Seq<u8>|
            #[trigger] base64_standard(bytes) == text@ ==> match r {
                Ok(b) => b@ == bytes,
                Err(_) => false,
            },
{
    base64::engine::general_purpose::STANDARD.decode(text)
}

/// An audio payload that could not be read.
#[derive(Debug)]
pub enum CodecError {
    /// The text is not standard base64; the cause is the base64 crate's.
    InvalidBase64(base64::DecodeError),
}

/// The low byte of a sample.
pub open spec fn low_byte(s: i16) -> u8 {
    ((s as u16) & 0xff) as u8
}

/// The high byte of a sample.
pub open spec fn high_byte(s: i16) -> u8 {
    ((s as u16) >> 8) as u8
}

/// The sample whose little-endian bytes are `lo` then `hi`.
pub open spec fn sample_of(lo: u8, hi: u8) -> i16 {
    (((hi as u16) << 8) | (lo as u16)) as i16
}

/// The little-endian bytes of samples, two per sample, in order.
pub open spec fn pcm16_le_bytes(samples: Seq<i16>) -> Seq<u8> {
    Seq::new(
        2 * samples.len(),
        |i: int|
            if i % 2 == 0 {
                low_byte(samples[i / 2])
            } else {
                high_byte(samples[i / 2])
            },
    )
}

/// The samples read from bytes two at a time; a trailing odd byte is ignored.
pub open spec fn pcm16_samples(bytes: Seq<u8>) -> Seq<i16> {
    Seq::new(bytes.len() / 2, |k: int| sample_of(bytes[2 * k], bytes[2 * k + 1]))
}

/// A sample is rebuilt from its two bytes.
pub proof fn lemma_sample_bytes_round_trip(s: i16)
    ensures
        sample_of(low_byte(s), high_byte(s)) == s,
{
    assert(((((((s as u16) >> 8) as u8) as u16) << 8) | ((((s as u16) & 0xff) as u8) as u16)) as i16
        == s) by (bit_vector);
}

/// Reading back the bytes of samples gives the samples.
pub proof fn lemma_pcm16_round_trip(samples: Seq<i16>)
    ensures
        pcm16_samples(pcm16_le_bytes(samples)) == samples,
{
    let bytes = pcm16_le_bytes(samples);
    assert forall|k: int| 0 <= k < samples.len() implies #[trigger] pcm16_samples(bytes)[k]
        == samples[k] by {
        assert((2 * k) / 2 == k);
        assert((2 * k + 1) / 2 == k);
        assert((2 * k) % 2 == 0);
        assert((2 * k + 1) % 2 == 1);
        lemma_sample_bytes_round_trip(samples[k]);
    }
    assert(pcm16_samples(bytes) =~= samples);
}

fn sample_from_le(lo: u8, hi: u8) -> (s: i16)
    ensures
        s == sample_of(lo, hi),
{
    (((hi as u16) << 8) | (lo as u16)) as i16
}

fn sample_to_le(s: i16) -> (r: (u8, u8))
    ensures
        r.0 == low_byte(s),
        r.1 == high_byte(s),
{
    let u = s as u16;
    ((u & 0xff) as u8, (u >> 8) as u8)
}

fn pcm16_from_le_bytes(bytes: &[u8]) -> (samples: Vec<i16>)
    ensures
        samples@ == pcm16_samples(bytes@),
{
    let n: usize = bytes.len() / 2;
    let mut samples: Vec<i16> = Vec::new();
    let mut k: usize = 0;
    while k < n
        invariant
            n == bytes@.len() / 2,
            bytes@.len() == bytes.len(),
            k <= n,
            samples@ == pcm16_samples(bytes@).take(k as int),
        decreases n - k,
    {
        assert(2 * k + 1 < bytes@.len());
        let s = sample_from_le(bytes[2 * k], bytes[2 * k + 1]);
        samples.push(s);
        k = k + 1;
        assert(samples@ =~= pcm16_samples(bytes@).take(k as int));
    }
    assert(samples@ =~= pcm16_samples(bytes@));
    samples
}

fn pcm16_to_le_bytes(samples: &[i16]) -> (bytes: Vec<u8>)
    requires
        2 * samples@.len() <= usize::MAX,
    ensures
        bytes@ == pcm16_le_bytes(samples@),
{
    let mut bytes: Vec<u8> = Vec::new();
    let mut k: usize = 0;
    while k < samples.len()
        invariant
            2 * samples@.len() <= usize::MAX,
            k <= samples@.len(),
            bytes@ == pcm16_le_bytes(samples@.take(k as int)),
        decreases samples@.len() - k,
    {
        let (lo, hi) = sample_to_le(samples[k]);
        bytes.push(lo);
        bytes.push(hi);
        proof {
            let prev = samples@.take(k as int);
            let next = samples@.take(k + 1);
            assert forall|i: int| 0 <= i < 2 * next.len() implies #[trigger] pcm16_le_bytes(next)[i]
                == bytes@[i] by {
                if i < 2 * k {
                    assert(i / 2 < k);
                    assert(next[i / 2] == prev[i / 2]);
                } else {
                    assert(i / 2 == k);
                }
            }
            assert(pcm16_le_bytes(next) =~= bytes@);
        }
        k = k + 1;
    }
    assert(samples@.take(samples@.len() as int) =~= samples@);
    bytes
}

/// Decodes base64 text into little-endian PCM16 samples. A trailing odd byte
/// is ignored; text that is not standard base64 is refused. Decoding the text
/// that `encode_base64_pcm16` made from samples gives those samples back.
pub fn decode_base64_pcm16(b64: &str) -> (r: Result<Vec<i16>, CodecError>)
    ensures
        match base64_standard_decoded(b64@) {
            Some(bytes) => match r {
                Ok(samples) => samples@ == pcm16_samples(bytes),
                Err(_) => false,
            },
            None => r is Err,
        },
        forall|samples: Seq<i16>|
            #[trigger] base64_standard(pcm16_le_bytes(samples)) == b64@ ==> match r {
                Ok(s) => s@ == samples,
                Err(_) => false,
            },
{
    match decode_base64(b64) {
        Ok(bytes) => {
            let samples = pcm16_from_le_bytes(bytes.as_slice());
            proof {
                assert forall|orig: Seq<i16>|
                    #[trigger] base64_standard(pcm16_le_bytes(orig)) == b64@ implies samples@
                    == orig by {
                    lemma_pcm16_round_trip(orig);
                }
            }
            Ok(samples)
        },
        Err(e) => Err(CodecError::InvalidBase64(e)),
    }
}

/// Encodes PCM16 samples as standard base64 of their little-endian bytes.
pub fn encode_base64_pcm16(samples: &[i16]) -> (s: String)
    requires
        2 * samples@.len() <= usize::MAX,
        base64_len(2 * samples@.len()) <= usize::MAX,
    ensures
        s@ == base64_standard(pcm16_le_bytes(samples@)),
{
    let bytes = pcm16_to_le_bytes(samples);
    encode_base64(bytes.as_slice())
}

/// Encodes raw little-endian PCM16 bytes as standard base64.
pub fn encode_base64_pcm16_bytes(bytes: &[u8]) -> (s: String)
    requires
        base64_len(bytes@.len()) <= usize::MAX,
    ensures
        s@ == base64_standard(bytes@),
{
    encode_base64(bytes)
}

} // verus!
