//! Fingerprints of what a segment's audio depends on, so that unchanged
//! segments keep their audio.
use vstd::prelude::*;
use crate::codec::{lower_hex, sha256, sha256_digest, to_lower_hex};
use crate::textseq::{chars_to_string, dec, push_all, push_dec, push_str, str_to_chars, trim, trim_chars};

verus! {

/// Everything the audio of a segment depends on (version 2).
#[derive(Debug, Clone)]
pub struct SegmentFingerprintV2 {
    pub schema_version: u8,
    pub provider_id: String,
    pub model_id: String,
    pub final_spoken_text: String,
    pub final_prompt: String,
    pub voice_id: String,
    pub sample_rate_hz: u32,
    pub channels: u8,
    pub sample_bits: u8,
    pub normalizer_version: String,
    pub prompt_builder_version: String,
}

impl Default for SegmentFingerprintV2 {
    /// Schema 2, Gemini 3.1 Flash TTS with voice Kore, 24 kHz mono 16-bit, empty
    /// text and prompt, component versions 1.0.0.
    fn default() -> (r: Self)
        ensures
            r.schema_version == 2,
            r.provider_id@ == "google_gemini"@,
            r.model_id@ == "gemini-3.1-flash-tts-preview"@,
            r.final_spoken_text@ == Seq::<char>::empty(),
            r.final_prompt@ == Seq::<char>::empty(),
            r.voice_id@ == "Kore"@,
            r.sample_rate_hz == 24000,
            r.channels == 1,
            r.sample_bits == 16,
            r.normalizer_version@ == "1.0.0"@,
            r.prompt_builder_version@ == "1.0.0"@,
    {
        SegmentFingerprintV2 {
            schema_version: 2,
            provider_id: "google_gemini".to_owned(),
            model_id: "gemini-3.1-flash-tts-preview".to_owned(),
            final_spoken_text: String::new(),
            final_prompt: String::new(),
            voice_id: "Kore".to_owned(),
            sample_rate_hz: 24000,
            channels: 1,
            sample_bits: 16,
            normalizer_version: "1.0.0".to_owned(),
            prompt_builder_version: "1.0.0".to_owned(),
        }
    }
}

/// How audio cached before fingerprints existed is treated.
#[derive(Debug, Clone, Copy, PartialEq, Eq, Structural)]
pub enum LegacyCacheClassification {
    Preserved,
    Reusable,
    Unverified,
}

/// The hexadecimal SHA-256 digest of the UTF-8 bytes of a text.
pub open spec fn text_digest(t: Seq<char>) -> Seq<char> {
    lower_hex(sha256_digest(vstd::utf8::encode_utf8(t)))
}

/// The hexadecimal SHA-256 digest of the UTF-8 bytes of `text`.
pub fn digest_hex(text: &str) -> (r: String)
    ensures
        r@ == text_digest(text@),
{
    let d = sha256(text.as_bytes());
    to_lower_hex(d.as_slice())
}

/// The version-2 fingerprint of a canonical serialization: `fp2_` and its digest.
pub fn fingerprint_v2_of_serialized(serialized: &[u8]) -> (r: String)
    ensures
        r@ == "fp2_"@ + lower_hex(sha256_digest(serialized@)),
{
    let d = sha256(serialized);
    let h = to_lower_hex(d.as_slice());
    let mut v: Vec<char> = Vec::new();
    push_str(&mut v, "fp2_");
    push_str(&mut v, h.as_str());
    chars_to_string(v.as_slice())
}

/// The canonical text of a version-1 fingerprint; the three settings come as the
/// caller printed them with two decimals.
pub open spec fn canonical_v1(
    text: Seq<char>,
    voice: Seq<char>,
    model: Seq<char>,
    rate: Seq<char>,
    pitch: Seq<char>,
    vol: Seq<char>,
    sample_rate: nat,
) -> Seq<char> {
    "tts-fingerprint:v1\ntext="@ + trim(text) + "\nvoice="@ + trim(voice) + "\nmodel="@ + trim(model)
        + "\nrate="@ + rate + "\npitch="@ + pitch + "\nvol="@ + vol + "\nsample_rate="@ + dec(
        sample_rate,
    ) + "\n"@
}

/// The version-1 fingerprint: the digest of the canonical text.
pub fn fingerprint_v1(
    text: &str,
    voice: &str,
    model: &str,
    rate_2dp: &str,
    pitch_2dp: &str,
    vol_2dp: &str,
    sample_rate_hz: u32,
) -> (r: String)
    ensures
        r@ == text_digest(
            canonical_v1(text@, voice@, model@, rate_2dp@, pitch_2dp@, vol_2dp@, sample_rate_hz as nat),
        ),
{
    let mut v: Vec<char> = Vec::new();
    push_str(&mut v, "tts-fingerprint:v1\ntext=");
    let t = str_to_chars(text);
    push_all(&mut v, trim_chars(t.as_slice()).as_slice());
    push_str(&mut v, "\nvoice=");
    let vc = str_to_chars(voice);
    push_all(&mut v, trim_chars(vc.as_slice()).as_slice());
    push_str(&mut v, "\nmodel=");
    let m = str_to_chars(model);
    push_all(&mut v, trim_chars(m.as_slice()).as_slice());
    push_str(&mut v, "\nrate=");
    push_str(&mut v, rate_2dp);
    push_str(&mut v, "\npitch=");
    push_str(&mut v, pitch_2dp);
    push_str(&mut v, "\nvol=");
    push_str(&mut v, vol_2dp);
    push_str(&mut v, "\nsample_rate=");
    push_dec(&mut v, sample_rate_hz as u64);
    push_str(&mut v, "\n");
    assert(v@ =~= canonical_v1(text@, voice@, model@, rate_2dp@, pitch_2dp@, vol_2dp@, sample_rate_hz as nat));
    let s = chars_to_string(v.as_slice());
    digest_hex(s.as_str())
}

} // verus!
