//! 16-bit little-endian PCM at 24 kHz mono, silence, and the WAV container that
//! `hound` writes around it.
use vstd::prelude::*;
use crate::textseq::{chars_to_string, push_str};

verus! {

pub const DEFAULT_SAMPLE_RATE: u32 = 24000;

pub const DEFAULT_CHANNELS: u16 = 1;

pub const DEFAULT_BITS_PER_SAMPLE: u16 = 16;

/// The format of a WAV file: channels, sample rate and bits per integer sample.
#[derive(Debug, Clone, Copy, PartialEq, Eq, Structural)]
pub struct WavFormat {
    pub channels: u16,
    pub sample_rate: u32,
    pub bits_per_sample: u16,
}

/// The studio's format: 24 kHz, mono, 16-bit integer samples.
pub fn get_standard_wav_spec() -> (r: WavFormat)
    ensures
        r == (WavFormat { channels: 1, sample_rate: 24000, bits_per_sample: 16 }),
{
    WavFormat {
        channels: DEFAULT_CHANNELS,
        sample_rate: DEFAULT_SAMPLE_RATE,
        bits_per_sample: DEFAULT_BITS_PER_SAMPLE,
    }
}

/// Bytes of silence for `duration_ms` milliseconds: two zero bytes per sample,
/// `24000 * duration_ms / 1000` samples.
pub fn generate_silence_pcm(duration_ms: u64) -> (r: Vec<u8>)
    requires
        24000 * duration_ms <= u64::MAX,
        2 * ((24000 * duration_ms) / 1000) <= usize::MAX,
    ensures
        r@.len() == 2 * ((24000 * duration_ms as nat) / 1000),
        forall|i: int| 0 <= i < r@.len() ==> r@[i] == 0,
{
    let num_samples = (DEFAULT_SAMPLE_RATE as u64 * duration_ms) / 1000;
    let byte_count = (num_samples * 2) as usize;
    let mut v: Vec<u8> = Vec::new();
    let mut i: usize = 0;
    while i < byte_count
        invariant
            0 <= i <= byte_count,
            v@.len() == i,
            forall|k: int| 0 <= k < i ==> v@[k] == 0,
        decreases byte_count - i,
    {
        v.push(0);
        i = i + 1;
    }
    v
}

/// The sample made of two little-endian bytes.
pub open spec fn le_i16(lo: u8, hi: u8) -> i16 {
    (lo as int + 256 * hi as int - if hi >= 128 { 65536int } else { 0int }) as i16
}

/// The samples of PCM bytes, two bytes each; an odd last byte is ignored.
pub open spec fn pcm_samples(b: Seq<u8>) -> Seq<i16> {
    Seq::new(b.len() / 2, |i: int| le_i16(b[2 * i], b[2 * i + 1]))
}

fn sample_at(lo: u8, hi: u8) -> (r: i16)
    ensures
        r == le_i16(lo, hi),
{
    let v: i32 = lo as i32 + 256 * hi as i32 - if hi >= 128 { 65536i32 } else { 0i32 };
    v as i16
}

/// The samples of PCM bytes.
pub fn decode_pcm_samples(pcm: &[u8]) -> (r: Vec<i16>)
    ensures
        r@ == pcm_samples(pcm@),
{
    let len = pcm.len();
    let n = len / 2;
    let mut out: Vec<i16> = Vec::new();
    let mut i: usize = 0;
    while i < n
        invariant
            0 <= i <= n,
            len == pcm@.len(),
            n == len / 2,
            out@.len() == i,
            forall|k: int| 0 <= k < i ==> out@[k] == le_i16(pcm@[2 * k], pcm@[2 * k + 1]),
        decreases n - i,
    {
        out.push(sample_at(pcm[2 * i], pcm[2 * i + 1]));
        i = i + 1;
    }
    assert(out@ =~= pcm_samples(pcm@));
    out
}

/// Where writing a WAV image failed, with the writer's message.
#[derive(Debug)]
pub enum WavWriteFailure {
    Create(String),
    Sample(String),
    Finalize(String),
}

/// `x` as two little-endian bytes (`0 <= x < 2^16`).
pub open spec fn le16(x: int) -> Seq<u8> {
    seq![(x % 256) as u8, (x / 256) as u8]
}

/// `x` as four little-endian bytes (`0 <= x < 2^32`).
pub open spec fn le32(x: int) -> Seq<u8> {
    le16(x % 65536) + le16(x / 65536)
}

/// The two little-endian bytes of a sample, in two's complement.
pub open spec fn sample_bytes(s: i16) -> Seq<u8> {
    le16(if s < 0 { s + 65536 } else { s as int })
}

/// The data of a WAV image: each sample as two little-endian bytes.
pub open spec fn samples_le_bytes(s: Seq<i16>) -> Seq<u8> {
    Seq::new(2 * s.len(), |k: int| sample_bytes(s[k / 2])[k % 2])
}

/// The 44-byte header of a 24 kHz mono 16-bit PCM WAV image with `data_len`
/// bytes of data: the RIFF chunk and its size, the `fmt ` chunk (PCM, one
/// channel, 24000 samples and 48000 bytes a second, blocks of two bytes, 16
/// bits), and the `data` chunk's header.
pub open spec fn standard_wav_header(data_len: nat) -> Seq<u8> {
    seq![82u8, 73, 70, 70] + le32(data_len + 36int) + seq![87u8, 65, 86, 69] + seq![102u8, 109, 116, 32]
        + le32(16) + le16(1) + le16(1) + le32(24000) + le32(48000) + le16(2) + le16(16) + seq![
        100u8,
        97,
        116,
        97,
    ] + le32(data_len as int)
}

/// The WAV image of samples in the studio's format.
pub open spec fn standard_wav_image(s: Seq<i16>) -> Seq<u8> {
    standard_wav_header(2 * s.len()) + samples_le_bytes(s)
}

/// Writes the samples with `hound::WavWriter` into memory (`WavWriter::new`,
/// `write_sample` for each sample, `finalize`), in the studio's format only:
/// 24 kHz, mono, 16-bit integers. For that format `new` writes the 44-byte PCM
/// header (write.rs `new_with_spec_ex`, `write_headers`, `write_pcmwaveformat`),
/// each sample is written as two little-endian bytes (lib.rs `write_padded`,
/// case 16/2), and `finalize` fills in the RIFF and data sizes
/// (`update_header`); the writer is a cursor over a `Vec`, which does not fail
/// to write or seek, 16 bits is a supported depth, and one channel leaves no
/// unfinished sample, so the call succeeds. The data size must fit hound's
/// 32-bit counters.
#[verifier::external_body]
fn hound_write_wav(fmt: WavFormat, samples: &[i16]) -> (r: Result<Vec<u8>, WavWriteFailure>)
    requires
        fmt == (WavFormat { channels: 1, sample_rate: 24000, bits_per_sample: 16 }),
        2 * samples@.len() + 36 <= u32::MAX,
    ensures
        r is Ok,
        match r {
            Ok(b) => b@ == standard_wav_image(samples@),
            Err(_) => false,
        },
{
    let spec = hound::WavSpec { channels: fmt.channels, sample_rate: fmt.sample_rate, bits_per_sample: fmt.bits_per_sample, sample_format: hound::SampleFormat::Int };
    let mut cursor = std::io::Cursor::new(Vec::new());
    let mut writer = match hound::WavWriter::new(&mut cursor, spec) {
        Ok(w) => w,
        Err(e) => return Err(WavWriteFailure::Create(e.to_string())),
    };
    for s in samples {
        if let Err(e) = writer.write_sample(*s) { return Err(WavWriteFailure::Sample(e.to_string())); }
    }
    if let Err(e) = writer.finalize() { return Err(WavWriteFailure::Finalize(e.to_string())); }
    Ok(cursor.into_inner())
}

/// Each sample's bytes are the two PCM bytes it was read from: the samples of
/// PCM bytes, written back, give the bytes (less an odd last one).
proof fn lemma_samples_round_trip(b: Seq<u8>)
    ensures
        samples_le_bytes(pcm_samples(b)) == b.take(2 * (b.len() / 2) as int),
{
    let s = pcm_samples(b);
    assert forall|k: int| 0 <= k < 2 * s.len() implies #[trigger] samples_le_bytes(s)[k] == b[k] by {
        let i = k / 2;
        let lo = b[2 * i];
        let hi = b[2 * i + 1];
        let v: int = lo as int + 256 * hi as int - if hi >= 128 { 65536int } else { 0int };
        assert(-32768 <= v <= 32767);
        assert(s[i] == v);
        let u: int = if s[i] < 0 { s[i] + 65536 } else { s[i] as int };
        assert(u == lo as int + 256 * hi as int);
        assert(u % 256 == lo as int && u / 256 == hi as int);
        if k % 2 == 0 {
            assert(k == 2 * i);
        } else {
            assert(k == 2 * i + 1);
        }
    }
    assert(samples_le_bytes(s) =~= b.take(2 * (b.len() / 2) as int));
}

/// The message of a failed WAV write, by stage.
pub open spec fn wav_failure_message(stage: nat, msg: Seq<char>) -> Seq<char> {
    if stage == 0 {
        "Failed to create WAV writer: "@ + msg
    } else if stage == 1 {
        "Failed to write audio sample: "@ + msg
    } else {
        "Failed to finalize WAV file: "@ + msg
    }
}

/// The message for a failed WAV write.
pub fn wav_failure_text(f: WavWriteFailure) -> (r: String)
    ensures
        r@ == match f {
            WavWriteFailure::Create(m) => wav_failure_message(0, m@),
            WavWriteFailure::Sample(m) => wav_failure_message(1, m@),
            WavWriteFailure::Finalize(m) => wav_failure_message(2, m@),
        },
{
    let mut v: Vec<char> = Vec::new();
    match f {
        WavWriteFailure::Create(m) => {
            push_str(&mut v, "Failed to create WAV writer: ");
            push_str(&mut v, m.as_str());
        },
        WavWriteFailure::Sample(m) => {
            push_str(&mut v, "Failed to write audio sample: ");
            push_str(&mut v, m.as_str());
        },
        WavWriteFailure::Finalize(m) => {
            push_str(&mut v, "Failed to finalize WAV file: ");
            push_str(&mut v, m.as_str());
        },
    }
    chars_to_string(v.as_slice())
}

/// Whether PCM bytes are few enough for a WAV image (the writer counts the data
/// bytes in 32 bits): `pcm_to_wav_bytes` needs it.
pub fn pcm_fits_wav(pcm_len: usize) -> (r: bool)
    ensures
        r == ((pcm_len / 2) * 2 + 36 <= u32::MAX),
{
    pcm_len / 2 <= (0xffff_ffffusize - 36) / 2
}

/// The WAV image of PCM bytes in the studio's format: the 44-byte header and the
/// PCM bytes (less an odd last one). The writer does not fail on it, so the
/// result is always `Ok`.
pub fn pcm_to_wav_bytes(pcm_bytes: &[u8]) -> (r: Result<Vec<u8>, String>)
    requires
        (pcm_bytes@.len() / 2) * 2 + 36 <= u32::MAX,
    ensures
        r matches Ok(v) && v@ == standard_wav_header(2 * (pcm_bytes@.len() / 2)) + pcm_bytes@.take(
            2 * (pcm_bytes@.len() / 2) as int,
        ),
{
    let samples = decode_pcm_samples(pcm_bytes);
    proof {
        lemma_samples_round_trip(pcm_bytes@);
    }
    match hound_write_wav(get_standard_wav_spec(), samples.as_slice()) {
        Ok(b) => Ok(b),
        Err(f) => Err(wav_failure_text(f)),
    }
}

/// The duration in milliseconds of `num_samples` samples at `sample_rate` (0 for a
/// rate of 0).
pub fn wav_duration_ms(num_samples: u64, sample_rate: u32) -> (r: u64)
    requires
        num_samples * 1000 <= u64::MAX,
    ensures
        sample_rate == 0 ==> r == 0,
        sample_rate > 0 ==> r == (num_samples * 1000) / (sample_rate as int),
{
    if sample_rate == 0 {
        return 0;
    }
    (num_samples * 1000) / sample_rate as u64
}

/// A segment's WAV format matches the studio's.
pub open spec fn format_matches(f: WavFormat) -> bool {
    f.sample_rate == 24000 && f.channels == 1 && f.bits_per_sample == 16
}

/// Whether a segment's WAV format is the studio's (24 kHz mono 16-bit), as merging
/// requires.
pub fn wav_format_matches(f: &WavFormat) -> (r: bool)
    ensures
        r == format_matches(*f),
{
    f.sample_rate == 24000 && f.channels == 1 && f.bits_per_sample == 16
}

/// The magnitude of a sample, `i16::MIN` counting as 32767 (saturating).
pub open spec fn sample_magnitude(s: i16) -> nat {
    if s == i16::MIN {
        32767
    } else if s < 0 {
        (-s) as nat
    } else {
        s as nat
    }
}

/// The largest sample magnitude of a signal, 0 for silence or no samples.
pub open spec fn peak_of(s: Seq<i16>) -> nat
    decreases s.len(),
{
    if s.len() == 0 {
        0
    } else {
        let p = peak_of(s.drop_last());
        let m = sample_magnitude(s.last());
        if m > p {
            m
        } else {
            p
        }
    }
}

/// The peak magnitude of a segment's samples.
pub fn peak_amplitude(samples: &[i16]) -> (r: u32)
    ensures
        r == peak_of(samples@),
        r <= 32767,
{
    let mut peak: u32 = 0;
    let mut i: usize = 0;
    while i < samples.len()
        invariant
            0 <= i <= samples.len(),
            peak == peak_of(samples@.take(i as int)),
            peak <= 32767,
        decreases samples.len() - i,
    {
        let s = samples[i];
        let m: u32 = if s == i16::MIN {
            32767
        } else if s < 0 {
            (-s) as u32
        } else {
            s as u32
        };
        assert(samples@.take(i + 1).drop_last() =~= samples@.take(i as int));
        if m > peak {
            peak = m;
        }
        i = i + 1;
    }
    assert(samples@.take(samples.len() as int) =~= samples@);
    peak
}

/// Whether a segment is scaled to a common loudness when merged: only when its
/// peak is above 1000 and below 32000.
pub fn should_normalize(peak: u32) -> (r: bool)
    ensures
        r == (1000 < peak && peak < 32000),
{
    peak > 1000 && peak < 32000
}

} // verus!
