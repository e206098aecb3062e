//! Conversions that std and the `base64` crate perform for the library: base64
//! decoding and the `{:?}` text of strings and characters. Their results are
//! named, not restated.
use vstd::prelude::*;

verus! {

/// What the standard base64 engine (`base64::engine::general_purpose::STANDARD`)
/// decodes from the text: the bytes, or the message of the decode error.
pub uninterp spec fn base64_standard_decode(data: Seq<char>) -> Result<Seq<u8>, Seq<char>>;

/// Calls `Engine::decode` of `base64::engine::general_purpose::STANDARD`; the
/// result is named by `base64_standard_decode`, with the error given by its message.
#[verifier::external_body]
pub(crate) fn decode_base64(data: &str) -> (r: Result<Vec<u8>, String>)
    ensures
        match r {
            Ok(b) => base64_standard_decode(data@) == Ok::<Seq<u8>, Seq<char>>(b@),
            Err(m) => base64_standard_decode(data@) == Err::<Seq<u8>, Seq<char>>(m@),
        },
{
    match base64::Engine::decode(&base64::engine::general_purpose::STANDARD, data) {
        Ok(b) => Ok(b),
        Err(e) => Err(e.to_string()),
    }
}

/// What `{:?}` prints for a string: quoted, with escapes.
pub uninterp spec fn debug_str(s: Seq<char>) -> Seq<char>;

/// `<str as Debug>::fmt`, through `format!("{:?}", ..)`; the result is named by
/// `debug_str`, nothing more is claimed of it.
#[verifier::external_body]
pub(crate) fn debug_quoted(s: &str) -> (r: String)
    ensures
        r@ == debug_str(s@),
{
    format!("{:?}", s)
}

/// What `{:?}` prints for a character: single-quoted, with escapes.
pub uninterp spec fn debug_char(c: char) -> Seq<char>;

/// `<char as Debug>::fmt`, through `format!("{:?}", ..)`; the result is named by
/// `debug_char`, nothing more is claimed of it.
#[verifier::external_body]
pub(crate) fn debug_char_text(c: char) -> (r: String)
    ensures
        r@ == debug_char(c),
{
    format!("{:?}", c)
}

/// The SHA-256 digest of the bytes, as `sha2::Sha256` computes it.
pub uninterp spec fn sha256_digest(data: Seq<u8>) -> Seq<u8>;

/// Calls `sha2::Sha256::digest`; the result is named by `sha256_digest`, and has
/// the 32 bytes of a SHA-256 digest.
#[verifier::external_body]
pub(crate) fn sha256(data: &[u8]) -> (r: Vec<u8>)
    ensures
        r@ == sha256_digest(data@),
        r@.len() == 32,
{
    <sha2::Sha256 as sha2::Digest>::digest(data).to_vec()
}

/// The lower-case hexadecimal digit of `d < 16`.
pub open spec fn hex_digit(d: nat) -> char {
    if d < 10 {
        (48 + d) as char
    } else {
        (87 + d) as char
    }
}

/// Two lower-case hexadecimal digits per byte, as `{:x}` prints a digest.
pub open spec fn lower_hex(b: Seq<u8>) -> Seq<char>
    decreases b.len(),
{
    if b.len() == 0 {
        Seq::empty()
    } else {
        lower_hex(b.drop_last()) + seq![hex_digit(b.last() as nat / 16), hex_digit(b.last() as nat % 16)]
    }
}

/// Hexadecimal text has two characters per byte.
pub proof fn lemma_lower_hex_len(b: Seq<u8>)
    ensures
        lower_hex(b).len() == 2 * b.len(),
    decreases b.len(),
{
    if b.len() > 0 {
        lemma_lower_hex_len(b.drop_last());
    }
}

fn hex_char(d: u8) -> (r: char)
    requires
        d < 16,
    ensures
        r == hex_digit(d as nat),
{
    if d < 10 {
        (48u8 + d) as char
    } else {
        (87u8 + d) as char
    }
}

/// The bytes in lower-case hexadecimal.
pub fn to_lower_hex(b: &[u8]) -> (r: String)
    ensures
        r@ == lower_hex(b@),
{
    let mut out: Vec<char> = Vec::new();
    let mut i: usize = 0;
    while i < b.len()
        invariant
            0 <= i <= b.len(),
            out@ == lower_hex(b@.take(i as int)),
        decreases b.len() - i,
    {
        assert(b@.take(i + 1).drop_last() =~= b@.take(i as int));
        out.push(hex_char(b[i] / 16));
        out.push(hex_char(b[i] % 16));
        i = i + 1;
        assert(out@ =~= lower_hex(b@.take(i as int)));
    }
    assert(b@.take(b.len() as int) =~= b@);
    crate::textseq::chars_to_string(out.as_slice())
}

} // verus!
